//! The messages of the executor protocol.

use vstd::prelude::*;

use crate::engine::observer::data_view;
use crate::json::{Json, JsonView};
use crate::protocol::model::{
    descriptors_view, DescriptorView, ExecutionRequest, ExecutionResult, RequestView, ResultView,
    ToolDescriptor,
};

verus! {

/// The version of the executor protocol.
pub const PROTOCOL_VERSION: u32 = 2;

/// Messages sent from the agent to the executor.
#[derive(Debug, PartialEq, Eq)]
pub enum ClientMessage {
    Hello { protocol_version: u32, token: String, workspace: String },
    Execute { request: ExecutionRequest, timeout_ms: Option<u64> },
    Cancel { execution_id: String },
    ListTools { request_id: String },
    Shutdown,
}

/// What a [`ClientMessage`] says.
pub enum ClientMessageView {
    Hello { protocol_version: u32, token: Seq<char>, workspace: Seq<char> },
    Execute { request: RequestView, timeout_ms: Option<u64> },
    Cancel { execution_id: Seq<char> },
    ListTools { request_id: Seq<char> },
    Shutdown,
}

impl View for ClientMessage {
    type V = ClientMessageView;

    open spec fn view(&self) -> ClientMessageView {
        match self {
            ClientMessage::Hello {
                protocol_version,
                token,
                workspace,
            } => ClientMessageView::Hello {
                protocol_version: *protocol_version,
                token: token@,
                workspace: workspace@,
            },
            ClientMessage::Execute { request, timeout_ms } => ClientMessageView::Execute {
                request: request@,
                timeout_ms: *timeout_ms,
            },
            ClientMessage::Cancel { execution_id } => ClientMessageView::Cancel {
                execution_id: execution_id@,
            },
            ClientMessage::ListTools { request_id } => ClientMessageView::ListTools {
                request_id: request_id@,
            },
            ClientMessage::Shutdown => ClientMessageView::Shutdown,
        }
    }
}

/// Stable failure representation used across the process boundary.
#[derive(Debug, PartialEq, Eq)]
pub struct ProtocolFailure {
    pub code: String,
    pub message: String,
}

/// What a [`ProtocolFailure`] says.
pub struct ProtocolFailureView {
    pub code: Seq<char>,
    pub message: Seq<char>,
}

impl View for ProtocolFailure {
    type V = ProtocolFailureView;

    open spec fn view(&self) -> ProtocolFailureView {
        ProtocolFailureView { code: self.code@, message: self.message@ }
    }
}

impl ProtocolFailure {
    pub fn new(code: &str, message: &str) -> (failure: Self)
        ensures
            failure@ == (ProtocolFailureView { code: code@, message: message@ }),
    {
        ProtocolFailure { code: code.to_owned(), message: message.to_owned() }
    }
}

/// Messages sent from the executor to the agent.
#[allow(inconsistent_fields)]
#[derive(Debug, PartialEq, Eq)]
pub enum ServerMessage {
    HelloAck { protocol_version: u32, workspace: String },
    Accepted { execution_id: String },
    Started { execution_id: String, tool: String, detail: String },
    Progress { execution_id: String, tool: String, message: String, data: Option<Json> },
    Completed { result: ExecutionResult },
    CancelAcknowledged { execution_id: String, found: bool },
    Tools { request_id: String, tools: Vec<ToolDescriptor> },
    Failed { execution_id: Option<String>, error: ProtocolFailure },
    ShutdownAck,
}

/// What a [`ServerMessage`] says.
#[allow(inconsistent_fields)]
pub enum ServerMessageView {
    HelloAck { protocol_version: u32, workspace: Seq<char> },
    Accepted { execution_id: Seq<char> },
    Started { execution_id: Seq<char>, tool: Seq<char>, detail: Seq<char> },
    Progress {
        execution_id: Seq<char>,
        tool: Seq<char>,
        message: Seq<char>,
        data: Option<JsonView>,
    },
    Completed { result: ResultView },
    CancelAcknowledged { execution_id: Seq<char>, found: bool },
    Tools { request_id: Seq<char>, tools: Seq<DescriptorView> },
    Failed { execution_id: Option<Seq<char>>, error: ProtocolFailureView },
    ShutdownAck,
}

impl View for ServerMessage {
    type V = ServerMessageView;

    open spec fn view(&self) -> ServerMessageView {
        match self {
            ServerMessage::HelloAck { protocol_version, workspace } => ServerMessageView::HelloAck {
                protocol_version: *protocol_version,
                workspace: workspace@,
            },
            ServerMessage::Accepted { execution_id } => ServerMessageView::Accepted {
                execution_id: execution_id@,
            },
            ServerMessage::Started { execution_id, tool, detail } => ServerMessageView::Started {
                execution_id: execution_id@,
                tool: tool@,
                detail: detail@,
            },
            ServerMessage::Progress {
                execution_id,
                tool,
                message,
                data,
            } => ServerMessageView::Progress {
                execution_id: execution_id@,
                tool: tool@,
                message: message@,
                data: data_view(*data),
            },
            ServerMessage::Completed { result } => ServerMessageView::Completed {
                result: result@,
            },
            ServerMessage::CancelAcknowledged {
                execution_id,
                found,
            } => ServerMessageView::CancelAcknowledged {
                execution_id: execution_id@,
                found: *found,
            },
            ServerMessage::Tools { request_id, tools } => ServerMessageView::Tools {
                request_id: request_id@,
                tools: descriptors_view(tools@),
            },
            ServerMessage::Failed { execution_id, error } => ServerMessageView::Failed {
                execution_id: match execution_id {
                    Some(id) => Some(id@),
                    None => None,
                },
                error: error@,
            },
            ServerMessage::ShutdownAck => ServerMessageView::ShutdownAck,
        }
    }
}

/// What a message of the agent says is all that it holds.
pub proof fn law_client_messages_are_seen_whole(message: ClientMessage)
    ensures
        match message {
            ClientMessage::Hello { protocol_version, token, workspace } => message@
                matches ClientMessageView::Hello { protocol_version: v, token: t, workspace: w }
                && v == protocol_version && t == token@ && w == workspace@,
            ClientMessage::Execute { request, timeout_ms } => message@
                matches ClientMessageView::Execute { request: r, timeout_ms: t } && r.id
                == request.id@ && r.tool == request.tool@ && r.arguments == request.arguments@ && t
                == timeout_ms,
            ClientMessage::Cancel { execution_id } => message@ matches ClientMessageView::Cancel {
                execution_id: i,
            } && i == execution_id@,
            ClientMessage::ListTools { request_id } => message@
                matches ClientMessageView::ListTools { request_id: i } && i == request_id@,
            ClientMessage::Shutdown => message@ is Shutdown,
        },
{
}

/// What a message of the executor says is all that it holds.
pub proof fn law_server_messages_are_seen_whole(message: ServerMessage)
    ensures
        match message {
            ServerMessage::HelloAck { protocol_version, workspace } => message@
                matches ServerMessageView::HelloAck { protocol_version: v, workspace: w } && v
                == protocol_version && w == workspace@,
            ServerMessage::Accepted { execution_id } => message@
                matches ServerMessageView::Accepted { execution_id: i } && i == execution_id@,
            ServerMessage::Started { execution_id, tool, detail } => message@
                matches ServerMessageView::Started { execution_id: i, tool: t, detail: d } && i
                == execution_id@ && t == tool@ && d == detail@,
            ServerMessage::Progress { execution_id, tool, message: said, data } => message@
                matches ServerMessageView::Progress {
                execution_id: i,
                tool: t,
                message: m,
                data: d,
            } && i == execution_id@ && t == tool@ && m == said@ && match (d, data) {
                (Some(seen), Some(held)) => seen == held@,
                (None, None) => true,
                _ => false,
            },
            ServerMessage::Completed { result } => message@ matches ServerMessageView::Completed {
                result: r,
            } && r.execution_id == result.execution_id@ && r.tool == result.tool@ && r.content
                == result.content@ && r.is_error == result.is_error,
            ServerMessage::CancelAcknowledged { execution_id, found } => message@
                matches ServerMessageView::CancelAcknowledged { execution_id: i, found: f } && i
                == execution_id@ && f == found,
            ServerMessage::Tools { request_id, tools } => message@
                matches ServerMessageView::Tools { request_id: i, tools: t } && i == request_id@
                && t.len() == tools@.len() && forall|k: int|
                0 <= k < t.len() ==> #[trigger] t[k] == tools@[k]@,
            ServerMessage::Failed { execution_id, error } => message@
                matches ServerMessageView::Failed { execution_id: i, error: e } && e.code
                == error.code@ && e.message == error.message@ && match (i, execution_id) {
                (Some(seen), Some(held)) => seen == held@,
                (None, None) => true,
                _ => false,
            },
            ServerMessage::ShutdownAck => message@ is ShutdownAck,
        },
{
}

} // verus!

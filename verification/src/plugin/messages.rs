//! The messages between the supervisor and a plugin process.

use vstd::prelude::*;

use crate::engine::observer::data_view;
use crate::json::{Json, JsonView};

verus! {

/// The version of the plugin protocol.
pub const PLUGIN_PROTOCOL_VERSION: u32 = 1;

/// What the supervisor sends.
#[derive(Debug, PartialEq, Eq)]
pub enum PluginRequest {
    Hello { protocol_version: u32, package_id: String },
    Invoke {
        invocation_id: String,
        tool: String,
        arguments: Json,
        cwd: String,
        timeout_ms: Option<u64>,
    },
    Cancel { invocation_id: String },
    Shutdown,
}

/// What a [`PluginRequest`] says.
pub enum PluginRequestView {
    Hello { protocol_version: u32, package_id: Seq<char> },
    Invoke {
        invocation_id: Seq<char>,
        tool: Seq<char>,
        arguments: JsonView,
        cwd: Seq<char>,
        timeout_ms: Option<u64>,
    },
    Cancel { invocation_id: Seq<char> },
    Shutdown,
}

impl View for PluginRequest {
    type V = PluginRequestView;

    open spec fn view(&self) -> PluginRequestView {
        match self {
            PluginRequest::Hello { protocol_version, package_id } => PluginRequestView::Hello {
                protocol_version: *protocol_version,
                package_id: package_id@,
            },
            PluginRequest::Invoke {
                invocation_id,
                tool,
                arguments,
                cwd,
                timeout_ms,
            } => PluginRequestView::Invoke {
                invocation_id: invocation_id@,
                tool: tool@,
                arguments: arguments@,
                cwd: cwd@,
                timeout_ms: *timeout_ms,
            },
            PluginRequest::Cancel { invocation_id } => PluginRequestView::Cancel {
                invocation_id: invocation_id@,
            },
            PluginRequest::Shutdown => PluginRequestView::Shutdown,
        }
    }
}

/// What a plugin answers.
#[derive(Debug, PartialEq, Eq)]
pub enum PluginResponse {
    HelloAck { protocol_version: u32 },
    Progress { invocation_id: String, message: String, data: Option<Json> },
    Completed { invocation_id: String, content: Json },
    Failed { invocation_id: String, code: String, message: String },
    ShutdownAck,
}

/// What a [`PluginResponse`] says.
pub enum PluginResponseView {
    HelloAck { protocol_version: u32 },
    Progress { invocation_id: Seq<char>, message: Seq<char>, data: Option<JsonView> },
    Completed { invocation_id: Seq<char>, content: JsonView },
    Failed { invocation_id: Seq<char>, code: Seq<char>, message: Seq<char> },
    ShutdownAck,
}

impl View for PluginResponse {
    type V = PluginResponseView;

    open spec fn view(&self) -> PluginResponseView {
        match self {
            PluginResponse::HelloAck { protocol_version } => PluginResponseView::HelloAck {
                protocol_version: *protocol_version,
            },
            PluginResponse::Progress {
                invocation_id,
                message,
                data,
            } => PluginResponseView::Progress {
                invocation_id: invocation_id@,
                message: message@,
                data: data_view(*data),
            },
            PluginResponse::Completed { invocation_id, content } => PluginResponseView::Completed {
                invocation_id: invocation_id@,
                content: content@,
            },
            PluginResponse::Failed {
                invocation_id,
                code,
                message,
            } => PluginResponseView::Failed {
                invocation_id: invocation_id@,
                code: code@,
                message: message@,
            },
            PluginResponse::ShutdownAck => PluginResponseView::ShutdownAck,
        }
    }
}

/// What a request to a plugin says is all that it holds.
pub proof fn law_plugin_requests_are_seen_whole(request: PluginRequest)
    ensures
        match request {
            PluginRequest::Hello { protocol_version, package_id } => request@
                matches PluginRequestView::Hello { protocol_version: v, package_id: p } && v
                == protocol_version && p == package_id@,
            PluginRequest::Invoke {
                invocation_id,
                tool,
                arguments,
                cwd,
                timeout_ms,
            } => request@ matches PluginRequestView::Invoke {
                invocation_id: i,
                tool: t,
                arguments: a,
                cwd: c,
                timeout_ms: ms,
            } && i == invocation_id@ && t == tool@ && a == arguments@ && c == cwd@ && ms
                == timeout_ms,
            PluginRequest::Cancel { invocation_id } => request@ matches PluginRequestView::Cancel {
                invocation_id: i,
            } && i == invocation_id@,
            PluginRequest::Shutdown => request@ is Shutdown,
        },
{
}

/// What an answer of a plugin says is all that it holds.
pub proof fn law_plugin_responses_are_seen_whole(response: PluginResponse)
    ensures
        match response {
            PluginResponse::HelloAck { protocol_version } => response@
                matches PluginResponseView::HelloAck { protocol_version: v } && v
                == protocol_version,
            PluginResponse::Progress { invocation_id, message, data } => response@
                matches PluginResponseView::Progress { invocation_id: i, message: m, data: d } && i
                == invocation_id@ && m == message@ && match (d, data) {
                (Some(seen), Some(held)) => seen == held@,
                (None, None) => true,
                _ => false,
            },
            PluginResponse::Completed { invocation_id, content } => response@
                matches PluginResponseView::Completed { invocation_id: i, content: c } && i
                == invocation_id@ && c == content@,
            PluginResponse::Failed { invocation_id, code, message } => response@
                matches PluginResponseView::Failed { invocation_id: i, code: c, message: m } && i
                == invocation_id@ && c == code@ && m == message@,
            PluginResponse::ShutdownAck => response@ is ShutdownAck,
        },
{
}

} // verus!

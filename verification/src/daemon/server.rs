//! One connection of a client: the handshake, the executions it has active, and
//! the answers it gets.

use vstd::prelude::*;

use crate::engine::observer::{EventView, ExecutionEvent};
use crate::protocol::framing::FrameError;
use crate::protocol::message::{
    ClientMessage, ClientMessageView, ProtocolFailure, ProtocolFailureView, ServerMessage,
    ServerMessageView, PROTOCOL_VERSION,
};
use crate::protocol::model::{
    descriptors_view, DescriptorView, ExecutionRequest, ExecutionResult, RequestView,
    ResultView, ToolDescriptor,
};
use crate::text::{decimal, decimal_text};
use crate::text_map::{distinct_keys, entries_map, TextMap};

verus! {

/// Why serving a connection failed.
#[derive(Debug, PartialEq, Eq)]
pub enum DaemonError {
    Frame(FrameError),
    WriterTask(String),
}

impl DaemonError {
    /// The sentence shown to a person.
    pub fn describe(&self) -> (sentence: String)
        ensures
            sentence@ == match *self {
                DaemonError::Frame(error) => error@.sentence(),
                DaemonError::WriterTask(error) => "response writer task failed: "@ + error@,
            },
    {
        match self {
            DaemonError::Frame(error) => error.describe(),
            DaemonError::WriterTask(error) => "response writer task failed: ".to_owned().concat(
                error.as_str(),
            ),
        }
    }
}

/// How an observation is told to the client.
pub open spec fn wire_view(event: EventView) -> ServerMessageView {
    match event {
        EventView::Started { execution_id, tool, detail } => ServerMessageView::Started {
            execution_id,
            tool,
            detail,
        },
        EventView::Progress { execution_id, tool, message, data } => ServerMessageView::Progress {
            execution_id,
            tool,
            message,
            data,
        },
        EventView::Failed { execution_id, error, .. } => ServerMessageView::Failed {
            execution_id: Some(execution_id),
            error: ProtocolFailureView { code: error.code(), message: error.sentence() },
        },
    }
}

/// How an observation is told to the client: of a failure its code and its
/// sentence, and nothing of the arguments or the environment.
pub fn wire_message(event: ExecutionEvent) -> (message: ServerMessage)
    ensures
        message@ == wire_view(event@),
{
    match event {
        ExecutionEvent::Started { execution_id, tool, detail } => ServerMessage::Started {
            execution_id,
            tool,
            detail,
        },
        ExecutionEvent::Progress { execution_id, tool, message, data } => ServerMessage::Progress {
            execution_id,
            tool,
            message,
            data,
        },
        ExecutionEvent::Failed { execution_id, error, .. } => {
            let sentence = error.describe();
            ServerMessage::Failed {
                execution_id: Some(execution_id),
                error: ProtocolFailure::new(error.code(), sentence.as_str()),
            }
        },
    }
}

/// What a message of the client comes to.
#[derive(Debug, PartialEq, Eq)]
pub enum Reaction {
    /// Send this.
    Reply(ServerMessage),
    /// Open a session, and hand in what came of it.
    Open { token: String, workspace: String },
    /// Send the first, then execute the request and hand its result in.
    Run { accepted: ServerMessage, request: ExecutionRequest, timeout_ms: Option<u64> },
    /// Cancel the execution where it is active, then send this.
    Cancel { execution_id: String, acknowledged: ServerMessage },
    /// Send this and stop reading.
    Stop(ServerMessage),
}

/// What a [`Reaction`] says.
pub enum ReactionView {
    Reply(ServerMessageView),
    Open { token: Seq<char>, workspace: Seq<char> },
    Run { accepted: ServerMessageView, request: RequestView, timeout_ms: Option<u64> },
    Cancel { execution_id: Seq<char>, acknowledged: ServerMessageView },
    Stop(ServerMessageView),
}

impl View for Reaction {
    type V = ReactionView;

    open spec fn view(&self) -> ReactionView {
        match self {
            Reaction::Reply(message) => ReactionView::Reply(message@),
            Reaction::Open { token, workspace } => ReactionView::Open {
                token: token@,
                workspace: workspace@,
            },
            Reaction::Run { accepted, request, timeout_ms } => ReactionView::Run {
                accepted: accepted@,
                request: request@,
                timeout_ms: *timeout_ms,
            },
            Reaction::Cancel { execution_id, acknowledged } => ReactionView::Cancel {
                execution_id: execution_id@,
                acknowledged: acknowledged@,
            },
            Reaction::Stop(message) => ReactionView::Stop(message@),
        }
    }
}

/// A connection. `C` is a handle by which an execution is cancelled.
pub struct Connection<C> {
    negotiated: bool,
    active: TextMap<C>,
    tools: Vec<ToolDescriptor>,
}

/// What a [`Connection`] stands for.
pub struct ConnectionView<C> {
    pub negotiated: bool,
    pub active: Map<Seq<char>, C>,
    pub tools: Seq<DescriptorView>,
}

impl<C> View for Connection<C> {
    type V = ConnectionView<C>;

    closed spec fn view(&self) -> ConnectionView<C> {
        ConnectionView {
            negotiated: self.negotiated,
            active: self.active@,
            tools: descriptors_view(self.tools@),
        }
    }
}

/// A failure told to the client.
pub open spec fn failure(
    execution_id: Option<Seq<char>>,
    code: Seq<char>,
    message: Seq<char>,
) -> ServerMessageView {
    ServerMessageView::Failed { execution_id, error: ProtocolFailureView { code, message } }
}

impl<C> ConnectionView<C> {
    /// What a message of the client comes to.
    pub open spec fn reaction(self, message: ClientMessageView) -> ReactionView {
        match message {
            ClientMessageView::Hello { protocol_version, token, workspace } => if protocol_version
                == PROTOCOL_VERSION {
                ReactionView::Open { token, workspace }
            } else {
                ReactionView::Reply(
                    failure(
                        None,
                        "unsupported_protocol"@,
                        "host requested protocol "@ + decimal(protocol_version as nat)
                            + ", guest supports "@ + decimal(PROTOCOL_VERSION as nat),
                    ),
                )
            },
            _ if !self.negotiated => ReactionView::Reply(
                failure(
                    None,
                    "handshake_required"@,
                    "hello must be the first client message"@,
                ),
            ),
            ClientMessageView::Execute { request, timeout_ms } => if self.active.contains_key(
                request.id,
            ) {
                ReactionView::Reply(
                    failure(
                        Some(request.id),
                        "duplicate_execution_id"@,
                        "an execution with this id is already active"@,
                    ),
                )
            } else {
                ReactionView::Run {
                    accepted: ServerMessageView::Accepted { execution_id: request.id },
                    request,
                    timeout_ms,
                }
            },
            ClientMessageView::Cancel { execution_id } => ReactionView::Cancel {
                execution_id,
                acknowledged: ServerMessageView::CancelAcknowledged {
                    execution_id,
                    found: self.active.contains_key(execution_id),
                },
            },
            ClientMessageView::ListTools { request_id } => ReactionView::Reply(
                ServerMessageView::Tools { request_id, tools: self.tools },
            ),
            ClientMessageView::Shutdown => ReactionView::Stop(ServerMessageView::ShutdownAck),
        }
    }

    /// The connection after a message of the client: an execution that runs is
    /// active, and nothing else changes.
    pub open spec fn received(self, message: ClientMessageView, handle: C) -> ConnectionView<C> {
        match self.reaction(message) {
            ReactionView::Run { request, .. } => ConnectionView {
                active: self.active.insert(request.id, handle),
                ..self
            },
            _ => self,
        }
    }

    /// The connection after a session was opened or refused, and the answer.
    pub open spec fn opened(
        self,
        session: Result<(Seq<char>, Seq<DescriptorView>), ProtocolFailureView>,
    ) -> (ConnectionView<C>, ServerMessageView) {
        match session {
            Ok((workspace, tools)) => (
                ConnectionView { negotiated: true, tools, ..self },
                ServerMessageView::HelloAck { protocol_version: PROTOCOL_VERSION, workspace },
            ),
            Err(refusal) => (
                self,
                ServerMessageView::Failed { execution_id: None, error: refusal },
            ),
        }
    }

    /// The connection after the result of an execution, and the answer: the
    /// execution is not active any more.
    pub open spec fn completed(self, result: ResultView) -> (ConnectionView<C>, ServerMessageView) {
        (
            ConnectionView { active: self.active.remove(result.execution_id), ..self },
            ServerMessageView::Completed { result },
        )
    }

    /// The connection after its end: nothing is active.
    pub open spec fn ended(self) -> ConnectionView<C> {
        ConnectionView { active: Map::empty(), ..self }
    }
}

/// What opening a session came to.
pub open spec fn session_view(
    session: Result<(String, Vec<ToolDescriptor>), ProtocolFailure>,
) -> Result<(Seq<char>, Seq<DescriptorView>), ProtocolFailureView> {
    match session {
        Ok((workspace, tools)) => Ok((workspace@, descriptors_view(tools@))),
        Err(refusal) => Err(refusal@),
    }
}

/// The same descriptors.
pub fn copy_descriptors(tools: &Vec<ToolDescriptor>) -> (copies: Vec<ToolDescriptor>)
    ensures
        descriptors_view(copies@) == descriptors_view(tools@),
{
    let mut copies: Vec<ToolDescriptor> = Vec::new();
    let mut i: usize = 0;
    while i < tools.len()
        invariant
            i <= tools@.len(),
            copies@.len() == i,
            forall|j: int| 0 <= j < i ==> #[trigger] copies@[j]@ == tools@[j]@,
        decreases tools.len() - i,
    {
        copies.push(tools[i].clone());
        i += 1;
    }
    assert(descriptors_view(copies@) =~= descriptors_view(tools@));
    copies
}

/// A failure told to the client.
fn send_failure(execution_id: Option<String>, code: &str, message: &str) -> (reply: ServerMessage)
    ensures
        reply@ == failure(
            match execution_id {
                Some(id) => Some(id@),
                None => None,
            },
            code@,
            message@,
        ),
{
    ServerMessage::Failed { execution_id, error: ProtocolFailure::new(code, message) }
}

impl<C> Connection<C> {
    /// A connection before its handshake.
    pub fn new() -> (connection: Self)
        ensures
            connection@ == (ConnectionView::<C> {
                negotiated: false,
                active: Map::empty(),
                tools: Seq::empty(),
            }),
    {
        let connection = Connection {
            negotiated: false,
            active: TextMap::new(),
            tools: Vec::new(),
        };
        assert(connection@.tools =~= Seq::empty());
        connection
    }

    /// Takes in a message of the client. `handle` becomes that of the execution
    /// which the message starts, if it starts one.
    pub fn receive(&mut self, message: ClientMessage, handle: C) -> (reaction: Reaction)
        ensures
            reaction@ == old(self)@.reaction(message@),
            final(self)@ == old(self)@.received(message@, handle),
            old(self)@.negotiated ==> (message matches ClientMessage::Execute {
                request: sent,
                timeout_ms: asked,
            } ==> !old(self)@.active.contains_key(sent.id@) ==> (reaction matches Reaction::Run {
                accepted: ServerMessage::Accepted { execution_id },
                request,
                timeout_ms,
            } && execution_id@ == sent.id@ && request == sent && timeout_ms == asked
                && final(self)@.active == old(self)@.active.insert(sent.id@, handle))),
            old(self)@.negotiated ==> (message matches ClientMessage::Cancel { execution_id: id }
                ==> (reaction matches Reaction::Cancel {
                execution_id,
                acknowledged: ServerMessage::CancelAcknowledged { execution_id: told, found },
            } && execution_id@ == id@ && told@ == id@ && found == old(self)@.active.contains_key(
                id@,
            ))),
            old(self)@.negotiated ==> (message matches ClientMessage::ListTools { request_id: id }
                ==> (reaction matches Reaction::Reply(ServerMessage::Tools { request_id, tools })
                && request_id@ == id@ && descriptors_view(tools@) == old(self)@.tools)),
            message matches ClientMessage::Hello { protocol_version, token: t, workspace: w } ==> (
            protocol_version == PROTOCOL_VERSION ==> (reaction matches Reaction::Open {
                token,
                workspace,
            } && token@ == t@ && workspace@ == w@)),
    {
        if !self.negotiated && !matches!(message, ClientMessage::Hello { .. }) {
            return Reaction::Reply(
                send_failure(
                    None,
                    "handshake_required",
                    "hello must be the first client message",
                ),
            );
        }
        match message {
            ClientMessage::Hello { protocol_version, token, workspace } => {
                if protocol_version == PROTOCOL_VERSION {
                    Reaction::Open { token, workspace }
                } else {
                    let asked = decimal_text(protocol_version as u128);
                    let supported = decimal_text(PROTOCOL_VERSION as u128);
                    let text = "host requested protocol ".to_owned().concat(asked.as_str()).concat(
                        ", guest supports ",
                    ).concat(supported.as_str());
                    Reaction::Reply(send_failure(None, "unsupported_protocol", text.as_str()))
                }
            },
            ClientMessage::Execute { request, timeout_ms } => {
                let id = request.id.clone();
                if self.active.contains_key(id.as_str()) {
                    return Reaction::Reply(
                        send_failure(
                            Some(id),
                            "duplicate_execution_id",
                            "an execution with this id is already active",
                        ),
                    );
                }
                let accepted = ServerMessage::Accepted { execution_id: id.clone() };
                self.active.insert(id, handle);
                Reaction::Run { accepted, request, timeout_ms }
            },
            ClientMessage::Cancel { execution_id } => {
                let found = self.active.contains_key(execution_id.as_str());
                let acknowledged = ServerMessage::CancelAcknowledged {
                    execution_id: execution_id.clone(),
                    found,
                };
                Reaction::Cancel { execution_id, acknowledged }
            },
            ClientMessage::ListTools { request_id } => Reaction::Reply(
                ServerMessage::Tools { request_id, tools: copy_descriptors(&self.tools) },
            ),
            ClientMessage::Shutdown => Reaction::Stop(ServerMessage::ShutdownAck),
        }
    }

    /// Takes in what opening a session came to: the workspace and the tools, or
    /// why it was refused.
    pub fn opened(
        &mut self,
        session: Result<(String, Vec<ToolDescriptor>), ProtocolFailure>,
    ) -> (reply: ServerMessage)
        ensures
            (final(self)@, reply@) == old(self)@.opened(session_view(session)),
            match session {
                Ok((opened, tools)) => final(self)@.negotiated && final(self)@.tools
                    == descriptors_view(tools@) && (reply matches ServerMessage::HelloAck {
                    protocol_version,
                    workspace,
                } && protocol_version == PROTOCOL_VERSION && workspace == opened),
                Err(refusal) => final(self)@ == old(self)@ && (reply matches ServerMessage::Failed {
                    execution_id: None,
                    error,
                } && error == refusal),
            },
    {
        match session {
            Ok((workspace, tools)) => {
                self.negotiated = true;
                self.tools = tools;
                ServerMessage::HelloAck { protocol_version: PROTOCOL_VERSION, workspace }
            },
            Err(refusal) => ServerMessage::Failed { execution_id: None, error: refusal },
        }
    }

    /// The handle of an active execution.
    pub fn handle(&self, execution_id: &str) -> (handle: Option<&C>)
        ensures
            match handle {
                Some(handle) => self@.active.contains_pair(execution_id@, *handle),
                None => !self@.active.contains_key(execution_id@),
            },
    {
        self.active.get(execution_id)
    }

    /// Takes in the result of an execution, which is then not active any more.
    pub fn completed(&mut self, result: ExecutionResult) -> (reply: ServerMessage)
        ensures
            (final(self)@, reply@) == old(self)@.completed(result@),
            reply == (ServerMessage::Completed { result }),
            final(self)@.active == old(self)@.active.remove(result.execution_id@),
    {
        self.active.remove(result.execution_id.as_str());
        ServerMessage::Completed { result }
    }

    /// The connection is gone: every active execution, to be cancelled.
    pub fn end(&mut self) -> (cancelled: Vec<(String, C)>)
        ensures
            distinct_keys(cancelled@),
            entries_map(cancelled@) == old(self)@.active,
            final(self)@ == old(self)@.ended(),
    {
        self.active.take_all()
    }
}

/// Before its handshake a connection does nothing but ask for it.
pub proof fn law_handshake_comes_first<C>(
    connection: ConnectionView<C>,
    message: ClientMessageView,
    handle: C,
)
    requires
        !connection.negotiated,
        !(message is Hello),
    ensures
        connection.reaction(message) == ReactionView::Reply(
            failure(None, "handshake_required"@, "hello must be the first client message"@),
        ),
        connection.received(message, handle) == connection,
{
}

/// A request under an id that is active is refused and leaves the active
/// execution alone; the same id is free again once its result is in.
pub proof fn law_active_ids_are_unique<C>(
    connection: ConnectionView<C>,
    request: RequestView,
    timeout_ms: Option<u64>,
    first: C,
    second: C,
    result: ResultView,
)
    requires
        connection.negotiated,
        !connection.active.contains_key(request.id),
        result.execution_id == request.id,
    ensures
        ({
            let message = ClientMessageView::Execute { request, timeout_ms };
            let running = connection.received(message, first);
            let finished = running.completed(result).0;
            &&& connection.reaction(message) is Run
            &&& running.active.contains_pair(request.id, first)
            &&& running.reaction(message) == ReactionView::Reply(
                failure(
                    Some(request.id),
                    "duplicate_execution_id"@,
                    "an execution with this id is already active"@,
                ),
            )
            &&& running.received(message, second) == running
            &&& finished.reaction(message) is Run
        }),
{
}

/// A failure is told to the client without anything of the arguments or the
/// environment.
pub proof fn law_failures_are_told_without_arguments(a: EventView, b: EventView)
    requires
        a matches EventView::Failed { execution_id: x, error: e, .. } && b matches EventView::Failed {
            execution_id: y,
            error: f,
            ..
        } && x == y && e == f,
    ensures
        wire_view(a) == wire_view(b),
{
}

/// A request that a client sends is the request that runs: its id, its tool and
/// its arguments, with the timeout that came with it, once it was accepted
/// under its id.
pub proof fn law_requests_run_as_they_were_sent<C>(
    connection: ConnectionView<C>,
    sent: RequestView,
    asked: Option<u64>,
    handle: C,
)
    requires
        connection.negotiated,
        !connection.active.contains_key(sent.id),
    ensures
        ({
            let message = ClientMessageView::Execute { request: sent, timeout_ms: asked };
            &&& connection.reaction(message) matches ReactionView::Run {
                accepted: ServerMessageView::Accepted { execution_id },
                request,
                timeout_ms,
            } && execution_id == sent.id && request.id == sent.id && request.tool == sent.tool
                && request.arguments == sent.arguments && timeout_ms == asked
            &&& connection.received(message, handle).active.contains_pair(sent.id, handle)
            &&& forall|other: Seq<char>|
                other != sent.id ==> (#[trigger] connection.received(
                    message,
                    handle,
                ).active.contains_key(other) <==> connection.active.contains_key(other))
            &&& connection.received(message, handle).tools == connection.tools
            &&& connection.received(message, handle).negotiated
        }),
{
}

/// Two requests that differ in anything run differently.
pub proof fn law_requests_are_told_apart<C>(
    connection: ConnectionView<C>,
    a: RequestView,
    b: RequestView,
    timeout_a: Option<u64>,
    timeout_b: Option<u64>,
)
    requires
        connection.negotiated,
        !connection.active.contains_key(a.id),
        !connection.active.contains_key(b.id),
        a != b || timeout_a != timeout_b,
    ensures
        connection.reaction(ClientMessageView::Execute { request: a, timeout_ms: timeout_a })
            != connection.reaction(
            ClientMessageView::Execute { request: b, timeout_ms: timeout_b },
        ),
{
}

/// A cancellation goes to the execution that was named, and the client is told
/// whether it was active; nothing changes until its result is in.
pub proof fn law_cancellations_name_their_execution<C>(
    connection: ConnectionView<C>,
    id: Seq<char>,
    handle: C,
)
    requires
        connection.negotiated,
    ensures
        connection.reaction(ClientMessageView::Cancel { execution_id: id })
            matches ReactionView::Cancel {
            execution_id,
            acknowledged: ServerMessageView::CancelAcknowledged { execution_id: told, found },
        } && execution_id == id && told == id && (found <==> connection.active.contains_key(id)),
        connection.received(ClientMessageView::Cancel { execution_id: id }, handle) == connection,
{
}

/// The tools that a session was opened with are the tools that are listed, as
/// they are, under the id of the request, whatever ran in between.
pub proof fn law_listed_tools_are_the_sessions<C>(
    connection: ConnectionView<C>,
    workspace: Seq<char>,
    offered: Seq<DescriptorView>,
    between: ClientMessageView,
    handle: C,
    result: ResultView,
    id: Seq<char>,
)
    ensures
        ({
            let (open, answer) = connection.opened(Ok((workspace, offered)));
            let later = open.received(between, handle).completed(result).0;
            &&& answer matches ServerMessageView::HelloAck {
                protocol_version,
                workspace: told,
            } && protocol_version == PROTOCOL_VERSION && told == workspace
            &&& later.reaction(ClientMessageView::ListTools { request_id: id })
                matches ReactionView::Reply(ServerMessageView::Tools { request_id, tools })
                && request_id == id && tools == offered
        }),
{
}

/// A greeting in the protocol's version asks for a session with the token and
/// the workspace that it holds; in any other version it is refused and nothing
/// changes.
pub proof fn law_greetings_open_what_they_name<C>(
    connection: ConnectionView<C>,
    version: u32,
    token: Seq<char>,
    workspace: Seq<char>,
    handle: C,
)
    ensures
        ({
            let message = ClientMessageView::Hello { protocol_version: version, token, workspace };
            let reaction = connection.reaction(message);
            &&& version == PROTOCOL_VERSION ==> (reaction matches ReactionView::Open {
                token: t,
                workspace: w,
            } && t == token && w == workspace)
            &&& version != PROTOCOL_VERSION ==> (reaction matches ReactionView::Reply(
                ServerMessageView::Failed { execution_id: None, error },
            ) && error.code == "unsupported_protocol"@)
            &&& connection.received(message, handle) == connection
        }),
{
}

/// A refused session leaves the connection as it was, and the client gets the
/// refusal.
pub proof fn law_refusals_reach_the_client<C>(
    connection: ConnectionView<C>,
    refusal: ProtocolFailureView,
)
    ensures
        connection.opened(Err(refusal)).0 == connection,
        connection.opened(Err(refusal)).1 matches ServerMessageView::Failed {
            execution_id: None,
            error,
        } && error.code == refusal.code && error.message == refusal.message,
{
}

/// The result of an execution reaches the client as it is, and the execution is
/// not active any more; the others stay.
pub proof fn law_results_reach_the_client<C>(connection: ConnectionView<C>, given: ResultView)
    ensures
        connection.completed(given).1 matches ServerMessageView::Completed { result }
            && result.execution_id == given.execution_id && result.tool == given.tool
            && result.content == given.content && result.is_error == given.is_error,
        !connection.completed(given).0.active.contains_key(given.execution_id),
        forall|other: Seq<char>|
            other != given.execution_id ==> (#[trigger] connection.completed(
                given,
            ).0.active.contains_key(other) <==> connection.active.contains_key(other)),
{
}

/// A shutdown is acknowledged, and nothing is read after it.
pub proof fn law_shutdown_is_acknowledged<C>(connection: ConnectionView<C>)
    requires
        connection.negotiated,
    ensures
        connection.reaction(ClientMessageView::Shutdown) matches ReactionView::Stop(answer)
            && answer is ShutdownAck,
{
}

/// What is observed of an execution is told under its id: a start with its
/// tool and description, progress with its message and data, a failure with
/// the code and the sentence of its error.
pub proof fn law_observations_are_told_whole(event: EventView)
    ensures
        match event {
            EventView::Started { execution_id, tool, detail } => wire_view(event)
                matches ServerMessageView::Started { execution_id: i, tool: t, detail: d }
                && i == execution_id && t == tool && d == detail,
            EventView::Progress { execution_id, tool, message, data } => wire_view(event)
                matches ServerMessageView::Progress {
                execution_id: i,
                tool: t,
                message: m,
                data: d,
            } && i == execution_id && t == tool && m == message && d == data,
            EventView::Failed { execution_id, error, .. } => wire_view(event)
                matches ServerMessageView::Failed { execution_id: i, error: told } && i == Some(
                execution_id,
            ) && told.code == error.code() && told.message == error.sentence(),
        },
{
}

/// What is to be done about a message is all that a reaction holds.
pub proof fn law_reactions_are_seen_whole(reaction: Reaction)
    ensures
        match reaction {
            Reaction::Reply(message) => reaction@ matches ReactionView::Reply(m) && m == message@,
            Reaction::Open { token, workspace } => reaction@ matches ReactionView::Open {
                token: t,
                workspace: w,
            } && t == token@ && w == workspace@,
            Reaction::Run { accepted, request, timeout_ms } => reaction@ matches ReactionView::Run {
                accepted: a,
                request: r,
                timeout_ms: t,
            } && a == accepted@ && r == request@ && t == timeout_ms,
            Reaction::Cancel { execution_id, acknowledged } => reaction@
                matches ReactionView::Cancel { execution_id: i, acknowledged: a } && i
                == execution_id@ && a == acknowledged@,
            Reaction::Stop(message) => reaction@ matches ReactionView::Stop(m) && m == message@,
        },
{
}

/// An opened session is seen with its directory and each of its tools, a refused
/// one with the refusal.
pub proof fn law_sessions_are_seen_whole(
    session: Result<(String, Vec<ToolDescriptor>), ProtocolFailure>,
    i: int,
)
    ensures
        match session {
            Ok((workspace, tools)) => session_view(session) matches Ok((directory, listed))
                && directory == workspace@ && listed.len() == tools@.len() && (0 <= i
                < listed.len() ==> listed[i] == tools@[i]@),
            Err(refusal) => session_view(session) matches Err(told) && told == refusal@,
        },
{
}

} // verus!

//! A client's connection: which requests wait, and which answer goes where.

use vstd::prelude::*;

use crate::client::api::{ClientError, ClientErrorView};
use crate::protocol::message::{
    ClientMessage, ClientMessageView, ServerMessage, ServerMessageView, PROTOCOL_VERSION,
};
use crate::protocol::model::{descriptors_view, ExecutionRequest, ExecutionResult, ToolDescriptor};
use crate::text::{decimal, decimal_text};
use crate::text_map::{distinct_keys, entries_map, TextMap};

verus! {

/// Whole milliseconds of a time in nanoseconds, as far as they fit.
pub open spec fn saturating_ms(nanos: u128) -> u64 {
    if nanos / 1_000_000 > u64::MAX {
        u64::MAX
    } else {
        (nanos / 1_000_000) as u64
    }
}

/// The requests that wait for answers. `P`, `A` and `T` are what the answers to
/// executions, cancellations and listings are handed to.
pub struct WslClient<P, A, T> {
    pending: TextMap<P>,
    cancel_acks: TextMap<A>,
    tool_acks: TextMap<T>,
    next_request_id: u64,
}

/// What a [`WslClient`] stands for.
pub struct ClientView<P, A, T> {
    pub pending: Map<Seq<char>, P>,
    pub cancel_acks: Map<Seq<char>, A>,
    pub tool_acks: Map<Seq<char>, T>,
    pub next_request_id: u64,
}

impl<P, A, T> View for WslClient<P, A, T> {
    type V = ClientView<P, A, T>;

    closed spec fn view(&self) -> ClientView<P, A, T> {
        ClientView {
            pending: self.pending@,
            cancel_acks: self.cancel_acks@,
            tool_acks: self.tool_acks@,
            next_request_id: self.next_request_id,
        }
    }
}

/// Whom a message of the executor is for.
#[derive(Debug, PartialEq, Eq)]
#[allow(inconsistent_fields)]
pub enum Delivery<P, A, T> {
    Execution { waiting: P, outcome: Result<ExecutionResult, ClientError> },
    Cancellation { waiting: A, found: bool },
    Listing { waiting: T, tools: Vec<ToolDescriptor> },
    Nobody,
}

/// Whether the executor answered the greeting as it must: a refusal is handed
/// on, and anything else is an error. `shown` is what was read, for that error.
pub fn check_hello(hello: Option<ServerMessage>, shown: &str) -> (checked: Result<(), ClientError>)
    ensures
        match hello {
            Some(ServerMessage::HelloAck { protocol_version, .. }) if protocol_version
                == PROTOCOL_VERSION => checked is Ok,
            Some(ServerMessage::Failed { error, .. }) => checked matches Err(refusal) && refusal@
                == (ClientErrorView::Remote { code: error@.code, message: error@.message }),
            _ => checked matches Err(error) && error@ == ClientErrorView::Handshake(
                "unexpected guest response: "@ + shown@,
            ),
        },
{
    let accepted = match &hello {
        Some(ServerMessage::HelloAck { protocol_version, .. }) => *protocol_version
            == PROTOCOL_VERSION,
        _ => false,
    };
    if accepted {
        return Ok(());
    }
    match hello {
        Some(ServerMessage::Failed { error, .. }) => Err(
            ClientError::Remote { code: error.code, message: error.message },
        ),
        _ => Err(ClientError::Handshake("unexpected guest response: ".to_owned().concat(shown))),
    }
}

/// The greeting of a client.
pub fn hello(token: &str, workspace: &str) -> (message: ClientMessage)
    ensures
        message@ == (ClientMessageView::Hello {
            protocol_version: PROTOCOL_VERSION,
            token: token@,
            workspace: workspace@,
        }),
{
    ClientMessage::Hello {
        protocol_version: PROTOCOL_VERSION,
        token: token.to_owned(),
        workspace: workspace.to_owned(),
    }
}

/// The id of a listing.
pub open spec fn listing_id(n: u64) -> Seq<char> {
    "tools-"@ + decimal(n as nat)
}

impl<P, A, T> WslClient<P, A, T> {
    /// A connection without requests.
    pub fn new() -> (client: Self)
        ensures
            client@ == (ClientView::<P, A, T> {
                pending: Map::empty(),
                cancel_acks: Map::empty(),
                tool_acks: Map::empty(),
                next_request_id: 1,
            }),
    {
        WslClient {
            pending: TextMap::new(),
            cancel_acks: TextMap::new(),
            tool_acks: TextMap::new(),
            next_request_id: 1,
        }
    }

    /// An execution is requested: what to send, and who waits. An id that waits
    /// already is refused. `timeout` is in nanoseconds.
    pub fn execute(&mut self, request: ExecutionRequest, timeout: Option<u128>, waiting: P) -> (
        message: Result<ClientMessage, ClientError>)
        ensures
            match message {
                Ok(message) => {
                    &&& !old(self)@.pending.contains_key(request@.id)
                    &&& message@ == (ClientMessageView::Execute {
                        request: request@,
                        timeout_ms: match timeout {
                            Some(nanos) => Some(saturating_ms(nanos)),
                            None => None,
                        },
                    })
                    &&& message matches ClientMessage::Execute { request: sent, timeout_ms }
                        && sent == request && timeout_ms is Some == timeout is Some
                    &&& final(self)@ == (ClientView {
                        pending: old(self)@.pending.insert(request@.id, waiting),
                        ..old(self)@
                    })
                },
                Err(error) => {
                    &&& old(self)@.pending.contains_key(request@.id)
                    &&& error@ == ClientErrorView::DuplicateExecutionId(request@.id)
                    &&& final(self)@ == old(self)@
                },
            },
    {
        let id = request.id.clone();
        if self.pending.contains_key(id.as_str()) {
            return Err(ClientError::DuplicateExecutionId(id));
        }
        self.pending.insert(id, waiting);
        let timeout_ms: Option<u64> = match timeout {
            Some(nanos) => {
                let ms: u128 = nanos / 1_000_000;
                if ms > u64::MAX as u128 {
                    Some(u64::MAX)
                } else {
                    Some(ms as u64)
                }
            },
            None => None,
        };
        Ok(ClientMessage::Execute { request, timeout_ms })
    }

    /// The request of an execution could not be sent: nobody waits for it any
    /// more.
    pub fn unsent_execution(&mut self, id: &str) -> (waiting: Option<P>)
        ensures
            final(self)@ == (ClientView { pending: old(self)@.pending.remove(id@), ..old(self)@ }),
            match waiting {
                Some(waiting) => old(self)@.pending.contains_pair(id@, waiting),
                None => !old(self)@.pending.contains_key(id@),
            },
    {
        self.pending.remove(id)
    }

    /// A cancellation is requested: what to send, and who waits. Who waited for
    /// the same id before is given up.
    pub fn cancel(&mut self, id: &str, waiting: A) -> (sent: (ClientMessage, Option<A>))
        ensures
            sent.0@ == (ClientMessageView::Cancel { execution_id: id@ }),
            final(self)@ == (ClientView {
                cancel_acks: old(self)@.cancel_acks.insert(id@, waiting),
                ..old(self)@
            }),
            match sent.1 {
                Some(displaced) => old(self)@.cancel_acks.contains_pair(id@, displaced),
                None => !old(self)@.cancel_acks.contains_key(id@),
            },
    {
        let displaced = self.cancel_acks.insert(id.to_owned(), waiting);
        (ClientMessage::Cancel { execution_id: id.to_owned() }, displaced)
    }

    /// The request of a cancellation could not be sent.
    pub fn unsent_cancellation(&mut self, id: &str) -> (waiting: Option<A>)
        ensures
            final(self)@ == (ClientView {
                cancel_acks: old(self)@.cancel_acks.remove(id@),
                ..old(self)@
            }),
            match waiting {
                Some(waiting) => old(self)@.cancel_acks.contains_pair(id@, waiting),
                None => !old(self)@.cancel_acks.contains_key(id@),
            },
    {
        self.cancel_acks.remove(id)
    }

    /// The tools are asked for, under an id of its own: what to send, and who
    /// waits.
    pub fn list_tools(&mut self, waiting: T) -> (message: ClientMessage)
        ensures
            message@ == (ClientMessageView::ListTools {
                request_id: listing_id(old(self)@.next_request_id),
            }),
            final(self)@ == (ClientView {
                tool_acks: old(self)@.tool_acks.insert(
                    listing_id(old(self)@.next_request_id),
                    waiting,
                ),
                next_request_id: if old(self)@.next_request_id == u64::MAX {
                    0
                } else {
                    (old(self)@.next_request_id + 1) as u64
                },
                ..old(self)@
            }),
    {
        let n: u64 = self.next_request_id;
        self.next_request_id = if n == u64::MAX {
            0
        } else {
            n + 1
        };
        let number = decimal_text(n as u128);
        let id = "tools-".to_owned().concat(number.as_str());
        self.tool_acks.insert(id.clone(), waiting);
        ClientMessage::ListTools { request_id: id }
    }

    /// The request of a listing could not be sent.
    pub fn unsent_listing(&mut self, id: &str) -> (waiting: Option<T>)
        ensures
            final(self)@ == (ClientView {
                tool_acks: old(self)@.tool_acks.remove(id@),
                ..old(self)@
            }),
            match waiting {
                Some(waiting) => old(self)@.tool_acks.contains_pair(id@, waiting),
                None => !old(self)@.tool_acks.contains_key(id@),
            },
    {
        self.tool_acks.remove(id)
    }

    /// Takes in a message of the executor and tells whom it is for. A message
    /// that answers nothing which waits is dropped.
    pub fn receive(&mut self, message: ServerMessage) -> (delivery: Delivery<P, A, T>)
        ensures
            match message@ {
                ServerMessageView::Completed { result } => {
                    &&& final(self)@ == (ClientView {
                        pending: old(self)@.pending.remove(result.execution_id),
                        ..old(self)@
                    })
                    &&& if old(self)@.pending.contains_key(result.execution_id) {
                        delivery matches Delivery::Execution { waiting, outcome: Ok(given) }
                            && waiting == old(self)@.pending[result.execution_id] && given@
                            == result && message == (ServerMessage::Completed { result: given })
                    } else {
                        delivery is Nobody
                    }
                },
                ServerMessageView::Failed { execution_id: Some(id), error } => {
                    &&& final(self)@ == (ClientView {
                        pending: old(self)@.pending.remove(id),
                        ..old(self)@
                    })
                    &&& if old(self)@.pending.contains_key(id) {
                        delivery matches Delivery::Execution { waiting, outcome: Err(given) }
                            && waiting == old(self)@.pending[id] && given@ == (
                        ClientErrorView::Remote { code: error.code, message: error.message })
                    } else {
                        delivery is Nobody
                    }
                },
                ServerMessageView::CancelAcknowledged { execution_id, found } => {
                    &&& final(self)@ == (ClientView {
                        cancel_acks: old(self)@.cancel_acks.remove(execution_id),
                        ..old(self)@
                    })
                    &&& if old(self)@.cancel_acks.contains_key(execution_id) {
                        delivery == (Delivery::<P, A, T>::Cancellation {
                            waiting: old(self)@.cancel_acks[execution_id],
                            found,
                        })
                    } else {
                        delivery is Nobody
                    }
                },
                ServerMessageView::Tools { request_id, tools } => {
                    &&& final(self)@ == (ClientView {
                        tool_acks: old(self)@.tool_acks.remove(request_id),
                        ..old(self)@
                    })
                    &&& if old(self)@.tool_acks.contains_key(request_id) {
                        delivery matches Delivery::Listing { waiting, tools: given } && waiting
                            == old(self)@.tool_acks[request_id] && descriptors_view(given@)
                            == tools
                    } else {
                        delivery is Nobody
                    }
                },
                _ => delivery is Nobody && final(self)@ == old(self)@,
            },
    {
        match message {
            ServerMessage::Completed { result } => {
                match self.pending.remove(result.execution_id.as_str()) {
                    Some(waiting) => Delivery::Execution { waiting, outcome: Ok(result) },
                    None => Delivery::Nobody,
                }
            },
            ServerMessage::Failed { execution_id: Some(id), error } => {
                match self.pending.remove(id.as_str()) {
                    Some(waiting) => Delivery::Execution {
                        waiting,
                        outcome: Err(
                            ClientError::Remote { code: error.code, message: error.message },
                        ),
                    },
                    None => Delivery::Nobody,
                }
            },
            ServerMessage::CancelAcknowledged { execution_id, found } => {
                match self.cancel_acks.remove(execution_id.as_str()) {
                    Some(waiting) => Delivery::Cancellation { waiting, found },
                    None => Delivery::Nobody,
                }
            },
            ServerMessage::Tools { request_id, tools } => {
                match self.tool_acks.remove(request_id.as_str()) {
                    Some(waiting) => Delivery::Listing { waiting, tools },
                    None => Delivery::Nobody,
                }
            },
            _ => Delivery::Nobody,
        }
    }

    /// The connection is gone: everybody who waits, to be told so.
    pub fn disconnected(&mut self) -> (left: (Vec<(String, P)>, Vec<(String, A)>, Vec<(String, T)>))
        ensures
            distinct_keys(left.0@) && entries_map(left.0@) == old(self)@.pending,
            distinct_keys(left.1@) && entries_map(left.1@) == old(self)@.cancel_acks,
            distinct_keys(left.2@) && entries_map(left.2@) == old(self)@.tool_acks,
            final(self)@ == (ClientView {
                pending: Map::empty(),
                cancel_acks: Map::empty(),
                tool_acks: Map::empty(),
                ..old(self)@
            }),
    {
        let executions = self.pending.take_all();
        let cancellations = self.cancel_acks.take_all();
        let listings = self.tool_acks.take_all();
        (executions, cancellations, listings)
    }
}

/// An answer goes to the one request that waits for it: whoever else waits goes
/// on waiting.
pub proof fn law_answers_leave_others_waiting<P>(
    pending: Map<Seq<char>, P>,
    answered: Seq<char>,
    other: Seq<char>,
)
    requires
        answered != other,
    ensures
        !pending.remove(answered).contains_key(answered),
        pending.remove(answered).contains_key(other) <==> pending.contains_key(other),
        pending.contains_key(other) ==> pending.remove(answered)[other] == pending[other],
{
}

/// Listings are told apart: two different numbers give two different ids.
pub proof fn law_listing_ids_differ(m: u64, n: u64)
    requires
        m != n,
    ensures
        listing_id(m) != listing_id(n),
{
    crate::text::lemma_decimal_injective(m as nat, n as nat);
    let prefix = "tools-"@;
    if listing_id(m) == listing_id(n) {
        assert(listing_id(m).skip(prefix.len() as int) =~= decimal(m as nat));
        assert(listing_id(n).skip(prefix.len() as int) =~= decimal(n as nat));
    }
}

/// A time is told in whole milliseconds, rounded down, as far as they fit.
pub proof fn law_milliseconds_are_rounded_down(nanos: u128)
    ensures
        nanos < (u64::MAX + 1) * 1_000_000 ==> saturating_ms(nanos) * 1_000_000 <= nanos
            < (saturating_ms(nanos) + 1) * 1_000_000,
        nanos >= (u64::MAX + 1) * 1_000_000 ==> saturating_ms(nanos) == u64::MAX,
{
}

} // verus!

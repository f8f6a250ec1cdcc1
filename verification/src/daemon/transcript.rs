//! What holds of everything that is sent over a connection, from its first
//! message to its end.

use vstd::prelude::*;

use crate::daemon::server::{failure, wire_view, ConnectionView, ReactionView};
use crate::engine::observer::EventView;
use crate::protocol::message::{ClientMessageView, ProtocolFailureView, ServerMessageView};
use crate::protocol::model::{DescriptorView, RequestView, ResultView};

verus! {

/// What happens on a connection.
pub enum ConnectionEvent<C> {
    /// A message of the client is read. The handle is that of the execution which
    /// it starts, if it starts one.
    Message { message: ClientMessageView, handle: C },
    /// A session was opened or refused.
    Opened(Result<(Seq<char>, Seq<DescriptorView>), ProtocolFailureView>),
    /// An execution tells how it goes.
    Observed(EventView),
    /// An execution has its result.
    Completed(ResultView),
    /// The client is gone.
    End,
}

/// A connection with all that was sent over it.
pub struct Transcript<C> {
    pub connection: ConnectionView<C>,
    /// Whether messages of the client are read.
    pub reading: bool,
    /// The ids of the executions that were started and have no result yet.
    pub outstanding: Set<Seq<char>>,
    pub sent: Seq<ServerMessageView>,
}

impl<C> Transcript<C> {
    /// The connection before its first message.
    pub open spec fn start() -> Transcript<C> {
        Transcript {
            connection: ConnectionView {
                negotiated: false,
                active: Map::empty(),
                tools: Seq::empty(),
            },
            reading: true,
            outstanding: Set::empty(),
            sent: Seq::empty(),
        }
    }

    /// Whether an event can happen: messages are read until the connection ends
    /// or the client shuts it down, and only an execution that was started and
    /// has no result yet tells how it goes or gets its result.
    pub open spec fn admits(self, event: ConnectionEvent<C>) -> bool {
        match event {
            ConnectionEvent::Message { .. } => self.reading,
            ConnectionEvent::Opened(_) => self.reading,
            ConnectionEvent::Observed(event) => self.outstanding.contains(event.execution_id()),
            ConnectionEvent::Completed(result) => self.outstanding.contains(result.execution_id),
            ConnectionEvent::End => true,
        }
    }

    /// The connection after an event.
    pub open spec fn after(self, event: ConnectionEvent<C>) -> Transcript<C> {
        match event {
            ConnectionEvent::Message { message, handle } => {
                let connection = self.connection.received(message, handle);
                match self.connection.reaction(message) {
                    ReactionView::Reply(reply) => Transcript {
                        connection,
                        sent: self.sent.push(reply),
                        ..self
                    },
                    ReactionView::Open { .. } => Transcript { connection, ..self },
                    ReactionView::Run { accepted, request, .. } => Transcript {
                        connection,
                        outstanding: self.outstanding.insert(request.id),
                        sent: self.sent.push(accepted),
                        ..self
                    },
                    ReactionView::Cancel { acknowledged, .. } => Transcript {
                        connection,
                        sent: self.sent.push(acknowledged),
                        ..self
                    },
                    ReactionView::Stop(reply) => Transcript {
                        connection,
                        reading: false,
                        sent: self.sent.push(reply),
                        ..self
                    },
                }
            },
            ConnectionEvent::Opened(session) => {
                let (connection, reply) = self.connection.opened(session);
                Transcript { connection, sent: self.sent.push(reply), ..self }
            },
            ConnectionEvent::Observed(event) => Transcript {
                sent: self.sent.push(wire_view(event)),
                ..self
            },
            ConnectionEvent::Completed(result) => {
                let (connection, reply) = self.connection.completed(result);
                Transcript {
                    connection,
                    outstanding: self.outstanding.remove(result.execution_id),
                    sent: self.sent.push(reply),
                    ..self
                }
            },
            ConnectionEvent::End => Transcript {
                connection: self.connection.ended(),
                reading: false,
                ..self
            },
        }
    }
}

/// The connection after some events.
pub open spec fn transcript<C>(events: Seq<ConnectionEvent<C>>) -> Transcript<C>
    decreases events.len(),
{
    if events.len() == 0 {
        Transcript::start()
    } else {
        transcript(events.drop_last()).after(events.last())
    }
}

/// Whether every event could happen when it did.
pub open spec fn possible<C>(events: Seq<ConnectionEvent<C>>) -> bool
    decreases events.len(),
{
    events.len() > 0 ==> possible(events.drop_last()) && transcript(events.drop_last()).admits(
        events.last(),
    )
}

/// Whether a message accepts an execution.
pub open spec fn accepts(message: ServerMessageView, id: Seq<char>) -> bool {
    message matches ServerMessageView::Accepted { execution_id } && execution_id == id
}

/// Whether a message completes an execution.
pub open spec fn completes(message: ServerMessageView, id: Seq<char>) -> bool {
    message matches ServerMessageView::Completed { result } && result.execution_id == id
}

/// Whether nothing that is sent between two positions accepts or completes an
/// execution under an id.
pub open spec fn quiet(sent: Seq<ServerMessageView>, id: Seq<char>, from: int, to: int) -> bool {
    forall|j: int| from <= j < to ==> !accepts(#[trigger] sent[j], id) && !completes(sent[j], id)
}

/// Whether the message at `a` accepts an execution and the one at `c` is the
/// next that completes it.
pub open spec fn pairs(sent: Seq<ServerMessageView>, id: Seq<char>, a: int, c: int) -> bool {
    &&& 0 <= a < c < sent.len()
    &&& accepts(sent[a], id)
    &&& completes(sent[c], id)
    &&& quiet(sent, id, a + 1, c)
}

/// Whether the message at `a` accepts an execution that nothing has completed.
pub open spec fn pending(sent: Seq<ServerMessageView>, id: Seq<char>, a: int) -> bool {
    0 <= a < sent.len() && accepts(sent[a], id) && quiet(sent, id, a + 1, sent.len() as int)
}

/// What every event keeps, of one id.
spec fn balanced<C>(at: Transcript<C>, id: Seq<char>) -> bool {
    &&& at.reading ==> at.connection.active.dom() == at.outstanding
    &&& forall|a: int|
        0 <= a < at.sent.len() && accepts(#[trigger] at.sent[a], id) ==> pending(at.sent, id, a)
            && at.outstanding.contains(id) || exists|c: int| pairs(at.sent, id, a, c)
    &&& forall|c: int|
        0 <= c < at.sent.len() && completes(#[trigger] at.sent[c], id) ==> exists|a: int|
            pairs(at.sent, id, a, c)
    &&& at.outstanding.contains(id) ==> exists|a: int| pending(at.sent, id, a)
}

/// Two positions that pair stay paired, whatever is sent after them.
proof fn lemma_pairs_kept(
    sent: Seq<ServerMessageView>,
    message: ServerMessageView,
    id: Seq<char>,
    a: int,
    c: int,
)
    requires
        pairs(sent, id, a, c),
    ensures
        pairs(sent.push(message), id, a, c),
{
    let more = sent.push(message);
    assert(forall|j: int| 0 <= j < sent.len() ==> #[trigger] more[j] == sent[j]);
}

/// A message that is of another execution, or of none, keeps the balance.
proof fn lemma_other_message<C>(before: Transcript<C>, after: Transcript<C>, id: Seq<char>)
    requires
        balanced(before, id),
        after.reading ==> after.connection.active.dom() == after.outstanding,
        after.sent.len() == before.sent.len() + 1,
        after.sent.drop_last() == before.sent,
        !accepts(after.sent.last(), id),
        !completes(after.sent.last(), id),
        after.outstanding.contains(id) == before.outstanding.contains(id),
    ensures
        balanced(after, id),
{
    let more = after.sent;
    let sent = before.sent;
    assert(more =~= sent.push(more.last()));
    assert(forall|j: int| 0 <= j < sent.len() ==> #[trigger] more[j] == sent[j]);
    assert forall|a: int| #[trigger] pending(sent, id, a) implies pending(more, id, a) by {}
    assert forall|a: int| 0 <= a < more.len() && accepts(#[trigger] more[a], id) implies pending(
        more,
        id,
        a,
    ) && after.outstanding.contains(id) || exists|c: int| pairs(more, id, a, c) by {
        assert(accepts(sent[a], id));
        if !(pending(sent, id, a) && before.outstanding.contains(id)) {
            let c = choose|c: int| pairs(sent, id, a, c);
            lemma_pairs_kept(sent, more.last(), id, a, c);
        }
    }
    assert forall|c: int|
        0 <= c < more.len() && completes(#[trigger] more[c], id) implies exists|a: int|
        pairs(more, id, a, c) by {
        assert(completes(sent[c], id));
        let a = choose|a: int| pairs(sent, id, a, c);
        lemma_pairs_kept(sent, more.last(), id, a, c);
    }
    if after.outstanding.contains(id) {
        let a = choose|a: int| pending(sent, id, a);
        assert(pending(more, id, a));
    }
}

/// An execution that is accepted while none is outstanding keeps the balance.
proof fn lemma_accepted<C>(before: Transcript<C>, after: Transcript<C>, id: Seq<char>)
    requires
        balanced(before, id),
        after.reading ==> after.connection.active.dom() == after.outstanding,
        after.sent.len() == before.sent.len() + 1,
        after.sent.drop_last() == before.sent,
        accepts(after.sent.last(), id),
        !before.outstanding.contains(id),
        after.outstanding.contains(id),
    ensures
        balanced(after, id),
{
    let more = after.sent;
    let sent = before.sent;
    assert(more =~= sent.push(more.last()));
    assert(forall|j: int| 0 <= j < sent.len() ==> #[trigger] more[j] == sent[j]);
    assert(pending(more, id, sent.len() as int));
    assert forall|a: int| 0 <= a < more.len() && accepts(#[trigger] more[a], id) implies pending(
        more,
        id,
        a,
    ) && after.outstanding.contains(id) || exists|c: int| pairs(more, id, a, c) by {
        if a < sent.len() {
            assert(accepts(sent[a], id));
            let c = choose|c: int| pairs(sent, id, a, c);
            lemma_pairs_kept(sent, more.last(), id, a, c);
        }
    }
    assert forall|c: int|
        0 <= c < more.len() && completes(#[trigger] more[c], id) implies exists|a: int|
        pairs(more, id, a, c) by {
        assert(completes(sent[c], id));
        let a = choose|a: int| pairs(sent, id, a, c);
        lemma_pairs_kept(sent, more.last(), id, a, c);
    }
}

/// An execution that is completed while it is outstanding keeps the balance.
proof fn lemma_completed<C>(before: Transcript<C>, after: Transcript<C>, id: Seq<char>)
    requires
        balanced(before, id),
        after.reading ==> after.connection.active.dom() == after.outstanding,
        after.sent.len() == before.sent.len() + 1,
        after.sent.drop_last() == before.sent,
        completes(after.sent.last(), id),
        before.outstanding.contains(id),
        !after.outstanding.contains(id),
    ensures
        balanced(after, id),
{
    let more = after.sent;
    let sent = before.sent;
    let last = sent.len() as int;
    assert(more =~= sent.push(more.last()));
    assert(forall|j: int| 0 <= j < sent.len() ==> #[trigger] more[j] == sent[j]);
    let open = choose|a: int| pending(sent, id, a);
    assert(pairs(more, id, open, last));
    assert forall|a: int| 0 <= a < more.len() && accepts(#[trigger] more[a], id) implies exists|
        c: int,
    | pairs(more, id, a, c) by {
        assert(accepts(sent[a], id));
        if pending(sent, id, a) {
            assert(pairs(more, id, a, last));
        } else {
            let c = choose|c: int| pairs(sent, id, a, c);
            lemma_pairs_kept(sent, more.last(), id, a, c);
        }
    }
    assert forall|c: int|
        0 <= c < more.len() && completes(#[trigger] more[c], id) implies exists|a: int|
        pairs(more, id, a, c) by {
        if c < sent.len() {
            assert(completes(sent[c], id));
            let a = choose|a: int| pairs(sent, id, a, c);
            lemma_pairs_kept(sent, more.last(), id, a, c);
        }
    }
}

proof fn lemma_balanced<C>(events: Seq<ConnectionEvent<C>>, id: Seq<char>)
    requires
        possible(events),
    ensures
        balanced(transcript(events), id),
    decreases events.len(),
{
    let after = transcript(events);
    if events.len() == 0 {
        assert(after.connection.active.dom() =~= after.outstanding);
    } else {
        lemma_balanced(events.drop_last(), id);
        let before = transcript(events.drop_last());
        match events.last() {
            ConnectionEvent::Message { message, handle } => {
                match before.connection.reaction(message) {
                    ReactionView::Open { .. } => {},
                    ReactionView::Run { request, .. } => {
                        assert(after.connection.active.dom() =~= after.outstanding);
                        assert(after.sent.drop_last() =~= before.sent);
                        if request.id == id {
                            assert(!before.connection.active.dom().contains(id));
                            lemma_accepted(before, after, id);
                        } else {
                            lemma_other_message(before, after, id);
                        }
                    },
                    _ => {
                        assert(after.sent.drop_last() =~= before.sent);
                        lemma_other_message(before, after, id);
                    },
                }
            },
            ConnectionEvent::Opened(_) | ConnectionEvent::Observed(_) => {
                assert(after.sent.drop_last() =~= before.sent);
                lemma_other_message(before, after, id);
            },
            ConnectionEvent::Completed(result) => {
                assert(after.connection.active.dom() =~= before.connection.active.dom().remove(
                    result.execution_id,
                ));
                assert(after.sent.drop_last() =~= before.sent);
                if result.execution_id == id {
                    lemma_completed(before, after, id);
                } else {
                    lemma_other_message(before, after, id);
                }
            },
            ConnectionEvent::End => {},
        }
    }
}

/// Once no execution is left, as at the end of a connection, every execution that
/// was accepted was completed: the message that accepts it is followed by exactly
/// one that completes it before the same id is accepted again, if ever.
pub proof fn law_accepted_executions_complete_once<C>(
    events: Seq<ConnectionEvent<C>>,
    id: Seq<char>,
    a: int,
)
    requires
        possible(events),
        !transcript(events).outstanding.contains(id),
        0 <= a < transcript(events).sent.len(),
        accepts(transcript(events).sent[a], id),
    ensures
        exists|c: int|
            pairs(transcript(events).sent, id, a, c) && forall|other: int| #[trigger]
                pairs(transcript(events).sent, id, a, other) ==> other == c,
{
    lemma_balanced(events, id);
    let sent = transcript(events).sent;
    let c = choose|c: int| pairs(sent, id, a, c);
    assert forall|other: int| #[trigger] pairs(sent, id, a, other) implies other == c by {
        if other < c {
            assert(completes(sent[other], id));
        } else if c < other {
            assert(completes(sent[c], id));
        }
    }
}

/// At every moment an accepted execution is either outstanding, with nothing sent
/// under its id since, or was completed; and nothing is completed that was not
/// accepted before.
pub proof fn law_completions_answer_acceptances<C>(
    events: Seq<ConnectionEvent<C>>,
    id: Seq<char>,
    at: int,
)
    requires
        possible(events),
        0 <= at < transcript(events).sent.len(),
    ensures
        ({
            let now = transcript(events);
            &&& accepts(now.sent[at], id) ==> now.outstanding.contains(id) && pending(
                now.sent,
                id,
                at,
            ) || exists|c: int| pairs(now.sent, id, at, c)
            &&& completes(now.sent[at], id) ==> exists|a: int| pairs(now.sent, id, a, at)
        }),
{
    lemma_balanced(events, id);
}

/// The next message after one that asks to cancel tells whether the execution was
/// outstanding.
pub proof fn law_cancel_tells_what_is_outstanding<C>(
    events: Seq<ConnectionEvent<C>>,
    id: Seq<char>,
    handle: C,
)
    requires
        possible(events),
        transcript(events).reading,
        transcript(events).connection.negotiated,
    ensures
        ({
            let before = transcript(events);
            let message = ClientMessageView::Cancel { execution_id: id };
            before.after(ConnectionEvent::Message { message, handle }).sent == before.sent.push(
                ServerMessageView::CancelAcknowledged {
                    execution_id: id,
                    found: before.outstanding.contains(id),
                },
            )
        }),
{
    lemma_balanced(events, id);
    let before = transcript(events);
    assert(before.connection.active.dom().contains(id) == before.outstanding.contains(id));
}

/// A request under the id of an outstanding execution is refused and changes
/// nothing else: the outstanding one goes on.
pub proof fn law_outstanding_ids_are_refused<C>(
    events: Seq<ConnectionEvent<C>>,
    request: RequestView,
    timeout_ms: Option<u64>,
    handle: C,
)
    requires
        possible(events),
        transcript(events).reading,
        transcript(events).connection.negotiated,
        transcript(events).outstanding.contains(request.id),
    ensures
        ({
            let before = transcript(events);
            let message = ClientMessageView::Execute { request, timeout_ms };
            before.after(ConnectionEvent::Message { message, handle }) == Transcript {
                sent: before.sent.push(
                    failure(
                        Some(request.id),
                        "duplicate_execution_id"@,
                        "an execution with this id is already active"@,
                    ),
                ),
                ..before
            }
        }),
{
    lemma_balanced(events, request.id);
    assert(transcript(events).connection.active.dom().contains(request.id));
}

/// Whether an event is that a session was opened.
pub open spec fn opens<C>(event: ConnectionEvent<C>) -> bool {
    event matches ConnectionEvent::Opened(Ok(_))
}

/// Whether a message is a failure that names no execution.
pub open spec fn names_no_execution(message: ServerMessageView) -> bool {
    message matches ServerMessageView::Failed { execution_id, .. } && execution_id is None
}

/// Whether a session was opened.
pub open spec fn was_opened<C>(events: Seq<ConnectionEvent<C>>) -> bool {
    exists|k: int| 0 <= k < events.len() && opens(#[trigger] events[k])
}

/// Until a session is opened nothing is started and nothing is sent but failures
/// that name no execution; a message that is no greeting is answered by the one
/// that asks for it.
pub proof fn law_nothing_runs_before_a_session<C>(
    events: Seq<ConnectionEvent<C>>,
    message: ClientMessageView,
    handle: C,
)
    requires
        possible(events),
        !was_opened(events),
    ensures
        ({
            let before = transcript(events);
            &&& !before.connection.negotiated
            &&& before.outstanding == Set::<Seq<char>>::empty()
            &&& forall|k: int|
                0 <= k < before.sent.len() ==> names_no_execution(#[trigger] before.sent[k])
            &&& !(message is Hello) ==> before.after(
                ConnectionEvent::Message { message, handle },
            ) == Transcript {
                sent: before.sent.push(
                    failure(None, "handshake_required"@, "hello must be the first client message"@),
                ),
                ..before
            }
        }),
    decreases events.len(),
{
    if events.len() > 0 {
        let earlier = events.drop_last();
        assert forall|k: int| 0 <= k < earlier.len() implies !opens(#[trigger] earlier[k]) by {
            assert(events[k] == earlier[k]);
        }
        law_nothing_runs_before_a_session(earlier, message, handle);
        assert(events[events.len() - 1] == events.last());
    }
}

} // verus!

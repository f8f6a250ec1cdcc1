//! The supervisor of a plugin process: which calls are pending, what each event
//! does to them, and how the process is started.

use vstd::prelude::*;

use crate::engine::error::{tool_failure, ErrorView, ExecutionError};
use crate::engine::observer::data_view;
use crate::engine::tool::{Tool, ToolDefinition};
use crate::json::{Json, JsonView};
use crate::path::{join_of, join_path};
use crate::plugin::manifest::{local_entrypoint, PluginManifest, PluginToolManifest};
use crate::plugin::messages::{
    PluginRequest, PluginRequestView, PluginResponse, PluginResponseView, PLUGIN_PROTOCOL_VERSION,
};
use crate::text::{contains_text, decimal, decimal_text, law_occurrences_split_the_text, texts};
use crate::text_map::{distinct_keys, entries_map, lemma_entries_map, TextMap};

verus! {

/// A call that waits for the plugin. `H` is what its answer is handed to.
#[derive(Debug, PartialEq, Eq)]
pub struct Call<H> {
    pub tool: String,
    pub handle: H,
}

/// The answer to a call.
#[derive(Debug, PartialEq, Eq)]
pub struct Resolution<H> {
    pub id: String,
    pub handle: H,
    pub outcome: Result<Json, ExecutionError>,
}

/// What the answer to a call says.
pub open spec fn outcome_view(outcome: Result<Json, ExecutionError>) -> Result<
    JsonView,
    ErrorView,
> {
    match outcome {
        Ok(content) => Ok(content@),
        Err(error) => Err(error@),
    }
}

/// The error of a call.
pub open spec fn call_error(tool: Seq<char>, message: Seq<char>) -> Result<JsonView, ErrorView> {
    Err(ErrorView::ToolExecution { tool, message })
}

/// Whether `resolution` is the answer `outcome` to `call`, which is known as
/// `id`.
pub open spec fn answers<H>(
    resolution: Resolution<H>,
    id: Seq<char>,
    call: Call<H>,
    outcome: Result<JsonView, ErrorView>,
) -> bool {
    &&& resolution.id@ == id
    &&& resolution.handle == call.handle
    &&& outcome_view(resolution.outcome) == outcome
}

/// Whether `failed` answers every pending call once, with the same message.
pub open spec fn fails_all<H>(
    failed: Seq<Resolution<H>>,
    pending: Map<Seq<char>, Call<H>>,
    message: Seq<char>,
) -> bool {
    &&& failed.len() == pending.len()
    &&& forall|i: int|
        0 <= i < failed.len() ==> pending.contains_key((#[trigger] failed[i]).id@) && answers(
            failed[i],
            failed[i].id@,
            pending[failed[i].id@],
            call_error(pending[failed[i].id@].tool@, message),
        )
    &&& forall|i: int, j: int|
        0 <= i < j < failed.len() ==> (#[trigger] failed[i]).id@ != (#[trigger] failed[j]).id@
    &&& forall|id: Seq<char>| #[trigger]
        pending.contains_key(id) ==> exists|i: int|
            0 <= i < failed.len() && (#[trigger] failed[i]).id@ == id
}

/// What is to be done after an event, in this order.
#[derive(Debug, PartialEq, Eq)]
pub struct Directive<H> {
    /// Send this to the plugin.
    pub send: Option<PluginRequest>,
    /// After the cancellation grace, ask whether this call is still pending.
    pub watch: Option<String>,
    /// Tell of the progress of this call: message and data.
    pub progress: Option<(String, String, Option<Json>)>,
    /// Answer this call.
    pub answer: Option<Resolution<H>>,
    /// Stop the process.
    pub stop: bool,
    /// Answer these calls.
    pub failed: Vec<Resolution<H>>,
}

impl<H> Directive<H> {
    /// Nothing is to be done.
    pub open spec fn idle(self) -> bool {
        &&& self.send is None
        &&& self.watch is None
        &&& self.progress is None
        &&& self.answer is None
        &&& !self.stop
        &&& self.failed@.len() == 0
    }

    /// The process is stopped and every pending call is answered.
    pub open spec fn stops(self, pending: Map<Seq<char>, Call<H>>, message: Seq<char>) -> bool {
        &&& self.send is None
        &&& self.watch is None
        &&& self.progress is None
        &&& self.answer is None
        &&& self.stop
        &&& fails_all(self.failed@, pending, message)
    }

    /// One call is answered, and nothing else is done.
    pub open spec fn only_answers(
        self,
        id: Seq<char>,
        call: Call<H>,
        outcome: Result<JsonView, ErrorView>,
    ) -> bool {
        &&& self.send is None
        &&& self.watch is None
        &&& self.progress is None
        &&& self.answer matches Some(resolution) && answers(resolution, id, call, outcome)
        &&& !self.stop
        &&& self.failed@.len() == 0
    }

    fn nothing() -> (directive: Self)
        ensures
            directive.idle(),
    {
        Directive {
            send: None,
            watch: None,
            progress: None,
            answer: None,
            stop: false,
            failed: Vec::new(),
        }
    }
}

/// The pending calls of a plugin, and the process that runs, by the number of
/// its start.
pub struct PluginSupervisor<H> {
    running: Option<u64>,
    generation: u64,
    pending: TextMap<Call<H>>,
}

/// What a [`PluginSupervisor`] stands for.
pub struct SupervisorView<H> {
    pub running: Option<u64>,
    pub generation: u64,
    pub pending: Map<Seq<char>, Call<H>>,
}

impl<H> View for PluginSupervisor<H> {
    type V = SupervisorView<H>;

    closed spec fn view(&self) -> SupervisorView<H> {
        SupervisorView {
            running: self.running,
            generation: self.generation,
            pending: self.pending@,
        }
    }
}

/// The number of the next start, which wraps around.
pub open spec fn next_generation(generation: u64) -> u64 {
    if generation == u64::MAX {
        0
    } else {
        (generation + 1) as u64
    }
}

impl<H> SupervisorView<H> {
    /// What is left when the process was stopped: nothing runs and nothing is
    /// pending.
    pub open spec fn stopped(self) -> SupervisorView<H> {
        SupervisorView { running: None, pending: Map::empty(), ..self }
    }
}

/// Whether a message breaks the protocol, given the calls that are pending, and
/// how that is told.
pub open spec fn violation<H>(
    pending: Map<Seq<char>, Call<H>>,
    message: PluginResponseView,
) -> Option<Seq<char>> {
    match message {
        PluginResponseView::Progress { invocation_id, .. } => if pending.contains_key(
            invocation_id,
        ) {
            None
        } else {
            Some("progress for unknown invocation `"@ + invocation_id + "`"@)
        },
        PluginResponseView::Completed { invocation_id, .. } => if pending.contains_key(
            invocation_id,
        ) {
            None
        } else {
            Some("completion for unknown invocation `"@ + invocation_id + "`"@)
        },
        PluginResponseView::Failed { invocation_id, .. } => if pending.contains_key(
            invocation_id,
        ) {
            None
        } else {
            Some("failure for unknown invocation `"@ + invocation_id + "`"@)
        },
        PluginResponseView::HelloAck { .. } => Some("unexpected lifecycle response"@),
        PluginResponseView::ShutdownAck => Some("unexpected lifecycle response"@),
    }
}

/// Answers a call with an error.
fn refuse<H>(id: String, call: Call<H>, message: &str) -> (resolution: Resolution<H>)
    ensures
        answers(resolution, id@, call, call_error(call.tool@, message@)),
{
    let error = tool_failure(call.tool.as_str(), message);
    Resolution { id, handle: call.handle, outcome: Err(error) }
}

/// Answers a call whose process could not be started.
pub fn start_failed<H>(id: String, call: Call<H>, error: &str) -> (resolution: Resolution<H>)
    ensures
        answers(resolution, id@, call, call_error(call.tool@, error@)),
{
    refuse(id, call, error)
}

impl<H> PluginSupervisor<H> {
    /// No process, no calls.
    pub fn new() -> (supervisor: Self)
        ensures
            supervisor@ == (SupervisorView::<H> { running: None, generation: 0, pending: Map::empty() }),
    {
        PluginSupervisor { running: None, generation: 0, pending: TextMap::new() }
    }

    /// The number of the start that a call needs first, where nothing runs.
    pub fn prepare(&mut self) -> (start: Option<u64>)
        ensures
            old(self)@.running is Some ==> start is None && final(self)@ == old(self)@,
            old(self)@.running is None ==> start == Some(next_generation(old(self)@.generation))
                && final(self)@ == (SupervisorView {
                generation: next_generation(old(self)@.generation),
                ..old(self)@
            }),
    {
        if self.running.is_some() {
            return None;
        }
        self.generation = if self.generation == u64::MAX {
            0
        } else {
            self.generation + 1
        };
        Some(self.generation)
    }

    /// The process was started.
    pub fn started(&mut self)
        ensures
            final(self)@ == (SupervisorView {
                running: Some(old(self)@.generation),
                ..old(self)@
            }),
    {
        self.running = Some(self.generation);
    }

    /// The handle of a pending call.
    pub fn handle(&self, id: &str) -> (handle: Option<&H>)
        ensures
            match handle {
                Some(handle) => self@.pending.contains_key(id@) && self@.pending[id@].handle
                    == *handle,
                None => !self@.pending.contains_key(id@),
            },
    {
        match self.pending.get(id) {
            Some(call) => Some(&call.handle),
            None => None,
        }
    }

    /// Stops the process and answers every pending call with `message`.
    fn fail_all(&mut self, message: &str) -> (directive: Directive<H>)
        ensures
            final(self)@ == old(self)@.stopped(),
            directive.stops(old(self)@.pending, message@),
    {
        self.running = None;
        let mut calls = self.pending.take_all();
        let ghost entries = calls@;
        proof {
            lemma_entries_map(entries);
        }
        let ghost all = entries_map(entries);
        let mut failed: Vec<Resolution<H>> = Vec::new();
        let n: usize = calls.len();
        let mut i: usize = 0;
        while i < n
            invariant
                i <= n == entries.len(),
                calls@ == entries.skip(i as int),
                distinct_keys(entries),
                all == entries_map(entries),
                forall|j: int|
                    0 <= j < entries.len() ==> all.contains_pair(
                        (#[trigger] entries[j]).0@,
                        entries[j].1,
                    ),
                failed@.len() == i,
                forall|j: int|
                    0 <= j < i ==> (#[trigger] failed@[j]).id@ == entries[j].0@ && answers(
                        failed@[j],
                        entries[j].0@,
                        entries[j].1,
                        call_error(entries[j].1.tool@, message@),
                    ),
            decreases n - i,
        {
            let (id, call) = calls.remove(0);
            assert(entries[i as int] == (id, call));
            assert(calls@ =~= entries.skip(i + 1));
            failed.push(refuse(id, call, message));
            i += 1;
        }
        proof {
            assert forall|j: int, k: int| 0 <= j < k < failed@.len() implies (
            #[trigger] failed@[j]).id@ != (#[trigger] failed@[k]).id@ by {
                assert(entries[j].0@ != entries[k].0@);
            }
            assert forall|j: int| 0 <= j < failed@.len() implies all.contains_key(
                (#[trigger] failed@[j]).id@,
            ) && answers(
                failed@[j],
                failed@[j].id@,
                all[failed@[j].id@],
                call_error(all[failed@[j].id@].tool@, message@),
            ) by {
                assert(all.contains_pair(entries[j].0@, entries[j].1));
            }
            assert forall|id: Seq<char>| #[trigger] all.contains_key(id) implies exists|j: int|
                0 <= j < failed@.len() && (#[trigger] failed@[j]).id@ == id by {
                let j = choose|j: int|
                    0 <= j < entries.len() && (#[trigger] entries[j]).0@ == id;
                assert(failed@[j].id@ == id);
            }
        }
        Directive {
            send: None,
            watch: None,
            progress: None,
            answer: None,
            stop: true,
            failed,
        }
    }

    /// A call was sent to the plugin, or could not be. A call that was pending
    /// under the same id is given up; where sending failed, so are all.
    pub fn sent(&mut self, id: String, call: Call<H>, outcome: Result<(), String>) -> (directive:
        Directive<H>)
        ensures
            match outcome {
                Ok(_) => {
                    &&& final(self)@ == (SupervisorView {
                        pending: old(self)@.pending.insert(id@, call),
                        ..old(self)@
                    })
                    &&& if old(self)@.pending.contains_key(id@) {
                        directive.only_answers(
                            id@,
                            old(self)@.pending[id@],
                            call_error(
                                old(self)@.pending[id@].tool@,
                                "plugin supervisor disconnected"@,
                            ),
                        )
                    } else {
                        directive.idle()
                    }
                },
                Err(error) => {
                    &&& final(self)@ == old(self)@.stopped()
                    &&& directive.send is None
                    &&& directive.watch is None
                    &&& directive.progress is None
                    &&& directive.answer matches Some(resolution) && answers(
                        resolution,
                        id@,
                        call,
                        call_error(call.tool@, "writing request failed: "@ + error@),
                    )
                    &&& directive.stop
                    &&& fails_all(
                        directive.failed@,
                        old(self)@.pending,
                        "plugin process disconnected"@,
                    )
                },
            },
    {
        match outcome {
            Ok(_) => {
                let key = id.clone();
                let mut directive = Directive::nothing();
                if let Some(displaced) = self.pending.insert(key, call) {
                    directive.answer = Some(
                        refuse(id, displaced, "plugin supervisor disconnected"),
                    );
                }
                directive
            },
            Err(error) => {
                let message = "writing request failed: ".to_owned().concat(error.as_str());
                let resolution = refuse(id, call, message.as_str());
                let mut directive = self.fail_all("plugin process disconnected");
                directive.answer = Some(resolution);
                directive
            },
        }
    }

    /// A call is to be cancelled: the plugin is told, and the call is looked at
    /// again after the grace period.
    pub fn cancel(&self, id: &str) -> (directive: Directive<H>)
        ensures
            if self@.pending.contains_key(id@) {
                &&& if self@.running is Some {
                    directive.send matches Some(request) && request@ == (PluginRequestView::Cancel {
                        invocation_id: id@,
                    })
                } else {
                    directive.send is None
                }
                &&& directive.watch matches Some(watched) && watched@ == id@
                &&& directive.progress is None
                &&& directive.answer is None
                &&& !directive.stop
                &&& directive.failed@.len() == 0
            } else {
                directive.idle()
            },
    {
        let mut directive = Directive::nothing();
        if self.pending.contains_key(id) {
            if self.running.is_some() {
                directive.send = Some(PluginRequest::Cancel { invocation_id: id.to_owned() });
            }
            directive.watch = Some(id.to_owned());
        }
        directive
    }

    /// The grace period of a cancelled call is over: where it is still pending,
    /// the process is stopped.
    pub fn kill_if_pending(&mut self, id: &str) -> (directive: Directive<H>)
        ensures
            if old(self)@.pending.contains_key(id@) {
                &&& final(self)@ == old(self)@.stopped()
                &&& directive.stops(
                    old(self)@.pending,
                    "plugin ignored cancellation and was terminated"@,
                )
            } else {
                final(self)@ == old(self)@ && directive.idle()
            },
    {
        if self.pending.contains_key(id) {
            self.fail_all("plugin ignored cancellation and was terminated")
        } else {
            Directive::nothing()
        }
    }

    /// Nobody can call any more.
    pub fn shut_down(&mut self) -> (directive: Directive<H>)
        ensures
            final(self)@ == old(self)@.stopped(),
            directive.stops(old(self)@.pending, "plugin supervisor stopped"@),
    {
        self.fail_all("plugin supervisor stopped")
    }

    /// The output of the process with number `generation` ended. One that does
    /// not run any more is not heard.
    pub fn closed(&mut self, generation: u64, reason: &str) -> (directive: Directive<H>)
        ensures
            if old(self)@.running == Some(generation) {
                &&& final(self)@ == old(self)@.stopped()
                &&& directive.stops(old(self)@.pending, reason@)
            } else {
                final(self)@ == old(self)@ && directive.idle()
            },
    {
        let current = match self.running {
            Some(current) => current == generation,
            None => false,
        };
        if current {
            self.fail_all(reason)
        } else {
            Directive::nothing()
        }
    }

    /// The process with number `generation` sent a message. One that does not
    /// run any more is not heard; one that breaks the protocol is stopped.
    pub fn message(&mut self, generation: u64, message: PluginResponse) -> (directive: Directive<H>)
        ensures
            old(self)@.running != Some(generation) ==> final(self)@ == old(self)@
                && directive.idle(),
            old(self)@.running == Some(generation) ==> (message matches PluginResponse::Completed {
                invocation_id,
                content,
            } ==> old(self)@.pending.contains_key(invocation_id@) ==> (directive.answer
                matches Some(resolution) && resolution.id@ == invocation_id@ && resolution.handle
                == old(self)@.pending[invocation_id@].handle && resolution.outcome == Ok::<
                Json,
                ExecutionError,
            >(content) && !directive.stop)),
            old(self)@.running == Some(generation) ==> (message matches PluginResponse::Progress {
                invocation_id,
                message: said,
                data,
            } ==> old(self)@.pending.contains_key(invocation_id@) ==> directive.progress == Some(
                (invocation_id, said, data),
            )),
            old(self)@.running == Some(generation) ==> match violation(
                old(self)@.pending,
                message@,
            ) {
                Some(reason) => {
                    &&& final(self)@ == old(self)@.stopped()
                    &&& directive.stops(
                        old(self)@.pending,
                        "plugin protocol violation: "@ + reason,
                    )
                },
                None => match message@ {
                    PluginResponseView::Progress { invocation_id, message, data } => {
                        &&& final(self)@ == old(self)@
                        &&& directive.progress matches Some(told) && told.0@ == invocation_id
                            && told.1@ == message && data_view(told.2) == data
                        &&& directive.send is None
                        &&& directive.watch is None
                        &&& directive.answer is None
                        &&& !directive.stop
                        &&& directive.failed@.len() == 0
                    },
                    PluginResponseView::Completed { invocation_id, content } => {
                        &&& final(self)@ == (SupervisorView {
                            pending: old(self)@.pending.remove(invocation_id),
                            ..old(self)@
                        })
                        &&& directive.only_answers(
                            invocation_id,
                            old(self)@.pending[invocation_id],
                            Ok(content),
                        )
                    },
                    PluginResponseView::Failed { invocation_id, code, message } => {
                        &&& final(self)@ == (SupervisorView {
                            pending: old(self)@.pending.remove(invocation_id),
                            ..old(self)@
                        })
                        &&& directive.only_answers(
                            invocation_id,
                            old(self)@.pending[invocation_id],
                            call_error(
                                old(self)@.pending[invocation_id].tool@,
                                code + ": "@ + message,
                            ),
                        )
                    },
                    _ => false,
                },
            },
    {
        let current = match self.running {
            Some(current) => current == generation,
            None => false,
        };
        if !current {
            return Directive::nothing();
        }
        match message {
            PluginResponse::Progress { invocation_id, message, data } => {
                if self.pending.contains_key(invocation_id.as_str()) {
                    let mut directive = Directive::nothing();
                    directive.progress = Some((invocation_id, message, data));
                    directive
                } else {
                    self.break_off(
                        "progress for unknown invocation `".to_owned().concat(
                            invocation_id.as_str(),
                        ).concat("`"),
                    )
                }
            },
            PluginResponse::Completed { invocation_id, content } => {
                match self.pending.remove(invocation_id.as_str()) {
                    Some(call) => {
                        let mut directive = Directive::nothing();
                        directive.answer = Some(
                            Resolution {
                                id: invocation_id,
                                handle: call.handle,
                                outcome: Ok(content),
                            },
                        );
                        directive
                    },
                    None => {
                        assert(self@.pending =~= old(self)@.pending);
                        self.break_off(
                            "completion for unknown invocation `".to_owned().concat(
                                invocation_id.as_str(),
                            ).concat("`"),
                        )
                    },
                }
            },
            PluginResponse::Failed { invocation_id, code, message } => {
                match self.pending.remove(invocation_id.as_str()) {
                    Some(call) => {
                        let text = code.concat(": ").concat(message.as_str());
                        let mut directive = Directive::nothing();
                        directive.answer = Some(refuse(invocation_id, call, text.as_str()));
                        directive
                    },
                    None => {
                        assert(self@.pending =~= old(self)@.pending);
                        self.break_off(
                            "failure for unknown invocation `".to_owned().concat(
                                invocation_id.as_str(),
                            ).concat("`"),
                        )
                    },
                }
            },
            PluginResponse::HelloAck { .. } => self.break_off(
                "unexpected lifecycle response".to_owned(),
            ),
            PluginResponse::ShutdownAck => self.break_off(
                "unexpected lifecycle response".to_owned(),
            ),
        }
    }

    /// Stops a process that broke the protocol.
    fn break_off(&mut self, reason: String) -> (directive: Directive<H>)
        ensures
            final(self)@ == old(self)@.stopped(),
            directive.stops(old(self)@.pending, "plugin protocol violation: "@ + reason@),
    {
        let message = "plugin protocol violation: ".to_owned().concat(reason.as_str());
        self.fail_all(message.as_str())
    }
}

/// The calls that a directive answers.
pub open spec fn answered<H>(directive: Directive<H>) -> Seq<Resolution<H>> {
    match directive.answer {
        Some(resolution) => seq![resolution] + directive.failed@,
        None => directive.failed@,
    }
}

/// One event: what was pending before and after it, the call that it brought,
/// and the answers that it gave.
pub struct Turn<H> {
    pub before: Map<Seq<char>, Call<H>>,
    pub offered: Option<(Seq<char>, Call<H>)>,
    pub after: Map<Seq<char>, Call<H>>,
    pub answered: Seq<Resolution<H>>,
}

impl<H> Turn<H> {
    /// Whether `handle` is that of the call known as `id`, pending or offered.
    pub open spec fn knows(self, id: Seq<char>, handle: H) -> bool {
        ||| self.before.contains_key(id) && self.before[id].handle == handle
        ||| self.offered matches Some((offered, call)) && offered == id && call.handle == handle
    }

    /// Whether the call is pending after the event.
    pub open spec fn keeps(self, id: Seq<char>, call: Call<H>) -> bool {
        self.after.contains_key(id) && self.after[id] == call
    }

    /// Whether the event answers the call.
    pub open spec fn answers_to(self, id: Seq<char>, call: Call<H>) -> bool {
        exists|i: int|
            0 <= i < self.answered.len() && (#[trigger] self.answered[i]).id@ == id
                && self.answered[i].handle == call.handle
    }

    /// No call is lost and none is answered twice: each call that was pending
    /// or came stays pending or is answered, as many calls are answered or stay
    /// pending as were pending or came, and each answer goes to a call that was.
    pub open spec fn conserves(self) -> bool {
        &&& forall|id: Seq<char>| #[trigger]
            self.before.contains_key(id) ==> self.keeps(id, self.before[id]) || self.answers_to(
                id,
                self.before[id],
            )
        &&& self.offered matches Some((id, call)) ==> self.keeps(id, call) || self.answers_to(
            id,
            call,
        )
        &&& self.after.dom().finite()
        &&& self.after.len() + self.answered.len() == self.before.len() + if self.offered is Some {
            1nat
        } else {
            0
        }
        &&& forall|i: int|
            0 <= i < self.answered.len() ==> self.knows(
                (#[trigger] self.answered[i]).id@,
                self.answered[i].handle,
            )
    }
}

/// Stopping the process conserves the calls.
pub proof fn law_stopping_conserves_calls<H>(
    before: SupervisorView<H>,
    directive: Directive<H>,
    message: Seq<char>,
)
    requires
        before.pending.dom().finite(),
        directive.stops(before.pending, message),
    ensures
        (Turn {
            before: before.pending,
            offered: None,
            after: before.stopped().pending,
            answered: answered(directive),
        }).conserves(),
{
}

/// Answering a pending call conserves the calls.
pub proof fn law_answering_conserves_calls<H>(
    before: SupervisorView<H>,
    id: Seq<char>,
    directive: Directive<H>,
    outcome: Result<JsonView, ErrorView>,
)
    requires
        before.pending.dom().finite(),
        before.pending.contains_key(id),
        directive.only_answers(id, before.pending[id], outcome),
    ensures
        (Turn {
            before: before.pending,
            offered: None,
            after: before.pending.remove(id),
            answered: answered(directive),
        }).conserves(),
{
    let turn = Turn {
        before: before.pending,
        offered: None,
        after: before.pending.remove(id),
        answered: answered(directive),
    };
    assert(turn.answered =~= seq![directive.answer->0]);
    assert(turn.answered[0].id@ == id);
    assert(turn.answers_to(id, before.pending[id]));
}

/// Sending a call conserves the calls, whether a call of the same id is given
/// up for it or not.
pub proof fn law_sending_conserves_calls<H>(
    before: SupervisorView<H>,
    id: Seq<char>,
    call: Call<H>,
    directive: Directive<H>,
)
    requires
        before.pending.dom().finite(),
        if before.pending.contains_key(id) {
            directive.only_answers(
                id,
                before.pending[id],
                call_error(before.pending[id].tool@, "plugin supervisor disconnected"@),
            )
        } else {
            directive.idle()
        },
    ensures
        (Turn {
            before: before.pending,
            offered: Some((id, call)),
            after: before.pending.insert(id, call),
            answered: answered(directive),
        }).conserves(),
{
    let turn = Turn {
        before: before.pending,
        offered: Some((id, call)),
        after: before.pending.insert(id, call),
        answered: answered(directive),
    };
    if before.pending.contains_key(id) {
        assert(turn.answered =~= seq![directive.answer->0]);
        assert(turn.answered[0].id@ == id);
        assert(turn.answers_to(id, before.pending[id]));
    }
    assert(turn.keeps(id, call));
}

/// A call that could not be sent is answered, and so is every other: the calls
/// are conserved.
pub proof fn law_failed_sending_conserves_calls<H>(
    before: SupervisorView<H>,
    id: Seq<char>,
    call: Call<H>,
    directive: Directive<H>,
    outcome: Result<JsonView, ErrorView>,
    message: Seq<char>,
)
    requires
        before.pending.dom().finite(),
        directive.answer matches Some(resolution) && answers(resolution, id, call, outcome),
        fails_all(directive.failed@, before.pending, message),
    ensures
        (Turn {
            before: before.pending,
            offered: Some((id, call)),
            after: before.stopped().pending,
            answered: answered(directive),
        }).conserves(),
{
    let turn = Turn {
        before: before.pending,
        offered: Some((id, call)),
        after: before.stopped().pending,
        answered: answered(directive),
    };
    assert forall|i: int| 0 <= i < turn.answered.len() implies turn.knows(
        (#[trigger] turn.answered[i]).id@,
        turn.answered[i].handle,
    ) by {
        if i > 0 {
            assert(turn.answered[i] == directive.failed@[i - 1]);
        }
    }
    assert(turn.answered[0] == directive.answer->0);
    assert(turn.answers_to(id, call));
    assert forall|other: Seq<char>| #[trigger]
        turn.before.contains_key(other) implies turn.answers_to(other, turn.before[other]) by {
        let i = choose|i: int|
            0 <= i < directive.failed@.len() && (#[trigger] directive.failed@[i]).id@ == other;
        assert(turn.answered[i + 1] == directive.failed@[i]);
    }
}

/// A call is never lost: at any later turn it is still pending, or a turn since
/// it came has answered it.
pub proof fn law_no_call_is_lost<H>(turns: Seq<Turn<H>>, i: int, id: Seq<char>, call: Call<H>)
    requires
        0 <= i < turns.len(),
        forall|k: int| 0 <= k < turns.len() ==> (#[trigger] turns[k]).conserves(),
        forall|j: int, k: int|
            0 <= j && k == j + 1 && k < turns.len() ==> (#[trigger] turns[j]).after == (
            #[trigger] turns[k]).before,
        turns[i].offered == Some((id, call)),
    ensures
        turns.last().keeps(id, call) || exists|k: int|
            i <= k < turns.len() && (#[trigger] turns[k]).answers_to(id, call),
    decreases turns.len(),
{
    let n = turns.len() - 1;
    assert(turns[i].conserves());
    if i < n {
        let earlier = turns.drop_last();
        assert(forall|k: int| 0 <= k < earlier.len() ==> #[trigger] earlier[k] == turns[k]);
        law_no_call_is_lost(earlier, i, id, call);
        if earlier.last().keeps(id, call) {
            assert(earlier.last() == turns[n - 1]);
            assert(turns[n - 1].after == turns[n].before);
            assert(turns[n].conserves());
            assert(turns[n].before.contains_key(id));
        } else {
            let k = choose|k: int|
                i <= k < earlier.len() && (#[trigger] earlier[k]).answers_to(id, call);
            assert(turns[k].answers_to(id, call));
        }
    }
}

/// How many calls some turns brought.
pub open spec fn offers<H>(turns: Seq<Turn<H>>) -> nat
    decreases turns.len(),
{
    if turns.len() == 0 {
        0
    } else {
        offers(turns.drop_last()) + if turns.last().offered is Some {
            1nat
        } else {
            0
        }
    }
}

/// How many answers some turns gave.
pub open spec fn answers_given<H>(turns: Seq<Turn<H>>) -> nat
    decreases turns.len(),
{
    if turns.len() == 0 {
        0
    } else {
        answers_given(turns.drop_last()) + turns.last().answered.len()
    }
}

/// From an empty start, through any turns that conserve the calls, as many
/// answers are given as calls came, less those that are still pending: once
/// nothing is pending, every call has had its one answer.
pub proof fn law_every_call_is_answered_once<H>(turns: Seq<Turn<H>>)
    requires
        turns.len() > 0,
        turns[0].before == Map::<Seq<char>, Call<H>>::empty(),
        forall|i: int| 0 <= i < turns.len() ==> (#[trigger] turns[i]).conserves(),
        forall|i: int, j: int|
            0 <= i && j == i + 1 && j < turns.len() ==> (#[trigger] turns[i]).after == (
            #[trigger] turns[j]).before,
    ensures
        answers_given(turns) + turns.last().after.len() == offers(turns),
    decreases turns.len(),
{
    let last = turns.last();
    assert(last == turns[turns.len() - 1]);
    assert(last.conserves());
    if turns.len() == 1 {
        assert(offers(turns.drop_last()) == 0);
        assert(answers_given(turns.drop_last()) == 0);
    } else {
        let earlier = turns.drop_last();
        assert(forall|i: int| 0 <= i < earlier.len() ==> #[trigger] earlier[i] == turns[i]);
        law_every_call_is_answered_once(earlier);
        assert(earlier.last() == turns[turns.len() - 2]);
        assert(turns[turns.len() - 2].after == turns[turns.len() - 1].before);
    }
}

/// How plugin processes are run. Times are in nanoseconds.
#[derive(Debug, PartialEq, Eq)]
pub struct PluginRuntimeConfig {
    pub start_timeout: u128,
    pub cancel_grace: u128,
    pub base_env: Vec<(String, String)>,
    pub memory_bytes: Option<u64>,
    pub process_count: Option<u64>,
}

/// Names and values of variables.
pub open spec fn variables(env: Seq<(String, String)>) -> Seq<(Seq<char>, Seq<char>)> {
    Seq::new(env.len(), |i: int| (env[i].0@, env[i].1@))
}

impl Default for PluginRuntimeConfig {
    fn default() -> (config: Self)
        ensures
            config.start_timeout == 5_000_000_000,
            config.cancel_grace == 2_000_000_000,
            variables(config.base_env@) == seq![
                ("PATH"@, "/usr/local/bin:/usr/bin:/bin"@),
                ("LANG"@, "C.UTF-8"@),
            ],
            config.memory_bytes is None,
            config.process_count is None,
    {
        let mut base_env: Vec<(String, String)> = Vec::new();
        base_env.push(("PATH".to_owned(), "/usr/local/bin:/usr/bin:/bin".to_owned()));
        base_env.push(("LANG".to_owned(), "C.UTF-8".to_owned()));
        assert(variables(base_env@) =~= seq![
            ("PATH"@, "/usr/local/bin:/usr/bin:/bin"@),
            ("LANG"@, "C.UTF-8"@),
        ]);
        PluginRuntimeConfig {
            start_timeout: 5_000_000_000,
            cancel_grace: 2_000_000_000,
            base_env,
            memory_bytes: None,
            process_count: None,
        }
    }
}

/// How a plugin process is started. It leads a process group of its own.
#[derive(Debug, PartialEq, Eq)]
pub struct Launch {
    pub program: String,
    pub args: Vec<String>,
    /// The working directory.
    pub cwd: String,
    /// The whole environment.
    pub env: Vec<(String, String)>,
    /// The ceiling on its memory.
    pub memory_bytes: Option<u64>,
    /// The ceiling on its processes.
    pub process_count: Option<u64>,
}

/// How the process of a package is started: in the directory of the package, with
/// the configured variables and those that tell it its id and the protocol, and
/// under the configured ceilings.
pub fn launch(manifest: &PluginManifest, root: &str, config: &PluginRuntimeConfig) -> (launch:
    Launch)
    requires
        manifest@.entrypoint.len() > 0,
    ensures
        launch.program@ == if local_entrypoint(manifest@) {
            join_of(root@, manifest@.entrypoint[0])
        } else {
            manifest@.entrypoint[0]
        },
        texts(launch.args@) == manifest@.entrypoint.skip(1),
        launch.cwd@ == root@,
        launch.memory_bytes == config.memory_bytes,
        launch.process_count == config.process_count,
        variables(launch.env@) == variables(config.base_env@).push(
            ("ATE_PLUGIN_ID"@, manifest@.id),
        ).push(("ATE_PLUGIN_PROTOCOL_VERSION"@, decimal(PLUGIN_PROTOCOL_VERSION as nat))),
{
    let program = if manifest.entrypoint_is_local() {
        join_path(root, manifest.entrypoint[0].as_str())
    } else {
        manifest.entrypoint[0].clone()
    };
    let mut args: Vec<String> = Vec::new();
    let mut i: usize = 1;
    while i < manifest.entrypoint.len()
        invariant
            1 <= i <= manifest.entrypoint@.len(),
            args@.len() == i - 1,
            forall|j: int| 0 <= j < args@.len() ==> #[trigger] args@[j]@ == manifest.entrypoint@[j + 1]@,
        decreases manifest.entrypoint.len() - i,
    {
        args.push(manifest.entrypoint[i].clone());
        i += 1;
    }
    assert(texts(args@) =~= manifest@.entrypoint.skip(1));
    let mut env: Vec<(String, String)> = Vec::new();
    let mut k: usize = 0;
    while k < config.base_env.len()
        invariant
            k <= config.base_env@.len(),
            env@.len() == k,
            forall|j: int|
                0 <= j < k ==> (#[trigger] env@[j]).0@ == config.base_env@[j].0@ && env@[j].1@
                    == config.base_env@[j].1@,
        decreases config.base_env.len() - k,
    {
        env.push((config.base_env[k].0.clone(), config.base_env[k].1.clone()));
        k += 1;
    }
    assert(variables(env@) =~= variables(config.base_env@));
    let ghost base = variables(env@);
    env.push(("ATE_PLUGIN_ID".to_owned(), manifest.id.clone()));
    assert(variables(env@) =~= base.push(("ATE_PLUGIN_ID"@, manifest@.id)));
    let ghost named = variables(env@);
    let version = decimal_text(PLUGIN_PROTOCOL_VERSION as u128);
    env.push(("ATE_PLUGIN_PROTOCOL_VERSION".to_owned(), version));
    assert(variables(env@) =~= named.push(("ATE_PLUGIN_PROTOCOL_VERSION"@, version@)));
    Launch {
        program,
        args,
        cwd: root.to_owned(),
        env,
        memory_bytes: config.memory_bytes,
        process_count: config.process_count,
    }
}

/// The greeting that a started plugin gets.
pub fn hello(manifest: &PluginManifest) -> (request: PluginRequest)
    ensures
        request@ == (PluginRequestView::Hello {
            protocol_version: PLUGIN_PROTOCOL_VERSION,
            package_id: manifest@.id,
        }),
{
    PluginRequest::Hello {
        protocol_version: PLUGIN_PROTOCOL_VERSION,
        package_id: manifest.id.clone(),
    }
}

/// What reading a message from a plugin came to: a message, the end of the
/// output, or an error.
pub type ReadOutcome = Result<Option<PluginResponse>, String>;

/// Whether a plugin answered its greeting as it must: in time, with the version
/// of the protocol.
pub open spec fn handshake_accepted(read: Option<ReadOutcome>) -> bool {
    read matches Some(Ok(Some(PluginResponse::HelloAck { protocol_version }))) && protocol_version
        == PLUGIN_PROTOCOL_VERSION
}

/// What is told of a plugin that did not answer its greeting as it must.
pub open spec fn handshake_refusal(read: Option<ReadOutcome>, shown: Seq<char>) -> Seq<char> {
    match read {
        None => "plugin handshake timed out"@,
        Some(Err(error)) => error@,
        Some(Ok(_)) => "unexpected handshake response: "@ + shown,
    }
}

/// Whether a plugin answered its greeting as it must. `read` is `None` where it
/// did not answer in time; `shown` is what was read, for the error.
pub fn check_handshake(read: Option<ReadOutcome>, shown: &str) -> (checked: Result<(), String>)
    ensures
        match checked {
            Ok(_) => handshake_accepted(read),
            Err(error) => !handshake_accepted(read) && error@ == handshake_refusal(read, shown@),
        },
{
    match read {
        None => Err("plugin handshake timed out".to_owned()),
        Some(Err(error)) => Err(error),
        Some(Ok(hello)) => {
            let accepted = match &hello {
                Some(PluginResponse::HelloAck { protocol_version }) => *protocol_version
                    == PLUGIN_PROTOCOL_VERSION,
                _ => false,
            };
            if accepted {
                Ok(())
            } else {
                Err("unexpected handshake response: ".to_owned().concat(shown))
            }
        },
    }
}

/// What the reader of a plugin's output hears: a message, or the reason why no
/// more will come.
pub fn heard(read: ReadOutcome) -> (event: Result<PluginResponse, String>)
    ensures
        match read {
            Ok(Some(message)) => event == Ok::<PluginResponse, String>(message),
            Ok(None) => event matches Err(reason) && reason@ == "plugin exited"@,
            Err(error) => event matches Err(reason) && reason@ == "plugin protocol error: "@
                + error@,
        },
{
    match read {
        Ok(Some(message)) => Ok(message),
        Ok(None) => Err("plugin exited".to_owned()),
        Err(error) => Err("plugin protocol error: ".to_owned().concat(error.as_str())),
    }
}

/// The milliseconds until a deadline: none where it has passed, and what fits
/// where it is far.
pub open spec fn remaining(deadline: Option<u128>, now: u128) -> Option<u64> {
    match deadline {
        None => None,
        Some(deadline) => if deadline <= now {
            Some(0)
        } else if (deadline - now) / 1_000_000 > u64::MAX {
            Some(u64::MAX)
        } else {
            Some(((deadline - now) / 1_000_000) as u64)
        },
    }
}

/// The milliseconds until a deadline. Both times are in nanoseconds.
pub fn remaining_ms(deadline: Option<u128>, now: u128) -> (ms: Option<u64>)
    ensures
        ms == remaining(deadline, now),
{
    match deadline {
        None => None,
        Some(deadline) => {
            if deadline <= now {
                return Some(0);
            }
            let ms: u128 = (deadline - now) / 1_000_000;
            if ms > u64::MAX as u128 {
                Some(u64::MAX)
            } else {
                Some(ms as u64)
            }
        },
    }
}

/// The request that a call sends to the plugin.
pub fn invoke_request(id: &str, tool: &str, arguments: &Json, cwd: &str, timeout_ms: Option<u64>) -> (
    request: PluginRequest)
    ensures
        request@ == (PluginRequestView::Invoke {
            invocation_id: id@,
            tool: tool@,
            arguments: arguments@,
            cwd: cwd@,
            timeout_ms,
        }),
{
    PluginRequest::Invoke {
        invocation_id: id.to_owned(),
        tool: tool.to_owned(),
        arguments: arguments.clone(),
        cwd: cwd.to_owned(),
        timeout_ms,
    }
}

/// A tool of a plugin.
pub struct ExternalToolAdapter<S> {
    tool: PluginToolManifest,
    supervisor: S,
}

impl<S> ExternalToolAdapter<S> {
    pub closed spec fn tool(self) -> PluginToolManifest {
        self.tool
    }

    pub closed spec fn supervisor_view(self) -> S {
        self.supervisor
    }

    pub fn new(tool: PluginToolManifest, supervisor: S) -> (adapter: Self)
        ensures
            adapter.tool() == tool,
            adapter.supervisor_view() == supervisor,
    {
        ExternalToolAdapter { tool, supervisor }
    }

    /// What runs the calls of this tool.
    pub fn supervisor(&self) -> (supervisor: &S)
        ensures
            *supervisor == self.supervisor_view(),
    {
        &self.supervisor
    }
}

impl<S> Tool for ExternalToolAdapter<S> {
    fn definition(&self) -> (definition: ToolDefinition)
        ensures
            definition@.name == self.tool()@.name,
            definition@.description == self.tool()@.description,
            definition@.input_schema == self.tool()@.input_schema,
    {
        ToolDefinition {
            name: self.tool.name.clone(),
            description: self.tool.description.clone(),
            input_schema: self.tool.input_schema.clone(),
        }
    }

    fn is_concurrency_safe(&self, arguments: &Json) -> (safe: bool)
        ensures
            safe == self.tool()@.concurrency_safe,
    {
        self.tool.concurrency_safe
    }

    fn invocation_detail(&self, arguments: &Json) -> (detail: String)
        ensures
            detail@ == self.tool()@.name,
    {
        self.tool.name.clone()
    }
}

/// A completed call is answered with what the plugin returned, to the handle
/// that waits for it; a failed one with an error of its tool that ends in the
/// plugin's message.
pub proof fn law_answers_say_what_the_plugin_said<H>(
    directive: Directive<H>,
    id: Seq<char>,
    call: Call<H>,
    content: JsonView,
    code: Seq<char>,
    message: Seq<char>,
)
    ensures
        directive.only_answers(id, call, Ok(content)) ==> (directive.answer matches Some(resolution)
            && resolution.id@ == id && resolution.handle == call.handle && (resolution.outcome
            matches Ok(json) && json@ == content)),
        directive.only_answers(id, call, call_error(call.tool@, code + ": "@ + message)) ==> (
        directive.answer matches Some(resolution) && resolution.id@ == id && resolution.handle
            == call.handle && (resolution.outcome matches Err(error) && (error@
            matches ErrorView::ToolExecution { tool, message: told } && tool == call.tool@
            && message.is_suffix_of(told) && code.is_prefix_of(told)))),
{
    let told = code + ": "@ + message;
    assert(told.subrange(told.len() - message.len(), told.len() as int) =~= message);
    assert(told.take(code.len() as int) =~= code);
}

/// Where a process is stopped, every call that was pending is answered with an
/// error of its own tool that gives the reason, to the handle that waits for it.
pub proof fn law_stopping_tells_every_call_why<H>(
    directive: Directive<H>,
    pending: Map<Seq<char>, Call<H>>,
    message: Seq<char>,
    id: Seq<char>,
)
    requires
        directive.stops(pending, message),
        pending.contains_key(id),
    ensures
        directive.stop,
        exists|i: int|
            0 <= i < directive.failed@.len() && (#[trigger] directive.failed@[i]).id@ == id
                && directive.failed@[i].handle == pending[id].handle && (
            directive.failed@[i].outcome matches Err(error) && (error@
                matches ErrorView::ToolExecution { tool, message: told } && tool
                == pending[id].tool@ && told == message)),
{
    let i = choose|i: int|
        0 <= i < directive.failed@.len() && (#[trigger] directive.failed@[i]).id@ == id;
    assert(directive.failed@[i].handle == pending[id].handle);
}

/// A plugin breaks the protocol exactly where it speaks of a call that is not
/// pending, or greets or takes its leave out of turn; a message on a pending
/// call never does.
pub proof fn law_only_pending_calls_may_be_spoken_of<H>(
    pending: Map<Seq<char>, Call<H>>,
    message: PluginResponseView,
)
    ensures
        match message {
            PluginResponseView::Progress { invocation_id, .. } => violation(pending, message) is Some
                <==> !pending.contains_key(invocation_id),
            PluginResponseView::Completed { invocation_id, .. } => violation(pending, message)
                is Some <==> !pending.contains_key(invocation_id),
            PluginResponseView::Failed { invocation_id, .. } => violation(pending, message) is Some
                <==> !pending.contains_key(invocation_id),
            _ => violation(pending, message) is Some,
        },
{
}

/// Each start has a number other than the one before it.
pub proof fn law_starts_are_told_apart(generation: u64)
    ensures
        next_generation(generation) != generation,
        generation < u64::MAX ==> next_generation(generation) == generation + 1,
{
}

/// The time until a deadline is told in whole milliseconds, rounded down, as far
/// as they fit; nothing is left of one that has passed.
pub proof fn law_remaining_time_is_rounded_down(deadline: u128, now: u128)
    ensures
        remaining(None, now) is None,
        remaining(Some(deadline), now) matches Some(ms) && {
            &&& deadline <= now ==> ms == 0
            &&& deadline > now && deadline - now < (u64::MAX + 1) * 1_000_000 ==> ms * 1_000_000
                <= deadline - now < (ms + 1) * 1_000_000
            &&& deadline > now && deadline - now >= (u64::MAX + 1) * 1_000_000 ==> ms == u64::MAX
        },
{
}

/// A plugin is accepted exactly where it acknowledges its greeting in time with
/// the version of the protocol; otherwise the refusal says that nothing came,
/// what went wrong, or what was read instead.
pub proof fn law_handshakes_need_an_acknowledgement(read: Option<ReadOutcome>, shown: Seq<char>)
    ensures
        match read {
            Some(Ok(Some(PluginResponse::HelloAck { protocol_version }))) => handshake_accepted(read)
                <==> protocol_version == PLUGIN_PROTOCOL_VERSION,
            _ => !handshake_accepted(read),
        },
        read matches Some(Err(error)) ==> handshake_refusal(read, shown) == error@,
        read matches Some(Ok(_)) ==> shown.is_suffix_of(handshake_refusal(read, shown)),
{
    let told = "unexpected handshake response: "@ + shown;
    assert(told.subrange(told.len() - shown.len(), told.len() as int) =~= shown);
}

/// A message out of turn is told with the id that it speaks of.
pub proof fn law_violations_name_the_call<H>(
    pending: Map<Seq<char>, Call<H>>,
    id: Seq<char>,
    message: Seq<char>,
    data: Option<JsonView>,
    content: JsonView,
    code: Seq<char>,
)
    requires
        !pending.contains_key(id),
    ensures
        violation(pending, PluginResponseView::Progress { invocation_id: id, message, data })
            matches Some(reason) && contains_text(reason, id),
        violation(pending, PluginResponseView::Completed { invocation_id: id, content })
            matches Some(reason) && contains_text(reason, id),
        violation(pending, PluginResponseView::Failed { invocation_id: id, code, message })
            matches Some(reason) && contains_text(reason, id),
{
    law_occurrences_split_the_text("progress for unknown invocation `"@, id, "`"@);
    law_occurrences_split_the_text("completion for unknown invocation `"@, id, "`"@);
    law_occurrences_split_the_text("failure for unknown invocation `"@, id, "`"@);
}

/// Where nothing is to be done, nothing is sent, watched, told, answered or
/// stopped; and where a process was stopped, nothing runs and nothing is pending.
pub proof fn law_idle_directives_do_nothing<H>(directive: Directive<H>, state: SupervisorView<H>)
    ensures
        directive.idle() ==> directive.send is None && directive.watch is None
            && directive.progress is None && directive.answer is None && !directive.stop
            && directive.failed@.len() == 0,
        state.stopped().running is None,
        state.stopped().pending.dom() == Set::<Seq<char>>::empty(),
        state.stopped().generation == state.generation,
{
}

/// The answer to a call is seen with its content or its error, and a list of
/// variables with each name and value, in order.
pub proof fn law_answers_are_seen_whole(
    outcome: Result<Json, ExecutionError>,
    env: Seq<(String, String)>,
    i: int,
)
    ensures
        match outcome {
            Ok(content) => outcome_view(outcome) matches Ok(seen) && seen == content@,
            Err(error) => outcome_view(outcome) matches Err(told) && told == error@,
        },
        variables(env).len() == env.len(),
        0 <= i < env.len() ==> variables(env)[i].0 == env[i].0@ && variables(env)[i].1 == env[i].1@,
{
}

} // verus!

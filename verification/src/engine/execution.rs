//! The lifecycle of one execution: from the queue to its one result.

use vstd::prelude::*;

use crate::engine::error::{ErrorView, ExecutionError};
use crate::engine::observer::{EventView, ExecutionEvent};
use crate::engine::tool::ToolOutput;
use crate::json::{keys_of, lemma_member_at, with_member, Json, JsonView};
use crate::protocol::model::{ExecutionRequest, ExecutionResult, RequestView, ResultView};
use crate::text::{copy_texts, texts};

verus! {

/// How far an execution has come.
#[derive(Debug, Clone, Copy, PartialEq, Eq, Structural)]
pub enum Stage {
    /// It waits for a permit.
    Queued,
    /// It holds a permit; its tool is to be resolved.
    Admitted,
    /// Its tool is known; the arguments are to be checked.
    Started,
    /// The tool's own validation runs.
    Validating,
    /// The tool runs.
    Invoking,
    /// It has its result.
    Finished,
}

/// What happens to an execution.
#[derive(Debug, PartialEq, Eq)]
pub enum Signal {
    /// A permit was granted.
    Granted,
    /// The semaphore is closed.
    Closed,
    /// The tool was found and describes the invocation so, or was not found.
    Resolved(Option<String>),
    /// The schema check passed or failed.
    Checked(Result<(), ExecutionError>),
    /// The tool's own validation passed or failed.
    Validated(Result<(), ExecutionError>),
    /// The tool returned.
    Completed(Result<ToolOutput, ExecutionError>),
    /// The cancellation handle fired.
    Cancelled,
    /// The deadline passed.
    DeadlinePassed,
    /// The tool panicked, with a message where the payload was text.
    Panicked(Option<String>),
}

/// What a [`Signal`] says.
pub enum SignalView {
    Granted,
    Closed,
    Resolved(Option<Seq<char>>),
    Checked(Option<ErrorView>),
    Validated(Option<ErrorView>),
    Completed(Result<JsonView, ErrorView>),
    Cancelled,
    DeadlinePassed,
    Panicked(Option<Seq<char>>),
}

/// The error of an outcome.
pub open spec fn outcome_error(outcome: Result<(), ExecutionError>) -> Option<ErrorView> {
    match outcome {
        Ok(_) => None,
        Err(error) => Some(error@),
    }
}

/// The text of an optional string.
pub open spec fn text_view(text: Option<String>) -> Option<Seq<char>> {
    match text {
        Some(text) => Some(text@),
        None => None,
    }
}

impl View for Signal {
    type V = SignalView;

    open spec fn view(&self) -> SignalView {
        match self {
            Signal::Granted => SignalView::Granted,
            Signal::Closed => SignalView::Closed,
            Signal::Resolved(detail) => SignalView::Resolved(text_view(*detail)),
            Signal::Checked(outcome) => SignalView::Checked(outcome_error(*outcome)),
            Signal::Validated(outcome) => SignalView::Validated(outcome_error(*outcome)),
            Signal::Completed(Ok(output)) => SignalView::Completed(Ok(output.content@)),
            Signal::Completed(Err(error)) => SignalView::Completed(Err(error@)),
            Signal::Cancelled => SignalView::Cancelled,
            Signal::DeadlinePassed => SignalView::DeadlinePassed,
            Signal::Panicked(message) => SignalView::Panicked(text_view(*message)),
        }
    }
}

/// What is to be done for an execution, in order.
#[derive(Debug, PartialEq, Eq)]
pub enum Effect {
    /// Cancel the execution's own handle.
    CancelContext,
    /// Tell the observer.
    Notify(ExecutionEvent),
    /// Run the tool's own validation.
    Validate,
    /// Run the tool.
    Invoke,
    /// Give the permit back.
    ReleasePermit,
    /// Hand the result to the caller.
    Finish(ExecutionResult),
}

/// What an [`Effect`] says.
pub enum EffectView {
    CancelContext,
    Notify(EventView),
    Validate,
    Invoke,
    ReleasePermit,
    Finish(ResultView),
}

impl View for Effect {
    type V = EffectView;

    open spec fn view(&self) -> EffectView {
        match self {
            Effect::CancelContext => EffectView::CancelContext,
            Effect::Notify(event) => EffectView::Notify(event@),
            Effect::Validate => EffectView::Validate,
            Effect::Invoke => EffectView::Invoke,
            Effect::ReleasePermit => EffectView::ReleasePermit,
            Effect::Finish(result) => EffectView::Finish(result@),
        }
    }
}

/// What each effect of a list says.
pub open spec fn effects_view(effects: Seq<Effect>) -> Seq<EffectView> {
    Seq::new(effects.len(), |i: int| effects[i]@)
}

/// One execution.
pub struct Execution {
    request: ExecutionRequest,
    cwd: String,
    env_keys: Vec<String>,
    stage: Stage,
}

/// What an [`Execution`] stands for.
pub struct ExecutionView {
    pub request: RequestView,
    pub cwd: Seq<char>,
    pub env_keys: Seq<Seq<char>>,
    pub stage: Stage,
}

impl View for Execution {
    type V = ExecutionView;

    closed spec fn view(&self) -> ExecutionView {
        ExecutionView {
            request: self.request@,
            cwd: self.cwd@,
            env_keys: texts(self.env_keys@),
            stage: self.stage,
        }
    }
}

/// The content of an error result.
pub open spec fn error_content(code: Seq<char>, message: Seq<char>) -> JsonView {
    JsonView::Object(
        seq![
            (
                "error"@,
                JsonView::Object(
                    seq![("kind"@, JsonView::Text(code)), ("message"@, JsonView::Text(message))],
                ),
            ),
        ],
    )
}

/// The result of a request that failed.
pub open spec fn failed_result(request: RequestView, error: ErrorView) -> ResultView {
    ResultView {
        execution_id: request.id,
        tool: request.tool,
        content: error_content(error.code(), error.sentence()),
        is_error: true,
    }
}

/// The event of a request that failed.
pub open spec fn failed_event(execution: ExecutionView, error: ErrorView) -> EventView {
    EventView::Failed {
        execution_id: execution.request.id,
        tool: execution.request.tool,
        error,
        argument_keys: keys_of(execution.request.arguments),
        cwd: execution.cwd,
        env_keys: execution.env_keys,
    }
}

/// The error of a cancelled execution.
pub open spec fn cancelled_error(queued: bool) -> ErrorView {
    ErrorView::Cancelled {
        message: if queued {
            "execution cancelled while queued"@
        } else {
            "execution cancelled"@
        },
    }
}

/// The error of an execution whose deadline passed.
pub open spec fn deadline_error(queued: bool) -> ErrorView {
    ErrorView::TimedOut {
        message: if queued {
            "execution deadline exceeded while queued"@
        } else {
            "execution deadline exceeded"@
        },
    }
}

impl ExecutionView {
    /// The same execution at another stage.
    pub open spec fn at(self, stage: Stage) -> ExecutionView {
        ExecutionView { stage, ..self }
    }

    /// Whether it holds a permit.
    pub open spec fn holds_permit(self) -> bool {
        self.stage != Stage::Queued && self.stage != Stage::Finished
    }

    /// Whether its tool is known and its result is not: cancellation and the
    /// deadline race with the tool.
    pub open spec fn races(self) -> bool {
        self.stage == Stage::Started || self.stage == Stage::Validating || self.stage
            == Stage::Invoking
    }

    /// The end of a failed execution: the handle is cancelled where asked, the
    /// observer is told, the permit is given back, the result is handed over.
    pub open spec fn failing(self, error: ErrorView, cancel: bool) -> (
        ExecutionView,
        Seq<EffectView>,
    ) {
        let cancelling = if cancel {
            seq![EffectView::CancelContext]
        } else {
            seq![]
        };
        let releasing = if self.holds_permit() {
            seq![EffectView::ReleasePermit]
        } else {
            seq![]
        };
        (
            self.at(Stage::Finished),
            cancelling.push(EffectView::Notify(failed_event(self, error))) + releasing.push(
                EffectView::Finish(failed_result(self.request, error)),
            ),
        )
    }

    /// What a signal does. One that does not fit the stage does nothing.
    pub open spec fn after(self, signal: SignalView) -> (ExecutionView, Seq<EffectView>) {
        match (self.stage, signal) {
            (Stage::Queued, SignalView::Granted) => (self.at(Stage::Admitted), seq![]),
            (Stage::Queued, SignalView::Closed) => self.failing(
                ErrorView::Other("executor closed"@),
                true,
            ),
            (Stage::Queued, SignalView::Cancelled) => self.failing(cancelled_error(true), true),
            (Stage::Queued, SignalView::DeadlinePassed) => self.failing(deadline_error(true), true),
            (Stage::Admitted, SignalView::Resolved(None)) => self.failing(
                ErrorView::ToolNotFound(self.request.tool),
                false,
            ),
            (Stage::Admitted, SignalView::Resolved(Some(detail))) => (
                self.at(Stage::Started),
                seq![
                    EffectView::Notify(
                        EventView::Started {
                            execution_id: self.request.id,
                            tool: self.request.tool,
                            detail,
                        },
                    ),
                ],
            ),
            (Stage::Started, SignalView::Checked(Some(error))) => self.failing(error, false),
            (Stage::Started, SignalView::Checked(None)) => (
                self.at(Stage::Validating),
                seq![EffectView::Validate],
            ),
            (Stage::Validating, SignalView::Validated(Some(error))) => self.failing(error, false),
            (Stage::Validating, SignalView::Validated(None)) => (
                self.at(Stage::Invoking),
                seq![EffectView::Invoke],
            ),
            (Stage::Invoking, SignalView::Completed(Err(error))) => self.failing(error, false),
            (Stage::Invoking, SignalView::Completed(Ok(content))) => (
                self.at(Stage::Finished),
                seq![
                    EffectView::ReleasePermit,
                    EffectView::Finish(
                        ResultView {
                            execution_id: self.request.id,
                            tool: self.request.tool,
                            content,
                            is_error: false,
                        },
                    ),
                ],
            ),
            (_, SignalView::Cancelled) if self.races() => self.failing(
                cancelled_error(false),
                true,
            ),
            (_, SignalView::DeadlinePassed) if self.races() => self.failing(
                deadline_error(false),
                true,
            ),
            (_, SignalView::Panicked(message)) if self.holds_permit() => self.failing(
                ErrorView::Panicked(
                    match message {
                        Some(message) => message,
                        None => "tool execution panicked"@,
                    },
                ),
                false,
            ),
            _ => (self, seq![]),
        }
    }
}

/// An error result: the content names the kind and the message.
pub fn error_result(request: &ExecutionRequest, kind: &str, message: &str) -> (result:
    ExecutionResult)
    ensures
        result@ == (ResultView {
            execution_id: request@.id,
            tool: request@.tool,
            content: error_content(kind@, message@),
            is_error: true,
        }),
        result.content@.member("error"@) matches Some(inner) && inner.text_member("kind"@) == Some(
            kind@,
        ) && inner.text_member("message"@) == Some(message@),
{
    let inner = with_member(
        with_member(Vec::new(), "kind", Json::text(kind)),
        "message",
        Json::text(message),
    );
    let outer = with_member(Vec::new(), "error", Json::object(inner));
    proof {
        assert(crate::json::members_view(Seq::empty()) =~= Seq::empty());
        assert(crate::json::members_view(inner@) =~= seq![
            ("kind"@, JsonView::Text(kind@)),
            ("message"@, JsonView::Text(message@)),
        ]);
        assert(crate::json::members_view(outer@)
            =~= error_content(kind@, message@)->Object_0);
        law_error_content_names_kind_and_message(kind@, message@);
    }
    ExecutionResult {
        execution_id: request.id.clone(),
        tool: request.tool.clone(),
        content: Json::object(outer),
        is_error: true,
    }
}

impl Execution {
    /// A queued execution.
    pub fn new(request: ExecutionRequest, cwd: String, env_keys: Vec<String>) -> (execution: Self)
        ensures
            execution@ == (ExecutionView {
                request: request@,
                cwd: cwd@,
                env_keys: texts(env_keys@),
                stage: Stage::Queued,
            }),
    {
        Execution { request, cwd, env_keys, stage: Stage::Queued }
    }

    pub fn request(&self) -> (request: &ExecutionRequest)
        ensures
            request@ == self@.request,
    {
        &self.request
    }

    pub fn stage(&self) -> (stage: Stage)
        ensures
            stage == self@.stage,
    {
        self.stage
    }

    /// Ends the execution with an error, and tells what is to be done.
    fn fail_with(&mut self, error: ExecutionError, cancel: bool) -> (effects: Vec<Effect>)
        ensures
            (final(self)@, effects_view(effects@)) == old(self)@.failing(error@, cancel),
            effects@.len() > 0,
            effects@.last() matches Effect::Finish(result) && result.is_error
                && result.execution_id@ == old(self)@.request.id && result.tool@
                == old(self)@.request.tool && (result.content@.member("error"@) matches Some(inner)
                && inner.text_member("kind"@) == Some(error@.code()) && inner.text_member(
                "message"@,
            ) == Some(error@.sentence())),
    {
        let holds = !matches!(self.stage, Stage::Queued) && !matches!(self.stage, Stage::Finished);
        let sentence = error.describe();
        let result = error_result(&self.request, error.code(), sentence.as_str());
        let event = ExecutionEvent::Failed {
            execution_id: self.request.id.clone(),
            tool: self.request.tool.clone(),
            error,
            argument_keys: self.request.arguments.keys(),
            cwd: self.cwd.clone(),
            env_keys: copy_texts(&self.env_keys),
        };
        let mut effects: Vec<Effect> = Vec::new();
        if cancel {
            effects.push(Effect::CancelContext);
        }
        effects.push(Effect::Notify(event));
        if holds {
            effects.push(Effect::ReleasePermit);
        }
        effects.push(Effect::Finish(result));
        self.stage = Stage::Finished;
        assert(effects_view(effects@) =~= old(self)@.failing(error@, cancel).1);
        effects
    }

    /// The description of the start, told to the observer.
    fn started(&mut self, detail: String) -> (effects: Vec<Effect>)
        ensures
            final(self)@ == old(self)@.at(Stage::Started),
            effects_view(effects@) == seq![
                EffectView::Notify(
                    EventView::Started {
                        execution_id: old(self)@.request.id,
                        tool: old(self)@.request.tool,
                        detail: detail@,
                    },
                ),
            ],
    {
        self.stage = Stage::Started;
        let mut effects: Vec<Effect> = Vec::new();
        effects.push(
            Effect::Notify(
                ExecutionEvent::Started {
                    execution_id: self.request.id.clone(),
                    tool: self.request.tool.clone(),
                    detail,
                },
            ),
        );
        assert(effects_view(effects@) =~= seq![effects@[0]@]);
        effects
    }

    /// Takes a signal in, and tells what is to be done.
    pub fn advance(&mut self, signal: Signal) -> (effects: Vec<Effect>)
        ensures
            (final(self)@, effects_view(effects@)) == old(self)@.after(signal@),
            old(self)@.stage == Stage::Invoking ==> (signal matches Signal::Completed(Ok(output))
                ==> effects@.len() > 0 && (effects@.last() matches Effect::Finish(result)
                && result.content == output.content && !result.is_error && result.execution_id@
                == old(self)@.request.id && result.tool@ == old(self)@.request.tool)),
            old(self)@.stage == Stage::Invoking ==> (signal matches Signal::Completed(Err(error))
                ==> effects@.len() > 0 && (effects@.last() matches Effect::Finish(result)
                && result.is_error && result.execution_id@ == old(self)@.request.id
                && result.tool@ == old(self)@.request.tool && (result.content@.member("error"@)
                matches Some(inner) && inner.text_member("kind"@) == Some(error@.code())
                && inner.text_member("message"@) == Some(error@.sentence())))),
    {
        let stage = self.stage;
        let mut effects: Vec<Effect> = Vec::new();
        assert(effects_view(effects@) =~= seq![]);
        match signal {
            Signal::Granted => {
                if let Stage::Queued = stage {
                    self.stage = Stage::Admitted;
                }
                effects
            },
            Signal::Closed => {
                if let Stage::Queued = stage {
                    return self.fail_with(ExecutionError::Other("executor closed".to_owned()), true);
                }
                effects
            },
            Signal::Resolved(found) => {
                if let Stage::Admitted = stage {
                    return match found {
                        Some(detail) => self.started(detail),
                        None => {
                            let name = self.request.tool.clone();
                            self.fail_with(ExecutionError::ToolNotFound(name), false)
                        },
                    };
                }
                effects
            },
            Signal::Checked(outcome) => {
                if let Stage::Started = stage {
                    match outcome {
                        Err(error) => {
                            return self.fail_with(error, false);
                        },
                        Ok(_) => {
                            self.stage = Stage::Validating;
                            effects.push(Effect::Validate);
                            assert(effects_view(effects@) =~= seq![EffectView::Validate]);
                        },
                    }
                }
                effects
            },
            Signal::Validated(outcome) => {
                if let Stage::Validating = stage {
                    match outcome {
                        Err(error) => {
                            return self.fail_with(error, false);
                        },
                        Ok(_) => {
                            self.stage = Stage::Invoking;
                            effects.push(Effect::Invoke);
                            assert(effects_view(effects@) =~= seq![EffectView::Invoke]);
                        },
                    }
                }
                effects
            },
            Signal::Completed(outcome) => {
                if let Stage::Invoking = stage {
                    match outcome {
                        Err(error) => {
                            return self.fail_with(error, false);
                        },
                        Ok(output) => {
                            self.stage = Stage::Finished;
                            let result = ExecutionResult {
                                execution_id: self.request.id.clone(),
                                tool: self.request.tool.clone(),
                                content: output.content,
                                is_error: false,
                            };
                            effects.push(Effect::ReleasePermit);
                            effects.push(Effect::Finish(result));
                            assert(effects_view(effects@) =~= seq![
                                EffectView::ReleasePermit,
                                EffectView::Finish(result@),
                            ]);
                        },
                    }
                }
                effects
            },
            Signal::Cancelled => {
                match stage {
                    Stage::Queued => self.fail_with(
                        ExecutionError::Cancelled {
                            message: "execution cancelled while queued".to_owned(),
                        },
                        true,
                    ),
                    Stage::Started | Stage::Validating | Stage::Invoking => self.fail_with(
                        ExecutionError::Cancelled { message: "execution cancelled".to_owned() },
                        true,
                    ),
                    _ => effects,
                }
            },
            Signal::DeadlinePassed => {
                match stage {
                    Stage::Queued => self.fail_with(
                        ExecutionError::TimedOut {
                            message: "execution deadline exceeded while queued".to_owned(),
                        },
                        true,
                    ),
                    Stage::Started | Stage::Validating | Stage::Invoking => self.fail_with(
                        ExecutionError::TimedOut {
                            message: "execution deadline exceeded".to_owned(),
                        },
                        true,
                    ),
                    _ => effects,
                }
            },
            Signal::Panicked(message) => {
                let message = match message {
                    Some(message) => message,
                    None => "tool execution panicked".to_owned(),
                };
                match stage {
                    Stage::Queued | Stage::Finished => effects,
                    _ => self.fail_with(ExecutionError::Panicked(message), false),
                }
            },
        }
    }
}

/// What a running tool returned is what the caller gets: the one result that
/// is handed over has exactly that content, of whatever kind, is no error, and
/// carries the id and the tool of the request.
pub proof fn law_output_is_handed_over(execution: ExecutionView, content: JsonView)
    requires
        execution.stage == Stage::Invoking,
    ensures
        ({
            let (end, effects) = execution.after(SignalView::Completed(Ok(content)));
            &&& end.stage == Stage::Finished
            &&& effects.len() > 0
            &&& effects.last() matches EffectView::Finish(result) && result.content == content
                && !result.is_error && result.execution_id == execution.request.id && result.tool
                == execution.request.tool
            &&& forall|i: int|
                0 <= i < effects.len() - 1 ==> !((#[trigger] effects[i]) is Finish)
        }),
{
}

/// Two outputs that differ give two results that differ.
pub proof fn law_outputs_are_told_apart(execution: ExecutionView, a: JsonView, b: JsonView)
    requires
        execution.stage == Stage::Invoking,
        a != b,
    ensures
        execution.after(SignalView::Completed(Ok(a))).1.last() != execution.after(
            SignalView::Completed(Ok(b)),
        ).1.last(),
{
    law_output_is_handed_over(execution, a);
    law_output_is_handed_over(execution, b);
}

/// The content of an error result names the kind of the error and its message,
/// each under its key.
pub proof fn law_error_content_names_kind_and_message(code: Seq<char>, message: Seq<char>)
    ensures
        error_content(code, message).member("error"@) matches Some(inner) && inner.text_member(
            "kind"@,
        ) == Some(code) && inner.text_member("message"@) == Some(message),
{
    reveal_strlit("kind");
    reveal_strlit("message");
    assert("kind"@.len() != "message"@.len());
    let outer = error_content(code, message)->Object_0;
    lemma_member_at(outer, "error"@, 0);
    let inner = outer[0].1->Object_0;
    assert(inner[1].0 != "kind"@);
    lemma_member_at(inner, "kind"@, 0);
    lemma_member_at(inner, "message"@, 1);
}

/// Whether the last of some effects hands over an error result of the request
/// whose content names `kind` and `message`.
pub open spec fn hands_over_error(
    effects: Seq<EffectView>,
    request: RequestView,
    kind: Seq<char>,
    message: Seq<char>,
) -> bool {
    &&& effects.len() > 0
    &&& effects.last() matches EffectView::Finish(result)
    &&& result.is_error
    &&& result.execution_id == request.id
    &&& result.tool == request.tool
    &&& result.content.member("error"@) matches Some(inner)
    &&& inner.text_member("kind"@) == Some(kind)
    &&& inner.text_member("message"@) == Some(message)
}

/// An error of the schema check, of the tool's own validation or of the tool is
/// the error that the caller gets: its code and its sentence.
pub proof fn law_errors_are_handed_over(execution: ExecutionView, error: ErrorView)
    ensures
        execution.stage == Stage::Started ==> hands_over_error(
            execution.after(SignalView::Checked(Some(error))).1,
            execution.request,
            error.code(),
            error.sentence(),
        ),
        execution.stage == Stage::Validating ==> hands_over_error(
            execution.after(SignalView::Validated(Some(error))).1,
            execution.request,
            error.code(),
            error.sentence(),
        ),
        execution.stage == Stage::Invoking ==> hands_over_error(
            execution.after(SignalView::Completed(Err(error))).1,
            execution.request,
            error.code(),
            error.sentence(),
        ),
{
    law_error_content_names_kind_and_message(error.code(), error.sentence());
}

/// An execution that is cancelled, runs out of time, finds no tool or panics
/// before it has a result ends with an error of that kind, and one that is not
/// under way any more is left alone.
pub proof fn law_interruptions_are_handed_over(execution: ExecutionView, message: Seq<char>)
    ensures
        execution.stage == Stage::Queued || execution.races() ==> {
            &&& hands_over_error(
                execution.after(SignalView::Cancelled).1,
                execution.request,
                "cancelled"@,
                if execution.stage == Stage::Queued {
                    "execution cancelled while queued"@
                } else {
                    "execution cancelled"@
                },
            )
            &&& execution.after(SignalView::Cancelled).1[0] == EffectView::CancelContext
            &&& hands_over_error(
                execution.after(SignalView::DeadlinePassed).1,
                execution.request,
                "timed_out"@,
                if execution.stage == Stage::Queued {
                    "execution deadline exceeded while queued"@
                } else {
                    "execution deadline exceeded"@
                },
            )
            &&& execution.after(SignalView::DeadlinePassed).1[0] == EffectView::CancelContext
        },
        execution.stage == Stage::Queued ==> hands_over_error(
            execution.after(SignalView::Closed).1,
            execution.request,
            "execution_error"@,
            "executor closed"@,
        ),
        execution.stage == Stage::Admitted ==> hands_over_error(
            execution.after(SignalView::Resolved(None)).1,
            execution.request,
            "tool_not_found"@,
            "tool `"@ + execution.request.tool + "` not found"@,
        ),
        execution.stage != Stage::Queued && execution.stage != Stage::Finished ==> {
            &&& hands_over_error(
                execution.after(SignalView::Panicked(Some(message))).1,
                execution.request,
                "execution_panic"@,
                "tool panicked: "@ + message,
            )
            &&& hands_over_error(
                execution.after(SignalView::Panicked(None)).1,
                execution.request,
                "execution_panic"@,
                "tool panicked: "@ + "tool execution panicked"@,
            )
        },
{
    let queued = execution.stage == Stage::Queued;
    let cancelled = cancelled_error(queued);
    let late = deadline_error(queued);
    let closed = ErrorView::Other("executor closed"@);
    let unknown = ErrorView::ToolNotFound(execution.request.tool);
    let panicked = ErrorView::Panicked(message);
    let silent = ErrorView::Panicked("tool execution panicked"@);
    law_error_content_names_kind_and_message(cancelled.code(), cancelled.sentence());
    law_error_content_names_kind_and_message(late.code(), late.sentence());
    law_error_content_names_kind_and_message(closed.code(), closed.sentence());
    law_error_content_names_kind_and_message(unknown.code(), unknown.sentence());
    law_error_content_names_kind_and_message(panicked.code(), panicked.sentence());
    law_error_content_names_kind_and_message(silent.code(), silent.sentence());
}

/// A finished execution hears nothing any more: no signal changes it or has it
/// do anything.
pub proof fn law_finished_executions_stay_finished(execution: ExecutionView, signal: SignalView)
    requires
        execution.stage == Stage::Finished,
    ensures
        execution.after(signal).0 == execution,
        execution.after(signal).1.len() == 0,
{
}

/// An execution that nothing stands in the way of goes from the queue to its
/// result: it is admitted, its start is told with the description of the
/// invocation, its arguments are validated, its tool runs, its permit is given
/// back, and what the tool returned is handed over.
pub proof fn law_unhindered_executions_succeed(
    execution: ExecutionView,
    detail: Seq<char>,
    content: JsonView,
)
    requires
        execution.stage == Stage::Queued,
    ensures
        ({
            let admitted = execution.after(SignalView::Granted);
            let started = admitted.0.after(SignalView::Resolved(Some(detail)));
            let checked = started.0.after(SignalView::Checked(None));
            let validated = checked.0.after(SignalView::Validated(None));
            let completed = validated.0.after(SignalView::Completed(Ok(content)));
            &&& admitted.0.holds_permit() && admitted.1.len() == 0
            &&& started.1.len() == 1
            &&& started.1[0] matches EffectView::Notify(
                EventView::Started { execution_id, tool, detail: told },
            ) && execution_id == execution.request.id && tool == execution.request.tool && told
                == detail
            &&& checked.1.len() == 1 && checked.1[0] is Validate
            &&& validated.1.len() == 1 && validated.1[0] is Invoke
            &&& completed.1.len() == 2 && completed.1[0] is ReleasePermit
            &&& completed.1[1] matches EffectView::Finish(result) && result.content == content
                && !result.is_error
            &&& completed.0.stage == Stage::Finished
        }),
{
}

/// A failure is told to the observer as it is, before the result is handed over:
/// the error itself, with the id, the tool and the directory of the execution,
/// the keys of its arguments and those of its environment. Its handle is
/// cancelled first where that was asked for and not otherwise, and its permit is
/// given back where it has one.
pub proof fn law_failures_are_observed_as_they_are(
    execution: ExecutionView,
    error: ErrorView,
    cancel: bool,
)
    ensures
        ({
            let (end, effects) = execution.failing(error, cancel);
            let at: int = if cancel {
                1
            } else {
                0
            };
            let more: int = if execution.holds_permit() {
                1
            } else {
                0
            };
            &&& end.stage == Stage::Finished
            &&& effects.len() == at + 1 + more + 1
            &&& cancel ==> effects[0] is CancelContext
            &&& effects[at] matches EffectView::Notify(
                EventView::Failed {
                    execution_id,
                    tool,
                    error: told,
                    argument_keys,
                    cwd,
                    env_keys,
                },
            ) && execution_id == execution.request.id && tool == execution.request.tool && told
                == error && argument_keys == keys_of(execution.request.arguments) && cwd
                == execution.cwd && env_keys == execution.env_keys
            &&& execution.holds_permit() ==> effects[at + 1] is ReleasePermit
            &&& effects.last() is Finish
        }),
{
}

/// An error that a check, a validation or a tool returned does not cancel the
/// execution's handle, and the observer is told of that very error.
pub proof fn law_errors_are_observed(execution: ExecutionView, error: ErrorView)
    ensures
        execution.stage == Stage::Started ==> (execution.after(SignalView::Checked(Some(error))).1[0]
            matches EffectView::Notify(EventView::Failed { error: told, .. }) && told == error),
        execution.stage == Stage::Validating ==> (execution.after(
            SignalView::Validated(Some(error)),
        ).1[0] matches EffectView::Notify(EventView::Failed { error: told, .. }) && told == error),
        execution.stage == Stage::Invoking ==> (execution.after(
            SignalView::Completed(Err(error)),
        ).1[0] matches EffectView::Notify(EventView::Failed { error: told, .. }) && told == error),
{
}

/// A signal that does not belong to the stage of an execution does nothing: a
/// result before the tool runs, a check before it is due, a second permit.
pub proof fn law_untimely_signals_do_nothing(execution: ExecutionView, signal: SignalView)
    requires
        match signal {
            SignalView::Granted => execution.stage != Stage::Queued,
            SignalView::Closed => execution.stage != Stage::Queued,
            SignalView::Resolved(_) => execution.stage != Stage::Admitted,
            SignalView::Checked(_) => execution.stage != Stage::Started,
            SignalView::Validated(_) => execution.stage != Stage::Validating,
            SignalView::Completed(_) => execution.stage != Stage::Invoking,
            SignalView::Cancelled => execution.stage == Stage::Admitted || execution.stage
                == Stage::Finished,
            SignalView::DeadlinePassed => execution.stage == Stage::Admitted || execution.stage
                == Stage::Finished,
            SignalView::Panicked(_) => execution.stage == Stage::Queued || execution.stage
                == Stage::Finished,
        },
    ensures
        execution.after(signal).0 == execution,
        execution.after(signal).1.len() == 0,
{
}

/// What a signal says is all that it holds.
pub proof fn law_signals_are_seen_whole(signal: Signal)
    ensures
        match signal {
            Signal::Granted => signal@ is Granted,
            Signal::Closed => signal@ is Closed,
            Signal::Resolved(Some(detail)) => signal@ matches SignalView::Resolved(Some(told))
                && told == detail@,
            Signal::Resolved(None) => signal@ matches SignalView::Resolved(told) && told is None,
            Signal::Checked(Ok(_)) => signal@ matches SignalView::Checked(told) && told is None,
            Signal::Checked(Err(error)) => signal@ matches SignalView::Checked(Some(told)) && told
                == error@,
            Signal::Validated(Ok(_)) => signal@ matches SignalView::Validated(told) && told is None,
            Signal::Validated(Err(error)) => signal@ matches SignalView::Validated(Some(told))
                && told == error@,
            Signal::Completed(Ok(output)) => signal@ matches SignalView::Completed(Ok(told)) && told
                == output.content@,
            Signal::Completed(Err(error)) => signal@ matches SignalView::Completed(Err(told))
                && told == error@,
            Signal::Cancelled => signal@ is Cancelled,
            Signal::DeadlinePassed => signal@ is DeadlinePassed,
            Signal::Panicked(Some(message)) => signal@ matches SignalView::Panicked(Some(told))
                && told == message@,
            Signal::Panicked(None) => signal@ matches SignalView::Panicked(told) && told is None,
        },
{
}

/// What an effect says is all that it holds, and a list of effects says what each
/// of them says, in order.
pub proof fn law_effects_are_seen_whole(effects: Seq<Effect>, i: int)
    requires
        0 <= i < effects.len(),
    ensures
        effects_view(effects).len() == effects.len(),
        match effects[i] {
            Effect::CancelContext => effects_view(effects)[i] is CancelContext,
            Effect::Notify(event) => effects_view(effects)[i] matches EffectView::Notify(told)
                && told == event@,
            Effect::Validate => effects_view(effects)[i] is Validate,
            Effect::Invoke => effects_view(effects)[i] is Invoke,
            Effect::ReleasePermit => effects_view(effects)[i] is ReleasePermit,
            Effect::Finish(result) => effects_view(effects)[i] matches EffectView::Finish(told)
                && told == result@,
        },
{
}

/// A check that passed has no error, and one that failed has its own.
pub proof fn law_checks_are_seen_whole(outcome: Result<(), ExecutionError>)
    ensures
        outcome is Ok ==> outcome_error(outcome) is None,
        outcome matches Err(error) ==> outcome_error(outcome) == Some(error@),
{
}

} // verus!

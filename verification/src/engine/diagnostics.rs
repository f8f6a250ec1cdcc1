//! Sanitized records of failed executions.

use vstd::prelude::*;

use std::sync::Arc;

use crate::engine::config::ToolContext;
use crate::json::keys_of;
use crate::protocol::model::{ExecutionRequest, RequestView};
use crate::text::texts;

verus! {

/// What went wrong.
#[derive(Debug, Clone, Copy, PartialEq, Eq, Structural)]
pub enum FailureKind {
    Validation,
    Invocation,
    Panic,
    NotFound,
    TimedOut,
    Cancelled,
}

/// Sanitized execution failure information: of the arguments and the
/// environment only the keys.
#[derive(Debug, PartialEq, Eq)]
pub struct ExecutionFailure {
    pub execution_id: String,
    pub tool: String,
    pub kind: FailureKind,
    pub argument_keys: Vec<String>,
    pub error: String,
    pub cwd: String,
    pub env_keys: Vec<String>,
}

/// What an [`ExecutionFailure`] says.
pub struct FailureView {
    pub execution_id: Seq<char>,
    pub tool: Seq<char>,
    pub kind: FailureKind,
    pub argument_keys: Seq<Seq<char>>,
    pub error: Seq<char>,
    pub cwd: Seq<char>,
    pub env_keys: Seq<Seq<char>>,
}

impl View for ExecutionFailure {
    type V = FailureView;

    open spec fn view(&self) -> FailureView {
        FailureView {
            execution_id: self.execution_id@,
            tool: self.tool@,
            kind: self.kind,
            argument_keys: texts(self.argument_keys@),
            error: self.error@,
            cwd: self.cwd@,
            env_keys: texts(self.env_keys@),
        }
    }
}

/// Diagnostics should never affect execution flow.
pub trait DiagnosticsSink {
    fn record(&self, failure: ExecutionFailure);
}

/// A sink that the executor owns and hands records on to the one it holds.
pub struct GuardedSink<S> {
    inner: Arc<S>,
}

impl<S> GuardedSink<S> {
    pub closed spec fn inner(self) -> Arc<S> {
        self.inner
    }

    pub fn new(inner: Arc<S>) -> (sink: Arc<Self>)
        ensures
            sink.inner() == inner,
    {
        Arc::new(GuardedSink { inner })
    }
}

impl<S: DiagnosticsSink> DiagnosticsSink for GuardedSink<S> {
    fn record(&self, failure: ExecutionFailure)
        ensures
            call_ensures(S::record, (&*self.inner(), failure), ()),
    {
        self.inner.record(failure);
    }
}

/// The record of a failure.
pub open spec fn failure_record(
    request: RequestView,
    kind: FailureKind,
    error: Seq<char>,
    cwd: Seq<char>,
    env_keys: Seq<Seq<char>>,
) -> FailureView {
    FailureView {
        execution_id: request.id,
        tool: request.tool,
        kind,
        argument_keys: keys_of(request.arguments),
        error,
        cwd,
        env_keys,
    }
}

/// Whether `keys` lists the variables of an environment, each once.
pub open spec fn lists_keys(keys: Seq<Seq<char>>, env: Map<Seq<char>, String>) -> bool {
    &&& keys.no_duplicates()
    &&& forall|key: Seq<char>| keys.contains(key) <==> #[trigger] env.contains_key(key)
}

/// The record of a failed request.
pub fn failure_of<C, O>(
    context: &ToolContext<C, O>,
    request: &ExecutionRequest,
    kind: FailureKind,
    error: String,
) -> (failure: ExecutionFailure)
    ensures
        failure@ == failure_record(
            request@,
            kind,
            error@,
            context.cwd@,
            texts(failure.env_keys@),
        ),
        lists_keys(texts(failure.env_keys@), context.env@),
{
    ExecutionFailure {
        execution_id: request.id.clone(),
        tool: request.tool.clone(),
        kind,
        argument_keys: request.arguments.keys(),
        error,
        cwd: context.cwd.clone(),
        env_keys: context.env.keys(),
    }
}

/// Records a failure, if there is a sink.
pub fn record_failure<S: DiagnosticsSink, C, O>(
    sink: Option<&S>,
    context: &ToolContext<C, O>,
    request: &ExecutionRequest,
    kind: FailureKind,
    error: String,
)
    ensures
        sink matches Some(sink) ==> exists|failure: ExecutionFailure| #[trigger]
            call_ensures(S::record, (sink, failure), ()) && failure@ == failure_record(
                request@,
                kind,
                error@,
                context.cwd@,
                texts(failure.env_keys@),
            ) && lists_keys(texts(failure.env_keys@), context.env@),
{
    if let Some(sink) = sink {
        let failure = failure_of(context, request, kind, error);
        sink.record(failure);
    }
}

/// A record tells the keys of the arguments and nothing of their values: two
/// requests that differ only in those have the same record.
pub proof fn law_records_hold_no_argument_values(
    a: RequestView,
    b: RequestView,
    kind: FailureKind,
    error: Seq<char>,
    cwd: Seq<char>,
    env_keys: Seq<Seq<char>>,
)
    requires
        a.id == b.id,
        a.tool == b.tool,
        keys_of(a.arguments) == keys_of(b.arguments),
    ensures
        failure_record(a, kind, error, cwd, env_keys) == failure_record(
            b,
            kind,
            error,
            cwd,
            env_keys,
        ),
{
}

/// A record tells which request failed, how, why and where, with the keys of its
/// arguments and of its environment.
pub proof fn law_records_tell_what_failed(
    request: RequestView,
    kind: FailureKind,
    error: Seq<char>,
    cwd: Seq<char>,
    env_keys: Seq<Seq<char>>,
)
    ensures
        ({
            let record = failure_record(request, kind, error, cwd, env_keys);
            &&& record.execution_id == request.id
            &&& record.tool == request.tool
            &&& record.kind == kind
            &&& record.error == error
            &&& record.cwd == cwd
            &&& record.env_keys == env_keys
            &&& record.argument_keys == keys_of(request.arguments)
        }),
{
}

/// What a record says is all that it holds, and a list of variables names each
/// variable of the environment once and nothing else.
pub proof fn law_failure_records_are_seen_whole(
    failure: ExecutionFailure,
    keys: Seq<Seq<char>>,
    env: Map<Seq<char>, String>,
    key: Seq<char>,
)
    ensures
        failure@.execution_id == failure.execution_id@,
        failure@.tool == failure.tool@,
        failure@.kind == failure.kind,
        failure@.argument_keys == texts(failure.argument_keys@),
        failure@.error == failure.error@,
        failure@.cwd == failure.cwd@,
        failure@.env_keys == texts(failure.env_keys@),
        lists_keys(keys, env) ==> (keys.contains(key) <==> env.contains_key(key)),
{
}

} // verus!

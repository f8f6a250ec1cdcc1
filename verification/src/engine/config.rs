//! Executor defaults, per-submission controls, and the context of a tool.

use vstd::prelude::*;

use std::sync::Arc;

use crate::engine::observer::{
    data_view, EventView, ExecutionEvent, ExecutionObserver, ProgressReporter,
};
use crate::json::Json;
use crate::protocol::model::ExecutionRequest;
use crate::text_map::TextMap;

verus! {

/// Process-wide defaults shared by all executions. Times are in nanoseconds.
pub struct ExecutorConfig {
    pub cwd: String,
    pub env: Arc<TextMap<String>>,
    pub tool_timeout: Option<u128>,
    pub concurrency_limit: usize,
}

impl ExecutorConfig {
    /// The defaults, in the current directory or, where that is not known, in
    /// `.`: no environment, no timeout, one tool at a time.
    pub fn defaults(current_dir: Option<String>) -> (config: Self)
        ensures
            config.cwd@ == match current_dir {
                Some(dir) => dir@,
                None => "."@,
            },
            config.env@ == Map::<Seq<char>, String>::empty(),
            config.tool_timeout is None,
            config.concurrency_limit == 1,
    {
        let cwd = match current_dir {
            Some(dir) => dir,
            None => ".".to_owned(),
        };
        ExecutorConfig {
            cwd,
            env: Arc::new(TextMap::new()),
            tool_timeout: None,
            concurrency_limit: 1,
        }
    }
}

/// Per-submission controls. Requests passed to the executor are already
/// authorized. `C` is a handle by which an execution is cancelled.
#[derive(Clone)]
pub struct SubmissionControls<C> {
    deadline: Option<u128>,
    cancellation: C,
}

impl<C> SubmissionControls<C> {
    /// The deadline, as a point in time.
    pub closed spec fn deadline_view(self) -> Option<u128> {
        self.deadline
    }

    /// The handle by which the submission is cancelled.
    pub closed spec fn cancellation_view(self) -> C {
        self.cancellation
    }

    /// No deadline, and `cancellation` as the handle.
    pub fn new(cancellation: C) -> (controls: Self)
        ensures
            controls.deadline_view() is None,
            controls.cancellation_view() == cancellation,
    {
        SubmissionControls { deadline: None, cancellation }
    }

    /// The same controls with a deadline `timeout` after `now`.
    pub fn with_timeout(self, now: u128, timeout: u128) -> (controls: Self)
        requires
            now + timeout <= u128::MAX,
        ensures
            controls.deadline_view() == Some((now + timeout) as u128),
            controls.cancellation_view() == self.cancellation_view(),
    {
        SubmissionControls { deadline: Some(now + timeout), cancellation: self.cancellation }
    }

    /// The same controls with another handle.
    pub fn with_cancellation(self, cancellation: C) -> (controls: Self)
        ensures
            controls.deadline_view() == self.deadline_view(),
            controls.cancellation_view() == cancellation,
    {
        SubmissionControls { deadline: self.deadline, cancellation }
    }

    pub fn deadline(&self) -> (deadline: Option<u128>)
        ensures
            deadline == self.deadline_view(),
    {
        self.deadline
    }

    pub fn cancellation(&self) -> (cancellation: &C)
        ensures
            *cancellation == self.cancellation_view(),
    {
        &self.cancellation
    }
}

/// Immutable execution capabilities and environment passed to a tool.
#[derive(Clone)]
pub struct ToolContext<C, O> {
    pub execution_id: String,
    pub cwd: String,
    pub env: Arc<TextMap<String>>,
    pub deadline: Option<u128>,
    pub cancellation: C,
    pub progress: ProgressReporter<O>,
}

impl<C, O> ToolContext<C, O> {
    /// Tells the observer of progress, if there is one.
    pub fn emit_progress(&self, message: String, data: Option<Json>) where O: ExecutionObserver
        ensures
            self.progress.observer() matches Some(observer) ==> exists|event: ExecutionEvent|
                #[trigger] call_ensures(O::on_event, (&observer, event), ()) && event@ == (
                EventView::Progress {
                    execution_id: self.progress.execution_id(),
                    tool: self.progress.tool(),
                    message: message@,
                    data: data_view(data),
                }),
    {
        self.progress.emit(message, data);
    }
}

/// The context of a queued request. `cancellation` is a handle that the
/// submission's own handle cancels too; the deadline comes with the permit.
pub fn tool_context<C, O>(
    request: &ExecutionRequest,
    cwd: &str,
    env: Arc<TextMap<String>>,
    cancellation: C,
    observer: Option<O>,
) -> (context: ToolContext<C, O>)
    ensures
        context.execution_id@ == request@.id,
        context.cwd@ == cwd@,
        context.env == env,
        context.deadline is None,
        context.cancellation == cancellation,
        context.progress.observer() == observer,
        context.progress.execution_id() == request@.id,
        context.progress.tool() == request@.tool,
{
    ToolContext {
        execution_id: request.id.clone(),
        cwd: cwd.to_owned(),
        env,
        deadline: None,
        cancellation,
        progress: ProgressReporter::new(observer, request.id.clone(), request.tool.clone()),
    }
}

} // verus!

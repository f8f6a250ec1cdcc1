//! Observation of execution lifecycles.

use vstd::prelude::*;

use crate::engine::error::{ErrorView, ExecutionError};
use crate::json::{Json, JsonView};
use crate::text::texts;

verus! {

/// A best-effort execution lifecycle observation. Of the arguments and the
/// environment only the keys are told.
#[derive(Debug, PartialEq, Eq)]
pub enum ExecutionEvent {
    Started { execution_id: String, tool: String, detail: String },
    Progress { execution_id: String, tool: String, message: String, data: Option<Json> },
    Failed {
        execution_id: String,
        tool: String,
        error: ExecutionError,
        argument_keys: Vec<String>,
        cwd: String,
        env_keys: Vec<String>,
    },
}

/// What an [`ExecutionEvent`] says.
pub enum EventView {
    Started { execution_id: Seq<char>, tool: Seq<char>, detail: Seq<char> },
    Progress {
        execution_id: Seq<char>,
        tool: Seq<char>,
        message: Seq<char>,
        data: Option<JsonView>,
    },
    Failed {
        execution_id: Seq<char>,
        tool: Seq<char>,
        error: ErrorView,
        argument_keys: Seq<Seq<char>>,
        cwd: Seq<char>,
        env_keys: Seq<Seq<char>>,
    },
}

/// The value behind optional data.
pub open spec fn data_view(data: Option<Json>) -> Option<JsonView> {
    match data {
        Some(json) => Some(json@),
        None => None,
    }
}

impl View for ExecutionEvent {
    type V = EventView;

    open spec fn view(&self) -> EventView {
        match self {
            ExecutionEvent::Started { execution_id, tool, detail } => EventView::Started {
                execution_id: execution_id@,
                tool: tool@,
                detail: detail@,
            },
            ExecutionEvent::Progress { execution_id, tool, message, data } => EventView::Progress {
                execution_id: execution_id@,
                tool: tool@,
                message: message@,
                data: data_view(*data),
            },
            ExecutionEvent::Failed {
                execution_id,
                tool,
                error,
                argument_keys,
                cwd,
                env_keys,
            } => EventView::Failed {
                execution_id: execution_id@,
                tool: tool@,
                error: error@,
                argument_keys: texts(argument_keys@),
                cwd: cwd@,
                env_keys: texts(env_keys@),
            },
        }
    }
}

impl EventView {
    /// The execution an event belongs to.
    pub open spec fn execution_id(self) -> Seq<char> {
        match self {
            EventView::Started { execution_id, .. } => execution_id,
            EventView::Progress { execution_id, .. } => execution_id,
            EventView::Failed { execution_id, .. } => execution_id,
        }
    }

    /// The tool an event belongs to.
    pub open spec fn tool(self) -> Seq<char> {
        match self {
            EventView::Started { tool, .. } => tool,
            EventView::Progress { tool, .. } => tool,
            EventView::Failed { tool, .. } => tool,
        }
    }
}

/// Non-blocking observation hook.
///
/// Implementations should enqueue or record the event quickly. Slow work must
/// be moved to infrastructure owned by the observer.
pub trait ExecutionObserver {
    fn on_event(&self, event: ExecutionEvent);
}

/// Hands the event to the observer, if there is one.
pub fn notify<O: ExecutionObserver>(observer: Option<&O>, event: ExecutionEvent)
    ensures
        observer matches Some(observer) ==> call_ensures(O::on_event, (observer, event), ()),
{
    if let Some(observer) = observer {
        observer.on_event(event);
    }
}

/// Progress capability supplied to a running tool.
#[derive(Clone)]
pub struct ProgressReporter<O> {
    observer: Option<O>,
    execution_id: String,
    tool: String,
}

impl<O> ProgressReporter<O> {
    pub closed spec fn observer(self) -> Option<O> {
        self.observer
    }

    pub closed spec fn execution_id(self) -> Seq<char> {
        self.execution_id@
    }

    pub closed spec fn tool(self) -> Seq<char> {
        self.tool@
    }

    pub fn new(observer: Option<O>, execution_id: String, tool: String) -> (reporter: Self)
        ensures
            reporter.observer() == observer,
            reporter.execution_id() == execution_id@,
            reporter.tool() == tool@,
    {
        ProgressReporter { observer, execution_id, tool }
    }

    /// The event that tells of progress.
    pub fn event(&self, message: String, data: Option<Json>) -> (event: ExecutionEvent)
        ensures
            event@ == (EventView::Progress {
                execution_id: self.execution_id(),
                tool: self.tool(),
                message: message@,
                data: data_view(data),
            }),
    {
        ExecutionEvent::Progress {
            execution_id: self.execution_id.clone(),
            tool: self.tool.clone(),
            message,
            data,
        }
    }

    /// Tells the observer of progress, if there is one.
    pub fn emit(&self, message: String, data: Option<Json>) where O: ExecutionObserver
        ensures
            self.observer() matches Some(observer) ==> exists|event: ExecutionEvent| #[trigger]
                call_ensures(O::on_event, (&observer, event), ()) && event@ == (
                EventView::Progress {
                    execution_id: self.execution_id(),
                    tool: self.tool(),
                    message: message@,
                    data: data_view(data),
                }),
    {
        let event = self.event(message, data);
        notify(self.observer.as_ref(), event);
    }
}

/// What an event says is all that it holds.
pub proof fn law_events_are_seen_whole(event: ExecutionEvent)
    ensures
        match event {
            ExecutionEvent::Started { execution_id, tool, detail } => event@
                matches EventView::Started { execution_id: i, tool: t, detail: d } && i
                == execution_id@ && t == tool@ && d == detail@,
            ExecutionEvent::Progress { execution_id, tool, message, data } => event@
                matches EventView::Progress { execution_id: i, tool: t, message: m, data: d } && i
                == execution_id@ && t == tool@ && m == message@ && match (d, data) {
                (Some(seen), Some(held)) => seen == held@,
                (None, None) => true,
                _ => false,
            },
            ExecutionEvent::Failed {
                execution_id,
                tool,
                error,
                argument_keys,
                cwd,
                env_keys,
            } => event@ matches EventView::Failed {
                execution_id: i,
                tool: t,
                error: e,
                argument_keys: a,
                cwd: c,
                env_keys: k,
            } && i == execution_id@ && t == tool@ && e == error@ && a == texts(argument_keys@) && c
                == cwd@ && k == texts(env_keys@),
        },
{
}

/// Every event tells which execution and which tool it belongs to.
pub proof fn law_events_name_their_execution(event: EventView)
    ensures
        match event {
            EventView::Started { execution_id, tool, .. } => event.execution_id() == execution_id
                && event.tool() == tool,
            EventView::Progress { execution_id, tool, .. } => event.execution_id() == execution_id
                && event.tool() == tool,
            EventView::Failed { execution_id, tool, .. } => event.execution_id() == execution_id
                && event.tool() == tool,
        },
{
}

} // verus!

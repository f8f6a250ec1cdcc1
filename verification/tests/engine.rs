//! The registry, the execution state machine, scheduling and diagnostics.

use ate::engine::config::{tool_context, ExecutorConfig, SubmissionControls};
use ate::engine::diagnostics::{
    failure_of, record_failure, DiagnosticsSink, ExecutionFailure, FailureKind, GuardedSink,
};
use ate::engine::error::{blocking_outcome, tool_failure, ExecutionError};
use ate::engine::execution::{error_result, Effect, Execution, Signal, Stage};
use ate::engine::observer::{notify, ExecutionEvent, ExecutionObserver, ProgressReporter};
use ate::engine::registry::{validation_outcome, ToolRegistry};
use ate::engine::scheduler::{
    check_signal, concurrent_by, effective_deadline, in_input_order, is_concurrent, permits_for,
    permits_taken, resolve_signal,
};
use ate::engine::tool::{text_argument, Tool, ToolDefinition, ToolOutput};
use ate::json::{Json, JsonNumber};
use ate::protocol::model::{ExecutionRequest, ExecutionResult};
use ate::text_map::TextMap;
use std::sync::{Arc, Mutex};

const SECOND: u128 = 1_000_000_000;

fn object(members: Vec<(&str, Json)>) -> Json {
    Json::object(
        members
            .into_iter()
            .map(|(key, value)| (key.to_string(), value))
            .collect(),
    )
}

fn request(id: &str, tool: &str) -> ExecutionRequest {
    ExecutionRequest {
        id: id.to_string(),
        tool: tool.to_string(),
        arguments: object(vec![]),
    }
}

struct StrictTool;

impl Tool for StrictTool {
    fn definition(&self) -> ToolDefinition {
        ToolDefinition {
            name: "strict".to_string(),
            description: "requires a numeric `amount` and rejects extras".to_string(),
            input_schema: object(vec![
                ("type", Json::text("object")),
                (
                    "properties",
                    object(vec![(
                        "amount",
                        object(vec![
                            ("type", Json::text("number")),
                            ("minimum", Json::unsigned(0)),
                        ]),
                    )]),
                ),
                ("required", Json::array(vec![Json::text("amount")])),
                ("additionalProperties", Json::Bool(false)),
            ]),
        }
    }
}

struct NamedTool {
    name: &'static str,
    description: &'static str,
    safe: bool,
    schema: Json,
}

impl NamedTool {
    fn new(name: &'static str, safe: bool) -> Self {
        NamedTool {
            name,
            description: "a probe",
            safe,
            schema: object(vec![]),
        }
    }
}

impl Tool for NamedTool {
    fn definition(&self) -> ToolDefinition {
        ToolDefinition {
            name: self.name.to_string(),
            description: self.description.to_string(),
            input_schema: self.schema.clone(),
        }
    }

    fn is_concurrency_safe(&self, _arguments: &Json) -> bool {
        self.safe
    }

    fn invocation_detail(&self, arguments: &Json) -> String {
        text_argument(arguments, "path")
    }
}

#[derive(Default)]
struct MemoryObserver(Mutex<Vec<ExecutionEvent>>);

impl ExecutionObserver for &MemoryObserver {
    fn on_event(&self, event: ExecutionEvent) {
        self.0.lock().unwrap().push(event);
    }
}

#[derive(Default)]
struct MemoryDiagnostics(Mutex<Vec<ExecutionFailure>>);

impl DiagnosticsSink for MemoryDiagnostics {
    fn record(&self, failure: ExecutionFailure) {
        self.0.lock().unwrap().push(failure);
    }
}

/// Runs a request up to the point where the tool is invoked or its result is
/// known, and tells the observer.
fn run_to_invocation<T: Tool>(
    tools: &ToolRegistry<T>,
    request: ExecutionRequest,
    observer: &MemoryObserver,
) -> (Execution, Vec<ExecutionResult>, bool) {
    let mut execution = Execution::new(request.clone(), "/work".to_string(), vec![]);
    let mut results = vec![];
    let mut invoked = false;
    let mut signals = vec![Signal::Granted, resolve_signal(&request, tools)];
    if let Ok(tool) = tools.resolve(&request.tool) {
        signals.push(check_signal(&request.arguments, tool));
        signals.push(Signal::Validated(Ok(())));
    }
    for signal in signals {
        for effect in execution.advance(signal) {
            match effect {
                Effect::Notify(event) => notify(Some(&observer), event),
                Effect::Finish(result) => results.push(result),
                Effect::Invoke => invoked = true,
                _ => {}
            }
        }
    }
    (execution, results, invoked)
}

fn completed_signal() -> Signal {
    Signal::Completed(Ok(ToolOutput::text("done".to_string())))
}

/// Runs submissions side by side on one semaphore, the last that was started
/// completing first. Gives the results of each, and how many ran at once.
fn run_all(
    tools: &ToolRegistry<NamedTool>,
    limit: usize,
    submissions: Vec<Vec<ExecutionRequest>>,
    outcome: impl Fn(&str) -> Signal,
) -> (Vec<Vec<ExecutionResult>>, usize) {
    let count = permits_for(limit);
    let semaphore = tokio::sync::Semaphore::new(count as usize);
    let mut completed: Vec<Vec<(usize, ExecutionResult)>> = vec![];
    let mut waiting = std::collections::VecDeque::new();
    for (submission, requests) in submissions.into_iter().enumerate() {
        completed.push(vec![]);
        for (index, request) in requests.into_iter().enumerate() {
            let taken = permits_taken(!is_concurrent(&request, tools), count);
            let execution = Execution::new(request, "/work".to_string(), vec![]);
            waiting.push_back((submission, index, taken, execution));
        }
    }
    let mut running = vec![];
    let mut most = 0;
    loop {
        while let Some((submission, index, taken, mut execution)) = waiting.pop_front() {
            let Ok(permit) = semaphore.try_acquire_many(taken) else {
                waiting.push_front((submission, index, taken, execution));
                break;
            };
            let resolved = resolve_signal(execution.request(), tools);
            assert!(execution.advance(Signal::Granted).is_empty());
            let effects = execution.advance(resolved);
            if let Some(Effect::Finish(result)) = effects.into_iter().last() {
                completed[submission].push((index, result));
                continue;
            }
            execution.advance(Signal::Checked(Ok(())));
            assert_eq!(
                execution.advance(Signal::Validated(Ok(()))),
                [Effect::Invoke]
            );
            running.push((submission, index, execution, permit));
            most = most.max(running.len());
        }
        let Some((submission, index, mut execution, permit)) = running.pop() else {
            break;
        };
        let signal = outcome(&execution.request().id);
        let mut effects = execution.advance(signal);
        let Some(Effect::Finish(result)) = effects.pop() else {
            panic!("the execution has no result");
        };
        assert_eq!(effects.pop(), Some(Effect::ReleasePermit));
        drop(permit);
        completed[submission].push((index, result));
    }
    (completed.iter().map(in_input_order).collect(), most)
}

fn kind_of(result: &ExecutionResult) -> &str {
    result.content.get("error").unwrap().get_str("kind").unwrap()
}

#[test]
fn effective_deadline_preserves_an_explicit_deadline_without_a_tool_timeout() {
    let now: u128 = 5_000;
    let request_deadline = now + SECOND;

    assert_eq!(
        effective_deadline(Some(request_deadline), None, now),
        Some(request_deadline)
    );
}

#[test]
fn effective_deadline_uses_the_earlier_request_deadline() {
    let now: u128 = 5_000;
    let request_deadline = now + 10 * 1_000_000;

    assert_eq!(
        effective_deadline(Some(request_deadline), Some(SECOND), now),
        Some(request_deadline)
    );
}

#[test]
fn effective_deadline_is_absent_without_any_limit() {
    assert_eq!(effective_deadline(None, None, 7), None);
}

#[test]
fn effective_deadline_uses_the_earlier_tool_timeout() {
    assert_eq!(effective_deadline(Some(900), Some(100), 50), Some(150));
    assert_eq!(effective_deadline(None, Some(100), 50), Some(150));
    assert_eq!(effective_deadline(Some(150), Some(100), 50), Some(150));
}

#[test]
fn arguments_matching_the_schema_pass() {
    let mut tools = ToolRegistry::new();
    tools.register(StrictTool);
    let observer = MemoryObserver::default();
    let mut call = request("v1", "strict");
    call.arguments = object(vec![("amount", Json::unsigned(10))]);

    let (mut execution, results, invoked) = run_to_invocation(&tools, call.clone(), &observer);
    assert!(results.is_empty());
    assert!(invoked);
    let effects = execution.advance(Signal::Completed(Ok(ToolOutput::json(call.arguments))));
    assert_eq!(effects[0], Effect::ReleasePermit);
    let Effect::Finish(result) = &effects[1] else {
        panic!("no result: {effects:?}");
    };
    assert!(!result.is_error);
    assert_eq!(
        result.content,
        object(vec![("amount", Json::unsigned(10))])
    );
}

#[test]
fn arguments_violating_the_schema_fail_without_invoking_the_tool() {
    let mut tools = ToolRegistry::new();
    tools.register(StrictTool);
    let observer = MemoryObserver::default();

    for arguments in [
        object(vec![("amount", Json::Number(JsonNumber::Negative(-1)))]),
        object(vec![]),
        object(vec![("amount", Json::text("ten"))]),
    ] {
        let mut call = request("bad", "strict");
        call.arguments = arguments;
        let (_, results, invoked) = run_to_invocation(&tools, call, &observer);
        assert!(!invoked);
        assert_eq!(results.len(), 1);
        assert!(results[0].is_error);
        assert_eq!(kind_of(&results[0]), "validation_error");
    }
}

#[test]
fn a_schema_violation_is_reported_in_the_words_of_the_validator() {
    let mut tools = ToolRegistry::new();
    tools.register(StrictTool);
    let outcome = tools
        .resolve("strict")
        .unwrap()
        .validate_arguments(&object(vec![("amount", Json::text("ten"))]));
    assert_eq!(
        outcome,
        Err(ExecutionError::ToolValidation {
            tool: "strict".to_string(),
            message: "\"ten\" is not of type \"number\"".to_string(),
        })
    );
    assert_eq!(
        validation_outcome("strict", Some("no".to_string())),
        Err(ExecutionError::ToolValidation {
            tool: "strict".to_string(),
            message: "no".to_string(),
        })
    );
    assert_eq!(validation_outcome("strict", None), Ok(()));
}

#[test]
fn a_schema_that_does_not_compile_checks_nothing() {
    let mut tools = ToolRegistry::new();
    let mut tool = NamedTool::new("loose", true);
    tool.schema = object(vec![("type", Json::unsigned(12))]);
    tools.register(tool);
    let registered = tools.resolve("loose").unwrap();
    assert_eq!(registered.validate_arguments(&Json::Null), Ok(()));
    assert_eq!(registered.validate_arguments(&Json::text("anything")), Ok(()));
}

#[test]
fn a_registered_tool_is_found_and_a_later_one_takes_its_name() {
    let mut tools = ToolRegistry::new();
    tools.register(NamedTool::new("b", true));
    tools.register(NamedTool::new("a", true));
    let mut again = NamedTool::new("b", false);
    again.description = "a newer probe";
    tools.register(again);

    assert!(!tools.get("b").unwrap().safe);
    assert_eq!(tools.definition("b").unwrap().description, "a newer probe");
    assert_eq!(
        tools.get("c").err(),
        Some(ExecutionError::ToolNotFound("c".to_string()))
    );
    let names: Vec<String> = tools.list().into_iter().map(|tool| tool.name).collect();
    assert_eq!(names, ["a", "b"]);
}

#[test]
fn listings_do_not_depend_on_the_order_of_registration() {
    let mut left = ToolRegistry::new();
    let mut right = ToolRegistry::new();
    for name in ["x", "m", "a"] {
        left.register(NamedTool::new(name, true));
    }
    for name in ["a", "x", "m"] {
        right.register(NamedTool::new(name, true));
    }
    assert_eq!(left.list(), right.list());
}

#[test]
fn a_definition_may_be_given_with_a_tool() {
    let mut tools: ToolRegistry<u8> = ToolRegistry::new();
    tools.register_defined(
        7,
        ToolDefinition {
            name: "seven".to_string(),
            description: "d".to_string(),
            input_schema: object(vec![]),
        },
    );
    assert_eq!(tools.get("seven"), Ok(&7));
    assert_eq!(tools.list()[0].description, "d");
}

#[test]
fn observability_progress_uses_the_optional_observer() {
    let observer = MemoryObserver::default();
    let context = tool_context(
        &request("c1", "progress"),
        "/work",
        Arc::new(TextMap::new()),
        (),
        Some(&observer),
    );
    context.emit_progress("halfway".to_string(), None);

    let events = observer.0.lock().unwrap();
    assert!(events.iter().any(|event| matches!(
        event,
        ExecutionEvent::Progress { tool, message, .. }
            if tool == "progress" && message == "halfway"
    )));
    assert_eq!(events.len(), 1);
    let silent: ProgressReporter<&MemoryObserver> =
        ProgressReporter::new(None, "c1".to_string(), "progress".to_string());
    silent.emit("unheard".to_string(), Some(Json::Null));
}

#[test]
fn failures_are_recorded_without_argument_values() {
    let mut tools = ToolRegistry::new();
    tools.register(NamedTool::new("fail", true));
    let observer = MemoryObserver::default();
    let mut failing = request("failure", "fail");
    failing.arguments = object(vec![("secret", Json::text("do-not-record"))]);

    let (mut execution, _, invoked) = run_to_invocation(&tools, failing, &observer);
    assert!(invoked);
    let effects = execution.advance(Signal::Completed(Err(tool_failure("fail", "broken"))));
    for effect in effects {
        if let Effect::Notify(event) = effect {
            notify(Some(&&observer), event);
        }
    }
    let events = observer.0.lock().unwrap();
    let failures: Vec<&ExecutionEvent> = events
        .iter()
        .filter(|event| matches!(event, ExecutionEvent::Failed { .. }))
        .collect();
    assert_eq!(failures.len(), 1);
    let ExecutionEvent::Failed {
        argument_keys,
        error,
        ..
    } = failures[0]
    else {
        unreachable!();
    };
    assert_eq!(argument_keys, &["secret"]);
    assert_eq!(error.code(), "execution_error");
    assert!(!format!("{:?}", failures[0]).contains("do-not-record"));
}

#[test]
fn diagnostics_are_redacted() {
    let diagnostics = Arc::new(MemoryDiagnostics::default());
    let mut failing = request("failure", "fail");
    failing.arguments = object(vec![("secret", Json::text("do-not-record"))]);
    let mut env = TextMap::new();
    env.insert("TOKEN".to_string(), "do-not-record".to_string());
    let context = tool_context(
        &failing,
        "/work",
        Arc::new(env),
        (),
        None::<&MemoryObserver>,
    );
    let sink = GuardedSink::new(diagnostics.clone());
    record_failure(
        Some(&*sink),
        &context,
        &failing,
        FailureKind::Invocation,
        "broken".to_string(),
    );
    record_failure(
        None::<&MemoryDiagnostics>,
        &context,
        &failing,
        FailureKind::Panic,
        "unheard".to_string(),
    );

    let records = diagnostics.0.lock().unwrap();
    assert_eq!(records.len(), 1);
    assert_eq!(records[0].kind, FailureKind::Invocation);
    assert_eq!(records[0].argument_keys, vec!["secret"]);
    assert_eq!(records[0].env_keys, vec!["TOKEN"]);
    assert_eq!(records[0].error, "broken");
    assert!(!format!("{:?}", records[0]).contains("do-not-record"));
    let failure = failure_of(&context, &failing, FailureKind::Invocation, "broken".to_string());
    assert_eq!(failure, records[0]);
}

#[test]
fn failures_of_blocking_work_are_mapped() {
    let worked: Result<u8, ExecutionError> = blocking_outcome(Ok(Ok(3)));
    assert_eq!(worked, Ok(3));
    let failed: Result<u8, ExecutionError> =
        blocking_outcome(Ok(Err(tool_failure("blocking-error", "blocking operation failed"))));
    assert!(failed.unwrap_err().describe().contains("blocking operation failed"));
    let panicked: Result<u8, ExecutionError> = blocking_outcome(Err("task 4 panicked".to_string()));
    assert_eq!(
        panicked.unwrap_err().describe(),
        "blocking worker failed: task 4 panicked"
    );
}

#[test]
fn queued_requests_honor_cancellation_and_deadline() {
    for (signal, kind, message) in [
        (Signal::Cancelled, "cancelled", "execution cancelled while queued"),
        (
            Signal::DeadlinePassed,
            "timed_out",
            "execution deadline exceeded while queued",
        ),
        (Signal::Closed, "execution_error", "executor closed"),
    ] {
        let mut execution = Execution::new(request("q", "count"), "/".to_string(), vec![]);
        let effects = execution.advance(signal);
        assert_eq!(execution.stage(), Stage::Finished);
        assert_eq!(effects.len(), 3);
        assert_eq!(effects[0], Effect::CancelContext);
        assert!(matches!(effects[1], Effect::Notify(ExecutionEvent::Failed { .. })));
        let Effect::Finish(result) = &effects[2] else {
            panic!("no result");
        };
        assert_eq!(kind_of(result), kind);
        assert_eq!(
            result.content.get("error").unwrap().get_str("message"),
            Some(message)
        );
    }
}

#[test]
fn timeout_and_cancellation_are_terminal_results() {
    let mut tools = ToolRegistry::new();
    tools.register(NamedTool::new("probe", true));
    for (signal, kind) in [
        (Signal::DeadlinePassed, "timed_out"),
        (Signal::Cancelled, "cancelled"),
    ] {
        let observer = MemoryObserver::default();
        let (mut execution, _, _) = run_to_invocation(&tools, request("t", "probe"), &observer);
        assert_eq!(execution.stage(), Stage::Invoking);
        let effects = execution.advance(signal);
        assert_eq!(effects[0], Effect::CancelContext);
        assert_eq!(effects[2], Effect::ReleasePermit);
        let Effect::Finish(result) = &effects[3] else {
            panic!("no result");
        };
        assert!(result.is_error);
        assert_eq!(kind_of(result), kind);
        assert!(execution
            .advance(Signal::Completed(Ok(ToolOutput::text("late".to_string()))))
            .is_empty());
    }
}

#[test]
fn a_panic_becomes_a_result() {
    let mut tools = ToolRegistry::new();
    tools.register(NamedTool::new("panic", true));
    let observer = MemoryObserver::default();
    let (mut execution, _, _) = run_to_invocation(&tools, request("single", "panic"), &observer);
    let effects = execution.advance(Signal::Panicked(Some("boom".to_string())));
    let Some(Effect::Finish(result)) = effects.last() else {
        panic!("no result");
    };
    assert_eq!(kind_of(result), "execution_panic");
    assert_eq!(
        result.content.get("error").unwrap().get_str("message"),
        Some("tool panicked: boom")
    );
}

#[test]
fn an_unknown_tool_is_reported() {
    let tools: ToolRegistry<StrictTool> = ToolRegistry::new();
    let observer = MemoryObserver::default();
    let (execution, results, invoked) = run_to_invocation(&tools, request("n", "none"), &observer);
    assert!(!invoked);
    assert_eq!(execution.request().id, "n");
    assert_eq!(kind_of(&results[0]), "tool_not_found");
    assert_eq!(
        results[0],
        error_result(&request("n", "none"), "tool_not_found", "tool `none` not found")
    );
}

#[test]
fn the_start_carries_the_detail_of_the_tool() {
    let mut tools = ToolRegistry::new();
    tools.register(NamedTool::new("probe", true));
    let observer = MemoryObserver::default();
    let mut call = request("d", "probe");
    call.arguments = object(vec![("path", Json::text("src/lib.rs"))]);
    run_to_invocation(&tools, call, &observer);
    assert_eq!(
        observer.0.lock().unwrap()[0],
        ExecutionEvent::Started {
            execution_id: "d".to_string(),
            tool: "probe".to_string(),
            detail: "src/lib.rs".to_string(),
        }
    );
}

#[test]
fn permits_and_result_order() {
    assert_eq!(permits_for(4), 4);
    assert_eq!(permits_for(0), 1);
    assert_eq!(permits_for(usize::MAX), u32::MAX);
    assert_eq!(permits_taken(false, 4), 1);
    assert_eq!(permits_taken(true, 4), 4);

    let result = |id: &str| ExecutionResult {
        execution_id: id.to_string(),
        tool: "probe".to_string(),
        content: Json::Null,
        is_error: false,
    };
    let completed = vec![(2, result("c")), (0, result("a")), (1, result("b"))];
    let ids: Vec<String> = in_input_order(&completed)
        .into_iter()
        .map(|result| result.execution_id)
        .collect();
    assert_eq!(ids, ["a", "b", "c"]);
}

#[test]
fn unsafe_tool_is_exclusive_across_submissions() {
    let mut tools = ToolRegistry::new();
    tools.register(NamedTool::new("parallel", true));
    tools.register(NamedTool::new("exclusive", false));
    assert!(is_concurrent(&request("p", "parallel"), &tools));
    assert!(!is_concurrent(&request("e", "exclusive"), &tools));
    assert!(is_concurrent(&request("u", "unknown"), &tools));
    assert!(!concurrent_by(true, None));
    assert!(concurrent_by(true, Some(true)));
    assert!(concurrent_by(false, None));

    let submissions = vec![
        vec![request("parallel", "parallel")],
        vec![request("exclusive", "exclusive")],
    ];
    let (results, most) = run_all(&tools, 3, submissions, |_| completed_signal());
    assert!(!results[0][0].is_error);
    assert!(!results[1][0].is_error);
    assert_eq!(most, 1);
}

#[test]
fn concurrent_tools_respect_the_limit_and_result_order() {
    let mut tools = ToolRegistry::new();
    tools.register(NamedTool::new("probe", true));
    let requests = (0..7)
        .map(|index| request(&format!("call-{index}"), "probe"))
        .collect();
    let (results, most) = run_all(&tools, 3, vec![requests], |_| completed_signal());
    assert_eq!(results[0].len(), 7);
    assert_eq!(most, 3);
    for (index, result) in results[0].iter().enumerate() {
        assert_eq!(result.execution_id, format!("call-{index}"));
        assert!(!result.is_error);
    }
}

#[test]
fn concurrent_submissions_share_the_executor_limit() {
    let mut tools = ToolRegistry::new();
    tools.register(NamedTool::new("probe", true));
    let side = |name: &str| {
        (0..4)
            .map(|index| request(&format!("{name}-{index}"), "probe"))
            .collect::<Vec<_>>()
    };
    let submissions = vec![side("left"), side("right")];
    let (results, most) = run_all(&tools, 2, submissions, |_| completed_signal());
    assert_eq!(results[0].len() + results[1].len(), 8);
    assert_eq!(most, 2);
    assert_eq!(results[1][3].execution_id, "right-3");
}

#[test]
fn a_failure_is_that_of_one_request() {
    let mut tools = ToolRegistry::new();
    tools.register(NamedTool::new("probe", true));
    let requests = vec![
        request("a", "probe"),
        request("b", "probe"),
        request("c", "gone"),
        request("d", "probe"),
    ];
    let (results, _) = run_all(&tools, 0, vec![requests], |id| match id {
        "b" => Signal::Panicked(None),
        _ => completed_signal(),
    });
    let told: Vec<(&str, &str, bool)> = results[0]
        .iter()
        .map(|result| (result.execution_id.as_str(), result.tool.as_str(), result.is_error))
        .collect();
    assert_eq!(
        told,
        [
            ("a", "probe", false),
            ("b", "probe", true),
            ("c", "gone", true),
            ("d", "probe", false),
        ]
    );
    assert_eq!(kind_of(&results[0][1]), "execution_panic");
    assert_eq!(kind_of(&results[0][2]), "tool_not_found");
}

#[test]
fn tools_that_say_nothing_are_exclusive_and_undetailed() {
    assert!(!StrictTool.is_concurrency_safe(&Json::Null));
    assert_eq!(StrictTool.invocation_detail(&Json::Null), "");
}

#[test]
fn every_error_has_its_code_and_sentence() {
    let errors = [
        (
            ExecutionError::ToolExecution {
                tool: "t".to_string(),
                message: "m".to_string(),
            },
            "execution_error",
            "tool `t` execution failed: m",
        ),
        (
            ExecutionError::ToolValidation {
                tool: "t".to_string(),
                message: "m".to_string(),
            },
            "validation_error",
            "tool `t` validation failed: m",
        ),
        (
            ExecutionError::ToolNotFound("t".to_string()),
            "tool_not_found",
            "tool `t` not found",
        ),
        (
            ExecutionError::BlockingWorker("m".to_string()),
            "execution_error",
            "blocking worker failed: m",
        ),
        (
            ExecutionError::TimedOut {
                message: "m".to_string(),
            },
            "timed_out",
            "m",
        ),
        (
            ExecutionError::Cancelled {
                message: "m".to_string(),
            },
            "cancelled",
            "m",
        ),
        (
            ExecutionError::Panicked("m".to_string()),
            "execution_panic",
            "tool panicked: m",
        ),
        (
            ExecutionError::Other("m".to_string()),
            "execution_error",
            "m",
        ),
    ];
    for (error, code, sentence) in errors {
        assert_eq!(error.code(), code);
        assert_eq!(error.describe(), sentence);
        assert_eq!(error.clone(), error);
    }
}

#[test]
fn configuration_defaults_and_controls() {
    let config = ExecutorConfig::defaults(Some("/work".to_string()));
    assert_eq!(config.cwd, "/work");
    assert_eq!(config.env.len(), 0);
    assert_eq!(config.tool_timeout, None);
    assert_eq!(config.concurrency_limit, 1);
    assert_eq!(ExecutorConfig::defaults(None).cwd, ".");

    let controls = SubmissionControls::new(1u8)
        .with_timeout(100, 23)
        .with_cancellation(2u8);
    assert_eq!(controls.deadline(), Some(123));
    assert_eq!(controls.cancellation(), &2);
    assert_eq!(SubmissionControls::new(1u8).deadline(), None);
}

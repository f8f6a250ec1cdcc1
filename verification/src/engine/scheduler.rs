//! Scheduling: permits, deadlines, and the order of results.

use vstd::prelude::*;

use crate::engine::error::ErrorView;
use crate::engine::execution::{
    hands_over_error, law_errors_are_handed_over, law_output_is_handed_over, EffectView,
    ExecutionView, Signal, SignalView, Stage,
};
use crate::engine::registry::{argument_violation, RegisteredTool, ToolRegistry};
use crate::engine::tool::Tool;
use crate::json::{keys_of, Json, JsonView};
use crate::protocol::model::{ExecutionRequest, ExecutionResult};

verus! {

/// The largest number of permits that `tokio::sync::Semaphore` takes, which its
/// source gives as `usize::MAX >> 3`.
#[verifier::external_body]
fn max_permits() -> (max: usize)
    ensures
        max == usize::MAX / 8,
{
    tokio::sync::Semaphore::MAX_PERMITS
}

/// How many executions may run side by side under a configured limit.
pub open spec fn permit_count(concurrency_limit: usize) -> nat {
    let most = if usize::MAX / 8 < u32::MAX {
        (usize::MAX / 8) as nat
    } else {
        u32::MAX as nat
    };
    if concurrency_limit < 1 {
        1
    } else if concurrency_limit > most {
        most
    } else {
        concurrency_limit as nat
    }
}

/// The number of permits of the semaphore under a configured limit: at least
/// one, and what the semaphore can count.
pub fn permits_for(concurrency_limit: usize) -> (count: u32)
    ensures
        count == permit_count(concurrency_limit),
{
    let max: usize = max_permits();
    let configured: usize = if concurrency_limit < 1 {
        1
    } else if concurrency_limit > max {
        max
    } else {
        concurrency_limit
    };
    if configured as u64 > u32::MAX as u64 {
        u32::MAX
    } else {
        configured as u32
    }
}

/// The permits that one execution takes: an exclusive one takes the whole pool.
pub fn permits_taken(exclusive: bool, count: u32) -> (taken: u32)
    ensures
        taken == if exclusive {
            count
        } else {
            1
        },
{
    if exclusive {
        count
    } else {
        1
    }
}

/// The earlier of the request's own deadline and the tool timeout after `now`.
pub open spec fn earlier_deadline(
    request_deadline: Option<u128>,
    tool_timeout: Option<u128>,
    now: u128,
) -> Option<u128> {
    match (request_deadline, tool_timeout) {
        (Some(request), Some(timeout)) => if request <= now + timeout {
            Some(request)
        } else {
            Some((now + timeout) as u128)
        },
        (Some(request), None) => Some(request),
        (None, Some(timeout)) => Some((now + timeout) as u128),
        (None, None) => None,
    }
}

/// The deadline of a tool that is admitted at `now`.
pub fn effective_deadline(
    request_deadline: Option<u128>,
    tool_timeout: Option<u128>,
    now: u128,
) -> (deadline: Option<u128>)
    requires
        tool_timeout matches Some(timeout) ==> now + timeout <= u128::MAX,
    ensures
        deadline == earlier_deadline(request_deadline, tool_timeout, now),
{
    let tool_deadline: Option<u128> = match tool_timeout {
        Some(timeout) => Some(now + timeout),
        None => None,
    };
    match (request_deadline, tool_deadline) {
        (Some(request), Some(tool)) => if request <= tool {
            Some(request)
        } else {
            Some(tool)
        },
        (Some(request), None) => Some(request),
        (None, tool) => tool,
    }
}

/// Whether a request may run beside others, given the tool's own answer where
/// the tool exists and answered: an unknown tool may, since it only fails.
pub fn concurrent_by(known: bool, answer: Option<bool>) -> (concurrent: bool)
    ensures
        concurrent == (!known || answer == Some(true)),
{
    if known {
        match answer {
            Some(safe) => safe,
            None => false,
        }
    } else {
        true
    }
}

/// Whether a request may run beside others.
pub fn is_concurrent<T: Tool>(request: &ExecutionRequest, tools: &ToolRegistry<T>) -> (concurrent:
    bool)
    ensures
        !tools@.contains_key(request@.tool) ==> concurrent,
        tools@.contains_key(request@.tool) ==> call_ensures(
            T::is_concurrency_safe,
            (&tools@[request@.tool].implementation, &request.arguments),
            concurrent,
        ),
{
    match tools.get(request.tool.as_str()) {
        Ok(tool) => concurrent_by(true, Some(tool.is_concurrency_safe(&request.arguments))),
        Err(_) => concurrent_by(false, None),
    }
}

/// Looks the tool of an admitted request up and has it describe the invocation.
pub fn resolve_signal<T: Tool>(request: &ExecutionRequest, tools: &ToolRegistry<T>) -> (signal:
    Signal)
    ensures
        match signal {
            Signal::Resolved(None) => !tools@.contains_key(request@.tool),
            Signal::Resolved(Some(detail)) => tools@.contains_key(request@.tool) && call_ensures(
                T::invocation_detail,
                (&tools@[request@.tool].implementation, &request.arguments),
                detail,
            ),
            _ => false,
        },
{
    match tools.get(request.tool.as_str()) {
        Ok(tool) => Signal::Resolved(Some(tool.invocation_detail(&request.arguments))),
        Err(_) => Signal::Resolved(None),
    }
}

/// Checks the arguments of a started request against the schema of its tool.
pub fn check_signal<T>(arguments: &Json, tool: &RegisteredTool<T>) -> (signal: Signal)
    ensures
        signal@ == SignalView::Checked(
            match argument_violation(tool@.definition, arguments@) {
                Some(sentence) => Some(
                    ErrorView::ToolValidation { tool: tool@.definition.name, message: sentence },
                ),
                None => None,
            },
        ),
{
    Signal::Checked(tool.validate_arguments(arguments))
}

/// Whether some completed result has position `i`.
pub open spec fn completed_at(completed: Seq<(usize, ExecutionResult)>, i: int) -> bool {
    exists|k: int| 0 <= k < completed.len() && (#[trigger] completed[k]).0 == i
}

/// Whether the positions of completed results are `0..n`, each once.
pub open spec fn each_position_once(completed: Seq<(usize, ExecutionResult)>) -> bool {
    &&& forall|i: int| 0 <= i < completed.len() ==> #[trigger] completed_at(completed, i)
    &&& forall|j: int, k: int|
        0 <= j < k < completed.len() ==> (#[trigger] completed[j]).0 != (#[trigger] completed[k]).0
    &&& forall|k: int| 0 <= k < completed.len() ==> (#[trigger] completed[k]).0 < completed.len()
}

/// Whether results stand where their positions say.
pub open spec fn in_order(
    completed: Seq<(usize, ExecutionResult)>,
    results: Seq<ExecutionResult>,
) -> bool {
    &&& results.len() == completed.len()
    &&& forall|k: int|
        0 <= k < completed.len() ==> results[(#[trigger] completed[k]).0 as int]@
            == completed[k].1@
}

/// The results in the order of the requests, whatever the order in which they
/// completed.
pub fn in_input_order(completed: &Vec<(usize, ExecutionResult)>) -> (results: Vec<ExecutionResult>)
    requires
        each_position_once(completed@),
    ensures
        in_order(completed@, results@),
{
    let n: usize = completed.len();
    let mut results: Vec<ExecutionResult> = Vec::new();
    let mut i: usize = 0;
    while i < n
        invariant
            i <= n,
            n == completed@.len(),
            each_position_once(completed@),
            results@.len() == i,
            forall|k: int|
                0 <= k < n && (#[trigger] completed@[k]).0 < i ==> results@[completed@[k].0 as int]@
                    == completed@[k].1@,
        decreases n - i,
    {
        assert(completed_at(completed@, i as int));
        let ghost wanted = choose|k: int| 0 <= k < n && (#[trigger] completed@[k]).0 == i;
        let mut at: usize = 0;
        while completed[at].0 != i
            invariant
                at <= wanted < n == completed@.len(),
                completed@[wanted].0 == i,
            decreases wanted - at,
        {
            at += 1;
        }
        results.push(completed[at].1.clone());
        i += 1;
    }
    results
}

/// A tool never runs past the request's own deadline, nor past the tool timeout
/// after its admission, and is bounded where either is given.
pub proof fn law_deadline_is_the_earlier_one(
    request_deadline: Option<u128>,
    tool_timeout: Option<u128>,
    now: u128,
)
    requires
        tool_timeout matches Some(timeout) ==> now + timeout <= u128::MAX,
    ensures
        ({
            let deadline = earlier_deadline(request_deadline, tool_timeout, now);
            &&& deadline is None <==> request_deadline is None && tool_timeout is None
            &&& request_deadline matches Some(request) ==> deadline->0 <= request
            &&& tool_timeout matches Some(timeout) ==> deadline->0 <= now + timeout
        }),
{
}

/// What an execution has come to after some signals, and all it had done.
pub open spec fn run(execution: ExecutionView, signals: Seq<SignalView>) -> (
    ExecutionView,
    Seq<EffectView>,
)
    decreases signals.len(),
{
    if signals.len() == 0 {
        (execution, seq![])
    } else {
        let before = run(execution, signals.drop_last());
        let step = before.0.after(signals.last());
        (step.0, before.1 + step.1)
    }
}

/// The effects that a lifecycle counts.
pub enum Counted {
    Result,
    Failure,
    Start,
    Release,
    Invocation,
}

/// Whether an effect counts.
pub open spec fn counts(effect: EffectView, counted: Counted) -> bool {
    match counted {
        Counted::Result => effect is Finish,
        Counted::Failure => effect matches EffectView::Notify(event) && event is Failed,
        Counted::Start => effect matches EffectView::Notify(event) && event is Started,
        Counted::Release => effect is ReleasePermit,
        Counted::Invocation => effect is Invoke,
    }
}

/// How many effects count.
pub open spec fn tally(effects: Seq<EffectView>, counted: Counted) -> nat
    decreases effects.len(),
{
    if effects.len() == 0 {
        0
    } else {
        tally(effects.drop_last(), counted) + if counts(effects.last(), counted) {
            1nat
        } else {
            0
        }
    }
}

proof fn lemma_tally_append(a: Seq<EffectView>, b: Seq<EffectView>, counted: Counted)
    ensures
        tally(a + b, counted) == tally(a, counted) + tally(b, counted),
    decreases b.len(),
{
    if b.len() == 0 {
        assert(a + b =~= a);
    } else {
        assert((a + b).drop_last() =~= a + b.drop_last());
        lemma_tally_append(a, b.drop_last(), counted);
    }
}

/// Whether an effect speaks of this request, where it speaks of one.
pub open spec fn belongs(effect: EffectView, execution: ExecutionView) -> bool {
    match effect {
        EffectView::Notify(event) => event.execution_id() == execution.request.id && event.tool()
            == execution.request.tool,
        EffectView::Finish(result) => result.execution_id == execution.request.id && result.tool
            == execution.request.tool,
        _ => true,
    }
}

/// Whether an execution held a permit at some point.
pub open spec fn was_admitted(execution: ExecutionView, signals: Seq<SignalView>) -> bool {
    exists|n: int|
        0 <= n <= signals.len() && (#[trigger] run(execution, signals.take(n))).0.holds_permit()
}

/// What every signal adds to the counts.
proof fn lemma_step(execution: ExecutionView, signal: SignalView)
    ensures
        ({
            let (next, effects) = execution.after(signal);
            let ended = next.stage == Stage::Finished && execution.stage != Stage::Finished;
            &&& next.request == execution.request && next.cwd == execution.cwd && next.env_keys
                == execution.env_keys
            &&& execution.stage == Stage::Finished ==> next == execution && effects.len() == 0
            &&& tally(effects, Counted::Result) == if ended {
                1nat
            } else {
                0
            }
            &&& ended ==> effects.len() > 0 && effects.last() is Finish
            &&& tally(effects, Counted::Failure) == if ended
                && effects.last()->Finish_0.is_error {
                1nat
            } else {
                0
            }
            &&& tally(effects, Counted::Release) == if ended && execution.stage != Stage::Queued {
                1nat
            } else {
                0
            }
            &&& tally(effects, Counted::Start) == if execution.stage == Stage::Admitted
                && next.stage == Stage::Started {
                1nat
            } else {
                0
            }
            &&& tally(effects, Counted::Invocation) == if execution.stage == Stage::Validating
                && next.stage == Stage::Invoking {
                1nat
            } else {
                0
            }
            &&& next.stage == Stage::Queued ==> execution.stage == Stage::Queued
            &&& next.stage == Stage::Admitted ==> execution.stage == Stage::Queued
                || execution.stage == Stage::Admitted
            &&& execution.stage == Stage::Queued && next.stage != Stage::Queued ==> next.stage
                == Stage::Admitted || next.stage == Stage::Finished
            &&& forall|i: int| 0 <= i < effects.len() ==> belongs(#[trigger] effects[i], execution)
        }),
{
    reveal_with_fuel(tally, 5);
    let (next, effects) = execution.after(signal);
    assert(effects.len() <= 4);
    if effects.len() > 0 {
        let e1 = effects.drop_last();
        if e1.len() > 0 {
            let e2 = e1.drop_last();
            if e2.len() > 0 {
                let e3 = e2.drop_last();
                assert(e3.len() <= 1);
            }
        }
    }
}

proof fn lemma_run(execution: ExecutionView, signals: Seq<SignalView>)
    requires
        execution.stage == Stage::Queued,
    ensures
        ({
            let (end, effects) = run(execution, signals);
            let finished = end.stage == Stage::Finished;
            &&& end.request == execution.request && end.cwd == execution.cwd && end.env_keys
                == execution.env_keys
            &&& tally(effects, Counted::Result) == if finished {
                1nat
            } else {
                0
            }
            &&& finished ==> effects.len() > 0 && effects.last() is Finish
            &&& tally(effects, Counted::Failure) == if finished
                && effects.last()->Finish_0.is_error {
                1nat
            } else {
                0
            }
            &&& tally(effects, Counted::Release) == if finished && was_admitted(
                execution,
                signals,
            ) {
                1nat
            } else {
                0
            }
            &&& tally(effects, Counted::Start) <= 1
            &&& end.stage == Stage::Queued || end.stage == Stage::Admitted ==> tally(
                effects,
                Counted::Start,
            ) == 0
            &&& end.stage == Stage::Queued ==> !was_admitted(execution, signals)
            &&& end.holds_permit() ==> was_admitted(execution, signals)
            &&& forall|i: int| 0 <= i < effects.len() ==> belongs(#[trigger] effects[i], execution)
        }),
    decreases signals.len(),
{
    let (end, effects) = run(execution, signals);
    if signals.len() == 0 {
        assert forall|n: int| 0 <= n <= signals.len() implies !(#[trigger] run(
            execution,
            signals.take(n),
        )).0.holds_permit() by {
            assert(signals.take(n) =~= signals);
        }
    } else {
        let earlier = signals.drop_last();
        lemma_run(execution, earlier);
        let (before, done) = run(execution, earlier);
        let step = before.after(signals.last()).1;
        lemma_step(before, signals.last());
        lemma_tally_append(done, step, Counted::Result);
        lemma_tally_append(done, step, Counted::Failure);
        lemma_tally_append(done, step, Counted::Release);
        lemma_tally_append(done, step, Counted::Start);
        if step.len() == 0 {
            assert(effects =~= done);
        }
        assert(was_admitted(execution, signals) <==> was_admitted(execution, earlier)
            || end.holds_permit()) by {
            assert(signals.take(signals.len() as int) =~= signals);
            assert forall|n: int| 0 <= n <= earlier.len() implies #[trigger] signals.take(n)
                == earlier.take(n) by {
                assert(signals.take(n) =~= earlier.take(n));
            }
            if was_admitted(execution, earlier) {
                let n = choose|n: int|
                    0 <= n <= earlier.len() && (#[trigger] run(
                        execution,
                        earlier.take(n),
                    )).0.holds_permit();
                assert(signals.take(n) == earlier.take(n));
                assert(run(execution, signals.take(n)).0.holds_permit());
            }
            if was_admitted(execution, signals) {
                let n = choose|n: int|
                    0 <= n <= signals.len() && (#[trigger] run(
                        execution,
                        signals.take(n),
                    )).0.holds_permit();
                if n < signals.len() {
                    assert(signals.take(n) == earlier.take(n));
                    assert(run(execution, earlier.take(n)).0.holds_permit());
                }
            }
            if end.holds_permit() {
                assert(run(execution, signals.take(signals.len() as int)).0.holds_permit());
            }
        }
        assert forall|i: int| 0 <= i < effects.len() implies belongs(
            #[trigger] effects[i],
            execution,
        ) by {
            if i < done.len() {
                assert(effects[i] == done[i]);
            } else {
                assert(effects[i] == step[i - done.len()]);
            }
        }
    }
}

/// Whatever happens to an execution and in whatever order, it has one result
/// once it is finished and none before, and that result is the last thing done.
pub proof fn law_one_result_and_it_is_last(execution: ExecutionView, signals: Seq<SignalView>)
    requires
        execution.stage == Stage::Queued,
    ensures
        ({
            let (end, effects) = run(execution, signals);
            &&& tally(effects, Counted::Result) == if end.stage == Stage::Finished {
                1nat
            } else {
                0
            }
            &&& end.stage == Stage::Finished ==> effects.len() > 0 && effects.last() is Finish
        }),
{
    lemma_run(execution, signals);
}

/// The observer hears of one failure where the result is an error, and of none
/// where it is not; it hears of at most one start.
pub proof fn law_failures_are_observed_once(execution: ExecutionView, signals: Seq<SignalView>)
    requires
        execution.stage == Stage::Queued,
    ensures
        ({
            let (end, effects) = run(execution, signals);
            &&& tally(effects, Counted::Failure) == if end.stage == Stage::Finished
                && effects.last()->Finish_0.is_error {
                1nat
            } else {
                0
            }
            &&& tally(effects, Counted::Start) <= 1
        }),
{
    lemma_run(execution, signals);
}

/// A permit is given back exactly once by a finished execution that had one,
/// and by no other; until then it is held.
pub proof fn law_permit_is_released_once(execution: ExecutionView, signals: Seq<SignalView>)
    requires
        execution.stage == Stage::Queued,
    ensures
        ({
            let (end, effects) = run(execution, signals);
            let released = tally(effects, Counted::Release);
            &&& released == if end.stage == Stage::Finished && was_admitted(execution, signals) {
                1nat
            } else {
                0
            }
            &&& end.holds_permit() <==> was_admitted(execution, signals) && released == 0
        }),
{
    lemma_run(execution, signals);
}

/// Whether the schema check passed among the first `n` signals.
pub open spec fn schema_passed(signals: Seq<SignalView>, n: int) -> bool {
    exists|i: int| 0 <= i < n && #[trigger] signals[i] == SignalView::Checked(None)
}

/// Whether the schema check passed and the tool's own validation passed after
/// it.
pub open spec fn cleared(signals: Seq<SignalView>) -> bool {
    exists|j: int|
        0 <= j < signals.len() && #[trigger] signals[j] == SignalView::Validated(None)
            && schema_passed(signals, j)
}

proof fn lemma_cleared(execution: ExecutionView, signals: Seq<SignalView>)
    requires
        execution.stage == Stage::Queued,
    ensures
        ({
            let (end, effects) = run(execution, signals);
            let invoked = tally(effects, Counted::Invocation);
            &&& end.stage == Stage::Validating ==> schema_passed(signals, signals.len() as int)
            &&& invoked <= 1
            &&& invoked == 1 ==> cleared(signals) && (end.stage == Stage::Invoking || end.stage
                == Stage::Finished)
        }),
    decreases signals.len(),
{
    if signals.len() > 0 {
        let earlier = signals.drop_last();
        lemma_cleared(execution, earlier);
        let (before, done) = run(execution, earlier);
        let step = before.after(signals.last()).1;
        lemma_tally_append(done, step, Counted::Invocation);
        lemma_step(before, signals.last());
        assert(forall|i: int| 0 <= i < earlier.len() ==> #[trigger] signals[i] == earlier[i]);
        if schema_passed(earlier, earlier.len() as int) {
            let i = choose|i: int|
                0 <= i < earlier.len() && #[trigger] earlier[i] == SignalView::Checked(None);
            assert(signals[i] == SignalView::Checked(None));
        }
        if cleared(earlier) {
            let j = choose|j: int|
                0 <= j < earlier.len() && #[trigger] earlier[j] == SignalView::Validated(None)
                    && schema_passed(earlier, j);
            let i = choose|i: int|
                0 <= i < j && #[trigger] earlier[i] == SignalView::Checked(None);
            assert(signals[i] == SignalView::Checked(None));
            assert(signals[j] == SignalView::Validated(None));
        }
        assert(signals[signals.len() - 1] == signals.last());
    }
}

/// A tool runs at most once, and only after its schema check and its own
/// validation passed: arguments that either refuses never reach it.
pub proof fn law_tools_run_once_and_only_when_cleared(
    execution: ExecutionView,
    signals: Seq<SignalView>,
)
    requires
        execution.stage == Stage::Queued,
    ensures
        tally(run(execution, signals).1, Counted::Invocation) <= 1,
        tally(run(execution, signals).1, Counted::Invocation) == 1 ==> cleared(signals),
{
    lemma_cleared(execution, signals);
}

/// Every event and the result carry the id and the tool of the request.
pub proof fn law_effects_carry_the_request(
    execution: ExecutionView,
    signals: Seq<SignalView>,
    i: int,
)
    requires
        execution.stage == Stage::Queued,
        0 <= i < run(execution, signals).1.len(),
    ensures
        belongs(run(execution, signals).1[i], execution),
{
    lemma_run(execution, signals);
}

/// A failure tells the observer the keys of the arguments and nothing of their
/// values.
pub proof fn law_events_hold_no_argument_values(
    a: ExecutionView,
    b: ExecutionView,
    error: ErrorView,
    cancel: bool,
)
    requires
        a.request.id == b.request.id,
        a.request.tool == b.request.tool,
        keys_of(a.request.arguments) == keys_of(b.request.arguments),
        a.cwd == b.cwd,
        a.env_keys == b.env_keys,
        a.stage == b.stage,
    ensures
        a.failing(error, cancel).1 == b.failing(error, cancel).1,
{
}

/// The deadline of a tool is the request's own or the tool timeout after its
/// admission, and no other.
pub proof fn law_deadline_is_one_of_the_two(
    request_deadline: Option<u128>,
    tool_timeout: Option<u128>,
    now: u128,
)
    requires
        tool_timeout matches Some(timeout) ==> now + timeout <= u128::MAX,
    ensures
        earlier_deadline(request_deadline, tool_timeout, now) matches Some(deadline) ==> (
        request_deadline == Some(deadline) || (tool_timeout matches Some(timeout) && deadline == now
            + timeout)),
{
}

/// As many executions may run side by side as are configured, at least one, and
/// no more than can be counted.
pub proof fn law_permits_follow_the_limit(concurrency_limit: usize)
    ensures
        permit_count(concurrency_limit) >= 1,
        1 <= concurrency_limit <= usize::MAX / 8 && concurrency_limit <= u32::MAX ==> permit_count(
            concurrency_limit,
        ) == concurrency_limit,
        concurrency_limit >= 1 ==> permit_count(concurrency_limit) <= concurrency_limit,
        permit_count(concurrency_limit) <= u32::MAX,
{
}

/// Whatever an execution went through, where its tool runs and returns, what it
/// returned is the content of the result; and where it fails, the result is an
/// error that names the kind and the message of the failure.
pub proof fn law_results_say_what_the_tool_returned(
    execution: ExecutionView,
    signals: Seq<SignalView>,
    content: JsonView,
    error: ErrorView,
)
    requires
        execution.stage == Stage::Queued,
        run(execution, signals).0.stage == Stage::Invoking,
    ensures
        run(execution, signals.push(SignalView::Completed(Ok(content)))).1.last()
            matches EffectView::Finish(result) && result.content == content && !result.is_error
            && result.execution_id == execution.request.id && result.tool == execution.request.tool,
        hands_over_error(
            run(execution, signals.push(SignalView::Completed(Err(error)))).1,
            execution.request,
            error.code(),
            error.sentence(),
        ),
{
    let (state, done) = run(execution, signals);
    lemma_run(execution, signals);
    lemma_request_is_kept(execution, signals);
    law_output_is_handed_over(state, content);
    law_errors_are_handed_over(state, error);
    let success = signals.push(SignalView::Completed(Ok(content)));
    let failure = signals.push(SignalView::Completed(Err(error)));
    assert(success.drop_last() =~= signals);
    assert(failure.drop_last() =~= signals);
    let step = state.after(SignalView::Completed(Ok(content))).1;
    assert((done + step).last() == step.last());
    let step = state.after(SignalView::Completed(Err(error))).1;
    assert((done + step).last() == step.last());
}

/// No signal changes what an execution is of.
proof fn lemma_request_is_kept(execution: ExecutionView, signals: Seq<SignalView>)
    ensures
        run(execution, signals).0.request == execution.request,
    decreases signals.len(),
{
    if signals.len() > 0 {
        lemma_request_is_kept(execution, signals.drop_last());
    }
}

/// The result of the request at a position stands at that position, whenever it
/// completed.
pub proof fn law_results_stand_where_they_were_asked_for(
    completed: Seq<(usize, ExecutionResult)>,
    results: Seq<ExecutionResult>,
    i: int,
)
    requires
        each_position_once(completed),
        in_order(completed, results),
        0 <= i < completed.len(),
    ensures
        results.len() == completed.len(),
        exists|k: int|
            0 <= k < completed.len() && (#[trigger] completed[k]).0 == i && results[i]@
                == completed[k].1@,
        forall|k: int|
            0 <= k < completed.len() && (#[trigger] completed[k]).0 == i ==> results[i]@
                == completed[k].1@,
{
    assert(completed_at(completed, i));
    let k = choose|k: int| 0 <= k < completed.len() && (#[trigger] completed[k]).0 == i;
    assert(results[completed[k].0 as int]@ == completed[k].1@);
}

} // verus!

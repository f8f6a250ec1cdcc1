//! What holds of everything that is submitted to an executor, whatever happens
//! to the executions and in whatever order.

use vstd::prelude::*;

use crate::engine::execution::{EffectView, ExecutionView, SignalView, Stage};
use crate::engine::scheduler::{
    completed_at, each_position_once, in_order, law_effects_carry_the_request,
    law_failures_are_observed_once, law_one_result_and_it_is_last, permit_count, run, tally,
    Counted,
};
use crate::protocol::model::{ExecutionResult, RequestView, ResultView};

verus! {

/// The executions that share an executor, whether each is exclusive, and the
/// configured limit.
pub struct Batch {
    pub executions: Seq<ExecutionView>,
    pub exclusive: Seq<bool>,
    pub concurrency_limit: usize,
}

/// The signals that one execution gets out of a history of the executor: each
/// entry names the execution and its signal.
pub open spec fn signals_of(history: Seq<(int, SignalView)>, i: int) -> Seq<SignalView>
    decreases history.len(),
{
    if history.len() == 0 {
        Seq::empty()
    } else {
        let before = signals_of(history.drop_last(), i);
        if history.last().0 == i {
            before.push(history.last().1)
        } else {
            before
        }
    }
}

impl Batch {
    /// Nothing has happened to any execution.
    pub open spec fn queued(self) -> bool {
        &&& self.exclusive.len() == self.executions.len()
        &&& forall|i: int|
            0 <= i < self.executions.len() ==> (#[trigger] self.executions[i]).stage
                == Stage::Queued
    }

    /// The executions are those of the requests, in order.
    pub open spec fn runs(self, requests: Seq<RequestView>) -> bool {
        &&& self.executions.len() == requests.len()
        &&& forall|i: int|
            0 <= i < requests.len() ==> (#[trigger] self.executions[i]).request == requests[i]
    }

    /// What an execution has come to.
    pub open spec fn state(self, history: Seq<(int, SignalView)>, i: int) -> ExecutionView {
        run(self.executions[i], signals_of(history, i)).0
    }

    /// All that an execution had done.
    pub open spec fn effects(self, history: Seq<(int, SignalView)>, i: int) -> Seq<EffectView> {
        run(self.executions[i], signals_of(history, i)).1
    }

    /// The result of an execution that is finished.
    pub open spec fn result(self, history: Seq<(int, SignalView)>, i: int) -> ResultView {
        self.effects(history, i).last()->Finish_0
    }

    /// Whether the results that completed, each with its position, are those of
    /// the executions, all of which are finished.
    pub open spec fn collected(
        self,
        history: Seq<(int, SignalView)>,
        completed: Seq<(usize, ExecutionResult)>,
    ) -> bool {
        &&& completed.len() == self.executions.len()
        &&& each_position_once(completed)
        &&& forall|k: int|
            0 <= k < completed.len() ==> {
                let i = (#[trigger] completed[k]).0 as int;
                self.state(history, i).stage == Stage::Finished && completed[k].1@ == self.result(
                    history,
                    i,
                )
            }
    }

    /// The permits that an execution takes.
    pub open spec fn permits(self, i: int) -> nat {
        if self.exclusive[i] {
            permit_count(self.concurrency_limit)
        } else {
            1
        }
    }

    /// The permits that an execution holds.
    pub open spec fn held(self, history: Seq<(int, SignalView)>, i: int) -> nat {
        if self.state(history, i).holds_permit() {
            self.permits(i)
        } else {
            0
        }
    }

    /// The permits that the first `n` executions hold.
    pub open spec fn outstanding(self, history: Seq<(int, SignalView)>, n: nat) -> nat
        decreases n,
    {
        if n == 0 {
            0
        } else {
            self.outstanding(history, (n - 1) as nat) + self.held(history, n - 1)
        }
    }

    /// How many of the first `n` executions hold permits: a tool is looked up,
    /// checks its arguments and runs only there.
    pub open spec fn running(self, history: Seq<(int, SignalView)>, n: nat) -> nat
        decreases n,
    {
        if n == 0 {
            0
        } else {
            self.running(history, (n - 1) as nat) + if self.state(
                history,
                n - 1,
            ).holds_permit() {
                1nat
            } else {
                0
            }
        }
    }

    /// Whether an entry of a history grants permits to an execution that waits
    /// for them only where that many are left.
    pub open spec fn grant_fits(self, history: Seq<(int, SignalView)>, k: int) -> bool {
        let (i, signal) = history[k];
        let before = history.take(k);
        signal is Granted && self.state(before, i).stage == Stage::Queued ==> self.outstanding(
            before,
            self.executions.len(),
        ) + self.permits(i) <= permit_count(self.concurrency_limit)
    }

    /// Whether the permits of a history come from a semaphore: every entry is of
    /// one of the executions, and no more permits are granted than are left.
    pub open spec fn grants_fit(self, history: Seq<(int, SignalView)>) -> bool {
        forall|k: int|
            0 <= k < history.len() ==> 0 <= (#[trigger] history[k]).0 < self.executions.len()
                && self.grant_fits(history, k)
    }

    proof fn lemma_other_signals(self, history: Seq<(int, SignalView)>, i: int)
        requires
            history.len() > 0,
            history.last().0 != i,
        ensures
            self.held(history, i) == self.held(history.drop_last(), i),
    {
    }

    /// The permits held after the last entry differ by those of its execution.
    proof fn lemma_outstanding_step(self, history: Seq<(int, SignalView)>, n: nat)
        requires
            history.len() > 0,
        ensures
            ({
                let before = history.drop_last();
                let i = history.last().0;
                self.outstanding(history, n) == self.outstanding(before, n) + if 0 <= i < n {
                    self.held(history, i) - self.held(before, i)
                } else {
                    0
                }
            }),
        decreases n,
    {
        if n > 0 {
            self.lemma_outstanding_step(history, (n - 1) as nat);
            if history.last().0 != n - 1 {
                self.lemma_other_signals(history, n - 1);
            }
        }
    }

    /// No more permits are held than there are.
    proof fn lemma_outstanding_fits(self, history: Seq<(int, SignalView)>)
        requires
            self.queued(),
            self.grants_fit(history),
        ensures
            self.outstanding(history, self.executions.len()) <= permit_count(
                self.concurrency_limit,
            ),
        decreases history.len(),
    {
        let n = self.executions.len();
        if history.len() == 0 {
            self.lemma_nothing_held(history, n);
        } else {
            let before = history.drop_last();
            let last = history.len() - 1;
            assert forall|k: int| 0 <= k < before.len() implies 0 <= (#[trigger] before[k]).0 < n
                && self.grant_fits(before, k) by {
                assert(history[k] == before[k]);
                assert(self.grant_fits(history, k));
                assert(history.take(k) =~= before.take(k));
            }
            self.lemma_outstanding_fits(before);
            self.lemma_outstanding_step(history, n);
            let i = history[last].0;
            assert(0 <= i < n && self.grant_fits(history, last));
            assert(history.take(last) =~= before);
            assert(signals_of(history, i).drop_last() =~= signals_of(before, i));
        }
    }

    proof fn lemma_nothing_held(self, history: Seq<(int, SignalView)>, n: nat)
        requires
            self.queued(),
            history.len() == 0,
            n <= self.executions.len(),
        ensures
            self.outstanding(history, n) == 0,
        decreases n,
    {
        if n > 0 {
            self.lemma_nothing_held(history, (n - 1) as nat);
            assert(self.executions[n - 1].stage == Stage::Queued);
        }
    }

    proof fn lemma_running(self, history: Seq<(int, SignalView)>, n: nat, i: int)
        ensures
            self.running(history, n) <= self.outstanding(history, n),
            0 <= i < n && self.state(history, i).holds_permit() ==> self.running(history, n) >= 1
                && self.running(history, n) - 1 + self.permits(i) <= self.outstanding(history, n),
        decreases n,
    {
        if n > 0 {
            self.lemma_running(history, (n - 1) as nat, i);
        }
    }

    proof fn lemma_alone(self, history: Seq<(int, SignalView)>, n: nat, i: int, j: int)
        requires
            0 <= i < j < n,
            self.state(history, i).holds_permit(),
            self.state(history, j).holds_permit(),
        ensures
            self.running(history, n) >= 2,
        decreases n,
    {
        if j == n - 1 {
            self.lemma_running(history, (n - 1) as nat, i);
        } else {
            self.lemma_alone(history, (n - 1) as nat, i, j);
        }
    }
}

/// However the executions of a batch complete, there is one result for every
/// request, in the order of the requests; it carries the id and the tool of its
/// request, and says what came of that execution.
pub proof fn law_results_follow_the_requests(
    batch: Batch,
    requests: Seq<RequestView>,
    history: Seq<(int, SignalView)>,
    completed: Seq<(usize, ExecutionResult)>,
    results: Seq<ExecutionResult>,
    i: int,
)
    requires
        batch.queued(),
        batch.runs(requests),
        batch.collected(history, completed),
        in_order(completed, results),
        0 <= i < requests.len(),
    ensures
        results.len() == requests.len(),
        results[i]@.execution_id == requests[i].id,
        results[i]@.tool == requests[i].tool,
        results[i]@ == batch.result(history, i),
{
    assert(completed_at(completed, i));
    let k = choose|k: int| 0 <= k < completed.len() && (#[trigger] completed[k]).0 == i;
    assert(completed[k].0 == i);
    let execution = batch.executions[i];
    let signals = signals_of(history, i);
    law_one_result_and_it_is_last(execution, signals);
    let effects = run(execution, signals).1;
    law_effects_carry_the_request(execution, signals, effects.len() - 1);
}

/// What happens to one execution, a failure or a panic of its tool as well,
/// leaves what every other has come to, and its result, as they were.
pub proof fn law_executions_are_independent(
    batch: Batch,
    history: Seq<(int, SignalView)>,
    signal: SignalView,
    i: int,
    j: int,
)
    requires
        i != j,
    ensures
        batch.state(history.push((j, signal)), i) == batch.state(history, i),
        batch.effects(history.push((j, signal)), i) == batch.effects(history, i),
        batch.result(history.push((j, signal)), i) == batch.result(history, i),
{
    assert(history.push((j, signal)).drop_last() =~= history);
}

/// The result of a finished execution is an error exactly where its observer was
/// told of a failure of that execution.
pub proof fn law_errors_are_an_executions_own(
    batch: Batch,
    history: Seq<(int, SignalView)>,
    i: int,
)
    requires
        batch.queued(),
        0 <= i < batch.executions.len(),
        batch.state(history, i).stage == Stage::Finished,
    ensures
        batch.result(history, i).is_error <==> tally(batch.effects(history, i), Counted::Failure)
            == 1,
{
    law_failures_are_observed_once(batch.executions[i], signals_of(history, i));
}

/// Over all that is submitted to an executor, no more executions hold permits at
/// once than the limit allows, and at least one may; one that is exclusive holds
/// them alone.
pub proof fn law_executions_stay_within_the_limit(
    batch: Batch,
    history: Seq<(int, SignalView)>,
    i: int,
    j: int,
)
    requires
        batch.queued(),
        batch.grants_fit(history),
        0 <= i < batch.executions.len(),
        0 <= j < batch.executions.len(),
    ensures
        batch.running(history, batch.executions.len()) <= if batch.concurrency_limit >= 1 {
            batch.concurrency_limit
        } else {
            1
        },
        batch.exclusive[i] && batch.state(history, i).holds_permit() && batch.state(
            history,
            j,
        ).holds_permit() ==> i == j,
{
    let n = batch.executions.len();
    batch.lemma_outstanding_fits(history);
    batch.lemma_running(history, n, i);
    if batch.state(history, i).holds_permit() && batch.state(history, j).holds_permit() {
        if i < j {
            batch.lemma_alone(history, n, i, j);
        } else if j < i {
            batch.lemma_alone(history, n, j, i);
        }
    }
}

} // verus!

//! The rules by which the futures that drive a local scope take their steps.

use std::task::Waker;

use vstd::prelude::*;

use crate::local::diary::{
    drain_steps, has_finished, is_idle_poll, join_steps, scope_run, ScopeState, Step,
};
use crate::local::incoming::{incoming_drained, incoming_futures, PadState};
use crate::task::task_behind;

verus! {

/// The ways to drive a scope.
pub enum Drive {
    /// Until no future is left.
    Empty,
    /// Until no future can make progress; `polled_once` if none could to begin with.
    Stalled { polled_once: bool },
    /// Until another future is ready.
    Until,
}

/// Whether, after `steps`, the last poll has finished no future and every future has had its turn.
pub open spec fn idle_after<F, T>(
    polled_once: bool,
    scope: ScopeState<T>,
    steps: Seq<Step<F, T>>,
) -> bool
    decreases steps.len(),
{
    if steps.len() == 0 {
        polled_once
    } else {
        match steps.last() {
            Step::Polled { outcome, .. } => !has_finished(outcome) && scope_run(scope, steps).owed
                == 0,
            _ => idle_after(polled_once, scope, steps.drop_last()),
        }
    }
}

/// The last of `steps` has put the pad back after nothing was found on it.
pub open spec fn nothing_taken_in<F, T>(steps: Seq<Step<F, T>>) -> bool {
    steps.len() >= 2 && steps.last() is Left && steps[steps.len() - 2] is Found
}

/// The last of `steps` has put the pad back after something was taken in from it.
pub open spec fn something_taken_in<F, T>(steps: Seq<Step<F, T>>) -> bool {
    steps.len() >= 2 && steps.last() is Left && steps[steps.len() - 2] is TakenIn
}

/// What was found on the pad, if that was not put back yet, and how many futures of it were taken
/// in.
pub open spec fn in_hand<F, T>(steps: Seq<Step<F, T>>) -> Option<
    (Option<PadState<F, Waker>>, nat),
>
    decreases steps.len(),
{
    if steps.len() == 0 {
        None
    } else {
        match (steps.last(), in_hand(steps.drop_last())) {
            (Step::Found { pad }, _) => Some((pad, 0nat)),
            (Step::TakenIn { .. }, Some((pad, count))) => Some((pad, count + 1)),
            _ => None,
        }
    }
}

/// After `steps` the task that drives the scope has to wait, unless there is something on the pad:
/// the futures of the scope, or the other future, were just found pending.
pub open spec fn has_to_wait<F, T>(drive: Drive, steps: Seq<Step<F, T>>) -> bool {
    steps.len() > 0 && match drive {
        Drive::Empty => steps.last() matches Step::Polled { outcome, .. } && outcome is Pending,
        Drive::Stalled { .. } => false,
        Drive::Until => steps.last() matches Step::Awaited { ready, .. } && !ready,
    }
}

/// Whether `step` may be taken after `done`, on behalf of `task`:
///
/// - All that is found on the pad is taken in, in order, and an empty pad is put back. A waker is
///   left on it only if there was nothing on it and the task has to wait, and then one of `task`.
/// - Until no future is left, futures are polled as long as some finish; then the pad is looked at,
///   and futures are polled again only if some were taken in.
/// - Until no future can make progress, the pad is looked at before each poll, and futures are
///   polled unless none was taken in and the scope is idle.
/// - Until another future is ready, the pad is looked at before each poll, and the other future is
///   polled when the scope is idle. After that the pad is looked at once more; if something was
///   taken in from it, everything begins anew.
pub open spec fn drive_fits<F, T>(
    drive: Drive,
    scope: ScopeState<T>,
    done: Seq<Step<F, T>>,
    step: Step<F, T>,
    task: Option<nat>,
) -> bool {
    match step {
        Step::TakenIn { future } => {
            &&& in_hand(done) matches Some((pad, count))
            &&& count < incoming_futures(pad).len()
            &&& future == incoming_futures(pad)[count as int]
        },
        Step::Left { pad: left } => {
            &&& in_hand(done) matches Some((pad, count))
            &&& count == incoming_futures(pad).len()
            &&& incoming_futures(left).len() == 0
            &&& left is None <==> pad is None
            &&& left is Some && left->0.waker is Some ==> {
                &&& done.last() is Found
                &&& has_to_wait(drive, done.drop_last())
                &&& task_behind(left->0.waker->0) == task
            }
        },
        Step::Dropped => false,
        Step::Found { .. } => match drive {
            Drive::Empty => done.len() > 0 && is_idle_poll(done.last(), task),
            Drive::Stalled { .. } => done.len() == 0 || done.last() is Polled,
            Drive::Until => {
                ||| done.len() == 0
                ||| done.last() is Polled && !idle_after(false, scope, done)
                ||| done.last() matches Step::Awaited { ready, .. } && !ready
                ||| something_taken_in(done)
            },
        },
        Step::Polled { task: polled, .. } => {
            &&& polled == task
            &&& match drive {
                Drive::Empty => {
                    ||| done.len() == 0
                    ||| done.last() is Polled && !is_idle_poll(done.last(), task)
                    ||| something_taken_in(done)
                },
                Drive::Stalled { polled_once } => {
                    &&& done.len() > 0 && done.last() is Left
                    &&& !(nothing_taken_in(done) && idle_after(polled_once, scope, done))
                },
                Drive::Until => done.len() > 0 && done.last() is Left,
            }
        },
        Step::Awaited { task: polled, .. } => {
            &&& drive is Until
            &&& polled == task
            &&& done.len() > 0 && is_idle_poll(done.last(), task)
            &&& idle_after(false, scope, done)
        },
    }
}

/// Each of `steps` was taken by the rules.
pub open spec fn drive_goes<F, T>(
    drive: Drive,
    scope: ScopeState<T>,
    steps: Seq<Step<F, T>>,
    task: Option<nat>,
) -> bool
    decreases steps.len(),
{
    steps.len() > 0 ==> {
        &&& drive_goes(drive, scope, steps.drop_last(), task)
        &&& drive_fits(drive, scope, steps.drop_last(), steps.last(), task)
    }
}

/// One more step by the rules.
pub proof fn lemma_drive_step<F, T>(
    drive: Drive,
    scope: ScopeState<T>,
    steps: Seq<Step<F, T>>,
    step: Step<F, T>,
    task: Option<nat>,
)
    requires
        drive_goes(drive, scope, steps, task),
        drive_fits(drive, scope, steps, step, task),
    ensures
        drive_goes(drive, scope, steps + seq![step], task),
        (steps + seq![step]).last() == step,
        (steps + seq![step]).drop_last() == steps,
        forall|flag: bool| !(step is Polled) ==> #[trigger] idle_after(
            flag,
            scope,
            steps + seq![step],
        ) == idle_after(flag, scope, steps),
{
    assert((steps + seq![step]).drop_last() =~= steps);
}

/// Taking in the first `count` futures of those that were found is by the rules.
pub proof fn lemma_drive_joins<F, T>(
    drive: Drive,
    scope: ScopeState<T>,
    steps: Seq<Step<F, T>>,
    pad: Option<PadState<F, Waker>>,
    count: nat,
    task: Option<nat>,
)
    requires
        drive_goes(drive, scope, steps, task),
        steps.len() > 0,
        steps.last() == (Step::<F, T>::Found { pad }),
        count <= incoming_futures(pad).len(),
    ensures
        ({
            let after = steps + join_steps(incoming_futures(pad).take(count as int));
            &&& drive_goes(drive, scope, after, task)
            &&& in_hand(after) == Some((pad, count))
            &&& after.len() > 0
            &&& count == 0 ==> after.last() is Found
            &&& count > 0 ==> after.last() is TakenIn
            &&& forall|flag: bool| #[trigger]
                idle_after(flag, scope, after) == idle_after(flag, scope, steps)
        }),
    decreases count,
{
    let futures = incoming_futures(pad);
    if count == 0 {
        assert(steps + join_steps(futures.take(0)) =~= steps);
    } else {
        let before = steps + join_steps(futures.take(count - 1));
        let step = Step::<F, T>::TakenIn { future: futures[count - 1] };
        lemma_drive_joins(drive, scope, steps, pad, (count - 1) as nat, task);
        lemma_drive_step(drive, scope, before, step, task);
        assert(steps + join_steps(futures.take(count as int)) =~= before + seq![step]);
    }
}

/// Taking in all that is found on the pad, and putting it back, is by the rules once the pad may be
/// looked at.
pub proof fn lemma_drive_drain<F, T>(
    drive: Drive,
    scope: ScopeState<T>,
    steps: Seq<Step<F, T>>,
    pad: Option<PadState<F, Waker>>,
    left: Option<PadState<F, Waker>>,
    task: Option<nat>,
)
    requires
        drive_goes(drive, scope, steps, task),
        drive_fits(drive, scope, steps, Step::<F, T>::Found { pad }, task),
        incoming_futures(left).len() == 0,
        left is None <==> pad is None,
        left is Some && left->0.waker is Some ==> {
            &&& incoming_futures(pad).len() == 0
            &&& has_to_wait(drive, steps)
            &&& task_behind(left->0.waker->0) == task
        },
    ensures
        ({
            let after = steps + seq![Step::Found { pad }] + join_steps(incoming_futures(pad))
                + seq![Step::Left { pad: left }];
            &&& drive_goes(drive, scope, after, task)
            &&& after.last() == Step::<F, T>::Left { pad: left }
            &&& incoming_futures(pad).len() == 0 ==> nothing_taken_in(after) && !something_taken_in(
                after,
            ) && after[after.len() - 2] == Step::<F, T>::Found { pad }
            &&& incoming_futures(pad).len() > 0 ==> something_taken_in(after) && !nothing_taken_in(
                after,
            )
            &&& forall|flag: bool| #[trigger]
                idle_after(flag, scope, after) == idle_after(flag, scope, steps)
        }),
        steps + drain_steps(pad) == steps + seq![Step::Found { pad }] + join_steps(
            incoming_futures(pad),
        ) + seq![Step::Left { pad: incoming_drained(pad) }],
{
    let found = Step::<F, T>::Found { pad };
    lemma_drive_step(drive, scope, steps, found, task);
    let looked = steps + seq![found];
    let futures = incoming_futures(pad);
    lemma_drive_joins(drive, scope, looked, pad, futures.len(), task);
    assert(futures.take(futures.len() as int) =~= futures);
    let joined = looked + join_steps(incoming_futures(pad));
    if futures.len() == 0 {
        assert(joined =~= looked);
    }
    lemma_drive_step(drive, scope, joined, Step::Left { pad: left }, task);
    let after = joined + seq![Step::<F, T>::Left { pad: left }];
    assert(after[after.len() - 2] == joined.last());
    assert(steps + drain_steps(pad) =~= joined + seq![Step::Left { pad: incoming_drained(pad) }]);
}

} // verus!

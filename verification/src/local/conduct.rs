//! What each step does to a local scope and its pad, part by part, and by what order of steps a
//! scope is driven.
//!
//! Everything is said of the parts and the steps themselves, for every scope and every argument.

use std::rc::Rc;
use std::task::Waker;

use vstd::prelude::*;

use crate::local::diary::{
    course_does, course_goes, drain_steps, found_nothing, has_finished, is_idle_poll, join_steps,
    look_count, pad_will_wake, poll_count, poll_verdict, scope_run, scope_step, step_possible,
    steps_between, steps_possible, Course, ScopeState, Step,
};
use crate::local::drive::{
    drive_goes, idle_after, in_hand, nothing_taken_in, something_taken_in, Drive,
};
use crate::local::incoming::{
    incoming_drained, incoming_futures, incoming_registered, incoming_spawn, pad_new, pad_push,
    PadState,
};
use crate::local::laws::lemma_drive_prefix;
use crate::local::shared::{is_asked, is_delivered, Delivery, SharedIncoming};
use crate::local::until::{
    empty_answer, poll_answers, until_begins, until_ends, until_goes_on,
};
use crate::task::{task_behind, Progress};

verus! {

/// A spawn puts the future behind all that are on the pad, and uses up the waker that is there;
/// taking in leaves an empty pad without a waker; asking to be woken puts the waker there, in place
/// of an earlier one, and moves no future. Where there is no pad, there is none afterwards.
pub proof fn law_pad_is_kept_in_order<F, W>(pad: PadState<F, W>, future: F, waker: W)
    ensures
        pad_new::<F, W>().futures.len() == 0 && pad_new::<F, W>().waker is None,
        pad_push(pad, future).futures == pad.futures.push(future),
        pad_push(pad, future).waker is None,
        incoming_spawn(Some(pad), future) matches Some(after) && after.futures
            == pad.futures.push(future) && after.waker is None,
        incoming_drained(Some(pad)) matches Some(after) && after.futures.len() == 0
            && after.waker is None,
        incoming_registered(Some(pad), waker) matches Some(after) && after.futures == pad.futures
            && after.waker == Some(waker),
        incoming_futures(Some(pad)) == pad.futures,
        incoming_spawn(None::<PadState<F, W>>, future) is None,
        incoming_drained(None::<PadState<F, W>>) is None,
        incoming_registered(None::<PadState<F, W>>, waker) is None,
        incoming_futures(None::<PadState<F, W>>).len() == 0,
{
}

/// A task that asked to be woken finds its waker used up by the next spawn and by none after that,
/// and the futures of both spawns on the pad, in order.
pub proof fn law_two_spawns_wake_once<F, W>(pad: PadState<F, W>, waker: W, first: F, second: F)
    ensures
        ({
            let asked = incoming_registered(Some(pad), waker);
            let once = incoming_spawn(asked, first);
            let twice = incoming_spawn(once, second);
            &&& asked is Some && asked->0.waker == Some(waker)
            &&& once is Some && once->0.waker is None
            &&& twice is Some && twice->0.waker is None
            &&& twice->0.futures == pad.futures.push(first).push(second)
        }),
{
}

/// Looking at the pad, putting it back and polling somebody else's future change nothing that the
/// scope holds. Taking in a future makes one more, and owes a turn to each. A poll makes one turn
/// less owed; if a future has finished in it, that one is gone and its value stands behind the other
/// results, else nothing else changes. Dropping leaves no future and all results.
pub proof fn law_steps_change_what_they_are_named_for<F, T>(
    scope: ScopeState<T>,
    pad: Option<PadState<F, Waker>>,
    future: F,
    task: Option<nat>,
    ready: bool,
    value: T,
)
    ensures
        scope_step(scope, Step::<F, T>::Found { pad }) == scope,
        scope_step(scope, Step::<F, T>::Left { pad }) == scope,
        scope_step(scope, Step::<F, T>::Awaited { task, ready }) == scope,
        ({
            let after = scope_step(scope, Step::<F, T>::TakenIn { future });
            &&& after.live == scope.live + 1
            &&& after.owed == scope.live + 1
            &&& after.results == scope.results
        }),
        ({
            let outcome = Progress::Ready(Some(value));
            let after = scope_step(scope, Step::<F, T>::Polled { task, outcome });
            &&& scope.live > 0 ==> after.live == scope.live - 1
            &&& after.results == scope.results.push(value)
            &&& after.owed + 1 == scope.owed || (scope.owed == 0 && after.owed == 0)
        }),
        ({
            let outcome = Progress::<Option<T>>::Pending;
            let after = scope_step(scope, Step::<F, T>::Polled { task, outcome });
            &&& after.live == scope.live
            &&& after.results == scope.results
            &&& after.owed + 1 == scope.owed || (scope.owed == 0 && after.owed == 0)
        }),
        ({
            let outcome = Progress::<Option<T>>::Ready(None);
            let after = scope_step(scope, Step::<F, T>::Polled { task, outcome });
            &&& after.live == scope.live
            &&& after.results == scope.results
            &&& after.owed + 1 == scope.owed || (scope.owed == 0 && after.owed == 0)
        }),
        ({
            let after = scope_step(scope, Step::<F, T>::Dropped);
            &&& after.live == 0 && after.owed == 0
            &&& after.results == scope.results
        }),
{
}

/// Only a future that is there finishes, and there is nothing to wait for only if there is none.
pub proof fn law_what_a_poll_may_come_to<F, T>(scope: ScopeState<T>, task: Option<nat>, value: T)
    ensures
        step_possible(
            scope,
            Step::<F, T>::Polled { task, outcome: Progress::Ready(Some(value)) },
        ) ==> scope.live > 0,
        step_possible(scope, Step::<F, T>::Polled { task, outcome: Progress::Ready(None) })
            ==> scope.live == 0,
        has_finished(Progress::Ready(Some(value))),
        !has_finished(Progress::<Option<T>>::Ready(None)),
        !has_finished(Progress::<Option<T>>::Pending),
        poll_verdict(Progress::Ready(Some(value))) == Progress::Ready(Some(())),
        poll_verdict(Progress::<Option<T>>::Ready(None)) == Progress::<Option<()>>::Ready(None),
        poll_verdict(Progress::<Option<T>>::Pending) == Progress::<Option<()>>::Pending,
        empty_answer(Progress::Ready(Some(()))) is None,
        empty_answer(Progress::Ready(None)) == Some(Progress::Ready(())),
        empty_answer(Progress::Pending) == Some(Progress::<()>::Pending),
        is_idle_poll(Step::<F, T>::Polled { task, outcome: Progress::Pending }, task),
        is_idle_poll(Step::<F, T>::Polled { task, outcome: Progress::Ready(None) }, task),
        !is_idle_poll(
            Step::<F, T>::Polled { task, outcome: Progress::Ready(Some(value)) },
            task,
        ),
{
}

/// The steps of a scope add up: those after the first ones begin where these have ended.
pub proof fn law_steps_add_up<F, T>(scope: ScopeState<T>, steps: Seq<Step<F, T>>, step: Step<F, T>)
    ensures
        scope_run(scope, Seq::<Step<F, T>>::empty()) == scope,
        scope_run(scope, steps.push(step)) == scope_step(scope_run(scope, steps), step),
        poll_count(Seq::<Step<F, T>>::empty()) == 0,
        poll_count(steps.push(step)) == poll_count(steps) + (if step is Polled {
            1int
        } else {
            0
        }),
        look_count(Seq::<Step<F, T>>::empty()) == 0,
        look_count(steps.push(step)) == look_count(steps) + (if step is Found {
            1int
        } else {
            0
        }),
{
    assert(steps.push(step).drop_last() =~= steps);
}

/// Taking in what is on the pad takes in each future that was found there, in order, and then puts
/// back an empty pad without a waker.
pub proof fn law_taking_in_is_complete<F, T>(pad: PadState<F, Waker>, m: int)
    ensures
        ({
            let steps = drain_steps::<F, T>(Some(pad));
            &&& steps.len() == pad.futures.len() + 2
            &&& steps[0] == (Step::<F, T>::Found { pad: Some(pad) })
            &&& 0 <= m < pad.futures.len() ==> steps[1 + m] == (Step::<F, T>::TakenIn {
                future: pad.futures[m],
            })
            &&& steps.last() matches Step::Left { pad: Some(left) }
            &&& left.futures.len() == 0 && left.waker is None
        }),
        ({
            let steps = join_steps::<F, T>(pad.futures);
            &&& steps.len() == pad.futures.len()
            &&& 0 <= m < pad.futures.len() ==> steps[m] == (Step::<F, T>::TakenIn {
                future: pad.futures[m],
            })
        }),
        drain_steps::<F, T>(None) == seq![
            Step::<F, T>::Found { pad: None },
            Step::<F, T>::Left { pad: None },
        ],
{
}

/// However a scope is driven: whenever a pad is put back, every future that was found on it was
/// taken in, and the pad that is put back is empty and there exactly if the one that was found was.
pub proof fn law_nothing_found_is_left_behind<F, T>(
    drive: Drive,
    scope: ScopeState<T>,
    steps: Seq<Step<F, T>>,
    task: Option<nat>,
    k: int,
)
    requires
        drive_goes(drive, scope, steps, task),
        0 <= k < steps.len(),
        steps[k] is Left,
    ensures
        exists|i: int|
            {
                &&& 0 <= i < k
                &&& #[trigger] steps[i] matches Step::Found { pad: found }
                &&& steps[k] matches Step::Left { pad: left }
                &&& match found {
                    Some(found) => {
                        &&& k == i + 1 + found.futures.len()
                        &&& forall|m: int|
                            0 <= m < found.futures.len() ==> #[trigger] steps[i + 1 + m] == (Step::<
                                F,
                                T,
                            >::TakenIn { future: found.futures[m] })
                        &&& left matches Some(left) && left.futures.len() == 0
                    },
                    None => k == i + 1 && left is None,
                }
            },
{
    lemma_drive_prefix(drive, scope, steps, task, k);
    lemma_in_hand(drive, scope, steps, task, k);
    let i = choose|i: int| 0 <= i < k && #[trigger] steps[i] is Found && hand_begins_at(steps, i, k);
    assert(steps[i] is Found);
}

/// What is in hand before step `k` was found at step `i`, and was taken in one by one since then.
spec fn hand_begins_at<F, T>(steps: Seq<Step<F, T>>, i: int, k: int) -> bool {
    &&& steps[i] matches Step::Found { pad }
    &&& in_hand(steps.take(k)) == Some((pad, (k - i - 1) as nat))
    &&& k - i - 1 <= incoming_futures(pad).len()
    &&& forall|m: int|
        0 <= m < k - i - 1 ==> #[trigger] steps[i + 1 + m] == (Step::<F, T>::TakenIn {
            future: incoming_futures(pad)[m],
        })
}

/// Where something is in hand, it was found.
proof fn lemma_in_hand<F, T>(
    drive: Drive,
    scope: ScopeState<T>,
    steps: Seq<Step<F, T>>,
    task: Option<nat>,
    k: int,
)
    requires
        drive_goes(drive, scope, steps, task),
        0 <= k <= steps.len(),
        in_hand(steps.take(k)) is Some,
    ensures
        exists|i: int| 0 <= i < k && #[trigger] steps[i] is Found && hand_begins_at(steps, i, k),
    decreases k,
{
    let done = steps.take(k);
    assert(k > 0);
    assert(done.last() == steps[k - 1]);
    assert(done.drop_last() =~= steps.take(k - 1));
    if steps[k - 1] is Found {
        assert(hand_begins_at(steps, k - 1, k));
    } else {
        lemma_drive_prefix(drive, scope, steps, task, k - 1);
        lemma_in_hand(drive, scope, steps, task, k - 1);
        let i = choose|i: int|
            0 <= i < k - 1 && #[trigger] steps[i] is Found && hand_begins_at(steps, i, k - 1);
        assert(steps[i + 1 + (k - i - 2)] == steps[k - 1]);
        assert(hand_begins_at(steps, i, k));
    }
}

/// Until no future is left, futures are polled first; they are polled again as long as one finishes,
/// or after something was taken in. The pad is looked at only after a poll in which none has
/// finished. Nothing is dropped, and nobody else's future is polled.
pub proof fn law_driving_until_empty<F, T>(
    scope: ScopeState<T>,
    steps: Seq<Step<F, T>>,
    task: Option<nat>,
    k: int,
)
    requires
        drive_goes(Drive::Empty, scope, steps, task),
        0 <= k < steps.len(),
    ensures
        k == 0 ==> steps[k] is Polled,
        steps[k] matches Step::Polled { task: polled, .. } ==> polled == task && (k == 0 || (
        steps[k - 1] matches Step::Polled { outcome: Progress::Ready(Some(_)), .. }) || (k >= 2
            && steps[k - 1] is Left && steps[k - 2] is TakenIn)),
        steps[k] is Found ==> k > 0 && (steps[k - 1] matches Step::Polled { outcome, .. }
            && !(outcome matches Progress::Ready(Some(_)))),
        !(steps[k] is Awaited) && !(steps[k] is Dropped),
{
    lemma_drive_prefix(Drive::Empty, scope, steps, task, k);
    let done = steps.take(k);
    if k > 0 {
        assert(done.last() == steps[k - 1]);
        lemma_drive_prefix(Drive::Empty, scope, steps, task, k - 1);
    }
    if k >= 2 {
        assert(done[done.len() - 2] == steps[k - 2]);
    }
}

/// Until no future can make progress, the pad is looked at before each poll. Futures are polled once
/// more unless nothing was on the pad, the last poll has finished none, and each has had its turn;
/// all polls are made with the given task, and nobody else's future is polled.
pub proof fn law_driving_until_stalled<F, T>(
    polled_once: bool,
    scope: ScopeState<T>,
    steps: Seq<Step<F, T>>,
    task: Option<nat>,
    k: int,
)
    requires
        drive_goes(Drive::Stalled { polled_once }, scope, steps, task),
        0 <= k < steps.len(),
    ensures
        k == 0 ==> steps[k] is Found,
        steps[k] matches Step::Polled { task: polled, .. } ==> {
            &&& polled == task
            &&& k >= 2
            &&& steps[k - 1] is Left
            &&& steps[k - 2] is TakenIn || !idle_after(polled_once, scope, steps.take(k))
        },
        steps[k] is Found ==> k == 0 || steps[k - 1] is Polled,
        !(steps[k] is Awaited) && !(steps[k] is Dropped),
{
    lemma_drive_prefix(Drive::Stalled { polled_once }, scope, steps, task, k);
    let done = steps.take(k);
    if k > 0 {
        assert(done.last() == steps[k - 1]);
        if steps[k] is Polled {
            assert(steps[k - 1] is Left);
            lemma_drive_prefix(Drive::Stalled { polled_once }, scope, steps, task, k - 1);
            let before = steps.take(k - 1);
            assert(in_hand(before) is Some);
            assert(before.len() > 0);
            assert(before.last() == steps[k - 2]);
            assert(done[done.len() - 2] == steps[k - 2]);
        }
    }
}

/// A scope is idle exactly if the last poll has finished no future and no turn is owed after it;
/// what came after that poll does not matter, and before the first poll it is as it was.
pub proof fn law_when_a_scope_is_idle<F, T>(
    polled_once: bool,
    scope: ScopeState<T>,
    steps: Seq<Step<F, T>>,
    step: Step<F, T>,
)
    ensures
        idle_after(polled_once, scope, Seq::<Step<F, T>>::empty()) == polled_once,
        !(step is Polled) ==> idle_after(polled_once, scope, steps.push(step)) == idle_after(
            polled_once,
            scope,
            steps,
        ),
        step matches Step::Polled { outcome, .. } ==> (idle_after(
            polled_once,
            scope,
            steps.push(step),
        ) <==> !(outcome matches Progress::Ready(Some(_))) && scope_run(scope, steps.push(step)).owed
            == 0),
{
    assert(steps.push(step).drop_last() =~= steps);
}

/// Until another future is ready, the pad is looked at before each poll of the scope. The other
/// future is polled only right after a poll in which none has finished, when each has had its turn;
/// and if that is so, nothing else is done before it is polled. After it the pad is looked at, and
/// the scope goes on only if something was taken in. All polls are made for the given task.
pub proof fn law_driving_until_ready<F, T>(
    scope: ScopeState<T>,
    steps: Seq<Step<F, T>>,
    task: Option<nat>,
    k: int,
)
    requires
        drive_goes(Drive::Until, scope, steps, task),
        0 <= k < steps.len(),
    ensures
        k == 0 ==> steps[k] is Found,
        steps[k] matches Step::Polled { task: polled, .. } ==> polled == task && k >= 2
            && steps[k - 1] is Left,
        steps[k] matches Step::Awaited { task: polled, .. } ==> {
            &&& polled == task
            &&& k > 0
            &&& steps[k - 1] matches Step::Polled { outcome, .. } && !(outcome matches Progress::Ready(
                Some(_),
            ))
            &&& scope_run(scope, steps.take(k)).owed == 0
        },
        steps[k] is Found ==> {
            ||| k == 0
            ||| steps[k - 1] matches Step::Awaited { ready, .. } && !ready
            ||| k >= 2 && steps[k - 1] is Left && steps[k - 2] is TakenIn
            ||| steps[k - 1] matches Step::Polled { outcome, .. } && ((
            outcome matches Progress::Ready(Some(_))) || scope_run(scope, steps.take(k)).owed > 0)
        },
        !(steps[k] is Dropped),
{
    lemma_drive_prefix(Drive::Until, scope, steps, task, k);
    let done = steps.take(k);
    if k > 0 {
        assert(done.last() == steps[k - 1]);
        if steps[k] is Polled {
            lemma_drive_prefix(Drive::Until, scope, steps, task, k - 1);
            assert(in_hand(steps.take(k - 1)) is Some);
        }
        if k >= 2 {
            assert(done[done.len() - 2] == steps[k - 2]);
        }
    }
}

/// An answer of pending leaves, on a pad that is still there, nothing but a waker of the task that
/// was polled, and comes after the other future was polled for that task and nothing was found; a
/// value is answered right after the other future has given it.
pub proof fn law_how_until_ends<F, T>(
    steps: Seq<Step<F, T>>,
    ready: bool,
    task: Option<nat>,
    pad: PadState<F, Waker>,
)
    requires
        until_ends(steps, ready, task),
    ensures
        steps.len() > 0,
        ready ==> steps.last() == (Step::<F, T>::Awaited { task, ready: true }),
        !ready ==> {
            &&& steps.len() >= 3
            &&& steps[steps.len() - 3] == (Step::<F, T>::Awaited { task, ready: false })
            &&& steps[steps.len() - 2] matches Step::Found { pad: found } && (found is Some
                ==> found->0.futures.len() == 0)
            &&& steps.last() matches Step::Left { pad: left } && (left is Some ==> {
                &&& left->0.futures.len() == 0
                &&& left->0.waker is Some
                &&& task_behind(left->0.waker->0) == task
            })
        },
{
}

/// A pad that will wake a task has no future on it and holds a waker of that task; nothing was found
/// only if no future was on the pad; a poll answers that all futures are finished only if it found
/// that there is none, and pending only if it was.
pub proof fn law_how_until_empty_ends<F, T>(
    pad: PadState<F, Waker>,
    task: Option<nat>,
    step: Step<F, T>,
    outcome: Progress<()>,
)
    ensures
        pad_will_wake(Some(pad), task) ==> pad.futures.len() == 0 && pad.waker is Some
            && task_behind(pad.waker->0) == task,
        found_nothing(step) ==> (step matches Step::Found { pad: found } && (found is Some
            ==> found->0.futures.len() == 0)),
        poll_answers(step, Progress::Ready(())) ==> (step matches Step::Polled {
            outcome: Progress::Ready(None),
            ..
        }),
        poll_answers(step, Progress::Pending) ==> (step matches Step::Polled {
            outcome: Progress::Pending,
            ..
        }),
{
}

/// Something was taken in if the pad was put back right after a future was taken in; nothing was if
/// it was put back right after it was looked at.
pub proof fn law_what_was_taken_in<F, T>(steps: Seq<Step<F, T>>)
    ensures
        something_taken_in(steps) <==> steps.len() >= 2 && steps[steps.len() - 1] is Left
            && steps[steps.len() - 2] is TakenIn,
        nothing_taken_in(steps) <==> steps.len() >= 2 && steps[steps.len() - 1] is Left
            && steps[steps.len() - 2] is Found,
{
}

/// Driving until another future is ready begins with taking in all that is on the pad, in order,
/// before anything is polled.
pub proof fn law_how_until_begins<F, T>(steps: Seq<Step<F, T>>, pad: PadState<F, Waker>, m: int)
    requires
        until_begins(steps, true),
        steps[0] == (Step::<F, T>::Found { pad: Some(pad) }),
    ensures
        steps.len() >= pad.futures.len() + 2,
        0 <= m < pad.futures.len() ==> steps[1 + m] == (Step::<F, T>::TakenIn {
            future: pad.futures[m],
        }),
        steps[1int + pad.futures.len()] is Left,
{
    let drained = drain_steps::<F, T>(Some(pad));
    if 0 <= m < pad.futures.len() {
        assert(drained[1 + m] == steps[1 + m]);
    }
    assert(drained[1int + pad.futures.len()] == steps[1int + pad.futures.len()]);
}

/// A scope that has gone from one state to another has kept its diary, has added the steps that lie
/// between to its end, and holds what these steps make of what it held; each of them was possible.
pub proof fn law_the_diary_tells_everything<F, T>(
    before: Course<F, T>,
    after: Course<F, T>,
    steps: Seq<Step<F, T>>,
)
    requires
        course_goes(before, after),
    ensures
        before.diary.len() <= after.diary.len(),
        after.diary.take(before.diary.len() as int) == before.diary,
        before.diary + steps_between(before, after) == after.diary,
        after.diary == before.diary + steps ==> {
            &&& steps_between(before, after) == steps
            &&& after.state == scope_run(before.state, steps)
        },
        course_does(before, after, steps) ==> after.diary == before.diary + steps,
        steps_possible(before.state, steps_between(before, after)),
{
    assert(before.diary + steps_between(before, after) =~= after.diary);
    assert(after.diary.take(before.diary.len() as int) =~= before.diary);
    if after.diary == before.diary + steps {
        assert(steps_between(before, after) =~= steps);
    }
}

/// Steps that were possible were so one after the other.
pub proof fn law_steps_were_possible<F, T>(
    scope: ScopeState<T>,
    steps: Seq<Step<F, T>>,
    step: Step<F, T>,
)
    requires
        steps_possible(scope, steps.push(step)),
    ensures
        steps_possible(scope, steps),
        step matches Step::Polled { outcome: Progress::Ready(Some(_)), .. } ==> scope_run(
            scope,
            steps,
        ).live > 0,
        step matches Step::Polled { outcome: Progress::Ready(None), .. } ==> scope_run(
            scope,
            steps,
        ).live == 0,
{
    assert(steps.push(step).drop_last() =~= steps);
}

/// A scope whose futures were polled until none finished any more, with the answer that none is
/// left, holds none.
pub proof fn law_empty_means_empty<F, T>(
    scope: ScopeState<T>,
    steps: Seq<Step<F, T>>,
    step: Step<F, T>,
)
    requires
        steps_possible(scope, steps.push(step)),
        poll_answers(step, Progress::Ready(())),
    ensures
        scope_run(scope, steps.push(step)).live == 0,
{
    assert(steps.push(step).drop_last() =~= steps);
}

/// However a scope is driven, it leaves a waker on the pad only where it found nothing there right
/// after it had come to wait, be it for its own futures or for the other one; that waker is one of the
/// task that drives it. Driven until no future can make progress, it never waits and leaves none.
pub proof fn law_wakers_are_left_by_who_waits<F, T>(
    drive: Drive,
    scope: ScopeState<T>,
    steps: Seq<Step<F, T>>,
    task: Option<nat>,
    k: int,
    left: PadState<F, Waker>,
    waker: Waker,
)
    requires
        drive_goes(drive, scope, steps, task),
        0 <= k < steps.len(),
        steps[k] == (Step::<F, T>::Left { pad: Some(left) }),
        left.waker == Some(waker),
    ensures
        task_behind(waker) == task,
        !(drive is Stalled),
        k >= 2,
        steps[k - 1] is Found,
        drive is Empty ==> (steps[k - 2] matches Step::Polled { outcome: Progress::Pending, .. }),
        drive is Until ==> (steps[k - 2] matches Step::Awaited { ready: false, .. }),
{
    lemma_drive_prefix(drive, scope, steps, task, k);
    let done = steps.take(k);
    assert(done.last() == steps[k - 1]);
    assert(done.drop_last() =~= steps.take(k - 1));
    assert(done.drop_last().last() == steps[k - 2]);
}

/// Driving until another future is ready breaks off only after a poll of the scope that left
/// something to do, or after something was taken in; the pad is back in its place by then.
pub proof fn law_where_until_breaks_off<F, T>(scope: ScopeState<T>, steps: Seq<Step<F, T>>)
    requires
        until_goes_on(scope, steps),
    ensures
        steps.len() > 0,
        steps.last() is Left || (steps.last() matches Step::Polled { outcome, .. } && ((
        outcome matches Progress::Ready(Some(_))) || scope_run(scope, steps).owed > 0)),
{
}

/// A future that was delivered to a pad in use stands behind all that was found there, and whoever
/// asked to hear of it was woken, once, and nobody else; the waker is used up, and the answer is `Ok`.
/// Where the pad was out of use, it stays so, nobody was woken, and the answer is an error.
pub proof fn law_delivered_and_woken<F, T>(
    pad: Rc<SharedIncoming<F>>,
    future: F,
    delivery: Delivery<F, T>,
    found: PadState<F, Waker>,
    waker: Waker,
)
    requires
        is_delivered(pad, future, delivery),
    ensures
        delivery.holder.pad() == pad,
        delivery.holder.diary().len() == 2,
        delivery.holder.diary()[0] is Found && delivery.holder.diary()[1] is Left,
        delivery.result is Ok <==> delivery.holder.diary()[0]->Found_pad is Some,
        delivery.result is Ok <==> delivery.holder.diary()[1]->Left_pad is Some,
        delivery.holder.diary()[0]->Found_pad == Some(found) ==> {
            let left = delivery.holder.diary()[1]->Left_pad->0;
            &&& left.futures == found.futures.push(future)
            &&& left.waker is None
            &&& found.waker == Some(waker) ==> delivery.alarm.rung() == seq![task_behind(waker)]
            &&& found.waker is None ==> delivery.alarm.rung().len() == 0
        },
        delivery.result is Err ==> delivery.alarm.rung().len() == 0,
{
}

/// Asking whether a future would be accepted leaves on the pad what was there, wakes nobody, and is
/// answered `Ok` exactly if the pad is in use.
pub proof fn law_asking_changes_nothing<F, T>(
    pad: Rc<SharedIncoming<F>>,
    delivery: Delivery<F, T>,
)
    requires
        is_asked(pad, delivery),
    ensures
        delivery.holder.pad() == pad,
        delivery.holder.diary().len() == 2,
        delivery.holder.diary()[0] is Found && delivery.holder.diary()[1] is Left,
        delivery.holder.diary()[1]->Left_pad == delivery.holder.diary()[0]->Found_pad,
        delivery.result is Ok <==> delivery.holder.diary()[0]->Found_pad is Some,
        delivery.alarm.rung().len() == 0,
{
}

} // verus!

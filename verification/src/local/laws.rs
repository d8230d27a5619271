//! What holds of the pad of a local scope, however scope and spawners take turns, and of the scope
//! over time.

use std::task::Waker;

use vstd::prelude::*;

use crate::local::diary::{
    drain_steps, is_idle_poll, poll_count, scope_run, steps_possible, ScopeState, Step,
};
use crate::local::drive::{drive_fits, drive_goes, Drive};
use crate::local::incoming::{
    incoming_drained, incoming_futures, incoming_registered, incoming_spawn, PadState,
};
use crate::local::until::{until_begins, until_ends};
use crate::task::task_behind;

verus! {

/// What may happen to the pad of a scope.
pub enum PadOp<F, W> {
    /// A future is spawned.
    Spawn { future: F },
    /// The scope takes in what was spawned.
    Drain,
    /// The task that polls the scope asks to hear of the next spawn.
    Register { waker: W },
    /// The scope stops accepting futures.
    Close,
}

/// The pad, or the lack of one, after `op`.
pub open spec fn incoming_step<F, W>(
    incoming: Option<PadState<F, W>>,
    op: PadOp<F, W>,
) -> Option<PadState<F, W>> {
    match op {
        PadOp::Spawn { future } => incoming_spawn(incoming, future),
        PadOp::Drain => incoming_drained(incoming),
        PadOp::Register { waker } => incoming_registered(incoming, waker),
        PadOp::Close => None,
    }
}

/// The pad, or the lack of one, after all of `ops`, one after the other.
pub open spec fn incoming_run<F, W>(
    incoming: Option<PadState<F, W>>,
    ops: Seq<PadOp<F, W>>,
) -> Option<PadState<F, W>>
    decreases ops.len(),
{
    if ops.len() == 0 {
        incoming
    } else {
        incoming_step(incoming_run(incoming, ops.drop_last()), ops.last())
    }
}

/// The futures that were spawned in the course of `ops`, in order.
pub open spec fn spawned<F, W>(ops: Seq<PadOp<F, W>>) -> Seq<F>
    decreases ops.len(),
{
    if ops.len() == 0 {
        Seq::empty()
    } else {
        match ops.last() {
            PadOp::Spawn { future } => spawned(ops.drop_last()).push(future),
            _ => spawned(ops.drop_last()),
        }
    }
}

/// The futures that the scope has taken in from `incoming` in the course of `ops`, in order.
pub open spec fn taken_in<F, W>(
    incoming: Option<PadState<F, W>>,
    ops: Seq<PadOp<F, W>>,
) -> Seq<F>
    decreases ops.len(),
{
    if ops.len() == 0 {
        Seq::empty()
    } else {
        let before = incoming_run(incoming, ops.drop_last());
        match ops.last() {
            PadOp::Drain => taken_in(incoming, ops.drop_last()) + incoming_futures(before),
            _ => taken_in(incoming, ops.drop_last()),
        }
    }
}

/// A scope that has stopped accepting futures never accepts one again: there is no pad, so that
/// every spawn is refused.
pub proof fn law_closed_for_good<F, W>(ops: Seq<PadOp<F, W>>)
    ensures
        incoming_run(None::<PadState<F, W>>, ops) is None,
    decreases ops.len(),
{
    if ops.len() > 0 {
        law_closed_for_good::<F, W>(ops.drop_last());
    }
}

/// Until the pad is closed, no spawned future is lost, doubled or overtaken on it: what the scope
/// has taken in, followed by what still waits, is what was spawned.
pub proof fn law_spawned_arrives_in_order<F, W>(pad: PadState<F, W>, ops: Seq<PadOp<F, W>>)
    requires
        forall|i: int| 0 <= i < ops.len() ==> !(#[trigger] ops[i] is Close),
    ensures
        incoming_run(Some(pad), ops) is Some,
        taken_in(Some(pad), ops) + incoming_futures(incoming_run(Some(pad), ops)) == pad.futures
            + spawned(ops),
    decreases ops.len(),
{
    if ops.len() > 0 {
        law_spawned_arrives_in_order(pad, ops.drop_last());
        let before = incoming_run(Some(pad), ops.drop_last());
        assert(!(ops.last() is Close));
        let taken = taken_in(Some(pad), ops.drop_last());
        match ops.last() {
            PadOp::Spawn { future } => {
                assert(taken + incoming_futures(before).push(future) =~= (taken + incoming_futures(
                    before,
                )).push(future));
                assert((pad.futures + spawned(ops.drop_last())).push(future) =~= pad.futures
                    + spawned(ops.drop_last()).push(future));
            },
            PadOp::Drain => {
                assert((taken + incoming_futures(before)) + Seq::<F>::empty() =~= taken
                    + incoming_futures(before));
            },
            _ => {},
        }
    } else {
        assert(Seq::<F>::empty() + pad.futures =~= pad.futures + Seq::<F>::empty());
    }
}

/// A task that asked to hear of the next spawn is told once, by that spawn: the waker lies on the
/// pad until then and not after.
pub proof fn law_next_spawn_wakes_once<F, W>(
    pad: PadState<F, W>,
    waker: W,
    future: F,
)
    ensures
        ({
            let asked = incoming_registered(Some(pad), waker);
            let told = incoming_spawn(asked, future);
            &&& asked matches Some(pad) && pad.waker == Some(waker)
            &&& told matches Some(pad) && pad.waker is None
        }),
{
}

/// Whatever a scope does, no result is lost or changed.
pub proof fn law_results_only_grow<F, T>(scope: ScopeState<T>, steps: Seq<Step<F, T>>)
    ensures
        scope.results.is_prefix_of(scope_run(scope, steps).results),
    decreases steps.len(),
{
    if steps.len() > 0 {
        law_results_only_grow(scope, steps.drop_last());
    }
}

/// How many futures were taken in in the course of `steps`.
pub open spec fn join_count<F, T>(steps: Seq<Step<F, T>>) -> nat
    decreases steps.len(),
{
    if steps.len() == 0 {
        0
    } else {
        join_count(steps.drop_last()) + (if steps.last() is TakenIn {
            1nat
        } else {
            0nat
        })
    }
}

/// Unless a scope is cancelled, every future that it held or took in is still there or has left
/// its result; so once none is left, all have.
pub proof fn law_empty_scope_has_all_results<F, T>(scope: ScopeState<T>, steps: Seq<Step<F, T>>)
    requires
        steps_possible(scope, steps),
        forall|i: int| 0 <= i < steps.len() ==> !(#[trigger] steps[i] is Dropped),
    ensures
        ({
            let after = scope_run(scope, steps);
            after.live + after.results.len() == scope.live + scope.results.len() + join_count(steps)
        }),
    decreases steps.len(),
{
    if steps.len() > 0 {
        assert(!(steps.last() is Dropped));
        law_empty_scope_has_all_results(scope, steps.drop_last());
    }
}

/// As many polls as there were futures when the last one was taken in give every future its turn.
pub proof fn law_polls_make_a_round<F, T>(scope: ScopeState<T>, steps: Seq<Step<F, T>>)
    requires
        forall|i: int| 0 <= i < steps.len() ==> !(#[trigger] steps[i] is TakenIn),
    ensures
        scope_run(scope, steps).owed + poll_count(steps) <= scope.owed || scope_run(
            scope,
            steps,
        ).owed == 0,
        poll_count(steps) >= scope.owed ==> scope_run(scope, steps).owed == 0,
    decreases steps.len(),
{
    if steps.len() > 0 {
        assert(!(steps.last() is TakenIn));
        law_polls_make_a_round(scope, steps.drop_last());
    }
}

/// Steps that go by the rules did so at each of them.
pub proof fn lemma_drive_prefix<F, T>(
    drive: Drive,
    scope: ScopeState<T>,
    steps: Seq<Step<F, T>>,
    task: Option<nat>,
    k: int,
)
    requires
        drive_goes(drive, scope, steps, task),
        0 <= k < steps.len(),
    ensures
        drive_fits(drive, scope, steps.take(k), steps[k], task),
    decreases steps.len(),
{
    if k == steps.len() - 1 {
        assert(steps.take(k) =~= steps.drop_last());
    } else {
        lemma_drive_prefix(drive, scope, steps.drop_last(), task, k);
        assert(steps.drop_last().take(k) =~= steps.take(k));
    }
}

/// What a scope that is driven until another future is ready finds on its pad when it is polled, it
/// takes in and polls before it polls that other future: by then each future has had its turn, and
/// none has finished in the last poll.
pub proof fn law_spawned_is_polled_before_awaited<F, T>(
    scope: ScopeState<T>,
    steps: Seq<Step<F, T>>,
    task: Option<nat>,
    pad: PadState<F, Waker>,
    m: int,
    k: int,
)
    requires
        drive_goes(Drive::Until, scope, steps, task),
        until_begins(steps, true),
        steps[0] == (Step::<F, T>::Found { pad: Some(pad) }),
        0 <= m < pad.futures.len(),
        0 <= k < steps.len(),
        steps[k] is Awaited,
    ensures
        1 + m < k - 1,
        steps[1 + m] == (Step::<F, T>::TakenIn { future: pad.futures[m] }),
        is_idle_poll(steps[k - 1], task),
        scope_run(scope, steps.take(k)).owed == 0,
{
    let drained = drain_steps::<F, T>(Some(pad));
    assert(drained[1 + m] == steps[1 + m]);
    assert forall|i: int| 0 <= i < drained.len() implies !(steps[i] is Awaited) && !(
    steps[i] is Polled) by {
        assert(steps[i] == drained[i]);
    }
    lemma_drive_prefix(Drive::Until, scope, steps, task, k);
    assert(steps.take(k).last() == steps[k - 1]);
}

/// A task that drives a scope until another future is ready, and has to wait, hears of the next
/// spawn: the pad that it has left there hands out a waker of that task.
pub proof fn law_next_spawn_wakes_waiting_task<F, T>(
    steps: Seq<Step<F, T>>,
    task: Option<nat>,
    pad: PadState<F, Waker>,
    future: F,
)
    requires
        until_ends(steps, false, task),
        steps.last() == (Step::<F, T>::Left { pad: Some(pad) }),
    ensures
        pad.waker matches Some(waker) && task_behind(waker) == task,
        incoming_futures(incoming_spawn(Some(pad), future)) == seq![future],
{
    assert(pad.futures.push(future) =~= seq![future]);
}

} // verus!

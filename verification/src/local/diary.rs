//! What a local scope has done, step by step.
//!
//! What comes of a step is up to others: to those who share the pad, and to the futures and their
//! wakers. A scope keeps a diary of its steps with what came of each, so that what it did can be
//! stated for everything that may have come.

use std::task::Waker;

use vstd::prelude::*;

use crate::local::incoming::{incoming_drained, incoming_futures, PadState};
use crate::task::{task_behind, Progress};

verus! {

/// One step of a scope with futures of type `F` that yield `T`.
pub enum Step<F, T> {
    /// The scope took what was on the shared pad off it; `None` if there was no pad any more.
    Found { pad: Option<PadState<F, Waker>> },
    /// The scope left this on the shared pad, or took the pad out of use.
    Left { pad: Option<PadState<F, Waker>> },
    /// The scope took in a future.
    TakenIn { future: F },
    /// The scope polled its futures, on behalf of `task`, and this came of it.
    Polled { task: Option<nat>, outcome: Progress<Option<T>> },
    /// Beside its futures the scope polled the one that somebody waits for, on behalf of `task`.
    Awaited { task: Option<nat>, ready: bool },
    /// The scope dropped all its futures.
    Dropped,
}

/// What a local scope holds apart from the shared pad: how many futures it has taken in and not
/// finished, the values of those that it has finished, and how many polls it takes at most until
/// every future that it has taken in has had its turn.
///
/// Futures have their turns in the order in which they were taken in or woken, and a poll gives
/// out one turn at least as long as anybody waits for one, unless another thread is in the middle
/// of waking one. So with `live` polls after a future was taken in, that future was polled.
#[verifier::ext_equal]
pub struct ScopeState<T> {
    pub live: nat,
    pub results: Seq<T>,
    pub owed: nat,
}

/// A poll with this outcome has finished a future.
pub open spec fn has_finished<T>(outcome: Progress<Option<T>>) -> bool {
    outcome is Ready && outcome->Ready_0 is Some
}

/// The outcome of a poll without the value of the finished future.
pub open spec fn poll_verdict<T>(outcome: Progress<Option<T>>) -> Progress<Option<()>> {
    match outcome {
        Progress::Ready(Some(_)) => Progress::Ready(Some(())),
        Progress::Ready(None) => Progress::Ready(None),
        Progress::Pending => Progress::Pending,
    }
}

/// The scope after one more future was taken in.
pub open spec fn scope_joined<T>(scope: ScopeState<T>) -> ScopeState<T> {
    ScopeState { live: scope.live + 1, results: scope.results, owed: scope.live + 1 }
}

/// The scope after a poll with this outcome.
pub open spec fn scope_polled<T>(
    scope: ScopeState<T>,
    outcome: Progress<Option<T>>,
) -> ScopeState<T> {
    let owed = if scope.owed > 0 {
        (scope.owed - 1) as nat
    } else {
        0
    };
    match outcome {
        Progress::Ready(Some(value)) => ScopeState {
            live: (scope.live - 1) as nat,
            results: scope.results.push(value),
            owed,
        },
        _ => ScopeState { owed, ..scope },
    }
}

/// The scope after `step`.
pub open spec fn scope_step<F, T>(scope: ScopeState<T>, step: Step<F, T>) -> ScopeState<T> {
    match step {
        Step::TakenIn { .. } => scope_joined(scope),
        Step::Polled { outcome, .. } => scope_polled(scope, outcome),
        Step::Dropped => ScopeState { live: 0, results: scope.results, owed: 0 },
        _ => scope,
    }
}

/// The scope after all of `steps`, one after the other.
pub open spec fn scope_run<F, T>(scope: ScopeState<T>, steps: Seq<Step<F, T>>) -> ScopeState<T>
    decreases steps.len(),
{
    if steps.len() == 0 {
        scope
    } else {
        scope_step(scope_run(scope, steps.drop_last()), steps.last())
    }
}

/// What came of `step` is possible: only a future that is there finishes, and there is nothing to
/// wait for only if there is none.
pub open spec fn step_possible<F, T>(scope: ScopeState<T>, step: Step<F, T>) -> bool {
    step matches Step::Polled { outcome, .. } ==> match outcome {
        Progress::Ready(Some(_)) => scope.live > 0,
        Progress::Ready(None) => scope.live == 0,
        Progress::Pending => true,
    }
}

/// What came of each of `steps` is possible.
pub open spec fn steps_possible<F, T>(scope: ScopeState<T>, steps: Seq<Step<F, T>>) -> bool
    decreases steps.len(),
{
    steps.len() > 0 ==> {
        &&& steps_possible(scope, steps.drop_last())
        &&& step_possible(scope_run(scope, steps.drop_last()), steps.last())
    }
}

/// How often futures were polled in the course of `steps`.
pub open spec fn poll_count<F, T>(steps: Seq<Step<F, T>>) -> nat
    decreases steps.len(),
{
    if steps.len() == 0 {
        0
    } else {
        poll_count(steps.drop_last()) + (if steps.last() is Polled {
            1nat
        } else {
            0nat
        })
    }
}

/// How often the shared pad was looked at in the course of `steps`.
pub open spec fn look_count<F, T>(steps: Seq<Step<F, T>>) -> nat
    decreases steps.len(),
{
    if steps.len() == 0 {
        0
    } else {
        look_count(steps.drop_last()) + (if steps.last() is Found {
            1nat
        } else {
            0nat
        })
    }
}

/// The steps with which `futures` are taken in.
pub open spec fn join_steps<F, T>(futures: Seq<F>) -> Seq<Step<F, T>> {
    futures.map_values(|future: F| Step::<F, T>::TakenIn { future })
}

/// The steps with which everything is taken in that waits on the shared pad, if that is `pad`.
pub open spec fn drain_steps<F, T>(pad: Option<PadState<F, Waker>>) -> Seq<Step<F, T>> {
    seq![Step::Found { pad }] + join_steps(incoming_futures(pad)) + seq![
        Step::Left { pad: incoming_drained(pad) },
    ]
}

/// The step is a poll, on behalf of `task`, in which no future has finished.
pub open spec fn is_idle_poll<F, T>(step: Step<F, T>, task: Option<nat>) -> bool {
    step matches Step::Polled { task: polled, outcome } && polled == task && !has_finished(outcome)
}

/// The scope looked at the shared pad and found nothing there to take in.
pub open spec fn found_nothing<F, T>(step: Step<F, T>) -> bool {
    step matches Step::Found { pad } && incoming_futures(pad).len() == 0
}

/// The pad, if there is one, has nothing on it but a waker of `task`.
pub open spec fn pad_will_wake<F>(pad: Option<PadState<F, Waker>>, task: Option<nat>) -> bool {
    pad matches Some(pad) ==> {
        &&& pad.futures.len() == 0
        &&& pad.waker matches Some(waker)
        &&& task_behind(waker) == task
    }
}

/// A scope and its diary.
#[verifier::ext_equal]
pub struct Course<F, T> {
    pub state: ScopeState<T>,
    pub diary: Seq<Step<F, T>>,
}

/// The steps that lie between `before` and `after`.
pub open spec fn steps_between<F, T>(before: Course<F, T>, after: Course<F, T>) -> Seq<Step<F, T>> {
    after.diary.skip(before.diary.len() as int)
}

/// The scope has gone from `before` to `after` by the steps that its diary shows, and by no others.
pub open spec fn course_goes<F, T>(before: Course<F, T>, after: Course<F, T>) -> bool {
    &&& before.diary.is_prefix_of(after.diary)
    &&& after.state == scope_run(before.state, steps_between(before, after))
    &&& steps_possible(before.state, steps_between(before, after))
}

/// The scope has gone from `before` to `after` by exactly `steps`.
pub open spec fn course_does<F, T>(
    before: Course<F, T>,
    after: Course<F, T>,
    steps: Seq<Step<F, T>>,
) -> bool {
    course_goes(before, after) && steps_between(before, after) == steps
}

/// Steps after steps.
pub proof fn lemma_run_concat<F, T>(
    scope: ScopeState<T>,
    first: Seq<Step<F, T>>,
    then: Seq<Step<F, T>>,
)
    ensures
        scope_run(scope, first + then) == scope_run(scope_run(scope, first), then),
        steps_possible(scope, first) && steps_possible(scope_run(scope, first), then)
            ==> steps_possible(scope, first + then),
        poll_count(first + then) == poll_count(first) + poll_count(then),
        look_count(first + then) == look_count(first) + look_count(then),
    decreases then.len(),
{
    if then.len() == 0 {
        assert(first + then =~= first);
    } else {
        lemma_run_concat(scope, first, then.drop_last());
        assert((first + then).drop_last() =~= first + then.drop_last());
        assert((first + then).last() == then.last());
    }
}

/// A scope that has gone from `start` to `before` and on to `after` has gone from `start` to
/// `after`.
pub proof fn lemma_course_concat<F, T>(
    start: Course<F, T>,
    before: Course<F, T>,
    after: Course<F, T>,
)
    requires
        course_goes(start, before),
        course_goes(before, after),
    ensures
        course_goes(start, after),
        steps_between(start, after) == steps_between(start, before) + steps_between(before, after),
        poll_count(steps_between(start, after)) == poll_count(steps_between(start, before))
            + poll_count(steps_between(before, after)),
        look_count(steps_between(start, after)) == look_count(steps_between(start, before))
            + look_count(steps_between(before, after)),
{
    let first = steps_between(start, before);
    let then = steps_between(before, after);
    assert(steps_between(start, after) =~= first + then) by {
        assert(before.diary =~= start.diary + first);
        assert(after.diary =~= before.diary + then);
    }
    assert(start.diary.is_prefix_of(after.diary)) by {
        assert(after.diary =~= before.diary + then);
    }
    lemma_run_concat(start.state, first, then);
}

/// One step.
pub proof fn lemma_course_step<F, T>(before: Course<F, T>, after: Course<F, T>, step: Step<F, T>)
    requires
        after.diary == before.diary.push(step),
        after.state == scope_step(before.state, step),
        step_possible(before.state, step),
    ensures
        course_does(before, after, seq![step]),
{
    let steps = steps_between(before, after);
    assert(steps =~= seq![step]);
    assert(steps.drop_last() =~= Seq::empty());
    reveal_with_fuel(scope_run, 2);
    reveal_with_fuel(steps_possible, 2);
}

/// No step.
pub proof fn lemma_course_stays<F, T>(course: Course<F, T>)
    ensures
        course_does(course, course, Seq::empty()),
{
    assert(steps_between(course, course) =~= Seq::empty());
}

/// The counts of a single step.
pub proof fn lemma_single_counts<F, T>(step: Step<F, T>)
    ensures
        poll_count(seq![step]) == (if step is Polled {
            1nat
        } else {
            0nat
        }),
        look_count(seq![step]) == (if step is Found {
            1nat
        } else {
            0nat
        }),
{
    assert(seq![step].drop_last() =~= Seq::empty());
    reveal_with_fuel(poll_count, 2);
    reveal_with_fuel(look_count, 2);
}

/// Taking in is neither polling nor looking at the pad.
pub proof fn lemma_join_counts<F, T>(futures: Seq<F>)
    ensures
        poll_count(join_steps::<F, T>(futures)) == 0,
        look_count(join_steps::<F, T>(futures)) == 0,
    decreases futures.len(),
{
    if futures.len() > 0 {
        lemma_join_counts::<F, T>(futures.drop_last());
        assert(join_steps::<F, T>(futures).drop_last() =~= join_steps::<F, T>(futures.drop_last()));
    }
}

} // verus!

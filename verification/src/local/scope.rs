//! The local scope and its spawners.
//!
//! A scope and its spawners share one pad. The scope empties it when it is polled; the futures
//! that are being polled may fill it at the same time. A function that goes to the shared pad
//! therefore finds there whatever the other holders have left. The scope keeps a diary of what it
//! found, and states what it did for everything that it may find. A spawner, which is shared
//! itself, keeps none: each future goes through a [`Mailbox`], which tells what was done for it and
//! what was answered, and the spawner answers that.

use std::collections::VecDeque;
use std::task::Context;

use futures::task::{FutureObj, LocalFutureObj, SpawnError};
use vstd::prelude::*;

use crate::local::diary::{
    course_does, course_goes, drain_steps, join_steps, lemma_course_concat, lemma_course_stays,
    lemma_course_step, lemma_join_counts, lemma_single_counts, look_count, poll_count,
    poll_verdict, scope_polled, step_possible, steps_between, Course, ScopeState, Step,
};
use crate::local::incoming::{incoming_drained, incoming_futures, Incoming};
use crate::local::shared::{is_asked, is_delivered, Delivery, Mailbox};
use crate::local::task_set::{Awaited, ScopeIncoming, SharedPad, TaskSet};
use crate::local::until::{Until, UntilEmpty, UntilStalled};
use crate::scoped_spawn::ScopedSpawn;
use crate::task::{localize, task_polled, Progress};

verus! {

/// A scope for futures that borrow anything that outlives `'sc`, stay on one thread and yield `T`.
///
/// Futures are polled while the scope is, through [`until`](Self::until),
/// [`until_stalled`](Self::until_stalled) or [`until_empty`](Self::until_empty).
#[verifier::reject_recursive_types(T)]
pub struct LocalSpawnScope<'sc, T = ()> {
    tasks: TaskSet<'sc, T>,
    result: Vec<T>,
    owed: usize,
}

/// The local scope by its short name.
pub type LocalScope<'sc, T = ()> = LocalSpawnScope<'sc, T>;

/// One step of a local scope.
pub type ScopeStep<'sc, T> = Step<LocalFutureObj<'sc, T>, T>;

impl<'sc, T> View for LocalSpawnScope<'sc, T> {
    type V = ScopeState<T>;

    closed spec fn view(&self) -> ScopeState<T> {
        ScopeState { live: self.tasks.live(), results: self.result@, owed: self.owed as nat }
    }
}

impl<'sc, T> LocalSpawnScope<'sc, T> {
    /// The pad that this scope shares with its spawners.
    pub closed spec fn pad(&self) -> SharedPad<'sc, T> {
        self.tasks.pad()
    }

    /// What the scope has done, step by step.
    pub closed spec fn diary(&self) -> Seq<ScopeStep<'sc, T>> {
        self.tasks.diary()
    }

    /// The scope and its diary.
    pub open spec fn course(&self) -> Course<LocalFutureObj<'sc, T>, T> {
        Course { state: self@, diary: self.diary() }
    }

    /// The scope is one that is ended, be it before now or after: it is cancelled, sealed or closed.
    pub open spec fn ended(&self) -> bool {
        self.pad().ended()
    }

    /// A scope without futures.
    pub fn new() -> (scope: Self)
        ensures
            scope@ == (ScopeState::<T> { live: 0, results: Seq::empty(), owed: 0 }),
            scope.diary() == Seq::<ScopeStep<'sc, T>>::empty(),
    {
        LocalSpawnScope { tasks: TaskSet::new(), result: Vec::new(), owed: 0 }
    }

    /// A spawner for this scope. It may outlive the scope; what is spawned after the scope was
    /// closed is refused. Whoever drops a scope is to close it first.
    pub fn spawner(&self) -> (spawner: LocalSpawnScopeSpawner<'sc, T>)
        ensures
            spawner.pad() == self.pad(),
    {
        LocalSpawnScopeSpawner { scope: Mailbox::new(self.tasks.share()) }
    }

    /// Drops all futures that were spawned and has every later spawn refused. The results of those
    /// that have finished stay.
    pub fn cancel(&mut self)
        ensures
            final(self).pad() == old(self).pad(),
            final(self).ended(),
            final(self)@ == (ScopeState { live: 0, results: old(self)@.results, owed: 0 }),
            ({
                let steps = steps_between(old(self).course(), final(self).course());
                &&& course_goes(old(self).course(), final(self).course())
                &&& steps.len() == 3
                &&& steps[0] is Found
                &&& steps[1] == (ScopeStep::<'sc, T>::Left { pad: None })
                &&& steps[2] is Dropped
            }),
    {
        let mut incoming = self.borrow_pad();
        let ghost found = self.course();
        self.return_pad(Incoming::closed());
        let ghost left = self.course();
        proof {
            lemma_course_concat(old(self).course(), found, left);
        }
        self.cancel_on(&mut incoming);
        proof {
            lemma_course_concat(old(self).course(), left, self.course());
        }
    }

    /// Drops all futures that were taken in, and takes the given pad away, with those on it.
    pub fn cancel_on(&mut self, incoming: &mut ScopeIncoming<'sc, T>)
        ensures
            final(self).pad() == old(self).pad(),
            course_does(old(self).course(), final(self).course(), seq![Step::Dropped]),
            final(self)@ == (ScopeState { live: 0, results: old(self)@.results, owed: 0 }),
            final(incoming)@ is None,
    {
        incoming.close();
        self.tasks.clear();
        self.owed = 0;
        proof {
            lemma_course_step(old(self).course(), self.course(), Step::Dropped);
        }
    }

    /// Takes in what was spawned so far and has every later spawn refused. What was taken in is
    /// still polled.
    pub fn seal(&mut self)
        ensures
            final(self).pad() == old(self).pad(),
            final(self).ended(),
            ({
                let steps = steps_between(old(self).course(), final(self).course());
                &&& course_goes(old(self).course(), final(self).course())
                &&& steps[0] matches Step::Found { pad }
                &&& steps == seq![ScopeStep::<'sc, T>::Found { pad }] + join_steps(
                    incoming_futures(pad),
                ) + seq![Step::Left { pad: None }]
            }),
    {
        let mut incoming = self.borrow_pad();
        let ghost found = self.course();
        self.drain_from(&mut incoming);
        let ghost drained = self.course();
        proof {
            lemma_course_concat(old(self).course(), found, drained);
        }
        incoming.close();
        self.return_pad(incoming);
        proof {
            lemma_course_concat(old(self).course(), drained, self.course());
        }
    }

    /// Takes what waits off the shared pad and drops it, and has every later spawn refused, as is
    /// to be done when the scope ends.
    pub fn close(&mut self)
        ensures
            final(self).pad() == old(self).pad(),
            final(self).ended(),
            final(self)@ == old(self)@,
            ({
                let steps = steps_between(old(self).course(), final(self).course());
                &&& course_goes(old(self).course(), final(self).course())
                &&& steps.len() == 2
                &&& steps[0] is Found
                &&& steps[1] == (ScopeStep::<'sc, T>::Left { pad: None })
            }),
    {
        let mut incoming = self.borrow_pad();
        let ghost found = self.course();
        self.return_pad(Incoming::closed());
        proof {
            lemma_course_concat(old(self).course(), found, self.course());
        }
        incoming.close();
    }

    /// A future that polls the scope until `future` is ready.
    pub fn until<'f, O>(&mut self, future: LocalFutureObj<'f, O>) -> (until: Until<
        '_,
        'sc,
        'f,
        T,
        O,
    >)
        ensures
            *until.scope == *old(self),
            *final(self) == *final(until.scope),
            until.awaited.wf(),
            !until.awaited.done(),
            until.awaited.answers() == Seq::<Progress<O>>::empty(),
    {
        Until { scope: self, awaited: Awaited::new(future) }
    }

    /// A future that polls the scope until no future on it can make progress.
    pub fn until_stalled(&mut self) -> (until: UntilStalled<'_, 'sc, T>)
        ensures
            *until.scope == *old(self),
            *final(self) == *final(until.scope),
            !until.polled_once,
    {
        UntilStalled { scope: self, polled_once: false }
    }

    /// A future that polls the scope until all futures on it are finished.
    pub fn until_empty(&mut self) -> (until: UntilEmpty<'_, 'sc, T>)
        ensures
            *until.scope == *old(self),
            *final(self) == *final(until.scope),
    {
        UntilEmpty { scope: self }
    }

    /// The values of the futures that have finished so far.
    pub fn results(&self) -> (results: &Vec<T>)
        ensures
            results@ == self@.results,
    {
        &self.result
    }

    /// Hands out the values of the futures that have finished so far. Those of futures that finish
    /// later are collected anew.
    pub fn take_results(&mut self) -> (results: Vec<T>)
        ensures
            results@ == old(self)@.results,
            final(self)@ == (ScopeState { results: Seq::empty(), ..old(self)@ }),
            final(self).pad() == old(self).pad(),
            final(self).diary() == old(self).diary(),
    {
        let mut results: Vec<T> = Vec::new();
        std::mem::swap(&mut self.result, &mut results);
        results
    }

    /// Whether every future that was taken in has had its turn.
    pub fn has_had_round(&self) -> (round: bool)
        ensures
            round <==> self@.owed == 0,
    {
        self.owed == 0
    }

    /// Takes in the futures that wait on the shared pad. Returns whether there were any.
    pub(crate) fn drain_incoming(&mut self) -> (drained: bool)
        ensures
            final(self).pad() == old(self).pad(),
            ({
                let steps = steps_between(old(self).course(), final(self).course());
                &&& course_goes(old(self).course(), final(self).course())
                &&& steps.len() > 0
                &&& steps[0] matches Step::Found { pad }
                &&& steps == drain_steps::<LocalFutureObj<'sc, T>, T>(pad)
                &&& drained <==> incoming_futures(pad).len() > 0
                &&& poll_count(steps) == 0
                &&& look_count(steps) == 1
            }),
    {
        let mut incoming = self.borrow_pad();
        let ghost pad = incoming@;
        let ghost found = self.course();
        let drained = self.drain_from(&mut incoming);
        let ghost joined = self.course();
        proof {
            lemma_course_concat(old(self).course(), found, joined);
        }
        self.return_pad(incoming);
        proof {
            lemma_course_concat(old(self).course(), joined, self.course());
            lemma_single_counts(ScopeStep::<'sc, T>::Found { pad });
            lemma_join_counts::<LocalFutureObj<'sc, T>, T>(incoming_futures(pad));
            lemma_single_counts(ScopeStep::<'sc, T>::Left { pad: incoming_drained(pad) });
            assert(steps_between(old(self).course(), self.course()) =~= drain_steps(pad));
        }
        drained
    }

    /// Takes in the futures that wait on the given pad, in order. Returns whether there were any.
    pub fn drain_from(&mut self, incoming: &mut ScopeIncoming<'sc, T>) -> (drained: bool)
        ensures
            final(self).pad() == old(self).pad(),
            course_does(
                old(self).course(),
                final(self).course(),
                join_steps(incoming_futures(old(incoming)@)),
            ),
            final(incoming)@ == incoming_drained(old(incoming)@),
            drained <==> incoming_futures(old(incoming)@).len() > 0,
    {
        let mut waiting: VecDeque<LocalFutureObj<'sc, T>> = incoming.drain();
        let drained = waiting.len() > 0;
        let ghost futures = waiting@;
        proof {
            lemma_course_stays(self.course());
            assert(join_steps::<LocalFutureObj<'sc, T>, T>(futures.take(0)) =~= Seq::empty());
        }
        loop
            invariant
                self.pad() == old(self).pad(),
                waiting@.len() <= futures.len(),
                waiting@ == futures.skip(futures.len() - waiting@.len()),
                course_does(
                    old(self).course(),
                    self.course(),
                    join_steps(futures.take(futures.len() - waiting@.len())),
                ),
            ensures
                waiting@.len() == 0,
            decreases waiting@.len(),
        {
            let ghost before = self.course();
            let ghost count = futures.len() - waiting@.len();
            match waiting.pop_front() {
                Some(future) => {
                    self.tasks.push(future);
                    self.owed = self.tasks.len();
                    proof {
                        lemma_course_step(before, self.course(), Step::TakenIn { future });
                        lemma_course_concat(old(self).course(), before, self.course());
                        assert(futures.take(count + 1) =~= futures.take(count).push(future));
                        assert(join_steps::<LocalFutureObj<'sc, T>, T>(futures.take(count + 1))
                            =~= join_steps(futures.take(count)) + seq![Step::TakenIn { future }]);
                        assert(waiting@ =~= futures.skip(count + 1));
                    }
                },
                None => {
                    break;
                },
            }
        }
        proof {
            assert(futures.take(futures.len() as int) =~= futures);
        }
        drained
    }

    /// Polls the futures of the scope once and records what came of it. Returns whether a future
    /// has finished; if none has, whether that is because there is none.
    pub(crate) fn poll_once(&mut self, cx: &mut Context<'_>) -> (verdict: Progress<Option<()>>)
        ensures
            final(self).pad() == old(self).pad(),
            task_polled(*final(cx)) == task_polled(*old(cx)),
            ({
                let steps = steps_between(old(self).course(), final(self).course());
                &&& course_goes(old(self).course(), final(self).course())
                &&& steps.len() == 1
                &&& steps[0] matches Step::Polled { task, outcome }
                &&& task == task_polled(*old(cx))
                &&& verdict == poll_verdict(outcome)
                &&& final(self)@ == scope_polled(old(self)@, outcome)
                &&& step_possible(old(self)@, steps[0])
                &&& poll_count(steps) == 1
                &&& look_count(steps) == 0
            }),
    {
        let outcome = self.tasks.poll_next(cx);
        let ghost step = Step::Polled { task: task_polled(*old(cx)), outcome };
        if self.owed > 0 {
            self.owed = self.owed - 1;
        }
        let verdict = self.note(outcome);
        proof {
            lemma_course_step(old(self).course(), self.course(), step);
            lemma_single_counts(step);
        }
        verdict
    }

    /// Takes note of the outcome of a poll: the value of a finished future joins the results,
    /// behind those that are there. Answers the outcome without the value.
    pub fn note(&mut self, outcome: Progress<Option<T>>) -> (verdict: Progress<Option<()>>)
        ensures
            final(self).pad() == old(self).pad(),
            final(self).diary() == old(self).diary(),
            final(self)@ == (ScopeState {
                results: match outcome {
                    Progress::Ready(Some(value)) => old(self)@.results.push(value),
                    _ => old(self)@.results,
                },
                ..old(self)@
            }),
            verdict == poll_verdict(outcome),
    {
        match outcome {
            Progress::Ready(Some(value)) => {
                self.result.push(value);
                Progress::Ready(Some(()))
            },
            Progress::Ready(None) => Progress::Ready(None),
            Progress::Pending => Progress::Pending,
        }
    }

    /// Polls a future that somebody waits for.
    pub(crate) fn poll_awaited<'f, O>(
        &mut self,
        awaited: &mut Awaited<'f, O>,
        cx: &mut Context<'_>,
    ) -> (outcome: Progress<O>)
        requires
            old(awaited).wf(),
            !old(awaited).done(),
        ensures
            final(self).pad() == old(self).pad(),
            course_does(
                old(self).course(),
                final(self).course(),
                seq![Step::Awaited { task: task_polled(*old(cx)), ready: outcome is Ready }],
            ),
            final(self)@ == old(self)@,
            final(awaited).wf(),
            final(awaited).done() <==> outcome is Ready,
            final(awaited).answers() == old(awaited).answers().push(outcome),
    {
        let outcome = self.tasks.poll_awaited(awaited, cx);
        proof {
            lemma_course_step(
                old(self).course(),
                self.course(),
                Step::Awaited { task: task_polled(*old(cx)), ready: outcome is Ready },
            );
        }
        outcome
    }

    /// Takes what the shared pad holds out of it, until it is returned. There is no pad only if the
    /// scope was ended.
    pub(crate) fn borrow_pad(&mut self) -> (incoming: ScopeIncoming<'sc, T>)
        ensures
            final(self).pad() == old(self).pad(),
            final(self)@ == old(self)@,
            course_does(
                old(self).course(),
                final(self).course(),
                seq![Step::Found { pad: incoming@ }],
            ),
            incoming@ is None ==> final(self).ended(),
    {
        let incoming = self.tasks.find();
        proof {
            lemma_course_step(
                old(self).course(),
                self.course(),
                Step::Found { pad: incoming@ },
            );
        }
        incoming
    }

    /// Puts back what was taken out of the shared pad. If that is no pad any more, the scope is
    /// ended.
    pub(crate) fn return_pad(&mut self, incoming: ScopeIncoming<'sc, T>)
        ensures
            final(self).pad() == old(self).pad(),
            final(self)@ == old(self)@,
            course_does(
                old(self).course(),
                final(self).course(),
                seq![Step::Left { pad: incoming@ }],
            ),
            incoming@ is None ==> final(self).ended(),
    {
        let ghost pad = incoming@;
        self.tasks.leave(incoming);
        proof {
            lemma_course_step(old(self).course(), self.course(), Step::Left { pad });
        }
    }
}

impl<'sc, T> Default for LocalSpawnScope<'sc, T> {
    fn default() -> (scope: Self)
        ensures
            scope@ == (ScopeState::<T> { live: 0, results: Seq::empty(), owed: 0 }),
            scope.diary() == Seq::<ScopeStep<'sc, T>>::empty(),
    {
        Self::new()
    }
}

/// Spawns futures onto a [`LocalSpawnScope`].
///
/// A spawner may outlive its scope; what is spawned after the scope was cancelled, sealed or closed
/// is refused with the shutdown error.
#[verifier::reject_recursive_types(T)]
pub struct LocalSpawnScopeSpawner<'sc, T> {
    scope: Mailbox<LocalFutureObj<'sc, T>>,
}

impl<'sc, T> Clone for LocalSpawnScopeSpawner<'sc, T> {
    fn clone(&self) -> (spawner: Self)
        ensures
            spawner.pad() == self.pad(),
    {
        LocalSpawnScopeSpawner { scope: self.scope.share() }
    }
}

impl<'sc, T> LocalSpawnScopeSpawner<'sc, T> {
    /// The pad that this spawner shares with its scope.
    pub closed spec fn pad(&self) -> SharedPad<'sc, T> {
        self.scope.pad()
    }

    /// The scope is one that is ended, be it before now or after.
    pub open spec fn ended(&self) -> bool {
        self.pad().ended()
    }

    /// Leaves `future` on the shared pad and wakes the task that polls the scope, if it asked for
    /// that. The future is refused only if the scope was ended. The answer is that of one delivery
    /// of this future to the pad; what it did there, and who was woken, [`is_delivered`] tells.
    pub fn spawn_scoped_local_obj(&self, future: LocalFutureObj<'sc, T>) -> (result: Result<
        (),
        SpawnError,
    >)
        ensures
            result is Err ==> self.ended(),
            exists|delivery: Delivery<LocalFutureObj<'sc, T>, T>| #[trigger]
                is_delivered(self.pad(), future, delivery) && delivery.result == result,
    {
        let delivery: Delivery<LocalFutureObj<'sc, T>, T> = self.scope.deliver(future);
        assert(is_delivered(self.pad(), future, delivery));
        delivery.result
    }
}

impl<'sc, T> ScopedSpawn<'sc, T> for LocalSpawnScopeSpawner<'sc, T> {
    fn spawn_obj_scoped(&self, future: FutureObj<'sc, T>) -> (result: Result<(), SpawnError>)
        ensures
            result is Err ==> self.ended(),
            exists|
                local: LocalFutureObj<'sc, T>,
                delivery: Delivery<LocalFutureObj<'sc, T>, T>,
            | #[trigger]
                is_delivered(self.pad(), local, delivery) && delivery.result == result,
    {
        self.spawn_scoped_local_obj(localize(future))
    }

    fn status_scoped(&self) -> (status: Result<(), SpawnError>)
        ensures
            status is Err ==> self.ended(),
            exists|delivery: Delivery<LocalFutureObj<'sc, T>, T>| #[trigger]
                is_asked(self.pad(), delivery) && delivery.result == status,
    {
        let delivery: Delivery<LocalFutureObj<'sc, T>, T> = self.scope.status();
        assert(is_asked(self.pad(), delivery));
        delivery.result
    }
}

} // verus!

//! The futures that drive a local scope.
//!
//! Each is polled in turns. A future on the scope may spawn others without end, so a poll gets a
//! number of turns and says so when they did not suffice; polling again goes on from there.

use std::task::{Context, Waker};

use vstd::prelude::*;

use crate::local::diary::{
    course_does, course_goes, drain_steps, found_nothing, is_idle_poll, join_steps,
    lemma_course_concat, lemma_course_stays, lemma_join_counts, lemma_single_counts, look_count,
    pad_will_wake, poll_count, poll_verdict, steps_between, ScopeState, Step,
};
use crate::local::drive::{
    drive_goes, idle_after, lemma_drive_drain, lemma_drive_step, nothing_taken_in,
    something_taken_in, Drive,
};
use crate::local::incoming::{incoming_drained, incoming_futures, incoming_registered};
use crate::local::scope::{LocalSpawnScope, ScopeStep};
use crate::local::task_set::{Awaited, ScopeIncoming};
use crate::task::{task_behind, task_polled, Progress};

verus! {

/// Polls a scope until a future of its own is ready.
#[verifier::reject_recursive_types(T)]
#[verifier::reject_recursive_types(O)]
pub struct Until<'s, 'sc, 'f, T, O> {
    pub scope: &'s mut LocalSpawnScope<'sc, T>,
    pub awaited: Awaited<'f, O>,
}

/// Polls a scope until no future on it can make progress.
#[verifier::reject_recursive_types(T)]
pub struct UntilStalled<'s, 'sc, T> {
    pub scope: &'s mut LocalSpawnScope<'sc, T>,
    pub polled_once: bool,
}

/// Polls a scope until all futures on it are finished.
#[verifier::reject_recursive_types(T)]
pub struct UntilEmpty<'s, 'sc, T> {
    pub scope: &'s mut LocalSpawnScope<'sc, T>,
}

/// What polling the futures that were taken in comes to once a poll came to `polled`: `None`, to
/// poll again, if a future has finished.
pub open spec fn empty_answer(polled: Progress<Option<()>>) -> Option<Progress<()>> {
    match polled {
        Progress::Ready(Some(_)) => None,
        Progress::Ready(None) => Some(Progress::Ready(())),
        Progress::Pending => Some(Progress::Pending),
    }
}

/// The poll `step` has ended the polling of those that were taken in, with `outcome`.
pub open spec fn poll_answers<F, T>(step: Step<F, T>, outcome: Progress<()>) -> bool {
    step matches Step::Polled { outcome: polled, .. } && empty_answer(poll_verdict(polled)) == Some(
        outcome,
    )
}

impl<'s, 'sc, T> UntilEmpty<'s, 'sc, T> {
    /// Polls the futures that the scope has taken in, one poll after the other, until none of them
    /// finishes any more. `Ready` says that none is left.
    pub fn poll_taken_in(&mut self, cx: &mut Context<'_>) -> (outcome: Progress<()>)
        ensures
            *final(final(self).scope) == *final(old(self).scope),
            final(self).scope.pad() == old(self).scope.pad(),
            task_polled(*final(cx)) == task_polled(*old(cx)),
            course_goes(old(self).scope.course(), final(self).scope.course()),
            ({
                let steps = steps_between(old(self).scope.course(), final(self).scope.course());
                &&& steps.len() > 0
                &&& drive_goes(Drive::Empty, old(self).scope@, steps, task_polled(*old(cx)))
                &&& look_count(steps) == 0
                &&& poll_count(steps) == steps.len()
                &&& poll_answers(steps.last(), outcome)
                &&& is_idle_poll(steps.last(), task_polled(*old(cx)))
            }),
            outcome is Ready ==> final(self).scope@.live == 0,
    {
        let ghost start = self.scope.course();
        let ghost task = task_polled(*cx);
        proof {
            lemma_course_stays(start);
        }
        loop
            invariant
                *final(self.scope) == *final(old(self).scope),
                self.scope.pad() == old(self).scope.pad(),
                start == old(self).scope.course(),
                task == task_polled(*old(cx)),
                task_polled(*cx) == task,
                course_goes(start, self.scope.course()),
                ({
                    let steps = steps_between(start, self.scope.course());
                    &&& drive_goes(Drive::Empty, start.state, steps, task)
                    &&& look_count(steps) == 0
                    &&& poll_count(steps) == steps.len()
                    &&& steps.len() > 0 ==> steps.last() is Polled && !is_idle_poll(
                        steps.last(),
                        task,
                    )
                }),
            decreases self.scope@.live,
        {
            let ghost before = self.scope.course();
            let polled = self.scope.poll_once(cx);
            proof {
                let steps = steps_between(start, before);
                let step = steps_between(before, self.scope.course())[0];
                assert(steps_between(before, self.scope.course()) =~= seq![step]);
                lemma_course_concat(start, before, self.scope.course());
                lemma_drive_step(Drive::Empty, start.state, steps, step, task);
            }
            match Self::answer(polled) {
                Some(outcome) => {
                    return outcome;
                },
                None => {},
            }
        }
    }

    /// What polling the futures that were taken in comes to once a poll came to `polled`: `None`,
    /// to poll again, if a future has finished.
    pub fn answer(polled: Progress<Option<()>>) -> (outcome: Option<Progress<()>>)
        ensures
            outcome == empty_answer(polled),
    {
        match polled {
            Progress::Ready(Some(_)) => None,
            Progress::Ready(None) => Some(Progress::Ready(())),
            Progress::Pending => Some(Progress::Pending),
        }
    }

    /// Decides what to do after the futures that were taken in came to `outcome`: `None` if more
    /// futures wait on the given pad, which are then taken in and have to be polled as well, else
    /// the outcome. If that is pending, the pad is asked to wake `waker` at the next spawn.
    pub fn settle(
        &mut self,
        outcome: Progress<()>,
        incoming: &mut ScopeIncoming<'sc, T>,
        waker: Waker,
    ) -> (verdict: Option<Progress<()>>)
        ensures
            *final(final(self).scope) == *final(old(self).scope),
            final(self).scope.pad() == old(self).scope.pad(),
            course_does(
                old(self).scope.course(),
                final(self).scope.course(),
                join_steps(incoming_futures(old(incoming)@)),
            ),
            incoming_futures(old(incoming)@).len() > 0 ==> {
                &&& verdict is None
                &&& final(incoming)@ == incoming_drained(old(incoming)@)
            },
            incoming_futures(old(incoming)@).len() == 0 ==> {
                &&& verdict == Some(outcome)
                &&& final(self).scope@ == old(self).scope@
                &&& final(incoming)@ == (match outcome {
                    Progress::Ready(_) => incoming_drained(old(incoming)@),
                    Progress::Pending => incoming_registered(
                        incoming_drained(old(incoming)@),
                        waker,
                    ),
                })
            },
    {
        if self.scope.drain_from(incoming) {
            return None;
        }
        assert(join_steps::<_, T>(incoming_futures(old(incoming)@)) =~= Seq::<
            ScopeStep<'sc, T>,
        >::empty());
        match outcome {
            Progress::Ready(_) => {},
            Progress::Pending => {
                incoming.register(waker);
            },
        }
        Some(outcome)
    }

    /// Polls the scope for at most `turns` rounds: in each, the futures that were taken in are
    /// polled as far as they go, and then what waits on the shared pad is taken in. `None` says
    /// that after the last round there was still more. If the answer is pending, the next spawn
    /// wakes the task behind `cx`.
    pub fn poll(&mut self, cx: &mut Context<'_>, turns: usize) -> (progress: Option<Progress<()>>)
        ensures
            *final(final(self).scope) == *final(old(self).scope),
            final(self).scope.pad() == old(self).scope.pad(),
            course_goes(old(self).scope.course(), final(self).scope.course()),
            ({
                let steps = steps_between(old(self).scope.course(), final(self).scope.course());
                let task = task_polled(*old(cx));
                let n = steps.len() as int;
                &&& drive_goes(Drive::Empty, old(self).scope@, steps, task)
                &&& match progress {
                    Some(outcome) => {
                        &&& look_count(steps) <= turns
                        &&& n >= 3
                        &&& found_nothing(steps[n - 2])
                        &&& poll_answers(steps[n - 3], outcome)
                        &&& outcome is Pending ==> (steps[n - 1] matches Step::Left { pad }
                            && pad_will_wake(pad, task))
                    },
                    None => {
                        &&& look_count(steps) == turns
                        &&& turns > 0 ==> something_taken_in(steps)
                        &&& turns == 0 ==> steps.len() == 0
                    },
                }
            }),
            progress == Some(Progress::Ready(())) ==> final(self).scope@.live == 0,
    {
        let ghost start = self.scope.course();
        let ghost task = task_polled(*cx);
        let mut turn: usize = 0;
        proof {
            lemma_course_stays(start);
        }
        while turn < turns
            invariant
                turn <= turns,
                *final(self.scope) == *final(old(self).scope),
                self.scope.pad() == old(self).scope.pad(),
                start == old(self).scope.course(),
                task == task_polled(*old(cx)),
                task_polled(*cx) == task,
                course_goes(start, self.scope.course()),
                ({
                    let steps = steps_between(start, self.scope.course());
                    &&& drive_goes(Drive::Empty, start.state, steps, task)
                    &&& look_count(steps) == turn
                    &&& turn == 0 ==> steps.len() == 0
                    &&& turn > 0 ==> something_taken_in(steps)
                }),
            decreases turns - turn,
        {
            let ghost begun = self.scope.course();
            let outcome = self.poll_taken_in(cx);
            let ghost polled = self.scope.course();
            let mut incoming = self.scope.borrow_pad();
            let ghost pad = incoming@;
            let ghost found = self.scope.course();
            let waker = cx.waker().clone();
            let verdict = self.settle(outcome, &mut incoming, waker);
            let ghost left = incoming@;
            let ghost joined = self.scope.course();
            self.scope.return_pad(incoming);
            proof {
                let done = steps_between(start, begun);
                let polls = steps_between(begun, polled);
                lemma_course_concat(start, begun, polled);
                lemma_empty_goes_on(start.state, done, begun.state, polls, task);
                lemma_course_concat(start, polled, found);
                lemma_course_concat(start, found, joined);
                lemma_course_concat(start, joined, self.scope.course());
                lemma_drive_drain(Drive::Empty, start.state, done + polls, pad, left, task);
                lemma_single_counts(Step::<_, T>::Found { pad });
                lemma_single_counts(Step::<_, T>::Left { pad: left });
                lemma_join_counts::<_, T>(incoming_futures(pad));
            }
            if verdict.is_some() {
                proof {
                    let steps = steps_between(start, self.scope.course());
                    assert(steps[steps.len() - 3] == steps_between(begun, polled).last());
                }
                return verdict;
            }
            turn = turn + 1;
        }
        None
    }
}

/// Polls that go by the rules from the beginning go by them where the scope may go on polling.
proof fn lemma_empty_goes_on<F, T>(
    start: ScopeState<T>,
    done: Seq<Step<F, T>>,
    begun: ScopeState<T>,
    polls: Seq<Step<F, T>>,
    task: Option<nat>,
)
    requires
        drive_goes(Drive::Empty, start, done, task),
        done.len() == 0 || something_taken_in(done),
        drive_goes(Drive::Empty, begun, polls, task),
        poll_count(polls) == polls.len(),
    ensures
        drive_goes(Drive::Empty, start, done + polls, task),
    decreases polls.len(),
{
    if polls.len() == 0 {
        assert(done + polls =~= done);
    } else {
        lemma_poll_count_bound(polls.drop_last());
        lemma_empty_goes_on(start, done, begun, polls.drop_last(), task);
        lemma_drive_step(Drive::Empty, start, done + polls.drop_last(), polls.last(), task);
        assert(done + polls =~= done + polls.drop_last() + seq![polls.last()]);
        if polls.len() > 1 {
            assert((done + polls.drop_last()).last() == polls.drop_last().last());
        } else {
            assert(done + polls.drop_last() =~= done);
        }
    }
}

/// There are no more polls than steps.
proof fn lemma_poll_count_bound<F, T>(steps: Seq<Step<F, T>>)
    ensures
        poll_count(steps) <= steps.len(),
    decreases steps.len(),
{
    if steps.len() > 0 {
        lemma_poll_count_bound(steps.drop_last());
    }
}

impl<'s, 'sc, T> UntilStalled<'s, 'sc, T> {
    /// Whether the scope is stalled, given whether futures were just taken in: it is if there were
    /// none and the scope has been polled as far as it goes.
    pub fn is_stalled(&self, drained: bool) -> (stalled: bool)
        ensures
            stalled <==> !drained && self.polled_once,
    {
        !drained && self.polled_once
    }

    /// Takes note of a poll that came to `polled`: the scope has been polled as far as it goes if
    /// no future has finished and every future has had its turn.
    pub fn note(&mut self, polled: Progress<Option<()>>)
        ensures
            *final(self).scope == *old(self).scope,
            *final(final(self).scope) == *final(old(self).scope),
            final(self).polled_once <==> empty_answer(polled) is Some && old(self).scope@.owed == 0,
    {
        self.polled_once = match polled {
            Progress::Ready(Some(_)) => false,
            _ => self.scope.has_had_round(),
        };
    }

    /// Polls the scope for at most `turns` rounds: in each, what waits on the shared pad is taken
    /// in, and then the futures of the scope are polled once, with a waker that does nothing.
    /// `None` says that the scope was not stalled yet.
    pub fn poll(&mut self, turns: usize) -> (progress: Option<Progress<()>>)
        ensures
            *final(final(self).scope) == *final(old(self).scope),
            final(self).scope.pad() == old(self).scope.pad(),
            course_goes(old(self).scope.course(), final(self).scope.course()),
            progress is None || progress == Some(Progress::Ready(())),
            ({
                let steps = steps_between(old(self).scope.course(), final(self).scope.course());
                let drive = Drive::Stalled { polled_once: old(self).polled_once };
                &&& drive_goes(drive, old(self).scope@, steps, None)
                &&& final(self).polled_once == idle_after(
                    old(self).polled_once,
                    old(self).scope@,
                    steps,
                )
                &&& match progress {
                    Some(_) => {
                        &&& poll_count(steps) < turns
                        &&& nothing_taken_in(steps)
                        &&& final(self).polled_once
                    },
                    None => {
                        &&& poll_count(steps) == turns
                        &&& turns > 0 ==> steps.len() > 0 && steps.last() is Polled
                        &&& turns == 0 ==> steps.len() == 0
                    },
                }
            }),
    {
        let ghost start = self.scope.course();
        let ghost drive = Drive::Stalled { polled_once: self.polled_once };
        let waker = futures::task::noop_waker();
        let mut turn: usize = 0;
        proof {
            lemma_course_stays(start);
        }
        while turn < turns
            invariant
                turn <= turns,
                *final(self.scope) == *final(old(self).scope),
                self.scope.pad() == old(self).scope.pad(),
                start == old(self).scope.course(),
                drive == (Drive::Stalled { polled_once: old(self).polled_once }),
                task_behind(waker) is None,
                course_goes(start, self.scope.course()),
                ({
                    let steps = steps_between(start, self.scope.course());
                    &&& drive_goes(drive, start.state, steps, None)
                    &&& self.polled_once == idle_after(
                        old(self).polled_once,
                        start.state,
                        steps,
                    )
                    &&& poll_count(steps) == turn
                    &&& turn == 0 ==> steps.len() == 0
                    &&& turn > 0 ==> steps.len() > 0 && steps.last() is Polled
                }),
            decreases turns - turn,
        {
            let ghost begun = self.scope.course();
            let drained = self.scope.drain_incoming();
            let ghost looked = self.scope.course();
            proof {
                let done = steps_between(start, begun);
                let pad = steps_between(begun, looked)[0]->Found_pad;
                lemma_course_concat(start, begun, looked);
                lemma_drive_drain(
                    drive,
                    start.state,
                    done,
                    pad,
                    incoming_drained(pad),
                    None,
                );
            }
            if self.is_stalled(drained) {
                return Some(Progress::Ready(()));
            }
            let mut cx = Context::from_waker(&waker);
            let polled = self.scope.poll_once(&mut cx);
            proof {
                let done = steps_between(start, looked);
                let step = steps_between(looked, self.scope.course())[0];
                assert(steps_between(looked, self.scope.course()) =~= seq![step]);
                lemma_course_concat(start, looked, self.scope.course());
                lemma_drive_step(drive, start.state, done, step, None);
            }
            self.note(polled);
            turn = turn + 1;
        }
        None
    }
}

impl<'s, 'sc, 'f, T, O> Until<'s, 'sc, 'f, T, O> {
    /// Whether the awaited future has given its value. It is then not to be polled again.
    pub fn is_done(&self) -> (done: bool)
        ensures
            done == self.awaited.done(),
    {
        self.awaited.is_done()
    }

    /// Decides what to do after the awaited future was pending. If futures wait on the given pad,
    /// they are taken in and have to be polled before anything is answered, which `None` says. Else
    /// the answer is pending, and the pad is asked to wake `waker` at the next spawn.
    pub fn settle(
        &mut self,
        incoming: &mut ScopeIncoming<'sc, T>,
        waker: Waker,
    ) -> (verdict: Option<Progress<O>>)
        ensures
            *final(final(self).scope) == *final(old(self).scope),
            final(self).scope.pad() == old(self).scope.pad(),
            final(self).awaited == old(self).awaited,
            course_does(
                old(self).scope.course(),
                final(self).scope.course(),
                join_steps(incoming_futures(old(incoming)@)),
            ),
            incoming_futures(old(incoming)@).len() > 0 ==> {
                &&& verdict is None
                &&& final(incoming)@ == incoming_drained(old(incoming)@)
            },
            incoming_futures(old(incoming)@).len() == 0 ==> {
                &&& verdict == Some(Progress::<O>::Pending)
                &&& final(incoming)@ == incoming_registered(
                    incoming_drained(old(incoming)@),
                    waker,
                )
            },
    {
        if self.scope.drain_from(incoming) {
            return None;
        }
        incoming.register(waker);
        Some(Progress::Pending)
    }

    /// Polls the scope for at most `turns` rounds, and the awaited future whenever the scope is
    /// idle. In each round what waits on the shared pad is taken in and the futures of the scope
    /// are polled once; the scope is idle when none of them finishes and each has had its turn.
    /// `None` says that nothing can be answered yet. If the answer is pending, the next spawn wakes
    /// the task behind `cx`.
    #[verifier::rlimit(60)]
    pub fn poll(&mut self, cx: &mut Context<'_>, turns: usize) -> (progress: Option<Progress<O>>)
        requires
            old(self).awaited.wf(),
            !old(self).awaited.done(),
        ensures
            *final(final(self).scope) == *final(old(self).scope),
            final(self).scope.pad() == old(self).scope.pad(),
            final(self).awaited.wf(),
            final(self).awaited.done() <==> progress is Some && progress->0 is Ready,
            old(self).awaited.answers().is_prefix_of(final(self).awaited.answers()),
            course_goes(old(self).scope.course(), final(self).scope.course()),
            ({
                let steps = steps_between(old(self).scope.course(), final(self).scope.course());
                let task = task_polled(*old(cx));
                &&& until_begins(steps, turns > 0)
                &&& drive_goes(Drive::Until, old(self).scope@, steps, task)
                &&& match progress {
                    Some(outcome) => {
                        &&& poll_count(steps) <= turns
                        &&& until_ends(steps, outcome is Ready, task)
                        &&& final(self).awaited.answers().len() > old(self).awaited.answers().len()
                        &&& final(self).awaited.answers().last() == outcome
                    },
                    None => {
                        &&& poll_count(steps) == turns
                        &&& turns > 0 ==> until_goes_on(old(self).scope@, steps)
                        &&& turns == 0 ==> steps.len() == 0
                    },
                }
            }),
    {
        let ghost start = self.scope.course();
        let ghost task = task_polled(*cx);
        let waker = cx.waker().clone();
        let mut turn: usize = 0;
        proof {
            lemma_course_stays(start);
        }
        while turn < turns
            invariant
                turn <= turns,
                *final(self.scope) == *final(old(self).scope),
                self.scope.pad() == old(self).scope.pad(),
                start == old(self).scope.course(),
                task == task_polled(*old(cx)),
                task_polled(*cx) == task,
                task_behind(waker) == task,
                self.awaited.wf(),
                !self.awaited.done(),
                old(self).awaited.answers().is_prefix_of(self.awaited.answers()),
                course_goes(start, self.scope.course()),
                ({
                    let steps = steps_between(start, self.scope.course());
                    &&& until_begins(steps, turn > 0)
                    &&& drive_goes(Drive::Until, start.state, steps, task)
                    &&& poll_count(steps) == turn
                    &&& turn == 0 ==> steps.len() == 0
                    &&& turn > 0 ==> until_goes_on(start.state, steps)
                }),
            decreases turns - turn,
        {
            let ghost begun = self.scope.course();
            self.scope.drain_incoming();
            let ghost looked = self.scope.course();
            proof {
                let pad = steps_between(begun, looked)[0]->Found_pad;
                let done = steps_between(start, begun);
                lemma_course_concat(start, begun, looked);
                lemma_drive_drain(
                    Drive::Until,
                    start.state,
                    done,
                    pad,
                    incoming_drained(pad),
                    task,
                );
                if turn == 0 {
                    assert(steps_between(start, looked) =~= drain_steps(pad));
                }
            }
            let polled = self.scope.poll_once(cx);
            let ghost after_poll = self.scope.course();
            proof {
                let done = steps_between(start, looked);
                let step = steps_between(looked, after_poll)[0];
                assert(steps_between(looked, after_poll) =~= seq![step]);
                lemma_course_concat(start, looked, after_poll);
                lemma_drive_step(Drive::Until, start.state, done, step, task);
            }
            turn = turn + 1;
            if UntilEmpty::<T>::answer(polled).is_some() && self.scope.has_had_round() {
                let mut cx_awaited = Context::from_waker(&waker);
                let outcome = self.scope.poll_awaited(&mut self.awaited, &mut cx_awaited);
                let ghost asked = self.scope.course();
                proof {
                    let done = steps_between(start, after_poll);
                    let step = ScopeStep::<'sc, T>::Awaited { task, ready: outcome is Ready };
                    lemma_course_concat(start, after_poll, asked);
                    lemma_drive_step(Drive::Until, start.state, done, step, task);
                    lemma_single_counts(step);
                }
                match outcome {
                    Progress::Ready(value) => {
                        return Some(Progress::Ready(value));
                    },
                    Progress::Pending => {},
                }
                let mut incoming = self.scope.borrow_pad();
                let ghost pad = incoming@;
                let ghost found = self.scope.course();
                let verdict = self.settle(&mut incoming, waker.clone());
                let ghost left = incoming@;
                let ghost joined = self.scope.course();
                self.scope.return_pad(incoming);
                proof {
                    let done = steps_between(start, asked);
                    lemma_course_concat(start, asked, found);
                    lemma_course_concat(start, found, joined);
                    lemma_course_concat(start, joined, self.scope.course());
                    lemma_drive_drain(Drive::Until, start.state, done, pad, left, task);
                    lemma_single_counts(Step::<_, T>::Found { pad });
                    lemma_single_counts(Step::<_, T>::Left { pad: left });
                    lemma_join_counts::<_, T>(incoming_futures(pad));
                    if verdict is Some {
                        let steps = steps_between(start, self.scope.course());
                        assert(steps[steps.len() - 3] == done.last());
                    }
                }
                if verdict.is_some() {
                    return verdict;
                }
            }
        }
        None
    }
}

/// The steps begin with taking in all that waits on the shared pad, if they begin at all.
pub open spec fn until_begins<F, T>(steps: Seq<Step<F, T>>, begun: bool) -> bool {
    begun ==> {
        &&& steps.len() > 0
        &&& steps[0] matches Step::Found { pad }
        &&& drain_steps::<F, T>(pad).is_prefix_of(steps)
    }
}

/// After these steps there is more to do before the awaited future is polled.
pub open spec fn until_goes_on<F, T>(
    scope: ScopeState<T>,
    steps: Seq<Step<F, T>>,
) -> bool {
    ||| steps.len() > 0 && steps.last() is Polled && !idle_after(false, scope, steps)
    ||| something_taken_in(steps)
}

/// The steps end with a poll of the awaited future. If it was pending, there is nothing on the
/// shared pad, and the next spawn wakes `task`.
pub open spec fn until_ends<F, T>(steps: Seq<Step<F, T>>, ready: bool, task: Option<nat>) -> bool {
    let n = steps.len() as int;
    if ready {
        n > 0 && steps[n - 1] == Step::<F, T>::Awaited { task, ready: true }
    } else {
        &&& n >= 3
        &&& steps[n - 3] == Step::<F, T>::Awaited { task, ready: false }
        &&& found_nothing(steps[n - 2])
        &&& steps[n - 1] matches Step::Left { pad }
        &&& pad_will_wake(pad, task)
    }
}

} // verus!

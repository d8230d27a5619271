//! The futures that a local scope polls: those that it has taken in and not finished yet, and the
//! one that somebody waits for.

use std::rc::Rc;
use std::task::{Context, Poll, Waker};

use futures::stream::FuturesUnordered;
use futures::task::LocalFutureObj;
use futures::{FutureExt, StreamExt};
use vstd::prelude::*;

use crate::local::diary::Step;
use crate::local::incoming::Incoming;
use crate::local::shared::{PadHolder, SharedIncoming};
use crate::task::{task_polled, Progress};

verus! {

/// The pad of a scope with futures that yield `T`.
pub type ScopeIncoming<'sc, T> = Incoming<LocalFutureObj<'sc, T>, Waker>;

/// The pad that a scope and its spawners share.
pub type SharedPad<'sc, T> = Rc<SharedIncoming<LocalFutureObj<'sc, T>>>;

/// `futures::stream::FuturesUnordered`: a set of futures that are polled together.
#[verifier::external_type_specification]
#[verifier::external_body]
#[verifier::reject_recursive_types(Fut)]
pub struct ExFuturesUnordered<Fut>(FuturesUnordered<Fut>);

/// `FuturesUnordered::new` makes a set without members.
#[verifier::external_body]
fn new_set<'sc, T>() -> (set: FuturesUnordered<LocalFutureObj<'sc, T>>) {
    FuturesUnordered::new()
}

/// A future that somebody waits for, and what it has answered so far.
#[verifier::reject_recursive_types(O)]
pub struct Awaited<'f, O> {
    future: LocalFutureObj<'f, O>,
    done: bool,
    answers: Ghost<Seq<Progress<O>>>,
}

impl<'f, O> Awaited<'f, O> {
    /// What the future has answered, each time that it was polled.
    pub closed spec fn answers(&self) -> Seq<Progress<O>> {
        self.answers@
    }

    /// The future has given its value.
    pub closed spec fn done(&self) -> bool {
        self.done
    }

    /// Whether the future has given its value is known rightly.
    pub closed spec fn wf(&self) -> bool {
        self.done <==> self.answers@.len() > 0 && self.answers@.last() is Ready
    }

    /// A future that was not polled yet.
    pub fn new(future: LocalFutureObj<'f, O>) -> (awaited: Self)
        ensures
            awaited.wf(),
            !awaited.done(),
            awaited.answers() == Seq::<Progress<O>>::empty(),
    {
        Awaited { future, done: false, answers: Ghost(Seq::empty()) }
    }

    /// Whether the future has given its value. It is then not to be polled again.
    pub fn is_done(&self) -> (done: bool)
        ensures
            done == self.done(),
    {
        self.done
    }
}

/// The futures that a scope has taken in, the pad from which it takes them, and the diary of what
/// it did with them.
///
/// The futures are in a `FuturesUnordered`. Beside it stands the number of its members as its
/// `len` gave it after the last change.
#[verifier::reject_recursive_types(T)]
pub struct TaskSet<'sc, T> {
    futures: FuturesUnordered<LocalFutureObj<'sc, T>>,
    live: usize,
    holder: PadHolder<LocalFutureObj<'sc, T>, T>,
}

impl<'sc, T> TaskSet<'sc, T> {
    /// How many futures are in the set.
    pub closed spec fn live(&self) -> nat {
        self.live as nat
    }

    /// The pad that is shared with the spawners.
    pub closed spec fn pad(&self) -> SharedPad<'sc, T> {
        self.holder.pad()
    }

    /// What was done, step by step.
    pub closed spec fn diary(&self) -> Seq<Step<LocalFutureObj<'sc, T>, T>> {
        self.holder.diary()
    }

    /// A set without members, and a pad without futures.
    pub(crate) fn new() -> (set: Self)
        ensures
            set.live() == 0,
            set.diary() == Seq::<Step<LocalFutureObj<'sc, T>, T>>::empty(),
    {
        let holder = PadHolder::new(Rc::new(SharedIncoming::new()));
        TaskSet { futures: new_set(), live: 0, holder }
    }

    /// The pad, for a spawner.
    pub(crate) fn share(&self) -> (shared: SharedPad<'sc, T>)
        ensures
            shared == self.pad(),
    {
        self.holder.share()
    }

    /// How many futures are in the set.
    pub(crate) fn len(&self) -> (len: usize)
        ensures
            len == self.live(),
    {
        self.live
    }

    /// Takes what is on the shared pad off it; see [`PadHolder::find`].
    pub(crate) fn find(&mut self) -> (incoming: ScopeIncoming<'sc, T>)
        ensures
            final(self).pad() == old(self).pad(),
            final(self).live() == old(self).live(),
            final(self).diary() == old(self).diary().push(Step::Found { pad: incoming@ }),
            incoming@ is None ==> final(self).pad().ended(),
    {
        self.holder.find()
    }

    /// Leaves a pad where it is shared; see [`PadHolder::leave`].
    pub(crate) fn leave(&mut self, incoming: ScopeIncoming<'sc, T>)
        ensures
            final(self).pad() == old(self).pad(),
            final(self).live() == old(self).live(),
            final(self).diary() == old(self).diary().push(Step::Left { pad: incoming@ }),
            incoming@ is None ==> final(self).pad().ended(),
    {
        self.holder.leave(incoming);
    }

    /// `FuturesUnordered::push` adds one member and polls nothing.
    #[verifier::external_body]
    pub(crate) fn push(&mut self, future: LocalFutureObj<'sc, T>)
        ensures
            final(self).pad() == old(self).pad(),
            final(self).live() == old(self).live() + 1,
            final(self).diary() == old(self).diary().push(Step::TakenIn { future }),
    {
        self.futures.push(future);
        self.live = self.futures.len();
    }

    /// `FuturesUnordered::clear` drops all members.
    #[verifier::external_body]
    pub(crate) fn clear(&mut self)
        ensures
            final(self).pad() == old(self).pad(),
            final(self).live() == 0,
            final(self).diary() == old(self).diary().push(Step::Dropped),
    {
        self.futures.clear();
        self.live = self.futures.len();
    }

    /// `FuturesUnordered::poll_next` polls members that were woken, or never polled yet. If one of
    /// them has a value, that member leaves the set and the value comes back. If the answer is
    /// that there is nothing to wait for, the set is empty. If it is pending, no member has left.
    /// The members are polled with contexts of the set's own, so that the given one stays as it is.
    /// The diary tells for whom the set was polled and what came of it.
    ///
    /// Which members are polled, and what their values are, is up to them and to their wakers and
    /// is not claimed. Nor is it claimed that an empty set never answers pending: it may, while
    /// another thread is in the middle of waking a member that is already gone.
    #[verifier::external_body]
    pub(crate) fn poll_next(&mut self, cx: &mut Context<'_>) -> (outcome: Progress<Option<T>>)
        ensures
            final(self).pad() == old(self).pad(),
            match outcome {
                Progress::Ready(Some(_)) => final(self).live() + 1 == old(self).live(),
                Progress::Ready(None) => old(self).live() == 0 && final(self).live() == 0,
                Progress::Pending => final(self).live() == old(self).live(),
            },
            final(self).diary() == old(self).diary().push(
                Step::Polled { task: task_polled(*old(cx)), outcome },
            ),
            task_polled(*final(cx)) == task_polled(*old(cx)),
    {
        self.live = self.futures.len();
        let outcome = self.futures.poll_next_unpin(cx);
        self.live = self.futures.len();
        match outcome {
            Poll::Ready(item) => Progress::Ready(item),
            Poll::Pending => Progress::Pending,
        }
    }

    /// `LocalFutureObj::poll` runs the future until it has a value or has to wait. Which of the two
    /// happens, and with what value, is up to the future, and so is what it does to the context. A
    /// future that has given its value may panic when it is polled again.
    #[verifier::external_body]
    fn poll_obj<'f, O>(&mut self, awaited: &mut Awaited<'f, O>, cx: &mut Context<'_>) -> (outcome:
        Progress<O>)
        requires
            old(awaited).wf(),
            !old(awaited).done(),
        ensures
            final(self).pad() == old(self).pad(),
            final(self).live() == old(self).live(),
            final(self).diary() == old(self).diary().push(
                Step::Awaited { task: task_polled(*old(cx)), ready: outcome is Ready },
            ),
            final(awaited).done() == old(awaited).done(),
            final(awaited).answers() == old(awaited).answers().push(outcome),
    {
        match awaited.future.poll_unpin(cx) {
            Poll::Ready(value) => Progress::Ready(value),
            Poll::Pending => Progress::Pending,
        }
    }

    /// Polls a future that somebody waits for, and notes it if it has given its value.
    pub(crate) fn poll_awaited<'f, O>(
        &mut self,
        awaited: &mut Awaited<'f, O>,
        cx: &mut Context<'_>,
    ) -> (outcome: Progress<O>)
        requires
            old(awaited).wf(),
            !old(awaited).done(),
        ensures
            final(awaited).wf(),
            final(self).pad() == old(self).pad(),
            final(self).live() == old(self).live(),
            final(self).diary() == old(self).diary().push(
                Step::Awaited { task: task_polled(*old(cx)), ready: outcome is Ready },
            ),
            final(awaited).done() <==> outcome is Ready,
            final(awaited).answers() == old(awaited).answers().push(outcome),
    {
        let outcome = self.poll_obj(awaited, cx);
        awaited.done = match &outcome {
            Progress::Ready(_) => true,
            Progress::Pending => false,
        };
        outcome
    }
}

} // verus!

//! The place where a scope and its spawners meet, and the hands in which each of them holds it.
//!
//! It is a pad that either side may write to at any time, and a mark that the scope has ended.
//! What lies on the pad changes behind the back of each holder; the mark, once made, stays. So a
//! holder keeps a diary of what it found there and what it left there.

use std::cell::{Cell, OnceCell};
use std::rc::Rc;
use std::task::Waker;

use futures::task::SpawnError;
use vstd::prelude::*;

use crate::local::alarm::Alarm;
use crate::local::diary::Step;
use crate::local::incoming::{incoming_spawn, pad_new, Incoming, IncomingPad};
use crate::task::task_behind;

verus! {

/// `std::cell::Cell`: a place that several holders can write to. What it holds changes behind the
/// back of each of them.
#[verifier::external_type_specification]
#[verifier::external_body]
#[verifier::reject_recursive_types(T)]
pub struct ExCell<T: ?Sized>(Cell<T>);

/// `Cell::new` makes a place that holds `value`, until somebody writes to it.
pub assume_specification<T>[ Cell::<T>::new ](value: T) -> (cell: Cell<T>);

/// `std::cell::OnceCell`: a place that is written to once, by whichever holder comes first.
#[verifier::external_type_specification]
#[verifier::external_body]
#[verifier::reject_recursive_types(T)]
pub struct ExOnceCell<T>(OnceCell<T>);

/// `OnceCell::new` makes a place that nobody has written to.
pub assume_specification<T>[ OnceCell::<T>::new ]() -> (cell: OnceCell<T>);

/// `mark` is one that somebody makes, be it before now or after. That is learned only by making it
/// or by finding it made; that a mark is never made is not claimed of any.
pub uninterp spec fn is_marked(mark: OnceCell<()>) -> bool;

/// `OnceCell::set` writes to the place if nobody has, and else says that somebody has. Either way
/// the place is then written to.
#[verifier::external_body]
fn make_mark(mark: &OnceCell<()>) -> (result: Result<(), ()>)
    ensures
        result is Ok ==> is_marked(*mark),
        result is Err ==> is_marked(*mark),
{
    mark.set(())
}

/// A pad for futures of type `F` that is shared, and whether it is still in use.
#[verifier::reject_recursive_types(F)]
pub struct SharedIncoming<F> {
    pad: Cell<IncomingPad<F, Waker>>,
    ended: OnceCell<()>,
}

impl<F> SharedIncoming<F> {
    /// The pad is one that some holder takes out of use, be it before now or after.
    pub closed spec fn ended(&self) -> bool {
        is_marked(self.ended)
    }

    /// An empty pad in use.
    pub fn new() -> (shared: Self) {
        SharedIncoming { pad: Cell::new(IncomingPad::new()), ended: OnceCell::new() }
    }
}

/// One holder of a shared pad, with the diary of what it did there.
#[verifier::reject_recursive_types(F)]
#[verifier::reject_recursive_types(T)]
pub struct PadHolder<F, T> {
    shared: Rc<SharedIncoming<F>>,
    diary: Ghost<Seq<Step<F, T>>>,
    in_use: Ghost<Option<bool>>,
}

impl<F, T> PadHolder<F, T> {
    /// The pad.
    pub closed spec fn pad(&self) -> Rc<SharedIncoming<F>> {
        self.shared
    }

    /// What was done, step by step.
    pub closed spec fn diary(&self) -> Seq<Step<F, T>> {
        self.diary@
    }

    /// Whether the pad was in use when the mark was looked at, if it was since the pad was last
    /// taken off.
    pub closed spec fn in_use(&self) -> Option<bool> {
        self.in_use@
    }

    /// A holder of the given pad, which did nothing there yet.
    pub fn new(shared: Rc<SharedIncoming<F>>) -> (holder: Self)
        ensures
            holder.pad() == shared,
            holder.diary() == Seq::<Step<F, T>>::empty(),
    {
        PadHolder { shared, diary: Ghost(Seq::empty()), in_use: Ghost(None) }
    }

    /// The pad, for another holder.
    pub fn share(&self) -> (shared: Rc<SharedIncoming<F>>)
        ensures
            shared == self.pad(),
    {
        self.shared.clone()
    }

    /// `OnceCell::get` gives what the place of the mark holds, if it was written to. Whether it was
    /// by now is up to the other holders.
    #[verifier::external_body]
    fn find_mark(&mut self) -> (found: Option<()>)
        ensures
            final(self).pad() == old(self).pad(),
            final(self).diary() == old(self).diary(),
            final(self).in_use() == Some(found is None),
            found is Some ==> is_marked(old(self).shared.ended),
    {
        self.shared.ended.get().copied()
    }

    /// `Cell::replace` puts `left` into the place of the pad and hands out what was there, which is
    /// what the last holder has written. It is for a pad that was seen to be in use, and leaves an
    /// empty one behind.
    #[verifier::external_body]
    fn replace_pad(&mut self, left: IncomingPad<F, Waker>) -> (found: IncomingPad<F, Waker>)
        requires
            old(self).in_use() == Some(true),
            left@ == pad_new::<F, Waker>(),
        ensures
            final(self).pad() == old(self).pad(),
            final(self).diary() == old(self).diary().push(Step::Found { pad: Some(found@) }),
            final(self).in_use() is None,
    {
        self.shared.pad.replace(left)
    }

    /// `Cell::set` puts `pad` into the place of the pad and drops what was there.
    #[verifier::external_body]
    fn set_pad(&mut self, pad: IncomingPad<F, Waker>)
        ensures
            final(self).pad() == old(self).pad(),
            final(self).diary() == old(self).diary().push(Step::Left { pad: Some(pad@) }),
            final(self).in_use() == old(self).in_use(),
    {
        self.shared.pad.set(pad)
    }

    /// Takes what is on the pad off it, until it is left there again. There is no pad only if some
    /// holder has taken it out of use.
    pub fn find(&mut self) -> (incoming: Incoming<F, Waker>)
        ensures
            final(self).pad() == old(self).pad(),
            final(self).diary() == old(self).diary().push(Step::Found { pad: incoming@ }),
            incoming@ is None ==> final(self).pad().ended(),
    {
        match self.find_mark() {
            Some(_) => {
                self.diary = Ghost(self.diary@.push(Step::Found { pad: None }));
                Incoming::closed()
            },
            None => Incoming::over(self.replace_pad(IncomingPad::new())),
        }
    }

    /// Leaves a pad where it is shared. If that is no pad, the shared one is out of use.
    pub fn leave(&mut self, incoming: Incoming<F, Waker>)
        ensures
            final(self).pad() == old(self).pad(),
            final(self).diary() == old(self).diary().push(Step::Left { pad: incoming@ }),
            incoming@ is None ==> final(self).pad().ended(),
    {
        match incoming.into_pad() {
            Some(pad) => {
                self.set_pad(pad);
            },
            None => {
                match make_mark(&self.shared.ended) {
                    Ok(_) => {},
                    Err(_) => {},
                }
                self.diary = Ghost(self.diary@.push(Step::Left { pad: None }));
            },
        }
    }

    /// Leaves `future` on the pad. `Ok` holds the waker that the caller is to wake, if there is
    /// one; if the pad is out of use, the future is dropped and the shutdown error comes back.
    pub fn spawn(&mut self, future: F) -> (result: Result<Option<Waker>, SpawnError>)
        ensures
            final(self).pad() == old(self).pad(),
            ({
                let before = old(self).diary();
                let after = final(self).diary();
                &&& after.len() == before.len() + 2
                &&& after[before.len() as int] matches Step::Found { pad }
                &&& after == before.push(Step::Found { pad }).push(
                    Step::Left { pad: incoming_spawn(pad, future) },
                )
                &&& match pad {
                    Some(pad) => result matches Ok(woken) && woken == pad.waker,
                    None => result is Err,
                }
            }),
            result is Err ==> final(self).pad().ended(),
    {
        let mut incoming = self.find();
        let result = incoming.spawn(future);
        self.leave(incoming);
        result
    }

    /// Leaves `future` on the pad, behind what is there, and has `alarm` wake the task that asked to
    /// hear of it, if there is one. If the pad is out of use, the future is dropped, nobody is woken
    /// and the shutdown error comes back.
    pub fn deliver(&mut self, future: F, alarm: &mut Alarm) -> (result: Result<(), SpawnError>)
        ensures
            final(self).pad() == old(self).pad(),
            ({
                let before = old(self).diary();
                let after = final(self).diary();
                &&& after.len() == before.len() + 2
                &&& before.is_prefix_of(after)
                &&& after[before.len() as int] matches Step::Found { pad }
                &&& after[before.len() as int + 1] matches Step::Left { pad: left }
                &&& left == incoming_spawn(pad, future)
                &&& match pad {
                    Some(found) => {
                        &&& result is Ok
                        &&& left matches Some(left)
                        &&& left.futures == found.futures.push(future)
                        &&& left.waker is None
                        &&& found.waker is None ==> final(alarm).rung() == old(alarm).rung()
                        &&& found.waker matches Some(waker) ==> final(alarm).rung() == old(
                            alarm,
                        ).rung().push(task_behind(waker))
                    },
                    None => {
                        &&& result is Err
                        &&& left is None
                        &&& final(alarm).rung() == old(alarm).rung()
                    },
                }
            }),
            result is Err ==> final(self).pad().ended(),
    {
        match self.spawn(future) {
            Ok(woken) => {
                match woken {
                    Some(waker) => {
                        alarm.ring(waker);
                    },
                    None => {},
                }
                Ok(())
            },
            Err(error) => Err(error),
        }
    }

    /// Whether a spawn would be accepted: the shutdown error if the pad is out of use. What is on
    /// the pad stays there.
    pub fn status(&mut self) -> (result: Result<(), SpawnError>)
        ensures
            final(self).pad() == old(self).pad(),
            ({
                let before = old(self).diary();
                let after = final(self).diary();
                &&& after.len() == before.len() + 2
                &&& after[before.len() as int] matches Step::Found { pad }
                &&& after == before.push(Step::Found { pad }).push(Step::Left { pad })
                &&& result is Ok <==> pad is Some
            }),
            result is Err ==> final(self).pad().ended(),
    {
        let incoming = self.find();
        let result = incoming.status();
        self.leave(incoming);
        result
    }
}

/// What came of a delivery: the answer, and what was done at the pad and who was woken for it.
#[verifier::reject_recursive_types(F)]
#[verifier::reject_recursive_types(T)]
pub struct Delivery<F, T> {
    pub result: Result<(), SpawnError>,
    pub holder: PadHolder<F, T>,
    pub alarm: Alarm,
}

/// `future` was left on `pad`, behind what was found there, and the task that asked to hear of it was
/// woken, if there was one; or the pad was found out of use, the future was refused and nobody was
/// woken.
pub open spec fn is_delivered<F, T>(
    pad: Rc<SharedIncoming<F>>,
    future: F,
    delivery: Delivery<F, T>,
) -> bool {
    let diary = delivery.holder.diary();
    &&& delivery.holder.pad() == pad
    &&& diary.len() == 2
    &&& diary[0] matches Step::Found { pad: found }
    &&& diary[1] == (Step::<F, T>::Left { pad: incoming_spawn(found, future) })
    &&& match found {
        Some(found) => {
            &&& delivery.result is Ok
            &&& delivery.alarm.rung() == (match found.waker {
                Some(waker) => seq![task_behind(waker)],
                None => Seq::empty(),
            })
        },
        None => delivery.result is Err && delivery.alarm.rung() == Seq::<Option<nat>>::empty(),
    }
}

/// It was asked at `pad` whether a future would be accepted: what was found there was put back, and
/// nobody was woken.
pub open spec fn is_asked<F, T>(pad: Rc<SharedIncoming<F>>, delivery: Delivery<F, T>) -> bool {
    let diary = delivery.holder.diary();
    &&& delivery.holder.pad() == pad
    &&& diary.len() == 2
    &&& diary[0] matches Step::Found { pad: found }
    &&& diary[1] == (Step::<F, T>::Left { pad: found })
    &&& delivery.result is Ok <==> found is Some
    &&& delivery.alarm.rung() == Seq::<Option<nat>>::empty()
}

/// A way to a shared pad on which nothing can be done but deliver futures and ask whether they would
/// be accepted.
#[verifier::reject_recursive_types(F)]
pub struct Mailbox<F> {
    shared: Rc<SharedIncoming<F>>,
}

impl<F> Mailbox<F> {
    /// The pad.
    pub closed spec fn pad(&self) -> Rc<SharedIncoming<F>> {
        self.shared
    }

    /// A way to the given pad.
    pub fn new(shared: Rc<SharedIncoming<F>>) -> (mailbox: Self)
        ensures
            mailbox.pad() == shared,
    {
        Mailbox { shared }
    }

    /// Another way to the same pad.
    pub fn share(&self) -> (mailbox: Self)
        ensures
            mailbox.pad() == self.pad(),
    {
        Mailbox { shared: self.shared.clone() }
    }

    /// Leaves `future` on the pad, behind what is there, and wakes the task that asked to hear of
    /// it, if there is one: no more and no less than [`PadHolder::deliver`].
    pub fn deliver<T>(&self, future: F) -> (delivery: Delivery<F, T>)
        ensures
            delivery.holder.pad() == self.pad(),
            is_delivered(self.pad(), future, delivery),
            ({
                let diary = delivery.holder.diary();
                &&& diary.len() == 2
                &&& diary[0] matches Step::Found { pad }
                &&& diary[1] matches Step::Left { pad: left }
                &&& match pad {
                    Some(found) => {
                        &&& delivery.result is Ok
                        &&& left matches Some(left)
                        &&& left.futures == found.futures.push(future)
                        &&& left.waker is None
                        &&& found.waker is None ==> delivery.alarm.rung().len() == 0
                        &&& found.waker matches Some(waker) ==> delivery.alarm.rung() == seq![
                            task_behind(waker),
                        ]
                    },
                    None => {
                        &&& delivery.result is Err
                        &&& left is None
                        &&& delivery.alarm.rung().len() == 0
                    },
                }
            }),
            delivery.result is Err ==> self.pad().ended(),
    {
        let mut holder: PadHolder<F, T> = PadHolder::new(self.shared.clone());
        let mut alarm = Alarm::new();
        let result = holder.deliver(future, &mut alarm);
        proof {
            let diary = holder.diary();
            if diary[0]->Found_pad is Some && diary[0]->Found_pad->0.waker is Some {
                let waker = diary[0]->Found_pad->0.waker->0;
                assert(alarm.rung() =~= seq![task_behind(waker)]);
            }
        }
        Delivery { result, holder, alarm }
    }

    /// Whether a future would be accepted: the shutdown error if the pad is out of use.
    pub fn status<T>(&self) -> (delivery: Delivery<F, T>)
        ensures
            delivery.holder.pad() == self.pad(),
            is_asked(self.pad(), delivery),
            ({
                let diary = delivery.holder.diary();
                &&& diary.len() == 2
                &&& diary[0] matches Step::Found { pad }
                &&& diary[1] == (Step::<F, T>::Left { pad })
                &&& delivery.result is Ok <==> pad is Some
            }),
            delivery.alarm.rung().len() == 0,
            delivery.result is Err ==> self.pad().ended(),
    {
        let mut holder: PadHolder<F, T> = PadHolder::new(self.shared.clone());
        let result = holder.status();
        Delivery { result, holder, alarm: Alarm::new() }
    }
}

} // verus!

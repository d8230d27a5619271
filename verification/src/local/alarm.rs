//! Waking tasks.

use std::task::Waker;

use vstd::prelude::*;

use crate::task::task_behind;

verus! {

/// Wakes tasks and remembers which it has woken, in order.
///
/// That a task was woken is noted here alone, by the function that wakes it.
pub struct Alarm {
    rung: Ghost<Seq<Option<nat>>>,
}

impl Alarm {
    /// The tasks that were woken, in order; `None` for a waker that wakes nobody.
    pub closed spec fn rung(&self) -> Seq<Option<nat>> {
        self.rung@
    }

    /// An alarm that has woken nobody.
    pub fn new() -> (alarm: Self)
        ensures
            alarm.rung() == Seq::<Option<nat>>::empty(),
    {
        Alarm { rung: Ghost(Seq::empty()) }
    }

    /// Wakes the task behind `waker`.
    pub fn ring(&mut self, waker: Waker)
        ensures
            final(self).rung() == old(self).rung().push(task_behind(waker)),
    {
        self.rung = Ghost(self.rung@.push(task_behind(waker)));
        waker.wake();
    }
}

} // verus!

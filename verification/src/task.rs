//! The pieces of the task system that the scopes work with: future objects, wakers, contexts and
//! the error of a refused spawn.
//!
//! Future objects, wakers and contexts are carried, polled and woken, never looked into. Of wakers
//! and contexts it is known which task they belong to.

use std::task::{Context, Waker};

use futures::task::{FutureObj, LocalFutureObj, SpawnError};
use vstd::prelude::*;

verus! {

/// What polling came to.
#[derive(Debug, PartialEq, Eq)]
pub enum Progress<T> {
    /// There is a value.
    Ready(T),
    /// There is none yet; the task will be woken when it is worth asking again.
    Pending,
}

/// `futures::task::SpawnError`: a spawn was refused. Its one meaning is that whoever was to run
/// the future has been shut down.
#[verifier::external_type_specification]
#[verifier::external_body]
pub struct ExSpawnError(SpawnError);

/// `std::task::Waker`.
#[verifier::external_type_specification]
#[verifier::external_body]
pub struct ExWaker(Waker);

/// `std::task::Context`.
#[verifier::external_type_specification]
#[verifier::external_body]
pub struct ExContext<'a>(Context<'a>);

/// `futures::task::LocalFutureObj`: a boxed future that stays on its thread.
#[verifier::external_type_specification]
#[verifier::external_body]
#[verifier::reject_recursive_types(T)]
pub struct ExLocalFutureObj<'a, T>(LocalFutureObj<'a, T>);

/// `futures::task::FutureObj`: a boxed future that may change threads.
#[verifier::external_type_specification]
#[verifier::external_body]
#[verifier::reject_recursive_types(T)]
pub struct ExFutureObj<'a, T>(FutureObj<'a, T>);

/// `SpawnError::shutdown` makes the error of a refused spawn. The type has no other value, so
/// that the error is this one is all there is to say.
pub assume_specification[ SpawnError::shutdown ]() -> (error: SpawnError);

/// `Waker::wake` schedules the task behind the waker. Nothing comes back.
pub assume_specification[ Waker::wake ](waker: Waker);

/// The task that `waker` wakes, or `None` if it wakes nobody. Tasks are told apart by numbers that
/// nothing else depends on.
pub uninterp spec fn task_behind(waker: Waker) -> Option<nat>;

/// The task that is being polled with `cx`, or `None` if nobody is to be woken.
pub uninterp spec fn task_polled(cx: Context<'_>) -> Option<nat>;

/// `Waker::clone` makes another waker of the same task.
pub assume_specification[ <Waker as Clone>::clone ](waker: &Waker) -> (twin: Waker)
    ensures
        task_behind(twin) == task_behind(*waker),
;

/// `Context::waker` gives the waker of the task that is being polled.
pub assume_specification<'a>[ Context::<'a>::waker ](cx: &Context<'a>) -> (waker: &'a Waker)
    ensures
        task_behind(*waker) == task_polled(*cx),
;

/// `Context::from_waker` makes a context that hands out the given waker.
pub assume_specification<'a>[ Context::<'a>::from_waker ](waker: &'a Waker) -> (cx: Context<'a>)
    ensures
        task_polled(cx) == task_behind(*waker),
;

/// `futures::task::noop_waker` makes a waker that does nothing.
pub assume_specification[ futures::task::noop_waker ]() -> (waker: Waker)
    ensures
        task_behind(waker) is None,
;

/// `LocalFutureObj::from` forgets that a future may change threads. The future itself is the
/// same; what it does is nobody's to say.
#[verifier::external_body]
pub(crate) fn localize<'a, T>(future: FutureObj<'a, T>) -> (local: LocalFutureObj<'a, T>) {
    LocalFutureObj::from(future)
}

} // verus!

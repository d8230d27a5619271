//! A relay task: it takes futures from the pad and polls them, one after the other.

use vstd::prelude::*;

use crate::relay::registry::relay_key;
use crate::relay::relay_pad::{pad_unregistered, RelayPad};
use crate::relay::spawn_manager::RelayFutureId;

verus! {

/// What a relay task holds:
/// its name,
/// the future that it works on, unless that is being polled,
/// whether it is being polled,
/// whether the relay task was destroyed,
/// whether it is the one that waits for futures when there are none,
/// and whether polling its future has panicked: the relay task cannot be polled any more, and drops
/// the future at its end rather than put it back.
#[verifier::ext_equal]
pub struct RelayState<F> {
    pub id: RelayFutureId,
    pub future: Option<F>,
    pub lent: bool,
    pub destroyed: bool,
    pub root: bool,
    pub panicked: bool,
}

/// A new relay task.
pub open spec fn relay_new<F>(id: RelayFutureId, root: bool) -> RelayState<F> {
    RelayState {
        id,
        future: None,
        lent: false,
        destroyed: false,
        root,
        panicked: false,
    }
}

/// The relay task once it is destroyed.
pub open spec fn relay_destroyed<F>(relay: RelayState<F>) -> RelayState<F> {
    RelayState { future: None, destroyed: true, ..relay }
}

/// The relay task while its future is being polled.
pub open spec fn relay_lent<F>(relay: RelayState<F>) -> RelayState<F> {
    RelayState { future: None, lent: true, ..relay }
}

/// The relay task once polling is over and `future` is what is left of it.
pub open spec fn relay_returned<F>(relay: RelayState<F>, future: Option<F>) -> RelayState<F> {
    RelayState { future, lent: false, ..relay }
}

/// The relay task once polling its future has panicked.
pub open spec fn relay_panicked<F>(relay: RelayState<F>) -> RelayState<F> {
    RelayState { panicked: true, ..relay }
}

/// The future that the relay task works on.
#[derive(Debug)]
struct ActiveFuture<F> {
    future: Option<F>,
    lent: bool,
    destroyed: bool,
}

impl<F> ActiveFuture<F> {
    /// No future yet.
    fn new() -> (active: Self)
        ensures
            active.future is None,
            !active.lent,
            !active.destroyed,
    {
        ActiveFuture { future: None, lent: false, destroyed: false }
    }
}

/// What a relay task and the scope that may want to destroy it both get at.
#[derive(Debug)]
pub struct RelayFutureInner<F> {
    active: ActiveFuture<F>,
    id: RelayFutureId,
}

impl<F> RelayFutureInner<F> {
    /// The future, unless it is being polled.
    pub closed spec fn future(&self) -> Option<F> {
        self.active.future
    }

    /// The future is being polled.
    pub closed spec fn lent(&self) -> bool {
        self.active.lent
    }

    /// The relay task was destroyed.
    pub closed spec fn destroyed(&self) -> bool {
        self.active.destroyed
    }

    /// The name of the relay task.
    pub closed spec fn name(&self) -> RelayFutureId {
        self.id
    }

    /// The inner part of a new relay task.
    pub fn new(id: RelayFutureId) -> (inner: Self)
        ensures
            inner.name() == id,
            inner.future() is None,
            !inner.lent(),
            !inner.destroyed(),
    {
        RelayFutureInner { active: ActiveFuture::new(), id }
    }

    /// The name of the relay task.
    pub fn id(&self) -> (id: RelayFutureId)
        ensures
            id == self.name(),
    {
        self.id
    }

    /// Destroys the relay task, once: it is struck out of `pad`, and its future goes back to the
    /// queue if it is to be rescued and the scope is not shut down, else it comes back to be
    /// dropped. A future that is being polled has to come back first.
    pub fn destroy<W>(&mut self, pad: &mut RelayPad<F, W>, rescue_future: bool) -> (dropped: Option<
        F,
    >)
        requires
            old(pad).wf(),
            !old(self).lent(),
            old(self).destroyed() ==> old(self).future() is None,
            !old(self).destroyed() ==> old(pad)@.relays.contains_key(relay_key(old(self).name())),
        ensures
            final(pad).wf(),
            final(self).name() == old(self).name(),
            final(self).future() is None,
            !final(self).lent(),
            final(self).destroyed(),
            final(pad)@ == (if old(self).destroyed() {
                old(pad)@
            } else {
                pad_unregistered(
                    old(pad)@,
                    old(self).name(),
                    if rescue_future {
                        old(self).future()
                    } else {
                        None
                    },
                )
            }),
            dropped == (if rescue_future && !old(pad)@.destroyed {
                None
            } else {
                old(self).future()
            }),
    {
        if self.active.destroyed {
            return None;
        }
        let future = self.active.future.take();
        self.active.destroyed = true;
        if rescue_future {
            pad.unregister_relay_future(self.id, future)
        } else {
            pad.unregister_relay_future(self.id, None);
            future
        }
    }
}

/// A relay task.
#[derive(Debug)]
pub struct RelayFuture<F> {
    inner: RelayFutureInner<F>,
    root: bool,
    panicked: bool,
}

impl<F> View for RelayFuture<F> {
    type V = RelayState<F>;

    closed spec fn view(&self) -> RelayState<F> {
        RelayState {
            id: self.inner.name(),
            future: self.inner.future(),
            lent: self.inner.lent(),
            destroyed: self.inner.destroyed(),
            root: self.root,
            panicked: self.panicked,
        }
    }
}

impl<F> RelayFuture<F> {
    /// A new relay task.
    pub fn new(id: RelayFutureId, root: bool) -> (relay: Self)
        ensures
            relay@ == relay_new::<F>(id, root),
            relay@.id == id && relay@.root == root && relay@.future is None,
            !relay@.lent && !relay@.destroyed && !relay@.panicked,
    {
        RelayFuture { inner: RelayFutureInner::new(id), root, panicked: false }
    }

    /// Whether this is the relay task that waits for futures when there are none.
    pub fn is_root(&self) -> (root: bool)
        ensures
            root == self@.root,
    {
        self.root
    }

    /// Whether the future is being polled.
    pub fn is_lent(&self) -> (lent: bool)
        ensures
            lent == self@.lent,
    {
        self.inner.active.lent
    }

    /// Whether polling the future has panicked.
    pub fn has_panicked(&self) -> (panicked: bool)
        ensures
            panicked == self@.panicked,
    {
        self.panicked
    }

    /// Whether there is a future to poll.
    pub fn has_future(&self) -> (has: bool)
        ensures
            has == (self@.future is Some),
    {
        self.inner.active.future.is_some()
    }

    /// Gives the relay task a future to work on.
    pub fn accept(&mut self, future: F)
        ensures
            final(self)@ == (RelayState { future: Some(future), ..old(self)@ }),
    {
        self.inner.active.future = Some(future);
    }

    /// Hands the future out to be polled.
    pub fn lend(&mut self) -> (future: F)
        requires
            old(self)@.future is Some,
        ensures
            final(self)@ == relay_lent(old(self)@),
            Some(future) == old(self)@.future,
    {
        self.inner.active.lent = true;
        self.inner.active.future.take().unwrap()
    }

    /// Notes that polling is over, and what is left of the future.
    pub fn give_back(&mut self, future: Option<F>)
        ensures
            final(self)@ == relay_returned(old(self)@, future),
    {
        self.inner.active.lent = false;
        self.inner.active.future = future;
    }

    /// Notes that polling the future has panicked.
    pub fn note_panic(&mut self)
        ensures
            final(self)@ == relay_panicked(old(self)@),
    {
        self.panicked = true;
    }

    /// Destroys the relay task; see [`RelayFutureInner::destroy`].
    pub fn destroy<W>(&mut self, pad: &mut RelayPad<F, W>, rescue_future: bool) -> (dropped: Option<
        F,
    >)
        requires
            old(pad).wf(),
            !old(self)@.lent,
            old(self)@.destroyed ==> old(self)@.future is None,
            !old(self)@.destroyed ==> old(pad)@.relays.contains_key(relay_key(old(self)@.id)),
        ensures
            final(pad).wf(),
            final(self)@ == relay_destroyed(old(self)@),
            final(pad)@ == (if old(self)@.destroyed {
                old(pad)@
            } else {
                pad_unregistered(
                    old(pad)@,
                    old(self)@.id,
                    if rescue_future {
                        old(self)@.future
                    } else {
                        None
                    },
                )
            }),
            dropped == (if rescue_future && !old(pad)@.destroyed {
                None
            } else {
                old(self)@.future
            }),
    {
        self.inner.destroy(pad, rescue_future)
    }

    /// Destroys the relay task at its end: its future is rescued, unless polling it has panicked.
    pub fn retire<W>(&mut self, pad: &mut RelayPad<F, W>) -> (dropped: Option<F>)
        requires
            old(pad).wf(),
            !old(self)@.lent,
            old(self)@.destroyed ==> old(self)@.future is None,
            !old(self)@.destroyed ==> old(pad)@.relays.contains_key(relay_key(old(self)@.id)),
        ensures
            final(pad).wf(),
            final(self)@ == relay_destroyed(old(self)@),
            final(pad)@ == (if old(self)@.destroyed {
                old(pad)@
            } else {
                pad_unregistered(
                    old(pad)@,
                    old(self)@.id,
                    if old(self)@.panicked {
                        None
                    } else {
                        old(self)@.future
                    },
                )
            }),
            dropped == (if !old(self)@.panicked && !old(pad)@.destroyed {
                None
            } else {
                old(self)@.future
            }),
    {
        let rescue_future = !self.panicked;
        self.inner.destroy(pad, rescue_future)
    }
}

} // verus!

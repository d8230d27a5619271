//! The relay scope: the pad together with all its relay tasks.
//!
//! A relay task is polled by the spawn that it runs on. Polling it comes down to polling futures
//! of the scope, which may spawn further futures on it, so the scope cannot be held meanwhile.
//! The functions below are the steps in between: each takes what has come of the last poll and
//! says what to do next.

use futures::task::SpawnError;
use vstd::prelude::*;

use crate::relay::empty_signal::UntilEmpty;
use crate::relay::laws::{scope_next, ScopeEvent};
use crate::relay::registry::{no_relays, relay_key};
use crate::relay::relay_future::{
    relay_destroyed, relay_lent, relay_new, relay_panicked, relay_returned, RelayFuture, RelayState,
};
use crate::relay::relay_pad::{
    pad_dequeue_answer, pad_dequeued, pad_destroyed, pad_enqueued, pad_new, pad_registered,
    pad_spawn_numbered, pad_task_ended, pad_unregistered, FuturePollingGuard, RelayPad,
    RelayPadState, TaskDequeueErr,
};
use crate::relay::slab::Slab;
use crate::relay::spawn_manager::{
    manager_ended, manager_new, manager_next_id, manager_registered, manager_started,
    manager_unregistered, manager_wants_relay, ManagerState, RelayFutureId, SpawnManager,
};
use crate::relay::waker_park::{park_announced, park_woken};
use crate::task::Progress;

verus! {

/// A relay task that has finished more futures than this in one go makes room for others.
pub const TASKS_PER_POLL: usize = 5;

/// What a scope holds: its pad, and the relay tasks by the slot in which they are kept.
#[verifier::ext_equal]
pub struct RelayScopeState<F, W> {
    pub pad: RelayPadState<F, W>,
    pub relays: Map<usize, RelayState<F>>,
}

/// The relay tasks that are not destroyed are those that the pad knows of, each under its own
/// name. A future that is being polled is not with the relay task. A relay task is destroyed only
/// if the scope is shut down, and then has no future. After a panic nothing is polled any more.
pub open spec fn scope_wf<F, W>(s: RelayScopeState<F, W>) -> bool {
    &&& s.relays.dom().finite()
    &&& forall|slot: usize| #[trigger]
        s.relays.contains_key(slot) && !s.relays[slot].destroyed ==> s.pad.relays.contains_key(
            relay_key(s.relays[slot].id),
        ) && s.pad.relays[relay_key(s.relays[slot].id)] == slot
    &&& forall|key: (usize, usize)| #[trigger]
        s.pad.relays.contains_key(key) ==> {
            let slot = s.pad.relays[key];
            &&& s.relays.contains_key(slot)
            &&& !s.relays[slot].destroyed
            &&& relay_key(s.relays[slot].id) == key
            &&& key.0 < s.pad.next_spawn_id
        }
    &&& forall|slot: usize| #[trigger]
        s.relays.contains_key(slot) ==> {
            &&& s.relays[slot].destroyed ==> s.pad.destroyed && !s.relays[slot].lent
            &&& s.relays[slot].destroyed || s.relays[slot].lent ==> s.relays[slot].future is None
            &&& s.relays[slot].panicked ==> !s.relays[slot].lent
        }
}

/// The books `m` belong to a spawn of the scope, and no relay task that the pad knows of has a
/// name that they will give out.
pub open spec fn scope_fits<F, W>(s: RelayScopeState<F, W>, m: ManagerState) -> bool {
    &&& m.id < s.pad.next_spawn_id
    &&& forall|key: (usize, usize)| #[trigger]
        s.pad.relays.contains_key(key) && key.0 == m.id ==> key.1 < m.next_instance
}

/// The scope after the relay task `id` was added and put into `slot`.
pub open spec fn scope_added<F, W>(
    s: RelayScopeState<F, W>,
    slot: usize,
    id: RelayFutureId,
    root: bool,
) -> RelayScopeState<F, W> {
    RelayScopeState {
        pad: pad_registered(s.pad, id, slot),
        relays: s.relays.insert(slot, relay_new(id, root)),
    }
}

/// A relay task was entered into the books and, unless the scope is shut down, added to the scope,
/// in a slot that was free.
pub open spec fn relay_added<F, W>(
    before: RelayScopeState<F, W>,
    books_before: ManagerState,
    root: bool,
    after: RelayScopeState<F, W>,
    books_after: ManagerState,
    slot: Option<usize>,
) -> bool {
    &&& books_after == manager_registered(books_before)
    &&& match slot {
        Some(slot) => {
            &&& !before.pad.destroyed
            &&& !before.relays.contains_key(slot)
            &&& after == scope_added(before, slot, manager_next_id(books_before), root)
        },
        None => before.pad.destroyed && after == before,
    }
}

/// The scope with another relay task in `slot`.
pub open spec fn scope_with_relay<F, W>(
    s: RelayScopeState<F, W>,
    slot: usize,
    relay: RelayState<F>,
) -> RelayScopeState<F, W> {
    RelayScopeState { relays: s.relays.insert(slot, relay), ..s }
}

/// The scope with another pad.
pub open spec fn scope_with_pad<F, W>(
    s: RelayScopeState<F, W>,
    pad: RelayPadState<F, W>,
) -> RelayScopeState<F, W> {
    RelayScopeState { pad, ..s }
}

/// The future of the relay task in `slot` was handed out to be polled, and another relay task was
/// added if the books want one.
pub open spec fn polling_begun<F, W>(
    before: RelayScopeState<F, W>,
    books_before: ManagerState,
    slot: usize,
    after: RelayScopeState<F, W>,
    books_after: ManagerState,
    respawned: Option<usize>,
) -> bool {
    let lent = scope_with_relay(before, slot, relay_lent(before.relays[slot]));
    let started = manager_started(books_before);
    if manager_wants_relay(books_before) {
        relay_added(lent, started, false, after, books_after, respawned)
    } else {
        respawned is None && after == lent && books_after == started
    }
}

/// The waker with which the relay task asks for a future: only the one that waits brings its own.
pub open spec fn relay_waker<F, W>(relay: RelayState<F>, waker: W) -> Option<W> {
    if relay.root {
        Some(waker)
    } else {
        None
    }
}

/// Whether the relay task in `slot` can be polled: its future is not being polled already, nor has
/// polling it panicked, the books know of an idle relay task and have a name left, and a future
/// that a shut down scope takes from it is counted among the unfinished ones.
pub open spec fn scope_can_poll<F, W>(
    s: RelayScopeState<F, W>,
    slot: usize,
    m: ManagerState,
) -> bool {
    &&& s.relays.contains_key(slot)
    &&& !s.relays[slot].lent
    &&& !s.relays[slot].panicked
    &&& m.non_working > 0
    &&& m.next_instance < usize::MAX
    &&& s.pad.destroyed && s.relays[slot].future is Some ==> s.pad.current_tasks > 0
}

/// The relay task as stopping the scope leaves it: destroyed, unless its future is being polled.
pub open spec fn relay_stopped<F>(relay: RelayState<F>) -> RelayState<F> {
    if relay.lent || relay.destroyed {
        relay
    } else {
        relay_destroyed(relay)
    }
}

/// The pad's list of relay tasks as stopping the scope leaves it: those whose future is being
/// polled.
pub open spec fn relays_polling<F, W>(s: RelayScopeState<F, W>) -> Map<(usize, usize), usize> {
    s.pad.relays.restrict(
        Set::new(
            |key: (usize, usize)|
                s.pad.relays.contains_key(key) && s.relays[s.pad.relays[key]].lent,
        ),
    )
}

/// The scope after a call to stop it: for good once no future is being polled.
pub open spec fn scope_stopped<F, W>(s: RelayScopeState<F, W>) -> RelayScopeState<F, W> {
    RelayScopeState {
        pad: pad_destroyed((RelayPadState { relays: relays_polling(s), ..s.pad })),
        relays: s.relays.map_values(|relay: RelayState<F>| relay_stopped(relay)),
    }
}

/// The scope after the relay task in `slot` has ended: its future goes back to the queue, unless
/// the scope is shut down or polling that future has panicked.
pub open spec fn scope_retired<F, W>(s: RelayScopeState<F, W>, slot: usize) -> RelayScopeState<
    F,
    W,
> {
    let relay = s.relays[slot];
    RelayScopeState {
        pad: if relay.destroyed {
            s.pad
        } else {
            pad_unregistered(
                s.pad,
                relay.id,
                if relay.panicked {
                    None
                } else {
                    relay.future
                },
            )
        },
        relays: s.relays.remove(slot),
    }
}

/// Stopping the scope takes the future of the relay task in `slot` away from it.
pub open spec fn future_is_dropped<F, W>(s: RelayScopeState<F, W>, slot: usize) -> bool {
    s.relays.contains_key(slot) && !s.relays[slot].lent && s.relays[slot].future is Some
}

/// `order` lists the relay tasks whose futures are taken away by stopping the scope, each once.
pub open spec fn is_drop_order<F, W>(s: RelayScopeState<F, W>, order: Seq<usize>) -> bool {
    &&& order.no_duplicates()
    &&& forall|slot: usize| #[trigger] order.contains(slot) <==> future_is_dropped(s, slot)
}

/// The futures of the relay tasks in the given slots.
pub open spec fn futures_in<F, W>(s: RelayScopeState<F, W>, order: Seq<usize>) -> Seq<F> {
    order.map_values(|slot: usize| s.relays[slot].future->0)
}

/// In a sound scope, no relay task is registered for polling exactly if no future is being polled.
proof fn lemma_nothing_is_polled<F, W>(s: RelayScopeState<F, W>)
    requires
        scope_wf(s),
    ensures
        relays_polling(s) == no_relays() <==> forall|slot: usize| #[trigger]
            s.relays.contains_key(slot) ==> !s.relays[slot].lent,
{
    if relays_polling(s) == no_relays() {
        assert forall|slot: usize| #[trigger] s.relays.contains_key(slot) implies !s.relays[slot].lent by {
            if s.relays[slot].lent {
                let key = relay_key(s.relays[slot].id);
                assert(s.pad.relays.contains_key(key));
                assert(relays_polling(s).contains_key(key));
            }
        }
    }
    if forall|slot: usize| #[trigger]
        s.relays.contains_key(slot) ==> !s.relays[slot].lent {
        assert forall|key: (usize, usize)| !(#[trigger] relays_polling(s).contains_key(key)) by {
            if s.pad.relays.contains_key(key) {
                assert(s.relays.contains_key(s.pad.relays[key]));
            }
        }
        assert(relays_polling(s) =~= no_relays());
    }
}

/// What is in a sequence once `value` is added at its end.
proof fn lemma_push_contains(values: Seq<usize>, value: usize)
    ensures
        forall|other: usize| #[trigger]
            values.push(value).contains(other) <==> values.contains(other) || other == value,
{
    assert(values.push(value)[values.len() as int] == value);
    assert forall|other: usize| values.contains(other) implies #[trigger] values.push(
        value,
    ).contains(other) by {
        let i = choose|i: int| 0 <= i < values.len() && values[i] == other;
        assert(values.push(value)[i] == other);
    }
}

/// What polling a relay task comes to next.
#[derive(Debug)]
pub enum RelayAction<F> {
    /// Poll this future and report the outcome, with the guard. If a slot is given, run the relay
    /// task in it on the same spawn.
    Poll { future: F, guard: FuturePollingGuard, respawned: Option<usize> },
    /// Answer this.
    Return(Progress<()>),
}

/// What is to happen after a future has finished.
#[derive(Debug)]
pub struct RelayVerdict {
    /// Run the relay task in this slot on the same spawn.
    pub respawned: Option<usize>,
    /// Answer that the relay task is done, rather than go on with the next future.
    pub done: bool,
}

/// What came of stopping a scope.
#[derive(Debug)]
pub struct StopOutcome<F, W> {
    /// The futures that are gone from the scope, for the caller to drop.
    pub dropped: Vec<F>,
    /// If nothing is left, the relay tasks for the caller to wake.
    pub woken: Option<Vec<W>>,
}

/// A scope for futures of type `F`, polled by relay tasks with wakers of type `W`.
#[derive(Debug)]
pub struct RelayScope<F, W> {
    pad: RelayPad<F, W>,
    relays: Slab<RelayFuture<F>>,
}

impl<F, W> View for RelayScope<F, W> {
    type V = RelayScopeState<F, W>;

    closed spec fn view(&self) -> RelayScopeState<F, W> {
        RelayScopeState {
            pad: self.pad@,
            relays: self.relays@.map_values(|relay: RelayFuture<F>| relay@),
        }
    }
}

impl<F, W> RelayScope<F, W> {
    /// The parts of the scope are sound, and they agree; see [`scope_wf`].
    pub closed spec fn wf(&self) -> bool {
        &&& self.pad.wf()
        &&& self.relays.wf()
        &&& scope_wf(self@)
    }

    /// In a sound scope the pad and the relay tasks agree, and wakers are parked only while they
    /// are announced.
    pub proof fn law_sound_scope_agrees(&self)
        requires
            self.wf(),
        ensures
            scope_wf(self@),
            park_announced(self@.pad.park),
    {
        self.pad.law_sound_pad_announces();
    }

    /// A scope without futures and without relay tasks.
    pub fn new() -> (scope: Self)
        ensures
            scope.wf(),
            scope@ == (RelayScopeState { pad: pad_new::<F, W>(), relays: Map::empty() }),
    {
        let scope = RelayScope { pad: RelayPad::new(), relays: Slab::new() };
        assert(scope@.relays =~= Map::empty());
        scope
    }

    /// Enters a new relay task into the books of its spawn and adds it to the scope. Returns the
    /// slot in which it is kept, or `None` if the scope is shut down.
    pub fn add_relay(&mut self, manager: &mut SpawnManager, root: bool) -> (slot: Option<usize>)
        requires
            old(self).wf(),
            scope_fits(old(self)@, old(manager)@),
            old(manager)@.next_instance < usize::MAX,
        ensures
            final(self).wf(),
            scope_next(
                old(self)@,
                ScopeEvent::AddRelay { books: old(manager)@, root, added: slot },
                final(self)@,
            ),
            relay_added(old(self)@, old(manager)@, root, final(self)@, final(manager)@, slot),
            scope_fits(final(self)@, final(manager)@),
            slot is Some <==> !old(self)@.pad.destroyed,
            slot matches Some(slot) ==> {
                let relay = final(self)@.relays[slot];
                &&& final(self)@.relays.contains_key(slot) && !old(self)@.relays.contains_key(slot)
                &&& relay.root == root
                &&& relay.future is None && !relay.lent && !relay.panicked && !relay.destroyed
                &&& relay.id.spawn_id == old(manager)@.id
                &&& relay.id.instance == old(manager)@.next_instance
            },
    {
        let id = manager.register();
        if self.pad.is_destroyed() {
            return None;
        }
        let slot: usize = self.relays.insert(RelayFuture::new(id, root));
        self.pad.register_relay_future(id, slot);
        assert(self@.relays =~= old(self)@.relays.insert(slot, relay_new(id, root)));
        Some(slot)
    }

    /// Spawns `future` on the scope. `Ok` holds the relay tasks that the caller is to wake; if the
    /// scope is shut down, the future is dropped and the shutdown error comes back.
    pub fn spawn_obj_scoped(&mut self, future: F) -> (result: Result<Vec<W>, SpawnError>)
        requires
            old(self).wf(),
        ensures
            final(self).wf(),
            scope_next(old(self)@, ScopeEvent::Spawn { future }, final(self)@),
            final(self)@ == scope_with_pad(old(self)@, pad_enqueued(old(self)@.pad, future)),
            result is Ok <==> !old(self)@.pad.destroyed,
            result matches Ok(woken) ==> woken@ == park_woken(old(self)@.pad.park),
            result matches Ok(woken) ==> {
                &&& woken@ == old(self)@.pad.park.parked
                &&& final(self)@.pad.park.parked.len() == 0
                &&& final(self)@.pad.tasks == old(self)@.pad.tasks.push(future)
            },
    {
        self.pad.enqueue_task(future)
    }

    /// Whether the scope accepts futures: the shutdown error if it is shut down.
    pub fn status_scoped(&self) -> (status: Result<(), SpawnError>)
        ensures
            status is Ok <==> !self@.pad.destroyed,
    {
        if self.pad.is_destroyed() {
            Err(SpawnError::shutdown())
        } else {
            Ok(())
        }
    }

    /// How many futures of the scope are not finished.
    pub fn current_tasks(&self) -> (count: usize)
        ensures
            count == self@.pad.current_tasks,
    {
        self.pad.current_tasks()
    }

    /// Whether there is a number left for another spawn.
    pub fn can_relay(&self) -> (can: bool)
        ensures
            can <==> self@.pad.next_spawn_id < usize::MAX,
    {
        self.pad.spawn_number() < usize::MAX
    }

    /// Relays the scope to another spawn: the books of that spawn, and the slot of its first relay
    /// task, which is the one that waits for futures, for the caller to run on the spawn. If the
    /// scope is shut down, the shutdown error comes back.
    pub fn relay_to(&mut self) -> (result: Result<(usize, SpawnManager), SpawnError>)
        requires
            old(self).wf(),
            old(self)@.pad.next_spawn_id < usize::MAX,
        ensures
            final(self).wf(),
            scope_next(
                old(self)@,
                ScopeEvent::Relay {
                    added: match result {
                        Ok((slot, _)) => Some(slot),
                        Err(_) => None,
                    },
                },
                final(self)@,
            ),
            result is Ok <==> !old(self)@.pad.destroyed,
            match result {
                Ok((slot, manager)) => {
                    &&& relay_added(
                        scope_with_pad(old(self)@, pad_spawn_numbered(old(self)@.pad)),
                        manager_new(old(self)@.pad.next_spawn_id),
                        true,
                        final(self)@,
                        manager@,
                        Some(slot),
                    )
                    &&& scope_fits(final(self)@, manager@)
                    &&& final(self)@.relays.contains_key(slot) && final(self)@.relays[slot].root
                    &&& scope_can_poll(final(self)@, slot, manager@)
                    &&& manager@.id == old(self)@.pad.next_spawn_id
                    &&& manager@.non_working == 1 && manager@.all == 1
                },
                Err(_) => final(self)@ == scope_with_pad(
                    old(self)@,
                    pad_spawn_numbered(old(self)@.pad),
                ),
            },
    {
        let id: usize = self.pad.next_spawn_id();
        let mut manager = SpawnManager::new(id);
        match self.add_relay(&mut manager, true) {
            Some(slot) => Ok((slot, manager)),
            None => Err(SpawnError::shutdown()),
        }
    }

    /// A future that is ready once no future of the scope is left: at once if there is none, else
    /// together with all others that wait for it.
    pub fn until_empty(&mut self) -> (until: UntilEmpty)
        requires
            old(self).wf(),
        ensures
            final(self).wf(),
            !until.finished(),
            scope_next(old(self)@, ScopeEvent::AwaitEmpty, final(self)@),
            old(self)@.pad.current_tasks == 0 ==> {
                &&& until.arrived()
                &&& until.signalled()
                &&& final(self)@ == old(self)@
            },
            old(self)@.pad.current_tasks > 0 ==> {
                &&& final(self)@.pad.waiter matches Some(signal)
                &&& until.signalled() == signal.signalled()
                &&& until.abandoned() == signal.abandoned()
                &&& old(self)@.pad.waiter is Some ==> final(self)@.pad.waiter == old(
                    self,
                )@.pad.waiter
                &&& final(self)@ == scope_with_pad(
                    old(self)@,
                    (RelayPadState { waiter: final(self)@.pad.waiter, ..old(self)@.pad }),
                )
            },
    {
        self.pad.until_empty()
    }

    /// Notes that the future of the relay task in `slot` is no longer being polled, and what is left
    /// of it.
    fn take_back(&mut self, slot: usize, future: Option<F>)
        requires
            old(self).wf(),
            old(self)@.relays.contains_key(slot),
            old(self)@.relays[slot].lent,
        ensures
            final(self).wf(),
            final(self)@ == scope_with_relay(
                old(self)@,
                slot,
                relay_returned(old(self)@.relays[slot], future),
            ),
    {
        self.relays.get_mut(slot).give_back(future);
        assert(self@.relays =~= old(self)@.relays.insert(
            slot,
            relay_returned(old(self)@.relays[slot], future),
        ));
    }

    /// Whether the relay task in `slot`, on a spawn with the books `manager`, can be polled.
    pub fn can_poll(&self, slot: usize, manager: &SpawnManager) -> (can: bool)
        requires
            self.wf(),
        ensures
            can == scope_can_poll(self@, slot, manager@),
    {
        if !self.relays.contains(slot) {
            return false;
        }
        let relay = self.relays.get(slot);
        let uncounted = self.pad.is_destroyed() && relay.has_future() && self.pad.current_tasks()
            == 0;
        !relay.is_lent() && !relay.has_panicked() && manager.non_working() > 0
            && manager.next_instance() < usize::MAX && !uncounted
    }

    /// Hands out the future of the relay task in `slot` and brings another relay task along if one
    /// is wanted.
    fn begin_polling(&mut self, slot: usize, manager: &mut SpawnManager) -> (handed_out: (
        F,
        Option<usize>,
    ))
        requires
            old(self).wf(),
            !old(self)@.pad.destroyed,
            scope_can_poll(old(self)@, slot, old(manager)@),
            scope_fits(old(self)@, old(manager)@),
            old(self)@.relays[slot].future is Some,
            !old(self)@.relays[slot].destroyed,
        ensures
            final(self).wf(),
            scope_fits(final(self)@, final(manager)@),
            Some(handed_out.0) == old(self)@.relays[slot].future,
            polling_begun(
                old(self)@,
                old(manager)@,
                slot,
                final(self)@,
                final(manager)@,
                handed_out.1,
            ),
    {
        let guard = manager.start_polling();
        let future = self.relays.get_mut(slot).lend();
        assert(self@.relays =~= old(self)@.relays.insert(
            slot,
            relay_lent(old(self)@.relays[slot]),
        ));
        assert(scope_wf(self@));
        let respawned = if guard.should_respawn() {
            self.add_relay(manager, false)
        } else {
            None
        };
        (future, respawned)
    }

    /// Polls the relay task in `slot`, on a spawn with the books `manager`, up to the point where
    /// a future has to be polled. A relay task without a future takes the one that waits longest;
    /// if there is none, it waits, with `waker`, or is done.
    pub fn poll_relay(&mut self, slot: usize, manager: &mut SpawnManager, waker: W) -> (action:
        RelayAction<F>)
        requires
            old(self).wf(),
            scope_can_poll(old(self)@, slot, old(manager)@),
            scope_fits(old(self)@, old(manager)@),
        ensures
            final(self).wf(),
            scope_next(
                old(self)@,
                match action {
                    RelayAction::Poll { respawned, .. } => ScopeEvent::HandOut {
                        slot,
                        waker,
                        books: old(manager)@,
                        respawned,
                    },
                    RelayAction::Return(_) => ScopeEvent::Idle { slot, waker },
                },
                final(self)@,
            ),
            scope_fits(final(self)@, final(manager)@),
            match action {
                RelayAction::Poll { future, guard, respawned } => {
                    &&& !old(self)@.pad.destroyed
                    &&& final(self)@.relays[slot].lent
                    &&& match old(self)@.relays[slot].future {
                        Some(held) => future == held && final(self)@.pad.tasks
                            == old(self)@.pad.tasks,
                        None => seq![future] + final(self)@.pad.tasks == old(self)@.pad.tasks,
                    }
                    &&& !guard.unfinished()
                    &&& respawned is Some <==> old(manager)@.non_working <= 5
                    &&& respawned matches Some(added) ==> final(self)@.relays.contains_key(added)
                        && !old(self)@.relays.contains_key(added)
                        && !final(self)@.relays[added].root
                    &&& final(self)@.pad.park == old(self)@.pad.park
                },
                RelayAction::Return(Progress::Pending) => {
                    &&& !old(self)@.pad.destroyed
                    &&& old(self)@.relays[slot].root
                    &&& old(self)@.relays[slot].future is None && old(self)@.pad.tasks.len() == 0
                    &&& final(self)@.pad.park.parked == old(self)@.pad.park.parked.push(waker)
                    &&& final(self)@.relays == old(self)@.relays
                },
                RelayAction::Return(Progress::Ready(_)) => {
                    &&& old(self)@.pad.destroyed || (!old(self)@.relays[slot].root
                        && old(self)@.relays[slot].future is None && old(self)@.pad.tasks.len()
                        == 0)
                    &&& final(self)@.pad.park == old(self)@.pad.park
                    &&& final(self)@.relays == old(self)@.relays
                },
            },
            old(self)@.pad.destroyed ==> {
                &&& action == RelayAction::<F>::Return(Progress::Ready(()))
                &&& final(self)@.relays == old(self)@.relays
                &&& final(manager)@ == old(manager)@
            },
            ({
                let relay = old(self)@.relays[slot];
                let offered = relay_waker(relay, waker);
                let dequeued = scope_with_pad(
                    old(self)@,
                    pad_dequeued(old(self)@.pad, offered),
                );
                match relay.future {
                    Some(held) => if old(self)@.pad.destroyed {
                        &&& action == RelayAction::<F>::Return(Progress::Ready(()))
                        &&& final(self)@ == scope_with_pad(
                            old(self)@,
                            pad_task_ended(old(self)@.pad),
                        )
                        &&& final(manager)@ == old(manager)@
                        &&& old(self)@.pad.current_tasks == 1 ==> (old(
                            self,
                        )@.pad.waiter matches Some(signal) ==> signal.signalled())
                    } else {
                        &&& action matches RelayAction::Poll { future, guard, respawned }
                        &&& future == held
                        &&& !guard.unfinished()
                        &&& polling_begun(
                            old(self)@,
                            old(manager)@,
                            slot,
                            final(self)@,
                            final(manager)@,
                            respawned,
                        )
                    },
                    None => match pad_dequeue_answer(old(self)@.pad, relay.root) {
                        Ok(task) => {
                            &&& action matches RelayAction::Poll { future, guard, respawned }
                            &&& future == task
                            &&& !guard.unfinished()
                            &&& polling_begun(
                                dequeued,
                                old(manager)@,
                                slot,
                                final(self)@,
                                final(manager)@,
                                respawned,
                            )
                        },
                        Err(error) => {
                            &&& action == RelayAction::<F>::Return(
                                if error == TaskDequeueErr::WaitingForTasks {
                                    Progress::Pending
                                } else {
                                    Progress::Ready(())
                                },
                            )
                            &&& final(self)@ == dequeued
                            &&& final(manager)@ == old(manager)@
                        },
                    },
                }
            }),
    {
        if !self.relays.get(slot).has_future() {
            let waker = if self.relays.get(slot).is_root() {
                Some(waker)
            } else {
                None
            };
            match self.pad.dequeue_task(waker) {
                Ok(task) => {
                    self.relays.get_mut(slot).accept(task);
                    assert(self@.relays =~= old(self)@.relays.insert(
                        slot,
                        (RelayState { future: Some(task), ..old(self)@.relays[slot] }),
                    ));
                },
                Err(TaskDequeueErr::WaitingForTasks) => {
                    return RelayAction::Return(Progress::Pending);
                },
                Err(TaskDequeueErr::NoTasks) => {
                    return RelayAction::Return(Progress::Ready(()));
                },
                Err(TaskDequeueErr::Destroy) => {
                    return RelayAction::Return(Progress::Ready(()));
                },
            }
        }
        let ghost mid = self@;
        match self.pad.start_future_polling() {
            Some(guard) => {
                proof {
                    assert(self@.relays =~= mid.relays);
                    assert(scope_wf(self@));
                    assert(scope_with_relay(mid, slot, relay_lent(mid.relays[slot])).relays
                        =~= old(self)@.relays.insert(slot, relay_lent(old(self)@.relays[slot])));
                }
                let (future, respawned) = self.begin_polling(slot, manager);
                RelayAction::Poll { future, guard, respawned }
            },
            None => RelayAction::Return(Progress::Ready(())),
        }
    }

    /// Takes note that the future which the relay task in `slot` had handed out is finished, after
    /// `finished_tasks` others in the same go. A relay task that has finished enough of them puts
    /// another one in its place and is done.
    pub fn relay_finished(
        &mut self,
        slot: usize,
        manager: &mut SpawnManager,
        guard: FuturePollingGuard,
        finished_tasks: usize,
    ) -> (verdict: RelayVerdict)
        requires
            old(self).wf(),
            old(self)@.relays.contains_key(slot),
            old(self)@.relays[slot].lent,
            old(self)@.pad.current_tasks > 0,
            scope_fits(old(self)@, old(manager)@),
            old(manager)@.next_instance < usize::MAX,
            finished_tasks < usize::MAX,
            !guard.unfinished(),
        ensures
            final(self).wf(),
            scope_next(
                old(self)@,
                ScopeEvent::Finish {
                    slot,
                    books: old(manager)@,
                    finished_tasks,
                    respawned: verdict.respawned,
                },
                final(self)@,
            ),
            scope_fits(final(self)@, final(manager)@),
            verdict.done <==> finished_tasks + 1 > TASKS_PER_POLL,
            verdict.done <==> finished_tasks >= 5,
            verdict.respawned is Some <==> finished_tasks >= 5 && !old(self)@.pad.destroyed,
            verdict.respawned matches Some(added) ==> final(self)@.relays.contains_key(added)
                && final(self)@.relays[added].root == old(self)@.relays[slot].root,
            final(self)@.pad.current_tasks == old(self)@.pad.current_tasks - 1,
            !final(self)@.relays[slot].lent && final(self)@.relays[slot].future is None,
            old(self)@.pad.current_tasks == 1 ==> (old(
                self,
            )@.pad.waiter matches Some(signal) ==> signal.signalled()),
            ({
                let relay = old(self)@.relays[slot];
                let returned = scope_with_relay(
                    scope_with_pad(old(self)@, pad_task_ended(old(self)@.pad)),
                    slot,
                    relay_returned(relay, None),
                );
                let ended = manager_ended(old(manager)@);
                if finished_tasks + 1 > TASKS_PER_POLL {
                    relay_added(
                        returned,
                        ended,
                        relay.root,
                        final(self)@,
                        final(manager)@,
                        verdict.respawned,
                    )
                } else {
                    &&& verdict.respawned is None
                    &&& final(self)@ == returned
                    &&& final(manager)@ == ended
                }
            }),
    {
        self.take_back(slot, None);
        self.pad.end_future_polling(guard.poll_again());
        manager.end_polling();
        assert(scope_wf(self@));
        if finished_tasks + 1 > TASKS_PER_POLL {
            let root = self.relays.get(slot).is_root();
            let respawned = self.add_relay(manager, root);
            RelayVerdict { respawned, done: true }
        } else {
            RelayVerdict { respawned: None, done: false }
        }
    }

    /// Takes note that the future which the relay task in `slot` had handed out is not finished.
    /// It stays with the relay task, which is to answer that it is pending, and another relay task
    /// is added to go on with other futures.
    pub fn relay_unfinished(
        &mut self,
        slot: usize,
        manager: &mut SpawnManager,
        mut guard: FuturePollingGuard,
        future: F,
    ) -> (respawned: Option<usize>)
        requires
            old(self).wf(),
            old(self)@.relays.contains_key(slot),
            old(self)@.relays[slot].lent,
            scope_fits(old(self)@, old(manager)@),
            old(manager)@.next_instance < usize::MAX,
        ensures
            final(self).wf(),
            scope_next(
                old(self)@,
                ScopeEvent::Yield { slot, books: old(manager)@, future, respawned },
                final(self)@,
            ),
            scope_fits(final(self)@, final(manager)@),
            relay_added(
                scope_with_relay(
                    old(self)@,
                    slot,
                    relay_returned(old(self)@.relays[slot], Some(future)),
                ),
                manager_ended(old(manager)@),
                false,
                final(self)@,
                final(manager)@,
                respawned,
            ),
            respawned is Some <==> !old(self)@.pad.destroyed,
            respawned matches Some(added) ==> final(self)@.relays.contains_key(added)
                && !final(self)@.relays[added].root,
            final(self)@.pad.current_tasks == old(self)@.pad.current_tasks,
            !final(self)@.relays[slot].lent && final(self)@.relays[slot].future == Some(future),
    {
        guard.will_poll_again();
        self.take_back(slot, Some(future));
        self.pad.end_future_polling(guard.poll_again());
        manager.end_polling();
        self.add_relay(manager, false)
    }

    /// Takes note that polling the future which the relay task in `slot` had handed out has
    /// panicked. The future counts as finished, and will be dropped with the relay task. If that is
    /// the one that waits for futures, another one takes its place.
    pub fn relay_panicked(
        &mut self,
        slot: usize,
        manager: &mut SpawnManager,
        guard: FuturePollingGuard,
        future: F,
    ) -> (respawned: Option<usize>)
        requires
            old(self).wf(),
            old(self)@.relays.contains_key(slot),
            old(self)@.relays[slot].lent,
            old(self)@.pad.current_tasks > 0,
            scope_fits(old(self)@, old(manager)@),
            old(manager)@.next_instance < usize::MAX,
            !guard.unfinished(),
        ensures
            final(self).wf(),
            scope_next(
                old(self)@,
                ScopeEvent::Panic { slot, books: old(manager)@, future, respawned },
                final(self)@,
            ),
            scope_fits(final(self)@, final(manager)@),
            respawned is Some <==> old(self)@.relays[slot].root && !old(self)@.pad.destroyed,
            respawned matches Some(added) ==> final(self)@.relays.contains_key(added)
                && final(self)@.relays[added].root,
            final(self)@.pad.current_tasks == old(self)@.pad.current_tasks - 1,
            !final(self)@.relays[slot].lent && final(self)@.relays[slot].panicked,
            old(self)@.pad.current_tasks == 1 ==> (old(
                self,
            )@.pad.waiter matches Some(signal) ==> signal.signalled()),
            ({
                let relay = old(self)@.relays[slot];
                let returned = scope_with_relay(
                    scope_with_pad(old(self)@, pad_task_ended(old(self)@.pad)),
                    slot,
                    relay_panicked(relay_returned(relay, Some(future))),
                );
                let ended = manager_ended(old(manager)@);
                if relay.root {
                    relay_added(
                        returned,
                        ended,
                        true,
                        final(self)@,
                        final(manager)@,
                        respawned,
                    )
                } else {
                    &&& respawned is None
                    &&& final(self)@ == returned
                    &&& final(manager)@ == ended
                }
            }),
    {
        self.take_back(slot, Some(future));
        let root = self.relays.get(slot).is_root();
        self.relays.get_mut(slot).note_panic();
        self.pad.end_future_polling(guard.poll_again());
        manager.end_polling();
        proof {
            assert(self@.relays =~= old(self)@.relays.insert(
                slot,
                relay_panicked(relay_returned(old(self)@.relays[slot], Some(future))),
            ));
            assert(scope_wf(self@));
        }
        if root {
            self.add_relay(manager, true)
        } else {
            None
        }
    }

    /// Whether the relay task in `slot` can be ended: it is there, and its future is not being
    /// polled.
    pub fn can_drop(&self, slot: usize) -> (can: bool)
        requires
            self.wf(),
        ensures
            can <==> self@.relays.contains_key(slot) && !self@.relays[slot].lent,
    {
        self.relays.contains(slot) && !self.relays.get(slot).is_lent()
    }

    /// Ends the relay task in `slot`, which the spawn with the books `manager` has dropped. If its
    /// future did not go back to the queue, it comes back to be dropped.
    pub fn drop_relay(&mut self, slot: usize, manager: &mut SpawnManager) -> (dropped: Option<F>)
        requires
            old(self).wf(),
            old(self)@.relays.contains_key(slot),
            !old(self)@.relays[slot].lent,
        ensures
            final(self).wf(),
            scope_next(old(self)@, ScopeEvent::Retire { slot }, final(self)@),
            final(self)@ == scope_retired(old(self)@, slot),
            final(manager)@ == manager_unregistered(old(manager)@),
            scope_fits(old(self)@, old(manager)@) ==> scope_fits(final(self)@, final(manager)@),
            dropped == (if !old(self)@.relays[slot].panicked && !old(self)@.pad.destroyed {
                None
            } else {
                old(self)@.relays[slot].future
            }),
    {
        let dropped = match self.relays.remove(slot) {
            Some(mut relay) => relay.retire(&mut self.pad),
            None => None,
        };
        manager.unregister();
        assert(self@.relays =~= old(self)@.relays.remove(slot));
        dropped
    }

    /// Stops the scope: no future is accepted any more, and all that are not being polled come
    /// back to be dropped. If some are being polled, the caller is to wait for them to be reported
    /// and call again. Else everything is gone, those who wait for the scope to run out of futures
    /// are told, and the relay tasks to wake come back.
    pub fn stop(&mut self) -> (outcome: StopOutcome<F, W>)
        requires
            old(self).wf(),
        ensures
            final(self).wf(),
            scope_next(old(self)@, ScopeEvent::Stop, final(self)@),
            final(self)@ == scope_stopped(old(self)@),
            outcome.woken is Some <==> relays_polling(old(self)@) == no_relays(),
            outcome.woken is Some <==> forall|slot: usize| #[trigger]
                old(self)@.relays.contains_key(slot) ==> !old(self)@.relays[slot].lent,
            final(self)@.pad.destroyed,
            outcome.woken matches Some(woken) ==> {
                &&& woken@ == park_woken(old(self)@.pad.park)
                &&& woken@ == old(self)@.pad.park.parked
                &&& (old(self)@.pad.waiter matches Some(signal) ==> signal.signalled())
            },
            exists|order: Seq<usize>| #[trigger]
                is_drop_order(old(self)@, order) && outcome.dropped@ == futures_in(
                    old(self)@,
                    order,
                ) + (if outcome.woken is Some {
                    old(self)@.pad.tasks
                } else {
                    Seq::empty()
                }),
    {
        let ghost before = self@;
        proof {
            lemma_nothing_is_polled(before);
        }
        match self.pad.destroy() {
            Some((woken, dropped)) => {
                proof {
                    assert(relays_polling(before) =~= no_relays());
                    assert(self@.relays =~= scope_stopped(before).relays);
                    let order = Seq::<usize>::empty();
                    assert(is_drop_order(before, order));
                    assert(futures_in(before, order) + before.pad.tasks =~= before.pad.tasks);
                }
                return StopOutcome { dropped, woken: Some(woken) };
            },
            None => {},
        }
        let slots = self.pad.relay_slots();
        let mut dropped: Vec<F> = Vec::new();
        let ghost mut order = Seq::<usize>::empty();
        let mut i: usize = 0;
        while i < slots.len()
            invariant
                i <= slots.len(),
                self.wf(),
                scope_wf(before),
                before == old(self)@,
                forall|slot: usize| #[trigger]
                    slots@.contains(slot) <==> before.pad.relays.contains_value(slot),
                self@.pad == (RelayPadState {
                    destroyed: true,
                    relays: self@.pad.relays,
                    ..before.pad
                }),
                self@.relays.dom() == before.relays.dom(),
                forall|slot: usize| #[trigger]
                    before.relays.contains_key(slot) ==> self@.relays[slot] == (
                    if slots@.take(i as int).contains(slot) {
                        relay_stopped(before.relays[slot])
                    } else {
                        before.relays[slot]
                    }),
                self@.pad.relays.submap_of(before.pad.relays),
                forall|key: (usize, usize)| #[trigger]
                    before.pad.relays.contains_key(key) ==> (self@.pad.relays.contains_key(key)
                        <==> before.relays[before.pad.relays[key]].lent || !slots@.take(
                        i as int,
                    ).contains(before.pad.relays[key])),
                order.no_duplicates(),
                forall|slot: usize| #[trigger]
                    order.contains(slot) <==> slots@.take(i as int).contains(slot)
                        && future_is_dropped(before, slot),
                dropped@ == futures_in(before, order),
            decreases slots.len() - i,
        {
            let slot: usize = slots[i];
            let ghost seen = slots@.take(i as int);
            let ghost mid = self@;
            proof {
                assert(slots@.contains(slot));
                let key = choose|key: (usize, usize)| #[trigger]
                    before.pad.relays.contains_key(key) && before.pad.relays[key] == slot;
                assert(before.relays.contains_key(slot));
                assert(slots@.take(i + 1) =~= seen.push(slot));
                lemma_push_contains(seen, slot);
                lemma_push_contains(order, slot);
            }
            if !self.relays.get(slot).is_lent() {
                match self.relays.get_mut(slot).destroy(&mut self.pad, false) {
                    Some(future) => {
                        dropped.push(future);
                        proof {
                            assert(!seen.contains(slot));
                            assert(futures_in(before, order.push(slot)) =~= futures_in(
                                before,
                                order,
                            ).push(future));
                            assert(!order.contains(slot));
                            assert(order.push(slot).no_duplicates());
                            order = order.push(slot);
                        }
                    },
                    None => {},
                }
                assert(self@.relays =~= mid.relays.insert(slot, relay_destroyed(mid.relays[slot])));
            }
            i = i + 1;
        }
        proof {
            assert(slots@.take(slots@.len() as int) =~= slots@);
            let after = scope_stopped(before);
            assert forall|key: (usize, usize)| #[trigger]
                before.pad.relays.contains_key(key) implies slots@.contains(
                before.pad.relays[key],
            ) by {}
            assert(self@.pad.relays =~= relays_polling(before));
            assert(self@.relays =~= after.relays);
            assert(is_drop_order(before, order));
        }
        match self.pad.destroy() {
            Some((woken, mut tasks)) => {
                dropped.append(&mut tasks);
                StopOutcome { dropped, woken: Some(woken) }
            },
            None => {
                assert(dropped@ =~= futures_in(before, order) + Seq::<F>::empty());
                StopOutcome { dropped, woken: None }
            },
        }
    }
}

} // verus!

//! The books that the relay tasks of one spawn keep together.
//!
//! Relay tasks multiply to fill their spawn, but not beyond need: the books say how many of them
//! are not polling a future right now, and only while that number is small does a relay task that
//! starts polling bring another one along.

use vstd::prelude::*;

verus! {

/// With fewer idle relay tasks than this, one that starts polling brings another one along.
pub const IDLE_RELAYS_WANTED: usize = 5;

/// Names one relay task of one spawn.
#[derive(Debug, Clone, Copy, PartialEq, Eq, Hash, Structural)]
pub struct RelayFutureId {
    pub spawn_id: usize,
    pub instance: usize,
}

/// What the books say: how many relay tasks are not polling a future, how many there are, which
/// spawn they run on, and the number of the next one.
#[verifier::ext_equal]
pub struct ManagerState {
    pub non_working: usize,
    pub all: usize,
    pub id: usize,
    pub next_instance: usize,
}

/// The books of the spawn `id` before its first relay task.
pub open spec fn manager_new(id: usize) -> ManagerState {
    ManagerState { non_working: 0, all: 0, id, next_instance: 0 }
}

/// The books after a relay task was added.
pub open spec fn manager_registered(m: ManagerState) -> ManagerState {
    ManagerState {
        non_working: m.non_working.wrapping_add(1),
        all: m.all.wrapping_add(1),
        id: m.id,
        next_instance: m.next_instance.wrapping_add(1),
    }
}

/// The name of the relay task that is added next.
pub open spec fn manager_next_id(m: ManagerState) -> RelayFutureId {
    RelayFutureId { spawn_id: m.id, instance: m.next_instance }
}

/// The books after a relay task is gone.
pub open spec fn manager_unregistered(m: ManagerState) -> ManagerState {
    ManagerState {
        non_working: m.non_working.wrapping_sub(1),
        all: m.all.wrapping_sub(1),
        id: m.id,
        next_instance: m.next_instance,
    }
}

/// The books after a relay task started polling a future.
pub open spec fn manager_started(m: ManagerState) -> ManagerState {
    ManagerState {
        non_working: (m.non_working - 1) as usize,
        all: m.all,
        id: m.id,
        next_instance: m.next_instance,
    }
}

/// The books after a relay task ended polling a future.
pub open spec fn manager_ended(m: ManagerState) -> ManagerState {
    ManagerState {
        non_working: m.non_working.wrapping_add(1),
        all: m.all,
        id: m.id,
        next_instance: m.next_instance,
    }
}

/// Whether a relay task that starts polling brings another one along: so few would be idle.
pub open spec fn manager_wants_relay(m: ManagerState) -> bool {
    m.non_working - 1 < IDLE_RELAYS_WANTED
}

/// The books of the relay tasks of one spawn.
#[derive(Debug)]
pub struct SpawnManager {
    non_working: usize,
    all: usize,
    id: usize,
    next_instance: usize,
}

impl View for SpawnManager {
    type V = ManagerState;

    closed spec fn view(&self) -> ManagerState {
        ManagerState {
            non_working: self.non_working,
            all: self.all,
            id: self.id,
            next_instance: self.next_instance,
        }
    }
}

/// Stands for a relay task that is polling a future.
#[derive(Debug)]
pub struct RespawnCounterPollingGuard {
    should_respawn: bool,
}

impl RespawnCounterPollingGuard {
    /// Whether another relay task is wanted.
    pub closed spec fn wants_relay(&self) -> bool {
        self.should_respawn
    }

    /// Whether another relay task is to be brought along.
    pub fn should_respawn(&self) -> (wanted: bool)
        ensures
            wanted == self.wants_relay(),
    {
        self.should_respawn
    }
}

impl SpawnManager {
    /// The books of the spawn `id`, without relay tasks.
    pub fn new(id: usize) -> (manager: Self)
        ensures
            manager@ == manager_new(id),
    {
        SpawnManager { non_working: 0, all: 0, id, next_instance: 0 }
    }

    /// How many relay tasks are not polling a future.
    pub fn non_working(&self) -> (count: usize)
        ensures
            count == self@.non_working,
    {
        self.non_working
    }

    /// The number of the next relay task.
    pub fn next_instance(&self) -> (instance: usize)
        ensures
            instance == self@.next_instance,
    {
        self.next_instance
    }

    /// Enters a new relay task, which is idle, and names it.
    pub fn register(&mut self) -> (id: RelayFutureId)
        ensures
            final(self)@ == manager_registered(old(self)@),
            id == manager_next_id(old(self)@),
    {
        self.non_working = self.non_working.wrapping_add(1);
        self.all = self.all.wrapping_add(1);
        let instance: usize = self.next_instance;
        self.next_instance = instance.wrapping_add(1);
        RelayFutureId { spawn_id: self.id, instance }
    }

    /// Strikes out an idle relay task.
    pub fn unregister(&mut self)
        ensures
            final(self)@ == manager_unregistered(old(self)@),
    {
        self.non_working = self.non_working.wrapping_sub(1);
        self.all = self.all.wrapping_sub(1);
    }

    /// Notes that an idle relay task starts polling a future.
    pub fn start_polling(&mut self) -> (guard: RespawnCounterPollingGuard)
        requires
            old(self)@.non_working > 0,
        ensures
            final(self)@ == manager_started(old(self)@),
            guard.wants_relay() == manager_wants_relay(old(self)@),
            guard.wants_relay() <==> final(self)@.non_working < 5,
            final(self)@.non_working == old(self)@.non_working - 1,
    {
        self.non_working = self.non_working - 1;
        RespawnCounterPollingGuard { should_respawn: self.non_working < IDLE_RELAYS_WANTED }
    }

    /// Notes that a relay task ended polling a future and is idle again.
    pub fn end_polling(&mut self)
        ensures
            final(self)@ == manager_ended(old(self)@),
    {
        self.non_working = self.non_working.wrapping_add(1);
    }
}

/// The books after `count` relay tasks were added.
pub open spec fn manager_registered_times(m: ManagerState, count: nat) -> ManagerState
    decreases count,
{
    if count == 0 {
        m
    } else {
        manager_registered(manager_registered_times(m, (count - 1) as nat))
    }
}

/// A relay task that ends polling is as idle as before it started.
pub proof fn law_polling_leaves_no_trace(m: ManagerState)
    requires
        m.non_working > 0,
    ensures
        manager_ended(manager_started(m)) == m,
{
}

/// What may happen to the books.
pub enum BookOp {
    /// A relay task was added.
    Register,
    /// An idle relay task is gone.
    Unregister,
    /// An idle relay task started polling.
    Start,
    /// A relay task ended polling.
    End,
}

/// The books after `op`.
pub open spec fn manager_step(m: ManagerState, op: BookOp) -> ManagerState {
    match op {
        BookOp::Register => manager_registered(m),
        BookOp::Unregister => manager_unregistered(m),
        BookOp::Start => manager_started(m),
        BookOp::End => manager_ended(m),
    }
}

/// How many relay tasks are polling after `op`, where `polling` were before.
pub open spec fn polling_step(polling: int, op: BookOp) -> int {
    match op {
        BookOp::Start => polling + 1,
        BookOp::End => polling - 1,
        _ => polling,
    }
}

/// The relay task that `op` speaks of is there, and one more can be counted.
pub open spec fn book_op_possible(m: ManagerState, polling: int, op: BookOp) -> bool {
    match op {
        BookOp::Register => m.all < usize::MAX,
        BookOp::Unregister => m.non_working > 0,
        BookOp::Start => m.non_working > 0,
        BookOp::End => polling > 0,
    }
}

/// The relay tasks that are idle and those that are polling are all that there are: so it is in
/// new books, and whatever happens keeps it so.
pub proof fn law_idle_and_polling_are_all(m: ManagerState, polling: int, op: BookOp, id: usize)
    requires
        polling >= 0,
        m.non_working + polling == m.all,
        book_op_possible(m, polling, op),
    ensures
        manager_step(m, op).non_working + polling_step(polling, op) == manager_step(m, op).all,
        polling_step(polling, op) >= 0,
        manager_new(id).non_working + 0 == manager_new(id).all,
{
}

/// A relay task that comes and goes leaves nothing in the books but its number.
pub proof fn law_relay_leaves_its_number(m: ManagerState)
    ensures
        manager_unregistered(manager_registered(m)) == (ManagerState {
            next_instance: m.next_instance.wrapping_add(1),
            ..m
        }),
{
}

/// The number of the next relay task goes up with every one that is added, and starts over after
/// the greatest one.
proof fn lemma_instances_count(m: ManagerState, count: nat)
    requires
        count <= usize::MAX,
    ensures
        manager_registered_times(m, count).id == m.id,
        manager_registered_times(m, count).next_instance == m.next_instance + count
            || manager_registered_times(m, count).next_instance == m.next_instance + count - (
        usize::MAX + 1),
    decreases count,
{
    if count > 0 {
        lemma_instances_count(m, (count - 1) as nat);
    }
}

/// No two relay tasks of a spawn get the same name, as long as the numbers do not start over in
/// between.
pub proof fn law_names_do_not_repeat(m: ManagerState, count: nat)
    requires
        0 < count <= usize::MAX,
    ensures
        manager_next_id(manager_registered_times(m, count)) != manager_next_id(m),
{
    lemma_instances_count(m, count);
}

} // verus!

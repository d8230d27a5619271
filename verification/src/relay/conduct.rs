//! What each step does to a relay scope, part by part: to the queue, the count, the relay tasks,
//! those who are parked and those who wait for the last future.
//!
//! Everything is said of the parts themselves, for every scope and every argument.

use vstd::prelude::*;

use crate::relay::custody::handed_out;
use crate::relay::laws::{scope_next, ScopeEvent};
use crate::relay::registry::relay_key;
use crate::relay::relay_pad::{
    pad_dequeue_answer, pad_dequeued, pad_destroyed, pad_enqueued, pad_new, pad_polling_ended,
    pad_polling_started, pad_registered, pad_spawn_numbered, pad_unregistered, RelayPadState,
    TaskDequeueErr,
};
use crate::relay::scope::{
    future_is_dropped, futures_in, is_drop_order, polling_begun, relay_added, relay_waker,
    relays_polling, scope_can_poll, scope_fits, scope_wf, RelayScopeState, TASKS_PER_POLL,
};
use crate::relay::spawn_manager::{
    manager_ended, manager_new, manager_next_id, manager_registered, manager_started,
    manager_unregistered, manager_wants_relay, ManagerState, RelayFutureId, IDLE_RELAYS_WANTED,
};
use crate::relay::waker_park::{
    park_announced, park_new, park_wait, park_wake, park_woken, ParkState,
};

verus! {

/// Another relay task is brought along exactly if fewer than five stay idle when one starts
/// polling, and a relay task makes room for others with the sixth future that it finishes in one
/// go. More idle relay tasks never make it bring one along that fewer do not.
pub proof fn law_relays_multiply_within_bounds(m: ManagerState, busier: ManagerState)
    requires
        m.non_working > 0,
        0 < busier.non_working <= m.non_working,
    ensures
        manager_started(m).non_working + 1 == m.non_working,
        manager_wants_relay(m) <==> manager_started(m).non_working < 5,
        manager_started(m).non_working >= 5 ==> !manager_wants_relay(m),
        manager_wants_relay(m) ==> manager_wants_relay(busier),
        IDLE_RELAYS_WANTED == 5,
        TASKS_PER_POLL == 5,
{
}

/// Entering a relay task adds one idle relay task and gives out the next number under the number
/// of the spawn; striking one out takes an idle one away; starting and ending to poll make one busy
/// and idle again. Nothing else in the books changes.
pub proof fn law_books_count_relays(m: ManagerState, id: usize)
    requires
        0 < m.non_working < usize::MAX,
        0 < m.all < usize::MAX,
        m.next_instance < usize::MAX,
    ensures
        manager_new(id).non_working == 0 && manager_new(id).all == 0 && manager_new(id).id == id
            && manager_new(id).next_instance == 0,
        manager_registered(m).non_working == m.non_working + 1,
        manager_registered(m).all == m.all + 1,
        manager_registered(m).id == m.id,
        manager_registered(m).next_instance == m.next_instance + 1,
        manager_next_id(m).spawn_id == m.id,
        manager_next_id(m).instance == m.next_instance,
        manager_unregistered(m).non_working == m.non_working - 1,
        manager_unregistered(m).all == m.all - 1,
        manager_unregistered(m).id == m.id,
        manager_unregistered(m).next_instance == m.next_instance,
        manager_started(m).non_working == m.non_working - 1,
        manager_started(m).all == m.all,
        manager_started(m).id == m.id,
        manager_started(m).next_instance == m.next_instance,
        manager_ended(m).non_working == m.non_working + 1,
        manager_ended(m).all == m.all,
        manager_ended(m).id == m.id,
        manager_ended(m).next_instance == m.next_instance,
{
}

/// All counts go round: after the greatest number comes zero. Nothing else happens at the end of the
/// numbers, in the books or on the pad.
pub proof fn law_counts_go_round<F, W>(m: ManagerState, pad: RelayPadState<F, W>, task: F)
    ensures
        m.non_working == usize::MAX ==> manager_registered(m).non_working == 0
            && manager_ended(m).non_working == 0,
        m.all == usize::MAX ==> manager_registered(m).all == 0,
        m.next_instance == usize::MAX ==> manager_registered(m).next_instance == 0,
        m.non_working == 0 ==> manager_unregistered(m).non_working == usize::MAX,
        m.all == 0 ==> manager_unregistered(m).all == usize::MAX,
        m.non_working < usize::MAX ==> manager_ended(m).non_working == m.non_working + 1,
        manager_registered(m).id == m.id && manager_unregistered(m).id == m.id,
        manager_unregistered(m).next_instance == m.next_instance,
        manager_ended(m).all == m.all && manager_ended(m).id == m.id
            && manager_ended(m).next_instance == m.next_instance,
        pad.next_spawn_id == usize::MAX ==> pad_spawn_numbered(pad) == (RelayPadState {
            next_spawn_id: 0,
            ..pad
        }),
        !pad.destroyed && pad.current_tasks == usize::MAX ==> {
            let after = pad_enqueued(pad, task);
            &&& after.current_tasks == 0
            &&& after.tasks == pad.tasks.push(task)
        },
{
}

/// Relay tasks with different names are registered under different keys.
pub proof fn law_keys_tell_names_apart(one: RelayFutureId, other: RelayFutureId)
    requires
        one.spawn_id != other.spawn_id || one.instance != other.instance,
    ensures
        relay_key(one) != relay_key(other),
{
}

/// A new park is empty. Parking with the current token puts the waker behind those that are parked,
/// with any other token it changes nobody's place. A wake-up hands out all that are parked, in
/// order, leaves none, and makes every token that was given out before worthless.
pub proof fn law_park_hands_out_what_was_parked<W>(park: ParkState<W>, waker: W, token: usize)
    requires
        park_announced(park),
    ensures
        park_new::<W>().parked.len() == 0,
        park_wait(park, waker, park.token).parked == park.parked.push(waker),
        token != park.token ==> park_wait(park, waker, token).parked == park.parked,
        park_wait(park, waker, token).token == park.token,
        park_woken(park) == park.parked,
        park_woken(park_wait(park, waker, park.token)) == park.parked.push(waker),
        park_wake(park).parked.len() == 0,
        park_wake(park).token != park.token,
        park_announced(park_wait(park, waker, token)),
        park_announced(park_wake(park)),
{
}

/// A relay task that asks an open pad for a future gets the one that waits longest, which leaves the
/// queue, and nothing else changes. If there is none, it is told to wait exactly if it came with a
/// waker, and that waker then stands behind all others that are parked, whatever else the pad
/// holds. A pad that is shut down gives out nothing and does not change.
pub proof fn law_asking_for_a_future<F, W>(pad: RelayPadState<F, W>, waker: Option<W>)
    ensures
        ({
            let after = pad_dequeued(pad, waker);
            let answer = pad_dequeue_answer(pad, waker is Some);
            &&& pad.destroyed ==> answer == Err::<F, TaskDequeueErr>(TaskDequeueErr::Destroy)
                && after == pad
            &&& !pad.destroyed && pad.tasks.len() > 0 ==> {
                &&& answer == Ok::<F, TaskDequeueErr>(pad.tasks[0])
                &&& seq![pad.tasks[0]] + after.tasks == pad.tasks
                &&& after.park == pad.park
            }
            &&& !pad.destroyed && pad.tasks.len() == 0 && waker is None ==> {
                &&& answer == Err::<F, TaskDequeueErr>(TaskDequeueErr::NoTasks)
                &&& after == pad
            }
            &&& !pad.destroyed && pad.tasks.len() == 0 && waker is Some ==> {
                &&& answer == Err::<F, TaskDequeueErr>(TaskDequeueErr::WaitingForTasks)
                &&& after.tasks == pad.tasks
                &&& after.park.parked == pad.park.parked.push(waker->0)
                &&& after.park.has_wakers
                &&& after.park.token == pad.park.token
            }
            &&& after.next_spawn_id == pad.next_spawn_id
            &&& after.relays == pad.relays
            &&& after.current_tasks == pad.current_tasks
            &&& after.destroyed == pad.destroyed
            &&& after.waiter == pad.waiter
        }),
{
    if pad.tasks.len() > 0 {
        assert(seq![pad.tasks[0]] + pad.tasks.drop_first() =~= pad.tasks);
    }
}

/// Whenever a relay task was told to wait, the next spawn hands its waker out to be woken, behind
/// those of all who were parked before it, and its future is then the only one in the queue.
pub proof fn law_who_waits_is_woken_by_the_next_spawn<F, W>(
    pad: RelayPadState<F, W>,
    waker: W,
    task: F,
)
    requires
        park_announced(pad.park),
        pad_dequeue_answer(pad, true) == Err::<F, TaskDequeueErr>(TaskDequeueErr::WaitingForTasks),
    ensures
        ({
            let waiting = pad_dequeued(pad, Some(waker));
            let spawned = pad_enqueued(waiting, task);
            &&& park_woken(waiting.park) == pad.park.parked.push(waker)
            &&& spawned.tasks == seq![task]
            &&& spawned.park.parked.len() == 0
            &&& pad_dequeue_answer(spawned, true) == Ok::<F, TaskDequeueErr>(task)
        }),
{
    assert(pad.tasks.push(task) =~= seq![task]);
}

/// A spawn on an open pad puts the future behind all others, counts it, and leaves nobody parked; a
/// pad that is shut down does not change.
pub proof fn law_spawning_queues_and_counts<F, W>(pad: RelayPadState<F, W>, task: F)
    requires
        park_announced(pad.park),
        pad.current_tasks < usize::MAX,
    ensures
        ({
            let after = pad_enqueued(pad, task);
            &&& pad.destroyed ==> after == pad
            &&& !pad.destroyed ==> {
                &&& after.tasks == pad.tasks.push(task)
                &&& after.current_tasks == pad.current_tasks + 1
                &&& after.park.parked.len() == 0
                &&& after.park.token != pad.park.token
            }
            &&& after.next_spawn_id == pad.next_spawn_id
            &&& after.relays == pad.relays
            &&& after.destroyed == pad.destroyed
            &&& after.waiter == pad.waiter
        }),
{
}

/// The pad of a new scope is open and has nothing on it. Numbering a spawn, registering a relay task
/// and striking one out change what they are named for: the number, the one entry, and the one entry
/// with the future that it leaves behind, which goes to the end of the queue of an open pad.
pub proof fn law_pad_keeps_its_lists<F, W>(
    pad: RelayPadState<F, W>,
    id: RelayFutureId,
    slot: usize,
    left: Option<F>,
)
    requires
        pad.next_spawn_id < usize::MAX,
    ensures
        ({
            let fresh = pad_new::<F, W>();
            &&& fresh.next_spawn_id == 0 && fresh.tasks.len() == 0 && fresh.current_tasks == 0
            &&& !fresh.destroyed && fresh.waiter is None && fresh.park.parked.len() == 0
            &&& forall|key: (usize, usize)| !(#[trigger] fresh.relays.contains_key(key))
        }),
        pad_spawn_numbered(pad) == (RelayPadState {
            next_spawn_id: (pad.next_spawn_id + 1) as usize,
            ..pad
        }),
        !pad.destroyed ==> pad_registered(pad, id, slot) == (RelayPadState {
            relays: pad.relays.insert((id.spawn_id, id.instance), slot),
            ..pad
        }),
        pad.destroyed ==> pad_registered(pad, id, slot) == pad,
        ({
            let after = pad_unregistered(pad, id, left);
            &&& after.relays == pad.relays.remove((id.spawn_id, id.instance))
            &&& left is Some && !pad.destroyed ==> after.tasks == pad.tasks.push(left->0)
            &&& left is None || pad.destroyed ==> after.tasks == pad.tasks
            &&& after.next_spawn_id == pad.next_spawn_id && after.park == pad.park
            &&& after.current_tasks == pad.current_tasks && after.destroyed == pad.destroyed
            &&& after.waiter == pad.waiter
        }),
{
}

/// A future that is finished, or given up because the scope is shut down, is counted once, and with
/// the last one nobody waits any more. Nothing else changes; nor does anything if the future is
/// polled again.
pub proof fn law_ending_counts_down<F, W>(pad: RelayPadState<F, W>)
    requires
        pad.current_tasks > 0,
    ensures
        ({
            let after = pad_polling_ended(pad, false);
            &&& after.current_tasks == pad.current_tasks - 1
            &&& after.current_tasks == 0 ==> after.waiter is None
            &&& after.current_tasks > 0 ==> after.waiter == pad.waiter
            &&& after.next_spawn_id == pad.next_spawn_id && after.tasks == pad.tasks
            &&& after.relays == pad.relays && after.park == pad.park
            &&& after.destroyed == pad.destroyed
        }),
        pad_polling_ended(pad, true) == pad,
        !pad.destroyed ==> pad_polling_started(pad) == pad,
        pad.destroyed ==> pad_polling_started(pad) == pad_polling_ended(pad, false),
{
}

/// Shutting a pad down closes it. If no relay task is registered, nothing is left on it, nobody is
/// parked and nobody waits; else all that is there stays for the time being.
pub proof fn law_shutting_down_closes<F, W>(pad: RelayPadState<F, W>, key: (usize, usize))
    requires
        park_announced(pad.park),
    ensures
        ({
            let after = pad_destroyed(pad);
            &&& after.destroyed
            &&& after.next_spawn_id == pad.next_spawn_id && after.relays == pad.relays
            &&& pad.relays.contains_key(key) ==> after == (RelayPadState { destroyed: true, ..pad })
            &&& pad.relays == Map::<(usize, usize), usize>::empty() ==> after.tasks.len() == 0
                && after.current_tasks == 0 && after.waiter is None && after.park.parked.len() == 0
        }),
{
}

/// Spawning on a scope changes its pad alone: on an open scope the future goes behind all others, is
/// counted, and nobody is parked any more.
pub proof fn law_spawn_step<F, W>(
    before: RelayScopeState<F, W>,
    future: F,
    after: RelayScopeState<F, W>,
)
    requires
        scope_next(before, ScopeEvent::<F, W>::Spawn { future }, after),
        park_announced(before.pad.park),
        before.pad.current_tasks < usize::MAX,
    ensures
        after.relays == before.relays,
        before.pad.destroyed ==> after == before,
        !before.pad.destroyed ==> after.pad.tasks == before.pad.tasks.push(future)
            && after.pad.current_tasks == before.pad.current_tasks + 1
            && after.pad.park.parked.len() == 0,
        after.pad.relays == before.pad.relays && after.pad.destroyed == before.pad.destroyed
            && after.pad.waiter == before.pad.waiter,
{
}

/// Relaying an open scope to another spawn, whatever its number, adds one relay task in a free slot,
/// and that one is to wait for futures: it is idle, has none yet, and is the first of a spawn whose
/// number was not given out before. Nothing else changes but the number of the next spawn.
pub proof fn law_relaying_adds_one_that_waits<F, W>(
    before: RelayScopeState<F, W>,
    added: Option<usize>,
    after: RelayScopeState<F, W>,
)
    requires
        scope_next(before, ScopeEvent::<F, W>::Relay { added }, after),
    ensures
        added is Some <==> !before.pad.destroyed,
        after.pad.next_spawn_id == before.pad.next_spawn_id + 1,
        added is None ==> after.relays == before.relays && after.pad.relays == before.pad.relays,
        added matches Some(slot) ==> {
            let relay = after.relays[slot];
            &&& !before.relays.contains_key(slot)
            &&& after.relays == before.relays.insert(slot, relay)
            &&& relay.root
            &&& relay.future is None && !relay.lent && !relay.panicked && !relay.destroyed
            &&& relay.id.spawn_id == before.pad.next_spawn_id && relay.id.instance == 0
            &&& after.pad.relays == before.pad.relays.insert(
                (before.pad.next_spawn_id, 0usize),
                slot,
            )
        },
        after.pad.tasks == before.pad.tasks,
        after.pad.current_tasks == before.pad.current_tasks,
        after.pad.park == before.pad.park,
        after.pad.destroyed == before.pad.destroyed,
        after.pad.waiter == before.pad.waiter,
{
}

/// However many spawns a scope was relayed to, the relay task that relaying adds waits when it is
/// polled while no future is queued: its waker is parked, behind those that were, and the next spawn
/// hands it out.
pub proof fn law_every_spawn_waits_for_futures<F, W>(
    before: RelayScopeState<F, W>,
    slot: usize,
    relayed: RelayScopeState<F, W>,
    waker: W,
    after: RelayScopeState<F, W>,
    books: ManagerState,
)
    requires
        scope_next(before, ScopeEvent::<F, W>::Relay { added: Some(slot) }, relayed),
        before.pad.tasks.len() == 0,
        park_announced(before.pad.park),
        books.non_working > 0,
        books.next_instance < usize::MAX,
        scope_next(relayed, ScopeEvent::Idle { slot, waker }, after),
    ensures
        scope_can_poll(relayed, slot, books),
        relay_waker(relayed.relays[slot], waker) == Some(waker),
        pad_dequeue_answer(relayed.pad, relayed.relays[slot].root) == Err::<F, TaskDequeueErr>(
            TaskDequeueErr::WaitingForTasks,
        ),
        after.pad.park.parked == before.pad.park.parked.push(waker),
        park_woken(after.pad.park) == before.pad.park.parked.push(waker),
{
}

/// Adding a relay task to an open scope puts it into a free slot, under the next name of its books,
/// waiting for futures or not as it was asked to; it is idle and has no future yet. Nothing else
/// changes. A scope that is shut down gets none.
pub proof fn law_added_relay_is_as_asked<F, W>(
    before: RelayScopeState<F, W>,
    books: ManagerState,
    root: bool,
    after: RelayScopeState<F, W>,
    books_after: ManagerState,
    slot: Option<usize>,
)
    requires
        relay_added(before, books, root, after, books_after, slot),
        books.non_working < usize::MAX,
        books.all < usize::MAX,
        books.next_instance < usize::MAX,
    ensures
        slot is Some <==> !before.pad.destroyed,
        slot is None ==> after == before,
        slot matches Some(slot) ==> {
            let relay = after.relays[slot];
            &&& !before.relays.contains_key(slot)
            &&& after.relays == before.relays.insert(slot, relay)
            &&& relay.root == root
            &&& relay.future is None && !relay.lent && !relay.panicked && !relay.destroyed
            &&& relay.id.spawn_id == books.id && relay.id.instance == books.next_instance
            &&& after.pad == (RelayPadState {
                relays: before.pad.relays.insert((books.id, books.next_instance), slot),
                ..before.pad
            })
        },
        books_after.non_working == books.non_working + 1,
        books_after.all == books.all + 1,
        books_after.next_instance == books.next_instance + 1,
        books_after.id == books.id,
{
}

/// Polling a relay task that hands a future out: it is the relay task's own, or else the one that
/// waits longest, which leaves the queue. The relay task has lent it and is busy. Exactly if fewer
/// than five stay idle, one more relay task is added, which does not wait for futures.
pub proof fn law_hand_out_step<F, W>(
    before: RelayScopeState<F, W>,
    slot: usize,
    waker: W,
    books: ManagerState,
    respawned: Option<usize>,
    after: RelayScopeState<F, W>,
)
    requires
        scope_next(before, ScopeEvent::HandOut { slot, waker, books, respawned }, after),
    ensures
        !before.pad.destroyed,
        before.relays.contains_key(slot),
        !before.relays[slot].lent && !before.relays[slot].panicked,
        after.relays.contains_key(slot),
        after.relays[slot].lent && after.relays[slot].future is None,
        after.relays[slot].id == before.relays[slot].id,
        after.relays[slot].root == before.relays[slot].root,
        after.relays[slot].panicked == before.relays[slot].panicked,
        after.relays[slot].destroyed == before.relays[slot].destroyed,
        before.relays[slot].future is Some ==> after.pad.tasks == before.pad.tasks,
        before.relays[slot].future is None ==> before.pad.tasks.len() > 0 && seq![
            before.pad.tasks[0],
        ] + after.pad.tasks == before.pad.tasks,
        respawned is Some <==> books.non_working <= 5,
        respawned matches Some(added) ==> {
            let relay = after.relays[added];
            &&& added != slot
            &&& !before.relays.contains_key(added)
            &&& after.relays == before.relays.insert(slot, after.relays[slot]).insert(added, relay)
            &&& !relay.root
            &&& relay.future is None && !relay.lent && !relay.panicked && !relay.destroyed
            &&& relay.id.spawn_id == books.id && relay.id.instance == books.next_instance
            &&& after.pad.relays == before.pad.relays.insert(
                (books.id, books.next_instance),
                added,
            )
        },
        respawned is None ==> after.relays == before.relays.insert(slot, after.relays[slot])
            && after.pad.relays == before.pad.relays,
        after.pad.current_tasks == before.pad.current_tasks,
        after.pad.park == before.pad.park,
        after.pad.destroyed == before.pad.destroyed,
        after.pad.waiter == before.pad.waiter,
        after.pad.next_spawn_id == before.pad.next_spawn_id,
{
    if before.relays[slot].future is None {
        assert(seq![before.pad.tasks[0]] + before.pad.tasks.drop_first() =~= before.pad.tasks);
    }
}

/// Polling a relay task for which there is no future changes no relay task and no queue. On an open
/// scope the relay task that waits is parked with the given waker, whatever else the pad holds, and
/// any other changes nothing. On a scope that is shut down only a future that the relay task has in
/// hand is counted as over.
pub proof fn law_idle_step<F, W>(
    before: RelayScopeState<F, W>,
    slot: usize,
    waker: W,
    after: RelayScopeState<F, W>,
)
    requires
        scope_next(before, ScopeEvent::Idle { slot, waker }, after),
    ensures
        after.relays == before.relays,
        after.pad.tasks == before.pad.tasks,
        after.pad.relays == before.pad.relays,
        after.pad.destroyed == before.pad.destroyed,
        after.pad.next_spawn_id == before.pad.next_spawn_id,
        !before.pad.destroyed ==> {
            &&& before.relays[slot].future is None && before.pad.tasks.len() == 0
            &&& before.relays[slot].root ==> after.pad.park.parked == before.pad.park.parked.push(
                waker,
            ) && after.pad.park.has_wakers
            &&& !before.relays[slot].root ==> after.pad.park == before.pad.park
            &&& after.pad.current_tasks == before.pad.current_tasks
            &&& after.pad.waiter == before.pad.waiter
        },
        before.pad.destroyed ==> {
            &&& after.pad.park == before.pad.park
            &&& before.relays[slot].future is None ==> after == before
            &&& before.relays[slot].future is Some ==> after.pad.current_tasks
                == before.pad.current_tasks - 1 && (after.pad.current_tasks > 0
                ==> after.pad.waiter == before.pad.waiter) && (after.pad.current_tasks == 0
                ==> after.pad.waiter is None)
        },
{
}

/// A future that is finished leaves the scope: the relay task has none any more and is idle, and the
/// count goes down. After the sixth one in one go another relay task takes its place, which waits
/// for futures exactly if it did.
pub proof fn law_finish_step<F, W>(
    before: RelayScopeState<F, W>,
    slot: usize,
    books: ManagerState,
    finished_tasks: usize,
    respawned: Option<usize>,
    after: RelayScopeState<F, W>,
)
    requires
        scope_next(before, ScopeEvent::Finish { slot, books, finished_tasks, respawned }, after),
    ensures
        before.relays.contains_key(slot) && before.relays[slot].lent,
        after.relays.contains_key(slot),
        !after.relays[slot].lent && after.relays[slot].future is None,
        after.relays[slot].id == before.relays[slot].id,
        after.relays[slot].root == before.relays[slot].root,
        after.relays[slot].panicked == before.relays[slot].panicked,
        after.relays[slot].destroyed == before.relays[slot].destroyed,
        after.pad.current_tasks == before.pad.current_tasks - 1,
        after.pad.current_tasks == 0 ==> after.pad.waiter is None,
        after.pad.current_tasks > 0 ==> after.pad.waiter == before.pad.waiter,
        respawned is Some <==> finished_tasks >= 5 && !before.pad.destroyed,
        respawned matches Some(added) ==> {
            let relay = after.relays[added];
            &&& added != slot
            &&& !before.relays.contains_key(added)
            &&& after.relays == before.relays.insert(slot, after.relays[slot]).insert(added, relay)
            &&& relay.root == before.relays[slot].root
            &&& relay.future is None && !relay.lent && !relay.panicked && !relay.destroyed
            &&& relay.id.spawn_id == books.id && relay.id.instance == books.next_instance
            &&& after.pad.relays == before.pad.relays.insert(
                (books.id, books.next_instance),
                added,
            )
        },
        respawned is None ==> after.relays == before.relays.insert(slot, after.relays[slot])
            && after.pad.relays == before.pad.relays,
        after.pad.tasks == before.pad.tasks,
        after.pad.park == before.pad.park,
        after.pad.destroyed == before.pad.destroyed,
        after.pad.next_spawn_id == before.pad.next_spawn_id,
{
}

/// A future that is not finished stays with the relay task that had lent it, and is not counted. On
/// an open scope another relay task is added to go on with other futures, which does not wait.
pub proof fn law_yield_step<F, W>(
    before: RelayScopeState<F, W>,
    slot: usize,
    books: ManagerState,
    future: F,
    respawned: Option<usize>,
    after: RelayScopeState<F, W>,
)
    requires
        scope_next(before, ScopeEvent::Yield { slot, books, future, respawned }, after),
    ensures
        before.relays.contains_key(slot) && before.relays[slot].lent,
        after.relays.contains_key(slot),
        !after.relays[slot].lent && after.relays[slot].future == Some(future),
        after.relays[slot].id == before.relays[slot].id,
        after.relays[slot].root == before.relays[slot].root,
        after.relays[slot].panicked == before.relays[slot].panicked,
        after.relays[slot].destroyed == before.relays[slot].destroyed,
        respawned is Some <==> !before.pad.destroyed,
        respawned matches Some(added) ==> {
            let relay = after.relays[added];
            &&& added != slot
            &&& !before.relays.contains_key(added)
            &&& after.relays == before.relays.insert(slot, after.relays[slot]).insert(added, relay)
            &&& !relay.root
            &&& relay.future is None && !relay.lent && !relay.panicked && !relay.destroyed
            &&& relay.id.spawn_id == books.id && relay.id.instance == books.next_instance
            &&& after.pad.relays == before.pad.relays.insert(
                (books.id, books.next_instance),
                added,
            )
        },
        respawned is None ==> after.relays == before.relays.insert(slot, after.relays[slot])
            && after.pad.relays == before.pad.relays,
        after.pad.current_tasks == before.pad.current_tasks,
        after.pad.waiter == before.pad.waiter,
        after.pad.tasks == before.pad.tasks,
        after.pad.park == before.pad.park,
        after.pad.destroyed == before.pad.destroyed,
        after.pad.next_spawn_id == before.pad.next_spawn_id,
{
}

/// A future whose polling has panicked counts as over. Its relay task cannot be polled any more, and
/// what it holds never goes back to the queue. If that relay task waited for futures, another one
/// that does takes its place on an open scope.
pub proof fn law_panic_step<F, W>(
    before: RelayScopeState<F, W>,
    slot: usize,
    books: ManagerState,
    future: F,
    respawned: Option<usize>,
    after: RelayScopeState<F, W>,
    any_books: ManagerState,
)
    requires
        scope_next(before, ScopeEvent::Panic { slot, books, future, respawned }, after),
    ensures
        before.relays.contains_key(slot) && before.relays[slot].lent,
        after.relays.contains_key(slot),
        !after.relays[slot].lent && after.relays[slot].panicked,
        after.relays[slot].future == Some(future),
        after.relays[slot].id == before.relays[slot].id,
        after.relays[slot].root == before.relays[slot].root,
        after.relays[slot].destroyed == before.relays[slot].destroyed,
        !scope_can_poll(after, slot, any_books),
        after.pad.current_tasks == before.pad.current_tasks - 1,
        after.pad.current_tasks == 0 ==> after.pad.waiter is None,
        after.pad.current_tasks > 0 ==> after.pad.waiter == before.pad.waiter,
        respawned is Some <==> before.relays[slot].root && !before.pad.destroyed,
        respawned matches Some(added) ==> {
            let relay = after.relays[added];
            &&& added != slot
            &&& !before.relays.contains_key(added)
            &&& after.relays == before.relays.insert(slot, after.relays[slot]).insert(added, relay)
            &&& relay.root
            &&& relay.future is None && !relay.lent && !relay.panicked && !relay.destroyed
            &&& relay.id.spawn_id == books.id && relay.id.instance == books.next_instance
            &&& after.pad.relays == before.pad.relays.insert(
                (books.id, books.next_instance),
                added,
            )
        },
        respawned is None ==> after.relays == before.relays.insert(slot, after.relays[slot])
            && after.pad.relays == before.pad.relays,
        after.pad.tasks == before.pad.tasks,
        after.pad.park == before.pad.park,
        after.pad.destroyed == before.pad.destroyed,
        after.pad.next_spawn_id == before.pad.next_spawn_id,
{
}

/// A relay task that ends is gone from the scope. On an open scope the future that it has in hand
/// goes to the end of the queue, unless polling it has panicked; the count does not change.
pub proof fn law_retire_step<F, W>(
    before: RelayScopeState<F, W>,
    slot: usize,
    after: RelayScopeState<F, W>,
)
    requires
        scope_wf(before),
        scope_next(before, ScopeEvent::<F, W>::Retire { slot }, after),
    ensures
        before.relays.contains_key(slot) && !before.relays[slot].lent,
        after.relays == before.relays.remove(slot),
        !before.pad.destroyed && !before.relays[slot].panicked && before.relays[slot].future is Some
            ==> after.pad.tasks == before.pad.tasks.push(before.relays[slot].future->0),
        before.pad.destroyed || before.relays[slot].panicked || before.relays[slot].future is None
            ==> after.pad.tasks == before.pad.tasks,
        !before.relays[slot].destroyed ==> after.pad.relays == before.pad.relays.remove(
            (before.relays[slot].id.spawn_id, before.relays[slot].id.instance),
        ),
        before.relays[slot].destroyed ==> after.pad.relays == before.pad.relays,
        after.pad.current_tasks == before.pad.current_tasks,
        after.pad.waiter == before.pad.waiter,
        after.pad.park == before.pad.park,
        after.pad.destroyed == before.pad.destroyed,
        after.pad.next_spawn_id == before.pad.next_spawn_id,
{
}

/// Stopping a scope shuts it down. Of the relay tasks, exactly those whose futures are being polled
/// stay as they are and registered; every other loses its future, which is given out to be dropped,
/// and is destroyed. If none is being polled, the queue is empty afterwards, the count is zero,
/// nobody waits and nobody is parked; else queue, count, waiting and parking stay.
pub proof fn law_stop_step<F, W>(
    before: RelayScopeState<F, W>,
    after: RelayScopeState<F, W>,
    slot: usize,
    key: (usize, usize),
)
    requires
        scope_wf(before),
        park_announced(before.pad.park),
        scope_next(before, ScopeEvent::<F, W>::Stop, after),
    ensures
        after.pad.destroyed,
        after.pad.next_spawn_id == before.pad.next_spawn_id,
        after.relays.contains_key(slot) <==> before.relays.contains_key(slot),
        before.relays.contains_key(slot) ==> {
            &&& before.relays[slot].lent ==> after.relays[slot] == before.relays[slot]
            &&& !before.relays[slot].lent ==> after.relays[slot].destroyed
                && after.relays[slot].future is None && !after.relays[slot].lent
            &&& after.relays[slot].id == before.relays[slot].id
            &&& after.relays[slot].root == before.relays[slot].root
            &&& after.relays[slot].panicked == before.relays[slot].panicked
            &&& future_is_dropped(before, slot) <==> !before.relays[slot].lent
                && before.relays[slot].future is Some
        },
        after.pad.relays.contains_key(key) <==> before.pad.relays.contains_key(key)
            && before.relays[before.pad.relays[key]].lent,
        after.pad.relays.contains_key(key) ==> after.pad.relays[key] == before.pad.relays[key],
        relays_polling(before) == after.pad.relays,
        before.relays.contains_key(slot) && before.relays[slot].lent ==> {
            &&& after.pad.tasks == before.pad.tasks
            &&& after.pad.current_tasks == before.pad.current_tasks
            &&& after.pad.waiter == before.pad.waiter
            &&& after.pad.park == before.pad.park
        },
        (forall|other: usize| #[trigger]
            before.relays.contains_key(other) ==> !before.relays[other].lent) ==> {
            &&& after.pad.tasks.len() == 0
            &&& after.pad.current_tasks == 0
            &&& after.pad.waiter is None
            &&& after.pad.park.parked.len() == 0
        },
{
    if before.relays.contains_key(slot) && before.relays[slot].lent {
        let id = before.relays[slot].id;
        assert(!before.relays[slot].destroyed);
        assert(before.pad.relays.contains_key((id.spawn_id, id.instance)));
        assert(after.pad.relays.contains_key((id.spawn_id, id.instance)));
    }
    if forall|other: usize| #[trigger]
        before.relays.contains_key(other) ==> !before.relays[other].lent {
        assert(relays_polling(before) =~= Map::<(usize, usize), usize>::empty()) by {
            assert forall|k: (usize, usize)| #[trigger]
                before.pad.relays.contains_key(k) implies !before.relays[before.pad.relays[k]].lent
                by {
                assert(before.relays.contains_key(before.pad.relays[k]));
            }
        }
    }
}

/// The futures that stopping a scope takes from its relay tasks are those of the relay tasks that are
/// not being polled, one for each that has one, and no others.
pub proof fn law_stop_gives_out_each_future<F, W>(
    s: RelayScopeState<F, W>,
    order: Seq<usize>,
    slot: usize,
    i: int,
    j: int,
)
    requires
        is_drop_order(s, order),
        0 <= i < order.len(),
        0 <= j < order.len(),
    ensures
        futures_in(s, order).len() == order.len(),
        s.relays.contains_key(order[i]) && !s.relays[order[i]].lent,
        s.relays[order[i]].future == Some(futures_in(s, order)[i]),
        i != j ==> order[i] != order[j],
        s.relays.contains_key(slot) && !s.relays[slot].lent && s.relays[slot].future is Some
            ==> order.contains(slot),
{
    assert(order.contains(order[i]));
}

/// Waiting for the last future changes nothing but the waiting, and that only if there is a future
/// and nobody waits yet.
pub proof fn law_await_step<F, W>(before: RelayScopeState<F, W>, after: RelayScopeState<F, W>)
    requires
        scope_next(before, ScopeEvent::<F, W>::AwaitEmpty, after),
    ensures
        after.relays == before.relays,
        after.pad == (RelayPadState { waiter: after.pad.waiter, ..before.pad }),
        before.pad.current_tasks == 0 || before.pad.waiter is Some ==> after == before,
{
}

/// What polling a relay task does to the books of its spawn: handing a future out makes one relay
/// task busy, and brings one along exactly if fewer than five stay idle.
pub proof fn law_polling_books<F, W>(
    before: RelayScopeState<F, W>,
    books: ManagerState,
    slot: usize,
    after: RelayScopeState<F, W>,
    books_after: ManagerState,
    respawned: Option<usize>,
)
    requires
        polling_begun(before, books, slot, after, books_after, respawned),
        !before.pad.destroyed,
        0 < books.non_working,
        books.all < usize::MAX,
        books.next_instance < usize::MAX,
    ensures
        books.non_working > 5 ==> {
            &&& respawned is None
            &&& books_after.non_working == books.non_working - 1
            &&& books_after.all == books.all
            &&& books_after.next_instance == books.next_instance
        },
        books.non_working <= 5 ==> {
            &&& respawned is Some
            &&& books_after.non_working == books.non_working
            &&& books_after.all == books.all + 1
            &&& books_after.next_instance == books.next_instance + 1
        },
        books_after.id == books.id,
        after.relays[slot].lent,
{
}

/// A relay task can be polled exactly if it is there, its future is neither being polled nor has
/// panicked, its books know of an idle relay task and have a number left, and a future that it would
/// have to give up is counted.
pub proof fn law_when_a_relay_can_be_polled<F, W>(
    s: RelayScopeState<F, W>,
    slot: usize,
    books: ManagerState,
)
    ensures
        scope_can_poll(s, slot, books) <==> s.relays.contains_key(slot) && !s.relays[slot].lent
            && !s.relays[slot].panicked && books.non_working > 0 && books.next_instance < usize::MAX
            && !(s.pad.destroyed && s.relays[slot].future is Some && s.pad.current_tasks == 0),
        scope_fits(s, books) ==> books.id < s.pad.next_spawn_id && !s.pad.relays.contains_key(
            (books.id, books.next_instance),
        ),
{
}

/// In a sound scope every relay task that is not destroyed is registered under its name, where it is
/// kept, and every name that is registered is that of such a relay task, of a spawn that was
/// numbered. Two relay tasks that are not destroyed never have the same name. A relay task whose
/// future is being polled has it not in hand, nor is it destroyed or broken by a panic.
pub proof fn law_sound_scope<F, W>(
    s: RelayScopeState<F, W>,
    slot: usize,
    other: usize,
    key: (usize, usize),
)
    requires
        scope_wf(s),
        s.relays.contains_key(slot),
        s.relays.contains_key(other),
    ensures
        !s.relays[slot].destroyed ==> {
            let name = (s.relays[slot].id.spawn_id, s.relays[slot].id.instance);
            s.pad.relays.contains_key(name) && s.pad.relays[name] == slot
        },
        slot != other && !s.relays[slot].destroyed && !s.relays[other].destroyed
            ==> s.relays[slot].id.spawn_id != s.relays[other].id.spawn_id
            || s.relays[slot].id.instance != s.relays[other].id.instance,
        s.pad.relays.contains_key(key) ==> {
            let relay = s.relays[s.pad.relays[key]];
            &&& s.relays.contains_key(s.pad.relays[key])
            &&& !relay.destroyed
            &&& (relay.id.spawn_id, relay.id.instance) == key
            &&& key.0 < s.pad.next_spawn_id
        },
        s.relays[slot].lent ==> s.relays[slot].future is None && !s.relays[slot].destroyed
            && !s.relays[slot].panicked,
        s.relays[slot].destroyed ==> s.pad.destroyed && s.relays[slot].future is None,
{
}

/// Wakers that are parked are announced, so that the next wake-up looks for them.
pub proof fn law_parked_are_announced<W>(park: ParkState<W>)
    requires
        park_announced(park),
        park.parked.len() > 0,
    ensures
        park.has_wakers,
{
}

/// Futures are handed out in the order in which they were spawned: of two that are spawned on an open
/// scope without queued futures, a relay task without a future is handed the first, and the second
/// is the next.
pub proof fn law_first_spawned_first_polled<F, W>(
    empty: RelayScopeState<F, W>,
    first: F,
    one: RelayScopeState<F, W>,
    second: F,
    two: RelayScopeState<F, W>,
    slot: usize,
    waker: W,
    books: ManagerState,
    respawned: Option<usize>,
    after: RelayScopeState<F, W>,
)
    requires
        !empty.pad.destroyed,
        empty.pad.tasks.len() == 0,
        scope_next(empty, ScopeEvent::<F, W>::Spawn { future: first }, one),
        scope_next(one, ScopeEvent::<F, W>::Spawn { future: second }, two),
        two.relays[slot].future is None,
        scope_next(two, ScopeEvent::HandOut { slot, waker, books, respawned }, after),
    ensures
        pad_dequeue_answer(two.pad, true) == Ok::<F, TaskDequeueErr>(first),
        handed_out(two, slot) == first,
        after.pad.tasks == seq![second],
{
    assert(two.pad.tasks =~= seq![first, second]);
    assert(after.pad.tasks =~= seq![second]);
}

/// A relay task that holds an unfinished future polls that one again, before any that wait: handing
/// it out after it was given back gives the same future.
pub proof fn law_unfinished_is_polled_again<F, W>(
    before: RelayScopeState<F, W>,
    slot: usize,
    books: ManagerState,
    future: F,
    respawned: Option<usize>,
    kept: RelayScopeState<F, W>,
)
    requires
        scope_next(before, ScopeEvent::Yield { slot, books, future, respawned }, kept),
    ensures
        handed_out(kept, slot) == future,
        kept.pad.tasks == before.pad.tasks,
{
}

} // verus!

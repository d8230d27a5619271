//! What holds of a relay scope at all times, however the steps of those who share it interleave.

use vstd::prelude::*;

use crate::relay::registry::{no_relays, relay_key};
use crate::relay::relay_future::{
    relay_lent, relay_new, relay_panicked, relay_returned, RelayState,
};
use crate::relay::relay_pad::{
    pad_dequeue_answer, pad_dequeued, pad_enqueued, pad_new, pad_spawn_numbered, pad_task_ended,
    RelayPadState,
};
use crate::relay::scope::{
    future_is_dropped, polling_begun, relay_added, relay_waker, relays_polling, scope_can_poll,
    scope_fits, scope_retired, scope_stopped, scope_wf, scope_with_pad, scope_with_relay,
    RelayScopeState, TASKS_PER_POLL,
};
use crate::relay::spawn_manager::{
    manager_ended, manager_new, manager_next_id, manager_registered, manager_started,
    manager_wants_relay, ManagerState,
};
use crate::relay::waker_park::{park_announced, park_woken};

verus! {

/// One step of those who share a scope. Each is what one function of the scope does.
pub enum ScopeEvent<F, W> {
    /// A future was spawned.
    Spawn { future: F },
    /// The scope was relayed to another spawn.
    Relay { added: Option<usize> },
    /// A relay task was added.
    AddRelay { books: ManagerState, root: bool, added: Option<usize> },
    /// Somebody waits until no future is left.
    AwaitEmpty,
    /// A relay task was polled, and a future was handed out.
    HandOut { slot: usize, waker: W, books: ManagerState, respawned: Option<usize> },
    /// A relay task was polled, and there was no future to hand out.
    Idle { slot: usize, waker: W },
    /// A future was finished, and another relay task took over, or not.
    Finish { slot: usize, books: ManagerState, finished_tasks: usize, respawned: Option<usize> },
    /// A future was found unfinished.
    Yield { slot: usize, books: ManagerState, future: F, respawned: Option<usize> },
    /// Polling a future has panicked.
    Panic { slot: usize, books: ManagerState, future: F, respawned: Option<usize> },
    /// A relay task has ended.
    Retire { slot: usize },
    /// The scope was stopped.
    Stop,
}

/// The books after a relay task with these books was handed a future to poll.
pub open spec fn books_handed_out(books: ManagerState) -> ManagerState {
    if manager_wants_relay(books) {
        manager_registered(manager_started(books))
    } else {
        manager_started(books)
    }
}

/// The scope after the relay task in `slot` asked for a future.
pub open spec fn scope_asked<F, W>(
    s: RelayScopeState<F, W>,
    slot: usize,
    waker: W,
) -> RelayScopeState<F, W> {
    scope_with_pad(s, pad_dequeued(s.pad, relay_waker(s.relays[slot], waker)))
}

/// The books can name another relay task of the scope.
pub open spec fn books_usable<F, W>(s: RelayScopeState<F, W>, books: ManagerState) -> bool {
    scope_fits(s, books) && books.next_instance < usize::MAX
}

/// The future of the relay task in `slot` is being polled.
pub open spec fn relay_polling<F, W>(s: RelayScopeState<F, W>, slot: usize) -> bool {
    s.relays.contains_key(slot) && s.relays[slot].lent
}

/// The scope may go from `before` to `after` by `event`: the function that does it may be called,
/// and this is what it does.
pub open spec fn scope_next<F, W>(
    before: RelayScopeState<F, W>,
    event: ScopeEvent<F, W>,
    after: RelayScopeState<F, W>,
) -> bool {
    match event {
        ScopeEvent::Spawn { future } => after == scope_with_pad(
            before,
            pad_enqueued(before.pad, future),
        ),
        ScopeEvent::Relay { added } => {
            &&& before.pad.next_spawn_id < usize::MAX
            &&& relay_added(
                scope_with_pad(before, pad_spawn_numbered(before.pad)),
                manager_new(before.pad.next_spawn_id),
                true,
                after,
                manager_registered(manager_new(before.pad.next_spawn_id)),
                added,
            )
        },
        ScopeEvent::AddRelay { books, root, added } => {
            &&& books_usable(before, books)
            &&& relay_added(before, books, root, after, manager_registered(books), added)
        },
        ScopeEvent::AwaitEmpty => {
            &&& after == scope_with_pad(
                before,
                (RelayPadState { waiter: after.pad.waiter, ..before.pad }),
            )
            &&& before.pad.current_tasks == 0 ==> after == before
            &&& before.pad.waiter is Some ==> after == before
        },
        ScopeEvent::HandOut { slot, waker, books, respawned } => {
            &&& scope_can_poll(before, slot, books)
            &&& books_usable(before, books)
            &&& !before.pad.destroyed
            &&& before.relays[slot].future is None ==> before.pad.tasks.len() > 0
            &&& polling_begun(
                if before.relays[slot].future is Some {
                    before
                } else {
                    scope_asked(before, slot, waker)
                },
                books,
                slot,
                after,
                books_handed_out(books),
                respawned,
            )
        },
        ScopeEvent::Idle { slot, waker } => {
            &&& before.relays.contains_key(slot)
            &&& if before.relays[slot].future is Some {
                &&& before.pad.destroyed
                &&& before.pad.current_tasks > 0
                &&& after == scope_with_pad(before, pad_task_ended(before.pad))
            } else {
                &&& pad_dequeue_answer(before.pad, before.relays[slot].root) is Err
                &&& after == scope_asked(before, slot, waker)
            }
        },
        ScopeEvent::Finish { slot, books, finished_tasks, respawned } => {
            let returned = scope_with_relay(
                scope_with_pad(before, pad_task_ended(before.pad)),
                slot,
                relay_returned(before.relays[slot], None),
            );
            &&& relay_polling(before, slot)
            &&& before.pad.current_tasks > 0
            &&& books_usable(before, books)
            &&& if finished_tasks + 1 > TASKS_PER_POLL {
                relay_added(
                    returned,
                    manager_ended(books),
                    before.relays[slot].root,
                    after,
                    manager_registered(manager_ended(books)),
                    respawned,
                )
            } else {
                respawned is None && after == returned
            }
        },
        ScopeEvent::Yield { slot, books, future, respawned } => {
            &&& relay_polling(before, slot)
            &&& books_usable(before, books)
            &&& relay_added(
                scope_with_relay(
                    before,
                    slot,
                    relay_returned(before.relays[slot], Some(future)),
                ),
                manager_ended(books),
                false,
                after,
                manager_registered(manager_ended(books)),
                respawned,
            )
        },
        ScopeEvent::Panic { slot, books, future, respawned } => {
            let relay = before.relays[slot];
            let returned = scope_with_relay(
                scope_with_pad(before, pad_task_ended(before.pad)),
                slot,
                relay_panicked(relay_returned(relay, Some(future))),
            );
            &&& relay_polling(before, slot)
            &&& before.pad.current_tasks > 0
            &&& books_usable(before, books)
            &&& if relay.root {
                relay_added(
                    returned,
                    manager_ended(books),
                    true,
                    after,
                    manager_registered(manager_ended(books)),
                    respawned,
                )
            } else {
                respawned is None && after == returned
            }
        },
        ScopeEvent::Retire { slot } => {
            &&& before.relays.contains_key(slot)
            &&& !before.relays[slot].lent
            &&& after == scope_retired(before, slot)
        },
        ScopeEvent::Stop => after == scope_stopped(before),
    }
}

/// Every step keeps the pad and the relay tasks in agreement.
pub proof fn law_scope_stays_sound<F, W>(
    before: RelayScopeState<F, W>,
    event: ScopeEvent<F, W>,
    after: RelayScopeState<F, W>,
)
    requires
        scope_wf(before),
        scope_next(before, event, after),
    ensures
        scope_wf(after),
{
    if event is Stop {
        assert(after.relays.dom() =~= before.relays.dom());
        assert(after.pad.relays == relays_polling(before));
        assert forall|slot: usize| #[trigger]
            after.relays.contains_key(slot) && !after.relays[slot].destroyed implies {
            &&& after.pad.relays.contains_key(relay_key(after.relays[slot].id))
            &&& after.pad.relays[relay_key(after.relays[slot].id)] == slot
        } by {
            assert(before.relays.contains_key(slot));
        }
        assert forall|key: (usize, usize)| #[trigger] after.pad.relays.contains_key(key) implies {
            let slot = after.pad.relays[key];
            &&& after.relays.contains_key(slot)
            &&& !after.relays[slot].destroyed
            &&& relay_key(after.relays[slot].id) == key
            &&& key.0 < after.pad.next_spawn_id
        } by {
            assert(before.pad.relays.contains_key(key));
        }
        assert forall|slot: usize| #[trigger] after.relays.contains_key(slot) implies {
            &&& after.relays[slot].destroyed ==> after.pad.destroyed && !after.relays[slot].lent
            &&& after.relays[slot].destroyed || after.relays[slot].lent
                ==> after.relays[slot].future is None
            &&& after.relays[slot].panicked ==> !after.relays[slot].lent
        } by {
            assert(before.relays.contains_key(slot));
        }
    }
}

/// The relay task has a future of the scope in hand, or lent out, that still counts.
pub open spec fn relay_holds<F>(relay: RelayState<F>) -> bool {
    (relay.future is Some || relay.lent) && !relay.panicked
}

/// The slots of the relay tasks that have a future in hand.
pub open spec fn holders<F>(relays: Map<usize, RelayState<F>>) -> Set<usize> {
    relays.dom().filter(|slot: usize| relay_holds(relays[slot]))
}

/// The books of the scope are right: the futures that are not finished are those that wait and
/// those that relay tasks have in hand.
pub open spec fn scope_accounted<F, W>(s: RelayScopeState<F, W>) -> bool {
    s.pad.current_tasks == s.pad.tasks.len() + holders(s.relays).len()
}

/// Another relay task in `slot`, perhaps in place of one, changes the number of holders by what
/// the two have in hand.
proof fn lemma_holders_insert<F>(
    relays: Map<usize, RelayState<F>>,
    slot: usize,
    relay: RelayState<F>,
)
    requires
        relays.dom().finite(),
    ensures
        holders(relays.insert(slot, relay)).len() == holders(relays.remove(slot)).len() + (
        if relay_holds(relay) {
            1int
        } else {
            0
        }),
{
    let without = holders(relays.remove(slot));
    let with = holders(relays.insert(slot, relay));
    assert(!without.contains(slot));
    assert(relays.remove(slot).dom().finite());
    assert(without.finite());
    if relay_holds(relay) {
        assert(with =~= without.insert(slot));
    } else {
        assert(with =~= without);
    }
}

/// What the relay task in `slot` has in hand counts among the holders.
proof fn lemma_holders_remove<F>(relays: Map<usize, RelayState<F>>, slot: usize)
    requires
        relays.dom().finite(),
        relays.contains_key(slot),
    ensures
        holders(relays).len() == holders(relays.remove(slot)).len() + (if relay_holds(
            relays[slot],
        ) {
            1int
        } else {
            0
        }),
{
    lemma_holders_insert(relays, slot, relays[slot]);
    assert(relays.insert(slot, relays[slot]) =~= relays);
}

/// A relay task that was just added has nothing in hand.
proof fn lemma_added_accounted<F, W>(
    before: RelayScopeState<F, W>,
    books: ManagerState,
    root: bool,
    after: RelayScopeState<F, W>,
    slot: Option<usize>,
)
    requires
        before.relays.dom().finite(),
        relay_added(before, books, root, after, manager_registered(books), slot),
    ensures
        holders(after.relays).len() == holders(before.relays).len(),
        after.pad.tasks == before.pad.tasks,
        after.pad.current_tasks == before.pad.current_tasks,
        after.pad.destroyed == before.pad.destroyed,
{
    if let Some(slot) = slot {
        lemma_holders_insert(
            before.relays,
            slot,
            relay_new::<F>(manager_next_id(books), root),
        );
        assert(before.relays.remove(slot) =~= before.relays);
    }
}

/// As long as the scope is not shut down, every step keeps the books of the scope right.
pub proof fn law_books_stay_right<F, W>(
    before: RelayScopeState<F, W>,
    event: ScopeEvent<F, W>,
    after: RelayScopeState<F, W>,
)
    requires
        scope_wf(before),
        scope_next(before, event, after),
        scope_accounted(before),
        !after.pad.destroyed,
        event is Spawn ==> before.pad.current_tasks < usize::MAX,
    ensures
        scope_accounted(after),
{
    match event {
        ScopeEvent::Spawn { future } => {},
        ScopeEvent::Relay { added } => {
            lemma_added_accounted(
                scope_with_pad(before, pad_spawn_numbered(before.pad)),
                manager_new(before.pad.next_spawn_id),
                true,
                after,
                added,
            );
        },
        ScopeEvent::AddRelay { books, root, added } => {
            lemma_added_accounted(before, books, root, after, added);
        },
        ScopeEvent::AwaitEmpty => {},
        ScopeEvent::HandOut { slot, waker, books, respawned } => {
            let asked = if before.relays[slot].future is Some {
                before
            } else {
                scope_asked(before, slot, waker)
            };
            let lent = scope_with_relay(asked, slot, relay_lent(asked.relays[slot]));
            lemma_holders_remove(before.relays, slot);
            lemma_holders_insert(before.relays, slot, relay_lent(before.relays[slot]));
            if manager_wants_relay(books) {
                lemma_added_accounted(lent, manager_started(books), false, after, respawned);
            }
        },
        ScopeEvent::Idle { slot, waker } => {},
        ScopeEvent::Finish { slot, books, finished_tasks, respawned } => {
            let relay = relay_returned(before.relays[slot], None);
            let returned = scope_with_relay(
                scope_with_pad(before, pad_task_ended(before.pad)),
                slot,
                relay,
            );
            lemma_holders_remove(before.relays, slot);
            lemma_holders_insert(before.relays, slot, relay);
            if finished_tasks + 1 > TASKS_PER_POLL {
                lemma_added_accounted(
                    returned,
                    manager_ended(books),
                    before.relays[slot].root,
                    after,
                    respawned,
                );
            }
        },
        ScopeEvent::Yield { slot, books, future, respawned } => {
            let relay = relay_returned(before.relays[slot], Some(future));
            lemma_holders_remove(before.relays, slot);
            lemma_holders_insert(before.relays, slot, relay);
            lemma_added_accounted(
                scope_with_relay(before, slot, relay),
                manager_ended(books),
                false,
                after,
                respawned,
            );
        },
        ScopeEvent::Panic { slot, books, future, respawned } => {
            let relay = relay_panicked(relay_returned(before.relays[slot], Some(future)));
            let returned = scope_with_relay(
                scope_with_pad(before, pad_task_ended(before.pad)),
                slot,
                relay,
            );
            lemma_holders_remove(before.relays, slot);
            lemma_holders_insert(before.relays, slot, relay);
            if before.relays[slot].root {
                lemma_added_accounted(returned, manager_ended(books), true, after, respawned);
            }
        },
        ScopeEvent::Retire { slot } => {
            lemma_holders_remove(before.relays, slot);
        },
        ScopeEvent::Stop => {},
    }
}

/// Where the books of the scope are right, they say that no future is left exactly if none waits
/// and no relay task has one in hand.
pub proof fn law_no_future_left<F, W>(s: RelayScopeState<F, W>)
    requires
        scope_wf(s),
        scope_accounted(s),
    ensures
        s.pad.current_tasks == 0 <==> s.pad.tasks.len() == 0 && (forall|slot: usize| #[trigger]
            s.relays.contains_key(slot) ==> !relay_holds(s.relays[slot])),
{
    let held = holders(s.relays);
    assert(held.finite());
    if held.len() == 0 {
        assert forall|slot: usize| #[trigger] s.relays.contains_key(slot) implies !relay_holds(
            s.relays[slot],
        ) by {
            if relay_holds(s.relays[slot]) {
                assert(held.contains(slot));
                assert(held.remove(slot).len() == held.len() - 1);
            }
        }
    } else {
        let slot = held.choose();
        assert(held.contains(slot));
        assert(s.relays.contains_key(slot) && relay_holds(s.relays[slot]));
    }
}

/// Somebody waits for the last future only while there is one.
pub open spec fn waiters_have_reason<F, W>(s: RelayScopeState<F, W>) -> bool {
    s.pad.waiter is Some ==> s.pad.current_tasks > 0
}

/// Nobody is left waiting for the last future: every step that ends it ends the waiting as well.
pub proof fn law_nobody_waits_in_vain<F, W>(
    before: RelayScopeState<F, W>,
    event: ScopeEvent<F, W>,
    after: RelayScopeState<F, W>,
)
    requires
        scope_next(before, event, after),
        waiters_have_reason(before),
        event is Spawn ==> before.pad.current_tasks < usize::MAX,
    ensures
        waiters_have_reason(after),
        before.pad.waiter is Some ==> after.pad.waiter == before.pad.waiter || (after.pad.waiter
            is None && after.pad.current_tasks == 0),
{
}

/// A scope that is shut down stays so.
pub proof fn law_shut_down_for_good<F, W>(
    before: RelayScopeState<F, W>,
    event: ScopeEvent<F, W>,
    after: RelayScopeState<F, W>,
)
    requires
        scope_next(before, event, after),
        before.pad.destroyed,
    ensures
        after.pad.destroyed,
{
}

/// The scope is shut down and holds no future: none waits, and every relay task is destroyed.
pub open spec fn scope_quiet<F, W>(s: RelayScopeState<F, W>) -> bool {
    &&& s.pad.destroyed
    &&& s.pad.tasks.len() == 0
    &&& s.pad.current_tasks == 0
    &&& s.pad.waiter is None
    &&& s.pad.relays == no_relays()
    &&& forall|slot: usize| #[trigger]
        s.relays.contains_key(slot) ==> s.relays[slot].destroyed && s.relays[slot].future is None
            && !s.relays[slot].lent
}

/// Once a scope is shut down, polling its relay tasks polls no future, and no relay task is added:
/// a relay task that is polled is done.
pub proof fn law_shut_down_scope_polls_nothing<F, W>(
    before: RelayScopeState<F, W>,
    event: ScopeEvent<F, W>,
    after: RelayScopeState<F, W>,
)
    requires
        scope_next(before, event, after),
        before.pad.destroyed,
    ensures
        !(event is HandOut),
        event_added(event) is None,
        after.relays.dom().subset_of(before.relays.dom()),
        forall|slot: usize| #[trigger]
            after.relays.contains_key(slot) && after.relays[slot].lent ==> before.relays[slot].lent,
{
    assert forall|slot: usize| #[trigger]
        after.relays.contains_key(slot) implies before.relays.contains_key(slot) by {}
}

/// The relay task that a step has added, if it has added one.
pub open spec fn event_added<F, W>(event: ScopeEvent<F, W>) -> Option<usize> {
    match event {
        ScopeEvent::Relay { added } => added,
        ScopeEvent::AddRelay { added, .. } => added,
        ScopeEvent::HandOut { respawned, .. } => respawned,
        ScopeEvent::Finish { respawned, .. } => respawned,
        ScopeEvent::Yield { respawned, .. } => respawned,
        ScopeEvent::Panic { respawned, .. } => respawned,
        _ => None,
    }
}

/// Stopping a scope spares only the relay tasks whose futures are being polled: all others have no
/// future any more and are struck out.
pub proof fn law_stop_spares_what_is_polled<F, W>(before: RelayScopeState<F, W>)
    requires
        scope_wf(before),
    ensures
        ({
            let after = scope_stopped(before);
            &&& after.pad.destroyed
            &&& after.relays.dom() == before.relays.dom()
            &&& forall|slot: usize| #[trigger]
                after.relays.contains_key(slot) ==> after.relays[slot].future is None && (
                after.relays[slot].lent <==> before.relays[slot].lent) && (
                after.relays[slot].destroyed <==> !before.relays[slot].lent)
            &&& forall|key: (usize, usize)| #[trigger]
                after.pad.relays.contains_key(key) ==> after.relays[after.pad.relays[key]].lent
        }),
{
    let after = scope_stopped(before);
    assert(after.relays.dom() =~= before.relays.dom());
    assert forall|slot: usize| #[trigger] after.relays.contains_key(slot) implies {
        &&& after.relays[slot].future is None
        &&& (after.relays[slot].lent <==> before.relays[slot].lent)
        &&& (after.relays[slot].destroyed <==> !before.relays[slot].lent)
    } by {
        assert(before.relays.contains_key(slot));
    }
    assert forall|key: (usize, usize)| #[trigger] after.pad.relays.contains_key(key) implies {
        after.relays[after.pad.relays[key]].lent
    } by {
        assert(before.pad.relays.contains_key(key));
        assert(before.relays.contains_key(before.pad.relays[key]));
    }
}

/// The scopes through which a scope goes, step by step.
pub open spec fn scope_course<F, W>(
    states: Seq<RelayScopeState<F, W>>,
    events: Seq<ScopeEvent<F, W>>,
) -> bool {
    &&& states.len() == events.len() + 1
    &&& forall|i: int| #![trigger events[i]]
        0 <= i < events.len() ==> scope_next(states[i], events[i], states[i + 1])
}

/// A scope that is stopped while futures are being polled, and stopped again once they have all
/// been reported, whatever happened in between, has nothing left: no future is held or queued, no
/// relay task is registered, and none is parked. In between no future was handed out.
pub proof fn law_stopping_again_leaves_nothing<F, W>(
    before: RelayScopeState<F, W>,
    states: Seq<RelayScopeState<F, W>>,
    events: Seq<ScopeEvent<F, W>>,
)
    requires
        scope_wf(before),
        park_announced(before.pad.park),
        scope_course(states, events),
        states[0] == scope_stopped(before),
        forall|slot: usize| #[trigger]
            states.last().relays.contains_key(slot) ==> !states.last().relays[slot].lent,
    ensures
        scope_quiet(scope_stopped(states.last())),
        scope_stopped(states.last()).pad.park.parked.len() == 0,
        forall|i: int| 0 <= i < events.len() ==> !(#[trigger] events[i] is HandOut),
{
    law_scope_stays_sound(before, ScopeEvent::<F, W>::Stop, states[0]);
    lemma_stopped_course(states, events, events.len() as int);
    law_stop_leaves_nothing(states.last());
    assert forall|i: int| 0 <= i < events.len() implies !(#[trigger] events[i] is HandOut) by {
        lemma_stopped_course(states, events, i);
        law_shut_down_scope_polls_nothing(states[i], events[i], states[i + 1]);
    }
}

/// From a stop on, the scope stays sound and shut down.
proof fn lemma_stopped_course<F, W>(
    states: Seq<RelayScopeState<F, W>>,
    events: Seq<ScopeEvent<F, W>>,
    i: int,
)
    requires
        scope_course(states, events),
        scope_wf(states[0]),
        states[0].pad.destroyed,
        park_announced(states[0].pad.park),
        0 <= i < states.len(),
    ensures
        scope_wf(states[i]),
        states[i].pad.destroyed,
        park_announced(states[i].pad.park),
    decreases i,
{
    if i > 0 {
        lemma_stopped_course(states, events, i - 1);
        assert(scope_next(states[i - 1], events[i - 1], states[i]));
        law_scope_stays_sound(states[i - 1], events[i - 1], states[i]);
        law_shut_down_for_good(states[i - 1], events[i - 1], states[i]);
    }
}

/// Stopping a scope that has nothing left drops nothing and wakes nobody.
pub proof fn law_stopping_once_more_does_nothing<F, W>(s: RelayScopeState<F, W>, slot: usize)
    requires
        scope_quiet(s),
        s.pad.park.parked.len() == 0,
    ensures
        !future_is_dropped(s, slot),
        s.pad.tasks.len() == 0,
        relays_polling(s) == no_relays(),
        park_woken(s.pad.park).len() == 0,
        scope_quiet(scope_stopped(s)),
{
    assert(relays_polling(s) =~= no_relays());
    law_quiet_for_good(s, ScopeEvent::<F, W>::Stop, scope_stopped(s));
}

/// Stopping a scope while none of its futures is being polled leaves no future behind.
pub proof fn law_stop_leaves_nothing<F, W>(before: RelayScopeState<F, W>)
    requires
        scope_wf(before),
        forall|slot: usize| #[trigger]
            before.relays.contains_key(slot) ==> !before.relays[slot].lent,
    ensures
        scope_quiet(scope_stopped(before)),
        relays_polling(before) == no_relays(),
{
    let after = scope_stopped(before);
    assert(relays_polling(before) =~= no_relays()) by {
        assert forall|key: (usize, usize)| #[trigger]
            before.pad.relays.contains_key(key) implies !before.relays[before.pad.relays[key]].lent by {
            assert(before.relays.contains_key(before.pad.relays[key]));
        }
    }
    assert forall|slot: usize| #[trigger] after.relays.contains_key(slot) implies {
        &&& after.relays[slot].destroyed
        &&& after.relays[slot].future is None
        &&& !after.relays[slot].lent
    } by {
        assert(before.relays.contains_key(slot));
    }
}

/// After that no future ever gets onto the scope again.
pub proof fn law_quiet_for_good<F, W>(
    before: RelayScopeState<F, W>,
    event: ScopeEvent<F, W>,
    after: RelayScopeState<F, W>,
)
    requires
        scope_next(before, event, after),
        scope_quiet(before),
    ensures
        scope_quiet(after),
{
    if event is Stop {
        assert(relays_polling(before) =~= no_relays());
        assert forall|slot: usize| #[trigger] after.relays.contains_key(slot) implies {
            &&& after.relays[slot].destroyed
            &&& after.relays[slot].future is None
            &&& !after.relays[slot].lent
        } by {
            assert(before.relays.contains_key(slot));
        }
    }
}

/// No relay task waits for futures while there are some.
pub open spec fn no_wait_beside_work<F, W>(s: RelayScopeState<F, W>) -> bool {
    s.pad.park.parked.len() > 0 ==> s.pad.tasks.len() == 0
}

/// No relay task is left waiting beside work, with one exception: when a relay task ends and puts
/// its future back, the others are not woken.
pub proof fn law_no_wait_beside_work<F, W>(
    before: RelayScopeState<F, W>,
    event: ScopeEvent<F, W>,
    after: RelayScopeState<F, W>,
)
    requires
        scope_next(before, event, after),
        no_wait_beside_work(before),
        park_announced(before.pad.park),
        event matches ScopeEvent::Retire { slot } ==> before.relays[slot].destroyed
            || before.relays[slot].panicked || before.relays[slot].future is None
            || before.pad.destroyed,
    ensures
        no_wait_beside_work(after),
        park_announced(after.pad.park),
{
}

/// A relay task that waits keeps waiting until a future is spawned or the scope is stopped, and is
/// then among those to wake.
pub proof fn law_waiting_relay_is_woken<F, W>(
    before: RelayScopeState<F, W>,
    event: ScopeEvent<F, W>,
    after: RelayScopeState<F, W>,
    waker: W,
)
    requires
        scope_next(before, event, after),
        park_announced(before.pad.park),
        before.pad.park.parked.contains(waker),
    ensures
        after.pad.park.parked.contains(waker) || ((event is Spawn || event is Stop) && park_woken(
            before.pad.park,
        ).contains(waker)),
{
    if let ScopeEvent::Idle { slot, waker: newcomer } = event {
        let i = choose|i: int|
            0 <= i < before.pad.park.parked.len() && before.pad.park.parked[i] == waker;
        assert(before.pad.park.parked.push(newcomer)[i] == waker);
    }
}

/// The books that a step works on.
pub open spec fn event_books<F, W>(event: ScopeEvent<F, W>) -> Option<ManagerState> {
    match event {
        ScopeEvent::AddRelay { books, .. } => Some(books),
        ScopeEvent::HandOut { books, .. } => Some(books),
        ScopeEvent::Finish { books, .. } => Some(books),
        ScopeEvent::Yield { books, .. } => Some(books),
        ScopeEvent::Panic { books, .. } => Some(books),
        _ => None,
    }
}

/// A step that works on the books of one spawn does not spoil those of another: the names that
/// they give out stay free.
pub proof fn law_other_books_stay_usable<F, W>(
    before: RelayScopeState<F, W>,
    event: ScopeEvent<F, W>,
    after: RelayScopeState<F, W>,
    other: ManagerState,
)
    requires
        scope_wf(before),
        scope_next(before, event, after),
        scope_fits(before, other),
        event_books(event) matches Some(books) ==> books.id != other.id,
    ensures
        scope_fits(after, other),
{
    if event is Stop {
        assert forall|key: (usize, usize)| #[trigger]
            after.pad.relays.contains_key(key) && key.0 == other.id implies key.1
            < other.next_instance by {
            assert(before.pad.relays.contains_key(key));
        }
    }
}

/// The scopes through which a new scope goes, step by step.
pub open spec fn scope_history<F, W>(
    states: Seq<RelayScopeState<F, W>>,
    events: Seq<ScopeEvent<F, W>>,
) -> bool {
    &&& states.len() == events.len() + 1
    &&& states[0] == (RelayScopeState { pad: pad_new::<F, W>(), relays: Map::empty() })
    &&& forall|i: int| #![trigger events[i]]
        0 <= i < events.len() ==> scope_next(states[i], events[i], states[i + 1])
}

/// In every scope that is reached, whatever the steps and in whatever order, the pad and the relay
/// tasks agree; and until the scope is shut down, its books are right and nobody waits in vain for
/// the last future.
pub proof fn law_every_scope_reached<F, W>(
    states: Seq<RelayScopeState<F, W>>,
    events: Seq<ScopeEvent<F, W>>,
    i: int,
)
    requires
        scope_history(states, events),
        0 <= i < states.len(),
        forall|j: int| #![trigger events[j]]
            0 <= j < i && events[j] is Spawn ==> states[j].pad.current_tasks < usize::MAX,
    ensures
        scope_wf(states[i]),
        waiters_have_reason(states[i]),
        !states[i].pad.destroyed ==> scope_accounted(states[i]),
    decreases i,
{
    if i == 0 {
        assert(holders(Map::<usize, RelayState<F>>::empty()) =~= Set::empty());
    } else {
        law_every_scope_reached(states, events, i - 1);
        let event = events[i - 1];
        law_scope_stays_sound(states[i - 1], event, states[i]);
        law_nobody_waits_in_vain(states[i - 1], event, states[i]);
        if !states[i].pad.destroyed {
            if states[i - 1].pad.destroyed {
                law_shut_down_for_good(states[i - 1], event, states[i]);
            }
            law_books_stay_right(states[i - 1], event, states[i]);
        }
    }
}

} // verus!

//! Where the futures of a relay scope are: each waits in the queue, is in the hands of one relay
//! task, or is out to be polled on behalf of one.
//!
//! The scope does not see a future while it is being polled. What is out is followed here beside
//! it.

use vstd::prelude::*;

use crate::relay::laws::{scope_asked, scope_next, ScopeEvent};
use crate::relay::relay_future::{
    relay_lent, relay_new, relay_panicked, relay_returned, RelayState,
};
use crate::relay::relay_pad::{pad_spawn_numbered, pad_task_ended};
use crate::relay::scope::{
    relay_added, scope_wf, scope_with_pad, scope_with_relay, RelayScopeState,
    TASKS_PER_POLL,
};
use crate::relay::spawn_manager::{
    manager_ended, manager_new, manager_next_id, manager_registered, manager_started,
    manager_wants_relay, ManagerState,
};

verus! {

/// The futures that are out to be polled, by the slots of the relay tasks that have lent them.
pub type Custody<F> = Map<usize, F>;

/// The future that the relay task in `slot` hands out: its own, or the one that waits longest.
pub open spec fn handed_out<F, W>(s: RelayScopeState<F, W>, slot: usize) -> F {
    match s.relays[slot].future {
        Some(future) => future,
        None => s.pad.tasks[0],
    }
}

/// What is out after `event`.
pub open spec fn custody_next<F, W>(
    before: RelayScopeState<F, W>,
    out: Custody<F>,
    event: ScopeEvent<F, W>,
) -> Custody<F> {
    match event {
        ScopeEvent::HandOut { slot, .. } => out.insert(slot, handed_out(before, slot)),
        ScopeEvent::Finish { slot, .. } => out.remove(slot),
        ScopeEvent::Yield { slot, .. } => out.remove(slot),
        ScopeEvent::Panic { slot, .. } => out.remove(slot),
        _ => out,
    }
}

/// A future that is reported unfinished is the one that was out.
pub open spec fn event_is_honest<F, W>(out: Custody<F>, event: ScopeEvent<F, W>) -> bool {
    event matches ScopeEvent::Yield { slot, future, .. } ==> future == out[slot]
}

/// The slot of the relay task whose future is over after `event`.
pub open spec fn event_ends<F, W>(event: ScopeEvent<F, W>) -> Option<usize> {
    match event {
        ScopeEvent::Finish { slot, .. } => Some(slot),
        ScopeEvent::Panic { slot, .. } => Some(slot),
        _ => None,
    }
}

/// How often `future` waits in the queue.
pub open spec fn queued<F>(tasks: Seq<F>, future: F) -> nat
    decreases tasks.len(),
{
    if tasks.len() == 0 {
        0
    } else {
        queued(tasks.drop_last(), future) + (if tasks.last() == future {
            1nat
        } else {
            0nat
        })
    }
}

/// The relay task in `slot` has `future` in hand, or has lent it.
pub open spec fn keeps<F>(
    relays: Map<usize, RelayState<F>>,
    out: Custody<F>,
    slot: usize,
    future: F,
) -> bool {
    &&& relays.contains_key(slot)
    &&& !relays[slot].panicked
    &&& relays[slot].future == Some(future) || (relays[slot].lent && out[slot] == future)
}

/// The slots of the relay tasks that have `future`.
pub open spec fn keepers<F>(
    relays: Map<usize, RelayState<F>>,
    out: Custody<F>,
    future: F,
) -> Set<usize> {
    relays.dom().filter(|slot: usize| keeps(relays, out, slot, future))
}

/// In how many places `future` is.
pub open spec fn places<F, W>(s: RelayScopeState<F, W>, out: Custody<F>, future: F) -> nat {
    queued(s.pad.tasks, future) + keepers(s.relays, out, future).len()
}

/// The first future of a queue counts once.
proof fn lemma_queued_first<F>(tasks: Seq<F>, future: F)
    requires
        tasks.len() > 0,
    ensures
        queued(tasks, future) == queued(tasks.drop_first(), future) + (if tasks[0] == future {
            1nat
        } else {
            0nat
        }),
    decreases tasks.len(),
{
    if tasks.len() == 1 {
        assert(tasks.drop_last() =~= Seq::empty());
        assert(tasks.drop_first() =~= Seq::empty());
    } else {
        lemma_queued_first(tasks.drop_last(), future);
        assert(tasks.drop_first().drop_last() =~= tasks.drop_last().drop_first());
    }
}

/// A future that is in the queue counts.
proof fn lemma_queued_at<F>(tasks: Seq<F>, i: int)
    requires
        0 <= i < tasks.len(),
    ensures
        queued(tasks, tasks[i]) > 0,
    decreases tasks.len(),
{
    if i < tasks.len() - 1 {
        lemma_queued_at(tasks.drop_last(), i);
    }
}

/// One more future at the end of a queue.
proof fn lemma_queued_push<F>(tasks: Seq<F>, last: F, future: F)
    ensures
        queued(tasks.push(last), future) == queued(tasks, future) + (if last == future {
            1nat
        } else {
            0nat
        }),
{
    assert(tasks.push(last).drop_last() =~= tasks);
}

/// Where only `slot` changes, the number of keepers changes by what happens there.
proof fn lemma_keepers_change<F>(
    before: Map<usize, RelayState<F>>,
    out_before: Custody<F>,
    after: Map<usize, RelayState<F>>,
    out_after: Custody<F>,
    slot: usize,
    future: F,
)
    requires
        before.dom().finite(),
        after.dom().finite(),
        forall|other: usize|
            other != slot ==> (#[trigger] keeps(before, out_before, other, future) <==> keeps(
                after,
                out_after,
                other,
                future,
            )),
    ensures
        keepers(after, out_after, future).len() + (if keeps(before, out_before, slot, future) {
            1int
        } else {
            0
        }) == keepers(before, out_before, future).len() + (if keeps(
            after,
            out_after,
            slot,
            future,
        ) {
            1int
        } else {
            0
        }),
{
    let having = keepers(before, out_before, future);
    let keeping = keepers(after, out_after, future);
    assert(having.finite());
    assert(keeping.finite());
    assert(having.remove(slot) =~= keeping.remove(slot)) by {
        assert forall|other: usize| having.remove(slot).contains(other) == keeping.remove(
            slot,
        ).contains(other) by {
            if other != slot {
                assert(keeps(before, out_before, other, future) <==> keeps(
                    after,
                    out_after,
                    other,
                    future,
                ));
            }
        }
    }
    assert(having.contains(slot) <==> keeps(before, out_before, slot, future));
    assert(keeping.contains(slot) <==> keeps(after, out_after, slot, future));
    if !having.contains(slot) {
        assert(having.remove(slot) =~= having);
    }
    if !keeping.contains(slot) {
        assert(keeping.remove(slot) =~= keeping);
    }
    assert(having.remove(slot).len() == keeping.remove(slot).len());
}

/// A relay task that was just added has no future.
proof fn lemma_added_keeps_nothing<F, W>(
    before: RelayScopeState<F, W>,
    books: ManagerState,
    root: bool,
    after: RelayScopeState<F, W>,
    slot: Option<usize>,
    out: Custody<F>,
    future: F,
)
    requires
        before.relays.dom().finite(),
        relay_added(before, books, root, after, manager_registered(books), slot),
    ensures
        places(after, out, future) == places(before, out, future),
        after.pad.current_tasks == before.pad.current_tasks,
        after.relays.dom().finite(),
{
    if let Some(slot) = slot {
        let relay = relay_new::<F>(manager_next_id(books), root);
        assert(after.relays == before.relays.insert(slot, relay));
        lemma_keepers_change(before.relays, out, after.relays, out, slot, future);
    }
}

/// As long as the scope is not shut down, a future comes onto the scope when it is spawned and
/// leaves it when it is finished or polling it has panicked. In between every step leaves it in as many places
/// as it was: it goes from the queue to one relay task, out to be polled, back to that relay task,
/// and perhaps back to the queue. The count of unfinished futures goes up and down with it.
pub proof fn law_future_is_finished_once<F, W>(
    before: RelayScopeState<F, W>,
    out: Custody<F>,
    event: ScopeEvent<F, W>,
    after: RelayScopeState<F, W>,
    future: F,
)
    requires
        scope_wf(before),
        scope_next(before, event, after),
        event_is_honest(out, event),
        !after.pad.destroyed,
        event is Spawn ==> before.pad.current_tasks < usize::MAX,
    ensures
        ({
            let came: int = if event matches ScopeEvent::Spawn { future: spawned } && spawned
                == future {
                1
            } else {
                0
            };
            let went: int = if event_ends(event) matches Some(slot) && out[slot] == future {
                1
            } else {
                0
            };
            places(after, custody_next(before, out, event), future) == places(
                before,
                out,
                future,
            ) + came - went
        }),
        after.pad.current_tasks == before.pad.current_tasks + (if event is Spawn {
            1int
        } else {
            0
        }) - (if event_ends(event) is Some {
            1int
        } else {
            0
        }),
{
    let next = custody_next(before, out, event);
    match event {
        ScopeEvent::Spawn { future: spawned } => {
            lemma_queued_push(before.pad.tasks, spawned, future);
        },
        ScopeEvent::Relay { added } => {
            lemma_added_keeps_nothing(
                scope_with_pad(before, pad_spawn_numbered(before.pad)),
                manager_new(before.pad.next_spawn_id),
                true,
                after,
                added,
                out,
                future,
            );
        },
        ScopeEvent::AddRelay { books, root, added } => {
            lemma_added_keeps_nothing(before, books, root, after, added, out, future);
        },
        ScopeEvent::AwaitEmpty => {},
        ScopeEvent::HandOut { slot, waker, books, respawned } => {
            let asked = if before.relays[slot].future is Some {
                before
            } else {
                scope_asked(before, slot, waker)
            };
            let lent = scope_with_relay(asked, slot, relay_lent(asked.relays[slot]));
            if before.relays[slot].future is None {
                lemma_queued_first(before.pad.tasks, future);
            }
            lemma_keepers_change(before.relays, out, lent.relays, next, slot, future);
            if manager_wants_relay(books) {
                lemma_added_keeps_nothing(
                    lent,
                    manager_started(books),
                    false,
                    after,
                    respawned,
                    next,
                    future,
                );
            }
        },
        ScopeEvent::Idle { slot, waker } => {},
        ScopeEvent::Finish { slot, books, finished_tasks, respawned } => {
            let returned = scope_with_relay(
                scope_with_pad(before, pad_task_ended(before.pad)),
                slot,
                relay_returned(before.relays[slot], None),
            );
            lemma_keepers_change(before.relays, out, returned.relays, next, slot, future);
            if finished_tasks + 1 > TASKS_PER_POLL {
                lemma_added_keeps_nothing(
                    returned,
                    manager_ended(books),
                    before.relays[slot].root,
                    after,
                    respawned,
                    next,
                    future,
                );
            }
        },
        ScopeEvent::Yield { slot, books, future: unfinished, respawned } => {
            let returned = scope_with_relay(
                before,
                slot,
                relay_returned(before.relays[slot], Some(unfinished)),
            );
            lemma_keepers_change(before.relays, out, returned.relays, next, slot, future);
            lemma_added_keeps_nothing(
                returned,
                manager_ended(books),
                false,
                after,
                respawned,
                next,
                future,
            );
        },
        ScopeEvent::Panic { slot, books, future: broken, respawned } => {
            let returned = scope_with_relay(
                scope_with_pad(before, pad_task_ended(before.pad)),
                slot,
                relay_panicked(relay_returned(before.relays[slot], Some(broken))),
            );
            lemma_keepers_change(before.relays, out, returned.relays, next, slot, future);
            if before.relays[slot].root {
                lemma_added_keeps_nothing(
                    returned,
                    manager_ended(books),
                    true,
                    after,
                    respawned,
                    next,
                    future,
                );
            }
        },
        ScopeEvent::Retire { slot } => {
            let relay = before.relays[slot];
            lemma_keepers_change(before.relays, out, after.relays, next, slot, future);
            if !relay.panicked {
                if let Some(rescued) = relay.future {
                    lemma_queued_push(before.pad.tasks, rescued, future);
                }
            }
        },
        ScopeEvent::Stop => {},
    }
}

/// A future that is in one place is with one relay task at most, and if it is with one, it is not
/// in the queue.
pub proof fn law_future_is_with_one_relay<F, W>(
    s: RelayScopeState<F, W>,
    out: Custody<F>,
    future: F,
    one: usize,
    other: usize,
)
    requires
        scope_wf(s),
        places(s, out, future) == 1,
        keeps(s.relays, out, one, future),
        keeps(s.relays, out, other, future),
    ensures
        one == other,
        !s.pad.tasks.contains(future),
{
    let having = keepers(s.relays, out, future);
    assert(having.finite());
    assert(having.contains(one) && having.contains(other));
    assert(having.remove(one).len() == having.len() - 1);
    if one != other {
        assert(having.remove(one).contains(other));
        assert(having.remove(one).remove(other).len() == having.remove(one).len() - 1);
    }
    if s.pad.tasks.contains(future) {
        let i = choose|i: int| 0 <= i < s.pad.tasks.len() && s.pad.tasks[i] == future;
        lemma_queued_at(s.pad.tasks, i);
    }
}

/// Only a future that is on the scope is handed out to be polled: so one that is over never is
/// again.
pub proof fn law_finished_future_is_not_polled<F, W>(
    before: RelayScopeState<F, W>,
    out: Custody<F>,
    slot: usize,
    waker: W,
    books: ManagerState,
    respawned: Option<usize>,
    after: RelayScopeState<F, W>,
)
    requires
        scope_wf(before),
        scope_next(before, ScopeEvent::HandOut { slot, waker, books, respawned }, after),
    ensures
        places(before, out, handed_out(before, slot)) > 0,
{
    let future = handed_out(before, slot);
    if before.relays[slot].future is Some {
        let having = keepers(before.relays, out, future);
        assert(keeps(before.relays, out, slot, future));
        assert(having.finite());
        assert(having.contains(slot));
        assert(having.remove(slot).len() == having.len() - 1);
    } else {
        lemma_queued_at(before.pad.tasks, 0);
    }
}

} // verus!

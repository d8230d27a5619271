use std::sync::atomic::AtomicUsize;
use std::sync::atomic::Ordering::SeqCst;
use std::sync::Arc;
use std::task::Context;

use futures::channel::oneshot::Canceled;
use futures::task::{noop_waker, waker, ArcWake};
use futures_scopes::relay::empty_signal::EmptySignal;
use futures_scopes::relay::registry::Registry;
use futures_scopes::relay::relay_future::{RelayFuture, RelayFutureInner};
use futures_scopes::relay::relay_pad::FuturePollingGuard;
use futures_scopes::relay::slab::Slab;
use futures_scopes::relay::task_queue::TaskQueue;
use futures_scopes::relay::waker_park::{WaitResult, WakerPark};
use futures_scopes::relay::{
    RelayAction, RelayFutureId, RelayPad, RelayScope, SpawnManager, TaskDequeueErr, UntilEmpty,
};
use futures_scopes::task::Progress;

fn is_ready(until: &mut UntilEmpty) -> bool {
    let waker = noop_waker();
    let mut cx = Context::from_waker(&waker);
    until.poll(&mut cx) == Progress::Ready(())
}

/// Polls the relay task in `slot` and expects it to hand out a future.
fn hand_out(
    scope: &mut RelayScope<u32, char>,
    slot: usize,
    manager: &mut SpawnManager,
) -> (u32, FuturePollingGuard, Option<usize>) {
    assert!(scope.can_poll(slot, manager));
    match scope.poll_relay(slot, manager, 'w') {
        RelayAction::Poll { future, guard, respawned } => (future, guard, respawned),
        RelayAction::Return(_) => panic!("no future was handed out"),
    }
}

/// Polls the relay task in `slot` and expects it to have nothing to poll.
fn idle(
    scope: &mut RelayScope<u32, char>,
    slot: usize,
    manager: &mut SpawnManager,
    waker: char,
) -> Progress<()> {
    assert!(scope.can_poll(slot, manager));
    match scope.poll_relay(slot, manager, waker) {
        RelayAction::Poll { .. } => panic!("a future was handed out"),
        RelayAction::Return(progress) => progress,
    }
}

#[test]
fn a_token_is_good_until_the_next_wake_up() {
    let mut park: WakerPark<u32> = WakerPark::new();
    let stale = park.token();
    let fresh = {
        assert_eq!(park.wake(), Vec::<u32>::new());
        park.token()
    };
    assert_eq!(park.wait(1, stale), WaitResult::TokenMismatch);
    assert_eq!(park.wait(2, fresh), WaitResult::Parked);
    assert_eq!(park.wake(), vec![2]);
}

#[test]
fn a_parked_waker_survives_other_attempts() {
    let mut park: WakerPark<u32> = WakerPark::new();
    let old = park.token();
    park.wake();
    let token = park.token();
    assert_eq!(park.wait(1, token), WaitResult::Parked);
    assert_eq!(park.wait(2, old), WaitResult::TokenMismatch);
    assert_eq!(park.wake(), vec![1]);
}

#[test]
fn relay_tasks_are_numbered_and_counted() {
    let mut manager = SpawnManager::new(7);
    assert_eq!(manager.register(), RelayFutureId { spawn_id: 7, instance: 0 });
    assert_eq!(manager.register(), RelayFutureId { spawn_id: 7, instance: 1 });
    assert_eq!(manager.non_working(), 2);
    assert_eq!(manager.next_instance(), 2);
    manager.unregister();
    assert_eq!(manager.non_working(), 1);
    assert_eq!(manager.next_instance(), 2);
    assert!(manager.start_polling().should_respawn());
    assert_eq!(manager.non_working(), 0);
    manager.end_polling();
    assert_eq!(manager.non_working(), 1);
}

#[test]
fn another_relay_task_is_wanted_while_fewer_than_five_are_idle() {
    let mut manager = SpawnManager::new(0);
    for _ in 0..6 {
        manager.register();
    }
    // Five others stay idle.
    assert!(!manager.start_polling().should_respawn());
    manager.end_polling();
    manager.unregister();
    // Four others stay idle.
    assert!(manager.start_polling().should_respawn());
}

#[test]
fn the_queue_is_first_in_first_out() {
    let mut queue: TaskQueue<&str> = TaskQueue::new();
    assert_eq!(queue.pop(), None);
    assert!(queue.push("a").is_ok());
    assert!(queue.push("b").is_ok());
    assert_eq!(queue.pop(), Some("a"));
    assert!(queue.push("c").is_ok());
    assert!(queue.push("d").is_ok());
    assert_eq!(queue.pop(), Some("b"));
    assert_eq!(queue.drain(), vec!["c", "d"]);
    assert_eq!(queue.pop(), None);
}

#[test]
fn the_table_gives_out_free_keys() {
    let mut slab: Slab<char> = Slab::new();
    let a = slab.insert('a');
    let b = slab.insert('b');
    assert_ne!(a, b);
    assert_eq!(*slab.get(a), 'a');
    *slab.get_mut(b) = 'x';
    assert_eq!(slab.remove(b), Some('x'));
    assert_eq!(slab.remove(b), None);
    assert_eq!(slab.remove(99), None);
    let c = slab.insert('c');
    assert_ne!(a, c);
    assert!(slab.contains(a) && slab.contains(c) && !slab.contains(99));
}

#[test]
fn the_registry_knows_where_relay_tasks_are_kept() {
    let one = RelayFutureId { spawn_id: 0, instance: 1 };
    let other = RelayFutureId { spawn_id: 1, instance: 0 };
    let mut registry = Registry::new();
    assert!(registry.is_empty());
    registry.insert(one, 10);
    registry.insert(other, 20);
    let mut slots = registry.slots();
    slots.sort();
    assert_eq!(slots, vec![10, 20]);
    registry.insert(one, 11);
    assert!(registry.remove(other));
    assert!(!registry.remove(other));
    assert_eq!(registry.slots(), vec![11]);
    assert!(registry.remove(one));
    assert!(registry.is_empty());
}

#[test]
fn the_signal_reaches_all_who_wait() {
    let signal = EmptySignal::new();
    let mut one = signal.wait();
    let mut other = signal.wait();
    assert!(!is_ready(&mut one));
    assert!(signal.give());
    assert!(is_ready(&mut one));
    assert!(is_ready(&mut other));
}

#[test]
fn waiting_for_an_empty_scope_is_over_at_once() {
    let mut scope: RelayScope<u32, char> = RelayScope::new();
    assert!(is_ready(&mut scope.until_empty()));
    assert!(is_ready(&mut UntilEmpty::ready()));
    assert!(scope.spawn_obj_scoped(1).is_ok());
    assert!(!is_ready(&mut scope.until_empty()));
    scope.stop();
    assert!(is_ready(&mut scope.until_empty()));
}

/// A task that counts how often it is woken.
struct Counted(AtomicUsize);

impl ArcWake for Counted {
    fn wake_by_ref(this: &Arc<Self>) {
        this.0.fetch_add(1, SeqCst);
    }
}

#[test]
fn the_task_that_waits_for_an_empty_scope_is_woken() {
    let mut scope: RelayScope<u32, char> = RelayScope::new();
    scope.spawn_obj_scoped(1).unwrap();
    let (root, mut manager) = scope.relay_to().unwrap();
    let task = Arc::new(Counted(AtomicUsize::new(0)));
    let waker = waker(task.clone());
    let mut cx = Context::from_waker(&waker);
    let mut until = scope.until_empty();
    assert_eq!(until.poll(&mut cx), Progress::Pending);
    let (_, guard, _) = hand_out(&mut scope, root, &mut manager);
    assert!(!scope.can_drop(root));
    assert_eq!(task.0.load(SeqCst), 0);
    scope.relay_finished(root, &mut manager, guard, 0);
    assert_eq!(task.0.load(SeqCst), 1);
    scope.spawn_obj_scoped(2).unwrap();
    assert_eq!(until.poll(&mut cx), Progress::Ready(()));
    assert!(scope.can_drop(root));
    assert!(!scope.can_drop(root + 100));
}

#[test]
fn nobody_waits_for_a_signal_that_is_gone() {
    let signal = EmptySignal::new();
    let mut until = signal.wait();
    assert!(!is_ready(&mut until));
    drop(signal);
    assert!(is_ready(&mut until));
    assert_eq!(UntilEmpty::answer(Progress::Ready(Err(Canceled))), Progress::Ready(()));
    assert_eq!(UntilEmpty::answer(Progress::Ready(Ok(()))), Progress::Ready(()));
    assert_eq!(UntilEmpty::answer(Progress::Pending), Progress::Pending);
}

#[test]
fn the_pad_answers_relay_tasks() {
    let mut pad: RelayPad<u32, char> = RelayPad::new();
    assert_eq!(pad.next_spawn_id(), 0);
    assert_eq!(pad.next_spawn_id(), 1);
    assert_eq!(pad.dequeue_task(None), Err(TaskDequeueErr::NoTasks));
    assert_eq!(pad.dequeue_task(Some('a')), Err(TaskDequeueErr::WaitingForTasks));
    assert_eq!(pad.dequeue_task(Some('b')), Err(TaskDequeueErr::WaitingForTasks));
    assert_eq!(pad.enqueue_task(1).ok(), Some(vec!['a', 'b']));
    assert_eq!(pad.enqueue_task(2).ok(), Some(Vec::new()));
    assert_eq!(pad.current_tasks(), 2);
    assert_eq!(pad.dequeue_task(Some('c')), Ok(1));
    assert!(!pad.is_destroyed());
    assert_eq!(pad.destroy(), Some((Vec::new(), vec![2])));
    assert!(pad.is_destroyed());
    assert_eq!(pad.dequeue_task(Some('d')), Err(TaskDequeueErr::Destroy));
    assert!(pad.enqueue_task(3).is_err());
    assert_eq!(pad.current_tasks(), 0);
}

#[test]
fn the_pad_tells_when_the_last_future_is_finished() {
    let mut pad: RelayPad<u32, char> = RelayPad::new();
    assert!(is_ready(&mut pad.until_empty()));
    pad.enqueue_task(1).unwrap();
    pad.enqueue_task(2).unwrap();
    let mut until = pad.until_empty();
    let mut other = pad.until_empty();
    let mut guard = pad.start_future_polling().unwrap();
    assert!(!guard.poll_again());
    guard.will_poll_again();
    assert!(guard.poll_again());
    pad.end_future_polling(true);
    assert_eq!(pad.current_tasks(), 2);
    pad.end_future_polling(false);
    assert!(!is_ready(&mut until));
    pad.end_future_polling(false);
    assert!(is_ready(&mut until));
    assert!(is_ready(&mut other));
    assert!(is_ready(&mut pad.until_empty()));
}

#[test]
fn a_pad_that_is_shut_down_takes_futures_from_relay_tasks() {
    let mut pad: RelayPad<u32, char> = RelayPad::new();
    let id = RelayFutureId { spawn_id: 0, instance: 0 };
    assert!(pad.register_relay_future(id, 5));
    assert_eq!(pad.relay_slots(), vec![5]);
    pad.enqueue_task(1).unwrap();
    let mut until = pad.until_empty();
    assert_eq!(pad.destroy(), None);
    assert!(!pad.register_relay_future(RelayFutureId { spawn_id: 0, instance: 1 }, 6));
    assert!(!is_ready(&mut until));
    assert!(pad.start_future_polling().is_none());
    assert!(is_ready(&mut until));
    assert_eq!(pad.current_tasks(), 0);
    assert_eq!(pad.unregister_relay_future(id, Some(9)), Some(9));
    assert_eq!(pad.destroy(), Some((Vec::new(), vec![1])));
}

#[test]
fn a_relay_task_leaves_its_future_behind_once() {
    let mut pad: RelayPad<u32, char> = RelayPad::new();
    let id = RelayFutureId { spawn_id: 0, instance: 0 };
    pad.register_relay_future(id, 0);
    let mut relay: RelayFuture<u32> = RelayFuture::new(id, true);
    assert!(relay.is_root());
    assert!(!relay.has_future());
    relay.accept(4);
    assert_eq!(relay.lend(), 4);
    assert!(relay.is_lent());
    relay.give_back(Some(4));
    assert!(!relay.is_lent());
    assert_eq!(relay.retire(&mut pad), None);
    assert_eq!(relay.destroy(&mut pad, true), None);
    assert_eq!(pad.dequeue_task(None), Ok(4));
    assert_eq!(pad.dequeue_task(None), Err(TaskDequeueErr::NoTasks));

    let mut inner: RelayFutureInner<u32> = RelayFutureInner::new(id);
    assert_eq!(inner.id(), id);
    pad.register_relay_future(id, 0);
    assert_eq!(inner.destroy(&mut pad, false), None);
    assert_eq!(pad.relay_slots(), Vec::<usize>::new());
}

#[test]
fn futures_are_taken_in_the_order_in_which_they_were_spawned() {
    let mut scope: RelayScope<u32, char> = RelayScope::new();
    for task in 1..=3 {
        assert_eq!(scope.spawn_obj_scoped(task).ok(), Some(Vec::new()));
    }
    let (slot, mut manager) = scope.relay_to().unwrap();
    for task in 1..=3 {
        let (future, guard, _) = hand_out(&mut scope, slot, &mut manager);
        assert_eq!(future, task);
        assert!(!scope.relay_finished(slot, &mut manager, guard, 0).done);
    }
    assert_eq!(scope.current_tasks(), 0);
}

#[test]
fn the_first_relay_task_waits_and_others_do_not() {
    let mut scope: RelayScope<u32, char> = RelayScope::new();
    let (root, mut manager) = scope.relay_to().unwrap();
    assert_eq!(idle(&mut scope, root, &mut manager, 'r'), Progress::Pending);
    let extra = scope.add_relay(&mut manager, false).unwrap();
    assert_eq!(idle(&mut scope, extra, &mut manager, 'e'), Progress::Ready(()));
    assert_eq!(scope.drop_relay(extra, &mut manager), None);
    // The next spawn wakes the one that waits, once.
    assert_eq!(scope.spawn_obj_scoped(1).ok(), Some(vec!['r']));
    assert_eq!(scope.spawn_obj_scoped(2).ok(), Some(Vec::new()));
}

#[test]
fn a_relay_task_makes_room_after_six_futures() {
    let mut scope: RelayScope<u32, char> = RelayScope::new();
    for task in 0..10 {
        scope.spawn_obj_scoped(task).unwrap();
    }
    let (root, mut manager) = scope.relay_to().unwrap();
    for finished_tasks in 0..5 {
        let (_, guard, _) = hand_out(&mut scope, root, &mut manager);
        let verdict = scope.relay_finished(root, &mut manager, guard, finished_tasks);
        assert!(!verdict.done);
        assert_eq!(verdict.respawned, None);
    }
    let (_, guard, _) = hand_out(&mut scope, root, &mut manager);
    let verdict = scope.relay_finished(root, &mut manager, guard, 5);
    assert!(verdict.done);
    // The one that takes over waits for futures, as this one did.
    let heir = verdict.respawned.unwrap();
    assert_eq!(scope.drop_relay(root, &mut manager), None);
    for _ in 0..4 {
        let (_, guard, _) = hand_out(&mut scope, heir, &mut manager);
        scope.relay_finished(heir, &mut manager, guard, 0);
    }
    assert_eq!(idle(&mut scope, heir, &mut manager, 'h'), Progress::Pending);
}

#[test]
fn an_unfinished_future_stays_with_its_relay_task() {
    let mut scope: RelayScope<u32, char> = RelayScope::new();
    scope.spawn_obj_scoped(1).unwrap();
    scope.spawn_obj_scoped(2).unwrap();
    let (root, mut manager) = scope.relay_to().unwrap();
    let (future, guard, brought) = hand_out(&mut scope, root, &mut manager);
    assert_eq!(future, 1);
    assert!(brought.is_some());
    assert!(!scope.can_poll(root, &manager));
    let another = scope.relay_unfinished(root, &mut manager, guard, future).unwrap();
    assert_eq!(scope.current_tasks(), 2);
    let (future, guard, _) = hand_out(&mut scope, another, &mut manager);
    assert_eq!(future, 2);
    scope.relay_finished(another, &mut manager, guard, 0);
    let (future, guard, _) = hand_out(&mut scope, root, &mut manager);
    assert_eq!(future, 1);
    scope.relay_finished(root, &mut manager, guard, 0);
    assert_eq!(scope.current_tasks(), 0);
}

#[test]
fn a_future_is_rescued_when_its_relay_task_is_dropped() {
    let mut scope: RelayScope<u32, char> = RelayScope::new();
    scope.spawn_obj_scoped(1).unwrap();
    scope.spawn_obj_scoped(2).unwrap();
    let (root, mut manager) = scope.relay_to().unwrap();
    let (future, guard, _) = hand_out(&mut scope, root, &mut manager);
    scope.relay_unfinished(root, &mut manager, guard, future);
    assert_eq!(scope.drop_relay(root, &mut manager), None);
    assert_eq!(scope.current_tasks(), 2);
    let (root, mut manager) = scope.relay_to().unwrap();
    assert_eq!(hand_out(&mut scope, root, &mut manager).0, 2);
    let extra = scope.add_relay(&mut manager, false).unwrap();
    assert_eq!(hand_out(&mut scope, extra, &mut manager).0, 1);
}

#[test]
fn putting_a_future_back_wakes_nobody() {
    let mut scope: RelayScope<u32, char> = RelayScope::new();
    scope.spawn_obj_scoped(1).unwrap();
    let (root, mut manager) = scope.relay_to().unwrap();
    let (other, mut other_manager) = scope.relay_to().unwrap();
    let (future, guard, _) = hand_out(&mut scope, root, &mut manager);
    scope.relay_unfinished(root, &mut manager, guard, future);
    assert_eq!(idle(&mut scope, other, &mut other_manager, 'o'), Progress::Pending);
    assert_eq!(scope.drop_relay(root, &mut manager), None);
    // The future waits, and so does the relay task, until something else is spawned.
    assert_eq!(scope.spawn_obj_scoped(2).ok(), Some(vec!['o']));
    assert_eq!(hand_out(&mut scope, other, &mut other_manager).0, 1);
}

#[test]
fn a_future_that_panics_is_finished() {
    let mut scope: RelayScope<u32, char> = RelayScope::new();
    scope.spawn_obj_scoped(1).unwrap();
    let mut until = scope.until_empty();
    let (root, mut manager) = scope.relay_to().unwrap();
    let (future, guard, _) = hand_out(&mut scope, root, &mut manager);
    let heir = scope.relay_panicked(root, &mut manager, guard, future).unwrap();
    assert!(is_ready(&mut until));
    assert_eq!(scope.current_tasks(), 0);
    assert!(!scope.can_poll(root, &manager));
    assert_eq!(scope.drop_relay(root, &mut manager), Some(1));
    assert_eq!(idle(&mut scope, heir, &mut manager, 'h'), Progress::Pending);
}

#[test]
fn after_a_panic_beside_the_waiting_relay_task_the_future_is_dropped() {
    let mut scope: RelayScope<u32, char> = RelayScope::new();
    scope.spawn_obj_scoped(1).unwrap();
    let (root, mut manager) = scope.relay_to().unwrap();
    let extra = scope.add_relay(&mut manager, false).unwrap();
    let (future, guard, _) = hand_out(&mut scope, extra, &mut manager);
    assert_eq!(scope.relay_panicked(extra, &mut manager, guard, future), None);
    assert_eq!(scope.current_tasks(), 0);
    assert!(!scope.can_poll(extra, &manager));
    assert_eq!(scope.drop_relay(extra, &mut manager), Some(1));
    assert_eq!(idle(&mut scope, root, &mut manager, 'r'), Progress::Pending);
}

#[test]
fn a_stopped_scope_lets_go_of_everything() {
    let mut scope: RelayScope<u32, char> = RelayScope::new();
    assert!(scope.status_scoped().is_ok());
    for task in 1..=4 {
        scope.spawn_obj_scoped(task).unwrap();
    }
    let mut until = scope.until_empty();
    let (root, mut manager) = scope.relay_to().unwrap();
    let extra = scope.add_relay(&mut manager, false).unwrap();
    let (kept, guard, _) = hand_out(&mut scope, root, &mut manager);
    scope.relay_unfinished(root, &mut manager, guard, kept);
    let (polled, guard, _) = hand_out(&mut scope, extra, &mut manager);

    // One future is being polled: the scope can only let go of the one that a relay task keeps.
    let outcome = scope.stop();
    assert_eq!(outcome.dropped, vec![1]);
    assert!(outcome.woken.is_none());
    assert!(scope.status_scoped().is_err());
    assert!(scope.spawn_obj_scoped(5).is_err());
    assert!(scope.relay_to().is_err());
    assert!(scope.can_relay());
    assert!(!is_ready(&mut until));

    assert_eq!(scope.relay_unfinished(extra, &mut manager, guard, polled), None);
    let outcome = scope.stop();
    assert_eq!(outcome.dropped, vec![2, 3, 4]);
    assert_eq!(outcome.woken, Some(Vec::new()));
    assert!(is_ready(&mut until));
    assert!(is_ready(&mut scope.until_empty()));
    assert_eq!(scope.current_tasks(), 0);

    let outcome = scope.stop();
    assert_eq!(outcome.dropped, Vec::<u32>::new());
    assert_eq!(outcome.woken, Some(Vec::new()));

    assert_eq!(idle(&mut scope, root, &mut manager, 'r'), Progress::Ready(()));
    assert_eq!(scope.drop_relay(root, &mut manager), None);
    assert_eq!(scope.drop_relay(extra, &mut manager), None);
}

#[test]
fn a_future_is_with_one_relay_task_and_is_counted_once() {
    let mut scope: RelayScope<u32, char> = RelayScope::new();
    let (root, mut manager) = scope.relay_to().unwrap();
    let extra = scope.add_relay(&mut manager, false).unwrap();
    scope.spawn_obj_scoped(7).unwrap();
    let (future, guard, _) = hand_out(&mut scope, extra, &mut manager);
    assert_eq!(idle(&mut scope, root, &mut manager, 'r'), Progress::Pending);
    scope.relay_unfinished(extra, &mut manager, guard, future);
    assert_eq!(scope.current_tasks(), 1);
    assert_eq!(idle(&mut scope, root, &mut manager, 'r'), Progress::Pending);
    assert_eq!(scope.drop_relay(extra, &mut manager), None);
    let (future, guard, _) = hand_out(&mut scope, root, &mut manager);
    assert_eq!(future, 7);
    assert_eq!(scope.current_tasks(), 1);
    scope.relay_finished(root, &mut manager, guard, 0);
    assert_eq!(scope.current_tasks(), 0);
    assert_eq!(idle(&mut scope, root, &mut manager, 'r'), Progress::Pending);
}

#[test]
fn stopping_wakes_the_relay_task_that_waits() {
    let mut scope: RelayScope<u32, char> = RelayScope::new();
    let (root, mut manager) = scope.relay_to().unwrap();
    assert_eq!(idle(&mut scope, root, &mut manager, 'r'), Progress::Pending);
    let outcome = scope.stop();
    assert_eq!(outcome.dropped, Vec::<u32>::new());
    assert_eq!(outcome.woken, Some(vec!['r']));
    assert_eq!(idle(&mut scope, root, &mut manager, 'r'), Progress::Ready(()));
}

#[test]
fn a_future_that_a_relay_task_keeps_is_given_up_once_the_scope_is_shut_down() {
    let mut pad: RelayPad<u32, char> = RelayPad::new();
    let id = RelayFutureId { spawn_id: 0, instance: 0 };
    pad.register_relay_future(id, 0);
    let mut relay: RelayFuture<u32> = RelayFuture::new(id, false);
    relay.accept(3);
    assert_eq!(pad.destroy(), None);
    assert_eq!(relay.retire(&mut pad), Some(3));
    assert_eq!(pad.destroy(), Some((Vec::new(), Vec::new())));
}

#[test]
fn spawns_keep_separate_books() {
    let mut scope: RelayScope<u32, char> = RelayScope::new();
    let (one, mut books_of_one) = scope.relay_to().unwrap();
    let (other, mut books_of_other) = scope.relay_to().unwrap();
    assert_ne!(one, other);
    let added = scope.add_relay(&mut books_of_one, false).unwrap();
    assert_eq!(books_of_one.next_instance(), 2);
    assert_eq!(books_of_other.next_instance(), 1);
    scope.drop_relay(added, &mut books_of_one);
    assert_eq!(books_of_one.non_working(), 1);
    scope.drop_relay(other, &mut books_of_other);
    assert_eq!(books_of_other.non_working(), 0);
}

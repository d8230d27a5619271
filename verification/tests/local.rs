use std::cell::{Cell, RefCell};
use std::future::{pending, Future};
use std::pin::Pin;
use std::rc::Rc;
use std::sync::atomic::AtomicUsize;
use std::sync::atomic::Ordering::SeqCst;
use std::sync::Arc;
use std::task::{Context, Poll};

use futures::channel::oneshot;
use futures::executor::block_on;
use futures::future::{select, Either};
use futures::task::{waker, ArcWake, FutureObj, LocalFutureObj, SpawnError};
use futures::FutureExt;
use futures_scopes::local::incoming::{Incoming, IncomingPad};
use futures_scopes::local::shared::{PadHolder, SharedIncoming};
use futures_scopes::local::{
    LocalScope, LocalSpawnScope, LocalSpawnScopeSpawner, Until, UntilEmpty, UntilStalled,
};
use futures_scopes::task::Progress;
use futures_scopes::ScopedSpawn;

fn to_poll<T>(progress: Progress<T>) -> Poll<T> {
    match progress {
        Progress::Ready(value) => Poll::Ready(value),
        Progress::Pending => Poll::Pending,
    }
}

struct Empty<'s, 'sc, T>(UntilEmpty<'s, 'sc, T>);

impl<'s, 'sc, T> Future for Empty<'s, 'sc, T> {
    type Output = ();

    fn poll(self: Pin<&mut Self>, cx: &mut Context<'_>) -> Poll<()> {
        let this = self.get_mut();
        loop {
            if let Some(progress) = this.0.poll(cx, 3) {
                return to_poll(progress);
            }
        }
    }
}

struct Stalled<'s, 'sc, T>(UntilStalled<'s, 'sc, T>);

impl<'s, 'sc, T> Future for Stalled<'s, 'sc, T> {
    type Output = ();

    fn poll(self: Pin<&mut Self>, _: &mut Context<'_>) -> Poll<()> {
        let this = self.get_mut();
        loop {
            if let Some(progress) = this.0.poll(3) {
                return to_poll(progress);
            }
        }
    }
}

struct Waiting<'s, 'sc, 'f, T, O>(Until<'s, 'sc, 'f, T, O>);

impl<'s, 'sc, 'f, T, O> Unpin for Waiting<'s, 'sc, 'f, T, O> {}

impl<'s, 'sc, 'f, T, O> Future for Waiting<'s, 'sc, 'f, T, O> {
    type Output = O;

    fn poll(self: Pin<&mut Self>, cx: &mut Context<'_>) -> Poll<O> {
        let this = self.get_mut();
        loop {
            if let Some(progress) = this.0.poll(cx, 3) {
                return to_poll(progress);
            }
        }
    }
}

fn until_empty<'s, 'sc, T>(scope: &'s mut LocalSpawnScope<'sc, T>) -> Empty<'s, 'sc, T> {
    Empty(scope.until_empty())
}

fn until_stalled<'s, 'sc, T>(scope: &'s mut LocalSpawnScope<'sc, T>) -> Stalled<'s, 'sc, T> {
    Stalled(scope.until_stalled())
}

fn until<'s, 'sc, 'f, T, O>(
    scope: &'s mut LocalSpawnScope<'sc, T>,
    future: impl Future<Output = O> + 'f,
) -> Waiting<'s, 'sc, 'f, T, O> {
    Waiting(scope.until(LocalFutureObj::new(Box::new(future))))
}

fn spawn<'sc, T>(
    spawner: &LocalSpawnScopeSpawner<'sc, T>,
    future: impl Future<Output = T> + 'sc,
) -> Result<(), SpawnError> {
    spawner.spawn_scoped_local_obj(LocalFutureObj::new(Box::new(future)))
}

/// A task that counts how often it is woken.
struct Counted(AtomicUsize);

impl ArcWake for Counted {
    fn wake_by_ref(this: &Arc<Self>) {
        this.0.fetch_add(1, SeqCst);
    }
}

#[test]
fn local_test_mutate_outer() {
    let mut called = false;
    {
        let mut scope = LocalSpawnScope::new();

        spawn(&scope.spawner(), async {
            called = true;
        })
        .unwrap();

        block_on(until_empty(&mut scope));
    }
    assert!(called);
}

#[test]
fn local_test_drop_without_spawner() {
    let counter = Rc::new(());
    {
        let scope = LocalSpawnScope::new();

        for _ in 0..50 {
            let counter = counter.clone();
            spawn(&scope.spawner(), async move {
                let _counter = counter;
                pending::<()>().await
            })
            .unwrap();
        }
    }
    assert_eq!(1, Rc::strong_count(&counter));
}

#[test]
fn test_spawn_outside_until_empty() {
    let mut scope = LocalSpawnScope::new();
    let spawner = scope.spawner();

    let (sx, rx) = oneshot::channel();

    let f = async {
        // By now until_empty has been polled and was pending; the next spawn has to wake it.
        spawn(&spawner, async {
            sx.send(()).unwrap();
        })
        .unwrap();
        pending::<()>().await;
    };

    block_on(async {
        spawn(&spawner, async {
            rx.await.unwrap();
        })
        .unwrap();

        until_stalled(&mut scope).await;

        let finished = select(Box::pin(until_empty(&mut scope)), Box::pin(f)).await;
        assert!(matches!(finished, Either::Left(_)));
    });
}

#[test]
fn test_spawn_outside_until() {
    let mut scope = LocalSpawnScope::new();
    let spawner = scope.spawner();

    let (sx, rx) = oneshot::channel();

    let f = async {
        // By now until has been polled and was pending; the next spawn has to wake it.
        spawn(&spawner, async {
            sx.send(()).unwrap();
        })
        .unwrap();
        pending::<()>().await;
    };

    block_on(async {
        let finished = select(Box::pin(until(&mut scope, rx)), Box::pin(f)).await;
        assert!(matches!(finished, Either::Left(_)));
    });
}

#[test]
fn test_local_spawn_scope() {
    struct Test(i32);
    let org = Test(3);
    let value = &org;
    let mut scope = LocalSpawnScope::new();
    let (sx, rx) = oneshot::channel::<i32>();
    let spawner = scope.spawner();
    let inner_spawner = scope.spawner();
    spawn(&spawner, async move {
        let mut inner_scope = LocalSpawnScope::new();

        spawn(&inner_scope.spawner(), async {
            println!("  inner scope");
            spawn(&inner_spawner, async { println!("from inner scope") }).unwrap();
        })
        .unwrap();

        spawn(&inner_scope.spawner(), async {
            println!("  inner scope2");
            spawn(&inner_spawner, async { println!("from inner scope2") }).unwrap();
        })
        .unwrap();

        println!("outer {}", value.0);
        spawn(&inner_spawner, async move {
            sx.send(10).unwrap();
            println!("inner {}", value.0);
        })
        .unwrap();

        println!("before inner_scope.until.empty()");
        until_empty(&mut inner_scope).await;
        println!("after inner_scope.until.empty()");
    })
    .unwrap();

    let result = block_on(async {
        let (sx2, rx2) = oneshot::channel::<i32>();
        spawner
            .spawn_obj_scoped(FutureObj::new(Box::new(async move {
                println!("before rx.await");
                rx2.await.unwrap();
                println!("after rx.await");
            })))
            .unwrap();
        println!("before until_stalled");
        until_stalled(&mut scope).await;
        println!("after until_stalled");
        scope.seal();
        sx2.send(3).unwrap();
        let result = until(&mut scope, rx).await.unwrap();
        println!("after until");
        until_empty(&mut scope).await;
        result
    });

    assert_eq!(result, 10);
}

#[test]
fn results_of_finished_futures_are_collected() {
    let some_value = &42;
    let mut scope = LocalSpawnScope::<usize>::new();
    spawn(&scope.spawner(), async { *some_value }).unwrap();
    block_on(until_empty(&mut scope));
    assert_eq!(scope.results(), &[42]);

    let mut scope = LocalSpawnScope::new();
    let spawner = scope.spawner();
    for i in 0..5 {
        spawn(&spawner, async move { i }).unwrap();
    }
    block_on(until_empty(&mut scope));
    assert_eq!(scope.results(), &[0, 1, 2, 3, 4]);
    assert_eq!(scope.take_results(), vec![0, 1, 2, 3, 4]);
}

#[test]
fn a_cancelled_scope_refuses_futures_and_drops_those_it_has() {
    let counter = Rc::new(());
    let mut scope: LocalScope<'_, u32> = LocalScope::new();
    let spawner = scope.spawner();
    assert!(spawner.status_scoped().is_ok());
    spawn(&spawner, async { 1 }).unwrap();
    for polled in [true, false] {
        let held = counter.clone();
        spawn(&spawner, async move {
            let _held = held;
            pending().await
        })
        .unwrap();
        if polled {
            block_on(until_stalled(&mut scope));
        }
    }
    assert_eq!(3, Rc::strong_count(&counter));
    scope.cancel();
    assert_eq!(1, Rc::strong_count(&counter));
    assert!(spawner.status_scoped().is_err());
    let refused = spawn(&spawner, async { 10 });
    assert!(matches!(refused, Err(error) if error.is_shutdown()));
    block_on(until_empty(&mut scope));
    assert_eq!(scope.results(), &[1]);
}

#[test]
fn a_sealed_scope_refuses_futures_and_keeps_those_it_has() {
    let finished = RefCell::new(0);
    let mut scope: LocalScope<'_> = LocalScope::new();
    let spawner = scope.spawner();
    spawn(&spawner, async { *finished.borrow_mut() += 1 }).unwrap();
    scope.seal();
    let refused = spawn(&spawner, async { *finished.borrow_mut() += 10 });
    assert!(matches!(refused, Err(error) if error.is_shutdown()));
    block_on(until_empty(&mut scope));
    assert_eq!(*finished.borrow(), 1);
}

#[test]
fn results_are_collected_anew_after_they_were_taken() {
    let (sx, rx) = oneshot::channel();
    let mut scope = LocalSpawnScope::new();
    let spawner = scope.spawner();
    spawn(&spawner, async { 1 }).unwrap();
    spawn(&spawner, async { rx.await.unwrap() }).unwrap();
    block_on(until_stalled(&mut scope));
    assert_eq!(scope.take_results(), vec![1]);
    assert_eq!(scope.results(), &Vec::<u32>::new());
    sx.send(2).unwrap();
    spawn(&spawner, async { 3 }).unwrap();
    block_on(until_empty(&mut scope));
    let mut results = scope.take_results();
    results.sort();
    assert_eq!(results, vec![2, 3]);
}

#[test]
fn until_polls_what_the_awaited_future_spawns() {
    let (sx, rx) = oneshot::channel();
    let mut scope = LocalSpawnScope::new();
    let spawner = scope.spawner();
    let value = block_on(until(&mut scope, async {
        spawn(&spawner, async move { sx.send(7).unwrap() }).unwrap();
        rx.await.unwrap()
    }));
    assert_eq!(value, 7);
}

#[test]
fn until_stalled_polls_what_spawned_futures_spawn() {
    let b = Cell::new(0);
    let c = Cell::new(0);
    let mut scope = LocalSpawnScope::<()>::new();
    let spawner = scope.spawner();
    let inner = scope.spawner();
    let (b, c) = (&b, &c);
    spawn(&spawner, async move {
        spawn(&inner, async move { b.set(1) }).unwrap();
        spawn(&inner, async move { c.set(1) }).unwrap();
        pending::<()>().await
    })
    .unwrap();
    block_on(until_stalled(&mut scope));
    assert_eq!((b.get(), c.get()), (1, 1));
}

/// Wakes itself whenever it is polled, and never finishes.
struct Restless;

impl Future for Restless {
    type Output = ();

    fn poll(self: Pin<&mut Self>, cx: &mut Context<'_>) -> Poll<()> {
        cx.waker().wake_by_ref();
        Poll::Pending
    }
}

#[test]
fn every_future_has_its_turn_beside_restless_ones() {
    let polled = Cell::new(0);
    let mut scope = LocalSpawnScope::<()>::new();
    let spawner = scope.spawner();
    for _ in 0..3 {
        spawn(&spawner, Restless).unwrap();
    }
    for _ in 0..4 {
        spawn(&spawner, async {
            polled.set(polled.get() + 1);
            pending().await
        })
        .unwrap();
    }
    assert_eq!(block_on(until(&mut scope, async { polled.get() })), 4);
    assert!(scope.has_had_round());

    for _ in 0..4 {
        spawn(&spawner, async {
            polled.set(polled.get() + 1);
            pending().await
        })
        .unwrap();
    }
    block_on(until_stalled(&mut scope));
    assert_eq!(polled.get(), 8);
}

#[test]
fn a_spawn_wakes_the_task_that_waits() {
    let (sx, rx) = oneshot::channel();
    let mut scope = LocalSpawnScope::new();
    let spawner = scope.spawner();
    let task = Arc::new(Counted(AtomicUsize::new(0)));
    let waker = waker(task.clone());
    let mut cx = Context::from_waker(&waker);
    let mut waiting = until(&mut scope, rx);
    assert!(waiting.poll_unpin(&mut cx).is_pending());
    assert_eq!(task.0.load(SeqCst), 0);
    spawn(&spawner, async move { sx.send(5).unwrap() }).unwrap();
    assert_eq!(task.0.load(SeqCst), 1);
    assert_eq!(waiting.poll_unpin(&mut cx), Poll::Ready(Ok(5)));
    assert!(waiting.0.is_done());
}

#[test]
fn a_closed_scope_drops_what_was_not_taken_in() {
    let counter = Rc::new(());
    let mut scope: LocalSpawnScope<'_> = LocalSpawnScope::default();
    let spawner = scope.spawner().clone();
    let held = counter.clone();
    spawn(&spawner, async move {
        let _held = held;
    })
    .unwrap();
    assert_eq!(2, Rc::strong_count(&counter));
    scope.close();
    assert_eq!(1, Rc::strong_count(&counter));
    assert!(spawn(&spawner, async {}).is_err());
}

#[test]
fn a_spawner_outlives_its_scope() {
    let mut scope = LocalSpawnScope::<u32>::new();
    let spawner = scope.spawner();
    scope.close();
    drop(scope);
    assert!(spawn(&spawner, async { 1 }).is_err());
}

#[test]
fn until_polls_the_scope_before_the_awaited_future() {
    let counter = RefCell::new(0);
    let mut scope = LocalSpawnScope::new();
    let spawner = scope.spawner();
    for _ in 0..10 {
        spawn(&spawner, async { *counter.borrow_mut() += 1 }).unwrap();
    }
    spawn(&spawner, pending()).unwrap();
    let seen = block_on(until(&mut scope, async { *counter.borrow() }));
    assert_eq!(seen, 10);
}

#[test]
fn until_stalled_returns_when_nothing_moves() {
    let counter = RefCell::new(0);
    let (sx, rx) = oneshot::channel();
    let mut scope = LocalSpawnScope::new();
    spawn(&scope.spawner(), async {
        *counter.borrow_mut() += 1;
        rx.await.unwrap();
        *counter.borrow_mut() += 1;
    })
    .unwrap();
    assert_eq!(*counter.borrow(), 0);
    block_on(until_stalled(&mut scope));
    assert_eq!(*counter.borrow(), 1);
    sx.send(()).unwrap();
    block_on(until_stalled(&mut scope));
    assert_eq!(*counter.borrow(), 2);
}

#[test]
fn a_scope_is_stalled_one_turn_after_nothing_has_finished() {
    let mut scope = LocalSpawnScope::new();
    let spawner = scope.spawner();
    spawn(&spawner, async { 1 }).unwrap();
    spawn(&spawner, async { 2 }).unwrap();
    spawn(&spawner, pending()).unwrap();
    let mut until = scope.until_stalled();
    assert_eq!(until.poll(2), None);
    assert!(!until.polled_once);
    assert_eq!(until.poll(1), None);
    assert!(until.polled_once);
    spawn(&spawner, async { 3 }).unwrap();
    assert_eq!(until.poll(1), None);
    assert!(!until.polled_once);
    assert_eq!(until.poll(1), None);
    assert!(until.polled_once);
    assert_eq!(until.poll(1), Some(Progress::Ready(())));
    until.note(Progress::Ready(Some(())));
    assert!(!until.is_stalled(false));
    until.note(Progress::Pending);
    assert!(until.is_stalled(false));
    assert!(!until.is_stalled(true));
    assert_eq!(scope.results(), &[1, 2, 3]);
}

#[test]
fn polling_goes_on_where_the_turns_ran_out() {
    let mut scope = LocalSpawnScope::new();
    let spawner = scope.spawner();
    let inner = scope.spawner();
    spawn(&spawner, async move {
        spawn(&inner, async { 2 }).unwrap();
        1
    })
    .unwrap();
    let waker = futures::task::noop_waker();
    let mut cx = Context::from_waker(&waker);
    let mut until = scope.until_empty();
    assert_eq!(until.poll(&mut cx, 0), None);
    assert_eq!(until.poll(&mut cx, 1), None);
    assert_eq!(until.poll(&mut cx, 1), None);
    assert_eq!(until.poll(&mut cx, 1), Some(Progress::Ready(())));
    assert_eq!(scope.results(), &[1, 2]);
}

#[test]
fn the_pad_keeps_order_and_wakes_once() {
    let mut pad: IncomingPad<u8, char> = IncomingPad::new();
    assert_eq!(pad.push(1), None);

    let mut incoming: Incoming<u8, char> = Incoming::open();
    incoming.register('a');
    incoming.register('b');
    assert_eq!(incoming.spawn(1).ok(), Some(Some('b')));
    assert_eq!(incoming.spawn(2).ok(), Some(None));
    assert_eq!(incoming.drain(), vec![1, 2]);
    assert_eq!(incoming.drain(), Vec::<u8>::new());
    incoming.register('c');
    assert_eq!(incoming.drain(), Vec::<u8>::new());
    assert_eq!(incoming.spawn(3).ok(), Some(None));
    incoming.close();
    assert!(incoming.status().is_err());
    assert!(incoming.spawn(4).is_err());
    incoming.register('d');
    assert_eq!(incoming.drain(), Vec::<u8>::new());
    assert!(Incoming::<u8, char>::closed().status().is_err());
    assert!(Incoming::<u8, char>::open().status().is_ok());
}

#[test]
fn a_taken_in_future_waits_for_its_outcome_to_be_settled() {
    let waker = futures::task::noop_waker();
    let mut incoming = Incoming::open();
    let mut scope = LocalSpawnScope::<u32>::new();
    let mut until = scope.until_empty();
    assert_eq!(
        until.settle(Progress::Pending, &mut incoming, waker.clone()),
        Some(Progress::Pending)
    );
    let future = LocalFutureObj::new(Box::new(async { 7 }));
    assert!(matches!(incoming.spawn(future), Ok(Some(_))));
    assert_eq!(until.settle(Progress::Ready(()), &mut incoming, waker.clone()), None);
    assert_eq!(
        until.settle(Progress::Ready(()), &mut incoming, waker.clone()),
        Some(Progress::Ready(()))
    );
    let mut cx = Context::from_waker(&waker);
    assert_eq!(until.poll_taken_in(&mut cx), Progress::Ready(()));
    assert_eq!(scope.results(), &[7]);

    let mut outer = scope.until(LocalFutureObj::new(Box::new(async { 'x' })));
    assert_eq!(outer.settle(&mut incoming, waker.clone()), Some(Progress::Pending));
    let future = LocalFutureObj::new(Box::new(async { 8 }));
    assert!(matches!(incoming.spawn(future), Ok(Some(_))));
    assert_eq!(outer.settle(&mut incoming, waker.clone()), None);
    assert_eq!(outer.poll(&mut cx, 1), None);
    assert!(!outer.is_done());
    assert_eq!(outer.poll(&mut cx, 1), Some(Progress::Ready('x')));
    assert!(outer.is_done());
    assert_eq!(scope.results(), &[7, 8]);
    scope.cancel_on(&mut incoming);
    assert!(incoming.status().is_err());
}

#[test]
fn the_outcome_of_a_poll_is_noted_and_answered() {
    let mut scope = LocalSpawnScope::new();
    assert_eq!(scope.note(Progress::Ready(Some(5))), Progress::Ready(Some(())));
    assert_eq!(scope.note(Progress::Ready(None)), Progress::Ready(None));
    assert_eq!(scope.note(Progress::Pending), Progress::Pending);
    assert_eq!(scope.results(), &[5]);

    assert_eq!(UntilEmpty::<u32>::answer(Progress::Ready(Some(()))), None);
    assert_eq!(UntilEmpty::<u32>::answer(Progress::Ready(None)), Some(Progress::Ready(())));
    assert_eq!(UntilEmpty::<u32>::answer(Progress::Pending), Some(Progress::Pending));
}

#[test]
fn holders_find_what_the_others_have_left() {
    let shared = Rc::new(SharedIncoming::new());
    let mut one: PadHolder<u8, ()> = PadHolder::new(shared.clone());
    let mut other: PadHolder<u8, ()> = PadHolder::new(one.share());
    assert!(matches!(one.spawn(1), Ok(None)));
    assert!(other.status().is_ok());
    let mut incoming = other.find();
    assert_eq!(incoming.drain(), vec![1]);
    incoming.register(futures::task::noop_waker());
    other.leave(incoming);
    assert!(matches!(one.spawn(2), Ok(Some(_))));
    assert!(matches!(one.spawn(3), Ok(None)));
    assert_eq!(other.find().drain(), vec![2, 3]);
    assert_eq!(other.find().drain(), Vec::<u8>::new());
    other.leave(Incoming::closed());
    assert!(one.status().is_err());
    assert!(matches!(one.spawn(4), Err(error) if error.is_shutdown()));
    assert!(one.find().into_pad().is_none());
}

#[test]
fn a_pad_in_use_is_handed_on() {
    let mut pad: IncomingPad<u8, char> = IncomingPad::new();
    assert_eq!(pad.push(1), None);
    let mut incoming = Incoming::over(pad);
    assert_eq!(incoming.spawn(2).ok(), Some(None));
    assert_eq!(incoming.into_pad().unwrap().drain(), vec![1, 2]);
    assert!(Incoming::<u8, char>::closed().into_pad().is_none());
}

use std::future::{pending, Future};
use std::hint::black_box;
use std::pin::Pin;
use std::sync::atomic::{AtomicBool, AtomicUsize};
use std::sync::atomic::Ordering::{Relaxed, SeqCst};
use std::sync::{Arc, Condvar, Mutex, MutexGuard, PoisonError};
use std::task::{Context, Poll, Waker};

use futures::channel::{mpsc, oneshot};
use futures::executor::{block_on, LocalPool, LocalSpawner, ThreadPool, ThreadPoolBuilder};
use futures::future::BoxFuture;
use futures::task::{FutureObj, LocalSpawnExt, Spawn, SpawnError, SpawnExt};
use futures::{FutureExt, SinkExt, StreamExt};
use futures_scopes::local::LocalScope;
use futures_scopes::relay::relay_pad::FuturePollingGuard;
use futures_scopes::relay::{RelayAction, RelayScope, SpawnManager, StopOutcome, UntilEmpty};
use futures_scopes::task::Progress;
use futures_scopes::{ScopedSpawn, SpawnScope};

type Task = FutureObj<'static, ()>;

/// A scope behind a lock.
struct Locked {
    core: Mutex<RelayScope<Task, Waker>>,
    reported: Condvar,
}

impl Locked {
    fn lock(&self) -> MutexGuard<'_, RelayScope<Task, Waker>> {
        self.core.lock().unwrap_or_else(PoisonError::into_inner)
    }
}

/// A place to run relay tasks.
trait Host: Clone + Sized + Unpin + 'static {
    fn run(&self, task: RelayTask<Self>) -> Result<(), SpawnError>;
}

#[derive(Clone)]
struct Global<Sp>(Sp);

impl<Sp: Spawn + Clone + Send + Unpin + 'static> Host for Global<Sp> {
    fn run(&self, task: RelayTask<Self>) -> Result<(), SpawnError> {
        self.0.spawn(task)
    }
}

#[derive(Clone)]
struct Local(LocalSpawner);

impl Host for Local {
    fn run(&self, task: RelayTask<Self>) -> Result<(), SpawnError> {
        self.0.spawn_local(task)
    }
}

struct RelayTask<H: Host> {
    shared: Arc<Locked>,
    slot: usize,
    manager: Arc<Mutex<SpawnManager>>,
    host: H,
}

impl<H: Host> RelayTask<H> {
    fn respawn(&self, slot: Option<usize>) {
        if let Some(slot) = slot {
            let task = RelayTask {
                shared: self.shared.clone(),
                slot,
                manager: self.manager.clone(),
                host: self.host.clone(),
            };
            let _ = self.host.run(task);
        }
    }

    fn report<T>(
        &self,
        step: impl FnOnce(&mut RelayScope<Task, Waker>, &mut SpawnManager) -> T,
    ) -> T {
        let result = {
            let mut core = self.shared.lock();
            let mut manager = self.manager.lock().unwrap_or_else(PoisonError::into_inner);
            step(&mut core, &mut manager)
        };
        self.shared.reported.notify_all();
        result
    }
}

/// A future that is out to be polled. If polling it unwinds, that is reported.
struct Polled<'t, H: Host> {
    task: &'t RelayTask<H>,
    guard: Option<FuturePollingGuard>,
    future: Option<Task>,
}

impl<'t, H: Host> Drop for Polled<'t, H> {
    fn drop(&mut self) {
        if let Some(guard) = self.guard.take() {
            let slot = self.task.slot;
            let respawned = match self.future.take() {
                Some(future) => self.task.report(|core, manager| {
                    core.relay_panicked(slot, manager, guard, future)
                }),
                None => self.task.report(|core, manager| {
                    core.relay_finished(slot, manager, guard, 0).respawned
                }),
            };
            self.task.respawn(respawned);
        }
    }
}

impl<H: Host> Future for RelayTask<H> {
    type Output = ();

    fn poll(self: Pin<&mut Self>, cx: &mut Context<'_>) -> Poll<()> {
        let this: &RelayTask<H> = self.get_mut();
        let slot = this.slot;
        let mut finished_tasks: usize = 0;
        loop {
            let waker = cx.waker().clone();
            let action = this.report(|core, manager| {
                assert!(core.can_poll(slot, manager));
                core.poll_relay(slot, manager, waker)
            });
            let (future, guard, respawned) = match action {
                RelayAction::Return(Progress::Ready(())) => return Poll::Ready(()),
                RelayAction::Return(Progress::Pending) => return Poll::Pending,
                RelayAction::Poll { future, guard, respawned } => (future, guard, respawned),
            };
            this.respawn(respawned);
            let mut polled = Polled { task: this, guard: Some(guard), future: Some(future) };
            match polled.future.as_mut().unwrap().poll_unpin(cx) {
                Poll::Ready(()) => {
                    polled.future = None;
                    let guard = polled.guard.take().unwrap();
                    let verdict = this.report(|core, manager| {
                        assert!(core.current_tasks() > 0);
                        core.relay_finished(slot, manager, guard, finished_tasks)
                    });
                    this.respawn(verdict.respawned);
                    if verdict.done {
                        return Poll::Ready(());
                    }
                    finished_tasks += 1;
                }
                Poll::Pending => {
                    let guard = polled.guard.take().unwrap();
                    let future = polled.future.take().unwrap();
                    let respawned = this.report(|core, manager| {
                        core.relay_unfinished(slot, manager, guard, future)
                    });
                    this.respawn(respawned);
                    return Poll::Pending;
                }
            }
        }
    }
}

impl<H: Host> Drop for RelayTask<H> {
    fn drop(&mut self) {
        let slot = self.slot;
        let dropped = self.report(|core, manager| core.drop_relay(slot, manager));
        drop(dropped);
    }
}

struct AwaitEmpty(UntilEmpty);

impl Future for AwaitEmpty {
    type Output = ();

    fn poll(self: Pin<&mut Self>, cx: &mut Context<'_>) -> Poll<()> {
        match self.get_mut().0.poll(cx) {
            Progress::Ready(()) => Poll::Ready(()),
            Progress::Pending => Poll::Pending,
        }
    }
}

/// A scope for futures that live as long as they like.
struct Scope {
    shared: Arc<Locked>,
}

impl Scope {
    fn new() -> Self {
        let core = Mutex::new(RelayScope::new());
        Scope { shared: Arc::new(Locked { core, reported: Condvar::new() }) }
    }

    fn on<H: Host>(host: H) -> Self {
        let scope = Scope::new();
        scope.relay(host).unwrap();
        scope
    }

    fn relay<H: Host>(&self, host: H) -> Result<(), SpawnError> {
        let (slot, manager) = {
            let mut core = self.shared.lock();
            assert!(core.can_relay());
            core.relay_to()?
        };
        let task = RelayTask {
            shared: self.shared.clone(),
            slot,
            manager: Arc::new(Mutex::new(manager)),
            host: host.clone(),
        };
        host.run(task)
    }

    fn until_empty(&self) -> AwaitEmpty {
        AwaitEmpty(self.shared.lock().until_empty())
    }

    fn stop(&self) {
        let mut core = self.shared.lock();
        loop {
            let StopOutcome { dropped, woken } = core.stop();
            match woken {
                Some(woken) => {
                    drop(core);
                    drop(dropped);
                    for waker in woken {
                        waker.wake();
                    }
                    return;
                }
                None if dropped.is_empty() => {
                    core = self.shared.reported.wait(core).unwrap_or_else(PoisonError::into_inner);
                }
                None => {
                    drop(core);
                    drop(dropped);
                    core = self.shared.lock();
                }
            }
        }
    }
}

impl Drop for Scope {
    fn drop(&mut self) {
        self.stop();
    }
}

impl SpawnScope<'static, ()> for Scope {
    type Spawner = Spawner;

    fn spawner(&self) -> Spawner {
        Spawner { shared: self.shared.clone() }
    }
}

#[derive(Clone)]
struct Spawner {
    shared: Arc<Locked>,
}

impl Spawner {
    fn spawn_scoped(&self, future: impl Future<Output = ()> + Send + 'static) -> Result<(), SpawnError> {
        self.spawn_obj_scoped(FutureObj::new(Box::new(future)))
    }
}

impl ScopedSpawn<'static, ()> for Spawner {
    fn spawn_obj_scoped(&self, future: Task) -> Result<(), SpawnError> {
        self.status_scoped()?;
        let woken = self.shared.lock().spawn_obj_scoped(future)?;
        for waker in woken {
            waker.wake();
        }
        Ok(())
    }

    fn status_scoped(&self) -> Result<(), SpawnError> {
        self.shared.lock().status_scoped()
    }
}

impl Spawn for Spawner {
    fn spawn_obj(&self, future: Task) -> Result<(), SpawnError> {
        self.spawn_obj_scoped(future)
    }

    fn status(&self) -> Result<(), SpawnError> {
        self.status_scoped()
    }
}

#[test]
fn mod_test_mutate_outer() {
    let called = Arc::new(AtomicBool::new(false));
    {
        let scope = Scope::new();

        let pool = ThreadPool::new().unwrap();
        scope.relay(Global(pool)).unwrap();

        let inner_called = called.clone();
        scope
            .spawner()
            .spawn_scoped(async move {
                inner_called.store(true, SeqCst);
            })
            .unwrap();

        block_on(scope.until_empty());
    }
    assert!(called.load(SeqCst));
}

#[test]
fn mod_test_drop_without_spawner() {
    let counter = Arc::new(());
    {
        let scope = Scope::new();

        for _ in 0..50 {
            let counter = counter.clone();
            scope
                .spawner()
                .spawn_scoped(async move {
                    let _counter = counter;
                    pending::<()>().await;
                })
                .unwrap();
        }
    }
    assert_eq!(1, Arc::strong_count(&counter));
}

#[test]
fn test_futures_are_dropped() {
    let mut pool = LocalPool::new();
    let counter = Arc::new(());
    {
        let scope = Scope::on(Local(pool.spawner()));

        for _ in 0..50 {
            let counter = counter.clone();
            scope
                .spawner()
                .spawn_scoped(async move {
                    let _counter = counter;
                    pending::<()>().await;
                })
                .unwrap();
        }
        pool.run_until_stalled();

        let counter = counter.clone();
        scope
            .spawner()
            .spawn_scoped(async move {
                let _counter = counter;
            })
            .unwrap();
    }
    assert_eq!(1, Arc::strong_count(&counter));
}

#[test]
fn test_spawner_status() {
    let spawner = {
        let scope = Scope::new();
        let spawner = scope.spawner();
        spawner.status().unwrap();
        spawner.status_scoped().unwrap();
        spawner
    };
    spawner.status().unwrap_err();
    spawner.status_scoped().unwrap_err();
}

#[test]
fn test_panic_in_spawned() {
    let counter = Arc::new(());
    let pool = ThreadPool::new().unwrap();
    let scope = Scope::on(Global(pool));

    let inner_counter = counter.clone();
    scope
        .spawner()
        .spawn_scoped(async {
            let _counter = inner_counter;
            panic!("test panic in spawned scoped future");
        })
        .unwrap();

    block_on(scope.until_empty());

    assert_eq!(1, Arc::strong_count(&counter), "inner_counter should have been dropped");
}

#[test]
fn test_can_continue_after_panic() {
    let called = Arc::new(AtomicBool::new(false));
    {
        let scope = Scope::new();

        let pool = ThreadPoolBuilder::new().pool_size(2).create().unwrap();
        scope.relay(Global(pool)).unwrap();

        scope
            .spawner()
            .spawn_scoped(async {
                panic!("test panic in spawned scoped future");
            })
            .unwrap();

        let inner_called = called.clone();
        scope
            .spawner()
            .spawn_scoped(async move {
                inner_called.store(true, SeqCst);
            })
            .unwrap();

        block_on(scope.until_empty());
    }

    assert!(called.load(SeqCst));
}

#[test]
fn test_spawn_with_handle() {
    let scope = Scope::new();
    let pool = ThreadPoolBuilder::new().pool_size(2).create().unwrap();
    scope.relay(Global(pool)).unwrap();

    let handle = scope.spawner().spawn_with_handle(async { 42 }).unwrap();
    assert_eq!(block_on(handle), 42);
}

#[test]
fn test_on_local_pool() {
    let called = Arc::new(Mutex::new(0));
    {
        let mut pool = LocalPool::new();
        let scope = Scope::on(Local(pool.spawner()));

        for _ in 0..50 {
            let called = called.clone();
            scope
                .spawner()
                .spawn_scoped(async move {
                    *called.lock().unwrap() += 1;
                })
                .unwrap();
        }

        pool.run_until(scope.until_empty());
    }

    assert_eq!(*called.lock().unwrap(), 50);
}

#[test]
fn test_pool_drop() {
    let called = Arc::new(Mutex::new(0));
    {
        let scope = Scope::new();

        let (sx, rx) = oneshot::channel::<()>();

        let inner_called = called.clone();
        scope
            .spawner()
            .spawn_scoped(async move {
                *inner_called.lock().unwrap() += 1;
                let _ = rx.await;
                *inner_called.lock().unwrap() += 1;
            })
            .unwrap();

        {
            assert_eq!(*called.lock().unwrap(), 0);
            let mut pool = LocalPool::new();
            scope.relay(Local(pool.spawner())).unwrap();
            let did_run_one = pool.try_run_one();
            assert!(did_run_one);
            assert_eq!(*called.lock().unwrap(), 1);

            sx.send(()).unwrap();
        }

        {
            let mut pool = LocalPool::new();
            scope.relay(Local(pool.spawner())).unwrap();
            pool.run_until(scope.until_empty());
            assert_eq!(*called.lock().unwrap(), 2);
        }
    }
}

fn build_task_chain(
    scope: &Scope,
    prev: oneshot::Receiver<usize>,
    n: usize,
) -> oneshot::Receiver<usize> {
    if n == 0 {
        prev
    } else {
        let (sx, rx) = oneshot::channel();
        let spawn = || {
            scope
                .spawner()
                .spawn_scoped(async move {
                    let prev = prev.await.unwrap();
                    sx.send(prev + 1).unwrap();
                })
                .unwrap();
        };

        // Scrumble up the order of the tasks
        if n % 2 == 0 {
            let rx = build_task_chain(scope, rx, n - 1);
            spawn();
            rx
        } else {
            spawn();
            build_task_chain(scope, rx, n - 1)
        }
    }
}

#[test]
fn test_waiting() {
    const N: usize = 100;

    let scope = Scope::new();
    let (sx, rx) = oneshot::channel();
    let rx = build_task_chain(&scope, rx, N);

    let mut pool = LocalPool::new();
    scope.relay(Local(pool.spawner())).unwrap();

    pool.run_until(async move {
        sx.send(0).unwrap();
        assert_eq!(rx.await.unwrap(), N);
    });
}

#[test]
fn test_scope_in_scope() {
    let pool = ThreadPool::new().unwrap();
    let outer_scope = Scope::on(Global(pool));

    let (sx, mut rx) = mpsc::channel(1);

    let outer_spawner = outer_scope.spawner();
    outer_scope
        .spawner()
        .spawn_scoped(async move {
            let inner_scope = Scope::new();
            inner_scope.relay(Global(outer_spawner)).unwrap();

            for i in 0..1000 {
                let mut sx = sx.clone();
                inner_scope
                    .spawner()
                    .spawn_scoped(async move {
                        if i == 100 {
                            sx.send(()).await.unwrap();
                        }
                    })
                    .unwrap();
            }

            rx.next().await;
        })
        .unwrap();

    block_on(outer_scope.until_empty());
}

#[test]
fn test_scope_in_scope2() {
    fn inner(outer: &Scope) {
        let scope = Scope::on(Global(outer.spawner()));
        scope.relay(Global(outer.spawner())).unwrap();
    }

    {
        let scope = Scope::new();
        inner(&scope);
    }

    fn inner_local(outer: &LocalScope<'static>) {
        let scope = Scope::new();
        scope.relay(OnLocalScope(outer.spawner())).unwrap();
        scope.relay(OnLocalScope(outer.spawner())).unwrap();
    }

    inner_local(&LocalScope::new());
}

struct OnLocalScope(futures_scopes::local::LocalSpawnScopeSpawner<'static, ()>);

impl Clone for OnLocalScope {
    fn clone(&self) -> Self {
        OnLocalScope(self.0.clone())
    }
}

impl Host for OnLocalScope {
    fn run(&self, task: RelayTask<Self>) -> Result<(), SpawnError> {
        self.0.spawn_scoped_local_obj(futures::task::LocalFutureObj::new(Box::new(task)))
    }
}

// An async example function that has access to some kind of spawner
async fn example(spawn: &(impl Spawn + Clone + Send + Unpin + 'static)) {
    let counter = Arc::new(AtomicUsize::new(0));

    let scope = Scope::new();
    scope.relay(Global(spawn.clone())).unwrap();

    let spawner = scope.spawner();

    for i in 1..=100 {
        let counter = counter.clone();
        let fut = async move {
            for _ in 0..100 {
                counter.fetch_add(i, Relaxed);
            }
        };

        // spawn the future on the scope
        spawner.spawn_scoped(fut).unwrap();
    }

    // Wait until all futures have been processed.
    scope.until_empty().await;

    println!("Counter: {}", counter.load(SeqCst));
    assert_eq!(counter.load(SeqCst), 505000);
}

#[test]
fn test_example() {
    let pool = ThreadPool::new().unwrap();
    block_on(example(&pool));
}

async fn func(spawner: Spawner, depth: usize) {
    let (sx1, rx1) = oneshot::channel::<()>();
    let (sx2, mut rx2) = mpsc::channel::<()>(1000);
    let rx1 = rx1.shared();
    const N: usize = 20;
    for i in 0..N {
        let rx1 = rx1.clone();
        let mut sx2 = sx2.clone();
        let inner_spawner = spawner.clone();
        spawner
            .spawn_scoped(async move {
                rx1.await.unwrap();

                // The outer scope may be stopped while this future is running. There is then nobody
                // to relay to, and this future is dropped as soon as it has to wait.
                let inner_scope = Scope::new();
                if let Err(error) = inner_scope.relay(Global(inner_spawner.clone())) {
                    assert!(error.is_shutdown());
                    assert!(inner_spawner.status_scoped().is_err());
                }

                if depth > 0 {
                    let fut = call_func(inner_scope.spawner(), depth - 1);

                    if i % 4 > 0 {
                        fut.await;
                    }
                }
                if i % 5 == 0 {
                    for _ in 0..10000 {
                        black_box(());
                    }
                }
                if i % 2 == 0 {
                    sx2.send(()).await.ok();
                }
            })
            .unwrap();
    }

    sx1.send(()).ok();

    for _ in 0..N / 2 {
        rx2.next().await.unwrap();
    }
}

fn call_func(spawner: Spawner, depth: usize) -> BoxFuture<'static, ()> {
    Box::pin(func(spawner, depth))
}

#[test]
fn test_relay_fuzzy() {
    let pool = ThreadPool::new().unwrap();
    let scope = Scope::on(Global(pool));

    scope.spawner().spawn(func(scope.spawner(), 3)).unwrap();

    block_on(scope.until_empty());
}

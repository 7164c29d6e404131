use std::future::Future;
use std::sync::atomic::{AtomicU64, AtomicUsize, Ordering};
use std::sync::Arc;
use std::task::{Context, Wake, Waker};

use futures::executor::block_on;
use futures::future::{ready, Ready};
use futures::task::noop_waker_ref;

use tokio_resource_pool::machine::Async;
use tokio_resource_pool::pool::{Awaited, Dependencies, Progress, Returned, Stake, Step, Waiting};
use tokio_resource_pool::resource::Idle;
use tokio_resource_pool::time::{Duration, Instant};
use tokio_resource_pool::{Builder, CheckOut, Manage, Pool, Status};

const SECOND: u128 = 1_000_000_000;

/// The clocks of the tests, in seconds. A test that advances its clock has it to itself.
static NOW: [AtomicU64; 5] = [
    AtomicU64::new(1_000),
    AtomicU64::new(1_000),
    AtomicU64::new(1_000),
    AtomicU64::new(1_000),
    AtomicU64::new(1_000),
];

/// The clock that nobody advances.
const STILL: usize = 0;

struct TestDependencies<const CLOCK: usize>;

impl<const CLOCK: usize> Dependencies for TestDependencies<CLOCK> {
    fn now() -> Instant {
        Instant::from_nanos(NOW[CLOCK].load(Ordering::SeqCst) as u128 * SECOND)
    }
}

fn advance<const CLOCK: usize>(secs: u64) {
    NOW[CLOCK].fetch_add(secs, Ordering::SeqCst);
}

struct Resource {
    id: usize,
    recycle_count: usize,
}

struct TestManager<const CLOCK: usize> {
    counter: AtomicUsize,
}

impl<const CLOCK: usize> TestManager<CLOCK> {
    pub fn new() -> Self {
        Self { counter: AtomicUsize::new(0) }
    }
}

impl<const CLOCK: usize> Manage for TestManager<CLOCK> {
    type Resource = Resource;

    type Dependencies = TestDependencies<CLOCK>;

    type CheckOut = CheckOut<Self>;

    type Error = ();

    type CreateFuture = Ready<Result<Self::Resource, Self::Error>>;

    fn create(&self) -> Self::CreateFuture {
        let resource = Resource { id: self.counter.fetch_add(1, Ordering::SeqCst), recycle_count: 0 };
        ready(Ok(resource))
    }

    fn status(&self, _resource: &Self::Resource) -> Status {
        Status::Valid
    }

    type RecycleFuture = Ready<Result<Option<Self::Resource>, Self::Error>>;

    fn recycle(&self, mut resource: Self::Resource) -> Self::RecycleFuture {
        resource.recycle_count += 1;
        ready(Ok(Some(resource)))
    }
}

/// A manager that does as it is told.
struct Moody<const CLOCK: usize> {
    create: Result<u32, &'static str>,
    status: Status,
    recycle: Result<Option<u32>, &'static str>,
}

impl<const CLOCK: usize> Manage for Moody<CLOCK> {
    type Resource = u32;

    type Dependencies = TestDependencies<CLOCK>;

    type CheckOut = CheckOut<Self>;

    type Error = &'static str;

    type CreateFuture = Ready<Result<u32, &'static str>>;

    fn create(&self) -> Self::CreateFuture {
        ready(self.create)
    }

    fn status(&self, _resource: &u32) -> Status {
        self.status
    }

    type RecycleFuture = Ready<Result<Option<u32>, &'static str>>;

    fn recycle(&self, _resource: u32) -> Self::RecycleFuture {
        ready(self.recycle)
    }
}

fn moody<const CLOCK: usize>() -> Moody<CLOCK> {
    Moody { create: Ok(7), status: Status::Valid, recycle: Ok(Some(8)) }
}

/// Takes a check-out as far as it goes without being woken.
fn try_poll<M: Manage>(
    pool: &mut Pool<M>,
    progress: Progress<M>,
    context: &mut Context<'_>,
) -> Result<Result<CheckOut<M>, Waiting>, M::Error> {
    let mut progress = progress;
    loop {
        match pool.check_out(progress, context)? {
            Step::Wait(waiting) => return Ok(Err(waiting)),
            Step::Create(future) => progress = Progress::Created(block_on(future)),
            Step::Recycle(future) => progress = Progress::Recycled(block_on(future)),
            Step::Done(check_out) => return Ok(Ok(check_out)),
        }
    }
}

fn context() -> Context<'static> {
    Context::from_waker(noop_waker_ref())
}

/// A check-out that does not have to wait.
fn check_out<M: Manage>(pool: &mut Pool<M>) -> Result<CheckOut<M>, M::Error> {
    match try_poll(pool, Progress::Start, &mut context())? {
        Ok(check_out) => Ok(check_out),
        Err(_) => panic!("has to wait"),
    }
}

/// Returns a resource that goes back on the shelf.
fn give_back<M: Manage>(pool: &mut Pool<M>, check_out: CheckOut<M>) {
    assert!(matches!(check_out.give_back(&mut pool.shared), Returned::Shelved));
}

/// A check-out that has to wait.
fn wait<M: Manage>(pool: &mut Pool<M>) -> Waiting
where
    M::Error: std::fmt::Debug,
{
    match try_poll(pool, Progress::Start, &mut context()).unwrap() {
        Ok(_) => panic!("does not have to wait"),
        Err(waiting) => waiting,
    }
}

struct Wakes(AtomicUsize);

impl Wake for Wakes {
    fn wake(self: Arc<Self>) {
        self.0.fetch_add(1, Ordering::SeqCst);
    }
}

#[test]
fn check_out_one_resource() {
    let builder = Builder::new();
    let mut pool = builder.build(4, TestManager::<STILL>::new());

    let check_out = check_out(&mut pool).unwrap();
    assert_eq!(check_out.deref().id, 0);
}

#[test]
fn check_out_all_resources() {
    let builder = Builder::new();
    let mut pool = builder.build(4, TestManager::<STILL>::new());

    let check_out_0 = check_out(&mut pool).unwrap();
    let check_out_1 = check_out(&mut pool).unwrap();
    let check_out_2 = check_out(&mut pool).unwrap();
    let check_out_3 = check_out(&mut pool).unwrap();

    assert_eq!(check_out_0.deref().id, 0);
    assert_eq!(check_out_1.deref().id, 1);
    assert_eq!(check_out_2.deref().id, 2);
    assert_eq!(check_out_3.deref().id, 3);
}

#[test]
fn check_out_more_resources() {
    let builder = Builder::new();
    let mut pool = builder.build(4, TestManager::<STILL>::new());

    let check_out_0 = check_out(&mut pool).unwrap();
    let _check_out_1 = check_out(&mut pool).unwrap();
    let _check_out_2 = check_out(&mut pool).unwrap();
    let _check_out_3 = check_out(&mut pool).unwrap();

    let polled = try_poll(&mut pool, Progress::Start, &mut context()).unwrap();
    assert!(polled.is_err());
    let waiting = polled.err().unwrap();
    give_back(&mut pool, check_out_0);
    assert!(try_poll(&mut pool, Progress::Woken(waiting), &mut context()).unwrap().is_ok());
}

#[test]
fn recycle_resource() {
    let builder = Builder::new();
    let mut pool = builder.build(4, TestManager::<1>::new());

    for _ in 0..2u32 {
        let resource = check_out(&mut pool).unwrap();
        assert_eq!(0, resource.deref().id);
        assert_eq!(0, resource.deref().recycle_count);
        give_back(&mut pool, resource);
    }

    advance::<1>(60);

    for _ in 0..2u32 {
        let resource = check_out(&mut pool).unwrap();
        assert_eq!(0, resource.deref().id);
        assert_eq!(1, resource.deref().recycle_count);
        give_back(&mut pool, resource);
    }
}

#[test]
fn waiting_task_is_woken_by_a_return() {
    let wakes = Arc::new(Wakes(AtomicUsize::new(0)));
    let waker = Waker::from(wakes.clone());
    let mut pool = Builder::new().build(1, TestManager::<STILL>::new());

    let held = check_out(&mut pool).unwrap();
    let polled = try_poll(&mut pool, Progress::Start, &mut Context::from_waker(&waker)).unwrap();
    let waiting = polled.err().unwrap();
    assert_eq!(wakes.0.load(Ordering::SeqCst), 0);

    // Polled too early, it goes on waiting.
    let polled =
        try_poll(&mut pool, Progress::Woken(waiting), &mut Context::from_waker(&waker)).unwrap();
    let waiting = polled.err().unwrap();

    give_back(&mut pool, held);
    assert_eq!(wakes.0.load(Ordering::SeqCst), 1);
    let polled =
        try_poll(&mut pool, Progress::Woken(waiting), &mut Context::from_waker(&waker)).unwrap();
    assert_eq!(polled.ok().unwrap().deref().id, 0);
}

#[test]
fn waiters_are_served_in_turn() {
    let mut pool = Builder::new().build(1, TestManager::<STILL>::new());

    let held = check_out(&mut pool).unwrap();
    let first = wait(&mut pool);
    let second = wait(&mut pool);
    give_back(&mut pool, held);

    // The resource is set aside for the first waiter: nobody else gets it.
    let third = wait(&mut pool);
    let second =
        try_poll(&mut pool, Progress::Woken(second), &mut context()).unwrap().err().unwrap();
    let held = try_poll(&mut pool, Progress::Woken(first), &mut context()).unwrap().ok().unwrap();
    give_back(&mut pool, held);
    let held = try_poll(&mut pool, Progress::Woken(second), &mut context()).unwrap().ok().unwrap();
    give_back(&mut pool, held);
    assert!(try_poll(&mut pool, Progress::Woken(third), &mut context()).unwrap().is_ok());
}

#[test]
fn start_does_not_overtake() {
    let mut pool = Builder::new().build(2, TestManager::<STILL>::new());

    let a = check_out(&mut pool).unwrap();
    let b = check_out(&mut pool).unwrap();
    let first = wait(&mut pool);
    let second = wait(&mut pool);
    give_back(&mut pool, a);
    let third = wait(&mut pool);
    give_back(&mut pool, b);
    let fourth = wait(&mut pool);

    let second = try_poll(&mut pool, Progress::Woken(second), &mut context()).unwrap().ok();
    assert_eq!(second.unwrap().deref().id, 0);
    let first = try_poll(&mut pool, Progress::Woken(first), &mut context()).unwrap().ok();
    assert_eq!(first.unwrap().deref().id, 1);
    assert!(try_poll(&mut pool, Progress::Woken(third), &mut context()).unwrap().is_err());
    assert!(try_poll(&mut pool, Progress::Woken(fourth), &mut context()).unwrap().is_err());
}

#[test]
fn resources_leave_in_the_order_in_which_they_came() {
    let mut pool = Builder::new().build(3, TestManager::<STILL>::new());

    let a = check_out(&mut pool).unwrap();
    let b = check_out(&mut pool).unwrap();
    let c = check_out(&mut pool).unwrap();
    give_back(&mut pool, b);
    give_back(&mut pool, c);
    give_back(&mut pool, a);

    assert_eq!(check_out(&mut pool).unwrap().deref().id, 1);
    assert_eq!(check_out(&mut pool).unwrap().deref().id, 2);
    assert_eq!(check_out(&mut pool).unwrap().deref().id, 0);
}

#[test]
fn shelf_is_used_over_and_over() {
    let mut pool = Builder::new().build(2, TestManager::<STILL>::new());

    for _ in 0..10u32 {
        let a = check_out(&mut pool).unwrap();
        let b = check_out(&mut pool).unwrap();
        assert_eq!(a.deref().id + b.deref().id, 1);
        give_back(&mut pool, a);
        give_back(&mut pool, b);
    }
}

#[test]
fn invalid_resource_is_replaced() {
    let mut pool = Builder::new().build(1, Moody { status: Status::Invalid, ..moody::<STILL>() });

    let held = check_out(&mut pool).unwrap();
    assert!(matches!(
        held.give_back(&mut pool.shared),
        Returned::Discarded(Idle { resource: 7, .. })
    ));
    match pool.check_out(Progress::Start, &mut context()) {
        Ok(Step::Create(_)) => {}
        _ => panic!("creates a new resource"),
    }
}

#[test]
fn failed_creation_frees_the_place() {
    let mut pool = Builder::new().build(1, Moody { create: Err("no"), ..moody::<STILL>() });

    for _ in 0..3u32 {
        assert_eq!(check_out(&mut pool).err(), Some("no"));
    }
}

#[test]
fn failed_recycling_frees_the_place() {
    let mut pool = Builder::new().build(1, Moody { recycle: Err("worn"), ..moody::<2>() });

    let held = check_out(&mut pool).unwrap();
    give_back(&mut pool, held);
    advance::<2>(31);
    assert_eq!(check_out(&mut pool).err(), Some("worn"));
    assert_eq!(*check_out(&mut pool).unwrap().deref(), 7);
}

#[test]
fn broken_resource_is_discarded_and_replaced() {
    let mut pool = Builder::new().build(1, Moody { recycle: Ok(None), ..moody::<3>() });

    let held = check_out(&mut pool).unwrap();
    give_back(&mut pool, held);
    advance::<3>(31);
    match pool.check_out(Progress::Start, &mut context()) {
        Ok(Step::Recycle(future)) => {
            match pool.check_out(Progress::Recycled(block_on(future)), &mut context()) {
                Ok(Step::Create(_)) => {}
                _ => panic!("creates a new resource"),
            }
        }
        _ => panic!("recycles the resource"),
    }
}

#[test]
fn recycled_resource_is_fresh() {
    let mut pool = Builder::new().build(1, moody::<4>());

    let held = check_out(&mut pool).unwrap();
    give_back(&mut pool, held);
    advance::<4>(31);
    let held = check_out(&mut pool).unwrap();
    assert_eq!(*held.deref(), 8);
    assert_eq!(held.recycled_at, TestDependencies::<4>::now());
}

#[test]
fn stale_after_more_than_the_interval() {
    let pool = Builder::new()
        .recycle_interval(Duration::from_nanos(5))
        .build(1, moody::<STILL>());
    let idle = Idle::new(3, Instant::from_nanos(10));

    assert!(!pool.shared.is_stale_at(&idle, Instant::from_nanos(9)));
    assert!(!pool.shared.is_stale_at(&idle, Instant::from_nanos(10)));
    assert!(!pool.shared.is_stale_at(&idle, Instant::from_nanos(15)));
    assert!(pool.shared.is_stale_at(&idle, Instant::from_nanos(16)));
    assert!(pool.shared.is_stale(&idle));
    assert!(!pool.shared.is_stale(&Idle::new(3, TestDependencies::<STILL>::now())));

    let never = Builder::new()
        .recycle_interval(Duration::from_nanos(u128::MAX))
        .build(1, moody::<STILL>());
    assert!(!never.shared.is_stale_at(&idle, Instant::from_nanos(u128::MAX)));
}

#[test]
fn stale_resource_is_handed_to_the_manager() {
    let mut pool = Builder::new().build(1, TestManager::<STILL>::new());

    let held = check_out(&mut pool).unwrap();
    let idle = Idle::new(Resource { id: 5, recycle_count: 2 }, held.recycled_at);
    let recycled = block_on(pool.shared.recycle(idle)).unwrap().unwrap();
    assert_eq!(recycled.id, 5);
    assert_eq!(recycled.recycle_count, 3);
}

#[test]
fn cancelled_wait_loses_nothing() {
    let mut pool = Builder::new().build(1, TestManager::<STILL>::new());

    let held = check_out(&mut pool).unwrap();
    let first = wait(&mut pool);
    give_back(&mut pool, held);
    // The resource is set aside for the check-out that is given up.
    pool.shared.cancel_wait(first);
    let held = check_out(&mut pool).unwrap();
    assert_eq!(held.deref().id, 0);

    let second = wait(&mut pool);
    pool.shared.cancel_wait(second);
    give_back(&mut pool, held);
    assert_eq!(check_out(&mut pool).unwrap().deref().id, 0);
}

#[test]
fn abandoned_check_out_leaves_no_trace() {
    let mut pool = Builder::new().build(1, TestManager::<STILL>::new());
    Stake::Nothing.abandon(&mut pool.shared);

    // Given up while its resource is being created.
    for _ in 0..3u32 {
        let step = pool.check_out(Stake::Nothing.polled(), &mut context()).unwrap();
        let (stake, awaited) = step.part();
        assert!(matches!(stake, Stake::Place));
        assert!(matches!(awaited, Awaited::Create(_)));
        stake.abandon(&mut pool.shared);
    }

    // Given up while it waits, with another behind it.
    let held = check_out(&mut pool).unwrap();
    let step = pool.check_out(Progress::Start, &mut context()).unwrap();
    let (first, awaited) = step.part();
    assert!(matches!(first, Stake::Wait(_)));
    assert!(matches!(awaited, Awaited::Wake));
    let second = Stake::Wait(wait(&mut pool));
    give_back(&mut pool, held);
    first.abandon(&mut pool.shared);
    let step = pool.check_out(second.polled(), &mut context()).unwrap();
    match step.part() {
        (Stake::Nothing, Awaited::Done(held)) => assert_eq!(held.deref().id, 3),
        _ => panic!("gets the resource"),
    }
}

#[test]
fn check_out_abandoned_in_recycling_frees_the_place() {
    let mut pool = Builder::new()
        .recycle_interval(Duration::from_nanos(5))
        .build(1, moody::<STILL>());

    let held = check_out(&mut pool).unwrap();
    let later = Instant::from_nanos(held.recycled_at.nanos + 6);
    give_back(&mut pool, held);
    let step = pool.check_out_at(Progress::Start, later, &mut context()).unwrap();
    let (stake, awaited) = step.part();
    assert!(matches!(stake, Stake::Place));
    assert!(matches!(awaited, Awaited::Recycle(_)));
    stake.abandon(&mut pool.shared);
    assert_eq!(*check_out(&mut pool).unwrap().deref(), 7);
    wait(&mut pool);
}

#[test]
fn served_on_both_sides_takes_one() {
    let mut pool = Builder::new().build(2, TestManager::<STILL>::new());

    let a = check_out(&mut pool).unwrap();
    let _b = check_out(&mut pool).unwrap();
    let waiting = wait(&mut pool);
    give_back(&mut pool, a);
    pool.shared.notify_of_lost_resource();
    let c = try_poll(&mut pool, Progress::Woken(waiting), &mut context()).unwrap().ok().unwrap();
    assert_eq!(c.deref().id, 0);
    // The room that was set aside as well is there for the next check-out.
    assert_eq!(check_out(&mut pool).unwrap().deref().id, 2);
    wait(&mut pool);
}

#[test]
fn full_shelf_takes_no_more() {
    let mut pool = Builder::new().build(1, moody::<STILL>());

    let idle = Idle::new(1, TestDependencies::<STILL>::now());
    let held = check_out(&mut pool).unwrap();
    give_back(&mut pool, held);
    let returned = pool.shared.put_back(idle, Status::Valid);
    assert!(matches!(returned, Returned::Overflow(Idle { resource: 1, .. })));
}

#[test]
fn lent_resource_comes_back() {
    let mut pool = Builder::new().build(1, moody::<STILL>());

    let mut held = check_out(&mut pool).unwrap();
    *held.deref_mut() += 1;
    let recycled_at = held.recycled_at;
    let mut lent = held.lend(|resource: u32| ready(Ok::<(u32, &str), ()>((resource * 2, "done"))));
    let output = block_on(lent.inner());
    match lent.poll(Async::NotReady) {
        Async::NotReady => {}
        Async::Ready(_) => panic!("has not come back"),
    }
    match lent.poll(Async::Ready(output)) {
        Async::Ready(Ok((held, t))) => {
            assert_eq!(*held.deref(), 16);
            assert_eq!(held.recycled_at, recycled_at);
            assert_eq!(t, "done");
            lent.end(&mut pool.shared);
            wait(&mut pool);
            give_back(&mut pool, held);
        }
        _ => panic!("has come back"),
    }
}

#[test]
fn lent_resource_is_lost_by_an_error() {
    let mut pool = Builder::new().build(1, moody::<STILL>());

    let held = check_out(&mut pool).unwrap();
    let mut lent = held.lend(|_: u32| ready(Err::<(u32, ()), &str>("gone")));
    let output = block_on(lent.inner());
    match lent.poll(Async::Ready(output)) {
        Async::Ready(Err(error)) => assert_eq!(error, "gone"),
        _ => panic!("is lost"),
    }
    lent.end(&mut pool.shared);
    lent.end(&mut pool.shared);
    let _held = check_out(&mut pool).unwrap();
    wait(&mut pool);
}

#[test]
fn lent_resource_is_lost_by_giving_up() {
    let mut pool = Builder::new().build(1, moody::<STILL>());

    let held = check_out(&mut pool).unwrap();
    let waiting = wait(&mut pool);
    let mut lent = held.lend(|resource: u32| ready(Ok::<(u32, ()), ()>((resource, ()))));
    lent.end(&mut pool.shared);
    let polled = try_poll(&mut pool, Progress::Woken(waiting), &mut context()).unwrap();
    assert_eq!(*polled.ok().unwrap().deref(), 7);
}

#[test]
fn builder_settings() {
    let pool = Builder::default().build(4, moody::<STILL>());
    assert_eq!(pool.capacity(), 4);
    assert_eq!(pool.recycle_interval(), Duration::from_secs(30));
    assert_eq!(pool.recycle_interval().nanos, 30_000_000_000);

    let pool = Builder::new()
        .recycle_interval(Duration::from_secs(1))
        .recycle_interval(Duration::from_secs(2))
        .build(9, moody::<STILL>());
    assert_eq!(pool.capacity(), 9);
    assert_eq!(pool.recycle_interval(), Duration::from_secs(2));
}

#[test]
fn create_future_is_the_managers() {
    let mut pool = Builder::new().build(1, moody::<STILL>());
    match pool.check_out(Progress::Start, &mut context()) {
        Ok(Step::Create(future)) => {
            let future: Box<dyn Future<Output = Result<u32, &'static str>>> = Box::new(future);
            assert_eq!(block_on(Box::into_pin(future)), Ok(7));
        }
        _ => panic!("creates a resource"),
    }
}

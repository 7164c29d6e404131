use std::task::Context;

use futures::task::noop_waker_ref;
use tokio_sync::semaphore::Semaphore;

use tokio_resource_pool::machine::Async;
use tokio_resource_pool::resource::Idle;
use tokio_resource_pool::semaphore::WaitOnSemaphore;
use tokio_resource_pool::shelf::Shelf;
use tokio_resource_pool::time::{Duration, Instant};

fn idle(resource: u32) -> Idle<u32> {
    Idle::new(resource, Instant::from_nanos(resource as u128))
}

fn context() -> Context<'static> {
    Context::from_waker(noop_waker_ref())
}

#[test]
fn shelf_holds_no_more_than_its_capacity() {
    let mut shelf = Shelf::new(2);
    assert_eq!(shelf.len(), 0);
    assert!(shelf.pop().is_none());
    assert!(shelf.push(idle(1)).is_ok());
    assert!(shelf.push(idle(2)).is_ok());
    assert_eq!(shelf.push(idle(3)).err().unwrap().resource, 3);
    assert_eq!(shelf.push(idle(4)).err().unwrap().resource, 4);
    assert_eq!(shelf.len(), 2);
    let first = shelf.pop().unwrap();
    assert_eq!(first.resource, 1);
    assert_eq!(first.recycled_at().nanos, 1);
    assert!(shelf.push(idle(5)).is_ok());
    assert_eq!(shelf.pop().unwrap().into_resource(), 2);
    assert_eq!(shelf.pop().unwrap().into_resource(), 5);
    assert_eq!(shelf.len(), 0);
}

#[test]
fn wait_for_a_permit() {
    let mut semaphore = Semaphore::new(1);

    let mut first = WaitOnSemaphore::new();
    match first.poll(&mut context(), &mut semaphore) {
        Async::Ready(permit) => assert!(permit.is_acquired()),
        Async::NotReady => panic!("there is a permit"),
    }
    assert_eq!(semaphore.available_permits(), 0);

    let mut second = WaitOnSemaphore::new();
    assert!(matches!(second.poll(&mut context(), &mut semaphore), Async::NotReady));
    assert!(matches!(second.poll(&mut context(), &mut semaphore), Async::NotReady));
    semaphore.add_permits(1);
    assert_eq!(semaphore.available_permits(), 0);
    second.cancel(&mut semaphore);
    assert_eq!(semaphore.available_permits(), 1);
    second.cancel(&mut semaphore);
    assert_eq!(semaphore.available_permits(), 1);

    let mut third = WaitOnSemaphore::new();
    third.cancel(&mut semaphore);
    assert_eq!(semaphore.available_permits(), 1);
}

#[test]
fn spans_of_time() {
    assert_eq!(Duration::from_secs(2), Duration::from_nanos(2_000_000_000));
    assert_eq!(Duration::from_secs(u64::MAX).nanos, 18_446_744_073_709_551_615_000_000_000);
    let start = Instant::from_nanos(100);
    assert!(!Instant::from_nanos(150).is_past(start, Duration::from_nanos(50)));
    assert!(Instant::from_nanos(151).is_past(start, Duration::from_nanos(50)));
    assert!(!Instant::from_nanos(0).is_past(start, Duration::from_nanos(0)));
}

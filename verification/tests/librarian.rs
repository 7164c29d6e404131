use std::task::Context;

use futures::channel::mpsc::channel;
use futures::future::{ready, Ready};
use futures::task::noop_waker_ref;

use tokio_resource_pool::inbox::Inbox;
use tokio_resource_pool::librarian::Turnover;
use tokio_resource_pool::machine::Async;
use tokio_resource_pool::pool::Dependencies;
use tokio_resource_pool::resource::Idle;
use tokio_resource_pool::shared::Shared;
use tokio_resource_pool::time::Instant;
use tokio_resource_pool::{Librarian, Manage, Status};

struct Midnight;

impl Dependencies for Midnight {
    fn now() -> Instant {
        Instant::from_nanos(0)
    }
}

struct Numbers;

impl Manage for Numbers {
    type Resource = u32;

    type Dependencies = Midnight;

    type CheckOut = u32;

    type Error = ();

    type CreateFuture = Ready<Result<u32, ()>>;

    fn create(&self) -> Self::CreateFuture {
        ready(Ok(1))
    }

    fn status(&self, _resource: &u32) -> Status {
        Status::Valid
    }

    type RecycleFuture = Ready<Result<Option<u32>, ()>>;

    fn recycle(&self, resource: u32) -> Self::RecycleFuture {
        ready(Ok(Some(resource)))
    }
}

fn idle(resource: u32) -> Idle<u32> {
    Idle::new(resource, Midnight::now())
}

fn context() -> Context<'static> {
    Context::from_waker(noop_waker_ref())
}

#[test]
fn shelves_what_comes_in() {
    let (mut sender, receiver) = channel(8);
    let mut librarian = Librarian::new(Shared::new(3, Numbers), receiver);
    assert_eq!(librarian.pool.capacity, 3);
    assert_eq!(librarian.pool.created_count, 0);

    assert!(matches!(librarian.poll(&mut context()), Ok(Async::NotReady)));
    sender.try_send(idle(4)).unwrap();
    sender.try_send(idle(5)).unwrap();
    assert!(matches!(librarian.poll(&mut context()), Ok(Async::NotReady)));
    assert_eq!(librarian.pool.shelf.len(), 2);
    assert_eq!(librarian.pool.checked_out_count.available_permits(), 2);

    sender.try_send(idle(6)).unwrap();
    drop(sender);
    assert!(matches!(librarian.poll(&mut context()), Ok(Async::Ready(()))));
    assert_eq!(librarian.pool.shelf.pop().unwrap().into_resource(), 4);
    assert_eq!(librarian.pool.shelf.pop().unwrap().into_resource(), 5);
    assert_eq!(librarian.pool.shelf.pop().unwrap().into_resource(), 6);
    assert!(librarian.pool.shelf.pop().is_none());
}

#[test]
fn hands_back_what_the_shelf_cannot_hold() {
    let (mut sender, receiver) = channel(8);
    let mut librarian = Librarian::new(Shared::new(1, Numbers), receiver);

    sender.try_send(idle(4)).unwrap();
    sender.try_send(idle(5)).unwrap();
    match librarian.poll(&mut context()) {
        Err(idle) => assert_eq!(idle.into_resource(), 5),
        Ok(_) => panic!("the shelf is full"),
    }
    assert_eq!(librarian.pool.checked_out_count.available_permits(), 1);
}

#[test]
fn turns_over_one_at_a_time() {
    let (_sender, receiver) = channel(1);
    let mut librarian = Librarian::new(Shared::new(1, Numbers), receiver);

    let turnover = librarian.receive(Async::NotReady);
    assert!(matches!(turnover, Turnover::Return(Async::NotReady)));
    let turnover = librarian.receive(Async::Ready(None));
    assert!(matches!(turnover, Turnover::Return(Async::Ready(()))));
    assert!(matches!(librarian.receive(Async::Ready(Some(idle(1)))), Turnover::Continue));
    match librarian.receive(Async::Ready(Some(idle(2)))) {
        Turnover::Overflow(idle) => assert_eq!(idle.resource, 2),
        _ => panic!("the shelf is full"),
    }
}

#[test]
fn exits_with_the_last_sender() {
    let (mut sender, receiver) = channel(8);
    let mut other = sender.clone();
    let mut librarian = Librarian::new(Shared::new(2, Numbers), receiver);

    sender.try_send(idle(4)).unwrap();
    drop(sender);
    assert!(matches!(librarian.poll(&mut context()), Ok(Async::NotReady)));
    other.try_send(idle(5)).unwrap();
    drop(other);
    assert!(matches!(librarian.poll(&mut context()), Ok(Async::Ready(()))));
    assert!(matches!(librarian.poll(&mut context()), Ok(Async::Ready(()))));
    assert_eq!(librarian.pool.shelf.len(), 2);
}

#[test]
fn inbox_hands_on_what_comes() {
    let (mut sender, receiver) = channel(8);
    let mut inbox = Inbox::new(receiver);

    assert!(matches!(inbox.poll(&mut context()), Async::NotReady));
    sender.try_send(idle(4)).unwrap();
    assert!(matches!(inbox.poll(&mut context()), Async::Ready(Some(Idle { resource: 4, .. }))));
    drop(sender);
    assert!(matches!(inbox.poll(&mut context()), Async::Ready(None)));
}

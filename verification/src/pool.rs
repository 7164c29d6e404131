//! The pool: which resource goes to whom, and what becomes of it afterwards.
use std::future::Future;
use std::marker::PhantomData;
use std::task::Context;

use tokio_sync::semaphore::{Permit, Semaphore};
use vstd::prelude::*;

use crate::machine::Async;
use crate::resource::{Idle, Manage, Status};
use crate::semaphore::{
    add_permits, law_add_permit, law_pass, law_poll, law_release, lemma_add_one, semaphore_state,
    try_acquire, PermitState, SemaphoreState, WaitOnSemaphore,
};
use crate::shelf::{Shelf, MAX_CAPACITY};
use crate::time::{Duration, Instant};

verus! {

/// What a pool needs from its surroundings.
pub trait Dependencies {
    fn now() -> Instant;
}

/// A resource that was checked out of a pool, with the time at which it was last created or
/// recycled.
pub struct CheckOut<M>
where
    M: Manage,
{
    pub resource: M::Resource,
    pub recycled_at: Instant,
}

/// What became of a resource that came back.
pub enum Returned<R>
where
    R: Send,
{
    /// It is on the shelf.
    Shelved,
    /// It cannot be used again, and the pool has no use for it.
    Discarded(Idle<R>),
    /// It could be used again, but the shelf has no room for it.
    Overflow(Idle<R>),
}

/// The wait of one check-out for whatever comes first: a resource on the shelf, or the room to
/// create one.
pub struct Waiting {
    pub shelf_size: WaitOnSemaphore,
    pub shelf_free_space: WaitOnSemaphore,
}

/// How far a check-out has come, and what has happened since.
pub enum Progress<M>
where
    M: Manage,
{
    /// It has not begun.
    Start,
    /// It waits, and was woken.
    Woken(Waiting),
    /// [`Step::Create`] has come to its end.
    Created(Result<M::Resource, M::Error>),
    /// [`Step::Recycle`] has come to its end.
    Recycled(Result<Option<M::Resource>, M::Error>),
}

/// What a check-out has to do next.
pub enum Step<M>
where
    M: Manage,
{
    /// Wait to be woken.
    Wait(Waiting),
    /// Await a new resource.
    Create(M::CreateFuture),
    /// Await a resource that is being recycled.
    Recycle(M::RecycleFuture),
    /// Hand out the resource.
    Done(CheckOut<M>),
}

/// What a check-out has of a pool while it is on its way. It must not take that with it when it is
/// given up.
pub enum Stake {
    Nothing,
    /// A wait has begun.
    Wait(Waiting),
    /// A place is taken, for a resource that is being created or recycled.
    Place,
}

/// What a check-out on its way has to await.
pub enum Awaited<M>
where
    M: Manage,
{
    /// Being woken.
    Wake,
    /// A new resource.
    Create(M::CreateFuture),
    /// A resource that is being recycled.
    Recycle(M::RecycleFuture),
    /// Nothing more: here is the resource.
    Done(CheckOut<M>),
}

/// The state of a pool.
#[verifier::ext_equal]
pub struct PoolState<M>
where
    M: Manage,
{
    pub capacity: nat,
    pub shelf: Seq<Idle<M::Resource>>,
    pub shelf_size: SemaphoreState,
    pub shelf_free_space: SemaphoreState,
    pub recycle_interval: Duration,
    pub manager: M,
}

impl Waiting {
    /// The wait has begun at both semaphores of the pool and is not over.
    pub open spec fn waits_for<M: Manage>(self, pool: PoolState<M>) -> bool {
        &&& self.shelf_size.waits_at(pool.shelf_size)
        &&& self.shelf_free_space.waits_at(pool.shelf_free_space)
    }
}

impl<M> Progress<M>
where
    M: Manage,
{
    /// The check-out has a place in the pool, for a resource that it has or that is on its way.
    pub open spec fn holds_place(self) -> bool {
        self is Created || self is Recycled
    }

    /// The check-out can go on in `pool`.
    pub open spec fn fits(self, pool: PoolState<M>) -> bool {
        &&& self matches Progress::Woken(waiting) ==> waiting.waits_for(pool)
        &&& self.holds_place() ==> pool.checked_out() > 0
    }
}

impl Stake {
    /// The check-out has this of `pool`.
    pub open spec fn is_in<M: Manage>(self, pool: PoolState<M>) -> bool {
        match self {
            Stake::Nothing => true,
            Stake::Wait(waiting) => waiting.waits_for(pool),
            Stake::Place => pool.checked_out() > 0,
        }
    }
}

impl<M> PoolState<M>
where
    M: Manage,
{
    /// The number of resources that are checked out, or on their way to whoever checks them out.
    pub open spec fn checked_out(self) -> int {
        self.capacity - self.shelf_size.permits() - self.shelf_free_space.permits()
    }

    /// The pool keeps count: there is a permit for every resource on the shelf, and no more
    /// resources than there is room for can be around.
    pub open spec fn wf(self) -> bool {
        &&& 0 < self.capacity <= MAX_CAPACITY
        &&& self.shelf_size.permits() == self.shelf.len()
        &&& self.checked_out() >= 0
        &&& self.shelf_size.wf()
        &&& self.shelf_free_space.wf()
    }

    /// More time than the recycle interval has passed since the resource was last created or
    /// recycled.
    pub open spec fn is_stale(self, idle: Idle<M::Resource>, now: Instant) -> bool {
        now.nanos > idle.recycled_at.nanos + self.recycle_interval.nanos
    }

    /// The pool after a resource was lost: there is room for a new one.
    pub open spec fn lose(self) -> Self {
        PoolState { shelf_free_space: self.shelf_free_space.add_permit(), ..self }
    }

    /// The pool after a resource has come back. A valid one goes to the end of the shelf, if there
    /// is room; any other is lost.
    pub open spec fn put_back(self, idle: Idle<M::Resource>, status: Status) -> Self {
        if status is Valid && self.shelf.len() < self.capacity {
            PoolState {
                shelf: self.shelf.push(idle),
                shelf_size: self.shelf_size.add_permit(),
                ..self
            }
        } else {
            self.lose()
        }
    }

    /// The pool after a wait was ended. A place that was set aside for it goes to the next wait, or
    /// to anyone.
    pub open spec fn without(self, waiting: Waiting) -> Self {
        PoolState {
            shelf_size: self.shelf_size.release(waiting.shelf_size.permit()->0),
            shelf_free_space: self.shelf_free_space.release(waiting.shelf_free_space.permit()->0),
            ..self
        }
    }

    /// The pool after a check-out was given up that had `stake` of it.
    pub open spec fn abandoned(self, stake: Stake) -> Self {
        match stake {
            Stake::Nothing => self,
            Stake::Wait(waiting) => self.without(waiting),
            Stake::Place => self.lose(),
        }
    }

    /// A check-out that has just taken a permit for it takes the first resource off the shelf, and
    /// recycles it if it is stale.
    pub open spec fn pops(self, now: Instant, after: Self, step: Step<M>) -> bool {
        &&& self.shelf.len() > 0
        &&& after == (PoolState { shelf: self.shelf.drop_first(), ..self })
        &&& if self.is_stale(self.shelf.first(), now) {
            step matches Step::Recycle(future) && call_ensures(
                M::recycle,
                (&self.manager, self.shelf.first().resource),
                future,
            )
        } else {
            step == Step::Done(
                CheckOut::<M> {
                    resource: self.shelf.first().resource,
                    recycled_at: self.shelf.first().recycled_at,
                },
            )
        }
    }

    /// A check-out polls its two waits, of which `shelf_size` and `shelf_free_space` are the
    /// permits: the one for a resource on the shelf first, then the one for room to create a
    /// resource. Once one of them has got its permit, the other one ends.
    pub open spec fn waits(
        self,
        shelf_size: PermitState,
        shelf_free_space: PermitState,
        now: Instant,
        after: Self,
        step: Step<M>,
    ) -> bool {
        let polled = PoolState { shelf_size: self.shelf_size.poll(shelf_size), ..self };
        if self.shelf_size.grants(shelf_size) {
            (PoolState {
                shelf_free_space: self.shelf_free_space.release(shelf_free_space),
                ..polled
            }).pops(now, after, step)
        } else if self.shelf_free_space.grants(shelf_free_space) {
            &&& after == (PoolState {
                shelf_size: self.shelf_size.pass(shelf_size),
                shelf_free_space: self.shelf_free_space.poll(shelf_free_space),
                ..self
            })
            &&& step matches Step::Create(future) && call_ensures(
                M::create,
                (&self.manager,),
                future,
            )
        } else {
            &&& after == (PoolState {
                shelf_free_space: self.shelf_free_space.poll(shelf_free_space),
                ..polled
            })
            &&& step matches Step::Wait(waiting) && {
                &&& waiting.shelf_size.permit() == Some(self.shelf_size.polled(shelf_size))
                &&& waiting.shelf_free_space.permit() == Some(
                    self.shelf_free_space.polled(shelf_free_space),
                )
            }
        }
    }

    /// A check-out starts: it takes a resource off the shelf if there is one for anyone, and waits
    /// otherwise.
    pub open spec fn checks_out_once(self, now: Instant, after: Self, step: Step<M>) -> bool {
        if self.shelf_size.available > 0 {
            (PoolState { shelf_size: self.shelf_size.take_available(), ..self }).pops(
                now,
                after,
                step,
            )
        } else {
            self.waits(PermitState::Idle, PermitState::Idle, now, after, step)
        }
    }

    /// A check-out goes on. A resource that was created or recycled is handed out. One that could
    /// not be is lost, which ends the check-out if it was an error; if recycling has found the
    /// resource to be broken, the check-out starts again.
    pub open spec fn checks_out(
        self,
        progress: Progress<M>,
        now: Instant,
        after: Self,
        result: Result<Step<M>, M::Error>,
    ) -> bool {
        match progress {
            Progress::Start => result matches Ok(step) && self.checks_out_once(now, after, step),
            Progress::Woken(waiting) => result matches Ok(step) && self.waits(
                waiting.shelf_size.permit()->0,
                waiting.shelf_free_space.permit()->0,
                now,
                after,
                step,
            ),
            Progress::Created(Ok(resource)) | Progress::Recycled(Ok(Some(resource))) => {
                &&& after == self
                &&& result == Ok::<Step<M>, M::Error>(
                    Step::Done(CheckOut { resource, recycled_at: now }),
                )
            },
            Progress::Recycled(Ok(None)) => result matches Ok(step) && self.lose().checks_out_once(
                now,
                after,
                step,
            ),
            Progress::Created(Err(error)) | Progress::Recycled(Err(error)) => {
                &&& after == self.lose()
                &&& result == Err::<Step<M>, M::Error>(error)
            },
        }
    }
}

/// The shared state of the resource pool.
pub struct Shared<M>
where
    M: Manage,
{
    /// The total capacity of the pool. The number of resources that are checked out is
    /// `capacity - shelf_size - shelf_free_space`.
    capacity: usize,
    /// Resources are put back on the shelf when they are returned.
    shelf: Shelf<M::Resource>,
    /// The number of items on the shelf.
    shelf_size: Semaphore,
    /// The number of resources that can still be created.
    shelf_free_space: Semaphore,
    recycle_interval: Duration,
    manager: M,
}

impl<M> View for Shared<M>
where
    M: Manage,
{
    type V = PoolState<M>;

    closed spec fn view(&self) -> PoolState<M> {
        PoolState {
            capacity: self.capacity as nat,
            shelf: self.shelf@,
            shelf_size: semaphore_state(self.shelf_size),
            shelf_free_space: semaphore_state(self.shelf_free_space),
            recycle_interval: self.recycle_interval,
            manager: self.manager,
        }
    }
}

impl<M> Shared<M>
where
    M: Manage,
{
    /// The shelf is in order and has room for as many resources as the pool.
    pub closed spec fn shelf_wf(&self) -> bool {
        &&& self.shelf.wf()
        &&& self.shelf.capacity() == self.capacity
    }

    /// The shelf is in order and the pool keeps count.
    pub open spec fn wf(&self) -> bool {
        &&& self.shelf_wf()
        &&& self@.wf()
    }

    /// Makes room for a new resource in the place of one that was lost.
    pub fn notify_of_lost_resource(&mut self)
        requires
            old(self).wf(),
        ensures
            final(self)@ == old(self)@.lose(),
            old(self)@.checked_out() > 0 ==> final(self).wf(),
    {
        proof {
            lemma_add_one(self@.shelf_free_space);
            law_add_permit(self@.shelf_free_space);
        }
        add_permits(&mut self.shelf_free_space, 1);
    }

    /// Starts to recycle a resource.
    pub fn recycle(&self, resource: Idle<M::Resource>) -> (future: M::RecycleFuture)
        ensures
            call_ensures(M::recycle, (&self@.manager, resource.resource), future),
    {
        self.manager.recycle(resource.into_resource())
    }

    /// Whether a resource has to be recycled before it is handed out at the time `now`.
    pub fn is_stale_at(&self, idle_resource: &Idle<M::Resource>, now: Instant) -> (stale: bool)
        ensures
            stale == self@.is_stale(*idle_resource, now),
    {
        now.is_past(idle_resource.recycled_at(), self.recycle_interval)
    }

    /// Whether a resource has to be recycled before it is handed out now.
    pub fn is_stale(&self, idle_resource: &Idle<M::Resource>) -> (stale: bool)
        ensures
            exists|now: Instant|
                {
                    &&& #[trigger] call_ensures(<M::Dependencies as Dependencies>::now, (), now)
                    &&& stale == self@.is_stale(*idle_resource, now)
                },
    {
        let now = M::Dependencies::now();
        self.is_stale_at(idle_resource, now)
    }

    /// Takes back a resource of which it is known whether it can be used again. A valid one goes on
    /// the shelf, if there is room for it; any other is handed out again, to be dropped.
    pub fn put_back(&mut self, idle: Idle<M::Resource>, status: Status) -> (returned: Returned<
        M::Resource,
    >)
        requires
            old(self).wf(),
        ensures
            returned == if status is Invalid {
                Returned::Discarded(idle)
            } else if old(self)@.shelf.len() < old(self)@.capacity {
                Returned::Shelved
            } else {
                Returned::Overflow(idle)
            },
            final(self)@ == old(self)@.put_back(idle, status),
            old(self)@.checked_out() > 0 ==> final(self).wf(),
    {
        proof {
            lemma_add_one(self@.shelf_size);
            law_add_permit(self@.shelf_size);
            lemma_add_one(self@.shelf_free_space);
            law_add_permit(self@.shelf_free_space);
        }
        match status {
            Status::Valid => {
                match self.shelf.push(idle) {
                    Ok(_) => {
                        add_permits(&mut self.shelf_size, 1);
                        Returned::Shelved
                    },
                    Err(idle) => {
                        add_permits(&mut self.shelf_free_space, 1);
                        Returned::Overflow(idle)
                    },
                }
            },
            Status::Invalid => {
                self.notify_of_lost_resource();
                Returned::Discarded(idle)
            },
        }
    }

    /// Ends the wait of a check-out that is given up.
    pub fn cancel_wait(&mut self, waiting: Waiting)
        requires
            old(self).wf(),
            waiting.waits_for(old(self)@),
        ensures
            final(self).wf(),
            final(self)@ == old(self)@.without(waiting),
    {
        proof {
            law_release(self@.shelf_size, waiting.shelf_size.permit()->0);
            law_release(self@.shelf_free_space, waiting.shelf_free_space.permit()->0);
        }
        let mut waiting = waiting;
        waiting.shelf_size.cancel(&mut self.shelf_size);
        waiting.shelf_free_space.cancel(&mut self.shelf_free_space);
    }
}

impl<M> CheckOut<M>
where
    M: Manage,
{
    pub(crate) fn new(resource: M::Resource, recycled_at: Instant) -> (check_out: Self)
        ensures
            check_out.resource == resource,
            check_out.recycled_at == recycled_at,
    {
        Self { resource, recycled_at }
    }

    /// Lends the resource to an opaque asynchronous computation.
    ///
    /// Like in real life, it is usually a bad idea to lend things you don't own. If the
    /// subcomputation finishes with an error, the resource is lost. [`LentCheckOut::end`] takes
    /// care of notifying the pool of that so new resources can be created.
    ///
    /// This is necessary in situations where a resource is taken by value.
    pub fn lend<F, T, B, E>(self, borrower: B) -> (lent: LentCheckOut<M, F, T, E>)
    where
        B: FnOnce(M::Resource) -> F,
        F: Future<Output = Result<(M::Resource, T), E>>,

        requires
            borrower.requires((self.resource,)),
        ensures
            borrower.ensures((self.resource,), lent.future()),
            lent.recycled_at() == self.recycled_at,
            lent.is_lent(),
    {
        LentCheckOut {
            inner: borrower(self.resource),
            recycled_at: self.recycled_at,
            lent: true,
            managed: PhantomData,
        }
    }

    /// The resource.
    pub fn deref(&self) -> (resource: &M::Resource)
        ensures
            *resource == self.resource,
    {
        &self.resource
    }

    /// The resource, to be changed.
    pub fn deref_mut(&mut self) -> (resource: &mut M::Resource)
        ensures
            *resource == old(self).resource,
            final(self).resource == *final(resource),
            final(self).recycled_at == old(self).recycled_at,
    {
        &mut self.resource
    }

    /// The resource, which nobody uses any more.
    pub fn into_idle(self) -> (idle: Idle<M::Resource>)
        ensures
            idle.resource == self.resource,
            idle.recycled_at == self.recycled_at,
    {
        Idle::new(self.resource, self.recycled_at)
    }

    /// Returns the resource to the pool that it was checked out of, which keeps it if its manager
    /// finds it to be valid and the shelf has room for it.
    pub fn give_back(self, shared: &mut Shared<M>) -> (returned: Returned<M::Resource>)
        requires
            old(shared).wf(),
        ensures
            exists|status: Status|
                {
                    &&& #[trigger] call_ensures(
                        M::status,
                        (&old(shared)@.manager, &self.resource),
                        status,
                    )
                    &&& ({
                        let idle = Idle { resource: self.resource, recycled_at: self.recycled_at };
                        &&& final(shared)@ == old(shared)@.put_back(idle, status)
                        &&& returned == if status is Invalid {
                            Returned::Discarded(idle)
                        } else if old(shared)@.shelf.len() < old(shared)@.capacity {
                            Returned::Shelved
                        } else {
                            Returned::Overflow(idle)
                        }
                    })
                },
            old(shared)@.checked_out() > 0 ==> final(shared).wf(),
    {
        let status = shared.manager.status(&self.resource);
        shared.put_back(self.into_idle(), status)
    }
}

impl Stake {
    /// How far a check-out has come that does not have a place, when its task is polled: it starts,
    /// or goes on with its wait.
    pub fn polled<M: Manage>(self) -> (progress: Progress<M>)
        requires
            self !is Place,
        ensures
            progress == match self {
                Stake::Wait(waiting) => Progress::<M>::Woken(waiting),
                _ => Progress::Start,
            },
    {
        match self {
            Stake::Wait(waiting) => Progress::Woken(waiting),
            _ => Progress::Start,
        }
    }

    /// Gives up the check-out. Whatever it has of the pool is there for others again.
    pub fn abandon<M: Manage>(self, shared: &mut Shared<M>)
        requires
            old(shared).wf(),
            self.is_in(old(shared)@),
        ensures
            final(shared).wf(),
            final(shared)@ == old(shared)@.abandoned(self),
    {
        match self {
            Stake::Nothing => {},
            Stake::Wait(waiting) => shared.cancel_wait(waiting),
            Stake::Place => shared.notify_of_lost_resource(),
        }
    }
}

impl<M> Step<M>
where
    M: Manage,
{
    /// What the check-out has of the pool while it does what this step asks for.
    pub open spec fn stake(self) -> Stake {
        match self {
            Step::Wait(waiting) => Stake::Wait(waiting),
            Step::Create(_) | Step::Recycle(_) => Stake::Place,
            Step::Done(_) => Stake::Nothing,
        }
    }

    /// Parts what has to be awaited from what the check-out has of the pool meanwhile.
    pub fn part(self) -> (parts: (Stake, Awaited<M>))
        ensures
            parts.0 == self.stake(),
            parts.1 == match self {
                Step::Wait(_) => Awaited::Wake,
                Step::Create(future) => Awaited::Create(future),
                Step::Recycle(future) => Awaited::Recycle(future),
                Step::Done(check_out) => Awaited::Done(check_out),
            },
    {
        match self {
            Step::Wait(waiting) => (Stake::Wait(waiting), Awaited::Wake),
            Step::Create(future) => (Stake::Place, Awaited::Create(future)),
            Step::Recycle(future) => (Stake::Place, Awaited::Recycle(future)),
            Step::Done(check_out) => (Stake::Nothing, Awaited::Done(check_out)),
        }
    }
}

/// A resource that is lent to an opaque, asynchronous computation.
#[verifier::reject_recursive_types(T)]
#[verifier::reject_recursive_types(E)]
pub struct LentCheckOut<M, F, T, E>
where
    M: Manage,
    F: Future<Output = Result<(M::Resource, T), E>>,
{
    inner: F,
    recycled_at: Instant,
    lent: bool,
    managed: PhantomData<M>,
}

impl<M, F, T, E> LentCheckOut<M, F, T, E>
where
    M: Manage,
    F: Future<Output = Result<(M::Resource, T), E>>,
{
    /// The computation.
    pub closed spec fn future(&self) -> F {
        self.inner
    }

    /// The time at which the resource was last created or recycled.
    pub closed spec fn recycled_at(&self) -> Instant {
        self.recycled_at
    }

    /// The resource has not come back.
    pub closed spec fn is_lent(&self) -> bool {
        self.lent
    }

    /// The computation, to be polled.
    pub fn inner(&mut self) -> (inner: &mut F)
        ensures
            *inner == old(self).future(),
            final(self).future() == *final(inner),
            final(self).recycled_at() == old(self).recycled_at(),
            final(self).is_lent() == old(self).is_lent(),
    {
        &mut self.inner
    }

    /// Goes on with what a poll of the computation came to. A resource that the computation gives
    /// back is checked out again; an error leaves it lent.
    pub fn poll(&mut self, polled: Async<Result<(M::Resource, T), E>>) -> (result: Async<
        Result<(CheckOut<M>, T), E>,
    >)
        ensures
            match polled {
                Async::NotReady => result is NotReady,
                Async::Ready(Err(error)) => result == Async::Ready(
                    Err::<(CheckOut<M>, T), E>(error),
                ),
                Async::Ready(Ok((resource, t))) => result == Async::Ready(
                    Ok::<(CheckOut<M>, T), E>(
                        (CheckOut { resource, recycled_at: old(self).recycled_at() }, t),
                    ),
                ),
            },
            final(self).is_lent() == (old(self).is_lent() && !(polled matches Async::Ready(Ok(_)))),
            final(self).future() == old(self).future(),
            final(self).recycled_at() == old(self).recycled_at(),
    {
        match polled {
            Async::NotReady => Async::NotReady,
            Async::Ready(Err(error)) => Async::Ready(Err(error)),
            Async::Ready(Ok((resource, t))) => {
                self.lent = false;
                Async::Ready(Ok((CheckOut::new(resource, self.recycled_at), t)))
            },
        }
    }

    /// Ends the loan. If the resource has not come back by now, it is lost, and the pool is told.
    pub fn end(&mut self, shared: &mut Shared<M>)
        requires
            old(shared).wf(),
        ensures
            final(shared)@ == if old(self).is_lent() {
                old(shared)@.lose()
            } else {
                old(shared)@
            },
            !old(self).is_lent() || old(shared)@.checked_out() > 0 ==> final(shared).wf(),
            !final(self).is_lent(),
            final(self).future() == old(self).future(),
            final(self).recycled_at() == old(self).recycled_at(),
    {
        if self.lent {
            self.lent = false;
            shared.notify_of_lost_resource();
        }
    }
}

/// A pool of resources.
pub struct Pool<M>
where
    M: Manage,
{
    pub shared: Shared<M>,
}

impl<M> Pool<M>
where
    M: Manage,
{
    /// Takes a check-out one step further. What has to be done next, or the error that ends the
    /// check-out, is returned; the task of `context` is woken when a check-out that has to wait can
    /// go on.
    pub fn check_out(&mut self, progress: Progress<M>, context: &mut Context<'_>) -> (result: Result<
        Step<M>,
        M::Error,
    >)
        requires
            old(self).shared.wf(),
            progress.fits(old(self).shared@),
        ensures
            final(self).shared.wf(),
            exists|now: Instant|
                {
                    &&& #[trigger] call_ensures(<M::Dependencies as Dependencies>::now, (), now)
                    &&& old(self).shared@.checks_out(progress, now, final(self).shared@, result)
                },
    {
        let now = M::Dependencies::now();
        self.check_out_at(progress, now, context)
    }

    /// Takes a check-out one step further at the time `now`.
    pub fn check_out_at(
        &mut self,
        progress: Progress<M>,
        now: Instant,
        context: &mut Context<'_>,
    ) -> (result: Result<Step<M>, M::Error>)
        requires
            old(self).shared.wf(),
            progress.fits(old(self).shared@),
        ensures
            final(self).shared.wf(),
            old(self).shared@.checks_out(progress, now, final(self).shared@, result),
    {
        match progress {
            Progress::Start => Ok(self.check_out_once(now, context)),
            Progress::Woken(waiting) => Ok(self.wait_for_checkout(waiting, now, context)),
            Progress::Created(Ok(resource)) => Ok(Step::Done(CheckOut::new(resource, now))),
            Progress::Created(Err(error)) => {
                self.shared.notify_of_lost_resource();
                Err(error)
            },
            Progress::Recycled(recycled) => {
                match self.recycle(recycled, now) {
                    Ok(Some(check_out)) => Ok(Step::Done(check_out)),
                    Ok(None) => Ok(self.check_out_once(now, context)),
                    Err(error) => Err(error),
                }
            },
        }
    }

    /// The number of resources that can be around at the same time.
    pub fn capacity(&self) -> (capacity: usize)
        ensures
            capacity == self.shared@.capacity,
    {
        self.shared.capacity
    }

    /// The time after which a resource is recycled before it is handed out again.
    pub fn recycle_interval(&self) -> (recycle_interval: Duration)
        ensures
            recycle_interval == self.shared@.recycle_interval,
    {
        self.shared.recycle_interval
    }

    /// Takes a resource off the shelf if there is one for anyone, and waits otherwise.
    fn check_out_once(&mut self, now: Instant, context: &mut Context<'_>) -> (step: Step<M>)
        requires
            old(self).shared.wf(),
        ensures
            final(self).shared.wf(),
            old(self).shared@.checks_out_once(now, final(self).shared@, step),
    {
        let mut permit = Permit::new();
        match try_acquire(&mut permit, &mut self.shared.shelf_size) {
            Ok(()) => self.pop_resource(now),
            Err(_) => {
                let waiting = Waiting {
                    shelf_size: WaitOnSemaphore::new(),
                    shelf_free_space: WaitOnSemaphore::new(),
                };
                self.wait_for_checkout(waiting, now, context)
            },
        }
    }

    /// Takes whatever comes first: a resource on the shelf, or the room to create one.
    fn wait_for_checkout(
        &mut self,
        waiting: Waiting,
        now: Instant,
        context: &mut Context<'_>,
    ) -> (step: Step<M>)
        requires
            old(self).shared.wf(),
            waiting.shelf_size.permit() == Some(PermitState::Idle)
                && waiting.shelf_free_space.permit() == Some(PermitState::Idle)
                || waiting.waits_for(old(self).shared@),
        ensures
            final(self).shared.wf(),
            old(self).shared@.waits(
                waiting.shelf_size.permit()->0,
                waiting.shelf_free_space.permit()->0,
                now,
                final(self).shared@,
                step,
            ),
    {
        let mut waiting = waiting;
        proof {
            let shelf_size = waiting.shelf_size.permit()->0;
            let shelf_free_space = waiting.shelf_free_space.permit()->0;
            law_poll(self.shared@.shelf_size, shelf_size);
            law_poll(self.shared@.shelf_free_space, shelf_free_space);
            law_release(self.shared@.shelf_free_space, shelf_free_space);
            if !self.shared@.shelf_size.grants(shelf_size) {
                law_pass(self.shared@.shelf_size, shelf_size);
            }
        }
        match waiting.shelf_size.poll(context, &mut self.shared.shelf_size) {
            Async::Ready(mut permit) => {
                waiting.shelf_free_space.cancel(&mut self.shared.shelf_free_space);
                permit.forget();
                self.pop_resource(now)
            },
            Async::NotReady => {
                match waiting.shelf_free_space.poll(context, &mut self.shared.shelf_free_space) {
                    Async::Ready(mut permit) => {
                        waiting.shelf_size.cancel(&mut self.shared.shelf_size);
                        permit.forget();
                        Step::Create(self.shared.manager.create())
                    },
                    Async::NotReady => Step::Wait(waiting),
                }
            },
        }
    }

    /// Takes the first resource off the shelf. The permit for it was taken before.
    fn pop_resource(&mut self, now: Instant) -> (step: Step<M>)
        requires
            old(self).shared.shelf_wf(),
            old(self).shared@.shelf.len() > 0,
        ensures
            final(self).shared.shelf_wf(),
            old(self).shared@.pops(now, final(self).shared@, step),
    {
        let idle_resource = self.shared.shelf.pop().unwrap();
        if self.shared.is_stale_at(&idle_resource, now) {
            Step::Recycle(self.shared.recycle(idle_resource))
        } else {
            let recycled_at = idle_resource.recycled_at();
            Step::Done(CheckOut::new(idle_resource.into_resource(), recycled_at))
        }
    }

    /// Goes on with what recycling a resource came to.
    fn recycle(
        &mut self,
        recycled: Result<Option<M::Resource>, M::Error>,
        now: Instant,
    ) -> (result: Result<Option<CheckOut<M>>, M::Error>)
        requires
            old(self).shared.wf(),
            old(self).shared@.checked_out() > 0,
        ensures
            final(self).shared.wf(),
            final(self).shared@ == if recycled matches Ok(Some(_)) {
                old(self).shared@
            } else {
                old(self).shared@.lose()
            },
            result == match recycled {
                Ok(Some(resource)) => Ok::<_, M::Error>(Some(CheckOut::<M> { resource, recycled_at: now })),
                Ok(None) => Ok(None),
                Err(error) => Err(error),
            },
    {
        match recycled {
            Ok(Some(resource)) => Ok(Some(CheckOut::new(resource, now))),
            Ok(None) => {
                self.shared.notify_of_lost_resource();
                Ok(None)
            },
            Err(error) => {
                self.shared.notify_of_lost_resource();
                Err(error)
            },
        }
    }
}

/// Sets up a pool.
pub struct Builder {
    pub recycle_interval: Duration,
}

impl Builder {
    /// A builder of pools that recycle a resource once it is more than half a minute since it was
    /// created or last recycled.
    pub fn new() -> (builder: Self)
        ensures
            builder.recycle_interval.nanos == 30 * 1_000_000_000,
    {
        Self { recycle_interval: Duration::from_secs(30) }
    }

    /// Sets the time after which a resource is recycled before it is handed out again.
    pub fn recycle_interval(self, recycle_interval: Duration) -> (builder: Self)
        ensures
            builder.recycle_interval == recycle_interval,
    {
        let mut builder = self;
        builder.recycle_interval = recycle_interval;
        builder
    }

    /// Builds a pool with an empty shelf that has room to create as many resources as `capacity`
    /// says.
    pub fn build<M>(self, capacity: usize, manager: M) -> (pool: Pool<M>)
    where
        M: Manage,

        requires
            0 < capacity <= MAX_CAPACITY,
        ensures
            pool.shared.wf(),
            pool.shared@.capacity == capacity,
            pool.shared@.shelf == Seq::<Idle<M::Resource>>::empty(),
            pool.shared@.shelf_size.available == 0,
            pool.shared@.shelf_size.assigned.is_empty(),
            pool.shared@.shelf_size.queue.len() == 0,
            pool.shared@.shelf_free_space.available == capacity,
            pool.shared@.shelf_free_space.assigned.is_empty(),
            pool.shared@.shelf_free_space.queue.len() == 0,
            pool.shared@.recycle_interval == self.recycle_interval,
            pool.shared@.manager == manager,
    {
        Pool {
            shared: Shared {
                capacity,
                shelf: Shelf::new(capacity),
                shelf_size: Semaphore::new(0),
                shelf_free_space: Semaphore::new(capacity),
                recycle_interval: self.recycle_interval,
                manager,
            },
        }
    }
}

impl Default for Builder {
    fn default() -> (builder: Self)
        ensures
            builder.recycle_interval.nanos == 30 * 1_000_000_000,
    {
        Self::new()
    }
}

} // verus!

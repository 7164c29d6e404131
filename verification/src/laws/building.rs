//! What a pool is when it is set up, and what it says of itself.
use vstd::prelude::*;

use crate::pool::{Builder, Dependencies, Pool, PoolState, Progress, Shared, Step};
use crate::resource::{Idle, Manage};
use crate::shelf::Shelf;
use crate::time::{Duration, Instant};

verus! {

/// What a pool was set up with is what it says of itself, and a builder that is told nothing makes
/// pools that recycle after half a minute. The last interval that a builder was told counts.
pub proof fn law_pool_is_what_it_was_set_up_as<M: Manage>(
    new: Builder,
    default: Builder,
    interval: Duration,
    told: Builder,
    capacity: usize,
    manager: M,
    plain: Pool<M>,
    pool: Pool<M>,
    plain_interval: Duration,
    pool_interval: Duration,
    pool_capacity: usize,
)
    requires
        call_ensures(Builder::new, (), new),
        call_ensures(<Builder as Default>::default, (), default),
        call_ensures(Builder::recycle_interval, (new, interval), told),
        call_ensures(Builder::build::<M>, (new, capacity, manager), plain),
        call_ensures(Builder::build::<M>, (told, capacity, manager), pool),
        call_ensures(Pool::<M>::recycle_interval, (&plain,), plain_interval),
        call_ensures(Pool::<M>::recycle_interval, (&pool,), pool_interval),
        call_ensures(Pool::<M>::capacity, (&pool,), pool_capacity),
    ensures
        new.recycle_interval.nanos == 30_000_000_000,
        default.recycle_interval == new.recycle_interval,
        plain_interval.nanos == 30_000_000_000,
        pool_interval == interval,
        pool_capacity == capacity,
        pool.shared@.manager == manager,
        pool.shared@.capacity == capacity,
        pool.shared@.recycle_interval == interval,
{
}

/// A new pool has an empty shelf, nothing checked out, nobody waiting, and room for as many resources
/// as its capacity says; so the first check-out creates a resource.
pub proof fn law_new_pool_has_room_for_all<M: Manage>(
    builder: Builder,
    capacity: usize,
    manager: M,
    pool: Pool<M>,
    now: Instant,
    after: PoolState<M>,
    result: Result<Step<M>, M::Error>,
)
    requires
        0 < capacity,
        call_ensures(Builder::build::<M>, (builder, capacity, manager), pool),
    ensures
        pool.shared.wf(),
        pool.shared@.shelf.len() == 0,
        pool.shared@.checked_out() == 0,
        pool.shared@.shelf_size.available == 0,
        pool.shared@.shelf_size.queue.len() == 0,
        pool.shared@.shelf_size.assigned == Set::<nat>::empty(),
        pool.shared@.shelf_free_space.available == capacity,
        pool.shared@.shelf_free_space.queue.len() == 0,
        pool.shared@.shelf_free_space.assigned == Set::<nat>::empty(),
        pool.shared@.checks_out(Progress::Start, now, after, result) ==> (result matches Ok(
            Step::Create(future),
        ) && call_ensures(M::create, (&manager,), future)),
{
    assert(pool.shared@.shelf_size.assigned =~= Set::<nat>::empty());
    assert(pool.shared@.shelf_free_space.assigned =~= Set::<nat>::empty());
}

/// A resource is stale if more time than the recycle interval lies between its time and the other,
/// whether that one is given or read from the clock; and what is recycled is that resource.
pub proof fn law_pool_recycles_by_its_interval<M: Manage>(
    shared: &Shared<M>,
    idle: Idle<M::Resource>,
    now: Instant,
    stale_then: bool,
    stale_now: bool,
    future: M::RecycleFuture,
)
    requires
        call_ensures(Shared::<M>::is_stale_at, (shared, &idle, now), stale_then),
        call_ensures(Shared::<M>::is_stale, (shared, &idle), stale_now),
        call_ensures(Shared::<M>::recycle, (shared, idle), future),
    ensures
        stale_then <==> now.nanos - idle.recycled_at.nanos > shared@.recycle_interval.nanos,
        exists|clock: Instant|
            {
                &&& #[trigger] call_ensures(<M::Dependencies as Dependencies>::now, (), clock)
                &&& stale_now <==> clock.nanos - idle.recycled_at.nanos
                    > shared@.recycle_interval.nanos
            },
        call_ensures(M::recycle, (&shared@.manager, idle.resource), future),
{
    let clock = choose|clock: Instant|
        {
            &&& #[trigger] call_ensures(<M::Dependencies as Dependencies>::now, (), clock)
            &&& stale_now == shared@.is_stale(idle, clock)
        };
    assert(call_ensures(<M::Dependencies as Dependencies>::now, (), clock));
}

/// An idle resource is what it was made of.
pub proof fn law_idle_resource_keeps_its_time<R: Send>(
    resource: R,
    recycled_at: Instant,
    idle: Idle<R>,
    time: Instant,
    out: R,
)
    requires
        call_ensures(Idle::<R>::new, (resource, recycled_at), idle),
        call_ensures(Idle::<R>::recycled_at, (&idle,), time),
        call_ensures(Idle::<R>::into_resource, (idle,), out),
    ensures
        out == resource,
        time == recycled_at,
        idle.resource == resource,
        idle.recycled_at == recycled_at,
{
}

/// Time is counted in nanoseconds: a span is past if the time from one instant to the other is
/// longer.
pub proof fn law_time_is_counted_in_nanoseconds(
    nanos: u128,
    instant: Instant,
    span: Duration,
    secs: u64,
    seconds: Duration,
    earlier: Instant,
    past: bool,
)
    requires
        call_ensures(Instant::from_nanos, (nanos,), instant),
        call_ensures(Duration::from_nanos, (nanos,), span),
        call_ensures(Duration::from_secs, (secs,), seconds),
        call_ensures(Instant::is_past, (&instant, earlier, seconds), past),
    ensures
        instant.nanos == nanos,
        span.nanos == nanos,
        seconds.nanos == secs * 1_000_000_000,
        past <==> nanos - earlier.nanos > secs * 1_000_000_000,
{
}

/// A shelf keeps what it holds in order: what is put on it lies behind the rest, what is taken off it
/// is the first, and it refuses what it has no room for, which it hands back.
pub proof fn law_shelf_is_a_bounded_queue<R: Send>(
    capacity: usize,
    new: Shelf<R>,
    filled: &mut Shelf<R>,
    idle: Idle<R>,
    pushed: Result<(), Idle<R>>,
    emptied: &mut Shelf<R>,
    popped: Option<Idle<R>>,
    counted: &Shelf<R>,
    count: usize,
)
    requires
        call_ensures(Shelf::<R>::new, (capacity,), new),
        call_ensures(Shelf::<R>::push, (filled, idle), pushed),
        call_ensures(Shelf::<R>::pop, (emptied,), popped),
        call_ensures(Shelf::<R>::len, (counted,), count),
    ensures
        new.wf() && new@.len() == 0 && new.capacity() == capacity,
        final(filled).wf() && final(filled).capacity() == old(filled).capacity(),
        old(filled)@.len() < old(filled).capacity() ==> {
            &&& pushed is Ok
            &&& final(filled)@ == old(filled)@ + seq![idle]
        },
        old(filled)@.len() >= old(filled).capacity() ==> {
            &&& pushed == Err::<(), Idle<R>>(idle)
            &&& final(filled)@ == old(filled)@
        },
        final(emptied).wf() && final(emptied).capacity() == old(emptied).capacity(),
        old(emptied)@.len() > 0 ==> {
            &&& popped matches Some(first) && seq![first] + final(emptied)@ == old(emptied)@
        },
        old(emptied)@.len() == 0 ==> popped is None && final(emptied)@.len() == 0,
        count == counted@.len(),
{
    assert(old(filled)@.push(idle) == old(filled)@ + seq![idle]);
    if old(emptied)@.len() > 0 {
        assert(seq![old(emptied)@[0]] + old(emptied)@.drop_first() == old(emptied)@);
    }
}

/// A pool can be set up for any number of resources that memory can hold.
pub proof fn law_pool_of_any_capacity<M: Manage>(builder: Builder, capacity: usize, manager: M)
    requires
        0 < capacity <= usize::MAX / 32,
    ensures
        call_requires(Builder::build::<M>, (builder, capacity, manager)),
{
}

} // verus!

//! What holds of a pool as a whole.
//!
//! The laws speak of the state that a pool shows, and of how its operations change that state. What
//! holds of one semaphore alone stands in [`semaphore`](crate::semaphore).
use vstd::prelude::*;

use crate::pool::{CheckOut, PoolState, Progress, Stake, Step, Waiting};
use crate::resource::{Idle, Manage, Status};
use crate::semaphore::{law_add_permit, law_pass, law_poll, law_release, PermitState};
use crate::shelf::MAX_CAPACITY;
use crate::time::Instant;

pub mod building;
pub mod check_out;
pub mod giving_up;
pub mod lending;
pub mod returning;

verus! {

/// The check-out that this came of has a place in the pool, for a resource that it has or that is
/// on its way.
pub open spec fn holds_place<M: Manage>(result: Result<Step<M>, M::Error>) -> bool {
    result matches Ok(step) && !(step is Wait)
}

/// Every wait for the pool `before` is one for the pool `after`.
pub open spec fn keeps_waits<M: Manage>(before: PoolState<M>, after: PoolState<M>) -> bool {
    forall|waiting: Waiting| waiting.waits_for(before) ==> #[trigger] waiting.waits_for(after)
}

/// The two waits have no ticket in common.
pub open spec fn apart(one: Waiting, other: Waiting) -> bool {
    &&& one.shelf_size.permit()->0->ticket != other.shelf_size.permit()->0->ticket
    &&& one.shelf_free_space.permit()->0->ticket != other.shelf_free_space.permit()->0->ticket
}

/// Each place in a pool is on the shelf, free, or checked out. So what is checked out is the
/// capacity less the permits of the shelf and of the free space, and never more than the capacity.
pub proof fn law_places_add_up<M: Manage>(pool: PoolState<M>)
    requires
        pool.wf(),
    ensures
        pool.shelf.len() + pool.shelf_free_space.permits() + pool.checked_out() == pool.capacity,
        pool.checked_out() == pool.capacity - pool.shelf_size.permits()
            - pool.shelf_free_space.permits(),
        0 <= pool.checked_out() <= pool.capacity,
        pool.shelf.len() + pool.checked_out() <= pool.capacity,
{
}

/// A pool is in order if and only if it has a capacity, a permit for every resource on the shelf, set
/// aside or there for anyone, no more permits than its capacity, and semaphores that are in order;
/// what the permits leave of the capacity is checked out.
pub proof fn law_order_of_a_pool<M: Manage>(pool: PoolState<M>)
    ensures
        pool.wf() <==> {
            &&& 0 < pool.capacity <= MAX_CAPACITY
            &&& pool.shelf_size.available + pool.shelf_size.assigned.len() == pool.shelf.len()
            &&& pool.shelf.len() + pool.shelf_free_space.available
                + pool.shelf_free_space.assigned.len() <= pool.capacity
            &&& pool.shelf_size.wf()
            &&& pool.shelf_free_space.wf()
        },
        pool.checked_out() == pool.capacity - pool.shelf_size.available
            - pool.shelf_size.assigned.len() - pool.shelf_free_space.available
            - pool.shelf_free_space.assigned.len(),
{
}

/// A check-out waits for a pool if and only if it has a ticket of each of the two semaphores, which
/// is in the queue or has a permit set aside for it. A check-out that was woken can go on if it waits
/// for the pool, one whose resource was created or recycled if a place is taken, and one that starts
/// always.
pub proof fn law_who_waits_for_a_pool<M: Manage>(
    pool: PoolState<M>,
    waiting: Waiting,
    progress: Progress<M>,
)
    ensures
        waiting.waits_for(pool) <==> {
            &&& waiting.shelf_size.permit() matches Some(PermitState::Waiting { home, ticket })
                && home == pool.shelf_size.id && (pool.shelf_size.assigned.contains(ticket)
                || pool.shelf_size.queue.contains(ticket))
            &&& waiting.shelf_free_space.permit() matches Some(
                PermitState::Waiting { home, ticket },
            ) && home == pool.shelf_free_space.id && (pool.shelf_free_space.assigned.contains(
                ticket,
            ) || pool.shelf_free_space.queue.contains(ticket))
        },
        Progress::<M>::Start.fits(pool),
        Progress::<M>::Woken(waiting).fits(pool) <==> waiting.waits_for(pool),
        progress is Created || progress is Recycled ==> (progress.fits(pool) <==> pool.checked_out()
            > 0),
{
}

/// A check-out that polls its waits keeps count.
proof fn lemma_waits_keeps_count<M: Manage>(
    before: PoolState<M>,
    shelf_size: PermitState,
    shelf_free_space: PermitState,
    now: Instant,
    after: PoolState<M>,
    step: Step<M>,
)
    requires
        before.wf(),
        before.shelf_size.serves(shelf_size),
        before.shelf_free_space.serves(shelf_free_space),
        before.waits(shelf_size, shelf_free_space, now, after, step),
    ensures
        after.wf(),
        after.checked_out() == before.checked_out() + (if step is Wait {
            0int
        } else {
            1
        }),
        step matches Step::Wait(waiting) ==> waiting.waits_for(after),
{
    law_poll(before.shelf_size, shelf_size);
    law_poll(before.shelf_free_space, shelf_free_space);
    law_release(before.shelf_free_space, shelf_free_space);
    if !before.shelf_size.grants(shelf_size) {
        law_pass(before.shelf_size, shelf_size);
    }
}

/// A step of a check-out takes a place when it comes to a resource or to the room for one, gives it
/// back when it fails, and otherwise leaves the number of places that are taken as it is. The pool
/// keeps count throughout, and a check-out that has to wait does so at this pool.
pub proof fn law_check_out_keeps_count<M: Manage>(
    before: PoolState<M>,
    progress: Progress<M>,
    now: Instant,
    after: PoolState<M>,
    result: Result<Step<M>, M::Error>,
)
    requires
        before.wf(),
        progress.fits(before),
        before.checks_out(progress, now, after, result),
    ensures
        after.wf(),
        after.checked_out() == before.checked_out() - (if progress.holds_place() {
            1int
        } else {
            0
        }) + (if holds_place(result) {
            1int
        } else {
            0
        }),
        result matches Ok(Step::Wait(waiting)) ==> waiting.waits_for(after),
        after.capacity == before.capacity,
        after.recycle_interval == before.recycle_interval,
        after.manager == before.manager,
{
    law_add_permit(before.shelf_free_space);
    match (progress, result) {
        (Progress::Start, Ok(step)) => {
            if before.shelf_size.available == 0 {
                lemma_waits_keeps_count(
                    before,
                    PermitState::Idle,
                    PermitState::Idle,
                    now,
                    after,
                    step,
                );
            }
        },
        (Progress::Woken(waiting), Ok(step)) => {
            lemma_waits_keeps_count(
                before,
                waiting.shelf_size.permit()->0,
                waiting.shelf_free_space.permit()->0,
                now,
                after,
                step,
            );
        },
        (Progress::Recycled(Ok(None)), Ok(step)) => {
            if before.shelf_size.available == 0 {
                lemma_waits_keeps_count(
                    before.lose(),
                    PermitState::Idle,
                    PermitState::Idle,
                    now,
                    after,
                    step,
                );
            }
        },
        _ => {},
    }
}

/// A resource that comes back frees its place: on the shelf if it is valid, else for a new one.
pub proof fn law_put_back_keeps_count<M: Manage>(
    before: PoolState<M>,
    idle: Idle<M::Resource>,
    status: Status,
)
    requires
        before.wf(),
        before.checked_out() > 0,
    ensures
        before.put_back(idle, status).wf(),
        before.put_back(idle, status).checked_out() == before.checked_out() - 1,
        before.put_back(idle, status).shelf == if status is Valid {
            before.shelf.push(idle)
        } else {
            before.shelf
        },
        keeps_waits(before, before.put_back(idle, status)),
{
    law_add_permit(before.shelf_size);
    law_add_permit(before.shelf_free_space);
}

/// A resource that is lost frees its place for a new one.
pub proof fn law_lose_keeps_count<M: Manage>(before: PoolState<M>)
    requires
        before.wf(),
        before.checked_out() > 0,
    ensures
        before.lose().wf(),
        before.lose().checked_out() == before.checked_out() - 1,
        before.lose().shelf_free_space.permits() == before.shelf_free_space.permits() + 1,
        before.lose().shelf == before.shelf,
        keeps_waits(before, before.lose()),
{
    law_add_permit(before.shelf_free_space);
}

/// A check-out that is given up while it waits changes nothing in the number of places, even if one
/// was set aside for it, and does not end the wait of another.
pub proof fn law_cancel_keeps_count<M: Manage>(before: PoolState<M>, waiting: Waiting)
    requires
        before.wf(),
        waiting.waits_for(before),
    ensures
        before.without(waiting).wf(),
        before.without(waiting).checked_out() == before.checked_out(),
        before.without(waiting).shelf_size.permits() == before.shelf_size.permits(),
        before.without(waiting).shelf_free_space.permits() == before.shelf_free_space.permits(),
        forall|other: Waiting|
            other.waits_for(before) && apart(waiting, other) ==> #[trigger] other.waits_for(
                before.without(waiting),
            ),
{
    law_release(before.shelf_size, waiting.shelf_size.permit()->0);
    law_release(before.shelf_free_space, waiting.shelf_free_space.permit()->0);
}

/// One check-out polls its waits and does not touch those of another.
proof fn lemma_waits_keeps_others<M: Manage>(
    before: PoolState<M>,
    shelf_size: PermitState,
    shelf_free_space: PermitState,
    now: Instant,
    after: PoolState<M>,
    step: Step<M>,
    other: Waiting,
)
    requires
        before.wf(),
        before.shelf_size.serves(shelf_size),
        before.shelf_free_space.serves(shelf_free_space),
        before.waits(shelf_size, shelf_free_space, now, after, step),
        other.waits_for(before),
        shelf_size matches PermitState::Waiting { ticket, .. } ==> ticket
            != other.shelf_size.permit()->0->ticket,
        shelf_free_space matches PermitState::Waiting { ticket, .. } ==> ticket
            != other.shelf_free_space.permit()->0->ticket,
    ensures
        other.waits_for(after),
        step matches Step::Wait(waiting) ==> apart(waiting, other),
{
    law_poll(before.shelf_size, shelf_size);
    law_poll(before.shelf_free_space, shelf_free_space);
    law_release(before.shelf_free_space, shelf_free_space);
    if !before.shelf_size.grants(shelf_size) {
        law_pass(before.shelf_size, shelf_size);
    }
}

/// A step of one check-out does not end the wait of another, and a wait that it begins has no ticket
/// of another wait.
pub proof fn law_check_out_keeps_other_waits<M: Manage>(
    before: PoolState<M>,
    progress: Progress<M>,
    now: Instant,
    after: PoolState<M>,
    result: Result<Step<M>, M::Error>,
    other: Waiting,
)
    requires
        before.wf(),
        progress.fits(before),
        before.checks_out(progress, now, after, result),
        other.waits_for(before),
        progress matches Progress::Woken(waiting) ==> apart(waiting, other),
    ensures
        other.waits_for(after),
        result matches Ok(Step::Wait(waiting)) ==> apart(waiting, other),
{
    law_add_permit(before.shelf_free_space);
    match (progress, result) {
        (Progress::Start, Ok(step)) => {
            if before.shelf_size.available == 0 {
                lemma_waits_keeps_others(
                    before,
                    PermitState::Idle,
                    PermitState::Idle,
                    now,
                    after,
                    step,
                    other,
                );
            }
        },
        (Progress::Woken(waiting), Ok(step)) => {
            lemma_waits_keeps_others(
                before,
                waiting.shelf_size.permit()->0,
                waiting.shelf_free_space.permit()->0,
                now,
                after,
                step,
                other,
            );
        },
        (Progress::Recycled(Ok(None)), Ok(step)) => {
            if before.shelf_size.available == 0 {
                lemma_waits_keeps_others(
                    before.lose(),
                    PermitState::Idle,
                    PermitState::Idle,
                    now,
                    after,
                    step,
                    other,
                );
            }
        },
        _ => {},
    }
}

/// A check-out that is given up on its way, after whatever step, leaves no trace: the pool has as
/// many places taken as without it, and all other waits go on.
pub proof fn law_abandoned_check_out_leaves_no_trace<M: Manage>(
    before: PoolState<M>,
    progress: Progress<M>,
    now: Instant,
    after: PoolState<M>,
    step: Step<M>,
)
    requires
        before.wf(),
        progress.fits(before),
        before.checks_out(progress, now, after, Ok(step)),
        step !is Done,
    ensures
        step.stake().is_in(after),
        after.abandoned(step.stake()).wf(),
        after.abandoned(step.stake()).checked_out() == before.checked_out() - (
        if progress.holds_place() {
            1int
        } else {
            0
        }),
        forall|other: Waiting|
            other.waits_for(before) && (progress matches Progress::Woken(waiting) ==> apart(
                waiting,
                other,
            )) ==> #[trigger] other.waits_for(after.abandoned(step.stake())),
{
    law_check_out_keeps_count(before, progress, now, after, Ok(step));
    match step.stake() {
        Stake::Wait(waiting) => law_cancel_keeps_count(after, waiting),
        Stake::Place => law_lose_keeps_count(after),
        Stake::Nothing => {},
    }
    assert forall|other: Waiting|
        other.waits_for(before) && (progress matches Progress::Woken(waiting) ==> apart(
            waiting,
            other,
        )) implies #[trigger] other.waits_for(after.abandoned(step.stake())) by {
        law_check_out_keeps_other_waits(before, progress, now, after, Ok(step), other);
    }
}

/// A check-out that starts has to wait if and only if there is neither a resource for anyone on the
/// shelf nor room for anyone to create one.
pub proof fn law_waits_only_for_want_of_both<M: Manage>(
    before: PoolState<M>,
    now: Instant,
    after: PoolState<M>,
    result: Result<Step<M>, M::Error>,
)
    requires
        before.checks_out(Progress::Start, now, after, result),
    ensures
        (result matches Ok(Step::Wait(_))) <==> before.shelf_size.available == 0
            && before.shelf_free_space.available == 0,
        result is Ok,
{
}

/// Nobody overtakes a check-out that waits: one that starts while another is still in both queues has
/// to wait as well.
pub proof fn law_start_does_not_overtake<M: Manage>(
    before: PoolState<M>,
    waiting: Waiting,
    now: Instant,
    after: PoolState<M>,
    result: Result<Step<M>, M::Error>,
)
    requires
        before.wf(),
        waiting.waits_for(before),
        before.shelf_size.queue.contains(waiting.shelf_size.permit()->0->ticket),
        before.shelf_free_space.queue.contains(waiting.shelf_free_space.permit()->0->ticket),
        before.checks_out(Progress::Start, now, after, result),
    ensures
        result matches Ok(Step::Wait(_)),
{
}

/// Once every place is taken, the next check-out has to wait.
pub proof fn law_full_pool_waits<M: Manage>(
    before: PoolState<M>,
    now: Instant,
    after: PoolState<M>,
    result: Result<Step<M>, M::Error>,
)
    requires
        before.wf(),
        before.checked_out() == before.capacity,
        before.checks_out(Progress::Start, now, after, result),
    ensures
        result matches Ok(Step::Wait(_)),
{
}

/// A resource is created only while there are fewer resources than the pool has room for, and by a
/// check-out that starts only if there is none for anyone on the shelf.
pub proof fn law_creates_within_capacity<M: Manage>(
    before: PoolState<M>,
    progress: Progress<M>,
    now: Instant,
    after: PoolState<M>,
    result: Result<Step<M>, M::Error>,
)
    requires
        before.wf(),
        progress.fits(before),
        before.checks_out(progress, now, after, result),
        result matches Ok(Step::Create(_)),
    ensures
        after.shelf == before.shelf,
        after.shelf.len() + after.checked_out() <= after.capacity,
        !progress.holds_place() ==> before.shelf.len() + before.checked_out() < before.capacity,
        progress is Start ==> before.shelf_size.available == 0
            && before.shelf_free_space.available > 0,
{
    law_check_out_keeps_count(before, progress, now, after, result);
}

/// A check-out that waits goes on if and only if a place was set aside for it.
pub proof fn law_served_waiter_goes_on<M: Manage>(
    before: PoolState<M>,
    waiting: Waiting,
    now: Instant,
    after: PoolState<M>,
    result: Result<Step<M>, M::Error>,
)
    requires
        waiting.waits_for(before),
        before.checks_out(Progress::Woken(waiting), now, after, result),
    ensures
        holds_place(result) <==> before.shelf_size.assigned.contains(
            waiting.shelf_size.permit()->0->ticket,
        ) || before.shelf_free_space.assigned.contains(
            waiting.shelf_free_space.permit()->0->ticket,
        ),
        result is Ok,
{
}

/// The check-out that is the first in the queue goes on once a resource comes back: it gets the
/// place of that resource, whether the resource is valid or not.
pub proof fn law_returned_resource_serves_the_first<M: Manage>(
    before: PoolState<M>,
    idle: Idle<M::Resource>,
    status: Status,
    waiting: Waiting,
    now: Instant,
    after: PoolState<M>,
    result: Result<Step<M>, M::Error>,
)
    requires
        before.wf(),
        before.checked_out() > 0,
        waiting.waits_for(before),
        before.shelf_size.queue.len() > 0 && before.shelf_size.queue.first()
            == waiting.shelf_size.permit()->0->ticket,
        before.shelf_free_space.queue.len() > 0 && before.shelf_free_space.queue.first()
            == waiting.shelf_free_space.permit()->0->ticket,
        before.put_back(idle, status).checks_out(Progress::Woken(waiting), now, after, result),
    ensures
        holds_place(result),
        status is Invalid ==> (result matches Ok(Step::Create(_))),
{
    let middle = before.put_back(idle, status);
    law_put_back_keeps_count(before, idle, status);
    law_served_waiter_goes_on(middle, waiting, now, after, result);
    assert(before.shelf_size.queue.contains(before.shelf_size.queue.first()));
}

/// A lost resource makes room for a new one: if nobody waits for the room, the next check-out does
/// not have to wait.
pub proof fn law_lost_resource_can_be_replaced<M: Manage>(
    before: PoolState<M>,
    now: Instant,
    after: PoolState<M>,
    result: Result<Step<M>, M::Error>,
)
    requires
        before.shelf_free_space.queue.len() == 0,
        before.lose().checks_out(Progress::Start, now, after, result),
    ensures
        holds_place(result),
        before.shelf_size.available == 0 ==> (result matches Ok(Step::Create(_))),
{
}

/// A valid resource that comes back to an empty shelf, with nobody waiting for it, is what the next
/// check-out gets. Unless it has become stale, it is handed out as it was. Either way the pool is
/// what it was before.
pub proof fn law_returned_resource_is_reused<M: Manage>(
    before: PoolState<M>,
    check_out: CheckOut<M>,
    now: Instant,
    after: PoolState<M>,
    result: Result<Step<M>, M::Error>,
)
    requires
        before.wf(),
        before.checked_out() > 0,
        before.shelf.len() == 0,
        before.shelf_size.queue.len() == 0,
        before.put_back(
            Idle { resource: check_out.resource, recycled_at: check_out.recycled_at },
            Status::Valid,
        ).checks_out(Progress::Start, now, after, result),
    ensures
        after == before,
        now.nanos <= check_out.recycled_at.nanos + before.recycle_interval.nanos ==> result
            == Ok::<Step<M>, M::Error>(Step::Done(check_out)),
        now.nanos > check_out.recycled_at.nanos + before.recycle_interval.nanos ==> (
        result matches Ok(Step::Recycle(future)) && call_ensures(
            M::recycle,
            (&before.manager, check_out.resource),
            future,
        )),
{
    let idle = Idle { resource: check_out.resource, recycled_at: check_out.recycled_at };
    let middle = before.put_back(idle, Status::Valid);
    assert(middle.shelf.first() == idle);
    assert(middle.shelf.drop_first() == before.shelf);
    assert(after.shelf_size == before.shelf_size);
}

/// Resources leave the shelf in the order in which they came: one that comes to a shelf is behind
/// all that are on it, and what is taken off is the first.
pub proof fn law_first_in_first_out<M: Manage>(
    before: PoolState<M>,
    idle: Idle<M::Resource>,
    now: Instant,
    after: PoolState<M>,
    step: Step<M>,
)
    requires
        before.wf(),
        before.checked_out() > 0,
    ensures
        before.put_back(idle, Status::Valid).shelf.drop_last() == before.shelf,
        before.put_back(idle, Status::Valid).shelf.last() == idle,
        before.pops(now, after, step) ==> seq![before.shelf.first()] + after.shelf == before.shelf,
{
}

/// An invalid resource never gets back on the shelf, so nobody is handed it again.
pub proof fn law_invalid_resource_is_gone<M: Manage>(
    before: PoolState<M>,
    idle: Idle<M::Resource>,
)
    ensures
        before.put_back(idle, Status::Invalid).shelf == before.shelf,
        before.put_back(idle, Status::Invalid) == before.lose(),
{
}

/// A resource is stale once more than the recycle interval has passed. So it is not stale when it
/// has just been created or recycled, and once it is stale it stays so.
pub proof fn law_staleness<M: Manage>(
    pool: PoolState<M>,
    idle: Idle<M::Resource>,
    now: Instant,
    later: Instant,
)
    requires
        now.nanos <= later.nanos,
    ensures
        pool.is_stale(idle, now) <==> now.nanos - idle.recycled_at.nanos
            > pool.recycle_interval.nanos,
        !pool.is_stale(idle, idle.recycled_at),
        pool.is_stale(idle, now) ==> pool.is_stale(idle, later),
{
}

/// Every resource that is handed out is fresh: a stale one is recycled first, and one that was just
/// created or recycled is handed out with the time of that.
pub proof fn law_handed_out_resource_is_fresh<M: Manage>(
    before: PoolState<M>,
    progress: Progress<M>,
    now: Instant,
    after: PoolState<M>,
    check_out: CheckOut<M>,
)
    requires
        before.checks_out(progress, now, after, Ok(Step::Done(check_out))),
    ensures
        now.nanos <= check_out.recycled_at.nanos + before.recycle_interval.nanos,
        progress is Created ==> check_out.recycled_at == now,
        progress matches Progress::Recycled(Ok(Some(_))) ==> check_out.recycled_at == now,
{
}

} // verus!

//! What a step of a check-out does, told by the resources and the permits that move.
use std::task::Context;

use vstd::prelude::*;

use crate::pool::{CheckOut, Dependencies, Pool, PoolState, Progress, Step, Waiting};
use crate::resource::Manage;
use crate::semaphore::{law_release, PermitState};
use crate::time::Instant;

verus! {

/// A step that is taken at a given time is one of those of which the other laws speak, from the
/// state that the pool shows before to the one that it shows afterwards.
pub proof fn law_check_out_at_is_a_step<M: Manage>(
    pool: &mut Pool<M>,
    progress: Progress<M>,
    now: Instant,
    context: &mut Context<'_>,
    result: Result<Step<M>, M::Error>,
)
    requires
        call_ensures(Pool::<M>::check_out_at, (pool, progress, now, context), result),
    ensures
        final(pool).shared.wf(),
        old(pool).shared@.checks_out(progress, now, final(pool).shared@, result),
{
}

/// A step that reads the clock itself is one at the time that the clock shows.
pub proof fn law_check_out_is_a_step_now<M: Manage>(
    pool: &mut Pool<M>,
    progress: Progress<M>,
    context: &mut Context<'_>,
    result: Result<Step<M>, M::Error>,
)
    requires
        call_ensures(Pool::<M>::check_out, (pool, progress, context), result),
    ensures
        final(pool).shared.wf(),
        exists|now: Instant|
            {
                &&& #[trigger] call_ensures(<M::Dependencies as Dependencies>::now, (), now)
                &&& old(pool).shared@.checks_out(progress, now, final(pool).shared@, result)
            },
{
}

/// No step changes what the pool was set up with, nor tells its semaphores apart in another way, nor
/// closes them.
pub proof fn law_step_keeps_settings<M: Manage>(
    before: PoolState<M>,
    progress: Progress<M>,
    now: Instant,
    after: PoolState<M>,
    result: Result<Step<M>, M::Error>,
)
    requires
        before.checks_out(progress, now, after, result),
    ensures
        after.capacity == before.capacity,
        after.recycle_interval == before.recycle_interval,
        after.manager == before.manager,
        after.shelf_size.id == before.shelf_size.id,
        after.shelf_size.closed == before.shelf_size.closed,
        after.shelf_free_space.id == before.shelf_free_space.id,
        after.shelf_free_space.closed == before.shelf_free_space.closed,
{
}

/// Whenever a step of a check-out that has no resource comes to one, that resource is the first on
/// the shelf, and the others stay there in their order. It is recycled if and only if more than the
/// recycle interval has passed since it last was, whether the check-out has just started, has waited,
/// or has lost another resource; and if not, it is handed out with the time that it had on the shelf.
pub proof fn law_idle_resource_is_recycled_iff_stale<M: Manage>(
    before: PoolState<M>,
    progress: Progress<M>,
    now: Instant,
    after: PoolState<M>,
    step: Step<M>,
)
    requires
        before.checks_out(progress, now, after, Ok(step)),
        progress is Start || progress is Woken || (progress matches Progress::Recycled(Ok(None))),
        step is Done || step is Recycle,
    ensures
        before.shelf.len() > 0,
        after.shelf.len() == before.shelf.len() - 1,
        forall|i: int|
            0 <= i < after.shelf.len() ==> #[trigger] after.shelf[i] == before.shelf[i + 1],
        step is Recycle <==> now.nanos - before.shelf[0].recycled_at.nanos
            > before.recycle_interval.nanos,
        step matches Step::Recycle(future) ==> call_ensures(
            M::recycle,
            (&before.manager, before.shelf[0].resource),
            future,
        ),
        step matches Step::Done(check_out) ==> {
            &&& check_out.resource == before.shelf[0].resource
            &&& check_out.recycled_at == before.shelf[0].recycled_at
        },
{
}

/// Whatever takes the first resource off the shelf, and whoever: if the resource is stale, the step
/// recycles it.
pub proof fn law_stale_resource_is_recycled_first<M: Manage>(
    before: PoolState<M>,
    progress: Progress<M>,
    now: Instant,
    after: PoolState<M>,
    result: Result<Step<M>, M::Error>,
)
    requires
        before.checks_out(progress, now, after, result),
        before.shelf.len() > 0,
        after.shelf == before.shelf.drop_first(),
        now.nanos > before.shelf.first().recycled_at.nanos + before.recycle_interval.nanos,
    ensures
        result matches Ok(Step::Recycle(future)) && call_ensures(
            M::recycle,
            (&before.manager, before.shelf.first().resource),
            future,
        ),
{
    assert(before.shelf.drop_first().len() != before.shelf.len());
}

/// A step that does not come to an idle resource leaves the shelf as it is.
pub proof fn law_shelf_is_left_alone<M: Manage>(
    before: PoolState<M>,
    progress: Progress<M>,
    now: Instant,
    after: PoolState<M>,
    result: Result<Step<M>, M::Error>,
)
    requires
        before.checks_out(progress, now, after, result),
        result is Err || (result matches Ok(Step::Wait(_))) || (result matches Ok(Step::Create(_)))
            || (progress matches Progress::Created(_)) || (progress matches Progress::Recycled(
            Ok(Some(_)),
        )),
    ensures
        after.shelf == before.shelf,
{
}

/// A check-out that starts when there is a resource for anyone takes one, however many there are. It
/// takes one permit for it and touches no wait.
pub proof fn law_start_takes_an_idle_resource<M: Manage>(
    before: PoolState<M>,
    now: Instant,
    after: PoolState<M>,
    result: Result<Step<M>, M::Error>,
)
    requires
        before.checks_out(Progress::Start, now, after, result),
        before.shelf_size.available > 0,
    ensures
        (result matches Ok(Step::Done(_))) || (result matches Ok(Step::Recycle(_))),
        after.shelf_size.available + 1 == before.shelf_size.available,
        after.shelf_size.assigned == before.shelf_size.assigned,
        after.shelf_size.queue == before.shelf_size.queue,
        after.shelf_size.next == before.shelf_size.next,
        after.shelf_free_space == before.shelf_free_space,
{
}

/// A fresh resource is handed out as it is, however many lie behind it.
pub proof fn law_fresh_resource_is_handed_out_as_it_is<M: Manage>(
    before: PoolState<M>,
    now: Instant,
    after: PoolState<M>,
    result: Result<Step<M>, M::Error>,
)
    requires
        before.wf(),
        before.shelf_size.available > 0,
        now.nanos <= before.shelf.first().recycled_at.nanos + before.recycle_interval.nanos,
        before.checks_out(Progress::Start, now, after, result),
    ensures
        result == Ok::<Step<M>, M::Error>(
            Step::Done(
                CheckOut {
                    resource: before.shelf.first().resource,
                    recycled_at: before.shelf.first().recycled_at,
                },
            ),
        ),
{
}

/// A check-out that starts when there is room for anyone, but no resource, has its manager create
/// one. It takes one permit for the room and touches no wait.
pub proof fn law_start_creates_where_there_is_room<M: Manage>(
    before: PoolState<M>,
    now: Instant,
    after: PoolState<M>,
    result: Result<Step<M>, M::Error>,
)
    requires
        before.checks_out(Progress::Start, now, after, result),
        before.shelf_size.available == 0,
        before.shelf_free_space.available > 0,
    ensures
        result matches Ok(Step::Create(future)) && call_ensures(
            M::create,
            (&before.manager,),
            future,
        ),
        after.shelf == before.shelf,
        after.shelf_free_space.available + 1 == before.shelf_free_space.available,
        after.shelf_free_space.assigned == before.shelf_free_space.assigned,
        after.shelf_free_space.queue == before.shelf_free_space.queue,
        after.shelf_size.available == before.shelf_size.available,
        after.shelf_size.assigned == before.shelf_size.assigned,
        after.shelf_size.queue == before.shelf_size.queue,
{
}

/// A check-out that starts when there is neither a resource nor room for anyone goes to the end of
/// both queues, with tickets that nobody has, and takes nothing.
pub proof fn law_start_waits_at_the_end<M: Manage>(
    before: PoolState<M>,
    now: Instant,
    after: PoolState<M>,
    result: Result<Step<M>, M::Error>,
)
    requires
        before.wf(),
        before.checks_out(Progress::Start, now, after, result),
        before.shelf_size.available == 0,
        before.shelf_free_space.available == 0,
    ensures
        result matches Ok(Step::Wait(waiting)) && {
            let n = before.shelf_size.queue.len();
            let m = before.shelf_free_space.queue.len();
            &&& after.shelf_size.queue.len() == n + 1
            &&& after.shelf_free_space.queue.len() == m + 1
            &&& waiting.shelf_size.permit() == Some(
                PermitState::Waiting {
                    home: before.shelf_size.id,
                    ticket: after.shelf_size.queue[n as int],
                },
            )
            &&& waiting.shelf_free_space.permit() == Some(
                PermitState::Waiting {
                    home: before.shelf_free_space.id,
                    ticket: after.shelf_free_space.queue[m as int],
                },
            )
            &&& forall|i: int|
                0 <= i < n ==> {
                    &&& #[trigger] after.shelf_size.queue[i] == before.shelf_size.queue[i]
                    &&& after.shelf_size.queue[i] != after.shelf_size.queue[n as int]
                }
            &&& forall|i: int|
                0 <= i < m ==> {
                    &&& #[trigger] after.shelf_free_space.queue[i]
                        == before.shelf_free_space.queue[i]
                    &&& after.shelf_free_space.queue[i] != after.shelf_free_space.queue[m as int]
                }
            &&& !before.shelf_size.assigned.contains(after.shelf_size.queue[n as int])
            &&& !before.shelf_free_space.assigned.contains(after.shelf_free_space.queue[m as int])
        },
        after.shelf == before.shelf,
        after.shelf_size.available == 0,
        after.shelf_size.assigned == before.shelf_size.assigned,
        after.shelf_free_space.available == 0,
        after.shelf_free_space.assigned == before.shelf_free_space.assigned,
{
    assert forall|i: int| 0 <= i < before.shelf_size.queue.len() implies
        #[trigger] before.shelf_size.queue[i] < before.shelf_size.next by {
        assert(before.shelf_size.queue.contains(before.shelf_size.queue[i]));
    }
    assert forall|i: int| 0 <= i < before.shelf_free_space.queue.len() implies
        #[trigger] before.shelf_free_space.queue[i] < before.shelf_free_space.next by {
        assert(before.shelf_free_space.queue.contains(before.shelf_free_space.queue[i]));
    }
}

/// A check-out for which a resource was set aside while it waited takes one, and with it the permit
/// that was set aside, and no other.
pub proof fn law_waiter_takes_the_resource_set_aside<M: Manage>(
    before: PoolState<M>,
    waiting: Waiting,
    now: Instant,
    after: PoolState<M>,
    result: Result<Step<M>, M::Error>,
    home: int,
    ticket: nat,
)
    requires
        before.checks_out(Progress::Woken(waiting), now, after, result),
        waiting.shelf_size.permit() == Some(PermitState::Waiting { home, ticket }),
        before.shelf_size.assigned.contains(ticket),
    ensures
        (result matches Ok(Step::Done(_))) || (result matches Ok(Step::Recycle(_))),
        after.shelf_size.assigned == before.shelf_size.assigned.remove(ticket),
        after.shelf_size.available == before.shelf_size.available,
        after.shelf_size.queue == before.shelf_size.queue,
        after.shelf_size.next == before.shelf_size.next,
{
}

/// A check-out for which room was set aside while it waited, and no resource, has its manager create
/// a resource. It takes the permit that was set aside, and no other.
pub proof fn law_waiter_takes_the_room_set_aside<M: Manage>(
    before: PoolState<M>,
    waiting: Waiting,
    now: Instant,
    after: PoolState<M>,
    result: Result<Step<M>, M::Error>,
    home: int,
    ticket: nat,
)
    requires
        before.checks_out(Progress::Woken(waiting), now, after, result),
        waiting.waits_for(before),
        waiting.shelf_free_space.permit() == Some(PermitState::Waiting { home, ticket }),
        before.shelf_free_space.assigned.contains(ticket),
        !before.shelf_size.assigned.contains(waiting.shelf_size.permit()->0->ticket),
    ensures
        result matches Ok(Step::Create(future)) && call_ensures(
            M::create,
            (&before.manager,),
            future,
        ),
        after.shelf == before.shelf,
        after.shelf_free_space.assigned == before.shelf_free_space.assigned.remove(ticket),
        after.shelf_free_space.available == before.shelf_free_space.available,
        after.shelf_free_space.queue == before.shelf_free_space.queue,
        after.shelf_free_space.next == before.shelf_free_space.next,
{
}

/// A check-out that goes on after it has waited is in neither queue any more, and nothing is set
/// aside for it: nobody behind it is held up by it.
pub proof fn law_waiter_that_goes_on_leaves_both_queues<M: Manage>(
    before: PoolState<M>,
    waiting: Waiting,
    now: Instant,
    after: PoolState<M>,
    step: Step<M>,
)
    requires
        before.wf(),
        waiting.waits_for(before),
        before.checks_out(Progress::Woken(waiting), now, after, Ok(step)),
        !(step is Wait),
    ensures
        ({
            let size_ticket = waiting.shelf_size.permit()->0->ticket;
            let room_ticket = waiting.shelf_free_space.permit()->0->ticket;
            &&& !after.shelf_size.assigned.contains(size_ticket)
            &&& !after.shelf_size.queue.contains(size_ticket)
            &&& !after.shelf_free_space.assigned.contains(room_ticket)
            &&& !after.shelf_free_space.queue.contains(room_ticket)
        }),
{
    law_release(before.shelf_size, waiting.shelf_size.permit()->0);
    law_release(before.shelf_free_space, waiting.shelf_free_space.permit()->0);
}

/// A check-out that gets a resource after it has waited gives up its wait for room. What was set
/// aside for that goes to the first in the queue for room, or, if there is nobody, to anyone; if
/// nothing was, the others in the queue move up and keep their order.
pub proof fn law_waiter_with_a_resource_frees_the_room<M: Manage>(
    before: PoolState<M>,
    waiting: Waiting,
    now: Instant,
    after: PoolState<M>,
    step: Step<M>,
)
    requires
        waiting.waits_for(before),
        before.checks_out(Progress::Woken(waiting), now, after, Ok(step)),
        step is Done || step is Recycle,
    ensures
        ({
            let ticket = waiting.shelf_free_space.permit()->0->ticket;
            let room = before.shelf_free_space;
            if room.assigned.contains(ticket) {
                if room.queue.len() > 0 {
                    &&& after.shelf_free_space.available == room.available
                    &&& after.shelf_free_space.assigned == room.assigned.remove(ticket).insert(
                        room.queue[0],
                    )
                    &&& seq![room.queue[0]] + after.shelf_free_space.queue == room.queue
                } else {
                    &&& after.shelf_free_space.available == room.available + 1
                    &&& after.shelf_free_space.assigned == room.assigned.remove(ticket)
                    &&& after.shelf_free_space.queue == room.queue
                }
            } else {
                &&& after.shelf_free_space.available == room.available
                &&& after.shelf_free_space.assigned == room.assigned
                &&& exists|k: int|
                    {
                        &&& 0 <= k < room.queue.len()
                        &&& #[trigger] room.queue[k] == ticket
                        &&& after.shelf_free_space.queue == room.queue.subrange(0, k)
                            + room.queue.subrange(k + 1, room.queue.len() as int)
                    }
            }
        }),
{
    let ticket = waiting.shelf_free_space.permit()->0->ticket;
    let room = before.shelf_free_space;
    if !room.assigned.contains(ticket) {
        let k = room.queue.index_of(ticket);
        assert(room.queue[k] == ticket);
        assert(after.shelf_free_space.queue == room.queue.subrange(0, k) + room.queue.subrange(
            k + 1,
            room.queue.len() as int,
        ));
    }
}

/// A check-out that creates a resource after it has waited gives up its wait for one on the shelf:
/// the others in that queue move up and keep their order.
pub proof fn law_waiter_with_room_leaves_the_shelf_to_others<M: Manage>(
    before: PoolState<M>,
    waiting: Waiting,
    now: Instant,
    after: PoolState<M>,
    step: Step<M>,
)
    requires
        waiting.waits_for(before),
        before.checks_out(Progress::Woken(waiting), now, after, Ok(step)),
        step is Create,
    ensures
        after.shelf_size.available == before.shelf_size.available,
        after.shelf_size.assigned == before.shelf_size.assigned,
        exists|k: int|
            {
                &&& 0 <= k < before.shelf_size.queue.len()
                &&& #[trigger] before.shelf_size.queue[k]
                    == waiting.shelf_size.permit()->0->ticket
                &&& after.shelf_size.queue == before.shelf_size.queue.subrange(0, k)
                    + before.shelf_size.queue.subrange(k + 1, before.shelf_size.queue.len() as int)
            },
{
    let queue = before.shelf_size.queue;
    let k = queue.index_of(waiting.shelf_size.permit()->0->ticket);
    assert(queue[k] == waiting.shelf_size.permit()->0->ticket);
    assert(after.shelf_size.queue == queue.subrange(0, k) + queue.subrange(
        k + 1,
        queue.len() as int,
    ));
}

/// A check-out that is woken before anything was set aside for it goes on waiting with the tickets
/// that it has, and changes nothing.
pub proof fn law_waiter_keeps_its_place_in_the_queue<M: Manage>(
    before: PoolState<M>,
    waiting: Waiting,
    now: Instant,
    after: PoolState<M>,
    result: Result<Step<M>, M::Error>,
)
    requires
        before.checks_out(Progress::Woken(waiting), now, after, result),
        waiting.waits_for(before),
        !before.shelf_size.assigned.contains(waiting.shelf_size.permit()->0->ticket),
        !before.shelf_free_space.assigned.contains(waiting.shelf_free_space.permit()->0->ticket),
    ensures
        after == before,
        result matches Ok(Step::Wait(still)) && {
            &&& still.shelf_size.permit() == waiting.shelf_size.permit()
            &&& still.shelf_free_space.permit() == waiting.shelf_free_space.permit()
        },
{
}

/// A resource that was created or recycled is handed out at once, with the time of that, whatever
/// else is in the pool; and the pool stays as it is.
pub proof fn law_finished_resource_is_handed_out<M: Manage>(
    before: PoolState<M>,
    resource: M::Resource,
    now: Instant,
    after: PoolState<M>,
    result: Result<Step<M>, M::Error>,
)
    requires
        before.checks_out(Progress::Created(Ok(resource)), now, after, result)
            || before.checks_out(Progress::Recycled(Ok(Some(resource))), now, after, result),
    ensures
        result == Ok::<Step<M>, M::Error>(Step::Done(CheckOut { resource, recycled_at: now })),
        after == before,
{
}

/// A check-out whose resource could not be created or recycled ends with the error of that. Its
/// place goes to the first who waits for room, or, if there is nobody, to anyone.
pub proof fn law_failure_ends_the_check_out<M: Manage>(
    before: PoolState<M>,
    error: M::Error,
    now: Instant,
    after: PoolState<M>,
    result: Result<Step<M>, M::Error>,
)
    requires
        before.checks_out(Progress::Created(Err(error)), now, after, result) || before.checks_out(
            Progress::Recycled(Err(error)),
            now,
            after,
            result,
        ),
    ensures
        result == Err::<Step<M>, M::Error>(error),
        after.shelf == before.shelf,
        after.shelf_size == before.shelf_size,
        ({
            let room = before.shelf_free_space;
            if room.queue.len() > 0 {
                &&& after.shelf_free_space.available == room.available
                &&& after.shelf_free_space.assigned == room.assigned.insert(room.queue[0])
                &&& seq![room.queue[0]] + after.shelf_free_space.queue == room.queue
            } else {
                &&& after.shelf_free_space.available == room.available + 1
                &&& after.shelf_free_space.assigned == room.assigned
                &&& after.shelf_free_space.queue == room.queue
            }
        }),
{
}

/// A check-out whose resource is found to be broken starts again, with the place of that resource
/// given back first. If nobody waits for room, it does not have to wait: it takes an idle resource,
/// and the room is there for anyone, or it creates a resource in that room.
pub proof fn law_broken_resource_is_replaced<M: Manage>(
    before: PoolState<M>,
    now: Instant,
    after: PoolState<M>,
    result: Result<Step<M>, M::Error>,
)
    requires
        before.checks_out(Progress::Recycled(Ok(None)), now, after, result),
        before.shelf_free_space.queue.len() == 0,
    ensures
        after.shelf_free_space.queue.len() == 0,
        after.shelf_free_space.assigned == before.shelf_free_space.assigned,
        after.shelf_size.assigned == before.shelf_size.assigned,
        after.shelf_size.queue == before.shelf_size.queue,
        before.shelf_size.available > 0 ==> {
            &&& (result matches Ok(Step::Done(_))) || (result matches Ok(Step::Recycle(_)))
            &&& after.shelf_size.available + 1 == before.shelf_size.available
            &&& after.shelf_free_space.available == before.shelf_free_space.available + 1
        },
        before.shelf_size.available == 0 ==> {
            &&& result matches Ok(Step::Create(future)) && call_ensures(
                M::create,
                (&before.manager,),
                future,
            )
            &&& after.shelf_size.available == 0
            &&& after.shelf_free_space.available == before.shelf_free_space.available
        },
{
}

/// A check-out whose resource is found to be broken leaves its place to the first who waits for
/// room. It takes an idle resource if there is one for anyone, and otherwise goes to the end of both
/// queues: it does not overtake.
pub proof fn law_broken_resource_serves_the_first<M: Manage>(
    before: PoolState<M>,
    now: Instant,
    after: PoolState<M>,
    result: Result<Step<M>, M::Error>,
)
    requires
        before.wf(),
        before.checks_out(Progress::Recycled(Ok(None)), now, after, result),
        before.shelf_free_space.queue.len() > 0,
    ensures
        after.shelf_free_space.assigned == before.shelf_free_space.assigned.insert(
            before.shelf_free_space.queue[0],
        ),
        after.shelf_free_space.available == 0,
        after.shelf_size.assigned == before.shelf_size.assigned,
        before.shelf_size.available > 0 ==> {
            &&& (result matches Ok(Step::Done(_))) || (result matches Ok(Step::Recycle(_)))
            &&& after.shelf_size.available + 1 == before.shelf_size.available
            &&& after.shelf_size.queue == before.shelf_size.queue
            &&& seq![before.shelf_free_space.queue[0]] + after.shelf_free_space.queue
                == before.shelf_free_space.queue
        },
        before.shelf_size.available == 0 ==> {
            &&& result matches Ok(Step::Wait(waiting)) && {
                &&& waiting.shelf_size.permit() == Some(
                    PermitState::Waiting {
                        home: before.shelf_size.id,
                        ticket: after.shelf_size.queue.last(),
                    },
                )
                &&& waiting.shelf_free_space.permit() == Some(
                    PermitState::Waiting {
                        home: before.shelf_free_space.id,
                        ticket: after.shelf_free_space.queue.last(),
                    },
                )
            }
            &&& after.shelf_size.available == 0
            &&& after.shelf_size.queue.len() == before.shelf_size.queue.len() + 1
            &&& after.shelf_size.queue.drop_last() == before.shelf_size.queue
            &&& after.shelf_free_space.queue.len() == before.shelf_free_space.queue.len()
            &&& seq![before.shelf_free_space.queue[0]]
                + after.shelf_free_space.queue.drop_last() == before.shelf_free_space.queue
        },
{
}

/// A check-out can start in any pool that is in order, go on with a wait that it has there, and go on
/// with its resource while it has a place.
pub proof fn law_check_out_can_go_on<M: Manage>(
    pool: &mut Pool<M>,
    progress: Progress<M>,
    now: Instant,
    context: &mut Context<'_>,
)
    requires
        old(pool).shared.wf(),
        match progress {
            Progress::Start => true,
            Progress::Woken(waiting) => waiting.waits_for(old(pool).shared@),
            Progress::Created(_) | Progress::Recycled(_) => old(pool).shared@.checked_out() > 0,
        },
    ensures
        call_requires(Pool::<M>::check_out, (pool, progress, context)),
        call_requires(Pool::<M>::check_out_at, (pool, progress, now, context)),
{
}

} // verus!

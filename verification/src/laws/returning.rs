//! What becomes of a resource that comes back, or that is lost.
use vstd::prelude::*;

use crate::pool::{CheckOut, PoolState, Progress, Returned, Shared, Step, Waiting};
use crate::resource::{Idle, Manage, Status};
use crate::semaphore::law_add_permit;
use crate::time::Instant;

verus! {

/// A valid resource that comes back lies behind all others on the shelf, just as it came back. Its
/// permit is set aside for the first who waits for a resource, or, if there is nobody, there for
/// anyone. The room for new resources stays as it is.
pub proof fn law_valid_resource_goes_to_the_end_of_the_shelf<M: Manage>(
    before: PoolState<M>,
    idle: Idle<M::Resource>,
)
    requires
        before.shelf.len() < before.capacity,
    ensures
        ({
            let after = before.put_back(idle, Status::Valid);
            let size = before.shelf_size;
            &&& after.shelf.len() == before.shelf.len() + 1
            &&& forall|i: int|
                0 <= i < before.shelf.len() ==> #[trigger] after.shelf[i] == before.shelf[i]
            &&& after.shelf[before.shelf.len() as int] == idle
            &&& after.shelf_free_space == before.shelf_free_space
            &&& after.shelf_size.id == size.id && after.shelf_size.next == size.next
                && after.shelf_size.closed == size.closed
            &&& if size.queue.len() > 0 {
                &&& after.shelf_size.available == size.available
                &&& after.shelf_size.assigned == size.assigned.insert(size.queue[0])
                &&& seq![size.queue[0]] + after.shelf_size.queue == size.queue
            } else {
                &&& after.shelf_size.available == size.available + 1
                &&& after.shelf_size.assigned == size.assigned
                &&& after.shelf_size.queue == size.queue
            }
            &&& after.capacity == before.capacity
            &&& after.recycle_interval == before.recycle_interval
            &&& after.manager == before.manager
        }),
{
}

/// A resource that is lost leaves room for one more: for the first who waits for room, or, if there
/// is nobody, for anyone. Nothing else changes.
pub proof fn law_lost_resource_leaves_room<M: Manage>(before: PoolState<M>)
    ensures
        ({
            let after = before.lose();
            let room = before.shelf_free_space;
            &&& after.shelf == before.shelf
            &&& after.shelf_size == before.shelf_size
            &&& after.shelf_free_space.id == room.id && after.shelf_free_space.next == room.next
                && after.shelf_free_space.closed == room.closed
            &&& if room.queue.len() > 0 {
                &&& after.shelf_free_space.available == room.available
                &&& after.shelf_free_space.assigned == room.assigned.insert(room.queue[0])
                &&& seq![room.queue[0]] + after.shelf_free_space.queue == room.queue
            } else {
                &&& after.shelf_free_space.available == room.available + 1
                &&& after.shelf_free_space.assigned == room.assigned
                &&& after.shelf_free_space.queue == room.queue
            }
            &&& after.capacity == before.capacity
            &&& after.recycle_interval == before.recycle_interval
            &&& after.manager == before.manager
        }),
{
}

/// A resource that is not valid, and one for which the shelf has no room, counts as lost.
pub proof fn law_resource_that_is_not_kept_is_lost<M: Manage>(
    before: PoolState<M>,
    idle: Idle<M::Resource>,
)
    ensures
        before.put_back(idle, Status::Invalid) == before.lose(),
        before.shelf.len() >= before.capacity ==> before.put_back(idle, Status::Valid)
            == before.lose(),
{
}

/// Taking back a resource leads from one state that the pool shows to the next, and whatever was not
/// put on the shelf is handed out again: a resource that is not valid, and one for which there was
/// no room.
pub proof fn law_put_back_keeps_valid_resources<M: Manage>(
    shared: &mut Shared<M>,
    idle: Idle<M::Resource>,
    status: Status,
    returned: Returned<M::Resource>,
)
    requires
        call_ensures(Shared::<M>::put_back, (shared, idle, status), returned),
    ensures
        final(shared)@ == old(shared)@.put_back(idle, status),
        old(shared)@.checked_out() > 0 ==> final(shared).wf(),
        returned is Shelved <==> status == Status::Valid && old(shared)@.shelf.len() < old(
            shared,
        )@.capacity,
        status == Status::Invalid ==> returned == Returned::Discarded(idle),
        status == Status::Valid && !(returned is Shelved) ==> returned == Returned::Overflow(idle),
{
}

/// The pool loses a resource when it is told so, and only that.
pub proof fn law_notice_of_loss_leaves_room<M: Manage>(shared: &mut Shared<M>)
    requires
        call_ensures(Shared::<M>::notify_of_lost_resource, (shared,), ()),
    ensures
        final(shared)@ == old(shared)@.lose(),
        old(shared)@.checked_out() > 0 ==> final(shared).wf(),
{
}

/// What is given back is kept as its manager finds it to be: the resource that was checked out, with
/// the time that it was checked out with, lies at the end of the shelf if the manager finds it to be
/// valid and there is room; and otherwise it is handed out again and counts as lost.
pub proof fn law_given_back_as_the_manager_finds<M: Manage>(
    check_out: CheckOut<M>,
    shared: &mut Shared<M>,
    returned: Returned<M::Resource>,
)
    requires
        call_ensures(CheckOut::<M>::give_back, (check_out, shared), returned),
    ensures
        old(shared)@.checked_out() > 0 ==> final(shared).wf(),
        exists|status: Status|
            {
                &&& #[trigger] call_ensures(
                    M::status,
                    (&old(shared)@.manager, &check_out.resource),
                    status,
                )
                &&& match returned {
                    Returned::Shelved => {
                        &&& status == Status::Valid
                        &&& old(shared)@.shelf.len() < old(shared)@.capacity
                        &&& final(shared)@.shelf.len() == old(shared)@.shelf.len() + 1
                        &&& final(shared)@.shelf.last().resource == check_out.resource
                        &&& final(shared)@.shelf.last().recycled_at == check_out.recycled_at
                        &&& final(shared)@ == old(shared)@.put_back(
                            final(shared)@.shelf.last(),
                            Status::Valid,
                        )
                    },
                    Returned::Discarded(idle) => {
                        &&& status == Status::Invalid
                        &&& idle.resource == check_out.resource
                        &&& idle.recycled_at == check_out.recycled_at
                        &&& final(shared)@ == old(shared)@.lose()
                    },
                    Returned::Overflow(idle) => {
                        &&& status == Status::Valid
                        &&& old(shared)@.shelf.len() >= old(shared)@.capacity
                        &&& idle.resource == check_out.resource
                        &&& idle.recycled_at == check_out.recycled_at
                        &&& final(shared)@ == old(shared)@.lose()
                    },
                }
            },
{
    let status = choose|status: Status|
        {
            &&& #[trigger] call_ensures(
                M::status,
                (&old(shared)@.manager, &check_out.resource),
                status,
            )
            &&& ({
                let idle = Idle {
                    resource: check_out.resource,
                    recycled_at: check_out.recycled_at,
                };
                &&& final(shared)@ == old(shared)@.put_back(idle, status)
                &&& returned == if status is Invalid {
                    Returned::Discarded(idle)
                } else if old(shared)@.shelf.len() < old(shared)@.capacity {
                    Returned::Shelved
                } else {
                    Returned::Overflow(idle)
                }
            })
        };
    assert(call_ensures(M::status, (&old(shared)@.manager, &check_out.resource), status));
}

/// The resource of a check-out and the time that belongs to it stay together on the way back.
pub proof fn law_idle_resource_is_what_was_checked_out<M: Manage>(
    check_out: CheckOut<M>,
    idle: Idle<M::Resource>,
)
    requires
        call_ensures(CheckOut::<M>::into_idle, (check_out,), idle),
    ensures
        idle.resource == check_out.resource,
        idle.recycled_at == check_out.recycled_at,
{
}

/// The check-out that is the first to wait gets what comes back to an empty shelf, by the same rules
/// as any other: if the resource has become stale meanwhile, it is recycled first, and otherwise it
/// is handed out with the time that it came back with.
pub proof fn law_waiter_gets_what_comes_back<M: Manage>(
    before: PoolState<M>,
    idle: Idle<M::Resource>,
    waiting: Waiting,
    now: Instant,
    after: PoolState<M>,
    result: Result<Step<M>, M::Error>,
)
    requires
        before.wf(),
        before.checked_out() > 0,
        before.shelf.len() == 0,
        waiting.waits_for(before),
        before.shelf_size.queue.len() > 0,
        before.shelf_size.queue[0] == waiting.shelf_size.permit()->0->ticket,
        before.put_back(idle, Status::Valid).checks_out(
            Progress::Woken(waiting),
            now,
            after,
            result,
        ),
    ensures
        after.shelf.len() == 0,
        now.nanos > idle.recycled_at.nanos + before.recycle_interval.nanos ==> (
        result matches Ok(Step::Recycle(future)) && call_ensures(
            M::recycle,
            (&before.manager, idle.resource),
            future,
        )),
        now.nanos <= idle.recycled_at.nanos + before.recycle_interval.nanos ==> result == Ok::<
            Step<M>,
            M::Error,
        >(Step::Done(CheckOut { resource: idle.resource, recycled_at: idle.recycled_at })),
{
    law_add_permit(before.shelf_size);
}

/// Any pool that is in order takes back any resource, and any notice of a loss.
pub proof fn law_resource_can_be_returned<M: Manage>(
    shared: &mut Shared<M>,
    check_out: CheckOut<M>,
    idle: Idle<M::Resource>,
    status: Status,
)
    requires
        old(shared).wf(),
    ensures
        call_requires(CheckOut::<M>::give_back, (check_out, shared)),
        call_requires(Shared::<M>::put_back, (shared, idle, status)),
        call_requires(Shared::<M>::notify_of_lost_resource, (shared,)),
{
}

} // verus!

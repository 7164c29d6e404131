//! What becomes of a check-out that is given up on its way.
use vstd::prelude::*;

use crate::pool::{Awaited, PoolState, Progress, Shared, Stake, Step, Waiting};
use crate::resource::{Idle, Manage, Status};
use crate::semaphore::{law_add_permit, law_release};
use crate::time::Instant;

verus! {

/// A check-out that is given up while it waits is in neither queue any more, and nothing is set aside
/// for it. Nothing that lies on the shelf is touched.
pub proof fn law_cancelled_wait_is_gone<M: Manage>(before: PoolState<M>, waiting: Waiting)
    requires
        before.wf(),
        waiting.waits_for(before),
    ensures
        ({
            let after = before.without(waiting);
            let size_ticket = waiting.shelf_size.permit()->0->ticket;
            let room_ticket = waiting.shelf_free_space.permit()->0->ticket;
            &&& !after.shelf_size.has_wait(size_ticket)
            &&& !after.shelf_size.assigned.contains(size_ticket)
            &&& !after.shelf_size.queue.contains(size_ticket)
            &&& !after.shelf_free_space.has_wait(room_ticket)
            &&& !after.shelf_free_space.assigned.contains(room_ticket)
            &&& !after.shelf_free_space.queue.contains(room_ticket)
            &&& after.shelf == before.shelf
            &&& after.capacity == before.capacity
            &&& after.recycle_interval == before.recycle_interval
            &&& after.manager == before.manager
        }),
{
    law_release(before.shelf_size, waiting.shelf_size.permit()->0);
    law_release(before.shelf_free_space, waiting.shelf_free_space.permit()->0);
}

/// What was set aside for a wait that is given up goes to the first in the same queue, or, if there
/// is nobody, to anyone. If nothing was set aside, the others in the queue move up and keep their
/// order.
pub proof fn law_cancelled_wait_passes_on_what_it_had<M: Manage>(
    before: PoolState<M>,
    waiting: Waiting,
)
    requires
        waiting.waits_for(before),
    ensures
        ({
            let size = before.shelf_size;
            let after = before.without(waiting).shelf_size;
            let ticket = waiting.shelf_size.permit()->0->ticket;
            &&& after.id == size.id && after.next == size.next && after.closed == size.closed
            &&& if size.assigned.contains(ticket) && size.queue.len() > 0 {
                &&& after.available == size.available
                &&& after.assigned == size.assigned.remove(ticket).insert(size.queue[0])
                &&& seq![size.queue[0]] + after.queue == size.queue
            } else if size.assigned.contains(ticket) {
                &&& after.available == size.available + 1
                &&& after.assigned == size.assigned.remove(ticket)
                &&& after.queue == size.queue
            } else {
                &&& after.available == size.available
                &&& after.assigned == size.assigned
                &&& exists|k: int|
                    {
                        &&& 0 <= k < size.queue.len()
                        &&& #[trigger] size.queue[k] == ticket
                        &&& after.queue == size.queue.subrange(0, k) + size.queue.subrange(
                            k + 1,
                            size.queue.len() as int,
                        )
                    }
            }
        }),
        ({
            let room = before.shelf_free_space;
            let after = before.without(waiting).shelf_free_space;
            let ticket = waiting.shelf_free_space.permit()->0->ticket;
            &&& after.id == room.id && after.next == room.next && after.closed == room.closed
            &&& if room.assigned.contains(ticket) && room.queue.len() > 0 {
                &&& after.available == room.available
                &&& after.assigned == room.assigned.remove(ticket).insert(room.queue[0])
                &&& seq![room.queue[0]] + after.queue == room.queue
            } else if room.assigned.contains(ticket) {
                &&& after.available == room.available + 1
                &&& after.assigned == room.assigned.remove(ticket)
                &&& after.queue == room.queue
            } else {
                &&& after.available == room.available
                &&& after.assigned == room.assigned
                &&& exists|k: int|
                    {
                        &&& 0 <= k < room.queue.len()
                        &&& #[trigger] room.queue[k] == ticket
                        &&& after.queue == room.queue.subrange(0, k) + room.queue.subrange(
                            k + 1,
                            room.queue.len() as int,
                        )
                    }
            }
        }),
{
    let size = before.shelf_size;
    let size_ticket = waiting.shelf_size.permit()->0->ticket;
    if !size.assigned.contains(size_ticket) {
        let k = size.queue.index_of(size_ticket);
        assert(size.queue[k] == size_ticket);
        assert(before.without(waiting).shelf_size.queue == size.queue.subrange(0, k)
            + size.queue.subrange(k + 1, size.queue.len() as int));
    }
    let room = before.shelf_free_space;
    let room_ticket = waiting.shelf_free_space.permit()->0->ticket;
    if !room.assigned.contains(room_ticket) {
        let k = room.queue.index_of(room_ticket);
        assert(room.queue[k] == room_ticket);
        assert(before.without(waiting).shelf_free_space.queue == room.queue.subrange(0, k)
            + room.queue.subrange(k + 1, room.queue.len() as int));
    }
}

/// A check-out that was given up holds nobody up: if nobody else was in the queues, then after the
/// loss of a resource, or the return of one, the next check-out does not have to wait.
pub proof fn law_cancelled_wait_holds_nobody_up<M: Manage>(
    before: PoolState<M>,
    waiting: Waiting,
    idle: Idle<M::Resource>,
    status: Status,
    now: Instant,
    after: PoolState<M>,
    result: Result<Step<M>, M::Error>,
)
    requires
        before.wf(),
        before.checked_out() > 0,
        waiting.waits_for(before),
        forall|ticket: nat| #[trigger]
            before.shelf_size.queue.contains(ticket) ==> ticket
                == waiting.shelf_size.permit()->0->ticket,
        forall|ticket: nat| #[trigger]
            before.shelf_free_space.queue.contains(ticket) ==> ticket
                == waiting.shelf_free_space.permit()->0->ticket,
        before.without(waiting).lose().checks_out(Progress::Start, now, after, result)
            || before.without(waiting).put_back(idle, status).checks_out(
            Progress::Start,
            now,
            after,
            result,
        ),
    ensures
        result matches Ok(step) && !(step is Wait),
{
    let middle = before.without(waiting);
    law_cancelled_wait_is_gone(before, waiting);
    law_cancelled_wait_passes_on_what_it_had(before, waiting);
    if middle.shelf_size.queue.len() > 0 {
        let ticket = middle.shelf_size.queue[0];
        assert(middle.shelf_size.queue.contains(ticket));
        assert(before.shelf_size.queue.contains(ticket)) by {
            let own = waiting.shelf_size.permit()->0->ticket;
            if before.shelf_size.assigned.contains(own) {
                assert((seq![before.shelf_size.queue[0]] + middle.shelf_size.queue)[1] == ticket);
            }
        }
    }
    if middle.shelf_free_space.queue.len() > 0 {
        let ticket = middle.shelf_free_space.queue[0];
        assert(middle.shelf_free_space.queue.contains(ticket));
        assert(before.shelf_free_space.queue.contains(ticket)) by {
            let own = waiting.shelf_free_space.permit()->0->ticket;
            if before.shelf_free_space.assigned.contains(own) {
                assert((seq![before.shelf_free_space.queue[0]]
                    + middle.shelf_free_space.queue)[1] == ticket);
            }
        }
    }
}

/// Giving up a check-out gives up what it has of the pool: nothing, its wait, or its place. Each step
/// leaves it with as much as the step asks it to await.
pub proof fn law_stake_is_what_the_step_took<M: Manage>(before: PoolState<M>, step: Step<M>)
    ensures
        before.abandoned(Stake::Nothing) == before,
        before.abandoned(Stake::Place) == before.lose(),
        step matches Step::Wait(waiting) ==> step.stake() == Stake::Wait(waiting)
            && before.abandoned(step.stake()) == before.without(waiting),
        step is Create || step is Recycle ==> step.stake() == Stake::Place,
        step is Done ==> step.stake() == Stake::Nothing,
        Stake::Nothing.is_in(before),
        Stake::Place.is_in(before) <==> before.checked_out() > 0,
        step matches Step::Wait(waiting) ==> (Stake::Wait(waiting).is_in(before)
            <==> waiting.waits_for(before)),
{
}

/// Ending a wait, and giving up a check-out, lead from one state that the pool shows to the next.
pub proof fn law_cancel_wait_ends_the_wait<M: Manage>(shared: &mut Shared<M>, waiting: Waiting)
    requires
        call_ensures(Shared::<M>::cancel_wait, (shared, waiting), ()),
    ensures
        final(shared).wf(),
        final(shared)@ == old(shared)@.without(waiting),
{
}

/// Giving up a check-out undoes what it has of the pool, and keeps the pool in order.
pub proof fn law_abandon_gives_up_the_stake<M: Manage>(stake: Stake, shared: &mut Shared<M>)
    requires
        call_ensures(Stake::abandon::<M>, (stake, shared), ()),
    ensures
        final(shared).wf(),
        stake is Nothing ==> final(shared)@ == old(shared)@,
        stake is Place ==> final(shared)@ == old(shared)@.lose(),
        stake matches Stake::Wait(waiting) ==> final(shared)@ == old(shared)@.without(waiting),
{
}

/// A check-out that is polled goes on with the wait that it has, and starts if it has none.
pub proof fn law_polled_check_out_goes_on_with_its_wait<M: Manage>(
    stake: Stake,
    progress: Progress<M>,
)
    requires
        call_ensures(Stake::polled::<M>, (stake,), progress),
    ensures
        stake is Nothing ==> progress is Start,
        stake matches Stake::Wait(waiting) ==> progress == Progress::<M>::Woken(waiting),
{
}

/// What a step asks to await and what the check-out has of the pool meanwhile belong together: a wake
/// and a wait, a future and a place, a resource and nothing. The future and the resource are those of
/// the step.
pub proof fn law_step_is_parted<M: Manage>(step: Step<M>, stake: Stake, awaited: Awaited<M>)
    requires
        call_ensures(Step::<M>::part, (step,), (stake, awaited)),
    ensures
        match step {
            Step::Wait(waiting) => stake == Stake::Wait(waiting) && awaited is Wake,
            Step::Create(future) => stake is Place && awaited == Awaited::<M>::Create(future),
            Step::Recycle(future) => stake is Place && awaited == Awaited::<M>::Recycle(future),
            Step::Done(check_out) => stake is Nothing && awaited == Awaited::Done(check_out),
        },
{
}

/// A check-out can be given up whenever it has something of a pool that is in order, or nothing.
pub proof fn law_check_out_can_be_given_up<M: Manage>(
    shared: &mut Shared<M>,
    waiting: Waiting,
    stake: Stake,
)
    requires
        old(shared).wf(),
        waiting.waits_for(old(shared)@),
        stake is Place ==> old(shared)@.checked_out() > 0,
        stake matches Stake::Wait(own) ==> own.waits_for(old(shared)@),
    ensures
        call_requires(Shared::<M>::cancel_wait, (shared, waiting)),
        call_requires(Stake::abandon::<M>, (stake, shared)),
{
}

} // verus!

//! The librarian, who puts resources back on the shelf.
use std::task::Context;

use futures::channel::mpsc::Receiver;
use vstd::prelude::*;

use crate::inbox::Inbox;
use crate::machine::Async;
use crate::resource::{Idle, Manage};
use crate::semaphore::{
    add_permits, law_add_permit, law_permits_go_to_the_first, lemma_add_one, semaphore_state,
};
use crate::shared::Shared;

verus! {

/// Manages the internal state of a pool: it puts the resources that come in on the shelf, until
/// nobody is left to send any.
pub struct Librarian<M>
where
    M: Manage,
{
    pub pool: Shared<M>,
    pub inbox: Inbox<M::Resource>,
}

/// What becomes of a poll of the librarian.
pub enum Turnover<R>
where
    R: Send,
{
    /// It goes on: the receiver is to be polled again.
    Continue,
    /// It is over, and the librarian waits for more or is done.
    Return(Async<()>),
    /// A resource came in and the shelf had no room for it.
    Overflow(Idle<R>),
}

impl<M> Librarian<M>
where
    M: Manage,
{
    /// The resources `shelved` were put on the shelf, in that order, and nothing else has changed
    /// in the pool.
    pub open spec fn shelves(
        before: Shared<M>,
        shelved: Seq<Idle<M::Resource>>,
        after: Shared<M>,
    ) -> bool {
        &&& after.shelf@ == before.shelf@ + shelved
        &&& semaphore_state(after.checked_out_count) == semaphore_state(
            before.checked_out_count,
        ).add_permits(shelved.len())
        &&& after.capacity == before.capacity
        &&& after.created_count == before.created_count
        &&& after.manager == before.manager
    }

    /// The resources in polls that all came to one.
    pub open spec fn resources(came: Seq<Async<Option<Idle<M::Resource>>>>) -> Seq<
        Idle<M::Resource>,
    > {
        Seq::new(came.len(), |i: int| came[i]->Ready_0->0)
    }

    /// A poll of the librarian polls the inbox, which comes to `came`: resources, all of which go
    /// on the shelf, up to the last poll of the inbox. That one comes to nothing yet, and the
    /// librarian waits for more; or to nobody being left to send any, and the librarian is done; or
    /// to a resource for which the shelf has no room, and that resource is handed back as an error.
    pub open spec fn polls(
        before: Self,
        came: Seq<Async<Option<Idle<M::Resource>>>>,
        after: Self,
        result: Result<Async<()>, Idle<M::Resource>>,
    ) -> bool {
        &&& came.len() > 0
        &&& Inbox::delivers(before.inbox.receiver(), came, after.inbox.receiver())
        &&& forall|i: int|
            0 <= i < came.len() - 1 ==> ((#[trigger] came[i]) matches Async::Ready(Some(_)))
        &&& Self::shelves(before.pool, Self::resources(came.drop_last()), after.pool)
        &&& match came.last() {
            Async::NotReady => result == Ok::<Async<()>, Idle<M::Resource>>(Async::NotReady),
            Async::Ready(None) => result == Ok::<Async<()>, Idle<M::Resource>>(Async::Ready(())),
            Async::Ready(Some(idle_resource)) => {
                &&& result == Err::<Async<()>, Idle<M::Resource>>(idle_resource)
                &&& after.pool.shelf@.len() == after.pool.capacity
            },
        }
    }

    pub fn new(pool: Shared<M>, receiver: Receiver<Idle<M::Resource>>) -> (librarian: Self)
        ensures
            librarian.pool == pool,
            librarian.inbox.wf(),
            librarian.inbox.receiver() == receiver,
    {
        Self { pool, inbox: Inbox::new(receiver) }
    }

    /// Goes on with what a poll of the receiver came to. A resource is put on the shelf if there is
    /// room for it.
    pub fn receive(&mut self, received: Async<Option<Idle<M::Resource>>>) -> (turnover: Turnover<
        M::Resource,
    >)
        requires
            old(self).pool.wf(),
        ensures
            final(self).pool.wf(),
            final(self).inbox == old(self).inbox,
            match received {
                Async::NotReady => {
                    &&& turnover == Turnover::<M::Resource>::Return(Async::NotReady)
                    &&& Self::shelves(old(self).pool, seq![], final(self).pool)
                },
                Async::Ready(None) => {
                    &&& turnover == Turnover::<M::Resource>::Return(Async::Ready(()))
                    &&& Self::shelves(old(self).pool, seq![], final(self).pool)
                },
                Async::Ready(Some(idle_resource)) => {
                    if old(self).pool.shelf@.len() < old(self).pool.capacity {
                        &&& turnover is Continue
                        &&& Self::shelves(old(self).pool, seq![idle_resource], final(self).pool)
                    } else {
                        &&& turnover == Turnover::Overflow(idle_resource)
                        &&& Self::shelves(old(self).pool, seq![], final(self).pool)
                    }
                },
            },
    {
        match received {
            Async::NotReady => Turnover::Return(Async::NotReady),
            Async::Ready(None) => Turnover::Return(Async::Ready(())),
            Async::Ready(Some(idle_resource)) => {
                proof {
                    self.pool.shelf.lemma_bounded();
                    lemma_add_one(semaphore_state(self.pool.checked_out_count));
                    law_add_permit(semaphore_state(self.pool.checked_out_count));
                    assert(self.pool.shelf@.push(idle_resource) == self.pool.shelf@
                        + seq![idle_resource]);
                }
                match self.pool.shelf.push(idle_resource) {
                    Ok(()) => {
                        add_permits(&mut self.pool.checked_out_count, 1);
                        Turnover::Continue
                    },
                    Err(idle_resource) => Turnover::Overflow(idle_resource),
                }
            },
        }
    }

    /// Puts on the shelf whatever comes in, for as long as something does. Once nobody is left to
    /// send any resources, the librarian is done. If a resource comes in when the shelf is full, it
    /// is handed back as an error.
    pub fn poll(&mut self, context: &mut Context<'_>) -> (result: Result<
        Async<()>,
        Idle<M::Resource>,
    >)
        requires
            old(self).pool.wf(),
            old(self).inbox.wf(),
        ensures
            final(self).pool.wf(),
            final(self).inbox.wf(),
            exists|came: Seq<Async<Option<Idle<M::Resource>>>>|
                #[trigger] Self::polls(*old(self), came, *final(self), result),
    {
        let ghost mut came: Seq<Async<Option<Idle<M::Resource>>>> = seq![];
        proof {
            assert(Self::resources(came) == Seq::<Idle<M::Resource>>::empty());
        }
        loop
            invariant
                self.pool.wf(),
                self.inbox.wf(),
                Inbox::delivers(old(self).inbox.receiver(), came, self.inbox.receiver()),
                forall|i: int|
                    0 <= i < came.len() ==> ((#[trigger] came[i]) matches Async::Ready(Some(_))),
                Self::shelves(old(self).pool, Self::resources(came), self.pool),
            decreases self.pool.capacity - self.pool.shelf@.len(),
        {
            let ghost before = *self;
            let ghost task = *context;
            let received = self.inbox.poll(context);
            let ghost now = came.push(received);
            proof {
                self.pool.shelf.lemma_bounded();
                lemma_add_one(semaphore_state(before.pool.checked_out_count));
                assert(now.drop_last() == came);
                assert(Inbox::comes_of(
                    before.inbox.receiver(),
                    task,
                    now.last(),
                    self.inbox.receiver(),
                ));
                assert(Inbox::delivers(old(self).inbox.receiver(), now, self.inbox.receiver()));
            }
            match self.receive(received) {
                Turnover::Continue => {
                    proof {
                        let idle = now.last()->Ready_0->0;
                        assert(Self::resources(now) == Self::resources(came).push(idle));
                        assert(before.pool.shelf@ + seq![idle] == old(self).pool.shelf@
                            + Self::resources(now));
                        came = now;
                    }
                },
                Turnover::Return(poll) => {
                    assert(Self::polls(*old(self), now, *self, Ok(poll)));
                    return Ok(poll);
                },
                Turnover::Overflow(idle_resource) => {
                    assert(Self::polls(*old(self), now, *self, Err(idle_resource)));
                    return Err(idle_resource);
                },
            }
        }
    }
}

/// The librarian fails if and only if more resources come in than the shelf has room for; what it
/// fails with is the first that is too many, and there is no permit for that one.
pub proof fn law_librarian_fails_for_want_of_room<M: Manage>(
    before: Librarian<M>,
    came: Seq<Async<Option<Idle<M::Resource>>>>,
    after: Librarian<M>,
    result: Result<Async<()>, Idle<M::Resource>>,
)
    requires
        before.pool.wf(),
        after.pool.wf(),
        Librarian::polls(before, came, after, result),
    ensures
        ({
            let count = if came.last() matches Async::Ready(Some(_)) {
                came.len() as int
            } else {
                came.len() - 1
            };
            &&& result is Err <==> before.pool.shelf@.len() + count > before.pool.capacity
            &&& result is Err ==> {
                &&& before.pool.shelf@.len() + count == before.pool.capacity + 1
                &&& came[count - 1] == Async::Ready(Some(result->Err_0))
                &&& semaphore_state(after.pool.checked_out_count).permits() == before.pool.capacity
            }
        }),
{
    after.pool.shelf.lemma_bounded();
}

/// The librarian is done if and only if nobody is left to send any resources, and whatever had come
/// in by then is on the shelf.
pub proof fn law_librarian_exits_with_the_last_sender<M: Manage>(
    before: Librarian<M>,
    came: Seq<Async<Option<Idle<M::Resource>>>>,
    after: Librarian<M>,
    result: Result<Async<()>, Idle<M::Resource>>,
)
    requires
        Librarian::polls(before, came, after, result),
    ensures
        (result matches Ok(Async::Ready(_))) <==> (came.last() matches Async::Ready(None)),
        came.last() matches Async::Ready(None) ==> after.pool.shelf@ == before.pool.shelf@
            + Librarian::<M>::resources(came.drop_last()),
{
}

/// Every resource that comes in, up to the last poll of the inbox, lies on the shelf just as it came,
/// with its time, behind those that were there before and in the order in which they came; and
/// nothing else does.
pub proof fn law_librarian_shelves_what_came<M: Manage>(
    before: Librarian<M>,
    came: Seq<Async<Option<Idle<M::Resource>>>>,
    after: Librarian<M>,
    result: Result<Async<()>, Idle<M::Resource>>,
)
    requires
        Librarian::polls(before, came, after, result),
    ensures
        came.len() > 0,
        after.pool.shelf@.len() == before.pool.shelf@.len() + came.len() - 1,
        forall|i: int|
            0 <= i < before.pool.shelf@.len() ==> #[trigger] after.pool.shelf@[i]
                == before.pool.shelf@[i],
        forall|i: int|
            0 <= i < came.len() - 1 ==> #[trigger] came[i] == Async::Ready(
                Some(after.pool.shelf@[before.pool.shelf@.len() + i]),
            ),
        after.pool.capacity == before.pool.capacity,
        after.pool.created_count == before.pool.created_count,
        after.pool.manager == before.pool.manager,
{
    let n = before.pool.shelf@.len() as int;
    assert forall|i: int| 0 <= i < came.len() - 1 implies #[trigger] came[i] == Async::Ready(
        Some(after.pool.shelf@[n + i]),
    ) by {
        assert(came[i] matches Async::Ready(Some(_)));
        assert(came.drop_last()[i] == came[i]);
    }
}

/// For every resource that the librarian puts on the shelf there is one permit more: for those who
/// wait for one, from the front of the queue, and then for anyone.
pub proof fn law_librarian_serves_those_who_wait<M: Manage>(
    before: Librarian<M>,
    came: Seq<Async<Option<Idle<M::Resource>>>>,
    after: Librarian<M>,
    result: Result<Async<()>, Idle<M::Resource>>,
)
    requires
        Librarian::polls(before, came, after, result),
    ensures
        ({
            let count = semaphore_state(before.pool.checked_out_count);
            let counted = semaphore_state(after.pool.checked_out_count);
            let served = if came.len() - 1 < count.queue.len() {
                came.len() - 1
            } else {
                count.queue.len() as int
            };
            &&& counted.available == count.available + came.len() - 1 - served
            &&& counted.queue == count.queue.subrange(served, count.queue.len() as int)
            &&& forall|ticket: nat| #[trigger]
                counted.assigned.contains(ticket) <==> count.assigned.contains(ticket) || exists|
                    i: int,
                | 0 <= i < served && #[trigger] count.queue[i] == ticket
        }),
{
    law_permits_go_to_the_first(
        semaphore_state(before.pool.checked_out_count),
        (came.len() - 1) as nat,
    );
}

/// What a poll of the librarian comes to is told by the last poll of the inbox: it waits for more if
/// nothing has come yet, and hands back the resource that has come if it is too many.
pub proof fn law_librarian_goes_by_the_last_poll<M: Manage>(
    before: Librarian<M>,
    came: Seq<Async<Option<Idle<M::Resource>>>>,
    after: Librarian<M>,
    result: Result<Async<()>, Idle<M::Resource>>,
)
    requires
        Librarian::polls(before, came, after, result),
    ensures
        (result matches Ok(Async::NotReady)) <==> came[came.len() - 1] is NotReady,
        (result matches Ok(Async::Ready(_))) <==> came[came.len() - 1] == Async::Ready(
            None::<Idle<M::Resource>>,
        ),
        result is Err <==> (came[came.len() - 1] matches Async::Ready(Some(_))),
        came[came.len() - 1] matches Async::Ready(Some(idle)) ==> result == Err::<
            Async<()>,
            Idle<M::Resource>,
        >(idle),
        result is Err ==> after.pool.shelf@.len() == after.pool.capacity,
        Inbox::delivers(before.inbox.receiver(), came, after.inbox.receiver()),
{
}

/// A librarian looks after the pool and polls the receiver that it was made with, and a poll of it is
/// one of those of which the other laws speak.
pub proof fn law_librarian_polls_its_receiver<M: Manage>(
    pool: Shared<M>,
    receiver: Receiver<Idle<M::Resource>>,
    new: Librarian<M>,
    librarian: &mut Librarian<M>,
    context: &mut Context<'_>,
    result: Result<Async<()>, Idle<M::Resource>>,
)
    requires
        call_ensures(Librarian::<M>::new, (pool, receiver), new),
        call_ensures(Librarian::<M>::poll, (librarian, context), result),
    ensures
        new.pool == pool,
        new.inbox.receiver() == receiver,
        new.inbox.wf(),
        final(librarian).pool.wf(),
        final(librarian).inbox.wf(),
        exists|came: Seq<Async<Option<Idle<M::Resource>>>>| #[trigger]
            Librarian::polls(*old(librarian), came, *final(librarian), result),
{
}

/// One resource that has come is put on the shelf, as it came, if there is room, and one permit with
/// it; if there is none, it is handed back, and nothing changes. Nothing changes either when nothing
/// has come.
pub proof fn law_librarian_receives_one_at_a_time<M: Manage>(
    librarian: &mut Librarian<M>,
    received: Async<Option<Idle<M::Resource>>>,
    turnover: Turnover<M::Resource>,
)
    requires
        call_ensures(Librarian::<M>::receive, (librarian, received), turnover),
    ensures
        final(librarian).pool.wf(),
        final(librarian).inbox == old(librarian).inbox,
        final(librarian).pool.capacity == old(librarian).pool.capacity,
        final(librarian).pool.created_count == old(librarian).pool.created_count,
        final(librarian).pool.manager == old(librarian).pool.manager,
        received is NotReady ==> turnover == Turnover::<M::Resource>::Return(Async::NotReady),
        received == Async::Ready(None::<Idle<M::Resource>>) ==> turnover == Turnover::<
            M::Resource,
        >::Return(Async::Ready(())),
        received matches Async::Ready(Some(idle)) ==> {
            if old(librarian).pool.shelf@.len() < old(librarian).pool.capacity {
                &&& turnover is Continue
                &&& final(librarian).pool.shelf@.len() == old(librarian).pool.shelf@.len() + 1
                &&& final(librarian).pool.shelf@.last() == idle
                &&& final(librarian).pool.shelf@.drop_last() == old(librarian).pool.shelf@
                &&& semaphore_state(final(librarian).pool.checked_out_count) == semaphore_state(
                    old(librarian).pool.checked_out_count,
                ).add_permit()
            } else {
                turnover == Turnover::Overflow(idle)
            }
        },
        !(turnover is Continue) ==> {
            &&& final(librarian).pool.shelf@ == old(librarian).pool.shelf@
            &&& semaphore_state(final(librarian).pool.checked_out_count) == semaphore_state(
                old(librarian).pool.checked_out_count,
            )
        },
{
    lemma_add_one(semaphore_state(old(librarian).pool.checked_out_count));
}

/// The pool of a librarian starts out empty, with nothing to take.
pub proof fn law_pool_of_a_librarian_starts_empty<M: Manage>(
    capacity: usize,
    manager: M,
    pool: Shared<M>,
)
    requires
        call_ensures(Shared::<M>::new, (capacity, manager), pool),
    ensures
        pool.wf(),
        pool.capacity == capacity,
        pool.manager == manager,
        pool.created_count == 0,
        pool.shelf@.len() == 0,
        semaphore_state(pool.checked_out_count).available == 0,
        semaphore_state(pool.checked_out_count).queue.len() == 0,
        forall|ticket: nat| !#[trigger] semaphore_state(
            pool.checked_out_count,
        ).assigned.contains(ticket),
{
}

/// A librarian can be polled while its pool is in order, whatever its receiver comes to.
pub proof fn law_librarian_can_be_polled<M: Manage>(
    librarian: &mut Librarian<M>,
    context: &mut Context<'_>,
    received: Async<Option<Idle<M::Resource>>>,
)
    requires
        old(librarian).pool.wf(),
        old(librarian).inbox.wf(),
    ensures
        call_requires(Librarian::<M>::poll, (librarian, context)),
        call_requires(Librarian::<M>::receive, (librarian, received)),
{
}

} // verus!

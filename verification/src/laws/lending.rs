//! What becomes of a resource that is lent.
use std::future::Future;

use vstd::prelude::*;

use crate::machine::Async;
use crate::pool::{CheckOut, LentCheckOut, Shared};
use crate::resource::Manage;

verus! {

/// To lend a resource is to hand it to the borrower, whose computation is what is polled then. The
/// loan remembers when the resource was last created or recycled.
pub proof fn law_lent_to_the_borrower<M, F, T, B, E>(
    check_out: CheckOut<M>,
    borrower: B,
    lent: LentCheckOut<M, F, T, E>,
) where
    M: Manage,
    B: FnOnce(M::Resource) -> F,
    F: Future<Output = Result<(M::Resource, T), E>>,

    requires
        call_ensures(CheckOut::<M>::lend::<F, T, B, E>, (check_out, borrower), lent),
    ensures
        call_ensures(borrower, (check_out.resource,), lent.future()),
        lent.recycled_at() == check_out.recycled_at,
        lent.is_lent(),
{
}

/// A resource that the computation gives back is checked out again as the computation left it, with
/// the time that it was lent with; from then on the loan is over, and ending it costs the pool
/// nothing.
pub proof fn law_lent_resource_comes_back<M, F, T, E>(
    lent: &mut LentCheckOut<M, F, T, E>,
    resource: M::Resource,
    t: T,
    result: Async<Result<(CheckOut<M>, T), E>>,
    returned: &mut LentCheckOut<M, F, T, E>,
    shared: &mut Shared<M>,
) where M: Manage, F: Future<Output = Result<(M::Resource, T), E>>
    requires
        call_ensures(
            LentCheckOut::<M, F, T, E>::poll,
            (lent, Async::Ready(Ok((resource, t)))),
            result,
        ),
        *old(returned) == *final(lent),
        call_ensures(LentCheckOut::<M, F, T, E>::end, (returned, shared), ()),
    ensures
        result matches Async::Ready(Ok((check_out, u))) && {
            &&& check_out.resource == resource
            &&& check_out.recycled_at == old(lent).recycled_at()
            &&& u == t
        },
        !final(lent).is_lent(),
        final(shared)@ == old(shared)@,
{
}

/// A computation that has not come to its end, or that has ended with an error, leaves the resource
/// lent; the error is passed on. If the loan ends like that, the resource is lost, once and not
/// again.
pub proof fn law_lent_resource_is_lost<M, F, T, E>(
    lent: &mut LentCheckOut<M, F, T, E>,
    polled: Async<Result<(M::Resource, T), E>>,
    result: Async<Result<(CheckOut<M>, T), E>>,
    kept: &mut LentCheckOut<M, F, T, E>,
    shared: &mut Shared<M>,
    ended: &mut LentCheckOut<M, F, T, E>,
    again: &mut Shared<M>,
) where M: Manage, F: Future<Output = Result<(M::Resource, T), E>>
    requires
        old(lent).is_lent(),
        call_ensures(LentCheckOut::<M, F, T, E>::poll, (lent, polled), result),
        !(polled matches Async::Ready(Ok(_))),
        *old(kept) == *final(lent),
        call_ensures(LentCheckOut::<M, F, T, E>::end, (kept, shared), ()),
        *old(ended) == *final(kept),
        call_ensures(LentCheckOut::<M, F, T, E>::end, (ended, again), ()),
    ensures
        polled is NotReady ==> result is NotReady,
        polled matches Async::Ready(Err(error)) ==> result == Async::Ready(
            Err::<(CheckOut<M>, T), E>(error),
        ),
        final(lent).is_lent(),
        final(lent).future() == old(lent).future(),
        final(lent).recycled_at() == old(lent).recycled_at(),
        final(shared)@ == old(shared)@.lose(),
        final(again)@ == old(again)@,
{
}

/// The computation that is polled is the one that the resource was lent to, and polling it changes
/// nothing else about the loan.
pub proof fn law_inner_is_the_computation<M, F, T, E>(
    lent: &mut LentCheckOut<M, F, T, E>,
    inner: &mut F,
) where M: Manage, F: Future<Output = Result<(M::Resource, T), E>>
    requires
        call_ensures(LentCheckOut::<M, F, T, E>::inner, (lent,), inner),
    ensures
        *old(inner) == old(lent).future(),
        *final(inner) == final(lent).future(),
        final(lent).recycled_at() == old(lent).recycled_at(),
        final(lent).is_lent() == old(lent).is_lent(),
{
}

/// What is read and changed through a check-out is its resource, and not the time that belongs to
/// it.
pub proof fn law_check_out_gives_access_to_its_resource<M: Manage>(
    check_out: &CheckOut<M>,
    read: &M::Resource,
    changed: &mut CheckOut<M>,
    resource: &mut M::Resource,
)
    requires
        call_ensures(CheckOut::<M>::deref, (check_out,), read),
        call_ensures(CheckOut::<M>::deref_mut, (changed,), resource),
    ensures
        *read == check_out.resource,
        *old(resource) == old(changed).resource,
        *final(resource) == final(changed).resource,
        final(changed).recycled_at == old(changed).recycled_at,
{
}

} // verus!

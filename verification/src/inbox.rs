//! The inbox of the librarian: the channel that resources come in through.
use std::pin::Pin;
use std::task::{Context, Poll};

use futures::channel::mpsc::Receiver;
use futures::stream::Stream;
use vstd::prelude::*;

use crate::machine::Async;
use crate::resource::Idle;

verus! {

/// `futures::channel::mpsc::Receiver`.
#[verifier::external_type_specification]
#[verifier::external_body]
#[verifier::reject_recursive_types(T)]
pub struct ExReceiver<T>(Receiver<T>);

/// `Stream::poll_next` of a `futures::channel::mpsc::Receiver`: the next resource that was sent, if
/// one has come, or `None` once nobody is left to send any; and the receiver as the poll leaves it.
/// What comes is up to those who send, so the contract promises nothing of it. When nothing has come
/// yet, the task of `context` is woken once something does.
#[verifier::external_body]
fn poll_receiver<R: Send>(receiver: Receiver<Idle<R>>, context: &mut Context<'_>) -> (polled: (
    Async<Option<Idle<R>>>,
    Receiver<Idle<R>>,
)) {
    let mut receiver = receiver;
    match Pin::new(&mut receiver).poll_next(context) {
        Poll::Ready(received) => (Async::Ready(received), receiver),
        Poll::Pending => (Async::NotReady, receiver),
    }
}

/// The receiving end of a channel, which is polled for resources.
#[verifier::reject_recursive_types(R)]
pub struct Inbox<R>
where
    R: Send,
{
    receiver: Option<Receiver<Idle<R>>>,
}

impl<R> Inbox<R>
where
    R: Send,
{
    /// The receiver is in its place.
    pub closed spec fn wf(&self) -> bool {
        self.receiver is Some
    }

    /// The receiver, as its last poll has left it.
    pub closed spec fn receiver(&self) -> Receiver<Idle<R>> {
        self.receiver->0
    }

    /// A poll of the receiver `before`, for the task of `context`, came to `received` and left the
    /// receiver as `after`.
    pub closed spec fn comes_of(
        before: Receiver<Idle<R>>,
        context: Context<'_>,
        received: Async<Option<Idle<R>>>,
        after: Receiver<Idle<R>>,
    ) -> bool {
        exists|cx: &mut Context<'_>|
            {
                &&& #[trigger] call_ensures(poll_receiver::<R>, (before, cx), (received, after))
                &&& *cx == context
            }
    }

    /// Polls of the receiver, one after the other, came to `came`: the first was of the receiver
    /// `before`, each other of what the one in front of it had left, and the last has left `after`.
    pub open spec fn delivers(
        before: Receiver<Idle<R>>,
        came: Seq<Async<Option<Idle<R>>>>,
        after: Receiver<Idle<R>>,
    ) -> bool
        decreases came.len(),
    {
        if came.len() == 0 {
            before == after
        } else {
            exists|middle: Receiver<Idle<R>>, context: Context<'_>|
                {
                    &&& Self::delivers(before, came.drop_last(), middle)
                    &&& #[trigger] Self::comes_of(middle, context, came.last(), after)
                }
        }
    }

    /// An inbox with the given receiver.
    pub fn new(receiver: Receiver<Idle<R>>) -> (inbox: Self)
        ensures
            inbox.wf(),
            inbox.receiver() == receiver,
    {
        Self { receiver: Some(receiver) }
    }

    /// Polls the receiver once: a resource, nothing yet, or `None` once nobody is left to send any.
    pub fn poll(&mut self, context: &mut Context<'_>) -> (received: Async<Option<Idle<R>>>)
        requires
            old(self).wf(),
        ensures
            final(self).wf(),
            Self::comes_of(
                old(self).receiver(),
                *old(context),
                received,
                final(self).receiver(),
            ),
    {
        let receiver = self.receiver.take().unwrap();
        let (received, receiver) = poll_receiver(receiver, context);
        self.receiver = Some(receiver);
        received
    }
}

/// What comes of a poll of the inbox is what comes of a poll of its receiver, for the same task, and
/// the inbox keeps the receiver as that poll leaves it.
proof fn law_poll_of_the_inbox_is_one_of_its_receiver<R: Send>(
    receiver: Receiver<Idle<R>>,
    new: Inbox<R>,
    inbox: &mut Inbox<R>,
    context: &mut Context<'_>,
    received: Async<Option<Idle<R>>>,
)
    requires
        call_ensures(Inbox::<R>::new, (receiver,), new),
        call_ensures(Inbox::<R>::poll, (inbox, context), received),
    ensures
        new.wf() && new.receiver() == receiver,
        final(inbox).wf(),
        exists|cx: &mut Context<'_>|
            {
                &&& *cx == *old(context)
                &&& #[trigger] call_ensures(
                    poll_receiver::<R>,
                    (old(inbox).receiver(), cx),
                    (received, final(inbox).receiver()),
                )
            },
{
}

/// One delivery is one poll, and no delivery leaves the receiver as it is.
pub proof fn law_delivery_is_a_poll<R: Send>(
    before: Receiver<Idle<R>>,
    received: Async<Option<Idle<R>>>,
    after: Receiver<Idle<R>>,
)
    ensures
        Inbox::delivers(before, seq![], after) <==> before == after,
        Inbox::delivers(before, seq![received], after) <==> exists|context: Context<'_>| #[trigger]
            Inbox::comes_of(before, context, received, after),
{
    reveal_with_fuel(Inbox::delivers, 2);
    assert(seq![received].drop_last() =~= seq![]);
    assert(seq![received].last() == received);
}

/// Deliveries that follow one another are one delivery, and one can be told in two parts.
pub proof fn law_deliveries_add_up<R: Send>(
    before: Receiver<Idle<R>>,
    first: Seq<Async<Option<Idle<R>>>>,
    second: Seq<Async<Option<Idle<R>>>>,
    after: Receiver<Idle<R>>,
)
    ensures
        Inbox::delivers(before, first + second, after) <==> exists|middle: Receiver<Idle<R>>|
            #[trigger] Inbox::delivers(before, first, middle) && Inbox::delivers(
                middle,
                second,
                after,
            ),
    decreases second.len(),
{
    if second.len() == 0 {
        assert(first + second =~= first);
        if Inbox::delivers(before, first, after) {
            assert(Inbox::delivers(before, first, after) && Inbox::delivers(after, second, after));
        }
    } else {
        let both = first + second;
        let rest = second.drop_last();
        assert(both.drop_last() =~= first + rest);
        assert(both.last() == second.last());
        if Inbox::delivers(before, both, after) {
            let (late, context) = choose|late: Receiver<Idle<R>>, context: Context<'_>|
                {
                    &&& Inbox::delivers(before, both.drop_last(), late)
                    &&& #[trigger] Inbox::comes_of(late, context, both.last(), after)
                };
            law_deliveries_add_up(before, first, rest, late);
            let middle = choose|middle: Receiver<Idle<R>>| #[trigger]
                Inbox::delivers(before, first, middle) && Inbox::delivers(middle, rest, late);
            assert(Inbox::comes_of(late, context, second.last(), after));
            assert(Inbox::delivers(middle, second, after));
        }
        if exists|middle: Receiver<Idle<R>>| #[trigger]
            Inbox::delivers(before, first, middle) && Inbox::delivers(middle, second, after) {
            let middle = choose|middle: Receiver<Idle<R>>| #[trigger]
                Inbox::delivers(before, first, middle) && Inbox::delivers(middle, second, after);
            let (late, context) = choose|late: Receiver<Idle<R>>, context: Context<'_>|
                {
                    &&& Inbox::delivers(middle, rest, late)
                    &&& #[trigger] Inbox::comes_of(late, context, second.last(), after)
                };
            law_deliveries_add_up(before, first, rest, late);
            assert(Inbox::comes_of(late, context, both.last(), after));
        }
    }
}

} // verus!

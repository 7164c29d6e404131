//! A counting semaphore, and the wait for one of its permits.
use std::task::{Context, Poll};

use tokio_sync::semaphore::{AcquireError, Permit, Semaphore, TryAcquireError};
use vstd::prelude::*;

use crate::machine::Async;

verus! {

/// The most permits that a semaphore can hold.
pub const MAX_PERMITS: usize = usize::MAX / 4;

/// What a semaphore holds. Each wait for a permit has a ticket.
#[verifier::ext_equal]
pub struct SemaphoreState {
    /// Tells the semaphore from others.
    pub id: int,
    /// The number of permits that are there for anyone to take.
    pub available: nat,
    /// The waits for which a permit is set aside that was not yet taken.
    pub assigned: Set<nat>,
    /// The waits for which no permit is set aside, the one to be served next first.
    pub queue: Seq<nat>,
    /// The ticket of the next wait.
    pub next: nat,
    /// Whether the semaphore was closed.
    pub closed: bool,
}

/// Where a permit stands.
pub enum PermitState {
    /// Nobody has asked for it.
    Idle,
    /// It is waited for at the semaphore `home`.
    Waiting { home: int, ticket: nat },
    /// It was taken.
    Acquired,
    /// The wait for it was ended. It is of no more use.
    Spent,
}

impl SemaphoreState {
    /// The semaphore is open, no two waits have the same ticket, and while there is a permit for
    /// anyone, nobody is in the queue.
    pub open spec fn wf(self) -> bool {
        &&& !self.closed
        &&& self.available > 0 ==> self.queue.len() == 0
        &&& self.assigned.finite()
        &&& self.queue.no_duplicates()
        &&& forall|ticket: nat| #[trigger]
            self.assigned.contains(ticket) ==> ticket < self.next && !self.queue.contains(ticket)
        &&& forall|ticket: nat| #[trigger] self.queue.contains(ticket) ==> ticket < self.next
    }

    /// The permits that were put into the semaphore and not yet taken out of it.
    pub open spec fn permits(self) -> nat {
        self.available + self.assigned.len()
    }

    /// The wait with this ticket has not come to its end.
    pub open spec fn has_wait(self, ticket: nat) -> bool {
        self.assigned.contains(ticket) || self.queue.contains(ticket)
    }

    /// The semaphore after one permit was put into it: it is set aside for the first in the queue,
    /// or, if nobody is in the queue, there for anyone.
    pub open spec fn add_permit(self) -> SemaphoreState {
        if self.queue.len() > 0 {
            SemaphoreState {
                assigned: self.assigned.insert(self.queue.first()),
                queue: self.queue.drop_first(),
                ..self
            }
        } else {
            SemaphoreState { available: self.available + 1, ..self }
        }
    }

    /// The semaphore after `n` permits were put into it.
    pub open spec fn add_permits(self, n: nat) -> SemaphoreState
        decreases n,
    {
        if n == 0 {
            self
        } else {
            self.add_permits((n - 1) as nat).add_permit()
        }
    }

    /// The semaphore after one of the permits that are there for anyone was taken.
    pub open spec fn take_available(self) -> SemaphoreState {
        SemaphoreState { available: (self.available - 1) as nat, ..self }
    }

    /// The semaphore after the permit was taken that was set aside for a wait.
    pub open spec fn take_assigned(self, ticket: nat) -> SemaphoreState {
        SemaphoreState { assigned: self.assigned.remove(ticket), ..self }
    }

    /// The semaphore with one more wait.
    pub open spec fn enqueue(self) -> SemaphoreState {
        SemaphoreState { queue: self.queue.push(self.next), next: self.next + 1, ..self }
    }

    /// The semaphore after a wait has come to its end without a permit. If one was set aside for
    /// it, it goes to the first in the queue, or to anyone.
    pub open spec fn leave(self, ticket: nat) -> SemaphoreState {
        if self.assigned.contains(ticket) {
            self.take_assigned(ticket).add_permit()
        } else {
            SemaphoreState { queue: self.queue.remove(self.queue.index_of(ticket)), ..self }
        }
    }

    /// Nobody has asked for the permit, or it is waited for here.
    pub open spec fn serves(self, permit: PermitState) -> bool {
        match permit {
            PermitState::Idle => true,
            PermitState::Waiting { home, ticket } => home == self.id && self.has_wait(ticket),
            PermitState::Acquired | PermitState::Spent => false,
        }
    }

    /// Whether a poll of the permit takes it. One that nobody has asked for is taken if there is one
    /// for anyone, and one that is waited for if it was set aside.
    pub open spec fn grants(self, permit: PermitState) -> bool {
        match permit {
            PermitState::Waiting { ticket, .. } => self.assigned.contains(ticket),
            _ => self.available > 0,
        }
    }

    /// The semaphore after a poll of the permit. If it cannot be taken, it is waited for.
    pub open spec fn poll(self, permit: PermitState) -> SemaphoreState {
        match permit {
            PermitState::Waiting { ticket, .. } => if self.grants(permit) {
                self.take_assigned(ticket)
            } else {
                self
            },
            _ => if self.grants(permit) {
                self.take_available()
            } else {
                self.enqueue()
            },
        }
    }

    /// The permit after a poll of it.
    pub open spec fn polled(self, permit: PermitState) -> PermitState {
        if self.grants(permit) {
            PermitState::Acquired
        } else if permit is Waiting {
            permit
        } else {
            PermitState::Waiting { home: self.id, ticket: self.next }
        }
    }

    /// The semaphore after the permit was released.
    pub open spec fn release(self, permit: PermitState) -> SemaphoreState {
        match permit {
            PermitState::Waiting { ticket, .. } => self.leave(ticket),
            _ => self,
        }
    }

    /// The semaphore after a poll of the permit that did not take it, and the end of the wait for
    /// it right after.
    pub open spec fn pass(self, permit: PermitState) -> SemaphoreState {
        match permit {
            PermitState::Waiting { ticket, .. } => self.leave(ticket),
            _ => SemaphoreState { next: self.next + 1, ..self },
        }
    }
}

/// `tokio_sync::semaphore::Semaphore`.
#[verifier::external_type_specification]
#[verifier::external_body]
pub struct ExSemaphore(Semaphore);

/// `tokio_sync::semaphore::Permit`.
#[verifier::external_type_specification]
#[verifier::external_body]
pub struct ExPermit(Permit);

/// `tokio_sync::semaphore::AcquireError`.
#[verifier::external_type_specification]
#[verifier::external_body]
pub struct ExAcquireError(AcquireError);

/// `tokio_sync::semaphore::TryAcquireError`.
#[verifier::external_type_specification]
#[verifier::external_body]
pub struct ExTryAcquireError(TryAcquireError);

/// `std::task::Context`.
#[verifier::external_type_specification]
#[verifier::external_body]
pub struct ExContext<'a>(Context<'a>);

/// What a `tokio_sync::semaphore::Semaphore` holds.
///
/// A permit that is set aside for a wait counts as held until it is taken or the wait ends.
/// Whatever adds, takes or waits for a permit has the semaphore to itself meanwhile.
pub uninterp spec fn semaphore_state(semaphore: Semaphore) -> SemaphoreState;

/// Where a `tokio_sync::semaphore::Permit` stands.
pub uninterp spec fn permit_state(permit: Permit) -> PermitState;

/// `Semaphore::new` makes an open semaphore with the given permits, at which nobody waits. It
/// panics on more than [`MAX_PERMITS`].
pub assume_specification[ Semaphore::new ](permits: usize) -> (semaphore: Semaphore)
    requires
        permits <= MAX_PERMITS,
    ensures
        semaphore_state(semaphore).available == permits,
        semaphore_state(semaphore).assigned == Set::<nat>::empty(),
        semaphore_state(semaphore).queue == Seq::<nat>::empty(),
        !semaphore_state(semaphore).closed,
;

/// `Permit::new` makes a permit that nobody has asked for.
pub assume_specification[ Permit::new ]() -> (permit: Permit)
    ensures
        permit_state(permit) is Idle,
;

/// `Permit::forget` gives up a permit that was taken, and the semaphore does not get it back. The
/// permit can be asked for anew.
pub assume_specification[ Permit::forget ](permit: &mut Permit)
    requires
        permit_state(*old(permit)) is Acquired,
    ensures
        permit_state(*final(permit)) is Idle,
;

/// `Semaphore::add_permits` on an open semaphore: each new permit is set aside for the wait that is
/// the first in the queue by then, or there for anyone if there is none. The tasks of the waits
/// that are served are woken, of which the contract does not speak. It does not say what happens
/// beyond [`MAX_PERMITS`], where the count overflows.
#[verifier::external_body]
pub(crate) fn add_permits(semaphore: &mut Semaphore, n: usize)
    requires
        !semaphore_state(*old(semaphore)).closed,
        semaphore_state(*old(semaphore)).permits() + n <= MAX_PERMITS,
    ensures
        semaphore_state(*final(semaphore)) == semaphore_state(*old(semaphore)).add_permits(
            n as nat,
        ),
{
    semaphore.add_permits(n)
}

/// `Permit::try_acquire` on an open semaphore takes a permit that is there for anyone, and fails if
/// there is none.
#[verifier::external_body]
pub(crate) fn try_acquire(permit: &mut Permit, semaphore: &mut Semaphore) -> (result: Result<
    (),
    TryAcquireError,
>)
    requires
        permit_state(*old(permit)) is Idle,
        !semaphore_state(*old(semaphore)).closed,
    ensures
        result is Ok <==> semaphore_state(*old(semaphore)).available > 0,
        permit_state(*final(permit)) == if result is Ok {
            PermitState::Acquired
        } else {
            PermitState::Idle
        },
        semaphore_state(*final(semaphore)) == if result is Ok {
            semaphore_state(*old(semaphore)).take_available()
        } else {
            semaphore_state(*old(semaphore))
        },
{
    permit.try_acquire(semaphore)
}

/// `Permit::poll_acquire` on an open semaphore. A permit that nobody has asked for is taken if there
/// is one for anyone, and is waited for at the end of the queue otherwise. A permit that is waited
/// for is taken once it was set aside. The task of `context` is woken when that happens, of which
/// the contract does not speak.
#[verifier::external_body]
pub(crate) fn poll_acquire(
    permit: &mut Permit,
    context: &mut Context<'_>,
    semaphore: &mut Semaphore,
) -> (result: Async<Result<(), AcquireError>>)
    requires
        semaphore_state(*old(semaphore)).serves(permit_state(*old(permit))),
        !semaphore_state(*old(semaphore)).closed,
    ensures
        result == if semaphore_state(*old(semaphore)).grants(permit_state(*old(permit))) {
            Async::Ready(Ok::<(), AcquireError>(()))
        } else {
            Async::NotReady
        },
        semaphore_state(*final(semaphore)) == semaphore_state(*old(semaphore)).poll(
            permit_state(*old(permit)),
        ),
        permit_state(*final(permit)) == semaphore_state(*old(semaphore)).polled(
            permit_state(*old(permit)),
        ),
{
    match permit.poll_acquire(context, semaphore) {
        Poll::Ready(result) => Async::Ready(result),
        Poll::Pending => Async::NotReady,
    }
}

/// `Permit::release`, on an open semaphore, of a permit that was not taken. If it is waited for,
/// the wait ends, and if it was set aside, it is put back into the semaphore.
#[verifier::external_body]
pub(crate) fn release(permit: &mut Permit, semaphore: &mut Semaphore)
    requires
        semaphore_state(*old(semaphore)).serves(permit_state(*old(permit))),
        !semaphore_state(*old(semaphore)).closed,
        semaphore_state(*old(semaphore)).permits() <= MAX_PERMITS,
    ensures
        permit_state(*final(permit)) == if permit_state(*old(permit)) is Waiting {
            PermitState::Spent
        } else {
            PermitState::Idle
        },
        semaphore_state(*final(semaphore)) == semaphore_state(*old(semaphore)).release(
            permit_state(*old(permit)),
        ),
{
    permit.release(semaphore)
}

/// Adding one permit, spelled out.
pub(crate) proof fn lemma_add_one(state: SemaphoreState)
    ensures
        state.add_permits(1) == state.add_permit(),
{
    reveal_with_fuel(SemaphoreState::add_permits, 2);
}

/// A permit that is put into a semaphore is set aside for the first in the queue, and the others move
/// up; if there is nobody, it is there for anyone. Nothing else changes.
pub proof fn law_permit_goes_to_the_first(state: SemaphoreState)
    ensures
        ({
            let after = state.add_permit();
            &&& after.id == state.id && after.next == state.next && after.closed == state.closed
            &&& if state.queue.len() > 0 {
                &&& after.available == state.available
                &&& after.assigned == state.assigned.insert(state.queue[0])
                &&& seq![state.queue[0]] + after.queue == state.queue
            } else {
                &&& after.available == state.available + 1
                &&& after.assigned == state.assigned
                &&& after.queue == state.queue
            }
        }),
{
}

/// A poll of a permit takes it if there is one: for one that nobody has asked for, one that is there
/// for anyone, and for one that is waited for, the one that was set aside, whatever else is there. If
/// there is none, a wait begins at the end of the queue, with the next ticket, or the wait goes on and
/// nothing changes.
pub proof fn law_poll_takes_or_waits(state: SemaphoreState, permit: PermitState)
    requires
        permit is Idle || permit is Waiting,
    ensures
        ({
            let after = state.poll(permit);
            &&& after.id == state.id && after.closed == state.closed
            &&& match permit {
                PermitState::Waiting { ticket, .. } => {
                    if state.assigned.contains(ticket) {
                        &&& state.grants(permit)
                        &&& state.polled(permit) is Acquired
                        &&& after.assigned == state.assigned.remove(ticket)
                        &&& after.available == state.available
                        &&& after.queue == state.queue
                        &&& after.next == state.next
                    } else {
                        &&& !state.grants(permit)
                        &&& state.polled(permit) == permit
                        &&& after == state
                    }
                },
                _ => {
                    if state.available > 0 {
                        &&& state.grants(permit)
                        &&& state.polled(permit) is Acquired
                        &&& after.available + 1 == state.available
                        &&& after.assigned == state.assigned
                        &&& after.queue == state.queue
                        &&& after.next == state.next
                    } else {
                        &&& !state.grants(permit)
                        &&& state.polled(permit) == PermitState::Waiting {
                            home: state.id,
                            ticket: state.next,
                        }
                        &&& after.available == 0
                        &&& after.assigned == state.assigned
                        &&& after.queue == state.queue + seq![state.next]
                        &&& after.next == state.next + 1
                    }
                },
            }
        }),
{
    assert(state.queue.push(state.next) == state.queue + seq![state.next]);
}

/// A permit that is released without having been taken goes on to the first in the queue, or to
/// anyone, if it was set aside; the others in the queue move up and keep their order if it was waited
/// for; and nothing changes if nobody has asked for it.
pub proof fn law_released_permit_goes_on(state: SemaphoreState, permit: PermitState)
    requires
        state.serves(permit),
    ensures
        permit is Idle ==> state.release(permit) == state,
        permit matches PermitState::Waiting { ticket, .. } ==> {
            let after = state.release(permit);
            &&& after.id == state.id && after.next == state.next && after.closed == state.closed
            &&& if state.assigned.contains(ticket) && state.queue.len() > 0 {
                &&& after.available == state.available
                &&& after.assigned == state.assigned.remove(ticket).insert(state.queue[0])
                &&& seq![state.queue[0]] + after.queue == state.queue
            } else if state.assigned.contains(ticket) {
                &&& after.available == state.available + 1
                &&& after.assigned == state.assigned.remove(ticket)
                &&& after.queue == state.queue
            } else {
                &&& after.available == state.available
                &&& after.assigned == state.assigned
                &&& exists|k: int|
                    {
                        &&& 0 <= k < state.queue.len()
                        &&& #[trigger] state.queue[k] == ticket
                        &&& after.queue == state.queue.subrange(0, k) + state.queue.subrange(
                            k + 1,
                            state.queue.len() as int,
                        )
                    }
            }
        },
{
    if let PermitState::Waiting { ticket, .. } = permit {
        if !state.assigned.contains(ticket) {
            let k = state.queue.index_of(ticket);
            assert(state.queue[k] == ticket);
            assert(state.release(permit).queue == state.queue.subrange(0, k)
                + state.queue.subrange(k + 1, state.queue.len() as int));
        }
    }
}

/// A semaphore is in order if and only if it is open, nobody is in the queue while there is a permit
/// for anyone, and every ticket that was given out stands for one wait at most: once in the queue, or
/// with a permit set aside. It serves the permits that nobody has asked for and those of its waits.
pub proof fn law_order_of_a_semaphore(state: SemaphoreState, permit: PermitState)
    ensures
        state.wf() <==> {
            &&& !state.closed
            &&& state.available == 0 || state.queue.len() == 0
            &&& state.assigned.finite()
            &&& forall|i: int, j: int|
                0 <= i < j < state.queue.len() ==> #[trigger] state.queue[i]
                    != #[trigger] state.queue[j]
            &&& forall|i: int|
                0 <= i < state.queue.len() ==> (#[trigger] state.queue[i]) < state.next
                    && !state.assigned.contains(state.queue[i])
            &&& forall|ticket: nat| #[trigger]
                state.assigned.contains(ticket) ==> ticket < state.next
        },
        state.permits() == state.available + state.assigned.len(),
        state.serves(permit) <==> permit is Idle || (permit matches PermitState::Waiting {
            home,
            ticket,
        } && home == state.id && (state.assigned.contains(ticket) || state.queue.contains(
            ticket,
        ))),
{
    if state.wf() {
        assert forall|i: int| 0 <= i < state.queue.len() implies (#[trigger] state.queue[i])
            < state.next && !state.assigned.contains(state.queue[i]) by {
            assert(state.queue.contains(state.queue[i]));
        }
    }
}

/// One permit more is one permit more, and no wait begins or ends with it.
pub proof fn law_add_permit(state: SemaphoreState)
    requires
        state.wf(),
    ensures
        state.add_permit().wf(),
        state.add_permit().permits() == state.permits() + 1,
        forall|ticket: nat| #[trigger]
            state.add_permit().has_wait(ticket) <==> state.has_wait(ticket),
{
    let after = state.add_permit();
    if state.queue.len() > 0 {
        let first = state.queue.first();
        assert(state.queue.contains(first));
        assert forall|ticket: nat| #[trigger] state.queue.contains(ticket) implies ticket == first
            || after.queue.contains(ticket) by {
            let i = choose|i: int| 0 <= i < state.queue.len() && state.queue[i] == ticket;
            if i > 0 {
                assert(after.queue[i - 1] == ticket);
            }
        }
        assert forall|ticket: nat| #[trigger] after.queue.contains(ticket) implies ticket != first
            && state.queue.contains(ticket) by {
            let i = choose|i: int| 0 <= i < after.queue.len() && after.queue[i] == ticket;
            assert(state.queue[i + 1] == ticket);
        }
    }
}

/// A poll takes one permit if it takes the permit, and none otherwise. The wait that it polls ends
/// or goes on, or one begins, and no other wait is touched.
pub proof fn law_poll(state: SemaphoreState, permit: PermitState)
    requires
        state.wf(),
        state.serves(permit),
    ensures
        state.poll(permit).wf(),
        state.poll(permit).permits() == state.permits() - (if state.grants(permit) {
            1int
        } else {
            0
        }),
        state.poll(permit).id == state.id,
        !state.grants(permit) ==> state.poll(permit).serves(state.polled(permit)),
        forall|ticket: nat|
            state.has_wait(ticket) && !(permit matches PermitState::Waiting { ticket: own, .. }
                && own == ticket) ==> #[trigger] state.poll(permit).has_wait(ticket),
{
    let after = state.poll(permit);
    if permit is Idle && !state.grants(permit) {
        assert forall|ticket: nat| #[trigger] state.queue.contains(ticket) implies
            after.queue.contains(ticket) by {
            let i = choose|i: int| 0 <= i < state.queue.len() && state.queue[i] == ticket;
            assert(after.queue[i] == ticket);
        }
        assert(after.queue.last() == state.next);
        assert(after.queue.contains(state.next));
        assert forall|ticket: nat| #[trigger] after.queue.contains(ticket) implies ticket
            == state.next || state.queue.contains(ticket) by {
            let i = choose|i: int| 0 <= i < after.queue.len() && after.queue[i] == ticket;
            if i < state.queue.len() {
                assert(state.queue[i] == ticket);
            }
        }
        assert forall|i: int, j: int|
            0 <= i < after.queue.len() && 0 <= j < after.queue.len() && i
                != j implies after.queue[i] != after.queue[j] by {
            assert(i < state.queue.len() ==> state.queue.contains(after.queue[i]));
            assert(j < state.queue.len() ==> state.queue.contains(after.queue[j]));
        }
    }
}

/// A permit that is released without having been taken leaves all permits where they are. The wait
/// for it ends, and no other wait is touched.
pub proof fn law_release(state: SemaphoreState, permit: PermitState)
    requires
        state.wf(),
        state.serves(permit),
    ensures
        state.release(permit).wf(),
        state.release(permit).permits() == state.permits(),
        state.release(permit).id == state.id,
        permit matches PermitState::Waiting { ticket, .. } ==> !state.release(permit).has_wait(
            ticket,
        ),
        forall|ticket: nat|
            state.has_wait(ticket) && !(permit matches PermitState::Waiting { ticket: own, .. }
                && own == ticket) ==> #[trigger] state.release(permit).has_wait(ticket),
{
    if let PermitState::Waiting { ticket: own, .. } = permit {
        let after = state.release(permit);
        if state.assigned.contains(own) {
            law_add_permit(state.take_assigned(own));
        } else {
            let k = state.queue.index_of(own);
            assert(0 <= k < state.queue.len() && state.queue[k] == own);
            assert forall|ticket: nat| #[trigger] after.queue.contains(ticket) implies ticket != own
                && state.queue.contains(ticket) by {
                let i = choose|i: int| 0 <= i < after.queue.len() && after.queue[i] == ticket;
                if i < k {
                    assert(state.queue[i] == ticket);
                } else {
                    assert(state.queue[i + 1] == ticket);
                }
            }
            assert forall|ticket: nat| #[trigger] state.queue.contains(ticket) implies ticket == own
                || after.queue.contains(ticket) by {
                let i = choose|i: int| 0 <= i < state.queue.len() && state.queue[i] == ticket;
                if i < k {
                    assert(after.queue[i] == ticket);
                } else if i > k {
                    assert(after.queue[i - 1] == ticket);
                }
            }
        }
    }
}

/// A wait that ends right after a poll that did not serve it leaves all permits where they are, and
/// every other wait as it was.
pub proof fn law_pass(state: SemaphoreState, permit: PermitState)
    requires
        state.wf(),
        state.serves(permit),
        !state.grants(permit),
    ensures
        state.poll(permit).release(state.polled(permit)) == state.pass(permit),
        state.pass(permit).wf(),
        state.pass(permit).permits() == state.permits(),
        state.pass(permit).id == state.id,
        forall|ticket: nat|
            state.has_wait(ticket) && !(permit matches PermitState::Waiting { ticket: own, .. }
                && own == ticket) ==> #[trigger] state.pass(permit).has_wait(ticket),
{
    law_poll(state, permit);
    law_release(state.poll(permit), state.polled(permit));
    if permit is Idle {
        let queue = state.queue.push(state.next);
        assert(queue.last() == state.next);
        assert(queue.contains(state.next));
        let k = queue.index_of(state.next);
        assert(0 <= k < queue.len() && queue[k] == state.next);
        assert(k < state.queue.len() ==> state.queue.contains(state.next));
        assert(queue.remove(k) == state.queue);
    }
}

/// What becomes of the queue when permits are added.
proof fn lemma_add_permits(state: SemaphoreState, n: nat)
    ensures
        ({
            let served = if n < state.queue.len() {
                n as int
            } else {
                state.queue.len() as int
            };
            &&& state.add_permits(n).queue == state.queue.skip(served)
            &&& state.add_permits(n).available == state.available + n - served
            &&& forall|ticket: nat| #[trigger]
                state.add_permits(n).assigned.contains(ticket) <==> state.assigned.contains(ticket)
                    || exists|i: int| 0 <= i < served && #[trigger] state.queue[i] == ticket
        }),
    decreases n,
{
    if n > 0 {
        let m = (n - 1) as nat;
        lemma_add_permits(state, m);
        let middle = state.add_permits(m);
        if m < state.queue.len() {
            assert(middle.queue.first() == state.queue[m as int]);
            assert(middle.queue.drop_first() == state.queue.skip(n as int));
            assert forall|ticket: nat| #[trigger]
                state.add_permits(n).assigned.contains(ticket) <==> state.assigned.contains(ticket)
                    || exists|i: int| 0 <= i < n && #[trigger] state.queue[i] == ticket by {
                if ticket == state.queue[m as int] {
                    assert(state.queue[m as int] == ticket);
                }
            }
        }
    }
}

/// Permits that are put into a semaphore go to those in the queue, one each, from the front; what
/// they leave is there for anyone.
pub proof fn law_permits_go_to_the_first(state: SemaphoreState, n: nat)
    ensures
        ({
            let served = if n < state.queue.len() {
                n as int
            } else {
                state.queue.len() as int
            };
            &&& state.add_permits(n).queue == state.queue.subrange(
                served,
                state.queue.len() as int,
            )
            &&& state.add_permits(n).available == state.available + n - served
            &&& forall|ticket: nat| #[trigger]
                state.add_permits(n).assigned.contains(ticket) <==> state.assigned.contains(ticket)
                    || exists|i: int| 0 <= i < served && #[trigger] state.queue[i] == ticket
        }),
{
    lemma_add_permits(state, n);
}

/// Waits are served in the order in which they began: of two that are in the queue, the one behind
/// gets no permit before the one in front.
pub proof fn law_served_in_order(state: SemaphoreState, n: nat, front: int, behind: int)
    requires
        state.wf(),
        0 <= front < behind < state.queue.len(),
    ensures
        state.add_permits(n).assigned.contains(state.queue[behind]) ==> state.add_permits(
            n,
        ).assigned.contains(state.queue[front]),
{
    lemma_add_permits(state, n);
    assert(state.queue.contains(state.queue[behind]));
}

/// The wait for one permit of a semaphore. It must end before it is dropped: by a poll that hands
/// out the permit, or by [`WaitOnSemaphore::cancel`].
pub struct WaitOnSemaphore {
    permit: Option<Permit>,
}

impl WaitOnSemaphore {
    /// Where the awaited permit stands; `None` once the wait is over.
    pub closed spec fn permit(&self) -> Option<PermitState> {
        match self.permit {
            Some(permit) => Some(permit_state(permit)),
            None => None,
        }
    }

    /// The wait has begun at the semaphore and is not over.
    pub open spec fn waits_at(&self, semaphore: SemaphoreState) -> bool {
        self.permit() matches Some(permit) && permit is Waiting && semaphore.serves(permit)
    }

    pub fn new() -> (wait: Self)
        ensures
            wait.permit() == Some(PermitState::Idle),
    {
        Self { permit: Some(Permit::new()) }
    }

    /// Asks whether the permit is there, and has the task of `context` woken when it is not.
    pub fn poll(&mut self, context: &mut Context<'_>, semaphore: &mut Semaphore) -> (result: Async<
        Permit,
    >)
        requires
            old(self).permit() is Some,
            semaphore_state(*old(semaphore)).serves(old(self).permit()->0),
            !semaphore_state(*old(semaphore)).closed,
        ensures
            result is Ready <==> semaphore_state(*old(semaphore)).grants(old(self).permit()->0),
            result matches Async::Ready(permit) ==> permit_state(permit) is Acquired,
            semaphore_state(*final(semaphore)) == semaphore_state(*old(semaphore)).poll(
                old(self).permit()->0,
            ),
            final(self).permit() == if result is Ready {
                None
            } else {
                Some(semaphore_state(*old(semaphore)).polled(old(self).permit()->0))
            },
    {
        let mut permit = self.permit.take().unwrap();
        match poll_acquire(&mut permit, context, semaphore) {
            Async::NotReady => {
                self.permit = Some(permit);
                Async::NotReady
            },
            Async::Ready(_) => Async::Ready(permit),
        }
    }

    /// Ends the wait. A permit that was set aside for it is not lost: it goes to the next wait, or
    /// to anyone.
    pub fn cancel(&mut self, semaphore: &mut Semaphore)
        requires
            old(self).permit() matches Some(permit) ==> semaphore_state(*old(semaphore)).serves(
                permit,
            ),
            !semaphore_state(*old(semaphore)).closed,
            semaphore_state(*old(semaphore)).permits() <= MAX_PERMITS,
        ensures
            final(self).permit() is None,
            semaphore_state(*final(semaphore)) == match old(self).permit() {
                Some(permit) => semaphore_state(*old(semaphore)).release(permit),
                None => semaphore_state(*old(semaphore)),
            },
    {
        if let Some(mut permit) = self.permit.take() {
            release(&mut permit, semaphore);
        }
    }
}

/// A wait that is polled gets its permit exactly when the semaphore has one for it, and is over then;
/// otherwise it goes on at that semaphore.
pub proof fn law_wait_ends_with_its_permit(
    new: WaitOnSemaphore,
    wait: &mut WaitOnSemaphore,
    context: &mut Context<'_>,
    semaphore: &mut Semaphore,
    result: Async<Permit>,
)
    requires
        call_ensures(WaitOnSemaphore::new, (), new),
        old(wait).permit() is Some,
        call_ensures(WaitOnSemaphore::poll, (wait, context, semaphore), result),
    ensures
        new.permit() == Some(PermitState::Idle),
        result is Ready <==> semaphore_state(*old(semaphore)).grants(old(wait).permit()->0),
        result matches Async::Ready(permit) ==> permit_state(permit) is Acquired
            && final(wait).permit() is None,
        result is NotReady ==> final(wait).permit() == Some(
            semaphore_state(*old(semaphore)).polled(old(wait).permit()->0),
        ),
        semaphore_state(*final(semaphore)) == semaphore_state(*old(semaphore)).poll(
            old(wait).permit()->0,
        ),
{
}

/// A wait that is ended gives up what it had, once: to end it again changes nothing.
pub proof fn law_wait_is_ended_once(
    wait: &mut WaitOnSemaphore,
    semaphore: &mut Semaphore,
    ended: &mut WaitOnSemaphore,
    again: &mut Semaphore,
)
    requires
        old(wait).permit() is Some,
        call_ensures(WaitOnSemaphore::cancel, (wait, semaphore), ()),
        *old(ended) == *final(wait),
        call_ensures(WaitOnSemaphore::cancel, (ended, again), ()),
    ensures
        semaphore_state(*final(semaphore)) == semaphore_state(*old(semaphore)).release(
            old(wait).permit()->0,
        ),
        semaphore_state(*final(again)) == semaphore_state(*old(again)),
{
}

} // verus!

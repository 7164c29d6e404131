//! State machines that are driven by polling.
use vstd::prelude::*;

verus! {

/// What a poll came to: a value, or nothing yet.
pub enum Async<T> {
    Ready(T),
    NotReady,
}

/// What a state decided in one turn.
pub enum Turn<S>
where
    S: State,
{
    /// Take the next turn at once, from the given state.
    Continue(S),
    /// Stop for now and go on from the given state at the next poll.
    Suspend(S),
    /// The machine has come to its end.
    Done(S::Final),
}

/// The states of a [`Machine`].
pub trait State: Sized {
    type Final;

    type Item;

    type Error;

    type Context;

    /// The turns that [`State::turn`] may take: from `state`, with a context that is `before` when
    /// the turn starts and `after` when it ends, it may return `result`.
    ///
    /// A state that does not say otherwise may return anything, and so may go on for ever: no
    /// machine of it meets what [`Machine::poll`] asks for. To be polled by verified code, a state
    /// has to define this.
    open spec fn turns(
        state: Self,
        before: Self::Context,
        after: Self::Context,
        result: Result<Turn<Self>, Self::Error>,
    ) -> bool {
        true
    }

    /// Takes one turn.
    fn turn(state: Self, context: &mut Self::Context) -> (result: Result<Turn<Self>, Self::Error>)
        ensures
            Self::turns(state, *old(context), *final(context), result),
    ;

    /// Makes the result of the machine of how it ended and of its context.
    fn finalize(f: Self::Final, context: Self::Context) -> Result<Self::Item, Self::Error>;
}

/// A run of `State`s, driven by polling.
pub struct Machine<S>
where
    S: State,
{
    state: Option<S>,
    context: Option<S::Context>,
}

/// Turns that were taken one right after the other: each turn but the last asks for the next one at
/// once. A turn is given by the state that it starts from and the context that it finds.
pub open spec fn continues<S: State>(turns: Seq<(S, S::Context)>) -> bool {
    &&& turns.len() > 0
    &&& forall|i: int|
        0 <= i < turns.len() - 1 ==> {
            let next = #[trigger] turns[i + 1];
            S::turns(turns[i].0, turns[i].1, next.1, Ok(Turn::Continue(next.0)))
        }
}

/// Fewer than `n` turns from `from` ask to be followed at once by the next one, whatever comes of
/// each of them.
pub open spec fn settles_within<S: State>(n: nat, from: (S, S::Context)) -> bool
    decreases n,
{
    n > 0 && forall|to: (S, S::Context)|
        #[trigger] S::turns(from.0, from.1, to.1, Ok(Turn::Continue(to.0))) ==> settles_within(
            (n - 1) as nat,
            to,
        )
}

/// The outcome of a poll whose last turn, taken from `last`, left the context as `after` and
/// returned `turn`.
pub open spec fn poll_outcome<S: State>(
    last: (S, S::Context),
    after: S::Context,
    turn: Result<Turn<S>, S::Error>,
    machine: Machine<S>,
    result: Result<Async<S::Item>, S::Error>,
) -> bool {
    &&& S::turns(last.0, last.1, after, turn)
    &&& match turn {
        Err(error) => {
            &&& result == Err::<Async<S::Item>, S::Error>(error)
            &&& machine.state() is None
            &&& machine.context() == Some(after)
        },
        Ok(Turn::Continue(_)) => false,
        Ok(Turn::Suspend(next)) => {
            &&& result == Ok::<Async<S::Item>, S::Error>(Async::NotReady)
            &&& machine.state() == Some(next)
            &&& machine.context() == Some(after)
        },
        Ok(Turn::Done(fin)) => {
            &&& machine.state() is None
            &&& machine.context() is None
            &&& match result {
                Ok(Async::Ready(item)) => call_ensures(S::finalize, (fin, after), Ok(item)),
                Ok(Async::NotReady) => false,
                Err(error) => call_ensures(S::finalize, (fin, after), Err(error)),
            }
        },
    }
}

/// A poll of the machine `before` takes the turns `turns`, from where the machine stands, and leaves
/// it as `after`.
pub open spec fn polls<S: State>(
    before: Machine<S>,
    turns: Seq<(S, S::Context)>,
    after: Machine<S>,
    result: Result<Async<S::Item>, S::Error>,
) -> bool {
    &&& before.state() is Some
    &&& before.context() is Some
    &&& continues(turns)
    &&& turns.first() == (before.state()->0, before.context()->0)
    &&& exists|context: S::Context, turn: Result<Turn<S>, S::Error>| #[trigger]
        poll_outcome(turns.last(), context, turn, after, result)
}

impl<S> Machine<S>
where
    S: State,
{
    /// The state that the next poll starts from; `None` once the machine has come to its end.
    pub closed spec fn state(&self) -> Option<S> {
        self.state
    }

    /// The context that the turns share; `None` once it was handed to [`State::finalize`].
    pub closed spec fn context(&self) -> Option<S::Context> {
        self.context
    }

    /// A machine that has not taken a turn yet.
    pub fn new(state: S, context: S::Context) -> (machine: Self)
        ensures
            machine.state() == Some(state),
            machine.context() == Some(context),
    {
        Self { state: Some(state), context: Some(context) }
    }

    /// Takes turns until one of them suspends, ends or fails.
    ///
    /// A machine that has ended or failed must not be polled again, nor one of which no number of
    /// turns is known to bring it to a stop. What brings it to a stop is up to [`State::turns`], which
    /// its states have to define: by default they may go on for ever.
    pub fn poll(&mut self) -> (result: Result<Async<S::Item>, S::Error>)
        requires
            old(self).state() is Some,
            old(self).context() is Some,
            exists|n: nat| #[trigger]
                settles_within(n, (old(self).state()->0, old(self).context()->0)),
        ensures
            exists|turns: Seq<(S, S::Context)>| #[trigger]
                polls(*old(self), turns, *final(self), result),
    {
        let mut state = self.state.take().unwrap();
        let mut context = self.context.take().unwrap();
        let ghost start = (state, context);
        let ghost mut turns: Seq<(S, S::Context)> = seq![start];
        let ghost mut left: nat = choose|n: nat| #[trigger] settles_within(n, start);
        loop
            invariant
                self.state is None,
                self.context is None,
                continues(turns),
                turns.first() == start,
                turns.last() == (state, context),
                old(self).state() is Some,
                old(self).context() is Some,
                settles_within(left, (state, context)),
                start == (old(self).state()->0, old(self).context()->0),
            decreases left,
        {
            let ghost last = (state, context);
            let turned = S::turn(state, &mut context);
            let ghost turn = turned;
            match turned {
                Err(error) => {
                    self.context = Some(context);
                    proof {
                        assert(poll_outcome(last, context, turn, *self, Err(error)));
                        assert(polls(*old(self), turns, *self, Err(error)));
                    }
                    return Err(error);
                },
                Ok(Turn::Continue(next_state)) => {
                    state = next_state;
                    proof {
                        let to = (state, context);
                        assert(S::turns(last.0, last.1, to.1, Ok(Turn::Continue(to.0))));
                        left = (left - 1) as nat;
                        turns = turns.push(to);
                    }
                },
                Ok(Turn::Suspend(next_state)) => {
                    self.state = Some(next_state);
                    self.context = Some(context);
                    proof {
                        assert(poll_outcome(last, context, turn, *self, Ok(Async::NotReady)));
                        assert(polls(*old(self), turns, *self, Ok(Async::NotReady)));
                    }
                    return Ok(Async::NotReady);
                },
                Ok(Turn::Done(fin)) => {
                    let ghost after = context;
                    let result = match S::finalize(fin, context) {
                        Ok(item) => Ok(Async::Ready(item)),
                        Err(error) => Err(error),
                    };
                    proof {
                        assert(poll_outcome(last, after, turn, *self, result));
                        assert(polls(*old(self), turns, *self, result));
                    }
                    return result;
                },
            }
        }
    }
}

/// A poll takes its turns in a row, from where the machine stands: each but the last asks for the
/// next one, which starts from the state and the context that it leaves. The last one asks for no
/// more. What it comes to is what the poll comes to: an error is passed on, and ends the machine; one
/// that suspends keeps its state and its context; and one that is done makes its result of how it
/// ended and of the context.
pub proof fn law_poll_takes_turns_until_one_stops<S: State>(
    before: Machine<S>,
    turns: Seq<(S, S::Context)>,
    after: Machine<S>,
    result: Result<Async<S::Item>, S::Error>,
)
    requires
        polls(before, turns, after, result),
    ensures
        turns.len() > 0,
        before.state() == Some(turns[0].0),
        before.context() == Some(turns[0].1),
        forall|i: int, j: int|
            0 <= i < turns.len() - 1 && j == i + 1 ==> S::turns(
                (#[trigger] turns[i]).0,
                turns[i].1,
                (#[trigger] turns[j]).1,
                Ok(Turn::Continue(turns[j].0)),
            ),
        exists|context: S::Context, turn: Result<Turn<S>, S::Error>|
            {
                &&& #[trigger] S::turns(
                    turns[turns.len() - 1].0,
                    turns[turns.len() - 1].1,
                    context,
                    turn,
                )
                &&& match turn {
                    Ok(Turn::Continue(_)) => false,
                    Ok(Turn::Suspend(next)) => {
                        &&& result matches Ok(Async::NotReady)
                        &&& after.state() == Some(next)
                        &&& after.context() == Some(context)
                    },
                    Ok(Turn::Done(fin)) => {
                        &&& after.state() is None
                        &&& after.context() is None
                        &&& match result {
                            Ok(Async::Ready(item)) => call_ensures(
                                S::finalize,
                                (fin, context),
                                Ok(item),
                            ),
                            Ok(Async::NotReady) => false,
                            Err(error) => call_ensures(S::finalize, (fin, context), Err(error)),
                        }
                    },
                    Err(error) => {
                        &&& result == Err::<Async<S::Item>, S::Error>(error)
                        &&& after.state() is None
                        &&& after.context() == Some(context)
                    },
                }
            },
{
    assert forall|i: int, j: int| 0 <= i < turns.len() - 1 && j == i + 1 implies S::turns(
        (#[trigger] turns[i]).0,
        turns[i].1,
        (#[trigger] turns[j]).1,
        Ok(Turn::Continue(turns[j].0)),
    ) by {
        assert(turns[i + 1] == turns[j]);
    }
    let (context, turn) = choose|context: S::Context, turn: Result<Turn<S>, S::Error>| #[trigger]
        poll_outcome(turns.last(), context, turn, after, result);
    assert(S::turns(turns[turns.len() - 1].0, turns[turns.len() - 1].1, context, turn));
}

/// A new machine stands where it was told to, and a poll of a machine takes turns from where it
/// stands.
pub proof fn law_machine_starts_where_it_was_told<S: State>(
    state: S,
    context: S::Context,
    new: Machine<S>,
    machine: &mut Machine<S>,
    result: Result<Async<S::Item>, S::Error>,
)
    requires
        call_ensures(Machine::<S>::new, (state, context), new),
        call_ensures(Machine::<S>::poll, (machine,), result),
    ensures
        new.state() == Some(state),
        new.context() == Some(context),
        exists|turns: Seq<(S, S::Context)>| #[trigger]
            polls(*old(machine), turns, *final(machine), result),
{
}

/// A state whose turn does not ask for another at once can be polled, and so can one whose turn leads
/// to nothing but states that can be.
pub proof fn law_machine_that_stops_can_be_polled<S: State>(n: nat, from: (S, S::Context))
    ensures
        (forall|to: (S, S::Context)| !#[trigger] S::turns(
            from.0,
            from.1,
            to.1,
            Ok(Turn::Continue(to.0)),
        )) ==> settles_within(1, from),
        (forall|to: (S, S::Context)| #[trigger]
            S::turns(from.0, from.1, to.1, Ok(Turn::Continue(to.0))) ==> settles_within(n, to))
            ==> settles_within(n + 1, from),
{
}

/// A poll leaves a machine fit to be polled again if and only if nothing has come of it yet.
pub proof fn law_unfinished_machine_goes_on<S: State>(
    last: (S, S::Context),
    after: S::Context,
    turn: Result<Turn<S>, S::Error>,
    machine: Machine<S>,
    result: Result<Async<S::Item>, S::Error>,
)
    requires
        poll_outcome(last, after, turn, machine, result),
    ensures
        (result matches Ok(Async::NotReady)) <==> machine.state() is Some,
        machine.state() is Some ==> machine.context() is Some,
{
}

/// One poll of a machine: what it found, the turns that it took, what it left and what came of it.
pub struct Polled<S>
where
    S: State,
{
    pub before: Machine<S>,
    pub turns: Seq<(S, S::Context)>,
    pub after: Machine<S>,
    pub result: Result<Async<S::Item>, S::Error>,
}

/// The polls of one machine, each of which goes on where the one before it has stopped, up to the
/// first of which something comes.
pub open spec fn polled_to_the_end<S: State>(polled: Seq<Polled<S>>) -> bool {
    &&& polled.len() > 0
    &&& forall|i: int|
        0 <= i < polled.len() ==> {
            let poll = #[trigger] polled[i];
            &&& polls(poll.before, poll.turns, poll.after, poll.result)
            &&& (poll.result matches Ok(Async::NotReady)) <==> i < polled.len() - 1
        }
    &&& forall|i: int| 0 < i < polled.len() ==> (#[trigger] polled[i]).before == polled[i - 1].after
}

/// All the turns that were taken in some polls.
pub open spec fn all_turns<S: State>(polled: Seq<Polled<S>>) -> Seq<(S, S::Context)>
    decreases polled.len(),
{
    if polled.len() == 0 {
        seq![]
    } else {
        all_turns(polled.drop_last()) + polled.last().turns
    }
}

/// What a turn comes to depends on nothing but the state that it starts from and the context that it
/// finds.
pub open spec fn is_deterministic<S: State>() -> bool {
    forall|
        state: S,
        before: S::Context,
        after: S::Context,
        other_after: S::Context,
        result: Result<Turn<S>, S::Error>,
        other: Result<Turn<S>, S::Error>,
    |
        #[trigger] S::turns(state, before, after, result) && #[trigger] S::turns(
            state,
            before,
            other_after,
            other,
        ) ==> after == other_after && result == other
}

/// What comes of a turn that goes on at once where this one would suspend, with the states of `A`
/// read as states of `B`.
pub open spec fn unsuspended<A, B>(
    read: spec_fn(A) -> B,
    result: Result<Turn<A>, A::Error>,
) -> Result<Turn<B>, A::Error> where
    A: State,
    B: State<Final = A::Final, Item = A::Item, Error = A::Error, Context = A::Context>,
 {
    match result {
        Err(error) => Err(error),
        Ok(Turn::Continue(next)) => Ok(Turn::Continue(read(next))),
        Ok(Turn::Suspend(next)) => Ok(Turn::Continue(read(next))),
        Ok(Turn::Done(fin)) => Ok(Turn::Done(fin)),
    }
}

/// The states of `B`, as which `read` reads those of `A`, differ from them in nothing but that they
/// go on at once where those of `A` suspend. What is made of the end of a machine is the same.
pub open spec fn differs_in_suspending<A, B>(read: spec_fn(A) -> B) -> bool where
    A: State,
    B: State<Final = A::Final, Item = A::Item, Error = A::Error, Context = A::Context>,
 {
    &&& forall|
        state: A,
        before: A::Context,
        after: A::Context,
        result: Result<Turn<A>, A::Error>,
    | #[trigger]
        A::turns(state, before, after, result) ==> B::turns(
            read(state),
            before,
            after,
            unsuspended::<A, B>(read, result),
        )
    &&& forall|
        fin: A::Final,
        context: A::Context,
        result: Result<A::Item, A::Error>,
        other: Result<A::Item, A::Error>,
    |
        #[trigger] call_ensures(A::finalize, (fin, context), result) && #[trigger] call_ensures(
            B::finalize,
            (fin, context),
            other,
        ) ==> result == other
}

/// Each turn but the last asks for the next one, at once or at the next poll.
spec fn goes_on<S: State>(turns: Seq<(S, S::Context)>) -> bool {
    &&& turns.len() > 0
    &&& forall|i: int|
        0 <= i < turns.len() - 1 ==> {
            let next = #[trigger] turns[i + 1];
            ||| S::turns(turns[i].0, turns[i].1, next.1, Ok(Turn::Continue(next.0)))
            ||| S::turns(turns[i].0, turns[i].1, next.1, Ok(Turn::Suspend(next.0)))
        }
}

/// The turns of polls that go on one where the other has stopped are one run.
proof fn lemma_all_turns<S: State>(polled: Seq<Polled<S>>)
    requires
        polled.len() > 0,
        forall|i: int|
            0 <= i < polled.len() ==> {
                let poll = #[trigger] polled[i];
                polls(poll.before, poll.turns, poll.after, poll.result)
            },
        forall|i: int|
            0 <= i < polled.len() - 1 ==> ((#[trigger] polled[i]).result matches Ok(
                Async::NotReady,
            )),
        forall|i: int| 0 < i < polled.len() ==> (#[trigger] polled[i]).before == polled[i
            - 1].after,
    ensures
        goes_on(all_turns(polled)),
        all_turns(polled).first() == polled.first().turns.first(),
        all_turns(polled).last() == polled.last().turns.last(),
    decreases polled.len(),
{
    let last = polled.last();
    assert(last == polled[polled.len() - 1]);
    let turns = all_turns(polled);
    if polled.len() == 1 {
        assert(all_turns(polled.drop_last()) =~= seq![]);
        assert(turns =~= last.turns);
    } else {
        let front = polled.drop_last();
        assert forall|i: int| 0 <= i < front.len() implies front[i] == polled[i] by {}
        lemma_all_turns(front);
        let so_far = all_turns(front);
        let stop = front.last();
        assert(stop == polled[polled.len() - 2]);
        let (context, turn) = choose|context: S::Context, turn: Result<Turn<S>, S::Error>|
            #[trigger] poll_outcome(stop.turns.last(), context, turn, stop.after, stop.result);
        assert(turn is Ok && turn->Ok_0 is Suspend);
        assert(turn == Ok::<Turn<S>, S::Error>(Turn::Suspend(last.turns[0].0)));
        assert forall|i: int| 0 <= i < turns.len() - 1 implies {
            let next = #[trigger] turns[i + 1];
            ||| S::turns(turns[i].0, turns[i].1, next.1, Ok(Turn::Continue(next.0)))
            ||| S::turns(turns[i].0, turns[i].1, next.1, Ok(Turn::Suspend(next.0)))
        } by {
            if i + 1 < so_far.len() {
                assert(turns[i + 1] == so_far[i + 1]);
            } else if i + 1 > so_far.len() {
                let j = i - so_far.len();
                assert(turns[i + 1] == last.turns[j + 1]);
            }
        }
    }
}

/// The first turns of two runs that start alike are alike.
proof fn lemma_alike<A, B>(
    read: spec_fn(A) -> B,
    suspending: Seq<(A, A::Context)>,
    continuing: Seq<(B, A::Context)>,
    i: int,
)
    where
        A: State,
        B: State<Final = A::Final, Item = A::Item, Error = A::Error, Context = A::Context>,
    requires
        is_deterministic::<B>(),
        differs_in_suspending::<A, B>(read),
        goes_on(suspending),
        continues(continuing),
        continuing.first() == (read(suspending.first().0), suspending.first().1),
        0 <= i < suspending.len(),
        i < continuing.len(),
    ensures
        continuing[i] == (read(suspending[i].0), suspending[i].1),
    decreases i,
{
    if i > 0 {
        let k = i - 1;
        lemma_alike(read, suspending, continuing, k);
        let here = suspending[k];
        let next = suspending[k + 1];
        let there = continuing[k + 1];
        assert(B::turns(read(here.0), here.1, next.1, Ok(Turn::Continue(read(next.0))))) by {
            let continued = Ok::<Turn<A>, A::Error>(Turn::Continue(next.0));
            let suspended = Ok::<Turn<A>, A::Error>(Turn::Suspend(next.0));
            assert(A::turns(here.0, here.1, next.1, continued) || A::turns(
                here.0,
                here.1,
                next.1,
                suspended,
            ));
        }
        assert(B::turns(read(here.0), here.1, there.1, Ok(Turn::Continue(there.0))));
    }
}

/// To suspend and to be polled again neither loses nor repeats a turn, nor does it change what comes
/// of them: a machine that suspends here and there, polled to its end, takes the same turns and
/// comes to the same result as one whose states go on at once instead comes to in a single poll.
pub proof fn law_suspending_changes_nothing<A, B>(
    read: spec_fn(A) -> B,
    polled: Seq<Polled<A>>,
    before: Machine<B>,
    turns: Seq<(B, A::Context)>,
    after: Machine<B>,
    result: Result<Async<A::Item>, A::Error>,
)
    where
        A: State,
        B: State<Final = A::Final, Item = A::Item, Error = A::Error, Context = A::Context>,
    requires
        is_deterministic::<B>(),
        differs_in_suspending::<A, B>(read),
        polled_to_the_end(polled),
        before.state() == Some(read(polled.first().before.state()->0)),
        before.context() == polled.first().before.context(),
        polls(before, turns, after, result),
    ensures
        result == polled.last().result,
        turns == all_turns(polled).map_values(|turn: (A, A::Context)| (read(turn.0), turn.1)),
        after.state() is None,
        after.context() == polled.last().after.context(),
{
    let suspending = all_turns(polled);
    let end = polled.last();
    assert(polled.first() == polled[0] && end == polled[polled.len() - 1]);
    lemma_all_turns(polled);
    let (context, turn) = choose|context: A::Context, turn: Result<Turn<A>, A::Error>| #[trigger]
        poll_outcome(end.turns.last(), context, turn, end.after, end.result);
    let (context_b, turn_b) = choose|context: A::Context, turn: Result<Turn<B>, A::Error>|
        #[trigger] poll_outcome(turns.last(), context, turn, after, result);
    let last = suspending.last();
    assert(A::turns(last.0, last.1, context, turn));
    assert(B::turns(read(last.0), last.1, context, unsuspended::<A, B>(read, turn)));
    let m = suspending.len() as int;
    let n = turns.len() as int;
    if n < m {
        lemma_alike(read, suspending, turns, n - 1);
        let here = suspending[n - 1];
        let next = suspending[(n - 1) + 1];
        let continued = Ok::<Turn<A>, A::Error>(Turn::Continue(next.0));
        let suspended = Ok::<Turn<A>, A::Error>(Turn::Suspend(next.0));
        assert(A::turns(here.0, here.1, next.1, continued) || A::turns(
            here.0,
            here.1,
            next.1,
            suspended,
        ));
        assert(false);
    }
    lemma_alike(read, suspending, turns, m - 1);
    if n > m {
        let next = turns[(m - 1) + 1];
        assert(B::turns(turns[m - 1].0, turns[m - 1].1, next.1, Ok(Turn::Continue(next.0))));
        assert(false);
    }
    assert forall|i: int| 0 <= i < m implies turns[i] == (read(suspending[i].0), suspending[i].1) by {
        lemma_alike(read, suspending, turns, i);
    }
}

} // verus!

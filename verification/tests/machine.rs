use tokio_resource_pool::machine::{Async, Machine, State, Turn};

/// Counts down, stops at every multiple of ten, and logs each number in the context.
struct Countdown(u32);

impl State for Countdown {
    type Final = u32;

    type Item = Vec<u32>;

    type Error = String;

    type Context = Vec<u32>;

    fn turn(state: Self, context: &mut Vec<u32>) -> Result<Turn<Self>, String> {
        context.push(state.0);
        if state.0 == 0 {
            Ok(Turn::Done(99))
        } else if state.0 == 13 {
            Err(format!("unlucky after {}", context.len()))
        } else if state.0 % 10 == 0 {
            Ok(Turn::Suspend(Countdown(state.0 - 1)))
        } else {
            Ok(Turn::Continue(Countdown(state.0 - 1)))
        }
    }

    fn finalize(f: u32, context: Vec<u32>) -> Result<Vec<u32>, String> {
        let mut context = context;
        if context.len() > 5 {
            return Err(format!("too long: {}", context.len()));
        }
        context.push(f);
        Ok(context)
    }
}

#[test]
fn continues_to_the_end() {
    let mut machine = Machine::new(Countdown(3), vec![]);
    match machine.poll() {
        Ok(Async::Ready(item)) => assert_eq!(item, vec![3, 2, 1, 0, 99]),
        _ => panic!("is done"),
    }
}

#[test]
fn suspends_and_goes_on() {
    let mut machine = Machine::new(Countdown(12), vec![]);
    assert!(matches!(machine.poll(), Ok(Async::NotReady)));
    match machine.poll() {
        Err(error) => assert_eq!(error, "too long: 13"),
        _ => panic!("fails at the end"),
    }
}

/// Waits for as many polls as it says.
struct Polls(u32);

impl State for Polls {
    type Final = ();

    type Item = u32;

    type Error = ();

    type Context = u32;

    fn turn(state: Self, context: &mut u32) -> Result<Turn<Self>, ()> {
        if state.0 == 0 {
            return Ok(Turn::Done(()));
        }
        *context += 1;
        Ok(Turn::Suspend(Polls(state.0 - 1)))
    }

    fn finalize(_: (), context: u32) -> Result<u32, ()> {
        Ok(context)
    }
}

#[test]
fn keeps_its_context_between_polls() {
    let mut machine = Machine::new(Polls(2), 40);
    assert!(matches!(machine.poll(), Ok(Async::NotReady)));
    assert!(matches!(machine.poll(), Ok(Async::NotReady)));
    assert!(matches!(machine.poll(), Ok(Async::Ready(42))));
}

#[test]
fn stops_at_an_error() {
    let mut machine = Machine::new(Countdown(15), vec![]);
    match machine.poll() {
        Err(error) => assert_eq!(error, "unlucky after 3"),
        _ => panic!("fails"),
    }
}

/// Collects what is left of a number as it is halved. Each odd number is a stop for those who stop.
struct Halving<const STOPS: bool>(u32);

impl<const STOPS: bool> State for Halving<STOPS> {
    type Final = u32;

    type Item = Vec<u32>;

    type Error = u32;

    type Context = Vec<u32>;

    fn turn(state: Self, context: &mut Vec<u32>) -> Result<Turn<Self>, u32> {
        context.push(state.0);
        match state.0 {
            1 => Ok(Turn::Done(context.len() as u32)),
            3 => Err(3),
            n if STOPS && n % 2 == 1 => Ok(Turn::Suspend(Halving(n / 2))),
            n => Ok(Turn::Continue(Halving(n / 2))),
        }
    }

    fn finalize(f: u32, context: Vec<u32>) -> Result<Vec<u32>, u32> {
        let mut context = context;
        context.push(f);
        Ok(context)
    }
}

#[test]
fn suspending_changes_nothing() {
    let mut at_once = Machine::new(Halving::<false>(45), vec![]);
    match at_once.poll() {
        Ok(Async::Ready(item)) => assert_eq!(item, vec![45, 22, 11, 5, 2, 1, 6]),
        _ => panic!("is done"),
    }

    let mut stopping = Machine::new(Halving::<true>(45), vec![]);
    for _ in 0..3u32 {
        assert!(matches!(stopping.poll(), Ok(Async::NotReady)));
    }
    match stopping.poll() {
        Ok(Async::Ready(item)) => assert_eq!(item, vec![45, 22, 11, 5, 2, 1, 6]),
        _ => panic!("is done"),
    }
}

#[test]
fn suspending_comes_to_the_same_error() {
    let mut at_once = Machine::new(Halving::<false>(27), vec![]);
    assert!(matches!(at_once.poll(), Err(3)));

    let mut stopping = Machine::new(Halving::<true>(27), vec![]);
    assert!(matches!(stopping.poll(), Ok(Async::NotReady)));
    assert!(matches!(stopping.poll(), Ok(Async::NotReady)));
    assert!(matches!(stopping.poll(), Err(3)));
}

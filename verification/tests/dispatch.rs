use modui::{DispatchOutcome, HandlerChain};
use std::cell::Cell;
use std::rc::Rc;

type Handler = Box<dyn FnMut(&mut Vec<&'static str>, &u8) -> Result<bool, String>>;

/// A handler that counts its invocations, writes its name into the event and
/// gives the answer it was made with.
fn handler(name: &'static str, count: &Rc<Cell<usize>>, answer: Result<bool, String>) -> Handler {
    let count = Rc::clone(count);
    Box::new(move |event: &mut Vec<&'static str>, _target: &u8| {
        count.set(count.get() + 1);
        event.push(name);
        answer.clone()
    })
}

#[test]
fn second_handler_captures() {
    let (a, b) = (Rc::new(Cell::new(0)), Rc::new(Cell::new(0)));
    let mut chain = HandlerChain::new(vec![
        handler("a", &a, Ok(false)),
        handler("b", &b, Ok(true)),
    ]);
    let mut event = Vec::new();
    let outcome = chain.dispatch(&mut event, &0u8);
    assert_eq!(outcome, DispatchOutcome::Captured);
    assert_eq!(a.get(), 1);
    assert_eq!(b.get(), 1);
    assert_eq!(event, vec!["a", "b"]);
}

#[test]
fn no_handler_captures() {
    let (a, b) = (Rc::new(Cell::new(0)), Rc::new(Cell::new(0)));
    let mut chain = HandlerChain::new(vec![
        handler("a", &a, Ok(false)),
        handler("b", &b, Ok(false)),
    ]);
    let mut event = Vec::new();
    let outcome = chain.dispatch(&mut event, &0u8);
    assert_eq!(outcome, DispatchOutcome::Continue);
    assert_eq!(a.get(), 1);
    assert_eq!(b.get(), 1);
    assert_eq!(event, vec!["a", "b"]);
}

#[test]
fn single_handler_fails() {
    let a = Rc::new(Cell::new(0));
    let mut chain = HandlerChain::new(vec![handler("a", &a, Err("x".to_string()))]);
    let mut event = Vec::new();
    let outcome = chain.dispatch(&mut event, &0u8);
    assert_eq!(outcome, DispatchOutcome::Failed("x".to_string()));
    assert_eq!(a.get(), 1);
}

#[test]
fn empty_chain_continues() {
    let mut chain: HandlerChain<Handler> = HandlerChain::new(Vec::new());
    assert_eq!(chain.len(), 0);
    let mut event = vec!["untouched"];
    let outcome = chain.dispatch(&mut event, &0u8);
    assert_eq!(outcome, DispatchOutcome::Continue);
    assert_eq!(event, vec!["untouched"]);
}

#[test]
fn capture_skips_later_handlers() {
    let counts: Vec<Rc<Cell<usize>>> = (0..4).map(|_| Rc::new(Cell::new(0))).collect();
    let mut chain = HandlerChain::new(vec![
        handler("a", &counts[0], Ok(false)),
        handler("b", &counts[1], Ok(true)),
        handler("c", &counts[2], Ok(true)),
        handler("d", &counts[3], Err("late".to_string())),
    ]);
    let mut event = Vec::new();
    let outcome = chain.dispatch(&mut event, &0u8);
    assert_eq!(outcome, DispatchOutcome::Captured);
    let seen: Vec<usize> = counts.iter().map(|c| c.get()).collect();
    assert_eq!(seen, vec![1, 1, 0, 0]);
    assert_eq!(event, vec!["a", "b"]);
}

#[test]
fn failure_skips_later_handlers_and_keeps_earlier_changes() {
    let counts: Vec<Rc<Cell<usize>>> = (0..4).map(|_| Rc::new(Cell::new(0))).collect();
    let mut chain = HandlerChain::new(vec![
        handler("a", &counts[0], Ok(false)),
        handler("b", &counts[1], Ok(false)),
        handler("c", &counts[2], Err("boom".to_string())),
        handler("d", &counts[3], Ok(true)),
    ]);
    let mut event = vec!["start"];
    let outcome = chain.dispatch(&mut event, &0u8);
    assert_eq!(outcome, DispatchOutcome::Failed("boom".to_string()));
    let seen: Vec<usize> = counts.iter().map(|c| c.get()).collect();
    assert_eq!(seen, vec![1, 1, 1, 0]);
    assert_eq!(event, vec!["start", "a", "b", "c"]);
}

#[test]
fn unstopped_walk_invokes_every_handler_in_order() {
    let counts: Vec<Rc<Cell<usize>>> = (0..5).map(|_| Rc::new(Cell::new(0))).collect();
    let names = ["a", "b", "c", "d", "e"];
    let handlers: Vec<Handler> = (0..5).map(|i| handler(names[i], &counts[i], Ok(false))).collect();
    let mut chain = HandlerChain::new(handlers);
    assert_eq!(chain.len(), 5);
    let mut event = Vec::new();
    let outcome = chain.dispatch(&mut event, &0u8);
    assert_eq!(outcome, DispatchOutcome::Continue);
    assert!(counts.iter().all(|c| c.get() == 1));
    assert_eq!(event, vec!["a", "b", "c", "d", "e"]);
}

#[test]
fn each_handler_sees_what_the_one_before_left() {
    type Doubler = Box<dyn FnMut(&mut u32, &u32) -> Result<bool, String>>;
    let add: Doubler = Box::new(|event: &mut u32, target: &u32| {
        *event += *target;
        Ok(false)
    });
    let double: Doubler = Box::new(|event: &mut u32, _target: &u32| {
        *event *= 2;
        Ok(false)
    });
    let stop_over_ten: Doubler = Box::new(|event: &mut u32, _target: &u32| Ok(*event > 10));
    let mut chain = HandlerChain::new(vec![add, double, stop_over_ten]);
    let mut event = 2u32;
    assert_eq!(chain.dispatch(&mut event, &3u32), DispatchOutcome::Continue);
    assert_eq!(event, 10);
    assert_eq!(chain.dispatch(&mut event, &3u32), DispatchOutcome::Captured);
    assert_eq!(event, 26);
}

#[test]
fn a_chain_can_be_walked_again_after_a_capture() {
    let (a, b) = (Rc::new(Cell::new(0)), Rc::new(Cell::new(0)));
    let mut chain = HandlerChain::new(vec![
        handler("a", &a, Ok(true)),
        handler("b", &b, Ok(false)),
    ]);
    for _ in 0..3 {
        let mut event = Vec::new();
        assert_eq!(chain.dispatch(&mut event, &0u8), DispatchOutcome::Captured);
    }
    assert_eq!(a.get(), 3);
    assert_eq!(b.get(), 0);
}

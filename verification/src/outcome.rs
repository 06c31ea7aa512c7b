//! What routing one event through a handler chain can end in.

use vstd::prelude::*;

verus! {

/// Result of routing one event through an ordered chain of handlers.
#[derive(Debug, PartialEq, Eq)]
pub enum DispatchOutcome<E> {
    /// A handler consumed the event; no later handler saw it.
    Captured,
    /// Every handler saw the event and none consumed it.
    Continue,
    /// A handler failed with the given error; no later handler saw the event.
    Failed(E),
}

/// Whether a handler's answer ends the walk along the chain: it does unless
/// the handler reported the event as not consumed.
pub open spec fn stops<E>(answer: Result<bool, E>) -> bool {
    answer != Ok::<bool, E>(false)
}

/// The outcome that a single handler's answer stands for.
pub open spec fn outcome_of_answer<E>(answer: Result<bool, E>) -> DispatchOutcome<E> {
    match answer {
        Ok(true) => DispatchOutcome::Captured,
        Ok(false) => DispatchOutcome::Continue,
        Err(e) => DispatchOutcome::Failed(e),
    }
}

/// The outcome of a walk, given the answers of the handlers that were
/// invoked, in order: that of the last answer, and `Continue` where no handler
/// was invoked at all.
pub open spec fn outcome_of<E>(answers: Seq<Result<bool, E>>) -> DispatchOutcome<E> {
    if answers.len() == 0 {
        DispatchOutcome::Continue
    } else {
        outcome_of_answer(answers.last())
    }
}

} // verus!

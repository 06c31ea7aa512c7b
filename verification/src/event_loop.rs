//! The life of one event loop: built around a source handle, started with a
//! chain of handlers, fed the events the source produces, and resolved to one
//! result when the source hands control back.

use std::fmt::{Debug, Display};
use vstd::prelude::*;
use crate::chain::HandlerChain;
use crate::error::EventLoopError;
use crate::outcome::{DispatchOutcome, outcome_of};
use crate::walk::{is_walk, was_invoked};

verus! {

/// The error state after one more dispatch outcome: an error that is already
/// held stays, a handler failure is taken up where none is held, and any other
/// outcome leaves the state as it was.
pub open spec fn latched<E: Clone + Debug>(
    error: Result<(), EventLoopError<E>>,
    outcome: DispatchOutcome<E>,
) -> Result<(), EventLoopError<E>> {
    match error {
        Err(_) => error,
        Ok(_) => match outcome {
            DispatchOutcome::Failed(e) => Err(EventLoopError::Custom(e)),
            _ => error,
        },
    }
}

/// The error state after the given dispatch outcomes, taken up in their
/// order.
pub open spec fn latched_all<E: Clone + Debug>(
    error: Result<(), EventLoopError<E>>,
    outcomes: Seq<DispatchOutcome<E>>,
) -> Result<(), EventLoopError<E>>
    decreases outcomes.len(),
{
    if outcomes.len() == 0 {
        error
    } else {
        latched(latched_all(error, outcomes.drop_last()), outcomes.last())
    }
}

/// `result` is what a run resolves to that ends with the error state `error`
/// and whose source returned `source_result`: the held error where there is
/// one, else the source's error with its description, else success.
pub open spec fn resolves_to<E: Clone + Debug, D: Display>(
    error: Result<(), EventLoopError<E>>,
    source_result: Result<(), D>,
    result: Result<(), EventLoopError<E>>,
) -> bool {
    match error {
        Err(_) => result == error,
        Ok(_) => match source_result {
            Ok(_) => result is Ok,
            Err(d) => result matches Err(e) && e.describes(&d),
        },
    }
}

/// An event loop that has not been started: the handle of its event source
/// and an error state that holds no error yet.
pub struct EventLoop<H, E: Clone + Debug> {
    event_loop: H,
    error: Result<(), EventLoopError<E>>,
}

/// An event loop that is running: the chain of handlers, which is fixed for
/// the run, and the first error that a handler reported, if any did.
pub struct RunningLoop<F, E: Clone + Debug> {
    chain: HandlerChain<F>,
    error: Result<(), EventLoopError<E>>,
}

impl<H, E: Clone + Debug> EventLoop<H, E> {
    #[verifier::type_invariant]
    spec fn holds_no_error(self) -> bool {
        self.error is Ok
    }

    /// The handle of the event source.
    pub closed spec fn handle(self) -> H {
        self.event_loop
    }

    /// Makes an event loop of what initialising the event source gave: the
    /// loop around the handle, or the source's own error, handed on unchanged.
    pub fn new<I>(source: Result<H, I>) -> (r: Result<Self, I>)
        ensures
            match source {
                Ok(h) => r matches Ok(l) && l.handle() == h,
                Err(e) => r matches Err(f) && f == e,
            },
    {
        match source {
            Ok(event_loop) => Ok(EventLoop { event_loop, error: Ok(()) }),
            Err(e) => Err(e),
        }
    }

    /// The handle of the event source, for what this library does not wrap.
    pub fn get_event_loop(&self) -> (h: &H)
        ensures
            *h == self.handle(),
    {
        &self.event_loop
    }

    /// Runs the event loop with the given handlers, which are fixed for the
    /// run, in their order. `pump` is the run call of the event source: it
    /// takes the source handle, feeds each event that the source produces to
    /// the running loop, and returns what the source's own run returned. The
    /// result of the run is then resolved from the error state that `pump`
    /// left and from what it returned.
    ///
    /// The result is known only when `pump` returns. Where the event source
    /// never hands control back, neither does `run`, and an error that a
    /// handler left held is never seen by the caller.
    pub fn run<F, P, D: Display>(self, event_handlers: Vec<F>, pump: P) -> (r: Result<
        (),
        EventLoopError<E>,
    >) where P: FnOnce(H, &mut RunningLoop<F, E>) -> Result<(), D>
        requires
            forall|running: &mut RunningLoop<F, E>|
                running.handlers() == event_handlers@ && running.error() is Ok
                    ==> #[trigger] call_requires(pump, (self.handle(), running)),
        ensures
            exists|running: &mut RunningLoop<F, E>, source_result: Result<(), D>| {
                &&& running.handlers() == event_handlers@
                &&& running.error() is Ok
                &&& #[trigger] call_ensures(pump, (self.handle(), running), source_result)
                &&& resolves_to(final(running).error(), source_result, r)
            },
    {
        proof {
            use_type_invariant(&self);
        }
        let EventLoop { event_loop, error } = self;
        let mut running = RunningLoop { chain: HandlerChain::new(event_handlers), error };
        assert(event_loop == self.handle());
        let source_result = pump(event_loop, &mut running);
        running.finish(source_result)
    }
}

impl<F, E: Clone + Debug> RunningLoop<F, E> {
    /// The handlers, in dispatch order.
    pub closed spec fn handlers(self) -> Seq<F> {
        self.chain@
    }

    /// The error state: `Ok` until a handler fails, then that failure.
    pub closed spec fn error(self) -> Result<(), EventLoopError<E>> {
        self.error
    }

    /// Every handler may be invoked on every event and target.
    pub open spec fn accepts_every_event<Ev, Wt>(self) -> bool
        where F: FnMut(&mut Ev, &Wt) -> Result<bool, E>
    {
        forall|i: int, m: &mut Ev, t: &Wt|
            0 <= i < self.handlers().len() ==> #[trigger] call_requires(self.handlers()[i], (m, t))
    }

    /// A running loop over the given handlers, with no error held.
    pub fn new(event_handlers: Vec<F>) -> (r: Self)
        ensures
            r.handlers() == event_handlers@,
            r.error() is Ok,
    {
        RunningLoop { chain: HandlerChain::new(event_handlers), error: Ok(()) }
    }

    /// Whether a handler failure is held, so that no further event is
    /// dispatched in this run.
    pub fn has_failed(&self) -> (r: bool)
        ensures
            r == (self.error() is Err),
    {
        self.error.is_err()
    }

    /// Takes up the outcome of one dispatch: the first failure is kept, and
    /// nothing replaces it.
    pub fn record(&mut self, outcome: DispatchOutcome<E>)
        ensures
            final(self).handlers() == old(self).handlers(),
            final(self).error() == latched(old(self).error(), outcome),
    {
        if self.error.is_ok() {
            match outcome {
                DispatchOutcome::Failed(e) => {
                    self.error = Err(EventLoopError::Custom(e));
                },
                _ => {},
            }
        }
    }

    /// Handles one event that the source produced. While no error is held the
    /// event is routed through the chain and the outcome is taken up; once an
    /// error is held, no handler is invoked and nothing changes.
    pub fn on_event<Ev, Wt>(&mut self, event: &mut Ev, target: &Wt)
        where F: FnMut(&mut Ev, &Wt) -> Result<bool, E>
        requires
            old(self).accepts_every_event::<Ev, Wt>(),
        ensures
            final(self).handlers() == old(self).handlers(),
            old(self).error() is Err ==> {
                &&& final(self).error() == old(self).error()
                &&& *final(event) == *old(event)
            },
            old(self).error() is Ok ==> exists|states: Seq<Ev>, answers: Seq<Result<bool, E>>| {
                &&& #[trigger] is_walk(old(self).handlers().len(), states, answers)
                &&& states[0] == *old(event)
                &&& states.last() == *final(event)
                &&& final(self).error() == latched(old(self).error(), outcome_of(answers))
                &&& forall|i: int| #![trigger was_invoked(answers, i)] #![trigger answers[i]]
                    was_invoked(answers, i) ==> exists|call: &mut Ev| {
                        &&& *call == states[i]
                        &&& *final(call) == states[i + 1]
                        &&& #[trigger] call_ensures(old(self).handlers()[i], (call, target), answers[i])
                    }
            },
    {
        if self.error.is_ok() {
            assert(self.chain.accepts_every_event::<Ev, Wt, E>()) by {
                assert(self.chain@ == self.handlers());
            }
            let outcome = self.chain.dispatch(event, target);
            self.record(outcome);
        }
    }

    /// Ends the run with what the source's own run call returned, and gives
    /// the one result of the whole run.
    pub fn finish<D: Display>(self, source_result: Result<(), D>) -> (r: Result<(), EventLoopError<E>>)
        ensures
            resolves_to(self.error(), source_result, r),
    {
        match self.error {
            Err(e) => Err(e),
            Ok(_) => match source_result {
                Ok(_) => Ok(()),
                Err(d) => Err(EventLoopError::from_source(&d)),
            },
        }
    }
}

/// An error that is held is not replaced by the outcome of a later dispatch,
/// whatever that outcome is.
pub proof fn lemma_held_error_stays<E: Clone + Debug>(
    error: Result<(), EventLoopError<E>>,
    outcome: DispatchOutcome<E>,
)
    requires
        error is Err,
    ensures
        latched(error, outcome) == error,
{
}

/// The first error wins: once the outcomes taken up so far have left an error
/// held, no sequence of later outcomes changes it.
pub proof fn lemma_first_error_wins<E: Clone + Debug>(
    error: Result<(), EventLoopError<E>>,
    outcomes: Seq<DispatchOutcome<E>>,
    later: Seq<DispatchOutcome<E>>,
)
    requires
        latched_all(error, outcomes) is Err,
    ensures
        latched_all(error, outcomes + later) == latched_all(error, outcomes),
    decreases later.len(),
{
    if later.len() == 0 {
        assert(outcomes + later =~= outcomes);
    } else {
        lemma_first_error_wins(error, outcomes, later.drop_last());
        assert((outcomes + later).drop_last() =~= outcomes + later.drop_last());
        assert((outcomes + later).last() == later.last());
    }
}

/// An error that a handler left held is what the run resolves to, whether the
/// source's own run call succeeded or failed with another error.
pub proof fn lemma_held_error_is_the_result<E: Clone + Debug, D: Display>(
    error: Result<(), EventLoopError<E>>,
    source_result: Result<(), D>,
    result: Result<(), EventLoopError<E>>,
)
    requires
        error is Err,
        resolves_to(error, source_result, result),
    ensures
        result == error,
{
}

/// A run in which no handler failed and whose source returned without error
/// resolves to success.
pub proof fn lemma_clean_run_succeeds<E: Clone + Debug, D: Display>(
    outcomes: Seq<DispatchOutcome<E>>,
    source_result: Result<(), D>,
    result: Result<(), EventLoopError<E>>,
)
    requires
        forall|i: int| 0 <= i < outcomes.len() ==> !(#[trigger] outcomes[i] is Failed),
        source_result is Ok,
        resolves_to(latched_all(Ok(()), outcomes), source_result, result),
    ensures
        result is Ok,
{
    lemma_no_failure_holds_no_error(outcomes);
}

/// Outcomes of which none is a failure leave no error held.
pub proof fn lemma_no_failure_holds_no_error<E: Clone + Debug>(outcomes: Seq<DispatchOutcome<E>>)
    requires
        forall|i: int| 0 <= i < outcomes.len() ==> !(#[trigger] outcomes[i] is Failed),
    ensures
        latched_all(Ok(()), outcomes) is Ok,
    decreases outcomes.len(),
{
    if outcomes.len() > 0 {
        lemma_no_failure_holds_no_error(outcomes.drop_last());
    }
}

} // verus!

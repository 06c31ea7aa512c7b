//! The ordered chain of handlers and the walk of one event along it.

use vstd::prelude::*;
use crate::outcome::{DispatchOutcome, outcome_of, stops};
use crate::walk::{is_walk, was_invoked};

verus! {

/// An ordered sequence of event handlers. The order is fixed when the chain is
/// made and is the priority order of dispatch.
pub struct HandlerChain<F> {
    handlers: Vec<F>,
}

impl<F> View for HandlerChain<F> {
    type V = Seq<F>;

    closed spec fn view(&self) -> Seq<F> {
        self.handlers@
    }
}

/// Invokes one handler on the event. The handler's own postcondition holds
/// of a call that found the event as it was and left it as it is now.
fn invoke<Ev, Wt, E, F>(handler: &mut F, event: &mut Ev, target: &Wt) -> (answer: Result<bool, E>)
    where F: FnMut(&mut Ev, &Wt) -> Result<bool, E>
    requires
        forall|m: &mut Ev, t: &Wt| call_requires(*old(handler), (m, t)),
    ensures
        *final(handler) == *old(handler),
        exists|call: &mut Ev| {
            &&& *call == *old(event)
            &&& *final(call) == *final(event)
            &&& call_ensures(*old(handler), (call, target), answer)
        },
{
    handler(event, target)
}

impl<F> HandlerChain<F> {
    /// Every handler of the chain may be invoked on every event and target.
    pub open spec fn accepts_every_event<Ev, Wt, E>(&self) -> bool
        where F: FnMut(&mut Ev, &Wt) -> Result<bool, E>
    {
        forall|i: int, m: &mut Ev, t: &Wt|
            0 <= i < self@.len() ==> #[trigger] call_requires(self@[i], (m, t))
    }

    /// Makes a chain of the given handlers, in their order.
    pub fn new(handlers: Vec<F>) -> (chain: Self)
        ensures
            chain@ == handlers@,
    {
        HandlerChain { handlers }
    }

    /// The number of handlers.
    pub fn len(&self) -> (n: usize)
        ensures
            n == self@.len(),
    {
        self.handlers.len()
    }

    /// Routes one event through the chain: the handlers are invoked in chain
    /// order, each on the event as the one before left it, until one consumes
    /// the event or fails, or the chain ends.
    ///
    /// The contract describes the walk by two sequences. `answers[i]` is what
    /// the handler at `i` answered, and `states[i]` and `states[i + 1]` are
    /// the event as that handler found it and as it left it. The walk starts
    /// on the event as given and ends on the event as returned, it obeys the
    /// stopping rule, and the outcome is that of its answers.
    pub fn dispatch<Ev, Wt, E>(&mut self, event: &mut Ev, target: &Wt) -> (outcome: DispatchOutcome<E>)
        where F: FnMut(&mut Ev, &Wt) -> Result<bool, E>
        requires
            old(self).accepts_every_event::<Ev, Wt, E>(),
        ensures
            final(self)@ == old(self)@,
            old(self)@.len() == 0 ==> outcome is Continue && *final(event) == *old(event),
            exists|states: Seq<Ev>, answers: Seq<Result<bool, E>>| {
                &&& #[trigger] is_walk(old(self)@.len(), states, answers)
                &&& states[0] == *old(event)
                &&& states.last() == *final(event)
                &&& outcome == outcome_of(answers)
                &&& forall|i: int| #![trigger was_invoked(answers, i)] #![trigger answers[i]]
                    was_invoked(answers, i) ==> exists|call: &mut Ev| {
                        &&& *call == states[i]
                        &&& *final(call) == states[i + 1]
                        &&& #[trigger] call_ensures(old(self)@[i], (call, target), answers[i])
                    }
            },
    {
        let ghost mut states: Seq<Ev> = seq![*event];
        let ghost mut answers: Seq<Result<bool, E>> = Seq::empty();
        let mut i: usize = 0;
        while i < self.handlers.len()
            invariant
                self@ == old(self)@,
                self.accepts_every_event::<Ev, Wt, E>(),
                i <= self@.len(),
                states.len() == i + 1,
                answers.len() == i,
                states[0] == *old(event),
                states.last() == *event,
                forall|j: int| 0 <= j < i ==> !stops(#[trigger] answers[j]),
                forall|j: int| #[trigger] was_invoked(answers, j) ==> exists|call: &mut Ev| {
                        &&& *call == states[j]
                        &&& *final(call) == states[j + 1]
                        &&& #[trigger] call_ensures(old(self)@[j], (call, target), answers[j])
                    },
            decreases self@.len() - i,
        {
            let ghost before = *event;
            let ghost earlier_states = states;
            let ghost earlier_answers = answers;
            let answer = invoke(&mut self.handlers[i], event, target);
            proof {
                states = states.push(*event);
                answers = answers.push(answer);
                assert(self@ =~= old(self)@);
                assert forall|j: int| #[trigger] was_invoked(answers, j) implies exists|call: &mut Ev| {
                    &&& *call == states[j]
                    &&& *final(call) == states[j + 1]
                    &&& #[trigger] call_ensures(old(self)@[j], (call, target), answers[j])
                } by {
                    if j < i {
                        assert(was_invoked(earlier_answers, j));
                        assert(states[j] == earlier_states[j]);
                        assert(states[j + 1] == earlier_states[j + 1]);
                        assert(answers[j] == earlier_answers[j]);
                    } else {
                        assert(states[j] == before);
                        assert(states[j + 1] == *event);
                        assert(answers[j] == answer);
                    }
                }
            }
            match answer {
                Ok(captured) => {
                    if captured {
                        assert(is_walk(old(self)@.len(), states, answers));
                        return DispatchOutcome::Captured;
                    }
                },
                Err(e) => {
                    assert(is_walk(old(self)@.len(), states, answers));
                    return DispatchOutcome::Failed(e);
                },
            }
            i = i + 1;
        }
        assert(is_walk(old(self)@.len(), states, answers));
        DispatchOutcome::Continue
    }
}

} // verus!

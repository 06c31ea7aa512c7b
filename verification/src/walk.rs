//! The shape of a walk of one event along a chain: which handlers were
//! invoked, what they answered, and what the walk comes to.

use vstd::prelude::*;
use crate::outcome::{DispatchOutcome, outcome_of, stops};

verus! {

/// The answers of a walk along a chain of `chain_len` handlers obey the
/// stopping rule: every answer but the last lets the walk go on, and the walk
/// ends before the end of the chain only on an answer that stops it.
pub open spec fn obeys_stopping_rule<E>(chain_len: nat, answers: Seq<Result<bool, E>>) -> bool {
    &&& answers.len() <= chain_len
    &&& forall|i: int| 0 <= i < answers.len() - 1 ==> !stops(#[trigger] answers[i])
    &&& answers.len() < chain_len ==> answers.len() > 0 && stops(answers.last())
}

/// Whether the handler at `index` of the chain was invoked in a walk that
/// collected `answers`: handlers are invoked in chain order, one answer each.
pub open spec fn was_invoked<E>(answers: Seq<Result<bool, E>>, index: int) -> bool {
    0 <= index < answers.len()
}

/// `states` and `answers` have the shape of a walk along a chain of
/// `chain_len` handlers: one event value before each invocation and one after
/// the last, and answers that obey the stopping rule.
pub open spec fn is_walk<Ev, E>(
    chain_len: nat,
    states: Seq<Ev>,
    answers: Seq<Result<bool, E>>,
) -> bool {
    &&& states.len() == answers.len() + 1
    &&& obeys_stopping_rule(chain_len, answers)
}

/// Where no invoked handler consumes the event or fails, the walk reaches the
/// end of the chain: every handler is invoked, each once and in chain order,
/// and the outcome is `Continue`.
pub proof fn lemma_unstopped_walk_visits_all<Ev, E>(
    chain_len: nat,
    states: Seq<Ev>,
    answers: Seq<Result<bool, E>>,
)
    requires
        is_walk(chain_len, states, answers),
        forall|i: int| was_invoked(answers, i) ==> !stops(#[trigger] answers[i]),
    ensures
        answers.len() == chain_len,
        outcome_of(answers) == DispatchOutcome::<E>::Continue,
        forall|i: int| 0 <= i < chain_len <==> #[trigger] was_invoked(answers, i),
{
    if answers.len() > 0 {
        assert(was_invoked(answers, answers.len() - 1));
    }
}

/// Where the handler at `k` reports the event as consumed, the outcome is
/// `Captured` and no handler after `k` is invoked.
pub proof fn lemma_capture_ends_walk<Ev, E>(
    chain_len: nat,
    states: Seq<Ev>,
    answers: Seq<Result<bool, E>>,
    k: int,
)
    requires
        is_walk(chain_len, states, answers),
        was_invoked(answers, k),
        answers[k] == Ok::<bool, E>(true),
    ensures
        outcome_of(answers) == DispatchOutcome::<E>::Captured,
        answers.len() == k + 1,
        forall|j: int| j > k ==> !was_invoked(answers, j),
{
}

/// Where the handler at `k` fails, the outcome is `Failed` with its error and
/// no handler after `k` is invoked. Every handler before `k` was invoked and
/// let the event pass, and the event is left as the walk up to and including
/// `k` made it.
pub proof fn lemma_failure_ends_walk<Ev, E>(
    chain_len: nat,
    states: Seq<Ev>,
    answers: Seq<Result<bool, E>>,
    k: int,
    error: E,
)
    requires
        is_walk(chain_len, states, answers),
        was_invoked(answers, k),
        answers[k] == Err::<bool, E>(error),
    ensures
        outcome_of(answers) == DispatchOutcome::Failed(error),
        answers.len() == k + 1,
        forall|j: int| j > k ==> !was_invoked(answers, j),
        forall|j: int| 0 <= j < k ==> was_invoked(answers, j) && #[trigger] answers[j] == Ok::<bool, E>(false),
        states.last() == states[k + 1],
{
}

/// A walk along an empty chain invokes no handler, leaves the event as it
/// was, and comes to `Continue`.
pub proof fn lemma_empty_chain_continues<Ev, E>(states: Seq<Ev>, answers: Seq<Result<bool, E>>)
    requires
        is_walk(0, states, answers),
    ensures
        answers.len() == 0,
        forall|i: int| !was_invoked(answers, i),
        states.last() == states[0],
        outcome_of(answers) == DispatchOutcome::<E>::Continue,
{
}

} // verus!

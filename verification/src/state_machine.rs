use vstd::prelude::*;
use crate::fraud_scorer::FraudScorer;
use crate::transaction::Transaction;

verus! {

/// The event alphabet of the lifecycle state machine: a transaction is
/// advanced one stage by processing it.
#[derive(Clone, Copy, PartialEq, Eq, Structural, Debug)]
pub enum Event {
    Process,
}

/// The lifecycle stages a single transaction passes through:
/// `Validated` and `Enriched` are transient, `Persisted` and `FlaggedAsFraud`
/// are terminal. No stage may be skipped, and once a terminal stage is
/// reached every further event leaves the state unchanged.
#[derive(Clone, Copy, PartialEq, Eq, Structural, Debug)]
pub enum State {
    Validated,
    Enriched,
    Persisted,
    FlaggedAsFraud,
}

impl State {
    /// A terminal state absorbs every further event.
    pub open spec fn spec_is_terminal(self) -> bool {
        self is Persisted || self is FlaggedAsFraud
    }

    /// Whether the lifecycle is complete: no further transition is legal.
    #[verifier::when_used_as_spec(spec_is_terminal)]
    pub fn is_terminal(self) -> (r: bool)
        ensures
            r == self.spec_is_terminal(),
    {
        match self {
            State::Persisted => true,
            State::FlaggedAsFraud => true,
            _ => false,
        }
    }

    /// The transition taken on a plain `Process` event: `Validated` is
    /// accepted into the pipeline and becomes `Enriched`; every other state
    /// is left unchanged (`Enriched` advances only through a scorer verdict).
    pub open spec fn spec_handle(self, event: Event) -> State {
        match self {
            State::Validated => State::Enriched,
            _ => self,
        }
    }

    /// The transition taken from `Enriched` once the fraud verdict is known.
    pub open spec fn spec_apply_verdict(self, verdict: bool) -> State {
        if verdict {
            State::FlaggedAsFraud
        } else {
            State::Persisted
        }
    }

    /// How many transitions can still change the state; the driving loop
    /// terminates because every step strictly decreases it until it is zero.
    pub open spec fn rank(self) -> nat {
        match self {
            State::Validated => 2,
            State::Enriched => 1,
            _ => 0,
        }
    }

    /// Apply one plain event. From `Validated` this always yields
    /// `Enriched`; terminal states are left unchanged, and so is `Enriched`,
    /// which only the verdict-bearing transition can advance.
    pub fn handle(self, _event: Event) -> (next: State)
        ensures
            next == self.spec_handle(_event),
            self is Validated ==> next is Enriched,
            self.is_terminal() ==> next == self,
    {
        match self {
            State::Validated => State::Enriched,
            _ => self,
        }
    }

    /// Apply the scorer-dependent transition. Invoking it anywhere but in
    /// `Enriched` is a caller bug, ruled out by the precondition: the state
    /// yields `FlaggedAsFraud` exactly when the verdict is fraud, and
    /// `Persisted` exactly when it is not.
    pub fn apply_verdict(self, verdict: bool) -> (next: State)
        requires
            self is Enriched,
        ensures
            next == self.spec_apply_verdict(verdict),
            next is FlaggedAsFraud <==> verdict,
            next is Persisted <==> !verdict,
            next.is_terminal(),
    {
        if verdict {
            State::FlaggedAsFraud
        } else {
            State::Persisted
        }
    }

    /// Apply the scorer-dependent transition: ask the scorer for its verdict
    /// on the transaction and advance accordingly. Legal only from
    /// `Enriched`; the result is always terminal, and under a deterministic
    /// scorer it is exactly the state the scorer's verdict picks.
    pub fn handle_with_scorer<S: FraudScorer>(self, tx: &Transaction, scorer: &S) -> (next: State)
        requires
            self is Enriched,
        ensures
            next.is_terminal(),
            scorer.spec_deterministic() ==> next == self.spec_apply_verdict(
                scorer.spec_verdict(tx),
            ),
    {
        let verdict = scorer.is_fraud(tx);
        self.apply_verdict(verdict)
    }

    /// The printable name of the state.
    pub fn name(self) -> (n: &'static str)
        ensures
            n@ == self.spec_name(),
    {
        match self {
            State::Validated => "Validated",
            State::Enriched => "Enriched",
            State::Persisted => "Persisted",
            State::FlaggedAsFraud => "FlaggedAsFraud",
        }
    }

    /// The name of each state, as the view of the string `name` returns.
    pub open spec fn spec_name(self) -> Seq<char> {
        match self {
            State::Validated => "Validated"@,
            State::Enriched => "Enriched"@,
            State::Persisted => "Persisted"@,
            State::FlaggedAsFraud => "FlaggedAsFraud"@,
        }
    }
}

/// Absorption, stated on its own: from a terminal state, any sequence of
/// plain events leaves the state exactly where it is.
pub proof fn lemma_terminal_states_absorb(s: State, event: Event)
    requires
        s.is_terminal(),
    ensures
        s.spec_handle(event) == s,
{
}

/// Drive one transaction's lifecycle from `Validated` to rest: accept it
/// into the pipeline, then let the scorer's verdict pick the terminal stage.
/// The result is always terminal, and under a deterministic scorer it is
/// `FlaggedAsFraud` exactly on a fraud verdict and `Persisted` otherwise.
pub fn run_state_machine<S: FraudScorer>(tx: &Transaction, scorer: &S) -> (end: State)
    ensures
        end.is_terminal(),
        scorer.spec_deterministic() ==> end == State::Enriched.spec_apply_verdict(
            scorer.spec_verdict(tx),
        ),
{
    let mut state = State::Validated;
    while !state.is_terminal()
        invariant
            scorer.spec_deterministic() ==> state is Validated || state is Enriched || state
                == State::Enriched.spec_apply_verdict(scorer.spec_verdict(tx)),
        decreases state.rank(),
    {
        match state {
            State::Validated => {
                state = state.handle(Event::Process);
            },
            State::Enriched => {
                state = state.handle_with_scorer(tx, scorer);
            },
            _ => {
                proof {
                    assert(false);
                }
            },
        }
    }
    state
}

} // verus!

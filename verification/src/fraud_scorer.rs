use vstd::prelude::*;
use crate::rng::draw_in_range;
use crate::scoring::SCORE_SCALE;
use crate::transaction::Transaction;

verus! {

/// An amount above this many minor units (1000.00 in decimal) is treated as
/// suspicious by the rule-based scorer.
pub const HIGH_AMOUNT_LIMIT: u64 = 100000;

/// The fraud-verdict capability the pipeline consumes: given a transaction,
/// decide whether it looks fraudulent. Scorer internals are outside the
/// pipeline; only this interface is depended on. A scorer whose verdict is a
/// function of the transaction alone says so through `spec_deterministic`,
/// and then `is_fraud` returns exactly `spec_verdict`; of any other scorer
/// (one that draws randomness) nothing is promised beyond termination.
pub trait FraudScorer {
    /// Whether the verdict is a function of the transaction alone.
    spec fn spec_deterministic(&self) -> bool;

    /// The verdict a deterministic scorer reaches on this transaction.
    spec fn spec_verdict(&self, tx: &Transaction) -> bool;

    /// Decide whether the transaction looks fraudulent.
    fn is_fraud(&self, tx: &Transaction) -> (verdict: bool)
        ensures
            self.spec_deterministic() ==> verdict == self.spec_verdict(tx),
    ;
}

/// A scorer that flags a fixed fraction of transactions at random. The rate
/// is a permyriad probability on the [`SCORE_SCALE`] scale: 3000 flags about
/// 30% of the traffic. Only the degenerate rates (never and always) make it
/// deterministic.
pub struct RandomScorer {
    /// Permyriad probability that a transaction is flagged.
    pub fraud_rate: u64,
}

impl FraudScorer for RandomScorer {
    open spec fn spec_deterministic(&self) -> bool {
        self.fraud_rate == 0 || self.fraud_rate >= SCORE_SCALE
    }

    open spec fn spec_verdict(&self, tx: &Transaction) -> bool {
        self.fraud_rate >= SCORE_SCALE
    }

    fn is_fraud(&self, tx: &Transaction) -> (verdict: bool)
        ensures
            self.spec_deterministic() ==> verdict == self.spec_verdict(tx),
    {
        let draw = draw_in_range(0, SCORE_SCALE - 1);
        draw < self.fraud_rate
    }
}

/// A deterministic scorer: a transaction is fraudulent exactly when its
/// amount exceeds [`HIGH_AMOUNT_LIMIT`] or its currency is "BTC".
pub struct RuleBasedScorer;

impl FraudScorer for RuleBasedScorer {
    open spec fn spec_deterministic(&self) -> bool {
        true
    }

    open spec fn spec_verdict(&self, tx: &Transaction) -> bool {
        tx.amount > HIGH_AMOUNT_LIMIT || tx.currency@ == "BTC"@
    }

    fn is_fraud(&self, tx: &Transaction) -> (verdict: bool)
        ensures
            self.spec_deterministic() ==> verdict == self.spec_verdict(tx),
    {
        let btc: String = "BTC".to_owned();
        tx.amount > HIGH_AMOUNT_LIMIT || tx.currency == btc
    }
}

/// A stand-in for a model-backed scorer: until a model is wired in, it
/// clears every transaction.
pub struct MlModelScorer;

impl FraudScorer for MlModelScorer {
    open spec fn spec_deterministic(&self) -> bool {
        true
    }

    open spec fn spec_verdict(&self, tx: &Transaction) -> bool {
        false
    }

    fn is_fraud(&self, tx: &Transaction) -> (verdict: bool)
        ensures
            self.spec_deterministic() ==> verdict == self.spec_verdict(tx),
    {
        false
    }
}

} // verus!

use vstd::prelude::*;

verus! {

/// Fraud scores are decimals in [0.0, 1.0], held exactly as a count of
/// permyriad steps: a stored score `s` stands for the decimal `s / 10000`.
pub const SCORE_SCALE: u64 = 10000;

/// The reference verdict threshold, 0.8 on the decimal scale. The dispatcher
/// takes the threshold as a parameter, so policy can configure it; this is
/// only the default.
pub const FRAUD_THRESHOLD: u64 = 8000;

/// The scoring record written for a transaction once it has been evaluated:
/// the id of the transaction it scores, the numeric score on the
/// [`SCORE_SCALE`] scale, and the verdict derived from the score.
#[derive(Debug)]
pub struct Score {
    pub id: String,
    /// Permyriad score: 8000 stands for 0.8.
    pub score: u64,
    pub is_fraud: bool,
}

/// A well-formed score lies on the scale and carries exactly the verdict
/// that the threshold derives from its numeric score.
pub open spec fn score_wf(sc: Score, threshold: u64) -> bool {
    &&& sc.score <= SCORE_SCALE
    &&& sc.is_fraud == (sc.score > threshold)
}

impl Score {
    /// Build the scoring record for one transaction: deriving the boolean
    /// verdict from the numeric score is the caller's (the dispatcher's)
    /// responsibility, and this is where it happens.
    pub fn derive(id: String, score: u64, threshold: u64) -> (sc: Score)
        requires
            score <= SCORE_SCALE,
        ensures
            sc.id == id,
            sc.score == score,
            sc.is_fraud == (score > threshold),
            score_wf(sc, threshold),
    {
        Score { id, score, is_fraud: score > threshold }
    }
}

impl Clone for Score {
    fn clone(&self) -> (res: Self)
        ensures
            res == *self,
    {
        Score { id: self.id.clone(), score: self.score, is_fraud: self.is_fraud }
    }
}

} // verus!

use vstd::prelude::*;

verus! {

/// A transaction as the producer hands it to the pipeline: a caller-assigned
/// unique id, an amount, and a short currency code. The amount is a
/// non-negative decimal with two fraction digits, held exactly as a count of
/// minor currency units (cents). A transaction is immutable once sent; it is
/// handed off whole from producer to queue to worker to store.
#[derive(Debug)]
pub struct Transaction {
    pub id: String,
    /// Amount in minor currency units: 12345 stands for 123.45.
    pub amount: u64,
    pub currency: String,
}

impl Clone for Transaction {
    fn clone(&self) -> (res: Self)
        ensures
            res == *self,
    {
        Transaction { id: self.id.clone(), amount: self.amount, currency: self.currency.clone() }
    }
}

} // verus!

use vstd::prelude::*;
use crate::record_table::RecordTable;
use crate::repository::{ScoringResultRepository, TransactionRepository};
use crate::scoring::Score;
use crate::transaction::Transaction;

verus! {

/// The volatile implementation of the transaction collection: an in-memory
/// table, useful for tests and benchmarks. Callers that share one store
/// across workers serialize access around it; the store itself never shows
/// a partially written record.
pub struct InMemoryTransactionRepo {
    store: RecordTable<Transaction>,
}

impl InMemoryTransactionRepo {
    /// A fresh store: no id has ever been saved.
    pub fn new() -> (r: Self)
        ensures
            r.inv(),
            r.txs() == Map::<Seq<char>, Transaction>::empty(),
    {
        InMemoryTransactionRepo { store: RecordTable::new() }
    }

    /// How many transactions the store holds: one per distinct id saved.
    pub fn len(&self) -> (n: usize)
        requires
            self.inv(),
        ensures
            n == self.txs().dom().len(),
    {
        self.store.len()
    }
}

impl TransactionRepository for InMemoryTransactionRepo {
    closed spec fn txs(&self) -> Map<Seq<char>, Transaction> {
        self.store@
    }

    closed spec fn inv(&self) -> bool {
        self.store.wf()
    }

    fn save(&mut self, tx: Transaction) {
        let id = tx.id.clone();
        self.store.set(id, tx);
    }

    fn get(&self, id: &str) -> (r: Option<Transaction>) {
        match self.store.get(id) {
            Some(tx) => Some(tx.clone()),
            None => None,
        }
    }
}

/// The volatile implementation of the score collection.
pub struct InMemoryScoringResultRepo {
    store: RecordTable<Score>,
}

impl InMemoryScoringResultRepo {
    /// A fresh store: no id has ever been saved.
    pub fn new() -> (r: Self)
        ensures
            r.inv(),
            r.scores() == Map::<Seq<char>, Score>::empty(),
    {
        InMemoryScoringResultRepo { store: RecordTable::new() }
    }

    /// How many scores the store holds: one per distinct id saved.
    pub fn len(&self) -> (n: usize)
        requires
            self.inv(),
        ensures
            n == self.scores().dom().len(),
    {
        self.store.len()
    }
}

impl ScoringResultRepository for InMemoryScoringResultRepo {
    closed spec fn scores(&self) -> Map<Seq<char>, Score> {
        self.store@
    }

    closed spec fn inv(&self) -> bool {
        self.store.wf()
    }

    fn save(&mut self, result: Score) {
        let id = result.id.clone();
        self.store.set(id, result);
    }

    fn get(&self, tx_id: &str) -> (r: Option<Score>) {
        match self.store.get(tx_id) {
            Some(sc) => Some(sc.clone()),
            None => None,
        }
    }
}

} // verus!

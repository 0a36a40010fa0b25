use vstd::prelude::*;
use crate::scoring::Score;
use crate::transaction::Transaction;

verus! {

/// The persistence capability for the transaction collection: upsert by
/// primary key and lookup by exact key. Implementations serialize their own
/// access (a lock per store, or finer); callers see a single map from id to
/// the record most recently saved under it, and never a partially written
/// record.
pub trait TransactionRepository {
    /// The records currently visible, keyed by transaction id. An
    /// implementation redefines this to say what its records are; the
    /// default stands for an implementation that says nothing.
    open spec fn txs(&self) -> Map<Seq<char>, Transaction> {
        Map::empty()
    }

    /// Whether the store is in a state its own operations keep it in. An
    /// implementation that does not redefine it promises nothing.
    open spec fn inv(&self) -> bool {
        false
    }

    /// Upsert by primary key: afterwards the record's id holds exactly this
    /// record — a second save under the same id overwrites the first — and
    /// every other id is untouched. Either the full record is visible
    /// afterwards or the operation did not return.
    fn save(&mut self, tx: Transaction)
        requires
            old(self).inv(),
        ensures
            final(self).inv(),
            final(self).txs() == old(self).txs().insert(tx.id@, tx),
    ;

    /// The current record for the key: present exactly when some record was
    /// saved under the id, absent — never a default or garbage record —
    /// exactly when none ever was.
    fn get(&self, id: &str) -> (r: Option<Transaction>)
        requires
            self.inv(),
        ensures
            match r {
                Some(tx) => self.txs().contains_key(id@) && tx == self.txs()[id@],
                None => !self.txs().contains_key(id@),
            },
    ;
}

/// The persistence capability for the score collection, keyed by the id of
/// the transaction each score evaluates. The contract is that of
/// [`TransactionRepository`], record kind aside.
pub trait ScoringResultRepository {
    /// The scoring records currently visible, keyed by transaction id. An
    /// implementation redefines this to say what its records are; the
    /// default stands for an implementation that says nothing.
    open spec fn scores(&self) -> Map<Seq<char>, Score> {
        Map::empty()
    }

    /// Whether the store is in a state its own operations keep it in. An
    /// implementation that does not redefine it promises nothing.
    open spec fn inv(&self) -> bool {
        false
    }

    /// Upsert by primary key; a re-save under the same id overwrites.
    fn save(&mut self, result: Score)
        requires
            old(self).inv(),
        ensures
            final(self).inv(),
            final(self).scores() == old(self).scores().insert(result.id@, result),
    ;

    /// The current scoring record for the key, or absence if never saved.
    fn get(&self, tx_id: &str) -> (r: Option<Score>)
        requires
            self.inv(),
        ensures
            match r {
                Some(sc) => self.scores().contains_key(tx_id@) && sc == self.scores()[tx_id@],
                None => !self.scores().contains_key(tx_id@),
            },
    ;
}

/// Idempotent upsert: two saves under one id — as `save`'s contract renders
/// them on the store's records — leave exactly one record under that id,
/// and the second save's values win; every other id is untouched.
pub proof fn lemma_second_save_wins(m: Map<Seq<char>, Transaction>, a: Transaction, b: Transaction)
    requires
        a.id@ == b.id@,
    ensures
        m.insert(a.id@, a).insert(b.id@, b) == m.insert(b.id@, b),
        m.insert(a.id@, a).insert(b.id@, b)[b.id@] == b,
        m.insert(a.id@, a).insert(b.id@, b).dom() == m.dom().insert(b.id@),
{
    assert(m.insert(a.id@, a).insert(b.id@, b) =~= m.insert(b.id@, b));
    assert(m.insert(a.id@, a).insert(b.id@, b).dom() =~= m.dom().insert(b.id@));
}

} // verus!

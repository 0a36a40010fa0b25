use vstd::prelude::*;

verus! {

/// The records a sequence of keyed entries describes, taken in order: a
/// later entry for the same key overwrites an earlier one.
pub open spec fn table_model<V>(s: Seq<(String, V)>) -> Map<Seq<char>, V>
    decreases s.len(),
{
    if s.len() == 0 {
        Map::empty()
    } else {
        table_model(s.drop_last()).insert(s.last().0@, s.last().1)
    }
}

/// No two entries carry the same key.
pub open spec fn keys_distinct<V>(s: Seq<(String, V)>) -> bool {
    forall|i: int, j: int| 0 <= i < j < s.len() ==> s[i].0@ != s[j].0@
}

/// A key is in the model exactly when some entry carries it.
pub proof fn lemma_model_key_present<V>(s: Seq<(String, V)>, x: Seq<char>)
    ensures
        table_model(s).contains_key(x) <==> exists|i: int| 0 <= i < s.len() && s[i].0@ == x,
    decreases s.len(),
{
    if s.len() > 0 {
        lemma_model_key_present(s.drop_last(), x);
        if s.last().0@ == x {
            assert(s[s.len() - 1].0@ == x);
        } else {
            if exists|i: int| 0 <= i < s.len() && s[i].0@ == x {
                let i = choose|i: int| 0 <= i < s.len() && s[i].0@ == x;
                assert(s.drop_last()[i] == s[i]);
            }
        }
    }
}

/// Under distinct keys, the model maps each entry's key to that entry's value.
pub proof fn lemma_model_at_entry<V>(s: Seq<(String, V)>, i: int)
    requires
        keys_distinct(s),
        0 <= i < s.len(),
    ensures
        table_model(s).contains_key(s[i].0@),
        table_model(s)[s[i].0@] == s[i].1,
    decreases s.len(),
{
    if i == s.len() - 1 {
    } else {
        assert(s.drop_last()[i] == s[i]);
        assert(keys_distinct(s.drop_last())) by {
            assert(forall|p: int, q: int|
                0 <= p < q < s.drop_last().len() ==> s.drop_last()[p] == s[p] && s.drop_last()[q]
                    == s[q]);
        }
        lemma_model_at_entry(s.drop_last(), i);
        assert(s[i].0@ != s.last().0@);
    }
}

/// Replacing the entry that carries a key changes the model exactly as an
/// insert under that key does.
pub proof fn lemma_model_update<V>(s: Seq<(String, V)>, i: int, k: String, v: V)
    requires
        keys_distinct(s),
        0 <= i < s.len(),
        s[i].0@ == k@,
    ensures
        table_model(s.update(i, (k, v))) == table_model(s).insert(k@, v),
        keys_distinct(s.update(i, (k, v))),
    decreases s.len(),
{
    let u = s.update(i, (k, v));
    assert(keys_distinct(u)) by {
        assert(forall|p: int| 0 <= p < u.len() && p != i ==> u[p] == s[p]);
        assert(u[i].0@ == s[i].0@);
    }
    if i == s.len() - 1 {
        assert(u.drop_last() =~= s.drop_last());
        assert(u.last() == (k, v));
        assert(table_model(u) == table_model(s.drop_last()).insert(k@, v));
        assert(table_model(s).insert(k@, v) == table_model(s.drop_last()).insert(
            s.last().0@,
            s.last().1,
        ).insert(k@, v));
        assert(table_model(s.drop_last()).insert(s.last().0@, s.last().1).insert(k@, v)
            =~= table_model(s.drop_last()).insert(k@, v));
    } else {
        assert(u.drop_last() =~= s.drop_last().update(i, (k, v)));
        assert(u.last() == s.last());
        assert(s.drop_last()[i] == s[i]);
        assert(keys_distinct(s.drop_last())) by {
            assert(forall|p: int, q: int|
                0 <= p < q < s.drop_last().len() ==> s.drop_last()[p] == s[p] && s.drop_last()[q]
                    == s[q]);
        }
        lemma_model_update(s.drop_last(), i, k, v);
        // The two inserted keys differ, so the inserts commute.
        assert(s[i].0@ != s.last().0@);
        assert(table_model(u) == table_model(s.drop_last()).insert(k@, v).insert(
            s.last().0@,
            s.last().1,
        ));
        assert(table_model(s.drop_last()).insert(k@, v).insert(s.last().0@, s.last().1)
            =~= table_model(s.drop_last()).insert(s.last().0@, s.last().1).insert(k@, v));
    }
}

/// Appending an entry changes the model exactly as an insert does.
pub proof fn lemma_model_push<V>(s: Seq<(String, V)>, k: String, v: V)
    ensures
        table_model(s.push((k, v))) == table_model(s).insert(k@, v),
{
    assert(s.push((k, v)).drop_last() =~= s);
    assert(s.push((k, v)).last() == (k, v));
}

/// Under distinct keys the model holds exactly one record per entry.
pub proof fn lemma_model_dom_len<V>(s: Seq<(String, V)>)
    requires
        keys_distinct(s),
    ensures
        table_model(s).dom().finite(),
        table_model(s).dom().len() == s.len(),
    decreases s.len(),
{
    if s.len() > 0 {
        assert(keys_distinct(s.drop_last())) by {
            assert(forall|p: int, q: int|
                0 <= p < q < s.drop_last().len() ==> s.drop_last()[p] == s[p] && s.drop_last()[q]
                    == s[q]);
        }
        lemma_model_dom_len(s.drop_last());
        lemma_model_key_present(s.drop_last(), s.last().0@);
        assert(forall|i: int|
            0 <= i < s.drop_last().len() ==> s.drop_last()[i] == s[i] && s[i].0@ != s.last().0@);
        assert(!table_model(s.drop_last()).contains_key(s.last().0@));
        assert(table_model(s).dom() =~= table_model(s.drop_last()).dom().insert(s.last().0@));
    }
}

/// One collection of the record store: an in-memory table of records keyed
/// by a string primary key, observed as the map from each key to the record
/// most recently saved under it.
pub struct RecordTable<V> {
    entries: Vec<(String, V)>,
}

impl<V> View for RecordTable<V> {
    type V = Map<Seq<char>, V>;

    closed spec fn view(&self) -> Map<Seq<char>, V> {
        table_model(self.entries@)
    }
}

impl<V> RecordTable<V> {
    /// The table keeps one entry per key.
    pub closed spec fn wf(&self) -> bool {
        keys_distinct(self.entries@)
    }

    /// An empty table: no key has ever been saved.
    pub fn new() -> (r: Self)
        ensures
            r.wf(),
            r@ == Map::<Seq<char>, V>::empty(),
    {
        RecordTable { entries: Vec::new() }
    }

    /// Upsert: afterwards the key holds exactly the given record, and every
    /// other key is untouched; saving under a present key overwrites.
    pub fn set(&mut self, k: String, v: V)
        requires
            old(self).wf(),
        ensures
            final(self).wf(),
            final(self)@ == old(self)@.insert(k@, v),
    {
        let n = self.entries.len();
        let mut i: usize = 0;
        while i < n
            invariant
                i <= n,
                n == self.entries.len(),
                self == old(self),
                self.wf(),
                forall|j: int| 0 <= j < i ==> self.entries@[j].0@ != k@,
            decreases n - i,
        {
            if self.entries[i].0 == k {
                proof {
                    lemma_model_update(self.entries@, i as int, k, v);
                }
                self.entries[i] = (k, v);
                return ;
            }
            i += 1;
        }
        proof {
            lemma_model_push(self.entries@, k, v);
        }
        self.entries.push((k, v));
    }

    /// The record currently under the key, or absence if the key was never
    /// saved — never a default or partial record.
    pub fn get(&self, k: &str) -> (r: Option<&V>)
        requires
            self.wf(),
        ensures
            match r {
                Some(v) => self@.contains_key(k@) && *v == self@[k@],
                None => !self@.contains_key(k@),
            },
    {
        let key: String = k.to_owned();
        let n = self.entries.len();
        let mut i: usize = 0;
        while i < n
            invariant
                i <= n,
                n == self.entries.len(),
                self.wf(),
                key@ == k@,
                forall|j: int| 0 <= j < i ==> self.entries@[j].0@ != k@,
            decreases n - i,
        {
            if self.entries[i].0 == key {
                proof {
                    lemma_model_at_entry(self.entries@, i as int);
                }
                return Some(&self.entries[i].1);
            }
            i += 1;
        }
        proof {
            lemma_model_key_present(self.entries@, k@);
        }
        None
    }

    /// How many records the table holds: exactly one per key ever saved.
    pub fn len(&self) -> (n: usize)
        requires
            self.wf(),
        ensures
            n == self@.dom().len(),
    {
        proof {
            lemma_model_dom_len(self.entries@);
        }
        self.entries.len()
    }
}

} // verus!

//! A string-keyed table with unique keys, modelled as a `Map` from
//! character sequences to the views of its values. The control agent keys
//! its subgraphs and their port aliases by name, so the same structure
//! serves both.

use vstd::prelude::*;
use crate::text::str_eq;

verus! {

/// The map denoted by a sequence of keyed entries; a later entry for the
/// same key wins, as with repeated insertion.
pub open spec fn table_map<V: View>(s: Seq<(String, V)>) -> Map<Seq<char>, V::V>
    decreases s.len(),
{
    if s.len() == 0 {
        Map::empty()
    } else {
        table_map(s.drop_last()).insert(s.last().0@, s.last().1@)
    }
}

/// No two entries share a key.
pub open spec fn unique_keys<V>(s: Seq<(String, V)>) -> bool {
    forall|i: int, j: int| 0 <= i < j < s.len() ==> s[i].0@ != s[j].0@
}

proof fn lemma_table_index<V: View>(s: Seq<(String, V)>, i: int)
    requires
        unique_keys(s),
        0 <= i < s.len(),
    ensures
        table_map(s).contains_key(s[i].0@),
        table_map(s)[s[i].0@] == s[i].1@,
    decreases s.len(),
{
    if i == s.len() - 1 {
    } else {
        lemma_table_index(s.drop_last(), i);
        assert(s.drop_last()[i] == s[i]);
        assert(s.last().0@ != s[i].0@);
    }
}

proof fn lemma_table_last_match<V: View>(s: Seq<(String, V)>, i: int)
    requires
        0 <= i < s.len(),
        forall|j: int| i < j < s.len() ==> s[j].0@ != s[i].0@,
    ensures
        table_map(s).contains_key(s[i].0@),
        table_map(s)[s[i].0@] == s[i].1@,
    decreases s.len(),
{
    if i < s.len() - 1 {
        lemma_table_last_match(s.drop_last(), i);
        assert(s.drop_last()[i] == s[i]);
        assert(s.last().0@ != s[i].0@);
    }
}

proof fn lemma_table_absent<V: View>(s: Seq<(String, V)>, key: Seq<char>)
    requires
        forall|i: int| 0 <= i < s.len() ==> s[i].0@ != key,
    ensures
        !table_map(s).contains_key(key),
    decreases s.len(),
{
    if s.len() > 0 {
        lemma_table_absent(s.drop_last(), key);
    }
}

proof fn lemma_table_remove<V: View>(s: Seq<(String, V)>, i: int)
    requires
        unique_keys(s),
        0 <= i < s.len(),
    ensures
        table_map(s.remove(i)) == table_map(s).remove(s[i].0@),
        unique_keys(s.remove(i)),
    decreases s.len(),
{
    let key = s[i].0@;
    if i == s.len() - 1 {
        assert(s.remove(i) =~= s.drop_last());
        assert(forall|j: int| 0 <= j < s.drop_last().len() ==> s.drop_last()[j].0@ != key);
        lemma_table_absent(s.drop_last(), key);
        assert(table_map(s.drop_last()) =~= table_map(s.drop_last()).insert(key, s[i].1@).remove(
            key,
        ));
    } else {
        lemma_table_remove(s.drop_last(), i);
        assert(s.remove(i).drop_last() =~= s.drop_last().remove(i));
        assert(s.remove(i).last() == s.last());
        assert(s.drop_last()[i] == s[i]);
        assert(s.last().0@ != key);
        assert(table_map(s.drop_last()).remove(key).insert(s.last().0@, s.last().1@) =~= table_map(
            s.drop_last(),
        ).insert(s.last().0@, s.last().1@).remove(key));
    }
}

/// A table of values keyed by unique names.
pub struct Table<V> {
    entries: Vec<(String, V)>,
}

impl<V: View> Table<V> {
    /// The map this table denotes.
    pub closed spec fn model(&self) -> Map<Seq<char>, V::V> {
        table_map(self.entries@)
    }

    /// Keys are unique.
    pub closed spec fn wf(&self) -> bool {
        unique_keys(self.entries@)
    }

    /// The empty table.
    pub fn new() -> (r: Table<V>)
        ensures
            r.model() == Map::<Seq<char>, V::V>::empty(),
            r.wf(),
    {
        Table { entries: Vec::new() }
    }

    /// The value stored under `key`, if any.
    pub fn get(&self, key: &str) -> (r: Option<&V>)
        ensures
            match r {
                Some(v) => self.model().contains_key(key@) && v@ == self.model()[key@],
                None => !self.model().contains_key(key@),
            },
    {
        let n = self.entries.len();
        let mut i: usize = n;
        while i > 0
            invariant
                i <= n,
                n == self.entries@.len(),
                forall|j: int| i <= j < n ==> self.entries@[j].0@ != key@,
            decreases i,
    {
            let k = i - 1;
            if str_eq(self.entries[k].0.as_str(), key) {
                proof {
                    lemma_table_last_match(self.entries@, k as int);
                }
                return Some(&self.entries[k].1);
            }
            i -= 1;
        }
        proof {
            lemma_table_absent(self.entries@, key@);
        }
        None
    }

    /// Removes and returns the value stored under `key`, if any.
    pub fn remove(&mut self, key: &str) -> (r: Option<V>)
        requires
            old(self).wf(),
        ensures
            final(self).wf(),
            match r {
                Some(v) => old(self).model().contains_key(key@) && v@ == old(self).model()[key@]
                    && final(self).model() == old(self).model().remove(key@),
                None => !old(self).model().contains_key(key@) && final(self).model() == old(
                    self,
                ).model(),
            },
    {
        let n = self.entries.len();
        let mut i: usize = 0;
        while i < n
            invariant
                i <= n,
                n == self.entries@.len(),
                self.wf(),
                self.entries@ == old(self).entries@,
                forall|j: int| 0 <= j < i ==> self.entries@[j].0@ != key@,
            decreases n - i,
        {
            if str_eq(self.entries[i].0.as_str(), key) {
                proof {
                    lemma_table_index(self.entries@, i as int);
                    lemma_table_remove(self.entries@, i as int);
                }
                let e = self.entries.remove(i);
                return Some(e.1);
            }
            i += 1;
        }
        proof {
            lemma_table_absent(self.entries@, key@);
        }
        None
    }

    /// Stores `val` under `key`, replacing any value already there.
    pub fn insert(&mut self, key: String, val: V)
        requires
            old(self).wf(),
        ensures
            final(self).wf(),
            final(self).model() == old(self).model().insert(key@, val@),
    {
        let _ = self.remove(key.as_str());
        proof {
            assert forall|i: int| 0 <= i < self.entries@.len() implies self.entries@[i].0@
                != key@ by {
                if self.entries@[i].0@ == key@ {
                    lemma_table_index(self.entries@, i);
                }
            }
        }
        let ghost before = self.entries@;
        self.entries.push((key, val));
        proof {
            assert(self.entries@.drop_last() =~= before);
            assert(self.model() =~= old(self).model().insert(key@, val@));
        }
    }
}

} // verus!

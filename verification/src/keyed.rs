//! A table of values keyed by name, with at most one entry per name: the
//! store behind the plugin, command, alias and database tables.
use vstd::prelude::*;

use crate::text::{owned, str_eq};

verus! {

/// Whether no two entries share a key.
pub open spec fn unique_keys<V>(s: Seq<(String, V)>) -> bool {
    forall|i: int, j: int| 0 <= i < j < s.len() ==> s[i].0@ != s[j].0@
}

/// Whether some entry has key `k`.
pub open spec fn has_key<V>(s: Seq<(String, V)>, k: Seq<char>) -> bool {
    exists|i: int| 0 <= i < s.len() && (#[trigger] s[i]).0@ == k
}

/// The map from keys to values that a list of entries stands for.
pub open spec fn entries_map<V>(s: Seq<(String, V)>) -> Map<Seq<char>, V> {
    Map::new(
        |k: Seq<char>| has_key(s, k),
        |k: Seq<char>| s[choose|i: int| 0 <= i < s.len() && (#[trigger] s[i]).0@ == k].1,
    )
}

/// An entry's key and value are in the map its list stands for.
pub proof fn lemma_entry_in_map<V>(s: Seq<(String, V)>, i: int)
    requires
        unique_keys(s),
        0 <= i < s.len(),
    ensures
        entries_map(s).contains_key(s[i].0@),
        entries_map(s)[s[i].0@] == s[i].1,
{
    let k = s[i].0@;
    assert(has_key(s, k));
    let j = choose|j: int| 0 <= j < s.len() && (#[trigger] s[j]).0@ == k;
    if j != i {
        if j < i {
            assert(s[j].0@ != s[i].0@);
        } else {
            assert(s[i].0@ != s[j].0@);
        }
    }
}

/// Pushing an entry with a fresh key inserts it into the map.
pub proof fn lemma_push_fresh<V>(s: Seq<(String, V)>, k: String, v: V)
    requires
        unique_keys(s),
        !has_key(s, k@),
    ensures
        unique_keys(s.push((k, v))),
        entries_map(s.push((k, v))) == entries_map(s).insert(k@, v),
{
    let t = s.push((k, v));
    assert forall|i: int, j: int| 0 <= i < j < t.len() implies t[i].0@ != t[j].0@ by {
        if j == s.len() {
            assert(t[i] == s[i]);
        } else {
            assert(s[i].0@ != s[j].0@);
        }
    }
    lemma_entry_in_map(t, s.len() as int);
    assert forall|q: Seq<char>| #[trigger] entries_map(t).contains_key(q) == entries_map(s).insert(k@, v).contains_key(q) by {
        if has_key(s, q) {
            let j = choose|j: int| 0 <= j < s.len() && (#[trigger] s[j]).0@ == q;
            assert(t[j] == s[j]);
        }
        if has_key(t, q) && q != k@ {
            let j = choose|j: int| 0 <= j < t.len() && (#[trigger] t[j]).0@ == q;
            assert(j < s.len());
            assert(s[j] == t[j]);
        }
    }
    assert forall|q: Seq<char>| entries_map(t).contains_key(q) implies entries_map(t)[q] == entries_map(s).insert(k@, v)[q] by {
        if q != k@ {
            let j = choose|j: int| 0 <= j < t.len() && (#[trigger] t[j]).0@ == q;
            assert(j < s.len());
            assert(s[j] == t[j]);
            lemma_entry_in_map(t, j);
            lemma_entry_in_map(s, j);
        }
    }
    assert(entries_map(t) =~= entries_map(s).insert(k@, v));
}

/// Removing the entry at `i` removes its key from the map.
pub proof fn lemma_remove_at<V>(s: Seq<(String, V)>, i: int)
    requires
        unique_keys(s),
        0 <= i < s.len(),
    ensures
        unique_keys(s.remove(i)),
        entries_map(s.remove(i)) == entries_map(s).remove(s[i].0@),
{
    let t = s.remove(i);
    assert forall|a: int, b: int| 0 <= a < b < t.len() implies t[a].0@ != t[b].0@ by {
        let a2 = if a < i { a } else { a + 1 };
        let b2 = if b < i { b } else { b + 1 };
        assert(t[a] == s[a2]);
        assert(t[b] == s[b2]);
    }
    let k = s[i].0@;
    assert forall|q: Seq<char>| #[trigger] entries_map(t).contains_key(q) == entries_map(s).remove(k).contains_key(q) by {
        if has_key(t, q) {
            let j = choose|j: int| 0 <= j < t.len() && (#[trigger] t[j]).0@ == q;
            let j2 = if j < i { j } else { j + 1 };
            assert(t[j] == s[j2]);
            if j2 < i {
                assert(s[j2].0@ != s[i].0@);
            } else {
                assert(s[i].0@ != s[j2].0@);
            }
        }
        if has_key(s, q) && q != k {
            let j = choose|j: int| 0 <= j < s.len() && (#[trigger] s[j]).0@ == q;
            let j2 = if j < i { j } else { j - 1 };
            assert(t[j2] == s[j]);
        }
    }
    assert forall|q: Seq<char>| entries_map(t).contains_key(q) implies entries_map(t)[q] == entries_map(s).remove(k)[q] by {
        let j = choose|j: int| 0 <= j < t.len() && (#[trigger] t[j]).0@ == q;
        let j2 = if j < i { j } else { j + 1 };
        assert(t[j] == s[j2]);
        lemma_entry_in_map(t, j);
        lemma_entry_in_map(s, j2);
    }
    assert(entries_map(t) =~= entries_map(s).remove(k));
}

/// A table of values keyed by name, with at most one entry per name.
pub struct Keyed<V> {
    entries: Vec<(String, V)>,
}

impl<V> Keyed<V> {
    #[verifier::type_invariant]
    spec fn inv(self) -> bool {
        unique_keys(self.entries@)
    }

    /// The map from names to values the table holds.
    pub closed spec fn view(&self) -> Map<Seq<char>, V> {
        entries_map(self.entries@)
    }

    /// The entries in storage order.
    pub closed spec fn entries(&self) -> Seq<(String, V)> {
        self.entries@
    }

    /// The stored entries are exactly the map, one entry per name.
    pub proof fn lemma_entries(self)
        requires
            unique_keys(self.entries()),
        ensures
            self.view() == entries_map(self.entries()),
            forall|i: int| 0 <= i < self.entries().len() ==> (#[trigger] self.view().contains_key(self.entries()[i].0@))
                && self.view()[self.entries()[i].0@] == self.entries()[i].1,
    {
        assert forall|i: int| 0 <= i < self.entries().len() implies (#[trigger] self.view().contains_key(self.entries()[i].0@))
            && self.view()[self.entries()[i].0@] == self.entries()[i].1 by {
            lemma_entry_in_map(self.entries@, i);
        }
    }

    /// An empty table.
    pub fn new() -> (t: Keyed<V>)
        ensures
            t.view() == Map::<Seq<char>, V>::empty(),
            t.entries().len() == 0,
    {
        let t = Keyed { entries: Vec::new() };
        assert(t.view() =~= Map::<Seq<char>, V>::empty());
        t
    }

    /// The number of entries.
    pub fn len(&self) -> (n: usize)
        ensures
            n == self.entries().len(),
    {
        self.entries.len()
    }

    /// The entries in storage order; there is one per name.
    pub fn as_slice(&self) -> (s: &[(String, V)])
        ensures
            s@ == self.entries(),
            unique_keys(self.entries()),
    {
        proof {
            use_type_invariant(self);
        }
        self.entries.as_slice()
    }

    /// The position of the entry named `k`.
    pub fn position(&self, k: &str) -> (r: Option<usize>)
        ensures
            unique_keys(self.entries()),
            match r {
                Some(i) => i < self.entries().len() && self.entries()[i as int].0@ == k@,
                None => !self.view().contains_key(k@),
            },
            r is Some <==> self.view().contains_key(k@),
    {
        proof {
            use_type_invariant(self);
        }
        let mut i: usize = 0;
        while i < self.entries.len()
            invariant
                i <= self.entries@.len(),
                unique_keys(self.entries@),
                forall|j: int| 0 <= j < i ==> (#[trigger] self.entries@[j]).0@ != k@,
            decreases self.entries.len() - i,
        {
            if str_eq(self.entries[i].0.as_str(), k) {
                proof {
                    lemma_entry_in_map(self.entries@, i as int);
                }
                return Some(i);
            }
            i = i + 1;
        }
        None
    }

    /// Whether an entry is named `k`.
    pub fn contains(&self, k: &str) -> (r: bool)
        ensures
            r == self.view().contains_key(k@),
    {
        self.position(k).is_some()
    }

    /// The value named `k`, if any.
    pub fn get(&self, k: &str) -> (r: Option<&V>)
        ensures
            match r {
                Some(v) => self.view().contains_key(k@) && *v == self.view()[k@],
                None => !self.view().contains_key(k@),
            },
    {
        match self.position(k) {
            Some(i) => {
                proof {
                    lemma_entry_in_map(self.entries@, i as int);
                }
                Some(&self.entries[i].1)
            },
            None => None,
        }
    }

    /// Removes the entry named `k`, returning its value.
    pub fn remove(&mut self, k: &str) -> (r: Option<V>)
        ensures
            final(self).view() == old(self).view().remove(k@),
            match r {
                Some(v) => old(self).view().contains_key(k@) && v == old(self).view()[k@],
                None => !old(self).view().contains_key(k@),
            },
    {
        match self.position(k) {
            Some(i) => {
                let mut es: Vec<(String, V)> = Vec::new();
                std::mem::swap(&mut es, &mut self.entries);
                proof {
                    lemma_entry_in_map(es@, i as int);
                    lemma_remove_at(es@, i as int);
                }
                let (_, v) = es.remove(i);
                self.entries = es;
                Some(v)
            },
            None => {
                assert(old(self).view().remove(k@) =~= old(self).view());
                None
            },
        }
    }

    /// Stores `v` under `k`, replacing any value already named `k`.
    pub fn insert(&mut self, k: String, v: V)
        ensures
            final(self).view() == old(self).view().insert(k@, v),
    {
        let _ = self.remove(k.as_str());
        proof {
            use_type_invariant(&*self);
            assert(!self.view().contains_key(k@));
            assert(!has_key(self.entries@, k@));
        }
        let mut es: Vec<(String, V)> = Vec::new();
        std::mem::swap(&mut es, &mut self.entries);
        proof {
            lemma_push_fresh(es@, k, v);
        }
        es.push((k, v));
        self.entries = es;
        assert(old(self).view().remove(k@).insert(k@, v) =~= old(self).view().insert(k@, v));
    }

    /// The names of all entries, each once.
    pub fn keys(&self) -> (r: Vec<String>)
        ensures
            r@.len() == self.view().dom().len(),
            forall|i: int| 0 <= i < r@.len() ==> self.view().contains_key(#[trigger] r@[i]@),
            forall|k: Seq<char>| self.view().contains_key(k) ==> exists|i: int| 0 <= i < r@.len() && (#[trigger] r@[i])@ == k,
            forall|i: int, j: int| 0 <= i < j < r@.len() ==> r@[i]@ != r@[j]@,
    {
        proof {
            use_type_invariant(self);
        }
        let mut r: Vec<String> = Vec::new();
        let mut i: usize = 0;
        while i < self.entries.len()
            invariant
                i <= self.entries@.len(),
                unique_keys(self.entries@),
                r@.len() == i,
                forall|j: int| 0 <= j < i ==> (#[trigger] r@[j])@ == self.entries@[j].0@,
            decreases self.entries.len() - i,
        {
            r.push(owned(self.entries[i].0.as_str()));
            i = i + 1;
        }
        proof {
            assert forall|j: int| 0 <= j < r@.len() implies self.view().contains_key(#[trigger] r@[j]@) by {
                lemma_entry_in_map(self.entries@, j);
            }
            assert forall|k: Seq<char>| self.view().contains_key(k) implies exists|j: int| 0 <= j < r@.len() && (#[trigger] r@[j])@ == k by {
                let j = choose|j: int| 0 <= j < self.entries@.len() && (#[trigger] self.entries@[j]).0@ == k;
                assert(r@[j]@ == k);
            }
            lemma_map_dom_len(self.entries@);
        }
        r
    }
}

/// A table of distinct keys has as many names as entries.
pub proof fn lemma_map_dom_len<V>(s: Seq<(String, V)>)
    requires
        unique_keys(s),
    ensures
        entries_map(s).dom().len() == s.len(),
        entries_map(s).dom().finite(),
    decreases s.len(),
{
    if s.len() == 0 {
        assert(entries_map(s).dom() =~= Set::<Seq<char>>::empty());
    } else {
        let t = s.drop_last();
        assert(unique_keys(t)) by {
            assert forall|i: int, j: int| 0 <= i < j < t.len() implies t[i].0@ != t[j].0@ by {
                assert(t[i] == s[i] && t[j] == s[j]);
            }
        }
        lemma_map_dom_len(t);
        assert(!has_key(t, s.last().0@)) by {
            if has_key(t, s.last().0@) {
                let j = choose|j: int| 0 <= j < t.len() && (#[trigger] t[j]).0@ == s.last().0@;
                assert(s[j].0@ != s[s.len() - 1].0@);
            }
        }
        lemma_push_fresh(t, s.last().0, s.last().1);
        assert(t.push((s.last().0, s.last().1)) =~= s);
        assert(entries_map(s).dom() =~= entries_map(t).dom().insert(s.last().0@));
    }
}

} // verus!

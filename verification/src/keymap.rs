//! A small map from `u64` keys to values, backing the typed registries.
//!
//! Entries are kept in insertion order in a vector with pairwise-distinct
//! keys; the specification view is the [`Map`] the entries denote. Every
//! operation is specified against that view.

use vstd::prelude::*;

verus! {

/// The keys of an entry sequence, in order.
pub open spec fn entry_keys<V>(s: Seq<(u64, V)>) -> Seq<u64> {
    s.map_values(|e: (u64, V)| e.0)
}

/// Whether some entry of `s` carries the key `k`.
pub open spec fn has_key<V>(s: Seq<(u64, V)>, k: u64) -> bool {
    exists|i: int| 0 <= i < s.len() && (#[trigger] s[i]).0 == k
}

/// The map an entry sequence denotes; on duplicate keys the later entry wins.
pub open spec fn entries_map<V>(s: Seq<(u64, V)>) -> Map<u64, V>
    decreases s.len(),
{
    if s.len() == 0 {
        Map::empty()
    } else {
        entries_map(s.drop_last()).insert(s.last().0, s.last().1)
    }
}

proof fn lemma_entries_map_basics<V>(s: Seq<(u64, V)>)
    ensures
        entries_map(s).dom().finite(),
        forall|k: u64| #[trigger] entries_map(s).contains_key(k) <==> has_key(s, k),
    decreases s.len(),
{
    if s.len() > 0 {
        lemma_entries_map_basics(s.drop_last());
        assert forall|k: u64| #[trigger] entries_map(s).contains_key(k) implies has_key(s, k) by {
            if k == s.last().0 {
                assert(s[s.len() - 1].0 == k);
            } else {
                let i = choose|i: int| 0 <= i < s.drop_last().len() && (#[trigger] s.drop_last()[i]).0
                    == k;
                assert(s[i].0 == k);
            }
        }
        assert forall|k: u64| has_key(s, k) implies #[trigger] entries_map(s).contains_key(k) by {
            let i = choose|i: int| 0 <= i < s.len() && (#[trigger] s[i]).0 == k;
            if i < s.len() - 1 {
                assert(s.drop_last()[i].0 == k);
            }
        }
    }
}

proof fn lemma_entries_map_len<V>(s: Seq<(u64, V)>)
    requires
        entry_keys(s).no_duplicates(),
    ensures
        entries_map(s).dom().len() == s.len(),
    decreases s.len(),
{
    lemma_entries_map_basics(s);
    if s.len() > 0 {
        assert(entry_keys(s.drop_last()) =~= entry_keys(s).drop_last());
        lemma_entries_map_len(s.drop_last());
        lemma_entries_map_basics(s.drop_last());
        assert(!has_key(s.drop_last(), s.last().0)) by {
            if has_key(s.drop_last(), s.last().0) {
                let i = choose|i: int|
                    0 <= i < s.drop_last().len() && (#[trigger] s.drop_last()[i]).0 == s.last().0;
                assert(entry_keys(s)[i] == entry_keys(s)[s.len() - 1]);
            }
        }
    }
}

proof fn lemma_entries_map_index<V>(s: Seq<(u64, V)>, i: int)
    requires
        entry_keys(s).no_duplicates(),
        0 <= i < s.len(),
    ensures
        entries_map(s).contains_key(s[i].0),
        entries_map(s)[s[i].0] == s[i].1,
    decreases s.len(),
{
    lemma_entries_map_basics(s);
    if i < s.len() - 1 {
        assert(entry_keys(s.drop_last()) =~= entry_keys(s).drop_last());
        lemma_entries_map_index(s.drop_last(), i);
        assert(s.drop_last()[i] == s[i]);
        assert(s.last().0 != s[i].0) by {
            assert(entry_keys(s)[i] == s[i].0);
            assert(entry_keys(s)[s.len() - 1] == s.last().0);
        }
    }
}

/// A map from `u64` keys to values: entries in insertion order, keys unique,
/// specified by the [`Map`] view.
pub struct KeyMap<V> {
    entries: Vec<(u64, V)>,
}

impl<V> View for KeyMap<V> {
    type V = Map<u64, V>;

    closed spec fn view(&self) -> Map<u64, V> {
        entries_map(self.entries@)
    }
}

impl<V> KeyMap<V> {
    /// Well-formed: no key occurs twice in the backing vector.
    /// Constructors establish this and every operation preserves it.
    pub closed spec fn wf(&self) -> bool {
        entry_keys(self.entries@).no_duplicates()
    }

    /// The domain of the view is finite: the entries sit in a vector.
    pub proof fn lemma_dom_finite(&self)
        ensures
            self@.dom().finite(),
    {
        lemma_entries_map_basics(self.entries@);
    }

    /// Creates an empty map.
    pub fn new() -> (r: Self)
        ensures
            r@ == Map::<u64, V>::empty(),
            r.wf(),
    {
        KeyMap { entries: Vec::new() }
    }

    /// The number of entries.
    pub fn len(&self) -> (r: usize)
        requires
            self.wf(),
        ensures
            r == self@.dom().len(),
    {
        proof {
            lemma_entries_map_len(self.entries@);
        }
        self.entries.len()
    }

    /// Whether the map holds no entry.
    pub fn is_empty(&self) -> (r: bool)
        requires
            self.wf(),
        ensures
            r == (self@.dom().len() == 0),
    {
        proof {
            lemma_entries_map_len(self.entries@);
        }
        self.entries.len() == 0
    }

    /// Whether an entry with key `k` is present.
    #[verifier::loop_isolation(false)]
    pub fn contains_key(&self, k: u64) -> (r: bool)
        ensures
            r == self@.contains_key(k),
    {
        proof {
            lemma_entries_map_basics(self.entries@);
        }
        let n = self.entries.len();
        let mut i: usize = 0;
        while i < n
            invariant
                n == self.entries@.len(),
                0 <= i <= n,
                forall|j: int| 0 <= j < i ==> (#[trigger] self.entries@[j]).0 != k,
            decreases n - i,
        {
            if self.entries[i].0 == k {
                return true;
            }
            i = i + 1;
        }
        false
    }

    /// The value stored under key `k`, if one is present.
    #[verifier::loop_isolation(false)]
    pub fn get(&self, k: u64) -> (r: Option<&V>)
        requires
            self.wf(),
        ensures
            match r {
                Some(v) => self@.contains_key(k) && *v == self@[k],
                None => !self@.contains_key(k),
            },
    {
        proof {
            lemma_entries_map_basics(self.entries@);
        }
        let n = self.entries.len();
        let mut i: usize = 0;
        while i < n
            invariant
                n == self.entries@.len(),
                0 <= i <= n,
                entry_keys(self.entries@).no_duplicates(),
                forall|j: int| 0 <= j < i ==> (#[trigger] self.entries@[j]).0 != k,
            decreases n - i,
        {
            if self.entries[i].0 == k {
                proof {
                    lemma_entries_map_index(self.entries@, i as int);
                }
                return Some(&self.entries[i].1);
            }
            i = i + 1;
        }
        None
    }

    /// Mutable access to the value stored under key `k`, if one is present.
    #[verifier::loop_isolation(false)]
    pub fn get_mut(&mut self, k: u64) -> (r: Option<&mut V>)
        requires
            old(self).wf(),
        ensures
            old(self)@.contains_key(k) ==> (r matches Some(v) && *v == old(self)@[k]
                && final(self)@ == old(self)@.insert(k, *final(v)) && final(self).wf()),
            !old(self)@.contains_key(k) ==> (r is None && final(self)@ == old(self)@ && final(self).wf()),
    {
        let ghost s0 = self.entries@;
        proof {
            lemma_entries_map_basics(s0);
        }
        let n = self.entries.len();
        let mut i: usize = 0;
        while i < n
            invariant
                n == self.entries@.len(),
                0 <= i <= n,
                self.entries@ == s0,
                forall|j: int| 0 <= j < i ==> (#[trigger] self.entries@[j]).0 != k,
            decreases n - i,
        {
            if self.entries[i].0 == k {
                proof {
                    lemma_entries_map_index(s0, i as int);
                }
                let r = &mut self.entries[i].1;
                proof {
                    lemma_update_keeps_map(s0, i as int, *final(r));
                    assert(entry_keys(s0.update(i as int, (k, *final(r)))) =~= entry_keys(s0));
                }
                return Some(r);
            }
            i = i + 1;
        }
        None
    }

    /// Stores `v` under key `k`, replacing any entry the key held before.
    #[verifier::loop_isolation(false)]
    pub fn insert(&mut self, k: u64, v: V)
        requires
            old(self).wf(),
        ensures
            final(self).wf(),
            final(self)@ == old(self)@.insert(k, v),
    {
        let ghost s0 = self.entries@;
        proof {
            lemma_entries_map_basics(s0);
        }
        let n = self.entries.len();
        let mut i: usize = 0;
        while i < n
            invariant
                n == self.entries@.len(),
                0 <= i <= n,
                self.entries@ == s0,
                forall|j: int| 0 <= j < i ==> (#[trigger] self.entries@[j]).0 != k,
            decreases n - i,
        {
            if self.entries[i].0 == k {
                self.entries.set(i, (k, v));
                proof {
                    lemma_update_keeps_map(s0, i as int, v);
                    assert(entry_keys(self.entries@) =~= entry_keys(s0));
                }
                return ;
            }
            i = i + 1;
        }
        self.entries.push((k, v));
        proof {
            assert(self.entries@.drop_last() =~= s0);
            let ks = entry_keys(self.entries@);
            assert(ks.drop_last() =~= entry_keys(s0));
            assert forall|a: int, b: int|
                0 <= a < ks.len() && 0 <= b < ks.len() && a != b implies ks[a] != ks[b] by {
                if a < s0.len() && b < s0.len() {
                    assert(entry_keys(s0)[a] == ks[a]);
                    assert(entry_keys(s0)[b] == ks[b]);
                } else if a == s0.len() {
                    assert(ks[a] == k);
                    assert(ks[b] == s0[b].0);
                } else {
                    assert(ks[b] == k);
                    assert(ks[a] == s0[a].0);
                }
            }
        }
    }

    /// Removes the entry with key `k`, returning its value if one was there.
    #[verifier::loop_isolation(false)]
    pub fn remove(&mut self, k: u64) -> (r: Option<V>)
        requires
            old(self).wf(),
        ensures
            final(self).wf(),
            final(self)@ == old(self)@.remove(k),
            match r {
                Some(v) => old(self)@.contains_key(k) && v == old(self)@[k],
                None => !old(self)@.contains_key(k),
            },
    {
        let ghost s0 = self.entries@;
        proof {
            lemma_entries_map_basics(s0);
        }
        let n = self.entries.len();
        let mut i: usize = 0;
        while i < n
            invariant
                n == self.entries@.len(),
                0 <= i <= n,
                self.entries@ == s0,
                forall|j: int| 0 <= j < i ==> (#[trigger] self.entries@[j]).0 != k,
            decreases n - i,
        {
            if self.entries[i].0 == k {
                proof {
                    lemma_entries_map_index(s0, i as int);
                }
                let e = self.entries.remove(i);
                proof {
                    lemma_remove_keeps_map(s0, i as int);
                    lemma_entry_keys_remove(s0, i as int);
                }
                return Some(e.1);
            }
            i = i + 1;
        }
        proof {
            assert(self@ =~= self@.remove(k));
        }
        None
    }

    /// Drops every entry.
    pub fn clear(&mut self)
        ensures
            final(self).wf(),
            final(self)@ == Map::<u64, V>::empty(),
    {
        self.entries = Vec::new();
    }

    /// Some value of the map — the one stored longest — or `None` if empty.
    pub fn first(&self) -> (r: Option<&V>)
        requires
            self.wf(),
        ensures
            match r {
                Some(v) => exists|k: u64| #[trigger] self@.contains_key(k) && self@[k] == *v,
                None => self@.dom().len() == 0,
            },
    {
        proof {
            lemma_entries_map_basics(self.entries@);
            lemma_entries_map_len(self.entries@);
        }
        if self.entries.len() == 0 {
            None
        } else {
            proof {
                lemma_entries_map_index(self.entries@, 0);
                assert(self@.contains_key(self.entries@[0].0) && self@[self.entries@[0].0]
                    == self.entries@[0].1);
            }
            Some(&self.entries[0].1)
        }
    }

    /// Some value of the map — the one stored last — or `None` if empty.
    pub fn last(&self) -> (r: Option<&V>)
        requires
            self.wf(),
        ensures
            match r {
                Some(v) => exists|k: u64| #[trigger] self@.contains_key(k) && self@[k] == *v,
                None => self@.dom().len() == 0,
            },
    {
        proof {
            lemma_entries_map_basics(self.entries@);
            lemma_entries_map_len(self.entries@);
        }
        if self.entries.len() == 0 {
            None
        } else {
            proof {
                lemma_entries_map_index(self.entries@, self.entries@.len() - 1);
                assert(self@.contains_key(self.entries@.last().0) && self@[self.entries@.last().0]
                    == self.entries@.last().1);
            }
            Some(&self.entries[self.entries.len() - 1].1)
        }
    }
}

proof fn lemma_update_keeps_map<V>(s: Seq<(u64, V)>, i: int, v: V)
    requires
        entry_keys(s).no_duplicates(),
        0 <= i < s.len(),
    ensures
        entries_map(s.update(i, (s[i].0, v))) == entries_map(s).insert(s[i].0, v),
    decreases s.len(),
{
    let k = s[i].0;
    let t = s.update(i, (k, v));
    if i == s.len() - 1 {
        assert(t.drop_last() =~= s.drop_last());
        assert(entries_map(t) =~= entries_map(s).insert(k, v));
    } else {
        assert(entry_keys(s.drop_last()) =~= entry_keys(s).drop_last());
        lemma_update_keeps_map(s.drop_last(), i, v);
        assert(t.drop_last() =~= s.drop_last().update(i, (k, v)));
        assert(t.last() == s.last());
        assert(s.last().0 != k) by {
            assert(entry_keys(s)[i] == k);
            assert(entry_keys(s)[s.len() - 1] == s.last().0);
        }
        assert(entries_map(t) =~= entries_map(s).insert(k, v));
    }
}

proof fn lemma_entry_keys_remove<V>(s: Seq<(u64, V)>, i: int)
    requires
        entry_keys(s).no_duplicates(),
        0 <= i < s.len(),
    ensures
        entry_keys(s.remove(i)).no_duplicates(),
{
    let ks = entry_keys(s);
    let kr = entry_keys(s.remove(i));
    assert(kr =~= ks.remove(i));
    assert forall|a: int, b: int|
        0 <= a < kr.len() && 0 <= b < kr.len() && a != b implies kr[a] != kr[b] by {
        let a2 = if a < i {
            a
        } else {
            a + 1
        };
        let b2 = if b < i {
            b
        } else {
            b + 1
        };
        assert(kr[a] == ks[a2]);
        assert(kr[b] == ks[b2]);
    }
}

proof fn lemma_remove_keeps_map<V>(s: Seq<(u64, V)>, i: int)
    requires
        entry_keys(s).no_duplicates(),
        0 <= i < s.len(),
    ensures
        entries_map(s.remove(i)) == entries_map(s).remove(s[i].0),
    decreases s.len(),
{
    let k = s[i].0;
    let t = s.remove(i);
    lemma_entries_map_basics(s.drop_last());
    if i == s.len() - 1 {
        assert(t =~= s.drop_last());
        assert(!has_key(s.drop_last(), k)) by {
            if has_key(s.drop_last(), k) {
                let j = choose|j: int|
                    0 <= j < s.drop_last().len() && (#[trigger] s.drop_last()[j]).0 == k;
                assert(entry_keys(s)[j] == k);
                assert(entry_keys(s)[s.len() - 1] == k);
            }
        }
        assert(entries_map(t) =~= entries_map(s).remove(k));
    } else {
        assert(entry_keys(s.drop_last()) =~= entry_keys(s).drop_last());
        lemma_remove_keeps_map(s.drop_last(), i);
        assert(t.drop_last() =~= s.drop_last().remove(i));
        assert(t.last() == s.last());
        assert(s.last().0 != k) by {
            assert(entry_keys(s)[i] == k);
            assert(entry_keys(s)[s.len() - 1] == s.last().0);
        }
        assert(entries_map(t) =~= entries_map(s).remove(k));
    }
}

} // verus!

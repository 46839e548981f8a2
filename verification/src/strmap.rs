//! A map keyed by strings, kept as an association list without duplicate keys.

use vstd::prelude::*;
use crate::text::str_eq;

verus! {

/// Whether some entry of `s` has key `k`.
pub open spec fn has_key<V>(s: Seq<(String, V)>, k: Seq<char>) -> bool {
    exists|i: int| 0 <= i < s.len() && (#[trigger] s[i]).0@ == k
}

/// The index of the entry of `s` with key `k` (meaningful when `has_key`).
pub open spec fn key_index<V>(s: Seq<(String, V)>, k: Seq<char>) -> int {
    choose|i: int| 0 <= i < s.len() && (#[trigger] s[i]).0@ == k
}

/// No two entries share a key.
pub open spec fn keys_unique<V>(s: Seq<(String, V)>) -> bool {
    forall|i: int, j: int|
        0 <= i < s.len() && 0 <= j < s.len() && i != j ==> (#[trigger] s[i]).0@ != (#[trigger] s[j]).0@
}

/// The map that an association list without duplicates stands for.
pub open spec fn as_map<V>(s: Seq<(String, V)>) -> Map<Seq<char>, V> {
    Map::new(|k: Seq<char>| has_key(s, k), |k: Seq<char>| s[key_index(s, k)].1)
}

/// `v` is stored under some key of `m` and satisfies `p`.
pub open spec fn is_stored_value<V>(m: Map<Seq<char>, V>, v: V, p: spec_fn(V) -> bool) -> bool {
    p(v) && exists|k: Seq<char>| #[trigger] m.dom().contains(k) && m[k] == v
}

/// `r` holds, in order, the values of `m` under the keys `ks`, which are
/// distinct keys of `m` whose values satisfy `p`.
pub open spec fn keyed_by<V>(m: Map<Seq<char>, V>, r: Seq<&V>, p: spec_fn(V) -> bool, ks: Seq<Seq<char>>) -> bool {
    &&& ks.len() == r.len()
    &&& ks.no_duplicates()
    &&& forall|j: int| 0 <= j < ks.len() ==> m.dom().contains(#[trigger] ks[j]) && p(m[ks[j]]) && *r[j] == m[ks[j]]
}

/// `r` lists the values of `m` that satisfy `p`, one entry per key: each
/// such key gives exactly one entry of `r`.
pub open spec fn lists_exactly<V>(m: Map<Seq<char>, V>, r: Seq<&V>, p: spec_fn(V) -> bool) -> bool {
    &&& exists|ks: Seq<Seq<char>>| #[trigger] keyed_by(m, r, p, ks)
    &&& forall|i: int| 0 <= i < r.len() ==> is_stored_value(m, #[trigger] *r[i], p)
    &&& forall|k: Seq<char>| #[trigger] m.dom().contains(k) && p(m[k]) ==>
        exists|i: int| 0 <= i < r.len() && *r[i] == m[k]
    &&& r.len() == m.dom().filter(|k: Seq<char>| p(m[k])).len()
}

/// `x` is an entry of `orig` at a position from `lo` on, and its value satisfies `p`.
pub open spec fn drawn_from<V>(x: (String, V), orig: Seq<(String, V)>, lo: int, p: spec_fn(V) -> bool) -> bool {
    exists|t: int| lo <= t < orig.len() && x == orig[t] && p(orig[t].1)
}

/// A string-keyed map.
#[derive(Debug, Clone)]
pub struct StrMap<V> {
    entries: Vec<(String, V)>,
}

impl<V> View for StrMap<V> {
    type V = Map<Seq<char>, V>;

    closed spec fn view(&self) -> Map<Seq<char>, V> {
        as_map(self.entries@)
    }
}

proof fn lemma_index_unique<V>(s: Seq<(String, V)>, i: int)
    requires
        keys_unique(s),
        0 <= i < s.len(),
    ensures
        has_key(s, s[i].0@),
        key_index(s, s[i].0@) == i,
{
    assert(has_key(s, s[i].0@));
}

impl<V> StrMap<V> {
    /// The invariant: keys are unique.
    pub closed spec fn wf(&self) -> bool {
        keys_unique(self.entries@)
    }

    /// An empty map.
    pub fn new() -> (m: Self)
        ensures
            m.wf(),
            m@ == Map::<Seq<char>, V>::empty(),
    {
        let m = StrMap { entries: Vec::new() };
        assert(m@ =~= Map::<Seq<char>, V>::empty());
        m
    }

    /// The number of keys.
    pub fn len(&self) -> (n: usize)
        requires
            self.wf(),
        ensures
            n == self@.dom().len(),
            self@.dom().finite(),
    {
        proof { self.lemma_len(); }
        self.entries.len()
    }

    proof fn lemma_len(&self)
        requires
            self.wf(),
        ensures
            self@.dom().finite(),
            self@.dom().len() == self.entries@.len(),
    {
        let s = self.entries@;
        let keys = s.map_values(|e: (String, V)| e.0@);
        assert forall|i: int, j: int| 0 <= i < keys.len() && 0 <= j < keys.len() && i != j implies keys[i] != keys[j] by {
            assert(s[i].0@ == keys[i]);
            assert(s[j].0@ == keys[j]);
        }
        assert(keys.no_duplicates());
        keys.unique_seq_to_set();
        assert(self@.dom() =~= keys.to_set()) by {
            assert forall|k: Seq<char>| self@.dom().contains(k) implies keys.to_set().contains(k) by {
                let i = key_index(s, k);
                assert(keys[i] == k);
            }
            assert forall|k: Seq<char>| keys.to_set().contains(k) implies self@.dom().contains(k) by {
                let i = choose|i: int| 0 <= i < keys.len() && keys[i] == k;
                assert(s[i].0@ == k);
            }
        }
    }

    /// Position of `key`, if present.
    fn find(&self, key: &str) -> (r: Option<usize>)
        requires
            self.wf(),
        ensures
            match r {
                Some(i) => i < self.entries@.len() && self.entries@[i as int].0@ == key@,
                None => !has_key(self.entries@, key@),
            },
    {
        let n = self.entries.len();
        let mut i: usize = 0;
        while i < n
            invariant
                n == self.entries@.len(),
                i <= n,
                forall|j: int| 0 <= j < i ==> (#[trigger] self.entries@[j]).0@ != key@,
            decreases n - i,
        {
            if str_eq(self.entries[i].0.as_str(), key) {
                return Some(i);
            }
            i = i + 1;
        }
        None
    }

    /// Whether `key` is present.
    pub fn contains_key(&self, key: &str) -> (b: bool)
        requires
            self.wf(),
        ensures
            b == self@.dom().contains(key@),
    {
        self.find(key).is_some()
    }

    /// The value stored under `key`.
    pub fn get(&self, key: &str) -> (r: Option<&V>)
        requires
            self.wf(),
        ensures
            match r {
                Some(v) => self@.dom().contains(key@) && *v == self@[key@],
                None => !self@.dom().contains(key@),
            },
    {
        match self.find(key) {
            Some(i) => {
                proof { lemma_index_unique(self.entries@, i as int); }
                Some(&self.entries[i].1)
            },
            None => None,
        }
    }

    /// Stores `value` under `key`, replacing an earlier value.
    pub fn insert(&mut self, key: &str, value: V)
        requires
            old(self).wf(),
        ensures
            final(self).wf(),
            final(self)@ == old(self)@.insert(key@, value),
    {
        let ghost old_s = self.entries@;
        match self.find(key) {
            Some(i) => {
                let k = self.entries[i].0.clone();
                self.entries.set(i, (k, value));
                let ghost s = self.entries@;
                assert(keys_unique(s)) by {
                    assert forall|a: int, b: int| 0 <= a < s.len() && 0 <= b < s.len() && a != b implies (#[trigger] s[a]).0@ != (#[trigger] s[b]).0@ by {
                        assert(s[a].0@ == old_s[a].0@);
                        assert(s[b].0@ == old_s[b].0@);
                    }
                }
                assert(self@ =~= old(self)@.insert(key@, value)) by {
                    assert forall|k2: Seq<char>| #![auto] has_key(s, k2) == has_key(old_s, k2) by {
                        if has_key(s, k2) {
                            let j = key_index(s, k2);
                            assert(old_s[j].0@ == k2);
                        }
                        if has_key(old_s, k2) {
                            let j = key_index(old_s, k2);
                            assert(s[j].0@ == k2);
                        }
                    }
                    lemma_index_unique(s, i as int);
                    assert forall|k2: Seq<char>| has_key(s, k2) && k2 != key@ implies
                        #[trigger] s[key_index(s, k2)].1 == old_s[key_index(old_s, k2)].1 by {
                        let j = key_index(old_s, k2);
                        assert(s[j].0@ == k2);
                        lemma_index_unique(s, j);
                        lemma_index_unique(old_s, j);
                    }
                }
            },
            None => {
                let k = String::from_str(key);
                self.entries.push((k, value));
                let ghost s = self.entries@;
                let ghost n = old_s.len() as int;
                assert(keys_unique(s)) by {
                    assert forall|a: int, b: int| 0 <= a < s.len() && 0 <= b < s.len() && a != b implies (#[trigger] s[a]).0@ != (#[trigger] s[b]).0@ by {
                        if a < n && b < n {
                            assert(s[a] == old_s[a]);
                            assert(s[b] == old_s[b]);
                        } else if a < n {
                            assert(s[a] == old_s[a]);
                        } else {
                            assert(s[b] == old_s[b]);
                        }
                    }
                }
                assert(self@ =~= old(self)@.insert(key@, value)) by {
                    lemma_index_unique(s, n);
                    assert forall|k2: Seq<char>| k2 != key@ implies #[trigger] has_key(s, k2) == has_key(old_s, k2) by {
                        if has_key(s, k2) {
                            let j = key_index(s, k2);
                            assert(j < n);
                            assert(old_s[j] == s[j]);
                        }
                        if has_key(old_s, k2) {
                            let j = key_index(old_s, k2);
                            assert(s[j] == old_s[j]);
                        }
                    }
                    assert forall|k2: Seq<char>| has_key(s, k2) && k2 != key@ implies
                        #[trigger] s[key_index(s, k2)].1 == old_s[key_index(old_s, k2)].1 by {
                        let j = key_index(old_s, k2);
                        assert(s[j] == old_s[j]);
                        lemma_index_unique(s, j);
                        lemma_index_unique(old_s, j);
                    }
                }
            },
        }
    }

    /// Removes `key` and its value.
    pub fn remove(&mut self, key: &str)
        requires
            old(self).wf(),
        ensures
            final(self).wf(),
            final(self)@ == old(self)@.remove(key@),
    {
        let ghost old_s = self.entries@;
        match self.find(key) {
            Some(i) => {
                self.entries.remove(i);
                let ghost s = self.entries@;
                let ghost ii = i as int;
                assert(forall|j: int| 0 <= j < ii ==> s[j] == old_s[j]);
                assert(forall|j: int| ii <= j < s.len() ==> s[j] == old_s[j + 1]);
                assert(keys_unique(s)) by {
                    assert forall|a: int, b: int| 0 <= a < s.len() && 0 <= b < s.len() && a != b implies (#[trigger] s[a]).0@ != (#[trigger] s[b]).0@ by {
                        let oa = if a < ii { a } else { a + 1 };
                        let ob = if b < ii { b } else { b + 1 };
                        assert(s[a] == old_s[oa]);
                        assert(s[b] == old_s[ob]);
                    }
                }
                assert(self@ =~= old(self)@.remove(key@)) by {
                    lemma_index_unique(old_s, ii);
                    assert forall|k2: Seq<char>| #[trigger] has_key(s, k2) == (has_key(old_s, k2) && k2 != key@) by {
                        if has_key(s, k2) {
                            let j = key_index(s, k2);
                            let oj = if j < ii { j } else { j + 1 };
                            assert(old_s[oj] == s[j]);
                            assert(oj != ii);
                        }
                        if has_key(old_s, k2) && k2 != key@ {
                            let j = key_index(old_s, k2);
                            assert(j != ii);
                            let nj = if j < ii { j } else { j - 1 };
                            assert(s[nj] == old_s[j]);
                        }
                    }
                    assert forall|k2: Seq<char>| has_key(s, k2) implies
                        #[trigger] s[key_index(s, k2)].1 == old_s[key_index(old_s, k2)].1 by {
                        let j = key_index(s, k2);
                        let oj = if j < ii { j } else { j + 1 };
                        assert(old_s[oj] == s[j]);
                        lemma_index_unique(old_s, oj);
                    }
                }
            },
            None => {
                assert(self@ =~= old(self)@.remove(key@));
            },
        }
    }

    /// The keys, in storage order.
    pub closed spec fn key_seq(&self) -> Seq<Seq<char>> {
        self.entries@.map_values(|e: (String, V)| e.0@)
    }

    /// The values, in storage order.
    pub closed spec fn val_seq(&self) -> Seq<V> {
        self.entries@.map_values(|e: (String, V)| e.1)
    }

    /// How the storage order relates to the map.
    pub proof fn lemma_seqs(&self)
        requires
            self.wf(),
        ensures
            self.key_seq().len() == self.val_seq().len(),
            self.key_seq().no_duplicates(),
            forall|i: int| 0 <= i < self.key_seq().len() ==>
                self@.dom().contains(#[trigger] self.key_seq()[i]) && self@[self.key_seq()[i]] == self.val_seq()[i],
            forall|k: Seq<char>| #[trigger] self@.dom().contains(k) ==>
                exists|i: int| 0 <= i < self.key_seq().len() && self.key_seq()[i] == k,
    {
        let s = self.entries@;
        assert forall|i: int| 0 <= i < self.key_seq().len() implies
            self@.dom().contains(#[trigger] self.key_seq()[i]) && self@[self.key_seq()[i]] == self.val_seq()[i] by {
            lemma_index_unique(s, i);
        }
        assert forall|k: Seq<char>| #[trigger] self@.dom().contains(k) implies
            exists|i: int| 0 <= i < self.key_seq().len() && self.key_seq()[i] == k by {
            let i = key_index(s, k);
            assert(self.key_seq()[i] == k);
        }
    }

    /// Number of stored entries (equal to the number of keys).
    pub fn entry_count(&self) -> (n: usize)
        ensures
            n == self.key_seq().len(),
            n == self.val_seq().len(),
    {
        self.entries.len()
    }

    /// The key stored at position `i`.
    pub fn key_at(&self, i: usize) -> (k: &String)
        requires
            i < self.key_seq().len(),
        ensures
            k@ == self.key_seq()[i as int],
    {
        &self.entries[i].0
    }

    /// The value stored at position `i`.
    pub fn value_at(&self, i: usize) -> (v: &V)
        requires
            i < self.val_seq().len(),
        ensures
            *v == self.val_seq()[i as int],
    {
        &self.entries[i].1
    }

    /// The values satisfying `f` (which decides `p`), in storage order.
    pub fn select<F: Fn(&V) -> bool>(&self, f: F, Ghost(p): Ghost<spec_fn(V) -> bool>) -> (r: Vec<&V>)
        requires
            self.wf(),
            forall|v: &V| #[trigger] f.requires((v,)),
            forall|v: &V, b: bool| f.ensures((v,), b) ==> b == p(*v),
        ensures
            lists_exactly(self@, r@, p),
    {
        proof { self.lemma_seqs(); self.lemma_len(); }
        let n = self.entries.len();
        let mut r: Vec<&V> = Vec::new();
        let ghost mut picked: Seq<Seq<char>> = Seq::empty();
        let mut i: usize = 0;
        while i < n
            invariant
                n == self.entries@.len(),
                i <= n,
                self.wf(),
                forall|v: &V| #[trigger] f.requires((v,)),
                forall|v: &V, b: bool| f.ensures((v,), b) ==> b == p(*v),
                r@.len() == picked.len(),
                picked.no_duplicates(),
                forall|j: int| #![trigger r@[j]] 0 <= j < picked.len() ==>
                    self@.dom().contains(picked[j]) && self@[picked[j]] == *r@[j] && p(*r@[j]),
                forall|j: int| 0 <= j < picked.len() ==>
                    exists|t: int| 0 <= t < i && self.entries@[t].0@ == #[trigger] picked[j],
                forall|t: int| 0 <= t < i && p(self.entries@[t].1) ==>
                    #[trigger] picked.contains(self.entries@[t].0@),
            decreases n - i,
        {
            let v = &self.entries[i].1;
            let ghost old_picked = picked;
            proof { lemma_index_unique(self.entries@, i as int); }
            if f(v) {
                let ghost k = self.entries@[i as int].0@;
                proof {
                    assert(!picked.contains(k)) by {
                        if picked.contains(k) {
                            let j = choose|j: int| 0 <= j < picked.len() && picked[j] == k;
                            let t = choose|t: int| 0 <= t < i && self.entries@[t].0@ == #[trigger] picked[j];
                            assert(self.entries@[t].0@ == self.entries@[i as int].0@);
                        }
                    }
                    picked = picked.push(k);
                }
                r.push(v);
            }
            proof {
                assert forall|t: int| 0 <= t < i + 1 && p(self.entries@[t].1) implies
                    #[trigger] picked.contains(self.entries@[t].0@) by {
                    if t < i {
                        assert(old_picked.contains(self.entries@[t].0@));
                        let j = choose|j: int| 0 <= j < old_picked.len() && old_picked[j] == self.entries@[t].0@;
                        assert(picked[j] == old_picked[j]);
                    } else {
                        assert(picked[picked.len() - 1] == self.entries@[t].0@);
                    }
                }
                assert forall|j: int| 0 <= j < picked.len() implies
                    exists|t: int| 0 <= t < i + 1 && self.entries@[t].0@ == #[trigger] picked[j] by {
                    if j < old_picked.len() {
                        assert(picked[j] == old_picked[j]);
                        let t = choose|t: int| 0 <= t < i && self.entries@[t].0@ == #[trigger] old_picked[j];
                    } else {
                        assert(self.entries@[i as int].0@ == picked[j]);
                    }
                }
            }
            i = i + 1;
        }
        proof {
            let dom = self@.dom();
            let sel = dom.filter(|k: Seq<char>| p(self@[k]));
            assert(sel =~= picked.to_set()) by {
                assert forall|k: Seq<char>| sel.contains(k) implies picked.to_set().contains(k) by {
                    let t = key_index(self.entries@, k);
                    assert(self.entries@[t].0@ == k);
                    lemma_index_unique(self.entries@, t);
                    assert(picked.contains(self.entries@[t].0@));
                }
                assert forall|k: Seq<char>| picked.to_set().contains(k) implies sel.contains(k) by {
                    let j = choose|j: int| 0 <= j < picked.len() && picked[j] == k;
                    assert(self@.dom().contains(picked[j]) && self@[picked[j]] == *r@[j]);
                }
            }
            picked.unique_seq_to_set();
            assert forall|k: Seq<char>| #[trigger] self@.dom().contains(k) && p(self@[k]) implies
                exists|j: int| 0 <= j < r@.len() && *r@[j] == self@[k] by {
                let t = key_index(self.entries@, k);
                lemma_index_unique(self.entries@, t);
                assert(picked.contains(k));
                let j = choose|j: int| 0 <= j < picked.len() && picked[j] == k;
                assert(*r@[j] == self@[k]);
            }
            assert forall|i: int| 0 <= i < r@.len() implies is_stored_value(self@, #[trigger] *r@[i], p) by {
                let k = picked[i];
                assert(self@.dom().contains(k) && self@[k] == *r@[i] && p(*r@[i]));
            }
            assert forall|j: int| 0 <= j < picked.len() implies self@.dom().contains(#[trigger] picked[j]) && p(
                self@[picked[j]],
            ) && *r@[j] == self@[picked[j]] by {
                assert(self@[picked[j]] == *r@[j] && p(*r@[j]));
            }
            assert(keyed_by(self@, r@, p, picked));
        }
        r
    }

    /// All keys, each once.
    pub fn keys(&self) -> (r: Vec<String>)
        requires
            self.wf(),
        ensures
            r.deep_view().no_duplicates(),
            r.deep_view().to_set() == self@.dom(),
            r.deep_view().len() == self@.dom().len(),
    {
        proof { self.lemma_seqs(); self.lemma_len(); }
        let n = self.entries.len();
        let mut r: Vec<String> = Vec::new();
        let mut i: usize = 0;
        while i < n
            invariant
                n == self.entries@.len(),
                i <= n,
                r@.len() == i,
                forall|j: int| 0 <= j < i ==> (#[trigger] r@[j])@ == self.entries@[j].0@,
            decreases n - i,
        {
            r.push(self.entries[i].0.clone());
            i = i + 1;
        }
        proof {
            assert(r.deep_view() =~= self.key_seq());
            assert(r.deep_view().to_set() =~= self@.dom()) by {
                assert forall|k: Seq<char>| self@.dom().contains(k) implies r.deep_view().to_set().contains(k) by {
                    let j = choose|j: int| 0 <= j < self.key_seq().len() && self.key_seq()[j] == k;
                    assert(r.deep_view()[j] == k);
                }
                assert forall|k: Seq<char>| r.deep_view().to_set().contains(k) implies self@.dom().contains(k) by {
                    let j = choose|j: int| 0 <= j < r.deep_view().len() && r.deep_view()[j] == k;
                    assert(self.key_seq()[j] == k);
                }
            }
            r.deep_view().unique_seq_to_set();
        }
        r
    }

    /// Keeps only the entries whose value satisfies `f` (which decides `p`).
    pub fn retain<F: Fn(&V) -> bool>(&mut self, f: F, Ghost(p): Ghost<spec_fn(V) -> bool>)
        requires
            old(self).wf(),
            forall|v: &V| #[trigger] f.requires((v,)),
            forall|v: &V, b: bool| f.ensures((v,), b) ==> b == p(*v),
        ensures
            final(self).wf(),
            final(self)@ == old(self)@.restrict(old(self)@.dom().filter(|k: Seq<char>| p(old(self)@[k]))),
    {
        let ghost orig = self.entries@;
        let mut rest: Vec<(String, V)> = Vec::new();
        std::mem::swap(&mut rest, &mut self.entries);
        let mut kept: Vec<(String, V)> = Vec::new();
        while rest.len() > 0
            invariant
                keys_unique(orig),
                rest@ == orig.take(rest@.len() as int),
                rest@.len() <= orig.len(),
                forall|v: &V| #[trigger] f.requires((v,)),
                forall|v: &V, b: bool| f.ensures((v,), b) ==> b == p(*v),
                forall|j: int| 0 <= j < kept@.len() ==> drawn_from(#[trigger] kept@[j], orig, rest@.len() as int, p),
                forall|t: int| rest@.len() <= t < orig.len() && p(orig[t].1) ==>
                    exists|j: int| 0 <= j < kept@.len() && #[trigger] kept@[j] == orig[t],
                keys_unique(kept@),
            decreases rest@.len(),
        {
            let ghost old_kept = kept@;
            let ghost r0 = rest@.len() as int;
            let e = rest.pop().unwrap();
            let ghost t0 = r0 - 1;
            assert(e == orig[t0]);
            if f(&e.1) {
                kept.push(e);
                proof {
                    let kk = kept@;
                    assert forall|a: int, b: int| 0 <= a < kk.len() && 0 <= b < kk.len() && a != b implies
                        (#[trigger] kk[a]).0@ != (#[trigger] kk[b]).0@ by {
                        if a < old_kept.len() && b < old_kept.len() {
                            assert(kk[a] == old_kept[a] && kk[b] == old_kept[b]);
                        } else if a < old_kept.len() {
                            assert(drawn_from(old_kept[a], orig, rest@.len() as int + 1, p));
                            let t = choose|t: int| rest@.len() + 1 <= t < orig.len() && old_kept[a] == orig[t] && p(orig[t].1);
                            assert(kk[a] == orig[t]);
                            assert(kk[b] == orig[t0]);
                        } else {
                            assert(drawn_from(old_kept[b], orig, rest@.len() as int + 1, p));
                            let t = choose|t: int| rest@.len() + 1 <= t < orig.len() && old_kept[b] == orig[t] && p(orig[t].1);
                            assert(kk[b] == orig[t]);
                            assert(kk[a] == orig[t0]);
                        }
                    }
                    assert forall|j: int| 0 <= j < kk.len() implies drawn_from(#[trigger] kk[j], orig, rest@.len() as int, p) by {
                        if j < old_kept.len() {
                            assert(kk[j] == old_kept[j]);
                            assert(drawn_from(old_kept[j], orig, rest@.len() as int + 1, p));
                        } else {
                            assert(kk[j] == orig[t0]);
                        }
                    }
                    assert forall|t: int| rest@.len() <= t < orig.len() && p(orig[t].1) implies
                        exists|j: int| 0 <= j < kk.len() && #[trigger] kk[j] == orig[t] by {
                        if t == t0 {
                            assert(kk[kk.len() - 1] == orig[t]);
                        } else {
                            let j = choose|j: int| 0 <= j < old_kept.len() && #[trigger] old_kept[j] == orig[t];
                            assert(kk[j] == old_kept[j]);
                        }
                    }
                }
            } else {
                proof {
                    assert forall|j: int| 0 <= j < kept@.len() implies drawn_from(#[trigger] kept@[j], orig, rest@.len() as int, p) by {
                        assert(drawn_from(kept@[j], orig, rest@.len() as int + 1, p));
                    }
                }
            }
            proof {
                assert(rest@ =~= orig.take(rest@.len() as int));
            }
        }
        self.entries = kept;
        proof {
            let s = self.entries@;
            let target = old(self)@.restrict(old(self)@.dom().filter(|k: Seq<char>| p(old(self)@[k])));
            assert forall|k: Seq<char>| #[trigger] has_key(s, k) == target.dom().contains(k) by {
                if has_key(s, k) {
                    let j = key_index(s, k);
                    assert(drawn_from(s[j], orig, 0, p));
                    let t = choose|t: int| 0 <= t < orig.len() && s[j] == orig[t] && p(orig[t].1);
                    lemma_index_unique(orig, t);
                }
                if target.dom().contains(k) {
                    let t = key_index(orig, k);
                    lemma_index_unique(orig, t);
                    let j = choose|j: int| 0 <= j < s.len() && #[trigger] s[j] == orig[t];
                }
            }
            assert forall|k: Seq<char>| has_key(s, k) implies #[trigger] s[key_index(s, k)].1 == target[k] by {
                let j = key_index(s, k);
                assert(drawn_from(s[j], orig, 0, p));
                let t = choose|t: int| 0 <= t < orig.len() && s[j] == orig[t] && p(orig[t].1);
                lemma_index_unique(orig, t);
            }
            assert(self@ =~= target);
        }
    }
}

} // verus!

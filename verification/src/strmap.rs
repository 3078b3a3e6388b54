//! A string-keyed map stored as a vector of entries sorted by key.
//!
//! This models the ledger store: an ordered key-value store with point
//! lookup, conditional update and range listing in ascending key order.
//! The view of a map is a `Map<Seq<char>, T>`; listing operations are
//! specified against the sorted key sequence.

use vstd::prelude::*;

use crate::lex::{lex_lt, lemma_lex_lt_irreflexive, lemma_lex_lt_transitive, lemma_lex_trichotomy,
    str_compare, Cmp};

verus! {

pub struct StrMap<T> {
    pub entries: Vec<(String, T)>,
}

/// The finite map held by a sequence of entries; later entries win,
/// though a well-formed map never holds a key twice.
pub open spec fn map_of<T>(s: Seq<(String, T)>) -> Map<Seq<char>, T>
    decreases s.len(),
{
    if s.len() == 0 {
        Map::empty()
    } else {
        map_of(s.drop_last()).insert(s.last().0@, s.last().1)
    }
}

impl<T> View for StrMap<T> {
    type V = Map<Seq<char>, T>;

    open spec fn view(&self) -> Map<Seq<char>, T> {
        map_of(self.entries@)
    }
}

/// No key occurs twice.
pub open spec fn uniq_keys<T>(s: Seq<(String, T)>) -> bool {
    forall|i: int, j: int| 0 <= i < j < s.len() ==> s[i].0@ != s[j].0@
}

/// Entries are strictly sorted by key.
pub open spec fn sorted_keys<T>(s: Seq<(String, T)>) -> bool {
    forall|i: int, j: int|
        0 <= i < j < s.len() ==> #[trigger] lex_lt(s[i].0@, s[j].0@)
}

pub proof fn lemma_sorted_uniq<T>(s: Seq<(String, T)>)
    requires
        sorted_keys(s),
    ensures
        uniq_keys(s),
{
    assert forall|i: int, j: int| 0 <= i < j < s.len() implies s[i].0@ != s[j].0@ by {
        assert(lex_lt(s[i].0@, s[j].0@));
        lemma_lex_lt_irreflexive(s[i].0@);
    }
}

pub proof fn lemma_map_of_contains<T>(s: Seq<(String, T)>, k: Seq<char>)
    ensures
        map_of(s).contains_key(k) <==> exists|i: int| 0 <= i < s.len() && (#[trigger] s[i].0@) == k,
    decreases s.len(),
{
    if s.len() > 0 {
        let pre = s.drop_last();
        lemma_map_of_contains(pre, k);
        if map_of(s).contains_key(k) {
            if s.last().0@ == k {
                assert(s[s.len() - 1].0@ == k);
            } else {
                let i = choose|i: int| 0 <= i < pre.len() && (#[trigger] pre[i].0@) == k;
                assert(s[i].0@ == k);
            }
        }
        if exists|i: int| 0 <= i < s.len() && (#[trigger] s[i].0@) == k {
            let i = choose|i: int| 0 <= i < s.len() && (#[trigger] s[i].0@) == k;
            if i < s.len() - 1 {
                assert(pre[i].0@ == k);
            }
        }
    }
}

pub proof fn lemma_map_of_index<T>(s: Seq<(String, T)>, i: int)
    requires
        uniq_keys(s),
        0 <= i < s.len(),
    ensures
        map_of(s).contains_key(s[i].0@),
        map_of(s)[s[i].0@] == s[i].1,
    decreases s.len(),
{
    lemma_map_of_contains(s, s[i].0@);
    if i < s.len() - 1 {
        let pre = s.drop_last();
        lemma_map_of_index(pre, i);
        assert(s.last().0@ != s[i].0@);
    }
}

/// Replacing the entry at `i` by one with the same key view updates the map.
pub proof fn lemma_map_of_update<T>(s: Seq<(String, T)>, i: int, p: (String, T))
    requires
        uniq_keys(s),
        0 <= i < s.len(),
        p.0@ == s[i].0@,
    ensures
        map_of(s.update(i, p)) == map_of(s).insert(p.0@, p.1),
    decreases s.len(),
{
    let t = s.update(i, p);
    if i == s.len() - 1 {
        assert(t.drop_last() =~= s.drop_last());
        assert(map_of(t) =~= map_of(s).insert(p.0@, p.1));
    } else {
        assert(t.drop_last() =~= s.drop_last().update(i, p));
        lemma_map_of_update(s.drop_last(), i, p);
        assert(s.last().0@ != p.0@);
        assert(map_of(t) =~= map_of(s).insert(p.0@, p.1));
    }
}

/// Inserting an entry with a fresh key at any position inserts into the map.
pub proof fn lemma_map_of_insert<T>(s: Seq<(String, T)>, i: int, p: (String, T))
    requires
        0 <= i <= s.len(),
        forall|j: int| 0 <= j < s.len() ==> (#[trigger] s[j].0@) != p.0@,
    ensures
        map_of(s.insert(i, p)) == map_of(s).insert(p.0@, p.1),
    decreases s.len(),
{
    let t = s.insert(i, p);
    if i == s.len() {
        assert(t.drop_last() =~= s);
        assert(t.last() == p);
        assert(map_of(t) =~= map_of(s).insert(p.0@, p.1));
    } else {
        assert(t.drop_last() =~= s.drop_last().insert(i, p));
        assert(t.last() == s.last());
        lemma_map_of_insert(s.drop_last(), i, p);
        assert(s.last().0@ != p.0@);
        assert(map_of(t) =~= map_of(s).insert(p.0@, p.1));
    }
}

/// Removing the entry at `i` removes its key from the map.
pub proof fn lemma_map_of_remove<T>(s: Seq<(String, T)>, i: int)
    requires
        uniq_keys(s),
        0 <= i < s.len(),
    ensures
        map_of(s.remove(i)) == map_of(s).remove(s[i].0@),
    decreases s.len(),
{
    let t = s.remove(i);
    let k = s[i].0@;
    if i == s.len() - 1 {
        assert(t =~= s.drop_last());
        lemma_map_of_contains(t, k);
        assert(forall|j: int| 0 <= j < t.len() ==> (#[trigger] t[j].0@) != k);
        assert(map_of(t) =~= map_of(s).remove(k));
    } else {
        assert(t.drop_last() =~= s.drop_last().remove(i));
        assert(t.last() == s.last());
        lemma_map_of_remove(s.drop_last(), i);
        assert(s.last().0@ != k);
        assert(map_of(t) =~= map_of(s).remove(k));
    }
}

/// Filtering distributes over `push`.
pub proof fn lemma_filter_push<A>(s: Seq<A>, pred: spec_fn(A) -> bool, x: A)
    ensures
        (s.push(x)).filter(pred) == if pred(x) {
            s.filter(pred).push(x)
        } else {
            s.filter(pred)
        },
{
    reveal(Seq::filter);
    assert((s.push(x)).drop_last() =~= s);
    assert((s.push(x)).last() == x);
}

/// The views of a sequence of strings.
pub open spec fn key_views(s: Seq<String>) -> Seq<Seq<char>> {
    Seq::new(s.len(), |i: int| s[i]@)
}

/// The views of a sequence of keyed values.
pub open spec fn pair_views<T>(s: Seq<(String, T)>) -> Seq<(Seq<char>, T)> {
    Seq::new(s.len(), |i: int| (s[i].0@, s[i].1))
}

/// The keys strictly after `start` (all of them when `start` is `None`),
/// in their original order.
pub open spec fn keys_after(keys: Seq<Seq<char>>, start: Option<Seq<char>>) -> Seq<Seq<char>> {
    match start {
        None => keys,
        Some(s) => keys.filter(|k: Seq<char>| lex_lt(s, k)),
    }
}

/// One page of a key listing: the first `limit` keys after `start`.
pub open spec fn keys_page(keys: Seq<Seq<char>>, start: Option<Seq<char>>, limit: int) -> Seq<
    Seq<char>,
> {
    let a = keys_after(keys, start);
    if limit <= a.len() {
        a.take(limit)
    } else {
        a
    }
}

/// The keyed values whose key is strictly after `start`.
pub open spec fn pairs_after<T>(ps: Seq<(Seq<char>, T)>, start: Option<Seq<char>>) -> Seq<
    (Seq<char>, T),
> {
    match start {
        None => ps,
        Some(s) => ps.filter(|p: (Seq<char>, T)| lex_lt(s, p.0)),
    }
}

/// One page of an entry listing: the first `limit` entries after `start`.
pub open spec fn pairs_page<T>(
    ps: Seq<(Seq<char>, T)>,
    start: Option<Seq<char>>,
    limit: int,
) -> Seq<(Seq<char>, T)> {
    let a = pairs_after(ps, start);
    if limit <= a.len() {
        a.take(limit)
    } else {
        a
    }
}

impl<T> StrMap<T> {
    /// Well-formed: entries strictly sorted by key, so each key occurs once.
    pub open spec fn wf(&self) -> bool {
        sorted_keys(self.entries@)
    }

    /// The keys, in ascending order.
    pub open spec fn spec_keys(&self) -> Seq<Seq<char>> {
        Seq::new(self.entries@.len(), |i: int| self.entries@[i].0@)
    }

    pub fn new() -> (m: Self)
        ensures
            m.wf(),
            m@ == Map::<Seq<char>, T>::empty(),
            m.entries@.len() == 0,
    {
        StrMap { entries: Vec::new() }
    }

    /// Point lookup.
    pub fn get(&self, key: &str) -> (r: Option<&T>)
        requires
            self.wf(),
        ensures
            match r {
                Some(v) => self@.contains_key(key@) && *v == self@[key@],
                None => !self@.contains_key(key@),
            },
    {
        proof {
            lemma_sorted_uniq(self.entries@);
        }
        let n = self.entries.len();
        let mut i: usize = 0;
        while i < n
            invariant
                0 <= i <= n,
                n == self.entries@.len(),
                self.wf(),
                uniq_keys(self.entries@),
                forall|j: int| 0 <= j < i ==> (#[trigger] self.entries@[j].0@) != key@,
            decreases n - i,
        {
            let pair = &self.entries[i];
            match str_compare(pair.0.as_str(), key) {
                Cmp::Equal => {
                    proof {
                        lemma_map_of_index(self.entries@, i as int);
                    }
                    return Some(&pair.1);
                },
                _ => {
                    proof {
                        lemma_lex_lt_irreflexive(key@);
                    }
                    i += 1;
                },
            }
        }
        proof {
            lemma_map_of_contains(self.entries@, key@);
        }
        None
    }

    /// Whether the key is present.
    pub fn contains(&self, key: &str) -> (r: bool)
        requires
            self.wf(),
        ensures
            r == self@.contains_key(key@),
    {
        match self.get(key) {
            Some(_) => true,
            None => false,
        }
    }

    /// Inserts or replaces the value under `key`.
    pub fn insert(&mut self, key: String, value: T)
        requires
            old(self).wf(),
        ensures
            final(self).wf(),
            final(self)@ == old(self)@.insert(key@, value),
            old(self)@.contains_key(key@) ==> exists|i: int|
                0 <= i < old(self).entries@.len() && old(self).entries@[i].0@ == key@
                    && final(self).entries@ == #[trigger] old(self).entries@.update(
                    i,
                    (key, value),
                ),
            !old(self)@.contains_key(key@) ==> exists|i: int|
                0 <= i <= old(self).entries@.len() && final(self).entries@
                    == #[trigger] old(self).entries@.insert(i, (key, value)),
    {
        proof {
            lemma_sorted_uniq(self.entries@);
            lemma_map_of_contains(self.entries@, key@);
        }
        let ghost s0 = old(self).entries@;
        let ghost kv = (key, value);
        let n = self.entries.len();
        let mut i: usize = 0;
        while i < n
            invariant
                0 <= i <= n,
                n == s0.len(),
                *self == *old(self),
                s0 == old(self).entries@,
                kv == (key, value),
                sorted_keys(s0),
                uniq_keys(s0),
                forall|j: int| 0 <= j < i ==> #[trigger] lex_lt(s0[j].0@, kv.0@),
            ensures
                0 <= i <= n,
                n == s0.len(),
                *self == *old(self),
                s0 == old(self).entries@,
                kv == (key, value),
                sorted_keys(s0),
                uniq_keys(s0),
                forall|j: int| 0 <= j < i ==> #[trigger] lex_lt(s0[j].0@, kv.0@),
                i < n ==> lex_lt(kv.0@, s0[i as int].0@),
            decreases n - i,
        {
            let cmp = str_compare(self.entries[i].0.as_str(), key.as_str());
            match cmp {
                Cmp::Less => {
                    i += 1;
                },
                Cmp::Equal => {
                    proof {
                        lemma_map_of_index(s0, i as int);
                        lemma_map_of_update(s0, i as int, kv);
                    }
                    let slot = vstd::std_specs::vec::vec_index_mut(&mut self.entries, i);
                    *slot = (key, value);
                    proof {
                        assert(self.entries@ == s0.update(i as int, kv));
                        assert forall|p: int, q: int|
                            0 <= p < q < self.entries@.len() implies #[trigger] lex_lt(
                            self.entries@[p].0@,
                            self.entries@[q].0@,
                        ) by {
                            assert(lex_lt(s0[p].0@, s0[q].0@));
                        }
                    }
                    return ;
                },
                Cmp::Greater => {
                    break ;
                },
            }
        }
        // key not present: every earlier key is below it, every key from i on is above it
        proof {
            assert forall|j: int| i <= j < n implies lex_lt(kv.0@, #[trigger] s0[j].0@) by {
                assert(lex_lt(kv.0@, s0[i as int].0@));
                if j > i {
                    assert(lex_lt(s0[i as int].0@, s0[j].0@));
                    lemma_lex_lt_transitive(kv.0@, s0[i as int].0@, s0[j].0@);
                }
            }
            assert forall|j: int| 0 <= j < n implies (#[trigger] s0[j].0@) != kv.0@ by {
                lemma_lex_trichotomy(s0[j].0@, kv.0@);
            }
            lemma_map_of_contains(s0, kv.0@);
            lemma_map_of_insert(s0, i as int, kv);
        }
        self.entries.insert(i, (key, value));
        proof {
            assert(self.entries@ == s0.insert(i as int, kv));
            assert forall|p: int, q: int|
                0 <= p < q < self.entries@.len() implies #[trigger] lex_lt(
                self.entries@[p].0@,
                self.entries@[q].0@,
            ) by {
                let iv = i as int;
                if q < iv {
                    assert(lex_lt(s0[p].0@, s0[q].0@));
                } else if p < iv && q == iv {
                    assert(lex_lt(s0[p].0@, kv.0@));
                } else if p < iv && q > iv {
                    assert(lex_lt(s0[p].0@, s0[q - 1].0@));
                } else if p == iv {
                    assert(lex_lt(kv.0@, s0[q - 1].0@));
                } else {
                    assert(lex_lt(s0[p - 1].0@, s0[q - 1].0@));
                }
            }
        }
    }

    /// Removes the entry under `key`, if present.
    pub fn remove(&mut self, key: &str)
        requires
            old(self).wf(),
        ensures
            final(self).wf(),
            final(self)@ == old(self)@.remove(key@),
            old(self)@.contains_key(key@) ==> exists|i: int|
                0 <= i < old(self).entries@.len() && old(self).entries@[i].0@ == key@
                    && final(self).entries@ == #[trigger] old(self).entries@.remove(i),
            !old(self)@.contains_key(key@) ==> *final(self) == *old(self),
    {
        let _ = self.take(key);
    }

    /// Removes and returns the value under `key`, if present; the usual
    /// way to update a nested value is to take it, change it, and insert
    /// it back.
    pub fn take(&mut self, key: &str) -> (r: Option<T>)
        requires
            old(self).wf(),
        ensures
            final(self).wf(),
            final(self)@ == old(self)@.remove(key@),
            match r {
                Some(v) => old(self)@.contains_key(key@) && v == old(self)@[key@]
                    && exists|i: int|
                    0 <= i < old(self).entries@.len() && old(self).entries@[i].0@ == key@
                        && final(self).entries@ == #[trigger] old(self).entries@.remove(i),
                None => !old(self)@.contains_key(key@) && *final(self) == *old(self),
            },
    {
        proof {
            lemma_sorted_uniq(self.entries@);
            lemma_map_of_contains(self.entries@, key@);
        }
        let ghost s0 = old(self).entries@;
        let ghost k_view = key@;
        let n = self.entries.len();
        let mut i: usize = 0;
        while i < n
            invariant
                0 <= i <= n,
                n == s0.len(),
                *self == *old(self),
                s0 == old(self).entries@,
                k_view == key@,
                sorted_keys(s0),
                uniq_keys(s0),
                forall|j: int| 0 <= j < i ==> (#[trigger] s0[j].0@) != k_view,
            decreases n - i,
        {
            match str_compare(self.entries[i].0.as_str(), key) {
                Cmp::Equal => {
                    proof {
                        lemma_map_of_index(s0, i as int);
                        lemma_map_of_remove(s0, i as int);
                    }
                    let pair = self.entries.remove(i);
                    proof {
                        assert(self.entries@ == s0.remove(i as int));
                        assert forall|p: int, q: int|
                            0 <= p < q < self.entries@.len() implies #[trigger] lex_lt(
                            self.entries@[p].0@,
                            self.entries@[q].0@,
                        ) by {
                            let iv = i as int;
                            if q < iv {
                                assert(lex_lt(s0[p].0@, s0[q].0@));
                            } else if p < iv {
                                assert(lex_lt(s0[p].0@, s0[q + 1].0@));
                            } else {
                                assert(lex_lt(s0[p + 1].0@, s0[q + 1].0@));
                            }
                        }
                    }
                    return Some(pair.1);
                },
                _ => {
                    proof {
                        lemma_lex_lt_irreflexive(k_view);
                    }
                    i += 1;
                },
            }
        }
        proof {
            lemma_map_of_contains(s0, k_view);
            assert(!map_of(s0).contains_key(k_view));
            assert(map_of(s0) =~= map_of(s0).remove(k_view));
        }
        None
    }

    /// One page of the keys: the first `limit` keys strictly after
    /// `start_after`, in ascending order.
    pub fn list_keys(&self, start_after: Option<&str>, limit: usize) -> (r: Vec<String>)
        requires
            self.wf(),
        ensures
            key_views(r@) == keys_page(
                self.spec_keys(),
                match start_after {
                    Some(s) => Some(s@),
                    None => None,
                },
                limit as int,
            ),
    {
        let ghost keys = self.spec_keys();
        let ghost sv: Option<Seq<char>> = match start_after {
            Some(s) => Some(s@),
            None => None,
        };
        let ghost pred = |k: Seq<char>| lex_lt(sv->0, k);
        let n = self.entries.len();
        let mut out: Vec<String> = Vec::new();
        let mut i: usize = 0;
        while i < n
            invariant
                0 <= i <= n,
                n == self.entries@.len(),
                keys == self.spec_keys(),
                sv == (match start_after {
                    Some(s) => Some(s@),
                    None => None::<Seq<char>>,
                }),
                pred == (|k: Seq<char>| lex_lt(sv->0, k)),
                out@.len() <= limit,
                out@.len() == if keys_after(keys.take(i as int), sv).len() <= limit {
                    keys_after(keys.take(i as int), sv).len() as int
                } else {
                    limit as int
                },
                key_views(out@) == keys_page(keys.take(i as int), sv, limit as int),
            decreases n - i,
        {
            let ghost a = keys_after(keys.take(i as int), sv);
            proof {
                assert(keys.take(i as int).push(keys[i as int]) =~= keys.take(i + 1));
                if sv is Some {
                    lemma_filter_push(keys.take(i as int), pred, keys[i as int]);
                }
            }
            let pair = &self.entries[i];
            let included = match start_after {
                None => true,
                Some(s) => match str_compare(s, pair.0.as_str()) {
                    Cmp::Less => true,
                    _ => false,
                },
            };
            if included && out.len() < limit {
                out.push(pair.0.clone());
                proof {
                    assert(key_views(out@) =~= key_views(out@.drop_last()).push(keys[i as int]));
                    assert(keys_page(keys.take(i + 1), sv, limit as int) =~= key_views(out@));
                }
            } else {
                proof {
                    assert(keys_page(keys.take(i + 1), sv, limit as int) =~= key_views(out@));
                }
            }
            i += 1;
        }
        proof {
            assert(keys.take(n as int) =~= keys);
        }
        out
    }
}

impl<T: Copy> StrMap<T> {
    /// One page of the entries: the first `limit` entries whose key is
    /// strictly after `start_after`, in ascending key order.
    pub fn list_entries(&self, start_after: Option<&str>, limit: usize) -> (r: Vec<(String, T)>)
        requires
            self.wf(),
        ensures
            pair_views(r@) == pairs_page(
                pair_views(self.entries@),
                match start_after {
                    Some(s) => Some(s@),
                    None => None,
                },
                limit as int,
            ),
    {
        let ghost ps = pair_views(self.entries@);
        let ghost sv: Option<Seq<char>> = match start_after {
            Some(s) => Some(s@),
            None => None,
        };
        let ghost pred = |p: (Seq<char>, T)| lex_lt(sv->0, p.0);
        let n = self.entries.len();
        let mut out: Vec<(String, T)> = Vec::new();
        let mut i: usize = 0;
        while i < n
            invariant
                0 <= i <= n,
                n == self.entries@.len(),
                ps == pair_views(self.entries@),
                sv == (match start_after {
                    Some(s) => Some(s@),
                    None => None::<Seq<char>>,
                }),
                pred == (|p: (Seq<char>, T)| lex_lt(sv->0, p.0)),
                out@.len() <= limit,
                out@.len() == if pairs_after(ps.take(i as int), sv).len() <= limit {
                    pairs_after(ps.take(i as int), sv).len() as int
                } else {
                    limit as int
                },
                pair_views(out@) == pairs_page(ps.take(i as int), sv, limit as int),
            decreases n - i,
        {
            proof {
                assert(ps.take(i as int).push(ps[i as int]) =~= ps.take(i + 1));
                if sv is Some {
                    lemma_filter_push(ps.take(i as int), pred, ps[i as int]);
                }
            }
            let pair = &self.entries[i];
            let included = match start_after {
                None => true,
                Some(s) => match str_compare(s, pair.0.as_str()) {
                    Cmp::Less => true,
                    _ => false,
                },
            };
            if included && out.len() < limit {
                out.push((pair.0.clone(), pair.1));
                proof {
                    assert(pair_views(out@) =~= pair_views(out@.drop_last()).push(ps[i as int]));
                    assert(pairs_page(ps.take(i + 1), sv, limit as int) =~= pair_views(out@));
                }
            } else {
                proof {
                    assert(pairs_page(ps.take(i + 1), sv, limit as int) =~= pair_views(out@));
                }
            }
            i += 1;
        }
        proof {
            assert(ps.take(n as int) =~= ps);
        }
        out
    }
}

} // verus!

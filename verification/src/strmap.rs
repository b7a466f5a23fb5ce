use vstd::prelude::*;

use crate::text::str_eq;

verus! {

/// A map from text keys to values, kept in ascending key order as an ordered
/// map of strings keeps them: keys compare character by character, which is
/// the byte order of their UTF-8 encoding. Each key occurs once.
#[derive(Clone, Debug, PartialEq, Eq)]
pub struct StrMap<V> {
    entries: Vec<(String, V)>,
}

/// `a` sorts before `b`: at the first place where they differ, `a` has the
/// smaller character, or `a` is a proper prefix of `b`.
pub open spec fn key_less(a: Seq<char>, b: Seq<char>) -> bool
    decreases a.len(),
{
    if b.len() == 0 {
        false
    } else if a.len() == 0 {
        true
    } else if a[0] != b[0] {
        a[0] < b[0]
    } else {
        key_less(a.drop_first(), b.drop_first())
    }
}

/// The keys of the entries ascend strictly.
pub open spec fn keys_ascending<V>(entries: Seq<(String, V)>) -> bool {
    forall|i: int, j: int| 0 <= i < j < entries.len() ==> key_less(#[trigger] entries[i].0@, #[trigger] entries[j].0@)
}

pub(crate) proof fn lemma_key_less_irreflexive(a: Seq<char>)
    ensures
        !key_less(a, a),
    decreases a.len(),
{
    if a.len() > 0 {
        lemma_key_less_irreflexive(a.drop_first());
    }
}

pub(crate) proof fn lemma_key_less_transitive(a: Seq<char>, b: Seq<char>, c: Seq<char>)
    requires
        key_less(a, b),
        key_less(b, c),
    ensures
        key_less(a, c),
    decreases a.len(),
{
    if a.len() > 0 && b.len() > 0 && c.len() > 0 && a[0] == b[0] && b[0] == c[0] {
        lemma_key_less_transitive(a.drop_first(), b.drop_first(), c.drop_first());
    }
}

proof fn lemma_key_less_total(a: Seq<char>, b: Seq<char>)
    ensures
        a == b || key_less(a, b) || key_less(b, a),
    decreases a.len(),
{
    if a.len() > 0 && b.len() > 0 && a[0] == b[0] {
        lemma_key_less_total(a.drop_first(), b.drop_first());
        if a.drop_first() == b.drop_first() {
            assert(a =~= seq![a[0]] + a.drop_first());
            assert(b =~= seq![b[0]] + b.drop_first());
        }
    } else if a.len() == 0 && b.len() == 0 {
        assert(a =~= b);
    }
}

/// Whether `a` sorts before `b`, as `key_less` orders them.
pub(crate) fn key_less_exec(a: &str, b: &str) -> (r: bool)
    ensures
        r == key_less(a@, b@),
{
    let n = a.unicode_len();
    let m = b.unicode_len();
    let mut i: usize = 0;
    assert(a@.skip(0) =~= a@);
    assert(b@.skip(0) =~= b@);
    while i < n && i < m
        invariant
            n == a@.len(),
            m == b@.len(),
            0 <= i <= n,
            i <= m,
            key_less(a@, b@) == key_less(a@.skip(i as int), b@.skip(i as int)),
        decreases n - i,
    {
        let x = a.get_char(i);
        let y = b.get_char(i);
        assert(a@.skip(i as int)[0] == x);
        assert(b@.skip(i as int)[0] == y);
        if x != y {
            return x < y;
        }
        assert(a@.skip(i as int).drop_first() =~= a@.skip(i + 1));
        assert(b@.skip(i as int).drop_first() =~= b@.skip(i + 1));
        i = i + 1;
    }
    i < m
}

/// The keys of a list of entries.
pub open spec fn entry_keys<V>(entries: Seq<(String, V)>) -> Seq<Seq<char>> {
    entries.map_values(|e: (String, V)| e.0@)
}

/// Whether the key `k` occurs among the entries.
pub open spec fn has_key<V>(entries: Seq<(String, V)>, k: Seq<char>) -> bool {
    exists|i: int| 0 <= i < entries.len() && #[trigger] entries[i].0@ == k
}

/// The value of the first entry whose key is `k`.
pub open spec fn lookup<V>(entries: Seq<(String, V)>, k: Seq<char>) -> Option<V>
    decreases entries.len(),
{
    if entries.len() == 0 {
        None
    } else if entries[0].0@ == k {
        Some(entries[0].1)
    } else {
        lookup(entries.drop_first(), k)
    }
}

/// The position of the first entry whose key is `k`, or `entries.len()`.
pub open spec fn first_index_of<V>(entries: Seq<(String, V)>, k: Seq<char>) -> int
    decreases entries.len(),
{
    if entries.len() == 0 {
        0
    } else if entries[0].0@ == k {
        0
    } else {
        1 + first_index_of(entries.drop_first(), k)
    }
}

proof fn lemma_first_index<V>(entries: Seq<(String, V)>, k: Seq<char>, i: int)
    requires
        0 <= i < entries.len(),
        entries[i].0@ == k,
        forall|j: int| 0 <= j < i ==> (#[trigger] entries[j]).0@ != k,
    ensures
        first_index_of(entries, k) == i,
    decreases i,
{
    if i > 0 {
        assert(entries[0].0@ != k);
        assert forall|j: int| 0 <= j < i - 1 implies (#[trigger] entries.drop_first()[j]).0@ != k by {
            assert(entries.drop_first()[j] == entries[j + 1]);
        }
        lemma_first_index(entries.drop_first(), k, i - 1);
    }
}

proof fn lemma_lookup_at<V>(entries: Seq<(String, V)>, k: Seq<char>, i: int)
    requires
        0 <= i <= entries.len(),
        forall|j: int| 0 <= j < i ==> (#[trigger] entries[j]).0@ != k,
    ensures
        lookup(entries, k) == lookup(entries.skip(i), k),
    decreases i,
{
    if i > 0 {
        assert(entries.skip(1) =~= entries.drop_first());
        assert forall|j: int| 0 <= j < i - 1 implies (#[trigger] entries.drop_first()[j]).0@ != k by {
            assert(entries.drop_first()[j] == entries[j + 1]);
        }
        lemma_lookup_at(entries.drop_first(), k, i - 1);
        assert(entries.drop_first().skip(i - 1) =~= entries.skip(i));
    } else {
        assert(entries.skip(0) =~= entries);
    }
}

/// The value found under a key is the value of an entry with that key.
pub proof fn lemma_lookup_entry<V>(entries: Seq<(String, V)>, k: Seq<char>)
    ensures
        lookup(entries, k) matches Some(v) ==> exists|i: int|
            0 <= i < entries.len() && (#[trigger] entries[i]).0@ == k && entries[i].1 == v,
    decreases entries.len(),
{
    if entries.len() > 0 && entries[0].0@ != k {
        lemma_lookup_entry(entries.drop_first(), k);
        if lookup(entries, k) is Some {
            let i = choose|i: int|
                0 <= i < entries.drop_first().len() && (#[trigger] entries.drop_first()[i]).0@ == k
                    && entries.drop_first()[i].1 == lookup(entries, k)->0;
            assert(entries[i + 1] == entries.drop_first()[i]);
        }
    }
}

proof fn lemma_lookup_none<V>(entries: Seq<(String, V)>, k: Seq<char>)
    requires
        !has_key(entries, k),
    ensures
        lookup(entries, k) is None,
    decreases entries.len(),
{
    if entries.len() > 0 {
        assert(entries[0].0@ != k);
        assert forall|j: int| 0 <= j < entries.drop_first().len() implies (#[trigger] entries.drop_first()[j]).0@ != k by {
            assert(entries.drop_first()[j] == entries[j + 1]);
        }
        lemma_lookup_none(entries.drop_first(), k);
    }
}

proof fn lemma_lookup_update<V>(entries: Seq<(String, V)>, p: int, e: (String, V), k: Seq<char>)
    requires
        0 <= p < entries.len(),
        entries[p].0@ == e.0@,
        forall|j: int| 0 <= j < p ==> (#[trigger] entries[j]).0@ != e.0@,
    ensures
        lookup(entries.update(p, e), k) == if k == e.0@ {
            Some(e.1)
        } else {
            lookup(entries, k)
        },
    decreases p,
{
    if p > 0 {
        assert(entries.update(p, e).drop_first() =~= entries.drop_first().update(p - 1, e));
        assert forall|j: int| 0 <= j < p - 1 implies (#[trigger] entries.drop_first()[j]).0@ != e.0@ by {
            assert(entries.drop_first()[j] == entries[j + 1]);
        }
        assert(entries[0].0@ != e.0@);
        lemma_lookup_update(entries.drop_first(), p - 1, e, k);
    } else {
        assert(entries.update(p, e).drop_first() =~= entries.drop_first());
    }
}

proof fn lemma_lookup_insert_at<V>(entries: Seq<(String, V)>, p: int, e: (String, V), k: Seq<char>)
    requires
        0 <= p <= entries.len(),
        !has_key(entries, e.0@),
    ensures
        lookup(entries.insert(p, e), k) == if k == e.0@ {
            Some(e.1)
        } else {
            lookup(entries, k)
        },
    decreases p,
{
    if p == 0 {
        assert(entries.insert(0, e)[0] == e);
        assert(entries.insert(0, e).drop_first() =~= entries);
    } else {
        assert(entries.insert(p, e)[0] == entries[0]);
        assert(entries.insert(p, e).drop_first() =~= entries.drop_first().insert(p - 1, e));
        assert(entries[0].0@ != e.0@);
        if !(entries[0].0@ == k) {
            assert forall|j: int| 0 <= j < entries.drop_first().len() implies (#[trigger] entries.drop_first()[j]).0@ != e.0@ by {
                assert(entries.drop_first()[j] == entries[j + 1]);
            }
            lemma_lookup_insert_at(entries.drop_first(), p - 1, e, k);
        }
    }
}

impl<V> StrMap<V> {
    /// The map is well formed: its keys ascend strictly. Every map made by
    /// `new` and changed by `insert` and `value_mut` is.
    pub open spec fn wf(self) -> bool {
        keys_ascending(self.entry_seq())
    }

    /// The entries, in ascending key order.
    pub closed spec fn entry_seq(self) -> Seq<(String, V)> {
        self.entries@
    }

    pub fn new() -> (r: StrMap<V>)
        ensures
            r.entry_seq().len() == 0,
            r.wf(),
    {
        StrMap { entries: Vec::new() }
    }

    pub fn len(&self) -> (r: usize)
        ensures
            r == self.entry_seq().len(),
    {
        self.entries.len()
    }

    pub fn is_empty(&self) -> (r: bool)
        ensures
            r == (self.entry_seq().len() == 0),
    {
        self.entries.len() == 0
    }

    /// The entries, in ascending key order.
    pub fn entries(&self) -> (r: &Vec<(String, V)>)
        ensures
            r@ == self.entry_seq(),
    {
        &self.entries
    }

    /// The position of the entry whose key is `key`.
    pub fn position(&self, key: &str) -> (r: Option<usize>)
        ensures
            match r {
                Some(i) => i < self.entry_seq().len() && self.entry_seq()[i as int].0@ == key@
                    && (forall|j: int| 0 <= j < i ==> (#[trigger] self.entry_seq()[j]).0@ != key@)
                    && i == first_index_of(self.entry_seq(), key@),
                None => !has_key(self.entry_seq(), key@),
            },
    {
        let mut i: usize = 0;
        while i < self.entries.len()
            invariant
                0 <= i <= self.entries@.len(),
                forall|j: int| 0 <= j < i ==> (#[trigger] self.entries@[j]).0@ != key@,
            decreases self.entries@.len() - i,
        {
            if str_eq(self.entries[i].0.as_str(), key) {
                proof {
                    lemma_first_index(self.entries@, key@, i as int);
                }
                return Some(i);
            }
            i = i + 1;
        }
        None
    }

    /// The value stored under `key`.
    pub fn get(&self, key: &str) -> (r: Option<&V>)
        ensures
            match lookup(self.entry_seq(), key@) {
                Some(v) => r matches Some(x) && *x == v,
                None => r is None,
            },
            r is Some <==> has_key(self.entry_seq(), key@),
    {
        match self.position(key) {
            Some(i) => {
                proof {
                    lemma_lookup_at(self.entries@, key@, i as int);
                }
                Some(&self.entries[i].1)
            },
            None => {
                proof {
                    lemma_lookup_none(self.entries@, key@);
                }
                None
            },
        }
    }

    /// The value of the entry at position `i`, to change in place.
    pub fn value_mut(&mut self, i: usize) -> (r: &mut V)
        requires
            i < old(self).entry_seq().len(),
        ensures
            *r == old(self).entry_seq()[i as int].1,
            final(self).entry_seq() == old(self).entry_seq().update(
                i as int,
                (old(self).entry_seq()[i as int].0, *final(r)),
            ),
            old(self).wf() ==> final(self).wf(),
    {
        &mut self.entries[i].1
    }

    /// Stores `value` under `key`: an existing entry keeps its place and
    /// takes the new value; a new key goes where its order puts it.
    pub fn insert(&mut self, key: String, value: V)
        requires
            old(self).wf(),
        ensures
            final(self).wf(),
            has_key(old(self).entry_seq(), key@) ==> exists|p: int|
                0 <= p < old(self).entry_seq().len() && (#[trigger] old(self).entry_seq()[p]).0@
                    == key@ && final(self).entry_seq() == old(self).entry_seq().update(p, (key, value)),
            !has_key(old(self).entry_seq(), key@) ==> exists|p: int|
                0 <= p <= old(self).entry_seq().len() && final(self).entry_seq() == old(
                    self,
                ).entry_seq().insert(p, (key, value)),
            lookup(final(self).entry_seq(), key@) == Some(value),
            forall|k: Seq<char>|
                k != key@ ==> #[trigger] lookup(final(self).entry_seq(), k) == lookup(
                    old(self).entry_seq(),
                    k,
                ),
    {
        let ghost before = self.entries@;
        let ghost entry = (key, value);
        let mut p: usize = 0;
        while p < self.entries.len() && key_less_exec(self.entries[p].0.as_str(), key.as_str())
            invariant
                self.entries@ == before,
                keys_ascending(before),
                0 <= p <= before.len(),
                forall|j: int| 0 <= j < p ==> key_less((#[trigger] before[j]).0@, key@),
            decreases before.len() - p,
        {
            p = p + 1;
        }
        proof {
            assert forall|j: int| p <= j < before.len() implies !key_less((#[trigger] before[j]).0@, key@) by {
                if j > p {
                    lemma_key_less_total(before[p as int].0@, key@);
                    if key_less(before[j].0@, key@) {
                        lemma_key_less_transitive(before[p as int].0@, before[j].0@, key@);
                    }
                }
            }
            assert forall|j: int| 0 <= j < p implies (#[trigger] before[j]).0@ != key@ by {
                lemma_key_less_irreflexive(key@);
            }
        }
        if p < self.entries.len() && str_eq(self.entries[p].0.as_str(), key.as_str()) {
            self.entries.set(p, (key, value));
            let ghost entries = self.entries;
            proof {
                assert forall|k: Seq<char>| #[trigger] lookup(entries@, k) == if k == key@ {
                    Some(value)
                } else {
                    lookup(before, k)
                } by {
                    lemma_lookup_update(before, p as int, entry, k);
                }
                assert forall|i: int, j: int| 0 <= i < j < entries@.len() implies key_less(
                    #[trigger] entries@[i].0@,
                    #[trigger] entries@[j].0@,
                ) by {
                    assert(before[i].0@ == entries@[i].0@);
                    assert(before[j].0@ == entries@[j].0@);
                }
            }
        } else {
            proof {
                assert forall|j: int| 0 <= j < before.len() implies (#[trigger] before[j]).0@ != key@ by {
                    if j >= p {
                        if j == p {
                        } else {
                            lemma_key_less_total(before[p as int].0@, key@);
                            lemma_key_less_transitive(key@, before[p as int].0@, before[j].0@);
                            lemma_key_less_irreflexive(key@);
                        }
                    } else {
                        lemma_key_less_irreflexive(key@);
                    }
                }
                assert(!has_key(before, key@));
            }
            self.entries.insert(p, (key, value));
            let ghost entries = self.entries;
            proof {
                assert forall|k: Seq<char>| #[trigger] lookup(entries@, k) == if k == key@ {
                    Some(value)
                } else {
                    lookup(before, k)
                } by {
                    lemma_lookup_insert_at(before, p as int, entry, k);
                }
                assert forall|i: int, j: int| 0 <= i < j < entries@.len() implies key_less(
                    #[trigger] entries@[i].0@,
                    #[trigger] entries@[j].0@,
                ) by {
                    if j < p {
                        assert(entries@[i] == before[i] && entries@[j] == before[j]);
                    } else if j == p {
                        assert(entries@[i] == before[i]);
                    } else if i < p {
                        assert(entries@[i] == before[i] && entries@[j] == before[j - 1]);
                        lemma_key_less_total(before[p as int].0@, key@);
                        lemma_key_less_transitive(before[i].0@, key@, before[p as int].0@);
                        if j - 1 > p {
                            lemma_key_less_transitive(before[i].0@, before[p as int].0@, before[j - 1].0@);
                        }
                    } else if i == p {
                        assert(entries@[j] == before[j - 1]);
                        lemma_key_less_total(before[p as int].0@, key@);
                        if j - 1 > p {
                            lemma_key_less_transitive(key@, before[p as int].0@, before[j - 1].0@);
                        }
                    } else {
                        assert(entries@[i] == before[i - 1] && entries@[j] == before[j - 1]);
                    }
                }
            }
        }
    }
}

} // verus!

//! A map from strings to values whose entries are kept in key order, so that
//! walking it gives the keys sorted as `str` sorts them and no key twice.
use vstd::prelude::*;
use crate::text::{compare_text, lex_lt, lemma_lex_irreflexive, lemma_lex_transitive, Order};

verus! {

/// Keys strictly increasing in `lex_lt`; so no key occurs twice.
pub open spec fn keys_sorted<V>(e: Seq<(Seq<char>, V)>) -> bool {
    forall|i: int, j: int| 0 <= i < j < e.len() ==> lex_lt(#[trigger] e[i].0, #[trigger] e[j].0)
}

/// Some entry of `e` has key `k`.
pub open spec fn has_key<V>(e: Seq<(Seq<char>, V)>, k: Seq<char>) -> bool {
    exists|i: int| 0 <= i < e.len() && #[trigger] e[i].0 == k
}

/// The position of the entry with key `k`.
pub open spec fn key_index<V>(e: Seq<(Seq<char>, V)>, k: Seq<char>) -> int {
    choose|i: int| 0 <= i < e.len() && #[trigger] e[i].0 == k
}

/// The map that the entries `e` describe.
pub open spec fn entries_map<V>(e: Seq<(Seq<char>, V)>) -> Map<Seq<char>, V> {
    Map::new(|k: Seq<char>| has_key(e, k), |k: Seq<char>| e[key_index(e, k)].1)
}

/// In sorted entries, the entry with a given key is the one at its position.
pub proof fn lemma_key_index<V>(e: Seq<(Seq<char>, V)>, i: int)
    requires
        keys_sorted(e),
        0 <= i < e.len(),
    ensures
        key_index(e, e[i].0) == i,
        has_key(e, e[i].0),
        entries_map(e).contains_key(e[i].0),
        entries_map(e)[e[i].0] == e[i].1,
{
    let k = e[i].0;
    assert(0 <= i < e.len() && e[i].0 == k);
    let j = key_index(e, k);
    if j != i {
        lemma_lex_irreflexive(k);
        if j < i {
            assert(lex_lt(e[j].0, e[i].0));
        } else {
            assert(lex_lt(e[i].0, e[j].0));
        }
    }
}

/// A map from strings to values, kept sorted by key.
pub struct StrMap<V> {
    entries: Vec<(String, V)>,
}

impl<V> StrMap<V> {
    /// The entries in key order, each key taken by its characters.
    pub closed spec fn entries(&self) -> Seq<(Seq<char>, V)> {
        self.entries@.map_values(|e: (String, V)| (e.0@, e.1))
    }

    /// The keys in order.
    pub open spec fn keys(&self) -> Seq<Seq<char>> {
        self.entries().map_values(|e: (Seq<char>, V)| e.0)
    }

    /// The map that the entries describe.
    pub open spec fn as_map(&self) -> Map<Seq<char>, V> {
        entries_map(self.entries())
    }

    #[verifier::type_invariant]
    closed spec fn sorted(self) -> bool {
        keys_sorted(self.entries())
    }

    /// An empty map.
    pub fn new() -> (m: Self)
        ensures
            m.entries() == Seq::<(Seq<char>, V)>::empty(),
            m.as_map() == Map::<Seq<char>, V>::empty(),
    {
        let m = StrMap { entries: Vec::new() };
        assert(m.entries() =~= Seq::<(Seq<char>, V)>::empty());
        assert(m.as_map() =~= Map::<Seq<char>, V>::empty());
        m
    }

    /// The number of entries.
    pub fn len(&self) -> (n: usize)
        ensures
            n == self.entries().len(),
            keys_sorted(self.entries()),
    {
        proof {
            use_type_invariant(self);
        }
        self.entries.len()
    }

    /// Whether the map has no entry.
    pub fn is_empty(&self) -> (b: bool)
        ensures
            b == (self.entries().len() == 0),
    {
        self.entries.len() == 0
    }

    /// The key of the `i`-th entry in key order.
    pub fn key_at(&self, i: usize) -> (k: &String)
        requires
            i < self.entries().len(),
        ensures
            k@ == self.entries()[i as int].0,
    {
        &self.entries[i].0
    }

    /// The value of the `i`-th entry in key order.
    pub fn value_at(&self, i: usize) -> (v: &V)
        requires
            i < self.entries().len(),
        ensures
            *v == self.entries()[i as int].1,
    {
        &self.entries[i].1
    }

    /// Where `key` stands or would stand: the number of keys before it, and
    /// whether it is there.
    fn locate(&self, key: &str) -> (r: (usize, bool))
        ensures
            r.0 <= self.entries().len(),
            forall|i: int| 0 <= i < r.0 ==> lex_lt(#[trigger] self.entries()[i].0, key@),
            r.1 ==> r.0 < self.entries().len() && self.entries()[r.0 as int].0 == key@,
            !r.1 ==> forall|i: int|
                r.0 <= i < self.entries().len() ==> lex_lt(key@, #[trigger] self.entries()[i].0),
    {
        proof {
            use_type_invariant(self);
        }
        let mut i: usize = 0;
        while i < self.entries.len()
            invariant
                i <= self.entries().len(),
                self.entries().len() == self.entries@.len(),
                keys_sorted(self.entries()),
                forall|j: int| 0 <= j < i ==> lex_lt(#[trigger] self.entries()[j].0, key@),
            decreases self.entries.len() - i,
        {
            let o = compare_text(self.entries[i].0.as_str(), key);
            assert(self.entries()[i as int].0 == self.entries@[i as int].0@);
            match o {
                Order::Less => {},
                Order::Equal => {
                    return (i, true);
                },
                Order::Greater => {
                    assert forall|j: int| i <= j < self.entries().len() implies lex_lt(
                        key@,
                        #[trigger] self.entries()[j].0,
                    ) by {
                        if j > i {
                            lemma_lex_transitive(key@, self.entries()[i as int].0, self.entries()[j].0);
                        }
                    }
                    return (i, false);
                },
            }
            i = i + 1;
        }
        (i, false)
    }

    /// The value stored under `key`, if any.
    pub fn get(&self, key: &str) -> (r: Option<&V>)
        ensures
            r is Some == self.as_map().contains_key(key@),
            r is Some ==> *r.unwrap() == self.as_map()[key@],
    {
        proof {
            use_type_invariant(self);
        }
        let (i, found) = self.locate(key);
        if found {
            proof {
                lemma_key_index(self.entries(), i as int);
            }
            Some(&self.entries[i].1)
        } else {
            proof {
                if has_key(self.entries(), key@) {
                    let j = choose|j: int| 0 <= j < self.entries().len() && #[trigger] self.entries()[j].0 == key@;
                    lemma_lex_irreflexive(key@);
                    if j < i {
                        assert(lex_lt(self.entries()[j].0, key@));
                    } else {
                        assert(lex_lt(key@, self.entries()[j].0));
                    }
                }
            }
            None
        }
    }

    /// The entries in key order, handed over.
    pub fn into_entries(self) -> (v: Vec<(String, V)>)
        ensures
            v@.map_values(|e: (String, V)| (e.0@, e.1)) == self.entries(),
            keys_sorted(self.entries()),
    {
        proof {
            use_type_invariant(&self);
        }
        self.entries
    }

    /// Whether `key` has an entry.
    pub fn contains_key(&self, key: &str) -> (b: bool)
        ensures
            b == self.as_map().contains_key(key@),
    {
        self.get(key).is_some()
    }

    /// Stores `value` under `key`, replacing what was there.
    pub fn insert(&mut self, key: String, value: V)
        ensures
            final(self).as_map() == old(self).as_map().insert(key@, value),
            old(self).as_map().contains_key(key@) ==> final(self).entries().len() == old(
                self,
            ).entries().len(),
            !old(self).as_map().contains_key(key@) ==> final(self).entries().len() == old(
                self,
            ).entries().len() + 1,
    {
        proof {
            use_type_invariant(&*self);
        }
        let (i, found) = self.locate(key.as_str());
        let ghost k = key@;
        let ghost old_e = self.entries();
        let mut entries: Vec<(String, V)> = Vec::new();
        std::mem::swap(&mut entries, &mut self.entries);
        assert(entries@.map_values(|e: (String, V)| (e.0@, e.1)) == old_e);
        if found {
            entries.set(i, (key, value));
        } else {
            entries.insert(i, (key, value));
        }
        let ghost new_e = entries@.map_values(|e: (String, V)| (e.0@, e.1));
        proof {
            if found {
                assert(new_e =~= old_e.update(i as int, (k, value)));
                lemma_update_sorted(old_e, i as int, k, value);
                lemma_map_update(old_e, i as int, k, value);
            } else {
                assert(new_e =~= old_e.insert(i as int, (k, value)));
                lemma_insert_sorted(old_e, i as int, k, value);
                lemma_map_insert(old_e, i as int, k, value);
            }
        }
        self.entries = entries;
    }
}

proof fn lemma_update_sorted<V>(e: Seq<(Seq<char>, V)>, i: int, k: Seq<char>, v: V)
    requires
        keys_sorted(e),
        0 <= i < e.len(),
        e[i].0 == k,
    ensures
        keys_sorted(e.update(i, (k, v))),
{
    let f = e.update(i, (k, v));
    assert forall|a: int, b: int| 0 <= a < b < f.len() implies lex_lt(#[trigger] f[a].0, #[trigger] f[b].0) by {
        assert(f[a].0 == e[a].0);
        assert(f[b].0 == e[b].0);
    }
}

proof fn lemma_insert_sorted<V>(e: Seq<(Seq<char>, V)>, i: int, k: Seq<char>, v: V)
    requires
        keys_sorted(e),
        0 <= i <= e.len(),
        forall|j: int| 0 <= j < i ==> lex_lt(#[trigger] e[j].0, k),
        forall|j: int| i <= j < e.len() ==> lex_lt(k, #[trigger] e[j].0),
    ensures
        keys_sorted(e.insert(i, (k, v))),
{
    let f = e.insert(i, (k, v));
    assert forall|a: int, b: int| 0 <= a < b < f.len() implies lex_lt(#[trigger] f[a].0, #[trigger] f[b].0) by {
        if a < i {
            assert(f[a] == e[a]);
            if b == i {
            } else if b > i {
                assert(f[b] == e[b - 1]);
            } else {
                assert(f[b] == e[b]);
            }
        } else if a == i {
            assert(f[b] == e[b - 1]);
        } else {
            assert(f[a] == e[a - 1]);
            assert(f[b] == e[b - 1]);
        }
    }
}

proof fn lemma_map_update<V>(e: Seq<(Seq<char>, V)>, i: int, k: Seq<char>, v: V)
    requires
        keys_sorted(e),
        0 <= i < e.len(),
        e[i].0 == k,
    ensures
        entries_map(e.update(i, (k, v))) == entries_map(e).insert(k, v),
{
    let f = e.update(i, (k, v));
    lemma_update_sorted(e, i, k, v);
    assert forall|q: Seq<char>| has_key(f, q) == (has_key(e, q) || q == k) by {
        if has_key(f, q) {
            let j = choose|j: int| 0 <= j < f.len() && #[trigger] f[j].0 == q;
            assert(e[j].0 == q);
        }
        if has_key(e, q) {
            let j = choose|j: int| 0 <= j < e.len() && #[trigger] e[j].0 == q;
            assert(f[j].0 == q);
        }
        if q == k {
            assert(f[i].0 == q);
        }
    }
    assert forall|q: Seq<char>| #[trigger] has_key(f, q) implies entries_map(f)[q] == entries_map(
        e,
    ).insert(k, v)[q] by {
        let j = choose|j: int| 0 <= j < f.len() && #[trigger] f[j].0 == q;
        lemma_key_index(f, j);
        if j == i {
        } else {
            assert(e[j].0 == q);
            lemma_key_index(e, j);
            lemma_lex_irreflexive(k);
        }
    }
    assert(entries_map(f) =~= entries_map(e).insert(k, v));
}

proof fn lemma_map_insert<V>(e: Seq<(Seq<char>, V)>, i: int, k: Seq<char>, v: V)
    requires
        keys_sorted(e),
        0 <= i <= e.len(),
        forall|j: int| 0 <= j < i ==> lex_lt(#[trigger] e[j].0, k),
        forall|j: int| i <= j < e.len() ==> lex_lt(k, #[trigger] e[j].0),
    ensures
        entries_map(e.insert(i, (k, v))) == entries_map(e).insert(k, v),
        !has_key(e, k),
{
    let f = e.insert(i, (k, v));
    lemma_insert_sorted(e, i, k, v);
    lemma_lex_irreflexive(k);
    assert(!has_key(e, k)) by {
        if has_key(e, k) {
            let j = choose|j: int| 0 <= j < e.len() && #[trigger] e[j].0 == k;
            if j < i {
                assert(lex_lt(e[j].0, k));
            } else {
                assert(lex_lt(k, e[j].0));
            }
        }
    }
    assert forall|q: Seq<char>| has_key(f, q) == (has_key(e, q) || q == k) by {
        if has_key(f, q) {
            let j = choose|j: int| 0 <= j < f.len() && #[trigger] f[j].0 == q;
            if j < i {
                assert(e[j].0 == q);
            } else if j > i {
                assert(e[j - 1].0 == q);
            }
        }
        if has_key(e, q) {
            let j = choose|j: int| 0 <= j < e.len() && #[trigger] e[j].0 == q;
            if j < i {
                assert(f[j].0 == q);
            } else {
                assert(f[j + 1].0 == q);
            }
        }
        if q == k {
            assert(f[i].0 == q);
        }
    }
    assert forall|q: Seq<char>| #[trigger] has_key(f, q) implies entries_map(f)[q] == entries_map(
        e,
    ).insert(k, v)[q] by {
        let j = choose|j: int| 0 <= j < f.len() && #[trigger] f[j].0 == q;
        lemma_key_index(f, j);
        if j < i {
            assert(f[j] == e[j]);
            lemma_key_index(e, j);
        } else if j > i {
            assert(f[j] == e[j - 1]);
            lemma_key_index(e, j - 1);
        }
    }
    assert(entries_map(f) =~= entries_map(e).insert(k, v));
}

/// The map that inserting `pairs` one after the other into `m` gives.
pub open spec fn insert_all<V>(m: Map<Seq<char>, V>, pairs: Seq<(Seq<char>, V)>) -> Map<Seq<char>, V>
    decreases pairs.len(),
{
    if pairs.len() == 0 {
        m
    } else {
        insert_all(m, pairs.drop_last()).insert(pairs.last().0, pairs.last().1)
    }
}

impl<V> StrMap<V> {
    /// A map holding `pairs`; where a key occurs twice the later value wins,
    /// as with `HashMap::from`.
    pub fn from_pairs(pairs: Vec<(String, V)>) -> (m: Self)
        ensures
            m.as_map() == insert_all(
                Map::<Seq<char>, V>::empty(),
                pairs@.map_values(|p: (String, V)| (p.0@, p.1)),
            ),
    {
        let ghost ps = pairs@.map_values(|p: (String, V)| (p.0@, p.1));
        let mut m = StrMap::new();
        let mut i: usize = 0;
        for p in it: pairs
            invariant
                it.seq() == pairs@,
                ps == pairs@.map_values(|p: (String, V)| (p.0@, p.1)),
                m.as_map() == insert_all(Map::<Seq<char>, V>::empty(), ps.take(it.index() as int)),
        {
            let ghost k = it.index() as int;
            assert(ps.take(k + 1).drop_last() =~= ps.take(k));
            assert(ps.take(k + 1).last() == (p.0@, p.1));
            m.insert(p.0, p.1);
        }
        assert(ps.take(pairs@.len() as int) =~= ps);
        m
    }
}

impl StrMap<String> {
    /// The map with each value taken by its characters.
    pub open spec fn text_map(&self) -> Map<Seq<char>, Seq<char>> {
        self.as_map().map_values(|v: String| v@)
    }

    /// The entries with each value taken by its characters.
    pub open spec fn text_entries(&self) -> Seq<(Seq<char>, Seq<char>)> {
        self.entries().map_values(|e: (Seq<char>, String)| (e.0, e.1@))
    }
}

} // verus!

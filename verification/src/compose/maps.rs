//! Maps keyed by text that remember the order of their entries.
use indexmap::IndexMap;
use vstd::prelude::*;
use crate::text::same;

verus! {

#[verifier::external_type_specification]
#[verifier::external_body]
#[verifier::reject_recursive_types(K)]
#[verifier::reject_recursive_types(V)]
#[verifier::reject_recursive_types(S)]
pub struct ExIndexMap<K, V, S>(IndexMap<K, V, S>);

/// The entries of an index map, in order.
pub uninterp spec fn index_entries(m: IndexMap<String, usize>) -> Seq<(Seq<char>, usize)>;

/// The position of the first entry under a key.
pub open spec fn position<V>(entries: Seq<(Seq<char>, V)>, key: Seq<char>) -> Option<int>
    decreases entries.len(),
{
    if entries.len() == 0 {
        None
    } else if entries[0].0 == key {
        Some(0)
    } else {
        match position(entries.skip(1), key) {
            Some(i) => Some(i + 1),
            None => None,
        }
    }
}

/// Entries with a value put under a key: in place of the value there, or at the
/// end.
pub open spec fn with_entry<V>(
    entries: Seq<(Seq<char>, V)>,
    key: Seq<char>,
    value: V,
) -> Seq<(Seq<char>, V)> {
    match position(entries, key) {
        Some(i) => entries.update(i, (key, value)),
        None => entries.push((key, value)),
    }
}

/// Whether no key occurs twice.
pub open spec fn keys_distinct<V>(entries: Seq<(Seq<char>, V)>) -> bool {
    forall|i: int, j: int|
        0 <= i < j < entries.len() ==> (#[trigger] entries[i]).0 != (#[trigger] entries[j]).0
}

/// Makes an index map without entries; calls `IndexMap::new`.
#[verifier::external_body]
fn index_new() -> (m: IndexMap<String, usize>)
    ensures
        index_entries(m) == Seq::<(Seq<char>, usize)>::empty(),
{
    IndexMap::new()
}

/// Puts a value under a key; calls `IndexMap::insert`, which replaces the value
/// of a key that is there, leaving the key in its place, and else appends.
#[verifier::external_body]
fn index_insert(m: &mut IndexMap<String, usize>, key: String, value: usize)
    ensures
        index_entries(*final(m)) == with_entry(index_entries(*old(m)), key@, value),
{
    m.insert(key, value);
}

/// The value under a key; calls `IndexMap::get`.
#[verifier::external_body]
fn index_get(m: &IndexMap<String, usize>, key: &str) -> (r: Option<usize>)
    ensures
        r == match position(index_entries(*m), key@) {
            Some(i) => Some(index_entries(*m)[i].1),
            None => None,
        },
{
    m.get(key).copied()
}

/// The key of the entry at a position; calls `IndexMap::get_index`, which
/// hands out the entry at each position below the number of entries.
#[verifier::external_body]
fn index_key(m: &IndexMap<String, usize>, i: usize) -> (r: Option<&String>)
    ensures
        match r {
            Some(k) => i < index_entries(*m).len() && k@ == index_entries(*m)[i as int].0,
            None => i >= index_entries(*m).len(),
        },
{
    m.get_index(i).map(|e| e.0)
}

/// What [`position`] finds.
pub proof fn lemma_position<V>(entries: Seq<(Seq<char>, V)>, key: Seq<char>)
    ensures
        match position(entries, key) {
            Some(i) => 0 <= i < entries.len() && entries[i].0 == key && forall|j: int|
                0 <= j < i ==> (#[trigger] entries[j]).0 != key,
            None => forall|j: int| 0 <= j < entries.len() ==> (#[trigger] entries[j]).0 != key,
        },
    decreases entries.len(),
{
    if entries.len() > 0 && entries[0].0 != key {
        let rest = entries.skip(1);
        lemma_position(rest, key);
        match position(rest, key) {
            Some(i) => {
                assert forall|j: int| 0 <= j < i + 1 implies (#[trigger] entries[j]).0 != key by {
                    if j > 0 {
                        assert(rest[j - 1] == entries[j]);
                    }
                }
            },
            None => {
                assert forall|j: int| 0 <= j < entries.len() implies (#[trigger] entries[j]).0
                    != key by {
                    if j > 0 {
                        assert(rest[j - 1] == entries[j]);
                    }
                }
            },
        }
    }
}

/// The position of a key is where it stands: it stands nowhere earlier.
pub proof fn lemma_position_is<V>(entries: Seq<(Seq<char>, V)>, key: Seq<char>, i: int)
    requires
        0 <= i < entries.len(),
        entries[i].0 == key,
        forall|j: int| 0 <= j < i ==> (#[trigger] entries[j]).0 != key,
    ensures
        position(entries, key) == Some(i),
{
    lemma_position(entries, key);
}

/// Putting an entry keeps keys distinct.
pub proof fn lemma_with_entry_distinct<V>(entries: Seq<(Seq<char>, V)>, key: Seq<char>, value: V)
    requires
        keys_distinct(entries),
    ensures
        keys_distinct(with_entry(entries, key, value)),
{
    lemma_position(entries, key);
}

/// A value is found under the key it was put under, and every other key keeps
/// the value it had.
pub proof fn lemma_with_entry_lookup<V>(
    entries: Seq<(Seq<char>, V)>,
    key: Seq<char>,
    value: V,
    other: Seq<char>,
)
    ensures
        ({
            let after = with_entry(entries, key, value);
            match position(after, other) {
                Some(i) => if other == key {
                    after[i].1 == value
                } else {
                    position(entries, other) == Some(i) && after[i] == entries[i]
                },
                None => other != key && position(entries, other) is None,
            }
        }),
{
    let after = with_entry(entries, key, value);
    lemma_position(entries, key);
    lemma_position(entries, other);
    lemma_position(after, other);
    match position(entries, key) {
        Some(k) => {
            assert(after[k] == (key, value));
            if other == key {
                lemma_position_is(after, key, k);
            } else {
                match position(entries, other) {
                    Some(i) => {
                        assert(after[i] == entries[i]);
                        lemma_position_is(after, other, i);
                    },
                    None => {
                        if let Some(i) = position(after, other) {
                            assert(after[i] == entries[i]);
                        }
                    },
                }
            }
        },
        None => {
            let n = entries.len() as int;
            assert(after[n] == (key, value));
            if other == key {
                lemma_position_is(after, key, n);
            } else {
                match position(entries, other) {
                    Some(i) => {
                        assert(after[i] == entries[i]);
                        lemma_position_is(after, other, i);
                    },
                    None => {
                        if let Some(i) = position(after, other) {
                            if i < n {
                                assert(after[i] == entries[i]);
                            }
                        }
                    },
                }
            }
        },
    }
}

// ---- ordered maps ----

/// A map from texts to values, in the order in which keys were first put.
#[verifier::reject_recursive_types(V)]
#[derive(Debug)]
pub struct OrderedMap<V> {
    keys: IndexMap<String, usize>,
    values: Vec<V>,
}

impl<V> OrderedMap<V> {
    #[verifier::type_invariant]
    spec fn inv(self) -> bool {
        let ks = index_entries(self.keys);
        &&& ks.len() == self.values@.len()
        &&& keys_distinct(ks)
        &&& forall|i: int| 0 <= i < ks.len() ==> (#[trigger] ks[i]).1 == i
    }

    /// The entries in order.
    pub closed spec fn entries(self) -> Seq<(Seq<char>, V)> {
        Seq::new(
            self.values@.len(),
            |i: int| (index_entries(self.keys)[i].0, self.values@[i]),
        )
    }

    /// A map without entries.
    pub fn new() -> (r: OrderedMap<V>)
        ensures
            r.entries() == Seq::<(Seq<char>, V)>::empty(),
    {
        let r = OrderedMap { keys: index_new(), values: Vec::new() };
        assert(r.entries() =~= Seq::<(Seq<char>, V)>::empty());
        r
    }

    /// The number of entries. No key has two.
    pub fn len(&self) -> (r: usize)
        ensures
            r == self.entries().len(),
            keys_distinct(self.entries()),
    {
        proof {
            use_type_invariant(self);
        }
        self.values.len()
    }

    /// Where a key stands among the entries is where it stands among the keys.
    proof fn lemma_same_position(self, key: Seq<char>)
        requires
            self.inv(),
        ensures
            position(self.entries(), key) == position(index_entries(self.keys), key),
    {
        let ks = index_entries(self.keys);
        let es = self.entries();
        lemma_position(ks, key);
        lemma_position(es, key);
        match position(ks, key) {
            Some(i) => {
                assert(es[i].0 == key);
                assert forall|j: int| 0 <= j < i implies (#[trigger] es[j]).0 != key by {
                    assert(ks[j].0 != key);
                }
                lemma_position_is(es, key, i);
            },
            None => {
                if let Some(i) = position(es, key) {
                    assert(ks[i].0 == key);
                }
            },
        }
    }

    /// Puts a value under a key.
    pub fn insert(&mut self, key: String, value: V)
        ensures
            final(self).entries() == with_entry(old(self).entries(), key@, value),
    {
        proof {
            use_type_invariant(&*self);
            self.lemma_same_position(key@);
            lemma_position(index_entries(self.keys), key@);
        }
        let ghost before = self.entries();
        let ghost ks = index_entries(self.keys);
        let mut cur: OrderedMap<V> = OrderedMap::new();
        std::mem::swap(&mut cur, self);
        let OrderedMap { mut keys, mut values } = cur;
        match index_get(&keys, key.as_str()) {
            Some(i) => {
                values.set(i, value);
            },
            None => {
                let n: usize = values.len();
                proof {
                    lemma_with_entry_distinct(ks, key@, n);
                }
                index_insert(&mut keys, key, n);
                values.push(value);
            },
        }
        *self = OrderedMap { keys, values };
        assert(self.entries() =~= with_entry(before, key@, value));
    }

    /// The value under a key.
    pub fn get(&self, key: &str) -> (r: Option<&V>)
        ensures
            match r {
                Some(v) => position(self.entries(), key@) matches Some(i) && *v
                    == self.entries()[i].1,
                None => position(self.entries(), key@) is None,
            },
    {
        proof {
            use_type_invariant(self);
            self.lemma_same_position(key@);
            lemma_position(index_entries(self.keys), key@);
        }
        match index_get(&self.keys, key) {
            Some(i) => Some(&self.values[i]),
            None => None,
        }
    }

    /// Whether a key has an entry.
    pub fn contains_key(&self, key: &str) -> (r: bool)
        ensures
            r == (position(self.entries(), key@) is Some),
    {
        self.get(key).is_some()
    }

    /// The key of the entry at a position.
    pub fn key_at(&self, i: usize) -> (r: &String)
        requires
            i < self.entries().len(),
        ensures
            r@ == self.entries()[i as int].0,
    {
        proof {
            use_type_invariant(self);
        }
        index_key(&self.keys, i).unwrap()
    }

    /// The value of the entry at a position.
    pub fn value_at(&self, i: usize) -> (r: &V)
        requires
            i < self.entries().len(),
        ensures
            *r == self.entries()[i as int].1,
    {
        &self.values[i]
    }

    /// The keys in order, taken out of the map together with the values.
    pub fn into_entries(self) -> (r: (Vec<String>, Vec<V>))
        ensures
            r.0@.len() == self.entries().len(),
            r.1@.len() == self.entries().len(),
            forall|i: int|
                0 <= i < r.0@.len() ==> (#[trigger] r.0@[i])@ == self.entries()[i].0 && r.1@[i]
                    == self.entries()[i].1,
    {
        let keys = self.keys();
        (keys, self.values)
    }

    /// The keys in order.
    pub fn keys(&self) -> (r: Vec<String>)
        ensures
            r@.len() == self.entries().len(),
            forall|i: int| 0 <= i < r@.len() ==> (#[trigger] r@[i])@ == self.entries()[i].0,
    {
        let mut out: Vec<String> = Vec::new();
        let mut i: usize = 0;
        while i < self.len()
            invariant
                i <= self.entries().len(),
                out@.len() == i,
                forall|j: int| 0 <= j < i ==> (#[trigger] out@[j])@ == self.entries()[j].0,
            decreases self.entries().len() - i,
        {
            out.push(self.key_at(i).clone());
            i += 1;
        }
        out
    }
}

impl<V> Default for OrderedMap<V> {
    fn default() -> (r: OrderedMap<V>)
        ensures
            r.entries() == Seq::<(Seq<char>, V)>::empty(),
    {
        OrderedMap::new()
    }
}

/// Entries with those of another list put one by one, in order.
pub open spec fn merged<V>(
    into: Seq<(Seq<char>, V)>,
    from: Seq<(Seq<char>, V)>,
) -> Seq<(Seq<char>, V)>
    decreases from.len(),
{
    if from.len() == 0 {
        into
    } else {
        let before = merged(into, from.drop_last());
        with_entry(before, from.last().0, from.last().1)
    }
}

/// The last writer wins: after a merge a key has the value that it was given
/// last in the added list, or the value it had where the list lacks it.
pub proof fn lemma_merged_lookup<V>(
    into: Seq<(Seq<char>, V)>,
    from: Seq<(Seq<char>, V)>,
    key: Seq<char>,
)
    requires
        keys_distinct(from),
    ensures
        ({
            let after = merged(into, from);
            match (position(after, key), position(from, key)) {
                (Some(i), Some(j)) => after[i].1 == from[j].1,
                (Some(i), None) => position(into, key) == Some(i) && after[i] == into[i],
                (None, Some(_)) => false,
                (None, None) => position(into, key) is None,
            }
        }),
    decreases from.len(),
{
    lemma_position(from, key);
    if from.len() > 0 {
        let front = from.drop_last();
        let before = merged(into, front);
        let last = from.last();
        lemma_merged_lookup(into, front, key);
        lemma_with_entry_lookup(before, last.0, last.1, key);
        lemma_position(front, key);
        if last.0 == key {
            assert forall|j: int| 0 <= j < from.len() - 1 implies (#[trigger] from[j]).0 != key by {
                assert(from[j].0 != from[from.len() - 1].0);
            }
            lemma_position_is(from, key, from.len() - 1);
        } else {
            match position(front, key) {
                Some(j) => {
                    assert(from[j] == front[j]);
                    assert forall|k: int| 0 <= k < j implies (#[trigger] from[k]).0 != key by {
                        assert(from[k] == front[k]);
                    }
                    lemma_position_is(from, key, j);
                },
                None => {
                    if let Some(j) = position(from, key) {
                        assert(from[j] == front[j]);
                    }
                },
            }
        }
    }
}

/// Merging keeps keys distinct.
pub proof fn lemma_merged_distinct<V>(into: Seq<(Seq<char>, V)>, from: Seq<(Seq<char>, V)>)
    requires
        keys_distinct(into),
    ensures
        keys_distinct(merged(into, from)),
    decreases from.len(),
{
    if from.len() > 0 {
        lemma_merged_distinct(into, from.drop_last());
        lemma_with_entry_distinct(
            merged(into, from.drop_last()),
            from.last().0,
            from.last().1,
        );
    }
}

/// Merging into a map.
pub fn merge_into<V>(into: &mut OrderedMap<V>, from: OrderedMap<V>)
    ensures
        final(into).entries() == merged(old(into).entries(), from.entries()),
{
    let ghost before = into.entries();
    let ghost added = from.entries();
    let (mut keys, mut values) = from.into_entries();
    let n: usize = keys.len();
    let mut i: usize = 0;
    while i < n
        invariant
            i <= n,
            n == added.len(),
            keys@.len() == n - i,
            values@.len() == n - i,
            forall|j: int|
                0 <= j < n - i ==> (#[trigger] keys@[j])@ == added[i + j].0 && values@[j]
                    == added[i + j].1,
            into.entries() == merged(before, added.take(i as int)),
        decreases n - i,
    {
        assert(added.take(i + 1).drop_last() =~= added.take(i as int));
        assert(keys@[0]@ == added[i + 0].0);
        let ghost ks = keys@;
        let ghost vs = values@;
        let key = keys.remove(0);
        let value = values.remove(0);
        into.insert(key, value);
        assert forall|j: int| 0 <= j < n - i - 1 implies (#[trigger] keys@[j])@ == added[i + 1
            + j].0 && values@[j] == added[i + 1 + j].1 by {
            assert(keys@[j] == ks[j + 1]);
            assert(values@[j] == vs[j + 1]);
        }
        i += 1;
    }
    assert(added.take(i as int) =~= added);
}

// ---- texts under texts ----

/// The entries of a map from texts to texts.
pub open spec fn text_pairs(es: Seq<(Seq<char>, String)>) -> Seq<(Seq<char>, Seq<char>)> {
    es.map_values(|e: (Seq<char>, String)| (e.0, e.1@))
}

/// A key stands where it stands, whatever the values.
proof fn lemma_text_pairs_position(es: Seq<(Seq<char>, String)>, key: Seq<char>)
    ensures
        position(text_pairs(es), key) == position(es, key),
    decreases es.len(),
{
    if es.len() > 0 && es[0].0 != key {
        lemma_text_pairs_position(es.skip(1), key);
        assert(text_pairs(es).skip(1) =~= text_pairs(es.skip(1)));
    }
}

/// Putting a text.
pub proof fn lemma_text_pairs_with(es: Seq<(Seq<char>, String)>, key: Seq<char>, value: String)
    ensures
        text_pairs(with_entry(es, key, value)) == with_entry(text_pairs(es), key, value@),
{
    lemma_text_pairs_position(es, key);
    lemma_position(es, key);
    assert(text_pairs(with_entry(es, key, value)) =~= with_entry(text_pairs(es), key, value@));
}

impl OrderedMap<String> {
    /// The entries as texts.
    pub open spec fn pairs(self) -> Seq<(Seq<char>, Seq<char>)> {
        text_pairs(self.entries())
    }

    /// Puts a text under a key.
    pub fn put(&mut self, key: String, value: String)
        ensures
            final(self).pairs() == with_entry(old(self).pairs(), key@, value@),
    {
        proof {
            lemma_text_pairs_with(self.entries(), key@, value);
        }
        self.insert(key, value);
    }

    /// Whether a text stands under a key.
    pub fn holds(&self, key: &str, value: &str) -> (r: bool)
        ensures
            r == (lookup(self.pairs(), key@) == Some(value@)),
    {
        proof {
            lemma_text_pairs_position(self.entries(), key@);
            lemma_position(self.entries(), key@);
        }
        match self.get(key) {
            Some(v) => same(v.as_str(), value),
            None => false,
        }
    }

    /// The text under a key.
    pub fn text_under(&self, key: &str) -> (r: Option<String>)
        ensures
            match r {
                Some(v) => lookup(self.pairs(), key@) == Some(v@),
                None => lookup(self.pairs(), key@) is None,
            },
    {
        proof {
            lemma_text_pairs_position(self.entries(), key@);
            lemma_position(self.entries(), key@);
        }
        match self.get(key) {
            Some(v) => Some(v.clone()),
            None => None,
        }
    }
}

/// The value under a key.
pub open spec fn lookup<V>(entries: Seq<(Seq<char>, V)>, key: Seq<char>) -> Option<V> {
    match position(entries, key) {
        Some(i) => Some(entries[i].1),
        None => None,
    }
}

/// The entries that result from putting pairs one by one into an empty map.
pub open spec fn from_pairs(ps: Seq<(Seq<char>, Seq<char>)>) -> Seq<(Seq<char>, Seq<char>)> {
    merged(Seq::empty(), ps)
}

/// Pairs with distinct keys, put one by one, are the entries of the map.
pub proof fn lemma_from_pairs_distinct(ps: Seq<(Seq<char>, Seq<char>)>)
    requires
        keys_distinct(ps),
    ensures
        from_pairs(ps) == ps,
    decreases ps.len(),
{
    if ps.len() > 0 {
        let front = ps.drop_last();
        assert forall|i: int, j: int| 0 <= i < j < front.len() implies (#[trigger] front[i]).0 != (
        #[trigger] front[j]).0 by {
            assert(ps[i].0 != ps[j].0);
        }
        lemma_from_pairs_distinct(front);
        lemma_position(front, ps.last().0);
        assert(ps =~= front.push(ps.last()));
    }
}

} // verus!

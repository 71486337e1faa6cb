//! A key-value store over byte-string keys, backed by an association list.
//!
//! The market core keeps its two persisted mappings (question registry and
//! position ledger) in stores of this type. A store's abstract state is a
//! `Map<Seq<u8>, V>`; every operation is specified against that map.

use vstd::prelude::*;

verus! {

broadcast use vstd::seq_lib::group_seq_properties;

/// The key of the entry at position `i`, as a mathematical byte string.
pub open spec fn key_at<V>(s: Seq<(Vec<u8>, V)>, i: int) -> Seq<u8> {
    s[i].0@
}

/// Some entry of `s` carries the key `k`.
pub open spec fn has_key<V>(s: Seq<(Vec<u8>, V)>, k: Seq<u8>) -> bool {
    exists|i: int| 0 <= i < s.len() && #[trigger] key_at(s, i) == k
}

/// No two entries of `s` carry the same key.
pub open spec fn distinct_keys<V>(s: Seq<(Vec<u8>, V)>) -> bool {
    forall|i: int, j: int|
        0 <= i < j < s.len() ==> #[trigger] key_at(s, i) != #[trigger] key_at(s, j)
}

/// The map that an association list denotes: later entries win, though under
/// `distinct_keys` the order never matters.
pub open spec fn kv_view<V>(s: Seq<(Vec<u8>, V)>) -> Map<Seq<u8>, V>
    decreases s.len(),
{
    if s.len() == 0 {
        Map::empty()
    } else {
        kv_view(s.drop_last()).insert(s.last().0@, s.last().1)
    }
}

proof fn lemma_distinct_drop_last<V>(s: Seq<(Vec<u8>, V)>)
    requires
        s.len() > 0,
        distinct_keys(s),
    ensures
        distinct_keys(s.drop_last()),
{
    assert forall|i: int, j: int| 0 <= i < j < s.drop_last().len() implies #[trigger] key_at(
        s.drop_last(),
        i,
    ) != #[trigger] key_at(s.drop_last(), j) by {
        assert(key_at(s.drop_last(), i) == key_at(s, i));
        assert(key_at(s.drop_last(), j) == key_at(s, j));
    }
}

proof fn lemma_view_contains<V>(s: Seq<(Vec<u8>, V)>, k: Seq<u8>)
    ensures
        kv_view(s).contains_key(k) <==> has_key(s, k),
    decreases s.len(),
{
    if s.len() == 0 {
    } else {
        lemma_view_contains(s.drop_last(), k);
        if s.last().0@ == k {
            assert(key_at(s, s.len() - 1) == k);
        } else {
            if has_key(s, k) {
                let i = choose|i: int| 0 <= i < s.len() && #[trigger] key_at(s, i) == k;
                assert(i < s.len() - 1);
                assert(key_at(s.drop_last(), i) == k);
            }
            if has_key(s.drop_last(), k) {
                let i = choose|i: int|
                    0 <= i < s.drop_last().len() && #[trigger] key_at(s.drop_last(), i) == k;
                assert(key_at(s, i) == k);
            }
        }
    }
}

proof fn lemma_view_value<V>(s: Seq<(Vec<u8>, V)>, i: int)
    requires
        distinct_keys(s),
        0 <= i < s.len(),
    ensures
        kv_view(s).contains_key(key_at(s, i)),
        kv_view(s)[key_at(s, i)] == s[i].1,
    decreases s.len(),
{
    if i == s.len() - 1 {
    } else {
        lemma_distinct_drop_last(s);
        lemma_view_value(s.drop_last(), i);
        assert(key_at(s.drop_last(), i) == key_at(s, i));
        assert(key_at(s, i) != key_at(s, s.len() - 1));
    }
}

proof fn lemma_view_update<V>(s: Seq<(Vec<u8>, V)>, i: int, key: Vec<u8>, value: V)
    requires
        distinct_keys(s),
        0 <= i < s.len(),
        key@ == key_at(s, i),
    ensures
        kv_view(s.update(i, (key, value))) == kv_view(s).insert(key@, value),
        distinct_keys(s.update(i, (key, value))),
    decreases s.len(),
{
    let t = s.update(i, (key, value));
    assert forall|x: int, y: int| 0 <= x < y < t.len() implies #[trigger] key_at(t, x)
        != #[trigger] key_at(t, y) by {
        assert(key_at(t, x) == key_at(s, x));
        assert(key_at(t, y) == key_at(s, y));
    }
    if i == s.len() - 1 {
        assert(t.drop_last() =~= s.drop_last());
        assert(kv_view(t) =~= kv_view(s).insert(key@, value));
    } else {
        lemma_distinct_drop_last(s);
        assert(t.drop_last() =~= s.drop_last().update(i, (key, value)));
        assert(key_at(s.drop_last(), i) == key_at(s, i));
        lemma_view_update(s.drop_last(), i, key, value);
        assert(key_at(s, i) != key_at(s, s.len() - 1));
        assert(kv_view(t) =~= kv_view(s).insert(key@, value));
    }
}

proof fn lemma_view_push<V>(s: Seq<(Vec<u8>, V)>, key: Vec<u8>, value: V)
    requires
        distinct_keys(s),
        !has_key(s, key@),
    ensures
        kv_view(s.push((key, value))) == kv_view(s).insert(key@, value),
        distinct_keys(s.push((key, value))),
{
    let t = s.push((key, value));
    assert(t.drop_last() =~= s);
    assert(t.last() == (key, value));
    assert forall|x: int, y: int| 0 <= x < y < t.len() implies #[trigger] key_at(t, x)
        != #[trigger] key_at(t, y) by {
        assert(key_at(t, x) == key_at(s, x));
        if y < t.len() - 1 {
            assert(key_at(t, y) == key_at(s, y));
        } else {
            assert(key_at(t, y) == key@);
        }
    }
}

/// A mapping from byte-string keys to values, with each key bound at most once.
pub struct KeyValueStore<V> {
    entries: Vec<(Vec<u8>, V)>,
}

impl<V> View for KeyValueStore<V> {
    type V = Map<Seq<u8>, V>;

    closed spec fn view(&self) -> Map<Seq<u8>, V> {
        kv_view(self.entries@)
    }
}

/// The two byte strings hold the same bytes.
fn bytes_eq(a: &Vec<u8>, b: &Vec<u8>) -> (r: bool)
    ensures
        r == (a@ == b@),
{
    if a.len() != b.len() {
        return false;
    }
    let mut i: usize = 0;
    while i < a.len()
        invariant
            i <= a@.len(),
            a@.len() == b@.len(),
            forall|j: int| 0 <= j < i ==> a@[j] == b@[j],
        decreases a@.len() - i,
    {
        if a[i] != b[i] {
            return false;
        }
        i += 1;
    }
    proof {
        assert(a@ =~= b@);
    }
    true
}

impl<V> KeyValueStore<V> {
    #[verifier::type_invariant]
    spec fn inv(self) -> bool {
        distinct_keys(self.entries@)
    }

    /// A store holding no entries.
    pub fn new() -> (s: Self)
        ensures
            s@ == Map::<Seq<u8>, V>::empty(),
    {
        KeyValueStore { entries: Vec::new() }
    }

    /// The position of the entry carrying `key`, if one exists.
    fn find_index(&self, key: &Vec<u8>) -> (r: Option<usize>)
        ensures
            match r {
                Some(i) => i < self.entries@.len() && key_at(self.entries@, i as int) == key@
                    && self@.contains_key(key@) && self@[key@] == self.entries@[i as int].1,
                None => !self@.contains_key(key@),
            },
    {
        proof {
            use_type_invariant(&*self);
        }
        let mut i: usize = 0;
        while i < self.entries.len()
            invariant
                i <= self.entries@.len(),
                forall|j: int| 0 <= j < i ==> #[trigger] key_at(self.entries@, j) != key@,
                distinct_keys(self.entries@),
            decreases self.entries@.len() - i,
        {
            if bytes_eq(&self.entries[i].0, key) {
                proof {
                    lemma_view_value(self.entries@, i as int);
                }
                return Some(i);
            }
            i += 1;
        }
        proof {
            lemma_view_contains(self.entries@, key@);
        }
        None
    }

    /// Whether the store binds `key`.
    pub fn contains(&self, key: &Vec<u8>) -> (r: bool)
        ensures
            r == self@.contains_key(key@),
    {
        self.find_index(key).is_some()
    }

    /// The value bound to `key`, if any.
    pub fn get(&self, key: &Vec<u8>) -> (r: Option<&V>)
        ensures
            match r {
                Some(v) => self@.contains_key(key@) && *v == self@[key@],
                None => !self@.contains_key(key@),
            },
    {
        match self.find_index(key) {
            Some(i) => Some(&self.entries[i].1),
            None => None,
        }
    }

    /// Binds `key` to `value`, replacing any earlier binding.
    pub fn insert(&mut self, key: Vec<u8>, value: V)
        ensures
            final(self)@ == old(self)@.insert(key@, value),
    {
        proof {
            use_type_invariant(&*self);
        }
        let r = self.find_index(&key);
        let ghost s = self.entries@;
        let mut entries: Vec<(Vec<u8>, V)> = Vec::new();
        std::mem::swap(&mut entries, &mut self.entries);
        match r {
            Some(i) => {
                proof {
                    lemma_view_update(s, i as int, key, value);
                }
                entries[i] = (key, value);
            },
            None => {
                proof {
                    lemma_view_contains(s, key@);
                    lemma_view_push(s, key, value);
                }
                entries.push((key, value));
            },
        }
        self.entries = entries;
    }
}

} // verus!

//! An ordered map from text to values.

use vstd::prelude::*;
use vstd::utf8::encode_utf8;
use vstd::utf8::encode_utf8_decode_utf8;
use crate::bytes::compare_bytes;
use crate::bytes::lemma_precedes_exclusive;
use crate::bytes::lemma_precedes_transitive;
use crate::bytes::precedes;
use crate::bytes::Placement;
use crate::value::Value;
use crate::value::ValueView;

verus! {

/// The keys of a list of entries, in order.
pub open spec fn entry_keys(entries: Seq<(String, Value)>) -> Seq<Seq<char>> {
    Seq::new(entries.len(), |i: int| entries[i].0@)
}

/// The values of a list of entries, in order.
pub open spec fn entry_values(entries: Seq<(String, Value)>) -> Seq<ValueView> {
    Seq::new(entries.len(), |i: int| entries[i].1@)
}

/// The keys stand in strictly increasing order of their UTF-8 encodings,
/// which is the order of `str`.
pub open spec fn key_order(keys: Seq<Seq<char>>) -> bool {
    forall|i: int, j: int|
        0 <= i < j < keys.len() ==> precedes(
            encode_utf8(#[trigger] keys[i]),
            encode_utf8(#[trigger] keys[j]),
        )
}

/// The map that sends each key to the value at the key's position.
pub open spec fn assoc(keys: Seq<Seq<char>>, values: Seq<ValueView>) -> Map<Seq<char>, ValueView> {
    Map::new(|k: Seq<char>| keys.contains(k), |k: Seq<char>| values[keys.index_of(k)])
}

/// Two texts with the same UTF-8 encoding are the same text.
pub proof fn lemma_encoding_injective(a: Seq<char>, b: Seq<char>)
    requires
        encode_utf8(a) == encode_utf8(b),
    ensures
        a == b,
{
    encode_utf8_decode_utf8(a);
    encode_utf8_decode_utf8(b);
}

/// Keys in strictly increasing order are pairwise distinct.
pub proof fn lemma_keys_distinct(keys: Seq<Seq<char>>)
    requires
        key_order(keys),
    ensures
        keys.no_duplicates(),
{
    assert forall|i: int, j: int|
        0 <= i < keys.len() && 0 <= j < keys.len() && i != j implies keys[i] != keys[j] by {
        if i < j {
            lemma_precedes_exclusive(encode_utf8(keys[i]), encode_utf8(keys[j]));
        } else {
            lemma_precedes_exclusive(encode_utf8(keys[j]), encode_utf8(keys[i]));
        }
    }
}

/// Among distinct keys, each is found at its own position.
pub proof fn lemma_index_of(keys: Seq<Seq<char>>, i: int)
    requires
        keys.no_duplicates(),
        0 <= i < keys.len(),
    ensures
        keys.contains(keys[i]),
        keys.index_of(keys[i]) == i,
{
    let c = keys.index_of(keys[i]);
    assert(0 <= c < keys.len() && keys[c] == keys[i]);
}

/// A new key that sorts after what stands before a position and before what
/// stands from it on can be put there.
pub proof fn lemma_insert_keeps_order(keys: Seq<Seq<char>>, at: int, key: Seq<char>)
    requires
        key_order(keys),
        0 <= at <= keys.len(),
        forall|i: int| 0 <= i < at ==> precedes(encode_utf8(#[trigger] keys[i]), encode_utf8(key)),
        forall|i: int|
            at <= i < keys.len() ==> precedes(encode_utf8(key), encode_utf8(#[trigger] keys[i])),
    ensures
        key_order(keys.insert(at, key)),
{
    let grown = keys.insert(at, key);
    assert forall|i: int, j: int| 0 <= i < j < grown.len() implies precedes(
        encode_utf8(#[trigger] grown[i]),
        encode_utf8(#[trigger] grown[j]),
    ) by {
        if i < at {
            assert(grown[i] == keys[i]);
        } else if i > at {
            assert(grown[i] == keys[i - 1]);
        }
        if j < at {
            assert(grown[j] == keys[j]);
        } else if j > at {
            assert(grown[j] == keys[j - 1]);
        }
    }
}

/// Putting a new key and its value at any position adds one entry to the map.
pub proof fn lemma_assoc_insert(
    keys: Seq<Seq<char>>,
    values: Seq<ValueView>,
    at: int,
    key: Seq<char>,
    value: ValueView,
)
    requires
        keys.len() == values.len(),
        0 <= at <= keys.len(),
        keys.insert(at, key).no_duplicates(),
    ensures
        assoc(keys.insert(at, key), values.insert(at, value)) == assoc(keys, values).insert(
            key,
            value,
        ),
{
    let grown = keys.insert(at, key);
    let grown_values = values.insert(at, value);
    let before = assoc(keys, values);
    let after = assoc(grown, grown_values);
    assert(grown[at] == key);
    assert forall|i: int| 0 <= i < keys.len() implies keys[i] == grown[if i < at {
        i
    } else {
        i + 1
    }] by {}
    assert(keys.no_duplicates());
    assert forall|k: Seq<char>| after.contains_key(k) <==> before.insert(key, value).contains_key(
        k,
    ) by {
        if grown.contains(k) {
            let c = grown.index_of(k);
            if c < at {
                assert(keys[c] == k);
            } else if c > at {
                assert(keys[c - 1] == k);
            }
        }
        if keys.contains(k) {
            let c = keys.index_of(k);
            assert(grown[if c < at {
                c
            } else {
                c + 1
            }] == k);
        }
    }
    assert forall|k: Seq<char>| after.contains_key(k) implies after[k] == before.insert(
        key,
        value,
    )[k] by {
        let c = grown.index_of(k);
        if c == at {
            assert(k == key);
        } else {
            let d = if c < at {
                c
            } else {
                c - 1
            };
            assert(keys[d] == k);
            lemma_index_of(keys, d);
            assert(grown_values[c] == values[d]);
            assert(k != key);
        }
    }
    assert(after =~= before.insert(key, value));
}

/// Putting a new value where a key stands maps that key to the new value.
pub proof fn lemma_assoc_update(
    keys: Seq<Seq<char>>,
    values: Seq<ValueView>,
    at: int,
    value: ValueView,
)
    requires
        keys.len() == values.len(),
        0 <= at < keys.len(),
        keys.no_duplicates(),
    ensures
        assoc(keys, values.update(at, value)) == assoc(keys, values).insert(keys[at], value),
{
    let before = assoc(keys, values);
    let after = assoc(keys, values.update(at, value));
    lemma_index_of(keys, at);
    assert forall|k: Seq<char>| after.contains_key(k) implies after[k] == before.insert(
        keys[at],
        value,
    )[k] by {
        let c = keys.index_of(k);
        assert(keys[c] == k);
    }
    assert(after =~= before.insert(keys[at], value));
}

/// Distinct keys make a finite map with one entry for each.
pub proof fn lemma_assoc_len(keys: Seq<Seq<char>>, values: Seq<ValueView>)
    requires
        keys.no_duplicates(),
    ensures
        assoc(keys, values).dom().finite(),
        assoc(keys, values).len() == keys.len(),
{
    assert(assoc(keys, values).dom() =~= keys.to_set());
    vstd::seq_lib::seq_to_set_is_finite(keys);
    keys.unique_seq_to_set();
}

/// A map from text to values. Its entries are kept in the order of their
/// keys, and no key occurs twice.
#[derive(Debug, PartialEq)]
pub struct TextMap {
    entries: Vec<(String, Value)>,
}

impl View for TextMap {
    type V = Map<Seq<char>, ValueView>;

    closed spec fn view(&self) -> Map<Seq<char>, ValueView> {
        assoc(self.keys(), self.values())
    }
}

impl DeepView for TextMap {
    type V = Map<Seq<char>, ValueView>;

    open spec fn deep_view(&self) -> Map<Seq<char>, ValueView> {
        self@
    }
}

impl TextMap {
    #[verifier::type_invariant]
    spec fn ordered(&self) -> bool {
        key_order(entry_keys(self.entries@))
    }

    /// The keys, in the order in which the map holds them.
    pub closed spec fn keys(&self) -> Seq<Seq<char>> {
        entry_keys(self.entries@)
    }

    /// The values, each at the position of its key.
    pub closed spec fn values(&self) -> Seq<ValueView> {
        entry_values(self.entries@)
    }

    /// The empty map.
    pub fn new() -> (m: TextMap)
        ensures
            m@ == Map::<Seq<char>, ValueView>::empty(),
    {
        let m = TextMap { entries: Vec::new() };
        assert(m@ =~= Map::<Seq<char>, ValueView>::empty());
        m
    }

    /// The number of entries.
    pub fn len(&self) -> (n: usize)
        ensures
            self@.dom().finite(),
            n == self@.len(),
    {
        proof {
            use_type_invariant(self);
            lemma_keys_distinct(self.keys());
            lemma_assoc_len(self.keys(), self.values());
        }
        self.entries.len()
    }

    /// Whether the map has no entry.
    pub fn is_empty(&self) -> (b: bool)
        ensures
            b <==> self@ == Map::<Seq<char>, ValueView>::empty(),
    {
        proof {
            if self.entries@.len() == 0 {
                assert(self@ =~= Map::<Seq<char>, ValueView>::empty());
            } else {
                assert(self.keys()[0] == self.entries@[0].0@);
                assert(self@.contains_key(self.keys()[0]));
            }
        }
        self.entries.len() == 0
    }

    /// Looks `key` up by binary search: whether it is there, and the
    /// position at which it stands or belongs.
    fn locate(&self, key: &str) -> (r: (bool, usize))
        ensures
            key_order(self.keys()),
            r.1 <= self.keys().len(),
            r.0 ==> r.1 < self.keys().len() && self.keys()[r.1 as int] == key@,
            !r.0 ==> !self.keys().contains(key@),
            forall|i: int|
                0 <= i < r.1 ==> precedes(encode_utf8(#[trigger] self.keys()[i]), encode_utf8(key@)),
            forall|i: int|
                r.1 <= i < self.keys().len() && !(r.0 && i == r.1) ==> precedes(
                    encode_utf8(key@),
                    encode_utf8(#[trigger] self.keys()[i]),
                ),
    {
        proof {
            use_type_invariant(self);
        }
        let ghost keys = entry_keys(self.entries@);
        let needle = key.as_bytes();
        let mut lo: usize = 0;
        let mut hi: usize = self.entries.len();
        while lo < hi
            invariant
                lo <= hi <= self.entries@.len(),
                keys == entry_keys(self.entries@),
                needle@ == encode_utf8(key@),
                key_order(keys),
                forall|i: int| 0 <= i < lo ==> precedes(encode_utf8(#[trigger] keys[i]), needle@),
                forall|i: int|
                    hi <= i < keys.len() ==> precedes(needle@, encode_utf8(#[trigger] keys[i])),
            decreases hi - lo,
        {
            let mid = lo + (hi - lo) / 2;
            let probe = self.entries[mid].0.as_str().as_bytes();
            assert(probe@ == encode_utf8(keys[mid as int]));
            match compare_bytes(probe, needle) {
                Placement::Before => {
                    proof {
                        assert forall|i: int| 0 <= i < mid + 1 implies precedes(
                            encode_utf8(#[trigger] keys[i]),
                            needle@,
                        ) by {
                            if i < mid {
                                lemma_precedes_transitive(
                                    encode_utf8(keys[i]),
                                    encode_utf8(keys[mid as int]),
                                    needle@,
                                );
                            }
                        }
                    }
                    lo = mid + 1;
                },
                Placement::Same => {
                    proof {
                        lemma_encoding_injective(keys[mid as int], key@);
                    }
                    return (true, mid);
                },
                Placement::After => {
                    proof {
                        assert forall|i: int| mid <= i < keys.len() implies precedes(
                            needle@,
                            encode_utf8(#[trigger] keys[i]),
                        ) by {
                            if mid < i {
                                lemma_precedes_transitive(
                                    needle@,
                                    encode_utf8(keys[mid as int]),
                                    encode_utf8(keys[i]),
                                );
                            }
                        }
                    }
                    hi = mid;
                },
            }
        }
        proof {
            assert forall|i: int| 0 <= i < keys.len() implies keys[i] != key@ by {
                if i < lo {
                    lemma_precedes_exclusive(encode_utf8(keys[i]), needle@);
                } else {
                    lemma_precedes_exclusive(needle@, encode_utf8(keys[i]));
                }
            }
        }
        (false, lo)
    }

    /// Whether the map has an entry for `key`.
    pub fn contains_key(&self, key: &str) -> (b: bool)
        ensures
            b == self@.contains_key(key@),
    {
        let (found, at) = self.locate(key);
        found
    }

    /// The value that `key` maps to, if any.
    pub fn get(&self, key: &str) -> (r: Option<&Value>)
        ensures
            match r {
                Some(v) => self@.contains_key(key@) && v@ == self@[key@],
                None => !self@.contains_key(key@),
            },
    {
        let (found, at) = self.locate(key);
        if found {
            proof {
                lemma_keys_distinct(self.keys());
                lemma_index_of(self.keys(), at as int);
            }
            Some(&self.entries[at].1)
        } else {
            None
        }
    }

    /// The entry at a position in key order, if the map has that many.
    pub fn entry_at(&self, index: usize) -> (r: Option<(&str, &Value)>)
        ensures
            key_order(self.keys()),
            self.keys().to_set() == self@.dom(),
            match r {
                Some(entry) => index < self.keys().len() && entry.0@ == self.keys()[index as int]
                    && entry.1@ == self@[entry.0@],
                None => index >= self.keys().len(),
            },
    {
        proof {
            use_type_invariant(self);
            assert(self.keys().to_set() =~= self@.dom());
        }
        if index < self.entries.len() {
            proof {
                lemma_keys_distinct(self.keys());
                lemma_index_of(self.keys(), index as int);
            }
            Some((self.entries[index].0.as_str(), &self.entries[index].1))
        } else {
            None
        }
    }

    /// Maps `key` to `value`. An entry that the map had for `key` is
    /// replaced, and its value is returned.
    pub fn insert(&mut self, key: String, value: Value) -> (previous: Option<Value>)
        ensures
            final(self)@ == old(self)@.insert(key@, value@),
            match previous {
                Some(p) => old(self)@.contains_key(key@) && p@ == old(self)@[key@],
                None => !old(self)@.contains_key(key@),
            },
    {
        let (found, at) = self.locate(key.as_str());
        let ghost keys = self.keys();
        let ghost values = self.values();
        let ghost k = key@;
        let ghost v = value@;
        proof {
            lemma_keys_distinct(keys);
        }
        // The entries are worked on outside the map and put back in order.
        let mut entries: Vec<(String, Value)> = Vec::new();
        core::mem::swap(&mut self.entries, &mut entries);
        let previous = if found {
            proof {
                lemma_index_of(keys, at as int);
                lemma_assoc_update(keys, values, at as int, v);
            }
            let replaced = replace_entry(&mut entries, at, key, value);
            proof {
                assert(entry_keys(entries@) =~= keys);
                assert(entry_values(entries@) =~= values.update(at as int, v));
            }
            Some(replaced)
        } else {
            proof {
                lemma_insert_keeps_order(keys, at as int, k);
                lemma_keys_distinct(keys.insert(at as int, k));
                lemma_assoc_insert(keys, values, at as int, k, v);
            }
            entries.insert(at, (key, value));
            proof {
                assert(entry_keys(entries@) =~= keys.insert(at as int, k));
                assert(entry_values(entries@) =~= values.insert(at as int, v));
            }
            None
        };
        core::mem::swap(&mut self.entries, &mut entries);
        previous
    }

    /// The entries, in key order.
    pub fn into_entries(self) -> (entries: Vec<(String, Value)>)
        ensures
            entry_keys(entries@) == self.keys(),
            entry_values(entries@) == self.values(),
            key_order(self.keys()),
            self@ == assoc(self.keys(), self.values()),
    {
        proof {
            use_type_invariant(&self);
        }
        self.entries
    }
}

impl Clone for TextMap {
    /// A deep copy: the same keys with copies of their values.
    fn clone(&self) -> (copy: TextMap)
        ensures
            copy@ == self@,
            copy.keys() == self.keys(),
    {
        proof {
            use_type_invariant(self);
        }
        let mut entries: Vec<(String, Value)> = Vec::new();
        let mut i: usize = 0;
        while i < self.entries.len()
            invariant
                i <= self.entries@.len(),
                entries@.len() == i,
                forall|k: int|
                    0 <= k < i ==> entries@[k].0@ == self.entries@[k].0@ && entries@[k].1@
                        == self.entries@[k].1@,
            decreases self.entries@.len() - i,
        {
            let key = self.entries[i].0.clone();
            let value = self.entries[i].1.clone();
            entries.push((key, value));
            i += 1;
        }
        proof {
            assert(entry_keys(entries@) =~= entry_keys(self.entries@));
            assert(entry_values(entries@) =~= entry_values(self.entries@));
        }
        TextMap { entries }
    }
}

/// Puts a new entry in the place of the one at `at` and hands the old
/// value back.
fn replace_entry(entries: &mut Vec<(String, Value)>, at: usize, key: String, value: Value) -> (previous:
    Value)
    requires
        at < old(entries)@.len(),
    ensures
        final(entries)@ == old(entries)@.update(at as int, (key, value)),
        previous == old(entries)@[at as int].1,
{
    entries.push((key, value));
    let replaced = entries.swap_remove(at);
    assert(entries@ =~= old(entries)@.update(at as int, (key, value)));
    replaced.1
}

} // verus!

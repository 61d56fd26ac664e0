//! A map from strings to values that keeps its entries in the order of their keys.
use vstd::prelude::*;

use crate::text::{self, before};

verus! {

/// What the entries of a map hold under `key`.
pub open spec fn lookup<T>(entries: Seq<(Seq<char>, T)>, key: Seq<char>) -> Option<T>
    decreases entries.len(),
{
    if entries.len() == 0 {
        None
    } else if entries[0].0 == key {
        Some(entries[0].1)
    } else {
        lookup(entries.drop_first(), key)
    }
}

/// The entries after `value` has been put under `key`: in place of what stood there, or
/// else before the first larger key.
pub open spec fn put<T>(entries: Seq<(Seq<char>, T)>, key: Seq<char>, value: T) -> Seq<
    (Seq<char>, T),
>
    decreases entries.len(),
{
    if entries.len() == 0 {
        seq![(key, value)]
    } else if entries[0].0 == key {
        seq![(key, value)] + entries.drop_first()
    } else if before(key, entries[0].0) {
        seq![(key, value)] + entries
    } else {
        seq![entries[0]] + put(entries.drop_first(), key, value)
    }
}

/// Whether the keys of the entries increase from each entry to the next.
pub open spec fn ordered<T>(entries: Seq<(Seq<char>, T)>) -> bool {
    forall|i: int, j: int|
        0 <= i < j < entries.len() ==> before((#[trigger] entries[i]).0, (#[trigger] entries[j]).0)
}

proof fn lemma_ordered_rest<T>(entries: Seq<(Seq<char>, T)>)
    requires
        ordered(entries),
        entries.len() > 0,
    ensures
        ordered(entries.drop_first()),
{
    let rest = entries.drop_first();
    assert forall|i: int, j: int| 0 <= i < j < rest.len() implies before(
        (#[trigger] rest[i]).0,
        (#[trigger] rest[j]).0,
    ) by {
        assert(rest[i] == entries[i + 1] && rest[j] == entries[j + 1]);
    }
}

/// Every entry of `put(entries, key, value)` is the new one or one of `entries`.
proof fn lemma_put_entries<T>(entries: Seq<(Seq<char>, T)>, key: Seq<char>, value: T, i: int)
    requires
        0 <= i < put(entries, key, value).len(),
    ensures
        put(entries, key, value)[i].0 == key || entries.contains(put(entries, key, value)[i]),
    decreases entries.len(),
{
    let out = put(entries, key, value);
    if entries.len() == 0 || i == 0 {
        if entries.len() > 0 {
            assert(entries.contains(entries[0]));
        }
    } else {
        let rest = entries.drop_first();
        if entries[0].0 == key {
            assert(out[i] == rest[i - 1] && rest[i - 1] == entries[i]);
        } else if before(key, entries[0].0) {
            assert(out[i] == entries[i - 1]);
        } else {
            lemma_put_entries(rest, key, value, i - 1);
            assert(out[i] == put(rest, key, value)[i - 1]);
            if out[i].0 != key {
                let j = choose|j: int| 0 <= j < rest.len() && rest[j] == out[i];
                assert(entries[j + 1] == out[i]);
            }
        }
    }
}

/// Putting a value keeps the entries in order.
pub proof fn lemma_put_ordered<T>(entries: Seq<(Seq<char>, T)>, key: Seq<char>, value: T)
    requires
        ordered(entries),
    ensures
        ordered(put(entries, key, value)),
    decreases entries.len(),
{
    let out = put(entries, key, value);
    if entries.len() > 0 {
        let rest = entries.drop_first();
        lemma_ordered_rest(entries);
        assert forall|i: int, j: int| 0 <= i < j < out.len() implies before(
            (#[trigger] out[i]).0,
            (#[trigger] out[j]).0,
        ) by {
            if entries[0].0 == key {
                assert(out[j] == rest[j - 1] && rest[j - 1] == entries[j]);
                if i > 0 {
                    assert(out[i] == rest[i - 1] && rest[i - 1] == entries[i]);
                }
                assert(before(entries[i].0, entries[j].0));
            } else if before(key, entries[0].0) {
                assert(out[j] == entries[j - 1]);
                if i > 0 {
                    assert(out[i] == entries[i - 1]);
                } else if j > 1 {
                    assert(before(entries[0].0, entries[j - 1].0));
                    text::lemma_before_transitive(key, entries[0].0, entries[j - 1].0);
                }
            } else {
                lemma_put_ordered(rest, key, value);
                let tail = put(rest, key, value);
                assert(out[j] == tail[j - 1]);
                if i > 0 {
                    assert(out[i] == tail[i - 1]);
                } else {
                    lemma_put_entries(rest, key, value, j - 1);
                    if out[j].0 == key {
                        text::lemma_before_total(entries[0].0, key);
                    } else {
                        let k = choose|k: int| 0 <= k < rest.len() && rest[k] == out[j];
                        assert(entries[k + 1] == out[j]);
                        assert(before(entries[0].0, entries[k + 1].0));
                    }
                }
            }
        }
    }
}

/// What has been put under a key is what is found there, and nothing else has changed.
pub proof fn lemma_lookup_put<T>(
    entries: Seq<(Seq<char>, T)>,
    key: Seq<char>,
    value: T,
    other: Seq<char>,
)
    requires
        ordered(entries),
    ensures
        lookup(put(entries, key, value), other) == (if other == key {
            Some(value)
        } else {
            lookup(entries, other)
        }),
    decreases entries.len(),
{
    let out = put(entries, key, value);
    if entries.len() == 0 {
        assert(out.drop_first() =~= Seq::<(Seq<char>, T)>::empty());
        assert(lookup(out.drop_first(), other) is None);
    } else {
        let rest = entries.drop_first();
        if entries[0].0 == key {
            assert(out.drop_first() =~= rest);
        } else if before(key, entries[0].0) {
            assert(out.drop_first() =~= entries);
        } else {
            lemma_ordered_rest(entries);
            lemma_lookup_put(rest, key, value, other);
            assert(out.drop_first() =~= put(rest, key, value));
        }
    }
}

/// The entry at position `i` is what is found under its key.
pub proof fn lemma_lookup_at<T>(entries: Seq<(Seq<char>, T)>, i: int)
    requires
        ordered(entries),
        0 <= i < entries.len(),
    ensures
        lookup(entries, entries[i].0) == Some(entries[i].1),
    decreases entries.len(),
{
    if i > 0 {
        assert(before(entries[0].0, entries[i].0));
        text::lemma_before_irreflexive(entries[i].0);
        lemma_ordered_rest(entries);
        lemma_lookup_at(entries.drop_first(), i - 1);
        assert(entries.drop_first()[i - 1] == entries[i]);
    }
}

/// A map from strings to values, its entries in the order of their keys.
#[derive(Debug, PartialEq, Eq)]
pub struct StringMap<V> {
    entries: Vec<(String, V)>,
}

impl<V> StringMap<V> {
    /// The keys, in order.
    pub closed spec fn keys(self) -> Seq<Seq<char>> {
        Seq::new(self.entries@.len(), |i: int| self.entries@[i].0@)
    }

    /// The values, in the order of their keys.
    pub closed spec fn values(self) -> Seq<V> {
        Seq::new(self.entries@.len(), |i: int| self.entries@[i].1)
    }
}

/// A map holds its values under its keys.
pub proof fn lemma_keys_and_values<V: DeepView>(map: StringMap<V>)
    ensures
        map@.len() == map.keys().len() == map.values().len(),
        forall|i: int|
            0 <= i < map@.len() ==> #[trigger] map@[i] == (
                map.keys()[i],
                map.values()[i].deep_view(),
            ),
{
}

impl<V: Clone> Clone for StringMap<V> {
    /// A map with the same keys, and under each of them a clone of what stands there.
    fn clone(&self) -> (r: Self)
        ensures
            r.keys() == self.keys(),
            r.values().len() == self.values().len(),
            forall|i: int|
                0 <= i < self.values().len() ==> cloned(
                    self.values()[i],
                    #[trigger] r.values()[i],
                ),
    {
        proof {
            use_type_invariant(self);
        }
        let mut entries: Vec<(String, V)> = Vec::new();
        let mut i: usize = 0;
        while i < self.entries.len()
            invariant
                i == entries.len(),
                i <= self.entries.len(),
                self.keys_in_order(),
                forall|j: int| 0 <= j < i ==> (#[trigger] entries@[j]).0@ == self.entries@[j].0@,
                forall|j: int|
                    0 <= j < i ==> cloned(self.entries@[j].1, (#[trigger] entries@[j]).1),
            decreases self.entries.len() - i,
        {
            entries.push((self.entries[i].0.clone(), self.entries[i].1.clone()));
            i = i + 1;
        }
        assert forall|a: int, b: int| 0 <= a < b < entries@.len() implies before(
            (#[trigger] entries@[a]).0@,
            (#[trigger] entries@[b]).0@,
        ) by {
            assert(before(self.entries@[a].0@, self.entries@[b].0@));
        }
        let r = StringMap { entries };
        assert(r.keys() =~= self.keys());
        r
    }
}

impl<V: DeepView> View for StringMap<V> {
    type V = Seq<(Seq<char>, V::V)>;

    closed spec fn view(&self) -> Seq<(Seq<char>, V::V)> {
        self.entries.deep_view()
    }
}

impl<V: DeepView> DeepView for StringMap<V> {
    type V = Seq<(Seq<char>, V::V)>;

    open spec fn deep_view(&self) -> Seq<(Seq<char>, V::V)> {
        self@
    }
}

impl<V> StringMap<V> {
    /// The keys stand in order.
    #[verifier::type_invariant]
    spec fn keys_in_order(self) -> bool {
        forall|i: int, j: int|
            0 <= i < j < self.entries@.len() ==> before(
                (#[trigger] self.entries@[i]).0@,
                (#[trigger] self.entries@[j]).0@,
            )
    }

    /// A map without entries.
    pub fn new() -> (r: Self) where V: DeepView
        ensures
            r@ == Seq::<(Seq<char>, V::V)>::empty(),
    {
        let r = StringMap { entries: Vec::new() };
        assert(r@ =~= Seq::<(Seq<char>, V::V)>::empty());
        r
    }

    pub fn len(&self) -> (r: usize) where V: DeepView
        ensures
            r == self@.len(),
            ordered(self@),
    {
        proof {
            use_type_invariant(self);
            assert(ordered(self@));
        }
        self.entries.len()
    }

    pub fn is_empty(&self) -> (r: bool) where V: DeepView
        ensures
            r == (self@.len() == 0),
    {
        self.entries.len() == 0
    }

    /// The key at position `i` in the order of the keys.
    pub fn key_at(&self, i: usize) -> (r: &String) where V: DeepView
        requires
            i < self@.len(),
        ensures
            r@ == self@[i as int].0,
    {
        &self.entries[i].0
    }

    /// The value at position `i` in the order of the keys.
    pub fn value_at(&self, i: usize) -> (r: &V) where V: DeepView
        requires
            i < self@.len(),
        ensures
            r.deep_view() == self@[i as int].1,
    {
        &self.entries[i].1
    }

    /// What stands under `key`.
    pub fn get(&self, key: &str) -> (r: Option<&V>) where V: DeepView
        ensures
            match r {
                Some(v) => lookup(self@, key@) == Some(v.deep_view()),
                None => lookup(self@, key@) is None,
            },
            ordered(self@),
    {
        proof {
            use_type_invariant(self);
            assert(ordered(self@));
        }
        let ghost all = self@;
        let mut i: usize = 0;
        assert(all.skip(0) =~= all);
        while i < self.entries.len()
            invariant
                i <= self.entries.len(),
                all == self@,
                ordered(self@),
                all.len() == self.entries.len(),
                lookup(all, key@) == lookup(all.skip(i as int), key@),
            decreases self.entries.len() - i,
        {
            assert(all.skip(i as int)[0] == all[i as int]);
            if text::same(self.entries[i].0.as_str(), key) {
                return Some(&self.entries[i].1);
            }
            i = i + 1;
            assert(all.skip(i - 1).drop_first() =~= all.skip(i as int));
        }
        None
    }

    /// The position of `key` in the order of the keys.
    pub fn position(&self, key: &str) -> (r: Option<usize>) where V: DeepView
        ensures
            match r {
                Some(i) => i < self@.len() && self@[i as int].0 == key@,
                None => forall|i: int| 0 <= i < self@.len() ==> (#[trigger] self@[i]).0 != key@,
            },
            ordered(self@),
    {
        proof {
            use_type_invariant(self);
            assert(ordered(self@));
        }
        let mut i: usize = 0;
        while i < self.entries.len()
            invariant
                i <= self.entries.len() == self@.len(),
                ordered(self@),
                forall|j: int| 0 <= j < i ==> (#[trigger] self@[j]).0 != key@,
            decreases self.entries.len() - i,
        {
            assert(self@[i as int].0 == self.entries@[i as int].0@);
            if text::same(self.entries[i].0.as_str(), key) {
                return Some(i);
            }
            i = i + 1;
        }
        None
    }

    /// Puts `value` under `key`, in place of what stood there.
    pub fn insert(&mut self, key: String, value: V) where V: DeepView
        ensures
            final(self)@ == put(old(self)@, key@, value.deep_view()),
            ordered(old(self)@),
            ordered(final(self)@),
    {
        proof {
            use_type_invariant(&*self);
            assert(ordered(self@));
            lemma_put_ordered(self@, key@, value.deep_view());
        }
        let ghost all = self@;
        let ghost k = key@;
        let ghost v = value.deep_view();
        let mut entries: Vec<(String, V)> = Vec::new();
        std::mem::swap(&mut entries, &mut self.entries);
        let mut i: usize = 0;
        assert(all.skip(0) =~= all);
        assert(all.take(0) + put(all, k, v) =~= put(all, k, v));
        while i < entries.len() && text::precedes(entries[i].0.as_str(), key.as_str())
            invariant
                i <= entries.len(),
                entries.deep_view() == all,
                k == key@,
                put(all, k, v) == all.take(i as int) + put(all.skip(i as int), k, v),
            decreases entries.len() - i,
        {
            let ghost rest = all.skip(i as int);
            assert(rest[0] == all[i as int]);
            assert(all[i as int].0 == entries@[i as int].0@);
            proof {
                text::lemma_before_irreflexive(k);
                if before(k, rest[0].0) {
                    text::lemma_before_transitive(k, rest[0].0, k);
                }
            }
            i = i + 1;
            assert(rest.drop_first() =~= all.skip(i as int));
            assert(all.take(i - 1) + (seq![rest[0]] + put(all.skip(i as int), k, v)) =~= all.take(
                i as int,
            ) + put(all.skip(i as int), k, v));
        }
        let ghost rest = all.skip(i as int);
        assert(rest.len() > 0 ==> rest[0] == all[i as int] && rest[0].0 == entries@[i as int].0@);
        if i < entries.len() && text::same(entries[i].0.as_str(), key.as_str()) {
            entries.set(i, (key, value));
            assert(entries.deep_view() =~= all.take(i as int) + put(rest, k, v));
        } else {
            proof {
                if rest.len() > 0 {
                    text::lemma_before_total(k, rest[0].0);
                }
            }
            entries.insert(i, (key, value));
            assert(entries.deep_view() =~= all.take(i as int) + put(rest, k, v));
        }
        proof {
            assert forall|a: int, b: int| 0 <= a < b < entries@.len() implies before(
                (#[trigger] entries@[a]).0@,
                (#[trigger] entries@[b]).0@,
            ) by {
                let d = entries.deep_view();
                assert(d == put(all, k, v));
                assert(d[a].0 == entries@[a].0@ && d[b].0 == entries@[b].0@);
            }
        }
        self.entries = entries;
    }
}

} // verus!

//! An ordered mapping from keys to values that remembers where each key
//! was written. Keys are kept in an `indexmap::IndexMap`, which finds a key
//! in constant time and walks the keys in the order they were added.

use crate::span::SourceSpan;
use indexmap::IndexMap;
use vstd::prelude::*;

verus! {

/// `indexmap::IndexMap`, a hash map that keeps insertion order.
#[verifier::external_type_specification]
#[verifier::external_body]
#[verifier::reject_recursive_types(K)]
#[verifier::reject_recursive_types(V)]
#[verifier::reject_recursive_types(S)]
pub struct ExIndexMap<K, V, S>(IndexMap<K, V, S>);

/// The keys of an index with the span stored for each, in order.
pub uninterp spec fn index_entries(index: IndexMap<String, SourceSpan>) -> Seq<(Seq<char>, SourceSpan)>;

/// Whether `key` is the key of some entry.
pub open spec fn has_key(entries: Seq<(Seq<char>, SourceSpan)>, key: Seq<char>) -> bool {
    exists|i: int| 0 <= i < entries.len() && (#[trigger] entries[i]).0 == key
}

/// Calls `IndexMap::new`, which makes an empty map.
#[verifier::external_body]
fn index_new() -> (index: IndexMap<String, SourceSpan>)
    ensures
        index_entries(index) == Seq::<(Seq<char>, SourceSpan)>::empty(),
{
    IndexMap::new()
}

/// Calls `IndexMap::insert`. Where the key is already there its entry keeps
/// its place and takes the new span, and the old span is returned; else the
/// entry is added last and nothing is returned.
#[verifier::external_body]
fn index_insert(index: &mut IndexMap<String, SourceSpan>, key: String, span: SourceSpan) -> (previous: Option<SourceSpan>)
    ensures
        previous is Some <==> has_key(index_entries(*old(index)), key@),
        previous is Some ==> exists|i: int|
            0 <= i < index_entries(*old(index)).len()
            && (#[trigger] index_entries(*old(index))[i]) == (key@, previous.unwrap())
            && index_entries(*final(index)) == index_entries(*old(index)).update(i, (key@, span)),
        previous is None ==> index_entries(*final(index)) == index_entries(*old(index)).push((key@, span)),
{
    index.insert(key, span)
}

/// Calls `IndexMap::get_full`: the position and span of the entry with
/// this key, or nothing where no entry has it.
#[verifier::external_body]
fn index_find(index: &IndexMap<String, SourceSpan>, key: &str) -> (found: Option<(usize, SourceSpan)>)
    ensures
        found is Some <==> has_key(index_entries(*index), key@),
        found matches Some((i, span)) ==> i < index_entries(*index).len()
            && index_entries(*index)[i as int] == (key@, span),
{
    index.get_full(key).map(|(i, _, span)| (i, *span))
}

/// Calls `IndexMap::get_index`: the entry at a position, or nothing past
/// the end.
#[verifier::external_body]
fn index_at(index: &IndexMap<String, SourceSpan>, i: usize) -> (entry: Option<(&String, SourceSpan)>)
    ensures
        entry is Some <==> i < index_entries(*index).len(),
        entry matches Some((key, span)) ==> index_entries(*index)[i as int] == (key@, span),
{
    index.get_index(i).map(|(key, span)| (key, *span))
}

/// One entry of a mapping: the key, where it was written, and its value.
pub struct Binding<V> {
    pub key: Seq<char>,
    pub span: SourceSpan,
    pub value: V,
}

/// Whether no key occurs twice.
pub open spec fn keys_distinct<V>(entries: Seq<Binding<V>>) -> bool {
    forall|i: int, j: int|
        0 <= i < j < entries.len() ==> (#[trigger] entries[i]).key != (#[trigger] entries[j]).key
}

/// Whether some entry has this key.
pub open spec fn binds<V>(entries: Seq<Binding<V>>, key: Seq<char>) -> bool {
    exists|i: int| 0 <= i < entries.len() && (#[trigger] entries[i]).key == key
}

/// The position of an entry with this key; meaningful where one exists.
pub open spec fn position<V>(entries: Seq<Binding<V>>, key: Seq<char>) -> int {
    choose|i: int| 0 <= i < entries.len() && (#[trigger] entries[i]).key == key
}

/// The entry with this key, if there is one.
pub open spec fn lookup<V>(entries: Seq<Binding<V>>, key: Seq<char>) -> Option<Binding<V>> {
    if binds(entries, key) {
        Some(entries[position(entries, key)])
    } else {
        None
    }
}

/// The entries after `key` is bound to `value`: an entry that has the key
/// keeps its place and is overwritten, else the new entry comes last.
pub open spec fn bound<V>(entries: Seq<Binding<V>>, key: Seq<char>, span: SourceSpan, value: V) -> Seq<
    Binding<V>,
> {
    if binds(entries, key) {
        entries.update(position(entries, key), Binding { key, span, value })
    } else {
        entries.push(Binding { key, span, value })
    }
}

/// The entries after each of `items` is bound in turn, starting from
/// nothing.
pub open spec fn bound_all<V>(items: Seq<Binding<V>>) -> Seq<Binding<V>>
    decreases items.len(),
{
    if items.len() == 0 {
        Seq::empty()
    } else {
        bound(bound_all(items.drop_last()), items.last().key, items.last().span, items.last().value)
    }
}

/// Whether the span of every entry lies inside a text of `len` bytes.
pub open spec fn spans_fit<V>(entries: Seq<Binding<V>>, len: nat) -> bool {
    forall|i: int| 0 <= i < entries.len() ==> (#[trigger] entries[i]).span.fits(len)
}

/// Binding entries whose spans lie inside a text gives entries whose
/// spans lie inside it.
pub proof fn lemma_bound_all_fits<V>(items: Seq<Binding<V>>, len: nat)
    requires
        spans_fit(items, len),
    ensures
        spans_fit(bound_all(items), len),
    decreases items.len(),
{
    if items.len() > 0 {
        let front = items.drop_last();
        let last = items.last();
        assert forall|i: int| 0 <= i < front.len() implies (#[trigger] front[i]).span.fits(len) by {
            assert(front[i] == items[i]);
        }
        lemma_bound_all_fits(front, len);
        let before = bound_all(front);
        let after = bound_all(items);
        assert(last == items[items.len() - 1]);
        assert forall|i: int| 0 <= i < after.len() implies (#[trigger] after[i]).span.fits(len) by {
            if binds(before, last.key) {
                if i != position(before, last.key) {
                    assert(after[i] == before[i]);
                }
            } else {
                if i < before.len() {
                    assert(after[i] == before[i]);
                }
            }
        }
    }
}

/// With distinct keys, an entry is found at its own position.
pub proof fn lemma_position_unique<V>(entries: Seq<Binding<V>>, i: int)
    requires
        keys_distinct(entries),
        0 <= i < entries.len(),
    ensures
        binds(entries, entries[i].key),
        position(entries, entries[i].key) == i,
        lookup(entries, entries[i].key) == Some(entries[i]),
{
    let key = entries[i].key;
    let p = position(entries, key);
    assert(0 <= p < entries.len() && entries[p].key == key);
    if p < i {
        assert(entries[p].key != entries[i].key);
    } else if i < p {
        assert(entries[i].key != entries[p].key);
    }
}

/// Binding a key keeps the keys distinct.
pub proof fn lemma_bound_distinct<V>(entries: Seq<Binding<V>>, key: Seq<char>, span: SourceSpan, value: V)
    requires
        keys_distinct(entries),
    ensures
        keys_distinct(bound(entries, key, span, value)),
{
    let after = bound(entries, key, span, value);
    if binds(entries, key) {
        let p = position(entries, key);
        assert forall|i: int, j: int| 0 <= i < j < after.len() implies (#[trigger] after[i]).key != (
        #[trigger] after[j]).key by {
            assert(after[i].key == entries[i].key);
            assert(after[j].key == entries[j].key);
        }
    } else {
        assert forall|i: int, j: int| 0 <= i < j < after.len() implies (#[trigger] after[i]).key != (
        #[trigger] after[j]).key by {
            if j < entries.len() {
                assert(after[i] == entries[i]);
                assert(after[j] == entries[j]);
            } else {
                assert(after[i] == entries[i]);
                assert(after[j].key == key);
            }
        }
    }
}

/// An ordered mapping from keys to values in which no key occurs twice.
/// Each key carries the span at which it was written.
#[derive(Debug)]
pub struct SpannedMap<V> {
    index: IndexMap<String, SourceSpan>,
    values: Vec<V>,
}

impl<V> SpannedMap<V> {
    #[verifier::type_invariant]
    closed spec fn inv(self) -> bool {
        &&& index_entries(self.index).len() == self.values.len()
        &&& forall|i: int, j: int|
            0 <= i < j < index_entries(self.index).len() ==> (#[trigger] index_entries(self.index)[i]).0 != (
            #[trigger] index_entries(self.index)[j]).0
    }

    /// The entries as they are stored, in the order in which their keys
    /// were first bound.
    pub closed spec fn entries(self) -> Seq<Binding<V>> {
        Seq::new(
            self.values.len() as nat,
            |i: int|
                Binding {
                    key: index_entries(self.index)[i].0,
                    span: index_entries(self.index)[i].1,
                    value: self.values[i],
                },
        )
    }

    /// An empty mapping.
    fn empty_stored() -> (map: SpannedMap<V>)
        ensures
            map.entries() == Seq::<Binding<V>>::empty(),
    {
        let map = SpannedMap { index: index_new(), values: Vec::new() };
        assert(map.entries() =~= Seq::<Binding<V>>::empty());
        map
    }

    /// The number of entries.
    fn stored_len(&self) -> (n: usize)
        ensures
            n == self.entries().len(),
            keys_distinct(self.entries()),
    {
        proof {
            use_type_invariant(self);
            self.lemma_distinct();
        }
        self.values.len()
    }

    /// Binds `key`, written at `span`, to `value`. A key that is already
    /// bound keeps its place and takes the new span and value.
    fn put_stored(self, key: String, span: SourceSpan, value: V) -> (map: SpannedMap<V>)
        ensures
            map.entries() == bound(self.entries(), key@, span, value),
            keys_distinct(map.entries()),
    {
        proof {
            use_type_invariant(&self);
            self.lemma_distinct();
        }
        let ghost before = self.entries();
        let ghost keys = index_entries(self.index);
        let SpannedMap { mut index, mut values } = self;
        let found = index_find(&index, key.as_str());
        let previous = index_insert(&mut index, key, span);
        match found {
            Some((i, _)) => {
                proof {
                    let w = choose|w: int|
                        0 <= w < keys.len() && (#[trigger] keys[w]) == (key@, previous.unwrap())
                            && index_entries(index) == keys.update(w, (key@, span));
                    if w != i {
                        if w < i {
                            assert(keys[w].0 != keys[i as int].0);
                        } else {
                            assert(keys[i as int].0 != keys[w].0);
                        }
                    }
                    assert(before[i as int].key == key@);
                    lemma_position_unique(before, i as int);
                }
                values.set(i, value);
                let map = SpannedMap { index, values };
                assert(map.entries() =~= bound(before, key@, span, value));
                proof {
                    lemma_bound_distinct(before, key@, span, value);
                }
                map
            },
            None => {
                proof {
                    if binds(before, key@) {
                        let p = position(before, key@);
                        assert(keys[p].0 == key@);
                    }
                    assert forall|a: int, b: int| 0 <= a < b < keys.push((key@, span)).len() implies (
                    #[trigger] keys.push((key@, span))[a]).0 != (#[trigger] keys.push((key@, span))[b]).0 by {
                        if b < keys.len() {
                            assert(keys[a].0 != keys[b].0);
                        } else {
                            assert(keys.push((key@, span))[a] == keys[a]);
                        }
                    }
                }
                values.push(value);
                let map = SpannedMap { index, values };
                assert(map.entries() =~= bound(before, key@, span, value));
                proof {
                    lemma_bound_distinct(before, key@, span, value);
                }
                map
            },
        }
    }

    /// The span and value bound to `key`, if it is bound.
    fn find_stored(&self, key: &str) -> (found: Option<(SourceSpan, &V)>)
        ensures
            found is Some <==> binds(self.entries(), key@),
            found matches Some((span, value)) ==> lookup(self.entries(), key@) == Some(
                Binding { key: key@, span, value: *value },
            ),
            found is None ==> lookup(self.entries(), key@) is None,
    {
        proof {
            use_type_invariant(self);
            self.lemma_distinct();
        }
        match index_find(&self.index, key) {
            Some((i, span)) => {
                proof {
                    assert(self.entries()[i as int].key == key@);
                    lemma_position_unique(self.entries(), i as int);
                }
                Some((span, &self.values[i]))
            },
            None => {
                proof {
                    if binds(self.entries(), key@) {
                        let p = position(self.entries(), key@);
                        assert(index_entries(self.index)[p].0 == key@);
                    }
                }
                None
            },
        }
    }

    /// The entry at position `i`, or nothing past the end.
    fn stored_at(&self, i: usize) -> (entry: Option<(&String, SourceSpan, &V)>)
        ensures
            entry is Some <==> i < self.entries().len(),
            entry matches Some((key, span, value)) ==> self.entries()[i as int] == (Binding {
                key: key@,
                span,
                value: *value,
            }),
    {
        proof {
            use_type_invariant(self);
        }
        match index_at(&self.index, i) {
            Some((key, span)) => Some((key, span, &self.values[i])),
            None => None,
        }
    }

    /// Puts `value` in place of the value at position `i`; the key and its
    /// span stay.
    fn replace_stored(self, i: usize, value: V) -> (map: SpannedMap<V>)
        requires
            i < self.entries().len(),
        ensures
            map.entries() == self.entries().update(
                i as int,
                Binding { key: self.entries()[i as int].key, span: self.entries()[i as int].span, value },
            ),
            keys_distinct(map.entries()),
    {
        proof {
            use_type_invariant(&self);
        }
        let ghost before = self.entries();
        let SpannedMap { index, mut values } = self;
        values.set(i, value);
        let map = SpannedMap { index, values };
        assert(map.entries() =~= before.update(
            i as int,
            Binding { key: before[i as int].key, span: before[i as int].span, value },
        ));
        proof {
            map.lemma_distinct();
        }
        map
    }

    proof fn lemma_distinct(self)
        requires
            self.inv(),
        ensures
            keys_distinct(self.entries()),
    {
        assert forall|i: int, j: int| 0 <= i < j < self.entries().len() implies (
        #[trigger] self.entries()[i]).key != (#[trigger] self.entries()[j]).key by {
            assert(index_entries(self.index)[i].0 != index_entries(self.index)[j].0);
        }
    }
}

impl<V: DeepView> SpannedMap<V> {
    /// The model has the keys and spans of the entries, in their order.
    pub proof fn lemma_model(self)
        requires
            keys_distinct(self.entries()),
        ensures
            keys_distinct(self.deep_view()),
            self.deep_view().len() == self.entries().len(),
            forall|key: Seq<char>| binds(self.deep_view(), key) == binds(self.entries(), key),
            forall|key: Seq<char>| #[trigger]
                binds(self.entries(), key) ==> position(self.deep_view(), key) == position(self.entries(), key),
    {
        let model = self.deep_view();
        let entries = self.entries();
        assert forall|i: int, j: int| 0 <= i < j < model.len() implies (#[trigger] model[i]).key != (
        #[trigger] model[j]).key by {
            assert(entries[i].key != entries[j].key);
        }
        assert forall|key: Seq<char>| binds(model, key) == binds(entries, key) by {
            if binds(model, key) {
                let p = position(model, key);
                assert(entries[p].key == key);
            }
            if binds(entries, key) {
                let p = position(entries, key);
                assert(model[p].key == key);
            }
        }
        assert forall|key: Seq<char>| #[trigger] binds(entries, key) implies position(model, key) == position(
            entries,
            key,
        ) by {
            let p = position(entries, key);
            assert(model[p].key == key);
            lemma_position_unique(model, p);
        }
    }

    /// An empty mapping.
    pub fn new() -> (map: SpannedMap<V>)
        ensures
            map.deep_view() == Seq::<Binding<V::V>>::empty(),
    {
        let map = Self::empty_stored();
        assert(map.deep_view() =~= Seq::<Binding<V::V>>::empty());
        map
    }

    /// Binds `key`, written at `span`, to `value`. A key that is already
    /// bound keeps its place and takes the new span and value.
    pub fn insert(self, key: String, span: SourceSpan, value: V) -> (map: SpannedMap<V>)
        ensures
            map.deep_view() == bound(self.deep_view(), key@, span, value.deep_view()),
            keys_distinct(map.deep_view()),
    {
        let n = self.stored_len();
        proof {
            self.lemma_model();
        }
        let ghost before = self;
        let map = self.put_stored(key, span, value);
        proof {
            map.lemma_model();
            assert(map.deep_view() =~= bound(before.deep_view(), key@, span, value.deep_view()));
        }
        map
    }

    /// The span and value bound to `key`, if it is bound.
    pub fn get_key_value(&self, key: &str) -> (found: Option<(SourceSpan, &V)>)
        ensures
            keys_distinct(self.deep_view()),
            match found {
                Some((span, value)) => lookup(self.deep_view(), key@) == Some(
                    Binding { key: key@, span, value: value.deep_view() },
                ),
                None => lookup(self.deep_view(), key@) is None,
            },
    {
        let n = self.stored_len();
        let found = self.find_stored(key);
        proof {
            self.lemma_model();
            if found is Some {
                assert(binds(self.entries(), key@));
            }
        }
        found
    }

    /// The entry at position `i`, or nothing past the end.
    pub fn get_index(&self, i: usize) -> (entry: Option<(&String, SourceSpan, &V)>)
        ensures
            keys_distinct(self.deep_view()),
            entry is Some <==> i < self.deep_view().len(),
            entry matches Some((key, span, value)) ==> self.deep_view()[i as int] == (Binding {
                key: key@,
                span,
                value: value.deep_view(),
            }),
    {
        let n = self.stored_len();
        proof {
            self.lemma_model();
        }
        self.stored_at(i)
    }

    /// Puts `value` in place of the value at position `i`; the key and its
    /// span stay. Past the end nothing changes.
    pub fn replace_value(self, i: usize, value: V) -> (map: SpannedMap<V>)
        ensures
            map.deep_view() == if i < self.deep_view().len() {
                self.deep_view().update(
                    i as int,
                    Binding {
                        key: self.deep_view()[i as int].key,
                        span: self.deep_view()[i as int].span,
                        value: value.deep_view(),
                    },
                )
            } else {
                self.deep_view()
            },
            keys_distinct(map.deep_view()),
    {
        let n = self.stored_len();
        proof {
            self.lemma_model();
        }
        if i < n {
            let ghost before = self;
            let map = self.replace_stored(i, value);
            proof {
                map.lemma_model();
                assert(map.deep_view() =~= before.deep_view().update(
                    i as int,
                    Binding {
                        key: before.deep_view()[i as int].key,
                        span: before.deep_view()[i as int].span,
                        value: value.deep_view(),
                    },
                ));
            }
            map
        } else {
            self
        }
    }

    /// The number of entries.
    pub fn len(&self) -> (n: usize)
        ensures
            n == self.deep_view().len(),
            keys_distinct(self.deep_view()),
    {
        let n = self.stored_len();
        proof {
            self.lemma_model();
        }
        n
    }
}

impl<V: DeepView> DeepView for SpannedMap<V> {
    type V = Seq<Binding<V::V>>;

    open spec fn deep_view(&self) -> Seq<Binding<V::V>> {
        Seq::new(
            self.entries().len(),
            |i: int|
                Binding {
                    key: self.entries()[i].key,
                    span: self.entries()[i].span,
                    value: self.entries()[i].value.deep_view(),
                },
        )
    }
}

} // verus!

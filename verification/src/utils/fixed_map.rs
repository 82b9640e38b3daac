//! The bounded voice table: an insertion-ordered map from a note number to
//! the voice that sounds for it, which refuses to grow past its capacity.

use vstd::prelude::*;
use indexmap::IndexMap;
use crate::process::note::Note;
use crate::OSCILLATOR_AMOUNT;

verus! {

/// The oscillator layers of one voice.
pub type Voice = [Note; OSCILLATOR_AMOUNT];

/// Number of distinct keys; no table ever holds more entries.
pub const KEY_COUNT: usize = 256;

#[verifier::external_type_specification]
#[verifier::external_body]
#[verifier::reject_recursive_types(K)]
#[verifier::reject_recursive_types(V)]
#[verifier::reject_recursive_types(S)]
pub struct ExIndexMap<K, V, S>(IndexMap<K, V, S>);

/// The key-value pairs that an `IndexMap` holds, in its own order: the pair
/// at index `i` of the map is the element `i` of the sequence.
pub uninterp spec fn table_entries(map: IndexMap<u8, Voice>) -> Seq<(u8, Voice)>;

/// Whether some entry has the key `key`.
pub open spec fn has_key(entries: Seq<(u8, Voice)>, key: u8) -> bool {
    exists|i: int| 0 <= i < entries.len() && (#[trigger] entries[i]).0 == key
}

/// No key occurs twice.
pub open spec fn keys_distinct(entries: Seq<(u8, Voice)>) -> bool {
    forall|i: int, j: int|
        0 <= i < j < entries.len() ==> (#[trigger] entries[i]).0 != (#[trigger] entries[j]).0
}

/// The index of the entry with the key `key`.
pub open spec fn index_of(entries: Seq<(u8, Voice)>, key: u8) -> int {
    choose|i: int| 0 <= i < entries.len() && (#[trigger] entries[i]).0 == key
}

/// `IndexMap::with_capacity`: the new map is empty. A capacity beyond what
/// memory can hold is left out; the number of keys is far below it.
#[verifier::external_body]
fn table_with_capacity(n: usize) -> (map: IndexMap<u8, Voice>)
    requires
        n <= KEY_COUNT,
    ensures
        table_entries(map) == Seq::<(u8, Voice)>::empty(),
{
    IndexMap::with_capacity(n)
}

/// `IndexMap::len`: the number of key-value pairs.
#[verifier::external_body]
fn table_len(map: &IndexMap<u8, Voice>) -> (n: usize)
    ensures
        n == table_entries(*map).len(),
{
    map.len()
}

/// `IndexMap::insert`: where the key is in the map, its pair keeps its place,
/// gets the new value, and the old value is returned; where it is not, the
/// new pair is put last and nothing is returned.
#[verifier::external_body]
fn table_insert(map: &mut IndexMap<u8, Voice>, key: u8, value: Voice) -> (previous: Option<Voice>)
    ensures
        match previous {
            Some(v) => exists|i: int|
                {
                    &&& 0 <= i < table_entries(*old(map)).len()
                    &&& (#[trigger] table_entries(*old(map))[i]) == (key, v)
                    &&& table_entries(*final(map)) == table_entries(*old(map)).update(i, (key, value))
                },
            None => {
                &&& !has_key(table_entries(*old(map)), key)
                &&& table_entries(*final(map)) == table_entries(*old(map)).push((key, value))
            },
        },
{
    map.insert(key, value)
}

/// `IndexMap::shift_remove`: where the key is in the map, its pair is taken
/// out, the pairs behind it move up by one in their order, and the value is
/// returned; where it is not, the map stays as it is and nothing is returned.
#[verifier::external_body]
fn table_shift_remove(map: &mut IndexMap<u8, Voice>, key: u8) -> (removed: Option<Voice>)
    ensures
        match removed {
            Some(v) => exists|i: int|
                {
                    &&& 0 <= i < table_entries(*old(map)).len()
                    &&& (#[trigger] table_entries(*old(map))[i]) == (key, v)
                    &&& table_entries(*final(map)) == table_entries(*old(map)).remove(i)
                },
            None => {
                &&& !has_key(table_entries(*old(map)), key)
                &&& table_entries(*final(map)) == table_entries(*old(map))
            },
        },
{
    map.shift_remove(&key)
}

/// `IndexMut<usize>` of `IndexMap`: a mutable reference to the value at
/// `index`; what is written through it is the value of that pair afterwards,
/// and the key and the other pairs stay.
#[verifier::external_body]
fn table_value_mut(map: &mut IndexMap<u8, Voice>, index: usize) -> (value: &mut Voice)
    requires
        index < table_entries(*old(map)).len(),
    ensures
        *value == table_entries(*old(map))[index as int].1,
        table_entries(*final(map)) == table_entries(*old(map)).update(
            index as int,
            (table_entries(*old(map))[index as int].0, *final(value)),
        ),
{
    &mut map[index]
}

/// What `insert` leaves in a table of `capacity`: a full table stays as it
/// is; otherwise the value replaces the one under the same key, or the pair
/// is put last.
pub open spec fn after_insert(
    entries: Seq<(u8, Voice)>,
    capacity: int,
    key: u8,
    value: Voice,
) -> Seq<(u8, Voice)> {
    if entries.len() >= capacity {
        entries
    } else if has_key(entries, key) {
        entries.update(index_of(entries, key), (key, value))
    } else {
        entries.push((key, value))
    }
}

/// What `insert` returns: the value replaced, if one was.
pub open spec fn replaced_by_insert(entries: Seq<(u8, Voice)>, capacity: int, key: u8) -> Option<Voice> {
    if entries.len() < capacity && has_key(entries, key) {
        Some(entries[index_of(entries, key)].1)
    } else {
        None
    }
}

/// What `remove` leaves in a table: the entries without the one under `key`,
/// in the order that they had.
pub open spec fn after_remove(entries: Seq<(u8, Voice)>, key: u8) -> Seq<(u8, Voice)> {
    if has_key(entries, key) {
        entries.remove(index_of(entries, key))
    } else {
        entries
    }
}

/// What `remove` returns: the value taken out, if one was.
pub open spec fn taken_by_remove(entries: Seq<(u8, Voice)>, key: u8) -> Option<Voice> {
    if has_key(entries, key) {
        Some(entries[index_of(entries, key)].1)
    } else {
        None
    }
}

/// A table of voices by note number that holds at most `capacity` entries.
pub struct FixedMap {
    map: IndexMap<u8, Voice>,
    capacity: usize,
}

impl View for FixedMap {
    type V = Seq<(u8, Voice)>;

    /// The entries in the table's order.
    closed spec fn view(&self) -> Seq<(u8, Voice)> {
        table_entries(self.map)
    }
}

impl FixedMap {
    /// The capacity that the table was made with.
    pub closed spec fn capacity(&self) -> usize {
        self.capacity
    }

    /// No key occurs twice, and the table holds no more than its capacity.
    pub open spec fn wf(&self) -> bool {
        &&& keys_distinct(self@)
        &&& self@.len() <= self.capacity()
    }

    /// An empty table of the given capacity. Room is set aside for that many
    /// entries, though for no more than there are keys.
    pub fn new(capacity: usize) -> (table: FixedMap)
        ensures
            table.wf(),
            table@ == Seq::<(u8, Voice)>::empty(),
            table.capacity() == capacity,
    {
        let reserve = if capacity < KEY_COUNT {
            capacity
        } else {
            KEY_COUNT
        };
        FixedMap { capacity, map: table_with_capacity(reserve) }
    }

    /// The number of entries.
    pub fn len(&self) -> (n: usize)
        ensures
            n == self@.len(),
    {
        table_len(&self.map)
    }

    /// Inserts an item if the table is not at capacity; otherwise does
    /// nothing. Returns the value that the item replaced.
    pub fn insert(&mut self, key: u8, value: Voice) -> (previous: Option<Voice>)
        requires
            old(self).wf(),
        ensures
            final(self).wf(),
            final(self).capacity() == old(self).capacity(),
            final(self)@ == after_insert(old(self)@, old(self).capacity() as int, key, value),
            previous == replaced_by_insert(old(self)@, old(self).capacity() as int, key),
    {
        if table_len(&self.map) >= self.capacity {
            None
        } else {
            let ghost before = self@;
            let previous = table_insert(&mut self.map, key, value);
            proof {
                if let Some(v) = previous {
                    let i = choose|i: int|
                        {
                            &&& 0 <= i < before.len()
                            &&& (#[trigger] before[i]) == (key, v)
                            &&& self@ == before.update(i, (key, value))
                        };
                    assert(before[i].0 == key);
                    assert(index_of(before, key) == i);
                }
            }
            previous
        }
    }

    /// Takes out the entry under `key`, if there is one, and returns its
    /// value. The other entries keep their order.
    pub fn remove(&mut self, key: &u8) -> (removed: Option<Voice>)
        requires
            old(self).wf(),
        ensures
            final(self).wf(),
            final(self).capacity() == old(self).capacity(),
            final(self)@ == after_remove(old(self)@, *key),
            removed == taken_by_remove(old(self)@, *key),
    {
        let ghost before = self@;
        let removed = table_shift_remove(&mut self.map, *key);
        proof {
            if let Some(v) = removed {
                let i = choose|i: int|
                    {
                        &&& 0 <= i < before.len()
                        &&& (#[trigger] before[i]) == (*key, v)
                        &&& self@ == before.remove(i)
                    };
                assert(before[i].0 == *key);
                assert(index_of(before, *key) == i);
            }
        }
        removed
    }

    /// A mutable reference to the voice at `index` in the table's order.
    pub fn value_mut(&mut self, index: usize) -> (voice: &mut Voice)
        requires
            old(self).wf(),
            index < old(self)@.len(),
        ensures
            *voice == old(self)@[index as int].1,
            final(self)@ == old(self)@.update(
                index as int,
                (old(self)@[index as int].0, *final(voice)),
            ),
            final(self).capacity() == old(self).capacity(),
            final(self).wf(),
    {
        table_value_mut(&mut self.map, index)
    }
}

/// Removing a key keeps the order of the other entries: those before the
/// removed entry stay in their places, those behind it move up by one.
pub proof fn law_remove_keeps_order(entries: Seq<(u8, Voice)>, key: u8)
    requires
        has_key(entries, key),
    ensures
        after_remove(entries, key).len() == entries.len() - 1,
        forall|k: int|
            0 <= k < index_of(entries, key) ==> (#[trigger] after_remove(entries, key)[k])
                == entries[k],
        forall|k: int|
            index_of(entries, key) <= k < entries.len() - 1 ==> (#[trigger] after_remove(
                entries,
                key,
            )[k]) == entries[k + 1],
        keys_distinct(entries) ==> !has_key(after_remove(entries, key), key),
{
    let i = index_of(entries, key);
    let after = after_remove(entries, key);
    if keys_distinct(entries) && has_key(after, key) {
        let k = choose|k: int| 0 <= k < after.len() && (#[trigger] after[k]).0 == key;
        if k < i {
            assert(entries[k].0 == entries[i].0);
        } else {
            assert(entries[i].0 == entries[k + 1].0);
        }
    }
}

/// What a run of `insert` calls leaves in a table of `capacity`, one call
/// for each pair of `items` in their order.
pub open spec fn after_inserts(
    entries: Seq<(u8, Voice)>,
    capacity: int,
    items: Seq<(u8, Voice)>,
) -> Seq<(u8, Voice)>
    decreases items.len(),
{
    if items.len() == 0 {
        entries
    } else {
        after_insert(
            after_inserts(entries, capacity, items.drop_last()),
            capacity,
            items.last().0,
            items.last().1,
        )
    }
}

/// A key that is in the table after a run of inserts was in the table before
/// or is the key of one of the items.
proof fn lemma_after_inserts_keys(
    entries: Seq<(u8, Voice)>,
    capacity: int,
    items: Seq<(u8, Voice)>,
    key: u8,
)
    requires
        has_key(after_inserts(entries, capacity, items), key),
    ensures
        has_key(entries, key) || has_key(items, key),
    decreases items.len(),
{
    if items.len() > 0 {
        let before = after_inserts(entries, capacity, items.drop_last());
        let after = after_inserts(entries, capacity, items);
        let i = choose|i: int| 0 <= i < after.len() && (#[trigger] after[i]).0 == key;
        let last = items.last();
        if key == last.0 {
            assert(items[items.len() - 1].0 == key);
        } else {
            assert(before[i].0 == key);
            lemma_after_inserts_keys(entries, capacity, items.drop_last(), key);
            if has_key(items.drop_last(), key) {
                let k = choose|k: int|
                    0 <= k < items.drop_last().len() && (#[trigger] items.drop_last()[k]).0 == key;
                assert(items[k].0 == key);
            }
        }
    }
}

/// Whatever is inserted and in whatever order, a table that holds no more
/// than its capacity never comes to hold more, and loses no entry.
pub proof fn law_table_never_exceeds_capacity(
    entries: Seq<(u8, Voice)>,
    capacity: int,
    items: Seq<(u8, Voice)>,
)
    requires
        entries.len() <= capacity,
    ensures
        entries.len() <= after_inserts(entries, capacity, items).len() <= capacity,
    decreases items.len(),
{
    if items.len() > 0 {
        law_table_never_exceeds_capacity(entries, capacity, items.drop_last());
    }
}

/// Inserting items under keys that differ from each other and from the keys
/// in the table adds one entry for each until the table is full: with at
/// least as many of them as there is room, the table ends at exactly its
/// capacity.
pub proof fn law_table_fills_to_capacity(
    entries: Seq<(u8, Voice)>,
    capacity: int,
    items: Seq<(u8, Voice)>,
)
    requires
        entries.len() <= capacity,
        keys_distinct(items),
        forall|i: int| 0 <= i < items.len() ==> !has_key(entries, (#[trigger] items[i]).0),
    ensures
        after_inserts(entries, capacity, items).len() == if entries.len() + items.len()
            >= capacity {
            capacity
        } else {
            (entries.len() + items.len()) as int
        },
    decreases items.len(),
{
    if items.len() > 0 {
        let rest = items.drop_last();
        let last = items.last();
        assert forall|i: int| 0 <= i < rest.len() implies !has_key(
            entries,
            (#[trigger] rest[i]).0,
        ) by {
            assert(rest[i] == items[i]);
        }
        law_table_fills_to_capacity(entries, capacity, rest);
        let before = after_inserts(entries, capacity, rest);
        if before.len() < capacity && has_key(before, last.0) {
            lemma_after_inserts_keys(entries, capacity, rest, last.0);
            assert(!has_key(entries, items[items.len() - 1].0));
            let k = choose|k: int| 0 <= k < rest.len() && (#[trigger] rest[k]).0 == last.0;
            assert(items[k].0 == items[items.len() - 1].0);
        }
    }
}

} // verus!

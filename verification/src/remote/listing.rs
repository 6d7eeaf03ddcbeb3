//! Maps, the lists of their entries, and what writing a list of entries does to a map.

use vstd::prelude::*;

verus! {

/// `keys` names every element of `set`, and each of them once.
pub open spec fn enumerates<K>(keys: Seq<K>, set: Set<K>) -> bool {
    &&& keys.no_duplicates()
    &&& keys.to_set() == set
}

/// `entries` holds every entry of `map`, and each of them once, in some order.
pub open spec fn lists_entries<K, V>(entries: Seq<(K, V)>, map: Map<K, V>) -> bool {
    exists|keys: Seq<K>|
        {
            &&& #[trigger] enumerates(keys, map.dom())
            &&& entries == keys.map_values(|key: K| (key, map[key]))
        }
}

/// `values` holds what `to` makes of the value of every entry of `map`, and of each
/// of them once, in some order.
pub open spec fn lists_values<K, V, W>(
    values: Seq<W>,
    map: Map<K, V>,
    to: spec_fn(V) -> W,
) -> bool {
    exists|keys: Seq<K>|
        {
            &&& #[trigger] enumerates(keys, map.dom())
            &&& values == keys.map_values(|key: K| to(map[key]))
        }
}

/// `map` after the entries have been written to it, from the first to the last.
pub open spec fn written<K, V>(map: Map<K, V>, entries: Seq<(K, V)>) -> Map<K, V>
    decreases entries.len(),
{
    if entries.len() == 0 {
        map
    } else {
        written(map, entries.drop_last()).insert(entries.last().0, entries.last().1)
    }
}

/// Writing entries to a map is writing them to an empty map and laying the result
/// over the map.
pub proof fn lemma_written_is_union<K, V>(map: Map<K, V>, entries: Seq<(K, V)>)
    ensures
        written(map, entries) == map.union_prefer_right(written(Map::empty(), entries)),
    decreases entries.len(),
{
    if entries.len() > 0 {
        lemma_written_is_union(map, entries.drop_last());
    }
    assert(written(map, entries) =~= map.union_prefer_right(written(Map::empty(), entries)));
}

/// The keys of a map after entries were written to it are its own keys and those of
/// the entries.
pub proof fn lemma_written_keys<K, V>(map: Map<K, V>, entries: Seq<(K, V)>, key: K)
    ensures
        written(map, entries).contains_key(key) <==> map.contains_key(key) || exists|i: int|
            0 <= i < entries.len() && #[trigger] entries[i].0 == key,
    decreases entries.len(),
{
    if entries.len() > 0 {
        let earlier = entries.drop_last();
        lemma_written_keys(map, earlier, key);
        if exists|i: int| 0 <= i < earlier.len() && #[trigger] earlier[i].0 == key {
            let i = choose|i: int| 0 <= i < earlier.len() && #[trigger] earlier[i].0 == key;
            assert(entries[i].0 == key);
        }
        if exists|i: int| 0 <= i < entries.len() && #[trigger] entries[i].0 == key {
            let i = choose|i: int| 0 <= i < entries.len() && #[trigger] entries[i].0 == key;
            if i < earlier.len() {
                assert(earlier[i].0 == key);
            }
        }
    }
}

/// The last entry with a key decides what is found under the key; where no entry has
/// the key, what was there stays.
pub proof fn lemma_last_write_wins<K, V>(map: Map<K, V>, entries: Seq<(K, V)>, i: int)
    requires
        0 <= i < entries.len(),
        forall|j: int| i < j < entries.len() ==> #[trigger] entries[j].0 != entries[i].0,
    ensures
        written(map, entries).contains_key(entries[i].0),
        written(map, entries)[entries[i].0] == entries[i].1,
    decreases entries.len(),
{
    if i < entries.len() - 1 {
        let earlier = entries.drop_last();
        assert(earlier[i] == entries[i]);
        assert forall|j: int| i < j < earlier.len() implies #[trigger] earlier[j].0
            != earlier[i].0 by {
            assert(earlier[j] == entries[j]);
        }
        lemma_last_write_wins(map, earlier, i);
        assert(entries[entries.len() - 1].0 != entries[i].0);
    }
}

/// A key that no entry has keeps its value.
pub proof fn lemma_unwritten_key_stays<K, V>(map: Map<K, V>, entries: Seq<(K, V)>, key: K)
    requires
        forall|j: int| 0 <= j < entries.len() ==> #[trigger] entries[j].0 != key,
    ensures
        written(map, entries).contains_key(key) == map.contains_key(key),
        map.contains_key(key) ==> written(map, entries)[key] == map[key],
    decreases entries.len(),
{
    if entries.len() > 0 {
        let earlier = entries.drop_last();
        assert forall|j: int| 0 <= j < earlier.len() implies #[trigger] earlier[j].0 != key by {
            assert(earlier[j] == entries[j]);
        }
        lemma_unwritten_key_stays(map, earlier, key);
        assert(entries[entries.len() - 1].0 != key);
    }
}

/// Writing the same entries a second time changes nothing.
pub proof fn lemma_writing_again_changes_nothing<K, V>(map: Map<K, V>, entries: Seq<(K, V)>)
    ensures
        written(written(map, entries), entries) == written(map, entries),
{
    lemma_written_is_union(map, entries);
    lemma_written_is_union(written(map, entries), entries);
    assert(written(written(map, entries), entries) =~= written(map, entries));
}

/// Writing one list of entries and then another is writing the two as one list.
pub proof fn lemma_written_in_parts<K, V>(
    map: Map<K, V>,
    first: Seq<(K, V)>,
    second: Seq<(K, V)>,
)
    ensures
        written(written(map, first), second) == written(map, first + second),
    decreases second.len(),
{
    if second.len() == 0 {
        assert(first + second =~= first);
    } else {
        lemma_written_in_parts(map, first, second.drop_last());
        assert((first + second).drop_last() =~= first + second.drop_last());
    }
}

/// Writing every entry of a map to an empty map gives the map back.
pub proof fn lemma_written_list_restores<K, V>(entries: Seq<(K, V)>, map: Map<K, V>)
    requires
        lists_entries(entries, map),
    ensures
        written(Map::empty(), entries) == map,
{
    let keys = choose|keys: Seq<K>|
        {
            &&& #[trigger] enumerates(keys, map.dom())
            &&& entries == keys.map_values(|key: K| (key, map[key]))
        };
    let rebuilt = written(Map::<K, V>::empty(), entries);
    assert forall|key: K| #[trigger] rebuilt.contains_key(key) <==> map.contains_key(key) by {
        lemma_written_keys(Map::<K, V>::empty(), entries, key);
        if map.contains_key(key) {
            assert(keys.to_set().contains(key));
            let i = choose|i: int| 0 <= i < keys.len() && keys[i] == key;
            assert(entries[i].0 == key);
        }
        if rebuilt.contains_key(key) {
            let i = choose|i: int| 0 <= i < entries.len() && #[trigger] entries[i].0 == key;
            assert(keys[i] == key);
            assert(keys.to_set().contains(key));
        }
    }
    assert forall|key: K| #[trigger] map.contains_key(key) implies rebuilt[key] == map[key] by {
        assert(keys.to_set().contains(key));
        let i = choose|i: int| 0 <= i < keys.len() && keys[i] == key;
        assert(entries[i] == (key, map[key]));
        assert forall|j: int| i < j < entries.len() implies #[trigger] entries[j].0
            != entries[i].0 by {
            assert(keys[j] != keys[i]);
        }
        lemma_last_write_wins(Map::<K, V>::empty(), entries, i);
    }
    assert(rebuilt =~= map);
}

/// A list of the entries of a map, each value put through `to`, is a list of the
/// entries of the map whose values are put through `to`.
pub proof fn lemma_list_of_mapped_values<K, V, W>(
    entries: Seq<(K, V)>,
    map: Map<K, V>,
    to: spec_fn(V) -> W,
)
    requires
        lists_entries(entries, map),
    ensures
        lists_entries(
            Seq::new(entries.len(), |i: int| (entries[i].0, to(entries[i].1))),
            map.map_values(to),
        ),
{
    let keys = choose|keys: Seq<K>|
        {
            &&& #[trigger] enumerates(keys, map.dom())
            &&& entries == keys.map_values(|key: K| (key, map[key]))
        };
    let mapped = map.map_values(to);
    assert(mapped.dom() =~= map.dom());
    assert(enumerates(keys, mapped.dom()));
    assert forall|i: int| 0 <= i < keys.len() implies map.contains_key(#[trigger] keys[i]) by {
        assert(keys.to_set().contains(keys[i]));
    }
    assert(Seq::new(entries.len(), |i: int| (entries[i].0, to(entries[i].1))) =~= keys.map_values(
        |key: K| (key, mapped[key]),
    ));
}

/// The values of a list of the entries of a map list the values of the map.
pub proof fn lemma_values_of_list<K, V, W>(
    entries: Seq<(K, V)>,
    map: Map<K, V>,
    to: spec_fn(V) -> W,
)
    requires
        lists_entries(entries, map),
    ensures
        lists_values(Seq::new(entries.len(), |i: int| to(entries[i].1)), map, to),
{
    let keys = choose|keys: Seq<K>|
        {
            &&& #[trigger] enumerates(keys, map.dom())
            &&& entries == keys.map_values(|key: K| (key, map[key]))
        };
    assert(Seq::new(entries.len(), |i: int| to(entries[i].1)) =~= keys.map_values(
        |key: K| to(map[key]),
    ));
}

/// Every value of a map is listed once, so that the list is as long as the map is large.
pub proof fn lemma_list_length<K, V, W>(values: Seq<W>, map: Map<K, V>, to: spec_fn(V) -> W)
    requires
        lists_values(values, map, to),
    ensures
        map.dom().finite(),
        values.len() == map.len(),
{
    let keys = choose|keys: Seq<K>|
        {
            &&& #[trigger] enumerates(keys, map.dom())
            &&& values == keys.map_values(|key: K| to(map[key]))
        };
    keys.unique_seq_to_set();
}

} // verus!

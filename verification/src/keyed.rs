//! Items with keys of which no two are equal, taken as a map from the keys.

use vstd::prelude::*;

verus! {

/// Whether the item at position `i` has the key `key`.
pub open spec fn is_entry<T, K>(items: Seq<T>, key_of: spec_fn(T) -> K, key: K, i: int) -> bool {
    0 <= i < items.len() && key_of(items[i]) == key
}

/// Whether no two of the items have one key.
pub open spec fn distinct_keys<T, K>(items: Seq<T>, key_of: spec_fn(T) -> K) -> bool {
    forall|i: int, j: int| 0 <= i < j < items.len() ==> key_of(items[i]) != key_of(items[j])
}

/// For each key the value of the item that has it.
pub open spec fn by_key<T, K, V>(
    items: Seq<T>,
    key_of: spec_fn(T) -> K,
    value_of: spec_fn(T) -> V,
) -> Map<K, V> {
    Map::new(
        |key: K| exists|i: int| is_entry(items, key_of, key, i),
        |key: K| value_of(items[choose|i: int| is_entry(items, key_of, key, i)]),
    )
}

/// Among items with distinct keys, the key of an item stands for the value
/// of that item.
pub proof fn lemma_entry<T, K, V>(
    items: Seq<T>,
    key_of: spec_fn(T) -> K,
    value_of: spec_fn(T) -> V,
    i: int,
)
    requires
        distinct_keys(items, key_of),
        0 <= i < items.len(),
    ensures
        by_key(items, key_of, value_of).dom().contains(key_of(items[i])),
        by_key(items, key_of, value_of)[key_of(items[i])] == value_of(items[i]),
{
    assert(is_entry(items, key_of, key_of(items[i]), i));
}

/// Where no item has a key, the key stands for nothing.
pub proof fn lemma_no_entry<T, K, V>(
    items: Seq<T>,
    key_of: spec_fn(T) -> K,
    value_of: spec_fn(T) -> V,
    key: K,
)
    requires
        forall|i: int| !(#[trigger] is_entry(items, key_of, key, i)),
    ensures
        !by_key(items, key_of, value_of).dom().contains(key),
{
}

/// An item put in the place of the item that has its key takes its place
/// in the map too.
pub proof fn lemma_replaced<T, K, V>(
    items: Seq<T>,
    key_of: spec_fn(T) -> K,
    value_of: spec_fn(T) -> V,
    i: int,
    item: T,
)
    requires
        distinct_keys(items, key_of),
        is_entry(items, key_of, key_of(item), i),
    ensures
        distinct_keys(items.update(i, item), key_of),
        by_key(items.update(i, item), key_of, value_of) == by_key(items, key_of, value_of).insert(
            key_of(item),
            value_of(item),
        ),
{
    let after = items.update(i, item);
    let grown = by_key(items, key_of, value_of).insert(key_of(item), value_of(item));
    assert forall|key: K| by_key(after, key_of, value_of).dom().contains(key) <==> grown.dom().contains(
        key,
    ) by {
        if by_key(after, key_of, value_of).dom().contains(key) {
            let j = choose|j: int| is_entry(after, key_of, key, j);
            assert(is_entry(items, key_of, key, j));
        }
        if by_key(items, key_of, value_of).dom().contains(key) {
            let j = choose|j: int| is_entry(items, key_of, key, j);
            assert(is_entry(after, key_of, key, j));
        }
    }
    assert forall|key: K| by_key(after, key_of, value_of).dom().contains(key) implies by_key(
        after,
        key_of,
        value_of,
    )[key] == grown[key] by {
        let j = choose|j: int| is_entry(after, key_of, key, j);
        assert(distinct_keys(after, key_of));
        lemma_entry(after, key_of, value_of, j);
        if key != key_of(item) {
            assert(after[j] == items[j]);
            lemma_entry(items, key_of, value_of, j);
        } else {
            lemma_entry(after, key_of, value_of, i);
        }
    }
    assert(by_key(after, key_of, value_of) =~= grown);
}

/// An item whose key no item has comes to the map.
pub proof fn lemma_appended<T, K, V>(
    items: Seq<T>,
    key_of: spec_fn(T) -> K,
    value_of: spec_fn(T) -> V,
    item: T,
)
    requires
        distinct_keys(items, key_of),
        forall|i: int| !(#[trigger] is_entry(items, key_of, key_of(item), i)),
    ensures
        distinct_keys(items.push(item), key_of),
        by_key(items.push(item), key_of, value_of) == by_key(items, key_of, value_of).insert(
            key_of(item),
            value_of(item),
        ),
{
    let after = items.push(item);
    let last = items.len() as int;
    let grown = by_key(items, key_of, value_of).insert(key_of(item), value_of(item));
    assert forall|a: int, b: int| 0 <= a < b < after.len() implies key_of(after[a]) != key_of(
        after[b],
    ) by {
        if b == last {
            assert(!is_entry(items, key_of, key_of(item), a));
        }
    }
    assert forall|key: K| by_key(after, key_of, value_of).dom().contains(key) <==> grown.dom().contains(
        key,
    ) by {
        if by_key(after, key_of, value_of).dom().contains(key) {
            let j = choose|j: int| is_entry(after, key_of, key, j);
            if j != last {
                assert(is_entry(items, key_of, key, j));
            }
        }
        if by_key(items, key_of, value_of).dom().contains(key) {
            let j = choose|j: int| is_entry(items, key_of, key, j);
            assert(is_entry(after, key_of, key, j));
        }
        if key == key_of(item) {
            assert(is_entry(after, key_of, key, last));
        }
    }
    assert forall|key: K| by_key(after, key_of, value_of).dom().contains(key) implies by_key(
        after,
        key_of,
        value_of,
    )[key] == grown[key] by {
        let j = choose|j: int| is_entry(after, key_of, key, j);
        assert(distinct_keys(after, key_of));
        lemma_entry(after, key_of, value_of, j);
        if key != key_of(item) {
            assert(j != last);
            assert(after[j] == items[j]);
            lemma_entry(items, key_of, value_of, j);
        } else {
            lemma_entry(after, key_of, value_of, last);
        }
    }
    assert(by_key(after, key_of, value_of) =~= grown);
}

} // verus!

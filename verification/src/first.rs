use vstd::prelude::*;

verus! {

/// Whether `i` is the first place of `keys` that holds `key`.
pub open spec fn is_first<K>(keys: Seq<K>, key: K, i: int) -> bool {
    &&& 0 <= i < keys.len()
    &&& keys[i] == key
    &&& forall|j: int| 0 <= j < i ==> #[trigger] keys[j] != key
}

/// The first place of `keys` that holds `key`.
pub open spec fn first_place<K>(keys: Seq<K>, key: K) -> int {
    choose|i: int| is_first(keys, key, i)
}

/// Where a place is the first to hold `key`, the key is held, and no other
/// place is the first.
pub proof fn lemma_first_is_only<K>(keys: Seq<K>, key: K, i: int)
    requires
        is_first(keys, key, i),
    ensures
        keys.contains(key),
        first_place(keys, key) == i,
{
    let k = first_place(keys, key);
    assert(is_first(keys, key, k));
    if k < i {
        assert(keys[k] != key);
    }
    if i < k {
        assert(keys[i] != key);
    }
}

/// A key that is held has a first place.
pub proof fn lemma_held_has_first<K>(keys: Seq<K>, key: K)
    requires
        keys.contains(key),
    ensures
        is_first(keys, key, first_place(keys, key)),
    decreases keys.len(),
{
    let i = choose|i: int| 0 <= i < keys.len() && keys[i] == key;
    if keys.take(i).contains(key) {
        let front = keys.take(i);
        lemma_held_has_first(front, key);
        let k = first_place(front, key);
        assert(is_first(keys, key, k)) by {
            assert(forall|m: int| 0 <= m <= k ==> #[trigger] keys[m] == front[m]);
        }
    } else {
        assert(is_first(keys, key, i)) by {
            assert forall|j: int| 0 <= j < i implies #[trigger] keys[j] != key by {
                if keys[j] == key {
                    assert(keys.take(i)[j] == key);
                }
            }
        }
    }
}

} // verus!

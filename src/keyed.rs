use vstd::prelude::*;

verus! {

/// No two elements of `s` share a key.
pub open spec fn unique_keys<T, K>(s: Seq<T>, key: spec_fn(T) -> K) -> bool {
    forall|i: int, j: int|
        0 <= i < s.len() && 0 <= j < s.len() && #[trigger] key(s[i]) == #[trigger] key(s[j])
            ==> i == j
}

/// The map from each key found in `s` to the value of the element that has it.
pub open spec fn keyed<T, K, V>(s: Seq<T>, key: spec_fn(T) -> K, val: spec_fn(T) -> V) -> Map<
    K,
    V,
> {
    Map::new(
        |k: K| exists|i: int| 0 <= i < s.len() && key(s[i]) == k,
        |k: K| val(s[choose|i: int| 0 <= i < s.len() && key(s[i]) == k]),
    )
}

/// Appending an element under a fresh key adds that key to the map.
pub proof fn lemma_keyed_push<T, K, V>(
    s: Seq<T>,
    key: spec_fn(T) -> K,
    val: spec_fn(T) -> V,
    x: T,
)
    requires
        unique_keys(s, key),
        forall|i: int| 0 <= i < s.len() ==> key(s[i]) != key(x),
    ensures
        unique_keys(s.push(x), key),
        keyed(s.push(x), key, val) == keyed(s, key, val).insert(key(x), val(x)),
{
    let t = s.push(x);
    assert forall|i: int, j: int|
        0 <= i < t.len() && 0 <= j < t.len() && #[trigger] key(t[i]) == #[trigger] key(t[j])
        implies i == j by {
        if i < s.len() && j < s.len() {
            assert(key(s[i]) == key(s[j]));
        }
    }
    let m = keyed(t, key, val);
    let m0 = keyed(s, key, val).insert(key(x), val(x));
    assert forall|k: K| m.contains_key(k) <==> m0.contains_key(k) by {
        if m.contains_key(k) {
            let i = choose|i: int| 0 <= i < t.len() && key(t[i]) == k;
            if i < s.len() {
                assert(key(s[i]) == k);
            }
        }
        if m0.contains_key(k) && k != key(x) {
            let i = choose|i: int| 0 <= i < s.len() && key(s[i]) == k;
            assert(key(t[i]) == k);
        }
        if k == key(x) {
            assert(key(t[s.len() as int]) == k);
        }
    }
    assert forall|k: K| #[trigger] m.contains_key(k) implies m[k] == m0[k] by {
        let i = choose|i: int| 0 <= i < t.len() && key(t[i]) == k;
        if k == key(x) {
            assert(key(t[s.len() as int]) == k);
        } else {
            let i0 = choose|i: int| 0 <= i < s.len() && key(s[i]) == k;
            assert(key(t[i0]) == k);
        }
    }
    assert(m =~= m0);
}

/// Replacing an element by one with the same key changes only that key's value.
pub proof fn lemma_keyed_update<T, K, V>(
    s: Seq<T>,
    key: spec_fn(T) -> K,
    val: spec_fn(T) -> V,
    j: int,
    x: T,
)
    requires
        unique_keys(s, key),
        0 <= j < s.len(),
        key(s[j]) == key(x),
    ensures
        unique_keys(s.update(j, x), key),
        keyed(s.update(j, x), key, val) == keyed(s, key, val).insert(key(x), val(x)),
{
    let t = s.update(j, x);
    assert forall|a: int, b: int|
        0 <= a < t.len() && 0 <= b < t.len() && #[trigger] key(t[a]) == #[trigger] key(t[b])
        implies a == b by {
        assert(key(t[a]) == key(s[a]));
        assert(key(t[b]) == key(s[b]));
    }
    let m = keyed(t, key, val);
    let m0 = keyed(s, key, val).insert(key(x), val(x));
    assert forall|k: K| m.contains_key(k) <==> m0.contains_key(k) by {
        if m.contains_key(k) {
            let i = choose|i: int| 0 <= i < t.len() && key(t[i]) == k;
            assert(key(s[i]) == k);
        }
        if m0.contains_key(k) && k != key(x) {
            let i = choose|i: int| 0 <= i < s.len() && key(s[i]) == k;
            assert(key(t[i]) == k);
        }
        if k == key(x) {
            assert(key(t[j]) == k);
        }
    }
    assert forall|k: K| #[trigger] m.contains_key(k) implies m[k] == m0[k] by {
        let i = choose|i: int| 0 <= i < t.len() && key(t[i]) == k;
        assert(key(s[i]) == k);
        if k == key(x) {
            assert(key(t[j]) == k);
        } else {
            let i0 = choose|i: int| 0 <= i < s.len() && key(s[i]) == k;
            assert(key(s[i0]) == k);
        }
    }
    assert(m =~= m0);
}

} // verus!

use vstd::prelude::*;

verus! {

/// What a store stands for: the characters of each key mapped to the bytes of its value.
pub type Entries = Map<Seq<char>, Seq<u8>>;

/// The value that `key` maps to, if any.
pub open spec fn found(held: Entries, key: Seq<char>) -> Option<Seq<u8>> {
    if held.contains_key(key) {
        Some(held[key])
    } else {
        None
    }
}

/// The bytes of an optional value.
pub open spec fn bytes_of(value: Option<Vec<u8>>) -> Option<Seq<u8>> {
    match value {
        Some(bytes) => Some(bytes@),
        None => None,
    }
}

/// The characters of each key of a list, in the list's order.
pub open spec fn names(keys: Seq<String>) -> Seq<Seq<char>> {
    keys.map_values(|key: String| key@)
}

/// The keys of `held` that begin with `prefix`.
pub open spec fn prefixed_keys(held: Entries, prefix: Seq<char>) -> Set<Seq<char>> {
    Set::new(|key: Seq<char>| held.contains_key(key) && prefix.is_prefix_of(key))
}

/// How many entries a removal takes away: one where the key is held, none where it is not.
pub open spec fn removed_count(held: Entries, key: Seq<char>) -> int {
    if held.contains_key(key) {
        1
    } else {
        0
    }
}

} // verus!

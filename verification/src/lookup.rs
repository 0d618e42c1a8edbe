//! The first position at which a key occurs in a list, as `Iterator::find`
//! and `Iterator::position` locate it.
use vstd::prelude::*;

verus! {

/// `i` is the first position of `k` in `keys`.
pub open spec fn is_first(keys: Seq<Seq<char>>, k: Seq<char>, i: int) -> bool {
    0 <= i < keys.len() && keys[i] == k && forall|j: int| 0 <= j < i ==> keys[j] != k
}

/// The first position of `k` in `keys`, if `k` occurs.
pub open spec fn first_with(keys: Seq<Seq<char>>, k: Seq<char>) -> Option<int> {
    if keys.contains(k) {
        Some(choose|i: int| is_first(keys, k, i))
    } else {
        None
    }
}

/// `r` is what a left-to-right search for `k` in `keys` finds: the first
/// position of `k`, or nothing where `k` does not occur.
pub open spec fn found(keys: Seq<Seq<char>>, k: Seq<char>, r: Option<usize>) -> bool {
    match r {
        Some(i) => is_first(keys, k, i as int) && first_with(keys, k) == Some(i as int),
        None => !keys.contains(k) && first_with(keys, k) is None,
    }
}

/// The position found by a left-to-right search is the first position.
pub proof fn lemma_first_with(keys: Seq<Seq<char>>, k: Seq<char>, i: int)
    requires
        is_first(keys, k, i),
    ensures
        first_with(keys, k) == Some(i),
{
    assert(keys.contains(k)) by {
        assert(keys[i] == k);
    }
    let c = choose|c: int| is_first(keys, k, c);
    assert(is_first(keys, k, c));
    if c < i {
        assert(keys[c] != k);
    } else if c > i {
        assert(keys[i] != k);
    }
}

/// `k` does not occur in `keys`.
pub proof fn lemma_first_none(keys: Seq<Seq<char>>, k: Seq<char>)
    requires
        forall|j: int| 0 <= j < keys.len() ==> keys[j] != k,
    ensures
        first_with(keys, k) is None,
        !keys.contains(k),
{
    if keys.contains(k) {
        let j = choose|j: int| 0 <= j < keys.len() && keys[j] == k;
        assert(keys[j] == k);
    }
}

/// Where `first_with` finds `k`, it is there.
pub proof fn lemma_first_some(keys: Seq<Seq<char>>, k: Seq<char>)
    requires
        keys.contains(k),
    ensures
        first_with(keys, k) matches Some(i) && is_first(keys, k, i),
{
    let j = choose|j: int| 0 <= j < keys.len() && keys[j] == k;
    let w = least_index(keys, k, j);
    lemma_first_with(keys, k, w);
}

proof fn least_index(keys: Seq<Seq<char>>, k: Seq<char>, j: int) -> (w: int)
    requires
        0 <= j < keys.len(),
        keys[j] == k,
    ensures
        is_first(keys, k, w),
    decreases j,
{
    if exists|i: int| 0 <= i < j && keys[i] == k {
        let i = choose|i: int| 0 <= i < j && keys[i] == k;
        least_index(keys, k, i)
    } else {
        j
    }
}

/// Finds the first position of `k` among `keys`.
pub fn position_of(keys: &Vec<String>, k: &str) -> (r: Option<usize>)
    ensures
        found(keys@.map_values(|s: String| s@), k@, r),
{
    let ghost ks = keys@.map_values(|s: String| s@);
    let mut i: usize = 0;
    while i < keys.len()
        invariant
            ks == keys@.map_values(|s: String| s@),
            i <= keys@.len(),
            forall|j: int| 0 <= j < i ==> ks[j] != k@,
        decreases keys.len() - i,
    {
        if crate::text::str_eq(keys[i].as_str(), k) {
            proof {
                lemma_first_with(ks, k@, i as int);
            }
            return Some(i);
        }
        i = i + 1;
    }
    proof {
        lemma_first_none(ks, k@);
    }
    None
}

} // verus!

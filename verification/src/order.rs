//! A stable ordering of items by keys compared lexicographically: the order
//! that a stable sort by those keys produces.
use vstd::prelude::*;

verus! {

/// `a` comes strictly before `b` in lexicographic order (a proper prefix comes first).
pub open spec fn lex_lt(a: Seq<u64>, b: Seq<u64>) -> bool
    decreases a.len(),
{
    if a.len() == 0 {
        b.len() > 0
    } else if b.len() == 0 {
        false
    } else if a[0] < b[0] {
        true
    } else if a[0] > b[0] {
        false
    } else {
        lex_lt(a.drop_first(), b.drop_first())
    }
}

/// Of two different sequences, one comes before the other, and not both ways.
pub proof fn lemma_lex_total(a: Seq<u64>, b: Seq<u64>)
    ensures
        a != b ==> (lex_lt(a, b) || lex_lt(b, a)),
        !(lex_lt(a, b) && lex_lt(b, a)),
    decreases a.len(),
{
    if a.len() > 0 && b.len() > 0 && a[0] == b[0] {
        lemma_lex_total(a.drop_first(), b.drop_first());
        if a != b {
            assert(a.drop_first() != b.drop_first()) by {
                if a.drop_first() == b.drop_first() {
                    assert(a =~= seq![a[0]] + a.drop_first());
                    assert(b =~= seq![b[0]] + b.drop_first());
                }
            }
        }
    } else if a.len() == 0 && b.len() == 0 {
        assert(a =~= b);
    }
}

/// Lexicographic order is transitive.
pub proof fn lemma_lex_transitive(a: Seq<u64>, b: Seq<u64>, c: Seq<u64>)
    requires
        lex_lt(a, b),
        lex_lt(b, c),
    ensures
        lex_lt(a, c),
    decreases a.len(),
{
    if a.len() > 0 && b.len() > 0 && c.len() > 0 && a[0] == b[0] && b[0] == c[0] {
        lemma_lex_transitive(a.drop_first(), b.drop_first(), c.drop_first());
    }
}

/// Whether `a` comes strictly before `b` in lexicographic order.
pub fn lex_less(a: &[u64], b: &[u64]) -> (r: bool)
    ensures
        r == lex_lt(a@, b@),
{
    let mut i: usize = 0;
    assert(a@.skip(0) =~= a@);
    assert(b@.skip(0) =~= b@);
    while i < a.len() && i < b.len()
        invariant
            i <= a.len(),
            i <= b.len(),
            lex_lt(a@, b@) == lex_lt(a@.skip(i as int), b@.skip(i as int)),
        decreases a.len() - i,
    {
        assert(a@.skip(i as int).drop_first() =~= a@.skip(i + 1));
        assert(b@.skip(i as int).drop_first() =~= b@.skip(i + 1));
        if a[i] < b[i] {
            return true;
        }
        if a[i] > b[i] {
            return false;
        }
        i = i + 1;
    }
    i == a.len() && i < b.len()
}

/// Item `i` comes before item `j` when ordered by `keys` with ties kept in
/// their input order.
pub open spec fn precedes(keys: Seq<Seq<u64>>, i: int, j: int) -> bool {
    lex_lt(keys[i], keys[j]) || (keys[i] == keys[j] && i < j)
}

/// `perm` lists each index of `keys` once, in the order of a stable sort by
/// `keys`.
pub open spec fn is_stable_order(keys: Seq<Seq<u64>>, perm: Seq<usize>) -> bool {
    &&& perm.len() == keys.len()
    &&& perm.no_duplicates()
    &&& forall|k: int| 0 <= k < perm.len() ==> #[trigger] perm[k] < keys.len()
    &&& forall|a: int, b: int|
        0 <= a < b < perm.len() ==> precedes(keys, #[trigger] perm[a] as int, #[trigger] perm[b] as int)
}

/// The order in which a stable sort by `keys` puts the items.
pub fn stable_order(keys: &Vec<Vec<u64>>) -> (perm: Vec<usize>)
    ensures
        is_stable_order(keys_view(keys@), perm@),
{
    let ghost ks = keys_view(keys@);
    let n = keys.len();
    let mut perm: Vec<usize> = Vec::new();
    let mut i: usize = 0;
    while i < n
        invariant
            n == keys.len(),
            ks == keys_view(keys@),
            i <= n,
            perm@.len() == i,
            perm@.no_duplicates(),
            forall|k: int| 0 <= k < perm@.len() ==> #[trigger] perm@[k] < i,
            forall|a: int, b: int|
                0 <= a < b < perm@.len() ==> precedes(ks, #[trigger] perm@[a] as int, #[trigger] perm@[b] as int),
        decreases n - i,
    {
        // position: first place whose item has a key strictly after key i
        let mut p: usize = 0;
        while p < perm.len() && !lex_less(keys[i].as_slice(), keys[perm[p]].as_slice())
            invariant
                n == keys.len(),
                ks == keys_view(keys@),
                i < n,
                p <= perm@.len(),
                forall|k: int| 0 <= k < perm@.len() ==> #[trigger] perm@[k] < i,
                forall|q: int| 0 <= q < p ==> !lex_lt(ks[i as int], ks[#[trigger] perm@[q] as int]),
            decreases perm@.len() - p,
        {
            p = p + 1;
        }
        let ghost old_perm = perm@;
        proof {
            assert forall|q: int| 0 <= q < p implies precedes(ks, #[trigger] old_perm[q] as int, i as int) by {
                lemma_lex_total(ks[i as int], ks[old_perm[q] as int]);
            }
            if p < old_perm.len() {
                assert(lex_lt(ks[i as int], ks[old_perm[p as int] as int]));
                assert forall|q: int| p <= q < old_perm.len() implies precedes(
                    ks,
                    i as int,
                    #[trigger] old_perm[q] as int,
                ) by {
                    if q > p {
                        assert(precedes(ks, old_perm[p as int] as int, old_perm[q] as int));
                        if lex_lt(ks[old_perm[p as int] as int], ks[old_perm[q] as int]) {
                            lemma_lex_transitive(
                                ks[i as int],
                                ks[old_perm[p as int] as int],
                                ks[old_perm[q] as int],
                            );
                        }
                    }
                }
            }
        }
        perm.insert(p, i);
        proof {
            let np = perm@;
            assert(np == old_perm.insert(p as int, i));
            assert forall|a: int, b: int| 0 <= a < b < np.len() implies precedes(
                ks,
                #[trigger] np[a] as int,
                #[trigger] np[b] as int,
            ) by {
                if b < p {
                    assert(np[a] == old_perm[a] && np[b] == old_perm[b]);
                } else if b == p {
                    assert(np[a] == old_perm[a]);
                } else if a < p {
                    assert(np[a] == old_perm[a] && np[b] == old_perm[b - 1]);
                    assert(precedes(ks, old_perm[a] as int, i as int));
                    assert(precedes(ks, i as int, old_perm[b - 1] as int));
                    if lex_lt(ks[old_perm[a] as int], ks[i as int]) {
                        if lex_lt(ks[i as int], ks[old_perm[b - 1] as int]) {
                            lemma_lex_transitive(
                                ks[old_perm[a] as int],
                                ks[i as int],
                                ks[old_perm[b - 1] as int],
                            );
                        }
                    }
                } else if a == p {
                    assert(np[b] == old_perm[b - 1]);
                } else {
                    assert(np[a] == old_perm[a - 1] && np[b] == old_perm[b - 1]);
                }
            }
            assert forall|k: int| 0 <= k < np.len() implies #[trigger] np[k] < i + 1 by {
                if k < p {
                    assert(np[k] == old_perm[k]);
                } else if k > p {
                    assert(np[k] == old_perm[k - 1]);
                }
            }
            assert forall|a: int, b: int| 0 <= a < np.len() && 0 <= b < np.len() && a != b implies np[a]
                != np[b] by {
                if a != p && b != p {
                    let oa = if a < p { a } else { a - 1 };
                    let ob = if b < p { b } else { b - 1 };
                    assert(np[a] == old_perm[oa] && np[b] == old_perm[ob]);
                } else if a == p {
                    let ob = if b < p { b } else { b - 1 };
                    assert(np[b] == old_perm[ob]);
                } else {
                    let oa = if a < p { a } else { a - 1 };
                    assert(np[a] == old_perm[oa]);
                }
            }
        }
        i = i + 1;
    }
    perm
}

/// The key of a text: its characters as numbers, so that lexicographic order
/// of keys is the order of `str` comparison.
pub open spec fn text_key(s: Seq<char>) -> Seq<u64> {
    s.map_values(|c: char| c as u64)
}

/// The key of a text.
pub fn text_key_of(s: &str) -> (r: Vec<u64>)
    ensures
        r@ == text_key(s@),
{
    let v = crate::text::chars_of(s);
    let mut r: Vec<u64> = Vec::new();
    let mut i: usize = 0;
    while i < v.len()
        invariant
            v@ == s@,
            i <= v.len(),
            r@ =~= text_key(s@.subrange(0, i as int)),
        decreases v.len() - i,
    {
        r.push(v[i] as u64);
        assert(r@ =~= text_key(s@.subrange(0, i + 1)));
        i = i + 1;
    }
    assert(s@.subrange(0, v.len() as int) =~= s@);
    r
}

/// A value that can be copied exactly.
pub trait Duplicate: Sized {
    /// An exact copy.
    fn duplicate(&self) -> (r: Self)
        ensures
            r == *self,
    ;
}

/// `r` holds the items of `items` in the order of a stable sort by `keys`.
pub open spec fn arranged<T>(items: Seq<T>, keys: Seq<Seq<u64>>, r: Seq<T>) -> bool {
    exists|perm: Seq<usize>|
        #![trigger is_stable_order(keys, perm)]
        is_stable_order(keys, perm) && r.len() == perm.len() && forall|k: int|
            0 <= k < r.len() ==> r[k] == items[#[trigger] perm[k] as int]
}

/// The views of a list of keys.
pub open spec fn keys_view(keys: Seq<Vec<u64>>) -> Seq<Seq<u64>> {
    keys.map_values(|k: Vec<u64>| k@)
}

/// The items of `items` in the order of a stable sort by `keys` (one key per item).
pub fn sort_by_keys<T: Duplicate>(items: &Vec<T>, keys: &Vec<Vec<u64>>) -> (r: Vec<T>)
    requires
        keys.len() == items.len(),
    ensures
        arranged(items@, keys_view(keys@), r@),
{
    let perm = stable_order(keys);
    let mut r: Vec<T> = Vec::new();
    let mut k: usize = 0;
    while k < perm.len()
        invariant
            is_stable_order(keys_view(keys@), perm@),
            keys.len() == items.len(),
            k <= perm.len(),
            r@.len() == k,
            forall|j: int| 0 <= j < k ==> r@[j] == items@[#[trigger] perm@[j] as int],
        decreases perm.len() - k,
    {
        assert(perm@[k as int] < keys.len());
        r.push(items[perm[k]].duplicate());
        k = k + 1;
    }
    assert(is_stable_order(keys_view(keys@), perm@));
    r
}

} // verus!

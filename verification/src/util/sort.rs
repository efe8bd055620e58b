use vstd::prelude::*;

verus! {

/// Position `a` comes before position `b` when sorting by `keys`: by key,
/// ties kept in their given order; `descending` reverses that whole order
/// (larger keys first, ties in reverse given order).
pub open spec fn spec_before(keys: Seq<i128>, a: int, b: int, descending: bool) -> bool {
    if descending {
        keys[a] > keys[b] || (keys[a] == keys[b] && a > b)
    } else {
        keys[a] < keys[b] || (keys[a] == keys[b] && a < b)
    }
}

/// `p` lists each position `0..n` exactly once.
pub open spec fn spec_is_permutation(p: Seq<usize>, n: nat) -> bool {
    &&& p.len() == n
    &&& forall|i: int| 0 <= i < p.len() ==> #[trigger] p[i] < n
    &&& forall|i: int, j: int| 0 <= i < j < p.len() ==> #[trigger] p[i] != #[trigger] p[j]
}

/// `p` lists the positions in the order `spec_before` gives.
pub open spec fn spec_is_sorted_order(p: Seq<usize>, keys: Seq<i128>, descending: bool) -> bool {
    forall|i: int, j: int| 0 <= i < j < p.len() ==> spec_before(keys, #[trigger] p[i] as int, #[trigger] p[j] as int, descending)
}

/// `r` is `s` sorted by `keys` (one key per item of `s`), stably, and reversed
/// when `descending`.
pub open spec fn spec_is_sorted_by<T>(r: Seq<T>, s: Seq<T>, keys: Seq<i128>, descending: bool) -> bool {
    exists|p: Seq<usize>|
        spec_is_permutation(p, s.len()) && spec_is_sorted_order(p, keys, descending) && r.len() == s.len()
            && forall|i: int| 0 <= i < r.len() ==> #[trigger] r[i] == s[p[i] as int]
}

/// The positions `0..keys.len()` in sorted order.
pub fn stable_order(keys: &Vec<i128>, descending: bool) -> (p: Vec<usize>)
    ensures
        spec_is_permutation(p@, keys@.len()),
        spec_is_sorted_order(p@, keys@, descending),
{
    let mut p: Vec<usize> = Vec::new();
    let mut i: usize = 0;
    while i < keys.len()
        invariant
            i <= keys@.len(),
            spec_is_permutation(p@, i as nat),
            spec_is_sorted_order(p@, keys@, descending),
        decreases keys@.len() - i,
    {
        let mut pos: usize = 0;
        while pos < p.len()
            invariant
                pos <= p@.len(),
                p@.len() == i,
                i < keys@.len(),
                spec_is_permutation(p@, i as nat),
                spec_is_sorted_order(p@, keys@, descending),
                forall|m: int| 0 <= m < pos ==> spec_before(keys@, #[trigger] p@[m] as int, i as int, descending),
            ensures
                pos <= p@.len(),
                forall|m: int| 0 <= m < pos ==> spec_before(keys@, #[trigger] p@[m] as int, i as int, descending),
                pos < p@.len() ==> !spec_before(keys@, p@[pos as int] as int, i as int, descending),
            decreases p@.len() - pos,
        {
            let e = p[pos];
            let goes_first = if descending {
                keys[e] > keys[i]
            } else {
                keys[e] <= keys[i]
            };
            if !goes_first {
                break;
            }
            pos = pos + 1;
        }
        let ghost old_p = p@;
        proof {
            assert forall|m: int| pos <= m < old_p.len() implies !spec_before(keys@, #[trigger] old_p[m] as int, i as int, descending) by {
                if m > pos {
                    assert(spec_before(keys@, old_p[pos as int] as int, old_p[m] as int, descending));
                }
            }
        }
        p.insert(pos, i);
        proof {
            assert forall|a: int, b: int| 0 <= a < b < p@.len() implies spec_before(
                keys@,
                #[trigger] p@[a] as int,
                #[trigger] p@[b] as int,
                descending,
            ) by {
                if b < pos {
                    assert(p@[a] == old_p[a] && p@[b] == old_p[b]);
                } else if b == pos {
                    assert(p@[a] == old_p[a]);
                } else if a == pos {
                    assert(p@[b] == old_p[b - 1]);
                    assert(old_p[b - 1] < i);
                } else if a < pos {
                    assert(p@[a] == old_p[a] && p@[b] == old_p[b - 1]);
                } else {
                    assert(p@[a] == old_p[a - 1] && p@[b] == old_p[b - 1]);
                }
            }
            assert forall|a: int, b: int| 0 <= a < b < p@.len() implies #[trigger] p@[a] != #[trigger] p@[b] by {
                if a != pos && b != pos {
                    let oa = if a < pos { a } else { a - 1 };
                    let ob = if b < pos { b } else { b - 1 };
                    assert(p@[a] == old_p[oa] && p@[b] == old_p[ob]);
                } else if a == pos {
                    assert(p@[b] == old_p[b - 1]);
                } else {
                    assert(p@[a] == old_p[a]);
                }
            }
            assert forall|a: int| 0 <= a < p@.len() implies #[trigger] p@[a] < i + 1 by {
                if a < pos {
                    assert(p@[a] == old_p[a]);
                } else if a > pos {
                    assert(p@[a] == old_p[a - 1]);
                }
            }
        }
        i = i + 1;
    }
    p
}

/// The items of `items` in the order of the positions `p`.
pub fn apply_order<T>(items: Vec<T>, p: &Vec<usize>) -> (r: Vec<T>)
    requires
        spec_is_permutation(p@, items@.len()),
    ensures
        r@.len() == items@.len(),
        forall|i: int| 0 <= i < r@.len() ==> #[trigger] r@[i] == items@[p@[i] as int],
{
    let ghost all = items@;
    let mut items = items;
    let mut slots: Vec<Option<T>> = Vec::new();
    let ghost mut moved: int = 0;
    while items.len() > 0
        invariant
            0 <= moved <= all.len(),
            items@ == all.skip(moved),
            slots@.len() == moved,
            forall|j: int| 0 <= j < moved ==> #[trigger] slots@[j] == Some(all[j]),
        decreases items@.len(),
    {
        let x = items.remove(0);
        proof {
            assert(all[moved] == x);
        }
        slots.push(Some(x));
        proof {
            moved = moved + 1;
            assert(items@ =~= all.skip(moved));
        }
    }
    let mut r: Vec<T> = Vec::new();
    let mut i: usize = 0;
    while i < p.len()
        invariant
            moved == all.len(),
            spec_is_permutation(p@, all.len()),
            slots@.len() == all.len(),
            i <= p@.len(),
            r@.len() == i,
            forall|k: int| 0 <= k < i ==> #[trigger] r@[k] == all[p@[k] as int],
            forall|j: int|
                0 <= j < all.len() ==> (#[trigger] slots@[j] == Some(all[j]) || exists|k: int|
                    0 <= k < i && p@[k] == j),
            forall|k: int| i <= k < p@.len() ==> #[trigger] slots@[p@[k] as int] == Some(all[p@[k] as int]),
        decreases p@.len() - i,
    {
        let idx = p[i];
        let ghost old_slots = slots@;
        let slot = slots.remove(idx);
        slots.insert(idx, None);
        proof {
            assert(slot == Some(all[idx as int]));
            assert forall|k: int| i + 1 <= k < p@.len() implies #[trigger] slots@[p@[k] as int] == Some(all[p@[k] as int]) by {
                assert(p@[k] != p@[i as int]);
                assert(slots@[p@[k] as int] == old_slots[p@[k] as int]);
            }
            assert forall|j: int|
                0 <= j < all.len() implies (#[trigger] slots@[j] == Some(all[j]) || exists|k: int|
                    0 <= k < i + 1 && p@[k] == j) by {
                if j != idx {
                    assert(slots@[j] == old_slots[j]);
                } else {
                    assert(p@[i as int] == j);
                }
            }
        }
        match slot {
            Some(x) => r.push(x),
            None => {},
        }
        i = i + 1;
    }
    r
}

/// Sorts `items` by `keys` (see `spec_before`): a stable sort, reversed when
/// `descending`.
pub fn sort_by_keys<T>(items: Vec<T>, keys: &Vec<i128>, descending: bool) -> (r: Vec<T>)
    requires
        keys@.len() == items@.len(),
    ensures
        spec_is_sorted_by(r@, items@, keys@, descending),
{
    let p = stable_order(keys, descending);
    let r = apply_order(items, &p);
    assert(spec_is_permutation(p@, items@.len()) && spec_is_sorted_order(p@, keys@, descending) && r@.len() == items@.len()
        && forall|i: int| 0 <= i < r@.len() ==> #[trigger] r@[i] == items@[p@[i] as int]);
    r
}

/// When each item's key is `f` of the item, the sorted items have monotone
/// keys: non-increasing when `descending`, non-decreasing otherwise.
pub proof fn lemma_sorted_keys_monotone<T>(r: Seq<T>, s: Seq<T>, keys: Seq<i128>, f: spec_fn(T) -> i128, descending: bool)
    requires
        spec_is_sorted_by(r, s, keys, descending),
        keys.len() == s.len(),
        forall|k: int| 0 <= k < s.len() ==> keys[k] == f(#[trigger] s[k]),
    ensures
        forall|i: int, j: int|
            0 <= i < j < r.len() ==> if descending {
                f(#[trigger] r[i]) >= f(#[trigger] r[j])
            } else {
                f(r[i]) <= f(r[j])
            },
{
    let p = choose|p: Seq<usize>|
        spec_is_permutation(p, s.len()) && spec_is_sorted_order(p, keys, descending) && r.len() == s.len()
            && forall|i: int| 0 <= i < r.len() ==> #[trigger] r[i] == s[p[i] as int];
    assert forall|i: int, j: int| 0 <= i < j < r.len() implies if descending {
        f(#[trigger] r[i]) >= f(#[trigger] r[j])
    } else {
        f(r[i]) <= f(r[j])
    } by {
        assert(spec_before(keys, p[i] as int, p[j] as int, descending));
        assert(r[i] == s[p[i] as int] && r[j] == s[p[j] as int]);
        assert(keys[p[i] as int] == f(s[p[i] as int]));
        assert(keys[p[j] as int] == f(s[p[j] as int]));
    }
}

} // verus!

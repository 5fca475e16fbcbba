//! The order in which a table is listed: by a text key, ascending or
//! descending, rows of equal key in insertion order.

use vstd::prelude::*;
use crate::text::{le_text, lemma_bytes_le_total, lemma_bytes_le_transitive, text_le};
use vstd::utf8::encode_utf8;

verus! {

/// Whether a row of key `a` may be listed before a row of key `b`.
pub open spec fn in_order(a: Seq<char>, b: Seq<char>, descending: bool) -> bool {
    if descending {
        text_le(b, a)
    } else {
        text_le(a, b)
    }
}

/// Where a row of key `key` joins the rows already `placed`: behind the last
/// of them that may be listed before it.
pub open spec fn slot(keys: Seq<Seq<char>>, placed: Seq<int>, key: Seq<char>, descending: bool) -> int
    decreases placed.len(),
{
    if placed.len() == 0 {
        0
    } else if in_order(keys[placed.last()], key, descending) {
        placed.len() as int
    } else {
        slot(keys, placed.drop_last(), key, descending)
    }
}

/// The listing order of rows with the given keys: the indices of the rows,
/// sorted by key, rows of equal key in the order of their indices.
pub open spec fn listing_order(keys: Seq<Seq<char>>, descending: bool) -> Seq<int>
    decreases keys.len(),
{
    if keys.len() == 0 {
        Seq::empty()
    } else {
        let earlier = listing_order(keys.drop_last(), descending);
        earlier.insert(slot(keys, earlier, keys.last(), descending), keys.len() - 1)
    }
}

/// The rows picked out by `order`, in that order.
pub open spec fn arranged<T>(rows: Seq<T>, order: Seq<int>) -> Seq<T> {
    Seq::new(order.len(), |k: int| rows[order[k]])
}

/// The slot lies within the placed rows or right behind them.
pub proof fn lemma_slot_bounds(
    keys: Seq<Seq<char>>,
    placed: Seq<int>,
    key: Seq<char>,
    descending: bool,
)
    ensures
        0 <= slot(keys, placed, key, descending) <= placed.len(),
    decreases placed.len(),
{
    if placed.len() > 0 && !in_order(keys[placed.last()], key, descending) {
        lemma_slot_bounds(keys, placed.drop_last(), key, descending);
    }
}

/// The listing order names every row once: it has one entry per row, each
/// entry is a row's index, and no index occurs twice.
pub proof fn lemma_listing_order_permutes(keys: Seq<Seq<char>>, descending: bool)
    ensures
        listing_order(keys, descending).len() == keys.len(),
        forall|k: int|
            0 <= k < keys.len() ==> 0 <= #[trigger] listing_order(keys, descending)[k] < keys.len(),
        forall|k: int, m: int|
            0 <= k < m < keys.len() ==> #[trigger] listing_order(keys, descending)[k]
                != #[trigger] listing_order(keys, descending)[m],
        forall|i: int| 0 <= i < keys.len() ==> listing_order(keys, descending).contains(i),
    decreases keys.len(),
{
    let order = listing_order(keys, descending);
    if keys.len() > 0 {
        let front = keys.drop_last();
        let earlier = listing_order(front, descending);
        lemma_listing_order_permutes(front, descending);
        let at = slot(keys, earlier, keys.last(), descending);
        lemma_slot_bounds(keys, earlier, keys.last(), descending);
        assert(order == earlier.insert(at, keys.len() - 1));
        assert forall|i: int| 0 <= i < keys.len() implies order.contains(i) by {
            if i == keys.len() - 1 {
                assert(order[at] == i);
            } else {
                assert(earlier.contains(i));
                let k = choose|k: int| 0 <= k < earlier.len() && earlier[k] == i;
                if k < at {
                    assert(order[k] == i);
                } else {
                    assert(order[k + 1] == i);
                }
            }
        }
    }
}

/// The listing order is sorted: of two entries the earlier one names a row
/// that may be listed before the row of the later one.
pub proof fn lemma_listing_order_sorted(keys: Seq<Seq<char>>, descending: bool)
    ensures
        forall|k: int, m: int|
            0 <= k < m < listing_order(keys, descending).len() ==> in_order(
                keys[#[trigger] listing_order(keys, descending)[k]],
                keys[#[trigger] listing_order(keys, descending)[m]],
                descending,
            ),
    decreases keys.len(),
{
    let order = listing_order(keys, descending);
    if keys.len() > 0 {
        let front = keys.drop_last();
        let earlier = listing_order(front, descending);
        lemma_listing_order_sorted(front, descending);
        lemma_listing_order_permutes(front, descending);
        let key = keys.last();
        let at = slot(keys, earlier, key, descending);
        lemma_slot_bounds(keys, earlier, key, descending);
        assert forall|k: int, m: int| 0 <= k < m < earlier.len() implies in_order(
            keys[#[trigger] earlier[k]],
            keys[#[trigger] earlier[m]],
            descending,
        ) by {
            assert(front[earlier[k]] == keys[earlier[k]]);
            assert(front[earlier[m]] == keys[earlier[m]]);
        }
        lemma_slot_splits(keys, earlier, key, descending);
        assert forall|k: int, m: int| 0 <= k < m < order.len() implies in_order(
            keys[#[trigger] order[k]],
            keys[#[trigger] order[m]],
            descending,
        ) by {
            if m < at {
                assert(order[k] == earlier[k] && order[m] == earlier[m]);
            } else if m == at {
                assert(order[k] == earlier[k]);
            } else if k < at {
                assert(order[k] == earlier[k] && order[m] == earlier[m - 1]);
            } else if k == at {
                assert(order[m] == earlier[m - 1]);
            } else {
                assert(order[k] == earlier[k - 1] && order[m] == earlier[m - 1]);
            }
        }
    }
}

/// Among rows that are sorted, those before the slot may be listed before the
/// new row, and the new row strictly before those from the slot on.
pub proof fn lemma_slot_splits(
    keys: Seq<Seq<char>>,
    placed: Seq<int>,
    key: Seq<char>,
    descending: bool,
)
    requires
        forall|k: int, m: int|
            0 <= k < m < placed.len() ==> in_order(
                keys[#[trigger] placed[k]],
                keys[#[trigger] placed[m]],
                descending,
            ),
    ensures
        forall|k: int|
            0 <= k < slot(keys, placed, key, descending) ==> in_order(
                keys[#[trigger] placed[k]],
                key,
                descending,
            ),
        forall|k: int|
            slot(keys, placed, key, descending) <= k < placed.len() ==> in_order(
                key,
                keys[#[trigger] placed[k]],
                descending,
            ) && !in_order(keys[placed[k]], key, descending),
    decreases placed.len(),
{
    let at = slot(keys, placed, key, descending);
    lemma_slot_bounds(keys, placed, key, descending);
    if placed.len() > 0 {
        let last = placed.last();
        if in_order(keys[last], key, descending) {
            assert forall|k: int| 0 <= k < at implies in_order(
                keys[#[trigger] placed[k]],
                key,
                descending,
            ) by {
                if k < placed.len() - 1 {
                    assert(in_order(keys[placed[k]], keys[placed[placed.len() - 1]], descending));
                    lemma_in_order_transitive(keys[placed[k]], keys[last], key, descending);
                }
            }
        } else {
            let front = placed.drop_last();
            assert forall|k: int, m: int| 0 <= k < m < front.len() implies in_order(
                keys[#[trigger] front[k]],
                keys[#[trigger] front[m]],
                descending,
            ) by {
                assert(front[k] == placed[k] && front[m] == placed[m]);
            }
            lemma_slot_splits(keys, front, key, descending);
            lemma_in_order_total(keys[last], key, descending);
            assert forall|k: int| 0 <= k < at implies in_order(
                keys[#[trigger] placed[k]],
                key,
                descending,
            ) by {
                assert(front[k] == placed[k]);
            }
            assert forall|k: int| at <= k < placed.len() implies in_order(
                key,
                keys[#[trigger] placed[k]],
                descending,
            ) && !in_order(keys[placed[k]], key, descending) by {
                if k < placed.len() - 1 {
                    assert(front[k] == placed[k]);
                }
            }
        }
    }
}

/// Rows of equal key keep their order: of two entries whose keys may each be
/// listed before the other, the earlier entry names the earlier row.
pub proof fn lemma_listing_order_stable(keys: Seq<Seq<char>>, descending: bool)
    ensures
        forall|k: int, m: int|
            0 <= k < m < listing_order(keys, descending).len() && in_order(
                keys[#[trigger] listing_order(keys, descending)[m]],
                keys[#[trigger] listing_order(keys, descending)[k]],
                descending,
            ) ==> listing_order(keys, descending)[k] < listing_order(keys, descending)[m],
    decreases keys.len(),
{
    let order = listing_order(keys, descending);
    if keys.len() > 0 {
        let front = keys.drop_last();
        let earlier = listing_order(front, descending);
        lemma_listing_order_stable(front, descending);
        lemma_listing_order_sorted(front, descending);
        lemma_listing_order_permutes(front, descending);
        let key = keys.last();
        let at = slot(keys, earlier, key, descending);
        lemma_slot_bounds(keys, earlier, key, descending);
        assert forall|k: int, m: int| 0 <= k < m < earlier.len() implies in_order(
            keys[#[trigger] earlier[k]],
            keys[#[trigger] earlier[m]],
            descending,
        ) by {
            assert(front[earlier[k]] == keys[earlier[k]]);
            assert(front[earlier[m]] == keys[earlier[m]]);
        }
        lemma_slot_splits(keys, earlier, key, descending);
        assert forall|k: int, m: int|
            0 <= k < m < order.len() && in_order(
                keys[#[trigger] order[m]],
                keys[#[trigger] order[k]],
                descending,
            ) implies order[k] < order[m] by {
            if m == at {
                assert(order[k] == earlier[k]);
            } else if k == at {
                assert(order[m] == earlier[m - 1]);
                assert(!in_order(keys[earlier[m - 1]], key, descending));
            } else {
                let a = if k < at {
                    k
                } else {
                    k - 1
                };
                let b = if m < at {
                    m
                } else {
                    m - 1
                };
                assert(order[k] == earlier[a] && order[m] == earlier[b]);
                assert(front[earlier[a]] == keys[earlier[a]]);
                assert(front[earlier[b]] == keys[earlier[b]]);
            }
        }
    }
}

/// Of two keys one may be listed before the other.
pub proof fn lemma_in_order_total(a: Seq<char>, b: Seq<char>, descending: bool)
    ensures
        in_order(a, b, descending) || in_order(b, a, descending),
{
    lemma_bytes_le_total(encode_utf8(a), encode_utf8(b));
}

/// "May be listed before" is transitive.
pub proof fn lemma_in_order_transitive(a: Seq<char>, b: Seq<char>, c: Seq<char>, descending: bool)
    requires
        in_order(a, b, descending),
        in_order(b, c, descending),
    ensures
        in_order(a, c, descending),
{
    if descending {
        lemma_bytes_le_transitive(encode_utf8(c), encode_utf8(b), encode_utf8(a));
    } else {
        lemma_bytes_le_transitive(encode_utf8(a), encode_utf8(b), encode_utf8(c));
    }
}

/// Computes the listing order of rows with the given keys.
pub fn order_of(keys: &Vec<String>, descending: bool) -> (order: Vec<usize>)
    ensures
        order@.len() == keys@.len(),
        order@.map_values(|i: usize| i as int) == listing_order(keys.deep_view(), descending),
        forall|k: int| 0 <= k < order@.len() ==> #[trigger] order@[k] < keys@.len(),
{
    let ghost all = keys.deep_view();
    let mut order: Vec<usize> = Vec::new();
    let mut n: usize = 0;
    assert(all.take(0) =~= Seq::empty());
    assert(order@.map_values(|i: usize| i as int) =~= listing_order(all.take(0), descending));
    while n < keys.len()
        invariant
            n <= keys.len(),
            all == keys.deep_view(),
            order@.len() == n,
            order@.map_values(|i: usize| i as int) == listing_order(all.take(n as int), descending),
            forall|k: int| 0 <= k < order@.len() ==> #[trigger] order@[k] < n,
        decreases keys.len() - n,
    {
        let ghost seen = all.take(n + 1);
        let ghost placed = order@.map_values(|i: usize| i as int);
        assert(seen.drop_last() =~= all.take(n as int));
        assert(seen.last() == keys[n as int]@);
        let mut at: usize = order.len();
        assert(placed.take(at as int) =~= placed);
        while at > 0 && !le_either(keys[order[at - 1]].as_str(), keys[n].as_str(), descending)
            invariant
                at <= order.len(),
                n < keys.len(),
                all == keys.deep_view(),
                seen == all.take(n + 1),
                placed == order@.map_values(|i: usize| i as int),
                forall|k: int| 0 <= k < order@.len() ==> #[trigger] order@[k] < n,
                slot(seen, placed, keys[n as int]@, descending) == slot(
                    seen,
                    placed.take(at as int),
                    keys[n as int]@,
                    descending,
                ),
            decreases at,
        {
            assert(placed.take(at as int).drop_last() =~= placed.take(at - 1));
            assert(placed.take(at as int).last() == order@[at - 1] as int);
            assert(seen[order@[at - 1] as int] == keys[order@[at - 1] as int]@);
            at = at - 1;
        }
        proof {
            assert(placed.take(order@.len() as int) =~= placed);
            if at > 0 {
                assert(placed.take(at as int).last() == order@[at - 1] as int);
                assert(seen[order@[at - 1] as int] == keys[order@[at - 1] as int]@);
            }
            assert(slot(seen, placed, keys[n as int]@, descending) == at);
        }
        order.insert(at, n);
        n = n + 1;
        assert(order@.map_values(|i: usize| i as int) =~= placed.insert(at as int, n - 1));
    }
    assert(all.take(n as int) =~= all);
    order
}

/// Decides `in_order`.
pub fn le_either(a: &str, b: &str, descending: bool) -> (le: bool)
    ensures
        le == in_order(a@, b@, descending),
{
    if descending {
        le_text(b, a)
    } else {
        le_text(a, b)
    }
}

} // verus!

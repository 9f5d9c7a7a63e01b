//! Putting rows in the order of a text column. Rows with equal columns keep the order in which
//! they were inserted; an empty column comes before every text.

use vstd::prelude::*;
use vstd::string::*;
use crate::text::{lemma_bytes_le_reflexive, lemma_bytes_le_total, lemma_bytes_le_transitive, text_at_most, text_le, Text};
use vstd::utf8::encode_utf8;

verus! {

/// `a` comes no later than `b`; an empty column comes first.
pub open spec fn column_le(a: Option<Text>, b: Option<Text>) -> bool {
    match (a, b) {
        (None, _) => true,
        (Some(_), None) => false,
        (Some(x), Some(y)) => text_le(x, y),
    }
}

/// `a` may stand before `b`, in rising or in falling order.
pub open spec fn in_order(a: Option<Text>, b: Option<Text>, falling: bool) -> bool {
    if falling {
        column_le(b, a)
    } else {
        column_le(a, b)
    }
}

/// `order` with `i` put in behind every place that may stand before it.
pub open spec fn placed(order: Seq<int>, keys: Seq<Option<Text>>, i: int, falling: bool) -> Seq<int>
    decreases order.len(),
{
    if order.len() == 0 {
        seq![i]
    } else if in_order(keys[order.last()], keys[i], falling) {
        order.push(i)
    } else {
        placed(order.drop_last(), keys, i, falling).push(order.last())
    }
}

/// The places of the first `n` keys, in order.
pub open spec fn ordered(keys: Seq<Option<Text>>, n: nat, falling: bool) -> Seq<int>
    decreases n,
{
    if n == 0 {
        Seq::empty()
    } else {
        placed(ordered(keys, (n - 1) as nat, falling), keys, n - 1, falling)
    }
}

/// The elements of `items` at the places that `order` lists.
pub open spec fn arranged<A>(items: Seq<A>, order: Seq<int>) -> Seq<A> {
    order.map_values(|i: int| items[i])
}

proof fn lemma_placed(order: Seq<int>, keys: Seq<Option<Text>>, i: int, falling: bool, p: int)
    requires
        0 <= p <= order.len(),
        forall|q: int| p <= q < order.len() ==> !in_order(keys[#[trigger] order[q]], keys[i], falling),
        p > 0 ==> in_order(keys[order[p - 1]], keys[i], falling),
    ensures
        placed(order, keys, i, falling) == order.insert(p, i),
    decreases order.len(),
{
    if order.len() == 0 {
        assert(order.insert(p, i) =~= seq![i]);
    } else if p == order.len() {
        assert(order.insert(p, i) =~= order.push(i));
    } else {
        assert(!in_order(keys[order[order.len() - 1]], keys[i], falling));
        let front = order.drop_last();
        assert forall|q: int| p <= q < front.len() implies !in_order(
            keys[#[trigger] front[q]],
            keys[i],
            falling,
        ) by {
            assert(front[q] == order[q]);
        }
        lemma_placed(front, keys, i, falling, p);
        assert(front.insert(p, i).push(order.last()) =~= order.insert(p, i));
    }
}

/// Two columns, compared.
fn column_at_most(a: &Option<String>, b: &Option<String>) -> (r: bool)
    ensures
        r == column_le(a.deep_view(), b.deep_view()),
{
    match (a, b) {
        (None, _) => true,
        (Some(_), None) => false,
        (Some(x), Some(y)) => text_at_most(x.as_str(), y.as_str()),
    }
}

/// The places of `keys` in order.
pub fn sort_order(keys: &Vec<Option<String>>, falling: bool) -> (r: Vec<usize>)
    ensures
        r@.map_values(|i: usize| i as int) == ordered(
            keys.deep_view(),
            keys@.len() as nat,
            falling,
        ),
        forall|i: int| 0 <= i < r@.len() ==> (#[trigger] r@[i]) < keys@.len(),
{
    let ghost all = keys.deep_view();
    let mut out: Vec<usize> = Vec::new();
    let mut i: usize = 0;
    proof {
        assert(out@.map_values(|i: usize| i as int) =~= Seq::empty());
    }
    while i < keys.len()
        invariant
            i <= keys@.len(),
            all == keys.deep_view(),
            out@.map_values(|i: usize| i as int) == ordered(all, i as nat, falling),
            forall|k: int| 0 <= k < out@.len() ==> (#[trigger] out@[k]) < i,
        decreases keys@.len() - i,
    {
        let ghost before = out@.map_values(|i: usize| i as int);
        let mut p: usize = out.len();
        let mut searching: bool = true;
        while searching
            invariant
                p <= out@.len(),
                i < keys@.len(),
                all == keys.deep_view(),
                before == out@.map_values(|i: usize| i as int),
                forall|k: int| 0 <= k < out@.len() ==> (#[trigger] out@[k]) < i,
                forall|q: int|
                    p <= q < before.len() ==> !in_order(
                        all[#[trigger] before[q]],
                        all[i as int],
                        falling,
                    ),
                !searching && p > 0 ==> in_order(all[before[p - 1]], all[i as int], falling),
            decreases p + (if searching { 1int } else { 0int }),
        {
            if p == 0 {
                searching = false;
            } else {
                let at: usize = out[p - 1];
                let fits: bool = if falling {
                    column_at_most(&keys[i], &keys[at])
                } else {
                    column_at_most(&keys[at], &keys[i])
                };
                proof {
                    assert(before[p - 1] == at as int);
                }
                if fits {
                    searching = false;
                } else {
                    p -= 1;
                }
            }
        }
        proof {
            lemma_placed(before, all, i as int, falling, p as int);
        }
        out.insert(p, i);
        proof {
            assert(out@.map_values(|i: usize| i as int) =~= before.insert(p as int, i as int));
        }
        i += 1;
    }
    out
}

// ---- what the order is ----------------------------------------------------------------------

pub proof fn lemma_column_order(a: Option<Text>, b: Option<Text>, c: Option<Text>)
    ensures
        column_le(a, a),
        column_le(a, b) || column_le(b, a),
        column_le(a, b) && column_le(b, c) ==> column_le(a, c),
{
    if let Some(x) = a {
        lemma_bytes_le_reflexive(encode_utf8(x));
        if let Some(y) = b {
            lemma_bytes_le_total(encode_utf8(x), encode_utf8(y));
            if let Some(z) = c {
                if text_le(x, y) && text_le(y, z) {
                    lemma_bytes_le_transitive(encode_utf8(x), encode_utf8(y), encode_utf8(z));
                }
            }
        }
    }
}

/// `order` lists places below `n`, each in its turn: in order, and among equals the lower first.
pub open spec fn well_ordered(order: Seq<int>, keys: Seq<Option<Text>>, n: int, falling: bool) -> bool {
    &&& order.len() == n
    &&& forall|p: int| 0 <= p < n ==> 0 <= #[trigger] order[p] < n
    &&& forall|i: int| 0 <= i < n ==> #[trigger] order.contains(i)
    &&& forall|p: int, q: int|
        0 <= p < q < n ==> {
            &&& in_order(keys[#[trigger] order[p]], keys[#[trigger] order[q]], falling)
            &&& order[p] != order[q]
            &&& in_order(keys[order[q]], keys[order[p]], falling) ==> order[p] < order[q]
        }
}

/// Every place is listed once, in order, and among rows with equal columns the one that was
/// inserted first comes first.
pub proof fn law_ordered(keys: Seq<Option<Text>>, n: nat, falling: bool)
    requires
        n <= keys.len(),
    ensures
        well_ordered(ordered(keys, n, falling), keys, n as int, falling),
    decreases n,
{
    if n > 0 {
        let before = ordered(keys, (n - 1) as nat, falling);
        law_ordered(keys, (n - 1) as nat, falling);
        let i = n - 1;
        let p = lemma_place(before, keys, i, falling);
        let after = before.insert(p, i);
        assert forall|k: int| 0 <= k < n implies #[trigger] after.contains(k) by {
            if k == i {
                assert(after[p] == i);
            } else {
                assert(before.contains(k));
                let q = choose|q: int| 0 <= q < before.len() && before[q] == k;
                if q < p {
                    assert(after[q] == k);
                } else {
                    assert(after[q + 1] == k);
                }
            }
        }
        assert forall|a: int, b: int| 0 <= a < b < n implies {
            &&& in_order(keys[#[trigger] after[a]], keys[#[trigger] after[b]], falling)
            &&& after[a] != after[b]
            &&& in_order(keys[after[b]], keys[after[a]], falling) ==> after[a] < after[b]
        } by {
            let x = if a < p { before[a] } else if a == p { i } else { before[a - 1] };
            let y = if b < p { before[b] } else if b == p { i } else { before[b - 1] };
            assert(after[a] == x && after[b] == y);
            if b == p {
                if a < p - 1 {
                    assert(in_order(keys[before[a]], keys[before[p - 1]], falling));
                }
                lemma_column_order(keys[x], keys[before[p - 1]], keys[i]);
                lemma_column_order(keys[i], keys[before[p - 1]], keys[x]);
            } else if a == p {
                assert(!in_order(keys[before[b - 1]], keys[i], falling));
                lemma_column_order(keys[before[b - 1]], keys[i], keys[i]);
            }
        }
    }
}

/// Where `placed` puts `i`.
proof fn lemma_place(order: Seq<int>, keys: Seq<Option<Text>>, i: int, falling: bool) -> (p: int)
    requires
        forall|a: int, b: int|
            0 <= a < b < order.len() ==> in_order(
                keys[#[trigger] order[a]],
                keys[#[trigger] order[b]],
                falling,
            ),
    ensures
        0 <= p <= order.len(),
        placed(order, keys, i, falling) == order.insert(p, i),
        forall|q: int| p <= q < order.len() ==> !in_order(keys[#[trigger] order[q]], keys[i], falling),
        p > 0 ==> in_order(keys[order[p - 1]], keys[i], falling),
    decreases order.len(),
{
    if order.len() == 0 {
        lemma_placed(order, keys, i, falling, 0);
        0
    } else if in_order(keys[order.last()], keys[i], falling) {
        lemma_placed(order, keys, i, falling, order.len() as int);
        order.len() as int
    } else {
        let front = order.drop_last();
        assert forall|a: int, b: int| 0 <= a < b < front.len() implies in_order(
            keys[#[trigger] front[a]],
            keys[#[trigger] front[b]],
            falling,
        ) by {
            assert(front[a] == order[a] && front[b] == order[b]);
        }
        let p = lemma_place(front, keys, i, falling);
        assert forall|q: int| p <= q < order.len() implies !in_order(
            keys[#[trigger] order[q]],
            keys[i],
            falling,
        ) by {
            if q < front.len() {
                assert(front[q] == order[q]);
            }
        }
        if p > 0 {
            assert(front[p - 1] == order[p - 1]);
        }
        lemma_placed(order, keys, i, falling, p);
        p
    }
}

// ---- picking and arranging -------------------------------------------------------------------

/// What a filter keeps was there and passes its test; what passes the test is kept.
pub proof fn lemma_filter<A>(rows: Seq<A>, test: spec_fn(A) -> bool)
    ensures
        forall|p: int|
            0 <= p < rows.filter(test).len() ==> rows.contains(#[trigger] rows.filter(test)[p])
                && test(rows.filter(test)[p]),
        forall|k: int|
            0 <= k < rows.len() && test(#[trigger] rows[k]) ==> rows.filter(test).contains(
                rows[k],
            ),
    decreases rows.len(),
{
    reveal(Seq::filter);
    if rows.len() > 0 {
        let front = rows.drop_last();
        let kept = front.filter(test);
        let all = rows.filter(test);
        lemma_filter(front, test);
        assert forall|p: int| 0 <= p < all.len() implies rows.contains(#[trigger] all[p]) && test(
            all[p],
        ) by {
            if p < kept.len() {
                assert(front.contains(kept[p]));
                let k = choose|k: int| 0 <= k < front.len() && front[k] == kept[p];
                assert(rows[k] == all[p]);
            } else {
                assert(rows[rows.len() - 1] == all[p]);
            }
        }
        assert forall|k: int| 0 <= k < rows.len() && test(#[trigger] rows[k]) implies all.contains(
            rows[k],
        ) by {
            if k < front.len() {
                assert(front[k] == rows[k]);
                assert(kept.contains(front[k]));
                let p = choose|p: int| 0 <= p < kept.len() && kept[p] == rows[k];
                assert(all[p] == rows[k]);
            } else {
                assert(all[kept.len() as int] == rows[k]);
            }
        }
    }
}

/// What is put in order is there before and after.
pub proof fn lemma_arranged<A>(items: Seq<A>, keys: Seq<Option<Text>>, falling: bool)
    requires
        keys.len() == items.len(),
    ensures
        arranged(items, ordered(keys, keys.len(), falling)).len() == items.len(),
        forall|x: A| #[trigger]
            arranged(items, ordered(keys, keys.len(), falling)).contains(x) <==> items.contains(x),
{
    law_ordered(keys, keys.len(), falling);
    let order = ordered(keys, keys.len(), falling);
    let after = arranged(items, order);
    assert forall|x: A| #[trigger] after.contains(x) <==> items.contains(x) by {
        if after.contains(x) {
            let p = choose|p: int| 0 <= p < after.len() && after[p] == x;
            assert(items[order[p]] == x);
        }
        if items.contains(x) {
            let i = choose|i: int| 0 <= i < items.len() && items[i] == x;
            assert(order.contains(i));
            let p = choose|p: int| 0 <= p < order.len() && order[p] == i;
            assert(after[p] == x);
        }
    }
}

} // verus!

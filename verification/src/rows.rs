//! Facts about sequences of rows: rows told apart by a key, and what
//! filtering keeps.

use vstd::prelude::*;

verus! {

/// No two rows of `s` have the same key.
pub open spec fn distinct_by<A, K>(s: Seq<A>, key: spec_fn(A) -> K) -> bool {
    forall|i: int, j: int| 0 <= i < j < s.len() ==> key(#[trigger] s[i]) != key(#[trigger] s[j])
}

/// A filter that every row passes changes nothing.
pub proof fn lemma_filter_all<A>(s: Seq<A>, pred: spec_fn(A) -> bool)
    requires
        forall|i: int| 0 <= i < s.len() ==> pred(#[trigger] s[i]),
    ensures
        s.filter(pred) == s,
    decreases s.len(),
{
    reveal(Seq::filter);
    if s.len() > 0 {
        lemma_filter_all(s.drop_last(), pred);
        assert(s.drop_last().push(s.last()) =~= s);
    }
}

/// What a filter keeps are the rows that pass it, and no others.
pub proof fn lemma_filter_members<A>(s: Seq<A>, pred: spec_fn(A) -> bool)
    ensures
        forall|x: A| #[trigger] s.filter(pred).contains(x) <==> s.contains(x) && pred(x),
{
    assert forall|x: A| #[trigger] s.filter(pred).contains(x) <==> s.contains(x) && pred(x) by {
        let f = s.filter(pred);
        if f.contains(x) {
            s.lemma_filter_contains_rev(pred, x);
            let k = choose|k: int| 0 <= k < f.len() && f[k] == x;
            s.lemma_filter_pred(pred, k);
        }
        if s.contains(x) && pred(x) {
            let k = choose|k: int| 0 <= k < s.len() && s[k] == x;
            s.lemma_filter_contains(pred, k);
        }
    }
}

/// Filtering rows that are told apart by a key leaves rows that are told
/// apart by it.
pub proof fn lemma_filter_keeps_distinct<A, K>(
    s: Seq<A>,
    key: spec_fn(A) -> K,
    pred: spec_fn(A) -> bool,
)
    requires
        distinct_by(s, key),
    ensures
        distinct_by(s.filter(pred), key),
    decreases s.len(),
{
    reveal(Seq::filter);
    if s.len() > 0 {
        let rest = s.drop_last();
        let kept = rest.filter(pred);
        assert forall|i: int, j: int| 0 <= i < j < rest.len() implies key(#[trigger] rest[i]) != key(
            #[trigger] rest[j],
        ) by {
            assert(rest[i] == s[i] && rest[j] == s[j]);
        }
        lemma_filter_keeps_distinct(rest, key, pred);
        if pred(s.last()) {
            let out = kept.push(s.last());
            assert forall|i: int, j: int| 0 <= i < j < out.len() implies key(#[trigger] out[i])
                != key(#[trigger] out[j]) by {
                if j < kept.len() {
                    assert(out[i] == kept[i] && out[j] == kept[j]);
                } else {
                    assert(kept.contains(kept[i]));
                    rest.lemma_filter_contains_rev(pred, kept[i]);
                    let k = choose|k: int| 0 <= k < rest.len() && rest[k] == kept[i];
                    assert(s[k] == kept[i]);
                    assert(s[s.len() - 1] == out[j]);
                }
            }
        }
    }
}

/// Each row of `s` stands before every later row of `s`.
pub open spec fn strictly_sorted<A>(s: Seq<A>, before: spec_fn(A, A) -> bool) -> bool {
    forall|i: int, j: int| 0 <= i < j < s.len() ==> before(#[trigger] s[i], #[trigger] s[j])
}

/// No row stands before itself, and no two rows stand before each other.
pub open spec fn asymmetric<A>(before: spec_fn(A, A) -> bool) -> bool {
    forall|x: A, y: A| !(#[trigger] before(x, y) && before(y, x))
}

/// There is only one way to put given rows in strict order: two strictly
/// sorted sequences with the same members are the same sequence.
pub proof fn lemma_sorted_same_members<A>(a: Seq<A>, b: Seq<A>, before: spec_fn(A, A) -> bool)
    requires
        asymmetric(before),
        strictly_sorted(a, before),
        strictly_sorted(b, before),
        forall|x: A| a.contains(x) <==> b.contains(x),
    ensures
        a == b,
    decreases a.len(),
{
    if a.len() == 0 {
        if b.len() > 0 {
            assert(b.contains(b[0]));
        }
        assert(a =~= b);
    } else {
        assert(a.contains(a[0]));
        assert(b.contains(a[0]));
        assert(b.contains(b[0]));
        assert(a.contains(b[0]));
        let j = choose|j: int| 0 <= j < b.len() && b[j] == a[0];
        let i = choose|i: int| 0 <= i < a.len() && a[i] == b[0];
        if j > 0 && i > 0 {
            assert(before(b[0], b[j]));
            assert(before(a[0], a[i]));
        }
        assert(a[0] == b[0]);
        let ta = a.drop_first();
        let tb = b.drop_first();
        assert forall|p: int, q: int| 0 <= p < q < ta.len() implies before(
            #[trigger] ta[p],
            #[trigger] ta[q],
        ) by {
            assert(ta[p] == a[p + 1] && ta[q] == a[q + 1]);
        }
        assert forall|p: int, q: int| 0 <= p < q < tb.len() implies before(
            #[trigger] tb[p],
            #[trigger] tb[q],
        ) by {
            assert(tb[p] == b[p + 1] && tb[q] == b[q + 1]);
        }
        assert forall|x: A| ta.contains(x) <==> tb.contains(x) by {
            if ta.contains(x) {
                let k = choose|k: int| 0 <= k < ta.len() && ta[k] == x;
                assert(a[k + 1] == x);
                assert(a.contains(x));
                assert(b.contains(x));
                let m = choose|m: int| 0 <= m < b.len() && b[m] == x;
                if m == 0 {
                    assert(before(a[0], a[k + 1]));
                }
                assert(tb[m - 1] == x);
            }
            if tb.contains(x) {
                let k = choose|k: int| 0 <= k < tb.len() && tb[k] == x;
                assert(b[k + 1] == x);
                assert(b.contains(x));
                assert(a.contains(x));
                let m = choose|m: int| 0 <= m < a.len() && a[m] == x;
                if m == 0 {
                    assert(before(b[0], b[k + 1]));
                }
                assert(ta[m - 1] == x);
            }
        }
        lemma_sorted_same_members(ta, tb, before);
        assert(a =~= b) by {
            assert(a.len() == b.len());
            assert forall|k: int| 0 <= k < a.len() implies a[k] == b[k] by {
                if k > 0 {
                    assert(ta[k - 1] == a[k]);
                    assert(tb[k - 1] == b[k]);
                }
            }
        }
    }
}

/// The order is transitive.
pub open spec fn transitive<A>(before: spec_fn(A, A) -> bool) -> bool {
    forall|x: A, y: A, z: A| #[trigger] before(x, y) && #[trigger] before(y, z) ==> before(x, z)
}

/// Of two rows at different places of `rows`, one stands before the other.
pub open spec fn ordered_pairwise<A>(rows: Seq<A>, before: spec_fn(A, A) -> bool) -> bool {
    forall|i: int, j: int|
        0 <= i < j < rows.len() ==> before(#[trigger] rows[i], #[trigger] rows[j]) || before(
            rows[j],
            rows[i],
        )
}

proof fn lemma_place_for<A>(sorted: Seq<A>, row: A, before: spec_fn(A, A) -> bool, from: int) -> (place:
    int)
    requires
        0 <= from <= sorted.len(),
        forall|i: int| 0 <= i < from ==> !before(row, #[trigger] sorted[i]),
    ensures
        from <= place <= sorted.len(),
        forall|i: int| 0 <= i < place ==> !before(row, #[trigger] sorted[i]),
        place < sorted.len() ==> before(row, sorted[place]),
    decreases sorted.len() - from,
{
    if from == sorted.len() || before(row, sorted[from]) {
        from
    } else {
        lemma_place_for(sorted, row, before, from + 1)
    }
}

/// Whatever rows are wanted, they can be put in strict order: there is a
/// strictly sorted sequence that holds the wanted rows of `rows` and no
/// others.
pub proof fn lemma_sorted_selection_exists<A>(
    rows: Seq<A>,
    before: spec_fn(A, A) -> bool,
    wanted: spec_fn(A) -> bool,
) -> (out: Seq<A>)
    requires
        asymmetric(before),
        transitive(before),
        ordered_pairwise(rows, before),
    ensures
        strictly_sorted(out, before),
        forall|x: A| #[trigger] out.contains(x) <==> rows.contains(x) && wanted(x),
    decreases rows.len(),
{
    if rows.len() == 0 {
        let out = Seq::<A>::empty();
        assert forall|x: A| #[trigger] out.contains(x) <==> rows.contains(x) && wanted(x) by {}
        out
    } else {
        let rest = rows.drop_last();
        let last = rows.last();
        assert forall|i: int, j: int| 0 <= i < j < rest.len() implies before(
            #[trigger] rest[i],
            #[trigger] rest[j],
        ) || before(rest[j], rest[i]) by {
            assert(rest[i] == rows[i] && rest[j] == rows[j]);
        }
        let sorted = lemma_sorted_selection_exists(rest, before, wanted);
        assert forall|x: A| rows.contains(x) <==> rest.contains(x) || x == last by {
            if rows.contains(x) {
                let k = choose|k: int| 0 <= k < rows.len() && rows[k] == x;
                if k < rest.len() {
                    assert(rest[k] == x);
                }
            }
            if rest.contains(x) {
                let k = choose|k: int| 0 <= k < rest.len() && rest[k] == x;
                assert(rows[k] == x);
            }
            if x == last {
                assert(rows[rows.len() - 1] == x);
            }
        }
        if !wanted(last) {
            sorted
        } else {
            let place = lemma_place_for(sorted, last, before, 0);
            let out = sorted.insert(place, last);
            sorted.insert_ensures(place, last);
            assert forall|i: int| 0 <= i < sorted.len() implies before(#[trigger] sorted[i], last)
                || before(last, sorted[i]) by {
                assert(sorted.contains(sorted[i]));
                assert(rest.contains(sorted[i]));
                let k = choose|k: int| 0 <= k < rest.len() && rest[k] == sorted[i];
                assert(rows[k] == sorted[i]);
                assert(rows[rows.len() - 1] == last);
            }
            assert forall|a: int, b: int| 0 <= a < b < out.len() implies before(
                #[trigger] out[a],
                #[trigger] out[b],
            ) by {
                if b < place {
                    assert(out[a] == sorted[a] && out[b] == sorted[b]);
                } else if b == place {
                    assert(out[a] == sorted[a]);
                } else if a < place {
                    assert(out[a] == sorted[a]);
                    assert(out[b] == sorted[b - 1]);
                } else if a == place {
                    assert(out[b] == sorted[b - 1]);
                    if b - 1 > place {
                        assert(before(sorted[place], sorted[b - 1]));
                    }
                } else {
                    assert(out[a] == sorted[a - 1]);
                    assert(out[b] == sorted[b - 1]);
                }
            }
            assert forall|x: A| #[trigger] out.contains(x) <==> rows.contains(x) && wanted(
                x,
            ) by {
                if out.contains(x) {
                    let k = choose|k: int| 0 <= k < out.len() && out[k] == x;
                    if k < place {
                        assert(sorted[k] == x);
                        assert(sorted.contains(x));
                    } else if k > place {
                        assert(sorted[k - 1] == x);
                        assert(sorted.contains(x));
                    }
                }
                if rows.contains(x) && wanted(x) {
                    if x == last {
                        assert(out[place] == x);
                    } else {
                        assert(sorted.contains(x));
                        let k = choose|k: int| 0 <= k < sorted.len() && sorted[k] == x;
                        if k < place {
                            assert(out[k] == x);
                        } else {
                            assert(out[k + 1] == sorted[k]);
                        }
                    }
                }
            }
            out
        }
    }
}

} // verus!

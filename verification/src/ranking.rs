//! Ranking of rows for listings: a three-part sort key and a stable, total
//! way to put keyed rows in order.

use vstd::prelude::*;
use crate::text::{lemma_text_before_asymmetric, lemma_text_before_total,
    lemma_text_before_transitive, precedes, text_before};

verus! {

/// What a listing orders a row by: two numbers and the row's identifier,
/// the identifier given by its characters.
pub struct SortKey {
    pub major: i64,
    pub minor: i64,
    pub name: Vec<char>,
}

/// The mathematical value of a [`SortKey`].
pub struct SortKeyView {
    pub major: i64,
    pub minor: i64,
    pub name: Seq<char>,
}

impl View for SortKey {
    type V = SortKeyView;

    open spec fn view(&self) -> SortKeyView {
        SortKeyView { major: self.major, minor: self.minor, name: self.name@ }
    }
}

/// `a` is listed before `b`: the larger `major` first; among equal ones the
/// larger `minor` first; among those the name that comes first in dictionary
/// order.
pub open spec fn key_before(a: SortKeyView, b: SortKeyView) -> bool {
    ||| a.major > b.major
    ||| a.major == b.major && a.minor > b.minor
    ||| a.major == b.major && a.minor == b.minor && text_before(a.name, b.name)
}

/// No key is listed before itself, and no two keys before each other.
pub proof fn lemma_key_before_asymmetric(a: SortKeyView, b: SortKeyView)
    ensures
        !(key_before(a, b) && key_before(b, a)),
{
    lemma_text_before_asymmetric(a.name, b.name);
}

/// Listing order is transitive.
pub proof fn lemma_key_before_transitive(a: SortKeyView, b: SortKeyView, c: SortKeyView)
    requires
        key_before(a, b),
        key_before(b, c),
    ensures
        key_before(a, c),
{
    if a.major == b.major && b.major == c.major && a.minor == b.minor && b.minor == c.minor {
        lemma_text_before_transitive(a.name, b.name, c.name);
    }
}

/// Two keys with different names are always ordered one way or the other.
pub proof fn lemma_key_before_total(a: SortKeyView, b: SortKeyView)
    requires
        a.name != b.name,
    ensures
        key_before(a, b) || key_before(b, a),
{
    lemma_text_before_total(a.name, b.name);
}

/// Decides the listing order of two keys.
pub fn ranks_before(a: &SortKey, b: &SortKey) -> (r: bool)
    ensures
        r == key_before(a@, b@),
{
    if a.major != b.major {
        a.major > b.major
    } else if a.minor != b.minor {
        a.minor > b.minor
    } else {
        precedes(&a.name, &b.name)
    }
}

/// The values of a sequence of keys.
pub open spec fn key_views(keys: Seq<SortKey>) -> Seq<SortKeyView> {
    Seq::new(keys.len(), |i: int| keys[i]@)
}

/// No two keys share a name.
pub open spec fn distinct_names(keys: Seq<SortKeyView>) -> bool {
    forall|i: int, j: int| 0 <= i < j < keys.len() ==> keys[i].name != keys[j].name
}

/// The key that `order` puts at place `p`.
pub open spec fn key_at(keys: Seq<SortKeyView>, order: Seq<usize>, p: int) -> SortKeyView {
    keys[order[p] as int]
}

/// `order` names every position of `keys`, each key strictly before the next.
pub open spec fn is_ranking(keys: Seq<SortKeyView>, order: Seq<usize>) -> bool {
    &&& forall|p: int| 0 <= p < order.len() ==> (#[trigger] order[p]) < keys.len()
    &&& forall|p: int, q: int|
        0 <= p < q < order.len() ==> key_before(
            #[trigger] key_at(keys, order, p),
            #[trigger] key_at(keys, order, q),
        )
    &&& forall|x: usize| x < keys.len() ==> #[trigger] order.contains(x)
}

/// Puts keyed rows in listing order, by insertion: returns the positions of
/// `keys`, best ranked first.
pub fn rank(keys: &Vec<SortKey>) -> (order: Vec<usize>)
    requires
        distinct_names(key_views(keys@)),
    ensures
        is_ranking(key_views(keys@), order@),
        order@.len() == keys@.len(),
{
    let ghost kv = key_views(keys@);
    let mut order: Vec<usize> = Vec::new();
    let mut i: usize = 0;
    while i < keys.len()
        invariant
            i <= keys.len(),
            kv == key_views(keys@),
            distinct_names(kv),
            order@.len() == i,
            forall|p: int| 0 <= p < order@.len() ==> (#[trigger] order@[p]) < i,
            forall|p: int, q: int|
                0 <= p < q < order@.len() ==> key_before(
                    #[trigger] key_at(kv, order@, p),
                    #[trigger] key_at(kv, order@, q),
                ),
            forall|x: usize| x < i ==> #[trigger] order@.contains(x),
        decreases keys.len() - i,
    {
        let mut p: usize = 0;
        while p < order.len() && !ranks_before(&keys[i], &keys[order[p]])
            invariant
                p <= order@.len(),
                i < keys.len(),
                kv == key_views(keys@),
                forall|j: int| 0 <= j < order@.len() ==> (#[trigger] order@[j]) < i,
                forall|j: int| 0 <= j < p ==> !key_before(kv[i as int], #[trigger] key_at(kv, order@, j)),
            decreases order@.len() - p,
        {
            p += 1;
        }
        let ghost before = order@;
        order.insert(p, i);
        proof {
            let after = order@;
            before.insert_ensures(p as int, i);
            assert forall|a: int, b: int| 0 <= a < b < after.len() implies key_before(
                #[trigger] key_at(kv, after, a),
                #[trigger] key_at(kv, after, b),
            ) by {
                if b < p {
                    assert(key_at(kv, after, a) == key_at(kv, before, a));
                    assert(key_at(kv, after, b) == key_at(kv, before, b));
                } else if b == p {
                    assert(key_at(kv, after, a) == key_at(kv, before, a));
                    assert(before[a] < i);
                    lemma_key_before_total(kv[i as int], key_at(kv, before, a));
                } else if a < p {
                    assert(after[b] == before[b - 1]);
                    assert(key_at(kv, after, a) == key_at(kv, before, a));
                    assert(key_at(kv, after, b) == key_at(kv, before, b - 1));
                } else if a == p {
                    assert(after[b] == before[b - 1]);
                    assert(key_at(kv, after, b) == key_at(kv, before, b - 1));
                    if b - 1 > p {
                        lemma_key_before_transitive(
                            kv[i as int],
                            key_at(kv, before, p as int),
                            key_at(kv, before, b - 1),
                        );
                    }
                } else {
                    assert(after[a] == before[a - 1]);
                    assert(after[b] == before[b - 1]);
                    assert(key_at(kv, after, a) == key_at(kv, before, a - 1));
                    assert(key_at(kv, after, b) == key_at(kv, before, b - 1));
                }
            }
            assert forall|x: usize| x < i + 1 implies #[trigger] after.contains(x) by {
                if x == i {
                    assert(after[p as int] == x);
                } else {
                    assert(before.contains(x));
                    let w = choose|w: int| 0 <= w < before.len() && before[w] == x;
                    if w < p {
                        assert(after[w] == x);
                    } else {
                        assert(after[w + 1] == before[w]);
                    }
                }
            }
            assert forall|a: int| 0 <= a < after.len() implies (#[trigger] after[a]) < i + 1 by {
                if a < p {
                } else if a > p {
                    assert(after[a] == before[a - 1]);
                }
            }
        }
        i += 1;
    }
    order
}

} // verus!

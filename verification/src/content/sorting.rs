//! Arranging news items newest first, keeping the order of items that were
//! published at the same time (a stable sort on `published_at`, descending).

use vstd::prelude::*;
use crate::content::ContentItem;
use crate::text::{
    bytes_less, lemma_bytes_less_irreflexive, lemma_bytes_less_total,
    lemma_bytes_less_transitive, text_less, utf8_bytes,
};

verus! {

/// The key by which items are ordered: the bytes of `published_at`.
pub open spec fn publish_key(item: ContentItem) -> Seq<u8> {
    utf8_bytes(item.published_at@)
}

/// Every item is at least as recent (by key) as every item after it.
pub open spec fn is_newest_first(s: Seq<ContentItem>) -> bool {
    forall|i: int, j: int|
        0 <= i < j < s.len() ==> !bytes_less(#[trigger] publish_key(s[i]), #[trigger] publish_key(s[j]))
}

/// `p` maps each position of `out` to the position in `inp` that its item
/// came from: a bijection under which items of equal key keep their order.
pub open spec fn is_stable_arrangement(out: Seq<ContentItem>, inp: Seq<ContentItem>, p: Seq<int>) -> bool {
    &&& p.len() == out.len()
    &&& out.len() == inp.len()
    &&& forall|k: int| 0 <= k < p.len() ==> 0 <= #[trigger] p[k] < inp.len() && out[k] == inp[p[k]]
    &&& forall|k: int, l: int| 0 <= k < l < p.len() ==> #[trigger] p[k] != #[trigger] p[l]
    &&& forall|j: int| 0 <= j < inp.len() ==> #[trigger] is_taken(p, j)
    &&& forall|k: int, l: int|
        0 <= k < l < p.len() && publish_key(out[k]) == publish_key(out[l])
            ==> #[trigger] p[k] < #[trigger] p[l]
}

/// Some position of `out` takes its item from position `j` of the input.
pub open spec fn is_taken(p: Seq<int>, j: int) -> bool {
    exists|k: int| 0 <= k < p.len() && #[trigger] p[k] == j
}

/// `out` is `inp` sorted newest first by a stable sort.
pub open spec fn is_stable_newest_first(out: Seq<ContentItem>, inp: Seq<ContentItem>) -> bool {
    &&& is_newest_first(out)
    &&& exists|p: Seq<int>| is_stable_arrangement(out, inp, p)
}

/// `a <= b` and `b < c` give `a < c`.
proof fn lemma_le_lt(a: Seq<u8>, b: Seq<u8>, c: Seq<u8>)
    requires
        !bytes_less(b, a),
        bytes_less(b, c),
    ensures
        bytes_less(a, c),
{
    lemma_bytes_less_total(a, b);
    if a != b {
        lemma_bytes_less_transitive(a, b, c);
    }
}

/// One step of the uniqueness argument: where two stable newest-first
/// arrangements agree before position `k`, they agree at `k`.
proof fn lemma_arrangements_agree_at(
    o1: Seq<ContentItem>,
    p1: Seq<int>,
    o2: Seq<ContentItem>,
    p2: Seq<int>,
    inp: Seq<ContentItem>,
    k: int,
)
    requires
        is_newest_first(o1),
        is_newest_first(o2),
        is_stable_arrangement(o1, inp, p1),
        is_stable_arrangement(o2, inp, p2),
        0 <= k < inp.len(),
        forall|l: int| 0 <= l < k ==> p1[l] == p2[l],
    ensures
        p1[k] == p2[k],
{
    let j1 = p1[k];
    let j2 = p2[k];
    if j1 != j2 {
        assert(is_taken(p2, j1));
        assert(is_taken(p1, j2));
        let m2 = choose|m: int| 0 <= m < p2.len() && #[trigger] p2[m] == j1;
        let m1 = choose|m: int| 0 <= m < p1.len() && #[trigger] p1[m] == j2;
        if m2 < k {
            assert(p1[m2] == p2[m2]);
            assert(p1[m2] != p1[k]);
        }
        if m1 < k {
            assert(p1[m1] == p2[m1]);
            assert(p2[m1] != p2[k]);
        }
        assert(m1 > k && m2 > k);
        let a = publish_key(inp[j1]);
        let b = publish_key(inp[j2]);
        assert(o1[k] == inp[j1] && o1[m1] == inp[j2]);
        assert(o2[k] == inp[j2] && o2[m2] == inp[j1]);
        assert(!bytes_less(publish_key(o1[k]), publish_key(o1[m1])));
        assert(!bytes_less(publish_key(o2[k]), publish_key(o2[m2])));
        lemma_bytes_less_total(a, b);
        assert(a == b);
        assert(p1[k] < p1[m1]);
        assert(p2[k] < p2[m2]);
    }
}

/// Two stable newest-first arrangements agree on every position below `k`.
proof fn lemma_arrangements_agree_upto(
    o1: Seq<ContentItem>,
    p1: Seq<int>,
    o2: Seq<ContentItem>,
    p2: Seq<int>,
    inp: Seq<ContentItem>,
    k: int,
)
    requires
        is_newest_first(o1),
        is_newest_first(o2),
        is_stable_arrangement(o1, inp, p1),
        is_stable_arrangement(o2, inp, p2),
        0 <= k <= inp.len(),
    ensures
        forall|l: int| 0 <= l < k ==> p1[l] == p2[l],
    decreases k,
{
    if k > 0 {
        lemma_arrangements_agree_upto(o1, p1, o2, p2, inp, k - 1);
        lemma_arrangements_agree_at(o1, p1, o2, p2, inp, k - 1);
    }
}

/// A stable newest-first arrangement of the items is unique, so
/// `is_stable_newest_first` pins the sorted list down.
pub proof fn lemma_stable_newest_first_unique(o1: Seq<ContentItem>, o2: Seq<ContentItem>, inp: Seq<ContentItem>)
    requires
        is_stable_newest_first(o1, inp),
        is_stable_newest_first(o2, inp),
    ensures
        o1 == o2,
{
    let p1 = choose|p: Seq<int>| is_stable_arrangement(o1, inp, p);
    let p2 = choose|p: Seq<int>| is_stable_arrangement(o2, inp, p);
    lemma_arrangements_agree_upto(o1, p1, o2, p2, inp, inp.len() as int);
    assert forall|l: int| 0 <= l < o1.len() implies o1[l] == o2[l] by {
        assert(p1[l] == p2[l]);
    }
    assert(o1 =~= o2);
}

/// Sorts `items` newest first; items with equal `published_at` keep their
/// relative order.
pub fn sort_newest_first(items: Vec<ContentItem>) -> (r: Vec<ContentItem>)
    ensures
        is_stable_newest_first(r@, items@),
{
    let ghost orig = items@;
    let mut rest = items;
    let mut out: Vec<ContentItem> = Vec::new();
    let ghost mut p: Seq<int> = Seq::empty();
    let ghost mut i: int = 0;
    while rest.len() > 0
        invariant
            0 <= i <= orig.len(),
            rest@ == orig.skip(i),
            out@.len() == i,
            p.len() == i,
            is_newest_first(out@),
            forall|k: int| 0 <= k < p.len() ==> 0 <= #[trigger] p[k] < i && out@[k] == orig[p[k]],
            forall|k: int, l: int| 0 <= k < l < p.len() ==> #[trigger] p[k] != #[trigger] p[l],
            forall|t: int| 0 <= t < i ==> #[trigger] is_taken(p, t),
            forall|k: int, l: int|
                0 <= k < l < p.len() && publish_key(out@[k]) == publish_key(out@[l])
                    ==> #[trigger] p[k] < #[trigger] p[l],
        decreases rest.len(),
    {
        let x = rest.remove(0);
        assert(x == orig[i]);
        let mut pos: usize = 0;
        while pos < out.len() && !text_less(&out[pos].published_at, &x.published_at)
            invariant
                pos <= out@.len(),
                forall|j: int| 0 <= j < pos ==> !bytes_less(#[trigger] publish_key(out@[j]), publish_key(x)),
            decreases out@.len() - pos,
        {
            pos = pos + 1;
        }
        let ghost old_out = out@;
        let ghost old_p = p;
        out.insert(pos, x);
        proof {
            p = old_p.insert(pos as int, i);
            // every old item after the insertion point is strictly older than x
            assert forall|j: int| pos <= j < old_out.len() implies bytes_less(
                #[trigger] publish_key(old_out[j]),
                publish_key(x),
            ) by {
                assert(bytes_less(publish_key(old_out[pos as int]), publish_key(x)));
                if j > pos {
                    lemma_le_lt(publish_key(old_out[j]), publish_key(old_out[pos as int]), publish_key(x));
                }
            }
            assert forall|a: int, b: int| 0 <= a < b < out@.len() implies !bytes_less(
                #[trigger] publish_key(out@[a]),
                #[trigger] publish_key(out@[b]),
            ) by {
                if b == pos {
                } else if a == pos {
                    lemma_bytes_less_total(publish_key(x), publish_key(old_out[b - 1]));
                } else {
                    let a0 = if a < pos { a } else { a - 1 };
                    let b0 = if b < pos { b } else { b - 1 };
                    assert(out@[a] == old_out[a0]);
                    assert(out@[b] == old_out[b0]);
                }
            }
            assert forall|k: int| 0 <= k < p.len() implies 0 <= #[trigger] p[k] < i + 1 && out@[k] == orig[p[k]] by {
                if k < pos {
                } else if k == pos {
                } else {
                    assert(p[k] == old_p[k - 1]);
                }
            }
            assert forall|k: int, l: int| 0 <= k < l < p.len() implies #[trigger] p[k] != #[trigger] p[l] by {
                if k < pos && l < pos {
                } else if k < pos && l == pos {
                } else if k < pos {
                    assert(p[l] == old_p[l - 1]);
                } else if k == pos {
                    assert(p[l] == old_p[l - 1]);
                } else {
                    assert(p[l] == old_p[l - 1]);
                    assert(p[k] == old_p[k - 1]);
                }
            }
            assert forall|k: int, l: int|
                0 <= k < l < p.len() && publish_key(out@[k]) == publish_key(out@[l])
                    implies #[trigger] p[k] < #[trigger] p[l] by {
                if l == pos {
                } else if k == pos {
                    assert(out@[l] == old_out[l - 1]);
                    assert(bytes_less(publish_key(old_out[l - 1]), publish_key(x)));
                    lemma_bytes_less_irreflexive(publish_key(x));
                } else if k < pos && l < pos {
                } else if k < pos {
                    assert(p[l] == old_p[l - 1]);
                    assert(out@[l] == old_out[l - 1]);
                } else {
                    assert(p[l] == old_p[l - 1]);
                    assert(p[k] == old_p[k - 1]);
                    assert(out@[l] == old_out[l - 1]);
                    assert(out@[k] == old_out[k - 1]);
                }
            }
            assert forall|t: int| 0 <= t < i + 1 implies #[trigger] is_taken(p, t) by {
                if t == i {
                    assert(p[pos as int] == t);
                } else {
                    assert(is_taken(old_p, t));
                    let q = choose|q: int| 0 <= q < old_p.len() && #[trigger] old_p[q] == t;
                    if q < pos {
                        assert(p[q] == t);
                    } else {
                        assert(p[q + 1] == t);
                    }
                }
            }
            assert(rest@ =~= orig.skip(i + 1));
            i = i + 1;
        }
    }
    proof {
        assert(is_stable_arrangement(out@, orig, p));
    }
    out
}

} // verus!

//! Deterministic draw order for styled output.
//!
//! Styled pairs are sorted by z-index first and feature identifier second.
//! The z-index comparison is the IEEE 754 total order on bit patterns with
//! the two zeros collapsed (see [`crate::float_bits`]), so the order is
//! total and deterministic even for `NaN` z-index values.

use vstd::prelude::*;
use vstd::seq_lib::group_to_multiset_ensures;

use crate::float_bits::{draw_order_key, spec_draw_order_key};
use crate::style::{Style, StyleView};

verus! {

/// One styled rendering of one feature: the index and identifier of the
/// feature and the resolved style of one of its layers.
#[derive(Debug)]
pub struct StyledArea {
    pub area_index: usize,
    pub global_id: u64,
    pub style: Style,
}

/// The mathematical value of a [`StyledArea`].
pub ghost struct StyledAreaView {
    pub area_index: int,
    pub global_id: u64,
    pub style: StyleView,
}

impl View for StyledArea {
    type V = StyledAreaView;

    open spec fn view(&self) -> StyledAreaView {
        StyledAreaView {
            area_index: self.area_index as int,
            global_id: self.global_id,
            style: self.style@,
        }
    }
}

/// The mathematical values of a styled list.
pub open spec fn styled_views(s: Seq<StyledArea>) -> Seq<StyledAreaView> {
    s.map_values(|a: StyledArea| a@)
}

/// Draw order: z-index first (IEEE 754 total order on bit patterns, zeros
/// collapsed), feature identifier second.
pub open spec fn spec_draw_leq(a: StyledAreaView, b: StyledAreaView) -> bool {
    ||| spec_draw_order_key(a.style.z_index) < spec_draw_order_key(b.style.z_index)
    ||| (spec_draw_order_key(a.style.z_index) == spec_draw_order_key(b.style.z_index)
        && a.global_id <= b.global_id)
}

/// Whether a styled list is in draw order.
pub open spec fn spec_sorted_by_draw_order(s: Seq<StyledAreaView>) -> bool {
    forall|i: int, j: int| 0 <= i < j < s.len() ==> spec_draw_leq(s[i], s[j])
}

/// Draw order is total.
pub proof fn lemma_draw_leq_total(a: StyledAreaView, b: StyledAreaView)
    ensures
        spec_draw_leq(a, b) || spec_draw_leq(b, a),
{
}

/// Draw order is transitive.
pub proof fn lemma_draw_leq_trans(a: StyledAreaView, b: StyledAreaView, c: StyledAreaView)
    requires
        spec_draw_leq(a, b),
        spec_draw_leq(b, c),
    ensures
        spec_draw_leq(a, c),
{
}

/// Whether `a` draws no later than `b`.
pub fn draw_leq(a: &StyledArea, b: &StyledArea) -> (r: bool)
    ensures
        r == spec_draw_leq(a@, b@),
{
    let ka = draw_order_key(a.style.z_index);
    let kb = draw_order_key(b.style.z_index);
    ka < kb || (ka == kb && a.global_id <= b.global_id)
}

/// Inserting an element anywhere adds exactly it to the multiset.
proof fn lemma_insert_to_multiset(s: Seq<StyledAreaView>, p: int, x: StyledAreaView)
    requires
        0 <= p <= s.len(),
    ensures
        s.insert(p, x).to_multiset() =~= s.to_multiset().insert(x),
{
    broadcast use group_to_multiset_ensures;

    let t = s.insert(p, x);
    assert(t[p] == x);
    assert(t.remove(p) =~= s);
    assert(t.remove(p).to_multiset() =~= t.to_multiset().remove(x));
    assert(t.contains(x));
    assert(t.to_multiset().count(x) > 0);
    assert(t.to_multiset().remove(x).insert(x) =~= t.to_multiset());
}

/// Sorts a styled list into draw order.  The result is a permutation of
/// the input.
pub fn sort_styled(v: &mut Vec<StyledArea>)
    ensures
        spec_sorted_by_draw_order(styled_views(final(v)@)),
        styled_views(final(v)@).to_multiset() == styled_views(old(v)@).to_multiset(),
{
    broadcast use group_to_multiset_ensures;

    let n = v.len();
    if n == 0 {
        return ;
    }
    let mut i: usize = 1;
    while i < n
        invariant
            1 <= i <= n,
            n == v@.len(),
            styled_views(v@).to_multiset() == styled_views(old(v)@).to_multiset(),
            spec_sorted_by_draw_order(styled_views(v@).subrange(0, i as int)),
        decreases n - i,
    {
        let ghost pre = styled_views(v@);
        proof {
            // The sorted prefix, spelled out over direct indices.
            assert forall|k: int, l: int| 0 <= k < l < i implies spec_draw_leq(
                pre[k],
                pre[l],
            ) by {
                assert(pre.subrange(0, i as int)[k] == pre[k]);
                assert(pre.subrange(0, i as int)[l] == pre[l]);
            }
        }
        let mut p: usize = 0;
        while p < i && draw_leq(&v[p], &v[i])
            invariant
                0 <= p <= i < n,
                n == v@.len(),
                pre == styled_views(v@),
                forall|k: int| 0 <= k < p ==> spec_draw_leq(#[trigger] pre[k], pre[i as int]),
            decreases i - p,
        {
            p = p + 1;
        }
        if p < i {
            proof {
                lemma_draw_leq_total(pre[p as int], pre[i as int]);
                assert(spec_draw_leq(pre[i as int], pre[p as int]));
            }
            let x = v.remove(i);
            proof {
                assert(styled_views(v@) =~= pre.remove(i as int));
            }
            let ghost removed = styled_views(v@);
            v.insert(p, x);
            proof {
                assert(x@ == pre[i as int]);
                assert(styled_views(v@) =~= removed.insert(p as int, x@));
                lemma_insert_to_multiset(removed, p as int, x@);
                pre.to_multiset_ensures();
                assert(pre.remove(i as int).to_multiset() =~= pre.to_multiset().remove(
                    pre[i as int],
                ));
                assert(removed.to_multiset() == pre.to_multiset().remove(pre[i as int]));
                assert(pre.contains(pre[i as int]));
                assert(pre.to_multiset().count(pre[i as int]) > 0);
                assert(styled_views(v@).to_multiset() =~= pre.to_multiset());
                let cur = styled_views(v@);
                assert(cur.len() == n);
                // The inserted element precedes everything it displaced.
                assert forall|l: int| p <= l < i implies spec_draw_leq(
                    pre[i as int],
                    #[trigger] pre[l],
                ) by {
                    lemma_draw_leq_total(pre[l], pre[i as int]);
                    if spec_draw_leq(pre[l], pre[i as int]) {
                        if l > p {
                            lemma_draw_leq_trans(pre[p as int], pre[l], pre[i as int]);
                        }
                        assert(spec_draw_leq(pre[p as int], pre[i as int]));
                        assert(false);
                    }
                }
                assert forall|a: int, b: int| 0 <= a < b < i + 1 implies spec_draw_leq(
                    cur[a],
                    cur[b],
                ) by {
                    if a < p {
                        assert(cur[a] == pre[a]);
                    } else if a == p {
                        assert(cur[a] == pre[i as int]);
                    } else {
                        assert(cur[a] == pre[a - 1]);
                    }
                    if b < p {
                        assert(cur[b] == pre[b]);
                    } else if b == p {
                        assert(cur[b] == pre[i as int]);
                    } else {
                        assert(cur[b] == pre[b - 1]);
                    }
                }
                let sub = cur.subrange(0, i + 1);
                assert forall|a: int, b: int| #![trigger sub[a], sub[b]] 0 <= a < b < sub.len()
                    implies spec_draw_leq(sub[a], sub[b]) by {
                    assert(sub[a] == cur[a]);
                    assert(sub[b] == cur[b]);
                }
                assert(spec_sorted_by_draw_order(sub));
            }
        } else {
            proof {
                let cur = styled_views(v@);
                let sub = cur.subrange(0, i + 1);
                assert forall|a: int, b: int| #![trigger sub[a], sub[b]] 0 <= a < b < sub.len()
                    implies spec_draw_leq(sub[a], sub[b]) by {
                    assert(sub[a] == pre[a]);
                    assert(sub[b] == pre[b]);
                }
                assert(spec_sorted_by_draw_order(sub));
            }
        }
        i = i + 1;
    }
    proof {
        assert(styled_views(v@).subrange(0, n as int) =~= styled_views(v@));
    }
}

} // verus!

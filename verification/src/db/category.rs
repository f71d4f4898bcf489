//! Category decisions: where a category may move, and the order in which a
//! subtree is deleted.
use vstd::prelude::*;

use crate::error::{Result, WorldflowError};
use crate::ids::Id;
use crate::models::category::CreateCategory;

verus! {

broadcast use vstd::string::group_string_axioms;

/// Whether a subtree node sits at depth `d`.
pub open spec fn at_depth(d: i64) -> spec_fn((Id, i64)) -> bool {
    |e: (Id, i64)| e.1 == d
}

/// Whether nodes are ordered deepest first.
pub open spec fn deepest_first(s: Seq<(Id, i64)>) -> bool {
    forall|i: int, j: int| 0 <= i < j < s.len() ==> s[i].1 >= s[j].1
}

/// Orders the nodes of a subtree (id and depth below the root) for deletion:
/// deepest first, nodes of equal depth kept in their given order (a stable
/// sort by descending depth), so that children go before their parents.
pub fn order_subtree_for_deletion(nodes: Vec<(Id, i64)>) -> (r: Vec<(Id, i64)>)
    ensures
        r@.len() == nodes@.len(),
        deepest_first(r@),
        forall|d: i64| #[trigger] r@.filter(at_depth(d)) == nodes@.filter(at_depth(d)),
{
    let mut out: Vec<(Id, i64)> = Vec::new();
    let mut i: usize = 0;
    while i < nodes.len()
        invariant
            0 <= i <= nodes@.len(),
            out@.len() == i,
            deepest_first(out@),
            forall|d: i64| #[trigger] out@.filter(at_depth(d)) == nodes@.subrange(0, i as int).filter(at_depth(d)),
        decreases nodes@.len() - i,
    {
        let x = nodes[i];
        let mut p: usize = 0;
        while p < out.len() && out[p].1 >= x.1
            invariant
                0 <= p <= out@.len(),
                forall|k: int| 0 <= k < p ==> out@[k].1 >= x.1,
            decreases out@.len() - p,
        {
            p = p + 1;
        }
        let ghost old_out = out@;
        proof {
            assert forall|k: int| p <= k < old_out.len() implies old_out[k].1 < x.1 by {
                if p < old_out.len() {
                    assert(old_out[p as int].1 < x.1);
                    assert(old_out[p as int].1 >= old_out[k].1);
                }
            }
        }
        out.insert(p, x);
        proof {
            let a = old_out.subrange(0, p as int);
            let b = old_out.subrange(p as int, old_out.len() as int);
            assert(old_out =~= a + b);
            assert(out@ =~= a.push(x) + b);
            let pre = nodes@.subrange(0, i + 1);
            assert(pre =~= nodes@.subrange(0, i as int).push(x));
            assert forall|d: i64| #[trigger] out@.filter(at_depth(d)) == pre.filter(at_depth(d)) by {
                let f = at_depth(d);
                Seq::filter_distributes_over_add(a.push(x), b, f);
                Seq::filter_distributes_over_add(a, b, f);
                a.lemma_filter_push(x, f);
                nodes@.subrange(0, i as int).lemma_filter_push(x, f);
                if x.1 == d {
                    assert forall|k: int| 0 <= k < b.len() implies !f(b[k]) by {
                        assert(b[k] == old_out[p + k]);
                    }
                    assert(b.all(|e: (Id, i64)| !f(e)));
                    b.lemma_all_neg_filter_empty(f);
                    assert(b.filter(f) =~= Seq::<(Id, i64)>::empty());
                    assert(a.filter(f).push(x) + b.filter(f) =~= (a.filter(f) + b.filter(f)).push(x));
                }
                else {
                    assert(a.filter(f) + b.filter(f) == old_out.filter(f));
                }
            }
            assert forall|k: int, l: int| 0 <= k < l < out@.len() implies out@[k].1 >= out@[l].1 by {
                if k < p && l > p {
                    assert(out@[k] == old_out[k]);
                    assert(out@[l] == old_out[l - 1]);
                } else if k < p && l == p {
                    assert(out@[k] == old_out[k]);
                } else if k == p {
                    assert(out@[l] == old_out[l - 1]);
                } else if l < p {
                    assert(out@[k] == old_out[k]);
                    assert(out@[l] == old_out[l]);
                } else {
                    assert(out@[k] == old_out[k - 1]);
                    assert(out@[l] == old_out[l - 1]);
                }
            }
        }
        i = i + 1;
    }
    assert(nodes@.subrange(0, nodes@.len() as int) =~= nodes@);
    out
}

/// A category cannot move under itself or one of its descendants.
pub fn check_category_move(would_create_cycle: bool) -> (r: Result<()>)
    ensures
        r is Ok <==> !would_create_cycle,
        r matches Err(e) ==> e matches WorldflowError::InvalidInput(m) && m@
            == "不能将分类移动到自己的子孙节点下"@,
{
    if would_create_cycle {
        Err(WorldflowError::InvalidInput(String::from_str("不能将分类移动到自己的子孙节点下")))
    } else {
        Ok(())
    }
}

impl CreateCategory {
    /// The sort order a new category gets: the given one, else 0.
    pub fn sort_order_or_default(&self) -> (r: i64)
        ensures
            r == match self.sort_order {
                Some(v) => v,
                None => 0,
            },
    {
        match self.sort_order {
            Some(v) => v,
            None => 0,
        }
    }
}

} // verus!

//! Outgoing links of an entry.
use vstd::prelude::*;

use crate::ids::Id;

verus! {

/// The link targets kept for an entry: the given ids in order, without the
/// entry itself and without repeats (the first occurrence stays).
pub open spec fn normalized_link_targets(entry_id: Id, ids: Seq<Id>) -> Seq<Id>
    decreases ids.len(),
{
    if ids.len() == 0 {
        Seq::empty()
    } else {
        let prev = normalized_link_targets(entry_id, ids.drop_last());
        let x = ids.last();
        if x == entry_id || prev.contains(x) {
            prev
        } else {
            prev.push(x)
        }
    }
}

fn vec_contains(v: &Vec<Id>, x: Id) -> (r: bool)
    ensures
        r == v@.contains(x),
{
    let mut i: usize = 0;
    while i < v.len()
        invariant
            0 <= i <= v@.len(),
            forall|k: int| 0 <= k < i ==> v@[k] != x,
        decreases v@.len() - i,
    {
        if v[i] == x {
            return true;
        }
        i = i + 1;
    }
    false
}

/// The targets to link from `entry_id`: `linked_entry_ids` without
/// `entry_id` and without repeats, first occurrences kept in order.
pub fn normalize_linked_entry_ids(entry_id: Id, linked_entry_ids: &[Id]) -> (r: Vec<Id>)
    ensures
        r@ == normalized_link_targets(entry_id, linked_entry_ids@),
{
    let mut unique_ids: Vec<Id> = Vec::new();
    let mut i: usize = 0;
    while i < linked_entry_ids.len()
        invariant
            0 <= i <= linked_entry_ids@.len(),
            unique_ids@ == normalized_link_targets(
                entry_id,
                linked_entry_ids@.subrange(0, i as int),
            ),
        decreases linked_entry_ids@.len() - i,
    {
        let linked_id = linked_entry_ids[i];
        let ghost pre = linked_entry_ids@.subrange(0, i as int);
        let ghost cur = linked_entry_ids@.subrange(0, i + 1);
        assert(cur.drop_last() =~= pre);
        if linked_id != entry_id && !vec_contains(&unique_ids, linked_id) {
            unique_ids.push(linked_id);
        }
        i = i + 1;
    }
    assert(linked_entry_ids@.subrange(0, linked_entry_ids@.len() as int) =~= linked_entry_ids@);
    unique_ids
}

/// The kept targets never repeat, never include the entry itself, and are
/// exactly the given ids other than the entry.
pub proof fn lemma_link_targets_exact(entry_id: Id, ids: Seq<Id>)
    ensures
        normalized_link_targets(entry_id, ids).no_duplicates(),
        !normalized_link_targets(entry_id, ids).contains(entry_id),
        forall|x: Id|
            normalized_link_targets(entry_id, ids).contains(x) <==> (ids.contains(x) && x
                != entry_id),
    decreases ids.len(),
{
    if ids.len() > 0 {
        let prev = normalized_link_targets(entry_id, ids.drop_last());
        lemma_link_targets_exact(entry_id, ids.drop_last());
        let x = ids.last();
        assert forall|y: Id|
            normalized_link_targets(entry_id, ids).contains(y) <==> (ids.contains(y) && y
                != entry_id) by {
            if ids.contains(y) && y != entry_id {
                let k = choose|k: int| 0 <= k < ids.len() && ids[k] == y;
                if k < ids.len() - 1 {
                    assert(ids.drop_last()[k] == y);
                }
            }
            if ids.drop_last().contains(y) {
                let k = choose|k: int| 0 <= k < ids.drop_last().len() && ids.drop_last()[k] == y;
                assert(ids[k] == y);
            }
            if !(x == entry_id || prev.contains(x)) {
                if prev.push(x).contains(y) && y != x {
                    let k = choose|k: int| 0 <= k < prev.push(x).len() && prev.push(x)[k] == y;
                    assert(prev[k] == y);
                }
                if y == x {
                    assert(prev.push(x)[prev.len() as int] == y);
                }
                if prev.contains(y) {
                    let k = choose|k: int| 0 <= k < prev.len() && prev[k] == y;
                    assert(prev.push(x)[k] == y);
                }
            }
        }
        if !(x == entry_id || prev.contains(x)) {
            let p = prev.push(x);
            assert forall|a: int, b: int| 0 <= a < p.len() && 0 <= b < p.len() && a != b implies p[a]
                != p[b] by {
                if a < prev.len() && b < prev.len() {
                } else if a == prev.len() {
                    assert(prev.contains(p[b]) || b == a);
                } else {
                    assert(prev.contains(p[a]) || b == a);
                }
            }
        }
    }
}

/// Normalizing twice gives what normalizing once gives.
pub proof fn lemma_link_targets_idempotent(entry_id: Id, ids: Seq<Id>)
    ensures
        normalized_link_targets(entry_id, normalized_link_targets(entry_id, ids))
            == normalized_link_targets(entry_id, ids),
{
    let n = normalized_link_targets(entry_id, ids);
    lemma_link_targets_exact(entry_id, ids);
    lemma_normalize_fixed_point(entry_id, n);
}

proof fn lemma_normalize_fixed_point(entry_id: Id, s: Seq<Id>)
    requires
        s.no_duplicates(),
        !s.contains(entry_id),
    ensures
        normalized_link_targets(entry_id, s) == s,
    decreases s.len(),
{
    if s.len() > 0 {
        let d = s.drop_last();
        assert(d.no_duplicates()) by {
            assert forall|a: int, b: int| 0 <= a < d.len() && 0 <= b < d.len() && a != b implies d[a]
                != d[b] by {
                assert(d[a] == s[a] && d[b] == s[b]);
            }
        }
        assert(!d.contains(entry_id)) by {
            if d.contains(entry_id) {
                let k = choose|k: int| 0 <= k < d.len() && d[k] == entry_id;
                assert(s[k] == entry_id);
            }
        }
        lemma_normalize_fixed_point(entry_id, d);
        assert(s.last() != entry_id) by {
            assert(s[s.len() - 1] == s.last());
        }
        assert(!d.contains(s.last())) by {
            if d.contains(s.last()) {
                let k = choose|k: int| 0 <= k < d.len() && d[k] == s.last();
                assert(s[k] == s[s.len() - 1]);
            }
        }
        assert(d.push(s.last()) =~= s);
    }
}

} // verus!

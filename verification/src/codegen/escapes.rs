//! Escape analysis, the parts common to instances, arrays and object literals.
//!
//! A local qualifies for being kept in scalars when nothing but plain accesses
//! to its parts is done with it. Each analysis starts from the candidate locals
//! and gathers those that escape.
use std::collections::{HashMap, HashSet};
use vstd::prelude::*;
use crate::codegen::hir::{Expr, LocalId};
use crate::codegen::walk::{
    any_of, children, children_of, everywhere, lemma_any_concat, lemma_any_single,
    lemma_below_prefix, lemma_child_smaller, visit, visit_below,
};

verus! {

broadcast use {
    vstd::std_specs::vec::group_vec_axioms,
    vstd::std_specs::hash::group_hash_axioms,
};

/// The candidate that an expression reads, where it is nothing but that read.
pub open spec fn candidate<V>(e: Expr, candidates: Map<u32, V>) -> Option<u32> {
    match e {
        Expr::LocalGet(id) => if candidates.dom().contains(id) {
            Some(id)
        } else {
            None
        },
        _ => None,
    }
}

/// One id, where it is that of a candidate.
pub open spec fn if_candidate<V>(id: u32, candidates: Map<u32, V>) -> Set<u32> {
    if candidates.dom().contains(id) {
        set![id]
    } else {
        Set::empty()
    }
}

/// The candidate that an expression reads.
pub fn candidate_read<V>(e: &Expr, candidates: &HashMap<u32, V>) -> (r: Option<u32>)
    ensures
        r == candidate(*e, candidates@),
{
    match e {
        Expr::LocalGet(id) => if candidates.contains_key(id) {
            Some(*id)
        } else {
            None
        },
        _ => None,
    }
}

/// Adds an id to the escaped ones where it is that of a candidate.
pub fn mark<V>(id: u32, candidates: &HashMap<u32, V>, escaped: &mut HashSet<u32>)
    ensures
        final(escaped)@ == old(escaped)@.union(if_candidate(id, candidates@)),
{
    if candidates.contains_key(&id) {
        escaped.insert(id);
    }
    assert(escaped@ =~= old(escaped)@.union(if_candidate(id, candidates@)));
}

/// Adds the candidates among a closure's captures to the escaped ones.
pub fn mark_captures<V>(
    captures: &Vec<LocalId>,
    candidates: &HashMap<u32, V>,
    escaped: &mut HashSet<u32>,
)
    ensures
        final(escaped)@ == old(escaped)@.union(captures@.to_set().intersect(candidates@.dom())),
{
    let ghost before = escaped@;
    let mut i: usize = 0;
    assert(captures@.take(0).to_set() =~= Set::empty());
    while i < captures.len()
        invariant
            i <= captures@.len(),
            escaped@ == before.union(
                captures@.take(i as int).to_set().intersect(candidates@.dom()),
            ),
        decreases captures@.len() - i,
    {
        mark(captures[i], candidates, escaped);
        proof {
            assert(captures@.take(i + 1) =~= captures@.take(i as int).push(captures@[i as int]));
            crate::codegen::ids::lemma_push_set(captures@.take(i as int), captures@[i as int]);
            assert(escaped@ =~= before.union(
                captures@.take(i + 1).to_set().intersect(candidates@.dom()),
            ));
        }
        i += 1;
    }
    assert(captures@.take(i as int) =~= captures@);
}

// ---- self-reference ----

/// Whether `e` itself reads or updates the local `id`.
pub open spec fn reads(e: Expr, id: u32) -> bool {
    match e {
        Expr::LocalGet(i) => i == id,
        Expr::Update(i) => i == id,
        _ => false,
    }
}

pub open spec fn reading(id: u32) -> spec_fn(Expr) -> bool {
    |e: Expr| reads(e, id)
}

/// Whether the local `id` is read or updated anywhere in an expression, closure
/// bodies included.
pub open spec fn mentions(e: Expr, id: u32) -> bool {
    any_of(visit(e, everywhere()), reading(id))
}

/// Whether an expression reads or updates the local `target_id` anywhere.
pub fn expr_contains_local_get(e: &Expr, target_id: u32) -> (r: bool)
    ensures
        r == mentions(*e, target_id),
    decreases *e,
{
    let ghost bad = reading(target_id);
    let ghost below = children_of(*e);
    proof {
        lemma_any_single(*e, bad);
        lemma_any_concat(seq![*e], visit_below(*e, everywhere(), below.len()), bad);
    }
    match e {
        Expr::LocalGet(id) => {
            if *id == target_id {
                return true;
            }
        },
        Expr::Update(id) => {
            if *id == target_id {
                return true;
            }
        },
        _ => {},
    }
    let kids = children(e);
    let mut i: usize = 0;
    while i < kids.len()
        invariant
            i <= kids@.len(),
            kids@.unref() == below,
            below == children_of(*e),
            bad == reading(target_id),
            !any_of(visit_below(*e, everywhere(), i as nat), bad),
            any_of(visit_below(*e, everywhere(), below.len()), bad) ==> mentions(
                *e,
                target_id,
            ),
        decreases kids@.len() - i,
    {
        assert(*kids@[i as int] == below[i as int]);
        proof {
            lemma_child_smaller(*e, i as int);
            lemma_any_concat(
                visit_below(*e, everywhere(), i as nat),
                visit(below[i as int], everywhere()),
                bad,
            );
        }
        if expr_contains_local_get(kids[i], target_id) {
            proof {
                lemma_below_prefix(*e, (i + 1) as nat, everywhere(), bad);
            }
            return true;
        }
        i += 1;
    }
    false
}

} // verus!

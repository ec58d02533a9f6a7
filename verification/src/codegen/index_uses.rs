//! Which locals take part in computing an index.
use std::collections::HashSet;
use vstd::prelude::*;
use crate::codegen::hir::{family_of, Expr, Family, Stmt};
use crate::codegen::refs::{collect_ref_ids_in_expr, ref_ids};
use crate::codegen::walk::{
    block_exprs, children, children_of, contributed, expressions, lemma_child_smaller,
    lemma_contributed_concat, lemma_contributed_single, lemma_visit_closed, visit, visit_below,
    visit_each,
};

verus! {

broadcast use {
    vstd::std_specs::vec::group_vec_axioms,
    vstd::std_specs::hash::group_hash_axioms,
};

/// The locals that the index of an indexing expression refers to.
pub open spec fn index_ids(e: Expr) -> Set<u32> {
    match e {
        Expr::IndexGet { index, .. } => ref_ids(*index),
        Expr::IndexSet { index, .. } => ref_ids(*index),
        Expr::IndexUpdate { index, .. } => ref_ids(*index),
        Expr::IndexRead { index, .. } => ref_ids(*index),
        Expr::IndexWrite { index, .. } => ref_ids(*index),
        _ => Set::empty(),
    }
}

/// Whether the walk looks below an expression. It stops at closures: a
/// captured local has no integer slot that an index could use.
pub open spec fn index_uses_look_into(e: Expr) -> bool {
    match e {
        Expr::Closure { .. } | Expr::OnLocal { .. } => false,
        Expr::Node { op, .. } => match family_of(op) {
            Family::Plain | Family::ArraySpread | Family::ObjectSpread => true,
            _ => false,
        },
        _ => true,
    }
}

pub open spec fn index_uses_enter() -> spec_fn(Expr, int) -> bool {
    |e: Expr, i: int| index_uses_look_into(e)
}

pub open spec fn index_uses_give() -> spec_fn(Expr) -> Set<u32> {
    |e: Expr| index_ids(e)
}

/// The locals used in some index of a block.
pub open spec fn index_used(stmts: Seq<Stmt>) -> Set<u32> {
    contributed(
        visit_each(block_exprs(stmts), index_uses_enter()),
        index_uses_give(),
    )
}

/// Collects the locals that are referred to anywhere inside an index.
pub fn collect_index_used_locals(stmts: &[Stmt]) -> (r: HashSet<u32>)
    ensures
        r@ == index_used(stmts@),
{
    let mut out: HashSet<u32> = HashSet::new();
    walk_index_uses_in_stmts(stmts, &mut out);
    assert(out@ =~= index_used(stmts@));
    out
}

/// Adds the locals used in some index of a block.
pub fn walk_index_uses_in_stmts(stmts: &[Stmt], out: &mut HashSet<u32>)
    ensures
        final(out)@ == old(out)@.union(index_used(stmts@)),
{
    let ghost before = out@;
    let all = expressions(stmts);
    let ghost listing = block_exprs(stmts@);
    let mut i: usize = 0;
    proof {
        lemma_contributed_single(Expr::This, index_uses_give());
    }
    while i < all.len()
        invariant
            i <= all@.len(),
            all@.unref() == listing,
            out@ == before.union(
                contributed(
                    visit_each(listing.take(i as int), index_uses_enter()),
                    index_uses_give(),
                ),
            ),
        decreases all@.len() - i,
    {
        assert(*all@[i as int] == listing[i as int]);
        walk_index_uses_in_expr(all[i], out);
        proof {
            assert(listing.take(i + 1).drop_last() =~= listing.take(i as int));
            lemma_contributed_concat(
                visit_each(listing.take(i as int), index_uses_enter()),
                visit(listing[i as int], index_uses_enter()),
                index_uses_give(),
            );
        }
        i += 1;
    }
    assert(listing.take(i as int) =~= listing);
}

fn looks_into(e: &Expr) -> (r: bool)
    ensures
        r == index_uses_look_into(*e),
{
    match e {
        Expr::Closure { .. } | Expr::OnLocal { .. } => false,
        Expr::Node { op, .. } => matches!(
            op.family(),
            Family::Plain | Family::ArraySpread | Family::ObjectSpread
        ),
        _ => true,
    }
}

/// Adds the locals used in some index of an expression.
pub fn walk_index_uses_in_expr(e: &Expr, out: &mut HashSet<u32>)
    ensures
        final(out)@ == old(out)@.union(
            contributed(visit(*e, index_uses_enter()), index_uses_give()),
        ),
    decreases *e,
{
    let ghost before = out@;
    match e {
        Expr::IndexGet { index, .. } => {
            collect_ref_ids_in_expr(&**index, out);
        },
        Expr::IndexSet { index, .. } => {
            collect_ref_ids_in_expr(&**index, out);
        },
        Expr::IndexUpdate { index, .. } => {
            collect_ref_ids_in_expr(&**index, out);
        },
        Expr::IndexRead { index, .. } => {
            collect_ref_ids_in_expr(&**index, out);
        },
        Expr::IndexWrite { index, .. } => {
            collect_ref_ids_in_expr(&**index, out);
        },
        _ => {},
    }
    assert(out@ =~= before.union(index_ids(*e)));
    proof {
        lemma_contributed_single(*e, index_uses_give());
    }
    let ghost below = children_of(*e);
    if looks_into(e) {
        let kids = children(e);
        let mut i: usize = 0;
        while i < kids.len()
            invariant
                i <= kids@.len(),
                kids@.unref() == below,
                below == children_of(*e),
                index_uses_look_into(*e),
                out@ == before.union(index_ids(*e)).union(
                    contributed(
                        visit_below(*e, index_uses_enter(), i as nat),
                        index_uses_give(),
                    ),
                ),
            decreases kids@.len() - i,
        {
            assert(*kids@[i as int] == below[i as int]);
            proof {
                lemma_child_smaller(*e, i as int);
                lemma_contributed_concat(
                    visit_below(*e, index_uses_enter(), i as nat),
                    visit(below[i as int], index_uses_enter()),
                    index_uses_give(),
                );
            }
            walk_index_uses_in_expr(kids[i], out);
            i += 1;
        }
    } else {
        proof {
            lemma_visit_closed(*e, index_uses_enter(), below.len());
        }
    }
    proof {
        lemma_contributed_concat(
            seq![*e],
            visit_below(*e, index_uses_enter(), below.len()),
            index_uses_give(),
        );
    }
}

} // verus!

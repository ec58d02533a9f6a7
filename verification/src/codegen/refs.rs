//! Which locals a function body declares, and which it refers to.
use std::collections::HashSet;
use vstd::prelude::*;
use crate::codegen::hir::{Expr, LocalId, Stmt};
use crate::codegen::walk::{
    block_exprs, block_stmts, children, children_of, collected, contributed, everywhere,
    expressions, lemma_child_smaller, lemma_collected_next, lemma_contributed_concat,
    lemma_contributed_single, statements, visit, visit_below, visit_each,
};

verus! {

broadcast use {
    vstd::std_specs::vec::group_vec_axioms,
    vstd::std_specs::hash::group_hash_axioms,
};

/// The local that a `let` declares.
pub open spec fn let_id(s: Stmt) -> Set<u32> {
    match s {
        Stmt::Let { id, .. } => set![id],
        _ => Set::empty(),
    }
}

pub open spec fn lets_give() -> spec_fn(Stmt) -> Set<u32> {
    |s: Stmt| let_id(s)
}

/// The ids that the `let`s among `stmts` declare.
pub open spec fn declared(stmts: Seq<Stmt>) -> Set<u32> {
    collected(stmts, lets_give())
}

/// Collects the ids declared by the `let`s of a block, nested ones included.
pub fn collect_let_ids(stmts: &[Stmt], out: &mut HashSet<u32>)
    ensures
        final(out)@ == old(out)@.union(declared(block_stmts(stmts@, true))),
{
    let ghost before = out@;
    let all = statements(stmts, true);
    let ghost listing = block_stmts(stmts@, true);
    let mut i: usize = 0;
    while i < all.len()
        invariant
            i <= all@.len(),
            all@.unref() == listing,
            out@ == before.union(declared(listing.take(i as int))),
        decreases all@.len() - i,
    {
        assert(*all@[i as int] == listing[i as int]);
        proof {
            lemma_collected_next(listing, i as int, lets_give());
        }
        if let Stmt::Let { id, .. } = all[i] {
            out.insert(*id);
        }
        assert(out@ =~= before.union(declared(listing.take(i + 1))));
        i += 1;
    }
    assert(listing.take(i as int) =~= listing);
}

/// The ids an expression names itself: the local it reads, writes or updates,
/// the local it operates on, the locals a closure captures.
pub open spec fn named_ids(e: Expr) -> Set<u32> {
    match e {
        Expr::LocalGet(id) => set![id],
        Expr::LocalSet(id, _) => set![id],
        Expr::Update(id) => set![id],
        Expr::OnLocal { id, .. } => set![id],
        Expr::Closure { captures, .. } => captures@.to_set(),
        _ => Set::empty(),
    }
}

pub open spec fn refs_give() -> spec_fn(Expr) -> Set<u32> {
    |e: Expr| named_ids(e)
}

/// The ids referred to anywhere in an expression, closure bodies included.
pub open spec fn ref_ids(e: Expr) -> Set<u32> {
    contributed(visit(e, everywhere()), refs_give())
}

/// The ids referred to anywhere in a block.
pub open spec fn block_ref_ids(stmts: Seq<Stmt>) -> Set<u32> {
    contributed(visit_each(block_exprs(stmts), everywhere()), refs_give())
}

/// Collects the ids that a block refers to.
pub fn collect_ref_ids_in_stmts(stmts: &[Stmt], out: &mut HashSet<u32>)
    ensures
        final(out)@ == old(out)@.union(block_ref_ids(stmts@)),
{
    let ghost before = out@;
    let all = expressions(stmts);
    let ghost listing = block_exprs(stmts@);
    let mut i: usize = 0;
    proof {
        lemma_contributed_single(Expr::This, refs_give());
    }
    while i < all.len()
        invariant
            i <= all@.len(),
            all@.unref() == listing,
            out@ == before.union(
                contributed(
                    visit_each(listing.take(i as int), everywhere()),
                    refs_give(),
                ),
            ),
        decreases all@.len() - i,
    {
        assert(*all@[i as int] == listing[i as int]);
        collect_ref_ids_in_expr(all[i], out);
        proof {
            assert(listing.take(i + 1).drop_last() =~= listing.take(i as int));
            lemma_contributed_concat(
                visit_each(listing.take(i as int), everywhere()),
                visit(listing[i as int], everywhere()),
                refs_give(),
            );
        }
        i += 1;
    }
    assert(listing.take(i as int) =~= listing);
}

/// Adds the elements of a list to a set.
pub fn insert_all(ids: &Vec<LocalId>, out: &mut HashSet<u32>)
    ensures
        final(out)@ == old(out)@.union(ids@.to_set()),
{
    let ghost before = out@;
    let mut i: usize = 0;
    while i < ids.len()
        invariant
            i <= ids@.len(),
            out@ == before.union(ids@.take(i as int).to_set()),
        decreases ids@.len() - i,
    {
        out.insert(ids[i]);
        proof {
            let a = ids@.take(i as int);
            let b = ids@.take(i + 1);
            assert(b =~= a.push(ids@[i as int]));
            assert forall|x: u32| b.contains(x) implies a.contains(x) || x == ids@[i as int] by {
                let j = choose|j: int| 0 <= j < b.len() && b[j] == x;
                if j < i {
                    assert(a[j] == x);
                }
            }
            assert forall|x: u32| a.contains(x) implies b.contains(x) by {
                let j = choose|j: int| 0 <= j < a.len() && a[j] == x;
                assert(b[j] == x);
            }
            assert(b[i as int] == ids@[i as int]);
            assert(b.to_set() =~= a.to_set().insert(ids@[i as int]));
        }
        i += 1;
    }
    assert(ids@.take(i as int) =~= ids@);
}

/// Collects the ids that an expression refers to.
pub fn collect_ref_ids_in_expr(e: &Expr, out: &mut HashSet<u32>)
    ensures
        final(out)@ == old(out)@.union(ref_ids(*e)),
    decreases *e,
{
    let ghost before = out@;
    match e {
        Expr::LocalGet(id) => {
            out.insert(*id);
        },
        Expr::LocalSet(id, _) => {
            out.insert(*id);
        },
        Expr::Update(id) => {
            out.insert(*id);
        },
        Expr::OnLocal { id, .. } => {
            out.insert(*id);
        },
        Expr::Closure { captures, .. } => {
            insert_all(captures, out);
        },
        _ => {},
    }
    assert(out@ =~= before.union(named_ids(*e)));
    proof {
        lemma_contributed_single(*e, refs_give());
    }
    let ghost below = children_of(*e);
    let kids = children(e);
    let mut i: usize = 0;
    while i < kids.len()
        invariant
            i <= kids@.len(),
            kids@.unref() == below,
            below == children_of(*e),
            out@ == before.union(named_ids(*e)).union(
                contributed(visit_below(*e, everywhere(), i as nat), refs_give()),
            ),
        decreases kids@.len() - i,
    {
        assert(*kids@[i as int] == below[i as int]);
        proof {
            lemma_child_smaller(*e, i as int);
            lemma_contributed_concat(
                visit_below(*e, everywhere(), i as nat),
                visit(below[i as int], everywhere()),
                refs_give(),
            );
        }
        collect_ref_ids_in_expr(kids[i], out);
        i += 1;
    }
    proof {
        lemma_contributed_concat(
            seq![*e],
            visit_below(*e, everywhere(), below.len()),
            refs_give(),
        );
    }
}

} // verus!

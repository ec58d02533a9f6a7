//! The closures of a function body, for emission as functions of their own.
use std::collections::HashSet;
use vstd::prelude::*;
use crate::codegen::hir::{Expr, FuncId, Stmt};
use crate::codegen::walk::{
    block_exprs, children, children_of, contributed, everywhere, expressions,
    lemma_child_smaller, lemma_contributed_concat, lemma_contributed_single, visit, visit_below,
    visit_each,
};

verus! {

broadcast use {
    vstd::std_specs::vec::group_vec_axioms,
    vstd::std_specs::hash::group_hash_axioms,
};

/// The id of a closure.
pub open spec fn closure_id(e: Expr) -> Set<u32> {
    match e {
        Expr::Closure { func_id, .. } => set![func_id],
        _ => Set::empty(),
    }
}

pub open spec fn closures_give() -> spec_fn(Expr) -> Set<u32> {
    |e: Expr| closure_id(e)
}

/// The ids of the closures in a list of expressions.
pub open spec fn closure_ids(es: Seq<Expr>) -> Set<u32> {
    contributed(es, closures_give())
}

/// The closures in a list of expressions, each with its id, in order: those
/// whose id is not in `seen` and is that of no closure earlier in the list.
pub open spec fn new_closures(es: Seq<Expr>, seen: Set<u32>) -> Seq<(FuncId, Expr)>
    decreases es.len(),
{
    if es.len() == 0 {
        Seq::empty()
    } else {
        let before = es.drop_last();
        new_closures(before, seen) + match es.last() {
            Expr::Closure { func_id, .. } => if seen.contains(func_id) || closure_ids(
                before,
            ).contains(func_id) {
                Seq::empty()
            } else {
                seq![(func_id, es.last())]
            },
            _ => Seq::empty(),
        }
    }
}

/// The new closures of two lists in a row.
pub proof fn lemma_new_closures_concat(a: Seq<Expr>, b: Seq<Expr>, seen: Set<u32>)
    ensures
        new_closures(a + b, seen) == new_closures(a, seen) + new_closures(
            b,
            seen.union(closure_ids(a)),
        ),
    decreases b.len(),
{
    if b.len() == 0 {
        assert(a + b =~= a);
    } else {
        lemma_new_closures_concat(a, b.drop_last(), seen);
        assert((a + b).drop_last() =~= a + b.drop_last());
        assert((a + b).last() == b.last());
        lemma_contributed_concat(a, b.drop_last(), closures_give());
    }
}

/// No two closures that are new in a list have the same id, and none has an
/// id already seen.
pub proof fn lemma_new_closures_distinct(es: Seq<Expr>, seen: Set<u32>)
    ensures
        forall|i: int, j: int|
            0 <= i < j < new_closures(es, seen).len() ==> (#[trigger] new_closures(es, seen)[i]).0
                != (#[trigger] new_closures(es, seen)[j]).0,
        forall|i: int|
            0 <= i < new_closures(es, seen).len() ==> {
                let c = #[trigger] new_closures(es, seen)[i];
                &&& !seen.contains(c.0)
                &&& closure_ids(es).contains(c.0)
                &&& es.contains(c.1)
            },
    decreases es.len(),
{
    if es.len() > 0 {
        let before = es.drop_last();
        lemma_new_closures_distinct(before, seen);
        assert(es =~= before + seq![es.last()]);
        lemma_contributed_concat(before, seq![es.last()], closures_give());
        lemma_contributed_single(es.last(), closures_give());
        let now = new_closures(es, seen);
        assert forall|i: int| 0 <= i < now.len() implies es.contains((#[trigger] now[i]).1) by {
            if i < new_closures(before, seen).len() {
                assert(now[i] == new_closures(before, seen)[i]);
                let k = choose|k: int| 0 <= k < before.len() && before[k] == now[i].1;
                assert(es[k] == now[i].1);
            } else {
                assert(es[es.len() - 1] == now[i].1);
            }
        }
    }
}

/// What a list of references refers to.
pub open spec fn referred(v: Seq<(FuncId, &Expr)>) -> Seq<(FuncId, Expr)> {
    v.map_values(|p: (FuncId, &Expr)| (p.0, *p.1))
}

/// Collects the closures of a block whose ids were not seen yet, each where it
/// is first met.
pub fn collect_closures_in_stmts<'a>(
    stmts: &'a [Stmt],
    seen: &mut HashSet<FuncId>,
    out: &mut Vec<(FuncId, &'a Expr)>,
)
    ensures
        ({
            let met = visit_each(block_exprs(stmts@), everywhere());
            &&& final(seen)@ == old(seen)@.union(closure_ids(met))
            &&& referred(final(out)@) == referred(old(out)@) + new_closures(met, old(seen)@)
        }),
{
    let ghost seen0 = seen@;
    let ghost out0 = referred(out@);
    let all = expressions(stmts);
    let ghost listing = block_exprs(stmts@);
    let mut i: usize = 0;
    proof {
        lemma_contributed_single(Expr::This, closures_give());
    }
    while i < all.len()
        invariant
            i <= all@.len(),
            all@.unref() == listing,
            ({
                let met = visit_each(listing.take(i as int), everywhere());
                &&& seen@ == seen0.union(closure_ids(met))
                &&& referred(out@) == out0 + new_closures(met, seen0)
            }),
        decreases all@.len() - i,
    {
        assert(*all@[i as int] == listing[i as int]);
        let ghost met = visit_each(listing.take(i as int), everywhere());
        let ghost more = visit(listing[i as int], everywhere());
        proof {
            assert(listing.take(i + 1).drop_last() =~= listing.take(i as int));
            lemma_contributed_concat(met, more, closures_give());
            lemma_new_closures_concat(met, more, seen0);
        }
        collect_closures_in_expr(all[i], seen, out);
        i += 1;
    }
    assert(listing.take(i as int) =~= listing);
}

/// Collects the closures of an expression, itself included.
pub fn collect_closures_in_expr<'a>(
    e: &'a Expr,
    seen: &mut HashSet<FuncId>,
    out: &mut Vec<(FuncId, &'a Expr)>,
)
    ensures
        ({
            let met = visit(*e, everywhere());
            &&& final(seen)@ == old(seen)@.union(closure_ids(met))
            &&& referred(final(out)@) == referred(old(out)@) + new_closures(met, old(seen)@)
        }),
    decreases *e,
{
    let ghost seen0 = seen@;
    let ghost out0 = referred(out@);
    if let Expr::Closure { func_id, .. } = e {
        if seen.insert(*func_id) {
            out.push((*func_id, e));
        }
    }
    proof {
        lemma_contributed_single(*e, closures_give());
        assert(seq![*e].drop_last() =~= Seq::empty());
        reveal_with_fuel(new_closures, 2);
        assert(seen@ =~= seen0.union(closure_ids(seq![*e])));
        assert(referred(out@) =~= out0 + new_closures(seq![*e], seen0));
    }
    let ghost below = children_of(*e);
    let ghost seen1 = seen@;
    let ghost out1 = referred(out@);
    proof {
        lemma_contributed_concat(
            seq![*e],
            visit_below(*e, everywhere(), below.len()),
            closures_give(),
        );
        lemma_new_closures_concat(
            seq![*e],
            visit_below(*e, everywhere(), below.len()),
            seen0,
        );
    }
    let kids = children(e);
    let mut i: usize = 0;
    while i < kids.len()
        invariant
            i <= kids@.len(),
            kids@.unref() == below,
            below == children_of(*e),
            ({
                let met = visit_below(*e, everywhere(), i as nat);
                &&& seen@ == seen1.union(closure_ids(met))
                &&& referred(out@) == out1 + new_closures(met, seen1)
            }),
        decreases kids@.len() - i,
    {
        assert(*kids@[i as int] == below[i as int]);
        let ghost met = visit_below(*e, everywhere(), i as nat);
        let ghost more = visit(below[i as int], everywhere());
        proof {
            lemma_child_smaller(*e, i as int);
            lemma_contributed_concat(met, more, closures_give());
            lemma_new_closures_concat(met, more, seen1);
        }
        collect_closures_in_expr(kids[i], seen, out);
        i += 1;
    }
}

} // verus!

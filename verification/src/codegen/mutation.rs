//! Whether a block changes a local or the array it holds.
use vstd::prelude::*;
use crate::codegen::hir::{Expr, LocalOp, Stmt};
use crate::codegen::walk::{
    any_of, block_exprs, children, children_of, everywhere, expressions, lemma_any_concat,
    lemma_any_prefix, lemma_any_single, lemma_below_prefix, lemma_child_smaller, visit,
    visit_below, visit_each,
};
use crate::text::same;

verus! {

broadcast use vstd::std_specs::vec::group_vec_axioms;

/// The array methods that change their receiver.
pub open spec fn is_array_mutator(method: Seq<char>) -> bool {
    ||| method == "push"@
    ||| method == "pop"@
    ||| method == "shift"@
    ||| method == "unshift"@
    ||| method == "splice"@
    ||| method == "sort"@
    ||| method == "reverse"@
    ||| method == "fill"@
    ||| method == "copyWithin"@
}

/// Whether `e` is the local `id`, or an element or property reached from it.
pub open spec fn rooted_at(e: Expr, id: u32) -> bool
    decreases e,
{
    match e {
        Expr::LocalGet(i) => i == id,
        Expr::IndexGet { object, .. } => rooted_at(*object, id),
        Expr::PropertyGet { object, .. } => rooted_at(*object, id),
        _ => false,
    }
}

/// The operations on a local that are an array mutator in a form of its own.
pub open spec fn is_mutating_op(op: LocalOp) -> bool {
    match op {
        LocalOp::ArrayPush | LocalOp::ArrayPop | LocalOp::ArrayShift | LocalOp::ArraySplice
        | LocalOp::ArrayUnshift | LocalOp::ArrayPushSpread | LocalOp::ArrayCopyWithin => true,
        LocalOp::SetAdd => false,
    }
}

/// Whether `e` itself changes the local `id`: assigns or updates it, stores at
/// an index of something rooted at it, or calls an array mutator on that.
pub open spec fn mutates(e: Expr, id: u32) -> bool {
    match e {
        Expr::LocalSet(target, _) => target == id,
        Expr::Update(target) => target == id,
        Expr::IndexSet { object, .. } => rooted_at(*object, id),
        Expr::NativeMethodCall { method, object, .. } => match object {
            Some(o) => is_array_mutator(method@) && rooted_at(*o, id),
            None => false,
        },
        Expr::OnLocal { op, id: target, .. } => is_mutating_op(op) && target == id,
        _ => false,
    }
}

pub open spec fn mutating(id: u32) -> spec_fn(Expr) -> bool {
    |e: Expr| mutates(e, id)
}

/// Whether something anywhere in a block, closure bodies included, changes the
/// local `id`.
pub open spec fn block_mutates(stmts: Seq<Stmt>, id: u32) -> bool {
    any_of(visit_each(block_exprs(stmts), everywhere()), mutating(id))
}

/// Whether a block mutates the local `id`.
pub fn has_any_mutation(stmts: &[Stmt], id: u32) -> (r: bool)
    ensures
        r == block_mutates(stmts@, id),
{
    let all = expressions(stmts);
    let ghost listing = block_exprs(stmts@);
    let mut i: usize = 0;
    proof {
        lemma_any_single(Expr::This, mutating(id));
    }
    while i < all.len()
        invariant
            i <= all@.len(),
            all@.unref() == listing,
            !any_of(visit_each(listing.take(i as int), everywhere()), mutating(id)),
            listing == block_exprs(stmts@),
        decreases all@.len() - i,
    {
        assert(*all@[i as int] == listing[i as int]);
        proof {
            assert(listing.take(i + 1).drop_last() =~= listing.take(i as int));
            lemma_any_concat(
                visit_each(listing.take(i as int), everywhere()),
                visit(listing[i as int], everywhere()),
                mutating(id),
            );
        }
        if expr_has_mutation(all[i], id) {
            proof {
                lemma_any_prefix(listing, i + 1, everywhere(), mutating(id));
            }
            return true;
        }
        i += 1;
    }
    assert(listing.take(i as int) =~= listing);
    false
}

fn is_local_get_chain(e: &Expr, id: u32) -> (r: bool)
    ensures
        r == rooted_at(*e, id),
    decreases *e,
{
    match e {
        Expr::LocalGet(i) => *i == id,
        Expr::IndexGet { object, .. } => is_local_get_chain(&**object, id),
        Expr::PropertyGet { object, .. } => is_local_get_chain(&**object, id),
        _ => false,
    }
}

fn array_mutator(method: &str) -> (r: bool)
    ensures
        r == is_array_mutator(method@),
{
    same(method, "push") || same(method, "pop") || same(method, "shift") || same(method, "unshift")
        || same(method, "splice") || same(method, "sort") || same(method, "reverse") || same(
        method,
        "fill",
    ) || same(method, "copyWithin")
}

fn mutates_itself(e: &Expr, id: u32) -> (r: bool)
    ensures
        r == mutates(*e, id),
{
    match e {
        Expr::LocalSet(target, _) => *target == id,
        Expr::Update(target) => *target == id,
        Expr::IndexSet { object, .. } => is_local_get_chain(&**object, id),
        Expr::NativeMethodCall { method, object, .. } => match object {
            Some(o) => array_mutator(method.as_str()) && is_local_get_chain(&**o, id),
            None => false,
        },
        Expr::OnLocal { op, id: target, .. } => !matches!(op, LocalOp::SetAdd) && *target == id,
        _ => false,
    }
}

/// Whether an expression mutates the local `id`.
pub fn expr_has_mutation(e: &Expr, id: u32) -> (r: bool)
    ensures
        r == any_of(visit(*e, everywhere()), mutating(id)),
    decreases *e,
{
    let ghost below = children_of(*e);
    proof {
        lemma_any_single(*e, mutating(id));
        lemma_any_concat(
            seq![*e],
            visit_below(*e, everywhere(), below.len()),
            mutating(id),
        );
    }
    if mutates_itself(e, id) {
        return true;
    }
    let kids = children(e);
    let mut i: usize = 0;
    while i < kids.len()
        invariant
            i <= kids@.len(),
            kids@.unref() == below,
            below == children_of(*e),
            !any_of(visit_below(*e, everywhere(), i as nat), mutating(id)),
            any_of(visit_below(*e, everywhere(), below.len()), mutating(id)) ==> any_of(
                visit(*e, everywhere()),
                mutating(id),
            ),
        decreases kids@.len() - i,
    {
        assert(*kids@[i as int] == below[i as int]);
        proof {
            lemma_child_smaller(*e, i as int);
            lemma_any_concat(
                visit_below(*e, everywhere(), i as nat),
                visit(below[i as int], everywhere()),
                mutating(id),
            );
        }
        if expr_has_mutation(kids[i], id) {
            proof {
                lemma_below_prefix(*e, (i + 1) as nat, everywhere(), mutating(id));
            }
            return true;
        }
        i += 1;
    }
    false
}

} // verus!

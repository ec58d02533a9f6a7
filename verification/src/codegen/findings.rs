//! What the searches through a program find, told by what stands in the program.
use vstd::prelude::*;
use crate::codegen::closures::{closure_ids, closures_give, new_closures};
use crate::codegen::confinement::{at_block, lemma_at_block, lemma_within, names, within};
use crate::codegen::hir::{BinaryOp, Expr, FuncId, LocalOp, Op, Stmt};
use crate::codegen::index_uses::{index_ids, index_used, index_uses_enter, index_uses_give};
use crate::codegen::mutation::{
    block_mutates, is_array_mutator, is_mutating_op, mutates, mutating, rooted_at,
};
use crate::codegen::numeric::{is_int_result, returns_int, returns_ints};
use crate::codegen::program::{
    in_block, in_expr, lemma_each_holds, lemma_everything_met, lemma_met_stands, lemma_visit_holds,
};
use crate::codegen::refs::{
    block_ref_ids, declared, let_id, lets_give, named_ids, ref_ids, refs_give,
};
use crate::codegen::values::{is_whole, value, whole, World};
use crate::codegen::walk::{
    any_of, block_exprs, block_stmts, contributed, everywhere, visit, visit_each,
};

verus! {

broadcast use vstd::std_specs::vec::group_vec_axioms;

/// The locals that a program refers to are those that something in it names.
pub proof fn lemma_refs_told(stmts: Seq<Stmt>, id: u32)
    ensures
        block_ref_ids(stmts).contains(id) <==> exists|x: Expr|
            in_block(stmts, x) && #[trigger] names(x, id),
{
    let met = visit_each(block_exprs(stmts), everywhere());
    if block_ref_ids(stmts).contains(id) {
        let i = choose|i: int| 0 <= i < met.len() && #[trigger] refs_give()(met[i]).contains(id);
        assert(met.contains(met[i]));
        lemma_everything_met(stmts, met[i]);
        assert(named_ids(met[i]).contains(id));
        assert(names(met[i], id));
    }
    if exists|x: Expr| in_block(stmts, x) && #[trigger] names(x, id) {
        let x = choose|x: Expr| in_block(stmts, x) && #[trigger] names(x, id);
        lemma_everything_met(stmts, x);
        let i = choose|i: int| 0 <= i < met.len() && met[i] == x;
        assert(refs_give()(met[i]).contains(id));
    }
}

/// Whether a statement declares a local.
pub open spec fn declares(s: Stmt, id: u32) -> bool {
    s matches Stmt::Let { id: x, ty, mutable, init } && x == id
}

/// The locals that a program declares are those of its `let`s.
pub proof fn lemma_lets_told(stmts: Seq<Stmt>, id: u32)
    ensures
        declared(block_stmts(stmts, true)).contains(id) <==> exists|s: Stmt|
            within(stmts, s) && #[trigger] declares(s, id),
{
    let ss = block_stmts(stmts, true);
    if declared(ss).contains(id) {
        let i = choose|i: int| 0 <= i < ss.len() && #[trigger] lets_give()(ss[i]).contains(id);
        assert(let_id(ss[i]).contains(id));
        assert(ss.contains(ss[i]));
        lemma_within(stmts, ss[i]);
        assert(declares(ss[i], id));
    }
    if exists|s: Stmt| within(stmts, s) && #[trigger] declares(s, id) {
        let s = choose|s: Stmt| within(stmts, s) && #[trigger] declares(s, id);
        lemma_within(stmts, s);
        let i = choose|i: int| 0 <= i < ss.len() && ss[i] == s;
        assert(lets_give()(ss[i]).contains(id));
    }
}

/// Whether `e` is a local, or reached from it through elements and properties.
pub open spec fn reaches(e: Expr, id: u32) -> bool
    decreases e,
{
    ||| e == Expr::LocalGet(id)
    ||| (e matches Expr::IndexGet { object, index } && reaches(*object, id))
    ||| (e matches Expr::PropertyGet { object, property } && reaches(*object, id))
}

/// Whether an expression changes a local or what it holds: sets or updates it, stores
/// at an index of what is reached from it, or calls one of the methods that change an
/// array on that.
pub open spec fn changes(d: Expr, id: u32) -> bool {
    match d {
        Expr::LocalSet(x, _) => x == id,
        Expr::Update(x) => x == id,
        Expr::IndexSet { object, index, value } => reaches(*object, id),
        Expr::NativeMethodCall { module, method, object, args } => object is Some && reaches(
            *object->0,
            id,
        ) && (method@ == "push"@ || method@ == "pop"@ || method@ == "shift"@ || method@
            == "unshift"@ || method@ == "splice"@ || method@ == "sort"@ || method@ == "reverse"@
            || method@ == "fill"@ || method@ == "copyWithin"@),
        Expr::OnLocal { op, id: x, operands } => x == id && op != LocalOp::SetAdd,
        _ => false,
    }
}

proof fn lemma_reaches(e: Expr, id: u32)
    ensures
        rooted_at(e, id) <==> reaches(e, id),
    decreases e,
{
    match e {
        Expr::IndexGet { object, index } => {
            lemma_reaches(*object, id);
        },
        Expr::PropertyGet { object, property } => {
            lemma_reaches(*object, id);
        },
        _ => {},
    }
}

/// A program mutates a local exactly where something in it changes the local or what it
/// holds.
pub proof fn lemma_mutations_told(stmts: Seq<Stmt>, id: u32)
    ensures
        block_mutates(stmts, id) <==> exists|d: Expr|
            in_block(stmts, d) && #[trigger] changes(d, id),
{
    let met = visit_each(block_exprs(stmts), everywhere());
    assert forall|d: Expr| mutates(d, id) == #[trigger] changes(d, id) by {
        match d {
            Expr::IndexSet { object, index, value } => {
                lemma_reaches(*object, id);
            },
            Expr::NativeMethodCall { module, method, object, args } => {
                if let Some(o) = object {
                    lemma_reaches(*o, id);
                }
            },
            _ => {},
        }
    }
    if block_mutates(stmts, id) {
        let i = choose|i: int| 0 <= i < met.len() && #[trigger] mutating(id)(met[i]);
        assert(met.contains(met[i]));
        lemma_everything_met(stmts, met[i]);
        assert(changes(met[i], id));
    }
    if exists|d: Expr| in_block(stmts, d) && #[trigger] changes(d, id) {
        let d = choose|d: Expr| in_block(stmts, d) && #[trigger] changes(d, id);
        lemma_everything_met(stmts, d);
        let i = choose|i: int| 0 <= i < met.len() && met[i] == d;
        assert(mutating(id)(met[i]));
    }
}

/// Whether an expression is a closure of an id.
pub open spec fn is_closure(d: Expr, f: FuncId) -> bool {
    d matches Expr::Closure { func_id, body, captures, captures_this } && func_id == f
}

/// The ids of closures that a list holds.
proof fn lemma_closure_ids(es: Seq<Expr>, f: FuncId)
    ensures
        closure_ids(es).contains(f) <==> exists|d: Expr| es.contains(d) && #[trigger] is_closure(d, f),
{
    if closure_ids(es).contains(f) {
        let i = choose|i: int| 0 <= i < es.len() && #[trigger] closures_give()(es[i]).contains(f);
        assert(es.contains(es[i]));
        assert(is_closure(es[i], f));
    }
    if exists|d: Expr| es.contains(d) && #[trigger] is_closure(d, f) {
        let d = choose|d: Expr| es.contains(d) && #[trigger] is_closure(d, f);
        let i = choose|i: int| 0 <= i < es.len() && es[i] == d;
        assert(closures_give()(es[i]).contains(f));
    }
}

/// Every id of a closure that was not seen is among the new ones, with a closure of
/// that id.
proof fn lemma_new_complete(es: Seq<Expr>, seen: Set<u32>, f: FuncId)
    ensures
        closure_ids(es).contains(f) && !seen.contains(f) ==> exists|i: int|
            0 <= i < new_closures(es, seen).len() && (#[trigger] new_closures(es, seen)[i]).0 == f,
        forall|i: int|
            0 <= i < new_closures(es, seen).len() ==> is_closure(
                (#[trigger] new_closures(es, seen)[i]).1,
                new_closures(es, seen)[i].0,
            ),
    decreases es.len(),
{
    if es.len() > 0 {
        let front = es.drop_last();
        lemma_new_complete(front, seen, f);
        let before = new_closures(front, seen);
        let all = new_closures(es, seen);
        assert forall|i: int| 0 <= i < all.len() implies is_closure((#[trigger] all[i]).1, all[i].0) by {
            if i < before.len() {
                assert(all[i] == before[i]);
            }
        }
        if closure_ids(es).contains(f) && !seen.contains(f) {
            if closure_ids(front).contains(f) {
                let i = choose|i: int| 0 <= i < before.len() && (#[trigger] before[i]).0 == f;
                assert(all[i] == before[i]);
            } else {
                lemma_closure_ids(es, f);
                lemma_closure_ids(front, f);
                let d = choose|d: Expr| es.contains(d) && #[trigger] is_closure(d, f);
                let k = choose|k: int| 0 <= k < es.len() && es[k] == d;
                if k < front.len() {
                    assert(front[k] == d);
                    assert(front.contains(d));
                }
                assert(all[all.len() - 1].0 == f);
            }
        }
    }
}

/// The closures that are collected from a program: each stands in it, and every closure
/// that stands in it has an id that was seen or is collected.
pub proof fn lemma_closures_told(stmts: Seq<Stmt>, seen: Set<u32>, f: FuncId)
    ensures
        ({
            let met = visit_each(block_exprs(stmts), everywhere());
            let found = new_closures(met, seen);
            &&& closure_ids(met).contains(f) <==> exists|d: Expr|
                in_block(stmts, d) && #[trigger] is_closure(d, f)
            &&& (exists|d: Expr| in_block(stmts, d) && #[trigger] is_closure(d, f))
                && !seen.contains(f) ==> exists|i: int|
                0 <= i < found.len() && (#[trigger] found[i]).0 == f
            &&& forall|i: int|
                0 <= i < found.len() ==> in_block(stmts, (#[trigger] found[i]).1) && is_closure(
                    found[i].1,
                    found[i].0,
                ) && !seen.contains(found[i].0)
        }),
{
    let met = visit_each(block_exprs(stmts), everywhere());
    let found = new_closures(met, seen);
    lemma_closure_ids(met, f);
    lemma_new_complete(met, seen, f);
    crate::codegen::closures::lemma_new_closures_distinct(met, seen);
    if exists|d: Expr| met.contains(d) && #[trigger] is_closure(d, f) {
        let d = choose|d: Expr| met.contains(d) && #[trigger] is_closure(d, f);
        lemma_everything_met(stmts, d);
    }
    if exists|d: Expr| in_block(stmts, d) && #[trigger] is_closure(d, f) {
        let d = choose|d: Expr| in_block(stmts, d) && #[trigger] is_closure(d, f);
        lemma_everything_met(stmts, d);
    }
    assert forall|i: int| 0 <= i < found.len() implies in_block(stmts, (#[trigger] found[i]).1)
        && is_closure(found[i].1, found[i].0) && !seen.contains(found[i].0) by {
        lemma_everything_met(stmts, found[i].1);
    }
}

/// The index of an indexing expression.
pub open spec fn index_part(d: Expr) -> Option<Expr> {
    match d {
        Expr::IndexGet { object, index } => Some(*index),
        Expr::IndexSet { object, index, value } => Some(*index),
        Expr::IndexUpdate { object, index } => Some(*index),
        Expr::IndexRead { op, object, index } => Some(*index),
        Expr::IndexWrite { op, object, index, value } => Some(*index),
        _ => None,
    }
}

/// Whether a local is named in the index of an indexing expression.
pub open spec fn indexes_by(d: Expr, id: u32) -> bool {
    index_part(d) matches Some(i) && exists|x: Expr| in_expr(i, x) && #[trigger] names(x, id)
}

/// A local that is said to be used in an index is named in the index of something that
/// stands in the program, and every local named in the index of what a statement holds
/// itself is said to be.
pub proof fn lemma_index_uses_told(stmts: Seq<Stmt>, id: u32)
    ensures
        index_used(stmts).contains(id) ==> exists|d: Expr|
            in_block(stmts, d) && #[trigger] indexes_by(d, id),
        forall|d: Expr|
            at_block(stmts, d) && #[trigger] indexes_by(d, id) ==> index_used(stmts).contains(id),
{
    let enters = index_uses_enter();
    let es = block_exprs(stmts);
    let met = visit_each(es, enters);
    if index_used(stmts).contains(id) {
        let i = choose|i: int|
            0 <= i < met.len() && #[trigger] index_uses_give()(met[i]).contains(id);
        assert(met.contains(met[i]));
        lemma_met_stands(stmts, enters, met[i]);
        assert(index_ids(met[i]).contains(id));
        let part = index_part(met[i])->0;
        crate::codegen::confinement::lemma_refers(part, id);
        assert(indexes_by(met[i], id));
    }
    assert forall|d: Expr| at_block(stmts, d) && #[trigger] indexes_by(d, id) implies index_used(
        stmts,
    ).contains(id) by {
        lemma_at_block(stmts, d);
        let k = choose|k: int| 0 <= k < es.len() && es[k] == d;
        lemma_visit_holds(d, enters, d);
        lemma_each_holds(es, enters, d);
        assert(visit(es[k], enters).contains(d));
        let i = choose|i: int| 0 <= i < met.len() && met[i] == d;
        let part = index_part(d)->0;
        crate::codegen::confinement::lemma_refers(part, id);
        assert(ref_ids(part).contains(id));
        assert(index_uses_give()(met[i]).contains(id));
    }
}

/// Whether a statement, where it returns, returns a value of which it is plain that it
/// is a whole number: a whole literal, a bitwise operation or `Math.imul`.
pub open spec fn returns_whole(s: Stmt) -> bool {
    match s {
        Stmt::Return(Some(e)) => match e {
            Expr::Integer(_) => true,
            Expr::Binary { op, left, right } => match op {
                BinaryOp::BitAnd
                | BinaryOp::BitOr
                | BinaryOp::BitXor
                | BinaryOp::Shl
                | BinaryOp::Shr
                | BinaryOp::UShr => true,
                _ => false,
            },
            Expr::Node { op, operands } => op == Op::MathImul,
            _ => false,
        },
        Stmt::Return(None) => false,
        _ => true,
    }
}

/// A body returns integers exactly where every `return` that stands in it returns such a
/// value, and what it returns is then a whole number whatever the world is like.
pub proof fn lemma_returns_told(ss: Seq<Stmt>)
    ensures
        returns_ints(ss) <==> forall|s: Stmt| #[trigger] within(ss, s) ==> returns_whole(s),
        returns_ints(ss) ==> forall|e: Expr, w: World|
            within(ss, Stmt::Return(Some(e))) ==> is_whole(#[trigger] value(e, w)),
{
    let all = block_stmts(ss, true);
    if returns_ints(ss) {
        assert forall|s: Stmt| #[trigger] within(ss, s) implies returns_whole(s) by {
            lemma_within(ss, s);
            let i = choose|i: int| 0 <= i < all.len() && all[i] == s;
            assert(returns_int(all[i]));
        }
        assert forall|e: Expr, w: World| within(ss, Stmt::Return(Some(e))) implies is_whole(
            #[trigger] value(e, w),
        ) by {
            assert(returns_whole(Stmt::Return(Some(e))));
            let v = value(e, w);
            assert(v.d == 1);
            assert(v.n == v.n * v.d);
        }
    }
    if forall|s: Stmt| #[trigger] within(ss, s) ==> returns_whole(s) {
        assert forall|i: int| 0 <= i < all.len() implies returns_int(#[trigger] all[i]) by {
            assert(all.contains(all[i]));
            lemma_within(ss, all[i]);
        }
    }
}

} // verus!

//! What functions of numbers alone are made of, and what clamps come to.
use vstd::prelude::*;
use crate::codegen::confinement::{within, within_stmt};
use crate::codegen::hir::{CompareOp, Expr, Function, Stmt};
use crate::codegen::meaning::{
    entry_locals, eval, holds, meaning, run_block, run_stmt, Locals, Outcome,
};
use crate::codegen::numeric::{
    all_numeric, is_clamp3, is_clamp_u8, is_numeric, is_numeric_block, is_numeric_stmt,
    is_specializable, returns_bound,
};
use crate::codegen::program::{in_expr, lemma_in_child, lemma_in_parts, lemma_part_smaller, parts};

verus! {

broadcast use vstd::std_specs::vec::group_vec_axioms;

// ---- numbers alone ----

/// Whether none of some expressions is a function.
pub open spec fn no_function(es: Seq<Expr>) -> bool {
    forall|i: int| 0 <= i < es.len() ==> !(#[trigger] es[i] is FuncRef)
}

/// Whether an expression is a number, a local, a sum, a difference, a product, a
/// comparison or a choice between numbers, or a call of one function with numbers.
pub open spec fn is_plain_number(e: Expr, own: u32) -> bool {
    match e {
        Expr::Integer(_) | Expr::Number(_) | Expr::LocalGet(_) => true,
        Expr::FuncRef(g) => g == own,
        Expr::Binary { op, left, right } => {
            &&& op is Add || op is Sub || op is Mul
            &&& !(*left is FuncRef)
            &&& !(*right is FuncRef)
        },
        Expr::Compare { op, left, right } => !(*left is FuncRef) && !(*right is FuncRef),
        Expr::Call { callee, args } => *callee is FuncRef && no_function(args@),
        Expr::Node { op, operands } => op is Conditional && no_function(operands@),
        _ => false,
    }
}

/// Whether an expression is made of such expressions throughout.
pub open spec fn is_arithmetic(e: Expr, own: u32) -> bool {
    &&& !(e is FuncRef)
    &&& forall|d: Expr| #[trigger] in_expr(e, d) ==> is_plain_number(d, own)
}

/// Whether a statement returns, declares, branches on or computes just numbers.
pub open spec fn is_plain_statement(s: Stmt, own: u32) -> bool {
    match s {
        Stmt::Return(e) => e matches Some(e) ==> is_arithmetic(e, own),
        Stmt::Let { id, ty, mutable, init } => init matches Some(e) ==> is_arithmetic(e, own),
        Stmt::If { condition, then_branch, else_branch } => is_arithmetic(condition, own),
        Stmt::Expr(e) => is_arithmetic(e, own),
        _ => false,
    }
}

proof fn lemma_all_numeric(es: Seq<Expr>, own: u32)
    ensures
        all_numeric(es, own) <==> forall|i: int|
            0 <= i < es.len() ==> is_numeric(#[trigger] es[i], own),
    decreases es.len(),
{
    if es.len() > 0 {
        let front = es.drop_last();
        lemma_all_numeric(front, own);
        if all_numeric(es, own) {
            assert forall|i: int| 0 <= i < es.len() implies is_numeric(#[trigger] es[i], own) by {
                if i < front.len() {
                    assert(is_numeric(front[i], own));
                }
            }
        }
        if forall|i: int| 0 <= i < es.len() ==> is_numeric(#[trigger] es[i], own) {
            assert forall|i: int| 0 <= i < front.len() implies is_numeric(
                #[trigger] front[i],
                own,
            ) by {
                assert(front[i] == es[i]);
            }
            assert(is_numeric(es[es.len() - 1], own));
        }
    }
}

/// An expression counts as numeric exactly where it is made of numbers throughout.
pub proof fn lemma_numeric_is_arithmetic(e: Expr, own: u32)
    ensures
        is_numeric(e, own) <==> is_arithmetic(e, own),
    decreases e,
{
    let ps = parts(e);
    assert forall|i: int| 0 <= i < ps.len() implies is_numeric(ps[i], own) == is_arithmetic(
        #[trigger] ps[i],
        own,
    ) by {
        lemma_part_smaller(e, i);
        lemma_numeric_is_arithmetic(ps[i], own);
    }
    if let Expr::Call { callee, args } = e {
        lemma_all_numeric(args@, own);
        assert forall|i: int| 0 <= i < args@.len() implies ps[i + 1] == #[trigger] args@[i] by {}
    }
    if let Expr::Node { op, operands } = e {
        lemma_all_numeric(operands@, own);
    }
    if is_numeric(e, own) {
        assert forall|d: Expr| #[trigger] in_expr(e, d) implies is_plain_number(d, own) by {
            if d != e {
                lemma_in_parts(e, d, ps.len());
                let i = choose|i: int| 0 <= i < ps.len() && in_expr(#[trigger] ps[i], d);
                if ps[i] is FuncRef {
                    assert(ps[i] == d);
                } else {
                    if e is Call {
                        assert(i > 0);
                    }
                    assert(is_numeric(ps[i], own));
                    assert(is_arithmetic(ps[i], own));
                }
            }
        }
    }
    if is_arithmetic(e, own) {
        assert(in_expr(e, e));
        assert(is_plain_number(e, own));
        assert forall|i: int| 0 <= i < ps.len() && !(ps[i] is FuncRef) implies is_numeric(
            #[trigger] ps[i],
            own,
        ) by {
            assert forall|d: Expr| #[trigger] in_expr(ps[i], d) implies is_plain_number(
                d,
                own,
            ) by {
                lemma_in_child(e, i, d);
                assert(in_expr(e, d));
            }
            assert(is_arithmetic(ps[i], own));
        }
        match e {
            Expr::Binary { op, left, right } => {
                assert(ps[0] == *left && ps[1] == *right);
            },
            Expr::Compare { op, left, right } => {
                assert(ps[0] == *left && ps[1] == *right);
            },
            Expr::Call { callee, args } => {
                assert(ps[0] == *callee);
                assert(in_expr(ps[0], ps[0]));
                lemma_in_child(e, 0, *callee);
                assert(is_plain_number(*callee, own));
                assert forall|i: int| 0 <= i < args@.len() implies is_numeric(
                    #[trigger] args@[i],
                    own,
                ) by {
                    assert(ps[i + 1] == args@[i]);
                }
            },
            _ => {},
        }
    }
}

proof fn lemma_stmt_is_arithmetic(s: Stmt, own: u32)
    ensures
        is_numeric_stmt(s, own) <==> forall|t: Stmt| #[trigger]
            within_stmt(s, t) ==> is_plain_statement(t, own),
    decreases s,
{
    assert(within_stmt(s, s));
    match s {
        Stmt::Return(Some(e)) => {
            lemma_numeric_is_arithmetic(e, own);
        },
        Stmt::Let { id, ty, mutable, init: Some(e) } => {
            lemma_numeric_is_arithmetic(e, own);
        },
        Stmt::Expr(e) => {
            lemma_numeric_is_arithmetic(e, own);
        },
        Stmt::If { condition, then_branch, else_branch } => {
            lemma_numeric_is_arithmetic(condition, own);
            lemma_block_is_arithmetic(then_branch@, own);
            if let Some(b) = else_branch {
                lemma_block_is_arithmetic(b@, own);
                if is_numeric_stmt(s, own) {
                    assert forall|t: Stmt| #[trigger] within_stmt(s, t) implies is_plain_statement(
                        t,
                        own,
                    ) by {
                        if t != s {
                            assert(within(then_branch@, t) || within(b@, t));
                        }
                    }
                } else if forall|t: Stmt| #[trigger]
                    within_stmt(s, t) ==> is_plain_statement(t, own) {
                    assert forall|t: Stmt| #[trigger] within(then_branch@, t) implies
                        is_plain_statement(t, own) by {
                        assert(within_stmt(s, t));
                    }
                    assert forall|t: Stmt| #[trigger] within(b@, t) implies is_plain_statement(
                        t,
                        own,
                    ) by {
                        assert(within_stmt(s, t));
                    }
                }
            } else {
                if is_numeric_stmt(s, own) {
                    assert forall|t: Stmt| #[trigger] within_stmt(s, t) implies is_plain_statement(
                        t,
                        own,
                    ) by {
                        if t != s {
                            assert(within(then_branch@, t));
                        }
                    }
                } else if forall|t: Stmt| #[trigger]
                    within_stmt(s, t) ==> is_plain_statement(t, own) {
                    assert forall|t: Stmt| #[trigger] within(then_branch@, t) implies
                        is_plain_statement(t, own) by {
                        assert(within_stmt(s, t));
                    }
                }
            }
        },
        _ => {},
    }
}

proof fn lemma_block_is_arithmetic(ss: Seq<Stmt>, own: u32)
    ensures
        is_numeric_block(ss, own) <==> forall|t: Stmt| #[trigger]
            within(ss, t) ==> is_plain_statement(t, own),
    decreases ss,
{
    if ss.len() > 0 {
        lemma_block_is_arithmetic(ss.drop_last(), own);
        lemma_stmt_is_arithmetic(ss.last(), own);
        if is_numeric_block(ss, own) {
            assert forall|t: Stmt| #[trigger] within(ss, t) implies is_plain_statement(t, own) by {
                assert(within(ss.drop_last(), t) || within_stmt(ss.last(), t));
            }
        } else if forall|t: Stmt| #[trigger] within(ss, t) ==> is_plain_statement(t, own) {
            assert forall|t: Stmt| #[trigger] within(ss.drop_last(), t) implies is_plain_statement(
                t,
                own,
            ) by {
                assert(within(ss, t));
            }
            assert forall|t: Stmt| #[trigger] within_stmt(ss.last(), t) implies is_plain_statement(
                t,
                own,
            ) by {
                assert(within(ss, t));
            }
        }
    }
}

/// A function is compiled to integer code exactly where it runs through in one go, is
/// of numbers, and every statement in it, however deep, deals with numbers alone.
pub proof fn lemma_specializable_told(f: Function)
    ensures
        is_specializable(f) <==> {
            &&& !f.is_async
            &&& !f.is_generator
            &&& f.return_type is Number
            &&& forall|i: int| 0 <= i < f.params@.len() ==> (#[trigger] f.params@[i]).ty is Number
            &&& forall|s: Stmt| #[trigger] within(f.body@, s) ==> is_plain_statement(s, f.id)
        },
{
    lemma_block_is_arithmetic(f.body@, f.id);
}

// ---- clamps ----

/// A number brought into a range, the lower bound first.
pub open spec fn clamped(v: int, lo: int, hi: int) -> int {
    if v < lo {
        lo
    } else if v > hi {
        hi
    } else {
        v
    }
}

proof fn lemma_one_statement(f: Function, s: Stmt, env: Locals, fuel: nat)
    ensures
        run_block(f, seq![s], env, fuel) == run_stmt(f, s, env, fuel),
{
    reveal_with_fuel(run_block, 2);
    assert(seq![s].drop_last() =~= Seq::empty());
    assert(seq![s].last() == s);
}

proof fn lemma_guard(
    f: Function,
    s: Stmt,
    op: CompareOp,
    v: u32,
    bound: Expr,
    env: Locals,
    fuel: nat,
)
    requires
        returns_bound(s, op, v, bound),
        env.dom().contains(v),
        eval(f, bound, env, fuel) is Some,
        op is Lt || op is Gt,
    ensures
        run_stmt(f, s, env, fuel) == {
            let b = eval(f, bound, env, fuel)->0;
            if (op is Lt && env[v] < b) || (op is Gt && env[v] > b) {
                Outcome::Returns(b)
            } else {
                Outcome::Goes(env)
            }
        },
{
    if let Stmt::If { condition, then_branch, else_branch } = s {
        lemma_one_statement(f, Stmt::Return(Some(bound)), env, fuel);
        if let Expr::Compare { op: o, left, right } = condition {
            assert(eval(f, *left, env, fuel) == Some(env[v]));
            assert(holds(f, condition, env, fuel) is Some);
        }
    }
}

proof fn lemma_three_statements(f: Function, ss: Seq<Stmt>, env: Locals, fuel: nat)
    requires
        ss.len() == 3,
    ensures
        run_block(f, ss, env, fuel) == match run_stmt(f, ss[0], env, fuel) {
            Outcome::Goes(a) => match run_stmt(f, ss[1], a, fuel) {
                Outcome::Goes(b) => run_stmt(f, ss[2], b, fuel),
                other => other,
            },
            other => other,
        },
{
    reveal_with_fuel(run_block, 3);
    let two = ss.drop_last();
    let one = two.drop_last();
    assert(one =~= seq![ss[0]]);
    assert(run_block(f, one, env, fuel) == run_block(f, seq![ss[0]], env, fuel));
    lemma_one_statement(f, ss[0], env, fuel);
    assert(two.last() == ss[1]);
    assert(ss.last() == ss[2]);
}

/// A function that is taken for a clamp of three parameters brings the first into the
/// range of the other two.
pub proof fn lemma_clamp3_clamps(f: Function, v: int, lo: int, hi: int, fuel: nat)
    requires
        is_clamp3(f),
        f.params@[0].id != f.params@[1].id,
        f.params@[0].id != f.params@[2].id,
        f.params@[1].id != f.params@[2].id,
    ensures
        meaning(f, seq![v, lo, hi], fuel) == Some(clamped(v, lo, hi)),
{
    let ps = f.params@;
    let env = entry_locals(ps, seq![v, lo, hi]);
    reveal_with_fuel(entry_locals, 4);
    assert(ps.drop_last().drop_last().drop_last().len() == 0);
    assert(ps.drop_last().drop_last().last() == ps[0]);
    assert(ps.drop_last().last() == ps[1]);
    assert(env.dom().contains(ps[0].id) && env[ps[0].id] == v);
    assert(env.dom().contains(ps[1].id) && env[ps[1].id] == lo);
    assert(env.dom().contains(ps[2].id) && env[ps[2].id] == hi);
    let ss = f.body@;
    lemma_three_statements(f, ss, env, fuel);
    lemma_guard(f, ss[0], CompareOp::Lt, ps[0].id, Expr::LocalGet(ps[1].id), env, fuel);
    lemma_guard(f, ss[1], CompareOp::Gt, ps[0].id, Expr::LocalGet(ps[2].id), env, fuel);
    assert(run_stmt(f, ss[2], env, fuel) == Outcome::Returns(v));
}

/// A function that is taken for a clamp to a byte returns the nearer end of the range
/// of a byte for what lies outside it, and for what lies inside the bits of the value
/// itself.
pub proof fn lemma_clamp_u8_clamps(f: Function, v: int, fuel: nat)
    requires
        is_clamp_u8(f),
    ensures
        v < 0 || v > 255 ==> meaning(f, seq![v], fuel) == Some(clamped(v, 0, 255)),
        f.body@.last() matches Stmt::Return(Some(Expr::Binary { op, left, right })) && op is BitOr
            && *left == Expr::LocalGet(f.params@[0].id) && *right == Expr::Integer(0),
{
    let ps = f.params@;
    let env = entry_locals(ps, seq![v]);
    reveal_with_fuel(entry_locals, 2);
    assert(ps.drop_last().len() == 0);
    assert(env.dom().contains(ps[0].id) && env[ps[0].id] == v);
    let ss = f.body@;
    lemma_three_statements(f, ss, env, fuel);
    lemma_guard(f, ss[0], CompareOp::Lt, ps[0].id, Expr::Integer(0), env, fuel);
    lemma_guard(f, ss[1], CompareOp::Gt, ps[0].id, Expr::Integer(255), env, fuel);
}

/// Whether a statement is `if (v <op> bound) return bound;`, with nothing else to it.
pub open spec fn cuts_off(s: Stmt, op: CompareOp, v: Expr, bound: Expr) -> bool {
    s matches Stmt::If {
        condition: Expr::Compare { op: o, left, right },
        then_branch,
        else_branch,
    } && o == op && *left == v && *right == bound && else_branch is None && then_branch@.len() == 1
        && then_branch@[0] == Stmt::Return(Some(bound))
}

/// Every function that cuts its first parameter off at the other two, below and above,
/// and then returns it, is taken for a clamp.
pub proof fn lemma_clamp3_recognised(f: Function)
    requires
        !f.is_async,
        !f.is_generator,
        f.return_type is Number,
        f.params@.len() == 3,
        f.body@.len() == 3,
        cuts_off(
            f.body@[0],
            CompareOp::Lt,
            Expr::LocalGet(f.params@[0].id),
            Expr::LocalGet(f.params@[1].id),
        ),
        cuts_off(
            f.body@[1],
            CompareOp::Gt,
            Expr::LocalGet(f.params@[0].id),
            Expr::LocalGet(f.params@[2].id),
        ),
        f.body@[2] == Stmt::Return(Some(Expr::LocalGet(f.params@[0].id))),
    ensures
        is_clamp3(f),
{
    if let Stmt::If { condition, then_branch, else_branch } = f.body@[0] {
        assert(then_branch@ =~= seq![Stmt::Return(Some(Expr::LocalGet(f.params@[1].id)))]);
    }
    if let Stmt::If { condition, then_branch, else_branch } = f.body@[1] {
        assert(then_branch@ =~= seq![Stmt::Return(Some(Expr::LocalGet(f.params@[2].id)))]);
    }
}

/// Every function that cuts its parameter off at the ends of a byte's range, and then
/// returns the bits of it, is taken for a clamp to a byte.
pub proof fn lemma_clamp_u8_recognised(f: Function)
    requires
        !f.is_async,
        !f.is_generator,
        f.params@.len() == 1,
        f.body@.len() == 3,
        cuts_off(
            f.body@[0],
            CompareOp::Lt,
            Expr::LocalGet(f.params@[0].id),
            Expr::Integer(0),
        ),
        cuts_off(
            f.body@[1],
            CompareOp::Gt,
            Expr::LocalGet(f.params@[0].id),
            Expr::Integer(255),
        ),
        f.body@[2] matches Stmt::Return(Some(Expr::Binary { op, left, right })) && op is BitOr
            && *left == Expr::LocalGet(f.params@[0].id) && *right == Expr::Integer(0),
    ensures
        is_clamp_u8(f),
{
    if let Stmt::If { condition, then_branch, else_branch } = f.body@[0] {
        assert(then_branch@ =~= seq![Stmt::Return(Some(Expr::Integer(0)))]);
    }
    if let Stmt::If { condition, then_branch, else_branch } = f.body@[1] {
        assert(then_branch@ =~= seq![Stmt::Return(Some(Expr::Integer(255)))]);
    }
}

} // verus!

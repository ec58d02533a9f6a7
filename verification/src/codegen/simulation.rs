//! That the code emitted for a numeric function computes what the function means.
use vstd::prelude::*;
use crate::codegen::emit::{
    bind, block_code, condition_code, end, ended, flow_to, function_code, open_block, params_code,
    put, stmt_code, value_code, values_code, Code, Own,
};
use crate::codegen::hir::{BinaryOp, CompareOp, Expr, Function, Param, Stmt};
use crate::codegen::llvm::{
    ArithOp, BlockView, FunctionView, InstView, Operand, Predicate, Terminator,
};
use crate::codegen::meaning::{
    argument, call, compares, entry_locals, eval, eval_all, holds, meaning, operand, operands,
    predicate, run_block, run_code, run_stmt, step, with_result, wrapped, Locals, Machine, Outcome,
};

verus! {

broadcast use vstd::std_specs::vec::group_vec_axioms;

// ---- names ----

/// The locals that a statement declares, in order.
pub open spec fn lets(s: Stmt) -> Seq<u32>
    decreases s,
{
    match s {
        Stmt::Let { id, ty, mutable, init } => seq![id],
        Stmt::If { condition, then_branch, else_branch } => block_lets(then_branch@)
            + match else_branch {
            Some(b) => block_lets(b@),
            None => Seq::empty(),
        },
        _ => Seq::empty(),
    }
}

/// The locals that statements declare, in order.
pub open spec fn block_lets(ss: Seq<Stmt>) -> Seq<u32>
    decreases ss,
{
    if ss.len() == 0 {
        Seq::empty()
    } else {
        block_lets(ss.drop_last()) + lets(ss.last())
    }
}

/// Whether no local of a function is declared twice, parameters included.
pub open spec fn declares_once(f: Function) -> bool {
    (f.params@.map_values(|p: Param| p.id) + block_lets(f.body@)).no_duplicates()
}

/// Whether the places of a function's instructions can be numbered.
pub open spec fn fits(fv: FunctionView) -> bool {
    &&& fv.blocks.len() <= usize::MAX
    &&& forall|b: int|
        0 <= b < fv.blocks.len() ==> (#[trigger] fv.blocks[b]).instructions.len() <= usize::MAX
}

// ---- code that is part of a function ----

/// How far the current block is filled.
spec fn here(c: Code) -> int {
    c.blocks[c.cur].instructions.len() as int
}

/// Whether one block goes on from another.
spec fn goes_on(a: BlockView, b: BlockView) -> bool {
    &&& a.instructions.len() <= b.instructions.len()
    &&& forall|i: int|
        0 <= i < a.instructions.len() ==> #[trigger] b.instructions[i] == a.instructions[i]
    &&& a.terminator is Some ==> b.terminator == a.terminator && b.instructions.len()
        == a.instructions.len()
}

/// Whether blocks go on from others.
spec fn all_go_on(a: Seq<BlockView>, b: Seq<BlockView>) -> bool {
    &&& a.len() <= b.len()
    &&& forall|i: int| 0 <= i < a.len() ==> goes_on(a[i], #[trigger] b[i])
}

proof fn lemma_go_on_trans(a: Seq<BlockView>, b: Seq<BlockView>, c: Seq<BlockView>)
    requires
        all_go_on(a, b),
        all_go_on(b, c),
    ensures
        all_go_on(a, c),
{
    assert forall|i: int| 0 <= i < a.len() implies goes_on(a[i], #[trigger] c[i]) by {
        assert(goes_on(a[i], b[i]));
        assert(goes_on(b[i], c[i]));
        assert forall|j: int| 0 <= j < a[i].instructions.len() implies #[trigger] c[i].instructions[j]
            == a[i].instructions[j] by {
            assert(b[i].instructions[j] == a[i].instructions[j]);
        }
    }
}

/// Whether an instruction is one of the code so far.
spec fn known(c: Code, o: Operand) -> bool {
    o matches Operand::Result(b, i) && b < c.blocks.len() && i < c.blocks[b as int].instructions.len()
}

proof fn lemma_known_grows(c: Code, d: Code, o: Operand)
    requires
        all_go_on(c.blocks, d.blocks),
        known(c, o),
    ensures
        known(d, o),
{
    if let Operand::Result(b, i) = o {
        assert(goes_on(c.blocks[b as int], d.blocks[b as int]));
    }
}

/// Whether code can be added to.
spec fn is_open(c: Code) -> bool {
    0 <= c.cur < c.blocks.len() && !ended(c)
}

proof fn lemma_put_grows(c: Code, i: InstView)
    requires
        is_open(c),
    ensures
        all_go_on(c.blocks, put(c, i).0.blocks),
        is_open(put(c, i).0),
        put(c, i).0.cur == c.cur,
        put(c, i).0.locals == c.locals,
        here(put(c, i).0) == here(c) + 1,
        put(c, i).0.blocks.len() == c.blocks.len(),
{
    let d = put(c, i).0;
    assert forall|k: int| 0 <= k < c.blocks.len() implies goes_on(c.blocks[k], #[trigger] d.blocks[k]) by {}
}

proof fn lemma_end_grows(c: Code, t: Terminator)
    requires
        is_open(c),
    ensures
        all_go_on(c.blocks, end(c, t).blocks),
{
    let d = end(c, t);
    assert forall|k: int| 0 <= k < c.blocks.len() implies goes_on(c.blocks[k], #[trigger] d.blocks[k]) by {}
}

proof fn lemma_open_grows(c: Code, label: &str)
    ensures
        all_go_on(c.blocks, open_block(c, label).blocks),
{
    let d = open_block(c, label);
    assert forall|k: int| 0 <= k < c.blocks.len() implies goes_on(c.blocks[k], #[trigger] d.blocks[k]) by {}
}

proof fn lemma_value_grows(c: Code, e: Expr, own: Own)
    requires
        is_open(c),
    ensures
        ({
            let d = value_code(c, e, own).0;
            &&& all_go_on(c.blocks, d.blocks)
            &&& is_open(d)
            &&& d.cur == c.cur
            &&& d.locals == c.locals
            &&& d.blocks.len() == c.blocks.len()
        }),
    decreases e,
{
    lemma_self_goes_on(c);
    match e {
        Expr::LocalGet(id) => {
            if c.locals.dom().contains(id) {
                lemma_put_grows(c, InstView::Load { slot: c.locals[id] });
            }
        },
        Expr::Binary { op, left, right } => {
            lemma_value_grows(c, *left, own);
            let (c1, l) = value_code(c, *left, own);
            lemma_value_grows(c1, *right, own);
            let (c2, r) = value_code(c1, *right, own);
            lemma_go_on_trans(c.blocks, c1.blocks, c2.blocks);
            let d = value_code(c, e, own).0;
            match crate::codegen::emit::arith_op(op) {
                Some(a) => {
                    lemma_put_grows(c2, InstView::Arith { op: a, left: l, right: r });
                    lemma_go_on_trans(c.blocks, c2.blocks, d.blocks);
                },
                None => {},
            }
        },
        Expr::Call { callee, args } => {
            if *callee == Expr::FuncRef(own.id) {
                lemma_values_grow(c, args@, own);
                let (c1, vs) = values_code(c, args@, own);
                lemma_put_grows(c1, InstView::Call { callee: own.name, args: vs });
                let d = value_code(c, e, own).0;
                lemma_go_on_trans(c.blocks, c1.blocks, d.blocks);
            }
        },
        _ => {},
    }
}

proof fn lemma_self_goes_on(c: Code)
    ensures
        all_go_on(c.blocks, c.blocks),
{
}

proof fn lemma_values_grow(c: Code, es: Seq<Expr>, own: Own)
    requires
        is_open(c),
    ensures
        ({
            let d = values_code(c, es, own).0;
            &&& all_go_on(c.blocks, d.blocks)
            &&& is_open(d)
            &&& d.cur == c.cur
            &&& d.locals == c.locals
            &&& d.blocks.len() == c.blocks.len()
        }),
    decreases es,
{
    lemma_self_goes_on(c);
    if es.len() > 0 {
        lemma_values_grow(c, es.drop_last(), own);
        let c1 = values_code(c, es.drop_last(), own).0;
        lemma_value_grows(c1, es.last(), own);
        lemma_go_on_trans(c.blocks, c1.blocks, values_code(c, es, own).0.blocks);
    }
}

proof fn lemma_condition_grows(c: Code, e: Expr, own: Own)
    requires
        is_open(c),
    ensures
        ({
            let d = condition_code(c, e, own).0;
            &&& all_go_on(c.blocks, d.blocks)
            &&& is_open(d)
            &&& d.cur == c.cur
            &&& d.locals == c.locals
            &&& d.blocks.len() == c.blocks.len()
        }),
{
    let d = condition_code(c, e, own).0;
    match e {
        Expr::Compare { op, left, right } => {
            lemma_value_grows(c, *left, own);
            let (c1, l) = value_code(c, *left, own);
            lemma_value_grows(c1, *right, own);
            let (c2, r) = value_code(c1, *right, own);
            lemma_go_on_trans(c.blocks, c1.blocks, c2.blocks);
            lemma_put_grows(
                c2,
                InstView::Compare {
                    op: crate::codegen::emit::predicate_of(op),
                    left: l,
                    right: r,
                },
            );
            lemma_go_on_trans(c.blocks, c2.blocks, d.blocks);
        },
        _ => {
            lemma_value_grows(c, e, own);
            let (c1, v) = value_code(c, e, own);
            lemma_put_grows(
                c1,
                InstView::Compare { op: Predicate::Ne, left: v, right: Operand::Const(0) },
            );
            lemma_go_on_trans(c.blocks, c1.blocks, d.blocks);
        },
    }
}

proof fn lemma_bind_grows(c: Code, id: u32, v: Operand)
    requires
        is_open(c),
    ensures
        all_go_on(c.blocks, bind(c, id, v).blocks),
        is_open(bind(c, id, v)),
        bind(c, id, v).cur == c.cur,
        bind(c, id, v).blocks.len() == c.blocks.len(),
        here(bind(c, id, v)) == here(c) + 2,
        bind(c, id, v).locals == c.locals.insert(id, put(c, InstView::Alloca).1),
{
    let (c1, slot) = put(c, InstView::Alloca);
    lemma_put_grows(c, InstView::Alloca);
    lemma_put_grows(c1, InstView::Store { value: v, slot });
    lemma_go_on_trans(c.blocks, c1.blocks, bind(c, id, v).blocks);
}

/// What a statement does to the locals: those there were keep their slots.
spec fn keeps_locals(c: Code, d: Code, declared: Seq<u32>) -> bool {
    &&& forall|id: u32| #[trigger]
        c.locals.dom().contains(id) && !declared.contains(id) ==> d.locals.dom().contains(id)
            && d.locals[id] == c.locals[id]
    &&& forall|id: u32| #[trigger]
        d.locals.dom().contains(id) ==> c.locals.dom().contains(id) || declared.contains(id)
}

/// The pieces of the code of an `if` with two branches.
spec fn forked(c: Code, condition: Expr, own: Own) -> Code {
    let (c1, v) = condition_code(c, condition, own);
    let n = c1.blocks.len() as int;
    let c2 = open_block(open_block(open_block(c1, "i64.then"), "i64.else"), "i64.merge");
    end(
        c2,
        Terminator::CondBr {
            condition: v,
            then_block: n as usize,
            else_block: (n + 1) as usize,
        },
    )
}

/// The pieces of the code of an `if` with one branch.
spec fn branched(c: Code, condition: Expr, own: Own) -> Code {
    let (c1, v) = condition_code(c, condition, own);
    let n = c1.blocks.len() as int;
    let c2 = open_block(open_block(c1, "i64.then"), "i64.merge");
    end(
        c2,
        Terminator::CondBr {
            condition: v,
            then_block: n as usize,
            else_block: (n + 1) as usize,
        },
    )
}

proof fn lemma_forked(c: Code, condition: Expr, own: Own)
    requires
        is_open(c),
    ensures
        ({
            let d = forked(c, condition, own);
            let c1 = condition_code(c, condition, own).0;
            let n = c.blocks.len();
            &&& all_go_on(c1.blocks, d.blocks)
            &&& all_go_on(c.blocks, d.blocks)
            &&& d.blocks.len() == n + 3
            &&& d.locals == c.locals
            &&& d.blocks[c.cur].instructions == c1.blocks[c.cur].instructions
            &&& d.blocks[c.cur].terminator is Some
            &&& forall|k: int|
                n <= k < n + 3 ==> (#[trigger] d.blocks[k]).instructions.len() == 0
                    && d.blocks[k].terminator is None
        }),
{
    lemma_condition_grows(c, condition, own);
    let c1 = condition_code(c, condition, own).0;
    let a = open_block(c1, "i64.then");
    let b = open_block(a, "i64.else");
    let e = open_block(b, "i64.merge");
    lemma_open_grows(c1, "i64.then");
    lemma_open_grows(a, "i64.else");
    lemma_open_grows(b, "i64.merge");
    lemma_go_on_trans(c1.blocks, a.blocks, b.blocks);
    lemma_go_on_trans(c1.blocks, b.blocks, e.blocks);
    let d = forked(c, condition, own);
    assert(is_open(e));
    let t = Terminator::CondBr {
        condition: condition_code(c, condition, own).1,
        then_block: c1.blocks.len() as usize,
        else_block: (c1.blocks.len() + 1) as usize,
    };
    assert(d == end(e, t));
    lemma_end_grows(e, t);
    lemma_go_on_trans(c1.blocks, e.blocks, d.blocks);
    lemma_go_on_trans(c.blocks, c1.blocks, d.blocks);
}

proof fn lemma_branched(c: Code, condition: Expr, own: Own)
    requires
        is_open(c),
    ensures
        ({
            let d = branched(c, condition, own);
            let c1 = condition_code(c, condition, own).0;
            let n = c.blocks.len();
            &&& all_go_on(c1.blocks, d.blocks)
            &&& all_go_on(c.blocks, d.blocks)
            &&& d.blocks.len() == n + 2
            &&& d.locals == c.locals
            &&& d.blocks[c.cur].instructions == c1.blocks[c.cur].instructions
            &&& d.blocks[c.cur].terminator is Some
            &&& forall|k: int|
                n <= k < n + 2 ==> (#[trigger] d.blocks[k]).instructions.len() == 0
                    && d.blocks[k].terminator is None
        }),
{
    lemma_condition_grows(c, condition, own);
    let c1 = condition_code(c, condition, own).0;
    let a = open_block(c1, "i64.then");
    let e = open_block(a, "i64.merge");
    lemma_open_grows(c1, "i64.then");
    lemma_open_grows(a, "i64.merge");
    lemma_go_on_trans(c1.blocks, a.blocks, e.blocks);
    let d = branched(c, condition, own);
    assert(is_open(e));
    let t = Terminator::CondBr {
        condition: condition_code(c, condition, own).1,
        then_block: c1.blocks.len() as usize,
        else_block: (c1.blocks.len() + 1) as usize,
    };
    assert(d == end(e, t));
    lemma_end_grows(e, t);
    lemma_go_on_trans(c1.blocks, e.blocks, d.blocks);
    lemma_go_on_trans(c.blocks, c1.blocks, d.blocks);
}

/// What holds of code after statements: it has grown, and the merge block that is
/// current, if another than before, is open.
spec fn grown(c: Code, d: Code, declared: Seq<u32>) -> bool {
    &&& all_go_on(c.blocks, d.blocks)
    &&& 0 <= d.cur < d.blocks.len()
    &&& keeps_locals(c, d, declared)
    &&& forall|k: int|
        0 <= k < c.blocks.len() && k != c.cur ==> #[trigger] d.blocks[k] == c.blocks[k]
    &&& d.cur == c.cur || d.cur >= c.blocks.len()
}

proof fn lemma_flow_grows(c: Code, block: int)
    requires
        0 <= c.cur < c.blocks.len(),
    ensures
        all_go_on(c.blocks, flow_to(c, block).blocks),
        flow_to(c, block).locals == c.locals,
        flow_to(c, block).blocks.len() == c.blocks.len(),
        forall|k: int|
            0 <= k < c.blocks.len() && k != c.cur ==> #[trigger] flow_to(c, block).blocks[k]
                == c.blocks[k],
{
    lemma_self_goes_on(c);
    if !ended(c) {
        lemma_end_grows(c, Terminator::Br(block as usize));
    }
}

proof fn lemma_keeps_trans(c: Code, d: Code, e: Code, a: Seq<u32>, b: Seq<u32>)
    requires
        keeps_locals(c, d, a),
        keeps_locals(d, e, b),
    ensures
        keeps_locals(c, e, a + b),
{
    assert forall|id: u32| (a + b).contains(id) <==> a.contains(id) || b.contains(id) by {
        lemma_in_concat(a, b, id);
    }
    assert forall|id: u32| #[trigger]
        c.locals.dom().contains(id) && !(a + b).contains(id) implies e.locals.dom().contains(id)
        && e.locals[id] == c.locals[id] by {
        assert(d.locals.dom().contains(id));
    }
    assert forall|id: u32| #[trigger] e.locals.dom().contains(id) implies c.locals.dom().contains(id)
        || (a + b).contains(id) by {
        if d.locals.dom().contains(id) {
        }
    }
}

/// It does not matter from which of two codes with the same locals.
proof fn lemma_keeps_same(c: Code, t: Code, d: Code, a: Seq<u32>)
    requires
        t.locals == c.locals,
        keeps_locals(t, d, a),
    ensures
        keeps_locals(c, d, a),
{
    assert forall|id: u32| #[trigger]
        c.locals.dom().contains(id) && !a.contains(id) implies d.locals.dom().contains(id)
        && d.locals[id] == c.locals[id] by {
        assert(t.locals.dom().contains(id));
    }
    assert forall|id: u32| #[trigger] d.locals.dom().contains(id) implies c.locals.dom().contains(id)
        || a.contains(id) by {
        assert(t.locals.dom().contains(id) || a.contains(id));
    }
}

proof fn lemma_in_concat(a: Seq<u32>, b: Seq<u32>, id: u32)
    ensures
        (a + b).contains(id) <==> a.contains(id) || b.contains(id),
{
    if a.contains(id) {
        let i = choose|i: int| 0 <= i < a.len() && a[i] == id;
        assert((a + b)[i] == id);
    }
    if b.contains(id) {
        let i = choose|i: int| 0 <= i < b.len() && b[i] == id;
        assert((a + b)[a.len() + i] == id);
    }
    if (a + b).contains(id) {
        let i = choose|i: int| 0 <= i < (a + b).len() && (a + b)[i] == id;
        if i < a.len() {
            assert(a[i] == id);
        } else {
            assert(b[i - a.len()] == id);
        }
    }
}

#[verifier::rlimit(40)]
proof fn lemma_stmt_grows(c: Code, s: Stmt, own: Own)
    requires
        is_open(c),
    ensures
        grown(c, stmt_code(c, s, own), lets(s)),
    decreases s,
{
    let d = stmt_code(c, s, own);
    lemma_self_goes_on(c);
    match s {
        Stmt::Return(Some(e)) => {
            lemma_value_grows(c, e, own);
            let (c1, v) = value_code(c, e, own);
            lemma_end_grows(c1, Terminator::Ret(v));
            lemma_go_on_trans(c.blocks, c1.blocks, d.blocks);
            lemma_value_leaves(c, e, own);
        },
        Stmt::Return(None) => {
            lemma_end_grows(c, Terminator::Ret(Operand::Const(0)));
        },
        Stmt::Let { id, ty, mutable, init: Some(e) } => {
            lemma_value_grows(c, e, own);
            let (c1, v) = value_code(c, e, own);
            lemma_bind_grows(c1, id, v);
            lemma_go_on_trans(c.blocks, c1.blocks, d.blocks);
            lemma_value_leaves(c, e, own);
            assert(lets(s)[0] == id);
        },
        Stmt::Let { id, ty, mutable, init: None } => {
            lemma_bind_grows(c, id, Operand::Const(0));
            assert(lets(s)[0] == id);
        },
        Stmt::Expr(e) => {
            lemma_value_grows(c, e, own);
            lemma_value_leaves(c, e, own);
        },
        Stmt::If { condition, then_branch, else_branch: Some(other) } => {
            let n = c.blocks.len() as int;
            lemma_condition_grows(c, condition, own);
            lemma_condition_leaves(c, condition, own);
            lemma_forked(c, condition, own);
            let c3 = forked(c, condition, own);
            let t = Code { cur: n, ..c3 };
            lemma_block_grows(t, then_branch@, own);
            let t1 = block_code(t, then_branch@, own);
            lemma_flow_grows(t1, n + 2);
            let c4 = flow_to(t1, n + 2);
            let f = Code { cur: n + 1, ..c4 };
            assert(f.blocks[n + 1] == c3.blocks[n + 1]);
            lemma_block_grows(f, other@, own);
            let f1 = block_code(f, other@, own);
            lemma_flow_grows(f1, n + 2);
            let c5 = flow_to(f1, n + 2);
            lemma_go_on_trans(c.blocks, c3.blocks, t1.blocks);
            lemma_go_on_trans(c.blocks, t1.blocks, c4.blocks);
            lemma_go_on_trans(c.blocks, c4.blocks, f1.blocks);
            lemma_go_on_trans(c.blocks, f1.blocks, c5.blocks);
            lemma_keeps_same(c, t, t1, block_lets(then_branch@));
            lemma_keeps_same(t1, f, f1, block_lets(other@));
            lemma_keeps_trans(c, t1, f1, block_lets(then_branch@), block_lets(other@));
            lemma_keeps_same(c, c, f1, block_lets(then_branch@) + block_lets(other@));
            assert(d == Code { cur: n + 2, ..c5 });
            assert forall|k: int| 0 <= k < c.blocks.len() && k != c.cur implies #[trigger] d.blocks[k]
                == c.blocks[k] by {
                assert(c3.blocks[k] == c.blocks[k]);
                assert(t1.blocks[k] == c3.blocks[k]);
                assert(f1.blocks[k] == c4.blocks[k]);
            }
        },
        Stmt::If { condition, then_branch, else_branch: None } => {
            let n = c.blocks.len() as int;
            lemma_condition_grows(c, condition, own);
            lemma_condition_leaves(c, condition, own);
            lemma_branched(c, condition, own);
            let c3 = branched(c, condition, own);
            let t = Code { cur: n, ..c3 };
            lemma_block_grows(t, then_branch@, own);
            let t1 = block_code(t, then_branch@, own);
            lemma_flow_grows(t1, n + 1);
            let c4 = flow_to(t1, n + 1);
            lemma_go_on_trans(c.blocks, c3.blocks, t1.blocks);
            lemma_go_on_trans(c.blocks, t1.blocks, c4.blocks);
            assert(d == Code { cur: n + 1, ..c4 });
            lemma_keeps_same(c, t, t1, block_lets(then_branch@));
            assert(lets(s) =~= block_lets(then_branch@));
            assert forall|k: int| 0 <= k < c.blocks.len() && k != c.cur implies #[trigger] d.blocks[k]
                == c.blocks[k] by {
                assert(c3.blocks[k] == c.blocks[k]);
                assert(t1.blocks[k] == c3.blocks[k]);
            }
        },
        _ => {},
    }
}

/// An expression leaves all blocks but the current one as they were.
proof fn lemma_value_leaves(c: Code, e: Expr, own: Own)
    requires
        is_open(c),
    ensures
        forall|k: int|
            0 <= k < c.blocks.len() && k != c.cur ==> #[trigger] value_code(c, e, own).0.blocks[k]
                == c.blocks[k],
    decreases e,
{
    match e {
        Expr::Binary { op, left, right } => {
            lemma_value_grows(c, *left, own);
            lemma_value_leaves(c, *left, own);
            let c1 = value_code(c, *left, own).0;
            lemma_value_grows(c1, *right, own);
            lemma_value_leaves(c1, *right, own);
            let c2 = value_code(c1, *right, own).0;
            assert forall|k: int| 0 <= k < c.blocks.len() && k != c.cur implies #[trigger] value_code(
                c,
                e,
                own,
            ).0.blocks[k] == c.blocks[k] by {
                assert(c2.blocks[k] == c1.blocks[k]);
                assert(c1.blocks[k] == c.blocks[k]);
            }
        },
        Expr::Call { callee, args } => {
            lemma_values_grow(c, args@, own);
            lemma_values_leave(c, args@, own);
        },
        _ => {},
    }
}

proof fn lemma_values_leave(c: Code, es: Seq<Expr>, own: Own)
    requires
        is_open(c),
    ensures
        forall|k: int|
            0 <= k < c.blocks.len() && k != c.cur ==> #[trigger] values_code(c, es, own).0.blocks[k]
                == c.blocks[k],
    decreases es,
{
    if es.len() > 0 {
        lemma_values_grow(c, es.drop_last(), own);
        lemma_values_leave(c, es.drop_last(), own);
        let c1 = values_code(c, es.drop_last(), own).0;
        lemma_value_leaves(c1, es.last(), own);
        assert forall|k: int| 0 <= k < c.blocks.len() && k != c.cur implies #[trigger] values_code(
            c,
            es,
            own,
        ).0.blocks[k] == c.blocks[k] by {
            assert(c1.blocks[k] == c.blocks[k]);
            assert(value_code(c1, es.last(), own).0.blocks[k] == c1.blocks[k]);
        }
    }
}

proof fn lemma_condition_leaves(c: Code, e: Expr, own: Own)
    requires
        is_open(c),
    ensures
        forall|k: int|
            0 <= k < c.blocks.len() && k != c.cur ==> #[trigger] condition_code(
                c,
                e,
                own,
            ).0.blocks[k] == c.blocks[k],
{
    match e {
        Expr::Compare { op, left, right } => {
            lemma_value_grows(c, *left, own);
            lemma_value_leaves(c, *left, own);
            let c1 = value_code(c, *left, own).0;
            lemma_value_grows(c1, *right, own);
            lemma_value_leaves(c1, *right, own);
            let c2 = value_code(c1, *right, own).0;
            assert forall|k: int|
                0 <= k < c.blocks.len() && k != c.cur implies #[trigger] condition_code(
                c,
                e,
                own,
            ).0.blocks[k] == c.blocks[k] by {
                assert(c2.blocks[k] == c1.blocks[k]);
                assert(c1.blocks[k] == c.blocks[k]);
            }
        },
        _ => {
            lemma_value_grows(c, e, own);
            lemma_value_leaves(c, e, own);
            let c1 = value_code(c, e, own).0;
            assert forall|k: int|
                0 <= k < c.blocks.len() && k != c.cur implies #[trigger] condition_code(
                c,
                e,
                own,
            ).0.blocks[k] == c.blocks[k] by {
                assert(c1.blocks[k] == c.blocks[k]);
            }
        },
    }
}

proof fn lemma_block_grows(c: Code, ss: Seq<Stmt>, own: Own)
    requires
        is_open(c),
    ensures
        grown(c, block_code(c, ss, own), block_lets(ss)),
    decreases ss,
{
    lemma_self_goes_on(c);
    if ss.len() > 0 {
        let front = ss.drop_last();
        lemma_block_grows(c, front, own);
        let c1 = block_code(c, front, own);
        if !ended(c1) {
            lemma_stmt_grows(c1, ss.last(), own);
            let d = stmt_code(c1, ss.last(), own);
            lemma_go_on_trans(c.blocks, c1.blocks, d.blocks);
            lemma_keeps_trans(c, c1, d, block_lets(front), lets(ss.last()));
            assert forall|k: int| 0 <= k < c.blocks.len() && k != c.cur implies #[trigger] d.blocks[k]
                == c.blocks[k] by {
                assert(c1.blocks[k] == c.blocks[k]);
                assert(d.blocks[k] == c1.blocks[k]);
            }
        } else {
            lemma_keeps_more(c, c1, block_lets(front), lets(ss.last()));
        }
    }
}

proof fn lemma_keeps_more(c: Code, d: Code, a: Seq<u32>, b: Seq<u32>)
    requires
        keeps_locals(c, d, a),
    ensures
        keeps_locals(c, d, a + b),
{
    assert forall|id: u32| (a + b).contains(id) <==> a.contains(id) || b.contains(id) by {
        lemma_in_concat(a, b, id);
    }
}

// ---- running the code ----

/// Whether slots hold what the locals do.
spec fn matches_locals(c: Code, m: Machine, env: Locals) -> bool {
    forall|id: u32| #[trigger]
        env.dom().contains(id) ==> {
            &&& c.locals.dom().contains(id)
            &&& known(c, c.locals[id])
            &&& m.mem.dom().contains(c.locals[id])
            &&& m.mem[c.locals[id]] == env[id]
        }
}

/// Whether two machines are the same as far as some code goes.
spec fn agree(c: Code, m: Machine, m2: Machine) -> bool {
    forall|o: Operand| #[trigger]
        known(c, o) ==> {
            &&& m.vals.dom().contains(o) == m2.vals.dom().contains(o)
            &&& m.vals.dom().contains(o) ==> m.vals[o] == m2.vals[o]
            &&& m.mem.dom().contains(o) == m2.mem.dom().contains(o)
            &&& m.mem.dom().contains(o) ==> m.mem[o] == m2.mem[o]
        }
}

proof fn lemma_agree_trans(c: Code, d: Code, a: Machine, b: Machine, e: Machine)
    requires
        all_go_on(c.blocks, d.blocks),
        agree(c, a, b),
        agree(d, b, e),
    ensures
        agree(c, a, e),
{
    assert forall|o: Operand| #[trigger] known(c, o) implies {
        &&& a.vals.dom().contains(o) == e.vals.dom().contains(o)
        &&& a.vals.dom().contains(o) ==> a.vals[o] == e.vals[o]
        &&& a.mem.dom().contains(o) == e.mem.dom().contains(o)
        &&& a.mem.dom().contains(o) ==> a.mem[o] == e.mem[o]
    } by {
        lemma_known_grows(c, d, o);
    }
}

/// Slots still hold what the locals do after more has run.
proof fn lemma_matches_kept(c: Code, d: Code, m: Machine, m2: Machine, env: Locals)
    requires
        all_go_on(c.blocks, d.blocks),
        agree(c, m, m2),
        matches_locals(c, m, env),
        forall|id: u32| #[trigger]
            env.dom().contains(id) ==> d.locals.dom().contains(id) && d.locals[id] == c.locals[id],
    ensures
        matches_locals(d, m2, env),
{
    assert forall|id: u32| #[trigger] env.dom().contains(id) implies {
        &&& d.locals.dom().contains(id)
        &&& known(d, d.locals[id])
        &&& m2.mem.dom().contains(d.locals[id])
        &&& m2.mem[d.locals[id]] == env[id]
    } by {
        assert(known(c, c.locals[id]));
        lemma_known_grows(c, d, c.locals[id]);
    }
}

/// Whether an operand can be used: a constant, or the result of the code so far.
spec fn usable(c: Code, o: Operand) -> bool {
    o is Const || known(c, o)
}

/// Whether calls of the code give what calls of the function do, less deep than
/// `fuel`.
spec fn knows_calls(f: Function, fv: FunctionView, fuel: nat) -> bool {
    forall|vs: Seq<int>, n: nat|
        n < fuel && (#[trigger] meaning(f, vs, n)) is Some ==> call(fv, vs, n) == meaning(f, vs, n)
}

/// The function that is emitted, and what it is run on.
ghost struct Run {
    f: Function,
    fv: FunctionView,
    args: Seq<int>,
    fuel: nat,
}

spec fn ready(r: Run, own: Own) -> bool {
    &&& fits(r.fv)
    &&& own == (Own { id: r.f.id, name: r.fv.name })
    &&& knows_calls(r.f, r.fv, r.fuel)
}

/// Running from where the code stands.
spec fn from(r: Run, c: Code, m: Machine, jumps: nat) -> Option<int> {
    run_code(r.fv, c.cur, here(c), m, r.args, r.fuel, jumps)
}

spec fn value_of(r: Run, o: Operand, m: Machine) -> Option<int> {
    operand(o, m, r.fv.params, r.args)
}

proof fn lemma_put_runs(r: Run, c: Code, i: InstView, m: Machine, m2: Machine, jumps: nat)
    requires
        is_open(c),
        fits(r.fv),
        all_go_on(put(c, i).0.blocks, r.fv.blocks),
        step(r.fv, i, put(c, i).1, m, r.args, r.fuel) == Some(m2),
    ensures
        from(r, c, m, jumps) == from(r, put(c, i).0, m2, jumps),
        known(put(c, i).0, put(c, i).1),
        !known(c, put(c, i).1),
{
    lemma_put_grows(c, i);
    let d = put(c, i).0;
    assert(goes_on(d.blocks[c.cur], r.fv.blocks[c.cur]));
    assert(d.blocks[c.cur].instructions[here(c)] == i);
    assert(r.fv.blocks[c.cur].instructions[here(c)] == i);
    assert(r.fv.blocks[c.cur].instructions.len() <= usize::MAX);
}

proof fn lemma_value_kept(r: Run, c: Code, o: Operand, m: Machine, m2: Machine)
    requires
        usable(c, o),
        agree(c, m, m2),
    ensures
        value_of(r, o, m) == value_of(r, o, m2),
{
    if known(c, o) {
    }
}

proof fn lemma_values_kept(r: Run, c: Code, os: Seq<Operand>, m: Machine, m2: Machine)
    requires
        forall|i: int| 0 <= i < os.len() ==> usable(c, #[trigger] os[i]),
        agree(c, m, m2),
    ensures
        operands(os, m, r.fv.params, r.args) == operands(os, m2, r.fv.params, r.args),
    decreases os.len(),
{
    if os.len() > 0 {
        let front = os.drop_last();
        assert forall|i: int| 0 <= i < front.len() implies usable(c, #[trigger] front[i]) by {
            assert(front[i] == os[i]);
        }
        lemma_values_kept(r, c, front, m, m2);
        assert(usable(c, os[os.len() - 1]));
        lemma_value_kept(r, c, os.last(), m, m2);
    }
}

/// The code of an expression computes its value.
#[verifier::rlimit(40)]
proof fn lemma_value_runs(
    r: Run,
    own: Own,
    c: Code,
    e: Expr,
    env: Locals,
    m: Machine,
    jumps: nat,
) -> (m2: Machine)
    requires
        is_open(c),
        ready(r, own),
        all_go_on(value_code(c, e, own).0.blocks, r.fv.blocks),
        matches_locals(c, m, env),
        eval(r.f, e, env, r.fuel) is Some,
    ensures
        ({
            let (d, o) = value_code(c, e, own);
            &&& from(r, c, m, jumps) == from(r, d, m2, jumps)
            &&& value_of(r, o, m2) == eval(r.f, e, env, r.fuel)
            &&& usable(d, o)
            &&& agree(c, m, m2)
            &&& matches_locals(d, m2, env)
        }),
    decreases e,
{
    lemma_value_grows(c, e, own);
    let (d, o) = value_code(c, e, own);
    match e {
        Expr::Integer(_) => m,
        Expr::Number(_) => m,
        Expr::LocalGet(id) => {
            assert(env.dom().contains(id));
            let slot = c.locals[id];
            let i = InstView::Load { slot };
            let m2 = with_result(m, put(c, i).1, m.mem[slot]);
            lemma_put_runs(r, c, i, m, m2, jumps);
            lemma_matches_kept(c, d, m, m2, env);
            m2
        },
        Expr::Binary { op, left, right } => {
            lemma_value_grows(c, *left, own);
            let (c1, l) = value_code(c, *left, own);
            lemma_value_grows(c1, *right, own);
            let (c2, x) = value_code(c1, *right, own);
            let i = InstView::Arith {
                op: crate::codegen::emit::arith_op(op)->0,
                left: l,
                right: x,
            };
            lemma_put_grows(c2, i);
            lemma_go_on_trans(c2.blocks, d.blocks, r.fv.blocks);
            lemma_go_on_trans(c1.blocks, c2.blocks, r.fv.blocks);
            let m1 = lemma_value_runs(r, own, c, *left, env, m, jumps);
            let m3 = lemma_value_runs(r, own, c1, *right, env, m1, jumps);
            lemma_value_kept(r, c1, l, m1, m3);
            lemma_agree_trans(c, c1, m, m1, m3);
            let v = eval(r.f, e, env, r.fuel)->0;
            let m2 = with_result(m3, put(c2, i).1, v);
            lemma_put_runs(r, c2, i, m3, m2, jumps);
            lemma_go_on_trans(c.blocks, c1.blocks, c2.blocks);
            assert(agree(c2, m3, m2));
            lemma_agree_trans(c, c2, m, m3, m2);
            lemma_matches_kept(c2, d, m3, m2, env);
            m2
        },
        Expr::Call { callee, args } => {
            let (c1, vs) = values_code(c, args@, own);
            lemma_values_grow(c, args@, own);
            let i = InstView::Call { callee: own.name, args: vs };
            lemma_put_grows(c1, i);
            lemma_go_on_trans(c1.blocks, d.blocks, r.fv.blocks);
            let m1 = lemma_values_run(r, own, c, args@, env, m, jumps);
            let passed = eval_all(r.f, args@, env, r.fuel)->0;
            let n = (r.fuel - 1) as nat;
            assert(meaning(r.f, passed, n) is Some);
            assert(call(r.fv, passed, n) == meaning(r.f, passed, n));
            let m2 = with_result(m1, put(c1, i).1, meaning(r.f, passed, n)->0);
            lemma_put_runs(r, c1, i, m1, m2, jumps);
            assert(agree(c1, m1, m2));
            lemma_agree_trans(c, c1, m, m1, m2);
            lemma_matches_kept(c1, d, m1, m2, env);
            m2
        },
        _ => m,
    }
}

proof fn lemma_values_run(
    r: Run,
    own: Own,
    c: Code,
    es: Seq<Expr>,
    env: Locals,
    m: Machine,
    jumps: nat,
) -> (m2: Machine)
    requires
        is_open(c),
        ready(r, own),
        all_go_on(values_code(c, es, own).0.blocks, r.fv.blocks),
        matches_locals(c, m, env),
        eval_all(r.f, es, env, r.fuel) is Some,
    ensures
        ({
            let (d, os) = values_code(c, es, own);
            &&& from(r, c, m, jumps) == from(r, d, m2, jumps)
            &&& operands(os, m2, r.fv.params, r.args) == eval_all(r.f, es, env, r.fuel)
            &&& forall|i: int| 0 <= i < os.len() ==> usable(d, #[trigger] os[i])
            &&& agree(c, m, m2)
            &&& matches_locals(d, m2, env)
        }),
    decreases es,
{
    if es.len() == 0 {
        m
    } else {
        let front = es.drop_last();
        let (c1, os) = values_code(c, front, own);
        lemma_values_grow(c, front, own);
        let (d, o) = value_code(c1, es.last(), own);
        lemma_value_grows(c1, es.last(), own);
        lemma_go_on_trans(c1.blocks, d.blocks, r.fv.blocks);
        let m1 = lemma_values_run(r, own, c, front, env, m, jumps);
        let m2 = lemma_value_runs(r, own, c1, es.last(), env, m1, jumps);
        lemma_values_kept(r, c1, os, m1, m2);
        lemma_agree_trans(c, c1, m, m1, m2);
        let all = os.push(o);
        assert(all.drop_last() =~= os);
        assert forall|i: int| 0 <= i < all.len() implies usable(d, #[trigger] all[i]) by {
            if i < os.len() {
                assert(usable(c1, os[i]));
                if known(c1, os[i]) {
                    lemma_known_grows(c1, d, os[i]);
                }
            }
        }
        m2
    }
}

/// The code of a condition computes whether it holds.
proof fn lemma_condition_runs(
    r: Run,
    own: Own,
    c: Code,
    e: Expr,
    env: Locals,
    m: Machine,
    jumps: nat,
) -> (m2: Machine)
    requires
        is_open(c),
        ready(r, own),
        all_go_on(condition_code(c, e, own).0.blocks, r.fv.blocks),
        matches_locals(c, m, env),
        holds(r.f, e, env, r.fuel) is Some,
    ensures
        ({
            let (d, o) = condition_code(c, e, own);
            &&& from(r, c, m, jumps) == from(r, d, m2, jumps)
            &&& value_of(r, o, m2) == Some(
                if holds(r.f, e, env, r.fuel)->0 {
                    1int
                } else {
                    0int
                },
            )
            &&& agree(c, m, m2)
            &&& matches_locals(d, m2, env)
        }),
{
    let (d, o) = condition_code(c, e, own);
    let h = if holds(r.f, e, env, r.fuel)->0 {
        1int
    } else {
        0int
    };
    match e {
        Expr::Compare { op, left, right } => {
            lemma_value_grows(c, *left, own);
            let (c1, l) = value_code(c, *left, own);
            lemma_value_grows(c1, *right, own);
            let (c2, x) = value_code(c1, *right, own);
            let i = InstView::Compare {
                op: crate::codegen::emit::predicate_of(op),
                left: l,
                right: x,
            };
            lemma_put_grows(c2, i);
            lemma_go_on_trans(c2.blocks, d.blocks, r.fv.blocks);
            lemma_go_on_trans(c1.blocks, c2.blocks, r.fv.blocks);
            let m1 = lemma_value_runs(r, own, c, *left, env, m, jumps);
            let m3 = lemma_value_runs(r, own, c1, *right, env, m1, jumps);
            lemma_value_kept(r, c1, l, m1, m3);
            lemma_agree_trans(c, c1, m, m1, m3);
            let m2 = with_result(m3, put(c2, i).1, h);
            lemma_put_runs(r, c2, i, m3, m2, jumps);
            lemma_go_on_trans(c.blocks, c1.blocks, c2.blocks);
            assert(agree(c2, m3, m2));
            lemma_agree_trans(c, c2, m, m3, m2);
            lemma_matches_kept(c2, d, m3, m2, env);
            m2
        },
        _ => {
            lemma_value_grows(c, e, own);
            let (c1, v) = value_code(c, e, own);
            let i = InstView::Compare { op: Predicate::Ne, left: v, right: Operand::Const(0) };
            lemma_put_grows(c1, i);
            lemma_go_on_trans(c1.blocks, d.blocks, r.fv.blocks);
            let m1 = lemma_value_runs(r, own, c, e, env, m, jumps);
            let m2 = with_result(m1, put(c1, i).1, h);
            lemma_put_runs(r, c1, i, m1, m2, jumps);
            assert(agree(c1, m1, m2));
            lemma_agree_trans(c, c1, m, m1, m2);
            lemma_matches_kept(c1, d, m1, m2, env);
            m2
        },
    }
}

/// The code that binds a local stores its value.
proof fn lemma_bind_runs(
    r: Run,
    c: Code,
    id: u32,
    o: Operand,
    v: int,
    env: Locals,
    m: Machine,
    jumps: nat,
) -> (m2: Machine)
    requires
        is_open(c),
        fits(r.fv),
        all_go_on(bind(c, id, o).blocks, r.fv.blocks),
        matches_locals(c, m, env),
        value_of(r, o, m) == Some(v),
    ensures
        from(r, c, m, jumps) == from(r, bind(c, id, o), m2, jumps),
        agree(c, m, m2),
        matches_locals(bind(c, id, o), m2, env.insert(id, v)),
{
    let (c1, slot) = put(c, InstView::Alloca);
    lemma_put_grows(c, InstView::Alloca);
    let store = InstView::Store { value: o, slot };
    let (c2, _) = put(c1, store);
    lemma_put_grows(c1, store);
    let d = bind(c, id, o);
    assert(c2.blocks == d.blocks);
    lemma_go_on_trans(c1.blocks, c2.blocks, r.fv.blocks);
    let m1 = Machine { mem: m.mem.remove(slot), ..m };
    lemma_put_runs(r, c, InstView::Alloca, m, m1, jumps);
    assert(agree(c, m, m1));
    assert(value_of(r, o, m1) == Some(v));
    let m2 = Machine { mem: m1.mem.insert(slot, v), ..m1 };
    lemma_put_runs(r, c1, store, m1, m2, jumps);
    assert(agree(c, m, m2));
    lemma_bind_grows(c, id, o);
    assert forall|x: u32| #[trigger] env.insert(id, v).dom().contains(x) implies {
        &&& d.locals.dom().contains(x)
        &&& known(d, d.locals[x])
        &&& m2.mem.dom().contains(d.locals[x])
        &&& m2.mem[d.locals[x]] == env.insert(id, v)[x]
    } by {
        if x == id {
            assert(known(c1, slot));
            lemma_known_grows(c1, d, slot);
        } else {
            assert(env.dom().contains(x));
            assert(known(c, c.locals[x]));
            lemma_known_grows(c, d, c.locals[x]);
        }
    }
    m2
}

/// What running the code of statements comes to.
spec fn comes_to(r: Run, c: Code, d: Code, m: Machine, out: Outcome, to: (Machine, nat), jumps: nat) -> bool {
    match out {
        Outcome::Returns(v) => from(r, c, m, jumps) == Some(v),
        Outcome::Goes(env2) => {
            &&& !ended(d)
            &&& to.1 + c.blocks.len() <= d.blocks.len()
            &&& to.1 <= jumps
            &&& from(r, c, m, jumps) == from(r, d, to.0, (jumps - to.1) as nat)
            &&& agree(c, m, to.0)
            &&& matches_locals(d, to.0, env2)
        },
        Outcome::Stuck => true,
    }
}

/// Whether the locals to be declared are new.
spec fn fresh(c: Code, declared: Seq<u32>) -> bool {
    &&& declared.no_duplicates()
    &&& forall|id: u32| #[trigger] declared.contains(id) ==> !c.locals.dom().contains(id)
}

proof fn lemma_fresh_parts(c: Code, d: Code, a: Seq<u32>, b: Seq<u32>)
    requires
        fresh(c, a + b),
        keeps_locals(c, d, a),
    ensures
        fresh(c, a),
        fresh(d, b),
{
    let all = a + b;
    assert(a =~= all.subrange(0, a.len() as int));
    assert forall|i: int, j: int| 0 <= i < a.len() && 0 <= j < a.len() && i != j implies a[i] != a[j] by {
        assert(all[i] != all[j]);
    }
    assert forall|i: int, j: int| 0 <= i < b.len() && 0 <= j < b.len() && i != j implies b[i] != b[j] by {
        assert(all[a.len() + i] != all[a.len() + j]);
    }
    assert forall|id: u32| #[trigger] a.contains(id) implies !c.locals.dom().contains(id) by {
        lemma_in_concat(a, b, id);
    }
    assert forall|id: u32| #[trigger] b.contains(id) implies !d.locals.dom().contains(id) by {
        lemma_in_concat(a, b, id);
        if a.contains(id) {
            let i = choose|i: int| 0 <= i < a.len() && a[i] == id;
            let j = choose|j: int| 0 <= j < b.len() && b[j] == id;
            assert(all[i] == all[a.len() + j]);
        }
    }
}

proof fn lemma_branch_back(r: Run, e: Code, to: int, m: Machine, jumps: nat)
    requires
        is_open(e),
        fits(r.fv),
        0 <= to < r.fv.blocks.len(),
        all_go_on(flow_to(e, to).blocks, r.fv.blocks),
        jumps > 0,
    ensures
        from(r, e, m, jumps) == run_code(r.fv, to, 0, m, r.args, r.fuel, (jumps - 1) as nat),
{
    let d = flow_to(e, to);
    assert(goes_on(d.blocks[e.cur], r.fv.blocks[e.cur]));
    assert(r.fv.blocks[e.cur].terminator == Some(Terminator::Br(to as usize)));
}

/// The code of a statement does what the statement does.
#[verifier::rlimit(40)]
proof fn lemma_stmt_runs(
    r: Run,
    own: Own,
    c: Code,
    s: Stmt,
    env: Locals,
    m: Machine,
    jumps: nat,
) -> (to: (Machine, nat))
    requires
        is_open(c),
        ready(r, own),
        all_go_on(stmt_code(c, s, own).blocks, r.fv.blocks),
        matches_locals(c, m, env),
        fresh(c, lets(s)),
        jumps + c.blocks.len() >= stmt_code(c, s, own).blocks.len(),
    ensures
        comes_to(r, c, stmt_code(c, s, own), m, run_stmt(r.f, s, env, r.fuel), to, jumps),
    decreases s,
{
    let d = stmt_code(c, s, own);
    lemma_stmt_grows(c, s, own);
    if run_stmt(r.f, s, env, r.fuel) is Stuck {
        (m, 0)
    } else {
        match s {
            Stmt::Return(Some(e)) => {
                lemma_value_grows(c, e, own);
                let (c1, v) = value_code(c, e, own);
                lemma_end_grows(c1, Terminator::Ret(v));
                lemma_go_on_trans(c1.blocks, d.blocks, r.fv.blocks);
                let m1 = lemma_value_runs(r, own, c, e, env, m, jumps);
                assert(goes_on(d.blocks[c.cur], r.fv.blocks[c.cur]));
                (m1, 0)
            },
            Stmt::Return(None) => {
                assert(goes_on(d.blocks[c.cur], r.fv.blocks[c.cur]));
                (m, 0)
            },
            Stmt::Let { id, ty, mutable, init: Some(e) } => {
                lemma_value_grows(c, e, own);
                let (c1, v) = value_code(c, e, own);
                lemma_bind_grows(c1, id, v);
                lemma_go_on_trans(c1.blocks, d.blocks, r.fv.blocks);
                let m1 = lemma_value_runs(r, own, c, e, env, m, jumps);
                let x = eval(r.f, e, env, r.fuel)->0;
                let m2 = lemma_bind_runs(r, c1, id, v, x, env, m1, jumps);
                lemma_agree_trans(c, c1, m, m1, m2);
                (m2, 0)
            },
            Stmt::Let { id, ty, mutable, init: None } => {
                lemma_bind_grows(c, id, Operand::Const(0));
                let m2 = lemma_bind_runs(r, c, id, Operand::Const(0), 0, env, m, jumps);
                (m2, 0)
            },
            Stmt::Expr(e) => {
                lemma_value_grows(c, e, own);
                let m1 = lemma_value_runs(r, own, c, e, env, m, jumps);
                (m1, 0)
            },
            Stmt::If { condition, then_branch, else_branch: Some(other) } => {
                lemma_fork_runs(r, own, c, condition, then_branch, other, s, env, m, jumps)
            },
            Stmt::If { condition, then_branch, else_branch: None } => {
                lemma_branch_runs(r, own, c, condition, then_branch, s, env, m, jumps)
            },
            _ => (m, 0),
        }
    }
}

/// The code of an `if` with two branches.
#[verifier::rlimit(40)]
proof fn lemma_fork_runs(
    r: Run,
    own: Own,
    c: Code,
    condition: Expr,
    then_branch: Vec<Stmt>,
    other: Vec<Stmt>,
    s: Stmt,
    env: Locals,
    m: Machine,
    jumps: nat,
) -> (to: (Machine, nat))
    requires
        s == (Stmt::If { condition, then_branch, else_branch: Some(other) }),
        is_open(c),
        ready(r, own),
        all_go_on(stmt_code(c, s, own).blocks, r.fv.blocks),
        matches_locals(c, m, env),
        fresh(c, lets(s)),
        jumps + c.blocks.len() >= stmt_code(c, s, own).blocks.len(),
        !(run_stmt(r.f, s, env, r.fuel) is Stuck),
    ensures
        comes_to(r, c, stmt_code(c, s, own), m, run_stmt(r.f, s, env, r.fuel), to, jumps),
    decreases s, 0nat,
{
    let d = stmt_code(c, s, own);
    let n = c.blocks.len() as int;
    lemma_condition_grows(c, condition, own);
    lemma_forked(c, condition, own);
    let (c1, v) = condition_code(c, condition, own);
    let c3 = forked(c, condition, own);
    let t = Code { cur: n, ..c3 };
    lemma_block_grows(t, then_branch@, own);
    let t1 = block_code(t, then_branch@, own);
    lemma_flow_grows(t1, n + 2);
    let c4 = flow_to(t1, n + 2);
    let f = Code { cur: n + 1, ..c4 };
    assert(f.blocks[n + 1] == c3.blocks[n + 1]);
    lemma_block_grows(f, other@, own);
    let f1 = block_code(f, other@, own);
    lemma_flow_grows(f1, n + 2);
    let c5 = flow_to(f1, n + 2);
    assert(d == Code { cur: n + 2, ..c5 });
    lemma_go_on_trans(f1.blocks, c5.blocks, r.fv.blocks);
    lemma_go_on_trans(c4.blocks, f1.blocks, r.fv.blocks);
    lemma_go_on_trans(t1.blocks, c4.blocks, r.fv.blocks);
    lemma_go_on_trans(c3.blocks, t1.blocks, r.fv.blocks);
    lemma_go_on_trans(c1.blocks, c3.blocks, r.fv.blocks);
    let m1 = lemma_condition_runs(r, own, c, condition, env, m, jumps);
    assert(goes_on(c3.blocks[c.cur], r.fv.blocks[c.cur]));
    assert(r.fv.blocks[c.cur].terminator == Some(
        Terminator::CondBr {
            condition: v,
            then_block: n as usize,
            else_block: (n + 1) as usize,
        },
    ));
    let left = (jumps - 1) as nat;
    lemma_keeps_same(c, t, t1, block_lets(then_branch@));
    lemma_fresh_parts(c, t1, block_lets(then_branch@), block_lets(other@));
    assert(t1.blocks[n + 2] == t.blocks[n + 2]);
    assert(f1.blocks[n + 2] == f.blocks[n + 2]);
    assert(d.blocks[n + 2] == c3.blocks[n + 2]);
    assert(here(d) == 0);
    if holds(r.f, condition, env, r.fuel)->0 {
        lemma_same_locals(c1, t, m1, env);
        assert(from(r, c, m, jumps) == from(r, t, m1, left));
        let (m2, used) = lemma_block_runs(r, own, t, then_branch@, env, m1, left);
        if let Outcome::Goes(env2) = run_block(r.f, then_branch@, env, r.fuel) {
            lemma_branch_back(r, t1, n + 2, m2, (left - used) as nat);
            lemma_agree_trans(c, t, m, m1, m2);
            lemma_go_on_trans(t1.blocks, c4.blocks, f1.blocks);
            lemma_go_on_trans(t1.blocks, f1.blocks, c5.blocks);
            assert forall|id: u32| #[trigger] env2.dom().contains(id) implies d.locals.dom().contains(
                id,
            ) && d.locals[id] == t1.locals[id] by {
                assert(t1.locals.dom().contains(id));
                assert(f.locals.dom().contains(id));
                assert(!block_lets(other@).contains(id));
            }
            assert(agree(t1, m2, m2));
            lemma_matches_kept(t1, d, m2, m2, env2);
        }
        (m2, used + 2)
    } else {
        lemma_go_on_trans(c1.blocks, c3.blocks, t1.blocks);
        lemma_go_on_trans(c1.blocks, t1.blocks, c4.blocks);
        assert forall|id: u32| #[trigger] env.dom().contains(id) implies f.locals.dom().contains(id)
            && f.locals[id] == c1.locals[id] by {
            assert(c1.locals.dom().contains(id));
            assert(t.locals.dom().contains(id));
            assert(!block_lets(then_branch@).contains(id));
        }
        assert(agree(c1, m1, m1));
        lemma_matches_kept(c1, f, m1, m1, env);
        assert(from(r, c, m, jumps) == from(r, f, m1, left));
        let (m2, used) = lemma_block_runs(r, own, f, other@, env, m1, left);
        if let Outcome::Goes(env2) = run_block(r.f, other@, env, r.fuel) {
            lemma_branch_back(r, f1, n + 2, m2, (left - used) as nat);
            lemma_go_on_trans(c.blocks, c1.blocks, c4.blocks);
            lemma_agree_trans(c, f, m, m1, m2);
            assert(agree(f1, m2, m2));
            lemma_matches_kept(f1, d, m2, m2, env2);
        }
        (m2, used + 2)
    }
}

/// The same locals in code that has grown.
proof fn lemma_same_locals(c: Code, d: Code, m: Machine, env: Locals)
    requires
        all_go_on(c.blocks, d.blocks),
        d.locals == c.locals,
        matches_locals(c, m, env),
    ensures
        matches_locals(d, m, env),
{
    assert(agree(c, m, m));
    assert forall|id: u32| #[trigger] env.dom().contains(id) implies d.locals.dom().contains(id)
        && d.locals[id] == c.locals[id] by {
        assert(c.locals.dom().contains(id));
    }
    lemma_matches_kept(c, d, m, m, env);
}

/// The code of an `if` with one branch.
#[verifier::rlimit(40)]
proof fn lemma_branch_runs(
    r: Run,
    own: Own,
    c: Code,
    condition: Expr,
    then_branch: Vec<Stmt>,
    s: Stmt,
    env: Locals,
    m: Machine,
    jumps: nat,
) -> (to: (Machine, nat))
    requires
        s == (Stmt::If { condition, then_branch, else_branch: None }),
        is_open(c),
        ready(r, own),
        all_go_on(stmt_code(c, s, own).blocks, r.fv.blocks),
        matches_locals(c, m, env),
        fresh(c, lets(s)),
        jumps + c.blocks.len() >= stmt_code(c, s, own).blocks.len(),
        !(run_stmt(r.f, s, env, r.fuel) is Stuck),
    ensures
        comes_to(r, c, stmt_code(c, s, own), m, run_stmt(r.f, s, env, r.fuel), to, jumps),
    decreases s, 0nat,
{
    let d = stmt_code(c, s, own);
    let n = c.blocks.len() as int;
    lemma_condition_grows(c, condition, own);
    lemma_branched(c, condition, own);
    let (c1, v) = condition_code(c, condition, own);
    let c3 = branched(c, condition, own);
    let t = Code { cur: n, ..c3 };
    lemma_block_grows(t, then_branch@, own);
    let t1 = block_code(t, then_branch@, own);
    lemma_flow_grows(t1, n + 1);
    let c4 = flow_to(t1, n + 1);
    assert(d == Code { cur: n + 1, ..c4 });
    lemma_go_on_trans(t1.blocks, c4.blocks, r.fv.blocks);
    lemma_go_on_trans(c3.blocks, t1.blocks, r.fv.blocks);
    lemma_go_on_trans(c1.blocks, c3.blocks, r.fv.blocks);
    let m1 = lemma_condition_runs(r, own, c, condition, env, m, jumps);
    assert(goes_on(c3.blocks[c.cur], r.fv.blocks[c.cur]));
    assert(r.fv.blocks[c.cur].terminator == Some(
        Terminator::CondBr {
            condition: v,
            then_block: n as usize,
            else_block: (n + 1) as usize,
        },
    ));
    let left = (jumps - 1) as nat;
    assert(lets(s) =~= block_lets(then_branch@));
    assert(t1.blocks[n + 1] == t.blocks[n + 1]);
    assert(d.blocks[n + 1] == c3.blocks[n + 1]);
    assert(here(d) == 0);
    if holds(r.f, condition, env, r.fuel)->0 {
        lemma_same_locals(c1, t, m1, env);
        assert(from(r, c, m, jumps) == from(r, t, m1, left));
        let (m2, used) = lemma_block_runs(r, own, t, then_branch@, env, m1, left);
        if let Outcome::Goes(env2) = run_block(r.f, then_branch@, env, r.fuel) {
            lemma_branch_back(r, t1, n + 1, m2, (left - used) as nat);
            lemma_agree_trans(c, t, m, m1, m2);
            lemma_same_locals(t1, d, m2, env2);
        }
        (m2, used + 2)
    } else {
        lemma_go_on_trans(c1.blocks, c3.blocks, t1.blocks);
        lemma_go_on_trans(c1.blocks, t1.blocks, c4.blocks);
        assert forall|id: u32| #[trigger] env.dom().contains(id) implies d.locals.dom().contains(id)
            && d.locals[id] == c1.locals[id] by {
            assert(c1.locals.dom().contains(id));
            assert(t.locals.dom().contains(id));
            assert(!block_lets(then_branch@).contains(id));
        }
        assert(agree(c1, m1, m1));
        lemma_matches_kept(c1, d, m1, m1, env);
        (m1, 1)
    }
}

/// The code of statements does what the statements do.
proof fn lemma_block_runs(
    r: Run,
    own: Own,
    c: Code,
    ss: Seq<Stmt>,
    env: Locals,
    m: Machine,
    jumps: nat,
) -> (to: (Machine, nat))
    requires
        is_open(c),
        ready(r, own),
        all_go_on(block_code(c, ss, own).blocks, r.fv.blocks),
        matches_locals(c, m, env),
        fresh(c, block_lets(ss)),
        jumps + c.blocks.len() >= block_code(c, ss, own).blocks.len(),
    ensures
        comes_to(r, c, block_code(c, ss, own), m, run_block(r.f, ss, env, r.fuel), to, jumps),
    decreases ss,
{
    if ss.len() == 0 {
        (m, 0)
    } else {
        let front = ss.drop_last();
        let last = ss.last();
        lemma_block_grows(c, front, own);
        let c1 = block_code(c, front, own);
        let d = block_code(c, ss, own);
        lemma_fresh_parts(c, c1, block_lets(front), lets(last));
        if !ended(c1) {
            lemma_stmt_grows(c1, last, own);
            lemma_go_on_trans(c1.blocks, d.blocks, r.fv.blocks);
        }
        let (m1, used) = lemma_block_runs(r, own, c, front, env, m, jumps);
        match run_block(r.f, front, env, r.fuel) {
            Outcome::Goes(env1) => {
                let (m2, more) = lemma_stmt_runs(
                    r,
                    own,
                    c1,
                    last,
                    env1,
                    m1,
                    (jumps - used) as nat,
                );
                if run_stmt(r.f, last, env1, r.fuel) is Goes {
                    lemma_agree_trans(c, c1, m, m1, m2);
                }
                (m2, used + more)
            },
            _ => (m1, used),
        }
    }
}

/// The argument of a parameter, where no two parameters are the same.
proof fn lemma_argument(params: Seq<u32>, args: Seq<int>, k: int)
    requires
        0 <= k < params.len() <= args.len(),
        params.no_duplicates(),
    ensures
        argument(params, args, params[k]) == Some(args[k]),
    decreases params.len(),
{
    if k < params.len() - 1 {
        let front = params.drop_last();
        assert(front[k] == params[k]);
        assert(params[params.len() - 1] != params[k]);
        assert(front.no_duplicates());
        lemma_argument(front, args, k);
    }
}

/// The code that gives each parameter a slot stores its argument.
proof fn lemma_params_run(r: Run, c: Code, params: Seq<Param>, m: Machine, jumps: nat) -> (m2: Machine)
    requires
        is_open(c),
        fits(r.fv),
        c.locals == Map::<u32, Operand>::empty(),
        all_go_on(params_code(c, params).blocks, r.fv.blocks),
        params.len() <= r.args.len(),
        r.fv.params.len() <= r.args.len(),
        r.fv.params.no_duplicates(),
        params.len() <= r.fv.params.len(),
        forall|k: int| 0 <= k < params.len() ==> r.fv.params[k] == (#[trigger] params[k]).id,
    ensures
        from(r, c, m, jumps) == from(r, params_code(c, params), m2, jumps),
        matches_locals(params_code(c, params), m2, entry_locals(params, r.args)),
    decreases params.len(),
{
    if params.len() == 0 {
        m
    } else {
        let front = params.drop_last();
        let id = params.last().id;
        lemma_params_grow(c, front);
        let c1 = params_code(c, front);
        lemma_bind_grows(c1, id, Operand::Arg(id));
        lemma_go_on_trans(c1.blocks, params_code(c, params).blocks, r.fv.blocks);
        assert forall|k: int| 0 <= k < front.len() implies r.fv.params[k] == (
        #[trigger] front[k]).id by {
            assert(front[k] == params[k]);
        }
        let m1 = lemma_params_run(r, c, front, m, jumps);
        let k = params.len() - 1;
        assert(r.fv.params[k] == params[k].id);
        lemma_argument(r.fv.params, r.args, k);
        lemma_bind_runs(
            r,
            c1,
            id,
            Operand::Arg(id),
            r.args[k],
            entry_locals(front, r.args),
            m1,
            jumps,
        )
    }
}

proof fn lemma_params_grow(c: Code, params: Seq<Param>)
    requires
        is_open(c),
    ensures
        all_go_on(c.blocks, params_code(c, params).blocks),
        is_open(params_code(c, params)),
        params_code(c, params).cur == c.cur,
        params_code(c, params).blocks.len() == c.blocks.len(),
        forall|id: u32| #[trigger]
            params_code(c, params).locals.dom().contains(id) ==> c.locals.dom().contains(id)
                || params.map_values(|p: Param| p.id).contains(id),
    decreases params.len(),
{
    lemma_self_goes_on(c);
    if params.len() > 0 {
        let front = params.drop_last();
        lemma_params_grow(c, front);
        let c1 = params_code(c, front);
        let id = params.last().id;
        lemma_bind_grows(c1, id, Operand::Arg(id));
        lemma_go_on_trans(c.blocks, c1.blocks, params_code(c, params).blocks);
        let ids = params.map_values(|p: Param| p.id);
        let few = front.map_values(|p: Param| p.id);
        assert forall|x: u32| #[trigger]
            params_code(c, params).locals.dom().contains(x) implies c.locals.dom().contains(x)
            || ids.contains(x) by {
            if x == id {
                assert(ids[params.len() - 1] == x);
            } else {
                assert(c1.locals.dom().contains(x));
                if few.contains(x) {
                    let k = choose|k: int| 0 <= k < few.len() && few[k] == x;
                    assert(ids[k] == x);
                }
            }
        }
    }
}

/// The code that is emitted for a function computes what the function means: where
/// evaluating the body on arguments gives a value, running the code on them returns
/// that value.
pub proof fn lemma_emitted_computes(f: Function, name: Seq<char>, args: Seq<int>, fuel: nat)
    requires
        declares_once(f),
        fits(function_code(f, name)),
        meaning(f, args, fuel) is Some,
    ensures
        call(function_code(f, name), args, fuel) == meaning(f, args, fuel),
    decreases fuel,
{
    let fv = function_code(f, name);
    assert(knows_calls(f, fv, fuel)) by {
        assert forall|vs: Seq<int>, n: nat|
            n < fuel && (#[trigger] meaning(f, vs, n)) is Some implies call(fv, vs, n) == meaning(
            f,
            vs,
            n,
        ) by {
            lemma_emitted_computes(f, name, vs, n);
        }
    }
    let r = Run { f, fv, args, fuel };
    let own = Own { id: f.id, name };
    let ids = f.params@.map_values(|p: Param| p.id);
    let entry = open_block(Code { blocks: Seq::empty(), cur: 0, locals: Map::empty() }, "entry");
    let c0 = params_code(entry, f.params@);
    lemma_params_grow(entry, f.params@);
    let c = block_code(c0, f.body@, own);
    lemma_block_grows(c0, f.body@, own);
    lemma_self_goes_on(c);
    if !ended(c) {
        lemma_end_grows(c, Terminator::Ret(Operand::Const(0)));
    }
    assert(all_go_on(c.blocks, fv.blocks));
    lemma_go_on_trans(c0.blocks, c.blocks, fv.blocks);
    let all = ids + block_lets(f.body@);
    assert(ids.no_duplicates()) by {
        assert forall|i: int, j: int|
            0 <= i < ids.len() && 0 <= j < ids.len() && i != j implies ids[i] != ids[j] by {
            assert(all[i] != all[j]);
        }
    }
    let start = Machine { vals: Map::empty(), mem: Map::empty() };
    let jumps = fv.blocks.len();
    let m1 = lemma_params_run(r, entry, f.params@, start, jumps);
    lemma_fresh_body(c0, ids, block_lets(f.body@));
    let env = entry_locals(f.params@, args);
    let (m2, used) = lemma_block_runs(r, own, c0, f.body@, env, m1, jumps);
    assert(here(entry) == 0);
    assert(call(fv, args, fuel) == from(r, entry, start, jumps));
    if run_block(f, f.body@, env, fuel) is Goes {
        assert(goes_on(
            end(c, Terminator::Ret(Operand::Const(0))).blocks[c.cur],
            fv.blocks[c.cur],
        ));
    }
}

/// Whether code computes what a function means.
pub open spec fn computes(fv: FunctionView, f: Function) -> bool {
    forall|args: Seq<int>, fuel: nat|
        (#[trigger] meaning(f, args, fuel)) is Some ==> call(fv, args, fuel) == meaning(
            f,
            args,
            fuel,
        )
}

/// The code that is emitted for a function computes what the function means, on all
/// arguments.
pub proof fn lemma_emitted_computes_all(f: Function, name: Seq<char>)
    requires
        declares_once(f),
        fits(function_code(f, name)),
    ensures
        computes(function_code(f, name), f),
{
    assert forall|args: Seq<int>, fuel: nat|
        (#[trigger] meaning(f, args, fuel)) is Some implies call(
        function_code(f, name),
        args,
        fuel,
    ) == meaning(f, args, fuel) by {
        lemma_emitted_computes(f, name, args, fuel);
    }
}

proof fn lemma_fresh_body(c: Code, ids: Seq<u32>, declared: Seq<u32>)
    requires
        (ids + declared).no_duplicates(),
        forall|id: u32| #[trigger] c.locals.dom().contains(id) ==> ids.contains(id),
    ensures
        fresh(c, declared),
{
    let all = ids + declared;
    assert forall|i: int, j: int|
        0 <= i < declared.len() && 0 <= j < declared.len() && i != j implies declared[i]
        != declared[j] by {
        assert(all[ids.len() + i] != all[ids.len() + j]);
    }
    assert forall|id: u32| #[trigger] declared.contains(id) implies !c.locals.dom().contains(id) by {
        if ids.contains(id) {
            let i = choose|i: int| 0 <= i < ids.len() && ids[i] == id;
            let j = choose|j: int| 0 <= j < declared.len() && declared[j] == id;
            assert(all[i] == all[ids.len() + j]);
        }
    }
}

} // verus!

//! The values of expressions, and which of them are whole numbers.
//!
//! Values are told apart from how the analysis classifies expressions: as fractions,
//! in a world that says what locals hold and what everything comes to that is not
//! arithmetic.
use vstd::prelude::*;
use crate::codegen::confinement::{lemma_within, within};
use crate::codegen::hir::{BinaryOp, Expr, IndexReadOp, Op, Stmt};
use crate::codegen::integers::{
    assigned, clamps, int_let_id, int_lets, int_lets_give, is_bitwise, is_or_zero, known_in, losses,
    losses_enter, losses_give, reads_table, row_alias_id, row_aliases, row_aliases_give, sets_give,
    starts_int, stays_int, yields_int, Known,
};
use crate::codegen::program::{
    in_block, in_expr, lemma_block_all, lemma_everything_met, lemma_expr_met, lemma_in_child,
    lemma_met_stands, lemma_visit_holds, parts,
};
use crate::codegen::walk::{
    block_exprs, block_stmts, children_of, collected, contributed, everywhere, visit, visit_each,
};

verus! {

broadcast use vstd::std_specs::vec::group_vec_axioms;

/// A fraction.
pub ghost struct Num {
    pub n: int,
    pub d: int,
}

pub open spec fn whole(k: int) -> Num {
    Num { n: k, d: 1 }
}

pub open spec fn plus(a: Num, b: Num) -> Num {
    Num { n: a.n * b.d + b.n * a.d, d: a.d * b.d }
}

pub open spec fn minus(a: Num, b: Num) -> Num {
    Num { n: a.n * b.d - b.n * a.d, d: a.d * b.d }
}

pub open spec fn times(a: Num, b: Num) -> Num {
    Num { n: a.n * b.n, d: a.d * b.d }
}

pub open spec fn over(a: Num, b: Num) -> Num {
    Num { n: a.n * b.d, d: a.d * b.n }
}

/// Whether a fraction is a whole number.
pub open spec fn is_whole(a: Num) -> bool {
    a.d != 0 && exists|k: int| a.n == #[trigger] (k * a.d)
}

/// What is outside arithmetic: what locals hold, by how much an update changes them,
/// what literals stand for, what bitwise operations and `Math.imul` come to and what
/// bytes hold, which are whole numbers, and what anything else comes to.
pub ghost struct World {
    pub local: spec_fn(u32) -> Num,
    pub change: spec_fn(u32) -> int,
    pub literal: spec_fn(u64) -> Num,
    pub bits: spec_fn(BinaryOp, Num, Num) -> int,
    pub imul: spec_fn(Expr) -> int,
    pub byte: spec_fn(Expr) -> int,
    pub other: spec_fn(Expr) -> Num,
}

/// The value of an expression.
pub open spec fn value(e: Expr, w: World) -> Num
    decreases e,
{
    match e {
        Expr::Integer(k) => whole(k as int),
        Expr::Number(bits) => (w.literal)(bits),
        Expr::LocalGet(id) => (w.local)(id),
        Expr::Update(id) => plus((w.local)(id), whole((w.change)(id))),
        Expr::Binary { op, left, right } => {
            let l = value(*left, w);
            let r = value(*right, w);
            match op {
                BinaryOp::Add => plus(l, r),
                BinaryOp::Sub => minus(l, r),
                BinaryOp::Mul => times(l, r),
                BinaryOp::Div => over(l, r),
                BinaryOp::BitAnd
                | BinaryOp::BitOr
                | BinaryOp::BitXor
                | BinaryOp::Shl
                | BinaryOp::Shr
                | BinaryOp::UShr => whole((w.bits)(op, l, r)),
                BinaryOp::Mod | BinaryOp::Pow => (w.other)(e),
            }
        },
        Expr::IndexRead { op, object, index } => match op {
            IndexReadOp::Uint8ArrayGet | IndexReadOp::BufferIndexGet => whole((w.byte)(e)),
            _ => (w.other)(e),
        },
        Expr::Node { op, operands } => if op == Op::MathImul {
            whole((w.imul)(e))
        } else {
            (w.other)(e)
        },
        _ => (w.other)(e),
    }
}

/// Whether `e` calls one of some functions.
pub open spec fn calls_one_of(e: Expr, fs: Set<u32>) -> bool {
    e matches Expr::Call { callee, args } && (*callee matches Expr::FuncRef(f) && fs.contains(f))
}

/// Whether `e` is an element of a row of one of some tables.
pub open spec fn is_element(e: Expr, tables: Set<u32>) -> bool {
    e matches Expr::IndexGet { object, index } && (*object matches Expr::IndexGet {
        object: table,
        index: row,
    } && (*table matches Expr::LocalGet(t) && tables.contains(t)))
}

/// Whether `e` is an element of one of some rows.
pub open spec fn is_element_of_row(e: Expr, rows: Set<u32>) -> bool {
    e matches Expr::IndexGet { object, index } && (*object matches Expr::LocalGet(r)
        && rows.contains(r))
}

/// Whether a world is as the analysis takes it to be: the locals of `ints` hold whole
/// numbers, clamping functions return them, and tables and their rows hold them.
pub open spec fn is_as_known(w: World, ints: Set<u32>, k: Known) -> bool {
    &&& forall|id: u32| #[trigger] ints.contains(id) ==> is_whole((w.local)(id))
    &&& forall|e: Expr| #[trigger] calls_one_of(e, k.clamps) ==> is_whole((w.other)(e))
    &&& forall|e: Expr| #[trigger] is_element(e, k.tables) ==> is_whole((w.other)(e))
    &&& forall|e: Expr| #[trigger] is_element_of_row(e, k.rows) ==> is_whole((w.other)(e))
}

/// Whether what an expression updates held whole numbers.
pub open spec fn updates_whole(e: Expr, w: World) -> bool {
    forall|id: u32| #[trigger] in_expr(e, Expr::Update(id)) ==> is_whole((w.local)(id))
}

proof fn lemma_whole(k: int)
    ensures
        is_whole(whole(k)),
{
    assert(whole(k).n == k * whole(k).d);
}

proof fn lemma_whole_arith(a: Num, b: Num)
    requires
        is_whole(a),
        is_whole(b),
    ensures
        is_whole(plus(a, b)),
        is_whole(minus(a, b)),
        is_whole(times(a, b)),
{
    let x = choose|k: int| a.n == #[trigger] (k * a.d);
    let y = choose|k: int| b.n == #[trigger] (k * b.d);
    let (ad, bd) = (a.d, b.d);
    assert(ad * bd != 0) by (nonlinear_arith)
        requires
            ad != 0,
            bd != 0,
    ;
    assert((x * ad) * bd + (y * bd) * ad == (x + y) * (ad * bd)) by (nonlinear_arith);
    assert((x * ad) * bd - (y * bd) * ad == (x - y) * (ad * bd)) by (nonlinear_arith);
    assert((x * ad) * (y * bd) == (x * y) * (ad * bd)) by (nonlinear_arith);
}

/// An expression that is classified as yielding an integer has a whole number for its
/// value, in every world that is as the analysis takes it to be.
pub proof fn lemma_integers_are_whole(e: Expr, ints: Set<u32>, k: Known, w: World)
    requires
        yields_int(e, ints, k),
        is_as_known(w, ints, k),
        updates_whole(e, w),
    ensures
        is_whole(value(e, w)),
    decreases e,
{
    match e {
        Expr::Integer(n) => {
            lemma_whole(n as int);
        },
        Expr::Update(id) => {
            lemma_expr_met(e, e);
            lemma_visit_holds(e, everywhere(), e);
            assert(in_expr(e, Expr::Update(id)));
            lemma_whole((w.change)(id));
            lemma_whole_arith((w.local)(id), whole((w.change)(id)));
        },
        Expr::Binary { op, left, right } => {
            if is_bitwise(op) {
                lemma_whole((w.bits)(op, value(*left, w), value(*right, w)));
            } else {
                assert(parts(e)[0] == *left && parts(e)[1] == *right);
                assert(updates_whole(*left, w)) by {
                    assert forall|id: u32| #[trigger] in_expr(
                        *left,
                        Expr::Update(id),
                    ) implies is_whole((w.local)(id)) by {
                        lemma_in_child(e, 0, Expr::Update(id));
                    }
                }
                assert(updates_whole(*right, w)) by {
                    assert forall|id: u32| #[trigger] in_expr(
                        *right,
                        Expr::Update(id),
                    ) implies is_whole((w.local)(id)) by {
                        lemma_in_child(e, 1, Expr::Update(id));
                    }
                }
                lemma_integers_are_whole(*left, ints, k, w);
                lemma_integers_are_whole(*right, ints, k, w);
                lemma_whole_arith(value(*left, w), value(*right, w));
            }
        },
        Expr::Call { callee, args } => {
            assert(calls_one_of(e, k.clamps));
        },
        Expr::LocalGet(id) => {
            assert(ints.contains(id));
        },
        Expr::IndexRead { op, object, index } => {
            lemma_whole((w.byte)(e));
        },
        Expr::Node { op, operands } => {
            lemma_whole((w.imul)(e));
        },
        Expr::IndexGet { object, index } => {
            assert(is_element(e, k.tables) || is_element_of_row(e, k.rows));
        },
        _ => {},
    }
}

/// What is classified as yielding an integer: whole literals, updates, known locals,
/// bytes, `Math.imul`, bitwise operations on anything, calls of clamping functions,
/// elements of tables, and sums, differences and products exactly where both operands
/// are.
pub proof fn lemma_integers_recognised(e: Expr, ints: Set<u32>, k: Known)
    ensures
        e is Integer || e is Update ==> yields_int(e, ints, k),
        e matches Expr::LocalGet(id) ==> yields_int(e, ints, k) == ints.contains(id),
        e matches Expr::Binary { op, left, right } ==> match op {
            BinaryOp::Add | BinaryOp::Sub | BinaryOp::Mul => yields_int(e, ints, k) == (yields_int(
                *left,
                ints,
                k,
            ) && yields_int(*right, ints, k)),
            BinaryOp::BitAnd
            | BinaryOp::BitOr
            | BinaryOp::BitXor
            | BinaryOp::Shl
            | BinaryOp::Shr
            | BinaryOp::UShr => yields_int(e, ints, k),
            BinaryOp::Div | BinaryOp::Mod | BinaryOp::Pow => !yields_int(e, ints, k),
        },
        calls_one_of(e, k.clamps) || is_element(e, k.tables) || is_element_of_row(e, k.rows)
            ==> yields_int(e, ints, k),
        e matches Expr::IndexRead { op, object, index } && (op == IndexReadOp::Uint8ArrayGet || op
            == IndexReadOp::BufferIndexGet) ==> yields_int(e, ints, k),
        e matches Expr::Node { op, operands } && op == Op::MathImul ==> yields_int(e, ints, k),
        e is Number || e is String || e is PropertyGet || e is New ==> !yields_int(e, ints, k),
{
}

// ---- assignments of a program ----

/// Whether a program assigns a local somewhere.
pub open spec fn assigns(stmts: Seq<Stmt>, id: u32) -> bool {
    exists|v: Box<Expr>| #[trigger] in_block(stmts, Expr::LocalSet(id, v))
}

/// The assigned locals are those that an assignment of the program sets.
pub proof fn lemma_assigned_told(stmts: Seq<Stmt>, id: u32)
    ensures
        assigned(stmts).contains(id) <==> assigns(stmts, id),
{
    let met = visit_each(block_exprs(stmts), everywhere());
    if assigned(stmts).contains(id) {
        let i = choose|i: int| 0 <= i < met.len() && #[trigger] sets_give()(met[i]).contains(id);
        assert(met.contains(met[i]));
        lemma_everything_met(stmts, met[i]);
        if let Expr::LocalSet(x, v) = met[i] {
            assert(in_block(stmts, Expr::LocalSet(id, v)));
        }
    }
    if assigns(stmts, id) {
        let v = choose|v: Box<Expr>| #[trigger] in_block(stmts, Expr::LocalSet(id, v));
        lemma_everything_met(stmts, Expr::LocalSet(id, v));
        let i = choose|i: int| 0 <= i < met.len() && met[i] == Expr::LocalSet(id, v);
        assert(sets_give()(met[i]).contains(id));
    }
}

/// Whether an expression leaves a local a whole number: it is no assignment of anything
/// else to it, and no closure that assigns it.
pub open spec fn leaves_whole(d: Expr, id: u32, ints: Set<u32>, k: Known) -> bool {
    match d {
        Expr::LocalSet(x, v) => x == id ==> yields_int(*v, ints, k),
        Expr::Closure { func_id, body, captures, captures_this } => !assigns(body@, id),
        _ => true,
    }
}

/// Whether a program leaves a local a whole number.
pub open spec fn stays_whole(stmts: Seq<Stmt>, id: u32, ints: Set<u32>, k: Known) -> bool {
    forall|d: Expr| #[trigger] in_block(stmts, d) ==> leaves_whole(d, id, ints, k)
}

/// A local loses its integer value exactly where the program assigns something else to
/// it, or assigns it in a closure.
pub proof fn lemma_losses_told(stmts: Seq<Stmt>, id: u32, ints: Set<u32>, k: Known)
    ensures
        !losses(stmts, ints, k).contains(id) <==> stays_whole(stmts, id, ints, k),
{
    let enters = losses_enter();
    let gives = losses_give(ints, k);
    let met = visit_each(block_exprs(stmts), enters);
    let fine = |d: Expr| leaves_whole(d, id, ints, k);
    if !losses(stmts, ints, k).contains(id) {
        assert forall|d: Expr| #[trigger] met.contains(d) implies fine(d) by {
            let i = choose|i: int| 0 <= i < met.len() && met[i] == d;
            if gives(met[i]).contains(id) {
                assert(contributed(met, gives).contains(id));
            }
            if let Expr::Closure { func_id, body, captures, captures_this } = d {
                lemma_assigned_told(body@, id);
            }
        }
        assert forall|d: Expr, i: int, y: Expr|
            met.contains(d) && 0 <= i < children_of(d).len() && !(#[trigger] enters(d, i))
                && #[trigger] in_expr(children_of(d)[i], y) implies fine(y) by {
            assert(fine(d));
            if let Expr::Closure { func_id, body, captures, captures_this } = d {
                crate::codegen::program::lemma_in_body(body@, i, y);
                match y {
                    Expr::LocalSet(x, v) => {
                        if x == id {
                            assert(in_block(body@, Expr::LocalSet(id, v)));
                        }
                    },
                    Expr::Closure { func_id: _, body: inner, captures: _, captures_this: _ } => {
                        if assigns(inner@, id) {
                            let v = choose|v: Box<Expr>| #[trigger]
                                in_block(inner@, Expr::LocalSet(id, v));
                            crate::codegen::program::lemma_block_trans(
                                body@,
                                y,
                                Expr::LocalSet(id, v),
                            );
                            assert(in_block(body@, Expr::LocalSet(id, v)));
                        }
                    },
                    _ => {},
                }
            }
        }
        assert forall|d: Expr| #[trigger] in_block(stmts, d) implies leaves_whole(d, id, ints, k) by {
            lemma_block_all(stmts, enters, fine, d);
        }
    }
    if stays_whole(stmts, id, ints, k) {
        assert forall|i: int| 0 <= i < met.len() implies !(#[trigger] gives(met[i]).contains(id)) by {
            assert(met.contains(met[i]));
            lemma_met_stands(stmts, enters, met[i]);
            assert(leaves_whole(met[i], id, ints, k));
            if let Expr::Closure { func_id, body, captures, captures_this } = met[i] {
                lemma_assigned_told(body@, id);
            }
        }
    }
}

/// Whether a `let` makes a local start as a whole number: with a whole literal, with a
/// bitwise operation where the local is a constant, with `| 0` where it is a variable,
/// with a call of a clamping function or an element of a table.
pub open spec fn starts_whole(s: Stmt, id: u32, k: Known) -> bool {
    s matches Stmt::Let { id: x, ty, mutable, init: Some(e) } && x == id && {
        ||| e is Integer
        ||| calls_one_of(e, k.clamps)
        ||| is_element(e, k.tables)
        ||| is_element_of_row(e, k.rows)
        ||| (e matches Expr::Binary { op, left, right } && match op {
            BinaryOp::BitOr => !mutable || *right == Expr::Integer(0),
            BinaryOp::BitAnd
            | BinaryOp::BitXor
            | BinaryOp::Shl
            | BinaryOp::Shr
            | BinaryOp::UShr => !mutable,
            _ => false,
        })
    }
}

/// The locals that start as integers are those that a `let` of the program makes start
/// as whole numbers.
pub proof fn lemma_starts_told(stmts: Seq<Stmt>, id: u32, k: Known)
    ensures
        int_lets(stmts, k).contains(id) <==> exists|s: Stmt|
            within(stmts, s) && #[trigger] starts_whole(s, id, k),
{
    let ss = block_stmts(stmts, true);
    if int_lets(stmts, k).contains(id) {
        let i = choose|i: int| 0 <= i < ss.len() && #[trigger] int_lets_give(k)(ss[i]).contains(id);
        assert(int_let_id(ss[i], k).contains(id));
        assert(ss.contains(ss[i]));
        lemma_within(stmts, ss[i]);
        assert(starts_whole(ss[i], id, k));
    }
    if exists|s: Stmt| within(stmts, s) && #[trigger] starts_whole(s, id, k) {
        let s = choose|s: Stmt| within(stmts, s) && #[trigger] starts_whole(s, id, k);
        lemma_within(stmts, s);
        let i = choose|i: int| 0 <= i < ss.len() && ss[i] == s;
        assert(int_let_id(ss[i], k).contains(id));
        assert(int_lets_give(k)(ss[i]).contains(id));
    }
}

/// What a local starts as, where it is said to start as an integer, is a whole number.
pub proof fn lemma_starts_are_whole(init: Expr, mutable: bool, k: Known, w: World)
    requires
        starts_int(init, mutable, k),
        is_as_known(w, Set::empty(), k),
    ensures
        is_whole(value(init, w)),
{
    match init {
        Expr::Integer(n) => {
            lemma_whole(n as int);
        },
        Expr::Binary { op, left, right } => {
            lemma_whole((w.bits)(op, value(*left, w), value(*right, w)));
        },
        Expr::Call { callee, args } => {
            assert(calls_one_of(init, k.clamps));
        },
        Expr::IndexGet { object, index } => {
            assert(is_element(init, k.tables) || is_element_of_row(init, k.rows));
        },
        _ => {},
    }
}

/// Locals stay integers together exactly where the program leaves each of them a whole
/// number, given the others.
pub proof fn lemma_stays_told(stmts: Seq<Stmt>, ints: Set<u32>, k: Known)
    ensures
        stays_int(stmts, ints, k) <==> forall|id: u32| #[trigger]
            ints.contains(id) ==> stays_whole(stmts, id, ints, k),
{
    assert forall|id: u32| #[trigger] ints.contains(id) implies (!losses(stmts, ints, k).contains(id)
        <==> stays_whole(stmts, id, ints, k)) by {
        lemma_losses_told(stmts, id, ints, k);
    }
    if forall|id: u32| #[trigger] ints.contains(id) ==> stays_whole(stmts, id, ints, k) {
        assert forall|id: u32| #![auto] ints.contains(id) implies !losses(stmts, ints, k).contains(id) by {}
    }
    if stays_int(stmts, ints, k) {
        assert forall|id: u32| #[trigger] ints.contains(id) implies stays_whole(stmts, id, ints, k) by {
            assert(!losses(stmts, ints, k).contains(id));
        }
    }
}

/// The rows that are known by other names are those that a constant is bound to: a row
/// of one of the tables.
pub proof fn lemma_rows_told(stmts: Seq<Stmt>, tables: Set<u32>, id: u32)
    requires
        row_aliases(stmts, tables).contains(id),
    ensures
        exists|i: int|
            0 <= i < block_stmts(stmts, false).len() && #[trigger] is_row_of(
                block_stmts(stmts, false)[i],
                id,
                tables,
            ),
{
    let ss = block_stmts(stmts, false);
    let i = choose|i: int|
        0 <= i < ss.len() && #[trigger] row_aliases_give(tables)(ss[i]).contains(id);
    assert(row_alias_id(ss[i], tables).contains(id));
    assert(is_row_of(ss[i], id, tables));
}

/// Whether a statement binds a constant to a row of one of some tables.
pub open spec fn is_row_of(s: Stmt, id: u32, tables: Set<u32>) -> bool {
    s matches Stmt::Let { id: x, ty, mutable, init: Some(Expr::IndexGet { object, index }) } && x
        == id && !mutable && (*object matches Expr::LocalGet(t) && tables.contains(t))
}

} // verus!

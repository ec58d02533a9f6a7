//! Functions whose shape allows integer code: clamps, functions that return
//! integers, and recursive functions on plain numbers.
use vstd::prelude::*;
use crate::codegen::hir::{BinaryOp, CompareOp, Expr, Function, Op, Stmt, Type};
use crate::codegen::walk::{block_stmts, statements};

verus! {

broadcast use vstd::std_specs::vec::group_vec_axioms;

// ---- clamps ----

/// Whether `s` is `if (v <op> bound) return bound;`.
pub open spec fn returns_bound(s: Stmt, op: CompareOp, v: u32, bound: Expr) -> bool {
    &&& s matches Stmt::If { condition, then_branch, else_branch: None }
    &&& condition matches Expr::Compare { op: o, left, right }
    &&& o == op
    &&& *left == Expr::LocalGet(v)
    &&& *right == bound
    &&& then_branch@ == seq![Stmt::Return(Some(bound))]
}

/// Whether `f` is a synchronous function with `n` parameters.
pub open spec fn is_plain(f: Function, n: nat) -> bool {
    !f.is_async && !f.is_generator && f.params@.len() == n
}

/// Whether `f` is `if (v < lo) return lo; if (v > hi) return hi; return v;` on
/// its three parameters and returns a number.
pub open spec fn is_clamp3(f: Function) -> bool {
    &&& is_plain(f, 3)
    &&& f.return_type is Number
    &&& f.body@.len() == 3
    &&& ({
        let v = f.params@[0].id;
        let lo = f.params@[1].id;
        let hi = f.params@[2].id;
        &&& returns_bound(f.body@[0], CompareOp::Lt, v, Expr::LocalGet(lo))
        &&& returns_bound(f.body@[1], CompareOp::Gt, v, Expr::LocalGet(hi))
        &&& f.body@[2] == Stmt::Return(Some(Expr::LocalGet(v)))
    })
}

/// Whether `f` is `if (v < 0) return 0; if (v > 255) return 255; return v | 0;`
/// on its one parameter.
pub open spec fn is_clamp_u8(f: Function) -> bool {
    &&& is_plain(f, 1)
    &&& f.body@.len() == 3
    &&& ({
        let v = f.params@[0].id;
        &&& returns_bound(f.body@[0], CompareOp::Lt, v, Expr::Integer(0))
        &&& returns_bound(f.body@[1], CompareOp::Gt, v, Expr::Integer(255))
        &&& returns_or_zero(f.body@[2], v)
    })
}

/// Whether `s` is `return v | 0;`.
pub open spec fn returns_or_zero(s: Stmt, v: u32) -> bool {
    &&& s matches Stmt::Return(Some(Expr::Binary { op, left, right }))
    &&& op == BinaryOp::BitOr
    &&& *left == Expr::LocalGet(v)
    &&& *right == Expr::Integer(0)
}

fn is_local(e: &Expr, id: u32) -> (r: bool)
    ensures
        r == (*e == Expr::LocalGet(id)),
{
    match e {
        Expr::LocalGet(i) => *i == id,
        _ => false,
    }
}

fn is_integer(e: &Expr, n: i64) -> (r: bool)
    ensures
        r == (*e == Expr::Integer(n)),
{
    match e {
        Expr::Integer(m) => *m == n,
        _ => false,
    }
}

/// The bound of a clamp: a parameter or an integer.
enum Bound {
    Local(u32),
    Integer(i64),
}

spec fn bound_expr(b: Bound) -> Expr {
    match b {
        Bound::Local(id) => Expr::LocalGet(id),
        Bound::Integer(n) => Expr::Integer(n),
    }
}

fn is_bound(e: &Expr, b: &Bound) -> (r: bool)
    ensures
        r == (*e == bound_expr(*b)),
{
    match b {
        Bound::Local(id) => is_local(e, *id),
        Bound::Integer(n) => is_integer(e, *n),
    }
}

fn is_guard(s: &Stmt, op: CompareOp, v: u32, b: &Bound) -> (r: bool)
    ensures
        r == returns_bound(*s, op, v, bound_expr(*b)),
{
    if let Stmt::If {
        condition: Expr::Compare { op: o, left, right },
        then_branch,
        else_branch: None,
    } = s {
        if *o != op || !is_local(&**left, v) || !is_bound(&**right, b) {
            return false;
        }
        if then_branch.len() != 1 {
            return false;
        }
        if let Stmt::Return(Some(e)) = &then_branch[0] {
            let r = is_bound(e, b);
            if r {
                assert(then_branch@ =~= seq![Stmt::Return(Some(bound_expr(*b)))]);
            }
            return r;
        }
        return false;
    }
    false
}

/// Detects a clamp to the range given by two parameters; tells the ids of the
/// value and of the two bounds.
pub fn detect_clamp3(f: &Function) -> (r: Option<(u32, u32, u32)>)
    ensures
        r == if is_clamp3(*f) {
            Some((f.params@[0].id, f.params@[1].id, f.params@[2].id))
        } else {
            None
        },
{
    if f.is_async || f.is_generator || f.params.len() != 3 {
        return None;
    }
    if !matches!(f.return_type, Type::Number) {
        return None;
    }
    if f.body.len() != 3 {
        return None;
    }
    let v_id: u32 = f.params[0].id;
    let lo_id: u32 = f.params[1].id;
    let hi_id: u32 = f.params[2].id;
    if !is_guard(&f.body[0], CompareOp::Lt, v_id, &Bound::Local(lo_id)) {
        return None;
    }
    if !is_guard(&f.body[1], CompareOp::Gt, v_id, &Bound::Local(hi_id)) {
        return None;
    }
    match &f.body[2] {
        Stmt::Return(Some(e)) => if is_local(e, v_id) {
            Some((v_id, lo_id, hi_id))
        } else {
            None
        },
        _ => None,
    }
}

/// Detects a clamp of one parameter to the range of a byte.
pub fn detect_clamp_u8(f: &Function) -> (r: bool)
    ensures
        r == is_clamp_u8(*f),
{
    if f.is_async || f.is_generator || f.params.len() != 1 {
        return false;
    }
    if f.body.len() != 3 {
        return false;
    }
    let v_id: u32 = f.params[0].id;
    if !is_guard(&f.body[0], CompareOp::Lt, v_id, &Bound::Integer(0)) {
        return false;
    }
    if !is_guard(&f.body[1], CompareOp::Gt, v_id, &Bound::Integer(255)) {
        return false;
    }
    match &f.body[2] {
        Stmt::Return(Some(Expr::Binary { op: BinaryOp::BitOr, left, right })) => is_local(
            &**left,
            v_id,
        ) && is_integer(&**right, 0),
        _ => false,
    }
}

// ---- integer results ----

/// Whether an expression is one whose value is always an integer.
pub open spec fn is_int_result(e: Expr) -> bool {
    match e {
        Expr::Integer(_) => true,
        Expr::Binary { op, .. } => match op {
            BinaryOp::BitAnd | BinaryOp::BitOr | BinaryOp::BitXor | BinaryOp::Shl
            | BinaryOp::Shr | BinaryOp::UShr => true,
            _ => false,
        },
        Expr::Node { op, .. } => op == Op::MathImul,
        _ => false,
    }
}

/// Whether `s`, where it is a `return`, returns a value that is always an
/// integer.
pub open spec fn returns_int(s: Stmt) -> bool {
    match s {
        Stmt::Return(Some(e)) => is_int_result(e),
        Stmt::Return(None) => false,
        _ => true,
    }
}

/// Whether every `return` in a block, nested ones included, returns a value
/// that is always an integer.
pub open spec fn returns_ints(ss: Seq<Stmt>) -> bool {
    forall|i: int|
        0 <= i < block_stmts(ss, true).len() ==> returns_int(#[trigger] block_stmts(ss, true)[i])
}

/// Whether a function is known to return integers only.
pub fn returns_integer(f: &Function) -> (r: bool)
    ensures
        r == (!f.is_async && !f.is_generator && f.return_type is Number && returns_ints(f.body@)),
{
    if f.is_async || f.is_generator {
        return false;
    }
    if !matches!(f.return_type, Type::Number) {
        return false;
    }
    returns_int_stmts(f.body.as_slice())
}

fn returns_int_stmts(ss: &[Stmt]) -> (r: bool)
    ensures
        r == returns_ints(ss@),
{
    let all = statements(ss, true);
    let ghost listing = block_stmts(ss@, true);
    let mut i: usize = 0;
    while i < all.len()
        invariant
            i <= all@.len(),
            all@.unref() == listing,
            listing == block_stmts(ss@, true),
            forall|j: int| 0 <= j < i ==> returns_int(#[trigger] listing[j]),
        decreases all@.len() - i,
    {
        assert(*all@[i as int] == listing[i as int]);
        let good = match all[i] {
            Stmt::Return(Some(e)) => returns_int_expr(e),
            Stmt::Return(None) => false,
            _ => true,
        };
        if !good {
            assert(!returns_int(listing[i as int]));
            return false;
        }
        i += 1;
    }
    true
}

fn returns_int_expr(e: &Expr) -> (r: bool)
    ensures
        r == is_int_result(*e),
{
    match e {
        Expr::Integer(_) => true,
        Expr::Binary { op, .. } => matches!(
            op,
            BinaryOp::BitAnd | BinaryOp::BitOr | BinaryOp::BitXor | BinaryOp::Shl | BinaryOp::Shr
                | BinaryOp::UShr
        ),
        Expr::Node { op, .. } => matches!(op, Op::MathImul),
        _ => false,
    }
}

// ---- pure numeric recursion ----

/// Whether `e` is built from numbers and locals by addition, subtraction,
/// multiplication, comparison, conditionals and calls of the function `own`.
pub open spec fn is_numeric(e: Expr, own: u32) -> bool
    decreases e,
{
    match e {
        Expr::Integer(_) | Expr::Number(_) | Expr::LocalGet(_) => true,
        Expr::Binary { op, left, right } => (op == BinaryOp::Add || op == BinaryOp::Sub || op
            == BinaryOp::Mul) && is_numeric(*left, own) && is_numeric(*right, own),
        Expr::Compare { op, left, right } => is_numeric(*left, own) && is_numeric(*right, own),
        Expr::Call { callee, args } => *callee == Expr::FuncRef(own) && all_numeric(args@, own),
        Expr::Node { op, operands } => op == Op::Conditional && all_numeric(operands@, own),
        _ => false,
    }
}

pub open spec fn all_numeric(es: Seq<Expr>, own: u32) -> bool
    decreases es,
{
    es.len() == 0 || (all_numeric(es.drop_last(), own) && is_numeric(es.last(), own))
}

/// Whether a block consists of returns, declarations, branches and expressions
/// that are numeric throughout.
pub open spec fn is_numeric_block(ss: Seq<Stmt>, own: u32) -> bool
    decreases ss,
{
    ss.len() == 0 || (is_numeric_block(ss.drop_last(), own) && is_numeric_stmt(ss.last(), own))
}

pub open spec fn is_numeric_stmt(s: Stmt, own: u32) -> bool
    decreases s,
{
    match s {
        Stmt::Return(Some(e)) => is_numeric(e, own),
        Stmt::Return(None) => true,
        Stmt::If { condition, then_branch, else_branch } => is_numeric(condition, own)
            && is_numeric_block(then_branch@, own) && match else_branch {
            Some(b) => is_numeric_block(b@, own),
            None => true,
        },
        Stmt::Expr(e) => is_numeric(e, own),
        Stmt::Let { id, ty, mutable, init: Some(e) } => is_numeric(e, own),
        Stmt::Let { id, ty, mutable, init: None } => true,
        _ => false,
    }
}

/// Whether a function computes on numbers alone: its parameters and result are
/// numbers and its body is numeric, calling no function but itself.
pub open spec fn is_specializable(f: Function) -> bool {
    &&& !f.is_async
    &&& !f.is_generator
    &&& f.return_type is Number
    &&& forall|i: int| 0 <= i < f.params@.len() ==> (#[trigger] f.params@[i]).ty is Number
    &&& is_numeric_block(f.body@, f.id)
}

/// Whether a function can be compiled to 64-bit integer code.
pub fn is_integer_specializable(f: &Function) -> (r: bool)
    ensures
        r == is_specializable(*f),
{
    if f.is_async || f.is_generator {
        return false;
    }
    if !matches!(f.return_type, Type::Number) {
        return false;
    }
    let mut i: usize = 0;
    while i < f.params.len()
        invariant
            i <= f.params@.len(),
            forall|j: int| 0 <= j < i ==> (#[trigger] f.params@[j]).ty is Number,
        decreases f.params@.len() - i,
    {
        if !matches!(f.params[i].ty, Type::Number) {
            assert(!(f.params@[i as int].ty is Number));
            return false;
        }
        i += 1;
    }
    i64s_stmts(f.body.as_slice(), f.id)
}

proof fn lemma_numeric_block_prefix(ss: Seq<Stmt>, n: int, own: u32)
    requires
        0 <= n <= ss.len(),
        is_numeric_block(ss, own),
    ensures
        is_numeric_block(ss.take(n), own),
    decreases ss.len() - n,
{
    if n == ss.len() {
        assert(ss.take(n) =~= ss);
    } else {
        lemma_numeric_block_prefix(ss, n + 1, own);
        assert(ss.take(n + 1).drop_last() =~= ss.take(n));
    }
}

proof fn lemma_numeric_prefix(es: Seq<Expr>, n: int, own: u32)
    requires
        0 <= n <= es.len(),
        all_numeric(es, own),
    ensures
        all_numeric(es.take(n), own),
    decreases es.len() - n,
{
    if n == es.len() {
        assert(es.take(n) =~= es);
    } else {
        lemma_numeric_prefix(es, n + 1, own);
        assert(es.take(n + 1).drop_last() =~= es.take(n));
    }
}

fn i64s_stmts(ss: &[Stmt], sid: u32) -> (r: bool)
    ensures
        r == is_numeric_block(ss@, sid),
    decreases ss@,
{
    let mut i: usize = 0;
    while i < ss.len()
        invariant
            i <= ss@.len(),
            is_numeric_block(ss@.take(i as int), sid),
        decreases ss@.len() - i,
    {
        assert(ss@.take(i + 1).drop_last() =~= ss@.take(i as int));
        if !i64s_stmt(&ss[i], sid) {
            proof {
                if is_numeric_block(ss@, sid) {
                    lemma_numeric_block_prefix(ss@, i + 1, sid);
                }
            }
            return false;
        }
        i += 1;
    }
    assert(ss@.take(i as int) =~= ss@);
    true
}

fn i64s_stmt(s: &Stmt, sid: u32) -> (r: bool)
    ensures
        r == is_numeric_stmt(*s, sid),
    decreases *s,
{
    match s {
        Stmt::Return(Some(e)) => i64s_expr(e, sid),
        Stmt::Return(None) => true,
        Stmt::If { condition, then_branch, else_branch } => i64s_expr(condition, sid) && i64s_stmts(
            then_branch.as_slice(),
            sid,
        ) && match else_branch {
            Some(b) => i64s_stmts(b.as_slice(), sid),
            None => true,
        },
        Stmt::Expr(e) => i64s_expr(e, sid),
        Stmt::Let { init: Some(e), .. } => i64s_expr(e, sid),
        Stmt::Let { init: None, .. } => true,
        _ => false,
    }
}

fn i64s_all(es: &[Expr], sid: u32) -> (r: bool)
    ensures
        r == all_numeric(es@, sid),
    decreases es@,
{
    let mut i: usize = 0;
    while i < es.len()
        invariant
            i <= es@.len(),
            all_numeric(es@.take(i as int), sid),
        decreases es@.len() - i,
    {
        assert(es@.take(i + 1).drop_last() =~= es@.take(i as int));
        if !i64s_expr(&es[i], sid) {
            proof {
                if all_numeric(es@, sid) {
                    lemma_numeric_prefix(es@, i + 1, sid);
                }
            }
            return false;
        }
        i += 1;
    }
    assert(es@.take(i as int) =~= es@);
    true
}

fn i64s_expr(e: &Expr, sid: u32) -> (r: bool)
    ensures
        r == is_numeric(*e, sid),
    decreases *e,
{
    match e {
        Expr::Integer(_) | Expr::Number(_) | Expr::LocalGet(_) => true,
        Expr::Binary { op, left, right } => matches!(
            op,
            BinaryOp::Add | BinaryOp::Sub | BinaryOp::Mul
        ) && i64s_expr(&**left, sid) && i64s_expr(&**right, sid),
        Expr::Compare { left, right, .. } => i64s_expr(&**left, sid) && i64s_expr(&**right, sid),
        Expr::Call { callee, args } => match &**callee {
            Expr::FuncRef(id) => *id == sid && i64s_all(args.as_slice(), sid),
            _ => false,
        },
        Expr::Node { op, operands } => matches!(op, Op::Conditional) && i64s_all(
            operands.as_slice(),
            sid,
        ),
        _ => false,
    }
}

} // verus!

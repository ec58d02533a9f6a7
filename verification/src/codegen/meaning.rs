//! What numeric functions and their emitted code mean, each told on its own, and
//! that the two agree.
//!
//! A function is read on 64-bit integers: sums, differences and products wrap
//! around, and a call of the function itself is a call with one step less to go.
//! Emitted code is run on a machine with the results of instructions and the
//! contents of slots.
use vstd::prelude::*;
use crate::codegen::doubles::integer_value;
use crate::codegen::emit::{
    bind, block_code, condition_code, end, ended, flow_to, function_code, open_block, params_code,
    put, stmt_code, value_code, values_code, Code, Own,
};
use crate::codegen::hir::{BinaryOp, CompareOp, Expr, Function, Param, Stmt};
use crate::codegen::llvm::{
    ArithOp, BlockView, FunctionView, InstView, Operand, Predicate, Terminator,
};

verus! {

broadcast use vstd::std_specs::vec::group_vec_axioms;

/// An integer as it comes out of 64 bits.
pub open spec fn wrapped(x: int) -> int {
    (x + 0x8000_0000_0000_0000) % 0x1_0000_0000_0000_0000 - 0x8000_0000_0000_0000
}

// ---- what a function means ----

/// What the locals hold.
pub type Locals = Map<u32, int>;

/// The value of an expression, where it has one: numbers, locals that are bound,
/// sums, differences and products, and calls of the function itself, at most
/// `fuel` deep.
pub open spec fn eval(f: Function, e: Expr, env: Locals, fuel: nat) -> Option<int>
    decreases fuel, 0nat, e, 0nat,
{
    match e {
        Expr::Integer(n) => Some(n as int),
        Expr::Number(bits) => Some(integer_value(bits) as int),
        Expr::LocalGet(id) => if env.dom().contains(id) {
            Some(env[id])
        } else {
            None
        },
        Expr::Binary { op, left, right } => match (
            eval(f, *left, env, fuel),
            eval(f, *right, env, fuel),
        ) {
            (Some(l), Some(r)) => match op {
                BinaryOp::Add => Some(wrapped(l + r)),
                BinaryOp::Sub => Some(wrapped(l - r)),
                BinaryOp::Mul => Some(wrapped(l * r)),
                _ => None,
            },
            _ => None,
        },
        Expr::Call { callee, args } => if *callee == Expr::FuncRef(f.id) && fuel > 0 {
            match eval_all(f, args@, env, fuel) {
                Some(vs) => meaning(f, vs, (fuel - 1) as nat),
                None => None,
            }
        } else {
            None
        },
        _ => None,
    }
}

/// The values of expressions, where all have one.
pub open spec fn eval_all(f: Function, es: Seq<Expr>, env: Locals, fuel: nat) -> Option<Seq<int>>
    decreases fuel, 0nat, es, 0nat,
{
    if es.len() == 0 {
        Some(Seq::empty())
    } else {
        match (eval_all(f, es.drop_last(), env, fuel), eval(f, es.last(), env, fuel)) {
            (Some(vs), Some(v)) => Some(vs.push(v)),
            _ => None,
        }
    }
}

/// Whether a comparison of two integers holds.
pub open spec fn compares(op: CompareOp, l: int, r: int) -> bool {
    match op {
        CompareOp::Lt => l < r,
        CompareOp::Le => l <= r,
        CompareOp::Gt => l > r,
        CompareOp::Ge => l >= r,
        CompareOp::Eq | CompareOp::LooseEq => l == r,
        CompareOp::Ne | CompareOp::LooseNe => l != r,
    }
}

/// Whether a condition holds, where that can be told. A number holds when it is
/// not zero.
pub open spec fn holds(f: Function, e: Expr, env: Locals, fuel: nat) -> Option<bool>
    decreases fuel, 0nat, e, 1nat,
{
    match e {
        Expr::Compare { op, left, right } => match (
            eval(f, *left, env, fuel),
            eval(f, *right, env, fuel),
        ) {
            (Some(l), Some(r)) => Some(compares(op, l, r)),
            _ => None,
        },
        _ => match eval(f, e, env, fuel) {
            Some(v) => Some(v != 0),
            None => None,
        },
    }
}

/// What comes of running statements.
pub ghost enum Outcome {
    Returns(int),
    Goes(Locals),
    Stuck,
}

/// What comes of a statement.
pub open spec fn run_stmt(f: Function, s: Stmt, env: Locals, fuel: nat) -> Outcome
    decreases fuel, 0nat, s, 0nat,
{
    match s {
        Stmt::Return(Some(e)) => match eval(f, e, env, fuel) {
            Some(v) => Outcome::Returns(v),
            None => Outcome::Stuck,
        },
        Stmt::Return(None) => Outcome::Returns(0),
        Stmt::Let { id, ty, mutable, init: Some(e) } => match eval(f, e, env, fuel) {
            Some(v) => Outcome::Goes(env.insert(id, v)),
            None => Outcome::Stuck,
        },
        Stmt::Let { id, ty, mutable, init: None } => Outcome::Goes(env.insert(id, 0)),
        Stmt::Expr(e) => match eval(f, e, env, fuel) {
            Some(_) => Outcome::Goes(env),
            None => Outcome::Stuck,
        },
        Stmt::If { condition, then_branch, else_branch } => match holds(f, condition, env, fuel) {
            Some(true) => run_block(f, then_branch@, env, fuel),
            Some(false) => match else_branch {
                Some(b) => run_block(f, b@, env, fuel),
                None => Outcome::Goes(env),
            },
            None => Outcome::Stuck,
        },
        _ => Outcome::Stuck,
    }
}

/// What comes of statements one after the other.
pub open spec fn run_block(f: Function, ss: Seq<Stmt>, env: Locals, fuel: nat) -> Outcome
    decreases fuel, 0nat, ss, 0nat,
{
    if ss.len() == 0 {
        Outcome::Goes(env)
    } else {
        match run_block(f, ss.drop_last(), env, fuel) {
            Outcome::Goes(env1) => run_stmt(f, ss.last(), env1, fuel),
            other => other,
        }
    }
}

/// The locals at the start: each parameter holds its argument.
pub open spec fn entry_locals(params: Seq<Param>, args: Seq<int>) -> Locals
    decreases params.len(),
{
    if params.len() == 0 {
        Map::empty()
    } else {
        entry_locals(params.drop_last(), args).insert(params.last().id, args[params.len() - 1])
    }
}

/// What a function returns for its arguments, calling itself at most `fuel` deep.
/// Without a `return` it is zero.
pub open spec fn meaning(f: Function, args: Seq<int>, fuel: nat) -> Option<int>
    decreases fuel, 1nat, f.body@, 0nat,
{
    if args.len() != f.params@.len() {
        None
    } else {
        match run_block(f, f.body@, entry_locals(f.params@, args), fuel) {
            Outcome::Returns(v) => Some(v),
            Outcome::Goes(_) => Some(0),
            Outcome::Stuck => None,
        }
    }
}

// ---- what code does ----

/// The results of instructions, and what slots hold, each by the instruction.
pub ghost struct Machine {
    pub vals: Map<Operand, int>,
    pub mem: Map<Operand, int>,
}

/// The arguments by parameter.
pub open spec fn argument(params: Seq<u32>, args: Seq<int>, id: u32) -> Option<int>
    decreases params.len(),
{
    if params.len() == 0 || params.len() > args.len() {
        None
    } else if params.last() == id {
        Some(args[params.len() - 1])
    } else {
        argument(params.drop_last(), args, id)
    }
}

/// The value of an operand.
pub open spec fn operand(o: Operand, m: Machine, params: Seq<u32>, args: Seq<int>) -> Option<int> {
    match o {
        Operand::Const(n) => Some(n as int),
        Operand::Arg(id) => argument(params, args, id),
        Operand::Result(_, _) => if m.vals.dom().contains(o) {
            Some(m.vals[o])
        } else {
            None
        },
    }
}

pub open spec fn operands(
    os: Seq<Operand>,
    m: Machine,
    params: Seq<u32>,
    args: Seq<int>,
) -> Option<Seq<int>>
    decreases os.len(),
{
    if os.len() == 0 {
        Some(Seq::empty())
    } else {
        match (operands(os.drop_last(), m, params, args), operand(os.last(), m, params, args)) {
            (Some(vs), Some(v)) => Some(vs.push(v)),
            _ => None,
        }
    }
}

/// Whether a signed comparison holds.
pub open spec fn predicate(op: Predicate, l: int, r: int) -> bool {
    match op {
        Predicate::Eq => l == r,
        Predicate::Ne => l != r,
        Predicate::Slt => l < r,
        Predicate::Sle => l <= r,
        Predicate::Sgt => l > r,
        Predicate::Sge => l >= r,
    }
}

/// The machine with the result of the instruction `at`.
pub open spec fn with_result(m: Machine, at: Operand, v: int) -> Machine {
    Machine { vals: m.vals.insert(at, v), ..m }
}

/// The machine after an instruction, where it can be carried out. What is loaded
/// must have been stored.
pub open spec fn step(
    fv: FunctionView,
    i: InstView,
    at: Operand,
    m: Machine,
    args: Seq<int>,
    fuel: nat,
) -> Option<Machine>
    decreases fuel, 0nat, 0nat,
{
    match i {
        InstView::Alloca => Some(Machine { mem: m.mem.remove(at), ..m }),
        InstView::Store { value, slot } => match operand(value, m, fv.params, args) {
            Some(v) => Some(Machine { mem: m.mem.insert(slot, v), ..m }),
            None => None,
        },
        InstView::Load { slot } => if m.mem.dom().contains(slot) {
            Some(with_result(m, at, m.mem[slot]))
        } else {
            None
        },
        InstView::Arith { op, left, right } => match (
            operand(left, m, fv.params, args),
            operand(right, m, fv.params, args),
        ) {
            (Some(l), Some(r)) => Some(
                with_result(
                    m,
                    at,
                    match op {
                        ArithOp::Add => wrapped(l + r),
                        ArithOp::Sub => wrapped(l - r),
                        ArithOp::Mul => wrapped(l * r),
                    },
                ),
            ),
            _ => None,
        },
        InstView::Compare { op, left, right } => match (
            operand(left, m, fv.params, args),
            operand(right, m, fv.params, args),
        ) {
            (Some(l), Some(r)) => Some(
                with_result(
                    m,
                    at,
                    if predicate(op, l, r) {
                        1
                    } else {
                        0
                    },
                ),
            ),
            _ => None,
        },
        InstView::Call { callee, args: passed } => if callee == fv.name && fuel > 0 {
            match operands(passed, m, fv.params, args) {
                Some(vs) => match call(fv, vs, (fuel - 1) as nat) {
                    Some(v) => Some(with_result(m, at, v)),
                    None => None,
                },
                None => None,
            }
        } else {
            None
        },
    }
}

/// What code returns from the instruction `i` of the block `b` on, going through at
/// most `jumps` more blocks.
pub open spec fn run_code(
    fv: FunctionView,
    b: int,
    i: int,
    m: Machine,
    args: Seq<int>,
    fuel: nat,
    jumps: nat,
) -> Option<int>
    decreases fuel, jumps + 1, fv.blocks[b].instructions.len() - i,
{
    if b < 0 || b >= fv.blocks.len() || i < 0 {
        None
    } else if i < fv.blocks[b].instructions.len() {
        match step(
            fv,
            fv.blocks[b].instructions[i],
            Operand::Result(b as usize, i as usize),
            m,
            args,
            fuel,
        ) {
            Some(m1) => run_code(fv, b, i + 1, m1, args, fuel, jumps),
            None => None,
        }
    } else {
        match fv.blocks[b].terminator {
            Some(Terminator::Ret(o)) => operand(o, m, fv.params, args),
            Some(Terminator::Br(t)) => if jumps > 0 {
                run_code(fv, t as int, 0, m, args, fuel, (jumps - 1) as nat)
            } else {
                None
            },
            Some(Terminator::CondBr { condition, then_block, else_block }) => match operand(
                condition,
                m,
                fv.params,
                args,
            ) {
                Some(v) => if jumps > 0 {
                    run_code(
                        fv,
                        if v != 0 {
                            then_block as int
                        } else {
                            else_block as int
                        },
                        0,
                        m,
                        args,
                        fuel,
                        (jumps - 1) as nat,
                    )
                } else {
                    None
                },
                None => None,
            },
            None => None,
        }
    }
}

/// What a function made of code returns for its arguments. No block is gone through
/// more often than there are blocks.
pub open spec fn call(fv: FunctionView, args: Seq<int>, fuel: nat) -> Option<int>
    decreases fuel, fv.blocks.len() + 2, 0nat,
{
    if args.len() != fv.params.len() {
        None
    } else {
        run_code(
            fv,
            0,
            0,
            Machine { vals: Map::empty(), mem: Map::empty() },
            args,
            fuel,
            fv.blocks.len(),
        )
    }
}

} // verus!

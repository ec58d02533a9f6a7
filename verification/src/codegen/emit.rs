//! Code for functions on plain numbers, specialised to 64-bit integers.
use std::collections::HashMap;
use vstd::prelude::*;
use crate::codegen::doubles::{integer_of, integer_value};
use crate::codegen::hir::{BinaryOp, CompareOp, Expr, FuncId, Function, Param, Stmt};
use crate::codegen::llvm::{
    defined, ArithOp, BlockView, FunctionView, Inst, InstView, LlBlock, LlFunction, LlModule,
    Operand, Predicate, Terminator,
};
use crate::codegen::simulation::{computes, declares_once, fits, lemma_emitted_computes_all};

verus! {

broadcast use {
    vstd::std_specs::vec::group_vec_axioms,
    vstd::std_specs::hash::group_hash_axioms,
};

// ---- the code of a function ----

/// Code in the making: the blocks so far, the one being filled, and the slot
/// of each local.
#[verifier::ext_equal]
pub ghost struct Code {
    pub blocks: Seq<BlockView>,
    pub cur: int,
    pub locals: Map<u32, Operand>,
}

/// The function being compiled: its id, and the name of its integer form.
pub ghost struct Own {
    pub id: FuncId,
    pub name: Seq<char>,
}

/// Code with one more instruction in the current block, and its result.
pub open spec fn put(c: Code, i: InstView) -> (Code, Operand) {
    let b = c.blocks[c.cur];
    (
        Code {
            blocks: c.blocks.update(
                c.cur,
                BlockView { instructions: b.instructions.push(i), ..b },
            ),
            ..c
        },
        Operand::Result(c.cur as usize, b.instructions.len() as usize),
    )
}

/// Code whose current block ends.
pub open spec fn end(c: Code, t: Terminator) -> Code {
    Code {
        blocks: c.blocks.update(
            c.cur,
            BlockView { terminator: Some(t), ..c.blocks[c.cur] },
        ),
        ..c
    }
}

/// Code with one more, empty block.
pub open spec fn open_block(c: Code, label: &str) -> Code {
    Code {
        blocks: c.blocks.push(
            BlockView { label: label@, instructions: Seq::empty(), terminator: None },
        ),
        ..c
    }
}

/// Whether the current block has ended.
pub open spec fn ended(c: Code) -> bool {
    c.blocks[c.cur].terminator is Some
}

pub open spec fn arith_op(op: BinaryOp) -> Option<ArithOp> {
    match op {
        BinaryOp::Add => Some(ArithOp::Add),
        BinaryOp::Sub => Some(ArithOp::Sub),
        BinaryOp::Mul => Some(ArithOp::Mul),
        _ => None,
    }
}

pub open spec fn predicate_of(op: CompareOp) -> Predicate {
    match op {
        CompareOp::Le => Predicate::Sle,
        CompareOp::Lt => Predicate::Slt,
        CompareOp::Gt => Predicate::Sgt,
        CompareOp::Ge => Predicate::Sge,
        CompareOp::Eq | CompareOp::LooseEq => Predicate::Eq,
        CompareOp::Ne | CompareOp::LooseNe => Predicate::Ne,
    }
}

/// The code that computes an expression, and where its value is. What has no
/// integer form counts as zero.
pub open spec fn value_code(c: Code, e: Expr, own: Own) -> (Code, Operand)
    decreases e,
{
    match e {
        Expr::Integer(n) => (c, Operand::Const(n)),
        Expr::Number(bits) => (c, Operand::Const(integer_value(bits))),
        Expr::LocalGet(id) => if c.locals.dom().contains(id) {
            put(c, InstView::Load { slot: c.locals[id] })
        } else {
            (c, Operand::Const(0))
        },
        Expr::Binary { op, left, right } => {
            let (c1, l) = value_code(c, *left, own);
            let (c2, r) = value_code(c1, *right, own);
            match arith_op(op) {
                Some(a) => put(c2, InstView::Arith { op: a, left: l, right: r }),
                None => (c2, Operand::Const(0)),
            }
        },
        Expr::Call { callee, args } => if *callee == Expr::FuncRef(own.id) {
            let (c1, vs) = values_code(c, args@, own);
            put(c1, InstView::Call { callee: own.name, args: vs })
        } else {
            (c, Operand::Const(0))
        },
        _ => (c, Operand::Const(0)),
    }
}

/// The code that computes expressions one after the other.
pub open spec fn values_code(c: Code, es: Seq<Expr>, own: Own) -> (Code, Seq<Operand>)
    decreases es,
{
    if es.len() == 0 {
        (c, Seq::empty())
    } else {
        let (c1, vs) = values_code(c, es.drop_last(), own);
        let (c2, v) = value_code(c1, es.last(), own);
        (c2, vs.push(v))
    }
}

/// The code that computes a condition. Anything but a comparison holds when it
/// is not zero.
pub open spec fn condition_code(c: Code, e: Expr, own: Own) -> (Code, Operand) {
    match e {
        Expr::Compare { op, left, right } => {
            let (c1, l) = value_code(c, *left, own);
            let (c2, r) = value_code(c1, *right, own);
            put(c2, InstView::Compare { op: predicate_of(op), left: l, right: r })
        },
        _ => {
            let (c1, v) = value_code(c, e, own);
            put(c1, InstView::Compare { op: Predicate::Ne, left: v, right: Operand::Const(0) })
        },
    }
}

/// Code with a new slot that holds a value, for the local `id`.
pub open spec fn bind(c: Code, id: u32, v: Operand) -> Code {
    let (c1, slot) = put(c, InstView::Alloca);
    let (c2, _) = put(c1, InstView::Store { value: v, slot });
    Code { locals: c2.locals.insert(id, slot), ..c2 }
}

/// Code that goes to a block, unless it has ended.
pub open spec fn flow_to(c: Code, block: int) -> Code {
    if ended(c) {
        c
    } else {
        end(c, Terminator::Br(block as usize))
    }
}

/// The code of one statement.
pub open spec fn stmt_code(c: Code, s: Stmt, own: Own) -> Code
    decreases s,
{
    match s {
        Stmt::Return(Some(e)) => {
            let (c1, v) = value_code(c, e, own);
            end(c1, Terminator::Ret(v))
        },
        Stmt::Return(None) => end(c, Terminator::Ret(Operand::Const(0))),
        Stmt::Let { id, ty, mutable, init: Some(e) } => {
            let (c1, v) = value_code(c, e, own);
            bind(c1, id, v)
        },
        Stmt::Let { id, ty, mutable, init: None } => bind(c, id, Operand::Const(0)),
        Stmt::Expr(e) => value_code(c, e, own).0,
        Stmt::If { condition, then_branch, else_branch: Some(other) } => {
            let (c1, v) = condition_code(c, condition, own);
            let n = c1.blocks.len() as int;
            let c2 = open_block(open_block(open_block(c1, "i64.then"), "i64.else"), "i64.merge");
            let c3 = end(
                c2,
                Terminator::CondBr {
                    condition: v,
                    then_block: n as usize,
                    else_block: (n + 1) as usize,
                },
            );
            let c4 = flow_to(block_code(Code { cur: n, ..c3 }, then_branch@, own), n + 2);
            let c5 = flow_to(block_code(Code { cur: n + 1, ..c4 }, other@, own), n + 2);
            Code { cur: n + 2, ..c5 }
        },
        Stmt::If { condition, then_branch, else_branch: None } => {
            let (c1, v) = condition_code(c, condition, own);
            let n = c1.blocks.len() as int;
            let c2 = open_block(open_block(c1, "i64.then"), "i64.merge");
            let c3 = end(
                c2,
                Terminator::CondBr {
                    condition: v,
                    then_block: n as usize,
                    else_block: (n + 1) as usize,
                },
            );
            let c4 = flow_to(block_code(Code { cur: n, ..c3 }, then_branch@, own), n + 1);
            Code { cur: n + 1, ..c4 }
        },
        _ => c,
    }
}

/// The code of a block: statements after one that ends the code are left out.
pub open spec fn block_code(c: Code, ss: Seq<Stmt>, own: Own) -> Code
    decreases ss,
{
    if ss.len() == 0 {
        c
    } else {
        let c1 = block_code(c, ss.drop_last(), own);
        if ended(c1) {
            c1
        } else {
            stmt_code(c1, ss.last(), own)
        }
    }
}

/// The code that gives each parameter a slot.
pub open spec fn params_code(c: Code, params: Seq<Param>) -> Code
    decreases params.len(),
{
    if params.len() == 0 {
        c
    } else {
        let id = params.last().id;
        bind(params_code(c, params.drop_last()), id, Operand::Arg(id))
    }
}

/// The integer form of a function. Where the body does not return, it returns
/// zero.
pub open spec fn function_code(f: Function, name: Seq<char>) -> FunctionView {
    let entry = open_block(Code { blocks: Seq::empty(), cur: 0, locals: Map::empty() }, "entry");
    let c = block_code(params_code(entry, f.params@), f.body@, Own { id: f.id, name });
    let last = if ended(c) {
        c
    } else {
        end(c, Terminator::Ret(Operand::Const(0)))
    };
    FunctionView {
        name,
        params: f.params@.map_values(|p: Param| p.id),
        force_inline: true,
        blocks: last.blocks,
    }
}

// ---- every block ends ----

/// Whether `d` is `c` with more instructions in the current block.
spec fn fills(c: Code, d: Code) -> bool {
    &&& d.cur == c.cur
    &&& d.blocks.len() == c.blocks.len()
    &&& forall|i: int| 0 <= i < c.blocks.len() && i != c.cur ==> #[trigger] d.blocks[i]
        == c.blocks[i]
    &&& d.blocks[c.cur].terminator == c.blocks[c.cur].terminator
}

/// Whether `d` continues `c`: blocks other than the current one are as they
/// were, and every block left behind has ended.
spec fn continues(c: Code, d: Code) -> bool {
    &&& 0 <= c.cur < c.blocks.len() <= d.blocks.len()
    &&& 0 <= d.cur < d.blocks.len()
    &&& forall|i: int| 0 <= i < c.blocks.len() && i != c.cur ==> #[trigger] d.blocks[i]
        == c.blocks[i]
    &&& forall|i: int|
        c.blocks.len() <= i < d.blocks.len() && i != d.cur ==> (
        #[trigger] d.blocks[i]).terminator is Some
    &&& d.cur != c.cur ==> d.cur >= c.blocks.len() && d.blocks[c.cur].terminator is Some
}

proof fn lemma_value_fills(c: Code, e: Expr, own: Own)
    requires
        0 <= c.cur < c.blocks.len(),
    ensures
        fills(c, value_code(c, e, own).0),
    decreases e,
{
    match e {
        Expr::Binary { op, left, right } => {
            lemma_value_fills(c, *left, own);
            lemma_value_fills(value_code(c, *left, own).0, *right, own);
        },
        Expr::Call { callee, args } => {
            lemma_values_fill(c, args@, own);
        },
        _ => {},
    }
}

proof fn lemma_values_fill(c: Code, es: Seq<Expr>, own: Own)
    requires
        0 <= c.cur < c.blocks.len(),
    ensures
        fills(c, values_code(c, es, own).0),
    decreases es,
{
    if es.len() > 0 {
        lemma_values_fill(c, es.drop_last(), own);
        lemma_value_fills(values_code(c, es.drop_last(), own).0, es.last(), own);
    }
}

proof fn lemma_condition_fills(c: Code, e: Expr, own: Own)
    requires
        0 <= c.cur < c.blocks.len(),
    ensures
        fills(c, condition_code(c, e, own).0),
{
    match e {
        Expr::Compare { op, left, right } => {
            lemma_value_fills(c, *left, own);
            lemma_value_fills(value_code(c, *left, own).0, *right, own);
        },
        _ => {
            lemma_value_fills(c, e, own);
        },
    }
}

proof fn lemma_stmt_continues(c: Code, s: Stmt, own: Own)
    requires
        0 <= c.cur < c.blocks.len(),
    ensures
        continues(c, stmt_code(c, s, own)),
    decreases s,
{
    match s {
        Stmt::Return(Some(e)) => {
            lemma_value_fills(c, e, own);
        },
        Stmt::Let { id, ty, mutable, init: Some(e) } => {
            lemma_value_fills(c, e, own);
        },
        Stmt::Expr(e) => {
            lemma_value_fills(c, e, own);
        },
        Stmt::If { condition, then_branch, else_branch: Some(other) } => {
            lemma_condition_fills(c, condition, own);
            let (c1, v) = condition_code(c, condition, own);
            let n = c1.blocks.len() as int;
            let c2 = open_block(open_block(open_block(c1, "i64.then"), "i64.else"), "i64.merge");
            let c3 = end(
                c2,
                Terminator::CondBr {
                    condition: v,
                    then_block: n as usize,
                    else_block: (n + 1) as usize,
                },
            );
            let t = Code { cur: n, ..c3 };
            lemma_block_continues(t, then_branch@, own);
            let c4 = flow_to(block_code(t, then_branch@, own), n + 2);
            let f = Code { cur: n + 1, ..c4 };
            lemma_block_continues(f, other@, own);
            let c5 = flow_to(block_code(f, other@, own), n + 2);
            let d = stmt_code(c, s, own);
            assert(d.blocks == c5.blocks && d.cur == n + 2);
            assert(c5.blocks[c.cur] == c3.blocks[c.cur]);
            assert(c5.blocks[n].terminator is Some);
        },
        Stmt::If { condition, then_branch, else_branch: None } => {
            lemma_condition_fills(c, condition, own);
            let (c1, v) = condition_code(c, condition, own);
            let n = c1.blocks.len() as int;
            let c2 = open_block(open_block(c1, "i64.then"), "i64.merge");
            let c3 = end(
                c2,
                Terminator::CondBr {
                    condition: v,
                    then_block: n as usize,
                    else_block: (n + 1) as usize,
                },
            );
            let t = Code { cur: n, ..c3 };
            lemma_block_continues(t, then_branch@, own);
            let c4 = flow_to(block_code(t, then_branch@, own), n + 1);
            let d = stmt_code(c, s, own);
            assert(d.blocks == c4.blocks && d.cur == n + 1);
            assert(c4.blocks[c.cur] == c3.blocks[c.cur]);
        },
        _ => {},
    }
}

proof fn lemma_block_continues(c: Code, ss: Seq<Stmt>, own: Own)
    requires
        0 <= c.cur < c.blocks.len(),
    ensures
        continues(c, block_code(c, ss, own)),
    decreases ss,
{
    if ss.len() > 0 {
        let front = ss.drop_last();
        lemma_block_continues(c, front, own);
        let c1 = block_code(c, front, own);
        if !ended(c1) {
            lemma_stmt_continues(c1, ss.last(), own);
        }
    }
}

proof fn lemma_params_fill(c: Code, params: Seq<Param>)
    requires
        0 <= c.cur < c.blocks.len(),
    ensures
        fills(c, params_code(c, params)),
    decreases params.len(),
{
    if params.len() > 0 {
        lemma_params_fill(c, params.drop_last());
    }
}

/// Every block of an emitted function ends in a terminator.
pub proof fn lemma_blocks_end(f: Function, name: Seq<char>)
    ensures
        function_code(f, name).blocks.len() > 0,
        forall|i: int|
            0 <= i < function_code(f, name).blocks.len() ==> (#[trigger] function_code(
                f,
                name,
            ).blocks[i]).terminator is Some,
{
    let entry = open_block(Code { blocks: Seq::empty(), cur: 0, locals: Map::empty() }, "entry");
    lemma_params_fill(entry, f.params@);
    let own = Own { id: f.id, name };
    lemma_block_continues(params_code(entry, f.params@), f.body@, own);
}

// ---- emission ----

/// The function under construction.
struct I64Cx {
    f: LlFunction,
    cur: usize,
    locals: HashMap<u32, Operand>,
    sid: FuncId,
}

impl I64Cx {
    spec fn code(self) -> Code {
        Code { blocks: self.f@.blocks, cur: self.cur as int, locals: self.locals@ }
    }

    spec fn own(self) -> Own {
        Own { id: self.sid, name: self.f.name@ }
    }

    spec fn wf(self) -> bool {
        self.cur < self.f.blocks@.len()
    }

    /// What emission leaves as it is.
    spec fn frame(self, before: I64Cx) -> bool {
        &&& self.sid == before.sid
        &&& self.f.name == before.f.name
        &&& self.f.params == before.f.params
        &&& self.f.force_inline == before.f.force_inline
        &&& self.f.blocks@.len() >= before.f.blocks@.len()
    }

    fn put(&mut self, i: Inst) -> (r: Operand)
        requires
            old(self).wf(),
        ensures
            (final(self).code(), r) == put(old(self).code(), i@),
            final(self).wf(),
            final(self).frame(*old(self)),
            final(self).cur == old(self).cur,
    {
        let ghost before = self.code();
        let cur: usize = self.cur;
        let at: usize = self.f.blocks[cur].instructions.len();
        let block = &mut self.f.blocks[cur];
        block.instructions.push(i);
        proof {
            let b = before.blocks[cur as int];
            let after = self.f.blocks@[cur as int]@;
            assert(after.instructions =~= b.instructions.push(i@));
            assert(self.code().blocks =~= put(before, i@).0.blocks);
        }
        Operand::Result(cur, at)
    }

    fn end(&mut self, t: Terminator)
        requires
            old(self).wf(),
        ensures
            final(self).code() == end(old(self).code(), t),
            final(self).wf(),
            final(self).frame(*old(self)),
            final(self).cur == old(self).cur,
    {
        let ghost before = self.code();
        let cur: usize = self.cur;
        let block = &mut self.f.blocks[cur];
        block.terminator = Some(t);
        proof {
            assert(self.code().blocks =~= end(before, t).blocks);
        }
    }

    fn open_block(&mut self, label: &str) -> (r: usize)
        requires
            old(self).wf(),
        ensures
            final(self).code() == open_block(old(self).code(), label),
            r == old(self).f.blocks@.len(),
            final(self).f.blocks@.len() == old(self).f.blocks@.len() + 1,
            final(self).wf(),
            final(self).frame(*old(self)),
            final(self).cur == old(self).cur,
    {
        let ghost before = self.code();
        let at: usize = self.f.blocks.len();
        let block = LlBlock {
            label: label.to_owned(),
            instructions: Vec::new(),
            terminator: None,
        };
        self.f.blocks.push(block);
        proof {
            assert(self.f.blocks@[at as int]@ =~= BlockView {
                label: label@,
                instructions: Seq::empty(),
                terminator: None,
            });
            assert(self.code().blocks =~= open_block(before, label).blocks);
        }
        at
    }

    fn is_terminated(&self) -> (r: bool)
        requires
            self.wf(),
        ensures
            r == ended(self.code()),
    {
        self.f.blocks[self.cur].terminator.is_some()
    }

    fn bind(&mut self, id: u32, v: Operand)
        requires
            old(self).wf(),
        ensures
            final(self).code() == bind(old(self).code(), id, v),
            final(self).wf(),
            final(self).frame(*old(self)),
            final(self).cur == old(self).cur,
    {
        let slot = self.put(Inst::Alloca);
        self.put(Inst::Store { value: v, slot });
        self.locals.insert(id, slot);
    }

    fn flow_to(&mut self, block: usize)
        requires
            old(self).wf(),
        ensures
            final(self).code() == flow_to(old(self).code(), block as int),
            final(self).wf(),
            final(self).frame(*old(self)),
            final(self).cur == old(self).cur,
    {
        if !self.is_terminated() {
            self.end(Terminator::Br(block));
        }
    }
}

fn i64_val(cx: &mut I64Cx, e: &Expr) -> (r: Operand)
    requires
        old(cx).wf(),
    ensures
        (final(cx).code(), r) == value_code(old(cx).code(), *e, old(cx).own()),
        final(cx).wf(),
        final(cx).frame(*old(cx)),
        final(cx).cur == old(cx).cur,
    decreases *e,
{
    match e {
        Expr::Integer(n) => Operand::Const(*n),
        Expr::Number(bits) => Operand::Const(integer_of(*bits)),
        Expr::LocalGet(id) => {
            let slot: Option<Operand> = match cx.locals.get(id) {
                Some(s) => Some(*s),
                None => None,
            };
            match slot {
                Some(slot) => cx.put(Inst::Load { slot }),
                None => Operand::Const(0),
            }
        },
        Expr::Binary { op, left, right } => {
            let l = i64_val(cx, &**left);
            let r = i64_val(cx, &**right);
            match op {
                BinaryOp::Add => cx.put(Inst::Arith { op: ArithOp::Add, left: l, right: r }),
                BinaryOp::Sub => cx.put(Inst::Arith { op: ArithOp::Sub, left: l, right: r }),
                BinaryOp::Mul => cx.put(Inst::Arith { op: ArithOp::Mul, left: l, right: r }),
                _ => Operand::Const(0),
            }
        },
        Expr::Call { callee, args } => {
            if let Expr::FuncRef(id) = &**callee {
                if *id == cx.sid {
                    let vs = i64_vals(cx, args.as_slice());
                    let name = cx.f.name.clone();
                    return cx.put(Inst::Call { callee: name, args: vs });
                }
            }
            Operand::Const(0)
        },
        _ => Operand::Const(0),
    }
}

fn i64_vals(cx: &mut I64Cx, es: &[Expr]) -> (r: Vec<Operand>)
    requires
        old(cx).wf(),
    ensures
        (final(cx).code(), r@) == values_code(old(cx).code(), es@, old(cx).own()),
        final(cx).wf(),
        final(cx).frame(*old(cx)),
        final(cx).cur == old(cx).cur,
    decreases es@,
{
    let ghost before = *cx;
    let mut out: Vec<Operand> = Vec::new();
    let mut i: usize = 0;
    while i < es.len()
        invariant
            i <= es@.len(),
            (cx.code(), out@) == values_code(before.code(), es@.take(i as int), before.own()),
            cx.wf(),
            cx.frame(before),
            cx.cur == before.cur,
        decreases es@.len() - i,
    {
        assert(es@.take(i + 1).drop_last() =~= es@.take(i as int));
        let v = i64_val(cx, &es[i]);
        out.push(v);
        i += 1;
    }
    assert(es@.take(i as int) =~= es@);
    out
}

fn i64_cond(cx: &mut I64Cx, e: &Expr) -> (r: Operand)
    requires
        old(cx).wf(),
    ensures
        (final(cx).code(), r) == condition_code(old(cx).code(), *e, old(cx).own()),
        final(cx).wf(),
        final(cx).frame(*old(cx)),
        final(cx).cur == old(cx).cur,
{
    if let Expr::Compare { op, left, right } = e {
        let l = i64_val(cx, &**left);
        let r = i64_val(cx, &**right);
        let p = match op {
            CompareOp::Le => Predicate::Sle,
            CompareOp::Lt => Predicate::Slt,
            CompareOp::Gt => Predicate::Sgt,
            CompareOp::Ge => Predicate::Sge,
            CompareOp::Eq | CompareOp::LooseEq => Predicate::Eq,
            CompareOp::Ne | CompareOp::LooseNe => Predicate::Ne,
        };
        return cx.put(Inst::Compare { op: p, left: l, right: r });
    }
    let v = i64_val(cx, e);
    cx.put(Inst::Compare { op: Predicate::Ne, left: v, right: Operand::Const(0) })
}

fn i64_body(cx: &mut I64Cx, ss: &[Stmt])
    requires
        old(cx).wf(),
    ensures
        final(cx).code() == block_code(old(cx).code(), ss@, old(cx).own()),
        final(cx).wf(),
        final(cx).frame(*old(cx)),
    decreases ss@,
{
    let ghost before = *cx;
    let mut i: usize = 0;
    while i < ss.len()
        invariant
            i <= ss@.len(),
            cx.code() == block_code(before.code(), ss@.take(i as int), before.own()),
            cx.wf(),
            cx.frame(before),
        decreases ss@.len() - i,
    {
        assert(ss@.take(i + 1).drop_last() =~= ss@.take(i as int));
        if !cx.is_terminated() {
            i64_stmt(cx, &ss[i]);
        }
        i += 1;
    }
    assert(ss@.take(i as int) =~= ss@);
}

fn i64_stmt(cx: &mut I64Cx, s: &Stmt)
    requires
        old(cx).wf(),
    ensures
        final(cx).code() == stmt_code(old(cx).code(), *s, old(cx).own()),
        final(cx).wf(),
        final(cx).frame(*old(cx)),
    decreases *s,
{
    match s {
        Stmt::Return(Some(e)) => {
            let v = i64_val(cx, e);
            cx.end(Terminator::Ret(v));
        },
        Stmt::Return(None) => {
            cx.end(Terminator::Ret(Operand::Const(0)));
        },
        Stmt::Let { id, init: Some(e), .. } => {
            let v = i64_val(cx, e);
            cx.bind(*id, v);
        },
        Stmt::Let { id, init: None, .. } => {
            cx.bind(*id, Operand::Const(0));
        },
        Stmt::Expr(e) => {
            i64_val(cx, e);
        },
        Stmt::If { condition, then_branch, else_branch } => {
            let cond = i64_cond(cx, condition);
            let ti: usize = cx.open_block("i64.then");
            match else_branch {
                Some(other) => {
                    let ei: usize = cx.open_block("i64.else");
                    let mi: usize = cx.open_block("i64.merge");
                    cx.end(
                        Terminator::CondBr { condition: cond, then_block: ti, else_block: ei },
                    );
                    cx.cur = ti;
                    i64_body(cx, then_branch.as_slice());
                    cx.flow_to(mi);
                    cx.cur = ei;
                    i64_body(cx, other.as_slice());
                    cx.flow_to(mi);
                    cx.cur = mi;
                },
                None => {
                    let mi: usize = cx.open_block("i64.merge");
                    cx.end(
                        Terminator::CondBr { condition: cond, then_block: ti, else_block: mi },
                    );
                    cx.cur = ti;
                    i64_body(cx, then_branch.as_slice());
                    cx.flow_to(mi);
                    cx.cur = mi;
                },
            }
        },
        _ => {},
    }
}

/// Adds the integer form of a function to a module, under the given name.
pub fn emit_i64_function(llmod: &mut LlModule, f: &Function, i64_name: &str)
    ensures
        defined(final(llmod).functions@) == defined(old(llmod).functions@).push(
            function_code(*f, i64_name@),
        ),
        final(llmod).declarations == old(llmod).declarations,
        final(llmod).host == old(llmod).host,
        declares_once(*f) ==> computes(defined(final(llmod).functions@).last(), *f),
{
    let mut params: Vec<u32> = Vec::new();
    let mut i: usize = 0;
    let ghost ids = f.params@.map_values(|p: Param| p.id);
    while i < f.params.len()
        invariant
            i <= f.params@.len(),
            ids == f.params@.map_values(|p: Param| p.id),
            params@ == ids.take(i as int),
        decreases f.params@.len() - i,
    {
        params.push(f.params[i].id);
        assert(ids.take(i + 1) =~= ids.take(i as int).push(ids[i as int]));
        i += 1;
    }
    assert(ids.take(i as int) =~= ids);
    let entry = LlBlock {
        label: "entry".to_owned(),
        instructions: Vec::new(),
        terminator: None,
    };
    let mut blocks: Vec<LlBlock> = Vec::new();
    blocks.push(entry);
    let mut cx = I64Cx {
        f: LlFunction { name: i64_name.to_owned(), params, force_inline: true, blocks },
        cur: 0,
        locals: HashMap::new(),
        sid: f.id,
    };
    let ghost start = open_block(
        Code { blocks: Seq::empty(), cur: 0, locals: Map::empty() },
        "entry",
    );
    assert(cx.code() =~= start) by {
        assert(entry@ =~= BlockView {
            label: "entry"@,
            instructions: Seq::empty(),
            terminator: None,
        });
        assert(cx.code().blocks =~= start.blocks);
    }
    let ghost first = cx;
    let mut j: usize = 0;
    while j < f.params.len()
        invariant
            j <= f.params@.len(),
            cx.code() == params_code(start, f.params@.take(j as int)),
            cx.wf(),
            cx.frame(first),
        decreases f.params@.len() - j,
    {
        assert(f.params@.take(j + 1).drop_last() =~= f.params@.take(j as int));
        let id: u32 = f.params[j].id;
        cx.bind(id, Operand::Arg(id));
        j += 1;
    }
    assert(f.params@.take(j as int) =~= f.params@);
    i64_body(&mut cx, f.body.as_slice());
    if !cx.is_terminated() {
        cx.end(Terminator::Ret(Operand::Const(0)));
    }
    let ghost before = llmod.functions@;
    let ghost made = cx.f;
    llmod.functions.push(cx.f);
    proof {
        assert(cx.f@ =~= function_code(*f, i64_name@));
        assert(defined(llmod.functions@) =~= defined(before).push(function_code(*f, i64_name@)));
        let fv = function_code(*f, i64_name@);
        assert(fits(fv)) by {
            assert(fv.blocks.len() == made.blocks.len());
            assert forall|b: int| 0 <= b < fv.blocks.len() implies (
            #[trigger] fv.blocks[b]).instructions.len() <= usize::MAX by {
                assert(fv.blocks[b] == made.blocks@[b]@);
                assert(fv.blocks[b].instructions.len() == made.blocks@[b].instructions.len());
            }
        }
        if declares_once(*f) {
            lemma_emitted_computes_all(*f, i64_name@);
        }
    }
}

} // verus!

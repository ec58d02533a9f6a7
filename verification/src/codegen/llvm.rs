//! Modules of LLVM code: declarations of outside functions, and functions made
//! of basic blocks.
use vstd::prelude::*;
use crate::platform::Platform;
use crate::text::same;

verus! {

#[derive(Debug, Clone, Copy, PartialEq, Eq, Structural)]
pub enum LlvmType {
    Void,
    I1,
    I16,
    I32,
    I64,
    Double,
    Ptr,
}

pub const VOID: LlvmType = LlvmType::Void;

pub const I1: LlvmType = LlvmType::I1;

pub const I16: LlvmType = LlvmType::I16;

pub const I32: LlvmType = LlvmType::I32;

pub const I64: LlvmType = LlvmType::I64;

pub const DOUBLE: LlvmType = LlvmType::Double;

pub const PTR: LlvmType = LlvmType::Ptr;

/// A value: a constant, the argument for a parameter, or the result of the
/// instruction at a place of a block.
#[derive(Debug, Clone, Copy, PartialEq, Eq, Structural)]
pub enum Operand {
    Const(i64),
    Arg(u32),
    Result(usize, usize),
}

#[derive(Debug, Clone, Copy, PartialEq, Eq, Structural)]
pub enum ArithOp {
    Add,
    Sub,
    Mul,
}

/// A signed comparison.
#[derive(Debug, Clone, Copy, PartialEq, Eq, Structural)]
pub enum Predicate {
    Eq,
    Ne,
    Slt,
    Sle,
    Sgt,
    Sge,
}

/// An instruction on 64-bit integers.
#[derive(Debug)]
#[allow(inconsistent_fields)]
pub enum Inst {
    Alloca,
    Store { value: Operand, slot: Operand },
    Load { slot: Operand },
    Arith { op: ArithOp, left: Operand, right: Operand },
    Compare { op: Predicate, left: Operand, right: Operand },
    Call { callee: String, args: Vec<Operand> },
}

/// How a block ends.
#[derive(Debug, Clone, Copy, PartialEq, Eq, Structural)]
pub enum Terminator {
    Ret(Operand),
    Br(usize),
    CondBr { condition: Operand, then_block: usize, else_block: usize },
}

/// What an [`Inst`] says.
#[allow(inconsistent_fields)]
pub enum InstView {
    Alloca,
    Store { value: Operand, slot: Operand },
    Load { slot: Operand },
    Arith { op: ArithOp, left: Operand, right: Operand },
    Compare { op: Predicate, left: Operand, right: Operand },
    Call { callee: Seq<char>, args: Seq<Operand> },
}

impl View for Inst {
    type V = InstView;

    open spec fn view(&self) -> InstView {
        match *self {
            Inst::Alloca => InstView::Alloca,
            Inst::Store { value, slot } => InstView::Store { value, slot },
            Inst::Load { slot } => InstView::Load { slot },
            Inst::Arith { op, left, right } => InstView::Arith { op, left, right },
            Inst::Compare { op, left, right } => InstView::Compare { op, left, right },
            Inst::Call { callee, args } => InstView::Call { callee: callee@, args: args@ },
        }
    }
}

/// A basic block.
#[derive(Debug)]
pub struct LlBlock {
    pub label: String,
    pub instructions: Vec<Inst>,
    pub terminator: Option<Terminator>,
}

/// What an [`LlBlock`] holds.
#[verifier::ext_equal]
pub struct BlockView {
    pub label: Seq<char>,
    pub instructions: Seq<InstView>,
    pub terminator: Option<Terminator>,
}

impl View for LlBlock {
    type V = BlockView;

    open spec fn view(&self) -> BlockView {
        BlockView {
            label: self.label@,
            instructions: self.instructions@.map_values(|i: Inst| i@),
            terminator: self.terminator,
        }
    }
}

/// A function on 64-bit integers.
#[derive(Debug)]
pub struct LlFunction {
    pub name: String,
    pub params: Vec<u32>,
    pub force_inline: bool,
    pub blocks: Vec<LlBlock>,
}

/// What an [`LlFunction`] holds.
#[verifier::ext_equal]
pub struct FunctionView {
    pub name: Seq<char>,
    pub params: Seq<u32>,
    pub force_inline: bool,
    pub blocks: Seq<BlockView>,
}

/// What the blocks of a list hold.
pub open spec fn block_views(blocks: Seq<LlBlock>) -> Seq<BlockView> {
    blocks.map_values(|b: LlBlock| b@)
}

impl View for LlFunction {
    type V = FunctionView;

    open spec fn view(&self) -> FunctionView {
        FunctionView {
            name: self.name@,
            params: self.params@,
            force_inline: self.force_inline,
            blocks: block_views(self.blocks@),
        }
    }
}

/// The declaration of a function defined elsewhere.
#[derive(Debug)]
pub struct Declaration {
    pub name: String,
    pub result: LlvmType,
    pub params: Vec<LlvmType>,
}

/// What a [`Declaration`] says.
#[verifier::ext_equal]
pub struct DeclarationView {
    pub name: Seq<char>,
    pub result: LlvmType,
    pub params: Seq<LlvmType>,
}

impl View for Declaration {
    type V = DeclarationView;

    open spec fn view(&self) -> DeclarationView {
        DeclarationView { name: self.name@, result: self.result, params: self.params@ }
    }
}

/// A module under construction, on the platform that the compiler runs on.
#[derive(Debug)]
pub struct LlModule {
    pub host: Platform,
    pub declarations: Vec<Declaration>,
    pub functions: Vec<LlFunction>,
}

/// What the declarations of a list say.
pub open spec fn declared(v: Seq<Declaration>) -> Seq<DeclarationView> {
    v.map_values(|d: Declaration| d@)
}

/// What the functions of a list hold.
pub open spec fn defined(v: Seq<LlFunction>) -> Seq<FunctionView> {
    v.map_values(|f: LlFunction| f@)
}

/// Whether a list declares a function of the given name.
pub open spec fn declares(v: Seq<DeclarationView>, name: Seq<char>) -> bool {
    exists|i: int| 0 <= i < v.len() && (#[trigger] v[i]).name == name
}

/// A list of declarations with one more, unless its name is declared already.
#[verifier::opaque]
pub open spec fn with(
    v: Seq<DeclarationView>,
    name: &str,
    result: LlvmType,
    params: Seq<LlvmType>,
) -> Seq<DeclarationView> {
    if declares(v, name@) {
        v
    } else {
        v.push(DeclarationView { name: name@, result, params })
    }
}

/// Whether no name is declared twice.
pub open spec fn names_distinct(v: Seq<DeclarationView>) -> bool {
    forall|i: int, j: int|
        0 <= i < j < v.len() ==> (#[trigger] v[i]).name != (#[trigger] v[j]).name
}

impl LlModule {
    /// No function is declared twice.
    pub open spec fn wf(self) -> bool {
        names_distinct(declared(self.declarations@))
    }

    /// A module without contents.
    pub fn new(host: Platform) -> (r: LlModule)
        ensures
            r.wf(),
            r.host == host,
            r.declarations@.len() == 0,
            r.functions@.len() == 0,
    {
        LlModule { host, declarations: Vec::new(), functions: Vec::new() }
    }

    /// Declares a function defined elsewhere. Of two declarations of one name
    /// the first stands.
    pub fn declare_function(&mut self, name: &str, result: LlvmType, params: &[LlvmType])
        ensures
            declared(final(self).declarations@) == with(
                declared(old(self).declarations@),
                name,
                result,
                params@,
            ),
            declares(declared(old(self).declarations@), name@) ==> declared(
                final(self).declarations@,
            ) == declared(old(self).declarations@),
            !declares(declared(old(self).declarations@), name@) ==> declared(
                final(self).declarations@,
            ) == declared(old(self).declarations@).push(
                DeclarationView { name: name@, result, params: params@ },
            ),
            old(self).wf() ==> final(self).wf(),
            final(self).host == old(self).host,
            final(self).functions == old(self).functions,
    {
        let ghost before = declared(self.declarations@);
        let mut i: usize = 0;
        while i < self.declarations.len()
            invariant
                i <= self.declarations@.len(),
                before == declared(self.declarations@),
                forall|j: int| 0 <= j < i ==> (#[trigger] before[j]).name != name@,
            decreases self.declarations@.len() - i,
        {
            if same(self.declarations[i].name.as_str(), name) {
                proof {
                    reveal(with);
                }
                assert(before[i as int].name == name@);
                return;
            }
            i += 1;
        }
        let mut types: Vec<LlvmType> = Vec::new();
        let mut j: usize = 0;
        while j < params.len()
            invariant
                j <= params@.len(),
                types@ == params@.take(j as int),
            decreases params@.len() - j,
        {
            types.push(params[j]);
            j += 1;
        }
        assert(params@.take(j as int) =~= params@);
        self.declarations.push(Declaration { name: name.to_owned(), result, params: types });
        proof {
            reveal(with);
        }
        assert(declared(self.declarations@) =~= with(before, name, result, params@));
        proof {
            if old(self).wf() {
                lemma_with_distinct(before, name, result, params@);
            }
        }
    }
}

/// Declaring only adds: what was declared before stays, in place.
pub proof fn lemma_with_extends(
    v: Seq<DeclarationView>,
    name: &str,
    result: LlvmType,
    params: Seq<LlvmType>,
)
    ensures
        v.is_prefix_of(with(v, name, result, params)),
        declares(with(v, name, result, params), name@),
{
    reveal(with);
    let w = with(v, name, result, params);
    assert(v =~= w.subrange(0, v.len() as int));
    if !declares(v, name@) {
        assert(w[v.len() as int].name == name@);
    }
}

/// Declaring keeps names distinct.
pub proof fn lemma_with_distinct(
    v: Seq<DeclarationView>,
    name: &str,
    result: LlvmType,
    params: Seq<LlvmType>,
)
    requires
        names_distinct(v),
    ensures
        names_distinct(with(v, name, result, params)),
{
    reveal(with);
    let w = with(v, name, result, params);
    assert forall|i: int, j: int| 0 <= i < j < w.len() implies (#[trigger] w[i]).name != (
    #[trigger] w[j]).name by {
        if j == v.len() && w.len() > v.len() {
            assert(v[i].name != name@);
        }
    }
}

/// Whether a list goes on from another: it begins with it.
#[verifier::opaque]
pub open spec fn extends(w: Seq<DeclarationView>, v: Seq<DeclarationView>) -> bool {
    v.is_prefix_of(w)
}

/// A list goes on from itself.
pub proof fn lemma_extends_self(v: Seq<DeclarationView>)
    ensures
        extends(v, v),
{
    reveal(extends);
    assert(v =~= v.subrange(0, v.len() as int));
}

/// With one more declaration a list still goes on from where it did.
pub broadcast proof fn lemma_extends_with(
    w: Seq<DeclarationView>,
    v: Seq<DeclarationView>,
    name: &str,
    result: LlvmType,
    params: Seq<LlvmType>,
)
    requires
        extends(w, v),
    ensures
        #[trigger] extends(with(w, name, result, params), v),
{
    reveal(extends);
    reveal(with);
    let more = with(w, name, result, params);
    assert(v =~= more.subrange(0, v.len() as int));
}

/// Whether `b` declares what `a` declares: every name, and each with the same
/// signature unless `first` declared the name before. It declares no names
/// besides those of the two.
#[verifier::opaque]
pub open spec fn carries(
    b: Seq<DeclarationView>,
    a: Seq<DeclarationView>,
    first: Seq<DeclarationView>,
) -> bool {
    &&& forall|i: int| 0 <= i < a.len() ==> declares(b, (#[trigger] a[i]).name)
    &&& forall|i: int|
        0 <= i < a.len() ==> b.contains(#[trigger] a[i]) || declares(first, a[i].name)
    &&& forall|i: int|
        0 <= i < b.len() ==> declares(a, (#[trigger] b[i]).name) || declares(first, b[i].name)
}

/// What goes on from a list declares what the list does.
pub proof fn lemma_extends_carries(w: Seq<DeclarationView>, v: Seq<DeclarationView>)
    requires
        extends(w, v),
    ensures
        carries(w, v, w),
{
    reveal(extends);
    reveal(carries);
    assert forall|i: int| 0 <= i < v.len() implies declares(w, (#[trigger] v[i]).name)
        && w.contains(v[i]) by {
        assert(w[i] == v[i]);
    }
    assert forall|i: int| 0 <= i < w.len() implies declares(w, (#[trigger] w[i]).name) by {}
}

/// With the same declaration added to both, one list still declares what the
/// other does.
pub broadcast proof fn lemma_carries_with(
    b: Seq<DeclarationView>,
    a: Seq<DeclarationView>,
    first: Seq<DeclarationView>,
    name: &str,
    result: LlvmType,
    params: Seq<LlvmType>,
)
    requires
        carries(b, a, first),
    ensures
        #[trigger] carries(with(b, name, result, params), with(a, name, result, params), first),
{
    reveal(carries);
    reveal(with);
    let c = with(b, name, result, params);
    let d = with(a, name, result, params);
    lemma_with_extends(b, name, result, params);
    lemma_with_extends(a, name, result, params);
    let new = DeclarationView { name: name@, result, params };
    assert forall|i: int| 0 <= i < d.len() implies declares(c, (#[trigger] d[i]).name) && (
    c.contains(d[i]) || declares(first, d[i].name)) by {
        if i < a.len() {
            assert(d[i] == a[i]);
            let k = choose|k: int| 0 <= k < b.len() && (#[trigger] b[k]).name == a[i].name;
            assert(c[k] == b[k]);
            if b.contains(a[i]) {
                let j = choose|j: int| 0 <= j < b.len() && b[j] == a[i];
                assert(c[j] == a[i]);
            }
        } else {
            assert(d[i] == new);
            if declares(b, name@) {
                let k = choose|k: int| 0 <= k < b.len() && (#[trigger] b[k]).name == name@;
                assert(declares(a, b[k].name) || declares(first, b[k].name));
            } else {
                assert(c[b.len() as int] == new);
            }
        }
    }
    assert forall|i: int| 0 <= i < c.len() implies declares(d, (#[trigger] c[i]).name) || declares(
        first,
        c[i].name,
    ) by {
        if i < b.len() {
            assert(c[i] == b[i]);
            if declares(a, b[i].name) {
                let k = choose|k: int| 0 <= k < a.len() && (#[trigger] a[k]).name == b[i].name;
                assert(d[k] == a[k]);
            }
        }
    }
}

/// What goes on from a list with a declaration goes on from the list, and has no
/// need of the declaration.
pub broadcast proof fn lemma_declared_again(
    w: Seq<DeclarationView>,
    v: Seq<DeclarationView>,
    name: &str,
    result: LlvmType,
    params: Seq<LlvmType>,
)
    ensures
        #[trigger] extends(w, with(v, name, result, params)) ==> extends(w, v) && with(
            w,
            name,
            result,
            params,
        ) == w,
{
    reveal(extends);
    reveal(with);
    let more = with(v, name, result, params);
    if more.is_prefix_of(w) {
        lemma_with_extends(v, name, result, params);
        assert(v =~= w.subrange(0, v.len() as int)) by {
            assert(more =~= w.subrange(0, more.len() as int));
            assert forall|i: int| 0 <= i < v.len() implies v[i] == w[i] by {
                assert(v[i] == more[i]);
                assert(w.subrange(0, more.len() as int)[i] == w[i]);
            }
        }
        let k = choose|k: int| 0 <= k < more.len() && (#[trigger] more[k]).name == name@;
        assert(w.subrange(0, more.len() as int)[k] == w[k]);
        assert(declares(w, name@));
    }
}

/// Declaring a name a second time changes nothing.
pub proof fn lemma_with_again(
    v: Seq<DeclarationView>,
    name: &str,
    result: LlvmType,
    params: Seq<LlvmType>,
)
    ensures
        with(with(v, name, result, params), name, result, params) == with(
            v,
            name,
            result,
            params,
        ),
{
    reveal(with);
    lemma_with_extends(v, name, result, params);
}

} // verus!

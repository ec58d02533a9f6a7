//! Traversal of statements and expressions.
//!
//! The analyses look at a function body through three listings: the
//! statements it holds, the expressions those statements hold directly, and
//! the expressions met from there when descending into operands and closure
//! bodies. What an analysis reports is stated over these listings.
use vstd::prelude::*;
use crate::codegen::hir::{
    lemma_operand_smaller, lemma_unref_push, operands_of, Expr, Stmt, SwitchCase,
};

verus! {

broadcast use {vstd::std_specs::vec::group_vec_axioms, lemma_unref_push};

/// The listing of an optional expression.
pub open spec fn listed(e: Option<Expr>) -> Seq<Expr> {
    match e {
        Some(e) => seq![e],
        None => Seq::empty(),
    }
}

/// The expressions that a block holds directly, those of nested statements
/// included, in evaluation order.
pub open spec fn block_exprs(ss: Seq<Stmt>) -> Seq<Expr>
    decreases ss,
{
    if ss.len() == 0 {
        Seq::empty()
    } else {
        block_exprs(ss.drop_last()) + stmt_exprs(ss.last())
    }
}

/// The expressions that one statement holds directly (see [`block_exprs`]).
pub open spec fn stmt_exprs(s: Stmt) -> Seq<Expr>
    decreases s,
{
    match s {
        Stmt::Expr(e) => seq![e],
        Stmt::Throw(e) => seq![e],
        Stmt::Return(e) => listed(e),
        Stmt::Let { id, ty, mutable, init } => listed(init),
        Stmt::If { condition, then_branch, else_branch } => seq![condition] + block_exprs(
            then_branch@,
        ) + match else_branch {
            Some(b) => block_exprs(b@),
            None => Seq::empty(),
        },
        Stmt::While { condition, body } => seq![condition] + block_exprs(body@),
        Stmt::DoWhile { body, condition } => block_exprs(body@) + seq![condition],
        Stmt::For { init, condition, update, body } => (match init {
            Some(i) => stmt_exprs(*i),
            None => Seq::empty(),
        }) + listed(condition) + listed(update) + block_exprs(body@),
        Stmt::Switch { discriminant, cases } => seq![discriminant] + case_exprs(cases@),
        Stmt::Try { body, catch, finally } => block_exprs(body@) + (match catch {
            Some(c) => block_exprs(c.body@),
            None => Seq::empty(),
        }) + match finally {
            Some(f) => block_exprs(f@),
            None => Seq::empty(),
        },
        Stmt::Labeled { label, body } => stmt_exprs(*body),
        _ => Seq::empty(),
    }
}

/// The expressions that the cases of a `switch` hold directly.
pub open spec fn case_exprs(cs: Seq<SwitchCase>) -> Seq<Expr>
    decreases cs,
{
    if cs.len() == 0 {
        Seq::empty()
    } else {
        case_exprs(cs.drop_last()) + listed(cs.last().test) + block_exprs(
            cs.last().body@,
        )
    }
}

/// The statements of a block, each before those nested in it. Without `deep`,
/// nothing nested in a `switch`, a `try` or a labeled statement is listed.
pub open spec fn block_stmts(ss: Seq<Stmt>, deep: bool) -> Seq<Stmt>
    decreases ss,
{
    if ss.len() == 0 {
        Seq::empty()
    } else {
        block_stmts(ss.drop_last(), deep) + stmt_stmts(ss.last(), deep)
    }
}

/// A statement and those nested in it (see [`block_stmts`]).
pub open spec fn stmt_stmts(s: Stmt, deep: bool) -> Seq<Stmt>
    decreases s,
{
    seq![s] + match s {
        Stmt::If { condition, then_branch, else_branch } => block_stmts(then_branch@, deep)
            + match else_branch {
            Some(b) => block_stmts(b@, deep),
            None => Seq::empty(),
        },
        Stmt::While { condition, body } => block_stmts(body@, deep),
        Stmt::DoWhile { body, condition } => block_stmts(body@, deep),
        Stmt::For { init, condition, update, body } => (match init {
            Some(i) => stmt_stmts(*i, deep),
            None => Seq::empty(),
        }) + block_stmts(body@, deep),
        Stmt::Switch { discriminant, cases } => if deep {
            case_stmts(cases@, deep)
        } else {
            Seq::empty()
        },
        Stmt::Try { body, catch, finally } => if deep {
            block_stmts(body@, deep) + (match catch {
                Some(c) => block_stmts(c.body@, deep),
                None => Seq::empty(),
            }) + match finally {
                Some(f) => block_stmts(f@, deep),
                None => Seq::empty(),
            }
        } else {
            Seq::empty()
        },
        Stmt::Labeled { label, body } => if deep {
            stmt_stmts(*body, deep)
        } else {
            Seq::empty()
        },
        _ => Seq::empty(),
    }
}

/// The statements in the cases of a `switch`.
pub open spec fn case_stmts(cs: Seq<SwitchCase>, deep: bool) -> Seq<Stmt>
    decreases cs,
{
    if cs.len() == 0 {
        Seq::empty()
    } else {
        case_stmts(cs.drop_last(), deep) + block_stmts(cs.last().body@, deep)
    }
}

/// The expressions one step below `e`: those of the body for a closure, the
/// operands for anything else.
pub open spec fn children_of(e: Expr) -> Seq<Expr> {
    match e {
        Expr::Closure { func_id, body, captures, captures_this } => block_exprs(body@),
        _ => operands_of(e),
    }
}

/// The expressions met when descending from `e` into each child that
/// `enters(e, index)` admits; an expression stands before what is below it.
pub open spec fn visit(e: Expr, enters: spec_fn(Expr, int) -> bool) -> Seq<Expr>
    decreases e, children_of(e).len() + 1,
{
    seq![e] + visit_below(e, enters, children_of(e).len())
}

/// What [`visit`] meets below the first `n` children of `e`.
pub open spec fn visit_below(
    e: Expr,
    enters: spec_fn(Expr, int) -> bool,
    n: nat,
) -> Seq<Expr>
    decreases e, n,
{
    if n == 0 || n > children_of(e).len() {
        Seq::empty()
    } else {
        proof {
            lemma_child_smaller(e, n - 1);
        }
        visit_below(e, enters, (n - 1) as nat) + if enters(e, n - 1) {
            visit(children_of(e)[n - 1], enters)
        } else {
            Seq::empty()
        }
    }
}

/// Entering every child.
pub open spec fn everywhere() -> spec_fn(Expr, int) -> bool {
    |e: Expr, i: int| true
}

/// What [`visit`] meets from each expression of a list, in order.
pub open spec fn visit_each(
    es: Seq<Expr>,
    enters: spec_fn(Expr, int) -> bool,
) -> Seq<Expr>
    decreases es.len(),
{
    if es.len() == 0 {
        Seq::empty()
    } else {
        visit_each(es.drop_last(), enters) + visit(es.last(), enters)
    }
}

/// Every expression listed for a block is structurally smaller than the block.
pub proof fn lemma_block_expr_smaller(ss: Seq<Stmt>, i: int)
    requires
        0 <= i < block_exprs(ss).len(),
    ensures
        decreases_to!(ss => block_exprs(ss)[i]),
    decreases ss,
{
    let head = block_exprs(ss.drop_last());
    if i < head.len() {
        lemma_block_expr_smaller(ss.drop_last(), i);
    } else {
        lemma_stmt_expr_smaller(ss.last(), i - head.len());
    }
}

proof fn lemma_stmt_expr_smaller(s: Stmt, i: int)
    requires
        0 <= i < stmt_exprs(s).len(),
    ensures
        decreases_to!(s => stmt_exprs(s)[i]),
    decreases s,
{
    match s {
        Stmt::If { condition, then_branch, else_branch } => {
            let a = block_exprs(then_branch@);
            if 0 < i <= a.len() {
                lemma_block_expr_smaller(then_branch@, i - 1);
            } else if i > a.len() {
                lemma_block_expr_smaller(else_branch->0@, i - 1 - a.len());
            }
        },
        Stmt::While { condition, body } => {
            if i > 0 {
                lemma_block_expr_smaller(body@, i - 1);
            }
        },
        Stmt::DoWhile { body, condition } => {
            if i < block_exprs(body@).len() {
                lemma_block_expr_smaller(body@, i);
            }
        },
        Stmt::For { init, condition, update, body } => {
            let a = match init {
                Some(s0) => stmt_exprs(*s0),
                None => Seq::empty(),
            };
            let b = a + listed(condition);
            let c = b + listed(update);
            if i < a.len() {
                lemma_stmt_expr_smaller(*init->0, i);
            } else if i >= c.len() {
                lemma_block_expr_smaller(body@, i - c.len());
            }
        },
        Stmt::Switch { discriminant, cases } => {
            if i > 0 {
                lemma_case_expr_smaller(cases@, i - 1);
            }
        },
        Stmt::Try { body, catch, finally } => {
            let a = block_exprs(body@);
            let b = a + match catch {
                Some(c) => block_exprs(c.body@),
                None => Seq::empty(),
            };
            if i < a.len() {
                lemma_block_expr_smaller(body@, i);
            } else if i < b.len() {
                lemma_block_expr_smaller(catch->0.body@, i - a.len());
            } else {
                lemma_block_expr_smaller(finally->0@, i - b.len());
            }
        },
        Stmt::Labeled { label, body } => {
            lemma_stmt_expr_smaller(*body, i);
        },
        _ => {},
    }
}

proof fn lemma_case_expr_smaller(cs: Seq<SwitchCase>, i: int)
    requires
        0 <= i < case_exprs(cs).len(),
    ensures
        decreases_to!(cs => case_exprs(cs)[i]),
    decreases cs,
{
    let a = case_exprs(cs.drop_last());
    let b = a + listed(cs.last().test);
    assert(decreases_to!(cs => cs[cs.len() - 1]));
    if i < a.len() {
        lemma_case_expr_smaller(cs.drop_last(), i);
    } else if i >= b.len() {
        lemma_block_expr_smaller(cs.last().body@, i - b.len());
    }
}

/// A child is structurally smaller than the expression it belongs to.
pub proof fn lemma_child_smaller(e: Expr, i: int)
    requires
        0 <= i < children_of(e).len(),
    ensures
        decreases_to!(e => children_of(e)[i]),
{
    match e {
        Expr::Closure { func_id, body, captures, captures_this } => {
            lemma_block_expr_smaller(body@, i);
        },
        _ => {
            lemma_operand_smaller(e, i);
        },
    }
}

/// Everything met from one of the first `n` children is met below them.
proof fn lemma_below_holds(e: Expr, n: nat, i: int, d: Expr)
    requires
        0 <= i < n <= children_of(e).len(),
        visit(children_of(e)[i], everywhere()).contains(d),
    ensures
        visit_below(e, everywhere(), n).contains(d),
    decreases n,
{
    let before = visit_below(e, everywhere(), (n - 1) as nat);
    let last = visit(children_of(e)[n - 1], everywhere());
    let all = visit_below(e, everywhere(), n);
    if i == n - 1 {
        let k = choose|k: int| 0 <= k < last.len() && last[k] == d;
        assert(all[before.len() + k] == d);
    } else {
        lemma_below_holds(e, (n - 1) as nat, i, d);
        let k = choose|k: int| 0 <= k < before.len() && before[k] == d;
        assert(all[k] == d);
    }
}

/// What is met below the first `n` children is met from one of them.
proof fn lemma_below_from(e: Expr, n: nat, d: Expr) -> (i: int)
    requires
        n <= children_of(e).len(),
        visit_below(e, everywhere(), n).contains(d),
    ensures
        0 <= i < n,
        visit(children_of(e)[i], everywhere()).contains(d),
    decreases n,
{
    let before = visit_below(e, everywhere(), (n - 1) as nat);
    let last = visit(children_of(e)[n - 1], everywhere());
    let all = visit_below(e, everywhere(), n);
    let k = choose|k: int| 0 <= k < all.len() && all[k] == d;
    if k < before.len() {
        assert(before[k] == d);
        lemma_below_from(e, (n - 1) as nat, d)
    } else {
        assert(last[k - before.len()] == d);
        n - 1
    }
}

/// Entering every child leaves nothing out: an expression is met, and with every
/// expression that is met so are all those one step below it, operands and
/// closure bodies alike.
pub proof fn lemma_everywhere_complete(e: Expr, d: Expr, i: int)
    requires
        visit(e, everywhere()).contains(d),
        0 <= i < children_of(d).len(),
    ensures
        visit(e, everywhere()).contains(e),
        visit(e, everywhere()).contains(children_of(d)[i]),
    decreases e,
{
    let n = children_of(e).len();
    let all = visit(e, everywhere());
    let below = visit_below(e, everywhere(), n);
    assert(all[0] == e);
    let child = children_of(d)[i];
    if d == e {
        assert(visit(child, everywhere())[0] == child);
        lemma_below_holds(e, n, i, child);
    } else {
        let k = choose|k: int| 0 <= k < all.len() && all[k] == d;
        assert(below[k - 1] == d);
        let j = lemma_below_from(e, n, d);
        lemma_child_smaller(e, j);
        lemma_everywhere_complete(children_of(e)[j], d, i);
        lemma_below_holds(e, n, j, child);
    }
    let k = choose|k: int| 0 <= k < below.len() && below[k] == child;
    assert(all[k + 1] == child);
}

/// Nothing is met below an expression none of whose children is entered.
pub proof fn lemma_visit_closed(
    e: Expr,
    enters: spec_fn(Expr, int) -> bool,
    n: nat,
)
    requires
        forall|i: int| 0 <= i < children_of(e).len() ==> !#[trigger] enters(e, i),
    ensures
        visit_below(e, enters, n) == Seq::<Expr>::empty(),
    decreases n,
{
    if n > 0 && n <= children_of(e).len() {
        lemma_visit_closed(e, enters, (n - 1) as nat);
        assert(!enters(e, n - 1));
    }
}

/// References to the children of an expression.
pub fn children<'a>(e: &'a Expr) -> (r: Vec<&'a Expr>)
    ensures
        r@.unref() == children_of(*e),
{
    match e {
        Expr::Closure { body, .. } => expressions(body.as_slice()),
        _ => e.operands(),
    }
}

/// The ids that some expression of a list contributes.
pub open spec fn contributed(es: Seq<Expr>, gives: spec_fn(Expr) -> Set<u32>) -> Set<u32> {
    Set::new(|id: u32| exists|i: int| 0 <= i < es.len() && #[trigger] gives(es[i]).contains(id))
}

/// A list contributes what its two parts contribute.
pub proof fn lemma_contributed_concat(
    a: Seq<Expr>,
    b: Seq<Expr>,
    gives: spec_fn(Expr) -> Set<u32>,
)
    ensures
        contributed(a + b, gives) == contributed(a, gives).union(contributed(b, gives)),
{
    let whole = contributed(a + b, gives);
    let parts = contributed(a, gives).union(contributed(b, gives));
    assert forall|id: u32| whole.contains(id) == parts.contains(id) by {
        if contributed(a, gives).contains(id) {
            let i = choose|i: int| 0 <= i < a.len() && #[trigger] gives(a[i]).contains(id);
            assert((a + b)[i] == a[i]);
        }
        if contributed(b, gives).contains(id) {
            let i = choose|i: int| 0 <= i < b.len() && #[trigger] gives(b[i]).contains(id);
            assert((a + b)[a.len() + i] == b[i]);
        }
        if whole.contains(id) {
            let i = choose|i: int|
                0 <= i < (a + b).len() && #[trigger] gives((a + b)[i]).contains(id);
            if i < a.len() {
                assert((a + b)[i] == a[i]);
            } else {
                assert((a + b)[i] == b[i - a.len()]);
            }
        }
    }
    assert(whole =~= parts);
}

/// One expression contributes what it gives; none contributes nothing.
pub proof fn lemma_contributed_single(e: Expr, gives: spec_fn(Expr) -> Set<u32>)
    ensures
        contributed(seq![e], gives) == gives(e),
        contributed(Seq::empty(), gives) == Set::<u32>::empty(),
{
    assert forall|id: u32| contributed(seq![e], gives).contains(id) == gives(e).contains(id) by {
        assert(seq![e][0] == e);
    }
    assert(contributed(seq![e], gives) =~= gives(e));
    assert(contributed(Seq::empty(), gives) =~= Set::<u32>::empty());
}

/// The ids that some statement of a list contributes.
pub open spec fn collected(ss: Seq<Stmt>, gives: spec_fn(Stmt) -> Set<u32>) -> Set<u32> {
    Set::new(|id: u32| exists|i: int| 0 <= i < ss.len() && #[trigger] gives(ss[i]).contains(id))
}

/// The first `n + 1` statements contribute what the first `n` do, and what the
/// next gives.
pub proof fn lemma_collected_next(ss: Seq<Stmt>, n: int, gives: spec_fn(Stmt) -> Set<u32>)
    requires
        0 <= n < ss.len(),
    ensures
        collected(ss.take(n + 1), gives) == collected(ss.take(n), gives).union(gives(ss[n])),
{
    let a = ss.take(n);
    let b = ss.take(n + 1);
    assert forall|id: u32|
        collected(b, gives).contains(id) == (collected(a, gives).contains(id) || gives(
            ss[n],
        ).contains(id)) by {
        if collected(b, gives).contains(id) {
            let i = choose|i: int| 0 <= i < b.len() && #[trigger] gives(b[i]).contains(id);
            if i < n {
                assert(a[i] == b[i]);
            }
        }
        if collected(a, gives).contains(id) {
            let i = choose|i: int| 0 <= i < a.len() && #[trigger] gives(a[i]).contains(id);
            assert(b[i] == a[i]);
        }
        if gives(ss[n]).contains(id) {
            assert(b[n] == ss[n]);
        }
    }
    assert(collected(b, gives) =~= collected(a, gives).union(gives(ss[n])));
}

/// Whether some expression of a list is one that `bad` picks out.
pub open spec fn any_of(es: Seq<Expr>, bad: spec_fn(Expr) -> bool) -> bool {
    exists|i: int| 0 <= i < es.len() && #[trigger] bad(es[i])
}

/// A list holds such an expression when one of its two parts does.
pub proof fn lemma_any_concat(a: Seq<Expr>, b: Seq<Expr>, bad: spec_fn(Expr) -> bool)
    ensures
        any_of(a + b, bad) == (any_of(a, bad) || any_of(b, bad)),
{
    if any_of(a, bad) {
        let i = choose|i: int| 0 <= i < a.len() && #[trigger] bad(a[i]);
        assert(bad((a + b)[i]));
    }
    if any_of(b, bad) {
        let i = choose|i: int| 0 <= i < b.len() && #[trigger] bad(b[i]);
        assert(bad((a + b)[a.len() + i]));
    }
    if any_of(a + b, bad) {
        let i = choose|i: int| 0 <= i < (a + b).len() && #[trigger] bad((a + b)[i]);
        if i < a.len() {
            assert(bad(a[i]));
        } else {
            assert(bad(b[i - a.len()]));
        }
    }
}

/// The list of one expression, and the empty list.
pub proof fn lemma_any_single(e: Expr, bad: spec_fn(Expr) -> bool)
    ensures
        any_of(seq![e], bad) == bad(e),
        !any_of(Seq::empty(), bad),
{
    if bad(e) {
        assert(bad(seq![e][0]));
    }
}

/// What is met from the first expressions of a list is met from the list.
pub proof fn lemma_any_prefix(
    es: Seq<Expr>,
    n: int,
    enters: spec_fn(Expr, int) -> bool,
    bad: spec_fn(Expr) -> bool,
)
    requires
        0 <= n <= es.len(),
        any_of(visit_each(es.take(n), enters), bad),
    ensures
        any_of(visit_each(es, enters), bad),
    decreases es.len() - n,
{
    if n == es.len() {
        assert(es.take(n) =~= es);
    } else {
        assert(es.take(n + 1).drop_last() =~= es.take(n));
        lemma_any_concat(visit_each(es.take(n), enters), visit(es[n], enters), bad);
        lemma_any_prefix(es, n + 1, enters, bad);
    }
}

/// What is met below the first children is met below all of them.
pub proof fn lemma_below_prefix(
    e: Expr,
    n: nat,
    enters: spec_fn(Expr, int) -> bool,
    bad: spec_fn(Expr) -> bool,
)
    requires
        n <= children_of(e).len(),
        any_of(visit_below(e, enters, n), bad),
    ensures
        any_of(visit_below(e, enters, children_of(e).len()), bad),
    decreases children_of(e).len() - n,
{
    if n < children_of(e).len() {
        let more = if enters(e, n as int) {
            visit(children_of(e)[n as int], enters)
        } else {
            Seq::empty()
        };
        lemma_any_concat(visit_below(e, enters, n), more, bad);
        lemma_below_prefix(e, n + 1, enters, bad);
    }
}

/// References to the expressions that a block holds directly.
pub fn expressions<'a>(ss: &'a [Stmt]) -> (r: Vec<&'a Expr>)
    ensures
        r@.unref() == block_exprs(ss@),
{
    let mut out: Vec<&'a Expr> = Vec::new();
    list_block(ss, &mut out);
    out
}

fn list_option<'a>(e: &'a Option<Expr>, out: &mut Vec<&'a Expr>)
    ensures
        final(out)@.unref() == old(out)@.unref() + listed(*e),
{
    if let Some(e) = e {
        out.push(e);
    }
}

fn list_block<'a>(ss: &'a [Stmt], out: &mut Vec<&'a Expr>)
    ensures
        final(out)@.unref() == old(out)@.unref() + block_exprs(ss@),
    decreases ss@,
{
    let ghost before = out@.unref();
    let mut i: usize = 0;
    while i < ss.len()
        invariant
            i <= ss@.len(),
            out@.unref() == before + block_exprs(ss@.take(i as int)),
        decreases ss@.len() - i,
    {
        assert(ss@.take(i + 1).drop_last() =~= ss@.take(i as int));
        list_stmt(&ss[i], out);
        i += 1;
    }
    assert(ss@.take(i as int) =~= ss@);
}

fn list_stmt<'a>(s: &'a Stmt, out: &mut Vec<&'a Expr>)
    ensures
        final(out)@.unref() == old(out)@.unref() + stmt_exprs(*s),
    decreases *s,
{
    match s {
        Stmt::Expr(e) => {
            out.push(e);
        },
        Stmt::Throw(e) => {
            out.push(e);
        },
        Stmt::Return(e) => {
            list_option(e, out);
        },
        Stmt::Let { init, .. } => {
            list_option(init, out);
        },
        Stmt::If { condition, then_branch, else_branch } => {
            out.push(condition);
            list_block(then_branch.as_slice(), out);
            if let Some(b) = else_branch {
                list_block(b.as_slice(), out);
            }
        },
        Stmt::While { condition, body } => {
            out.push(condition);
            list_block(body.as_slice(), out);
        },
        Stmt::DoWhile { body, condition } => {
            list_block(body.as_slice(), out);
            out.push(condition);
        },
        Stmt::For { init, condition, update, body } => {
            if let Some(i) = init {
                list_stmt(&**i, out);
            }
            list_option(condition, out);
            list_option(update, out);
            list_block(body.as_slice(), out);
        },
        Stmt::Switch { discriminant, cases } => {
            out.push(discriminant);
            list_cases(cases.as_slice(), out);
        },
        Stmt::Try { body, catch, finally } => {
            list_block(body.as_slice(), out);
            if let Some(c) = catch {
                list_block(c.body.as_slice(), out);
            }
            if let Some(f) = finally {
                list_block(f.as_slice(), out);
            }
        },
        Stmt::Labeled { body, .. } => {
            list_stmt(&**body, out);
        },
        _ => {},
    }
}

fn list_cases<'a>(cs: &'a [SwitchCase], out: &mut Vec<&'a Expr>)
    ensures
        final(out)@.unref() == old(out)@.unref() + case_exprs(cs@),
    decreases cs@,
{
    let ghost before = out@.unref();
    let mut i: usize = 0;
    while i < cs.len()
        invariant
            i <= cs@.len(),
            out@.unref() == before + case_exprs(cs@.take(i as int)),
        decreases cs@.len() - i,
    {
        assert(cs@.take(i + 1).drop_last() =~= cs@.take(i as int));
        assert(decreases_to!(cs@ => cs@[i as int]));
        list_option(&cs[i].test, out);
        list_block(cs[i].body.as_slice(), out);
        i += 1;
    }
    assert(cs@.take(i as int) =~= cs@);
}

/// References to the statements of a block, nested ones included.
pub fn statements<'a>(ss: &'a [Stmt], deep: bool) -> (r: Vec<&'a Stmt>)
    ensures
        r@.unref() == block_stmts(ss@, deep),
{
    let mut out: Vec<&'a Stmt> = Vec::new();
    gather_block(ss, deep, &mut out);
    out
}

fn gather_block<'a>(ss: &'a [Stmt], deep: bool, out: &mut Vec<&'a Stmt>)
    ensures
        final(out)@.unref() == old(out)@.unref() + block_stmts(ss@, deep),
    decreases ss@,
{
    let ghost before = out@.unref();
    let mut i: usize = 0;
    while i < ss.len()
        invariant
            i <= ss@.len(),
            out@.unref() == before + block_stmts(ss@.take(i as int), deep),
        decreases ss@.len() - i,
    {
        assert(ss@.take(i + 1).drop_last() =~= ss@.take(i as int));
        gather_stmt(&ss[i], deep, out);
        i += 1;
    }
    assert(ss@.take(i as int) =~= ss@);
}

fn gather_stmt<'a>(s: &'a Stmt, deep: bool, out: &mut Vec<&'a Stmt>)
    ensures
        final(out)@.unref() == old(out)@.unref() + stmt_stmts(*s, deep),
    decreases *s,
{
    out.push(s);
    match s {
        Stmt::If { then_branch, else_branch, .. } => {
            gather_block(then_branch.as_slice(), deep, out);
            if let Some(b) = else_branch {
                gather_block(b.as_slice(), deep, out);
            }
        },
        Stmt::While { body, .. } => {
            gather_block(body.as_slice(), deep, out);
        },
        Stmt::DoWhile { body, .. } => {
            gather_block(body.as_slice(), deep, out);
        },
        Stmt::For { init, body, .. } => {
            if let Some(i) = init {
                gather_stmt(&**i, deep, out);
            }
            gather_block(body.as_slice(), deep, out);
        },
        Stmt::Switch { cases, .. } => {
            if deep {
                gather_cases(cases.as_slice(), deep, out);
            }
        },
        Stmt::Try { body, catch, finally } => {
            if deep {
                gather_block(body.as_slice(), deep, out);
                if let Some(c) = catch {
                    gather_block(c.body.as_slice(), deep, out);
                }
                if let Some(f) = finally {
                    gather_block(f.as_slice(), deep, out);
                }
            }
        },
        Stmt::Labeled { body, .. } => {
            if deep {
                gather_stmt(&**body, deep, out);
            }
        },
        _ => {},
    }
}

fn gather_cases<'a>(cs: &'a [SwitchCase], deep: bool, out: &mut Vec<&'a Stmt>)
    ensures
        final(out)@.unref() == old(out)@.unref() + case_stmts(cs@, deep),
    decreases cs@,
{
    let ghost before = out@.unref();
    let mut i: usize = 0;
    while i < cs.len()
        invariant
            i <= cs@.len(),
            out@.unref() == before + case_stmts(cs@.take(i as int), deep),
        decreases cs@.len() - i,
    {
        assert(cs@.take(i + 1).drop_last() =~= cs@.take(i as int));
        assert(decreases_to!(cs@ => cs@[i as int]));
        gather_block(cs[i].body.as_slice(), deep, out);
        i += 1;
    }
    assert(cs@.take(i as int) =~= cs@);
}

} // verus!

//! What stands where in a program.
//!
//! The analyses promise something of every place of a program. These are the places,
//! told by the shape of statements and expressions alone.
use vstd::prelude::*;
use crate::codegen::hir::{lemma_operand_smaller, operands_of, Expr, Stmt, SwitchCase};
use crate::codegen::walk::{
    block_exprs, case_exprs, children_of, everywhere, lemma_child_smaller, listed, stmt_exprs,
    visit, visit_below, visit_each,
};

verus! {

broadcast use vstd::std_specs::vec::group_vec_axioms;

/// The expressions that an expression is made of, one step down. A closure is made
/// of statements.
pub open spec fn parts(e: Expr) -> Seq<Expr> {
    match e {
        Expr::Integer(_)
        | Expr::Number(_)
        | Expr::String(_)
        | Expr::This
        | Expr::FuncRef(_)
        | Expr::LocalGet(_)
        | Expr::Update(_)
        | Expr::Closure { .. } => Seq::empty(),
        Expr::LocalSet(_, value) => seq![*value],
        Expr::Binary { op, left, right } => seq![*left, *right],
        Expr::Compare { op, left, right } => seq![*left, *right],
        Expr::PropertyGet { object, property } => seq![*object],
        Expr::PropertySet { object, property, value } => seq![*object, *value],
        Expr::PropertyUpdate { object, property } => seq![*object],
        Expr::IndexGet { object, index } => seq![*object, *index],
        Expr::IndexSet { object, index, value } => seq![*object, *index, *value],
        Expr::IndexUpdate { object, index } => seq![*object, *index],
        Expr::IndexRead { op, object, index } => seq![*object, *index],
        Expr::IndexWrite { op, object, index, value } => seq![*object, *index, *value],
        Expr::Call { callee, args } => seq![*callee] + args@,
        Expr::CallSpread { callee, args } => seq![*callee] + args@,
        Expr::NativeMethodCall { module, method, object, args } => match object {
            Some(o) => seq![*o] + args@,
            None => args@,
        },
        Expr::New { class_name, args } => args@,
        Expr::Array(elements) => elements@,
        Expr::Object(props) => Seq::new(props@.len(), |i: int| props@[i].1),
        Expr::OnLocal { op, id, operands } => operands@,
        Expr::Node { op, operands } => operands@,
    }
}

/// The parts of an expression are its operands.
pub proof fn lemma_parts(e: Expr)
    ensures
        parts(e) == operands_of(e),
{
    match e {
        Expr::Object(props) => {
            assert(parts(e) =~= operands_of(e));
        },
        _ => {},
    }
}

pub proof fn lemma_part_smaller(e: Expr, i: int)
    requires
        0 <= i < parts(e).len(),
    ensures
        decreases_to!(e => parts(e)[i]),
{
    lemma_parts(e);
    lemma_operand_smaller(e, i);
}

/// Whether `d` stands in `e`: it is `e`, or stands in a part of it or in its body.
pub open spec fn in_expr(e: Expr, d: Expr) -> bool
    decreases e, parts(e).len() + 1,
{
    ||| e == d
    ||| in_parts(e, d, parts(e).len())
    ||| (e matches Expr::Closure { func_id, body, captures, captures_this } && in_block(body@, d))
}

/// Whether `d` stands in one of the first `n` parts of `e`.
pub open spec fn in_parts(e: Expr, d: Expr, n: nat) -> bool
    decreases e, n,
{
    if n == 0 || n > parts(e).len() {
        false
    } else {
        proof {
            lemma_part_smaller(e, n - 1);
        }
        in_parts(e, d, (n - 1) as nat) || in_expr(parts(e)[n - 1], d)
    }
}

/// Whether `d` stands in an optional expression.
pub open spec fn in_option(e: Option<Expr>, d: Expr) -> bool
    decreases e, 0nat,
{
    match e {
        Some(e) => in_expr(e, d),
        None => false,
    }
}

/// Whether `d` stands in a statement, at whatever depth.
pub open spec fn in_stmt(s: Stmt, d: Expr) -> bool
    decreases s, 0nat,
{
    match s {
        Stmt::Expr(e) => in_expr(e, d),
        Stmt::Throw(e) => in_expr(e, d),
        Stmt::Return(e) => in_option(e, d),
        Stmt::Let { id, ty, mutable, init } => in_option(init, d),
        Stmt::If { condition, then_branch, else_branch } => in_expr(condition, d) || in_block(
            then_branch@,
            d,
        ) || match else_branch {
            Some(b) => in_block(b@, d),
            None => false,
        },
        Stmt::While { condition, body } => in_expr(condition, d) || in_block(body@, d),
        Stmt::DoWhile { body, condition } => in_expr(condition, d) || in_block(body@, d),
        Stmt::For { init, condition, update, body } => (match init {
            Some(i) => in_stmt(*i, d),
            None => false,
        }) || in_option(condition, d) || in_option(update, d) || in_block(body@, d),
        Stmt::Switch { discriminant, cases } => in_expr(discriminant, d) || in_cases(cases@, d),
        Stmt::Try { body, catch, finally } => in_block(body@, d) || (match catch {
            Some(c) => in_block(c.body@, d),
            None => false,
        }) || match finally {
            Some(f) => in_block(f@, d),
            None => false,
        },
        Stmt::Labeled { label, body } => in_stmt(*body, d),
        Stmt::Break
        | Stmt::Continue
        | Stmt::LabeledBreak(_)
        | Stmt::LabeledContinue(_) => false,
    }
}

/// Whether `d` stands in statements.
pub open spec fn in_block(ss: Seq<Stmt>, d: Expr) -> bool
    decreases ss, 0nat,
{
    ss.len() > 0 && (in_block(ss.drop_last(), d) || in_stmt(ss.last(), d))
}

/// Whether `d` stands in the cases of a `switch`.
pub open spec fn in_cases(cs: Seq<SwitchCase>, d: Expr) -> bool
    decreases cs, 0nat,
{
    cs.len() > 0 && (in_cases(cs.drop_last(), d) || in_option(cs.last().test, d) || in_block(
        cs.last().body@,
        d,
    ))
}

// ---- what a walk meets ----

/// Two lists in a row hold what either does.
pub proof fn lemma_concat_holds(a: Seq<Expr>, b: Seq<Expr>, d: Expr)
    ensures
        (a + b).contains(d) <==> a.contains(d) || b.contains(d),
{
    if a.contains(d) {
        let i = choose|i: int| 0 <= i < a.len() && a[i] == d;
        assert((a + b)[i] == d);
    }
    if b.contains(d) {
        let i = choose|i: int| 0 <= i < b.len() && b[i] == d;
        assert((a + b)[a.len() + i] == d);
    }
    if (a + b).contains(d) {
        let i = choose|i: int| 0 <= i < (a + b).len() && (a + b)[i] == d;
        if i < a.len() {
            assert(a[i] == d);
        } else {
            assert(b[i - a.len()] == d);
        }
    }
}

/// What is met from two lists in a row.
pub proof fn lemma_visit_concat(
    a: Seq<Expr>,
    b: Seq<Expr>,
    enters: spec_fn(Expr, int) -> bool,
)
    ensures
        visit_each(a + b, enters) == visit_each(a, enters) + visit_each(b, enters),
    decreases b.len(),
{
    if b.len() == 0 {
        assert(a + b =~= a);
        assert(visit_each(a, enters) + visit_each(b, enters) =~= visit_each(a, enters));
    } else {
        lemma_visit_concat(a, b.drop_last(), enters);
        assert((a + b).drop_last() =~= a + b.drop_last());
        assert((a + b).last() == b.last());
        assert(visit_each(a + b, enters) =~= visit_each(a, enters) + visit_each(b, enters));
    }
}

/// What is met from one expression.
pub proof fn lemma_visit_one(e: Expr, enters: spec_fn(Expr, int) -> bool)
    ensures
        visit_each(seq![e], enters) == visit(e, enters),
        visit_each(Seq::empty(), enters) == Seq::<Expr>::empty(),
{
    reveal_with_fuel(visit_each, 2);
    assert(seq![e].drop_last() =~= Seq::empty());
    assert(visit_each(seq![e], enters) =~= visit(e, enters));
}

/// What is met from an expression in a list.
pub proof fn lemma_each_holds(
    es: Seq<Expr>,
    enters: spec_fn(Expr, int) -> bool,
    d: Expr,
)
    ensures
        visit_each(es, enters).contains(d) <==> exists|i: int|
            0 <= i < es.len() && #[trigger] visit(es[i], enters).contains(d),
    decreases es.len(),
{
    if es.len() > 0 {
        let front = es.drop_last();
        lemma_each_holds(front, enters, d);
        lemma_concat_holds(visit_each(front, enters), visit(es.last(), enters), d);
        if visit_each(front, enters).contains(d) {
            let i = choose|i: int| 0 <= i < front.len() && #[trigger] visit(front[i], enters).contains(d);
            assert(visit(es[i], enters).contains(d));
        }
        if visit(es.last(), enters).contains(d) {
            assert(visit(es[es.len() - 1], enters).contains(d));
        }
        if exists|i: int| 0 <= i < es.len() && #[trigger] visit(es[i], enters).contains(d) {
            let i = choose|i: int| 0 <= i < es.len() && #[trigger] visit(es[i], enters).contains(d);
            if i < front.len() {
                assert(visit(front[i], enters).contains(d));
            }
        }
    }
}

/// What is met below the first `n` children that are entered.
pub proof fn lemma_below_holds(
    e: Expr,
    enters: spec_fn(Expr, int) -> bool,
    n: nat,
    d: Expr,
)
    requires
        n <= children_of(e).len(),
    ensures
        visit_below(e, enters, n).contains(d) <==> exists|i: int|
            0 <= i < n && #[trigger] enters(e, i) && visit(children_of(e)[i], enters).contains(d),
    decreases n,
{
    if n > 0 {
        let k = (n - 1) as nat;
        lemma_below_holds(e, enters, k, d);
        let more = if enters(e, n - 1) {
            visit(children_of(e)[n - 1], enters)
        } else {
            Seq::empty()
        };
        lemma_concat_holds(visit_below(e, enters, k), more, d);
        if exists|i: int|
            0 <= i < n && #[trigger] enters(e, i) && visit(children_of(e)[i], enters).contains(d) {
            let i = choose|i: int|
                0 <= i < n && #[trigger] enters(e, i) && visit(children_of(e)[i], enters).contains(
                    d,
                );
            if i < n - 1 {
                assert(visit_below(e, enters, k).contains(d));
            }
        }
        if more.contains(d) {
            assert(enters(e, n - 1));
        }
        if visit_below(e, enters, k).contains(d) {
            let i = choose|i: int|
                0 <= i < k && #[trigger] enters(e, i) && visit(children_of(e)[i], enters).contains(
                    d,
                );
            assert(0 <= i < n);
        }
    }
}

/// A visit meets where it starts, and what it meets from the children it enters.
pub proof fn lemma_visit_holds(e: Expr, enters: spec_fn(Expr, int) -> bool, d: Expr)
    ensures
        visit(e, enters).contains(d) <==> d == e || exists|i: int|
            0 <= i < children_of(e).len() && #[trigger] enters(e, i) && visit(
                children_of(e)[i],
                enters,
            ).contains(d),
{
    let n = children_of(e).len();
    lemma_below_holds(e, enters, n, d);
    lemma_concat_holds(seq![e], visit_below(e, enters, n), d);
    assert(seq![e].contains(d) <==> d == e) by {
        assert(seq![e][0] == e);
    }
}

/// With an expression that is met, a visit meets every child of it that it enters.
pub proof fn lemma_visit_goes_on(
    e: Expr,
    enters: spec_fn(Expr, int) -> bool,
    d: Expr,
    i: int,
)
    requires
        visit(e, enters).contains(d),
        0 <= i < children_of(d).len(),
        enters(d, i),
    ensures
        visit(e, enters).contains(children_of(d)[i]),
    decreases e,
{
    let child = children_of(d)[i];
    lemma_visit_holds(e, enters, d);
    lemma_visit_holds(e, enters, child);
    if d == e {
        lemma_visit_holds(child, enters, child);
        assert(enters(e, i));
    } else {
        let j = choose|j: int|
            0 <= j < children_of(e).len() && #[trigger] enters(e, j) && visit(
                children_of(e)[j],
                enters,
            ).contains(d);
        lemma_child_smaller(e, j);
        lemma_visit_goes_on(children_of(e)[j], enters, d, i);
        assert(enters(e, j));
    }
}

/// The same from a list.
pub proof fn lemma_each_goes_on(
    es: Seq<Expr>,
    enters: spec_fn(Expr, int) -> bool,
    d: Expr,
    i: int,
)
    requires
        visit_each(es, enters).contains(d),
        0 <= i < children_of(d).len(),
        enters(d, i),
    ensures
        visit_each(es, enters).contains(children_of(d)[i]),
{
    lemma_each_holds(es, enters, d);
    lemma_each_holds(es, enters, children_of(d)[i]);
    let k = choose|k: int| 0 <= k < es.len() && #[trigger] visit(es[k], enters).contains(d);
    lemma_visit_goes_on(es[k], enters, d, i);
    assert(visit(es[k], enters).contains(children_of(d)[i]));
}

// ---- a visit of everything meets all that stands in a program ----

pub proof fn lemma_in_parts(e: Expr, d: Expr, n: nat)
    requires
        n <= parts(e).len(),
    ensures
        in_parts(e, d, n) <==> exists|i: int| 0 <= i < n && #[trigger] in_expr(parts(e)[i], d),
    decreases n,
{
    if n > 0 {
        let k = (n - 1) as nat;
        lemma_in_parts(e, d, k);
        if in_parts(e, d, k) {
            let i = choose|i: int| 0 <= i < k && #[trigger] in_expr(parts(e)[i], d);
            assert(0 <= i < n);
        }
        if in_expr(parts(e)[n - 1], d) {
            assert(0 <= n - 1 < n);
        }
        if exists|i: int| 0 <= i < n && #[trigger] in_expr(parts(e)[i], d) {
            let i = choose|i: int| 0 <= i < n && #[trigger] in_expr(parts(e)[i], d);
            if i < k {
                assert(in_parts(e, d, k));
            }
        }
    }
}

proof fn lemma_meets_expr(e: Expr, d: Expr)
    ensures
        visit(e, everywhere()).contains(d) <==> in_expr(e, d),
    decreases e, 0nat,
{
    let enters = everywhere();
    lemma_visit_holds(e, enters, d);
    lemma_in_parts(e, d, parts(e).len());
    if let Expr::Closure { func_id, body, captures, captures_this } = e {
        lemma_meets_block(body@, d);
        lemma_each_holds(block_exprs(body@), enters, d);
        if visit_each(block_exprs(body@), enters).contains(d) {
            let i = choose|i: int|
                0 <= i < block_exprs(body@).len() && #[trigger] visit(
                    block_exprs(body@)[i],
                    enters,
                ).contains(d);
            assert(enters(e, i));
        }
        if exists|i: int|
            0 <= i < children_of(e).len() && #[trigger] enters(e, i) && visit(
                children_of(e)[i],
                enters,
            ).contains(d) {
            let i = choose|i: int|
                0 <= i < children_of(e).len() && #[trigger] enters(e, i) && visit(
                    children_of(e)[i],
                    enters,
                ).contains(d);
            assert(visit(block_exprs(body@)[i], enters).contains(d));
        }
    } else {
        lemma_parts(e);
        assert forall|i: int| 0 <= i < parts(e).len() implies (visit(
            #[trigger] parts(e)[i],
            enters,
        ).contains(d) <==> in_expr(parts(e)[i], d)) by {
            lemma_part_smaller(e, i);
            lemma_meets_expr(parts(e)[i], d);
        }
        if in_parts(e, d, parts(e).len()) {
            let i = choose|i: int| 0 <= i < parts(e).len() && #[trigger] in_expr(parts(e)[i], d);
            assert(visit(parts(e)[i], enters).contains(d));
            assert(enters(e, i));
        }
        if exists|i: int|
            0 <= i < children_of(e).len() && #[trigger] enters(e, i) && visit(
                children_of(e)[i],
                enters,
            ).contains(d) {
            let i = choose|i: int|
                0 <= i < children_of(e).len() && #[trigger] enters(e, i) && visit(
                    children_of(e)[i],
                    enters,
                ).contains(d);
            assert(visit(parts(e)[i], enters).contains(d));
            assert(in_expr(parts(e)[i], d));
        }
    }
}

/// Whether some expression of a list holds `d`.
spec fn met_from(es: Seq<Expr>, d: Expr) -> bool {
    visit_each(es, everywhere()).contains(d)
}

proof fn lemma_met_concat(a: Seq<Expr>, b: Seq<Expr>, d: Expr)
    ensures
        met_from(a + b, d) <==> met_from(a, d) || met_from(b, d),
{
    lemma_visit_concat(a, b, everywhere());
    lemma_concat_holds(visit_each(a, everywhere()), visit_each(b, everywhere()), d);
}

proof fn lemma_met_one(e: Expr, d: Expr)
    ensures
        met_from(seq![e], d) <==> in_expr(e, d),
        !met_from(Seq::empty(), d),
    decreases e, 1nat,
{
    lemma_visit_one(e, everywhere());
    lemma_meets_expr(e, d);
}

proof fn lemma_met_option(e: Option<Expr>, d: Expr)
    ensures
        met_from(listed(e), d) <==> in_option(e, d),
    decreases e, 2nat,
{
    match e {
        Some(x) => {
            lemma_met_one(x, d);
        },
        None => {
            lemma_visit_one(Expr::This, everywhere());
        },
    }
}

proof fn lemma_meets_stmt(s: Stmt, d: Expr)
    ensures
        met_from(stmt_exprs(s), d) <==> in_stmt(s, d),
    decreases s, 0nat,
{
    lemma_visit_one(Expr::This, everywhere());
    match s {
        Stmt::Expr(e) => {
            lemma_met_one(e, d);
        },
        Stmt::Throw(e) => {
            lemma_met_one(e, d);
        },
        Stmt::Return(e) => {
            lemma_met_option(e, d);
        },
        Stmt::Let { id, ty, mutable, init } => {
            lemma_met_option(init, d);
        },
        Stmt::If { condition, then_branch, else_branch } => {
            let a = seq![condition];
            let b = block_exprs(then_branch@);
            let c = match else_branch {
                Some(x) => block_exprs(x@),
                None => Seq::empty(),
            };
            lemma_met_one(condition, d);
            lemma_meets_block(then_branch@, d);
            if let Some(x) = else_branch {
                lemma_meets_block(x@, d);
            }
            lemma_met_concat(a, b, d);
            lemma_met_concat(a + b, c, d);
        },
        Stmt::While { condition, body } => {
            lemma_met_one(condition, d);
            lemma_meets_block(body@, d);
            lemma_met_concat(seq![condition], block_exprs(body@), d);
        },
        Stmt::DoWhile { body, condition } => {
            lemma_met_one(condition, d);
            lemma_meets_block(body@, d);
            lemma_met_concat(block_exprs(body@), seq![condition], d);
        },
        Stmt::For { init, condition, update, body } => {
            let a = match init {
                Some(i) => stmt_exprs(*i),
                None => Seq::empty(),
            };
            if let Some(i) = init {
                lemma_meets_stmt(*i, d);
            }
            lemma_met_option(condition, d);
            lemma_met_option(update, d);
            lemma_meets_block(body@, d);
            lemma_met_concat(a, listed(condition), d);
            lemma_met_concat(a + listed(condition), listed(update), d);
            lemma_met_concat(a + listed(condition) + listed(update), block_exprs(body@), d);
        },
        Stmt::Switch { discriminant, cases } => {
            lemma_met_one(discriminant, d);
            lemma_meets_cases(cases@, d);
            lemma_met_concat(seq![discriminant], case_exprs(cases@), d);
        },
        Stmt::Try { body, catch, finally } => {
            let a = block_exprs(body@);
            let b = match catch {
                Some(c) => block_exprs(c.body@),
                None => Seq::empty(),
            };
            let c = match finally {
                Some(f) => block_exprs(f@),
                None => Seq::empty(),
            };
            lemma_meets_block(body@, d);
            if let Some(x) = catch {
                lemma_meets_block(x.body@, d);
            }
            if let Some(x) = finally {
                lemma_meets_block(x@, d);
            }
            lemma_met_concat(a, b, d);
            lemma_met_concat(a + b, c, d);
        },
        Stmt::Labeled { label, body } => {
            lemma_meets_stmt(*body, d);
        },
        _ => {},
    }
}

proof fn lemma_meets_cases(cs: Seq<SwitchCase>, d: Expr)
    ensures
        met_from(case_exprs(cs), d) <==> in_cases(cs, d),
    decreases cs, 0nat,
{
    lemma_visit_one(Expr::This, everywhere());
    if cs.len() > 0 {
        let a = case_exprs(cs.drop_last());
        let b = listed(cs.last().test);
        let c = block_exprs(cs.last().body@);
        assert(decreases_to!(cs => cs[cs.len() - 1]));
        lemma_meets_cases(cs.drop_last(), d);
        lemma_met_option(cs.last().test, d);
        lemma_meets_block(cs.last().body@, d);
        lemma_met_concat(a, b, d);
        lemma_met_concat(a + b, c, d);
    }
}

proof fn lemma_meets_block(ss: Seq<Stmt>, d: Expr)
    ensures
        met_from(block_exprs(ss), d) <==> in_block(ss, d),
    decreases ss, 0nat,
{
    lemma_visit_one(Expr::This, everywhere());
    if ss.len() > 0 {
        lemma_meets_block(ss.drop_last(), d);
        lemma_meets_stmt(ss.last(), d);
        lemma_met_concat(block_exprs(ss.drop_last()), stmt_exprs(ss.last()), d);
    }
}

/// A visit of everything meets what stands in a program, and nothing else.
pub proof fn lemma_everything_met(ss: Seq<Stmt>, d: Expr)
    ensures
        visit_each(block_exprs(ss), everywhere()).contains(d) <==> in_block(ss, d),
{
    lemma_meets_block(ss, d);
}

/// The same for an expression.
pub proof fn lemma_expr_met(e: Expr, d: Expr)
    ensures
        visit(e, everywhere()).contains(d) <==> in_expr(e, d),
{
    lemma_meets_expr(e, d);
}

// ---- from what is met to what stands ----

/// Where all that a visit meets is as it should be, and so is all that stands in the
/// children that it passes by, everything is.
pub proof fn lemma_expr_all(
    e: Expr,
    enters: spec_fn(Expr, int) -> bool,
    fine: spec_fn(Expr) -> bool,
    x: Expr,
)
    requires
        forall|d: Expr| #[trigger] visit(e, enters).contains(d) ==> fine(d),
        forall|d: Expr, i: int, y: Expr|
            visit(e, enters).contains(d) && 0 <= i < children_of(d).len() && !(#[trigger] enters(
                d,
                i,
            )) && #[trigger] in_expr(children_of(d)[i], y) ==> fine(y),
        in_expr(e, x),
    ensures
        fine(x),
    decreases e,
{
    lemma_expr_met(e, x);
    lemma_visit_holds(e, everywhere(), x);
    lemma_visit_holds(e, enters, e);
    if x != e {
        let j = choose|j: int|
            0 <= j < children_of(e).len() && #[trigger] everywhere()(e, j) && visit(
                children_of(e)[j],
                everywhere(),
            ).contains(x);
        let child = children_of(e)[j];
        lemma_expr_met(child, x);
        if enters(e, j) {
            lemma_child_smaller(e, j);
            assert forall|d: Expr| #[trigger] visit(child, enters).contains(d) implies visit(
                e,
                enters,
            ).contains(d) by {
                lemma_visit_holds(e, enters, d);
            }
            lemma_expr_all(child, enters, fine, x);
        } else {
            assert(in_expr(children_of(e)[j], x));
        }
    }
}

pub proof fn lemma_block_all(
    ss: Seq<Stmt>,
    enters: spec_fn(Expr, int) -> bool,
    fine: spec_fn(Expr) -> bool,
    x: Expr,
)
    requires
        forall|d: Expr| #[trigger] visit_each(block_exprs(ss), enters).contains(d) ==> fine(d),
        forall|d: Expr, i: int, y: Expr|
            visit_each(block_exprs(ss), enters).contains(d) && 0 <= i < children_of(d).len() && !(
            #[trigger] enters(d, i)) && #[trigger] in_expr(children_of(d)[i], y) ==> fine(y),
        in_block(ss, x),
    ensures
        fine(x),
{
    let es = block_exprs(ss);
    lemma_everything_met(ss, x);
    lemma_each_holds(es, everywhere(), x);
    let k = choose|k: int| 0 <= k < es.len() && #[trigger] visit(es[k], everywhere()).contains(x);
    lemma_expr_met(es[k], x);
    assert forall|d: Expr| #[trigger] visit(es[k], enters).contains(d) implies visit_each(
        es,
        enters,
    ).contains(d) by {
        lemma_each_holds(es, enters, d);
    }
    lemma_expr_all(es[k], enters, fine, x);
}

/// What a visit meets stands in the program.
pub proof fn lemma_met_stands(ss: Seq<Stmt>, enters: spec_fn(Expr, int) -> bool, d: Expr)
    requires
        visit_each(block_exprs(ss), enters).contains(d),
    ensures
        in_block(ss, d),
{
    let es = block_exprs(ss);
    lemma_each_holds(es, enters, d);
    let k = choose|k: int| 0 <= k < es.len() && #[trigger] visit(es[k], enters).contains(d);
    lemma_met_everywhere(es[k], enters, d);
    lemma_each_holds(es, everywhere(), d);
    assert(visit(es[k], everywhere()).contains(d));
    lemma_everything_met(ss, d);
}

pub proof fn lemma_met_everywhere(e: Expr, enters: spec_fn(Expr, int) -> bool, d: Expr)
    requires
        visit(e, enters).contains(d),
    ensures
        visit(e, everywhere()).contains(d),
    decreases e,
{
    lemma_visit_holds(e, enters, d);
    lemma_visit_holds(e, everywhere(), d);
    if d != e {
        let j = choose|j: int|
            0 <= j < children_of(e).len() && #[trigger] enters(e, j) && visit(
                children_of(e)[j],
                enters,
            ).contains(d);
        lemma_child_smaller(e, j);
        lemma_met_everywhere(children_of(e)[j], enters, d);
        assert(everywhere()(e, j));
    }
}

/// What stands in something that stands in an expression stands in the expression.
pub proof fn lemma_in_trans(a: Expr, b: Expr, c: Expr)
    requires
        in_expr(a, b),
        in_expr(b, c),
    ensures
        in_expr(a, c),
    decreases a,
{
    lemma_expr_met(a, b);
    lemma_expr_met(a, c);
    lemma_visit_holds(a, everywhere(), b);
    lemma_visit_holds(a, everywhere(), c);
    if a != b {
        let j = choose|j: int|
            0 <= j < children_of(a).len() && #[trigger] everywhere()(a, j) && visit(
                children_of(a)[j],
                everywhere(),
            ).contains(b);
        lemma_expr_met(children_of(a)[j], b);
        lemma_child_smaller(a, j);
        lemma_in_trans(children_of(a)[j], b, c);
        lemma_expr_met(children_of(a)[j], c);
        assert(everywhere()(a, j));
    }
}

/// A child of an expression stands in it.
pub proof fn lemma_child_in(e: Expr, i: int)
    requires
        0 <= i < children_of(e).len(),
    ensures
        in_expr(e, children_of(e)[i]),
{
    let c = children_of(e)[i];
    lemma_expr_met(e, c);
    lemma_visit_holds(e, everywhere(), c);
    lemma_visit_holds(c, everywhere(), c);
    assert(everywhere()(e, i));
}

/// What stands in a child of an expression stands in the expression.
pub proof fn lemma_in_child(e: Expr, i: int, d: Expr)
    requires
        0 <= i < parts(e).len(),
        in_expr(parts(e)[i], d),
    ensures
        in_expr(e, d),
{
    lemma_in_parts(e, d, parts(e).len());
}

/// What stands in an expression of a block stands in the block.
pub proof fn lemma_in_body(ss: Seq<Stmt>, i: int, d: Expr)
    requires
        0 <= i < block_exprs(ss).len(),
        in_expr(block_exprs(ss)[i], d),
    ensures
        in_block(ss, d),
{
    let es = block_exprs(ss);
    lemma_expr_met(es[i], d);
    lemma_each_holds(es, everywhere(), d);
    assert(visit(es[i], everywhere()).contains(d));
    lemma_everything_met(ss, d);
}

/// What stands in something that stands in a block stands in the block.
pub proof fn lemma_block_trans(ss: Seq<Stmt>, b: Expr, c: Expr)
    requires
        in_block(ss, b),
        in_expr(b, c) || (b matches Expr::Closure { func_id, body, captures, captures_this }
            && in_block(body@, c)),
    ensures
        in_block(ss, c),
{
    let es = block_exprs(ss);
    assert(in_expr(b, c));
    lemma_everything_met(ss, b);
    lemma_each_holds(es, everywhere(), b);
    let k = choose|k: int| 0 <= k < es.len() && #[trigger] visit(es[k], everywhere()).contains(b);
    lemma_expr_met(es[k], b);
    lemma_in_trans(es[k], b, c);
    lemma_in_body(ss, k, c);
}

} // verus!

//! What it takes for an instance, an array or an object to stay where it is made,
//! told by the places at which its local stands in the program.
use vstd::prelude::*;
use crate::codegen::classes::{has_getter, has_setter};
use crate::codegen::escapes::{candidate, mentions, reading};
use crate::codegen::escaping_arrays;
use crate::codegen::escaping_news;
use crate::codegen::escaping_objects;
use crate::codegen::hir::{Class, Expr, LocalOp, Op, Stmt, SwitchCase};
use crate::codegen::program::{
    in_block, in_expr, lemma_block_all, lemma_child_in, lemma_concat_holds, lemma_each_goes_on,
    lemma_each_holds, lemma_everything_met, lemma_expr_met, lemma_in_trans, lemma_met_stands,
    lemma_parts, lemma_visit_goes_on, lemma_visit_holds, parts,
};
use crate::codegen::refs::{named_ids, ref_ids, refs_give};
use crate::codegen::walk::{
    any_of, block_exprs, block_stmts, case_exprs, case_stmts, children_of, contributed,
    everywhere, lemma_child_smaller, listed, stmt_exprs, stmt_stmts, visit, visit_each,
};

verus! {

broadcast use vstd::std_specs::vec::group_vec_axioms;

// ---- expressions that statements hold themselves ----

/// Whether `d` is an expression that a statement holds itself, nested statements
/// included.
pub open spec fn at_stmt(s: Stmt, d: Expr) -> bool
    decreases s,
{
    match s {
        Stmt::Expr(e) => e == d,
        Stmt::Throw(e) => e == d,
        Stmt::Return(e) => e == Some(d),
        Stmt::Let { id, ty, mutable, init } => init == Some(d),
        Stmt::If { condition, then_branch, else_branch } => condition == d || at_block(
            then_branch@,
            d,
        ) || match else_branch {
            Some(b) => at_block(b@, d),
            None => false,
        },
        Stmt::While { condition, body } => condition == d || at_block(body@, d),
        Stmt::DoWhile { body, condition } => condition == d || at_block(body@, d),
        Stmt::For { init, condition, update, body } => (match init {
            Some(i) => at_stmt(*i, d),
            None => false,
        }) || condition == Some(d) || update == Some(d) || at_block(body@, d),
        Stmt::Switch { discriminant, cases } => discriminant == d || at_cases(cases@, d),
        Stmt::Try { body, catch, finally } => at_block(body@, d) || (match catch {
            Some(c) => at_block(c.body@, d),
            None => false,
        }) || match finally {
            Some(f) => at_block(f@, d),
            None => false,
        },
        Stmt::Labeled { label, body } => at_stmt(*body, d),
        _ => false,
    }
}

pub open spec fn at_block(ss: Seq<Stmt>, d: Expr) -> bool
    decreases ss,
{
    ss.len() > 0 && (at_block(ss.drop_last(), d) || at_stmt(ss.last(), d))
}

pub open spec fn at_cases(cs: Seq<SwitchCase>, d: Expr) -> bool
    decreases cs,
{
    cs.len() > 0 && (at_cases(cs.drop_last(), d) || cs.last().test == Some(d) || at_block(
        cs.last().body@,
        d,
    ))
}

proof fn lemma_one(e: Expr, d: Expr)
    ensures
        seq![e].contains(d) <==> e == d,
        !Seq::<Expr>::empty().contains(d),
{
    assert(seq![e][0] == e);
}

proof fn lemma_at_option(e: Option<Expr>, d: Expr)
    ensures
        listed(e).contains(d) <==> e == Some(d),
{
    if let Some(x) = e {
        lemma_one(x, d);
    }
}

proof fn lemma_at_stmt(s: Stmt, d: Expr)
    ensures
        stmt_exprs(s).contains(d) <==> at_stmt(s, d),
    decreases s,
{
    lemma_one(Expr::This, d);
    match s {
        Stmt::Expr(e) => {
            lemma_one(e, d);
        },
        Stmt::Throw(e) => {
            lemma_one(e, d);
        },
        Stmt::Return(e) => {
            lemma_at_option(e, d);
        },
        Stmt::Let { id, ty, mutable, init } => {
            lemma_at_option(init, d);
        },
        Stmt::If { condition, then_branch, else_branch } => {
            let a = seq![condition];
            let b = block_exprs(then_branch@);
            let c = match else_branch {
                Some(x) => block_exprs(x@),
                None => Seq::empty(),
            };
            lemma_one(condition, d);
            lemma_at_block(then_branch@, d);
            if let Some(x) = else_branch {
                lemma_at_block(x@, d);
            }
            lemma_concat_holds(a, b, d);
            lemma_concat_holds(a + b, c, d);
        },
        Stmt::While { condition, body } => {
            lemma_one(condition, d);
            lemma_at_block(body@, d);
            lemma_concat_holds(seq![condition], block_exprs(body@), d);
        },
        Stmt::DoWhile { body, condition } => {
            lemma_one(condition, d);
            lemma_at_block(body@, d);
            lemma_concat_holds(block_exprs(body@), seq![condition], d);
        },
        Stmt::For { init, condition, update, body } => {
            let a = match init {
                Some(i) => stmt_exprs(*i),
                None => Seq::empty(),
            };
            if let Some(i) = init {
                lemma_at_stmt(*i, d);
            }
            lemma_at_option(condition, d);
            lemma_at_option(update, d);
            lemma_at_block(body@, d);
            lemma_concat_holds(a, listed(condition), d);
            lemma_concat_holds(a + listed(condition), listed(update), d);
            lemma_concat_holds(a + listed(condition) + listed(update), block_exprs(body@), d);
        },
        Stmt::Switch { discriminant, cases } => {
            lemma_one(discriminant, d);
            lemma_at_cases(cases@, d);
            lemma_concat_holds(seq![discriminant], case_exprs(cases@), d);
        },
        Stmt::Try { body, catch, finally } => {
            let a = block_exprs(body@);
            let b = match catch {
                Some(c) => block_exprs(c.body@),
                None => Seq::empty(),
            };
            let c = match finally {
                Some(f) => block_exprs(f@),
                None => Seq::empty(),
            };
            lemma_at_block(body@, d);
            if let Some(x) = catch {
                lemma_at_block(x.body@, d);
            }
            if let Some(x) = finally {
                lemma_at_block(x@, d);
            }
            lemma_concat_holds(a, b, d);
            lemma_concat_holds(a + b, c, d);
        },
        Stmt::Labeled { label, body } => {
            lemma_at_stmt(*body, d);
        },
        _ => {},
    }
}

proof fn lemma_at_cases(cs: Seq<SwitchCase>, d: Expr)
    ensures
        case_exprs(cs).contains(d) <==> at_cases(cs, d),
    decreases cs,
{
    if cs.len() > 0 {
        let a = case_exprs(cs.drop_last());
        let b = listed(cs.last().test);
        let c = block_exprs(cs.last().body@);
        assert(decreases_to!(cs => cs[cs.len() - 1]));
        lemma_at_cases(cs.drop_last(), d);
        lemma_at_option(cs.last().test, d);
        lemma_at_block(cs.last().body@, d);
        lemma_concat_holds(a, b, d);
        lemma_concat_holds(a + b, c, d);
    }
}

/// The expressions of a block are those that its statements hold themselves.
pub proof fn lemma_at_block(ss: Seq<Stmt>, d: Expr)
    ensures
        block_exprs(ss).contains(d) <==> at_block(ss, d),
    decreases ss,
{
    if ss.len() > 0 {
        lemma_at_block(ss.drop_last(), d);
        lemma_at_stmt(ss.last(), d);
        lemma_concat_holds(block_exprs(ss.drop_last()), stmt_exprs(ss.last()), d);
    }
}

// ---- statements of a program ----

/// Whether a statement is one of those of a statement, itself or nested.
pub open spec fn within_stmt(s: Stmt, t: Stmt) -> bool
    decreases s,
{
    s == t || match s {
        Stmt::If { condition, then_branch, else_branch } => within(then_branch@, t)
            || match else_branch {
            Some(b) => within(b@, t),
            None => false,
        },
        Stmt::While { condition, body } => within(body@, t),
        Stmt::DoWhile { body, condition } => within(body@, t),
        Stmt::For { init, condition, update, body } => (match init {
            Some(i) => within_stmt(*i, t),
            None => false,
        }) || within(body@, t),
        Stmt::Switch { discriminant, cases } => within_cases(cases@, t),
        Stmt::Try { body, catch, finally } => within(body@, t) || (match catch {
            Some(c) => within(c.body@, t),
            None => false,
        }) || match finally {
            Some(f) => within(f@, t),
            None => false,
        },
        Stmt::Labeled { label, body } => within_stmt(*body, t),
        _ => false,
    }
}

/// Whether a statement stands in a block, at whatever depth.
pub open spec fn within(ss: Seq<Stmt>, t: Stmt) -> bool
    decreases ss,
{
    ss.len() > 0 && (within(ss.drop_last(), t) || within_stmt(ss.last(), t))
}

pub open spec fn within_cases(cs: Seq<SwitchCase>, t: Stmt) -> bool
    decreases cs,
{
    cs.len() > 0 && (within_cases(cs.drop_last(), t) || within(cs.last().body@, t))
}

proof fn lemma_stmts_hold(a: Seq<Stmt>, b: Seq<Stmt>, t: Stmt)
    ensures
        (a + b).contains(t) <==> a.contains(t) || b.contains(t),
{
    if a.contains(t) {
        let i = choose|i: int| 0 <= i < a.len() && a[i] == t;
        assert((a + b)[i] == t);
    }
    if b.contains(t) {
        let i = choose|i: int| 0 <= i < b.len() && b[i] == t;
        assert((a + b)[a.len() + i] == t);
    }
    if (a + b).contains(t) {
        let i = choose|i: int| 0 <= i < (a + b).len() && (a + b)[i] == t;
        if i < a.len() {
            assert(a[i] == t);
        } else {
            assert(b[i - a.len()] == t);
        }
    }
}

proof fn lemma_within_stmt(s: Stmt, t: Stmt)
    ensures
        stmt_stmts(s, true).contains(t) <==> within_stmt(s, t),
    decreases s,
{
    let below = stmt_stmts(s, true).skip(1);
    assert(seq![s].contains(t) <==> s == t) by {
        assert(seq![s][0] == s);
    }
    assert(stmt_stmts(s, true) =~= seq![s] + below);
    lemma_stmts_hold(seq![s], below, t);
    match s {
        Stmt::If { condition, then_branch, else_branch } => {
            let a = block_stmts(then_branch@, true);
            let b = match else_branch {
                Some(x) => block_stmts(x@, true),
                None => Seq::empty(),
            };
            lemma_within(then_branch@, t);
            if let Some(x) = else_branch {
                lemma_within(x@, t);
            }
            assert(below =~= a + b);
            lemma_stmts_hold(a, b, t);
        },
        Stmt::While { condition, body } => {
            lemma_within(body@, t);
            assert(below =~= block_stmts(body@, true));
        },
        Stmt::DoWhile { body, condition } => {
            lemma_within(body@, t);
            assert(below =~= block_stmts(body@, true));
        },
        Stmt::For { init, condition, update, body } => {
            let a = match init {
                Some(i) => stmt_stmts(*i, true),
                None => Seq::empty(),
            };
            if let Some(i) = init {
                lemma_within_stmt(*i, t);
            }
            lemma_within(body@, t);
            assert(below =~= a + block_stmts(body@, true));
            lemma_stmts_hold(a, block_stmts(body@, true), t);
        },
        Stmt::Switch { discriminant, cases } => {
            lemma_within_cases(cases@, t);
            assert(below =~= case_stmts(cases@, true));
        },
        Stmt::Try { body, catch, finally } => {
            let a = block_stmts(body@, true);
            let b = match catch {
                Some(c) => block_stmts(c.body@, true),
                None => Seq::empty(),
            };
            let c = match finally {
                Some(f) => block_stmts(f@, true),
                None => Seq::empty(),
            };
            lemma_within(body@, t);
            if let Some(x) = catch {
                lemma_within(x.body@, t);
            }
            if let Some(x) = finally {
                lemma_within(x@, t);
            }
            assert(below =~= a + b + c);
            lemma_stmts_hold(a, b, t);
            lemma_stmts_hold(a + b, c, t);
        },
        Stmt::Labeled { label, body } => {
            lemma_within_stmt(*body, t);
            assert(below =~= stmt_stmts(*body, true));
        },
        _ => {
            assert(below =~= Seq::empty());
        },
    }
}

proof fn lemma_within_cases(cs: Seq<SwitchCase>, t: Stmt)
    ensures
        case_stmts(cs, true).contains(t) <==> within_cases(cs, t),
    decreases cs,
{
    if cs.len() > 0 {
        assert(decreases_to!(cs => cs[cs.len() - 1]));
        lemma_within_cases(cs.drop_last(), t);
        lemma_within(cs.last().body@, t);
        lemma_stmts_hold(
            case_stmts(cs.drop_last(), true),
            block_stmts(cs.last().body@, true),
            t,
        );
    }
}

/// The statements of a block are those that stand in it.
pub proof fn lemma_within(ss: Seq<Stmt>, t: Stmt)
    ensures
        block_stmts(ss, true).contains(t) <==> within(ss, t),
    decreases ss,
{
    if ss.len() > 0 {
        lemma_within(ss.drop_last(), t);
        lemma_within_stmt(ss.last(), t);
        lemma_stmts_hold(block_stmts(ss.drop_last(), true), stmt_stmts(ss.last(), true), t);
    }
}

// ---- what holds of all that is met, and so of all that stands ----

/// What a visit meets is where it starts, or a child that it enters of something
/// that it meets.
proof fn lemma_met_from_parent(e: Expr, enters: spec_fn(Expr, int) -> bool, d: Expr)
    requires
        visit(e, enters).contains(d),
        d != e,
    ensures
        exists|p: Expr, i: int|
            visit(e, enters).contains(p) && 0 <= i < children_of(p).len() && #[trigger] enters(p, i)
                && children_of(p)[i] == d,
    decreases e,
{
    lemma_visit_holds(e, enters, d);
    lemma_visit_holds(e, enters, e);
    let j = choose|j: int|
        0 <= j < children_of(e).len() && #[trigger] enters(e, j) && visit(
            children_of(e)[j],
            enters,
        ).contains(d);
    let child = children_of(e)[j];
    if child == d {
        assert(enters(e, j));
    } else {
        lemma_child_smaller(e, j);
        lemma_met_from_parent(child, enters, d);
        let (p, i) = choose|p: Expr, i: int|
            visit(child, enters).contains(p) && 0 <= i < children_of(p).len() && #[trigger] enters(
                p,
                i,
            ) && children_of(p)[i] == d;
        lemma_visit_holds(e, enters, p);
        assert(enters(e, j));
        assert(enters(p, i));
    }
}

proof fn lemma_block_parent(ss: Seq<Stmt>, enters: spec_fn(Expr, int) -> bool, d: Expr)
    requires
        visit_each(block_exprs(ss), enters).contains(d),
        !at_block(ss, d),
    ensures
        exists|p: Expr, i: int|
            visit_each(block_exprs(ss), enters).contains(p) && 0 <= i < children_of(p).len()
                && #[trigger] enters(p, i) && children_of(p)[i] == d,
{
    let es = block_exprs(ss);
    lemma_each_holds(es, enters, d);
    let k = choose|k: int| 0 <= k < es.len() && #[trigger] visit(es[k], enters).contains(d);
    lemma_at_block(ss, d);
    assert(es.contains(es[k]));
    lemma_met_from_parent(es[k], enters, d);
    let (p, i) = choose|p: Expr, i: int|
        visit(es[k], enters).contains(p) && 0 <= i < children_of(p).len() && #[trigger] enters(p, i)
            && children_of(p)[i] == d;
    lemma_each_holds(es, enters, p);
    assert(visit(es[k], enters).contains(p));
    assert(enters(p, i));
}

// ---- uses of a local ----

/// Whether an expression names a local itself: reads, sets or updates it, operates
/// on it, or captures it.
pub open spec fn names(d: Expr, id: u32) -> bool {
    match d {
        Expr::LocalGet(x) => x == id,
        Expr::LocalSet(x, _) => x == id,
        Expr::Update(x) => x == id,
        Expr::OnLocal { op, id: x, operands } => x == id,
        Expr::Closure { func_id, body, captures, captures_this } => captures@.contains(id),
        _ => false,
    }
}

/// An expression refers to the locals that something in it names.
pub proof fn lemma_refers(e: Expr, id: u32)
    ensures
        ref_ids(e).contains(id) <==> exists|x: Expr| in_expr(e, x) && #[trigger] names(x, id),
{
    let met = visit(e, everywhere());
    if ref_ids(e).contains(id) {
        let i = choose|i: int| 0 <= i < met.len() && #[trigger] refs_give()(met[i]).contains(id);
        assert(met.contains(met[i]));
        lemma_expr_met(e, met[i]);
        assert(named_ids(met[i]).contains(id));
        assert(names(met[i], id));
    }
    if exists|x: Expr| in_expr(e, x) && #[trigger] names(x, id) {
        let x = choose|x: Expr| in_expr(e, x) && #[trigger] names(x, id);
        lemma_expr_met(e, x);
        let i = choose|i: int| 0 <= i < met.len() && met[i] == x;
        assert(refs_give()(met[i]).contains(id));
    }
}

/// Whether a local is read or updated somewhere in an expression.
pub open spec fn is_read_in(e: Expr, id: u32) -> bool {
    in_expr(e, Expr::LocalGet(id)) || in_expr(e, Expr::Update(id))
}

/// Mentioning a local is reading or updating it.
pub proof fn lemma_mentions(e: Expr, id: u32)
    ensures
        mentions(e, id) <==> is_read_in(e, id),
{
    let met = visit(e, everywhere());
    if mentions(e, id) {
        let i = choose|i: int| 0 <= i < met.len() && #[trigger] reading(id)(met[i]);
        assert(met.contains(met[i]));
        lemma_expr_met(e, met[i]);
    }
    lemma_expr_met(e, Expr::LocalGet(id));
    lemma_expr_met(e, Expr::Update(id));
    if in_expr(e, Expr::LocalGet(id)) {
        let i = choose|i: int| 0 <= i < met.len() && met[i] == Expr::LocalGet(id);
        assert(reading(id)(met[i]));
    }
    if in_expr(e, Expr::Update(id)) {
        let i = choose|i: int| 0 <= i < met.len() && met[i] == Expr::Update(id);
        assert(reading(id)(met[i]));
    }
}

/// Whether a local is the object whose property `d` reads, sets or updates, and
/// nothing else of what `d` is made of.
pub open spec fn only_as_object(d: Expr, id: u32) -> bool {
    forall|i: int|
        0 <= i < parts(d).len() && #[trigger] parts(d)[i] == Expr::LocalGet(id) ==> i == 0 && (
        d is PropertyGet || d is PropertySet || d is PropertyUpdate)
}

/// Whether `d` calls a method on a local.
pub open spec fn calls_method(d: Expr, id: u32) -> bool {
    match d {
        Expr::Call { callee, args } => is_property_of(*callee, id),
        Expr::CallSpread { callee, args } => is_property_of(*callee, id),
        _ => false,
    }
}

pub open spec fn is_property_of(e: Expr, id: u32) -> bool {
    e matches Expr::PropertyGet { object, property } && *object == Expr::LocalGet(id)
}

/// Whether `d` sets or updates a local itself, or captures it in a closure or lets a
/// statement of the closure hold it.
pub open spec fn takes(d: Expr, id: u32) -> bool {
    match d {
        Expr::LocalSet(x, _) => x == id,
        Expr::Update(x) => x == id,
        Expr::Closure { func_id, body, captures, captures_this } => captures@.contains(id)
            || at_block(body@, Expr::LocalGet(id)),
        _ => false,
    }
}

// ---- instances ----

/// Whether `d` goes through an accessor of the instance that a local holds, or stores
/// the instance in itself.
pub open spec fn needs_instance(d: Expr, id: u32, class: Seq<char>, cs: Seq<Class>) -> bool {
    match d {
        Expr::PropertyGet { object, property } => *object == Expr::LocalGet(id) && has_getter(
            cs,
            class,
            property@,
        ),
        Expr::PropertySet { object, property, value } => *object == Expr::LocalGet(id) && (
        has_setter(cs, class, property@) || is_read_in(*value, id)),
        Expr::PropertyUpdate { object, property } => *object == Expr::LocalGet(id) && (has_getter(
            cs,
            class,
            property@,
        ) || has_setter(cs, class, property@)),
        Expr::OnLocal { op, id: x, operands } => x == id && op != LocalOp::ArrayUnshift && op
            != LocalOp::ArrayCopyWithin,
        _ => false,
    }
}

/// Whether an expression does to the instance that a local holds nothing but read,
/// set or update its plain fields.
pub open spec fn keeps_instance(d: Expr, id: u32, class: Seq<char>, cs: Seq<Class>) -> bool {
    &&& escaping_news::is_understood(d)
    &&& only_as_object(d, id)
    &&& !calls_method(d, id)
    &&& !takes(d, id)
    &&& !needs_instance(d, id, class, cs)
}

/// Whether a program does to the instance that a local holds nothing but read, set or
/// update its plain fields.
pub open spec fn instance_stays(
    stmts: Seq<Stmt>,
    id: u32,
    class: Seq<char>,
    cs: Seq<Class>,
) -> bool {
    &&& !at_block(stmts, Expr::LocalGet(id))
    &&& forall|d: Expr| #[trigger] in_block(stmts, d) ==> keeps_instance(d, id, class, cs)
}

/// An instance does not escape exactly where the program does nothing with it but
/// read, set or update its plain fields: it is no argument, no value that is returned,
/// stored or captured, and no method is called on it.
pub proof fn lemma_instance_confined(
    stmts: Seq<Stmt>,
    candidates: Map<u32, Seq<char>>,
    cs: Seq<Class>,
    id: u32,
)
    requires
        candidates.dom().contains(id),
    ensures
        !escaping_news::escaping(stmts, candidates, cs).contains(id) <==> instance_stays(
            stmts,
            id,
            candidates[id],
            cs,
        ),
{
    let enters = escaping_news::escape_enter(candidates);
    let gives = escaping_news::escape_give(candidates, cs);
    let es = block_exprs(stmts);
    let met = visit_each(es, enters);
    let class = candidates[id];
    let get = Expr::LocalGet(id);
    let fine = |d: Expr| d is LocalGet || keeps_instance(d, id, class, cs);
    if !escaping_news::escaping(stmts, candidates, cs).contains(id) {
        assert forall|d: Expr| #[trigger] met.contains(d) implies !gives(d).contains(id) by {
            let k = choose|k: int| 0 <= k < met.len() && met[k] == d;
            if gives(met[k]).contains(id) {
                assert(contributed(met, gives).contains(id));
            }
        }
        assert(!met.contains(get)) by {
            if met.contains(get) {
                assert(gives(get).contains(id));
            }
        }
        assert forall|d: Expr| #[trigger] met.contains(d) implies fine(d) by {
            assert(!gives(d).contains(id));
            assert(escaping_news::is_understood(d));
            lemma_parts(d);
            assert forall|i: int|
                0 <= i < parts(d).len() && #[trigger] parts(d)[i] == get implies i == 0 && (
            d is PropertyGet || d is PropertySet || d is PropertyUpdate) by {
                assert(!(d is Closure));
                assert(children_of(d)[i] == get);
                if enters(d, i) {
                    lemma_each_goes_on(es, enters, d, i);
                }
            }
            if let Expr::Closure { func_id, body, captures, captures_this } = d {
                if captures@.contains(id) {
                    assert(captures@.to_set().contains(id));
                }
                if at_block(body@, get) {
                    lemma_at_block(body@, get);
                    let i = choose|i: int| 0 <= i < block_exprs(body@).len() && block_exprs(body@)[i]
                        == get;
                    assert(enters(d, i));
                    lemma_each_goes_on(es, enters, d, i);
                }
            }
            if let Expr::PropertySet { object, property, value } = d {
                lemma_mentions(*value, id);
            }
        }
        assert forall|d: Expr, i: int, y: Expr|
            met.contains(d) && 0 <= i < children_of(d).len() && !(#[trigger] enters(d, i))
                && #[trigger] in_expr(children_of(d)[i], y) implies fine(y) by {
            assert(!gives(d).contains(id));
            assert(escaping_news::is_understood(d));
            assert(children_of(d)[i] is LocalGet);
            lemma_leaf(children_of(d)[i], y);
        }
        assert(!at_block(stmts, get)) by {
            lemma_at_block(stmts, get);
            if at_block(stmts, get) {
                lemma_each_holds(es, enters, get);
                let k = choose|k: int| 0 <= k < es.len() && es[k] == get;
                lemma_visit_holds(es[k], enters, get);
                assert(visit(es[k], enters).contains(get));
            }
        }
        assert forall|d: Expr| #[trigger] in_block(stmts, d) implies keeps_instance(
            d,
            id,
            class,
            cs,
        ) by {
            lemma_block_all(stmts, enters, fine, d);
        }
    }
    if instance_stays(stmts, id, class, cs) {
        assert forall|k: int| 0 <= k < met.len() implies !(#[trigger] gives(met[k]).contains(id)) by {
            let d = met[k];
            assert(met.contains(d));
            lemma_met_stands(stmts, enters, d);
            assert(keeps_instance(d, id, class, cs));
            match d {
                Expr::LocalGet(x) => {
                    if x == id {
                        lemma_block_parent(stmts, enters, get);
                        let (p, i) = choose|p: Expr, i: int|
                            met.contains(p) && 0 <= i < children_of(p).len() && #[trigger] enters(
                                p,
                                i,
                            ) && children_of(p)[i] == get;
                        lemma_met_stands(stmts, enters, p);
                        assert(keeps_instance(p, id, class, cs));
                        lemma_parts(p);
                        if let Expr::Closure { func_id, body, captures, captures_this } = p {
                            lemma_at_block(body@, get);
                            assert(block_exprs(body@).contains(get));
                        } else {
                            assert(parts(p)[i] == get);
                        }
                    }
                },
                Expr::PropertySet { object, property, value } => {
                    if let Some(x) = candidate(*object, candidates) {
                        lemma_mentions(*value, x);
                    }
                },
                _ => {},
            }
        }
    }
}

/// Nothing stands in a read of a local but itself.
proof fn lemma_leaf(e: Expr, y: Expr)
    requires
        e is LocalGet,
        in_expr(e, y),
    ensures
        y == e,
{
    lemma_expr_met(e, y);
    lemma_visit_holds(e, everywhere(), y);
}

// ---- arrays ----

/// Whether a local stands in `d` only as an array that is read at a constant index
/// within its length, or whose length is read.
pub open spec fn only_as_array(d: Expr, id: u32, len: u32) -> bool {
    forall|i: int|
        0 <= i < parts(d).len() && #[trigger] parts(d)[i] == Expr::LocalGet(id) ==> i == 0
            && match d {
            Expr::IndexGet { object, index } => escaping_arrays::constant_index(
                *index,
            ) matches Some(k) && k < len,
            Expr::PropertyGet { object, property } => property@ == "length"@,
            _ => false,
        }
}

/// Whether an expression does to the array that a local holds nothing but read it at
/// constant indices and read its length. An operation that the analysis does not know
/// must not name the local at all.
pub open spec fn keeps_array(d: Expr, id: u32, len: u32) -> bool {
    if escaping_arrays::is_understood(d) {
        only_as_array(d, id, len) && !takes(d, id)
    } else {
        forall|x: Expr| #[trigger] in_expr(d, x) ==> !names(x, id)
    }
}

/// Whether a program does to the array that a local holds nothing but read it at
/// constant indices and read its length.
pub open spec fn array_stays(stmts: Seq<Stmt>, id: u32, len: u32) -> bool {
    &&& !at_block(stmts, Expr::LocalGet(id))
    &&& forall|d: Expr| #[trigger] in_block(stmts, d) ==> keeps_array(d, id, len)
}

/// Where nothing in an expression names a local, nothing in it does anything with it.
proof fn lemma_unnamed(d: Expr, id: u32, len: u32, y: Expr)
    requires
        forall|x: Expr| #[trigger] in_expr(d, x) ==> !names(x, id),
        in_expr(d, y),
    ensures
        keeps_array(y, id, len),
{
    let get = Expr::LocalGet(id);
    assert forall|x: Expr| #[trigger] in_expr(y, x) implies !names(x, id) by {
        lemma_in_trans(d, y, x);
    }
    lemma_parts(y);
    assert forall|i: int| 0 <= i < parts(y).len() implies #[trigger] parts(y)[i] != get by {
        if !(y is Closure) {
            lemma_child_in(y, i);
            assert(!names(children_of(y)[i], id));
        }
    }
    assert(!names(y, id));
    if let Expr::Closure { func_id, body, captures, captures_this } = y {
        if at_block(body@, get) {
            lemma_at_block(body@, get);
            let i = choose|i: int| 0 <= i < block_exprs(body@).len() && block_exprs(body@)[i] == get;
            lemma_child_in(y, i);
            assert(!names(children_of(y)[i], id));
        }
    }
}

/// An array does not escape exactly where the program does nothing with it but read it
/// at constant indices within its length and read its length.
pub proof fn lemma_array_confined(stmts: Seq<Stmt>, candidates: Map<u32, u32>, id: u32)
    requires
        candidates.dom().contains(id),
    ensures
        !escaping_arrays::escaping(stmts, candidates).contains(id) <==> array_stays(
            stmts,
            id,
            candidates[id],
        ),
{
    let enters = escaping_arrays::escape_enter(candidates);
    let gives = escaping_arrays::escape_give(candidates);
    let es = block_exprs(stmts);
    let met = visit_each(es, enters);
    let len = candidates[id];
    let get = Expr::LocalGet(id);
    let fine = |d: Expr| d is LocalGet || keeps_array(d, id, len);
    if !escaping_arrays::escaping(stmts, candidates).contains(id) {
        assert forall|d: Expr| #[trigger] met.contains(d) implies !gives(d).contains(id) by {
            let k = choose|k: int| 0 <= k < met.len() && met[k] == d;
            if gives(met[k]).contains(id) {
                assert(contributed(met, gives).contains(id));
            }
        }
        assert(!met.contains(get)) by {
            if met.contains(get) {
                assert(gives(get).contains(id));
            }
        }
        assert forall|d: Expr| #[trigger] met.contains(d) implies fine(d) by {
            assert(!gives(d).contains(id));
            lemma_parts(d);
            if escaping_arrays::is_understood(d) {
                assert forall|i: int|
                    0 <= i < parts(d).len() && #[trigger] parts(d)[i] == get implies i == 0
                    && match d {
                    Expr::IndexGet { object, index } => escaping_arrays::constant_index(
                        *index,
                    ) matches Some(k) && k < len,
                    Expr::PropertyGet { object, property } => property@ == "length"@,
                    _ => false,
                } by {
                    assert(!(d is Closure));
                    assert(children_of(d)[i] == get);
                    if enters(d, i) {
                        lemma_each_goes_on(es, enters, d, i);
                    }
                }
                if let Expr::Closure { func_id, body, captures, captures_this } = d {
                    if captures@.contains(id) {
                        assert(captures@.to_set().contains(id));
                    }
                    if at_block(body@, get) {
                        lemma_at_block(body@, get);
                        let i = choose|i: int|
                            0 <= i < block_exprs(body@).len() && block_exprs(body@)[i] == get;
                        assert(enters(d, i));
                        lemma_each_goes_on(es, enters, d, i);
                    }
                }
            } else {
                lemma_refers(d, id);
            }
        }
        assert forall|d: Expr, i: int, y: Expr|
            met.contains(d) && 0 <= i < children_of(d).len() && !(#[trigger] enters(d, i))
                && #[trigger] in_expr(children_of(d)[i], y) implies fine(y) by {
            assert(!gives(d).contains(id));
            if escaping_arrays::is_understood(d) {
                assert(children_of(d)[i] is LocalGet);
                lemma_leaf(children_of(d)[i], y);
            } else {
                lemma_refers(d, id);
                lemma_child_in(d, i);
                lemma_in_trans(d, children_of(d)[i], y);
                lemma_unnamed(d, id, len, y);
            }
        }
        assert(!at_block(stmts, get)) by {
            lemma_at_block(stmts, get);
            if at_block(stmts, get) {
                lemma_each_holds(es, enters, get);
                let k = choose|k: int| 0 <= k < es.len() && es[k] == get;
                lemma_visit_holds(es[k], enters, get);
                assert(visit(es[k], enters).contains(get));
            }
        }
        assert forall|d: Expr| #[trigger] in_block(stmts, d) implies keeps_array(d, id, len) by {
            lemma_block_all(stmts, enters, fine, d);
        }
    }
    if array_stays(stmts, id, len) {
        assert forall|k: int| 0 <= k < met.len() implies !(#[trigger] gives(met[k]).contains(id)) by {
            let d = met[k];
            assert(met.contains(d));
            lemma_met_stands(stmts, enters, d);
            assert(keeps_array(d, id, len));
            lemma_parts(d);
            if !escaping_arrays::is_understood(d) {
                lemma_refers(d, id);
            } else {
                match d {
                    Expr::LocalGet(x) => {
                        if x == id {
                            lemma_block_parent(stmts, enters, get);
                            let (p, i) = choose|p: Expr, i: int|
                                met.contains(p) && 0 <= i < children_of(p).len()
                                    && #[trigger] enters(p, i) && children_of(p)[i] == get;
                            lemma_met_stands(stmts, enters, p);
                            assert(keeps_array(p, id, len));
                            lemma_parts(p);
                            if let Expr::Closure { func_id, body, captures, captures_this } = p {
                                lemma_at_block(body@, get);
                                assert(block_exprs(body@).contains(get));
                            } else {
                                assert(parts(p)[i] == get);
                            }
                        }
                    },
                    Expr::IndexGet { object, index } => {
                        assert(parts(d)[0] == *object);
                    },
                    Expr::IndexSet { object, index, value } => {
                        assert(parts(d)[0] == *object);
                    },
                    Expr::IndexUpdate { object, index } => {
                        assert(parts(d)[0] == *object);
                    },
                    _ => {},
                }
            }
        }
    }
}

// ---- object literals ----

/// Whether `d` reaches for a key that an object lacks, or stores the object in itself.
pub open spec fn needs_object(d: Expr, id: u32, keys: Seq<Seq<char>>) -> bool {
    match d {
        Expr::PropertyGet { object, property } => *object == Expr::LocalGet(id) && !keys.contains(
            property@,
        ),
        Expr::PropertySet { object, property, value } => *object == Expr::LocalGet(id) && (
        !keys.contains(property@) || is_read_in(*value, id)),
        Expr::PropertyUpdate { object, property } => *object == Expr::LocalGet(id)
            && !keys.contains(property@),
        _ => false,
    }
}

/// Whether an expression does to the object that a local holds nothing but read, set
/// or update it at its keys.
pub open spec fn keeps_object(d: Expr, id: u32, keys: Seq<Seq<char>>) -> bool {
    &&& escaping_objects::is_understood(d)
    &&& only_as_object(d, id)
    &&& !takes(d, id)
    &&& !needs_object(d, id, keys)
}

/// Whether a program does to the object that a local holds nothing but read, set or
/// update it at its keys.
pub open spec fn object_stays(stmts: Seq<Stmt>, id: u32, keys: Seq<Seq<char>>) -> bool {
    &&& !at_block(stmts, Expr::LocalGet(id))
    &&& forall|d: Expr| #[trigger] in_block(stmts, d) ==> keeps_object(d, id, keys)
}

/// An object does not escape exactly where the program does nothing with it but read,
/// set or update it at its keys.
pub proof fn lemma_object_confined(
    stmts: Seq<Stmt>,
    candidates: Map<u32, Seq<Seq<char>>>,
    id: u32,
)
    requires
        candidates.dom().contains(id),
    ensures
        !escaping_objects::escaping(stmts, candidates).contains(id) <==> object_stays(
            stmts,
            id,
            candidates[id],
        ),
{
    let enters = escaping_objects::escape_enter(candidates);
    let gives = escaping_objects::escape_give(candidates);
    let es = block_exprs(stmts);
    let met = visit_each(es, enters);
    let keys = candidates[id];
    let get = Expr::LocalGet(id);
    let fine = |d: Expr| d is LocalGet || keeps_object(d, id, keys);
    if !escaping_objects::escaping(stmts, candidates).contains(id) {
        assert forall|d: Expr| #[trigger] met.contains(d) implies !gives(d).contains(id) by {
            let k = choose|k: int| 0 <= k < met.len() && met[k] == d;
            if gives(met[k]).contains(id) {
                assert(contributed(met, gives).contains(id));
            }
        }
        assert(!met.contains(get)) by {
            if met.contains(get) {
                assert(gives(get).contains(id));
            }
        }
        assert forall|d: Expr| #[trigger] met.contains(d) implies fine(d) by {
            assert(!gives(d).contains(id));
            assert(escaping_objects::is_understood(d));
            lemma_parts(d);
            assert forall|i: int|
                0 <= i < parts(d).len() && #[trigger] parts(d)[i] == get implies i == 0 && (
            d is PropertyGet || d is PropertySet || d is PropertyUpdate) by {
                assert(!(d is Closure));
                assert(children_of(d)[i] == get);
                if enters(d, i) {
                    lemma_each_goes_on(es, enters, d, i);
                }
            }
            if let Expr::Closure { func_id, body, captures, captures_this } = d {
                if captures@.contains(id) {
                    assert(captures@.to_set().contains(id));
                }
                if at_block(body@, get) {
                    lemma_at_block(body@, get);
                    let i = choose|i: int| 0 <= i < block_exprs(body@).len() && block_exprs(body@)[i]
                        == get;
                    assert(enters(d, i));
                    lemma_each_goes_on(es, enters, d, i);
                }
            }
            if let Expr::PropertySet { object, property, value } = d {
                lemma_mentions(*value, id);
            }
        }
        assert forall|d: Expr, i: int, y: Expr|
            met.contains(d) && 0 <= i < children_of(d).len() && !(#[trigger] enters(d, i))
                && #[trigger] in_expr(children_of(d)[i], y) implies fine(y) by {
            assert(!gives(d).contains(id));
            assert(escaping_objects::is_understood(d));
            assert(children_of(d)[i] is LocalGet);
            lemma_leaf(children_of(d)[i], y);
        }
        assert(!at_block(stmts, get)) by {
            lemma_at_block(stmts, get);
            if at_block(stmts, get) {
                lemma_each_holds(es, enters, get);
                let k = choose|k: int| 0 <= k < es.len() && es[k] == get;
                lemma_visit_holds(es[k], enters, get);
                assert(visit(es[k], enters).contains(get));
            }
        }
        assert forall|d: Expr| #[trigger] in_block(stmts, d) implies keeps_object(d, id, keys) by {
            lemma_block_all(stmts, enters, fine, d);
        }
    }
    if object_stays(stmts, id, keys) {
        assert forall|k: int| 0 <= k < met.len() implies !(#[trigger] gives(met[k]).contains(id)) by {
            let d = met[k];
            assert(met.contains(d));
            lemma_met_stands(stmts, enters, d);
            assert(keeps_object(d, id, keys));
            match d {
                Expr::LocalGet(x) => {
                    if x == id {
                        lemma_block_parent(stmts, enters, get);
                        let (p, i) = choose|p: Expr, i: int|
                            met.contains(p) && 0 <= i < children_of(p).len() && #[trigger] enters(
                                p,
                                i,
                            ) && children_of(p)[i] == get;
                        lemma_met_stands(stmts, enters, p);
                        assert(keeps_object(p, id, keys));
                        lemma_parts(p);
                        if let Expr::Closure { func_id, body, captures, captures_this } = p {
                            lemma_at_block(body@, get);
                            assert(block_exprs(body@).contains(get));
                        } else {
                            assert(parts(p)[i] == get);
                        }
                    }
                },
                Expr::PropertySet { object, property, value } => {
                    if let Some(x) = candidate(*object, candidates) {
                        lemma_mentions(*value, x);
                    }
                },
                _ => {},
            }
        }
    }
}

// ---- what the analyses know ----

/// The everyday forms of expressions.
pub open spec fn is_everyday(d: Expr) -> bool {
    match d {
        Expr::IndexUpdate { .. }
        | Expr::IndexRead { .. }
        | Expr::IndexWrite { .. }
        | Expr::OnLocal { .. } => false,
        Expr::Node { op, operands } => match op {
            Op::Await
            | Op::BooleanCoerce
            | Op::Conditional
            | Op::Delete
            | Op::Logical
            | Op::NumberCoerce
            | Op::Sequence
            | Op::StringCoerce
            | Op::TypeOf
            | Op::Unary
            | Op::Void
            | Op::Bool
            | Op::Null
            | Op::Undefined => true,
            _ => false,
        },
        _ => true,
    }
}

/// The analyses know the everyday forms of expressions, and none of them claims to
/// know an operation that nobody singled out.
pub proof fn lemma_what_is_known(d: Expr)
    ensures
        is_everyday(d) ==> escaping_news::is_understood(d) && escaping_arrays::is_understood(d)
            && escaping_objects::is_understood(d),
        d matches Expr::Node { op, operands } && op == Op::Other ==> !escaping_news::is_understood(
            d,
        ) && !escaping_arrays::is_understood(d) && !escaping_objects::is_understood(d),
{
}

// ---- what is a candidate ----

/// The candidates among instances are the locals that a `let` of the program binds to
/// a `new`, but for those that are boxed or global.
pub proof fn lemma_new_bound(ss: Seq<Stmt>, taken: Set<u32>, id: u32)
    ensures
        escaping_news::new_bindings(ss, taken).dom().contains(id) <==> !taken.contains(id)
            && exists|k: int| 0 <= k < ss.len() && #[trigger] binds_new(ss[k], id) is Some,
        escaping_news::new_bindings(ss, taken).dom().contains(id) ==> exists|k: int|
            0 <= k < ss.len() && #[trigger] binds_new(ss[k], id) == Some(
                escaping_news::new_bindings(ss, taken)[id],
            ),
    decreases ss.len(),
{
    if ss.len() > 0 {
        let front = ss.drop_last();
        lemma_new_bound(front, taken, id);
        let last = ss.len() - 1;
        assert forall|k: int| 0 <= k < front.len() implies #[trigger] ss[k] == front[k] by {}
        if escaping_news::new_bindings(front, taken).dom().contains(id) {
            let k = choose|k: int|
                0 <= k < front.len() && #[trigger] binds_new(front[k], id) == Some(
                    escaping_news::new_bindings(front, taken)[id],
                );
            assert(binds_new(ss[k], id) == binds_new(front[k], id));
        }
        if exists|k: int| 0 <= k < ss.len() && #[trigger] binds_new(ss[k], id) is Some {
            let k = choose|k: int| 0 <= k < ss.len() && #[trigger] binds_new(ss[k], id) is Some;
            if k < last {
                assert(binds_new(front[k], id) is Some);
            }
        }
        if binds_new(ss[last], id) is Some {
            assert(0 <= last < ss.len());
        }
    }
}

/// The class whose instance a statement binds to a local.
pub open spec fn binds_new(s: Stmt, id: u32) -> Option<Seq<char>> {
    match s {
        Stmt::Let { id: x, ty, mutable, init: Some(Expr::New { class_name, args }) } => if x == id {
            Some(class_name@)
        } else {
            None
        },
        _ => None,
    }
}

/// The length of the array literal that a statement binds to a local, where it has one
/// to sixteen elements.
pub open spec fn binds_array(s: Stmt, id: u32) -> Option<int> {
    match s {
        Stmt::Let { id: x, ty, mutable, init: Some(Expr::Array(elements)) } => if x == id && 1
            <= elements@.len() <= 16 {
            Some(elements@.len() as int)
        } else {
            None
        },
        _ => None,
    }
}

/// The candidates among arrays are the locals that a `let` of the program binds to an
/// array literal of one to sixteen elements, but for those that are boxed or global.
pub proof fn lemma_array_bound(ss: Seq<Stmt>, taken: Set<u32>, id: u32)
    ensures
        escaping_arrays::array_bindings(ss, taken).dom().contains(id) <==> !taken.contains(id)
            && exists|k: int| 0 <= k < ss.len() && #[trigger] binds_array(ss[k], id) is Some,
        escaping_arrays::array_bindings(ss, taken).dom().contains(id) ==> exists|k: int|
            0 <= k < ss.len() && #[trigger] binds_array(ss[k], id) == Some(
                escaping_arrays::array_bindings(ss, taken)[id] as int,
            ),
    decreases ss.len(),
{
    if ss.len() > 0 {
        let front = ss.drop_last();
        lemma_array_bound(front, taken, id);
        let last = ss.len() - 1;
        assert forall|k: int| 0 <= k < front.len() implies #[trigger] ss[k] == front[k] by {}
        if escaping_arrays::array_bindings(front, taken).dom().contains(id) {
            let k = choose|k: int|
                0 <= k < front.len() && #[trigger] binds_array(front[k], id) == Some(
                    escaping_arrays::array_bindings(front, taken)[id] as int,
                );
            assert(binds_array(ss[k], id) == binds_array(front[k], id));
        }
        if exists|k: int| 0 <= k < ss.len() && #[trigger] binds_array(ss[k], id) is Some {
            let k = choose|k: int| 0 <= k < ss.len() && #[trigger] binds_array(ss[k], id) is Some;
            if k < last {
                assert(binds_array(front[k], id) is Some);
            }
        }
        if binds_array(ss[last], id) is Some {
            assert(0 <= last < ss.len());
        }
    }
}

/// Whether a statement binds a local to an object literal of one to sixteen properties,
/// none of them a closure that captures `this`, whose keys are the given ones.
pub open spec fn binds_object(s: Stmt, id: u32, keys: Seq<Seq<char>>) -> bool {
    s matches Stmt::Let { id: x, ty, mutable, init: Some(Expr::Object(props)) } && x == id && 1
        <= props@.len() <= 16 && (forall|i: int|
        0 <= i < props@.len() ==> !((#[trigger] props@[i]).1 matches Expr::Closure {
            func_id,
            body,
            captures,
            captures_this,
        } && captures_this)) && keys.no_duplicates() && (forall|i: int|
        0 <= i < props@.len() ==> keys.contains((#[trigger] props@[i]).0@)) && (forall|i: int|
        0 <= i < keys.len() ==> exists|j: int|
            0 <= j < props@.len() && (#[trigger] props@[j]).0@ == #[trigger] keys[i])
}

proof fn lemma_distinct_keys(props: Seq<(String, Expr)>)
    ensures
        escaping_objects::distinct_keys(props).no_duplicates(),
        forall|i: int|
            0 <= i < props.len() ==> escaping_objects::distinct_keys(props).contains(
                (#[trigger] props[i]).0@,
            ),
        forall|i: int|
            0 <= i < escaping_objects::distinct_keys(props).len() ==> exists|j: int|
                0 <= j < props.len() && (#[trigger] props[j]).0@
                    == #[trigger] escaping_objects::distinct_keys(props)[i],
    decreases props.len(),
{
    if props.len() > 0 {
        let front = props.drop_last();
        lemma_distinct_keys(front);
        let before = escaping_objects::distinct_keys(front);
        let all = escaping_objects::distinct_keys(props);
        let last = props.last().0@;
        assert forall|x: Seq<char>| before.contains(x) implies #[trigger] all.contains(x) by {
            let k = choose|k: int| 0 <= k < before.len() && before[k] == x;
            assert(all[k] == x);
        }
        assert(all.contains(last)) by {
            if !before.contains(last) {
                assert(all[all.len() - 1] == last);
            }
        }
        assert forall|i: int| 0 <= i < props.len() implies all.contains((#[trigger] props[i]).0@) by {
            if i < front.len() {
                assert(front[i] == props[i]);
                assert(before.contains(front[i].0@));
            }
        }
        assert forall|i: int| 0 <= i < all.len() implies exists|j: int|
            0 <= j < props.len() && (#[trigger] props[j]).0@ == #[trigger] all[i] by {
            if i < before.len() {
                assert(all[i] == before[i]);
                let j = choose|j: int|
                    0 <= j < front.len() && (#[trigger] front[j]).0@ == before[i];
                assert(props[j].0@ == all[i]);
            } else {
                assert(props[props.len() - 1].0@ == all[i]);
            }
        }
    }
}

/// The candidates among objects are the locals that a `let` of the program binds to a
/// fitting object literal, each with the keys of such a literal, but for those that are
/// boxed or global.
pub proof fn lemma_object_bound(ss: Seq<Stmt>, taken: Set<u32>, id: u32)
    ensures
        escaping_objects::object_bindings(ss, taken).dom().contains(id) ==> !taken.contains(id)
            && exists|k: int|
            0 <= k < ss.len() && #[trigger] binds_object(
                ss[k],
                id,
                escaping_objects::object_bindings(ss, taken)[id],
            ),
        forall|k: int, keys: Seq<Seq<char>>|
            0 <= k < ss.len() && #[trigger] binds_object(ss[k], id, keys) && !taken.contains(id)
                ==> escaping_objects::object_bindings(ss, taken).dom().contains(id),
    decreases ss.len(),
{
    if ss.len() > 0 {
        let front = ss.drop_last();
        lemma_object_bound(front, taken, id);
        let last = ss.len() - 1;
        let before = escaping_objects::object_bindings(front, taken);
        let all = escaping_objects::object_bindings(ss, taken);
        assert forall|k: int| 0 <= k < front.len() implies #[trigger] ss[k] == front[k] by {}
        if let Stmt::Let { id: x, ty, mutable, init: Some(Expr::Object(props)) } = ss[last] {
            lemma_distinct_keys(props@);
            if all.dom().contains(id) && x == id && escaping_objects::is_scalar_literal(props@)
                && !taken.contains(id) {
                assert(binds_object(ss[last], id, all[id]));
            }
        }
        if all.dom().contains(id) && before.dom().contains(id) && all[id] == before[id] {
            let k = choose|k: int|
                0 <= k < front.len() && #[trigger] binds_object(front[k], id, before[id]);
            assert(binds_object(ss[k], id, all[id]));
        }
        assert forall|k: int, keys: Seq<Seq<char>>|
            0 <= k < ss.len() && #[trigger] binds_object(ss[k], id, keys) && !taken.contains(
                id,
            ) implies all.dom().contains(id) by {
            if k < last {
                assert(binds_object(front[k], id, keys));
            } else if let Stmt::Let { id: x, ty, mutable, init: Some(Expr::Object(props)) } =
                ss[last] {
                assert(escaping_objects::is_scalar_literal(props@)) by {
                    if escaping_objects::has_this_closure(props@) {
                        let i = choose|i: int|
                            0 <= i < props@.len() && ((#[trigger] props@[i]).1 matches Expr::Closure {
                                captures_this,
                                ..
                            } && captures_this);
                        assert(0 <= i < props@.len());
                    }
                }
            }
        }
    }
}

// ---- what the analyses keep ----

/// Whether a local is bound to an instance of a class by a `let` of the program.
pub open spec fn is_made(stmts: Seq<Stmt>, id: u32, class: Seq<char>) -> bool {
    exists|s: Stmt| within(stmts, s) && #[trigger] binds_new(s, id) == Some(class)
}

/// Whether a local is bound to an array literal of a length by a `let` of the program.
pub open spec fn is_array(stmts: Seq<Stmt>, id: u32, len: int) -> bool {
    exists|s: Stmt| within(stmts, s) && #[trigger] binds_array(s, id) == Some(len)
}

/// Whether a local is bound to an object literal with some keys by a `let` of the
/// program.
pub open spec fn is_object(stmts: Seq<Stmt>, id: u32, keys: Seq<Seq<char>>) -> bool {
    exists|s: Stmt| within(stmts, s) && #[trigger] binds_object(s, id, keys)
}

/// The instances that are kept are those that a `let` binds to a local of the function
/// alone, that can be constructed in place, and with which the program does nothing but
/// read, set or update their plain fields.
pub proof fn lemma_kept_instances(
    stmts: Seq<Stmt>,
    boxed: Set<u32>,
    globals: Set<u32>,
    cs: Seq<Class>,
    id: u32,
)
    ensures
        ({
            let c = escaping_news::new_candidates(stmts, boxed, globals);
            &&& c.dom().contains(id) <==> !boxed.contains(id) && !globals.contains(id) && exists|
                class: Seq<char>,
            | #[trigger] is_made(stmts, id, class)
            &&& c.dom().contains(id) ==> is_made(stmts, id, c[id])
            &&& escaping_news::stays_in_place(id, stmts, c, cs) <==> c.dom().contains(id)
                && instance_stays(stmts, id, c[id], cs) && escaping_news::constructs_in_place(
                cs,
                c[id],
            )
        }),
{
    let c = escaping_news::new_candidates(stmts, boxed, globals);
    let ss = block_stmts(stmts, true);
    let taken = boxed.union(globals);
    lemma_new_bound(ss, taken, id);
    if c.dom().contains(id) {
        lemma_instance_confined(stmts, c, cs, id);
        let k = choose|k: int| 0 <= k < ss.len() && #[trigger] binds_new(ss[k], id) == Some(c[id]);
        assert(ss.contains(ss[k]));
        lemma_within(stmts, ss[k]);
        assert(is_made(stmts, id, c[id]));
    }
    if exists|class: Seq<char>| #[trigger] is_made(stmts, id, class) {
        let class = choose|class: Seq<char>| #[trigger] is_made(stmts, id, class);
        let s = choose|s: Stmt| within(stmts, s) && #[trigger] binds_new(s, id) == Some(class);
        lemma_within(stmts, s);
        let k = choose|k: int| 0 <= k < ss.len() && ss[k] == s;
        assert(binds_new(ss[k], id) is Some);
    }
}

/// The arrays that are kept are those that a `let` binds to a local of the function
/// alone and with which the program does nothing but read them at constant indices and
/// read their length.
pub proof fn lemma_kept_arrays(stmts: Seq<Stmt>, boxed: Set<u32>, globals: Set<u32>, id: u32)
    ensures
        ({
            let c = escaping_arrays::array_candidates(stmts, boxed, globals);
            &&& c.dom().contains(id) <==> !boxed.contains(id) && !globals.contains(id) && exists|
                len: int,
            | #[trigger] is_array(stmts, id, len)
            &&& c.dom().contains(id) ==> is_array(stmts, id, c[id] as int)
            &&& c.remove_keys(escaping_arrays::escaping(stmts, c)).dom().contains(id)
                <==> c.dom().contains(id) && array_stays(stmts, id, c[id])
        }),
{
    let c = escaping_arrays::array_candidates(stmts, boxed, globals);
    let ss = block_stmts(stmts, true);
    let taken = boxed.union(globals);
    lemma_array_bound(ss, taken, id);
    if c.dom().contains(id) {
        lemma_array_confined(stmts, c, id);
        let k = choose|k: int|
            0 <= k < ss.len() && #[trigger] binds_array(ss[k], id) == Some(c[id] as int);
        assert(ss.contains(ss[k]));
        lemma_within(stmts, ss[k]);
        assert(is_array(stmts, id, c[id] as int));
    }
    if exists|len: int| #[trigger] is_array(stmts, id, len) {
        let len = choose|len: int| #[trigger] is_array(stmts, id, len);
        let s = choose|s: Stmt| within(stmts, s) && #[trigger] binds_array(s, id) == Some(len);
        lemma_within(stmts, s);
        let k = choose|k: int| 0 <= k < ss.len() && ss[k] == s;
        assert(binds_array(ss[k], id) is Some);
    }
}

/// The objects that are kept are those that a `let` binds to a local of the function
/// alone and with which the program does nothing but read, set or update them at their
/// keys.
pub proof fn lemma_kept_objects(stmts: Seq<Stmt>, boxed: Set<u32>, globals: Set<u32>, id: u32)
    ensures
        ({
            let c = escaping_objects::object_candidates(stmts, boxed, globals);
            &&& c.dom().contains(id) <==> !boxed.contains(id) && !globals.contains(id) && exists|
                keys: Seq<Seq<char>>,
            | #[trigger] is_object(stmts, id, keys)
            &&& c.dom().contains(id) ==> is_object(stmts, id, c[id])
            &&& c.remove_keys(escaping_objects::escaping(stmts, c)).dom().contains(id)
                <==> c.dom().contains(id) && object_stays(stmts, id, c[id])
        }),
{
    let c = escaping_objects::object_candidates(stmts, boxed, globals);
    let ss = block_stmts(stmts, true);
    let taken = boxed.union(globals);
    lemma_object_bound(ss, taken, id);
    if c.dom().contains(id) {
        lemma_object_confined(stmts, c, id);
        let k = choose|k: int| 0 <= k < ss.len() && #[trigger] binds_object(ss[k], id, c[id]);
        assert(ss.contains(ss[k]));
        lemma_within(stmts, ss[k]);
        assert(is_object(stmts, id, c[id]));
    }
    if exists|keys: Seq<Seq<char>>| #[trigger] is_object(stmts, id, keys) {
        let keys = choose|keys: Seq<Seq<char>>| #[trigger] is_object(stmts, id, keys);
        let s = choose|s: Stmt| within(stmts, s) && #[trigger] binds_object(s, id, keys);
        lemma_within(stmts, s);
        let k = choose|k: int| 0 <= k < ss.len() && ss[k] == s;
        assert(binds_object(ss[k], id, keys));
    }
}

} // verus!

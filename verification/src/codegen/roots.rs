//! Which locals have a slot of their own among the roots: all that may hold a heap
//! pointer, wherever they are declared, and no others.
use vstd::prelude::*;
use crate::codegen::confinement::{within, within_cases, within_stmt};
use crate::codegen::hir::{Param, Stmt, SwitchCase, Type};
use crate::codegen::pointers::{
    any_may_point, case_pointer_locals, may_point, pointer_locals, pointer_params, slots,
    stmt_pointer_locals,
};

verus! {

broadcast use vstd::std_specs::vec::group_vec_axioms;

/// Whether a value of a type is one that is never kept on the heap: a number, a truth
/// value, a symbol, nothing at all, or, where the type is one of several, each of them.
pub open spec fn is_immediate(ty: Type) -> bool
    decreases ty,
{
    match ty {
        Type::Number
        | Type::Int32
        | Type::Boolean
        | Type::Symbol
        | Type::Null
        | Type::Void
        | Type::Never
        | Type::TypeVar => true,
        Type::Union(variants) => forall|i: int|
            0 <= i < variants@.len() ==> is_immediate(#[trigger] variants@[i]),
        _ => false,
    }
}

/// A type may be that of a heap pointer exactly where its values are not all immediate.
pub proof fn lemma_points_told(ty: Type)
    ensures
        may_point(ty) <==> !is_immediate(ty),
    decreases ty,
{
    if let Type::Union(variants) = ty {
        lemma_any_points_told(variants@);
    }
}

proof fn lemma_any_points_told(tys: Seq<Type>)
    ensures
        any_may_point(tys) <==> exists|i: int|
            0 <= i < tys.len() && !is_immediate(#[trigger] tys[i]),
    decreases tys,
{
    if tys.len() > 0 {
        let front = tys.drop_last();
        lemma_any_points_told(front);
        lemma_points_told(tys.last());
        if any_may_point(front) {
            let i = choose|i: int|
                0 <= i < front.len() && !is_immediate(#[trigger] front[i]);
            assert(front[i] == tys[i]);
            assert(!is_immediate(tys[i]));
        }
        if may_point(tys.last()) {
            assert(!is_immediate(tys[tys.len() - 1]));
        }
        if exists|i: int| 0 <= i < tys.len() && !is_immediate(#[trigger] tys[i]) {
            let i = choose|i: int|
                0 <= i < tys.len() && !is_immediate(#[trigger] tys[i]);
            if i < front.len() {
                assert(front[i] == tys[i]);
                assert(!is_immediate(front[i]));
            }
        }
    }
}

/// Whether a statement itself declares a local that may hold a heap pointer: with a
/// type that may be one of a pointer, or to hold what is caught.
pub open spec fn declares_root(s: Stmt, id: u32) -> bool {
    match s {
        Stmt::Let { id: i, ty, mutable, init } => i == id && !is_immediate(ty),
        Stmt::Try { body, catch, finally } => catch matches Some(c) && c.param == Some(id),
        _ => false,
    }
}

/// Whether a local that may hold a heap pointer is declared in a statement.
pub open spec fn root_in_stmt(s: Stmt, id: u32) -> bool {
    exists|t: Stmt| #[trigger] within_stmt(s, t) && declares_root(t, id)
}

/// Whether a local that may hold a heap pointer is declared in a block.
pub open spec fn root_in(ss: Seq<Stmt>, id: u32) -> bool {
    exists|t: Stmt| #[trigger] within(ss, t) && declares_root(t, id)
}

pub open spec fn root_in_cases(cs: Seq<SwitchCase>, id: u32) -> bool {
    exists|t: Stmt| #[trigger] within_cases(cs, t) && declares_root(t, id)
}

proof fn lemma_either(a: Seq<u32>, b: Seq<u32>, id: u32)
    ensures
        (a + b).contains(id) <==> a.contains(id) || b.contains(id),
{
    let all = a + b;
    if a.contains(id) {
        let i = choose|i: int| 0 <= i < a.len() && a[i] == id;
        assert(all[i] == id);
    }
    if b.contains(id) {
        let i = choose|i: int| 0 <= i < b.len() && b[i] == id;
        assert(all[a.len() + i] == id);
    }
    if all.contains(id) {
        let i = choose|i: int| 0 <= i < all.len() && all[i] == id;
        if i < a.len() {
            assert(a[i] == id);
        } else {
            assert(b[i - a.len()] == id);
        }
    }
}

proof fn lemma_one(x: u32, id: u32)
    ensures
        seq![x].contains(id) <==> x == id,
{
    assert(seq![x][0] == x);
}

proof fn lemma_stmt_roots(s: Stmt, id: u32)
    ensures
        stmt_pointer_locals(s).contains(id) <==> root_in_stmt(s, id),
    decreases s,
{
    assert(within_stmt(s, s));
    match s {
        Stmt::Let { id: i, ty, mutable, init } => {
            lemma_points_told(ty);
            lemma_one(i, id);
            if root_in_stmt(s, id) {
                let t = choose|t: Stmt| #[trigger] within_stmt(s, t) && declares_root(t, id);
                assert(t == s);
            }
        },
        Stmt::If { condition, then_branch, else_branch } => {
            lemma_roots(then_branch@, id);
            let more = match else_branch {
                Some(b) => {
                    lemma_roots(b@, id);
                    pointer_locals(b@)
                },
                None => Seq::empty(),
            };
            lemma_either(pointer_locals(then_branch@), more, id);
            lemma_if(s, id);
        },
        Stmt::While { condition, body } => {
            lemma_roots(body@, id);
            lemma_body(s, body@, id);
        },
        Stmt::DoWhile { body, condition } => {
            lemma_roots(body@, id);
            lemma_body(s, body@, id);
        },
        Stmt::For { init, condition, update, body } => {
            lemma_roots(body@, id);
            let first = match init {
                Some(i) => {
                    lemma_stmt_roots(*i, id);
                    stmt_pointer_locals(*i)
                },
                None => Seq::empty(),
            };
            lemma_either(first, pointer_locals(body@), id);
            lemma_for(s, id);
        },
        Stmt::Try { body, catch, finally } => {
            lemma_roots(body@, id);
            let caught = match catch {
                Some(c) => {
                    lemma_roots(c.body@, id);
                    let own = match c.param {
                        Some(p) => {
                            lemma_one(p, id);
                            seq![p]
                        },
                        None => Seq::empty(),
                    };
                    lemma_either(own, pointer_locals(c.body@), id);
                    own + pointer_locals(c.body@)
                },
                None => Seq::empty(),
            };
            let last = match finally {
                Some(f) => {
                    lemma_roots(f@, id);
                    pointer_locals(f@)
                },
                None => Seq::empty(),
            };
            lemma_either(pointer_locals(body@), caught, id);
            lemma_either(pointer_locals(body@) + caught, last, id);
            lemma_try(s, id);
        },
        Stmt::Switch { discriminant, cases } => {
            lemma_case_roots(cases@, id);
            if root_in_cases(cases@, id) {
                let t = choose|t: Stmt| #[trigger] within_cases(cases@, t) && declares_root(t, id);
                assert(within_stmt(s, t));
            }
            if root_in_stmt(s, id) {
                let t = choose|t: Stmt| #[trigger] within_stmt(s, t) && declares_root(t, id);
                assert(within_cases(cases@, t));
            }
        },
        Stmt::Labeled { label, body } => {
            lemma_stmt_roots(*body, id);
            if root_in_stmt(*body, id) {
                let t = choose|t: Stmt| #[trigger] within_stmt(*body, t) && declares_root(t, id);
                assert(within_stmt(s, t));
            }
            if root_in_stmt(s, id) {
                let t = choose|t: Stmt| #[trigger] within_stmt(s, t) && declares_root(t, id);
                assert(within_stmt(*body, t));
            }
        },
        _ => {
            if root_in_stmt(s, id) {
                let t = choose|t: Stmt| #[trigger] within_stmt(s, t) && declares_root(t, id);
                assert(t == s);
            }
        },
    }
}

proof fn lemma_if(s: Stmt, id: u32)
    requires
        s is If,
    ensures
        s matches Stmt::If { condition, then_branch, else_branch } && (root_in_stmt(s, id)
            <==> root_in(then_branch@, id) || (else_branch matches Some(b) && root_in(b@, id))),
{
    if let Stmt::If { condition, then_branch, else_branch } = s {
        if root_in_stmt(s, id) {
            let t = choose|t: Stmt| #[trigger] within_stmt(s, t) && declares_root(t, id);
            assert(within(then_branch@, t) || (else_branch matches Some(b) && within(b@, t)));
        }
        if root_in(then_branch@, id) {
            let t = choose|t: Stmt| #[trigger] within(then_branch@, t) && declares_root(t, id);
            assert(within_stmt(s, t));
        }
        if let Some(b) = else_branch {
            if root_in(b@, id) {
                let t = choose|t: Stmt| #[trigger] within(b@, t) && declares_root(t, id);
                assert(within_stmt(s, t));
            }
        }
    }
}

proof fn lemma_body(s: Stmt, body: Seq<Stmt>, id: u32)
    requires
        (s matches Stmt::While { condition, body: b } && b@ == body) || (
        s matches Stmt::DoWhile { body: b, condition } && b@ == body),
    ensures
        root_in_stmt(s, id) <==> root_in(body, id),
{
    if root_in_stmt(s, id) {
        let t = choose|t: Stmt| #[trigger] within_stmt(s, t) && declares_root(t, id);
        assert(within(body, t));
    }
    if root_in(body, id) {
        let t = choose|t: Stmt| #[trigger] within(body, t) && declares_root(t, id);
        assert(within_stmt(s, t));
    }
}

proof fn lemma_for(s: Stmt, id: u32)
    requires
        s is For,
    ensures
        s matches Stmt::For { init, condition, update, body } && (root_in_stmt(s, id) <==> (
        init matches Some(i) && root_in_stmt(*i, id)) || root_in(body@, id)),
{
    if let Stmt::For { init, condition, update, body } = s {
        if root_in_stmt(s, id) {
            let t = choose|t: Stmt| #[trigger] within_stmt(s, t) && declares_root(t, id);
            assert(within(body@, t) || (init matches Some(i) && within_stmt(*i, t)));
        }
        if root_in(body@, id) {
            let t = choose|t: Stmt| #[trigger] within(body@, t) && declares_root(t, id);
            assert(within_stmt(s, t));
        }
        if let Some(i) = init {
            if root_in_stmt(*i, id) {
                let t = choose|t: Stmt| #[trigger] within_stmt(*i, t) && declares_root(t, id);
                assert(within_stmt(s, t));
            }
        }
    }
}

proof fn lemma_try(s: Stmt, id: u32)
    requires
        s is Try,
    ensures
        s matches Stmt::Try { body, catch, finally } && (root_in_stmt(s, id) <==> root_in(
            body@,
            id,
        ) || (catch matches Some(c) && (c.param == Some(id) || root_in(c.body@, id))) || (
        finally matches Some(f) && root_in(f@, id))),
{
    assert(within_stmt(s, s));
    if let Stmt::Try { body, catch, finally } = s {
        if root_in_stmt(s, id) {
            let t = choose|t: Stmt| #[trigger] within_stmt(s, t) && declares_root(t, id);
            if t != s {
                assert(within(body@, t) || (catch matches Some(c) && within(c.body@, t)) || (
                finally matches Some(f) && within(f@, t)));
            }
        }
        if root_in(body@, id) {
            let t = choose|t: Stmt| #[trigger] within(body@, t) && declares_root(t, id);
            assert(within_stmt(s, t));
        }
        if let Some(c) = catch {
            if root_in(c.body@, id) {
                let t = choose|t: Stmt| #[trigger] within(c.body@, t) && declares_root(t, id);
                assert(within_stmt(s, t));
            }
        }
        if let Some(f) = finally {
            if root_in(f@, id) {
                let t = choose|t: Stmt| #[trigger] within(f@, t) && declares_root(t, id);
                assert(within_stmt(s, t));
            }
        }
    }
}

proof fn lemma_roots(ss: Seq<Stmt>, id: u32)
    ensures
        pointer_locals(ss).contains(id) <==> root_in(ss, id),
    decreases ss,
{
    if ss.len() > 0 {
        lemma_roots(ss.drop_last(), id);
        lemma_stmt_roots(ss.last(), id);
        lemma_either(pointer_locals(ss.drop_last()), stmt_pointer_locals(ss.last()), id);
        if root_in(ss, id) {
            let t = choose|t: Stmt| #[trigger] within(ss, t) && declares_root(t, id);
            assert(within(ss.drop_last(), t) || within_stmt(ss.last(), t));
        }
        if root_in(ss.drop_last(), id) {
            let t = choose|t: Stmt| #[trigger] within(ss.drop_last(), t) && declares_root(t, id);
            assert(within(ss, t));
        }
        if root_in_stmt(ss.last(), id) {
            let t = choose|t: Stmt| #[trigger] within_stmt(ss.last(), t) && declares_root(t, id);
            assert(within(ss, t));
        }
    }
}

proof fn lemma_case_roots(cs: Seq<SwitchCase>, id: u32)
    ensures
        case_pointer_locals(cs).contains(id) <==> root_in_cases(cs, id),
    decreases cs,
{
    if cs.len() > 0 {
        let body = cs.last().body@;
        lemma_case_roots(cs.drop_last(), id);
        lemma_roots(body, id);
        lemma_either(case_pointer_locals(cs.drop_last()), pointer_locals(body), id);
        if root_in_cases(cs, id) {
            let t = choose|t: Stmt| #[trigger] within_cases(cs, t) && declares_root(t, id);
            assert(within_cases(cs.drop_last(), t) || within(body, t));
        }
        if root_in_cases(cs.drop_last(), id) {
            let t = choose|t: Stmt| #[trigger]
                within_cases(cs.drop_last(), t) && declares_root(t, id);
            assert(within_cases(cs, t));
        }
        if root_in(body, id) {
            let t = choose|t: Stmt| #[trigger] within(body, t) && declares_root(t, id);
            assert(within_cases(cs, t));
        }
    }
}

proof fn lemma_param_roots(params: Seq<Param>, id: u32)
    ensures
        pointer_params(params).contains(id) <==> exists|i: int|
            0 <= i < params.len() && (#[trigger] params[i]).id == id && !is_immediate(params[i].ty),
    decreases params.len(),
{
    if params.len() > 0 {
        let front = params.drop_last();
        let last = params.last();
        lemma_param_roots(front, id);
        lemma_points_told(last.ty);
        lemma_one(last.id, id);
        lemma_either(
            pointer_params(front),
            if may_point(last.ty) {
                seq![last.id]
            } else {
                Seq::empty()
            },
            id,
        );
        if pointer_params(front).contains(id) {
            let i = choose|i: int|
                0 <= i < front.len() && (#[trigger] front[i]).id == id && !is_immediate(
                    front[i].ty,
                );
            assert(params[i] == front[i]);
        }
        if last.id == id && !is_immediate(last.ty) {
            assert(params[params.len() - 1] == last);
        }
        if exists|i: int|
            0 <= i < params.len() && (#[trigger] params[i]).id == id && !is_immediate(
                params[i].ty,
            ) {
            let i = choose|i: int|
                0 <= i < params.len() && (#[trigger] params[i]).id == id && !is_immediate(
                    params[i].ty,
                );
            if i < front.len() {
                assert(front[i] == params[i]);
            }
        }
    }
}

proof fn lemma_slots_hold(ids: Seq<u32>, id: u32)
    requires
        ids.len() <= u32::MAX,
    ensures
        slots(ids).dom().contains(id) <==> ids.contains(id),
        slots(ids).dom().contains(id) ==> slots(ids)[id] < ids.len() && ids[slots(ids)[id] as int]
            == id,
    decreases ids.len(),
{
    if ids.len() > 0 {
        let front = ids.drop_last();
        lemma_slots_hold(front, id);
        if ids.last() == id {
            assert(ids[ids.len() - 1] == id);
        } else {
            if front.contains(id) {
                let i = choose|i: int| 0 <= i < front.len() && front[i] == id;
                assert(ids[i] == id);
            }
            if ids.contains(id) {
                let i = choose|i: int| 0 <= i < ids.len() && ids[i] == id;
                assert(front[i] == id);
            }
        }
    }
}

/// A local has a slot exactly where it is a parameter or a declaration, at whatever
/// depth, that may hold a heap pointer, and no two locals share one.
pub proof fn lemma_roots_told(params: Seq<Param>, ss: Seq<Stmt>)
    requires
        (pointer_params(params) + pointer_locals(ss)).len() <= u32::MAX,
    ensures
        forall|id: u32| #[trigger]
            slots(pointer_params(params) + pointer_locals(ss)).dom().contains(id) <==> root_in(
                ss,
                id,
            ) || exists|i: int|
                0 <= i < params.len() && (#[trigger] params[i]).id == id && !is_immediate(
                    params[i].ty,
                ),
        forall|a: u32, b: u32|
            slots(pointer_params(params) + pointer_locals(ss)).dom().contains(a) && slots(
                pointer_params(params) + pointer_locals(ss),
            ).dom().contains(b) && a != b ==> #[trigger] slots(
                pointer_params(params) + pointer_locals(ss),
            )[a] != #[trigger] slots(pointer_params(params) + pointer_locals(ss))[b],
{
    let ids = pointer_params(params) + pointer_locals(ss);
    assert forall|id: u32| #[trigger] slots(ids).dom().contains(id) <==> root_in(ss, id)
        || exists|i: int|
        0 <= i < params.len() && (#[trigger] params[i]).id == id && !is_immediate(params[i].ty) by {
        lemma_slots_hold(ids, id);
        lemma_either(pointer_params(params), pointer_locals(ss), id);
        lemma_param_roots(params, id);
        lemma_roots(ss, id);
    }
    assert forall|a: u32, b: u32|
        slots(ids).dom().contains(a) && slots(ids).dom().contains(b) && a != b implies
        #[trigger] slots(ids)[a] != #[trigger] slots(ids)[b] by {
        lemma_slots_hold(ids, a);
        lemma_slots_hold(ids, b);
    }
}

} // verus!

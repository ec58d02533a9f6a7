//! Shadow-stack slots for the locals that may hold heap pointers.
use std::collections::HashMap;
use vstd::prelude::*;
use crate::codegen::hir::{Param, Stmt, SwitchCase, Type};

verus! {

broadcast use {
    vstd::std_specs::vec::group_vec_axioms,
    vstd::std_specs::hash::group_hash_axioms,
};

/// Whether a value of the type may be a heap pointer.
pub open spec fn may_point(ty: Type) -> bool
    decreases ty,
{
    match ty {
        Type::String | Type::Array | Type::Tuple | Type::Object | Type::Named | Type::Promise
        | Type::Function | Type::BigInt | Type::Any | Type::Unknown => true,
        Type::Union(variants) => any_may_point(variants@),
        _ => false,
    }
}

/// Whether some type of a list may be that of a heap pointer.
pub open spec fn any_may_point(tys: Seq<Type>) -> bool
    decreases tys,
{
    tys.len() > 0 && (any_may_point(tys.drop_last()) || may_point(tys.last()))
}

fn is_ptr_typed(ty: &Type) -> (r: bool)
    ensures
        r == may_point(*ty),
    decreases *ty,
{
    match ty {
        Type::String | Type::Array | Type::Tuple | Type::Object | Type::Named | Type::Promise
        | Type::Function | Type::BigInt | Type::Any | Type::Unknown => true,
        Type::Union(variants) => {
            let mut found = false;
            let mut i: usize = 0;
            while i < variants.len()
                invariant
                    i <= variants@.len(),
                    *ty is Union,
                    *variants == ty->Union_0,
                    found == any_may_point(variants@.take(i as int)),
                decreases variants@.len() - i,
            {
                assert(variants@.take(i + 1).drop_last() =~= variants@.take(i as int));
                assert(decreases_to!(*ty => ty->Union_0));
                assert(decreases_to!(*variants => variants[i as int]));
                if is_ptr_typed(&variants[i]) {
                    found = true;
                }
                i += 1;
            }
            assert(variants@.take(i as int) =~= variants@);
            found
        },
        _ => false,
    }
}

/// The parameters that may hold pointers, in order.
pub open spec fn pointer_params(params: Seq<Param>) -> Seq<u32>
    decreases params.len(),
{
    if params.len() == 0 {
        Seq::empty()
    } else {
        pointer_params(params.drop_last()) + if may_point(params.last().ty) {
            seq![params.last().id]
        } else {
            Seq::empty()
        }
    }
}

/// The locals of a block that may hold pointers, in the order of their
/// declarations. The parameter of a `catch` may always hold one.
pub open spec fn pointer_locals(ss: Seq<Stmt>) -> Seq<u32>
    decreases ss,
{
    if ss.len() == 0 {
        Seq::empty()
    } else {
        pointer_locals(ss.drop_last()) + stmt_pointer_locals(ss.last())
    }
}

/// The locals of one statement that may hold pointers.
pub open spec fn stmt_pointer_locals(s: Stmt) -> Seq<u32>
    decreases s,
{
    match s {
        Stmt::Let { id, ty, mutable, init } => if may_point(ty) {
            seq![id]
        } else {
            Seq::empty()
        },
        Stmt::If { condition, then_branch, else_branch } => pointer_locals(then_branch@)
            + match else_branch {
            Some(b) => pointer_locals(b@),
            None => Seq::empty(),
        },
        Stmt::While { condition, body } => pointer_locals(body@),
        Stmt::DoWhile { body, condition } => pointer_locals(body@),
        Stmt::For { init, condition, update, body } => (match init {
            Some(i) => stmt_pointer_locals(*i),
            None => Seq::empty(),
        }) + pointer_locals(body@),
        Stmt::Try { body, catch, finally } => pointer_locals(body@) + (match catch {
            Some(c) => (match c.param {
                Some(id) => seq![id],
                None => Seq::empty(),
            }) + pointer_locals(c.body@),
            None => Seq::empty(),
        }) + match finally {
            Some(f) => pointer_locals(f@),
            None => Seq::empty(),
        },
        Stmt::Switch { discriminant, cases } => case_pointer_locals(cases@),
        Stmt::Labeled { label, body } => stmt_pointer_locals(*body),
        _ => Seq::empty(),
    }
}

/// The locals of the cases of a `switch` that may hold pointers.
pub open spec fn case_pointer_locals(cs: Seq<SwitchCase>) -> Seq<u32>
    decreases cs,
{
    if cs.len() == 0 {
        Seq::empty()
    } else {
        case_pointer_locals(cs.drop_last()) + pointer_locals(cs.last().body@)
    }
}

/// Each id with its position in the list, the last one where it occurs more
/// than once.
pub open spec fn slots(ids: Seq<u32>) -> Map<u32, u32>
    decreases ids.len(),
{
    if ids.len() == 0 {
        Map::empty()
    } else {
        slots(ids.drop_last()).insert(ids.last(), (ids.len() - 1) as u32)
    }
}

/// Where no id occurs twice, slots are handed out from zero without a gap, one
/// for each id, so their number is that of the slot map's entries.
pub proof fn lemma_slots_dense(ids: Seq<u32>)
    requires
        ids.no_duplicates(),
        ids.len() <= u32::MAX,
    ensures
        slots(ids).dom() == ids.to_set(),
        slots(ids).dom().len() == ids.len(),
        forall|i: int| 0 <= i < ids.len() ==> slots(ids)[#[trigger] ids[i]] == i,
    decreases ids.len(),
{
    if ids.len() > 0 {
        let front = ids.drop_last();
        lemma_slots_dense(front);
        assert(ids =~= front.push(ids.last()));
        crate::codegen::ids::lemma_push_set(front, ids.last());
        assert(slots(ids).dom() =~= ids.to_set());
        assert forall|i: int| 0 <= i < ids.len() implies slots(ids)[#[trigger] ids[i]] == i by {
            if i < front.len() {
                assert(front[i] == ids[i]);
                assert(ids[i] != ids[ids.len() - 1]);
            }
        }
    } else {
        assert(slots(ids).dom() =~= ids.to_set());
    }
    ids.unique_seq_to_set();
}

/// Assigns a shadow-stack slot to every local that may hold a pointer:
/// parameters first, then declarations in the order of the body.
pub fn collect_pointer_typed_locals(params: &[Param], stmts: &[Stmt]) -> (r: HashMap<u32, u32>)
    requires
        (pointer_params(params@) + pointer_locals(stmts@)).len() <= u32::MAX,
    ensures
        r@ == slots(pointer_params(params@) + pointer_locals(stmts@)),
{
    let mut ids: Vec<u32> = Vec::new();
    let mut i: usize = 0;
    while i < params.len()
        invariant
            i <= params@.len(),
            ids@ == pointer_params(params@.take(i as int)),
        decreases params@.len() - i,
    {
        assert(params@.take(i + 1).drop_last() =~= params@.take(i as int));
        if is_ptr_typed(&params[i].ty) {
            ids.push(params[i].id);
        }
        assert(ids@ =~= pointer_params(params@.take(i + 1)));
        i += 1;
    }
    assert(params@.take(i as int) =~= params@);
    scan_block(stmts, &mut ids);
    let mut out: HashMap<u32, u32> = HashMap::new();
    let mut next_slot: u32 = 0;
    let mut j: usize = 0;
    while j < ids.len()
        invariant
            j <= ids@.len() <= u32::MAX,
            next_slot == j,
            out@ == slots(ids@.take(j as int)),
        decreases ids@.len() - j,
    {
        assert(ids@.take(j + 1).drop_last() =~= ids@.take(j as int));
        out.insert(ids[j], next_slot);
        next_slot += 1;
        j += 1;
    }
    assert(ids@.take(j as int) =~= ids@);
    out
}

fn scan_block(ss: &[Stmt], ids: &mut Vec<u32>)
    ensures
        final(ids)@ == old(ids)@ + pointer_locals(ss@),
    decreases ss@,
{
    let ghost before = ids@;
    let mut i: usize = 0;
    while i < ss.len()
        invariant
            i <= ss@.len(),
            ids@ == before + pointer_locals(ss@.take(i as int)),
        decreases ss@.len() - i,
    {
        assert(ss@.take(i + 1).drop_last() =~= ss@.take(i as int));
        scan_stmt(&ss[i], ids);
        i += 1;
    }
    assert(ss@.take(i as int) =~= ss@);
}

fn scan_stmt(s: &Stmt, ids: &mut Vec<u32>)
    ensures
        final(ids)@ == old(ids)@ + stmt_pointer_locals(*s),
    decreases *s,
{
    match s {
        Stmt::Let { id, ty, .. } => {
            if is_ptr_typed(ty) {
                ids.push(*id);
            }
        },
        Stmt::If { then_branch, else_branch, .. } => {
            scan_block(then_branch.as_slice(), ids);
            if let Some(b) = else_branch {
                scan_block(b.as_slice(), ids);
            }
        },
        Stmt::While { body, .. } => {
            scan_block(body.as_slice(), ids);
        },
        Stmt::DoWhile { body, .. } => {
            scan_block(body.as_slice(), ids);
        },
        Stmt::For { init, body, .. } => {
            if let Some(i) = init {
                scan_stmt(&**i, ids);
            }
            scan_block(body.as_slice(), ids);
        },
        Stmt::Try { body, catch, finally } => {
            scan_block(body.as_slice(), ids);
            if let Some(c) = catch {
                if let Some(id) = c.param {
                    ids.push(id);
                }
                scan_block(c.body.as_slice(), ids);
            }
            if let Some(f) = finally {
                scan_block(f.as_slice(), ids);
            }
        },
        Stmt::Switch { cases, .. } => {
            scan_cases(cases.as_slice(), ids);
        },
        Stmt::Labeled { body, .. } => {
            scan_stmt(&**body, ids);
        },
        _ => {},
    }
}

fn scan_cases(cs: &[SwitchCase], ids: &mut Vec<u32>)
    ensures
        final(ids)@ == old(ids)@ + case_pointer_locals(cs@),
    decreases cs@,
{
    let ghost before = ids@;
    let mut i: usize = 0;
    while i < cs.len()
        invariant
            i <= cs@.len(),
            ids@ == before + case_pointer_locals(cs@.take(i as int)),
        decreases cs@.len() - i,
    {
        assert(cs@.take(i + 1).drop_last() =~= cs@.take(i as int));
        assert(decreases_to!(cs@ => cs@[i as int]));
        scan_block(cs[i].body.as_slice(), ids);
        i += 1;
    }
    assert(cs@.take(i as int) =~= cs@);
}

} // verus!

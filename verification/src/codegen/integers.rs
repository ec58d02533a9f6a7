//! Which locals hold integers for as long as their function runs.
use std::collections::HashSet;
use vstd::prelude::*;
use crate::codegen::hir::{BinaryOp, Expr, IndexReadOp, Op, Stmt};
use crate::codegen::ids::{lemma_finite, remove_ids};
use crate::codegen::refs::{block_ref_ids, refs_give};
use crate::codegen::confinement::within;
use crate::codegen::values::{lemma_starts_told, lemma_stays_told, starts_whole, stays_whole};
use crate::codegen::walk::{
    block_exprs, block_stmts, children, children_of, collected, contributed, everywhere,
    expressions, lemma_child_smaller, lemma_collected_next, lemma_contributed_concat,
    lemma_contributed_single, lemma_visit_closed, statements, visit, visit_below, visit_each,
};

verus! {

broadcast use {
    vstd::std_specs::vec::group_vec_axioms,
    vstd::std_specs::hash::group_hash_axioms,
};

/// What is known of a function's surroundings: the locals that hold constant
/// two-dimensional integer tables, those that alias one row of such a table,
/// and the functions that clamp to an integer range.
pub ghost struct Known {
    pub tables: Set<u32>,
    pub rows: Set<u32>,
    pub clamps: Set<u32>,
}

pub open spec fn is_bitwise(op: BinaryOp) -> bool {
    match op {
        BinaryOp::BitAnd | BinaryOp::BitOr | BinaryOp::BitXor | BinaryOp::Shl | BinaryOp::Shr
        | BinaryOp::UShr => true,
        _ => false,
    }
}

/// A call of a clamping function.
pub open spec fn clamps(e: Expr, k: Known) -> bool {
    e matches Expr::Call { callee, .. } && (*callee matches Expr::FuncRef(f) && k.clamps.contains(
        f,
    ))
}

/// An element of a constant table, read directly or through a row alias.
pub open spec fn reads_table(e: Expr, k: Known) -> bool {
    e matches Expr::IndexGet { object, .. } && match *object {
        Expr::IndexGet { object: inner, .. } => *inner matches Expr::LocalGet(id)
            && k.tables.contains(id),
        Expr::LocalGet(id) => k.rows.contains(id),
        _ => false,
    }
}

/// Whether evaluating `e` yields an integer, given that the locals in `ints`
/// hold integers.
pub open spec fn yields_int(e: Expr, ints: Set<u32>, k: Known) -> bool
    decreases e,
{
    match e {
        Expr::Integer(_) => true,
        Expr::Update(_) => true,
        Expr::Binary { op, left, right } => if op == BinaryOp::Add || op == BinaryOp::Sub || op
            == BinaryOp::Mul {
            yields_int(*left, ints, k) && yields_int(*right, ints, k)
        } else {
            is_bitwise(op)
        },
        Expr::Call { .. } => clamps(e, k),
        Expr::LocalGet(id) => ints.contains(id),
        Expr::IndexRead { op, .. } => op == IndexReadOp::Uint8ArrayGet || op
            == IndexReadOp::BufferIndexGet,
        Expr::Node { op, .. } => op == Op::MathImul,
        Expr::IndexGet { .. } => reads_table(e, k),
        _ => false,
    }
}

/// More integer locals make more expressions integer-valued.
pub proof fn lemma_yields_int_grows(e: Expr, a: Set<u32>, b: Set<u32>, k: Known)
    requires
        a.subset_of(b),
        yields_int(e, a, k),
    ensures
        yields_int(e, b, k),
    decreases e,
{
    if let Expr::Binary { op, left, right } = e {
        if op == BinaryOp::Add || op == BinaryOp::Sub || op == BinaryOp::Mul {
            lemma_yields_int_grows(*left, a, b, k);
            lemma_yields_int_grows(*right, a, b, k);
        }
    }
}

fn is_clamp_call(e: &Expr, clamp_fn_ids: &HashSet<u32>) -> (r: bool)
    ensures
        forall|k: Known| k.clamps == clamp_fn_ids@ ==> r == #[trigger] clamps(*e, k),
{
    if let Expr::Call { callee, .. } = e {
        if let Expr::FuncRef(fid) = &**callee {
            return clamp_fn_ids.contains(fid);
        }
    }
    false
}

fn is_flat_const_indexget(
    e: &Expr,
    flat_const_ids: &HashSet<u32>,
    flat_row_alias_ids: &HashSet<u32>,
) -> (r: bool)
    ensures
        forall|k: Known|
            k.tables == flat_const_ids@ && k.rows == flat_row_alias_ids@ ==> r
                == #[trigger] reads_table(*e, k),
{
    match e {
        Expr::IndexGet { object, .. } => match &**object {
            Expr::IndexGet { object: inner, .. } => match &**inner {
                Expr::LocalGet(id) => flat_const_ids.contains(id),
                _ => false,
            },
            Expr::LocalGet(id) => flat_row_alias_ids.contains(id),
            _ => false,
        },
        _ => false,
    }
}

fn bitwise(op: BinaryOp) -> (r: bool)
    ensures
        r == is_bitwise(op),
{
    matches!(
        op,
        BinaryOp::BitAnd | BinaryOp::BitOr | BinaryOp::BitXor | BinaryOp::Shl | BinaryOp::Shr
            | BinaryOp::UShr
    )
}

/// Whether `e` is a bitwise operation.
pub open spec fn is_bitwise_operation(e: Expr) -> bool {
    e matches Expr::Binary { op, .. } && is_bitwise(op)
}

fn is_bitwise_expr(e: &Expr) -> (r: bool)
    ensures
        r == is_bitwise_operation(*e),
{
    match e {
        Expr::Binary { op, .. } => bitwise(*op),
        _ => false,
    }
}

/// The sets that make up what is known.
pub open spec fn known(tables: HashSet<u32>, rows: HashSet<u32>, clamps: HashSet<u32>) -> Known {
    Known { tables: tables@, rows: rows@, clamps: clamps@ }
}

/// Whether an expression yields an integer, so that storing it into an integer
/// slot loses nothing.
pub fn is_int32_producing_expr(
    e: &Expr,
    known_int_locals: &HashSet<u32>,
    flat_const_ids: &HashSet<u32>,
    flat_row_alias_ids: &HashSet<u32>,
    clamp_fn_ids: &HashSet<u32>,
) -> (r: bool)
    ensures
        r == yields_int(
            *e,
            known_int_locals@,
            known(*flat_const_ids, *flat_row_alias_ids, *clamp_fn_ids),
        ),
    decreases *e,
{
    match e {
        Expr::Integer(_) => true,
        Expr::Update(_) => true,
        Expr::Binary { op, left, right } => match op {
            BinaryOp::Add | BinaryOp::Sub | BinaryOp::Mul => is_int32_producing_expr(
                &**left,
                known_int_locals,
                flat_const_ids,
                flat_row_alias_ids,
                clamp_fn_ids,
            ) && is_int32_producing_expr(
                &**right,
                known_int_locals,
                flat_const_ids,
                flat_row_alias_ids,
                clamp_fn_ids,
            ),
            _ => bitwise(*op),
        },
        Expr::Call { .. } => is_clamp_call(e, clamp_fn_ids),
        Expr::LocalGet(id) => known_int_locals.contains(id),
        Expr::IndexRead { op, .. } => matches!(
            op,
            IndexReadOp::Uint8ArrayGet | IndexReadOp::BufferIndexGet
        ),
        Expr::Node { op, .. } => matches!(op, Op::MathImul),
        Expr::IndexGet { .. } => is_flat_const_indexget(e, flat_const_ids, flat_row_alias_ids),
        _ => false,
    }
}

// ---- assignments ----

/// The local that an assignment sets.
pub open spec fn set_id(e: Expr) -> Set<u32> {
    match e {
        Expr::LocalSet(id, _) => set![id],
        _ => Set::empty(),
    }
}

pub open spec fn sets_give() -> spec_fn(Expr) -> Set<u32> {
    |e: Expr| set_id(e)
}

/// The locals assigned anywhere in a block, closure bodies included.
pub open spec fn assigned(stmts: Seq<Stmt>) -> Set<u32> {
    contributed(visit_each(block_exprs(stmts), everywhere()), sets_give())
}

/// A local that is assigned is referred to: no assignment escapes the search for
/// references.
pub proof fn lemma_assigned_is_referred(stmts: Seq<Stmt>)
    ensures
        assigned(stmts).subset_of(block_ref_ids(stmts)),
{
    let met = visit_each(block_exprs(stmts), everywhere());
    assert forall|id: u32| assigned(stmts).contains(id) implies block_ref_ids(stmts).contains(
        id,
    ) by {
        let i = choose|i: int| 0 <= i < met.len() && #[trigger] sets_give()(met[i]).contains(id);
        assert(refs_give()(met[i]).contains(id));
    }
}

/// Collects the locals that a block assigns.
pub fn collect_localset_ids_in_stmts(stmts: &[Stmt], out: &mut HashSet<u32>)
    ensures
        final(out)@ == old(out)@.union(assigned(stmts@)),
{
    let ghost before = out@;
    let all = expressions(stmts);
    let ghost listing = block_exprs(stmts@);
    let mut i: usize = 0;
    proof {
        lemma_contributed_single(Expr::This, sets_give());
    }
    while i < all.len()
        invariant
            i <= all@.len(),
            all@.unref() == listing,
            out@ == before.union(
                contributed(
                    visit_each(listing.take(i as int), everywhere()),
                    sets_give(),
                ),
            ),
        decreases all@.len() - i,
    {
        assert(*all@[i as int] == listing[i as int]);
        collect_localset_ids_in_expr(all[i], out);
        proof {
            assert(listing.take(i + 1).drop_last() =~= listing.take(i as int));
            lemma_contributed_concat(
                visit_each(listing.take(i as int), everywhere()),
                visit(listing[i as int], everywhere()),
                sets_give(),
            );
        }
        i += 1;
    }
    assert(listing.take(i as int) =~= listing);
}

/// Collects the locals that an expression assigns.
pub fn collect_localset_ids_in_expr(e: &Expr, out: &mut HashSet<u32>)
    ensures
        final(out)@ == old(out)@.union(contributed(visit(*e, everywhere()), sets_give())),
    decreases *e,
{
    let ghost before = out@;
    if let Expr::LocalSet(id, _) = e {
        out.insert(*id);
    }
    assert(out@ =~= before.union(set_id(*e)));
    proof {
        lemma_contributed_single(*e, sets_give());
    }
    let ghost below = children_of(*e);
    let kids = children(e);
    let mut i: usize = 0;
    while i < kids.len()
        invariant
            i <= kids@.len(),
            kids@.unref() == below,
            below == children_of(*e),
            out@ == before.union(set_id(*e)).union(
                contributed(visit_below(*e, everywhere(), i as nat), sets_give()),
            ),
        decreases kids@.len() - i,
    {
        assert(*kids@[i as int] == below[i as int]);
        proof {
            lemma_child_smaller(*e, i as int);
            lemma_contributed_concat(
                visit_below(*e, everywhere(), i as nat),
                visit(below[i as int], everywhere()),
                sets_give(),
            );
        }
        collect_localset_ids_in_expr(kids[i], out);
        i += 1;
    }
    proof {
        lemma_contributed_concat(
            seq![*e],
            visit_below(*e, everywhere(), below.len()),
            sets_give(),
        );
    }
}

/// Entering every child but the body of a closure: what is assigned there counts
/// as a loss whatever its value.
pub open spec fn losses_enter() -> spec_fn(Expr, int) -> bool {
    |e: Expr, i: int| !(e is Closure)
}

/// The local that an assignment of a value not known to be an integer sets,
/// and every local that a closure assigns.
pub open spec fn loss_ids(e: Expr, ints: Set<u32>, k: Known) -> Set<u32> {
    match e {
        Expr::LocalSet(id, value) => if yields_int(*value, ints, k) {
            Set::empty()
        } else {
            set![id]
        },
        Expr::Closure { body, .. } => assigned(body@),
        _ => Set::empty(),
    }
}

pub open spec fn losses_give(ints: Set<u32>, k: Known) -> spec_fn(Expr) -> Set<u32> {
    |e: Expr| loss_ids(e, ints, k)
}

/// The locals that lose their integer value anywhere in a block, given that
/// the locals in `ints` hold integers.
pub open spec fn losses(stmts: Seq<Stmt>, ints: Set<u32>, k: Known) -> Set<u32> {
    contributed(visit_each(block_exprs(stmts), losses_enter()), losses_give(ints, k))
}

/// More integer locals lose fewer locals.
pub proof fn lemma_losses_shrink(stmts: Seq<Stmt>, a: Set<u32>, b: Set<u32>, k: Known)
    requires
        a.subset_of(b),
    ensures
        losses(stmts, b, k).subset_of(losses(stmts, a, k)),
{
    let met = visit_each(block_exprs(stmts), losses_enter());
    assert forall|id: u32| losses(stmts, b, k).contains(id) implies losses(stmts, a, k).contains(
        id,
    ) by {
        let i = choose|i: int|
            0 <= i < met.len() && #[trigger] losses_give(b, k)(met[i]).contains(id);
        if let Expr::LocalSet(_, value) = met[i] {
            if yields_int(*value, a, k) {
                lemma_yields_int_grows(*value, a, b, k);
            }
        }
        assert(losses_give(a, k)(met[i]).contains(id));
    }
}

/// Collects the locals that some assignment in a block makes lose their
/// integer value.
pub fn collect_localset_ids_in_stmts_filtered(
    stmts: &[Stmt],
    out: &mut HashSet<u32>,
    known_int_locals: &HashSet<u32>,
    flat_const_ids: &HashSet<u32>,
    flat_row_alias_ids: &HashSet<u32>,
    clamp_fn_ids: &HashSet<u32>,
)
    ensures
        final(out)@ == old(out)@.union(
            losses(
                stmts@,
                known_int_locals@,
                known(*flat_const_ids, *flat_row_alias_ids, *clamp_fn_ids),
            ),
        ),
{
    let ghost before = out@;
    let ghost gives = losses_give(
        known_int_locals@,
        known(*flat_const_ids, *flat_row_alias_ids, *clamp_fn_ids),
    );
    let all = expressions(stmts);
    let ghost listing = block_exprs(stmts@);
    let mut i: usize = 0;
    proof {
        lemma_contributed_single(Expr::This, gives);
    }
    while i < all.len()
        invariant
            i <= all@.len(),
            all@.unref() == listing,
            gives == losses_give(
                known_int_locals@,
                known(*flat_const_ids, *flat_row_alias_ids, *clamp_fn_ids),
            ),
            out@ == before.union(
                contributed(visit_each(listing.take(i as int), losses_enter()), gives),
            ),
        decreases all@.len() - i,
    {
        assert(*all@[i as int] == listing[i as int]);
        collect_localset_ids_in_expr_filtered(
            all[i],
            out,
            known_int_locals,
            flat_const_ids,
            flat_row_alias_ids,
            clamp_fn_ids,
        );
        proof {
            assert(listing.take(i + 1).drop_last() =~= listing.take(i as int));
            lemma_contributed_concat(
                visit_each(listing.take(i as int), losses_enter()),
                visit(listing[i as int], losses_enter()),
                gives,
            );
        }
        i += 1;
    }
    assert(listing.take(i as int) =~= listing);
}

/// Collects the locals that some assignment in an expression makes lose their
/// integer value.
pub fn collect_localset_ids_in_expr_filtered(
    e: &Expr,
    out: &mut HashSet<u32>,
    known_int_locals: &HashSet<u32>,
    flat_const_ids: &HashSet<u32>,
    flat_row_alias_ids: &HashSet<u32>,
    clamp_fn_ids: &HashSet<u32>,
)
    ensures
        final(out)@ == old(out)@.union(
            contributed(
                visit(*e, losses_enter()),
                losses_give(
                    known_int_locals@,
                    known(*flat_const_ids, *flat_row_alias_ids, *clamp_fn_ids),
                ),
            ),
        ),
    decreases *e,
{
    let ghost before = out@;
    let ghost k = known(*flat_const_ids, *flat_row_alias_ids, *clamp_fn_ids);
    let ghost gives = losses_give(known_int_locals@, k);
    let ghost own = loss_ids(*e, known_int_locals@, k);
    let ghost below = children_of(*e);
    proof {
        lemma_contributed_single(*e, gives);
        lemma_contributed_concat(
            seq![*e],
            visit_below(*e, losses_enter(), below.len()),
            gives,
        );
    }
    if let Expr::LocalSet(id, value) = e {
        if !is_int32_producing_expr(
            &**value,
            known_int_locals,
            flat_const_ids,
            flat_row_alias_ids,
            clamp_fn_ids,
        ) {
            out.insert(*id);
        }
    }
    if let Expr::Closure { body, .. } = e {
        collect_localset_ids_in_stmts(body.as_slice(), out);
        proof {
            lemma_visit_closed(*e, losses_enter(), below.len());
        }
        return;
    }
    assert(out@ =~= before.union(own));
    let kids = children(e);
    let mut i: usize = 0;
    while i < kids.len()
        invariant
            i <= kids@.len(),
            kids@.unref() == below,
            below == children_of(*e),
            !(*e is Closure),
            k == known(*flat_const_ids, *flat_row_alias_ids, *clamp_fn_ids),
            gives == losses_give(known_int_locals@, k),
            out@ == before.union(own).union(
                contributed(visit_below(*e, losses_enter(), i as nat), gives),
            ),
        decreases kids@.len() - i,
    {
        assert(*kids@[i as int] == below[i as int]);
        proof {
            lemma_child_smaller(*e, i as int);
            lemma_contributed_concat(
                visit_below(*e, losses_enter(), i as nat),
                visit(below[i as int], losses_enter()),
                gives,
            );
        }
        collect_localset_ids_in_expr_filtered(
            kids[i],
            out,
            known_int_locals,
            flat_const_ids,
            flat_row_alias_ids,
            clamp_fn_ids,
        );
        i += 1;
    }
}

// ---- integer locals ----

/// The local that an immutable `let` makes an alias of a table's row.
pub open spec fn row_alias_id(s: Stmt, tables: Set<u32>) -> Set<u32> {
    match s {
        Stmt::Let { id, mutable: false, init: Some(Expr::IndexGet { object, .. }), .. } => if (
        *object matches Expr::LocalGet(t) && tables.contains(t)) {
            set![id]
        } else {
            Set::empty()
        },
        _ => Set::empty(),
    }
}

pub open spec fn row_aliases_give(tables: Set<u32>) -> spec_fn(Stmt) -> Set<u32> {
    |s: Stmt| row_alias_id(s, tables)
}

/// The row aliases that a block declares.
pub open spec fn row_aliases(stmts: Seq<Stmt>, tables: Set<u32>) -> Set<u32> {
    collected(block_stmts(stmts, false), row_aliases_give(tables))
}

fn collect_flat_row_aliases(
    stmts: &[Stmt],
    flat_const_ids: &HashSet<u32>,
    out: &mut HashSet<u32>,
)
    ensures
        final(out)@ == old(out)@.union(row_aliases(stmts@, flat_const_ids@)),
{
    let ghost before = out@;
    let ghost gives = row_aliases_give(flat_const_ids@);
    let all = statements(stmts, false);
    let ghost listing = block_stmts(stmts@, false);
    let mut i: usize = 0;
    while i < all.len()
        invariant
            i <= all@.len(),
            all@.unref() == listing,
            gives == row_aliases_give(flat_const_ids@),
            out@ == before.union(collected(listing.take(i as int), gives)),
        decreases all@.len() - i,
    {
        assert(*all@[i as int] == listing[i as int]);
        proof {
            lemma_collected_next(listing, i as int, gives);
        }
        if let Stmt::Let { id, mutable: false, init: Some(Expr::IndexGet { object, .. }), .. } =
            all[i] {
            if let Expr::LocalGet(const_id) = &**object {
                if flat_const_ids.contains(const_id) {
                    out.insert(*id);
                }
            }
        }
        assert(out@ =~= before.union(collected(listing.take(i + 1), gives)));
        i += 1;
    }
    assert(listing.take(i as int) =~= listing);
}

/// Whether `e` is `x | 0`.
pub open spec fn is_or_zero(e: Expr) -> bool {
    e matches Expr::Binary { op, right, .. } && op == BinaryOp::BitOr && *right == Expr::Integer(0)
}

/// Whether a local that starts as `init` starts as an integer.
pub open spec fn starts_int(init: Expr, mutable: bool, k: Known) -> bool {
    ||| init is Integer
    ||| reads_table(init, k)
    ||| clamps(init, k)
    ||| (!mutable && is_bitwise_operation(init))
    ||| (mutable && is_or_zero(init))
}

/// The local that a `let` makes start as an integer.
pub open spec fn int_let_id(s: Stmt, k: Known) -> Set<u32> {
    match s {
        Stmt::Let { id, mutable, init: Some(init), .. } => if starts_int(init, mutable, k) {
            set![id]
        } else {
            Set::empty()
        },
        _ => Set::empty(),
    }
}

pub open spec fn int_lets_give(k: Known) -> spec_fn(Stmt) -> Set<u32> {
    |s: Stmt| int_let_id(s, k)
}

/// The locals that a block makes start as integers.
pub open spec fn int_lets(stmts: Seq<Stmt>, k: Known) -> Set<u32> {
    collected(block_stmts(stmts, true), int_lets_give(k))
}

fn is_or_with_zero(e: &Expr) -> (r: bool)
    ensures
        r == is_or_zero(*e),
{
    if let Expr::Binary { op: BinaryOp::BitOr, right, .. } = e {
        if let Expr::Integer(n) = &**right {
            return *n == 0;
        }
    }
    false
}

fn collect_integer_let_ids(
    stmts: &[Stmt],
    out: &mut HashSet<u32>,
    flat_const_ids: &HashSet<u32>,
    flat_row_alias_ids: &HashSet<u32>,
    clamp_fn_ids: &HashSet<u32>,
)
    ensures
        final(out)@ == old(out)@.union(
            int_lets(stmts@, known(*flat_const_ids, *flat_row_alias_ids, *clamp_fn_ids)),
        ),
{
    let ghost before = out@;
    let ghost k = known(*flat_const_ids, *flat_row_alias_ids, *clamp_fn_ids);
    let ghost gives = int_lets_give(k);
    let all = statements(stmts, true);
    let ghost listing = block_stmts(stmts@, true);
    let mut i: usize = 0;
    while i < all.len()
        invariant
            i <= all@.len(),
            all@.unref() == listing,
            k == known(*flat_const_ids, *flat_row_alias_ids, *clamp_fn_ids),
            gives == int_lets_give(k),
            out@ == before.union(collected(listing.take(i as int), gives)),
        decreases all@.len() - i,
    {
        assert(*all@[i as int] == listing[i as int]);
        proof {
            lemma_collected_next(listing, i as int, gives);
        }
        if let Stmt::Let { id, mutable, init: Some(init), .. } = all[i] {
            assert(clamps(*init, k) || !clamps(*init, k));
            assert(reads_table(*init, k) || !reads_table(*init, k));
            if matches!(init, Expr::Integer(_)) || is_flat_const_indexget(
                init,
                flat_const_ids,
                flat_row_alias_ids,
            ) || is_clamp_call(init, clamp_fn_ids) || (!*mutable && is_bitwise_expr(init)) || (
            *mutable && is_or_with_zero(init)) {
                out.insert(*id);
            }
        }
        assert(out@ =~= before.union(collected(listing.take(i + 1), gives)));
        i += 1;
    }
    assert(listing.take(i as int) =~= listing);
}

/// What is known when a block is analysed on its own: the tables and clamping
/// functions given, and the row aliases that the block declares.
pub open spec fn known_in(stmts: Seq<Stmt>, tables: Set<u32>, clamps: Set<u32>) -> Known {
    Known { tables, rows: row_aliases(stmts, tables), clamps }
}

/// Whether no local of `ints` loses its integer value in a block, given that
/// all of `ints` hold integers.
pub open spec fn stays_int(stmts: Seq<Stmt>, ints: Set<u32>, k: Known) -> bool {
    ints.disjoint(losses(stmts, ints, k))
}

/// Collects the locals that hold integers for as long as the block runs: the
/// largest set of locals that start as integers of which none, the others
/// holding integers, is assigned anything else.
pub fn collect_integer_locals(
    stmts: &[Stmt],
    flat_const_ids: &HashSet<u32>,
    clamp_fn_ids: &HashSet<u32>,
) -> (r: HashSet<u32>)
    ensures
        ({
            let k = known_in(stmts@, flat_const_ids@, clamp_fn_ids@);
            &&& r@.subset_of(int_lets(stmts@, k))
            &&& stays_int(stmts@, r@, k)
            &&& forall|s: Set<u32>|
                s.subset_of(int_lets(stmts@, k)) && #[trigger] stays_int(stmts@, s, k)
                    ==> s.subset_of(r@)
            &&& forall|id: u32| #[trigger]
                r@.contains(id) ==> stays_whole(stmts@, id, r@, k) && exists|s: Stmt|
                    within(stmts@, s) && #[trigger] starts_whole(s, id, k)
        }),
{
    let ghost k = known_in(stmts@, flat_const_ids@, clamp_fn_ids@);
    let mut flat_row_alias_ids: HashSet<u32> = HashSet::new();
    collect_flat_row_aliases(stmts, flat_const_ids, &mut flat_row_alias_ids);
    assert(flat_row_alias_ids@ =~= k.rows);
    assert(known(*flat_const_ids, flat_row_alias_ids, *clamp_fn_ids) == k);
    let mut candidates: HashSet<u32> = HashSet::new();
    collect_integer_let_ids(
        stmts,
        &mut candidates,
        flat_const_ids,
        &flat_row_alias_ids,
        clamp_fn_ids,
    );
    assert(candidates@ =~= int_lets(stmts@, k));
    loop
        invariant
            known(*flat_const_ids, flat_row_alias_ids, *clamp_fn_ids) == k,
            candidates@.subset_of(int_lets(stmts@, k)),
            forall|s: Set<u32>|
                s.subset_of(int_lets(stmts@, k)) && #[trigger] stays_int(stmts@, s, k)
                    ==> s.subset_of(candidates@),
        ensures
            stays_int(stmts@, candidates@, k),
        decreases candidates@.len(),
    {
        let mut disqualified: HashSet<u32> = HashSet::new();
        collect_localset_ids_in_stmts_filtered(
            stmts,
            &mut disqualified,
            &candidates,
            flat_const_ids,
            &flat_row_alias_ids,
            clamp_fn_ids,
        );
        assert(disqualified@ =~= losses(stmts@, candidates@, k));
        let ghost before = candidates@;
        proof {
            lemma_finite(&candidates);
        }
        let changed = remove_ids(&mut candidates, &disqualified);
        if !changed {
            assert(candidates@ =~= before);
            break;
        }
        proof {
            assert forall|s: Set<u32>|
                s.subset_of(int_lets(stmts@, k)) && #[trigger] stays_int(
                    stmts@,
                    s,
                    k,
                ) implies s.subset_of(candidates@) by {
                lemma_losses_shrink(stmts@, s, before, k);
            }
            let x = choose|x: u32| before.contains(x) && disqualified@.contains(x);
            assert(candidates@.subset_of(before.remove(x)));
            vstd::set_lib::lemma_len_subset(candidates@, before.remove(x));
        }
    }
    proof {
        lemma_stays_told(stmts@, candidates@, k);
        assert forall|id: u32| #[trigger] candidates@.contains(id) implies exists|s: Stmt|
            within(stmts@, s) && #[trigger] starts_whole(s, id, k) by {
            lemma_starts_told(stmts@, id, k);
        }
    }
    candidates
}

} // verus!

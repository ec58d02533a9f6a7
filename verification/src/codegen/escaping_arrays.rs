//! Which array literals never leave the function that makes them.
use std::collections::{HashMap, HashSet};
use vstd::prelude::*;
use crate::codegen::confinement::{array_stays, is_array, lemma_kept_arrays};
use crate::codegen::doubles::{index_of, index_value};
use crate::codegen::escapes::{candidate, candidate_read, if_candidate, mark, mark_captures};
use crate::codegen::hir::{family_of, Expr, Family, Stmt};
use crate::codegen::ids::{insert_common, remove_keys};
use crate::codegen::refs::{collect_ref_ids_in_expr, ref_ids};
use crate::codegen::walk::{
    block_exprs, block_stmts, children, children_of, contributed, expressions,
    lemma_child_smaller, lemma_contributed_concat, lemma_contributed_single, lemma_visit_closed,
    statements, visit, visit_below, visit_each,
};
use crate::text::same;

verus! {

broadcast use {
    vstd::std_specs::vec::group_vec_axioms,
    vstd::std_specs::hash::group_hash_axioms,
};

/// The longest array literal that is kept in scalars.
pub const MAX_SCALAR_ARRAY_LEN: usize = 16;

/// The locals bound to an array literal of one to sixteen elements among the
/// statements of a list, each with the number of elements (the last one where
/// it is bound more than once). Locals in `taken` are left out.
pub open spec fn array_bindings(ss: Seq<Stmt>, taken: Set<u32>) -> Map<u32, u32>
    decreases ss.len(),
{
    if ss.len() == 0 {
        Map::empty()
    } else {
        let before = array_bindings(ss.drop_last(), taken);
        match ss.last() {
            Stmt::Let { id, init: Some(Expr::Array(elements)), .. } => if taken.contains(id) || !(1
                <= elements@.len() <= MAX_SCALAR_ARRAY_LEN) {
                before
            } else {
                before.insert(id, elements@.len() as u32)
            },
            _ => before,
        }
    }
}

/// Finds the locals bound to a short array literal that are neither boxed nor
/// module globals.
fn find_array_candidates(
    stmts: &[Stmt],
    boxed_vars: &HashSet<u32>,
    module_globals: &HashMap<u32, String>,
) -> (r: HashMap<u32, u32>)
    ensures
        r@ == array_bindings(
            block_stmts(stmts@, true),
            boxed_vars@.union(module_globals@.dom()),
        ),
{
    let mut candidates: HashMap<u32, u32> = HashMap::new();
    let ghost taken = boxed_vars@.union(module_globals@.dom());
    let all = statements(stmts, true);
    let ghost listing = block_stmts(stmts@, true);
    let mut i: usize = 0;
    while i < all.len()
        invariant
            i <= all@.len(),
            all@.unref() == listing,
            taken == boxed_vars@.union(module_globals@.dom()),
            candidates@ == array_bindings(listing.take(i as int), taken),
        decreases all@.len() - i,
    {
        assert(*all@[i as int] == listing[i as int]);
        assert(listing.take(i + 1).drop_last() =~= listing.take(i as int));
        if let Stmt::Let { id, init: Some(Expr::Array(elements)), .. } = all[i] {
            if !boxed_vars.contains(id) && !module_globals.contains_key(id) {
                let n: usize = elements.len();
                if 1 <= n && n <= MAX_SCALAR_ARRAY_LEN {
                    candidates.insert(*id, n as u32);
                }
            }
        }
        i += 1;
    }
    assert(listing.take(i as int) =~= listing);
    candidates
}

/// The value of a literal that can serve as a constant index.
pub open spec fn constant_index(e: Expr) -> Option<u32> {
    match e {
        Expr::Integer(k) => if 0 <= k <= u32::MAX {
            Some(k as u32)
        } else {
            None
        },
        Expr::Number(bits) => index_value(bits),
        _ => None,
    }
}

/// The value of an index that is a literal whole number within 32 bits.
pub fn const_index(expr: &Expr) -> (r: Option<u32>)
    ensures
        r == constant_index(*expr),
{
    match expr {
        Expr::Integer(k) => if *k >= 0 && *k <= 0xffff_ffff {
            Some(*k as u32)
        } else {
            None
        },
        Expr::Number(bits) => index_of(*bits),
        _ => None,
    }
}

/// Whether the analysis knows what an expression does with its operands.
pub open spec fn is_understood(e: Expr) -> bool {
    match e {
        Expr::IndexRead { .. } | Expr::IndexWrite { .. } | Expr::OnLocal { .. } => false,
        Expr::Node { op, .. } => match family_of(op) {
            Family::Plain | Family::ArraySpread | Family::Literal | Family::BigInt
            | Family::NumberTest | Family::IntegerTest => true,
            _ => false,
        },
        _ => true,
    }
}

/// Whether `object[index]` reads a candidate at a constant index within its
/// bounds.
pub open spec fn reads_element(object: Expr, index: Expr, candidates: Map<u32, u32>) -> bool {
    candidate(object, candidates) matches Some(id) && (constant_index(index) matches Some(k) && k
        < candidates[id])
}

/// The candidate that `object` reads, as a set.
pub open spec fn object_escapes(object: Expr, candidates: Map<u32, u32>) -> Set<u32> {
    match candidate(object, candidates) {
        Some(id) => set![id],
        None => Set::empty(),
    }
}

/// The candidates that escape through `e` itself.
pub open spec fn escaping_here(e: Expr, candidates: Map<u32, u32>) -> Set<u32> {
    if !is_understood(e) {
        ref_ids(e).intersect(candidates.dom())
    } else {
        match e {
            Expr::IndexGet { object, index } => if reads_element(*object, *index, candidates) {
                Set::empty()
            } else {
                object_escapes(*object, candidates)
            },
            Expr::IndexSet { object, .. } => object_escapes(*object, candidates),
            Expr::IndexUpdate { object, .. } => object_escapes(*object, candidates),
            Expr::LocalGet(id) => if_candidate(id, candidates),
            Expr::LocalSet(id, _) => if_candidate(id, candidates),
            Expr::Update(id) => if_candidate(id, candidates),
            Expr::Closure { captures, .. } => captures@.to_set().intersect(candidates.dom()),
            _ => Set::empty(),
        }
    }
}

/// Whether the analysis looks at a child: not at a candidate whose element is
/// read at a constant index or whose length is read, and not below what it
/// does not understand.
pub open spec fn escape_looks_at(e: Expr, i: int, candidates: Map<u32, u32>) -> bool {
    is_understood(e) && match e {
        Expr::IndexGet { object, index } => i != 0 || !reads_element(*object, *index, candidates),
        Expr::PropertyGet { object, property } => !(candidate(*object, candidates) is Some
            && property@ == "length"@),
        _ => true,
    }
}

pub open spec fn escape_enter(candidates: Map<u32, u32>) -> spec_fn(Expr, int) -> bool {
    |e: Expr, i: int| escape_looks_at(e, i, candidates)
}

pub open spec fn escape_give(candidates: Map<u32, u32>) -> spec_fn(Expr) -> Set<u32> {
    |e: Expr| escaping_here(e, candidates)
}

/// The candidates that escape somewhere in a block.
pub open spec fn escaping(stmts: Seq<Stmt>, candidates: Map<u32, u32>) -> Set<u32> {
    contributed(
        visit_each(block_exprs(stmts), escape_enter(candidates)),
        escape_give(candidates),
    )
}

fn check_array_escapes_in_stmts(
    stmts: &[Stmt],
    candidates: &HashMap<u32, u32>,
    escaped: &mut HashSet<u32>,
)
    ensures
        final(escaped)@ == old(escaped)@.union(escaping(stmts@, candidates@)),
{
    let ghost before = escaped@;
    let ghost enters = escape_enter(candidates@);
    let ghost gives = escape_give(candidates@);
    let all = expressions(stmts);
    let ghost listing = block_exprs(stmts@);
    let mut i: usize = 0;
    proof {
        lemma_contributed_single(Expr::This, gives);
    }
    while i < all.len()
        invariant
            i <= all@.len(),
            all@.unref() == listing,
            enters == escape_enter(candidates@),
            gives == escape_give(candidates@),
            escaped@ == before.union(
                contributed(visit_each(listing.take(i as int), enters), gives),
            ),
        decreases all@.len() - i,
    {
        assert(*all@[i as int] == listing[i as int]);
        check_array_escapes_in_expr(all[i], candidates, escaped);
        proof {
            assert(listing.take(i + 1).drop_last() =~= listing.take(i as int));
            lemma_contributed_concat(
                visit_each(listing.take(i as int), enters),
                visit(listing[i as int], enters),
                gives,
            );
        }
        i += 1;
    }
    assert(listing.take(i as int) =~= listing);
}

fn understood(e: &Expr) -> (r: bool)
    ensures
        r == is_understood(*e),
{
    match e {
        Expr::IndexRead { .. } | Expr::IndexWrite { .. } | Expr::OnLocal { .. } => false,
        Expr::Node { op, .. } => match op.family() {
            Family::Plain | Family::ArraySpread | Family::Literal | Family::BigInt
            | Family::NumberTest | Family::IntegerTest => true,
            _ => false,
        },
        _ => true,
    }
}

fn reads_known_element(object: &Expr, index: &Expr, candidates: &HashMap<u32, u32>) -> (r: bool)
    ensures
        r == reads_element(*object, *index, candidates@),
{
    if let Expr::LocalGet(id) = object {
        if let Some(len) = candidates.get(id) {
            if let Some(k) = const_index(index) {
                return k < *len;
            }
        }
    }
    false
}

fn looks_at(e: &Expr, i: usize, candidates: &HashMap<u32, u32>) -> (r: bool)
    ensures
        is_understood(*e) ==> r == escape_looks_at(*e, i as int, candidates@),
{
    match e {
        Expr::IndexGet { object, index } => i != 0 || !reads_known_element(
            &**object,
            &**index,
            candidates,
        ),
        Expr::PropertyGet { object, property } => !(candidate_read(&**object, candidates).is_some()
            && same(property.as_str(), "length")),
        _ => true,
    }
}

fn mark_object(object: &Expr, candidates: &HashMap<u32, u32>, escaped: &mut HashSet<u32>)
    ensures
        final(escaped)@ == old(escaped)@.union(object_escapes(*object, candidates@)),
{
    if let Expr::LocalGet(id) = object {
        mark(*id, candidates, escaped);
    }
    assert(escaped@ =~= old(escaped)@.union(object_escapes(*object, candidates@)));
}

/// Marks the candidates that escape through `e` itself.
fn mark_here(e: &Expr, candidates: &HashMap<u32, u32>, escaped: &mut HashSet<u32>)
    ensures
        final(escaped)@ == old(escaped)@.union(escaping_here(*e, candidates@)),
{
    let ghost before = escaped@;
    if !understood(e) {
        let mut refs: HashSet<u32> = HashSet::new();
        collect_ref_ids_in_expr(e, &mut refs);
        assert(refs@ =~= ref_ids(*e));
        insert_common(&refs, candidates, escaped);
        return;
    }
    match e {
        Expr::IndexGet { object, index } => {
            if !reads_known_element(&**object, &**index, candidates) {
                mark_object(&**object, candidates, escaped);
            }
        },
        Expr::IndexSet { object, .. } => {
            mark_object(&**object, candidates, escaped);
        },
        Expr::IndexUpdate { object, .. } => {
            mark_object(&**object, candidates, escaped);
        },
        Expr::LocalGet(id) => {
            mark(*id, candidates, escaped);
        },
        Expr::LocalSet(id, _) => {
            mark(*id, candidates, escaped);
        },
        Expr::Update(id) => {
            mark(*id, candidates, escaped);
        },
        Expr::Closure { captures, .. } => {
            mark_captures(captures, candidates, escaped);
        },
        _ => {},
    }
    assert(escaped@ =~= before.union(escaping_here(*e, candidates@)));
}

/// Gathers the candidates that escape in an expression.
fn check_array_escapes_in_expr(
    e: &Expr,
    candidates: &HashMap<u32, u32>,
    escaped: &mut HashSet<u32>,
)
    ensures
        final(escaped)@ == old(escaped)@.union(
            contributed(visit(*e, escape_enter(candidates@)), escape_give(candidates@)),
        ),
    decreases *e,
{
    let ghost before = escaped@;
    let ghost enters = escape_enter(candidates@);
    let ghost gives = escape_give(candidates@);
    let ghost own = escaping_here(*e, candidates@);
    let ghost below = children_of(*e);
    proof {
        lemma_contributed_single(*e, gives);
        lemma_contributed_concat(seq![*e], visit_below(*e, enters, below.len()), gives);
    }
    mark_here(e, candidates, escaped);
    if !understood(e) {
        proof {
            lemma_visit_closed(*e, enters, below.len());
        }
        return;
    }
    let kids = children(e);
    let mut i: usize = 0;
    while i < kids.len()
        invariant
            i <= kids@.len(),
            kids@.unref() == below,
            below == children_of(*e),
            is_understood(*e),
            enters == escape_enter(candidates@),
            gives == escape_give(candidates@),
            escaped@ == before.union(own).union(
                contributed(visit_below(*e, enters, i as nat), gives),
            ),
        decreases kids@.len() - i,
    {
        assert(*kids@[i as int] == below[i as int]);
        if looks_at(e, i, candidates) {
            proof {
                lemma_child_smaller(*e, i as int);
                lemma_contributed_concat(
                    visit_below(*e, enters, i as nat),
                    visit(below[i as int], enters),
                    gives,
                );
            }
            check_array_escapes_in_expr(kids[i], candidates, escaped);
        } else {
            assert(visit_below(*e, enters, (i + 1) as nat) =~= visit_below(
                *e,
                enters,
                i as nat,
            ));
        }
        i += 1;
    }
}

/// The locals of a block bound to a short array literal, with its length.
pub open spec fn array_candidates(
    stmts: Seq<Stmt>,
    boxed: Set<u32>,
    globals: Set<u32>,
) -> Map<u32, u32> {
    array_bindings(block_stmts(stmts, true), boxed.union(globals))
}

/// Finds the locals bound to an array literal that never escapes, each with the
/// literal's length.
pub fn collect_non_escaping_arrays(
    stmts: &[Stmt],
    boxed_vars: &HashSet<u32>,
    module_globals: &HashMap<u32, String>,
) -> (r: HashMap<u32, u32>)
    ensures
        ({
            let candidates = array_candidates(stmts@, boxed_vars@, module_globals@.dom());
            r@ == candidates.remove_keys(escaping(stmts@, candidates))
        }),
        forall|id: u32| #[trigger]
            r@.dom().contains(id) ==> array_stays(stmts@, id, r@[id]) && is_array(
                stmts@,
                id,
                r@[id] as int,
            ) && !boxed_vars@.contains(id) && !module_globals@.dom().contains(id),
{
    let mut candidates = find_array_candidates(stmts, boxed_vars, module_globals);
    let ghost all = candidates@;
    let mut escaped: HashSet<u32> = HashSet::new();
    check_array_escapes_in_stmts(stmts, &candidates, &mut escaped);
    assert(escaped@ =~= escaping(stmts@, all));
    remove_keys(&mut candidates, &escaped);
    proof {
        assert forall|id: u32| #[trigger] candidates@.dom().contains(id) implies array_stays(
            stmts@,
            id,
            candidates@[id],
        ) && is_array(stmts@, id, candidates@[id] as int) && !boxed_vars@.contains(id)
            && !module_globals@.dom().contains(id) by {
            lemma_kept_arrays(stmts@, boxed_vars@, module_globals@.dom(), id);
        }
    }
    candidates
}

} // verus!

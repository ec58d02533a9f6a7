//! Which object literals never leave the function that makes them.
use std::collections::{HashMap, HashSet};
use vstd::prelude::*;
use crate::codegen::confinement::{is_object, lemma_kept_objects, object_stays};
use crate::codegen::escapes::{
    candidate, candidate_read, expr_contains_local_get, if_candidate, mark, mark_captures,
    mentions,
};
use crate::codegen::hir::{family_of, Expr, Family, Stmt};
use crate::codegen::ids::{insert_keys, remove_keys};
use crate::codegen::walk::{
    block_exprs, block_stmts, children, children_of, contributed, expressions,
    lemma_child_smaller, lemma_contributed_concat, lemma_contributed_single, lemma_visit_closed,
    statements, visit, visit_below, visit_each,
};
use crate::text::{contains, lemma_texts_push, texts};

verus! {

broadcast use {
    vstd::std_specs::vec::group_vec_axioms,
    vstd::std_specs::hash::group_hash_axioms,
    lemma_texts_push,
};

/// The most fields an object literal kept in scalars may have.
pub const MAX_SCALAR_OBJECT_FIELDS: usize = 16;

/// The keys of an object literal, each where it first occurs.
pub open spec fn distinct_keys(props: Seq<(String, Expr)>) -> Seq<Seq<char>>
    decreases props.len(),
{
    if props.len() == 0 {
        Seq::empty()
    } else {
        let before = distinct_keys(props.drop_last());
        if before.contains(props.last().0@) {
            before
        } else {
            before.push(props.last().0@)
        }
    }
}

/// Whether some value of an object literal is a closure that captures `this`.
pub open spec fn has_this_closure(props: Seq<(String, Expr)>) -> bool {
    exists|i: int|
        0 <= i < props.len() && ((#[trigger] props[i]).1 matches Expr::Closure {
            captures_this,
            ..
        } && captures_this)
}

/// Whether an object literal can be kept in scalars: it has one to sixteen
/// properties, none a closure that needs the object as its `this`.
pub open spec fn is_scalar_literal(props: Seq<(String, Expr)>) -> bool {
    1 <= props.len() <= MAX_SCALAR_OBJECT_FIELDS && !has_this_closure(props)
}

/// The locals bound to such an object literal among the statements of a list,
/// each with the literal's keys (the last literal where it is bound more than
/// once). Locals in `taken` are left out.
pub open spec fn object_bindings(ss: Seq<Stmt>, taken: Set<u32>) -> Map<u32, Seq<Seq<char>>>
    decreases ss.len(),
{
    if ss.len() == 0 {
        Map::empty()
    } else {
        let before = object_bindings(ss.drop_last(), taken);
        match ss.last() {
            Stmt::Let { id, init: Some(Expr::Object(props)), .. } => if taken.contains(id)
                || !is_scalar_literal(props@) {
                before
            } else {
                before.insert(id, distinct_keys(props@))
            },
            _ => before,
        }
    }
}

/// A map with the texts of each list.
pub open spec fn keyed(m: Map<u32, Vec<String>>) -> Map<u32, Seq<Seq<char>>> {
    m.map_values(|v: Vec<String>| texts(v@))
}

fn any_this_closure(props: &Vec<(String, Expr)>) -> (r: bool)
    ensures
        r == has_this_closure(props@),
{
    let mut i: usize = 0;
    while i < props.len()
        invariant
            i <= props@.len(),
            forall|j: int|
                0 <= j < i ==> !((#[trigger] props@[j]).1 matches Expr::Closure {
                    captures_this,
                    ..
                } && captures_this),
        decreases props@.len() - i,
    {
        if let Expr::Closure { captures_this, .. } = &props[i].1 {
            if *captures_this {
                assert(props@[i as int].1 matches Expr::Closure { captures_this, .. }
                    && captures_this);
                return true;
            }
        }
        i += 1;
    }
    false
}

fn keys_of(props: &Vec<(String, Expr)>) -> (r: Vec<String>)
    ensures
        texts(r@) == distinct_keys(props@),
{
    let mut keys: Vec<String> = Vec::new();
    let mut i: usize = 0;
    assert(texts(keys@) =~= distinct_keys(props@.take(0)));
    while i < props.len()
        invariant
            i <= props@.len(),
            texts(keys@) == distinct_keys(props@.take(i as int)),
        decreases props@.len() - i,
    {
        assert(props@.take(i + 1).drop_last() =~= props@.take(i as int));
        if !contains(&keys, props[i].0.as_str()) {
            keys.push(props[i].0.clone());
        }
        i += 1;
    }
    assert(props@.take(i as int) =~= props@);
    keys
}

/// Finds the locals bound to an object literal fit for scalars that are neither
/// boxed nor module globals.
fn find_object_literal_candidates(
    stmts: &[Stmt],
    boxed_vars: &HashSet<u32>,
    module_globals: &HashMap<u32, String>,
) -> (r: HashMap<u32, Vec<String>>)
    ensures
        keyed(r@) == object_bindings(
            block_stmts(stmts@, true),
            boxed_vars@.union(module_globals@.dom()),
        ),
{
    let mut candidates: HashMap<u32, Vec<String>> = HashMap::new();
    let ghost taken = boxed_vars@.union(module_globals@.dom());
    let all = statements(stmts, true);
    let ghost listing = block_stmts(stmts@, true);
    let mut i: usize = 0;
    assert(keyed(candidates@) =~= object_bindings(listing.take(0), taken));
    while i < all.len()
        invariant
            i <= all@.len(),
            all@.unref() == listing,
            taken == boxed_vars@.union(module_globals@.dom()),
            keyed(candidates@) == object_bindings(listing.take(i as int), taken),
        decreases all@.len() - i,
    {
        assert(*all@[i as int] == listing[i as int]);
        assert(listing.take(i + 1).drop_last() =~= listing.take(i as int));
        if let Stmt::Let { id, init: Some(Expr::Object(props)), .. } = all[i] {
            if !boxed_vars.contains(id) && !module_globals.contains_key(id) && props.len() > 0
                && props.len() <= MAX_SCALAR_OBJECT_FIELDS && !any_this_closure(props) {
                let ghost before = candidates@;
                let keys = keys_of(props);
                candidates.insert(*id, keys);
                assert(keyed(candidates@) =~= keyed(before).insert(*id, distinct_keys(props@)));
            }
        }
        i += 1;
    }
    assert(listing.take(i as int) =~= listing);
    candidates
}

/// Whether the analysis knows what an expression does with its operands.
pub open spec fn is_understood(e: Expr) -> bool {
    match e {
        Expr::IndexUpdate { .. } | Expr::IndexRead { .. } | Expr::IndexWrite { .. }
        | Expr::OnLocal { .. } => false,
        Expr::Node { op, .. } => match family_of(op) {
            Family::Plain | Family::ArraySpread | Family::ObjectSpread | Family::Literal
            | Family::BigInt | Family::DateNow | Family::EmptyCollection | Family::NumberTest
            | Family::IntegerTest | Family::Intrinsic => true,
            _ => false,
        },
        _ => true,
    }
}

/// The candidates that escape through `e` itself.
pub open spec fn escaping_here(e: Expr, candidates: Map<u32, Seq<Seq<char>>>) -> Set<u32> {
    if !is_understood(e) {
        candidates.dom()
    } else {
        match e {
            // Reading or updating a key that the literal lacks needs the real
            // object, and storing the object in itself makes it reachable.
            Expr::PropertyGet { object, property } => match candidate(*object, candidates) {
                Some(id) => if candidates[id].contains(property@) {
                    Set::empty()
                } else {
                    set![id]
                },
                None => Set::empty(),
            },
            Expr::PropertySet { object, property, value } => match candidate(*object, candidates) {
                Some(id) => if candidates[id].contains(property@) && !mentions(*value, id) {
                    Set::empty()
                } else {
                    set![id]
                },
                None => Set::empty(),
            },
            Expr::PropertyUpdate { object, property } => match candidate(*object, candidates) {
                Some(id) => if candidates[id].contains(property@) {
                    Set::empty()
                } else {
                    set![id]
                },
                None => Set::empty(),
            },
            Expr::LocalGet(id) => if_candidate(id, candidates),
            Expr::LocalSet(id, _) => if_candidate(id, candidates),
            Expr::Update(id) => if_candidate(id, candidates),
            Expr::Closure { captures, .. } => captures@.to_set().intersect(candidates.dom()),
            _ => Set::empty(),
        }
    }
}

/// Whether the analysis looks at a child: not at the candidate whose property
/// is accessed, and not below what it does not understand.
pub open spec fn escape_looks_at(e: Expr, i: int, candidates: Map<u32, Seq<Seq<char>>>) -> bool {
    is_understood(e) && match e {
        Expr::PropertyGet { object, .. } => candidate(*object, candidates) is None,
        Expr::PropertySet { object, .. } => i != 0 || candidate(*object, candidates) is None,
        Expr::PropertyUpdate { object, .. } => candidate(*object, candidates) is None,
        _ => true,
    }
}

pub open spec fn escape_enter(
    candidates: Map<u32, Seq<Seq<char>>>,
) -> spec_fn(Expr, int) -> bool {
    |e: Expr, i: int| escape_looks_at(e, i, candidates)
}

pub open spec fn escape_give(candidates: Map<u32, Seq<Seq<char>>>) -> spec_fn(Expr) -> Set<u32> {
    |e: Expr| escaping_here(e, candidates)
}

/// The candidates that escape somewhere in a block.
pub open spec fn escaping(stmts: Seq<Stmt>, candidates: Map<u32, Seq<Seq<char>>>) -> Set<u32> {
    contributed(
        visit_each(block_exprs(stmts), escape_enter(candidates)),
        escape_give(candidates),
    )
}

fn check_object_literal_escapes_in_stmts(
    stmts: &[Stmt],
    candidates: &HashMap<u32, Vec<String>>,
    escaped: &mut HashSet<u32>,
)
    ensures
        final(escaped)@ == old(escaped)@.union(escaping(stmts@, keyed(candidates@))),
{
    let ghost before = escaped@;
    let ghost enters = escape_enter(keyed(candidates@));
    let ghost gives = escape_give(keyed(candidates@));
    let all = expressions(stmts);
    let ghost listing = block_exprs(stmts@);
    let mut i: usize = 0;
    proof {
        lemma_contributed_single(Expr::This, gives);
    }
    while i < all.len()
        invariant
            i <= all@.len(),
            all@.unref() == listing,
            enters == escape_enter(keyed(candidates@)),
            gives == escape_give(keyed(candidates@)),
            escaped@ == before.union(
                contributed(visit_each(listing.take(i as int), enters), gives),
            ),
        decreases all@.len() - i,
    {
        assert(*all@[i as int] == listing[i as int]);
        check_object_literal_escapes_in_expr(all[i], candidates, escaped);
        proof {
            assert(listing.take(i + 1).drop_last() =~= listing.take(i as int));
            lemma_contributed_concat(
                visit_each(listing.take(i as int), enters),
                visit(listing[i as int], enters),
                gives,
            );
        }
        i += 1;
    }
    assert(listing.take(i as int) =~= listing);
}

fn understood(e: &Expr) -> (r: bool)
    ensures
        r == is_understood(*e),
{
    match e {
        Expr::IndexUpdate { .. } | Expr::IndexRead { .. } | Expr::IndexWrite { .. }
        | Expr::OnLocal { .. } => false,
        Expr::Node { op, .. } => match op.family() {
            Family::Plain | Family::ArraySpread | Family::ObjectSpread | Family::Literal
            | Family::BigInt | Family::DateNow | Family::EmptyCollection | Family::NumberTest
            | Family::IntegerTest | Family::Intrinsic => true,
            _ => false,
        },
        _ => true,
    }
}

fn looks_at(e: &Expr, i: usize, candidates: &HashMap<u32, Vec<String>>) -> (r: bool)
    ensures
        is_understood(*e) ==> r == escape_looks_at(*e, i as int, keyed(candidates@)),
{
    match e {
        Expr::PropertyGet { object, .. } => candidate_read(&**object, candidates).is_none(),
        Expr::PropertySet { object, .. } => i != 0 || candidate_read(
            &**object,
            candidates,
        ).is_none(),
        Expr::PropertyUpdate { object, .. } => candidate_read(&**object, candidates).is_none(),
        _ => true,
    }
}

/// Marks the candidates that escape through `e` itself.
fn mark_here(e: &Expr, candidates: &HashMap<u32, Vec<String>>, escaped: &mut HashSet<u32>)
    ensures
        final(escaped)@ == old(escaped)@.union(escaping_here(*e, keyed(candidates@))),
{
    let ghost before = escaped@;
    assert(keyed(candidates@).dom() =~= candidates@.dom());
    if !understood(e) {
        insert_keys(candidates, escaped);
        return;
    }
    match e {
        Expr::PropertyGet { object, property } => {
            if let Expr::LocalGet(id) = &**object {
                if let Some(keys) = candidates.get(id) {
                    if !contains(keys, property.as_str()) {
                        escaped.insert(*id);
                    }
                }
            }
        },
        Expr::PropertySet { object, property, value } => {
            if let Expr::LocalGet(id) = &**object {
                if let Some(keys) = candidates.get(id) {
                    if !contains(keys, property.as_str()) || expr_contains_local_get(
                        &**value,
                        *id,
                    ) {
                        escaped.insert(*id);
                    }
                }
            }
        },
        Expr::PropertyUpdate { object, property } => {
            if let Expr::LocalGet(id) = &**object {
                if let Some(keys) = candidates.get(id) {
                    if !contains(keys, property.as_str()) {
                        escaped.insert(*id);
                    }
                }
            }
        },
        Expr::LocalGet(id) => {
            mark(*id, candidates, escaped);
        },
        Expr::LocalSet(id, _) => {
            mark(*id, candidates, escaped);
        },
        Expr::Update(id) => {
            mark(*id, candidates, escaped);
        },
        Expr::Closure { captures, .. } => {
            mark_captures(captures, candidates, escaped);
        },
        _ => {},
    }
    assert(escaped@ =~= before.union(escaping_here(*e, keyed(candidates@))));
}

/// Gathers the candidates that escape in an expression.
fn check_object_literal_escapes_in_expr(
    e: &Expr,
    candidates: &HashMap<u32, Vec<String>>,
    escaped: &mut HashSet<u32>,
)
    ensures
        final(escaped)@ == old(escaped)@.union(
            contributed(
                visit(*e, escape_enter(keyed(candidates@))),
                escape_give(keyed(candidates@)),
            ),
        ),
    decreases *e,
{
    let ghost before = escaped@;
    let ghost enters = escape_enter(keyed(candidates@));
    let ghost gives = escape_give(keyed(candidates@));
    let ghost own = escaping_here(*e, keyed(candidates@));
    let ghost below = children_of(*e);
    proof {
        lemma_contributed_single(*e, gives);
        lemma_contributed_concat(seq![*e], visit_below(*e, enters, below.len()), gives);
    }
    mark_here(e, candidates, escaped);
    if !understood(e) {
        proof {
            lemma_visit_closed(*e, enters, below.len());
        }
        return;
    }
    let kids = children(e);
    let mut i: usize = 0;
    while i < kids.len()
        invariant
            i <= kids@.len(),
            kids@.unref() == below,
            below == children_of(*e),
            is_understood(*e),
            enters == escape_enter(keyed(candidates@)),
            gives == escape_give(keyed(candidates@)),
            escaped@ == before.union(own).union(
                contributed(visit_below(*e, enters, i as nat), gives),
            ),
        decreases kids@.len() - i,
    {
        assert(*kids@[i as int] == below[i as int]);
        if looks_at(e, i, candidates) {
            proof {
                lemma_child_smaller(*e, i as int);
                lemma_contributed_concat(
                    visit_below(*e, enters, i as nat),
                    visit(below[i as int], enters),
                    gives,
                );
            }
            check_object_literal_escapes_in_expr(kids[i], candidates, escaped);
        } else {
            assert(visit_below(*e, enters, (i + 1) as nat) =~= visit_below(
                *e,
                enters,
                i as nat,
            ));
        }
        i += 1;
    }
}

/// The locals of a block bound to an object literal fit for scalars, with its
/// keys.
pub open spec fn object_candidates(
    stmts: Seq<Stmt>,
    boxed: Set<u32>,
    globals: Set<u32>,
) -> Map<u32, Seq<Seq<char>>> {
    object_bindings(block_stmts(stmts, true), boxed.union(globals))
}

/// Finds the locals bound to an object literal that never escapes, each with
/// the literal's keys in the order they first occur.
pub fn collect_non_escaping_object_literals(
    stmts: &[Stmt],
    boxed_vars: &HashSet<u32>,
    module_globals: &HashMap<u32, String>,
) -> (r: HashMap<u32, Vec<String>>)
    ensures
        ({
            let candidates = object_candidates(stmts@, boxed_vars@, module_globals@.dom());
            keyed(r@) == candidates.remove_keys(escaping(stmts@, candidates))
        }),
        forall|id: u32| #[trigger]
            r@.dom().contains(id) ==> object_stays(stmts@, id, texts(r@[id]@)) && is_object(
                stmts@,
                id,
                texts(r@[id]@),
            ) && !boxed_vars@.contains(id) && !module_globals@.dom().contains(id),
{
    let mut candidates = find_object_literal_candidates(stmts, boxed_vars, module_globals);
    let ghost all = candidates@;
    let mut escaped: HashSet<u32> = HashSet::new();
    check_object_literal_escapes_in_stmts(stmts, &candidates, &mut escaped);
    assert(escaped@ =~= escaping(stmts@, keyed(all)));
    remove_keys(&mut candidates, &escaped);
    assert(keyed(candidates@) =~= keyed(all).remove_keys(escaped@));
    proof {
        assert forall|id: u32| #[trigger] candidates@.dom().contains(id) implies object_stays(
            stmts@,
            id,
            texts(candidates@[id]@),
        ) && is_object(stmts@, id, texts(candidates@[id]@)) && !boxed_vars@.contains(id)
            && !module_globals@.dom().contains(id) by {
            assert(keyed(candidates@).dom().contains(id));
            lemma_kept_objects(stmts@, boxed_vars@, module_globals@.dom(), id);
            assert(keyed(candidates@)[id] == texts(candidates@[id]@));
        }
    }
    candidates
}

} // verus!

//! Which instances made by `new` never leave the function that makes them.
use std::collections::{HashMap, HashSet};
use vstd::prelude::*;
use crate::codegen::classes::{
    class_named, class_uses_this_as_value, construction_uses_this, find_class, has_getter,
    has_setter, is_class_getter, is_class_setter,
};
use crate::codegen::confinement::{instance_stays, is_made, lemma_kept_instances};
use crate::codegen::escapes::{
    candidate, candidate_read, expr_contains_local_get, if_candidate, mark, mark_captures,
    mentions,
};
use crate::codegen::hir::{family_of, Class, Expr, Family, IndexReadOp, IndexWriteOp, LocalOp, Stmt};
use crate::codegen::ids::{insert_common, insert_keys, remove_keys};
use crate::codegen::refs::collect_ref_ids_in_expr;
use crate::codegen::walk::{
    block_exprs, block_stmts, children, children_of, contributed, expressions,
    lemma_child_smaller, lemma_contributed_concat, lemma_contributed_single, lemma_visit_closed,
    statements, visit, visit_below, visit_each,
};

verus! {

broadcast use {
    vstd::std_specs::vec::group_vec_axioms,
    vstd::std_specs::hash::group_hash_axioms,
};

/// The locals bound to a `new` among the statements of a list, each with the
/// name of the class (the last one where it is bound more than once). Locals
/// in `taken` are left out.
pub open spec fn new_bindings(ss: Seq<Stmt>, taken: Set<u32>) -> Map<u32, Seq<char>>
    decreases ss.len(),
{
    if ss.len() == 0 {
        Map::empty()
    } else {
        let before = new_bindings(ss.drop_last(), taken);
        match ss.last() {
            Stmt::Let { id, init: Some(Expr::New { class_name, .. }), .. } => if taken.contains(
                id,
            ) {
                before
            } else {
                before.insert(id, class_name@)
            },
            _ => before,
        }
    }
}

/// A map with the text of each value.
pub open spec fn named(m: Map<u32, String>) -> Map<u32, Seq<char>> {
    m.map_values(|s: String| s@)
}

/// Finds the locals bound to a `new` that are neither boxed nor module globals.
fn find_new_candidates(
    stmts: &[Stmt],
    boxed_vars: &HashSet<u32>,
    module_globals: &HashMap<u32, String>,
) -> (r: HashMap<u32, String>)
    ensures
        named(r@) == new_bindings(
            block_stmts(stmts@, true),
            boxed_vars@.union(module_globals@.dom()),
        ),
{
    let mut candidates: HashMap<u32, String> = HashMap::new();
    let ghost taken = boxed_vars@.union(module_globals@.dom());
    let all = statements(stmts, true);
    let ghost listing = block_stmts(stmts@, true);
    let mut i: usize = 0;
    assert(named(candidates@) =~= new_bindings(listing.take(0), taken));
    while i < all.len()
        invariant
            i <= all@.len(),
            all@.unref() == listing,
            taken == boxed_vars@.union(module_globals@.dom()),
            named(candidates@) == new_bindings(listing.take(i as int), taken),
        decreases all@.len() - i,
    {
        assert(*all@[i as int] == listing[i as int]);
        assert(listing.take(i + 1).drop_last() =~= listing.take(i as int));
        if let Stmt::Let { id, init: Some(Expr::New { class_name, .. }), .. } = all[i] {
            if !boxed_vars.contains(id) && !module_globals.contains_key(id) {
                let ghost before = candidates@;
                candidates.insert(*id, class_name.clone());
                assert(named(candidates@) =~= named(before).insert(*id, class_name@));
            }
        }
        i += 1;
    }
    assert(listing.take(i as int) =~= listing);
    candidates
}

/// Whether the analysis knows what an expression does with its operands.
pub open spec fn is_understood(e: Expr) -> bool {
    match e {
        Expr::IndexUpdate { .. } => false,
        Expr::IndexRead { op, .. } => op == IndexReadOp::ArrayAt,
        Expr::IndexWrite { op, .. } => op == IndexWriteOp::ArrayWith,
        Expr::OnLocal { op, .. } => op != LocalOp::ArrayPushSpread,
        Expr::Node { op, operands } => match family_of(op) {
            Family::Plain | Family::ArraySpread | Family::ObjectSpread | Family::Literal
            | Family::BigInt | Family::StaticRead | Family::RegExp | Family::DateNow
            | Family::EmptyCollection | Family::NumberTest | Family::IntegerTest
            | Family::Membership | Family::Suspension | Family::Library | Family::ArrayScan
            | Family::Pairing | Family::Service => true,
            Family::BytesNew => operands@.len() == 0,
            _ => false,
        },
        _ => true,
    }
}

/// The candidate on which `callee` is a method.
pub open spec fn receiver(callee: Expr, candidates: Map<u32, Seq<char>>) -> Option<u32> {
    match callee {
        Expr::PropertyGet { object, .. } => candidate(*object, candidates),
        _ => None,
    }
}

/// The candidates that escape through `e` itself.
pub open spec fn escaping_here(
    e: Expr,
    candidates: Map<u32, Seq<char>>,
    cs: Seq<Class>,
) -> Set<u32> {
    if !is_understood(e) {
        candidates.dom()
    } else {
        match e {
            // A plain field access leaves its receiver where it is. An accessor
            // is a call that takes the receiver along, and storing an instance
            // in itself makes it reachable.
            Expr::PropertyGet { object, property } => match candidate(*object, candidates) {
                Some(id) => if has_getter(cs, candidates[id], property@) {
                    set![id]
                } else {
                    Set::empty()
                },
                None => Set::empty(),
            },
            Expr::PropertySet { object, property, value } => match candidate(*object, candidates) {
                Some(id) => if has_setter(cs, candidates[id], property@) || mentions(*value, id) {
                    set![id]
                } else {
                    Set::empty()
                },
                None => Set::empty(),
            },
            Expr::PropertyUpdate { object, property } => match candidate(*object, candidates) {
                Some(id) => if has_getter(cs, candidates[id], property@) || has_setter(
                    cs,
                    candidates[id],
                    property@,
                ) {
                    set![id]
                } else {
                    Set::empty()
                },
                None => Set::empty(),
            },
            Expr::LocalGet(id) => if_candidate(id, candidates),
            Expr::LocalSet(id, _) => if_candidate(id, candidates),
            Expr::Update(id) => if_candidate(id, candidates),
            Expr::Closure { captures, .. } => captures@.to_set().intersect(candidates.dom()),
            Expr::Call { callee, .. } => match receiver(*callee, candidates) {
                Some(id) => set![id],
                None => Set::empty(),
            },
            Expr::CallSpread { callee, .. } => match receiver(*callee, candidates) {
                Some(id) => set![id],
                None => Set::empty(),
            },
            Expr::OnLocal { op, id, .. } => if op == LocalOp::ArrayUnshift || op
                == LocalOp::ArrayCopyWithin {
                Set::empty()
            } else {
                if_candidate(id, candidates)
            },
            _ => Set::empty(),
        }
    }
}

/// Whether the analysis looks at a child: not at the candidate whose property
/// is accessed, and not below what it does not understand.
pub open spec fn escape_looks_at(e: Expr, i: int, candidates: Map<u32, Seq<char>>) -> bool {
    is_understood(e) && match e {
        Expr::PropertyGet { object, .. } => candidate(*object, candidates) is None,
        Expr::PropertySet { object, .. } => i != 0 || candidate(*object, candidates) is None,
        Expr::PropertyUpdate { object, .. } => candidate(*object, candidates) is None,
        _ => true,
    }
}

pub open spec fn escape_enter(candidates: Map<u32, Seq<char>>) -> spec_fn(Expr, int) -> bool {
    |e: Expr, i: int| escape_looks_at(e, i, candidates)
}

pub open spec fn escape_give(
    candidates: Map<u32, Seq<char>>,
    cs: Seq<Class>,
) -> spec_fn(Expr) -> Set<u32> {
    |e: Expr| escaping_here(e, candidates, cs)
}

/// The candidates that escape somewhere in a block.
pub open spec fn escaping(
    stmts: Seq<Stmt>,
    candidates: Map<u32, Seq<char>>,
    cs: Seq<Class>,
) -> Set<u32> {
    contributed(
        visit_each(block_exprs(stmts), escape_enter(candidates)),
        escape_give(candidates, cs),
    )
}

fn check_escapes_in_stmts(
    stmts: &[Stmt],
    candidates: &HashMap<u32, String>,
    classes: &[Class],
    escaped: &mut HashSet<u32>,
)
    ensures
        final(escaped)@ == old(escaped)@.union(
            escaping(stmts@, named(candidates@), classes@),
        ),
{
    let ghost before = escaped@;
    let ghost enters = escape_enter(named(candidates@));
    let ghost gives = escape_give(named(candidates@), classes@);
    let all = expressions(stmts);
    let ghost listing = block_exprs(stmts@);
    let mut i: usize = 0;
    proof {
        lemma_contributed_single(Expr::This, gives);
    }
    while i < all.len()
        invariant
            i <= all@.len(),
            all@.unref() == listing,
                enters == escape_enter(named(candidates@)),
            gives == escape_give(named(candidates@), classes@),
            escaped@ == before.union(
                contributed(visit_each(listing.take(i as int), enters), gives),
            ),
        decreases all@.len() - i,
    {
        assert(*all@[i as int] == listing[i as int]);
        check_escapes_in_expr(all[i], candidates, classes, escaped);
        proof {
            assert(listing.take(i + 1).drop_last() =~= listing.take(i as int));
            lemma_contributed_concat(
                visit_each(listing.take(i as int), enters),
                visit(listing[i as int], enters),
                gives,
            );
        }
        i += 1;
    }
    assert(listing.take(i as int) =~= listing);
}

fn understood(e: &Expr) -> (r: bool)
    ensures
        r == is_understood(*e),
{
    match e {
        Expr::IndexUpdate { .. } => false,
        Expr::IndexRead { op, .. } => matches!(op, IndexReadOp::ArrayAt),
        Expr::IndexWrite { op, .. } => matches!(op, IndexWriteOp::ArrayWith),
        Expr::OnLocal { op, .. } => !matches!(op, LocalOp::ArrayPushSpread),
        Expr::Node { op, operands } => match op.family() {
            Family::Plain | Family::ArraySpread | Family::ObjectSpread | Family::Literal
            | Family::BigInt | Family::StaticRead | Family::RegExp | Family::DateNow
            | Family::EmptyCollection | Family::NumberTest | Family::IntegerTest
            | Family::Membership | Family::Suspension | Family::Library | Family::ArrayScan
            | Family::Pairing | Family::Service => true,
            Family::BytesNew => operands.len() == 0,
            _ => false,
        },
        _ => true,
    }
}

fn looks_at(e: &Expr, i: usize, candidates: &HashMap<u32, String>) -> (r: bool)
    ensures
        is_understood(*e) ==> r == escape_looks_at(*e, i as int, named(candidates@)),
{
    match e {
        Expr::PropertyGet { object, .. } => candidate_read(&**object, candidates).is_none(),
        Expr::PropertySet { object, .. } => i != 0 || candidate_read(
            &**object,
            candidates,
        ).is_none(),
        Expr::PropertyUpdate { object, .. } => candidate_read(&**object, candidates).is_none(),
        _ => true,
    }
}

/// Marks the candidate on which `callee` is a method: it is passed along as
/// `this`.
fn mark_receiver(callee: &Expr, candidates: &HashMap<u32, String>, escaped: &mut HashSet<u32>)
    ensures
        final(escaped)@ == old(escaped)@.union(
            match receiver(*callee, named(candidates@)) {
                Some(id) => set![id],
                None => Set::empty(),
            },
        ),
{
    if let Expr::PropertyGet { object, .. } = callee {
        if let Expr::LocalGet(id) = &**object {
            mark(*id, candidates, escaped);
        }
    }
    assert(escaped@ =~= old(escaped)@.union(
        match receiver(*callee, named(candidates@)) {
            Some(id) => set![id],
            None => Set::empty(),
        },
    ));
}

/// Marks every candidate: whatever `e` is, any of them may be used in it.
fn mark_all_candidate_refs_in_expr(
    e: &Expr,
    candidates: &HashMap<u32, String>,
    escaped: &mut HashSet<u32>,
)
    ensures
        final(escaped)@ == old(escaped)@.union(candidates@.dom()),
{
    let mut refs: HashSet<u32> = HashSet::new();
    collect_ref_ids_in_expr(e, &mut refs);
    insert_common(&refs, candidates, escaped);
    insert_keys(candidates, escaped);
    assert(escaped@ =~= old(escaped)@.union(candidates@.dom()));
}

/// Marks the candidates that escape through `e` itself.
fn mark_here(
    e: &Expr,
    candidates: &HashMap<u32, String>,
    classes: &[Class],
    escaped: &mut HashSet<u32>,
)
    ensures
        final(escaped)@ == old(escaped)@.union(
            escaping_here(*e, named(candidates@), classes@),
        ),
{
    let ghost before = escaped@;
    if !understood(e) {
        mark_all_candidate_refs_in_expr(e, candidates, escaped);
        assert(named(candidates@).dom() =~= candidates@.dom());
        return;
    }
    match e {
        Expr::PropertyGet { object, property } => {
            if let Expr::LocalGet(id) = &**object {
                if let Some(class_name) = candidates.get(id) {
                    if is_class_getter(classes, class_name.as_str(), property.as_str()) {
                        escaped.insert(*id);
                    }
                }
            }
        },
        Expr::PropertySet { object, property, value } => {
            if let Expr::LocalGet(id) = &**object {
                if let Some(class_name) = candidates.get(id) {
                    if is_class_setter(classes, class_name.as_str(), property.as_str())
                        || expr_contains_local_get(&**value, *id) {
                        escaped.insert(*id);
                    }
                }
            }
        },
        Expr::PropertyUpdate { object, property } => {
            if let Expr::LocalGet(id) = &**object {
                if let Some(class_name) = candidates.get(id) {
                    if is_class_getter(classes, class_name.as_str(), property.as_str())
                        || is_class_setter(classes, class_name.as_str(), property.as_str()) {
                        escaped.insert(*id);
                    }
                }
            }
        },
        Expr::LocalGet(id) => {
            mark(*id, candidates, escaped);
        },
        Expr::LocalSet(id, _) => {
            mark(*id, candidates, escaped);
        },
        Expr::Update(id) => {
            mark(*id, candidates, escaped);
        },
        Expr::Closure { captures, .. } => {
            mark_captures(captures, candidates, escaped);
            assert(named(candidates@).dom() =~= candidates@.dom());
        },
        Expr::Call { callee, .. } => {
            mark_receiver(&**callee, candidates, escaped);
        },
        Expr::CallSpread { callee, .. } => {
            mark_receiver(&**callee, candidates, escaped);
        },
        Expr::OnLocal { op, id, .. } => {
            if !matches!(op, LocalOp::ArrayUnshift | LocalOp::ArrayCopyWithin) {
                mark(*id, candidates, escaped);
            }
        },
        _ => {},
    }
    assert(escaped@ =~= before.union(escaping_here(*e, named(candidates@), classes@)));
}

/// Gathers the candidates that escape in an expression.
fn check_escapes_in_expr(
    e: &Expr,
    candidates: &HashMap<u32, String>,
    classes: &[Class],
    escaped: &mut HashSet<u32>,
)
    ensures
        final(escaped)@ == old(escaped)@.union(
            contributed(
                visit(*e, escape_enter(named(candidates@))),
                escape_give(named(candidates@), classes@),
            ),
        ),
    decreases *e,
{
    let ghost before = escaped@;
    let ghost enters = escape_enter(named(candidates@));
    let ghost gives = escape_give(named(candidates@), classes@);
    let ghost own = escaping_here(*e, named(candidates@), classes@);
    let ghost below = children_of(*e);
    proof {
        lemma_contributed_single(*e, gives);
        lemma_contributed_concat(seq![*e], visit_below(*e, enters, below.len()), gives);
    }
    mark_here(e, candidates, classes, escaped);
    if !understood(e) {
        proof {
            lemma_visit_closed(*e, enters, below.len());
        }
        return;
    }
    let kids = children(e);
    let mut i: usize = 0;
    while i < kids.len()
        invariant
            i <= kids@.len(),
            kids@.unref() == below,
            below == children_of(*e),
                is_understood(*e),
            enters == escape_enter(named(candidates@)),
            gives == escape_give(named(candidates@), classes@),
            escaped@ == before.union(own).union(
                contributed(visit_below(*e, enters, i as nat), gives),
            ),
        decreases kids@.len() - i,
    {
        assert(*kids@[i as int] == below[i as int]);
        if looks_at(e, i, candidates) {
            proof {
                lemma_child_smaller(*e, i as int);
                lemma_contributed_concat(
                    visit_below(*e, enters, i as nat),
                    visit(below[i as int], enters),
                    gives,
                );
            }
            check_escapes_in_expr(kids[i], candidates, classes, escaped);
        } else {
            assert(visit_below(*e, enters, (i + 1) as nat) =~= visit_below(
                *e,
                enters,
                i as nat,
            ));
        }
        i += 1;
    }
}

/// The locals of a block bound to a `new`, with the names of their classes.
pub open spec fn new_candidates(
    stmts: Seq<Stmt>,
    boxed: Set<u32>,
    globals: Set<u32>,
) -> Map<u32, Seq<char>> {
    new_bindings(block_stmts(stmts, true), boxed.union(globals))
}

/// Whether an instance of the class called `name` can be constructed without a
/// real `this`.
pub open spec fn constructs_in_place(cs: Seq<Class>, name: Seq<char>) -> bool {
    class_named(cs, name) matches Some(c) ==> !construction_uses_this(cs, c)
}

/// Whether the candidate `id` can be kept in scalars.
pub open spec fn stays_in_place(
    id: u32,
    stmts: Seq<Stmt>,
    candidates: Map<u32, Seq<char>>,
    cs: Seq<Class>,
) -> bool {
    &&& candidates.dom().contains(id)
    &&& !escaping(stmts, candidates, cs).contains(id)
    &&& constructs_in_place(cs, candidates[id])
}

/// Adds the candidates whose construction needs a real `this`.
fn mark_this_users(
    candidates: &HashMap<u32, String>,
    classes: &[Class],
    escaped: &mut HashSet<u32>,
)
    ensures
        forall|id: u32|
            #![trigger final(escaped)@.contains(id)]
            final(escaped)@.contains(id) == (old(escaped)@.contains(id) || (
            candidates@.dom().contains(id) && !constructs_in_place(
                classes@,
                candidates@[id]@,
            ))),
{
    let ghost before = escaped@;
    let ghost mut done: Seq<u32> = Seq::empty();
    for id in it: candidates.keys()
        invariant
            it.seq().unref().to_set() == candidates@.dom(),
            done == it.seq().unref().take(it.index()),
            it.index() == it.seq().len() ==> done.to_set() == candidates@.dom(),
                forall|x: u32|
                #![trigger escaped@.contains(x)]
                escaped@.contains(x) == (before.contains(x) || (done.contains(x)
                    && !constructs_in_place(classes@, candidates@[x]@))),
    {
        assert(candidates@.dom().contains(*id)) by {
            assert(it.seq().unref()[it.index()] == *id);
            assert(it.seq().unref().contains(*id));
        }
        if !escaped.contains(id) {
            if let Some(class_name) = candidates.get(id) {
                if let Some(class) = find_class(classes, class_name.as_str()) {
                    if class_uses_this_as_value(class, classes) {
                        escaped.insert(*id);
                    }
                }
            }
        }
        proof {
            crate::codegen::ids::lemma_push_set(done, *id);
            assert forall|x: u32| done.push(*id).contains(x) == (done.contains(x) || x == *id) by {
                assert(done.push(*id).to_set().contains(x) == done.to_set().insert(*id).contains(
                    x,
                ));
            }
            done = done.push(*id);
            assert(done =~= it.seq().unref().take(it.index() + 1));
            assert(it.index() + 1 == it.seq().len() ==> done =~= it.seq().unref());
        }
    }
    assert forall|x: u32| done.contains(x) == candidates@.dom().contains(x) by {
        assert(done.to_set().contains(x) == candidates@.dom().contains(x));
    }
}

/// Finds the locals bound to a `new` whose instances never escape, each with
/// the name of its class.
pub fn collect_non_escaping_news(
    stmts: &[Stmt],
    boxed_vars: &HashSet<u32>,
    module_globals: &HashMap<u32, String>,
    classes: &[Class],
) -> (r: HashMap<u32, String>)
    ensures
        ({
            let candidates = new_candidates(stmts@, boxed_vars@, module_globals@.dom());
            named(r@) == candidates.restrict(
                Set::new(|id: u32| stays_in_place(id, stmts@, candidates, classes@)),
            )
        }),
        forall|id: u32| #[trigger]
            r@.dom().contains(id) ==> instance_stays(stmts@, id, r@[id]@, classes@) && is_made(
                stmts@,
                id,
                r@[id]@,
            ) && !boxed_vars@.contains(id) && !module_globals@.dom().contains(id),
{
    let ghost wanted = new_candidates(stmts@, boxed_vars@, module_globals@.dom());
    let ghost kept = Set::new(|id: u32| stays_in_place(id, stmts@, wanted, classes@));
    let mut candidates = find_new_candidates(stmts, boxed_vars, module_globals);
    let ghost all = candidates@;
    assert(all.dom() =~= wanted.dom());
    let mut escaped: HashSet<u32> = HashSet::new();
    check_escapes_in_stmts(stmts, &candidates, classes, &mut escaped);
    mark_this_users(&candidates, classes, &mut escaped);
    remove_keys(&mut candidates, &escaped);
    proof {
        assert forall|id: u32| all.dom().contains(id) implies (!escaped@.contains(id)
            == kept.contains(id)) by {
            assert(wanted[id] == all[id]@);
        }
        assert(named(candidates@) =~= wanted.restrict(kept)) by {
            assert(named(candidates@).dom() =~= wanted.restrict(kept).dom());
        }
        assert forall|id: u32| #[trigger] candidates@.dom().contains(id) implies instance_stays(
            stmts@,
            id,
            candidates@[id]@,
            classes@,
        ) && is_made(stmts@, id, candidates@[id]@) && !boxed_vars@.contains(id)
            && !module_globals@.dom().contains(id) by {
            assert(named(candidates@).dom().contains(id));
            lemma_kept_instances(stmts@, boxed_vars@, module_globals@.dom(), classes@, id);
            assert(named(candidates@)[id] == candidates@[id]@);
        }
    }
    candidates
}

} // verus!

//! Class hierarchies: lookups along the inheritance chain, and whether
//! construction needs a real `this`.
use vstd::prelude::*;
use crate::codegen::hir::{family_of, Class, ClassField, Expr, Family, Stmt};
use crate::codegen::walk::{
    any_of, block_exprs, children, children_of, expressions, lemma_any_concat, lemma_any_prefix,
    lemma_any_single, lemma_below_prefix, lemma_child_smaller, visit, visit_below, visit_each,
};
use crate::text::{contains, lemma_texts_push, same, texts};

verus! {

broadcast use {
    vstd::std_specs::vec::group_vec_axioms,
    crate::codegen::hir::lemma_unref_push,
    lemma_texts_push,
};

// ---- hierarchy ----

/// The first class of a table with the given name.
pub open spec fn class_named(cs: Seq<Class>, name: Seq<char>) -> Option<Class>
    decreases cs.len(),
{
    if cs.len() == 0 {
        None
    } else if cs[0].name@ == name {
        Some(cs[0])
    } else {
        class_named(cs.skip(1), name)
    }
}

/// The name of the class that a class extends.
pub open spec fn base_name(c: Class) -> Option<Seq<char>> {
    match c.extends_name {
        Some(n) => Some(n@),
        None => None,
    }
}

/// Whether following base classes from `name` comes to an end within `fuel`
/// classes.
pub open spec fn chain_ends(cs: Seq<Class>, name: Option<Seq<char>>, fuel: nat) -> bool
    decreases fuel,
{
    match name {
        None => true,
        Some(n) => match class_named(cs, n) {
            None => true,
            Some(c) => fuel > 0 && chain_ends(cs, base_name(c), (fuel - 1) as nat),
        },
    }
}

/// The class called `name` and the classes it derives from, as far as the
/// table holds them; at most `fuel` of them.
pub open spec fn lineage_within(cs: Seq<Class>, name: Option<Seq<char>>, fuel: nat) -> Seq<Class>
    decreases fuel,
{
    match name {
        None => Seq::empty(),
        Some(n) => match class_named(cs, n) {
            None => Seq::empty(),
            Some(c) => if fuel == 0 {
                Seq::empty()
            } else {
                seq![c] + lineage_within(cs, base_name(c), (fuel - 1) as nat)
            },
        },
    }
}

/// The class called `name` and the classes it derives from. No chain of
/// different classes is longer than the table.
pub open spec fn lineage(cs: Seq<Class>, name: Option<Seq<char>>) -> Seq<Class> {
    lineage_within(cs, name, cs.len())
}

/// Finds the class with the given name.
pub fn find_class<'a>(classes: &'a [Class], name: &str) -> (r: Option<&'a Class>)
    ensures
        match r {
            Some(c) => class_named(classes@, name@) == Some(*c),
            None => class_named(classes@, name@) is None,
        },
{
    let mut i: usize = 0;
    assert(classes@.skip(0) =~= classes@);
    while i < classes.len()
        invariant
            i <= classes@.len(),
            class_named(classes@, name@) == class_named(classes@.skip(i as int), name@),
        decreases classes@.len() - i,
    {
        assert(classes@.skip(i as int).skip(1) =~= classes@.skip(i + 1));
        if same(classes[i].name.as_str(), name) {
            return Some(&classes[i]);
        }
        i += 1;
    }
    None
}

fn lineage_of<'a>(classes: &'a [Class], name: Option<&'a str>) -> (r: Vec<&'a Class>)
    ensures
        r@.unref() == lineage(
            classes@,
            match name {
                Some(n) => Some(n@),
                None => None,
            },
        ),
{
    let mut out: Vec<&'a Class> = Vec::new();
    let mut cur: Option<&'a str> = name;
    let ghost start = match name {
        Some(n) => Some(n@),
        None => None,
    };
    let ghost mut at: Option<Seq<char>> = start;
    let mut fuel: usize = classes.len();
    assert(out@.unref() + lineage_within(classes@, at, fuel as nat) =~= lineage(classes@, start));
    while fuel > 0
        invariant
            start == (match name {
                Some(n) => Some(n@),
                None => None,
            }),
            at == (match cur {
                Some(n) => Some(n@),
                None => None,
            }),
            out@.unref() + lineage_within(classes@, at, fuel as nat) == lineage(classes@, start),
        decreases fuel,
    {
        let here = match cur {
            Some(n) => n,
            None => {
                assert(out@.unref() + Seq::<Class>::empty() =~= out@.unref());
                return out;
            },
        };
        match find_class(classes, here) {
            Some(class) => {
                let ghost rest = lineage_within(classes@, base_name(*class), (fuel - 1) as nat);
                assert(out@.unref() + (seq![*class] + rest) =~= out@.unref().push(*class) + rest);
                out.push(class);
                cur = match &class.extends_name {
                    Some(n) => Some(n.as_str()),
                    None => None,
                };
                proof {
                    at = base_name(*class);
                }
                fuel -= 1;
            },
            None => {
                assert(out@.unref() + Seq::<Class>::empty() =~= out@.unref());
                return out;
            },
        }
    }
    assert(out@.unref() + Seq::<Class>::empty() =~= out@.unref());
    out
}

/// Where following base classes comes to an end, the lineage holds them all:
/// looking further finds no more.
pub proof fn lemma_lineage_complete(cs: Seq<Class>, name: Option<Seq<char>>, fuel: nat, more: nat)
    requires
        chain_ends(cs, name, fuel),
        fuel <= more,
    ensures
        lineage_within(cs, name, more) == lineage_within(cs, name, fuel),
    decreases fuel,
{
    if let Some(n) = name {
        if let Some(c) = class_named(cs, n) {
            lemma_lineage_complete(cs, base_name(c), (fuel - 1) as nat, (more - 1) as nat);
        }
    }
}

/// Whether the class called `class_name`, or one it derives from, has a getter
/// for `property`.
pub open spec fn has_getter(cs: Seq<Class>, class_name: Seq<char>, property: Seq<char>) -> bool {
    let line = lineage(cs, Some(class_name));
    exists|i: int|
        0 <= i < line.len() && texts((#[trigger] line[i]).getters@).contains(property)
}

/// Whether the class called `class_name`, or one it derives from, has a setter
/// for `property`.
pub open spec fn has_setter(cs: Seq<Class>, class_name: Seq<char>, property: Seq<char>) -> bool {
    let line = lineage(cs, Some(class_name));
    exists|i: int|
        0 <= i < line.len() && texts((#[trigger] line[i]).setters@).contains(property)
}

/// Whether reading `property` on an instance of the class calls a getter.
pub fn is_class_getter(classes: &[Class], class_name: &str, property: &str) -> (r: bool)
    ensures
        r == has_getter(classes@, class_name@, property@),
{
    let all = lineage_of(classes, Some(class_name));
    let ghost line = lineage(classes@, Some(class_name@));
    let mut i: usize = 0;
    while i < all.len()
        invariant
            i <= all@.len(),
            all@.unref() == line,
            line == lineage(classes@, Some(class_name@)),
            forall|j: int| 0 <= j < i ==> !texts((#[trigger] line[j]).getters@).contains(property@),
        decreases all@.len() - i,
    {
        assert(*all@[i as int] == line[i as int]);
        if contains(&all[i].getters, property) {
            return true;
        }
        i += 1;
    }
    false
}

/// Whether writing `property` on an instance of the class calls a setter.
pub fn is_class_setter(classes: &[Class], class_name: &str, property: &str) -> (r: bool)
    ensures
        r == has_setter(classes@, class_name@, property@),
{
    let all = lineage_of(classes, Some(class_name));
    let ghost line = lineage(classes@, Some(class_name@));
    let mut i: usize = 0;
    while i < all.len()
        invariant
            i <= all@.len(),
            all@.unref() == line,
            line == lineage(classes@, Some(class_name@)),
            forall|j: int| 0 <= j < i ==> !texts((#[trigger] line[j]).setters@).contains(property@),
        decreases all@.len() - i,
    {
        assert(*all@[i as int] == line[i as int]);
        if contains(&all[i].setters, property) {
            return true;
        }
        i += 1;
    }
    false
}

// ---- `this` as a value ----

/// Whether `e` itself needs `this` as a value, given the names of the instance
/// fields: `this` on its own, a closure that captures it, an access through it
/// to anything but a field, or an operation that may use it unseen.
pub open spec fn needs_this(e: Expr, fields: Seq<Seq<char>>) -> bool {
    match e {
        Expr::This => true,
        Expr::Closure { captures_this, .. } => captures_this,
        Expr::PropertyGet { object, property } => *object is This && !fields.contains(property@),
        Expr::PropertySet { object, property, value } => *object is This && !fields.contains(
            property@,
        ),
        Expr::PropertyUpdate { object, property } => *object is This && !fields.contains(property@),
        Expr::IndexRead { .. } | Expr::IndexWrite { .. } | Expr::OnLocal { .. } => true,
        Expr::Node { op, .. } => !this_looks_into_family(family_of(op)),
        _ => false,
    }
}

pub open spec fn this_looks_into_family(f: Family) -> bool {
    match f {
        Family::Plain | Family::ArraySpread | Family::ObjectSpread | Family::Literal
        | Family::StaticRead | Family::Membership | Family::Suspension => true,
        _ => false,
    }
}

/// Whether the search looks at a child. It does not at `this` where a property
/// is reached through it, nor into closures, which have a `this` of their own.
pub open spec fn this_looks_at(e: Expr, i: int) -> bool {
    match e {
        Expr::PropertyGet { object, .. } => !(*object is This),
        Expr::PropertySet { object, .. } => i != 0 || !(*object is This),
        Expr::PropertyUpdate { object, .. } => !(*object is This),
        Expr::Closure { .. } => false,
        _ => true,
    }
}

pub open spec fn this_enter() -> spec_fn(Expr, int) -> bool {
    |e: Expr, i: int| this_looks_at(e, i)
}

pub open spec fn needing_this(fields: Seq<Seq<char>>) -> spec_fn(Expr) -> bool {
    |e: Expr| needs_this(e, fields)
}

/// Whether an expression needs `this` as a value.
pub open spec fn uses_this(e: Expr, fields: Seq<Seq<char>>) -> bool {
    any_of(visit(e, this_enter()), needing_this(fields))
}

/// Whether a block needs `this` as a value.
pub open spec fn block_uses_this(ss: Seq<Stmt>, fields: Seq<Seq<char>>) -> bool {
    any_of(visit_each(block_exprs(ss), this_enter()), needing_this(fields))
}

fn stmts_use_this_as_value(stmts: &[Stmt], fields: &Vec<String>) -> (r: bool)
    ensures
        r == block_uses_this(stmts@, texts(fields@)),
{
    let ghost bad = needing_this(texts(fields@));
    let all = expressions(stmts);
    let ghost listing = block_exprs(stmts@);
    let mut i: usize = 0;
    proof {
        lemma_any_single(Expr::This, bad);
    }
    while i < all.len()
        invariant
            i <= all@.len(),
            all@.unref() == listing,
            bad == needing_this(texts(fields@)),
            listing == block_exprs(stmts@),
            !any_of(visit_each(listing.take(i as int), this_enter()), bad),
        decreases all@.len() - i,
    {
        assert(*all@[i as int] == listing[i as int]);
        proof {
            assert(listing.take(i + 1).drop_last() =~= listing.take(i as int));
            lemma_any_concat(
                visit_each(listing.take(i as int), this_enter()),
                visit(listing[i as int], this_enter()),
                bad,
            );
        }
        if expr_uses_this_as_value(all[i], fields) {
            proof {
                lemma_any_prefix(listing, i + 1, this_enter(), bad);
            }
            return true;
        }
        i += 1;
    }
    assert(listing.take(i as int) =~= listing);
    false
}

fn is_this(e: &Expr) -> (r: bool)
    ensures
        r == (*e is This),
{
    matches!(e, Expr::This)
}

fn needs_this_itself(e: &Expr, fields: &Vec<String>) -> (r: bool)
    ensures
        r == needs_this(*e, texts(fields@)),
{
    match e {
        Expr::This => true,
        Expr::Closure { captures_this, .. } => *captures_this,
        Expr::PropertyGet { object, property } => is_this(&**object) && !contains(
            fields,
            property.as_str(),
        ),
        Expr::PropertySet { object, property, .. } => is_this(&**object) && !contains(
            fields,
            property.as_str(),
        ),
        Expr::PropertyUpdate { object, property } => is_this(&**object) && !contains(
            fields,
            property.as_str(),
        ),
        Expr::IndexRead { .. } | Expr::IndexWrite { .. } | Expr::OnLocal { .. } => true,
        Expr::Node { op, .. } => match op.family() {
            Family::Plain | Family::ArraySpread | Family::ObjectSpread | Family::Literal
            | Family::StaticRead | Family::Membership | Family::Suspension => false,
            _ => true,
        },
        _ => false,
    }
}

fn looks_at(e: &Expr, i: usize) -> (r: bool)
    ensures
        r == this_looks_at(*e, i as int),
{
    match e {
        Expr::PropertyGet { object, .. } => !is_this(&**object),
        Expr::PropertySet { object, .. } => i != 0 || !is_this(&**object),
        Expr::PropertyUpdate { object, .. } => !is_this(&**object),
        Expr::Closure { .. } => false,
        _ => true,
    }
}

fn expr_uses_this_as_value(e: &Expr, fields: &Vec<String>) -> (r: bool)
    ensures
        r == uses_this(*e, texts(fields@)),
    decreases *e,
{
    let ghost bad = needing_this(texts(fields@));
    let ghost below = children_of(*e);
    proof {
        lemma_any_single(*e, bad);
        lemma_any_concat(seq![*e], visit_below(*e, this_enter(), below.len()), bad);
    }
    if needs_this_itself(e, fields) {
        return true;
    }
    let kids = children(e);
    let mut i: usize = 0;
    while i < kids.len()
        invariant
            i <= kids@.len(),
            kids@.unref() == below,
            below == children_of(*e),
            bad == needing_this(texts(fields@)),
            !any_of(visit_below(*e, this_enter(), i as nat), bad),
            any_of(visit_below(*e, this_enter(), below.len()), bad) ==> uses_this(
                *e,
                texts(fields@),
            ),
        decreases kids@.len() - i,
    {
        assert(*kids@[i as int] == below[i as int]);
        if looks_at(e, i) {
            proof {
                lemma_child_smaller(*e, i as int);
                lemma_any_concat(
                    visit_below(*e, this_enter(), i as nat),
                    visit(below[i as int], this_enter()),
                    bad,
                );
            }
            if expr_uses_this_as_value(kids[i], fields) {
                proof {
                    lemma_below_prefix(*e, (i + 1) as nat, this_enter(), bad);
                }
                return true;
            }
        } else {
            assert(visit_below(*e, this_enter(), (i + 1) as nat) =~= visit_below(
                *e,
                this_enter(),
                i as nat,
            ));
        }
        i += 1;
    }
    false
}

// ---- construction ----

/// The names of the fields of a class.
pub open spec fn field_names(c: Class) -> Seq<Seq<char>> {
    c.fields@.map_values(|f: ClassField| f.name@)
}

/// The names of the fields of the classes of a list.
pub open spec fn all_field_names(cs: Seq<Class>) -> Seq<Seq<char>>
    decreases cs.len(),
{
    if cs.len() == 0 {
        Seq::empty()
    } else {
        all_field_names(cs.drop_last()) + field_names(cs.last())
    }
}

/// Whether the initializer of some field needs `this` as a value.
pub open spec fn initializers_use_this(c: Class, fields: Seq<Seq<char>>) -> bool {
    exists|i: int|
        0 <= i < c.fields@.len() && ((#[trigger] c.fields@[i]).init matches Some(e) && uses_this(
            e,
            fields,
        ))
}

/// Whether constructing an instance of `c` needs `this` as a value: in its
/// constructor, or in the initializer of a field of its own or of a class it
/// derives from.
pub open spec fn construction_uses_this(cs: Seq<Class>, c: Class) -> bool {
    let bases = lineage(cs, base_name(c));
    let fields = field_names(c) + all_field_names(bases);
    ||| c.constructor matches Some(f) && block_uses_this(f.body@, fields)
    ||| initializers_use_this(c, fields)
    ||| exists|i: int| 0 <= i < bases.len() && initializers_use_this(#[trigger] bases[i], fields)
}

fn add_field_names(class: &Class, out: &mut Vec<String>)
    ensures
        texts(final(out)@) == texts(old(out)@) + field_names(*class),
{
    let ghost before = texts(out@);
    let mut i: usize = 0;
    while i < class.fields.len()
        invariant
            i <= class.fields@.len(),
            texts(out@) == before + field_names(*class).take(i as int),
        decreases class.fields@.len() - i,
    {
        assert(field_names(*class).take(i + 1) =~= field_names(*class).take(i as int).push(
            class.fields@[i as int].name@,
        ));
        out.push(class.fields[i].name.clone());
        i += 1;
    }
    assert(field_names(*class).take(i as int) =~= field_names(*class));
}

fn initializers_use_this_as_value(class: &Class, fields: &Vec<String>) -> (r: bool)
    ensures
        r == initializers_use_this(*class, texts(fields@)),
{
    let mut i: usize = 0;
    while i < class.fields.len()
        invariant
            i <= class.fields@.len(),
            forall|j: int|
                0 <= j < i ==> !((#[trigger] class.fields@[j]).init matches Some(e) && uses_this(
                    e,
                    texts(fields@),
                )),
        decreases class.fields@.len() - i,
    {
        if let Some(init) = &class.fields[i].init {
            if expr_uses_this_as_value(init, fields) {
                assert(class.fields@[i as int].init matches Some(e) && uses_this(
                    e,
                    texts(fields@),
                ));
                return true;
            }
        }
        i += 1;
    }
    false
}

/// Whether constructing an instance of a class needs a real `this`, which an
/// instance kept in scalars does not have.
pub fn class_uses_this_as_value(class: &Class, classes: &[Class]) -> (r: bool)
    ensures
        r == construction_uses_this(classes@, *class),
{
    let base: Option<&str> = match &class.extends_name {
        Some(n) => Some(n.as_str()),
        None => None,
    };
    let bases = lineage_of(classes, base);
    let ghost line = lineage(classes@, base_name(*class));
    assert(bases@.unref() == line);
    let mut fields: Vec<String> = Vec::new();
    add_field_names(class, &mut fields);
    let mut i: usize = 0;
    let ghost own = field_names(*class);
    assert(texts(fields@) =~= own + all_field_names(line.take(0)));
    while i < bases.len()
        invariant
            i <= bases@.len(),
            bases@.unref() == line,
            texts(fields@) == own + all_field_names(line.take(i as int)),
        decreases bases@.len() - i,
    {
        assert(*bases@[i as int] == line[i as int]);
        assert(line.take(i + 1).drop_last() =~= line.take(i as int));
        add_field_names(bases[i], &mut fields);
        i += 1;
    }
    assert(line.take(i as int) =~= line);
    if let Some(ctor) = &class.constructor {
        if stmts_use_this_as_value(ctor.body.as_slice(), &fields) {
            return true;
        }
    }
    if initializers_use_this_as_value(class, &fields) {
        return true;
    }
    let mut j: usize = 0;
    while j < bases.len()
        invariant
            j <= bases@.len(),
            bases@.unref() == line,
            line == lineage(classes@, base_name(*class)),
            texts(fields@) == field_names(*class) + all_field_names(line),
            forall|k: int|
                0 <= k < j ==> !initializers_use_this(#[trigger] line[k], texts(fields@)),
        decreases bases@.len() - j,
    {
        assert(*bases@[j as int] == line[j as int]);
        if initializers_use_this_as_value(bases[j], &fields) {
            return true;
        }
        j += 1;
    }
    false
}

} // verus!

//! Which class a name stands for, what a class has from those it derives from, and
//! where `this` stays within the fields of an instance.
use vstd::prelude::*;
use crate::codegen::classes::{
    all_field_names, base_name, block_uses_this, class_named, construction_uses_this, field_names,
    has_getter, has_setter, initializers_use_this, lineage, lineage_within, needing_this,
    needs_this, this_enter, uses_this,
};
use crate::codegen::confinement::{at_block, lemma_at_block};
use crate::codegen::hir::{family_of, Class, Expr, Stmt};
use crate::codegen::program::{
    lemma_each_holds, lemma_part_smaller, lemma_parts, lemma_visit_holds, parts,
};
use crate::codegen::walk::{block_exprs, children_of, visit, visit_each};
use crate::text::texts;

verus! {

broadcast use vstd::std_specs::vec::group_vec_axioms;

// ---- classes by name ----

/// A name stands for the first class of a table that bears it, and for none where no
/// class does.
pub proof fn lemma_class_named(cs: Seq<Class>, name: Seq<char>)
    ensures
        match class_named(cs, name) {
            Some(c) => exists|i: int|
                0 <= i < cs.len() && #[trigger] cs[i] == c && c.name@ == name && forall|j: int|
                    0 <= j < i ==> (#[trigger] cs[j]).name@ != name,
            None => forall|j: int| 0 <= j < cs.len() ==> (#[trigger] cs[j]).name@ != name,
        },
    decreases cs.len(),
{
    if cs.len() > 0 && cs[0].name@ != name {
        let rest = cs.skip(1);
        lemma_class_named(rest, name);
        match class_named(cs, name) {
            Some(c) => {
                let i = choose|i: int|
                    0 <= i < rest.len() && #[trigger] rest[i] == c && c.name@ == name && forall|
                        j: int,
                    |
                        0 <= j < i ==> (#[trigger] rest[j]).name@ != name;
                assert(cs[i + 1] == c);
                assert forall|j: int| 0 <= j < i + 1 implies (#[trigger] cs[j]).name@ != name by {
                    if j > 0 {
                        assert(rest[j - 1] == cs[j]);
                    }
                }
            },
            None => {
                assert forall|j: int| 0 <= j < cs.len() implies (#[trigger] cs[j]).name@
                    != name by {
                    if j > 0 {
                        assert(rest[j - 1] == cs[j]);
                    }
                }
            },
        }
    }
}

/// The class that is reached from a name by going to the base class `k` times.
pub open spec fn reached(cs: Seq<Class>, name: Option<Seq<char>>, k: nat) -> Option<Class>
    decreases k,
{
    match name {
        None => None,
        Some(n) => match class_named(cs, n) {
            None => None,
            Some(c) => if k == 0 {
                Some(c)
            } else {
                reached(
                    cs,
                    match c.extends_name {
                        Some(b) => Some(b@),
                        None => None,
                    },
                    (k - 1) as nat,
                )
            },
        },
    }
}

proof fn lemma_lineage_reached(cs: Seq<Class>, name: Option<Seq<char>>, fuel: nat, k: nat)
    ensures
        k < lineage_within(cs, name, fuel).len() <==> k < fuel && reached(cs, name, k) is Some,
        k < lineage_within(cs, name, fuel).len() ==> reached(cs, name, k) == Some(
            lineage_within(cs, name, fuel)[k as int],
        ),
    decreases fuel,
{
    if let Some(n) = name {
        if let Some(c) = class_named(cs, n) {
            if fuel > 0 {
                let rest = lineage_within(cs, base_name(c), (fuel - 1) as nat);
                assert(lineage_within(cs, name, fuel) =~= seq![c] + rest);
                if k > 0 {
                    lemma_lineage_reached(cs, base_name(c), (fuel - 1) as nat, (k - 1) as nat);
                }
            }
        }
    }
}

/// A property is read by a getter exactly where the class, or one reached from it over
/// base classes, has a getter for it; the same with setters.
pub proof fn lemma_accessors_inherited(cs: Seq<Class>, name: Seq<char>, property: Seq<char>)
    ensures
        has_getter(cs, name, property) <==> exists|k: nat|
            k < cs.len() && (#[trigger] reached(cs, Some(name), k) matches Some(c) && texts(
                c.getters@,
            ).contains(property)),
        has_setter(cs, name, property) <==> exists|k: nat|
            k < cs.len() && (#[trigger] reached(cs, Some(name), k) matches Some(c) && texts(
                c.setters@,
            ).contains(property)),
{
    let line = lineage(cs, Some(name));
    if has_getter(cs, name, property) {
        let i = choose|i: int|
            0 <= i < line.len() && texts((#[trigger] line[i]).getters@).contains(property);
        lemma_lineage_reached(cs, Some(name), cs.len(), i as nat);
        assert(reached(cs, Some(name), i as nat) == Some(line[i]));
    }
    if has_setter(cs, name, property) {
        let i = choose|i: int|
            0 <= i < line.len() && texts((#[trigger] line[i]).setters@).contains(property);
        lemma_lineage_reached(cs, Some(name), cs.len(), i as nat);
        assert(reached(cs, Some(name), i as nat) == Some(line[i]));
    }
    if exists|k: nat|
        k < cs.len() && (#[trigger] reached(cs, Some(name), k) matches Some(c) && texts(
            c.getters@,
        ).contains(property)) {
        let k = choose|k: nat|
            k < cs.len() && (#[trigger] reached(cs, Some(name), k) matches Some(c) && texts(
                c.getters@,
            ).contains(property));
        lemma_lineage_reached(cs, Some(name), cs.len(), k);
        assert(texts(line[k as int].getters@).contains(property));
    }
    if exists|k: nat|
        k < cs.len() && (#[trigger] reached(cs, Some(name), k) matches Some(c) && texts(
            c.setters@,
        ).contains(property)) {
        let k = choose|k: nat|
            k < cs.len() && (#[trigger] reached(cs, Some(name), k) matches Some(c) && texts(
                c.setters@,
            ).contains(property));
        lemma_lineage_reached(cs, Some(name), cs.len(), k);
        assert(texts(line[k as int].setters@).contains(property));
    }
}

// ---- `this` ----

/// Whether an access to a property of an object keeps `this` within the fields.
pub open spec fn stays_in_fields(
    object: Expr,
    property: Seq<char>,
    fields: Seq<Seq<char>>,
) -> bool
    decreases object, parts(object).len() + 3,
{
    if object is This {
        fields.contains(property)
    } else {
        keeps_this(object, fields)
    }
}

/// Whether an expression does nothing with `this` but read, set or update fields: it
/// does not stand anywhere as a value, nor in an operation that is not looked into.
pub open spec fn keeps_this(e: Expr, fields: Seq<Seq<char>>) -> bool
    decreases e, parts(e).len() + 2,
{
    match e {
        Expr::This => false,
        Expr::Closure { func_id, body, captures, captures_this } => !captures_this,
        Expr::PropertyGet { object, property } => stays_in_fields(*object, property@, fields),
        Expr::PropertyUpdate { object, property } => stays_in_fields(*object, property@, fields),
        Expr::PropertySet { object, property, value } => stays_in_fields(
            *object,
            property@,
            fields,
        ) && keeps_this(*value, fields),
        Expr::IndexRead { .. } | Expr::IndexWrite { .. } | Expr::OnLocal { .. } => false,
        Expr::Node { op, operands } => {
            let f = family_of(op);
            (f is Plain || f is ArraySpread || f is ObjectSpread || f is Literal || f is StaticRead
                || f is Membership || f is Suspension) && parts_keep_this(
                e,
                fields,
                parts(e).len(),
            )
        },
        _ => parts_keep_this(e, fields, parts(e).len()),
    }
}

/// Whether the first `n` parts of an expression keep `this`.
pub open spec fn parts_keep_this(e: Expr, fields: Seq<Seq<char>>, n: nat) -> bool
    decreases e, n,
{
    if n == 0 || n > parts(e).len() {
        true
    } else {
        proof {
            lemma_part_smaller(e, n - 1);
        }
        parts_keep_this(e, fields, (n - 1) as nat) && keeps_this(parts(e)[n - 1], fields)
    }
}

proof fn lemma_parts_keep(e: Expr, fields: Seq<Seq<char>>, n: nat)
    requires
        n <= parts(e).len(),
    ensures
        parts_keep_this(e, fields, n) <==> forall|i: int|
            0 <= i < n ==> keeps_this(#[trigger] parts(e)[i], fields),
    decreases n,
{
    if n > 0 {
        lemma_parts_keep(e, fields, (n - 1) as nat);
        if forall|i: int| 0 <= i < n ==> keeps_this(#[trigger] parts(e)[i], fields) {
            assert(keeps_this(parts(e)[n - 1], fields));
        }
    }
}

proof fn lemma_uses_unfold(e: Expr, fields: Seq<Seq<char>>)
    ensures
        uses_this(e, fields) <==> needs_this(e, fields) || exists|i: int|
            0 <= i < children_of(e).len() && #[trigger] this_enter()(e, i) && uses_this(
                children_of(e)[i],
                fields,
            ),
{
    let enters = this_enter();
    let bad = needing_this(fields);
    let met = visit(e, enters);
    if uses_this(e, fields) {
        let k = choose|k: int| 0 <= k < met.len() && bad(#[trigger] met[k]);
        let d = met[k];
        assert(met.contains(d));
        lemma_visit_holds(e, enters, d);
        if d != e {
            let i = choose|i: int|
                0 <= i < children_of(e).len() && #[trigger] enters(e, i) && visit(
                    children_of(e)[i],
                    enters,
                ).contains(d);
            let below = visit(children_of(e)[i], enters);
            let m = choose|m: int| 0 <= m < below.len() && below[m] == d;
            assert(bad(below[m]));
            assert(uses_this(children_of(e)[i], fields));
        }
    }
    if needs_this(e, fields) {
        lemma_visit_holds(e, enters, e);
        let k = choose|k: int| 0 <= k < met.len() && met[k] == e;
        assert(bad(met[k]));
    }
    if exists|i: int|
        0 <= i < children_of(e).len() && #[trigger] enters(e, i) && uses_this(
            children_of(e)[i],
            fields,
        ) {
        let i = choose|i: int|
            0 <= i < children_of(e).len() && #[trigger] enters(e, i) && uses_this(
                children_of(e)[i],
                fields,
            );
        let below = visit(children_of(e)[i], enters);
        let m = choose|m: int| 0 <= m < below.len() && bad(#[trigger] below[m]);
        assert(below.contains(below[m]));
        lemma_visit_holds(e, enters, below[m]);
        let k = choose|k: int| 0 <= k < met.len() && met[k] == below[m];
        assert(bad(met[k]));
    }
}

/// An expression needs no `this` as a value exactly where it does nothing with `this`
/// but read, set or update fields.
pub proof fn lemma_this_told(e: Expr, fields: Seq<Seq<char>>)
    ensures
        !uses_this(e, fields) <==> keeps_this(e, fields),
    decreases e,
{
    lemma_uses_unfold(e, fields);
    lemma_parts(e);
    let ps = parts(e);
    lemma_parts_keep(e, fields, ps.len());
    assert forall|i: int| 0 <= i < ps.len() implies uses_this(#[trigger] ps[i], fields)
        == !keeps_this(ps[i], fields) by {
        lemma_part_smaller(e, i);
        lemma_this_told(ps[i], fields);
    }
    match e {
        Expr::Closure { func_id, body, captures, captures_this } => {
            assert forall|i: int| 0 <= i < children_of(e).len() implies !(
            #[trigger] this_enter()(e, i)) by {}
        },
        Expr::PropertyGet { object, property } => {
            assert(children_of(e) == ps);
            assert(ps[0] == *object);
            assert(this_enter()(e, 0) == !(*object is This));
            assert(stays_in_fields(*object, property@, fields) == if *object is This {
                fields.contains(property@)
            } else {
                keeps_this(*object, fields)
            });
        },
        Expr::PropertyUpdate { object, property } => {
            assert(children_of(e) == ps);
            assert(ps[0] == *object);
            assert(this_enter()(e, 0) == !(*object is This));
            assert(stays_in_fields(*object, property@, fields) == if *object is This {
                fields.contains(property@)
            } else {
                keeps_this(*object, fields)
            });
        },
        Expr::PropertySet { object, property, value } => {
            assert(children_of(e) == ps);
            assert(ps[0] == *object && ps[1] == *value);
            assert(this_enter()(e, 0) == !(*object is This));
            assert(stays_in_fields(*object, property@, fields) == if *object is This {
                fields.contains(property@)
            } else {
                keeps_this(*object, fields)
            });
            assert(this_enter()(e, 1));
        },
        _ => {
            assert(children_of(e) == ps);
            assert forall|i: int| 0 <= i < children_of(e).len() implies #[trigger] this_enter()(
                e,
                i,
            ) by {}
            if !uses_this(e, fields) {
                assert forall|i: int| 0 <= i < ps.len() implies keeps_this(
                    #[trigger] ps[i],
                    fields,
                ) by {
                    assert(this_enter()(e, i));
                    assert(!uses_this(children_of(e)[i], fields));
                }
                assert(keeps_this(e, fields));
            } else if !needs_this(e, fields) {
                let i = choose|i: int|
                    0 <= i < children_of(e).len() && #[trigger] this_enter()(e, i) && uses_this(
                        children_of(e)[i],
                        fields,
                    );
                assert(!keeps_this(ps[i], fields));
                assert(!keeps_this(e, fields));
            } else {
                assert(!keeps_this(e, fields));
            }
        },
    }
}

/// A block needs no `this` as a value exactly where every expression in it, however
/// deep, keeps `this` within the fields.
pub proof fn lemma_block_this_told(ss: Seq<Stmt>, fields: Seq<Seq<char>>)
    ensures
        !block_uses_this(ss, fields) <==> forall|d: Expr| #[trigger]
            at_block(ss, d) ==> keeps_this(d, fields),
{
    let enters = this_enter();
    let bad = needing_this(fields);
    let es = block_exprs(ss);
    let met = visit_each(es, enters);
    if block_uses_this(ss, fields) {
        let k = choose|k: int| 0 <= k < met.len() && bad(#[trigger] met[k]);
        assert(met.contains(met[k]));
        lemma_each_holds(es, enters, met[k]);
        let i = choose|i: int|
            0 <= i < es.len() && #[trigger] visit(es[i], enters).contains(met[k]);
        let below = visit(es[i], enters);
        let m = choose|m: int| 0 <= m < below.len() && below[m] == met[k];
        assert(bad(below[m]));
        assert(uses_this(es[i], fields));
        lemma_this_told(es[i], fields);
        lemma_at_block(ss, es[i]);
        assert(at_block(ss, es[i]));
    } else {
        assert forall|d: Expr| #[trigger] at_block(ss, d) implies keeps_this(d, fields) by {
            lemma_at_block(ss, d);
            let i = choose|i: int| 0 <= i < es.len() && es[i] == d;
            lemma_this_told(d, fields);
            if uses_this(d, fields) {
                let below = visit(es[i], enters);
                let m = choose|m: int| 0 <= m < below.len() && bad(#[trigger] below[m]);
                assert(below.contains(below[m]));
                lemma_each_holds(es, enters, below[m]);
                let k = choose|k: int| 0 <= k < met.len() && met[k] == below[m];
                assert(bad(met[k]));
            }
        }
    }
}

/// Whether a class declares a field of a name.
pub open spec fn declares(c: Class, name: Seq<char>) -> bool {
    exists|i: int| 0 <= i < c.fields@.len() && (#[trigger] c.fields@[i]).name@ == name
}

/// Whether an instance of a class has a field of a name: the class declares it, or one
/// that is reached from it over base classes does.
pub open spec fn has_field(cs: Seq<Class>, c: Class, name: Seq<char>) -> bool {
    ||| declares(c, name)
    ||| exists|k: nat|
        k < cs.len() && (#[trigger] reached(cs, base_name(c), k) matches Some(b) && declares(
            b,
            name,
        ))
}

/// Whether all initializers of the fields of a class keep `this`.
pub open spec fn initializers_keep(c: Class, fields: Seq<Seq<char>>) -> bool {
    forall|i: int|
        0 <= i < c.fields@.len() ==> ((#[trigger] c.fields@[i]).init matches Some(e) ==> keeps_this(
            e,
            fields,
        ))
}

proof fn lemma_initializers(c: Class, fields: Seq<Seq<char>>)
    ensures
        !initializers_use_this(c, fields) <==> initializers_keep(c, fields),
{
    assert forall|i: int| 0 <= i < c.fields@.len() implies ((#[trigger] c.fields@[i]).init matches Some(e)
        ==> keeps_this(e, fields) == !uses_this(e, fields)) by {
        if let Some(e) = c.fields@[i].init {
            lemma_this_told(e, fields);
        }
    }
}

proof fn lemma_field_names(c: Class, name: Seq<char>)
    ensures
        field_names(c).contains(name) <==> declares(c, name),
{
    let names = field_names(c);
    if names.contains(name) {
        let i = choose|i: int| 0 <= i < names.len() && names[i] == name;
        assert(c.fields@[i].name@ == name);
    }
    if declares(c, name) {
        let i = choose|i: int| 0 <= i < c.fields@.len() && (#[trigger] c.fields@[i]).name@ == name;
        assert(names[i] == name);
    }
}

proof fn lemma_all_field_names(cs: Seq<Class>, name: Seq<char>)
    ensures
        all_field_names(cs).contains(name) <==> exists|i: int|
            0 <= i < cs.len() && declares(#[trigger] cs[i], name),
    decreases cs.len(),
{
    if cs.len() > 0 {
        let front = cs.drop_last();
        lemma_all_field_names(front, name);
        lemma_field_names(cs.last(), name);
        let a = all_field_names(front);
        let b = field_names(cs.last());
        let all = all_field_names(cs);
        if all.contains(name) {
            let k = choose|k: int| 0 <= k < all.len() && all[k] == name;
            if k < a.len() {
                assert(a[k] == name);
                let i = choose|i: int| 0 <= i < front.len() && declares(#[trigger] front[i], name);
                assert(declares(cs[i], name));
            } else {
                assert(b[k - a.len()] == name);
                assert(declares(cs[cs.len() - 1], name));
            }
        }
        if exists|i: int| 0 <= i < cs.len() && declares(#[trigger] cs[i], name) {
            let i = choose|i: int| 0 <= i < cs.len() && declares(#[trigger] cs[i], name);
            if i < front.len() {
                assert(declares(front[i], name));
                let k = choose|k: int| 0 <= k < a.len() && a[k] == name;
                assert(all[k] == name);
            } else {
                let k = choose|k: int| 0 <= k < b.len() && b[k] == name;
                assert(all[a.len() + k] == name);
            }
        }
    }
}

/// An instance is constructed without `this` as a value exactly where the constructor
/// and every initializer, those of the classes it derives from included, do nothing
/// with `this` but read, set or update fields that an instance has.
pub proof fn lemma_construction_told(cs: Seq<Class>, c: Class) -> (fields: Seq<Seq<char>>)
    ensures
        forall|name: Seq<char>| #[trigger] fields.contains(name) <==> has_field(cs, c, name),
        !construction_uses_this(cs, c) <==> {
            &&& c.constructor matches Some(f) ==> forall|d: Expr| #[trigger]
                at_block(f.body@, d) ==> keeps_this(d, fields)
            &&& initializers_keep(c, fields)
            &&& forall|k: nat|
                k < cs.len() ==> (#[trigger] reached(cs, base_name(c), k) matches Some(b)
                    ==> initializers_keep(b, fields))
        },
{
    let bases = lineage(cs, base_name(c));
    let own = field_names(c);
    let more = all_field_names(bases);
    let fields = own + more;
    assert forall|k: nat| k < cs.len() implies (k < bases.len() <==> #[trigger] reached(
        cs,
        base_name(c),
        k,
    ) is Some) && (k < bases.len() ==> reached(cs, base_name(c), k) == Some(
        bases[k as int],
    )) by {
        lemma_lineage_reached(cs, base_name(c), cs.len(), k);
    }
    lemma_lineage_reached(cs, base_name(c), cs.len(), cs.len());
    assert(bases.len() <= cs.len());
    assert forall|name: Seq<char>| #[trigger] fields.contains(name) <==> has_field(
        cs,
        c,
        name,
    ) by {
        lemma_field_names(c, name);
        lemma_all_field_names(bases, name);
        if fields.contains(name) {
            let k = choose|k: int| 0 <= k < fields.len() && fields[k] == name;
            if k < own.len() {
                assert(own[k] == name);
            } else {
                assert(more[k - own.len()] == name);
                let i = choose|i: int| 0 <= i < bases.len() && declares(#[trigger] bases[i], name);
                assert(reached(cs, base_name(c), i as nat) == Some(bases[i]));
            }
        }
        if declares(c, name) {
            let k = choose|k: int| 0 <= k < own.len() && own[k] == name;
            assert(fields[k] == name);
        } else if has_field(cs, c, name) {
            let k = choose|k: nat|
                k < cs.len() && (#[trigger] reached(cs, base_name(c), k) matches Some(b)
                    && declares(b, name));
            assert(declares(bases[k as int], name));
            let m = choose|m: int| 0 <= m < more.len() && more[m] == name;
            assert(fields[own.len() + m] == name);
        }
    }
    if let Some(f) = c.constructor {
        lemma_block_this_told(f.body@, fields);
    }
    lemma_initializers(c, fields);
    assert forall|i: int| 0 <= i < bases.len() implies initializers_use_this(
        #[trigger] bases[i],
        fields,
    ) == !initializers_keep(bases[i], fields) by {
        lemma_initializers(bases[i], fields);
    }
    if !construction_uses_this(cs, c) {
        assert forall|k: nat| k < cs.len() implies (#[trigger] reached(cs, base_name(c), k) matches Some(b)
            ==> initializers_keep(b, fields)) by {
            if k < bases.len() {
                assert(!initializers_use_this(bases[k as int], fields));
            }
        }
    }
    if forall|k: nat|
        k < cs.len() ==> (#[trigger] reached(cs, base_name(c), k) matches Some(b)
            ==> initializers_keep(b, fields)) {
        assert forall|i: int| 0 <= i < bases.len() implies !initializers_use_this(
            #[trigger] bases[i],
            fields,
        ) by {
            assert(reached(cs, base_name(c), i as nat) == Some(bases[i]));
        }
    }
    fields
}

} // verus!

//! The order in which services start.
use vstd::prelude::*;
use vstd::string::*;
use crate::compose::dependencies::{is_right_order, lemma_order_is_right};
use crate::compose::error::{ComposeError, ErrorView, Result};
use crate::compose::maps::keys_distinct;
use crate::compose::types::{dependency_names, ComposeService, ComposeSpec};
use crate::text::{
    before, contains, join5, lemma_precedes_total, lemma_precedes_transitive, lemma_texts_push,
    precedes, texts,
};

verus! {

broadcast use lemma_texts_push;

/// Services, each with the names of those it depends on.
pub type Graph = Seq<(Seq<char>, Seq<Seq<char>>)>;

/// The names that a service depends on.
pub open spec fn needs_of(s: ComposeService) -> Seq<Seq<char>> {
    match s.depends_on {
        Some(d) => dependency_names(d),
        None => Seq::empty(),
    }
}

/// The services of a project with what they depend on.
pub open spec fn graph_of(services: Seq<(Seq<char>, ComposeService)>) -> Graph {
    services.map_values(|e: (Seq<char>, ComposeService)| (e.0, needs_of(e.1)))
}

/// The names of the services.
pub open spec fn names_of(g: Graph) -> Seq<Seq<char>> {
    g.map_values(|e: (Seq<char>, Seq<Seq<char>>)| e.0)
}

/// The first of some names that is none of the services.
pub open spec fn first_unknown(names: Seq<Seq<char>>, deps: Seq<Seq<char>>) -> Option<Seq<char>>
    decreases deps.len(),
{
    if deps.len() == 0 {
        None
    } else if !names.contains(deps[0]) {
        Some(deps[0])
    } else {
        first_unknown(names, deps.skip(1))
    }
}

/// The first service that depends on one that is not there, and that one.
pub open spec fn undefined(names: Seq<Seq<char>>, g: Graph) -> Option<(Seq<char>, Seq<char>)>
    decreases g.len(),
{
    if g.len() == 0 {
        None
    } else {
        match first_unknown(names, g[0].1) {
            Some(dep) => Some((g[0].0, dep)),
            None => undefined(names, g.skip(1)),
        }
    }
}

/// Whether a service can start once others have: it has not started, and all
/// that it depends on has.
pub open spec fn is_ready(e: (Seq<char>, Seq<Seq<char>>), done: Seq<Seq<char>>) -> bool {
    &&& !done.contains(e.0)
    &&& forall|i: int| 0 <= i < e.1.len() ==> done.contains(#[trigger] e.1[i])
}

/// The first in alphabetical order of the services that can start.
pub open spec fn next_ready(g: Graph, done: Seq<Seq<char>>) -> Option<Seq<char>>
    decreases g.len(),
{
    if g.len() == 0 {
        None
    } else {
        let best = next_ready(g.drop_last(), done);
        if is_ready(g.last(), done) && (best is None || precedes(g.last().0, best->0)) {
            Some(g.last().0)
        } else {
            best
        }
    }
}

/// The services in the order in which they start, at most `n` more of them.
pub open spec fn started(g: Graph, done: Seq<Seq<char>>, n: nat) -> Seq<Seq<char>>
    decreases n,
{
    if n == 0 {
        done
    } else {
        match next_ready(g, done) {
            Some(name) => started(g, done.push(name), (n - 1) as nat),
            None => done,
        }
    }
}

/// All services that can start, in the order in which they do.
pub open spec fn start_order(g: Graph) -> Seq<Seq<char>> {
    started(g, Seq::empty(), g.len())
}

/// The names, in order, that others do not hold.
pub open spec fn left_out(names: Seq<Seq<char>>, held: Seq<Seq<char>>) -> Seq<Seq<char>>
    decreases names.len(),
{
    if names.len() == 0 {
        Seq::empty()
    } else {
        let rest = left_out(names.drop_last(), held);
        if held.contains(names.last()) {
            rest
        } else {
            rest.push(names.last())
        }
    }
}

/// The order in which the services of a project start, or why there is none.
pub open spec fn startup(g: Graph) -> std::result::Result<Seq<Seq<char>>, ErrorView> {
    match undefined(names_of(g), g) {
        Some((name, dep)) => Err(
            ErrorView::ValidationError {
                message: "Service '"@ + name + "' depends on '"@ + dep
                    + "' which is not defined"@,
            },
        ),
        None => if start_order(g).len() == g.len() {
            Ok(start_order(g))
        } else {
            Err(
                ErrorView::DependencyCycle { services: left_out(names_of(g), start_order(g)) },
            )
        },
    }
}

// ---- finding the order ----

/// The views of lists of texts.
pub open spec fn lists(v: Seq<Vec<String>>) -> Seq<Seq<Seq<char>>> {
    v.map_values(|l: Vec<String>| texts(l@))
}

/// Whether names and their dependencies are those of a graph.
pub open spec fn describes(names: Seq<String>, deps: Seq<Vec<String>>, g: Graph) -> bool {
    &&& names.len() == g.len()
    &&& deps.len() == g.len()
    &&& forall|i: int|
        0 <= i < g.len() ==> (#[trigger] g[i]).0 == names[i]@ && g[i].1 == texts(deps[i]@)
}

fn unknown_in(names: &Vec<String>, deps: &Vec<String>) -> (r: Option<String>)
    ensures
        match r {
            Some(d) => first_unknown(texts(names@), texts(deps@)) == Some(d@),
            None => first_unknown(texts(names@), texts(deps@)) is None,
        },
{
    let ghost all = texts(deps@);
    let mut i: usize = 0;
    assert(all.skip(0) =~= all);
    while i < deps.len()
        invariant
            i <= deps@.len(),
            all == texts(deps@),
            first_unknown(texts(names@), all) == first_unknown(texts(names@), all.skip(i as int)),
        decreases deps@.len() - i,
    {
        proof {
            assert(all.skip(i as int)[0] == deps@[i as int]@);
            assert(all.skip(i as int).skip(1) =~= all.skip(i + 1));
        }
        if !contains(names, deps[i].as_str()) {
            return Some(deps[i].clone());
        }
        i += 1;
    }
    None
}

fn find_undefined(names: &Vec<String>, deps: &Vec<Vec<String>>, Ghost(g): Ghost<Graph>) -> (r:
    Option<(String, String)>)
    requires
        describes(names@, deps@, g),
    ensures
        match r {
            Some(p) => undefined(names_of(g), g) == Some((p.0@, p.1@)),
            None => undefined(names_of(g), g) is None,
        },
{
    let mut i: usize = 0;
    assert(g.skip(0) =~= g);
    assert(names_of(g) =~= texts(names@));
    while i < names.len()
        invariant
            i <= names@.len(),
            describes(names@, deps@, g),
            names_of(g) == texts(names@),
            undefined(names_of(g), g) == undefined(names_of(g), g.skip(i as int)),
        decreases names@.len() - i,
    {
        proof {
            assert(g.skip(i as int)[0] == g[i as int]);
            assert(g.skip(i as int).skip(1) =~= g.skip(i + 1));
        }
        if let Some(dep) = unknown_in(names, &deps[i]) {
            return Some((names[i].clone(), dep));
        }
        i += 1;
    }
    None
}

fn ready(name: &String, deps: &Vec<String>, done: &Vec<String>) -> (r: bool)
    ensures
        r == is_ready((name@, texts(deps@)), texts(done@)),
{
    if contains(done, name.as_str()) {
        return false;
    }
    let ghost all = texts(deps@);
    let mut i: usize = 0;
    while i < deps.len()
        invariant
            i <= deps@.len(),
            all == texts(deps@),
            forall|j: int| 0 <= j < i ==> texts(done@).contains(#[trigger] all[j]),
        decreases deps@.len() - i,
    {
        assert(all[i as int] == deps@[i as int]@);
        if !contains(done, deps[i].as_str()) {
            assert(!texts(done@).contains((name@, all).1[i as int]));
            return false;
        }
        i += 1;
    }
    true
}

fn find_next(
    names: &Vec<String>,
    deps: &Vec<Vec<String>>,
    done: &Vec<String>,
    Ghost(g): Ghost<Graph>,
) -> (r: Option<String>)
    requires
        describes(names@, deps@, g),
    ensures
        match r {
            Some(n) => next_ready(g, texts(done@)) == Some(n@),
            None => next_ready(g, texts(done@)) is None,
        },
{
    let mut best: Option<usize> = None;
    let mut i: usize = 0;
    assert(g.take(0) =~= Seq::empty());
    while i < names.len()
        invariant
            i <= names@.len(),
            describes(names@, deps@, g),
            match best {
                Some(b) => b < i && next_ready(g.take(i as int), texts(done@)) == Some(
                    names@[b as int]@,
                ),
                None => next_ready(g.take(i as int), texts(done@)) is None,
            },
        decreases names@.len() - i,
    {
        proof {
            assert(g.take(i + 1).drop_last() =~= g.take(i as int));
            assert(g.take(i + 1).last() == g[i as int]);
        }
        if ready(&names[i], &deps[i], done) {
            match best {
                Some(b) => {
                    if before(names[i].as_str(), names[b].as_str()) {
                        best = Some(i);
                    }
                },
                None => {
                    best = Some(i);
                },
            }
        }
        i += 1;
    }
    assert(g.take(i as int) =~= g);
    match best {
        Some(b) => Some(names[b].clone()),
        None => None,
    }
}

fn find_order(names: &Vec<String>, deps: &Vec<Vec<String>>, Ghost(g): Ghost<Graph>) -> (r: Vec<
    String,
>)
    requires
        describes(names@, deps@, g),
    ensures
        texts(r@) == start_order(g),
{
    let n: usize = names.len();
    let mut done: Vec<String> = Vec::new();
    let mut k: usize = n;
    assert(texts(done@) =~= Seq::empty());
    while k > 0
        invariant
            k <= n,
            describes(names@, deps@, g),
            start_order(g) == started(g, texts(done@), k as nat),
        decreases k,
    {
        match find_next(names, deps, &done, Ghost(g)) {
            Some(name) => {
                done.push(name);
            },
            None => {
                return done;
            },
        }
        k -= 1;
    }
    done
}

fn find_left_out(names: &Vec<String>, held: &Vec<String>) -> (r: Vec<String>)
    ensures
        texts(r@) == left_out(texts(names@), texts(held@)),
{
    let ghost all = texts(names@);
    let mut out: Vec<String> = Vec::new();
    let mut i: usize = 0;
    assert(all.take(0) =~= Seq::empty());
    assert(texts(out@) =~= Seq::empty());
    while i < names.len()
        invariant
            i <= names@.len(),
            all == texts(names@),
            texts(out@) == left_out(all.take(i as int), texts(held@)),
        decreases names@.len() - i,
    {
        proof {
            assert(all.take(i + 1).drop_last() =~= all.take(i as int));
            assert(all.take(i + 1).last() == names@[i as int]@);
        }
        if !contains(held, names[i].as_str()) {
            out.push(names[i].clone());
        }
        i += 1;
    }
    assert(all.take(i as int) =~= all);
    out
}

/// Whether a result is the order of a graph.
pub open spec fn same_order(
    r: Result<Vec<String>>,
    v: std::result::Result<Seq<Seq<char>>, ErrorView>,
) -> bool {
    match r {
        Ok(o) => v == Ok::<Seq<Seq<char>>, ErrorView>(texts(o@)),
        Err(e) => v == Err::<Seq<Seq<char>>, ErrorView>(e@),
    }
}

/// The order in which the services of a project start: each after all that it
/// depends on, and in alphabetical order where that leaves a choice.
pub fn resolve_startup_order(spec: &ComposeSpec) -> (r: Result<Vec<String>>)
    ensures
        same_order(r, startup(graph_of(spec.services.entries()))),
        is_right_order(
            spec.services.entries(),
            match r {
                Ok(order) => Ok(texts(order@)),
                Err(e) => Err(e@),
            },
        ),
{
    let n: usize = spec.services.len();
    proof {
        lemma_order_is_right(spec.services.entries());
    }
    let ghost g = graph_of(spec.services.entries());
    let names = spec.services.keys();
    let mut deps: Vec<Vec<String>> = Vec::new();
    let mut i: usize = 0;
    while i < spec.services.len()
        invariant
            i <= spec.services.entries().len(),
            deps@.len() == i,
            g == graph_of(spec.services.entries()),
            forall|j: int| 0 <= j < i ==> texts((#[trigger] deps@[j])@) == g[j].1,
        decreases spec.services.entries().len() - i,
    {
        let service = spec.services.value_at(i);
        let own = match &service.depends_on {
            Some(d) => d.service_names(),
            None => {
                let none: Vec<String> = Vec::new();
                assert(texts(none@) =~= Seq::empty());
                none
            },
        };
        assert(texts(own@) == g[i as int].1);
        deps.push(own);
        i += 1;
    }
    assert forall|j: int| 0 <= j < g.len() implies (#[trigger] g[j]).0 == names@[j]@ && g[j].1
        == texts(deps@[j]@) by {
        assert(texts(deps@[j]@) == g[j].1);
    }
    if let Some((name, dep)) = find_undefined(&names, &deps, Ghost(g)) {
        let message = join5(
            "Service '",
            name.as_str(),
            "' depends on '",
            dep.as_str(),
            "' which is not defined",
        );
        return Err(ComposeError::ValidationError { message });
    }
    let order = find_order(&names, &deps, Ghost(g));
    assert(texts(order@).len() == order@.len());
    assert(names_of(g) =~= texts(names@));
    if order.len() != names.len() {
        return Err(ComposeError::DependencyCycle { services: find_left_out(&names, &order) });
    }
    Ok(order)
}

// ---- what the order keeps ----

/// Whether all that a service depends on has started.
pub open spec fn needs_met(e: (Seq<char>, Seq<Seq<char>>), done: Seq<Seq<char>>) -> bool {
    forall|i: int| 0 <= i < e.1.len() ==> done.contains(#[trigger] e.1[i])
}

/// Whether no service of an order comes twice, only services come, and each
/// comes after all that it depends on.
pub open spec fn is_sound(g: Graph, order: Seq<Seq<char>>) -> bool {
    &&& order.no_duplicates()
    &&& forall|i: int| 0 <= i < order.len() ==> names_of(g).contains(#[trigger] order[i])
    &&& forall|i: int, k: int|
        0 <= i < order.len() && 0 <= k < g.len() && g[k].0 == order[i] ==> needs_met(
            #[trigger] g[k],
            #[trigger] order.take(i),
        )
}

/// What is picked next is a service that can start, and no service that can
/// start comes before it in alphabetical order; nothing is picked only where no
/// service can start.
pub proof fn lemma_next_ready(g: Graph, done: Seq<Seq<char>>)
    ensures
        match next_ready(g, done) {
            Some(name) => {
                &&& exists|k: int| 0 <= k < g.len() && (#[trigger] g[k]).0 == name && is_ready(
                    g[k],
                    done,
                )
                &&& forall|k: int|
                    0 <= k < g.len() && is_ready(#[trigger] g[k], done) ==> !precedes(g[k].0, name)
            },
            None => forall|k: int| 0 <= k < g.len() ==> !is_ready(#[trigger] g[k], done),
        },
    decreases g.len(),
{
    if g.len() > 0 {
        let front = g.drop_last();
        let last = g.last();
        lemma_next_ready(front, done);
        let best = next_ready(front, done);
        assert forall|k: int| 0 <= k < g.len() - 1 implies #[trigger] g[k] == front[k] by {}
        match next_ready(g, done) {
            Some(name) => {
                if best == Some(name) {
                    let k = choose|k: int|
                        0 <= k < front.len() && (#[trigger] front[k]).0 == name && is_ready(
                            front[k],
                            done,
                        );
                    assert(g[k].0 == name);
                } else {
                    assert(g[g.len() - 1].0 == name);
                }
                assert forall|k: int|
                    0 <= k < g.len() && is_ready(#[trigger] g[k], done) implies !precedes(
                    g[k].0,
                    name,
                ) by {
                    lemma_precedes_total(g[k].0, name);
                    if k < g.len() - 1 {
                        assert(is_ready(front[k], done));
                        let b = best->0;
                        lemma_precedes_total(g[k].0, b);
                        if precedes(g[k].0, name) && name != b {
                            lemma_precedes_transitive(g[k].0, name, b);
                        }
                    }
                }
            },
            None => {},
        }
    }
}

/// The first service is sound, and so is each further step.
proof fn lemma_started_sound(g: Graph, done: Seq<Seq<char>>, n: nat)
    requires
        keys_distinct(g),
        is_sound(g, done),
        done.len() + n == g.len(),
    ensures
        is_sound(g, started(g, done, n)),
        started(g, done, n).len() <= g.len(),
        started(g, done, n).len() < g.len() ==> next_ready(g, started(g, done, n)) is None,
    decreases n,
{
    if n > 0 {
        if let Some(name) = next_ready(g, done) {
            lemma_next_ready(g, done);
            let k0 = choose|k: int|
                0 <= k < g.len() && (#[trigger] g[k]).0 == name && is_ready(g[k], done);
            let more = done.push(name);
            assert(names_of(g)[k0] == name);
            assert(is_sound(g, more)) by {
                assert forall|i: int| 0 <= i < more.len() implies names_of(g).contains(
                    #[trigger] more[i],
                ) by {
                    if i < done.len() {
                        assert(more[i] == done[i]);
                    }
                }
                assert forall|i: int, k: int|
                    0 <= i < more.len() && 0 <= k < g.len() && g[k].0 == more[i] implies needs_met(
                    #[trigger] g[k],
                    #[trigger] more.take(i),
                ) by {
                    if i < done.len() {
                        assert(more.take(i) =~= done.take(i));
                        assert(done[i] == more[i]);
                    } else {
                        assert(more.take(i) =~= done);
                        if k != k0 {
                            assert(g[k].0 != g[k0].0);
                        }
                    }
                }
            }
            lemma_started_sound(g, more, (n - 1) as nat);
        }
    }
}

/// The order that is found is sound. It holds every service, or else nothing
/// that it leaves out could start.
pub proof fn lemma_order_sound(g: Graph)
    requires
        keys_distinct(g),
    ensures
        is_sound(g, start_order(g)),
        start_order(g).len() <= g.len(),
        start_order(g).len() == g.len() ==> forall|k: int|
            0 <= k < g.len() ==> start_order(g).contains((#[trigger] g[k]).0),
        start_order(g).len() < g.len() ==> next_ready(g, start_order(g)) is None,
{
    lemma_started_sound(g, Seq::empty(), g.len());
    let order = start_order(g);
    if order.len() == g.len() {
        lemma_same_size_holds_all(g, order);
    }
}

/// The names of services with distinct names are distinct.
proof fn lemma_names_distinct(g: Graph)
    requires
        keys_distinct(g),
    ensures
        names_of(g).no_duplicates(),
{
    let names = names_of(g);
    assert forall|i: int, j: int| 0 <= i < names.len() && 0 <= j < names.len() && i != j implies
        names[i] != names[j] by {
        if i < j {
            assert(g[i].0 != g[j].0);
        } else {
            assert(g[j].0 != g[i].0);
        }
    }
}

/// As many distinct services as there are hold every one of them.
proof fn lemma_same_size_holds_all(g: Graph, order: Seq<Seq<char>>)
    requires
        keys_distinct(g),
        order.no_duplicates(),
        forall|i: int| 0 <= i < order.len() ==> names_of(g).contains(#[trigger] order[i]),
        order.len() == g.len(),
    ensures
        forall|k: int| 0 <= k < g.len() ==> order.contains((#[trigger] g[k]).0),
{
    let names = names_of(g);
    lemma_names_distinct(g);
    names.unique_seq_to_set();
    order.unique_seq_to_set();
    vstd::seq_lib::seq_to_set_is_finite(names);
    vstd::seq_lib::seq_to_set_is_finite(order);
    assert(order.to_set().subset_of(names.to_set()));
    vstd::set_lib::lemma_subset_equality(order.to_set(), names.to_set());
    assert forall|k: int| 0 <= k < g.len() implies order.contains((#[trigger] g[k]).0) by {
        assert(names[k] == g[k].0);
        assert(names.to_set().contains(names[k]));
        assert(order.to_set().contains(names[k]));
    }
}

/// A list of services that holds every one of them is as long as there are.
pub proof fn lemma_holds_all_same_size(g: Graph, order: Seq<Seq<char>>)
    requires
        keys_distinct(g),
        forall|k: int| 0 <= k < g.len() ==> order.contains((#[trigger] g[k]).0),
    ensures
        order.len() >= g.len(),
{
    let names = names_of(g);
    lemma_names_distinct(g);
    names.unique_seq_to_set();
    vstd::seq_lib::seq_to_set_is_finite(names);
    vstd::seq_lib::seq_to_set_is_finite(order);
    assert(names.to_set().subset_of(order.to_set())) by {
        assert forall|x: Seq<char>| names.to_set().contains(x) implies order.to_set().contains(
            x,
        ) by {
            let k = choose|k: int| 0 <= k < names.len() && names[k] == x;
            assert(order.contains(g[k].0));
        }
    }
    vstd::set_lib::lemma_len_subset(names.to_set(), order.to_set());
    order.lemma_cardinality_of_set();
}

/// Whether every dependency is a service.
pub open spec fn all_defined(g: Graph) -> bool {
    forall|k: int, d: int|
        0 <= k < g.len() && 0 <= d < g[k].1.len() ==> names_of(g).contains(#[trigger] g[k].1[d])
}

proof fn lemma_first_unknown(names: Seq<Seq<char>>, deps: Seq<Seq<char>>)
    ensures
        match first_unknown(names, deps) {
            Some(d) => deps.contains(d) && !names.contains(d),
            None => forall|i: int| 0 <= i < deps.len() ==> names.contains(#[trigger] deps[i]),
        },
    decreases deps.len(),
{
    if deps.len() > 0 && names.contains(deps[0]) {
        let rest = deps.skip(1);
        lemma_first_unknown(names, rest);
        match first_unknown(names, rest) {
            Some(d) => {
                let i = choose|i: int| 0 <= i < rest.len() && rest[i] == d;
                assert(deps[i + 1] == d);
            },
            None => {
                assert forall|i: int| 0 <= i < deps.len() implies names.contains(
                    #[trigger] deps[i],
                ) by {
                    if i > 0 {
                        assert(rest[i - 1] == deps[i]);
                    }
                }
            },
        }
    }
}

pub proof fn lemma_undefined(names: Seq<Seq<char>>, g: Graph)
    ensures
        match undefined(names, g) {
            Some(p) => exists|k: int|
                0 <= k < g.len() && (#[trigger] g[k]).0 == p.0 && g[k].1.contains(p.1)
                    && !names.contains(p.1),
            None => forall|k: int, d: int|
                0 <= k < g.len() && 0 <= d < g[k].1.len() ==> names.contains(
                    #[trigger] g[k].1[d],
                ),
        },
    decreases g.len(),
{
    if g.len() > 0 {
        lemma_first_unknown(names, g[0].1);
        let rest = g.skip(1);
        if first_unknown(names, g[0].1) is None {
            lemma_undefined(names, rest);
            match undefined(names, rest) {
                Some(p) => {
                    let k = choose|k: int|
                        0 <= k < rest.len() && (#[trigger] rest[k]).0 == p.0
                            && rest[k].1.contains(p.1) && !names.contains(p.1);
                    assert(g[k + 1] == rest[k]);
                },
                None => {
                    assert forall|k: int, d: int|
                        0 <= k < g.len() && 0 <= d < g[k].1.len() implies names.contains(
                        #[trigger] g[k].1[d],
                    ) by {
                        if k > 0 {
                            assert(rest[k - 1] == g[k]);
                        }
                    }
                },
            }
        } else {
            let p = undefined(names, g)->0;
            assert(g[0].0 == p.0);
        }
    }
}

/// The order fails for an undefined dependency exactly where there is one.
pub proof fn lemma_undefined_reported(g: Graph)
    ensures
        undefined(names_of(g), g) is None <==> all_defined(g),
{
    lemma_undefined(names_of(g), g);
    if let Some(p) = undefined(names_of(g), g) {
        let k = choose|k: int|
            0 <= k < g.len() && (#[trigger] g[k]).0 == p.0 && g[k].1.contains(p.1)
                && !names_of(g).contains(p.1);
        let d = choose|d: int| 0 <= d < g[k].1.len() && g[k].1[d] == p.1;
        assert(!names_of(g).contains(g[k].1[d]));
    }
}

/// Whether a ranking puts every service above all that it depends on. There is
/// such a ranking exactly where no service depends on itself in a circle.
pub open spec fn ranks(g: Graph, rank: spec_fn(Seq<char>) -> nat) -> bool {
    forall|k: int, d: int|
        0 <= k < g.len() && 0 <= d < g[k].1.len() ==> rank(#[trigger] g[k].1[d]) < rank(g[k].0)
}

/// Where nothing more can start, all services up to any rank have.
proof fn lemma_ranked_started(
    g: Graph,
    order: Seq<Seq<char>>,
    rank: spec_fn(Seq<char>) -> nat,
    r: nat,
)
    requires
        all_defined(g),
        ranks(g, rank),
        next_ready(g, order) is None,
    ensures
        forall|k: int|
            0 <= k < g.len() && rank(g[k].0) <= r ==> order.contains((#[trigger] g[k]).0),
    decreases r,
{
    lemma_next_ready(g, order);
    if r > 0 {
        lemma_ranked_started(g, order, rank, (r - 1) as nat);
    }
    assert forall|k: int| 0 <= k < g.len() && rank(g[k].0) <= r implies order.contains(
        (#[trigger] g[k]).0,
    ) by {
        if !order.contains(g[k].0) {
            assert forall|d: int| 0 <= d < g[k].1.len() implies order.contains(
                #[trigger] g[k].1[d],
            ) by {
                let dep = g[k].1[d];
                assert(names_of(g).contains(dep));
                let j = choose|j: int| 0 <= j < names_of(g).len() && names_of(g)[j] == dep;
                assert(g[j].0 == dep);
                assert(rank(dep) < rank(g[k].0));
            }
            assert(is_ready(g[k], order));
        }
    }
}

/// An order is found exactly where the dependencies are defined and go round in
/// no circle.
pub proof fn lemma_order_found(g: Graph)
    requires
        keys_distinct(g),
        all_defined(g),
    ensures
        start_order(g).len() == g.len() <==> exists|rank: spec_fn(Seq<char>) -> nat|
            #[trigger] ranks(g, rank),
{
    let order = start_order(g);
    lemma_order_sound(g);
    if order.len() == g.len() {
        let rank = |x: Seq<char>| order.index_of(x) as nat;
        assert forall|k: int, d: int| 0 <= k < g.len() && 0 <= d < g[k].1.len() implies rank(
            #[trigger] g[k].1[d],
        ) < rank(g[k].0) by {
            assert(order.contains(g[k].0));
            let i = order.index_of(g[k].0);
            order.index_of_first_ensures(g[k].0);
            assert(order[i] == g[k].0);
            assert(needs_met(g[k], order.take(i)));
            let dep = g[k].1[d];
            assert(order.take(i).contains(dep));
            let j = choose|j: int| 0 <= j < order.take(i).len() && order.take(i)[j] == dep;
            assert(order[j] == dep);
            assert(order.index_of(dep) == j) by {
                assert(order[order.index_of(dep)] == dep);
            }
        }
        assert(ranks(g, rank));
    } else if exists|rank: spec_fn(Seq<char>) -> nat| #[trigger] ranks(g, rank) {
        let rank = choose|rank: spec_fn(Seq<char>) -> nat| #[trigger] ranks(g, rank);
        assert forall|k: int| 0 <= k < g.len() implies order.contains((#[trigger] g[k]).0) by {
            lemma_ranked_started(g, order, rank, rank(g[k].0));
        }
        lemma_holds_all_same_size(g, order);
    }
}

pub proof fn lemma_left_out(names: Seq<Seq<char>>, held: Seq<Seq<char>>, x: Seq<char>)
    ensures
        left_out(names, held).contains(x) <==> names.contains(x) && !held.contains(x),
    decreases names.len(),
{
    if names.len() > 0 {
        let front = names.drop_last();
        let rest = left_out(front, held);
        lemma_left_out(front, held, x);
        let all = left_out(names, held);
        if names.contains(x) {
            let i = choose|i: int| 0 <= i < names.len() && names[i] == x;
            if i < names.len() - 1 {
                assert(front[i] == x);
            }
        }
        if front.contains(x) {
            let i = choose|i: int| 0 <= i < front.len() && front[i] == x;
            assert(names[i] == x);
        }
        assert(names[names.len() - 1] == names.last());
        if !held.contains(names.last()) {
            assert(all == rest.push(names.last()));
            assert(all[all.len() - 1] == names.last());
            if rest.contains(x) {
                let i = choose|i: int| 0 <= i < rest.len() && rest[i] == x;
                assert(all[i] == x);
            }
            if all.contains(x) {
                let i = choose|i: int| 0 <= i < all.len() && all[i] == x;
                if i < rest.len() {
                    assert(rest[i] == x);
                }
            }
        }
    }
}

/// Every service that is reported for a circle depends on another of them.
pub proof fn lemma_cycle_reported(g: Graph, k: int)
    requires
        keys_distinct(g),
        all_defined(g),
        start_order(g).len() < g.len(),
        0 <= k < g.len(),
        left_out(names_of(g), start_order(g)).contains(g[k].0),
    ensures
        exists|d: int|
            0 <= d < g[k].1.len() && left_out(names_of(g), start_order(g)).contains(
                #[trigger] g[k].1[d],
            ),
{
    let order = start_order(g);
    lemma_order_sound(g);
    lemma_next_ready(g, order);
    lemma_left_out(names_of(g), order, g[k].0);
    assert(!is_ready(g[k], order));
    let d = choose|d: int| 0 <= d < g[k].1.len() && !order.contains(#[trigger] g[k].1[d]);
    lemma_left_out(names_of(g), order, g[k].1[d]);
}

/// The order of a project is decided by its dependencies alone: there is one,
/// and it is sound and holds every service, where all dependencies are defined
/// and go round in no circle; an undefined dependency is reported before a
/// circle.
pub proof fn lemma_startup_decided(g: Graph)
    requires
        keys_distinct(g),
    ensures
        match startup(g) {
            Ok(order) => {
                &&& all_defined(g)
                &&& is_sound(g, order)
                &&& forall|k: int| 0 <= k < g.len() ==> order.contains((#[trigger] g[k]).0)
                &&& exists|rank: spec_fn(Seq<char>) -> nat| #[trigger] ranks(g, rank)
            },
            Err(ErrorView::ValidationError { .. }) => !all_defined(g),
            Err(ErrorView::DependencyCycle { .. }) => all_defined(g) && !exists|
                rank: spec_fn(Seq<char>) -> nat,
            | #[trigger] ranks(g, rank),
            Err(_) => false,
        },
{
    lemma_undefined_reported(g);
    lemma_order_sound(g);
    if all_defined(g) {
        lemma_order_found(g);
    }
}

} // verus!

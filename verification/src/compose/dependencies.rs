//! What the order of starting means for a project: in terms of the services and
//! of what each says it depends on.
use vstd::prelude::*;
use crate::compose::error::ErrorView;
use crate::compose::maps::keys_distinct;
use crate::compose::order::{
    all_defined, graph_of, is_ready, left_out, lemma_cycle_reported, lemma_holds_all_same_size,
    lemma_left_out, lemma_next_ready, lemma_order_sound, lemma_startup_decided, lemma_undefined,
    names_of, needs_met, next_ready, ranks, start_order, started, startup, undefined, Graph,
};
use crate::compose::types::{ComposeService, DependsOnSpec};
use crate::text::precedes;

verus! {

/// Whether a service says that it depends on another: in the list, or as a key of
/// the mapping.
pub open spec fn depends_on(s: ComposeService, name: Seq<char>) -> bool {
    match s.depends_on {
        Some(DependsOnSpec::List(v)) => exists|i: int|
            0 <= i < v@.len() && (#[trigger] v@[i])@ == name,
        Some(DependsOnSpec::Mapping(m)) => exists|i: int|
            0 <= i < m.entries().len() && (#[trigger] m.entries()[i]).0 == name,
        None => false,
    }
}

/// Whether a project has a service of a name.
pub open spec fn has_service(
    services: Seq<(Seq<char>, ComposeService)>,
    name: Seq<char>,
) -> bool {
    exists|i: int| 0 <= i < services.len() && (#[trigger] services[i]).0 == name
}

/// Whether one name stands before another in a list.
pub open spec fn stands_before(order: Seq<Seq<char>>, a: Seq<char>, b: Seq<char>) -> bool {
    exists|i: int, j: int|
        0 <= i < j < order.len() && #[trigger] order[i] == a && #[trigger] order[j] == b
}

/// Whether every service depends on services alone.
pub open spec fn knows_all(services: Seq<(Seq<char>, ComposeService)>) -> bool {
    forall|k: int, d: Seq<char>|
        0 <= k < services.len() && #[trigger] depends_on(services[k].1, d) ==> has_service(
            services,
            d,
        )
}

/// Whether the services can be numbered so that each has a higher number than all
/// that it depends on: whether nothing depends on itself in a circle.
pub open spec fn has_no_circle(services: Seq<(Seq<char>, ComposeService)>) -> bool {
    exists|rank: spec_fn(Seq<char>) -> nat| #[trigger] ascends(services, rank)
}

pub open spec fn ascends(
    services: Seq<(Seq<char>, ComposeService)>,
    rank: spec_fn(Seq<char>) -> nat,
) -> bool {
    forall|k: int, d: Seq<char>|
        0 <= k < services.len() && #[trigger] depends_on(services[k].1, d) ==> rank(d) < rank(
            services[k].0,
        )
}

/// Whether all that a service depends on stands in a list.
pub open spec fn satisfied(s: ComposeService, done: Seq<Seq<char>>) -> bool {
    forall|d: Seq<char>| #[trigger] depends_on(s, d) ==> done.contains(d)
}

/// Whether a list is the order in which the services of a project are to start: it
/// holds each service once and nothing else, each after all that it depends on, and
/// wherever several could be next the first in alphabetical order is.
pub open spec fn is_start_order(
    services: Seq<(Seq<char>, ComposeService)>,
    order: Seq<Seq<char>>,
) -> bool {
    &&& order.len() == services.len()
    &&& order.no_duplicates()
    &&& forall|i: int| 0 <= i < order.len() ==> has_service(services, #[trigger] order[i])
    &&& forall|k: int| 0 <= k < services.len() ==> order.contains((#[trigger] services[k]).0)
    &&& forall|k: int, d: Seq<char>|
        0 <= k < services.len() && #[trigger] depends_on(services[k].1, d) ==> stands_before(
            order,
            d,
            services[k].0,
        )
    &&& forall|i: int, k: int|
        0 <= i < order.len() && 0 <= k < services.len() && satisfied(
            services[k].1,
            order.take(i),
        ) && !order.take(i).contains(services[k].0) ==> !precedes(
            (#[trigger] services[k]).0,
            #[trigger] order[i],
        )
}

/// Whether a result is the right one for a project: the order, where every service
/// depends on services alone and on itself in no circle; else what stands in the
/// way, an unknown name before a circle.
pub open spec fn is_right_order(
    services: Seq<(Seq<char>, ComposeService)>,
    r: std::result::Result<Seq<Seq<char>>, ErrorView>,
) -> bool {
    match r {
        Ok(order) => {
            &&& knows_all(services)
            &&& has_no_circle(services)
            &&& is_start_order(services, order)
        },
        Err(ErrorView::ValidationError { message }) => exists|k: int, d: Seq<char>|
            0 <= k < services.len() && #[trigger] depends_on(services[k].1, d) && !has_service(
                services,
                d,
            ) && message == "Service '"@ + services[k].0 + "' depends on '"@ + d
                + "' which is not defined"@,
        Err(ErrorView::DependencyCycle { services: held }) => {
            &&& knows_all(services)
            &&& !has_no_circle(services)
            &&& held.len() > 0
            &&& forall|i: int| 0 <= i < held.len() ==> #[trigger] waits_for_another(
                services,
                held,
                held[i],
            )
        },
        Err(_) => false,
    }
}

/// Whether a name is that of a service that depends on one of some names.
pub open spec fn waits_for_another(
    services: Seq<(Seq<char>, ComposeService)>,
    held: Seq<Seq<char>>,
    name: Seq<char>,
) -> bool {
    exists|k: int, d: Seq<char>|
        0 <= k < services.len() && services[k].0 == name && #[trigger] depends_on(
            services[k].1,
            d,
        ) && held.contains(d)
}

/// A service depends, by what it says, on what the graph of the project has.
proof fn lemma_depends(services: Seq<(Seq<char>, ComposeService)>, k: int, d: Seq<char>)
    requires
        0 <= k < services.len(),
    ensures
        depends_on(services[k].1, d) <==> graph_of(services)[k].1.contains(d),
{
    let deps = graph_of(services)[k].1;
    match services[k].1.depends_on {
        Some(DependsOnSpec::List(v)) => {
            if depends_on(services[k].1, d) {
                let i = choose|i: int| 0 <= i < v@.len() && (#[trigger] v@[i])@ == d;
                assert(deps[i] == d);
            }
            if deps.contains(d) {
                let i = choose|i: int| 0 <= i < deps.len() && deps[i] == d;
                assert(v@[i]@ == d);
            }
        },
        Some(DependsOnSpec::Mapping(m)) => {
            if depends_on(services[k].1, d) {
                let i = choose|i: int|
                    0 <= i < m.entries().len() && (#[trigger] m.entries()[i]).0 == d;
                assert(deps[i] == d);
            }
            if deps.contains(d) {
                let i = choose|i: int| 0 <= i < deps.len() && deps[i] == d;
                assert(m.entries()[i].0 == d);
            }
        },
        None => {},
    }
}

proof fn lemma_has_service(services: Seq<(Seq<char>, ComposeService)>, name: Seq<char>)
    ensures
        has_service(services, name) <==> names_of(graph_of(services)).contains(name),
{
    let names = names_of(graph_of(services));
    if has_service(services, name) {
        let i = choose|i: int| 0 <= i < services.len() && (#[trigger] services[i]).0 == name;
        assert(names[i] == name);
    }
    if names.contains(name) {
        let i = choose|i: int| 0 <= i < names.len() && names[i] == name;
        assert(services[i].0 == name);
    }
}

proof fn lemma_knows_all(services: Seq<(Seq<char>, ComposeService)>)
    ensures
        knows_all(services) <==> all_defined(graph_of(services)),
{
    let g = graph_of(services);
    if knows_all(services) {
        assert forall|k: int, d: int|
            0 <= k < g.len() && 0 <= d < g[k].1.len() implies names_of(g).contains(
            #[trigger] g[k].1[d],
        ) by {
            lemma_depends(services, k, g[k].1[d]);
            lemma_has_service(services, g[k].1[d]);
        }
    }
    if all_defined(g) {
        assert forall|k: int, d: Seq<char>|
            0 <= k < services.len() && #[trigger] depends_on(
                services[k].1,
                d,
            ) implies has_service(services, d) by {
            lemma_depends(services, k, d);
            let i = choose|i: int| 0 <= i < g[k].1.len() && g[k].1[i] == d;
            assert(names_of(g).contains(g[k].1[i]));
            lemma_has_service(services, d);
        }
    }
}

proof fn lemma_no_circle(services: Seq<(Seq<char>, ComposeService)>)
    ensures
        has_no_circle(services) <==> exists|rank: spec_fn(Seq<char>) -> nat|
            #[trigger] ranks(graph_of(services), rank),
{
    let g = graph_of(services);
    if has_no_circle(services) {
        let rank = choose|rank: spec_fn(Seq<char>) -> nat| #[trigger] ascends(services, rank);
        assert forall|k: int, d: int| 0 <= k < g.len() && 0 <= d < g[k].1.len() implies rank(
            #[trigger] g[k].1[d],
        ) < rank(g[k].0) by {
            lemma_depends(services, k, g[k].1[d]);
        }
        assert(ranks(g, rank));
    }
    if exists|rank: spec_fn(Seq<char>) -> nat| #[trigger] ranks(g, rank) {
        let rank = choose|rank: spec_fn(Seq<char>) -> nat| #[trigger] ranks(g, rank);
        assert forall|k: int, d: Seq<char>|
            0 <= k < services.len() && #[trigger] depends_on(services[k].1, d) implies rank(d)
            < rank(services[k].0) by {
            lemma_depends(services, k, d);
            let i = choose|i: int| 0 <= i < g[k].1.len() && g[k].1[i] == d;
            assert(rank(g[k].1[i]) < rank(g[k].0));
        }
        assert(ascends(services, rank));
    }
}

/// Each service that starts is the one picked after those before it.
proof fn lemma_started_picks(g: Graph, done: Seq<Seq<char>>, n: nat, i: int)
    requires
        done.len() <= i < started(g, done, n).len(),
    ensures
        done.is_prefix_of(started(g, done, n)),
        next_ready(g, started(g, done, n).take(i)) == Some(started(g, done, n)[i]),
    decreases n,
{
    if n > 0 {
        if let Some(name) = next_ready(g, done) {
            let more = done.push(name);
            let all = started(g, done, n);
            assert(all == started(g, more, (n - 1) as nat));
            lemma_started_extends(g, more, (n - 1) as nat);
            assert(done =~= all.take(done.len() as int)) by {
                assert forall|j: int| 0 <= j < done.len() implies done[j] == all[j] by {
                    assert(more[j] == all[j]);
                }
            }
            if i == done.len() {
                assert(more[i] == all[i]);
            } else {
                lemma_started_picks(g, more, (n - 1) as nat, i);
            }
            assert(done =~= all.subrange(0, done.len() as int));
        }
    }
}

proof fn lemma_started_extends(g: Graph, done: Seq<Seq<char>>, n: nat)
    ensures
        done.len() <= started(g, done, n).len(),
        forall|j: int| 0 <= j < done.len() ==> #[trigger] started(g, done, n)[j] == done[j],
    decreases n,
{
    if n > 0 {
        if let Some(name) = next_ready(g, done) {
            let more = done.push(name);
            lemma_started_extends(g, more, (n - 1) as nat);
            assert forall|j: int| 0 <= j < done.len() implies #[trigger] started(g, done, n)[j]
                == done[j] by {
                assert(started(g, more, (n - 1) as nat)[j] == more[j]);
            }
        }
    }
}

/// The order in which a project starts is the right one, and where there is none
/// the project has none: whatever the services depend on, in the list or in the
/// mapping, stands before them.
pub proof fn lemma_order_is_right(services: Seq<(Seq<char>, ComposeService)>)
    requires
        keys_distinct(services),
    ensures
        is_right_order(services, startup(graph_of(services))),
{
    let g = graph_of(services);
    assert(keys_distinct(g)) by {
        assert forall|i: int, j: int| 0 <= i < j < g.len() implies (#[trigger] g[i]).0 != (
        #[trigger] g[j]).0 by {
            assert(services[i].0 != services[j].0);
        }
    }
    lemma_startup_decided(g);
    lemma_knows_all(services);
    lemma_no_circle(services);
    match startup(g) {
        Ok(order) => {
            lemma_order_parts(services, order);
        },
        Err(ErrorView::ValidationError { message }) => {
            lemma_unknown_reported(services);
        },
        Err(ErrorView::DependencyCycle { services: held }) => {
            lemma_circle_reported(services);
        },
        Err(_) => {},
    }
}

proof fn lemma_order_parts(services: Seq<(Seq<char>, ComposeService)>, order: Seq<Seq<char>>)
    requires
        keys_distinct(graph_of(services)),
        startup(graph_of(services)) == Ok::<Seq<Seq<char>>, ErrorView>(order),
    ensures
        is_start_order(services, order),
{
    let g = graph_of(services);
    lemma_startup_decided(g);
    assert(order == start_order(g));
    assert forall|i: int| 0 <= i < order.len() implies has_service(services, #[trigger] order[i]) by {
        assert(names_of(g).contains(order[i]));
        lemma_has_service(services, order[i]);
    }
    assert forall|k: int| 0 <= k < services.len() implies order.contains(
        (#[trigger] services[k]).0,
    ) by {
        assert(g[k].0 == services[k].0);
        assert(order.contains(g[k].0));
    }
    assert forall|k: int, d: Seq<char>|
        0 <= k < services.len() && #[trigger] depends_on(services[k].1, d) implies stands_before(
        order,
        d,
        services[k].0,
    ) by {
        lemma_depends(services, k, d);
        assert(order.contains(services[k].0));
        let j = choose|j: int| 0 <= j < order.len() && order[j] == services[k].0;
        assert(g[k].0 == order[j]);
        assert(needs_met(g[k], order.take(j)));
        let x = choose|x: int| 0 <= x < g[k].1.len() && g[k].1[x] == d;
        assert(order.take(j).contains(g[k].1[x]));
        let i = choose|i: int| 0 <= i < order.take(j).len() && order.take(j)[i] == d;
        assert(order[i] == d && order[j] == services[k].0);
    }
    assert forall|i: int, k: int|
        0 <= i < order.len() && 0 <= k < services.len() && satisfied(
            services[k].1,
            order.take(i),
        ) && !order.take(i).contains(services[k].0) implies !precedes(
        (#[trigger] services[k]).0,
        #[trigger] order[i],
    ) by {
        lemma_started_picks(g, Seq::empty(), g.len(), i);
        lemma_next_ready(g, order.take(i));
        assert(is_ready(g[k], order.take(i))) by {
            assert forall|x: int| 0 <= x < g[k].1.len() implies order.take(i).contains(
                #[trigger] g[k].1[x],
            ) by {
                lemma_depends(services, k, g[k].1[x]);
                assert(depends_on(services[k].1, g[k].1[x]));
            }
        }
    }
}

proof fn lemma_unknown_reported(services: Seq<(Seq<char>, ComposeService)>)
    requires
        startup(graph_of(services)) matches Err(ErrorView::ValidationError { .. }),
    ensures
        is_right_order(services, startup(graph_of(services))),
{
    let g = graph_of(services);
    let p = undefined(names_of(g), g)->0;
    lemma_undefined(names_of(g), g);
    let k = choose|k: int|
        0 <= k < g.len() && (#[trigger] g[k]).0 == p.0 && g[k].1.contains(p.1)
            && !names_of(g).contains(p.1);
    lemma_depends(services, k, p.1);
    lemma_has_service(services, p.1);
    assert(depends_on(services[k].1, p.1));
}

proof fn lemma_circle_reported(services: Seq<(Seq<char>, ComposeService)>)
    requires
        keys_distinct(graph_of(services)),
        startup(graph_of(services)) matches Err(ErrorView::DependencyCycle { .. }),
    ensures
        is_right_order(services, startup(graph_of(services))),
{
    let g = graph_of(services);
    let order = start_order(g);
    let held = left_out(names_of(g), order);
    lemma_startup_decided(g);
    lemma_knows_all(services);
    lemma_no_circle(services);
    lemma_order_sound(g);
    assert(order.len() < g.len());
    if held.len() == 0 {
        assert forall|k: int| 0 <= k < g.len() implies order.contains((#[trigger] g[k]).0) by {
            lemma_left_out(names_of(g), order, g[k].0);
            assert(names_of(g)[k] == g[k].0);
        }
        lemma_holds_all_same_size(g, order);
    }
    assert forall|i: int| 0 <= i < held.len() implies #[trigger] waits_for_another(
        services,
        held,
        held[i],
    ) by {
        assert(held.contains(held[i]));
        lemma_left_out(names_of(g), order, held[i]);
        let k = choose|k: int| 0 <= k < names_of(g).len() && names_of(g)[k] == held[i];
        assert(g[k].0 == held[i]);
        lemma_cycle_reported(g, k);
        let d = choose|d: int| 0 <= d < g[k].1.len() && held.contains(#[trigger] g[k].1[d]);
        lemma_depends(services, k, g[k].1[d]);
        assert(services[k].0 == held[i]);
        assert(depends_on(services[k].1, g[k].1[d]));
    }
}

} // verus!

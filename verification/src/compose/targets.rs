//! Which services a start goes through: those that are asked for, each once, in the
//! order in which services start.
use vstd::prelude::*;
use crate::compose::dependencies::stands_before;
use crate::compose::order::{graph_of, startup};
use crate::compose::engine::{SessionContainerView, SessionView};
use crate::compose::steps::{undo_container, undo_containers, undo_steps, ReplyView, StepView};
use crate::compose::up::{answers, begun, chosen, next, up_inv, Phase, UpContext, UpView};

verus! {

/// Whether a service is asked for: it is named, or no service is.
pub open spec fn is_asked(name: Seq<char>, asked: Seq<Seq<char>>) -> bool {
    asked.len() > 0 ==> exists|i: int| 0 <= i < asked.len() && #[trigger] asked[i] == name
}

/// Whether a list holds the services of an order that are asked for, and no others,
/// in that order.
pub open spec fn are_targets(
    targets: Seq<Seq<char>>,
    order: Seq<Seq<char>>,
    asked: Seq<Seq<char>>,
) -> bool {
    &&& forall|i: int|
        0 <= i < targets.len() ==> order.contains(#[trigger] targets[i]) && is_asked(
            targets[i],
            asked,
        )
    &&& forall|i: int|
        0 <= i < order.len() && is_asked(#[trigger] order[i], asked) ==> targets.contains(order[i])
    &&& forall|i: int, j: int|
        0 <= i < j < targets.len() ==> stands_before(
            order,
            #[trigger] targets[i],
            #[trigger] targets[j],
        )
}

/// What is chosen from an order are the services that are asked for.
pub proof fn lemma_chosen_are_targets(order: Seq<Seq<char>>, asked: Seq<Seq<char>>)
    ensures
        are_targets(chosen(order, asked), order, asked),
    decreases order.len(),
{
    if order.len() > 0 {
        let front = order.drop_last();
        let last = order.last();
        lemma_chosen_are_targets(front, asked);
        let before = chosen(front, asked);
        let all = chosen(order, asked);
        assert(is_asked(last, asked) <==> asked.len() == 0 || asked.contains(last));
        assert forall|x: Seq<char>| front.contains(x) implies #[trigger] order.contains(x) by {
            let k = choose|k: int| 0 <= k < front.len() && front[k] == x;
            assert(order[k] == x);
        }
        assert forall|i: int| 0 <= i < all.len() implies order.contains(#[trigger] all[i])
            && is_asked(all[i], asked) by {
            if i < before.len() {
                assert(all[i] == before[i]);
                assert(front.contains(before[i]));
            } else {
                assert(order[order.len() - 1] == all[i]);
            }
        }
        assert forall|i: int| 0 <= i < order.len() && is_asked(#[trigger] order[i], asked) implies
            all.contains(order[i]) by {
            if i < front.len() {
                assert(front[i] == order[i]);
                assert(before.contains(front[i]));
                let k = choose|k: int| 0 <= k < before.len() && before[k] == order[i];
                assert(all[k] == order[i]);
            } else {
                assert(all[all.len() - 1] == order[i]);
            }
        }
        assert forall|i: int, j: int| 0 <= i < j < all.len() implies stands_before(
            order,
            #[trigger] all[i],
            #[trigger] all[j],
        ) by {
            if j < before.len() {
                assert(all[i] == before[i] && all[j] == before[j]);
                assert(stands_before(front, before[i], before[j]));
                let (a, b) = choose|a: int, b: int|
                    0 <= a < b < front.len() && #[trigger] front[a] == before[i]
                        && #[trigger] front[b] == before[j];
                assert(order[a] == all[i] && order[b] == all[j]);
            } else {
                assert(all[i] == before[i]);
                assert(front.contains(before[i]));
                let a = choose|a: int| 0 <= a < front.len() && front[a] == before[i];
                assert(order[a] == all[i] && order[order.len() - 1] == all[j]);
            }
        }
    }
}

/// The place of the service that a start is at.
pub open spec fn at_service(phase: Phase) -> Option<int> {
    match phase {
        Phase::Describing(k)
        | Phase::Building(k)
        | Phase::Inspecting(k)
        | Phase::StoppingStale(k)
        | Phase::RemovingStale(k)
        | Phase::Starting(k)
        | Phase::Running(k) => Some(k as int),
        _ => None,
    }
}

/// Whether the services of a start are those asked for, once it is at them.
pub open spec fn serves_asked(c: UpContext, s: UpView) -> bool {
    at_service(s.phase) is Some ==> match startup(graph_of(c.spec.services.entries())) {
        Ok(order) => are_targets(s.targets, order, c.services),
        Err(_) => false,
    }
}

/// Whether a step goes on rightly through the services: a service is described only
/// where it is the first, or the one after the service at hand, and all is done only
/// after the last.
pub open spec fn goes_on(s: UpView, to: (UpView, StepView)) -> bool {
    let done: int = match at_service(s.phase) {
        Some(k) => k + 1,
        None => 0,
    };
    &&& to.1 matches StepView::Describe(name) ==> at_service(to.0.phase) == Some(done) && done
        < to.0.targets.len() && name == to.0.targets[done]
    &&& to.1 is Finish && !(s.phase is Ended) ==> done == to.0.targets.len()
    &&& at_service(s.phase) is Some ==> to.0.targets == s.targets
    &&& at_service(s.phase) is Some && at_service(to.0.phase) is Some ==> at_service(to.0.phase)
        == at_service(s.phase) || at_service(to.0.phase) == Some(done)
}

/// Whether a step stops or removes something.
pub open spec fn takes_away(step: StepView) -> bool {
    ||| step is StopContainer
    ||| step is RemoveContainer
    ||| step is RemoveNetwork
    ||| step is RemoveVolume
}

/// Whether all that is left to undo is done by stopping and removing.
pub open spec fn undoes_by_removal(s: UpView) -> bool {
    forall|i: int| 0 <= i < s.undo.len() ==> takes_away(#[trigger] s.undo[i])
}

proof fn lemma_undo_takes_away(cs: Seq<SessionContainerView>)
    ensures
        forall|i: int|
            0 <= i < undo_containers(cs).len() ==> takes_away(#[trigger] undo_containers(cs)[i]),
    decreases cs.len(),
{
    if cs.len() > 0 {
        lemma_undo_takes_away(cs.drop_last());
        let first = undo_container(cs.last());
        let rest = undo_containers(cs.drop_last());
        assert forall|i: int| 0 <= i < undo_containers(cs).len() implies takes_away(
            #[trigger] undo_containers(cs)[i],
        ) by {
            if i >= first.len() {
                assert(undo_containers(cs)[i] == rest[i - first.len()]);
            }
        }
    }
}

/// A session is undone by stopping and removing.
pub proof fn lemma_session_undone_by_removal(s: SessionView)
    ensures
        forall|i: int| 0 <= i < undo_steps(s).len() ==> takes_away(#[trigger] undo_steps(s)[i]),
{
    lemma_undo_takes_away(s.containers);
}

/// A start goes through the services that are asked for and no others, one after the
/// other, in the order in which services start; it is done only when it has been at
/// all of them.
pub proof fn lemma_start_serves_asked(c: UpContext, s: UpView, reply: ReplyView)
    requires
        up_inv(c, s),
        serves_asked(c, s),
        undoes_by_removal(s),
        answers(s.phase, reply),
    ensures
        serves_asked(c, next(c, s, reply).0),
        undoes_by_removal(next(c, s, reply).0),
        goes_on(s, next(c, s, reply)),
        next(c, s, reply).1 is Finish ==> startup(graph_of(c.spec.services.entries())) is Ok
            && are_targets(
            next(c, s, reply).0.targets,
            startup(graph_of(c.spec.services.entries()))->Ok_0,
            c.services,
        ),
{
    lemma_session_undone_by_removal(s.session);
    if let Ok(order) = startup(graph_of(c.spec.services.entries())) {
        lemma_chosen_are_targets(order, c.services);
    }
}

/// So it is from the beginning.
pub proof fn lemma_start_begins(c: UpContext, names: Seq<(Seq<char>, Seq<char>)>)
    ensures
        serves_asked(c, begun(c, names).0),
        undoes_by_removal(begun(c, names).0),
        goes_on(UpView { phase: Phase::Undoing, ..begun(c, names).0 }, begun(c, names)),
{
    if let Ok(order) = startup(graph_of(c.spec.services.entries())) {
        lemma_chosen_are_targets(order, c.services);
    }
}

} // verus!

//! What taking a project down reaches: all that the last start made, every container
//! of a service that is asked for, and every network and volume of the project's own.
use vstd::prelude::*;
use crate::compose::down::{
    cleaning, clearing, down_answers, down_begun, down_next, removals, DownContext, DownPhase,
    DownView,
};
use crate::compose::engine::{
    network_is_external, network_name, volume_is_external, volume_name, SessionContainerView,
    SessionView,
};
use crate::compose::maps::lookup;
use crate::compose::order::{graph_of, startup};
use crate::compose::steps::{undo_container, undo_containers, undo_steps, ReplyView, StepView};
use crate::compose::targets::{are_targets, lemma_chosen_are_targets};
use crate::compose::types::{ComposeSpec, ContainerInfoView};
use crate::compose::up::{
    chosen, declared_networks, declared_volumes, own_networks, own_volumes,
};

verus! {

/// Whether steps stop a container, with so much time to end in, and remove it later.
pub open spec fn stops_and_removes(steps: Seq<StepView>, id: Seq<char>, timeout: u32) -> bool {
    exists|i: int, j: int|
        0 <= i < j < steps.len() && #[trigger] steps[i] == (StepView::StopContainer { id, timeout })
            && #[trigger] steps[j] == StepView::RemoveContainer(id)
}

proof fn lemma_stops_concat(a: Seq<StepView>, b: Seq<StepView>, id: Seq<char>, timeout: u32)
    ensures
        stops_and_removes(a, id, timeout) ==> stops_and_removes(a + b, id, timeout),
        stops_and_removes(b, id, timeout) ==> stops_and_removes(a + b, id, timeout),
{
    let all = a + b;
    let stop = StepView::StopContainer { id, timeout };
    if stops_and_removes(a, id, timeout) {
        let (i, j) = choose|i: int, j: int|
            0 <= i < j < a.len() && #[trigger] a[i] == stop && #[trigger] a[j]
                == StepView::RemoveContainer(id);
        assert(all[i] == stop && all[j] == StepView::RemoveContainer(id));
    }
    if stops_and_removes(b, id, timeout) {
        let (i, j) = choose|i: int, j: int|
            0 <= i < j < b.len() && #[trigger] b[i] == stop && #[trigger] b[j]
                == StepView::RemoveContainer(id);
        assert(all[a.len() + i] == stop && all[a.len() + j] == StepView::RemoveContainer(id));
    }
}

/// Every container that bears the labels of a service of a project is stopped and
/// removed.
pub proof fn lemma_own_containers_go(
    infos: Seq<ContainerInfoView>,
    project: Seq<char>,
    service: Seq<char>,
    k: int,
)
    requires
        0 <= k < infos.len(),
        lookup(infos[k].labels, "perry.compose.project"@) == Some(project),
        lookup(infos[k].labels, "perry.compose.service"@) == Some(service),
    ensures
        stops_and_removes(removals(infos, project, service), infos[k].id, 10),
    decreases infos.len(),
{
    let front = infos.drop_last();
    let before = removals(front, project, service);
    let all = removals(infos, project, service);
    if k < front.len() {
        lemma_own_containers_go(front, project, service, k);
        if all.len() > before.len() {
            let more = all.skip(before.len() as int);
            assert(all =~= before + more);
            lemma_stops_concat(before, more, infos[k].id, 10);
        }
    } else {
        let id = infos[k].id;
        assert(all[all.len() - 2] == (StepView::StopContainer { id, timeout: 10 }));
        assert(all[all.len() - 1] == StepView::RemoveContainer(id));
    }
}

/// The networks of a project's own are all that are not external.
pub proof fn lemma_own_networks_all(spec: ComposeSpec, declared: Seq<Seq<char>>, k: int)
    requires
        0 <= k < declared.len(),
        !network_is_external(spec, declared[k]),
    ensures
        own_networks(spec, declared).contains(declared[k]),
    decreases declared.len(),
{
    let front = declared.drop_last();
    let before = own_networks(spec, front);
    let all = own_networks(spec, declared);
    if k < front.len() {
        lemma_own_networks_all(spec, front, k);
        let i = choose|i: int| 0 <= i < before.len() && before[i] == front[k];
        assert(all[i] == declared[k]);
    } else {
        assert(all[all.len() - 1] == declared[k]);
    }
}

/// The volumes of a project's own are all that are not external.
pub proof fn lemma_own_volumes_all(spec: ComposeSpec, declared: Seq<Seq<char>>, k: int)
    requires
        0 <= k < declared.len(),
        !volume_is_external(spec, declared[k]),
    ensures
        own_volumes(spec, declared).contains(declared[k]),
    decreases declared.len(),
{
    let front = declared.drop_last();
    let before = own_volumes(spec, front);
    let all = own_volumes(spec, declared);
    if k < front.len() {
        lemma_own_volumes_all(spec, front, k);
        let i = choose|i: int| 0 <= i < before.len() && before[i] == front[k];
        assert(all[i] == declared[k]);
    } else {
        assert(all[all.len() - 1] == declared[k]);
    }
}

/// Every network that a project declares as its own is removed.
pub proof fn lemma_own_networks_go(c: DownContext, k: int)
    requires
        0 <= k < declared_networks(c.spec).len(),
        !network_is_external(c.spec, declared_networks(c.spec)[k]),
    ensures
        cleaning(c).contains(
            StepView::RemoveNetwork(
                network_name(c.spec, c.project, declared_networks(c.spec)[k]),
            ),
        ),
{
    let declared = declared_networks(c.spec);
    lemma_own_networks_all(c.spec, declared, k);
    let own = own_networks(c.spec, declared);
    let i = choose|i: int| 0 <= i < own.len() && own[i] == declared[k];
    assert(cleaning(c)[i] == StepView::RemoveNetwork(
        network_name(c.spec, c.project, declared[k]),
    ));
}

/// Every volume that a project declares as its own is removed where that is asked for.
pub proof fn lemma_own_volumes_go(c: DownContext, k: int)
    requires
        c.volumes,
        0 <= k < declared_volumes(c.spec).len(),
        !volume_is_external(c.spec, declared_volumes(c.spec)[k]),
    ensures
        cleaning(c).contains(
            StepView::RemoveVolume(volume_name(c.spec, c.project, declared_volumes(c.spec)[k])),
        ),
{
    let declared = declared_volumes(c.spec);
    lemma_own_volumes_all(c.spec, declared, k);
    let own = own_volumes(c.spec, declared);
    let i = choose|i: int| 0 <= i < own.len() && own[i] == declared[k];
    let at = own_networks(c.spec, declared_networks(c.spec)).len() + i;
    assert(cleaning(c)[at] == StepView::RemoveVolume(
        volume_name(c.spec, c.project, declared[k]),
    ));
}

/// Whether steps undo what was done about a container: it is stopped, and removed
/// where it was made.
pub open spec fn undoes(steps: Seq<StepView>, c: SessionContainerView) -> bool {
    &&& steps.contains(StepView::StopContainer { id: c.id, timeout: 5 })
    &&& c.created ==> stops_and_removes(steps, c.id, 5)
}

proof fn lemma_containers_undone(cs: Seq<SessionContainerView>, k: int)
    requires
        0 <= k < cs.len(),
    ensures
        undoes(undo_containers(cs), cs[k]),
    decreases cs.len(),
{
    let front = cs.drop_last();
    let first = undo_container(cs.last());
    let rest = undo_containers(front);
    let all = undo_containers(cs);
    let stop = StepView::StopContainer { id: cs[k].id, timeout: 5 };
    if k < front.len() {
        lemma_containers_undone(front, k);
        lemma_stops_concat(first, rest, cs[k].id, 5);
        let i = choose|i: int| 0 <= i < rest.len() && rest[i] == stop;
        assert(all[first.len() + i] == stop);
    } else {
        assert(all[0] == stop);
        if cs[k].created {
            assert(all[1] == StepView::RemoveContainer(cs[k].id));
        }
    }
}

/// What a start did is undone: its containers are stopped, and removed where they
/// were made, and its networks and volumes are removed.
pub proof fn lemma_session_undone(s: SessionView)
    ensures
        forall|k: int|
            0 <= k < s.containers.len() ==> undoes(undo_steps(s), #[trigger] s.containers[k]),
        forall|k: int|
            0 <= k < s.networks.len() ==> undo_steps(s).contains(
                StepView::RemoveNetwork(#[trigger] s.networks[k]),
            ),
        forall|k: int|
            0 <= k < s.volumes.len() ==> undo_steps(s).contains(
                StepView::RemoveVolume(#[trigger] s.volumes[k]),
            ),
        undo_steps(s).len() == undo_containers(s.containers).len() + s.networks.len()
            + s.volumes.len(),
{
    let a = undo_containers(s.containers);
    let all = undo_steps(s);
    assert forall|k: int| 0 <= k < s.containers.len() implies undoes(
        all,
        #[trigger] s.containers[k],
    ) by {
        lemma_containers_undone(s.containers, k);
        let stop = StepView::StopContainer { id: s.containers[k].id, timeout: 5 };
        let i = choose|i: int| 0 <= i < a.len() && a[i] == stop;
        assert(all[i] == stop);
        let more = all.skip(a.len() as int);
        assert(all =~= a + more);
        lemma_stops_concat(a, more, s.containers[k].id, 5);
    }
    assert forall|k: int| 0 <= k < s.networks.len() implies all.contains(
        StepView::RemoveNetwork(#[trigger] s.networks[k]),
    ) by {
        assert(all[a.len() + s.networks.len() - 1 - k] == StepView::RemoveNetwork(s.networks[k]));
    }
    assert forall|k: int| 0 <= k < s.volumes.len() implies all.contains(
        StepView::RemoveVolume(#[trigger] s.volumes[k]),
    ) by {
        assert(all[a.len() + s.networks.len() + s.volumes.len() - 1 - k] == StepView::RemoveVolume(
            s.volumes[k],
        ));
    }
}

/// The place of the service that taking down is at.
pub open spec fn is_at(phase: DownPhase) -> Option<int> {
    match phase {
        DownPhase::Listing(k) | DownPhase::Clearing(k) => Some(k as int),
        _ => None,
    }
}

/// Whether the services of taking down are those asked for, the last one started
/// first, once it is at them.
pub open spec fn clears_asked(c: DownContext, s: DownView) -> bool {
    &&& is_at(s.phase) matches Some(k) ==> k < s.targets.len()
    &&& is_at(s.phase) is Some || s.phase is Cleaning
        ==> match startup(graph_of(c.spec.services.entries())) {
        Ok(order) => are_targets(s.targets.reverse(), order, c.services),
        Err(_) => false,
    }
}

/// What is left to do, the step at hand included.
pub open spec fn ahead(to: (DownView, StepView)) -> Seq<StepView> {
    seq![to.1] + to.0.queue
}

/// Whether a step goes on rightly: to the next service only from the one before it,
/// when nothing is left to do there, and to the project's networks and volumes only
/// from the last service.
pub open spec fn moves_on(c: DownContext, s: DownView, to: (DownView, StepView)) -> bool {
    &&& is_at(s.phase) matches Some(k) ==> {
        &&& to.0.targets == s.targets
        &&& to.0.phase matches DownPhase::Listing(n) ==> n == k + 1 && to.1 is ListContainers
        &&& to.0.phase matches DownPhase::Clearing(n) ==> n == k
        &&& to.0.phase is Cleaning ==> k + 1 == s.targets.len() && ahead(to) == cleaning(c)
        &&& to.0.phase is Ended && !(to.1 is Fail) ==> k + 1 == s.targets.len() && cleaning(
            c,
        ).len() == 0
    }
    &&& s.phase is Undoing || s.phase is Clearing || s.phase is Cleaning ==> s.queue.len() > 0
        ==> ahead(to) == s.queue && to.0.phase == s.phase
    &&& s.phase is Undoing && s.queue.len() == 0 ==> {
        ||| to.0.phase == DownPhase::Listing(0) && to.1 is ListContainers
        ||| to.0.targets.len() == 0 && to.0.phase is Cleaning && ahead(to) == cleaning(c)
        ||| to.0.targets.len() == 0 && to.1 is Finish && cleaning(c).len() == 0
        ||| startup(graph_of(c.spec.services.entries())) is Err && to.1 is Fail
    }
}

/// Taking down goes through the services that are asked for and no others, the last
/// one started first; it does all that is in line before it goes on.
pub proof fn lemma_down_clears_asked(c: DownContext, s: DownView, reply: ReplyView)
    requires
        clears_asked(c, s),
        down_answers(s.phase, reply),
        s.targets.len() <= usize::MAX,
    ensures
        clears_asked(c, down_next(c, s, reply).0),
        moves_on(c, s, down_next(c, s, reply)),
{
    let to = down_next(c, s, reply);
    if let Ok(order) = startup(graph_of(c.spec.services.entries())) {
        lemma_chosen_are_targets(order, c.services);
        let t = chosen(order, c.services);
        assert(t.reverse().reverse() =~= t);
    }
    if s.queue.len() > 0 {
        assert(seq![s.queue[0]] + s.queue.skip(1) =~= s.queue);
    }
    let all = cleaning(c);
    if all.len() > 0 {
        assert(seq![all[0]] + all.skip(1) =~= all);
    }
}

/// When the containers have been listed, all those of the service at hand that bear
/// its labels are stopped and removed next.
pub proof fn lemma_listed_go(
    c: DownContext,
    s: DownView,
    at: usize,
    containers: Seq<ContainerInfoView>,
    generated: Seq<char>,
    k: int,
)
    requires
        s.phase == DownPhase::Listing(at),
        0 <= k < containers.len(),
        lookup(containers[k].labels, "perry.compose.project"@) == Some(c.project),
        lookup(containers[k].labels, "perry.compose.service"@) == Some(s.targets[at as int]),
    ensures
        stops_and_removes(
            ahead(down_next(c, s, ReplyView::Listed { containers, generated })),
            containers[k].id,
            10,
        ),
        down_next(c, s, ReplyView::Listed { containers, generated }).0.phase
            == DownPhase::Clearing(at),
{
    let service = s.targets[at as int];
    let own = removals(containers, c.project, service);
    let all = clearing(c, service, containers, generated);
    lemma_own_containers_go(containers, c.project, service, k);
    let more = all.skip(own.len() as int);
    assert(all =~= own + more);
    lemma_stops_concat(own, more, containers[k].id, 10);
    assert(seq![all[0]] + all.skip(1) =~= all);
}

/// Whatever is listed, the container that goes by the name of a service is stopped
/// and removed.
pub proof fn lemma_named_goes(
    c: DownContext,
    s: DownView,
    at: usize,
    containers: Seq<ContainerInfoView>,
    generated: Seq<char>,
    name: Seq<char>,
)
    requires
        s.phase == DownPhase::Listing(at),
        lookup(c.names, s.targets[at as int]) == Some(name),
    ensures
        stops_and_removes(
            ahead(down_next(c, s, ReplyView::Listed { containers, generated })),
            name,
            10,
        ),
{
    let all = clearing(c, s.targets[at as int], containers, generated);
    let n = all.len();
    assert(all[n - 2] == (StepView::StopContainer { id: name, timeout: 10 }));
    assert(all[n - 1] == StepView::RemoveContainer(name));
    assert(seq![all[0]] + all.skip(1) =~= all);
}

/// Taking down begins with what the last start made: its containers and networks go
/// first, and its volumes where that is asked for.
pub proof fn lemma_down_begins(c: DownContext, session: SessionView)
    ensures
        clears_asked(c, down_begun(c, session).0),
        session.containers.len() > 0 || session.networks.len() > 0 ==> down_begun(
            c,
            session,
        ).0.phase is Undoing,
        forall|k: int|
            0 <= k < session.containers.len() ==> undoes(
                ahead(down_begun(c, session)),
                #[trigger] session.containers[k],
            ),
        forall|k: int|
            0 <= k < session.networks.len() ==> ahead(down_begun(c, session)).contains(
                StepView::RemoveNetwork(#[trigger] session.networks[k]),
            ),
        c.volumes ==> forall|k: int|
            0 <= k < session.volumes.len() ==> ahead(down_begun(c, session)).contains(
                StepView::RemoveVolume(#[trigger] session.volumes[k]),
            ),
{
    if let Ok(order) = startup(graph_of(c.spec.services.entries())) {
        lemma_chosen_are_targets(order, c.services);
        let t = chosen(order, c.services);
        assert(t.reverse().reverse() =~= t);
    }
    let s = if c.volumes {
        session
    } else {
        SessionView { volumes: Seq::empty(), ..session }
    };
    lemma_session_undone(s);
    let all = undo_steps(s);
    if session.containers.len() > 0 {
        assert(undoes(all, s.containers[0]));
    }
    if all.len() > 0 {
        assert(seq![all[0]] + all.skip(1) =~= all);
    }
}

} // verus!

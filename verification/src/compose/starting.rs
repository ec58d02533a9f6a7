//! What a start does about each thing: what is missing is made, what stands still is
//! started, what is out of date is replaced, and what was done is counted.
use vstd::prelude::*;
use crate::compose::capabilities::EnforcementMode;
use crate::compose::engine::{
    lemma_labels_identify, network_is_external, network_name, no_session, volume_is_external,
    volume_name, SessionContainerView,
};
use crate::compose::error::ErrorView;
use crate::compose::maps::lookup;
use crate::compose::shutdown::{lemma_own_networks_all, lemma_own_volumes_all};
use crate::compose::steps::{undo_steps, ReplyView, StepView};
use crate::compose::up::{
    answers, bridges, declared_networks, declared_volumes, lemma_own_networks, lemma_own_volumes,
    next, planned_networks, planned_volumes, service_of, service_warnings, up_inv, Phase, UpContext,
    UpView,
};

verus! {

// ---- networks and volumes ----

/// A start makes a network of its own for every one that the project declares and that
/// is not external, where the backend has such networks, and a volume for every one
/// that is not external.
pub proof fn lemma_all_planned(c: UpContext)
    ensures
        bridges(c) ==> forall|k: int|
            0 <= k < declared_networks(c.spec).len() && !network_is_external(
                c.spec,
                declared_networks(c.spec)[k],
            ) ==> planned_networks(c).contains(#[trigger] declared_networks(c.spec)[k]),
        !bridges(c) ==> planned_networks(c).len() == 0,
        forall|k: int|
            0 <= k < declared_volumes(c.spec).len() && !volume_is_external(
                c.spec,
                declared_volumes(c.spec)[k],
            ) ==> planned_volumes(c).contains(#[trigger] declared_volumes(c.spec)[k]),
{
    let nets = declared_networks(c.spec);
    let vols = declared_volumes(c.spec);
    if bridges(c) {
        assert forall|k: int|
            0 <= k < nets.len() && !network_is_external(c.spec, nets[k]) implies planned_networks(
            c,
        ).contains(#[trigger] nets[k]) by {
            lemma_own_networks_all(c.spec, nets, k);
        }
    }
    assert forall|k: int|
        0 <= k < vols.len() && !volume_is_external(c.spec, vols[k]) implies planned_volumes(
        c,
    ).contains(#[trigger] vols[k]) by {
        lemma_own_volumes_all(c.spec, vols, k);
    }
}

/// A network is made only where it is the project's own and was looked for in vain,
/// and under the name by which it was looked for; the same with volumes.
pub proof fn lemma_made_where_missing(c: UpContext, s: UpView, reply: ReplyView)
    requires
        up_inv(c, s),
        answers(s.phase, reply),
        !(s.phase is Undoing),
    ensures
        next(c, s, reply).1 matches StepView::CreateNetwork { declared, name } ==> {
            &&& reply is Failed
            &&& s.phase matches Phase::InspectingNetwork(i) && declared == planned_networks(
                c,
            )[i as int]
            &&& name == network_name(c.spec, c.project, declared)
            &&& !network_is_external(c.spec, declared)
        },
        next(c, s, reply).1 matches StepView::CreateVolume { declared, name } ==> {
            &&& reply is Failed
            &&& s.phase matches Phase::InspectingVolume(i) && declared == planned_volumes(
                c,
            )[i as int]
            &&& name == volume_name(c.spec, c.project, declared)
            &&& !volume_is_external(c.spec, declared)
        },
        s.phase is InspectingNetwork && reply is Failed ==> next(c, s, reply).1 is CreateNetwork,
        s.phase is InspectingVolume && reply is Failed ==> next(c, s, reply).1 is CreateVolume,
{
    lemma_own_networks(c.spec, declared_networks(c.spec));
    lemma_own_volumes(c.spec, declared_volumes(c.spec));
    if let Phase::InspectingNetwork(i) = s.phase {
        assert(!network_is_external(c.spec, planned_networks(c)[i as int]));
    }
    if let Phase::InspectingVolume(i) = s.phase {
        assert(!volume_is_external(c.spec, planned_volumes(c)[i as int]));
    }
}

/// The place of the network or volume that a start is at, volumes after all networks.
pub open spec fn place(c: UpContext, phase: Phase) -> Option<int> {
    match phase {
        Phase::InspectingNetwork(i) | Phase::CreatingNetwork(i) => Some(i as int),
        Phase::InspectingVolume(i) | Phase::CreatingVolume(i) => Some(
            planned_networks(c).len() + i as int,
        ),
        _ => None,
    }
}

/// Networks and volumes are gone through one by one: none is passed over, and services
/// come only after the last.
pub proof fn lemma_one_by_one(c: UpContext, s: UpView, reply: ReplyView)
    requires
        up_inv(c, s),
        answers(s.phase, reply),
        place(c, s.phase) is Some,
    ensures
        ({
            let here = place(c, s.phase)->0;
            let all = planned_networks(c).len() + planned_volumes(c).len();
            let to = next(c, s, reply);
            match place(c, to.0.phase) {
                Some(there) => there == here + 1 || (there == here && (to.1 is CreateNetwork
                    || to.1 is CreateVolume)),
                None => here + 1 == all || to.1 is Fail,
            }
        }),
{
}

// ---- containers ----

/// What is done about a container answers to what was found: one that is missing is
/// run, one from another definition is stopped and removed before that, one that
/// stands still is started, and one that runs is left alone.
pub proof fn lemma_container_met(c: UpContext, s: UpView, k: usize, reply: ReplyView)
    requires
        s.phase == Phase::Inspecting(k),
    ensures
        ({
            let to = next(c, s, reply);
            match reply {
                ReplyView::Found(info) => {
                    let current = lookup(info.labels, "perry.compose.spec_hash"@) == Some(s.hash);
                    &&& !current ==> to.1 == (StepView::StopContainer {
                        id: s.container,
                        timeout: 10,
                    }) && to.0.phase == Phase::StoppingStale(k)
                    &&& current && info.status != "running"@ ==> to.1 == StepView::StartContainer(
                        s.container,
                    )
                    &&& current && info.status == "running"@ ==> to.1 is Describe || to.1 is Finish
                    &&& to.0.session == s.session
                },
                _ => to.1 is RunContainer && to.0.session == s.session,
            }
        }),
{
}

/// What is run bears the name of the container and the labels by which it is found
/// again: of the project, of the service and of its definition.
pub proof fn lemma_run_is_findable(c: UpContext, s: UpView, k: usize, reply: ReplyView)
    requires
        s.phase == Phase::Inspecting(k) || s.phase == Phase::RemovingStale(k),
    ensures
        next(c, s, reply).1 matches StepView::RunContainer { spec, profile } ==> {
            &&& spec.name == Some(s.container)
            &&& spec.labels matches Some(labels)
            &&& lookup(labels, "perry.compose.project"@) == Some(c.project)
            &&& lookup(labels, "perry.compose.service"@) == Some(s.targets[k as int])
            &&& lookup(labels, "perry.compose.spec_hash"@) == Some(s.hash)
        },
        s.phase is RemovingStale ==> next(c, s, reply).1 is RunContainer,
{
    lemma_labels_identify(
        service_of(c, s.targets[k as int]),
        c.project,
        s.targets[k as int],
        s.hash,
    );
}

/// An image is built exactly where a service says how and names none; otherwise its
/// container is looked for at once.
pub proof fn lemma_built_where_asked(c: UpContext, s: UpView, k: usize, reply: ReplyView)
    requires
        s.phase == Phase::Describing(k),
        reply is Described,
    ensures
        ({
            let service = service_of(c, s.targets[k as int]);
            &&& next(c, s, reply).1 is Build <==> next(c, s, reply).0.phase == Phase::Building(k)
            &&& service.build is Some && service.image is None ==> next(c, s, reply).1 is Build
            &&& !(service.build is Some && service.image is None) && c.mode
                != EnforcementMode::Strict ==> next(c, s, reply).1 is InspectContainer
            &&& next(c, s, reply).1 matches StepView::InspectContainer(name) ==> name == next(
                c,
                s,
                reply,
            ).0.container && next(c, s, reply).0.phase == Phase::Inspecting(k)
        }),
{
}

// ---- what counts as done ----

/// What was done is counted, and nothing else: a network or volume that was made, by
/// its name, a container that was run, by the id it got, and one that was started
/// again as that.
pub proof fn lemma_done_is_counted(c: UpContext, s: UpView, step: ReplyView, reply: ReplyView)
    requires
        up_inv(c, s),
        !(s.phase is Undoing),
        answers(s.phase, step),
        answers(next(c, s, step).0.phase, reply),
        !(reply is Failed),
    ensures
        ({
            let to = next(c, s, step);
            let after = next(c, to.0, reply).0.session;
            let before = to.0.session;
            &&& to.1 matches StepView::CreateNetwork { declared, name } ==> after.networks
                == before.networks.push(name) && after.volumes == before.volumes
                && after.containers == before.containers
            &&& to.1 matches StepView::CreateVolume { declared, name } ==> after.volumes
                == before.volumes.push(name) && after.networks == before.networks
                && after.containers == before.containers
            &&& to.1 is RunContainer ==> (reply matches ReplyView::Started(id) && after.containers
                == before.containers.push(SessionContainerView { id, created: true })
                && after.networks == before.networks && after.volumes == before.volumes)
            &&& to.1 matches StepView::StartContainer(id) ==> to.0.phase is Starting
                ==> after.containers == before.containers.push(
                SessionContainerView { id, created: false },
            ) && after.networks == before.networks && after.volumes == before.volumes
            &&& to.1 is InspectNetwork || to.1 is InspectVolume || to.1 is InspectContainer
                ==> after == before
        }),
{
}

/// A service that fails to start takes the whole start back: all that was counted is
/// handed out to be undone, and then the failure is told with the name of the service.
pub proof fn lemma_failed_service_told(c: UpContext, s: UpView, k: usize, reply: ReplyView)
    requires
        s.phase == Phase::Running(k) || s.phase == Phase::Starting(k) || s.phase
            == Phase::Building(k),
        reply is Failed,
    ensures
        ({
            let to = next(c, s, reply);
            let all = undo_steps(s.session);
            &&& to.0.session == no_session()
            &&& all.len() > 0 ==> seq![to.1] + to.0.undo == all && to.0.phase is Undoing
            &&& all.len() == 0 ==> to.1 is Fail
            &&& all.len() > 0 ==> (to.0.failure matches Some(
                ErrorView::ServiceStartupFailed { service, message },
            ) && service == s.targets[k as int])
        }),
{
    let all = undo_steps(s.session);
    if all.len() > 0 {
        assert(seq![all[0]] + all.skip(1) =~= all);
    }
}

/// Under strict enforcement a container is looked for only where the backend honours
/// all that its service asks; otherwise every warning is kept.
pub proof fn lemma_warnings_kept(c: UpContext, s: UpView, k: usize, reply: ReplyView)
    requires
        s.phase == Phase::Building(k),
        !(reply is Failed),
    ensures
        ({
            let to = next(c, s, reply);
            let ws = service_warnings(c, s, k as int);
            &&& to.0.phase == Phase::Inspecting(k) ==> to.0.warnings == s.warnings + ws
            &&& c.mode == EnforcementMode::Strict && ws.len() > 0 ==> !(
            to.0.phase is Inspecting) && to.0.session == no_session()
            &&& c.mode != EnforcementMode::Strict ==> to.1 == StepView::InspectContainer(
                s.container,
            )
        }),
{
}

} // verus!

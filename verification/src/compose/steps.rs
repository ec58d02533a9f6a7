//! Single steps of work on a backend, and how they turn out.
use vstd::prelude::*;
use crate::compose::backend::{ProfileView, SecurityProfile};
use crate::compose::engine::{
    brought_up, Session, SessionContainer, SessionContainerView, SessionView,
};
use crate::compose::error::{ComposeError, ErrorView};
use crate::compose::outputs::info_views;
use crate::compose::types::{ContainerInfo, ContainerInfoView, ContainerSpec, ContainerSpecView};
use crate::text::texts;

verus! {

/// What to do next.
#[derive(Debug)]
pub enum Step {
    InspectNetwork(String),
    CreateNetwork { declared: String, name: String },
    InspectVolume(String),
    CreateVolume { declared: String, name: String },
    /// Give a name for a new container of a service, and the definition of the
    /// service in JSON.
    Describe(String),
    Build { service: String, image: String },
    InspectContainer(String),
    StopContainer { id: String, timeout: u32 },
    /// Remove a container even if it is running.
    RemoveContainer(String),
    StartContainer(String),
    RunContainer { spec: ContainerSpec, profile: SecurityProfile },
    RemoveNetwork(String),
    RemoveVolume(String),
    /// List all containers.
    ListContainers,
    /// Nothing more: all is done.
    Finish,
    /// Nothing more: it failed.
    Fail(ComposeError),
}

/// What a [`Step`] says.
pub enum StepView {
    InspectNetwork(Seq<char>),
    CreateNetwork { declared: Seq<char>, name: Seq<char> },
    InspectVolume(Seq<char>),
    CreateVolume { declared: Seq<char>, name: Seq<char> },
    Describe(Seq<char>),
    Build { service: Seq<char>, image: Seq<char> },
    InspectContainer(Seq<char>),
    StopContainer { id: Seq<char>, timeout: u32 },
    RemoveContainer(Seq<char>),
    StartContainer(Seq<char>),
    RunContainer { spec: ContainerSpecView, profile: ProfileView },
    RemoveNetwork(Seq<char>),
    RemoveVolume(Seq<char>),
    ListContainers,
    Finish,
    Fail(ErrorView),
}

impl View for Step {
    type V = StepView;

    open spec fn view(&self) -> StepView {
        match *self {
            Step::InspectNetwork(n) => StepView::InspectNetwork(n@),
            Step::CreateNetwork { declared, name } => StepView::CreateNetwork {
                declared: declared@,
                name: name@,
            },
            Step::InspectVolume(n) => StepView::InspectVolume(n@),
            Step::CreateVolume { declared, name } => StepView::CreateVolume {
                declared: declared@,
                name: name@,
            },
            Step::Describe(s) => StepView::Describe(s@),
            Step::Build { service, image } => StepView::Build { service: service@, image: image@ },
            Step::InspectContainer(n) => StepView::InspectContainer(n@),
            Step::StopContainer { id, timeout } => StepView::StopContainer { id: id@, timeout },
            Step::RemoveContainer(n) => StepView::RemoveContainer(n@),
            Step::StartContainer(n) => StepView::StartContainer(n@),
            Step::RunContainer { spec, profile } => StepView::RunContainer {
                spec: spec@,
                profile: profile@,
            },
            Step::RemoveNetwork(n) => StepView::RemoveNetwork(n@),
            Step::RemoveVolume(n) => StepView::RemoveVolume(n@),
            Step::ListContainers => StepView::ListContainers,
            Step::Finish => StepView::Finish,
            Step::Fail(e) => StepView::Fail(e@),
        }
    }
}

/// What a list of steps says.
pub open spec fn step_views(v: Seq<Step>) -> Seq<StepView> {
    v.map_values(|s: Step| s@)
}

/// Appending a step to a list.
pub broadcast proof fn lemma_steps_push(v: Seq<Step>, s: Step)
    ensures
        #[trigger] step_views(v.push(s)) == step_views(v).push(s@),
{
    assert(step_views(v.push(s)) =~= step_views(v).push(s@));
}

/// How a step turned out.
#[derive(Debug)]
pub enum Reply {
    Done,
    Failed(ComposeError),
    /// A name for a new container, and a service in JSON.
    Described { name: String, definition: String },
    /// The container that was inspected.
    Found(ContainerInfo),
    /// The identifier of the container that was run.
    Started(String),
    /// The containers there are, and a name for a new container.
    Listed { containers: Vec<ContainerInfo>, generated: String },
}

/// What a [`Reply`] says.
pub enum ReplyView {
    Done,
    Failed(ErrorView),
    Described { name: Seq<char>, definition: Seq<char> },
    Found(ContainerInfoView),
    Started(Seq<char>),
    Listed { containers: Seq<ContainerInfoView>, generated: Seq<char> },
}

impl View for Reply {
    type V = ReplyView;

    open spec fn view(&self) -> ReplyView {
        match *self {
            Reply::Done => ReplyView::Done,
            Reply::Failed(e) => ReplyView::Failed(e@),
            Reply::Described { name, definition } => ReplyView::Described {
                name: name@,
                definition: definition@,
            },
            Reply::Found(i) => ReplyView::Found(i@),
            Reply::Started(id) => ReplyView::Started(id@),
            Reply::Listed { containers, generated } => ReplyView::Listed {
                containers: info_views(containers@),
                generated: generated@,
            },
        }
    }
}

// ---- undoing ----

/// The steps that undo what was done about a container: one that was made is
/// stopped and removed, one that was only started again is stopped.
pub open spec fn undo_container(c: SessionContainerView) -> Seq<StepView> {
    let stop = seq![StepView::StopContainer { id: c.id, timeout: 5 }];
    if c.created {
        stop.push(StepView::RemoveContainer(c.id))
    } else {
        stop
    }
}

/// The steps that undo what was done about containers, the last one first.
pub open spec fn undo_containers(cs: Seq<SessionContainerView>) -> Seq<StepView>
    decreases cs.len(),
{
    if cs.len() == 0 {
        Seq::empty()
    } else {
        undo_container(cs.last()) + undo_containers(cs.drop_last())
    }
}

/// The steps that remove networks, the last one first.
pub open spec fn undo_networks(names: Seq<Seq<char>>) -> Seq<StepView> {
    names.reverse().map_values(|n: Seq<char>| StepView::RemoveNetwork(n))
}

/// The steps that remove volumes, the last one first.
pub open spec fn undo_volumes(names: Seq<Seq<char>>) -> Seq<StepView> {
    names.reverse().map_values(|n: Seq<char>| StepView::RemoveVolume(n))
}

/// The steps that undo a session.
pub open spec fn undo_steps(s: SessionView) -> Seq<StepView> {
    undo_containers(s.containers) + undo_networks(s.networks) + undo_volumes(s.volumes)
}

fn push_undo_containers(out: &mut Vec<Step>, cs: &Vec<SessionContainer>)
    ensures
        step_views(final(out)@) == step_views(old(out)@) + undo_containers(brought_up(cs@)),
{
    broadcast use lemma_steps_push;

    let ghost before = step_views(out@);
    let ghost all = brought_up(cs@);
    let mut i: usize = cs.len();
    assert(all.take(i as int) =~= all);
    assert(before + undo_containers(all) =~= before + undo_containers(all.take(i as int)));
    while i > 0
        invariant
            i <= cs@.len(),
            all == brought_up(cs@),
            step_views(out@) + undo_containers(all.take(i as int)) == before + undo_containers(all),
        decreases i,
    {
        let ghost here = step_views(out@);
        i -= 1;
        proof {
            assert(all.take(i + 1).drop_last() =~= all.take(i as int));
            assert(all.take(i + 1).last() == cs@[i as int]@);
        }
        out.push(Step::StopContainer { id: cs[i].id.clone(), timeout: 5 });
        if cs[i].created {
            out.push(Step::RemoveContainer(cs[i].id.clone()));
        }
        proof {
            let one = undo_container(cs@[i as int]@);
            assert(step_views(out@) =~= here + one);
            assert(step_views(out@) + undo_containers(all.take(i as int)) =~= here + (one
                + undo_containers(all.take(i as int))));
        }
    }
    assert(step_views(out@) + undo_containers(all.take(0)) =~= step_views(out@));
}

fn push_undo_networks(out: &mut Vec<Step>, names: &Vec<String>)
    ensures
        step_views(final(out)@) == step_views(old(out)@) + undo_networks(texts(names@)),
{
    broadcast use lemma_steps_push;

    let ghost before = step_views(out@);
    let ghost all = undo_networks(texts(names@));
    let n: usize = names.len();
    let mut i: usize = 0;
    assert(step_views(out@) =~= before + all.take(0));
    while i < n
        invariant
            i <= n == names@.len() == all.len(),
            all == undo_networks(texts(names@)),
            step_views(out@) == before + all.take(i as int),
        decreases n - i,
    {
        proof {
            assert(all[i as int] == StepView::RemoveNetwork(names@[n - 1 - i]@));
            assert(all.take(i + 1) =~= all.take(i as int).push(all[i as int]));
        }
        let ghost here = step_views(out@);
        out.push(Step::RemoveNetwork(names[n - 1 - i].clone()));
        proof {
            assert(step_views(out@) == here.push(all[i as int]));
            assert(step_views(out@) =~= before + all.take(i + 1));
        }
        i += 1;
    }
    assert(all.take(i as int) =~= all);
}

fn push_undo_volumes(out: &mut Vec<Step>, names: &Vec<String>)
    ensures
        step_views(final(out)@) == step_views(old(out)@) + undo_volumes(texts(names@)),
{
    broadcast use lemma_steps_push;

    let ghost before = step_views(out@);
    let ghost all = undo_volumes(texts(names@));
    let n: usize = names.len();
    let mut i: usize = 0;
    assert(step_views(out@) =~= before + all.take(0));
    while i < n
        invariant
            i <= n == names@.len() == all.len(),
            all == undo_volumes(texts(names@)),
            step_views(out@) == before + all.take(i as int),
        decreases n - i,
    {
        proof {
            assert(all[i as int] == StepView::RemoveVolume(names@[n - 1 - i]@));
            assert(all.take(i + 1) =~= all.take(i as int).push(all[i as int]));
        }
        let ghost here = step_views(out@);
        out.push(Step::RemoveVolume(names[n - 1 - i].clone()));
        proof {
            assert(step_views(out@) == here.push(all[i as int]));
            assert(step_views(out@) =~= before + all.take(i + 1));
        }
        i += 1;
    }
    assert(all.take(i as int) =~= all);
}

/// The steps that undo a session: containers, networks and volumes, the last of
/// each first.
pub fn undo(session: &Session) -> (r: Vec<Step>)
    ensures
        step_views(r@) == undo_steps(session@),
{
    let mut out: Vec<Step> = Vec::new();
    assert(step_views(out@) =~= Seq::empty());
    push_undo_containers(&mut out, &session.containers);
    assert(step_views(out@) =~= undo_containers(session@.containers));
    push_undo_networks(&mut out, &session.networks);
    push_undo_volumes(&mut out, &session.volumes);
    out
}

/// Undoing leaves nothing behind: every container of a session is stopped, every
/// one that was made is removed, and so is every network and volume. No container
/// is removed that was not made.
pub proof fn lemma_undo_complete(s: SessionView)
    ensures
        forall|i: int|
            0 <= i < s.containers.len() ==> undo_steps(s).contains(
                StepView::StopContainer { id: (#[trigger] s.containers[i]).id, timeout: 5 },
            ),
        forall|i: int|
            0 <= i < s.containers.len() && (#[trigger] s.containers[i]).created
                ==> undo_steps(s).contains(StepView::RemoveContainer(s.containers[i].id)),
        forall|i: int|
            0 <= i < s.networks.len() ==> undo_steps(s).contains(
                StepView::RemoveNetwork(#[trigger] s.networks[i]),
            ),
        forall|i: int|
            0 <= i < s.volumes.len() ==> undo_steps(s).contains(
                StepView::RemoveVolume(#[trigger] s.volumes[i]),
            ),
        forall|k: int|
            0 <= k < undo_steps(s).len() && (#[trigger] undo_steps(s)[k]) is RemoveContainer
                ==> s.containers.contains(
                SessionContainerView { id: undo_steps(s)[k]->RemoveContainer_0, created: true },
            ),
{
    let cs = undo_containers(s.containers);
    let ns = undo_networks(s.networks);
    let vs = undo_volumes(s.volumes);
    let all = undo_steps(s);
    assert forall|i: int| 0 <= i < s.containers.len() implies undo_steps(s).contains(
        StepView::StopContainer { id: (#[trigger] s.containers[i]).id, timeout: 5 },
    ) && (s.containers[i].created ==> undo_steps(s).contains(
        StepView::RemoveContainer(s.containers[i].id),
    )) by {
        let k = lemma_undo_container(s.containers, i);
        assert(all[k] == cs[k]);
        if s.containers[i].created {
            assert(all[k + 1] == cs[k + 1]);
        }
    }
    assert forall|i: int| 0 <= i < s.networks.len() implies undo_steps(s).contains(
        StepView::RemoveNetwork(#[trigger] s.networks[i]),
    ) by {
        let k = s.networks.len() - 1 - i;
        assert(ns[k] == StepView::RemoveNetwork(s.networks[i]));
        assert(all[cs.len() + k] == ns[k]);
    }
    assert forall|i: int| 0 <= i < s.volumes.len() implies undo_steps(s).contains(
        StepView::RemoveVolume(#[trigger] s.volumes[i]),
    ) by {
        let k = s.volumes.len() - 1 - i;
        assert(vs[k] == StepView::RemoveVolume(s.volumes[i]));
        assert(all[cs.len() + ns.len() + k] == vs[k]);
    }
    assert forall|k: int|
        0 <= k < all.len() && (#[trigger] all[k]) is RemoveContainer implies s.containers.contains(
        SessionContainerView { id: all[k]->RemoveContainer_0, created: true },
    ) by {
        if k < cs.len() {
            assert(all[k] == cs[k]);
            lemma_removes_made(s.containers, k, all[k]->RemoveContainer_0);
        } else if k < cs.len() + ns.len() {
            assert(all[k] == ns[k - cs.len()]);
        } else {
            assert(all[k] == vs[k - cs.len() - ns.len()]);
        }
    }
}

/// Where the steps for one container stand among those for all of them.
proof fn lemma_undo_container(cs: Seq<SessionContainerView>, i: int) -> (k: int)
    requires
        0 <= i < cs.len(),
    ensures
        0 <= k < undo_containers(cs).len(),
        undo_containers(cs)[k] == (StepView::StopContainer { id: cs[i].id, timeout: 5 }),
        cs[i].created ==> k + 1 < undo_containers(cs).len() && undo_containers(cs)[k + 1]
            == StepView::RemoveContainer(cs[i].id),
    decreases cs.len(),
{
    if i < cs.len() - 1 {
        let k = lemma_undo_container(cs.drop_last(), i);
        assert(cs.drop_last()[i] == cs[i]);
        undo_container(cs.last()).len() + k
    } else {
        0
    }
}

/// Only containers that were made are removed.
proof fn lemma_removes_made(cs: Seq<SessionContainerView>, k: int, id: Seq<char>)
    requires
        0 <= k < undo_containers(cs).len(),
        undo_containers(cs)[k] == StepView::RemoveContainer(id),
    ensures
        cs.contains(SessionContainerView { id, created: true }),
    decreases cs.len(),
{
    let n = undo_container(cs.last()).len();
    if k < n {
        assert(cs[cs.len() - 1] == (SessionContainerView { id, created: true }));
    } else {
        lemma_removes_made(cs.drop_last(), k - n, id);
        let j = choose|j: int|
            0 <= j < cs.drop_last().len() && cs.drop_last()[j] == (SessionContainerView {
                id,
                created: true,
            });
        assert(cs[j] == cs.drop_last()[j]);
    }
}

} // verus!

//! Taking a project down, step by step.
//!
//! What the last start made goes first. Then the services are gone through, the
//! last one started first: their containers are found by label and by name. The
//! project's own networks follow, and its volumes where that is asked for. Only
//! a failure to list containers ends the work; all else is tried and passed
//! over.
use vstd::prelude::*;
use vstd::string::*;
use crate::compose::engine::{
    container_of, network_is_external, network_name, no_session, volume_is_external, volume_name,
    ComposeEngine, Session, SessionContainerView, SessionView,
};
use crate::compose::maps::lookup;
use crate::compose::order::{graph_of, startup};
use crate::compose::outputs::info_views;
use crate::compose::steps::{
    lemma_steps_push, step_views, undo, undo_steps, Reply, ReplyView, Step, StepView,
};
use crate::compose::types::{ComposeSpec, ContainerInfo, ContainerInfoView};
use crate::compose::up::{
    chosen, declared_networks, declared_volumes, lemma_own_networks, lemma_own_volumes,
    own_networks, own_volumes,
};
use crate::text::{lemma_texts_push, texts};

verus! {

broadcast use lemma_texts_push, lemma_steps_push;

/// What taking down waits for.
#[derive(Debug, Clone, Copy)]
pub enum DownPhase {
    /// What the last start made is being undone.
    Undoing,
    /// The containers are being listed for the service at a place.
    Listing(usize),
    /// The containers of the service at a place are being removed.
    Clearing(usize),
    /// Networks and volumes are being removed.
    Cleaning,
    Ended,
}

/// What does not change while a project is taken down.
pub struct DownContext {
    pub spec: ComposeSpec,
    pub project: Seq<char>,
    pub names: Seq<(Seq<char>, Seq<char>)>,
    pub services: Seq<Seq<char>>,
    pub volumes: bool,
}

/// How far it has come.
pub struct DownView {
    pub phase: DownPhase,
    /// The services to go through, in order.
    pub targets: Seq<Seq<char>>,
    /// The steps that follow, whatever becomes of each.
    pub queue: Seq<StepView>,
}

/// Whether a container belongs to a service of a project.
pub open spec fn belongs(info: ContainerInfoView, project: Seq<char>, service: Seq<char>) -> bool {
    &&& lookup(info.labels, "perry.compose.project"@) == Some(project)
    &&& lookup(info.labels, "perry.compose.service"@) == Some(service)
}

/// The steps that remove a container.
pub open spec fn removal(id: Seq<char>) -> Seq<StepView> {
    seq![StepView::StopContainer { id, timeout: 10 }, StepView::RemoveContainer(id)]
}

/// The steps that remove the containers of a service.
pub open spec fn removals(
    infos: Seq<ContainerInfoView>,
    project: Seq<char>,
    service: Seq<char>,
) -> Seq<StepView>
    decreases infos.len(),
{
    if infos.len() == 0 {
        Seq::empty()
    } else {
        let before = removals(infos.drop_last(), project, service);
        if belongs(infos.last(), project, service) {
            before + removal(infos.last().id)
        } else {
            before
        }
    }
}

/// The steps that clear a service: its containers by label, and then the one by
/// its name.
pub open spec fn clearing(
    c: DownContext,
    service: Seq<char>,
    infos: Seq<ContainerInfoView>,
    generated: Seq<char>,
) -> Seq<StepView> {
    removals(infos, c.project, service) + removal(
        container_of(c.spec, c.names, service, generated),
    )
}

/// The steps that remove networks.
pub open spec fn network_removals(
    spec: ComposeSpec,
    project: Seq<char>,
    declared: Seq<Seq<char>>,
) -> Seq<StepView> {
    declared.map_values(|d: Seq<char>| StepView::RemoveNetwork(network_name(spec, project, d)))
}

/// The steps that remove volumes.
pub open spec fn volume_removals(
    spec: ComposeSpec,
    project: Seq<char>,
    declared: Seq<Seq<char>>,
) -> Seq<StepView> {
    declared.map_values(|d: Seq<char>| StepView::RemoveVolume(volume_name(spec, project, d)))
}

/// The steps that remove what is left of a project: its own networks, and its
/// own volumes where that is asked for.
pub open spec fn cleaning(c: DownContext) -> Seq<StepView> {
    network_removals(c.spec, c.project, own_networks(c.spec, declared_networks(c.spec))) + if c.volumes {
        volume_removals(c.spec, c.project, own_volumes(c.spec, declared_volumes(c.spec)))
    } else {
        Seq::empty()
    }
}

/// What of a session is undone: all of it, but the volumes only where that is
/// asked for.
pub open spec fn to_undo(s: SessionView, volumes: bool) -> SessionView {
    if volumes {
        s
    } else {
        SessionView { volumes: Seq::empty(), ..s }
    }
}

/// What of a session is kept.
pub open spec fn kept(s: SessionView, volumes: bool) -> SessionView {
    if volumes {
        no_session()
    } else {
        SessionView { volumes: s.volumes, ..no_session() }
    }
}

// ---- the transitions ----

/// Goes on with the steps in line, or else ends.
pub open spec fn clean(s: DownView) -> (DownView, StepView) {
    if s.queue.len() > 0 {
        (DownView { phase: DownPhase::Cleaning, queue: s.queue.skip(1), ..s }, s.queue[0])
    } else {
        (DownView { phase: DownPhase::Ended, ..s }, StepView::Finish)
    }
}

/// Goes on to the service at a place.
pub open spec fn enter_target(c: DownContext, s: DownView, k: int) -> (DownView, StepView) {
    if k < s.targets.len() {
        (DownView { phase: DownPhase::Listing(k as usize), ..s }, StepView::ListContainers)
    } else {
        clean(DownView { queue: cleaning(c), ..s })
    }
}

/// Goes on to the services, the last one first.
pub open spec fn enter_targets(c: DownContext, s: DownView) -> (DownView, StepView) {
    match startup(graph_of(c.spec.services.entries())) {
        Ok(order) => enter_target(
            c,
            DownView { targets: chosen(order, c.services).reverse(), ..s },
            0,
        ),
        Err(e) => (DownView { phase: DownPhase::Ended, ..s }, StepView::Fail(e)),
    }
}

/// Goes on undoing, or else to the services.
pub open spec fn undo_next(c: DownContext, s: DownView) -> (DownView, StepView) {
    if s.queue.len() > 0 {
        (DownView { phase: DownPhase::Undoing, queue: s.queue.skip(1), ..s }, s.queue[0])
    } else {
        enter_targets(c, s)
    }
}

/// Goes on clearing the service at a place, or else to the next one.
pub open spec fn clear_next(c: DownContext, s: DownView, k: int) -> (DownView, StepView) {
    if s.queue.len() > 0 {
        (
            DownView { phase: DownPhase::Clearing(k as usize), queue: s.queue.skip(1), ..s },
            s.queue[0],
        )
    } else {
        enter_target(c, s, k + 1)
    }
}

/// The beginning.
pub open spec fn down_begun(c: DownContext, session: SessionView) -> (DownView, StepView) {
    undo_next(
        c,
        DownView {
            phase: DownPhase::Ended,
            targets: Seq::empty(),
            queue: undo_steps(to_undo(session, c.volumes)),
        },
    )
}

/// What a reply leads to.
pub open spec fn down_next(c: DownContext, s: DownView, reply: ReplyView) -> (DownView, StepView) {
    match (s.phase, reply) {
        (DownPhase::Undoing, _) => undo_next(c, s),
        (DownPhase::Listing(k), ReplyView::Listed { containers, generated }) => clear_next(
            c,
            DownView { queue: clearing(c, s.targets[k as int], containers, generated), ..s },
            k as int,
        ),
        (DownPhase::Listing(_), ReplyView::Failed(e)) => (
            DownView { phase: DownPhase::Ended, ..s },
            StepView::Fail(e),
        ),
        (DownPhase::Clearing(k), _) => clear_next(c, s, k as int),
        (DownPhase::Cleaning, _) => clean(s),
        _ => (s, StepView::Finish),
    }
}

/// Whether a reply answers what taking down waits for.
pub open spec fn down_answers(phase: DownPhase, reply: ReplyView) -> bool {
    match phase {
        DownPhase::Listing(_) => reply is Listed || reply is Failed,
        DownPhase::Ended => false,
        _ => true,
    }
}

// ---- taking down itself ----

/// A project being taken down.
#[derive(Debug)]
pub struct DownRun {
    pub services: Vec<String>,
    pub volumes: bool,
    pub phase: DownPhase,
    pub targets: Vec<String>,
    pub queue: Vec<Step>,
}

/// What does not change while a project is taken down.
pub open spec fn down_context(e: ComposeEngine, r: DownRun) -> DownContext {
    DownContext {
        spec: e.spec,
        project: e.project_name@,
        names: e.container_names.pairs(),
        services: texts(r.services@),
        volumes: r.volumes,
    }
}

/// How far it has come.
pub open spec fn down_view(r: DownRun) -> DownView {
    DownView { phase: r.phase, targets: texts(r.targets@), queue: step_views(r.queue@) }
}

/// Whether the place that is worked on is there.
pub open spec fn down_wf(r: DownRun) -> bool {
    match r.phase {
        DownPhase::Listing(k) | DownPhase::Clearing(k) => k < r.targets@.len(),
        _ => true,
    }
}

/// Whether taking down went from one state to another with a step.
pub open spec fn went(r0: DownRun, r1: DownRun, step: Step, to: (DownView, StepView)) -> bool {
    &&& r1.services == r0.services
    &&& r1.volumes == r0.volumes
    &&& (down_view(r1), step@) == to
}

fn push_removal(out: &mut Vec<Step>, id: &String)
    ensures
        step_views(final(out)@) == step_views(old(out)@) + removal(id@),
{
    out.push(Step::StopContainer { id: id.clone(), timeout: 10 });
    out.push(Step::RemoveContainer(id.clone()));
    assert(step_views(out@) =~= step_views(old(out)@) + removal(id@));
}

fn reversed(v: Vec<String>) -> (r: Vec<String>)
    ensures
        texts(r@) == texts(v@).reverse(),
{
    let ghost all = texts(v@).reverse();
    let n: usize = v.len();
    let mut out: Vec<String> = Vec::new();
    let mut i: usize = 0;
    assert(texts(out@) =~= all.take(0));
    while i < n
        invariant
            i <= n == v@.len(),
            all == texts(v@).reverse(),
            texts(out@) == all.take(i as int),
        decreases n - i,
    {
        proof {
            assert(all[i as int] == v@[n - 1 - i]@);
            assert(all.take(i + 1) =~= all.take(i as int).push(all[i as int]));
        }
        out.push(v[n - 1 - i].clone());
        i += 1;
    }
    assert(all.take(i as int) =~= all);
    out
}

fn next_in_line(run: &mut DownRun) -> (step: Step)
    requires
        old(run).queue@.len() > 0,
    ensures
        step@ == step_views(old(run).queue@)[0],
        step_views(final(run).queue@) == step_views(old(run).queue@).skip(1),
        final(run).services == old(run).services,
        final(run).volumes == old(run).volumes,
        final(run).phase == old(run).phase,
        final(run).targets == old(run).targets,
{
    let ghost before = run.queue@;
    let step = run.queue.remove(0);
    assert(step_views(run.queue@) =~= step_views(before).skip(1));
    step
}

impl ComposeEngine {
    fn clearing_steps(&self, service: &str, infos: &Vec<ContainerInfo>, generated: String) -> (r: Vec<
        Step,
    >)
        ensures
            step_views(r@) == removals(info_views(infos@), self.project_name@, service@) + removal(
                container_of(
                    self.spec,
                    self.container_names.pairs(),
                    service@,
                    generated@,
                ),
            ),
    {
        let ghost all = info_views(infos@);
        let mut out: Vec<Step> = Vec::new();
        let mut i: usize = 0;
        assert(all.take(0) =~= Seq::empty());
        assert(step_views(out@) =~= Seq::empty());
        while i < infos.len()
            invariant
                i <= infos@.len(),
                all == info_views(infos@),
                step_views(out@) == removals(
                    all.take(i as int),
                    self.project_name@,
                    service@,
                ),
            decreases infos@.len() - i,
        {
            proof {
                assert(all.take(i + 1).drop_last() =~= all.take(i as int));
                assert(all.take(i + 1).last() == infos@[i as int]@);
            }
            if infos[i].labels.holds("perry.compose.project", self.project_name.as_str())
                && infos[i].labels.holds("perry.compose.service", service) {
                push_removal(&mut out, &infos[i].id);
            }
            i += 1;
        }
        assert(all.take(i as int) =~= all);
        push_removal(&mut out, &self.resolve_container_name(service, generated));
        out
    }

    fn cleaning_steps(&self, run: &DownRun) -> (r: Vec<Step>)
        ensures
            step_views(r@) == cleaning(down_context(*self, *run)),
    {
        let own = self.own_network_names();
        let ghost nets = network_removals(self.spec, self.project_name@, texts(own@));
        let mut out: Vec<Step> = Vec::new();
        let mut i: usize = 0;
        assert(step_views(out@) =~= nets.take(0));
        while i < own.len()
            invariant
                i <= own@.len(),
                nets == network_removals(self.spec, self.project_name@, texts(own@)),
                step_views(out@) == nets.take(i as int),
            decreases own@.len() - i,
        {
            proof {
                assert(nets[i as int] == StepView::RemoveNetwork(
                    network_name(self.spec, self.project_name@, own@[i as int]@),
                ));
                assert(nets.take(i + 1) =~= nets.take(i as int).push(nets[i as int]));
            }
            out.push(Step::RemoveNetwork(self.resolve_network_name(own[i].as_str())));
            i += 1;
        }
        assert(nets.take(i as int) =~= nets);
        if run.volumes {
            let own = self.own_volume_names();
            let ghost vols = volume_removals(self.spec, self.project_name@, texts(own@));
            let mut i: usize = 0;
            assert(step_views(out@) =~= nets + vols.take(0));
            while i < own.len()
                invariant
                    i <= own@.len(),
                    vols == volume_removals(self.spec, self.project_name@, texts(own@)),
                    step_views(out@) == nets + vols.take(i as int),
                decreases own@.len() - i,
            {
                let ghost here = step_views(out@);
                proof {
                    assert(vols[i as int] == StepView::RemoveVolume(
                        volume_name(self.spec, self.project_name@, own@[i as int]@),
                    ));
                    assert(vols.take(i + 1) =~= vols.take(i as int).push(vols[i as int]));
                }
                out.push(Step::RemoveVolume(self.resolve_volume_name(own[i].as_str())));
                proof {
                    assert(step_views(out@) == here.push(vols[i as int]));
                    assert(step_views(out@) =~= nets + vols.take(i + 1));
                }
                i += 1;
            }
            assert(vols.take(i as int) =~= vols);
        } else {
            assert(step_views(out@) =~= nets + Seq::<StepView>::empty());
        }
        out
    }

    fn clean_run(run: &mut DownRun) -> (step: Step)
        ensures
            went(*old(run), *final(run), step, clean(down_view(*old(run)))),
            down_wf(*final(run)),
    {
        assert(step_views(run.queue@).len() == run.queue@.len());
        if run.queue.len() > 0 {
            run.phase = DownPhase::Cleaning;
            next_in_line(run)
        } else {
            run.phase = DownPhase::Ended;
            Step::Finish
        }
    }

    fn enter_target_run(&self, run: &mut DownRun, k: usize) -> (step: Step)
        ensures
            went(
                *old(run),
                *final(run),
                step,
                enter_target(down_context(*self, *old(run)), down_view(*old(run)), k as int),
            ),
            down_wf(*final(run)),
    {
        assert(texts(run.targets@).len() == run.targets@.len());
        if k < run.targets.len() {
            run.phase = DownPhase::Listing(k);
            Step::ListContainers
        } else {
            run.queue = self.cleaning_steps(run);
            Self::clean_run(run)
        }
    }

    fn enter_targets_run(&self, run: &mut DownRun) -> (step: Step)
        ensures
            went(
                *old(run),
                *final(run),
                step,
                enter_targets(down_context(*self, *old(run)), down_view(*old(run))),
            ),
            down_wf(*final(run)),
    {
        match self.targets_in_order(&run.services) {
            Ok(targets) => {
                run.targets = reversed(targets);
                self.enter_target_run(run, 0)
            },
            Err(e) => {
                run.phase = DownPhase::Ended;
                Step::Fail(e)
            },
        }
    }

    fn undo_next_run(&self, run: &mut DownRun) -> (step: Step)
        ensures
            went(
                *old(run),
                *final(run),
                step,
                undo_next(down_context(*self, *old(run)), down_view(*old(run))),
            ),
            down_wf(*final(run)),
    {
        assert(step_views(run.queue@).len() == run.queue@.len());
        if run.queue.len() > 0 {
            run.phase = DownPhase::Undoing;
            next_in_line(run)
        } else {
            self.enter_targets_run(run)
        }
    }

    fn clear_next_run(&self, run: &mut DownRun, k: usize) -> (step: Step)
        requires
            k < old(run).targets@.len(),
        ensures
            went(
                *old(run),
                *final(run),
                step,
                clear_next(down_context(*self, *old(run)), down_view(*old(run)), k as int),
            ),
            down_wf(*final(run)),
    {
        assert(step_views(run.queue@).len() == run.queue@.len());
        let n: usize = run.targets.len();
        if run.queue.len() > 0 {
            run.phase = DownPhase::Clearing(k);
            next_in_line(run)
        } else {
            self.enter_target_run(run, k + 1)
        }
    }

    /// Begins to take down services, all of them where none are named.
    pub fn down_begin(&mut self, services: Vec<String>, remove_volumes: bool) -> (r: (
        DownRun,
        Step,
    ))
        ensures
            down_wf(r.0),
            r.0.volumes == remove_volumes,
            texts(r.0.services@) == texts(services@),
            final(self).spec == old(self).spec,
            final(self).project_name@ == old(self).project_name@,
            final(self).enforcement == old(self).enforcement,
            final(self).warnings == old(self).warnings,
            final(self).container_names.pairs() == old(self).container_names.pairs(),
            final(self).session@ == kept(old(self).session@, remove_volumes),
            (down_view(r.0), r.1@) == down_begun(
                down_context(*final(self), r.0),
                old(self).session@,
            ),
    {
        let mut session = Session::empty();
        std::mem::swap(&mut session, &mut self.session);
        if !remove_volumes {
            let mut volumes: Vec<String> = Vec::new();
            assert(texts(volumes@) =~= Seq::empty());
            std::mem::swap(&mut volumes, &mut session.volumes);
            self.session.volumes = volumes;
        }
        let mut run = DownRun {
            services,
            volumes: remove_volumes,
            phase: DownPhase::Ended,
            targets: Vec::new(),
            queue: undo(&session),
        };
        assert(texts(run.targets@) =~= Seq::empty());
        let step = self.undo_next_run(&mut run);
        (run, step)
    }

    /// Takes the reply to the last step, and goes on.
    pub fn down_step(&self, run: &mut DownRun, reply: Reply) -> (step: Step)
        requires
            down_wf(*old(run)),
            down_answers(old(run).phase, reply@),
        ensures
            went(
                *old(run),
                *final(run),
                step,
                down_next(down_context(*self, *old(run)), down_view(*old(run)), reply@),
            ),
            down_wf(*final(run)),
    {
        match run.phase {
            DownPhase::Undoing => self.undo_next_run(run),
            DownPhase::Listing(k) => {
                assert(texts(run.targets@)[k as int] == run.targets@[k as int]@);
                match reply {
                    Reply::Listed { containers, generated } => {
                        run.queue = self.clearing_steps(
                            run.targets[k].as_str(),
                            &containers,
                            generated,
                        );
                        self.clear_next_run(run, k)
                    },
                    Reply::Failed(e) => {
                        run.phase = DownPhase::Ended;
                        Step::Fail(e)
                    },
                    _ => Step::Finish,
                }
            },
            DownPhase::Clearing(k) => self.clear_next_run(run, k),
            DownPhase::Cleaning => Self::clean_run(run),
            DownPhase::Ended => Step::Finish,
        }
    }

    /// Whether a reply answers what taking down waits for.
    pub fn down_accepts(run: &DownRun, reply: &Reply) -> (r: bool)
        ensures
            r == down_answers(run.phase, reply@),
    {
        match run.phase {
            DownPhase::Listing(_) => matches!(reply, Reply::Listed { .. } | Reply::Failed(_)),
            DownPhase::Ended => false,
            _ => true,
        }
    }
}

// ---- what taking down keeps ----

/// Data is kept unless it is asked for: without that, no step removes a volume.
pub proof fn lemma_volumes_kept(c: DownContext, s: SessionView)
    requires
        !c.volumes,
    ensures
        forall|i: int|
            0 <= i < undo_steps(to_undo(s, c.volumes)).len() ==> !(
            #[trigger] undo_steps(to_undo(s, c.volumes))[i] is RemoveVolume),
        forall|i: int| 0 <= i < cleaning(c).len() ==> !(#[trigger] cleaning(c)[i] is RemoveVolume),
        kept(s, c.volumes).volumes == s.volumes,
{
    let t = to_undo(s, c.volumes);
    lemma_undo_containers_kind(t.containers);
}

proof fn lemma_undo_containers_kind(ids: Seq<SessionContainerView>)
    ensures
        forall|i: int|
            0 <= i < crate::compose::steps::undo_containers(ids).len() ==> !(
            #[trigger] crate::compose::steps::undo_containers(ids)[i] is RemoveVolume),
    decreases ids.len(),
{
    if ids.len() > 0 {
        lemma_undo_containers_kind(ids.drop_last());
    }
}

/// Taking down removes just the containers that a start of the project made for
/// the service, as far as they can be told by their labels.
pub proof fn lemma_removals_belong(
    infos: Seq<ContainerInfoView>,
    project: Seq<char>,
    service: Seq<char>,
)
    ensures
        forall|i: int|
            0 <= i < removals(infos, project, service).len() ==> match #[trigger] removals(
                infos,
                project,
                service,
            )[i] {
                StepView::StopContainer { id, .. } | StepView::RemoveContainer(id) => exists|
                    k: int,
                |
                    0 <= k < infos.len() && (#[trigger] infos[k]).id == id && belongs(
                        infos[k],
                        project,
                        service,
                    ),
                _ => false,
            },
    decreases infos.len(),
{
    if infos.len() > 0 {
        let front = infos.drop_last();
        let before = removals(front, project, service);
        lemma_removals_belong(front, project, service);
        let all = removals(infos, project, service);
        assert forall|i: int| 0 <= i < all.len() implies match #[trigger] all[i] {
            StepView::StopContainer { id, .. } | StepView::RemoveContainer(id) => exists|k: int|
                0 <= k < infos.len() && (#[trigger] infos[k]).id == id && belongs(
                    infos[k],
                    project,
                    service,
                ),
            _ => false,
        } by {
            if i < before.len() {
                assert(all[i] == before[i]);
                let id = match all[i] {
                    StepView::StopContainer { id, .. } => id,
                    StepView::RemoveContainer(id) => id,
                    _ => arbitrary(),
                };
                let k = choose|k: int|
                    0 <= k < front.len() && (#[trigger] front[k]).id == id && belongs(
                        front[k],
                        project,
                        service,
                    );
                assert(infos[k] == front[k]);
            } else {
                assert(all[i] == removal(infos.last().id)[i - before.len()]);
                assert(infos[infos.len() - 1] == infos.last());
            }
        }
    }
}

/// What lies outside a project is left alone: the steps that clean up remove
/// nothing but networks and volumes of the project's own, and volumes only where
/// that is asked for.
pub proof fn lemma_down_spares_external(c: DownContext)
    ensures
        forall|i: int|
            0 <= i < cleaning(c).len() ==> match #[trigger] cleaning(c)[i] {
                StepView::RemoveNetwork(n) => exists|d: Seq<char>|
                    !network_is_external(c.spec, d) && n == #[trigger] network_name(
                        c.spec,
                        c.project,
                        d,
                    ),
                StepView::RemoveVolume(n) => c.volumes && exists|d: Seq<char>|
                    !volume_is_external(c.spec, d) && n == #[trigger] volume_name(
                        c.spec,
                        c.project,
                        d,
                    ),
                _ => false,
            },
{
    let nets = own_networks(c.spec, declared_networks(c.spec));
    let vols = own_volumes(c.spec, declared_volumes(c.spec));
    lemma_own_networks(c.spec, declared_networks(c.spec));
    lemma_own_volumes(c.spec, declared_volumes(c.spec));
    let all = cleaning(c);
    assert forall|i: int| 0 <= i < all.len() implies match #[trigger] all[i] {
        StepView::RemoveNetwork(n) => exists|d: Seq<char>|
            !network_is_external(c.spec, d) && n == #[trigger] network_name(c.spec, c.project, d),
        StepView::RemoveVolume(n) => c.volumes && exists|d: Seq<char>|
            !volume_is_external(c.spec, d) && n == #[trigger] volume_name(c.spec, c.project, d),
        _ => false,
    } by {
        if i < nets.len() {
            assert(!network_is_external(c.spec, nets[i]));
            assert(all[i] == StepView::RemoveNetwork(network_name(c.spec, c.project, nets[i])));
        } else {
            let j = i - nets.len();
            assert(!volume_is_external(c.spec, vols[j]));
            assert(all[i] == StepView::RemoveVolume(volume_name(c.spec, c.project, vols[j])));
        }
    }
}

} // verus!

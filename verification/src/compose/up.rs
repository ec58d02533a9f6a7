//! Bringing a project up, step by step.
//!
//! A start goes through the networks, the volumes and then the services of a
//! project. Each step of work is handed out, and how it turned out decides on
//! the next one. Where a service cannot be started, what was made so far is
//! undone.
use vstd::prelude::*;
use vstd::string::*;
use crate::compose::capabilities::{
    dropped, dropped_warning, normalise_security_profile, normalise_spec_for, normalised,
    normalised_profile, profile_warnings, spec_warnings, warning_views, BackendCapabilities,
    EnforcementMode, NormalizationWarning, WarningView,
};
use crate::compose::engine::{
    engine_container, engine_profile, network_is_external, network_name, no_session, profile_for,
    volume_is_external, volume_name, ComposeEngine, Session, SessionContainerView, SessionView,
};
use crate::compose::error::{error_text, ComposeError, ErrorView};
use crate::compose::hash::{service_spec_hash, spec_hash};
use crate::compose::maps::{keys_distinct, lemma_position, lookup, position, with_entry};
use crate::compose::order::{graph_of, lemma_order_sound, names_of, resolve_startup_order, startup};
use crate::compose::steps::{step_views, undo, undo_steps, Reply, ReplyView, Step, StepView};
use crate::compose::targets::{are_targets, lemma_chosen_are_targets};
use crate::compose::types::{
    image_name, keys_of, ComposeService, ComposeSpec, ContainerInfoView, ContainerSpec,
    ContainerSpecView,
};
use crate::text::{contains, join, join2, joined, lemma_texts_push, same, texts};

verus! {

broadcast use lemma_texts_push;

// ---- what a start goes through ----

/// What a start waits for.
#[derive(Debug, Clone, Copy)]
pub enum Phase {
    InspectingNetwork(usize),
    CreatingNetwork(usize),
    InspectingVolume(usize),
    CreatingVolume(usize),
    Describing(usize),
    Building(usize),
    Inspecting(usize),
    StoppingStale(usize),
    RemovingStale(usize),
    Starting(usize),
    Running(usize),
    Undoing,
    Ended,
}

/// What does not change during a start.
pub struct UpContext {
    pub spec: ComposeSpec,
    pub project: Seq<char>,
    pub caps: BackendCapabilities,
    pub mode: EnforcementMode,
    /// The services that are asked for; all of them where none are.
    pub services: Seq<Seq<char>>,
}

/// How far a start has come.
pub struct UpView {
    pub phase: Phase,
    pub session: SessionView,
    pub names: Seq<(Seq<char>, Seq<char>)>,
    pub warnings: Seq<WarningView>,
    /// The services to start, in order.
    pub targets: Seq<Seq<char>>,
    /// The container of the service at hand, and the hash of the service.
    pub container: Seq<char>,
    pub hash: Seq<char>,
    /// What is left to undo, and what for.
    pub undo: Seq<StepView>,
    pub failure: Option<ErrorView>,
}

/// Whether the backend has networks of one's own.
pub open spec fn bridges(c: UpContext) -> bool {
    c.caps.user_defined_bridge is Native
}

/// The names of the declared networks.
pub open spec fn declared_networks(spec: ComposeSpec) -> Seq<Seq<char>> {
    match spec.networks {
        Some(m) => keys_of(m.entries()),
        None => Seq::empty(),
    }
}

/// The names of the declared volumes.
pub open spec fn declared_volumes(spec: ComposeSpec) -> Seq<Seq<char>> {
    match spec.volumes {
        Some(m) => keys_of(m.entries()),
        None => Seq::empty(),
    }
}

/// The networks among some that are the project's own.
pub open spec fn own_networks(spec: ComposeSpec, declared: Seq<Seq<char>>) -> Seq<Seq<char>>
    decreases declared.len(),
{
    if declared.len() == 0 {
        Seq::empty()
    } else {
        let before = own_networks(spec, declared.drop_last());
        if network_is_external(spec, declared.last()) {
            before
        } else {
            before.push(declared.last())
        }
    }
}

/// The volumes among some that are the project's own.
pub open spec fn own_volumes(spec: ComposeSpec, declared: Seq<Seq<char>>) -> Seq<Seq<char>>
    decreases declared.len(),
{
    if declared.len() == 0 {
        Seq::empty()
    } else {
        let before = own_volumes(spec, declared.drop_last());
        if volume_is_external(spec, declared.last()) {
            before
        } else {
            before.push(declared.last())
        }
    }
}

/// The networks to make: the project's own, if the backend has any.
pub open spec fn planned_networks(c: UpContext) -> Seq<Seq<char>> {
    if bridges(c) {
        own_networks(c.spec, declared_networks(c.spec))
    } else {
        Seq::empty()
    }
}

/// The volumes to make: the project's own.
pub open spec fn planned_volumes(c: UpContext) -> Seq<Seq<char>> {
    own_volumes(c.spec, declared_volumes(c.spec))
}

/// The warning that a network is not made.
pub open spec fn skipped_warning(caps: BackendCapabilities, declared: Seq<char>) -> WarningView {
    dropped_warning(
        caps.backend@,
        "network:"@ + declared,
        "user_defined_bridge"@,
        " does not natively support user-defined bridges; network creation skipped"@,
    )
}

/// The warnings about networks that are not made.
pub open spec fn skipped_warnings(c: UpContext) -> Seq<WarningView> {
    if bridges(c) {
        Seq::empty()
    } else {
        own_networks(c.spec, declared_networks(c.spec)).map_values(
            |d: Seq<char>| skipped_warning(c.caps, d),
        )
    }
}

/// What a warning says in short.
pub open spec fn warning_text(w: WarningView) -> Seq<char> {
    w.service + ": "@ + w.field + " ("@ + w.reason + ")"@
}

/// What warnings say in short.
pub open spec fn summary(ws: Seq<WarningView>) -> Seq<char> {
    joined(ws.map_values(|w: WarningView| warning_text(w)), "; "@)
}

/// The error for settings that the backend cannot honour.
pub open spec fn violation(c: UpContext, service: Seq<char>, ws: Seq<WarningView>) -> ErrorView {
    ErrorView::EnforcementViolation { backend: c.caps.backend@, service, details: summary(ws) }
}

/// The services of an order that are asked for.
pub open spec fn chosen(order: Seq<Seq<char>>, asked: Seq<Seq<char>>) -> Seq<Seq<char>>
    decreases order.len(),
{
    if order.len() == 0 {
        Seq::empty()
    } else {
        let before = chosen(order.drop_last(), asked);
        if asked.len() == 0 || asked.contains(order.last()) {
            before.push(order.last())
        } else {
            before
        }
    }
}

/// A service by name.
pub open spec fn service_of(c: UpContext, name: Seq<char>) -> ComposeService {
    lookup(c.spec.services.entries(), name)->0
}

/// The container that the service at hand becomes, before the backend's limits
/// are taken into account.
pub open spec fn wanted(c: UpContext, s: UpView, k: int) -> ContainerSpecView {
    engine_container(
        c.spec,
        c.project,
        bridges(c),
        service_of(c, s.targets[k]),
        s.targets[k],
        s.container,
        s.hash,
    )
}

/// The warnings about the service at hand.
pub open spec fn service_warnings(c: UpContext, s: UpView, k: int) -> Seq<WarningView> {
    spec_warnings(c.caps, s.targets[k], wanted(c, s, k)) + profile_warnings(
        c.caps,
        s.targets[k],
        engine_profile(service_of(c, s.targets[k])),
    )
}

// ---- the transitions ----

/// Goes on undoing, or ends with the failure.
pub open spec fn unwind(s: UpView) -> (UpView, StepView) {
    if s.undo.len() == 0 {
        (UpView { phase: Phase::Ended, failure: None, ..s }, StepView::Fail(s.failure->0))
    } else {
        (UpView { phase: Phase::Undoing, undo: s.undo.skip(1), ..s }, s.undo[0])
    }
}

/// Fails: what was made is undone first.
pub open spec fn fail(s: UpView, e: ErrorView) -> (UpView, StepView) {
    unwind(
        UpView { undo: undo_steps(s.session), session: no_session(), failure: Some(e), ..s },
    )
}

/// Ends at once with an error.
pub open spec fn give_up(s: UpView, e: ErrorView) -> (UpView, StepView) {
    (UpView { phase: Phase::Ended, ..s }, StepView::Fail(e))
}

/// Goes on to the service at a place.
pub open spec fn enter_service(s: UpView, k: int) -> (UpView, StepView) {
    if k < s.targets.len() {
        (
            UpView { phase: Phase::Describing(k as usize), ..s },
            StepView::Describe(s.targets[k]),
        )
    } else {
        (UpView { phase: Phase::Ended, ..s }, StepView::Finish)
    }
}

/// Goes on to the services.
pub open spec fn enter_services(c: UpContext, s: UpView) -> (UpView, StepView) {
    match startup(graph_of(c.spec.services.entries())) {
        Ok(order) => enter_service(UpView { targets: chosen(order, c.services), ..s }, 0),
        Err(e) => give_up(s, e),
    }
}

/// Goes on to the volume at a place.
pub open spec fn enter_volume(c: UpContext, s: UpView, i: int) -> (UpView, StepView) {
    if i < planned_volumes(c).len() {
        (
            UpView { phase: Phase::InspectingVolume(i as usize), ..s },
            StepView::InspectVolume(volume_name(c.spec, c.project, planned_volumes(c)[i])),
        )
    } else {
        enter_services(c, s)
    }
}

/// Goes on to the network at a place.
pub open spec fn enter_network(c: UpContext, s: UpView, i: int) -> (UpView, StepView) {
    if i < planned_networks(c).len() {
        (
            UpView { phase: Phase::InspectingNetwork(i as usize), ..s },
            StepView::InspectNetwork(network_name(c.spec, c.project, planned_networks(c)[i])),
        )
    } else {
        enter_volume(c, s, 0)
    }
}

/// The beginning: what is known of earlier starts is forgotten, but for the
/// names of containers.
pub open spec fn begun(c: UpContext, names: Seq<(Seq<char>, Seq<char>)>) -> (UpView, StepView) {
    let s = UpView {
        phase: Phase::Ended,
        session: no_session(),
        names,
        warnings: skipped_warnings(c),
        targets: Seq::empty(),
        container: Seq::empty(),
        hash: Seq::empty(),
        undo: Seq::empty(),
        failure: None,
    };
    if c.mode == EnforcementMode::Strict && s.warnings.len() > 0 {
        give_up(s, violation(c, s.warnings[0].service, s.warnings))
    } else {
        enter_network(c, s, 0)
    }
}

/// Checks the service at hand against the backend, and looks for its container.
pub open spec fn check_service(c: UpContext, s: UpView, k: int) -> (UpView, StepView) {
    let ws = service_warnings(c, s, k);
    if c.mode == EnforcementMode::Strict && ws.len() > 0 {
        fail(s, violation(c, s.targets[k], ws))
    } else {
        (
            UpView { phase: Phase::Inspecting(k as usize), warnings: s.warnings + ws, ..s },
            StepView::InspectContainer(s.container),
        )
    }
}

/// Runs the container of the service at hand.
pub open spec fn run_service(c: UpContext, s: UpView, k: int) -> (UpView, StepView) {
    (
        UpView { phase: Phase::Running(k as usize), ..s },
        StepView::RunContainer {
            spec: normalised(c.caps, wanted(c, s, k)),
            profile: normalised_profile(c.caps, engine_profile(service_of(c, s.targets[k]))),
        },
    )
}

/// What is done about the container that is there: one made from another
/// definition is replaced, one that runs is left alone, any other is started.
pub open spec fn meet_container(s: UpView, k: int, info: ContainerInfoView) -> (UpView, StepView) {
    if lookup(info.labels, "perry.compose.spec_hash"@) != Some(s.hash) {
        (
            UpView { phase: Phase::StoppingStale(k as usize), ..s },
            StepView::StopContainer { id: s.container, timeout: 10 },
        )
    } else if info.status == "running"@ {
        enter_service(s, k + 1)
    } else {
        (
            UpView { phase: Phase::Starting(k as usize), ..s },
            StepView::StartContainer(s.container),
        )
    }
}

/// The state with the service at hand described.
pub open spec fn described(
    c: UpContext,
    s: UpView,
    k: int,
    name: Seq<char>,
    definition: Seq<char>,
) -> UpView {
    let container = match lookup(s.names, s.targets[k]) {
        Some(n) => n,
        None => name,
    };
    UpView {
        container,
        names: with_entry(s.names, s.targets[k], container),
        hash: spec_hash(definition),
        ..s
    }
}

/// The error for a service that did not start.
pub open spec fn startup_failed(service: Seq<char>, message: Seq<char>) -> ErrorView {
    ErrorView::ServiceStartupFailed { service, message }
}

/// What a reply leads to.
pub open spec fn next(c: UpContext, s: UpView, reply: ReplyView) -> (UpView, StepView) {
    match (s.phase, reply) {
        (Phase::InspectingNetwork(i), ReplyView::Failed(_)) => {
            let d = planned_networks(c)[i as int];
            (
                UpView { phase: Phase::CreatingNetwork(i), ..s },
                StepView::CreateNetwork { declared: d, name: network_name(c.spec, c.project, d) },
            )
        },
        (Phase::InspectingNetwork(i), _) => enter_network(c, s, i + 1),
        (Phase::CreatingNetwork(_), ReplyView::Failed(e)) => give_up(s, e),
        (Phase::CreatingNetwork(i), _) => {
            let name = network_name(c.spec, c.project, planned_networks(c)[i as int]);
            let session = SessionView { networks: s.session.networks.push(name), ..s.session };
            enter_network(c, UpView { session, ..s }, i + 1)
        },
        (Phase::InspectingVolume(i), ReplyView::Failed(_)) => {
            let d = planned_volumes(c)[i as int];
            (
                UpView { phase: Phase::CreatingVolume(i), ..s },
                StepView::CreateVolume { declared: d, name: volume_name(c.spec, c.project, d) },
            )
        },
        (Phase::InspectingVolume(i), _) => enter_volume(c, s, i + 1),
        (Phase::CreatingVolume(_), ReplyView::Failed(e)) => give_up(s, e),
        (Phase::CreatingVolume(i), _) => {
            let name = volume_name(c.spec, c.project, planned_volumes(c)[i as int]);
            let session = SessionView { volumes: s.session.volumes.push(name), ..s.session };
            enter_volume(c, UpView { session, ..s }, i + 1)
        },
        (Phase::Describing(k), ReplyView::Described { name, definition }) => {
            let t = described(c, s, k as int, name, definition);
            let service = service_of(c, s.targets[k as int]);
            if service.build is Some && service.image is None {
                (
                    UpView { phase: Phase::Building(k), ..t },
                    StepView::Build {
                        service: s.targets[k as int],
                        image: image_name(service, s.targets[k as int]),
                    },
                )
            } else {
                check_service(c, t, k as int)
            }
        },
        (Phase::Building(k), ReplyView::Failed(e)) => fail(
            s,
            startup_failed(s.targets[k as int], "build failed: "@ + error_text(e)),
        ),
        (Phase::Building(k), _) => check_service(c, s, k as int),
        (Phase::Inspecting(k), ReplyView::Found(info)) => meet_container(s, k as int, info),
        (Phase::Inspecting(k), _) => run_service(c, s, k as int),
        (Phase::StoppingStale(k), _) => (
            UpView { phase: Phase::RemovingStale(k), ..s },
            StepView::RemoveContainer(s.container),
        ),
        (Phase::RemovingStale(k), _) => run_service(c, s, k as int),
        (Phase::Starting(k), ReplyView::Failed(e)) => fail(
            s,
            startup_failed(s.targets[k as int], error_text(e)),
        ),
        (Phase::Starting(k), _) => {
            let again = SessionContainerView { id: s.container, created: false };
            let session = SessionView {
                containers: s.session.containers.push(again),
                ..s.session
            };
            enter_service(UpView { session, ..s }, k + 1)
        },
        (Phase::Running(k), ReplyView::Failed(e)) => fail(
            s,
            startup_failed(s.targets[k as int], error_text(e)),
        ),
        (Phase::Running(k), ReplyView::Started(id)) => {
            let made = SessionContainerView { id, created: true };
            let session = SessionView { containers: s.session.containers.push(made), ..s.session };
            enter_service(UpView { session, ..s }, k + 1)
        },
        (Phase::Undoing, _) => unwind(s),
        _ => (s, StepView::Finish),
    }
}

/// Whether a reply answers what a start waits for.
pub open spec fn answers(phase: Phase, reply: ReplyView) -> bool {
    match phase {
        Phase::Describing(_) => reply is Described,
        Phase::Running(_) => reply is Started || reply is Failed,
        Phase::Ended => false,
        _ => true,
    }
}

/// What holds throughout a start.
pub open spec fn up_inv(c: UpContext, s: UpView) -> bool {
    &&& planned_networks(c).len() <= usize::MAX
    &&& planned_volumes(c).len() <= usize::MAX
    &&& s.targets.len() <= usize::MAX
    &&& forall|i: int|
        0 <= i < s.targets.len() ==> position(
            c.spec.services.entries(),
            #[trigger] s.targets[i],
        ) is Some
    &&& match s.phase {
        Phase::InspectingNetwork(i) | Phase::CreatingNetwork(i) => i < planned_networks(c).len(),
        Phase::InspectingVolume(i) | Phase::CreatingVolume(i) => i < planned_volumes(c).len(),
        Phase::Describing(k)
        | Phase::Building(k)
        | Phase::Inspecting(k)
        | Phase::StoppingStale(k)
        | Phase::RemovingStale(k)
        | Phase::Starting(k)
        | Phase::Running(k) => k < s.targets.len(),
        Phase::Undoing => s.failure is Some,
        Phase::Ended => true,
    }
}

// ---- the start itself ----

/// A start under way.
#[derive(Debug)]
pub struct UpRun {
    pub caps: BackendCapabilities,
    pub services: Vec<String>,
    /// The networks and volumes to make, by their declared names.
    pub networks: Vec<String>,
    pub volumes: Vec<String>,
    pub phase: Phase,
    pub targets: Vec<String>,
    pub container: String,
    pub hash: String,
    pub undo: Vec<Step>,
    pub failure: Option<ComposeError>,
}

/// What does not change during a start.
pub open spec fn up_context(e: ComposeEngine, r: UpRun) -> UpContext {
    UpContext {
        spec: e.spec,
        project: e.project_name@,
        caps: r.caps,
        mode: e.enforcement,
        services: texts(r.services@),
    }
}

/// How far a start has come.
pub open spec fn up_view(e: ComposeEngine, r: UpRun) -> UpView {
    UpView {
        phase: r.phase,
        session: e.session@,
        names: e.container_names.pairs(),
        warnings: warning_views(e.warnings@),
        targets: texts(r.targets@),
        container: r.container@,
        hash: r.hash@,
        undo: step_views(r.undo@),
        failure: match r.failure {
            Some(e) => Some(e@),
            None => None,
        },
    }
}

/// Whether a start is in order.
pub open spec fn up_wf(e: ComposeEngine, r: UpRun) -> bool {
    &&& up_inv(up_context(e, r), up_view(e, r))
    &&& texts(r.networks@) == planned_networks(up_context(e, r))
    &&& texts(r.volumes@) == planned_volumes(up_context(e, r))
}

/// Whether a start went from one state to another with a step.
pub open spec fn moved(
    e0: ComposeEngine,
    r0: UpRun,
    e1: ComposeEngine,
    r1: UpRun,
    step: Step,
    to: (UpView, StepView),
) -> bool {
    &&& up_context(e1, r1) == up_context(e0, r0)
    &&& r1.networks == r0.networks
    &&& r1.volumes == r0.volumes
    &&& (up_view(e1, r1), step@) == to
}

/// What is chosen from an order is in it.
proof fn lemma_chosen(order: Seq<Seq<char>>, asked: Seq<Seq<char>>)
    ensures
        chosen(order, asked).len() <= order.len(),
        forall|i: int|
            0 <= i < chosen(order, asked).len() ==> order.contains(
                #[trigger] chosen(order, asked)[i],
            ),
    decreases order.len(),
{
    if order.len() > 0 {
        let front = order.drop_last();
        lemma_chosen(front, asked);
        let all = chosen(order, asked);
        assert forall|i: int| 0 <= i < all.len() implies order.contains(#[trigger] all[i]) by {
            if i < chosen(front, asked).len() {
                assert(all[i] == chosen(front, asked)[i]);
                let j = choose|j: int| 0 <= j < front.len() && front[j] == all[i];
                assert(order[j] == all[i]);
            } else {
                assert(order[order.len() - 1] == all[i]);
            }
        }
    }
}

/// What is chosen from the order of a project are services of it.
proof fn lemma_chosen_services(
    services: Seq<(Seq<char>, ComposeService)>,
    order: Seq<Seq<char>>,
    asked: Seq<Seq<char>>,
)
    requires
        keys_distinct(services),
        startup(graph_of(services)) == Ok::<Seq<Seq<char>>, ErrorView>(order),
    ensures
        forall|i: int|
            0 <= i < chosen(order, asked).len() ==> position(
                services,
                #[trigger] chosen(order, asked)[i],
            ) is Some,
{
    let g = graph_of(services);
    assert(keys_distinct(g)) by {
        assert forall|i: int, j: int| 0 <= i < j < g.len() implies (#[trigger] g[i]).0 != (
        #[trigger] g[j]).0 by {
            assert(services[i].0 != services[j].0);
        }
    }
    lemma_order_sound(g);
    lemma_chosen(order, asked);
    let all = chosen(order, asked);
    assert forall|i: int| 0 <= i < all.len() implies position(
        services,
        #[trigger] all[i],
    ) is Some by {
        assert(order.contains(all[i]));
        let j = choose|j: int| 0 <= j < order.len() && order[j] == all[i];
        assert(names_of(g).contains(order[j]));
        let k = choose|k: int| 0 <= k < names_of(g).len() && names_of(g)[k] == order[j];
        assert(services[k].0 == all[i]);
        lemma_position(services, all[i]);
    }
}

fn choose_targets(order: &Vec<String>, asked: &Vec<String>) -> (r: Vec<String>)
    ensures
        texts(r@) == chosen(texts(order@), texts(asked@)),
{
    let ghost all = texts(order@);
    let mut out: Vec<String> = Vec::new();
    let mut i: usize = 0;
    assert(all.take(0) =~= Seq::empty());
    assert(texts(out@) =~= Seq::empty());
    assert(texts(asked@).len() == asked@.len());
    while i < order.len()
        invariant
            i <= order@.len(),
            all == texts(order@),
            texts(asked@).len() == asked@.len(),
            texts(out@) == chosen(all.take(i as int), texts(asked@)),
        decreases order@.len() - i,
    {
        proof {
            assert(all.take(i + 1).drop_last() =~= all.take(i as int));
            assert(all.take(i + 1).last() == order@[i as int]@);
        }
        if asked.len() == 0 || contains(asked, order[i].as_str()) {
            out.push(order[i].clone());
        }
        i += 1;
    }
    assert(all.take(i as int) =~= all);
    out
}

fn summarise(ws: &Vec<NormalizationWarning>) -> (r: String)
    ensures
        r@ == summary(warning_views(ws@)),
{
    let ghost all = warning_views(ws@).map_values(|w: WarningView| warning_text(w));
    let mut parts: Vec<String> = Vec::new();
    let mut i: usize = 0;
    assert(texts(parts@) =~= all.take(0));
    while i < ws.len()
        invariant
            i <= ws@.len(),
            all == warning_views(ws@).map_values(|w: WarningView| warning_text(w)),
            texts(parts@) == all.take(i as int),
        decreases ws@.len() - i,
    {
        let mut text = join2(ws[i].service.as_str(), ": ");
        text.append(ws[i].field);
        text.append(" (");
        text.append(ws[i].reason.as_str());
        text.append(")");
        proof {
            assert(all[i as int] == warning_text(ws@[i as int]@));
            assert(all.take(i + 1) =~= all.take(i as int).push(all[i as int]));
        }
        parts.push(text);
        i += 1;
    }
    assert(all.take(i as int) =~= all);
    join(&parts, "; ")
}

impl ComposeEngine {
    /// The networks that are the project's own.
    pub fn own_network_names(&self) -> (r: Vec<String>)
        ensures
            texts(r@) == own_networks(self.spec, declared_networks(self.spec)),
    {
        let mut out: Vec<String> = Vec::new();
        assert(texts(out@) =~= Seq::empty());
        if let Some(m) = &self.spec.networks {
            let ghost all = keys_of(m.entries());
            let mut i: usize = 0;
            assert(all.take(0) =~= Seq::empty());
            while i < m.len()
                invariant
                    i <= m.entries().len(),
                    all == keys_of(m.entries()),
                    texts(out@) == own_networks(self.spec, all.take(i as int)),
                decreases m.entries().len() - i,
            {
                proof {
                    assert(all.take(i + 1).drop_last() =~= all.take(i as int));
                    assert(all.take(i + 1).last() == m.entries()[i as int].0);
                }
                let declared = m.key_at(i);
                if !self.is_external_network(declared.as_str()) {
                    out.push(declared.clone());
                }
                i += 1;
            }
            assert(all.take(i as int) =~= all);
        }
        out
    }

    /// The volumes that are the project's own.
    pub fn own_volume_names(&self) -> (r: Vec<String>)
        ensures
            texts(r@) == own_volumes(self.spec, declared_volumes(self.spec)),
    {
        let mut out: Vec<String> = Vec::new();
        assert(texts(out@) =~= Seq::empty());
        if let Some(m) = &self.spec.volumes {
            let ghost all = keys_of(m.entries());
            let mut i: usize = 0;
            assert(all.take(0) =~= Seq::empty());
            while i < m.len()
                invariant
                    i <= m.entries().len(),
                    all == keys_of(m.entries()),
                    texts(out@) == own_volumes(self.spec, all.take(i as int)),
                decreases m.entries().len() - i,
            {
                proof {
                    assert(all.take(i + 1).drop_last() =~= all.take(i as int));
                    assert(all.take(i + 1).last() == m.entries()[i as int].0);
                }
                let declared = m.key_at(i);
                if !self.is_external_volume(declared.as_str()) {
                    out.push(declared.clone());
                }
                i += 1;
            }
            assert(all.take(i as int) =~= all);
        }
        out
    }

    /// The services to work on: those asked for, in the order in which services
    /// start, or all of them.
    pub fn targets_in_order(&self, asked: &Vec<String>) -> (r: std::result::Result<
        Vec<String>,
        ComposeError,
    >)
        ensures
            match (r, startup(graph_of(self.spec.services.entries()))) {
                (Ok(v), Ok(order)) => {
                    &&& texts(v@) == chosen(order, texts(asked@))
                    &&& are_targets(texts(v@), order, texts(asked@))
                    &&& forall|i: int|
                        0 <= i < v@.len() ==> position(
                            self.spec.services.entries(),
                            #[trigger] texts(v@)[i],
                        ) is Some
                },
                (Err(e), Err(f)) => e@ == f,
                _ => false,
            },
    {
        match resolve_startup_order(&self.spec) {
            Ok(order) => {
                let n: usize = self.spec.services.len();
                proof {
                    lemma_chosen_are_targets(texts(order@), texts(asked@));
                    lemma_chosen_services(
                        self.spec.services.entries(),
                        texts(order@),
                        texts(asked@),
                    );
                }
                Ok(choose_targets(&order, asked))
            },
            Err(e) => Err(e),
        }
    }

    fn unwind_run(&mut self, run: &mut UpRun) -> (step: Step)
        requires
            up_wf(*old(self), *old(run)),
            old(run).failure is Some,
        ensures
            moved(
                *old(self),
                *old(run),
                *final(self),
                *final(run),
                step,
                unwind(up_view(*old(self), *old(run))),
            ),
            up_wf(*final(self), *final(run)),
    {
        proof {
            assert(step_views(run.undo@).len() == run.undo@.len());
        }
        if run.undo.len() == 0 {
            run.phase = Phase::Ended;
            Step::Fail(run.failure.take().unwrap())
        } else {
            run.phase = Phase::Undoing;
            let ghost before = run.undo@;
            let step = run.undo.remove(0);
            assert(step_views(run.undo@) =~= step_views(before).skip(1));
            step
        }
    }

    fn fail_run(&mut self, run: &mut UpRun, e: ComposeError) -> (step: Step)
        requires
            up_wf(*old(self), *old(run)),
        ensures
            moved(
                *old(self),
                *old(run),
                *final(self),
                *final(run),
                step,
                fail(up_view(*old(self), *old(run)), e@),
            ),
            up_wf(*final(self), *final(run)),
    {
        run.undo = undo(&self.session);
        self.session = Session::empty();
        run.failure = Some(e);
        run.phase = Phase::Undoing;
        self.unwind_run(run)
    }

    fn give_up_run(&mut self, run: &mut UpRun, e: ComposeError) -> (step: Step)
        requires
            up_wf(*old(self), *old(run)),
        ensures
            moved(
                *old(self),
                *old(run),
                *final(self),
                *final(run),
                step,
                give_up(up_view(*old(self), *old(run)), e@),
            ),
            up_wf(*final(self), *final(run)),
    {
        run.phase = Phase::Ended;
        Step::Fail(e)
    }

    fn enter_service_run(&mut self, run: &mut UpRun, k: usize) -> (step: Step)
        requires
            up_wf(*old(self), *old(run)),
        ensures
            moved(
                *old(self),
                *old(run),
                *final(self),
                *final(run),
                step,
                enter_service(up_view(*old(self), *old(run)), k as int),
            ),
            up_wf(*final(self), *final(run)),
    {
        proof {
            assert(texts(run.targets@).len() == run.targets@.len());
        }
        if k < run.targets.len() {
            assert(texts(run.targets@)[k as int] == run.targets@[k as int]@);
            run.phase = Phase::Describing(k);
            Step::Describe(run.targets[k].clone())
        } else {
            run.phase = Phase::Ended;
            Step::Finish
        }
    }

    fn enter_services_run(&mut self, run: &mut UpRun) -> (step: Step)
        requires
            up_wf(*old(self), *old(run)),
        ensures
            moved(
                *old(self),
                *old(run),
                *final(self),
                *final(run),
                step,
                enter_services(
                    up_context(*old(self), *old(run)),
                    up_view(*old(self), *old(run)),
                ),
            ),
            up_wf(*final(self), *final(run)),
    {
        match self.targets_in_order(&run.services) {
            Ok(targets) => {
                let n: usize = targets.len();
                assert(texts(targets@).len() == n);
                run.phase = Phase::Ended;
                run.targets = targets;
                self.enter_service_run(run, 0)
            },
            Err(e) => self.give_up_run(run, e),
        }
    }

    fn enter_volume_run(&mut self, run: &mut UpRun, i: usize) -> (step: Step)
        requires
            up_wf(*old(self), *old(run)),
        ensures
            moved(
                *old(self),
                *old(run),
                *final(self),
                *final(run),
                step,
                enter_volume(
                    up_context(*old(self), *old(run)),
                    up_view(*old(self), *old(run)),
                    i as int,
                ),
            ),
            up_wf(*final(self), *final(run)),
    {
        proof {
            assert(texts(run.volumes@).len() == run.volumes@.len());
        }
        if i < run.volumes.len() {
            assert(texts(run.volumes@)[i as int] == run.volumes@[i as int]@);
            run.phase = Phase::InspectingVolume(i);
            Step::InspectVolume(self.resolve_volume_name(run.volumes[i].as_str()))
        } else {
            self.enter_services_run(run)
        }
    }

    fn enter_network_run(&mut self, run: &mut UpRun, i: usize) -> (step: Step)
        requires
            up_wf(*old(self), *old(run)),
        ensures
            moved(
                *old(self),
                *old(run),
                *final(self),
                *final(run),
                step,
                enter_network(
                    up_context(*old(self), *old(run)),
                    up_view(*old(self), *old(run)),
                    i as int,
                ),
            ),
            up_wf(*final(self), *final(run)),
    {
        proof {
            assert(texts(run.networks@).len() == run.networks@.len());
        }
        if i < run.networks.len() {
            assert(texts(run.networks@)[i as int] == run.networks@[i as int]@);
            run.phase = Phase::InspectingNetwork(i);
            Step::InspectNetwork(self.resolve_network_name(run.networks[i].as_str()))
        } else {
            self.enter_volume_run(run, 0)
        }
    }

    /// The container of the service at hand and its hardening, as far as the
    /// backend can honour them, with warnings about what it cannot.
    fn prepare(&self, run: &UpRun, k: usize) -> (r: (
        ContainerSpec,
        crate::compose::backend::SecurityProfile,
        Vec<NormalizationWarning>,
    ))
        requires
            up_wf(*self, *run),
            k < run.targets@.len(),
        ensures
            ({
                let c = up_context(*self, *run);
                let s = up_view(*self, *run);
                &&& r.0@ == normalised(c.caps, wanted(c, s, k as int))
                &&& r.1@ == normalised_profile(
                    c.caps,
                    engine_profile(service_of(c, s.targets[k as int])),
                )
                &&& warning_views(r.2@) == service_warnings(c, s, k as int)
            }),
    {
        let name = run.targets[k].as_str();
        proof {
            assert(texts(run.targets@)[k as int] == name@);
            assert(position(self.spec.services.entries(), texts(run.targets@)[k as int]) is Some);
        }
        let service = self.spec.services.get(name).unwrap();
        let native: bool = run.caps.user_defined_bridge.is_native();
        let mut spec = self.container_for(
            native,
            service,
            name,
            run.container.as_str(),
            run.hash.as_str(),
        );
        let mut profile = profile_for(service);
        let mut warnings = normalise_spec_for(&run.caps, name, &mut spec);
        let mut more = normalise_security_profile(&run.caps, name, &mut profile);
        let ghost first = warnings@;
        let ghost second = more@;
        warnings.append(&mut more);
        assert(warning_views(warnings@) =~= warning_views(first) + warning_views(second));
        (spec, profile, warnings)
    }

    fn check_service_run(&mut self, run: &mut UpRun, k: usize) -> (step: Step)
        requires
            up_wf(*old(self), *old(run)),
            k < old(run).targets@.len(),
        ensures
            moved(
                *old(self),
                *old(run),
                *final(self),
                *final(run),
                step,
                check_service(
                    up_context(*old(self), *old(run)),
                    up_view(*old(self), *old(run)),
                    k as int,
                ),
            ),
            up_wf(*final(self), *final(run)),
    {
        let (_spec, _profile, mut warnings) = self.prepare(run, k);
        proof {
            assert(warning_views(warnings@).len() == warnings@.len());
            assert(texts(run.targets@)[k as int] == run.targets@[k as int]@);
        }
        let strict: bool = match self.enforcement {
            EnforcementMode::Strict => true,
            _ => false,
        };
        if strict && warnings.len() > 0 {
            let e = ComposeError::EnforcementViolation {
                backend: run.caps.backend.to_owned(),
                service: run.targets[k].clone(),
                details: summarise(&warnings),
            };
            return self.fail_run(run, e);
        }
        let ghost before = self.warnings@;
        let ghost added = warnings@;
        self.warnings.append(&mut warnings);
        assert(warning_views(self.warnings@) =~= warning_views(before) + warning_views(added));
        run.phase = Phase::Inspecting(k);
        Step::InspectContainer(run.container.clone())
    }

    fn run_service_run(&mut self, run: &mut UpRun, k: usize) -> (step: Step)
        requires
            up_wf(*old(self), *old(run)),
            k < old(run).targets@.len(),
        ensures
            moved(
                *old(self),
                *old(run),
                *final(self),
                *final(run),
                step,
                run_service(
                    up_context(*old(self), *old(run)),
                    up_view(*old(self), *old(run)),
                    k as int,
                ),
            ),
            up_wf(*final(self), *final(run)),
    {
        let (spec, profile, _warnings) = self.prepare(run, k);
        run.phase = Phase::Running(k);
        Step::RunContainer { spec, profile }
    }

    /// Begins to bring up services, all of them where none are named.
    pub fn up_begin(&mut self, caps: BackendCapabilities, services: Vec<String>) -> (r: (
        UpRun,
        Step,
    ))
        ensures
            up_wf(*final(self), r.0),
            r.0.caps == caps,
            texts(r.0.services@) == texts(services@),
            final(self).spec == old(self).spec,
            final(self).project_name@ == old(self).project_name@,
            final(self).enforcement == old(self).enforcement,
            (up_view(*final(self), r.0), r.1@) == begun(
                up_context(*final(self), r.0),
                old(self).container_names.pairs(),
            ),
    {
        let native: bool = caps.user_defined_bridge.is_native();
        let own = self.own_network_names();
        let volumes = self.own_volume_names();
        let none: Vec<String> = Vec::new();
        let mut warnings: Vec<NormalizationWarning> = Vec::new();
        assert(texts(none@) =~= Seq::empty());
        assert(warning_views(warnings@) =~= Seq::empty());
        if !native {
            let ghost all = texts(own@).map_values(|d: Seq<char>| skipped_warning(caps, d));
            let mut i: usize = 0;
            assert(warning_views(warnings@) =~= all.take(0));
            while i < own.len()
                invariant
                    i <= own@.len(),
                    all == texts(own@).map_values(|d: Seq<char>| skipped_warning(caps, d)),
                    warning_views(warnings@) == all.take(i as int),
                decreases own@.len() - i,
            {
                let service = join2("network:", own[i].as_str());
                let ghost before = warnings@;
                let w = dropped(
                    caps.backend,
                    service.as_str(),
                    "user_defined_bridge",
                    " does not natively support user-defined bridges; network creation skipped",
                );
                warnings.push(w);
                proof {
                    assert(all[i as int] == skipped_warning(caps, own@[i as int]@));
                    assert(all.take(i + 1) =~= all.take(i as int).push(all[i as int]));
                    assert(warning_views(warnings@) =~= warning_views(before).push(w@));
                }
                i += 1;
            }
            assert(all.take(i as int) =~= all);
        }
        let networks = if native {
            own
        } else {
            none
        };
        self.session = Session::empty();
        self.warnings = warnings;
        let mut run = UpRun {
            caps,
            services,
            networks,
            volumes,
            phase: Phase::Ended,
            targets: Vec::new(),
            container: String::new(),
            hash: String::new(),
            undo: Vec::new(),
            failure: None,
        };
        let ghost c = up_context(*self, run);
        let n: usize = run.networks.len();
        let m: usize = run.volumes.len();
        proof {
            assert(texts(run.targets@) =~= Seq::empty());
            assert(step_views(run.undo@) =~= Seq::empty());
            assert(texts(run.networks@) =~= planned_networks(c));
            assert(texts(run.networks@).len() == n && texts(run.volumes@).len() == m);
            assert(warning_views(self.warnings@) =~= skipped_warnings(c));
            assert(warning_views(self.warnings@).len() == self.warnings@.len());
        }
        let strict: bool = match self.enforcement {
            EnforcementMode::Strict => true,
            _ => false,
        };
        if strict && self.warnings.len() > 0 {
            assert(warning_views(self.warnings@)[0] == self.warnings@[0]@);
            let e = ComposeError::EnforcementViolation {
                backend: caps.backend.to_owned(),
                service: self.warnings[0].service.clone(),
                details: summarise(&self.warnings),
            };
            let step = self.give_up_run(&mut run, e);
            return (run, step);
        }
        let step = self.enter_network_run(&mut run, 0);
        (run, step)
    }

    /// Takes the reply to the last step of a start, and goes on.
    pub fn up_step(&mut self, run: &mut UpRun, reply: Reply) -> (step: Step)
        requires
            up_wf(*old(self), *old(run)),
            answers(old(run).phase, reply@),
        ensures
            moved(
                *old(self),
                *old(run),
                *final(self),
                *final(run),
                step,
                next(
                    up_context(*old(self), *old(run)),
                    up_view(*old(self), *old(run)),
                    reply@,
                ),
            ),
            up_wf(*final(self), *final(run)),
    {
        proof {
            assert(texts(run.networks@).len() == run.networks@.len());
            assert(texts(run.volumes@).len() == run.volumes@.len());
            assert(texts(run.targets@).len() == run.targets@.len());
        }
        let networks: usize = run.networks.len();
        let volumes: usize = run.volumes.len();
        let targets: usize = run.targets.len();
        match run.phase {
            Phase::InspectingNetwork(i) => {
                assert(texts(run.networks@)[i as int] == run.networks@[i as int]@);
                match reply {
                    Reply::Failed(_) => {
                        run.phase = Phase::CreatingNetwork(i);
                        let declared = run.networks[i].clone();
                        let name = self.resolve_network_name(declared.as_str());
                        Step::CreateNetwork { declared, name }
                    },
                    _ => self.enter_network_run(run, i + 1),
                }
            },
            Phase::CreatingNetwork(i) => {
                assert(texts(run.networks@)[i as int] == run.networks@[i as int]@);
                match reply {
                    Reply::Failed(e) => self.give_up_run(run, e),
                    _ => {
                        let name = self.resolve_network_name(run.networks[i].as_str());
                        self.session.networks.push(name);
                        self.enter_network_run(run, i + 1)
                    },
                }
            },
            Phase::InspectingVolume(i) => {
                assert(texts(run.volumes@)[i as int] == run.volumes@[i as int]@);
                match reply {
                    Reply::Failed(_) => {
                        run.phase = Phase::CreatingVolume(i);
                        let declared = run.volumes[i].clone();
                        let name = self.resolve_volume_name(declared.as_str());
                        Step::CreateVolume { declared, name }
                    },
                    _ => self.enter_volume_run(run, i + 1),
                }
            },
            Phase::CreatingVolume(i) => {
                assert(texts(run.volumes@)[i as int] == run.volumes@[i as int]@);
                match reply {
                    Reply::Failed(e) => self.give_up_run(run, e),
                    _ => {
                        let name = self.resolve_volume_name(run.volumes[i].as_str());
                        self.session.volumes.push(name);
                        self.enter_volume_run(run, i + 1)
                    },
                }
            },
            Phase::Describing(k) => self.described_run(run, k, reply),
            Phase::Building(k) => {
                assert(texts(run.targets@)[k as int] == run.targets@[k as int]@);
                match reply {
                    Reply::Failed(e) => {
                        let e = ComposeError::ServiceStartupFailed {
                            service: run.targets[k].clone(),
                            message: join2("build failed: ", e.text().as_str()),
                        };
                        self.fail_run(run, e)
                    },
                    _ => self.check_service_run(run, k),
                }
            },
            Phase::Inspecting(k) => match reply {
                Reply::Found(info) => {
                    if !info.labels.holds("perry.compose.spec_hash", run.hash.as_str()) {
                        run.phase = Phase::StoppingStale(k);
                        Step::StopContainer { id: run.container.clone(), timeout: 10 }
                    } else if same(info.status.as_str(), "running") {
                        self.enter_service_run(run, k + 1)
                    } else {
                        run.phase = Phase::Starting(k);
                        Step::StartContainer(run.container.clone())
                    }
                },
                _ => self.run_service_run(run, k),
            },
            Phase::StoppingStale(k) => {
                run.phase = Phase::RemovingStale(k);
                Step::RemoveContainer(run.container.clone())
            },
            Phase::RemovingStale(k) => self.run_service_run(run, k),
            Phase::Starting(k) => {
                assert(texts(run.targets@)[k as int] == run.targets@[k as int]@);
                match reply {
                    Reply::Failed(e) => {
                        let e = ComposeError::ServiceStartupFailed {
                            service: run.targets[k].clone(),
                            message: e.text(),
                        };
                        self.fail_run(run, e)
                    },
                    _ => {
                        self.session.track(run.container.clone(), false);
                        self.enter_service_run(run, k + 1)
                    },
                }
            },
            Phase::Running(k) => {
                assert(texts(run.targets@)[k as int] == run.targets@[k as int]@);
                match reply {
                    Reply::Failed(e) => {
                        let e = ComposeError::ServiceStartupFailed {
                            service: run.targets[k].clone(),
                            message: e.text(),
                        };
                        self.fail_run(run, e)
                    },
                    Reply::Started(id) => {
                        self.session.track(id, true);
                        self.enter_service_run(run, k + 1)
                    },
                    _ => Step::Finish,
                }
            },
            Phase::Undoing => self.unwind_run(run),
            Phase::Ended => Step::Finish,
        }
    }

    fn described_run(&mut self, run: &mut UpRun, k: usize, reply: Reply) -> (step: Step)
        requires
            up_wf(*old(self), *old(run)),
            old(run).phase == Phase::Describing(k),
            reply@ is Described,
        ensures
            moved(
                *old(self),
                *old(run),
                *final(self),
                *final(run),
                step,
                next(
                    up_context(*old(self), *old(run)),
                    up_view(*old(self), *old(run)),
                    reply@,
                ),
            ),
            up_wf(*final(self), *final(run)),
    {
        proof {
            assert(texts(run.targets@).len() == run.targets@.len());
            assert(texts(run.targets@)[k as int] == run.targets@[k as int]@);
            assert(position(self.spec.services.entries(), texts(run.targets@)[k as int]) is Some);
        }
        if let Reply::Described { name, definition } = reply {
            let service_name = run.targets[k].clone();
            let container = match self.container_names.text_under(service_name.as_str()) {
                Some(n) => n,
                None => name,
            };
            self.container_names.put(service_name.clone(), container.clone());
            run.container = container;
            run.hash = service_spec_hash(definition.as_str());
            let service = self.spec.services.get(service_name.as_str()).unwrap();
            if service.needs_build() {
                let image = service.image_ref(service_name.as_str());
                run.phase = Phase::Building(k);
                Step::Build { service: service_name, image }
            } else {
                self.check_service_run(run, k)
            }
        } else {
            Step::Finish
        }
    }

    /// Whether a reply answers what a start waits for.
    pub fn up_accepts(run: &UpRun, reply: &Reply) -> (r: bool)
        ensures
            r == answers(run.phase, reply@),
    {
        match run.phase {
            Phase::Describing(_) => matches!(reply, Reply::Described { .. }),
            Phase::Running(_) => matches!(reply, Reply::Started(_) | Reply::Failed(_)),
            Phase::Ended => false,
            _ => true,
        }
    }
}

// ---- what a start keeps ----

/// The networks among some that are made are not external.
pub proof fn lemma_own_networks(spec: ComposeSpec, declared: Seq<Seq<char>>)
    ensures
        forall|i: int|
            0 <= i < own_networks(spec, declared).len() ==> !network_is_external(
                spec,
                #[trigger] own_networks(spec, declared)[i],
            ),
    decreases declared.len(),
{
    if declared.len() > 0 {
        let before = own_networks(spec, declared.drop_last());
        let all = own_networks(spec, declared);
        lemma_own_networks(spec, declared.drop_last());
        assert forall|i: int| 0 <= i < all.len() implies !network_is_external(
            spec,
            #[trigger] all[i],
        ) by {
            if i < before.len() {
                assert(all[i] == before[i]);
            }
        }
    }
}

/// The volumes among some that are made are not external.
pub proof fn lemma_own_volumes(spec: ComposeSpec, declared: Seq<Seq<char>>)
    ensures
        forall|i: int|
            0 <= i < own_volumes(spec, declared).len() ==> !volume_is_external(
                spec,
                #[trigger] own_volumes(spec, declared)[i],
            ),
    decreases declared.len(),
{
    if declared.len() > 0 {
        let before = own_volumes(spec, declared.drop_last());
        let all = own_volumes(spec, declared);
        lemma_own_volumes(spec, declared.drop_last());
        assert forall|i: int| 0 <= i < all.len() implies !volume_is_external(
            spec,
            #[trigger] all[i],
        ) by {
            if i < before.len() {
                assert(all[i] == before[i]);
            }
        }
    }
}

/// A stopped container that is started again counts as that: should a later
/// service fail, it is stopped once more, and is not removed on its account.
pub proof fn lemma_restarted_goes_back(c: UpContext, s: UpView, k: usize, reply: ReplyView)
    requires
        s.phase == Phase::Starting(k),
        !(reply is Failed),
    ensures
        ({
            let after = next(c, s, reply).0.session;
            let again = SessionContainerView { id: s.container, created: false };
            &&& after.containers == s.session.containers.push(again)
            &&& undo_steps(after) == seq![StepView::StopContainer { id: s.container, timeout: 5 }]
                + undo_steps(s.session)
        }),
{
    let after = next(c, s, reply).0.session;
    assert(after.containers.drop_last() =~= s.session.containers);
    assert(undo_steps(after) =~= seq![StepView::StopContainer { id: s.container, timeout: 5 }]
        + undo_steps(s.session));
}

/// A failed service leaves nothing behind: when a start fails at a service,
/// nothing counts as made any more, and all that did is handed out to be undone.
pub proof fn lemma_failure_undoes(s: UpView, e: ErrorView)
    ensures
        fail(s, e).0.session == no_session(),
        undo_steps(s.session).len() == 0 ==> fail(s, e).1 == StepView::Fail(e),
        undo_steps(s.session).len() > 0 ==> {
            &&& fail(s, e).0.phase is Undoing
            &&& seq![fail(s, e).1] + fail(s, e).0.undo == undo_steps(s.session)
            &&& fail(s, e).0.failure == Some(e)
        },
{
    let all = undo_steps(s.session);
    if all.len() > 0 {
        assert(seq![all[0]] + all.skip(1) =~= all);
    }
}

/// Under strict enforcement no container is looked for, started or run whose
/// settings the backend cannot honour.
pub proof fn lemma_strict_refuses(c: UpContext, s: UpView, k: int)
    requires
        c.mode == EnforcementMode::Strict,
        service_warnings(c, s, k).len() > 0,
    ensures
        check_service(c, s, k) == fail(s, violation(c, s.targets[k], service_warnings(c, s, k))),
{
}

/// Starting again what runs as it is defined does nothing to it.
pub proof fn lemma_running_is_left(s: UpView, k: int, info: ContainerInfoView)
    requires
        lookup(info.labels, "perry.compose.spec_hash"@) == Some(s.hash),
        info.status == "running"@,
    ensures
        meet_container(s, k, info) == enter_service(s, k + 1),
{
}

/// A container that was made from another definition is replaced: it is stopped
/// and removed, and a new one is run.
pub proof fn lemma_drift_replaces(
    c: UpContext,
    s: UpView,
    k: usize,
    info: ContainerInfoView,
    first: ReplyView,
    second: ReplyView,
)
    requires
        lookup(info.labels, "perry.compose.spec_hash"@) != Some(s.hash),
    ensures
        ({
            let a = meet_container(s, k as int, info);
            let b = next(c, a.0, first);
            let d = next(c, b.0, second);
            &&& a.1 == (StepView::StopContainer { id: s.container, timeout: 10 })
            &&& b.1 == StepView::RemoveContainer(s.container)
            &&& d == run_service(c, b.0, k as int)
        }),
{
}

/// Whether a network is one that the project makes.
pub open spec fn makes_network(c: UpContext, name: Seq<char>) -> bool {
    exists|i: int|
        0 <= i < planned_networks(c).len() && name == network_name(
            c.spec,
            c.project,
            #[trigger] planned_networks(c)[i],
        )
}

/// Whether a volume is one that the project makes.
pub open spec fn makes_volume(c: UpContext, name: Seq<char>) -> bool {
    exists|i: int|
        0 <= i < planned_volumes(c).len() && name == volume_name(
            c.spec,
            c.project,
            #[trigger] planned_volumes(c)[i],
        )
}

/// Whether all networks and volumes that count as made are the project's own.
pub open spec fn session_is_own(c: UpContext, s: SessionView) -> bool {
    &&& forall|i: int| 0 <= i < s.networks.len() ==> makes_network(c, #[trigger] s.networks[i])
    &&& forall|i: int| 0 <= i < s.volumes.len() ==> makes_volume(c, #[trigger] s.volumes[i])
}

/// Whatever the replies, only the project's own networks and volumes ever count
/// as made, so that undoing a start never touches an external one.
pub proof fn lemma_session_stays_own(c: UpContext, s: UpView, reply: ReplyView)
    requires
        up_inv(c, s),
        session_is_own(c, s.session),
    ensures
        session_is_own(c, next(c, s, reply).0.session),
{
    match s.phase {
        Phase::CreatingNetwork(i) => {
            let d = planned_networks(c)[i as int];
            let name = network_name(c.spec, c.project, d);
            let more = s.session.networks.push(name);
            assert forall|j: int| 0 <= j < more.len() implies makes_network(
                c,
                #[trigger] more[j],
            ) by {
                if j < s.session.networks.len() {
                    assert(more[j] == s.session.networks[j]);
                }
            }
        },
        Phase::CreatingVolume(i) => {
            let d = planned_volumes(c)[i as int];
            let name = volume_name(c.spec, c.project, d);
            let more = s.session.volumes.push(name);
            assert forall|j: int| 0 <= j < more.len() implies makes_volume(
                c,
                #[trigger] more[j],
            ) by {
                if j < s.session.volumes.len() {
                    assert(more[j] == s.session.volumes[j]);
                }
            }
        },
        _ => {},
    }
}

/// A project becomes the same containers on every backend: the names, images,
/// labels, volumes, ports, environments and commands do not depend on it. Where
/// both backends have networks of one's own, neither do the networks.
pub proof fn lemma_same_on_every_backend(a: UpContext, b: UpContext, s: UpView, k: int)
    requires
        a.spec == b.spec,
        a.project == b.project,
    ensures
        ({
            let x = normalised(a.caps, wanted(a, s, k));
            let y = normalised(b.caps, wanted(b, s, k));
            &&& x.name == y.name
            &&& x.image == y.image
            &&& x.labels == y.labels
            &&& x.volumes == y.volumes
            &&& x.ports == y.ports
            &&& x.env == y.env
            &&& x.cmd == y.cmd
            &&& x.entrypoint == y.entrypoint
            &&& x.user == y.user
            &&& x.workdir == y.workdir
            &&& x.read_only == y.read_only
            &&& x.cap_add == y.cap_add
            &&& x.cap_drop == y.cap_drop
            &&& bridges(a) == bridges(b) ==> x.network == y.network
        }),
{
}

} // verus!

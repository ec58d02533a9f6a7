//! Removing what projects left behind, without a project at hand.
//!
//! Containers are known by the label with their project. Networks and volumes are
//! known by their names, which begin with the project.
use vstd::prelude::*;
use vstd::string::*;
use crate::compose::down::belongs;
use crate::compose::engine::{
    engine_labels, lemma_labels_identify, network_config, network_is_external, network_name,
    scoped, volume_config, volume_is_external, volume_name,
};
use crate::compose::error::{error_text, ComposeError, Result};
use crate::compose::maps::lookup;
use crate::compose::outputs::info_views;
use crate::compose::types::{ComposeService, ComposeSpec, ContainerInfo, ContainerInfoView};
use crate::text::{join2, join3, lemma_texts_push, starts_with, texts};

verus! {

broadcast use lemma_texts_push;

/// What was removed, and what failed.
#[derive(Debug, Default)]
pub struct CleanupReport {
    pub containers_removed: usize,
    pub networks_removed: usize,
    pub volumes_removed: usize,
    pub errors: Vec<String>,
}

/// What to remove besides containers.
#[derive(Debug, Clone, Copy)]
pub struct CleanupOptions {
    /// Named volumes too.
    pub volumes: bool,
    /// Networks that are no longer used.
    pub networks: bool,
}

impl CleanupOptions {
    /// Networks, which hold no data, but not volumes.
    pub fn default_for_project() -> (r: CleanupOptions)
        ensures
            !r.volumes,
            r.networks,
    {
        CleanupOptions { volumes: false, networks: true }
    }
}

impl Default for CleanupOptions {
    fn default() -> (r: CleanupOptions)
        ensures
            !r.volumes,
            r.networks,
    {
        CleanupOptions::default_for_project()
    }
}

/// The containers among some that belong to a project.
pub open spec fn of_project(infos: Seq<ContainerInfoView>, project: Seq<char>) -> Seq<Seq<char>>
    decreases infos.len(),
{
    if infos.len() == 0 {
        Seq::empty()
    } else {
        let before = of_project(infos.drop_last(), project);
        if lookup(infos.last().labels, "perry.compose.project"@) == Some(project) {
            before.push(infos.last().id)
        } else {
            before
        }
    }
}

/// The containers among some that belong to any project.
pub open spec fn of_any_project(infos: Seq<ContainerInfoView>) -> Seq<Seq<char>>
    decreases infos.len(),
{
    if infos.len() == 0 {
        Seq::empty()
    } else {
        let before = of_any_project(infos.drop_last());
        if lookup(infos.last().labels, "perry.compose.project"@) is Some {
            before.push(infos.last().id)
        } else {
            before
        }
    }
}

/// The containers among some that belong to a project.
pub fn project_containers(infos: &Vec<ContainerInfo>, project: &str) -> (r: Vec<String>)
    ensures
        texts(r@) == of_project(info_views(infos@), project@),
{
    let ghost all = info_views(infos@);
    let mut out: Vec<String> = Vec::new();
    let mut i: usize = 0;
    assert(all.take(0) =~= Seq::empty());
    assert(texts(out@) =~= Seq::empty());
    while i < infos.len()
        invariant
            i <= infos@.len(),
            all == info_views(infos@),
            texts(out@) == of_project(all.take(i as int), project@),
        decreases infos@.len() - i,
    {
        proof {
            assert(all.take(i + 1).drop_last() =~= all.take(i as int));
            assert(all.take(i + 1).last() == infos@[i as int]@);
        }
        if infos[i].labels.holds("perry.compose.project", project) {
            out.push(infos[i].id.clone());
        }
        i += 1;
    }
    assert(all.take(i as int) =~= all);
    out
}

/// The containers among some that belong to any project.
pub fn managed_containers(infos: &Vec<ContainerInfo>) -> (r: Vec<String>)
    ensures
        texts(r@) == of_any_project(info_views(infos@)),
{
    let ghost all = info_views(infos@);
    let mut out: Vec<String> = Vec::new();
    let mut i: usize = 0;
    assert(all.take(0) =~= Seq::empty());
    assert(texts(out@) =~= Seq::empty());
    while i < infos.len()
        invariant
            i <= infos@.len(),
            all == info_views(infos@),
            texts(out@) == of_any_project(all.take(i as int)),
        decreases infos@.len() - i,
    {
        proof {
            assert(all.take(i + 1).drop_last() =~= all.take(i as int));
            assert(all.take(i + 1).last() == infos@[i as int]@);
        }
        if infos[i].labels.text_under("perry.compose.project").is_some() {
            out.push(infos[i].id.clone());
        }
        i += 1;
    }
    assert(all.take(i as int) =~= all);
    out
}

/// A container of one project is a container of some project.
pub proof fn lemma_project_is_managed(infos: Seq<ContainerInfoView>, project: Seq<char>)
    ensures
        forall|i: int|
            0 <= i < of_project(infos, project).len() ==> of_any_project(infos).contains(
                #[trigger] of_project(infos, project)[i],
            ),
    decreases infos.len(),
{
    if infos.len() > 0 {
        let front = infos.drop_last();
        lemma_project_is_managed(front, project);
        let few = of_project(infos, project);
        let all = of_any_project(infos);
        let before = of_any_project(front);
        assert forall|i: int| 0 <= i < few.len() implies all.contains(#[trigger] few[i]) by {
            if i < of_project(front, project).len() {
                assert(few[i] == of_project(front, project)[i]);
                let k = choose|k: int| 0 <= k < before.len() && before[k] == few[i];
                assert(all[k] == few[i]);
            } else {
                assert(all[all.len() - 1] == few[i]);
            }
        }
    }
}

proof fn lemma_of_project_holds(infos: Seq<ContainerInfoView>, project: Seq<char>, i: int)
    requires
        0 <= i < infos.len(),
        lookup(infos[i].labels, "perry.compose.project"@) == Some(project),
    ensures
        of_project(infos, project).contains(infos[i].id),
    decreases infos.len(),
{
    let front = infos.drop_last();
    let all = of_project(infos, project);
    if i < front.len() {
        lemma_of_project_holds(front, project, i);
        let before = of_project(front, project);
        let k = choose|k: int| 0 <= k < before.len() && before[k] == front[i].id;
        assert(all[k] == infos[i].id);
    } else {
        assert(all[all.len() - 1] == infos[i].id);
    }
}

/// What a project starts is found again without it: a container with the labels
/// of a service is among the containers of the project, and belongs to the
/// service.
pub proof fn lemma_started_is_found(
    infos: Seq<ContainerInfoView>,
    i: int,
    service: ComposeService,
    project: Seq<char>,
    name: Seq<char>,
    hash: Seq<char>,
)
    requires
        0 <= i < infos.len(),
        infos[i].labels == engine_labels(service, project, name, hash),
    ensures
        of_project(infos, project).contains(infos[i].id),
        belongs(infos[i], project, name),
{
    lemma_labels_identify(service, project, name, hash);
    lemma_of_project_holds(infos, project, i);
}

// ---- networks and volumes ----

/// Whether a name is one that a project gives to what it makes.
pub open spec fn is_scoped(name: Seq<char>, project: Seq<char>) -> bool {
    scoped(project, Seq::empty()).is_prefix_of(name)
}

/// Whether a name is one that some of the projects gives to what it makes.
pub open spec fn is_scoped_by_any(name: Seq<char>, projects: Seq<Seq<char>>) -> bool {
    exists|i: int| 0 <= i < projects.len() && is_scoped(name, #[trigger] projects[i])
}

/// The names among some that projects give to what they make.
pub open spec fn scoped_names(
    names: Seq<Seq<char>>,
    projects: Seq<Seq<char>>,
) -> Seq<Seq<char>>
    decreases names.len(),
{
    if names.len() == 0 {
        Seq::empty()
    } else {
        let before = scoped_names(names.drop_last(), projects);
        if is_scoped_by_any(names.last(), projects) {
            before.push(names.last())
        } else {
            before
        }
    }
}

fn scoped_by_any(name: &str, projects: &Vec<String>) -> (r: bool)
    ensures
        r == is_scoped_by_any(name@, texts(projects@)),
{
    let ghost all = texts(projects@);
    let mut i: usize = 0;
    while i < projects.len()
        invariant
            i <= projects@.len(),
            all == texts(projects@),
            forall|j: int| 0 <= j < i ==> !is_scoped(name@, #[trigger] all[j]),
        decreases projects@.len() - i,
    {
        let prefix = join2(projects[i].as_str(), "_");
        assert(prefix@ =~= scoped(all[i as int], Seq::empty()));
        if starts_with(name, prefix.as_str()) {
            assert(is_scoped(name@, all[i as int]));
            return true;
        }
        i += 1;
    }
    false
}

fn scoped_among(names: &Vec<String>, projects: &Vec<String>) -> (r: Vec<String>)
    ensures
        texts(r@) == scoped_names(texts(names@), texts(projects@)),
{
    let ghost all = texts(names@);
    let mut out: Vec<String> = Vec::new();
    let mut i: usize = 0;
    assert(all.take(0) =~= Seq::empty());
    assert(texts(out@) =~= Seq::empty());
    while i < names.len()
        invariant
            i <= names@.len(),
            all == texts(names@),
            texts(out@) == scoped_names(all.take(i as int), texts(projects@)),
        decreases names@.len() - i,
    {
        proof {
            assert(all.take(i + 1).drop_last() =~= all.take(i as int));
            assert(all.take(i + 1).last() == names@[i as int]@);
        }
        if scoped_by_any(names[i].as_str(), projects) {
            out.push(names[i].clone());
        }
        i += 1;
    }
    assert(all.take(i as int) =~= all);
    out
}

impl CleanupOptions {
    /// The networks to remove, of those there are: the projects' own, where
    /// networks are to be removed at all.
    pub fn networks_to_remove(&self, names: &Vec<String>, projects: &Vec<String>) -> (r: Vec<
        String,
    >)
        ensures
            texts(r@) == if self.networks {
                scoped_names(texts(names@), texts(projects@))
            } else {
                Seq::empty()
            },
    {
        if self.networks {
            scoped_among(names, projects)
        } else {
            let none: Vec<String> = Vec::new();
            assert(texts(none@) =~= Seq::empty());
            none
        }
    }

    /// The volumes to remove, of those there are: the projects' own, where
    /// volumes are to be removed at all.
    pub fn volumes_to_remove(&self, names: &Vec<String>, projects: &Vec<String>) -> (r: Vec<
        String,
    >)
        ensures
            texts(r@) == if self.volumes {
                scoped_names(texts(names@), texts(projects@))
            } else {
                Seq::empty()
            },
    {
        if self.volumes {
            scoped_among(names, projects)
        } else {
            let none: Vec<String> = Vec::new();
            assert(texts(none@) =~= Seq::empty());
            none
        }
    }
}

/// The projects that containers belong to, one for each container with one.
pub open spec fn projects_of(infos: Seq<ContainerInfoView>) -> Seq<Seq<char>>
    decreases infos.len(),
{
    if infos.len() == 0 {
        Seq::empty()
    } else {
        let before = projects_of(infos.drop_last());
        match lookup(infos.last().labels, "perry.compose.project"@) {
            Some(project) => before.push(project),
            None => before,
        }
    }
}

/// The projects that containers belong to.
pub fn managed_projects(infos: &Vec<ContainerInfo>) -> (r: Vec<String>)
    ensures
        texts(r@) == projects_of(info_views(infos@)),
{
    let ghost all = info_views(infos@);
    let mut out: Vec<String> = Vec::new();
    let mut i: usize = 0;
    assert(all.take(0) =~= Seq::empty());
    assert(texts(out@) =~= Seq::empty());
    while i < infos.len()
        invariant
            i <= infos@.len(),
            all == info_views(infos@),
            texts(out@) == projects_of(all.take(i as int)),
        decreases infos@.len() - i,
    {
        proof {
            assert(all.take(i + 1).drop_last() =~= all.take(i as int));
            assert(all.take(i + 1).last() == infos@[i as int]@);
        }
        if let Some(project) = infos[i].labels.text_under("perry.compose.project") {
            out.push(project.clone());
        }
        i += 1;
    }
    assert(all.take(i as int) =~= all);
    out
}

/// Removal touches the projects' own names only, and all of those.
pub proof fn lemma_scoped_names(names: Seq<Seq<char>>, projects: Seq<Seq<char>>)
    ensures
        forall|n: Seq<char>|
            #[trigger] scoped_names(names, projects).contains(n) <==> names.contains(n)
                && is_scoped_by_any(n, projects),
    decreases names.len(),
{
    if names.len() > 0 {
        let front = names.drop_last();
        lemma_scoped_names(front, projects);
        let before = scoped_names(front, projects);
        let all = scoped_names(names, projects);
        assert forall|n: Seq<char>|
            #[trigger] all.contains(n) <==> names.contains(n) && is_scoped_by_any(
                n,
                projects,
            ) by {
            if all.contains(n) {
                let k = choose|k: int| 0 <= k < all.len() && all[k] == n;
                if k < before.len() {
                    assert(before[k] == n);
                    assert(before.contains(n));
                    let j = choose|j: int| 0 <= j < front.len() && front[j] == n;
                    assert(names[j] == n);
                } else {
                    assert(names[names.len() - 1] == n);
                }
            }
            if names.contains(n) && is_scoped_by_any(n, projects) {
                let j = choose|j: int| 0 <= j < names.len() && names[j] == n;
                if j < front.len() {
                    assert(front[j] == n);
                    assert(before.contains(n));
                    let k = choose|k: int| 0 <= k < before.len() && before[k] == n;
                    assert(all[k] == n);
                } else {
                    assert(all[all.len() - 1] == n);
                }
            }
        }
    }
}

/// What a project makes is found again without it: a network or volume that is
/// neither external nor named otherwise has a name by which its project is known.
pub proof fn lemma_made_is_found(spec: ComposeSpec, project: Seq<char>, declared: Seq<char>)
    ensures
        !network_is_external(spec, declared) && (network_config(spec, declared) is None
            || network_config(spec, declared)->0.name is None) ==> is_scoped(
            network_name(spec, project, declared),
            project,
        ),
        !volume_is_external(spec, declared) && (volume_config(spec, declared) is None
            || volume_config(spec, declared)->0.name is None) ==> is_scoped(
            volume_name(spec, project, declared),
            project,
        ),
{
    let whole = scoped(project, declared);
    let front = scoped(project, Seq::empty());
    assert(front =~= whole.take(front.len() as int));
}

// ---- removing a container ----

/// What to do about a container.
#[derive(Debug)]
pub enum RemovalStep {
    Stop { id: String, timeout: u32 },
    Remove { id: String, force: bool },
}

/// What a [`RemovalStep`] says.
pub enum RemovalStepView {
    Stop { id: Seq<char>, timeout: u32 },
    Remove { id: Seq<char>, force: bool },
}

impl View for RemovalStep {
    type V = RemovalStepView;

    open spec fn view(&self) -> RemovalStepView {
        match *self {
            RemovalStep::Stop { id, timeout } => RemovalStepView::Stop { id: id@, timeout },
            RemovalStep::Remove { id, force } => RemovalStepView::Remove { id: id@, force },
        }
    }
}

/// What a list of steps says.
pub open spec fn removal_views(v: Seq<RemovalStep>) -> Seq<RemovalStepView> {
    v.map_values(|s: RemovalStep| s@)
}

/// A container is stopped, with five seconds to do so, and then removed.
pub open spec fn stop_and_remove(id: Seq<char>, force: bool) -> Seq<RemovalStepView> {
    seq![RemovalStepView::Stop { id, timeout: 5 }, RemovalStepView::Remove { id, force }]
}

/// The steps that remove a container. Each is taken, however the one before went.
pub fn removal_steps(id: &str, force: bool) -> (r: Vec<RemovalStep>)
    ensures
        removal_views(r@) == stop_and_remove(id@, force),
{
    let steps = vec![
        RemovalStep::Stop { id: id.to_owned(), timeout: 5 },
        RemovalStep::Remove { id: id.to_owned(), force },
    ];
    assert(removal_views(steps@) =~= stop_and_remove(id@, force));
    steps
}

/// The steps that remove a container of a project: it goes even if it is running.
pub fn cleanup_steps(id: &str) -> (r: Vec<RemovalStep>)
    ensures
        removal_views(r@) == stop_and_remove(id@, true),
{
    removal_steps(id, true)
}

/// The steps that remove a container if it exists; `found` is whether an inspection
/// found it.
pub fn removal_if_found(found: bool, id: &str, force: bool) -> (r: Vec<RemovalStep>)
    ensures
        removal_views(r@) == if found {
            stop_and_remove(id@, force)
        } else {
            Seq::empty()
        },
{
    if found {
        removal_steps(id, force)
    } else {
        let none: Vec<RemovalStep> = Vec::new();
        assert(removal_views(none@) =~= Seq::empty());
        none
    }
}

// ---- reports ----

/// How stopping and removing a container went.
pub struct CleanupOutcome {
    pub id: String,
    pub stop_error: Option<ComposeError>,
    pub remove_error: Option<ComposeError>,
}

impl CleanupOutcome {
    /// A container to which nothing has been done yet.
    pub fn new(id: String) -> (r: CleanupOutcome)
        ensures
            r.id == id,
            r.stop_error is None,
            r.remove_error is None,
    {
        CleanupOutcome { id, stop_error: None, remove_error: None }
    }

    /// Takes note of how a step went.
    pub fn record(&mut self, step: &RemovalStep, error: Option<ComposeError>)
        ensures
            *final(self) == match *step {
                RemovalStep::Stop { .. } => CleanupOutcome { stop_error: error, ..*old(self) },
                RemovalStep::Remove { .. } => CleanupOutcome { remove_error: error, ..*old(self) },
            },
    {
        match step {
            RemovalStep::Stop { .. } => {
                self.stop_error = error;
            },
            RemovalStep::Remove { .. } => {
                self.remove_error = error;
            },
        }
    }
}

/// How many containers were removed.
pub open spec fn removed_count(v: Seq<CleanupOutcome>) -> nat
    decreases v.len(),
{
    if v.len() == 0 {
        0
    } else {
        removed_count(v.drop_last()) + if v.last().remove_error is None {
            1nat
        } else {
            0nat
        }
    }
}

/// What went wrong with one container.
pub open spec fn outcome_errors(o: CleanupOutcome) -> Seq<Seq<char>> {
    let first = match o.stop_error {
        Some(e) => seq!["stop "@ + o.id@ + ": "@ + error_text(e@)],
        None => Seq::empty(),
    };
    match o.remove_error {
        Some(e) => first.push("remove container "@ + o.id@ + ": "@ + error_text(e@)),
        None => first,
    }
}

/// What went wrong.
pub open spec fn cleanup_errors(v: Seq<CleanupOutcome>) -> Seq<Seq<char>>
    decreases v.len(),
{
    if v.len() == 0 {
        Seq::empty()
    } else {
        cleanup_errors(v.drop_last()) + outcome_errors(v.last())
    }
}

/// How removing a network or a volume went.
pub struct RemovalOutcome {
    pub name: String,
    pub error: Option<ComposeError>,
}

/// How removing networks or volumes went: listing them, and removing those that
/// were to go.
pub struct ResourceOutcome {
    pub list_error: Option<ComposeError>,
    pub removals: Vec<RemovalOutcome>,
}

/// How many were removed.
pub open spec fn gone_count(v: Seq<RemovalOutcome>) -> nat
    decreases v.len(),
{
    if v.len() == 0 {
        0
    } else {
        gone_count(v.drop_last()) + if v.last().error is None {
            1nat
        } else {
            0nat
        }
    }
}

/// What went wrong removing networks or volumes.
pub open spec fn removal_errors(v: Seq<RemovalOutcome>, kind: Seq<char>) -> Seq<Seq<char>>
    decreases v.len(),
{
    if v.len() == 0 {
        Seq::empty()
    } else {
        let before = removal_errors(v.drop_last(), kind);
        match v.last().error {
            Some(e) => before.push(
                "remove "@ + kind + " "@ + v.last().name@ + ": "@ + error_text(e@),
            ),
            None => before,
        }
    }
}

/// What went wrong listing networks or volumes.
pub open spec fn list_errors(o: ResourceOutcome, kind: Seq<char>) -> Seq<Seq<char>> {
    match o.list_error {
        Some(e) => seq!["list "@ + kind + "s: "@ + error_text(e@)],
        None => Seq::empty(),
    }
}

/// What went wrong with networks or volumes.
pub open spec fn resource_errors(o: ResourceOutcome, kind: Seq<char>) -> Seq<Seq<char>> {
    list_errors(o, kind) + removal_errors(o.removals@, kind)
}

fn report_resources(o: &ResourceOutcome, kind: &str, errors: &mut Vec<String>) -> (r: usize)
    ensures
        r == gone_count(o.removals@),
        texts(final(errors)@) == texts(old(errors)@) + resource_errors(*o, kind@),
{
    let ghost before = texts(errors@);
    if let Some(e) = &o.list_error {
        let mut text = join3("list ", kind, "s: ");
        text.append(e.text().as_str());
        errors.push(text);
    }
    let ghost first = list_errors(*o, kind@);
    let mut removed: usize = 0;
    let n: usize = o.removals.len();
    let mut i: usize = 0;
    assert(o.removals@.take(0) =~= Seq::empty());
    assert(texts(errors@) =~= before + first);
    assert(texts(errors@) =~= before + (first + removal_errors(o.removals@.take(0), kind@)));
    while i < n
        invariant
            i <= n == o.removals@.len(),
            removed == gone_count(o.removals@.take(i as int)),
            removed <= i,
            first == list_errors(*o, kind@),
            texts(errors@) == before + (first + removal_errors(
                o.removals@.take(i as int),
                kind@,
            )),
        decreases n - i,
    {
        let ghost here = removal_errors(o.removals@.take(i as int), kind@);
        proof {
            assert(o.removals@.take(i + 1).drop_last() =~= o.removals@.take(i as int));
            assert(o.removals@.take(i + 1).last() == o.removals@[i as int]);
        }
        match &o.removals[i].error {
            Some(e) => {
                let mut text = join3("remove ", kind, " ");
                text.append(o.removals[i].name.as_str());
                text.append(": ");
                text.append(e.text().as_str());
                let ghost said = text@;
                errors.push(text);
                assert(before + (first + here.push(said)) =~= (before + (first + here)).push(
                    said,
                ));
            },
            None => {
                removed += 1;
            },
        }
        i += 1;
    }
    assert(o.removals@.take(i as int) =~= o.removals@);
    removed
}

impl CleanupReport {
    /// The report when the containers could not be listed.
    pub fn list_failed(e: &ComposeError) -> (r: CleanupReport)
        ensures
            r.containers_removed == 0,
            r.networks_removed == 0,
            r.volumes_removed == 0,
            texts(r.errors@) == seq!["list containers: "@ + error_text(e@)],
    {
        let errors = vec![join2("list containers: ", e.text().as_str())];
        assert(texts(errors@) =~= seq!["list containers: "@ + error_text(e@)]);
        CleanupReport { containers_removed: 0, networks_removed: 0, volumes_removed: 0, errors }
    }

    /// The report on what was worked on. One failure does not keep the others from
    /// being counted.
    pub fn of_outcomes(
        outcomes: &Vec<CleanupOutcome>,
        networks: &ResourceOutcome,
        volumes: &ResourceOutcome,
    ) -> (r: CleanupReport)
        ensures
            r.containers_removed == removed_count(outcomes@),
            r.networks_removed == gone_count(networks.removals@),
            r.volumes_removed == gone_count(volumes.removals@),
            texts(r.errors@) == cleanup_errors(outcomes@) + resource_errors(*networks, "network"@)
                + resource_errors(*volumes, "volume"@),
    {
        let mut removed: usize = 0;
        let mut errors: Vec<String> = Vec::new();
        let n: usize = outcomes.len();
        let mut i: usize = 0;
        assert(outcomes@.take(0) =~= Seq::empty());
        assert(texts(errors@) =~= Seq::empty());
        while i < n
            invariant
                i <= n == outcomes@.len(),
                removed == removed_count(outcomes@.take(i as int)),
                removed <= i,
                texts(errors@) == cleanup_errors(outcomes@.take(i as int)),
            decreases n - i,
        {
            proof {
                assert(outcomes@.take(i + 1).drop_last() =~= outcomes@.take(i as int));
                assert(outcomes@.take(i + 1).last() == outcomes@[i as int]);
            }
            let ghost before = texts(errors@);
            let id = outcomes[i].id.as_str();
            if let Some(e) = &outcomes[i].stop_error {
                let mut text = join3("stop ", id, ": ");
                text.append(e.text().as_str());
                errors.push(text);
            }
            match &outcomes[i].remove_error {
                Some(e) => {
                    let mut text = join3("remove container ", id, ": ");
                    text.append(e.text().as_str());
                    errors.push(text);
                },
                None => {
                    removed += 1;
                },
            }
            assert(texts(errors@) =~= before + outcome_errors(outcomes@[i as int]));
            i += 1;
        }
        assert(outcomes@.take(i as int) =~= outcomes@);
        let networks_removed = report_resources(networks, "network", &mut errors);
        let volumes_removed = report_resources(volumes, "volume", &mut errors);
        CleanupReport { containers_removed: removed, networks_removed, volumes_removed, errors }
    }
}

/// Whether a container is removed, given how the steps went: not where there were
/// none, and else by how the last one went, the removal. One that was gone by then
/// was not removed.
pub fn removal_outcome(replies: Vec<Result<()>>) -> (r: Result<bool>)
    ensures
        replies@.len() == 0 ==> r == Ok::<bool, ComposeError>(false),
        replies@.len() > 0 ==> match (replies@.last(), r) {
            (Ok(_), Ok(b)) => b,
            (Err(e), Ok(b)) => e@ is NotFound && !b,
            (Err(e), Err(f)) => !(e@ is NotFound) && f == e,
            (Ok(_), Err(_)) => false,
        },
{
    let mut rest = replies;
    match rest.pop() {
        None => Ok(false),
        Some(Ok(_)) => Ok(true),
        Some(Err(ComposeError::NotFound(_))) => Ok(false),
        Some(Err(e)) => Err(e),
    }
}

// ---- what is found ----

/// The label of the project that a container belongs to.
pub open spec fn project_label(info: ContainerInfoView) -> Option<Seq<char>> {
    lookup(info.labels, "perry.compose.project"@)
}

/// What is found of a project are just the containers that bear its label, what is
/// found of all are those that bear one, and the projects found are those so named.
pub proof fn lemma_found_told(infos: Seq<ContainerInfoView>, project: Seq<char>, id: Seq<char>)
    ensures
        of_project(infos, project).contains(id) <==> exists|k: int|
            0 <= k < infos.len() && (#[trigger] infos[k]).id == id && project_label(infos[k]) == Some(
                project,
            ),
        of_any_project(infos).contains(id) <==> exists|k: int|
            0 <= k < infos.len() && (#[trigger] infos[k]).id == id && project_label(
                infos[k],
            ) is Some,
        projects_of(infos).contains(project) <==> exists|k: int|
            0 <= k < infos.len() && project_label(#[trigger] infos[k]) == Some(project),
    decreases infos.len(),
{
    if infos.len() > 0 {
        let front = infos.drop_last();
        let last = infos.last();
        lemma_found_told(front, project, id);
        lemma_may_push(of_project(front, project), of_project(infos, project), last.id, id);
        lemma_may_push(of_any_project(front), of_any_project(infos), last.id, id);
        if let Some(p) = project_label(last) {
            lemma_may_push(projects_of(front), projects_of(infos), p, project);
        }
        assert(infos[infos.len() - 1] == last);
        assert forall|k: int| 0 <= k < front.len() implies infos[k] == #[trigger] front[k] by {}
        assert forall|k: int| 0 <= k < front.len() implies front[k] == #[trigger] infos[k] by {}
    }
}

proof fn lemma_may_push(
    before: Seq<Seq<char>>,
    after: Seq<Seq<char>>,
    more: Seq<char>,
    x: Seq<char>,
)
    ensures
        after == before.push(more) ==> (after.contains(x) <==> before.contains(x) || more == x),
{
    if after == before.push(more) {
        if before.contains(x) {
            let i = choose|i: int| 0 <= i < before.len() && before[i] == x;
            assert(after[i] == x);
        }
        assert(after[before.len() as int] == more);
        if after.contains(x) {
            let i = choose|i: int| 0 <= i < after.len() && after[i] == x;
            if i < before.len() {
                assert(before[i] == x);
            }
        }
    }
}

/// A name is known to be a project's where it is the project's, an underscore and
/// whatever follows.
pub proof fn lemma_scope_told(name: Seq<char>, project: Seq<char>)
    ensures
        is_scoped(name, project) <==> exists|rest: Seq<char>|
            name == #[trigger] (project + "_"@ + rest),
{
    let front = scoped(project, Seq::empty());
    assert(front =~= project + "_"@);
    if is_scoped(name, project) {
        let rest = name.skip(front.len() as int);
        assert(name =~= project + "_"@ + rest);
    }
    if exists|rest: Seq<char>| name == #[trigger] (project + "_"@ + rest) {
        let rest = choose|rest: Seq<char>| name == #[trigger] (project + "_"@ + rest);
        assert(name.subrange(0, front.len() as int) =~= front);
    }
}

/// As many count as removed as met no error in that, and all that went wrong is told
/// where anything did.
pub proof fn lemma_outcomes_told(v: Seq<CleanupOutcome>)
    ensures
        removed_count(v) == v.filter(|o: CleanupOutcome| o.remove_error is None).len(),
        cleanup_errors(v).len() == v.filter(|o: CleanupOutcome| o.remove_error is Some).len()
            + v.filter(|o: CleanupOutcome| o.stop_error is Some).len(),
    decreases v.len(),
{
    reveal(Seq::filter);
    if v.len() > 0 {
        lemma_outcomes_told(v.drop_last());
    }
}

} // verus!

//! A project and what was brought up for it: the names of its resources, and
//! the containers its services become.
use vstd::prelude::*;
use vstd::string::*;
use crate::compose::backend::{with_options, ProfileView, SecurityProfile};
use crate::compose::capabilities::{
    warning_views, EnforcementMode, NormalizationWarning, WarningView,
};
use crate::compose::args::words_of;
use crate::compose::maps::{
    from_pairs, lemma_position, lemma_with_entry_lookup, lookup, position, with_entry, OrderedMap,
};
use crate::compose::outputs::{assign_all, assignments};
use crate::compose::types::{
    copy_text, copy_texts, first_network, image_name, keys_of, port_text, primary_network,
    service_container, setting, settings, strings_in, text_opt, texts_opt, ComposeHandle,
    ComposeNetwork, ComposeService, ComposeServiceNetworkConfig, ComposeSpec, ComposeVolume,
    ContainerSpec, ContainerSpecView, ListOrDict, PortSpec, ServiceNetworks, VolumeValue,
};
use crate::compose::yaml::{
    bool_string, bool_text, open, plain_string, plain_text, scalar_text, str_or_empty, str_text,
    string_under_tags, yaml_items, yaml_of, Yaml, YamlView,
};
use crate::text::{
    chars_of, contains, cut, find, join2, join3, lemma_texts_push, span, starts_with, texts,
};

verus! {

broadcast use lemma_texts_push;

// ---- names ----

/// A name of a project's own.
pub open spec fn scoped(project: Seq<char>, name: Seq<char>) -> Seq<char> {
    project + "_"@ + name
}

/// The settings of a declared volume.
pub open spec fn volume_config(spec: ComposeSpec, declared: Seq<char>) -> Option<ComposeVolume> {
    match spec.volumes {
        Some(m) => match lookup(m.entries(), declared) {
            Some(c) => c,
            None => None,
        },
        None => None,
    }
}

/// The settings of a declared network.
pub open spec fn network_config(spec: ComposeSpec, declared: Seq<char>) -> Option<ComposeNetwork> {
    match spec.networks {
        Some(m) => match lookup(m.entries(), declared) {
            Some(c) => c,
            None => None,
        },
        None => None,
    }
}

/// Whether a volume exists outside the project.
pub open spec fn volume_is_external(spec: ComposeSpec, declared: Seq<char>) -> bool {
    match volume_config(spec, declared) {
        Some(c) => c.external == Some(true),
        None => false,
    }
}

/// Whether a network exists outside the project.
pub open spec fn network_is_external(spec: ComposeSpec, declared: Seq<char>) -> bool {
    match network_config(spec, declared) {
        Some(c) => c.external == Some(true),
        None => false,
    }
}

/// The name of a resource: the one it is given, or else its declared name,
/// which is scoped to the project unless the resource is external.
pub open spec fn runtime_name(
    project: Seq<char>,
    declared: Seq<char>,
    external: bool,
    given: Option<Seq<char>>,
) -> Seq<char> {
    match given {
        Some(n) => n,
        None => if external {
            declared
        } else {
            scoped(project, declared)
        },
    }
}

/// The name of a declared volume at the backend.
pub open spec fn volume_name(
    spec: ComposeSpec,
    project: Seq<char>,
    declared: Seq<char>,
) -> Seq<char> {
    runtime_name(
        project,
        declared,
        volume_is_external(spec, declared),
        match volume_config(spec, declared) {
            Some(c) => text_opt(c.name),
            None => None,
        },
    )
}

/// The name of a declared network at the backend.
pub open spec fn network_name(
    spec: ComposeSpec,
    project: Seq<char>,
    declared: Seq<char>,
) -> Seq<char> {
    runtime_name(
        project,
        declared,
        network_is_external(spec, declared),
        match network_config(spec, declared) {
            Some(c) => text_opt(c.name),
            None => None,
        },
    )
}

/// Volumes of different projects do not meet: two projects give a volume that
/// is neither external nor named the same name only where the projects have the
/// same name.
pub proof fn lemma_scoped_apart(p: Seq<char>, q: Seq<char>, name: Seq<char>)
    requires
        scoped(p, name) == scoped(q, name),
    ensures
        p == q,
{
    let a = scoped(p, name);
    let b = scoped(q, name);
    assert(a.len() == p.len() + "_"@.len() + name.len());
    assert(b.len() == q.len() + "_"@.len() + name.len());
    assert(p =~= a.take(p.len() as int));
    assert(q =~= b.take(q.len() as int));
}

// ---- the container of a service ----

/// The text of a port of a service.
pub open spec fn engine_port(p: PortSpec) -> Seq<char> {
    match p {
        PortSpec::Short(v) => plain_text(yaml_of(v)),
        PortSpec::Long(l) => match l.published {
            Some(h) => plain_text(yaml_of(h)) + ":"@ + plain_text(yaml_of(l.target)),
            None => Seq::<char>::empty() + ":"@ + plain_text(yaml_of(l.target)),
        },
    }
}

/// A mount, with the volume in it under its name at the backend. A path is left
/// as it is, and so is a volume that is not declared.
pub open spec fn engine_mount(spec: ComposeSpec, project: Seq<char>, raw: Seq<char>) -> Seq<char> {
    match raw.index_of_first(':') {
        Some(i) => {
            let head = raw.take(i);
            if "/"@.is_prefix_of(head) || "."@.is_prefix_of(head) {
                raw
            } else if spec.volumes is Some && position(spec.volumes->0.entries(), head) is Some {
                volume_name(spec, project, head) + raw.skip(i)
            } else {
                raw
            }
        },
        None => raw,
    }
}

/// The text of a value in an environment.
pub open spec fn engine_value(v: YamlView) -> Seq<char> {
    match v {
        YamlView::Bool(b) => bool_text(b),
        _ => plain_text(v),
    }
}

/// The environment of a service.
pub open spec fn engine_env(e: Option<ListOrDict>) -> Seq<(Seq<char>, Seq<char>)> {
    match e {
        Some(ListOrDict::Dict(m)) => from_pairs(
            m.entries().map_values(
                |e: (Seq<char>, Option<serde_yaml::Value>)|
                    (
                        e.0,
                        match e.1 {
                            Some(v) => engine_value(yaml_of(v)),
                            None => Seq::empty(),
                        },
                    ),
            ),
        ),
        Some(ListOrDict::List(v)) => from_pairs(assignments(texts(v@))),
        None => Seq::empty(),
    }
}

/// The words of a command.
pub open spec fn engine_command(c: Option<serde_yaml::Value>) -> Seq<Seq<char>> {
    match c {
        Some(v) => match yaml_of(v) {
            YamlView::String(s) => seq![s],
            YamlView::Sequence(items) => items.map_values(|i: YamlView| str_text(i)),
            _ => Seq::empty(),
        },
        None => Seq::empty(),
    }
}

/// Texts with others added that are not there yet.
pub open spec fn with_new(v: Seq<Seq<char>>, more: Seq<Seq<char>>) -> Seq<Seq<char>>
    decreases more.len(),
{
    if more.len() == 0 {
        v
    } else {
        let before = with_new(v, more.drop_last());
        if before.contains(more.last()) {
            before
        } else {
            before.push(more.last())
        }
    }
}

/// The aliases that a service is given on a network.
pub open spec fn given_aliases(c: Option<ComposeServiceNetworkConfig>) -> Seq<Seq<char>> {
    match c {
        Some(c) => match c.aliases {
            Some(v) => texts(v@),
            None => Seq::empty(),
        },
        None => Seq::empty(),
    }
}

/// Texts with the aliases of networks added.
pub open spec fn with_aliases(
    v: Seq<Seq<char>>,
    networks: Seq<(Seq<char>, Option<ComposeServiceNetworkConfig>)>,
) -> Seq<Seq<char>>
    decreases networks.len(),
{
    if networks.len() == 0 {
        v
    } else {
        with_new(with_aliases(v, networks.drop_last()), given_aliases(networks.last().1))
    }
}

/// The names that a service answers to: its own, and the aliases it is given.
pub open spec fn service_aliases(s: ComposeService, name: Seq<char>) -> Seq<Seq<char>> {
    match s.networks {
        Some(ServiceNetworks::Mapping(m)) => with_aliases(seq![name], m.entries()),
        _ => seq![name],
    }
}

/// The image that a service runs.
pub open spec fn engine_image(s: ComposeService, name: Seq<char>) -> Seq<char> {
    if s.build is Some && s.image is None {
        image_name(s, name)
    } else {
        match s.image {
            Some(i) => i@,
            None => Seq::empty(),
        }
    }
}

/// The network that a service joins, under its name at the backend; none on a
/// backend without networks of one's own.
pub open spec fn engine_network(
    spec: ComposeSpec,
    project: Seq<char>,
    bridges: bool,
    s: ComposeService,
) -> Option<Seq<char>> {
    match first_network(s.networks) {
        Some(d) => if bridges {
            Some(network_name(spec, project, d))
        } else {
            None
        },
        None => None,
    }
}

/// The labels of the container of a service: its own, and those by which the
/// container is found again.
pub open spec fn engine_labels(
    s: ComposeService,
    project: Seq<char>,
    name: Seq<char>,
    hash: Seq<char>,
) -> Seq<(Seq<char>, Seq<char>)> {
    let own = match s.labels {
        Some(l) => from_pairs(settings(l)),
        None => Seq::empty(),
    };
    with_entry(
        with_entry(
            with_entry(own, "perry.compose.project"@, project),
            "perry.compose.service"@,
            name,
        ),
        "perry.compose.spec_hash"@,
        hash,
    )
}

/// The container that a service becomes.
pub open spec fn engine_container(
    spec: ComposeSpec,
    project: Seq<char>,
    bridges: bool,
    s: ComposeService,
    name: Seq<char>,
    container_name: Seq<char>,
    hash: Seq<char>,
) -> ContainerSpecView {
    let network = engine_network(spec, project, bridges, s);
    ContainerSpecView {
        image: engine_image(s, name),
        name: Some(container_name),
        ports: Some(
            match s.ports {
                Some(v) => v@.map_values(|p: PortSpec| engine_port(p)),
                None => Seq::empty(),
            },
        ),
        volumes: Some(
            match s.volumes {
                Some(v) => v@.map_values(
                    |v: VolumeValue| engine_mount(spec, project, str_text(yaml_of(v.value))),
                ),
                None => Seq::empty(),
            },
        ),
        env: Some(engine_env(s.environment)),
        cmd: Some(engine_command(s.command)),
        entrypoint: None,
        network,
        rm: None,
        read_only: s.read_only,
        labels: Some(engine_labels(s, project, name, hash)),
        privileged: s.privileged,
        user: text_opt(s.user),
        workdir: text_opt(s.working_dir),
        cap_add: texts_opt(s.cap_add),
        cap_drop: texts_opt(s.cap_drop),
        network_aliases: match network {
            Some(_) => Some(service_aliases(s, name)),
            None => None,
        },
    }
}

/// The hardening that a service asks for.
pub open spec fn engine_profile(s: ComposeService) -> ProfileView {
    let plain = ProfileView {
        read_only_root: s.read_only == Some(true),
        seccomp: None,
        no_new_privileges: false,
    };
    match s.security_opt {
        Some(v) => with_options(plain, texts(v@)),
        None => plain,
    }
}

fn port_of(p: &PortSpec) -> (r: String)
    ensures
        r@ == engine_port(*p),
{
    match p {
        PortSpec::Short(v) => plain_string(v),
        PortSpec::Long(l) => {
            let published = match &l.published {
                Some(h) => plain_string(h),
                None => String::new(),
            };
            join3(published.as_str(), ":", plain_string(&l.target).as_str())
        },
    }
}

fn value_of(v: &serde_yaml::Value) -> (r: String)
    ensures
        r@ == engine_value(yaml_of(*v)),
{
    match open(v) {
        Yaml::Bool(b) => bool_string(b),
        _ => plain_string(v),
    }
}

fn env_of(e: &Option<ListOrDict>) -> (r: OrderedMap<String>)
    ensures
        r.pairs() == engine_env(*e),
{
    match e {
        Some(ListOrDict::Dict(m)) => {
            let ghost all = m.entries().map_values(
                |e: (Seq<char>, Option<serde_yaml::Value>)|
                    (
                        e.0,
                        match e.1 {
                            Some(v) => engine_value(yaml_of(v)),
                            None => Seq::empty(),
                        },
                    ),
            );
            let mut out: OrderedMap<String> = OrderedMap::new();
            let mut i: usize = 0;
            assert(all.take(0) =~= Seq::empty());
            assert(out.pairs() =~= Seq::empty());
            while i < m.len()
                invariant
                    i <= m.entries().len(),
                    all == m.entries().map_values(
                        |e: (Seq<char>, Option<serde_yaml::Value>)|
                            (
                                e.0,
                                match e.1 {
                                    Some(v) => engine_value(yaml_of(v)),
                                    None => Seq::empty(),
                                },
                            ),
                    ),
                    out.pairs() == from_pairs(all.take(i as int)),
                decreases m.entries().len() - i,
            {
                proof {
                    assert(all.take(i + 1).drop_last() =~= all.take(i as int));
                    assert(all.take(i + 1).last() == all[i as int]);
                }
                let text = match m.value_at(i) {
                    Some(v) => value_of(v),
                    None => String::new(),
                };
                assert(text@ =~= all[i as int].1);
                out.put(m.key_at(i).clone(), text);
                i += 1;
            }
            assert(all.take(i as int) =~= all);
            out
        },
        Some(ListOrDict::List(v)) => assign_all(v),
        None => {
            let out: OrderedMap<String> = OrderedMap::new();
            assert(out.pairs() =~= Seq::empty());
            out
        },
    }
}

fn command_of(c: &Option<serde_yaml::Value>) -> (r: Vec<String>)
    ensures
        texts(r@) == engine_command(*c),
{
    let mut out: Vec<String> = Vec::new();
    assert(texts(out@) =~= Seq::empty());
    if let Some(v) = c {
        match open(v) {
            Yaml::String(s) => {
                out.push(s.clone());
                assert(texts(out@) =~= seq![s@]);
            },
            Yaml::Sequence(items) => {
                let ghost all = yaml_items(items@).map_values(|i: YamlView| str_text(i));
                let mut i: usize = 0;
                assert(texts(out@) =~= all.take(0));
                while i < items.len()
                    invariant
                        i <= items@.len(),
                        all == yaml_items(items@).map_values(|i: YamlView| str_text(i)),
                        texts(out@) == all.take(i as int),
                    decreases items@.len() - i,
                {
                    assert(all.take(i + 1) =~= all.take(i as int).push(all[i as int]));
                    out.push(str_or_empty(&items[i]));
                    i += 1;
                }
                assert(all.take(i as int) =~= all);
            },
            _ => {},
        }
    }
    out
}

fn add_new(v: &mut Vec<String>, more: &Vec<String>)
    ensures
        texts(final(v)@) == with_new(texts(old(v)@), texts(more@)),
{
    let ghost before = texts(v@);
    let ghost all = texts(more@);
    let mut i: usize = 0;
    assert(all.take(0) =~= Seq::empty());
    while i < more.len()
        invariant
            i <= more@.len(),
            all == texts(more@),
            texts(v@) == with_new(before, all.take(i as int)),
        decreases more@.len() - i,
    {
        proof {
            assert(all.take(i + 1).drop_last() =~= all.take(i as int));
            assert(all.take(i + 1).last() == more@[i as int]@);
        }
        if !contains(v, more[i].as_str()) {
            v.push(more[i].clone());
        }
        i += 1;
    }
    assert(all.take(i as int) =~= all);
}

fn aliases_of(s: &ComposeService, name: &str) -> (r: Vec<String>)
    ensures
        texts(r@) == service_aliases(*s, name@),
{
    let mut out: Vec<String> = vec![name.to_owned()];
    assert(texts(out@) =~= seq![name@]);
    if let Some(ServiceNetworks::Mapping(m)) = &s.networks {
        let ghost all = m.entries();
        let mut i: usize = 0;
        assert(all.take(0) =~= Seq::empty());
        while i < m.len()
            invariant
                i <= all.len(),
                all == m.entries(),
                texts(out@) == with_aliases(seq![name@], all.take(i as int)),
            decreases all.len() - i,
        {
            proof {
                assert(all.take(i + 1).drop_last() =~= all.take(i as int));
                assert(all.take(i + 1).last() == all[i as int]);
            }
            if let Some(c) = m.value_at(i) {
                if let Some(extra) = &c.aliases {
                    add_new(&mut out, extra);
                }
            }
            i += 1;
        }
        assert(all.take(i as int) =~= all);
    }
    out
}

/// A container that a start brought up.
#[derive(Debug, PartialEq, Eq)]
pub struct SessionContainer {
    pub id: String,
    /// Whether the start made it. Otherwise it was there, stopped, and was only
    /// started again.
    pub created: bool,
}

/// What a [`SessionContainer`] says.
pub struct SessionContainerView {
    pub id: Seq<char>,
    pub created: bool,
}

impl View for SessionContainer {
    type V = SessionContainerView;

    open spec fn view(&self) -> SessionContainerView {
        SessionContainerView { id: self.id@, created: self.created }
    }
}

/// What a list of containers says.
pub open spec fn brought_up(v: Seq<SessionContainer>) -> Seq<SessionContainerView> {
    v.map_values(|c: SessionContainer| c@)
}

/// What was made or started since the last start.
#[derive(Debug, Default)]
pub struct Session {
    /// The containers, in the order in which they came up.
    pub containers: Vec<SessionContainer>,
    pub networks: Vec<String>,
    pub volumes: Vec<String>,
}

/// What a [`Session`] holds.
pub struct SessionView {
    pub containers: Seq<SessionContainerView>,
    pub networks: Seq<Seq<char>>,
    pub volumes: Seq<Seq<char>>,
}

impl View for Session {
    type V = SessionView;

    open spec fn view(&self) -> SessionView {
        SessionView {
            containers: brought_up(self.containers@),
            networks: texts(self.networks@),
            volumes: texts(self.volumes@),
        }
    }
}

/// Nothing made or started.
pub open spec fn no_session() -> SessionView {
    SessionView { containers: Seq::empty(), networks: Seq::empty(), volumes: Seq::empty() }
}

impl Session {
    /// Nothing made or started.
    pub fn empty() -> (r: Session)
        ensures
            r@ == no_session(),
    {
        let r = Session { containers: Vec::new(), networks: Vec::new(), volumes: Vec::new() };
        assert(brought_up(r.containers@) =~= Seq::empty());
        assert(texts(r.networks@) =~= Seq::empty());
        assert(texts(r.volumes@) =~= Seq::empty());
        r
    }

    /// Counts a container as brought up.
    pub fn track(&mut self, id: String, created: bool)
        ensures
            final(self)@ == (SessionView {
                containers: old(self)@.containers.push(SessionContainerView { id: id@, created }),
                ..old(self)@
            }),
    {
        self.containers.push(SessionContainer { id, created });
        assert(brought_up(self.containers@) =~= brought_up(old(self).containers@).push(
            SessionContainerView { id: id@, created },
        ));
    }
}

/// A project and what was brought up for it.
#[derive(Debug)]
pub struct ComposeEngine {
    pub spec: ComposeSpec,
    pub project_name: String,
    pub enforcement: EnforcementMode,
    /// What was made or started since the last start.
    pub session: Session,
    /// The containers of services, by service.
    pub container_names: OrderedMap<String>,
    /// What the backend could not honour in the last start.
    pub warnings: Vec<NormalizationWarning>,
}

/// The container of a service: the one it has, or else a new one; a service that
/// is not there has none but a name.
pub open spec fn container_of(
    spec: ComposeSpec,
    names: Seq<(Seq<char>, Seq<char>)>,
    service: Seq<char>,
    generated: Seq<char>,
) -> Seq<char> {
    match lookup(names, service) {
        Some(n) => n,
        None => if position(spec.services.entries(), service) is Some {
            generated
        } else {
            service + "-unknown"@
        },
    }
}

impl ComposeEngine {
    /// A project with nothing brought up.
    pub fn new(spec: ComposeSpec, project_name: String) -> (r: ComposeEngine)
        ensures
            r.spec == spec,
            r.project_name == project_name,
            r.enforcement == EnforcementMode::Lenient,
            r.session@ == no_session(),
            r.container_names.pairs() == Seq::<(Seq<char>, Seq<char>)>::empty(),
            warning_views(r.warnings@) == Seq::<WarningView>::empty(),
    {
        let r = ComposeEngine {
            spec,
            project_name,
            enforcement: EnforcementMode::Lenient,
            session: Session::empty(),
            container_names: OrderedMap::new(),
            warnings: Vec::new(),
        };
        assert(r.container_names.pairs() =~= Seq::empty());
        assert(warning_views(r.warnings@) =~= Seq::empty());
        r
    }

    /// The same project under another enforcement mode.
    pub fn with_enforcement(self, mode: EnforcementMode) -> (r: ComposeEngine)
        ensures
            r == (ComposeEngine { enforcement: mode, ..self }),
    {
        let mut r = self;
        r.enforcement = mode;
        r
    }

    /// The enforcement mode.
    pub fn enforcement(&self) -> (r: EnforcementMode)
        ensures
            r == self.enforcement,
    {
        self.enforcement
    }

    /// Hands out the warnings of the last start and forgets them.
    pub fn take_normalization_warnings(&mut self) -> (r: Vec<NormalizationWarning>)
        ensures
            r == old(self).warnings,
            final(self).warnings@ == Seq::<NormalizationWarning>::empty(),
            final(self).spec == old(self).spec,
            final(self).project_name == old(self).project_name,
            final(self).enforcement == old(self).enforcement,
            final(self).session == old(self).session,
            final(self).container_names == old(self).container_names,
    {
        let mut out: Vec<NormalizationWarning> = Vec::new();
        std::mem::swap(&mut out, &mut self.warnings);
        out
    }

    /// The container of a service. Where it has none yet, `generated` is its
    /// name.
    pub fn resolve_container_name(&self, service_name: &str, generated: String) -> (r: String)
        ensures
            r@ == container_of(
                self.spec,
                self.container_names.pairs(),
                service_name@,
                generated@,
            ),
    {
        if let Some(cached) = self.container_names.text_under(service_name) {
            return cached;
        }
        if self.spec.services.contains_key(service_name) {
            generated
        } else {
            join2(service_name, "-unknown")
        }
    }

    /// The name of a declared volume at the backend.
    pub fn resolve_volume_name(&self, declared: &str) -> (r: String)
        ensures
            r@ == volume_name(self.spec, self.project_name@, declared@),
    {
        if let Some(m) = &self.spec.volumes {
            proof {
                lemma_position(m.entries(), declared@);
            }
            if let Some(Some(c)) = m.get(declared) {
                if let Some(given) = &c.name {
                    return given.clone();
                }
                if let Some(true) = c.external {
                    return declared.to_owned();
                }
            }
        }
        join3(self.project_name.as_str(), "_", declared)
    }

    /// The name of a declared network at the backend.
    pub fn resolve_network_name(&self, declared: &str) -> (r: String)
        ensures
            r@ == network_name(self.spec, self.project_name@, declared@),
    {
        if let Some(m) = &self.spec.networks {
            proof {
                lemma_position(m.entries(), declared@);
            }
            if let Some(Some(c)) = m.get(declared) {
                if let Some(given) = &c.name {
                    return given.clone();
                }
                if let Some(true) = c.external {
                    return declared.to_owned();
                }
            }
        }
        join3(self.project_name.as_str(), "_", declared)
    }

    /// Whether a volume exists outside the project.
    pub fn is_external_volume(&self, declared: &str) -> (r: bool)
        ensures
            r == volume_is_external(self.spec, declared@),
    {
        if let Some(m) = &self.spec.volumes {
            if let Some(Some(c)) = m.get(declared) {
                if let Some(true) = c.external {
                    return true;
                }
            }
        }
        false
    }

    /// Whether a network exists outside the project.
    pub fn is_external_network(&self, declared: &str) -> (r: bool)
        ensures
            r == network_is_external(self.spec, declared@),
    {
        if let Some(m) = &self.spec.networks {
            if let Some(Some(c)) = m.get(declared) {
                if let Some(true) = c.external {
                    return true;
                }
            }
        }
        false
    }

    /// A handle to what was brought up.
    pub fn handle(&self, stack_id: u64) -> (r: ComposeHandle)
        ensures
            r.stack_id == stack_id,
            r.project_name@ == self.project_name@,
            texts(r.services@) == keys_of(self.spec.services.entries()),
    {
        let services = self.spec.services.keys();
        assert(texts(services@) =~= keys_of(self.spec.services.entries()));
        ComposeHandle { stack_id, project_name: self.project_name.clone(), services }
    }

    fn mount_of(&self, v: &VolumeValue) -> (r: String)
        ensures
            r@ == engine_mount(self.spec, self.project_name@, str_text(yaml_of(v.value))),
    {
        let raw = str_or_empty(&v.value);
        let cs = chars_of(raw.as_str());
        if let Some(i) = find(&cs, ':') {
            let head = span(&cs, 0, i);
            let tail = span(&cs, i, cs.len());
            proof {
                assert(head@ =~= raw@.take(i as int));
                assert(tail@ =~= raw@.skip(i as int));
            }
            if starts_with(head.as_str(), "/") || starts_with(head.as_str(), ".") {
                return raw;
            }
            let declared: bool = match &self.spec.volumes {
                Some(m) => m.contains_key(head.as_str()),
                None => false,
            };
            if declared {
                return join2(self.resolve_volume_name(head.as_str()).as_str(), tail.as_str());
            }
        }
        raw
    }

    fn mounts_of(&self, volumes: &Option<Vec<VolumeValue>>) -> (r: Vec<String>)
        ensures
            texts(r@) == match *volumes {
                Some(v) => v@.map_values(
                    |v: VolumeValue|
                        engine_mount(self.spec, self.project_name@, str_text(yaml_of(v.value))),
                ),
                None => Seq::empty(),
            },
    {
        let mut out: Vec<String> = Vec::new();
        assert(texts(out@) =~= Seq::empty());
        if let Some(v) = volumes {
            let ghost all = v@.map_values(
                |v: VolumeValue|
                    engine_mount(self.spec, self.project_name@, str_text(yaml_of(v.value))),
            );
            let mut i: usize = 0;
            assert(texts(out@) =~= all.take(0));
            while i < v.len()
                invariant
                    i <= v@.len(),
                    all == v@.map_values(
                        |v: VolumeValue|
                            engine_mount(
                                self.spec,
                                self.project_name@,
                                str_text(yaml_of(v.value)),
                            ),
                    ),
                    texts(out@) == all.take(i as int),
                decreases v@.len() - i,
            {
                assert(all.take(i + 1) =~= all.take(i as int).push(all[i as int]));
                out.push(self.mount_of(&v[i]));
                i += 1;
            }
            assert(all.take(i as int) =~= all);
        }
        out
    }

    /// The container that a service becomes.
    pub fn container_for(
        &self,
        bridges: bool,
        service: &ComposeService,
        name: &str,
        container_name: &str,
        hash: &str,
    ) -> (r: ContainerSpec)
        ensures
            r@ == engine_container(
                self.spec,
                self.project_name@,
                bridges,
                *service,
                name@,
                container_name@,
                hash@,
            ),
    {
        let network = match primary_network(&service.networks) {
            Some(d) => if bridges {
                Some(self.resolve_network_name(d.as_str()))
            } else {
                None
            },
            None => None,
        };
        let mut labels: OrderedMap<String> = match &service.labels {
            Some(l) => l.to_map(),
            None => {
                let m: OrderedMap<String> = OrderedMap::new();
                assert(m.pairs() =~= Seq::empty());
                m
            },
        };
        labels.put("perry.compose.project".to_owned(), self.project_name.clone());
        labels.put("perry.compose.service".to_owned(), name.to_owned());
        labels.put("perry.compose.spec_hash".to_owned(), hash.to_owned());
        let image = if service.needs_build() {
            service.image_ref(name)
        } else {
            match &service.image {
                Some(i) => i.clone(),
                None => String::new(),
            }
        };
        let mut ports: Vec<String> = Vec::new();
        assert(texts(ports@) =~= Seq::empty());
        if let Some(v) = &service.ports {
            let ghost all = v@.map_values(|p: PortSpec| engine_port(p));
            let mut i: usize = 0;
            assert(texts(ports@) =~= all.take(0));
            while i < v.len()
                invariant
                    i <= v@.len(),
                    all == v@.map_values(|p: PortSpec| engine_port(p)),
                    texts(ports@) == all.take(i as int),
                decreases v@.len() - i,
            {
                assert(all.take(i + 1) =~= all.take(i as int).push(all[i as int]));
                ports.push(port_of(&v[i]));
                i += 1;
            }
            assert(all.take(i as int) =~= all);
        }
        let network_aliases = match &network {
            Some(_) => Some(aliases_of(service, name)),
            None => None,
        };
        ContainerSpec {
            image,
            name: Some(container_name.to_owned()),
            ports: Some(ports),
            volumes: Some(self.mounts_of(&service.volumes)),
            env: Some(env_of(&service.environment)),
            cmd: Some(command_of(&service.command)),
            entrypoint: None,
            network,
            rm: None,
            read_only: service.read_only,
            labels: Some(labels),
            privileged: service.privileged,
            user: copy_text(&service.user),
            workdir: copy_text(&service.working_dir),
            cap_add: copy_texts(&service.cap_add),
            cap_drop: copy_texts(&service.cap_drop),
            network_aliases,
        }
    }
}

/// The hardening that a service asks for.
pub fn profile_for(service: &ComposeService) -> (r: SecurityProfile)
    ensures
        r@ == engine_profile(*service),
{
    let mut profile = SecurityProfile {
        read_only_root: match service.read_only {
            Some(b) => b,
            None => false,
        },
        seccomp: None,
        no_new_privileges: false,
    };
    if let Some(opts) = &service.security_opt {
        profile.merge_security_opt(opts.as_slice());
    }
    profile
}

// ---- what containers keep ----

/// The labels by which a container is found again are the project, the service
/// and the hash of its definition, whatever labels the service has of its own.
pub proof fn lemma_labels_identify(
    s: ComposeService,
    project: Seq<char>,
    name: Seq<char>,
    hash: Seq<char>,
)
    ensures
        lookup(engine_labels(s, project, name, hash), "perry.compose.project"@) == Some(project),
        lookup(engine_labels(s, project, name, hash), "perry.compose.service"@) == Some(name),
        lookup(engine_labels(s, project, name, hash), "perry.compose.spec_hash"@) == Some(hash),
{
    let own = match s.labels {
        Some(l) => from_pairs(settings(l)),
        None => Seq::empty(),
    };
    let p = "perry.compose.project"@;
    let n = "perry.compose.service"@;
    let h = "perry.compose.spec_hash"@;
    reveal_strlit("perry.compose.project");
    reveal_strlit("perry.compose.service");
    reveal_strlit("perry.compose.spec_hash");
    assert(p[14] == 'p' && n[14] == 's' && p.len() == 21 && n.len() == 21 && h.len() == 23);
    let first = with_entry(own, p, project);
    let second = with_entry(first, n, name);
    let third = with_entry(second, h, hash);
    lemma_with_entry_lookup(own, p, project, p);
    lemma_with_entry_lookup(first, n, name, p);
    lemma_with_entry_lookup(first, n, name, n);
    lemma_with_entry_lookup(second, h, hash, p);
    lemma_with_entry_lookup(second, h, hash, n);
    lemma_with_entry_lookup(second, h, hash, h);
}

/// A service is attached to a network under its own name: it is always one of
/// its aliases, and the first.
pub proof fn lemma_service_is_alias(s: ComposeService, name: Seq<char>)
    ensures
        service_aliases(s, name).len() > 0,
        service_aliases(s, name)[0] == name,
{
    if let Some(ServiceNetworks::Mapping(m)) = s.networks {
        lemma_with_aliases_first(seq![name], m.entries());
    }
}

proof fn lemma_with_new_first(v: Seq<Seq<char>>, more: Seq<Seq<char>>)
    requires
        v.len() > 0,
    ensures
        with_new(v, more).len() >= v.len(),
        with_new(v, more)[0] == v[0],
    decreases more.len(),
{
    if more.len() > 0 {
        lemma_with_new_first(v, more.drop_last());
    }
}

proof fn lemma_with_aliases_first(
    v: Seq<Seq<char>>,
    networks: Seq<(Seq<char>, Option<ComposeServiceNetworkConfig>)>,
)
    requires
        v.len() > 0,
    ensures
        with_aliases(v, networks).len() >= v.len(),
        with_aliases(v, networks)[0] == v[0],
    decreases networks.len(),
{
    if networks.len() > 0 {
        lemma_with_aliases_first(v, networks.drop_last());
        lemma_with_new_first(
            with_aliases(v, networks.drop_last()),
            given_aliases(networks.last().1),
        );
    }
}

// ---- the two ways to a container ----

/// Whether a value is a string or a number.
pub open spec fn is_plain(v: serde_yaml::Value) -> bool {
    yaml_of(v) is String || yaml_of(v) is Number
}

/// Whether a port is a string or a number, or a pair of them.
pub open spec fn is_plain_port(p: PortSpec) -> bool {
    match p {
        PortSpec::Short(v) => is_plain(v),
        PortSpec::Long(l) => is_plain(l.target) && l.published is Some && is_plain(
            l.published->0,
        ),
    }
}

/// Whether all settings of an environment are scalars, or all are assignments.
pub open spec fn is_plain_env(e: ListOrDict) -> bool {
    match e {
        ListOrDict::Dict(m) => forall|i: int|
            0 <= i < m.entries().len() ==> match (#[trigger] m.entries()[i]).1 {
                Some(v) => scalar_text(yaml_of(v)) is Some,
                None => true,
            },
        ListOrDict::List(v) => forall|i: int|
            0 <= i < v@.len() ==> cut((#[trigger] v@[i])@, '=') is Some,
    }
}

/// Whether a command is a string or a list of strings.
pub open spec fn is_plain_command(c: serde_yaml::Value) -> bool {
    match yaml_of(c) {
        YamlView::Sequence(items) => forall|i: int|
            0 <= i < items.len() ==> string_under_tags(#[trigger] items[i]) is Some,
        _ => true,
    }
}

/// Whether a service is written in the plain forms: it has an image or a build,
/// and its ports, environment and command are plain.
pub open spec fn is_plain_service(s: ComposeService) -> bool {
    &&& s.image is Some || s.build is Some
    &&& s.ports matches Some(v) ==> forall|i: int|
        0 <= i < v@.len() ==> is_plain_port(#[trigger] v@[i])
    &&& s.environment matches Some(e) ==> is_plain_env(e)
    &&& s.command matches Some(c) ==> is_plain_command(c)
}

proof fn lemma_assignments_all(parts: Seq<Seq<char>>)
    requires
        forall|i: int| 0 <= i < parts.len() ==> cut(#[trigger] parts[i], '=') is Some,
    ensures
        assignments(parts) == parts.map_values(|s: Seq<char>| setting(s)),
    decreases parts.len(),
{
    if parts.len() > 0 {
        let front = parts.drop_last();
        assert forall|i: int| 0 <= i < front.len() implies cut(
            #[trigger] front[i],
            '=',
        ) is Some by {
            assert(front[i] == parts[i]);
        }
        lemma_assignments_all(front);
        assert(parts[parts.len() - 1] == parts.last());
        assert(parts.map_values(|s: Seq<char>| setting(s)) =~= front.map_values(
            |s: Seq<char>| setting(s),
        ).push(setting(parts.last())));
    } else {
        assert(parts.map_values(|s: Seq<char>| setting(s)) =~= Seq::empty());
    }
}

proof fn lemma_strings_all(items: Seq<YamlView>)
    requires
        forall|i: int| 0 <= i < items.len() ==> string_under_tags(#[trigger] items[i]) is Some,
    ensures
        strings_in(items) == items.map_values(|i: YamlView| str_text(i)),
    decreases items.len(),
{
    if items.len() > 0 {
        let front = items.drop_last();
        assert forall|i: int| 0 <= i < front.len() implies string_under_tags(
            #[trigger] front[i],
        ) is Some by {
            assert(front[i] == items[i]);
        }
        lemma_strings_all(front);
        assert(items[items.len() - 1] == items.last());
        assert(items.map_values(|i: YamlView| str_text(i)) =~= front.map_values(
            |i: YamlView| str_text(i),
        ) + seq![str_text(items.last())]);
    } else {
        assert(items.map_values(|i: YamlView| str_text(i)) =~= Seq::empty());
    }
}

/// A service becomes the same container on its own as in its project, as far as
/// image, name, ports, environment, command, user, directory, capabilities and
/// modes go. Networks, volumes and labels are those of the project.
pub proof fn lemma_same_container(
    spec: ComposeSpec,
    project: Seq<char>,
    bridges: bool,
    s: ComposeService,
    name: Seq<char>,
    container_name: Seq<char>,
    hash: Seq<char>,
)
    requires
        is_plain_service(s),
    ensures
        ({
            let a = engine_container(spec, project, bridges, s, name, container_name, hash);
            let b = service_container(s, name, container_name);
            &&& a.image == b.image
            &&& a.name == b.name
            &&& a.ports == b.ports
            &&& a.env == b.env
            &&& words_of(a.cmd) == words_of(b.cmd)
            &&& a.entrypoint == b.entrypoint
            &&& a.rm == b.rm
            &&& a.read_only == b.read_only
            &&& a.privileged == b.privileged
            &&& a.user == b.user
            &&& a.workdir == b.workdir
            &&& a.cap_add == b.cap_add
            &&& a.cap_drop == b.cap_drop
        }),
{
    let a = engine_container(spec, project, bridges, s, name, container_name, hash);
    let b = service_container(s, name, container_name);
    if let Some(v) = s.ports {
        assert(a.ports->0 =~= b.ports->0) by {
            assert forall|i: int| 0 <= i < v@.len() implies engine_port(#[trigger] v@[i])
                == port_text(v@[i]) by {
                assert(is_plain_port(v@[i]));
            }
        }
    }
    if let Some(e) = s.environment {
        match e {
            ListOrDict::Dict(m) => {
                let x = m.entries().map_values(
                    |e: (Seq<char>, Option<serde_yaml::Value>)|
                        (
                            e.0,
                            match e.1 {
                                Some(v) => engine_value(yaml_of(v)),
                                None => Seq::empty(),
                            },
                        ),
                );
                assert(x =~= settings(e)) by {
                    assert forall|i: int| 0 <= i < m.entries().len() implies x[i]
                        == #[trigger] settings(e)[i] by {
                        let entry = m.entries()[i];
                        if let Some(v) = entry.1 {
                            assert(scalar_text(yaml_of(v)) is Some);
                        }
                    }
                }
            },
            ListOrDict::List(v) => {
                assert forall|i: int| 0 <= i < texts(v@).len() implies cut(
                    #[trigger] texts(v@)[i],
                    '=',
                ) is Some by {
                    assert(texts(v@)[i] == v@[i]@);
                }
                lemma_assignments_all(texts(v@));
            },
        }
    }
    if let Some(c) = s.command {
        if let YamlView::Sequence(items) = yaml_of(c) {
            lemma_strings_all(items);
        }
    }
}

} // verus!

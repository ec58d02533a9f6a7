//! Compose files: services, networks, volumes and what belongs to them, and the
//! containers made from them.
use vstd::prelude::*;
use vstd::string::*;
use crate::compose::maps::{from_pairs, lemma_from_pairs_distinct, merge_into, merged, OrderedMap};
use crate::compose::yaml::{
    as_str, entry_string, entry_text, open, string_under_tags, value_text, yaml_items, yaml_of,
    yaml_value_to_str, Yaml, YamlView,
};
use crate::text::{cut, join2, join3, lemma_texts_push, split_once, texts};

verus! {

broadcast use lemma_texts_push;

// ---- optional texts ----

/// The text of an optional string.
pub open spec fn text_opt(o: Option<String>) -> Option<Seq<char>> {
    match o {
        Some(s) => Some(s@),
        None => None,
    }
}

/// The texts of an optional list.
pub open spec fn texts_opt(o: Option<Vec<String>>) -> Option<Seq<Seq<char>>> {
    match o {
        Some(v) => Some(texts(v@)),
        None => None,
    }
}

/// The entries of an optional map of texts.
pub open spec fn pairs_opt(
    o: Option<OrderedMap<String>>,
) -> Option<Seq<(Seq<char>, Seq<char>)>> {
    match o {
        Some(m) => Some(m.pairs()),
        None => None,
    }
}

/// A copy of an optional string.
pub fn copy_text(o: &Option<String>) -> (r: Option<String>)
    ensures
        text_opt(r) == text_opt(*o),
{
    match o {
        Some(s) => Some(s.clone()),
        None => None,
    }
}

/// A copy of a list of strings.
pub fn copy_list(v: &Vec<String>) -> (r: Vec<String>)
    ensures
        texts(r@) == texts(v@),
{
    let mut out: Vec<String> = Vec::new();
    let mut i: usize = 0;
    assert(texts(out@) =~= texts(v@).take(0));
    while i < v.len()
        invariant
            i <= v@.len(),
            texts(out@) == texts(v@).take(i as int),
        decreases v@.len() - i,
    {
        assert(texts(v@).take(i + 1) =~= texts(v@).take(i as int).push(v@[i as int]@));
        out.push(v[i].clone());
        i += 1;
    }
    assert(texts(v@).take(i as int) =~= texts(v@));
    out
}

/// A copy of an optional list of strings.
pub fn copy_texts(o: &Option<Vec<String>>) -> (r: Option<Vec<String>>)
    ensures
        texts_opt(r) == texts_opt(*o),
{
    match o {
        Some(v) => Some(copy_list(v)),
        None => None,
    }
}

/// A copy of a map of texts.
pub fn copy_map(m: &OrderedMap<String>) -> (r: OrderedMap<String>)
    ensures
        r.pairs() == m.pairs(),
{
    let mut out: OrderedMap<String> = OrderedMap::new();
    let n: usize = m.len();
    let mut i: usize = 0;
    proof {
        assert(out.pairs() =~= from_pairs(m.pairs().take(0)));
        assert forall|i: int, j: int| 0 <= i < j < n implies (#[trigger] m.pairs()[i]).0 != (
        #[trigger] m.pairs()[j]).0 by {
            assert(m.entries()[i].0 != m.entries()[j].0);
        }
    }
    while i < n
        invariant
            i <= n == m.entries().len(),
            out.pairs() == from_pairs(m.pairs().take(i as int)),
        decreases m.entries().len() - i,
    {
        assert(m.pairs().take(i + 1).drop_last() =~= m.pairs().take(i as int));
        out.put(m.key_at(i).clone(), m.value_at(i).clone());
        i += 1;
    }
    proof {
        assert(m.pairs().take(i as int) =~= m.pairs());
        lemma_from_pairs_distinct(m.pairs());
    }
    out
}

// ---- lists and maps of settings ----

/// Settings written as a map or as a list of `key=value`.
#[derive(Debug)]
pub enum ListOrDict {
    Dict(OrderedMap<Option<serde_yaml::Value>>),
    List(Vec<String>),
}

/// The text of an optional setting.
pub open spec fn setting_text(v: Option<serde_yaml::Value>) -> Seq<char> {
    match v {
        Some(v) => entry_text(v),
        None => Seq::empty(),
    }
}

/// A setting of the form `key=value`; without `=` the value is empty.
pub open spec fn setting(s: Seq<char>) -> (Seq<char>, Seq<char>) {
    match cut(s, '=') {
        Some(p) => p,
        None => (s, Seq::empty()),
    }
}

/// The settings in order, each a key and the text of its value.
pub open spec fn settings(l: ListOrDict) -> Seq<(Seq<char>, Seq<char>)> {
    match l {
        ListOrDict::Dict(m) => m.entries().map_values(
            |e: (Seq<char>, Option<serde_yaml::Value>)| (e.0, setting_text(e.1)),
        ),
        ListOrDict::List(v) => texts(v@).map_values(|s: Seq<char>| setting(s)),
    }
}

impl ListOrDict {
    /// The settings as a map of texts. Of two settings with one key the later
    /// counts.
    pub fn to_map(&self) -> (r: OrderedMap<String>)
        ensures
            r.pairs() == from_pairs(settings(*self)),
    {
        let ghost all = settings(*self);
        let mut out: OrderedMap<String> = OrderedMap::new();
        assert(out.pairs() =~= from_pairs(all.take(0)));
        match self {
            ListOrDict::Dict(m) => {
                let mut i: usize = 0;
                while i < m.len()
                    invariant
                        i <= m.entries().len(),
                        *self == ListOrDict::Dict(*m),
                        all == settings(*self),
                        out.pairs() == from_pairs(all.take(i as int)),
                    decreases m.entries().len() - i,
                {
                    assert(all.take(i + 1).drop_last() =~= all.take(i as int));
                    let value = match m.value_at(i) {
                        Some(v) => entry_string(v),
                        None => String::new(),
                    };
                    assert(value@ =~= setting_text(m.entries()[i as int].1));
                    out.put(m.key_at(i).clone(), value);
                    i += 1;
                }
                assert(all.take(i as int) =~= all);
            },
            ListOrDict::List(v) => {
                let mut i: usize = 0;
                while i < v.len()
                    invariant
                        i <= v@.len(),
                        *self == ListOrDict::List(*v),
                        all == settings(*self),
                        out.pairs() == from_pairs(all.take(i as int)),
                    decreases v@.len() - i,
                {
                    assert(all.take(i + 1).drop_last() =~= all.take(i as int));
                    let (key, value) = match split_once(v[i].as_str(), '=') {
                        Some(p) => p,
                        None => (v[i].clone(), String::new()),
                    };
                    assert((key@, value@) == setting(v@[i as int]@));
                    out.put(key, value);
                    i += 1;
                }
                assert(all.take(i as int) =~= all);
            },
        }
        out
    }
}

/// One string, or a list of strings.
#[derive(Debug)]
pub enum StringOrList {
    String(String),
    List(Vec<String>),
}

impl StringOrList {
    /// The strings as a list.
    pub fn to_list(&self) -> (r: Vec<String>)
        ensures
            texts(r@) == match *self {
                StringOrList::String(s) => seq![s@],
                StringOrList::List(v) => texts(v@),
            },
    {
        match self {
            StringOrList::String(s) => {
                let r = vec![s.clone()];
                assert(texts(r@) =~= seq![s@]);
                r
            },
            StringOrList::List(v) => copy_list(v),
        }
    }
}

// ---- dependencies ----

#[derive(Debug, Clone, Copy, PartialEq, Eq, Structural)]
pub enum DependsOnCondition {
    ServiceStarted,
    ServiceHealthy,
    ServiceCompletedSuccessfully,
}

#[derive(Debug)]
pub struct ComposeDependsOn {
    pub condition: Option<DependsOnCondition>,
    pub required: Option<bool>,
    pub restart: Option<bool>,
}

/// The services that a service depends on, as names or with conditions.
#[derive(Debug)]
pub enum DependsOnSpec {
    List(Vec<String>),
    Mapping(OrderedMap<ComposeDependsOn>),
}

/// The keys of a list of entries.
pub open spec fn keys_of<V>(entries: Seq<(Seq<char>, V)>) -> Seq<Seq<char>> {
    entries.map_values(|e: (Seq<char>, V)| e.0)
}

/// The names that a service depends on.
pub open spec fn dependency_names(d: DependsOnSpec) -> Seq<Seq<char>> {
    match d {
        DependsOnSpec::List(v) => texts(v@),
        DependsOnSpec::Mapping(m) => keys_of(m.entries()),
    }
}

impl DependsOnSpec {
    /// The names of the services depended on.
    pub fn service_names(&self) -> (r: Vec<String>)
        ensures
            texts(r@) == dependency_names(*self),
    {
        match self {
            DependsOnSpec::List(v) => copy_list(v),
            DependsOnSpec::Mapping(m) => {
                let r = m.keys();
                assert(texts(r@) =~= keys_of(m.entries()));
                r
            },
        }
    }
}

// ---- volumes of a service ----

#[derive(Debug, Clone, Copy, PartialEq, Eq, Structural)]
pub enum VolumeType {
    Bind,
    Volume,
    Tmpfs,
    Cluster,
    Npipe,
    Image,
}

#[derive(Debug)]
pub struct ComposeServiceVolume {
    pub volume_type: VolumeType,
    pub source: Option<String>,
    pub target: Option<String>,
    pub read_only: Option<bool>,
    pub consistency: Option<String>,
    pub bind: Option<ComposeServiceVolumeBind>,
    pub volume: Option<ComposeServiceVolumeOpts>,
    pub tmpfs: Option<ComposeServiceVolumeTmpfs>,
    pub image: Option<ComposeServiceVolumeImage>,
}

#[derive(Debug)]
pub struct ComposeServiceVolumeBind {
    pub propagation: Option<String>,
    pub create_host_path: Option<bool>,
    pub recursive: Option<String>,
    pub selinux: Option<String>,
}

#[derive(Debug)]
pub struct ComposeServiceVolumeOpts {
    pub labels: Option<ListOrDict>,
    pub nocopy: Option<bool>,
    pub subpath: Option<String>,
}

#[derive(Debug)]
pub struct ComposeServiceVolumeTmpfs {
    pub size: Option<serde_yaml::Value>,
    pub mode: Option<u32>,
}

#[derive(Debug)]
pub struct ComposeServiceVolumeImage {
    pub subpath: Option<String>,
}

/// A volume of a service in short or long form.
#[derive(Debug)]
pub enum VolumeEntry {
    Short(String),
    Long(ComposeServiceVolume),
}

/// A volume of a service: the value as written, and the entry that it reads as,
/// where it does.
#[derive(Debug)]
pub struct VolumeValue {
    pub value: serde_yaml::Value,
    pub entry: Option<VolumeEntry>,
}

/// The text of an optional string, or nothing.
pub open spec fn text_or_empty(o: Option<String>) -> Seq<char> {
    match o {
        Some(s) => s@,
        None => Seq::empty(),
    }
}

fn str_of(o: &Option<String>) -> (r: &str)
    ensures
        r@ == text_or_empty(*o),
{
    match o {
        Some(s) => s.as_str(),
        None => {
            proof {
                reveal_strlit("");
                assert(""@ =~= Seq::<char>::empty());
            }
            ""
        },
    }
}

/// A volume as a mount argument: `source:target`, with `:ro` where read-only.
pub open spec fn mount_text(e: VolumeEntry) -> Seq<char> {
    match e {
        VolumeEntry::Short(s) => s@,
        VolumeEntry::Long(v) => {
            let mount = text_or_empty(v.source) + ":"@ + text_or_empty(v.target);
            if v.read_only == Some(true) {
                mount + ":ro"@
            } else {
                mount
            }
        },
    }
}

impl VolumeEntry {
    /// The volume as a mount argument.
    pub fn to_string_form(&self) -> (r: String)
        ensures
            r@ == mount_text(*self),
    {
        match self {
            VolumeEntry::Short(s) => s.clone(),
            VolumeEntry::Long(v) => {
                let mut out = join3(str_of(&v.source), ":", str_of(&v.target));
                if let Some(true) = v.read_only {
                    out.append(":ro");
                }
                out
            },
        }
    }
}

// ---- ports ----

#[derive(Debug)]
pub struct ComposeServicePort {
    pub name: Option<String>,
    pub mode: Option<String>,
    pub host_ip: Option<String>,
    pub target: serde_yaml::Value,
    pub published: Option<serde_yaml::Value>,
    pub protocol: Option<String>,
    pub app_protocol: Option<String>,
}

/// A port of a service in short or long form.
#[derive(Debug)]
pub enum PortSpec {
    Short(serde_yaml::Value),
    Long(ComposeServicePort),
}

/// A port as a publishing argument: `host:container`, or the container's port
/// alone where none is published.
pub open spec fn port_text(p: PortSpec) -> Seq<char> {
    match p {
        PortSpec::Short(v) => value_text(v),
        PortSpec::Long(l) => match l.published {
            Some(h) => value_text(h) + ":"@ + value_text(l.target),
            None => value_text(l.target),
        },
    }
}

impl PortSpec {
    /// The port as a publishing argument.
    pub fn to_string_form(&self) -> (r: String)
        ensures
            r@ == port_text(*self),
    {
        match self {
            PortSpec::Short(v) => yaml_value_to_str(v),
            PortSpec::Long(p) => {
                let container = yaml_value_to_str(&p.target);
                match &p.published {
                    Some(h) => join3(yaml_value_to_str(h).as_str(), ":", container.as_str()),
                    None => container,
                }
            },
        }
    }
}

// ---- networks of a service ----

#[derive(Debug, Default)]
pub struct ComposeServiceNetworkConfig {
    pub aliases: Option<Vec<String>>,
    pub ipv4_address: Option<String>,
    pub ipv6_address: Option<String>,
    pub priority: Option<i32>,
}

/// The networks of a service, as names or with settings.
#[derive(Debug)]
pub enum ServiceNetworks {
    List(Vec<String>),
    Mapping(OrderedMap<Option<ComposeServiceNetworkConfig>>),
}

/// The names of the networks of a service.
pub open spec fn network_names(n: ServiceNetworks) -> Seq<Seq<char>> {
    match n {
        ServiceNetworks::List(v) => texts(v@),
        ServiceNetworks::Mapping(m) => keys_of(m.entries()),
    }
}

/// The first network of a service.
pub open spec fn first_network(n: Option<ServiceNetworks>) -> Option<Seq<char>> {
    match n {
        Some(n) => if network_names(n).len() > 0 {
            Some(network_names(n)[0])
        } else {
            None
        },
        None => None,
    }
}

impl ServiceNetworks {
    /// The names of the networks.
    pub fn names(&self) -> (r: Vec<String>)
        ensures
            texts(r@) == network_names(*self),
    {
        match self {
            ServiceNetworks::List(v) => copy_list(v),
            ServiceNetworks::Mapping(m) => {
                let r = m.keys();
                assert(texts(r@) =~= keys_of(m.entries()));
                r
            },
        }
    }
}

/// The first network of a service, if it has any.
pub fn primary_network(networks: &Option<ServiceNetworks>) -> (r: Option<String>)
    ensures
        text_opt(r) == first_network(*networks),
{
    match networks {
        Some(n) => {
            let names = n.names();
            assert(names@.len() == texts(names@).len());
            if names.len() > 0 {
                assert(names@[0]@ == texts(names@)[0]);
                Some(names[0].clone())
            } else {
                None
            }
        },
        None => None,
    }
}

// ---- builds ----

/// How to build an image: a context directory, or the full settings.
#[derive(Debug)]
pub enum BuildSpec {
    Context(String),
    Config(ComposeServiceBuild),
}

#[derive(Debug, Default)]
pub struct ComposeServiceBuild {
    pub context: Option<String>,
    pub containerfile: Option<String>,
    pub dockerfile_inline: Option<String>,
    pub args: Option<ListOrDict>,
    pub ssh: Option<serde_yaml::Value>,
    pub labels: Option<ListOrDict>,
    pub cache_from: Option<Vec<String>>,
    pub cache_to: Option<Vec<String>>,
    pub no_cache: Option<bool>,
    pub additional_contexts: Option<OrderedMap<String>>,
    pub network: Option<String>,
    pub provenance: Option<serde_yaml::Value>,
    pub sbom: Option<serde_yaml::Value>,
    pub pull: Option<bool>,
    pub target: Option<String>,
    pub shm_size: Option<serde_yaml::Value>,
    pub extra_hosts: Option<ListOrDict>,
    pub isolation: Option<String>,
    pub privileged: Option<bool>,
    pub secrets: Option<Vec<String>>,
    pub tags: Option<Vec<String>>,
    pub ulimits: Option<serde_yaml::Value>,
    pub platforms: Option<Vec<String>>,
    pub entitlements: Option<Vec<String>>,
}

/// The build settings with nothing set but the context.
pub open spec fn context_build(context: String) -> ComposeServiceBuild {
    ComposeServiceBuild {
        context: Some(context),
        containerfile: None,
        dockerfile_inline: None,
        args: None,
        ssh: None,
        labels: None,
        cache_from: None,
        cache_to: None,
        no_cache: None,
        additional_contexts: None,
        network: None,
        provenance: None,
        sbom: None,
        pull: None,
        target: None,
        shm_size: None,
        extra_hosts: None,
        isolation: None,
        privileged: None,
        secrets: None,
        tags: None,
        ulimits: None,
        platforms: None,
        entitlements: None,
    }
}

/// The build settings that a build stands for.
pub open spec fn build_settings(b: BuildSpec) -> ComposeServiceBuild {
    match b {
        BuildSpec::Context(c) => context_build(c),
        BuildSpec::Config(c) => c,
    }
}

impl BuildSpec {
    /// The context directory.
    pub fn context(&self) -> (r: Option<&str>)
        ensures
            match r {
                Some(s) => text_opt(build_settings(*self).context) == Some(s@),
                None => build_settings(*self).context is None,
            },
    {
        match self {
            BuildSpec::Context(s) => Some(s.as_str()),
            BuildSpec::Config(b) => match &b.context {
                Some(s) => Some(s.as_str()),
                None => None,
            },
        }
    }

    /// The full build settings.
    pub fn as_build(self) -> (r: ComposeServiceBuild)
        ensures
            r == build_settings(self),
    {
        match self {
            BuildSpec::Context(context) => ComposeServiceBuild {
                context: Some(context),
                containerfile: None,
                dockerfile_inline: None,
                args: None,
                ssh: None,
                labels: None,
                cache_from: None,
                cache_to: None,
                no_cache: None,
                additional_contexts: None,
                network: None,
                provenance: None,
                sbom: None,
                pull: None,
                target: None,
                shm_size: None,
                extra_hosts: None,
                isolation: None,
                privileged: None,
                secrets: None,
                tags: None,
                ulimits: None,
                platforms: None,
                entitlements: None,
            },
            BuildSpec::Config(b) => b,
        }
    }
}

// ---- further settings of a service ----

#[derive(Debug)]
pub struct ComposeHealthcheck {
    pub test: serde_yaml::Value,
    pub interval: Option<String>,
    pub timeout: Option<String>,
    pub retries: Option<u32>,
    pub start_period: Option<String>,
    pub start_interval: Option<String>,
    pub disable: Option<bool>,
}

#[derive(Debug, Default)]
pub struct ComposeDeployment {
    pub mode: Option<String>,
    pub replicas: Option<u32>,
    pub labels: Option<ListOrDict>,
    pub resources: Option<ComposeDeploymentResources>,
    pub restart_policy: Option<serde_yaml::Value>,
    pub placement: Option<serde_yaml::Value>,
    pub update_config: Option<serde_yaml::Value>,
    pub rollback_config: Option<serde_yaml::Value>,
}

#[derive(Debug, Default)]
pub struct ComposeDeploymentResources {
    pub limits: Option<ComposeResourceSpec>,
    pub reservations: Option<ComposeResourceSpec>,
}

#[derive(Debug, Default)]
pub struct ComposeResourceSpec {
    pub cpus: Option<serde_yaml::Value>,
    pub memory: Option<String>,
    pub pids: Option<i64>,
}

#[derive(Debug, Default)]
pub struct ComposeLogging {
    pub driver: Option<String>,
    pub options: Option<OrderedMap<serde_yaml::Value>>,
}

// ---- top-level definitions ----

#[derive(Debug, Default)]
pub struct ComposeNetworkIpamConfig {
    pub subnet: Option<String>,
    pub ip_range: Option<String>,
    pub gateway: Option<String>,
    pub aux_addresses: Option<OrderedMap<String>>,
}

#[derive(Debug, Default)]
pub struct ComposeNetworkIpam {
    pub driver: Option<String>,
    pub config: Option<Vec<ComposeNetworkIpamConfig>>,
    pub options: Option<OrderedMap<String>>,
}

#[derive(Debug, Default)]
pub struct ComposeNetwork {
    pub name: Option<String>,
    pub driver: Option<String>,
    pub driver_opts: Option<OrderedMap<String>>,
    pub ipam: Option<ComposeNetworkIpam>,
    pub external: Option<bool>,
    pub internal: Option<bool>,
    pub enable_ipv4: Option<bool>,
    pub enable_ipv6: Option<bool>,
    pub attachable: Option<bool>,
    pub labels: Option<ListOrDict>,
}

#[derive(Debug, Default)]
pub struct ComposeVolume {
    pub name: Option<String>,
    pub driver: Option<String>,
    pub driver_opts: Option<OrderedMap<String>>,
    pub external: Option<bool>,
    pub labels: Option<ListOrDict>,
}

#[derive(Debug, Default)]
pub struct ComposeSecret {
    pub name: Option<String>,
    pub environment: Option<String>,
    pub file: Option<String>,
    pub external: Option<bool>,
    pub labels: Option<ListOrDict>,
    pub driver: Option<String>,
    pub driver_opts: Option<OrderedMap<String>>,
    pub template_driver: Option<String>,
}

#[derive(Debug, Default)]
pub struct ComposeConfig {
    pub name: Option<String>,
    pub content: Option<String>,
    pub environment: Option<String>,
    pub file: Option<String>,
    pub external: Option<bool>,
    pub labels: Option<ListOrDict>,
    pub template_driver: Option<String>,
}

// ---- services ----

#[derive(Debug, Default)]
pub struct ComposeService {
    pub image: Option<String>,
    pub build: Option<BuildSpec>,
    pub command: Option<serde_yaml::Value>,
    pub entrypoint: Option<serde_yaml::Value>,
    pub environment: Option<ListOrDict>,
    pub env_file: Option<serde_yaml::Value>,
    pub ports: Option<Vec<PortSpec>>,
    pub volumes: Option<Vec<VolumeValue>>,
    pub networks: Option<ServiceNetworks>,
    pub depends_on: Option<DependsOnSpec>,
    pub restart: Option<String>,
    pub healthcheck: Option<ComposeHealthcheck>,
    pub container_name: Option<String>,
    pub labels: Option<ListOrDict>,
    pub hostname: Option<String>,
    pub user: Option<String>,
    pub working_dir: Option<String>,
    pub privileged: Option<bool>,
    pub read_only: Option<bool>,
    pub stdin_open: Option<bool>,
    pub tty: Option<bool>,
    pub stop_signal: Option<String>,
    pub stop_grace_period: Option<String>,
    pub network_mode: Option<String>,
    pub pid: Option<String>,
    pub cap_add: Option<Vec<String>>,
    pub cap_drop: Option<Vec<String>>,
    pub security_opt: Option<Vec<String>>,
    pub sysctls: Option<ListOrDict>,
    pub ulimits: Option<serde_yaml::Value>,
    pub logging: Option<ComposeLogging>,
    pub deploy: Option<ComposeDeployment>,
    pub develop: Option<serde_yaml::Value>,
    pub secrets: Option<Vec<String>>,
    pub configs: Option<Vec<String>>,
    pub expose: Option<Vec<serde_yaml::Value>>,
    pub extra_hosts: Option<ListOrDict>,
    pub dns: Option<serde_yaml::Value>,
    pub dns_search: Option<serde_yaml::Value>,
    pub tmpfs: Option<serde_yaml::Value>,
    pub shm_size: Option<serde_yaml::Value>,
    pub mem_limit: Option<serde_yaml::Value>,
    pub memswap_limit: Option<serde_yaml::Value>,
    pub cpus: Option<serde_yaml::Value>,
    pub cpu_shares: Option<i64>,
    pub platform: Option<String>,
    pub pull_policy: Option<String>,
    pub profiles: Option<Vec<String>>,
    pub scale: Option<u32>,
    pub extends: Option<serde_yaml::Value>,
    pub post_start: Option<Vec<serde_yaml::Value>>,
    pub pre_stop: Option<Vec<serde_yaml::Value>>,
}

/// The image that a service runs: its own, or the one built for it.
pub open spec fn image_name(s: ComposeService, service_name: Seq<char>) -> Seq<char> {
    match s.image {
        Some(i) => i@,
        None => service_name + "-image"@,
    }
}

/// The environment of a service.
pub open spec fn environment_of(s: ComposeService) -> Seq<(Seq<char>, Seq<char>)> {
    match s.environment {
        Some(e) => from_pairs(settings(e)),
        None => Seq::empty(),
    }
}

/// The ports of a service as publishing arguments.
pub open spec fn port_texts(s: ComposeService) -> Seq<Seq<char>> {
    match s.ports {
        Some(v) => v@.map_values(|p: PortSpec| port_text(p)),
        None => Seq::empty(),
    }
}

/// A volume as a mount argument: that of the entry it reads as, or else the
/// text of the value.
pub open spec fn volume_text(v: VolumeValue) -> Seq<char> {
    match v.entry {
        Some(e) => mount_text(e),
        None => value_text(v.value),
    }
}

/// The volumes of a service as mount arguments.
pub open spec fn volume_texts(s: ComposeService) -> Seq<Seq<char>> {
    match s.volumes {
        Some(v) => v@.map_values(|v: VolumeValue| volume_text(v)),
        None => Seq::empty(),
    }
}

/// The strings of a list of values; anything else is left out.
pub open spec fn strings_in(items: Seq<YamlView>) -> Seq<Seq<char>>
    decreases items.len(),
{
    if items.len() == 0 {
        Seq::empty()
    } else {
        strings_in(items.drop_last()) + match string_under_tags(items.last()) {
            Some(s) => seq![s],
            None => Seq::empty(),
        }
    }
}

/// The words of a command: a string is one word, a list its strings.
pub open spec fn command_words(c: YamlView) -> Seq<Seq<char>> {
    match c {
        YamlView::String(s) => seq![s],
        YamlView::Sequence(items) => strings_in(items),
        _ => Seq::empty(),
    }
}

/// What a container made directly from a service looks like.
pub open spec fn service_container(
    s: ComposeService,
    service_name: Seq<char>,
    container_name: Seq<char>,
) -> ContainerSpecView {
    ContainerSpecView {
        image: image_name(s, service_name),
        name: Some(container_name),
        ports: Some(port_texts(s)),
        volumes: Some(volume_texts(s)),
        env: Some(environment_of(s)),
        cmd: match s.command {
            Some(c) => Some(command_words(yaml_of(c))),
            None => None,
        },
        entrypoint: None,
        network: first_network(s.networks),
        rm: None,
        read_only: s.read_only,
        labels: match s.labels {
            Some(l) => Some(from_pairs(settings(l))),
            None => None,
        },
        privileged: s.privileged,
        user: text_opt(s.user),
        workdir: text_opt(s.working_dir),
        cap_add: texts_opt(s.cap_add),
        cap_drop: texts_opt(s.cap_drop),
        network_aliases: None,
    }
}

impl ComposeService {
    /// Whether an image must be built before the service runs.
    pub fn needs_build(&self) -> (r: bool)
        ensures
            r == (self.build is Some && self.image is None),
    {
        self.build.is_some() && self.image.is_none()
    }

    /// The image that the service runs.
    pub fn image_ref(&self, service_name: &str) -> (r: String)
        ensures
            r@ == image_name(*self, service_name@),
    {
        match &self.image {
            Some(image) => image.clone(),
            None => join2(service_name, "-image"),
        }
    }

    /// The environment as a map of texts.
    pub fn resolved_env(&self) -> (r: OrderedMap<String>)
        ensures
            r.pairs() == environment_of(*self),
    {
        match &self.environment {
            Some(e) => e.to_map(),
            None => {
                let r: OrderedMap<String> = OrderedMap::new();
                assert(r.pairs() =~= Seq::empty());
                r
            },
        }
    }

    /// The ports as publishing arguments.
    pub fn port_strings(&self) -> (r: Vec<String>)
        ensures
            texts(r@) == port_texts(*self),
    {
        let mut out: Vec<String> = Vec::new();
        let ghost all = port_texts(*self);
        assert(texts(out@) =~= all.take(0));
        if let Some(v) = &self.ports {
            let mut i: usize = 0;
            while i < v.len()
                invariant
                    i <= v@.len(),
                    all == v@.map_values(|p: PortSpec| port_text(p)),
                    texts(out@) == all.take(i as int),
                decreases v@.len() - i,
            {
                assert(all.take(i + 1) =~= all.take(i as int).push(all[i as int]));
                out.push(v[i].to_string_form());
                i += 1;
            }
            assert(all.take(i as int) =~= all);
        }
        assert(texts(out@) =~= all);
        out
    }

    /// The volumes as mount arguments.
    pub fn volume_strings(&self) -> (r: Vec<String>)
        ensures
            texts(r@) == volume_texts(*self),
    {
        let mut out: Vec<String> = Vec::new();
        let ghost all = volume_texts(*self);
        assert(texts(out@) =~= all.take(0));
        if let Some(v) = &self.volumes {
            let mut i: usize = 0;
            while i < v.len()
                invariant
                    i <= v@.len(),
                    all == v@.map_values(|x: VolumeValue| volume_text(x)),
                    texts(out@) == all.take(i as int),
                decreases v@.len() - i,
            {
                assert(all.take(i + 1) =~= all.take(i as int).push(all[i as int]));
                let s = match &v[i].entry {
                    Some(e) => e.to_string_form(),
                    None => yaml_value_to_str(&v[i].value),
                };
                out.push(s);
                i += 1;
            }
            assert(all.take(i as int) =~= all);
        }
        assert(texts(out@) =~= all);
        out
    }

    /// The container name that the service asks for.
    pub fn explicit_name(&self) -> (r: Option<&str>)
        ensures
            match r {
                Some(s) => text_opt(self.container_name) == Some(s@),
                None => self.container_name is None,
            },
    {
        match &self.container_name {
            Some(s) => Some(s.as_str()),
            None => None,
        }
    }

    /// The words of the command.
    pub fn command_list(&self) -> (r: Option<Vec<String>>)
        ensures
            texts_opt(r) == match self.command {
                Some(c) => Some(command_words(yaml_of(c))),
                None => None,
            },
    {
        match &self.command {
            None => None,
            Some(c) => {
                let mut out: Vec<String> = Vec::new();
                match open(c) {
                    Yaml::String(s) => {
                        out.push(s.clone());
                        assert(texts(out@) =~= seq![s@]);
                    },
                    Yaml::Sequence(items) => {
                        let mut i: usize = 0;
                        let ghost all = yaml_items(items@);
                        assert(texts(out@) =~= strings_in(all.take(0)));
                        while i < items.len()
                            invariant
                                i <= items@.len(),
                                all == yaml_items(items@),
                                texts(out@) == strings_in(all.take(i as int)),
                            decreases items@.len() - i,
                        {
                            assert(all.take(i + 1).drop_last() =~= all.take(i as int));
                            assert(all.take(i + 1).last() == yaml_of(items@[i as int]));
                            if let Some(s) = as_str(&items[i]) {
                                out.push(s.to_owned());
                            }
                            assert(texts(out@) =~= strings_in(all.take(i + 1)));
                            i += 1;
                        }
                        assert(all.take(i as int) =~= all);
                    },
                    _ => {
                        assert(texts(out@) =~= Seq::empty());
                    },
                }
                Some(out)
            },
        }
    }

    /// The container for this service on its own.
    pub fn to_container_spec(&self, service_name: &str, container_name: &str) -> (r: ContainerSpec)
        ensures
            r@ == service_container(*self, service_name@, container_name@),
    {
        let labels = match &self.labels {
            Some(l) => Some(l.to_map()),
            None => None,
        };
        ContainerSpec {
            image: self.image_ref(service_name),
            name: Some(container_name.to_owned()),
            ports: Some(self.port_strings()),
            volumes: Some(self.volume_strings()),
            env: Some(self.resolved_env()),
            cmd: self.command_list(),
            entrypoint: None,
            network: primary_network(&self.networks),
            rm: None,
            read_only: self.read_only,
            labels,
            privileged: self.privileged,
            user: copy_text(&self.user),
            workdir: copy_text(&self.working_dir),
            cap_add: copy_texts(&self.cap_add),
            cap_drop: copy_texts(&self.cap_drop),
            network_aliases: None,
        }
    }
}

// ---- compose files ----

#[derive(Debug, Default)]
pub struct ComposeSpec {
    pub name: Option<String>,
    pub version: Option<String>,
    pub services: OrderedMap<ComposeService>,
    pub networks: Option<OrderedMap<Option<ComposeNetwork>>>,
    pub volumes: Option<OrderedMap<Option<ComposeVolume>>>,
    pub secrets: Option<OrderedMap<Option<ComposeSecret>>>,
    pub configs: Option<OrderedMap<Option<ComposeConfig>>>,
    pub include_files: Option<Vec<serde_yaml::Value>>,
    pub models: Option<OrderedMap<serde_yaml::Value>>,
    pub extensions: OrderedMap<serde_yaml::Value>,
}

/// The entries of an optional map.
pub open spec fn entries_opt<V>(o: Option<OrderedMap<V>>) -> Option<Seq<(Seq<char>, V)>> {
    match o {
        Some(m) => Some(m.entries()),
        None => None,
    }
}

/// An optional map with another merged into it; where the other is missing,
/// nothing changes.
pub open spec fn merged_opt<V>(
    into: Option<Seq<(Seq<char>, V)>>,
    from: Option<Seq<(Seq<char>, V)>>,
) -> Option<Seq<(Seq<char>, V)>> {
    match from {
        Some(f) => Some(
            merged(
                match into {
                    Some(i) => i,
                    None => Seq::empty(),
                },
                f,
            ),
        ),
        None => into,
    }
}

fn merge_opt<V>(into: Option<OrderedMap<V>>, from: Option<OrderedMap<V>>) -> (r: Option<
    OrderedMap<V>,
>)
    ensures
        entries_opt(r) == merged_opt(entries_opt(into), entries_opt(from)),
{
    match from {
        Some(f) => {
            let mut m: OrderedMap<V> = match into {
                Some(m) => m,
                None => OrderedMap::new(),
            };
            merge_into(&mut m, f);
            Some(m)
        },
        None => into,
    }
}

impl ComposeSpec {
    /// Merges another file into this one. In every map the last writer wins;
    /// the name and version are taken over where the other has them.
    pub fn merge(&mut self, other: ComposeSpec)
        ensures
            final(self).services.entries() == merged(
                old(self).services.entries(),
                other.services.entries(),
            ),
            entries_opt(final(self).networks) == merged_opt(
                entries_opt(old(self).networks),
                entries_opt(other.networks),
            ),
            entries_opt(final(self).volumes) == merged_opt(
                entries_opt(old(self).volumes),
                entries_opt(other.volumes),
            ),
            entries_opt(final(self).secrets) == merged_opt(
                entries_opt(old(self).secrets),
                entries_opt(other.secrets),
            ),
            entries_opt(final(self).configs) == merged_opt(
                entries_opt(old(self).configs),
                entries_opt(other.configs),
            ),
            final(self).extensions.entries() == merged(
                old(self).extensions.entries(),
                other.extensions.entries(),
            ),
            final(self).name == if other.name is Some {
                other.name
            } else {
                old(self).name
            },
            final(self).version == if other.version is Some {
                other.version
            } else {
                old(self).version
            },
            entries_opt(final(self).models) == merged_opt(
                entries_opt(old(self).models),
                entries_opt(other.models),
            ),
            final(self).include_files == old(self).include_files,
    {
        merge_into(&mut self.services, other.services);
        self.networks = merge_opt(self.networks.take(), other.networks);
        self.volumes = merge_opt(self.volumes.take(), other.volumes);
        self.secrets = merge_opt(self.secrets.take(), other.secrets);
        self.configs = merge_opt(self.configs.take(), other.configs);
        self.models = merge_opt(self.models.take(), other.models);
        if other.name.is_some() {
            self.name = other.name;
        }
        if other.version.is_some() {
            self.version = other.version;
        }
        merge_into(&mut self.extensions, other.extensions);
    }
}

/// A running stack.
#[derive(Debug)]
pub struct ComposeHandle {
    pub stack_id: u64,
    pub project_name: String,
    pub services: Vec<String>,
}

// ---- containers ----

/// What to run as a container.
#[derive(Debug, Default)]
pub struct ContainerSpec {
    pub image: String,
    pub name: Option<String>,
    pub ports: Option<Vec<String>>,
    pub volumes: Option<Vec<String>>,
    pub env: Option<OrderedMap<String>>,
    pub cmd: Option<Vec<String>>,
    pub entrypoint: Option<Vec<String>>,
    pub network: Option<String>,
    pub rm: Option<bool>,
    pub read_only: Option<bool>,
    pub labels: Option<OrderedMap<String>>,
    pub privileged: Option<bool>,
    pub user: Option<String>,
    pub workdir: Option<String>,
    pub cap_add: Option<Vec<String>>,
    pub cap_drop: Option<Vec<String>>,
    pub network_aliases: Option<Vec<String>>,
}

/// What a [`ContainerSpec`] says.
#[verifier::ext_equal]
pub struct ContainerSpecView {
    pub image: Seq<char>,
    pub name: Option<Seq<char>>,
    pub ports: Option<Seq<Seq<char>>>,
    pub volumes: Option<Seq<Seq<char>>>,
    pub env: Option<Seq<(Seq<char>, Seq<char>)>>,
    pub cmd: Option<Seq<Seq<char>>>,
    pub entrypoint: Option<Seq<Seq<char>>>,
    pub network: Option<Seq<char>>,
    pub rm: Option<bool>,
    pub read_only: Option<bool>,
    pub labels: Option<Seq<(Seq<char>, Seq<char>)>>,
    pub privileged: Option<bool>,
    pub user: Option<Seq<char>>,
    pub workdir: Option<Seq<char>>,
    pub cap_add: Option<Seq<Seq<char>>>,
    pub cap_drop: Option<Seq<Seq<char>>>,
    pub network_aliases: Option<Seq<Seq<char>>>,
}

impl View for ContainerSpec {
    type V = ContainerSpecView;

    open spec fn view(&self) -> ContainerSpecView {
        ContainerSpecView {
            image: self.image@,
            name: text_opt(self.name),
            ports: texts_opt(self.ports),
            volumes: texts_opt(self.volumes),
            env: pairs_opt(self.env),
            cmd: texts_opt(self.cmd),
            entrypoint: texts_opt(self.entrypoint),
            network: text_opt(self.network),
            rm: self.rm,
            read_only: self.read_only,
            labels: pairs_opt(self.labels),
            privileged: self.privileged,
            user: text_opt(self.user),
            workdir: text_opt(self.workdir),
            cap_add: texts_opt(self.cap_add),
            cap_drop: texts_opt(self.cap_drop),
            network_aliases: texts_opt(self.network_aliases),
        }
    }
}

/// A copy of an optional map of texts.
pub fn copy_pairs(o: &Option<OrderedMap<String>>) -> (r: Option<OrderedMap<String>>)
    ensures
        pairs_opt(r) == pairs_opt(*o),
{
    match o {
        Some(m) => Some(copy_map(m)),
        None => None,
    }
}

impl Clone for ContainerSpec {
    fn clone(&self) -> (r: ContainerSpec)
        ensures
            r@ == self@,
    {
        ContainerSpec {
            image: self.image.clone(),
            name: copy_text(&self.name),
            ports: copy_texts(&self.ports),
            volumes: copy_texts(&self.volumes),
            env: copy_pairs(&self.env),
            cmd: copy_texts(&self.cmd),
            entrypoint: copy_texts(&self.entrypoint),
            network: copy_text(&self.network),
            rm: self.rm,
            read_only: self.read_only,
            labels: copy_pairs(&self.labels),
            privileged: self.privileged,
            user: copy_text(&self.user),
            workdir: copy_text(&self.workdir),
            cap_add: copy_texts(&self.cap_add),
            cap_drop: copy_texts(&self.cap_drop),
            network_aliases: copy_texts(&self.network_aliases),
        }
    }
}

/// A container that was made.
#[derive(Debug, Clone)]
pub struct ContainerHandle {
    pub id: String,
    pub name: Option<String>,
}

/// A container as its runtime describes it.
#[derive(Debug)]
pub struct ContainerInfo {
    pub id: String,
    pub name: String,
    pub image: String,
    pub status: String,
    pub ports: Vec<String>,
    pub labels: OrderedMap<String>,
    pub created: String,
    pub ip_address: String,
}

/// What a [`ContainerInfo`] says.
#[verifier::ext_equal]
pub struct ContainerInfoView {
    pub id: Seq<char>,
    pub name: Seq<char>,
    pub image: Seq<char>,
    pub status: Seq<char>,
    pub ports: Seq<Seq<char>>,
    pub labels: Seq<(Seq<char>, Seq<char>)>,
    pub created: Seq<char>,
    pub ip_address: Seq<char>,
}

impl View for ContainerInfo {
    type V = ContainerInfoView;

    open spec fn view(&self) -> ContainerInfoView {
        ContainerInfoView {
            id: self.id@,
            name: self.name@,
            image: self.image@,
            status: self.status@,
            ports: texts(self.ports@),
            labels: self.labels.pairs(),
            created: self.created@,
            ip_address: self.ip_address@,
        }
    }
}

/// What a container wrote.
#[derive(Debug, Clone)]
pub struct ContainerLogs {
    pub stdout: String,
    pub stderr: String,
}

/// An image as its runtime describes it.
#[derive(Debug, Clone)]
pub struct ImageInfo {
    pub id: String,
    pub repository: String,
    pub tag: String,
    pub size: u64,
    pub created: String,
}

/// What an [`ImageInfo`] says.
pub struct ImageInfoView {
    pub id: Seq<char>,
    pub repository: Seq<char>,
    pub tag: Seq<char>,
    pub size: u64,
    pub created: Seq<char>,
}

impl View for ImageInfo {
    type V = ImageInfoView;

    open spec fn view(&self) -> ImageInfoView {
        ImageInfoView {
            id: self.id@,
            repository: self.repository@,
            tag: self.tag@,
            size: self.size,
            created: self.created@,
        }
    }
}

} // verus!

//! What each backend can do, and what becomes of a container that asks for
//! more.
use vstd::prelude::*;
use vstd::string::*;
use crate::compose::backend::{ProfileView, SecurityProfile};
use crate::compose::types::{ContainerSpec, ContainerSpecView};
use crate::text::{join3, same, texts};

verus! {

/// How well a backend supports a feature.
#[derive(Debug, Clone, Copy, PartialEq, Eq)]
pub enum FeatureSupport {
    Native,
    /// The engine stands in for the backend.
    Emulated,
    Unsupported,
    /// Supported within the limits given.
    Partial(&'static str),
}

impl FeatureSupport {
    pub fn is_native(self) -> (r: bool)
        ensures
            r == (self is Native),
    {
        matches!(self, FeatureSupport::Native)
    }

    pub fn is_unsupported(self) -> (r: bool)
        ensures
            r == (self is Unsupported),
    {
        matches!(self, FeatureSupport::Unsupported)
    }
}

/// What a backend can do.
#[derive(Debug, Clone, Copy, PartialEq, Eq)]
pub struct BackendCapabilities {
    pub backend: &'static str,
    pub privileged: FeatureSupport,
    pub seccomp_profile: FeatureSupport,
    pub no_new_privileges: FeatureSupport,
    pub linux_capabilities: FeatureSupport,
    pub read_only_rootfs: FeatureSupport,
    pub run_as_user: FeatureSupport,
    pub network_alias: FeatureSupport,
    pub user_defined_bridge: FeatureSupport,
    pub internal_network: FeatureSupport,
    pub ipc_namespace_share: FeatureSupport,
    pub pid_namespace_share: FeatureSupport,
    pub restart_policy: FeatureSupport,
    pub healthcheck_native: FeatureSupport,
    pub rm_on_exit: FeatureSupport,
    pub named_volumes: FeatureSupport,
    pub bind_mounts: FeatureSupport,
    pub selinux_mount_labels: FeatureSupport,
    pub tmpfs_mounts: FeatureSupport,
    pub image_signature_verify: FeatureSupport,
    pub multi_arch_pull: FeatureSupport,
}

/// A backend that supports everything.
pub open spec fn all_native(backend: &'static str) -> BackendCapabilities {
    BackendCapabilities {
        backend,
        privileged: FeatureSupport::Native,
        seccomp_profile: FeatureSupport::Native,
        no_new_privileges: FeatureSupport::Native,
        linux_capabilities: FeatureSupport::Native,
        read_only_rootfs: FeatureSupport::Native,
        run_as_user: FeatureSupport::Native,
        network_alias: FeatureSupport::Native,
        user_defined_bridge: FeatureSupport::Native,
        internal_network: FeatureSupport::Native,
        ipc_namespace_share: FeatureSupport::Native,
        pid_namespace_share: FeatureSupport::Native,
        restart_policy: FeatureSupport::Native,
        healthcheck_native: FeatureSupport::Native,
        rm_on_exit: FeatureSupport::Native,
        named_volumes: FeatureSupport::Native,
        bind_mounts: FeatureSupport::Native,
        selinux_mount_labels: FeatureSupport::Native,
        tmpfs_mounts: FeatureSupport::Native,
        image_signature_verify: FeatureSupport::Native,
        multi_arch_pull: FeatureSupport::Native,
    }
}

fn native(backend: &'static str) -> (r: BackendCapabilities)
    ensures
        r == all_native(backend),
{
    BackendCapabilities {
        backend,
        privileged: FeatureSupport::Native,
        seccomp_profile: FeatureSupport::Native,
        no_new_privileges: FeatureSupport::Native,
        linux_capabilities: FeatureSupport::Native,
        read_only_rootfs: FeatureSupport::Native,
        run_as_user: FeatureSupport::Native,
        network_alias: FeatureSupport::Native,
        user_defined_bridge: FeatureSupport::Native,
        internal_network: FeatureSupport::Native,
        ipc_namespace_share: FeatureSupport::Native,
        pid_namespace_share: FeatureSupport::Native,
        restart_policy: FeatureSupport::Native,
        healthcheck_native: FeatureSupport::Native,
        rm_on_exit: FeatureSupport::Native,
        named_volumes: FeatureSupport::Native,
        bind_mounts: FeatureSupport::Native,
        selinux_mount_labels: FeatureSupport::Native,
        tmpfs_mounts: FeatureSupport::Native,
        image_signature_verify: FeatureSupport::Native,
        multi_arch_pull: FeatureSupport::Native,
    }
}

/// Docker, which supports everything.
pub open spec fn docker_table() -> BackendCapabilities {
    all_native("docker")
}

/// Podman, which supports everything.
pub open spec fn podman_table() -> BackendCapabilities {
    all_native("podman")
}

/// Apple's container runtime, whose containers run in a virtual machine.
pub open spec fn apple_table() -> BackendCapabilities {
    BackendCapabilities {
        privileged: FeatureSupport::Unsupported,
        seccomp_profile: FeatureSupport::Unsupported,
        no_new_privileges: FeatureSupport::Unsupported,
        network_alias: FeatureSupport::Unsupported,
        user_defined_bridge: FeatureSupport::Partial(
            "needs `container system start` + network plugin loaded",
        ),
        internal_network: FeatureSupport::Unsupported,
        ipc_namespace_share: FeatureSupport::Unsupported,
        pid_namespace_share: FeatureSupport::Unsupported,
        restart_policy: FeatureSupport::Emulated,
        healthcheck_native: FeatureSupport::Emulated,
        selinux_mount_labels: FeatureSupport::Unsupported,
        image_signature_verify: FeatureSupport::Emulated,
        ..all_native("apple")
    }
}

/// Lima, which runs nerdctl in a virtual machine.
pub open spec fn lima_table() -> BackendCapabilities {
    BackendCapabilities {
        restart_policy: FeatureSupport::Partial("`always` | `on-failure` only"),
        multi_arch_pull: FeatureSupport::Partial("nerdctl pre-1.7 limited"),
        ..all_native("lima")
    }
}

impl BackendCapabilities {
    /// The capabilities of Docker.
    pub fn docker() -> (r: BackendCapabilities)
        ensures
            r == docker_table(),
    {
        native("docker")
    }

    /// The capabilities of Podman.
    pub fn podman() -> (r: BackendCapabilities)
        ensures
            r == podman_table(),
    {
        native("podman")
    }

    /// The capabilities of Apple's container runtime.
    pub fn apple() -> (r: BackendCapabilities)
        ensures
            r == apple_table(),
    {
        let mut c = native("apple");
        c.privileged = FeatureSupport::Unsupported;
        c.seccomp_profile = FeatureSupport::Unsupported;
        c.no_new_privileges = FeatureSupport::Unsupported;
        c.network_alias = FeatureSupport::Unsupported;
        c.user_defined_bridge = FeatureSupport::Partial(
            "needs `container system start` + network plugin loaded",
        );
        c.internal_network = FeatureSupport::Unsupported;
        c.ipc_namespace_share = FeatureSupport::Unsupported;
        c.pid_namespace_share = FeatureSupport::Unsupported;
        c.restart_policy = FeatureSupport::Emulated;
        c.healthcheck_native = FeatureSupport::Emulated;
        c.selinux_mount_labels = FeatureSupport::Unsupported;
        c.image_signature_verify = FeatureSupport::Emulated;
        c
    }

    /// The capabilities of Lima.
    pub fn lima() -> (r: BackendCapabilities)
        ensures
            r == lima_table(),
    {
        let mut c = native("lima");
        c.restart_policy = FeatureSupport::Partial("`always` | `on-failure` only");
        c.multi_arch_pull = FeatureSupport::Partial("nerdctl pre-1.7 limited");
        c
    }
}

/// The capabilities of a backend by name. A backend without a table of its own
/// counts as Docker.
pub open spec fn table_of(name: Seq<char>) -> BackendCapabilities {
    if name == "apple/container"@ {
        apple_table()
    } else if name == "lima"@ {
        lima_table()
    } else if name == "podman"@ {
        podman_table()
    } else {
        docker_table()
    }
}

/// The capabilities of a backend by name.
pub fn capabilities_for_backend(name: &str) -> (r: BackendCapabilities)
    ensures
        r == table_of(name@),
{
    if same(name, "apple/container") {
        BackendCapabilities::apple()
    } else if same(name, "lima") {
        BackendCapabilities::lima()
    } else if same(name, "podman") {
        BackendCapabilities::podman()
    } else {
        BackendCapabilities::docker()
    }
}

// ---- normalisation ----

/// What to do about a setting that a backend cannot honour.
#[derive(Debug, Clone, Copy, PartialEq, Eq, Structural)]
pub enum EnforcementMode {
    /// Drop it and log.
    Lenient,
    /// Drop it and keep a warning for the user.
    WarnUser,
    /// Refuse.
    Strict,
}

impl Default for EnforcementMode {
    fn default() -> (r: EnforcementMode)
        ensures
            r == EnforcementMode::Lenient,
    {
        EnforcementMode::Lenient
    }
}

#[derive(Debug, Clone)]
pub enum NormalizationAction {
    Dropped,
    Translated { from: String, to: String },
    EmulatedHost,
}

/// One setting that was dropped or translated.
#[derive(Debug, Clone)]
pub struct NormalizationWarning {
    pub backend: &'static str,
    pub service: String,
    pub field: &'static str,
    pub action: NormalizationAction,
    pub reason: String,
}

/// What a [`NormalizationAction`] says.
pub enum ActionView {
    Dropped,
    Translated { from: Seq<char>, to: Seq<char> },
    EmulatedHost,
}

impl View for NormalizationAction {
    type V = ActionView;

    open spec fn view(&self) -> ActionView {
        match *self {
            NormalizationAction::Dropped => ActionView::Dropped,
            NormalizationAction::Translated { from, to } => ActionView::Translated {
                from: from@,
                to: to@,
            },
            NormalizationAction::EmulatedHost => ActionView::EmulatedHost,
        }
    }
}

/// What a [`NormalizationWarning`] says.
pub struct WarningView {
    pub backend: Seq<char>,
    pub service: Seq<char>,
    pub field: Seq<char>,
    pub action: ActionView,
    pub reason: Seq<char>,
}

impl View for NormalizationWarning {
    type V = WarningView;

    open spec fn view(&self) -> WarningView {
        WarningView {
            backend: self.backend@,
            service: self.service@,
            field: self.field@,
            action: self.action@,
            reason: self.reason@,
        }
    }
}

/// What a list of warnings says.
pub open spec fn warning_views(v: Seq<NormalizationWarning>) -> Seq<WarningView> {
    v.map_values(|w: NormalizationWarning| w@)
}

/// Appending a warning to a list.
pub broadcast proof fn lemma_warnings_push(
    v: Seq<NormalizationWarning>,
    w: NormalizationWarning,
)
    ensures
        #[trigger] warning_views(v.push(w)) == warning_views(v).push(w@),
{
    assert(warning_views(v.push(w)) =~= warning_views(v).push(w@));
}

/// The warning that a setting was dropped.
pub open spec fn dropped_warning(
    backend: Seq<char>,
    service: Seq<char>,
    field: Seq<char>,
    problem: Seq<char>,
) -> WarningView {
    WarningView {
        backend,
        service,
        field,
        action: ActionView::Dropped,
        reason: "backend "@ + backend + problem,
    }
}

/// The warning that a setting was dropped.
pub fn dropped(
    backend: &'static str,
    service: &str,
    field: &'static str,
    problem: &str,
) -> (r: NormalizationWarning)
    ensures
        r@ == dropped_warning(backend@, service@, field@, problem@),
{
    NormalizationWarning {
        backend,
        service: service.to_owned(),
        field,
        action: NormalizationAction::Dropped,
        reason: join3("backend ", backend, problem),
    }
}

/// Whether a container runs privileged on a backend that knows no such thing.
pub open spec fn drops_privileged(caps: BackendCapabilities, v: ContainerSpecView) -> bool {
    v.privileged == Some(true) && caps.privileged is Unsupported
}

/// Whether a container has network aliases on a backend without them.
pub open spec fn drops_aliases(caps: BackendCapabilities, v: ContainerSpecView) -> bool {
    v.network_aliases is Some && v.network_aliases->0.len() > 0
        && caps.network_alias is Unsupported
}

/// What is left of a container on a backend.
pub open spec fn normalised(caps: BackendCapabilities, v: ContainerSpecView) -> ContainerSpecView {
    ContainerSpecView {
        privileged: if drops_privileged(caps, v) {
            None
        } else {
            v.privileged
        },
        network_aliases: if drops_aliases(caps, v) {
            None
        } else {
            v.network_aliases
        },
        ..v
    }
}

/// The warning about a privileged container.
pub open spec fn privileged_warning(caps: BackendCapabilities, service: Seq<char>) -> WarningView {
    dropped_warning(
        caps.backend@,
        service,
        "privileged"@,
        " does not support `privileged` mode; field dropped"@,
    )
}

/// The warning about network aliases.
pub open spec fn aliases_warning(caps: BackendCapabilities, service: Seq<char>) -> WarningView {
    dropped_warning(
        caps.backend@,
        service,
        "network_aliases"@,
        " does not support `--network-alias`; service-key DNS aliases dropped — sibling services must address this container by `container_name`"@,
    )
}

/// The warnings about what a container loses on a backend.
pub open spec fn spec_warnings(
    caps: BackendCapabilities,
    service: Seq<char>,
    v: ContainerSpecView,
) -> Seq<WarningView> {
    let first = if drops_privileged(caps, v) {
        seq![privileged_warning(caps, service)]
    } else {
        Seq::empty()
    };
    if drops_aliases(caps, v) {
        first.push(aliases_warning(caps, service))
    } else {
        first
    }
}

/// Drops from a container what a backend cannot do, and says what was dropped.
pub fn normalise_spec_for(
    caps: &BackendCapabilities,
    service_name: &str,
    spec: &mut ContainerSpec,
) -> (r: Vec<NormalizationWarning>)
    ensures
        final(spec)@ == normalised(*caps, old(spec)@),
        warning_views(r@) == spec_warnings(*caps, service_name@, old(spec)@),
{
    broadcast use lemma_warnings_push;

    let mut warnings: Vec<NormalizationWarning> = Vec::new();
    assert(warning_views(warnings@) =~= Seq::empty());
    let privileged: bool = match spec.privileged {
        Some(b) => b,
        None => false,
    };
    if privileged && caps.privileged.is_unsupported() {
        warnings.push(
            dropped(
                caps.backend,
                service_name,
                "privileged",
                " does not support `privileged` mode; field dropped",
            ),
        );
        spec.privileged = None;
        assert(warning_views(warnings@) =~= seq![privileged_warning(*caps, service_name@)]);
    }
    let aliased: bool = match &spec.network_aliases {
        Some(v) => {
            assert(texts(v@).len() == v@.len());
            v.len() > 0
        },
        None => false,
    };
    if aliased && caps.network_alias.is_unsupported() {
        warnings.push(
            dropped(
                caps.backend,
                service_name,
                "network_aliases",
                " does not support `--network-alias`; service-key DNS aliases dropped — sibling services must address this container by `container_name`",
            ),
        );
        spec.network_aliases = None;
    }
    warnings
}

/// Whether a profile has a seccomp profile on a backend without them.
pub open spec fn drops_seccomp(caps: BackendCapabilities, p: ProfileView) -> bool {
    p.seccomp is Some && caps.seccomp_profile is Unsupported
}

/// Whether a profile forbids new privileges on a backend that cannot.
pub open spec fn drops_no_new_privileges(caps: BackendCapabilities, p: ProfileView) -> bool {
    p.no_new_privileges && caps.no_new_privileges is Unsupported
}

/// What is left of a security profile on a backend.
pub open spec fn normalised_profile(caps: BackendCapabilities, p: ProfileView) -> ProfileView {
    ProfileView {
        seccomp: if drops_seccomp(caps, p) {
            None
        } else {
            p.seccomp
        },
        no_new_privileges: p.no_new_privileges && !drops_no_new_privileges(caps, p),
        ..p
    }
}

/// The warning about a seccomp profile.
pub open spec fn seccomp_warning(caps: BackendCapabilities, service: Seq<char>) -> WarningView {
    dropped_warning(
        caps.backend@,
        service,
        "seccomp"@,
        " does not honor seccomp profiles; field dropped"@,
    )
}

/// The warning about forbidding new privileges.
pub open spec fn no_new_privileges_warning(
    caps: BackendCapabilities,
    service: Seq<char>,
) -> WarningView {
    dropped_warning(
        caps.backend@,
        service,
        "no_new_privileges"@,
        " does not honor `no-new-privileges`; field dropped"@,
    )
}

/// The warnings about what a security profile loses on a backend.
pub open spec fn profile_warnings(
    caps: BackendCapabilities,
    service: Seq<char>,
    p: ProfileView,
) -> Seq<WarningView> {
    let first = if drops_seccomp(caps, p) {
        seq![seccomp_warning(caps, service)]
    } else {
        Seq::empty()
    };
    if drops_no_new_privileges(caps, p) {
        first.push(no_new_privileges_warning(caps, service))
    } else {
        first
    }
}

/// Drops from a security profile what a backend cannot do, and says what was
/// dropped.
pub fn normalise_security_profile(
    caps: &BackendCapabilities,
    service_name: &str,
    profile: &mut SecurityProfile,
) -> (r: Vec<NormalizationWarning>)
    ensures
        final(profile)@ == normalised_profile(*caps, old(profile)@),
        warning_views(r@) == profile_warnings(*caps, service_name@, old(profile)@),
{
    broadcast use lemma_warnings_push;

    let mut warnings: Vec<NormalizationWarning> = Vec::new();
    assert(warning_views(warnings@) =~= Seq::empty());
    if profile.seccomp.is_some() && caps.seccomp_profile.is_unsupported() {
        warnings.push(
            dropped(
                caps.backend,
                service_name,
                "seccomp",
                " does not honor seccomp profiles; field dropped",
            ),
        );
        profile.seccomp = None;
        assert(warning_views(warnings@) =~= seq![seccomp_warning(*caps, service_name@)]);
    }
    if profile.no_new_privileges && caps.no_new_privileges.is_unsupported() {
        warnings.push(
            dropped(
                caps.backend,
                service_name,
                "no_new_privileges",
                " does not honor `no-new-privileges`; field dropped",
            ),
        );
        profile.no_new_privileges = false;
    }
    warnings
}

/// Normalising twice is normalising once, and the second time there is nothing
/// to warn about.
pub proof fn lemma_normalise_idempotent(
    caps: BackendCapabilities,
    service: Seq<char>,
    v: ContainerSpecView,
    p: ProfileView,
)
    ensures
        normalised(caps, normalised(caps, v)) == normalised(caps, v),
        spec_warnings(caps, service, normalised(caps, v)).len() == 0,
        normalised_profile(caps, normalised_profile(caps, p)) == normalised_profile(caps, p),
        profile_warnings(caps, service, normalised_profile(caps, p)).len() == 0,
{
}

/// Normalising changes nothing in silence: what it leaves as it was brings no
/// warning, and what it changes brings one.
pub proof fn lemma_normalise_warns(
    caps: BackendCapabilities,
    service: Seq<char>,
    v: ContainerSpecView,
    p: ProfileView,
)
    ensures
        spec_warnings(caps, service, v).len() == 0 <==> normalised(caps, v) == v,
        profile_warnings(caps, service, p).len() == 0 <==> normalised_profile(caps, p) == p,
{
}

/// On a backend that supports everything, nothing changes.
pub proof fn lemma_native_keeps_all(
    backend: &'static str,
    service: Seq<char>,
    v: ContainerSpecView,
    p: ProfileView,
)
    ensures
        normalised(all_native(backend), v) == v,
        spec_warnings(all_native(backend), service, v).len() == 0,
        normalised_profile(all_native(backend), p) == p,
        profile_warnings(all_native(backend), service, p).len() == 0,
{
}

/// What a backend is asked for, it can do: nothing that it does not support is left,
/// and nothing else is lost.
pub proof fn lemma_normalised_is_supported(
    caps: BackendCapabilities,
    v: ContainerSpecView,
    p: ProfileView,
)
    ensures
        caps.privileged is Unsupported ==> normalised(caps, v).privileged != Some(true),
        !(caps.privileged is Unsupported) ==> normalised(caps, v).privileged == v.privileged,
        caps.network_alias is Unsupported ==> (normalised(caps, v).network_aliases matches Some(a)
            ==> a.len() == 0),
        !(caps.network_alias is Unsupported) ==> normalised(caps, v).network_aliases
            == v.network_aliases,
        normalised(caps, v).image == v.image && normalised(caps, v).name == v.name,
        normalised(caps, v).ports == v.ports && normalised(caps, v).volumes == v.volumes,
        normalised(caps, v).env == v.env && normalised(caps, v).cmd == v.cmd,
        normalised(caps, v).entrypoint == v.entrypoint && normalised(caps, v).network == v.network,
        normalised(caps, v).rm == v.rm && normalised(caps, v).read_only == v.read_only,
        normalised(caps, v).labels == v.labels && normalised(caps, v).user == v.user,
        normalised(caps, v).workdir == v.workdir,
        normalised(caps, v).cap_add == v.cap_add && normalised(caps, v).cap_drop == v.cap_drop,
        caps.seccomp_profile is Unsupported ==> normalised_profile(caps, p).seccomp is None,
        !(caps.seccomp_profile is Unsupported) ==> normalised_profile(caps, p).seccomp == p.seccomp,
        caps.no_new_privileges is Unsupported ==> !normalised_profile(caps, p).no_new_privileges,
        !(caps.no_new_privileges is Unsupported) ==> normalised_profile(caps, p).no_new_privileges
            == p.no_new_privileges,
        normalised_profile(caps, p).read_only_root == p.read_only_root,
{
}

} // verus!

//! Which features a project uses, and which backend offers them.
use vstd::prelude::*;
use vstd::string::*;
use crate::compose::backend::{
    candidates, forbids_privileges, is_no_new_privileges, lemma_candidates_ranked,
    platform_candidates, seccomp_of, seccomp_option, word_texts,
};
use crate::compose::capabilities::{
    all_native, capabilities_for_backend, docker_table, table_of, BackendCapabilities,
    FeatureSupport,
};
use crate::compose::maps::{lemma_position, lemma_position_is, lookup};
use crate::compose::types::{ComposeNetwork, ComposeService, ComposeSpec, VolumeValue};
use crate::compose::yaml::{as_str, string_under_tags, yaml_of};
use crate::platform::Platform;
use crate::text::{ends_with, same, texts};

verus! {

/// The features of a backend by name, in alphabetical order.
pub open spec fn feature_table(c: BackendCapabilities) -> Seq<(Seq<char>, FeatureSupport)> {
    seq![
        ("bind_mounts"@, c.bind_mounts),
        ("healthcheck_native"@, c.healthcheck_native),
        ("image_signature_verify"@, c.image_signature_verify),
        ("internal_network"@, c.internal_network),
        ("ipc_namespace_share"@, c.ipc_namespace_share),
        ("linux_capabilities"@, c.linux_capabilities),
        ("multi_arch_pull"@, c.multi_arch_pull),
        ("named_volumes"@, c.named_volumes),
        ("network_alias"@, c.network_alias),
        ("no_new_privileges"@, c.no_new_privileges),
        ("pid_namespace_share"@, c.pid_namespace_share),
        ("privileged"@, c.privileged),
        ("read_only_rootfs"@, c.read_only_rootfs),
        ("restart_policy"@, c.restart_policy),
        ("rm_on_exit"@, c.rm_on_exit),
        ("run_as_user"@, c.run_as_user),
        ("seccomp_profile"@, c.seccomp_profile),
        ("selinux_mount_labels"@, c.selinux_mount_labels),
        ("tmpfs_mounts"@, c.tmpfs_mounts),
        ("user_defined_bridge"@, c.user_defined_bridge),
    ]
}

/// The entries of a list of features.
pub open spec fn feature_entries(
    v: Seq<(&'static str, FeatureSupport)>,
) -> Seq<(Seq<char>, FeatureSupport)> {
    v.map_values(|e: (&'static str, FeatureSupport)| (e.0@, e.1))
}

fn features(c: &BackendCapabilities) -> (r: Vec<(&'static str, FeatureSupport)>)
    ensures
        feature_entries(r@) == feature_table(*c),
{
    let r: Vec<(&'static str, FeatureSupport)> = vec![
        ("bind_mounts", c.bind_mounts),
        ("healthcheck_native", c.healthcheck_native),
        ("image_signature_verify", c.image_signature_verify),
        ("internal_network", c.internal_network),
        ("ipc_namespace_share", c.ipc_namespace_share),
        ("linux_capabilities", c.linux_capabilities),
        ("multi_arch_pull", c.multi_arch_pull),
        ("named_volumes", c.named_volumes),
        ("network_alias", c.network_alias),
        ("no_new_privileges", c.no_new_privileges),
        ("pid_namespace_share", c.pid_namespace_share),
        ("privileged", c.privileged),
        ("read_only_rootfs", c.read_only_rootfs),
        ("restart_policy", c.restart_policy),
        ("rm_on_exit", c.rm_on_exit),
        ("run_as_user", c.run_as_user),
        ("seccomp_profile", c.seccomp_profile),
        ("selinux_mount_labels", c.selinux_mount_labels),
        ("tmpfs_mounts", c.tmpfs_mounts),
        ("user_defined_bridge", c.user_defined_bridge),
    ];
    assert(feature_entries(r@) =~= feature_table(*c));
    r
}

/// The names of the features that are not supported, in order.
pub open spec fn unsupported_in(table: Seq<(Seq<char>, FeatureSupport)>) -> Seq<Seq<char>>
    decreases table.len(),
{
    if table.len() == 0 {
        Seq::empty()
    } else {
        let before = unsupported_in(table.drop_last());
        if table.last().1 is Unsupported {
            before.push(table.last().0)
        } else {
            before
        }
    }
}

/// The names of the features that a backend does not support, in alphabetical
/// order.
pub fn unsupported_feature_names(caps: &BackendCapabilities) -> (r: Vec<&'static str>)
    ensures
        word_texts(r@) == unsupported_in(feature_table(*caps)),
{
    let table = features(caps);
    let ghost all = feature_table(*caps);
    let mut out: Vec<&'static str> = Vec::new();
    let mut i: usize = 0;
    assert(all.take(0) =~= Seq::empty());
    assert(word_texts(out@) =~= Seq::empty());
    while i < table.len()
        invariant
            i <= table@.len(),
            all == feature_entries(table@),
            word_texts(out@) == unsupported_in(all.take(i as int)),
        decreases table@.len() - i,
    {
        proof {
            assert(all.take(i + 1).drop_last() =~= all.take(i as int));
            assert(all.take(i + 1).last() == all[i as int]);
        }
        let (name, support) = table[i];
        if support.is_unsupported() {
            let ghost before = out@;
            out.push(name);
            assert(word_texts(out@) =~= word_texts(before).push(name@));
        }
        i += 1;
    }
    assert(all.take(i as int) =~= all);
    out
}

// ---- what a project uses ----

/// Whether a text of a list is of some kind.
pub open spec fn any_text(v: Seq<Seq<char>>, kind: spec_fn(Seq<char>) -> bool) -> bool
    decreases v.len(),
{
    v.len() > 0 && (any_text(v.drop_last(), kind) || kind(v.last()))
}

/// Whether a volume carries a label for SELinux.
pub open spec fn is_labelled(v: VolumeValue) -> bool {
    match string_under_tags(yaml_of(v.value)) {
        Some(s) => ":Z"@.is_suffix_of(s) || ":z"@.is_suffix_of(s),
        None => false,
    }
}

/// Whether a volume of a list carries a label for SELinux.
pub open spec fn any_volume(v: Seq<VolumeValue>) -> bool
    decreases v.len(),
{
    v.len() > 0 && (any_volume(v.drop_last()) || is_labelled(v.last()))
}

/// Whether a service has a health check.
pub open spec fn checks_health(s: ComposeService) -> bool {
    s.healthcheck is Some
}

/// Whether a service adds or drops capabilities.
pub open spec fn sets_capabilities(s: ComposeService) -> bool {
    (s.cap_add is Some && s.cap_add->0@.len() > 0) || (s.cap_drop is Some
        && s.cap_drop->0@.len() > 0)
}

/// Whether a service forbids new privileges.
pub open spec fn forbids_new_privileges(s: ComposeService) -> bool {
    s.security_opt is Some && any_text(
        texts(s.security_opt->0@),
        |o: Seq<char>| forbids_privileges(o),
    )
}

/// Whether a service shares a process namespace.
pub open spec fn shares_pids(s: ComposeService) -> bool {
    s.pid is Some && s.pid->0@.len() > 0 && s.pid->0@ != "private"@
}

/// Whether a service runs privileged.
pub open spec fn is_privileged(s: ComposeService) -> bool {
    s.privileged == Some(true)
}

/// Whether a service has a read-only root.
pub open spec fn is_read_only(s: ComposeService) -> bool {
    s.read_only == Some(true)
}

/// Whether a service is to be restarted.
pub open spec fn restarts(s: ComposeService) -> bool {
    s.restart is Some && s.restart->0@ != "no"@
}

/// Whether a service runs as a certain user.
pub open spec fn sets_user(s: ComposeService) -> bool {
    s.user is Some
}

/// Whether a service has a seccomp profile.
pub open spec fn filters_calls(s: ComposeService) -> bool {
    s.security_opt is Some && any_text(
        texts(s.security_opt->0@),
        |o: Seq<char>| seccomp_option(o) is Some,
    )
}

/// Whether a service labels a mount for SELinux.
pub open spec fn labels_mounts(s: ComposeService) -> bool {
    s.volumes is Some && any_volume(s.volumes->0@)
}

/// Whether a service mounts memory.
pub open spec fn mounts_tmpfs(s: ComposeService) -> bool {
    s.tmpfs is Some
}

/// Whether a service of a project is of some kind.
pub open spec fn any_service(
    services: Seq<(Seq<char>, ComposeService)>,
    kind: spec_fn(ComposeService) -> bool,
) -> bool
    decreases services.len(),
{
    services.len() > 0 && (any_service(services.drop_last(), kind) || kind(services.last().1))
}

/// Whether a network has no way out.
pub open spec fn is_internal(network: Option<ComposeNetwork>) -> bool {
    network is Some && network->0.internal == Some(true)
}

/// Whether a network of a project has no way out.
pub open spec fn any_internal(networks: Seq<(Seq<char>, Option<ComposeNetwork>)>) -> bool
    decreases networks.len(),
{
    networks.len() > 0 && (any_internal(networks.drop_last()) || is_internal(networks.last().1))
}

/// The features that services use.
pub struct Uses {
    pub healthcheck_native: bool,
    pub linux_capabilities: bool,
    pub no_new_privileges: bool,
    pub pid_namespace_share: bool,
    pub privileged: bool,
    pub read_only_rootfs: bool,
    pub restart_policy: bool,
    pub run_as_user: bool,
    pub seccomp_profile: bool,
    pub selinux_mount_labels: bool,
    pub tmpfs_mounts: bool,
}

/// What services use.
pub open spec fn uses_of(services: Seq<(Seq<char>, ComposeService)>) -> Uses {
    Uses {
        healthcheck_native: any_service(services, |s: ComposeService| checks_health(s)),
        linux_capabilities: any_service(services, |s: ComposeService| sets_capabilities(s)),
        no_new_privileges: any_service(services, |s: ComposeService| forbids_new_privileges(s)),
        pid_namespace_share: any_service(services, |s: ComposeService| shares_pids(s)),
        privileged: any_service(services, |s: ComposeService| is_privileged(s)),
        read_only_rootfs: any_service(services, |s: ComposeService| is_read_only(s)),
        restart_policy: any_service(services, |s: ComposeService| restarts(s)),
        run_as_user: any_service(services, |s: ComposeService| sets_user(s)),
        seccomp_profile: any_service(services, |s: ComposeService| filters_calls(s)),
        selinux_mount_labels: any_service(services, |s: ComposeService| labels_mounts(s)),
        tmpfs_mounts: any_service(services, |s: ComposeService| mounts_tmpfs(s)),
    }
}

/// A list with a word added where a condition holds.
pub open spec fn word_if(v: Seq<Seq<char>>, condition: bool, word: Seq<char>) -> Seq<Seq<char>> {
    if condition {
        v.push(word)
    } else {
        v
    }
}

/// The names of the features in use, in alphabetical order.
pub open spec fn use_names(u: Uses, internal: bool) -> Seq<Seq<char>> {
    let v = Seq::<Seq<char>>::empty();
    let v = word_if(v, u.healthcheck_native, "healthcheck_native"@);
    let v = word_if(v, internal, "internal_network"@);
    let v = word_if(v, u.linux_capabilities, "linux_capabilities"@);
    let v = word_if(v, u.no_new_privileges, "no_new_privileges"@);
    let v = word_if(v, u.pid_namespace_share, "pid_namespace_share"@);
    let v = word_if(v, u.privileged, "privileged"@);
    let v = word_if(v, u.read_only_rootfs, "read_only_rootfs"@);
    let v = word_if(v, u.restart_policy, "restart_policy"@);
    let v = word_if(v, u.run_as_user, "run_as_user"@);
    let v = word_if(v, u.seccomp_profile, "seccomp_profile"@);
    let v = word_if(v, u.selinux_mount_labels, "selinux_mount_labels"@);
    let v = word_if(v, u.tmpfs_mounts, "tmpfs_mounts"@);
    v
}

/// The features that services and networks need, in alphabetical order.
pub open spec fn needed_by(
    services: Seq<(Seq<char>, ComposeService)>,
    networks: Seq<(Seq<char>, Option<ComposeNetwork>)>,
) -> Seq<Seq<char>> {
    use_names(uses_of(services), any_internal(networks))
}

/// The networks that a project declares.
pub open spec fn networks_of(spec: ComposeSpec) -> Seq<(Seq<char>, Option<ComposeNetwork>)> {
    match spec.networks {
        Some(m) => m.entries(),
        None => Seq::empty(),
    }
}

/// The features that a project needs, in alphabetical order.
pub open spec fn needed(spec: ComposeSpec) -> Seq<Seq<char>> {
    needed_by(spec.services.entries(), networks_of(spec))
}

fn any_forbids(v: &Vec<String>) -> (r: bool)
    ensures
        r == any_text(texts(v@), |o: Seq<char>| forbids_privileges(o)),
{
    let ghost all = texts(v@);
    let ghost kind = |o: Seq<char>| forbids_privileges(o);
    let mut r: bool = false;
    let mut i: usize = 0;
    while i < v.len()
        invariant
            i <= v@.len(),
            all == texts(v@),
            kind == (|o: Seq<char>| forbids_privileges(o)),
            r == any_text(all.take(i as int), kind),
        decreases v@.len() - i,
    {
        assert(all.take(i + 1).drop_last() =~= all.take(i as int));
        assert(all.take(i + 1).last() == v@[i as int]@);
        r = r || is_no_new_privileges(v[i].as_str());
        i += 1;
    }
    assert(all.take(i as int) =~= all);
    r
}

fn any_seccomp(v: &Vec<String>) -> (r: bool)
    ensures
        r == any_text(texts(v@), |o: Seq<char>| seccomp_option(o) is Some),
{
    let ghost all = texts(v@);
    let ghost kind = |o: Seq<char>| seccomp_option(o) is Some;
    let mut r: bool = false;
    let mut i: usize = 0;
    while i < v.len()
        invariant
            i <= v@.len(),
            all == texts(v@),
            kind == (|o: Seq<char>| seccomp_option(o) is Some),
            r == any_text(all.take(i as int), kind),
        decreases v@.len() - i,
    {
        assert(all.take(i + 1).drop_last() =~= all.take(i as int));
        assert(all.take(i + 1).last() == v@[i as int]@);
        r = r || seccomp_of(v[i].as_str()).is_some();
        i += 1;
    }
    assert(all.take(i as int) =~= all);
    r
}

fn any_label(v: &Vec<VolumeValue>) -> (r: bool)
    ensures
        r == any_volume(v@),
{
    let mut r: bool = false;
    let mut i: usize = 0;
    while i < v.len()
        invariant
            i <= v@.len(),
            r == any_volume(v@.take(i as int)),
        decreases v@.len() - i,
    {
        assert(v@.take(i + 1).drop_last() =~= v@.take(i as int));
        assert(v@.take(i + 1).last() == v@[i as int]);
        let labelled: bool = match as_str(&v[i].value) {
            Some(s) => ends_with(s, ":Z") || ends_with(s, ":z"),
            None => false,
        };
        r = r || labelled;
        i += 1;
    }
    assert(v@.take(i as int) =~= v@);
    r
}

fn has_items(o: &Option<Vec<String>>) -> (r: bool)
    ensures
        r == (*o is Some && (*o)->0@.len() > 0),
{
    match o {
        Some(v) => v.len() > 0,
        None => false,
    }
}

fn is_set(o: Option<bool>) -> (r: bool)
    ensures
        r == (o == Some(true)),
{
    match o {
        Some(b) => b,
        None => false,
    }
}

/// What one service uses.
pub open spec fn service_uses(s: ComposeService) -> Uses {
    Uses {
        healthcheck_native: checks_health(s),
        linux_capabilities: sets_capabilities(s),
        no_new_privileges: forbids_new_privileges(s),
        pid_namespace_share: shares_pids(s),
        privileged: is_privileged(s),
        read_only_rootfs: is_read_only(s),
        restart_policy: restarts(s),
        run_as_user: sets_user(s),
        seccomp_profile: filters_calls(s),
        selinux_mount_labels: labels_mounts(s),
        tmpfs_mounts: mounts_tmpfs(s),
    }
}

fn uses_in(s: &ComposeService) -> (r: Uses)
    ensures
        r == service_uses(*s),
{
    let (forbids, filters) = match &s.security_opt {
        Some(v) => (any_forbids(v), any_seccomp(v)),
        None => (false, false),
    };
    let shares: bool = match &s.pid {
        Some(p) => !p.as_str().is_empty() && !same(p.as_str(), "private"),
        None => false,
    };
    let restarted: bool = match &s.restart {
        Some(p) => !same(p.as_str(), "no"),
        None => false,
    };
    let labels: bool = match &s.volumes {
        Some(v) => any_label(v),
        None => false,
    };
    Uses {
        healthcheck_native: s.healthcheck.is_some(),
        linux_capabilities: has_items(&s.cap_add) || has_items(&s.cap_drop),
        no_new_privileges: forbids,
        pid_namespace_share: shares,
        privileged: is_set(s.privileged),
        read_only_rootfs: is_set(s.read_only),
        restart_policy: restarted,
        run_as_user: s.user.is_some(),
        seccomp_profile: filters,
        selinux_mount_labels: labels,
        tmpfs_mounts: s.tmpfs.is_some(),
    }
}

fn push_if(v: &mut Vec<&'static str>, condition: bool, word: &'static str)
    ensures
        word_texts(final(v)@) == word_if(word_texts(old(v)@), condition, word@),
{
    if condition {
        let ghost before = v@;
        v.push(word);
        assert(word_texts(v@) =~= word_texts(before).push(word@));
    }
}

/// The features that a project needs, in alphabetical order.
pub fn required_features(spec: &ComposeSpec) -> (r: Vec<&'static str>)
    ensures
        word_texts(r@) == needed(*spec),
{
    let services = &spec.services;
    let ghost all = services.entries();
    let mut u = Uses {
        healthcheck_native: false,
        linux_capabilities: false,
        no_new_privileges: false,
        pid_namespace_share: false,
        privileged: false,
        read_only_rootfs: false,
        restart_policy: false,
        run_as_user: false,
        seccomp_profile: false,
        selinux_mount_labels: false,
        tmpfs_mounts: false,
    };
    let mut i: usize = 0;
    assert(u == uses_of(all.take(0)));
    while i < services.len()
        invariant
            i <= all.len(),
            all == services.entries(),
            u == uses_of(all.take(i as int)),
        decreases all.len() - i,
    {
        proof {
            assert(all.take(i + 1).drop_last() =~= all.take(i as int));
            assert(all.take(i + 1).last() == all[i as int]);
        }
        let one = uses_in(services.value_at(i));
        u = Uses {
            healthcheck_native: u.healthcheck_native || one.healthcheck_native,
            linux_capabilities: u.linux_capabilities || one.linux_capabilities,
            no_new_privileges: u.no_new_privileges || one.no_new_privileges,
            pid_namespace_share: u.pid_namespace_share || one.pid_namespace_share,
            privileged: u.privileged || one.privileged,
            read_only_rootfs: u.read_only_rootfs || one.read_only_rootfs,
            restart_policy: u.restart_policy || one.restart_policy,
            run_as_user: u.run_as_user || one.run_as_user,
            seccomp_profile: u.seccomp_profile || one.seccomp_profile,
            selinux_mount_labels: u.selinux_mount_labels || one.selinux_mount_labels,
            tmpfs_mounts: u.tmpfs_mounts || one.tmpfs_mounts,
        };
        assert(u == uses_of(all.take(i + 1)));
        i += 1;
    }
    assert(all.take(i as int) =~= all);
    let mut internal: bool = false;
    if let Some(m) = &spec.networks {
        let ghost nets = m.entries();
        let mut i: usize = 0;
        while i < m.len()
            invariant
                i <= nets.len(),
                nets == m.entries(),
                internal == any_internal(nets.take(i as int)),
            decreases nets.len() - i,
        {
            proof {
                assert(nets.take(i + 1).drop_last() =~= nets.take(i as int));
                assert(nets.take(i + 1).last() == nets[i as int]);
            }
            let closed_off: bool = match m.value_at(i) {
                Some(n) => is_set(n.internal),
                None => false,
            };
            internal = internal || closed_off;
            i += 1;
        }
        assert(nets.take(i as int) =~= nets);
    }
    let mut out: Vec<&'static str> = Vec::new();
    assert(word_texts(out@) =~= Seq::<Seq<char>>::empty());
    push_if(&mut out, u.healthcheck_native, "healthcheck_native");
    push_if(&mut out, internal, "internal_network");
    push_if(&mut out, u.linux_capabilities, "linux_capabilities");
    push_if(&mut out, u.no_new_privileges, "no_new_privileges");
    push_if(&mut out, u.pid_namespace_share, "pid_namespace_share");
    push_if(&mut out, u.privileged, "privileged");
    push_if(&mut out, u.read_only_rootfs, "read_only_rootfs");
    push_if(&mut out, u.restart_policy, "restart_policy");
    push_if(&mut out, u.run_as_user, "run_as_user");
    push_if(&mut out, u.seccomp_profile, "seccomp_profile");
    push_if(&mut out, u.selinux_mount_labels, "selinux_mount_labels");
    push_if(&mut out, u.tmpfs_mounts, "tmpfs_mounts");
    out
}

// ---- what the needed features are made of ----

/// Some service is of a kind.
proof fn lemma_any_service(
    services: Seq<(Seq<char>, ComposeService)>,
    kind: spec_fn(ComposeService) -> bool,
)
    ensures
        any_service(services, kind) <==> exists|i: int|
            0 <= i < services.len() && kind((#[trigger] services[i]).1),
    decreases services.len(),
{
    if services.len() > 0 {
        let front = services.drop_last();
        lemma_any_service(front, kind);
        if any_service(front, kind) {
            let i = choose|i: int| 0 <= i < front.len() && kind((#[trigger] front[i]).1);
            assert(kind(services[i].1));
        }
        if exists|i: int| 0 <= i < services.len() && kind((#[trigger] services[i]).1) {
            let i = choose|i: int| 0 <= i < services.len() && kind((#[trigger] services[i]).1);
            if i < front.len() {
                assert(kind(front[i].1));
            }
        }
    }
}

proof fn lemma_any_internal(networks: Seq<(Seq<char>, Option<ComposeNetwork>)>)
    ensures
        any_internal(networks) <==> exists|i: int|
            0 <= i < networks.len() && is_internal((#[trigger] networks[i]).1),
    decreases networks.len(),
{
    if networks.len() > 0 {
        let front = networks.drop_last();
        lemma_any_internal(front);
        if any_internal(front) {
            let i = choose|i: int| 0 <= i < front.len() && is_internal((#[trigger] front[i]).1);
            assert(is_internal(networks[i].1));
        }
        if exists|i: int| 0 <= i < networks.len() && is_internal((#[trigger] networks[i]).1) {
            let i = choose|i: int|
                0 <= i < networks.len() && is_internal((#[trigger] networks[i]).1);
            if i < front.len() {
                assert(is_internal(front[i].1));
            }
        }
    }
}

proof fn lemma_word_if(
    v: Seq<Seq<char>>,
    condition: bool,
    word: Seq<char>,
    f: Seq<char>,
)
    ensures
        word_if(v, condition, word).contains(f) <==> v.contains(f) || (condition && f
            == word),
{
    let w = word_if(v, condition, word);
    if v.contains(f) {
        let i = choose|i: int| 0 <= i < v.len() && v[i] == f;
        assert(w[i] == f);
    }
    if condition && f == word {
        assert(w[w.len() - 1] == f);
    }
    if w.contains(f) {
        let i = choose|i: int| 0 <= i < w.len() && w[i] == f;
        if i < v.len() {
            assert(v[i] == f);
        }
    }
}

/// Whether a feature is in use.
pub open spec fn in_use(u: Uses, internal: bool, f: Seq<char>) -> bool {
    ||| (u.healthcheck_native && f == "healthcheck_native"@)
    ||| (internal && f == "internal_network"@)
    ||| (u.linux_capabilities && f == "linux_capabilities"@)
    ||| (u.no_new_privileges && f == "no_new_privileges"@)
    ||| (u.pid_namespace_share && f == "pid_namespace_share"@)
    ||| (u.privileged && f == "privileged"@)
    ||| (u.read_only_rootfs && f == "read_only_rootfs"@)
    ||| (u.restart_policy && f == "restart_policy"@)
    ||| (u.run_as_user && f == "run_as_user"@)
    ||| (u.seccomp_profile && f == "seccomp_profile"@)
    ||| (u.selinux_mount_labels && f == "selinux_mount_labels"@)
    ||| (u.tmpfs_mounts && f == "tmpfs_mounts"@)
}

/// The names of the features in use name those and no others.
proof fn lemma_use_names(u: Uses, internal: bool, f: Seq<char>)
    ensures
        use_names(u, internal).contains(f) <==> in_use(u, internal, f),
{
    let v = Seq::<Seq<char>>::empty();
    lemma_word_if(v, u.healthcheck_native, "healthcheck_native"@, f);
    let v = word_if(v, u.healthcheck_native, "healthcheck_native"@);
    lemma_word_if(v, internal, "internal_network"@, f);
    let v = word_if(v, internal, "internal_network"@);
    lemma_word_if(v, u.linux_capabilities, "linux_capabilities"@, f);
    let v = word_if(v, u.linux_capabilities, "linux_capabilities"@);
    lemma_word_if(v, u.no_new_privileges, "no_new_privileges"@, f);
    let v = word_if(v, u.no_new_privileges, "no_new_privileges"@);
    lemma_word_if(v, u.pid_namespace_share, "pid_namespace_share"@, f);
    let v = word_if(v, u.pid_namespace_share, "pid_namespace_share"@);
    lemma_word_if(v, u.privileged, "privileged"@, f);
    let v = word_if(v, u.privileged, "privileged"@);
    lemma_word_if(v, u.read_only_rootfs, "read_only_rootfs"@, f);
    let v = word_if(v, u.read_only_rootfs, "read_only_rootfs"@);
    lemma_word_if(v, u.restart_policy, "restart_policy"@, f);
    let v = word_if(v, u.restart_policy, "restart_policy"@);
    lemma_word_if(v, u.run_as_user, "run_as_user"@, f);
    let v = word_if(v, u.run_as_user, "run_as_user"@);
    lemma_word_if(v, u.seccomp_profile, "seccomp_profile"@, f);
    let v = word_if(v, u.seccomp_profile, "seccomp_profile"@);
    lemma_word_if(v, u.selinux_mount_labels, "selinux_mount_labels"@, f);
    let v = word_if(v, u.selinux_mount_labels, "selinux_mount_labels"@);
    lemma_word_if(v, u.tmpfs_mounts, "tmpfs_mounts"@, f);
    let v = word_if(v, u.tmpfs_mounts, "tmpfs_mounts"@);
}

/// What a service needs on its own.
proof fn lemma_one_service(s: (Seq<char>, ComposeService))
    ensures
        uses_of(seq![s]) == service_uses(s.1),
{
    assert(seq![s].drop_last() =~= Seq::empty());
    assert(seq![s].last() == s);
    reveal_with_fuel(any_service, 2);
}

/// Some service, or some network, needs a feature.
pub open spec fn some_part_needs(
    services: Seq<(Seq<char>, ComposeService)>,
    networks: Seq<(Seq<char>, Option<ComposeNetwork>)>,
    f: Seq<char>,
) -> bool {
    ||| exists|i: int|
        0 <= i < services.len() && needed_by(
            seq![#[trigger] services[i]],
            Seq::empty(),
        ).contains(f)
    ||| exists|i: int|
        0 <= i < networks.len() && needed_by(
            Seq::empty(),
            seq![#[trigger] networks[i]],
        ).contains(f)
}

/// A feature is in use by services where one of them uses it.
#[verifier::rlimit(30)]
proof fn lemma_some_service_uses(services: Seq<(Seq<char>, ComposeService)>, f: Seq<char>)
    ensures
        in_use(uses_of(services), false, f) <==> exists|i: int|
            0 <= i < services.len() && in_use(service_uses((#[trigger] services[i]).1), false, f),
    decreases services.len(),
{
    if services.len() > 0 {
        let front = services.drop_last();
        let last = services.last().1;
        lemma_some_service_uses(front, f);
        assert(in_use(uses_of(services), false, f) <==> in_use(uses_of(front), false, f) || in_use(
            service_uses(last),
            false,
            f,
        ));
        if in_use(uses_of(front), false, f) {
            let i = choose|i: int|
                0 <= i < front.len() && in_use(service_uses((#[trigger] front[i]).1), false, f);
            assert(services[i] == front[i]);
        }
        if in_use(service_uses(last), false, f) {
            assert(services[services.len() - 1].1 == last);
        }
        if exists|i: int|
            0 <= i < services.len() && in_use(
                service_uses((#[trigger] services[i]).1),
                false,
                f,
            ) {
            let i = choose|i: int|
                0 <= i < services.len() && in_use(
                    service_uses((#[trigger] services[i]).1),
                    false,
                    f,
                );
            if i < front.len() {
                assert(front[i] == services[i]);
            }
        }
    }
}

/// What a service needs on its own is what it uses.
proof fn lemma_alone_service(s: (Seq<char>, ComposeService), f: Seq<char>)
    ensures
        needed_by(seq![s], Seq::empty()).contains(f) <==> in_use(service_uses(s.1), false, f),
{
    lemma_one_service(s);
    lemma_use_names(uses_of(seq![s]), false, f);
}

/// What a network needs on its own is what it is closed off by.
proof fn lemma_alone_network(n: (Seq<char>, Option<ComposeNetwork>), f: Seq<char>)
    ensures
        needed_by(Seq::empty(), seq![n]).contains(f) <==> is_internal(n.1) && f
            == "internal_network"@,
{
    let one = seq![n];
    lemma_any_internal(one);
    assert(one[0] == n);
    lemma_use_names(uses_of(Seq::empty()), any_internal(one), f);
}

/// What a project needs is what its services need, each on its own, and what its
/// networks need, each on its own. Nothing needs nothing.
pub proof fn lemma_needed_is_union(
    services: Seq<(Seq<char>, ComposeService)>,
    networks: Seq<(Seq<char>, Option<ComposeNetwork>)>,
)
    ensures
        forall|f: Seq<char>| #[trigger]
            needed_by(services, networks).contains(f) <==> some_part_needs(services, networks, f),
        needed_by(Seq::empty(), Seq::empty()) == Seq::<Seq<char>>::empty(),
{
    assert forall|f: Seq<char>| #[trigger]
        needed_by(services, networks).contains(f) <==> some_part_needs(services, networks, f) by {
        lemma_needed_in_parts(services, networks, f);
    }
    assert(needed_by(Seq::empty(), Seq::empty()) =~= Seq::<Seq<char>>::empty());
}

proof fn lemma_needed_in_parts(
    services: Seq<(Seq<char>, ComposeService)>,
    networks: Seq<(Seq<char>, Option<ComposeNetwork>)>,
    f: Seq<char>,
)
    ensures
        needed_by(services, networks).contains(f) <==> some_part_needs(services, networks, f),
{
    lemma_use_names(uses_of(services), any_internal(networks), f);
    let u = uses_of(services);
    assert(in_use(u, any_internal(networks), f) <==> in_use(u, false, f) || (any_internal(networks)
        && f == "internal_network"@));
    lemma_some_service_uses(services, f);
    lemma_any_internal(networks);
    assert forall|i: int| 0 <= i < services.len() implies (needed_by(
        seq![#[trigger] services[i]],
        Seq::empty(),
    ).contains(f) <==> in_use(service_uses(services[i].1), false, f)) by {
        lemma_alone_service(services[i], f);
    }
    assert forall|i: int| 0 <= i < networks.len() implies (needed_by(
        Seq::empty(),
        seq![#[trigger] networks[i]],
    ).contains(f) <==> is_internal(networks[i].1) && f == "internal_network"@) by {
        lemma_alone_network(networks[i], f);
    }
}

/// Names and order do not matter, and more needs no less: where every service and
/// every network of one project is found in another, under whatever name, the
/// other needs all that the one needs; where this holds both ways, they need the
/// same.
pub proof fn lemma_needed_grows(
    a: Seq<(Seq<char>, ComposeService)>,
    x: Seq<(Seq<char>, Option<ComposeNetwork>)>,
    b: Seq<(Seq<char>, ComposeService)>,
    y: Seq<(Seq<char>, Option<ComposeNetwork>)>,
)
    requires
        services_among(a, b),
        networks_among(x, y),
    ensures
        forall|f: Seq<char>| #[trigger]
            needed_by(a, x).contains(f) ==> needed_by(b, y).contains(f),
        services_among(b, a) && networks_among(y, x) ==> needed_by(a, x) == needed_by(b, y),
{
    lemma_uses_grow(a, b);
    lemma_internal_grows(x, y);
    assert forall|f: Seq<char>| #[trigger] needed_by(a, x).contains(f) implies needed_by(
        b,
        y,
    ).contains(f) by {
        lemma_use_names(uses_of(a), any_internal(x), f);
        lemma_use_names(uses_of(b), any_internal(y), f);
    }
    if services_among(b, a) && networks_among(y, x) {
        lemma_uses_grow(b, a);
        lemma_internal_grows(y, x);
        assert(uses_of(a) == uses_of(b));
    }
}

/// Whether every service of a list is in another, under whatever name.
pub open spec fn services_among(
    a: Seq<(Seq<char>, ComposeService)>,
    b: Seq<(Seq<char>, ComposeService)>,
) -> bool {
    forall|i: int|
        0 <= i < a.len() ==> exists|j: int|
            0 <= j < b.len() && (#[trigger] b[j]).1 == (#[trigger] a[i]).1
}

/// Whether every network of a list is in another, under whatever name.
pub open spec fn networks_among(
    a: Seq<(Seq<char>, Option<ComposeNetwork>)>,
    b: Seq<(Seq<char>, Option<ComposeNetwork>)>,
) -> bool {
    forall|i: int|
        0 <= i < a.len() ==> exists|j: int|
            0 <= j < b.len() && (#[trigger] b[j]).1 == (#[trigger] a[i]).1
}

proof fn lemma_any_grows(
    a: Seq<(Seq<char>, ComposeService)>,
    b: Seq<(Seq<char>, ComposeService)>,
    kind: spec_fn(ComposeService) -> bool,
)
    requires
        services_among(a, b),
    ensures
        any_service(a, kind) ==> any_service(b, kind),
{
    lemma_any_service(a, kind);
    lemma_any_service(b, kind);
    if any_service(a, kind) {
        let i = choose|i: int| 0 <= i < a.len() && kind((#[trigger] a[i]).1);
        let j = choose|j: int| 0 <= j < b.len() && (#[trigger] b[j]).1 == a[i].1;
        assert(kind(b[j].1));
    }
}

#[verifier::rlimit(30)]
proof fn lemma_uses_grow(
    a: Seq<(Seq<char>, ComposeService)>,
    b: Seq<(Seq<char>, ComposeService)>,
)
    requires
        services_among(a, b),
    ensures
        forall|f: Seq<char>, m: bool, n: bool|
            (m ==> n) && #[trigger] in_use(uses_of(a), m, f) ==> #[trigger] in_use(
                uses_of(b),
                n,
                f,
            ),
        ({
            let u = uses_of(a);
            let w = uses_of(b);
            &&& u.healthcheck_native ==> w.healthcheck_native
            &&& u.linux_capabilities ==> w.linux_capabilities
            &&& u.no_new_privileges ==> w.no_new_privileges
            &&& u.pid_namespace_share ==> w.pid_namespace_share
            &&& u.privileged ==> w.privileged
            &&& u.read_only_rootfs ==> w.read_only_rootfs
            &&& u.restart_policy ==> w.restart_policy
            &&& u.run_as_user ==> w.run_as_user
            &&& u.seccomp_profile ==> w.seccomp_profile
            &&& u.selinux_mount_labels ==> w.selinux_mount_labels
            &&& u.tmpfs_mounts ==> w.tmpfs_mounts
        }),
{
    lemma_any_grows(a, b, |s: ComposeService| checks_health(s));
    lemma_any_grows(a, b, |s: ComposeService| sets_capabilities(s));
    lemma_any_grows(a, b, |s: ComposeService| forbids_new_privileges(s));
    lemma_any_grows(a, b, |s: ComposeService| shares_pids(s));
    lemma_any_grows(a, b, |s: ComposeService| is_privileged(s));
    lemma_any_grows(a, b, |s: ComposeService| is_read_only(s));
    lemma_any_grows(a, b, |s: ComposeService| restarts(s));
    lemma_any_grows(a, b, |s: ComposeService| sets_user(s));
    lemma_any_grows(a, b, |s: ComposeService| filters_calls(s));
    lemma_any_grows(a, b, |s: ComposeService| labels_mounts(s));
    lemma_any_grows(a, b, |s: ComposeService| mounts_tmpfs(s));
}

proof fn lemma_internal_grows(
    x: Seq<(Seq<char>, Option<ComposeNetwork>)>,
    y: Seq<(Seq<char>, Option<ComposeNetwork>)>,
)
    requires
        networks_among(x, y),
    ensures
        any_internal(x) ==> any_internal(y),
{
    lemma_any_internal(x);
    lemma_any_internal(y);
    if any_internal(x) {
        let i = choose|i: int| 0 <= i < x.len() && is_internal((#[trigger] x[i]).1);
        let j = choose|j: int| 0 <= j < y.len() && (#[trigger] y[j]).1 == x[i].1;
        assert(is_internal(y[j].1));
    }
}

/// Every needed feature is one that backends are asked about.
pub proof fn lemma_needed_is_known(spec: ComposeSpec, caps: BackendCapabilities, f: Seq<char>)
    requires
        needed(spec).contains(f),
    ensures
        lookup(feature_table(caps), f) is Some,
{
    lemma_use_names(uses_of(spec.services.entries()), any_internal(networks_of(spec)), f);
    let table = feature_table(caps);
    lemma_position(table, f);
    assert(table[1].0 == "healthcheck_native"@);
    assert(table[3].0 == "internal_network"@);
    assert(table[5].0 == "linux_capabilities"@);
    assert(table[9].0 == "no_new_privileges"@);
    assert(table[10].0 == "pid_namespace_share"@);
    assert(table[11].0 == "privileged"@);
    assert(table[12].0 == "read_only_rootfs"@);
    assert(table[13].0 == "restart_policy"@);
    assert(table[15].0 == "run_as_user"@);
    assert(table[16].0 == "seccomp_profile"@);
    assert(table[17].0 == "selinux_mount_labels"@);
    assert(table[18].0 == "tmpfs_mounts"@);
}

// ---- which backend to take ----

/// How much support counts when a backend is chosen.
#[derive(Debug, Clone, Copy, PartialEq, Eq, Structural)]
pub enum SelectMode {
    StrictNative,
    AcceptEmulated,
    AcceptPartial,
}

impl Default for SelectMode {
    fn default() -> (r: SelectMode)
        ensures
            r == SelectMode::AcceptEmulated,
    {
        SelectMode::AcceptEmulated
    }
}

/// Whether support counts in a mode.
pub open spec fn accepts(support: FeatureSupport, mode: SelectMode) -> bool {
    match support {
        FeatureSupport::Native => true,
        FeatureSupport::Emulated => mode != SelectMode::StrictNative,
        FeatureSupport::Partial(_) => mode == SelectMode::AcceptPartial,
        FeatureSupport::Unsupported => false,
    }
}

/// Whether a backend offers a feature in a mode. A feature that nobody knows
/// stands in no backend's way.
pub open spec fn satisfies(caps: BackendCapabilities, feature: Seq<char>, mode: SelectMode) -> bool {
    match lookup(feature_table(caps), feature) {
        Some(support) => accepts(support, mode),
        None => true,
    }
}

fn accepted(support: FeatureSupport, mode: SelectMode) -> (r: bool)
    ensures
        r == accepts(support, mode),
{
    match support {
        FeatureSupport::Native => true,
        FeatureSupport::Emulated => match mode {
            SelectMode::StrictNative => false,
            _ => true,
        },
        FeatureSupport::Partial(_) => match mode {
            SelectMode::AcceptPartial => true,
            _ => false,
        },
        FeatureSupport::Unsupported => false,
    }
}

/// Whether a backend offers a feature in a mode.
pub fn feature_satisfies(caps: &BackendCapabilities, feature: &str, mode: SelectMode) -> (r: bool)
    ensures
        r == satisfies(*caps, feature@, mode),
{
    let table = features(caps);
    let ghost all = feature_table(*caps);
    let mut i: usize = 0;
    while i < table.len()
        invariant
            i <= table@.len(),
            all == feature_entries(table@),
            all == feature_table(*caps),
            forall|j: int| 0 <= j < i ==> (#[trigger] all[j]).0 != feature@,
        decreases table@.len() - i,
    {
        assert(all[i as int] == (table@[i as int].0@, table@[i as int].1));
        let (name, support) = table[i];
        if same(name, feature) {
            proof {
                lemma_position_is(all, feature@, i as int);
            }
            return accepted(support, mode);
        }
        i += 1;
    }
    proof {
        lemma_position(all, feature@);
    }
    true
}

/// Whether a backend offers all of some features in a mode.
pub open spec fn honours(
    caps: BackendCapabilities,
    features: Seq<Seq<char>>,
    mode: SelectMode,
) -> bool {
    forall|i: int| 0 <= i < features.len() ==> satisfies(caps, #[trigger] features[i], mode)
}

/// The first of some backends that offers all of some features.
pub open spec fn first_honouring(
    names: Seq<Seq<char>>,
    features: Seq<Seq<char>>,
    mode: SelectMode,
) -> Option<Seq<char>>
    decreases names.len(),
{
    if names.len() == 0 {
        None
    } else if honours(table_of(names[0]), features, mode) {
        Some(names[0])
    } else {
        first_honouring(names.skip(1), features, mode)
    }
}

fn offers_all(caps: &BackendCapabilities, features: &Vec<&'static str>, mode: SelectMode) -> (r:
    bool)
    ensures
        r == honours(*caps, word_texts(features@), mode),
{
    let ghost all = word_texts(features@);
    let mut i: usize = 0;
    while i < features.len()
        invariant
            i <= features@.len(),
            all == word_texts(features@),
            forall|j: int| 0 <= j < i ==> satisfies(*caps, #[trigger] all[j], mode),
        decreases features@.len() - i,
    {
        assert(all[i as int] == features@[i as int]@);
        if !feature_satisfies(caps, features[i], mode) {
            return false;
        }
        i += 1;
    }
    true
}

/// The preferred backend of a platform that offers everything a project needs.
pub fn select_backend_for(spec: &ComposeSpec, mode: SelectMode, platform: Platform) -> (r: Option<
    &'static str,
>)
    ensures
        match r {
            Some(name) => first_honouring(candidates(platform), needed(*spec), mode) == Some(name@),
            None => first_honouring(candidates(platform), needed(*spec), mode) is None,
        },
{
    let features = required_features(spec);
    let names = platform_candidates(platform);
    let ghost all = candidates(platform);
    let mut i: usize = 0;
    assert(all.skip(0) =~= all);
    while i < names.len()
        invariant
            i <= names@.len(),
            all == candidates(platform),
            all == word_texts(names@),
            word_texts(features@) == needed(*spec),
            first_honouring(all, needed(*spec), mode) == first_honouring(
                all.skip(i as int),
                needed(*spec),
                mode,
            ),
        decreases names@.len() - i,
    {
        proof {
            assert(all.skip(i as int)[0] == names@[i as int]@);
            assert(all.skip(i as int).skip(1) =~= all.skip(i + 1));
        }
        let caps = capabilities_for_backend(names[i]);
        if offers_all(&caps, &features, mode) {
            return Some(names[i]);
        }
        i += 1;
    }
    None
}

/// A wider mode accepts whatever a narrower one does.
pub proof fn lemma_modes_widen(caps: BackendCapabilities, features: Seq<Seq<char>>)
    ensures
        honours(caps, features, SelectMode::StrictNative) ==> honours(
            caps,
            features,
            SelectMode::AcceptEmulated,
        ),
        honours(caps, features, SelectMode::AcceptEmulated) ==> honours(
            caps,
            features,
            SelectMode::AcceptPartial,
        ),
{
    if honours(caps, features, SelectMode::StrictNative) {
        assert forall|i: int| 0 <= i < features.len() implies satisfies(
            caps,
            #[trigger] features[i],
            SelectMode::AcceptEmulated,
        ) by {
            assert(satisfies(caps, features[i], SelectMode::StrictNative));
        }
    }
    if honours(caps, features, SelectMode::AcceptEmulated) {
        assert forall|i: int| 0 <= i < features.len() implies satisfies(
            caps,
            #[trigger] features[i],
            SelectMode::AcceptPartial,
        ) by {
            assert(satisfies(caps, features[i], SelectMode::AcceptEmulated));
        }
    }
}

/// A backend that supports everything natively offers whatever is asked.
pub proof fn lemma_native_honours(
    backend: &'static str,
    features: Seq<Seq<char>>,
    mode: SelectMode,
)
    ensures
        honours(all_native(backend), features, mode),
{
    let caps = all_native(backend);
    let table = feature_table(caps);
    assert forall|i: int| 0 <= i < features.len() implies satisfies(
        caps,
        #[trigger] features[i],
        mode,
    ) by {
        lemma_position(table, features[i]);
        assert forall|k: int| 0 <= k < table.len() implies (#[trigger] table[k]).1 is Native by {}
    }
}

/// What the search finds is the first of the backends that offers all that is
/// asked; where one backend offers all that is asked, the search finds one.
pub proof fn lemma_first_honouring(
    names: Seq<Seq<char>>,
    features: Seq<Seq<char>>,
    mode: SelectMode,
)
    ensures
        match first_honouring(names, features, mode) {
            Some(name) => honours(table_of(name), features, mode) && exists|i: int|
                0 <= i < names.len() && #[trigger] names[i] == name && forall|j: int|
                    0 <= j < i ==> !honours(table_of(#[trigger] names[j]), features, mode),
            None => forall|i: int|
                0 <= i < names.len() ==> !honours(table_of(#[trigger] names[i]), features, mode),
        },
    decreases names.len(),
{
    if names.len() > 0 && honours(table_of(names[0]), features, mode) {
        assert(first_honouring(names, features, mode) == Some(names[0]));
    } else if names.len() > 0 {
        let rest = names.skip(1);
        lemma_first_honouring(rest, features, mode);
        match first_honouring(rest, features, mode) {
            Some(name) => {
                let i = choose|i: int|
                    0 <= i < rest.len() && #[trigger] rest[i] == name && forall|j: int|
                        0 <= j < i ==> !honours(table_of(#[trigger] rest[j]), features, mode);
                assert(names[i + 1] == name);
                assert forall|j: int| 0 <= j < i + 1 implies !honours(
                    table_of(#[trigger] names[j]),
                    features,
                    mode,
                ) by {
                    if j > 0 {
                        assert(rest[j - 1] == names[j]);
                    }
                }
            },
            None => {
                assert forall|i: int| 0 <= i < names.len() implies !honours(
                    table_of(#[trigger] names[i]),
                    features,
                    mode,
                ) by {
                    if i > 0 {
                        assert(rest[i - 1] == names[i]);
                    }
                }
            },
        }
    }
}

/// On every platform, in every mode and for every project there is a backend to
/// take: Docker, if no other.
pub proof fn lemma_some_backend(spec: ComposeSpec, mode: SelectMode, platform: Platform)
    ensures
        first_honouring(candidates(platform), needed(spec), mode) is Some,
{
    let names = candidates(platform);
    lemma_first_honouring(names, needed(spec), mode);
    lemma_candidates_ranked(platform);
    lemma_native_honours("docker", needed(spec), mode);
    let last = names[names.len() - 1];
    assert(last == "docker"@);
    reveal_strlit("docker");
    reveal_strlit("apple/container");
    reveal_strlit("lima");
    reveal_strlit("podman");
    assert("docker"@ != "lima"@ && "docker"@ != "apple/container"@) by {
        assert("docker"@.len() == 6 && "lima"@.len() == 4 && "apple/container"@.len() == 15);
    }
    assert("docker"@ != "podman"@) by {
        assert("docker"@[0] == 'd' && "podman"@[0] == 'p');
    }
    assert(table_of(last) == docker_table());
}

} // verus!

//! Container runtimes driven through their command lines.
use vstd::prelude::*;
use vstd::string::*;
use crate::compose::types::{copy_text, text_opt};
use crate::platform::Platform;
use crate::text::{after_prefix, same, texts};

verus! {

// ---- probing ----

/// What probing for a backend found.
#[derive(Debug)]
pub struct BackendProbeResult {
    pub name: String,
    pub available: bool,
    pub reason: String,
}

/// What a [`BackendProbeResult`] says.
pub struct ProbeView {
    pub name: Seq<char>,
    pub available: bool,
    pub reason: Seq<char>,
}

impl View for BackendProbeResult {
    type V = ProbeView;

    open spec fn view(&self) -> ProbeView {
        ProbeView { name: self.name@, available: self.available, reason: self.reason@ }
    }
}

/// What a list of probe results says.
pub open spec fn probe_views(v: Seq<BackendProbeResult>) -> Seq<ProbeView> {
    v.map_values(|p: BackendProbeResult| p@)
}

/// The texts of a list of words.
pub open spec fn word_texts(v: Seq<&'static str>) -> Seq<Seq<char>> {
    v.map_values(|s: &'static str| s@)
}

/// Whether the platform has Apple's own container runtime.
pub open spec fn is_apple(platform: Platform) -> bool {
    platform == Platform::MacOs || platform == Platform::Ios
}

/// The backends of a platform, the preferred ones first. The platform's own
/// runtime leads, runtimes without a daemon come before Docker, and Docker is
/// what remains.
pub open spec fn candidates(platform: Platform) -> Seq<Seq<char>> {
    if is_apple(platform) {
        seq![
            "apple/container"@,
            "orbstack"@,
            "colima"@,
            "rancher-desktop"@,
            "lima"@,
            "podman"@,
            "nerdctl"@,
            "docker"@,
        ]
    } else {
        seq!["podman"@, "nerdctl"@, "docker"@]
    }
}

/// The order in which to probe for backends on a platform.
pub fn platform_candidates(platform: Platform) -> (r: Vec<&'static str>)
    ensures
        word_texts(r@) == candidates(platform),
{
    let r: Vec<&'static str> = match platform {
        Platform::MacOs | Platform::Ios => vec![
            "apple/container",
            "orbstack",
            "colima",
            "rancher-desktop",
            "lima",
            "podman",
            "nerdctl",
            "docker",
        ],
        _ => vec!["podman", "nerdctl", "docker"],
    };
    assert(word_texts(r@) =~= candidates(platform));
    r
}

/// On every platform Docker comes last, with Podman before it; where there is
/// an Apple runtime, that comes first.
pub proof fn lemma_candidates_ranked(platform: Platform)
    ensures
        candidates(platform).last() == "docker"@,
        exists|i: int|
            0 <= i < candidates(platform).len() - 1 && #[trigger] candidates(platform)[i]
                == "podman"@,
        is_apple(platform) ==> candidates(platform)[0] == "apple/container"@,
        !is_apple(platform) ==> candidates(platform)[0] == "podman"@,
{
    if is_apple(platform) {
        assert(candidates(platform)[5] == "podman"@);
    } else {
        assert(candidates(platform)[0] == "podman"@);
    }
}

// ---- security profiles ----

/// How a container is hardened.
#[derive(Debug, Default)]
pub struct SecurityProfile {
    pub read_only_root: bool,
    /// The path of a seccomp profile, or `default` for the runtime's own.
    pub seccomp: Option<String>,
    pub no_new_privileges: bool,
}

/// What a [`SecurityProfile`] says.
pub struct ProfileView {
    pub read_only_root: bool,
    pub seccomp: Option<Seq<char>>,
    pub no_new_privileges: bool,
}

impl View for SecurityProfile {
    type V = ProfileView;

    open spec fn view(&self) -> ProfileView {
        ProfileView {
            read_only_root: self.read_only_root,
            seccomp: text_opt(self.seccomp),
            no_new_privileges: self.no_new_privileges,
        }
    }
}

impl Clone for SecurityProfile {
    fn clone(&self) -> (r: SecurityProfile)
        ensures
            r@ == self@,
    {
        SecurityProfile {
            read_only_root: self.read_only_root,
            seccomp: copy_text(&self.seccomp),
            no_new_privileges: self.no_new_privileges,
        }
    }
}

/// The seccomp profile that an option names.
pub open spec fn seccomp_option(opt: Seq<char>) -> Option<Seq<char>> {
    if "seccomp="@.is_prefix_of(opt) {
        Some(opt.skip("seccomp="@.len() as int))
    } else if "seccomp:"@.is_prefix_of(opt) {
        Some(opt.skip("seccomp:"@.len() as int))
    } else {
        None
    }
}

/// Whether an option forbids new privileges.
pub open spec fn forbids_privileges(opt: Seq<char>) -> bool {
    opt == "no-new-privileges"@ || opt == "no-new-privileges:true"@ || opt
        == "no-new-privileges=true"@
}

/// A profile with one more option taken in; options that mean nothing here are
/// passed over.
pub open spec fn with_option(p: ProfileView, opt: Seq<char>) -> ProfileView {
    match seccomp_option(opt) {
        Some(path) => ProfileView { seccomp: Some(path), ..p },
        None => if forbids_privileges(opt) {
            ProfileView { no_new_privileges: true, ..p }
        } else {
            p
        },
    }
}

/// A profile with options taken in one by one.
pub open spec fn with_options(p: ProfileView, opts: Seq<Seq<char>>) -> ProfileView
    decreases opts.len(),
{
    if opts.len() == 0 {
        p
    } else {
        with_option(with_options(p, opts.drop_last()), opts.last())
    }
}

/// The seccomp profile that an option names.
pub fn seccomp_of(opt: &str) -> (r: Option<String>)
    ensures
        text_opt(r) == seccomp_option(opt@),
{
    match after_prefix(opt, "seccomp=") {
        Some(path) => Some(path),
        None => after_prefix(opt, "seccomp:"),
    }
}

/// Whether an option forbids new privileges.
pub fn is_no_new_privileges(opt: &str) -> (r: bool)
    ensures
        r == forbids_privileges(opt@),
{
    same(opt, "no-new-privileges") || same(opt, "no-new-privileges:true") || same(
        opt,
        "no-new-privileges=true",
    )
}

impl SecurityProfile {
    /// Takes in security options of the forms `seccomp=<path>`,
    /// `seccomp:<path>` and `no-new-privileges`, the last also with `:true` or
    /// `=true`.
    pub fn merge_security_opt(&mut self, security_opt: &[String])
        ensures
            final(self)@ == with_options(old(self)@, texts(security_opt@)),
    {
        let ghost before = self@;
        let ghost all = texts(security_opt@);
        let mut i: usize = 0;
        assert(all.take(0) =~= Seq::empty());
        while i < security_opt.len()
            invariant
                i <= security_opt@.len(),
                all == texts(security_opt@),
                self@ == with_options(before, all.take(i as int)),
            decreases security_opt@.len() - i,
        {
            proof {
                assert(all.take(i + 1).drop_last() =~= all.take(i as int));
                assert(all.take(i + 1).last() == security_opt@[i as int]@);
            }
            let opt = security_opt[i].as_str();
            if let Some(path) = seccomp_of(opt) {
                self.seccomp = Some(path);
            } else if is_no_new_privileges(opt) {
                self.no_new_privileges = true;
            }
            i += 1;
        }
        assert(all.take(i as int) =~= all);
    }
}

/// Options never loosen a profile: a root that is read-only stays so, and
/// privileges once forbidden stay forbidden.
pub proof fn lemma_options_harden(p: ProfileView, opts: Seq<Seq<char>>)
    ensures
        with_options(p, opts).read_only_root == p.read_only_root,
        p.no_new_privileges ==> with_options(p, opts).no_new_privileges,
        p.seccomp is Some ==> with_options(p, opts).seccomp is Some,
    decreases opts.len(),
{
    if opts.len() > 0 {
        lemma_options_harden(p, opts.drop_last());
    }
}

} // verus!

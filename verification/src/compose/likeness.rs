//! A container is like its service: each thing that the service says of it holds of
//! the container that is asked for.
use vstd::prelude::*;
use crate::compose::backend::{with_option, with_options, ProfileView};
use crate::compose::engine::{
    engine_container, engine_env, engine_mount, engine_profile, given_aliases, network_name,
    service_aliases, volume_name, with_aliases, with_new,
};
use crate::compose::maps::{keys_distinct, lemma_from_pairs_distinct, position};
use crate::compose::types::{
    first_network, ComposeService, ComposeServiceNetworkConfig, ComposeSpec,
    ListOrDict, PortSpec, ServiceNetworks,
};
use crate::compose::yaml::{yaml_of, YamlView};
use crate::text::texts;

verus! {

/// Whether a text of a container is the one its service gives, or missing with it.
pub open spec fn same_text(given: Option<String>, kept: Option<Seq<char>>) -> bool {
    match given {
        Some(t) => kept == Some(t@),
        None => kept is None,
    }
}

/// The same for texts.
pub open spec fn same_texts(given: Option<Vec<String>>, kept: Option<Seq<Seq<char>>>) -> bool {
    match given {
        Some(v) => kept matches Some(k) && k.len() == v@.len() && forall|i: int|
            0 <= i < v@.len() ==> #[trigger] k[i] == v@[i]@,
        None => kept is None,
    }
}

/// Whether a text is what a port says: its text, or the port of the host, a colon and
/// that of the container.
pub open spec fn says_port(p: PortSpec, text: Seq<char>) -> bool {
    match p {
        PortSpec::Short(v) => match yaml_of(v) {
            YamlView::String(t) | YamlView::Number(t) => text == t,
            _ => true,
        },
        PortSpec::Long(l) => match (l.published, yaml_of(l.target)) {
            (Some(h), YamlView::String(t)) | (Some(h), YamlView::Number(t)) => match yaml_of(h) {
                YamlView::String(f) | YamlView::Number(f) => text == f + ":"@ + t,
                _ => true,
            },
            (None, YamlView::String(t)) | (None, YamlView::Number(t)) => text == ":"@ + t,
            _ => true,
        },
    }
}

/// What a service says plainly of its container holds of it.
pub proof fn lemma_container_like_service(
    spec: ComposeSpec,
    project: Seq<char>,
    bridges: bool,
    s: ComposeService,
    name: Seq<char>,
    container: Seq<char>,
    hash: Seq<char>,
)
    ensures
        ({
            let c = engine_container(spec, project, bridges, s, name, container, hash);
            &&& c.name == Some(container)
            &&& s.image matches Some(i) ==> c.image == i@
            &&& s.image is None && s.build is Some ==> c.image == name + "-image"@
            &&& same_text(s.user, c.user)
            &&& same_text(s.working_dir, c.workdir)
            &&& same_texts(s.cap_add, c.cap_add)
            &&& same_texts(s.cap_drop, c.cap_drop)
            &&& c.read_only == s.read_only
            &&& c.privileged == s.privileged
            &&& c.entrypoint is None && c.rm is None
            &&& s.ports matches Some(v) ==> (c.ports matches Some(ps) && ps.len() == v@.len()
                && forall|i: int| 0 <= i < v@.len() ==> says_port(v@[i], #[trigger] ps[i]))
            &&& s.ports is None ==> c.ports == Some(Seq::<Seq<char>>::empty())
            &&& s.volumes matches Some(v) ==> (c.volumes matches Some(ms) && ms.len() == v@.len()
                && forall|i: int|
                0 <= i < v@.len() && yaml_of(v@[i].value) is String ==> #[trigger] ms[i]
                    == engine_mount(spec, project, yaml_of(v@[i].value)->String_0))
            &&& s.volumes is None ==> c.volumes == Some(Seq::<Seq<char>>::empty())
            &&& c.network == match first_network(s.networks) {
                Some(d) => if bridges {
                    Some(network_name(spec, project, d))
                } else {
                    None
                },
                None => None,
            }
            &&& c.network is Some ==> c.network_aliases == Some(service_aliases(s, name))
            &&& c.network is None ==> c.network_aliases is None
            &&& s.command matches Some(v) ==> (yaml_of(v) matches YamlView::String(t) ==> c.cmd
                == Some(seq![t]))
            &&& s.command matches Some(v) ==> (yaml_of(v) matches YamlView::Sequence(ws) ==> (
            c.cmd matches Some(k) && k.len() == ws.len() && forall|i: int|
                0 <= i < ws.len() && ws[i] is String ==> #[trigger] k[i] == ws[i]->String_0))
            &&& s.command is None ==> c.cmd == Some(Seq::<Seq<char>>::empty())
        }),
{
    let c = engine_container(spec, project, bridges, s, name, container, hash);
    if let Some(v) = s.ports {
        let ps = c.ports->0;
        assert forall|i: int| 0 <= i < v@.len() implies says_port(v@[i], #[trigger] ps[i]) by {
            match v@[i] {
                PortSpec::Short(_) => {},
                PortSpec::Long(l) => {
                    if l.published is None {
                        assert(Seq::<char>::empty() + ":"@ =~= ":"@);
                    }
                },
            }
        }
    }
}

/// A mount of a volume that the project declares is one of the volume under its name
/// at the backend, at the same place; a mount of a path or of another volume is left as
/// it is.
pub proof fn lemma_mount_told(
    spec: ComposeSpec,
    project: Seq<char>,
    head: Seq<char>,
    rest: Seq<char>,
)
    requires
        forall|i: int| 0 <= i < head.len() ==> #[trigger] head[i] != ':',
    ensures
        engine_mount(spec, project, head + seq![':'] + rest) == if head.len() > 0 && (head[0] == '/'
            || head[0] == '.') {
            head + seq![':'] + rest
        } else if spec.volumes matches Some(m) && position(m.entries(), head) is Some {
            volume_name(spec, project, head) + seq![':'] + rest
        } else {
            head + seq![':'] + rest
        },
        engine_mount(spec, project, head) == head,
{
    let raw = head + seq![':'] + rest;
    let n = head.len() as int;
    assert(raw[n] == ':');
    assert(raw.contains(':'));
    raw.index_of_first_ensures(':');
    let i = raw.index_of_first(':')->0;
    assert(i == n) by {
        if i < n {
            assert(raw[i] == head[i]);
        }
    }
    assert(raw.take(i) =~= head);
    assert(raw.skip(i) =~= seq![':'] + rest);
    reveal_strlit("/");
    reveal_strlit(".");
    if head.len() > 0 {
        assert(head.take(1) =~= seq![head[0]]);
        assert("/"@ =~= seq!['/']);
        assert("."@ =~= seq!['.']);
        assert(head.subrange(0, 1) =~= seq![head[0]]);
        assert("/"@[0] == '/' && "."@[0] == '.');
        if "/"@.is_prefix_of(head) {
            assert(head.subrange(0, 1)[0] == '/');
        }
        if "."@.is_prefix_of(head) {
            assert(head.subrange(0, 1)[0] == '.');
        }
    }
    let named = volume_name(spec, project, head);
    assert(named + (seq![':'] + rest) =~= named + seq![':'] + rest);
    head.index_of_first_ensures(':');
}

/// Each variable that a mapping gives is in the environment, in its place, with the
/// text it is given; one without a value is empty.
pub proof fn lemma_environment_told(e: ListOrDict)
    requires
        e matches ListOrDict::Dict(m) && keys_distinct(m.entries()),
    ensures
        e matches ListOrDict::Dict(m) && engine_env(Some(e)).len() == m.entries().len()
            && forall|i: int|
            0 <= i < m.entries().len() ==> (#[trigger] engine_env(Some(e))[i]).0 == m.entries()[i].0
                && match m.entries()[i].1 {
                None => engine_env(Some(e))[i].1.len() == 0,
                Some(v) => match yaml_of(v) {
                    YamlView::String(t) | YamlView::Number(t) => engine_env(Some(e))[i].1 == t,
                    YamlView::Bool(b) => engine_env(Some(e))[i].1 == if b {
                        "true"@
                    } else {
                        "false"@
                    },
                    _ => true,
                },
            },
{
    if let ListOrDict::Dict(m) = e {
        let ps = m.entries().map_values(
            |e: (Seq<char>, Option<serde_yaml::Value>)|
                (
                    e.0,
                    match e.1 {
                        Some(v) => crate::compose::engine::engine_value(yaml_of(v)),
                        None => Seq::empty(),
                    },
                ),
        );
        assert forall|i: int, j: int| 0 <= i < j < ps.len() implies (#[trigger] ps[i]).0 != (
        #[trigger] ps[j]).0 by {
            assert(m.entries()[i].0 != m.entries()[j].0);
        }
        lemma_from_pairs_distinct(ps);
    }
}

proof fn lemma_with_new_told(v: Seq<Seq<char>>, more: Seq<Seq<char>>, x: Seq<char>)
    ensures
        with_new(v, more).contains(x) <==> v.contains(x) || more.contains(x),
    decreases more.len(),
{
    if more.len() > 0 {
        let front = more.drop_last();
        let before = with_new(v, front);
        let all = with_new(v, more);
        lemma_with_new_told(v, front, x);
        if front.contains(x) {
            let i = choose|i: int| 0 <= i < front.len() && front[i] == x;
            assert(more[i] == x);
        }
        if more.contains(x) && !front.contains(x) {
            let i = choose|i: int| 0 <= i < more.len() && more[i] == x;
            if i < front.len() {
                assert(front[i] == x);
            }
            assert(x == more.last());
        }
        if more.last() == x {
            assert(more[more.len() - 1] == x);
            if !before.contains(x) {
                assert(all[all.len() - 1] == x);
            }
        }
        if before.contains(x) {
            let i = choose|i: int| 0 <= i < before.len() && before[i] == x;
            assert(all[i] == x);
        }
        if all.contains(x) {
            let i = choose|i: int| 0 <= i < all.len() && all[i] == x;
            if i < before.len() {
                assert(before[i] == x);
            }
        }
    }
}

/// Whether a service is given an alias on one of some networks.
pub open spec fn is_alias(
    networks: Seq<(Seq<char>, Option<ComposeServiceNetworkConfig>)>,
    x: Seq<char>,
) -> bool {
    exists|i: int|
        0 <= i < networks.len() && ((#[trigger] networks[i]).1 matches Some(c)
            && (c.aliases matches Some(v) && texts(v@).contains(x)))
}

proof fn lemma_with_aliases_told(
    v: Seq<Seq<char>>,
    networks: Seq<(Seq<char>, Option<ComposeServiceNetworkConfig>)>,
    x: Seq<char>,
)
    ensures
        with_aliases(v, networks).contains(x) <==> v.contains(x) || is_alias(networks, x),
    decreases networks.len(),
{
    if networks.len() > 0 {
        let front = networks.drop_last();
        lemma_with_aliases_told(v, front, x);
        lemma_with_new_told(with_aliases(v, front), given_aliases(networks.last().1), x);
        if is_alias(front, x) {
            let i = choose|i: int|
                0 <= i < front.len() && ((#[trigger] front[i]).1 matches Some(c)
                    && (c.aliases matches Some(v) && texts(v@).contains(x)));
            assert(networks[i] == front[i]);
        }
        if given_aliases(networks.last().1).contains(x) {
            assert(networks[networks.len() - 1].1 == networks.last().1);
        }
        if is_alias(networks, x) {
            let i = choose|i: int|
                0 <= i < networks.len() && ((#[trigger] networks[i]).1 matches Some(c)
                    && (c.aliases matches Some(v) && texts(v@).contains(x)));
            if i < front.len() {
                assert(front[i] == networks[i]);
            }
        }
    }
}

/// A service answers to its own name and to every alias it is given on a network, and
/// to nothing else.
pub proof fn lemma_aliases_told(s: ComposeService, name: Seq<char>, x: Seq<char>)
    ensures
        service_aliases(s, name).contains(x) <==> x == name || (
        s.networks matches Some(ServiceNetworks::Mapping(m)) && is_alias(m.entries(), x)),
{
    assert(seq![name].contains(x) <==> x == name) by {
        assert(seq![name][0] == name);
    }
    if let Some(ServiceNetworks::Mapping(m)) = s.networks {
        lemma_with_aliases_told(seq![name], m.entries(), x);
    }
}

/// Whether an option forbids new privileges.
pub open spec fn is_forbidding(opt: Seq<char>) -> bool {
    opt == "no-new-privileges"@ || opt == "no-new-privileges:true"@ || opt
        == "no-new-privileges=true"@
}

proof fn lemma_options_told(p: ProfileView, opts: Seq<Seq<char>>)
    ensures
        with_options(p, opts).read_only_root == p.read_only_root,
        with_options(p, opts).no_new_privileges <==> p.no_new_privileges || exists|i: int|
            0 <= i < opts.len() && is_forbidding(#[trigger] opts[i]),
    decreases opts.len(),
{
    if opts.len() > 0 {
        let front = opts.drop_last();
        let last = opts.last();
        lemma_options_told(p, front);
        lemma_option_told(with_options(p, front), last);
        if exists|i: int| 0 <= i < front.len() && is_forbidding(#[trigger] front[i]) {
            let i = choose|i: int| 0 <= i < front.len() && is_forbidding(#[trigger] front[i]);
            assert(is_forbidding(opts[i]));
        }
        if is_forbidding(last) {
            assert(is_forbidding(opts[opts.len() - 1]));
        }
        if exists|i: int| 0 <= i < opts.len() && is_forbidding(#[trigger] opts[i]) {
            let i = choose|i: int| 0 <= i < opts.len() && is_forbidding(#[trigger] opts[i]);
            if i < front.len() {
                assert(is_forbidding(front[i]));
            }
        }
    }
}

proof fn lemma_option_told(p: ProfileView, opt: Seq<char>)
    ensures
        with_option(p, opt).read_only_root == p.read_only_root,
        with_option(p, opt).no_new_privileges <==> p.no_new_privileges || is_forbidding(opt),
        is_forbidding(opt) ==> with_option(p, opt).seccomp == p.seccomp,
{
    reveal_strlit("no-new-privileges");
    reveal_strlit("no-new-privileges:true");
    reveal_strlit("no-new-privileges=true");
    reveal_strlit("seccomp=");
    reveal_strlit("seccomp:");
    if is_forbidding(opt) {
        assert(opt[0] == 'n');
        if "seccomp="@.is_prefix_of(opt) {
            assert(opt.subrange(0, 8)[0] == "seccomp="@[0]);
        }
        if "seccomp:"@.is_prefix_of(opt) {
            assert(opt.subrange(0, 8)[0] == "seccomp:"@[0]);
        }
    }
}

/// An option names a seccomp profile by a path behind an equals sign or a colon, and
/// takes the place of one that was named before.
pub proof fn lemma_seccomp_told(p: ProfileView, path: Seq<char>)
    ensures
        with_option(p, "seccomp="@ + path).seccomp == Some(path),
        with_option(p, "seccomp:"@ + path).seccomp == Some(path),
{
    reveal_strlit("seccomp=");
    reveal_strlit("seccomp:");
    let a = "seccomp="@ + path;
    let b = "seccomp:"@ + path;
    assert(a.subrange(0, 8) =~= "seccomp="@);
    assert(a.skip(8) =~= path);
    assert(b.subrange(0, 8) =~= "seccomp:"@);
    assert(b.skip(8) =~= path);
    assert(b.subrange(0, 8)[7] == ':' && "seccomp="@[7] == '=');
}

/// A service is hardened as it asks: its root is read-only where it says so, and new
/// privileges are forbidden where one of its options does that.
pub proof fn lemma_hardening_told(s: ComposeService)
    ensures
        engine_profile(s).read_only_root <==> s.read_only == Some(true),
        engine_profile(s).no_new_privileges <==> (s.security_opt matches Some(v) && exists|i: int|
            0 <= i < v@.len() && is_forbidding(#[trigger] texts(v@)[i])),
{
    if let Some(v) = s.security_opt {
        let plain = ProfileView {
            read_only_root: s.read_only == Some(true),
            seccomp: None,
            no_new_privileges: false,
        };
        lemma_options_told(plain, texts(v@));
    }
}

} // verus!

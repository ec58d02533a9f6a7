//! What runtimes are told: every setting of a container stands in the command line,
//! as an option with its value, and the command line holds nothing else.
use vstd::prelude::*;
use crate::compose::args::{
    flag_all, flag_each, flag_if, flag_pairs, flag_pairs_opt, flag_value, words_of,
};
use crate::compose::protocol::{
    apple_container, apple_create, apple_run, docker_create, docker_run, docker_security,
    entry_point, on,
};
use crate::compose::backend::ProfileView;
use crate::compose::types::ContainerSpecView;

verus! {

/// Whether an option and its value stand in words, one after the other.
#[verifier::opaque]
pub open spec fn says(words: Seq<Seq<char>>, option: Seq<char>, value: Seq<char>) -> bool {
    exists|i: int|
        0 <= i && i + 1 < words.len() && #[trigger] words[i] == option && words[i + 1] == value
}

/// Whether a word stands in words.
#[verifier::opaque]
pub open spec fn names_word(words: Seq<Seq<char>>, word: Seq<char>) -> bool {
    words.contains(word)
}

broadcast proof fn lemma_says_concat(
    a: Seq<Seq<char>>,
    b: Seq<Seq<char>>,
    option: Seq<char>,
    value: Seq<char>,
)
    ensures
        says(a, option, value) || says(b, option, value) ==> #[trigger] says(a + b, option, value),
{
    reveal(says);
    let all = a + b;
    if says(a, option, value) {
        let i = choose|i: int|
            0 <= i && i + 1 < a.len() && #[trigger] a[i] == option && a[i + 1] == value;
        assert(all[i] == option && all[i + 1] == value);
    }
    if says(b, option, value) {
        let i = choose|i: int|
            0 <= i && i + 1 < b.len() && #[trigger] b[i] == option && b[i + 1] == value;
        assert(all[a.len() + i] == option && all[a.len() + i + 1] == value);
    }
}

broadcast proof fn lemma_names_concat(a: Seq<Seq<char>>, b: Seq<Seq<char>>, word: Seq<char>)
    ensures
        names_word(a, word) || names_word(b, word) ==> #[trigger] names_word(a + b, word),
{
    reveal(names_word);
    let all = a + b;
    if a.contains(word) {
        let i = choose|i: int| 0 <= i < a.len() && a[i] == word;
        assert(all[i] == word);
    }
    if b.contains(word) {
        let i = choose|i: int| 0 <= i < b.len() && b[i] == word;
        assert(all[a.len() + i] == word);
    }
}

proof fn lemma_flag_says(flag: Seq<char>, v: Seq<char>)
    ensures
        says(flag_value(flag, Some(v)), flag, v),
        names_word(flag_if(flag, true), flag),
{
    reveal(says);
    reveal(names_word);
    let w = flag_value(flag, Some(v));
    assert(w[0] == flag && w[1] == v);
    assert(flag_if(flag, true)[0] == flag);
}

proof fn lemma_all_says(flag: Seq<char>, values: Seq<Seq<char>>, i: int)
    requires
        0 <= i < values.len(),
    ensures
        says(flag_all(flag, values), flag, values[i]),
    decreases values.len(),
{
    reveal(says);
    let before = flag_all(flag, values.drop_last());
    let all = flag_all(flag, values);
    if i < values.len() - 1 {
        lemma_all_says(flag, values.drop_last(), i);
        let k = choose|k: int|
            0 <= k && k + 1 < before.len() && #[trigger] before[k] == flag && before[k + 1]
                == values[i];
        assert(all[k] == flag && all[k + 1] == values[i]);
    } else {
        assert(all[all.len() - 2] == flag && all[all.len() - 1] == values[i]);
    }
}

proof fn lemma_pairs_says(flag: Seq<char>, pairs: Seq<(Seq<char>, Seq<char>)>, i: int)
    requires
        0 <= i < pairs.len(),
    ensures
        says(flag_pairs(flag, pairs), flag, pairs[i].0 + "="@ + pairs[i].1),
    decreases pairs.len(),
{
    reveal(says);
    let before = flag_pairs(flag, pairs.drop_last());
    let all = flag_pairs(flag, pairs);
    let v = pairs[i].0 + "="@ + pairs[i].1;
    if i < pairs.len() - 1 {
        lemma_pairs_says(flag, pairs.drop_last(), i);
        let k = choose|k: int|
            0 <= k && k + 1 < before.len() && #[trigger] before[k] == flag && before[k + 1] == v;
        assert(all[k] == flag && all[k + 1] == v);
    } else {
        assert(all[all.len() - 2] == flag && all[all.len() - 1] == v);
    }
}

proof fn lemma_all_length(flag: Seq<char>, values: Seq<Seq<char>>)
    ensures
        flag_all(flag, values).len() == 2 * values.len(),
    decreases values.len(),
{
    if values.len() > 0 {
        lemma_all_length(flag, values.drop_last());
    }
}

proof fn lemma_pairs_length(flag: Seq<char>, pairs: Seq<(Seq<char>, Seq<char>)>)
    ensures
        flag_pairs(flag, pairs).len() == 2 * pairs.len(),
    decreases pairs.len(),
{
    if pairs.len() > 0 {
        lemma_pairs_length(flag, pairs.drop_last());
    }
}

/// Whether words say the value of an option, where a setting has one.
pub open spec fn says_value(
    words: Seq<Seq<char>>,
    option: Seq<char>,
    setting: Option<Seq<char>>,
) -> bool {
    setting matches Some(v) ==> says(words, option, v)
}

/// Whether words say each value of a setting, each after the option.
pub open spec fn says_each(
    words: Seq<Seq<char>>,
    option: Seq<char>,
    setting: Option<Seq<Seq<char>>>,
) -> bool {
    setting matches Some(vs) ==> forall|i: int|
        0 <= i < vs.len() ==> says(words, option, #[trigger] vs[i])
}

/// Whether words say each entry of a setting as an assignment, each after the option.
pub open spec fn says_pairs(
    words: Seq<Seq<char>>,
    option: Seq<char>,
    setting: Option<Seq<(Seq<char>, Seq<char>)>>,
) -> bool {
    setting matches Some(ps) ==> forall|i: int|
        0 <= i < ps.len() ==> says(words, option, (#[trigger] ps[i]).0 + "="@ + ps[i].1)
}

/// Whether words tell a runtime of the settings of a container that all commands share.
pub open spec fn tells_settings(words: Seq<Seq<char>>, s: ContainerSpecView) -> bool {
    &&& says_value(words, "--name"@, s.name)
    &&& says_value(words, "--network"@, s.network)
    &&& says_value(words, "--user"@, s.user)
    &&& says_value(words, "--workdir"@, s.workdir)
    &&& says_each(words, "-p"@, s.ports)
    &&& says_each(words, "-v"@, s.volumes)
    &&& says_each(words, "--cap-add"@, s.cap_add)
    &&& says_each(words, "--cap-drop"@, s.cap_drop)
    &&& says_pairs(words, "-e"@, s.env)
    &&& says_pairs(words, "--label"@, s.labels)
    &&& s.read_only == Some(true) ==> names_word(words, "--read-only"@)
    &&& s.entrypoint matches Some(ws) ==> says_value(words, "--entrypoint"@, entry_point(Some(ws)))
}

/// How many words an option with a value takes.
#[verifier::opaque]
pub open spec fn two_if(some: bool) -> int {
    if some {
        2
    } else {
        0
    }
}

/// How many words a switch takes.
#[verifier::opaque]
pub open spec fn one_if(set: Option<bool>) -> int {
    if set == Some(true) {
        1
    } else {
        0
    }
}

/// How many words options with their values take.
#[verifier::opaque]
pub open spec fn two_each<T>(values: Option<Seq<T>>) -> int {
    match values {
        Some(v) => 2 * v.len() as int,
        None => 0,
    }
}

/// How many words the settings of a container take, with the image and the command.
pub open spec fn settings_length(s: ContainerSpecView) -> int {
    two_if(s.name is Some) + two_if(s.network is Some) + two_if(s.user is Some) + two_if(
        s.workdir is Some,
    ) + two_if(entry_point(s.entrypoint) is Some) + two_each(s.ports) + two_each(s.volumes)
        + two_each(s.cap_add) + two_each(s.cap_drop) + two_each(s.env) + two_each(s.labels)
        + one_if(s.read_only) + 1 + words_of(s.cmd).len()
}

/// Whether words begin with a word.
#[verifier::opaque]
pub open spec fn begins(words: Seq<Seq<char>>, word: Seq<char>) -> bool {
    words.len() > 0 && words[0] == word
}

broadcast proof fn lemma_begins_concat(a: Seq<Seq<char>>, b: Seq<Seq<char>>, word: Seq<char>)
    ensures
        begins(a, word) ==> #[trigger] begins(a + b, word),
{
    reveal(begins);
}

/// Whether words end with the image of a container and the command it runs.
#[verifier::opaque]
pub open spec fn ends_with(words: Seq<Seq<char>>, s: ContainerSpecView) -> bool {
    let cmd = match s.cmd {
        Some(ws) => ws,
        None => Seq::empty(),
    };
    let at = words.len() - cmd.len() - 1;
    &&& at >= 0
    &&& words[at] == s.image
    &&& forall|i: int| 0 <= i < cmd.len() ==> words[at + 1 + i] == #[trigger] cmd[i]
}

broadcast proof fn lemma_ends(x: Seq<Seq<char>>, s: ContainerSpecView)
    ensures
        #[trigger] ends_with(x + seq![s.image] + words_of(s.cmd), s),
{
    reveal(ends_with);
    let words = x + seq![s.image] + words_of(s.cmd);
    assert(words[x.len() as int] == s.image);
}

proof fn lemma_lengths(s: ContainerSpecView)
    ensures
        flag_each("-p"@, s.ports).len() == two_each(s.ports),
        flag_each("-v"@, s.volumes).len() == two_each(s.volumes),
        flag_each("--cap-add"@, s.cap_add).len() == two_each(s.cap_add),
        flag_each("--cap-drop"@, s.cap_drop).len() == two_each(s.cap_drop),
        flag_each("--network-alias"@, s.network_aliases).len() == two_each(s.network_aliases),
        flag_pairs_opt("-e"@, s.env).len() == two_each(s.env),
        flag_pairs_opt("--label"@, s.labels).len() == two_each(s.labels),
        flag_value("--name"@, s.name).len() == two_if(s.name is Some),
        flag_value("--network"@, s.network).len() == two_if(s.network is Some),
        flag_value("--user"@, s.user).len() == two_if(s.user is Some),
        flag_value("--workdir"@, s.workdir).len() == two_if(s.workdir is Some),
        flag_value("--entrypoint"@, entry_point(s.entrypoint)).len() == two_if(
            entry_point(s.entrypoint) is Some,
        ),
        flag_if("--rm"@, on(s.rm)).len() == one_if(s.rm),
        flag_if("--read-only"@, on(s.read_only)).len() == one_if(s.read_only),
        flag_if("--privileged"@, on(s.privileged)).len() == one_if(s.privileged),
{
    reveal(two_if);
    reveal(one_if);
    reveal(two_each);
    if let Some(v) = s.ports {
        lemma_all_length("-p"@, v);
    }
    if let Some(v) = s.volumes {
        lemma_all_length("-v"@, v);
    }
    if let Some(v) = s.cap_add {
        lemma_all_length("--cap-add"@, v);
    }
    if let Some(v) = s.cap_drop {
        lemma_all_length("--cap-drop"@, v);
    }
    if let Some(v) = s.network_aliases {
        lemma_all_length("--network-alias"@, v);
    }
    if let Some(v) = s.env {
        lemma_pairs_length("-e"@, v);
    }
    if let Some(v) = s.labels {
        lemma_pairs_length("--label"@, v);
    }
}

proof fn lemma_segments(s: ContainerSpecView)
    ensures
        says_value(flag_value("--name"@, s.name), "--name"@, s.name),
        says_value(flag_value("--network"@, s.network), "--network"@, s.network),
        says_value(flag_value("--user"@, s.user), "--user"@, s.user),
        says_value(flag_value("--workdir"@, s.workdir), "--workdir"@, s.workdir),
        says_value(
            flag_value("--entrypoint"@, entry_point(s.entrypoint)),
            "--entrypoint"@,
            entry_point(s.entrypoint),
        ),
        says_each(flag_each("-p"@, s.ports), "-p"@, s.ports),
        says_each(flag_each("-v"@, s.volumes), "-v"@, s.volumes),
        says_each(flag_each("--cap-add"@, s.cap_add), "--cap-add"@, s.cap_add),
        says_each(flag_each("--cap-drop"@, s.cap_drop), "--cap-drop"@, s.cap_drop),
        says_each(
            flag_each("--network-alias"@, s.network_aliases),
            "--network-alias"@,
            s.network_aliases,
        ),
        says_pairs(flag_pairs_opt("-e"@, s.env), "-e"@, s.env),
        says_pairs(flag_pairs_opt("--label"@, s.labels), "--label"@, s.labels),
        names_word(flag_if("--read-only"@, true), "--read-only"@),
        names_word(flag_if("--privileged"@, true), "--privileged"@),
        names_word(flag_if("--rm"@, true), "--rm"@),
{
    lemma_each_says("-p"@, s.ports);
    lemma_each_says("-v"@, s.volumes);
    lemma_each_says("--cap-add"@, s.cap_add);
    lemma_each_says("--cap-drop"@, s.cap_drop);
    lemma_each_says("--network-alias"@, s.network_aliases);
    lemma_opt_says("-e"@, s.env);
    lemma_opt_says("--label"@, s.labels);
    lemma_value_says("--name"@, s.name);
    lemma_value_says("--network"@, s.network);
    lemma_value_says("--user"@, s.user);
    lemma_value_says("--workdir"@, s.workdir);
    lemma_value_says("--entrypoint"@, entry_point(s.entrypoint));
    lemma_flag_says("--read-only"@, Seq::empty());
    lemma_flag_says("--privileged"@, Seq::empty());
    lemma_flag_says("--rm"@, Seq::empty());
}

proof fn lemma_value_says(flag: Seq<char>, v: Option<Seq<char>>)
    ensures
        says_value(flag_value(flag, v), flag, v),
{
    if let Some(x) = v {
        lemma_flag_says(flag, x);
    }
}

proof fn lemma_each_says(flag: Seq<char>, vs: Option<Seq<Seq<char>>>)
    ensures
        says_each(flag_each(flag, vs), flag, vs),
{
    if let Some(v) = vs {
        assert forall|i: int| 0 <= i < v.len() implies says(flag_each(flag, vs), flag, #[trigger] v[i]) by {
            lemma_all_says(flag, v, i);
        }
    }
}

proof fn lemma_opt_says(flag: Seq<char>, ps: Option<Seq<(Seq<char>, Seq<char>)>>)
    ensures
        says_pairs(flag_pairs_opt(flag, ps), flag, ps),
{
    if let Some(p) = ps {
        assert forall|i: int| 0 <= i < p.len() implies says(
            flag_pairs_opt(flag, ps),
            flag,
            (#[trigger] p[i]).0 + "="@ + p[i].1,
        ) by {
            lemma_pairs_says(flag, p, i);
        }
    }
}

/// A run in the Docker form says all that there is to say of a container.
#[verifier::rlimit(60)]
pub proof fn lemma_docker_run_tells(s: ContainerSpecView)
    ensures
        tells_settings(docker_run(s), s),
        says_each(docker_run(s), "--network-alias"@, s.network_aliases),
        s.privileged == Some(true) ==> names_word(docker_run(s), "--privileged"@),
        s.rm == Some(true) ==> names_word(docker_run(s), "--rm"@),
{
    broadcast use {lemma_says_concat, lemma_names_concat};

    lemma_segments(s);
}

#[verifier::rlimit(60)]
proof fn lemma_docker_run_length(s: ContainerSpecView)
    ensures
        docker_run(s).len() == 2 + settings_length(s) + two_each(s.network_aliases) + one_if(
            s.privileged,
        ) + one_if(s.rm),
{
    lemma_lengths(s);
}

/// A run in the Docker form says nothing else: it has just the words that the
/// settings take, and ends with the image and the command.
pub proof fn lemma_docker_run_says_no_more(s: ContainerSpecView)
    ensures
        begins(docker_run(s), "run"@),
        names_word(docker_run(s), "--detach"@),
        ends_with(docker_run(s), s),
        docker_run(s).len() == 2 + settings_length(s) + two_each(s.network_aliases) + one_if(
            s.privileged,
        ) + one_if(s.rm),
{
    broadcast use {lemma_begins_concat, lemma_ends, lemma_names_concat};

    lemma_docker_run_length(s);
    let front = seq!["run"@, "--detach"@];
    assert(begins(front, "run"@)) by {
        reveal(begins);
    }
    assert(names_word(front, "--detach"@)) by {
        reveal(names_word);
        assert(front[1] == "--detach"@);
    }
}

/// Creating a container in the Docker form says all its settings.
#[verifier::rlimit(40)]
pub proof fn lemma_docker_create_tells(s: ContainerSpecView)
    ensures
        tells_settings(docker_create(s), s),
        s.privileged == Some(true) ==> names_word(docker_create(s), "--privileged"@),
        begins(docker_create(s), "create"@),
        docker_create(s).len() == 1 + settings_length(s) + one_if(s.privileged),
        ends_with(docker_create(s), s),
{
    broadcast use {lemma_says_concat, lemma_names_concat, lemma_begins_concat, lemma_ends};

    assert(begins(seq!["create"@], "create"@)) by {
        reveal(begins);
    }
    lemma_segments(s);
    lemma_lengths(s);
}

/// The Apple runtime is told all the settings that it has.
#[verifier::rlimit(40)]
pub proof fn lemma_apple_tells(s: ContainerSpecView)
    ensures
        tells_settings(apple_container(s), s),
        says_each(apple_container(s), "--network-alias"@, s.network_aliases),
        s.rm == Some(true) ==> names_word(apple_container(s), "--rm"@),
        apple_container(s).len() == settings_length(s) + two_each(s.network_aliases) + one_if(s.rm),
        ends_with(apple_container(s), s),
        apple_run(s) == seq!["run"@, "--detach"@] + apple_container(s),
        apple_create(s) == seq!["create"@] + apple_container(s),
{
    broadcast use {lemma_says_concat, lemma_names_concat, lemma_ends};

    lemma_segments(s);
    lemma_lengths(s);
}

/// Hardening in the Docker form says all that there is to say, and nothing else.
pub proof fn lemma_hardening_tells(p: ProfileView)
    ensures
        p.read_only_root ==> names_word(docker_security(p), "--read-only"@),
        p.seccomp matches Some(path) ==> says(
            docker_security(p),
            "--security-opt"@,
            "seccomp="@ + path,
        ),
        p.no_new_privileges ==> says(
            docker_security(p),
            "--security-opt"@,
            "no-new-privileges:true"@,
        ),
        docker_security(p).len() == one_if(Some(p.read_only_root)) + two_if(p.seccomp is Some)
            + two_if(p.no_new_privileges),
{
    broadcast use {lemma_says_concat, lemma_names_concat};

    lemma_flag_says("--read-only"@, Seq::empty());
    if let Some(path) = p.seccomp {
        lemma_flag_says("--security-opt"@, "seccomp="@ + path);
    }
    lemma_flag_says("--security-opt"@, "no-new-privileges:true"@);
    reveal(two_if);
    reveal(one_if);
}

} // verus!

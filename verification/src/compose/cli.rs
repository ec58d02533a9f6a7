//! The command line, and what commands print.
use vstd::multiset::*;
use vstd::prelude::*;
use vstd::string::*;
use crate::compose::engine::ComposeEngine;
use crate::compose::error::{ComposeError, ErrorView, Result};
use crate::compose::maps::{from_pairs, position, OrderedMap};
use crate::compose::outputs::{assign_all, assignments, info_views};
use crate::compose::types::{
    copy_list, keys_of, ContainerInfo, ContainerInfoView, ContainerLogs,
};
use crate::compose::yaml::{json_form, parse, render_json, yaml_parsed};
use crate::text::{
    before, chars_of, join3, join5, lemma_precedes_total, lemma_precedes_transitive,
    lemma_texts_push, lines, lines_of, precedes, same, texts,
};

verus! {

broadcast use lemma_texts_push;

// ---- commands ----

/// A call of the program.
#[derive(Debug)]
pub struct Cli {
    pub files: Vec<String>,
    pub project_name: Option<String>,
    pub env_files: Vec<String>,
    pub command: Commands,
}

/// What to do.
#[derive(Debug)]
pub enum Commands {
    Up(UpArgs),
    Down(DownArgs),
    Start(ServiceArgs),
    Stop(ServiceArgs),
    Restart(ServiceArgs),
    Ps(PsArgs),
    Logs(LogsArgs),
    Exec(ExecArgs),
    Config(ConfigArgs),
}

#[derive(Debug)]
pub struct UpArgs {
    pub detach: bool,
    pub build: bool,
    pub remove_orphans: bool,
    pub services: Vec<String>,
}

#[derive(Debug)]
pub struct DownArgs {
    pub volumes: bool,
    pub remove_orphans: bool,
    pub services: Vec<String>,
}

#[derive(Debug)]
pub struct ServiceArgs {
    pub services: Vec<String>,
}

#[derive(Debug)]
pub struct PsArgs {
    pub all: bool,
    pub services: Vec<String>,
}

#[derive(Debug)]
pub struct LogsArgs {
    pub follow: bool,
    pub tail: Option<u32>,
    pub timestamps: bool,
    pub services: Vec<String>,
}

#[derive(Debug)]
pub struct ExecArgs {
    pub service: String,
    pub cmd: Vec<String>,
    pub user: Option<String>,
    pub workdir: Option<String>,
    pub env: Vec<String>,
}

#[derive(Debug)]
pub struct ConfigArgs {
    pub format: String,
    pub resolve: bool,
}

/// The environment for a command: the `key=value` settings, if there are any.
pub fn exec_env(settings: &Vec<String>) -> (r: Option<OrderedMap<String>>)
    ensures
        match r {
            Some(m) => m.pairs().len() > 0 && m.pairs() == from_pairs(
                assignments(texts(settings@)),
            ),
            None => from_pairs(assignments(texts(settings@))).len() == 0,
        },
{
    let m = assign_all(settings);
    if m.len() == 0 {
        None
    } else {
        Some(m)
    }
}

// ---- services ----

impl ComposeEngine {
    /// The services to work on: those named, or else all, in the order of the
    /// project.
    pub fn named_or_all(&self, services: &Vec<String>) -> (r: Vec<String>)
        ensures
            texts(r@) == if services@.len() > 0 {
                texts(services@)
            } else {
                keys_of(self.spec.services.entries())
            },
    {
        if services.len() > 0 {
            copy_list(services)
        } else {
            let r = self.spec.services.keys();
            assert(texts(r@) =~= keys_of(self.spec.services.entries()));
            r
        }
    }

    /// A command runs only in a service of the project.
    pub fn require_service(&self, service: &str) -> (r: Result<()>)
        ensures
            match r {
                Ok(_) => position(self.spec.services.entries(), service@) is Some,
                Err(e) => position(self.spec.services.entries(), service@) is None && e@
                    == ErrorView::NotFound(service@),
            },
    {
        if self.spec.services.contains_key(service) {
            Ok(())
        } else {
            Err(ComposeError::NotFound(service.to_owned()))
        }
    }
}

/// What a container wrote, in one text.
pub fn log_text(logs: &ContainerLogs) -> (r: String)
    ensures
        r@ == "STDOUT:\n"@ + logs.stdout@ + "\nSTDERR:\n"@ + logs.stderr@,
{
    let mut out = join3("STDOUT:\n", logs.stdout.as_str(), "\nSTDERR:\n");
    out.append(logs.stderr.as_str());
    out
}

// ---- tables ----

/// A text filled up with spaces to a width.
pub open spec fn padded(s: Seq<char>, width: nat) -> Seq<char>
    decreases width - s.len(),
{
    if s.len() >= width {
        s
    } else {
        padded(s.push(' '), width)
    }
}

fn pad(s: &str, width: usize) -> (r: String)
    ensures
        r@ == padded(s@, width as nat),
{
    proof {
        reveal_strlit(" ");
    }
    let mut n: usize = chars_of(s).len();
    let mut out = s.to_owned();
    while n < width
        invariant
            n == out@.len(),
            padded(s@, width as nat) == padded(out@, width as nat),
            " "@ =~= seq![' '],
        decreases width - n,
    {
        let ghost here = out@;
        out.append(" ");
        assert(out@ =~= here.push(' '));
        n += 1;
    }
    out
}

/// A line of the log of a service.
pub open spec fn log_line(name: Seq<char>, line: Seq<char>) -> Seq<char> {
    padded(name, 12) + " | "@ + line
}

/// The lines of the log of a service, each behind its name.
pub fn log_lines(name: &str, log: &str) -> (r: Vec<String>)
    ensures
        texts(r@) == lines_of(log@).map_values(|l: Seq<char>| log_line(name@, l)),
{
    let ls = lines(log);
    let ghost all = lines_of(log@).map_values(|l: Seq<char>| log_line(name@, l));
    let mut out: Vec<String> = Vec::new();
    let mut i: usize = 0;
    assert(texts(ls@).len() == ls@.len());
    assert(texts(out@) =~= all.take(0));
    while i < ls.len()
        invariant
            i <= ls@.len(),
            texts(ls@) == lines_of(log@),
            all == lines_of(log@).map_values(|l: Seq<char>| log_line(name@, l)),
            texts(out@) == all.take(i as int),
        decreases ls@.len() - i,
    {
        proof {
            assert(texts(ls@)[i as int] == ls@[i as int]@);
            assert(all[i as int] == log_line(name@, ls@[i as int]@));
            assert(all.take(i + 1) =~= all.take(i as int).push(all[i as int]));
        }
        out.push(join3(pad(name, 12).as_str(), " | ", ls[i].as_str()));
        i += 1;
    }
    assert(all.take(i as int) =~= all);
    out
}

/// A row of three columns.
pub open spec fn row(a: Seq<char>, b: Seq<char>, c: Seq<char>) -> Seq<char> {
    padded(a, 24) + "  "@ + padded(b, 12) + "  "@ + padded(c, 36)
}

fn write_row(a: &str, b: &str, c: &str) -> (r: String)
    ensures
        r@ == row(a@, b@, c@),
{
    join5(pad(a, 24).as_str(), "  ", pad(b, 12).as_str(), "  ", pad(c, 36).as_str())
}

/// The table of services.
pub open spec fn ps_rows(infos: Seq<ContainerInfoView>) -> Seq<Seq<char>> {
    seq![
        row("SERVICE"@, "STATUS"@, "CONTAINER"@),
        "----------------------------------------------------------------------------"@,
    ] + infos.map_values(|i: ContainerInfoView| row(i.name, i.status, i.id))
}

/// The table of services, line by line.
pub fn ps_table(infos: &Vec<ContainerInfo>) -> (r: Vec<String>)
    ensures
        texts(r@) == ps_rows(info_views(infos@)),
{
    let ghost all = ps_rows(info_views(infos@));
    let mut out: Vec<String> = vec![
        write_row("SERVICE", "STATUS", "CONTAINER"),
        "----------------------------------------------------------------------------".to_owned(),
    ];
    let mut i: usize = 0;
    assert(texts(out@) =~= all.take(2));
    while i < infos.len()
        invariant
            i <= infos@.len(),
            all == ps_rows(info_views(infos@)),
            texts(out@) == all.take(i + 2),
        decreases infos@.len() - i,
    {
        proof {
            let v = infos@[i as int]@;
            assert(all[i + 2] == row(v.name, v.status, v.id));
            assert(all.take(i + 3) =~= all.take(i + 2).push(all[i + 2]));
        }
        out.push(
            write_row(infos[i].name.as_str(), infos[i].status.as_str(), infos[i].id.as_str()),
        );
        i += 1;
    }
    assert(all.take(i + 2) =~= all);
    out
}

/// Whether texts stand in alphabetical order.
pub open spec fn is_sorted(v: Seq<Seq<char>>) -> bool {
    forall|i: int, j: int| 0 <= i < j < v.len() ==> !precedes(#[trigger] v[j], #[trigger] v[i])
}

/// Puts texts in alphabetical order.
pub fn sorted(names: Vec<String>) -> (r: Vec<String>)
    ensures
        is_sorted(texts(r@)),
        texts(r@).to_multiset() == texts(names@).to_multiset(),
{
    let ghost all = texts(names@);
    let mut out: Vec<String> = Vec::new();
    let mut i: usize = 0;
    proof {
        assert(texts(out@) =~= all.take(0));
    }
    while i < names.len()
        invariant
            i <= names@.len(),
            all == texts(names@),
            is_sorted(texts(out@)),
            texts(out@).to_multiset() == all.take(i as int).to_multiset(),
        decreases names@.len() - i,
    {
        let ghost sorted_before = texts(out@);
        let mut j: usize = 0;
        while j < out.len() && !before(names[i].as_str(), out[j].as_str())
            invariant
                j <= out@.len(),
                i < names@.len(),
                sorted_before == texts(out@),
                forall|k: int| 0 <= k < j ==> !precedes(names@[i as int]@, #[trigger] sorted_before[k]),
            decreases out@.len() - j,
        {
            assert(sorted_before[j as int] == out@[j as int]@);
            j += 1;
        }
        let ghost old_out = out@;
        let ghost x = names@[i as int]@;
        out.insert(j, names[i].clone());
        proof {
            let now = texts(out@);
            assert(now =~= sorted_before.insert(j as int, x));
            if j < sorted_before.len() {
                assert(sorted_before[j as int] == old_out[j as int]@);
            }
            assert(is_sorted(now)) by {
                assert forall|a: int, b: int| 0 <= a < b < now.len() implies !precedes(
                    #[trigger] now[b],
                    #[trigger] now[a],
                ) by {
                    lemma_insert_keeps_order(sorted_before, j as int, x, a, b);
                }
            }
            now.to_multiset_ensures();
            assert(now.remove(j as int) =~= sorted_before);
            assert(now[j as int] == x && now.contains(x));
            assert(now.to_multiset() =~= sorted_before.to_multiset().insert(x));
            assert(all.take(i + 1) =~= all.take(i as int).push(x));
            all.take(i as int).to_multiset_ensures();
        }
        i += 1;
    }
    assert(all.take(i as int) =~= all);
    out
}

/// A text put between those that do not follow it and the first that does keeps
/// the order.
proof fn lemma_insert_keeps_order(v: Seq<Seq<char>>, j: int, x: Seq<char>, a: int, b: int)
    requires
        is_sorted(v),
        0 <= j <= v.len(),
        forall|k: int| 0 <= k < j ==> !precedes(x, #[trigger] v[k]),
        j < v.len() ==> precedes(x, v[j]),
        0 <= a < b < v.len() + 1,
    ensures
        !precedes(v.insert(j, x)[b], v.insert(j, x)[a]),
{
    let w = v.insert(j, x);
    if b < j {
        assert(w[a] == v[a] && w[b] == v[b]);
    } else if b == j {
        assert(w[a] == v[a] && w[b] == x);
    } else if a < j {
        assert(w[a] == v[a] && w[b] == v[b - 1]);
    } else if a > j {
        assert(w[a] == v[a - 1] && w[b] == v[b - 1]);
    } else {
        assert(w[a] == x && w[b] == v[b - 1]);
        let y = v[b - 1];
        lemma_precedes_total(x, v[j]);
        lemma_precedes_total(y, x);
        if precedes(y, x) {
            lemma_precedes_transitive(y, x, v[j]);
            if b - 1 != j {
                assert(!precedes(v[b - 1], v[j]));
            } else {
                lemma_precedes_total(y, y);
            }
        }
    }
}

/// The JSON form of what a YAML text describes.
pub open spec fn as_json(yaml: Seq<char>) -> std::result::Result<Seq<char>, ErrorView> {
    match yaml_parsed(yaml) {
        Err(e) => Err(ErrorView::ParseError(e)),
        Ok(v) => match json_form(v) {
            Ok(text) => Ok(text),
            Err(e) => Err(ErrorView::JsonError(e)),
        },
    }
}

/// A configuration, given in YAML, in the format that is asked for: JSON, or else
/// as it is.
pub open spec fn config_form(format: Seq<char>, yaml: Seq<char>) -> std::result::Result<
    Seq<char>,
    ErrorView,
> {
    if format == "json"@ {
        as_json(yaml)
    } else {
        Ok(yaml)
    }
}

/// Writes a configuration, given in YAML, in the format that is asked for.
pub fn config_text(format: &str, yaml: String) -> (r: Result<String>)
    ensures
        match r {
            Ok(text) => config_form(format@, yaml@) == Ok::<Seq<char>, ErrorView>(text@),
            Err(e) => config_form(format@, yaml@) == Err::<Seq<char>, ErrorView>(e@),
        },
{
    if same(format, "json") {
        match parse(yaml.as_str()) {
            Err(e) => Err(ComposeError::ParseError(e)),
            Ok(v) => match render_json(&v) {
                Ok(text) => Ok(text),
                Err(e) => Err(ComposeError::JsonError(e)),
            },
        }
    } else {
        Ok(yaml)
    }
}

} // verus!

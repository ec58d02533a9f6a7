//! Finding a backend, and reading what its commands answer.
use vstd::prelude::*;
use vstd::string::*;
use vstd::utf8::*;
use crate::compose::backend::{
    candidates, platform_candidates, probe_views, word_texts, BackendProbeResult, ProbeView,
};
use crate::compose::error::{ComposeError, ErrorView, Result};
use crate::compose::json::{
    json_entries, json_items, json_of, json_opened, json_parsed, open, parse, Json, JsonView,
};
use crate::compose::maps::{lemma_position, lemma_position_is, lookup};
use crate::compose::types::ImageInfo;
use crate::platform::Platform;
use crate::text::{
    contains_text, decimal, decimal_text, i32_of, join2, join3, join5, lemma_texts_push, lines,
    lines_of, occurs, parse_i32, parse_u64, pieces, same, signed_decimal, signed_decimal_text,
    split, texts, trim, trimmed, u64_of,
};

verus! {

broadcast use lemma_texts_push;

// ---- which backends to try ----

/// The names in a list of texts: each without the white space around it, and
/// empty ones left out.
pub open spec fn names_in(parts: Seq<Seq<char>>) -> Seq<Seq<char>>
    decreases parts.len(),
{
    if parts.len() == 0 {
        Seq::empty()
    } else {
        let before = names_in(parts.drop_last());
        if trimmed(parts.last()).len() == 0 {
            before
        } else {
            before.push(trimmed(parts.last()))
        }
    }
}

/// Reads a list of backends with commas between them.
pub fn priority_list(raw: &str) -> (r: Vec<String>)
    ensures
        texts(r@) == names_in(pieces(raw@, ',')),
{
    let parts = split(raw, ',');
    let ghost all = texts(parts@);
    let mut out: Vec<String> = Vec::new();
    let mut i: usize = 0;
    assert(all.take(0) =~= Seq::empty());
    assert(texts(out@) =~= Seq::empty());
    while i < parts.len()
        invariant
            i <= parts@.len(),
            all == texts(parts@),
            texts(out@) == names_in(all.take(i as int)),
        decreases parts@.len() - i,
    {
        proof {
            assert(all.take(i + 1).drop_last() =~= all.take(i as int));
            assert(all.take(i + 1).last() == parts@[i as int]@);
        }
        let name = trim(parts[i].as_str());
        if !name.as_str().is_empty() {
            out.push(name);
        }
        i += 1;
    }
    assert(all.take(i as int) =~= all);
    out
}

/// The backends to try: those the user set, or else those of the platform.
pub open spec fn to_probe(setting: Option<Seq<char>>, platform: Platform) -> Seq<Seq<char>> {
    match setting {
        Some(raw) => if names_in(pieces(raw, ',')).len() > 0 {
            names_in(pieces(raw, ','))
        } else {
            candidates(platform)
        },
        None => candidates(platform),
    }
}

/// The backends to try. A setting that names none counts as no setting.
pub fn backends_to_probe(setting: Option<&str>, platform: Platform) -> (r: Vec<String>)
    ensures
        texts(r@) == to_probe(
            match setting {
                Some(s) => Some(s@),
                None => None,
            },
            platform,
        ),
{
    if let Some(raw) = setting {
        let names = priority_list(raw);
        assert(texts(names@).len() == names@.len());
        if names.len() > 0 {
            return names;
        }
    }
    let names = platform_candidates(platform);
    let ghost all = candidates(platform);
    let mut out: Vec<String> = Vec::new();
    let mut i: usize = 0;
    assert(texts(out@) =~= all.take(0));
    while i < names.len()
        invariant
            i <= names@.len(),
            all == word_texts(names@),
            texts(out@) == all.take(i as int),
        decreases names@.len() - i,
    {
        assert(all.take(i + 1) =~= all.take(i as int).push(names@[i as int]@));
        out.push(names[i].to_owned());
        i += 1;
    }
    assert(all.take(i as int) =~= all);
    out
}

// ---- the search ----

/// How probing for one backend went.
pub enum ProbeOutcome {
    Available,
    Failed(String),
    TimedOut,
}

/// The result that stands for an outcome.
pub open spec fn outcome_view(name: Seq<char>, outcome: ProbeOutcome) -> ProbeView {
    match outcome {
        ProbeOutcome::Available => ProbeView { name, available: true, reason: Seq::empty() },
        ProbeOutcome::Failed(reason) => ProbeView { name, available: false, reason: reason@ },
        ProbeOutcome::TimedOut => ProbeView { name, available: false, reason: "probe timed out"@ },
    }
}

/// The result that stands for an outcome.
pub fn probe_result(name: &str, outcome: ProbeOutcome) -> (r: BackendProbeResult)
    ensures
        r@ == outcome_view(name@, outcome),
{
    match outcome {
        ProbeOutcome::Available => BackendProbeResult {
            name: name.to_owned(),
            available: true,
            reason: String::new(),
        },
        ProbeOutcome::Failed(reason) => BackendProbeResult {
            name: name.to_owned(),
            available: false,
            reason,
        },
        ProbeOutcome::TimedOut => BackendProbeResult {
            name: name.to_owned(),
            available: false,
            reason: "probe timed out".to_owned(),
        },
    }
}

/// A search through a list of backends.
pub struct Detection {
    names: Vec<String>,
    results: Vec<BackendProbeResult>,
}

impl Detection {
    /// The backends to try, in order.
    pub closed spec fn names(self) -> Seq<Seq<char>> {
        texts(self.names@)
    }

    /// What was found out so far.
    pub closed spec fn results(self) -> Seq<ProbeView> {
        probe_views(self.results@)
    }

    /// Each result so far belongs to the backend at its place, which was not
    /// available.
    pub open spec fn wf(self) -> bool {
        &&& self.results().len() <= self.names().len()
        &&& forall|i: int|
            0 <= i < self.results().len() ==> (#[trigger] self.results()[i]).name
                == self.names()[i] && !self.results()[i].available
    }

    /// A search that has tried nothing yet.
    pub fn new(names: Vec<String>) -> (r: Detection)
        ensures
            r.wf(),
            r.names() == texts(names@),
            r.results() == Seq::<ProbeView>::empty(),
    {
        let r = Detection { names, results: Vec::new() };
        assert(r.results() =~= Seq::<ProbeView>::empty());
        r
    }

    /// The backend to try next.
    pub fn candidate(&self) -> (r: Option<String>)
        requires
            self.wf(),
        ensures
            match r {
                Some(name) => self.results().len() < self.names().len() && name@
                    == self.names()[self.results().len() as int],
                None => self.results().len() == self.names().len(),
            },
    {
        if self.results.len() < self.names.len() {
            Some(self.names[self.results.len()].clone())
        } else {
            None
        }
    }

    /// Takes note that the backend tried last was not available.
    pub fn record(&mut self, outcome: ProbeOutcome)
        requires
            old(self).wf(),
            old(self).results().len() < old(self).names().len(),
            !(outcome is Available),
        ensures
            final(self).wf(),
            final(self).names() == old(self).names(),
            final(self).results() == old(self).results().push(
                outcome_view(old(self).names()[old(self).results().len() as int], outcome),
            ),
    {
        let ghost before = self.results@;
        let ghost views = self.results();
        let n: usize = self.results.len();
        let result = probe_result(self.names[n].as_str(), outcome);
        self.results.push(result);
        proof {
            assert(self.results() =~= probe_views(before).push(result@));
            assert forall|i: int| 0 <= i < self.results().len() implies (
            #[trigger] self.results()[i]).name == self.names()[i]
                && !self.results()[i].available by {
                if i < views.len() {
                    assert(self.results()[i] == views[i]);
                }
            }
        }
    }

    /// The error after a search in vain.
    pub fn into_error(self) -> (r: ComposeError)
        ensures
            r@ == (ErrorView::NoBackendFound { probed: self.results() }),
    {
        ComposeError::NoBackendFound { probed: self.results }
    }
}

/// A search in vain has tried every backend, each once and in order.
pub proof fn lemma_search_in_vain(d: Detection)
    requires
        d.wf(),
        d.results().len() == d.names().len(),
    ensures
        d.results().map_values(|p: ProbeView| p.name) == d.names(),
        forall|i: int| 0 <= i < d.results().len() ==> !(#[trigger] d.results()[i]).available,
{
    assert(d.results().map_values(|p: ProbeView| p.name) =~= d.names());
}

// ---- how to probe ----

/// How a backend is probed.
#[derive(Debug, Clone, Copy, PartialEq, Eq, Structural)]
pub enum ProbePlan {
    /// The program must be there and tell its version.
    Version,
    /// The program must be there.
    Binary,
    /// The program must be there and have a machine running.
    Machine,
    /// One of two programs must be there.
    OrbStack,
    /// The program must say that it is running, and Docker's must be there.
    Colima,
    /// The program must have an instance running.
    Lima,
    Unknown,
}

/// How a backend is probed on a platform, by name.
pub open spec fn plan_for(name: Seq<char>, platform: Platform) -> ProbePlan {
    if name == "apple/container"@ {
        ProbePlan::Version
    } else if name == "podman"@ {
        if platform == Platform::MacOs {
            ProbePlan::Machine
        } else {
            ProbePlan::Binary
        }
    } else if name == "orbstack"@ {
        ProbePlan::OrbStack
    } else if name == "colima"@ {
        ProbePlan::Colima
    } else if name == "lima"@ {
        ProbePlan::Lima
    } else if name == "nerdctl"@ || name == "docker"@ {
        ProbePlan::Binary
    } else {
        ProbePlan::Unknown
    }
}

/// How a backend is probed on a platform, by name.
pub fn probe_plan(name: &str, platform: Platform) -> (r: ProbePlan)
    ensures
        r == plan_for(name@, platform),
{
    if same(name, "apple/container") {
        ProbePlan::Version
    } else if same(name, "podman") {
        match platform {
            Platform::MacOs => ProbePlan::Machine,
            _ => ProbePlan::Binary,
        }
    } else if same(name, "orbstack") {
        ProbePlan::OrbStack
    } else if same(name, "colima") {
        ProbePlan::Colima
    } else if same(name, "lima") {
        ProbePlan::Lima
    } else if same(name, "nerdctl") || same(name, "docker") {
        ProbePlan::Binary
    } else {
        ProbePlan::Unknown
    }
}

/// What is said of a program that is not there.
pub fn not_found_reason(program: &str) -> (r: String)
    ensures
        r@ == program@ + " not found"@,
{
    join2(program, " not found")
}

/// Why a probe for a backend came to nothing, where no command told.
#[derive(Debug)]
pub enum ProbeFailure {
    /// Asking for the version failed, with what the system said.
    VersionCall(String),
    MachineList,
    MachineOutput,
    OrbStackMissing,
    ColimaStatus,
    ColimaStopped,
    ColimaDocker,
    LimaList,
    LimaStopped,
    Unknown,
}

/// What is said of a failed probe.
pub open spec fn failure_text(f: ProbeFailure) -> Seq<char> {
    match f {
        ProbeFailure::VersionCall(e) => "apple/container --version failed: "@ + e@,
        ProbeFailure::MachineList => "podman machine list failed"@,
        ProbeFailure::MachineOutput => "invalid podman output"@,
        ProbeFailure::OrbStackMissing => "orbstack not found"@,
        ProbeFailure::ColimaStatus => "colima status failed"@,
        ProbeFailure::ColimaStopped => "colima not running"@,
        ProbeFailure::ColimaDocker => "docker cli not found for colima"@,
        ProbeFailure::LimaList => "limactl list failed"@,
        ProbeFailure::LimaStopped => "no running lima instance"@,
        ProbeFailure::Unknown => "unknown backend"@,
    }
}

impl ProbeFailure {
    /// What is said of the failure.
    pub fn reason(&self) -> (r: String)
        ensures
            r@ == failure_text(*self),
    {
        match self {
            ProbeFailure::VersionCall(e) => join2("apple/container --version failed: ", e.as_str()),
            ProbeFailure::MachineList => "podman machine list failed".to_owned(),
            ProbeFailure::MachineOutput => "invalid podman output".to_owned(),
            ProbeFailure::OrbStackMissing => "orbstack not found".to_owned(),
            ProbeFailure::ColimaStatus => "colima status failed".to_owned(),
            ProbeFailure::ColimaStopped => "colima not running".to_owned(),
            ProbeFailure::ColimaDocker => "docker cli not found for colima".to_owned(),
            ProbeFailure::LimaList => "limactl list failed".to_owned(),
            ProbeFailure::LimaStopped => "no running lima instance".to_owned(),
            ProbeFailure::Unknown => "unknown backend".to_owned(),
        }
    }
}

/// What is said of a program that failed to tell its version.
pub fn version_failure(code: Option<i32>, stderr: &str) -> (r: String)
    ensures
        r@ == "apple/container --version exited "@ + signed_decimal(
            match code {
                Some(c) => c as int,
                None => -1,
            },
        ) + ": "@ + trimmed(stderr@),
{
    let c: i32 = match code {
        Some(c) => c,
        None => -1,
    };
    let mut out = join3(
        "apple/container --version exited ",
        signed_decimal_text(c as i64).as_str(),
        ": ",
    );
    out.append(trim(stderr).as_str());
    out
}

/// Whether Colima says that it is running.
pub fn colima_running(stdout: &str) -> (r: bool)
    ensures
        r == occurs(stdout@, "running"@),
{
    contains_text(stdout, "running")
}

/// The member of an object under a key.
pub open spec fn member(v: JsonView, key: Seq<char>) -> Option<JsonView> {
    match v {
        JsonView::Object(entries) => lookup(entries, key),
        _ => None,
    }
}

fn find_member<'a>(j: &Json<'a>, key: &str) -> (r: Option<&'a serde_json::Value>)
    ensures
        match r {
            Some(v) => member(json_opened(*j), key@) == Some(json_of(*v)),
            None => member(json_opened(*j), key@) is None,
        },
{
    match j {
        Json::Object(entries) => {
            let ghost all = json_entries(entries@);
            let mut i: usize = 0;
            while i < entries.len()
                invariant
                    i <= entries@.len(),
                    all == json_entries(entries@),
                    json_opened(*j) == JsonView::Object(all),
                    forall|k: int| 0 <= k < i ==> (#[trigger] all[k]).0 != key@,
                decreases entries@.len() - i,
            {
                let (name, value) = entries[i];
                assert(all[i as int] == (name@, json_of(*value)));
                if same(name.as_str(), key) {
                    proof {
                        lemma_position_is(all, key@, i as int);
                    }
                    return Some(value);
                }
                i += 1;
            }
            proof {
                lemma_position(all, key@);
            }
            None
        },
        _ => None,
    }
}

/// Whether a machine of Podman is running.
pub open spec fn machine_running(v: JsonView) -> bool {
    member(v, "Running"@) == Some(JsonView::Bool(true))
}

/// Whether a machine of a list is running.
pub open spec fn any_running(items: Seq<JsonView>) -> bool
    decreases items.len(),
{
    items.len() > 0 && (any_running(items.drop_last()) || machine_running(items.last()))
}

/// Why Podman's machines will not do, if so.
pub open spec fn machines_problem(stdout: Seq<char>) -> Option<Seq<char>> {
    match json_parsed(stdout) {
        Err(_) => Some("invalid podman output"@),
        Ok(JsonView::Array(items)) => if any_running(items) {
            None
        } else {
            Some("no podman machine running"@)
        },
        Ok(_) => Some("no podman machine running"@),
    }
}

/// Reads the list of Podman's machines: one of them must be running.
pub fn check_machines(stdout: &str) -> (r: std::result::Result<(), String>)
    ensures
        match r {
            Ok(_) => machines_problem(stdout@) is None,
            Err(reason) => machines_problem(stdout@) == Some(reason@),
        },
{
    match parse(stdout) {
        Err(_) => Err("invalid podman output".to_owned()),
        Ok(v) => {
            if let Json::Array(items) = open(&v) {
                let ghost all = json_items(items@);
                let mut any: bool = false;
                let mut i: usize = 0;
                while i < items.len()
                    invariant
                        i <= items@.len(),
                        all == json_items(items@),
                        any == any_running(all.take(i as int)),
                    decreases items@.len() - i,
                {
                    proof {
                        assert(all.take(i + 1).drop_last() =~= all.take(i as int));
                        assert(all.take(i + 1).last() == all[i as int]);
                    }
                    let j = open(&items[i]);
                    let running: bool = match find_member(&j, "Running") {
                        Some(m) => match open(m) {
                            Json::Bool(b) => b,
                            _ => false,
                        },
                        None => false,
                    };
                    any = any || running;
                    i += 1;
                }
                assert(all.take(i as int) =~= all);
                if any {
                    return Ok(());
                }
            }
            Err("no podman machine running".to_owned())
        },
    }
}

/// Whether a line tells of an instance of Lima that is running.
pub open spec fn tells_running(line: Seq<char>) -> bool {
    match json_parsed(line) {
        Ok(v) => member(v, "status"@) == Some(JsonView::String("Running"@)),
        Err(_) => false,
    }
}

/// The first line that tells of a running instance.
pub open spec fn first_running(ls: Seq<Seq<char>>) -> Option<Seq<char>>
    decreases ls.len(),
{
    if ls.len() == 0 {
        None
    } else if tells_running(ls[0]) {
        Some(ls[0])
    } else {
        first_running(ls.skip(1))
    }
}

/// The name of the first instance of Lima that is running.
pub open spec fn running_instance(stdout: Seq<char>) -> Option<Seq<char>> {
    match first_running(lines_of(stdout)) {
        Some(line) => match json_parsed(line) {
            Ok(v) => match member(v, "name"@) {
                Some(JsonView::String(name)) => Some(name),
                _ => None,
            },
            Err(_) => None,
        },
        None => None,
    }
}

/// Reads the instances of Lima, one object to a line.
pub fn lima_instance(stdout: &str) -> (r: Option<String>)
    ensures
        match r {
            Some(name) => running_instance(stdout@) == Some(name@),
            None => running_instance(stdout@) is None,
        },
{
    let ls = lines(stdout);
    let ghost all = texts(ls@);
    let mut i: usize = 0;
    assert(all.skip(0) =~= all);
    while i < ls.len()
        invariant
            i <= ls@.len(),
            all == texts(ls@),
            all == lines_of(stdout@),
            first_running(all) == first_running(all.skip(i as int)),
        decreases ls@.len() - i,
    {
        proof {
            assert(all.skip(i as int)[0] == ls@[i as int]@);
            assert(all.skip(i as int).skip(1) =~= all.skip(i + 1));
        }
        if let Ok(v) = parse(ls[i].as_str()) {
            let j = open(&v);
            let running: bool = match find_member(&j, "status") {
                Some(m) => match open(m) {
                    Json::String(s) => same(s.as_str(), "Running"),
                    _ => false,
                },
                None => false,
            };
            if running {
                return match find_member(&j, "name") {
                    Some(m) => match open(m) {
                        Json::String(name) => Some(name.clone()),
                        _ => None,
                    },
                    None => None,
                };
            }
        }
        i += 1;
    }
    None
}

// ---- commands ----

/// How many seconds a command may take, where nothing else is set.
pub const DEFAULT_TIMEOUT_SECS: u64 = 300;

/// How many seconds a command may take.
pub fn op_timeout_secs(setting: Option<&str>) -> (r: u64)
    ensures
        r == match setting {
            Some(s) => match u64_of(s@) {
                Some(n) => n,
                None => DEFAULT_TIMEOUT_SECS,
            },
            None => DEFAULT_TIMEOUT_SECS,
        },
{
    match setting {
        Some(s) => match parse_u64(s) {
            Some(n) => n,
            None => DEFAULT_TIMEOUT_SECS,
        },
        None => DEFAULT_TIMEOUT_SECS,
    }
}

/// The error of a command that did not end in time.
pub fn hung_error(program: &str, secs: u64) -> (r: ComposeError)
    ensures
        r@ == (ErrorView::BackendError {
            code: -1i32,
            message: "container CLI `"@ + program@ + "` hung for "@ + decimal(secs as nat)
                + "s; aborted (configure via PERRY_CONTAINER_OP_TIMEOUT_SECS)"@,
        }),
{
    ComposeError::BackendError {
        code: -1,
        message: join5(
            "container CLI `",
            program,
            "` hung for ",
            decimal_text(secs).as_str(),
            "s; aborted (configure via PERRY_CONTAINER_OP_TIMEOUT_SECS)",
        ),
    }
}

/// How many bytes of a command's error output are kept.
pub const STDERR_LIMIT: usize = 4096;

/// An error output cut to its limit, with a note of how long it was.
pub open spec fn cut_short(stderr: &str) -> Seq<char> {
    if stderr.len() > STDERR_LIMIT {
        decode_utf8(stderr.spec_bytes().take(STDERR_LIMIT as int)) + "... [truncated, "@ + decimal(
            stderr.len() as nat,
        ) + " bytes total]"@
    } else {
        stderr@
    }
}

/// What becomes of a command that has ended. Where it failed, its error output
/// is kept up to the limit, which must not fall inside a character.
pub fn command_result(success: bool, code: Option<i32>, stdout: String, stderr: &str) -> (r: Result<
    (String, String),
>)
    requires
        !success && stderr.len() > STDERR_LIMIT ==> stderr.is_char_boundary(STDERR_LIMIT),
    ensures
        match r {
            Ok(p) => success && p.0@ == stdout@ && p.1@ == stderr@,
            Err(e) => !success && e@ == (ErrorView::BackendError {
                code: match code {
                    Some(c) => c,
                    None => -1i32,
                },
                message: cut_short(stderr),
            }),
        },
{
    if success {
        return Ok((stdout, stderr.to_owned()));
    }
    let code: i32 = match code {
        Some(c) => c,
        None => -1,
    };
    let n: usize = stderr.len();
    let message = if n > STDERR_LIMIT {
        let (head, _tail) = stderr.split_at(STDERR_LIMIT);
        proof {
            encode_utf8_decode_utf8(head@);
            assert(stderr.spec_bytes().take(STDERR_LIMIT as int) =~= head.spec_bytes());
        }
        let mut out = join3(head, "... [truncated, ", decimal_text(n as u64).as_str());
        out.append(" bytes total]");
        out
    } else {
        stderr.to_owned()
    };
    Err(ComposeError::BackendError { code, message })
}

/// The exit code that a wait printed; -1 where it printed none.
pub fn wait_code(stdout: &str) -> (r: i32)
    ensures
        r == match i32_of(trimmed(stdout@)) {
            Some(n) => n,
            None => -1i32,
        },
{
    match parse_i32(trim(stdout).as_str()) {
        Some(n) => n,
        None => -1,
    }
}

/// The first of the images that a reference stands for.
pub fn first_image(images: Vec<ImageInfo>, reference: &str) -> (r: Result<ImageInfo>)
    ensures
        match r {
            Ok(i) => images@.len() > 0 && i == images@[0],
            Err(e) => images@.len() == 0 && e@ == ErrorView::NotFound(reference@),
        },
{
    let mut images = images;
    if images.len() > 0 {
        Ok(images.remove(0))
    } else {
        Err(ComposeError::NotFound(reference.to_owned()))
    }
}

} // verus!

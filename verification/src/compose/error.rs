//! What can go wrong.
use vstd::prelude::*;
use vstd::string::*;
use crate::compose::backend::{probe_views, BackendProbeResult, ProbeView};
use crate::compose::hash::hex_digit;
use crate::compose::yaml::{bool_string, bool_text};
use crate::text::{
    join, join2, join3, join5, joined, lemma_texts_push, signed_decimal, signed_decimal_text, texts,
};

verus! {

broadcast use lemma_texts_push;

/// A failure. The errors of parsers and of the system are kept as their texts.
#[derive(Debug)]
pub enum ComposeError {
    DependencyCycle { services: Vec<String> },
    ServiceStartupFailed { service: String, message: String },
    BackendError { code: i32, message: String },
    NotFound(String),
    ParseError(String),
    JsonError(String),
    IoError(String),
    ValidationError { message: String },
    VerificationFailed { image: String, reason: String },
    FileNotFound { path: String },
    NoBackendFound { probed: Vec<BackendProbeResult> },
    BackendNotAvailable { name: String, reason: String },
    /// A service asks for what the backend cannot do, and the enforcement mode
    /// does not let it pass. The details name each setting in question.
    EnforcementViolation { backend: String, service: String, details: String },
}

pub type Result<T> = std::result::Result<T, ComposeError>;

/// What a [`ComposeError`] says.
pub enum ErrorView {
    DependencyCycle { services: Seq<Seq<char>> },
    ServiceStartupFailed { service: Seq<char>, message: Seq<char> },
    BackendError { code: i32, message: Seq<char> },
    NotFound(Seq<char>),
    ParseError(Seq<char>),
    JsonError(Seq<char>),
    IoError(Seq<char>),
    ValidationError { message: Seq<char> },
    VerificationFailed { image: Seq<char>, reason: Seq<char> },
    FileNotFound { path: Seq<char> },
    NoBackendFound { probed: Seq<ProbeView> },
    BackendNotAvailable { name: Seq<char>, reason: Seq<char> },
    EnforcementViolation { backend: Seq<char>, service: Seq<char>, details: Seq<char> },
}

impl View for ComposeError {
    type V = ErrorView;

    open spec fn view(&self) -> ErrorView {
        match *self {
            ComposeError::DependencyCycle { services } => ErrorView::DependencyCycle {
                services: texts(services@),
            },
            ComposeError::ServiceStartupFailed {
                service,
                message,
            } => ErrorView::ServiceStartupFailed { service: service@, message: message@ },
            ComposeError::BackendError { code, message } => ErrorView::BackendError {
                code,
                message: message@,
            },
            ComposeError::NotFound(s) => ErrorView::NotFound(s@),
            ComposeError::ParseError(s) => ErrorView::ParseError(s@),
            ComposeError::JsonError(s) => ErrorView::JsonError(s@),
            ComposeError::IoError(s) => ErrorView::IoError(s@),
            ComposeError::ValidationError { message } => ErrorView::ValidationError {
                message: message@,
            },
            ComposeError::VerificationFailed { image, reason } => ErrorView::VerificationFailed {
                image: image@,
                reason: reason@,
            },
            ComposeError::FileNotFound { path } => ErrorView::FileNotFound { path: path@ },
            ComposeError::NoBackendFound { probed } => ErrorView::NoBackendFound {
                probed: probe_views(probed@),
            },
            ComposeError::BackendNotAvailable { name, reason } => ErrorView::BackendNotAvailable {
                name: name@,
                reason: reason@,
            },
            ComposeError::EnforcementViolation {
                backend,
                service,
                details,
            } => ErrorView::EnforcementViolation {
                backend: backend@,
                service: service@,
                details: details@,
            },
        }
    }
}

/// A text in quotation marks, with what needs it escaped.
pub uninterp spec fn quoted(s: Seq<char>) -> Seq<char>;

/// Puts a text in quotation marks; calls the `Debug` formatting of `str`. Which
/// text comes out follows from the text alone.
#[verifier::external_body]
fn quote(s: &str) -> (r: String)
    ensures
        r@ == quoted(s@),
{
    format!("{:?}", s)
}

/// A character in a JSON string: the quotation mark, the backslash and the
/// control characters are escaped, all others stand for themselves.
pub open spec fn json_char(c: char) -> Seq<char> {
    if c == '"' || c == '\\' {
        seq!['\\', c]
    } else if c == '\u{8}' {
        seq!['\\', 'b']
    } else if c == '\u{c}' {
        seq!['\\', 'f']
    } else if c == '\n' {
        seq!['\\', 'n']
    } else if c == '\r' {
        seq!['\\', 'r']
    } else if c == '\t' {
        seq!['\\', 't']
    } else if (c as int) < 32 {
        seq!['\\', 'u', '0', '0', hex_digit(c as int / 16), hex_digit(c as int % 16)]
    } else {
        seq![c]
    }
}

/// The characters of a text in a JSON string.
pub open spec fn json_chars(s: Seq<char>) -> Seq<char>
    decreases s.len(),
{
    if s.len() == 0 {
        Seq::empty()
    } else {
        json_chars(s.drop_last()) + json_char(s.last())
    }
}

/// A text as a JSON string.
pub open spec fn json_string(s: Seq<char>) -> Seq<char> {
    seq!['"'] + json_chars(s) + seq!['"']
}

/// Writes a text as a JSON string; calls the `Display` formatting of
/// `serde_json::Value`, which puts the text in quotation marks and escapes what
/// JSON asks to be escaped, and nothing else.
#[verifier::external_body]
fn write_json_string(s: &str) -> (r: String)
    ensures
        r@ == json_string(s@),
{
    serde_json::Value::String(s.to_owned()).to_string()
}

/// Parts in square brackets, with commas between them.
pub open spec fn bracketed(parts: Seq<Seq<char>>) -> Seq<char> {
    "["@ + joined(parts, ", "@) + "]"@
}

/// A list of texts, each quoted.
pub open spec fn quoted_list(items: Seq<Seq<char>>) -> Seq<char> {
    bracketed(items.map_values(|s: Seq<char>| quoted(s)))
}

fn quote_list(items: &Vec<String>) -> (r: String)
    ensures
        r@ == quoted_list(texts(items@)),
{
    let ghost all = texts(items@).map_values(|s: Seq<char>| quoted(s));
    let mut parts: Vec<String> = Vec::new();
    let mut i: usize = 0;
    assert(texts(parts@) =~= all.take(0));
    while i < items.len()
        invariant
            i <= items@.len(),
            all == texts(items@).map_values(|s: Seq<char>| quoted(s)),
            texts(parts@) == all.take(i as int),
        decreases items@.len() - i,
    {
        assert(all.take(i + 1) =~= all.take(i as int).push(quoted(items@[i as int]@)));
        parts.push(quote(items[i].as_str()));
        i += 1;
    }
    assert(all.take(i as int) =~= all);
    join3("[", join(&parts, ", ").as_str(), "]")
}

/// A probe result, with its fields named.
pub open spec fn probe_text(p: ProbeView) -> Seq<char> {
    "BackendProbeResult { name: "@ + quoted(p.name) + ", available: "@ + bool_text(p.available)
        + ", reason: "@ + quoted(p.reason) + " }"@
}

fn probe_string(p: &BackendProbeResult) -> (r: String)
    ensures
        r@ == probe_text(p@),
{
    let mut out = join3("BackendProbeResult { name: ", quote(p.name.as_str()).as_str(), ", available: ");
    out.append(bool_string(p.available).as_str());
    out.append(", reason: ");
    out.append(quote(p.reason.as_str()).as_str());
    out.append(" }");
    out
}

fn probe_list(items: &Vec<BackendProbeResult>) -> (r: String)
    ensures
        r@ == bracketed(probe_views(items@).map_values(|p: ProbeView| probe_text(p))),
{
    let ghost all = probe_views(items@).map_values(|p: ProbeView| probe_text(p));
    let mut parts: Vec<String> = Vec::new();
    let mut i: usize = 0;
    assert(texts(parts@) =~= all.take(0));
    while i < items.len()
        invariant
            i <= items@.len(),
            all == probe_views(items@).map_values(|p: ProbeView| probe_text(p)),
            texts(parts@) == all.take(i as int),
        decreases items@.len() - i,
    {
        assert(all.take(i + 1) =~= all.take(i as int).push(probe_text(items@[i as int]@)));
        parts.push(probe_string(&items[i]));
        i += 1;
    }
    assert(all.take(i as int) =~= all);
    join3("[", join(&parts, ", ").as_str(), "]")
}

/// What an error says, in words.
pub open spec fn error_text(e: ErrorView) -> Seq<char> {
    match e {
        ErrorView::DependencyCycle { services } => "Dependency cycle detected in services: "@
            + quoted_list(services),
        ErrorView::ServiceStartupFailed { service, message } => "Service '"@ + service
            + "' failed to start: "@ + message,
        ErrorView::BackendError { code, message } => "Backend error (exit "@ + signed_decimal(
            code as int,
        ) + "): "@ + message,
        ErrorView::NotFound(s) => "Not found: "@ + s,
        ErrorView::ParseError(s) => "Parse error: "@ + s,
        ErrorView::JsonError(s) => "JSON error: "@ + s,
        ErrorView::IoError(s) => "I/O error: "@ + s,
        ErrorView::ValidationError { message } => "Validation error: "@ + message,
        ErrorView::VerificationFailed { image, reason } => "Image verification failed for '"@
            + image + "': "@ + reason,
        ErrorView::FileNotFound { path } => "File not found: "@ + path,
        ErrorView::NoBackendFound { probed } => "No container backend found. Probed: "@
            + bracketed(probed.map_values(|p: ProbeView| probe_text(p))),
        ErrorView::BackendNotAvailable { name, reason } => "Specified backend '"@ + name
            + "' is not available: "@ + reason,
        ErrorView::EnforcementViolation { backend, service, details } => "Backend '"@ + backend
            + "' cannot honor the spec for service '"@ + service + "': "@ + details,
    }
}

/// The code that stands for an error outside the library.
pub open spec fn error_code(e: ErrorView) -> i32 {
    match e {
        ErrorView::NotFound(_) => 404,
        ErrorView::FileNotFound { .. } => 404,
        ErrorView::BackendError { code, .. } => code,
        ErrorView::DependencyCycle { .. } => 422,
        ErrorView::ValidationError { .. } => 400,
        ErrorView::ParseError(_) => 400,
        ErrorView::JsonError(_) => 400,
        ErrorView::VerificationFailed { .. } => 403,
        ErrorView::NoBackendFound { .. } => 503,
        ErrorView::BackendNotAvailable { .. } => 503,
        _ => 500,
    }
}

impl ComposeError {
    /// An error about the input.
    pub fn validation(msg: &str) -> (r: ComposeError)
        ensures
            r@ == (ErrorView::ValidationError { message: msg@ }),
    {
        ComposeError::ValidationError { message: msg.to_owned() }
    }

    /// What the error says, in words.
    pub fn text(&self) -> (r: String)
        ensures
            r@ == error_text(self@),
    {
        match self {
            ComposeError::DependencyCycle { services } => join2(
                "Dependency cycle detected in services: ",
                quote_list(services).as_str(),
            ),
            ComposeError::ServiceStartupFailed { service, message } => {
                let mut out = join3("Service '", service.as_str(), "' failed to start: ");
                out.append(message.as_str());
                out
            },
            ComposeError::BackendError { code, message } => {
                let mut out = join3(
                    "Backend error (exit ",
                    signed_decimal_text(*code as i64).as_str(),
                    "): ",
                );
                out.append(message.as_str());
                out
            },
            ComposeError::NotFound(s) => join2("Not found: ", s.as_str()),
            ComposeError::ParseError(s) => join2("Parse error: ", s.as_str()),
            ComposeError::JsonError(s) => join2("JSON error: ", s.as_str()),
            ComposeError::IoError(s) => join2("I/O error: ", s.as_str()),
            ComposeError::ValidationError { message } => join2(
                "Validation error: ",
                message.as_str(),
            ),
            ComposeError::VerificationFailed { image, reason } => {
                let mut out = join3("Image verification failed for '", image.as_str(), "': ");
                out.append(reason.as_str());
                out
            },
            ComposeError::FileNotFound { path } => join2("File not found: ", path.as_str()),
            ComposeError::NoBackendFound { probed } => join2(
                "No container backend found. Probed: ",
                probe_list(probed).as_str(),
            ),
            ComposeError::BackendNotAvailable { name, reason } => {
                let mut out = join3("Specified backend '", name.as_str(), "' is not available: ");
                out.append(reason.as_str());
                out
            },
            ComposeError::EnforcementViolation { backend, service, details } => {
                let mut out = join5(
                    "Backend '",
                    backend.as_str(),
                    "' cannot honor the spec for service '",
                    service.as_str(),
                    "': ",
                );
                out.append(details.as_str());
                out
            },
        }
    }

    /// The code that stands for the error.
    pub fn code(&self) -> (r: i32)
        ensures
            r == error_code(self@),
    {
        match self {
            ComposeError::NotFound(_) => 404,
            ComposeError::FileNotFound { .. } => 404,
            ComposeError::BackendError { code, .. } => *code,
            ComposeError::DependencyCycle { .. } => 422,
            ComposeError::ValidationError { .. } => 400,
            ComposeError::ParseError(_) => 400,
            ComposeError::JsonError(_) => 400,
            ComposeError::VerificationFailed { .. } => 403,
            ComposeError::NoBackendFound { .. } => 503,
            ComposeError::BackendNotAvailable { .. } => 503,
            _ => 500,
        }
    }
}

/// Writes an error as a JSON object with its code and message.
pub fn compose_error_to_js(e: &ComposeError) -> (r: String)
    ensures
        r@ == "{\"code\":"@ + signed_decimal(error_code(e@) as int) + ",\"message\":"@
            + json_string(error_text(e@)) + "}"@,
{
    let code: i32 = e.code();
    join5(
        "{\"code\":",
        signed_decimal_text(code as i64).as_str(),
        ",\"message\":",
        write_json_string(e.text().as_str()).as_str(),
        "}",
    )
}

} // verus!

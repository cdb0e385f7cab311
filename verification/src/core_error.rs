//! The errors of the runtime core, and the JavaScript classes and messages
//! they are thrown with.
use vstd::prelude::*;
use crate::error::JsNativeError;
use crate::js_error::{anyhow_alternate_display, js_error_display, JsError};
use crate::loaders::{loader_error_message, ModuleLoaderError};

verus! {

/// `futures::channel::oneshot::Canceled`: the sending end of a one-shot
/// channel went away.
#[verifier::external_type_specification]
#[verifier::external_body]
pub struct ExCanceled(futures::channel::oneshot::Canceled);

/// The `Display` text of `futures::channel::oneshot::Canceled`, which is
/// always `oneshot canceled`.
#[verifier::external_body]
fn canceled_message(c: &futures::channel::oneshot::Canceled) -> (r: String)
    ensures
        r@ == "oneshot canceled"@,
{
    c.to_string()
}

/// The kinds of error that URL parsing names.
#[derive(Debug, Clone, Copy, PartialEq, Eq, Structural)]
pub enum UrlErrorKind {
    EmptyHost,
    IdnaError,
    InvalidPort,
    InvalidIpv4Address,
    InvalidIpv6Address,
    InvalidDomainCharacter,
    RelativeUrlWithoutBase,
    RelativeUrlWithCannotBeABaseBase,
    SetHostOnCannotBeABaseUrl,
    Overflow,
}

/// Why a URL did not parse: one of the kinds that URL parsing names, or a
/// kind not listed there, with the text its `Display` shows.
#[derive(Debug)]
pub enum UrlParseError {
    Kind(UrlErrorKind),
    Unlisted(String),
}

/// The text that `url::ParseError` shows for each kind, as its `Display`
/// impl writes it.
pub open spec fn url_kind_text(k: UrlErrorKind) -> Seq<char> {
    match k {
        UrlErrorKind::EmptyHost => "empty host"@,
        UrlErrorKind::IdnaError => "invalid international domain name"@,
        UrlErrorKind::InvalidPort => "invalid port number"@,
        UrlErrorKind::InvalidIpv4Address => "invalid IPv4 address"@,
        UrlErrorKind::InvalidIpv6Address => "invalid IPv6 address"@,
        UrlErrorKind::InvalidDomainCharacter => "invalid domain character"@,
        UrlErrorKind::RelativeUrlWithoutBase => "relative URL without a base"@,
        UrlErrorKind::RelativeUrlWithCannotBeABaseBase => "relative URL with a cannot-be-a-base base"@,
        UrlErrorKind::SetHostOnCannotBeABaseUrl => "a cannot-be-a-base URL doesn\u{2019}t have a host to set"@,
        UrlErrorKind::Overflow => "URLs more than 4 GB are not supported"@,
    }
}

/// The text a URL error shows.
pub open spec fn url_error_text(e: UrlParseError) -> Seq<char> {
    match e {
        UrlParseError::Kind(k) => url_kind_text(k),
        UrlParseError::Unlisted(text) => text@,
    }
}

/// The `Display` text of `url::ParseError` for the kind `k`: the
/// description that url's `Display` impl writes for that variant.
#[verifier::external_body]
fn url_kind_display(k: UrlErrorKind) -> (r: String)
    ensures
        r@ == url_kind_text(k),
{
    let e = match k {
        UrlErrorKind::EmptyHost => url::ParseError::EmptyHost,
        UrlErrorKind::IdnaError => url::ParseError::IdnaError,
        UrlErrorKind::InvalidPort => url::ParseError::InvalidPort,
        UrlErrorKind::InvalidIpv4Address => url::ParseError::InvalidIpv4Address,
        UrlErrorKind::InvalidIpv6Address => url::ParseError::InvalidIpv6Address,
        UrlErrorKind::InvalidDomainCharacter => url::ParseError::InvalidDomainCharacter,
        UrlErrorKind::RelativeUrlWithoutBase => url::ParseError::RelativeUrlWithoutBase,
        UrlErrorKind::RelativeUrlWithCannotBeABaseBase => url::ParseError::RelativeUrlWithCannotBeABaseBase,
        UrlErrorKind::SetHostOnCannotBeABaseUrl => url::ParseError::SetHostOnCannotBeABaseUrl,
        UrlErrorKind::Overflow => url::ParseError::Overflow,
    };
    e.to_string()
}

/// The text a URL error shows (see [`url_error_text`]): url's own text for a
/// listed kind.
pub fn url_error_message(e: &UrlParseError) -> (r: String)
    ensures
        r@ == url_error_text(*e),
{
    match e {
        UrlParseError::Kind(k) => url_kind_display(*k),
        UrlParseError::Unlisted(text) => text.clone(),
    }
}

/// The `Display` text of an `anyhow::Error`: its outermost message. What the
/// error holds is opaque here, so nothing is stated of the text.
#[verifier::external_body]
fn anyhow_display(e: &anyhow::Error) -> String {
    e.to_string()
}

/// The `Display` text of the error that caused an `anyhow::Error`, the
/// second error of its chain, if there is one. What the error holds is
/// opaque here, so nothing is stated of it.
#[verifier::external_body]
fn anyhow_source_display(e: &anyhow::Error) -> Option<String> {
    (**e).source().map(|c| c.to_string())
}

/// The kind of an I/O error, as `std::io::ErrorKind` names it; kinds without
/// a variant here keep the text their `Display` shows.
#[derive(Debug)]
pub enum IoErrorKind {
    NotFound,
    PermissionDenied,
    ConnectionRefused,
    ConnectionReset,
    ConnectionAborted,
    NotConnected,
    AddrInUse,
    AddrNotAvailable,
    BrokenPipe,
    AlreadyExists,
    InvalidInput,
    InvalidData,
    TimedOut,
    Interrupted,
    WriteZero,
    UnexpectedEof,
    Other,
    WouldBlock,
    Unlisted(String),
}

/// The JavaScript class an I/O error of kind `k` is thrown as: most kinds
/// by their own name, `InvalidInput` as `TypeError`, `Other` as `Error`, and
/// other kinds by name where the name is one of four known ones.
pub open spec fn io_error_class_spec(k: IoErrorKind) -> Seq<char> {
    match k {
        IoErrorKind::NotFound => "NotFound"@,
        IoErrorKind::PermissionDenied => "PermissionDenied"@,
        IoErrorKind::ConnectionRefused => "ConnectionRefused"@,
        IoErrorKind::ConnectionReset => "ConnectionReset"@,
        IoErrorKind::ConnectionAborted => "ConnectionAborted"@,
        IoErrorKind::NotConnected => "NotConnected"@,
        IoErrorKind::AddrInUse => "AddrInUse"@,
        IoErrorKind::AddrNotAvailable => "AddrNotAvailable"@,
        IoErrorKind::BrokenPipe => "BrokenPipe"@,
        IoErrorKind::AlreadyExists => "AlreadyExists"@,
        IoErrorKind::InvalidInput => "TypeError"@,
        IoErrorKind::InvalidData => "InvalidData"@,
        IoErrorKind::TimedOut => "TimedOut"@,
        IoErrorKind::Interrupted => "Interrupted"@,
        IoErrorKind::WriteZero => "WriteZero"@,
        IoErrorKind::UnexpectedEof => "UnexpectedEof"@,
        IoErrorKind::Other => "Error"@,
        IoErrorKind::WouldBlock => "WouldBlock"@,
        IoErrorKind::Unlisted(name) => if name@ == "FilesystemLoop"@ {
            "FilesystemLoop"@
        } else if name@ == "IsADirectory"@ {
            "IsADirectory"@
        } else if name@ == "NetworkUnreachable"@ {
            "NetworkUnreachable"@
        } else if name@ == "NotADirectory"@ {
            "NotADirectory"@
        } else {
            "Error"@
        },
    }
}

/// The JavaScript class an I/O error of kind `kind` is thrown as (see
/// [`io_error_class_spec`]).
pub fn io_error_class(kind: &IoErrorKind) -> (r: &'static str)
    ensures
        r@ == io_error_class_spec(*kind),
{
    match kind {
        IoErrorKind::NotFound => "NotFound",
        IoErrorKind::PermissionDenied => "PermissionDenied",
        IoErrorKind::ConnectionRefused => "ConnectionRefused",
        IoErrorKind::ConnectionReset => "ConnectionReset",
        IoErrorKind::ConnectionAborted => "ConnectionAborted",
        IoErrorKind::NotConnected => "NotConnected",
        IoErrorKind::AddrInUse => "AddrInUse",
        IoErrorKind::AddrNotAvailable => "AddrNotAvailable",
        IoErrorKind::BrokenPipe => "BrokenPipe",
        IoErrorKind::AlreadyExists => "AlreadyExists",
        IoErrorKind::InvalidInput => "TypeError",
        IoErrorKind::InvalidData => "InvalidData",
        IoErrorKind::TimedOut => "TimedOut",
        IoErrorKind::Interrupted => "Interrupted",
        IoErrorKind::WriteZero => "WriteZero",
        IoErrorKind::UnexpectedEof => "UnexpectedEof",
        IoErrorKind::Other => "Error",
        IoErrorKind::WouldBlock => "WouldBlock",
        IoErrorKind::Unlisted(name) => {
            let n = name.as_str();
            if crate::text::str_eq(n, "FilesystemLoop") {
                "FilesystemLoop"
            } else if crate::text::str_eq(n, "IsADirectory") {
                "IsADirectory"
            } else if crate::text::str_eq(n, "NetworkUnreachable") {
                "NetworkUnreachable"
            } else if crate::text::str_eq(n, "NotADirectory") {
                "NotADirectory"
            } else {
                "Error"
            }
        },
    }
}

/// An I/O error: its kind, the text its `Display` shows, and the text of
/// the error that caused it, if any.
#[derive(Debug)]
pub struct IoErrorInfo {
    pub kind: IoErrorKind,
    pub message: String,
    pub source: Option<String>,
}

/// An error of the runtime core.
#[derive(Debug)]
pub enum CoreError {
    /// Top-level await in an extension.
    TLA(JsError),
    Js(JsError),
    Io(IoErrorInfo),
    ExtensionTranspiler(anyhow::Error),
    /// A script that failed to parse.
    Parse(&'static str),
    /// A script that failed to run.
    Execute(&'static str),
    /// Modules given to the extension loader that were never loaded.
    UnusedModules(Vec<String>),
    /// Modules that were never evaluated.
    NonEvaluatedModules(Vec<String>),
    MissingFromModuleMap(String),
    ModuleLoader(Box<ModuleLoaderError>),
    CouldNotExecute { error: Box<CoreError>, specifier: String },
    JsNative(JsNativeError),
    Url(UrlParseError),
    FutureCanceled(futures::channel::oneshot::Canceled),
    ExecutionTerminated,
    PendingPromiseResolution,
    EvaluateDynamicImportedModule,
    Other(anyhow::Error),
}

/// Whether the error is, or wraps, an exception from JavaScript; those
/// errors are never thrown back into JavaScript as they are.
pub open spec fn holds_js_error(e: CoreError) -> bool
    decreases e,
{
    match e {
        CoreError::TLA(_) | CoreError::Js(_) => true,
        CoreError::CouldNotExecute { error, .. } => holds_js_error(*error),
        _ => false,
    }
}

/// The JavaScript class an error is thrown as.
pub open spec fn core_error_class(e: CoreError) -> Seq<char>
    decreases e,
{
    match e {
        CoreError::Io(info) => io_error_class_spec(info.kind),
        CoreError::CouldNotExecute { error, .. } => core_error_class(*error),
        CoreError::JsNative(err) => err.spec_class()@,
        CoreError::Url(_) => "URIError"@,
        CoreError::FutureCanceled(_) => "Interrupted"@,
        _ => "Error"@,
    }
}

/// The lines `  - {name}` that list module names.
pub open spec fn module_list(names: Seq<String>) -> Seq<char>
    decreases names.len(),
{
    if names.len() == 0 {
        Seq::empty()
    } else {
        module_list(names.drop_last()) + "  - "@ + names.last()@ + "\n"@
    }
}

/// The message of an error whose message does not come from an outside
/// error: the I/O error's text, the message of the wrapped error, or the
/// error's own text.
pub open spec fn core_error_message(e: CoreError) -> Option<Seq<char>>
    decreases e,
{
    match e {
        CoreError::Io(info) => Some(info.message@),
        CoreError::ModuleLoader(err) => Some(loader_error_message(*err)),
        CoreError::CouldNotExecute { error, .. } => core_error_message(*error),
        CoreError::JsNative(err) => Some(err.spec_message()),
        CoreError::Url(err) => Some(url_error_text(err)),
        CoreError::Parse(s) => Some("Failed to parse "@ + s@),
        CoreError::Execute(s) => Some("Failed to execute "@ + s@),
        CoreError::UnusedModules(names) => Some(
            "Following modules were passed to ExtModuleLoader but never used:\n"@ + module_list(
                names@,
            ),
        ),
        CoreError::NonEvaluatedModules(names) => Some(
            "Following modules were not evaluated; make sure they are imported from other code:\n"@
                + module_list(names@),
        ),
        CoreError::MissingFromModuleMap(s) => Some(s@ + " not present in the module map"@),
        CoreError::FutureCanceled(_) => Some("oneshot canceled"@),
        CoreError::ExecutionTerminated => Some(
            "Cannot evaluate module, because JavaScript execution has been terminated"@,
        ),
        CoreError::PendingPromiseResolution => Some(
            "Promise resolution is still pending but the event loop has already resolved"@,
        ),
        CoreError::EvaluateDynamicImportedModule => Some(
            "Cannot evaluate dynamically imported module, because JavaScript execution has been terminated"@,
        ),
        _ => None,
    }
}

/// The text an error shows, where it does not come from an outside error.
pub open spec fn core_error_display(e: CoreError) -> Option<Seq<char>> {
    match e {
        CoreError::TLA(_) => Some("Top-level await is not allowed in extensions"@),
        CoreError::Js(j) => Some(js_error_display(j)),
        CoreError::CouldNotExecute { specifier, .. } => Some("Could not execute "@ + specifier@),
        CoreError::JsNative(err) => Some(err.spec_class()@ + ": "@ + err.spec_message()),
        _ => core_error_message(e),
    }
}

/// The text of the error that caused an error, where the library knows it:
/// `Some(None)` where no error did, `None` where an outside error decides.
pub open spec fn core_error_cause(e: CoreError) -> Option<Option<Seq<char>>> {
    match e {
        CoreError::TLA(j) => Some(Some(js_error_display(j))),
        CoreError::CouldNotExecute { error, .. } => match core_error_display(*error) {
            Some(d) => Some(Some(d)),
            None => None,
        },
        CoreError::Io(info) => Some(
            match info.source {
                Some(c) => Some(c@),
                None => None,
            },
        ),
        CoreError::ExtensionTranspiler(_) | CoreError::Other(_) => None,
        _ => Some(None),
    }
}

/// `s` with four spaces after each newline.
pub open spec fn indented(s: Seq<char>) -> Seq<char>
    decreases s.len(),
{
    if s.len() == 0 {
        Seq::empty()
    } else {
        indented(s.drop_last()) + if s.last() == '\n' {
            "\n    "@
        } else {
            seq![s.last()]
        }
    }
}

/// An error's text followed, where an error caused it, by a `Caused by:`
/// section with the cause's text indented by four spaces.
pub open spec fn with_cause_text(display: Seq<char>, cause: Option<Seq<char>>) -> Seq<char> {
    match cause {
        Some(c) => display + "\n\nCaused by:\n    "@ + indented(c),
        None => display,
    }
}

/// `s` with four spaces after each newline (see [`indented`]).
fn indent(s: &str) -> (r: String)
    ensures
        r@ == indented(s@),
{
    let n = s.unicode_len();
    let mut r = String::new();
    let mut k: usize = 0;
    while k < n
        invariant
            n == s@.len(),
            k <= n,
            r@ == indented(s@.take(k as int)),
        decreases n - k,
    {
        let c = s.get_char(k);
        proof {
            assert(s@.take(k + 1).drop_last() =~= s@.take(k as int));
            assert(s@.take(k + 1).last() == c);
        }
        if c == '\n' {
            r.append("\n    ");
        } else {
            let one = s.substring_char(k, k + 1);
            assert(one@ =~= seq![c]);
            r.append(one);
        }
        k = k + 1;
    }
    assert(s@.take(n as int) =~= s@);
    r
}

/// An error's text followed by what caused it (see [`with_cause_text`]).
pub fn with_cause(display: String, cause: Option<String>) -> (r: String)
    ensures
        r@ == with_cause_text(
            display@,
            match cause {
                Some(c) => Some(c@),
                None => None,
            },
        ),
{
    match cause {
        Some(c) => {
            let mut r = display;
            r.append("\n\nCaused by:\n    ");
            let more = indent(c.as_str());
            r.append(more.as_str());
            r
        },
        None => display,
    }
}

fn push_module_list(out: &mut String, names: &Vec<String>)
    ensures
        final(out)@ == old(out)@ + module_list(names@),
{
    let mut i: usize = 0;
    while i < names.len()
        invariant
            i <= names@.len(),
            out@ == old(out)@ + module_list(names@.take(i as int)),
        decreases names@.len() - i,
    {
        proof {
            assert(names@.take(i + 1).drop_last() =~= names@.take(i as int));
        }
        out.append("  - ");
        out.append(names[i].as_str());
        out.append("\n");
        i = i + 1;
    }
    assert(names@.take(names@.len() as int) =~= names@);
}

impl CoreError {
    /// The JavaScript class the error is thrown as. Errors that hold an
    /// exception from JavaScript have none.
    pub fn get_class(&self) -> (r: &'static str)
        requires
            !holds_js_error(*self),
        ensures
            r@ == core_error_class(*self),
        decreases *self,
    {
        match self {
            CoreError::Io(info) => io_error_class(&info.kind),
            CoreError::CouldNotExecute { error, .. } => {
                let inner: &CoreError = &**error;
                inner.get_class()
            },
            CoreError::JsNative(err) => err.get_class(),
            CoreError::Url(_) => "URIError",
            CoreError::FutureCanceled(_) => "Interrupted",
            CoreError::TLA(_) | CoreError::Js(_) => {
                proof {
                    assert(false);
                }
                "Error"
            },
            _ => "Error",
        }
    }

    /// The text the error shows (see [`core_error_display`]); that of
    /// outside errors is as they show it.
    pub fn to_display_string(&self) -> (r: String)
        ensures
            core_error_display(*self) matches Some(m) ==> r@ == m,
    {
        match self {
            CoreError::TLA(_) => "Top-level await is not allowed in extensions".to_owned(),
            CoreError::Js(j) => j.to_display_string(),
            CoreError::CouldNotExecute { specifier, .. } => {
                let mut r = "Could not execute ".to_owned();
                r.append(specifier.as_str());
                r
            },
            CoreError::JsNative(err) => {
                let mut r = err.get_class().to_owned();
                r.append(": ");
                let m = err.get_message();
                r.append(m.as_str());
                r
            },
            CoreError::ExtensionTranspiler(err) => anyhow_display(err),
            CoreError::Other(err) => anyhow_display(err),
            _ => self.get_message(),
        }
    }

    /// The text of the error that caused this one, if any (see
    /// [`core_error_cause`]); a module that could not be executed always
    /// names the error that stopped it.
    pub fn source_display(&self) -> (r: Option<String>)
        ensures
            match core_error_cause(*self) {
                Some(Some(c)) => r matches Some(t) && t@ == c,
                Some(None) => r is None,
                None => true,
            },
            self is CouldNotExecute ==> r is Some,
    {
        match self {
            CoreError::TLA(j) => Some(j.to_display_string()),
            CoreError::CouldNotExecute { error, .. } => {
                let inner: &CoreError = &**error;
                Some(inner.to_display_string())
            },
            CoreError::Io(info) => info.source.clone(),
            CoreError::ExtensionTranspiler(err) => anyhow_source_display(err),
            CoreError::Other(err) => anyhow_source_display(err),
            _ => None,
        }
    }

    /// The error's text followed by what caused it (see
    /// [`with_cause_text`]).
    pub fn print_with_cause(&self) -> (r: String)
        ensures
            core_error_display(*self) matches Some(d) ==> (core_error_cause(*self) matches Some(c)
                ==> r@ == with_cause_text(d, c)),
    {
        let display = self.to_display_string();
        let cause = self.source_display();
        with_cause(display, cause)
    }

    /// The message the error is thrown with. Errors that hold an exception
    /// from JavaScript have none; the text of outside errors (transpiler
    /// errors and other `anyhow` errors) is as they show it.
    pub fn get_message(&self) -> (r: String)
        requires
            !holds_js_error(*self),
        ensures
            core_error_message(*self) matches Some(m) ==> r@ == m,
        decreases *self,
    {
        match self {
            CoreError::Io(info) => info.message.clone(),
            CoreError::ExtensionTranspiler(err) => anyhow_alternate_display(err),
            CoreError::ModuleLoader(err) => err.to_display_string(),
            CoreError::CouldNotExecute { error, .. } => {
                let inner: &CoreError = &**error;
                inner.get_message()
            },
            CoreError::JsNative(err) => err.get_message(),
            CoreError::Url(err) => url_error_message(err),
            CoreError::Other(err) => anyhow_alternate_display(err),
            CoreError::Parse(s) => {
                let mut r = "Failed to parse ".to_owned();
                r.append(s);
                r
            },
            CoreError::Execute(s) => {
                let mut r = "Failed to execute ".to_owned();
                r.append(s);
                r
            },
            CoreError::UnusedModules(names) => {
                let mut r = "Following modules were passed to ExtModuleLoader but never used:\n".to_owned();
                push_module_list(&mut r, names);
                r
            },
            CoreError::NonEvaluatedModules(names) => {
                let mut r =
                    "Following modules were not evaluated; make sure they are imported from other code:\n".to_owned();
                push_module_list(&mut r, names);
                r
            },
            CoreError::MissingFromModuleMap(s) => {
                let mut r = s.clone();
                r.append(" not present in the module map");
                r
            },
            CoreError::FutureCanceled(c) => canceled_message(c),
            CoreError::ExecutionTerminated => {
                "Cannot evaluate module, because JavaScript execution has been terminated".to_owned()
            },
            CoreError::PendingPromiseResolution => {
                "Promise resolution is still pending but the event loop has already resolved".to_owned()
            },
            CoreError::EvaluateDynamicImportedModule => {
                "Cannot evaluate dynamically imported module, because JavaScript execution has been terminated".to_owned()
            },
            CoreError::TLA(_) | CoreError::Js(_) => {
                proof {
                    assert(false);
                }
                String::new()
            },
        }
    }
}

} // verus!

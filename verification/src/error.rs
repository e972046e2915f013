//! Errors of the shared library, of the file manager (veni) and of the
//! viewer (vidi), with the messages they are reported with.
use vstd::prelude::*;
use vstd::string::{to_string_from_display_ensures, StringExecFns};

use crate::text::{decimal, push_char, push_decimal};

verus! {

/// `std::io::Error`, carried inside the error types unchanged.
#[verifier::external_type_specification]
#[verifier::external_body]
pub struct ExIoError(std::io::Error);

/// A configuration file that could not be used.
#[derive(Debug)]
pub struct ConfigError {
    /// What is wrong with the configuration.
    pub message: String,
}

impl ConfigError {
    /// The message the error is reported with.
    pub fn to_string(&self) -> (s: String)
        ensures
            s@ == self.message@,
    {
        self.message.clone()
    }
}

/// Errors of the shared library.
#[derive(Debug)]
pub enum CommonError {
    FileNotFound(String),
    FileUnreadable { path: String, source: std::io::Error },
    Config(ConfigError),
    Io(std::io::Error),
    Theme(String),
    Detection(String),
}

/// Errors of the file manager.
#[derive(Debug)]
pub enum VeniError {
    NotADirectory(String),
    ReadDir { path: String, source: std::io::Error },
    Config(ConfigError),
    Io(std::io::Error),
    Terminal(String),
}

/// `text` followed by `message`, where `message` is what `to_string` gives
/// for the I/O error `e`.
pub open spec fn with_io_message(s: Seq<char>, text: Seq<char>, e: &std::io::Error) -> bool {
    exists|m: String| to_string_from_display_ensures::<std::io::Error>(e, m) && s == text + m@
}

fn text_then(prefix: &str, rest: &str) -> (s: String)
    ensures
        s@ == prefix@ + rest@,
{
    let mut s = String::from_str(prefix);
    s.append(rest);
    s
}

fn text_io(prefix: &str, e: &std::io::Error) -> (s: String)
    ensures
        with_io_message(s@, prefix@, e),
{
    let m = e.to_string();
    let s = text_then(prefix, m.as_str());
    assert(to_string_from_display_ensures::<std::io::Error>(e, m) && s@ == prefix@ + m@);
    s
}

impl VeniError {
    /// The message the error is reported with.
    pub fn to_string(&self) -> (s: String)
        ensures
            match self {
                VeniError::NotADirectory(p) => s@ == "not a directory: "@ + p@,
                VeniError::ReadDir { path, source } => with_io_message(
                    s@,
                    "cannot read directory: "@ + path@ + ": "@,
                    source,
                ),
                VeniError::Config(c) => s@ == "configuration error: "@ + c.message@,
                VeniError::Io(e) => with_io_message(s@, "I/O error: "@, e),
                VeniError::Terminal(m) => s@ == "terminal error: "@ + m@,
            },
    {
        match self {
            VeniError::NotADirectory(p) => text_then("not a directory: ", p.as_str()),
            VeniError::ReadDir { path, source } => {
                let prefix = text_then("cannot read directory: ", path.as_str());
                let prefix = text_then(prefix.as_str(), ": ");
                text_io(prefix.as_str(), source)
            },
            VeniError::Config(c) => text_then("configuration error: ", c.message.as_str()),
            VeniError::Io(e) => text_io("I/O error: ", e),
            VeniError::Terminal(m) => text_then("terminal error: ", m.as_str()),
        }
    }
}

impl From<std::io::Error> for VeniError {
    fn from(e: std::io::Error) -> (r: Self) {
        VeniError::Io(e)
    }
}

impl vstd::std_specs::convert::FromSpecImpl<std::io::Error> for VeniError {
    open spec fn obeys_from_spec() -> bool {
        true
    }

    open spec fn from_spec(e: std::io::Error) -> Self {
        VeniError::Io(e)
    }
}

impl From<ConfigError> for VeniError {
    fn from(e: ConfigError) -> (r: Self) {
        VeniError::Config(e)
    }
}

impl vstd::std_specs::convert::FromSpecImpl<ConfigError> for VeniError {
    open spec fn obeys_from_spec() -> bool {
        true
    }

    open spec fn from_spec(e: ConfigError) -> Self {
        VeniError::Config(e)
    }
}

/// Errors of the viewer.
#[derive(Debug)]
pub enum VidiError {
    FileNotFound(String),
    FileUnreadable { path: String, source: std::io::Error },
    NoViewerAvailable { kind: String },
    ToolFailed { tool: String, code: i32 },
    ToolNotFound { tool: String },
    Config(ConfigError),
    Io(std::io::Error),
    Theme(String),
}

/// The decimal rendering of a signed number, with a leading `-` when it is
/// negative.
pub open spec fn signed_decimal(n: int) -> Seq<char> {
    if n < 0 {
        seq!['-'] + decimal((-n) as nat)
    } else {
        decimal(n as nat)
    }
}

impl VidiError {
    /// The message the error is reported with.
    pub fn to_string(&self) -> (s: String)
        ensures
            match self {
                VidiError::FileNotFound(p) => s@ == "file not found: "@ + p@,
                VidiError::FileUnreadable { path, source } => with_io_message(
                    s@,
                    "cannot read file: "@ + path@ + ": "@,
                    source,
                ),
                VidiError::NoViewerAvailable { kind } => s@ == "no viewer available for "@ + kind@,
                VidiError::ToolFailed { tool, code } => s@ == "tool '"@ + tool@
                    + "' failed with exit code "@ + signed_decimal(*code as int),
                VidiError::ToolNotFound { tool } => s@ == "tool '"@ + tool@ + "' not found on PATH"@,
                VidiError::Config(c) => s@ == "configuration error: "@ + c.message@,
                VidiError::Io(e) => with_io_message(s@, "I/O error: "@, e),
                VidiError::Theme(m) => s@ == "theme error: "@ + m@,
            },
    {
        match self {
            VidiError::FileNotFound(p) => text_then("file not found: ", p.as_str()),
            VidiError::FileUnreadable { path, source } => {
                let prefix = text_then("cannot read file: ", path.as_str());
                let prefix = text_then(prefix.as_str(), ": ");
                text_io(prefix.as_str(), source)
            },
            VidiError::NoViewerAvailable { kind } => text_then(
                "no viewer available for ",
                kind.as_str(),
            ),
            VidiError::ToolFailed { tool, code } => {
                let head = text_then("tool '", tool.as_str());
                let mut s = text_then(head.as_str(), "' failed with exit code ");
                let ghost before = s@;
                let magnitude: u64 = if *code < 0 {
                    push_char(&mut s, '-');
                    (0 - (*code as i64)) as u64
                } else {
                    *code as u64
                };
                push_decimal(&mut s, magnitude);
                assert(s@ =~= before + signed_decimal(*code as int));
                s
            },
            VidiError::ToolNotFound { tool } => {
                let head = text_then("tool '", tool.as_str());
                text_then(head.as_str(), "' not found on PATH")
            },
            VidiError::Config(c) => text_then("configuration error: ", c.message.as_str()),
            VidiError::Io(e) => text_io("I/O error: ", e),
            VidiError::Theme(m) => text_then("theme error: ", m.as_str()),
        }
    }
}

/// The viewer error that a library error becomes.
pub open spec fn vidi_error_of(e: CommonError) -> VidiError {
    match e {
        CommonError::FileNotFound(p) => VidiError::FileNotFound(p),
        CommonError::FileUnreadable { path, source } => VidiError::FileUnreadable { path, source },
        CommonError::Config(c) => VidiError::Config(c),
        CommonError::Io(io) => VidiError::Io(io),
        CommonError::Theme(msg) => VidiError::Theme(msg),
        CommonError::Detection(msg) => VidiError::Theme(msg),
    }
}

impl From<CommonError> for VidiError {
    fn from(e: CommonError) -> (r: Self) {
        match e {
            CommonError::FileNotFound(p) => VidiError::FileNotFound(p),
            CommonError::FileUnreadable { path, source } => VidiError::FileUnreadable {
                path,
                source,
            },
            CommonError::Config(c) => VidiError::Config(c),
            CommonError::Io(io) => VidiError::Io(io),
            CommonError::Theme(msg) => VidiError::Theme(msg),
            CommonError::Detection(msg) => VidiError::Theme(msg),
        }
    }
}

impl vstd::std_specs::convert::FromSpecImpl<CommonError> for VidiError {
    open spec fn obeys_from_spec() -> bool {
        true
    }

    open spec fn from_spec(e: CommonError) -> Self {
        vidi_error_of(e)
    }
}

impl From<std::io::Error> for VidiError {
    fn from(e: std::io::Error) -> (r: Self) {
        VidiError::Io(e)
    }
}

impl vstd::std_specs::convert::FromSpecImpl<std::io::Error> for VidiError {
    open spec fn obeys_from_spec() -> bool {
        true
    }

    open spec fn from_spec(e: std::io::Error) -> Self {
        VidiError::Io(e)
    }
}

impl From<ConfigError> for VidiError {
    fn from(e: ConfigError) -> (r: Self) {
        VidiError::Config(e)
    }
}

impl vstd::std_specs::convert::FromSpecImpl<ConfigError> for VidiError {
    open spec fn obeys_from_spec() -> bool {
        true
    }

    open spec fn from_spec(e: ConfigError) -> Self {
        VidiError::Config(e)
    }
}

} // verus!

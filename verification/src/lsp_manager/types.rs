//! Language-server kinds, phases, failures and diagnostics.
use vstd::prelude::*;

use crate::text::{is_blank, is_blank_str, push_str, string_from_chars};

verus! {

#[derive(Clone, Copy, Debug, PartialEq, Eq, Structural)]
pub enum DiagnosticSeverity {
    Error,
    Warning,
    Information,
    Hint,
}

#[derive(Clone, Debug, PartialEq, Eq)]
pub struct Diagnostic {
    pub file: String,
    pub line: u32,
    pub column: u32,
    pub severity: DiagnosticSeverity,
    pub message: String,
    pub code: Option<String>,
}

impl Diagnostic {
    /// A field-for-field copy.
    pub fn duplicate(&self) -> (r: Self)
        ensures
            r == *self,
    {
        Diagnostic {
            file: self.file.clone(),
            line: self.line,
            column: self.column,
            severity: self.severity,
            message: self.message.clone(),
            code: crate::text::copy_opt_string(&self.code),
        }
    }
}

/// The language servers the runtime knows.
#[derive(Clone, Copy, Debug, PartialEq, Eq, Hash, Structural)]
pub enum ServerKind {
    RustAnalyzer,
    Gopls,
    TypeScript,
}

pub open spec fn server_label(k: ServerKind) -> Seq<char> {
    match k {
        ServerKind::RustAnalyzer => "rust-analyzer"@,
        ServerKind::Gopls => "gopls"@,
        ServerKind::TypeScript => "typescript-language-server"@,
    }
}

pub open spec fn server_extensions(k: ServerKind) -> Seq<Seq<char>> {
    match k {
        ServerKind::RustAnalyzer => seq![".rs"@],
        ServerKind::Gopls => seq![".go"@],
        ServerKind::TypeScript => seq![".ts"@, ".tsx"@, ".js"@, ".jsx"@],
    }
}

impl ServerKind {
    /// The server's name.
    pub fn label(self) -> (r: &'static str)
        ensures
            r@ == server_label(self),
    {
        match self {
            ServerKind::RustAnalyzer => "rust-analyzer",
            ServerKind::Gopls => "gopls",
            ServerKind::TypeScript => "typescript-language-server",
        }
    }

    /// The default command line that starts the server.
    pub fn command(self) -> (r: Vec<String>)
        ensures
            self == ServerKind::RustAnalyzer ==> r@.len() == 1 && r@[0]@ == "rust-analyzer"@,
            self == ServerKind::Gopls ==> r@.len() == 1 && r@[0]@ == "gopls"@,
            self == ServerKind::TypeScript ==> r@.len() == 2 && r@[0]@
                == "typescript-language-server"@ && r@[1]@ == "--stdio"@,
    {
        let mut v: Vec<String> = Vec::new();
        match self {
            ServerKind::RustAnalyzer => v.push("rust-analyzer".to_owned()),
            ServerKind::Gopls => v.push("gopls".to_owned()),
            ServerKind::TypeScript => {
                v.push("typescript-language-server".to_owned());
                v.push("--stdio".to_owned());
            },
        }
        v
    }

    /// The file extensions the server handles, with their dot.
    pub fn extensions(self) -> (r: Vec<&'static str>)
        ensures
            r@.len() == server_extensions(self).len(),
            forall|i: int| 0 <= i < r@.len() ==> (#[trigger] r@[i])@ == server_extensions(self)[i],
    {
        match self {
            ServerKind::RustAnalyzer => vec![".rs"],
            ServerKind::Gopls => vec![".go"],
            ServerKind::TypeScript => vec![".ts", ".tsx", ".js", ".jsx"],
        }
    }

    /// The file whose presence in the workspace root detects the server.
    pub fn detect_file(self) -> (r: &'static str)
        ensures
            self == ServerKind::RustAnalyzer ==> r@ == "Cargo.toml"@,
            self == ServerKind::Gopls ==> r@ == "go.mod"@,
            self == ServerKind::TypeScript ==> r@ == "package.json"@,
    {
        match self {
            ServerKind::RustAnalyzer => "Cargo.toml",
            ServerKind::Gopls => "go.mod",
            ServerKind::TypeScript => "package.json",
        }
    }

    /// The LSP language id of the files the server handles.
    pub fn language_id(self) -> (r: &'static str)
        ensures
            self == ServerKind::RustAnalyzer ==> r@ == "rust"@,
            self == ServerKind::Gopls ==> r@ == "go"@,
            self == ServerKind::TypeScript ==> r@ == "typescript"@,
    {
        match self {
            ServerKind::RustAnalyzer => "rust",
            ServerKind::Gopls => "go",
            ServerKind::TypeScript => "typescript",
        }
    }
}

/// Every server kind, in detection order.
pub fn all_server_kinds() -> (r: [ServerKind; 3])
    ensures
        r@ == seq![ServerKind::RustAnalyzer, ServerKind::Gopls, ServerKind::TypeScript],
{
    [ServerKind::RustAnalyzer, ServerKind::Gopls, ServerKind::TypeScript]
}

#[derive(Clone, Copy, Debug, PartialEq, Eq, Structural)]
pub enum LspServerPhase {
    NotStarted,
    Starting,
    Ready,
    Unavailable,
    Failed,
}

impl LspServerPhase {
    pub fn label(self) -> (r: &'static str)
        ensures
            self == LspServerPhase::NotStarted ==> r@ == "not started"@,
            self == LspServerPhase::Starting ==> r@ == "starting"@,
            self == LspServerPhase::Ready ==> r@ == "ready"@,
            self == LspServerPhase::Unavailable ==> r@ == "unavailable"@,
            self == LspServerPhase::Failed ==> r@ == "failed"@,
    {
        match self {
            LspServerPhase::NotStarted => "not started",
            LspServerPhase::Starting => "starting",
            LspServerPhase::Ready => "ready",
            LspServerPhase::Unavailable => "unavailable",
            LspServerPhase::Failed => "failed",
        }
    }
}

#[derive(Clone, Copy, Debug, PartialEq, Eq, Structural)]
pub enum LspFailureKind {
    Disabled,
    UnsupportedFile,
    BinaryMissing,
    SpawnFailed,
    InitializeTimeout,
    ProtocolError,
    ServerExited,
    FileReadFailed,
}

/// Why a language-server operation failed.
#[derive(Clone, Debug, PartialEq, Eq)]
pub struct LspFailure {
    pub kind: LspFailureKind,
    pub message: String,
    pub server: Option<String>,
    pub exit_code: Option<i32>,
    pub signal: Option<i32>,
    pub stderr_tail: Option<String>,
    pub retryable: bool,
}

/// `failure` with the text of its `Display`: the message, then the stderr
/// tail when there is one.
pub open spec fn failure_text(f: LspFailure) -> Seq<char> {
    match f.stderr_tail {
        Some(t) => f.message@ + "; stderr: "@ + t@,
        None => f.message@,
    }
}

impl LspFailure {
    /// A field-for-field copy.
    pub fn duplicate(&self) -> (r: Self)
        ensures
            r == *self,
    {
        LspFailure {
            kind: self.kind,
            message: self.message.clone(),
            server: crate::text::copy_opt_string(&self.server),
            exit_code: self.exit_code,
            signal: self.signal,
            stderr_tail: crate::text::copy_opt_string(&self.stderr_tail),
            retryable: self.retryable,
        }
    }

    /// A failure of `kind` with `message`, not tied to a server or process.
    pub fn new(kind: LspFailureKind, message: String, retryable: bool) -> (r: Self)
        ensures
            r.kind == kind,
            r.message == message,
            r.server is None,
            r.exit_code is None,
            r.signal is None,
            r.stderr_tail is None,
            r.retryable == retryable,
    {
        LspFailure {
            kind,
            message,
            server: None,
            exit_code: None,
            signal: None,
            stderr_tail: None,
            retryable,
        }
    }

    /// The same failure, attributed to the server of `kind`.
    pub fn for_server(self, kind: ServerKind) -> (r: Self)
        ensures
            r == (LspFailure { server: r.server, ..self }),
            r.server matches Some(s) && s@ == server_label(kind),
    {
        let mut r = self;
        r.server = Some(kind.label().to_owned());
        r
    }

    /// The same failure with the exit status of the server process; the
    /// stderr tail is kept only when it is not blank.
    pub fn with_process_status(self, exit_code: Option<i32>, signal: Option<i32>, stderr_tail: String) -> (r:
        Self)
        ensures
            r == (LspFailure { exit_code, signal, stderr_tail: r.stderr_tail, ..self }),
            is_blank(stderr_tail@) ==> r.stderr_tail is None,
            !is_blank(stderr_tail@) ==> r.stderr_tail == Some(stderr_tail),
    {
        let mut r = self;
        r.exit_code = exit_code;
        r.signal = signal;
        r.stderr_tail = if is_blank_str(stderr_tail.as_str()) {
            None
        } else {
            Some(stderr_tail)
        };
        r
    }

    /// The text of the failure, as its `Display` writes it.
    pub fn to_string(&self) -> (r: String)
        ensures
            r@ == failure_text(*self),
    {
        let mut out: Vec<char> = Vec::new();
        push_str(&mut out, self.message.as_str());
        if let Some(t) = &self.stderr_tail {
            push_str(&mut out, "; stderr: ");
            push_str(&mut out, t.as_str());
        }
        string_from_chars(&out)
    }
}

#[derive(Clone, Debug, PartialEq, Eq)]
pub struct LspServerStatus {
    pub name: String,
    pub detected: bool,
    pub checked: bool,
    pub available: bool,
    pub running: bool,
    pub phase: LspServerPhase,
    pub last_failure: Option<LspFailure>,
}

#[derive(Clone, Debug, PartialEq, Eq)]
pub struct LspStatusSnapshot {
    pub enabled: bool,
    pub servers: Vec<LspServerStatus>,
    pub diagnostic_file_count: usize,
    pub diagnostic_count: usize,
    pub last_error: Option<String>,
    pub last_failure: Option<LspFailure>,
}

#[derive(Clone, Copy, Debug, PartialEq, Eq, Structural)]
pub enum DiagnosticFreshness {
    Current,
    Cached,
    Pending,
}

#[derive(Clone, Debug, PartialEq, Eq)]
pub struct LspDiagnostics {
    pub diagnostics: Vec<Diagnostic>,
    pub freshness: DiagnosticFreshness,
}

} // verus!

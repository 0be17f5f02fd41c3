//! The decisions of language-server management: which server handles a
//! file, whether to start (or restart) it, what its status is, and the
//! failures the process produces. Spawning, the protocol and the clock are
//! the host's; it passes in what it observed.
use vstd::prelude::*;

use crate::lsp_manager::types::{
    server_extensions, server_label, LspFailure, LspFailureKind, LspServerPhase, LspServerStatus,
    ServerKind,
};
use crate::path::{extension, extension_exec, is_absolute, join_path};
use crate::text::{
    ascii_lower, ascii_lower_exec, chars_of, decimal, eq_str, push_decimal, push_str, string_from_chars,
    trim, trim_chars,
};

verus! {

/// A server slot's state.
#[derive(Clone, Debug)]
pub enum ServerState {
    NotStarted,
    Starting { generation: usize },
    /// Running after startup; whether the process still runs is observed
    /// when the state is read.
    Ready { generation: usize },
    Unavailable { failure: LspFailure },
    Failed { failure: LspFailure },
}

/// One server's bookkeeping.
#[derive(Clone, Debug)]
pub struct ServerSlot {
    pub kind: ServerKind,
    pub detected: bool,
    pub state: ServerState,
    pub attempts: usize,
}

/// Limits on (re)starting a server.
#[derive(Clone, Copy, Debug, PartialEq, Eq, Structural)]
pub struct StartLimits {
    pub max_start_attempts: usize,
    pub retry_backoff_ms: u64,
}

/// What to do when a file needs its server.
#[derive(Clone, Debug)]
pub enum StartPlan {
    /// The running server can be used as it is.
    UseRunning,
    /// Refuse with this failure.
    Refuse { failure: LspFailure },
    /// Spawn the server as attempt `generation`. `cancelled` is the failure
    /// recorded for an interrupted earlier startup, to report as the last
    /// failure while retrying.
    Spawn { generation: usize, cancelled: Option<LspFailure> },
}

/// How a spawn attempt ended.
#[derive(Clone, Debug)]
pub enum SpawnOutcome {
    /// The server initialized; `running` is whether the process still runs,
    /// `exit` the failure observed if it already exited.
    Started { running: bool, exit: Option<LspFailure> },
    Failed { failure: LspFailure },
}

pub open spec fn failure_is(f: LspFailure, kind: LspFailureKind, message: Seq<char>, server: ServerKind, retryable: bool) -> bool {
    &&& f.kind == kind
    &&& f.message@ == message
    &&& f.server matches Some(s) && s@ == server_label(server)
    &&& f.exit_code is None
    &&& f.signal is None
    &&& f.stderr_tail is None
    &&& f.retryable == retryable
}

/// The state after a start failure: a missing binary is permanent.
pub open spec fn failed_state_is(s: ServerState, failure: LspFailure) -> bool {
    if failure.kind == LspFailureKind::BinaryMissing {
        s matches ServerState::Unavailable { failure: f } && f == failure
    } else {
        s matches ServerState::Failed { failure: f } && f == failure
    }
}

fn message_for(kind: ServerKind, suffix: &str) -> (r: String)
    ensures
        r@ == server_label(kind) + suffix@,
{
    let mut out: Vec<char> = Vec::new();
    push_str(&mut out, kind.label());
    push_str(&mut out, suffix);
    string_from_chars(&out)
}

/// The failure of a startup that was cancelled before it completed.
pub fn cancelled_startup_failure(kind: ServerKind) -> (r: LspFailure)
    ensures
        failure_is(
            r,
            LspFailureKind::ProtocolError,
            server_label(kind) + " startup was cancelled before completion"@,
            kind,
            true,
        ),
{
    LspFailure::new(
        LspFailureKind::ProtocolError,
        message_for(kind, " startup was cancelled before completion"),
        true,
    ).for_server(kind)
}

/// The failure reported when a startup of `generation` was left unfinished.
pub fn interrupted_generation_failure(kind: ServerKind, generation: usize) -> (r: LspFailure)
    ensures
        failure_is(
            r,
            LspFailureKind::ProtocolError,
            server_label(kind) + " startup generation "@ + decimal(generation as nat)
                + " was cancelled before completion"@,
            kind,
            true,
        ),
{
    let mut out: Vec<char> = Vec::new();
    push_str(&mut out, kind.label());
    push_str(&mut out, " startup generation ");
    push_decimal(&mut out, generation as u64);
    push_str(&mut out, " was cancelled before completion");
    LspFailure::new(LspFailureKind::ProtocolError, string_from_chars(&out), true).for_server(kind)
}

/// What `begin_start` decides for the slot `before`, given the limits,
/// whether a ready server still runs and the time since the last failure:
/// the plan `r` and the slot `after`.
pub open spec fn begin_start_outcome(
    before: ServerSlot,
    after: ServerSlot,
    limits: StartLimits,
    ready_running: bool,
    elapsed_since_failure_ms: u64,
    r: StartPlan,
) -> bool {
    &&& after.kind == before.kind
    &&& after.detected == before.detected
    &&& match before.state {
        ServerState::Ready { .. } if ready_running => r is UseRunning && after
            == before,
        ServerState::Unavailable { failure } => (r matches StartPlan::Refuse { failure: f }
            && f == failure) && after == before,
        ServerState::Failed { failure } if !failure.retryable || before.attempts
            >= limits.max_start_attempts || elapsed_since_failure_ms
            < limits.retry_backoff_ms => (r matches StartPlan::Refuse { failure: f } && f
            == failure) && after == before,
        ServerState::Starting { generation } if before.attempts
            >= limits.max_start_attempts => {
            &&& r matches StartPlan::Refuse { failure: f }
            &&& failure_is(
                r->failure,
                LspFailureKind::ProtocolError,
                server_label(before.kind) + " startup generation "@ + decimal(
                    generation as nat,
                ) + " was cancelled before completion"@,
                before.kind,
                true,
            )
            &&& failed_state_is(after.state, r->failure)
            &&& after.attempts == before.attempts
        },
        _ => {
            &&& r matches StartPlan::Spawn { generation, cancelled }
            &&& r->generation == before.attempts + 1
            &&& after.attempts == before.attempts + 1
            &&& after.state matches ServerState::Starting { generation: g } && g
                == before.attempts + 1
            &&& (before.state matches ServerState::Starting { generation: g0 }
                ==> r->cancelled matches Some(c) && failure_is(
                c,
                LspFailureKind::ProtocolError,
                server_label(before.kind) + " startup generation "@ + decimal(
                    g0 as nat,
                ) + " was cancelled before completion"@,
                before.kind,
                true,
            ))
            &&& (!(before.state is Starting) ==> r->cancelled is None)
        },
    }
}

/// What `finish_start` does with attempt `generation` and its outcome: the
/// result `r` and the slot `after`.
pub open spec fn finish_start_outcome(
    before: ServerSlot,
    after: ServerSlot,
    generation: usize,
    outcome: SpawnOutcome,
    r: Result<(), LspFailure>,
) -> bool {
    &&& after.kind == before.kind
    &&& after.detected == before.detected
    &&& after.attempts == before.attempts
    &&& match outcome {
        SpawnOutcome::Started { running: true, .. } => r is Ok && (after.state matches ServerState::Ready {
            generation: g,
        } && g == generation),
        SpawnOutcome::Started { running: false, exit: Some(f) } => r == Err::<(), LspFailure>(f)
            && failed_state_is(after.state, f),
        SpawnOutcome::Started { running: false, exit: None } => {
            &&& r matches Err(f)
            &&& failure_is(
                r->Err_0,
                LspFailureKind::ServerExited,
                server_label(before.kind) + " exited during startup"@,
                before.kind,
                true,
            )
            &&& failed_state_is(after.state, r->Err_0)
        },
        SpawnOutcome::Failed { failure } => r == Err::<(), LspFailure>(failure)
            && failed_state_is(after.state, failure),
    }
}

impl ServerSlot {
    /// A slot that has not started its server.
    pub fn new(kind: ServerKind, detected: bool) -> (r: Self)
        ensures
            r.kind == kind,
            r.detected == detected,
            r.state is NotStarted,
            r.attempts == 0,
    {
        ServerSlot { kind, detected, state: ServerState::NotStarted, attempts: 0 }
    }

    /// Records a start failure: a missing binary makes the server
    /// unavailable, any other failure leaves it failed (retryable by time).
    pub fn store_start_failure(&mut self, failure: LspFailure)
        ensures
            failed_state_is(final(self).state, failure),
            final(self).kind == old(self).kind,
            final(self).detected == old(self).detected,
            final(self).attempts == old(self).attempts,
    {
        self.state = if failure.kind == LspFailureKind::BinaryMissing {
            ServerState::Unavailable { failure }
        } else {
            ServerState::Failed { failure }
        };
    }

    /// Decides what a request for the server does, given whether a ready
    /// server's process still runs and how long ago the last failure was.
    /// A running ready server is used; an unavailable one refuses; a failed
    /// one refuses while its failure is permanent, its attempts are used up
    /// or its backoff has not passed. A startup left unfinished is reported
    /// and retried unless attempts are used up, in which case it is stored
    /// as the failure and refused. Otherwise a new attempt starts: the
    /// attempt count grows and the slot is `Starting` with that generation.
    pub fn begin_start(&mut self, limits: StartLimits, ready_running: bool, elapsed_since_failure_ms: u64) -> (r:
        StartPlan)
        requires
            old(self).attempts < usize::MAX,
        ensures
            begin_start_outcome(*old(self), *final(self), limits, ready_running, elapsed_since_failure_ms, r),
    {
        let mut cancelled: Option<LspFailure> = None;
        match &self.state {
            ServerState::Ready { .. } => {
                if ready_running {
                    return StartPlan::UseRunning;
                }
            },
            ServerState::Unavailable { failure } => {
                return StartPlan::Refuse { failure: failure.duplicate() };
            },
            ServerState::Failed { failure } => {
                if !failure.retryable || self.attempts >= limits.max_start_attempts
                    || elapsed_since_failure_ms < limits.retry_backoff_ms {
                    return StartPlan::Refuse { failure: failure.duplicate() };
                }
            },
            ServerState::Starting { generation } => {
                let failure = interrupted_generation_failure(self.kind, *generation);
                if self.attempts >= limits.max_start_attempts {
                    let stored = failure.duplicate();
                    self.store_start_failure(stored);
                    return StartPlan::Refuse { failure };
                }
                cancelled = Some(failure);
            },
            ServerState::NotStarted => {},
        }
        self.attempts = self.attempts + 1;
        self.state = ServerState::Starting { generation: self.attempts };
        StartPlan::Spawn { generation: self.attempts, cancelled }
    }

    /// Completes attempt `generation` with the spawn outcome: a server that
    /// initialized and runs becomes `Ready`; one that initialized but exited
    /// fails with the observed exit (or a generic "exited during startup"
    /// failure); a failed spawn stores its failure.
    pub fn finish_start(&mut self, generation: usize, outcome: SpawnOutcome) -> (r: Result<(), LspFailure>)
        ensures
            finish_start_outcome(*old(self), *final(self), generation, outcome, r),
    {
        match outcome {
            SpawnOutcome::Started { running, exit } => {
                if running {
                    self.state = ServerState::Ready { generation };
                    Ok(())
                } else {
                    let failure = match exit {
                        Some(f) => f,
                        None => LspFailure::new(
                            LspFailureKind::ServerExited,
                            message_for(self.kind, " exited during startup"),
                            true,
                        ).for_server(self.kind),
                    };
                    self.store_start_failure(failure.duplicate());
                    Err(failure)
                }
            },
            SpawnOutcome::Failed { failure } => {
                self.store_start_failure(failure.duplicate());
                Err(failure)
            },
        }
    }

    /// An attempt abandoned before it completed: if the slot is still
    /// starting that attempt, it fails (retryable) and the failure is
    /// returned for reporting.
    pub fn abandon_start(&mut self, generation: usize) -> (r: Option<LspFailure>)
        ensures
            final(self).kind == old(self).kind,
            final(self).detected == old(self).detected,
            final(self).attempts == old(self).attempts,
            (old(self).state matches ServerState::Starting { generation: g } && g == generation) ==> {
                &&& r matches Some(f)
                &&& failure_is(
                    r->0,
                    LspFailureKind::ProtocolError,
                    server_label(old(self).kind) + " startup was cancelled before completion"@,
                    old(self).kind,
                    true,
                )
                &&& final(self).state matches ServerState::Failed { failure } && failure == r->0
            },
            !(old(self).state matches ServerState::Starting { generation: g } && g == generation) ==> r is None
                && *final(self) == *old(self),
    {
        let current = match &self.state {
            ServerState::Starting { generation: g } => *g == generation,
            _ => false,
        };
        if !current {
            return None;
        }
        let failure = cancelled_startup_failure(self.kind);
        self.state = ServerState::Failed { failure: failure.duplicate() };
        Some(failure)
    }

    /// The process of attempt `generation` exited with `failure`: if that
    /// attempt is the ready one, the slot fails and the failure is returned.
    pub fn server_exited(&mut self, generation: usize, failure: LspFailure) -> (r: Option<LspFailure>)
        ensures
            final(self).kind == old(self).kind,
            final(self).detected == old(self).detected,
            final(self).attempts == old(self).attempts,
            (old(self).state matches ServerState::Ready { generation: g } && g == generation) ==> (r
                == Some(failure) && (final(self).state matches ServerState::Failed { failure: f } && f
                == failure)),
            !(old(self).state matches ServerState::Ready { generation: g } && g == generation) ==> r is None
                && *final(self) == *old(self),
    {
        let current = match &self.state {
            ServerState::Ready { generation: g } => *g == generation,
            _ => false,
        };
        if !current {
            return None;
        }
        self.state = ServerState::Failed { failure: failure.duplicate() };
        Some(failure)
    }

    /// The slot's status; `running` is whether a ready server's process
    /// still runs.
    pub fn status(&self, running: bool) -> (r: LspServerStatus)
        ensures
            r.name@ == server_label(self.kind),
            r.detected == self.detected,
            match self.state {
                ServerState::NotStarted => r.phase == LspServerPhase::NotStarted && !r.checked
                    && !r.available && !r.running && r.last_failure is None,
                ServerState::Starting { .. } => r.phase == LspServerPhase::Starting && r.checked
                    && r.available == self.detected && !r.running && r.last_failure is None,
                ServerState::Ready { .. } => r.phase == LspServerPhase::Ready && r.checked
                    && r.available == self.detected && r.running == running && r.last_failure is None,
                ServerState::Unavailable { failure } => r.phase == LspServerPhase::Unavailable
                    && r.checked && !r.available && !r.running && r.last_failure == Some(failure),
                ServerState::Failed { failure } => r.phase == LspServerPhase::Failed && r.checked
                    && r.available == self.detected && !r.running && r.last_failure == Some(failure),
            },
    {
        let (phase, checked, available, is_running, last_failure) = match &self.state {
            ServerState::NotStarted => (LspServerPhase::NotStarted, false, false, false, None),
            ServerState::Starting { .. } => (LspServerPhase::Starting, true, true, false, None),
            ServerState::Ready { .. } => (LspServerPhase::Ready, true, true, running, None),
            ServerState::Unavailable { failure } => (
                LspServerPhase::Unavailable,
                true,
                false,
                false,
                Some(failure.duplicate()),
            ),
            ServerState::Failed { failure } => (
                LspServerPhase::Failed,
                true,
                true,
                false,
                Some(failure.duplicate()),
            ),
        };
        LspServerStatus {
            name: self.kind.label().to_owned(),
            detected: self.detected,
            checked,
            available: self.detected && available,
            running: is_running,
            phase,
            last_failure,
        }
    }
}

/// The file a request names, resolved against the workspace root.
pub fn resolve_file_path(workspace_root: &str, file_path: &str) -> (r: String)
    ensures
        is_absolute(file_path@) ==> r@ == file_path@,
        !is_absolute(file_path@) ==> r@ == join_path(workspace_root@, file_path@),
{
    let p = chars_of(file_path);
    if crate::path::is_absolute_exec(&p) {
        return file_path.to_owned();
    }
    let root = chars_of(workspace_root);
    let joined = crate::path::join_path_exec(&root, &p);
    string_from_chars(&joined)
}

/// The extension of `path` with its dot (`".rs"`), or empty without one.
pub open spec fn dotted_extension(path: Seq<char>) -> Seq<char> {
    match extension(path) {
        Some(e) => seq!['.'] + e,
        None => Seq::empty(),
    }
}

pub open spec fn kind_at(i: int) -> ServerKind {
    if i == 0 {
        ServerKind::RustAnalyzer
    } else if i == 1 {
        ServerKind::Gopls
    } else {
        ServerKind::TypeScript
    }
}

/// Whether the server of `kind` handles files of `path` and was detected.
pub open spec fn handles(kind: ServerKind, detected: bool, path: Seq<char>) -> bool {
    detected && server_extensions(kind).contains(dotted_extension(path))
}

/// The server for `path`: the first kind, in detection order, that handles
/// its extension and was detected in the workspace. `detected` holds, per
/// kind in that order, whether it was detected. Without one, an
/// `UnsupportedFile` failure naming the path.
pub fn detect_server(file_path: &str, detected: [bool; 3]) -> (r: Result<ServerKind, LspFailure>)
    ensures
        (exists|i: int| 0 <= i < 3 && handles(kind_at(i), detected@[i], file_path@)) ==> (r matches Ok(k)
            && exists|i: int|
            0 <= i < 3 && k == kind_at(i) && handles(kind_at(i), detected@[i], file_path@) && forall|
                j: int,
            |
                0 <= j < i ==> !handles(kind_at(j), detected@[j], file_path@)),
        !(exists|i: int| 0 <= i < 3 && handles(kind_at(i), detected@[i], file_path@)) ==> (r matches Err(f)
            && f.kind == LspFailureKind::UnsupportedFile && f.message@
            == "no detected LSP server for "@ + file_path@ && !f.retryable && f.server is None),
{
    let p = chars_of(file_path);
    let mut ext: Vec<char> = Vec::new();
    match extension_exec(&p) {
        Some(e) => {
            ext.push('.');
            crate::text::extend(&mut ext, &e);
        },
        None => {},
    }
    assert(ext@ =~= dotted_extension(file_path@));
    let kinds = crate::lsp_manager::types::all_server_kinds();
    let mut i: usize = 0;
    while i < 3
        invariant
            i <= 3,
            kinds@ == seq![ServerKind::RustAnalyzer, ServerKind::Gopls, ServerKind::TypeScript],
            ext@ == dotted_extension(file_path@),
            forall|j: int| 0 <= j < i ==> !handles(kind_at(j), detected@[j], file_path@),
        decreases 3 - i,
    {
        let kind = kinds[i];
        assert(kind == kind_at(i as int));
        let exts = kind.extensions();
        let mut found = false;
        let mut k: usize = 0;
        while k < exts.len()
            invariant
                k <= exts.len(),
                exts@.len() == server_extensions(kind).len(),
                forall|q: int| 0 <= q < exts@.len() ==> (#[trigger] exts@[q])@ == server_extensions(kind)[q],
                found ==> server_extensions(kind).contains(ext@),
                !found ==> forall|q: int| 0 <= q < k ==> server_extensions(kind)[q] != ext@,
            decreases exts.len() - k,
        {
            if !found && eq_str(&ext, exts[k]) {
                found = true;
                assert(server_extensions(kind)[k as int] == ext@);
            }
            k += 1;
        }
        proof {
            if !found && server_extensions(kind).contains(ext@) {
                let q = choose|q: int| 0 <= q < server_extensions(kind).len() && server_extensions(kind)[q] == ext@;
                assert(server_extensions(kind)[q] != ext@);
            }
        }
        if found && detected[i] {
            return Ok(kind);
        }
        i += 1;
    }
    let mut msg: Vec<char> = Vec::new();
    push_str(&mut msg, "no detected LSP server for ");
    push_str(&mut msg, file_path);
    Err(LspFailure::new(LspFailureKind::UnsupportedFile, string_from_chars(&msg), false))
}

/// The failure of a disabled language-server integration.
pub fn disabled_failure() -> (r: LspFailure)
    ensures
        r.kind == LspFailureKind::Disabled,
        r.message@ == "LSP is disabled by RARA_LSP"@,
        !r.retryable,
        r.server is None,
{
    LspFailure::new(LspFailureKind::Disabled, "LSP is disabled by RARA_LSP".to_owned(), false)
}

/// Whether the integration is enabled by the `RARA_LSP` setting: it is
/// unless the trimmed, lower-cased value is `0`, `false` or `off`.
pub fn lsp_enabled_from_setting(value: Option<&str>) -> (b: bool)
    ensures
        value is None ==> b,
        value matches Some(v) ==> b == !(ascii_lower(trim(v@)) == "0"@ || ascii_lower(trim(v@))
            == "false"@ || ascii_lower(trim(v@)) == "off"@),
{
    match value {
        None => true,
        Some(v) => {
            let t = trim_chars(&chars_of(v));
            let l = ascii_lower_exec(&t);
            !(eq_str(&l, "0") || eq_str(&l, "false") || eq_str(&l, "off"))
        },
    }
}

/// `i` in decimal, with a minus sign when negative.
pub open spec fn signed_decimal(i: int) -> Seq<char> {
    if i < 0 {
        seq!['-'] + decimal((-i) as nat)
    } else {
        decimal(i as nat)
    }
}

fn push_signed(out: &mut Vec<char>, i: i32)
    ensures
        final(out)@ == old(out)@ + signed_decimal(i as int),
{
    let wide = i as i64;
    if wide < 0 {
        out.push('-');
        let ghost mid = out@;
        push_decimal(out, (-wide) as u64);
        assert(out@ =~= old(out)@ + signed_decimal(i as int));
    } else {
        push_decimal(out, wide as u64);
    }
}

/// The failure of a server process that exited: with its exit code, or
/// else the signal that ended it, or an unknown status; retryable, with
/// the process status and stderr tail attached.
pub fn process_exit_failure(kind: ServerKind, code: Option<i32>, signal: Option<i32>, stderr_tail: String) -> (r:
    LspFailure)
    ensures
        r.kind == LspFailureKind::ServerExited,
        r.retryable,
        r.server matches Some(s) && s@ == server_label(kind),
        r.exit_code == code,
        r.signal == signal,
        crate::text::is_blank(stderr_tail@) ==> r.stderr_tail is None,
        !crate::text::is_blank(stderr_tail@) ==> r.stderr_tail == Some(stderr_tail),
        r.message@ == server_label(kind) + match (code, signal) {
            (Some(c), _) => " exited with code "@ + signed_decimal(c as int),
            (None, Some(s)) => " exited by signal "@ + signed_decimal(s as int),
            (None, None) => " exited with unknown status"@,
        },
{
    let mut out: Vec<char> = Vec::new();
    push_str(&mut out, kind.label());
    match (code, signal) {
        (Some(c), _) => {
            push_str(&mut out, " exited with code ");
            push_signed(&mut out, c);
        },
        (None, Some(s)) => {
            push_str(&mut out, " exited by signal ");
            push_signed(&mut out, s);
        },
        (None, None) => {
            push_str(&mut out, " exited with unknown status");
        },
    }
    LspFailure::new(LspFailureKind::ServerExited, string_from_chars(&out), true).for_server(
        kind,
    ).with_process_status(code, signal, stderr_tail)
}

/// The failure of a server process that could not be spawned: a program
/// that is not found is a missing binary (not retried); any other spawn
/// error is retryable. `program` is the command's program and `error` the
/// spawn error's text.
pub fn spawn_failure(kind: ServerKind, program: &str, not_found: bool, error: &str) -> (r: LspFailure)
    ensures
        not_found ==> r.kind == LspFailureKind::BinaryMissing && !r.retryable,
        !not_found ==> r.kind == LspFailureKind::SpawnFailed && r.retryable,
        r.server matches Some(s) && s@ == server_label(kind),
        r.exit_code is None && r.signal is None && r.stderr_tail is None,
        r.message@ == "failed to spawn "@ + server_label(kind) + " ("@ + crate::plugin_cli::debug_quoted(program@)
            + "): "@ + error@,
{
    let mut out: Vec<char> = Vec::new();
    push_str(&mut out, "failed to spawn ");
    push_str(&mut out, kind.label());
    push_str(&mut out, " (");
    let q = crate::plugin_cli::debug_str(program);
    push_str(&mut out, q.as_str());
    push_str(&mut out, "): ");
    push_str(&mut out, error);
    let (failure_kind, retryable) = if not_found {
        (LspFailureKind::BinaryMissing, false)
    } else {
        (LspFailureKind::SpawnFailed, true)
    };
    LspFailure::new(failure_kind, string_from_chars(&out), retryable).for_server(kind)
}

/// A server whose first spawn finds no binary (a not-found spawn error is
/// classified `BinaryMissing` by `spawn_failure`) becomes unavailable after
/// one attempt; every later request is refused with that failure and leaves
/// the slot as it is, so no second spawn is ever planned.
pub proof fn law_missing_binary_is_not_probed_again(
    s0: ServerSlot,
    s1: ServerSlot,
    s2: ServerSlot,
    s3: ServerSlot,
    limits: StartLimits,
    later_limits: StartLimits,
    ready_running: bool,
    later_running: bool,
    elapsed: u64,
    later_elapsed: u64,
    plan: StartPlan,
    later_plan: StartPlan,
    generation: usize,
    failure: LspFailure,
    finished: Result<(), LspFailure>,
)
    requires
        s0.state is NotStarted,
        s0.attempts == 0,
        begin_start_outcome(s0, s1, limits, ready_running, elapsed, plan),
        finish_start_outcome(s1, s2, generation, SpawnOutcome::Failed { failure }, finished),
        failure.kind == LspFailureKind::BinaryMissing,
        begin_start_outcome(s2, s3, later_limits, later_running, later_elapsed, later_plan),
    ensures
        plan is Spawn,
        finished == Err::<(), LspFailure>(failure),
        s2.attempts == 1,
        s2.state matches ServerState::Unavailable { failure: f } && f == failure,
        later_plan matches StartPlan::Refuse { failure: f } && f == failure,
        s3 == s2,
{
}

/// Once a startup completes with the server running, the next request uses
/// the running server: no new attempt and the slot stays as it is.
pub proof fn law_ready_server_is_reused(
    s1: ServerSlot,
    s2: ServerSlot,
    s3: ServerSlot,
    generation: usize,
    exit: Option<LspFailure>,
    finished: Result<(), LspFailure>,
    limits: StartLimits,
    elapsed: u64,
    plan: StartPlan,
)
    requires
        finish_start_outcome(s1, s2, generation, SpawnOutcome::Started { running: true, exit }, finished),
        begin_start_outcome(s2, s3, limits, true, elapsed, plan),
    ensures
        finished is Ok,
        plan is UseRunning,
        s3 == s2,
        s3.attempts == s1.attempts,
{
}

} // verus!

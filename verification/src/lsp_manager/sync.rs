//! Keeping a language server's view of a file in step: the file's URI, the
//! notification that carries it (open or change) and its version, which the
//! diagnostic cache then expects. Reading the file and sending the
//! notification are the host's work.
use vstd::prelude::*;

use crate::lsp_manager::cache::{DiagnosticCache, DocumentVersions};
use crate::lsp_manager::types::{server_label, LspFailure, LspFailureKind, ServerKind};
use crate::path::{is_absolute, path_order};
use crate::text::{chars_of, ends_with, push_str, starts_with, string_from_chars};

verus! {

/// The `file` URL of an absolute path.
pub uninterp spec fn file_url(path: Seq<char>) -> Seq<char>;

/// The `file` URL of an absolute directory path, ending in `/`.
pub uninterp spec fn directory_url(path: Seq<char>) -> Seq<char>;

/// `url::Url::from_file_path(path)`, as text. Its source (the Unix branch)
/// refuses exactly the paths that are not absolute; the URL it builds is
/// named `file_url` of the path and starts with `file://`.
#[verifier::external_body]
fn file_path_url(path: &str) -> (r: Option<String>)
    ensures
        r is Some == is_absolute(path@),
        r matches Some(u) ==> u@ == file_url(path@) && starts_with(u@, "file://"@),
{
    url::Url::from_file_path(std::path::Path::new(path)).ok().map(|u| u.as_str().to_owned())
}

/// `url::Url::from_directory_path(path)`, as text: refused for paths that
/// are not absolute; the URL is named `directory_url` of the path and ends
/// with `/`.
#[verifier::external_body]
fn directory_path_url(path: &str) -> (r: Option<String>)
    ensures
        r is Some == is_absolute(path@),
        r matches Some(u) ==> u@ == directory_url(path@) && ends_with(u@, "/"@),
{
    url::Url::from_directory_path(std::path::Path::new(path)).ok().map(|u| u.as_str().to_owned())
}

fn failure_with_path(kind: ServerKind, failure_kind: LspFailureKind, lead: &str, path: &str) -> (r: LspFailure)
    ensures
        r.kind == failure_kind,
        !r.retryable,
        r.server matches Some(s) && s@ == server_label(kind),
        r.message@ == lead@ + path@,
{
    let mut out: Vec<char> = Vec::new();
    push_str(&mut out, lead);
    push_str(&mut out, path);
    LspFailure::new(failure_kind, string_from_chars(&out), false).for_server(kind)
}

/// The URI of the workspace root, as the server is initialized with it.
pub fn workspace_root_uri(kind: ServerKind, workspace_root: &str) -> (r: Result<String, LspFailure>)
    ensures
        is_absolute(workspace_root@) ==> (r matches Ok(u) && u@ == directory_url(workspace_root@)),
        !is_absolute(workspace_root@) ==> (r matches Err(f) && f.kind == LspFailureKind::ProtocolError && !f.retryable
            && f.message@ == "cannot convert workspace root to LSP URI: "@ + workspace_root@),
{
    match directory_path_url(workspace_root) {
        Some(u) => Ok(u),
        None => Err(
            failure_with_path(
                kind,
                LspFailureKind::ProtocolError,
                "cannot convert workspace root to LSP URI: ",
                workspace_root,
            ),
        ),
    }
}

/// The workspace folder reported to the server: its name (the root's last
/// component, else `workspace`) and URI; none when the root has no URI.
pub fn workspace_folder(workspace_root: &str) -> (r: Option<(String, String)>)
    ensures
        r is Some == is_absolute(workspace_root@),
        r matches Some(f) ==> f.1@ == directory_url(workspace_root@) && f.0@ == match crate::path::file_name(
            workspace_root@,
        ) {
            Some(n) => n,
            None => "workspace"@,
        },
{
    match directory_path_url(workspace_root) {
        Some(uri) => {
            let name = match crate::path::file_name_exec(&chars_of(workspace_root)) {
                Some(n) => string_from_chars(&n),
                None => "workspace".to_owned(),
            };
            Some((name, uri))
        },
        None => None,
    }
}

/// The failure of a file that could not be read for the server.
pub fn file_read_failure(kind: ServerKind, path: &str, error: &str) -> (r: LspFailure)
    ensures
        r.kind == LspFailureKind::FileReadFailed,
        !r.retryable,
        r.server matches Some(s) && s@ == server_label(kind),
        r.message@ == "failed to read "@ + path@ + " for LSP: "@ + error@,
{
    let mut out: Vec<char> = Vec::new();
    push_str(&mut out, "failed to read ");
    push_str(&mut out, path);
    push_str(&mut out, " for LSP: ");
    push_str(&mut out, error);
    LspFailure::new(LspFailureKind::FileReadFailed, string_from_chars(&out), false).for_server(kind)
}

/// The notification that brings a file to the server.
#[derive(Clone, Debug, PartialEq, Eq)]
pub struct FileSync {
    pub uri: String,
    /// `textDocument/didOpen` for a file not yet open, else
    /// `textDocument/didChange`.
    pub method: &'static str,
    pub version: i64,
}

/// Prepares the notification for `path`: its URI (a path that is not
/// absolute has none and fails), then the next version of the document,
/// which the diagnostic cache is told to expect.
pub fn prepare_file_sync(
    kind: ServerKind,
    path: &str,
    documents: &mut DocumentVersions,
    cache: &mut DiagnosticCache,
) -> (r: Result<FileSync, LspFailure>)
    requires
        old(documents).wf(),
        old(cache).wf(),
    ensures
        final(documents).wf(),
        final(cache).wf(),
        !is_absolute(path@) ==> (r matches Err(f) && f.kind == LspFailureKind::ProtocolError && !f.retryable
            && f.message@ == "cannot convert file path to LSP URI: "@ + path@ && *final(documents) == *old(documents)
            && *final(cache) == *old(cache)),
        is_absolute(path@) ==> (r matches Ok(s) && {
            &&& s.uri@ == file_url(path@)
            &&& match old(documents).version_of(path@) {
                Some(v) => s.method@ == "textDocument/didChange"@ && s.version == (if v == i64::MAX {
                    v
                } else {
                    (v + 1) as i64
                }),
                None => s.method@ == "textDocument/didOpen"@ && s.version == 1,
            }
            &&& final(documents).version_of(path@) == Some(s.version)
            &&& forall|q: Seq<char>|
                path_order(q, path@) != 0 ==> #[trigger] final(documents).version_of(q) == old(
                    documents,
                ).version_of(q)
            &&& crate::lsp_manager::cache::expected_of(final(cache).expected(), path@) == s.version
            &&& final(cache).cached() == old(cache).cached()
        }),
{
    let uri = match file_path_url(path) {
        Some(u) => u,
        None => {
            return Err(
                failure_with_path(kind, LspFailureKind::ProtocolError, "cannot convert file path to LSP URI: ", path),
            );
        },
    };
    let (opened, version) = documents.next_version(path);
    cache.mark_expected_version(string_from_chars(&chars_of(path)), version);
    let method = if opened {
        "textDocument/didOpen"
    } else {
        "textDocument/didChange"
    };
    Ok(FileSync { uri, method, version })
}

} // verus!

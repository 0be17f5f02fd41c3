//! Diagnostics published by language servers, per file and document
//! version.
use vstd::prelude::*;

use crate::lsp_manager::types::{Diagnostic, DiagnosticFreshness, DiagnosticSeverity, LspDiagnostics};
use crate::path::{lemma_path_order_props, lemma_path_order_trans, path_order, path_order_exec};
use crate::text::{chars_of, decimal, join, push_decimal, push_str, string_from_chars};

verus! {

// ---------------------------------------------------------------------------
// Maps keyed by path
// ---------------------------------------------------------------------------

/// Keys strictly increasing in path order: no two keys name the same path.
pub open spec fn path_sorted<V>(s: Seq<(String, V)>) -> bool {
    forall|i: int, j: int| 0 <= i < j < s.len() ==> path_order(s[i].0@, s[j].0@) < 0
}

pub open spec fn path_index_from<V>(s: Seq<(String, V)>, p: Seq<char>, i: int) -> int
    decreases s.len() - i,
{
    if i < 0 || i >= s.len() {
        -1
    } else if path_order(s[i].0@, p) == 0 {
        i
    } else {
        path_index_from(s, p, i + 1)
    }
}

/// Index of the entry for path `p` (the same components); -1 when none.
pub open spec fn path_index<V>(s: Seq<(String, V)>, p: Seq<char>) -> int {
    path_index_from(s, p, 0)
}

/// The value stored for path `p`.
pub open spec fn path_lookup<V>(s: Seq<(String, V)>, p: Seq<char>) -> Option<V> {
    if path_index(s, p) >= 0 {
        Some(s[path_index(s, p)].1)
    } else {
        None
    }
}

pub open spec fn path_insert_pos_from<V>(s: Seq<(String, V)>, p: Seq<char>, i: int) -> int
    decreases s.len() - i,
{
    if i < 0 || i >= s.len() {
        if i < 0 { 0 } else { s.len() as int }
    } else if path_order(p, s[i].0@) < 0 {
        i
    } else {
        path_insert_pos_from(s, p, i + 1)
    }
}

/// `s` with `v` stored for the path `k`.
pub open spec fn path_store<V>(s: Seq<(String, V)>, k: String, v: V) -> Seq<(String, V)> {
    let i = path_index(s, k@);
    if i >= 0 {
        s.update(i, (k, v))
    } else {
        s.insert(path_insert_pos_from(s, k@, 0), (k, v))
    }
}

proof fn lemma_path_index_props<V>(s: Seq<(String, V)>, p: Seq<char>, i: int)
    requires
        0 <= i <= s.len(),
    ensures
        -1 <= path_index_from(s, p, i) < s.len(),
        path_index_from(s, p, i) >= 0 ==> i <= path_index_from(s, p, i) && path_order(
            s[path_index_from(s, p, i)].0@,
            p,
        ) == 0,
        path_index_from(s, p, i) < 0 ==> forall|j: int|
            i <= j < s.len() ==> path_order((#[trigger] s[j]).0@, p) != 0,
    decreases s.len() - i,
{
    if i < s.len() && path_order(s[i].0@, p) != 0 {
        lemma_path_index_props(s, p, i + 1);
    }
}

proof fn lemma_path_insert_pos_props<V>(s: Seq<(String, V)>, p: Seq<char>, i: int)
    requires
        0 <= i <= s.len(),
    ensures
        i <= path_insert_pos_from(s, p, i) <= s.len(),
        path_insert_pos_from(s, p, i) < s.len() ==> path_order(
            p,
            s[path_insert_pos_from(s, p, i)].0@,
        ) < 0,
        forall|j: int|
            i <= j < path_insert_pos_from(s, p, i) ==> path_order(p, (#[trigger] s[j]).0@) >= 0,
    decreases s.len() - i,
{
    if i < s.len() && path_order(p, s[i].0@) >= 0 {
        lemma_path_insert_pos_props(s, p, i + 1);
    }
}

/// In a path-sorted map, every entry for a path equivalent to `p` is the
/// one `path_index` finds.
proof fn lemma_path_index_unique<V>(s: Seq<(String, V)>, p: Seq<char>, j: int)
    requires
        path_sorted(s),
        0 <= j < s.len(),
        path_order(s[j].0@, p) == 0,
    ensures
        path_index(s, p) == j,
{
    lemma_path_index_props(s, p, 0);
    let i = path_index(s, p);
    if i != j {
        lemma_path_order_props(s[i].0@, p);
        lemma_path_order_props(s[j].0@, p);
        if i < j {
            lemma_path_order_trans(s[j].0@, p, s[i].0@);
            lemma_path_order_props(s[i].0@, s[j].0@);
        } else {
            lemma_path_order_trans(s[i].0@, p, s[j].0@);
            lemma_path_order_props(s[j].0@, s[i].0@);
        }
    }
}

/// Storing keeps the order; the stored path then maps to the stored value
/// and every other path keeps its value.
proof fn lemma_path_store<V>(s: Seq<(String, V)>, k: String, v: V, q: Seq<char>)
    requires
        path_sorted(s),
    ensures
        path_sorted(path_store(s, k, v)),
        path_lookup(path_store(s, k, v), k@) == Some(v),
        path_order(q, k@) != 0 ==> path_lookup(path_store(s, k, v), q) == path_lookup(s, q),
        path_store(s, k, v).len() <= s.len() + 1,
{
    lemma_path_index_props(s, k@, 0);
    let idx = path_index(s, k@);
    let p = path_insert_pos_from(s, k@, 0);
    let t = path_store(s, k, v);
    lemma_path_order_props(k@, k@);
    if idx >= 0 {
        assert forall|i: int, j: int| 0 <= i < j < t.len() implies path_order(t[i].0@, t[j].0@)
            < 0 by {
            if i == idx {
                lemma_path_order_props(s[idx].0@, k@);
                lemma_path_order_trans(k@, s[idx].0@, s[j].0@);
            } else if j == idx {
                lemma_path_order_trans(s[i].0@, s[idx].0@, k@);
            }
        }
    } else {
        lemma_path_insert_pos_props(s, k@, 0);
        assert forall|j: int| 0 <= j < p implies path_order(s[j].0@, k@) < 0 by {
            lemma_path_order_props(k@, s[j].0@);
        }
        assert forall|j: int| p <= j < s.len() implies path_order(k@, s[j].0@) < 0 by {
            if j > p {
                lemma_path_order_trans(k@, s[p].0@, s[j].0@);
            }
        }
        assert forall|i: int, j: int| 0 <= i < j < t.len() implies path_order(t[i].0@, t[j].0@)
            < 0 by {
            if i < p && j < p {
                assert(t[i] == s[i] && t[j] == s[j]);
            } else if i < p && j == p {
                assert(t[i] == s[i]);
            } else if i < p {
                assert(t[i] == s[i] && t[j] == s[j - 1]);
                lemma_path_order_trans(s[i].0@, k@, s[j - 1].0@);
            } else if i == p {
                assert(t[j] == s[j - 1]);
            } else {
                assert(t[i] == s[i - 1] && t[j] == s[j - 1]);
            }
        }
    }
    let pos = if idx >= 0 { idx } else { p };
    assert(t[pos] == (k, v));
    lemma_path_index_unique(t, k@, pos);
    if path_order(q, k@) != 0 {
        lemma_path_order_props(q, k@);
        lemma_path_index_props(s, q, 0);
        lemma_path_index_props(t, q, 0);
        let iq = path_index(s, q);
        if iq >= 0 {
            let jq = if idx >= 0 || iq < p { iq } else { iq + 1 };
            assert(t[jq] == s[iq]) by {
                if idx >= 0 {
                    assert(iq != idx) by {
                        if iq == idx {
                            lemma_path_order_props(s[idx].0@, q);
                            lemma_path_order_props(s[idx].0@, k@);
                            lemma_path_order_trans(q, s[idx].0@, k@);
                            lemma_path_order_trans(k@, s[idx].0@, q);
                        }
                    }
                }
            }
            lemma_path_index_unique(t, q, jq);
        } else {
            let jt = path_index(t, q);
            if jt >= 0 {
                if jt == pos {
                    lemma_path_order_props(k@, q);
                } else {
                    let i = if idx >= 0 || jt < p { jt } else { jt - 1 };
                    assert(s[i] == t[jt]);
                }
            }
        }
    }
}

/// A map from paths to values, walked in path order.
pub struct PathMap<V> {
    entries: Vec<(String, V)>,
}

impl<V> PathMap<V> {
    pub closed spec fn entries(&self) -> Seq<(String, V)> {
        self.entries@
    }

    pub open spec fn wf(&self) -> bool {
        path_sorted(self.entries())
    }

    pub fn new() -> (r: Self)
        ensures
            r.wf(),
            r.entries().len() == 0,
    {
        PathMap { entries: Vec::new() }
    }

    pub fn len(&self) -> (n: usize)
        ensures
            n == self.entries().len(),
    {
        self.entries.len()
    }

    pub fn entry(&self, i: usize) -> (r: &(String, V))
        requires
            i < self.entries().len(),
        ensures
            *r == self.entries()[i as int],
    {
        &self.entries[i]
    }

    pub fn find(&self, path: &str) -> (r: Option<usize>)
        ensures
            match r {
                Some(i) => i as int == path_index(self.entries(), path@),
                None => path_index(self.entries(), path@) == -1,
            },
    {
        let pv = chars_of(path);
        let mut i: usize = 0;
        while i < self.entries.len()
            invariant
                i <= self.entries.len(),
                pv@ == path@,
                path_index(self.entries@, path@) == path_index_from(self.entries@, path@, i as int),
            decreases self.entries.len() - i,
        {
            let kv = chars_of(self.entries[i].0.as_str());
            if path_order_exec(&kv, &pv) == 0 {
                return Some(i);
            }
            i += 1;
        }
        None
    }

    pub fn get(&self, path: &str) -> (r: Option<&V>)
        ensures
            match path_lookup(self.entries(), path@) {
                Some(v) => r == Some(&v),
                None => r is None,
            },
    {
        proof {
            lemma_path_index_props(self.entries@, path@, 0);
        }
        match self.find(path) {
            Some(i) => Some(&self.entries[i].1),
            None => None,
        }
    }

    fn insert_position(&self, path: &str) -> (r: usize)
        ensures
            r as int == path_insert_pos_from(self.entries(), path@, 0),
    {
        let pv = chars_of(path);
        let mut i: usize = 0;
        while i < self.entries.len()
            invariant
                i <= self.entries.len(),
                pv@ == path@,
                path_insert_pos_from(self.entries@, path@, 0) == path_insert_pos_from(
                    self.entries@,
                    path@,
                    i as int,
                ),
            decreases self.entries.len() - i,
        {
            let kv = chars_of(self.entries[i].0.as_str());
            if path_order_exec(&pv, &kv) < 0 {
                return i;
            }
            i += 1;
        }
        i
    }

    /// Stores `value` for `path`, replacing the value of the same path.
    pub fn insert(&mut self, path: String, value: V)
        requires
            old(self).wf(),
        ensures
            final(self).wf(),
            final(self).entries() == path_store(old(self).entries(), path, value),
    {
        proof {
            lemma_path_store(self.entries@, path, value, path@);
            lemma_path_index_props(self.entries@, path@, 0);
            lemma_path_insert_pos_props(self.entries@, path@, 0);
        }
        match self.find(path.as_str()) {
            Some(i) => {
                self.entries.set(i, (path, value));
            },
            None => {
                let p = self.insert_position(path.as_str());
                self.entries.insert(p, (path, value));
            },
        }
    }
}

// ---------------------------------------------------------------------------
// Diagnostic cache
// ---------------------------------------------------------------------------

/// The diagnostics a server published for one document version.
#[derive(Clone, Debug)]
pub struct CachedDiagnosticSet {
    pub document_version: i64,
    pub diagnostics: Vec<Diagnostic>,
}

/// The version the runtime last sent for `path`; 0 when none.
pub open spec fn expected_of(s: Seq<(String, i64)>, path: Seq<char>) -> i64 {
    match path_lookup(s, path) {
        Some(v) => v,
        None => 0,
    }
}

pub open spec fn diagnostic_total(s: Seq<(String, CachedDiagnosticSet)>) -> nat
    decreases s.len(),
{
    if s.len() == 0 {
        0
    } else {
        diagnostic_total(s.drop_last()) + s.last().1.diagnostics@.len()
    }
}

pub open spec fn severity_word(s: DiagnosticSeverity) -> Seq<char> {
    match s {
        DiagnosticSeverity::Error => "error"@,
        DiagnosticSeverity::Warning => "warning"@,
        DiagnosticSeverity::Information => "info"@,
        DiagnosticSeverity::Hint => "hint"@,
    }
}

/// `"  file:line:column severity[code] message"`, with line and column
/// counted from one.
pub open spec fn diagnostic_line(d: Diagnostic) -> Seq<char> {
    "  "@ + d.file@ + ":"@ + decimal((d.line + 1) as nat) + ":"@ + decimal((d.column + 1) as nat) + " "@
        + severity_word(d.severity) + match d.code {
        Some(c) => "["@ + c@ + "]"@,
        None => Seq::empty(),
    } + " "@ + d.message@
}

pub open spec fn diagnostic_lines(ds: Seq<Diagnostic>) -> Seq<Seq<char>> {
    ds.map_values(|d: Diagnostic| diagnostic_line(d))
}

pub open spec fn entry_lines(s: Seq<(String, CachedDiagnosticSet)>) -> Seq<Seq<char>>
    decreases s.len(),
{
    if s.len() == 0 {
        Seq::empty()
    } else {
        entry_lines(s.drop_last()) + diagnostic_lines(s.last().1.diagnostics@)
    }
}

/// The summary: empty without entries; otherwise a heading and one line per
/// diagnostic, files in path order, joined by newlines.
pub open spec fn summary_text(s: Seq<(String, CachedDiagnosticSet)>) -> Seq<char> {
    if s.len() == 0 {
        Seq::empty()
    } else {
        join(seq!["# LSP Diagnostics"@] + entry_lines(s), seq!['\n'])
    }
}

/// The version last sent to the server for each open document.
pub struct DocumentVersions {
    versions: PathMap<i64>,
}

impl DocumentVersions {
    pub closed spec fn version_of(&self, p: Seq<char>) -> Option<i64> {
        path_lookup(self.versions.entries(), p)
    }

    pub closed spec fn wf(&self) -> bool {
        self.versions.wf()
    }

    /// No document open.
    pub fn new() -> (r: Self)
        ensures
            r.wf(),
            forall|p: Seq<char>| #[trigger] r.version_of(p) is None,
    {
        DocumentVersions { versions: PathMap::new() }
    }

    /// The version to send for `path`: a document not yet open opens with
    /// version 1 (the first result says it is opened); an open one moves to
    /// the next version, saturating. The version is remembered.
    pub fn next_version(&mut self, path: &str) -> (r: (bool, i64))
        requires
            old(self).wf(),
        ensures
            final(self).wf(),
            match old(self).version_of(path@) {
                Some(v) => !r.0 && r.1 == (if v == i64::MAX { v } else { (v + 1) as i64 }),
                None => r.0 && r.1 == 1,
            },
            final(self).version_of(path@) == Some(r.1),
            forall|q: Seq<char>|
                path_order(q, path@) != 0 ==> #[trigger] final(self).version_of(q) == old(self).version_of(q),
    {
        let next = match self.versions.get(path) {
            Some(v) => {
                let v = *v;
                (false, if v == i64::MAX { v } else { v + 1 })
            },
            None => (true, 1i64),
        };
        let key = crate::text::string_from_chars(&chars_of(path));
        proof {
            assert forall|q: Seq<char>| path_order(q, path@) != 0 implies path_lookup(
                path_store(self.versions.entries(), key, next.1),
                q,
            ) == path_lookup(self.versions.entries(), q) by {
                lemma_path_store(self.versions.entries(), key, next.1, q);
            }
            lemma_path_store(self.versions.entries(), key, next.1, path@);
        }
        self.versions.insert(key, next.1);
        next
    }
}

/// Latest diagnostics per file, with the document version they describe.
pub struct DiagnosticCache {
    expected_versions: PathMap<i64>,
    entries: PathMap<CachedDiagnosticSet>,
}

impl DiagnosticCache {
    /// The versions the runtime sent, per file.
    pub closed spec fn expected(&self) -> Seq<(String, i64)> {
        self.expected_versions.entries()
    }

    /// The cached diagnostics, per file in path order.
    pub closed spec fn cached(&self) -> Seq<(String, CachedDiagnosticSet)> {
        self.entries.entries()
    }

    pub closed spec fn wf(&self) -> bool {
        self.expected_versions.wf() && self.entries.wf()
    }

    pub fn new() -> (r: Self)
        ensures
            r.wf(),
            r.expected().len() == 0,
            r.cached().len() == 0,
    {
        DiagnosticCache { expected_versions: PathMap::new(), entries: PathMap::new() }
    }

    /// Records that `version` of `path` was sent to the server.
    pub fn mark_expected_version(&mut self, path: String, version: i64)
        requires
            old(self).wf(),
        ensures
            final(self).wf(),
            final(self).cached() == old(self).cached(),
            expected_of(final(self).expected(), path@) == version,
            forall|q: Seq<char>|
                path_order(q, path@) != 0 ==> #[trigger] expected_of(final(self).expected(), q)
                    == expected_of(old(self).expected(), q),
    {
        proof {
            assert forall|q: Seq<char>| path_order(q, path@) != 0 implies #[trigger] expected_of(
                path_store(self.expected_versions.entries(), path, version),
                q,
            ) == expected_of(self.expected_versions.entries(), q) by {
                lemma_path_store(self.expected_versions.entries(), path, version, q);
            }
            lemma_path_store(self.expected_versions.entries(), path, version, path@);
        }
        self.expected_versions.insert(path, version);
    }

    /// Stores diagnostics a server published for `path`. A publication for
    /// a version older than the one sent, or older than the cached one, is
    /// stale and refused (false). Without a version the publication counts
    /// for the version sent.
    pub fn publish(&mut self, path: String, published_version: Option<i64>, diagnostics: Vec<
        Diagnostic,
    >) -> (accepted: bool)
        requires
            old(self).wf(),
        ensures
            final(self).wf(),
            final(self).expected() == old(self).expected(),
            ({
                let expected = expected_of(old(self).expected(), path@);
                let version = match published_version {
                    Some(v) => v,
                    None => expected,
                };
                let stale = (published_version matches Some(v) && v < expected) || (path_lookup(
                    old(self).cached(),
                    path@,
                ) matches Some(e) && e.document_version > version);
                &&& accepted == !stale
                &&& stale ==> final(self).cached() == old(self).cached()
                &&& !stale ==> path_lookup(final(self).cached(), path@) == Some(
                    CachedDiagnosticSet { document_version: version, diagnostics },
                )
                &&& forall|q: Seq<char>|
                    path_order(q, path@) != 0 ==> #[trigger] path_lookup(final(self).cached(), q)
                        == path_lookup(old(self).cached(), q)
            }),
    {
        let expected: i64 = match self.expected_versions.get(path.as_str()) {
            Some(v) => *v,
            None => 0,
        };
        if let Some(v) = published_version {
            if v < expected {
                return false;
            }
        }
        let version = match published_version {
            Some(v) => v,
            None => expected,
        };
        if let Some(entry) = self.entries.get(path.as_str()) {
            if entry.document_version > version {
                return false;
            }
        }
        let ghost s = self.entries.entries();
        let set = CachedDiagnosticSet { document_version: version, diagnostics };
        proof {
            assert forall|q: Seq<char>| path_order(q, path@) != 0 implies #[trigger] path_lookup(
                path_store(s, path, set),
                q,
            ) == path_lookup(s, q) by {
                lemma_path_store(s, path, set, q);
            }
            lemma_path_store(s, path, set, path@);
        }
        self.entries.insert(path, set);
        true
    }

    /// The diagnostics of `path` and how fresh they are: `Pending` when
    /// none were published, `Current` when they describe the version sent
    /// (or a later one), `Cached` when a newer version was sent since.
    pub fn get(&self, path: &str) -> (r: LspDiagnostics)
        ensures
            match path_lookup(self.cached(), path@) {
                None => r.diagnostics@.len() == 0 && r.freshness == DiagnosticFreshness::Pending,
                Some(e) => r.diagnostics@ == e.diagnostics@ && r.freshness == if e.document_version
                    >= expected_of(self.expected(), path@) {
                    DiagnosticFreshness::Current
                } else {
                    DiagnosticFreshness::Cached
                },
            },
    {
        let entry = match self.entries.get(path) {
            Some(e) => e,
            None => {
                return LspDiagnostics { diagnostics: Vec::new(), freshness: DiagnosticFreshness::Pending };
            },
        };
        let expected: i64 = match self.expected_versions.get(path) {
            Some(v) => *v,
            None => 0,
        };
        let freshness = if entry.document_version >= expected {
            DiagnosticFreshness::Current
        } else {
            DiagnosticFreshness::Cached
        };
        let mut diagnostics: Vec<Diagnostic> = Vec::new();
        let mut i: usize = 0;
        while i < entry.diagnostics.len()
            invariant
                i <= entry.diagnostics.len(),
                diagnostics@ == entry.diagnostics@.take(i as int),
            decreases entry.diagnostics.len() - i,
        {
            diagnostics.push(entry.diagnostics[i].duplicate());
            assert(diagnostics@ =~= entry.diagnostics@.take(i + 1));
            i += 1;
        }
        assert(entry.diagnostics@.take(entry.diagnostics.len() as int) =~= entry.diagnostics@);
        LspDiagnostics { diagnostics, freshness }
    }

    /// The number of files with diagnostics and the number of diagnostics.
    pub fn counts(&self) -> (r: (usize, usize))
        requires
            diagnostic_total(self.cached()) <= usize::MAX,
        ensures
            r.0 == self.cached().len(),
            r.1 == diagnostic_total(self.cached()),
    {
        let n = self.entries.len();
        let mut total: usize = 0;
        let mut i: usize = 0;
        while i < n
            invariant
                n == self.entries.entries().len(),
                i <= n,
                diagnostic_total(self.entries.entries()) <= usize::MAX,
                total == diagnostic_total(self.entries.entries().take(i as int)),
            decreases n - i,
        {
            let ghost t = self.entries.entries().take(i + 1);
            assert(t.drop_last() =~= self.entries.entries().take(i as int));
            proof {
                lemma_total_prefix(self.entries.entries(), i + 1);
            }
            total = total + self.entries.entry(i).1.diagnostics.len();
            i += 1;
        }
        assert(self.entries.entries().take(n as int) =~= self.entries.entries());
        (n, total)
    }

    /// A plain-text summary of every cached diagnostic: empty when nothing
    /// is cached, else a heading and one line per diagnostic, files in path
    /// order.
    pub fn summary(&self) -> (r: String)
        ensures
            r@ == summary_text(self.cached()),
    {
        let n = self.entries.len();
        if n == 0 {
            return String::new();
        }
        let mut lines: Vec<Vec<char>> = Vec::new();
        lines.push(chars_of("# LSP Diagnostics"));
        let ghost head = seq!["# LSP Diagnostics"@];
        let mut i: usize = 0;
        while i < n
            invariant
                n == self.entries.entries().len(),
                i <= n,
                crate::text::views(lines@) == head + entry_lines(self.entries.entries().take(i as int)),
            decreases n - i,
        {
            let ghost t = self.entries.entries().take(i + 1);
            assert(t.drop_last() =~= self.entries.entries().take(i as int));
            let ds = &self.entries.entry(i).1.diagnostics;
            let ghost before = crate::text::views(lines@);
            let mut j: usize = 0;
            while j < ds.len()
                invariant
                    j <= ds.len(),
                    crate::text::views(lines@) == before + diagnostic_lines(ds@.take(j as int)),
                decreases ds.len() - j,
            {
                let line = render_diagnostic(&ds[j]);
                let ghost prev_lines = lines@;
                lines.push(line);
                assert(crate::text::views(lines@) =~= crate::text::views(prev_lines).push(
                    diagnostic_line(ds@[j as int]),
                ));
                assert(diagnostic_lines(ds@.take(j + 1)) =~= diagnostic_lines(ds@.take(j as int)).push(
                    diagnostic_line(ds@[j as int]),
                ));
                assert(crate::text::views(lines@) =~= before + diagnostic_lines(ds@.take(j + 1)));
                j += 1;
            }
            assert(ds@.take(ds.len() as int) =~= ds@);
            i += 1;
        }
        assert(self.entries.entries().take(n as int) =~= self.entries.entries());
        let mut sep: Vec<char> = Vec::new();
        sep.push('\n');
        let joined = crate::text::join_exec(&lines, &sep);
        string_from_chars(&joined)
    }
}

proof fn lemma_total_prefix(s: Seq<(String, CachedDiagnosticSet)>, i: int)
    requires
        0 <= i <= s.len(),
    ensures
        diagnostic_total(s.take(i)) <= diagnostic_total(s),
    decreases s.len() - i,
{
    if i < s.len() {
        lemma_total_prefix(s, i + 1);
        assert(s.take(i + 1).drop_last() =~= s.take(i));
    } else {
        assert(s.take(i) =~= s);
    }
}

/// Each summary line names its diagnostic's own severity: after
/// `file:line:column ` (line and column counted from one) comes `error`,
/// `warning`, `info` or `hint` for an error, a warning, information or a
/// hint, then the code in brackets if any, a space and the message. Two
/// diagnostics that differ only in severity never render the same line, and
/// a summary of one file with one diagnostic is the heading and that line.
pub proof fn law_summary_line_names_the_severity(d: Diagnostic, e: Diagnostic, file: String, set: CachedDiagnosticSet)
    ensures
        diagnostic_line(d) == "  "@ + d.file@ + ":"@ + decimal((d.line + 1) as nat) + ":"@ + decimal(
            (d.column + 1) as nat,
        ) + " "@ + match d.severity {
            DiagnosticSeverity::Error => "error"@,
            DiagnosticSeverity::Warning => "warning"@,
            DiagnosticSeverity::Information => "info"@,
            DiagnosticSeverity::Hint => "hint"@,
        } + match d.code {
            Some(c) => "["@ + c@ + "]"@,
            None => Seq::empty(),
        } + " "@ + d.message@,
        (e.file == d.file && e.line == d.line && e.column == d.column && e.severity != d.severity)
            ==> diagnostic_line(e) != diagnostic_line(d),
        set.diagnostics@ == seq![d] ==> summary_text(seq![(file, set)]) == "# LSP Diagnostics"@ + "\n"@
            + diagnostic_line(d),
{
    reveal_strlit("error");
    reveal_strlit("warning");
    reveal_strlit("info");
    reveal_strlit("hint");
    reveal_strlit("\n");
    if e.file == d.file && e.line == d.line && e.column == d.column && e.severity != d.severity {
        let p = "  "@ + d.file@ + ":"@ + decimal((d.line + 1) as nat) + ":"@ + decimal((d.column + 1) as nat)
            + " "@;
        let n = p.len() as int;
        let ld = diagnostic_line(d);
        let le = diagnostic_line(e);
        assert(ld[n] == severity_word(d.severity)[0]);
        assert(le[n] == severity_word(e.severity)[0]);
        assert(severity_word(d.severity)[0] != severity_word(e.severity)[0]);
    }
    if set.diagnostics@ == seq![d] {
        let s = seq![(file, set)];
        assert(s.drop_last() =~= Seq::<(String, CachedDiagnosticSet)>::empty());
        assert(diagnostic_lines(seq![d]) =~= seq![diagnostic_line(d)]);
        assert(s.last().1.diagnostics@ == seq![d]);
        assert(entry_lines(s.drop_last()) =~= Seq::<Seq<char>>::empty());
        assert(entry_lines(s) =~= seq![diagnostic_line(d)]);
        let parts = seq!["# LSP Diagnostics"@] + entry_lines(s);
        assert(parts.drop_last() =~= seq!["# LSP Diagnostics"@]);
        assert(join(parts.drop_last(), seq!['\n']) == "# LSP Diagnostics"@);
        assert(parts.last() == diagnostic_line(d));
        assert(seq!['\n'] =~= "\n"@);
    }
}

fn render_diagnostic(d: &Diagnostic) -> (r: Vec<char>)
    ensures
        r@ == diagnostic_line(*d),
{
    let mut out: Vec<char> = Vec::new();
    push_str(&mut out, "  ");
    push_str(&mut out, d.file.as_str());
    push_str(&mut out, ":");
    push_decimal(&mut out, d.line as u64 + 1);
    push_str(&mut out, ":");
    push_decimal(&mut out, d.column as u64 + 1);
    push_str(&mut out, " ");
    let word = match d.severity {
        DiagnosticSeverity::Error => "error",
        DiagnosticSeverity::Warning => "warning",
        DiagnosticSeverity::Information => "info",
        DiagnosticSeverity::Hint => "hint",
    };
    push_str(&mut out, word);
    if let Some(c) = &d.code {
        push_str(&mut out, "[");
        push_str(&mut out, c.as_str());
        push_str(&mut out, "]");
    }
    push_str(&mut out, " ");
    push_str(&mut out, d.message.as_str());
    assert(out@ =~= diagnostic_line(*d));
    out
}

// ---------------------------------------------------------------------------
// Paths and stderr
// ---------------------------------------------------------------------------

/// The number of trailing stderr bytes kept from a language server.
pub const STDERR_TAIL_BYTES: usize = 16384;

/// Appends `chunk` to `tail` and keeps only the last `STDERR_TAIL_BYTES`
/// bytes.
pub fn append_bounded_tail(tail: &mut Vec<u8>, chunk: &[u8])
    requires
        old(tail)@.len() + chunk@.len() <= usize::MAX,
    ensures
        ({
            let all = old(tail)@ + chunk@;
            final(tail)@ == if all.len() > STDERR_TAIL_BYTES {
                all.skip(all.len() - STDERR_TAIL_BYTES)
            } else {
                all
            }
        }),
{
    let ghost all = tail@ + chunk@;
    let mut i: usize = 0;
    let ghost start = tail@;
    while i < chunk.len()
        invariant
            i <= chunk.len(),
            tail@ == start + chunk@.take(i as int),
        decreases chunk.len() - i,
    {
        tail.push(chunk[i]);
        assert(tail@ =~= start + chunk@.take(i + 1));
        i += 1;
    }
    assert(chunk@.take(chunk.len() as int) =~= chunk@);
    if tail.len() > STDERR_TAIL_BYTES {
        let remove = tail.len() - STDERR_TAIL_BYTES;
        let mut kept: Vec<u8> = Vec::new();
        let mut k: usize = remove;
        while k < tail.len()
            invariant
                remove <= k <= tail.len(),
                kept@ == tail@.subrange(remove as int, k as int),
            decreases tail.len() - k,
        {
            kept.push(tail[k]);
            assert(kept@ =~= tail@.subrange(remove as int, k + 1));
            k += 1;
        }
        assert(tail@.subrange(remove as int, tail.len() as int) =~= all.skip(remove as int));
        *tail = kept;
    }
}

// ---------------------------------------------------------------------------
// Published diagnostics
// ---------------------------------------------------------------------------

/// A diagnostic as a `textDocument/publishDiagnostics` notification carries
/// it: the start of its range, its severity and code, and its message, each
/// absent where the notification lacks it or has it of another JSON type (a
/// numeric code is carried as its decimal text).
#[derive(Clone, Debug, PartialEq, Eq)]
pub struct RawDiagnostic {
    pub start_line: Option<u64>,
    pub start_character: Option<u64>,
    pub severity: Option<u64>,
    pub message: Option<String>,
    pub code: Option<String>,
}

/// The parameters of a `textDocument/publishDiagnostics` notification.
#[derive(Clone, Debug, PartialEq, Eq)]
pub struct PublishDiagnosticsParams {
    pub uri: Option<String>,
    pub version: Option<i64>,
    pub diagnostics: Option<Vec<RawDiagnostic>>,
}

/// The path a `file` URI names.
pub uninterp spec fn file_uri_path(uri: Seq<char>) -> Option<Seq<char>>;

/// `url::Url::parse(uri)` then `Url::to_file_path`, as text. The result,
/// none where the URI does not parse or names no local path (or a path that
/// is not UTF-8), is named `file_uri_path` of the URI.
#[verifier::external_body]
fn path_from_file_uri(uri: &str) -> (r: Option<String>)
    ensures
        match r {
            Some(p) => file_uri_path(uri@) == Some(p@),
            None => file_uri_path(uri@) is None,
        },
{
    url::Url::parse(uri).ok().and_then(|u| u.to_file_path().ok()).and_then(|p| p.into_os_string().into_string().ok())
}

/// What remains of `path` after the leading components of `root`.
pub uninterp spec fn path_without_prefix(path: Seq<char>, root: Seq<char>) -> Option<Seq<char>>;

/// `Path::strip_prefix`, as text: none where `root` is not a prefix of
/// `path` component by component; the rest is named `path_without_prefix`.
#[verifier::external_body]
fn strip_path_prefix(path: &str, root: &str) -> (r: Option<String>)
    ensures
        match r {
            Some(s) => path_without_prefix(path@, root@) == Some(s@),
            None => path_without_prefix(path@, root@) is None,
        },
{
    std::path::Path::new(path).strip_prefix(root).ok().map(|p| p.display().to_string())
}

/// How a diagnostic's file is shown: relative to the workspace root when it
/// lies under it, else as it is.
pub open spec fn diagnostic_display_path(path: Seq<char>, workspace_root: Seq<char>) -> Seq<char> {
    match path_without_prefix(path, workspace_root) {
        Some(rest) => rest,
        None => path,
    }
}

pub fn display_path_for_diagnostic(path: &str, workspace_root: &str) -> (r: String)
    ensures
        r@ == diagnostic_display_path(path@, workspace_root@),
{
    match strip_path_prefix(path, workspace_root) {
        Some(rest) => rest,
        None => path.to_owned(),
    }
}

/// The severity a notification's number stands for; a missing severity is
/// a hint, an unknown one information.
pub open spec fn severity_of(s: Option<u64>) -> DiagnosticSeverity {
    match s {
        Some(v) => if v == 1 {
            DiagnosticSeverity::Error
        } else if v == 2 {
            DiagnosticSeverity::Warning
        } else if v == 4 {
            DiagnosticSeverity::Hint
        } else {
            DiagnosticSeverity::Information
        },
        None => DiagnosticSeverity::Hint,
    }
}

/// Whether a published diagnostic is kept: it has a start position that
/// fits in 32 bits and a message.
pub open spec fn parsable(r: RawDiagnostic) -> bool {
    &&& r.start_line matches Some(l) && l <= u32::MAX
    &&& r.start_character matches Some(c) && c <= u32::MAX
    &&& r.message is Some
}

/// Whether `d` is the diagnostic `r` gives for the file shown as `file`.
pub open spec fn diagnostic_from(r: RawDiagnostic, file: Seq<char>, d: Diagnostic) -> bool {
    &&& d.file@ == file
    &&& d.line as u64 == r.start_line->0
    &&& d.column as u64 == r.start_character->0
    &&& d.severity == severity_of(r.severity)
    &&& d.message@ == r.message->0@
    &&& d.code == r.code
}

/// The indices of the kept diagnostics, in order.
pub open spec fn parsable_indices(rs: Seq<RawDiagnostic>) -> Seq<int>
    decreases rs.len(),
{
    if rs.len() == 0 {
        Seq::empty()
    } else if parsable(rs.last()) {
        parsable_indices(rs.drop_last()).push(rs.len() - 1)
    } else {
        parsable_indices(rs.drop_last())
    }
}

/// The diagnostic a published one gives, if it is kept.
pub fn parse_diagnostic(r: &RawDiagnostic, file: &str) -> (d: Option<Diagnostic>)
    ensures
        parsable(*r) ==> (d matches Some(x) && diagnostic_from(*r, file@, x)),
        !parsable(*r) ==> d is None,
{
    let line = match r.start_line {
        Some(l) if l <= 0xffff_ffff => l as u32,
        _ => return None,
    };
    let column = match r.start_character {
        Some(c) if c <= 0xffff_ffff => c as u32,
        _ => return None,
    };
    let message = match &r.message {
        Some(m) => m.clone(),
        None => return None,
    };
    let severity = match r.severity {
        Some(1) => DiagnosticSeverity::Error,
        Some(2) => DiagnosticSeverity::Warning,
        Some(3) => DiagnosticSeverity::Information,
        Some(4) | None => DiagnosticSeverity::Hint,
        Some(_) => DiagnosticSeverity::Information,
    };
    Some(Diagnostic { file: file.to_owned(), line, column, severity, message, code: crate::text::copy_opt_string(&r.code) })
}

/// A `textDocument/publishDiagnostics` notification read: the file's path
/// (from its `file` URI), the document version it speaks of, and its kept
/// diagnostics in order, each with the file shown relative to the
/// workspace root. None when the parameters, a local-file URI or the
/// diagnostics array are missing.
pub fn parse_publish_diagnostics(params: Option<PublishDiagnosticsParams>, workspace_root: &str) -> (r: Option<(
    String,
    Option<i64>,
    Vec<Diagnostic>,
)>)
    ensures
        r is Some <==> (params matches Some(p) && p.uri matches Some(u) && file_uri_path(u@) is Some
            && p.diagnostics is Some),
        r matches Some(x) ==> ({
            let p = params->0;
            let raws = p.diagnostics->0@;
            let idx = parsable_indices(raws);
            let file = diagnostic_display_path(x.0@, workspace_root@);
            &&& file_uri_path(p.uri->0@) == Some(x.0@)
            &&& x.1 == p.version
            &&& x.2@.len() == idx.len()
            &&& forall|k: int| 0 <= k < idx.len() ==> diagnostic_from(raws[idx[k]], file, #[trigger] x.2@[k])
        }),
{
    let p = match params {
        Some(p) => p,
        None => return None,
    };
    let uri = match &p.uri {
        Some(u) => u,
        None => return None,
    };
    let path = match path_from_file_uri(uri.as_str()) {
        Some(path) => path,
        None => return None,
    };
    let raws = match &p.diagnostics {
        Some(d) => d,
        None => return None,
    };
    let file = display_path_for_diagnostic(path.as_str(), workspace_root);
    let mut out: Vec<Diagnostic> = Vec::new();
    let mut i: usize = 0;
    while i < raws.len()
        invariant
            i <= raws.len(),
            out@.len() == parsable_indices(raws@.take(i as int)).len(),
            forall|k: int|
                0 <= k < out@.len() ==> diagnostic_from(
                    raws@[parsable_indices(raws@.take(i as int))[k]],
                    file@,
                    #[trigger] out@[k],
                ),
        decreases raws.len() - i,
    {
        assert(raws@.take(i + 1).drop_last() =~= raws@.take(i as int));
        assert(raws@.take(i + 1).last() == raws@[i as int]);
        match parse_diagnostic(&raws[i], file.as_str()) {
            Some(d) => {
                out.push(d);
            },
            None => {},
        }
        i += 1;
    }
    assert(raws@.take(raws.len() as int) =~= raws@);
    Some((path, p.version, out))
}

} // verus!

//! Thread distillation into durable memories: the prompt sent to the model,
//! the text of its reply, the JSON object inside that reply, the drafts
//! kept from the parsed memories, and their deduplication against each
//! other and against what memory already holds.
//!
//! A draft's importance is a floating-point value; it stays with the host,
//! which finds it again by the index of the parsed memory a draft came from.
use vstd::prelude::*;

use crate::memory::{dedup_labels, normalize_labels, MemoryLabel};
use crate::plugin_middleware::{is_json, parses_as_json};
use crate::text::{
    chars_of, find_char, find_char_exec, is_blank, join, lowercase, push_str, slice_chars, string_from_chars,
    to_lowercase, trim, trim_chars, views, words, words_exec,
};

verus! {

/// The most drafts one distillation keeps.
pub const MAX_DISTILLED_MEMORIES: usize = 8;

pub open spec fn distillation_rules() -> Seq<char> {
    "Extract durable memories from this coding-agent thread.\n\nRules:\n- Return only JSON with a top-level `memories` array.\n- Extract 2 to 8 memories when the thread contains enough durable material.\n- A memory must stand alone without the full conversation.\n- Prefer decisions, facts, procedures, insights, and reusable experiences.\n- Do not save transient status, command progress, or vague summaries.\n- Treat older memories or prior conclusions as historical context, not the current truth.\n- If the thread proves that a previous memory is stale or the current design is poor, extract the corrected durable fact or procedure instead of preserving the old state.\n- It is valid to record that the agent should create or improve tooling when the thread establishes that a missing tool blocks reliable future work.\n- Labels must use only: insight, decision, fact, procedure, experience.\n- Importance must be a number from 0.1 to 1.0.\n\nSchema:\n{\"memories\":[{\"title\":\"short title\",\"content\":\"markdown memory\",\"labels\":[\"decision\"],\"importance\":0.7}]}\n\nThread:\n"@
}

/// The prompt asking the model to distill a thread.
pub fn distillation_prompt(thread_markdown: &str) -> (r: String)
    ensures
        r@ == distillation_rules() + thread_markdown@,
{
    let mut out: Vec<char> = Vec::new();
    push_str(
        &mut out,
        "Extract durable memories from this coding-agent thread.\n\nRules:\n- Return only JSON with a top-level `memories` array.\n- Extract 2 to 8 memories when the thread contains enough durable material.\n- A memory must stand alone without the full conversation.\n- Prefer decisions, facts, procedures, insights, and reusable experiences.\n- Do not save transient status, command progress, or vague summaries.\n- Treat older memories or prior conclusions as historical context, not the current truth.\n- If the thread proves that a previous memory is stale or the current design is poor, extract the corrected durable fact or procedure instead of preserving the old state.\n- It is valid to record that the agent should create or improve tooling when the thread establishes that a missing tool blocks reliable future work.\n- Labels must use only: insight, decision, fact, procedure, experience.\n- Importance must be a number from 0.1 to 1.0.\n\nSchema:\n{\"memories\":[{\"title\":\"short title\",\"content\":\"markdown memory\",\"labels\":[\"decision\"],\"importance\":0.7}]}\n\nThread:\n",
    );
    push_str(&mut out, thread_markdown);
    string_from_chars(&out)
}

/// One block of a model reply.
#[derive(Clone, Debug, PartialEq, Eq)]
pub enum ResponseBlock {
    Text { text: String },
    ToolUse,
    ProviderMetadata,
}

pub open spec fn reply_texts(bs: Seq<ResponseBlock>) -> Seq<Seq<char>>
    decreases bs.len(),
{
    if bs.len() == 0 {
        Seq::empty()
    } else {
        match bs.last() {
            ResponseBlock::Text { text } => reply_texts(bs.drop_last()).push(text@),
            _ => reply_texts(bs.drop_last()),
        }
    }
}

/// The text of a reply: its text blocks joined by newlines.
pub fn response_text(content: &Vec<ResponseBlock>) -> (r: String)
    ensures
        r@ == join(reply_texts(content@), "\n"@),
{
    let mut parts: Vec<Vec<char>> = Vec::new();
    let mut i: usize = 0;
    while i < content.len()
        invariant
            i <= content.len(),
            views(parts@) == reply_texts(content@.take(i as int)),
        decreases content.len() - i,
    {
        assert(content@.take(i + 1).drop_last() =~= content@.take(i as int));
        match &content[i] {
            ResponseBlock::Text { text } => {
                let ghost before = parts@;
                parts.push(chars_of(text.as_str()));
                assert(views(parts@) =~= views(before).push(text@));
            },
            _ => {},
        }
        i += 1;
    }
    assert(content@.take(content.len() as int) =~= content@);
    let mut sep: Vec<char> = Vec::new();
    sep.push('\n');
    assert(sep@ =~= "\n"@) by {
        reveal_strlit("\n");
    }
    string_from_chars(&crate::text::join_exec(&parts, &sep))
}

/// Index of the last `c` in `s` before `j`, or -1.
pub open spec fn rfind_char(s: Seq<char>, c: char, j: int) -> int
    decreases j,
{
    if j <= 0 || j > s.len() {
        -1
    } else if s[j - 1] == c {
        j - 1
    } else {
        rfind_char(s, c, j - 1)
    }
}

fn rfind_char_exec(s: &Vec<char>, c: char) -> (r: Option<usize>)
    ensures
        match r {
            Some(k) => k < s@.len() && k as int == rfind_char(s@, c, s@.len() as int),
            None => rfind_char(s@, c, s@.len() as int) == -1,
        },
{
    let mut j: usize = s.len();
    while j > 0
        invariant
            j <= s.len(),
            rfind_char(s@, c, s@.len() as int) == rfind_char(s@, c, j as int),
        decreases j,
    {
        if s[j - 1] == c {
            return Some(j - 1);
        }
        j -= 1;
    }
    None
}

/// The JSON text in a distillation reply: the trimmed reply when it is
/// JSON, else the span from its first `{` to its last `}` when that is
/// JSON; otherwise the error saying what was missing.
pub open spec fn json_payload_spec(text: Seq<char>) -> Result<Seq<char>, Seq<char>> {
    let t = trim(text);
    let start = find_char(t, '{', 0);
    let end = rfind_char(t, '}', t.len() as int);
    if t.len() == 0 {
        Err("thread distillation returned empty response"@)
    } else if is_json(t) {
        Ok(t)
    } else if start >= t.len() {
        Err("distillation response did not contain a JSON object"@)
    } else if end < 0 {
        Err("distillation response did not contain a complete JSON object"@)
    } else if start <= end && is_json(t.subrange(start, end + 1)) {
        Ok(t.subrange(start, end + 1))
    } else {
        Err("parse JSON object from distillation response"@)
    }
}

/// Whether taking the span from the first `{` to the last `}` of a reply
/// that is not JSON would slice backwards (the last `}` before the first
/// `{`), which the reply's consumer cannot do.
pub open spec fn payload_span_reversed(text: Seq<char>) -> bool {
    let t = trim(text);
    let start = find_char(t, '{', 0);
    let end = rfind_char(t, '}', t.len() as int);
    t.len() > 0 && !is_json(t) && start < t.len() && end >= 0 && start > end
}

proof fn lemma_rfind_char_is(s: Seq<char>, c: char, j: int, n: int)
    requires
        0 <= n < j <= s.len(),
        s[n] == c,
        forall|k: int| n < k < j ==> #[trigger] s[k] != c,
    ensures
        rfind_char(s, c, j) == n,
    decreases j,
{
    if j - 1 != n {
        assert(s[j - 1] != c);
        lemma_rfind_char_is(s, c, j - 1, n);
    }
}

/// A reply that is prose, a JSON object `j`, then prose (the prose before
/// holding no `{` and the prose after no `}`) yields `j`, whatever `j`
/// nests inside, unless the whole reply is itself JSON (then the whole
/// reply is the payload). Such a reply never has a reversed span.
pub proof fn law_json_object_between_prose_is_the_payload(
    text: Seq<char>,
    before: Seq<char>,
    j: Seq<char>,
    after: Seq<char>,
)
    requires
        trim(text) == before + j + after,
        is_json(j),
        j.len() >= 2,
        j[0] == '{',
        j[j.len() - 1] == '}',
        forall|k: int| 0 <= k < before.len() ==> #[trigger] before[k] != '{',
        forall|k: int| 0 <= k < after.len() ==> #[trigger] after[k] != '}',
        before.len() + after.len() == 0 || !is_json(trim(text)),
    ensures
        json_payload_spec(text) == Ok::<Seq<char>, Seq<char>>(j),
        !payload_span_reversed(text),
{
    let t = trim(text);
    let a = before.len() as int;
    let b = a + j.len() - 1;
    assert(t[a] == '{');
    assert(t[b] == '}');
    assert forall|k: int| 0 <= k < a implies #[trigger] t[k] != '{' by {
        assert(t[k] == before[k]);
    }
    crate::text::lemma_find_char_is(t, '{', 0, a);
    assert forall|k: int| b < k < t.len() implies #[trigger] t[k] != '}' by {
        assert(t[k] == after[k - b - 1]);
    }
    lemma_rfind_char_is(t, '}', t.len() as int, b);
    assert(t.subrange(a, b + 1) =~= j);
    if before.len() + after.len() == 0 {
        assert(t =~= j);
    }
}

/// A reply with nothing but white space is refused as empty; a reply that
/// is not JSON and holds no `{` is refused as holding no object; one whose
/// `{` has no `}` after it anywhere is refused as holding no complete object.
pub proof fn law_json_payload_refusals(text: Seq<char>)
    ensures
        trim(text).len() == 0 ==> json_payload_spec(text) == Err::<Seq<char>, Seq<char>>(
            "thread distillation returned empty response"@,
        ),
        (trim(text).len() > 0 && !is_json(trim(text)) && forall|k: int|
            0 <= k < trim(text).len() ==> #[trigger] trim(text)[k] != '{') ==> json_payload_spec(text) == Err::<
            Seq<char>,
            Seq<char>,
        >("distillation response did not contain a JSON object"@),
        (trim(text).len() > 0 && !is_json(trim(text)) && (exists|k: int|
            0 <= k < trim(text).len() && #[trigger] trim(text)[k] == '{') && forall|k: int|
            0 <= k < trim(text).len() ==> #[trigger] trim(text)[k] != '}') ==> json_payload_spec(text) == Err::<
            Seq<char>,
            Seq<char>,
        >("distillation response did not contain a complete JSON object"@),
{
    let t = trim(text);
    crate::text::lemma_find_char_bounds(t, '{', 0);
    if forall|k: int| 0 <= k < t.len() ==> #[trigger] t[k] != '}' {
        lemma_rfind_char_none(t, '}', t.len() as int);
    }
}

proof fn lemma_rfind_char_none(s: Seq<char>, c: char, j: int)
    requires
        0 <= j <= s.len(),
        forall|k: int| 0 <= k < s.len() ==> #[trigger] s[k] != c,
    ensures
        rfind_char(s, c, j) == -1,
    decreases j,
{
    if j > 0 {
        assert(s[j - 1] != c);
        lemma_rfind_char_none(s, c, j - 1);
    }
}

/// The JSON object a distillation reply carries.
pub fn parse_json_payload(text: &str) -> (r: Result<String, String>)
    requires
        !payload_span_reversed(text@),
    ensures
        match json_payload_spec(text@) {
            Ok(j) => r matches Ok(s) && s@ == j,
            Err(m) => r matches Err(e) && e@ == m,
        },
{
    let t = trim_chars(&chars_of(text));
    if t.len() == 0 {
        return Err("thread distillation returned empty response".to_owned());
    }
    let trimmed = string_from_chars(&t);
    if parses_as_json(trimmed.as_str()) {
        return Ok(trimmed);
    }
    let start = find_char_exec(&t, '{', 0);
    if start >= t.len() {
        return Err("distillation response did not contain a JSON object".to_owned());
    }
    let end = match rfind_char_exec(&t, '}') {
        Some(e) => e,
        None => return Err("distillation response did not contain a complete JSON object".to_owned()),
    };
    if start <= end {
        let span = string_from_chars(&slice_chars(&t, start, end + 1));
        if parses_as_json(span.as_str()) {
            return Ok(span);
        }
    }
    Err("parse JSON object from distillation response".to_owned())
}

/// The JSON object a distillation reply carries, when its span is not
/// reversed (see `payload_span_reversed`); None when it is.
pub fn checked_json_payload(text: &str) -> (r: Option<Result<String, String>>)
    ensures
        r is None <==> payload_span_reversed(text@),
        r matches Some(x) ==> match json_payload_spec(text@) {
            Ok(j) => x matches Ok(s) && s@ == j,
            Err(m) => x matches Err(e) && e@ == m,
        },
{
    let t = trim_chars(&chars_of(text));
    if t.len() > 0 {
        let trimmed = string_from_chars(&t);
        if !parses_as_json(trimmed.as_str()) {
            let start = find_char_exec(&t, '{', 0);
            if start < t.len() {
                if let Some(end) = rfind_char_exec(&t, '}') {
                    if start > end {
                        return None;
                    }
                }
            }
        }
    }
    Some(parse_json_payload(text))
}

/// The distiller's own part of a distillation: what to ask the model about
/// a thread, and the JSON object to take from its reply. The model is
/// reached by the host, which also turns that object into parsed memories.
pub struct MemoryDistiller;

impl MemoryDistiller {
    pub fn new() -> Self {
        MemoryDistiller
    }

    /// The prompt for a thread; none for a blank thread, which yields no
    /// drafts without asking the model.
    pub fn distill_request(&self, thread_markdown: &str) -> (r: Option<String>)
        ensures
            r is None <==> is_blank(thread_markdown@),
            r matches Some(p) ==> p@ == distillation_rules() + thread_markdown@,
    {
        if crate::text::is_blank_str(thread_markdown) {
            None
        } else {
            Some(distillation_prompt(thread_markdown))
        }
    }

    /// The JSON object the reply carries, as `parse_json_payload` finds it
    /// in the reply's text; none where its span is reversed.
    pub fn reply_payload(&self, content: &Vec<ResponseBlock>) -> (r: Option<Result<String, String>>)
        ensures
            ({
                let text = join(reply_texts(content@), "\n"@);
                &&& r is None <==> payload_span_reversed(text)
                &&& r matches Some(x) ==> match json_payload_spec(text) {
                    Ok(j) => x matches Ok(s) && s@ == j,
                    Err(m) => x matches Err(e) && e@ == m,
                }
            }),
    {
        let text = response_text(content);
        checked_json_payload(text.as_str())
    }
}

/// A memory as the model returned it.
#[derive(Clone, Debug, PartialEq, Eq)]
pub struct ParsedDistilledMemory {
    pub title: Option<String>,
    pub content: Option<String>,
    pub labels: Vec<MemoryLabel>,
}

/// A memory worth keeping: trimmed title and content, normalized labels.
#[derive(Clone, Debug, PartialEq, Eq)]
pub struct DistilledMemoryDraft {
    pub title: String,
    pub content: String,
    pub labels: Vec<MemoryLabel>,
}

/// Whether a parsed memory has a non-blank title and content.
pub open spec fn usable(m: ParsedDistilledMemory) -> bool {
    (m.title matches Some(t) && trim(t@).len() > 0) && (m.content matches Some(c) && trim(c@).len() > 0)
}

pub open spec fn normalized_label_seq(labels: Seq<MemoryLabel>) -> Seq<MemoryLabel> {
    if labels.len() == 0 {
        seq![MemoryLabel::Experience]
    } else {
        dedup_labels(labels)
    }
}

/// Whether `d` is the draft of `m`.
pub open spec fn draft_of(m: ParsedDistilledMemory, d: DistilledMemoryDraft) -> bool {
    &&& d.title@ == trim(m.title->0@)
    &&& d.content@ == trim(m.content->0@)
    &&& d.labels@ == normalized_label_seq(m.labels@)
}

/// The indices of the usable memories among `ms`, in order.
pub open spec fn usable_indices(ms: Seq<ParsedDistilledMemory>) -> Seq<int>
    decreases ms.len(),
{
    if ms.len() == 0 {
        Seq::empty()
    } else if usable(ms.last()) {
        usable_indices(ms.drop_last()).push(ms.len() - 1)
    } else {
        usable_indices(ms.drop_last())
    }
}

/// The draft of a parsed memory, if it is usable.
pub fn into_draft(m: &ParsedDistilledMemory) -> (r: Option<DistilledMemoryDraft>)
    ensures
        usable(*m) ==> (r matches Some(d) && draft_of(*m, d)),
        !usable(*m) ==> r is None,
{
    let title = match &m.title {
        Some(t) => trim_chars(&chars_of(t.as_str())),
        None => return None,
    };
    let content = match &m.content {
        Some(c) => trim_chars(&chars_of(c.as_str())),
        None => return None,
    };
    if title.len() == 0 || content.len() == 0 {
        return None;
    }
    let mut labels: Vec<MemoryLabel> = Vec::new();
    let mut i: usize = 0;
    while i < m.labels.len()
        invariant
            i <= m.labels.len(),
            labels@ == m.labels@.take(i as int),
        decreases m.labels.len() - i,
    {
        labels.push(m.labels[i]);
        assert(labels@ =~= m.labels@.take(i + 1));
        i += 1;
    }
    assert(m.labels@.take(m.labels.len() as int) =~= m.labels@);
    Some(
        DistilledMemoryDraft {
            title: string_from_chars(&title),
            content: string_from_chars(&content),
            labels: normalize_labels(labels),
        },
    )
}

proof fn lemma_usable_indices_prefix(ms: Seq<ParsedDistilledMemory>, i: int)
    requires
        0 <= i < ms.len(),
    ensures
        usable_indices(ms.take(i + 1)) == if usable(ms[i]) {
            usable_indices(ms.take(i)).push(i)
        } else {
            usable_indices(ms.take(i))
        },
{
    assert(ms.take(i + 1).drop_last() =~= ms.take(i));
}

proof fn lemma_usable_indices_bounded(ms: Seq<ParsedDistilledMemory>)
    ensures
        forall|k: int| 0 <= k < usable_indices(ms).len() ==> 0 <= #[trigger] usable_indices(ms)[k] < ms.len(),
        usable_indices(ms).len() <= ms.len(),
    decreases ms.len(),
{
    if ms.len() > 0 {
        lemma_usable_indices_bounded(ms.drop_last());
    }
}

/// The drafts of a distillation: the first eight usable memories, each
/// with the index of the parsed memory it came from. A single usable
/// memory is refused: a distillation yields none or two to eight.
pub fn distilled_drafts(parsed: &Vec<ParsedDistilledMemory>) -> (r: Result<Vec<(usize, DistilledMemoryDraft)>, String>)
    ensures
        ({
            let u = usable_indices(parsed@);
            let kept = if u.len() > 8 { u.take(8) } else { u };
            if kept.len() == 1 {
                r matches Err(m) && m@ == "thread distillation returned one memory; expected 2-8 or zero"@
            } else {
                r matches Ok(v) && v@.len() == kept.len() && forall|k: int|
                    0 <= k < kept.len() ==> (#[trigger] v@[k]).0 as int == kept[k] && draft_of(
                        parsed@[kept[k]],
                        v@[k].1,
                    )
            }
        }),
{
    let mut out: Vec<(usize, DistilledMemoryDraft)> = Vec::new();
    let mut i: usize = 0;
    while i < parsed.len() && out.len() < MAX_DISTILLED_MEMORIES
        invariant
            i <= parsed.len(),
            out@.len() <= 8,
            out@.len() == usable_indices(parsed@.take(i as int)).len(),
            forall|k: int|
                0 <= k < out@.len() ==> (#[trigger] out@[k]).0 as int == usable_indices(parsed@.take(i as int))[k]
                    && draft_of(parsed@[out@[k].0 as int], out@[k].1),
        decreases parsed.len() - i,
    {
        proof {
            lemma_usable_indices_prefix(parsed@, i as int);
        }
        match into_draft(&parsed[i]) {
            Some(d) => {
                out.push((i, d));
            },
            None => {},
        }
        i += 1;
    }
    proof {
        let u = usable_indices(parsed@);
        let ut = usable_indices(parsed@.take(i as int));
        let kept = if u.len() > 8 { u.take(8) } else { u };
        lemma_usable_indices_extend(parsed@, i as int);
        if i == parsed.len() {
            assert(parsed@.take(i as int) =~= parsed@);
            assert(ut == u);
        } else {
            assert(out@.len() == 8);
        }
        assert(kept.len() == out@.len());
        assert forall|k: int| 0 <= k < kept.len() implies kept[k] == ut[k] by {
            assert(ut[k] == u[k]);
        }
    }
    if out.len() == 1 {
        return Err("thread distillation returned one memory; expected 2-8 or zero".to_owned());
    }
    Ok(out)
}

/// The usable indices of a prefix are a prefix of the usable indices.
proof fn lemma_usable_indices_extend(ms: Seq<ParsedDistilledMemory>, i: int)
    requires
        0 <= i <= ms.len(),
    ensures
        usable_indices(ms.take(i)).len() <= usable_indices(ms).len(),
        forall|k: int|
            0 <= k < usable_indices(ms.take(i)).len() ==> #[trigger] usable_indices(ms.take(i))[k] == usable_indices(
                ms,
            )[k],
    decreases ms.len() - i,
{
    if i < ms.len() {
        lemma_usable_indices_extend(ms, i + 1);
        lemma_usable_indices_prefix(ms, i);
        let a = usable_indices(ms.take(i));
        let b = usable_indices(ms.take(i + 1));
        assert forall|k: int| 0 <= k < a.len() implies #[trigger] a[k] == usable_indices(ms)[k] by {
            assert(a[k] == b[k]);
            assert(b[k] == usable_indices(ms)[k]);
        }
    } else {
        assert(ms.take(i) =~= ms);
    }
}

/// The key by which memories are compared for duplicates: the words,
/// joined by single spaces, lower-cased.
pub open spec fn dedupe_key(value: Seq<char>) -> Seq<char> {
    lowercase(join(words(value), " "@))
}

pub fn normalize_dedupe_key(value: &str) -> (r: String)
    ensures
        r@ == dedupe_key(value@),
{
    let ws = words_exec(&chars_of(value));
    let mut sep: Vec<char> = Vec::new();
    sep.push(' ');
    assert(sep@ =~= " "@) by {
        reveal_strlit(" ");
    }
    let joined = string_from_chars(&crate::text::join_exec(&ws, &sep));
    to_lowercase(joined.as_str())
}

/// A memory already held that a draft is compared with; `near` is whether
/// its search score reached the duplicate threshold.
#[derive(Clone, Debug, PartialEq, Eq)]
pub struct ExistingHit {
    pub near: bool,
    pub title: String,
    pub content: String,
}

/// Whether a held memory makes a draft a duplicate.
pub open spec fn hit_duplicates(h: ExistingHit, content_key: Seq<char>, title_key: Seq<char>) -> bool {
    h.near || dedupe_key(h.content@) == content_key || dedupe_key(h.title@) == title_key
}

pub open spec fn hits_of(hits: Seq<Vec<ExistingHit>>, i: int) -> Seq<ExistingHit> {
    if 0 <= i < hits.len() {
        hits[i]@
    } else {
        Seq::empty()
    }
}

/// Whether the content key of draft `i` occurred before it (at an index
/// whose key is non-empty).
pub open spec fn seen_before(drafts: Seq<DistilledMemoryDraft>, i: int) -> bool {
    exists|j: int|
        0 <= j < i && #[trigger] dedupe_key(drafts[j].content@) == dedupe_key(drafts[i].content@)
}

/// Whether draft `i` survives deduplication: its content key is non-empty
/// and new in the batch, and no held memory found for it duplicates it.
pub open spec fn survives(drafts: Seq<DistilledMemoryDraft>, hits: Seq<Vec<ExistingHit>>, i: int) -> bool {
    let ck = dedupe_key(drafts[i].content@);
    let tk = dedupe_key(drafts[i].title@);
    &&& ck.len() > 0
    &&& !seen_before(drafts, i)
    &&& forall|k: int|
        0 <= k < hits_of(hits, i).len() ==> !hit_duplicates(#[trigger] hits_of(hits, i)[k], ck, tk)
}

pub open spec fn surviving(drafts: Seq<DistilledMemoryDraft>, hits: Seq<Vec<ExistingHit>>, n: int) -> Seq<
    DistilledMemoryDraft,
>
    decreases n,
{
    if n <= 0 {
        Seq::empty()
    } else if survives(drafts, hits, n - 1) {
        surviving(drafts, hits, n - 1).push(drafts[n - 1])
    } else {
        surviving(drafts, hits, n - 1)
    }
}

fn duplicated_by_hits(hits: &Vec<ExistingHit>, content_key: &String, title_key: &String) -> (b: bool)
    ensures
        b == exists|k: int| 0 <= k < hits@.len() && hit_duplicates(#[trigger] hits@[k], content_key@, title_key@),
{
    let mut k: usize = 0;
    while k < hits.len()
        invariant
            k <= hits.len(),
            forall|q: int| 0 <= q < k ==> !hit_duplicates(#[trigger] hits@[q], content_key@, title_key@),
        decreases hits.len() - k,
    {
        if hits[k].near {
            assert(hit_duplicates(hits@[k as int], content_key@, title_key@));
            return true;
        }
        let c = normalize_dedupe_key(hits[k].content.as_str());
        if c == *content_key {
            assert(hit_duplicates(hits@[k as int], content_key@, title_key@));
            return true;
        }
        let t = normalize_dedupe_key(hits[k].title.as_str());
        if t == *title_key {
            assert(hit_duplicates(hits@[k as int], content_key@, title_key@));
            return true;
        }
        k += 1;
    }
    false
}

/// Drops drafts whose content is empty or repeats an earlier draft's, and
/// drafts that a held memory found for them (`existing_hits[i]` for draft
/// `i`) duplicates by score, content or title. Keeps the order.
pub fn dedupe_memory_drafts(drafts: Vec<DistilledMemoryDraft>, existing_hits: &Vec<Vec<ExistingHit>>) -> (r: Vec<
    DistilledMemoryDraft,
>)
    ensures
        r@ == surviving(drafts@, existing_hits@, drafts@.len() as int),
{
    let mut keys: Vec<String> = Vec::new();
    let mut keep: Vec<bool> = Vec::new();
    let mut i: usize = 0;
    while i < drafts.len()
        invariant
            i <= drafts.len(),
            keys@.len() == i,
            keep@.len() == i,
            forall|j: int| 0 <= j < i ==> (#[trigger] keys@[j])@ == dedupe_key(drafts@[j].content@),
            forall|j: int| 0 <= j < i ==> #[trigger] keep@[j] == survives(drafts@, existing_hits@, j),
        decreases drafts.len() - i,
    {
        let ck = normalize_dedupe_key(drafts[i].content.as_str());
        let tk = normalize_dedupe_key(drafts[i].title.as_str());
        let mut seen = false;
        let mut j: usize = 0;
        while j < keys.len()
            invariant
                j <= keys.len(),
                keys@.len() == i,
                i < drafts@.len(),
                ck@ == dedupe_key(drafts@[i as int].content@),
                forall|q: int| 0 <= q < i ==> (#[trigger] keys@[q])@ == dedupe_key(drafts@[q].content@),
                seen <==> exists|q: int| 0 <= q < j && dedupe_key(#[trigger] drafts@[q].content@) == ck@,
            decreases keys.len() - j,
        {
            if keys[j] == ck {
                assert(dedupe_key(drafts@[j as int].content@) == ck@);
                seen = true;
            }
            j += 1;
        }
        assert(seen == seen_before(drafts@, i as int));
        let dup = if i < existing_hits.len() {
            duplicated_by_hits(&existing_hits[i], &ck, &tk)
        } else {
            false
        };
        proof {
            let hs = hits_of(existing_hits@, i as int);
            if (i as int) < existing_hits@.len() {
                assert(hs == existing_hits@[i as int]@);
            }
            if !dup {
                assert forall|q: int| 0 <= q < hs.len() implies !hit_duplicates(#[trigger] hs[q], ck@, tk@) by {
                    assert((i as int) < existing_hits@.len());
                }
            } else {
                let q = choose|q: int|
                    0 <= q < existing_hits@[i as int]@.len() && hit_duplicates(
                        #[trigger] existing_hits@[i as int]@[q],
                        ck@,
                        tk@,
                    );
                assert(hit_duplicates(hs[q], ck@, tk@));
            }
        }
        let k = crate::text::chars_of(ck.as_str()).len() > 0 && !seen && !dup;
        assert(k == survives(drafts@, existing_hits@, i as int));
        keep.push(k);
        keys.push(ck);
        i += 1;
    }
    let ghost all = drafts@;
    let n = drafts.len();
    let mut rest = drafts;
    let mut out: Vec<DistilledMemoryDraft> = Vec::new();
    let mut i: usize = 0;
    while i < n
        invariant
            i <= n,
            n == all.len(),
            keep@.len() == n,
            forall|j: int| 0 <= j < n ==> #[trigger] keep@[j] == survives(all, existing_hits@, j),
            rest@ == all.skip(i as int),
            out@ == surviving(all, existing_hits@, i as int),
        decreases n - i,
    {
        let d = rest.remove(0);
        assert(d == all[i as int]);
        assert(rest@ =~= all.skip(i + 1));
        if keep[i] {
            out.push(d);
        }
        i += 1;
    }
    out
}

/// Whether `x` is a surviving draft among the first `n`.
pub open spec fn came_from(drafts: Seq<DistilledMemoryDraft>, hits: Seq<Vec<ExistingHit>>, n: int, x: DistilledMemoryDraft) -> bool {
    exists|j: int| 0 <= j < n && survives(drafts, hits, j) && #[trigger] drafts[j] == x
}

#[verifier::spinoff_prover]
proof fn lemma_surviving_from_drafts(drafts: Seq<DistilledMemoryDraft>, hits: Seq<Vec<ExistingHit>>, n: int)
    requires
        0 <= n <= drafts.len(),
    ensures
        forall|a: int|
            0 <= a < surviving(drafts, hits, n).len() ==> came_from(drafts, hits, n, #[trigger] surviving(drafts, hits, n)[a]),
    decreases n,
{
    if n > 0 {
        lemma_surviving_from_drafts(drafts, hits, n - 1);
        let prev = surviving(drafts, hits, n - 1);
        let cur = surviving(drafts, hits, n);
        assert forall|a: int| 0 <= a < cur.len() implies came_from(drafts, hits, n, #[trigger] cur[a]) by {
            if a < prev.len() {
                assert(cur[a] == prev[a]);
                assert(came_from(drafts, hits, n - 1, prev[a]));
                let j = choose|j: int| 0 <= j < n - 1 && survives(drafts, hits, j) && #[trigger] drafts[j] == prev[a];
                assert(0 <= j < n && survives(drafts, hits, j) && drafts[j] == cur[a]);
            } else {
                assert(cur[a] == drafts[n - 1]);
                assert(survives(drafts, hits, n - 1));
            }
        }
    }
}

/// The drafts that survive deduplication have non-empty content keys, no
/// two of them the same.
pub proof fn law_deduped_drafts_have_distinct_keys(drafts: Seq<DistilledMemoryDraft>, hits: Seq<Vec<ExistingHit>>)
    ensures
        forall|a: int|
            0 <= a < surviving(drafts, hits, drafts.len() as int).len() ==> dedupe_key(
                (#[trigger] surviving(drafts, hits, drafts.len() as int)[a]).content@,
            ).len() > 0,
        forall|a: int, b: int|
            0 <= a < b < surviving(drafts, hits, drafts.len() as int).len() ==> dedupe_key(
                (#[trigger] surviving(drafts, hits, drafts.len() as int)[a]).content@,
            ) != dedupe_key((#[trigger] surviving(drafts, hits, drafts.len() as int)[b]).content@),
{
    lemma_distinct_keys(drafts, hits, drafts.len() as int);
}

proof fn lemma_distinct_keys(drafts: Seq<DistilledMemoryDraft>, hits: Seq<Vec<ExistingHit>>, n: int)
    requires
        0 <= n <= drafts.len(),
    ensures
        forall|a: int|
            0 <= a < surviving(drafts, hits, n).len() ==> dedupe_key(
                (#[trigger] surviving(drafts, hits, n)[a]).content@,
            ).len() > 0,
        forall|a: int, b: int|
            0 <= a < b < surviving(drafts, hits, n).len() ==> dedupe_key(
                (#[trigger] surviving(drafts, hits, n)[a]).content@,
            ) != dedupe_key((#[trigger] surviving(drafts, hits, n)[b]).content@),
    decreases n,
{
    lemma_surviving_from_drafts(drafts, hits, n);
    if n > 0 {
        lemma_distinct_keys(drafts, hits, n - 1);
        let prev = surviving(drafts, hits, n - 1);
        let cur = surviving(drafts, hits, n);
        lemma_surviving_from_drafts(drafts, hits, n - 1);
        assert forall|a: int| 0 <= a < cur.len() implies dedupe_key((#[trigger] cur[a]).content@).len() > 0 by {
            assert(came_from(drafts, hits, n, cur[a]));
            let j = choose|j: int| 0 <= j < n && survives(drafts, hits, j) && #[trigger] drafts[j] == cur[a];
        }
        assert forall|a: int, b: int| 0 <= a < b < cur.len() implies dedupe_key((#[trigger] cur[a]).content@)
            != dedupe_key((#[trigger] cur[b]).content@) by {
            if b < prev.len() {
                assert(cur[a] == prev[a] && cur[b] == prev[b]);
            } else {
                // the last survivor is draft n - 1, whose key no earlier draft has
                assert(cur[b] == drafts[n - 1]);
                assert(cur[a] == prev[a]);
                assert(came_from(drafts, hits, n - 1, prev[a]));
                let j = choose|j: int| 0 <= j < n - 1 && survives(drafts, hits, j) && #[trigger] drafts[j] == prev[a];
                if dedupe_key(drafts[j].content@) == dedupe_key(drafts[n - 1].content@) {
                    assert(seen_before(drafts, n - 1));
                }
            }
        }
    }
}

} // verus!

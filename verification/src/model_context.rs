//! Model context fragments: runtime-owned blocks (environment, execution
//! mode, protocol prompt sources, retrieved memory) kept at the front of
//! the latest user request, one block per kind, in a fixed kind order.
//!
//! A message's content is modelled by what this logic reads: plain text,
//! or a list of blocks, each a model-context block (by kind and text), a
//! text block (by its text), or another block (carried as its JSON text).
use vstd::prelude::*;

use crate::text::{is_blank, is_blank_str};

verus! {

/// The block type that marks a model-context block.
pub open spec fn model_context_block_type() -> Seq<char> {
    "rara_model_context"@
}

#[derive(Clone, Copy, Debug, PartialEq, Eq, Structural)]
pub enum ModelContextKind {
    Environment,
    ExecutionMode,
    ProtocolPromptSources,
    RetrievedMemory,
}

pub open spec fn kind_name(k: ModelContextKind) -> Seq<char> {
    match k {
        ModelContextKind::Environment => "environment"@,
        ModelContextKind::ExecutionMode => "execution_mode"@,
        ModelContextKind::ProtocolPromptSources => "protocol_prompt_sources"@,
        ModelContextKind::RetrievedMemory => "retrieved_memory"@,
    }
}

pub open spec fn kind_rank(k: ModelContextKind) -> int {
    match k {
        ModelContextKind::Environment => 0,
        ModelContextKind::ExecutionMode => 1,
        ModelContextKind::ProtocolPromptSources => 2,
        ModelContextKind::RetrievedMemory => 3,
    }
}

impl ModelContextKind {
    /// The kind's name in a block's `kind` field.
    pub fn as_str(self) -> (r: &'static str)
        ensures
            r@ == kind_name(self),
    {
        match self {
            ModelContextKind::Environment => "environment",
            ModelContextKind::ExecutionMode => "execution_mode",
            ModelContextKind::ProtocolPromptSources => "protocol_prompt_sources",
            ModelContextKind::RetrievedMemory => "retrieved_memory",
        }
    }

    /// Where blocks of this kind stand among the model-context blocks.
    pub fn sort_key(self) -> (r: u8)
        ensures
            r as int == kind_rank(self),
    {
        match self {
            ModelContextKind::Environment => 0,
            ModelContextKind::ExecutionMode => 1,
            ModelContextKind::ProtocolPromptSources => 2,
            ModelContextKind::RetrievedMemory => 3,
        }
    }
}

/// The kind a block's `kind` field names, if it names one.
pub open spec fn kind_from_name(name: Seq<char>) -> Option<ModelContextKind> {
    if name == "environment"@ {
        Some(ModelContextKind::Environment)
    } else if name == "execution_mode"@ {
        Some(ModelContextKind::ExecutionMode)
    } else if name == "protocol_prompt_sources"@ {
        Some(ModelContextKind::ProtocolPromptSources)
    } else if name == "retrieved_memory"@ {
        Some(ModelContextKind::RetrievedMemory)
    } else {
        None
    }
}

/// The kind of a block with the given `type` and `kind` fields: a
/// model-context block of a known kind, or none.
pub fn model_context_kind(block_type: Option<&str>, kind: Option<&str>) -> (r: Option<ModelContextKind>)
    ensures
        r == (match (block_type, kind) {
            (Some(t), Some(k)) => if t@ == model_context_block_type() {
                kind_from_name(k@)
            } else {
                None
            },
            _ => None,
        }),
{
    proof {
        reveal_strlit("rara_model_context");
        reveal_strlit("environment");
        reveal_strlit("execution_mode");
        reveal_strlit("protocol_prompt_sources");
        reveal_strlit("retrieved_memory");
    }
    match (block_type, kind) {
        (Some(t), Some(k)) => {
            if !crate::text::eq_str(&crate::text::chars_of(t), "rara_model_context") {
                return None;
            }
            let kv = crate::text::chars_of(k);
            if crate::text::eq_str(&kv, "environment") {
                Some(ModelContextKind::Environment)
            } else if crate::text::eq_str(&kv, "execution_mode") {
                Some(ModelContextKind::ExecutionMode)
            } else if crate::text::eq_str(&kv, "protocol_prompt_sources") {
                Some(ModelContextKind::ProtocolPromptSources)
            } else if crate::text::eq_str(&kv, "retrieved_memory") {
                Some(ModelContextKind::RetrievedMemory)
            } else {
                None
            }
        },
        _ => None,
    }
}

/// A piece of model context to place in the latest user request.
#[derive(Clone, Debug, PartialEq, Eq)]
pub struct ModelContextFragment {
    pub kind: ModelContextKind,
    pub text: String,
}

impl ModelContextFragment {
    pub fn new(kind: ModelContextKind, text: String) -> (r: Self)
        ensures
            r.kind == kind,
            r.text == text,
    {
        ModelContextFragment { kind, text }
    }
}

/// One content block of a message.
#[derive(Clone, Debug, PartialEq, Eq)]
pub enum ContentBlock {
    /// A model-context block of a known kind; `text` is its `text` field
    /// when that is a string.
    Context { kind: ModelContextKind, text: Option<String> },
    /// A block of type `text` with a string `text`; `json` is the block as
    /// written, when it was not just these two fields.
    Text { text: String, json: Option<String> },
    /// Any other block, as its JSON text.
    Other { json: String },
}

/// A message's content.
#[derive(Clone, Debug, PartialEq, Eq)]
pub enum MessageContent {
    Text(String),
    Blocks(Vec<ContentBlock>),
    /// Content that is neither a string nor a list, as its JSON text.
    Other(String),
}

#[derive(Clone, Debug, PartialEq, Eq)]
pub struct Message {
    pub role: String,
    pub content: MessageContent,
}

// ---------------------------------------------------------------------------
// Specification
// ---------------------------------------------------------------------------

/// Whether a block is a text block with non-blank text.
pub open spec fn asks_in_text(b: ContentBlock) -> bool {
    b matches ContentBlock::Text { text, .. } && !is_blank(text@)
}

/// Whether a message asks something in text: non-blank string content, or
/// a text block with non-blank text.
pub open spec fn is_user_text_request(m: Message) -> bool {
    match m.content {
        MessageContent::Text(t) => !is_blank(t@),
        MessageContent::Blocks(bs) => exists|i: int|
            0 <= i < bs@.len() && #[trigger] asks_in_text(bs@[i]),
        MessageContent::Other(_) => false,
    }
}

/// Whether message `m` is the one model context goes into.
pub open spec fn is_target(m: Message) -> bool {
    m.role@ == "user"@ && is_user_text_request(m)
}

/// Whether no message at index `j` or later is a target.
pub open spec fn no_target_from(msgs: Seq<Message>, j: int) -> bool {
    forall|k: int| j <= k < msgs.len() ==> !is_target(#[trigger] msgs[k])
}

/// The content as a list of blocks: text becomes one text block.
pub open spec fn blocks_of(c: MessageContent) -> Seq<ContentBlock> {
    match c {
        MessageContent::Blocks(bs) => bs@,
        MessageContent::Text(t) => seq![ContentBlock::Text { text: t, json: None }],
        MessageContent::Other(s) => seq![ContentBlock::Text { text: s, json: None }],
    }
}

pub open spec fn fragment_block(f: ModelContextFragment) -> ContentBlock {
    ContentBlock::Context { kind: f.kind, text: Some(f.text) }
}

pub open spec fn fragment_blocks(fs: Seq<ModelContextFragment>) -> Seq<ContentBlock>
    decreases fs.len(),
{
    if fs.len() == 0 {
        Seq::empty()
    } else {
        fragment_blocks(fs.drop_last()).push(fragment_block(fs.last()))
    }
}

/// Whether some fragment has kind `k`.
pub open spec fn has_kind(fs: Seq<ModelContextFragment>, k: ModelContextKind) -> bool {
    exists|i: int| 0 <= i < fs.len() && (#[trigger] fs[i]).kind == k
}

/// Whether a block is replaced by the fragments: a model-context block of
/// a kind that a fragment brings.
pub open spec fn replaced(b: ContentBlock, fs: Seq<ModelContextFragment>) -> bool {
    b matches ContentBlock::Context { kind, .. } && has_kind(fs, kind)
}

/// The blocks that stay, in order.
pub open spec fn retained(bs: Seq<ContentBlock>, fs: Seq<ModelContextFragment>) -> Seq<ContentBlock>
    decreases bs.len(),
{
    if bs.len() == 0 {
        Seq::empty()
    } else if replaced(bs.last(), fs) {
        retained(bs.drop_last(), fs)
    } else {
        retained(bs.drop_last(), fs).push(bs.last())
    }
}

/// The sort key of a block: its kind's rank, other blocks last.
pub open spec fn block_key(b: ContentBlock) -> int {
    match b {
        ContentBlock::Context { kind, .. } => kind_rank(kind),
        _ => 255,
    }
}

/// The blocks of `bs` with key `k`, in order.
pub open spec fn with_key(bs: Seq<ContentBlock>, k: int) -> Seq<ContentBlock>
    decreases bs.len(),
{
    if bs.len() == 0 {
        Seq::empty()
    } else if block_key(bs.last()) == k {
        with_key(bs.drop_last(), k).push(bs.last())
    } else {
        with_key(bs.drop_last(), k)
    }
}

/// `bs` stably sorted by block key.
pub open spec fn sorted_by_key(bs: Seq<ContentBlock>) -> Seq<ContentBlock> {
    with_key(bs, 0) + with_key(bs, 1) + with_key(bs, 2) + with_key(bs, 3) + with_key(bs, 255)
}

/// The content of a target message after the fragments are placed: the
/// fragments first, then the blocks they do not replace, stably sorted so
/// that model-context blocks come first in kind order.
pub open spec fn upserted(c: MessageContent, fs: Seq<ModelContextFragment>) -> Seq<ContentBlock> {
    sorted_by_key(fragment_blocks(fs) + retained(blocks_of(c), fs))
}

/// The text of the latest model-context block of `kind` that has text,
/// searching messages from the last, and each message's blocks from the last.
pub open spec fn latest_text(msgs: Seq<Message>, kind: ModelContextKind) -> Option<Seq<char>>
    decreases msgs.len(),
{
    if msgs.len() == 0 {
        None
    } else {
        match latest_text_in(blocks_if_list(msgs.last().content), kind) {
            Some(t) => Some(t),
            None => latest_text(msgs.drop_last(), kind),
        }
    }
}

pub open spec fn blocks_if_list(c: MessageContent) -> Seq<ContentBlock> {
    match c {
        MessageContent::Blocks(bs) => bs@,
        _ => Seq::empty(),
    }
}

pub open spec fn latest_text_in(bs: Seq<ContentBlock>, kind: ModelContextKind) -> Option<Seq<char>>
    decreases bs.len(),
{
    if bs.len() == 0 {
        None
    } else {
        match bs.last() {
            ContentBlock::Context { kind: k, text: Some(t) } => if k == kind {
                Some(t@)
            } else {
                latest_text_in(bs.drop_last(), kind)
            },
            _ => latest_text_in(bs.drop_last(), kind),
        }
    }
}

pub open spec fn opt_view(o: Option<String>) -> Option<Seq<char>> {
    match o {
        Some(s) => Some(s@),
        None => None,
    }
}

/// Whether two blocks say the same.
pub open spec fn block_same(a: ContentBlock, b: ContentBlock) -> bool {
    match (a, b) {
        (ContentBlock::Context { kind: k1, text: t1 }, ContentBlock::Context { kind: k2, text: t2 }) => k1 == k2
            && opt_view(t1) == opt_view(t2),
        (ContentBlock::Text { text: t1, json: j1 }, ContentBlock::Text { text: t2, json: j2 }) => t1@ == t2@
            && opt_view(j1) == opt_view(j2),
        (ContentBlock::Other { json: j1 }, ContentBlock::Other { json: j2 }) => j1@ == j2@,
        _ => false,
    }
}

pub open spec fn blocks_same(a: Seq<ContentBlock>, b: Seq<ContentBlock>) -> bool {
    a.len() == b.len() && forall|i: int| 0 <= i < a.len() ==> block_same(#[trigger] a[i], b[i])
}

/// Whether two contents say the same.
pub open spec fn content_same(a: MessageContent, b: MessageContent) -> bool {
    match (a, b) {
        (MessageContent::Text(x), MessageContent::Text(y)) => x@ == y@,
        (MessageContent::Blocks(x), MessageContent::Blocks(y)) => blocks_same(x@, y@),
        (MessageContent::Other(x), MessageContent::Other(y)) => x@ == y@,
        _ => false,
    }
}

/// What one placement of the fragments does: without fragments or without a
/// target nothing changes and `false` is returned; otherwise the last target
/// takes them and `r` says whether its content changed.
pub open spec fn upsert_outcome(
    before: Seq<Message>,
    after: Seq<Message>,
    fs: Seq<ModelContextFragment>,
    r: bool,
) -> bool {
    &&& fs.len() == 0 || no_target_from(before, 0) ==> !r && after == before
    &&& fs.len() > 0 && !no_target_from(before, 0) ==> exists|j: int|
        0 <= j < before.len() && #[trigger] is_target(before[j]) && upserted_at(before, after, j, fs, r)
}

/// Two contents of the same kind whose text or blocks read the same.
pub open spec fn content_view_eq(a: MessageContent, b: MessageContent) -> bool {
    match (a, b) {
        (MessageContent::Text(x), MessageContent::Text(y)) => x@ == y@,
        (MessageContent::Blocks(x), MessageContent::Blocks(y)) => x@ == y@,
        (MessageContent::Other(x), MessageContent::Other(y)) => x@ == y@,
        _ => false,
    }
}

/// Two message lists that read the same, message by message.
pub open spec fn same_messages(a: Seq<Message>, b: Seq<Message>) -> bool {
    &&& a.len() == b.len()
    &&& forall|k: int|
        0 <= k < a.len() ==> (#[trigger] a[k]).role == b[k].role && content_view_eq(a[k].content, b[k].content)
}

/// `after` is `before` with the fragments placed in message `j`, the last
/// target; `changed` says whether that message's content changed.
pub open spec fn upserted_at(
    before: Seq<Message>,
    after: Seq<Message>,
    j: int,
    fs: Seq<ModelContextFragment>,
    changed: bool,
) -> bool {
    &&& no_target_from(before, j + 1)
    &&& after.len() == before.len()
    &&& forall|k: int| 0 <= k < before.len() && k != j ==> after[k] == before[k]
    &&& after[j].role == before[j].role
    &&& after[j].content matches MessageContent::Blocks(bs) && bs@ == upserted(before[j].content, fs)
    &&& changed == !content_same(after[j].content, before[j].content)
}

// ---------------------------------------------------------------------------
// Implementation
// ---------------------------------------------------------------------------

fn copy_block(b: &ContentBlock) -> (r: ContentBlock)
    ensures
        r == *b,
{
    match b {
        ContentBlock::Context { kind, text } => ContentBlock::Context {
            kind: *kind,
            text: crate::text::copy_opt_string(text),
        },
        ContentBlock::Text { text, json } => ContentBlock::Text {
            text: text.clone(),
            json: crate::text::copy_opt_string(json),
        },
        ContentBlock::Other { json } => ContentBlock::Other { json: json.clone() },
    }
}

fn same_opt(a: &Option<String>, b: &Option<String>) -> (r: bool)
    ensures
        r == (opt_view(*a) == opt_view(*b)),
{
    match (a, b) {
        (Some(x), Some(y)) => *x == *y,
        (None, None) => true,
        _ => false,
    }
}

fn same_block(a: &ContentBlock, b: &ContentBlock) -> (r: bool)
    ensures
        r == block_same(*a, *b),
{
    match (a, b) {
        (ContentBlock::Context { kind: k1, text: t1 }, ContentBlock::Context { kind: k2, text: t2 }) => *k1
            == *k2 && same_opt(t1, t2),
        (ContentBlock::Text { text: t1, json: j1 }, ContentBlock::Text { text: t2, json: j2 }) => *t1 == *t2
            && same_opt(j1, j2),
        (ContentBlock::Other { json: j1 }, ContentBlock::Other { json: j2 }) => *j1 == *j2,
        _ => false,
    }
}

fn same_blocks(a: &Vec<ContentBlock>, b: &Vec<ContentBlock>) -> (r: bool)
    ensures
        r == blocks_same(a@, b@),
{
    if a.len() != b.len() {
        return false;
    }
    let mut i: usize = 0;
    while i < a.len()
        invariant
            i <= a.len(),
            a.len() == b.len(),
            forall|k: int| 0 <= k < i ==> block_same(#[trigger] a@[k], b@[k]),
        decreases a.len() - i,
    {
        if !same_block(&a[i], &b[i]) {
            return false;
        }
        i += 1;
    }
    true
}

fn same_content(a: &MessageContent, b: &MessageContent) -> (r: bool)
    ensures
        r == content_same(*a, *b),
{
    match (a, b) {
        (MessageContent::Text(x), MessageContent::Text(y)) => *x == *y,
        (MessageContent::Blocks(x), MessageContent::Blocks(y)) => same_blocks(x, y),
        (MessageContent::Other(x), MessageContent::Other(y)) => *x == *y,
        _ => false,
    }
}

fn user_text_request(m: &Message) -> (r: bool)
    ensures
        r == is_user_text_request(*m),
{
    match &m.content {
        MessageContent::Text(t) => !is_blank_str(t.as_str()),
        MessageContent::Blocks(bs) => {
            let mut i: usize = 0;
            while i < bs.len()
                invariant
                    i <= bs.len(),
                    m.content matches MessageContent::Blocks(v) && v@ == bs@,
                    forall|k: int| 0 <= k < i ==> !#[trigger] asks_in_text(bs@[k]),
                decreases bs.len() - i,
            {
                match &bs[i] {
                    ContentBlock::Text { text, .. } => {
                        if !is_blank_str(text.as_str()) {
                            assert(asks_in_text(bs@[i as int]));
                            return true;
                        }
                    },
                    _ => {},
                }
                i += 1;
            }
            false
        },
        MessageContent::Other(_) => false,
    }
}

fn fragments_have_kind(fs: &Vec<ModelContextFragment>, k: ModelContextKind) -> (r: bool)
    ensures
        r == has_kind(fs@, k),
{
    let mut i: usize = 0;
    while i < fs.len()
        invariant
            i <= fs.len(),
            forall|j: int| 0 <= j < i ==> (#[trigger] fs@[j]).kind != k,
        decreases fs.len() - i,
    {
        if fs[i].kind == k {
            return true;
        }
        i += 1;
    }
    false
}

fn key_of(b: &ContentBlock) -> (r: u8)
    ensures
        r as int == block_key(*b),
{
    match b {
        ContentBlock::Context { kind, .. } => kind.sort_key(),
        _ => 255,
    }
}

proof fn lemma_with_key_prefix(bs: Seq<ContentBlock>, k: int, i: int)
    requires
        0 <= i < bs.len(),
    ensures
        with_key(bs.take(i + 1), k) == if block_key(bs[i]) == k {
            with_key(bs.take(i), k).push(bs[i])
        } else {
            with_key(bs.take(i), k)
        },
{
    assert(bs.take(i + 1).drop_last() =~= bs.take(i));
}

/// The blocks of `bs` with key `k`, in order.
fn collect_key(bs: &Vec<ContentBlock>, k: u8, out: &mut Vec<ContentBlock>)
    ensures
        final(out)@ == old(out)@ + with_key(bs@, k as int),
{
    let mut i: usize = 0;
    while i < bs.len()
        invariant
            i <= bs.len(),
            out@ == old(out)@ + with_key(bs@.take(i as int), k as int),
        decreases bs.len() - i,
    {
        proof {
            lemma_with_key_prefix(bs@, k as int, i as int);
        }
        if key_of(&bs[i]) == k {
            out.push(copy_block(&bs[i]));
        }
        i += 1;
    }
    assert(bs@.take(bs.len() as int) =~= bs@);
}

proof fn lemma_fragment_blocks_prefix(fs: Seq<ModelContextFragment>, i: int)
    requires
        0 <= i < fs.len(),
    ensures
        fragment_blocks(fs.take(i + 1)) == fragment_blocks(fs.take(i)).push(fragment_block(fs[i])),
{
    assert(fs.take(i + 1).drop_last() =~= fs.take(i));
}

proof fn lemma_retained_prefix(bs: Seq<ContentBlock>, fs: Seq<ModelContextFragment>, i: int)
    requires
        0 <= i < bs.len(),
    ensures
        retained(bs.take(i + 1), fs) == if replaced(bs[i], fs) {
            retained(bs.take(i), fs)
        } else {
            retained(bs.take(i), fs).push(bs[i])
        },
{
    assert(bs.take(i + 1).drop_last() =~= bs.take(i));
}

fn content_blocks(c: &MessageContent) -> (r: Vec<ContentBlock>)
    ensures
        r@ == blocks_of(*c),
{
    match c {
        MessageContent::Blocks(bs) => {
            let mut out: Vec<ContentBlock> = Vec::new();
            let mut i: usize = 0;
            while i < bs.len()
                invariant
                    i <= bs.len(),
                    out@ == bs@.take(i as int),
                decreases bs.len() - i,
            {
                out.push(copy_block(&bs[i]));
                assert(out@ =~= bs@.take(i + 1));
                i += 1;
            }
            assert(bs@.take(bs.len() as int) =~= bs@);
            out
        },
        MessageContent::Text(t) => {
            let mut out: Vec<ContentBlock> = Vec::new();
            out.push(ContentBlock::Text { text: t.clone(), json: None });
            assert(out@ =~= blocks_of(*c));
            out
        },
        MessageContent::Other(s) => {
            let mut out: Vec<ContentBlock> = Vec::new();
            out.push(ContentBlock::Text { text: s.clone(), json: None });
            assert(out@ =~= blocks_of(*c));
            out
        },
    }
}

/// The content of a target message with the fragments placed.
fn upsert_content(c: &MessageContent, fragments: &Vec<ModelContextFragment>) -> (r: Vec<ContentBlock>)
    ensures
        r@ == upserted(*c, fragments@),
{
    let blocks = content_blocks(c);
    let mut pre: Vec<ContentBlock> = Vec::new();
    let mut i: usize = 0;
    while i < fragments.len()
        invariant
            i <= fragments.len(),
            pre@ == fragment_blocks(fragments@.take(i as int)),
        decreases fragments.len() - i,
    {
        proof {
            lemma_fragment_blocks_prefix(fragments@, i as int);
        }
        pre.push(ContentBlock::Context { kind: fragments[i].kind, text: Some(fragments[i].text.clone()) });
        i += 1;
    }
    assert(fragments@.take(fragments.len() as int) =~= fragments@);
    let ghost head = pre@;
    let mut j: usize = 0;
    while j < blocks.len()
        invariant
            j <= blocks.len(),
            pre@ == head + retained(blocks@.take(j as int), fragments@),
        decreases blocks.len() - j,
    {
        proof {
            lemma_retained_prefix(blocks@, fragments@, j as int);
        }
        let drop = match &blocks[j] {
            ContentBlock::Context { kind, .. } => fragments_have_kind(fragments, *kind),
            _ => false,
        };
        if !drop {
            pre.push(copy_block(&blocks[j]));
        }
        j += 1;
    }
    assert(blocks@.take(blocks.len() as int) =~= blocks@);
    let mut out: Vec<ContentBlock> = Vec::new();
    collect_key(&pre, 0, &mut out);
    collect_key(&pre, 1, &mut out);
    collect_key(&pre, 2, &mut out);
    collect_key(&pre, 3, &mut out);
    collect_key(&pre, 255, &mut out);
    assert(out@ =~= sorted_by_key(pre@));
    out
}

/// Places the fragments in the latest user message that asks something in
/// text: its model-context blocks of the fragments' kinds give way to the
/// fragments, which stand first, and the blocks are ordered so that
/// model-context blocks lead in kind order, the rest keeping their order.
/// Returns whether the message changed; without fragments or without such
/// a message nothing changes.
pub fn upsert_latest_user_model_context(messages: &mut Vec<Message>, fragments: &Vec<ModelContextFragment>) -> (r:
    bool)
    ensures
        upsert_outcome(old(messages)@, final(messages)@, fragments@, r),
{
    if fragments.len() == 0 {
        return false;
    }
    let mut j: usize = messages.len();
    while j > 0
        invariant
            j <= messages.len(),
            messages@ == old(messages)@,
            fragments@.len() > 0,
            no_target_from(messages@, j as int),
        decreases j,
    {
        let ghost jj = (j - 1) as int;
        let is_user = crate::text::eq_str(&crate::text::chars_of(messages[j - 1].role.as_str()), "user");
        proof {
            reveal_strlit("user");
        }
        if is_user && user_text_request(&messages[j - 1]) {
            let idx = j - 1;
            let new_blocks = upsert_content(&messages[idx].content, fragments);
            let new_content = MessageContent::Blocks(new_blocks);
            let changed = !same_content(&new_content, &messages[idx].content);
            let role = messages[idx].role.clone();
            let ghost before = messages@;
            messages.set(idx, Message { role, content: new_content });
            proof {
                assert(is_target(before[idx as int]));
                assert(!no_target_from(before, 0));
                assert(no_target_from(before, idx + 1));
                assert(upserted_at(before, messages@, idx as int, fragments@, changed));
            }
            return changed;
        }
        j -= 1;
    }
    false
}

/// The text of the latest model-context block of `kind`.
pub fn latest_model_context_text(messages: &Vec<Message>, kind: ModelContextKind) -> (r: Option<String>)
    ensures
        match latest_text(messages@, kind) {
            Some(t) => r matches Some(s) && s@ == t,
            None => r is None,
        },
{
    let mut j: usize = messages.len();
    assert(messages@.take(j as int) =~= messages@);
    while j > 0
        invariant
            j <= messages.len(),
            latest_text(messages@, kind) == latest_text(messages@.take(j as int), kind),
        decreases j,
    {
        let ghost pre = messages@.take(j as int);
        assert(pre.drop_last() =~= messages@.take(j - 1));
        match &messages[j - 1].content {
            MessageContent::Blocks(bs) => {
                let mut i: usize = bs.len();
                assert(bs@.take(i as int) =~= bs@);
                while i > 0
                    invariant
                        i <= bs.len(),
                        0 < j <= messages.len(),
                        messages@[j - 1].content matches MessageContent::Blocks(v) && v@ == bs@,
                        latest_text(messages@, kind) == latest_text(messages@.take(j as int), kind),
                        latest_text_in(bs@, kind) == latest_text_in(bs@.take(i as int), kind),
                    decreases i,
                {
                    assert(bs@.take(i as int).drop_last() =~= bs@.take(i - 1));
                    match &bs[i - 1] {
                        ContentBlock::Context { kind: k, text: Some(t) } => {
                            if *k == kind {
                                return Some(t.clone());
                            }
                        },
                        _ => {},
                    }
                    i -= 1;
                }
                assert(bs@.take(0) =~= Seq::<ContentBlock>::empty());
            },
            _ => {},
        }
        j -= 1;
    }
    assert(messages@.take(0) =~= Seq::<Message>::empty());
    None
}

// ---------------------------------------------------------------------------
// Laws
// ---------------------------------------------------------------------------

proof fn lemma_retained_concat(x: Seq<ContentBlock>, y: Seq<ContentBlock>, fs: Seq<ModelContextFragment>)
    ensures
        retained(x + y, fs) == retained(x, fs) + retained(y, fs),
    decreases y.len(),
{
    if y.len() == 0 {
        assert(x + y =~= x);
        assert(retained(x, fs) + retained(y, fs) =~= retained(x, fs));
    } else {
        lemma_retained_concat(x, y.drop_last(), fs);
        assert((x + y).drop_last() =~= x + y.drop_last());
        assert((x + y).last() == y.last());
        if replaced(y.last(), fs) {
        } else {
            assert(retained(x, fs) + retained(y.drop_last(), fs).push(y.last()) =~= (retained(x, fs) + retained(
                y.drop_last(),
                fs,
            )).push(y.last()));
        }
    }
}

proof fn lemma_with_key_concat(x: Seq<ContentBlock>, y: Seq<ContentBlock>, k: int)
    ensures
        with_key(x + y, k) == with_key(x, k) + with_key(y, k),
    decreases y.len(),
{
    if y.len() == 0 {
        assert(x + y =~= x);
        assert(with_key(x, k) + with_key(y, k) =~= with_key(x, k));
    } else {
        lemma_with_key_concat(x, y.drop_last(), k);
        assert((x + y).drop_last() =~= x + y.drop_last());
        assert((x + y).last() == y.last());
        if block_key(y.last()) == k {
            assert(with_key(x, k) + with_key(y.drop_last(), k).push(y.last()) =~= (with_key(x, k) + with_key(
                y.drop_last(),
                k,
            )).push(y.last()));
        }
    }
}

/// Selecting one key and dropping replaced blocks commute.
proof fn lemma_retained_with_key(x: Seq<ContentBlock>, fs: Seq<ModelContextFragment>, k: int)
    ensures
        retained(with_key(x, k), fs) == with_key(retained(x, fs), k),
    decreases x.len(),
{
    if x.len() > 0 {
        let y = x.drop_last();
        let b = x.last();
        lemma_retained_with_key(y, fs, k);
        assert(with_key(y, k).push(b).drop_last() =~= with_key(y, k));
        assert(retained(y, fs).push(b).drop_last() =~= retained(y, fs));
    }
}

proof fn lemma_with_key_with_key(x: Seq<ContentBlock>, k: int, j: int)
    ensures
        with_key(with_key(x, k), j) == if k == j { with_key(x, k) } else { Seq::<ContentBlock>::empty() },
    decreases x.len(),
{
    if x.len() > 0 {
        let y = x.drop_last();
        let b = x.last();
        lemma_with_key_with_key(y, k, j);
        assert(with_key(y, k).push(b).drop_last() =~= with_key(y, k));
    }
}

/// A block's key is one of the five keys.
pub open spec fn known_key(k: int) -> bool {
    k == 0 || k == 1 || k == 2 || k == 3 || k == 255
}

/// Sorting keeps the blocks of each key, in order.
proof fn lemma_with_key_sorted(x: Seq<ContentBlock>, k: int)
    requires
        known_key(k),
    ensures
        with_key(sorted_by_key(x), k) == with_key(x, k),
{
    let s0 = with_key(x, 0);
    let s1 = with_key(x, 1);
    let s2 = with_key(x, 2);
    let s3 = with_key(x, 3);
    let s4 = with_key(x, 255);
    lemma_with_key_concat(s0 + s1 + s2 + s3, s4, k);
    lemma_with_key_concat(s0 + s1 + s2, s3, k);
    lemma_with_key_concat(s0 + s1, s2, k);
    lemma_with_key_concat(s0, s1, k);
    lemma_with_key_with_key(x, 0, k);
    lemma_with_key_with_key(x, 1, k);
    lemma_with_key_with_key(x, 2, k);
    lemma_with_key_with_key(x, 3, k);
    lemma_with_key_with_key(x, 255, k);
    let e = Seq::<ContentBlock>::empty();
    if k == 0 {
        assert(with_key(x, 0) + e + e + e + e =~= with_key(x, 0));
    } else if k == 1 {
        assert(e + with_key(x, 1) + e + e + e =~= with_key(x, 1));
    } else if k == 2 {
        assert(e + e + with_key(x, 2) + e + e =~= with_key(x, 2));
    } else if k == 3 {
        assert(e + e + e + with_key(x, 3) + e =~= with_key(x, 3));
    } else {
        assert(e + e + e + e + with_key(x, 255) =~= with_key(x, 255));
    }
}

/// Two sequences with the same blocks of each key sort alike.
proof fn lemma_sorted_by_parts(x: Seq<ContentBlock>, y: Seq<ContentBlock>)
    requires
        forall|k: int| known_key(k) ==> with_key(x, k) == with_key(y, k),
    ensures
        sorted_by_key(x) == sorted_by_key(y),
{
    assert(known_key(0) && known_key(1) && known_key(2) && known_key(3) && known_key(255));
}

/// Dropping replaced blocks from a sorted sequence sorts what remains.
proof fn lemma_retained_sorted(x: Seq<ContentBlock>, fs: Seq<ModelContextFragment>)
    ensures
        retained(sorted_by_key(x), fs) == sorted_by_key(retained(x, fs)),
{
    let s0 = with_key(x, 0);
    let s1 = with_key(x, 1);
    let s2 = with_key(x, 2);
    let s3 = with_key(x, 3);
    let s4 = with_key(x, 255);
    lemma_retained_concat(s0 + s1 + s2 + s3, s4, fs);
    lemma_retained_concat(s0 + s1 + s2, s3, fs);
    lemma_retained_concat(s0 + s1, s2, fs);
    lemma_retained_concat(s0, s1, fs);
    lemma_retained_with_key(x, fs, 0);
    lemma_retained_with_key(x, fs, 1);
    lemma_retained_with_key(x, fs, 2);
    lemma_retained_with_key(x, fs, 3);
    lemma_retained_with_key(x, fs, 255);
}

/// The fragment blocks are all replaced by their own fragments.
proof fn lemma_fragments_replaced(fs: Seq<ModelContextFragment>, n: int)
    requires
        0 <= n <= fs.len(),
    ensures
        retained(fragment_blocks(fs.take(n)), fs) == Seq::<ContentBlock>::empty(),
    decreases n,
{
    if n > 0 {
        lemma_fragment_blocks_take(fs, n);
        lemma_fragments_replaced(fs, n - 1);
        assert(has_kind(fs, fs[n - 1].kind));
        assert(replaced(fragment_block(fs[n - 1]), fs));
        let y = fragment_blocks(fs.take(n - 1));
        assert(y.push(fragment_block(fs[n - 1])).drop_last() =~= y);
    } else {
        assert(fs.take(0) =~= Seq::<ModelContextFragment>::empty());
    }
}

proof fn lemma_fragment_blocks_take(fs: Seq<ModelContextFragment>, n: int)
    requires
        0 < n <= fs.len(),
    ensures
        fragment_blocks(fs.take(n)) == fragment_blocks(fs.take(n - 1)).push(fragment_block(fs[n - 1])),
{
    assert(fs.take(n).drop_last() =~= fs.take(n - 1));
}

/// What remains after dropping replaced blocks has none left to drop.
proof fn lemma_retained_idempotent(x: Seq<ContentBlock>, fs: Seq<ModelContextFragment>)
    ensures
        retained(retained(x, fs), fs) == retained(x, fs),
    decreases x.len(),
{
    if x.len() > 0 {
        let y = x.drop_last();
        let b = x.last();
        lemma_retained_idempotent(y, fs);
        assert(retained(y, fs).push(b).drop_last() =~= retained(y, fs));
    }
}

/// Placing the same fragments twice leaves the blocks as the first time
/// placed them.
pub proof fn law_upsert_blocks_idempotent(c: MessageContent, fs: Seq<ModelContextFragment>, v: Vec<ContentBlock>)
    requires
        v@ == upserted(c, fs),
    ensures
        upserted(MessageContent::Blocks(v), fs) == v@,
{
    let f = fragment_blocks(fs);
    let r = retained(blocks_of(c), fs);
    let p = f + r;
    assert(blocks_of(MessageContent::Blocks(v)) == v@);
    // what the second placement keeps of the first result
    lemma_retained_sorted(p, fs);
    lemma_retained_concat(f, r, fs);
    assert(fs.take(fs.len() as int) =~= fs);
    lemma_fragments_replaced(fs, fs.len() as int);
    lemma_retained_idempotent(blocks_of(c), fs);
    assert(retained(p, fs) =~= r);
    let kept = sorted_by_key(r);
    assert(retained(v@, fs) == kept);
    // sorting the fragments before the sorted rest gives the same order
    assert forall|k: int| known_key(k) implies with_key(f + kept, k) == with_key(p, k) by {
        lemma_with_key_concat(f, kept, k);
        lemma_with_key_concat(f, r, k);
        lemma_with_key_sorted(r, k);
    }
    lemma_sorted_by_parts(f + kept, p);
}


proof fn lemma_retained_keeps(x: Seq<ContentBlock>, fs: Seq<ModelContextFragment>, i: int)
    requires
        0 <= i < x.len(),
        !replaced(x[i], fs),
    ensures
        retained(x, fs).contains(x[i]),
    decreases x.len(),
{
    let y = x.drop_last();
    if i == x.len() - 1 {
        assert(retained(x, fs) == retained(y, fs).push(x[i]));
        assert(retained(x, fs)[retained(y, fs).len() as int] == x[i]);
    } else {
        lemma_retained_keeps(y, fs, i);
        assert(y[i] == x[i]);
        let j = choose|j: int| 0 <= j < retained(y, fs).len() && retained(y, fs)[j] == x[i];
        if !replaced(x.last(), fs) {
            assert(retained(x, fs)[j] == x[i]);
        }
    }
}

proof fn lemma_with_key_keeps(x: Seq<ContentBlock>, i: int)
    requires
        0 <= i < x.len(),
    ensures
        with_key(x, block_key(x[i])).contains(x[i]),
    decreases x.len(),
{
    let y = x.drop_last();
    let k = block_key(x[i]);
    if i == x.len() - 1 {
        assert(with_key(x, k)[with_key(y, k).len() as int] == x[i]);
    } else {
        lemma_with_key_keeps(y, i);
        assert(y[i] == x[i]);
        let j = choose|j: int| 0 <= j < with_key(y, k).len() && with_key(y, k)[j] == x[i];
        if block_key(x.last()) == k {
            assert(with_key(x, k)[j] == x[i]);
        }
    }
}

/// Sorting keeps every text block.
proof fn lemma_sorted_keeps_text(x: Seq<ContentBlock>, i: int)
    requires
        0 <= i < x.len(),
        x[i] is Text,
    ensures
        sorted_by_key(x).contains(x[i]),
{
    lemma_with_key_keeps(x, i);
    let w = with_key(x, 255);
    let j = choose|j: int| 0 <= j < w.len() && w[j] == x[i];
    let head = with_key(x, 0) + with_key(x, 1) + with_key(x, 2) + with_key(x, 3);
    assert(sorted_by_key(x)[head.len() + j] == x[i]);
}

/// A message that asks something in text still does after the fragments
/// are placed in it.
proof fn lemma_target_stays(m: Message, fs: Seq<ModelContextFragment>, v: Vec<ContentBlock>)
    requires
        is_user_text_request(m),
        v@ == upserted(m.content, fs),
    ensures
        is_user_text_request(Message { role: m.role, content: MessageContent::Blocks(v) }),
{
    let bs = blocks_of(m.content);
    let i: int = match m.content {
        MessageContent::Blocks(b) => choose|i: int| 0 <= i < b@.len() && #[trigger] asks_in_text(b@[i]),
        _ => 0,
    };
    assert(asks_in_text(bs[i]));
    lemma_retained_keeps(bs, fs, i);
    let r = retained(bs, fs);
    let k = choose|k: int| 0 <= k < r.len() && r[k] == bs[i];
    let p = fragment_blocks(fs) + r;
    assert(p[fragment_blocks(fs).len() + k] == bs[i]);
    lemma_sorted_keeps_text(p, fragment_blocks(fs).len() + k);
    assert(sorted_by_key(p) == v@);
    assert(v@.contains(bs[i]));
    let q = choose|q: int| 0 <= q < v@.len() && v@[q] == bs[i];
    assert(asks_in_text(v@[q]));
    let m2 = Message { role: m.role, content: MessageContent::Blocks(v) };
    assert(m2.content matches MessageContent::Blocks(b2) && b2@ == v@);
}

proof fn lemma_block_same_refl(x: Seq<ContentBlock>)
    ensures
        blocks_same(x, x),
{
}

/// Placing the same fragments a second time, in the messages the first
/// placement left, changes nothing: the same message is the target and its
/// content stays as it was.
pub proof fn law_second_upsert_changes_nothing(
    m0: Seq<Message>,
    m1: Seq<Message>,
    m2: Seq<Message>,
    j: int,
    j2: int,
    fs: Seq<ModelContextFragment>,
    first_changed: bool,
    second_changed: bool,
)
    requires
        0 <= j < m0.len(),
        is_target(m0[j]),
        upserted_at(m0, m1, j, fs, first_changed),
        0 <= j2 < m1.len(),
        is_target(m1[j2]),
        upserted_at(m1, m2, j2, fs, second_changed),
    ensures
        j2 == j,
        !second_changed,
{
    let v = m1[j].content->Blocks_0;
    lemma_target_stays(m0[j], fs, v);
    assert(m1[j] == Message { role: m0[j].role, content: MessageContent::Blocks(v) }) by {
        assert(m1[j].role == m0[j].role);
    }
    assert(is_target(m1[j]));
    if j2 < j {
        assert(no_target_from(m1, j2 + 1));
        assert(!is_target(m1[j]));
    }
    if j2 > j {
        assert(m1[j2] == m0[j2]);
        assert(!is_target(m0[j2]));
    }
    law_upsert_blocks_idempotent(m0[j].content, fs, v);
    let bs2 = m2[j].content->Blocks_0;
    assert(bs2@ == v@);
    lemma_block_same_refl(v@);
}

/// Upserting the same fragments a second time, into the messages the first
/// upsert left, returns `false` and leaves the messages as they were.
pub proof fn law_repeated_upsert_is_a_no_op(
    m0: Seq<Message>,
    m1: Seq<Message>,
    m2: Seq<Message>,
    fs: Seq<ModelContextFragment>,
    first: bool,
    second: bool,
)
    requires
        upsert_outcome(m0, m1, fs, first),
        upsert_outcome(m1, m2, fs, second),
    ensures
        !second,
        same_messages(m1, m2),
{
    if fs.len() == 0 || no_target_from(m0, 0) {
        assert(m1 == m0);
        assert(m2 == m1);
    } else {
        let j = choose|j: int| 0 <= j < m0.len() && #[trigger] is_target(m0[j]) && upserted_at(m0, m1, j, fs, first);
        let v = m1[j].content->Blocks_0;
        lemma_target_stays(m0[j], fs, v);
        assert(m1[j] == Message { role: m0[j].role, content: MessageContent::Blocks(v) });
        assert(is_target(m1[j]));
        assert(!no_target_from(m1, 0));
        let j2 = choose|j2: int| 0 <= j2 < m1.len() && #[trigger] is_target(m1[j2]) && upserted_at(m1, m2, j2, fs, second);
        law_second_upsert_changes_nothing(m0, m1, m2, j, j2, fs, first, second);
        law_upsert_blocks_idempotent(m0[j].content, fs, v);
        assert forall|k: int| 0 <= k < m1.len() implies (#[trigger] m1[k]).role == m2[k].role && content_view_eq(m1[k].content, m2[k].content) by {
            if k != j {
                assert(m2[k] == m1[k]);
            }
        }
    }
}

/// Whether `b` is a model-context block of `kind` that carries text.
pub open spec fn is_context_text_of(b: ContentBlock, kind: ModelContextKind) -> bool {
    b matches ContentBlock::Context { kind: k, text: Some(_) } && k == kind
}

proof fn lemma_latest_text_in_found(bs: Seq<ContentBlock>, kind: ModelContextKind, i: int, t: String)
    requires
        0 <= i < bs.len(),
        bs[i] == (ContentBlock::Context { kind, text: Some(t) }),
        forall|k: int| i < k < bs.len() ==> !is_context_text_of(#[trigger] bs[k], kind),
    ensures
        latest_text_in(bs, kind) == Some(t@),
    decreases bs.len(),
{
    if i < bs.len() - 1 {
        assert(!is_context_text_of(bs[bs.len() - 1], kind));
        let b0 = bs.drop_last();
        assert forall|k: int| i < k < b0.len() implies !is_context_text_of(#[trigger] b0[k], kind) by {
            assert(b0[k] == bs[k]);
        }
        lemma_latest_text_in_found(b0, kind, i, t);
    }
}

proof fn lemma_latest_text_in_absent(bs: Seq<ContentBlock>, kind: ModelContextKind)
    requires
        forall|k: int| 0 <= k < bs.len() ==> !is_context_text_of(#[trigger] bs[k], kind),
    ensures
        latest_text_in(bs, kind) is None,
    decreases bs.len(),
{
    if bs.len() > 0 {
        assert(!is_context_text_of(bs[bs.len() - 1], kind));
        let b0 = bs.drop_last();
        assert forall|k: int| 0 <= k < b0.len() implies !is_context_text_of(#[trigger] b0[k], kind) by {
            assert(b0[k] == bs[k]);
        }
        lemma_latest_text_in_absent(b0, kind);
    }
}

/// The newest message decides what context text of a kind is read back:
/// when a message appended to any history holds, as blocks, a model-context
/// block of `kind` with text `t` followed by no other such block with text,
/// the text read back is `t`, whatever the earlier messages hold. A message
/// without such a block (or without blocks) leaves the answer of the earlier
/// messages.
pub proof fn law_latest_context_text_comes_from_the_newest_message(
    msgs: Seq<Message>,
    m: Message,
    kind: ModelContextKind,
    i: int,
    t: String,
)
    ensures
        (m.content matches MessageContent::Blocks(v) && 0 <= i < v@.len() && v@[i] == (ContentBlock::Context {
            kind,
            text: Some(t),
        }) && forall|k: int| i < k < v@.len() ==> !is_context_text_of(#[trigger] v@[k], kind)) ==> latest_text(
            msgs.push(m),
            kind,
        ) == Some(t@),
        (forall|k: int|
            0 <= k < blocks_if_list(m.content).len() ==> !is_context_text_of(
                #[trigger] blocks_if_list(m.content)[k],
                kind,
            )) ==> latest_text(msgs.push(m), kind) == latest_text(msgs, kind),
{
    let all = msgs.push(m);
    assert(all.last() == m);
    assert(all.drop_last() =~= msgs);
    if let MessageContent::Blocks(v) = m.content {
        if 0 <= i < v@.len() && v@[i] == (ContentBlock::Context { kind, text: Some(t) }) && forall|k: int|
            i < k < v@.len() ==> !is_context_text_of(#[trigger] v@[k], kind) {
            lemma_latest_text_in_found(v@, kind, i, t);
        }
    }
    if forall|k: int|
        0 <= k < blocks_if_list(m.content).len() ==> !is_context_text_of(#[trigger] blocks_if_list(m.content)[k], kind) {
        lemma_latest_text_in_absent(blocks_if_list(m.content), kind);
    }
}

} // verus!

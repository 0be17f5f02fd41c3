//! What the runtime reads from plugins: command and skill descriptions in
//! Markdown front matter, hook matchers, hook block messages, discovery
//! sources and MCP defaults.
use vstd::prelude::*;

use crate::config::McpServerTransport;
use crate::path::{is_absolute, join_path};
use crate::runtime_control::AgentEvent;
use crate::text::{
    ascii_lower, ascii_lower_exec, chars_of, eq_chars, eq_str, find_char, find_char_exec, is_blank,
    is_blank_chars, is_blank_str, lines, lines_exec, slice_chars, split, split_exec, starts_with,
    starts_with_chars, string_from_chars, trim, trim_chars, trim_str, views,
};

verus! {

// ---------------------------------------------------------------------------
// Front matter
// ---------------------------------------------------------------------------

pub open spec fn three_dashes() -> Seq<char> {
    "---"@
}

/// End of the line piece (with its `\n`) that starts at `start`.
pub open spec fn piece_end(c: Seq<char>, start: int) -> int {
    if find_char(c, '\n', start) < c.len() {
        find_char(c, '\n', start) + 1
    } else {
        c.len() as int
    }
}

/// Offset just after the first line, at or after `start`, that is `---`
/// once trimmed; -1 when there is none.
pub open spec fn frontmatter_close(c: Seq<char>, start: int) -> int
    decreases c.len() - start,
{
    if start < 0 || start >= c.len() {
        -1
    } else if piece_end(c, start) <= start {
        -1
    } else if trim(c.subrange(start, piece_end(c, start))) == three_dashes() {
        piece_end(c, start)
    } else {
        frontmatter_close(c, piece_end(c, start))
    }
}

/// Whether `c` opens with a front-matter fence.
pub open spec fn opens_frontmatter(c: Seq<char>) -> bool {
    lines(c).len() > 0 && trim(lines(c)[0]) == three_dashes()
}

/// `c` without a leading front-matter block (`---` … `---`); `c` itself
/// when it has none or the block is not closed.
pub open spec fn strip_frontmatter(c: Seq<char>) -> Seq<char> {
    if opens_frontmatter(c) && frontmatter_close(c, piece_end(c, 0)) >= 0 {
        c.skip(frontmatter_close(c, piece_end(c, 0)))
    } else {
        c
    }
}

proof fn lemma_find_char_range(s: Seq<char>, c: char, i: int)
    requires
        0 <= i <= s.len(),
    ensures
        i <= find_char(s, c, i) <= s.len(),
{
    crate::text::lemma_find_char_bounds(s, c, i);
}

/// The content after a leading front-matter block.
pub fn strip_leading_frontmatter(content: &str) -> (r: String)
    ensures
        r@ == strip_frontmatter(content@),
{
    let c = chars_of(content);
    let ls = lines_exec(&c);
    let mut dashes: Vec<char> = Vec::new();
    dashes.push('-');
    dashes.push('-');
    dashes.push('-');
    proof {
        reveal_strlit("---");
    }
    assert(dashes@ =~= three_dashes());
    if ls.len() == 0 {
        return content.to_owned();
    }
    let first = trim_chars(&ls[0]);
    assert(views(ls@)[0] == ls@[0]@);
    if !eq_chars(&first, &dashes) {
        return content.to_owned();
    }
    let n0 = find_char_exec(&c, '\n', 0);
    proof {
        lemma_find_char_range(c@, '\n', 0);
    }
    let mut start: usize = if n0 < c.len() {
        n0 + 1
    } else {
        c.len()
    };
    assert(start as int == piece_end(c@, 0));
    assert(opens_frontmatter(content@));
    while start < c.len()
        invariant
            start <= c.len(),
            c@ == content@,
            dashes@ == three_dashes(),
            opens_frontmatter(content@),
            frontmatter_close(c@, piece_end(c@, 0)) == frontmatter_close(c@, start as int),
        decreases c.len() - start,
    {
        let n = find_char_exec(&c, '\n', start);
        proof {
            lemma_find_char_range(c@, '\n', start as int);
        }
        let end: usize = if n < c.len() {
            n + 1
        } else {
            c.len()
        };
        assert(end as int == piece_end(c@, start as int));
        let piece = slice_chars(&c, start, end);
        let t = trim_chars(&piece);
        if eq_chars(&t, &dashes) {
            let rest = slice_chars(&c, end, c.len());
            assert(rest@ =~= c@.skip(end as int));
            assert(frontmatter_close(c@, start as int) == end as int);
            return string_from_chars(&rest);
        }
        start = end;
    }
    content.to_owned()
}

/// A YAML scalar as the front matter writes it: trimmed, and unquoted when
/// it is wrapped in matching double or single quotes.
pub open spec fn yaml_scalar(v: Seq<char>) -> Seq<char> {
    let t = trim(v);
    if t.len() >= 2 && ((t[0] == '"' && t.last() == '"') || (t[0] == '\'' && t.last() == '\'')) {
        t.subrange(1, t.len() - 1)
    } else {
        t
    }
}

pub fn trim_yaml_scalar(value: &str) -> (r: String)
    ensures
        r@ == yaml_scalar(value@),
{
    let t = trim_chars(&chars_of(value));
    if t.len() >= 2 && ((t[0] == '"' && t[t.len() - 1] == '"') || (t[0] == '\'' && t[t.len() - 1]
        == '\'')) {
        let inner = slice_chars(&t, 1, t.len() - 1);
        return string_from_chars(&inner);
    }
    string_from_chars(&t)
}

/// The value of `key` in the front matter, from line `i` on: the first
/// `key: value` line (key trimmed) with a non-empty value; nothing past the
/// closing fence.
pub open spec fn field_from(ls: Seq<Seq<char>>, i: int, key: Seq<char>) -> Option<Seq<char>>
    decreases ls.len() - i,
{
    if i < 0 || i >= ls.len() {
        None
    } else {
        let t = trim(ls[i]);
        let colon = find_char(t, ':', 0);
        if t == three_dashes() {
            None
        } else if colon < t.len() && trim(t.take(colon)) == key && yaml_scalar(t.skip(colon + 1)).len()
            > 0 {
            Some(yaml_scalar(t.skip(colon + 1)))
        } else {
            field_from(ls, i + 1, key)
        }
    }
}

/// The value of `key` in a leading front-matter block.
pub open spec fn frontmatter_field(content: Seq<char>, key: Seq<char>) -> Option<Seq<char>> {
    if opens_frontmatter(content) {
        field_from(lines(content), 1, key)
    } else {
        None
    }
}

pub fn extract_leading_frontmatter_field(content: &str, key: &str) -> (r: Option<String>)
    ensures
        match frontmatter_field(content@, key@) {
            Some(v) => r matches Some(s) && s@ == v,
            None => r is None,
        },
{
    let c = chars_of(content);
    let ls = lines_exec(&c);
    let keyv = chars_of(key);
    let mut dashes: Vec<char> = Vec::new();
    dashes.push('-');
    dashes.push('-');
    dashes.push('-');
    proof {
        reveal_strlit("---");
    }
    assert(dashes@ =~= three_dashes());
    if ls.len() == 0 {
        return None;
    }
    assert(views(ls@)[0] == ls@[0]@);
    let first = trim_chars(&ls[0]);
    if !eq_chars(&first, &dashes) {
        return None;
    }
    let mut i: usize = 1;
    while i < ls.len()
        invariant
            1 <= i <= ls.len(),
            views(ls@) == lines(content@),
            opens_frontmatter(content@),
            dashes@ == three_dashes(),
            keyv@ == key@,
            frontmatter_field(content@, key@) == field_from(views(ls@), i as int, key@),
        decreases ls.len() - i,
    {
        assert(views(ls@)[i as int] == ls@[i as int]@);
        let t = trim_chars(&ls[i]);
        if eq_chars(&t, &dashes) {
            return None;
        }
        let colon = find_char_exec(&t, ':', 0);
        proof {
            lemma_find_char_range(t@, ':', 0);
        }
        if colon < t.len() {
            let field = slice_chars(&t, 0, colon);
            assert(field@ =~= t@.take(colon as int));
            let ft = trim_chars(&field);
            if eq_chars(&ft, &keyv) {
                let raw = slice_chars(&t, colon + 1, t.len());
                assert(raw@ =~= t@.skip(colon + 1));
                let raw_s = string_from_chars(&raw);
                let value = trim_yaml_scalar(raw_s.as_str());
                if chars_of(value.as_str()).len() > 0 {
                    return Some(value);
                }
            }
        }
        i += 1;
    }
    None
}

// ---------------------------------------------------------------------------
// Descriptions
// ---------------------------------------------------------------------------

/// The first line of `ls`, from `i` on, that is not blank and is not a
/// heading, trimmed.
pub open spec fn first_text_line(ls: Seq<Seq<char>>, i: int) -> Option<Seq<char>>
    decreases ls.len() - i,
{
    if i < 0 || i >= ls.len() {
        None
    } else if !is_blank(ls[i]) && !starts_with(trim(ls[i]), seq!['#']) {
        Some(trim(ls[i]))
    } else {
        first_text_line(ls, i + 1)
    }
}

pub open spec fn first_section_text(sections: Seq<Seq<char>>, i: int) -> Option<Seq<char>>
    decreases sections.len() - i,
{
    if i < 0 || i >= sections.len() {
        None
    } else {
        match first_text_line(lines(sections[i]), 0) {
            Some(t) => Some(t),
            None => first_section_text(sections, i + 1),
        }
    }
}

/// A skill's description: the first text line of its Markdown body (after
/// the front matter), sections split at `"\n#"`; a fixed text when there
/// is none.
pub open spec fn skill_description(content: Seq<char>) -> Seq<char> {
    match first_section_text(split(strip_frontmatter(content), "\n#"@), 0) {
        Some(t) => t,
        None => "No description provided."@,
    }
}

fn first_text_line_exec(ls: &Vec<Vec<char>>) -> (r: Option<Vec<char>>)
    ensures
        match first_text_line(views(ls@), 0) {
            Some(t) => r matches Some(v) && v@ == t,
            None => r is None,
        },
{
    let mut hash: Vec<char> = Vec::new();
    hash.push('#');
    let mut i: usize = 0;
    while i < ls.len()
        invariant
            i <= ls.len(),
            hash@ == seq!['#'],
            first_text_line(views(ls@), 0) == first_text_line(views(ls@), i as int),
        decreases ls.len() - i,
    {
        assert(views(ls@)[i as int] == ls@[i as int]@);
        let t = trim_chars(&ls[i]);
        if !is_blank_chars(&ls[i]) && !starts_with_chars(&t, &hash) {
            return Some(t);
        }
        i += 1;
    }
    None
}

pub fn extract_plugin_skill_description(content: &str) -> (r: String)
    ensures
        r@ == skill_description(content@),
{
    let body = strip_leading_frontmatter(content);
    let bv = chars_of(body.as_str());
    let mut sep: Vec<char> = Vec::new();
    sep.push('\n');
    sep.push('#');
    proof {
        reveal_strlit("\n#");
    }
    assert(sep@ =~= "\n#"@);
    let sections = split_exec(&bv, &sep);
    let mut i: usize = 0;
    while i < sections.len()
        invariant
            i <= sections.len(),
            views(sections@) == split(strip_frontmatter(content@), "\n#"@),
            first_section_text(views(sections@), 0) == first_section_text(
                views(sections@),
                i as int,
            ),
        decreases sections.len() - i,
    {
        assert(views(sections@)[i as int] == sections@[i as int]@);
        let ls = lines_exec(&sections[i]);
        if let Some(t) = first_text_line_exec(&ls) {
            return string_from_chars(&t);
        }
        i += 1;
    }
    "No description provided.".to_owned()
}

/// A command's description: the front-matter `description`, else the
/// first text line of its body.
pub fn extract_plugin_command_description(content: &str) -> (r: String)
    ensures
        match frontmatter_field(content@, "description"@) {
            Some(d) => r@ == d,
            None => r@ == skill_description(content@),
        },
{
    match extract_leading_frontmatter_field(content, "description") {
        Some(d) => d,
        None => extract_plugin_skill_description(content),
    }
}

// ---------------------------------------------------------------------------
// Hook matchers
// ---------------------------------------------------------------------------

pub open spec fn is_matcher_sep(c: char) -> bool {
    c == '|' || c == ','
}

/// Index of the first separator at or after `i` (or the length).
pub open spec fn next_sep(s: Seq<char>, i: int) -> int
    decreases s.len() - i,
{
    if i < 0 || i >= s.len() {
        s.len() as int
    } else if is_matcher_sep(s[i]) {
        i
    } else {
        next_sep(s, i + 1)
    }
}

/// The parts of `s` between `|` and `,` separators, from `i` on.
pub open spec fn matcher_parts(s: Seq<char>, i: int) -> Seq<Seq<char>>
    decreases s.len() + 1 - i,
{
    if i < 0 || i > s.len() {
        Seq::empty()
    } else if next_sep(s, i) >= s.len() || next_sep(s, i) < i {
        seq![s.subrange(i, s.len() as int)]
    } else {
        seq![s.subrange(i, next_sep(s, i))] + matcher_parts(s, next_sep(s, i) + 1)
    }
}

/// The tool name a matcher part names: what comes before `(`, trimmed.
pub open spec fn part_pattern(part: Seq<char>) -> Seq<char> {
    trim(part.take(find_char(part, '(', 0)))
}

/// Whether a trimmed, non-empty part matches the tool: `*`, or the tool's
/// trimmed name compared case-insensitively (ASCII).
pub open spec fn part_matches(part: Seq<char>, tool_name: Seq<char>) -> bool {
    let p = trim(part);
    p.len() > 0 && (part_pattern(p) == "*"@ || ascii_lower(part_pattern(p)) == ascii_lower(
        trim(tool_name),
    ))
}

pub open spec fn matcher_matches(matcher: Seq<char>, tool_name: Seq<char>) -> bool {
    exists|i: int|
        0 <= i < matcher_parts(matcher, 0).len() && part_matches(
            #[trigger] matcher_parts(matcher, 0)[i],
            tool_name,
        )
}

proof fn lemma_next_sep_bounds(s: Seq<char>, i: int)
    requires
        0 <= i <= s.len(),
    ensures
        i <= next_sep(s, i) <= s.len(),
        next_sep(s, i) < s.len() ==> is_matcher_sep(s[next_sep(s, i)]),
    decreases s.len() - i,
{
    if i < s.len() && !is_matcher_sep(s[i]) {
        lemma_next_sep_bounds(s, i + 1);
    }
}

fn part_matches_exec(part: &Vec<char>, tool: &Vec<char>) -> (b: bool)
    ensures
        b == part_matches(part@, tool@),
{
    let p = trim_chars(part);
    if p.len() == 0 {
        return false;
    }
    let paren = find_char_exec(&p, '(', 0);
    proof {
        lemma_find_char_range(p@, '(', 0);
    }
    let head = slice_chars(&p, 0, paren);
    assert(head@ =~= p@.take(paren as int));
    let pattern = trim_chars(&head);
    if eq_str(&pattern, "*") {
        return true;
    }
    let t = trim_chars(tool);
    eq_chars(&ascii_lower_exec(&pattern), &ascii_lower_exec(&t))
}

/// Whether a hook matcher (`"Bash(*)"`, `"Write|Edit"`, …) names the tool.
pub fn tool_name_matches(matcher: &str, tool_name: &str) -> (b: bool)
    ensures
        b == matcher_matches(matcher@, tool_name@),
{
    let m = chars_of(matcher);
    let tool = chars_of(tool_name);
    let mut start: usize = 0;
    loop
        invariant
            start <= m.len(),
            m@ == matcher@,
            tool@ == tool_name@,
            forall|k: int|
                0 <= k < matcher_parts(m@, 0).len() - matcher_parts(m@, start as int).len() ==> !part_matches(
                    #[trigger] matcher_parts(m@, 0)[k],
                    tool_name@,
                ),
            matcher_parts(m@, 0) == matcher_parts(m@, 0).take(
                matcher_parts(m@, 0).len() - matcher_parts(m@, start as int).len(),
            ) + matcher_parts(m@, start as int),
            matcher_parts(m@, 0).len() >= matcher_parts(m@, start as int).len(),
        decreases m.len() - start,
    {
        let mut end = start;
        while end < m.len() && !(m[end] == '|' || m[end] == ',')
            invariant
                start <= end <= m.len(),
                next_sep(m@, start as int) == next_sep(m@, end as int),
            decreases m.len() - end,
        {
            end += 1;
        }
        proof {
            lemma_next_sep_bounds(m@, start as int);
        }
        let part = slice_chars(&m, start, end);
        let ghost rest = matcher_parts(m@, start as int);
        let ghost done = matcher_parts(m@, 0).len() - rest.len();
        assert(rest[0] == part@);
        if part_matches_exec(&part, &tool) {
            assert(matcher_parts(m@, 0)[done] == rest[0]);
            return true;
        }
        if end >= m.len() {
            proof {
                assert(rest.len() == 1);
                assert forall|k: int| 0 <= k < matcher_parts(m@, 0).len() implies !part_matches(
                    #[trigger] matcher_parts(m@, 0)[k],
                    tool_name@,
                ) by {
                    if k == done {
                        assert(matcher_parts(m@, 0)[k] == rest[0]);
                    }
                }
            }
            return false;
        }
        proof {
            let next = matcher_parts(m@, end + 1);
            assert(rest =~= seq![part@] + next);
            assert(matcher_parts(m@, 0) =~= matcher_parts(m@, 0).take(done + 1) + next) by {
                assert(matcher_parts(m@, 0).take(done + 1) =~= matcher_parts(m@, 0).take(done).push(
                    part@,
                ));
            }
            assert forall|k: int| 0 <= k < done + 1 implies !part_matches(
                #[trigger] matcher_parts(m@, 0)[k],
                tool_name@,
            ) by {
                if k == done {
                    assert(matcher_parts(m@, 0)[k] == rest[0]);
                }
            }
        }
        start = end + 1;
    }
}

/// Whether a hook with `matcher` runs for a tool event of `tool_name`:
/// always without a matcher, with an empty or `*` matcher, or when the
/// event names no tool; otherwise when the matcher names the tool.
pub fn hook_handler_matches_tool(matcher: Option<&str>, tool_name: Option<&str>) -> (b: bool)
    ensures
        b == match matcher {
            None => true,
            Some(m) => trim(m@).len() == 0 || trim(m@) == "*"@ || tool_name is None
                || matcher_matches(trim(m@), tool_name->0@),
        },
{
    let m = match matcher {
        None => {
            return true;
        },
        Some(m) => m,
    };
    let t = trim_str(m);
    if chars_of(t.as_str()).len() == 0 {
        return true;
    }
    if eq_str(&chars_of(t.as_str()), "*") {
        return true;
    }
    match tool_name {
        None => true,
        Some(name) => tool_name_matches(t.as_str(), name),
    }
}

/// The tool an agent event is about: a tool use or result names one.
pub open spec fn event_tool_name(event: AgentEvent) -> Option<Seq<char>> {
    match event {
        AgentEvent::ToolUse { name, .. } => Some(name@),
        AgentEvent::ToolResult { name, .. } => Some(name@),
        _ => None,
    }
}

/// The name of the tool an agent event is about.
pub fn extract_tool_name(event: &AgentEvent) -> (r: Option<String>)
    ensures
        match event_tool_name(*event) {
            Some(n) => r matches Some(s) && s@ == n,
            None => r is None,
        },
{
    match event {
        AgentEvent::ToolUse { name, .. } => Some(name.clone()),
        AgentEvent::ToolResult { name, .. } => Some(name.clone()),
        _ => None,
    }
}

/// The input of a tool use, as JSON text.
pub fn extract_tool_input(event: &AgentEvent) -> (r: Option<String>)
    ensures
        match *event {
            AgentEvent::ToolUse { input, .. } => r == Some(input),
            _ => r is None,
        },
{
    match event {
        AgentEvent::ToolUse { input, .. } => Some(input.clone()),
        _ => None,
    }
}

/// Whether `text` is a JSON document.
pub uninterp spec fn is_json(text: Seq<char>) -> bool;

/// `serde_json::from_str::<Value>(text).is_ok()`; named `is_json` of the text.
#[verifier::external_body]
pub(crate) fn parses_as_json(text: &str) -> (b: bool)
    ensures
        b == is_json(text@),
{
    serde_json::from_str::<serde_json::Value>(text).is_ok()
}

/// What a tool returned, as hooks receive it: its JSON value when the
/// content is JSON, else the content as a JSON string.
#[derive(Clone, Debug, PartialEq, Eq)]
pub enum ToolResponse {
    /// JSON text, handed on as the value it denotes.
    Json(String),
    /// Plain text, handed on as a JSON string.
    Text(String),
}

/// The response of a tool result event, for post-tool-use hooks.
pub fn extract_tool_response(event: &AgentEvent) -> (r: Option<ToolResponse>)
    ensures
        match *event {
            AgentEvent::ToolResult { content, .. } => if is_json(content@) {
                r == Some(ToolResponse::Json(content))
            } else {
                r == Some(ToolResponse::Text(content))
            },
            _ => r is None,
        },
{
    match event {
        AgentEvent::ToolResult { content, .. } => {
            if parses_as_json(content.as_str()) {
                Some(ToolResponse::Json(content.clone()))
            } else {
                Some(ToolResponse::Text(content.clone()))
            }
        },
        _ => None,
    }
}

/// Whether a hook with `matcher` runs for `event`.
pub fn hook_matches_agent_event(matcher: Option<&str>, event: &AgentEvent) -> (b: bool)
    ensures
        b == match matcher {
            None => true,
            Some(m) => trim(m@).len() == 0 || trim(m@) == "*"@ || event_tool_name(*event) is None
                || matcher_matches(trim(m@), event_tool_name(*event)->0),
        },
{
    let name = extract_tool_name(event);
    match &name {
        Some(n) => hook_handler_matches_tool(matcher, Some(n.as_str())),
        None => hook_handler_matches_tool(matcher, None),
    }
}

/// Whether a hook handler of `hook_type` runs a command.
pub fn is_command_hook(hook_type: &str) -> (b: bool)
    ensures
        b == (hook_type@.len() == 0 || hook_type@ == "command"@),
{
    let v = chars_of(hook_type);
    v.len() == 0 || eq_str(&v, "command")
}

// ---------------------------------------------------------------------------
// Hook block messages
// ---------------------------------------------------------------------------

/// The string value of `key` in the JSON object that `text` is, if `text`
/// parses as JSON and holds a string there.
pub uninterp spec fn json_str_field(text: Seq<char>, key: Seq<char>) -> Option<Seq<char>>;

/// `serde_json::from_str::<Value>` of `text`, then `get(key)` and
/// `as_str`. Its result is named `json_str_field` of the two arguments.
#[verifier::external_body]
pub(crate) fn json_string_field(text: &str, key: &str) -> (r: Option<String>)
    ensures
        match json_str_field(text@, key@) {
            Some(v) => r matches Some(s) && s@ == v,
            None => r is None,
        },
{
    serde_json::from_str::<serde_json::Value>(text).ok().and_then(
        |v| v.get(key).and_then(|x| x.as_str()).map(|s| s.to_owned()),
    )
}

/// A JSON field that holds a non-blank string.
pub open spec fn usable_field(stdout: Seq<char>, key: Seq<char>) -> bool {
    json_str_field(stdout, key) matches Some(m) && !is_blank(m)
}

/// Why a plugin hook blocked: the first non-blank of the hook's JSON
/// `stopReason`, `reason` and `systemMessage`, then its stderr, then its
/// stdout (all trimmed), then a fixed text.
pub open spec fn block_message(stdout: Seq<char>, stderr: Seq<char>) -> Seq<char> {
    if usable_field(stdout, "stopReason"@) {
        trim(json_str_field(stdout, "stopReason"@)->0)
    } else if usable_field(stdout, "reason"@) {
        trim(json_str_field(stdout, "reason"@)->0)
    } else if usable_field(stdout, "systemMessage"@) {
        trim(json_str_field(stdout, "systemMessage"@)->0)
    } else if !is_blank(stderr) {
        trim(stderr)
    } else if !is_blank(stdout) {
        trim(stdout)
    } else {
        "blocked by plugin hook"@
    }
}

pub fn plugin_hook_block_message(stdout: &str, stderr: &str) -> (r: String)
    ensures
        r@ == block_message(stdout@, stderr@),
{
    if let Some(m) = json_string_field(stdout, "stopReason") {
        if !is_blank_str(m.as_str()) {
            return trim_str(m.as_str());
        }
    }
    if let Some(m) = json_string_field(stdout, "reason") {
        if !is_blank_str(m.as_str()) {
            return trim_str(m.as_str());
        }
    }
    if let Some(m) = json_string_field(stdout, "systemMessage") {
        if !is_blank_str(m.as_str()) {
            return trim_str(m.as_str());
        }
    }
    if !is_blank_str(stderr) {
        return trim_str(stderr);
    }
    if !is_blank_str(stdout) {
        return trim_str(stdout);
    }
    "blocked by plugin hook".to_owned()
}

// ---------------------------------------------------------------------------
// Discovery and MCP defaults
// ---------------------------------------------------------------------------

/// Where a discovered plugin comes from.
#[derive(Clone, Debug, PartialEq, Eq)]
pub enum PluginSource {
    User(String),
    Project(String),
    Cli(String),
}

/// A directory to discover plugins in, and what finding one there means.
impl PluginSource {
    /// Where the plugin was found: `user`, `project` or `cli`.
    pub fn label(&self) -> (r: &'static str)
        ensures
            r@ == match *self {
                PluginSource::User(_) => "user"@,
                PluginSource::Project(_) => "project"@,
                PluginSource::Cli(_) => "cli"@,
            },
    {
        match self {
            PluginSource::User(_) => "user",
            PluginSource::Project(_) => "project",
            PluginSource::Cli(_) => "cli",
        }
    }
}

#[derive(Clone, Debug, PartialEq, Eq)]
pub struct PluginDiscoverySource {
    pub plugins_dir: String,
    pub source: PluginSource,
}

/// `s` discovers plugins in `dir`, as a source of the given kind (0 user,
/// 1 project, 2 command line).
pub open spec fn discovers(s: PluginDiscoverySource, dir: Seq<char>, kind: int) -> bool {
    s.plugins_dir@ == dir && match s.source {
        PluginSource::User(p) => kind == 0 && p@ == dir,
        PluginSource::Project(p) => kind == 1 && p@ == dir,
        PluginSource::Cli(p) => kind == 2 && p@ == dir,
    }
}

/// The directories plugins are discovered in, lowest precedence first: the
/// user's (`<home>/plugins`, when there is a home), the project's
/// (`<workspace>/.rara/plugins`), then those given on the command line.
pub fn plugin_discovery_sources(rara_home: Option<&str>, workspace_root: &str, explicit_plugin_dirs: &Vec<
    String,
>) -> (r: Vec<PluginDiscoverySource>)
    ensures
        ({
            let project = join_path(join_path(workspace_root@, ".rara"@), "plugins"@);
            let b = if rara_home is Some { 1int } else { 0int };
            &&& r@.len() == b + 1 + explicit_plugin_dirs@.len()
            &&& (rara_home is Some ==> discovers(r@[0], join_path(rara_home->0@, "plugins"@), 0))
            &&& discovers(r@[b], project, 1)
            &&& forall|i: int|
                0 <= i < explicit_plugin_dirs@.len() ==> discovers(
                    r@[b + 1 + i],
                    (#[trigger] explicit_plugin_dirs@[i])@,
                    2,
                )
        }),
{
    let mut sources: Vec<PluginDiscoverySource> = Vec::new();
    if let Some(home) = rara_home {
        let dir = string_from_chars(&crate::path::join_path_str(&chars_of(home), "plugins"));
        sources.push(PluginDiscoverySource { plugins_dir: dir.clone(), source: PluginSource::User(dir) });
    }
    let rara = crate::path::join_path_str(&chars_of(workspace_root), ".rara");
    let project = string_from_chars(&crate::path::join_path_str(&rara, "plugins"));
    sources.push(
        PluginDiscoverySource { plugins_dir: project.clone(), source: PluginSource::Project(project) },
    );
    let ghost base = sources@.len();
    let mut i: usize = 0;
    while i < explicit_plugin_dirs.len()
        invariant
            i <= explicit_plugin_dirs.len(),
            sources@.len() == base + i,
            base == (if rara_home is Some { 1int } else { 0int }) + 1,
            rara_home is Some ==> discovers(sources@[0], join_path(rara_home->0@, "plugins"@), 0),
            discovers(sources@[base - 1], join_path(join_path(workspace_root@, ".rara"@), "plugins"@), 1),
            forall|k: int|
                0 <= k < i ==> discovers(#[trigger] sources@[base + k], explicit_plugin_dirs@[k]@, 2),
        decreases explicit_plugin_dirs.len() - i,
    {
        let dir = explicit_plugin_dirs[i].clone();
        sources.push(PluginDiscoverySource { plugins_dir: dir.clone(), source: PluginSource::Cli(dir) });
        i += 1;
    }
    sources
}

/// The working directory a plugin's stdio MCP server runs in: its own cwd
/// when absolute, else resolved against the plugin root; the plugin root
/// when it has none.
pub open spec fn plugin_server_cwd(cwd: Option<String>, plugin_root: Seq<char>) -> Seq<char> {
    match cwd {
        Some(p) => if is_absolute(p@) {
            p@
        } else {
            join_path(plugin_root, p@)
        },
        None => plugin_root,
    }
}

/// Gives every stdio server of a plugin's MCP configuration its working
/// directory (see `plugin_server_cwd`); HTTP servers are left as they are.
pub fn apply_plugin_mcp_defaults(servers: &mut Vec<(String, crate::config::McpServerConfig)>, plugin_root: &str)
    ensures
        final(servers)@.len() == old(servers)@.len(),
        forall|i: int|
            0 <= i < old(servers)@.len() ==> {
                let (n0, c0) = old(servers)@[i];
                let (n1, c1) = #[trigger] final(servers)@[i];
                &&& n1 == n0
                &&& c1.enabled == c0.enabled
                &&& c1.required == c0.required
                &&& c1.enabled_tools == c0.enabled_tools
                &&& c1.disabled_tools == c0.disabled_tools
                &&& match c0.transport {
                    McpServerTransport::Stdio { command, args, env, cwd } => c1.transport matches McpServerTransport::Stdio {
                        command: c2,
                        args: a2,
                        env: e2,
                        cwd: Some(w),
                    } && c2 == command && a2 == args && e2 == env && w@ == plugin_server_cwd(cwd, plugin_root@),
                    _ => c1.transport == c0.transport,
                }
            },
{
    let root = chars_of(plugin_root);
    let n = servers.len();
    let mut i: usize = 0;
    while i < n
        invariant
            n == servers@.len(),
            n == old(servers)@.len(),
            i <= n,
            root@ == plugin_root@,
            forall|k: int| i <= k < n ==> #[trigger] servers@[k] == old(servers)@[k],
            forall|k: int|
                0 <= k < i ==> {
                    let (n0, c0) = old(servers)@[k];
                    let (n1, c1) = #[trigger] servers@[k];
                    &&& n1 == n0
                    &&& c1.enabled == c0.enabled
                    &&& c1.required == c0.required
                    &&& c1.enabled_tools == c0.enabled_tools
                    &&& c1.disabled_tools == c0.disabled_tools
                    &&& match c0.transport {
                        McpServerTransport::Stdio { command, args, env, cwd } => c1.transport matches McpServerTransport::Stdio {
                            command: c2,
                            args: a2,
                            env: e2,
                            cwd: Some(w),
                        } && c2 == command && a2 == args && e2 == env && w@ == plugin_server_cwd(cwd, plugin_root@),
                        _ => c1.transport == c0.transport,
                    }
                },
        decreases n - i,
    {
        let (name, mut config) = servers.remove(i);
        let new_transport = match config.transport {
            McpServerTransport::Stdio { command, args, env, cwd } => {
                let resolved = match &cwd {
                    Some(p) => {
                        let pv = chars_of(p.as_str());
                        if crate::path::is_absolute_exec(&pv) {
                            p.clone()
                        } else {
                            string_from_chars(&crate::path::join_path_exec(&root, &pv))
                        }
                    },
                    None => plugin_root.to_owned(),
                };
                McpServerTransport::Stdio { command, args, env, cwd: Some(resolved) }
            },
            other => other,
        };
        config.transport = new_transport;
        servers.insert(i, (name, config));
        i += 1;
    }
}

/// The static request headers of the built-in Nowledge Mem server:
/// `APP: RARA`, then the configured headers (a configured header of the
/// same name wins), by name.
pub fn nowledge_mem_http_headers(configured: &Vec<(String, String)>) -> (r: Vec<(String, String)>)
    ensures
        crate::mcp_tool_cache::holds_last_assignments(
            r@,
            seq![("APP"@, "RARA"@)] + crate::mcp_tool_cache::pair_views(configured@),
        ),
{
    let mut headers: crate::keyed::StringMap<String> = crate::keyed::StringMap::new();
    let app = "APP".to_owned();
    let rara = "RARA".to_owned();
    proof {
        reveal_strlit("APP");
        reveal_strlit("RARA");
        assert(seq![(app@, rara@)] =~= Seq::<(Seq<char>, Seq<char>)>::empty().push((app@, rara@)));
        assert(crate::mcp_tool_cache::holds_last_assignments(headers.entries(), Seq::empty())) by {
            assert forall|k: Seq<char>| #[trigger] crate::keyed::has_key(headers.entries(), k) <==> crate::mcp_tool_cache::last_assigned(Seq::empty(), k) is Some by {}
        }
    }
    crate::mcp_tool_cache::assign_header(&mut headers, app, rara, Ghost(Seq::empty()));
    let ghost a0 = seq![("APP"@, "RARA"@)];
    let mut i: usize = 0;
    while i < configured.len()
        invariant
            i <= configured.len(),
            headers.wf(),
            crate::mcp_tool_cache::holds_last_assignments(
                headers.entries(),
                a0 + crate::mcp_tool_cache::pair_views(configured@.take(i as int)),
            ),
        decreases configured.len() - i,
    {
        let ghost a = a0 + crate::mcp_tool_cache::pair_views(configured@.take(i as int));
        crate::mcp_tool_cache::assign_header(
            &mut headers,
            configured[i].0.clone(),
            configured[i].1.clone(),
            Ghost(a),
        );
        assert(a0 + crate::mcp_tool_cache::pair_views(configured@.take(i + 1)) =~= a.push(
            (configured@[i as int].0@, configured@[i as int].1@),
        ));
        i += 1;
    }
    assert(configured@.take(configured.len() as int) =~= configured@);
    headers.into_entries()
}

pub open spec fn nowledge_mem_guidance() -> Seq<char> {
    "## Nowledge Mem Context\n\nWhen Nowledge Mem is available, load the Context Bundle at session start when\nidentity, workspace scope, rules, or prior decisions may affect the task. Use\nWorking Memory for the current briefing and search exact memories or threads\nwhen needed. After context compaction, refresh the Context Bundle or Working\nMemory before continuing so important constraints are not lost. Memory is a\ncontext aid: continue with a runtime warning if the service is unavailable."@
}

/// The system-prompt guidance of the built-in Nowledge Mem plugin, when it
/// is enabled.
pub fn nowledge_mem_prompt_instructions(enabled: bool) -> (r: Option<&'static str>)
    ensures
        enabled ==> (r matches Some(t) && t@ == nowledge_mem_guidance()),
        !enabled ==> r is None,
{
    if enabled {
        Some(
            "## Nowledge Mem Context\n\nWhen Nowledge Mem is available, load the Context Bundle at session start when\nidentity, workspace scope, rules, or prior decisions may affect the task. Use\nWorking Memory for the current briefing and search exact memories or threads\nwhen needed. After context compaction, refresh the Context Bundle or Working\nMemory before continuing so important constraints are not lost. Memory is a\ncontext aid: continue with a runtime warning if the service is unavailable.",
        )
    } else {
        None
    }
}

} // verus!

//! Plugin hooks and commands as the runtime dispatches them: which
//! registered hooks run for an event, what a failing pre-tool-use hook
//! answers, when a hook's output is worth publishing, and the names under
//! which plugin commands are offered. Running hook commands is the host's
//! work.
use vstd::prelude::*;

use crate::path::{components, components_exec, ComponentView, PathComponent};
use crate::plugin_middleware::{block_message, hook_handler_matches_tool, is_command_hook, matcher_matches, plugin_hook_block_message};
use crate::runtime_control::AgentEvent;
use crate::text::{chars_of, ends_with, is_blank, is_blank_str, join, slice_chars, string_from_chars, trim, views};

verus! {

/// The lifecycle points at which plugin hooks run.
#[derive(Clone, Copy, Debug, PartialEq, Eq, Structural)]
pub enum PluginHookEvent {
    PreToolUse,
    PostToolUse,
    Stop,
    UserPromptSubmit,
    SessionStart,
    SessionEnd,
}

/// The lifecycle points as the control plane names them.
#[derive(Clone, Copy, Debug, PartialEq, Eq, Structural)]
pub enum HookLifecycle {
    PreToolUse,
    PostToolUse,
    Stop,
    UserPromptSubmit,
    SessionStart,
    SessionEnd,
}

/// The hook point an agent event reaches: a stop, a tool use (before the
/// tool) or a tool result (after it).
pub fn agent_event_to_hook_event(event: &AgentEvent) -> (r: Option<PluginHookEvent>)
    ensures
        r == match *event {
            AgentEvent::AgentStop { .. } => Some(PluginHookEvent::Stop),
            AgentEvent::ToolUse { .. } => Some(PluginHookEvent::PreToolUse),
            AgentEvent::ToolResult { .. } => Some(PluginHookEvent::PostToolUse),
            _ => None::<PluginHookEvent>,
        },
{
    match event {
        AgentEvent::AgentStop { .. } => Some(PluginHookEvent::Stop),
        AgentEvent::ToolUse { .. } => Some(PluginHookEvent::PreToolUse),
        AgentEvent::ToolResult { .. } => Some(PluginHookEvent::PostToolUse),
        _ => None,
    }
}

pub open spec fn lifecycle_of(e: PluginHookEvent) -> HookLifecycle {
    match e {
        PluginHookEvent::Stop => HookLifecycle::Stop,
        PluginHookEvent::PreToolUse => HookLifecycle::PreToolUse,
        PluginHookEvent::PostToolUse => HookLifecycle::PostToolUse,
        PluginHookEvent::UserPromptSubmit => HookLifecycle::UserPromptSubmit,
        PluginHookEvent::SessionStart => HookLifecycle::SessionStart,
        PluginHookEvent::SessionEnd => HookLifecycle::SessionEnd,
    }
}

/// The control-plane lifecycle point of a hook point.
pub fn hook_event_to_lifecycle(event: PluginHookEvent) -> (r: HookLifecycle)
    ensures
        r == lifecycle_of(event),
{
    match event {
        PluginHookEvent::Stop => HookLifecycle::Stop,
        PluginHookEvent::PreToolUse => HookLifecycle::PreToolUse,
        PluginHookEvent::PostToolUse => HookLifecycle::PostToolUse,
        PluginHookEvent::UserPromptSubmit => HookLifecycle::UserPromptSubmit,
        PluginHookEvent::SessionStart => HookLifecycle::SessionStart,
        PluginHookEvent::SessionEnd => HookLifecycle::SessionEnd,
    }
}

/// A hook a plugin registered: the point it runs at, its handler's type
/// and matcher, and the plugin it belongs to.
#[derive(Clone, Debug, PartialEq, Eq)]
pub struct RegisteredHook {
    pub event: PluginHookEvent,
    pub handler_type: String,
    pub matcher: Option<String>,
    pub plugin_name: String,
    pub plugin_root: String,
}

pub open spec fn matcher_view(m: Option<String>) -> Option<Seq<char>> {
    match m {
        Some(s) => Some(s@),
        None => None,
    }
}

/// Whether a hook runs for `event` on a tool named `tool_name` (if any): a
/// command hook at that point whose matcher admits the tool.
pub open spec fn runs_for(h: RegisteredHook, event: PluginHookEvent, tool_name: Option<Seq<char>>) -> bool {
    &&& h.event == event
    &&& (h.handler_type@.len() == 0 || h.handler_type@ == "command"@)
    &&& match matcher_view(h.matcher) {
        None => true,
        Some(m) => trim(m).len() == 0 || trim(m) == "*"@ || tool_name is None || matcher_matches(
            trim(m),
            tool_name->0,
        ),
    }
}

/// The indices, in order, of the hooks that run for `event` on `tool_name`.
pub open spec fn matching_indices(hooks: Seq<RegisteredHook>, event: PluginHookEvent, tool_name: Option<Seq<char>>) -> Seq<
    int,
>
    decreases hooks.len(),
{
    if hooks.len() == 0 {
        Seq::empty()
    } else if runs_for(hooks.last(), event, tool_name) {
        matching_indices(hooks.drop_last(), event, tool_name).push(hooks.len() - 1)
    } else {
        matching_indices(hooks.drop_last(), event, tool_name)
    }
}

/// The hooks that run for `event` on `tool_name`, by index, in order.
pub fn matching_hooks(hooks: &Vec<RegisteredHook>, event: PluginHookEvent, tool_name: Option<&str>) -> (r: Vec<usize>)
    ensures
        r@.len() == matching_indices(
            hooks@,
            event,
            match tool_name {
                Some(t) => Some(t@),
                None => None,
            },
        ).len(),
        forall|k: int|
            0 <= k < r@.len() ==> #[trigger] r@[k] as int == matching_indices(
                hooks@,
                event,
                match tool_name {
                    Some(t) => Some(t@),
                    None => None,
                },
            )[k],
{
    let ghost tn = match tool_name {
        Some(t) => Some(t@),
        None => None::<Seq<char>>,
    };
    let mut out: Vec<usize> = Vec::new();
    let mut i: usize = 0;
    while i < hooks.len()
        invariant
            i <= hooks.len(),
            tn == match tool_name {
                Some(t) => Some(t@),
                None => None,
            },
            out@.len() == matching_indices(hooks@.take(i as int), event, tn).len(),
            forall|k: int|
                0 <= k < out@.len() ==> #[trigger] out@[k] as int == matching_indices(hooks@.take(i as int), event, tn)[k],
        decreases hooks.len() - i,
    {
        assert(hooks@.take(i + 1).drop_last() =~= hooks@.take(i as int));
        let h = &hooks[i];
        let runs = h.event == event && is_command_hook(h.handler_type.as_str()) && match &h.matcher {
            Some(m) => hook_handler_matches_tool(Some(m.as_str()), tool_name),
            None => hook_handler_matches_tool(None, tool_name),
        };
        proof {
            reveal_strlit("command");
        }
        assert(runs == runs_for(hooks@[i as int], event, tn));
        if runs {
            out.push(i);
        }
        i += 1;
    }
    assert(hooks@.take(hooks.len() as int) =~= hooks@);
    out
}

/// A tool use that a plugin hook refused.
#[derive(Clone, Debug, PartialEq, Eq)]
pub struct PluginHookBlock {
    pub plugin_name: String,
    pub message: String,
}

/// What a pre-tool-use hook's run means: a failed run blocks the tool,
/// with the hook's plugin and its block message.
pub fn pre_tool_use_block(plugin_name: &str, ok: bool, stdout: &str, stderr: &str) -> (r: Option<PluginHookBlock>)
    ensures
        ok ==> r is None,
        !ok ==> (r matches Some(b) && b.plugin_name@ == plugin_name@ && b.message@ == block_message(stdout@, stderr@)),
{
    if ok {
        None
    } else {
        Some(PluginHookBlock { plugin_name: plugin_name.to_owned(), message: plugin_hook_block_message(stdout, stderr) })
    }
}

/// Whether a hook's run is published: unless it succeeded with blank
/// output on both streams.
pub fn hook_output_worth_publishing(stdout: &str, stderr: &str, ok: bool) -> (b: bool)
    ensures
        b == !(is_blank(stdout@) && is_blank(stderr@) && ok),
{
    !(is_blank_str(stdout) && is_blank_str(stderr) && ok)
}

/// The name part of a command file: without its `.md` suffix.
pub open spec fn command_part(raw: Seq<char>) -> Seq<char> {
    if ends_with(raw, ".md"@) {
        raw.subrange(0, raw.len() - 3)
    } else {
        raw
    }
}

/// The parts of a command's local name, from the components of its file
/// below the commands directory: each must be a normal component with a
/// name left after dropping `.md`.
pub open spec fn command_parts(rest: Seq<ComponentView>) -> Option<Seq<Seq<char>>>
    decreases rest.len(),
{
    if rest.len() == 0 {
        Some(Seq::empty())
    } else {
        match command_parts(rest.drop_last()) {
            Some(ps) => match rest.last() {
                ComponentView::Normal(raw) => if command_part(raw).len() > 0 {
                    Some(ps.push(command_part(raw)))
                } else {
                    None
                },
                _ => None,
            },
            None => None,
        }
    }
}

/// The local name of a plugin command file: its path below the commands
/// directory, parts joined by `/`, each without `.md`. None when the file
/// is not below the directory, or a part is empty or not a plain name.
pub open spec fn local_command_name(commands_dir: Seq<char>, path: Seq<char>) -> Option<Seq<char>> {
    let d = components(commands_dir);
    let p = components(path);
    if d.len() <= p.len() && p.subrange(0, d.len() as int) == d {
        match command_parts(p.skip(d.len() as int)) {
            Some(ps) => if ps.len() > 0 {
                Some(join(ps, "/"@))
            } else {
                None
            },
            None => None,
        }
    } else {
        None
    }
}

proof fn lemma_command_parts_none(rest: Seq<ComponentView>, m: int, n: int)
    requires
        0 <= m <= n <= rest.len(),
        command_parts(rest.take(m)) is None,
    ensures
        command_parts(rest.take(n)) is None,
    decreases n - m,
{
    if n > m {
        lemma_command_parts_none(rest, m, n - 1);
        assert(rest.take(n).drop_last() =~= rest.take(n - 1));
    }
}

fn same_component(a: &PathComponent, b: &PathComponent) -> (r: bool)
    ensures
        r == (a@ == b@),
{
    match (a, b) {
        (PathComponent::RootDir, PathComponent::RootDir) => true,
        (PathComponent::CurDir, PathComponent::CurDir) => true,
        (PathComponent::ParentDir, PathComponent::ParentDir) => true,
        (PathComponent::Normal(x), PathComponent::Normal(y)) => crate::text::eq_chars(x, y),
        _ => false,
    }
}

/// The local name of a plugin command file below `commands_dir`.
pub fn local_plugin_command_name(commands_dir: &str, path: &str) -> (r: Option<String>)
    ensures
        match local_command_name(commands_dir@, path@) {
            Some(n) => r matches Some(s) && s@ == n,
            None => r is None,
        },
{
    let d = components_exec(&chars_of(commands_dir));
    let p = components_exec(&chars_of(path));
    let ghost dv = crate::path::component_views(d@);
    let ghost pv = crate::path::component_views(p@);
    if d.len() > p.len() {
        return None;
    }
    let mut i: usize = 0;
    while i < d.len()
        invariant
            i <= d.len() <= p.len(),
            dv == components(commands_dir@),
            pv == components(path@),
            dv == crate::path::component_views(d@),
            pv == crate::path::component_views(p@),
            forall|k: int| 0 <= k < i ==> #[trigger] dv[k] == pv[k],
        decreases d.len() - i,
    {
        if !same_component(&d[i], &p[i]) {
            assert(pv.subrange(0, dv.len() as int)[i as int] != dv[i as int]);
            return None;
        }
        i += 1;
    }
    assert(pv.subrange(0, dv.len() as int) =~= dv);
    let ghost rest = pv.skip(dv.len() as int);
    let mut parts: Vec<Vec<char>> = Vec::new();
    let mut j: usize = d.len();
    while j < p.len()
        invariant
            d.len() <= j <= p.len(),
            dv == components(commands_dir@),
            pv == components(path@),
            pv.subrange(0, dv.len() as int) == dv,
            dv.len() == d.len(),
            pv == crate::path::component_views(p@),
            rest == pv.skip(dv.len() as int),
            command_parts(rest.take(j - d.len())) == Some(views(parts@)),
        decreases p.len() - j,
    {
        let ghost t = rest.take(j - d.len() + 1);
        assert(t.drop_last() =~= rest.take(j - d.len()));
        assert(t.last() == pv[j as int]);
        match &p[j] {
            PathComponent::Normal(raw) => {
                let mut md: Vec<char> = Vec::new();
                md.push('.');
                md.push('m');
                md.push('d');
                assert(md@ =~= ".md"@) by {
                    reveal_strlit(".md");
                }
                let part = if crate::text::ends_with_chars(raw, &md) {
                    slice_chars(raw, 0, raw.len() - 3)
                } else {
                    slice_chars(raw, 0, raw.len())
                };
                assert(part@ =~= command_part(raw@));
                if part.len() == 0 {
                    proof {
                        lemma_command_parts_none(rest, j - d.len() + 1, rest.len() as int);
                        assert(rest.take(rest.len() as int) =~= rest);
                    }
                    return None;
                }
                let ghost before = parts@;
                parts.push(part);
                assert(views(parts@) =~= views(before).push(command_part(raw@)));
            },
            _ => {
                proof {
                    lemma_command_parts_none(rest, j - d.len() + 1, rest.len() as int);
                    assert(rest.take(rest.len() as int) =~= rest);
                }
                return None;
            },
        }
        j += 1;
    }
    assert(rest.take(p.len() - d.len()) =~= rest);
    if parts.len() == 0 {
        return None;
    }
    let mut sep: Vec<char> = Vec::new();
    sep.push('/');
    assert(sep@ =~= "/"@) by {
        reveal_strlit("/");
    }
    Some(string_from_chars(&crate::text::join_exec(&parts, &sep)))
}

/// A plugin command as offered to the user.
#[derive(Clone, Debug, PartialEq, Eq)]
pub struct PluginCommandSummary {
    pub name: String,
    pub title: Option<String>,
    pub description: String,
    pub path: String,
}

/// The summary of a plugin's command: named by plugin and local name,
/// titled by the local name, described from its Markdown.
pub fn plugin_command_summary(plugin_name: &str, local_name: String, content: &str, path: String) -> (r:
    PluginCommandSummary)
    ensures
        r.name@ == plugin_name@ + ":"@ + local_name@,
        r.title == Some(local_name),
        r.description@ == match crate::plugin_middleware::frontmatter_field(content@, "description"@) {
            Some(d) => d,
            None => crate::plugin_middleware::skill_description(content@),
        },
        r.path == path,
{
    let mut name: Vec<char> = Vec::new();
    crate::text::push_str(&mut name, plugin_name);
    crate::text::push_str(&mut name, ":");
    crate::text::push_str(&mut name, local_name.as_str());
    PluginCommandSummary {
        name: string_from_chars(&name),
        title: Some(local_name),
        description: crate::plugin_middleware::extract_plugin_command_description(content),
        path,
    }
}

} // verus!

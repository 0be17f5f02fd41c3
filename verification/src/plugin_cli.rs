//! The rules of plugin installation from the command line.
use vstd::prelude::*;

use crate::path::join_path;
use crate::text::{chars_of, contains, decimal, push_decimal, push_str, starts_with, starts_with_str, string_from_chars, trim, trim_str};

verus! {

/// Whether an install source is a Git remote rather than a local
/// directory.
pub open spec fn git_source(s: Seq<char>) -> bool {
    starts_with(s, "http://"@) || starts_with(s, "https://"@) || starts_with(s, "ssh://"@)
        || starts_with(s, "git://"@) || starts_with(s, "file://"@) || starts_with(s, "git@"@)
}

pub fn is_git_source(source: &str) -> (b: bool)
    ensures
        b == git_source(source@),
{
    let s = chars_of(source);
    starts_with_str(&s, "http://") || starts_with_str(&s, "https://") || starts_with_str(&s, "ssh://")
        || starts_with_str(&s, "git://") || starts_with_str(&s, "file://") || starts_with_str(&s, "git@")
}

/// The directory a workspace's plugins are installed in.
pub fn workspace_plugins_dir_for(workspace_root: &str) -> (r: String)
    ensures
        r@ == join_path(join_path(workspace_root@, ".rara"@), "plugins"@),
{
    let rara = crate::path::join_path_str(&chars_of(workspace_root), ".rara");
    string_from_chars(&crate::path::join_path_str(&rara, "plugins"))
}

/// `format!("{:?}", s)`: the string quoted and escaped as Rust's `Debug`
/// writes it.
pub uninterp spec fn debug_quoted(s: Seq<char>) -> Seq<char>;

/// `<str as Debug>::fmt`, through `format!("{:?}")`. Its result is named
/// `debug_quoted` of the input.
#[verifier::external_body]
pub(crate) fn debug_str(s: &str) -> (r: String)
    ensures
        r@ == debug_quoted(s@),
{
    format!("{:?}", s)
}

/// Whether a trimmed plugin name is one that cannot escape the plugins
/// directory.
pub open spec fn name_is_safe(name: Seq<char>) -> bool {
    name.len() > 0 && name != "."@ && name != ".."@ && !contains(name, "/"@) && !contains(name, "\\"@)
}

/// The plugin name, trimmed, when it is safe to use as a directory name;
/// otherwise the error text naming it.
pub fn safe_plugin_name(name: &str) -> (r: Result<String, String>)
    ensures
        name_is_safe(trim(name@)) ==> (r matches Ok(n) && n@ == trim(name@)),
        !name_is_safe(trim(name@)) ==> (r matches Err(m) && m@ == "invalid plugin name: "@
            + debug_quoted(trim(name@))),
{
    let t = trim_str(name);
    let v = chars_of(t.as_str());
    let dot = chars_of(".");
    let dotdot = chars_of("..");
    let slash = chars_of("/");
    let backslash = chars_of("\\");
    if v.len() == 0 || crate::text::eq_chars(&v, &dot) || crate::text::eq_chars(&v, &dotdot)
        || crate::text::contains_chars(&v, &slash) || crate::text::contains_chars(&v, &backslash) {
        let mut out: Vec<char> = Vec::new();
        push_str(&mut out, "invalid plugin name: ");
        let q = debug_str(t.as_str());
        push_str(&mut out, q.as_str());
        return Err(string_from_chars(&out));
    }
    Ok(t)
}

/// What installing into an existing plugin directory does.
#[derive(Clone, Copy, Debug, PartialEq, Eq, Structural)]
pub enum InstallStep {
    /// Nothing is installed under the name: the source is copied in.
    Copy,
    /// Another copy is installed and `--force` was given: it is removed,
    /// then the source is copied in.
    ReplaceThenCopy,
}

/// Whether an install may go ahead, given whether the target directory
/// exists and whether it is the source itself: installing a plugin over
/// itself is refused, and replacing another copy needs `--force`.
pub fn install_step(name: &str, target: &str, target_exists: bool, target_is_source: bool, force: bool) -> (r: Result<
    InstallStep,
    String,
>)
    ensures
        !target_exists ==> r == Ok::<InstallStep, String>(InstallStep::Copy),
        target_exists && target_is_source ==> (r matches Err(m) && m@ == "plugin "@ + name@
            + " is already installed at "@ + target@),
        target_exists && !target_is_source && !force ==> (r matches Err(m) && m@ == "plugin "@ + name@
            + " is already installed; pass --force to replace it"@),
        target_exists && !target_is_source && force ==> r == Ok::<InstallStep, String>(InstallStep::ReplaceThenCopy),
{
    if !target_exists {
        return Ok(InstallStep::Copy);
    }
    let mut out: Vec<char> = Vec::new();
    push_str(&mut out, "plugin ");
    push_str(&mut out, name);
    if target_is_source {
        push_str(&mut out, " is already installed at ");
        push_str(&mut out, target);
        return Err(string_from_chars(&out));
    }
    if !force {
        push_str(&mut out, " is already installed; pass --force to replace it");
        return Err(string_from_chars(&out));
    }
    Ok(InstallStep::ReplaceThenCopy)
}

/// Whether a removal may go ahead: only an installed plugin is removed.
pub fn remove_step(name: &str, target_exists: bool) -> (r: Result<(), String>)
    ensures
        target_exists ==> r is Ok,
        !target_exists ==> (r matches Err(m) && m@ == "plugin "@ + name@ + " is not installed"@),
{
    if target_exists {
        Ok(())
    } else {
        let mut out: Vec<char> = Vec::new();
        push_str(&mut out, "plugin ");
        push_str(&mut out, name);
        push_str(&mut out, " is not installed");
        Err(string_from_chars(&out))
    }
}

/// The error of a failed `git clone` of a plugin source, with the
/// command's error output trimmed.
pub fn clone_failure_message(source: &str, stderr: &str) -> (r: String)
    ensures
        r@ == "failed to clone plugin source "@ + source@ + ": "@ + trim(stderr@),
{
    let mut out: Vec<char> = Vec::new();
    push_str(&mut out, "failed to clone plugin source ");
    push_str(&mut out, source);
    push_str(&mut out, ": ");
    let t = trim_str(stderr);
    push_str(&mut out, t.as_str());
    string_from_chars(&out)
}

/// One line of `plugin list`: name, version (`unknown` when absent), the
/// number of registered hooks, and the description when there is one.
pub open spec fn plugin_list_line_spec(name: Seq<char>, version: Option<Seq<char>>, hooks: nat, description: Seq<
    char,
>) -> Seq<char> {
    let v = match version {
        Some(v) => v,
        None => "unknown"@,
    };
    let head = name + " "@ + v + " hooks="@ + decimal(hooks);
    if description.len() == 0 {
        head
    } else {
        head + " - "@ + description
    }
}

pub fn plugin_list_line(name: &str, version: Option<&str>, hooks: u64, description: &str) -> (r: String)
    ensures
        r@ == plugin_list_line_spec(name@, match version {
            Some(v) => Some(v@),
            None => None,
        }, hooks as nat, description@),
{
    let mut out: Vec<char> = Vec::new();
    push_str(&mut out, name);
    push_str(&mut out, " ");
    match version {
        Some(v) => push_str(&mut out, v),
        None => push_str(&mut out, "unknown"),
    }
    push_str(&mut out, " hooks=");
    push_decimal(&mut out, hooks);
    let d = chars_of(description);
    let ghost head = out@;
    if d.len() != 0 {
        push_str(&mut out, " - ");
        push_str(&mut out, description);
    }
    proof {
        reveal_strlit("unknown");
        let v = match version {
            Some(v) => v@,
            None => "unknown"@,
        };
        assert(head =~= name@ + " "@ + v + " hooks="@ + decimal(hooks as nat));
        if d.len() != 0 {
            assert(out@ =~= head + " - "@ + description@);
        }
    }
    string_from_chars(&out)
}

} // verus!

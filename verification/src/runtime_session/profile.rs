//! Stable runtime compositions for a session.
use vstd::prelude::*;

use crate::text::{eq_str, chars_of, push_str, string_from_chars};

verus! {

/// The model-visible tool surface of the headless coding profile, in order.
pub open spec fn headless_tool_names() -> Seq<Seq<char>> {
    seq![
        "bash"@,
        "background_task_list"@,
        "background_task_status"@,
        "background_task_stop"@,
        "pty_start"@,
        "pty_read"@,
        "pty_list"@,
        "pty_status"@,
        "pty_write"@,
        "pty_kill"@,
        "pty_stop"@,
        "read_file"@,
        "write_file"@,
        "apply_patch"@,
        "replace"@,
        "replace_lines"@,
        "glob"@,
        "grep"@,
        "todo_write"@,
    ]
}

/// The system prompt of the headless coding profile.
pub open spec fn headless_system_prompt() -> Seq<char> {
    "Complete the task by acting with the available tools, not by narrating.\nInspect the workspace before editing. Prefer read_file, glob, and grep for inspection, apply_patch and write_file for file changes, and bash for ordinary commands and tests.\nUse bash with run_in_background for long-running non-interactive processes and inspect them with the background task tools. Use the PTY tools only when terminal input or terminal control is required.\nVerify the result when practical. Stop when the task is complete."@
}

/// Selects a stable runtime composition for one session.
///
/// Versioned profiles freeze the model-visible prompt and tool surface. Hosts
/// selecting a profile must treat it as an upper bound: tools outside that
/// profile are removed even when the host supplies a custom tool manager.
#[derive(Clone, Copy, Debug, Default, PartialEq, Eq, Structural)]
pub enum RuntimeSessionProfile {
    /// The configured application runtime without additional projection.
    #[default]
    Default,
    /// The reproducible non-interactive coding surface used by harnesses.
    HeadlessCodingV1,
}

pub open spec fn profile_name(p: RuntimeSessionProfile) -> Seq<char> {
    match p {
        RuntimeSessionProfile::Default => "default"@,
        RuntimeSessionProfile::HeadlessCodingV1 => "headless-coding-v1"@,
    }
}

/// The error text for a name that is no profile.
/// Whether a session of profile `p` keeps a tool named `name`.
pub open spec fn profile_allows(p: RuntimeSessionProfile, name: Seq<char>) -> bool {
    match p {
        RuntimeSessionProfile::Default => true,
        RuntimeSessionProfile::HeadlessCodingV1 => headless_tool_names().contains(name),
    }
}

pub open spec fn unknown_profile_message(name: Seq<char>) -> Seq<char> {
    "unknown runtime profile '"@ + name + "'; expected default or headless-coding-v1"@
}

impl RuntimeSessionProfile {
    /// Stable profile name used by the command line and trajectory metadata.
    pub fn as_str(self) -> (r: &'static str)
        ensures
            r@ == profile_name(self),
    {
        match self {
            RuntimeSessionProfile::Default => "default",
            RuntimeSessionProfile::HeadlessCodingV1 => "headless-coding-v1",
        }
    }

    /// The profile name, as `Display` writes it.
    pub fn to_string(&self) -> (r: String)
        ensures
            r@ == profile_name(*self),
    {
        self.as_str().to_owned()
    }

    /// Exact tool allowlist for versioned profiles; `None` means the default
    /// application registry is not projected.
    pub fn tool_names(self) -> (r: Option<Vec<&'static str>>)
        ensures
            self == RuntimeSessionProfile::Default ==> r is None,
            self == RuntimeSessionProfile::HeadlessCodingV1 ==> (r matches Some(v) && v@.len()
                == headless_tool_names().len() && forall|i: int|
                0 <= i < v@.len() ==> (#[trigger] v@[i])@ == headless_tool_names()[i]),
    {
        match self {
            RuntimeSessionProfile::Default => None,
            RuntimeSessionProfile::HeadlessCodingV1 => {
                let v: Vec<&'static str> = vec![
                    "bash",
                    "background_task_list",
                    "background_task_status",
                    "background_task_stop",
                    "pty_start",
                    "pty_read",
                    "pty_list",
                    "pty_status",
                    "pty_write",
                    "pty_kill",
                    "pty_stop",
                    "read_file",
                    "write_file",
                    "apply_patch",
                    "replace",
                    "replace_lines",
                    "glob",
                    "grep",
                    "todo_write",
                ];
                Some(v)
            },
        }
    }

    /// Whether a tool named `name` stays in a session of this profile.
    pub fn allows_tool(self, name: &str) -> (b: bool)
        ensures
            self == RuntimeSessionProfile::Default ==> b,
            self == RuntimeSessionProfile::HeadlessCodingV1 ==> (b <==> headless_tool_names().contains(
                name@,
            )),
    {
        match self.tool_names() {
            None => true,
            Some(names) => {
                let target = chars_of(name);
                let mut i: usize = 0;
                while i < names.len()
                    invariant
                        i <= names.len(),
                        names@.len() == headless_tool_names().len(),
                        forall|k: int| 0 <= k < names@.len() ==> (#[trigger] names@[k])@ == headless_tool_names()[k],
                        target@ == name@,
                        forall|k: int| 0 <= k < i ==> headless_tool_names()[k] != name@,
                    decreases names.len() - i,
                {
                    if eq_str(&target, names[i]) {
                        assert(headless_tool_names()[i as int] == name@);
                        return true;
                    }
                    i += 1;
                }
                proof {
                    if headless_tool_names().contains(name@) {
                        let k = choose|k: int| 0 <= k < headless_tool_names().len() && headless_tool_names()[k] == name@;
                        assert(headless_tool_names()[k] != name@);
                    }
                }
                false
            },
        }
    }

    /// Keeps, in order, the registered tools this profile allows: a
    /// versioned profile is an upper bound on a host's custom tools.
    pub fn project_tools(self, tools: &mut Vec<String>)
        ensures
            final(tools)@ == old(tools)@.filter(|t: String| profile_allows(self, t@)),
    {
        let ghost original = tools@;
        let mut kept: Vec<String> = Vec::new();
        let mut i: usize = 0;
        while i < tools.len()
            invariant
                i <= tools.len(),
                tools@ == original,
                kept@ == original.take(i as int).filter(|t: String| profile_allows(self, t@)),
            decreases tools.len() - i,
        {
            proof {
                assert(original.take(i + 1).drop_last() =~= original.take(i as int));
                original.take(i as int).lemma_filter_push(original[i as int], |t: String| profile_allows(self, t@));
                assert(original.take(i + 1) =~= original.take(i as int).push(original[i as int]));
            }
            if self.allows_tool(tools[i].as_str()) {
                kept.push(tools[i].clone());
            }
            i += 1;
        }
        assert(original.take(original.len() as int) =~= original);
        *tools = kept;
    }

    /// Whether ambient facilities (memory, plugins, host instructions) are
    /// left out of sessions of this profile.
    pub fn disables_ambient_facilities(self) -> (b: bool)
        ensures
            b == (self == RuntimeSessionProfile::HeadlessCodingV1),
    {
        match self {
            RuntimeSessionProfile::Default => false,
            RuntimeSessionProfile::HeadlessCodingV1 => true,
        }
    }

    /// The frozen system prompt of versioned profiles.
    pub fn system_prompt(self) -> (r: Option<&'static str>)
        ensures
            self == RuntimeSessionProfile::Default ==> r is None,
            self == RuntimeSessionProfile::HeadlessCodingV1 ==> (r matches Some(p) && p@
                == headless_system_prompt()),
    {
        match self {
            RuntimeSessionProfile::Default => None,
            RuntimeSessionProfile::HeadlessCodingV1 => Some(
                "Complete the task by acting with the available tools, not by narrating.\nInspect the workspace before editing. Prefer read_file, glob, and grep for inspection, apply_patch and write_file for file changes, and bash for ordinary commands and tests.\nUse bash with run_in_background for long-running non-interactive processes and inspect them with the background task tools. Use the PTY tools only when terminal input or terminal control is required.\nVerify the result when practical. Stop when the task is complete.",
            ),
        }
    }

    /// The profile named `value`, or the error text for an unknown name.
    pub fn parse(value: &str) -> (r: Result<Self, String>)
        ensures
            value@ == "default"@ ==> r == Ok::<Self, String>(RuntimeSessionProfile::Default),
            value@ == "headless-coding-v1"@ ==> r == Ok::<Self, String>(
                RuntimeSessionProfile::HeadlessCodingV1,
            ),
            value@ != "default"@ && value@ != "headless-coding-v1"@ ==> (r matches Err(m) && m@
                == unknown_profile_message(value@)),
    {
        proof {
            reveal_strlit("default");
            reveal_strlit("headless-coding-v1");
            assert("headless-coding-v1"@.len() != "default"@.len());
        }
        let v = chars_of(value);
        if eq_str(&v, "default") {
            Ok(RuntimeSessionProfile::Default)
        } else if eq_str(&v, "headless-coding-v1") {
            Ok(RuntimeSessionProfile::HeadlessCodingV1)
        } else {
            let mut out: Vec<char> = Vec::new();
            push_str(&mut out, "unknown runtime profile '");
            push_str(&mut out, value);
            push_str(&mut out, "'; expected default or headless-coding-v1");
            Err(string_from_chars(&out))
        }
    }
}

impl std::str::FromStr for RuntimeSessionProfile {
    type Err = String;

    fn from_str(value: &str) -> Result<Self, String> {
        RuntimeSessionProfile::parse(value)
    }
}

/// The tool names of the headless profile are pairwise distinct.
pub proof fn law_headless_tool_names_distinct()
    ensures
        forall|i: int, j: int|
            0 <= i < j < headless_tool_names().len() ==> headless_tool_names()[i]
                != headless_tool_names()[j],
{
    reveal_strlit("bash");
    reveal_strlit("background_task_list");
    reveal_strlit("background_task_status");
    reveal_strlit("background_task_stop");
    reveal_strlit("pty_start");
    reveal_strlit("pty_read");
    reveal_strlit("pty_list");
    reveal_strlit("pty_status");
    reveal_strlit("pty_write");
    reveal_strlit("pty_kill");
    reveal_strlit("pty_stop");
    reveal_strlit("read_file");
    reveal_strlit("write_file");
    reveal_strlit("apply_patch");
    reveal_strlit("replace");
    reveal_strlit("replace_lines");
    reveal_strlit("glob");
    reveal_strlit("grep");
    reveal_strlit("todo_write");
    let n = headless_tool_names();
    assert forall|i: int, j: int| 0 <= i < j < n.len() implies n[i] != n[j] by {
        if n[i] == n[j] {
            assert(n[i].len() == n[j].len());
            assert(n[i][0] == n[j][0]);
            assert(n[i][n[i].len() - 1] == n[j][n[j].len() - 1]);
            assert(n[i][3] == n[j][3]);
            assert(n[i][5] == n[j][5]);
        }
    }
}

/// Each profile's name parses back to that profile: the names are the two
/// that `parse` accepts, and they differ.
pub proof fn law_profile_name_round_trip(p: RuntimeSessionProfile)
    ensures
        profile_name(p) == "default"@ <==> p == RuntimeSessionProfile::Default,
        profile_name(p) == "headless-coding-v1"@ <==> p == RuntimeSessionProfile::HeadlessCodingV1,
{
    reveal_strlit("default");
    reveal_strlit("headless-coding-v1");
    assert("headless-coding-v1"@.len() != "default"@.len());
}

} // verus!

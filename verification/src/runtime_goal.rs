//! Goal completion: the evaluator prompt and the reading of its verdict.
use vstd::prelude::*;

use crate::text::{
    ascii_lower, ascii_lower_exec, chars_of, eq_str, is_blank, is_blank_str, join, join_exec, push_str,
    slice_chars, starts_with, starts_with_str, string_from_chars, trim, trim_chars, truncate_with_ellipsis,
    truncate_with_ellipsis_exec, views, words, words_exec,
};

verus! {

/// The instructions given to the goal evaluator model.
pub const GOAL_EVALUATOR_INSTRUCTIONS: &'static str = "You are a goal completion evaluator. Decide whether the active goal is fully satisfied by the current transcript.\n\nOutput exactly one line:\n- yes\n- no: <one-sentence reason>\n\nRules:\n- Answer yes only when the goal is complete, verified, and no required follow-up remains.\n- Answer no when evidence is missing, verification is incomplete, or more work is still required.\n- Do not include markdown, JSON, or extra explanation.";

/// The most transcript messages shown to the evaluator.
pub const EVALUATOR_RECENT_MESSAGES: usize = 16;

/// The most characters of an unrecognized answer quoted back.
pub const MAX_QUOTED_CHARS: usize = 240;

/// The evaluator's verdict on a goal.
#[derive(Clone, Debug, PartialEq, Eq)]
pub enum GoalEvaluation {
    Complete,
    Continue { reason: String },
}

pub open spec fn default_reason() -> Seq<char> {
    "goal not yet complete"@
}

/// A reason, trimmed; the default reason when blank.
pub open spec fn reason_text(reason: Seq<char>) -> Seq<char> {
    if is_blank(reason) {
        default_reason()
    } else {
        trim(reason)
    }
}

/// What an evaluator answer means. The answer is trimmed and compared
/// case-insensitively (ASCII): `yes` (alone, or followed by `.` or a line
/// break) completes the goal; `no` alone continues with the default reason;
/// `no:`, `no -` or `no --` continue with the rest as the reason; anything
/// else continues, quoting the answer (at most 240 characters).
pub open spec fn goal_evaluation_spec(raw: Seq<char>) -> (bool, Seq<char>) {
    let answer = trim(raw);
    let lower = ascii_lower(answer);
    if lower == "yes"@ || starts_with(lower, "yes."@) || starts_with(lower, "yes\n"@) {
        (true, Seq::empty())
    } else if lower == "no"@ {
        (false, default_reason())
    } else if starts_with(lower, "no:"@) {
        (false, reason_text(answer.skip(3)))
    } else if starts_with(lower, "no -"@) {
        (false, reason_text(answer.skip(4)))
    } else if starts_with(lower, "no --"@) {
        (false, reason_text(answer.skip(5)))
    } else {
        (
            false,
            "goal evaluator returned an unrecognized answer: "@ + truncate_with_ellipsis(
                answer,
                MAX_QUOTED_CHARS as nat,
            ),
        )
    }
}

pub open spec fn evaluation_is(e: GoalEvaluation, verdict: (bool, Seq<char>)) -> bool {
    if verdict.0 {
        e is Complete
    } else {
        e matches GoalEvaluation::Continue { reason } && reason@ == verdict.1
    }
}

/// The reason, trimmed, or the default reason when it is blank.
pub fn non_empty_reason(reason: &str) -> (r: String)
    ensures
        r@ == reason_text(reason@),
{
    if is_blank_str(reason) {
        "goal not yet complete".to_owned()
    } else {
        crate::text::trim_str(reason)
    }
}

/// At most 240 characters of `value`, with "..." when it was longer.
pub fn truncate_for_prompt(value: &str) -> (r: String)
    ensures
        r@ == truncate_with_ellipsis(value@, MAX_QUOTED_CHARS as nat),
{
    let v = chars_of(value);
    string_from_chars(&truncate_with_ellipsis_exec(&v, MAX_QUOTED_CHARS))
}

/// Reads the evaluator's answer.
pub fn parse_goal_evaluation(raw: &str) -> (r: GoalEvaluation)
    ensures
        evaluation_is(r, goal_evaluation_spec(raw@)),
{
    proof {
        reveal_strlit("goal not yet complete");
    }
    let answer = trim_chars(&chars_of(raw));
    let lower = ascii_lower_exec(&answer);
    if eq_str(&lower, "yes") || starts_with_str(&lower, "yes.") || starts_with_str(&lower, "yes\n") {
        return GoalEvaluation::Complete;
    }
    if eq_str(&lower, "no") {
        return GoalEvaluation::Continue { reason: "goal not yet complete".to_owned() };
    }
    proof {
        reveal_strlit("no:");
        reveal_strlit("no -");
        reveal_strlit("no --");
    }
    let cut: usize = if starts_with_str(&lower, "no:") {
        3
    } else if starts_with_str(&lower, "no -") {
        4
    } else if starts_with_str(&lower, "no --") {
        5
    } else {
        0
    };
    if cut > 0 {
        proof {
            assert(lower@.len() == answer@.len());
        }
        let rest = slice_chars(&answer, cut, answer.len());
        assert(rest@ =~= answer@.skip(cut as int));
        let rest_s = string_from_chars(&rest);
        return GoalEvaluation::Continue { reason: non_empty_reason(rest_s.as_str()) };
    }
    let answer_s = string_from_chars(&answer);
    let mut out: Vec<char> = Vec::new();
    push_str(&mut out, "goal evaluator returned an unrecognized answer: ");
    let quoted = truncate_for_prompt(answer_s.as_str());
    push_str(&mut out, quoted.as_str());
    GoalEvaluation::Continue { reason: string_from_chars(&out) }
}

/// The verdict when the evaluator could not be asked.
pub fn evaluator_unavailable(error: &str) -> (r: GoalEvaluation)
    ensures
        r matches GoalEvaluation::Continue { reason } && reason@ == "goal evaluator unavailable: "@
            + error@,
{
    let mut out: Vec<char> = Vec::new();
    push_str(&mut out, "goal evaluator unavailable: ");
    push_str(&mut out, error);
    GoalEvaluation::Continue { reason: string_from_chars(&out) }
}

/// The condition a goal is judged by: its condition when it has a
/// non-blank one, else its objective.
pub fn goal_condition(condition: Option<&str>, objective: &str) -> (r: String)
    ensures
        match condition {
            Some(c) => if is_blank(c@) {
                r@ == objective@
            } else {
                r@ == c@
            },
            None => r@ == objective@,
        },
{
    match condition {
        Some(c) => {
            if is_blank_str(c) {
                objective.to_owned()
            } else {
                c.to_owned()
            }
        },
        None => objective.to_owned(),
    }
}

/// Whitespace runs collapsed to single spaces, leading and trailing
/// whitespace dropped.
pub fn collapse_ws(input: &str) -> (r: String)
    ensures
        r@ == join(words(input@), seq![' ']),
{
    let w = words_exec(&chars_of(input));
    let mut sep: Vec<char> = Vec::new();
    sep.push(' ');
    assert(sep@ =~= seq![' ']);
    string_from_chars(&join_exec(&w, &sep))
}

/// One transcript message as the evaluator sees it: `"role: text"` with
/// whitespace collapsed.
pub fn render_message_for_evaluator(role: &str, text: &str) -> (r: String)
    ensures
        r@ == role@ + ": "@ + join(words(text@), seq![' ']),
{
    let mut out: Vec<char> = Vec::new();
    push_str(&mut out, role);
    push_str(&mut out, ": ");
    let collapsed = collapse_ws(text);
    push_str(&mut out, collapsed.as_str());
    string_from_chars(&out)
}

pub open spec fn rendered(m: (String, String)) -> Seq<char> {
    m.0@ + ": "@ + join(words(m.1@), seq![' '])
}

/// The evaluator's question: the goal condition and the last sixteen
/// transcript messages (role and text), rendered one per line.
pub fn goal_evaluator_prompt(condition: &str, history: &Vec<(String, String)>) -> (r: String)
    ensures
        ({
            let n = history@.len();
            let start = if n > 16 { n - 16 } else { 0 };
            let recent = history@.skip(start as int).map_values(|m: (String, String)| rendered(m));
            r@ == "Goal:\n"@ + condition@ + "\n\nRecent transcript:\n"@ + join(recent, seq!['\n'])
                + "\n\nIs the goal satisfied?"@
        }),
{
    let n = history.len();
    let start: usize = if n > EVALUATOR_RECENT_MESSAGES {
        n - EVALUATOR_RECENT_MESSAGES
    } else {
        0
    };
    let ghost recent = history@.skip(start as int).map_values(|m: (String, String)| rendered(m));
    let mut lines: Vec<Vec<char>> = Vec::new();
    let mut i: usize = start;
    while i < n
        invariant
            n == history@.len(),
            start <= i <= n,
            views(lines@) == history@.subrange(start as int, i as int).map_values(
                |m: (String, String)| rendered(m),
            ),
        decreases n - i,
    {
        let line = render_message_for_evaluator(history[i].0.as_str(), history[i].1.as_str());
        let ghost prev = lines@;
        lines.push(chars_of(line.as_str()));
        assert(views(lines@) =~= views(prev).push(rendered(history@[i as int])));
        assert(history@.subrange(start as int, i + 1).map_values(|m: (String, String)| rendered(m))
            =~= history@.subrange(start as int, i as int).map_values(
            |m: (String, String)| rendered(m),
        ).push(rendered(history@[i as int])));
        i += 1;
    }
    assert(history@.subrange(start as int, n as int) =~= history@.skip(start as int));
    let mut sep: Vec<char> = Vec::new();
    sep.push('\n');
    assert(sep@ =~= seq!['\n']);
    let body = join_exec(&lines, &sep);
    let mut out: Vec<char> = Vec::new();
    push_str(&mut out, "Goal:\n");
    push_str(&mut out, condition);
    push_str(&mut out, "\n\nRecent transcript:\n");
    crate::text::extend(&mut out, &body);
    push_str(&mut out, "\n\nIs the goal satisfied?");
    string_from_chars(&out)
}

} // verus!

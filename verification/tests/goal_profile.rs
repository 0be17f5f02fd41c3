use std::collections::BTreeSet;

use rara::runtime_goal::{
    collapse_ws, evaluator_unavailable, goal_condition, goal_evaluator_prompt, non_empty_reason, parse_goal_evaluation,
    render_message_for_evaluator, truncate_for_prompt, GoalEvaluation,
};
use rara::runtime_session::RuntimeSessionProfile;

#[test]
fn parses_yes_as_complete() {
    assert_eq!(parse_goal_evaluation("yes"), GoalEvaluation::Complete);
    assert_eq!(parse_goal_evaluation("Yes."), GoalEvaluation::Complete);
}

#[test]
fn parses_no_reason_as_continuation() {
    assert_eq!(
        parse_goal_evaluation("no: tests have not run yet"),
        GoalEvaluation::Continue { reason: "tests have not run yet".to_string() }
    );
}

#[test]
fn unrecognized_answer_continues_goal() {
    assert!(matches!(
        parse_goal_evaluation("maybe after another check"),
        GoalEvaluation::Continue { reason } if reason.contains("unrecognized answer")
    ));
}

#[test]
fn headless_profile_names_are_unique_and_round_trip() {
    let names = RuntimeSessionProfile::HeadlessCodingV1.tool_names().expect("headless tool names");
    assert_eq!(names.len(), names.iter().collect::<BTreeSet<_>>().len());
    assert_eq!("headless-coding-v1".parse(), Ok(RuntimeSessionProfile::HeadlessCodingV1));
    assert_eq!(RuntimeSessionProfile::HeadlessCodingV1.to_string(), "headless-coding-v1");
}

#[test]
fn headless_profile_is_an_upper_bound_for_custom_tools() {
    let mut tools = vec!["bash".to_string(), "host_private_tool".to_string()];

    RuntimeSessionProfile::HeadlessCodingV1.project_tools(&mut tools);

    assert!(tools.iter().any(|t| t == "bash"));
    assert!(!tools.iter().any(|t| t == "host_private_tool"));

    let mut all = vec!["host_private_tool".to_string(), "bash".to_string()];
    RuntimeSessionProfile::Default.project_tools(&mut all);
    assert_eq!(all, vec!["host_private_tool".to_string(), "bash".to_string()]);
}

#[test]
fn evaluator_answers_read_case_insensitively() {
    assert_eq!(parse_goal_evaluation("  YES\nall done"), GoalEvaluation::Complete);
    assert_eq!(parse_goal_evaluation("no"), GoalEvaluation::Continue { reason: "goal not yet complete".to_string() });
    assert_eq!(parse_goal_evaluation("No - lint fails"), GoalEvaluation::Continue { reason: "lint fails".to_string() });
    assert_eq!(parse_goal_evaluation("no:   "), GoalEvaluation::Continue { reason: "goal not yet complete".to_string() });
    assert_eq!(
        parse_goal_evaluation("yesterday"),
        GoalEvaluation::Continue { reason: "goal evaluator returned an unrecognized answer: yesterday".to_string() }
    );
    let long = "z".repeat(300);
    match parse_goal_evaluation(&long) {
        GoalEvaluation::Continue { reason } => {
            assert!(reason.ends_with("..."));
            assert_eq!(reason.len(), "goal evaluator returned an unrecognized answer: ".len() + 240 + 3);
        }
        other => panic!("unexpected {other:?}"),
    }
    assert_eq!(
        evaluator_unavailable("timeout"),
        GoalEvaluation::Continue { reason: "goal evaluator unavailable: timeout".to_string() }
    );
    assert_eq!(non_empty_reason("  "), "goal not yet complete");
    assert_eq!(non_empty_reason(" because "), "because");
    assert_eq!(truncate_for_prompt("short"), "short");
}

#[test]
fn evaluator_prompt_quotes_the_goal_and_recent_transcript() {
    assert_eq!(goal_condition(Some("  "), "ship it"), "ship it");
    assert_eq!(goal_condition(Some("tests pass"), "ship it"), "tests pass");
    assert_eq!(goal_condition(None, "ship it"), "ship it");
    assert_eq!(collapse_ws("  a \n\t b  c "), "a b c");
    assert_eq!(render_message_for_evaluator("user", "fix\n  the  bug"), "user: fix the bug");
    let history = vec![("user".to_string(), "fix it".to_string()), ("assistant".to_string(), "done\nreally".to_string())];
    assert_eq!(
        goal_evaluator_prompt("tests pass", &history),
        "Goal:\ntests pass\n\nRecent transcript:\nuser: fix it\nassistant: done really\n\nIs the goal satisfied?"
    );
    let many: Vec<(String, String)> = (0..20).map(|i| ("user".to_string(), format!("m{i}"))).collect();
    let prompt = goal_evaluator_prompt("g", &many);
    assert!(!prompt.contains("user: m3\n"));
    assert!(prompt.contains("user: m4\n"));
    assert!(prompt.contains("user: m19\n"));
}

#[test]
fn headless_profile_freezes_prompt_and_facilities() {
    assert!(RuntimeSessionProfile::HeadlessCodingV1.disables_ambient_facilities());
    assert!(!RuntimeSessionProfile::Default.disables_ambient_facilities());
    assert_eq!(RuntimeSessionProfile::Default.system_prompt(), None);
    assert!(RuntimeSessionProfile::HeadlessCodingV1
        .system_prompt()
        .expect("prompt")
        .starts_with("Complete the task by acting with the available tools, not by narrating."));
    assert!(RuntimeSessionProfile::HeadlessCodingV1.allows_tool("apply_patch"));
    assert!(!RuntimeSessionProfile::HeadlessCodingV1.allows_tool("web_fetch"));
    assert!(RuntimeSessionProfile::Default.allows_tool("web_fetch"));
    assert_eq!(
        "other".parse::<RuntimeSessionProfile>(),
        Err("unknown runtime profile 'other'; expected default or headless-coding-v1".to_string())
    );
}

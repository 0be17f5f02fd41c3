use rara::model_observation::QueryReport;
use rara::runtime_control::SessionEvent;
use rara::runtime_session::actor::{
    closed_refusal, terminal_event, turn_result, SessionActorState, TurnStopKind, TurnVerdict,
};
use rara::runtime_session::{
    RuntimePendingInput, RuntimePendingInputKind, RuntimeSessionError, RuntimeSessionPhase, RuntimeTurnId,
    RuntimeTurnOutcome,
};
use rara::runtime_session::input::{AgentPendingState, PendingShellApproval, PendingUserQuestion};
use rara::runtime_control::{PlanApprovalDecision, ShellApprovalDecision};
use rara::runtime_session::input::TurnInput;
use rara::runtime_session::{RuntimeInput, RuntimeInputAnswer};
use rara::runtime_session::error::{replay_gap_error, RuntimeReplayGap};


fn outcome(turn_id: &RuntimeTurnId) -> RuntimeTurnOutcome {
    RuntimeTurnOutcome { turn_id: turn_id.clone(), query_report: QueryReport { model_turns: vec![] }, transcript: vec![] }
}

#[test]
fn a_turn_runs_and_completes() {
    let mut actor = SessionActorState::new();
    assert!(actor.check_idle().is_ok());
    let turn = RuntimeTurnId::generate();
    assert_eq!(actor.start_turn(turn.clone()).expect("start"), RuntimeSessionPhase::Running { turn_id: turn.clone() });
    assert!(!actor.agent_present);
    assert!(matches!(actor.check_idle(), Err(RuntimeSessionError::Busy { active_turn }) if active_turn == turn));
    let other = RuntimeTurnId::generate();
    assert!(matches!(actor.start_turn(other), Err(RuntimeSessionError::Busy { .. })));
    let (verdict, phase) = actor.finish_turn(&turn, 0, None);
    assert_eq!(verdict, TurnVerdict::Completed);
    assert_eq!(phase, Some(RuntimeSessionPhase::Idle));
    assert!(actor.agent_present && actor.active.is_none());
    assert_eq!(
        terminal_event(&verdict),
        Some(("completed", SessionEvent::TurnFinished { reason: Some("completed".to_string()) }))
    );
    assert!(matches!(turn_result(verdict, outcome(&turn)), Ok(o) if o.turn_id == turn));
}

#[test]
fn stops_are_checked_against_the_active_turn() {
    let mut actor = SessionActorState::new();
    assert!(matches!(actor.stop_turn(None, TurnStopKind::Cancel), Err(RuntimeSessionError::NotRunning)));
    let turn = RuntimeTurnId::generate();
    actor.start_turn(turn.clone()).expect("start");
    let stranger = RuntimeTurnId::generate();
    assert!(matches!(
        actor.stop_turn(Some(stranger.clone()), TurnStopKind::Cancel),
        Err(RuntimeSessionError::StaleTurn { expected, active }) if expected == stranger && active == turn
    ));
    let (stopped, phase) = actor.stop_turn(Some(turn.clone()), TurnStopKind::Interrupt).expect("interrupt");
    assert_eq!(stopped, turn);
    assert_eq!(phase, RuntimeSessionPhase::Cancelling { turn_id: turn.clone() });
    // the same kind again is accepted; the other kind is refused
    assert!(actor.stop_turn(None, TurnStopKind::Interrupt).is_ok());
    assert!(matches!(
        actor.stop_turn(None, TurnStopKind::Cancel),
        Err(RuntimeSessionError::StopInProgress { active_turn }) if active_turn == turn
    ));
    let (verdict, _) = actor.finish_turn(&turn, 0, Some("ignored".to_string()));
    assert_eq!(verdict, TurnVerdict::Interrupted);
    assert_eq!(terminal_event(&verdict), Some(("interrupted", SessionEvent::TurnInterrupted)));
    assert!(matches!(turn_result(verdict, outcome(&turn)), Err(RuntimeSessionError::Interrupted { .. })));
}

#[test]
fn failures_and_stale_completions_resolve_as_reported() {
    let mut actor = SessionActorState::new();
    let turn = RuntimeTurnId::generate();
    actor.start_turn(turn.clone()).expect("start");
    let stale = RuntimeTurnId::generate();
    let (verdict, phase) = actor.finish_turn(&stale, 0, None);
    assert_eq!((verdict, phase), (TurnVerdict::Stale, None));
    // the stale completion released the turn but left the agent lent out
    assert!(actor.active.is_none() && !actor.agent_present);
    assert!(matches!(actor.check_idle(), Err(RuntimeSessionError::ActorStopped)));
    assert_eq!(actor.finish_turn(&turn, 0, None), (TurnVerdict::NoActiveTurn, None));

    let mut actor = SessionActorState::new();
    actor.start_turn(turn.clone()).expect("start");
    let (verdict, _) = actor.finish_turn(&turn, 0, Some("tool crashed".to_string()));
    assert_eq!(verdict, TurnVerdict::Failed { message: "tool crashed".to_string() });
    assert_eq!(
        terminal_event(&verdict),
        Some(("failed", SessionEvent::TurnFailed { reason: "tool crashed".to_string() }))
    );
    assert!(matches!(
        turn_result(verdict, outcome(&turn)),
        Err(RuntimeSessionError::Execution { message, .. }) if message == "tool crashed"
    ));
    assert!(matches!(turn_result(TurnVerdict::Stale, outcome(&turn)), Err(RuntimeSessionError::ActorStopped)));
}

#[test]
fn shutdown_cancels_the_active_turn_and_refuses_new_work() {
    let mut actor = SessionActorState::new();
    let turn = RuntimeTurnId::generate();
    actor.start_turn(turn.clone()).expect("start");
    assert!(!actor.begin_shutdown());
    assert!(actor.closing);
    assert!(!actor.ready_to_close());
    assert!(matches!(actor.stop_turn(None, TurnStopKind::Cancel), Err(RuntimeSessionError::Closed)));
    assert!(matches!(actor.check_idle(), Err(RuntimeSessionError::Closed)));
    let (verdict, phase) = actor.finish_turn(&turn, 0, None);
    assert_eq!(verdict, TurnVerdict::Cancelled);
    assert_eq!(phase, None);
    assert!(actor.ready_to_close());
    assert!(matches!(closed_refusal(), RuntimeSessionError::Closed));

    let mut idle = SessionActorState::new();
    assert!(idle.begin_shutdown());
    assert!(idle.ready_to_close());
}

#[test]
fn pending_interactions_follow_agent_priority() {
    let turn = RuntimeTurnId::generate();
    let question = PendingUserQuestion { question: "Which?".to_string(), options: vec![], note: None };
    let all = AgentPendingState {
        approval: Some(PendingShellApproval { tool_use_id: "tool-1".to_string(), request: "rm -rf build".to_string() }),
        plan_exit: Some(("plan-1".to_string(), "the plan".to_string())),
        user_input: Some(question.clone()),
    };
    let pending = RuntimePendingInput::from_agent(turn.clone(), all).expect("pending");
    assert_eq!(pending.turn_id, turn);
    assert_eq!(
        pending.kind,
        RuntimePendingInputKind::Shell { approval_id: "tool-1".to_string(), request: "rm -rf build".to_string() }
    );
    let plan_and_question =
        AgentPendingState { approval: None, plan_exit: Some(("plan-1".to_string(), "p".to_string())), user_input: Some(question.clone()) };
    assert_eq!(
        RuntimePendingInput::from_agent(turn.clone(), plan_and_question).expect("pending").kind,
        RuntimePendingInputKind::Plan { approval_id: "plan-1".to_string(), plan: "p".to_string() }
    );
    let only_question = AgentPendingState { approval: None, plan_exit: None, user_input: Some(question) };
    assert!(matches!(
        RuntimePendingInput::from_agent(turn.clone(), only_question).expect("pending").kind,
        RuntimePendingInputKind::User { .. }
    ));
    let nothing = AgentPendingState { approval: None, plan_exit: None, user_input: None };
    assert_eq!(RuntimePendingInput::from_agent(turn, nothing), None);
}

#[test]
fn replies_must_answer_the_waiting_turn_in_its_kind() {
    let turn = RuntimeTurnId::generate();
    let pending = RuntimePendingInput {
        turn_id: turn.clone(),
        kind: RuntimePendingInputKind::Shell { approval_id: "a".to_string(), request: "ls".to_string() },
    };
    let shell = TurnInput::Controlled(RuntimeInput::Answer {
        waiting_turn: turn.clone(),
        answer: RuntimeInputAnswer::Shell { decision: ShellApprovalDecision::Once },
    });
    assert!(shell.is_answer());
    assert!(shell.validate(Some(&pending)).is_ok());
    assert!(matches!(shell.validate(None), Err(RuntimeSessionError::NoPendingInput)));
    let plan = TurnInput::Controlled(RuntimeInput::Answer {
        waiting_turn: turn.clone(),
        answer: RuntimeInputAnswer::Plan { decision: PlanApprovalDecision::Approve, feedback: None },
    });
    assert!(matches!(plan.validate(Some(&pending)), Err(RuntimeSessionError::InputKindMismatch)));
    let other = RuntimeTurnId::generate();
    let stale = TurnInput::Controlled(RuntimeInput::Answer {
        waiting_turn: other.clone(),
        answer: RuntimeInputAnswer::Shell { decision: ShellApprovalDecision::Always },
    });
    assert!(matches!(
        stale.validate(Some(&pending)),
        Err(RuntimeSessionError::StaleInput { expected, waiting }) if expected == other && waiting == turn
    ));
    let prompt = TurnInput::Controlled(RuntimeInput::Prompt("hi".to_string()));
    assert!(!prompt.is_answer());
    assert!(prompt.validate(None).is_ok());
    assert!(matches!(
        prompt.validate(Some(&pending)),
        Err(RuntimeSessionError::AwaitingInput { waiting_turn }) if waiting_turn == turn
    ));
    assert!(TurnInput::LegacyPrompt("hi".to_string()).validate(Some(&pending)).is_ok());
}

#[test]
fn errors_keep_the_evidence_of_their_turn() {
    let turn = RuntimeTurnId::generate();
    let cancelled = RuntimeSessionError::Cancelled { outcome: outcome(&turn) };
    assert_eq!(cancelled.turn_outcome().map(|o| o.turn_id.clone()), Some(turn.clone()));
    let failed = RuntimeSessionError::Execution { message: "x".to_string(), outcome: outcome(&turn) };
    assert!(failed.turn_outcome().is_some());
    assert!(RuntimeSessionError::Closed.turn_outcome().is_none());
    assert!(RuntimeSessionError::Interrupted { outcome: outcome(&turn) }.turn_outcome().is_none());
    assert!(matches!(
        replay_gap_error(RuntimeReplayGap { requested: 3, oldest_available: 10, latest: 20 }),
        RuntimeSessionError::ResyncRequired { requested: 3, oldest_available: 10, latest: 20 }
    ));
}

use ralphx::agents::AgentHarnessKind;
use ralphx::interactive_process_registry::{
    with_trailing_newline, InteractiveProcessKey, InteractiveProcessMetadata,
    InteractiveProcessRegistry, InteractiveProcessRetireAfterTurnDisposition,
    InteractiveProcessRetireArmDisposition, InteractiveProcessState,
    InteractiveProcessTurnCompleteDisposition, InteractiveProcessWriteError, PendingStdinTurn,
};

fn run_metadata(run: &str) -> InteractiveProcessMetadata {
    let mut m = InteractiveProcessMetadata::default();
    m.agent_run_id = Some(run.to_string());
    m
}

fn turn(id: &str, content: &str) -> PendingStdinTurn {
    PendingStdinTurn {
        persisted_message_id: id.to_string(),
        content: content.to_string(),
        metadata_override: None,
        queued_at: "2026-07-30T10:00:00Z".to_string(),
    }
}

fn ids(turns: &[PendingStdinTurn]) -> Vec<String> {
    turns.iter().map(|t| t.persisted_message_id.clone()).collect()
}

#[test]
fn test_register_and_has_process() {
    let mut registry = InteractiveProcessRegistry::new();
    let key = InteractiveProcessKey::new("ideation", "session-1");
    assert!(!registry.has_process(&key));
    registry.register_entry(key.duplicate(), InteractiveProcessMetadata::default());
    assert!(registry.has_process(&key));
    assert_eq!(registry.count(), 1);
    assert_eq!(registry.state_of(&key), Some(InteractiveProcessState::Active));
}

#[test]
fn test_write_message_no_process_returns_error() {
    let mut registry = InteractiveProcessRegistry::new();
    let key = InteractiveProcessKey::new("ideation", "missing");
    match registry.begin_write(&key, None, "hello") {
        Err(InteractiveProcessWriteError::Missing { context_type, context_id }) => {
            assert_eq!(context_type, "ideation");
            assert_eq!(context_id, "missing");
        }
        other => panic!("unexpected: {:?}", other),
    }
}

#[test]
fn test_register_and_write_message() {
    let mut registry = InteractiveProcessRegistry::new();
    let key = InteractiveProcessKey::new("task_execution", "task-1");
    let token = registry.register_entry(key.duplicate(), InteractiveProcessMetadata::default());
    assert!(registry.mark_idle_if_token(&key, token));
    assert_eq!(registry.state_of(&key), Some(InteractiveProcessState::Idle));
    let (owner, line) = registry.begin_write(&key, None, "hello").expect("write accepted");
    assert_eq!(owner, token);
    assert_eq!(line, "hello\n");
    assert_eq!(registry.state_of(&key), Some(InteractiveProcessState::Active));
}

#[test]
fn test_register_with_metadata_persists_harness_metadata() {
    let mut registry = InteractiveProcessRegistry::new();
    let key = InteractiveProcessKey::new("ideation", "meta");
    let mut metadata = run_metadata("run-1");
    metadata.harness = Some(AgentHarnessKind::Codex);
    metadata.provider_session_id = Some("thread-123".to_string());
    registry.register_entry(key.duplicate(), metadata);
    let stored = registry.get_metadata(&key).expect("metadata");
    assert_eq!(stored.agent_run_id.as_deref(), Some("run-1"));
    assert_eq!(stored.harness, Some(AgentHarnessKind::Codex));
    assert_eq!(stored.provider_session_id.as_deref(), Some("thread-123"));
    assert!(registry.get_metadata(&InteractiveProcessKey::new("ideation", "other")).is_none());
}

#[test]
fn test_remove_nonexistent_returns_none() {
    let mut registry = InteractiveProcessRegistry::new();
    assert!(registry.remove(&InteractiveProcessKey::new("a", "b")).is_none());
}

#[test]
fn test_clear_removes_all() {
    let mut registry = InteractiveProcessRegistry::new();
    let t1 = registry.register_entry(InteractiveProcessKey::new("a", "1"), InteractiveProcessMetadata::default());
    let t2 = registry.register_entry(InteractiveProcessKey::new("a", "2"), InteractiveProcessMetadata::default());
    let tokens = registry.clear();
    assert_eq!(tokens, vec![t1, t2]);
    assert_eq!(registry.count(), 0);
    assert!(registry.dump_state().is_empty());
}

#[test]
fn test_dump_state_returns_all_keys() {
    let mut registry = InteractiveProcessRegistry::new();
    assert!(registry.dump_state().is_empty());
    registry.register_entry(InteractiveProcessKey::new("a", "1"), InteractiveProcessMetadata::default());
    registry.register_entry(InteractiveProcessKey::new("b", "2"), InteractiveProcessMetadata::default());
    let keys: Vec<(String, String)> = registry
        .dump_state()
        .into_iter()
        .map(|k| (k.context_type, k.context_id))
        .collect();
    assert_eq!(keys.len(), 2);
    assert!(keys.contains(&("a".to_string(), "1".to_string())));
    assert!(keys.contains(&("b".to_string(), "2".to_string())));
}

#[test]
fn re_registration_replaces_the_entry_with_a_fresh_token() {
    let mut registry = InteractiveProcessRegistry::new();
    let key = InteractiveProcessKey::new("ideation", "replace");
    let first = registry.register_entry(key.duplicate(), run_metadata("old"));
    let second = registry.register_entry(key.duplicate(), run_metadata("new"));
    assert_ne!(first, second);
    assert!(second.value() > first.value());
    assert_eq!(registry.count(), 1);
    assert!(!registry.mark_idle_if_token(&key, first));
    assert!(registry.mark_idle_if_token(&key, second));
}

#[test]
fn pending_stdin_turns_are_fifo_and_exact_owner_scoped() {
    let mut registry = InteractiveProcessRegistry::new();
    let key = InteractiveProcessKey::new("project", "pending-turns");
    let token = registry.register_entry(key.duplicate(), InteractiveProcessMetadata::default());
    assert!(registry.push_pending_turn(&key, token, turn("message-1", "first")));
    assert!(registry.push_pending_turn(&key, token, turn("message-2", "second")));
    let popped = registry.pop_pending_turn(&key, token).expect("oldest turn");
    assert_eq!(popped.persisted_message_id, "message-1");
    assert_eq!(ids(&registry.take_pending_turns(&key, token)), vec!["message-2"]);
    assert!(registry.take_pending_turns(&key, token).is_empty());
}

#[test]
fn pending_stdin_settlement_from_a_stale_token_is_a_no_op() {
    let mut registry = InteractiveProcessRegistry::new();
    let key = InteractiveProcessKey::new("project", "stale-settlement");
    let token = registry.register_entry(key.duplicate(), InteractiveProcessMetadata::default());
    assert!(registry.push_pending_turn(&key, token, turn("message-1", "still unanswered")));
    let other_token = registry.register_entry(
        InteractiveProcessKey::new("project", "other-owner"),
        InteractiveProcessMetadata::default(),
    );
    assert!(registry.take_pending_turns(&key, other_token).is_empty());
    assert!(registry.pop_pending_turn(&key, other_token).is_none());
    assert!(!registry.push_pending_turn(&key, other_token, turn("x", "y")));
    assert_eq!(ids(&registry.take_pending_turns(&key, token)), vec!["message-1"]);
}

#[test]
fn pending_stdin_turns_do_not_cross_registration_owners() {
    let mut registry = InteractiveProcessRegistry::new();
    let key = InteractiveProcessKey::new("project", "pending-replacement");
    let old_token = registry.register_entry(key.duplicate(), InteractiveProcessMetadata::default());
    assert!(registry.push_pending_turn(&key, old_token, turn("old-message", "old")));
    let new_token = registry.register_entry(key.duplicate(), InteractiveProcessMetadata::default());
    assert!(registry.take_pending_turns(&key, old_token).is_empty());
    assert!(registry.take_pending_turns(&key, new_token).is_empty());
}

#[test]
fn removed_entry_hands_back_pending_stdin_turns() {
    let mut registry = InteractiveProcessRegistry::new();
    let key = InteractiveProcessKey::new("project", "removed-pending-turns");
    let token = registry.register_entry(key.duplicate(), InteractiveProcessMetadata::default());
    assert!(registry.push_pending_turn(&key, token, turn("message-1", "unanswered")));
    let mut removed = registry.remove_if_token(&key, token).expect("owner removes its own entry");
    assert_eq!(removed.token(), token);
    assert_eq!(ids(&removed.take_pending_stdin_turns()), vec!["message-1"]);
    assert!(removed.take_pending_stdin_turns().is_empty());
    assert!(!registry.has_process(&key));
}

#[test]
fn capture_owner_returns_current_token_run_id_and_cloned_metadata() {
    let mut registry = InteractiveProcessRegistry::new();
    let key = InteractiveProcessKey::new("project", "capture-owner");
    let mut metadata = run_metadata("current-run");
    metadata.harness = Some(AgentHarnessKind::Codex);
    metadata.persona_id = Some("planner".to_string());
    let token = registry.register_entry(key.duplicate(), metadata);
    let owner = registry.capture_owner(&key).expect("owner");
    assert_eq!(owner.token, token);
    assert_eq!(owner.agent_run_id, "current-run");
    assert_eq!(owner.metadata.harness, Some(AgentHarnessKind::Codex));
    assert_eq!(owner.metadata.persona_id.as_deref(), Some("planner"));
}

#[test]
fn capture_owner_fails_closed_without_a_run_id() {
    let mut registry = InteractiveProcessRegistry::new();
    let key = InteractiveProcessKey::new("project", "capture-no-run-id");
    let token = registry.register_entry(key.duplicate(), InteractiveProcessMetadata::default());
    assert!(registry.capture_owner(&key).is_none());
    assert_eq!(
        registry.retire_after_turn_disposition_if_owner(&key, token, ""),
        InteractiveProcessRetireAfterTurnDisposition::Stale
    );
    assert_eq!(
        registry.retire_after_turn_disposition_if_owner(
            &InteractiveProcessKey::new("project", "missing-owner"),
            token,
            "current-run",
        ),
        InteractiveProcessRetireAfterTurnDisposition::Stale
    );
    let blank = InteractiveProcessKey::new("project", "blank-run");
    registry.register_entry(blank.duplicate(), run_metadata("   "));
    assert!(registry.capture_owner(&blank).is_none());
}

#[test]
fn exact_owner_write_rejects_replacement() {
    let mut registry = InteractiveProcessRegistry::new();
    let key = InteractiveProcessKey::new("project", "write-replacement");
    registry.register_entry(key.duplicate(), run_metadata("stale-run"));
    let stale = registry.capture_owner(&key).expect("stale owner");
    let current = registry.register_entry(key.duplicate(), run_metadata("replacement-run"));
    assert!(matches!(
        registry.begin_write(&key, Some((stale.token, stale.agent_run_id.as_str())), "must not reach"),
        Err(InteractiveProcessWriteError::Missing { .. })
    ));
    assert!(matches!(
        registry.begin_write(&key, Some((current, "")), "blank run"),
        Err(InteractiveProcessWriteError::Missing { .. })
    ));
    let (t, line) = registry
        .begin_write(&key, Some((current, "replacement-run")), "ok\n")
        .expect("current owner writes");
    assert_eq!(t, current);
    assert_eq!(line, "ok\n");
}

#[test]
fn arming_an_idle_entry_stages_retirement_until_exact_owner_commits() {
    let mut registry = InteractiveProcessRegistry::new();
    let key = InteractiveProcessKey::new("project", "arm-idle");
    let token = registry.register_entry(key.duplicate(), run_metadata("run-1"));
    assert!(registry.mark_idle_if_token(&key, token));
    assert_eq!(
        registry.arm_retire_after_turn_if_owner(&key, token, "run-1"),
        InteractiveProcessRetireArmDisposition::IdleReady
    );
    // An armed entry refuses writes and is not retired by the unarmed path.
    assert!(matches!(
        registry.begin_write(&key, None, "late"),
        Err(InteractiveProcessWriteError::Retiring { .. })
    ));
    assert!(registry.retire_if_idle(&key).is_none());
    assert!(registry.retire_armed_idle_if_owner(&key, token, "other-run").is_none());
    let removed = registry.retire_armed_idle_if_owner(&key, token, "run-1").expect("retired");
    assert_eq!(removed.token(), token);
    assert!(!registry.has_process(&key));
}

#[test]
fn disarming_retire_after_turn_restores_writes_and_idle_disposition() {
    let mut registry = InteractiveProcessRegistry::new();
    let key = InteractiveProcessKey::new("project", "disarm");
    let token = registry.register_entry(key.duplicate(), run_metadata("run-1"));
    assert_eq!(
        registry.arm_retire_after_turn_if_owner(&key, token, "run-1"),
        InteractiveProcessRetireArmDisposition::AwaitingTurn
    );
    assert_eq!(
        registry.retire_after_turn_disposition_if_owner(&key, token, "run-1"),
        InteractiveProcessRetireAfterTurnDisposition::Active { is_armed: true }
    );
    assert!(registry.disarm_retire_after_turn_if_owner(&key, token, "run-1"));
    assert!(!registry.disarm_retire_after_turn_if_owner(&key, token, "run-1"));
    assert_eq!(
        registry.complete_turn_if_owner(&key, token, "run-1"),
        InteractiveProcessTurnCompleteDisposition::KeepAlive
    );
    assert_eq!(
        registry.retire_after_turn_disposition_if_owner(&key, token, "run-1"),
        InteractiveProcessRetireAfterTurnDisposition::Idle { is_armed: false }
    );
    assert!(registry.begin_write(&key, None, "again").is_ok());
}

#[test]
fn retire_after_turn_requires_exact_token_and_run_owner() {
    let mut registry = InteractiveProcessRegistry::new();
    let key = InteractiveProcessKey::new("project", "exact-owner");
    let token = registry.register_entry(key.duplicate(), run_metadata("run-1"));
    assert_eq!(
        registry.arm_retire_after_turn_if_owner(&key, token, "run-2"),
        InteractiveProcessRetireArmDisposition::Stale
    );
    assert_eq!(
        registry.complete_turn_if_owner(&key, token, "run-2"),
        InteractiveProcessTurnCompleteDisposition::Stale
    );
    assert_eq!(
        registry.arm_retire_after_turn_if_owner(&key, token, "run-1"),
        InteractiveProcessRetireArmDisposition::AwaitingTurn
    );
    assert_eq!(
        registry.complete_turn_if_owner(&key, token, "run-1"),
        InteractiveProcessTurnCompleteDisposition::RetireAfterTurn
    );
    assert!(!registry.has_process(&key));
}

#[test]
fn stale_retirement_cannot_remove_a_replacement_entry() {
    let mut registry = InteractiveProcessRegistry::new();
    let key = InteractiveProcessKey::new("project", "stale-retire");
    let old = registry.register_entry(key.duplicate(), run_metadata("run-1"));
    let new = registry.register_entry(key.duplicate(), run_metadata("run-1"));
    assert!(registry.remove_if_token(&key, old).is_none());
    assert!(!registry.mark_idle_if_token(&key, old));
    assert_eq!(
        registry.arm_retire_after_turn_if_owner(&key, old, "run-1"),
        InteractiveProcessRetireArmDisposition::Stale
    );
    assert!(registry.has_process(&key));
    assert_eq!(registry.capture_owner(&key).expect("owner").token, new);
}

#[test]
fn idle_retirement_removes_only_unarmed_idle_entries() {
    let mut registry = InteractiveProcessRegistry::new();
    let key = InteractiveProcessKey::new("project", "idle");
    let token = registry.register_entry(key.duplicate(), run_metadata("run-1"));
    assert!(registry.retire_if_idle(&key).is_none());
    assert!(registry.mark_idle_if_token(&key, token));
    let removed = registry.retire_if_idle(&key).expect("idle entry retires");
    assert_eq!(removed.token(), token);
    assert_eq!(removed.metadata.agent_run_id.as_deref(), Some("run-1"));
    assert!(registry.retire_if_idle(&key).is_none());
}

#[test]
fn tokens_are_available_on_a_fresh_registry() {
    let registry = InteractiveProcessRegistry::new();
    assert!(registry.tokens_available());
}

#[test]
fn trailing_newline_is_added_once() {
    assert_eq!(with_trailing_newline("hi"), "hi\n");
    assert_eq!(with_trailing_newline("hi\n"), "hi\n");
    assert_eq!(with_trailing_newline(""), "\n");
}

use ralphx::agents::AgentHarnessKind;
use ralphx::team_budget::{
    admit_dispatch, aggregate_team_usage, ManagedTeamUsage, TeamBudgetPolicy, TeamRunUsage,
};
use ralphx::team_lifecycle::{
    configured_dispatch_count, coordinator_run_binding_at, new_coordinator_wake_run_binding,
    new_team_session, team_session_at, TeamRunTriggerKind, TeamSessionStatus,
    TeamWorkClassification, DEFAULT_AUTOMATIC_WAKE_LIMIT, DEFAULT_TEAM_CONCURRENCY,
};
use ralphx::team_messaging::{
    assignment_settled_signal, check_coordinator_authority, check_system_sender,
    validate_message_request, AgentTaskAssignmentTerminalStatus,
};
use ralphx::team_overlay::{
    validate_native_team_intent, validate_native_team_intent_with_capabilities, CoordinationMode,
    NativeTeamOverlayError, ResolvedTeamOverlay, TeamIntent, TeamIntentStrategy,
};
use ralphx::team_prompt::{
    apply_rx_native_team_contract, render_team_origin_message, rx_native_team_contract,
    TeamMessage, TeamMessageActorKind, TeamMessageKind,
};
use ralphx::team_state::{
    advance_binding_status, check_pending_exit, exit_action_for_coordination_change,
    ManagedTeamStartupBarrier, TeamExitAction, TeamRunBindingStatus,
};

#[test]
fn native_team_overlay_error_codes_and_messages() {
    let disabled = NativeTeamOverlayError::Disabled;
    assert_eq!(disabled.code(), "team_mode_disabled");
    assert_eq!(
        disabled.message(),
        "team_mode_disabled: RX-native team mode is disabled in this build"
    );

    let unsupported = NativeTeamOverlayError::HarnessUnsupported {
        harness: AgentHarnessKind::Codex,
    };
    assert_eq!(unsupported.code(), "harness_unsupported");
    assert_eq!(
        unsupported.message(),
        "harness_unsupported: harness 'codex' does not support RX-native team mode"
    );
}

#[test]
fn omitted_or_solo_team_intent_is_noop() {
    assert_eq!(
        validate_native_team_intent(None, AgentHarnessKind::Claude).unwrap(),
        None
    );
    assert_eq!(
        validate_native_team_intent(Some(&TeamIntent::default()), AgentHarnessKind::Codex).unwrap(),
        None
    );
}

#[test]
fn rx_native_team_resolves_for_standard_harnesses() {
    let intent = TeamIntent::rx_native(Some(TeamIntentStrategy::Execution));

    assert_eq!(
        validate_native_team_intent(Some(&intent), AgentHarnessKind::Claude).unwrap(),
        Some(ResolvedTeamOverlay {
            coordination_mode: CoordinationMode::RxNativeTeam,
            harness: AgentHarnessKind::Claude,
        })
    );
    assert_eq!(
        validate_native_team_intent(Some(&intent), AgentHarnessKind::Codex).unwrap(),
        Some(ResolvedTeamOverlay {
            coordination_mode: CoordinationMode::RxNativeTeam,
            harness: AgentHarnessKind::Codex,
        })
    );
}

#[test]
fn non_team_capabilities_do_not_activate_the_team_overlay() {
    for coordination_mode in [
        CoordinationMode::RxNativeWorkflow,
        CoordinationMode::CodexNativeUltra,
    ] {
        let intent = TeamIntent {
            coordination_mode,
            strategy: None,
        };
        assert_eq!(
            validate_native_team_intent(Some(&intent), AgentHarnessKind::Codex).unwrap(),
            None
        );
    }
}

#[test]
fn rx_native_team_rejects_harness_without_capability() {
    let intent = TeamIntent::rx_native(Some(TeamIntentStrategy::Execution));

    assert!(matches!(
        validate_native_team_intent_with_capabilities(
            Some(&intent),
            AgentHarnessKind::Codex,
            false
        ),
        Err(NativeTeamOverlayError::HarnessUnsupported {
            harness: AgentHarnessKind::Codex
        })
    ));
}

#[test]
fn coordination_modes_round_trip_through_their_names() {
    for (mode, value) in [
        (CoordinationMode::Solo, "solo"),
        (CoordinationMode::RxNativeTeam, "rx_native_team"),
        (CoordinationMode::RxNativeWorkflow, "rx_native_workflow"),
        (CoordinationMode::CodexNativeUltra, "codex_native_ultra"),
    ] {
        assert_eq!(mode.as_str(), value);
        assert_eq!(CoordinationMode::parse(value).unwrap(), mode);
    }
    assert_eq!(
        CoordinationMode::parse("unexpected").unwrap_err(),
        "Invalid coordination mode 'unexpected'. Valid values: solo, rx_native_team, rx_native_workflow, codex_native_ultra"
    );
    assert!(TeamIntent::default().is_solo());
    assert_eq!(TeamIntentStrategy::Debate.as_str(), "debate");
}

#[test]
fn rx_native_team_contract_defines_backend_owned_delegation_boundaries() {
    let contract = rx_native_team_contract();

    assert!(contract.contains("team_add_member"));
    assert!(contract.contains("team_assign"));
    assert!(contract.contains("team_list"));
    assert!(contract.contains("team_stop_member"));
    assert!(contract.contains("normalized name"));
    assert!(contract.contains("Never pass or replay ids"));
    assert!(contract.contains("useful independent work"));
    assert!(contract.contains("backend owns member generations, reservations, run bindings"));
    assert!(contract.contains("Wait for required member results"));
    assert!(contract.contains("If you stay solo, briefly explain why"));
}

#[test]
fn apply_rx_native_team_contract_appends_contract_after_existing_prompt() {
    let prompt = apply_rx_native_team_contract("Existing trusted prompt.".to_string());

    assert!(prompt.starts_with("Existing trusted prompt.\n\n"));
    assert!(prompt.ends_with(rx_native_team_contract()));
}

#[test]
fn team_origin_prompt_is_attributed_and_xml_escaped() {
    let message = TeamMessage {
        sequence: 7,
        sender_kind: TeamMessageActorKind::Member,
        kind: TeamMessageKind::Result,
        content: "<unsafe>&done".to_string(),
    };

    let rendered = render_team_origin_message(&message, Some("Worker \"<one>\""));

    assert!(rendered.contains("sender=\"Worker &quot;&lt;one&gt;&quot;\""));
    assert!(rendered.contains("&lt;unsafe&gt;&amp;done"));
    assert!(rendered.starts_with("<team_message "));
    assert!(rendered.ends_with("</team_message>"));
}

#[test]
fn team_origin_prompt_renders_exact_envelope() {
    let message = TeamMessage {
        sequence: -3,
        sender_kind: TeamMessageActorKind::Coordinator,
        kind: TeamMessageKind::Instruction,
        content: "go".to_string(),
    };
    assert_eq!(
        render_team_origin_message(&message, Some("ignored")),
        "<team_message sequence=\"-3\" sender_kind=\"coordinator\" sender=\"coordinator\" kind=\"instruction\">go</team_message>"
    );
    let from_member = TeamMessage {
        sequence: 12,
        sender_kind: TeamMessageActorKind::Member,
        kind: TeamMessageKind::Question,
        content: "it's".to_string(),
    };
    assert_eq!(
        render_team_origin_message(&from_member, None),
        "<team_message sequence=\"12\" sender_kind=\"member\" sender=\"member\" kind=\"question\">it's</team_message>"
    );
}

#[test]
fn exit_actions_parse_their_names_only() {
    assert_eq!(TeamExitAction::parse("suspend").unwrap(), TeamExitAction::Suspend);
    assert_eq!(
        TeamExitAction::parse("drain_and_close").unwrap(),
        TeamExitAction::DrainAndClose
    );
    assert_eq!(
        TeamExitAction::parse("close").unwrap_err(),
        "managed Team exit action must be suspend or drain_and_close"
    );
    assert_eq!(TeamExitAction::DrainAndClose.as_str(), "drain_and_close");
    assert_eq!(
        exit_action_for_coordination_change(None).unwrap(),
        TeamExitAction::DrainAndClose
    );
    assert_eq!(
        exit_action_for_coordination_change(Some("suspend")).unwrap(),
        TeamExitAction::Suspend
    );
}

#[test]
fn pending_exit_marker_is_never_changed_mid_flight() {
    assert_eq!(check_pending_exit(None, TeamExitAction::Suspend), Ok(true));
    assert_eq!(check_pending_exit(Some("suspend"), TeamExitAction::Suspend), Ok(false));
    assert_eq!(
        check_pending_exit(Some("suspend"), TeamExitAction::DrainAndClose).unwrap_err(),
        "managed Team already has a different exit action pending"
    );
}

#[test]
fn binding_status_advances_through_legal_steps_only() {
    let mut status = TeamRunBindingStatus::Planned;
    assert!(advance_binding_status(&mut status, TeamRunBindingStatus::Terminal));
    assert_eq!(status, TeamRunBindingStatus::Terminal);

    let mut live = TeamRunBindingStatus::Launching;
    assert!(advance_binding_status(&mut live, TeamRunBindingStatus::Cancelled));
    assert_eq!(live, TeamRunBindingStatus::Cancelled);

    let mut settled = TeamRunBindingStatus::Failed;
    assert!(!advance_binding_status(&mut settled, TeamRunBindingStatus::Running));

    let mut running = TeamRunBindingStatus::Running;
    assert!(!advance_binding_status(&mut running, TeamRunBindingStatus::Launching));
    assert!(advance_binding_status(&mut running, TeamRunBindingStatus::Running));
}

#[test]
fn startup_barrier_fails_closed_until_it_has_run() {
    let mut barrier = ManagedTeamStartupBarrier::new();
    assert!(barrier.should_fence_resumption(CoordinationMode::RxNativeTeam, "conv-1"));
    assert!(!barrier.should_fence_resumption(CoordinationMode::Solo, "conv-1"));
    assert!(!barrier.release_delivery_projection());
    assert!(!barrier.delivery_projection_released());

    barrier.record_failure();
    assert!(barrier.should_fence_resumption(CoordinationMode::RxNativeTeam, "conv-1"));
    assert!(!barrier.release_delivery_projection());

    barrier.record_open_sessions(vec!["conv-open".to_string()]);
    assert!(barrier.should_fence_resumption(CoordinationMode::RxNativeTeam, "conv-open"));
    assert!(!barrier.should_fence_resumption(CoordinationMode::RxNativeTeam, "conv-1"));
    assert!(!barrier.delivery_projection_released());
    assert!(barrier.release_delivery_projection());
    assert!(barrier.delivery_projection_released());
    assert!(barrier.should_fence_resumption(CoordinationMode::RxNativeTeam, "conv-open"));
}

fn run(member: Option<&str>, tokens: u64, cost_micros: u64) -> TeamRunUsage {
    TeamRunUsage {
        member_id: member.map(str::to_string),
        tokens,
        cost_micros,
    }
}

#[test]
fn usage_is_summed_per_member_in_member_order() {
    let usage = aggregate_team_usage(&vec![
        run(Some("m-b"), 10, 1),
        run(None, 5, 2),
        run(Some("m-a"), 7, 3),
        run(Some("m-b"), 1, 4),
    ])
    .unwrap();
    assert_eq!(usage.tokens, 23);
    assert_eq!(usage.cost_micros, 10);
    let members: Vec<(Option<String>, u64, u64)> = usage
        .members
        .iter()
        .map(|m| (m.member_id.clone(), m.tokens, m.cost_micros))
        .collect();
    assert_eq!(
        members,
        vec![
            (None, 5, 2),
            (Some("m-a".to_string()), 7, 3),
            (Some("m-b".to_string()), 11, 5),
        ]
    );
}

#[test]
fn usage_overflow_is_reported_not_wrapped() {
    let error = aggregate_team_usage(&vec![run(Some("m"), u64::MAX, 0), run(None, 1, 0)]).unwrap_err();
    assert_eq!(error, "managed Team token usage overflowed");
    let error = aggregate_team_usage(&vec![run(Some("m"), 0, u64::MAX), run(Some("m"), 0, 1)]).unwrap_err();
    assert_eq!(error, "managed Team cost usage overflowed");
    // A member's cost overflowing before any token sum does is reported as cost.
    let error = aggregate_team_usage(&vec![
        run(Some("a"), 0, u64::MAX),
        run(Some("a"), 0, 1),
        run(Some("b"), u64::MAX, 0),
        run(Some("c"), 1, 0),
    ])
    .unwrap_err();
    assert_eq!(error, "managed Team cost usage overflowed");
    // Both totals overflow across members: the token total is checked first.
    let error = aggregate_team_usage(&vec![
        run(Some("a"), u64::MAX, u64::MAX),
        run(Some("b"), 1, 1),
    ])
    .unwrap_err();
    assert_eq!(error, "managed Team token usage overflowed");
    let empty = aggregate_team_usage(&vec![]).unwrap();
    assert_eq!((empty.tokens, empty.cost_micros, empty.members.len()), (0, 0, 0));
}

#[test]
fn admission_checks_exit_status_and_budgets_in_order() {
    let usage = ManagedTeamUsage {
        tokens: 100,
        cost_micros: 50,
        members: Vec::new(),
    };
    let budget = TeamBudgetPolicy {
        token_limit: Some(100),
        cost_limit_micros: Some(10),
    };
    assert_eq!(
        admit_dispatch(true, true, &usage, Some(budget)).unwrap_err(),
        "managed Team exit is pending; new work is fenced"
    );
    assert_eq!(
        admit_dispatch(false, false, &usage, Some(budget)).unwrap_err(),
        "managed Team session does not admit new work"
    );
    assert_eq!(
        admit_dispatch(false, true, &usage, Some(budget)).unwrap_err(),
        "managed Team token budget is exhausted"
    );
    let cost_only = TeamBudgetPolicy {
        token_limit: None,
        cost_limit_micros: Some(50),
    };
    assert_eq!(
        admit_dispatch(false, true, &usage, Some(cost_only)).unwrap_err(),
        "managed Team cost budget is exhausted"
    );
    assert!(admit_dispatch(false, true, &usage, None).is_ok());
}

#[test]
fn new_sessions_and_bindings_start_from_the_defaults() {
    let session = team_session_at(
        "team-1".to_string(),
        "project-1".to_string(),
        "conv-1".to_string(),
        1_700_000_000_000,
    );
    assert_eq!(session.status, TeamSessionStatus::Active);
    assert_eq!(session.configured_concurrency, DEFAULT_TEAM_CONCURRENCY);
    assert_eq!(session.effective_concurrency, 2);
    assert_eq!(session.automatic_wake_limit, DEFAULT_AUTOMATIC_WAKE_LIMIT);
    assert_eq!(session.created_at, session.updated_at);

    let fresh = new_team_session("project-2".to_string(), "conv-2".to_string());
    assert_eq!(fresh.id.len(), 36);
    assert_eq!(fresh.automatic_wake_limit, 5);

    let binding = coordinator_run_binding_at(
        "binding-1".to_string(),
        "team-1".to_string(),
        "conv-1".to_string(),
        "run-1".to_string(),
        42,
    );
    assert_eq!(binding.status, TeamRunBindingStatus::Planned);
    assert_eq!(binding.trigger_kind, TeamRunTriggerKind::UserCoordinatorTurn);
    assert_eq!(binding.work_classification, TeamWorkClassification::CoordinationOnly);
    assert!(binding.team_member_id.is_none());

    let wake = new_coordinator_wake_run_binding(
        "team-1".to_string(),
        "conv-1".to_string(),
        "run-2".to_string(),
        3,
        9,
    );
    assert_eq!(wake.trigger_kind, TeamRunTriggerKind::WakeBatch);
    assert_eq!(
        (wake.first_message_sequence, wake.last_message_sequence),
        (Some(3), Some(9))
    );
    assert_eq!(wake.id.len(), 36);
}

#[test]
fn only_live_member_runs_count_toward_dispatch() {
    let mut launching = coordinator_run_binding_at(
        "b1".to_string(),
        "t".to_string(),
        "c".to_string(),
        "r1".to_string(),
        0,
    );
    launching.team_member_id = Some("m1".to_string());
    launching.status = TeamRunBindingStatus::Launching;
    let mut coordinator = launching.clone();
    coordinator.team_member_id = None;
    let mut done = launching.clone();
    done.status = TeamRunBindingStatus::Terminal;
    let mut running = launching.clone();
    running.status = TeamRunBindingStatus::Running;
    assert_eq!(
        configured_dispatch_count(&vec![launching, coordinator, done, running]),
        Ok(2)
    );
}

#[test]
fn message_requests_and_senders_are_checked() {
    assert_eq!(
        validate_message_request("  ", "key").unwrap_err(),
        "managed Team message content and idempotency key are required"
    );
    assert!(validate_message_request("hello", "key").is_ok());

    assert_eq!(
        check_coordinator_authority("team-1", "conv-1", "conv-2", false, None).unwrap_err(),
        "coordinator message cannot cross Team boundaries"
    );
    assert_eq!(
        check_coordinator_authority("team-1", "conv-1", "conv-1", true, None).unwrap_err(),
        "coordinator message run has no Team binding"
    );
    let binding = coordinator_run_binding_at(
        "b1".to_string(),
        "team-1".to_string(),
        "conv-1".to_string(),
        "r1".to_string(),
        0,
    );
    assert!(check_coordinator_authority("team-1", "conv-1", "conv-1", true, Some(&binding)).is_ok());
    let mut settled = binding.clone();
    settled.status = TeamRunBindingStatus::Terminal;
    assert_eq!(
        check_coordinator_authority("team-1", "conv-1", "conv-1", true, Some(&settled)).unwrap_err(),
        "coordinator message run is not current Team authority"
    );

    let mut assigned = binding.clone();
    assigned.assignment_id = Some("assign-1".to_string());
    assert!(check_system_sender(&vec![binding.clone(), assigned], "assign-1").is_ok());
    assert_eq!(
        check_system_sender(&vec![binding], "assign-1").unwrap_err(),
        "system message assignment does not belong to this Team"
    );
}

#[test]
fn settlement_signal_is_keyed_by_assignment_and_outcome() {
    let signal = assignment_settled_signal(
        "Worker",
        17,
        "Fix login",
        AgentTaskAssignmentTerminalStatus::Completed,
        None,
        "assign-9",
    );
    assert_eq!(signal.kind, TeamMessageKind::Result);
    assert_eq!(
        signal.content,
        "Member 'Worker' finished task #17 (Fix login) with status Completed"
    );
    assert_eq!(signal.idempotency_key, "team_assignment_settled:assign-9:Completed");

    let failed = assignment_settled_signal(
        "Worker",
        17,
        "Fix login",
        AgentTaskAssignmentTerminalStatus::Failed,
        Some("timeout"),
        "assign-9",
    );
    assert_eq!(failed.kind, TeamMessageKind::Status);
    assert_eq!(
        failed.content,
        "Member 'Worker' finished task #17 (Fix login) with status Failed: timeout"
    );
    assert_ne!(failed.idempotency_key, signal.idempotency_key);
}

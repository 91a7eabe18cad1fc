use ralphx::team_assignment::ManagedTeamWorkspaceRequest;
use ralphx::team_flows::{
    assignment_settles_in_team, check_member_authority, exit_start, plan_drain,
    member_reservation_releases, plan_member_assignment, plan_orphan_recovery, plan_settlement,
    plan_suspend, send_message_step, AssignmentPlanIds, ExitStart, SendStep, TeamAssignmentRef,
    TeamMember, TeamMessageStore, TeamWorkspaceReservation,
};
use ralphx::team_state::advance_binding_status;
use ralphx::team_budget::TeamRunUsage;
use ralphx::team_flows::team_status;
use ralphx::team_lifecycle::{
    coordinator_run_binding_at, team_session_at, TeamRunBinding, TeamSessionStatus,
    TeamWorkClassification,
};
use ralphx::team_messaging::{AgentTaskAssignmentTerminalStatus, TeamMemberStatus};
use ralphx::team_state::{TeamExitAction, TeamRunBindingStatus};

fn member(status: TeamMemberStatus) -> TeamMember {
    TeamMember {
        id: "m1".to_string(),
        team_id: "t1".to_string(),
        normalized_name: "worker".to_string(),
        canonical_agent_name: "ralphx-worker".to_string(),
        generation: 3,
        status,
        current_assignment_id: None,
        current_run_id: None,
        delegated_session_id: None,
        last_error: None,
    }
}

fn working_member() -> TeamMember {
    let mut m = member(TeamMemberStatus::Working);
    m.current_assignment_id = Some("a1".to_string());
    m.current_run_id = Some("run-1".to_string());
    m.delegated_session_id = Some("ds-1".to_string());
    m
}

fn member_binding(status: TeamRunBindingStatus) -> TeamRunBinding {
    let mut b = coordinator_run_binding_at("b1".to_string(), "t1".to_string(), "c1".to_string(), "run-1".to_string(), 0);
    b.team_member_id = Some("m1".to_string());
    b.team_member_generation = Some(3);
    b.assignment_id = Some("a1".to_string());
    b.status = status;
    b.version = 4;
    b
}

fn assignment() -> TeamAssignmentRef {
    TeamAssignmentRef {
        id: "a1".to_string(),
        team_id: Some("t1".to_string()),
        team_member_id: Some("m1".to_string()),
        team_member_generation: Some(3),
        delegated_agent_run_id: Some("run-1".to_string()),
    }
}

fn ids() -> AssignmentPlanIds {
    AssignmentPlanIds {
        assignment_id: "a1".to_string(),
        delegated_session_id: "ds-1".to_string(),
        delegated_conversation_id: "dc-1".to_string(),
        planned_agent_run_id: "run-1".to_string(),
        binding_id: "b1".to_string(),
        reservation_id: "r1".to_string(),
    }
}

#[test]
fn member_authority_needs_team_generation_run_and_live_binding() {
    let m = working_member();
    let b = member_binding(TeamRunBindingStatus::Running);
    assert!(check_member_authority("t1", &m, 3, "run-1", &b).is_ok());
    let stale = Err("member message authority is stale or cross-Team".to_string());
    assert_eq!(check_member_authority("t2", &m, 3, "run-1", &b), stale);
    assert_eq!(check_member_authority("t1", &m, 2, "run-1", &b), stale);
    assert_eq!(check_member_authority("t1", &m, 3, "run-9", &b), stale);
    assert_eq!(
        check_member_authority("t1", &m, 3, "run-1", &member_binding(TeamRunBindingStatus::Terminal)),
        stale
    );
}

#[test]
fn exit_on_a_solo_conversation_changes_nothing() {
    assert_eq!(exit_start(true, Some("suspend"), TeamExitAction::DrainAndClose), Ok(ExitStart::AlreadySolo));
    assert_eq!(exit_start(false, None, TeamExitAction::Suspend), Ok(ExitStart::MarkPending));
    assert_eq!(exit_start(false, Some("suspend"), TeamExitAction::Suspend), Ok(ExitStart::Resume));
    assert_eq!(
        exit_start(false, Some("suspend"), TeamExitAction::DrainAndClose),
        Err("managed Team already has a different exit action pending".to_string())
    );
}

#[test]
fn drain_exit_cancels_active_binding_and_is_idempotent_after_final_mode_write() {
    let session = team_session_at("t1".to_string(), "p1".to_string(), "c1".to_string(), 0);
    let mut done = member_binding(TeamRunBindingStatus::Terminal);
    done.agent_run_id = "run-0".to_string();
    let bindings = vec![done, member_binding(TeamRunBindingStatus::Running)];
    let members = vec![working_member(), member(TeamMemberStatus::Stopped)];
    let plan = plan_drain(session, bindings, members).expect("open Team drains");
    assert_eq!(plan.session.status, TeamSessionStatus::Closed);
    assert_eq!(plan.session.version, 2);
    assert_eq!(plan.cancelled.len(), 1);
    assert_eq!(plan.cancelled[0].status, TeamRunBindingStatus::Cancelled);
    assert_eq!(plan.cancelled[0].last_error.as_deref(), Some("team_exit_drain"));
    assert_eq!(plan.cancelled[0].version, 5);
    assert_eq!(plan.settled_runs, vec!["run-0".to_string(), "run-1".to_string()]);
    assert_eq!(plan.released_assignments, vec!["a1".to_string(), "a1".to_string()]);
    assert_eq!(plan.stopped.len(), 1);
    assert_eq!(plan.stopped[0].status, TeamMemberStatus::Stopped);
    assert!(plan.stopped[0].current_run_id.is_none());
    assert!(plan.stopped[0].current_assignment_id.is_none());
    assert!(plan.stopped[0].delegated_session_id.is_none());
    let closed = plan.session;
    let again = plan_drain(closed, vec![member_binding(TeamRunBindingStatus::Running)], Vec::new());
    match again {
        Err(s) => assert_eq!((s.status, s.version), (TeamSessionStatus::Closed, 2)),
        Ok(_) => panic!("a closed Team is not drained again"),
    }
}

#[test]
fn suspend_parks_only_idle_members() {
    let session = team_session_at("t1".to_string(), "p1".to_string(), "c1".to_string(), 0);
    let plan = plan_suspend(session, vec![member(TeamMemberStatus::Idle), working_member()]).expect("suspends");
    assert_eq!(plan.session.status, TeamSessionStatus::Suspended);
    assert_eq!(plan.suspended.len(), 1);
    assert_eq!(plan.suspended[0].status, TeamMemberStatus::Suspended);
    assert!(plan_suspend(plan.session, Vec::new()).is_err());
}

#[test]
fn read_only_assignment_plans_working_member_without_reservation() {
    let plan = plan_member_assignment(0, 2, member(TeamMemberStatus::Idle), 3, TeamWorkClassification::ReadOnly, None, ids(), 7)
        .expect("planned");
    assert_eq!(plan.member.status, TeamMemberStatus::Working);
    assert_eq!(plan.member.current_run_id.as_deref(), Some("run-1"));
    assert_eq!(plan.member.current_assignment_id.as_deref(), Some("a1"));
    assert_eq!(plan.assignment.team_id.as_deref(), Some("t1"));
    assert_eq!(plan.assignment.team_member_id.as_deref(), Some("m1"));
    assert_eq!(plan.assignment.team_member_generation, Some(3));
    assert_eq!(plan.binding.status, TeamRunBindingStatus::Planned);
    assert_eq!(plan.binding.team_member_id.as_deref(), Some("m1"));
    assert_eq!(plan.binding.team_member_generation, Some(3));
    assert!(plan.reservation.is_none());
}

#[test]
fn write_assignment_reserves_its_workspace() {
    let ws = ManagedTeamWorkspaceRequest {
        writable_paths: vec!["src".to_string()],
        generated_outputs: Vec::new(),
        resource_locks: vec!["db".to_string()],
    };
    let plan = plan_member_assignment(0, 2, member(TeamMemberStatus::Idle), 3, TeamWorkClassification::Write, Some(ws), ids(), 7)
        .expect("planned");
    let res = plan.reservation.expect("reservation");
    assert_eq!(res.writable_paths, vec!["src".to_string()]);
    assert_eq!(res.team_member_generation, 3);
    assert_eq!(res.attempt_number, 1);
    assert_eq!(
        plan_member_assignment(0, 2, member(TeamMemberStatus::Idle), 2, TeamWorkClassification::ReadOnly, None, ids(), 7)
            .unwrap_err(),
        "managed Team member generation is stale"
    );
}

#[test]
fn settlement_moves_the_running_binding_and_idles_the_current_member() {
    let a = assignment();
    assert!(assignment_settles_in_team(&a));
    let w = plan_settlement(&a, working_member(), &Vec::new(), member_binding(TeamRunBindingStatus::Running), AgentTaskAssignmentTerminalStatus::Failed, Some("boom"))
        .expect("settles");
    let b = w.binding.expect("binding moves");
    assert_eq!(b.status, TeamRunBindingStatus::Failed);
    assert_eq!(b.last_error.as_deref(), Some("boom"));
    assert_eq!(b.version, 5);
    let m = w.member.expect("member idles");
    assert_eq!(m.status, TeamMemberStatus::Idle);
    assert!(m.current_run_id.is_none() && m.current_assignment_id.is_none() && m.delegated_session_id.is_none());
    assert_eq!(m.last_error.as_deref(), Some("boom"));
}

#[test]
fn settlement_of_terminal_binding_and_stale_member_writes_nothing() {
    let mut moved_on = working_member();
    moved_on.current_assignment_id = Some("a2".to_string());
    let w = plan_settlement(&assignment(), moved_on, &Vec::new(), member_binding(TeamRunBindingStatus::Terminal), AgentTaskAssignmentTerminalStatus::Completed, None)
        .expect("settles");
    assert!(w.binding.is_none() && w.member.is_none());
    let mut solo = assignment();
    solo.team_id = None;
    assert!(!assignment_settles_in_team(&solo));
}

#[test]
fn settlement_refuses_foreign_or_unsettleable_bindings() {
    let mut other = member_binding(TeamRunBindingStatus::Running);
    other.team_member_generation = Some(2);
    assert_eq!(
        plan_settlement(&assignment(), working_member(), &Vec::new(), other, AgentTaskAssignmentTerminalStatus::Completed, None).unwrap_err().error,
        "Team run binding is not authoritative for settled assignment"
    );
    assert_eq!(
        plan_settlement(&assignment(), working_member(), &Vec::new(), member_binding(TeamRunBindingStatus::Planned), AgentTaskAssignmentTerminalStatus::Completed, None)
            .unwrap_err()
            .error,
        "Team run binding is not running or terminal for settled assignment"
    );
    let mut stranger = working_member();
    stranger.team_id = "t9".to_string();
    assert_eq!(
        plan_settlement(&assignment(), stranger, &Vec::new(), member_binding(TeamRunBindingStatus::Running), AgentTaskAssignmentTerminalStatus::Completed, None)
            .unwrap_err()
            .error,
        "Team assignment member belongs to a different Team"
    );
}

#[test]
fn orphan_recovery_fails_the_live_binding_with_the_reason() {
    let w = plan_orphan_recovery(&assignment(), working_member(), &Vec::new(), Some(member_binding(TeamRunBindingStatus::Launching)), "orphaned")
        .expect("recovers");
    let b = w.binding.expect("binding fails");
    assert_eq!(b.status, TeamRunBindingStatus::Failed);
    assert_eq!(b.last_error.as_deref(), Some("orphaned"));
    assert_eq!(w.member.expect("member idles").last_error.as_deref(), Some("orphaned"));
    let none = plan_orphan_recovery(&assignment(), member(TeamMemberStatus::Idle), &Vec::new(), None, "orphaned").expect("recovers");
    assert!(none.binding.is_none() && none.member.is_none());
}

#[test]
fn duplicate_idempotency_key_replays_the_stored_envelope() {
    let stored = ("message-1".to_string(), vec!["delivery-1".to_string()]);
    match send_message_step("hello", "key-1", Some(stored.clone())).unwrap() {
        SendStep::Replay(e) => assert_eq!(e, stored),
        SendStep::Create => panic!("a stored envelope is replayed"),
    }
    assert!(matches!(send_message_step::<()>("hello", "key-1", None), Ok(SendStep::Create)));
    assert_eq!(
        send_message_step::<()>("  ", "key-1", None).unwrap_err(),
        "managed Team message content and idempotency key are required"
    );
}

fn reservation(id: &str, member: &str, generation: i64) -> TeamWorkspaceReservation {
    TeamWorkspaceReservation {
        id: id.to_string(),
        team_id: "t1".to_string(),
        team_member_id: member.to_string(),
        team_member_generation: generation,
        writable_paths: Vec::new(),
        generated_outputs: Vec::new(),
        resource_locks: Vec::new(),
        work_classification: TeamWorkClassification::Write,
        attempt_number: 1,
    }
}

#[test]
fn settlement_releases_only_the_members_current_reservations() {
    let rs = vec![reservation("r1", "m1", 3), reservation("r2", "m1", 2), reservation("r3", "m9", 3)];
    assert_eq!(member_reservation_releases(&rs, &assignment()), vec!["r1".to_string()]);
    let w = plan_settlement(&assignment(), working_member(), &rs, member_binding(TeamRunBindingStatus::Running), AgentTaskAssignmentTerminalStatus::Completed, None)
        .expect("settles");
    assert_eq!(w.released_reservations, vec!["r1".to_string()]);
    let refused = plan_settlement(&assignment(), working_member(), &rs, member_binding(TeamRunBindingStatus::Planned), AgentTaskAssignmentTerminalStatus::Completed, None)
        .unwrap_err();
    assert_eq!(refused.released_reservations, vec!["r1".to_string()]);
    let mut stranger = working_member();
    stranger.team_id = "t9".to_string();
    let refused = plan_settlement(&assignment(), stranger, &rs, member_binding(TeamRunBindingStatus::Running), AgentTaskAssignmentTerminalStatus::Completed, None)
        .unwrap_err();
    assert!(refused.released_reservations.is_empty());
    let w = plan_orphan_recovery(&assignment(), working_member(), &rs, None, "orphaned").expect("recovers");
    assert_eq!(w.released_reservations, vec!["r1".to_string()]);
}

#[test]
fn duplicate_idempotency_key_replays_envelope_without_duplicate_delivery() {
    let mut store = TeamMessageStore::new();
    let first = store
        .send("t1", "hello", "key-1", "message-1".to_string(), vec!["delivery-1".to_string()])
        .expect("stored");
    let second = store
        .send("t1", "hello", "key-1", "message-2".to_string(), vec!["delivery-2".to_string()])
        .expect("replayed");
    assert_eq!(first, second);
    assert_eq!(first, ("message-1".to_string(), vec!["delivery-1".to_string()]));
    let other_team = store
        .send("t2", "hello", "key-1", "message-3".to_string(), Vec::new())
        .expect("stored");
    assert_eq!(other_team.0, "message-3");
    assert_eq!(
        store.send("t1", " ", "key-1", "message-4".to_string(), Vec::new()).unwrap_err(),
        "managed Team message content and idempotency key are required"
    );
}

#[test]
fn advancing_to_an_unreachable_status_reports_false() {
    let mut status = TeamRunBindingStatus::Planned;
    assert!(advance_binding_status(&mut status, TeamRunBindingStatus::Running));
    assert_eq!(status, TeamRunBindingStatus::Running);
    let mut settled = TeamRunBindingStatus::Cancelled;
    assert!(!advance_binding_status(&mut settled, TeamRunBindingStatus::Planned));
    assert_ne!(settled, TeamRunBindingStatus::Planned);
}

#[test]
fn assignment_request_supplies_the_plan_identifiers() {
    let request = ralphx::team_flows::ManagedTeamAssignmentRequest {
        team_id: "t1".to_string(),
        member_name: "worker".to_string(),
        expected_member_generation: 3,
        caller_agent_run_id: "coord-run".to_string(),
        task_ref: "task-1".to_string(),
        delegated_session_id: "ds-1".to_string(),
        delegated_conversation_id: "dc-1".to_string(),
        planned_agent_run_id: "run-1".to_string(),
        work_classification: TeamWorkClassification::ReadOnly,
        workspace: None,
    };
    let ids = request.plan_ids("a1".to_string(), "b1".to_string(), "r1".to_string());
    assert_eq!(ids.delegated_session_id, "ds-1");
    assert_eq!(ids.delegated_conversation_id, "dc-1");
    assert_eq!(ids.planned_agent_run_id, "run-1");
    let plan = plan_member_assignment(
        0,
        2,
        member(TeamMemberStatus::Idle),
        request.expected_member_generation,
        request.work_classification,
        request.workspace.clone(),
        ids,
        7,
    )
    .unwrap();
    assert_eq!(plan.binding.agent_run_id, "run-1");
    assert_eq!(plan.binding.conversation_id, "dc-1");
}

#[test]
fn team_status_reads_session_roster_and_usage() {
    let runs = vec![
        TeamRunUsage { member_id: None, tokens: 10, cost_micros: 5 },
        TeamRunUsage { member_id: Some("m1".to_string()), tokens: 7, cost_micros: 1 },
    ];
    assert!(team_status(None, Vec::new(), &runs).unwrap().is_none());
    let session = team_session_at("t1".to_string(), "p1".to_string(), "c1".to_string(), 0);
    let status = team_status(Some(session), vec![member(TeamMemberStatus::Idle)], &runs)
        .unwrap()
        .unwrap();
    assert_eq!(status.session.id, "t1");
    assert_eq!(status.members.len(), 1);
    assert_eq!(status.usage.tokens, 17);
    assert_eq!(status.usage.cost_micros, 6);
    let overflow = vec![
        TeamRunUsage { member_id: None, tokens: u64::MAX, cost_micros: 0 },
        TeamRunUsage { member_id: Some("m1".to_string()), tokens: 1, cost_micros: 0 },
    ];
    let session = team_session_at("t1".to_string(), "p1".to_string(), "c1".to_string(), 0);
    assert!(team_status(Some(session), Vec::new(), &overflow).is_err());
}

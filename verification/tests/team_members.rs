use ralphx::agents::AgentHarnessKind;
use ralphx::team_assignment::{
    binding_cancelled_by_drain, check_assignment_admission, check_orphan_member_team,
    member_stopped_by_drain, member_suspended_by_suspend, orphan_binding_should_fail,
    orphan_member_should_idle, reservation_releasable, settlement_binding_step,
    terminal_binding_release_target, validate_member_spec, ManagedTeamMemberSpec,
    ManagedTeamWorkspaceRequest,
};
use ralphx::team_lifecycle::{coordinator_run_binding_at, TeamWorkClassification};
use ralphx::team_messaging::{AgentTaskAssignmentTerminalStatus, TeamMemberStatus};
use ralphx::team_state::TeamRunBindingStatus;

fn spec(canonical: &str, role: &str) -> ManagedTeamMemberSpec {
    ManagedTeamMemberSpec {
        name: "Worker".to_string(),
        canonical_agent_name: canonical.to_string(),
        role_summary: role.to_string(),
        harness: Some(AgentHarnessKind::Codex),
        logical_model: None,
        logical_effort: None,
    }
}

fn workspace() -> ManagedTeamWorkspaceRequest {
    ManagedTeamWorkspaceRequest {
        writable_paths: vec!["src".to_string()],
        generated_outputs: Vec::new(),
        resource_locks: Vec::new(),
    }
}

#[test]
fn member_spec_needs_agent_and_role() {
    assert!(validate_member_spec(&spec("ralphx-worker", "Builds things")).is_ok());
    assert_eq!(
        validate_member_spec(&spec("  ", "Builds things")),
        Err("team member canonical agent name is required".to_string())
    );
    assert_eq!(
        validate_member_spec(&spec("ralphx-worker", "\t")),
        Err("team member role summary is required".to_string())
    );
}

#[test]
fn write_assignment_fails_closed_without_workspace_reservation() {
    let ws = workspace();
    assert_eq!(
        check_assignment_admission(0, 2, true, TeamMemberStatus::Idle, false, TeamWorkClassification::Write, None),
        Err("write-classified Team assignments require a workspace reservation".to_string())
    );
    assert!(check_assignment_admission(0, 2, true, TeamMemberStatus::Idle, false, TeamWorkClassification::Write, Some(&ws)).is_ok());
    assert!(check_assignment_admission(0, 2, true, TeamMemberStatus::Idle, false, TeamWorkClassification::ReadOnly, None).is_ok());
}

#[test]
fn admission_refusals_come_in_order() {
    assert_eq!(
        check_assignment_admission(2, 2, false, TeamMemberStatus::Working, true, TeamWorkClassification::Write, None),
        Err("managed Team configured concurrency is exhausted".to_string())
    );
    assert_eq!(
        check_assignment_admission(1, 2, false, TeamMemberStatus::Working, true, TeamWorkClassification::Write, None),
        Err("managed Team member generation is stale".to_string())
    );
    assert_eq!(
        check_assignment_admission(1, 2, true, TeamMemberStatus::Working, false, TeamWorkClassification::ReadOnly, None),
        Err("managed Team member is busy".to_string())
    );
    assert_eq!(
        check_assignment_admission(1, 2, true, TeamMemberStatus::Idle, true, TeamWorkClassification::ReadOnly, None),
        Err("managed Team member is busy".to_string())
    );
}

#[test]
fn settlement_moves_only_running_bindings() {
    assert_eq!(
        settlement_binding_step(TeamRunBindingStatus::Running, AgentTaskAssignmentTerminalStatus::Completed),
        Ok(Some(TeamRunBindingStatus::Terminal))
    );
    assert_eq!(
        settlement_binding_step(TeamRunBindingStatus::Running, AgentTaskAssignmentTerminalStatus::Failed),
        Ok(Some(TeamRunBindingStatus::Failed))
    );
    assert_eq!(
        settlement_binding_step(TeamRunBindingStatus::Cancelled, AgentTaskAssignmentTerminalStatus::Completed),
        Ok(None)
    );
    assert_eq!(
        settlement_binding_step(TeamRunBindingStatus::Planned, AgentTaskAssignmentTerminalStatus::Completed),
        Err("Team run binding is not running or terminal for settled assignment".to_string())
    );
}

#[test]
fn drain_and_suspend_pick_their_members_and_bindings() {
    assert!(member_stopped_by_drain(TeamMemberStatus::Working));
    assert!(!member_stopped_by_drain(TeamMemberStatus::Stopped));
    assert!(binding_cancelled_by_drain(TeamRunBindingStatus::Launching));
    assert!(!binding_cancelled_by_drain(TeamRunBindingStatus::Terminal));
    assert!(member_suspended_by_suspend(TeamMemberStatus::Idle));
    assert!(!member_suspended_by_suspend(TeamMemberStatus::Working));
}

#[test]
fn recovery_releases_only_the_exact_generation() {
    assert!(reservation_releasable("t", "m", 3, "t", "m", 3));
    assert!(!reservation_releasable("t", "m", 3, "t", "m", 4));
    assert!(!reservation_releasable("t", "m", 3, "t", "n", 3));
}

#[test]
fn orphan_recovery_fails_live_bindings_and_idles_the_working_member() {
    assert_eq!(check_orphan_member_team("t", "t"), Ok(()));
    assert_eq!(
        check_orphan_member_team("t", "u"),
        Err("Team assignment member belongs to a different Team".to_string())
    );
    assert!(orphan_binding_should_fail(Some("a1"), TeamRunBindingStatus::Running, "a1"));
    assert!(!orphan_binding_should_fail(Some("a1"), TeamRunBindingStatus::Terminal, "a1"));
    assert!(!orphan_binding_should_fail(Some("a2"), TeamRunBindingStatus::Planned, "a1"));
    assert!(!orphan_binding_should_fail(None, TeamRunBindingStatus::Planned, "a1"));
    assert!(orphan_member_should_idle(true, Some("a1"), TeamMemberStatus::Working, "a1"));
    assert!(!orphan_member_should_idle(false, Some("a1"), TeamMemberStatus::Working, "a1"));
    assert!(!orphan_member_should_idle(true, Some("a1"), TeamMemberStatus::Idle, "a1"));
}

#[test]
fn terminal_bindings_name_their_reservation_owner() {
    let mut b = coordinator_run_binding_at("b".to_string(), "t".to_string(), "c".to_string(), "r".to_string(), 0);
    assert_eq!(terminal_binding_release_target(&b), Ok(None));
    b.assignment_id = Some("a1".to_string());
    assert_eq!(terminal_binding_release_target(&b), Ok(None));
    b.status = TeamRunBindingStatus::Failed;
    assert_eq!(
        terminal_binding_release_target(&b),
        Err("terminal Team binding has no member identity".to_string())
    );
    b.team_member_id = Some("m1".to_string());
    assert_eq!(
        terminal_binding_release_target(&b),
        Err("terminal Team binding has no member generation".to_string())
    );
    b.team_member_generation = Some(4);
    assert_eq!(
        terminal_binding_release_target(&b),
        Ok(Some(("a1".to_string(), "m1".to_string(), 4)))
    );
}

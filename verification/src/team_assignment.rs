//! The decisions of Team member assignment: who may be added, when an
//! assignment may be planned, how a settled assignment moves its binding,
//! and what exit and recovery release.
use vstd::prelude::*;

use crate::agents::AgentHarnessKind;
use crate::team_lifecycle::{TeamRunBinding, TeamWorkClassification};
use crate::team_messaging::{AgentTaskAssignmentTerminalStatus, TeamMemberStatus};
use crate::team_state::{can_step, is_live, TeamRunBindingStatus};
use crate::text::{copy_str, is_blank, str_eq, str_is_blank};

verus! {

/// The request to add a member to a Team.
#[derive(Debug, Clone)]
pub struct ManagedTeamMemberSpec {
    pub name: String,
    pub canonical_agent_name: String,
    pub role_summary: String,
    pub harness: Option<AgentHarnessKind>,
    pub logical_model: Option<String>,
    /// The requested effort level, by name.
    pub logical_effort: Option<String>,
}

/// The workspace an assignment reserves: the paths it may write, the
/// outputs it generates, and the resources it locks.
#[derive(Debug, Clone)]
pub struct ManagedTeamWorkspaceRequest {
    pub writable_paths: Vec<String>,
    pub generated_outputs: Vec<String>,
    pub resource_locks: Vec<String>,
}

/// A member needs a canonical agent and a role summary, neither blank.
pub fn validate_member_spec(spec: &ManagedTeamMemberSpec) -> (r: Result<(), String>)
    ensures
        is_blank(spec.canonical_agent_name@) ==> (r matches Err(e) && e@
            == "team member canonical agent name is required"@),
        !is_blank(spec.canonical_agent_name@) && is_blank(spec.role_summary@) ==> (r matches Err(e)
            && e@ == "team member role summary is required"@),
        !is_blank(spec.canonical_agent_name@) && !is_blank(spec.role_summary@) ==> r is Ok,
{
    if str_is_blank(spec.canonical_agent_name.as_str()) {
        return Err(copy_str("team member canonical agent name is required"));
    }
    if str_is_blank(spec.role_summary.as_str()) {
        return Err(copy_str("team member role summary is required"));
    }
    Ok(())
}

/// Why an assignment may not be planned, checked in order: the Team's
/// configured concurrency, the member's generation, the member being busy,
/// and a write assignment without a workspace reservation.
pub open spec fn assignment_refusal(
    dispatch_count: u32,
    configured_concurrency: u32,
    generation_current: bool,
    member_status: TeamMemberStatus,
    member_has_assignment: bool,
    work: TeamWorkClassification,
    has_workspace: bool,
) -> Option<Seq<char>> {
    if dispatch_count >= configured_concurrency {
        Some("managed Team configured concurrency is exhausted"@)
    } else if !generation_current {
        Some("managed Team member generation is stale"@)
    } else if member_status != TeamMemberStatus::Idle || member_has_assignment {
        Some("managed Team member is busy"@)
    } else if work == TeamWorkClassification::Write && !has_workspace {
        Some("write-classified Team assignments require a workspace reservation"@)
    } else {
        None
    }
}

pub fn check_assignment_admission(
    dispatch_count: u32,
    configured_concurrency: u32,
    generation_current: bool,
    member_status: TeamMemberStatus,
    member_has_assignment: bool,
    work: TeamWorkClassification,
    workspace: Option<&ManagedTeamWorkspaceRequest>,
) -> (r: Result<(), String>)
    ensures
        match assignment_refusal(
            dispatch_count,
            configured_concurrency,
            generation_current,
            member_status,
            member_has_assignment,
            work,
            workspace is Some,
        ) {
            Some(m) => r matches Err(e) && e@ == m,
            None => r is Ok,
        },
{
    if dispatch_count >= configured_concurrency {
        return Err(copy_str("managed Team configured concurrency is exhausted"));
    }
    if !generation_current {
        return Err(copy_str("managed Team member generation is stale"));
    }
    if member_status != TeamMemberStatus::Idle || member_has_assignment {
        return Err(copy_str("managed Team member is busy"));
    }
    if work == TeamWorkClassification::Write && workspace.is_none() {
        return Err(copy_str("write-classified Team assignments require a workspace reservation"));
    }
    Ok(())
}

/// The binding status an assignment's outcome settles it in.
pub open spec fn settled_status(s: AgentTaskAssignmentTerminalStatus) -> TeamRunBindingStatus {
    match s {
        AgentTaskAssignmentTerminalStatus::Completed => TeamRunBindingStatus::Terminal,
        AgentTaskAssignmentTerminalStatus::Failed => TeamRunBindingStatus::Failed,
        AgentTaskAssignmentTerminalStatus::Cancelled => TeamRunBindingStatus::Cancelled,
    }
}

pub open spec fn is_settled(s: TeamRunBindingStatus) -> bool {
    s == TeamRunBindingStatus::Terminal || s == TeamRunBindingStatus::Cancelled || s
        == TeamRunBindingStatus::Failed
}

/// How settlement moves a binding: a running binding steps to the outcome's
/// status; an already settled binding stays; any other is refused.
pub fn settlement_binding_step(binding_status: TeamRunBindingStatus, outcome: AgentTaskAssignmentTerminalStatus) -> (r:
    Result<Option<TeamRunBindingStatus>, String>)
    ensures
        binding_status == TeamRunBindingStatus::Running ==> r == Ok::<
            Option<TeamRunBindingStatus>,
            String,
        >(Some(settled_status(outcome))),
        is_settled(binding_status) ==> r == Ok::<Option<TeamRunBindingStatus>, String>(None),
        binding_status != TeamRunBindingStatus::Running && !is_settled(binding_status) ==> (r matches Err(
            e,
        ) && e@ == "Team run binding is not running or terminal for settled assignment"@),
{
    match binding_status {
        TeamRunBindingStatus::Running => Ok(
            Some(
                match outcome {
                    AgentTaskAssignmentTerminalStatus::Completed => TeamRunBindingStatus::Terminal,
                    AgentTaskAssignmentTerminalStatus::Failed => TeamRunBindingStatus::Failed,
                    AgentTaskAssignmentTerminalStatus::Cancelled => TeamRunBindingStatus::Cancelled,
                },
            ),
        ),
        TeamRunBindingStatus::Terminal | TeamRunBindingStatus::Cancelled | TeamRunBindingStatus::Failed => Ok(None),
        _ => Err(copy_str("Team run binding is not running or terminal for settled assignment")),
    }
}

/// Settlement only ever takes a legal single step, and only from a running
/// binding to a settled status.
pub proof fn law_settlement_steps_are_legal(outcome: AgentTaskAssignmentTerminalStatus)
    ensures
        can_step(TeamRunBindingStatus::Running, settled_status(outcome)),
        is_settled(settled_status(outcome)),
{
}

/// Settlement records the assignment's own outcome: a completed assignment's
/// binding ends `Terminal`, a failed one `Failed`, a cancelled one
/// `Cancelled`; so two different outcomes never settle a binding alike.
pub proof fn law_settlement_preserves_the_outcome(
    a: AgentTaskAssignmentTerminalStatus,
    b: AgentTaskAssignmentTerminalStatus,
)
    ensures
        settled_status(AgentTaskAssignmentTerminalStatus::Completed) == TeamRunBindingStatus::Terminal,
        settled_status(AgentTaskAssignmentTerminalStatus::Failed) == TeamRunBindingStatus::Failed,
        settled_status(AgentTaskAssignmentTerminalStatus::Cancelled) == TeamRunBindingStatus::Cancelled,
        settled_status(a) == settled_status(b) ==> a == b,
{
}

/// Drain stops every member that is not already stopping or stopped.
pub open spec fn stopped_by_drain(s: TeamMemberStatus) -> bool {
    s == TeamMemberStatus::Working || s == TeamMemberStatus::AwaitingInput || s
        == TeamMemberStatus::AwaitingApproval || s == TeamMemberStatus::Idle || s
        == TeamMemberStatus::Suspended || s == TeamMemberStatus::Failed
}

pub fn member_stopped_by_drain(status: TeamMemberStatus) -> (b: bool)
    ensures
        b == stopped_by_drain(status),
{
    match status {
        TeamMemberStatus::Working | TeamMemberStatus::AwaitingInput | TeamMemberStatus::AwaitingApproval
        | TeamMemberStatus::Idle | TeamMemberStatus::Suspended | TeamMemberStatus::Failed => true,
        _ => false,
    }
}

/// After a drain no member is left active: drain stops exactly the members
/// that are not already stopping or stopped.
pub proof fn law_drain_leaves_no_member_active(s: TeamMemberStatus)
    ensures
        stopped_by_drain(s) <==> (s != TeamMemberStatus::Stopping && s != TeamMemberStatus::Stopped),
{
}

/// Drain cancels every binding that could still launch or run.
pub fn binding_cancelled_by_drain(status: TeamRunBindingStatus) -> (b: bool)
    ensures
        b == is_live(status),
{
    status == TeamRunBindingStatus::Planned || status == TeamRunBindingStatus::Launching || status
        == TeamRunBindingStatus::Running
}

/// Suspension only parks idle members; busy members finish first.
pub fn member_suspended_by_suspend(status: TeamMemberStatus) -> (b: bool)
    ensures
        b == (status == TeamMemberStatus::Idle),
{
    status == TeamMemberStatus::Idle
}

/// A reservation that recovery may release for a settled binding: held by
/// the binding's Team, member and member generation.
pub open spec fn releasable_for(
    reservation_team: Seq<char>,
    reservation_member: Seq<char>,
    reservation_generation: i64,
    team: Seq<char>,
    member: Seq<char>,
    generation: i64,
) -> bool {
    reservation_team == team && reservation_member == member && reservation_generation == generation
}

pub fn reservation_releasable(
    reservation_team: &str,
    reservation_member: &str,
    reservation_generation: i64,
    team: &str,
    member: &str,
    generation: i64,
) -> (b: bool)
    ensures
        b == releasable_for(
            reservation_team@,
            reservation_member@,
            reservation_generation,
            team@,
            member@,
            generation,
        ),
{
    str_eq(reservation_team, team) && str_eq(reservation_member, member) && reservation_generation
        == generation
}

/// Orphan recovery refuses a member of another Team.
pub fn check_orphan_member_team(member_team: &str, assignment_team: &str) -> (r: Result<(), String>)
    ensures
        member_team@ == assignment_team@ ==> r is Ok,
        member_team@ != assignment_team@ ==> (r matches Err(e) && e@
            == "Team assignment member belongs to a different Team"@),
{
    if str_eq(member_team, assignment_team) {
        Ok(())
    } else {
        Err(copy_str("Team assignment member belongs to a different Team"))
    }
}

/// Orphan recovery fails the binding of the orphaned assignment while that
/// binding could still launch or run.
pub open spec fn orphan_binding_fails(
    binding_assignment: Option<Seq<char>>,
    binding_status: TeamRunBindingStatus,
    assignment_id: Seq<char>,
) -> bool {
    binding_assignment == Some(assignment_id) && is_live(binding_status)
}

pub fn orphan_binding_should_fail(
    binding_assignment: Option<&str>,
    binding_status: TeamRunBindingStatus,
    assignment_id: &str,
) -> (b: bool)
    ensures
        b == orphan_binding_fails(
            match binding_assignment {
                Some(a) => Some(a@),
                None => None,
            },
            binding_status,
            assignment_id@,
        ),
{
    match binding_assignment {
        Some(a) => str_eq(a, assignment_id) && binding_cancelled_by_drain(binding_status),
        None => false,
    }
}

/// Orphan recovery returns the member to idle only while it is still the
/// same generation, working on the orphaned assignment.
pub open spec fn orphan_member_idles(
    generation_current: bool,
    member_assignment: Option<Seq<char>>,
    member_status: TeamMemberStatus,
    assignment_id: Seq<char>,
) -> bool {
    generation_current && member_assignment == Some(assignment_id) && member_status
        == TeamMemberStatus::Working
}

pub fn orphan_member_should_idle(
    generation_current: bool,
    member_assignment: Option<&str>,
    member_status: TeamMemberStatus,
    assignment_id: &str,
) -> (b: bool)
    ensures
        b == orphan_member_idles(
            generation_current,
            match member_assignment {
                Some(a) => Some(a@),
                None => None,
            },
            member_status,
            assignment_id@,
        ),
{
    match member_assignment {
        Some(a) => generation_current && str_eq(a, assignment_id) && member_status
            == TeamMemberStatus::Working,
        None => false,
    }
}

/// What startup recovery releases reservations for, for one binding: a
/// settled binding with an assignment names that assignment, its member and
/// the member generation; other bindings name nothing.
pub open spec fn release_target(b: TeamRunBinding) -> Result<Option<(Seq<char>, Seq<char>, i64)>, Seq<char>> {
    if !is_settled(b.status) || b.assignment_id is None {
        Ok(None)
    } else if b.team_member_id is None {
        Err("terminal Team binding has no member identity"@)
    } else if b.team_member_generation is None {
        Err("terminal Team binding has no member generation"@)
    } else {
        Ok(Some((b.assignment_id->0@, b.team_member_id->0@, b.team_member_generation->0)))
    }
}

pub fn terminal_binding_release_target(binding: &TeamRunBinding) -> (r: Result<
    Option<(String, String, i64)>,
    String,
>)
    ensures
        match release_target(*binding) {
            Ok(None) => r matches Ok(None),
            Ok(Some((a, m, g))) => r matches Ok(Some((ra, rm, rg))) && ra@ == a && rm@ == m && rg == g,
            Err(e) => r matches Err(re) && re@ == e,
        },
{
    let settled = match binding.status {
        TeamRunBindingStatus::Terminal | TeamRunBindingStatus::Cancelled | TeamRunBindingStatus::Failed => true,
        _ => false,
    };
    let assignment = match &binding.assignment_id {
        Some(a) => a,
        None => {
            return Ok(None);
        },
    };
    if !settled {
        return Ok(None);
    }
    let member = match &binding.team_member_id {
        Some(m) => m,
        None => {
            return Err(copy_str("terminal Team binding has no member identity"));
        },
    };
    let generation = match binding.team_member_generation {
        Some(g) => g,
        None => {
            return Err(copy_str("terminal Team binding has no member generation"));
        },
    };
    Ok(Some((copy_str(assignment.as_str()), copy_str(member.as_str()), generation)))
}

/// A newer member generation never lets recovery release a replacement
/// reservation: a reservation is released only for the exact generation
/// that owns it.
pub proof fn law_recovery_never_releases_newer_generations(
    team: Seq<char>,
    member: Seq<char>,
    reservation_generation: i64,
    binding_generation: i64,
)
    requires
        reservation_generation != binding_generation,
    ensures
        !releasable_for(team, member, reservation_generation, team, member, binding_generation),
{
}

} // verus!

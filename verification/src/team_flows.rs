//! The decisions of the managed-Team flows that read rows, decide, and write
//! rows back: member message authority, assignment planning, settlement,
//! exit and drain. Each function here takes the rows the flow has read and
//! gives back exactly the rows it writes; the caller performs the reads and
//! the compare-and-set writes.
use vstd::prelude::*;

use crate::team_assignment::{
    assignment_refusal, check_assignment_admission, is_settled, settled_status,
    ManagedTeamWorkspaceRequest,
};
use crate::team_budget::{aggregate_team_usage, usage_error, usage_of, ManagedTeamUsage, TeamRunUsage};
use crate::team_lifecycle::{TeamRunBinding, TeamSession, TeamSessionStatus, TeamWorkClassification};
use crate::team_messaging::{AgentTaskAssignmentTerminalStatus, TeamMemberStatus};
use crate::team_state::{is_live, TeamExitAction, TeamRunBindingStatus};
use crate::text::{copy_str, opt_view, str_eq};

verus! {

/// The durable row of a Team member.
#[derive(Debug, Clone)]
pub struct TeamMember {
    pub id: String,
    pub team_id: String,
    pub normalized_name: String,
    pub canonical_agent_name: String,
    pub generation: i64,
    pub status: TeamMemberStatus,
    pub current_assignment_id: Option<String>,
    pub current_run_id: Option<String>,
    pub delegated_session_id: Option<String>,
    pub last_error: Option<String>,
}

/// `o` holds exactly the text `s`.
fn opt_is(o: &Option<String>, s: &str) -> (b: bool)
    ensures
        b == (opt_view(*o) == Some(s@)),
{
    match o {
        Some(v) => str_eq(v.as_str(), s),
        None => false,
    }
}

fn opt_ref(o: Option<&str>) -> (r: Option<String>)
    ensures
        opt_view(r) == (match o {
            Some(s) => Some(s@),
            None => None::<Seq<char>>,
        }),
{
    match o {
        Some(s) => Some(copy_str(s)),
        None => None,
    }
}

pub open spec fn opt_str_view(o: Option<&str>) -> Option<Seq<char>> {
    match o {
        Some(s) => Some(s@),
        None => None,
    }
}

// ---------------------------------------------------------------------
// Member message authority
// ---------------------------------------------------------------------

/// A member may send into Team `team_id` from run `source_run_id` only while
/// it belongs to that Team at `generation`, that run is its current run, and
/// the run's binding is that member's live authority in that Team.
pub open spec fn member_authority(
    team_id: Seq<char>,
    member: TeamMember,
    generation: i64,
    source_run_id: Seq<char>,
    binding: TeamRunBinding,
) -> bool {
    &&& member.team_id@ == team_id
    &&& member.generation == generation
    &&& opt_view(member.current_run_id) == Some(source_run_id)
    &&& opt_view(binding.team_member_id) == Some(member.id@)
    &&& binding.team_member_generation == Some(generation)
    &&& binding.team_id@ == team_id
    &&& is_live(binding.status)
}

pub fn check_member_authority(
    team_id: &str,
    member: &TeamMember,
    generation: i64,
    source_run_id: &str,
    binding: &TeamRunBinding,
) -> (r: Result<(), String>)
    ensures
        member_authority(team_id@, *member, generation, source_run_id@, *binding) ==> r is Ok,
        !member_authority(team_id@, *member, generation, source_run_id@, *binding) ==> (r matches Err(
            e,
        ) && e@ == "member message authority is stale or cross-Team"@),
{
    let live = binding.status == TeamRunBindingStatus::Planned || binding.status
        == TeamRunBindingStatus::Launching || binding.status == TeamRunBindingStatus::Running;
    if str_eq(member.team_id.as_str(), team_id) && member.generation == generation && opt_is(
        &member.current_run_id,
        source_run_id,
    ) && opt_is(&binding.team_member_id, member.id.as_str()) && binding.team_member_generation
        == Some(generation) && str_eq(binding.team_id.as_str(), team_id) && live {
        Ok(())
    } else {
        Err(copy_str("member message authority is stale or cross-Team"))
    }
}

// ---------------------------------------------------------------------
// Exit
// ---------------------------------------------------------------------

/// What an exit request does first.
#[derive(Debug, Clone, Copy, PartialEq, Eq, Structural)]
pub enum ExitStart {
    /// The coordinator conversation is already solo: the session is
    /// returned unchanged and nothing is written.
    AlreadySolo,
    /// No exit is pending: mark this one, then clean up.
    MarkPending,
    /// The same exit is already pending: resume its cleanup.
    Resume,
}

/// An already solo conversation ends the request before any other check;
/// otherwise a different pending exit is refused before any write.
pub fn exit_start(conversation_is_solo: bool, pending: Option<&str>, action: TeamExitAction) -> (r:
    Result<ExitStart, String>)
    ensures
        conversation_is_solo ==> r == Ok::<ExitStart, String>(ExitStart::AlreadySolo),
        !conversation_is_solo && pending is None ==> r == Ok::<ExitStart, String>(
            ExitStart::MarkPending,
        ),
        !conversation_is_solo && (pending matches Some(p) && p@ == crate::team_state::exit_action_name(
            action,
        )) ==> r == Ok::<ExitStart, String>(ExitStart::Resume),
        !conversation_is_solo && (pending matches Some(p) && p@ != crate::team_state::exit_action_name(
            action,
        )) ==> (r matches Err(e) && e@ == "managed Team already has a different exit action pending"@),
{
    if conversation_is_solo {
        return Ok(ExitStart::AlreadySolo);
    }
    match pending {
        None => Ok(ExitStart::MarkPending),
        Some(p) => {
            if str_eq(p, action.as_str()) {
                Ok(ExitStart::Resume)
            } else {
                Err(copy_str("managed Team already has a different exit action pending"))
            }
        },
    }
}

// ---------------------------------------------------------------------
// Drain
// ---------------------------------------------------------------------

/// `c` is `b` cancelled by a drain: status Cancelled, last error
/// `team_exit_drain`, version bumped, every other field kept.
pub open spec fn drain_cancelled(c: TeamRunBinding, b: TeamRunBinding) -> bool {
    &&& c == TeamRunBinding {
        status: TeamRunBindingStatus::Cancelled,
        last_error: c.last_error,
        version: (b.version + 1) as i64,
        ..b
    }
    &&& opt_view(c.last_error) == Some("team_exit_drain"@)
}

/// `s` is `m` stopped by a drain: status Stopped, no current run,
/// assignment or delegated session, every other field kept.
pub open spec fn drain_stopped(s: TeamMember, m: TeamMember) -> bool {
    s == TeamMember {
        status: TeamMemberStatus::Stopped,
        current_run_id: None,
        current_assignment_id: None,
        delegated_session_id: None,
        ..m
    }
}

/// Drain stops every member that is not already stopping or stopped.
pub open spec fn drain_stops(s: TeamMemberStatus) -> bool {
    crate::team_assignment::stopped_by_drain(s)
}

/// The session after a drain: Closed, its version bumped once for the
/// Draining step (unless it was already draining) and once for Closed.
pub open spec fn drained_session(s: TeamSession) -> TeamSession {
    TeamSession {
        status: TeamSessionStatus::Closed,
        version: (s.version + if s.status == TeamSessionStatus::Draining {
            1int
        } else {
            2int
        }) as i64,
        ..s
    }
}

/// The rows a drain writes.
#[derive(Debug)]
pub struct DrainPlan {
    /// The session as the drain leaves it.
    pub session: TeamSession,
    /// Every live binding, cancelled, in the order read.
    pub cancelled: Vec<TeamRunBinding>,
    /// The agent runs whose assignments are settled as cancelled, in the
    /// order of the bindings read.
    pub settled_runs: Vec<String>,
    /// The assignments whose active workspace reservations are all
    /// released, in the order of the bindings read.
    pub released_assignments: Vec<String>,
    /// Every member the drain stops, stopped, in the order read.
    pub stopped: Vec<TeamMember>,
}

pub open spec fn live_bindings(bs: Seq<TeamRunBinding>) -> Seq<TeamRunBinding> {
    bs.filter(|b: TeamRunBinding| is_live(b.status))
}

pub open spec fn assigned_bindings(bs: Seq<TeamRunBinding>) -> Seq<TeamRunBinding> {
    bs.filter(|b: TeamRunBinding| b.assignment_id is Some)
}

pub open spec fn stopped_members(ms: Seq<TeamMember>) -> Seq<TeamMember> {
    ms.filter(|m: TeamMember| drain_stops(m.status))
}

fn cancel_for_drain(b: TeamRunBinding) -> (c: TeamRunBinding)
    requires
        b.version < i64::MAX,
    ensures
        drain_cancelled(c, b),
{
    TeamRunBinding {
        status: TeamRunBindingStatus::Cancelled,
        last_error: Some(copy_str("team_exit_drain")),
        version: b.version + 1,
        ..b
    }
}

fn stop_for_drain(m: TeamMember) -> (s: TeamMember)
    ensures
        drain_stopped(s, m),
{
    TeamMember {
        status: TeamMemberStatus::Stopped,
        current_run_id: None,
        current_assignment_id: None,
        delegated_session_id: None,
        ..m
    }
}

/// Drain a Team: `Err` with the session unchanged when it is already
/// Closed (nothing is written); otherwise every live binding is cancelled,
/// every assigned binding's active reservations are released and its run
/// settled as cancelled, every member not yet stopping or stopped is
/// stopped, and the session ends Closed.
pub fn plan_drain(session: TeamSession, bindings: Vec<TeamRunBinding>, members: Vec<TeamMember>) -> (r:
    Result<DrainPlan, TeamSession>)
    requires
        session.version < i64::MAX - 1,
        forall|i: int| 0 <= i < bindings@.len() ==> (#[trigger] bindings@[i]).version < i64::MAX,
    ensures
        session.status == TeamSessionStatus::Closed ==> r == Err::<DrainPlan, TeamSession>(session),
        session.status != TeamSessionStatus::Closed ==> (r matches Ok(p) && {
            &&& p.session == drained_session(session)
            &&& p.cancelled@.len() == live_bindings(bindings@).len()
            &&& forall|i: int|
                0 <= i < p.cancelled@.len() ==> drain_cancelled(
                    #[trigger] p.cancelled@[i],
                    live_bindings(bindings@)[i],
                )
            &&& p.settled_runs@.len() == assigned_bindings(bindings@).len()
            &&& forall|i: int|
                0 <= i < p.settled_runs@.len() ==> (#[trigger] p.settled_runs@[i])@
                    == assigned_bindings(bindings@)[i].agent_run_id@
            &&& p.released_assignments@.len() == assigned_bindings(bindings@).len()
            &&& forall|i: int|
                0 <= i < p.released_assignments@.len() ==> opt_view(
                    assigned_bindings(bindings@)[i].assignment_id,
                ) == Some((#[trigger] p.released_assignments@[i])@)
            &&& p.stopped@.len() == stopped_members(members@).len()
            &&& forall|i: int|
                0 <= i < p.stopped@.len() ==> drain_stopped(
                    #[trigger] p.stopped@[i],
                    stopped_members(members@)[i],
                )
        }),
{
    if session.status == TeamSessionStatus::Closed {
        return Err(session);
    }
    let ghost bs = bindings@;
    let ghost ms = members@;
    let nb = bindings.len();
    let nm = members.len();
    let mut rest = bindings;
    let mut cancelled: Vec<TeamRunBinding> = Vec::new();
    let mut settled_runs: Vec<String> = Vec::new();
    let mut released_assignments: Vec<String> = Vec::new();
    let mut k: usize = 0;
    assert(bs.skip(0) =~= bs);
    while rest.len() > 0
        invariant
            k + rest@.len() == bs.len(),
            bs.len() == nb,
            rest@ == bs.skip(k as int),
            forall|i: int| 0 <= i < bs.len() ==> (#[trigger] bs[i]).version < i64::MAX,
            cancelled@.len() == live_bindings(bs.take(k as int)).len(),
            forall|i: int|
                0 <= i < cancelled@.len() ==> drain_cancelled(
                    #[trigger] cancelled@[i],
                    live_bindings(bs.take(k as int))[i],
                ),
            settled_runs@.len() == assigned_bindings(bs.take(k as int)).len(),
            released_assignments@.len() == assigned_bindings(bs.take(k as int)).len(),
            forall|i: int|
                0 <= i < released_assignments@.len() ==> opt_view(
                    assigned_bindings(bs.take(k as int))[i].assignment_id,
                ) == Some((#[trigger] released_assignments@[i])@),
            forall|i: int|
                0 <= i < settled_runs@.len() ==> (#[trigger] settled_runs@[i])@ == assigned_bindings(
                    bs.take(k as int),
                )[i].agent_run_id@,
        decreases rest.len(),
    {
        let b = rest.remove(0);
        proof {
            assert(b == bs[k as int]);
            assert(bs.take(k + 1) =~= bs.take(k as int).push(b));
            assert(rest@ =~= bs.skip(k + 1));
            reveal_with_fuel(Seq::filter, 1);
            assert(bs.take(k + 1).drop_last() =~= bs.take(k as int));
        }
        let ghost lb = live_bindings(bs.take(k as int));
        let ghost ab = assigned_bindings(bs.take(k as int));
        let ghost before_c = cancelled@;
        let ghost before_s = settled_runs@;
        match &b.assignment_id {
            Some(a) => {
                settled_runs.push(copy_str(b.agent_run_id.as_str()));
                released_assignments.push(copy_str(a.as_str()));
            },
            None => {},
        }
        let live = b.status == TeamRunBindingStatus::Planned || b.status
            == TeamRunBindingStatus::Launching || b.status == TeamRunBindingStatus::Running;
        if live {
            cancelled.push(cancel_for_drain(b));
        }
        proof {
            if b.assignment_id is Some {
                assert(assigned_bindings(bs.take(k + 1)) == ab.push(b));
            } else {
                assert(assigned_bindings(bs.take(k + 1)) == ab);
            }
            if is_live(b.status) {
                assert(live_bindings(bs.take(k + 1)) == lb.push(b));
            } else {
                assert(live_bindings(bs.take(k + 1)) == lb);
            }
        }
        k = k + 1;
    }
    assert(bs.take(k as int) =~= bs);
    let mut rest_m = members;
    let mut stopped: Vec<TeamMember> = Vec::new();
    let mut j: usize = 0;
    assert(ms.skip(0) =~= ms);
    while rest_m.len() > 0
        invariant
            j + rest_m@.len() == ms.len(),
            ms.len() == nm,
            rest_m@ == ms.skip(j as int),
            stopped@.len() == stopped_members(ms.take(j as int)).len(),
            forall|i: int|
                0 <= i < stopped@.len() ==> drain_stopped(
                    #[trigger] stopped@[i],
                    stopped_members(ms.take(j as int))[i],
                ),
        decreases rest_m.len(),
    {
        let m = rest_m.remove(0);
        proof {
            assert(m == ms[j as int]);
            assert(ms.take(j + 1) =~= ms.take(j as int).push(m));
            assert(rest_m@ =~= ms.skip(j + 1));
            reveal_with_fuel(Seq::filter, 1);
            assert(ms.take(j + 1).drop_last() =~= ms.take(j as int));
        }
        let ghost sm = stopped_members(ms.take(j as int));
        let stops = crate::team_assignment::member_stopped_by_drain(m.status);
        if stops {
            stopped.push(stop_for_drain(m));
        }
        proof {
            if drain_stops(ms[j as int].status) {
                assert(stopped_members(ms.take(j + 1)) == sm.push(ms[j as int]));
            } else {
                assert(stopped_members(ms.take(j + 1)) == sm);
            }
        }
        j = j + 1;
    }
    assert(ms.take(j as int) =~= ms);
    let bump: i64 = if session.status == TeamSessionStatus::Draining {
        1
    } else {
        2
    };
    let closed = TeamSession {
        status: TeamSessionStatus::Closed,
        version: session.version + bump,
        ..session
    };
    Ok(DrainPlan { session: closed, cancelled, settled_runs, released_assignments, stopped })
}

/// The session after a suspension: Suspended, its version bumped once for
/// the Suspending step (unless it was already suspending) and once for
/// Suspended.
pub open spec fn suspended_session(s: TeamSession) -> TeamSession {
    TeamSession {
        status: TeamSessionStatus::Suspended,
        version: (s.version + if s.status == TeamSessionStatus::Suspending {
            1int
        } else {
            2int
        }) as i64,
        ..s
    }
}

/// `m` suspended, every other field kept.
pub open spec fn suspended_member(m: TeamMember) -> TeamMember {
    TeamMember { status: TeamMemberStatus::Suspended, ..m }
}

pub open spec fn idle_members(ms: Seq<TeamMember>) -> Seq<TeamMember> {
    ms.filter(|m: TeamMember| m.status == TeamMemberStatus::Idle)
}

/// The rows a suspension writes.
#[derive(Debug)]
pub struct SuspendPlan {
    pub session: TeamSession,
    /// Every idle member, suspended, in the order read.
    pub suspended: Vec<TeamMember>,
}

/// Suspend a Team: `Err` with the session unchanged when it is already
/// Suspended (nothing is written); otherwise every idle member is
/// suspended (busy members finish first) and the session ends Suspended.
pub fn plan_suspend(session: TeamSession, members: Vec<TeamMember>) -> (r: Result<SuspendPlan, TeamSession>)
    requires
        session.version < i64::MAX - 1,
    ensures
        session.status == TeamSessionStatus::Suspended ==> r == Err::<SuspendPlan, TeamSession>(session),
        session.status != TeamSessionStatus::Suspended ==> (r matches Ok(p) && {
            &&& p.session == suspended_session(session)
            &&& p.suspended@.len() == idle_members(members@).len()
            &&& forall|i: int|
                0 <= i < p.suspended@.len() ==> #[trigger] p.suspended@[i] == suspended_member(idle_members(members@)[i])
        }),
{
    if session.status == TeamSessionStatus::Suspended {
        return Err(session);
    }
    let ghost ms = members@;
    let nm = members.len();
    let mut rest = members;
    let mut suspended: Vec<TeamMember> = Vec::new();
    let mut j: usize = 0;
    assert(ms.skip(0) =~= ms);
    while rest.len() > 0
        invariant
            j + rest@.len() == ms.len(),
            ms.len() == nm,
            rest@ == ms.skip(j as int),
            suspended@.len() == idle_members(ms.take(j as int)).len(),
            forall|i: int|
                0 <= i < suspended@.len() ==> #[trigger] suspended@[i] == suspended_member(idle_members(ms.take(j as int))[i]),
        decreases rest.len(),
    {
        let m = rest.remove(0);
        proof {
            assert(m == ms[j as int]);
            assert(ms.take(j + 1) =~= ms.take(j as int).push(m));
            assert(rest@ =~= ms.skip(j + 1));
            reveal_with_fuel(Seq::filter, 1);
            assert(ms.take(j + 1).drop_last() =~= ms.take(j as int));
        }
        let ghost im = idle_members(ms.take(j as int));
        if m.status == TeamMemberStatus::Idle {
            suspended.push(TeamMember { status: TeamMemberStatus::Suspended, ..m });
        }
        proof {
            if ms[j as int].status == TeamMemberStatus::Idle {
                assert(idle_members(ms.take(j + 1)) == im.push(ms[j as int]));
            } else {
                assert(idle_members(ms.take(j + 1)) == im);
            }
        }
        j = j + 1;
    }
    assert(ms.take(j as int) =~= ms);
    let bump: i64 = if session.status == TeamSessionStatus::Suspending {
        1
    } else {
        2
    };
    let done = TeamSession { status: TeamSessionStatus::Suspended, version: session.version + bump, ..session };
    Ok(SuspendPlan { session: done, suspended })
}

// ---------------------------------------------------------------------
// Assignments: planning, settlement and orphan recovery
// ---------------------------------------------------------------------

/// The Team identity recorded on a task assignment.
#[derive(Debug, Clone)]
pub struct TeamAssignmentRef {
    pub id: String,
    pub team_id: Option<String>,
    pub team_member_id: Option<String>,
    pub team_member_generation: Option<i64>,
    pub delegated_agent_run_id: Option<String>,
}

/// A workspace reservation held for an assignment.
#[derive(Debug, Clone)]
pub struct TeamWorkspaceReservation {
    pub id: String,
    pub team_id: String,
    pub team_member_id: String,
    pub team_member_generation: i64,
    pub writable_paths: Vec<String>,
    pub generated_outputs: Vec<String>,
    pub resource_locks: Vec<String>,
    pub work_classification: TeamWorkClassification,
    pub attempt_number: u32,
}

/// The rows an assignment plan writes.
#[derive(Debug)]
pub struct ManagedTeamAssignmentPlan {
    pub member: TeamMember,
    pub assignment: TeamAssignmentRef,
    pub binding: TeamRunBinding,
    pub reservation: Option<TeamWorkspaceReservation>,
}

/// The identifiers an assignment plan is made with: the task assignment
/// that was reserved, the delegated session and conversation, the planned
/// run, and fresh ids for the binding and the reservation.
#[derive(Debug, Clone)]
pub struct AssignmentPlanIds {
    pub assignment_id: String,
    pub delegated_session_id: String,
    pub delegated_conversation_id: String,
    pub planned_agent_run_id: String,
    pub binding_id: String,
    pub reservation_id: String,
}

/// An assignment request whose caller authority was already resolved: the
/// Team and member (by name and expected generation), the task, the
/// delegated session and conversation, the run that will be planned, the
/// kind of work and the workspace it asks for.
#[derive(Debug, Clone)]
pub struct ManagedTeamAssignmentRequest {
    pub team_id: String,
    pub member_name: String,
    pub expected_member_generation: i64,
    pub caller_agent_run_id: String,
    pub task_ref: String,
    pub delegated_session_id: String,
    pub delegated_conversation_id: String,
    pub planned_agent_run_id: String,
    pub work_classification: TeamWorkClassification,
    pub workspace: Option<ManagedTeamWorkspaceRequest>,
}

impl ManagedTeamAssignmentRequest {
    /// The identifiers a plan for this request is made with, given the
    /// reserved task assignment and fresh binding and reservation ids.
    pub fn plan_ids(&self, assignment_id: String, binding_id: String, reservation_id: String) -> (r:
        AssignmentPlanIds)
        ensures
            r.assignment_id == assignment_id,
            r.delegated_session_id@ == self.delegated_session_id@,
            r.delegated_conversation_id@ == self.delegated_conversation_id@,
            r.planned_agent_run_id@ == self.planned_agent_run_id@,
            r.binding_id == binding_id,
            r.reservation_id == reservation_id,
    {
        AssignmentPlanIds {
            assignment_id,
            delegated_session_id: copy_str(self.delegated_session_id.as_str()),
            delegated_conversation_id: copy_str(self.delegated_conversation_id.as_str()),
            planned_agent_run_id: copy_str(self.planned_agent_run_id.as_str()),
            binding_id,
            reservation_id,
        }
    }
}

/// A Team's session with its roster and usage, as status reads return it.
#[derive(Debug)]
pub struct ManagedTeamStatus {
    pub session: TeamSession,
    pub members: Vec<TeamMember>,
    pub usage: ManagedTeamUsage,
}

/// The status of a conversation's open Team: none without an open session;
/// else the session, its roster and the usage of its runs, failing as the
/// usage sum fails.
pub fn team_status(session: Option<TeamSession>, members: Vec<TeamMember>, runs: &Vec<TeamRunUsage>) -> (r:
    Result<Option<ManagedTeamStatus>, String>)
    ensures
        session is None ==> r matches Ok(None),
        session matches Some(s) ==> match r {
            Ok(Some(st)) => st.session == s && st.members@ == members@ && usage_of(st.usage, runs@)
                && usage_error(runs@) is None,
            Ok(None) => false,
            Err(e) => usage_error(runs@) == Some(e@),
        },
{
    match session {
        None => Ok(None),
        Some(session) => {
            let usage = match aggregate_team_usage(runs) {
                Ok(u) => u,
                Err(e) => {
                    return Err(e);
                },
            };
            Ok(Some(ManagedTeamStatus { session, members, usage }))
        },
    }
}

/// Plan an exact member assignment: refused as `check_assignment_admission`
/// refuses; otherwise the member works on the assignment in the planned run,
/// the assignment carries the Team, member and generation, a planned binding
/// records the run, and a reservation is taken exactly when a workspace was
/// requested.
pub fn plan_member_assignment(
    dispatch_count: u32,
    configured_concurrency: u32,
    member: TeamMember,
    expected_generation: i64,
    work: TeamWorkClassification,
    workspace: Option<ManagedTeamWorkspaceRequest>,
    ids: AssignmentPlanIds,
    now: i64,
) -> (r: Result<ManagedTeamAssignmentPlan, String>)
    ensures
        match assignment_refusal(
            dispatch_count,
            configured_concurrency,
            member.generation == expected_generation,
            member.status,
            member.current_assignment_id is Some,
            work,
            workspace is Some,
        ) {
            Some(m) => r matches Err(e) && e@ == m,
            None => r matches Ok(p) && {
                &&& p.member.id == member.id && p.member.team_id == member.team_id
                &&& p.member.normalized_name == member.normalized_name
                &&& p.member.canonical_agent_name == member.canonical_agent_name
                &&& p.member.generation == member.generation
                &&& p.member.last_error == member.last_error
                &&& p.member.status == TeamMemberStatus::Working
                &&& opt_view(p.member.current_assignment_id) == Some(ids.assignment_id@)
                &&& opt_view(p.member.current_run_id) == Some(ids.planned_agent_run_id@)
                &&& opt_view(p.member.delegated_session_id) == Some(ids.delegated_session_id@)
                &&& p.assignment.id@ == ids.assignment_id@
                &&& opt_view(p.assignment.team_id) == Some(member.team_id@)
                &&& opt_view(p.assignment.team_member_id) == Some(member.id@)
                &&& p.assignment.team_member_generation == Some(member.generation)
                &&& opt_view(p.assignment.delegated_agent_run_id) == Some(ids.planned_agent_run_id@)
                &&& p.binding.id@ == ids.binding_id@
                &&& p.binding.team_id@ == member.team_id@
                &&& opt_view(p.binding.team_member_id) == Some(member.id@)
                &&& p.binding.team_member_generation == Some(member.generation)
                &&& p.binding.agent_run_id@ == ids.planned_agent_run_id@
                &&& p.binding.conversation_id@ == ids.delegated_conversation_id@
                &&& opt_view(p.binding.delegated_session_id) == Some(ids.delegated_session_id@)
                &&& p.binding.trigger_kind == crate::team_lifecycle::TeamRunTriggerKind::Assignment
                &&& p.binding.work_classification == work
                &&& opt_view(p.binding.assignment_id) == Some(ids.assignment_id@)
                &&& p.binding.status == TeamRunBindingStatus::Planned
                &&& p.binding.version == 0 && p.binding.last_error is None
                &&& p.binding.created_at == now
                &&& (p.reservation is Some <==> workspace is Some)
                &&& (p.reservation matches Some(res) ==> {
                    &&& res.id@ == ids.reservation_id@
                    &&& res.team_id@ == member.team_id@
                    &&& res.team_member_id@ == member.id@
                    &&& res.team_member_generation == member.generation
                    &&& res.writable_paths == workspace->0.writable_paths
                    &&& res.generated_outputs == workspace->0.generated_outputs
                    &&& res.resource_locks == workspace->0.resource_locks
                    &&& res.work_classification == work
                    &&& res.attempt_number == 1
                })
            },
        },
{
    match check_assignment_admission(
        dispatch_count,
        configured_concurrency,
        member.generation == expected_generation,
        member.status,
        member.current_assignment_id.is_some(),
        work,
        workspace.as_ref(),
    ) {
        Ok(()) => {},
        Err(e) => {
            return Err(e);
        },
    }
    let AssignmentPlanIds {
        assignment_id,
        delegated_session_id,
        delegated_conversation_id,
        planned_agent_run_id,
        binding_id,
        reservation_id,
    } = ids;
    let member_ref = crate::team_lifecycle::TeamMemberRef {
        team_id: copy_str(member.team_id.as_str()),
        id: copy_str(member.id.as_str()),
        generation: member.generation,
    };
    let binding = crate::team_lifecycle::member_assignment_run_binding_at(
        binding_id,
        &member_ref,
        copy_str(delegated_session_id.as_str()),
        delegated_conversation_id,
        copy_str(planned_agent_run_id.as_str()),
        copy_str(assignment_id.as_str()),
        work,
        now,
    );
    let reservation = match workspace {
        Some(ws) => Some(
            TeamWorkspaceReservation {
                id: reservation_id,
                team_id: copy_str(member.team_id.as_str()),
                team_member_id: copy_str(member.id.as_str()),
                team_member_generation: member.generation,
                writable_paths: ws.writable_paths,
                generated_outputs: ws.generated_outputs,
                resource_locks: ws.resource_locks,
                work_classification: work,
                attempt_number: 1,
            },
        ),
        None => None,
    };
    let assignment = TeamAssignmentRef {
        id: copy_str(assignment_id.as_str()),
        team_id: Some(copy_str(member.team_id.as_str())),
        team_member_id: Some(copy_str(member.id.as_str())),
        team_member_generation: Some(member.generation),
        delegated_agent_run_id: Some(copy_str(planned_agent_run_id.as_str())),
    };
    let working = TeamMember {
        status: TeamMemberStatus::Working,
        current_assignment_id: Some(assignment_id),
        current_run_id: Some(planned_agent_run_id),
        delegated_session_id: Some(delegated_session_id),
        ..member
    };
    Ok(ManagedTeamAssignmentPlan { member: working, assignment, binding, reservation })
}

/// An assignment takes part in Team settlement only when it carries a Team,
/// a member, a generation and a delegated run.
pub open spec fn settles_in_team(a: TeamAssignmentRef) -> bool {
    a.team_id is Some && a.team_member_id is Some && a.team_member_generation is Some
        && a.delegated_agent_run_id is Some
}

pub fn assignment_settles_in_team(a: &TeamAssignmentRef) -> (b: bool)
    ensures
        b == settles_in_team(*a),
{
    a.team_id.is_some() && a.team_member_id.is_some() && a.team_member_generation.is_some()
        && a.delegated_agent_run_id.is_some()
}

/// The reservation is held by the assignment's member at its generation.
pub open spec fn held_by_member(r: TeamWorkspaceReservation, a: TeamAssignmentRef) -> bool {
    opt_view(a.team_member_id) == Some(r.team_member_id@) && a.team_member_generation == Some(
        r.team_member_generation,
    )
}

/// The ids of the reservations held by the assignment's member at its
/// generation, in order.
pub open spec fn released_ids(rs: Seq<TeamWorkspaceReservation>, a: TeamAssignmentRef) -> Seq<Seq<char>>
    decreases rs.len(),
{
    if rs.len() == 0 {
        Seq::empty()
    } else {
        released_ids(rs.drop_last(), a) + if held_by_member(rs.last(), a) {
            seq![rs.last().id@]
        } else {
            Seq::empty()
        }
    }
}

/// The assignment's active reservations that settlement and orphan
/// recovery release: those of its member at its generation.
pub fn member_reservation_releases(reservations: &Vec<TeamWorkspaceReservation>, assignment: &TeamAssignmentRef) -> (out:
    Vec<String>)
    ensures
        strings_view(out@) == released_ids(reservations@, *assignment),
{
    let mut out: Vec<String> = Vec::new();
    let mut i: usize = 0;
    while i < reservations.len()
        invariant
            i <= reservations@.len(),
            strings_view(out@) == released_ids(reservations@.take(i as int), *assignment),
        decreases reservations.len() - i,
    {
        proof {
            assert(reservations@.take(i + 1).drop_last() =~= reservations@.take(i as int));
        }
        let r = &reservations[i];
        let held = opt_is(&assignment.team_member_id, r.team_member_id.as_str())
            && assignment.team_member_generation == Some(r.team_member_generation);
        let ghost before = out@;
        if held {
            let c = copy_str(r.id.as_str());
            out.push(c);
            proof {
                assert(strings_view(out@) =~= strings_view(before) + seq![c@]);
            }
        } else {
            proof {
                assert(released_ids(reservations@.take(i + 1), *assignment) =~= released_ids(
                    reservations@.take(i as int),
                    *assignment,
                ));
            }
        }
        i = i + 1;
    }
    assert(reservations@.take(reservations@.len() as int) =~= reservations@);
    out
}

/// A refused settlement: the reservations released before the refusal,
/// and the error.
#[derive(Debug)]
pub struct SettlementRefusal {
    pub released_reservations: Vec<String>,
    pub error: String,
}

/// The rows a settlement or an orphan recovery writes.
#[derive(Debug)]
pub struct AssignmentCloseWrites {
    /// The reservations released, by id.
    pub released_reservations: Vec<String>,
    /// The binding's new row, when it moves.
    pub binding: Option<TeamRunBinding>,
    /// The member's new row, when it returns to idle.
    pub member: Option<TeamMember>,
}

/// `b` names the assignment's member at the assignment's generation.
pub open spec fn binding_is_member_authority(b: TeamRunBinding, a: TeamAssignmentRef) -> bool {
    opt_view(b.team_member_id) == opt_view(a.team_member_id) && b.team_member_generation
        == a.team_member_generation
}

/// `m` is still working on the assignment at its generation.
pub open spec fn member_still_on(m: TeamMember, a: TeamAssignmentRef) -> bool {
    Some(m.generation) == a.team_member_generation && opt_view(m.current_assignment_id) == Some(
        a.id@,
    ) && m.status == TeamMemberStatus::Working
}

/// `i` is `m` returned to idle: no current assignment, run or delegated
/// session, its last error `reason`, every other field kept.
pub open spec fn idled(i: TeamMember, m: TeamMember, reason: Option<Seq<char>>) -> bool {
    &&& i == TeamMember {
        status: TeamMemberStatus::Idle,
        current_assignment_id: None,
        current_run_id: None,
        delegated_session_id: None,
        last_error: i.last_error,
        ..m
    }
    &&& opt_view(i.last_error) == reason
}

/// `c` is `b` moved to `status` with last error `reason`, version bumped,
/// every other field kept.
pub open spec fn moved(c: TeamRunBinding, b: TeamRunBinding, status: TeamRunBindingStatus, reason: Option<
    Seq<char>,
>) -> bool {
    &&& c == TeamRunBinding {
        status,
        last_error: c.last_error,
        version: (b.version + 1) as i64,
        ..b
    }
    &&& opt_view(c.last_error) == reason
}

fn idle_member(m: TeamMember, reason: Option<&str>) -> (i: TeamMember)
    ensures
        idled(i, m, opt_str_view(reason)),
{
    TeamMember {
        status: TeamMemberStatus::Idle,
        current_assignment_id: None,
        current_run_id: None,
        delegated_session_id: None,
        last_error: opt_ref(reason),
        ..m
    }
}

fn move_binding(b: TeamRunBinding, status: TeamRunBindingStatus, reason: Option<&str>) -> (c:
    TeamRunBinding)
    requires
        b.version < i64::MAX,
    ensures
        moved(c, b, status, opt_str_view(reason)),
{
    TeamRunBinding { status, last_error: opt_ref(reason), version: b.version + 1, ..b }
}

fn member_on(m: &TeamMember, a: &TeamAssignmentRef) -> (r: bool)
    ensures
        r == member_still_on(*m, *a),
{
    a.team_member_generation == Some(m.generation) && opt_is(&m.current_assignment_id, a.id.as_str())
        && m.status == TeamMemberStatus::Working
}

/// Settle a Team assignment, given its member, its active reservations and
/// the binding of its delegated run: the member must belong to the
/// assignment's Team (else nothing is written); then the reservations of
/// that member at that generation are released, and the binding must be the
/// assignment's, in that Team, for that member and generation (a refusal
/// reports the releases already made). A running binding moves to the outcome's status with the
/// reason as its last error; a settled binding stays; any other is refused.
/// The member returns to idle, with the reason, only while it is still the
/// same generation working on this assignment.
pub fn plan_settlement(
    assignment: &TeamAssignmentRef,
    member: TeamMember,
    reservations: &Vec<TeamWorkspaceReservation>,
    binding: TeamRunBinding,
    outcome: AgentTaskAssignmentTerminalStatus,
    reason: Option<&str>,
) -> (r: Result<AssignmentCloseWrites, SettlementRefusal>)
    requires
        settles_in_team(*assignment),
        binding.version < i64::MAX,
    ensures
        member.team_id@ != assignment.team_id->0@ ==> (r matches Err(e) && e.error@
            == "Team assignment member belongs to a different Team"@ && e.released_reservations@.len()
            == 0),
        member.team_id@ == assignment.team_id->0@ ==> match r {
            Ok(w) => strings_view(w.released_reservations@) == released_ids(reservations@, *assignment),
            Err(e) => strings_view(e.released_reservations@) == released_ids(reservations@, *assignment),
        },
        member.team_id@ == assignment.team_id->0@ && !(binding.team_id@ == assignment.team_id->0@
            && opt_view(binding.assignment_id) == Some(assignment.id@) && binding_is_member_authority(
            binding,
            *assignment,
        )) ==> (r matches Err(e) && e.error@ == "Team run binding is not authoritative for settled assignment"@),
        member.team_id@ == assignment.team_id->0@ && binding.team_id@ == assignment.team_id->0@
            && opt_view(binding.assignment_id) == Some(assignment.id@) && binding_is_member_authority(
            binding,
            *assignment,
        ) ==> {
            &&& binding.status != TeamRunBindingStatus::Running && !is_settled(binding.status) ==> (r matches Err(
                e,
            ) && e.error@ == "Team run binding is not running or terminal for settled assignment"@)
            &&& (binding.status == TeamRunBindingStatus::Running || is_settled(binding.status)) ==> (r matches Ok(
                w,
            ) && {
                &&& (binding.status == TeamRunBindingStatus::Running) == (w.binding is Some)
                &&& (w.binding matches Some(c) ==> moved(
                    c,
                    binding,
                    settled_status(outcome),
                    opt_str_view(reason),
                ))
                &&& member_still_on(member, *assignment) == (w.member is Some)
                &&& (w.member matches Some(i) ==> idled(i, member, opt_str_view(reason)))
            })
        },
{
    let team_id = match &assignment.team_id {
        Some(t) => t.as_str(),
        None => {
            return Err(
                SettlementRefusal {
                    released_reservations: Vec::new(),
                    error: copy_str("Team assignment member belongs to a different Team"),
                },
            );
        },
    };
    if !str_eq(member.team_id.as_str(), team_id) {
        return Err(
            SettlementRefusal {
                released_reservations: Vec::new(),
                error: copy_str("Team assignment member belongs to a different Team"),
            },
        );
    }
    let released = member_reservation_releases(reservations, assignment);
    let member_id_matches = match (&binding.team_member_id, &assignment.team_member_id) {
        (Some(x), Some(y)) => str_eq(x.as_str(), y.as_str()),
        (None, None) => true,
        _ => false,
    };
    if !str_eq(binding.team_id.as_str(), team_id) || !opt_is(&binding.assignment_id, assignment.id.as_str())
        || !member_id_matches || binding.team_member_generation != assignment.team_member_generation {
        return Err(
            SettlementRefusal {
                released_reservations: released,
                error: copy_str("Team run binding is not authoritative for settled assignment"),
            },
        );
    }
    let next = match outcome {
        AgentTaskAssignmentTerminalStatus::Completed => TeamRunBindingStatus::Terminal,
        AgentTaskAssignmentTerminalStatus::Failed => TeamRunBindingStatus::Failed,
        AgentTaskAssignmentTerminalStatus::Cancelled => TeamRunBindingStatus::Cancelled,
    };
    let new_binding = if binding.status == TeamRunBindingStatus::Running {
        Some(move_binding(binding, next, reason))
    } else if binding.status == TeamRunBindingStatus::Terminal || binding.status
        == TeamRunBindingStatus::Cancelled || binding.status == TeamRunBindingStatus::Failed {
        None
    } else {
        return Err(
            SettlementRefusal {
                released_reservations: released,
                error: copy_str("Team run binding is not running or terminal for settled assignment"),
            },
        );
    };
    let new_member = if member_on(&member, assignment) {
        Some(idle_member(member, reason))
    } else {
        None
    };
    Ok(AssignmentCloseWrites { released_reservations: released, binding: new_binding, member: new_member })
}

/// Recover an orphaned Team assignment, given its member, its active
/// reservations and the binding found for it: the member must belong to the
/// assignment's Team; the reservations of that member at that generation
/// are released; the binding, when it is this assignment's and could still launch or run,
/// fails with the reason; the member returns to idle, with the reason,
/// while it is still the same generation working on this assignment.
pub fn plan_orphan_recovery(
    assignment: &TeamAssignmentRef,
    member: TeamMember,
    reservations: &Vec<TeamWorkspaceReservation>,
    binding: Option<TeamRunBinding>,
    reason: &str,
) -> (r: Result<AssignmentCloseWrites, String>)
    requires
        assignment.team_id is Some,
        binding matches Some(b) ==> b.version < i64::MAX,
    ensures
        member.team_id@ != assignment.team_id->0@ ==> (r matches Err(e) && e@
            == "Team assignment member belongs to a different Team"@),
        member.team_id@ == assignment.team_id->0@ ==> (r matches Ok(w) && {
            &&& strings_view(w.released_reservations@) == released_ids(reservations@, *assignment)
            &&& (w.binding is Some) == (binding matches Some(b) && opt_view(b.assignment_id) == Some(
                assignment.id@,
            ) && is_live(b.status))
            &&& (w.binding matches Some(c) ==> moved(
                c,
                binding->0,
                TeamRunBindingStatus::Failed,
                Some(reason@),
            ))
            &&& member_still_on(member, *assignment) == (w.member is Some)
            &&& (w.member matches Some(i) ==> idled(i, member, Some(reason@)))
        }),
{
    let team_id = match &assignment.team_id {
        Some(t) => t.as_str(),
        None => {
            return Err(copy_str("Team assignment member belongs to a different Team"));
        },
    };
    match crate::team_assignment::check_orphan_member_team(member.team_id.as_str(), team_id) {
        Ok(()) => {},
        Err(e) => {
            return Err(e);
        },
    }
    let released = member_reservation_releases(reservations, assignment);
    let new_binding = match binding {
        Some(b) => {
            let assigned: Option<&str> = match &b.assignment_id {
                Some(a) => Some(a.as_str()),
                None => None,
            };
            if crate::team_assignment::orphan_binding_should_fail(assigned, b.status, assignment.id.as_str()) {
                Some(move_binding(b, TeamRunBindingStatus::Failed, Some(reason)))
            } else {
                None
            }
        },
        None => None,
    };
    let current: Option<&str> = match &member.current_assignment_id {
        Some(a) => Some(a.as_str()),
        None => None,
    };
    let generation_current = assignment.team_member_generation == Some(member.generation);
    let new_member = if crate::team_assignment::orphan_member_should_idle(
        generation_current,
        current,
        member.status,
        assignment.id.as_str(),
    ) {
        Some(idle_member(member, Some(reason)))
    } else {
        None
    };
    Ok(AssignmentCloseWrites { released_reservations: released, binding: new_binding, member: new_member })
}

// ---------------------------------------------------------------------
// Sending a message
// ---------------------------------------------------------------------

/// What sending a Team message does with the store.
#[derive(Debug)]
pub enum SendStep<E> {
    /// An envelope is already stored under the idempotency key: it and its
    /// deliveries are returned as they are, and nothing new is written.
    Replay(E),
    /// No envelope is stored under the key: a new one is created.
    Create,
}

/// Blank content or a blank idempotency key is refused before any write;
/// a request whose key already names a stored envelope replays that
/// envelope; any other creates one.
pub fn send_message_step<E>(content: &str, idempotency_key: &str, existing: Option<E>) -> (r: Result<
    SendStep<E>,
    String,
>)
    ensures
        (crate::text::is_blank(content@) || crate::text::is_blank(idempotency_key@)) ==> (r matches Err(
            e,
        ) && e@ == "managed Team message content and idempotency key are required"@),
        !(crate::text::is_blank(content@) || crate::text::is_blank(idempotency_key@)) ==> match existing {
            Some(env) => r matches Ok(SendStep::Replay(x)) && x == env,
            None => r matches Ok(SendStep::Create),
        },
{
    match crate::team_messaging::validate_message_request(content, idempotency_key) {
        Ok(()) => {},
        Err(e) => {
            return Err(e);
        },
    }
    match existing {
        Some(env) => Ok(SendStep::Replay(env)),
        None => Ok(SendStep::Create),
    }
}

// ---------------------------------------------------------------------
// The message store: idempotent sends
// ---------------------------------------------------------------------

/// A stored Team message envelope: the Team, the idempotency key it was
/// sent under, the message and its deliveries.
#[derive(Debug)]
pub struct TeamMessageEnvelope {
    pub team_id: String,
    pub idempotency_key: String,
    pub message_id: String,
    pub delivery_ids: Vec<String>,
}

/// An envelope as plain values.
pub struct EnvelopeView {
    pub team_id: Seq<char>,
    pub idempotency_key: Seq<char>,
    pub message_id: Seq<char>,
    pub delivery_ids: Seq<Seq<char>>,
}

pub open spec fn strings_view(v: Seq<String>) -> Seq<Seq<char>> {
    v.map_values(|s: String| s@)
}

impl View for TeamMessageEnvelope {
    type V = EnvelopeView;

    open spec fn view(&self) -> EnvelopeView {
        EnvelopeView {
            team_id: self.team_id@,
            idempotency_key: self.idempotency_key@,
            message_id: self.message_id@,
            delivery_ids: strings_view(self.delivery_ids@),
        }
    }
}

/// The position of the envelope stored for `(team, key)`.
pub open spec fn envelope_index(es: Seq<EnvelopeView>, team: Seq<char>, key: Seq<char>) -> Option<int> {
    if exists|i: int| 0 <= i < es.len() && es[i].team_id == team && es[i].idempotency_key == key {
        Some(
            choose|i: int| 0 <= i < es.len() && es[i].team_id == team && es[i].idempotency_key == key,
        )
    } else {
        None
    }
}

/// No two envelopes share a Team and an idempotency key.
pub open spec fn keys_unique(es: Seq<EnvelopeView>) -> bool {
    forall|i: int, j: int|
        #![trigger es[i], es[j]]
        0 <= i < es.len() && 0 <= j < es.len() && i != j ==> !(es[i].team_id == es[j].team_id
            && es[i].idempotency_key == es[j].idempotency_key)
}

/// A send as plain values: blank content or key is refused with the store
/// unchanged; a key already stored for the Team replays that envelope's
/// message and deliveries with the store unchanged; otherwise the new
/// envelope is stored and its ids returned.
pub open spec fn send_model(
    es: Seq<EnvelopeView>,
    team: Seq<char>,
    content: Seq<char>,
    key: Seq<char>,
    message_id: Seq<char>,
    delivery_ids: Seq<Seq<char>>,
) -> (Seq<EnvelopeView>, Result<(Seq<char>, Seq<Seq<char>>), Seq<char>>) {
    if crate::text::is_blank(content) || crate::text::is_blank(key) {
        (es, Err("managed Team message content and idempotency key are required"@))
    } else {
        match envelope_index(es, team, key) {
            Some(i) => (es, Ok((es[i].message_id, es[i].delivery_ids))),
            None => (
                es.push(
                    EnvelopeView { team_id: team, idempotency_key: key, message_id, delivery_ids },
                ),
                Ok((message_id, delivery_ids)),
            ),
        }
    }
}

/// The stored envelopes of managed Teams.
#[derive(Debug)]
pub struct TeamMessageStore {
    envelopes: Vec<TeamMessageEnvelope>,
}

fn copy_strings(v: &Vec<String>) -> (out: Vec<String>)
    ensures
        strings_view(out@) == strings_view(v@),
{
    let mut out: Vec<String> = Vec::new();
    let mut i: usize = 0;
    while i < v.len()
        invariant
            i <= v@.len(),
            out@.len() == i,
            strings_view(out@) == strings_view(v@.take(i as int)),
        decreases v.len() - i,
    {
        proof {
            assert(v@.take(i + 1) =~= v@.take(i as int).push(v@[i as int]));
        }
        let ghost before = out@;
        let c = copy_str(v[i].as_str());
        out.push(c);
        proof {
            assert(out@ == before.push(c));
            assert forall|j: int| 0 <= j < out@.len() implies #[trigger] strings_view(out@)[j]
                == strings_view(v@.take(i + 1))[j] by {
                if j < before.len() {
                    assert(strings_view(before)[j] == strings_view(v@.take(i as int))[j]);
                }
            }
            assert(strings_view(out@) =~= strings_view(v@.take(i + 1)));
        }
        i = i + 1;
    }
    assert(v@.take(v@.len() as int) =~= v@);
    out
}

impl TeamMessageStore {
    pub closed spec fn envelopes(&self) -> Seq<EnvelopeView> {
        self.envelopes@.map_values(|e: TeamMessageEnvelope| e@)
    }

    /// No two stored envelopes share a Team and an idempotency key.
    pub open spec fn wf(&self) -> bool {
        keys_unique(self.envelopes())
    }

    pub fn new() -> (s: Self)
        ensures
            s.wf(),
            s.envelopes() == Seq::<EnvelopeView>::empty(),
    {
        let s = TeamMessageStore { envelopes: Vec::new() };
        assert(s.envelopes() =~= Seq::<EnvelopeView>::empty());
        s
    }

    /// Send a message under an idempotency key: see `send_model`.
    pub fn send(
        &mut self,
        team_id: &str,
        content: &str,
        idempotency_key: &str,
        message_id: String,
        delivery_ids: Vec<String>,
    ) -> (r: Result<(String, Vec<String>), String>)
        requires
            old(self).wf(),
        ensures
            final(self).wf(),
            ({
                let (es, res) = send_model(
                    old(self).envelopes(),
                    team_id@,
                    content@,
                    idempotency_key@,
                    message_id@,
                    strings_view(delivery_ids@),
                );
                &&& final(self).envelopes() == es
                &&& match (r, res) {
                    (Ok((m, d)), Ok((mv, dv))) => m@ == mv && strings_view(d@) == dv,
                    (Err(e), Err(ev)) => e@ == ev,
                    _ => false,
                }
            }),
    {
        let ghost es = self.envelopes();
        match crate::team_messaging::validate_message_request(content, idempotency_key) {
            Ok(()) => {},
            Err(e) => {
                return Err(e);
            },
        }
        let mut i: usize = 0;
        while i < self.envelopes.len()
            invariant
                i <= es.len(),
                es == self.envelopes(),
                keys_unique(es),
                !crate::text::is_blank(content@) && !crate::text::is_blank(idempotency_key@),
                self.envelopes@.len() == es.len(),
                forall|j: int|
                    0 <= j < i ==> !(#[trigger] es[j].team_id == team_id@ && es[j].idempotency_key
                        == idempotency_key@),
            decreases self.envelopes.len() - i,
        {
            let e = &self.envelopes[i];
            assert(es[i as int] == e@);
            if str_eq(e.team_id.as_str(), team_id) && str_eq(e.idempotency_key.as_str(), idempotency_key) {
                proof {
                    assert(es[i as int].team_id == team_id@ && es[i as int].idempotency_key
                        == idempotency_key@);
                    let k = choose|k: int|
                        0 <= k < es.len() && es[k].team_id == team_id@ && es[k].idempotency_key
                            == idempotency_key@;
                    assert(k == i as int);
                    assert(envelope_index(es, team_id@, idempotency_key@) == Some(i as int));
                }
                let m = copy_str(e.message_id.as_str());
                let d = copy_strings(&e.delivery_ids);
                proof {
                    assert(m@ == es[i as int].message_id);
                    assert(strings_view(d@) == es[i as int].delivery_ids);
                }
                return Ok((m, d));
            }
            i = i + 1;
        }
        let rm = copy_str(message_id.as_str());
        let rd = copy_strings(&delivery_ids);
        self.envelopes.push(
            TeamMessageEnvelope {
                team_id: copy_str(team_id),
                idempotency_key: copy_str(idempotency_key),
                message_id,
                delivery_ids,
            },
        );
        proof {
            assert(envelope_index(es, team_id@, idempotency_key@) is None);
            assert(self.envelopes() =~= es.push(
                EnvelopeView {
                    team_id: team_id@,
                    idempotency_key: idempotency_key@,
                    message_id: rm@,
                    delivery_ids: strings_view(rd@),
                },
            ));
        }
        Ok((rm, rd))
    }
}

/// Sending the same request twice gives the same result: the second send
/// replays the message and deliveries of the first and stores nothing new,
/// so the store holds one envelope per Team and key.
pub proof fn law_resend_replays(
    es: Seq<EnvelopeView>,
    team: Seq<char>,
    content: Seq<char>,
    key: Seq<char>,
    first_message: Seq<char>,
    first_deliveries: Seq<Seq<char>>,
    second_message: Seq<char>,
    second_deliveries: Seq<Seq<char>>,
)
    requires
        keys_unique(es),
    ensures
        ({
            let (s1, r1) = send_model(es, team, content, key, first_message, first_deliveries);
            let (s2, r2) = send_model(s1, team, content, key, second_message, second_deliveries);
            &&& r2 == r1
            &&& s2 == s1
            &&& keys_unique(s1)
        }),
{
    if !(crate::text::is_blank(content) || crate::text::is_blank(key)) {
        match envelope_index(es, team, key) {
            Some(i) => {},
            None => {
                let n = es.len() as int;
                let s1 = es.push(
                    EnvelopeView {
                        team_id: team,
                        idempotency_key: key,
                        message_id: first_message,
                        delivery_ids: first_deliveries,
                    },
                );
                assert forall|i: int| 0 <= i < n implies !(#[trigger] s1[i].team_id == team
                    && s1[i].idempotency_key == key) by {
                    assert(s1[i] == es[i]);
                }
                assert(keys_unique(s1)) by {
                    assert forall|a: int, b: int|
                        #![trigger s1[a], s1[b]]
                        0 <= a < s1.len() && 0 <= b < s1.len() && a != b implies !(s1[a].team_id
                            == s1[b].team_id && s1[a].idempotency_key == s1[b].idempotency_key) by {
                        if a < n && b < n {
                            assert(s1[a] == es[a] && s1[b] == es[b]);
                        } else if a == n {
                            assert(s1[b] == es[b]);
                        } else {
                            assert(s1[a] == es[a]);
                        }
                    }
                }
                assert(s1[n].team_id == team && s1[n].idempotency_key == key);
                let k = choose|k: int|
                    0 <= k < s1.len() && s1[k].team_id == team && s1[k].idempotency_key == key;
                assert(k == n);
            },
        }
    }
}

} // verus!

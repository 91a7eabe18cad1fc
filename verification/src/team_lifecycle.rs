//! Construction defaults for durable managed-Team state: new sessions and
//! the run bindings recorded before a Team run launches.
use vstd::prelude::*;

use crate::team_budget::TeamBudgetPolicy;
use crate::team_overlay::{CoordinationMode, TeamIntentStrategy};
use crate::team_state::{is_live, TeamRunBindingStatus};
use crate::text::{copy_str, str_eq};

verus! {

/// Members allowed to run at once in a new Team.
pub const DEFAULT_TEAM_CONCURRENCY: u32 = 2;

/// In-flight automatic coordinator wake batches allowed at once in a new
/// Team; settled wake bindings do not count.
pub const DEFAULT_AUTOMATIC_WAKE_LIMIT: u32 = 5;

#[derive(Debug, Clone, Copy, PartialEq, Eq, Structural)]
pub enum TeamSessionStatus {
    Active,
    Suspending,
    Suspended,
    Draining,
    Closed,
}

/// What started a Team run.
#[derive(Debug, Clone, Copy, PartialEq, Eq, Structural)]
pub enum TeamRunTriggerKind {
    UserCoordinatorTurn,
    WakeBatch,
    Assignment,
}

/// What a Team run may touch.
#[derive(Debug, Clone, Copy, PartialEq, Eq, Structural)]
pub enum TeamWorkClassification {
    CoordinationOnly,
    ReadOnly,
    Write,
}

/// The durable row of a Team session; times are milliseconds since the epoch.
#[derive(Debug, Clone)]
pub struct TeamSession {
    pub id: String,
    pub project_id: String,
    pub coordinator_conversation_id: String,
    pub status: TeamSessionStatus,
    pub strategy: Option<TeamIntentStrategy>,
    pub configured_concurrency: u32,
    pub effective_concurrency: u32,
    pub automatic_wake_limit: u32,
    pub budget_policy: Option<TeamBudgetPolicy>,
    pub pending_coordination_mode: Option<CoordinationMode>,
    pub pending_exit_action: Option<String>,
    pub version: i64,
    pub last_error: Option<String>,
    pub created_at: i64,
    pub updated_at: i64,
    pub closed_at: Option<i64>,
}

/// The durable row binding one run to its Team.
#[derive(Debug, Clone)]
pub struct TeamRunBinding {
    pub id: String,
    pub team_id: String,
    pub team_member_id: Option<String>,
    pub team_member_generation: Option<i64>,
    pub agent_run_id: String,
    pub conversation_id: String,
    pub delegated_session_id: Option<String>,
    pub trigger_kind: TeamRunTriggerKind,
    pub work_classification: TeamWorkClassification,
    pub assignment_id: Option<String>,
    pub first_message_sequence: Option<i64>,
    pub last_message_sequence: Option<i64>,
    pub status: TeamRunBindingStatus,
    pub version: i64,
    pub last_error: Option<String>,
    pub created_at: i64,
    pub launched_at: Option<i64>,
    pub terminal_at: Option<i64>,
}

/// A fresh random id: `uuid::Uuid::new_v4` in its hyphenated form, which
/// is 36 characters long.
#[verifier::external_body]
fn new_id() -> (id: String)
    ensures
        id@.len() == 36,
{
    uuid::Uuid::new_v4().to_string()
}

/// The current time in milliseconds since the epoch
/// (`chrono::Utc::now().timestamp_millis()`); nothing is claimed of it.
#[verifier::external_body]
fn now_millis() -> i64 {
    chrono::Utc::now().timestamp_millis()
}

/// A new active session with the default limits, created at `now`.
pub open spec fn is_new_session(
    s: TeamSession,
    id: Seq<char>,
    project_id: Seq<char>,
    coordinator_conversation_id: Seq<char>,
    now: i64,
) -> bool {
    &&& s.id@ == id
    &&& s.project_id@ == project_id
    &&& s.coordinator_conversation_id@ == coordinator_conversation_id
    &&& s.status == TeamSessionStatus::Active
    &&& s.strategy is None
    &&& s.configured_concurrency == DEFAULT_TEAM_CONCURRENCY
    &&& s.effective_concurrency == DEFAULT_TEAM_CONCURRENCY
    &&& s.automatic_wake_limit == DEFAULT_AUTOMATIC_WAKE_LIMIT
    &&& s.budget_policy is None
    &&& s.pending_coordination_mode is None
    &&& s.pending_exit_action is None
    &&& s.version == 0
    &&& s.last_error is None
    &&& s.created_at == now
    &&& s.updated_at == now
    &&& s.closed_at is None
}

/// The session row for a newly ensured Team, with the given id and time.
pub fn team_session_at(id: String, project_id: String, coordinator_conversation_id: String, now: i64) -> (s:
    TeamSession)
    ensures
        is_new_session(s, id@, project_id@, coordinator_conversation_id@, now),
{
    TeamSession {
        id,
        project_id,
        coordinator_conversation_id,
        status: TeamSessionStatus::Active,
        strategy: None,
        configured_concurrency: DEFAULT_TEAM_CONCURRENCY,
        effective_concurrency: DEFAULT_TEAM_CONCURRENCY,
        automatic_wake_limit: DEFAULT_AUTOMATIC_WAKE_LIMIT,
        budget_policy: None,
        pending_coordination_mode: None,
        pending_exit_action: None,
        version: 0,
        last_error: None,
        created_at: now,
        updated_at: now,
        closed_at: None,
    }
}

/// The session row for a newly ensured Team, with a fresh id, created now.
pub fn new_team_session(project_id: String, coordinator_conversation_id: String) -> (s: TeamSession)
    ensures
        exists|now: i64| is_new_session(s, s.id@, project_id@, coordinator_conversation_id@, now),
        s.id@.len() == 36,
{
    let id = new_id();
    let now = now_millis();
    team_session_at(id, project_id, coordinator_conversation_id, now)
}

/// A planned, member-less, coordination-only binding for a coordinator turn.
pub open spec fn is_coordinator_binding(
    b: TeamRunBinding,
    id: Seq<char>,
    team_id: Seq<char>,
    conversation_id: Seq<char>,
    agent_run_id: Seq<char>,
    now: i64,
) -> bool {
    &&& b.id@ == id
    &&& b.team_id@ == team_id
    &&& b.team_member_id is None
    &&& b.team_member_generation is None
    &&& b.agent_run_id@ == agent_run_id
    &&& b.conversation_id@ == conversation_id
    &&& b.delegated_session_id is None
    &&& b.work_classification == TeamWorkClassification::CoordinationOnly
    &&& b.assignment_id is None
    &&& b.status == TeamRunBindingStatus::Planned
    &&& b.version == 0
    &&& b.last_error is None
    &&& b.created_at == now
    &&& b.launched_at is None
    &&& b.terminal_at is None
}

/// The binding recorded before a user-started coordinator turn launches.
pub fn coordinator_run_binding_at(
    id: String,
    team_id: String,
    conversation_id: String,
    agent_run_id: String,
    now: i64,
) -> (b: TeamRunBinding)
    ensures
        is_coordinator_binding(b, id@, team_id@, conversation_id@, agent_run_id@, now),
        b.trigger_kind == TeamRunTriggerKind::UserCoordinatorTurn,
        b.first_message_sequence is None,
        b.last_message_sequence is None,
{
    TeamRunBinding {
        id,
        team_id,
        team_member_id: None,
        team_member_generation: None,
        agent_run_id,
        conversation_id,
        delegated_session_id: None,
        trigger_kind: TeamRunTriggerKind::UserCoordinatorTurn,
        work_classification: TeamWorkClassification::CoordinationOnly,
        assignment_id: None,
        first_message_sequence: None,
        last_message_sequence: None,
        status: TeamRunBindingStatus::Planned,
        version: 0,
        last_error: None,
        created_at: now,
        launched_at: None,
        terminal_at: None,
    }
}

pub fn new_coordinator_run_binding(team_id: String, conversation_id: String, agent_run_id: String) -> (b:
    TeamRunBinding)
    ensures
        exists|now: i64| is_coordinator_binding(b, b.id@, team_id@, conversation_id@, agent_run_id@, now),
        b.id@.len() == 36,
        b.trigger_kind == TeamRunTriggerKind::UserCoordinatorTurn,
        b.first_message_sequence is None,
        b.last_message_sequence is None,
{
    let id = new_id();
    let now = now_millis();
    coordinator_run_binding_at(id, team_id, conversation_id, agent_run_id, now)
}

/// The binding recorded before a claimed coordinator wake batch launches:
/// a coordinator binding triggered by the batch, covering its messages.
pub fn new_coordinator_wake_run_binding(
    team_id: String,
    conversation_id: String,
    agent_run_id: String,
    first_message_sequence: i64,
    last_message_sequence: i64,
) -> (b: TeamRunBinding)
    ensures
        exists|now: i64| is_coordinator_binding(b, b.id@, team_id@, conversation_id@, agent_run_id@, now),
        b.id@.len() == 36,
        b.trigger_kind == TeamRunTriggerKind::WakeBatch,
        b.first_message_sequence == Some(first_message_sequence),
        b.last_message_sequence == Some(last_message_sequence),
{
    let ghost (t, c, a) = (team_id@, conversation_id@, agent_run_id@);
    let mut b = new_coordinator_run_binding(team_id, conversation_id, agent_run_id);
    let ghost now = choose|now: i64| is_coordinator_binding(b, b.id@, t, c, a, now);
    b.trigger_kind = TeamRunTriggerKind::WakeBatch;
    b.first_message_sequence = Some(first_message_sequence);
    b.last_message_sequence = Some(last_message_sequence);
    assert(is_coordinator_binding(b, b.id@, t, c, a, now));
    b
}

/// The member a binding is recorded for.
#[derive(Debug, Clone)]
pub struct TeamMemberRef {
    pub team_id: String,
    pub id: String,
    pub generation: i64,
}

/// The binding recorded before an exact member assignment launches.
pub fn member_assignment_run_binding_at(
    id: String,
    member: &TeamMemberRef,
    delegated_session_id: String,
    conversation_id: String,
    agent_run_id: String,
    assignment_id: String,
    work_classification: TeamWorkClassification,
    now: i64,
) -> (b: TeamRunBinding)
    ensures
        b.id@ == id@,
        b.team_id@ == member.team_id@,
        b.team_member_id matches Some(m) && m@ == member.id@,
        b.team_member_generation == Some(member.generation),
        b.agent_run_id@ == agent_run_id@,
        b.conversation_id@ == conversation_id@,
        b.delegated_session_id matches Some(d) && d@ == delegated_session_id@,
        b.trigger_kind == TeamRunTriggerKind::Assignment,
        b.work_classification == work_classification,
        b.assignment_id matches Some(a) && a@ == assignment_id@,
        b.first_message_sequence is None && b.last_message_sequence is None,
        b.status == TeamRunBindingStatus::Planned,
        b.version == 0,
        b.last_error is None,
        b.created_at == now,
        b.launched_at is None && b.terminal_at is None,
{
    TeamRunBinding {
        id,
        team_id: copy_str(member.team_id.as_str()),
        team_member_id: Some(copy_str(member.id.as_str())),
        team_member_generation: Some(member.generation),
        agent_run_id,
        conversation_id,
        delegated_session_id: Some(delegated_session_id),
        trigger_kind: TeamRunTriggerKind::Assignment,
        work_classification,
        assignment_id: Some(assignment_id),
        first_message_sequence: None,
        last_message_sequence: None,
        status: TeamRunBindingStatus::Planned,
        version: 0,
        last_error: None,
        created_at: now,
        launched_at: None,
        terminal_at: None,
    }
}

pub fn new_member_assignment_run_binding(
    member: &TeamMemberRef,
    delegated_session_id: String,
    conversation_id: String,
    agent_run_id: String,
    assignment_id: String,
    work_classification: TeamWorkClassification,
) -> (b: TeamRunBinding)
    ensures
        b.id@.len() == 36,
        b.team_id@ == member.team_id@,
        b.team_member_id matches Some(m) && m@ == member.id@,
        b.team_member_generation == Some(member.generation),
        b.agent_run_id@ == agent_run_id@,
        b.conversation_id@ == conversation_id@,
        b.delegated_session_id matches Some(d) && d@ == delegated_session_id@,
        b.trigger_kind == TeamRunTriggerKind::Assignment,
        b.work_classification == work_classification,
        b.assignment_id matches Some(a) && a@ == assignment_id@,
        b.first_message_sequence is None && b.last_message_sequence is None,
        b.status == TeamRunBindingStatus::Planned,
        b.version == 0,
        b.last_error is None,
        b.launched_at is None && b.terminal_at is None,
{
    let id = new_id();
    let now = now_millis();
    member_assignment_run_binding_at(
        id,
        member,
        delegated_session_id,
        conversation_id,
        agent_run_id,
        assignment_id,
        work_classification,
        now,
    )
}

/// How many member runs are launching or running.
pub open spec fn dispatch_count(bindings: Seq<TeamRunBinding>) -> nat
    decreases bindings.len(),
{
    if bindings.len() == 0 {
        0
    } else {
        dispatch_count(bindings.drop_last()) + if bindings.last().team_member_id is Some && (
        bindings.last().status == TeamRunBindingStatus::Launching || bindings.last().status
            == TeamRunBindingStatus::Running) {
            1nat
        } else {
            0
        }
    }
}

proof fn lemma_dispatch_count_prefix(bindings: Seq<TeamRunBinding>, i: int)
    requires
        0 <= i <= bindings.len(),
    ensures
        dispatch_count(bindings.take(i)) <= dispatch_count(bindings),
    decreases bindings.len() - i,
{
    if i < bindings.len() {
        lemma_dispatch_count_prefix(bindings, i + 1);
        assert(bindings.take(i + 1).drop_last() =~= bindings.take(i));
    } else {
        assert(bindings.take(i) =~= bindings);
    }
}

/// Only member runs that are launching or running occupy the Team's
/// concurrency: one more binding raises the count by one when it is a
/// member's launching or running binding, and leaves it unchanged when it is
/// planned, settled, or the coordinator's own.
pub proof fn law_only_launching_or_running_member_runs_count(
    bindings: Seq<TeamRunBinding>,
    b: TeamRunBinding,
)
    ensures
        (b.team_member_id is Some && (b.status == TeamRunBindingStatus::Launching || b.status
            == TeamRunBindingStatus::Running)) ==> dispatch_count(bindings.push(b)) == dispatch_count(
            bindings,
        ) + 1,
        (b.team_member_id is None || b.status == TeamRunBindingStatus::Planned || b.status
            == TeamRunBindingStatus::Terminal || b.status == TeamRunBindingStatus::Cancelled
            || b.status == TeamRunBindingStatus::Failed) ==> dispatch_count(bindings.push(b))
            == dispatch_count(bindings),
{
    assert(bindings.push(b).drop_last() =~= bindings);
}

/// The Team's member runs that occupy its concurrency.
pub fn configured_dispatch_count(bindings: &Vec<TeamRunBinding>) -> (r: Result<u32, String>)
    ensures
        dispatch_count(bindings@) <= u32::MAX ==> r == Ok::<u32, String>(dispatch_count(bindings@) as u32),
        dispatch_count(bindings@) > u32::MAX ==> (r matches Err(e) && e@
            == "managed Team dispatch count overflowed"@),
{
    let mut count: u64 = 0;
    let mut i: usize = 0;
    while i < bindings.len()
        invariant
            i <= bindings@.len(),
            count == dispatch_count(bindings@.take(i as int)),
            count <= i,
        decreases bindings.len() - i,
    {
        assert(bindings@.take(i + 1).drop_last() =~= bindings@.take(i as int));
        let b = &bindings[i];
        if b.team_member_id.is_some() && (b.status == TeamRunBindingStatus::Launching || b.status
            == TeamRunBindingStatus::Running) {
            count = count + 1;
        }
        i = i + 1;
    }
    assert(bindings@.take(bindings@.len() as int) =~= bindings@);
    if count > 4294967295u64 {
        return Err(copy_str("managed Team dispatch count overflowed"));
    }
    Ok(count as u32)
}

/// A Team's coordinator conversation must be a project conversation of the
/// Team's own project.
pub fn check_coordinator_conversation(is_project_context: bool, context_id: &str, project_id: &str) -> (r:
    Result<(), String>)
    ensures
        (is_project_context && context_id@ == project_id@) ==> r is Ok,
        !(is_project_context && context_id@ == project_id@) ==> (r matches Err(e) && e@
            == "Team coordinator conversation does not belong to the requested project"@),
{
    if !is_project_context || !str_eq(context_id, project_id) {
        return Err(copy_str("Team coordinator conversation does not belong to the requested project"));
    }
    Ok(())
}

/// Whether a run's existing binding may be reused for a coordinator send:
/// `Ok(false)` when there is none, `Ok(true)` when it is this Team's
/// member-less binding in this conversation, an error otherwise.
pub fn reuse_preallocated_binding(existing: Option<&TeamRunBinding>, team_id: &str, conversation_id: &str) -> (r:
    Result<bool, String>)
    ensures
        existing is None ==> r == Ok::<bool, String>(false),
        existing matches Some(b) ==> if b.team_id@ == team_id@ && b.conversation_id@ == conversation_id@
            && b.team_member_id is None {
            r == Ok::<bool, String>(true)
        } else {
            r matches Err(e) && e@
                == "agent run already carries a Team run binding for a different Team or conversation"@
        },
{
    match existing {
        None => Ok(false),
        Some(b) => {
            if str_eq(b.team_id.as_str(), team_id) && str_eq(b.conversation_id.as_str(), conversation_id)
                && b.team_member_id.is_none() {
                Ok(true)
            } else {
                Err(
                    copy_str(
                        "agent run already carries a Team run binding for a different Team or conversation",
                    ),
                )
            }
        },
    }
}

/// A live, member-less binding: the coordinator's own run.
pub open spec fn is_live_coordinator_binding(b: TeamRunBinding) -> bool {
    b.team_member_id is None && is_live(b.status)
}

/// The index of the latest live coordinator binding among the first `n`
/// (the last one among equally late ones).
pub open spec fn latest_coordinator_index(bindings: Seq<TeamRunBinding>, n: int) -> Option<int>
    decreases n,
{
    if n <= 0 {
        None
    } else {
        let prev = latest_coordinator_index(bindings, n - 1);
        if is_live_coordinator_binding(bindings[n - 1]) && match prev {
            Some(p) => bindings[p].created_at <= bindings[n - 1].created_at,
            None => true,
        } {
            Some(n - 1)
        } else {
            prev
        }
    }
}

proof fn lemma_latest_index_bounds(bindings: Seq<TeamRunBinding>, n: int)
    requires
        0 <= n <= bindings.len(),
    ensures
        latest_coordinator_index(bindings, n) matches Some(p) ==> 0 <= p < n
            && is_live_coordinator_binding(bindings[p]),
    decreases n,
{
    if n > 0 {
        lemma_latest_index_bounds(bindings, n - 1);
    }
}

/// The coordinator run a member event is parented to: the latest live
/// coordinator binding's run.
pub fn coordinator_parent_run_id(bindings: &Vec<TeamRunBinding>) -> (r: Option<String>)
    ensures
        match latest_coordinator_index(bindings@, bindings@.len() as int) {
            Some(p) => r matches Some(id) && id@ == bindings@[p].agent_run_id@,
            None => r is None,
        },
{
    let mut best: Option<usize> = None;
    let mut i: usize = 0;
    while i < bindings.len()
        invariant
            i <= bindings@.len(),
            match best {
                Some(p) => latest_coordinator_index(bindings@, i as int) == Some(p as int),
                None => latest_coordinator_index(bindings@, i as int) is None,
            },
        decreases bindings.len() - i,
    {
        proof {
            lemma_latest_index_bounds(bindings@, i as int);
        }
        let b = &bindings[i];
        let live = b.team_member_id.is_none() && (b.status == TeamRunBindingStatus::Planned || b.status
            == TeamRunBindingStatus::Launching || b.status == TeamRunBindingStatus::Running);
        if live {
            let later = match best {
                Some(p) => {
                    proof {
                        lemma_latest_index_bounds(bindings@, i as int);
                    }
                    bindings[p].created_at <= b.created_at
                },
                None => true,
            };
            if later {
                best = Some(i);
            }
        }
        i = i + 1;
    }
    proof {
        lemma_latest_index_bounds(bindings@, bindings@.len() as int);
    }
    match best {
        Some(p) => Some(copy_str(bindings[p].agent_run_id.as_str())),
        None => None,
    }
}

} // verus!

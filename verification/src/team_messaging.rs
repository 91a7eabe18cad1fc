//! Team messages: requests, sender authority, recipients, and the signal a
//! settled assignment sends its coordinator.
use vstd::prelude::*;

use crate::team_lifecycle::TeamRunBinding;
use crate::team_prompt::{TeamMessageActorKind, TeamMessageKind};
use crate::team_state::{is_live, TeamRunBindingStatus};
use crate::text::{opt_view, copy_str, is_blank, push_signed_decimal, push_str, signed_decimal, str_eq, str_is_blank};

verus! {

/// Who a Team message is for.
#[derive(Debug, Clone, PartialEq, Eq)]
pub enum ManagedTeamMessageTarget {
    Coordinator,
    MemberName(String),
    Broadcast,
}

/// Who sends a Team message, with the authority it claims.
#[derive(Debug, Clone)]
pub enum ManagedTeamMessageSender {
    Coordinator { conversation_id: String, source_run_id: Option<String> },
    Member { member_id: String, generation: i64, source_run_id: String },
    /// Backend notifications, such as settlement signals; they carry no run
    /// authority and are checked only against the Team's assignments.
    System { assignment_id: String },
}

#[derive(Debug, Clone)]
pub struct ManagedTeamMessageRequest {
    pub team_id: String,
    pub sender: ManagedTeamMessageSender,
    pub target: ManagedTeamMessageTarget,
    pub kind: TeamMessageKind,
    pub content: String,
    pub idempotency_key: String,
}

/// A message needs content and an idempotency key, neither blank.
pub fn validate_message_request(content: &str, idempotency_key: &str) -> (r: Result<(), String>)
    ensures
        (is_blank(content@) || is_blank(idempotency_key@)) ==> (r matches Err(e) && e@
            == "managed Team message content and idempotency key are required"@),
        !(is_blank(content@) || is_blank(idempotency_key@)) ==> r is Ok,
{
    if str_is_blank(content) || str_is_blank(idempotency_key) {
        return Err(copy_str("managed Team message content and idempotency key are required"));
    }
    Ok(())
}

pub open spec fn sender_kind_of(s: ManagedTeamMessageSender) -> TeamMessageActorKind {
    match s {
        ManagedTeamMessageSender::Coordinator { .. } => TeamMessageActorKind::Coordinator,
        ManagedTeamMessageSender::Member { .. } => TeamMessageActorKind::Member,
        ManagedTeamMessageSender::System { .. } => TeamMessageActorKind::System,
    }
}

pub fn sender_actor_kind(sender: &ManagedTeamMessageSender) -> (k: TeamMessageActorKind)
    ensures
        k == sender_kind_of(*sender),
{
    match sender {
        ManagedTeamMessageSender::Coordinator { .. } => TeamMessageActorKind::Coordinator,
        ManagedTeamMessageSender::Member { .. } => TeamMessageActorKind::Member,
        ManagedTeamMessageSender::System { .. } => TeamMessageActorKind::System,
    }
}

/// The run a message is sent from, where the sender names one.
pub fn sender_source_run_id(sender: &ManagedTeamMessageSender) -> (r: Option<String>)
    ensures
        match *sender {
            ManagedTeamMessageSender::Coordinator { source_run_id, .. } => match source_run_id {
                Some(x) => r matches Some(y) && y@ == x@,
                None => r is None,
            },
            ManagedTeamMessageSender::Member { source_run_id, .. } => r matches Some(y) && y@
                == source_run_id@,
            ManagedTeamMessageSender::System { .. } => r is None,
        },
{
    match sender {
        ManagedTeamMessageSender::Coordinator { source_run_id, .. } => match source_run_id {
            Some(x) => Some(copy_str(x.as_str())),
            None => None,
        },
        ManagedTeamMessageSender::Member { source_run_id, .. } => Some(copy_str(source_run_id.as_str())),
        ManagedTeamMessageSender::System { .. } => None,
    }
}

/// The assignment a system message concerns.
pub fn sender_assignment_id(sender: &ManagedTeamMessageSender) -> (r: Option<String>)
    ensures
        match *sender {
            ManagedTeamMessageSender::System { assignment_id } => r matches Some(y) && y@ == assignment_id@,
            _ => r is None,
        },
{
    match sender {
        ManagedTeamMessageSender::System { assignment_id } => Some(copy_str(assignment_id.as_str())),
        _ => None,
    }
}

/// Whether a coordinator may send for a Team: from the Team's own
/// coordinator conversation and, when it names its run, from a live,
/// member-less binding of this Team in that conversation.
pub open spec fn coordinator_authority(
    team_id: Seq<char>,
    team_conversation_id: Seq<char>,
    conversation_id: Seq<char>,
    names_run: bool,
    binding: Option<TeamRunBinding>,
) -> Result<(), Seq<char>> {
    if team_conversation_id != conversation_id {
        Err("coordinator message cannot cross Team boundaries"@)
    } else if !names_run {
        Ok(())
    } else {
        match binding {
            None => Err("coordinator message run has no Team binding"@),
            Some(b) => if b.team_id@ != team_id || b.team_member_id is Some || b.conversation_id@
                != conversation_id || !is_live(b.status) {
                Err("coordinator message run is not current Team authority"@)
            } else {
                Ok(())
            },
        }
    }
}

pub fn check_coordinator_authority(
    team_id: &str,
    team_conversation_id: &str,
    conversation_id: &str,
    names_run: bool,
    binding: Option<&TeamRunBinding>,
) -> (r: Result<(), String>)
    ensures
        match coordinator_authority(
            team_id@,
            team_conversation_id@,
            conversation_id@,
            names_run,
            match binding {
                Some(b) => Some(*b),
                None => None,
            },
        ) {
            Ok(()) => r is Ok,
            Err(m) => r matches Err(e) && e@ == m,
        },
{
    if !str_eq(team_conversation_id, conversation_id) {
        return Err(copy_str("coordinator message cannot cross Team boundaries"));
    }
    if !names_run {
        return Ok(());
    }
    match binding {
        None => Err(copy_str("coordinator message run has no Team binding")),
        Some(b) => {
            let live = b.status == TeamRunBindingStatus::Planned || b.status
                == TeamRunBindingStatus::Launching || b.status == TeamRunBindingStatus::Running;
            if !str_eq(b.team_id.as_str(), team_id) || b.team_member_id.is_some() || !str_eq(
                b.conversation_id.as_str(),
                conversation_id,
            ) || !live {
                Err(copy_str("coordinator message run is not current Team authority"))
            } else {
                Ok(())
            }
        },
    }
}

/// Some binding of the Team carries the assignment.
pub open spec fn team_has_assignment(bindings: Seq<TeamRunBinding>, assignment_id: Seq<char>) -> bool {
    exists|i: int|
        0 <= i < bindings.len() && opt_view((#[trigger] bindings[i]).assignment_id) == Some(assignment_id)
}

/// A system message may only concern an assignment of this Team.
pub fn check_system_sender(bindings: &Vec<TeamRunBinding>, assignment_id: &str) -> (r: Result<(), String>)
    ensures
        team_has_assignment(bindings@, assignment_id@) ==> r is Ok,
        !team_has_assignment(bindings@, assignment_id@) ==> (r matches Err(e) && e@
            == "system message assignment does not belong to this Team"@),
{
    let mut i: usize = 0;
    while i < bindings.len()
        invariant
            i <= bindings@.len(),
            forall|j: int|
                0 <= j < i ==> opt_view((#[trigger] bindings@[j]).assignment_id) != Some(assignment_id@),
        decreases bindings.len() - i,
    {
        match &bindings[i].assignment_id {
            Some(a) => {
                if str_eq(a.as_str(), assignment_id) {
                    assert(opt_view(bindings@[i as int].assignment_id) == Some(assignment_id@));
                    return Ok(());
                }
            },
            None => {},
        }
        i = i + 1;
    }
    Err(copy_str("system message assignment does not belong to this Team"))
}

/// A member's lifecycle.
#[derive(Debug, Clone, Copy, PartialEq, Eq, Structural)]
pub enum TeamMemberStatus {
    Idle,
    Working,
    AwaitingInput,
    AwaitingApproval,
    Suspended,
    Stopping,
    Stopped,
    Failed,
}

/// Members that can take new messages.
pub open spec fn can_receive(s: TeamMemberStatus) -> bool {
    s == TeamMemberStatus::Idle || s == TeamMemberStatus::Working || s == TeamMemberStatus::AwaitingInput
        || s == TeamMemberStatus::AwaitingApproval
}

pub fn member_can_receive(status: TeamMemberStatus) -> (b: bool)
    ensures
        b == can_receive(status),
{
    match status {
        TeamMemberStatus::Idle | TeamMemberStatus::Working | TeamMemberStatus::AwaitingInput
        | TeamMemberStatus::AwaitingApproval => true,
        _ => false,
    }
}

/// A member receives messages whatever it is busy with, and stops receiving
/// them only once suspended, stopping, stopped or failed.
pub proof fn law_active_members_receive_messages(s: TeamMemberStatus)
    ensures
        can_receive(s) <==> !(s == TeamMemberStatus::Suspended || s == TeamMemberStatus::Stopping || s
            == TeamMemberStatus::Stopped || s == TeamMemberStatus::Failed),
        can_receive(TeamMemberStatus::Working),
{
}

/// How an assignment ended.
#[derive(Debug, Clone, Copy, PartialEq, Eq, Structural)]
pub enum AgentTaskAssignmentTerminalStatus {
    Completed,
    Failed,
    Cancelled,
}

pub open spec fn terminal_status_name(s: AgentTaskAssignmentTerminalStatus) -> Seq<char> {
    match s {
        AgentTaskAssignmentTerminalStatus::Completed => "Completed"@,
        AgentTaskAssignmentTerminalStatus::Failed => "Failed"@,
        AgentTaskAssignmentTerminalStatus::Cancelled => "Cancelled"@,
    }
}

fn terminal_status_str(s: AgentTaskAssignmentTerminalStatus) -> (r: &'static str)
    ensures
        r@ == terminal_status_name(s),
{
    match s {
        AgentTaskAssignmentTerminalStatus::Completed => "Completed",
        AgentTaskAssignmentTerminalStatus::Failed => "Failed",
        AgentTaskAssignmentTerminalStatus::Cancelled => "Cancelled",
    }
}

/// The message a settled assignment sends its coordinator.
#[derive(Debug, Clone)]
pub struct SettlementSignal {
    pub kind: TeamMessageKind,
    pub content: String,
    pub idempotency_key: String,
}

pub open spec fn settlement_content(
    member_name: Seq<char>,
    task_number: i64,
    task_title: Seq<char>,
    status: AgentTaskAssignmentTerminalStatus,
    reason: Option<Seq<char>>,
) -> Seq<char> {
    "Member '"@ + member_name + "' finished task #"@ + signed_decimal(task_number as int) + " ("@
        + task_title + ") with status "@ + terminal_status_name(status) + match reason {
        Some(r) => ": "@ + r,
        None => Seq::empty(),
    }
}

/// The completion signal for an assignment: a result when it completed, a
/// status otherwise, keyed so that a replayed settlement sends nothing new.
pub fn assignment_settled_signal(
    member_name: &str,
    task_number: i64,
    task_title: &str,
    status: AgentTaskAssignmentTerminalStatus,
    reason: Option<&str>,
    assignment_id: &str,
) -> (s: SettlementSignal)
    ensures
        s.kind == (if status == AgentTaskAssignmentTerminalStatus::Completed {
            TeamMessageKind::Result
        } else {
            TeamMessageKind::Status
        }),
        s.content@ == settlement_content(
            member_name@,
            task_number,
            task_title@,
            status,
            match reason {
                Some(r) => Some(r@),
                None => None,
            },
        ),
        s.idempotency_key@ == "team_assignment_settled:"@ + assignment_id@ + ":"@ + terminal_status_name(
            status,
        ),
{
    let mut content = copy_str("Member '");
    push_str(&mut content, member_name);
    push_str(&mut content, "' finished task #");
    push_signed_decimal(&mut content, task_number);
    push_str(&mut content, " (");
    push_str(&mut content, task_title);
    push_str(&mut content, ") with status ");
    push_str(&mut content, terminal_status_str(status));
    match reason {
        Some(r) => {
            push_str(&mut content, ": ");
            push_str(&mut content, r);
        },
        None => {},
    }
    let kind = match status {
        AgentTaskAssignmentTerminalStatus::Completed => TeamMessageKind::Result,
        _ => TeamMessageKind::Status,
    };
    let mut key = copy_str("team_assignment_settled:");
    push_str(&mut key, assignment_id);
    push_str(&mut key, ":");
    push_str(&mut key, terminal_status_str(status));
    SettlementSignal { kind, content, idempotency_key: key }
}

proof fn lemma_terminal_names_distinct(a: AgentTaskAssignmentTerminalStatus, b: AgentTaskAssignmentTerminalStatus)
    requires
        terminal_status_name(a) == terminal_status_name(b),
    ensures
        a == b,
{
    reveal_strlit("Completed");
    reveal_strlit("Failed");
    reveal_strlit("Cancelled");
    if a != b {
        let na = terminal_status_name(a);
        let nb = terminal_status_name(b);
        assert(na.len() == nb.len());
        assert(na[1] == nb[1]);
    }
}

/// A settlement is keyed by its assignment and outcome alone, so replaying
/// it yields the same idempotency key and never a second wake, while a
/// different outcome gets a different key.
pub proof fn law_settlement_key_is_replay_stable(
    assignment_id: Seq<char>,
    a: AgentTaskAssignmentTerminalStatus,
    b: AgentTaskAssignmentTerminalStatus,
)
    ensures
        ("team_assignment_settled:"@ + assignment_id + ":"@ + terminal_status_name(a) == "team_assignment_settled:"@
            + assignment_id + ":"@ + terminal_status_name(b)) <==> a == b,
{
    let p = "team_assignment_settled:"@ + assignment_id + ":"@;
    let ka = p + terminal_status_name(a);
    let kb = p + terminal_status_name(b);
    if ka == kb {
        assert(ka.subrange(p.len() as int, ka.len() as int) =~= terminal_status_name(a));
        assert(kb.subrange(p.len() as int, kb.len() as int) =~= terminal_status_name(b));
        lemma_terminal_names_distinct(a, b);
    }
}

} // verus!

//! The state rules of managed Teams: exit actions, run-binding status
//! steps, and the startup barrier that fences Team resumption.
use vstd::prelude::*;

use crate::team_overlay::CoordinationMode;
use crate::text::{copy_str, str_eq};

verus! {

/// How a Team is left when its conversation returns to solo.
#[derive(Debug, Clone, Copy, PartialEq, Eq, Structural)]
pub enum TeamExitAction {
    Suspend,
    DrainAndClose,
}

pub open spec fn exit_action_name(a: TeamExitAction) -> Seq<char> {
    match a {
        TeamExitAction::Suspend => "suspend"@,
        TeamExitAction::DrainAndClose => "drain_and_close"@,
    }
}

pub open spec fn exit_action_error() -> Seq<char> {
    "managed Team exit action must be suspend or drain_and_close"@
}

impl TeamExitAction {
    /// The action a stored name names.
    pub fn parse(value: &str) -> (r: Result<TeamExitAction, String>)
        ensures
            match r {
                Ok(a) => exit_action_name(a) == value@,
                Err(e) => e@ == exit_action_error() && value@ != "suspend"@ && value@
                    != "drain_and_close"@,
            },
    {
        if str_eq(value, "suspend") {
            Ok(TeamExitAction::Suspend)
        } else if str_eq(value, "drain_and_close") {
            Ok(TeamExitAction::DrainAndClose)
        } else {
            Err(copy_str("managed Team exit action must be suspend or drain_and_close"))
        }
    }

    pub fn as_str(self) -> (s: &'static str)
        ensures
            s@ == exit_action_name(self),
    {
        match self {
            TeamExitAction::Suspend => "suspend",
            TeamExitAction::DrainAndClose => "drain_and_close",
        }
    }
}

/// The exit to run before a conversation leaves Team mode: the durable
/// pending choice when there is one, else drain and close.
pub fn exit_action_for_coordination_change(pending: Option<&str>) -> (r: Result<TeamExitAction, String>)
    ensures
        match pending {
            None => r == Ok::<TeamExitAction, String>(TeamExitAction::DrainAndClose),
            Some(p) => match r {
                Ok(a) => exit_action_name(a) == p@,
                Err(e) => e@ == exit_action_error() && p@ != "suspend"@ && p@ != "drain_and_close"@,
            },
        },
{
    match pending {
        Some(p) => TeamExitAction::parse(p),
        None => Ok(TeamExitAction::DrainAndClose),
    }
}

pub open spec fn exit_mismatch_error() -> Seq<char> {
    "managed Team already has a different exit action pending"@
}

/// Whether an exit may go ahead against the durable pending marker:
/// `Ok(true)` when the marker must first be written, `Ok(false)` when the
/// same action is already pending, an error when another action is.
pub fn check_pending_exit(pending: Option<&str>, action: TeamExitAction) -> (r: Result<bool, String>)
    ensures
        match pending {
            None => r == Ok::<bool, String>(true),
            Some(p) => if p@ == exit_action_name(action) {
                r == Ok::<bool, String>(false)
            } else {
                r matches Err(e) && e@ == exit_mismatch_error()
            },
        },
{
    match pending {
        None => Ok(true),
        Some(p) => {
            if str_eq(p, action.as_str()) {
                Ok(false)
            } else {
                Err(copy_str("managed Team already has a different exit action pending"))
            }
        },
    }
}

/// The lifecycle of a Team run binding.
#[derive(Debug, Clone, Copy, PartialEq, Eq, Structural)]
pub enum TeamRunBindingStatus {
    Planned,
    Launching,
    Running,
    Terminal,
    Cancelled,
    Failed,
}

pub open spec fn is_live(s: TeamRunBindingStatus) -> bool {
    s == TeamRunBindingStatus::Planned || s == TeamRunBindingStatus::Launching || s
        == TeamRunBindingStatus::Running
}

/// The single steps a binding may take: along Planned, Launching, Running,
/// Terminal, or from any live status to Cancelled or Failed.
pub open spec fn can_step(from: TeamRunBindingStatus, to: TeamRunBindingStatus) -> bool {
    ||| from == TeamRunBindingStatus::Planned && to == TeamRunBindingStatus::Launching
    ||| from == TeamRunBindingStatus::Launching && to == TeamRunBindingStatus::Running
    ||| from == TeamRunBindingStatus::Running && to == TeamRunBindingStatus::Terminal
    ||| is_live(from) && (to == TeamRunBindingStatus::Cancelled || to == TeamRunBindingStatus::Failed)
}

impl TeamRunBindingStatus {
    pub fn can_transition_to(self, to: TeamRunBindingStatus) -> (b: bool)
        ensures
            b == can_step(self, to),
    {
        match (self, to) {
            (TeamRunBindingStatus::Planned, TeamRunBindingStatus::Launching) => true,
            (TeamRunBindingStatus::Launching, TeamRunBindingStatus::Running) => true,
            (TeamRunBindingStatus::Running, TeamRunBindingStatus::Terminal) => true,
            (TeamRunBindingStatus::Planned, TeamRunBindingStatus::Cancelled) => true,
            (TeamRunBindingStatus::Launching, TeamRunBindingStatus::Cancelled) => true,
            (TeamRunBindingStatus::Running, TeamRunBindingStatus::Cancelled) => true,
            (TeamRunBindingStatus::Planned, TeamRunBindingStatus::Failed) => true,
            (TeamRunBindingStatus::Launching, TeamRunBindingStatus::Failed) => true,
            (TeamRunBindingStatus::Running, TeamRunBindingStatus::Failed) => true,
            _ => false,
        }
    }
}

/// The position of a status on the launch path.
pub open spec fn launch_rank(s: TeamRunBindingStatus) -> int {
    match s {
        TeamRunBindingStatus::Planned => 0,
        TeamRunBindingStatus::Launching => 1,
        TeamRunBindingStatus::Running => 2,
        _ => 3,
    }
}

/// `to` can be reached from `from` by legal steps.
pub open spec fn reachable(from: TeamRunBindingStatus, to: TeamRunBindingStatus) -> bool {
    ||| from == to
    ||| is_live(from) && (to == TeamRunBindingStatus::Cancelled || to == TeamRunBindingStatus::Failed)
    ||| is_live(from) && (to == TeamRunBindingStatus::Launching || to == TeamRunBindingStatus::Running
        || to == TeamRunBindingStatus::Terminal) && launch_rank(from) < launch_rank(to)
}

fn advance_status(from: TeamRunBindingStatus, target: TeamRunBindingStatus) -> (r: (
    TeamRunBindingStatus,
    bool,
))
    ensures
        r.1 == reachable(from, target),
        r.1 == (r.0 == target),
{
    let mut status = from;
    let mut i: usize = 0;
    while i < 4
        invariant
            i <= 4,
            reachable(from, target) == reachable(status, target),
            status == target || !is_live(status) || launch_rank(status) >= i,
        decreases 4 - i,
    {
        if status == target {
            return (status, true);
        }
        let step = if status.can_transition_to(target) {
            target
        } else {
            match status {
                TeamRunBindingStatus::Planned => TeamRunBindingStatus::Launching,
                TeamRunBindingStatus::Launching => TeamRunBindingStatus::Running,
                _ => {
                    return (status, false);
                },
            }
        };
        status = step;
        i = i + 1;
    }
    (status, status == target)
}

/// Step a binding's status to `target` through the legal intermediate
/// statuses. Returns whether `target` was reached; on `false` the status may
/// have advanced part of the way, and the caller must not persist it.
pub fn advance_binding_status(status: &mut TeamRunBindingStatus, target: TeamRunBindingStatus) -> (r: bool)
    ensures
        r == reachable(*old(status), target),
        r == (*final(status) == target),
{
    let (next, reached) = advance_status(*status, target);
    *status = next;
    reached
}

/// Advancing in two calls reaches what one call reaches: when `b` is
/// reachable from `a` and `c` from `b`, then `c` is reachable from `a`.
pub proof fn law_advance_composes(a: TeamRunBindingStatus, b: TeamRunBindingStatus, c: TeamRunBindingStatus)
    requires
        reachable(a, b),
        reachable(b, c),
    ensures
        reachable(a, c),
{
}

/// A binding never moves back along the launch path, and a settled binding
/// (terminal, cancelled or failed) never moves at all.
pub proof fn law_binding_status_never_regresses(from: TeamRunBindingStatus, to: TeamRunBindingStatus)
    requires
        reachable(from, to),
        from != to,
    ensures
        is_live(from),
        launch_rank(from) < launch_rank(to) || to == TeamRunBindingStatus::Cancelled || to
            == TeamRunBindingStatus::Failed,
{
}

/// What the startup barrier knows of open Teams.
#[derive(Debug, Clone)]
pub enum BarrierState {
    /// The barrier has not run: Team conversations are fenced.
    NotRun,
    /// Team state could not be read: Team conversations stay fenced.
    Failed,
    /// The conversations with an open Team session are fenced; delivery
    /// projection opens once recovery releases it.
    Ready { open_team_conversations: Vec<String>, delivery_projection_released: bool },
}

/// The fail-closed startup barrier for managed-Team conversations.
#[derive(Debug)]
pub struct ManagedTeamStartupBarrier {
    state: BarrierState,
}

/// The id occurs in the list.
pub open spec fn listed(ids: Seq<String>, id: Seq<char>) -> bool {
    exists|i: int| 0 <= i < ids.len() && (#[trigger] ids[i])@ == id
}

/// Whether startup resumption must skip a conversation in a barrier state.
pub open spec fn fences(state: BarrierState, mode: CoordinationMode, conversation_id: Seq<char>) -> bool {
    mode == CoordinationMode::RxNativeTeam && match state {
        BarrierState::NotRun | BarrierState::Failed => true,
        BarrierState::Ready { open_team_conversations, .. } => listed(
            open_team_conversations@,
            conversation_id,
        ),
    }
}

pub open spec fn projection_released(state: BarrierState) -> bool {
    state matches BarrierState::Ready { delivery_projection_released, .. } && delivery_projection_released
}

fn is_listed(ids: &Vec<String>, id: &str) -> (b: bool)
    ensures
        b == listed(ids@, id@),
{
    let mut i: usize = 0;
    while i < ids.len()
        invariant
            i <= ids@.len(),
            forall|j: int| 0 <= j < i ==> (#[trigger] ids@[j])@ != id@,
        decreases ids.len() - i,
    {
        if str_eq(ids[i].as_str(), id) {
            assert(ids@[i as int]@ == id@);
            return true;
        }
        i = i + 1;
    }
    false
}

impl ManagedTeamStartupBarrier {
    pub closed spec fn view(&self) -> BarrierState {
        self.state
    }

    /// A barrier that has not run.
    pub fn new() -> (b: Self)
        ensures
            b.view() is NotRun,
    {
        ManagedTeamStartupBarrier { state: BarrierState::NotRun }
    }

    /// Record the open Team sessions' coordinator conversations.
    pub fn record_open_sessions(&mut self, open_team_conversations: Vec<String>)
        ensures
            final(self).view() == (BarrierState::Ready {
                open_team_conversations,
                delivery_projection_released: false,
            }),
    {
        self.state = BarrierState::Ready { open_team_conversations, delivery_projection_released: false };
    }

    /// Record that Team state could not be read.
    pub fn record_failure(&mut self)
        ensures
            final(self).view() is Failed,
    {
        self.state = BarrierState::Failed;
    }

    /// Whether startup resumption must skip this conversation: never for a
    /// non-Team conversation; for a Team conversation, unless the barrier ran
    /// and found no open Team session for it.
    pub fn should_fence_resumption(&self, coordination_mode: CoordinationMode, conversation_id: &str) -> (b:
        bool)
        ensures
            b == fences(self.view(), coordination_mode, conversation_id@),
    {
        if coordination_mode != CoordinationMode::RxNativeTeam {
            return false;
        }
        match &self.state {
            BarrierState::NotRun | BarrierState::Failed => true,
            BarrierState::Ready { open_team_conversations, .. } => is_listed(
                open_team_conversations,
                conversation_id,
            ),
        }
    }

    /// Open delivery projection; only a barrier that ran successfully can be
    /// released.
    pub fn release_delivery_projection(&mut self) -> (r: bool)
        ensures
            r == (old(self).view() is Ready),
            match old(self).view() {
                BarrierState::Ready { open_team_conversations, .. } => final(self).view() == (
                BarrierState::Ready { open_team_conversations, delivery_projection_released: true }),
                _ => final(self).view() == old(self).view(),
            },
    {
        match &mut self.state {
            BarrierState::Ready { delivery_projection_released, .. } => {
                *delivery_projection_released = true;
                true
            },
            _ => false,
        }
    }

    pub fn delivery_projection_released(&self) -> (b: bool)
        ensures
            b == projection_released(self.view()),
    {
        match &self.state {
            BarrierState::Ready { delivery_projection_released, .. } => *delivery_projection_released,
            _ => false,
        }
    }
}

/// Fail closed: until the barrier has run successfully, every Team
/// conversation is fenced and delivery projection stays shut; non-Team
/// conversations are never fenced.
pub proof fn law_barrier_fails_closed(state: BarrierState, mode: CoordinationMode, conversation_id: Seq<char>)
    ensures
        !(state is Ready) && mode == CoordinationMode::RxNativeTeam ==> fences(state, mode, conversation_id),
        !(state is Ready) ==> !projection_released(state),
        mode != CoordinationMode::RxNativeTeam ==> !fences(state, mode, conversation_id),
{
}

/// Releasing delivery projection does not change which conversations are
/// fenced.
pub proof fn law_release_keeps_fencing(
    open_team_conversations: Vec<String>,
    released: bool,
    mode: CoordinationMode,
    conversation_id: Seq<char>,
)
    ensures
        fences(
            BarrierState::Ready { open_team_conversations, delivery_projection_released: released },
            mode,
            conversation_id,
        ) == fences(
            BarrierState::Ready { open_team_conversations, delivery_projection_released: true },
            mode,
            conversation_id,
        ),
{
}

} // verus!

//! Coordinator wakes: which Team messages a wake carries, the text it sends,
//! and the steps of dispatching a claimed wake batch.
use vstd::prelude::*;

use crate::team_prompt::{
    render_team_origin_message, rendered_team_message, TeamMessage, TeamMessageActorKind,
};
use crate::team_lifecycle::{TeamRunBinding, TeamRunTriggerKind};
use crate::team_messaging::{can_receive, member_can_receive, TeamMemberStatus};
use crate::team_state::TeamRunBindingStatus;
use crate::text::{str_eq, copy_str, decimal, join, opt_view, push_decimal, push_joined, push_str};

verus! {

/// Who a stored Team message was addressed to.
#[derive(Debug, Clone, Copy, PartialEq, Eq, Structural)]
pub enum TeamMessageEnvelopeTarget {
    Coordinator,
    Member,
    Broadcast,
}

/// The coordinator actually receives a message: it did not send it, and the
/// message went to it or to everyone.
pub open spec fn is_for_coordinator(sender: TeamMessageActorKind, target: TeamMessageEnvelopeTarget) -> bool {
    sender != TeamMessageActorKind::Coordinator && (target == TeamMessageEnvelopeTarget::Coordinator
        || target == TeamMessageEnvelopeTarget::Broadcast)
}

pub fn addressed_to_coordinator(sender: TeamMessageActorKind, target: TeamMessageEnvelopeTarget) -> (b:
    bool)
    ensures
        b == is_for_coordinator(sender, target),
{
    sender != TeamMessageActorKind::Coordinator && (target == TeamMessageEnvelopeTarget::Coordinator
        || target == TeamMessageEnvelopeTarget::Broadcast)
}

/// A message to members or to everyone needs at least one current
/// recipient; a message to the coordinator needs none.
pub fn check_message_recipients(target: TeamMessageEnvelopeTarget, recipient_count: usize) -> (r:
    Result<(), String>)
    ensures
        recipient_count == 0 && target != TeamMessageEnvelopeTarget::Coordinator ==> (r matches Err(e)
            && e@ == "managed Team message has no current recipients"@),
        recipient_count > 0 || target == TeamMessageEnvelopeTarget::Coordinator ==> r is Ok,
{
    if recipient_count == 0 && target != TeamMessageEnvelopeTarget::Coordinator {
        Err(copy_str("managed Team message has no current recipients"))
    } else {
        Ok(())
    }
}

/// A message in a wake batch's range, with its target and, for a member's
/// message, the member's name.
#[derive(Debug, Clone)]
pub struct WakeMessage {
    pub message: TeamMessage,
    pub target: TeamMessageEnvelopeTarget,
    pub sender_name: Option<String>,
}

/// The rendered messages of a batch that the coordinator receives, in order.
pub open spec fn wake_lines(msgs: Seq<WakeMessage>) -> Seq<Seq<char>>
    decreases msgs.len(),
{
    if msgs.len() == 0 {
        Seq::empty()
    } else {
        let rest = wake_lines(msgs.drop_last());
        let m = msgs.last();
        if is_for_coordinator(m.message.sender_kind, m.target) {
            rest.push(rendered_team_message(m.message, opt_view(m.sender_name)))
        } else {
            rest
        }
    }
}

/// The text of a wake: a count of the messages, the messages one per line,
/// then an instruction to continue.
pub open spec fn wake_text(lines: Seq<Seq<char>>) -> Seq<char> {
    "Team update ("@ + decimal(lines.len()) + " message"@ + (if lines.len() == 1 {
        Seq::empty()
    } else {
        "s"@
    }) + ").\n"@ + join(lines, "\n"@) + "\n\nContinue coordination from this turn."@
}

/// The wake payload for a batch, or `None` when nothing in it is for the
/// coordinator.
pub fn build_wake_message(messages: &Vec<WakeMessage>) -> (r: Option<String>)
    ensures
        wake_lines(messages@).len() == 0 ==> r is None,
        wake_lines(messages@).len() > 0 ==> (r matches Some(t) && t@ == wake_text(wake_lines(messages@))),
{
    let mut lines: Vec<String> = Vec::new();
    let mut i: usize = 0;
    while i < messages.len()
        invariant
            i <= messages@.len(),
            lines@.map_values(|l: String| l@) == wake_lines(messages@.take(i as int)),
            lines@.len() <= i,
        decreases messages.len() - i,
    {
        assert(messages@.take(i + 1).drop_last() =~= messages@.take(i as int));
        let m = &messages[i];
        if addressed_to_coordinator(m.message.sender_kind, m.target) {
            let name: Option<&str> = match &m.sender_name {
                Some(n) => Some(n.as_str()),
                None => None,
            };
            let line = render_team_origin_message(&m.message, name);
            let ghost before = lines@;
            lines.push(line);
            assert(lines@.map_values(|l: String| l@) =~= before.map_values(|l: String| l@).push(
                line@,
            ));
        }
        i = i + 1;
    }
    assert(messages@.take(messages@.len() as int) =~= messages@);
    if lines.len() == 0 {
        return None;
    }
    let mut t = copy_str("Team update (");
    push_decimal(&mut t, lines.len() as u64);
    push_str(&mut t, " message");
    if lines.len() != 1 {
        push_str(&mut t, "s");
    }
    push_str(&mut t, ").\n");
    push_joined(&mut t, &lines, "\n");
    push_str(&mut t, "\n\nContinue coordination from this turn.");
    proof {
        if lines@.len() == 1 {
            assert(t@ =~= wake_text(wake_lines(messages@)));
        } else {
            assert(t@ =~= wake_text(wake_lines(messages@)));
        }
    }
    Some(t)
}

/// How many of the Team's bindings are running.
pub open spec fn running_count(bindings: Seq<TeamRunBinding>) -> nat
    decreases bindings.len(),
{
    if bindings.len() == 0 {
        0
    } else {
        running_count(bindings.drop_last()) + if bindings.last().status == TeamRunBindingStatus::Running {
            1nat
        } else {
            0
        }
    }
}

/// How many of the Team's bindings were started by a wake batch.
pub open spec fn wake_count(bindings: Seq<TeamRunBinding>) -> nat
    decreases bindings.len(),
{
    if bindings.len() == 0 {
        0
    } else {
        wake_count(bindings.drop_last()) + if bindings.last().trigger_kind == TeamRunTriggerKind::WakeBatch {
            1nat
        } else {
            0
        }
    }
}

/// A coordinator wake may be queued only while fewer runs are running than
/// the Team's effective concurrency and fewer wakes have run than its
/// automatic wake limit.
pub fn wake_budget_available(
    bindings: &Vec<TeamRunBinding>,
    effective_concurrency: u32,
    automatic_wake_limit: u32,
) -> (b: bool)
    ensures
        b == (running_count(bindings@) < effective_concurrency && wake_count(bindings@)
            < automatic_wake_limit),
{
    let mut running: u64 = 0;
    let mut wakes: u64 = 0;
    let mut i: usize = 0;
    while i < bindings.len()
        invariant
            i <= bindings@.len(),
            running == running_count(bindings@.take(i as int)),
            wakes == wake_count(bindings@.take(i as int)),
            running <= i && wakes <= i,
        decreases bindings.len() - i,
    {
        assert(bindings@.take(i + 1).drop_last() =~= bindings@.take(i as int));
        if bindings[i].status == TeamRunBindingStatus::Running {
            running = running + 1;
        }
        if bindings[i].trigger_kind == TeamRunTriggerKind::WakeBatch {
            wakes = wakes + 1;
        }
        i = i + 1;
    }
    assert(bindings@.take(bindings@.len() as int) =~= bindings@);
    running < effective_concurrency as u64 && wakes < automatic_wake_limit as u64
}

/// A member delivery is still current: the member belongs to the message's
/// Team, is the generation the delivery was made for, and can receive.
pub open spec fn member_delivery_current(
    member_team: Seq<char>,
    message_team: Seq<char>,
    recipient_generation: Option<i64>,
    member_generation: i64,
    member_status: TeamMemberStatus,
) -> bool {
    member_team == message_team && recipient_generation == Some(member_generation) && can_receive(
        member_status,
    )
}

pub fn check_member_delivery(
    member_team: &str,
    message_team: &str,
    recipient_generation: Option<i64>,
    member_generation: i64,
    member_status: TeamMemberStatus,
) -> (b: bool)
    ensures
        b == member_delivery_current(
            member_team@,
            message_team@,
            recipient_generation,
            member_generation,
            member_status,
        ),
{
    str_eq(member_team, message_team) && recipient_generation == Some(member_generation)
        && member_can_receive(member_status)
}

/// What dispatching a claimed wake batch does next.
#[derive(Debug, Clone, PartialEq, Eq)]
pub enum WakeAction {
    /// Ask whether the coordinator already has an active run.
    CheckCoordinator,
    /// Cancel the batch and its binding: a running coordinator drains the
    /// queued message at turn end.
    Cancel,
    /// Durably move the batch from launching to running.
    MarkRunning,
    /// Load the conversation and build the wake payload.
    Prepare,
    /// Send the payload to the coordinator.
    Send,
    /// Record a failed attempt before retrying.
    RecordRetry(String),
    /// Wait out the retry backoff, then send again.
    Backoff,
    /// Retire the delivered queue entries and settle the batch.
    Settle,
    /// Fail the batch with this reason.
    Fail(String),
    /// Nothing more to do.
    Done,
}

/// What the outside world answered to the last action.
#[derive(Debug)]
pub enum WakeEvent {
    CoordinatorActive(bool),
    MarkedRunning(bool),
    /// The payload, `Ok(false)` when nothing was for the coordinator.
    Prepared(Result<bool, String>),
    Sent(Result<(), String>),
    RetryRecorded(bool),
    BackoffElapsed,
    Finished,
}

#[derive(Debug, Clone, Copy, PartialEq, Eq, Structural)]
pub enum WakeStage {
    Start,
    Checking,
    Marking,
    Preparing,
    Sending,
    Recording,
    Waiting,
    Closing,
    Done,
}

/// One claimed wake batch being dispatched: its stage and the send attempts
/// made so far.
pub struct WakeDispatch {
    pub stage: WakeStage,
    pub attempts: u32,
    pub retry_max: u32,
    pub has_planned_run: bool,
}

impl WakeDispatch {
    pub open spec fn wf(&self) -> bool {
        &&& self.retry_max >= 1
        &&& self.attempts <= self.retry_max
        &&& (self.stage == WakeStage::Recording || self.stage == WakeStage::Waiting) ==> self.attempts
            < self.retry_max
    }

    /// A dispatch for a batch; the configured retry budget is at least one
    /// attempt.
    pub fn new(configured_retry_max: u32, has_planned_run: bool) -> (d: Self)
        ensures
            d.wf(),
            d.stage == WakeStage::Start,
            d.attempts == 0,
            d.retry_max == (if configured_retry_max == 0 {
                1
            } else {
                configured_retry_max
            }),
            d.has_planned_run == has_planned_run,
    {
        WakeDispatch {
            stage: WakeStage::Start,
            attempts: 0,
            retry_max: if configured_retry_max == 0 {
                1
            } else {
                configured_retry_max
            },
            has_planned_run,
        }
    }

    /// The first action.
    pub fn start(&mut self) -> (a: WakeAction)
        requires
            old(self).wf(),
            old(self).stage == WakeStage::Start,
        ensures
            final(self).wf(),
            final(self).attempts == old(self).attempts,
            final(self).retry_max == old(self).retry_max,
            final(self).has_planned_run == old(self).has_planned_run,
            final(self).stage == WakeStage::Checking,
            a == WakeAction::CheckCoordinator,
    {
        self.stage = WakeStage::Checking;
        WakeAction::CheckCoordinator
    }

    /// The next action, given the answer to the last one. A mid-turn
    /// coordinator cancels the batch; a batch without its planned run fails;
    /// a lost race stops; an empty payload settles; a failed send is retried
    /// until the attempts are spent, then fails the batch.
    pub fn step(&mut self, event: WakeEvent) -> (a: WakeAction)
        requires
            old(self).wf(),
        ensures
            final(self).wf(),
            final(self).retry_max == old(self).retry_max,
            final(self).has_planned_run == old(self).has_planned_run,
            match (old(self).stage, event) {
                (WakeStage::Checking, WakeEvent::CoordinatorActive(true)) => a == WakeAction::Cancel
                    && final(self).stage == WakeStage::Closing,
                (WakeStage::Checking, WakeEvent::CoordinatorActive(false)) => if old(self).has_planned_run {
                    a == WakeAction::MarkRunning && final(self).stage == WakeStage::Marking
                } else {
                    (a matches WakeAction::Fail(m) && m@ == "wake batch is missing its planned run id"@)
                        && final(self).stage == WakeStage::Closing
                },
                (WakeStage::Marking, WakeEvent::MarkedRunning(false)) => a == WakeAction::Done
                    && final(self).stage == WakeStage::Done,
                (WakeStage::Marking, WakeEvent::MarkedRunning(true)) => a == WakeAction::Prepare
                    && final(self).stage == WakeStage::Preparing,
                (WakeStage::Preparing, WakeEvent::Prepared(Ok(false))) => a == WakeAction::Settle
                    && final(self).stage == WakeStage::Closing,
                (WakeStage::Preparing, WakeEvent::Prepared(Ok(true))) => a == WakeAction::Send
                    && final(self).stage == WakeStage::Sending && final(self).attempts == 1,
                (WakeStage::Preparing, WakeEvent::Prepared(Err(e))) => (a matches WakeAction::Fail(m) && m@
                    == e@) && final(self).stage == WakeStage::Closing,
                (WakeStage::Sending, WakeEvent::Sent(Ok(()))) => a == WakeAction::Settle
                    && final(self).stage == WakeStage::Closing,
                (WakeStage::Sending, WakeEvent::Sent(Err(e))) => if old(self).attempts >= old(
                    self,
                ).retry_max {
                    (a matches WakeAction::Fail(m) && m@ == e@) && final(self).stage == WakeStage::Closing
                } else {
                    (a matches WakeAction::RecordRetry(m) && m@ == e@) && final(self).stage
                        == WakeStage::Recording
                },
                (WakeStage::Recording, WakeEvent::RetryRecorded(false)) => a == WakeAction::Done
                    && final(self).stage == WakeStage::Done,
                (WakeStage::Recording, WakeEvent::RetryRecorded(true)) => a == WakeAction::Backoff
                    && final(self).stage == WakeStage::Waiting,
                (WakeStage::Waiting, WakeEvent::BackoffElapsed) => a == WakeAction::Send
                    && final(self).stage == WakeStage::Sending && final(self).attempts == old(
                    self,
                ).attempts + 1,
                (WakeStage::Closing, WakeEvent::Finished) => a == WakeAction::Done && final(self).stage
                    == WakeStage::Done,
                _ => a == WakeAction::Done && final(self).stage == WakeStage::Done,
            },
    {
        let stage = self.stage;
        match (stage, event) {
            (WakeStage::Checking, WakeEvent::CoordinatorActive(active)) => {
                if active {
                    self.stage = WakeStage::Closing;
                    WakeAction::Cancel
                } else if self.has_planned_run {
                    self.stage = WakeStage::Marking;
                    WakeAction::MarkRunning
                } else {
                    self.stage = WakeStage::Closing;
                    WakeAction::Fail(copy_str("wake batch is missing its planned run id"))
                }
            },
            (WakeStage::Marking, WakeEvent::MarkedRunning(won)) => {
                if won {
                    self.stage = WakeStage::Preparing;
                    WakeAction::Prepare
                } else {
                    self.stage = WakeStage::Done;
                    WakeAction::Done
                }
            },
            (WakeStage::Preparing, WakeEvent::Prepared(result)) => match result {
                Ok(true) => {
                    self.stage = WakeStage::Sending;
                    self.attempts = 1;
                    WakeAction::Send
                },
                Ok(false) => {
                    self.stage = WakeStage::Closing;
                    WakeAction::Settle
                },
                Err(e) => {
                    self.stage = WakeStage::Closing;
                    WakeAction::Fail(e)
                },
            },
            (WakeStage::Sending, WakeEvent::Sent(result)) => match result {
                Ok(()) => {
                    self.stage = WakeStage::Closing;
                    WakeAction::Settle
                },
                Err(e) => {
                    if self.attempts >= self.retry_max {
                        self.stage = WakeStage::Closing;
                        WakeAction::Fail(e)
                    } else {
                        self.stage = WakeStage::Recording;
                        WakeAction::RecordRetry(e)
                    }
                },
            },
            (WakeStage::Recording, WakeEvent::RetryRecorded(recorded)) => {
                if recorded {
                    self.stage = WakeStage::Waiting;
                    WakeAction::Backoff
                } else {
                    self.stage = WakeStage::Done;
                    WakeAction::Done
                }
            },
            (WakeStage::Waiting, WakeEvent::BackoffElapsed) => {
                self.stage = WakeStage::Sending;
                self.attempts = self.attempts + 1;
                WakeAction::Send
            },
            _ => {
                self.stage = WakeStage::Done;
                WakeAction::Done
            },
        }
    }
}

} // verus!

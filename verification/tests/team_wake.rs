use ralphx::team_lifecycle::{coordinator_run_binding_at, TeamRunBinding, TeamRunTriggerKind};
use ralphx::team_messaging::TeamMemberStatus;
use ralphx::team_prompt::{TeamMessage, TeamMessageActorKind, TeamMessageKind};
use ralphx::team_state::{advance_binding_status, TeamRunBindingStatus};
use ralphx::team_wake::{
    addressed_to_coordinator, build_wake_message, check_message_recipients, check_member_delivery, wake_budget_available,
    TeamMessageEnvelopeTarget, WakeAction, WakeDispatch, WakeEvent, WakeMessage, WakeStage,
};

fn message(seq: i64, sender: TeamMessageActorKind, target: TeamMessageEnvelopeTarget, content: &str, name: Option<&str>) -> WakeMessage {
    WakeMessage {
        message: TeamMessage {
            sequence: seq,
            sender_kind: sender,
            kind: TeamMessageKind::Result,
            content: content.to_string(),
        },
        target,
        sender_name: name.map(str::to_string),
    }
}

fn binding(status: TeamRunBindingStatus, trigger: TeamRunTriggerKind) -> TeamRunBinding {
    let mut b = coordinator_run_binding_at("b".to_string(), "t".to_string(), "c".to_string(), "r".to_string(), 0);
    b.status = status;
    b.trigger_kind = trigger;
    b
}

#[test]
fn wake_message_only_carries_messages_addressed_to_the_coordinator() {
    let msgs = vec![
        message(1, TeamMessageActorKind::Member, TeamMessageEnvelopeTarget::Coordinator, "done", Some("worker")),
        message(2, TeamMessageActorKind::Coordinator, TeamMessageEnvelopeTarget::Broadcast, "own note", None),
        message(3, TeamMessageActorKind::Member, TeamMessageEnvelopeTarget::Member, "peer chat", Some("other")),
        message(4, TeamMessageActorKind::System, TeamMessageEnvelopeTarget::Broadcast, "a < b", None),
    ];
    let text = build_wake_message(&msgs).expect("two messages reach the coordinator");
    assert_eq!(
        text,
        "Team update (2 messages).\n<team_message sequence=\"1\" sender_kind=\"member\" sender=\"worker\" kind=\"result\">done</team_message>\n<team_message sequence=\"4\" sender_kind=\"system\" sender=\"system\" kind=\"result\">a &lt; b</team_message>\n\nContinue coordination from this turn."
    );
}

#[test]
fn wake_message_for_one_message_is_singular_and_empty_batches_send_nothing() {
    let one = vec![message(5, TeamMessageActorKind::Member, TeamMessageEnvelopeTarget::Broadcast, "hi", None)];
    assert!(build_wake_message(&one).unwrap().starts_with("Team update (1 message).\n"));
    let none = vec![message(6, TeamMessageActorKind::Coordinator, TeamMessageEnvelopeTarget::Coordinator, "x", None)];
    assert_eq!(build_wake_message(&none), None);
    assert_eq!(build_wake_message(&Vec::new()), None);
}

#[test]
fn coordinator_is_addressed_by_others_directly_or_by_broadcast() {
    assert!(addressed_to_coordinator(TeamMessageActorKind::Member, TeamMessageEnvelopeTarget::Coordinator));
    assert!(addressed_to_coordinator(TeamMessageActorKind::System, TeamMessageEnvelopeTarget::Broadcast));
    assert!(!addressed_to_coordinator(TeamMessageActorKind::Member, TeamMessageEnvelopeTarget::Member));
    assert!(!addressed_to_coordinator(TeamMessageActorKind::Coordinator, TeamMessageEnvelopeTarget::Broadcast));
}

#[test]
fn wake_budget_counts_only_live_wake_bindings() {
    let bindings = vec![
        binding(TeamRunBindingStatus::Running, TeamRunTriggerKind::UserCoordinatorTurn),
        binding(TeamRunBindingStatus::Terminal, TeamRunTriggerKind::WakeBatch),
    ];
    assert!(wake_budget_available(&bindings, 2, 2));
    assert!(!wake_budget_available(&bindings, 1, 2));
    assert!(!wake_budget_available(&bindings, 2, 1));
    assert!(wake_budget_available(&Vec::new(), 1, 1));
}

#[test]
fn member_delivery_needs_same_team_generation_and_receivable_status() {
    assert!(check_member_delivery("t", "t", Some(3), 3, TeamMemberStatus::Idle));
    assert!(!check_member_delivery("t", "u", Some(3), 3, TeamMemberStatus::Idle));
    assert!(!check_member_delivery("t", "t", Some(2), 3, TeamMemberStatus::Idle));
    assert!(!check_member_delivery("t", "t", None, 3, TeamMemberStatus::Idle));
}

#[test]
fn active_coordinator_run_suppresses_dispatch() {
    let mut d = WakeDispatch::new(3, true);
    assert_eq!(d.start(), WakeAction::CheckCoordinator);
    assert_eq!(d.step(WakeEvent::CoordinatorActive(true)), WakeAction::Cancel);
    assert_eq!(d.step(WakeEvent::Finished), WakeAction::Done);
    assert_eq!(d.stage, WakeStage::Done);
}

#[test]
fn lost_claim_cas_is_a_no_op() {
    let mut d = WakeDispatch::new(3, true);
    d.start();
    assert_eq!(d.step(WakeEvent::CoordinatorActive(false)), WakeAction::MarkRunning);
    assert_eq!(d.step(WakeEvent::MarkedRunning(false)), WakeAction::Done);
}

#[test]
fn batch_without_planned_run_fails() {
    let mut d = WakeDispatch::new(3, false);
    d.start();
    assert_eq!(
        d.step(WakeEvent::CoordinatorActive(false)),
        WakeAction::Fail("wake batch is missing its planned run id".to_string())
    );
}

#[test]
fn successful_dispatch_settles_the_batch_exactly_once() {
    let mut d = WakeDispatch::new(3, true);
    d.start();
    d.step(WakeEvent::CoordinatorActive(false));
    assert_eq!(d.step(WakeEvent::MarkedRunning(true)), WakeAction::Prepare);
    assert_eq!(d.step(WakeEvent::Prepared(Ok(true))), WakeAction::Send);
    assert_eq!(d.step(WakeEvent::Sent(Ok(()))), WakeAction::Settle);
    assert_eq!(d.step(WakeEvent::Finished), WakeAction::Done);
    assert_eq!(d.step(WakeEvent::Finished), WakeAction::Done);
    assert_eq!(d.attempts, 1);
}

#[test]
fn empty_payload_settles_without_sending() {
    let mut d = WakeDispatch::new(1, true);
    d.start();
    d.step(WakeEvent::CoordinatorActive(false));
    d.step(WakeEvent::MarkedRunning(true));
    assert_eq!(d.step(WakeEvent::Prepared(Ok(false))), WakeAction::Settle);
    assert_eq!(d.attempts, 0);
}

#[test]
fn send_failure_retries_then_durably_fails() {
    let mut d = WakeDispatch::new(2, true);
    d.start();
    d.step(WakeEvent::CoordinatorActive(false));
    d.step(WakeEvent::MarkedRunning(true));
    assert_eq!(d.step(WakeEvent::Prepared(Ok(true))), WakeAction::Send);
    assert_eq!(d.step(WakeEvent::Sent(Err("busy".to_string()))), WakeAction::RecordRetry("busy".to_string()));
    assert_eq!(d.step(WakeEvent::RetryRecorded(true)), WakeAction::Backoff);
    assert_eq!(d.step(WakeEvent::BackoffElapsed), WakeAction::Send);
    assert_eq!(d.attempts, 2);
    assert_eq!(d.step(WakeEvent::Sent(Err("still busy".to_string()))), WakeAction::Fail("still busy".to_string()));
    assert!(d.attempts <= d.retry_max);
}

#[test]
fn zero_retry_configuration_still_allows_one_attempt() {
    let d = WakeDispatch::new(0, true);
    assert_eq!(d.retry_max, 1);
    assert_eq!(d.attempts, 0);
}

#[test]
fn advancing_twice_reaches_what_one_advance_reaches() {
    let mut s = TeamRunBindingStatus::Planned;
    assert!(advance_binding_status(&mut s, TeamRunBindingStatus::Launching));
    assert!(advance_binding_status(&mut s, TeamRunBindingStatus::Running));
    let mut direct = TeamRunBindingStatus::Planned;
    assert!(advance_binding_status(&mut direct, TeamRunBindingStatus::Running));
    assert_eq!(s, direct);
    let mut settled = TeamRunBindingStatus::Terminal;
    assert!(!advance_binding_status(&mut settled, TeamRunBindingStatus::Running));
}

#[test]
fn messages_to_members_need_a_current_recipient() {
    assert_eq!(
        check_message_recipients(TeamMessageEnvelopeTarget::Member, 0),
        Err("managed Team message has no current recipients".to_string())
    );
    assert_eq!(
        check_message_recipients(TeamMessageEnvelopeTarget::Broadcast, 0),
        Err("managed Team message has no current recipients".to_string())
    );
    assert!(check_message_recipients(TeamMessageEnvelopeTarget::Coordinator, 0).is_ok());
    assert!(check_message_recipients(TeamMessageEnvelopeTarget::Member, 2).is_ok());
}

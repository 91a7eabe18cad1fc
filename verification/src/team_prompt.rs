//! Prompt text for managed Teams: the delegation contract appended to a
//! coordinator's prompt, and the escaped, attributed rendering of a Team
//! message.
use vstd::prelude::*;

use crate::text::{
    copy_str, escape_xml_attribute, escape_xml_attribute_spec, escape_xml_text,
    escape_xml_text_spec, push_signed_decimal, push_str, signed_decimal,
};

verus! {

/// The contract that tells an RX-native Team coordinator what the backend owns.
pub open spec fn team_contract_text() -> Seq<char> {
    "<rx_native_team_contract>\nRX-native Team mode:\n- Use team_add_member to create a durable lazy member before assigning work.\n- Use team_assign only for independent caller-led tasks; choose each member by normalized name and declare write reservation surfaces for write work.\n- Use team_list to find idle members and team_stop_member to stop a member by name.\n- The backend owns member generations, reservations, run bindings, launch, settlement, and recovery. Never pass or replay ids, generations, sessions, runs, timestamps, or lifecycle bookkeeping.\n- Wait for required member results before depending on them. If you stay solo, briefly explain why delegation would not add useful independent work.\n</rx_native_team_contract>"@
}

pub fn rx_native_team_contract() -> (s: &'static str)
    ensures
        s@ == team_contract_text(),
{
    "<rx_native_team_contract>\nRX-native Team mode:\n- Use team_add_member to create a durable lazy member before assigning work.\n- Use team_assign only for independent caller-led tasks; choose each member by normalized name and declare write reservation surfaces for write work.\n- Use team_list to find idle members and team_stop_member to stop a member by name.\n- The backend owns member generations, reservations, run bindings, launch, settlement, and recovery. Never pass or replay ids, generations, sessions, runs, timestamps, or lifecycle bookkeeping.\n- Wait for required member results before depending on them. If you stay solo, briefly explain why delegation would not add useful independent work.\n</rx_native_team_contract>"
}

/// The prompt, a blank line, then the Team contract.
pub fn apply_rx_native_team_contract(prompt: String) -> (r: String)
    ensures
        r@ == prompt@ + "\n\n"@ + team_contract_text(),
{
    let mut r = prompt;
    push_str(&mut r, "\n\n");
    push_str(&mut r, rx_native_team_contract());
    r
}

/// Who sent a Team message.
#[derive(Debug, Clone, Copy, PartialEq, Eq, Structural)]
pub enum TeamMessageActorKind {
    Coordinator,
    Member,
    System,
}

/// What a Team message is.
#[derive(Debug, Clone, Copy, PartialEq, Eq, Structural)]
pub enum TeamMessageKind {
    Instruction,
    Result,
    Question,
    Status,
    Control,
    Approval,
}

pub open spec fn actor_kind_name(k: TeamMessageActorKind) -> Seq<char> {
    match k {
        TeamMessageActorKind::Coordinator => "coordinator"@,
        TeamMessageActorKind::Member => "member"@,
        TeamMessageActorKind::System => "system"@,
    }
}

pub open spec fn message_kind_name(k: TeamMessageKind) -> Seq<char> {
    match k {
        TeamMessageKind::Instruction => "instruction"@,
        TeamMessageKind::Result => "result"@,
        TeamMessageKind::Question => "question"@,
        TeamMessageKind::Status => "status"@,
        TeamMessageKind::Control => "control"@,
        TeamMessageKind::Approval => "approval"@,
    }
}

impl TeamMessageActorKind {
    pub fn as_str(self) -> (s: &'static str)
        ensures
            s@ == actor_kind_name(self),
    {
        match self {
            TeamMessageActorKind::Coordinator => "coordinator",
            TeamMessageActorKind::Member => "member",
            TeamMessageActorKind::System => "system",
        }
    }
}

impl TeamMessageKind {
    pub fn as_str(self) -> (s: &'static str)
        ensures
            s@ == message_kind_name(self),
    {
        match self {
            TeamMessageKind::Instruction => "instruction",
            TeamMessageKind::Result => "result",
            TeamMessageKind::Question => "question",
            TeamMessageKind::Status => "status",
            TeamMessageKind::Control => "control",
            TeamMessageKind::Approval => "approval",
        }
    }
}

/// The parts of a Team message that its rendering shows.
#[derive(Debug, Clone)]
pub struct TeamMessage {
    pub sequence: i64,
    pub sender_kind: TeamMessageActorKind,
    pub kind: TeamMessageKind,
    pub content: String,
}

/// How the sender is named: the coordinator and the system by their kind,
/// a member by its name (or `member` when unknown).
pub open spec fn sender_label(kind: TeamMessageActorKind, sender_name: Option<Seq<char>>) -> Seq<char> {
    match kind {
        TeamMessageActorKind::Coordinator => "coordinator"@,
        TeamMessageActorKind::Member => match sender_name {
            Some(n) => n,
            None => "member"@,
        },
        TeamMessageActorKind::System => "system"@,
    }
}

pub open spec fn rendered_team_message(m: TeamMessage, sender_name: Option<Seq<char>>) -> Seq<char> {
    "<team_message sequence=\""@ + signed_decimal(m.sequence as int) + "\" sender_kind=\""@
        + actor_kind_name(m.sender_kind) + "\" sender=\""@ + escape_xml_attribute_spec(
        sender_label(m.sender_kind, sender_name),
    ) + "\" kind=\""@ + message_kind_name(m.kind) + "\">"@ + escape_xml_text_spec(m.content@)
        + "</team_message>"@
}

/// A Team message as prompt text: an attributed `team_message` element whose
/// sender is attribute-escaped and whose content is text-escaped.
pub fn render_team_origin_message(message: &TeamMessage, sender_name: Option<&str>) -> (r: String)
    ensures
        r@ == rendered_team_message(
            *message,
            match sender_name {
                Some(n) => Some(n@),
                None => None,
            },
        ),
{
    let sender: &str = match message.sender_kind {
        TeamMessageActorKind::Coordinator => "coordinator",
        TeamMessageActorKind::Member => match sender_name {
            Some(n) => n,
            None => "member",
        },
        TeamMessageActorKind::System => "system",
    };
    let mut r = copy_str("<team_message sequence=\"");
    push_signed_decimal(&mut r, message.sequence);
    push_str(&mut r, "\" sender_kind=\"");
    push_str(&mut r, message.sender_kind.as_str());
    push_str(&mut r, "\" sender=\"");
    push_str(&mut r, escape_xml_attribute(sender).as_str());
    push_str(&mut r, "\" kind=\"");
    push_str(&mut r, message.kind.as_str());
    push_str(&mut r, "\">");
    push_str(&mut r, escape_xml_text(message.content.as_str()).as_str());
    push_str(&mut r, "</team_message>");
    r
}

} // verus!

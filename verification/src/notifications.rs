//! The user-facing copy and dedupe keys of interactive notifications:
//! agents waiting, permission requests, questions and plan approvals.
use vstd::prelude::*;

use crate::agents::ChatContextType;
use crate::text::{chars_of, copy_opt, copy_str, opt_view, push_char, push_str, string_from_chars};

verus! {

/// At most this many characters of a question are shown.
pub const QUESTION_BODY_LIMIT: usize = 240;

#[derive(Debug, Clone, Copy, PartialEq, Eq, Structural)]
pub enum NotificationCategory {
    AgentWaiting,
    PermissionRequest,
    AgentQuestion,
    PlanApproval,
    TeamPlanApproval,
}

#[derive(Debug, Clone, Copy, PartialEq, Eq, Structural)]
pub enum NotificationSeverity {
    Info,
    ActionRequired,
}

/// What a notification opens when followed.
#[derive(Debug, Clone, Copy, PartialEq, Eq, Structural)]
pub enum NotificationTargetKind {
    Nothing,
    AgentConversation,
}

#[derive(Debug, Clone)]
pub struct NotificationTarget {
    pub kind: NotificationTargetKind,
    pub project_id: Option<String>,
    pub task_id: Option<String>,
    pub conversation_id: Option<String>,
    pub setup_conversation_id: Option<String>,
    pub automation_id: Option<String>,
    pub run_id: Option<String>,
}

impl NotificationTarget {
    /// A target that opens nothing.
    pub fn none() -> (t: Self)
        ensures
            t.kind == NotificationTargetKind::Nothing,
            t.project_id is None,
            t.task_id is None,
            t.conversation_id is None,
            t.setup_conversation_id is None,
            t.automation_id is None,
            t.run_id is None,
    {
        NotificationTarget {
            kind: NotificationTargetKind::Nothing,
            project_id: None,
            task_id: None,
            conversation_id: None,
            setup_conversation_id: None,
            automation_id: None,
            run_id: None,
        }
    }
}

/// A notification ready to be stored and shown.
#[derive(Debug, Clone)]
pub struct NewNotification {
    pub project_id: Option<String>,
    pub category: NotificationCategory,
    pub severity: NotificationSeverity,
    pub title: String,
    pub body: Option<String>,
    pub target: NotificationTarget,
    pub dedupe_key: Option<String>,
}

/// Where a notification about a conversation points, with what the
/// resolver learned of its context.
#[derive(Debug, Clone)]
pub struct ResolvedNotificationTarget {
    pub project_id: Option<String>,
    pub target: NotificationTarget,
    pub context_label: Option<String>,
    pub context_kind: Option<ChatContextType>,
    pub project_name: Option<String>,
}

/// A tool-permission request waiting on the user.
#[derive(Debug)]
pub struct PendingPermissionInfo {
    pub request_id: String,
    pub tool_name: String,
    pub tool_input: serde_json::Value,
    pub context: Option<String>,
    pub agent_type: Option<String>,
    pub task_id: Option<String>,
    pub context_type: Option<String>,
    pub context_id: Option<String>,
    pub created_at: String,
}

pub fn permission_notification_key(request_id: &str) -> (k: String)
    ensures
        k@ == "perm:"@ + request_id@,
{
    let mut k = copy_str("perm:");
    push_str(&mut k, request_id);
    k
}

pub fn question_notification_key(request_id: &str) -> (k: String)
    ensures
        k@ == "question:"@ + request_id@,
{
    let mut k = copy_str("question:");
    push_str(&mut k, request_id);
    k
}

pub fn plan_notification_key(session_id: &str, artifact_id: &str) -> (k: String)
    ensures
        k@ == "plan:"@ + session_id@ + ":"@ + artifact_id@,
{
    let mut k = copy_str("plan:");
    push_str(&mut k, session_id);
    push_str(&mut k, ":");
    push_str(&mut k, artifact_id);
    k
}

pub fn pr_review_notification_key(conversation_id: &str, action_id: &str) -> (k: String)
    ensures
        k@ == "pr-review:"@ + conversation_id@ + ":awaiting_user:"@ + action_id@,
{
    let mut k = copy_str("pr-review:");
    push_str(&mut k, conversation_id);
    push_str(&mut k, ":awaiting_user:");
    push_str(&mut k, action_id);
    k
}

pub fn automation_plan_notification_key(run_id: &str) -> (k: String)
    ensures
        k@ == "run:"@ + run_id@ + ":plan_approval"@,
{
    let mut k = copy_str("run:");
    push_str(&mut k, run_id);
    push_str(&mut k, ":plan_approval");
    k
}

pub fn team_plan_notification_key(plan_id: &str) -> (k: String)
    ensures
        k@ == "team-plan:"@ + plan_id@,
{
    let mut k = copy_str("team-plan:");
    push_str(&mut k, plan_id);
    k
}

/// A question cut to its first `QUESTION_BODY_LIMIT` characters, with an
/// ellipsis when something was cut.
pub open spec fn truncated_question(q: Seq<char>) -> Seq<char> {
    if q.len() > QUESTION_BODY_LIMIT {
        q.take(QUESTION_BODY_LIMIT as int).push('…')
    } else {
        q
    }
}

fn truncate_question(question: &str) -> (out: String)
    ensures
        out@ == truncated_question(question@),
{
    let chars = chars_of(question);
    if chars.len() > QUESTION_BODY_LIMIT {
        let mut out = string_from_chars(&chars, 0, QUESTION_BODY_LIMIT);
        push_char(&mut out, '…');
        assert(chars@.subrange(0, QUESTION_BODY_LIMIT as int) =~= question@.take(
            QUESTION_BODY_LIMIT as int,
        ));
        out
    } else {
        copy_str(question)
    }
}

/// A question's body never shows more than the limit plus an ellipsis,
/// and a question within the limit is shown whole.
pub proof fn law_question_copy_is_bounded(q: Seq<char>)
    ensures
        truncated_question(q).len() <= QUESTION_BODY_LIMIT + 1,
        q.len() <= QUESTION_BODY_LIMIT ==> truncated_question(q) == q,
        q.len() > QUESTION_BODY_LIMIT ==> truncated_question(q).take(QUESTION_BODY_LIMIT as int)
            == q.take(QUESTION_BODY_LIMIT as int),
{
    if q.len() > QUESTION_BODY_LIMIT {
        assert(truncated_question(q).take(QUESTION_BODY_LIMIT as int) =~= q.take(QUESTION_BODY_LIMIT as int));
    }
}

/// Dedupe keys tell requests apart: two permission requests share a key
/// exactly when they share an id (and likewise for questions and team plans).
pub proof fn law_dedupe_keys_distinguish_requests(a: Seq<char>, b: Seq<char>)
    ensures
        ("perm:"@ + a == "perm:"@ + b) <==> a == b,
        ("question:"@ + a == "question:"@ + b) <==> a == b,
        ("team-plan:"@ + a == "team-plan:"@ + b) <==> a == b,
{
    lemma_prefix_cancels("perm:"@, a, b);
    lemma_prefix_cancels("question:"@, a, b);
    lemma_prefix_cancels("team-plan:"@, a, b);
}

proof fn lemma_prefix_cancels(p: Seq<char>, a: Seq<char>, b: Seq<char>)
    ensures
        (p + a == p + b) <==> a == b,
{
    if p + a == p + b {
        assert((p + a).subrange(p.len() as int, (p + a).len() as int) =~= a);
        assert((p + b).subrange(p.len() as int, (p + b).len() as int) =~= b);
    }
}

/// How a question's context is named, where it is named at all.
pub open spec fn question_context_name(c: ChatContextType) -> Option<Seq<char>> {
    match c {
        ChatContextType::Ideation => Some("ideation"@),
        ChatContextType::Project => Some("project"@),
        ChatContextType::Standalone => Some("standalone"@),
        ChatContextType::Task | ChatContextType::TaskExecution | ChatContextType::Review
        | ChatContextType::Merge | ChatContextType::BranchUpdate => Some("task"@),
        ChatContextType::Delegation => None,
    }
}

fn question_context_kind(c: ChatContextType) -> (r: Option<&'static str>)
    ensures
        match r {
            Some(s) => question_context_name(c) == Some(s@),
            None => question_context_name(c) is None,
        },
{
    match c {
        ChatContextType::Ideation => Some("ideation"),
        ChatContextType::Project => Some("project"),
        ChatContextType::Standalone => Some("standalone"),
        ChatContextType::Task | ChatContextType::TaskExecution | ChatContextType::Review
        | ChatContextType::Merge | ChatContextType::BranchUpdate => Some("task"),
        ChatContextType::Delegation => None,
    }
}

/// The body of a question notification: the (truncated) question, led by
/// its context and project when both are known.
pub open spec fn question_body(
    context_kind: Option<ChatContextType>,
    project_name: Option<Seq<char>>,
    question: Seq<char>,
) -> Seq<char> {
    let q = truncated_question(question);
    match (context_kind, project_name) {
        (Some(kind), Some(name)) => match question_context_name(kind) {
            Some(k) => k + " on "@ + name + ": "@ + q,
            None => q,
        },
        _ => q,
    }
}

/// The body of a permission request: who wants to run which tool, and
/// where, when a context is known (the resolved label first).
pub open spec fn permission_body(
    agent_type: Option<Seq<char>>,
    tool_name: Seq<char>,
    context_label: Option<Seq<char>>,
    request_context: Option<Seq<char>>,
) -> Seq<char> {
    let actor = match agent_type {
        Some(a) => a,
        None => "Agent"@,
    };
    let location = match context_label {
        Some(c) => " on “"@ + c + "”"@,
        None => match request_context {
            Some(c) => " on “"@ + c + "”"@,
            None => Seq::empty(),
        },
    };
    actor + " wants to run "@ + tool_name + location
}

/// Builds the user-facing copy of interactive notifications.
pub struct InteractiveNotificationProducer;

impl InteractiveNotificationProducer {
    /// An agent finished its turn and waits for the user.
    pub fn agent_waiting(project_id: Option<String>, conversation_id: &str, title: Option<&str>) -> (n:
        NewNotification)
        ensures
            opt_view(n.project_id) == opt_view(project_id),
            n.category == NotificationCategory::AgentWaiting,
            n.severity == NotificationSeverity::Info,
            n.title@ == "Your turn"@,
            n.body matches Some(b) && b@ == "Agent finished on “"@ + (match title {
                Some(t) => t@,
                None => "this conversation"@,
            }) + "” and is waiting for you"@,
            n.target.kind == NotificationTargetKind::AgentConversation,
            opt_view(n.target.project_id) == opt_view(project_id),
            n.target.task_id is None,
            opt_view(n.target.conversation_id) == Some(conversation_id@),
            n.target.setup_conversation_id is None,
            n.target.automation_id is None,
            n.target.run_id is None,
            n.dedupe_key is None,
    {
        let subject = match title {
            Some(t) => t,
            None => "this conversation",
        };
        let mut body = copy_str("Agent finished on “");
        push_str(&mut body, subject);
        push_str(&mut body, "” and is waiting for you");
        let target_project = copy_opt(&project_id);
        NewNotification {
            project_id,
            category: NotificationCategory::AgentWaiting,
            severity: NotificationSeverity::Info,
            title: copy_str("Your turn"),
            body: Some(body),
            target: NotificationTarget {
                kind: NotificationTargetKind::AgentConversation,
                project_id: target_project,
                task_id: None,
                conversation_id: Some(copy_str(conversation_id)),
                setup_conversation_id: None,
                automation_id: None,
                run_id: None,
            },
            dedupe_key: None,
        }
    }

    /// An agent asks permission to run a tool.
    pub fn permission_request(request: &PendingPermissionInfo, resolved: ResolvedNotificationTarget) -> (n:
        NewNotification)
        ensures
            opt_view(n.project_id) == opt_view(resolved.project_id),
            n.category == NotificationCategory::PermissionRequest,
            n.severity == NotificationSeverity::ActionRequired,
            n.title@ == "Permission needed"@,
            n.body matches Some(b) && b@ == permission_body(
                opt_view(request.agent_type),
                request.tool_name@,
                opt_view(resolved.context_label),
                opt_view(request.context),
            ),
            n.target == resolved.target,
            n.dedupe_key matches Some(k) && k@ == "perm:"@ + request.request_id@,
    {
        let mut body = match &request.agent_type {
            Some(a) => copy_str(a.as_str()),
            None => copy_str("Agent"),
        };
        push_str(&mut body, " wants to run ");
        push_str(&mut body, request.tool_name.as_str());
        let location: Option<&String> = match &resolved.context_label {
            Some(c) => Some(c),
            None => match &request.context {
                Some(c) => Some(c),
                None => None,
            },
        };
        match location {
            Some(c) => {
                push_str(&mut body, " on “");
                push_str(&mut body, c.as_str());
                push_str(&mut body, "”");
            },
            None => {},
        }
        NewNotification {
            project_id: resolved.project_id,
            category: NotificationCategory::PermissionRequest,
            severity: NotificationSeverity::ActionRequired,
            title: copy_str("Permission needed"),
            body: Some(body),
            target: resolved.target,
            dedupe_key: Some(permission_notification_key(request.request_id.as_str())),
        }
    }

    /// An agent asks the user a question.
    pub fn agent_question(request_id: &str, question: &str, resolved: ResolvedNotificationTarget) -> (n:
        NewNotification)
        ensures
            opt_view(n.project_id) == opt_view(resolved.project_id),
            n.category == NotificationCategory::AgentQuestion,
            n.severity == NotificationSeverity::ActionRequired,
            n.title@ == "Agent has a question"@,
            n.body matches Some(b) && b@ == question_body(
                resolved.context_kind,
                opt_view(resolved.project_name),
                question@,
            ),
            n.target == resolved.target,
            n.dedupe_key matches Some(k) && k@ == "question:"@ + request_id@,
    {
        let q = truncate_question(question);
        let body = match (resolved.context_kind, &resolved.project_name) {
            (Some(kind), Some(name)) => match question_context_kind(kind) {
                Some(k) => {
                    let mut b = copy_str(k);
                    push_str(&mut b, " on ");
                    push_str(&mut b, name.as_str());
                    push_str(&mut b, ": ");
                    push_str(&mut b, q.as_str());
                    b
                },
                None => q,
            },
            _ => q,
        };
        NewNotification {
            project_id: resolved.project_id,
            category: NotificationCategory::AgentQuestion,
            severity: NotificationSeverity::ActionRequired,
            title: copy_str("Agent has a question"),
            body: Some(body),
            target: resolved.target,
            dedupe_key: Some(question_notification_key(request_id)),
        }
    }

    /// A workspace plan is ready for review.
    pub fn plan_approval(
        project_id: String,
        session_id: &str,
        artifact_id: &str,
        session_title: Option<&str>,
        target: NotificationTarget,
    ) -> (n: NewNotification)
        ensures
            opt_view(n.project_id) == Some(project_id@),
            n.category == NotificationCategory::PlanApproval,
            n.severity == NotificationSeverity::ActionRequired,
            n.title@ == "Plan approval needed"@,
            n.body matches Some(b) && b@ == "“"@ + (match session_title {
                Some(t) => t@,
                None => "Workspace plan"@,
            }) + "” is ready for review"@,
            n.target == target,
            n.dedupe_key matches Some(k) && k@ == "plan:"@ + session_id@ + ":"@ + artifact_id@,
    {
        let subject = match session_title {
            Some(t) => t,
            None => "Workspace plan",
        };
        let mut body = copy_str("“");
        push_str(&mut body, subject);
        push_str(&mut body, "” is ready for review");
        NewNotification {
            project_id: Some(project_id),
            category: NotificationCategory::PlanApproval,
            severity: NotificationSeverity::ActionRequired,
            title: copy_str("Plan approval needed"),
            body: Some(body),
            target,
            dedupe_key: Some(plan_notification_key(session_id, artifact_id)),
        }
    }

    /// A team's plan waits for approval.
    pub fn team_plan_approval(plan_id: &str, team_name: &str, resolved: ResolvedNotificationTarget) -> (n:
        NewNotification)
        ensures
            opt_view(n.project_id) == opt_view(resolved.project_id),
            n.category == NotificationCategory::TeamPlanApproval,
            n.severity == NotificationSeverity::ActionRequired,
            n.title@ == "Team plan approval needed"@,
            n.body matches Some(b) && b@ == team_name@ + " team plan is awaiting approval"@,
            n.target == resolved.target,
            n.dedupe_key matches Some(k) && k@ == "team-plan:"@ + plan_id@,
    {
        let mut body = copy_str(team_name);
        push_str(&mut body, " team plan is awaiting approval");
        NewNotification {
            project_id: resolved.project_id,
            category: NotificationCategory::TeamPlanApproval,
            severity: NotificationSeverity::ActionRequired,
            title: copy_str("Team plan approval needed"),
            body: Some(body),
            target: resolved.target,
            dedupe_key: Some(team_plan_notification_key(plan_id)),
        }
    }
}

} // verus!

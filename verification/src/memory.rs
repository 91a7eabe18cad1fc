//! Memory pipelines: which background memory agents a finished agent run
//! triggers, how they are launched, and how their results are reported.
use vstd::prelude::*;

use crate::agents::ChatContextType;
use crate::env::{env_set, env_view, env_with, EnvView};
use crate::json::{encode_json_string_array, json_string_array};
use crate::path_safety::{absolute_non_root, validate_absolute_non_root_path};
use crate::text::{
    opt_view, chars_of, copy_str, is_blank, push_decimal, push_str, str_eq, str_is_blank, string_from_chars,
    trim, trim_str, decimal,
};

verus! {

/// The memory category of a conversation.
#[derive(Debug, Clone, Copy, PartialEq, Eq, Structural)]
pub enum MemoryCategory {
    Planning,
    Execution,
    Review,
    Merge,
    ProjectChat,
}

pub open spec fn category_of(c: ChatContextType) -> MemoryCategory {
    match c {
        ChatContextType::Ideation => MemoryCategory::Planning,
        ChatContextType::Delegation => MemoryCategory::Execution,
        ChatContextType::Task | ChatContextType::TaskExecution => MemoryCategory::Execution,
        ChatContextType::BranchUpdate => MemoryCategory::Execution,
        ChatContextType::Review => MemoryCategory::Review,
        ChatContextType::Merge => MemoryCategory::Merge,
        ChatContextType::Project | ChatContextType::Standalone => MemoryCategory::ProjectChat,
    }
}

/// Every kind of conversation files its memory under exactly one category:
/// ideation is planning; task work (tasks, task execution, delegation and
/// branch updates) is execution; reviews are review; merges are merge; and
/// project or standalone chat is project chat.
pub proof fn law_conversation_memory_categories(c: ChatContextType)
    ensures
        category_of(c) == MemoryCategory::Planning <==> c == ChatContextType::Ideation,
        category_of(c) == MemoryCategory::Execution <==> (c == ChatContextType::Task || c
            == ChatContextType::TaskExecution || c == ChatContextType::Delegation || c
            == ChatContextType::BranchUpdate),
        category_of(c) == MemoryCategory::Review <==> c == ChatContextType::Review,
        category_of(c) == MemoryCategory::Merge <==> c == ChatContextType::Merge,
        category_of(c) == MemoryCategory::ProjectChat <==> (c == ChatContextType::Project || c
            == ChatContextType::Standalone),
{
}

pub open spec fn category_name(m: MemoryCategory) -> Seq<char> {
    match m {
        MemoryCategory::Planning => "planning"@,
        MemoryCategory::Execution => "execution"@,
        MemoryCategory::Review => "review"@,
        MemoryCategory::Merge => "merge"@,
        MemoryCategory::ProjectChat => "project_chat"@,
    }
}

impl MemoryCategory {
    pub fn from_context_type(context_type: ChatContextType) -> (m: Self)
        ensures
            m == category_of(context_type),
    {
        match context_type {
            ChatContextType::Ideation => MemoryCategory::Planning,
            ChatContextType::Delegation => MemoryCategory::Execution,
            ChatContextType::Task | ChatContextType::TaskExecution => MemoryCategory::Execution,
            ChatContextType::BranchUpdate => MemoryCategory::Execution,
            ChatContextType::Review => MemoryCategory::Review,
            ChatContextType::Merge => MemoryCategory::Merge,
            ChatContextType::Project | ChatContextType::Standalone => MemoryCategory::ProjectChat,
        }
    }

    pub fn as_str(&self) -> (s: &'static str)
        ensures
            s@ == category_name(*self),
    {
        match self {
            MemoryCategory::Planning => "planning",
            MemoryCategory::Execution => "execution",
            MemoryCategory::Review => "review",
            MemoryCategory::Merge => "merge",
            MemoryCategory::ProjectChat => "project_chat",
        }
    }
}

/// Why no memory pipeline runs.
#[derive(Debug, Clone, Copy, PartialEq, Eq, Structural)]
pub enum MemoryPipelineSkipReason {
    NoProjectId,
    RecursionGuard,
    Disabled,
    NoEnabledCategory,
    SettingsLoadFailed,
}

pub open spec fn skip_reason_name(r: MemoryPipelineSkipReason) -> Seq<char> {
    match r {
        MemoryPipelineSkipReason::NoProjectId => "no_project_id"@,
        MemoryPipelineSkipReason::RecursionGuard => "recursion_guard"@,
        MemoryPipelineSkipReason::Disabled => "disabled"@,
        MemoryPipelineSkipReason::NoEnabledCategory => "no_enabled_category"@,
        MemoryPipelineSkipReason::SettingsLoadFailed => "settings_load_failed"@,
    }
}

impl MemoryPipelineSkipReason {
    pub fn as_str(&self) -> (s: &'static str)
        ensures
            s@ == skip_reason_name(*self),
    {
        match self {
            MemoryPipelineSkipReason::NoProjectId => "no_project_id",
            MemoryPipelineSkipReason::RecursionGuard => "recursion_guard",
            MemoryPipelineSkipReason::Disabled => "disabled",
            MemoryPipelineSkipReason::NoEnabledCategory => "no_enabled_category",
            MemoryPipelineSkipReason::SettingsLoadFailed => "settings_load_failed",
        }
    }
}

/// A project's memory settings.
#[derive(Debug, Clone)]
pub struct ProjectMemorySettings {
    pub project_id: String,
    pub enabled: bool,
    pub maintenance_categories: Vec<String>,
    pub capture_categories: Vec<String>,
}

impl ProjectMemorySettings {
    /// Memory on; maintenance after execution, review and merge; capture
    /// after planning, execution and review.
    pub fn default_for_project(project_id: String) -> (s: Self)
        ensures
            s.project_id@ == project_id@,
            s.enabled,
            s.maintenance_categories@.map_values(|c: String| c@) == seq![
                "execution"@,
                "review"@,
                "merge"@,
            ],
            s.capture_categories@.map_values(|c: String| c@) == seq![
                "planning"@,
                "execution"@,
                "review"@,
            ],
    {
        let maintenance = vec![copy_str("execution"), copy_str("review"), copy_str("merge")];
        let capture = vec![copy_str("planning"), copy_str("execution"), copy_str("review")];
        assert(maintenance@.map_values(|c: String| c@) =~= seq!["execution"@, "review"@, "merge"@]);
        assert(capture@.map_values(|c: String| c@) =~= seq!["planning"@, "execution"@, "review"@]);
        ProjectMemorySettings {
            project_id,
            enabled: true,
            maintenance_categories: maintenance,
            capture_categories: capture,
        }
    }
}

/// An agent name without its `ralphx:` namespace.
pub open spec fn normalized_agent_name(name: Seq<char>) -> Seq<char> {
    if name.len() >= 7 && name.take(7) == "ralphx:"@ {
        name.skip(7)
    } else {
        name
    }
}

/// The memory agents themselves, which must not trigger memory pipelines.
pub open spec fn is_memory_agent_name(name: Seq<char>) -> bool {
    let n = normalized_agent_name(name);
    n == "ralphx-memory-maintainer"@ || n == "ralphx-memory-capture"@
}

/// True when `name` is one of the memory agents, with or without namespace.
pub fn is_memory_agent(agent_name: Option<&str>) -> (b: bool)
    ensures
        b == (agent_name matches Some(n) && is_memory_agent_name(n@)),
{
    proof {
        reveal_strlit("ralphx:");
        reveal_strlit("ralphx-memory-maintainer");
        reveal_strlit("ralphx-memory-capture");
    }
    let name = match agent_name {
        Some(n) => n,
        None => {
            return false;
        },
    };
    let chars = chars_of(name);
    let normalized = if chars.len() >= 7 && str_eq(string_from_chars(&chars, 0, 7).as_str(), "ralphx:") {
        assert(chars@.subrange(0, 7) =~= name@.take(7));
        let rest = string_from_chars(&chars, 7, chars.len());
        assert(chars@.subrange(7, chars@.len() as int) =~= name@.skip(7));
        rest
    } else {
        copy_str(name)
    };
    str_eq(normalized.as_str(), "ralphx-memory-maintainer") || str_eq(
        normalized.as_str(),
        "ralphx-memory-capture",
    )
}

/// `names` holds `n`.
pub open spec fn names_contain(names: Seq<String>, n: Seq<char>) -> bool {
    exists|i: int| 0 <= i < names.len() && (#[trigger] names[i])@ == n
}

fn contains_name(names: &Vec<String>, n: &str) -> (b: bool)
    ensures
        b == names_contain(names@, n@),
{
    let mut i: usize = 0;
    while i < names.len()
        invariant
            i <= names@.len(),
            forall|j: int| 0 <= j < i ==> (#[trigger] names@[j])@ != n@,
        decreases names.len() - i,
    {
        if str_eq(names[i].as_str(), n) {
            return true;
        }
        i = i + 1;
    }
    false
}

/// The pipelines a finished run triggers, (maintain, capture), or why none.
pub open spec fn pipeline_decision(
    context_type: ChatContextType,
    has_project: bool,
    agent_name: Option<Seq<char>>,
    settings: ProjectMemorySettings,
) -> Result<(bool, bool), MemoryPipelineSkipReason> {
    let category = category_name(category_of(context_type));
    let maintain = names_contain(settings.maintenance_categories@, category);
    let capture = names_contain(settings.capture_categories@, category);
    if !has_project {
        Err(MemoryPipelineSkipReason::NoProjectId)
    } else if agent_name matches Some(n) && is_memory_agent_name(n) {
        Err(MemoryPipelineSkipReason::RecursionGuard)
    } else if !settings.enabled {
        Err(MemoryPipelineSkipReason::Disabled)
    } else if !maintain && !capture {
        Err(MemoryPipelineSkipReason::NoEnabledCategory)
    } else {
        Ok((maintain, capture))
    }
}

/// Which memory pipelines (maintain, capture) a finished agent run
/// triggers, or why it triggers none.
pub fn resolve_pipelines_with_reason(
    context_type: ChatContextType,
    project_id: Option<&str>,
    agent_name: Option<&str>,
    settings: &ProjectMemorySettings,
) -> (r: Result<(bool, bool), MemoryPipelineSkipReason>)
    ensures
        r == pipeline_decision(
            context_type,
            project_id is Some,
            match agent_name {
                Some(n) => Some(n@),
                None => None,
            },
            *settings,
        ),
{
    if project_id.is_none() {
        return Err(MemoryPipelineSkipReason::NoProjectId);
    }
    if is_memory_agent(agent_name) {
        return Err(MemoryPipelineSkipReason::RecursionGuard);
    }
    if !settings.enabled {
        return Err(MemoryPipelineSkipReason::Disabled);
    }
    let category = MemoryCategory::from_context_type(context_type).as_str();
    let should_maintain = contains_name(&settings.maintenance_categories, category);
    let should_capture = contains_name(&settings.capture_categories, category);
    if !should_maintain && !should_capture {
        return Err(MemoryPipelineSkipReason::NoEnabledCategory);
    }
    Ok((should_maintain, should_capture))
}

/// `resolve_pipelines_with_reason` without the reason.
pub fn resolve_pipelines(
    context_type: ChatContextType,
    project_id: Option<&str>,
    agent_name: Option<&str>,
    settings: &ProjectMemorySettings,
) -> (r: Option<(bool, bool)>)
    ensures
        r == match pipeline_decision(
            context_type,
            project_id is Some,
            match agent_name {
                Some(n) => Some(n@),
                None => None,
            },
            *settings,
        ) {
            Ok(d) => Some(d),
            Err(_) => None,
        },
{
    match resolve_pipelines_with_reason(context_type, project_id, agent_name, settings) {
        Ok(d) => Some(d),
        Err(_) => None,
    }
}

/// The memory agents never trigger memory pipelines themselves, whatever
/// the settings; and a run that triggers any pipeline triggers at least one.
pub proof fn law_memory_agents_never_recurse(
    context_type: ChatContextType,
    agent_name: Seq<char>,
    settings: ProjectMemorySettings,
)
    ensures
        is_memory_agent_name(agent_name) ==> pipeline_decision(
            context_type,
            true,
            Some(agent_name),
            settings,
        ) == Err::<(bool, bool), MemoryPipelineSkipReason>(MemoryPipelineSkipReason::RecursionGuard),
        pipeline_decision(context_type, true, Some(agent_name), settings) matches Ok((m, c)) ==> m || c,
        !settings.enabled ==> pipeline_decision(context_type, true, Some(agent_name), settings) is Err,
{
}

/// The three background memory agents.
#[derive(Debug, Clone, Copy, PartialEq, Eq, Structural)]
pub enum MemoryAgentKind {
    Maintainer,
    Capture,
    Distiller,
}

pub open spec fn memory_agent_name(k: MemoryAgentKind) -> Seq<char> {
    match k {
        MemoryAgentKind::Maintainer => "ralphx:ralphx-memory-maintainer"@,
        MemoryAgentKind::Capture | MemoryAgentKind::Distiller => "ralphx:ralphx-memory-capture"@,
    }
}

pub open spec fn memory_pipeline_role(k: MemoryAgentKind) -> Seq<char> {
    match k {
        MemoryAgentKind::Maintainer => "memory_maintainer"@,
        MemoryAgentKind::Capture => "memory_capture"@,
        MemoryAgentKind::Distiller => "skill_distiller"@,
    }
}

pub open spec fn memory_short_name(k: MemoryAgentKind) -> Seq<char> {
    match k {
        MemoryAgentKind::Maintainer => "ralphx-memory-maintainer"@,
        MemoryAgentKind::Capture | MemoryAgentKind::Distiller => "ralphx-memory-capture"@,
    }
}

impl MemoryAgentKind {
    /// The namespaced agent the kind runs as.
    pub fn agent_name(self) -> (s: &'static str)
        ensures
            s@ == memory_agent_name(self),
    {
        match self {
            MemoryAgentKind::Maintainer => "ralphx:ralphx-memory-maintainer",
            MemoryAgentKind::Capture | MemoryAgentKind::Distiller => "ralphx:ralphx-memory-capture",
        }
    }

    /// The pipeline role the kind runs under.
    pub fn pipeline_role(self) -> (s: &'static str)
        ensures
            s@ == memory_pipeline_role(self),
    {
        match self {
            MemoryAgentKind::Maintainer => "memory_maintainer",
            MemoryAgentKind::Capture => "memory_capture",
            MemoryAgentKind::Distiller => "skill_distiller",
        }
    }

    /// The agent name without namespace.
    pub fn short_name(self) -> (s: &'static str)
        ensures
            s@ == memory_short_name(self),
    {
        match self {
            MemoryAgentKind::Maintainer => "ralphx-memory-maintainer",
            MemoryAgentKind::Capture | MemoryAgentKind::Distiller => "ralphx-memory-capture",
        }
    }
}

/// The prompt a memory agent is started with.
pub open spec fn memory_agent_prompt(
    kind: MemoryAgentKind,
    conversation_id: Seq<char>,
    project_id: Seq<char>,
    context_type: Seq<char>,
    context_id: Seq<char>,
) -> Seq<char> {
    let lead = match kind {
        MemoryAgentKind::Maintainer => "Analyze and maintain memory rules for conversation_id='"@,
        _ => "Capture learning from conversation_id='"@,
    };
    lead + conversation_id + "' in project_id='"@ + project_id + "' (context: "@ + context_type
        + ", "@ + context_id + ")"@
}

/// The prompt for the maintainer or capture agent; `context_type` is the
/// conversation type's display name.
pub fn build_memory_agent_prompt(
    kind: MemoryAgentKind,
    conversation_id: &str,
    project_id: &str,
    context_type: &str,
    context_id: &str,
) -> (p: String)
    ensures
        p@ == memory_agent_prompt(kind, conversation_id@, project_id@, context_type@, context_id@),
{
    let mut p = match kind {
        MemoryAgentKind::Maintainer => copy_str(
            "Analyze and maintain memory rules for conversation_id='",
        ),
        _ => copy_str("Capture learning from conversation_id='"),
    };
    push_str(&mut p, conversation_id);
    push_str(&mut p, "' in project_id='");
    push_str(&mut p, project_id);
    push_str(&mut p, "' (context: ");
    push_str(&mut p, context_type);
    push_str(&mut p, ", ");
    push_str(&mut p, context_id);
    push_str(&mut p, ")");
    p
}

/// The environment every memory agent starts with.
pub open spec fn memory_launch_env(
    conversation_id: Seq<char>,
    context_type: Seq<char>,
    context_id: Seq<char>,
    project_id: Seq<char>,
    pipeline_role: Option<Seq<char>>,
) -> Seq<(Seq<char>, Seq<char>)> {
    let base = seq![
        ("RALPHX_CONVERSATION_ID"@, conversation_id),
        ("RALPHX_CONTEXT_TYPE"@, context_type),
        ("RALPHX_CONTEXT_ID"@, context_id),
        ("RALPHX_PROJECT_ID"@, project_id),
        ("RALPHX_PARENT_CONVERSATION_ID"@, conversation_id),
    ];
    match pipeline_role {
        Some(r) => base.push(("RALPHX_PIPELINE_ROLE"@, trim(r))),
        None => base,
    }
}

/// The launch environment of a memory agent: the conversation (also as the
/// parent), its context, the project and, where given, the trimmed pipeline
/// role. A blank role, or a blank project id, is refused.
pub fn prepare_memory_agent_launch(
    conversation_id: &str,
    context_type: &str,
    context_id: &str,
    project_id: &str,
    pipeline_role: Option<&str>,
) -> (r: Result<Vec<(String, String)>, String>)
    ensures
        (pipeline_role matches Some(role) && is_blank(role@)) ==> (r matches Err(e) && e@
            == "Memory agent launch requires a non-blank pipeline role"@),
        !(pipeline_role matches Some(role) && is_blank(role@)) && is_blank(project_id@) ==> (r matches Err(
            e,
        ) && e@ == "Memory agent launch requires a non-blank project ID"@),
        !(pipeline_role matches Some(role) && is_blank(role@)) && !is_blank(project_id@) ==> (r matches Ok(
            env,
        ) && env_view(env@) == memory_launch_env(
            conversation_id@,
            context_type@,
            context_id@,
            project_id@,
            match pipeline_role {
                Some(role) => Some(role@),
                None => None,
            },
        )),
{
    let mut env: Vec<(String, String)> = Vec::new();
    env.push((copy_str("RALPHX_CONVERSATION_ID"), copy_str(conversation_id)));
    env.push((copy_str("RALPHX_CONTEXT_TYPE"), copy_str(context_type)));
    env.push((copy_str("RALPHX_CONTEXT_ID"), copy_str(context_id)));
    env.push((copy_str("RALPHX_PROJECT_ID"), copy_str(project_id)));
    env.push((copy_str("RALPHX_PARENT_CONVERSATION_ID"), copy_str(conversation_id)));
    match pipeline_role {
        Some(role) => {
            if str_is_blank(role) {
                return Err(copy_str("Memory agent launch requires a non-blank pipeline role"));
            }
            env.push((copy_str("RALPHX_PIPELINE_ROLE"), trim_str(role)));
        },
        None => {},
    }
    if str_is_blank(project_id) {
        return Err(copy_str("Memory agent launch requires a non-blank project ID"));
    }
    assert(env_view(env@) =~= memory_launch_env(
        conversation_id@,
        context_type@,
        context_id@,
        project_id@,
        match pipeline_role {
            Some(role) => Some(role@),
            None => None,
        },
    ));
    Ok(env)
}

/// `env` with the claim of a distillation batch recorded in it, before the
/// outcome ids: the agent profile, the batch, its claim token and its
/// fingerprint.
pub open spec fn claim_env(
    env: EnvView,
    profile: Seq<char>,
    batch_id: Seq<char>,
    claim_token: Seq<char>,
    fingerprint: Seq<char>,
) -> EnvView {
    let e1 = env_with(env, "RALPHX_AGENT_PROFILE"@, profile);
    let e2 = env_with(e1, "RALPHX_SKILL_DISTILLATION_BATCH_ID"@, batch_id);
    let e3 = env_with(e2, "RALPHX_SKILL_DISTILLATION_CLAIM_TOKEN"@, claim_token);
    env_with(e3, "RALPHX_SKILL_DISTILLATION_FINGERPRINT"@, fingerprint)
}

/// `env` after the claim of a distillation batch is recorded in it: the
/// claim, then the JSON list of the claimed outcome ids.
pub open spec fn distillation_env(
    env: EnvView,
    profile: Seq<char>,
    batch_id: Seq<char>,
    claim_token: Seq<char>,
    fingerprint: Seq<char>,
    outcome_ids_json: Seq<char>,
) -> EnvView {
    env_with(
        claim_env(env, profile, batch_id, claim_token, fingerprint),
        "RALPHX_SKILL_DISTILLATION_OUTCOME_IDS"@,
        outcome_ids_json,
    )
}

/// Record a claimed distillation batch in a launch environment, given the
/// encoded outcome ids or the text of the encoding error. On an error the
/// claim is recorded and the outcome ids are not.
pub fn record_distillation_claim_env(
    env: &mut Vec<(String, String)>,
    profile: &str,
    batch_id: &str,
    claim_token: &str,
    fingerprint: &str,
    encoded_outcome_ids: Result<String, String>,
) -> (r: Result<(), String>)
    ensures
        match encoded_outcome_ids {
            Ok(json) => r is Ok && env_view(final(env)@) == distillation_env(
                env_view(old(env)@),
                profile@,
                batch_id@,
                claim_token@,
                fingerprint@,
                json@,
            ),
            Err(detail) => (r matches Err(e) && e@ == "Failed to serialize skill distillation outcomes: "@
                + detail@) && env_view(final(env)@) == claim_env(
                env_view(old(env)@),
                profile@,
                batch_id@,
                claim_token@,
                fingerprint@,
            ),
        },
{
    env_set(env, "RALPHX_AGENT_PROFILE", profile);
    env_set(env, "RALPHX_SKILL_DISTILLATION_BATCH_ID", batch_id);
    env_set(env, "RALPHX_SKILL_DISTILLATION_CLAIM_TOKEN", claim_token);
    env_set(env, "RALPHX_SKILL_DISTILLATION_FINGERPRINT", fingerprint);
    match encoded_outcome_ids {
        Ok(json) => {
            env_set(env, "RALPHX_SKILL_DISTILLATION_OUTCOME_IDS", json.as_str());
            Ok(())
        },
        Err(detail) => {
            let mut e = copy_str("Failed to serialize skill distillation outcomes: ");
            push_str(&mut e, detail.as_str());
            Err(e)
        },
    }
}

/// Record a claimed distillation batch in a launch environment, encoding the
/// outcome ids as a JSON list.
pub fn apply_distillation_claim_env(
    env: &mut Vec<(String, String)>,
    profile: &str,
    batch_id: &str,
    claim_token: &str,
    fingerprint: &str,
    outcome_ids: &Vec<String>,
) -> (r: Result<(), String>)
    ensures
        r is Ok,
        env_view(final(env)@) == distillation_env(
            env_view(old(env)@),
            profile@,
            batch_id@,
            claim_token@,
            fingerprint@,
            json_string_array(outcome_ids@.map_values(|i: String| i@)),
        ),
{
    let json = encode_json_string_array(outcome_ids).unwrap();
    record_distillation_claim_env(env, profile, batch_id, claim_token, fingerprint, Ok(json))
}

/// How a request to distill project skills ended.
#[derive(Debug, Clone, Copy, PartialEq, Eq, Structural)]
pub enum ProjectSkillDistillationScheduleStatus {
    Started,
    Queued,
    Skipped,
    Unavailable,
    Failed,
}

pub open spec fn schedule_status_name(s: ProjectSkillDistillationScheduleStatus) -> Seq<char> {
    match s {
        ProjectSkillDistillationScheduleStatus::Started => "started"@,
        ProjectSkillDistillationScheduleStatus::Queued => "queued"@,
        ProjectSkillDistillationScheduleStatus::Skipped => "skipped"@,
        ProjectSkillDistillationScheduleStatus::Unavailable => "unavailable"@,
        ProjectSkillDistillationScheduleStatus::Failed => "failed"@,
    }
}

impl ProjectSkillDistillationScheduleStatus {
    pub fn as_str(self) -> (s: &'static str)
        ensures
            s@ == schedule_status_name(self),
    {
        match self {
            ProjectSkillDistillationScheduleStatus::Started => "started",
            ProjectSkillDistillationScheduleStatus::Queued => "queued",
            ProjectSkillDistillationScheduleStatus::Skipped => "skipped",
            ProjectSkillDistillationScheduleStatus::Unavailable => "unavailable",
            ProjectSkillDistillationScheduleStatus::Failed => "failed",
        }
    }
}

/// What a request to distill project skills reports.
#[derive(Debug, Clone)]
pub struct ProjectSkillDistillationScheduleResult {
    pub status: ProjectSkillDistillationScheduleStatus,
    pub selected_outcomes: usize,
    pub batch_count: usize,
    pub started_batches: usize,
    pub message: Option<String>,
}

/// The report when the claims could not be prepared.
pub fn schedule_preparation_failed() -> (r: ProjectSkillDistillationScheduleResult)
    ensures
        r.status == ProjectSkillDistillationScheduleStatus::Failed,
        r.selected_outcomes == 0 && r.batch_count == 0 && r.started_batches == 0,
        opt_view(r.message) == Some("Evidence could not be queued for distillation."@),
{
    ProjectSkillDistillationScheduleResult {
        status: ProjectSkillDistillationScheduleStatus::Failed,
        selected_outcomes: 0,
        batch_count: 0,
        started_batches: 0,
        message: Some(copy_str("Evidence could not be queued for distillation.")),
    }
}

/// The report owed once claims are prepared, when nothing is to be
/// started: skills disabled, nothing selected, or every batch already
/// claimed elsewhere. `None` when there are batches to start.
pub fn schedule_after_preparation(
    enabled: bool,
    selected_outcomes: usize,
    batch_count: usize,
    prepared_batches: usize,
) -> (r: Option<ProjectSkillDistillationScheduleResult>)
    ensures
        !enabled ==> (r matches Some(res) && res.status == ProjectSkillDistillationScheduleStatus::Skipped
            && res.selected_outcomes == 0 && res.batch_count == 0 && res.started_batches == 0
            && opt_view(res.message) == Some("Project skills are disabled for this project."@)),
        enabled && selected_outcomes == 0 ==> (r matches Some(res) && res.status
            == ProjectSkillDistillationScheduleStatus::Skipped && res.selected_outcomes == 0
            && res.batch_count == 0 && res.started_batches == 0 && opt_view(res.message) == Some("No eligible evidence was available to queue."@)),
        enabled && selected_outcomes > 0 && prepared_batches == 0 ==> (r matches Some(res) && res.status
            == ProjectSkillDistillationScheduleStatus::Queued && res.selected_outcomes
            == selected_outcomes && res.batch_count == batch_count && res.started_batches == 0
            && opt_view(res.message) == Some("Evidence is already queued or being processed by the distiller."@)),
        enabled && selected_outcomes > 0 && prepared_batches > 0 ==> r is None,
{
    if !enabled {
        return Some(
            ProjectSkillDistillationScheduleResult {
                status: ProjectSkillDistillationScheduleStatus::Skipped,
                selected_outcomes: 0,
                batch_count: 0,
                started_batches: 0,
                message: Some(copy_str("Project skills are disabled for this project.")),
            },
        );
    }
    if selected_outcomes == 0 {
        return Some(
            ProjectSkillDistillationScheduleResult {
                status: ProjectSkillDistillationScheduleStatus::Skipped,
                selected_outcomes: 0,
                batch_count: 0,
                started_batches: 0,
                message: Some(copy_str("No eligible evidence was available to queue.")),
            },
        );
    }
    if prepared_batches == 0 {
        return Some(
            ProjectSkillDistillationScheduleResult {
                status: ProjectSkillDistillationScheduleStatus::Queued,
                selected_outcomes,
                batch_count,
                started_batches: 0,
                message: Some(
                    copy_str("Evidence is already queued or being processed by the distiller."),
                ),
            },
        );
    }
    None
}

/// Why prepared claims had to be released before any distiller started.
#[derive(Debug)]
pub enum DistillationLaunchBlocker {
    ProjectMissing,
    ProjectLookupFailed(String),
    WorkingDirectoryUnavailable,
}

/// Whether the project's working directory blocks a distiller launch: it
/// must be an absolute path below the root and (as the file system reports)
/// a directory.
pub fn working_directory_blocker(path: &str, is_directory: bool) -> (r: Option<
    DistillationLaunchBlocker,
>)
    ensures
        r is None <==> (absolute_non_root(path@) && is_directory),
        r is Some ==> r matches Some(DistillationLaunchBlocker::WorkingDirectoryUnavailable),
{
    match validate_absolute_non_root_path(path, "project root") {
        Ok(_) => {
            if is_directory {
                None
            } else {
                Some(DistillationLaunchBlocker::WorkingDirectoryUnavailable)
            }
        },
        Err(_) => Some(DistillationLaunchBlocker::WorkingDirectoryUnavailable),
    }
}

/// The report when prepared claims were released because the project or its
/// working directory is not available.
pub fn schedule_blocked(
    blocker: DistillationLaunchBlocker,
    selected_outcomes: usize,
    batch_count: usize,
) -> (r: ProjectSkillDistillationScheduleResult)
    ensures
        r.selected_outcomes == selected_outcomes,
        r.batch_count == batch_count,
        r.started_batches == 0,
        match blocker {
            DistillationLaunchBlocker::ProjectMissing => r.status
                == ProjectSkillDistillationScheduleStatus::Unavailable && opt_view(r.message) == Some("The project is no longer available."@),
            DistillationLaunchBlocker::ProjectLookupFailed(error) => r.status
                == ProjectSkillDistillationScheduleStatus::Failed && opt_view(r.message) == Some("Project lookup failed: "@ + error@),
            DistillationLaunchBlocker::WorkingDirectoryUnavailable => r.status
                == ProjectSkillDistillationScheduleStatus::Unavailable && opt_view(r.message) == Some("The project working directory is unavailable."@),
        },
{
    let (status, message) = match blocker {
        DistillationLaunchBlocker::ProjectMissing => (
            ProjectSkillDistillationScheduleStatus::Unavailable,
            copy_str("The project is no longer available."),
        ),
        DistillationLaunchBlocker::ProjectLookupFailed(error) => {
            let mut m = copy_str("Project lookup failed: ");
            push_str(&mut m, error.as_str());
            (ProjectSkillDistillationScheduleStatus::Failed, m)
        },
        DistillationLaunchBlocker::WorkingDirectoryUnavailable => (
            ProjectSkillDistillationScheduleStatus::Unavailable,
            copy_str("The project working directory is unavailable."),
        ),
    };
    ProjectSkillDistillationScheduleResult {
        status,
        selected_outcomes,
        batch_count,
        started_batches: 0,
        message: Some(message),
    }
}

/// The report once every prepared batch was offered to a distiller: started
/// when at least one started, else failed with the evidence left queued.
pub fn schedule_after_spawns(
    selected_outcomes: usize,
    batch_count: usize,
    started_batches: usize,
) -> (r: ProjectSkillDistillationScheduleResult)
    ensures
        r.selected_outcomes == selected_outcomes,
        r.batch_count == batch_count,
        r.started_batches == started_batches,
        started_batches > 0 ==> r.status == ProjectSkillDistillationScheduleStatus::Started
            && r.message is None,
        started_batches == 0 ==> r.status == ProjectSkillDistillationScheduleStatus::Failed
            && opt_view(r.message) == Some("Evidence remains queued because the distiller could not start."@),
{
    if started_batches > 0 {
        ProjectSkillDistillationScheduleResult {
            status: ProjectSkillDistillationScheduleStatus::Started,
            selected_outcomes,
            batch_count,
            started_batches,
            message: None,
        }
    } else {
        ProjectSkillDistillationScheduleResult {
            status: ProjectSkillDistillationScheduleStatus::Failed,
            selected_outcomes,
            batch_count,
            started_batches,
            message: Some(copy_str("Evidence remains queued because the distiller could not start.")),
        }
    }
}

/// The conversation a distiller launch is attributed to: the one found for
/// the request, else the one requested, else a synthetic id for the project.
pub fn distillation_conversation_id(
    found: Option<&str>,
    requested: Option<&str>,
    project_id: &str,
) -> (r: String)
    ensures
        r@ == match found {
            Some(f) => f@,
            None => match requested {
                Some(q) => q@,
                None => "project-skill-distillation:"@ + project_id@,
            },
        },
{
    match found {
        Some(f) => copy_str(f),
        None => match requested {
            Some(q) => copy_str(q),
            None => {
                let mut r = copy_str("project-skill-distillation:");
                push_str(&mut r, project_id);
                r
            },
        },
    }
}

/// The tally of one batch of captured memories.
#[derive(Debug, Clone, Copy, PartialEq, Eq, Structural)]
pub struct MemoryCaptureUpsertResult {
    pub inserted: usize,
    pub skipped: usize,
    pub failed: usize,
    pub total: usize,
}

pub open spec fn capture_message(r: MemoryCaptureUpsertResult) -> Seq<char> {
    "Processed "@ + decimal(r.total as nat) + " memories: "@ + decimal(r.inserted as nat)
        + " inserted, "@ + decimal(r.skipped as nat) + " skipped (duplicates), "@ + decimal(
        r.failed as nat,
    ) + " failed"@
}

impl MemoryCaptureUpsertResult {
    pub fn message(&self) -> (m: String)
        ensures
            m@ == capture_message(*self),
    {
        let mut m = copy_str("Processed ");
        push_decimal(&mut m, self.total as u64);
        push_str(&mut m, " memories: ");
        push_decimal(&mut m, self.inserted as u64);
        push_str(&mut m, " inserted, ");
        push_decimal(&mut m, self.skipped as u64);
        push_str(&mut m, " skipped (duplicates), ");
        push_decimal(&mut m, self.failed as u64);
        push_str(&mut m, " failed");
        m
    }
}

/// What became of one captured memory.
#[derive(Debug, Clone, Copy, PartialEq, Eq, Structural)]
pub enum MemoryCaptureOutcome {
    /// Its bucket is not a memory bucket.
    InvalidBucket,
    /// An entry with the same content already exists.
    Duplicate,
    Inserted,
    /// The store refused the new entry.
    CreateFailed,
}

/// The running tally of a capture batch, one outcome per memory.
pub struct MemoryCaptureTally {
    result: MemoryCaptureUpsertResult,
}

impl MemoryCaptureTally {
    pub closed spec fn view(&self) -> MemoryCaptureUpsertResult {
        self.result
    }

    /// How many memories have been accounted for.
    pub open spec fn processed(&self) -> int {
        self.view().inserted + self.view().skipped + self.view().failed
    }

    pub open spec fn wf(&self) -> bool {
        self.processed() <= self.view().total
    }

    /// A tally for a batch of `total` memories.
    pub fn new(total: usize) -> (t: Self)
        ensures
            t.wf(),
            t.view() == (MemoryCaptureUpsertResult { inserted: 0, skipped: 0, failed: 0, total }),
    {
        MemoryCaptureTally { result: MemoryCaptureUpsertResult { inserted: 0, skipped: 0, failed: 0, total } }
    }

    /// Count one memory's outcome.
    pub fn record(&mut self, outcome: MemoryCaptureOutcome)
        requires
            old(self).wf(),
            old(self).processed() < old(self).view().total,
        ensures
            final(self).wf(),
            final(self).processed() == old(self).processed() + 1,
            final(self).view().total == old(self).view().total,
            final(self).view().inserted == old(self).view().inserted + (if outcome
                == MemoryCaptureOutcome::Inserted {
                1int
            } else {
                0
            }),
            final(self).view().skipped == old(self).view().skipped + (if outcome
                == MemoryCaptureOutcome::Duplicate {
                1int
            } else {
                0
            }),
            final(self).view().failed == old(self).view().failed + (if outcome
                == MemoryCaptureOutcome::InvalidBucket || outcome == MemoryCaptureOutcome::CreateFailed {
                1int
            } else {
                0
            }),
    {
        match outcome {
            MemoryCaptureOutcome::Inserted => {
                self.result.inserted = self.result.inserted + 1;
            },
            MemoryCaptureOutcome::Duplicate => {
                self.result.skipped = self.result.skipped + 1;
            },
            MemoryCaptureOutcome::InvalidBucket | MemoryCaptureOutcome::CreateFailed => {
                self.result.failed = self.result.failed + 1;
            },
        }
    }

    /// The tally so far.
    pub fn result(&self) -> (r: MemoryCaptureUpsertResult)
        ensures
            r == self.view(),
    {
        self.result
    }
}

/// What became of one memory of a batch: an unknown bucket fails it before
/// anything is looked up; a stored entry with the same content skips it;
/// otherwise it is inserted, or failed when the store refuses it.
pub open spec fn capture_outcome(bucket_valid: bool, duplicate: bool, created: bool) -> MemoryCaptureOutcome {
    if !bucket_valid {
        MemoryCaptureOutcome::InvalidBucket
    } else if duplicate {
        MemoryCaptureOutcome::Duplicate
    } else if created {
        MemoryCaptureOutcome::Inserted
    } else {
        MemoryCaptureOutcome::CreateFailed
    }
}

/// Classify one memory from what the store answered. `duplicate` is read
/// only for a valid bucket and `created` only for a new entry.
pub fn classify_capture(bucket_valid: bool, duplicate: bool, created: bool) -> (o: MemoryCaptureOutcome)
    ensures
        o == capture_outcome(bucket_valid, duplicate, created),
{
    if !bucket_valid {
        MemoryCaptureOutcome::InvalidBucket
    } else if duplicate {
        MemoryCaptureOutcome::Duplicate
    } else if created {
        MemoryCaptureOutcome::Inserted
    } else {
        MemoryCaptureOutcome::CreateFailed
    }
}

/// How many outcomes of `os` satisfy `f`.
pub open spec fn count_outcomes(os: Seq<MemoryCaptureOutcome>, f: spec_fn(MemoryCaptureOutcome) -> bool) -> nat
    decreases os.len(),
{
    if os.len() == 0 {
        0
    } else {
        count_outcomes(os.drop_last(), f) + if f(os.last()) {
            1nat
        } else {
            0
        }
    }
}

pub open spec fn is_inserted(o: MemoryCaptureOutcome) -> bool {
    o == MemoryCaptureOutcome::Inserted
}

pub open spec fn is_skipped(o: MemoryCaptureOutcome) -> bool {
    o == MemoryCaptureOutcome::Duplicate
}

pub open spec fn is_failed(o: MemoryCaptureOutcome) -> bool {
    o == MemoryCaptureOutcome::InvalidBucket || o == MemoryCaptureOutcome::CreateFailed
}

proof fn lemma_counts_partition(os: Seq<MemoryCaptureOutcome>)
    ensures
        count_outcomes(os, |o| is_inserted(o)) + count_outcomes(os, |o| is_skipped(o)) + count_outcomes(
            os,
            |o| is_failed(o),
        ) == os.len(),
    decreases os.len(),
{
    if os.len() > 0 {
        lemma_counts_partition(os.drop_last());
    }
}

/// The result of a batch from the outcome of each of its memories: the
/// total is the batch's size, and every memory is counted once, as inserted,
/// skipped or failed.
pub fn tally_batch(outcomes: &Vec<MemoryCaptureOutcome>) -> (r: MemoryCaptureUpsertResult)
    ensures
        r.total == outcomes@.len(),
        r.inserted == count_outcomes(outcomes@, |o| is_inserted(o)),
        r.skipped == count_outcomes(outcomes@, |o| is_skipped(o)),
        r.failed == count_outcomes(outcomes@, |o| is_failed(o)),
        r.inserted + r.skipped + r.failed == r.total,
{
    let ghost os = outcomes@;
    let mut tally = MemoryCaptureTally::new(outcomes.len());
    let mut i: usize = 0;
    while i < outcomes.len()
        invariant
            os == outcomes@,
            i <= os.len(),
            tally.wf(),
            tally.view().total == os.len(),
            tally.view().inserted == count_outcomes(os.take(i as int), |o| is_inserted(o)),
            tally.view().skipped == count_outcomes(os.take(i as int), |o| is_skipped(o)),
            tally.view().failed == count_outcomes(os.take(i as int), |o| is_failed(o)),
            tally.processed() == i,
        decreases outcomes.len() - i,
    {
        proof {
            assert(os.take(i + 1).drop_last() =~= os.take(i as int));
            assert(os.take(i + 1).last() == os[i as int]);
        }
        tally.record(outcomes[i]);
        i = i + 1;
    }
    proof {
        assert(os.take(i as int) =~= os);
        lemma_counts_partition(os);
    }
    tally.result()
}

/// What automatic skill distillation does next.
#[derive(Debug, Clone, PartialEq, Eq)]
pub enum AutoDistillationAction {
    /// Prepare a claim on the project's next distillation batch.
    PrepareClaim,
    /// Record `skill_distillation_spawn_requested`, then spawn the distiller.
    Spawn,
    /// Release the batch's claim.
    ReleaseClaim,
    /// Record `skill_distillation_failed` for `phase` with `error`, and
    /// whether the claim was released (spawn phase only).
    RecordFailure { phase: String, error: String, claim_released: Option<bool> },
    /// Nothing more to do.
    Done,
}

/// What the outside world answered.
#[derive(Debug)]
pub enum AutoDistillationEvent {
    /// Whether durable event storage is available.
    Started(bool),
    /// `Ok(true)` when a claim was prepared, `Ok(false)` when there is
    /// nothing to distill.
    Prepared(Result<bool, String>),
    Spawned(Result<(), String>),
    /// Whether the claim was released.
    Released(bool),
    Recorded,
}

#[derive(Debug, Clone, Copy, PartialEq, Eq, Structural)]
pub enum AutoDistillationStage {
    Start,
    Preparing,
    Spawning,
    Releasing,
    Recording,
    Done,
}

/// One automatic distillation run after a conversation.
pub struct AutoDistillation {
    pub stage: AutoDistillationStage,
    /// The spawn error, kept while the claim is released.
    pub spawn_error: Option<String>,
}

impl AutoDistillation {
    /// A spawn error is kept exactly while the claim is being released.
    pub open spec fn wf(&self) -> bool {
        self.stage == AutoDistillationStage::Releasing ==> self.spawn_error is Some
    }

    pub fn new() -> (d: Self)
        ensures
            d.wf(),
            d.stage == AutoDistillationStage::Start,
            d.spawn_error is None,
    {
        AutoDistillation { stage: AutoDistillationStage::Start, spawn_error: None }
    }

    /// The next action. Without durable event storage nothing runs; when
    /// nothing is claimable the run ends; a failed preparation is recorded;
    /// a failed spawn releases the claim and then records the failure with
    /// whether the release succeeded.
    pub fn step(&mut self, event: AutoDistillationEvent) -> (a: AutoDistillationAction)
        requires
            old(self).wf(),
        ensures
            final(self).wf(),
            match (old(self).stage, event) {
                (AutoDistillationStage::Start, AutoDistillationEvent::Started(true)) => a
                    == AutoDistillationAction::PrepareClaim && final(self).stage
                    == AutoDistillationStage::Preparing,
                (AutoDistillationStage::Start, AutoDistillationEvent::Started(false)) => a
                    == AutoDistillationAction::Done && final(self).stage == AutoDistillationStage::Done,
                (AutoDistillationStage::Preparing, AutoDistillationEvent::Prepared(Ok(true))) => a
                    == AutoDistillationAction::Spawn && final(self).stage
                    == AutoDistillationStage::Spawning,
                (AutoDistillationStage::Preparing, AutoDistillationEvent::Prepared(Ok(false))) => a
                    == AutoDistillationAction::Done && final(self).stage == AutoDistillationStage::Done,
                (AutoDistillationStage::Preparing, AutoDistillationEvent::Prepared(Err(e))) => (a matches AutoDistillationAction::RecordFailure {
                    phase,
                    error,
                    claim_released,
                } && phase@ == "prepare"@ && error@ == e@ && claim_released is None) && final(self).stage
                    == AutoDistillationStage::Recording,
                (AutoDistillationStage::Spawning, AutoDistillationEvent::Spawned(Ok(()))) => a
                    == AutoDistillationAction::Done && final(self).stage == AutoDistillationStage::Done,
                (AutoDistillationStage::Spawning, AutoDistillationEvent::Spawned(Err(e))) => a
                    == AutoDistillationAction::ReleaseClaim && final(self).stage
                    == AutoDistillationStage::Releasing && opt_view(final(self).spawn_error) == Some(e@),
                (AutoDistillationStage::Releasing, AutoDistillationEvent::Released(released)) => (a matches AutoDistillationAction::RecordFailure {
                    phase,
                    error,
                    claim_released,
                } && phase@ == "spawn"@ && Some(error@) == opt_view(old(self).spawn_error)
                    && claim_released == Some(released)) && final(self).stage
                    == AutoDistillationStage::Recording,
                _ => a == AutoDistillationAction::Done && final(self).stage == AutoDistillationStage::Done,
            },
    {
        let stage = self.stage;
        match (stage, event) {
            (AutoDistillationStage::Start, AutoDistillationEvent::Started(available)) => {
                if available {
                    self.stage = AutoDistillationStage::Preparing;
                    AutoDistillationAction::PrepareClaim
                } else {
                    self.stage = AutoDistillationStage::Done;
                    AutoDistillationAction::Done
                }
            },
            (AutoDistillationStage::Preparing, AutoDistillationEvent::Prepared(result)) => match result {
                Ok(true) => {
                    self.stage = AutoDistillationStage::Spawning;
                    AutoDistillationAction::Spawn
                },
                Ok(false) => {
                    self.stage = AutoDistillationStage::Done;
                    AutoDistillationAction::Done
                },
                Err(e) => {
                    self.stage = AutoDistillationStage::Recording;
                    AutoDistillationAction::RecordFailure {
                        phase: copy_str("prepare"),
                        error: e,
                        claim_released: None,
                    }
                },
            },
            (AutoDistillationStage::Spawning, AutoDistillationEvent::Spawned(result)) => match result {
                Ok(()) => {
                    self.stage = AutoDistillationStage::Done;
                    AutoDistillationAction::Done
                },
                Err(e) => {
                    self.stage = AutoDistillationStage::Releasing;
                    self.spawn_error = Some(e);
                    AutoDistillationAction::ReleaseClaim
                },
            },
            (AutoDistillationStage::Releasing, AutoDistillationEvent::Released(released)) => {
                let error = match &self.spawn_error {
                    Some(e) => copy_str(e.as_str()),
                    None => String::new(),
                };
                self.stage = AutoDistillationStage::Recording;
                AutoDistillationAction::RecordFailure {
                    phase: copy_str("spawn"),
                    error,
                    claim_released: Some(released),
                }
            },
            _ => {
                self.stage = AutoDistillationStage::Done;
                AutoDistillationAction::Done
            },
        }
    }
}

/// A schedule report is consistent: it says Started exactly when some
/// distiller started, carries a message exactly when nothing started, and
/// never reports more started batches than were prepared.
pub open spec fn report_consistent(r: ProjectSkillDistillationScheduleResult, prepared: nat) -> bool {
    &&& (r.status == ProjectSkillDistillationScheduleStatus::Started) == (r.started_batches > 0)
    &&& (r.message is None) == (r.status == ProjectSkillDistillationScheduleStatus::Started)
    &&& r.started_batches <= prepared
}

/// How many spawns succeeded.
pub open spec fn started_count(spawns: Seq<bool>) -> nat
    decreases spawns.len(),
{
    if spawns.len() == 0 {
        0
    } else {
        started_count(spawns.drop_last()) + if spawns.last() {
            1nat
        } else {
            0
        }
    }
}

/// What preparing explicit distillation claims found: whether project
/// skills are enabled, the outcomes selected, the batches they form, and
/// the batches whose claims were prepared.
#[derive(Debug, Clone, Copy)]
pub struct DistillationPreparation {
    pub enabled: bool,
    pub selected_outcomes: usize,
    pub batch_count: usize,
    pub prepared_batches: usize,
}

/// A report as plain values: status, selected outcomes, batches, started
/// batches and message.
pub open spec fn report_view(r: ProjectSkillDistillationScheduleResult) -> (
    ProjectSkillDistillationScheduleStatus,
    nat,
    nat,
    nat,
    Option<Seq<char>>,
) {
    (r.status, r.selected_outcomes as nat, r.batch_count as nat, r.started_batches as nat, opt_view(r.message))
}

/// The report owed for an explicit distillation request:
/// - a failed preparation: Failed, all counts zero;
/// - skills disabled, or nothing selected: Skipped, all counts zero;
/// - nothing prepared: Queued, with the selection and batch counts;
/// - a blocked launch: Unavailable (project or working directory missing)
///   or Failed (project lookup failed), nothing started;
/// - otherwise: Started with no message when some distiller started, else
///   Failed.
pub open spec fn expected_report(
    preparation: Option<DistillationPreparation>,
    blocker: Option<DistillationLaunchBlocker>,
    spawns: Seq<bool>,
) -> (ProjectSkillDistillationScheduleStatus, nat, nat, nat, Option<Seq<char>>) {
    match preparation {
        None => (
            ProjectSkillDistillationScheduleStatus::Failed,
            0,
            0,
            0,
            Some("Evidence could not be queued for distillation."@),
        ),
        Some(p) => if !p.enabled {
            (
                ProjectSkillDistillationScheduleStatus::Skipped,
                0,
                0,
                0,
                Some("Project skills are disabled for this project."@),
            )
        } else if p.selected_outcomes == 0 {
            (
                ProjectSkillDistillationScheduleStatus::Skipped,
                0,
                0,
                0,
                Some("No eligible evidence was available to queue."@),
            )
        } else if p.prepared_batches == 0 {
            (
                ProjectSkillDistillationScheduleStatus::Queued,
                p.selected_outcomes as nat,
                p.batch_count as nat,
                0,
                Some("Evidence is already queued or being processed by the distiller."@),
            )
        } else {
            match blocker {
                Some(DistillationLaunchBlocker::ProjectMissing) => (
                    ProjectSkillDistillationScheduleStatus::Unavailable,
                    p.selected_outcomes as nat,
                    p.batch_count as nat,
                    0,
                    Some("The project is no longer available."@),
                ),
                Some(DistillationLaunchBlocker::ProjectLookupFailed(e)) => (
                    ProjectSkillDistillationScheduleStatus::Failed,
                    p.selected_outcomes as nat,
                    p.batch_count as nat,
                    0,
                    Some("Project lookup failed: "@ + e@),
                ),
                Some(DistillationLaunchBlocker::WorkingDirectoryUnavailable) => (
                    ProjectSkillDistillationScheduleStatus::Unavailable,
                    p.selected_outcomes as nat,
                    p.batch_count as nat,
                    0,
                    Some("The project working directory is unavailable."@),
                ),
                None => if started_count(spawns) > 0 {
                    (
                        ProjectSkillDistillationScheduleStatus::Started,
                        p.selected_outcomes as nat,
                        p.batch_count as nat,
                        started_count(spawns),
                        None,
                    )
                } else {
                    (
                        ProjectSkillDistillationScheduleStatus::Failed,
                        p.selected_outcomes as nat,
                        p.batch_count as nat,
                        0,
                        Some("Evidence remains queued because the distiller could not start."@),
                    )
                },
            }
        },
    }
}

/// The report of an explicit distillation request, from what each step
/// found: the preparation (`None` when it failed), what blocked the launch
/// (if anything), and whether each prepared batch's distiller started.
pub fn schedule_report(
    preparation: Option<DistillationPreparation>,
    blocker: Option<DistillationLaunchBlocker>,
    spawns: &Vec<bool>,
) -> (r: ProjectSkillDistillationScheduleResult)
    requires
        preparation matches Some(p) ==> spawns@.len() <= p.prepared_batches,
    ensures
        report_consistent(r, spawns@.len()),
        report_view(r) == expected_report(preparation, blocker, spawns@),
{
    let p = match preparation {
        Some(p) => p,
        None => {
            return schedule_preparation_failed();
        },
    };
    match schedule_after_preparation(p.enabled, p.selected_outcomes, p.batch_count, p.prepared_batches) {
        Some(r) => {
            return r;
        },
        None => {},
    }
    match blocker {
        Some(b) => {
            return schedule_blocked(b, p.selected_outcomes, p.batch_count);
        },
        None => {},
    }
    let mut started: usize = 0;
    let mut i: usize = 0;
    while i < spawns.len()
        invariant
            i <= spawns@.len(),
            started == started_count(spawns@.take(i as int)),
            started <= i,
        decreases spawns.len() - i,
    {
        proof {
            assert(spawns@.take(i + 1).drop_last() =~= spawns@.take(i as int));
        }
        if spawns[i] {
            started = started + 1;
        }
        i = i + 1;
    }
    assert(spawns@.take(i as int) =~= spawns@);
    schedule_after_spawns(p.selected_outcomes, p.batch_count, started)
}

} // verus!

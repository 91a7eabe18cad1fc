use ralphx::agents::ChatContextType;
use ralphx::memory::{
    classify_capture, schedule_report, tally_batch, AutoDistillation, AutoDistillationAction,
    AutoDistillationEvent, DistillationPreparation,
    apply_distillation_claim_env, build_memory_agent_prompt, record_distillation_claim_env, distillation_conversation_id,
    is_memory_agent, prepare_memory_agent_launch, resolve_pipelines,
    resolve_pipelines_with_reason, schedule_after_preparation, schedule_after_spawns,
    schedule_blocked, DistillationLaunchBlocker, MemoryAgentKind, MemoryCaptureOutcome,
    MemoryCaptureTally, MemoryCaptureUpsertResult, MemoryCategory, MemoryPipelineSkipReason,
    ProjectMemorySettings, ProjectSkillDistillationScheduleStatus,
};

#[test]
fn test_context_to_category_mapping() {
    assert_eq!(
        MemoryCategory::from_context_type(ChatContextType::Ideation),
        MemoryCategory::Planning
    );
    assert_eq!(
        MemoryCategory::from_context_type(ChatContextType::Task),
        MemoryCategory::Execution
    );
    assert_eq!(
        MemoryCategory::from_context_type(ChatContextType::TaskExecution),
        MemoryCategory::Execution
    );
    assert_eq!(
        MemoryCategory::from_context_type(ChatContextType::Delegation),
        MemoryCategory::Execution
    );
    assert_eq!(
        MemoryCategory::from_context_type(ChatContextType::Review),
        MemoryCategory::Review
    );
    assert_eq!(
        MemoryCategory::from_context_type(ChatContextType::Merge),
        MemoryCategory::Merge
    );
    assert_eq!(
        MemoryCategory::from_context_type(ChatContextType::Project),
        MemoryCategory::ProjectChat
    );
}

#[test]
fn test_skip_reason_as_str() {
    assert_eq!(
        MemoryPipelineSkipReason::NoProjectId.as_str(),
        "no_project_id"
    );
    assert_eq!(
        MemoryPipelineSkipReason::RecursionGuard.as_str(),
        "recursion_guard"
    );
    assert_eq!(MemoryPipelineSkipReason::Disabled.as_str(), "disabled");
    assert_eq!(
        MemoryPipelineSkipReason::NoEnabledCategory.as_str(),
        "no_enabled_category"
    );
}

#[test]
fn test_category_as_str() {
    assert_eq!(MemoryCategory::Planning.as_str(), "planning");
    assert_eq!(MemoryCategory::Execution.as_str(), "execution");
    assert_eq!(MemoryCategory::Review.as_str(), "review");
    assert_eq!(MemoryCategory::Merge.as_str(), "merge");
    assert_eq!(MemoryCategory::ProjectChat.as_str(), "project_chat");
}

#[test]
fn test_default_settings() {
    let project_id = "proj-default".to_string();
    let settings = ProjectMemorySettings::default_for_project(project_id.clone());
    assert_eq!(settings.project_id, project_id);
    assert!(settings.enabled);
    assert!(settings
        .maintenance_categories
        .contains(&"execution".to_string()));
    assert!(settings
        .maintenance_categories
        .contains(&"review".to_string()));
    assert!(settings
        .maintenance_categories
        .contains(&"merge".to_string()));
    assert!(settings
        .capture_categories
        .contains(&"planning".to_string()));
    assert!(settings
        .capture_categories
        .contains(&"execution".to_string()));
    assert!(settings.capture_categories.contains(&"review".to_string()));
}

#[test]
fn test_default_settings_maintenance_categories_count() {
    let settings = ProjectMemorySettings::default_for_project("proj-default".to_string());
    assert_eq!(settings.maintenance_categories.len(), 3);
}

#[test]
fn test_default_settings_capture_categories_count() {
    let settings = ProjectMemorySettings::default_for_project("proj-default".to_string());
    assert_eq!(settings.capture_categories.len(), 3);
}

#[test]
fn test_resolve_pipelines_parallel_spawn_both_enabled() {
    let project_id = "proj-123".to_string();
    let settings = ProjectMemorySettings::default_for_project(project_id.clone());

    let result = resolve_pipelines(
        ChatContextType::TaskExecution,
        Some(project_id.as_str()),
        Some("ralphx:ralphx-execution-worker"),
        &settings,
    );

    assert!(
        result.is_some(),
        "Should return Some when category is enabled"
    );
    let (should_maintain, should_capture) = result.unwrap();
    assert!(
        should_maintain,
        "execution should be in maintenance_categories"
    );
    assert!(should_capture, "execution should be in capture_categories");
}

#[test]
fn test_resolve_pipelines_disabled_project_skips_spawn() {
    let project_id = "proj-123".to_string();
    let settings = ProjectMemorySettings {
        project_id: project_id.clone(),
        enabled: false,
        maintenance_categories: vec!["execution".to_string()],
        capture_categories: vec!["execution".to_string()],
    };

    let result = resolve_pipelines(
        ChatContextType::TaskExecution,
        Some(project_id.as_str()),
        Some("ralphx:ralphx-execution-worker"),
        &settings,
    );

    assert!(
        result.is_none(),
        "Should return None when memory is disabled"
    );
}

#[test]
fn test_resolve_pipelines_with_reason_reports_skip_reasons() {
    let project_id = "proj-skip-reasons".to_string();
    let enabled_settings = ProjectMemorySettings {
        project_id: project_id.clone(),
        enabled: true,
        maintenance_categories: vec!["execution".to_string()],
        capture_categories: Vec::new(),
    };

    assert_eq!(
        resolve_pipelines_with_reason(
            ChatContextType::TaskExecution,
            None,
            Some("ralphx:ralphx-execution-worker"),
            &enabled_settings,
        ),
        Err(MemoryPipelineSkipReason::NoProjectId)
    );
    assert_eq!(
        resolve_pipelines_with_reason(
            ChatContextType::TaskExecution,
            Some(project_id.as_str()),
            Some("ralphx-memory-capture"),
            &enabled_settings,
        ),
        Err(MemoryPipelineSkipReason::RecursionGuard)
    );

    let disabled_settings = ProjectMemorySettings {
        enabled: false,
        ..enabled_settings.clone()
    };
    assert_eq!(
        resolve_pipelines_with_reason(
            ChatContextType::TaskExecution,
            Some(project_id.as_str()),
            Some("ralphx:ralphx-execution-worker"),
            &disabled_settings,
        ),
        Err(MemoryPipelineSkipReason::Disabled)
    );

    assert_eq!(
        resolve_pipelines_with_reason(
            ChatContextType::Project,
            Some(project_id.as_str()),
            Some("ralphx:ralphx-chat"),
            &enabled_settings,
        ),
        Err(MemoryPipelineSkipReason::NoEnabledCategory)
    );
}

#[test]
fn test_resolve_pipelines_separates_maintenance_and_capture_categories() {
    let project_id = "proj-category-split".to_string();
    let settings = ProjectMemorySettings {
        project_id: project_id.clone(),
        enabled: true,
        maintenance_categories: vec!["review".to_string()],
        capture_categories: vec!["project_chat".to_string()],
    };

    assert_eq!(
        resolve_pipelines_with_reason(
            ChatContextType::Review,
            Some(project_id.as_str()),
            Some("ralphx:ralphx-execution-worker"),
            &settings,
        ),
        Ok((true, false))
    );
    assert_eq!(
        resolve_pipelines_with_reason(
            ChatContextType::Project,
            Some(project_id.as_str()),
            Some("ralphx:ralphx-chat"),
            &settings,
        ),
        Ok((false, true))
    );
}

#[test]
fn recursion_guard_knows_both_memory_agents_with_or_without_namespace() {
    assert!(is_memory_agent(Some("ralphx:ralphx-memory-maintainer")));
    assert!(is_memory_agent(Some("ralphx-memory-capture")));
    assert!(!is_memory_agent(Some("ralphx:ralphx-chat")));
    assert!(!is_memory_agent(Some("other:ralphx-memory-capture")));
    assert!(!is_memory_agent(None));
}

#[test]
fn memory_agent_kinds_name_their_agents_and_roles() {
    assert_eq!(MemoryAgentKind::Maintainer.agent_name(), "ralphx:ralphx-memory-maintainer");
    assert_eq!(MemoryAgentKind::Distiller.agent_name(), "ralphx:ralphx-memory-capture");
    assert_eq!(MemoryAgentKind::Distiller.pipeline_role(), "skill_distiller");
    assert_eq!(MemoryAgentKind::Capture.short_name(), "ralphx-memory-capture");
    assert_eq!(
        build_memory_agent_prompt(MemoryAgentKind::Capture, "c-1", "p-1", "task_execution", "t-1"),
        "Capture learning from conversation_id='c-1' in project_id='p-1' (context: task_execution, t-1)"
    );
}

#[test]
fn launch_env_carries_parent_conversation_and_trimmed_role() {
    let env = prepare_memory_agent_launch("conv-1", "task_execution", "task-1", "project-1", Some(" memory_capture "))
        .unwrap();
    let get = |name: &str| env.iter().find(|(k, _)| k == name).map(|(_, v)| v.as_str());
    assert_eq!(get("RALPHX_PARENT_CONVERSATION_ID"), Some("conv-1"));
    assert_eq!(get("RALPHX_CONVERSATION_ID"), Some("conv-1"));
    assert_eq!(get("RALPHX_PIPELINE_ROLE"), Some("memory_capture"));
    assert_eq!(get("RALPHX_TASK_ID"), None);
    assert_eq!(
        prepare_memory_agent_launch("c", "t", "i", "p", Some("  ")).unwrap_err(),
        "Memory agent launch requires a non-blank pipeline role"
    );
    assert_eq!(
        prepare_memory_agent_launch("c", "t", "i", " ", None).unwrap_err(),
        "Memory agent launch requires a non-blank project ID"
    );
}

#[test]
fn distillation_claim_is_recorded_in_the_launch_env() {
    let mut env = vec![("RALPHX_AGENT_PROFILE".to_string(), "old".to_string())];
    apply_distillation_claim_env(
        &mut env,
        "skill-distiller",
        "batch-1",
        "token-1",
        "fp-1",
        &vec!["outcome-1".to_string(), "outcome-\"2\"".to_string()],
    )
    .unwrap();
    assert_eq!(env[0], ("RALPHX_AGENT_PROFILE".to_string(), "skill-distiller".to_string()));
    assert_eq!(env.len(), 5);
    assert_eq!(
        env[4],
        (
            "RALPHX_SKILL_DISTILLATION_OUTCOME_IDS".to_string(),
            r#"["outcome-1","outcome-\"2\""]"#.to_string()
        )
    );
}

#[test]
fn schedule_results_follow_the_distillation_stage() {
    let skipped = schedule_after_preparation(false, 4, 2, 2).unwrap();
    assert_eq!(skipped.status, ProjectSkillDistillationScheduleStatus::Skipped);
    assert_eq!(skipped.status.as_str(), "skipped");
    assert_eq!(skipped.selected_outcomes, 0);
    let queued = schedule_after_preparation(true, 4, 2, 0).unwrap();
    assert_eq!(queued.status, ProjectSkillDistillationScheduleStatus::Queued);
    assert_eq!((queued.selected_outcomes, queued.batch_count), (4, 2));
    assert!(schedule_after_preparation(true, 4, 2, 1).is_none());

    let blocked = schedule_blocked(DistillationLaunchBlocker::ProjectLookupFailed("db down".to_string()), 4, 2);
    assert_eq!(blocked.status, ProjectSkillDistillationScheduleStatus::Failed);
    assert_eq!(blocked.message.as_deref(), Some("Project lookup failed: db down"));

    let started = schedule_after_spawns(4, 2, 1);
    assert_eq!(started.status, ProjectSkillDistillationScheduleStatus::Started);
    assert!(started.message.is_none());
    let failed = schedule_after_spawns(4, 2, 0);
    assert_eq!(failed.status.as_str(), "failed");

    assert_eq!(
        distillation_conversation_id(None, None, "proj-1"),
        "project-skill-distillation:proj-1"
    );
    assert_eq!(distillation_conversation_id(None, Some("conv-2"), "proj-1"), "conv-2");
}

#[test]
fn capture_tally_accounts_for_every_memory() {
    let mut tally = MemoryCaptureTally::new(4);
    tally.record(MemoryCaptureOutcome::Inserted);
    tally.record(MemoryCaptureOutcome::Duplicate);
    tally.record(MemoryCaptureOutcome::InvalidBucket);
    tally.record(MemoryCaptureOutcome::CreateFailed);
    let result = tally.result();
    assert_eq!(
        result,
        MemoryCaptureUpsertResult {
            inserted: 1,
            skipped: 1,
            failed: 2,
            total: 4
        }
    );
    assert_eq!(
        result.message(),
        "Processed 4 memories: 1 inserted, 1 skipped (duplicates), 2 failed"
    );
}

#[test]
fn encoding_failure_records_the_claim_without_outcome_ids() {
    let mut env: Vec<(String, String)> = Vec::new();
    let r = record_distillation_claim_env(
        &mut env,
        "skill-distiller",
        "batch-1",
        "token-1",
        "fp-1",
        Err("boom".to_string()),
    );
    assert_eq!(r, Err("Failed to serialize skill distillation outcomes: boom".to_string()));
    assert_eq!(env.len(), 4);
    assert!(env.iter().all(|(k, _)| k != "RALPHX_SKILL_DISTILLATION_OUTCOME_IDS"));
    let mut ok_env: Vec<(String, String)> = Vec::new();
    assert!(record_distillation_claim_env(&mut ok_env, "p", "b", "t", "f", Ok("[]".to_string())).is_ok());
    assert_eq!(ok_env[4], ("RALPHX_SKILL_DISTILLATION_OUTCOME_IDS".to_string(), "[]".to_string()));
}

#[test]
fn service_counts_invalid_buckets_and_create_failures_per_item() {
    let invalid = classify_capture(false, false, false);
    let create_failed = classify_capture(true, false, false);
    assert_eq!(invalid, MemoryCaptureOutcome::InvalidBucket);
    assert_eq!(create_failed, MemoryCaptureOutcome::CreateFailed);
    let r = tally_batch(&vec![invalid, create_failed]);
    assert_eq!((r.inserted, r.skipped, r.failed, r.total), (0, 0, 2, 2));
    let r = tally_batch(&vec![
        classify_capture(true, true, false),
        classify_capture(true, false, true),
        classify_capture(false, true, true),
    ]);
    assert_eq!((r.inserted, r.skipped, r.failed, r.total), (1, 1, 1, 3));
}

#[test]
fn outcome_ids_are_json_escaped() {
    let mut env: Vec<(String, String)> = Vec::new();
    apply_distillation_claim_env(
        &mut env,
        "p",
        "b",
        "t",
        "f",
        &vec!["a\nb\u{1}\\".to_string(), "é".to_string()],
    )
    .unwrap();
    assert_eq!(env[4].1, "[\"a\\nb\\u0001\\\\\",\"é\"]");
    let mut empty: Vec<(String, String)> = Vec::new();
    apply_distillation_claim_env(&mut empty, "p", "b", "t", "f", &Vec::new()).unwrap();
    assert_eq!(empty[4].1, "[]");
}

#[test]
fn automatic_distillation_releases_the_claim_when_spawn_fails() {
    let mut run = AutoDistillation::new();
    assert_eq!(run.step(AutoDistillationEvent::Started(true)), AutoDistillationAction::PrepareClaim);
    assert_eq!(run.step(AutoDistillationEvent::Prepared(Ok(true))), AutoDistillationAction::Spawn);
    assert_eq!(
        run.step(AutoDistillationEvent::Spawned(Err("no cli".to_string()))),
        AutoDistillationAction::ReleaseClaim
    );
    assert_eq!(
        run.step(AutoDistillationEvent::Released(true)),
        AutoDistillationAction::RecordFailure {
            phase: "spawn".to_string(),
            error: "no cli".to_string(),
            claim_released: Some(true),
        }
    );
    assert_eq!(run.step(AutoDistillationEvent::Recorded), AutoDistillationAction::Done);
    let mut skipped = AutoDistillation::new();
    assert_eq!(skipped.step(AutoDistillationEvent::Started(false)), AutoDistillationAction::Done);
    let mut nothing = AutoDistillation::new();
    nothing.step(AutoDistillationEvent::Started(true));
    assert_eq!(nothing.step(AutoDistillationEvent::Prepared(Ok(false))), AutoDistillationAction::Done);
    let mut failed = AutoDistillation::new();
    failed.step(AutoDistillationEvent::Started(true));
    assert_eq!(
        failed.step(AutoDistillationEvent::Prepared(Err("db".to_string()))),
        AutoDistillationAction::RecordFailure {
            phase: "prepare".to_string(),
            error: "db".to_string(),
            claim_released: None,
        }
    );
}

#[test]
fn schedule_report_composes_the_steps() {
    let prep = DistillationPreparation { enabled: true, selected_outcomes: 4, batch_count: 2, prepared_batches: 2 };
    let r = schedule_report(Some(prep), None, &vec![true, false]);
    assert_eq!(r.status, ProjectSkillDistillationScheduleStatus::Started);
    assert_eq!((r.selected_outcomes, r.batch_count, r.started_batches), (4, 2, 1));
    assert!(r.message.is_none());
    let r = schedule_report(Some(prep), None, &vec![false, false]);
    assert_eq!(r.status, ProjectSkillDistillationScheduleStatus::Failed);
    let r = schedule_report(Some(prep), Some(DistillationLaunchBlocker::ProjectMissing), &Vec::new());
    assert_eq!(r.status, ProjectSkillDistillationScheduleStatus::Unavailable);
    let r = schedule_report(None, None, &Vec::new());
    assert_eq!(r.status, ProjectSkillDistillationScheduleStatus::Failed);
    let disabled = DistillationPreparation { enabled: false, ..prep };
    assert_eq!(schedule_report(Some(disabled), None, &Vec::new()).status, ProjectSkillDistillationScheduleStatus::Skipped);
}

use ralphx::integration_reference_expansion::ComposerIntegrationReference;
use ralphx::linear_integration::{
    check_token_readback, plan_settings_save, plan_token_save,
    clamp_search_limit, enabled_token_secret_ref, linear_token_secret_ref, linear_token_update,
    pending_status_for_settings, render_issue_content, render_skipped_reference, saved_settings,
    token_secret_ref_of, validated_settings, EmptyLinearApiClient, IntegrationValidationStatus,
    LinearIntegrationSettings, LinearIssueContent, LinearReferenceExpansion, LinearTokenUpdate,
    UnavailableLinearApiClient, LINEAR_API_TOKEN_SECRET_REF_PREFIX, MAX_RESOURCE_BYTES,
    MAX_TOTAL_RESOURCE_BYTES,
};

fn linear_ref(id: &str, key: Option<&str>, title: Option<&str>, url: Option<&str>) -> ComposerIntegrationReference {
    ComposerIntegrationReference {
        provider: "linear".to_string(),
        kind: "linear".to_string(),
        id: id.to_string(),
        key: key.map(str::to_string),
        title: title.map(str::to_string),
        url: url.map(str::to_string),
        summary_excerpt: None,
        include_transcript: None,
        selected_excerpt: None,
        selected_source_path: None,
        selected_range_label: None,
    }
}

fn content(id: &str, key: &str, body: &str) -> LinearIssueContent {
    LinearIssueContent {
        id: id.to_string(),
        key: Some(key.to_string()),
        title: "Example".to_string(),
        url: None,
        body: body.to_string(),
        state_name: Some("Todo".to_string()),
        assignee: None,
        creator: None,
        updated_at: None,
    }
}

#[test]
fn expands_linear_issue_references_for_prompt() {
    let refs = vec![linear_ref(
        "issue-id",
        Some("LIN-123"),
        Some("Example"),
        Some("https://linear.app/acme/issue/LIN-123/example"),
    )];
    let mut run = LinearReferenceExpansion::new("Fix this", refs);
    let i = run.next_fetch().expect("one fetch");
    assert_eq!(run.reference(i).id, "issue-id");
    run.record_fetch(Ok(content("issue-id", "LIN-123", "Issue body")));
    assert_eq!(run.next_fetch(), None);
    let expanded = run.finish();
    assert!(expanded.starts_with("Fix this\n\n<ralphx_integration_references>\n"));
    assert!(expanded.contains("<linear_issue"));
    assert!(expanded.contains("LIN-123"));
    assert!(expanded.contains("Issue body"));
    assert!(expanded.ends_with("\n</ralphx_integration_references>"));
}

#[test]
fn expand_references_skips_non_linear_and_reports_fetch_errors() {
    let mut jira = linear_ref("RX-1", Some("RX-1"), Some("Ignored Jira issue"), None);
    jira.provider = "atlassian".to_string();
    jira.kind = "jira".to_string();
    let refs = vec![jira, linear_ref("issue-id", Some("LIN-123"), Some("Example"), None)];
    let mut run = LinearReferenceExpansion::new("Fix this", refs);
    assert_eq!(run.next_fetch(), Some(1));
    run.record_fetch(Err("Linear issue not found".to_string()));
    assert_eq!(run.next_fetch(), None);
    let expanded = run.finish();
    assert!(expanded.contains("ralphx_integration_references"));
    assert!(expanded.contains("integration_reference_skipped"));
    assert!(expanded.contains("Linear issue not found"));
    assert!(!expanded.contains("RX-1"));
}

#[test]
fn expansion_without_linear_references_keeps_the_message() {
    let mut other = linear_ref("x", None, None, None);
    other.provider = "clickup".to_string();
    let mut run = LinearReferenceExpansion::new("Fix this  ", vec![other]);
    assert_eq!(run.next_fetch(), None);
    assert_eq!(run.finish(), "Fix this  ");
}

#[test]
fn issue_content_is_rendered_with_escaped_attributes() {
    let mut budget = MAX_TOTAL_RESOURCE_BYTES;
    let mut c = content("id\"1", "LIN-1", "body  \n");
    c.title = "A <b> & c".to_string();
    let out = render_issue_content(c, &mut budget);
    assert_eq!(
        out,
        "<linear_issue id=\"id&quot;1\" key=\"LIN-1\" title=\"A &lt;b&gt; &amp; c\" url=\"\" state=\"Todo\" assignee=\"\" creator=\"\" updated_at=\"\" bytes=\"7\" truncated=\"false\">\n```\nbody\n```\n</linear_issue>"
    );
    assert_eq!(budget, MAX_TOTAL_RESOURCE_BYTES - 7);
}

#[test]
fn issue_body_is_truncated_on_a_char_boundary() {
    let mut budget = 5;
    let out = render_issue_content(content("i", "K", "ééé"), &mut budget);
    assert!(out.contains("bytes=\"6\" truncated=\"true\""));
    assert!(out.contains("\n```\néé\n```\n"));
    assert_eq!(budget, 1);
    let mut big = MAX_TOTAL_RESOURCE_BYTES;
    let long = "a".repeat(MAX_RESOURCE_BYTES + 10);
    let out = render_issue_content(content("i", "K", &long), &mut big);
    assert!(out.contains("truncated=\"true\""));
    assert_eq!(big, MAX_TOTAL_RESOURCE_BYTES - MAX_RESOURCE_BYTES);
}

#[test]
fn skipped_reference_marker_escapes_reason() {
    let r = linear_ref("issue-1", None, None, None);
    assert_eq!(
        render_skipped_reference(&r, "not \"found\""),
        "<integration_reference_skipped provider=\"linear\" kind=\"linear\" id=\"issue-1\" reason=\"not &quot;found&quot;\" />"
    );
}

#[test]
fn token_updates_distinguish_keep_clear_and_replace() {
    assert!(matches!(linear_token_update(None), LinearTokenUpdate::Keep));
    assert!(matches!(linear_token_update(Some("   ")), LinearTokenUpdate::Clear));
    match linear_token_update(Some("  lin-token \n")) {
        LinearTokenUpdate::Replace(t) => assert_eq!(t, "lin-token"),
        other => panic!("unexpected {:?}", other),
    }
}

#[test]
fn token_secret_ref_is_prefixed_with_the_default_location() {
    assert_eq!(linear_token_secret_ref("abc"), format!("{LINEAR_API_TOKEN_SECRET_REF_PREFIX}/abc"));
    assert_eq!(linear_token_secret_ref("abc"), "integrations/linear/default/api-token/abc");
}

#[test]
fn saving_settings_requires_validation_again() {
    let mut settings = LinearIntegrationSettings::default_at(5);
    settings.enabled = true;
    settings.validation_status = IntegrationValidationStatus::Valid;
    settings.issue_search_available = true;
    settings.last_validated_at = Some(4);
    let saved = saved_settings(settings, Some("ref".to_string()), 10);
    assert!(!saved.enabled);
    assert_eq!(saved.validation_status, IntegrationValidationStatus::Pending);
    assert_eq!(pending_status_for_settings(&saved), IntegrationValidationStatus::Pending);
    assert_eq!(saved.token_secret_ref.as_deref(), Some("ref"));
    assert_eq!(saved.last_validated_at, None);
    assert_eq!(saved.updated_at, 10);
    let cleared = saved_settings(saved, None, 11);
    assert_eq!(cleared.validation_status, IntegrationValidationStatus::NotConfigured);
}

#[test]
fn validation_outcome_enables_or_disables_search() {
    let base = saved_settings(LinearIntegrationSettings::default_at(0), Some("ref".to_string()), 1);
    let ok = validated_settings(base, Ok(()), 2);
    assert!(ok.enabled && ok.issue_search_available);
    assert_eq!(ok.validation_status, IntegrationValidationStatus::Valid);
    assert_eq!(ok.last_validated_at, Some(2));
    assert_eq!(enabled_token_secret_ref(&ok), Ok("ref".to_string()));
    let failed = validated_settings(ok, Err("bad token".to_string()), 3);
    assert!(!failed.enabled && !failed.issue_search_available);
    assert_eq!(failed.validation_status, IntegrationValidationStatus::Invalid);
    assert_eq!(failed.last_error.as_deref(), Some("bad token"));
    assert_eq!(enabled_token_secret_ref(&failed), Err("Linear integration is not enabled".to_string()));
    assert_eq!(token_secret_ref_of(&failed), Ok("ref".to_string()));
}

#[test]
fn enabled_settings_without_a_token_report_it_missing() {
    let mut s = LinearIntegrationSettings::default_at(0);
    s.enabled = true;
    s.validation_status = IntegrationValidationStatus::Valid;
    assert_eq!(enabled_token_secret_ref(&s), Err("Linear API token is required".to_string()));
}

#[test]
fn search_limit_is_clamped_to_one_through_twenty_five() {
    assert_eq!(clamp_search_limit(0), 1);
    assert_eq!(clamp_search_limit(7), 7);
    assert_eq!(clamp_search_limit(25), 25);
    assert_eq!(clamp_search_limit(100), 25);
}

#[test]
fn empty_client_describes_an_issue_from_its_reference() {
    let c = EmptyLinearApiClient.issue_for(&linear_ref("issue-9", Some("LIN-9"), None, None));
    assert_eq!(c.id, "issue-9");
    assert_eq!(c.title, "issue-9");
    assert_eq!(c.key.as_deref(), Some("LIN-9"));
    assert!(c.body.is_empty());
    assert_eq!(c.assignee.as_deref(), Some("A. User"));
}

#[test]
fn unavailable_client_reports_its_reason() {
    let c = UnavailableLinearApiClient::new("offline".to_string());
    assert_eq!(c.reason(), "offline");
}

#[test]
fn clearing_api_token_deletes_existing_secret_and_marks_not_configured() {
    let mut settings = LinearIntegrationSettings::default_at(0);
    settings.token_secret_ref = Some("old-ref".to_string());
    let (plan, saved) = plan_settings_save(settings, &LinearTokenUpdate::Clear, "u1", 9);
    assert_eq!(plan.delete_first.as_deref(), Some("old-ref"));
    assert!(plan.put.is_none());
    assert!(saved.token_secret_ref.is_none());
    assert_eq!(saved.validation_status, IntegrationValidationStatus::NotConfigured);
    assert!(!saved.enabled);
}

#[test]
fn replacing_api_token_uses_fresh_readable_secret_ref() {
    let mut settings = LinearIntegrationSettings::default_at(0);
    settings.token_secret_ref = Some("old-ref".to_string());
    let (plan, saved) = plan_settings_save(settings, &LinearTokenUpdate::Replace("tok".to_string()), "u2", 9);
    let fresh = "integrations/linear/default/api-token/u2".to_string();
    assert_eq!(plan.put, Some((fresh.clone(), "tok".to_string())));
    assert_eq!(plan.delete_after.as_deref(), Some("old-ref"));
    assert_eq!(saved.token_secret_ref, Some(fresh));
    assert_eq!(saved.validation_status, IntegrationValidationStatus::Pending);
    let keep = plan_token_save(&LinearTokenUpdate::Keep, Some("r"), "u3");
    assert_eq!(keep.token_secret_ref.as_deref(), Some("r"));
    assert!(keep.delete_first.is_none() && keep.put.is_none() && keep.delete_after.is_none());
}

#[test]
fn save_reports_unreadable_secure_storage_before_marking_token_stored() {
    assert_eq!(
        check_token_readback("tok", Err("locked".to_string())),
        Err("Linear API token was saved but could not be read back from secure storage: locked".to_string())
    );
    assert_eq!(
        check_token_readback("tok", Ok(None)),
        Err("Linear API token was saved but secure storage returned no value".to_string())
    );
    assert_eq!(
        check_token_readback("tok", Ok(Some("other".to_string()))),
        Err("Linear API token was saved but secure storage returned a different value".to_string())
    );
    assert_eq!(check_token_readback("tok", Ok(Some("tok".to_string()))), Ok(()));
}

use ralphx::agents::AgentHarnessKind;
use ralphx::mcp_policy::{
    ensure_valid_policy_config, launch_policy, reject_follow_update, resolve_layers,
    resolve_policy, resolve_provider_native_config_root, McpOverrideState,
    McpPolicyConfigSnapshot, McpPolicyOverride, McpPolicySource, McpServerKey,
    NativeMcpServerSnapshot, NativeMcpState, RawPolicyServer, RawPolicyTool,
};
use ralphx::mcp_policy::snapshot_from_servers;

fn key(provider: AgentHarnessKind, id: &str) -> McpServerKey {
    McpServerKey {
        provider,
        server_id: id.to_string(),
    }
}

fn native(state: NativeMcpState) -> NativeMcpServerSnapshot {
    NativeMcpServerSnapshot {
        key: key(AgentHarnessKind::Claude, "github"),
        native_scope: Some("user".to_string()),
        native_state: state,
        known_tools: vec!["create_issue".to_string(), "list_issues".to_string()],
        diagnostic: None,
    }
}

fn policy(
    server_state: McpOverrideState,
    tool: Option<(&str, McpOverrideState)>,
) -> McpPolicyOverride {
    let mut tool_states = Vec::new();
    if let Some((name, state)) = tool {
        tool_states.push((name.to_string(), state));
    }
    McpPolicyOverride {
        project_id: None,
        key: native(NativeMcpState::Enabled).key,
        server_state,
        tool_states,
        updated_at: 0,
    }
}

fn tool_source(sources: &[(String, McpPolicySource)], name: &str) -> Option<McpPolicySource> {
    sources.iter().find(|(tool, _)| tool == name).map(|(_, source)| *source)
}

#[test]
fn codex_config_root_matches_effective_child_environment() {
    let default_home = "/Users/example";
    let shell_env = vec![(
        "CODEX_HOME".to_string(),
        "/Users/example/.codex-shell".to_string(),
    )];
    let provider_env = vec![(
        "CODEX_HOME".to_string(),
        "/Users/example/.codex-custom".to_string(),
    )];

    assert_eq!(
        resolve_provider_native_config_root(
            AgentHarnessKind::Codex,
            default_home,
            &shell_env,
            &provider_env,
        )
        .unwrap(),
        "/Users/example/.codex-custom"
    );
    assert_eq!(
        resolve_provider_native_config_root(
            AgentHarnessKind::Codex,
            default_home,
            &shell_env,
            &Vec::new(),
        )
        .unwrap(),
        "/Users/example/.codex-shell"
    );
    assert_eq!(
        resolve_provider_native_config_root(
            AgentHarnessKind::Codex,
            default_home,
            &Vec::new(),
            &Vec::new(),
        )
        .unwrap(),
        std::path::Path::new(default_home).join(".codex").to_string_lossy()
    );
}

#[test]
fn fields_resolve_independently_across_all_precedence_layers() {
    let global_yaml = policy(McpOverrideState::Disabled, None);
    let global_ui = policy(
        McpOverrideState::Follow,
        Some(("create_issue", McpOverrideState::Disabled)),
    );
    let project_yaml = policy(McpOverrideState::Enabled, None);
    let project_ui = policy(
        McpOverrideState::Follow,
        Some(("list_issues", McpOverrideState::Disabled)),
    );

    let effective = resolve_layers(
        native(NativeMcpState::Enabled),
        Some(&global_yaml),
        Some(&global_ui),
        Some(&project_yaml),
        Some(&project_ui),
        None,
    );
    assert!(effective.enabled);
    assert_eq!(effective.server_source, McpPolicySource::ProjectYaml);
    assert_eq!(
        effective.disabled_tools,
        vec!["create_issue".to_string(), "list_issues".to_string()]
    );
    assert_eq!(
        tool_source(&effective.tool_sources, "create_issue"),
        Some(McpPolicySource::GlobalUi)
    );
}

#[test]
fn ralphx_enabled_never_exceeds_native_trust_or_auth_state() {
    let project_ui = policy(McpOverrideState::Enabled, None);
    for state in [
        NativeMcpState::Disabled,
        NativeMcpState::PendingApproval,
        NativeMcpState::AuthRequired,
        NativeMcpState::Untrusted,
        NativeMcpState::Unavailable,
    ] {
        let effective = resolve_layers(native(state), None, None, None, Some(&project_ui), None);
        assert!(
            !effective.enabled,
            "native state {state:?} must remain an upper bound"
        );
    }
}

#[test]
fn all_follow_layers_defer_to_the_provider() {
    let effective = resolve_layers(native(NativeMcpState::Unknown), None, None, None, None, None);
    assert!(effective.enabled);
    assert_eq!(effective.server_state, McpOverrideState::Follow);
    assert_eq!(effective.server_source, McpPolicySource::ProviderNative);
    let tools: Vec<&str> = effective.tool_states.iter().map(|(t, _)| t.as_str()).collect();
    assert_eq!(tools, vec!["create_issue", "list_issues"]);
    assert!(effective.disabled_tools.is_empty());
}

#[test]
fn snapshot_project_yaml_is_used_when_no_direct_policy_is_given() {
    let snapshot = McpPolicyConfigSnapshot {
        policies: vec![policy(McpOverrideState::Disabled, Some(("zeta", McpOverrideState::Disabled)))],
        diagnostics: Vec::new(),
    };
    let effective = resolve_layers(native(NativeMcpState::Enabled), None, None, None, None, Some(&snapshot));
    assert!(!effective.enabled);
    assert_eq!(effective.server_source, McpPolicySource::ProjectYaml);
    assert_eq!(effective.disabled_tools, vec!["zeta".to_string()]);
}

#[test]
fn reserved_server_is_locked_and_fails_closed_on_collision() {
    let empty = McpPolicyConfigSnapshot::empty();
    let own = NativeMcpServerSnapshot {
        key: key(AgentHarnessKind::Codex, "ralphx"),
        native_scope: Some("ralphx".to_string()),
        native_state: NativeMcpState::Enabled,
        known_tools: Vec::new(),
        diagnostic: None,
    };
    let effective = resolve_policy(own, &empty, None, None, &empty);
    assert!(effective.enabled && effective.locked);
    assert_eq!(effective.server_source, McpPolicySource::RequiredInternal);
    assert_eq!(effective.locked_reason.as_deref(), Some("Required by RalphX"));

    let colliding = NativeMcpServerSnapshot {
        key: key(AgentHarnessKind::Codex, "ralphx_tools"),
        native_scope: Some("user".to_string()),
        native_state: NativeMcpState::Enabled,
        known_tools: Vec::new(),
        diagnostic: None,
    };
    let effective = resolve_policy(colliding, &empty, None, None, &empty);
    assert!(!effective.enabled);
    assert_eq!(effective.native.native_state, NativeMcpState::Unavailable);
    assert_eq!(
        effective.locked_reason.as_deref(),
        Some("Native provider configuration already defines reserved server ID 'ralphx_tools'")
    );
}

#[test]
fn launch_policy_lists_disabled_servers_and_tools_in_id_order() {
    let mut beta = policy(McpOverrideState::Disabled, None);
    beta.key = key(AgentHarnessKind::Codex, "beta");
    let mut alpha = policy(McpOverrideState::Follow, Some(("delete", McpOverrideState::Disabled)));
    alpha.key = key(AgentHarnessKind::Codex, "alpha");
    let mut other_provider = policy(McpOverrideState::Disabled, None);
    other_provider.key = key(AgentHarnessKind::Claude, "gamma");
    let mut reserved = policy(McpOverrideState::Disabled, None);
    reserved.key = key(AgentHarnessKind::Codex, "ralphx");
    let global_yaml = McpPolicyConfigSnapshot {
        policies: vec![beta, other_provider, reserved],
        diagnostics: Vec::new(),
    };
    let project_yaml = McpPolicyConfigSnapshot::empty();
    let launch = launch_policy(
        AgentHarnessKind::Codex,
        &global_yaml,
        &vec![alpha],
        &project_yaml,
        &Vec::new(),
    )
    .unwrap();
    assert_eq!(launch.disabled_servers, vec!["beta".to_string()]);
    assert_eq!(
        launch.disabled_tools,
        vec![("alpha".to_string(), vec!["delete".to_string()])]
    );
}

#[test]
fn launch_policy_fails_closed_on_invalid_configuration() {
    let bad = McpPolicyConfigSnapshot {
        policies: Vec::new(),
        diagnostics: vec!["bad server".to_string(), "bad tool".to_string()],
    };
    let ok = McpPolicyConfigSnapshot::empty();
    assert_eq!(
        launch_policy(AgentHarnessKind::Codex, &ok, &Vec::new(), &bad, &Vec::new()).unwrap_err(),
        "Invalid project MCP policy: bad server; bad tool"
    );
    assert_eq!(
        ensure_valid_policy_config("global", &bad).unwrap_err(),
        "Invalid global MCP policy: bad server; bad tool"
    );
    assert!(ensure_valid_policy_config("global", &ok).is_ok());
}

#[test]
fn follow_is_never_stored() {
    assert_eq!(
        reject_follow_update(McpOverrideState::Follow).unwrap_err(),
        "Follow must use the matching clear MCP policy operation"
    );
    assert!(reject_follow_update(McpOverrideState::Disabled).is_ok());
}

#[test]
fn reserved_ids_are_recognised() {
    assert!(key(AgentHarnessKind::Codex, "ralphx").is_ralphx_owned());
    assert!(key(AgentHarnessKind::Codex, "ralphx_db").is_ralphx_owned());
    assert!(!key(AgentHarnessKind::Codex, "ralphx_").is_ralphx_owned());
    assert!(!key(AgentHarnessKind::Codex, "github").is_ralphx_owned());
}

fn raw_tool(name: &str, ok: bool) -> RawPolicyTool {
    RawPolicyTool {
        name: name.to_string(),
        name_check: if ok { Ok(()) } else { Err(format!("invalid tool {name}")) },
        state: McpOverrideState::Disabled,
    }
}

fn raw_server(id: &str, id_ok: bool, tools: Vec<RawPolicyTool>, policy_ok: bool) -> RawPolicyServer {
    RawPolicyServer {
        provider: AgentHarnessKind::Claude,
        server_id: id.to_string(),
        id_check: if id_ok { Ok(()) } else { Err(format!("invalid server {id}")) },
        state: McpOverrideState::Disabled,
        tools,
        policy_check: if policy_ok { Ok(()) } else { Err(format!("invalid policy {id}")) },
    }
}

#[test]
fn snapshot_keeps_valid_tools_and_reports_invalid_identifiers() {
    let servers = vec![raw_server(
        "github",
        true,
        vec![raw_tool("create_issue", true), raw_tool("../unsafe", false)],
        true,
    )];
    let snapshot = snapshot_from_servers(&servers, Some("p1"), 42);
    assert_eq!(snapshot.policies.len(), 1);
    let policy = &snapshot.policies[0];
    assert_eq!(policy.key.server_id, "github");
    assert_eq!(policy.server_state, McpOverrideState::Disabled);
    assert_eq!(policy.project_id, Some("p1".to_string()));
    assert_eq!(policy.updated_at, 42);
    assert_eq!(
        policy.tool_states,
        vec![("create_issue".to_string(), McpOverrideState::Disabled)]
    );
    assert_eq!(snapshot.diagnostics, vec!["invalid tool ../unsafe".to_string()]);
}

#[test]
fn snapshot_skips_refused_servers_and_policies_in_file_order() {
    let servers = vec![
        raw_server("bad id", false, vec![raw_tool("t", false)], true),
        raw_server("a", true, vec![raw_tool("x", false)], false),
        raw_server("b", true, Vec::new(), true),
    ];
    let snapshot = snapshot_from_servers(&servers, None, 0);
    assert_eq!(snapshot.policies.len(), 1);
    assert_eq!(snapshot.policies[0].key.server_id, "b");
    assert_eq!(snapshot.policies[0].project_id, None);
    assert_eq!(
        snapshot.diagnostics,
        vec![
            "invalid server bad id".to_string(),
            "invalid tool x".to_string(),
            "invalid policy a".to_string(),
        ]
    );
}

#[test]
fn snapshot_keeps_at_most_twenty_diagnostics() {
    let tools: Vec<RawPolicyTool> = (0..25).map(|i| raw_tool(&format!("t{i}"), false)).collect();
    let snapshot = snapshot_from_servers(&vec![raw_server("s", true, tools, true)], None, 0);
    assert_eq!(snapshot.diagnostics.len(), 20);
    assert_eq!(snapshot.diagnostics[19], "invalid tool t19");
    assert_eq!(snapshot.policies.len(), 1);
    assert!(snapshot.policies[0].tool_states.is_empty());
}

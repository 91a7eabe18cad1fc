use ralphx::agents::AgentHarnessKind;
use ralphx::env::{env_get, env_set};
use ralphx::mcp_policy::{default_provider_home, provider_home_from_parts, resolve_provider_native_config_root};

fn pairs(entries: &[(&str, &str)]) -> Vec<(String, String)> {
    entries.iter().map(|(k, v)| (k.to_string(), v.to_string())).collect()
}

#[test]
fn get_after_set_returns_the_value_and_leaves_others() {
    let mut env = pairs(&[("HOME", "/home/a"), ("PATH", "/bin")]);
    env_set(&mut env, "CODEX_HOME", "/tmp/codex");
    assert_eq!(env_get(&env, "CODEX_HOME").as_deref(), Some("/tmp/codex"));
    assert_eq!(env_get(&env, "PATH").as_deref(), Some("/bin"));
    env_set(&mut env, "PATH", "/usr/bin");
    assert_eq!(env_get(&env, "PATH").as_deref(), Some("/usr/bin"));
    assert_eq!(env.len(), 3);
    assert_eq!(env[1], ("PATH".to_string(), "/usr/bin".to_string()));
    assert_eq!(env_get(&env, "MISSING"), None);
}

#[test]
fn first_entry_of_a_name_wins() {
    let env = pairs(&[("A", "1"), ("A", "2")]);
    assert_eq!(env_get(&env, "A").as_deref(), Some("1"));
}

#[test]
fn provider_home_is_the_policy_directory_or_its_parent_for_ralphx() {
    assert_eq!(default_provider_home("/home/a/.ralphx/mcp.yaml"), Ok("/home/a".to_string()));
    assert_eq!(default_provider_home("/home/a/config/mcp.yaml"), Ok("/home/a/config".to_string()));
    assert_eq!(default_provider_home("/"), Err("Global MCP policy has no owned root".to_string()));
}

#[test]
fn native_config_root_prefers_provider_then_shell_codex_home() {
    let shell = pairs(&[("CODEX_HOME", "/shell/codex")]);
    let provider = pairs(&[("CODEX_HOME", "/provider/codex")]);
    let none: Vec<(String, String)> = Vec::new();
    assert_eq!(
        resolve_provider_native_config_root(AgentHarnessKind::Codex, "/home/a", &shell, &provider)
        .unwrap(),
        "/provider/codex"
    );
    assert_eq!(
        resolve_provider_native_config_root(AgentHarnessKind::Codex, "/home/a", &shell, &none)
        .unwrap(),
        "/shell/codex"
    );
    assert_eq!(
        resolve_provider_native_config_root(AgentHarnessKind::Codex, "/home/a/", &none, &none)
        .unwrap(),
        "/home/a/.codex"
    );
    assert_eq!(
        resolve_provider_native_config_root(AgentHarnessKind::Claude, "/home/a", &shell, &provider)
            .unwrap(),
        "/home/a"
    );
    assert_eq!(
        resolve_provider_native_config_root(AgentHarnessKind::Claude, "relative", &none, &none),
        Err("anthropic native MCP config root must be an absolute path below the file-system root: relative"
            .to_string())
    );
    assert!(resolve_provider_native_config_root(AgentHarnessKind::Codex, "", &none, &none).is_err());
    assert!(resolve_provider_native_config_root(AgentHarnessKind::Claude, "/", &none, &none).is_err());
}

#[test]
fn provider_home_parts_pick_the_directory_or_its_parent() {
    let s = |v: &str| Some(v.to_string());
    assert_eq!(provider_home_from_parts(s("/h/.ralphx"), s(".ralphx"), s("/h")), Ok("/h".to_string()));
    assert_eq!(
        provider_home_from_parts(s(".ralphx"), s(".ralphx"), None),
        Err("Global MCP policy has no provider home".to_string())
    );
    assert_eq!(provider_home_from_parts(s("/h/cfg"), s("cfg"), s("/h")), Ok("/h/cfg".to_string()));
    assert_eq!(
        provider_home_from_parts(None, None, None),
        Err("Global MCP policy has no owned root".to_string())
    );
}

use ralphx::memory::{working_directory_blocker, DistillationLaunchBlocker};
use ralphx::path_safety::{
    components_of, path_starts_with, validate_absolute_non_root_path, validate_mcp_policy_path,
};

#[test]
fn absolute_paths_below_the_root_pass_unchanged() {
    assert_eq!(
        validate_absolute_non_root_path("/home/a/project", "project root"),
        Ok("/home/a/project".to_string())
    );
    assert_eq!(validate_absolute_non_root_path("/..", "x"), Ok("/..".to_string()));
}

#[test]
fn relative_and_root_paths_are_refused_with_their_label() {
    assert_eq!(
        validate_absolute_non_root_path("home/a", "project root"),
        Err("project root must be an absolute path below the file-system root: home/a".to_string())
    );
    for root in ["/", "//", "/.", "/./", ""] {
        assert!(validate_absolute_non_root_path(root, "MCP policy").is_err(), "{root}");
    }
}

#[test]
fn components_skip_empty_and_dot_segments() {
    assert_eq!(
        components_of("/a//b/./c/"),
        vec!["a".to_string(), "b".to_string(), "c".to_string()]
    );
    assert_eq!(components_of("/"), Vec::<String>::new());
    assert_eq!(components_of("/x/../y"), vec!["x".to_string(), "..".to_string(), "y".to_string()]);
}

#[test]
fn starts_with_compares_whole_components() {
    assert!(path_starts_with("/home/a/mcp.yaml", "/home/a"));
    assert!(path_starts_with("/home/a/mcp.yaml", "/home/a/"));
    assert!(!path_starts_with("/home/ab/mcp.yaml", "/home/a"));
    assert!(!path_starts_with("/home", "/home/a"));
}

#[test]
fn policy_path_must_be_mcp_yaml_under_its_root() {
    assert_eq!(
        validate_mcp_policy_path("/p", "/p/mcp.yaml"),
        Ok(("/p".to_string(), "/p/mcp.yaml".to_string()))
    );
    assert_eq!(
        validate_mcp_policy_path("/p", "/p/.ralphx/mcp.yaml"),
        Ok(("/p".to_string(), "/p/.ralphx/mcp.yaml".to_string()))
    );
    assert_eq!(
        validate_mcp_policy_path("/p", "/q/mcp.yaml"),
        Err("MCP policy escapes its owned root: /q/mcp.yaml".to_string())
    );
    assert_eq!(
        validate_mcp_policy_path("/p", "/p/other.yaml"),
        Err("MCP policy must use mcp.yaml under its owned root: /p/other.yaml".to_string())
    );
    assert_eq!(
        validate_mcp_policy_path("/p", "/p/a/b/mcp.yaml"),
        Err("MCP policy must use mcp.yaml under its owned root: /p/a/b/mcp.yaml".to_string())
    );
    assert_eq!(
        validate_mcp_policy_path("/", "/mcp.yaml"),
        Err("MCP policy root must be an absolute path below the file-system root: /".to_string())
    );
    assert_eq!(
        validate_mcp_policy_path("/p", "mcp.yaml"),
        Err("MCP policy must be an absolute path below the file-system root: mcp.yaml".to_string())
    );
}

#[test]
fn working_directory_must_be_an_absolute_directory() {
    assert!(working_directory_blocker("/home/a/project", true).is_none());
    assert!(matches!(
        working_directory_blocker("/home/a/project", false),
        Some(DistillationLaunchBlocker::WorkingDirectoryUnavailable)
    ));
    assert!(matches!(
        working_directory_blocker("project", true),
        Some(DistillationLaunchBlocker::WorkingDirectoryUnavailable)
    ));
}

use ralphx::linear_integration::{resolve_linear_label_ids, LinearLabel};

fn team_labels() -> Vec<LinearLabel> {
    vec![
        LinearLabel {
            id: "label-bug".to_string(),
            name: "Bug".to_string(),
        },
        LinearLabel {
            id: "label-feature".to_string(),
            name: "Feature".to_string(),
        },
    ]
}

#[test]
fn resolve_linear_label_ids_matches_exact_names() {
    let ids = resolve_linear_label_ids(
        &["Bug".to_string(), "Feature".to_string()],
        &team_labels(),
    )
    .expect("exact names should resolve");
    assert_eq!(ids, vec!["label-bug".to_string(), "label-feature".to_string()]);
}

#[test]
fn resolve_linear_label_ids_is_case_insensitive_and_trims() {
    let ids = resolve_linear_label_ids(&[" bug ".to_string(), "FEATURE".to_string()], &team_labels())
        .expect("case-insensitive trimmed names should resolve");
    assert_eq!(ids, vec!["label-bug".to_string(), "label-feature".to_string()]);
}

#[test]
fn resolve_linear_label_ids_dedupes_repeated_names() {
    let ids = resolve_linear_label_ids(
        &["Bug".to_string(), "bug".to_string(), " BUG ".to_string()],
        &team_labels(),
    )
    .expect("duplicate names should resolve once");
    assert_eq!(ids, vec!["label-bug".to_string()]);
}

#[test]
fn resolve_linear_label_ids_skips_empty_names() {
    let ids = resolve_linear_label_ids(
        &["".to_string(), "   ".to_string(), "Bug".to_string()],
        &team_labels(),
    )
    .expect("empty names are ignored");
    assert_eq!(ids, vec!["label-bug".to_string()]);
}

#[test]
fn resolve_linear_label_ids_rejects_unknown_names() {
    let error = resolve_linear_label_ids(
        &["Bug".to_string(), "Nonexistent".to_string()],
        &team_labels(),
    )
    .expect_err("unknown names should error");
    assert!(error.contains("Nonexistent"), "error should name the missing label: {error}");
}

#[test]
fn resolve_linear_label_ids_preserves_first_seen_order() {
    let ids = resolve_linear_label_ids(
        &["Feature".to_string(), "Bug".to_string(), "feature".to_string()],
        &team_labels(),
    )
    .expect("names should resolve");
    assert_eq!(
        ids,
        vec!["label-feature".to_string(), "label-bug".to_string()]
    );
}

#[test]
fn unknown_labels_are_all_listed_in_order() {
    let error = resolve_linear_label_ids(
        &["Nope".to_string(), "Bug".to_string(), "Also".to_string()],
        &team_labels(),
    )
    .unwrap_err();
    assert_eq!(error, "Unknown Linear label(s): Nope, Also");
}

#[test]
fn no_names_resolve_to_no_ids() {
    let ids = resolve_linear_label_ids(&[], &team_labels()).unwrap();
    assert!(ids.is_empty());
}

use cc_vault::reader::ClaudeReader;

#[test]
fn test_get_project_name_from_path() {
    let reader = ClaudeReader::with_projects_path(
        "/home/user/.cc-vault/projects".to_string(),
    );
    let path = "/home/user/.cc-vault/projects/my-project/conversation.jsonl";

    assert_eq!(
        reader.get_project_name_from_path(path),
        Some("my-project".to_string())
    );
}

#[test]
fn test_project_name_edge_cases() {
    let reader = ClaudeReader::with_projects_path("/base".to_string());
    // A bare file name stands in no directory.
    assert_eq!(reader.get_project_name_from_path("conversation.jsonl"), None);
    // A file at the root has no named directory above it.
    assert_eq!(reader.get_project_name_from_path("/conversation.jsonl"), None);
    // A relative path still names its directory.
    assert_eq!(
        reader.get_project_name_from_path("proj/c.jsonl"),
        Some("proj".to_string())
    );
}

#[test]
fn test_projects_path_kept() {
    let reader = ClaudeReader::with_projects_path("/somewhere/projects".to_string());
    assert_eq!(reader.projects_path(), "/somewhere/projects");
}

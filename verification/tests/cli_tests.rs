use cc_vault::cli::{Cli, Commands};

fn argv(parts: &[&str]) -> Vec<String> {
    parts.iter().map(|p| p.to_string()).collect()
}

#[test]
fn test_parse_import_command() {
    let args = argv(&["cc-vault", "import"]);
    let cli = Cli::try_parse_from(&args);

    assert!(cli.is_ok());
    let cli = cli.unwrap();

    match cli.command {
        Commands::Import { project, force } => {
            assert_eq!(project, None);
            assert_eq!(force, false);
        }
        _ => panic!("Expected Import command"),
    }
}

#[test]
fn test_parse_import_with_options() {
    let args = argv(&["cc-vault", "import", "--project", "/my/project", "--force"]);
    let cli = Cli::try_parse_from(&args);

    assert!(cli.is_ok());
    let cli = cli.unwrap();

    match cli.command {
        Commands::Import { project, force } => {
            assert_eq!(project, Some("/my/project".to_string()));
            assert_eq!(force, true);
        }
        _ => panic!("Expected Import command"),
    }
}

#[test]
fn test_parse_search_command() {
    let args = argv(&["cc-vault", "search", "rust", "programming"]);
    let cli = Cli::try_parse_from(&args);

    assert!(cli.is_ok());
    let cli = cli.unwrap();

    match cli.command {
        Commands::Search { keywords, mode, .. } => {
            assert_eq!(keywords, vec!["rust", "programming"]);
            assert_eq!(mode, "and");
        }
        _ => panic!("Expected Search command"),
    }
}

#[test]
fn test_parse_search_with_all_options() {
    let args = argv(&[
        "cc-vault",
        "search",
        "test",
        "--mode",
        "or",
        "--project",
        "/my/project",
        "--from",
        "2024-01-01",
        "--to",
        "2024-01-31",
        "--favorites",
        "--limit",
        "50",
    ]);
    let cli = Cli::try_parse_from(&args);

    assert!(cli.is_ok());
    let cli = cli.unwrap();

    match cli.command {
        Commands::Search { keywords, mode, project, from, to, favorites, limit } => {
            assert_eq!(keywords, vec!["test"]);
            assert_eq!(mode, "or");
            assert_eq!(project, Some("/my/project".to_string()));
            assert_eq!(from, Some("2024-01-01".to_string()));
            assert_eq!(to, Some("2024-01-31".to_string()));
            assert_eq!(favorites, true);
            assert_eq!(limit, 50);
        }
        _ => panic!("Expected Search command"),
    }
}

#[test]
fn test_parse_favorite_command() {
    let args = argv(&["cc-vault", "favorite", "123"]);
    let cli = Cli::try_parse_from(&args);

    assert!(cli.is_ok());
    let cli = cli.unwrap();

    match cli.command {
        Commands::Favorite { id, remove } => {
            assert_eq!(id, 123);
            assert_eq!(remove, false);
        }
        _ => panic!("Expected Favorite command"),
    }
}

#[test]
fn test_parse_favorite_remove() {
    let args = argv(&["cc-vault", "favorite", "456", "--remove"]);
    let cli = Cli::try_parse_from(&args);

    assert!(cli.is_ok());
    let cli = cli.unwrap();

    match cli.command {
        Commands::Favorite { id, remove } => {
            assert_eq!(id, 456);
            assert_eq!(remove, true);
        }
        _ => panic!("Expected Favorite command"),
    }
}

#[test]
fn test_parse_invalid_command() {
    let args = argv(&["cc-vault", "invalid"]);
    let cli = Cli::try_parse_from(&args);

    assert!(cli.is_err());
}

#[test]
fn test_parse_missing_required_arg() {
    let args = argv(&["cc-vault", "favorite"]);
    let cli = Cli::try_parse_from(&args);

    assert!(cli.is_err());
}

#[test]
fn test_parse_tui_command() {
    let args = argv(&["cc-vault", "tui"]);
    let cli = Cli::try_parse_from(&args);

    assert!(cli.is_ok());
    let cli = cli.unwrap();

    match cli.command {
        Commands::Tui => {}
        _ => panic!("Expected Tui command"),
    }
}

#[test]
fn test_help_message() {
    let args = argv(&["cc-vault", "--help"]);
    let result = Cli::try_parse_from(&args);

    // Asking for help refuses the line, carrying the help text.
    assert!(result.is_err());
    let err = result.unwrap_err();
    let err_str = err.message();

    assert!(err_str.contains("conversation history"));
    assert!(err_str.contains("Commands:"));
    assert!(err_str.contains("import"));
    assert!(err_str.contains("search"));
    assert!(err_str.contains("favorite"));
}

#[test]
fn test_subcommand_help() {
    let args = argv(&["cc-vault", "search", "--help"]);
    let result = Cli::try_parse_from(&args);

    assert!(result.is_err());
    let err = result.unwrap_err();
    let err_str = err.message();

    assert!(err_str.contains("Search conversations"));
    assert!(err_str.contains("--mode"));
    assert!(err_str.contains("--project"));
    assert!(err_str.contains("--favorites"));
}

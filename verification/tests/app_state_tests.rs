use cc_vault::app_state::{App, AppState, Key};
use cc_vault::connection::{ConnectionConfig, DatabaseConnection, DuckDBConnector};
use cc_vault::search::{SearchEngine, SearchResult};
use cc_vault::store::Vault;

fn sample_result(id: i64, content: &str) -> SearchResult {
    SearchResult {
        id,
        uuid: format!("uuid{}", id),
        session_id: format!("session{}", id),
        message_content: Some(content.to_string()),
        message_role: Some("user".to_string()),
        project_path: format!("/project{}", id),
        timestamp: 0,
        rank: 900,
        is_favorite: false,
    }
}

#[test]
fn test_app_initialization() {
    let app = App::new();
    assert_eq!(app.state, AppState::SearchInput);
    assert_eq!(app.search_input, "");
    assert_eq!(app.search_results.len(), 0);
    assert_eq!(app.selected_index, 0);
    assert!(!app.should_quit);
}

#[test]
fn test_search_input_handling() {
    let mut app = App::new();

    app.handle_key(Key::Char('t'));
    app.handle_key(Key::Char('e'));
    app.handle_key(Key::Char('s'));
    app.handle_key(Key::Char('t'));
    assert_eq!(app.search_input, "test");

    app.handle_key(Key::Backspace);
    assert_eq!(app.search_input, "tes");

    app.handle_key(Key::Enter);
    assert_eq!(app.state, AppState::ResultsList);
}

#[test]
fn test_results_navigation() {
    let mut app = App::new();
    app.state = AppState::ResultsList;

    app.search_results = vec![sample_result(1, "Result 1"), sample_result(2, "Result 2")];

    assert_eq!(app.selected_index, 0);

    app.handle_key(Key::Down);
    assert_eq!(app.selected_index, 1);

    app.handle_key(Key::Down);
    assert_eq!(app.selected_index, 1);

    app.handle_key(Key::Up);
    assert_eq!(app.selected_index, 0);

    app.handle_key(Key::Up);
    assert_eq!(app.selected_index, 0);
}

#[test]
fn test_state_transitions() {
    let mut app = App::new();

    app.search_input = "test".to_string();
    app.handle_key(Key::Enter);
    assert_eq!(app.state, AppState::ResultsList);

    app.search_results.push(sample_result(1, "Test result"));

    app.handle_key(Key::Enter);
    assert_eq!(app.state, AppState::ViewingResult);

    app.handle_key(Key::Esc);
    assert_eq!(app.state, AppState::ResultsList);

    app.handle_key(Key::Esc);
    assert_eq!(app.state, AppState::SearchInput);
}

#[test]
fn test_perform_search() {
    let mut app = App::new();
    app.search_input = "test".to_string();

    let mut conn = DuckDBConnector::new(ConnectionConfig::default());
    conn.connect().unwrap();
    let engine = SearchEngine::new(conn);
    let vault = Vault::new();

    let result = app.perform_search(&engine, &vault);
    assert!(result.is_ok());
    assert_eq!(app.selected_index, 0);
}

#[test]
fn test_quit_handling() {
    let mut app = App::new();

    app.handle_key(Key::Esc);
    assert!(app.should_quit);
}

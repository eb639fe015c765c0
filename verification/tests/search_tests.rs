use cc_vault::connection::{ConnectionConfig, DatabaseConnection, DuckDBConnector};
use cc_vault::parser::JsonlParser;
use cc_vault::search::{SearchEngine, SearchMode, SearchQuery, SearchResult};
use cc_vault::store::Vault;

fn seed(vault: &mut Vault, uuid: &str, content: &str, project: &str, ts: &str) -> i64 {
    let line = format!(
        "{{\"parentUuid\":null,\"isSidechain\":false,\"userType\":\"external\",\"cwd\":\"/test\",\"sessionId\":\"session-1\",\"version\":\"1.0\",\"gitBranch\":null,\"type\":\"user\",\"message\":{{\"role\":\"user\",\"content\":\"{}\"}},\"uuid\":\"{}\",\"timestamp\":\"{}\"}}",
        content, uuid, ts
    );
    let message = JsonlParser::new().parse_single_message(&line).unwrap();
    vault.insert_record(&message, project, message.timestamp.millis()).unwrap()
}

fn engine() -> SearchEngine<DuckDBConnector> {
    let mut conn = DuckDBConnector::new(ConnectionConfig::default());
    conn.connect().unwrap();
    SearchEngine::new(conn)
}

fn query_with(keywords: &[&str], mode: SearchMode) -> SearchQuery {
    let mut query = SearchQuery::default();
    query.keywords = keywords.iter().map(|k| k.to_string()).collect();
    query.mode = mode;
    query
}

const TS1: &str = "2025-07-18T12:00:00Z";
const TS2: &str = "2025-07-19T12:00:00Z";
const TS3: &str = "2025-07-20T12:00:00Z";

#[test]
fn test_simple_keyword_search() {
    let mut vault = Vault::new();
    seed(&mut vault, "test-uuid-1", "This is a test message", "/test/project", TS2);
    seed(&mut vault, "test-uuid-3", "This is a test from old project", "/old/project", TS3);
    seed(&mut vault, "other", "nothing of note", "/test/project", TS1);

    let results = engine().search_simple(&vault, "test");

    assert!(results.is_ok());
    let results = results.unwrap();
    assert_eq!(results.len(), 2);
    assert_eq!(results[0].uuid, "test-uuid-1");
    assert!(results[0].message_content.as_ref().unwrap().contains("test"));
}

#[test]
fn test_search_when_not_connected() {
    let vault = Vault::new();
    let search_engine = SearchEngine::new(DuckDBConnector::new(ConnectionConfig::default()));
    let results = search_engine.search_simple(&vault, "test");

    assert!(results.is_err());
    assert!(results.unwrap_err().message().contains("Database not connected"));
}

#[test]
fn test_empty_keywords_returns_empty_results() {
    let mut vault = Vault::new();
    seed(&mut vault, "u1", "anything", "/p", TS1);
    let query = SearchQuery::default();
    let results = engine().search(&vault, &query);

    assert!(results.is_ok());
    assert_eq!(results.unwrap().len(), 0);
}

#[test]
fn test_build_fts_query_and_mode() {
    let search_engine = engine();
    let keywords = vec!["rust".to_string(), "programming".to_string()];
    let query = search_engine.build_fts_query(&keywords, &SearchMode::And);

    assert_eq!(query, "rust programming");
}

#[test]
fn test_build_fts_query_or_mode() {
    let search_engine = engine();
    let keywords = vec!["rust".to_string(), "python".to_string()];
    let query = search_engine.build_fts_query(&keywords, &SearchMode::Or);

    assert_eq!(query, "rust OR python");
}

fn sample_result(id: i64, rank: i64) -> SearchResult {
    SearchResult {
        id,
        uuid: format!("uuid{}", id),
        session_id: format!("session{}", id),
        message_content: Some(format!("content{}", id)),
        message_role: Some("user".to_string()),
        project_path: format!("/path{}", id),
        timestamp: 0,
        rank,
        is_favorite: false,
    }
}

#[test]
fn test_search_result_equality() {
    let result1 = sample_result(1, 500);
    let result2 = sample_result(1, 500);
    assert_eq!(result1, result2);
}

#[test]
fn test_search_multiple_keywords_and_mode() {
    let mut vault = Vault::new();
    seed(&mut vault, "u1", "This is a test message about rust programming", "/test/project", TS2);
    seed(&mut vault, "u2", "This is a test message", "/test/project", TS1);

    let search_engine = engine();

    let results = search_engine
        .search_multiple_and(&vault, vec!["rust".to_string(), "programming".to_string()])
        .unwrap();
    assert_eq!(results.len(), 1);
    assert!(results[0].message_content.as_ref().unwrap().contains("rust"));
    assert!(results[0].message_content.as_ref().unwrap().contains("programming"));

    let results2 = search_engine
        .search_multiple_and(&vault, vec!["test".to_string(), "message".to_string()])
        .unwrap();
    assert_eq!(results2.len(), 2);
    assert!(results2[0].message_content.as_ref().unwrap().contains("test"));
    assert!(results2[0].message_content.as_ref().unwrap().contains("message"));

    let results3 = search_engine
        .search_multiple_and(&vault, vec!["rust".to_string(), "python".to_string()])
        .unwrap();
    assert_eq!(results3.len(), 0);
}

#[test]
fn test_search_multiple_keywords_or_mode() {
    let mut vault = Vault::new();
    seed(&mut vault, "u1", "This is a test message about rust programming", "/test/project", TS2);

    let search_engine = engine();

    let results = search_engine
        .search_multiple_or(&vault, vec!["rust".to_string(), "python".to_string()])
        .unwrap();
    assert_eq!(results.len(), 1);

    let results2 = search_engine
        .search_multiple_or(&vault, vec!["rust".to_string(), "programming".to_string()])
        .unwrap();
    assert_eq!(results2.len(), 1);

    let results3 = search_engine
        .search_multiple_or(&vault, vec!["python".to_string(), "java".to_string()])
        .unwrap();
    assert_eq!(results3.len(), 0);
}

#[test]
fn test_case_insensitive_match() {
    // Matching folds case on both sides: uppercase content answers a
    // lowercase term.
    let mut vault = Vault::new();
    seed(&mut vault, "u1", "ALL ABOUT RUST", "/p", TS1);
    let results = engine().search_simple(&vault, "rust").unwrap();
    assert_eq!(results.len(), 1);
    let results2 = engine().search_simple(&vault, "RUST").unwrap();
    assert_eq!(results2.len(), 1);
}

#[test]
fn test_rank_results() {
    let search_engine = engine();
    let results = vec![sample_result(1, 500), sample_result(2, 900), sample_result(3, 700)];

    let ranked = search_engine.rank_results(results);

    assert_eq!(ranked.len(), 3);
    assert_eq!(ranked[0].rank, 900);
    assert_eq!(ranked[0].id, 2);
    assert_eq!(ranked[1].rank, 700);
    assert_eq!(ranked[1].id, 3);
    assert_eq!(ranked[2].rank, 500);
    assert_eq!(ranked[2].id, 1);
}

#[test]
fn test_rank_results_stable_on_ties() {
    // Hits of equal rank keep their arrival order.
    let search_engine = engine();
    let results = vec![sample_result(1, 500), sample_result(2, 500), sample_result(3, 900)];
    let ranked = search_engine.rank_results(results);
    assert_eq!(ranked[0].id, 3);
    assert_eq!(ranked[1].id, 1);
    assert_eq!(ranked[2].id, 2);
}

fn ts_millis(ts: &str) -> i64 {
    cc_vault::message::Timestamp::parse(ts).unwrap().millis()
}

#[test]
fn test_search_with_absolute_date_range() {
    let mut vault = Vault::new();
    seed(&mut vault, "u1", "test one", "/p", TS1);
    seed(&mut vault, "u2", "test two", "/p", TS2);
    seed(&mut vault, "u3", "test three", "/p", TS3);
    let search_engine = engine();

    let mut query = query_with(&["test"], SearchMode::And);
    query.date_from = Some(ts_millis(TS2));
    query.date_to = Some(ts_millis(TS3));
    let results = search_engine.search(&vault, &query).unwrap();
    assert_eq!(results.len(), 2);
    for result in &results {
        assert!(result.timestamp >= ts_millis(TS2));
        assert!(result.timestamp <= ts_millis(TS3));
    }

    let mut query2 = query_with(&["test"], SearchMode::And);
    query2.date_from = Some(ts_millis(TS2));
    let results2 = search_engine.search(&vault, &query2).unwrap();
    assert_eq!(results2.len(), 2);
    for result in &results2 {
        assert!(result.timestamp >= ts_millis(TS2));
    }

    let mut query3 = query_with(&["test"], SearchMode::And);
    query3.date_to = Some(ts_millis(TS2));
    let results3 = search_engine.search(&vault, &query3).unwrap();
    assert_eq!(results3.len(), 2);
    for result in &results3 {
        assert!(result.timestamp <= ts_millis(TS2));
    }
}

#[test]
fn test_parse_relative_dates() {
    let search_engine = engine();
    let day = 86_400_000i64;
    let now = chrono::Utc::now().timestamp_millis();

    let today = search_engine.parse_relative_date("today").unwrap();
    assert_eq!(today % day, 0);
    assert!(now - day < today && today <= now);

    let yesterday = search_engine.parse_relative_date("yesterday").unwrap();
    // One day back from the current moment, not truncated to midnight.
    assert!(now - day - 2000 <= yesterday && yesterday <= now - day);

    let last_week = search_engine.parse_relative_date("last week").unwrap();
    assert!(last_week < now - 6 * day);
    assert!(last_week > now - 8 * day);

    let last_month = search_engine.parse_relative_date("last month").unwrap();
    assert!(last_month < now - 29 * day);
    assert!(last_month > now - 31 * day);

    let seven_days_ago = search_engine.parse_relative_date("7 days ago").unwrap();
    assert!(seven_days_ago < now - 6 * day);
    assert!(seven_days_ago > now - 8 * day);

    let two_weeks_ago = search_engine.parse_relative_date("2 weeks ago").unwrap();
    assert!(two_weeks_ago < now - 13 * day);
    assert!(two_weeks_ago > now - 15 * day);

    let invalid = search_engine.parse_relative_date("invalid date");
    assert!(invalid.is_err());
    assert!(invalid.unwrap_err().message().contains("Cannot parse relative date"));
}

#[test]
fn test_search_with_relative_dates() {
    let mut vault = Vault::new();
    seed(&mut vault, "u-now", "test fresh", "/p", "2025-07-20T12:00:00Z");
    let search_engine = engine();

    let last_week = search_engine.parse_relative_date("last week").unwrap();
    let today = search_engine.parse_relative_date("today").unwrap();

    let mut query = query_with(&["test"], SearchMode::And);
    query.date_from = Some(last_week);
    query.date_to = Some(today);

    let results = search_engine.search(&vault, &query).unwrap();
    for result in &results {
        assert!(result.timestamp >= last_week);
        assert!(result.timestamp <= today);
    }
}

#[test]
fn test_date_edge_cases_and_errors() {
    let search_engine = engine();

    assert!(search_engine.parse_relative_date("TODAY").is_ok());
    assert!(search_engine.parse_relative_date("ToDay").is_ok());

    assert!(search_engine.parse_relative_date("1 day ago").is_ok());
    assert!(search_engine.parse_relative_date("1 days ago").is_ok());

    assert!(search_engine.parse_relative_date("10 days ago").is_ok());
    assert!(search_engine.parse_relative_date("10 day ago").is_ok());

    assert!(search_engine.parse_relative_date("  7   days   ago  ").is_ok());

    assert!(search_engine.parse_relative_date("7 days").is_err());
    assert!(search_engine.parse_relative_date("abc days ago").is_err());
    assert!(search_engine.parse_relative_date("-5 days ago").is_err());
    assert!(search_engine.parse_relative_date("").is_err());
    assert!(search_engine.parse_relative_date("tomorrow").is_err());
    assert!(search_engine.parse_relative_date("0 days ago").is_err());
}

#[test]
fn test_search_with_invalid_date_ranges() {
    let mut vault = Vault::new();
    seed(&mut vault, "u1", "test", "/p", TS2);
    let search_engine = engine();

    let mut query = query_with(&["test"], SearchMode::And);
    query.date_from = Some(ts_millis(TS3));
    query.date_to = Some(ts_millis(TS1));

    let results = search_engine.search(&vault, &query).unwrap();
    assert_eq!(results.len(), 0);
}

#[test]
fn test_search_with_single_project_filter() {
    let mut vault = Vault::new();
    seed(&mut vault, "u1", "test a", "/test/project", TS1);
    seed(&mut vault, "u2", "test b", "/old/project", TS2);
    let search_engine = engine();

    let mut query = query_with(&["test"], SearchMode::And);
    query.project_filter = Some("/test/project".to_string());
    let results = search_engine.search(&vault, &query).unwrap();
    assert_eq!(results.len(), 1);
    for result in &results {
        assert_eq!(result.project_path, "/test/project");
    }

    let mut query2 = query_with(&["test"], SearchMode::And);
    query2.project_filter = Some("/different/project".to_string());
    let results2 = search_engine.search(&vault, &query2).unwrap();
    assert_eq!(results2.len(), 0);

    let query3 = query_with(&["test"], SearchMode::And);
    let results3 = search_engine.search(&vault, &query3).unwrap();
    assert!(results3.len() > 0);
}

#[test]
fn test_search_with_multiple_project_filters() {
    let mut vault = Vault::new();
    seed(&mut vault, "u1", "test a", "/test/project", TS1);
    seed(&mut vault, "u2", "test b", "/another/project", TS2);
    seed(&mut vault, "u3", "test c", "/third/project", TS3);
    let search_engine = engine();

    let mut query = query_with(&["test"], SearchMode::And);
    query.project_filters = Some(vec![
        "/test/project".to_string(),
        "/another/project".to_string(),
    ]);
    let results = search_engine.search(&vault, &query).unwrap();
    assert_eq!(results.len(), 2);
    for result in &results {
        assert!(
            result.project_path == "/test/project" || result.project_path == "/another/project"
        );
    }

    let mut query2 = query_with(&["test"], SearchMode::And);
    query2.project_filters = Some(vec!["/nonexistent1".to_string(), "/nonexistent2".to_string()]);
    let results2 = search_engine.search(&vault, &query2).unwrap();
    assert_eq!(results2.len(), 0);

    let mut query3 = query_with(&["test"], SearchMode::And);
    query3.project_filters = Some(vec![]);
    let results3 = search_engine.search(&vault, &query3).unwrap();
    assert!(results3.len() > 0);
    assert_eq!(results3.len(), 3);
}

#[test]
fn test_project_filter_edge_cases() {
    let mut vault = Vault::new();
    seed(&mut vault, "u1", "test a", "/test/project", TS1);
    seed(&mut vault, "u2", "test b", "/old/project", TS2);
    let search_engine = engine();

    // A present list wins over the single scope.
    let mut query = query_with(&["test"], SearchMode::And);
    query.project_filter = Some("/old/project".to_string());
    query.project_filters = Some(vec!["/test/project".to_string()]);
    let results = search_engine.search(&vault, &query).unwrap();
    assert!(results.len() > 0, "Expected at least one result, but got {}", results.len());
    for result in &results {
        assert_eq!(result.project_path, "/test/project");
    }

    let mut query2 = query_with(&["test"], SearchMode::And);
    query2.project_filters = Some(vec![
        "/path/with spaces".to_string(),
        "/path/with-dashes".to_string(),
        "/path/with_underscores".to_string(),
    ]);
    let results2 = search_engine.search(&vault, &query2).unwrap();
    assert_eq!(results2.len(), 0);

    let mut query3 = query_with(&["test"], SearchMode::And);
    query3.project_filters = None;
    let results3 = search_engine.search(&vault, &query3).unwrap();
    assert!(results3.len() > 0);

    let mut query4 = query_with(&["test"], SearchMode::And);
    query4.project_filters = Some(vec!["".to_string(), "/test/project".to_string()]);
    let results4 = search_engine.search(&vault, &query4).unwrap();
    for result in &results4 {
        assert!(result.project_path == "" || result.project_path == "/test/project");
    }
}

#[test]
fn test_mark_as_favorite() {
    let mut vault = Vault::new();
    let mut search_engine = engine();

    let result = search_engine.mark_as_favorite(&mut vault, 1);
    assert!(result.is_ok());
}

#[test]
fn test_mark_as_favorite_when_not_connected() {
    let mut vault = Vault::new();
    let mut search_engine = SearchEngine::new(DuckDBConnector::new(ConnectionConfig::default()));

    let result = search_engine.mark_as_favorite(&mut vault, 1);
    assert!(result.is_err());
    assert!(result.unwrap_err().message().contains("Database not connected"));
}

#[test]
fn test_unmark_as_favorite() {
    let mut vault = Vault::new();
    let mut search_engine = engine();

    let result = search_engine.unmark_as_favorite(&mut vault, 1);
    assert!(result.is_ok());
}

#[test]
fn test_unmark_as_favorite_when_not_connected() {
    let mut vault = Vault::new();
    let mut search_engine = SearchEngine::new(DuckDBConnector::new(ConnectionConfig::default()));

    let result = search_engine.unmark_as_favorite(&mut vault, 1);
    assert!(result.is_err());
    assert!(result.unwrap_err().message().contains("Database not connected"));
}

#[test]
fn test_list_all_favorites() {
    let mut vault = Vault::new();
    seed(&mut vault, "u1", "test", "/p", TS1);
    let search_engine = engine();

    let mut query = SearchQuery::default();
    query.favorites_only = Some(true);
    let results = search_engine.search(&vault, &query).unwrap();

    assert_eq!(results.len(), 0);
}

#[test]
fn test_search_with_favorites_filter_and_keywords() {
    let mut vault = Vault::new();
    seed(&mut vault, "u1", "test", "/p", TS1);
    let search_engine = engine();

    let mut query = query_with(&["test"], SearchMode::And);
    query.favorites_only = Some(true);
    let results = search_engine.search(&vault, &query).unwrap();
    assert_eq!(results.len(), 0);

    let mut query2 = query_with(&["test"], SearchMode::And);
    query2.favorites_only = Some(false);
    let results2 = search_engine.search(&vault, &query2).unwrap();
    assert!(results2.len() > 0);

    let query3 = query_with(&["test"], SearchMode::And);
    let results3 = search_engine.search(&vault, &query3).unwrap();
    assert!(results3.len() > 0);
}

#[test]
fn test_favorites_with_multiple_filters() {
    let mut vault = Vault::new();
    seed(&mut vault, "u1", "test", "/test/project", TS2);
    let search_engine = engine();

    let mut query = query_with(&["test"], SearchMode::And);
    query.project_filter = Some("/test/project".to_string());
    query.date_from = Some(ts_millis(TS1));
    query.date_to = Some(ts_millis(TS3));
    query.favorites_only = Some(true);

    let results = search_engine.search(&vault, &query).unwrap();
    assert_eq!(results.len(), 0);
}

#[test]
fn test_favorite_appears_and_disappears() {
    // After marking, the record answers a favorites-only query; after
    // unmarking, it no longer does.
    let mut vault = Vault::new();
    let id = seed(&mut vault, "u1", "test favorite", "/p", TS1);
    let mut search_engine = engine();

    search_engine.mark_as_favorite(&mut vault, id).unwrap();
    let mut query = query_with(&["test"], SearchMode::And);
    query.favorites_only = Some(true);
    let results = search_engine.search(&vault, &query).unwrap();
    assert_eq!(results.len(), 1);
    assert_eq!(results[0].id, id);
    assert!(results[0].is_favorite);

    search_engine.unmark_as_favorite(&mut vault, id).unwrap();
    let results2 = search_engine.search(&vault, &query).unwrap();
    assert_eq!(results2.len(), 0);
}

#[test]
fn test_search_limit() {
    let mut vault = Vault::new();
    for i in 0..5 {
        seed(&mut vault, &format!("u{}", i), "test entry", "/p", TS1);
    }
    let search_engine = engine();
    let mut query = query_with(&["test"], SearchMode::And);
    query.limit = Some(3);
    let results = search_engine.search(&vault, &query).unwrap();
    assert_eq!(results.len(), 3);
}

#[test]
fn test_or_mode_ranks_by_hits() {
    // A record holding both terms outranks one holding a single term.
    let mut vault = Vault::new();
    seed(&mut vault, "one", "alpha only", "/p", TS1);
    seed(&mut vault, "both", "alpha and beta", "/p", TS2);
    let search_engine = engine();
    let results = search_engine
        .search_multiple_or(&vault, vec!["alpha".to_string(), "beta".to_string()])
        .unwrap();
    assert_eq!(results.len(), 2);
    assert_eq!(results[0].uuid, "both");
    assert_eq!(results[1].uuid, "one");
    assert!(results[0].rank > results[1].rank);
}

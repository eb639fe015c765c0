use cc_vault::connection::{ConnectionConfig, DatabaseConnection, DuckDBConnector};
use cc_vault::importer::{DataImporter, ImportAction, ImportStats};
use cc_vault::message::ClaudeMessage;
use cc_vault::parser::JsonlParser;
use cc_vault::store::Vault;

fn message_with_uuid(uuid: &str) -> ClaudeMessage {
    let line = format!(
        "{{\"parentUuid\":null,\"isSidechain\":false,\"userType\":\"external\",\"cwd\":\"/test/path\",\"sessionId\":\"session123\",\"version\":\"1.0.0\",\"gitBranch\":\"main\",\"type\":\"user\",\"message\":{{\"role\":\"user\",\"content\":\"Test message\"}},\"uuid\":\"{}\",\"timestamp\":\"2025-07-21T12:48:30.283Z\"}}",
        uuid
    );
    JsonlParser::new().parse_single_message(&line).unwrap()
}

fn connected_importer() -> DataImporter<DuckDBConnector> {
    let mut conn = DuckDBConnector::new(ConnectionConfig::default());
    conn.connect().unwrap();
    DataImporter::new(conn)
}

fn disconnected_importer() -> DataImporter<DuckDBConnector> {
    DataImporter::new(DuckDBConnector::new(ConnectionConfig::default()))
}

#[test]
fn test_insert_single_conversation() {
    let mut importer = connected_importer();
    let mut vault = Vault::new();
    let message = message_with_uuid("test-uuid-123");
    let result = importer.import_single_conversation(&mut vault, &message, "/test/project");

    assert!(result.is_ok());
    assert_eq!(vault.count(), 1);
    assert_eq!(importer.connection.executed_statements().len(), 1);
}

#[test]
fn test_insert_when_not_connected() {
    let mut importer = disconnected_importer();
    let mut vault = Vault::new();
    let message = message_with_uuid("test-uuid-123");
    let result = importer.import_single_conversation(&mut vault, &message, "/test/project");

    assert!(result.is_err());
    assert!(result.unwrap_err().message().contains("Database not connected"));
    assert_eq!(vault.count(), 0);
}

#[test]
fn test_check_uuid_exists() {
    let importer = connected_importer();
    let vault = Vault::new();
    let result = importer.check_uuid_exists(&vault, "test-uuid");

    assert!(result.is_ok());
    assert!(!result.unwrap());
}

#[test]
fn test_uuid_duplicate_detection() {
    let mut importer = connected_importer();
    let mut vault = Vault::new();
    let message = message_with_uuid("test-uuid");
    importer.import_single_conversation(&mut vault, &message, "/p").unwrap();

    assert!(importer.check_uuid_exists(&vault, "test-uuid").unwrap());
}

#[test]
fn test_update_conversation() {
    let mut importer = connected_importer();
    let mut vault = Vault::new();
    let message = message_with_uuid("test-uuid-123");
    let result = importer.update_conversation(&mut vault, &message, "/test/project");

    assert!(result.is_ok());
}

#[test]
fn test_import_with_duplicate_check_insert() {
    let mut importer = connected_importer();
    let mut vault = Vault::new();
    let message = message_with_uuid("test-uuid-123");
    let result = importer.import_with_duplicate_check(&mut vault, &message, "/test/project");

    assert!(result.is_ok());
    assert_eq!(result.unwrap(), ImportAction::Inserted);
}

#[test]
fn test_import_with_duplicate_check_update() {
    let mut importer = connected_importer();
    let mut vault = Vault::new();
    let message = message_with_uuid("test-uuid-123");
    importer.import_with_duplicate_check(&mut vault, &message, "/test/project").unwrap();

    let result = importer.import_with_duplicate_check(&mut vault, &message, "/test/project");
    assert!(result.is_ok());
    assert_eq!(result.unwrap(), ImportAction::Updated);
    assert_eq!(vault.count(), 1);
}

#[test]
fn test_reingest_preserves_favorite() {
    // Ingesting the same key twice keeps one record, and its favorite flag
    // survives the second ingestion untouched.
    let mut importer = connected_importer();
    let mut vault = Vault::new();
    let message = message_with_uuid("fav-uuid");
    importer.import_with_duplicate_check(&mut vault, &message, "/p").unwrap();
    let id = vault.rows[0].id;
    vault.set_favorite(id, true);

    let action = importer.import_with_duplicate_check(&mut vault, &message, "/p").unwrap();
    assert_eq!(action, ImportAction::Updated);
    assert_eq!(vault.count(), 1);
    assert!(vault.rows[0].is_favorite);
}

#[test]
fn test_update_existing_with_new_timestamp() {
    let mut importer = connected_importer();
    let mut vault = Vault::new();
    let initial = message_with_uuid("test-uuid-123");
    importer.import_single_conversation(&mut vault, &initial, "/test/project").unwrap();

    let line = "{\"parentUuid\":null,\"isSidechain\":false,\"userType\":\"external\",\"cwd\":\"/test/path\",\"sessionId\":\"session123\",\"version\":\"1.0.0\",\"gitBranch\":\"main\",\"type\":\"user\",\"message\":{\"role\":\"user\",\"content\":\"Updated message\"},\"uuid\":\"test-uuid-123\",\"timestamp\":\"2025-07-21T13:48:30.283Z\"}";
    let updated = JsonlParser::new().parse_single_message(line).unwrap();

    let result = importer.update_conversation(&mut vault, &updated, "/test/project");
    assert!(result.is_ok());

    let stmts = importer.connection.executed_statements();
    assert!(stmts[stmts.len() - 1].sql.contains("UPDATE conversations"));
    assert!(stmts[stmts.len() - 1].sql.contains("updated_at = CURRENT_TIMESTAMP"));
    assert_eq!(
        vault.rows[0].timestamp.raw_text(),
        "2025-07-21T13:48:30.283Z"
    );
}

#[test]
fn test_timestamp_comparison() {
    let time1 = cc_vault::message::Timestamp::parse("2025-07-21T12:48:30.283Z").unwrap();
    let time2 = cc_vault::message::Timestamp::parse("2025-07-21T12:49:30.283Z").unwrap();

    assert!(time2.millis() > time1.millis());
    assert!(time1.millis() < time2.millis());
    assert_eq!(time2.millis() - time1.millis(), 60_000);
}

#[test]
fn test_bulk_import() {
    // Against an empty store, messages with all-distinct keys are all
    // inserted.
    let mut importer = connected_importer();
    let mut vault = Vault::new();
    let messages = vec![
        message_with_uuid("bulk-1"),
        message_with_uuid("bulk-2"),
        message_with_uuid("bulk-3"),
    ];

    let result = importer.bulk_import(&mut vault, &messages, "/test/project");

    assert!(result.is_ok());
    let stats = result.unwrap();
    assert_eq!(stats.inserted, 3);
    assert_eq!(stats.updated, 0);
    assert_eq!(stats.skipped, 0);
    assert_eq!(stats.errors, 0);
    assert_eq!(stats.total_processed(), 3);
    assert_eq!(vault.count(), 3);
}

#[test]
fn test_bulk_import_duplicates_update() {
    // A key seen again within one batch updates the record it created.
    let mut importer = connected_importer();
    let mut vault = Vault::new();
    let messages = vec![
        message_with_uuid("same"),
        message_with_uuid("same"),
        message_with_uuid("other"),
    ];
    let stats = importer.bulk_import(&mut vault, &messages, "/p").unwrap();
    assert_eq!(stats.inserted, 2);
    assert_eq!(stats.updated, 1);
    assert_eq!(vault.count(), 2);
}

#[test]
fn test_bulk_import_performance() {
    let mut importer = connected_importer();
    let mut vault = Vault::new();
    let num_messages = 1000;
    let mut messages = Vec::new();
    for i in 0..num_messages {
        messages.push(message_with_uuid(&format!("test-uuid-{}", i)));
    }

    let start_time = std::time::Instant::now();
    let result = importer.bulk_import(&mut vault, &messages, "/test/project");
    let elapsed = start_time.elapsed();

    assert!(result.is_ok());
    let stats = result.unwrap();
    assert_eq!(stats.inserted, num_messages);
    assert_eq!(stats.updated, 0);
    assert_eq!(stats.errors, 0);

    assert!(elapsed.as_secs() < 20, "Bulk import took too long: {:?}", elapsed);
}

#[test]
fn test_bulk_import_with_mixed_results() {
    let stats = ImportStats { inserted: 5, updated: 3, skipped: 2, errors: 1 };

    assert_eq!(stats.total_processed(), 10);
    assert_eq!(stats.errors, 1);
}

#[test]
fn test_import_stats() {
    let mut stats = ImportStats::new();

    assert_eq!(stats.inserted, 0);
    assert_eq!(stats.updated, 0);
    assert_eq!(stats.skipped, 0);
    assert_eq!(stats.errors, 0);
    assert_eq!(stats.total_processed(), 0);

    stats.inserted = 5;
    stats.updated = 3;
    stats.skipped = 2;

    assert_eq!(stats.total_processed(), 10);
}

#[test]
fn test_insert_binds_values() {
    // The insert travels as a fixed command with bound values: quote
    // characters in the content never reach the command text.
    let mut importer = connected_importer();
    let mut vault = Vault::new();
    let line = "{\"parentUuid\":null,\"isSidechain\":false,\"userType\":\"external\",\"cwd\":\"/test\",\"sessionId\":\"s\",\"version\":\"1\",\"gitBranch\":null,\"type\":\"user\",\"message\":{\"role\":\"user\",\"content\":\"a'); DROP TABLE conversations; --\"},\"uuid\":\"inj-1\",\"timestamp\":\"2025-07-21T12:48:30.283Z\"}";
    let message = JsonlParser::new().parse_single_message(line).unwrap();
    importer.import_single_conversation(&mut vault, &message, "/p").unwrap();
    let stmts = importer.connection.executed_statements();
    assert_eq!(stmts[0].sql, cc_vault::importer::insert_conversation());
    assert!(!stmts[0].sql.contains("DROP TABLE"));
    assert_eq!(stmts[0].params.len(), 13);
}

#[test]
fn test_get_last_update_time() {
    let mut importer = connected_importer();
    let mut vault = Vault::new();
    assert_eq!(importer.get_last_update_time(&vault, "/p").unwrap(), None);
    let m1 = message_with_uuid("t-1");
    importer.import_single_conversation(&mut vault, &m1, "/p").unwrap();
    let last = importer.get_last_update_time(&vault, "/p").unwrap();
    assert_eq!(last, Some(m1.timestamp.millis()));
    assert_eq!(importer.get_last_update_time(&vault, "/other").unwrap(), None);
}

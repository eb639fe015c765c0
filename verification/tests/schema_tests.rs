use cc_vault::connection::{ConnectionConfig, DatabaseConnection, DuckDBConnector};
use cc_vault::importer::DataImporter;
use cc_vault::parser::JsonlParser;
use cc_vault::schema::{
    create_conversations_table, create_fts_index, create_fts_triggers, create_project_index,
    create_session_index, create_timestamp_index, create_uuid_index, drop_conversations_table,
    drop_fts_table, SchemaManager,
};
use cc_vault::store::Vault;

fn connected_manager() -> SchemaManager<DuckDBConnector> {
    let mut conn = DuckDBConnector::new(ConnectionConfig::default());
    conn.connect().unwrap();
    SchemaManager::new(conn)
}

#[test]
fn test_create_conversations_table() {
    let mut schema_manager = connected_manager();
    let result = schema_manager.create_schema();

    assert!(result.is_ok());
    let log = schema_manager.connection.executed_statements();
    assert_eq!(log.len(), 5);
    assert_eq!(log[0].sql, create_conversations_table());
    assert_eq!(log[1].sql, create_uuid_index());
    assert_eq!(log[2].sql, create_session_index());
    assert_eq!(log[3].sql, create_timestamp_index());
    assert_eq!(log[4].sql, create_project_index());
}

#[test]
fn test_create_schema_when_not_connected() {
    let mut schema_manager = SchemaManager::new(DuckDBConnector::new(ConnectionConfig::default()));
    let result = schema_manager.create_schema();

    assert!(result.is_err());
    assert!(result.unwrap_err().message().contains("Database not connected"));
    assert_eq!(schema_manager.connection.executed_statements().len(), 0);
}

#[test]
fn test_create_fts_indexes() {
    let mut schema_manager = connected_manager();
    let result = schema_manager.create_fts_indexes();

    assert!(result.is_ok());
    let log = schema_manager.connection.executed_statements();
    assert_eq!(log.len(), 2);
    assert_eq!(log[0].sql, create_fts_index());
    assert_eq!(log[1].sql, create_fts_triggers());
}

#[test]
fn test_drop_schema() {
    let mut schema_manager = connected_manager();
    let result = schema_manager.drop_schema();

    assert!(result.is_ok());
    let log = schema_manager.connection.executed_statements();
    assert_eq!(log.len(), 2);
    // The index goes before the table it refers to.
    assert_eq!(log[0].sql, drop_fts_table());
    assert_eq!(log[1].sql, drop_conversations_table());
}

#[test]
fn test_migrate_up() {
    let mut schema_manager = connected_manager();
    let result = schema_manager.migrate_up();

    assert!(result.is_ok());
    assert_eq!(schema_manager.connection.executed_statements().len(), 7);
}

#[test]
fn test_migrate_down() {
    let mut schema_manager = connected_manager();
    let result = schema_manager.migrate_down();

    assert!(result.is_ok());
    assert_eq!(schema_manager.connection.executed_statements().len(), 2);
}

#[test]
fn test_idempotent_schema_creation() {
    let mut schema_manager = connected_manager();

    let result1 = schema_manager.migrate_up();
    assert!(result1.is_ok());

    let result2 = schema_manager.migrate_up();
    assert!(result2.is_ok());

    assert_eq!(schema_manager.connection.executed_statements().len(), 14);
}

#[test]
fn test_vault_schema_idempotent() {
    // Declaring the store's schema and index any number of times leaves
    // the store as one declaration leaves it.
    let mut vault = Vault::new();
    vault.ensure_schema();
    vault.ensure_search_index();
    assert!(vault.schema_ready);
    assert!(vault.search_ready);
    vault.ensure_schema();
    vault.ensure_search_index();
    assert!(vault.schema_ready);
    assert!(vault.search_ready);
    assert_eq!(vault.count(), 0);

    vault.drop_all();
    assert!(!vault.schema_ready);
    assert!(!vault.search_ready);
}

#[test]
fn test_index_population_tracks_table() {
    // Index population equals table population immediately after an
    // insert, an update, and a delete.
    let mut conn = DuckDBConnector::new(ConnectionConfig::default());
    conn.connect().unwrap();
    let mut importer = DataImporter::new(conn);
    let mut vault = Vault::new();
    let line = "{\"parentUuid\":null,\"isSidechain\":false,\"userType\":\"x\",\"cwd\":\"/\",\"sessionId\":\"s\",\"version\":\"1\",\"gitBranch\":null,\"type\":\"user\",\"message\":{\"role\":\"user\",\"content\":\"hello\"},\"uuid\":\"pop-1\",\"timestamp\":\"2025-07-21T12:48:30.283Z\"}";
    let message = JsonlParser::new().parse_single_message(line).unwrap();

    importer.import_single_conversation(&mut vault, &message, "/p").unwrap();
    assert_eq!(vault.index_count(), vault.count());

    importer.update_conversation(&mut vault, &message, "/p").unwrap();
    assert_eq!(vault.index_count(), vault.count());

    let id = vault.rows[0].id;
    assert!(vault.delete_record(id));
    assert_eq!(vault.index_count(), vault.count());
    assert_eq!(vault.count(), 0);
}

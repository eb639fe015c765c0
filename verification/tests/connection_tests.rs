use cc_vault::connection::{
    ConnectionConfig, DatabaseConnection, DuckDBConnector, ConnectionPool, RetryDecision,
    Statement, next_retry,
};

#[test]
fn test_successful_connection() {
    let config = ConnectionConfig::default();
    let mut connector = DuckDBConnector::new(config);

    let result = connector.connect();
    assert!(result.is_ok());
    assert!(connector.is_connected());
}

#[test]
fn test_disconnect() {
    let config = ConnectionConfig::default();
    let mut connector = DuckDBConnector::new(config);

    connector.connect().unwrap();
    assert!(connector.is_connected());

    let result = connector.disconnect();
    assert!(result.is_ok());
    assert!(!connector.is_connected());
}

#[test]
fn test_execute_when_not_connected() {
    let config = ConnectionConfig::default();
    let mut connector = DuckDBConnector::new(config);

    let result = connector.execute(&Statement::bare("SELECT 1"));
    assert!(result.is_err());
    assert!(result.unwrap_err().message().contains("not connected"));
}

#[test]
fn test_execute_when_connected() {
    let config = ConnectionConfig::default();
    let mut connector = DuckDBConnector::new(config);

    connector.connect().unwrap();
    let result = connector.execute(&Statement::bare("SELECT 1"));
    assert!(result.is_ok());
}

#[test]
fn test_connector_records_statements() {
    let mut connector = DuckDBConnector::new(ConnectionConfig::default());
    connector.connect().unwrap();
    connector.execute(&Statement::bare("SELECT * FROM test")).unwrap();

    let log = connector.executed_statements();
    assert_eq!(log.len(), 1);
    assert_eq!(log[0].sql, "SELECT * FROM test");
    assert!(log[0].params.is_empty());
}

#[test]
fn test_retry_configuration() {
    let config = ConnectionConfig { max_retries: 5, retry_delay_ms: 100, ..Default::default() };

    let connector = DuckDBConnector::new(config);
    assert_eq!(connector.config.max_retries, 5);
    assert_eq!(connector.config.retry_delay_ms, 100);
}

#[test]
fn test_retry_policy_schedule() {
    // The backoff grows linearly and gives up at the bound.
    let config = ConnectionConfig { max_retries: 3, retry_delay_ms: 10, ..Default::default() };
    assert_eq!(next_retry(1, &config), RetryDecision::RetryAfterMs(10));
    assert_eq!(next_retry(2, &config), RetryDecision::RetryAfterMs(20));
    assert_eq!(next_retry(3, &config), RetryDecision::GiveUp);
    assert_eq!(next_retry(4, &config), RetryDecision::GiveUp);
}

#[test]
fn test_connection_pool_creation() {
    let pool: ConnectionPool<DuckDBConnector> = ConnectionPool::new(5);
    assert_eq!(pool.size(), 0);
    assert_eq!(pool.max_connections, 5);
}

#[test]
fn test_connection_pool_add_connection() {
    let mut pool: ConnectionPool<DuckDBConnector> = ConnectionPool::new(2);
    let config = ConnectionConfig::default();

    let conn1 = DuckDBConnector::new(config.clone());
    let conn2 = DuckDBConnector::new(config.clone());

    assert!(pool.add_connection(conn1).is_ok());
    assert!(pool.add_connection(conn2).is_ok());
    assert_eq!(pool.size(), 2);

    let conn3 = DuckDBConnector::new(config);
    let result = pool.add_connection(conn3);
    assert!(result.is_err());
    assert!(result.unwrap_err().message().contains("pool is full"));
}

#[test]
fn test_connection_pool_get_connection() {
    let mut pool: ConnectionPool<DuckDBConnector> = ConnectionPool::new(2);

    let result = pool.get_connection();
    assert!(result.is_err());

    let config = ConnectionConfig::default();
    let conn = DuckDBConnector::new(config);
    pool.add_connection(conn).unwrap();

    let result = pool.get_connection();
    assert!(result.is_ok());
}

use vstd::prelude::*;
use crate::errors::VaultError;

verus! {

/// One value bound into a statement. Values travel beside the statement
/// text, never inside it: conversation content is adversarial-shaped free
/// text, and splicing it into a command would corrupt the command.
#[derive(Debug, Clone, PartialEq)]
pub enum Param {
    Null,
    Text(String),
    Int(i64),
    Bool(bool),
}

/// The mathematical value of a [`Param`].
pub enum ParamView {
    Null,
    Text(Seq<char>),
    Int(i64),
    Bool(bool),
}

impl View for Param {
    type V = ParamView;

    open spec fn view(&self) -> ParamView {
        match self {
            Param::Null => ParamView::Null,
            Param::Text(s) => ParamView::Text(s@),
            Param::Int(n) => ParamView::Int(*n),
            Param::Bool(b) => ParamView::Bool(*b),
        }
    }
}

/// A command for the storage engine: fixed text with placeholders, and the
/// values bound to them.
#[derive(Debug, Clone, PartialEq)]
pub struct Statement {
    pub sql: String,
    pub params: Vec<Param>,
}

/// The mathematical value of a [`Statement`].
pub struct StatementView {
    pub sql: Seq<char>,
    pub params: Seq<ParamView>,
}

impl View for Statement {
    type V = StatementView;

    open spec fn view(&self) -> StatementView {
        StatementView { sql: self.sql@, params: self.params@.map_values(|p: Param| p@) }
    }
}

impl Param {
    /// A copy of the bound value.
    pub fn duplicate(&self) -> (r: Param)
        ensures
            r@ == self@,
    {
        match self {
            Param::Null => Param::Null,
            Param::Text(s) => Param::Text(s.clone()),
            Param::Int(n) => Param::Int(*n),
            Param::Bool(b) => Param::Bool(*b),
        }
    }
}

impl Statement {
    /// A copy of the statement.
    pub fn duplicate(&self) -> (r: Statement)
        ensures
            r@.sql == self@.sql,
            r@.params == self@.params,
    {
        let mut params: Vec<Param> = Vec::new();
        let mut k: usize = 0;
        while k < self.params.len()
            invariant
                k <= self.params@.len(),
                params@.len() == k,
                forall|t: int| 0 <= t < k ==> params@[t]@ == self.params@[t]@,
            decreases self.params@.len() - k,
        {
            params.push(self.params[k].duplicate());
            k = k + 1;
        }
        let r = Statement { sql: self.sql.clone(), params };
        proof {
            assert(r@.params =~= self@.params);
        }
        r
    }

    /// A statement with no bound values.
    pub fn bare(sql: &str) -> (r: Statement)
        ensures
            r@.sql == sql@,
            r@.params == Seq::<ParamView>::empty(),
    {
        let r = Statement { sql: String::from_str(sql), params: Vec::new() };
        proof {
            assert(r@.params =~= Seq::<ParamView>::empty());
        }
        r
    }
}

/// The capability the storage engine transport offers: connect, disconnect,
/// report the connection state, and execute one value-bound statement.
///
/// `connected` models the guarded connection flag; `log` models the
/// statements the transport has carried, in order.
pub trait DatabaseConnection: Sized {
    spec fn connected(&self) -> bool;

    spec fn log(&self) -> Seq<StatementView>;

    fn connect(&mut self) -> (r: Result<(), VaultError>)
        ensures
            r.is_ok() ==> final(self).connected(),
            final(self).log() == old(self).log(),
    ;

    fn disconnect(&mut self) -> (r: Result<(), VaultError>)
        ensures
            r.is_ok() ==> !final(self).connected(),
            final(self).log() == old(self).log(),
    ;

    fn is_connected(&self) -> (r: bool)
        ensures
            r == self.connected(),
    ;

    fn execute(&mut self, stmt: &Statement) -> (r: Result<(), VaultError>)
        ensures
            final(self).connected() == old(self).connected(),
            r.is_ok() ==> final(self).log() == old(self).log().push(stmt@),
            r.is_err() ==> final(self).log() == old(self).log(),
            !old(self).connected() ==> r.is_err(),
    ;
}

/// How the transport is reached, and how stubbornly.
#[derive(Debug, Clone)]
pub struct ConnectionConfig {
    pub host: String,
    pub port: u16,
    pub database: String,
    pub max_retries: u32,
    pub retry_delay_ms: u64,
}

impl Default for ConnectionConfig {
    /// A local connection with three bounded retry attempts.
    fn default() -> (r: Self)
        ensures
            r.host@ == "localhost"@,
            r.port == 5432,
            r.database@ == "cc_vault"@,
            r.max_retries == 3,
            r.retry_delay_ms == 1000,
    {
        ConnectionConfig {
            host: String::from_str("localhost"),
            port: 5432,
            database: String::from_str("cc_vault"),
            max_retries: 3,
            retry_delay_ms: 1000,
        }
    }
}

/// What the bounded retry policy decides after a failed attempt: wait and
/// try again, or give up. `attempt` is the 1-based count of failures so far.
#[derive(Debug, Clone, Copy, PartialEq, Eq)]
pub enum RetryDecision {
    /// Wait this many milliseconds, then try once more.
    RetryAfterMs(u64),
    /// The bound is reached; fail permanently.
    GiveUp,
}

/// The linearly increasing backoff schedule: after the n-th failure the
/// delay is n times the base delay, and after `max_retries` failures the
/// policy gives up. Saturates rather than overflowing.
pub open spec fn retry_decision_spec(attempt: u32, max_retries: u32, base_delay_ms: u64)
    -> RetryDecision {
    if attempt >= max_retries {
        RetryDecision::GiveUp
    } else if base_delay_ms * attempt > u64::MAX {
        RetryDecision::RetryAfterMs(u64::MAX)
    } else {
        RetryDecision::RetryAfterMs((base_delay_ms * attempt) as u64)
    }
}

/// Decides, after a failed connection attempt, whether to wait and retry or
/// to give up. Pure: the caller performs the waiting.
pub fn next_retry(attempt: u32, config: &ConnectionConfig) -> (r: RetryDecision)
    ensures
        r == retry_decision_spec(attempt, config.max_retries, config.retry_delay_ms),
{
    if attempt >= config.max_retries {
        RetryDecision::GiveUp
    } else {
        match config.retry_delay_ms.checked_mul(attempt as u64) {
            Some(d) => RetryDecision::RetryAfterMs(d),
            None => RetryDecision::RetryAfterMs(u64::MAX),
        }
    }
}

/// A transport that simulates the storage engine: it tracks the guarded
/// connection flag and records every statement it is handed.
pub struct DuckDBConnector {
    pub config: ConnectionConfig,
    pub connected_flag: bool,
    pub executed: Vec<Statement>,
}

impl DuckDBConnector {
    pub fn new(config: ConnectionConfig) -> (r: Self)
        ensures
            !r.connected(),
            r.log() == Seq::<StatementView>::empty(),
    {
        let r = DuckDBConnector { config, connected_flag: false, executed: Vec::new() };
        proof {
            assert(r.log() =~= Seq::<StatementView>::empty());
        }
        r
    }

    /// The statements carried so far, for callers that inspect the traffic.
    pub fn executed_statements(&self) -> (r: &Vec<Statement>)
        ensures
            r@.map_values(|s: Statement| s@) == self.log(),
    {
        &self.executed
    }
}

impl DatabaseConnection for DuckDBConnector {
    open spec fn connected(&self) -> bool {
        self.connected_flag
    }

    open spec fn log(&self) -> Seq<StatementView> {
        self.executed@.map_values(|s: Statement| s@)
    }

    /// On the simulated transport, connecting always succeeds and raises
    /// the guarded flag; nothing else moves. The transport holds no lock,
    /// so the poisoned-guard failure of a real adapter cannot arise here.
    fn connect(&mut self) -> (r: Result<(), VaultError>)
        ensures
            r.is_ok(),
            final(self).connected(),
            final(self).log() == old(self).log(),
            final(self).config == old(self).config,
    {
        self.connected_flag = true;
        Ok(())
    }

    /// On the simulated transport, disconnecting always succeeds and
    /// lowers the flag; nothing else moves.
    fn disconnect(&mut self) -> (r: Result<(), VaultError>)
        ensures
            r.is_ok(),
            !final(self).connected(),
            final(self).log() == old(self).log(),
            final(self).config == old(self).config,
    {
        self.connected_flag = false;
        Ok(())
    }

    fn is_connected(&self) -> (r: bool) {
        self.connected_flag
    }

    /// On the simulated transport, a statement carried while connected is
    /// always accepted and recorded; while disconnected it is refused and
    /// nothing is recorded.
    fn execute(&mut self, stmt: &Statement) -> (r: Result<(), VaultError>)
        ensures
            old(self).connected() ==> r.is_ok() && final(self).log() == old(self).log().push(
                stmt@,
            ),
            !old(self).connected() ==> r == Err::<(), VaultError>(VaultError::NotConnected),
            final(self).config == old(self).config,
    {
        if !self.connected_flag {
            return Err(VaultError::NotConnected);
        }
        let ghost old_log = self.log();
        self.executed.push(stmt.duplicate());
        proof {
            assert(self.executed@.last()@ == stmt@);
            assert(self.log() =~= old_log.push(stmt@));
        }
        Ok(())
    }
}

/// A bag of interchangeable connections, bounded in size.
pub struct ConnectionPool<C> {
    pub connections: Vec<C>,
    pub max_connections: usize,
}

impl<C: DatabaseConnection> ConnectionPool<C> {
    pub fn new(max_connections: usize) -> (r: Self)
        ensures
            r.connections@.len() == 0,
            r.max_connections == max_connections,
    {
        ConnectionPool { connections: Vec::new(), max_connections }
    }

    /// Adds a connection; refused once the pool is full.
    pub fn add_connection(&mut self, conn: C) -> (r: Result<(), VaultError>)
        ensures
            old(self).connections@.len() < old(self).max_connections ==> r.is_ok()
                && final(self).connections@ == old(self).connections@.push(conn),
            old(self).connections@.len() >= old(self).max_connections ==> r
                == Err::<(), VaultError>(VaultError::PoolFull) && final(self).connections@ == old(
                self,
            ).connections@,
            final(self).max_connections == old(self).max_connections,
    {
        if self.connections.len() >= self.max_connections {
            return Err(VaultError::PoolFull);
        }
        self.connections.push(conn);
        Ok(())
    }

    /// The first connection, if the pool holds any.
    pub fn get_connection(&self) -> (r: Result<&C, VaultError>)
        ensures
            self.connections@.len() > 0 ==> r.is_ok() && r.unwrap() == &self.connections@[0],
            self.connections@.len() == 0 ==> r == Err::<&C, VaultError>(VaultError::PoolEmpty),
    {
        if self.connections.len() == 0 {
            return Err(VaultError::PoolEmpty);
        }
        Ok(&self.connections[0])
    }

    pub fn size(&self) -> (r: usize)
        ensures
            r == self.connections@.len(),
    {
        self.connections.len()
    }
}

} // verus!

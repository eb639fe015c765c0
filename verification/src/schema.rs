use vstd::prelude::*;
use crate::connection::{DatabaseConnection, Statement, StatementView};
use crate::errors::VaultError;
use crate::store::Vault;

verus! {

/// Declares the table of records, its primary key, and the uniqueness
/// constraint on the message key; harmless to repeat.
pub fn create_conversations_table() -> (r: &'static str)
    ensures
        r@ == create_conversations_table_sql(),
{
    "CREATE TABLE IF NOT EXISTS conversations (\n    id INTEGER PRIMARY KEY,\n    uuid TEXT NOT NULL UNIQUE,\n    parent_uuid TEXT,\n    session_id TEXT NOT NULL,\n    user_type TEXT NOT NULL,\n    message_type TEXT NOT NULL,\n    message_role TEXT,\n    message_content TEXT,\n    project_path TEXT NOT NULL,\n    cwd TEXT NOT NULL,\n    git_branch TEXT,\n    version TEXT NOT NULL,\n    timestamp TIMESTAMP NOT NULL,\n    is_favorite BOOLEAN DEFAULT FALSE,\n    created_at TIMESTAMP DEFAULT CURRENT_TIMESTAMP,\n    updated_at TIMESTAMP DEFAULT CURRENT_TIMESTAMP\n)"
}

pub open spec fn create_conversations_table_sql() -> Seq<char> {
    "CREATE TABLE IF NOT EXISTS conversations (\n    id INTEGER PRIMARY KEY,\n    uuid TEXT NOT NULL UNIQUE,\n    parent_uuid TEXT,\n    session_id TEXT NOT NULL,\n    user_type TEXT NOT NULL,\n    message_type TEXT NOT NULL,\n    message_role TEXT,\n    message_content TEXT,\n    project_path TEXT NOT NULL,\n    cwd TEXT NOT NULL,\n    git_branch TEXT,\n    version TEXT NOT NULL,\n    timestamp TIMESTAMP NOT NULL,\n    is_favorite BOOLEAN DEFAULT FALSE,\n    created_at TIMESTAMP DEFAULT CURRENT_TIMESTAMP,\n    updated_at TIMESTAMP DEFAULT CURRENT_TIMESTAMP\n)"@
}

pub fn create_uuid_index() -> (r: &'static str)
    ensures
        r@ == create_uuid_index_sql(),
{
    "CREATE INDEX IF NOT EXISTS idx_conversations_uuid ON conversations(uuid)"
}

pub open spec fn create_uuid_index_sql() -> Seq<char> {
    "CREATE INDEX IF NOT EXISTS idx_conversations_uuid ON conversations(uuid)"@
}

pub fn create_session_index() -> (r: &'static str)
    ensures
        r@ == create_session_index_sql(),
{
    "CREATE INDEX IF NOT EXISTS idx_conversations_session ON conversations(session_id)"
}

pub open spec fn create_session_index_sql() -> Seq<char> {
    "CREATE INDEX IF NOT EXISTS idx_conversations_session ON conversations(session_id)"@
}

pub fn create_timestamp_index() -> (r: &'static str)
    ensures
        r@ == create_timestamp_index_sql(),
{
    "CREATE INDEX IF NOT EXISTS idx_conversations_timestamp ON conversations(timestamp)"
}

pub open spec fn create_timestamp_index_sql() -> Seq<char> {
    "CREATE INDEX IF NOT EXISTS idx_conversations_timestamp ON conversations(timestamp)"@
}

pub fn create_project_index() -> (r: &'static str)
    ensures
        r@ == create_project_index_sql(),
{
    "CREATE INDEX IF NOT EXISTS idx_conversations_project ON conversations(project_path)"
}

pub open spec fn create_project_index_sql() -> Seq<char> {
    "CREATE INDEX IF NOT EXISTS idx_conversations_project ON conversations(project_path)"@
}

/// Declares the full-text index over the content column.
pub fn create_fts_index() -> (r: &'static str)
    ensures
        r@ == create_fts_index_sql(),
{
    "CREATE VIRTUAL TABLE IF NOT EXISTS conversations_fts USING fts5(\n    uuid UNINDEXED,\n    message_content,\n    content=conversations,\n    content_rowid=id\n)"
}

pub open spec fn create_fts_index_sql() -> Seq<char> {
    "CREATE VIRTUAL TABLE IF NOT EXISTS conversations_fts USING fts5(\n    uuid UNINDEXED,\n    message_content,\n    content=conversations,\n    content_rowid=id\n)"@
}

/// Installs the maintenance hooks: every insert, update, and delete on the
/// table is mirrored into the index within the same logical operation, so
/// the index population equals the table population after every mutation.
pub fn create_fts_triggers() -> (r: &'static str)
    ensures
        r@ == create_fts_triggers_sql(),
{
    "CREATE TRIGGER IF NOT EXISTS conversations_fts_insert \nAFTER INSERT ON conversations \nBEGIN\n    INSERT INTO conversations_fts(rowid, uuid, message_content) \n    VALUES (new.id, new.uuid, new.message_content);\nEND;\n\nCREATE TRIGGER IF NOT EXISTS conversations_fts_delete \nAFTER DELETE ON conversations \nBEGIN\n    DELETE FROM conversations_fts WHERE rowid = old.id;\nEND;\n\nCREATE TRIGGER IF NOT EXISTS conversations_fts_update \nAFTER UPDATE ON conversations \nBEGIN\n    DELETE FROM conversations_fts WHERE rowid = old.id;\n    INSERT INTO conversations_fts(rowid, uuid, message_content) \n    VALUES (new.id, new.uuid, new.message_content);\nEND;"
}

pub open spec fn create_fts_triggers_sql() -> Seq<char> {
    "CREATE TRIGGER IF NOT EXISTS conversations_fts_insert \nAFTER INSERT ON conversations \nBEGIN\n    INSERT INTO conversations_fts(rowid, uuid, message_content) \n    VALUES (new.id, new.uuid, new.message_content);\nEND;\n\nCREATE TRIGGER IF NOT EXISTS conversations_fts_delete \nAFTER DELETE ON conversations \nBEGIN\n    DELETE FROM conversations_fts WHERE rowid = old.id;\nEND;\n\nCREATE TRIGGER IF NOT EXISTS conversations_fts_update \nAFTER UPDATE ON conversations \nBEGIN\n    DELETE FROM conversations_fts WHERE rowid = old.id;\n    INSERT INTO conversations_fts(rowid, uuid, message_content) \n    VALUES (new.id, new.uuid, new.message_content);\nEND;"@
}

pub fn drop_conversations_table() -> (r: &'static str)
    ensures
        r@ == drop_conversations_table_sql(),
{
    "DROP TABLE IF EXISTS conversations"
}

pub open spec fn drop_conversations_table_sql() -> Seq<char> {
    "DROP TABLE IF EXISTS conversations"@
}

pub fn drop_fts_table() -> (r: &'static str)
    ensures
        r@ == drop_fts_table_sql(),
{
    "DROP TABLE IF EXISTS conversations_fts"
}

pub open spec fn drop_fts_table_sql() -> Seq<char> {
    "DROP TABLE IF EXISTS conversations_fts"@
}

/// The schema declarations, in the order they are issued.
pub open spec fn schema_statements() -> Seq<StatementView> {
    seq![
        StatementView { sql: create_conversations_table_sql(), params: Seq::empty() },
        StatementView { sql: create_uuid_index_sql(), params: Seq::empty() },
        StatementView { sql: create_session_index_sql(), params: Seq::empty() },
        StatementView { sql: create_timestamp_index_sql(), params: Seq::empty() },
        StatementView { sql: create_project_index_sql(), params: Seq::empty() },
    ]
}

/// The full-text index declarations, in the order they are issued.
pub open spec fn fts_statements() -> Seq<StatementView> {
    seq![
        StatementView { sql: create_fts_index_sql(), params: Seq::empty() },
        StatementView { sql: create_fts_triggers_sql(), params: Seq::empty() },
    ]
}

/// The removals: the index first, then the table it refers to.
pub open spec fn drop_statements() -> Seq<StatementView> {
    seq![
        StatementView { sql: drop_fts_table_sql(), params: Seq::empty() },
        StatementView { sql: drop_conversations_table_sql(), params: Seq::empty() },
    ]
}

/// Declares the persisted table, its indexes, and the full-text index with
/// its maintenance hooks, through the transport; every declaration is
/// guarded so that repeating it changes nothing.
pub struct SchemaManager<C> {
    pub connection: C,
}

impl<C: DatabaseConnection> SchemaManager<C> {
    pub fn new(connection: C) -> (r: Self)
        ensures
            r.connection == connection,
    {
        SchemaManager { connection }
    }

    /// Declares the table and its secondary indexes; refused when the store
    /// is unreachable, before anything is written.
    pub fn create_schema(&mut self) -> (r: Result<(), VaultError>)
        ensures
            final(self).connection.connected() == old(self).connection.connected(),
            !old(self).connection.connected() ==> r == Err::<(), VaultError>(
                VaultError::NotConnected,
            ) && final(self).connection.log() == old(self).connection.log(),
            old(self).connection.connected() && r.is_ok() ==> final(self).connection.log() == old(
                self,
            ).connection.log() + schema_statements(),
            r.is_err() ==> exists|n: int|
                0 <= n <= schema_statements().len() && final(self).connection.log() == old(
                    self,
                ).connection.log() + schema_statements().take(n),
    {
        if !self.connection.is_connected() {
            proof {
                assert(final(self).connection.log() == old(self).connection.log()
                    + schema_statements().take(0)) by {
                    assert(old(self).connection.log() + schema_statements().take(0) =~= old(
                        self,
                    ).connection.log());
                }
            }
            return Err(VaultError::NotConnected);
        }
        let ghost base = self.connection.log();
        let s1 = Statement::bare(create_conversations_table());
        let s2 = Statement::bare(create_uuid_index());
        let s3 = Statement::bare(create_session_index());
        let s4 = Statement::bare(create_timestamp_index());
        let s5 = Statement::bare(create_project_index());
        match self.connection.execute(&s1) {
            Err(e) => {
                proof {
                    assert(self.connection.log() =~= base + schema_statements().take(0));
                }
                return Err(e);
            },
            Ok(()) => {},
        }
        match self.connection.execute(&s2) {
            Err(e) => {
                proof {
                    assert(self.connection.log() =~= base + schema_statements().take(1));
                }
                return Err(e);
            },
            Ok(()) => {},
        }
        match self.connection.execute(&s3) {
            Err(e) => {
                proof {
                    assert(self.connection.log() =~= base + schema_statements().take(2));
                }
                return Err(e);
            },
            Ok(()) => {},
        }
        match self.connection.execute(&s4) {
            Err(e) => {
                proof {
                    assert(self.connection.log() =~= base + schema_statements().take(3));
                }
                return Err(e);
            },
            Ok(()) => {},
        }
        match self.connection.execute(&s5) {
            Err(e) => {
                proof {
                    assert(self.connection.log() =~= base + schema_statements().take(4));
                }
                return Err(e);
            },
            Ok(()) => {},
        }
        proof {
            assert(self.connection.log() =~= base + schema_statements());
        }
        Ok(())
    }

    /// Declares the full-text index and installs its maintenance hooks;
    /// refused when the store is unreachable.
    pub fn create_fts_indexes(&mut self) -> (r: Result<(), VaultError>)
        ensures
            final(self).connection.connected() == old(self).connection.connected(),
            !old(self).connection.connected() ==> r == Err::<(), VaultError>(
                VaultError::NotConnected,
            ) && final(self).connection.log() == old(self).connection.log(),
            old(self).connection.connected() && r.is_ok() ==> final(self).connection.log() == old(
                self,
            ).connection.log() + fts_statements(),
            r.is_err() ==> exists|n: int|
                0 <= n <= fts_statements().len() && final(self).connection.log() == old(
                    self,
                ).connection.log() + fts_statements().take(n),
    {
        if !self.connection.is_connected() {
            proof {
                assert(final(self).connection.log() == old(self).connection.log()
                    + fts_statements().take(0)) by {
                    assert(old(self).connection.log() + fts_statements().take(0) =~= old(
                        self,
                    ).connection.log());
                }
            }
            return Err(VaultError::NotConnected);
        }
        let ghost base = self.connection.log();
        let s1 = Statement::bare(create_fts_index());
        let s2 = Statement::bare(create_fts_triggers());
        match self.connection.execute(&s1) {
            Err(e) => {
                proof {
                    assert(self.connection.log() =~= base + fts_statements().take(0));
                }
                return Err(e);
            },
            Ok(()) => {},
        }
        match self.connection.execute(&s2) {
            Err(e) => {
                proof {
                    assert(self.connection.log() =~= base + fts_statements().take(1));
                }
                return Err(e);
            },
            Ok(()) => {},
        }
        proof {
            assert(self.connection.log() =~= base + fts_statements());
        }
        Ok(())
    }

    /// Removes the full-text index first, then the table it refers to;
    /// refused when the store is unreachable.
    pub fn drop_schema(&mut self) -> (r: Result<(), VaultError>)
        ensures
            final(self).connection.connected() == old(self).connection.connected(),
            !old(self).connection.connected() ==> r == Err::<(), VaultError>(
                VaultError::NotConnected,
            ) && final(self).connection.log() == old(self).connection.log(),
            old(self).connection.connected() && r.is_ok() ==> final(self).connection.log() == old(
                self,
            ).connection.log() + drop_statements(),
            r.is_err() ==> exists|n: int|
                0 <= n <= drop_statements().len() && final(self).connection.log() == old(
                    self,
                ).connection.log() + drop_statements().take(n),
    {
        if !self.connection.is_connected() {
            proof {
                assert(final(self).connection.log() == old(self).connection.log()
                    + drop_statements().take(0)) by {
                    assert(old(self).connection.log() + drop_statements().take(0) =~= old(
                        self,
                    ).connection.log());
                }
            }
            return Err(VaultError::NotConnected);
        }
        let ghost base = self.connection.log();
        let s1 = Statement::bare(drop_fts_table());
        let s2 = Statement::bare(drop_conversations_table());
        match self.connection.execute(&s1) {
            Err(e) => {
                proof {
                    assert(self.connection.log() =~= base + drop_statements().take(0));
                }
                return Err(e);
            },
            Ok(()) => {},
        }
        match self.connection.execute(&s2) {
            Err(e) => {
                proof {
                    assert(self.connection.log() =~= base + drop_statements().take(1));
                }
                return Err(e);
            },
            Ok(()) => {},
        }
        proof {
            assert(self.connection.log() =~= base + drop_statements());
        }
        Ok(())
    }

    /// Brings the schema fully up: the table, its indexes, then the
    /// full-text index and its hooks.
    pub fn migrate_up(&mut self) -> (r: Result<(), VaultError>)
        ensures
            final(self).connection.connected() == old(self).connection.connected(),
            !old(self).connection.connected() ==> r == Err::<(), VaultError>(
                VaultError::NotConnected,
            ) && final(self).connection.log() == old(self).connection.log(),
            old(self).connection.connected() && r.is_ok() ==> final(self).connection.log() == old(
                self,
            ).connection.log() + schema_statements() + fts_statements(),
            r.is_err() ==> exists|n: int|
                0 <= n <= schema_statements().len() + fts_statements().len()
                    && final(self).connection.log() == old(self).connection.log() + (
                schema_statements() + fts_statements()).take(n),
    {
        let ghost base = self.connection.log();
        let ghost all = schema_statements() + fts_statements();
        match self.create_schema() {
            Err(e) => {
                proof {
                    let n = choose|n: int|
                        0 <= n <= schema_statements().len() && self.connection.log() == base
                            + schema_statements().take(n);
                    assert(all.take(n) =~= schema_statements().take(n));
                }
                Err(e)
            },
            Ok(()) => {
                let r = self.create_fts_indexes();
                proof {
                    if r.is_err() {
                        let m = choose|m: int|
                            0 <= m <= fts_statements().len() && self.connection.log() == (base
                                + schema_statements()) + fts_statements().take(m);
                        assert(all.take(schema_statements().len() + m) =~= schema_statements()
                            + fts_statements().take(m));
                        assert(self.connection.log() =~= base + all.take(
                            schema_statements().len() + m,
                        ));
                    }
                }
                r
            },
        }
    }

    /// Takes the schema fully down.
    pub fn migrate_down(&mut self) -> (r: Result<(), VaultError>)
        ensures
            final(self).connection.connected() == old(self).connection.connected(),
            !old(self).connection.connected() ==> r == Err::<(), VaultError>(
                VaultError::NotConnected,
            ) && final(self).connection.log() == old(self).connection.log(),
            old(self).connection.connected() && r.is_ok() ==> final(self).connection.log() == old(
                self,
            ).connection.log() + drop_statements(),
    {
        self.drop_schema()
    }
}

impl Vault {
    /// Declares the store's table; declaring it again changes nothing.
    pub fn ensure_schema(&mut self)
        ensures
            final(self).schema_ready,
            final(self).rows@ == old(self).rows@,
            final(self).fts@ == old(self).fts@,
            final(self).next_id == old(self).next_id,
            final(self).search_ready == old(self).search_ready,
    {
        self.schema_ready = true;
    }

    /// Declares the store's full-text index; declaring it again changes
    /// nothing.
    pub fn ensure_search_index(&mut self)
        ensures
            final(self).search_ready,
            final(self).rows@ == old(self).rows@,
            final(self).fts@ == old(self).fts@,
            final(self).next_id == old(self).next_id,
            final(self).schema_ready == old(self).schema_ready,
    {
        self.search_ready = true;
    }

    /// Drops the store: the index goes with the table, and every record
    /// with both.
    pub fn drop_all(&mut self)
        ensures
            final(self).wf(),
            final(self).rows@.len() == 0,
            final(self).fts@.len() == 0,
            final(self).next_id == 1,
            !final(self).schema_ready,
            !final(self).search_ready,
    {
        self.rows = Vec::new();
        self.fts = Vec::new();
        self.next_id = 1;
        self.schema_ready = false;
        self.search_ready = false;
    }
}

} // verus!

use vstd::prelude::*;
use crate::connection::{DatabaseConnection, Param, ParamView, Statement, StatementView};
use crate::errors::VaultError;
use crate::message::{ClaudeMessage, ClaudeMessageView};
use crate::store::{record_matches_message, Vault};

verus! {

/// The statement that creates one record, every value bound.
pub fn insert_conversation() -> (r: &'static str)
    ensures
        r@ == insert_conversation_sql(),
{
    "INSERT INTO conversations (uuid, parent_uuid, session_id, user_type, message_type, message_role, message_content, project_path, cwd, git_branch, version, timestamp, is_favorite) VALUES (?, ?, ?, ?, ?, ?, ?, ?, ?, ?, ?, ?, ?)"
}

pub open spec fn insert_conversation_sql() -> Seq<char> {
    "INSERT INTO conversations (uuid, parent_uuid, session_id, user_type, message_type, message_role, message_content, project_path, cwd, git_branch, version, timestamp, is_favorite) VALUES (?, ?, ?, ?, ?, ?, ?, ?, ?, ?, ?, ?, ?)"@
}

/// The statement that asks whether a unique key is present.
pub fn check_uuid_exists_sql_text() -> (r: &'static str)
    ensures
        r@ == check_uuid_exists_sql(),
{
    "SELECT COUNT(*) as count FROM conversations WHERE uuid = ?"
}

pub open spec fn check_uuid_exists_sql() -> Seq<char> {
    "SELECT COUNT(*) as count FROM conversations WHERE uuid = ?"@
}

/// The statement that rewrites the record carrying a unique key, every value
/// bound.
pub fn update_conversation() -> (r: &'static str)
    ensures
        r@ == update_conversation_sql(),
{
    "UPDATE conversations SET parent_uuid = ?, session_id = ?, user_type = ?, message_type = ?, message_role = ?, message_content = ?, project_path = ?, cwd = ?, git_branch = ?, version = ?, timestamp = ?, updated_at = CURRENT_TIMESTAMP WHERE uuid = ?"
}

pub open spec fn update_conversation_sql() -> Seq<char> {
    "UPDATE conversations SET parent_uuid = ?, session_id = ?, user_type = ?, message_type = ?, message_role = ?, message_content = ?, project_path = ?, cwd = ?, git_branch = ?, version = ?, timestamp = ?, updated_at = CURRENT_TIMESTAMP WHERE uuid = ?"@
}

/// The statement that asks for the latest message timestamp of a project.
pub fn get_last_update_time_sql_text() -> (r: &'static str)
    ensures
        r@ == get_last_update_time_sql(),
{
    "SELECT MAX(timestamp) as last_update FROM conversations WHERE project_path = ?"
}

pub open spec fn get_last_update_time_sql() -> Seq<char> {
    "SELECT MAX(timestamp) as last_update FROM conversations WHERE project_path = ?"@
}

/// A text value or a null, bound as a parameter.
pub open spec fn opt_text_param(o: Option<Seq<char>>) -> ParamView {
    match o {
        None => ParamView::Null,
        Some(s) => ParamView::Text(s),
    }
}

fn opt_text_param_exec(o: &Option<String>) -> (r: Param)
    ensures
        r@ == opt_text_param(crate::codec::view_os(*o)),
{
    match o {
        None => Param::Null,
        Some(s) => Param::Text(s.clone()),
    }
}

/// The values bound to the insert statement, in column order.
pub open spec fn insert_params(m: ClaudeMessageView, project: Seq<char>) -> Seq<ParamView> {
    seq![
        ParamView::Text(m.uuid),
        opt_text_param(m.parent_uuid),
        ParamView::Text(m.session_id),
        ParamView::Text(m.user_type),
        ParamView::Text(m.message_type),
        opt_text_param(m.message.role),
        opt_text_param(m.message.content),
        ParamView::Text(project),
        ParamView::Text(m.cwd),
        opt_text_param(m.git_branch),
        ParamView::Text(m.version),
        ParamView::Text(m.timestamp.raw),
        ParamView::Bool(false),
    ]
}

/// The values bound to the update statement, in column order; the key comes
/// last, for the match clause.
pub open spec fn update_params(m: ClaudeMessageView, project: Seq<char>) -> Seq<ParamView> {
    seq![
        opt_text_param(m.parent_uuid),
        ParamView::Text(m.session_id),
        ParamView::Text(m.user_type),
        ParamView::Text(m.message_type),
        opt_text_param(m.message.role),
        opt_text_param(m.message.content),
        ParamView::Text(project),
        ParamView::Text(m.cwd),
        opt_text_param(m.git_branch),
        ParamView::Text(m.version),
        ParamView::Text(m.timestamp.raw),
        ParamView::Text(m.uuid),
    ]
}

/// The insert statement for one message under a project.
pub open spec fn insert_stmt_view(m: ClaudeMessageView, project: Seq<char>) -> StatementView {
    StatementView { sql: insert_conversation_sql(), params: insert_params(m, project) }
}

/// The update statement for one message under a project.
pub open spec fn update_stmt_view(m: ClaudeMessageView, project: Seq<char>) -> StatementView {
    StatementView { sql: update_conversation_sql(), params: update_params(m, project) }
}

fn build_insert_stmt(m: &ClaudeMessage, project_path: &str) -> (r: Statement)
    ensures
        r@.sql == insert_conversation_sql(),
        r@.params == insert_params(m@, project_path@),
{
    let mut params: Vec<Param> = Vec::new();
    params.push(Param::Text(m.uuid.clone()));
    params.push(opt_text_param_exec(&m.parent_uuid));
    params.push(Param::Text(m.session_id.clone()));
    params.push(Param::Text(m.user_type.clone()));
    params.push(Param::Text(m.message_type.clone()));
    params.push(opt_text_param_exec(&m.message.role));
    params.push(opt_text_param_exec(&m.message.content));
    params.push(Param::Text(String::from_str(project_path)));
    params.push(Param::Text(m.cwd.clone()));
    params.push(opt_text_param_exec(&m.git_branch));
    params.push(Param::Text(m.version.clone()));
    params.push(Param::Text(String::from_str(m.timestamp.raw_text())));
    params.push(Param::Bool(false));
    let r = Statement { sql: String::from_str(insert_conversation()), params };
    proof {
        assert(r@.params =~= insert_params(m@, project_path@));
    }
    r
}

fn build_update_stmt(m: &ClaudeMessage, project_path: &str) -> (r: Statement)
    ensures
        r@.sql == update_conversation_sql(),
        r@.params == update_params(m@, project_path@),
{
    let mut params: Vec<Param> = Vec::new();
    params.push(opt_text_param_exec(&m.parent_uuid));
    params.push(Param::Text(m.session_id.clone()));
    params.push(Param::Text(m.user_type.clone()));
    params.push(Param::Text(m.message_type.clone()));
    params.push(opt_text_param_exec(&m.message.role));
    params.push(opt_text_param_exec(&m.message.content));
    params.push(Param::Text(String::from_str(project_path)));
    params.push(Param::Text(m.cwd.clone()));
    params.push(opt_text_param_exec(&m.git_branch));
    params.push(Param::Text(m.version.clone()));
    params.push(Param::Text(String::from_str(m.timestamp.raw_text())));
    params.push(Param::Text(m.uuid.clone()));
    let r = Statement { sql: String::from_str(update_conversation()), params };
    proof {
        assert(r@.params =~= update_params(m@, project_path@));
    }
    r
}

/// The aggregate outcome of a bulk ingestion.
#[derive(Debug, Clone, PartialEq, Eq)]
pub struct ImportStats {
    pub inserted: usize,
    pub updated: usize,
    pub skipped: usize,
    pub errors: usize,
}

impl ImportStats {
    pub fn new() -> (r: Self)
        ensures
            r.inserted == 0,
            r.updated == 0,
            r.skipped == 0,
            r.errors == 0,
    {
        ImportStats { inserted: 0, updated: 0, skipped: 0, errors: 0 }
    }

    /// How many messages were brought to a decision, errors aside.
    pub fn total_processed(&self) -> (r: usize)
        requires
            self.inserted + self.updated + self.skipped <= usize::MAX,
        ensures
            r == self.inserted + self.updated + self.skipped,
    {
        self.inserted + self.updated + self.skipped
    }
}

/// What a deduplicating ingestion decided for one message.
#[derive(Debug, Clone, Copy, PartialEq, Eq)]
pub enum ImportAction {
    Inserted,
    Updated,
    Skipped,
}

/// Every unique key of the sequence occurs once.
pub open spec fn all_uuids_unique(ms: Seq<ClaudeMessage>) -> bool {
    forall|i: int, j: int|
        0 <= i < ms.len() && 0 <= j < ms.len() && (#[trigger] ms[i]@.uuid) == (
        #[trigger] ms[j]@.uuid) ==> i == j
}

/// No key of the sequence is in the store yet.
pub open spec fn none_present(v: Vault, ms: Seq<ClaudeMessage>) -> bool {
    forall|i: int| 0 <= i < ms.len() ==> !v.has_uuid((#[trigger] ms[i])@.uuid)
}

/// The deduplicating ingestion engine: decides insert against update by the
/// unique key, mirrors each decision to the transport as a value-bound
/// statement, and reports aggregate counts.
pub struct DataImporter<C> {
    pub connection: C,
}

impl<C: DatabaseConnection> DataImporter<C> {
    pub fn new(connection: C) -> (r: Self)
        ensures
            r.connection == connection,
    {
        DataImporter { connection }
    }

    /// Whether the store holds a record with this key; refused when the
    /// store is unreachable, before anything is read.
    pub fn check_uuid_exists(&self, vault: &Vault, uuid: &str) -> (r: Result<bool, VaultError>)
        requires
            vault.wf(),
        ensures
            self.connection.connected() ==> r == Ok::<bool, VaultError>(vault.has_uuid(uuid@)),
            !self.connection.connected() ==> r == Err::<bool, VaultError>(VaultError::NotConnected),
    {
        if !self.connection.is_connected() {
            return Err(VaultError::NotConnected);
        }
        match vault.find_uuid(uuid) {
            Some(_) => Ok(true),
            None => Ok(false),
        }
    }

    /// Creates a record for the message under the project: refused when the
    /// store is unreachable or the key is already present, and atomic
    /// against partial failure — on any error the store is exactly as it
    /// was.
    pub fn import_single_conversation(
        &mut self,
        vault: &mut Vault,
        message: &ClaudeMessage,
        project_path: &str,
    ) -> (r: Result<(), VaultError>)
        requires
            old(vault).wf(),
            old(vault).next_id < i64::MAX,
        ensures
            final(vault).wf(),
            final(self).connection.connected() == old(self).connection.connected(),
            !old(self).connection.connected() ==> r == Err::<(), VaultError>(
                VaultError::NotConnected,
            ) && *final(vault) == *old(vault) && final(self).connection.log() == old(self).connection.log(),
            old(self).connection.connected() && old(vault).has_uuid(message@.uuid) ==> r
                == Err::<(), VaultError>(VaultError::DuplicateKey) && *final(vault) == *old(vault)
                && final(self).connection.log() == old(self).connection.log(),
            old(self).connection.connected() && !old(vault).has_uuid(message@.uuid) && r.is_ok()
                ==> {
                &&& final(self).connection.log() == old(self).connection.log().push(
                    insert_stmt_view(message@, project_path@),
                )
                &&& final(vault).rows@.len() == old(vault).rows@.len() + 1
                &&& final(vault).rows@.subrange(0, old(vault).rows@.len() as int) == old(vault).rows@
                &&& record_matches_message(final(vault).rows@.last(), message@, project_path@)
                &&& final(vault).rows@.last().is_favorite == false
                &&& final(vault).rows@.last().id == old(vault).next_id
                &&& final(vault).next_id == old(vault).next_id + 1
            },
            old(self).connection.connected() && !old(vault).has_uuid(message@.uuid) && r.is_err()
                ==> *final(vault) == *old(vault) && final(self).connection.log() == old(self).connection.log(),
    {
        if !self.connection.is_connected() {
            return Err(VaultError::NotConnected);
        }
        match vault.find_uuid(message.uuid.as_str()) {
            Some(_) => Err(VaultError::DuplicateKey),
            None => {
                let stmt = build_insert_stmt(message, project_path);
                match self.connection.execute(&stmt) {
                    Err(e) => Err(e),
                    Ok(()) => {
                        let now = crate::clock::now_millis();
                        match vault.insert_record(message, project_path, now) {
                            Ok(_) => Ok(()),
                            Err(e) => {
                                proof {
                                    assert(false);
                                }
                                Err(e)
                            },
                        }
                    },
                }
            },
        }
    }

    /// Rewrites the record carrying the message's key — every field except
    /// the key, the creation stamp, and the favorite flag. A key not present
    /// leaves the table unchanged, as a match-nothing rewrite.
    pub fn update_conversation(
        &mut self,
        vault: &mut Vault,
        message: &ClaudeMessage,
        project_path: &str,
    ) -> (r: Result<(), VaultError>)
        requires
            old(vault).wf(),
        ensures
            final(vault).wf(),
            final(vault).next_id == old(vault).next_id,
            final(self).connection.connected() == old(self).connection.connected(),
            !old(self).connection.connected() ==> r == Err::<(), VaultError>(
                VaultError::NotConnected,
            ) && *final(vault) == *old(vault) && final(self).connection.log() == old(self).connection.log(),
            old(self).connection.connected() && r.is_ok() ==> {
                &&& final(self).connection.log() == old(self).connection.log().push(
                    update_stmt_view(message@, project_path@),
                )
                &&& !old(vault).has_uuid(message@.uuid) ==> final(vault).rows@ == old(vault).rows@
                &&& old(vault).has_uuid(message@.uuid) ==> {
                    let k = old(vault).uuid_idx(message@.uuid);
                    &&& final(vault).rows@.len() == old(vault).rows@.len()
                    &&& forall|t: int|
                        0 <= t < old(vault).rows@.len() && t != k ==> final(vault).rows@[t]
                            == old(vault).rows@[t]
                    &&& record_matches_message(final(vault).rows@[k], message@, project_path@)
                    &&& final(vault).rows@[k].id == old(vault).rows@[k].id
                    &&& final(vault).rows@[k].created_at == old(vault).rows@[k].created_at
                    &&& final(vault).rows@[k].is_favorite == old(vault).rows@[k].is_favorite
                }
            },
            old(self).connection.connected() && r.is_err() ==> *final(vault) == *old(vault) && final(self).connection.log() == old(self).connection.log(),
    {
        if !self.connection.is_connected() {
            return Err(VaultError::NotConnected);
        }
        let stmt = build_update_stmt(message, project_path);
        match self.connection.execute(&stmt) {
            Err(e) => Err(e),
            Ok(()) => {
                let now = crate::clock::now_millis();
                vault.update_record(message, project_path, now);
                Ok(())
            },
        }
    }

    /// The upsert: looks the key up in the store, inserts where it is
    /// absent, rewrites where it is present. Re-ingesting an already-stored
    /// message keeps exactly one record for it, and leaves the record's
    /// favorite flag exactly as it was.
    pub fn import_with_duplicate_check(
        &mut self,
        vault: &mut Vault,
        message: &ClaudeMessage,
        project_path: &str,
    ) -> (r: Result<ImportAction, VaultError>)
        requires
            old(vault).wf(),
            old(vault).next_id < i64::MAX,
        ensures
            final(vault).wf(),
            final(self).connection.connected() == old(self).connection.connected(),
            !old(self).connection.connected() ==> r == Err::<ImportAction, VaultError>(
                VaultError::NotConnected,
            ) && *final(vault) == *old(vault),
            old(self).connection.connected() && r.is_ok() ==> {
                &&& (r == Ok::<ImportAction, VaultError>(ImportAction::Updated) <==> old(vault).has_uuid(message@.uuid))
                &&& (r == Ok::<ImportAction, VaultError>(ImportAction::Inserted) <==> !old(vault).has_uuid(message@.uuid))
                &&& old(vault).has_uuid(message@.uuid) ==> {
                    let k = old(vault).uuid_idx(message@.uuid);
                    &&& final(vault).next_id == old(vault).next_id
                    &&& final(vault).rows@.len() == old(vault).rows@.len()
                    &&& final(vault).has_uuid(message@.uuid)
                    &&& final(vault).rows@[k].id == old(vault).rows@[k].id
                    &&& record_matches_message(final(vault).rows@[k], message@, project_path@)
                    &&& final(vault).rows@[k].is_favorite == old(vault).rows@[k].is_favorite
                    &&& final(vault).rows@[k].created_at == old(vault).rows@[k].created_at
                    &&& forall|t: int|
                        0 <= t < old(vault).rows@.len() && t != k ==> final(vault).rows@[t]
                            == old(vault).rows@[t]
                }
                &&& !old(vault).has_uuid(message@.uuid) ==> {
                    &&& final(vault).rows@.len() == old(vault).rows@.len() + 1
                    &&& final(vault).rows@.subrange(0, old(vault).rows@.len() as int) == old(vault).rows@
                    &&& record_matches_message(final(vault).rows@.last(), message@, project_path@)
                    &&& final(vault).rows@.last().is_favorite == false
                    &&& final(vault).next_id == old(vault).next_id + 1
                }
            },
            r.is_err() ==> *final(vault) == *old(vault),
            final(vault).next_id <= old(vault).next_id + 1,
    {
        if !self.connection.is_connected() {
            return Err(VaultError::NotConnected);
        }
        let exists = match vault.find_uuid(message.uuid.as_str()) {
            Some(_) => true,
            None => false,
        };
        if exists {
            match self.update_conversation(vault, message, project_path) {
                Ok(()) => Ok(ImportAction::Updated),
                Err(e) => Err(e),
            }
        } else {
            match self.import_single_conversation(vault, message, project_path) {
                Ok(()) => Ok(ImportAction::Inserted),
                Err(e) => Err(e),
            }
        }
    }

    /// Ingests a sequence of messages against one project, accumulating
    /// counts; a failure on one message does not abort the rest, and the
    /// records already committed for earlier messages stay in place, under
    /// their identities and keys. Against a store holding none of the
    /// keys, with all keys distinct and no failures, every message is
    /// inserted.
    pub fn bulk_import(
        &mut self,
        vault: &mut Vault,
        messages: &Vec<ClaudeMessage>,
        project_path: &str,
    ) -> (r: Result<ImportStats, VaultError>)
        requires
            old(vault).wf(),
            old(vault).next_id <= i64::MAX - messages@.len(),
        ensures
            r.is_ok(),
            final(vault).wf(),
            final(self).connection.connected() == old(self).connection.connected(),
            ({
                let stats = r.unwrap();
                &&& stats.inserted + stats.updated + stats.errors == messages@.len()
                &&& stats.skipped == 0
                &&& final(vault).rows@.len() == old(vault).rows@.len() + stats.inserted
                &&& (old(self).connection.connected() && all_uuids_unique(messages@)
                    && none_present(*old(vault), messages@) && stats.errors == 0 ==> {
                    &&& stats.inserted == messages@.len()
                    &&& stats.updated == 0
                    &&& final(vault).rows@.len() == old(vault).rows@.len() + messages@.len()
                })
            }),
            forall|t: int|
                0 <= t < old(vault).rows@.len() ==> (#[trigger] final(vault).rows@[t]).id == old(
                    vault,
                ).rows@[t].id && final(vault).rows@[t].uuid@ == old(vault).rows@[t].uuid@,
    {
        let mut stats = ImportStats::new();
        let mut i: usize = 0;
        let ghost h = old(self).connection.connected() && all_uuids_unique(messages@)
            && none_present(*old(vault), messages@);
        while i < messages.len()
            invariant
                i <= messages@.len(),
                vault.wf(),
                vault.next_id <= old(vault).next_id + stats.inserted,
                old(vault).next_id <= i64::MAX - messages@.len(),
                self.connection.connected() == old(self).connection.connected(),
                stats.inserted + stats.updated + stats.errors == i,
                stats.skipped == 0,
                stats.inserted <= i,
                vault.rows@.len() == old(vault).rows@.len() + stats.inserted,
                forall|t: int|
                    0 <= t < old(vault).rows@.len() ==> (#[trigger] vault.rows@[t]).id == old(
                        vault,
                    ).rows@[t].id && vault.rows@[t].uuid@ == old(vault).rows@[t].uuid@,
                h == (old(self).connection.connected() && all_uuids_unique(messages@)
                    && none_present(*old(vault), messages@)),
                h && stats.errors == 0 ==> {
                    &&& stats.updated == 0
                    &&& stats.inserted == i
                    &&& vault.rows@.len() == old(vault).rows@.len() + i
                    &&& forall|t: int|
                        i <= t < messages@.len() ==> !vault.has_uuid(
                            (#[trigger] messages@[t])@.uuid,
                        )
                },
            decreases messages@.len() - i,
        {
            let ghost vault_before = *vault;
            let step = self.import_with_duplicate_check(vault, &messages[i], project_path);
            proof {
                // Earlier rows keep their identity and key: an insert
                // appends, an update rewrites only the matched row and
                // keeps its identity and key, an error changes nothing.
                assert forall|t: int|
                    0 <= t < vault_before.rows@.len() implies (#[trigger] vault.rows@[t]).id
                    == vault_before.rows@[t].id && vault.rows@[t].uuid@
                    == vault_before.rows@[t].uuid@ by {
                    if step.is_ok() && vault_before.has_uuid(messages@[i as int]@.uuid) {
                        assert(vault_before.has_uuid(messages@[i as int]@.uuid));
                        let k = vault_before.uuid_idx(messages@[i as int]@.uuid);
                        assert(0 <= k < vault_before.rows@.len() && vault_before.rows@[k].uuid@
                            == messages@[i as int]@.uuid);
                        if t == k {
                            assert(record_matches_message(
                                vault.rows@[k],
                                messages@[i as int]@,
                                project_path@,
                            ));
                        } else {
                            assert(vault.rows@[t] == vault_before.rows@[t]);
                        }
                    } else if step.is_ok() {
                        assert(vault.rows@.subrange(0, vault_before.rows@.len() as int)[t]
                            == vault.rows@[t]);
                    }
                }
            }
            match step {
                Ok(ImportAction::Inserted) => {
                    stats.inserted = stats.inserted + 1;
                },
                Ok(ImportAction::Updated) => {
                    stats.updated = stats.updated + 1;
                },
                Ok(ImportAction::Skipped) => {
                    stats.skipped = stats.skipped + 1;
                },
                Err(_) => {
                    stats.errors = stats.errors + 1;
                },
            }
            proof {
                if h && stats.errors == 0 {
                    assert forall|t: int|
                        i + 1 <= t < messages@.len() implies !vault.has_uuid(
                            (#[trigger] messages@[t])@.uuid,
                        ) by {
                        assert(!vault_before.has_uuid(messages@[t]@.uuid));
                        if vault.has_uuid(messages@[t]@.uuid) {
                            let w = choose|w: int|
                                0 <= w < vault.rows@.len() && (#[trigger] vault.rows@[w]).uuid@
                                    == messages@[t]@.uuid;
                            if w < vault_before.rows@.len() {
                                assert(vault.rows@.subrange(
                                    0,
                                    vault_before.rows@.len() as int,
                                )[w] == vault.rows@[w]);
                                assert(vault_before.rows@[w].uuid@ == messages@[t]@.uuid);
                            } else {
                                assert(vault.rows@.last().uuid@ == messages@[i as int]@.uuid);
                                assert(messages@[t]@.uuid == messages@[i as int]@.uuid);
                            }
                        }
                    }
                }
            }
            i = i + 1;
        }
        Ok(stats)
    }

    /// The latest message timestamp among a project's records — `None`
    /// exactly where the project has none; refused when the store is
    /// unreachable.
    pub fn get_last_update_time(&self, vault: &Vault, project_path: &str) -> (r: Result<
        Option<i64>,
        VaultError,
    >)
        ensures
            !self.connection.connected() ==> r == Err::<Option<i64>, VaultError>(
                VaultError::NotConnected,
            ),
            self.connection.connected() ==> r.is_ok() && match r.unwrap() {
                None => forall|t: int|
                    0 <= t < vault.rows@.len() ==> (#[trigger] vault.rows@[t]).project_path@
                        != project_path@,
                Some(last) => {
                    &&& exists|t: int|
                        0 <= t < vault.rows@.len() && (#[trigger] vault.rows@[t]).project_path@
                            == project_path@ && vault.rows@[t].timestamp@.millis == last
                    &&& forall|t: int|
                        0 <= t < vault.rows@.len() && (#[trigger] vault.rows@[t]).project_path@
                            == project_path@ ==> vault.rows@[t].timestamp@.millis <= last
                },
            },
    {
        if !self.connection.is_connected() {
            return Err(VaultError::NotConnected);
        }
        Ok(vault.last_update_millis(project_path))
    }
}

} // verus!

use vstd::prelude::*;
use crate::codec::view_os;
use crate::errors::VaultError;
use crate::message::{clone_opt_string, ClaudeMessage, ClaudeMessageView, Timestamp};
use crate::text::str_eq;

verus! {

/// One persisted conversation record: the message fields flattened, plus the
/// project the record belongs to, its favorite flag, and the store-managed
/// bookkeeping stamps.
#[derive(Debug)]
pub struct ConversationRecord {
    pub id: i64,
    pub uuid: String,
    pub parent_uuid: Option<String>,
    pub session_id: String,
    pub user_type: String,
    pub message_type: String,
    pub message_role: Option<String>,
    pub message_content: Option<String>,
    pub project_path: String,
    pub cwd: String,
    pub git_branch: Option<String>,
    pub version: String,
    pub timestamp: Timestamp,
    pub is_favorite: bool,
    pub created_at: i64,
    pub updated_at: i64,
}

/// One row of the full-text index: the row identity it mirrors and the
/// indexed content.
#[derive(Debug)]
pub struct FtsEntry {
    pub rowid: i64,
    pub uuid: String,
    pub content: Option<String>,
}

/// Whether a record carries exactly the fields of a message, under the given
/// project.
pub open spec fn record_matches_message(
    rec: ConversationRecord,
    m: ClaudeMessageView,
    project: Seq<char>,
) -> bool {
    &&& rec.uuid@ == m.uuid
    &&& view_os(rec.parent_uuid) == m.parent_uuid
    &&& rec.session_id@ == m.session_id
    &&& rec.user_type@ == m.user_type
    &&& rec.message_type@ == m.message_type
    &&& view_os(rec.message_role) == m.message.role
    &&& view_os(rec.message_content) == m.message.content
    &&& rec.project_path@ == project
    &&& rec.cwd@ == m.cwd
    &&& view_os(rec.git_branch) == m.git_branch
    &&& rec.version@ == m.version
    &&& rec.timestamp@ == m.timestamp
}

/// The queryable store: the table of records, the full-text index kept in
/// step with it, the next row identity, and the schema lifecycle flags.
pub struct Vault {
    pub rows: Vec<ConversationRecord>,
    pub fts: Vec<FtsEntry>,
    pub next_id: i64,
    pub schema_ready: bool,
    pub search_ready: bool,
}

impl Vault {
    /// Every record's unique key occurs once: records with equal keys are
    /// the same record.
    pub open spec fn uuids_unique(self) -> bool {
        forall|i: int, j: int|
            0 <= i < self.rows@.len() && 0 <= j < self.rows@.len() && (
            #[trigger] self.rows@[i].uuid@) == (#[trigger] self.rows@[j].uuid@) ==> i == j
    }

    /// Row identities are distinct and below the next one to be handed out.
    pub open spec fn ids_ok(self) -> bool {
        &&& 1 <= self.next_id
        &&& forall|i: int|
            0 <= i < self.rows@.len() ==> 1 <= #[trigger] self.rows@[i].id < self.next_id
        &&& forall|i: int, j: int|
            0 <= i < self.rows@.len() && 0 <= j < self.rows@.len() && (
            #[trigger] self.rows@[i].id) == (#[trigger] self.rows@[j].id) ==> i == j
    }

    /// The full-text index mirrors the table row for row: equal population,
    /// same identities, same content.
    pub open spec fn index_matches(self) -> bool {
        &&& self.fts@.len() == self.rows@.len()
        &&& forall|i: int|
            0 <= i < self.rows@.len() ==> {
                &&& (#[trigger] self.fts@[i]).rowid == self.rows@[i].id
                &&& self.fts@[i].uuid@ == self.rows@[i].uuid@
                &&& view_os(self.fts@[i].content) == view_os(self.rows@[i].message_content)
            }
    }

    /// The store's invariant, established at creation and preserved by every
    /// operation.
    pub open spec fn wf(self) -> bool {
        &&& self.uuids_unique()
        &&& self.ids_ok()
        &&& self.index_matches()
    }

    /// Whether some record carries this unique key.
    pub open spec fn has_uuid(self, u: Seq<char>) -> bool {
        exists|i: int| 0 <= i < self.rows@.len() && (#[trigger] self.rows@[i]).uuid@ == u
    }

    /// The index of the record carrying this unique key.
    pub open spec fn uuid_idx(self, u: Seq<char>) -> int {
        choose|i: int| 0 <= i < self.rows@.len() && (#[trigger] self.rows@[i]).uuid@ == u
    }

    /// Whether some record carries this row identity.
    pub open spec fn has_id(self, id: i64) -> bool {
        exists|i: int| 0 <= i < self.rows@.len() && (#[trigger] self.rows@[i]).id == id
    }

    /// The index of the record carrying this row identity.
    pub open spec fn id_idx(self, id: i64) -> int {
        choose|i: int| 0 <= i < self.rows@.len() && (#[trigger] self.rows@[i]).id == id
    }

    /// An empty store.
    pub fn new() -> (r: Vault)
        ensures
            r.wf(),
            r.rows@.len() == 0,
            r.fts@.len() == 0,
            r.next_id == 1,
            !r.schema_ready,
            !r.search_ready,
    {
        Vault {
            rows: Vec::new(),
            fts: Vec::new(),
            next_id: 1,
            schema_ready: false,
            search_ready: false,
        }
    }

    /// The table population.
    pub fn count(&self) -> (r: usize)
        ensures
            r == self.rows@.len(),
    {
        self.rows.len()
    }

    /// The index population. Under the invariant it equals the table
    /// population after every committed mutation.
    pub fn index_count(&self) -> (r: usize)
        ensures
            r == self.fts@.len(),
    {
        self.fts.len()
    }

    /// Finds the record carrying this unique key.
    pub fn find_uuid(&self, uuid: &str) -> (r: Option<usize>)
        requires
            self.wf(),
        ensures
            r.is_some() <==> self.has_uuid(uuid@),
            r.is_some() ==> {
                &&& 0 <= r.unwrap() < self.rows@.len()
                &&& self.rows@[r.unwrap() as int].uuid@ == uuid@
                &&& r.unwrap() as int == self.uuid_idx(uuid@)
            },
    {
        let mut k: usize = 0;
        while k < self.rows.len()
            invariant
                self.wf(),
                k <= self.rows@.len(),
                forall|t: int| 0 <= t < k ==> (#[trigger] self.rows@[t]).uuid@ != uuid@,
            decreases self.rows@.len() - k,
        {
            if str_eq(self.rows[k].uuid.as_str(), uuid) {
                proof {
                    assert(self.rows@[k as int].uuid@ == uuid@);
                    assert(self.has_uuid(uuid@));
                    let w = self.uuid_idx(uuid@);
                    assert(0 <= w < self.rows@.len() && self.rows@[w].uuid@ == uuid@);
                    assert(w == k as int);
                }
                return Some(k);
            }
            k = k + 1;
        }
        None
    }

    /// Finds the record carrying this row identity.
    pub fn find_id(&self, id: i64) -> (r: Option<usize>)
        requires
            self.wf(),
        ensures
            r.is_some() <==> self.has_id(id),
            r.is_some() ==> {
                &&& 0 <= r.unwrap() < self.rows@.len()
                &&& self.rows@[r.unwrap() as int].id == id
                &&& r.unwrap() as int == self.id_idx(id)
            },
    {
        let mut k: usize = 0;
        while k < self.rows.len()
            invariant
                self.wf(),
                k <= self.rows@.len(),
                forall|t: int| 0 <= t < k ==> (#[trigger] self.rows@[t]).id != id,
            decreases self.rows@.len() - k,
        {
            if self.rows[k].id == id {
                proof {
                    assert(self.rows@[k as int].id == id);
                    assert(self.has_id(id));
                    let w = self.id_idx(id);
                    assert(0 <= w < self.rows@.len() && self.rows@[w].id == id);
                    assert(w == k as int);
                }
                return Some(k);
            }
            k = k + 1;
        }
        None
    }

    /// Inserts a new record for a message under a project. A key already
    /// present refuses the insert and leaves the store exactly as it was.
    pub fn insert_record(&mut self, m: &ClaudeMessage, project_path: &str, now: i64) -> (r: Result<
        i64,
        VaultError,
    >)
        requires
            old(self).wf(),
            old(self).next_id < i64::MAX,
        ensures
            final(self).wf(),
            final(self).schema_ready == old(self).schema_ready,
            final(self).search_ready == old(self).search_ready,
            old(self).has_uuid(m@.uuid) ==> {
                &&& r == Err::<i64, VaultError>(VaultError::DuplicateKey)
                &&& final(self).rows@ == old(self).rows@
                &&& final(self).fts@ == old(self).fts@
                &&& final(self).next_id == old(self).next_id
            },
            !old(self).has_uuid(m@.uuid) ==> {
                &&& r == Ok::<i64, VaultError>(old(self).next_id)
                &&& final(self).rows@.len() == old(self).rows@.len() + 1
                &&& final(self).rows@.subrange(0, old(self).rows@.len() as int) == old(self).rows@
                &&& record_matches_message(final(self).rows@.last(), m@, project_path@)
                &&& final(self).rows@.last().id == old(self).next_id
                &&& final(self).rows@.last().is_favorite == false
                &&& final(self).rows@.last().created_at == now
                &&& final(self).rows@.last().updated_at == now
                &&& final(self).next_id == old(self).next_id + 1
            },
    {
        match self.find_uuid(m.uuid.as_str()) {
            Some(_) => Err(VaultError::DuplicateKey),
            None => {
                let id = self.next_id;
                let rec = ConversationRecord {
                    id,
                    uuid: m.uuid.clone(),
                    parent_uuid: clone_opt_string(&m.parent_uuid),
                    session_id: m.session_id.clone(),
                    user_type: m.user_type.clone(),
                    message_type: m.message_type.clone(),
                    message_role: clone_opt_string(&m.message.role),
                    message_content: clone_opt_string(&m.message.content),
                    project_path: String::from_str(project_path),
                    cwd: m.cwd.clone(),
                    git_branch: clone_opt_string(&m.git_branch),
                    version: m.version.clone(),
                    timestamp: m.timestamp.duplicate(),
                    is_favorite: false,
                    created_at: now,
                    updated_at: now,
                };
                let entry = FtsEntry {
                    rowid: id,
                    uuid: m.uuid.clone(),
                    content: clone_opt_string(&m.message.content),
                };
                let ghost old_rows = self.rows@;
                self.rows.push(rec);
                self.fts.push(entry);
                self.next_id = id + 1;
                proof {
                    assert(self.rows@.subrange(0, old_rows.len() as int) =~= old_rows);
                    let n = self.rows@.len();
                    assert forall|i: int, j: int|
                        0 <= i < n && 0 <= j < n && self.rows@[i].uuid@ == self.rows@[j].uuid@
                            implies i == j by {
                        if i < n - 1 && j == n - 1 {
                            assert(old(self).rows@[i] == self.rows@[i]);
                            assert(!old(self).has_uuid(m@.uuid));
                        } else if j < n - 1 && i == n - 1 {
                            assert(old(self).rows@[j] == self.rows@[j]);
                            assert(!old(self).has_uuid(m@.uuid));
                        } else if i < n - 1 && j < n - 1 {
                            assert(old(self).rows@[i] == self.rows@[i]);
                            assert(old(self).rows@[j] == self.rows@[j]);
                        }
                    }
                }
                Ok(id)
            },
        }
    }

    /// Rewrites the record carrying the message's key: every field except
    /// the key itself, the row identity, the creation stamp, and the
    /// favorite flag. A key not present leaves the store unchanged.
    pub fn update_record(&mut self, m: &ClaudeMessage, project_path: &str, now: i64) -> (r: bool)
        requires
            old(self).wf(),
        ensures
            final(self).wf(),
            final(self).next_id == old(self).next_id,
            final(self).schema_ready == old(self).schema_ready,
            final(self).search_ready == old(self).search_ready,
            r == old(self).has_uuid(m@.uuid),
            !r ==> final(self).rows@ == old(self).rows@ && final(self).fts@ == old(self).fts@,
            r ==> {
                let k = old(self).uuid_idx(m@.uuid);
                &&& final(self).rows@.len() == old(self).rows@.len()
                &&& forall|t: int|
                    0 <= t < old(self).rows@.len() && t != k ==> final(self).rows@[t] == old(
                        self,
                    ).rows@[t]
                &&& record_matches_message(final(self).rows@[k], m@, project_path@)
                &&& final(self).rows@[k].id == old(self).rows@[k].id
                &&& final(self).rows@[k].created_at == old(self).rows@[k].created_at
                &&& final(self).rows@[k].is_favorite == old(self).rows@[k].is_favorite
                &&& final(self).rows@[k].updated_at == now
            },
    {
        match self.find_uuid(m.uuid.as_str()) {
            None => false,
            Some(k) => {
                let old_rec = &self.rows[k];
                let rec = ConversationRecord {
                    id: old_rec.id,
                    uuid: m.uuid.clone(),
                    parent_uuid: clone_opt_string(&m.parent_uuid),
                    session_id: m.session_id.clone(),
                    user_type: m.user_type.clone(),
                    message_type: m.message_type.clone(),
                    message_role: clone_opt_string(&m.message.role),
                    message_content: clone_opt_string(&m.message.content),
                    project_path: String::from_str(project_path),
                    cwd: m.cwd.clone(),
                    git_branch: clone_opt_string(&m.git_branch),
                    version: m.version.clone(),
                    timestamp: m.timestamp.duplicate(),
                    is_favorite: old_rec.is_favorite,
                    created_at: old_rec.created_at,
                    updated_at: now,
                };
                let entry = FtsEntry {
                    rowid: rec.id,
                    uuid: m.uuid.clone(),
                    content: clone_opt_string(&m.message.content),
                };
                self.rows.set(k, rec);
                self.fts.set(k, entry);
                proof {
                    let n = self.rows@.len();
                    assert forall|i: int, j: int|
                        0 <= i < n && 0 <= j < n && self.rows@[i].uuid@ == self.rows@[j].uuid@
                            implies i == j by {
                        assert(self.rows@[i].uuid@ == old(self).rows@[i].uuid@);
                        assert(self.rows@[j].uuid@ == old(self).rows@[j].uuid@);
                    }
                }
                true
            },
        }
    }

    /// Sets or clears the favorite flag of the record with this row
    /// identity; every other field, and every other record, is untouched.
    /// Marking an already-marked record succeeds and changes nothing.
    pub fn set_favorite(&mut self, id: i64, fav: bool) -> (r: bool)
        requires
            old(self).wf(),
        ensures
            final(self).wf(),
            final(self).next_id == old(self).next_id,
            final(self).schema_ready == old(self).schema_ready,
            final(self).search_ready == old(self).search_ready,
            r == old(self).has_id(id),
            !r ==> final(self).rows@ == old(self).rows@ && final(self).fts@ == old(self).fts@,
            r ==> {
                let k = old(self).id_idx(id);
                &&& final(self).fts@ == old(self).fts@
                &&& final(self).rows@ == old(self).rows@.update(
                    k,
                    ConversationRecord { is_favorite: fav, ..old(self).rows@[k] },
                )
            },
    {
        match self.find_id(id) {
            None => false,
            Some(k) => {
                let old_rec = self.rows.remove(k);
                let rec = ConversationRecord { is_favorite: fav, ..old_rec };
                self.rows.insert(k, rec);
                proof {
                    assert(self.rows@ =~= old(self).rows@.update(
                        k as int,
                        ConversationRecord { is_favorite: fav, ..old(self).rows@[k as int] },
                    ));
                }
                true
            },
        }
    }

    /// Removes the record with this row identity, and its index row with it.
    pub fn delete_record(&mut self, id: i64) -> (r: bool)
        requires
            old(self).wf(),
        ensures
            final(self).wf(),
            final(self).next_id == old(self).next_id,
            final(self).schema_ready == old(self).schema_ready,
            final(self).search_ready == old(self).search_ready,
            r == old(self).has_id(id),
            !r ==> final(self).rows@ == old(self).rows@ && final(self).fts@ == old(self).fts@,
            r ==> {
                let k = old(self).id_idx(id);
                &&& final(self).rows@ == old(self).rows@.remove(k)
                &&& final(self).fts@ == old(self).fts@.remove(k)
            },
    {
        match self.find_id(id) {
            None => false,
            Some(k) => {
                self.rows.remove(k);
                self.fts.remove(k);
                true
            },
        }
    }

    /// The latest message timestamp among the records of a project, if any.
    pub fn last_update_millis(&self, project_path: &str) -> (r: Option<i64>)
        ensures
            r.is_none() ==> forall|i: int|
                0 <= i < self.rows@.len() ==> (#[trigger] self.rows@[i]).project_path@
                    != project_path@,
            r.is_some() ==> {
                &&& exists|i: int|
                    0 <= i < self.rows@.len() && (#[trigger] self.rows@[i]).project_path@
                        == project_path@ && self.rows@[i].timestamp@.millis == r.unwrap()
                &&& forall|i: int|
                    0 <= i < self.rows@.len() && (#[trigger] self.rows@[i]).project_path@
                        == project_path@ ==> self.rows@[i].timestamp@.millis <= r.unwrap()
            },
    {
        let mut best: Option<i64> = None;
        let mut k: usize = 0;
        while k < self.rows.len()
            invariant
                k <= self.rows@.len(),
                best.is_none() ==> forall|t: int|
                    0 <= t < k ==> (#[trigger] self.rows@[t]).project_path@ != project_path@,
                best.is_some() ==> {
                    &&& exists|t: int|
                        0 <= t < k && (#[trigger] self.rows@[t]).project_path@ == project_path@
                            && self.rows@[t].timestamp@.millis == best.unwrap()
                    &&& forall|t: int|
                        0 <= t < k && (#[trigger] self.rows@[t]).project_path@ == project_path@
                            ==> self.rows@[t].timestamp@.millis <= best.unwrap()
                },
            decreases self.rows@.len() - k,
        {
            if str_eq(self.rows[k].project_path.as_str(), project_path) {
                let t = self.rows[k].timestamp.millis();
                match best {
                    None => {
                        best = Some(t);
                    },
                    Some(b) => {
                        if t > b {
                            best = Some(t);
                        }
                    },
                }
            }
            k = k + 1;
        }
        best
    }

    /// Index population equals table population: the full-text index is
    /// never out of step with the table, immediately after any committed
    /// mutation.
    pub proof fn lemma_index_population(self)
        requires
            self.wf(),
        ensures
            self.fts@.len() == self.rows@.len(),
    {
    }
}

} // verus!

//! Project memories: adding, changing, archiving and merging them.
//!
//! A change to a memory that a rendering may already show is logged as a mutation in the
//! same operation.

use vstd::prelude::*;

use crate::digest::{compute_normalized_memory_hash, normalized_hash};
use crate::json::{merge_archive_reason, with_archive_reason};
use crate::rows::{
    find_where, first_where, first_where_first, first_where_is, group_views, opt_owned, opt_text,
    opt_view, put_where, take_all, take_next, views, Row,
};
use crate::store::drops::commands_kept;
use crate::store::errors::{McStoreError, StoreError};
use crate::store::integrity::{
    archived_kept, logged_kept, memory_added, memory_rewritten, memory_seen, well_formed,
};
use crate::store::laws::memories::{
    batch_is_archived, batch_is_logged, every_memory_of_a_batch_is_archived, names_the_archived,
};
use crate::store::records::{
    ShadowMemoryMutationRow, ShadowMemoryMutationRowModel, StoredMemoryFull,
    StoredMemoryFullModel, StoredMemoryMutation, StoredMemoryMutationModel,
};
use crate::store::{McStore, McStoreModel};
use crate::text::{same_text, trim, trimmed};

verus! {

// --- finding memories -----------------------------------------------------------------

/// Accepts the memory with a given number.
pub open spec fn with_id(id: i64) -> spec_fn(StoredMemoryFullModel) -> bool {
    |m: StoredMemoryFullModel| m.id == id
}

/// The memory with a given number.
pub open spec fn memory_by_id(rows: Seq<StoredMemoryFullModel>, id: i64) -> Option<
    StoredMemoryFullModel,
> {
    find_where(rows, with_id(id))
}

/// Accepts the memory of a project and category whose content has a given hash.
pub open spec fn saying(project: Seq<char>, category: Seq<char>, hash: Seq<char>) -> spec_fn(
    StoredMemoryFullModel,
) -> bool {
    |m: StoredMemoryFullModel|
        m.project_path == project && m.category == category && m.normalized_hash == hash
}

/// The statuses of memories that are rendered.
pub open spec fn live_status(status: Seq<char>) -> bool {
    status == "active"@ || status == "permanent"@
}

/// Whether a project may change a memory: it owns it, nothing replaced it, and it is live.
pub open spec fn changeable(m: StoredMemoryFullModel, project: Seq<char>) -> bool {
    m.project_path == project && m.superseded_by_memory_id is None && live_status(m.status)
}

/// Whether a project may archive a memory; one that is archived already is accepted.
pub open spec fn archivable(m: StoredMemoryFullModel, project: Seq<char>) -> bool {
    m.project_path == project && m.superseded_by_memory_id is None && (live_status(m.status)
        || m.status == "archived"@)
}

/// Tests a status for being rendered.
pub fn is_live_status(status: &str) -> (r: bool)
    ensures
        r == live_status(status@),
{
    same_text(status, "active") || same_text(status, "permanent")
}

pub(crate) fn is_changeable(m: &StoredMemoryFull, project: &str) -> (r: bool)
    ensures
        r == changeable(m@, project@),
{
    same_text(&m.project_path, project) && m.superseded_by_memory_id.is_none() && is_live_status(
        &m.status,
    )
}

fn is_archivable(m: &StoredMemoryFull, project: &str) -> (r: bool)
    ensures
        r == archivable(m@, project@),
{
    same_text(&m.project_path, project) && m.superseded_by_memory_id.is_none() && (is_live_status(
        &m.status,
    ) || same_text(&m.status, "archived"))
}

pub(crate) fn find_memory(rows: &Vec<StoredMemoryFull>, id: i64) -> (r: Option<usize>)
    ensures
        match r {
            Some(i) => i < rows.len() && first_where(views(rows@), with_id(id)) == Some(i as int)
                && memory_by_id(views(rows@), id) == Some(rows@[i as int]@) && rows@[i as int].id
                == id,
            None => first_where(views(rows@), with_id(id)) is None && memory_by_id(
                views(rows@),
                id,
            ) is None,
        },
{
    let ghost p = with_id(id);
    let mut i: usize = 0;
    while i < rows.len()
        invariant
            i <= rows.len(),
            p == with_id(id),
            forall|j: int| 0 <= j < i ==> !p(#[trigger] views(rows@)[j]),
        decreases rows.len() - i,
    {
        assert(views(rows@)[i as int] == rows@[i as int]@);
        if rows[i].id == id {
            proof {
                first_where_is(views(rows@), p, i as int);
            }
            return Some(i);
        }
        i += 1;
    }
    proof {
        first_where_first(views(rows@), p);
    }
    None
}

pub(crate) fn find_saying(rows: &Vec<StoredMemoryFull>, project: &str, category: &str, hash: &str) -> (r:
    Option<usize>)
    ensures
        match r {
            Some(i) => i < rows.len() && first_where(
                views(rows@),
                saying(project@, category@, hash@),
            ) == Some(i as int) && find_where(views(rows@), saying(project@, category@, hash@))
                == Some(rows@[i as int]@),
            None => first_where(views(rows@), saying(project@, category@, hash@)) is None
                && find_where(views(rows@), saying(project@, category@, hash@)) is None,
        },
{
    let ghost p = saying(project@, category@, hash@);
    let mut i: usize = 0;
    while i < rows.len()
        invariant
            i <= rows.len(),
            p == saying(project@, category@, hash@),
            forall|j: int| 0 <= j < i ==> !p(#[trigger] views(rows@)[j]),
        decreases rows.len() - i,
    {
        assert(views(rows@)[i as int] == rows@[i as int]@);
        if same_text(&rows[i].project_path, project) && same_text(&rows[i].category, category)
            && same_text(&rows[i].normalized_hash, hash) {
            proof {
                first_where_is(views(rows@), p, i as int);
            }
            return Some(i);
        }
        i += 1;
    }
    proof {
        first_where_first(views(rows@), p);
    }
    None
}

// --- logging --------------------------------------------------------------------------

/// A log row.
pub open spec fn log_row(
    id: i64,
    project: Seq<char>,
    kind: Seq<char>,
    target: i64,
    superseded_by: Option<i64>,
    category: Option<Seq<char>>,
    content: Option<Seq<char>>,
    at_ms: i64,
) -> ShadowMemoryMutationRowModel {
    ShadowMemoryMutationRowModel {
        project_path: project,
        mutation: StoredMemoryMutationModel {
            id,
            mutation_type: kind,
            target_memory_id: target,
            superseded_by_id: superseded_by,
            category,
            new_content: content,
            queued_at: at_ms,
        },
    }
}

impl McStore {
    pub(crate) fn log_mutation(
        &mut self,
        project: &str,
        kind: &str,
        target: i64,
        superseded_by: Option<i64>,
        category: Option<&str>,
        content: Option<&str>,
        at_ms: i64,
    )
        requires
            old(self)@.last_mutation_id < i64::MAX,
        ensures
            final(self)@ == (McStoreModel {
                mutations: old(self)@.mutations.push(
                    log_row(
                        (old(self)@.last_mutation_id + 1) as i64,
                        project@,
                        kind@,
                        target,
                        superseded_by,
                        opt_text(category),
                        opt_text(content),
                        at_ms,
                    ),
                ),
                last_mutation_id: (old(self)@.last_mutation_id + 1) as i64,
                ..old(self)@
            }),
            well_formed(old(self)@) ==> well_formed(final(self)@),
    {
        broadcast use group_views;

        proof {
            if well_formed(old(self)@) {
                logged_kept(
                    old(self)@,
                    log_row(
                        (old(self)@.last_mutation_id + 1) as i64,
                        project@,
                        kind@,
                        target,
                        superseded_by,
                        opt_text(category),
                        opt_text(content),
                        at_ms,
                    ),
                );
            }
        }
        let id: i64 = self.last_mutation_id + 1;
        self.mutations.push(
            ShadowMemoryMutationRow {
                project_path: project.to_owned(),
                mutation: StoredMemoryMutation {
                    id,
                    mutation_type: kind.to_owned(),
                    target_memory_id: target,
                    superseded_by_id: superseded_by,
                    category: opt_owned(category),
                    new_content: opt_owned(content),
                    queued_at: at_ms,
                },
            },
        );
        self.last_mutation_id = id;
    }
}

// --- inserting ------------------------------------------------------------------------

/// What a new memory is made from.
#[derive(Debug, Clone, Copy)]
pub struct InsertMemoryInput<'a> {
    pub project_path: &'a str,
    pub category: &'a str,
    pub content: &'a str,
    pub source_session_id: Option<&'a str>,
    pub source_type: Option<&'a str>,
    pub importance: Option<i32>,
    pub expires_at: Option<i64>,
    pub metadata_json: Option<&'a str>,
    pub now_ms: i64,
}

/// A memory as first stored.
pub open spec fn new_memory(
    id: i64,
    project: Seq<char>,
    category: Seq<char>,
    content: Seq<char>,
    hash: Seq<char>,
    source_type: Seq<char>,
    at_ms: i64,
) -> StoredMemoryFullModel {
    StoredMemoryFullModel {
        id,
        project_path: project,
        category,
        content,
        normalized_hash: hash,
        importance: None,
        scope: "project"@,
        shareable: 0,
        source_session_id: None,
        source_type: Some(source_type),
        seen_count: 1,
        retrieval_count: 0,
        first_seen_at: at_ms,
        created_at: at_ms,
        updated_at: at_ms,
        last_seen_at: at_ms,
        last_retrieved_at: None,
        status: "active"@,
        expires_at: None,
        verification_status: "unverified"@,
        verified_at: None,
        classified_at: None,
        superseded_by_memory_id: None,
        merged_from: None,
        metadata_json: None,
    }
}

pub(crate) fn make_memory(
    id: i64,
    project: &str,
    category: &str,
    content: &str,
    hash: String,
    source_type: &str,
    at_ms: i64,
) -> (r: StoredMemoryFull)
    ensures
        r@ == new_memory(id, project@, category@, content@, hash@, source_type@, at_ms),
{
    StoredMemoryFull {
        id,
        project_path: project.to_owned(),
        category: category.to_owned(),
        content: content.to_owned(),
        normalized_hash: hash,
        importance: None,
        scope: "project".to_owned(),
        shareable: 0,
        source_session_id: None,
        source_type: Some(source_type.to_owned()),
        seen_count: 1,
        retrieval_count: 0,
        first_seen_at: at_ms,
        created_at: at_ms,
        updated_at: at_ms,
        last_seen_at: at_ms,
        last_retrieved_at: None,
        status: "active".to_owned(),
        expires_at: None,
        verification_status: "unverified".to_owned(),
        verified_at: None,
        classified_at: None,
        superseded_by_memory_id: None,
        merged_from: None,
        metadata_json: None,
    }
}

/// The memory that an insertion adds.
pub open spec fn inserted_memory(input: InsertMemoryInput, id: i64) -> StoredMemoryFullModel {
    StoredMemoryFullModel {
        importance: input.importance,
        source_session_id: opt_text(input.source_session_id),
        expires_at: input.expires_at,
        metadata_json: opt_text(input.metadata_json),
        ..new_memory(
            id,
            input.project_path@,
            input.category@,
            input.content@,
            normalized_hash(input.content@),
            match input.source_type {
                Some(t) => t@,
                None => "historian"@,
            },
            input.now_ms,
        )
    }
}

impl McStore {
    /// Reads a memory.
    pub fn get_memory_full(&self, id: i64) -> (r: Option<StoredMemoryFull>)
        ensures
            opt_view(r) == memory_by_id(self@.memories, id),
    {
        match find_memory(&self.memories, id) {
            Some(i) => Some(self.memories[i].dup()),
            None => None,
        }
    }

    /// Adds a memory and returns its number. Where the project already has a memory of the
    /// category that says the same, that one is seen once more instead, and nothing is
    /// logged.
    pub fn insert_memory(&mut self, input: InsertMemoryInput<'_>) -> (r: Result<i64, McStoreError>)
        ensures
            ({
                let p = saying(
                    input.project_path@,
                    input.category@,
                    normalized_hash(input.content@),
                );
                let s = old(self)@;
                match (first_where(s.memories, p), r) {
                    (Some(i), Ok(id)) => {
                        let m = s.memories[i];
                        &&& id == m.id
                        &&& m.seen_count < i64::MAX
                        &&& final(self)@ == (McStoreModel {
                            memories: s.memories.update(
                                i,
                                StoredMemoryFullModel {
                                    seen_count: (m.seen_count + 1) as i64,
                                    last_seen_at: input.now_ms,
                                    updated_at: input.now_ms,
                                    ..m
                                },
                            ),
                            ..s
                        })
                    },
                    (Some(i), Err(e)) => {
                        &&& s.memories[i].seen_count == i64::MAX
                        &&& e == McStoreError::Store(StoreError::Exhausted)
                        &&& final(self)@ == s
                    },
                    (None, Ok(id)) => {
                        &&& s.last_memory_id < i64::MAX
                        &&& id == s.last_memory_id + 1
                        &&& final(self)@ == (McStoreModel {
                            memories: s.memories.push(inserted_memory(input, id)),
                            last_memory_id: id,
                            ..s
                        })
                    },
                    (None, Err(e)) => {
                        &&& s.last_memory_id == i64::MAX
                        &&& e == McStoreError::Store(StoreError::Exhausted)
                        &&& final(self)@ == s
                    },
                }
            }),
            well_formed(old(self)@) ==> well_formed(final(self)@),
            commands_kept(old(self)@, final(self)@),
    {
        broadcast use group_views;

        let hash = compute_normalized_memory_hash(input.content);
        match find_saying(&self.memories, input.project_path, input.category, &hash) {
            Some(i) => {
                let mut m = self.memories[i].dup();
                if m.seen_count == i64::MAX {
                    return Err(McStoreError::Store(StoreError::Exhausted));
                }
                m.seen_count = m.seen_count + 1;
                m.last_seen_at = input.now_ms;
                m.updated_at = input.now_ms;
                let id: i64 = m.id;
                proof {
                    if well_formed(old(self)@) {
                        memory_seen(old(self)@, i as int, m@);
                    }
                }
                self.memories.set(i, m);
                Ok(id)
            },
            None => {
                if self.last_memory_id == i64::MAX {
                    return Err(McStoreError::Store(StoreError::Exhausted));
                }
                let id: i64 = self.last_memory_id + 1;
                let source_type = match input.source_type {
                    Some(t) => t,
                    None => "historian",
                };
                let mut m = make_memory(
                    id,
                    input.project_path,
                    input.category,
                    input.content,
                    hash,
                    source_type,
                    input.now_ms,
                );
                m.importance = input.importance;
                m.source_session_id = opt_owned(input.source_session_id);
                m.expires_at = input.expires_at;
                m.metadata_json = opt_owned(input.metadata_json);
                assert(m@ == inserted_memory(input, id));
                proof {
                    if well_formed(old(self)@) {
                        memory_added(old(self)@, m@);
                    }
                }
                self.memories.push(m);
                self.last_memory_id = id;
                Ok(id)
            },
        }
    }
}

// --- changing content -----------------------------------------------------------------

/// The number of another memory that already says `content`, if there is one.
pub open spec fn clash(
    rows: Seq<StoredMemoryFullModel>,
    m: StoredMemoryFullModel,
    project: Seq<char>,
    content: Seq<char>,
) -> Option<i64> {
    match find_where(rows, saying(project, m.category, normalized_hash(content))) {
        Some(other) if other.id != m.id => Some(other.id),
        _ => None,
    }
}

/// A memory with new content.
pub open spec fn rewritten(m: StoredMemoryFullModel, content: Seq<char>, at_ms: i64) ->
    StoredMemoryFullModel {
    StoredMemoryFullModel {
        content,
        normalized_hash: normalized_hash(content),
        updated_at: at_ms,
        shareable: 0,
        classified_at: None,
        ..m
    }
}

impl McStore {
    /// Replaces the content of a memory and logs the update. `None` means that the project
    /// may not change such a memory.
    pub fn update_memory_content(
        &mut self,
        project_path: &str,
        id: i64,
        content: &str,
        now_ms: i64,
    ) -> (r: Result<Option<StoredMemoryFull>, McStoreError>)
        ensures
            ({
                let s = old(self)@;
                match memory_by_id(s.memories, id) {
                    Some(m) if changeable(m, project_path@) => {
                        let other = clash(s.memories, m, project_path@, content@);
                        let new = rewritten(m, content@, now_ms);
                        match r {
                            Ok(out) => {
                                &&& other is None
                                &&& s.last_mutation_id < i64::MAX
                                &&& opt_view(out) == Some(new)
                                &&& final(self)@ == (McStoreModel {
                                    memories: put_where(s.memories, with_id(id), new),
                                    mutations: s.mutations.push(
                                        log_row(
                                            (s.last_mutation_id + 1) as i64,
                                            m.project_path,
                                            "update"@,
                                            id,
                                            None,
                                            Some(m.category),
                                            Some(content@),
                                            now_ms,
                                        ),
                                    ),
                                    last_mutation_id: (s.last_mutation_id + 1) as i64,
                                    ..s
                                })
                            },
                            Err(e) => {
                                &&& final(self)@ == s
                                &&& match other {
                                    Some(d) => e == (McStoreError::MemoryDuplicateContent { id: d }),
                                    None => s.last_mutation_id == i64::MAX && e
                                        == McStoreError::Store(StoreError::Exhausted),
                                }
                            },
                        }
                    },
                    _ => {
                        &&& r matches Ok(None)
                        &&& final(self)@ == s
                    },
                }
            }),
            well_formed(old(self)@) ==> well_formed(final(self)@),
            commands_kept(old(self)@, final(self)@),
    {
        broadcast use group_views;

        let at: usize = match find_memory(&self.memories, id) {
            Some(i) => i,
            None => {
                return Ok(None);
            },
        };
        let mut m = self.memories[at].dup();
        if !is_changeable(&m, project_path) {
            return Ok(None);
        }
        let hash = compute_normalized_memory_hash(content);
        if let Some(k) = find_saying(&self.memories, project_path, &m.category, &hash) {
            if self.memories[k].id != id {
                return Err(McStoreError::MemoryDuplicateContent { id: self.memories[k].id });
            }
        }
        if self.last_mutation_id == i64::MAX {
            return Err(McStoreError::Store(StoreError::Exhausted));
        }
        let ghost before = m@;
        let category = m.category.clone();
        m.content = content.to_owned();
        m.normalized_hash = hash;
        m.updated_at = now_ms;
        m.shareable = 0;
        m.classified_at = None;
        assert(m@ == rewritten(before, content@, now_ms));
        let out = m.dup();
        proof {
            if well_formed(old(self)@) {
                memory_rewritten(old(self)@, before, content@, now_ms);
            }
        }
        self.memories.set(at, m);
        self.log_mutation(project_path, "update", id, None, Some(&category), Some(content), now_ms);
        Ok(Some(out))
    }
}

// --- archiving ------------------------------------------------------------------------

/// The reason as recorded: trimmed, and none where it is blank.
pub open spec fn given_reason(reason: Option<Seq<char>>) -> Option<Seq<char>> {
    match reason {
        Some(r) if trimmed(r).len() > 0 => Some(trimmed(r)),
        _ => None,
    }
}

/// Whether every number names a memory that the project may archive.
pub open spec fn all_archivable(
    rows: Seq<StoredMemoryFullModel>,
    ids: Seq<i64>,
    project: Seq<char>,
) -> bool {
    forall|i: int|
        0 <= i < ids.len() ==> (memory_by_id(rows, #[trigger] ids[i]) matches Some(m) && archivable(
            m,
            project,
        ))
}

/// The numbers whose memory is not archived yet, in request order.
pub open spec fn to_archive(rows: Seq<StoredMemoryFullModel>, ids: Seq<i64>) -> Seq<i64>
    decreases ids.len(),
{
    if ids.len() == 0 {
        Seq::empty()
    } else {
        let rest = to_archive(rows, ids.drop_last());
        match memory_by_id(rows, ids.last()) {
            Some(m) if m.status != "archived"@ => rest.push(ids.last()),
            _ => rest,
        }
    }
}

/// A memory as archived.
pub open spec fn archived_memory(
    m: StoredMemoryFullModel,
    reason: Option<Seq<char>>,
    at_ms: i64,
) -> StoredMemoryFullModel {
    StoredMemoryFullModel {
        status: "archived"@,
        updated_at: at_ms,
        metadata_json: match given_reason(reason) {
            Some(r) => Some(with_archive_reason(m.metadata_json, r)),
            None => m.metadata_json,
        },
        ..m
    }
}

/// The memories after those numbered `ids` were archived.
pub open spec fn after_archiving(
    rows: Seq<StoredMemoryFullModel>,
    ids: Seq<i64>,
    reason: Option<Seq<char>>,
    at_ms: i64,
) -> Seq<StoredMemoryFullModel>
    decreases ids.len(),
{
    if ids.len() == 0 {
        rows
    } else {
        put_where(
            after_archiving(rows, ids.drop_last(), reason, at_ms),
            with_id(ids.last()),
            archived_memory(memory_by_id(rows, ids.last())->0, reason, at_ms),
        )
    }
}

/// The log rows for archiving `ids`, numbered behind `last`.
pub open spec fn archive_log(
    project: Seq<char>,
    ids: Seq<i64>,
    last: i64,
    at_ms: i64,
) -> Seq<ShadowMemoryMutationRowModel> {
    Seq::new(
        ids.len(),
        |k: int|
            log_row((last + 1 + k) as i64, project, "archive"@, ids[k], None, None, None, at_ms),
    )
}

pub(crate) fn put_memory(rows: &mut Vec<StoredMemoryFull>, m: StoredMemoryFull)
    ensures
        views(final(rows)@) == put_where(views(old(rows)@), with_id(m.id), m@),
{
    broadcast use group_views;

    match find_memory(rows, m.id) {
        Some(i) => {
            rows.set(i, m);
        },
        None => {
            rows.push(m);
        },
    }
}

/// The models of the memories that `ids` number.
pub open spec fn memories_of(rows: Seq<StoredMemoryFullModel>, ids: Seq<i64>) -> Seq<
    StoredMemoryFullModel,
> {
    ids.map_values(|id: i64| memory_by_id(rows, id)->0)
}

proof fn memories_of_push(rows: Seq<StoredMemoryFullModel>, ids: Seq<i64>, id: i64)
    ensures
        memories_of(rows, ids.push(id)) == memories_of(rows, ids).push(memory_by_id(rows, id)->0),
{
    assert(memories_of(rows, ids.push(id)) =~= memories_of(rows, ids).push(
        memory_by_id(rows, id)->0,
    ));
}

impl McStore {
    /// Archives a batch of memories and logs each; those archived already stay as they are.
    /// `None` means that the project may not archive one of them, and nothing is changed.
    pub fn archive_memories(
        &mut self,
        project_path: &str,
        ids: &[i64],
        reason: Option<&str>,
        now_ms: i64,
    ) -> (r: Result<Option<Vec<i64>>, McStoreError>)
        ensures
            ({
                let s = old(self)@;
                let pending = to_archive(s.memories, ids@);
                match r {
                    Ok(None) => {
                        &&& !all_archivable(s.memories, ids@, project_path@)
                        &&& final(self)@ == s
                    },
                    Ok(Some(done)) => {
                        &&& all_archivable(s.memories, ids@, project_path@)
                        &&& done@ == pending
                        &&& s.last_mutation_id + pending.len() <= i64::MAX
                        &&& final(self)@ == (McStoreModel {
                            memories: after_archiving(s.memories, pending, opt_text(reason), now_ms),
                            mutations: s.mutations + archive_log(
                                project_path@,
                                pending,
                                s.last_mutation_id,
                                now_ms,
                            ),
                            last_mutation_id: (s.last_mutation_id + pending.len()) as i64,
                            ..s
                        })
                    },
                    Err(e) => {
                        &&& all_archivable(s.memories, ids@, project_path@)
                        &&& s.last_mutation_id + pending.len() > i64::MAX
                        &&& e == McStoreError::Store(StoreError::Exhausted)
                        &&& final(self)@ == s
                    },
                }
            }),
            r matches Ok(Some(done)) ==> {
                &&& names_the_archived(old(self)@.memories, ids@, done@)
                &&& batch_is_archived(
                    old(self)@.memories,
                    final(self)@.memories,
                    ids@,
                    now_ms,
                )
                &&& old(self)@.mutations.is_prefix_of(final(self)@.mutations)
                &&& batch_is_logged(
                    old(self)@.memories,
                    final(self)@.mutations.skip(old(self)@.mutations.len() as int),
                    project_path@,
                    ids@,
                    old(self)@.last_mutation_id,
                    now_ms,
                )
            },
            well_formed(old(self)@) ==> well_formed(final(self)@),
            commands_kept(old(self)@, final(self)@),
    {
        broadcast use group_views;

        let ghost s = self@;
        let mut pending: Vec<i64> = Vec::new();
        let mut rows: Vec<StoredMemoryFull> = Vec::new();
        let mut i: usize = 0;
        while i < ids.len()
            invariant
                i <= ids.len(),
                self@ == s,
                forall|j: int|
                    0 <= j < i ==> (memory_by_id(s.memories, #[trigger] ids@[j]) matches Some(m)
                        && archivable(m, project_path@)),
                pending@ == to_archive(s.memories, ids@.take(i as int)),
                views(rows@) == memories_of(s.memories, pending@),
                rows@.len() == pending@.len(),
                forall|j: int| 0 <= j < pending@.len() ==> (#[trigger] rows@[j]).id == pending@[j],
            decreases ids.len() - i,
        {
            proof {
                take_next(ids@, i as int);
            }
            match find_memory(&self.memories, ids[i]) {
                Some(at) => {
                    if !is_archivable(&self.memories[at], project_path) {
                        assert(!all_archivable(s.memories, ids@, project_path@)) by {
                            assert(memory_by_id(s.memories, ids@[i as int]) is Some);
                        }
                        return Ok(None);
                    }
                    if !same_text(&self.memories[at].status, "archived") {
                        proof {
                            memories_of_push(s.memories, pending@, ids@[i as int]);
                        }
                        let row = self.memories[at].dup();
                        assert(row.id == ids@[i as int]);
                        let ghost old_rows = rows@;
                        let ghost old_pending = pending@;
                        pending.push(ids[i]);
                        rows.push(row);
                        assert forall|j: int| 0 <= j < pending@.len() implies (
                        #[trigger] rows@[j]).id == pending@[j] by {
                            if j < old_pending.len() {
                                assert(old_rows[j] == rows@[j]);
                            }
                        }
                    }
                },
                None => {
                    assert(memory_by_id(s.memories, ids@[i as int]) is None);
                    return Ok(None);
                },
            }
            i += 1;
        }
        proof {
            take_all(ids@);
        }
        if (pending.len() as i128) + (self.last_mutation_id as i128) > i64::MAX as i128 {
            return Err(McStoreError::Store(StoreError::Exhausted));
        }
        let given = match reason {
            Some(r) => {
                let t = trim(r);
                if t.is_empty() {
                    None
                } else {
                    Some(t)
                }
            },
            None => None,
        };
        assert(opt_text(given) == given_reason(opt_text(reason)));
        let ghost log = archive_log(project_path@, pending@, s.last_mutation_id, now_ms);
        let mut k: usize = 0;
        assert(s.mutations + log.take(0) =~= s.mutations);
        assert(pending@.take(0) =~= Seq::empty());
        while k < pending.len()
            invariant
                k <= pending.len(),
                pending@.len() == rows@.len(),
                views(rows@) == memories_of(s.memories, pending@),
                forall|j: int| 0 <= j < pending@.len() ==> (#[trigger] rows@[j]).id == pending@[j],
                opt_text(given) == given_reason(opt_text(reason)),
                pending@.len() + s.last_mutation_id <= i64::MAX,
                log == archive_log(project_path@, pending@, s.last_mutation_id, now_ms),
                self@ == (McStoreModel {
                    memories: after_archiving(
                        s.memories,
                        pending@.take(k as int),
                        opt_text(reason),
                        now_ms,
                    ),
                    mutations: s.mutations + log.take(k as int),
                    last_mutation_id: (s.last_mutation_id + k) as i64,
                    ..s
                }),
            decreases pending.len() - k,
        {
            proof {
                take_next(pending@, k as int);
                take_next(log, k as int);
                assert(s.mutations + log.take(k + 1) =~= (s.mutations + log.take(k as int)).push(
                    log[k as int],
                ));
                assert(views(rows@)[k as int] == rows@[k as int]@);
                assert(memories_of(s.memories, pending@)[k as int] == memory_by_id(
                    s.memories,
                    pending@[k as int],
                )->0);
            }
            let mut m = rows[k].dup();
            let ghost before = m@;
            if let Some(r) = given {
                let merged = match &m.metadata_json {
                    Some(text) => merge_archive_reason(Some(text.as_str()), r),
                    None => merge_archive_reason(None, r),
                };
                m.metadata_json = Some(merged);
            }
            m.status = "archived".to_owned();
            m.updated_at = now_ms;
            assert(m@ == archived_memory(before, opt_text(reason), now_ms));
            put_memory(&mut self.memories, m);
            self.log_mutation(project_path, "archive", pending[k], None, None, None, now_ms);
            k += 1;
        }
        proof {
            take_all(pending@);
            take_all(log);
            if well_formed(s) {
                to_archive_are_there(s.memories, ids@);
                archived_kept(s, project_path@, pending@, opt_text(reason), now_ms);
            }
            every_memory_of_a_batch_is_archived(
                s.memories,
                project_path@,
                ids@,
                opt_text(reason),
                s.last_mutation_id,
                now_ms,
            );
            assert((s.mutations + log).skip(s.mutations.len() as int) =~= log);
            assert(s.mutations =~= (s.mutations + log).subrange(0, s.mutations.len() as int));
        }
        Ok(Some(pending))
    }

    /// Archives one memory; see [`McStore::archive_memories`]. Returns it as it then is.
    pub fn archive_memory(
        &mut self,
        project_path: &str,
        id: i64,
        reason: Option<&str>,
        now_ms: i64,
    ) -> (r: Result<Option<StoredMemoryFull>, McStoreError>)
        ensures
            ({
                let s = old(self)@;
                let ids = seq![id];
                let pending = to_archive(s.memories, ids);
                match r {
                    Ok(None) => {
                        &&& !all_archivable(s.memories, ids, project_path@)
                        &&& final(self)@ == s
                    },
                    Ok(Some(m)) => {
                        &&& all_archivable(s.memories, ids, project_path@)
                        &&& memory_by_id(final(self)@.memories, id) == Some(m@)
                        &&& s.last_mutation_id + pending.len() <= i64::MAX
                        &&& final(self)@ == (McStoreModel {
                            memories: after_archiving(s.memories, pending, opt_text(reason), now_ms),
                            mutations: s.mutations + archive_log(
                                project_path@,
                                pending,
                                s.last_mutation_id,
                                now_ms,
                            ),
                            last_mutation_id: (s.last_mutation_id + pending.len()) as i64,
                            ..s
                        })
                    },
                    Err(e) => {
                        &&& all_archivable(s.memories, ids, project_path@)
                        &&& s.last_mutation_id + pending.len() > i64::MAX
                        &&& e == McStoreError::Store(StoreError::Exhausted)
                        &&& final(self)@ == s
                    },
                }
            }),
            well_formed(old(self)@) ==> well_formed(final(self)@),
            commands_kept(old(self)@, final(self)@),
    {
        let ids: [i64; 1] = [id];
        let ghost s = self@;
        assert(ids@ =~= seq![id]);
        match self.archive_memories(project_path, ids.as_slice(), reason, now_ms) {
            Err(e) => Err(e),
            Ok(None) => Ok(None),
            Ok(Some(_)) => {
                proof {
                    assert(memory_by_id(s.memories, ids@[0]) is Some);
                    reveal_with_fuel(to_archive, 2);
                    assert(ids@.drop_last() =~= Seq::<i64>::empty());
                    archived_is_found(s.memories, to_archive(s.memories, ids@), opt_text(reason), now_ms, id);
                }
                Ok(self.get_memory_full(id))
            },
        }
    }
}

proof fn to_archive_are_there(rows: Seq<StoredMemoryFullModel>, ids: Seq<i64>)
    ensures
        forall|i: int|
            0 <= i < to_archive(rows, ids).len() ==> memory_by_id(
                rows,
                #[trigger] to_archive(rows, ids)[i],
            ) is Some,
    decreases ids.len(),
{
    if ids.len() > 0 {
        to_archive_are_there(rows, ids.drop_last());
    }
}

/// Putting a memory under its number is what is then found under it; others stay.
pub proof fn memory_put_is_found(
    rows: Seq<StoredMemoryFullModel>,
    m: StoredMemoryFullModel,
    id: i64,
)
    ensures
        memory_by_id(put_where(rows, with_id(m.id), m), id) == (if id == m.id {
            Some(m)
        } else {
            memory_by_id(rows, id)
        }),
{
    let p = with_id(m.id);
    let q = with_id(id);
    let after = put_where(rows, p, m);
    first_where_first(rows, p);
    first_where_first(rows, q);
    first_where_first(after, q);
    if id == m.id {
        match first_where(rows, p) {
            Some(i) => {
                assert forall|j: int| 0 <= j < i implies !q(#[trigger] after[j]) by {
                    assert(after[j] == rows[j]);
                    assert(!p(rows[j]));
                }
                first_where_is(after, q, i);
            },
            None => {
                assert forall|j: int| 0 <= j < rows.len() implies !q(#[trigger] after[j]) by {
                    assert(after[j] == rows[j]);
                    assert(!p(rows[j]));
                }
                first_where_is(after, q, rows.len() as int);
            },
        }
    } else {
        match first_where(rows, q) {
            Some(k) => {
                assert(after[k] == rows[k]) by {
                    if first_where(rows, p) is Some {
                        assert(p(rows[first_where(rows, p)->0]));
                    }
                }
                assert forall|j: int| 0 <= j < k implies !q(#[trigger] after[j]) by {
                    assert(!q(rows[j]));
                }
                first_where_is(after, q, k);
            },
            None => {
                match first_where(after, q) {
                    Some(k) => {
                        if k < rows.len() {
                            assert(!q(rows[k]));
                        }
                    },
                    None => {},
                }
            },
        }
    }
}

proof fn archived_is_found(
    rows: Seq<StoredMemoryFullModel>,
    ids: Seq<i64>,
    reason: Option<Seq<char>>,
    at_ms: i64,
    id: i64,
)
    requires
        memory_by_id(rows, id) is Some,
        forall|i: int| 0 <= i < ids.len() ==> #[trigger] memory_by_id(rows, ids[i]) is Some,
    ensures
        memory_by_id(after_archiving(rows, ids, reason, at_ms), id) is Some,
    decreases ids.len(),
{
    if ids.len() > 0 {
        let less = ids.drop_last();
        assert forall|i: int| 0 <= i < less.len() implies #[trigger] memory_by_id(
            rows,
            less[i],
        ) is Some by {
            assert(memory_by_id(rows, ids[i]) is Some);
        }
        archived_is_found(rows, less, reason, at_ms, id);
        assert(memory_by_id(rows, ids[ids.len() - 1]) is Some);
        let m = archived_memory(memory_by_id(rows, ids.last())->0, reason, at_ms);
        first_where_first(rows, with_id(ids.last()));
        assert(m.id == ids.last());
        memory_put_is_found(after_archiving(rows, less, reason, at_ms), m, id);
    }
}

} // verus!

//! The cache row of a session: reading it, and committing it under its version.

use vstd::prelude::*;

use crate::meta::{
    fresh_core, fresh_meta, CoreState, CoreStateModel, ModuleMeta, ModuleMetaModel,
};
use crate::rows::{find_session, group_views, put_row, row_of, set_row, Row};
use crate::store::drops::{commands_kept, remove_drops, without_drops};
use crate::store::errors::{McStoreError, StoreError};
use crate::store::integrity::{cache_kept, consumed_kept, well_formed};
use crate::store::limits::MAX_VALUES;
use crate::store::reading::stored_revision;
use crate::store::records::{
    CacheRow, CacheRowModel, LoadedState, LoadedStateModel, MemoryRevision, MemoryRevisionModel,
};
use crate::store::{McStore, McStoreModel};

verus! {

/// The largest version that a cache row may have.
pub const LAST_ROW_VERSION: u64 = 0x7fff_ffff_ffff_ffff;

/// The version of a session's cache row.
pub open spec fn version_of(s: McStoreModel, session: Seq<char>) -> Option<u64> {
    match row_of(s.cache, session) {
        Some(row) => Some(row.row_version),
        None => None,
    }
}

/// The version that a conflict reports: zero where there is no row.
pub open spec fn version_found(s: McStoreModel, session: Seq<char>) -> u64 {
    match version_of(s, session) {
        Some(v) => v,
        None => 0,
    }
}

/// Whether a later version is left to assign.
pub open spec fn version_left(s: McStoreModel, session: Seq<char>) -> bool {
    version_found(s, session) < LAST_ROW_VERSION
}

/// The version behind the one that a session's row has.
pub open spec fn next_version(s: McStoreModel, session: Seq<char>) -> u64 {
    (version_found(s, session) + 1) as u64
}

/// What a session's cache holds; a session without a row is as new.
pub open spec fn loaded(s: McStoreModel, session: Seq<char>) -> LoadedStateModel {
    match row_of(s.cache, session) {
        Some(row) => LoadedStateModel {
            core: row.core,
            meta: row.meta,
            row_version: Some(row.row_version),
        },
        None => LoadedStateModel { core: fresh_core(), meta: fresh_meta(), row_version: None },
    }
}

/// Whether memories changed since a render read them at `revision`.
pub open spec fn memories_moved(s: McStoreModel, revision: Option<MemoryRevisionModel>) -> bool {
    match revision {
        Some(v) => v.project_paths.len() > 0 && stored_revision(s, v.project_paths) != (
            v.max_memory_id,
            v.mutation_cursor,
        ),
        None => false,
    }
}

/// Whether a revision names more projects than one statement takes.
pub open spec fn unreadable(revision: Option<MemoryRevisionModel>) -> bool {
    match revision {
        Some(v) => v.project_paths.len() > MAX_VALUES,
        None => false,
    }
}

/// Whether a commit is refused because the row, or the memories it was rendered from, moved.
pub open spec fn commit_conflicts(
    s: McStoreModel,
    session: Seq<char>,
    expected: Option<u64>,
    revision: Option<MemoryRevisionModel>,
) -> bool {
    expected != version_of(s, session) || (!unreadable(revision) && memories_moved(s, revision))
}

/// What an optional revision holds.
pub open spec fn revision_of(revision: Option<&MemoryRevision>) -> Option<MemoryRevisionModel> {
    match revision {
        Some(v) => Some(v@),
        None => None,
    }
}

/// The store with a session's cache row written.
pub open spec fn with_cache(
    s: McStoreModel,
    session: Seq<char>,
    row_version: u64,
    core: CoreStateModel,
    meta: ModuleMetaModel,
) -> McStoreModel {
    McStoreModel {
        cache: put_row(s.cache, session, CacheRowModel { row_version, core, meta }),
        ..s
    }
}

/// After a commit the row has the next version: whoever expected the version before it is
/// refused, and other sessions keep their rows.
pub proof fn a_commit_wins_once(
    s: McStoreModel,
    session: Seq<char>,
    core: CoreStateModel,
    meta: ModuleMetaModel,
    other: Seq<char>,
    revision: Option<MemoryRevisionModel>,
)
    requires
        version_left(s, session),
    ensures
        ({
            let after = with_cache(s, session, next_version(s, session), core, meta);
            &&& version_of(after, session) == Some(next_version(s, session))
            &&& commit_conflicts(after, session, version_of(s, session), revision)
            &&& loaded(after, session) == (LoadedStateModel {
                core,
                meta,
                row_version: Some(next_version(s, session)),
            })
            &&& other != session ==> loaded(after, other) == loaded(s, other)
        }),
{
    crate::rows::row_of_put(
        s.cache,
        session,
        CacheRowModel { row_version: next_version(s, session), core, meta },
        other,
    );
}

impl McStore {
    /// Reads the cache of a session; a session that was never seen is as new.
    pub fn load(&self, session_id: &str) -> (r: LoadedState)
        ensures
            r@ == loaded(self@, session_id@),
    {
        match find_session(&self.cache, session_id) {
            Some(i) => {
                let row = &self.cache[i].row;
                LoadedState {
                    core: row.core.dup(),
                    meta: row.meta.dup(),
                    row_version: Some(row.row_version),
                }
            },
            None => LoadedState {
                core: CoreState::default(),
                meta: ModuleMeta::default(),
                row_version: None,
            },
        }
    }

    /// The version of a session's cache row.
    pub(crate) fn row_version(&self, session_id: &str) -> (r: Option<u64>)
        ensures
            r == version_of(self@, session_id@),
    {
        match find_session(&self.cache, session_id) {
            Some(i) => Some(self.cache[i].row.row_version),
            None => None,
        }
    }

    /// Commits a session's cache where its row still has the expected version.
    pub fn commit(
        &mut self,
        session_id: &str,
        expected: Option<u64>,
        core: &CoreState,
        meta: &ModuleMeta,
    ) -> (r: Result<u64, McStoreError>)
        ensures
            match r {
                Ok(v) => {
                    &&& expected == version_of(old(self)@, session_id@)
                    &&& version_left(old(self)@, session_id@)
                    &&& v == next_version(old(self)@, session_id@)
                    &&& final(self)@ == with_cache(old(self)@, session_id@, v, core@, meta@)
                },
                Err(e) => {
                    &&& expected != version_of(old(self)@, session_id@) || !version_left(
                        old(self)@,
                        session_id@,
                    )
                    &&& e == (if expected != version_of(old(self)@, session_id@) {
                        McStoreError::CasConflict {
                            expected,
                            found: version_found(old(self)@, session_id@),
                        }
                    } else {
                        McStoreError::Store(StoreError::Exhausted)
                    })
                    &&& final(self)@ == old(self)@
                },
            },
            well_formed(old(self)@) ==> well_formed(final(self)@),
            commands_kept(old(self)@, final(self)@),
    {
        let ghost s = self@;
        let none: Vec<i64> = Vec::new();
        let r = self.commit_with_consumed_drops(session_id, expected, core, meta, &none, None);
        proof {
            nothing_dropped(s.drops, session_id@);
            assert(none@ =~= Seq::empty());
            assert(with_cache(s, session_id@, next_version(s, session_id@), core@, meta@)
                =~= (McStoreModel {
                drops: s.drops,
                ..with_cache(s, session_id@, next_version(s, session_id@), core@, meta@)
            }));
        }
        r
    }

    /// Commits a session's cache and takes the consumed drops out of its queue, where the
    /// row still has the expected version and the memories did not move. Too many projects to
    /// look at in one statement fail the commit.
    pub fn commit_with_consumed_drops(
        &mut self,
        session_id: &str,
        expected: Option<u64>,
        core: &CoreState,
        meta: &ModuleMeta,
        consumed_drop_ids: &[i64],
        memory_revision: Option<&MemoryRevision>,
    ) -> (r: Result<u64, McStoreError>)
        ensures
            ({
                let s = old(self)@;
                let conflict = commit_conflicts(
                    s,
                    session_id@,
                    expected,
                    revision_of(memory_revision),
                );
                let overfull = unreadable(revision_of(memory_revision));
                match r {
                    Ok(v) => {
                        &&& !conflict && !overfull && version_left(s, session_id@)
                        &&& v == next_version(s, session_id@)
                        &&& final(self)@ == (McStoreModel {
                            drops: without_drops(s.drops, session_id@, consumed_drop_ids@),
                            ..with_cache(s, session_id@, v, core@, meta@)
                        })
                    },
                    Err(e) => {
                        &&& conflict || overfull || !version_left(s, session_id@)
                        &&& e == (if conflict {
                            McStoreError::CasConflict {
                                expected,
                                found: version_found(s, session_id@),
                            }
                        } else if overfull {
                            McStoreError::Store(StoreError::TooManyValues)
                        } else {
                            McStoreError::Store(StoreError::Exhausted)
                        })
                        &&& final(self)@ == s
                    },
                }
            }),
            well_formed(old(self)@) ==> well_formed(final(self)@),
            commands_kept(old(self)@, final(self)@),
    {
        broadcast use group_views;

        let current: Option<u64> = self.row_version(session_id);
        let found: u64 = match current {
            Some(v) => v,
            None => 0,
        };
        let same: bool = match (expected, current) {
            (Some(a), Some(b)) => a == b,
            (None, None) => true,
            _ => false,
        };
        if !same {
            return Err(McStoreError::CasConflict { expected, found });
        }
        match memory_revision {
            Some(revision) => {
                if revision.project_paths.len() > MAX_VALUES {
                    return Err(McStoreError::Store(StoreError::TooManyValues));
                }
                if revision.project_paths.len() > 0 {
                    let stored: (i64, i64) = self.memory_revision_of(&revision.project_paths);
                    if stored.0 != revision.max_memory_id || stored.1 != revision.mutation_cursor {
                        return Err(McStoreError::CasConflict { expected, found });
                    }
                }
            },
            None => {},
        }
        if found >= LAST_ROW_VERSION {
            return Err(McStoreError::Store(StoreError::Exhausted));
        }
        let next: u64 = found + 1;
        set_row(
            &mut self.cache,
            session_id,
            CacheRow { row_version: next, core: core.dup(), meta: meta.dup() },
        );
        remove_drops(&mut self.drops, session_id, consumed_drop_ids);
        proof {
            let s = old(self)@;
            if well_formed(s) {
                let row = CacheRowModel { row_version: next, core: core@, meta: meta@ };
                cache_kept(s, session_id@, row);
                consumed_kept(
                    McStoreModel { cache: put_row(s.cache, session_id@, row), ..s },
                    session_id@,
                    consumed_drop_ids@,
                );
            }
        }
        Ok(next)
    }
}

proof fn nothing_dropped(
    table: Seq<crate::rows::KeyedModel<crate::store::records::PendingAgentDropModel>>,
    session: Seq<char>,
)
    ensures
        without_drops(table, session, Seq::empty()) == table,
    decreases table.len(),
{
    if table.len() > 0 {
        nothing_dropped(table.drop_last(), session);
        assert(table.drop_last().push(table.last()) =~= table);
    } else {
        assert(table =~= Seq::empty());
    }
}

} // verus!

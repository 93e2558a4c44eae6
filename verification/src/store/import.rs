//! Importing the compartments of a session that was never used.

use vstd::prelude::*;

use crate::rows::{
    append_session, find_row, find_session, first_where, group_views, has_session, keyed_all,
    of_session, put_row, row_of, set_row, slice_dup, views, RowTest,
};
use crate::store::compartments::{
    first_import_fault, importable, validate_state_import_compartments,
};
use crate::store::drops::commands_kept;
use crate::store::errors::StateImportError;
use crate::store::integrity::{import_kept, imported_kept, well_formed};
use crate::store::records::{
    ImportRow, ImportRowModel, StateImportResult, StoredCompartment, StoredNote, StoredNoteModel,
};
use crate::store::{McStore, McStoreModel};
use crate::text::{owned, same_text};

verus! {

/// Whether an import may begin.
#[derive(Debug, Clone, Copy, PartialEq, Eq, Structural)]
pub enum StateImportPreflight {
    Ready,
    /// The import was already completed with this many compartments.
    Duplicate { imported: usize },
}

/// A note of a session.
pub open spec fn note_of(session: Seq<char>) -> spec_fn(StoredNoteModel) -> bool {
    |n: StoredNoteModel| n.session_id == session
}

/// Whether a session owns a row anywhere.
pub open spec fn has_durable_state(s: McStoreModel, session: Seq<char>) -> bool {
    ||| of_session(s.cache, session).len() > 0
    ||| of_session(s.compartments, session).len() > 0
    ||| of_session(s.tags, session).len() > 0
    ||| of_session(s.drops, session).len() > 0
    ||| of_session(s.ledger, session).len() > 0
    ||| of_session(s.channel1_appends, session).len() > 0
    ||| of_session(s.user_hints, session).len() > 0
    ||| of_session(s.traces, session).len() > 0
    ||| of_session(s.transcripts, session).len() > 0
    ||| first_where(s.notes, note_of(session)) is Some
}

/// The number of compartments that a completed import reports.
pub open spec fn reported(count: i64) -> usize {
    if count <= 0 {
        0
    } else if count > usize::MAX {
        usize::MAX
    } else {
        count as usize
    }
}

/// The number of compartments that is stored of an import.
pub open spec fn recorded(n: nat) -> i64 {
    if n > i64::MAX {
        i64::MAX
    } else {
        n as i64
    }
}

fn report(count: i64) -> (r: usize)
    ensures
        r == reported(count),
{
    if count <= 0 {
        0
    } else if (count as u128) > (usize::MAX as u128) {
        usize::MAX
    } else {
        count as usize
    }
}

/// Accepts the notes of a session.
pub struct NoteOf<'a> {
    pub session: &'a str,
}

impl<'a> RowTest<StoredNote> for NoteOf<'a> {
    open spec fn accepts(&self) -> spec_fn(StoredNoteModel) -> bool {
        note_of(self.session@)
    }

    fn test(&self, row: &StoredNote) -> (r: bool) {
        same_text(&row.session_id, self.session)
    }
}

/// A completed import is reported with its own number of compartments.
pub proof fn a_completed_import_is_reported(
    s: McStoreModel,
    session: Seq<char>,
    done: ImportRowModel,
    n: nat,
)
    requires
        done.imported_count == recorded(n),
        n <= i64::MAX,
        n <= usize::MAX,
    ensures
        row_of(put_row(s.imports, session, done), session) == Some(done),
        reported(done.imported_count) == n,
{
    crate::rows::row_of_put(s.imports, session, done, session);
}

impl McStore {
    /// Tests whether a session owns a row anywhere.
    pub fn session_has_durable_state(&self, session_id: &str) -> (r: bool)
        ensures
            r == has_durable_state(self@, session_id@),
    {
        has_session(&self.cache, session_id) || has_session(&self.compartments, session_id)
            || has_session(&self.tags, session_id) || has_session(&self.drops, session_id)
            || has_session(&self.ledger, session_id) || has_session(
            &self.channel1_appends,
            session_id,
        ) || has_session(&self.user_hints, session_id) || has_session(&self.traces, session_id)
            || has_session(&self.transcripts, session_id) || find_row(
            &self.notes,
            &NoteOf { session: session_id },
        ).is_some()
    }

    /// Tells whether an import may begin. Nothing is written.
    pub fn preflight_state_import(&self, session_id: &str, import_id: &str) -> (r: Result<
        StateImportPreflight,
        StateImportError,
    >)
        ensures
            match row_of(self@.imports, session_id@) {
                Some(done) => if done.import_id == import_id@ {
                    r == Ok::<StateImportPreflight, StateImportError>(
                        StateImportPreflight::Duplicate { imported: reported(done.imported_count) },
                    )
                } else {
                    r == Err::<StateImportPreflight, StateImportError>(
                        StateImportError::SessionNotEmpty,
                    )
                },
                None => if has_durable_state(self@, session_id@) {
                    r == Err::<StateImportPreflight, StateImportError>(
                        StateImportError::SessionNotEmpty,
                    )
                } else {
                    r == Ok::<StateImportPreflight, StateImportError>(StateImportPreflight::Ready)
                },
            },
    {
        match find_session(&self.imports, session_id) {
            Some(at) => {
                let done = &self.imports[at].row;
                if same_text(&done.import_id, import_id) {
                    Ok(StateImportPreflight::Duplicate { imported: report(done.imported_count) })
                } else {
                    Err(StateImportError::SessionNotEmpty)
                }
            },
            None => if self.session_has_durable_state(session_id) {
                Err(StateImportError::SessionNotEmpty)
            } else {
                Ok(StateImportPreflight::Ready)
            },
        }
    }

    /// Imports compartments into a session that owns nothing yet. The same import a second
    /// time is reported as a duplicate.
    pub fn commit_state_import(
        &mut self,
        session_id: &str,
        import_id: &str,
        compartments: &[StoredCompartment],
        completed_at_ms: i64,
    ) -> (r: Result<StateImportResult, StateImportError>)
        ensures
            ({
                let s = old(self)@;
                let cs = views(compartments@);
                match row_of(s.imports, session_id@) {
                    Some(done) => {
                        &&& final(self)@ == s
                        &&& if done.import_id == import_id@ {
                            r == Ok::<StateImportResult, StateImportError>(
                                StateImportResult {
                                    imported: reported(done.imported_count),
                                    duplicate: true,
                                },
                            )
                        } else {
                            r == Err::<StateImportResult, StateImportError>(
                                StateImportError::SessionNotEmpty,
                            )
                        }
                    },
                    None => if has_durable_state(s, session_id@) {
                        &&& final(self)@ == s
                        &&& r == Err::<StateImportResult, StateImportError>(
                            StateImportError::SessionNotEmpty,
                        )
                    } else {
                        match r {
                            Ok(result) => {
                                &&& importable(cs)
                                &&& result == (StateImportResult {
                                    imported: compartments@.len() as usize,
                                    duplicate: false,
                                })
                                &&& final(self)@ == (McStoreModel {
                                    compartments: s.compartments + keyed_all(session_id@, cs),
                                    imports: put_row(
                                        s.imports,
                                        session_id@,
                                        ImportRowModel {
                                            import_id: import_id@,
                                            imported_count: recorded(cs.len()),
                                            completed_at_ms,
                                        },
                                    ),
                                    ..s
                                })
                            },
                            Err(e) => {
                                &&& final(self)@ == s
                                &&& e matches StateImportError::Validation(fault)
                                &&& first_import_fault(cs, fault)
                            },
                        }
                    },
                }
            }),
            well_formed(old(self)@) ==> well_formed(final(self)@),
            commands_kept(old(self)@, final(self)@),
    {
        broadcast use group_views;

        match find_session(&self.imports, session_id) {
            Some(at) => {
                let done = &self.imports[at].row;
                if same_text(&done.import_id, import_id) {
                    return Ok(
                        StateImportResult {
                            imported: report(done.imported_count),
                            duplicate: true,
                        },
                    );
                }
                return Err(StateImportError::SessionNotEmpty);
            },
            None => {},
        }
        if self.session_has_durable_state(session_id) {
            return Err(StateImportError::SessionNotEmpty);
        }
        match validate_state_import_compartments(compartments) {
            Ok(_) => {},
            Err(fault) => {
                return Err(StateImportError::Validation(fault));
            },
        }
        let n: usize = compartments.len();
        let imported_count: i64 = if (n as u128) > (i64::MAX as u128) {
            i64::MAX
        } else {
            n as i64
        };
        proof {
            let s = old(self)@;
            if well_formed(s) {
                imported_kept(s, session_id@, views(compartments@));
                import_kept(
                    McStoreModel {
                        compartments: s.compartments + keyed_all(
                            session_id@,
                            views(compartments@),
                        ),
                        ..s
                    },
                    session_id@,
                    ImportRowModel { import_id: import_id@, imported_count, completed_at_ms },
                );
            }
        }
        append_session(&mut self.compartments, session_id, slice_dup(compartments));
        set_row(
            &mut self.imports,
            session_id,
            ImportRow { import_id: owned(import_id), imported_count, completed_at_ms },
        );
        Ok(StateImportResult { imported: n, duplicate: false })
    }
}

} // verus!

//! Notes that an agent keeps for a session of a project.

use vstd::prelude::*;

use crate::rows::{
    find_row, find_where, group_views, keep_where, opt_owned, opt_text, opt_view, page, page_of,
    put_where, select_rows, sort_rows, sorted, views, Row, RowOrder, RowTest,
};
use crate::store::drops::commands_kept;
use crate::store::errors::{McStoreError, StoreError};
use crate::store::integrity::{note_added, note_kept, well_formed};
use crate::store::records::{StoredNote, StoredNoteModel};
use crate::store::{McStore, McStoreModel};
use crate::text::{blank, is_blank, owned, same_text, trim, trimmed};

verus! {

/// A note to be stored.
#[derive(Debug, Clone, Copy)]
pub struct NoteInput<'a> {
    pub project_path: &'a str,
    pub session_id: &'a str,
    pub content: &'a str,
    pub surface_condition: Option<&'a str>,
    pub anchor_block_id: Option<&'a str>,
    pub now_ms: i64,
}

/// A text without the white space round it; nothing where nothing else is left.
pub open spec fn substantial(text: Option<Seq<char>>) -> Option<Seq<char>> {
    match text {
        Some(t) => if blank(t) {
            None
        } else {
            Some(trimmed(t))
        },
        None => None,
    }
}

/// The note that an input becomes.
pub open spec fn new_note(input: NoteInput, id: i64) -> StoredNoteModel {
    StoredNoteModel {
        id,
        project_path: input.project_path@,
        session_id: input.session_id@,
        content: trimmed(input.content@),
        status: "active"@,
        surface_condition: substantial(opt_text(input.surface_condition)),
        anchor_block_id: opt_text(input.anchor_block_id),
        created_at_ms: input.now_ms,
        updated_at_ms: input.now_ms,
    }
}

/// An active note of a session of a project.
pub open spec fn active_note(project: Seq<char>, session: Seq<char>) -> spec_fn(
    StoredNoteModel,
) -> bool {
    |n: StoredNoteModel|
        n.project_path == project && n.session_id == session && n.status == "active"@
}

/// The active note of a session of a project with a number.
pub open spec fn active_note_numbered(project: Seq<char>, session: Seq<char>, id: i64) -> spec_fn(
    StoredNoteModel,
) -> bool {
    |n: StoredNoteModel|
        n.id == id && n.project_path == project && n.session_id == session && n.status
            == "active"@
}

/// Notes by their last change, newest first; equal times by number, largest first.
pub struct NoteOrder;

impl RowOrder<StoredNote> for NoteOrder {
    open spec fn le(a: StoredNoteModel, b: StoredNoteModel) -> bool {
        a.updated_at_ms > b.updated_at_ms || (a.updated_at_ms == b.updated_at_ms && a.id >= b.id)
    }

    proof fn le_total(a: StoredNoteModel, b: StoredNoteModel) {
    }

    proof fn le_transitive(a: StoredNoteModel, b: StoredNoteModel, c: StoredNoteModel) {
    }

    fn at_most(a: &StoredNote, b: &StoredNote) -> (r: bool) {
        a.updated_at_ms > b.updated_at_ms || (a.updated_at_ms == b.updated_at_ms && a.id >= b.id)
    }
}

/// Accepts the active notes of a session of a project.
pub struct ActiveNote<'a> {
    pub project: &'a str,
    pub session: &'a str,
}

impl<'a> RowTest<StoredNote> for ActiveNote<'a> {
    open spec fn accepts(&self) -> spec_fn(StoredNoteModel) -> bool {
        active_note(self.project@, self.session@)
    }

    fn test(&self, row: &StoredNote) -> (r: bool) {
        same_text(&row.project_path, self.project) && same_text(&row.session_id, self.session)
            && same_text(&row.status, "active")
    }
}

/// Accepts the active note of a session of a project with a number.
pub struct ActiveNoteNumbered<'a> {
    pub project: &'a str,
    pub session: &'a str,
    pub id: i64,
}

impl<'a> RowTest<StoredNote> for ActiveNoteNumbered<'a> {
    open spec fn accepts(&self) -> spec_fn(StoredNoteModel) -> bool {
        active_note_numbered(self.project@, self.session@, self.id)
    }

    fn test(&self, row: &StoredNote) -> (r: bool) {
        row.id == self.id && same_text(&row.project_path, self.project) && same_text(
            &row.session_id,
            self.session,
        ) && same_text(&row.status, "active")
    }
}

/// How many notes a reading holds at most.
pub open spec fn note_limit(limit: nat) -> nat {
    if limit < 1 {
        1
    } else if limit > 100 {
        100
    } else {
        limit
    }
}

/// A note with a new content.
pub open spec fn note_rewritten(n: StoredNoteModel, content: Seq<char>, now_ms: i64) ->
    StoredNoteModel {
    StoredNoteModel { content: trimmed(content), updated_at_ms: now_ms, ..n }
}

/// A dismissed note: its content ends with the resolution, if one was given.
pub open spec fn note_dismissed(
    n: StoredNoteModel,
    resolution: Option<Seq<char>>,
    now_ms: i64,
) -> StoredNoteModel {
    StoredNoteModel {
        content: match substantial(resolution) {
            Some(r) => n.content + "\n\nDismissal resolution: "@ + r,
            None => n.content,
        },
        status: "dismissed"@,
        updated_at_ms: now_ms,
        ..n
    }
}

/// A note was changed to `changed(note)`, or is not there as an active note.
pub open spec fn note_changed(
    before: McStoreModel,
    after: McStoreModel,
    wanted: spec_fn(StoredNoteModel) -> bool,
    changed: spec_fn(StoredNoteModel) -> StoredNoteModel,
    result: Option<StoredNoteModel>,
) -> bool {
    match find_where(before.notes, wanted) {
        Some(n) => {
            &&& result == Some(changed(n))
            &&& after == (McStoreModel {
                notes: put_where(before.notes, wanted, changed(n)),
                ..before
            })
        },
        None => result is None && after == before,
    }
}

/// A dismissed note is not active, so it is neither read, nor changed, nor dismissed again.
pub proof fn dismissed_notes_are_final(
    n: StoredNoteModel,
    resolution: Option<Seq<char>>,
    now_ms: i64,
    project: Seq<char>,
    session: Seq<char>,
    id: i64,
)
    ensures
        !active_note(project, session)(note_dismissed(n, resolution, now_ms)),
        !active_note_numbered(project, session, id)(note_dismissed(n, resolution, now_ms)),
{
    reveal_strlit("active");
    reveal_strlit("dismissed");
    assert("active"@.len() != "dismissed"@.len());
}

fn substance(text: Option<&str>) -> (r: Option<String>)
    ensures
        opt_view(r) == substantial(opt_text(text)),
{
    match text {
        Some(t) => if is_blank(t) {
            None
        } else {
            Some(owned(trim(t)))
        },
        None => None,
    }
}

impl McStore {
    /// Stores a note.
    pub fn insert_note(&mut self, input: NoteInput<'_>) -> (r: Result<StoredNote, McStoreError>)
        ensures
            match r {
                Ok(note) => {
                    &&& old(self)@.last_note_id < i64::MAX
                    &&& note@ == new_note(input, (old(self)@.last_note_id + 1) as i64)
                    &&& final(self)@ == (McStoreModel {
                        notes: old(self)@.notes.push(note@),
                        last_note_id: (old(self)@.last_note_id + 1) as i64,
                        ..old(self)@
                    })
                },
                Err(e) => {
                    &&& old(self)@.last_note_id == i64::MAX
                    &&& e == McStoreError::Store(StoreError::Exhausted)
                    &&& final(self)@ == old(self)@
                },
            },
            well_formed(old(self)@) ==> well_formed(final(self)@),
            commands_kept(old(self)@, final(self)@),
    {
        broadcast use group_views;

        if self.last_note_id == i64::MAX {
            return Err(McStoreError::Store(StoreError::Exhausted));
        }
        let id: i64 = self.last_note_id + 1;
        let note = StoredNote {
            id,
            project_path: owned(input.project_path),
            session_id: owned(input.session_id),
            content: owned(trim(input.content)),
            status: owned("active"),
            surface_condition: substance(input.surface_condition),
            anchor_block_id: opt_owned(input.anchor_block_id),
            created_at_ms: input.now_ms,
            updated_at_ms: input.now_ms,
        };
        proof {
            if well_formed(old(self)@) {
                note_added(old(self)@, note@);
            }
        }
        self.notes.push(note.dup());
        self.last_note_id = id;
        Ok(note)
    }

    /// Reads a page of the active notes of a session of a project, newest first. A page
    /// holds between one and a hundred notes.
    pub fn read_notes(
        &self,
        project_path: &str,
        session_id: &str,
        limit: usize,
        offset: usize,
    ) -> (r: Result<Vec<StoredNote>, McStoreError>)
        ensures
            match r {
                Ok(rows) => {
                    &&& offset <= i64::MAX
                    &&& views(rows@) == page(
                        sorted::<StoredNote, NoteOrder>(
                            keep_where(self@.notes, active_note(project_path@, session_id@)),
                        ),
                        offset as nat,
                        note_limit(limit as nat),
                    )
                },
                Err(e) => {
                    &&& offset > i64::MAX
                    &&& e matches McStoreError::Serde(text)
                    &&& text@ == "note offset exceeds i64"@
                },
            },
    {
        if (offset as u128) > (i64::MAX as u128) {
            return Err(McStoreError::Serde(owned("note offset exceeds i64")));
        }
        let limit: usize = if limit < 1 {
            1
        } else if limit > 100 {
            100
        } else {
            limit
        };
        let rows = sort_rows::<StoredNote, NoteOrder>(
            select_rows(
                &self.notes,
                &ActiveNote { project: project_path, session: session_id },
            ),
        );
        Ok(page_of(&rows, offset, limit))
    }

    /// Gives an active note a new content.
    pub fn update_note_content(
        &mut self,
        project_path: &str,
        session_id: &str,
        note_id: i64,
        content: &str,
        now_ms: i64,
    ) -> (r: Option<StoredNote>)
        ensures
            note_changed(
                old(self)@,
                final(self)@,
                active_note_numbered(project_path@, session_id@, note_id),
                |n: StoredNoteModel| note_rewritten(n, content@, now_ms),
                opt_view(r),
            ),
            well_formed(old(self)@) ==> well_formed(final(self)@),
            commands_kept(old(self)@, final(self)@),
    {
        broadcast use group_views;

        let wanted = ActiveNoteNumbered { project: project_path, session: session_id, id: note_id };
        match find_row(&self.notes, &wanted) {
            Some(at) => {
                let mut note = self.notes[at].dup();
                note.content = owned(trim(content));
                note.updated_at_ms = now_ms;
                proof {
                    if well_formed(old(self)@) {
                        note_kept(old(self)@, wanted.accepts(), note@);
                    }
                }
                self.notes.set(at, note.dup());
                Some(note)
            },
            None => None,
        }
    }

    /// Dismisses an active note.
    pub fn dismiss_note(
        &mut self,
        project_path: &str,
        session_id: &str,
        note_id: i64,
        resolution: Option<&str>,
        now_ms: i64,
    ) -> (r: Option<StoredNote>)
        ensures
            note_changed(
                old(self)@,
                final(self)@,
                active_note_numbered(project_path@, session_id@, note_id),
                |n: StoredNoteModel| note_dismissed(n, opt_text(resolution), now_ms),
                opt_view(r),
            ),
            well_formed(old(self)@) ==> well_formed(final(self)@),
            commands_kept(old(self)@, final(self)@),
    {
        broadcast use group_views;

        let wanted = ActiveNoteNumbered { project: project_path, session: session_id, id: note_id };
        match find_row(&self.notes, &wanted) {
            Some(at) => {
                let mut note = self.notes[at].dup();
                match substance(resolution) {
                    Some(text) => {
                        let mut content = note.content.clone();
                        content.append("\n\nDismissal resolution: ");
                        content.append(&text);
                        note.content = content;
                    },
                    None => {},
                }
                note.status = owned("dismissed");
                note.updated_at_ms = now_ms;
                proof {
                    if well_formed(old(self)@) {
                        note_kept(old(self)@, wanted.accepts(), note@);
                    }
                }
                self.notes.set(at, note.dup());
                Some(note)
            },
            None => None,
        }
    }
}

} // verus!

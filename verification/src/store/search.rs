//! Searching memories, compartments and notes for a text.

use vstd::prelude::*;

use crate::like::{fold_text, folded_text, is_like, like, like_pattern, sql_like_pattern};
use crate::rows::{
    group_views, keep_where, map_rows, of_session, opt_dup, page, page_of, select_rows,
    session_rows, sort_rows, sorted, views, RowOrder, RowTest,
};
use crate::store::errors::{McStoreError, StoreError};
use crate::store::limits::{is_overlong, is_seeing_too_much, overlong, sees_too_much};
use crate::store::notes::NoteOrder;
use crate::store::reading::{memory_rows, rendered, seen_through, Rendered};
use crate::store::records::{
    StoredCompartment, StoredCompartmentModel, StoredCompartmentSearchRow,
    StoredCompartmentSearchRowModel, StoredMemory, StoredMemoryModel, StoredMemorySearchRow,
    StoredMemorySearchRowModel, StoredNote, StoredNoteModel, StoredNoteSearchRow,
    StoredNoteSearchRowModel, WorkspaceMembershipModel,
};
use crate::store::workspace::membership_of;
use crate::store::McStore;
use crate::text::{blank, is_blank, owned, same_text};

verus! {

/// Whether a text holds what a query asks for.
pub open spec fn answers(query: Seq<char>, text: Seq<char>) -> bool {
    like(like_pattern(query), folded_text(text))
}

/// Whether an optional text, empty where there is none, holds what a query asks for.
pub open spec fn opt_answers(query: Seq<char>, text: Option<Seq<char>>) -> bool {
    match text {
        Some(t) => answers(query, t),
        None => answers(query, Seq::empty()),
    }
}

fn holds_answer(pattern: &str, text: &str, Ghost(query): Ghost<Seq<char>>) -> (r: bool)
    requires
        pattern@ == like_pattern(query),
    ensures
        r == answers(query, text@),
{
    is_like(pattern, &fold_text(text))
}

fn opt_holds_answer(pattern: &str, text: &Option<String>, Ghost(query): Ghost<Seq<char>>) -> (r:
    bool)
    requires
        pattern@ == like_pattern(query),
    ensures
        r == opt_answers(
            query,
            match text {
                Some(t) => Some(t@),
                None => None,
            },
        ),
{
    match text {
        Some(t) => holds_answer(pattern, t, Ghost(query)),
        None => {
            let none: String = owned("");
            proof {
                reveal_strlit("");
                assert(none@ =~= Seq::empty());
            }
            holds_answer(pattern, &none, Ghost(query))
        },
    }
}

// --- memories -------------------------------------------------------------------------

/// Memories by their last change, newest first; equal times by number.
pub struct RecentOrder;

impl RowOrder<StoredMemory> for RecentOrder {
    open spec fn le(a: StoredMemoryModel, b: StoredMemoryModel) -> bool {
        a.updated_at > b.updated_at || (a.updated_at == b.updated_at && a.id <= b.id)
    }

    proof fn le_total(a: StoredMemoryModel, b: StoredMemoryModel) {
    }

    proof fn le_transitive(a: StoredMemoryModel, b: StoredMemoryModel, c: StoredMemoryModel) {
    }

    fn at_most(a: &StoredMemory, b: &StoredMemory) -> (r: bool) {
        a.updated_at > b.updated_at || (a.updated_at == b.updated_at && a.id <= b.id)
    }
}

/// A memory that a project sees and that answers a query.
pub open spec fn found_memory(
    project: Seq<char>,
    membership: Option<WorkspaceMembershipModel>,
    now_ms: i64,
    query: Seq<char>,
) -> spec_fn(StoredMemoryModel) -> bool {
    |m: StoredMemoryModel|
        rendered(project, membership, now_ms)(m) && answers(query, m.content)
}

/// What a search shows of a memory.
pub open spec fn memory_hit(m: StoredMemoryModel) -> StoredMemorySearchRowModel {
    StoredMemorySearchRowModel {
        id: m.id,
        project_path: m.project_path,
        category: m.category,
        content: m.content,
        updated_at: m.updated_at,
    }
}

/// Accepts the memories that a project sees and that answer a query.
pub struct FoundMemory<'a> {
    pub seen: Rendered<'a>,
    pub pattern: &'a str,
}

impl<'a> RowTest<StoredMemory> for FoundMemory<'a> {
    open spec fn accepts(&self) -> spec_fn(StoredMemoryModel) -> bool {
        |m: StoredMemoryModel|
            rendered(self.seen.project@, seen_through(self.seen.membership), self.seen.now_ms)(m)
                && like(self.pattern@, folded_text(m.content))
    }

    fn test(&self, row: &StoredMemory) -> (r: bool) {
        self.seen.test(row) && is_like(self.pattern, &fold_text(&row.content))
    }
}

fn show_memory(m: &StoredMemory) -> (r: StoredMemorySearchRow)
    ensures
        r@ == memory_hit(m@),
{
    StoredMemorySearchRow {
        id: m.id,
        project_path: m.project_path.clone(),
        category: m.category.clone(),
        content: m.content.clone(),
        updated_at: m.updated_at,
    }
}

// --- compartments ---------------------------------------------------------------------

/// Compartments by sequence, latest first.
pub struct LatestOrder;

impl RowOrder<StoredCompartment> for LatestOrder {
    open spec fn le(a: StoredCompartmentModel, b: StoredCompartmentModel) -> bool {
        a.sequence >= b.sequence
    }

    proof fn le_total(a: StoredCompartmentModel, b: StoredCompartmentModel) {
    }

    proof fn le_transitive(
        a: StoredCompartmentModel,
        b: StoredCompartmentModel,
        c: StoredCompartmentModel,
    ) {
    }

    fn at_most(a: &StoredCompartment, b: &StoredCompartment) -> (r: bool) {
        a.sequence >= b.sequence
    }
}

/// A compartment whose title or one of whose texts answers a query.
pub open spec fn found_compartment(query: Seq<char>) -> spec_fn(StoredCompartmentModel) -> bool {
    |c: StoredCompartmentModel|
        answers(query, c.title) || answers(query, c.content) || opt_answers(query, c.p1)
            || opt_answers(query, c.p2) || opt_answers(query, c.p3) || opt_answers(query, c.p4)
}

/// What a search shows of a compartment.
pub open spec fn compartment_hit(c: StoredCompartmentModel) -> StoredCompartmentSearchRowModel {
    StoredCompartmentSearchRowModel {
        sequence: c.sequence,
        title: c.title,
        content: c.content,
        p1: c.p1,
        p2: c.p2,
        p3: c.p3,
        p4: c.p4,
        created_at: c.created_at,
    }
}

fn answer_in_compartment(pattern: &str, c: &StoredCompartment, Ghost(query): Ghost<Seq<char>>) -> (r:
    bool)
    requires
        pattern@ == like_pattern(query),
    ensures
        r == found_compartment(query)(c@),
{
    holds_answer(pattern, &c.title, Ghost(query)) || holds_answer(
        pattern,
        &c.content,
        Ghost(query),
    ) || opt_holds_answer(pattern, &c.p1, Ghost(query)) || opt_holds_answer(
        pattern,
        &c.p2,
        Ghost(query),
    ) || opt_holds_answer(pattern, &c.p3, Ghost(query)) || opt_holds_answer(
        pattern,
        &c.p4,
        Ghost(query),
    )
}

/// Accepts the compartments that answer a query.
pub struct FoundCompartment<'a> {
    pub query: &'a str,
}

impl<'a> RowTest<StoredCompartment> for FoundCompartment<'a> {
    open spec fn accepts(&self) -> spec_fn(StoredCompartmentModel) -> bool {
        found_compartment(self.query@)
    }

    fn test(&self, row: &StoredCompartment) -> (r: bool) {
        let pattern = sql_like_pattern(self.query);
        answer_in_compartment(&pattern, row, Ghost(self.query@))
    }
}

fn show_compartment(c: &StoredCompartment) -> (r: StoredCompartmentSearchRow)
    ensures
        r@ == compartment_hit(c@),
{
    StoredCompartmentSearchRow {
        sequence: c.sequence,
        title: c.title.clone(),
        content: c.content.clone(),
        p1: opt_dup(&c.p1),
        p2: opt_dup(&c.p2),
        p3: opt_dup(&c.p3),
        p4: opt_dup(&c.p4),
        created_at: c.created_at,
    }
}

// --- notes ----------------------------------------------------------------------------

/// A note of a session of a project that answers a query, dismissed or not.
pub open spec fn found_note(project: Seq<char>, session: Seq<char>, query: Seq<char>) -> spec_fn(
    StoredNoteModel,
) -> bool {
    |n: StoredNoteModel|
        n.project_path == project && n.session_id == session && (answers(query, n.content)
            || opt_answers(query, n.surface_condition))
}

/// What a search shows of a note.
pub open spec fn note_hit(n: StoredNoteModel) -> StoredNoteSearchRowModel {
    StoredNoteSearchRowModel {
        id: n.id,
        content: n.content,
        status: n.status,
        surface_condition: n.surface_condition,
        updated_at_ms: n.updated_at_ms,
    }
}

/// Accepts the notes of a session of a project that answer a query.
pub struct FoundNote<'a> {
    pub project: &'a str,
    pub session: &'a str,
    pub query: &'a str,
}

impl<'a> RowTest<StoredNote> for FoundNote<'a> {
    open spec fn accepts(&self) -> spec_fn(StoredNoteModel) -> bool {
        found_note(self.project@, self.session@, self.query@)
    }

    fn test(&self, row: &StoredNote) -> (r: bool) {
        let pattern = sql_like_pattern(self.query);
        same_text(&row.project_path, self.project) && same_text(&row.session_id, self.session) && (
        holds_answer(&pattern, &row.content, Ghost(self.query@)) || opt_holds_answer(
            &pattern,
            &row.surface_condition,
            Ghost(self.query@),
        ))
    }
}

fn show_note(n: &StoredNote) -> (r: StoredNoteSearchRow)
    ensures
        r@ == note_hit(n@),
{
    StoredNoteSearchRow {
        id: n.id,
        content: n.content.clone(),
        status: n.status.clone(),
        surface_condition: opt_dup(&n.surface_condition),
        updated_at_ms: n.updated_at_ms,
    }
}

/// A time in milliseconds, from whole seconds. What lies beyond the range stays at its end.
pub open spec fn in_millis(secs: i64) -> i64 {
    if secs > 9_223_372_036_854_775 {
        i64::MAX
    } else if secs < -9_223_372_036_854_775 {
        i64::MIN
    } else {
        (secs * 1000) as i64
    }
}

fn to_millis(secs: i64) -> (r: i64)
    ensures
        r == in_millis(secs),
{
    if secs > 9_223_372_036_854_775 {
        i64::MAX
    } else if secs < -9_223_372_036_854_775 {
        i64::MIN
    } else {
        secs * 1000
    }
}

/// A note of a session of a project.
pub open spec fn note_of(project: Seq<char>, session: Seq<char>) -> spec_fn(
    StoredNoteModel,
) -> bool {
    |n: StoredNoteModel| n.project_path == project && n.session_id == session
}

/// Accepts the notes of a session of a project.
pub struct NoteOf<'a> {
    pub project: &'a str,
    pub session: &'a str,
}

impl<'a> RowTest<StoredNote> for NoteOf<'a> {
    open spec fn accepts(&self) -> spec_fn(StoredNoteModel) -> bool {
        note_of(self.project@, self.session@)
    }

    fn test(&self, row: &StoredNote) -> (r: bool) {
        same_text(&row.project_path, self.project) && same_text(&row.session_id, self.session)
    }
}

/// Why a search fails: its pattern is too long, and there is a row to hold it against.
pub open spec fn search_fault(query: Seq<char>, candidates: nat) -> Option<McStoreError> {
    if !blank(query) && candidates > 0 && overlong(like_pattern(query)) {
        Some(McStoreError::Store(StoreError::PatternTooComplex))
    } else {
        None
    }
}

/// Why a search of memories fails: the project's workspace is too large for one statement,
/// or else as any search does.
pub open spec fn memory_search_fault(
    query: Seq<char>,
    membership: Option<WorkspaceMembershipModel>,
    candidates: nat,
) -> Option<McStoreError> {
    if !blank(query) && sees_too_much(membership) {
        Some(McStoreError::Store(StoreError::TooManyValues))
    } else {
        search_fault(query, candidates)
    }
}

impl McStore {
    /// Searches the memories that a project sees at a time, given in seconds, for a text. At
    /// most a hundred are shown, the last changed first. The search fails where the project's
    /// workspace is too large for one statement, and where there is a memory to search and
    /// the query makes too long a pattern.
    pub fn search_visible_memory_contents(
        &self,
        project_path: &str,
        query: &str,
        now_secs: i64,
    ) -> (r: Result<Vec<StoredMemorySearchRow>, McStoreError>)
        ensures
            ({
                let membership = membership_of(self@, project_path@);
                let now_ms = in_millis(now_secs);
                let seen = keep_where(
                    memory_rows(self@, false),
                    rendered(project_path@, membership, now_ms),
                );
                match r {
                    Ok(rows) => {
                        &&& memory_search_fault(query@, membership, seen.len()) is None
                        &&& views(rows@) == (if blank(query@) {
                            Seq::empty()
                        } else {
                            page(
                                sorted::<StoredMemory, RecentOrder>(
                                    keep_where(
                                        memory_rows(self@, false),
                                        found_memory(project_path@, membership, now_ms, query@),
                                    ),
                                ),
                                0,
                                100,
                            ).map_values(|m: StoredMemoryModel| memory_hit(m))
                        })
                    },
                    Err(e) => memory_search_fault(query@, membership, seen.len()) == Some(e),
                }
            }),
    {
        broadcast use group_views;

        if is_blank(query) {
            return Ok(Vec::new());
        }
        let now_ms: i64 = to_millis(now_secs);
        let membership = self.resolve_workspace_membership(project_path);
        if is_seeing_too_much(membership.as_ref()) {
            return Err(McStoreError::Store(StoreError::TooManyValues));
        }
        let pattern = sql_like_pattern(query);
        let all = self.memory_briefs(false);
        if is_overlong(&pattern) {
            let seen = select_rows(
                &all,
                &Rendered { project: project_path, membership: membership.as_ref(), now_ms },
            );
            if seen.len() > 0 {
                return Err(McStoreError::Store(StoreError::PatternTooComplex));
            }
        }
        let test = FoundMemory {
            seen: Rendered { project: project_path, membership: membership.as_ref(), now_ms },
            pattern: &pattern,
        };
        assert(test.accepts() =~= found_memory(
            project_path@,
            membership_of(self@, project_path@),
            now_ms,
            query@,
        ));
        let rows = sort_rows::<StoredMemory, RecentOrder>(select_rows(&all, &test));
        Ok(
            map_rows(
                &page_of(&rows, 0, 100),
                show_memory,
                Ghost(|m: StoredMemoryModel| memory_hit(m)),
            ),
        )
    }

    /// Searches the compartments of a session for a text. At most a hundred are shown, the
    /// latest first. The search fails where the session has a compartment and the query makes
    /// too long a pattern.
    pub fn search_compartments_like(&self, session_id: &str, query: &str) -> (r: Result<
        Vec<StoredCompartmentSearchRow>,
        McStoreError,
    >)
        ensures
            ({
                let own = of_session(self@.compartments, session_id@);
                match r {
                    Ok(rows) => {
                        &&& search_fault(query@, own.len()) is None
                        &&& views(rows@) == (if blank(query@) {
                            Seq::empty()
                        } else {
                            page(
                                sorted::<StoredCompartment, LatestOrder>(
                                    keep_where(own, found_compartment(query@)),
                                ),
                                0,
                                100,
                            ).map_values(|c: StoredCompartmentModel| compartment_hit(c))
                        })
                    },
                    Err(e) => search_fault(query@, own.len()) == Some(e),
                }
            }),
    {
        broadcast use group_views;

        if is_blank(query) {
            return Ok(Vec::new());
        }
        let all = session_rows(&self.compartments, session_id);
        if all.len() > 0 && is_overlong(&sql_like_pattern(query)) {
            return Err(McStoreError::Store(StoreError::PatternTooComplex));
        }
        let rows = sort_rows::<StoredCompartment, LatestOrder>(
            select_rows(&all, &FoundCompartment { query }),
        );
        Ok(
            map_rows(
                &page_of(&rows, 0, 100),
                show_compartment,
                Ghost(|c: StoredCompartmentModel| compartment_hit(c)),
            ),
        )
    }

    /// Searches the notes of a session of a project for a text. At most a hundred are shown,
    /// the last changed first. The search fails where there is such a note and the query
    /// makes too long a pattern.
    pub fn search_notes_like(&self, project_path: &str, session_id: &str, query: &str) -> (r:
        Result<Vec<StoredNoteSearchRow>, McStoreError>)
        ensures
            ({
                let own = keep_where(self@.notes, note_of(project_path@, session_id@));
                match r {
                    Ok(rows) => {
                        &&& search_fault(query@, own.len()) is None
                        &&& views(rows@) == (if blank(query@) {
                            Seq::empty()
                        } else {
                            page(
                                sorted::<StoredNote, NoteOrder>(
                                    keep_where(
                                        self@.notes,
                                        found_note(project_path@, session_id@, query@),
                                    ),
                                ),
                                0,
                                100,
                            ).map_values(|n: StoredNoteModel| note_hit(n))
                        })
                    },
                    Err(e) => search_fault(query@, own.len()) == Some(e),
                }
            }),
    {
        broadcast use group_views;

        if is_blank(query) {
            return Ok(Vec::new());
        }
        if is_overlong(&sql_like_pattern(query)) {
            let own = select_rows(
                &self.notes,
                &NoteOf { project: project_path, session: session_id },
            );
            if own.len() > 0 {
                return Err(McStoreError::Store(StoreError::PatternTooComplex));
            }
        }
        let rows = sort_rows::<StoredNote, NoteOrder>(
            select_rows(
                &self.notes,
                &FoundNote { project: project_path, session: session_id, query },
            ),
        );
        Ok(
            map_rows(
                &page_of(&rows, 0, 100),
                show_note,
                Ghost(|n: StoredNoteModel| note_hit(n)),
            ),
        )
    }
}

} // verus!

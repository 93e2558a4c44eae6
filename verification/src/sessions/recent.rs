//! The sessions that a page of recent sessions shows.

use vstd::prelude::*;

use crate::rows::{group_views, keep_where, select_rows, views, Row, RowTest};
use crate::sessions::scan::Harness;

verus! {

/// How many sessions a page shows.
pub const RECENT_SESSIONS_LIMIT: usize = 10;

/// A session in the list of all sessions.
#[derive(Debug, PartialEq, Eq)]
pub struct SessionRow {
    pub session_id: String,
    /// The harness whose transcripts the session was read from; `None` for a session that
    /// is kept in a database.
    pub transcript: Option<Harness>,
    pub managed: bool,
}

/// What a [`SessionRow`] holds.
#[verifier::ext_equal]
pub struct SessionRowModel {
    pub session_id: Seq<char>,
    pub transcript: Option<Harness>,
    pub managed: bool,
}

impl View for SessionRow {
    type V = SessionRowModel;

    open spec fn view(&self) -> SessionRowModel {
        SessionRowModel {
            session_id: self.session_id@,
            transcript: self.transcript,
            managed: self.managed,
        }
    }
}

impl Row for SessionRow {
    fn dup(&self) -> (r: Self) {
        SessionRow {
            session_id: self.session_id.clone(),
            transcript: self.transcript,
            managed: self.managed,
        }
    }

    fn same(&self, other: &Self) -> (r: bool) {
        self.session_id == other.session_id && self.transcript == other.transcript && self.managed
            == other.managed
    }
}

/// A session that a page shows: one read from transcripts only where it is managed.
pub open spec fn shown() -> spec_fn(SessionRowModel) -> bool {
    |r: SessionRowModel| r.transcript is None || r.managed
}

/// Accepts the sessions that a page shows.
pub struct Shown;

impl RowTest<SessionRow> for Shown {
    open spec fn accepts(&self) -> spec_fn(SessionRowModel) -> bool {
        shown()
    }

    fn test(&self, row: &SessionRow) -> (r: bool) {
        row.transcript.is_none() || row.managed
    }
}

/// The first sessions of a list that a page shows.
pub open spec fn first_shown(rows: Seq<SessionRowModel>) -> Seq<SessionRowModel> {
    let all = keep_where(rows, shown());
    if all.len() <= RECENT_SESSIONS_LIMIT {
        all
    } else {
        all.take(RECENT_SESSIONS_LIMIT as int)
    }
}

/// Picks the sessions that a page shows.
pub fn recent_sessions(rows: &Vec<SessionRow>) -> (r: Vec<SessionRow>)
    ensures
        views(r@) == first_shown(views(rows@)),
{
    broadcast use group_views;

    let mut r = select_rows(rows, &Shown);
    if r.len() > RECENT_SESSIONS_LIMIT {
        r.truncate(RECENT_SESSIONS_LIMIT);
    }
    r
}

} // verus!

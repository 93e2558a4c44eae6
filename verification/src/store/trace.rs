//! Pass traces: per-session breadcrumbs that a rejected pass leaves behind too.

use vstd::prelude::*;

use crate::rows::{find_session, opt_view, put_row, row_of, set_row, Row};
use crate::store::drops::commands_kept;
use crate::store::integrity::{trace_kept, well_formed};
use crate::store::records::{PassTrace, PassTraceModel};
use crate::store::{McStore, McStoreModel};

verus! {

/// How many characters of a rejection are kept.
pub const TRACE_ERROR_CHARS: usize = 2000;

/// The leading characters of an error that are kept.
pub open spec fn capped(error: Seq<char>) -> Seq<char> {
    if error.len() <= TRACE_ERROR_CHARS {
        error
    } else {
        error.take(TRACE_ERROR_CHARS as int)
    }
}

/// Cuts an error to the characters that are kept.
pub fn capped_trace_error(error: &str) -> (r: String)
    ensures
        r@ == capped(error@),
{
    if error.unicode_len() <= TRACE_ERROR_CHARS {
        error.to_owned()
    } else {
        error.substring_char(0, TRACE_ERROR_CHARS).to_owned()
    }
}

/// The trace of a session that has none yet.
pub open spec fn blank_trace() -> PassTraceModel {
    PassTraceModel {
        last_received_at_ms: 0,
        last_completed_at_ms: 0,
        last_reject_error: None,
        last_reject_at_ms: None,
        reject_count: 0,
        receive_count: 0,
    }
}

/// The trace of a session, blank where it has none.
pub open spec fn trace_of(s: McStoreModel, session: Seq<char>) -> PassTraceModel {
    match row_of(s.traces, session) {
        Some(t) => t,
        None => blank_trace(),
    }
}

impl McStore {
    fn trace_or_blank(&self, session_id: &str) -> (r: PassTrace)
        ensures
            r@ == trace_of(self@, session_id@),
    {
        match find_session(&self.traces, session_id) {
            Some(i) => self.traces[i].row.dup(),
            None => PassTrace {
                last_received_at_ms: 0,
                last_completed_at_ms: 0,
                last_reject_error: None,
                last_reject_at_ms: None,
                reject_count: 0,
                receive_count: 0,
            },
        }
    }

    /// Records that a request of the session was accepted.
    pub fn trace_pass_received(&mut self, session_id: &str, now_ms: i64)
        requires
            trace_of(old(self)@, session_id@).receive_count < u64::MAX,
        ensures
            final(self)@ == (McStoreModel {
                traces: put_row(
                    old(self)@.traces,
                    session_id@,
                    PassTraceModel {
                        last_received_at_ms: now_ms,
                        receive_count: (trace_of(old(self)@, session_id@).receive_count + 1) as u64,
                        ..trace_of(old(self)@, session_id@)
                    },
                ),
                ..old(self)@
            }),
            well_formed(old(self)@) ==> well_formed(final(self)@),
            commands_kept(old(self)@, final(self)@),
    {
        let mut row = self.trace_or_blank(session_id);
        row.last_received_at_ms = now_ms;
        row.receive_count = row.receive_count + 1;
        proof {
            if well_formed(old(self)@) {
                trace_kept(old(self)@, session_id@, row@);
            }
        }
        set_row(&mut self.traces, session_id, row);
    }

    /// Records that a request of the session finished.
    pub fn trace_pass_completed(&mut self, session_id: &str, now_ms: i64)
        ensures
            final(self)@ == (McStoreModel {
                traces: put_row(
                    old(self)@.traces,
                    session_id@,
                    PassTraceModel {
                        last_completed_at_ms: now_ms,
                        ..trace_of(old(self)@, session_id@)
                    },
                ),
                ..old(self)@
            }),
            well_formed(old(self)@) ==> well_formed(final(self)@),
            commands_kept(old(self)@, final(self)@),
    {
        let mut row = self.trace_or_blank(session_id);
        row.last_completed_at_ms = now_ms;
        proof {
            if well_formed(old(self)@) {
                trace_kept(old(self)@, session_id@, row@);
            }
        }
        set_row(&mut self.traces, session_id, row);
    }

    /// Records that a request of the session was rejected.
    pub fn trace_pass_rejected(&mut self, session_id: &str, error: &str, now_ms: i64)
        requires
            trace_of(old(self)@, session_id@).reject_count < u64::MAX,
        ensures
            final(self)@ == (McStoreModel {
                traces: put_row(
                    old(self)@.traces,
                    session_id@,
                    PassTraceModel {
                        last_reject_error: Some(capped(error@)),
                        last_reject_at_ms: Some(now_ms),
                        reject_count: (trace_of(old(self)@, session_id@).reject_count + 1) as u64,
                        ..trace_of(old(self)@, session_id@)
                    },
                ),
                ..old(self)@
            }),
            well_formed(old(self)@) ==> well_formed(final(self)@),
            commands_kept(old(self)@, final(self)@),
    {
        let mut row = self.trace_or_blank(session_id);
        row.last_reject_error = Some(capped_trace_error(error));
        row.last_reject_at_ms = Some(now_ms);
        row.reject_count = row.reject_count + 1;
        proof {
            if well_formed(old(self)@) {
                trace_kept(old(self)@, session_id@, row@);
            }
        }
        set_row(&mut self.traces, session_id, row);
    }

    /// Reads the trace of a session.
    pub fn load_pass_trace(&self, session_id: &str) -> (r: Option<PassTrace>)
        ensures
            opt_view(r) == row_of(self@.traces, session_id@),
    {
        match find_session(&self.traces, session_id) {
            Some(i) => Some(self.traces[i].row.dup()),
            None => None,
        }
    }
}

} // verus!

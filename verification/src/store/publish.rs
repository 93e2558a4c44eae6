//! Publishing what a historian run produced.

use vstd::prelude::*;

use crate::meta::{
    fresh_historian, idle_historian_after_success, phase_name, HistorianDurableStateModel,
    HistorianPhase, ModuleMetaModel,
};
use crate::rows::{find_session, group_views, keyed_all, of_session, row_of, set_row, views, Row};
use crate::store::cache::{next_version, version_left, with_cache, LAST_ROW_VERSION};
use crate::store::compartments::{max_sequence, renumbered, sequences_left};
use crate::store::drops::commands_kept;
use crate::store::errors::{
    HistorianPublishError, HistorianPublishErrorModel, McStoreError, StoreError,
};
use crate::store::facts::{promoted_memories, promoted_refs, promotion_failure, with_promoted};
use crate::store::integrity::{cache_kept, well_formed};
use crate::store::records::{
    CacheRow, CacheRowModel, FactCandidate, HistorianPublishPredicate,
    HistorianPublishPredicateModel, HistorianPublishResult, HistorianPublishResultModel,
    StoredCompartment,
};
use crate::store::transcripts::{inflated, kept_blob, with_transcripts};
use crate::store::{McStore, McStoreModel};
use crate::text::{owned, same_text};

verus! {

/// What a historian run asks to be published.
pub struct HistorianPublishRequest<'a> {
    pub session_id: &'a str,
    pub expected_row_version: Option<u64>,
    pub expected_revert_epoch: u64,
    pub predicate: &'a HistorianPublishPredicate,
    pub project_path: &'a str,
    pub compartments: &'a [StoredCompartment],
    pub facts: &'a [FactCandidate],
    pub publication_floor_ordinal: u64,
    pub chunk_transcript: Option<&'a str>,
}

/// Whether a session waits for a publication.
pub open spec fn awaits_publication(phase: HistorianPhase) -> bool {
    phase == HistorianPhase::Publishing || phase == HistorianPhase::AwaitingProducer
}

/// Whether a producer is the one that the session waits for.
pub open spec fn is_awaited(h: HistorianDurableStateModel, p: HistorianPublishPredicateModel) -> bool {
    &&& h.firing_seq == p.firing_seq
    &&& h.producer_run_id == Some(p.producer_run_id)
    &&& h.chunk_fingerprint == p.chunk_fingerprint
}

/// Why a publication is refused before anything is written, if it is.
pub open spec fn publish_refusal(
    row: Option<CacheRowModel>,
    request: HistorianPublishRequest,
) -> Option<HistorianPublishErrorModel> {
    match row {
        None => Some(HistorianPublishErrorModel::InvalidState { state: "missing"@ }),
        Some(row) => if request.expected_row_version != Some(row.row_version) {
            Some(
                HistorianPublishErrorModel::CasConflict {
                    expected: request.expected_row_version,
                    found: row.row_version,
                    reason: None,
                },
            )
        } else if !awaits_publication(row.meta.historian.state) {
            Some(
                HistorianPublishErrorModel::InvalidState {
                    state: phase_name(row.meta.historian.state),
                },
            )
        } else if !is_awaited(row.meta.historian, request.predicate@) {
            Some(
                HistorianPublishErrorModel::StateMismatch {
                    expected: request.predicate@,
                    found: row.meta.historian,
                },
            )
        } else if row.meta.revert_epoch != request.expected_revert_epoch {
            Some(
                HistorianPublishErrorModel::CasConflict {
                    expected: request.expected_row_version,
                    found: row.row_version,
                    reason: Some("revert epoch mismatch (session was re-cut mid-firing)"@),
                },
            )
        } else {
            None
        },
    }
}

/// Why the tables refuse what an accepted publication writes, if they do.
pub open spec fn publish_failure(s: McStoreModel, request: HistorianPublishRequest) -> Option<
    StoreError,
> {
    let last = max_sequence(of_session(s.compartments, request.session_id@));
    if !version_left(s, request.session_id@) || !sequences_left(last, request.compartments@.len()) {
        Some(StoreError::Exhausted)
    } else {
        promotion_failure(s, request.project_path@, views(request.facts@))
    }
}

/// The first ordinal that a later publication may start at.
pub open spec fn raised_floor(floor: Option<u64>, given: u64) -> u64 {
    let old = match floor {
        Some(f) => f,
        None => 1,
    };
    let new = if given < 1 {
        1
    } else {
        given
    };
    if old >= new {
        old
    } else {
        new
    }
}

/// The record after a publication: the historian is idle again.
pub open spec fn published_meta(meta: ModuleMetaModel, floor: u64) -> ModuleMetaModel {
    ModuleMetaModel {
        publication_floor_ordinal: Some(raised_floor(meta.publication_floor_ordinal, floor)),
        historian: HistorianDurableStateModel {
            firing_seq: meta.historian.firing_seq,
            ..fresh_historian()
        },
        ..meta
    }
}

/// The store after a publication.
pub open spec fn with_published(
    s: McStoreModel,
    request: HistorianPublishRequest,
    row: CacheRowModel,
) -> McStoreModel {
    let session = request.session_id@;
    let cs = views(request.compartments@);
    let last = max_sequence(of_session(s.compartments, session));
    let grown = McStoreModel {
        compartments: s.compartments + keyed_all(session, renumbered(cs, last)),
        transcripts: match request.chunk_transcript {
            Some(text) => with_transcripts(s.transcripts, session, (last + 1) as i64, cs, text@),
            None => s.transcripts,
        },
        ..s
    };
    with_cache(
        with_promoted(grown, request.project_path@, views(request.facts@)),
        session,
        next_version(s, session),
        row.core,
        published_meta(row.meta, request.publication_floor_ordinal),
    )
}

/// What a publication returns, and the store behind it.
pub open spec fn publication(s: McStoreModel, request: HistorianPublishRequest) -> Result<
    (HistorianPublishResultModel, McStoreModel),
    HistorianPublishErrorModel,
> {
    let row = row_of(s.cache, request.session_id@);
    match (publish_refusal(row, request), row) {
        (Some(e), _) => Err(e),
        (None, None) => Err(HistorianPublishErrorModel::InvalidState { state: "missing"@ }),
        (None, Some(row)) => match publish_failure(s, request) {
            Some(e) => Err(HistorianPublishErrorModel::Store(McStoreError::Store(e))),
            None => Ok(
                (
                    HistorianPublishResultModel {
                        row_version: next_version(s, request.session_id@),
                        promoted_refs: promoted_refs(
                            promoted_memories(s, request.project_path@, views(request.facts@)),
                        ),
                    },
                    with_published(s, request, row),
                ),
            ),
        },
    }
}

/// A publication is accepted at most once: behind it the historian is idle, so that the same
/// request, at whatever version, is refused.
pub proof fn a_publication_happens_once(
    s: McStoreModel,
    request: HistorianPublishRequest,
    again: HistorianPublishRequest,
)
    requires
        publication(s, request) is Ok,
        again.session_id@ == request.session_id@,
    ensures
        publication(publication(s, request)->Ok_0.1, again) is Err,
{
    let session = request.session_id@;
    let row = row_of(s.cache, session).unwrap();
    let after = with_published(s, request, row);
    let written = CacheRowModel {
        row_version: next_version(s, session),
        core: row.core,
        meta: published_meta(row.meta, request.publication_floor_ordinal),
    };
    crate::rows::row_of_put(s.cache, session, written, session);
    assert(row_of(after.cache, session) == Some(written));
    assert(!awaits_publication(written.meta.historian.state));
}

impl McStore {
    fn refuse_publication(&self, request: &HistorianPublishRequest<'_>) -> (r: Result<
        CacheRow,
        HistorianPublishError,
    >)
        ensures
            match r {
                Ok(row) => {
                    &&& row_of(self@.cache, request.session_id@) == Some(row@)
                    &&& publish_refusal(
                        row_of(self@.cache, request.session_id@),
                        *request,
                    ) is None
                },
                Err(e) => publish_refusal(
                    row_of(self@.cache, request.session_id@),
                    *request,
                ) == Some(e@),
            },
    {
        let row = match find_session(&self.cache, request.session_id) {
            Some(at) => self.cache[at].row.dup(),
            None => {
                return Err(HistorianPublishError::InvalidState { state: owned("missing") });
            },
        };
        let same: bool = match request.expected_row_version {
            Some(v) => v == row.row_version,
            None => false,
        };
        if !same {
            return Err(
                HistorianPublishError::CasConflict {
                    expected: request.expected_row_version,
                    found: row.row_version,
                    reason: None,
                },
            );
        }
        let historian = &row.meta.historian;
        if !(historian.state == HistorianPhase::Publishing || historian.state
            == HistorianPhase::AwaitingProducer) {
            return Err(
                HistorianPublishError::InvalidState { state: owned(historian.state.as_str()) },
            );
        }
        let run: bool = match &historian.producer_run_id {
            Some(id) => same_text(id, &request.predicate.producer_run_id),
            None => false,
        };
        if !(historian.firing_seq == request.predicate.firing_seq && run && same_text(
            &historian.chunk_fingerprint,
            &request.predicate.chunk_fingerprint,
        )) {
            return Err(
                HistorianPublishError::StateMismatch {
                    expected: request.predicate.dup(),
                    found: historian.dup(),
                },
            );
        }
        if row.meta.revert_epoch != request.expected_revert_epoch {
            return Err(
                HistorianPublishError::CasConflict {
                    expected: request.expected_row_version,
                    found: row.row_version,
                    reason: Some(owned("revert epoch mismatch (session was re-cut mid-firing)")),
                },
            );
        }
        Ok(row)
    }

    /// Publishes a historian chunk: appends its compartments, keeps its transcript, promotes
    /// its facts, raises the publication floor and makes the historian idle. What was
    /// rendered is untouched.
    pub fn publish_historian_chunk(&mut self, request: HistorianPublishRequest<'_>) -> (r: Result<
        HistorianPublishResult,
        HistorianPublishError,
    >)
        ensures
            match (r, publication(old(self)@, request)) {
                (Ok(result), Ok((returned, after))) => result@ == returned && final(self)@ == after,
                (Err(e), Err(refused)) => e@ == refused && final(self)@ == old(self)@,
                _ => false,
            },
            r is Ok && request.compartments@.len() > 0 ==> (request.chunk_transcript matches Some(
                text,
            ) ==> (kept_blob(text@) matches Some(blob) ==> inflated(blob) == Some(text@))),
            well_formed(old(self)@) ==> well_formed(final(self)@),
            commands_kept(old(self)@, final(self)@),
    {
        broadcast use group_views;

        let ghost s = self@;
        let ghost session = request.session_id@;
        let ghost facts = views(request.facts@);
        let ghost cs = views(request.compartments@);
        let row = match self.refuse_publication(&request) {
            Ok(row) => row,
            Err(e) => {
                return Err(e);
            },
        };
        let last: i64 = self.max_compartment_seq(request.session_id);
        if row.row_version >= LAST_ROW_VERSION || (last as i128) + (
        request.compartments.len() as i128) > i64::MAX as i128 {
            return Err(HistorianPublishError::Store(McStoreError::Store(StoreError::Exhausted)));
        }
        let ghost grown = McStoreModel {
            compartments: s.compartments + keyed_all(session, renumbered(cs, last)),
            transcripts: match request.chunk_transcript {
                Some(text) => with_transcripts(s.transcripts, session, (last + 1) as i64, cs, text@),
                None => s.transcripts,
            },
            ..s
        };
        let promoted_refs = match self.promote_facts(request.project_path, request.facts) {
            Ok(refs) => refs,
            Err(e) => {
                return Err(HistorianPublishError::Store(e));
            },
        };
        let ghost promoted = self@;
        let appended = self.append_compartments(request.session_id, request.compartments);
        assert(appended is Ok);
        match request.chunk_transcript {
            Some(transcript) => {
                if request.compartments.len() > 0 {
                    self.keep_transcripts(
                        request.session_id,
                        last + 1,
                        request.compartments,
                        transcript,
                    );
                }
            },
            None => {},
        }
        assert(self@ == with_promoted(grown, request.project_path@, facts));
        let mut meta = row.meta.dup();
        let old_floor: u64 = match meta.publication_floor_ordinal {
            Some(f) => f,
            None => 1,
        };
        let given: u64 = if request.publication_floor_ordinal < 1 {
            1
        } else {
            request.publication_floor_ordinal
        };
        meta.publication_floor_ordinal = Some(
            if old_floor >= given {
                old_floor
            } else {
                given
            },
        );
        meta.historian = idle_historian_after_success(row.meta.historian.firing_seq);
        let next: u64 = row.row_version + 1;
        proof {
            if well_formed(s) {
                cache_kept(
                    self@,
                    session,
                    CacheRowModel { row_version: next, core: row@.core, meta: meta@ },
                );
            }
        }
        set_row(
            &mut self.cache,
            request.session_id,
            CacheRow { row_version: next, core: row.core.dup(), meta },
        );
        Ok(HistorianPublishResult { row_version: next, promoted_refs })
    }
}

} // verus!

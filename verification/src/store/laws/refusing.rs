//! What the store refuses, and what it takes.

use vstd::prelude::*;

use crate::meta::HistorianPhase;
use crate::rows::{
    accepted_is_kept, first_where, first_where_first, keep_where, kept_is_accepted, row_of, sorted,
};
use crate::store::McStoreModel;
use crate::store::compartments::{flat_block_id, import_fault, seed_pair_fault};
use crate::store::errors::{
    HistorianPublishErrorModel, McStoreError, StateImportValidationError, StoreError,
};
use crate::store::facts::seeded;
use crate::store::laws::rows::a_reading_holds_what_is_accepted;
use crate::store::memories::{memory_by_id, saying, with_id};
use crate::store::merging::mergeable;
use crate::store::mutations::loggable;
use crate::store::publish::{publish_refusal, HistorianPublishRequest};
use crate::store::reading::{active_user_memory, read_paths, shadow_path, PromotionOrder};
use crate::store::records::{
    CacheRowModel, StoredCompartmentModel, StoredMemoryFullModel, UserMemoryRow, UserMemoryRowModel,
};
use crate::store::revert::cut_conflicts;
use crate::store::search::search_fault;
use crate::text::blank;

verus! {

// --- publications -------------------------------------------------------------------------

/// Whether the session of a row waits for the producer of a request.
pub open spec fn waits_for(row: CacheRowModel, request: HistorianPublishRequest) -> bool {
    let h = row.meta.historian;
    &&& h.firing_seq == request.predicate@.firing_seq
    &&& h.producer_run_id == Some(request.predicate@.producer_run_id)
    &&& h.chunk_fingerprint == request.predicate@.chunk_fingerprint
}

/// A publication is refused exactly where its session has no row or one of another version,
/// waits for no publication or for that of another producer, or was cut back meanwhile.
pub proof fn only_what_is_not_awaited_is_refused(
    row: CacheRowModel,
    request: HistorianPublishRequest,
)
    ensures
        ({
            let refusal = publish_refusal(Some(row), request);
            let current = request.expected_row_version == Some(row.row_version);
            let open = row.meta.historian.state == HistorianPhase::Publishing
                || row.meta.historian.state == HistorianPhase::AwaitingProducer;
            let uncut = row.meta.revert_epoch == request.expected_revert_epoch;
            &&& refusal is None <==> current && open && waits_for(row, request) && uncut
            &&& !current ==> refusal == Some(
                HistorianPublishErrorModel::CasConflict {
                    expected: request.expected_row_version,
                    found: row.row_version,
                    reason: None,
                },
            )
            &&& current && !open <==> (
            refusal matches Some(HistorianPublishErrorModel::InvalidState { state: _ }))
            &&& current && open && !waits_for(row, request) ==> refusal == Some(
                HistorianPublishErrorModel::StateMismatch {
                    expected: request.predicate@,
                    found: row.meta.historian,
                },
            )
            &&& current && open && waits_for(row, request) && !uncut ==> (
            refusal matches Some(
                HistorianPublishErrorModel::CasConflict { expected: _, found: _, reason: Some(_) },
            ))
            &&& publish_refusal(None, request) is Some
        }),
{
}

// --- imports and seeds ------------------------------------------------------------------------

/// A compartment of an import is at fault exactly where its range is reversed, its first
/// text is blank, its end names no block, or it does not follow the one before it. The fault
/// that is told is the first of these.
pub proof fn a_fault_tells_what_is_wrong(cs: Seq<StoredCompartmentModel>, i: int)
    requires
        0 <= i < cs.len(),
    ensures
        ({
            let c = cs[i];
            let reversed = c.start_message > c.end_message;
            let empty = c.p1 is None || (c.p1 matches Some(t) && blank(t));
            let nowhere = flat_block_id(c.end_message_id) is None;
            let unordered = i > 0 && c.sequence <= cs[i - 1].sequence;
            let overlaps = i > 0 && c.start_message <= cs[i - 1].end_message;
            let fault = import_fault(cs, i);
            &&& fault is None <==> !reversed && !empty && !nowhere && !unordered && !overlaps
            &&& reversed <==> (
            fault matches Some(StateImportValidationError::RangeInvalid { sequence: _ }))
            &&& !reversed && empty <==> (
            fault matches Some(StateImportValidationError::P1Empty { sequence: _ }))
            &&& !reversed && !empty && nowhere <==> (
            fault matches Some(StateImportValidationError::EndMessageIdInvalid { sequence: _ }))
            &&& !reversed && !empty && !nowhere && unordered ==> fault == Some(
                StateImportValidationError::SeqNotIncreasing {
                    previous: cs[i - 1].sequence,
                    current: c.sequence,
                },
            )
            &&& !reversed && !empty && !nowhere && !unordered && overlaps ==> fault == Some(
                StateImportValidationError::RangesOverlap {
                    previous: cs[i - 1].sequence,
                    current: c.sequence,
                },
            )
        }),
{
}

/// Two neighbours of a seed are at fault exactly where they share a sequence or overlap.
pub proof fn neighbours_of_a_seed_are_apart(a: StoredCompartmentModel, b: StoredCompartmentModel)
    ensures
        seed_pair_fault(a, b) is None <==> a.sequence != b.sequence && a.end_message
            < b.start_message,
{
}

/// A memory is seeded exactly where no memory has its number and none of its project and
/// category its hash. It is then there behind all others, and its number is not given again.
pub proof fn a_seed_takes_a_free_number(
    before: McStoreModel,
    after: McStoreModel,
    done: bool,
    m: StoredMemoryFullModel,
)
    requires
        seeded(before, after, done, m),
    ensures
        done <==> forall|i: int|
            0 <= i < before.memories.len() ==> (#[trigger] before.memories[i]).id != m.id && !(
            before.memories[i].project_path == m.project_path && before.memories[i].category
                == m.category && before.memories[i].normalized_hash == m.normalized_hash),
        done ==> after.memories.len() == before.memories.len() + 1 && after.memories.last() == m
            && after.memories.drop_last() == before.memories && after.last_memory_id >= m.id
            && after.last_memory_id >= before.last_memory_id && (after.last_memory_id == m.id
            || after.last_memory_id == before.last_memory_id),
        !done ==> after == before,
        after.mutations == before.mutations,
{
    let rows = before.memories;
    let p = with_id(m.id);
    let q = saying(m.project_path, m.category, m.normalized_hash);
    first_where_first(rows, p);
    first_where_first(rows, q);
    if done {
        assert(after.memories.drop_last() =~= before.memories);
        assert forall|i: int| 0 <= i < rows.len() implies (#[trigger] rows[i]).id != m.id && !(
        rows[i].project_path == m.project_path && rows[i].category == m.category
            && rows[i].normalized_hash == m.normalized_hash) by {
            assert(!p(rows[i]));
            assert(!q(rows[i]));
        }
    } else {
        if let Some(i) = first_where(rows, p) {
            assert(rows[i].id == m.id);
        }
        if let Some(i) = first_where(rows, q) {
            assert(rows[i].normalized_hash == m.normalized_hash);
        }
    }
}

/// The log takes updates and what takes a memory away, and no other kind.
pub proof fn the_log_takes_four_kinds(kind: Seq<char>)
    ensures
        loggable(kind) <==> kind == "archive"@ || kind == "delete"@ || kind == "superseded"@ || kind
            == "update"@,
{
}

// --- merges ---------------------------------------------------------------------------------

/// Whether a memory of a project is live and nothing replaced it.
pub open spec fn is_live_in(m: StoredMemoryFullModel, project: Seq<char>) -> bool {
    m.project_path == project && m.superseded_by_memory_id is None && (m.status == "active"@
        || m.status == "permanent"@)
}

/// Memories may be merged exactly where target and sources are live memories of the project
/// in one category, and the sources are some, differ, and do not hold the target.
pub proof fn live_memories_of_a_category_merge(
    rows: Seq<StoredMemoryFullModel>,
    project: Seq<char>,
    target: StoredMemoryFullModel,
    sources: Seq<i64>,
)
    ensures
        mergeable(rows, project, target, sources) <==> {
            &&& is_live_in(target, project)
            &&& sources.len() > 0
            &&& forall|i: int, j: int|
                0 <= i < j < sources.len() ==> #[trigger] sources[i] != #[trigger] sources[j]
            &&& forall|i: int|
                0 <= i < sources.len() ==> #[trigger] sources[i] != target.id && (memory_by_id(
                    rows,
                    sources[i],
                ) matches Some(m) && is_live_in(m, project) && m.category == target.category)
        },
{
    if mergeable(rows, project, target, sources) {
        assert forall|i: int| 0 <= i < sources.len() implies #[trigger] sources[i] != target.id by {
            assert(sources.contains(sources[i]));
        }
    }
}

// --- searches and readings --------------------------------------------------------------------

/// A search fails exactly where it asks for something, there is a row to hold it against, and
/// its pattern is too long.
pub proof fn a_search_fails_by_its_length(query: Seq<char>, candidates: nat)
    ensures
        search_fault(query, candidates) is Some <==> !blank(query) && candidates > 0
            && crate::store::limits::utf8_len(crate::like::like_pattern(query))
            > crate::store::limits::MAX_PATTERN_BYTES,
        search_fault(query, candidates) matches Some(e) ==> e == McStoreError::Store(
            StoreError::PatternTooComplex,
        ),
{
}

/// A read of a union with a shadow project reads its shadow projects, and any other all.
pub proof fn a_shadow_reads_shadows(paths: Seq<Seq<char>>, path: Seq<char>)
    ensures
        (exists|i: int| 0 <= i < paths.len() && shadow_path(#[trigger] paths[i])) ==> (read_paths(
            paths,
        ).contains(path) <==> paths.contains(path) && shadow_path(path)),
        !(exists|i: int| 0 <= i < paths.len() && shadow_path(#[trigger] paths[i])) ==> read_paths(
            paths,
        ) == paths,
{
    let p = |x: Seq<char>| shadow_path(x);
    kept_is_accepted(paths, p);
    if paths.contains(path) && shadow_path(path) {
        accepted_is_kept(paths, p, path);
    }
}

/// The active user memories are read, and no other.
pub proof fn active_user_memories_are_read(
    rows: Seq<UserMemoryRowModel>,
    content: Seq<char>,
)
    ensures
        sorted::<UserMemoryRow, PromotionOrder>(keep_where(rows, active_user_memory())).map_values(
            |m: UserMemoryRowModel| m.content,
        ).contains(content) <==> exists|i: int|
            0 <= i < rows.len() && (#[trigger] rows[i]).content == content && rows[i].status
                == "active"@,
{
    let p = active_user_memory();
    let ordered = sorted::<UserMemoryRow, PromotionOrder>(keep_where(rows, p));
    let read = ordered.map_values(|m: UserMemoryRowModel| m.content);
    if read.contains(content) {
        let k = choose|k: int| 0 <= k < read.len() && read[k] == content;
        assert(ordered.contains(ordered[k]));
        a_reading_holds_what_is_accepted::<UserMemoryRow, PromotionOrder>(rows, p, ordered[k]);
        let i = choose|i: int| 0 <= i < rows.len() && rows[i] == ordered[k];
        assert(rows[i].content == content);
    }
    if exists|i: int|
        0 <= i < rows.len() && (#[trigger] rows[i]).content == content && rows[i].status
            == "active"@ {
        let i = choose|i: int|
            0 <= i < rows.len() && (#[trigger] rows[i]).content == content && rows[i].status
                == "active"@;
        assert(rows.contains(rows[i]));
        a_reading_holds_what_is_accepted::<UserMemoryRow, PromotionOrder>(rows, p, rows[i]);
        let k = choose|k: int| 0 <= k < ordered.len() && ordered[k] == rows[i];
        assert(read[k] == content);
    }
}

/// A commit with a cut is refused where the row is not the expected one, and where there is
/// no row to cut.
pub proof fn a_cut_needs_its_row(
    s: McStoreModel,
    session: Seq<char>,
    expected: Option<u64>,
    cut: Option<i64>,
)
    ensures
        cut_conflicts(s, session, expected, cut) <==> match row_of(s.cache, session) {
            Some(row) => expected != Some(row.row_version),
            None => expected is Some || cut is Some,
        },
{
}

} // verus!

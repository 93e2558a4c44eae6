//! What changes to the history of a session are for.

use vstd::prelude::*;

use crate::meta::{CoreStateModel, ModuleMetaModel};
use crate::rows::{find_where, keep_where, of_session, row_of, row_of_put, sorted, KeyedModel};
use crate::store::McStoreModel;
use crate::store::cache::{loaded, next_version, version_found, with_cache};
use crate::store::compartments::{
    at_sequence, by_sequence, flat_block_id, last_hash, seed_boundary, seed_chain_fault,
    seed_ranges_ordered, with_upserted, SequenceOrder,
};
use crate::store::import::has_durable_state;
use crate::store::laws::rows::{a_reading_holds_what_is_accepted, what_is_put_is_found};
use crate::store::records::{
    CacheRowModel, StoredCompartment, StoredCompartmentModel, TranscriptRow, TranscriptRowModel,
};
use crate::store::revert::{
    a_cut_keeps_the_prefix, dropped, recut_meta, surviving, transcript_stays, truncation, up_to,
};
use crate::store::transcripts::{
    overlapping, transcript_at, transcript_row, transcripts_in, unpacked, with_rows, ChunkOrder,
};

verus! {

// --- the cache row ------------------------------------------------------------------------

/// What is written of a session is what is then loaded, and what is loaded of other sessions
/// stays.
pub proof fn what_is_written_is_loaded(
    s: McStoreModel,
    session: Seq<char>,
    row_version: u64,
    core: CoreStateModel,
    meta: ModuleMetaModel,
    other: Seq<char>,
)
    ensures
        ({
            let after = with_cache(s, session, row_version, core, meta);
            &&& loaded(after, session).core == core
            &&& loaded(after, session).meta == meta
            &&& loaded(after, session).row_version == Some(row_version)
            &&& other != session ==> loaded(after, other) == loaded(s, other)
        }),
{
    row_of_put(s.cache, session, CacheRowModel { row_version, core, meta }, other);
}

/// The version that a write gives a session's row is the one behind the row's, and the first
/// where there is no row.
pub proof fn versions_go_on_one_by_one(s: McStoreModel, session: Seq<char>)
    requires
        version_found(s, session) < u64::MAX,
    ensures
        match loaded(s, session).row_version {
            Some(v) => next_version(s, session) == v + 1,
            None => next_version(s, session) == 1,
        },
{
}

// --- compartments by sequence ---------------------------------------------------------------

/// Whether no compartment behind a place has the sequence of the one there.
pub open spec fn last_of_its_sequence(cs: Seq<StoredCompartmentModel>, i: int) -> bool {
    forall|j: int| i < j < cs.len() ==> (#[trigger] cs[j]).sequence != cs[i].sequence
}

/// Compartments that are put are there afterwards, each under its sequence; of those with the
/// same sequence the last. What another session has, or the session under another sequence,
/// stays.
pub proof fn put_compartments_are_there(
    table: Seq<KeyedModel<StoredCompartmentModel>>,
    session: Seq<char>,
    cs: Seq<StoredCompartmentModel>,
    owner: Seq<char>,
    sequence: i64,
)
    ensures
        ({
            let after = with_upserted(table, session, cs);
            let found = find_where(after, at_sequence(owner, sequence));
            &&& forall|i: int|
                0 <= i < cs.len() && owner == session && (#[trigger] cs[i]).sequence == sequence
                    && last_of_its_sequence(cs, i) ==> found == Some(
                    KeyedModel { session, row: cs[i] },
                )
            &&& (owner != session || forall|i: int|
                0 <= i < cs.len() ==> (#[trigger] cs[i]).sequence != sequence) ==> found
                == find_where(table, at_sequence(owner, sequence))
        }),
    decreases cs.len(),
{
    if cs.len() > 0 {
        let rest = cs.drop_last();
        let last = cs.last();
        let n = cs.len() - 1;
        let before = with_upserted(table, session, rest);
        put_compartments_are_there(table, session, rest, owner, sequence);
        let p = at_sequence(session, last.sequence);
        let q = at_sequence(owner, sequence);
        what_is_put_is_found(before, p, KeyedModel { session, row: last }, q);
        assert(cs[n] == last);
        if owner == session && last.sequence == sequence {
            assert(p =~= q);
        } else {
            assert forall|x: KeyedModel<StoredCompartmentModel>| #[trigger] p(x) implies !q(x) by {}
        }
        assert forall|i: int|
            0 <= i < cs.len() && owner == session && (#[trigger] cs[i]).sequence == sequence
                && last_of_its_sequence(cs, i) implies find_where(
            with_upserted(table, session, cs),
            q,
        ) == Some(KeyedModel { session, row: cs[i] }) by {
            if i < n {
                assert(rest[i] == cs[i]);
                assert(cs[n].sequence != cs[i].sequence);
                assert forall|j: int| i < j < rest.len() implies (#[trigger] rest[j]).sequence
                    != rest[i].sequence by {
                    assert(rest[j] == cs[j]);
                }
                assert(last_of_its_sequence(rest, i));
            }
        }
        if forall|i: int| 0 <= i < cs.len() ==> (#[trigger] cs[i]).sequence != sequence {
            assert forall|i: int| 0 <= i < rest.len() implies (#[trigger] rest[i]).sequence
                != sequence by {
                assert(rest[i] == cs[i]);
            }
        }
    }
}

// --- cuts ---------------------------------------------------------------------------------

/// A cut that drops something raises the epoch of the session and the version of its row by
/// one, takes its compartments and its transcripts behind the sequence away and no others,
/// and leaves what is rendered. One that drops nothing changes nothing.
pub proof fn a_cut_takes_what_lies_behind(
    s: McStoreModel,
    session: Seq<char>,
    keep: i64,
    other: Seq<char>,
)
    requires
        row_of(s.cache, session) is Some,
        version_found(s, session) < u64::MAX,
    ensures
        ({
            let row = row_of(s.cache, session)->0;
            let (after, outcome) = truncation(s, session, keep, row);
            let some = exists|i: int|
                0 <= i < of_session(s.compartments, session).len() && (#[trigger] of_session(
                    s.compartments,
                    session,
                )[i]).sequence > keep;
            &&& !some ==> after == s && outcome.row_version == row.row_version
                && outcome.revert_epoch == row.meta.revert_epoch
            &&& some ==> {
                &&& row_of(after.cache, session) matches Some(now)
                &&& now.row_version == row.row_version + 1
                &&& now.core == row.core
                &&& now.meta == (ModuleMetaModel {
                    revert_epoch: now.meta.revert_epoch,
                    last_recut: now.meta.last_recut,
                    ..row.meta
                })
                &&& row.meta.revert_epoch < u64::MAX ==> now.meta.revert_epoch
                    == row.meta.revert_epoch + 1
                &&& now.meta.last_recut is Some
                &&& outcome.row_version == now.row_version
                &&& outcome.revert_epoch == now.meta.revert_epoch
                &&& outcome.last_recut == now.meta.last_recut
                &&& of_session(after.compartments, session) == keep_where(
                    of_session(s.compartments, session),
                    |c: StoredCompartmentModel| c.sequence <= keep,
                )
                &&& forall|t: KeyedModel<TranscriptRowModel>| #[trigger]
                    after.transcripts.contains(t) <==> (s.transcripts.contains(t) && !(t.session
                        == session && t.row.compartment_seq > keep))
            }
            &&& other != session ==> {
                &&& row_of(after.cache, other) == row_of(s.cache, other)
                &&& of_session(after.compartments, other) == of_session(s.compartments, other)
            }
        }),
{
    let row = row_of(s.cache, session)->0;
    let rows = of_session(s.compartments, session);
    let (after, outcome) = truncation(s, session, keep, row);
    let p = crate::store::revert::behind(keep);
    crate::rows::sorted_len::<StoredCompartment, SequenceOrder>(keep_where(rows, p));
    crate::rows::kept_is_accepted(rows, p);
    let some = exists|i: int| 0 <= i < rows.len() && (#[trigger] rows[i]).sequence > keep;
    if some {
        let i = choose|i: int| 0 <= i < rows.len() && (#[trigger] rows[i]).sequence > keep;
        crate::rows::accepted_is_kept(rows, p, rows[i]);
    } else if dropped(s, session, keep).len() > 0 {
        let x = keep_where(rows, p)[0];
        assert(rows.contains(x) && p(x));
        let i = choose|i: int| 0 <= i < rows.len() && rows[i] == x;
        assert(rows[i].sequence > keep);
    }
    if some {
        let meta = recut_meta(row.meta, dropped(s, session, keep), surviving(s, session, keep));
        let new = CacheRowModel { row_version: next_version(s, session), core: row.core, meta };
        row_of_put(s.cache, session, new, other);
        a_cut_keeps_the_prefix(s.compartments, session, keep, session);
        a_cut_keeps_the_prefix(s.compartments, session, keep, other);
        assert(up_to(keep) =~= |c: StoredCompartmentModel| c.sequence <= keep);
        let stays = transcript_stays(session, keep);
        assert forall|t: KeyedModel<TranscriptRowModel>| #[trigger] after.transcripts.contains(
            t,
        ) <==> (s.transcripts.contains(t) && !(t.session == session && t.row.compartment_seq
            > keep)) by {
            crate::rows::kept_is_accepted(s.transcripts, stays);
            if after.transcripts.contains(t) {
                let k = choose|k: int| 0 <= k < after.transcripts.len() && after.transcripts[k] == t;
                assert(stays(after.transcripts[k]));
            }
            if s.transcripts.contains(t) && stays(t) {
                crate::rows::accepted_is_kept(s.transcripts, stays, t);
            }
        }
    }
}

// --- transcripts ----------------------------------------------------------------------------

/// Before old transcripts are evicted, each compartment of a published chunk has the chunk's
/// transcript under its sequence, with its own range and time, and what other sessions have,
/// or the session under other sequences, stays.
pub proof fn each_compartment_has_the_transcript(
    table: Seq<KeyedModel<TranscriptRowModel>>,
    session: Seq<char>,
    first: i64,
    cs: Seq<StoredCompartmentModel>,
    blob: Seq<u8>,
    owner: Seq<char>,
    sequence: i64,
)
    requires
        first + cs.len() <= i64::MAX + 1,
    ensures
        ({
            let after = with_rows(table, session, first, cs, blob);
            let found = find_where(after, transcript_at(owner, sequence));
            &&& owner == session && first <= sequence < first + cs.len() ==> {
                let c = cs[sequence - first];
                &&& found matches Some(t)
                &&& t.session == session
                &&& t.row.compartment_seq == sequence
                &&& t.row.start_ordinal == c.start_message
                &&& t.row.end_ordinal == c.end_message
                &&& t.row.created_at_ms == c.created_at
                &&& t.row.transcript_deflate == blob
            }
            &&& !(owner == session && first <= sequence < first + cs.len()) ==> found
                == find_where(table, transcript_at(owner, sequence))
        }),
    decreases cs.len(),
{
    if cs.len() > 0 {
        let rest = cs.drop_last();
        let at = (first + cs.len() - 1) as i64;
        let before = with_rows(table, session, first, rest, blob);
        each_compartment_has_the_transcript(table, session, first, rest, blob, owner, sequence);
        let p = transcript_at(session, at);
        let q = transcript_at(owner, sequence);
        let row = KeyedModel { session, row: transcript_row(cs.last(), at, blob) };
        what_is_put_is_found(before, p, row, q);
        if owner == session && at == sequence {
            assert(p =~= q);
        } else {
            assert forall|x: KeyedModel<TranscriptRowModel>| #[trigger] p(x) implies !q(x) by {}
            if owner == session && first <= sequence < first + cs.len() {
                assert(rest[sequence - first] == cs[sequence - first]);
            }
        }
    }
}

/// A reading of transcripts for a range of messages shows those of the session that reach
/// into the range, and no others, by sequence.
pub proof fn transcripts_of_a_range_are_shown(
    s: McStoreModel,
    session: Seq<char>,
    start: i64,
    end: i64,
)
    ensures
        ({
            let rows = of_session(s.transcripts, session);
            let shown = transcripts_in(s, session, start, end);
            &&& forall|i: int|
                0 <= i < rows.len() && (#[trigger] rows[i]).start_ordinal <= end
                    && rows[i].end_ordinal >= start ==> shown.contains(unpacked(rows[i]))
            &&& forall|k: int|
                0 <= k < shown.len() ==> exists|i: int|
                    0 <= i < rows.len() && #[trigger] shown[k] == unpacked(#[trigger] rows[i])
                        && rows[i].start_ordinal <= end && rows[i].end_ordinal >= start
            &&& forall|a: int, b: int|
                0 <= a < b < shown.len() ==> (#[trigger] shown[a]).compartment_seq <= (
                #[trigger] shown[b]).compartment_seq
        }),
{
    let rows = of_session(s.transcripts, session);
    let p = overlapping(start, end);
    let ordered = sorted::<TranscriptRow, ChunkOrder>(keep_where(rows, p));
    let shown = transcripts_in(s, session, start, end);
    assert forall|i: int|
        0 <= i < rows.len() && (#[trigger] rows[i]).start_ordinal <= end && rows[i].end_ordinal
            >= start implies shown.contains(unpacked(rows[i])) by {
        assert(rows.contains(rows[i]));
        a_reading_holds_what_is_accepted::<TranscriptRow, ChunkOrder>(rows, p, rows[i]);
        let k = choose|k: int| 0 <= k < ordered.len() && ordered[k] == rows[i];
        assert(shown[k] == unpacked(rows[i]));
    }
    assert forall|k: int| 0 <= k < shown.len() implies exists|i: int|
        0 <= i < rows.len() && #[trigger] shown[k] == unpacked(#[trigger] rows[i])
            && rows[i].start_ordinal <= end && rows[i].end_ordinal >= start by {
        assert(ordered.contains(ordered[k]));
        a_reading_holds_what_is_accepted::<TranscriptRow, ChunkOrder>(rows, p, ordered[k]);
        let i = choose|i: int| 0 <= i < rows.len() && rows[i] == ordered[k];
        assert(shown[k] == unpacked(rows[i]));
    }
    if shown.len() > 0 {
        a_reading_holds_what_is_accepted::<TranscriptRow, ChunkOrder>(rows, p, ordered[0]);
        assert forall|a: int, b: int| 0 <= a < b < shown.len() implies (
        #[trigger] shown[a]).compartment_seq <= (#[trigger] shown[b]).compartment_seq by {
            assert(crate::rows::in_order::<TranscriptRow, ChunkOrder>(ordered));
            assert(shown[a] == unpacked(ordered[a]));
            assert(shown[b] == unpacked(ordered[b]));
            assert(<ChunkOrder as crate::rows::RowOrder<TranscriptRow>>::le(ordered[a], ordered[b]));
        }
    }
}

// --- seeds and imports ------------------------------------------------------------------------

/// A flat id is a message id without a `#`, a `#`, and an index.
pub proof fn a_flat_id_names_a_block(id: Seq<char>)
    ensures
        flat_block_id(id) matches Some((mid, index)) ==> {
            &&& mid.len() > 0
            &&& !mid.contains('#')
            &&& mid.len() < id.len()
            &&& id[mid.len() as int] == '#'
            &&& id.take(mid.len() as int) == mid
            &&& crate::text::parsed_u64(id.skip(mid.len() + 1int)) == Some(index)
        },
{
    the_last_hash(id);
}

proof fn the_last_hash(s: Seq<char>)
    ensures
        last_hash(s) matches Some(p) ==> 0 <= p < s.len() && s[p] == '#' && forall|i: int|
            p < i < s.len() ==> s[i] != '#',
        last_hash(s) is None ==> !s.contains('#'),
    decreases s.len(),
{
    if s.len() > 0 {
        let rest = s.drop_last();
        the_last_hash(rest);
        assert forall|i: int| 0 <= i < rest.len() implies #[trigger] s[i] == rest[i] by {}
        if s.last() != '#' && last_hash(rest) is None && s.contains('#') {
            let i = choose|i: int| 0 <= i < s.len() && s[i] == '#';
            assert(rest[i] == '#');
        }
    }
}

/// A seeded boundary covers the whole seed: it is where the compartment with the largest
/// sequence ends, and its coverage begins with the first compartment and ends with the last.
/// The compartments follow one another without overlap, each with a sequence of its own.
pub proof fn a_seeded_boundary_covers_the_seed(
    declared: Seq<char>,
    cs: Seq<StoredCompartmentModel>,
    i: int,
)
    requires
        seed_boundary(declared, cs) is Ok,
        0 <= i < cs.len(),
    ensures
        ({
            let b = seed_boundary(declared, cs)->Ok_0;
            &&& cs[i].sequence <= b.max_sequence
            &&& b.coverage_start_ordinal <= cs[i].start_message
            &&& cs[i].end_message <= b.coverage_end_ordinal
            &&& exists|k: int|
                0 <= k < cs.len() && (#[trigger] cs[k]).sequence == b.max_sequence
                    && cs[k].end_message_id == b.boundary_id && cs[k].end_message
                    == b.coverage_end_ordinal
            &&& exists|k: int|
                0 <= k < cs.len() && (#[trigger] cs[k]).start_message == b.coverage_start_ordinal
            &&& flat_block_id(b.boundary_id) == flat_block_id(declared)
        }),
{
    let b = seed_boundary(declared, cs)->Ok_0;
    let ordered = by_sequence(cs);
    let n = ordered.len() - 1;
    crate::rows::sorted_len::<StoredCompartment, SequenceOrder>(cs);
    assert(cs.contains(cs[i]));
    crate::rows::sorted_holds_the_same::<StoredCompartment, SequenceOrder>(cs, cs[i]);
    let a = choose|a: int| 0 <= a < ordered.len() && ordered[a] == cs[i];
    crate::rows::sorted_is_ordered::<StoredCompartment, SequenceOrder>(cs);
    if a < n {
        seeds_follow_one_another(ordered, a, n);
        assert(<SequenceOrder as crate::rows::RowOrder<StoredCompartment>>::le(
            ordered[a],
            ordered[n],
        ));
    }
    if a > 0 {
        seeds_follow_one_another(ordered, 0, a);
    }
    assert(ordered[0].start_message <= ordered[0].end_message);
    assert(ordered[n].start_message <= ordered[n].end_message);
    assert(ordered[a].start_message <= ordered[a].end_message);
    assert(ordered.contains(ordered[n]));
    crate::rows::sorted_holds_the_same::<StoredCompartment, SequenceOrder>(cs, ordered[n]);
    let k = choose|k: int| 0 <= k < cs.len() && cs[k] == ordered[n];
    assert(cs[k].sequence == b.max_sequence);
    assert(ordered.contains(ordered[0]));
    crate::rows::sorted_holds_the_same::<StoredCompartment, SequenceOrder>(cs, ordered[0]);
    let j = choose|j: int| 0 <= j < cs.len() && cs[j] == ordered[0];
    assert(cs[j].start_message == b.coverage_start_ordinal);
}

proof fn seeds_follow_one_another(s: Seq<StoredCompartmentModel>, a: int, b: int)
    requires
        seed_chain_fault(s) is None,
        seed_ranges_ordered(s),
        0 <= a < b < s.len(),
    ensures
        s[a].end_message < s[b].start_message,
    decreases b - a,
{
    no_fault_between(s, b);
    assert(s[b - 1].start_message <= s[b - 1].end_message);
    if a < b - 1 {
        seeds_follow_one_another(s, a, b - 1);
    }
}

proof fn no_fault_between(s: Seq<StoredCompartmentModel>, b: int)
    requires
        seed_chain_fault(s) is None,
        0 < b < s.len(),
    ensures
        s[b - 1].end_message < s[b].start_message,
        s[b - 1].sequence != s[b].sequence,
    decreases s.len(),
{
    if b < s.len() - 1 {
        no_fault_between(s.drop_last(), b);
    }
}

/// A session owns durable state where any of its tables has a row of it, and none where none
/// has.
pub proof fn durable_state_is_any_row(s: McStoreModel, session: Seq<char>)
    ensures
        row_of(s.cache, session) is Some ==> has_durable_state(s, session),
        of_session(s.compartments, session).len() > 0 ==> has_durable_state(s, session),
        of_session(s.tags, session).len() > 0 ==> has_durable_state(s, session),
        of_session(s.drops, session).len() > 0 ==> has_durable_state(s, session),
        of_session(s.ledger, session).len() > 0 ==> has_durable_state(s, session),
        of_session(s.channel1_appends, session).len() > 0 ==> has_durable_state(s, session),
        of_session(s.user_hints, session).len() > 0 ==> has_durable_state(s, session),
        row_of(s.traces, session) is Some ==> has_durable_state(s, session),
        of_session(s.transcripts, session).len() > 0 ==> has_durable_state(s, session),
        (exists|i: int|
            0 <= i < s.notes.len() && (#[trigger] s.notes[i]).session_id == session)
            ==> has_durable_state(s, session),
        has_durable_state(s, session) ==> of_session(s.cache, session).len() > 0 || of_session(
            s.compartments,
            session,
        ).len() > 0 || of_session(s.tags, session).len() > 0 || of_session(s.drops, session).len()
            > 0 || of_session(s.ledger, session).len() > 0 || of_session(
            s.channel1_appends,
            session,
        ).len() > 0 || of_session(s.user_hints, session).len() > 0 || of_session(
            s.traces,
            session,
        ).len() > 0 || of_session(s.transcripts, session).len() > 0 || exists|i: int|
            0 <= i < s.notes.len() && (#[trigger] s.notes[i]).session_id == session,
{
    a_row_is_of_its_session(s.cache, session);
    a_row_is_of_its_session(s.traces, session);
    let p = crate::store::import::note_of(session);
    crate::rows::first_where_first(s.notes, p);
    if let Some(i) = crate::rows::first_where(s.notes, p) {
        assert(s.notes[i].session_id == session);
    }
    if exists|i: int| 0 <= i < s.notes.len() && (#[trigger] s.notes[i]).session_id == session {
        let i = choose|i: int|
            0 <= i < s.notes.len() && (#[trigger] s.notes[i]).session_id == session;
        assert(p(s.notes[i]));
    }
}

proof fn a_row_is_of_its_session<M>(table: Seq<KeyedModel<M>>, session: Seq<char>)
    ensures
        row_of(table, session) is Some ==> of_session(table, session).len() > 0,
    decreases table.len(),
{
    if table.len() > 0 {
        a_row_is_of_its_session(table.drop_last(), session);
        crate::rows::session_index_first(table, session);
        crate::rows::session_index_first(table.drop_last(), session);
        if let Some(i) = crate::rows::session_index(table, session) {
            if i < table.len() - 1 {
                assert(table.drop_last()[i] == table[i]);
            }
        }
    }
}

} // verus!

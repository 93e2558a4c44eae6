//! Transcripts of published chunks, kept compressed and within a bound per session.

use std::io::{Read, Write};

use vstd::prelude::*;

use crate::rows::{
    first_where, first_where_first, group_views, keep_where, keyed_all, map_rows, of_session,
    opt_view, put_in, put_where,
    remove_session, append_session, select_rows, session_rows, sort_rows, sorted, take_all,
    take_next, views, without_session, Keyed, KeyedModel, Row, RowOrder, RowTest,
};
use crate::store::integrity::{transcripts_kept, well_formed};
use crate::store::records::{
    StoredChunkTranscript, StoredChunkTranscriptModel, StoredCompartment, StoredCompartmentModel,
    TranscriptRow, TranscriptRowModel,
};
use crate::store::{McStore, McStoreModel};
use crate::text::same_text;

verus! {

/// The largest compressed transcript that is kept.
pub const MAX_CHUNK_TRANSCRIPT_COMPRESSED_BYTES: usize = 262_144;

/// How many bytes the compressed transcripts of a session may take.
pub const MAX_SESSION_TRANSCRIPT_COMPRESSED_BYTES: i64 = 8_388_608;

/// The raw DEFLATE stream that `flate2` makes of a text's bytes at its fast level, or
/// nothing where it fails.
pub uninterp spec fn deflated(text: Seq<char>) -> Option<Seq<u8>>;

/// The text that `flate2` reads from a raw DEFLATE stream, or nothing where it fails or the
/// bytes are no text.
pub uninterp spec fn inflated(blob: Seq<u8>) -> Option<Seq<char>>;

/// Compresses with `flate2::write::DeflateEncoder`, whose `write_all` and `finish` are
/// called once each. What it makes of a text reads back as that text.
#[verifier::external_body]
fn compress_transcript(transcript: &str) -> (r: Option<Vec<u8>>)
    ensures
        opt_bytes(r) == deflated(transcript@),
        reads_back(r, transcript@),
{
    let mut encoder = flate2::write::DeflateEncoder::new(Vec::new(), flate2::Compression::fast());
    encoder.write_all(transcript.as_bytes()).ok()?;
    encoder.finish().ok()
}

/// Decompresses with `flate2::read::DeflateDecoder`, read to its end as a text.
#[verifier::external_body]
fn decompress_transcript(blob: &Vec<u8>) -> (r: Option<String>)
    ensures
        opt_view(r) == inflated(blob@),
{
    let mut out = String::new();
    flate2::read::DeflateDecoder::new(blob.as_slice()).read_to_string(&mut out).ok()?;
    Some(out)
}

/// The bytes of an optional buffer.
pub open spec fn opt_bytes(o: Option<Vec<u8>>) -> Option<Seq<u8>> {
    match o {
        Some(b) => Some(b@),
        None => None,
    }
}

/// Whether a compressed text reads back as the text.
pub open spec fn reads_back(o: Option<Vec<u8>>, text: Seq<char>) -> bool {
    match o {
        Some(b) => inflated(b@) == Some(text),
        None => true,
    }
}

/// The compressed transcript that is kept for a text, if one is.
pub open spec fn kept_blob(text: Seq<char>) -> Option<Seq<u8>> {
    match deflated(text) {
        Some(b) => if b.len() <= MAX_CHUNK_TRANSCRIPT_COMPRESSED_BYTES {
            Some(b)
        } else {
            None
        },
        None => None,
    }
}

/// The transcript row of a compartment.
pub open spec fn transcript_row(c: StoredCompartmentModel, sequence: i64, blob: Seq<u8>) ->
    TranscriptRowModel {
    TranscriptRowModel {
        compartment_seq: sequence,
        start_ordinal: c.start_message,
        end_ordinal: c.end_message,
        transcript_deflate: blob,
        created_at_ms: c.created_at,
    }
}

/// The transcript of a compartment of a session.
pub open spec fn transcript_at(session: Seq<char>, sequence: i64) -> spec_fn(
    KeyedModel<TranscriptRowModel>,
) -> bool {
    |k: KeyedModel<TranscriptRowModel>| k.session == session && k.row.compartment_seq == sequence
}

/// The table with one transcript put for every compartment, numbered from `first` on.
pub open spec fn with_rows(
    table: Seq<KeyedModel<TranscriptRowModel>>,
    session: Seq<char>,
    first: i64,
    cs: Seq<StoredCompartmentModel>,
    blob: Seq<u8>,
) -> Seq<KeyedModel<TranscriptRowModel>>
    decreases cs.len(),
{
    if cs.len() == 0 {
        table
    } else {
        let rest = with_rows(table, session, first, cs.drop_last(), blob);
        let sequence = (first + cs.len() - 1) as i64;
        put_where(
            rest,
            transcript_at(session, sequence),
            KeyedModel { session, row: transcript_row(cs.last(), sequence, blob) },
        )
    }
}

/// How many bytes compressed transcripts take.
pub open spec fn total_bytes(rows: Seq<TranscriptRowModel>) -> nat
    decreases rows.len(),
{
    if rows.len() == 0 {
        0
    } else {
        total_bytes(rows.drop_first()) + rows[0].transcript_deflate.len()
    }
}

/// Transcripts by age, oldest first; equal age by sequence.
pub struct AgeOrder;

impl RowOrder<TranscriptRow> for AgeOrder {
    open spec fn le(a: TranscriptRowModel, b: TranscriptRowModel) -> bool {
        a.created_at_ms < b.created_at_ms || (a.created_at_ms == b.created_at_ms
            && a.compartment_seq <= b.compartment_seq)
    }

    proof fn le_total(a: TranscriptRowModel, b: TranscriptRowModel) {
    }

    proof fn le_transitive(a: TranscriptRowModel, b: TranscriptRowModel, c: TranscriptRowModel) {
    }

    fn at_most(a: &TranscriptRow, b: &TranscriptRow) -> (r: bool) {
        a.created_at_ms < b.created_at_ms || (a.created_at_ms == b.created_at_ms
            && a.compartment_seq <= b.compartment_seq)
    }
}

/// Transcripts by sequence.
pub struct ChunkOrder;

impl RowOrder<TranscriptRow> for ChunkOrder {
    open spec fn le(a: TranscriptRowModel, b: TranscriptRowModel) -> bool {
        a.compartment_seq <= b.compartment_seq
    }

    proof fn le_total(a: TranscriptRowModel, b: TranscriptRowModel) {
    }

    proof fn le_transitive(a: TranscriptRowModel, b: TranscriptRowModel, c: TranscriptRowModel) {
    }

    fn at_most(a: &TranscriptRow, b: &TranscriptRow) -> (r: bool) {
        a.compartment_seq <= b.compartment_seq
    }
}

/// How many of the oldest transcripts have to go until the rest is within the bound.
pub open spec fn surplus(rows: Seq<TranscriptRowModel>) -> nat
    decreases rows.len(),
{
    if rows.len() == 0 || total_bytes(rows) <= MAX_SESSION_TRANSCRIPT_COMPRESSED_BYTES {
        0
    } else {
        1 + surplus(rows.drop_first())
    }
}

/// The table with a session's oldest transcripts gone until the rest is within the bound.
pub open spec fn evicted(table: Seq<KeyedModel<TranscriptRowModel>>, session: Seq<char>) -> Seq<
    KeyedModel<TranscriptRowModel>,
> {
    let aged = sorted::<TranscriptRow, AgeOrder>(of_session(table, session));
    if surplus(aged) == 0 {
        table
    } else {
        without_session(table, session) + keyed_all(session, aged.skip(surplus(aged) as int))
    }
}

/// The transcripts after compartments of a session were published with a text.
pub open spec fn with_transcripts(
    table: Seq<KeyedModel<TranscriptRowModel>>,
    session: Seq<char>,
    first: i64,
    cs: Seq<StoredCompartmentModel>,
    text: Seq<char>,
) -> Seq<KeyedModel<TranscriptRowModel>> {
    if cs.len() == 0 {
        table
    } else {
        match kept_blob(text) {
            Some(blob) => evicted(with_rows(table, session, first, cs, blob), session),
            None => table,
        }
    }
}

pub(crate) proof fn surplus_is_enough(rows: Seq<TranscriptRowModel>)
    ensures
        surplus(rows) <= rows.len(),
        total_bytes(rows.skip(surplus(rows) as int)) <= MAX_SESSION_TRANSCRIPT_COMPRESSED_BYTES,
        forall|n: int|
            0 <= n < surplus(rows) ==> total_bytes(#[trigger] rows.skip(n))
                > MAX_SESSION_TRANSCRIPT_COMPRESSED_BYTES,
    decreases rows.len(),
{
    if rows.len() == 0 || total_bytes(rows) <= MAX_SESSION_TRANSCRIPT_COMPRESSED_BYTES {
        assert(rows.skip(0) =~= rows);
    } else {
        let rest = rows.drop_first();
        surplus_is_enough(rest);
        assert(rows.skip(surplus(rows) as int) =~= rest.skip(surplus(rest) as int));
        assert forall|n: int| 0 <= n < surplus(rows) implies total_bytes(#[trigger] rows.skip(n))
            > MAX_SESSION_TRANSCRIPT_COMPRESSED_BYTES by {
            if n == 0 {
                assert(rows.skip(0) =~= rows);
            } else {
                assert(rows.skip(n) =~= rest.skip(n - 1));
            }
        }
    }
}

/// Eviction leaves a session within the bound, takes its oldest transcripts alone and no
/// more of them than it has to, and touches no other session.
pub proof fn eviction_keeps_the_bound(
    table: Seq<KeyedModel<TranscriptRowModel>>,
    session: Seq<char>,
    other: Seq<char>,
)
    ensures
        ({
            let aged = sorted::<TranscriptRow, AgeOrder>(of_session(table, session));
            let gone = surplus(aged) as int;
            let left = of_session(evicted(table, session), session);
            &&& total_bytes(aged.skip(gone)) <= MAX_SESSION_TRANSCRIPT_COMPRESSED_BYTES
            &&& gone > 0 ==> left == aged.skip(gone)
            &&& gone == 0 ==> left == of_session(table, session)
            &&& gone > 0 ==> total_bytes(aged.skip(gone - 1))
                > MAX_SESSION_TRANSCRIPT_COMPRESSED_BYTES
            &&& other != session ==> of_session(evicted(table, session), other) == of_session(
                table,
                other,
            )
        }),
{
    let aged = sorted::<TranscriptRow, AgeOrder>(of_session(table, session));
    let gone = surplus(aged) as int;
    surplus_is_enough(aged);
    if gone > 0 {
        let kept = aged.skip(gone);
        crate::rows::of_session_concat(
            without_session(table, session),
            keyed_all(session, kept),
            session,
        );
        crate::rows::of_session_without(table, session, session);
        crate::rows::of_session_keyed_all(session, kept, session);
        assert(Seq::<TranscriptRowModel>::empty() + kept =~= kept);
        assert(total_bytes(aged.skip(gone - 1)) > MAX_SESSION_TRANSCRIPT_COMPRESSED_BYTES);
        if other != session {
            crate::rows::of_session_concat(
                without_session(table, session),
                keyed_all(session, kept),
                other,
            );
            crate::rows::of_session_without(table, session, other);
            crate::rows::of_session_keyed_all(session, kept, other);
            assert(of_session(table, other) + Seq::<TranscriptRowModel>::empty() =~= of_session(
                table,
                other,
            ));
        }
    }
}

proof fn put_holds<M>(rows: Seq<M>, p: spec_fn(M) -> bool, row: M, x: M)
    ensures
        put_where(rows, p, row).contains(row),
        rows.contains(x) && !p(x) ==> put_where(rows, p, row).contains(x),
{
    let after = put_where(rows, p, row);
    first_where_first(rows, p);
    let at = match first_where(rows, p) {
        Some(i) => i,
        None => rows.len() as int,
    };
    assert(after[at] == row);
    if rows.contains(x) && !p(x) {
        let k = choose|k: int| 0 <= k < rows.len() && rows[k] == x;
        assert(after[k] == x);
    }
}

proof fn rows_are_put(
    table: Seq<KeyedModel<TranscriptRowModel>>,
    session: Seq<char>,
    first: i64,
    cs: Seq<StoredCompartmentModel>,
    blob: Seq<u8>,
    i: int,
)
    requires
        0 <= i < cs.len(),
        first + cs.len() <= i64::MAX + 1,
    ensures
        with_rows(table, session, first, cs, blob).contains(
            KeyedModel { session, row: transcript_row(cs[i], (first + i) as i64, blob) },
        ),
    decreases cs.len(),
{
    let rest = cs.drop_last();
    let sequence = (first + cs.len() - 1) as i64;
    if i < rest.len() {
        rows_are_put(table, session, first, rest, blob, i);
        assert(rest[i] == cs[i]);
    }
    put_holds(
        with_rows(table, session, first, rest, blob),
        transcript_at(session, sequence),
        KeyedModel { session, row: transcript_row(cs.last(), sequence, blob) },
        KeyedModel { session, row: transcript_row(cs[i], (first + i) as i64, blob) },
    );
}

/// A kept transcript reads back: where a text compresses to bytes that are kept, and nothing
/// had to be evicted, the text is found again by every message that one of its compartments
/// covers.
pub proof fn a_kept_transcript_reads_back(
    s: McStoreModel,
    table: Seq<KeyedModel<TranscriptRowModel>>,
    session: Seq<char>,
    first: i64,
    cs: Seq<StoredCompartmentModel>,
    text: Seq<char>,
    blob: Seq<u8>,
    i: int,
    ordinal: i64,
)
    requires
        0 <= i < cs.len(),
        first + cs.len() <= i64::MAX + 1,
        kept_blob(text) == Some(blob),
        inflated(blob) == Some(text),
        surplus(
            sorted::<TranscriptRow, AgeOrder>(
                of_session(with_rows(table, session, first, cs, blob), session),
            ),
        ) == 0,
        s.transcripts == with_transcripts(table, session, first, cs, text),
        cs[i].start_message <= ordinal <= cs[i].end_message,
    ensures
        transcripts_in(s, session, ordinal, ordinal).contains(
            StoredChunkTranscriptModel {
                compartment_seq: (first + i) as i64,
                start_ordinal: cs[i].start_message,
                end_ordinal: cs[i].end_message,
                transcript: Some(text),
                created_at_ms: cs[i].created_at,
            },
        ),
{
    let row = transcript_row(cs[i], (first + i) as i64, blob);
    let kept = s.transcripts;
    rows_are_put(table, session, first, cs, blob, i);
    let at = choose|at: int| 0 <= at < kept.len() && kept[at] == (KeyedModel { session, row });
    crate::keys::of_session_holds(kept, session, at);
    let rows = of_session(kept, session);
    let wanted = overlapping(ordinal, ordinal);
    crate::rows::accepted_is_kept(rows, wanted, row);
    let found = sorted::<TranscriptRow, ChunkOrder>(keep_where(rows, wanted));
    crate::rows::sorted_holds_the_same::<TranscriptRow, ChunkOrder>(keep_where(rows, wanted), row);
    let k = choose|k: int| 0 <= k < found.len() && found[k] == row;
    assert(transcripts_in(s, session, ordinal, ordinal)[k] == unpacked(row));
}

/// Accepts the transcript of a compartment of a session.
pub struct TranscriptAt<'a> {
    pub session: &'a str,
    pub sequence: i64,
}

impl<'a> RowTest<Keyed<TranscriptRow>> for TranscriptAt<'a> {
    open spec fn accepts(&self) -> spec_fn(KeyedModel<TranscriptRowModel>) -> bool {
        transcript_at(self.session@, self.sequence)
    }

    fn test(&self, row: &Keyed<TranscriptRow>) -> (r: bool) {
        same_text(&row.session_id, self.session) && row.row.compartment_seq == self.sequence
    }
}

/// Tests whether transcripts, from a place on, are within the bound.
fn within_bound(rows: &Vec<TranscriptRow>, from: usize) -> (r: bool)
    requires
        from <= rows.len(),
    ensures
        r == (total_bytes(views(rows@).skip(from as int))
            <= MAX_SESSION_TRANSCRIPT_COMPRESSED_BYTES),
{
    broadcast use group_views;

    let ghost all = views(rows@);
    let ghost whole = total_bytes(all.skip(from as int));
    let mut total: u128 = 0;
    let mut i: usize = from;
    while i < rows.len()
        invariant
            from <= i <= rows.len(),
            all == views(rows@),
            total <= MAX_SESSION_TRANSCRIPT_COMPRESSED_BYTES,
            whole == total_bytes(all.skip(from as int)),
            whole == total + total_bytes(all.skip(i as int)),
        decreases rows.len() - i,
    {
        assert(all[i as int] == rows@[i as int]@);
        assert(all.skip(i as int).drop_first() =~= all.skip(i + 1));
        assert(rows@[i as int]@.transcript_deflate.len() == rows@[i as int].transcript_deflate@.len());
        total = total + (rows[i].transcript_deflate.len() as u128);
        if total > MAX_SESSION_TRANSCRIPT_COMPRESSED_BYTES as u128 {
            return false;
        }
        i += 1;
    }
    assert(all.skip(rows@.len() as int).len() == 0);
    true
}

fn count_surplus(rows: &Vec<TranscriptRow>) -> (r: usize)
    ensures
        r == surplus(views(rows@)),
        r <= rows.len(),
{
    broadcast use group_views;

    let ghost all = views(rows@);
    let mut n: usize = 0;
    assert(all.skip(0) =~= all);
    while n < rows.len() && !within_bound(rows, n)
        invariant
            n <= rows.len(),
            all == views(rows@),
            surplus(all) == n + surplus(all.skip(n as int)),
        decreases rows.len() - n,
    {
        assert(all.skip(n as int).drop_first() =~= all.skip(n + 1));
        n += 1;
    }
    n
}

/// Drops a session's oldest transcripts until the rest is within the bound.
fn evict_transcripts(table: &mut Vec<Keyed<TranscriptRow>>, session: &str)
    ensures
        views(final(table)@) == evicted(views(old(table)@), session@),
{
    broadcast use group_views;

    let aged = sort_rows::<TranscriptRow, AgeOrder>(session_rows(table, session));
    let gone: usize = count_surplus(&aged);
    if gone == 0 {
        return;
    }
    let ghost all = views(aged@);
    let mut kept: Vec<TranscriptRow> = Vec::new();
    let mut i: usize = gone;
    assert(views(kept@) =~= all.subrange(gone as int, gone as int));
    while i < aged.len()
        invariant
            gone <= i <= aged.len(),
            all == views(aged@),
            table@ == old(table)@,
            views(kept@) == all.subrange(gone as int, i as int),
        decreases aged.len() - i,
    {
        assert(all.subrange(gone as int, i + 1) =~= all.subrange(gone as int, i as int).push(
            all[i as int],
        ));
        kept.push(aged[i].dup());
        i += 1;
    }
    assert(all.subrange(gone as int, all.len() as int) =~= all.skip(gone as int));
    remove_session(table, session);
    append_session(table, session, kept);
}

/// A transcript that overlaps a range of messages.
pub open spec fn overlapping(start: i64, end: i64) -> spec_fn(TranscriptRowModel) -> bool {
    |t: TranscriptRowModel| t.end_ordinal >= start && t.start_ordinal <= end
}

/// Accepts the transcripts that overlap a range of messages.
pub struct Overlapping {
    pub start: i64,
    pub end: i64,
}

impl RowTest<TranscriptRow> for Overlapping {
    open spec fn accepts(&self) -> spec_fn(TranscriptRowModel) -> bool {
        overlapping(self.start, self.end)
    }

    fn test(&self, row: &TranscriptRow) -> (r: bool) {
        row.end_ordinal >= self.start && row.start_ordinal <= self.end
    }
}

/// What is read of a stored transcript.
pub open spec fn unpacked(t: TranscriptRowModel) -> StoredChunkTranscriptModel {
    StoredChunkTranscriptModel {
        compartment_seq: t.compartment_seq,
        start_ordinal: t.start_ordinal,
        end_ordinal: t.end_ordinal,
        transcript: inflated(t.transcript_deflate),
        created_at_ms: t.created_at_ms,
    }
}

fn unpack(t: &TranscriptRow) -> (r: StoredChunkTranscript)
    ensures
        r@ == unpacked(t@),
{
    let transcript = decompress_transcript(&t.transcript_deflate);
    assert(views(t.transcript_deflate@) =~= t.transcript_deflate@);
    StoredChunkTranscript {
        compartment_seq: t.compartment_seq,
        start_ordinal: t.start_ordinal,
        end_ordinal: t.end_ordinal,
        transcript,
        created_at_ms: t.created_at_ms,
    }
}

/// The transcripts of a session that overlap a range of messages.
pub open spec fn transcripts_in(s: McStoreModel, session: Seq<char>, start: i64, end: i64) -> Seq<
    StoredChunkTranscriptModel,
> {
    sorted::<TranscriptRow, ChunkOrder>(
        keep_where(of_session(s.transcripts, session), overlapping(start, end)),
    ).map_values(|t: TranscriptRowModel| unpacked(t))
}

impl McStore {
    /// Keeps the transcript of a published chunk for each of its compartments. A transcript
    /// that does not compress, or not far enough, is not kept.
    pub(crate) fn keep_transcripts(
        &mut self,
        session_id: &str,
        first: i64,
        compartments: &[StoredCompartment],
        transcript: &str,
    )
        requires
            first + compartments@.len() <= i64::MAX + 1,
        ensures
            final(self)@ == (McStoreModel {
                transcripts: with_transcripts(
                    old(self)@.transcripts,
                    session_id@,
                    first,
                    views(compartments@),
                    transcript@,
                ),
                ..old(self)@
            }),
            compartments@.len() > 0 ==> (kept_blob(transcript@) matches Some(blob) ==> inflated(blob)
                == Some(transcript@)),
            well_formed(old(self)@) ==> well_formed(final(self)@),
    {
        broadcast use group_views;

        if compartments.len() == 0 {
            return;
        }
        let blob = match compress_transcript(transcript) {
            Some(blob) => blob,
            None => {
                return;
            },
        };
        if blob.len() > MAX_CHUNK_TRANSCRIPT_COMPRESSED_BYTES {
            return;
        }
        let ghost s = self@;
        let ghost cs = views(compartments@);
        let mut i: usize = 0;
        while i < compartments.len()
            invariant
                i <= compartments.len(),
                cs == views(compartments@),
                first + compartments@.len() <= i64::MAX + 1,
                self@ == (McStoreModel {
                    transcripts: with_rows(
                        s.transcripts,
                        session_id@,
                        first,
                        cs.take(i as int),
                        blob@,
                    ),
                    ..s
                }),
            decreases compartments.len() - i,
        {
            proof {
                take_next(cs, i as int);
            }
            let c = &compartments[i];
            assert(cs[i as int] == c@);
            let sequence: i64 = ((first as i128) + (i as i128)) as i64;
            let row = TranscriptRow {
                compartment_seq: sequence,
                start_ordinal: c.start_message,
                end_ordinal: c.end_message,
                transcript_deflate: crate::rows::list_dup(&blob),
                created_at_ms: c.created_at,
            };
            assert(views(blob@) =~= blob@);
            assert(row@ == transcript_row(c@, sequence, blob@));
            put_in(
                &mut self.transcripts,
                &TranscriptAt { session: session_id, sequence },
                Keyed { session_id: session_id.to_owned(), row },
            );
            i += 1;
        }
        proof {
            take_all(cs);
        }
        evict_transcripts(&mut self.transcripts, session_id);
        proof {
            if well_formed(s) {
                transcripts_kept(s, session_id@, first, cs, transcript@);
            }
        }
    }

    /// Reads the transcripts of a session that overlap a range of messages, by sequence.
    pub fn load_chunk_transcripts_for_range(&self, session_id: &str, start: i64, end: i64) -> (r:
        Vec<StoredChunkTranscript>)
        ensures
            views(r@) == transcripts_in(self@, session_id@, start, end),
    {
        let all = session_rows(&self.transcripts, session_id);
        map_rows(
            &sort_rows::<TranscriptRow, ChunkOrder>(
                select_rows(&all, &Overlapping { start, end }),
            ),
            unpack,
            Ghost(|t: TranscriptRowModel| unpacked(t)),
        )
    }

    /// Reads the first transcript of a session that covers a message.
    pub fn load_chunk_transcript_for_message(&self, session_id: &str, ordinal: i64) -> (r: Option<
        StoredChunkTranscript,
    >)
        ensures
            opt_view(r) == (if transcripts_in(self@, session_id@, ordinal, ordinal).len() == 0 {
                None
            } else {
                Some(transcripts_in(self@, session_id@, ordinal, ordinal)[0])
            }),
    {
        broadcast use group_views;

        let rows = self.load_chunk_transcripts_for_range(session_id, ordinal, ordinal);
        if rows.len() == 0 {
            None
        } else {
            assert(views(rows@)[0] == rows@[0]@);
            Some(rows[0].dup())
        }
    }
}

} // verus!

//! In which order rows are read.

use vstd::prelude::*;

use crate::rows::{sorted, sorted_is_ordered, sorted_len, RowOrder};
use crate::store::compartments::{by_sequence, SequenceOrder};
use crate::store::drops::DrainOrder;
use crate::store::notes::NoteOrder;
use crate::store::overlays::{HintOrder, ReminderOrder};
use crate::store::reading::PromotionOrder;
use crate::store::records::{
    Channel1AppendRow, Channel1AppendRowModel, McTagRow, McTagRowModel, PendingAgentDrop,
    PendingAgentDropModel, ShadowDivergenceRow, ShadowDivergenceRowModel, StoredCompartment,
    StoredCompartmentModel, StoredMemory, StoredMemoryModel, StoredNote, StoredNoteModel,
    TranscriptRow, TranscriptRowModel, UserHintRow, UserHintRowModel, UserMemoryRow,
    UserMemoryRowModel,
};
use crate::store::search::RecentOrder;
use crate::store::shadow::DivergenceOrder;
use crate::store::tags::TagOrder;
use crate::store::transcripts::{unpacked, AgeOrder};
use crate::text::text_le;

verus! {

proof fn two_in_order<T: View, O: RowOrder<T>>(rows: Seq<T::V>, a: int, b: int)
    requires
        0 <= a < b < rows.len(),
    ensures
        O::le(sorted::<T, O>(rows)[a], sorted::<T, O>(rows)[b]),
{
    sorted_is_ordered::<T, O>(rows);
    sorted_len::<T, O>(rows);
}

/// Compartments are read by sequence.
pub proof fn compartments_are_read_by_sequence(rows: Seq<StoredCompartmentModel>, a: int, b: int)
    requires
        0 <= a < b < rows.len(),
    ensures
        by_sequence(rows)[a].sequence <= by_sequence(rows)[b].sequence,
{
    two_in_order::<StoredCompartment, SequenceOrder>(rows, a, b);
}

/// Waiting drops are read as they were queued, those of one time by their number.
pub proof fn drops_are_read_as_queued(rows: Seq<PendingAgentDropModel>, a: int, b: int)
    requires
        0 <= a < b < rows.len(),
    ensures
        ({
            let read = sorted::<PendingAgentDrop, DrainOrder>(rows);
            &&& read[a].queued_at_ms <= read[b].queued_at_ms
            &&& read[a].queued_at_ms == read[b].queued_at_ms ==> read[a].id <= read[b].id
        }),
{
    two_in_order::<PendingAgentDrop, DrainOrder>(rows, a, b);
}

/// Notes are read latest first, those of one time by their number from the last.
pub proof fn notes_are_read_latest_first(rows: Seq<StoredNoteModel>, a: int, b: int)
    requires
        0 <= a < b < rows.len(),
    ensures
        ({
            let read = sorted::<StoredNote, NoteOrder>(rows);
            &&& read[a].updated_at_ms >= read[b].updated_at_ms
            &&& read[a].updated_at_ms == read[b].updated_at_ms ==> read[a].id >= read[b].id
        }),
{
    two_in_order::<StoredNote, NoteOrder>(rows, a, b);
}

/// Found memories are read latest first, those of one time by their number.
pub proof fn found_memories_are_read_latest_first(rows: Seq<StoredMemoryModel>, a: int, b: int)
    requires
        0 <= a < b < rows.len(),
    ensures
        ({
            let read = sorted::<StoredMemory, RecentOrder>(rows);
            &&& read[a].updated_at >= read[b].updated_at
            &&& read[a].updated_at == read[b].updated_at ==> read[a].id <= read[b].id
        }),
{
    two_in_order::<StoredMemory, RecentOrder>(rows, a, b);
}

/// User memories are read as they were promoted, those of one time by their number.
pub proof fn user_memories_are_read_as_promoted(rows: Seq<UserMemoryRowModel>, a: int, b: int)
    requires
        0 <= a < b < rows.len(),
    ensures
        ({
            let read = sorted::<UserMemoryRow, PromotionOrder>(rows);
            &&& read[a].promoted_at <= read[b].promoted_at
            &&& read[a].promoted_at == read[b].promoted_at ==> read[a].id <= read[b].id
        }),
{
    two_in_order::<UserMemoryRow, PromotionOrder>(rows, a, b);
}

/// Reminders are read as they fired, and hints as they were made; those of one time by block.
pub proof fn overlays_are_read_as_they_came(
    reminders: Seq<Channel1AppendRowModel>,
    hints: Seq<UserHintRowModel>,
    a: int,
    b: int,
)
    requires
        0 <= a < b,
    ensures
        b < reminders.len() ==> {
            let read = sorted::<Channel1AppendRow, ReminderOrder>(reminders);
            &&& read[a].fired_at_ms <= read[b].fired_at_ms
            &&& read[a].fired_at_ms == read[b].fired_at_ms ==> text_le(
                read[a].block_id,
                read[b].block_id,
            )
        },
        b < hints.len() ==> {
            let read = sorted::<UserHintRow, HintOrder>(hints);
            &&& read[a].created_at <= read[b].created_at
            &&& read[a].created_at == read[b].created_at ==> text_le(
                read[a].block_id,
                read[b].block_id,
            )
        },
{
    if b < reminders.len() {
        two_in_order::<Channel1AppendRow, ReminderOrder>(reminders, a, b);
    }
    if b < hints.len() {
        two_in_order::<UserHintRow, HintOrder>(hints, a, b);
    }
}

/// Tags are read by their number.
pub proof fn tags_are_read_by_number(rows: Seq<McTagRowModel>, a: int, b: int)
    requires
        0 <= a < b < rows.len(),
    ensures
        sorted::<McTagRow, TagOrder>(rows)[a].tag_number <= sorted::<McTagRow, TagOrder>(
            rows,
        )[b].tag_number,
{
    two_in_order::<McTagRow, TagOrder>(rows, a, b);
}

/// Reports are read by their pass, those of one pass by their number, where passes fit a
/// signed column.
pub proof fn reports_are_read_by_pass(rows: Seq<ShadowDivergenceRowModel>, a: int, b: int)
    requires
        0 <= a < b < rows.len(),
        sorted::<ShadowDivergenceRow, DivergenceOrder>(rows)[a].pass_seq <= i64::MAX,
        sorted::<ShadowDivergenceRow, DivergenceOrder>(rows)[b].pass_seq <= i64::MAX,
    ensures
        ({
            let read = sorted::<ShadowDivergenceRow, DivergenceOrder>(rows);
            &&& read[a].pass_seq <= read[b].pass_seq
            &&& read[a].pass_seq == read[b].pass_seq ==> read[a].id <= read[b].id
        }),
{
    two_in_order::<ShadowDivergenceRow, DivergenceOrder>(rows, a, b);
}

/// Transcripts go oldest first, those of one time by their sequence.
pub proof fn the_oldest_transcripts_go_first(rows: Seq<TranscriptRowModel>, a: int, b: int)
    requires
        0 <= a < b < rows.len(),
    ensures
        ({
            let aged = sorted::<TranscriptRow, AgeOrder>(rows);
            &&& aged[a].created_at_ms <= aged[b].created_at_ms
            &&& aged[a].created_at_ms == aged[b].created_at_ms ==> aged[a].compartment_seq
                <= aged[b].compartment_seq
        }),
{
    two_in_order::<TranscriptRow, AgeOrder>(rows, a, b);
}

/// A transcript that is read tells its compartment, its range and its time as stored.
pub proof fn a_read_transcript_tells_its_chunk(t: TranscriptRowModel)
    ensures
        unpacked(t).compartment_seq == t.compartment_seq,
        unpacked(t).start_ordinal == t.start_ordinal,
        unpacked(t).end_ordinal == t.end_ordinal,
        unpacked(t).created_at_ms == t.created_at_ms,
        unpacked(t).transcript == crate::store::transcripts::inflated(t.transcript_deflate),
{
}

} // verus!

//! What every operation keeps: the keys of the tables are distinct, and no row has a larger
//! number than its table assigned.

use vstd::prelude::*;

use crate::keys::{
    distinct, distinct_append, distinct_concat, distinct_in_session, distinct_kept, distinct_push,
    distinct_put, distinct_put_row, distinct_sorted, distinct_update, distinct_without, keyed,
    of_session_holds, session_key, unused, up_to_last, up_to_last_kept, without_session_is_kept,
};
use crate::rows::{
    find_where, first_where, first_where_first, first_where_is, keep_where, keyed_all, of_session,
    put_row, put_where, sorted, without_session, KeyedModel,
};
use crate::store::compartments::{
    at_sequence, distinct_sequences, importable, importable_is_a_chain, max_sequence,
    max_sequence_is_largest, renumbered, sequences_left, with_upserted,
};
use crate::store::drops::{
    drop_targets, fresh_targets, queued_rows, targets_to_queue, with_drops, without_drops,
};
use crate::store::facts::{
    exact_hash, facts_to_store, promoted_memories, promotion_failure, with_promoted,
};
use crate::store::memories::{
    after_archiving, archive_log, archived_memory, clash, log_row, memories_of, memory_by_id,
    rewritten, saying, with_id,
};
use crate::store::merging::{
    after_superseding, ascending, merge_group, merged_memory, mergeable, merged_store,
    superseded_log, superseded_memory,
};
use crate::store::records::{
    CacheRowModel, Channel1AppendRowModel, FactCandidateModel, ImportRowModel, LedgerRowModel,
    McTagRowModel, PassTraceModel, PendingAgentDropModel, ShadowDivergenceRowModel,
    ShadowMemoryMutationRowModel, ShadowMemoryRowModel, ShadowWorkspaceRowModel,
    StoredCompartmentModel, StoredMemoryFullModel, StoredNoteModel, TagMintInputModel,
    TranscriptRow, TranscriptRowModel, UserHintRowModel, WorkspaceMemberRowModel,
    WorkspaceRowModel,
};
use crate::store::revert::{compartment_stays, transcript_stays};
use crate::store::shadow::{
    lineage_paths, member_stays, members_free, new_members, shadow_memory_at, shadow_memory_stays,
    shadow_mutation_at, shadow_mutation_stays, with_shadow_memories, with_shadow_mutations,
    with_workspace, without_workspaces, workspace_ids, workspace_stays,
};
use crate::store::tags::{
    max_tag, mint_failure, new_tag, tag_of, tags_after, tags_keep_their_numbers,
};
use crate::store::transcripts::{
    evicted, kept_blob, surplus, transcript_at, transcript_row, with_rows, with_transcripts,
    AgeOrder,
};
use crate::store::workspace::{member_at, workspace_named};
use crate::store::{empty_store, McStoreModel};
use crate::text::{hex_len, int_text, int_text_tells_apart, trimmed};

verus! {

// --- keys -----------------------------------------------------------------------------

/// The sequence of a compartment.
pub open spec fn sequence_key() -> spec_fn(StoredCompartmentModel) -> i64 {
    |c: StoredCompartmentModel| c.sequence
}

/// The number of a memory.
pub open spec fn memory_number() -> spec_fn(StoredMemoryFullModel) -> i64 {
    |m: StoredMemoryFullModel| m.id
}

/// What a memory says, and where.
pub open spec fn memory_key() -> spec_fn(StoredMemoryFullModel) -> (Seq<char>, Seq<char>, Seq<char>) {
    |m: StoredMemoryFullModel| (m.project_path, m.category, m.normalized_hash)
}

/// The number of a row of the mutation log.
pub open spec fn mutation_number() -> spec_fn(ShadowMemoryMutationRowModel) -> i64 {
    |m: ShadowMemoryMutationRowModel| m.mutation.id
}

/// The number of a workspace.
pub open spec fn workspace_number() -> spec_fn(WorkspaceRowModel) -> i64 {
    |w: WorkspaceRowModel| w.id
}

/// The name of a workspace.
pub open spec fn workspace_name() -> spec_fn(WorkspaceRowModel) -> Seq<char> {
    |w: WorkspaceRowModel| w.name
}

/// The project of a member.
pub open spec fn member_project() -> spec_fn(WorkspaceMemberRowModel) -> Seq<char> {
    |m: WorkspaceMemberRowModel| m.project_path
}

/// The number of a queued drop.
pub open spec fn drop_number() -> spec_fn(KeyedModel<PendingAgentDropModel>) -> i64 {
    |d: KeyedModel<PendingAgentDropModel>| d.row.id
}

/// The target of a queued drop.
pub open spec fn drop_target() -> spec_fn(PendingAgentDropModel) -> Seq<char> {
    |d: PendingAgentDropModel| d.target_id
}

/// The command of a ledger row.
pub open spec fn ledger_command() -> spec_fn(LedgerRowModel) -> Seq<char> {
    |l: LedgerRowModel| l.command_id
}

/// The project and number of a shadow memory.
pub open spec fn shadow_memory_key() -> spec_fn(ShadowMemoryRowModel) -> (Seq<char>, i64) {
    |m: ShadowMemoryRowModel| (m.project_path, m.id)
}

/// The project and number of a shadow mutation.
pub open spec fn shadow_mutation_key() -> spec_fn(ShadowMemoryMutationRowModel) -> (
    Seq<char>,
    i64,
) {
    |m: ShadowMemoryMutationRowModel| (m.project_path, m.mutation.id)
}

/// The number of a divergence.
pub open spec fn divergence_number() -> spec_fn(ShadowDivergenceRowModel) -> i64 {
    |d: ShadowDivergenceRowModel| d.id
}

/// The sequence of a transcript.
pub open spec fn transcript_key() -> spec_fn(TranscriptRowModel) -> i64 {
    |t: TranscriptRowModel| t.compartment_seq
}

/// The number of a note.
pub open spec fn note_number() -> spec_fn(StoredNoteModel) -> i64 {
    |n: StoredNoteModel| n.id
}

/// The number of a tag.
pub open spec fn tag_number() -> spec_fn(McTagRowModel) -> i64 {
    |t: McTagRowModel| t.tag_number
}

/// The block of a tag.
pub open spec fn tag_block() -> spec_fn(McTagRowModel) -> Seq<char> {
    |t: McTagRowModel| t.block_id
}

/// The block of a reminder.
pub open spec fn reminder_block() -> spec_fn(Channel1AppendRowModel) -> Seq<char> {
    |r: Channel1AppendRowModel| r.block_id
}

/// The block of a hint.
pub open spec fn hint_block() -> spec_fn(UserHintRowModel) -> Seq<char> {
    |h: UserHintRowModel| h.block_id
}

/// The project memories: neither a number nor a content of a category occurs twice.
pub open spec fn sound_memories(rows: Seq<StoredMemoryFullModel>, last: i64) -> bool {
    &&& distinct(rows, memory_number())
    &&& distinct(rows, memory_key())
    &&& up_to_last(rows, memory_number(), last)
}

/// The mutation log: no number occurs twice.
pub open spec fn sound_log(rows: Seq<ShadowMemoryMutationRowModel>, last: i64) -> bool {
    distinct(rows, mutation_number()) && up_to_last(rows, mutation_number(), last)
}

/// The workspaces: neither a number nor a name occurs twice.
pub open spec fn sound_workspaces(rows: Seq<WorkspaceRowModel>, last: i64) -> bool {
    &&& distinct(rows, workspace_number())
    &&& distinct(rows, workspace_name())
    &&& up_to_last(rows, workspace_number(), last)
}

/// The queue: neither a number nor a target of a session occurs twice.
pub open spec fn sound_drops(rows: Seq<KeyedModel<PendingAgentDropModel>>, last: i64) -> bool {
    &&& distinct(rows, drop_number())
    &&& distinct(rows, keyed(drop_target()))
    &&& up_to_last(rows, drop_number(), last)
}

/// The divergences: no number occurs twice.
pub open spec fn sound_divergences(rows: Seq<ShadowDivergenceRowModel>, last: i64) -> bool {
    distinct(rows, divergence_number()) && up_to_last(rows, divergence_number(), last)
}

/// The notes: no number occurs twice.
pub open spec fn sound_notes(rows: Seq<StoredNoteModel>, last: i64) -> bool {
    distinct(rows, note_number()) && up_to_last(rows, note_number(), last)
}

/// The tags: neither a number nor a block of a session occurs twice.
pub open spec fn sound_tags(rows: Seq<KeyedModel<McTagRowModel>>) -> bool {
    distinct(rows, keyed(tag_number())) && distinct(rows, keyed(tag_block()))
}

/// The store is sound: the keys of every table are distinct, and no row has a larger number
/// than its table assigned.
#[verifier::opaque]
pub open spec fn well_formed(s: McStoreModel) -> bool {
    &&& distinct(s.cache, session_key())
    &&& distinct(s.compartments, keyed(sequence_key()))
    &&& sound_memories(s.memories, s.last_memory_id)
    &&& sound_log(s.mutations, s.last_mutation_id)
    &&& sound_workspaces(s.workspaces, s.last_workspace_id)
    &&& distinct(s.members, member_project())
    &&& sound_drops(s.drops, s.last_drop_id)
    &&& distinct(s.ledger, keyed(ledger_command()))
    &&& distinct(s.shadow_memories, shadow_memory_key())
    &&& distinct(s.shadow_mutations, shadow_mutation_key())
    &&& sound_divergences(s.divergences, s.last_divergence_id)
    &&& distinct(s.traces, session_key())
    &&& distinct(s.transcripts, keyed(transcript_key()))
    &&& sound_notes(s.notes, s.last_note_id)
    &&& sound_tags(s.tags)
    &&& distinct(s.channel1_appends, keyed(reminder_block()))
    &&& distinct(s.user_hints, keyed(hint_block()))
    &&& distinct(s.imports, session_key())
}

/// The store with no rows is sound.
pub proof fn an_empty_store_is_well_formed()
    ensures
        well_formed(empty_store()),
{
    reveal(well_formed);
}

// --- rows that sessions have once -----------------------------------------------------

pub(crate) proof fn cache_kept(s: McStoreModel, session: Seq<char>, row: CacheRowModel)
    requires
        well_formed(s),
    ensures
        well_formed(McStoreModel { cache: put_row(s.cache, session, row), ..s }),
{
    reveal(well_formed);
    distinct_put_row(s.cache, session, row);
}

pub(crate) proof fn trace_kept(s: McStoreModel, session: Seq<char>, row: PassTraceModel)
    requires
        well_formed(s),
    ensures
        well_formed(McStoreModel { traces: put_row(s.traces, session, row), ..s }),
{
    reveal(well_formed);
    distinct_put_row(s.traces, session, row);
}

pub(crate) proof fn import_kept(s: McStoreModel, session: Seq<char>, row: ImportRowModel)
    requires
        well_formed(s),
    ensures
        well_formed(McStoreModel { imports: put_row(s.imports, session, row), ..s }),
{
    reveal(well_formed);
    distinct_put_row(s.imports, session, row);
}

// --- drops ----------------------------------------------------------------------------

proof fn fresh_targets_are_new(queued: Seq<Seq<char>>, requested: Seq<Seq<char>>)
    ensures
        fresh_targets(queued, requested).no_duplicates(),
        forall|i: int|
            0 <= i < fresh_targets(queued, requested).len() ==> !queued.contains(
                #[trigger] fresh_targets(queued, requested)[i],
            ),
    decreases requested.len(),
{
    if requested.len() > 0 {
        fresh_targets_are_new(queued, requested.drop_last());
    }
}

pub(crate) proof fn drops_kept(
    s: McStoreModel,
    session: Seq<char>,
    command: Option<Seq<char>>,
    requested: Seq<Seq<char>>,
    at_ms: i64,
)
    requires
        well_formed(s),
        !crate::store::drops::command_known(s, session, command),
        s.last_drop_id + targets_to_queue(s, session, requested).len() <= i64::MAX,
    ensures
        well_formed(with_drops(s, session, command, requested, at_ms)),
{
    reveal(well_formed);
    let targets = targets_to_queue(s, session, requested);
    let had = of_session(s.drops, session);
    let added = queued_rows(session, targets, s.last_drop_id, at_ms);
    let rows = added.map_values(|k: KeyedModel<PendingAgentDropModel>| k.row);
    fresh_targets_are_new(drop_targets(had), requested);
    assert(added =~= keyed_all(session, rows));
    distinct_in_session(s.drops, drop_target(), session);
    let all = had + rows;
    assert forall|i: int, j: int| 0 <= i < j < rows.len() implies drop_target()(#[trigger] rows[i])
        != drop_target()(#[trigger] rows[j]) by {
        assert(rows[i].target_id == targets[i] && rows[j].target_id == targets[j]);
    }
    assert forall|i: int, j: int| 0 <= i < had.len() && 0 <= j < rows.len() implies drop_target()(
        #[trigger] had[i],
    ) != drop_target()(#[trigger] rows[j]) by {
        assert(drop_targets(had)[i] == had[i].target_id);
        assert(!drop_targets(had).contains(targets[j]));
    }
    distinct_concat(had, rows, drop_target());
    distinct_append(s.drops, drop_target(), session, rows);
    assert forall|i: int, j: int| 0 <= i < s.drops.len() && 0 <= j < added.len() implies drop_number()(
        #[trigger] s.drops[i],
    ) != drop_number()(#[trigger] added[j]) by {
        assert(drop_number()(s.drops[i]) <= s.last_drop_id);
    }
    distinct_concat(s.drops, added, drop_number());
    let after = s.drops + added;
    assert forall|i: int| 0 <= i < after.len() implies drop_number()(#[trigger] after[i])
        <= s.last_drop_id + targets.len() by {
        if i < s.drops.len() {
            assert(drop_number()(s.drops[i]) <= s.last_drop_id);
        }
    }
    match command {
        Some(c) => {
            let entry = KeyedModel {
                session,
                row: LedgerRowModel { command_id: c, queued_at_ms: at_ms },
            };
            assert forall|i: int| 0 <= i < s.ledger.len() implies keyed(ledger_command())(
                #[trigger] s.ledger[i],
            ) != keyed(ledger_command())(entry) by {
                if s.ledger[i].session == session && s.ledger[i].row.command_id == c {
                    let known = of_session(s.ledger, session);
                    of_session_holds(s.ledger, session, i);
                    let k = choose|k: int| 0 <= k < known.len() && known[k] == s.ledger[i].row;
                    assert(crate::store::drops::ledger_commands(known)[k] == c);
                }
            }
            distinct_push(s.ledger, keyed(ledger_command()), entry);
        },
        None => {},
    }
}

proof fn without_drops_is_kept(
    table: Seq<KeyedModel<PendingAgentDropModel>>,
    session: Seq<char>,
    ids: Seq<i64>,
)
    ensures
        without_drops(table, session, ids) == keep_where(
            table,
            |k: KeyedModel<PendingAgentDropModel>|
                !(k.session == session && ids.contains(k.row.id)),
        ),
    decreases table.len(),
{
    let p = |k: KeyedModel<PendingAgentDropModel>|
        !(k.session == session && ids.contains(k.row.id));
    if table.len() > 0 {
        without_drops_is_kept(table.drop_last(), session, ids);
    } else {
        assert(without_drops(table, session, ids) =~= keep_where(table, p));
    }
}

proof fn sound_drops_kept(
    rows: Seq<KeyedModel<PendingAgentDropModel>>,
    last: i64,
    p: spec_fn(KeyedModel<PendingAgentDropModel>) -> bool,
)
    requires
        sound_drops(rows, last),
    ensures
        sound_drops(keep_where(rows, p), last),
{
    distinct_kept(rows, drop_number(), p);
    distinct_kept(rows, keyed(drop_target()), p);
    up_to_last_kept(rows, drop_number(), last, p);
}

pub(crate) proof fn consumed_kept(s: McStoreModel, session: Seq<char>, ids: Seq<i64>)
    requires
        well_formed(s),
    ensures
        well_formed(McStoreModel { drops: without_drops(s.drops, session, ids), ..s }),
{
    reveal(well_formed);
    without_drops_is_kept(s.drops, session, ids);
    sound_drops_kept(
        s.drops,
        s.last_drop_id,
        |k: KeyedModel<PendingAgentDropModel>| !(k.session == session && ids.contains(k.row.id)),
    );
}

// --- compartments and transcripts -----------------------------------------------------

pub(crate) proof fn replaced_kept(
    s: McStoreModel,
    session: Seq<char>,
    cs: Seq<StoredCompartmentModel>,
)
    requires
        well_formed(s),
        distinct_sequences(cs),
    ensures
        well_formed(
            McStoreModel {
                transcripts: without_session(s.transcripts, session),
                compartments: without_session(s.compartments, session) + keyed_all(session, cs),
                ..s
            },
        ),
{
    reveal(well_formed);
    distinct_without(s.transcripts, keyed(transcript_key()), session);
    let left = without_session(s.compartments, session);
    distinct_without(s.compartments, keyed(sequence_key()), session);
    crate::rows::of_session_without(s.compartments, session, session);
    assert(of_session(left, session) + cs =~= cs);
    distinct_append(left, sequence_key(), session, cs);
}

pub(crate) proof fn appended_kept(
    s: McStoreModel,
    session: Seq<char>,
    cs: Seq<StoredCompartmentModel>,
)
    requires
        well_formed(s),
        sequences_left(max_sequence(of_session(s.compartments, session)), cs.len()),
    ensures
        well_formed(
            McStoreModel {
                compartments: s.compartments + keyed_all(
                    session,
                    renumbered(cs, max_sequence(of_session(s.compartments, session))),
                ),
                ..s
            },
        ),
{
    reveal(well_formed);
    let had = of_session(s.compartments, session);
    let rows = renumbered(cs, max_sequence(had));
    distinct_in_session(s.compartments, sequence_key(), session);
    assert forall|i: int, j: int| 0 <= i < had.len() && 0 <= j < rows.len() implies sequence_key()(
        #[trigger] had[i],
    ) != sequence_key()(#[trigger] rows[j]) by {
        max_sequence_is_largest(had, i);
    }
    distinct_concat(had, rows, sequence_key());
    distinct_append(s.compartments, sequence_key(), session, rows);
}

pub(crate) proof fn imported_kept(
    s: McStoreModel,
    session: Seq<char>,
    cs: Seq<StoredCompartmentModel>,
)
    requires
        well_formed(s),
        of_session(s.compartments, session).len() == 0,
        importable(cs),
    ensures
        well_formed(
            McStoreModel { compartments: s.compartments + keyed_all(session, cs), ..s },
        ),
{
    reveal(well_formed);
    assert(of_session(s.compartments, session) + cs =~= cs);
    assert forall|i: int, j: int| 0 <= i < j < cs.len() implies sequence_key()(#[trigger] cs[i])
        != sequence_key()(#[trigger] cs[j]) by {
        importable_is_a_chain(cs, i, j);
    }
    distinct_append(s.compartments, sequence_key(), session, cs);
}

proof fn upserted_kept(
    table: Seq<KeyedModel<StoredCompartmentModel>>,
    session: Seq<char>,
    cs: Seq<StoredCompartmentModel>,
)
    requires
        distinct(table, keyed(sequence_key())),
    ensures
        distinct(with_upserted(table, session, cs), keyed(sequence_key())),
    decreases cs.len(),
{
    if cs.len() > 0 {
        upserted_kept(table, session, cs.drop_last());
        let row = KeyedModel { session, row: cs.last() };
        let p = at_sequence(session, cs.last().sequence);
        assert forall|r: KeyedModel<StoredCompartmentModel>| #[trigger] p(r) == (keyed(
            sequence_key(),
        )(r) == keyed(sequence_key())(row)) by {}
        distinct_put(
            with_upserted(table, session, cs.drop_last()),
            keyed(sequence_key()),
            p,
            row,
        );
    }
}

proof fn put_transcripts_kept(
    table: Seq<KeyedModel<TranscriptRowModel>>,
    session: Seq<char>,
    first: i64,
    cs: Seq<StoredCompartmentModel>,
    blob: Seq<u8>,
)
    requires
        distinct(table, keyed(transcript_key())),
    ensures
        distinct(with_rows(table, session, first, cs, blob), keyed(transcript_key())),
    decreases cs.len(),
{
    if cs.len() > 0 {
        let rest = with_rows(table, session, first, cs.drop_last(), blob);
        put_transcripts_kept(table, session, first, cs.drop_last(), blob);
        let sequence = (first + cs.len() - 1) as i64;
        let row = KeyedModel { session, row: transcript_row(cs.last(), sequence, blob) };
        let p = transcript_at(session, sequence);
        assert forall|r: KeyedModel<TranscriptRowModel>| #[trigger] p(r) == (keyed(
            transcript_key(),
        )(r) == keyed(transcript_key())(row)) by {}
        distinct_put(rest, keyed(transcript_key()), p, row);
    }
}

proof fn evicted_kept(table: Seq<KeyedModel<TranscriptRowModel>>, session: Seq<char>)
    requires
        distinct(table, keyed(transcript_key())),
    ensures
        distinct(evicted(table, session), keyed(transcript_key())),
{
    let aged = sorted::<TranscriptRow, AgeOrder>(of_session(table, session));
    let n = surplus(aged) as int;
    if n > 0 {
        distinct_in_session(table, transcript_key(), session);
        distinct_sorted::<TranscriptRow, AgeOrder, i64>(
            of_session(table, session),
            transcript_key(),
        );
        crate::store::transcripts::surplus_is_enough(aged);
        let kept = aged.skip(n);
        let left = without_session(table, session);
        distinct_without(table, keyed(transcript_key()), session);
        crate::rows::of_session_without(table, session, session);
        assert forall|i: int, j: int| 0 <= i < j < kept.len() implies transcript_key()(
            #[trigger] kept[i],
        ) != transcript_key()(#[trigger] kept[j]) by {
            assert(kept[i] == aged[n + i] && kept[j] == aged[n + j]);
        }
        assert(of_session(left, session) + kept =~= kept);
        distinct_append(left, transcript_key(), session, kept);
    }
}

pub(crate) proof fn transcripts_kept(
    s: McStoreModel,
    session: Seq<char>,
    first: i64,
    cs: Seq<StoredCompartmentModel>,
    text: Seq<char>,
)
    requires
        well_formed(s),
    ensures
        well_formed(
            McStoreModel {
                transcripts: with_transcripts(s.transcripts, session, first, cs, text),
                ..s
            },
        ),
{
    reveal(well_formed);
    if cs.len() > 0 {
        match kept_blob(text) {
            Some(blob) => {
                put_transcripts_kept(s.transcripts, session, first, cs, blob);
                evicted_kept(with_rows(s.transcripts, session, first, cs, blob), session);
            },
            None => {},
        }
    }
}

pub(crate) proof fn cut_kept(s: McStoreModel, session: Seq<char>, keep: i64)
    requires
        well_formed(s),
    ensures
        well_formed(
            McStoreModel {
                transcripts: keep_where(s.transcripts, transcript_stays(session, keep)),
                compartments: keep_where(s.compartments, compartment_stays(session, keep)),
                ..s
            },
        ),
{
    reveal(well_formed);
    distinct_kept(s.transcripts, keyed(transcript_key()), transcript_stays(session, keep));
    distinct_kept(s.compartments, keyed(sequence_key()), compartment_stays(session, keep));
}

// --- overlays, tags and notes ---------------------------------------------------------

pub(crate) proof fn reminder_kept(s: McStoreModel, session: Seq<char>, row: Channel1AppendRowModel)
    requires
        well_formed(s),
        !crate::store::overlays::reminded_blocks(of_session(s.channel1_appends, session)).contains(
            row.block_id,
        ),
    ensures
        well_formed(
            McStoreModel {
                channel1_appends: s.channel1_appends.push(KeyedModel { session, row }),
                ..s
            },
        ),
{
    reveal(well_formed);
    let key = keyed(reminder_block());
    let new = KeyedModel { session, row };
    let had = of_session(s.channel1_appends, session);
    assert forall|i: int| 0 <= i < s.channel1_appends.len() implies key(
        #[trigger] s.channel1_appends[i],
    ) != key(new) by {
        if s.channel1_appends[i].session == session {
            of_session_holds(s.channel1_appends, session, i);
            let k = choose|k: int| 0 <= k < had.len() && had[k] == s.channel1_appends[i].row;
            assert(crate::store::overlays::reminded_blocks(had)[k] == had[k].block_id);
        }
    }
    distinct_push(s.channel1_appends, key, new);
}

pub(crate) proof fn hint_kept(s: McStoreModel, session: Seq<char>, row: UserHintRowModel)
    requires
        well_formed(s),
        !crate::store::overlays::hinted_blocks(of_session(s.user_hints, session)).contains(
            row.block_id,
        ),
    ensures
        well_formed(
            McStoreModel { user_hints: s.user_hints.push(KeyedModel { session, row }), ..s },
        ),
{
    reveal(well_formed);
    let key = keyed(hint_block());
    let new = KeyedModel { session, row };
    let had = of_session(s.user_hints, session);
    assert forall|i: int| 0 <= i < s.user_hints.len() implies key(#[trigger] s.user_hints[i])
        != key(new) by {
        if s.user_hints[i].session == session {
            of_session_holds(s.user_hints, session, i);
            let k = choose|k: int| 0 <= k < had.len() && had[k] == s.user_hints[i].row;
            assert(crate::store::overlays::hinted_blocks(had)[k] == had[k].block_id);
        }
    }
    distinct_push(s.user_hints, key, new);
}

proof fn max_tag_is_largest(rows: Seq<McTagRowModel>, i: int)
    requires
        0 <= i < rows.len(),
    ensures
        rows[i].tag_number <= max_tag(rows),
    decreases rows.len(),
{
    if rows.len() > 1 && i < rows.len() - 1 {
        assert(rows.drop_last()[i] == rows[i]);
        max_tag_is_largest(rows.drop_last(), i);
    }
}

proof fn untagged_is_unused(rows: Seq<McTagRowModel>, block: Seq<char>)
    requires
        tag_of(rows, block) is None,
    ensures
        unused(rows, tag_block(), block),
    decreases rows.len(),
{
    if rows.len() > 0 {
        let rest = rows.drop_last();
        untagged_is_unused(rest, block);
        assert forall|i: int| 0 <= i < rows.len() implies tag_block()(#[trigger] rows[i])
            != block by {
            if i < rest.len() {
                assert(rest[i] == rows[i]);
            }
        }
    }
}

proof fn minted_kept(rows: Seq<McTagRowModel>, inputs: Seq<TagMintInputModel>, at_ms: i64)
    requires
        distinct(rows, tag_number()),
        distinct(rows, tag_block()),
        mint_failure(rows, inputs, at_ms) is None,
    ensures
        distinct(tags_after(rows, inputs, at_ms), tag_number()),
        distinct(tags_after(rows, inputs, at_ms), tag_block()),
    decreases inputs.len(),
{
    if inputs.len() > 0 {
        let before = tags_after(rows, inputs.drop_last(), at_ms);
        minted_kept(rows, inputs.drop_last(), at_ms);
        let block = trimmed(inputs.last().block_id);
        if !(block.len() == 0 || tag_of(before, block) is Some) {
            let new = new_tag(before, inputs.last(), at_ms);
            untagged_is_unused(before, block);
            assert forall|i: int| 0 <= i < before.len() implies tag_number()(#[trigger] before[i])
                != tag_number()(new) by {
                max_tag_is_largest(before, i);
            }
            distinct_push(before, tag_number(), new);
            distinct_push(before, tag_block(), new);
        }
    }
}

pub(crate) proof fn tags_kept(
    s: McStoreModel,
    session: Seq<char>,
    inputs: Seq<TagMintInputModel>,
    at_ms: i64,
)
    requires
        well_formed(s),
        mint_failure(of_session(s.tags, session), inputs, at_ms) is None,
    ensures
        ({
            let rows = of_session(s.tags, session);
            well_formed(
                McStoreModel {
                    tags: s.tags + keyed_all(
                        session,
                        tags_after(rows, inputs, at_ms).skip(rows.len() as int),
                    ),
                    ..s
                },
            )
        }),
{
    reveal(well_formed);
    let rows = of_session(s.tags, session);
    let after = tags_after(rows, inputs, at_ms);
    distinct_in_session(s.tags, tag_number(), session);
    distinct_in_session(s.tags, tag_block(), session);
    minted_kept(rows, inputs, at_ms);
    tags_keep_their_numbers(rows, inputs, at_ms, Seq::empty());
    let new = after.skip(rows.len() as int);
    assert(after.subrange(0, rows.len() as int) =~= rows);
    assert(rows + new =~= after);
    distinct_append(s.tags, tag_number(), session, new);
    distinct_append(s.tags, tag_block(), session, new);
}

pub(crate) proof fn note_added(s: McStoreModel, note: StoredNoteModel)
    requires
        well_formed(s),
        s.last_note_id < i64::MAX,
        note.id == s.last_note_id + 1,
    ensures
        well_formed(McStoreModel { notes: s.notes.push(note), last_note_id: note.id, ..s }),
{
    reveal(well_formed);
    assert forall|i: int| 0 <= i < s.notes.len() implies note_number()(#[trigger] s.notes[i])
        != note_number()(note) by {
        assert(note_number()(s.notes[i]) <= s.last_note_id);
    }
    distinct_push(s.notes, note_number(), note);
    let after = s.notes.push(note);
    assert forall|i: int| 0 <= i < after.len() implies note_number()(#[trigger] after[i])
        <= note.id by {
        if i < s.notes.len() {
            assert(note_number()(s.notes[i]) <= s.last_note_id);
        }
    }
}

pub(crate) proof fn note_kept(
    s: McStoreModel,
    wanted: spec_fn(StoredNoteModel) -> bool,
    note: StoredNoteModel,
)
    requires
        well_formed(s),
        find_where(s.notes, wanted) matches Some(n) && n.id == note.id,
    ensures
        well_formed(McStoreModel { notes: put_where(s.notes, wanted, note), ..s }),
{
    reveal(well_formed);
    first_where_first(s.notes, wanted);
    let at = first_where(s.notes, wanted)->0;
    assert forall|i: int| 0 <= i < s.notes.len() && i != at implies note_number()(
        #[trigger] s.notes[i],
    ) != note_number()(note) by {
        if i < at {
            assert(note_number()(s.notes[i]) != note_number()(s.notes[at]));
        } else {
            assert(note_number()(s.notes[at]) != note_number()(s.notes[i]));
        }
    }
    distinct_update(s.notes, note_number(), at, note);
    let after = s.notes.update(at, note);
    assert forall|i: int| 0 <= i < after.len() implies note_number()(#[trigger] after[i])
        <= s.last_note_id by {
        assert(note_number()(s.notes[i]) <= s.last_note_id);
    }
}

// --- memories -------------------------------------------------------------------------

pub(crate) proof fn logged_kept(s: McStoreModel, row: ShadowMemoryMutationRowModel)
    requires
        well_formed(s),
        s.last_mutation_id < i64::MAX,
        row.mutation.id == s.last_mutation_id + 1,
    ensures
        well_formed(
            McStoreModel {
                mutations: s.mutations.push(row),
                last_mutation_id: row.mutation.id,
                ..s
            },
        ),
{
    reveal(well_formed);
    let key = mutation_number();
    assert forall|i: int| 0 <= i < s.mutations.len() implies key(#[trigger] s.mutations[i]) != key(
        row,
    ) by {
        assert(key(s.mutations[i]) <= s.last_mutation_id);
    }
    distinct_push(s.mutations, key, row);
    let after = s.mutations.push(row);
    assert forall|i: int| 0 <= i < after.len() implies key(#[trigger] after[i])
        <= row.mutation.id by {
        if i < s.mutations.len() {
            assert(key(s.mutations[i]) <= s.last_mutation_id);
        }
    }
}

proof fn logged_all_kept(
    s: McStoreModel,
    rows: Seq<ShadowMemoryMutationRowModel>,
)
    requires
        well_formed(s),
        s.last_mutation_id + rows.len() <= i64::MAX,
        forall|k: int|
            0 <= k < rows.len() ==> (#[trigger] rows[k]).mutation.id == s.last_mutation_id + 1 + k,
    ensures
        well_formed(
            McStoreModel {
                mutations: s.mutations + rows,
                last_mutation_id: (s.last_mutation_id + rows.len()) as i64,
                ..s
            },
        ),
    decreases rows.len(),
{
    if rows.len() == 0 {
        assert(s.mutations + rows =~= s.mutations);
    } else {
        let less = rows.drop_last();
        logged_all_kept(s, less);
        let t = McStoreModel {
            mutations: s.mutations + less,
            last_mutation_id: (s.last_mutation_id + less.len()) as i64,
            ..s
        };
        logged_kept(t, rows[rows.len() - 1]);
        assert((s.mutations + less).push(rows[rows.len() - 1]) =~= s.mutations + rows);
    }
}

pub(crate) proof fn memory_added(s: McStoreModel, m: StoredMemoryFullModel)
    requires
        well_formed(s),
        s.last_memory_id < i64::MAX,
        m.id == s.last_memory_id + 1,
        first_where(s.memories, saying(m.project_path, m.category, m.normalized_hash)) is None,
    ensures
        well_formed(McStoreModel { memories: s.memories.push(m), last_memory_id: m.id, ..s }),
{
    assert(first_where(s.memories, with_id(m.id)) is None) by {
        reveal(well_formed);
        first_where_first(s.memories, with_id(m.id));
        match first_where(s.memories, with_id(m.id)) {
            Some(i) => {
                assert(memory_number()(s.memories[i]) <= s.last_memory_id);
            },
            None => {},
        }
    }
    memory_seeded(s, m);
}

pub(crate) proof fn memory_seeded(s: McStoreModel, m: StoredMemoryFullModel)
    requires
        well_formed(s),
        first_where(s.memories, with_id(m.id)) is None,
        first_where(s.memories, saying(m.project_path, m.category, m.normalized_hash)) is None,
    ensures
        well_formed(
            McStoreModel {
                memories: s.memories.push(m),
                last_memory_id: if s.last_memory_id < m.id {
                    m.id
                } else {
                    s.last_memory_id
                },
                ..s
            },
        ),
{
    reveal(well_formed);
    let p = with_id(m.id);
    let q = saying(m.project_path, m.category, m.normalized_hash);
    first_where_first(s.memories, p);
    first_where_first(s.memories, q);
    assert forall|i: int| 0 <= i < s.memories.len() implies memory_number()(
        #[trigger] s.memories[i],
    ) != memory_number()(m) && memory_key()(s.memories[i]) != memory_key()(m) by {
        assert(!p(s.memories[i]));
        assert(!q(s.memories[i]));
    }
    distinct_push(s.memories, memory_number(), m);
    distinct_push(s.memories, memory_key(), m);
    let after = s.memories.push(m);
    assert forall|i: int| 0 <= i < after.len() implies memory_number()(#[trigger] after[i]) <= (
    if s.last_memory_id < m.id {
        m.id
    } else {
        s.last_memory_id
    }) by {
        if i < s.memories.len() {
            assert(memory_number()(s.memories[i]) <= s.last_memory_id);
        }
    }
}

/// Row by row the same numbers and contents.
pub open spec fn same_identities(
    a: Seq<StoredMemoryFullModel>,
    b: Seq<StoredMemoryFullModel>,
) -> bool {
    &&& a.len() == b.len()
    &&& forall|i: int|
        0 <= i < a.len() ==> memory_number()(#[trigger] a[i]) == memory_number()(b[i])
            && memory_key()(a[i]) == memory_key()(b[i])
}

proof fn same_identities_are_sound(
    a: Seq<StoredMemoryFullModel>,
    b: Seq<StoredMemoryFullModel>,
    last: i64,
)
    requires
        same_identities(a, b),
        sound_memories(b, last),
    ensures
        sound_memories(a, last),
{
    assert forall|i: int, j: int| 0 <= i < j < a.len() implies memory_number()(#[trigger] a[i])
        != memory_number()(#[trigger] a[j]) by {
        assert(memory_number()(b[i]) != memory_number()(b[j]));
    }
    assert forall|i: int, j: int| 0 <= i < j < a.len() implies memory_key()(#[trigger] a[i])
        != memory_key()(#[trigger] a[j]) by {
        assert(memory_key()(b[i]) != memory_key()(b[j]));
    }
    assert forall|i: int| 0 <= i < a.len() implies memory_number()(#[trigger] a[i]) <= last by {
        assert(memory_number()(b[i]) <= last);
    }
}

/// Putting a memory with the number and content of one that is there changes no identity.
proof fn same_identities_put(
    a: Seq<StoredMemoryFullModel>,
    b: Seq<StoredMemoryFullModel>,
    m: StoredMemoryFullModel,
)
    requires
        same_identities(a, b),
        memory_by_id(b, m.id) matches Some(had) && memory_key()(had) == memory_key()(m),
    ensures
        same_identities(put_where(a, with_id(m.id), m), b),
{
    let p = with_id(m.id);
    first_where_first(b, p);
    let at = first_where(b, p)->0;
    assert(memory_number()(a[at]) == memory_number()(b[at]));
    assert forall|j: int| 0 <= j < at implies !p(#[trigger] a[j]) by {
        assert(!p(b[j]));
        assert(memory_number()(a[j]) == memory_number()(b[j]));
    }
    first_where_is(a, p, at);
    let after = put_where(a, p, m);
    assert forall|i: int| 0 <= i < after.len() implies memory_number()(#[trigger] after[i])
        == memory_number()(b[i]) && memory_key()(after[i]) == memory_key()(b[i]) by {
        if i != at {
            assert(after[i] == a[i]);
        }
    }
}

pub(crate) proof fn memory_seen(s: McStoreModel, at: int, m: StoredMemoryFullModel)
    requires
        well_formed(s),
        0 <= at < s.memories.len(),
        memory_number()(m) == memory_number()(s.memories[at]),
        memory_key()(m) == memory_key()(s.memories[at]),
    ensures
        well_formed(McStoreModel { memories: s.memories.update(at, m), ..s }),
{
    reveal(well_formed);
    assert(same_identities(s.memories.update(at, m), s.memories));
    same_identities_are_sound(s.memories.update(at, m), s.memories, s.last_memory_id);
}

/// A memory may get a content that no other memory of its project and category has.
proof fn rewritten_is_sound(
    rows: Seq<StoredMemoryFullModel>,
    last: i64,
    m: StoredMemoryFullModel,
    new: StoredMemoryFullModel,
    content: Seq<char>,
)
    requires
        sound_memories(rows, last),
        memory_by_id(rows, m.id) is Some,
        memory_number()(new) == m.id,
        memory_key()(new) == (m.project_path, m.category, crate::digest::normalized_hash(content)),
        clash(rows, m, m.project_path, content) is None,
    ensures
        sound_memories(put_where(rows, with_id(m.id), new), last),
{
    let p = with_id(m.id);
    let q = saying(m.project_path, m.category, crate::digest::normalized_hash(content));
    first_where_first(rows, p);
    first_where_first(rows, q);
    let at = first_where(rows, p)->0;
    assert forall|i: int| 0 <= i < rows.len() && i != at implies memory_number()(#[trigger] rows[i])
        != memory_number()(new) by {
        if i < at {
            assert(memory_number()(rows[i]) != memory_number()(rows[at]));
        } else {
            assert(memory_number()(rows[at]) != memory_number()(rows[i]));
        }
    }
    distinct_update(rows, memory_number(), at, new);
    assert forall|i: int| 0 <= i < rows.len() && i != at implies memory_key()(#[trigger] rows[i])
        != memory_key()(new) by {
        if memory_key()(rows[i]) == memory_key()(new) {
            assert(q(rows[i]));
            let k = first_where(rows, q)->0;
            assert(rows[k].id == m.id);
            assert(k == at) by {
                if k < at {
                    assert(memory_number()(rows[k]) != memory_number()(rows[at]));
                } else if at < k {
                    assert(memory_number()(rows[at]) != memory_number()(rows[k]));
                }
            }
            assert(memory_key()(rows[k]) == memory_key()(rows[i]));
            if i < k {
                assert(memory_key()(rows[i]) != memory_key()(rows[k]));
            } else {
                assert(memory_key()(rows[k]) != memory_key()(rows[i]));
            }
        }
    }
    distinct_update(rows, memory_key(), at, new);
    let after = rows.update(at, new);
    assert forall|i: int| 0 <= i < after.len() implies memory_number()(#[trigger] after[i])
        <= last by {
        assert(memory_number()(rows[i]) <= last);
    }
}

pub(crate) proof fn memory_rewritten(
    s: McStoreModel,
    m: StoredMemoryFullModel,
    content: Seq<char>,
    at_ms: i64,
)
    requires
        well_formed(s),
        memory_by_id(s.memories, m.id) == Some(m),
        clash(s.memories, m, m.project_path, content) is None,
    ensures
        well_formed(
            McStoreModel {
                memories: put_where(s.memories, with_id(m.id), rewritten(m, content, at_ms)),
                ..s
            },
        ),
{
    reveal(well_formed);
    rewritten_is_sound(
        s.memories,
        s.last_memory_id,
        m,
        rewritten(m, content, at_ms),
        content,
    );
}

proof fn archived_identities(
    rows: Seq<StoredMemoryFullModel>,
    ids: Seq<i64>,
    reason: Option<Seq<char>>,
    at_ms: i64,
)
    requires
        forall|i: int| 0 <= i < ids.len() ==> memory_by_id(rows, #[trigger] ids[i]) is Some,
    ensures
        same_identities(after_archiving(rows, ids, reason, at_ms), rows),
    decreases ids.len(),
{
    if ids.len() > 0 {
        let less = ids.drop_last();
        assert forall|i: int| 0 <= i < less.len() implies memory_by_id(
            rows,
            #[trigger] less[i],
        ) is Some by {
            assert(less[i] == ids[i]);
        }
        archived_identities(rows, less, reason, at_ms);
        assert(memory_by_id(rows, ids[ids.len() - 1]) is Some);
        let m = archived_memory(memory_by_id(rows, ids.last())->0, reason, at_ms);
        first_where_first(rows, with_id(ids.last()));
        assert(m.id == ids.last());
        same_identities_put(after_archiving(rows, less, reason, at_ms), rows, m);
    }
}

pub(crate) proof fn archived_kept(
    s: McStoreModel,
    project: Seq<char>,
    ids: Seq<i64>,
    reason: Option<Seq<char>>,
    at_ms: i64,
)
    requires
        well_formed(s),
        s.last_mutation_id + ids.len() <= i64::MAX,
        forall|i: int| 0 <= i < ids.len() ==> memory_by_id(s.memories, #[trigger] ids[i]) is Some,
    ensures
        well_formed(
            McStoreModel {
                memories: after_archiving(s.memories, ids, reason, at_ms),
                mutations: s.mutations + archive_log(project, ids, s.last_mutation_id, at_ms),
                last_mutation_id: (s.last_mutation_id + ids.len()) as i64,
                ..s
            },
        ),
{
    let log = archive_log(project, ids, s.last_mutation_id, at_ms);
    logged_all_kept(s, log);
    archived_identities(s.memories, ids, reason, at_ms);
    reveal(well_formed);
    same_identities_are_sound(
        after_archiving(s.memories, ids, reason, at_ms),
        s.memories,
        s.last_memory_id,
    );
}

proof fn superseded_identities(
    rows: Seq<StoredMemoryFullModel>,
    sources: Seq<StoredMemoryFullModel>,
    target: i64,
    at_ms: i64,
)
    requires
        forall|i: int|
            0 <= i < sources.len() ==> memory_by_id(rows, (#[trigger] sources[i]).id) == Some(
                sources[i],
            ),
    ensures
        same_identities(after_superseding(rows, sources, target, at_ms), rows),
    decreases sources.len(),
{
    if sources.len() > 0 {
        let less = sources.drop_last();
        assert forall|i: int| 0 <= i < less.len() implies memory_by_id(
            rows,
            (#[trigger] less[i]).id,
        ) == Some(less[i]) by {
            assert(less[i] == sources[i]);
        }
        superseded_identities(rows, less, target, at_ms);
        assert(memory_by_id(rows, sources[sources.len() - 1].id) == Some(
            sources[sources.len() - 1],
        ));
        same_identities_put(
            after_superseding(rows, less, target, at_ms),
            rows,
            superseded_memory(sources.last(), target, at_ms),
        );
    }
}

pub(crate) proof fn merged_kept(
    s: McStoreModel,
    project: Seq<char>,
    target: StoredMemoryFullModel,
    sources: Seq<i64>,
    content: Seq<char>,
    at_ms: i64,
)
    requires
        well_formed(s),
        memory_by_id(s.memories, target.id) == Some(target),
        mergeable(s.memories, project, target, sources),
        clash(s.memories, target, project, content) is None,
        s.last_mutation_id + ascending(sources).len() < i64::MAX,
    ensures
        well_formed(merged_store(s, project, target, sources, content, at_ms)),
{
    let ids = ascending(sources);
    let rows = memories_of(s.memories, ids);
    crate::store::merging::ascending_holds_the_same(sources);
    assert forall|i: int| 0 <= i < rows.len() implies memory_by_id(
        s.memories,
        (#[trigger] rows[i]).id,
    ) == Some(rows[i]) by {
        assert(ids.contains(ids[i]));
        assert(sources.contains(ids[i]));
        let j = choose|j: int| 0 <= j < sources.len() && sources[j] == ids[i];
        assert(memory_by_id(s.memories, sources[j]) is Some);
        first_where_first(s.memories, with_id(ids[i]));
    }
    superseded_identities(s.memories, rows, target.id, at_ms);
    let after = after_superseding(s.memories, rows, target.id, at_ms);
    let log = superseded_log(project, rows, target.id, s.last_mutation_id, at_ms);
    logged_all_kept(s, log);
    let logged = McStoreModel {
        mutations: s.mutations + log,
        last_mutation_id: (s.last_mutation_id + log.len()) as i64,
        ..s
    };
    let update = log_row(
        (s.last_mutation_id + rows.len() + 1) as i64,
        project,
        "update"@,
        target.id,
        None,
        Some(target.category),
        Some(content),
        at_ms,
    );
    logged_kept(logged, update);
    reveal(well_formed);
    same_identities_are_sound(after, s.memories, s.last_memory_id);
    let p = with_id(target.id);
    let q = saying(project, target.category, crate::digest::normalized_hash(content));
    same_first(after, s.memories, p, |m: StoredMemoryFullModel| memory_number()(m) == target.id);
    first_where_first(s.memories, p);
    first_where_first(s.memories, q);
    first_where_first(after, p);
    first_where_first(after, q);
    assert(clash(after, target, project, content) is None) by {
        match first_where(after, q) {
            Some(k) => {
                assert(memory_key()(after[k]) == memory_key()(s.memories[k]));
                assert(memory_number()(after[k]) == memory_number()(s.memories[k]));
                assert(q(s.memories[k]));
                assert forall|j: int| 0 <= j < k implies !q(#[trigger] s.memories[j]) by {
                    assert(!q(after[j]));
                    assert(memory_key()(after[j]) == memory_key()(s.memories[j]));
                }
                first_where_is(s.memories, q, k);
            },
            None => {},
        }
    }
    rewritten_is_sound(
        after,
        s.last_memory_id,
        target,
        merged_memory(target, merge_group(s.memories, target, sources), content, at_ms),
        content,
    );
    assert((s.mutations + log).push(update) =~= merged_store(
        s,
        project,
        target,
        sources,
        content,
        at_ms,
    ).mutations);
}

proof fn same_first(
    a: Seq<StoredMemoryFullModel>,
    b: Seq<StoredMemoryFullModel>,
    p: spec_fn(StoredMemoryFullModel) -> bool,
    q: spec_fn(StoredMemoryFullModel) -> bool,
)
    requires
        same_identities(a, b),
        forall|m: StoredMemoryFullModel| #[trigger] p(m) == q(m),
        forall|i: int| 0 <= i < a.len() ==> q(#[trigger] a[i]) == q(b[i]),
    ensures
        first_where(a, p) == first_where(b, p),
{
    first_where_first(a, p);
    first_where_first(b, p);
    match first_where(b, p) {
        Some(at) => {
            assert(q(a[at]) == q(b[at]));
            assert(p(a[at]));
            assert forall|j: int| 0 <= j < at implies !p(#[trigger] a[j]) by {
                assert(!p(b[j]));
                assert(q(a[j]) == q(b[j]));
            }
            first_where_is(a, p, at);
        },
        None => {
            match first_where(a, p) {
                Some(at) => {
                    assert(q(a[at]) == q(b[at]));
                    assert(!p(b[at]));
                },
                None => {},
            }
        },
    }
}

proof fn exact_hashes_differ(a: Seq<char>, b: Seq<char>, m: int, n: int)
    requires
        m != n,
    ensures
        exact_hash(a, m) != exact_hash(b, n),
{
    if exact_hash(a, m) == exact_hash(b, n) {
        let x = crate::digest::fnv1a(vstd::utf8::encode_utf8(a)) as nat;
        let y = crate::digest::fnv1a(vstd::utf8::encode_utf8(b)) as nat;
        hex_len(x, 16);
        hex_len(y, 16);
        let k = "historian-exact:"@.len() + 16 + ":"@.len();
        assert(exact_hash(a, m).skip(k as int) =~= int_text(m));
        assert(exact_hash(b, n).skip(k as int) =~= int_text(n));
        int_text_tells_apart(m, n);
    }
}

pub(crate) proof fn promoted_kept(
    s: McStoreModel,
    project: Seq<char>,
    facts: Seq<FactCandidateModel>,
)
    requires
        well_formed(s),
        promotion_failure(s, project, facts) is None,
    ensures
        well_formed(with_promoted(s, project, facts)),
{
    reveal(well_formed);
    let added = promoted_memories(s, project, facts);
    let chosen = facts_to_store(s, project, facts);
    assert forall|i: int, j: int| 0 <= i < j < added.len() implies memory_key()(
        #[trigger] added[i],
    ) != memory_key()(#[trigger] added[j]) by {
        let largest = crate::store::facts::max_id(s.memories);
        exact_hashes_differ(
            chosen[i].content,
            chosen[j].content,
            largest + 1 + i,
            largest + 1 + j,
        );
    }
    assert forall|i: int, j: int|
        0 <= i < s.memories.len() && 0 <= j < added.len() implies memory_number()(
        #[trigger] s.memories[i],
    ) != memory_number()(#[trigger] added[j]) by {
        assert(memory_number()(s.memories[i]) <= s.last_memory_id);
    }
    assert forall|i: int, j: int|
        0 <= i < s.memories.len() && 0 <= j < added.len() implies memory_key()(
        #[trigger] s.memories[i],
    ) != memory_key()(#[trigger] added[j]) by {
        let p = saying(project, added[j].category, added[j].normalized_hash);
        assert(first_where(s.memories, p) is None);
        first_where_first(s.memories, p);
        assert(!p(s.memories[i]));
    }
    distinct_concat(s.memories, added, memory_number());
    distinct_concat(s.memories, added, memory_key());
    let after = s.memories + added;
    assert forall|i: int| 0 <= i < after.len() implies memory_number()(#[trigger] after[i])
        <= s.last_memory_id + chosen.len() by {
        if i < s.memories.len() {
            assert(memory_number()(s.memories[i]) <= s.last_memory_id);
        }
    }
}

// --- workspaces and shadow tables -----------------------------------------------------

proof fn sound_workspaces_kept(
    rows: Seq<WorkspaceRowModel>,
    last: i64,
    p: spec_fn(WorkspaceRowModel) -> bool,
)
    requires
        sound_workspaces(rows, last),
    ensures
        sound_workspaces(keep_where(rows, p), last),
{
    distinct_kept(rows, workspace_number(), p);
    distinct_kept(rows, workspace_name(), p);
    up_to_last_kept(rows, workspace_number(), last, p);
}

pub(crate) proof fn workspace_added(s: McStoreModel, w: WorkspaceRowModel)
    requires
        well_formed(s),
        s.last_workspace_id < i64::MAX,
        w.id == s.last_workspace_id + 1,
        first_where(s.workspaces, workspace_named(w.name)) is None,
    ensures
        well_formed(McStoreModel { workspaces: s.workspaces.push(w), last_workspace_id: w.id, ..s }),
{
    reveal(well_formed);
    let p = workspace_named(w.name);
    first_where_first(s.workspaces, p);
    assert forall|i: int| 0 <= i < s.workspaces.len() implies workspace_number()(
        #[trigger] s.workspaces[i],
    ) != workspace_number()(w) && workspace_name()(s.workspaces[i]) != workspace_name()(w) by {
        assert(workspace_number()(s.workspaces[i]) <= s.last_workspace_id);
        assert(!p(s.workspaces[i]));
    }
    distinct_push(s.workspaces, workspace_number(), w);
    distinct_push(s.workspaces, workspace_name(), w);
    let after = s.workspaces.push(w);
    assert forall|i: int| 0 <= i < after.len() implies workspace_number()(#[trigger] after[i])
        <= w.id by {
        if i < s.workspaces.len() {
            assert(workspace_number()(s.workspaces[i]) <= s.last_workspace_id);
        }
    }
}

pub(crate) proof fn member_added(s: McStoreModel, m: WorkspaceMemberRowModel)
    requires
        well_formed(s),
        first_where(s.members, member_at(m.project_path)) is None,
    ensures
        well_formed(McStoreModel { members: s.members.push(m), ..s }),
{
    reveal(well_formed);
    let p = member_at(m.project_path);
    first_where_first(s.members, p);
    assert forall|i: int| 0 <= i < s.members.len() implies member_project()(#[trigger] s.members[i])
        != member_project()(m) by {
        assert(!p(s.members[i]));
    }
    distinct_push(s.members, member_project(), m);
}

proof fn workspaces_removed(s: McStoreModel, project: Seq<char>)
    requires
        well_formed(s),
    ensures
        well_formed(without_workspaces(s, project)),
{
    reveal(well_formed);
    let ids = workspace_ids(s, project);
    sound_workspaces_kept(s.workspaces, s.last_workspace_id, workspace_stays(ids));
    distinct_kept(s.members, member_project(), member_stays(ids));
}

proof fn workspace_opened(s: McStoreModel, w: ShadowWorkspaceRowModel)
    requires
        well_formed(s),
        s.last_workspace_id < i64::MAX,
        first_where(s.workspaces, workspace_named(w.name)) is None,
        members_free(s.members, w.members),
    ensures
        well_formed(with_workspace(s, w)),
{
    let id = (s.last_workspace_id + 1) as i64;
    let row = WorkspaceRowModel {
        id,
        name: w.name,
        created_at: 0,
        updated_at: 0,
        share_categories: crate::json::strings_text(w.share_categories),
    };
    workspace_added(s, row);
    reveal(well_formed);
    let added = new_members(id, w.members);
    assert forall|i: int, j: int| 0 <= i < j < added.len() implies member_project()(
        #[trigger] added[i],
    ) != member_project()(#[trigger] added[j]) by {
        assert(w.members[i].project_path != w.members[j].project_path);
    }
    assert forall|i: int, j: int|
        0 <= i < s.members.len() && 0 <= j < added.len() implies member_project()(
        #[trigger] s.members[i],
    ) != member_project()(#[trigger] added[j]) by {
        let p = member_at(w.members[j].project_path);
        assert(first_where(s.members, p) is None);
        first_where_first(s.members, p);
        assert(!p(s.members[i]));
    }
    distinct_concat(s.members, added, member_project());
}

pub(crate) proof fn workspace_swapped(
    s: McStoreModel,
    project: Seq<char>,
    workspace: Option<ShadowWorkspaceRowModel>,
)
    requires
        well_formed(s),
        crate::store::shadow::workspace_replaced(s, project, workspace) is Ok,
    ensures
        well_formed(crate::store::shadow::workspace_replaced(s, project, workspace)->Ok_0),
{
    workspaces_removed(s, project);
    match workspace {
        Some(w) => {
            workspace_opened(without_workspaces(s, project), w);
        },
        None => {},
    }
}

proof fn shadow_memories_put(
    rows: Seq<ShadowMemoryRowModel>,
    given: Seq<ShadowMemoryRowModel>,
)
    requires
        distinct(rows, shadow_memory_key()),
    ensures
        distinct(with_shadow_memories(rows, given), shadow_memory_key()),
    decreases given.len(),
{
    if given.len() > 0 {
        shadow_memories_put(rows, given.drop_last());
        let m = given.last();
        let p = shadow_memory_at(m.project_path, m.id);
        assert forall|r: ShadowMemoryRowModel| #[trigger] p(r) == (shadow_memory_key()(r)
            == shadow_memory_key()(m)) by {}
        distinct_put(with_shadow_memories(rows, given.drop_last()), shadow_memory_key(), p, m);
    }
}

proof fn shadow_mutations_put(
    rows: Seq<ShadowMemoryMutationRowModel>,
    given: Seq<ShadowMemoryMutationRowModel>,
)
    requires
        distinct(rows, shadow_mutation_key()),
    ensures
        distinct(with_shadow_mutations(rows, given), shadow_mutation_key()),
    decreases given.len(),
{
    if given.len() > 0 {
        shadow_mutations_put(rows, given.drop_last());
        let m = given.last();
        let p = shadow_mutation_at(m.project_path, m.mutation.id);
        assert forall|r: ShadowMemoryMutationRowModel| #[trigger] p(r) == (shadow_mutation_key()(r)
            == shadow_mutation_key()(m)) by {}
        distinct_put(with_shadow_mutations(rows, given.drop_last()), shadow_mutation_key(), p, m);
    }
}

pub(crate) proof fn mirrored_kept(
    s: McStoreModel,
    session: Seq<char>,
    cs: Seq<StoredCompartmentModel>,
    memories: Seq<ShadowMemoryRowModel>,
    mutations: Seq<ShadowMemoryMutationRowModel>,
)
    requires
        well_formed(s),
    ensures
        well_formed(
            McStoreModel {
                compartments: with_upserted(s.compartments, session, cs),
                shadow_memories: with_shadow_memories(s.shadow_memories, memories),
                shadow_mutations: with_shadow_mutations(s.shadow_mutations, mutations),
                ..s
            },
        ),
{
    reveal(well_formed);
    upserted_kept(s.compartments, session, cs);
    shadow_memories_put(s.shadow_memories, memories);
    shadow_mutations_put(s.shadow_mutations, mutations);
}

pub(crate) proof fn lineage_removed(s: McStoreModel, session: Seq<char>, project: Seq<char>)
    requires
        well_formed(s),
    ensures
        ({
            let paths = lineage_paths(s, project);
            well_formed(
                McStoreModel {
                    compartments: without_session(s.compartments, session),
                    drops: without_session(s.drops, session),
                    ledger: without_session(s.ledger, session),
                    shadow_memories: keep_where(s.shadow_memories, shadow_memory_stays(paths)),
                    shadow_mutations: keep_where(
                        s.shadow_mutations,
                        shadow_mutation_stays(paths),
                    ),
                    ..without_workspaces(s, project)
                },
            )
        }),
{
    workspaces_removed(s, project);
    reveal(well_formed);
    let paths = lineage_paths(s, project);
    distinct_without(s.compartments, keyed(sequence_key()), session);
    without_session_is_kept(s.drops, session);
    sound_drops_kept(
        s.drops,
        s.last_drop_id,
        |k: KeyedModel<PendingAgentDropModel>| k.session != session,
    );
    distinct_without(s.ledger, keyed(ledger_command()), session);
    distinct_kept(s.shadow_memories, shadow_memory_key(), shadow_memory_stays(paths));
    distinct_kept(s.shadow_mutations, shadow_mutation_key(), shadow_mutation_stays(paths));
}

pub(crate) proof fn divergence_added(s: McStoreModel, row: ShadowDivergenceRowModel)
    requires
        well_formed(s),
        s.last_divergence_id < i64::MAX,
        row.id == s.last_divergence_id + 1,
    ensures
        well_formed(
            McStoreModel {
                divergences: s.divergences.push(row),
                last_divergence_id: row.id,
                ..s
            },
        ),
{
    reveal(well_formed);
    let key = divergence_number();
    assert forall|i: int| 0 <= i < s.divergences.len() implies key(#[trigger] s.divergences[i])
        != key(row) by {
        assert(key(s.divergences[i]) <= s.last_divergence_id);
    }
    distinct_push(s.divergences, key, row);
    let after = s.divergences.push(row);
    assert forall|i: int| 0 <= i < after.len() implies key(#[trigger] after[i]) <= row.id by {
        if i < s.divergences.len() {
            assert(key(s.divergences[i]) <= s.last_divergence_id);
        }
    }
}

} // verus!

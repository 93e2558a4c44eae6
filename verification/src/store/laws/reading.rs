//! What readings of memories, notes and tags are for.

use vstd::prelude::*;

use crate::rows::{
    first_where, first_where_first, in_order, keep_where, largest, largest_bounds, sorted,
};
use crate::store::McStoreModel;
use crate::store::laws::rows::a_reading_holds_what_is_accepted;
use crate::store::notes::{
    active_note, active_note_numbered, note_changed, note_dismissed, note_limit, note_rewritten,
    NoteOrder,
};
use crate::store::reading::{
    brief, correcting, corrections, memory_ids, memory_rows, mutation_ids, mutation_rows,
    render_snapshot, rendered, rendered_rows, some_shadow, RenderOrder,
};
use crate::store::records::{
    McTagRowModel, ShadowMemoryMutationRowModel, StoredMemory, StoredMemoryFullModel,
    StoredMemoryModel, StoredMemoryMutation, StoredMemoryMutationModel, StoredNote, StoredNoteModel,
    TagMintInputModel, WorkspaceMembershipModel,
};
use crate::store::tags::{requested_tags, tag_of, tags_after, tags_keep_their_numbers, token_sum};
use crate::text::trimmed;

verus! {

// --- memories -----------------------------------------------------------------------------

/// Whether a render of a project at a time is to show a memory: it is live, it did not expire,
/// and it is the project's own or, of a workspace, another member's in a shared category.
pub open spec fn is_to_be_shown(
    m: StoredMemoryFullModel,
    project: Seq<char>,
    membership: Option<WorkspaceMembershipModel>,
    now_ms: i64,
) -> bool {
    &&& m.status == "active"@ || m.status == "permanent"@
    &&& m.expires_at matches Some(t) ==> t > now_ms
    &&& match membership {
        None => m.project_path == project,
        Some(w) => m.project_path == w.own_identity || (w.union_identities.contains(
            m.project_path,
        ) && w.share_categories.contains(m.category)),
    }
}

/// What a render reads of a memory is what the memory says.
pub open spec fn shows(shown: StoredMemoryModel, m: StoredMemoryFullModel) -> bool {
    &&& shown.id == m.id
    &&& shown.project_path == m.project_path
    &&& shown.category == m.category
    &&& shown.content == m.content
    &&& shown.importance == m.importance
    &&& shown.status == m.status
    &&& shown.expires_at == m.expires_at
    &&& shown.updated_at == m.updated_at
}

/// How much a memory weighs in a render: its importance, or the middle where it has none.
pub open spec fn weighs(m: StoredMemoryModel) -> int {
    match m.importance {
        Some(n) => n as int,
        None => 50,
    }
}

/// A render of a project shows each memory that is to be shown, as it is, and no other, the
/// weightier first and equally weighty ones by number.
pub proof fn a_render_shows_what_is_to_be_shown(
    s: McStoreModel,
    project: Seq<char>,
    membership: Option<WorkspaceMembershipModel>,
    now_ms: i64,
)
    ensures
        ({
            let rows = rendered_rows(s, false, project, membership, now_ms);
            &&& forall|i: int|
                0 <= i < s.memories.len() && is_to_be_shown(
                    #[trigger] s.memories[i],
                    project,
                    membership,
                    now_ms,
                ) ==> exists|k: int| 0 <= k < rows.len() && shows(#[trigger] rows[k], s.memories[i])
            &&& forall|k: int|
                0 <= k < rows.len() ==> exists|i: int|
                    0 <= i < s.memories.len() && shows(#[trigger] rows[k], #[trigger] s.memories[i])
                        && is_to_be_shown(s.memories[i], project, membership, now_ms)
            &&& forall|a: int, b: int|
                0 <= a < b < rows.len() ==> weighs(#[trigger] rows[a]) > weighs(#[trigger] rows[b])
                    || (weighs(rows[a]) == weighs(rows[b]) && rows[a].id <= rows[b].id)
        }),
{
    let all = memory_rows(s, false);
    let p = rendered(project, membership, now_ms);
    let rows = rendered_rows(s, false, project, membership, now_ms);
    assert forall|i: int|
        0 <= i < s.memories.len() && is_to_be_shown(
            #[trigger] s.memories[i],
            project,
            membership,
            now_ms,
        ) implies exists|k: int| 0 <= k < rows.len() && shows(#[trigger] rows[k], s.memories[i]) by {
        assert(all[i] == brief(s.memories[i]));
        assert(all.contains(all[i]));
        a_reading_holds_what_is_accepted::<StoredMemory, RenderOrder>(all, p, all[i]);
        let k = choose|k: int| 0 <= k < rows.len() && rows[k] == all[i];
        assert(shows(rows[k], s.memories[i]));
    }
    assert forall|k: int| 0 <= k < rows.len() implies exists|i: int|
        0 <= i < s.memories.len() && shows(#[trigger] rows[k], #[trigger] s.memories[i])
            && is_to_be_shown(s.memories[i], project, membership, now_ms) by {
        assert(rows.contains(rows[k]));
        a_reading_holds_what_is_accepted::<StoredMemory, RenderOrder>(all, p, rows[k]);
        let i = choose|i: int| 0 <= i < all.len() && all[i] == rows[k];
        assert(all[i] == brief(s.memories[i]));
        assert(shows(rows[k], s.memories[i]));
    }
    if rows.len() > 0 {
        a_reading_holds_what_is_accepted::<StoredMemory, RenderOrder>(all, p, rows[0]);
        assert(in_order::<StoredMemory, RenderOrder>(rows));
    }
}

/// The numbers that a snapshot of memories goes up to bound those of all memories and of all
/// log rows of its projects, and are the number of one of them where there is one.
pub proof fn a_snapshot_tells_how_far_it_goes(
    s: McStoreModel,
    project: Seq<char>,
    membership: Option<WorkspaceMembershipModel>,
    now_ms: i64,
)
    requires
        !crate::store::reading::shadow_path(project),
    ensures
        ({
            let snapshot = render_snapshot(s, project, membership, now_ms);
            let paths = snapshot.revision.project_paths;
            &&& paths == (match membership {
                Some(w) => w.union_identities,
                None => seq![project],
            })
            &&& snapshot.memories == rendered_rows(s, false, project, membership, now_ms)
            &&& forall|i: int|
                0 <= i < s.memories.len() && paths.contains((#[trigger] s.memories[i]).project_path)
                    ==> s.memories[i].id <= snapshot.revision.max_memory_id
            &&& forall|i: int|
                0 <= i < s.mutations.len() && paths.contains(
                    (#[trigger] s.mutations[i]).project_path,
                ) ==> s.mutations[i].mutation.id <= snapshot.revision.mutation_cursor
            &&& snapshot.revision.max_memory_id == 0 || exists|i: int|
                0 <= i < s.memories.len() && (#[trigger] s.memories[i]).id
                    == snapshot.revision.max_memory_id
            &&& snapshot.revision.mutation_cursor == 0 || exists|i: int|
                0 <= i < s.mutations.len() && (#[trigger] s.mutations[i]).mutation.id
                    == snapshot.revision.mutation_cursor
        }),
{
    let snapshot = render_snapshot(s, project, membership, now_ms);
    let paths = snapshot.revision.project_paths;
    let all = memory_rows(s, false);
    let mine = |m: StoredMemoryModel| paths.contains(m.project_path);
    let kept = keep_where(all, mine);
    let ids = memory_ids(s, false, paths);
    let log = mutation_rows(s, false);
    let logged = crate::store::reading::log_of(paths);
    let rows = keep_where(log, logged);
    let numbers = mutation_ids(s, false, paths);
    largest_bounds(ids);
    largest_bounds(numbers);
    crate::rows::kept_is_accepted(all, mine);
    crate::rows::kept_is_accepted(log, logged);
    assert forall|i: int|
        0 <= i < s.memories.len() && paths.contains((#[trigger] s.memories[i]).project_path) implies
        s.memories[i].id <= snapshot.revision.max_memory_id by {
        assert(all[i] == brief(s.memories[i]));
        assert(all.contains(all[i]));
        crate::rows::accepted_is_kept(all, mine, all[i]);
        let k = choose|k: int| 0 <= k < kept.len() && kept[k] == all[i];
        assert(ids[k] == s.memories[i].id);
    }
    assert forall|i: int|
        0 <= i < s.mutations.len() && paths.contains((#[trigger] s.mutations[i]).project_path) implies
        s.mutations[i].mutation.id <= snapshot.revision.mutation_cursor by {
        assert(log.contains(log[i]));
        crate::rows::accepted_is_kept(log, logged, log[i]);
        let k = choose|k: int| 0 <= k < rows.len() && rows[k] == log[i];
        assert(numbers[k] == s.mutations[i].mutation.id);
    }
    if ids.len() > 0 {
        let k = choose|k: int| 0 <= k < ids.len() && ids[k] == largest(ids);
        assert(all.contains(kept[k]));
        let i = choose|i: int| 0 <= i < all.len() && all[i] == kept[k];
        assert(s.memories[i].id == largest(ids));
    }
    if numbers.len() > 0 {
        let k = choose|k: int| 0 <= k < numbers.len() && numbers[k] == largest(numbers);
        assert(log.contains(rows[k]));
        let i = choose|i: int| 0 <= i < log.len() && log[i] == rows[k];
        assert(s.mutations[i].mutation.id == largest(numbers));
    }
}

/// The corrections of a baseline are all log rows of its projects behind its cursor about a
/// memory that it shows, and no others, by number.
pub proof fn corrections_are_what_came_after(
    s: McStoreModel,
    paths: Seq<Seq<char>>,
    after_id: i64,
    shown: Seq<i64>,
    m: StoredMemoryMutationModel,
)
    requires
        !some_shadow(paths),
    ensures
        ({
            let rows = corrections(s, paths, after_id, shown);
            &&& rows.contains(m) <==> exists|i: int|
                0 <= i < s.mutations.len() && (#[trigger] s.mutations[i]).mutation == m
                    && paths.contains(s.mutations[i].project_path) && m.id > after_id
                    && shown.contains(m.target_memory_id)
            &&& forall|a: int, b: int|
                0 <= a < b < rows.len() ==> (#[trigger] rows[a]).id <= (#[trigger] rows[b]).id
        }),
{
    let p = correcting(paths, after_id, shown);
    let kept = keep_where(s.mutations, p);
    let plain = kept.map_values(|x: ShadowMemoryMutationRowModel| x.mutation);
    let rows = corrections(s, paths, after_id, shown);
    crate::rows::sorted_holds_the_same::<
        StoredMemoryMutation,
        crate::store::mutations::MutationOrder,
    >(plain, m);
    crate::rows::sorted_is_ordered::<
        StoredMemoryMutation,
        crate::store::mutations::MutationOrder,
    >(plain);
    crate::rows::kept_is_accepted(s.mutations, p);
    if rows.contains(m) {
        let k = choose|k: int| 0 <= k < plain.len() && plain[k] == m;
        assert(s.mutations.contains(kept[k]));
        let i = choose|i: int| 0 <= i < s.mutations.len() && s.mutations[i] == kept[k];
        assert(s.mutations[i].mutation == m);
    }
    if exists|i: int|
        0 <= i < s.mutations.len() && (#[trigger] s.mutations[i]).mutation == m && paths.contains(
            s.mutations[i].project_path,
        ) && m.id > after_id && shown.contains(m.target_memory_id) {
        let i = choose|i: int|
            0 <= i < s.mutations.len() && (#[trigger] s.mutations[i]).mutation == m
                && paths.contains(s.mutations[i].project_path) && m.id > after_id
                && shown.contains(m.target_memory_id);
        crate::rows::accepted_is_kept(s.mutations, p, s.mutations[i]);
        let k = choose|k: int| 0 <= k < kept.len() && kept[k] == s.mutations[i];
        assert(plain[k] == m);
    }
}

// --- notes --------------------------------------------------------------------------------

/// What a reading of notes goes through: all active notes of the session of the project and
/// no other, those changed last first. It shows at least one and at most a hundred at a time.
pub proof fn readings_go_through_active_notes(
    s: McStoreModel,
    project: Seq<char>,
    session: Seq<char>,
    n: StoredNoteModel,
    limit: nat,
)
    ensures
        ({
            let all = sorted::<StoredNote, NoteOrder>(
                keep_where(s.notes, active_note(project, session)),
            );
            &&& all.contains(n) <==> (s.notes.contains(n) && n.project_path == project
                && n.session_id == session && n.status == "active"@)
            &&& forall|a: int, b: int|
                0 <= a < b < all.len() ==> (#[trigger] all[a]).updated_at_ms >= (
                #[trigger] all[b]).updated_at_ms
            &&& 1 <= note_limit(limit) <= 100
            &&& 1 <= limit <= 100 ==> note_limit(limit) == limit
        }),
{
    a_reading_holds_what_is_accepted::<StoredNote, NoteOrder>(
        s.notes,
        active_note(project, session),
        n,
    );
}

/// A change to a note by number changes the first active note of the session that has it, and
/// no other row: the one that the change returns stands in its place.
pub proof fn a_note_changes_alone(
    before: McStoreModel,
    after: McStoreModel,
    project: Seq<char>,
    session: Seq<char>,
    id: i64,
    changed: spec_fn(StoredNoteModel) -> StoredNoteModel,
    result: Option<StoredNoteModel>,
)
    requires
        note_changed(
            before,
            after,
            active_note_numbered(project, session, id),
            changed,
            result,
        ),
    ensures
        after.notes.len() == before.notes.len(),
        result is Some <==> exists|i: int|
            0 <= i < before.notes.len() && (#[trigger] before.notes[i]).id == id
                && before.notes[i].project_path == project && before.notes[i].session_id == session
                && before.notes[i].status == "active"@,
        result is None ==> after == before,
        result matches Some(n) ==> exists|i: int|
            0 <= i < before.notes.len() && (#[trigger] after.notes[i]) == n && n == changed(
                before.notes[i],
            ) && before.notes[i].id == id && before.notes[i].status == "active"@ && (forall|j: int|
                0 <= j < before.notes.len() && j != i ==> #[trigger] after.notes[j]
                    == before.notes[j]),
{
    let p = active_note_numbered(project, session, id);
    first_where_first(before.notes, p);
    match first_where(before.notes, p) {
        Some(i) => {
            assert(p(before.notes[i]));
            assert(after.notes[i] == changed(before.notes[i]));
        },
        None => {
            assert forall|i: int| 0 <= i < before.notes.len() implies !((
            #[trigger] before.notes[i]).id == id && before.notes[i].project_path == project
                && before.notes[i].session_id == session && before.notes[i].status == "active"@) by {
                assert(!p(before.notes[i]));
            }
        },
    }
}

/// A note that is dismissed keeps what it says, and behind it says the resolution where one is
/// given. One that is rewritten says the new text and stays active.
pub proof fn dismissed_notes_keep_what_they_say(
    n: StoredNoteModel,
    resolution: Option<Seq<char>>,
    content: Seq<char>,
    now_ms: i64,
)
    ensures
        ({
            let gone = note_dismissed(n, resolution, now_ms);
            let new = note_rewritten(n, content, now_ms);
            &&& gone.id == n.id
            &&& gone.status == "dismissed"@
            &&& gone.updated_at_ms == now_ms
            &&& n.content.is_prefix_of(gone.content)
            &&& match resolution {
                Some(r) => if trimmed(r).len() > 0 {
                    trimmed(r).is_suffix_of(gone.content) && gone.content.len() > n.content.len()
                } else {
                    gone.content == n.content
                },
                None => gone.content == n.content,
            }
            &&& gone.project_path == n.project_path
            &&& gone.session_id == n.session_id
            &&& gone.created_at_ms == n.created_at_ms
            &&& new.id == n.id
            &&& new.content == trimmed(content)
            &&& new.status == n.status
            &&& new.updated_at_ms == now_ms
            &&& new.surface_condition == n.surface_condition
        }),
{
    let gone = note_dismissed(n, resolution, now_ms);
    assert(n.content =~= gone.content.subrange(0, n.content.len() as int));
    if let Some(r) = resolution {
        let t = trimmed(r);
        if t.len() > 0 {
            assert(t =~= gone.content.subrange(gone.content.len() - t.len(), gone.content.len() as int));
        }
    }
}

// --- tags ---------------------------------------------------------------------------------

/// A tag that is minted tells of its block what the first sight of it told, and the tags of
/// one session are minted for different blocks.
pub proof fn a_new_tag_tells_its_block(
    rows: Seq<McTagRowModel>,
    inputs: Seq<TagMintInputModel>,
    at_ms: i64,
    k: int,
)
    requires
        rows.len() <= k < tags_after(rows, inputs, at_ms).len(),
    ensures
        ({
            let t = tags_after(rows, inputs, at_ms)[k];
            &&& t.created_at_ms == at_ms
            &&& t.block_id.len() > 0
            &&& tag_of(rows, t.block_id) is None
            &&& exists|i: int|
                0 <= i < inputs.len() && trimmed((#[trigger] inputs[i]).block_id) == t.block_id
                    && inputs[i].kind == t.kind && inputs[i].source_bytes == t.source_bytes
                    && t.token_count == (if inputs[i].token_count < 0 {
                    0
                } else {
                    inputs[i].token_count
                }) && (forall|j: int|
                    0 <= j < i ==> trimmed((#[trigger] inputs[j]).block_id) != t.block_id)
        }),
    decreases inputs.len(),
{
    if inputs.len() > 0 {
        let rest = inputs.drop_last();
        let before = tags_after(rows, rest, at_ms);
        let after = tags_after(rows, inputs, at_ms);
        if k < before.len() {
            a_new_tag_tells_its_block(rows, rest, at_ms, k);
            let t = before[k];
            assert(after[k] == t);
            let i = choose|i: int|
                0 <= i < rest.len() && trimmed((#[trigger] rest[i]).block_id) == t.block_id
                    && rest[i].kind == t.kind && rest[i].source_bytes == t.source_bytes
                    && t.token_count == (if rest[i].token_count < 0 {
                    0
                } else {
                    rest[i].token_count
                }) && (forall|j: int|
                    0 <= j < i ==> trimmed((#[trigger] rest[j]).block_id) != t.block_id);
            assert(inputs[i] == rest[i]);
            assert forall|j: int| 0 <= j < i implies trimmed((#[trigger] inputs[j]).block_id)
                != t.block_id by {
                assert(rest[j] == inputs[j]);
            }
        } else {
            let block = trimmed(inputs.last().block_id);
            let last = inputs.len() - 1;
            assert(inputs[last] == inputs.last());
            tags_keep_their_numbers(rows, rest, at_ms, block);
            assert forall|j: int| 0 <= j < last implies trimmed((#[trigger] inputs[j]).block_id)
                != block by {
                assert(rest[j] == inputs[j]);
                if trimmed(inputs[j].block_id) == block {
                    crate::store::tags::requested_blocks_are_tagged(rows, rest, at_ms, j);
                }
            }
        }
    }
}

/// The answer to a request for tags has one for each block that is not blank, in the order of
/// the request, and it is the tag of that block.
pub proof fn each_block_is_answered_with_its_tag(
    rows: Seq<McTagRowModel>,
    inputs: Seq<TagMintInputModel>,
    at_ms: i64,
)
    requires
        forall|i: int|
            0 <= i < inputs.len() ==> trimmed((#[trigger] inputs[i]).block_id).len() > 0,
    ensures
        ({
            let after = tags_after(rows, inputs, at_ms);
            let out = requested_tags(after, inputs);
            &&& out.len() == inputs.len()
            &&& forall|i: int|
                0 <= i < inputs.len() ==> (#[trigger] out[i]).block_id == trimmed(
                    inputs[i].block_id,
                ) && after.contains(out[i])
        }),
{
    let after = tags_after(rows, inputs, at_ms);
    answered_so_far(after, inputs);
    let out = requested_tags(after, inputs);
    assert forall|i: int| 0 <= i < inputs.len() implies (#[trigger] out[i]).block_id == trimmed(
        inputs[i].block_id,
    ) && after.contains(out[i]) by {
        crate::store::tags::requested_blocks_are_tagged(rows, inputs, at_ms, i);
        a_tag_is_of_its_block(after, trimmed(inputs[i].block_id));
    }
}

proof fn answered_so_far(after: Seq<McTagRowModel>, inputs: Seq<TagMintInputModel>)
    requires
        forall|i: int|
            0 <= i < inputs.len() ==> trimmed((#[trigger] inputs[i]).block_id).len() > 0,
    ensures
        requested_tags(after, inputs).len() == inputs.len(),
        forall|i: int|
            0 <= i < inputs.len() ==> (#[trigger] requested_tags(after, inputs)[i]) == tag_of(
                after,
                trimmed(inputs[i].block_id),
            )->0,
    decreases inputs.len(),
{
    if inputs.len() > 0 {
        let rest = inputs.drop_last();
        assert forall|i: int| 0 <= i < rest.len() implies trimmed((#[trigger] rest[i]).block_id).len()
            > 0 by {
            assert(rest[i] == inputs[i]);
        }
        answered_so_far(after, rest);
        assert(inputs[inputs.len() - 1] == inputs.last());
        let out = requested_tags(after, inputs);
        let less = requested_tags(after, rest);
        assert forall|i: int| 0 <= i < inputs.len() implies (#[trigger] out[i]) == tag_of(
            after,
            trimmed(inputs[i].block_id),
        )->0 by {
            if i < rest.len() {
                assert(out[i] == less[i]);
                assert(rest[i] == inputs[i]);
            }
        }
    }
}

/// The tag that is found of a block is one of the tags, and that block's.
pub proof fn a_tag_is_of_its_block(rows: Seq<McTagRowModel>, block: Seq<char>)
    ensures
        tag_of(rows, block) matches Some(t) ==> t.block_id == block && rows.contains(t),
        tag_of(rows, block) is None ==> forall|i: int|
            0 <= i < rows.len() ==> (#[trigger] rows[i]).block_id != block,
    decreases rows.len(),
{
    if rows.len() > 0 {
        let rest = rows.drop_last();
        a_tag_is_of_its_block(rest, block);
        assert(rows[rows.len() - 1] == rows.last());
        if let Some(t) = tag_of(rest, block) {
            let i = choose|i: int| 0 <= i < rest.len() && rest[i] == t;
            assert(rows[i] == t);
        } else {
            assert forall|i: int| 0 <= i < rows.len() && tag_of(rows, block) is None implies (
            #[trigger] rows[i]).block_id != block by {
                if i < rest.len() {
                    assert(rest[i] == rows[i]);
                }
            }
        }
    }
}

/// The tokens of blocks are counted tag by tag: those of two groups of tags together are those
/// of the one and those of the other, and one tag counts its tokens where its block is meant.
pub proof fn tokens_are_counted_tag_by_tag(
    a: Seq<McTagRowModel>,
    b: Seq<McTagRowModel>,
    t: McTagRowModel,
    blocks: Seq<Seq<char>>,
)
    ensures
        token_sum(a + b, blocks) == token_sum(a, blocks) + token_sum(b, blocks),
        token_sum(seq![t], blocks) == (if blocks.contains(t.block_id) && t.token_count > 0 {
            t.token_count as int
        } else {
            0
        }),
    decreases b.len(),
{
    assert(seq![t].drop_last() =~= Seq::<McTagRowModel>::empty());
    assert(token_sum(seq![t].drop_last(), blocks) == 0);
    if b.len() == 0 {
        assert(a + b =~= a);
    } else {
        tokens_are_counted_tag_by_tag(a, b.drop_last(), t, blocks);
        assert((a + b).drop_last() =~= a + b.drop_last());
    }
}

} // verus!

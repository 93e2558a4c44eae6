//! What single records say after a change.

use vstd::prelude::*;

use crate::digest::normalized_hash;
use crate::rows::{first_where_first, opt_text};
use crate::store::McStoreModel;
use crate::store::cache::{commit_conflicts, loaded};
use crate::store::limits::{each_once, utf8_len, MAX_VALUES};
use crate::store::memories::{
    archivable, archived_memory, changeable, clash, inserted_memory, log_row, rewritten, saying,
    InsertMemoryInput,
};
use crate::store::mutations::standing;
use crate::store::notes::{new_note, note_limit, note_rewritten, NoteInput};
use crate::store::overlays::{hinted_blocks, later_hint, reminded_blocks};
use crate::store::reading::stored_revision;
use crate::store::records::{
    Channel1AppendRowModel, McTagRowModel, MemoryRevisionModel, StoredMemoryFullModel,
    StoredMemoryMutationModel, StoredNoteModel, UserHintRowModel,
};
use crate::store::trace::{capped, TRACE_ERROR_CHARS};
use crate::text::{blank, trimmed};

verus! {

// --- memories -----------------------------------------------------------------------------

/// A memory that is inserted says what was given, is active and unverified, was seen once and
/// never retrieved, and all its times are that of the insertion.
pub proof fn an_inserted_memory_says_what_was_given(input: InsertMemoryInput, id: i64)
    ensures
        ({
            let m = inserted_memory(input, id);
            &&& m.id == id
            &&& m.project_path == input.project_path@
            &&& m.category == input.category@
            &&& m.content == input.content@
            &&& m.normalized_hash == normalized_hash(input.content@)
            &&& m.importance == input.importance
            &&& m.expires_at == input.expires_at
            &&& m.source_session_id == opt_text(input.source_session_id)
            &&& m.metadata_json == opt_text(input.metadata_json)
            &&& (input.source_type matches Some(t) ==> m.source_type == Some(t@))
            &&& input.source_type is None ==> m.source_type == Some("historian"@)
            &&& m.status == "active"@
            &&& m.verification_status == "unverified"@
            &&& m.seen_count == 1
            &&& m.retrieval_count == 0
            &&& m.first_seen_at == input.now_ms
            &&& m.created_at == input.now_ms
            &&& m.updated_at == input.now_ms
            &&& m.last_seen_at == input.now_ms
            &&& m.superseded_by_memory_id is None
            &&& m.merged_from is None
            &&& m.scope == "project"@
            &&& m.shareable == 0
            &&& m.last_retrieved_at is None
            &&& m.verified_at is None
            &&& m.classified_at is None
        }),
{
}

/// A memory that is inserted is what an insertion of the same words in its project and
/// category finds, and one of another project or category does not find it.
pub proof fn the_same_words_are_found_again(
    input: InsertMemoryInput,
    id: i64,
    project: Seq<char>,
    category: Seq<char>,
    content: Seq<char>,
)
    ensures
        saying(project, category, normalized_hash(content))(inserted_memory(input, id)) <==> project
            == input.project_path@ && category == input.category@ && normalized_hash(content)
            == normalized_hash(input.content@),
{
}

/// A memory with new content says that, under the hash of it; it is to be classified and
/// shared anew. All else of it stays.
pub proof fn a_rewritten_memory_says_the_new(m: StoredMemoryFullModel, content: Seq<char>, at: i64)
    ensures
        ({
            let now = rewritten(m, content, at);
            &&& now.content == content
            &&& now.normalized_hash == normalized_hash(content)
            &&& now.updated_at == at
            &&& now.shareable == 0
            &&& now.classified_at is None
            &&& now == (StoredMemoryFullModel {
                content: now.content,
                normalized_hash: now.normalized_hash,
                updated_at: now.updated_at,
                shareable: now.shareable,
                classified_at: now.classified_at,
                ..m
            })
        }),
{
}

/// A project changes its own live memories that nothing replaced, and archives those and the
/// archived ones.
pub proof fn a_project_changes_its_live_memories(m: StoredMemoryFullModel, project: Seq<char>)
    ensures
        changeable(m, project) <==> m.project_path == project && m.superseded_by_memory_id is None
            && (m.status == "active"@ || m.status == "permanent"@),
        archivable(m, project) <==> m.project_path == project && m.superseded_by_memory_id is None
            && (m.status == "active"@ || m.status == "permanent"@ || m.status == "archived"@),
{
}

/// New content clashes exactly where the first memory of the project and the category with
/// that hash is another one, and that one is told.
pub proof fn a_clash_is_with_another_memory(
    rows: Seq<StoredMemoryFullModel>,
    m: StoredMemoryFullModel,
    project: Seq<char>,
    content: Seq<char>,
    i: int,
)
    requires
        0 <= i < rows.len(),
        rows[i].project_path == project,
        rows[i].category == m.category,
        rows[i].normalized_hash == normalized_hash(content),
        forall|j: int|
            0 <= j < i ==> !((#[trigger] rows[j]).project_path == project && rows[j].category
                == m.category && rows[j].normalized_hash == normalized_hash(content)),
    ensures
        rows[i].id != m.id ==> clash(rows, m, project, content) == Some(rows[i].id),
        rows[i].id == m.id ==> clash(rows, m, project, content) is None,
{
    let p = saying(project, m.category, normalized_hash(content));
    crate::rows::first_where_is(rows, p, i);
}

/// Content that no memory of the project and the category says clashes with none.
pub proof fn new_words_clash_with_none(
    rows: Seq<StoredMemoryFullModel>,
    m: StoredMemoryFullModel,
    project: Seq<char>,
    content: Seq<char>,
)
    requires
        forall|j: int|
            0 <= j < rows.len() ==> !((#[trigger] rows[j]).project_path == project
                && rows[j].category == m.category && rows[j].normalized_hash == normalized_hash(
                content,
            )),
    ensures
        clash(rows, m, project, content) is None,
{
    first_where_first(rows, saying(project, m.category, normalized_hash(content)));
}

/// An archived memory keeps what it says. A reason that is more than white space is noted,
/// and without one what was noted stays.
pub proof fn an_archived_memory_keeps_what_it_says(
    m: StoredMemoryFullModel,
    reason: Option<Seq<char>>,
    at: i64,
)
    ensures
        ({
            let now = archived_memory(m, reason, at);
            &&& now.status == "archived"@
            &&& now.updated_at == at
            &&& now == (StoredMemoryFullModel {
                status: now.status,
                updated_at: now.updated_at,
                metadata_json: now.metadata_json,
                ..m
            })
            &&& (reason is None ==> now.metadata_json == m.metadata_json)
            &&& (reason matches Some(r) ==> (blank(r) ==> now.metadata_json == m.metadata_json))
            &&& (reason matches Some(r) ==> (!blank(r) ==> now.metadata_json == Some(
                crate::json::with_archive_reason(m.metadata_json, trimmed(r)),
            )))
        }),
{
}

/// A log row says what happened to which memory, and when.
pub proof fn a_log_row_says_what_happened(
    id: i64,
    project: Seq<char>,
    kind: Seq<char>,
    target: i64,
    superseded_by: Option<i64>,
    category: Option<Seq<char>>,
    content: Option<Seq<char>>,
    at: i64,
)
    ensures
        ({
            let row = log_row(id, project, kind, target, superseded_by, category, content, at);
            &&& row.project_path == project
            &&& row.mutation.id == id
            &&& row.mutation.mutation_type == kind
            &&& row.mutation.target_memory_id == target
            &&& row.mutation.superseded_by_id == superseded_by
            &&& row.mutation.category == category
            &&& row.mutation.new_content == content
            &&& row.mutation.queued_at == at
        }),
{
}

/// Whether a mutation takes its memory away for good.
pub open spec fn takes_away(m: StoredMemoryMutationModel) -> bool {
    m.mutation_type == "archive"@ || m.mutation_type == "delete"@ || m.mutation_type
        == "superseded"@
}

/// For a memory stands the last mutation that takes it away, and where none does, the last.
pub proof fn the_last_terminal_mutation_stands(
    rows: Seq<StoredMemoryMutationModel>,
    target: i64,
    i: int,
)
    requires
        0 <= i < rows.len(),
        rows[i].target_memory_id == target,
        takes_away(rows[i]) || forall|j: int|
            0 <= j < rows.len() && (#[trigger] rows[j]).target_memory_id == target ==> !takes_away(
                rows[j],
            ),
        forall|j: int|
            i < j < rows.len() && (#[trigger] rows[j]).target_memory_id == target ==> takes_away(
                rows[i],
            ) && !takes_away(rows[j]),
    ensures
        standing(rows, target) == Some(rows[i]),
    decreases rows.len(),
{
    let n = rows.len() - 1;
    let rest = rows.drop_last();
    assert forall|j: int| 0 <= j < rest.len() implies #[trigger] rows[j] == rest[j] by {}
    assert(rows[n] == rows.last());
    if i < n {
        assert(rest[i] == rows[i]);
        the_last_terminal_mutation_stands(rest, target, i);
    } else {
        nothing_terminal_stands(rest, target);
    }
}

proof fn nothing_terminal_stands(rows: Seq<StoredMemoryMutationModel>, target: i64)
    ensures
        standing(rows, target) matches Some(m) ==> exists|j: int|
            0 <= j < rows.len() && #[trigger] rows[j] == m && m.target_memory_id == target,
    decreases rows.len(),
{
    if rows.len() > 0 {
        let rest = rows.drop_last();
        nothing_terminal_stands(rest, target);
        assert(rows[rows.len() - 1] == rows.last());
        if let Some(m) = standing(rest, target) {
            let j = choose|j: int|
                0 <= j < rest.len() && #[trigger] rest[j] == m && m.target_memory_id == target;
            assert(rows[j] == m);
        }
    }
}

// --- notes and overlays -----------------------------------------------------------------------

/// A new note says what was given, without white space round it, and is active. A condition
/// of white space alone is none.
pub proof fn a_new_note_says_what_was_given(input: NoteInput, id: i64)
    ensures
        ({
            let n = new_note(input, id);
            &&& n.id == id
            &&& n.project_path == input.project_path@
            &&& n.session_id == input.session_id@
            &&& n.content == trimmed(input.content@)
            &&& n.status == "active"@
            &&& n.anchor_block_id == opt_text(input.anchor_block_id)
            &&& n.created_at_ms == input.now_ms
            &&& n.updated_at_ms == input.now_ms
            &&& (input.surface_condition matches Some(t) ==> (!blank(t@) ==> n.surface_condition
                == Some(trimmed(t@))))
            &&& (input.surface_condition matches Some(t) ==> (blank(t@)
                ==> n.surface_condition is None))
            &&& input.surface_condition is None ==> n.surface_condition is None
        }),
{
}

/// A note with new content says that and stays else as it is.
pub proof fn a_rewritten_note_says_the_new(n: StoredNoteModel, content: Seq<char>, now_ms: i64)
    ensures
        ({
            let now = note_rewritten(n, content, now_ms);
            &&& now.content == trimmed(content)
            &&& now.updated_at_ms == now_ms
            &&& now == (StoredNoteModel {
                content: now.content,
                updated_at_ms: now.updated_at_ms,
                ..n
            })
        }),
{
}

/// A reading of notes holds as many as were asked for, between one and a hundred.
pub proof fn a_reading_holds_one_to_a_hundred(limit: nat)
    ensures
        1 <= note_limit(limit) <= 100,
        1 <= limit <= 100 ==> note_limit(limit) == limit,
        limit == 0 ==> note_limit(limit) == 1,
        limit > 100 ==> note_limit(limit) == 100,
{
}

/// A block is reminded where a row says so, and hinted likewise.
pub proof fn blocks_are_marked_by_rows(
    reminders: Seq<Channel1AppendRowModel>,
    hints: Seq<UserHintRowModel>,
    block: Seq<char>,
)
    ensures
        reminded_blocks(reminders).contains(block) <==> exists|i: int|
            0 <= i < reminders.len() && (#[trigger] reminders[i]).block_id == block,
        hinted_blocks(hints).contains(block) <==> exists|i: int|
            0 <= i < hints.len() && (#[trigger] hints[i]).block_id == block,
{
    let r = reminded_blocks(reminders);
    let h = hinted_blocks(hints);
    if r.contains(block) {
        let i = choose|i: int| 0 <= i < r.len() && r[i] == block;
        assert(reminders[i].block_id == block);
    }
    if exists|i: int| 0 <= i < reminders.len() && (#[trigger] reminders[i]).block_id == block {
        let i = choose|i: int|
            0 <= i < reminders.len() && (#[trigger] reminders[i]).block_id == block;
        assert(r[i] == block);
    }
    if h.contains(block) {
        let i = choose|i: int| 0 <= i < h.len() && h[i] == block;
        assert(hints[i].block_id == block);
    }
    if exists|i: int| 0 <= i < hints.len() && (#[trigger] hints[i]).block_id == block {
        let i = choose|i: int| 0 <= i < hints.len() && (#[trigger] hints[i]).block_id == block;
        assert(h[i] == block);
    }
}

/// There is a later hint exactly where a hinted block has a tag above the number.
pub proof fn a_later_hint_has_a_larger_tag(
    hints: Seq<UserHintRowModel>,
    tags: Seq<McTagRowModel>,
    limit: i64,
)
    ensures
        later_hint(hints, tags, limit) <==> exists|i: int, j: int|
            0 <= i < tags.len() && 0 <= j < hints.len() && (#[trigger] tags[i]).block_id == (
            #[trigger] hints[j]).block_id && tags[i].tag_number > limit,
{
    if later_hint(hints, tags, limit) {
        let i = choose|i: int|
            0 <= i < tags.len() && (#[trigger] tags[i]).tag_number > limit && hinted_blocks(
                hints,
            ).contains(tags[i].block_id);
        blocks_are_marked_by_rows(Seq::empty(), hints, tags[i].block_id);
        let j = choose|j: int|
            0 <= j < hints.len() && (#[trigger] hints[j]).block_id == tags[i].block_id;
        assert(tags[i].block_id == hints[j].block_id);
    }
    if exists|i: int, j: int|
        0 <= i < tags.len() && 0 <= j < hints.len() && (#[trigger] tags[i]).block_id == (
        #[trigger] hints[j]).block_id && tags[i].tag_number > limit {
        let (i, j) = choose|i: int, j: int|
            0 <= i < tags.len() && 0 <= j < hints.len() && (#[trigger] tags[i]).block_id == (
            #[trigger] hints[j]).block_id && tags[i].tag_number > limit;
        blocks_are_marked_by_rows(Seq::empty(), hints, tags[i].block_id);
        assert(hints[j].block_id == tags[i].block_id);
    }
}

/// Of an error the front is kept, all of it where it is short.
pub proof fn the_front_of_an_error_is_kept(error: Seq<char>)
    ensures
        capped(error).is_prefix_of(error),
        capped(error).len() <= TRACE_ERROR_CHARS,
        capped(error).len() < TRACE_ERROR_CHARS ==> capped(error) == error,
{
}

// --- commits and limits -----------------------------------------------------------------------

/// A commit is refused where the row has another version than expected, or the memories it
/// was rendered from moved; at the expected version, and where nothing was read or nothing
/// moved, it is not.
pub proof fn a_commit_is_refused_where_something_moved(
    s: McStoreModel,
    session: Seq<char>,
    expected: Option<u64>,
    revision: Option<MemoryRevisionModel>,
)
    ensures
        expected != loaded(s, session).row_version ==> commit_conflicts(
            s,
            session,
            expected,
            revision,
        ),
        expected == loaded(s, session).row_version && revision is None ==> !commit_conflicts(
            s,
            session,
            expected,
            revision,
        ),
        expected == loaded(s, session).row_version ==> (revision matches Some(v) ==> (
        0 < v.project_paths.len() <= MAX_VALUES ==> (commit_conflicts(
            s,
            session,
            expected,
            revision,
        ) <==> stored_revision(s, v.project_paths).0 != v.max_memory_id || stored_revision(
            s,
            v.project_paths,
        ).1 != v.mutation_cursor))),
        expected == loaded(s, session).row_version ==> (revision matches Some(v) ==> (
        v.project_paths.len() == 0 ==> !commit_conflicts(s, session, expected, revision))),
{
}

/// A list with each name once holds the same names, and none twice.
pub proof fn each_name_is_there_once(names: Seq<Seq<char>>, name: Seq<char>)
    ensures
        each_once(names).contains(name) <==> names.contains(name),
        each_once(names).no_duplicates(),
    decreases names.len(),
{
    if names.len() > 0 {
        let less = names.drop_last();
        let last = names.last();
        let rest = each_once(less);
        let all = each_once(names);
        each_name_is_there_once(less, name);
        assert(names[names.len() - 1] == last);
        if less.contains(name) {
            let k = choose|k: int| 0 <= k < less.len() && less[k] == name;
            assert(names[k] == name);
        }
        if names.contains(name) && name != last {
            let k = choose|k: int| 0 <= k < names.len() && names[k] == name;
            assert(less[k] == name);
        }
        if !rest.contains(last) {
            assert(all == rest.push(last));
            assert(all[rest.len() as int] == last);
            if rest.contains(name) {
                let k = choose|k: int| 0 <= k < rest.len() && rest[k] == name;
                assert(all[k] == name);
            }
            if all.contains(name) && name != last {
                let k = choose|k: int| 0 <= k < all.len() && all[k] == name;
                assert(rest[k] == name);
            }
            assert forall|i: int, j: int| 0 <= i < all.len() && 0 <= j < all.len() && i
                != j implies all[i] != all[j] by {
                if i < rest.len() && j < rest.len() {
                    assert(rest[i] != rest[j]);
                } else if i < rest.len() {
                    assert(rest[i] == all[i]);
                } else {
                    assert(rest[j] == all[j]);
                }
            }
        }
    }
}

/// The bytes of two texts add up, and each character has one to four.
pub proof fn bytes_add_up(a: Seq<char>, b: Seq<char>)
    ensures
        utf8_len(a + b) == utf8_len(a) + utf8_len(b),
        a.len() <= utf8_len(a) <= 4 * a.len(),
    decreases b.len(), a.len(),
{
    if b.len() > 0 {
        bytes_add_up(a, b.drop_last());
        assert((a + b).drop_last() =~= a + b.drop_last());
    } else {
        assert(a + b =~= a);
        if a.len() > 0 {
            bytes_add_up(a.drop_last(), Seq::empty());
        }
    }
}

} // verus!

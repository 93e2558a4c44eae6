//! What changes to memories are for.

use vstd::prelude::*;

use crate::rows::{first_where, first_where_first};
use crate::store::memories::{
    after_archiving, archive_log, archived_memory, memory_by_id, memory_put_is_found, to_archive,
    with_id,
};
use crate::store::records::{ShadowMemoryMutationRowModel, StoredMemoryFullModel};

verus! {

/// A memory that is found by a number has it.
pub proof fn a_found_memory_has_the_number(rows: Seq<StoredMemoryFullModel>, id: i64)
    ensures
        memory_by_id(rows, id) matches Some(m) ==> m.id == id && rows.contains(m),
        memory_by_id(rows, id) is None <==> forall|i: int|
            0 <= i < rows.len() ==> (#[trigger] rows[i]).id != id,
{
    first_where_first(rows, with_id(id));
    if let Some(i) = first_where(rows, with_id(id)) {
        assert(rows[i].id == id);
    } else {
        assert forall|i: int| 0 <= i < rows.len() implies (#[trigger] rows[i]).id != id by {
            assert(!with_id(id)(rows[i]));
        }
    }
}

// --- archiving ----------------------------------------------------------------------------

/// Whether a number names a memory that is not archived.
pub open spec fn not_archived(rows: Seq<StoredMemoryFullModel>, id: i64) -> bool {
    memory_by_id(rows, id) matches Some(m) && m.status != "archived"@
}

/// Whether the memories of a batch are archived afterwards: each of them, with its content
/// and all else that it had but the time and what is recorded of the reason, and no other
/// memory changed.
pub open spec fn batch_is_archived(
    before: Seq<StoredMemoryFullModel>,
    after: Seq<StoredMemoryFullModel>,
    ids: Seq<i64>,
    at_ms: i64,
) -> bool {
    &&& after.len() == before.len()
    &&& forall|i: int|
        0 <= i < ids.len() ==> (memory_by_id(after, #[trigger] ids[i]) matches Some(m) && {
            let was = memory_by_id(before, ids[i])->0;
            &&& m.status == "archived"@
            &&& m.content == was.content
            &&& m.category == was.category
            &&& m.project_path == was.project_path
            &&& m.superseded_by_memory_id == was.superseded_by_memory_id
            &&& if was.status == "archived"@ {
                m == was
            } else {
                m.updated_at == at_ms
            }
        })
    &&& forall|id: i64|
        !ids.contains(id) ==> #[trigger] memory_by_id(after, id) == memory_by_id(before, id)
}

/// Whether a log has a row for each memory of a batch that was not archived before, and for
/// no other.
pub open spec fn batch_is_logged(
    before: Seq<StoredMemoryFullModel>,
    log: Seq<ShadowMemoryMutationRowModel>,
    project: Seq<char>,
    ids: Seq<i64>,
    last: i64,
    at_ms: i64,
) -> bool {
    &&& forall|i: int|
        0 <= i < ids.len() && not_archived(before, #[trigger] ids[i]) ==> exists|k: int|
            0 <= k < log.len() && (#[trigger] log[k]).mutation.target_memory_id == ids[i]
    &&& forall|k: int|
        0 <= k < log.len() ==> {
            let row = #[trigger] log[k];
            &&& row.project_path == project
            &&& row.mutation.id == last + 1 + k
            &&& row.mutation.mutation_type == "archive"@
            &&& row.mutation.queued_at == at_ms
            &&& ids.contains(row.mutation.target_memory_id)
            &&& not_archived(before, row.mutation.target_memory_id)
        }
    &&& ids.no_duplicates() ==> forall|k: int, j: int|
        0 <= k < j < log.len() ==> (#[trigger] log[k]).mutation.target_memory_id != (
        #[trigger] log[j]).mutation.target_memory_id
}

/// Whether an answer names the memories of a batch that were not archived before, in the
/// order of the batch.
pub open spec fn names_the_archived(
    before: Seq<StoredMemoryFullModel>,
    ids: Seq<i64>,
    done: Seq<i64>,
) -> bool {
    &&& forall|i: int|
        0 <= i < ids.len() && not_archived(before, #[trigger] ids[i]) ==> done.contains(ids[i])
    &&& forall|k: int|
        0 <= k < done.len() ==> ids.contains(#[trigger] done[k]) && not_archived(before, done[k])
    &&& done.len() <= ids.len()
    &&& (forall|i: int| 0 <= i < ids.len() ==> not_archived(before, #[trigger] ids[i])) ==> done
        == ids
    &&& ids.no_duplicates() ==> done.no_duplicates()
}

pub(crate) proof fn the_archived_are_named(before: Seq<StoredMemoryFullModel>, ids: Seq<i64>)
    ensures
        names_the_archived(before, ids, to_archive(before, ids)),
    decreases ids.len(),
{
    let done = to_archive(before, ids);
    if ids.len() > 0 {
        let rest = ids.drop_last();
        let less = to_archive(before, rest);
        let id = ids.last();
        the_archived_are_named(before, rest);
        assert(ids[ids.len() - 1] == id);
        assert forall|i: int| 0 <= i < ids.len() && not_archived(before, #[trigger] ids[i]) implies
            done.contains(ids[i]) by {
            if i < rest.len() {
                assert(rest[i] == ids[i]);
                let k = choose|k: int| 0 <= k < less.len() && less[k] == ids[i];
                assert(done[k] == ids[i]);
            } else {
                assert(done[done.len() - 1] == ids[i]);
            }
        }
        assert forall|k: int| 0 <= k < done.len() implies ids.contains(#[trigger] done[k])
            && not_archived(before, done[k]) by {
            if k < less.len() {
                assert(done[k] == less[k]);
                let i = choose|i: int| 0 <= i < rest.len() && rest[i] == less[k];
                assert(ids[i] == done[k]);
            }
        }
        if forall|i: int| 0 <= i < ids.len() ==> not_archived(before, #[trigger] ids[i]) {
            assert forall|i: int| 0 <= i < rest.len() implies not_archived(
                before,
                #[trigger] rest[i],
            ) by {
                assert(rest[i] == ids[i]);
            }
            assert(done =~= ids);
        }
        if ids.no_duplicates() {
            assert(rest.no_duplicates());
            assert forall|a: int, b: int|
                0 <= a < done.len() && 0 <= b < done.len() && a != b implies done[a] != done[b] by {
                if done.len() > less.len() {
                    if a == less.len() || b == less.len() {
                        let o = if a == less.len() { b } else { a };
                        assert(done[o] == less[o]);
                        assert(rest.contains(less[o]));
                        let i = choose|i: int| 0 <= i < rest.len() && rest[i] == less[o];
                        assert(ids[i] == less[o]);
                    } else {
                        assert(less[a] != less[b]);
                    }
                } else {
                    assert(less[a] != less[b]);
                }
            }
        }
    } else {
        assert(done =~= ids);
    }
}

proof fn archived_so_far(
    before: Seq<StoredMemoryFullModel>,
    done: Seq<i64>,
    reason: Option<Seq<char>>,
    at_ms: i64,
    id: i64,
)
    requires
        forall|k: int| 0 <= k < done.len() ==> memory_by_id(before, #[trigger] done[k]) is Some,
    ensures
        after_archiving(before, done, reason, at_ms).len() == before.len(),
        memory_by_id(after_archiving(before, done, reason, at_ms), id) == (if done.contains(id) {
            Some(archived_memory(memory_by_id(before, id)->0, reason, at_ms))
        } else {
            memory_by_id(before, id)
        }),
    decreases done.len(),
{
    if done.len() > 0 {
        let less = done.drop_last();
        let last = done.last();
        assert forall|k: int| 0 <= k < less.len() implies memory_by_id(
            before,
            #[trigger] less[k],
        ) is Some by {
            assert(less[k] == done[k]);
        }
        archived_so_far(before, less, reason, at_ms, id);
        archived_so_far(before, less, reason, at_ms, last);
        assert(done[done.len() - 1] == last);
        a_found_memory_has_the_number(before, last);
        let m = archived_memory(memory_by_id(before, last)->0, reason, at_ms);
        let rows = after_archiving(before, less, reason, at_ms);
        memory_put_is_found(rows, m, id);
        first_where_first(rows, with_id(last));
        if less.contains(id) {
            let k = choose|k: int| 0 <= k < less.len() && less[k] == id;
            assert(done[k] == id);
        }
        if done.contains(id) && id != last {
            let k = choose|k: int| 0 <= k < done.len() && done[k] == id;
            assert(less[k] == id);
        }
    }
}

/// A batch is archived: afterwards each memory that it names is archived, the log has a row
/// for each of them that was not archived before and for no other, and the answer names
/// these. No other memory changes.
pub proof fn every_memory_of_a_batch_is_archived(
    before: Seq<StoredMemoryFullModel>,
    project: Seq<char>,
    ids: Seq<i64>,
    reason: Option<Seq<char>>,
    last: i64,
    at_ms: i64,
)
    requires
        forall|i: int| 0 <= i < ids.len() ==> memory_by_id(before, #[trigger] ids[i]) is Some,
        last + to_archive(before, ids).len() <= i64::MAX,
    ensures
        ({
            let done = to_archive(before, ids);
            let after = after_archiving(before, done, reason, at_ms);
            let log = archive_log(project, done, last, at_ms);
            &&& names_the_archived(before, ids, done)
            &&& batch_is_archived(before, after, ids, at_ms)
            &&& batch_is_logged(before, log, project, ids, last, at_ms)
            &&& log.len() == done.len()
        }),
{
    let done = to_archive(before, ids);
    let after = after_archiving(before, done, reason, at_ms);
    let log = archive_log(project, done, last, at_ms);
    the_archived_are_named(before, ids);
    assert forall|k: int| 0 <= k < done.len() implies memory_by_id(
        before,
        #[trigger] done[k],
    ) is Some by {
        assert(not_archived(before, done[k]));
    }
    archived_so_far(before, done, reason, at_ms, last);
    assert forall|i: int| 0 <= i < ids.len() implies (memory_by_id(after, #[trigger] ids[i]) matches
        Some(m) && {
        let was = memory_by_id(before, ids[i])->0;
        &&& m.status == "archived"@
        &&& m.content == was.content
        &&& m.category == was.category
        &&& m.project_path == was.project_path
        &&& m.superseded_by_memory_id == was.superseded_by_memory_id
        &&& if was.status == "archived"@ {
            m == was
        } else {
            m.updated_at == at_ms
        }
    }) by {
        archived_so_far(before, done, reason, at_ms, ids[i]);
        if done.contains(ids[i]) {
            let k = choose|k: int| 0 <= k < done.len() && done[k] == ids[i];
            assert(not_archived(before, done[k]));
        }
    }
    assert forall|id: i64| !ids.contains(id) implies #[trigger] memory_by_id(after, id)
        == memory_by_id(before, id) by {
        archived_so_far(before, done, reason, at_ms, id);
        if done.contains(id) {
            let k = choose|k: int| 0 <= k < done.len() && done[k] == id;
            assert(ids.contains(done[k]));
        }
    }
    assert forall|i: int| 0 <= i < ids.len() && not_archived(before, #[trigger] ids[i]) implies
        exists|k: int|
        0 <= k < log.len() && (#[trigger] log[k]).mutation.target_memory_id == ids[i] by {
        let k = choose|k: int| 0 <= k < done.len() && done[k] == ids[i];
        assert(log[k].mutation.target_memory_id == ids[i]);
    }
    assert forall|k: int| 0 <= k < log.len() implies ids.contains(
        (#[trigger] log[k]).mutation.target_memory_id,
    ) && not_archived(before, log[k].mutation.target_memory_id) by {
        assert(ids.contains(done[k]));
    }
    if ids.no_duplicates() {
        assert forall|k: int, j: int| 0 <= k < j < log.len() implies (
        #[trigger] log[k]).mutation.target_memory_id != (
        #[trigger] log[j]).mutation.target_memory_id by {
            assert(done[k] != done[j]);
        }
    }
}

} // verus!

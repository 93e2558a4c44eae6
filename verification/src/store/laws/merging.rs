//! What a merge of memories is for.

use vstd::prelude::*;

use crate::digest::normalized_hash;
use crate::json::ids_text;
use crate::rows::first_where_first;
use crate::store::McStoreModel;
use crate::store::laws::memories::a_found_memory_has_the_number;
use crate::store::memories::{memories_of, memory_by_id, memory_put_is_found, with_id};
use crate::store::merging::{
    after_superseding, ascending, ascending_holds_the_same, inserted, inserted_is_ascending,
    lineage, merge_group, mergeable, merged_ids, merged_memory, merged_store, retrieval_total,
    seen_total, strictly_ascending, superseded_memory, with_ints,
};
use crate::store::records::StoredMemoryFullModel;

verus! {

// --- sums over memories in any order --------------------------------------------------------

/// The sum of what is counted for each of some numbers.
pub open spec fn sum_over(ids: Seq<i64>, count: spec_fn(i64) -> int) -> int
    decreases ids.len(),
{
    if ids.len() == 0 {
        0
    } else {
        sum_over(ids.drop_last(), count) + count(ids.last())
    }
}

proof fn sum_over_inserted(ids: Seq<i64>, x: i64, count: spec_fn(i64) -> int)
    requires
        !ids.contains(x),
    ensures
        sum_over(inserted(ids, x), count) == sum_over(ids, count) + count(x),
    decreases ids.len(),
{
    if ids.len() == 0 || ids.last() < x {
        assert(ids.push(x).drop_last() =~= ids);
    } else {
        let rest = ids.drop_last();
        assert(ids[ids.len() - 1] == ids.last());
        if rest.contains(x) {
            let i = choose|i: int| 0 <= i < rest.len() && rest[i] == x;
            assert(ids[i] == x);
        }
        sum_over_inserted(rest, x, count);
        let out = inserted(rest, x).push(ids.last());
        assert(out.drop_last() =~= inserted(rest, x));
        assert(out.last() == ids.last());
    }
}

proof fn sum_over_ascending(ids: Seq<i64>, count: spec_fn(i64) -> int)
    requires
        ids.no_duplicates(),
    ensures
        sum_over(ascending(ids), count) == sum_over(ids, count),
    decreases ids.len(),
{
    if ids.len() > 0 {
        let rest = ids.drop_last();
        assert(rest.no_duplicates());
        sum_over_ascending(rest, count);
        ascending_holds_the_same(rest);
        if rest.contains(ids.last()) {
            let i = choose|i: int| 0 <= i < rest.len() && rest[i] == ids.last();
            assert(ids[i] == ids[ids.len() - 1]);
        }
        assert(!ascending(rest).contains(ids.last()));
        sum_over_inserted(ascending(rest), ids.last(), count);
    }
}

/// How often a memory was seen, where that is a count at all.
pub open spec fn times_seen(m: StoredMemoryFullModel) -> int {
    if m.seen_count > 0 {
        m.seen_count as int
    } else {
        0
    }
}

/// How often a memory was retrieved, where that is a count at all.
pub open spec fn times_retrieved(m: StoredMemoryFullModel) -> int {
    if m.retrieval_count > 0 {
        m.retrieval_count as int
    } else {
        0
    }
}

proof fn totals_are_sums(
    rows: Seq<StoredMemoryFullModel>,
    target: StoredMemoryFullModel,
    ids: Seq<i64>,
)
    ensures
        ({
            let group = seq![target] + memories_of(rows, ids);
            &&& seen_total(group) == times_seen(target) + sum_over(
                ids,
                |id: i64| times_seen(memory_by_id(rows, id)->0),
            )
            &&& retrieval_total(group) == times_retrieved(target) + sum_over(
                ids,
                |id: i64| times_retrieved(memory_by_id(rows, id)->0),
            )
        }),
    decreases ids.len(),
{
    let group = seq![target] + memories_of(rows, ids);
    if ids.len() == 0 {
        assert(group =~= seq![target]);
        assert(group.drop_last() =~= Seq::empty());
        assert(seen_total(group.drop_last()) == 0);
        assert(retrieval_total(group.drop_last()) == 0);
    } else {
        totals_are_sums(rows, target, ids.drop_last());
        assert(group.drop_last() =~= seq![target] + memories_of(rows, ids.drop_last()));
        assert(group.last() == memory_by_id(rows, ids.last())->0);
    }
}

// --- lineage --------------------------------------------------------------------------------

/// Whether a number is recorded as merged into a memory before.
pub open spec fn was_merged_into(x: i64, m: StoredMemoryFullModel) -> bool {
    lineage(m.merged_from).contains(Some(x))
}

proof fn ints_are_added(s: Seq<i64>, ints: Seq<Option<i64>>, x: i64)
    requires
        strictly_ascending(s),
    ensures
        strictly_ascending(with_ints(s, ints)),
        with_ints(s, ints).contains(x) == (s.contains(x) || ints.contains(Some(x))),
    decreases ints.len(),
{
    if ints.len() > 0 {
        let rest = ints.drop_last();
        ints_are_added(s, rest, x);
        if rest.contains(Some(x)) {
            let i = choose|i: int| 0 <= i < rest.len() && rest[i] == Some(x);
            assert(ints[i] == Some(x));
        }
        if ints.contains(Some(x)) && ints.last() != Some(x) {
            let i = choose|i: int| 0 <= i < ints.len() && ints[i] == Some(x);
            assert(rest[i] == Some(x));
        }
        if ints.last() == Some(x) {
            assert(ints[ints.len() - 1] == Some(x));
        }
        if let Some(v) = ints.last() {
            inserted_is_ascending(with_ints(s, rest), v);
        }
    }
}

/// The lineage of memories is ascending, and names each of them and each that is recorded as
/// merged into one of them, and no other.
pub proof fn a_lineage_names_all_and_no_other(rows: Seq<StoredMemoryFullModel>, x: i64)
    ensures
        strictly_ascending(merged_ids(rows)),
        merged_ids(rows).contains(x) <==> exists|i: int|
            0 <= i < rows.len() && ((#[trigger] rows[i]).id == x || was_merged_into(x, rows[i])),
    decreases rows.len(),
{
    if rows.len() > 0 {
        let rest = rows.drop_last();
        let m = rows.last();
        assert(rows[rows.len() - 1] == m);
        a_lineage_names_all_and_no_other(rest, x);
        inserted_is_ascending(merged_ids(rest), m.id);
        ints_are_added(inserted(merged_ids(rest), m.id), lineage(m.merged_from), x);
        if exists|i: int|
            0 <= i < rest.len() && ((#[trigger] rest[i]).id == x || was_merged_into(x, rest[i])) {
            let i = choose|i: int|
                0 <= i < rest.len() && ((#[trigger] rest[i]).id == x || was_merged_into(
                    x,
                    rest[i],
                ));
            assert(rows[i] == rest[i]);
        }
        if exists|i: int|
            0 <= i < rows.len() && ((#[trigger] rows[i]).id == x || was_merged_into(x, rows[i])) {
            let i = choose|i: int|
                0 <= i < rows.len() && ((#[trigger] rows[i]).id == x || was_merged_into(
                    x,
                    rows[i],
                ));
            if i < rest.len() {
                assert(rest[i] == rows[i]);
            }
        }
    }
}

// --- the merge ------------------------------------------------------------------------------

/// Whether the target or a source of a merge is permanent.
pub open spec fn one_is_permanent(
    rows: Seq<StoredMemoryFullModel>,
    target: StoredMemoryFullModel,
    sources: Seq<i64>,
) -> bool {
    target.status == "permanent"@ || exists|i: int|
        0 <= i < sources.len() && (memory_by_id(rows, #[trigger] sources[i])->0).status
            == "permanent"@
}

proof fn superseded_so_far(
    rows: Seq<StoredMemoryFullModel>,
    sources: Seq<i64>,
    target: i64,
    at_ms: i64,
    id: i64,
)
    requires
        forall|i: int| 0 <= i < sources.len() ==> memory_by_id(rows, #[trigger] sources[i]) is Some,
    ensures
        ({
            let after = after_superseding(rows, memories_of(rows, sources), target, at_ms);
            &&& after.len() == rows.len()
            &&& memory_by_id(after, id) == (if sources.contains(id) {
                Some(superseded_memory(memory_by_id(rows, id)->0, target, at_ms))
            } else {
                memory_by_id(rows, id)
            })
        }),
    decreases sources.len(),
{
    let all = memories_of(rows, sources);
    if sources.len() > 0 {
        let less = sources.drop_last();
        let last = sources.last();
        assert forall|i: int| 0 <= i < less.len() implies memory_by_id(
            rows,
            #[trigger] less[i],
        ) is Some by {
            assert(less[i] == sources[i]);
        }
        superseded_so_far(rows, less, target, at_ms, id);
        superseded_so_far(rows, less, target, at_ms, last);
        assert(all.drop_last() =~= memories_of(rows, less));
        assert(sources[sources.len() - 1] == last);
        a_found_memory_has_the_number(rows, last);
        let m = superseded_memory(all.last(), target, at_ms);
        let before = after_superseding(rows, memories_of(rows, less), target, at_ms);
        memory_put_is_found(before, m, id);
        first_where_first(before, with_id(last));
        if less.contains(id) {
            let k = choose|k: int| 0 <= k < less.len() && less[k] == id;
            assert(sources[k] == id);
        }
        if sources.contains(id) && id != last {
            let k = choose|k: int| 0 <= k < sources.len() && sources[k] == id;
            assert(less[k] == id);
        }
    }
}

proof fn permanence_is_seen(
    rows: Seq<StoredMemoryFullModel>,
    target: StoredMemoryFullModel,
    sources: Seq<i64>,
)
    ensures
        crate::store::merging::some_permanent(merge_group(rows, target, sources))
            == one_is_permanent(rows, target, sources),
{
    let ids = ascending(sources);
    let group = merge_group(rows, target, sources);
    ascending_holds_the_same(sources);
    if one_is_permanent(rows, target, sources) {
        if target.status == "permanent"@ {
            assert(group[0].status == "permanent"@);
        } else {
            let i = choose|i: int|
                0 <= i < sources.len() && (memory_by_id(rows, #[trigger] sources[i])->0).status
                    == "permanent"@;
            assert(sources.contains(sources[i]));
            assert(ids.contains(sources[i]));
            let k = choose|k: int| 0 <= k < ids.len() && ids[k] == sources[i];
            assert(group[k + 1] == memory_by_id(rows, ids[k])->0);
        }
    }
    if crate::store::merging::some_permanent(group) {
        let j = choose|j: int| 0 <= j < group.len() && (#[trigger] group[j]).status == "permanent"@;
        if j > 0 {
            assert(group[j] == memory_by_id(rows, ids[j - 1])->0);
            assert(ids.contains(ids[j - 1]));
            assert(sources.contains(ids[j - 1]));
            let i = choose|i: int| 0 <= i < sources.len() && sources[i] == ids[j - 1];
            assert((memory_by_id(rows, sources[i])->0).status == "permanent"@);
        }
    }
}

/// The merged memory is permanent where the target or one of the sources was, and active
/// otherwise. It has the new content under the target's number, was seen and retrieved as
/// often as all of them together, and records all of them, with all that was merged into them
/// before, as what it was made from.
pub proof fn a_merge_brings_all_together(
    s: McStoreModel,
    project: Seq<char>,
    target: StoredMemoryFullModel,
    sources: Seq<i64>,
    content: Seq<char>,
    at_ms: i64,
)
    requires
        memory_by_id(s.memories, target.id) == Some(target),
        mergeable(s.memories, project, target, sources),
        seen_total(merge_group(s.memories, target, sources)) <= i64::MAX,
        retrieval_total(merge_group(s.memories, target, sources)) <= i64::MAX,
    ensures
        ({
            let after = merged_store(s, project, target, sources, content, at_ms).memories;
            &&& memory_by_id(after, target.id) matches Some(m)
            &&& m.status == (if one_is_permanent(s.memories, target, sources) {
                "permanent"@
            } else {
                "active"@
            })
            &&& m.content == content
            &&& m.normalized_hash == normalized_hash(content)
            &&& m.updated_at == at_ms
            &&& m.shareable == 0
            &&& m.classified_at is None
            &&& m == (StoredMemoryFullModel {
                content: m.content,
                normalized_hash: m.normalized_hash,
                updated_at: m.updated_at,
                shareable: m.shareable,
                classified_at: m.classified_at,
                seen_count: m.seen_count,
                retrieval_count: m.retrieval_count,
                merged_from: m.merged_from,
                status: m.status,
                ..target
            })
            &&& m.seen_count == times_seen(target) + sum_over(
                sources,
                |id: i64| times_seen(memory_by_id(s.memories, id)->0),
            )
            &&& m.retrieval_count == times_retrieved(target) + sum_over(
                sources,
                |id: i64| times_retrieved(memory_by_id(s.memories, id)->0),
            )
            &&& exists|made_from: Seq<i64>| #[trigger]
                strictly_ascending(made_from) && m.merged_from == Some(ids_text(made_from)) && (
                forall|x: i64| #[trigger]
                    made_from.contains(x) <==> (x == target.id || sources.contains(x)
                        || was_merged_into(x, target) || exists|i: int|
                        0 <= i < sources.len() && was_merged_into(
                            x,
                            memory_by_id(s.memories, #[trigger] sources[i])->0,
                        )))
        }),
{
    let rows = s.memories;
    let ids = ascending(sources);
    let group = merge_group(rows, target, sources);
    let after = merged_store(s, project, target, sources, content, at_ms).memories;
    let m = merged_memory(target, group, content, at_ms);
    memory_put_is_found(
        after_superseding(rows, memories_of(rows, ids), target.id, at_ms),
        m,
        target.id,
    );
    permanence_is_seen(rows, target, sources);
    totals_are_sums(rows, target, ids);
    sum_over_ascending(sources, |id: i64| times_seen(memory_by_id(rows, id)->0));
    sum_over_ascending(sources, |id: i64| times_retrieved(memory_by_id(rows, id)->0));
    sums_are_counts(sources, rows);
    let made_from = merged_ids(group);
    ascending_holds_the_same(sources);
    a_lineage_names_all_and_no_other(group, 0);
    assert forall|x: i64| #[trigger] made_from.contains(x) <==> (x == target.id || sources.contains(
        x,
    ) || was_merged_into(x, target) || exists|i: int|
        0 <= i < sources.len() && was_merged_into(
            x,
            memory_by_id(rows, #[trigger] sources[i])->0,
        )) by {
        a_lineage_names_all_and_no_other(group, x);
        if made_from.contains(x) {
            let j = choose|j: int|
                0 <= j < group.len() && ((#[trigger] group[j]).id == x || was_merged_into(
                    x,
                    group[j],
                ));
            if j > 0 {
                assert(group[j] == memory_by_id(rows, ids[j - 1])->0);
                assert(ids.contains(ids[j - 1]));
                assert(sources.contains(ids[j - 1]));
                let i = choose|i: int| 0 <= i < sources.len() && sources[i] == ids[j - 1];
                assert(memory_by_id(rows, sources[i]) is Some);
                a_found_memory_has_the_number(rows, sources[i]);
            }
        }
        if x == target.id || was_merged_into(x, target) {
            assert(group[0] == target);
        }
        if sources.contains(x) || exists|i: int|
            0 <= i < sources.len() && was_merged_into(
                x,
                memory_by_id(rows, #[trigger] sources[i])->0,
            ) {
            let i = if sources.contains(x) {
                choose|i: int| 0 <= i < sources.len() && sources[i] == x
            } else {
                choose|i: int|
                    0 <= i < sources.len() && was_merged_into(
                        x,
                        memory_by_id(rows, #[trigger] sources[i])->0,
                    )
            };
            assert(memory_by_id(rows, sources[i]) is Some);
            a_found_memory_has_the_number(rows, sources[i]);
            assert(sources.contains(sources[i]));
            assert(ids.contains(sources[i]));
            let k = choose|k: int| 0 <= k < ids.len() && ids[k] == sources[i];
            assert(group[k + 1] == memory_by_id(rows, ids[k])->0);
        }
    }
}

proof fn sums_are_counts(ids: Seq<i64>, rows: Seq<StoredMemoryFullModel>)
    ensures
        sum_over(ids, |id: i64| times_seen(memory_by_id(rows, id)->0)) >= 0,
        sum_over(ids, |id: i64| times_retrieved(memory_by_id(rows, id)->0)) >= 0,
    decreases ids.len(),
{
    if ids.len() > 0 {
        sums_are_counts(ids.drop_last(), rows);
    }
}

/// A merge takes its sources out of use: each is archived, with its content, and tells the
/// target that it went into. No memory but these and the target changes, and none is added.
pub proof fn a_merge_supersedes_its_sources(
    s: McStoreModel,
    project: Seq<char>,
    target: StoredMemoryFullModel,
    sources: Seq<i64>,
    content: Seq<char>,
    at_ms: i64,
    id: i64,
)
    requires
        memory_by_id(s.memories, target.id) == Some(target),
        mergeable(s.memories, project, target, sources),
        id != target.id,
    ensures
        ({
            let after = merged_store(s, project, target, sources, content, at_ms).memories;
            &&& after.len() == s.memories.len()
            &&& sources.contains(id) ==> {
                &&& memory_by_id(after, id) matches Some(m)
                &&& m.status == "archived"@
                &&& m.superseded_by_memory_id == Some(target.id)
                &&& m.updated_at == at_ms
                &&& m == (StoredMemoryFullModel {
                    status: m.status,
                    superseded_by_memory_id: m.superseded_by_memory_id,
                    updated_at: m.updated_at,
                    ..memory_by_id(s.memories, id)->0
                })
            }
            &&& !sources.contains(id) ==> memory_by_id(after, id) == memory_by_id(s.memories, id)
        }),
{
    let rows = s.memories;
    let ids = ascending(sources);
    ascending_holds_the_same(sources);
    assert forall|i: int| 0 <= i < ids.len() implies memory_by_id(rows, #[trigger] ids[i])
        is Some by {
        assert(ids.contains(ids[i]));
        let j = choose|j: int| 0 <= j < sources.len() && sources[j] == ids[i];
        assert(memory_by_id(rows, sources[j]) is Some);
    }
    superseded_so_far(rows, ids, target.id, at_ms, id);
    superseded_so_far(rows, ids, target.id, at_ms, target.id);
    let before = after_superseding(rows, memories_of(rows, ids), target.id, at_ms);
    let m = merged_memory(target, merge_group(rows, target, sources), content, at_ms);
    memory_put_is_found(before, m, id);
    first_where_first(before, with_id(target.id));
}

/// A merge is logged: behind the rows that were there, one tells of each source that it was
/// superseded by the target, and a last one tells of the target's new content.
pub proof fn a_merge_is_logged(
    s: McStoreModel,
    project: Seq<char>,
    target: StoredMemoryFullModel,
    sources: Seq<i64>,
    content: Seq<char>,
    at_ms: i64,
)
    requires
        mergeable(s.memories, project, target, sources),
        s.last_mutation_id + sources.len() < i64::MAX,
    ensures
        ({
            let after = merged_store(s, project, target, sources, content, at_ms);
            let log = after.mutations;
            let n = s.mutations.len() as int;
            &&& log.len() == n + sources.len() + 1
            &&& forall|i: int| 0 <= i < n ==> log[i] == #[trigger] s.mutations[i]
            &&& forall|i: int|
                0 <= i < sources.len() ==> exists|k: int|
                    n <= k < log.len() - 1 && (#[trigger] log[k]).mutation.target_memory_id
                        == #[trigger] sources[i] && log[k].mutation.mutation_type == "superseded"@
                        && log[k].mutation.superseded_by_id == Some(target.id)
            &&& forall|k: int|
                n <= k < log.len() ==> (#[trigger] log[k]).project_path == project
                    && log[k].mutation.id == s.last_mutation_id + 1 + (k - n)
                    && log[k].mutation.queued_at == at_ms
            &&& log[log.len() - 1].mutation.mutation_type == "update"@
            &&& log[log.len() - 1].mutation.target_memory_id == target.id
            &&& log[log.len() - 1].mutation.new_content == Some(content)
            &&& after.last_mutation_id == s.last_mutation_id + sources.len() + 1
        }),
{
    let rows = s.memories;
    let ids = ascending(sources);
    let log = merged_store(s, project, target, sources, content, at_ms).mutations;
    let n = s.mutations.len() as int;
    ascending_holds_the_same(sources);
    as_many(sources);
    assert forall|i: int| 0 <= i < sources.len() implies exists|k: int|
        n <= k < log.len() - 1 && (#[trigger] log[k]).mutation.target_memory_id
            == #[trigger] sources[i] && log[k].mutation.mutation_type == "superseded"@
            && log[k].mutation.superseded_by_id == Some(target.id) by {
        assert(sources.contains(sources[i]));
        assert(ids.contains(sources[i]));
        let k = choose|k: int| 0 <= k < ids.len() && ids[k] == sources[i];
        assert(memory_by_id(rows, sources[i]) is Some);
        a_found_memory_has_the_number(rows, sources[i]);
        assert(memories_of(rows, ids)[k] == memory_by_id(rows, ids[k])->0);
        assert(log[n + k].mutation.target_memory_id == sources[i]);
    }
}

proof fn as_many(ids: Seq<i64>)
    requires
        ids.no_duplicates(),
    ensures
        ascending(ids).len() == ids.len(),
    decreases ids.len(),
{
    if ids.len() > 0 {
        let rest = ids.drop_last();
        assert(rest.no_duplicates());
        as_many(rest);
        ascending_holds_the_same(rest);
        if rest.contains(ids.last()) {
            let i = choose|i: int| 0 <= i < rest.len() && rest[i] == ids.last();
            assert(ids[i] == ids[ids.len() - 1]);
        }
        longer_by_one(ascending(rest), ids.last());
    }
}

proof fn longer_by_one(ids: Seq<i64>, x: i64)
    requires
        !ids.contains(x),
    ensures
        inserted(ids, x).len() == ids.len() + 1,
    decreases ids.len(),
{
    if ids.len() > 0 && ids.last() >= x {
        let rest = ids.drop_last();
        assert(ids[ids.len() - 1] == ids.last());
        if rest.contains(x) {
            let i = choose|i: int| 0 <= i < rest.len() && rest[i] == x;
            assert(ids[i] == x);
        }
        longer_by_one(rest, x);
    }
}

} // verus!

//! The memory mutation log: corrections to memories that were already rendered.

use vstd::prelude::*;

use crate::rows::{group_views, in_order, sort_rows, sorted_is_ordered, take_all, take_next, views, Row, RowOrder};
use crate::store::records::{StoredMemoryMutation, StoredMemoryMutationModel};
use crate::text::same_text;

verus! {

/// Whether a mutation takes its memory out of the active set.
pub open spec fn terminal(kind: Seq<char>) -> bool {
    kind == "archive"@ || kind == "delete"@ || kind == "superseded"@
}

/// The kinds of mutation that the log accepts.
pub open spec fn loggable(kind: Seq<char>) -> bool {
    terminal(kind) || kind == "update"@
}

impl StoredMemoryMutation {
    /// Whether the mutation takes its memory out of the active set.
    pub fn is_terminal(&self) -> (r: bool)
        ensures
            r == terminal(self@.mutation_type),
    {
        same_text(&self.mutation_type, "archive") || same_text(&self.mutation_type, "delete")
            || same_text(&self.mutation_type, "superseded")
    }
}

/// The one mutation that stands for all mutations of a target: the last terminal one, or
/// the last of all where none is terminal.
pub open spec fn standing(rows: Seq<StoredMemoryMutationModel>, target: i64) -> Option<
    StoredMemoryMutationModel,
>
    decreases rows.len(),
{
    if rows.len() == 0 {
        None
    } else {
        let last = rows.last();
        match standing(rows.drop_last(), target) {
            None => if last.target_memory_id == target {
                Some(last)
            } else {
                None
            },
            Some(before) => if last.target_memory_id == target && (terminal(last.mutation_type)
                || !terminal(before.mutation_type)) {
                Some(last)
            } else {
                Some(before)
            },
        }
    }
}

/// Where a target was mutated terminally, the mutation that stands for it is the last
/// terminal one, however many updates were logged after it; otherwise it is the last update.
pub proof fn terminal_mutations_outrank_updates(rows: Seq<StoredMemoryMutationModel>, target: i64)
    ensures
        (standing(rows, target) is None) == (forall|i: int|
            0 <= i < rows.len() ==> (#[trigger] rows[i]).target_memory_id != target),
        standing(rows, target) matches Some(m) ==> exists|i: int|
            0 <= i < rows.len() && rows[i] == m && m.target_memory_id == target && (
            forall|j: int|
                i < j < rows.len() && (#[trigger] rows[j]).target_memory_id == target ==> terminal(
                    m.mutation_type,
                ) && !terminal(rows[j].mutation_type)) && (!terminal(m.mutation_type) ==> forall|
                j: int,
            |
                0 <= j < rows.len() && (#[trigger] rows[j]).target_memory_id == target ==> !terminal(
                    rows[j].mutation_type,
                )),
    decreases rows.len(),
{
    if rows.len() > 0 {
        let rest = rows.drop_last();
        let n = rows.len() - 1;
        terminal_mutations_outrank_updates(rest, target);
        assert forall|j: int| 0 <= j < rest.len() implies rows[j] == rest[j] by {}
        assert(rows[n] == rows.last());
        match standing(rest, target) {
            None => {
                assert forall|j: int| 0 <= j < n implies (#[trigger] rows[j]).target_memory_id
                    != target by {
                    assert(rest[j].target_memory_id != target);
                }
            },
            Some(before) => {
                let i = choose|i: int|
                    0 <= i < rest.len() && rest[i] == before && before.target_memory_id == target
                        && (forall|j: int|
                        i < j < rest.len() && (#[trigger] rest[j]).target_memory_id == target
                            ==> terminal(before.mutation_type) && !terminal(rest[j].mutation_type))
                        && (!terminal(before.mutation_type) ==> forall|j: int|
                        0 <= j < rest.len() && (#[trigger] rest[j]).target_memory_id == target
                            ==> !terminal(rest[j].mutation_type));
                assert(rows[i] == before);
                if rows.last().target_memory_id == target && (terminal(rows.last().mutation_type)
                    || !terminal(before.mutation_type)) {
                    assert(rows[n].target_memory_id == target);
                    assert forall|j: int|
                        0 <= j < rows.len() && (#[trigger] rows[j]).target_memory_id == target
                            && !terminal(rows.last().mutation_type) implies !terminal(
                        rows[j].mutation_type,
                    ) by {
                        if j < n {
                            assert(rest[j].target_memory_id == target);
                        }
                    }
                } else {
                    assert forall|j: int|
                        i < j < rows.len() && (#[trigger] rows[j]).target_memory_id
                            == target implies terminal(before.mutation_type) && !terminal(
                        rows[j].mutation_type,
                    ) by {
                        if j < n {
                            assert(rest[j].target_memory_id == target);
                        }
                    }
                    assert forall|j: int|
                        0 <= j < rows.len() && (#[trigger] rows[j]).target_memory_id == target
                            && !terminal(before.mutation_type) implies !terminal(
                        rows[j].mutation_type,
                    ) by {
                        if j < n {
                            assert(rest[j].target_memory_id == target);
                        }
                    }
                }
            },
        }
    }
}

/// `out` is the coalesced form of `rows`: for every target that was mutated exactly the
/// mutation that stands for it, once, by ascending number.
pub open spec fn coalesced(
    out: Seq<StoredMemoryMutationModel>,
    rows: Seq<StoredMemoryMutationModel>,
) -> bool {
    &&& in_order::<StoredMemoryMutation, MutationOrder>(out)
    &&& forall|i: int|
        0 <= i < out.len() ==> standing(rows, (#[trigger] out[i]).target_memory_id) == Some(out[i])
    &&& forall|i: int, j: int|
        0 <= i < j < out.len() ==> (#[trigger] out[i]).target_memory_id != (
        #[trigger] out[j]).target_memory_id
    &&& forall|i: int|
        0 <= i < rows.len() ==> has_target(out, (#[trigger] rows[i]).target_memory_id)
}

/// Whether a row of `out` is about `target`.
pub open spec fn has_target(out: Seq<StoredMemoryMutationModel>, target: i64) -> bool {
    exists|i: int| 0 <= i < out.len() && (#[trigger] out[i]).target_memory_id == target
}

/// The order of the log: by number.
pub struct MutationOrder;

impl RowOrder<StoredMemoryMutation> for MutationOrder {
    open spec fn le(a: StoredMemoryMutationModel, b: StoredMemoryMutationModel) -> bool {
        a.id <= b.id
    }

    proof fn le_total(a: StoredMemoryMutationModel, b: StoredMemoryMutationModel) {
    }

    proof fn le_transitive(
        a: StoredMemoryMutationModel,
        b: StoredMemoryMutationModel,
        c: StoredMemoryMutationModel,
    ) {
    }

    fn at_most(a: &StoredMemoryMutation, b: &StoredMemoryMutation) -> (r: bool) {
        a.id <= b.id
    }
}

/// The part of [`coalesced`] that does not speak of the order of `out`.
spec fn chosen_for(
    out: Seq<StoredMemoryMutationModel>,
    rows: Seq<StoredMemoryMutationModel>,
) -> bool {
    &&& forall|i: int|
        0 <= i < out.len() ==> standing(rows, (#[trigger] out[i]).target_memory_id) == Some(out[i])
    &&& forall|i: int, j: int|
        0 <= i < j < out.len() ==> (#[trigger] out[i]).target_memory_id != (
        #[trigger] out[j]).target_memory_id
    &&& forall|i: int|
        0 <= i < rows.len() ==> has_target(out, (#[trigger] rows[i]).target_memory_id)
}

fn find_target(chosen: &Vec<StoredMemoryMutation>, target: i64) -> (r: Option<usize>)
    ensures
        match r {
            Some(k) => k < chosen.len() && chosen@[k as int].target_memory_id == target,
            None => forall|j: int|
                0 <= j < chosen.len() ==> (#[trigger] chosen@[j]).target_memory_id != target,
        },
{
    let mut k: usize = 0;
    while k < chosen.len()
        invariant
            k <= chosen.len(),
            forall|j: int| 0 <= j < k ==> (#[trigger] chosen@[j]).target_memory_id != target,
        decreases chosen.len() - k,
    {
        if chosen[k].target_memory_id == target {
            return Some(k);
        }
        k += 1;
    }
    None
}

proof fn standing_skips(
    rows: Seq<StoredMemoryMutationModel>,
    row: StoredMemoryMutationModel,
    target: i64,
)
    requires
        row.target_memory_id != target,
    ensures
        standing(rows.push(row), target) == standing(rows, target),
{
    assert(rows.push(row).drop_last() =~= rows);
}

proof fn has_target_kept(
    before: Seq<StoredMemoryMutationModel>,
    after: Seq<StoredMemoryMutationModel>,
    target: i64,
)
    requires
        before.len() <= after.len(),
        forall|i: int|
            0 <= i < before.len() ==> (#[trigger] after[i]).target_memory_id
                == before[i].target_memory_id,
        has_target(before, target),
    ensures
        has_target(after, target),
{
    let i = choose|i: int| 0 <= i < before.len() && (#[trigger] before[i]).target_memory_id == target;
    assert(after[i].target_memory_id == target);
}

proof fn chosen_step(
    before: Seq<StoredMemoryMutationModel>,
    rows: Seq<StoredMemoryMutationModel>,
    row: StoredMemoryMutationModel,
    found: Option<int>,
)
    requires
        chosen_for(before, rows),
        found matches Some(k) ==> 0 <= k < before.len() && before[k].target_memory_id
            == row.target_memory_id,
        found is None ==> forall|j: int|
            0 <= j < before.len() ==> (#[trigger] before[j]).target_memory_id
                != row.target_memory_id,
    ensures
        chosen_for(
            match found {
                None => before.push(row),
                Some(k) => if terminal(before[k].mutation_type) && !terminal(row.mutation_type) {
                    before
                } else {
                    before.update(k, row)
                },
            },
            rows.push(row),
        ),
{
    let more = rows.push(row);
    let target = row.target_memory_id;
    assert(more.drop_last() =~= rows);
    assert(more.last() == row);
    let after = match found {
        None => before.push(row),
        Some(k) => if terminal(before[k].mutation_type) && !terminal(row.mutation_type) {
            before
        } else {
            before.update(k, row)
        },
    };
    if found is None {
        terminal_mutations_outrank_updates(rows, target);
        assert(standing(rows, target) is None) by {
            assert forall|i: int| 0 <= i < rows.len() implies (#[trigger] rows[i]).target_memory_id
                != target by {
                if rows[i].target_memory_id == target {
                    assert(has_target(before, target));
                }
            }
        }
    } else {
        let k = found->0;
        assert(standing(rows, before[k].target_memory_id) == Some(before[k]));
    }
    assert forall|i: int| 0 <= i < after.len() implies standing(
        more,
        (#[trigger] after[i]).target_memory_id,
    ) == Some(after[i]) by {
        if after[i].target_memory_id != target {
            assert(i < before.len() && before[i] == after[i]);
            standing_skips(rows, row, after[i].target_memory_id);
        }
    }
    assert forall|i: int, j: int| 0 <= i < j < after.len() implies (
    #[trigger] after[i]).target_memory_id != (#[trigger] after[j]).target_memory_id by {
        if j < before.len() {
            assert(before[i].target_memory_id != before[j].target_memory_id);
        } else {
            assert(before[i].target_memory_id != target);
        }
    }
    assert forall|i: int| 0 <= i < more.len() implies has_target(
        after,
        (#[trigger] more[i]).target_memory_id,
    ) by {
        if i < rows.len() {
            assert(more[i] == rows[i]);
            assert(has_target(before, rows[i].target_memory_id));
            has_target_kept(before, after, rows[i].target_memory_id);
        } else {
            match found {
                None => {
                    assert(after[after.len() - 1] == row);
                },
                Some(k) => {
                    assert(after[k].target_memory_id == target);
                },
            }
        }
    }
}

/// Coalesces log rows, given in log order, to one per target memory.
pub fn coalesce_mutations(rows: Vec<StoredMemoryMutation>) -> (out: Vec<StoredMemoryMutation>)
    ensures
        coalesced(views(out@), views(rows@)),
{
    broadcast use group_views;

    let ghost all = views(rows@);
    let mut chosen: Vec<StoredMemoryMutation> = Vec::new();
    let mut i: usize = 0;
    while i < rows.len()
        invariant
            i <= rows.len(),
            all == views(rows@),
            chosen_for(views(chosen@), all.take(i as int)),
        decreases rows.len() - i,
    {
        let candidate = &rows[i];
        let ghost before = views(chosen@);
        assert forall|j: int| 0 <= j < chosen@.len() implies #[trigger] before[j]
            == chosen@[j]@ by {}
        proof {
            take_next(all, i as int);
            assert(all[i as int] == candidate@);
        }
        match find_target(&chosen, candidate.target_memory_id) {
            None => {
                proof {
                    assert forall|j: int| 0 <= j < before.len() implies (
                    #[trigger] before[j]).target_memory_id != candidate.target_memory_id by {
                        assert(chosen@[j].target_memory_id != candidate.target_memory_id);
                    }
                    chosen_step(before, all.take(i as int), candidate@, None);
                }
                chosen.push(candidate.dup());
                assert(views(chosen@) =~= before.push(candidate@));
            },
            Some(k) => {
                proof {
                    assert(before[k as int] == chosen@[k as int]@);
                    chosen_step(before, all.take(i as int), candidate@, Some(k as int));
                }
                if !(chosen[k].is_terminal() && !candidate.is_terminal()) {
                    chosen.set(k, candidate.dup());
                    assert(views(chosen@) =~= before.update(k as int, candidate@));
                }
            },
        }
        i += 1;
    }
    proof {
        take_all(all);
    }
    let ghost unsorted = views(chosen@);
    let out = sort_rows::<StoredMemoryMutation, MutationOrder>(chosen);
    proof {
        sorted_is_ordered::<StoredMemoryMutation, MutationOrder>(unsorted);
        chosen_permuted(unsorted, views(out@), all);
    }
    out
}

proof fn chosen_permuted(
    a: Seq<StoredMemoryMutationModel>,
    b: Seq<StoredMemoryMutationModel>,
    rows: Seq<StoredMemoryMutationModel>,
)
    requires
        chosen_for(a, rows),
        a.to_multiset() == b.to_multiset(),
    ensures
        chosen_for(b, rows),
{
    broadcast use vstd::seq_lib::group_to_multiset_ensures;

    assert forall|i: int| 0 <= i < b.len() implies standing(
        rows,
        (#[trigger] b[i]).target_memory_id,
    ) == Some(b[i]) by {
        assert(b.contains(b[i]));
        assert(b.to_multiset().count(b[i]) > 0);
        assert(a.to_multiset().count(b[i]) > 0);
        let k = choose|k: int| 0 <= k < a.len() && a[k] == b[i];
        assert(standing(rows, a[k].target_memory_id) == Some(a[k]));
    }
    assert forall|i: int, j: int| 0 <= i < j < b.len() implies (#[trigger] b[i]).target_memory_id
        != (#[trigger] b[j]).target_memory_id by {
        if b[i].target_memory_id == b[j].target_memory_id {
            assert(standing(rows, b[i].target_memory_id) == Some(b[i]));
            assert(standing(rows, b[j].target_memory_id) == Some(b[j]));
            assert(b[i] == b[j]);
            assert(a.no_duplicates()) by {
                assert forall|p: int, q: int| 0 <= p < a.len() && 0 <= q < a.len() && p != q implies a[p]
                    != a[q] by {
                    if p < q {
                        assert(a[p].target_memory_id != a[q].target_memory_id);
                    } else {
                        assert(a[q].target_memory_id != a[p].target_memory_id);
                    }
                }
            }
            a.lemma_multiset_has_no_duplicates();
            assert(b.to_multiset().count(b[i]) <= 1) by {
                if b.to_multiset().contains(b[i]) {
                    assert(a.to_multiset().count(b[i]) == 1);
                }
            }
            two_places(b, i, j);
        }
    }
    assert forall|i: int| 0 <= i < rows.len() implies has_target(
        b,
        (#[trigger] rows[i]).target_memory_id,
    ) by {
        let target = rows[i].target_memory_id;
        assert(has_target(a, target));
        let k = choose|k: int| 0 <= k < a.len() && (#[trigger] a[k]).target_memory_id == target;
        assert(a.contains(a[k]));
        assert(a.to_multiset().count(a[k]) > 0);
        assert(b.to_multiset().count(a[k]) > 0);
        let m = choose|m: int| 0 <= m < b.len() && b[m] == a[k];
        assert(b[m].target_memory_id == target);
    }
}

proof fn two_places(s: Seq<StoredMemoryMutationModel>, i: int, j: int)
    requires
        0 <= i < j < s.len(),
        s[i] == s[j],
    ensures
        s.to_multiset().count(s[i]) >= 2,
{
    broadcast use vstd::seq_lib::group_to_multiset_ensures;

    let x = s[i];
    let less = s.remove(j);
    assert(less.to_multiset() =~= s.to_multiset().remove(x));
    assert(less[i] == x);
    assert(less.contains(x));
    assert(less.to_multiset().count(x) > 0);
}

} // verus!

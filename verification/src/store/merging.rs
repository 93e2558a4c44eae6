//! Merging memories: several memories of one category become one.

use vstd::prelude::*;

use crate::digest::{compute_normalized_memory_hash, normalized_hash};
use crate::json::{ids_text, parse_int_array, parsed_ints, write_ids};
use crate::rows::{slice_has, group_views, opt_view, put_where, take_all, take_next, views, Row};
use crate::store::drops::commands_kept;
use crate::store::errors::{McStoreError, StoreError};
use crate::store::integrity::{merged_kept, well_formed};
use crate::store::memories::{
    changeable, clash, find_memory, find_saying, is_changeable, log_row, memories_of, memory_by_id,
    put_memory, rewritten, with_id,
};
use crate::store::records::{
    ShadowMemoryMutationRowModel, StoredMemoryFull, StoredMemoryFullModel,
};
use crate::store::tags::non_negative;
use crate::store::{McStore, McStoreModel};
use crate::text::same_text;

verus! {

// --- ascending lists of numbers -------------------------------------------------------

/// An ascending list with `x` added where it belongs, unless it is there.
pub open spec fn inserted(s: Seq<i64>, x: i64) -> Seq<i64>
    decreases s.len(),
{
    if s.len() == 0 || s.last() < x {
        s.push(x)
    } else if s.last() == x {
        s
    } else {
        inserted(s.drop_last(), x).push(s.last())
    }
}

/// Every number is smaller than all later ones.
pub open spec fn strictly_ascending(s: Seq<i64>) -> bool {
    forall|i: int, j: int| 0 <= i < j < s.len() ==> s[i] < s[j]
}

/// Adding a number keeps the list ascending and adds just that number.
pub proof fn inserted_is_ascending(s: Seq<i64>, x: i64)
    requires
        strictly_ascending(s),
    ensures
        strictly_ascending(inserted(s, x)),
        forall|y: i64| #[trigger] inserted(s, x).contains(y) == (y == x || s.contains(y)),
    decreases s.len(),
{
    let out = inserted(s, x);
    if s.len() == 0 || s.last() < x {
        assert forall|y: i64| #[trigger] out.contains(y) == (y == x || s.contains(y)) by {
            if y == x {
                assert(out[s.len() as int] == x);
            }
            if s.contains(y) {
                let i = choose|i: int| 0 <= i < s.len() && s[i] == y;
                assert(out[i] == y);
            }
            if out.contains(y) && y != x {
                let i = choose|i: int| 0 <= i < out.len() && out[i] == y;
                assert(s[i] == y);
            }
        }
    } else if s.last() == x {
        assert(s[s.len() - 1] == x);
    } else {
        let rest = s.drop_last();
        inserted_is_ascending(rest, x);
        let less = inserted(rest, x);
        assert forall|i: int| 0 <= i < less.len() implies less[i] < s.last() by {
            assert(less.contains(less[i]));
            if less[i] != x {
                assert(rest.contains(less[i]));
                let k = choose|k: int| 0 <= k < rest.len() && rest[k] == less[i];
                assert(s[k] < s[s.len() - 1]);
            }
        }
        assert forall|y: i64| #[trigger] out.contains(y) == (y == x || s.contains(y)) by {
            if out.contains(y) {
                let i = choose|i: int| 0 <= i < out.len() && out[i] == y;
                if i < less.len() {
                    assert(less.contains(less[i]));
                    if y != x {
                        assert(rest.contains(y));
                        let k = choose|k: int| 0 <= k < rest.len() && rest[k] == y;
                        assert(s[k] == y);
                    }
                } else {
                    assert(s[s.len() - 1] == y);
                }
            }
            if y == x || s.contains(y) {
                if y == s.last() {
                    assert(out[out.len() - 1] == y);
                } else {
                    if s.contains(y) {
                        let k = choose|k: int| 0 <= k < s.len() && s[k] == y;
                        assert(rest[k] == y);
                        assert(rest.contains(y));
                    }
                    assert(less.contains(y));
                    let k = choose|k: int| 0 <= k < less.len() && less[k] == y;
                    assert(out[k] == y);
                }
            }
        }
    }
}

proof fn inserted_at(s: Seq<i64>, x: i64, at: int)
    requires
        0 <= at <= s.len(),
        forall|j: int| at <= j < s.len() ==> x < #[trigger] s[j],
    ensures
        at == 0 || s[at - 1] < x ==> inserted(s, x) == s.insert(at, x),
        at > 0 && s[at - 1] == x ==> inserted(s, x) == s,
    decreases s.len(),
{
    if at < s.len() {
        let rest = s.drop_last();
        assert(x < s[s.len() - 1]);
        assert forall|j: int| at <= j < rest.len() implies x < #[trigger] rest[j] by {
            assert(rest[j] == s[j]);
        }
        inserted_at(rest, x, at);
        if at == 0 || s[at - 1] < x {
            assert(rest.insert(at, x).push(s.last()) =~= s.insert(at, x));
        } else if s[at - 1] == x {
            assert(rest.push(s.last()) =~= s);
        }
    } else {
        assert(s.insert(at, x) =~= s.push(x));
    }
}

fn insert_ascending(s: &mut Vec<i64>, x: i64)
    ensures
        final(s)@ == inserted(old(s)@, x),
{
    let mut at: usize = s.len();
    while at > 0 && s[at - 1] > x
        invariant
            at <= s.len(),
            s@ == old(s)@,
            forall|j: int| at <= j < s.len() ==> x < #[trigger] s@[j],
        decreases at,
    {
        at -= 1;
    }
    proof {
        inserted_at(s@, x, at as int);
    }
    if at == 0 || s[at - 1] < x {
        s.insert(at, x);
    }
}

/// The numbers in ascending order, each once.
pub open spec fn ascending(ids: Seq<i64>) -> Seq<i64>
    decreases ids.len(),
{
    if ids.len() == 0 {
        Seq::empty()
    } else {
        inserted(ascending(ids.drop_last()), ids.last())
    }
}

/// Sorting drops repeats only.
pub proof fn ascending_holds_the_same(ids: Seq<i64>)
    ensures
        strictly_ascending(ascending(ids)),
        forall|y: i64| #[trigger] ascending(ids).contains(y) == ids.contains(y),
    decreases ids.len(),
{
    if ids.len() > 0 {
        let rest = ids.drop_last();
        ascending_holds_the_same(rest);
        inserted_is_ascending(ascending(rest), ids.last());
        assert forall|y: i64| #[trigger] ascending(ids).contains(y) == ids.contains(y) by {
            if ids.contains(y) {
                let i = choose|i: int| 0 <= i < ids.len() && ids[i] == y;
                if i < rest.len() {
                    assert(rest[i] == y);
                    assert(rest.contains(y));
                }
            }
            if rest.contains(y) {
                let i = choose|i: int| 0 <= i < rest.len() && rest[i] == y;
                assert(ids[i] == y);
            }
            if y == ids.last() {
                assert(ids[ids.len() - 1] == y);
            }
        }
    }
}

pub(crate) fn sorted_ids(ids: &[i64]) -> (r: Vec<i64>)
    ensures
        r@ == ascending(ids@),
{
    let mut r: Vec<i64> = Vec::new();
    let mut i: usize = 0;
    while i < ids.len()
        invariant
            i <= ids.len(),
            r@ == ascending(ids@.take(i as int)),
        decreases ids.len() - i,
    {
        proof {
            take_next(ids@, i as int);
        }
        insert_ascending(&mut r, ids[i]);
        i += 1;
    }
    proof {
        take_all(ids@);
    }
    r
}

fn all_distinct(ids: &[i64]) -> (r: bool)
    ensures
        r == ids@.no_duplicates(),
{
    let mut i: usize = 0;
    while i < ids.len()
        invariant
            i <= ids.len(),
            forall|a: int, b: int| 0 <= a < b < i ==> ids@[a] != ids@[b],
        decreases ids.len() - i,
    {
        let mut k: usize = 0;
        while k < i
            invariant
                k <= i < ids.len(),
                forall|a: int| 0 <= a < k ==> ids@[a] != ids@[i as int],
            decreases i - k,
        {
            if ids[k] == ids[i] {
                return false;
            }
            k += 1;
        }
        i += 1;
    }
    true
}

// --- lineage --------------------------------------------------------------------------

/// The elements of a recorded lineage; none where it is no JSON array.
pub open spec fn lineage(merged_from: Option<Seq<char>>) -> Seq<Option<i64>> {
    match merged_from {
        Some(text) => match parsed_ints(text) {
            Some(ints) => ints,
            None => Seq::empty(),
        },
        None => Seq::empty(),
    }
}

/// A list with the integers among `ints` added.
pub open spec fn with_ints(s: Seq<i64>, ints: Seq<Option<i64>>) -> Seq<i64>
    decreases ints.len(),
{
    if ints.len() == 0 {
        s
    } else {
        let rest = with_ints(s, ints.drop_last());
        match ints.last() {
            Some(v) => inserted(rest, v),
            None => rest,
        }
    }
}

/// The numbers of memories and of all that was merged into them before, ascending.
pub open spec fn merged_ids(rows: Seq<StoredMemoryFullModel>) -> Seq<i64>
    decreases rows.len(),
{
    if rows.len() == 0 {
        Seq::empty()
    } else {
        with_ints(
            inserted(merged_ids(rows.drop_last()), rows.last().id),
            lineage(rows.last().merged_from),
        )
    }
}

/// The lineage of a merge is ascending and names every merged memory.
pub proof fn merged_ids_name_all(rows: Seq<StoredMemoryFullModel>, i: int)
    requires
        0 <= i < rows.len(),
    ensures
        strictly_ascending(merged_ids(rows)),
        merged_ids(rows).contains(rows[i].id),
    decreases rows.len(),
{
    let rest = rows.drop_last();
    if rest.len() > 0 {
        let j = if i < rest.len() { i } else { 0 };
        merged_ids_name_all(rest, j);
        assert(rest[j] == rows[j]);
    } else {
        assert(strictly_ascending(merged_ids(rest)));
    }
    inserted_is_ascending(merged_ids(rest), rows.last().id);
    with_ints_grows(
        inserted(merged_ids(rest), rows.last().id),
        lineage(rows.last().merged_from),
        rows[i].id,
    );
}

proof fn with_ints_grows(s: Seq<i64>, ints: Seq<Option<i64>>, x: i64)
    requires
        strictly_ascending(s),
    ensures
        strictly_ascending(with_ints(s, ints)),
        s.contains(x) ==> with_ints(s, ints).contains(x),
    decreases ints.len(),
{
    if ints.len() > 0 {
        with_ints_grows(s, ints.drop_last(), x);
        if ints.last() is Some {
            inserted_is_ascending(with_ints(s, ints.drop_last()), ints.last()->0);
        }
    }
}

/// Writes the lineage of merged memories.
pub fn merged_from_json(rows: &Vec<StoredMemoryFull>) -> (r: String)
    ensures
        r@ == ids_text(merged_ids(views(rows@))),
{
    broadcast use group_views;

    let mut ids: Vec<i64> = Vec::new();
    let mut i: usize = 0;
    while i < rows.len()
        invariant
            i <= rows.len(),
            ids@ == merged_ids(views(rows@).take(i as int)),
        decreases rows.len() - i,
    {
        proof {
            take_next(views(rows@), i as int);
            assert(views(rows@)[i as int] == rows@[i as int]@);
        }
        insert_ascending(&mut ids, rows[i].id);
        if let Some(text) = &rows[i].merged_from {
            if let Some(ints) = parse_int_array(text) {
                insert_ints(&mut ids, &ints);
            }
        }
        i += 1;
    }
    proof {
        take_all(views(rows@));
    }
    write_ids(&ids)
}

fn insert_ints(ids: &mut Vec<i64>, ints: &Vec<Option<i64>>)
    ensures
        final(ids)@ == with_ints(old(ids)@, ints@),
{
    let mut k: usize = 0;
    while k < ints.len()
        invariant
            k <= ints.len(),
            ids@ == with_ints(old(ids)@, ints@.take(k as int)),
        decreases ints.len() - k,
    {
        proof {
            take_next(ints@, k as int);
        }
        if let Some(v) = ints[k] {
            insert_ascending(ids, v);
        }
        k += 1;
    }
    proof {
        take_all(ints@);
    }
}

// --- the merge ------------------------------------------------------------------------

/// The sum of how often the memories were seen.
pub open spec fn seen_total(rows: Seq<StoredMemoryFullModel>) -> int
    decreases rows.len(),
{
    if rows.len() == 0 {
        0
    } else {
        seen_total(rows.drop_last()) + non_negative(rows.last().seen_count)
    }
}

/// The sum of how often the memories were retrieved.
pub open spec fn retrieval_total(rows: Seq<StoredMemoryFullModel>) -> int
    decreases rows.len(),
{
    if rows.len() == 0 {
        0
    } else {
        retrieval_total(rows.drop_last()) + non_negative(rows.last().retrieval_count)
    }
}

/// Whether one of the memories is permanent.
pub open spec fn some_permanent(rows: Seq<StoredMemoryFullModel>) -> bool {
    exists|i: int| 0 <= i < rows.len() && (#[trigger] rows[i]).status == "permanent"@
}

/// Whether the sources may be merged into a target: there is one at least, none twice, none
/// is the target, and the project may change each and has it in the target's category.
pub open spec fn mergeable(
    rows: Seq<StoredMemoryFullModel>,
    project: Seq<char>,
    target: StoredMemoryFullModel,
    sources: Seq<i64>,
) -> bool {
    &&& changeable(target, project)
    &&& sources.len() > 0
    &&& sources.no_duplicates()
    &&& !sources.contains(target.id)
    &&& forall|i: int|
        0 <= i < sources.len() ==> (memory_by_id(rows, #[trigger] sources[i]) matches Some(m)
            && changeable(m, project) && m.category == target.category)
}

/// The memories that a merge brings together: the target, then the sources by number.
pub open spec fn merge_group(
    rows: Seq<StoredMemoryFullModel>,
    target: StoredMemoryFullModel,
    sources: Seq<i64>,
) -> Seq<StoredMemoryFullModel> {
    seq![target] + memories_of(rows, ascending(sources))
}

/// A source after a merge.
pub open spec fn superseded_memory(m: StoredMemoryFullModel, target: i64, at_ms: i64) ->
    StoredMemoryFullModel {
    StoredMemoryFullModel {
        status: "archived"@,
        superseded_by_memory_id: Some(target),
        updated_at: at_ms,
        ..m
    }
}

/// The target after a merge.
pub open spec fn merged_memory(
    target: StoredMemoryFullModel,
    group: Seq<StoredMemoryFullModel>,
    content: Seq<char>,
    at_ms: i64,
) -> StoredMemoryFullModel {
    StoredMemoryFullModel {
        seen_count: seen_total(group) as i64,
        retrieval_count: retrieval_total(group) as i64,
        merged_from: Some(ids_text(merged_ids(group))),
        status: if some_permanent(group) {
            "permanent"@
        } else {
            "active"@
        },
        ..rewritten(target, content, at_ms)
    }
}

/// The memories after the sources were superseded.
pub open spec fn after_superseding(
    rows: Seq<StoredMemoryFullModel>,
    sources: Seq<StoredMemoryFullModel>,
    target: i64,
    at_ms: i64,
) -> Seq<StoredMemoryFullModel>
    decreases sources.len(),
{
    if sources.len() == 0 {
        rows
    } else {
        put_where(
            after_superseding(rows, sources.drop_last(), target, at_ms),
            with_id(sources.last().id),
            superseded_memory(sources.last(), target, at_ms),
        )
    }
}

/// The log rows for superseding the sources, numbered behind `last`.
pub open spec fn superseded_log(
    project: Seq<char>,
    sources: Seq<StoredMemoryFullModel>,
    target: i64,
    last: i64,
    at_ms: i64,
) -> Seq<ShadowMemoryMutationRowModel> {
    Seq::new(
        sources.len(),
        |k: int|
            log_row(
                (last + 1 + k) as i64,
                project,
                "superseded"@,
                sources[k].id,
                Some(target),
                None,
                None,
                at_ms,
            ),
    )
}

/// The store after a merge.
pub open spec fn merged_store(
    s: McStoreModel,
    project: Seq<char>,
    target: StoredMemoryFullModel,
    sources: Seq<i64>,
    content: Seq<char>,
    at_ms: i64,
) -> McStoreModel {
    let rows = memories_of(s.memories, ascending(sources));
    let n = rows.len();
    McStoreModel {
        memories: put_where(
            after_superseding(s.memories, rows, target.id, at_ms),
            with_id(target.id),
            merged_memory(target, merge_group(s.memories, target, sources), content, at_ms),
        ),
        mutations: (s.mutations + superseded_log(
            project,
            rows,
            target.id,
            s.last_mutation_id,
            at_ms,
        )).push(
            log_row(
                (s.last_mutation_id + n + 1) as i64,
                project,
                "update"@,
                target.id,
                None,
                Some(target.category),
                Some(content),
                at_ms,
            ),
        ),
        last_mutation_id: (s.last_mutation_id + n + 1) as i64,
        ..s
    }
}

/// Whether the counts of a merged memory fit its columns, where a merge comes about.
pub open spec fn merge_counts_fit(
    s: McStoreModel,
    project: Seq<char>,
    target_id: i64,
    sources: Seq<i64>,
    content: Seq<char>,
) -> bool {
    (memory_by_id(s.memories, target_id) matches Some(target) && mergeable(
        s.memories,
        project,
        target,
        sources,
    ) && clash(s.memories, target, project, content) is None) ==> {
        let group = merge_group(s.memories, memory_by_id(s.memories, target_id)->0, sources);
        seen_total(group) <= i64::MAX && retrieval_total(group) <= i64::MAX
    }
}

/// What a merge answers, and what it leaves.
pub open spec fn merge_answered(
    s: McStoreModel,
    project: Seq<char>,
    target_id: i64,
    sources: Seq<i64>,
    content: Seq<char>,
    at_ms: i64,
    r: Result<Option<StoredMemoryFull>, McStoreError>,
    after: McStoreModel,
) -> bool {
    match memory_by_id(s.memories, target_id) {
        Some(target) if mergeable(s.memories, project, target, sources) => {
            let other = clash(s.memories, target, project, content);
            let room = s.last_mutation_id + ascending(sources).len() < i64::MAX;
            match r {
                Ok(out) => {
                    &&& other is None
                    &&& room
                    &&& opt_view(out) == Some(
                        merged_memory(
                            target,
                            merge_group(s.memories, target, sources),
                            content,
                            at_ms,
                        ),
                    )
                    &&& after == merged_store(s, project, target, sources, content, at_ms)
                },
                Err(e) => {
                    &&& after == s
                    &&& match other {
                        Some(d) => e == (McStoreError::MemoryDuplicateContent { id: d }),
                        None => !room && e == McStoreError::Store(StoreError::Exhausted),
                    }
                },
            }
        },
        _ => {
            &&& r matches Ok(None)
            &&& after == s
        },
    }
}

proof fn totals_grow(rows: Seq<StoredMemoryFullModel>, n: int)
    requires
        0 <= n <= rows.len(),
    ensures
        0 <= seen_total(rows.take(n)) <= seen_total(rows),
        0 <= retrieval_total(rows.take(n)) <= retrieval_total(rows),
    decreases rows.len(), n,
{
    if rows.len() > 0 {
        if n < rows.len() {
            totals_grow(rows.drop_last(), n);
            assert(rows.drop_last().take(n) =~= rows.take(n));
        } else {
            take_all(rows);
            totals_grow(rows.drop_last(), n - 1);
        }
    } else {
        take_all(rows);
    }
}

fn sum_counts(rows: &Vec<StoredMemoryFull>) -> (r: (i64, i64, bool))
    requires
        seen_total(views(rows@)) <= i64::MAX,
        retrieval_total(views(rows@)) <= i64::MAX,
    ensures
        r.0 == seen_total(views(rows@)),
        r.1 == retrieval_total(views(rows@)),
        r.2 == some_permanent(views(rows@)),
{
    broadcast use group_views;

    let ghost all = views(rows@);
    let mut seen: i64 = 0;
    let mut retrieved: i64 = 0;
    let mut permanent = false;
    let mut i: usize = 0;
    while i < rows.len()
        invariant
            i <= rows.len(),
            all == views(rows@),
            seen_total(all) <= i64::MAX,
            retrieval_total(all) <= i64::MAX,
            seen == seen_total(all.take(i as int)),
            retrieved == retrieval_total(all.take(i as int)),
            permanent == exists|j: int|
                0 <= j < i && (#[trigger] all[j]).status == "permanent"@,
        decreases rows.len() - i,
    {
        proof {
            take_next(all, i as int);
            totals_grow(all, i + 1);
            assert(all[i as int] == rows@[i as int]@);
        }
        if rows[i].seen_count > 0 {
            seen = seen + rows[i].seen_count;
        }
        if rows[i].retrieval_count > 0 {
            retrieved = retrieved + rows[i].retrieval_count;
        }
        if same_text(&rows[i].status, "permanent") {
            permanent = true;
        }
        i += 1;
    }
    proof {
        take_all(all);
    }
    (seen, retrieved, permanent)
}

fn grouped(target: &StoredMemoryFull, rows: &Vec<StoredMemoryFull>) -> (group: Vec<
    StoredMemoryFull,
>)
    ensures
        views(group@) == seq![target@] + views(rows@),
{
    broadcast use group_views;

    let mut group: Vec<StoredMemoryFull> = Vec::new();
    group.push(target.dup());
    let mut i: usize = 0;
    while i < rows.len()
        invariant
            i <= rows.len(),
            views(group@) == seq![target@] + views(rows@).take(i as int),
        decreases rows.len() - i,
    {
        proof {
            take_next(views(rows@), i as int);
            assert(views(rows@)[i as int] == rows@[i as int]@);
        }
        let ghost before = views(group@);
        group.push(rows[i].dup());
        assert(views(group@) == before.push(views(rows@)[i as int]));
        assert(views(group@) =~= seq![target@] + views(rows@).take(i + 1));
        i += 1;
    }
    proof {
        take_all(views(rows@));
    }
    group
}

/// Tests whether the counts of some memories sum up to what a column holds.
fn counts_fit(rows: &Vec<StoredMemoryFull>) -> (r: bool)
    ensures
        r == (seen_total(views(rows@)) <= i64::MAX && retrieval_total(views(rows@)) <= i64::MAX),
{
    broadcast use group_views;

    let ghost all = views(rows@);
    let mut seen: i64 = 0;
    let mut retrieved: i64 = 0;
    let mut i: usize = 0;
    while i < rows.len()
        invariant
            i <= rows.len(),
            all == views(rows@),
            0 <= seen == seen_total(all.take(i as int)),
            0 <= retrieved == retrieval_total(all.take(i as int)),
        decreases rows.len() - i,
    {
        proof {
            take_next(all, i as int);
            totals_grow(all, i + 1);
            assert(all[i as int] == rows@[i as int]@);
        }
        let s: i64 = rows[i].seen_count;
        let n: i64 = rows[i].retrieval_count;
        if (s > 0 && seen > i64::MAX - s) || (n > 0 && retrieved > i64::MAX - n) {
            return false;
        }
        if s > 0 {
            seen = seen + s;
        }
        if n > 0 {
            retrieved = retrieved + n;
        }
        i += 1;
    }
    proof {
        take_all(all);
    }
    true
}

impl McStore {
    fn load_sources(&self, project: &str, category: &str, ids: &Vec<i64>) -> (r: Option<
        Vec<StoredMemoryFull>,
    >)
        ensures
            match r {
                Some(rows) => {
                    &&& views(rows@) == memories_of(self@.memories, ids@)
                    &&& forall|i: int|
                        0 <= i < ids@.len() ==> (memory_by_id(self@.memories, #[trigger] ids@[i])
                            matches Some(m) && changeable(m, project@) && m.category == category@)
                    &&& forall|i: int|
                        0 <= i < ids@.len() ==> (#[trigger] rows@[i]).id == ids@[i]
                },
                None => exists|i: int|
                    0 <= i < ids@.len() && !(memory_by_id(self@.memories, #[trigger] ids@[i])
                        matches Some(m) && changeable(m, project@) && m.category == category@),
            },
    {
        broadcast use group_views;

        let mut rows: Vec<StoredMemoryFull> = Vec::new();
        let mut i: usize = 0;
        while i < ids.len()
            invariant
                i <= ids.len(),
                views(rows@) == memories_of(self@.memories, ids@).take(i as int),
                forall|j: int|
                    0 <= j < i ==> (memory_by_id(self@.memories, #[trigger] ids@[j])
                        matches Some(m) && changeable(m, project@) && m.category == category@),
                forall|j: int| 0 <= j < i ==> (#[trigger] rows@[j]).id == ids@[j],
            decreases ids.len() - i,
        {
            proof {
                take_next(memories_of(self@.memories, ids@), i as int);
            }
            match find_memory(&self.memories, ids[i]) {
                Some(at) => {
                    if !is_changeable(&self.memories[at], project) || !same_text(
                        &self.memories[at].category,
                        category,
                    ) {
                        assert(memory_by_id(self@.memories, ids@[i as int]) is Some);
                        return None;
                    }
                    rows.push(self.memories[at].dup());
                },
                None => {
                    assert(memory_by_id(self@.memories, ids@[i as int]) is None);
                    return None;
                },
            }
            i += 1;
        }
        proof {
            take_all(memories_of(self@.memories, ids@));
        }
        Some(rows)
    }

    fn supersede_all(
        &mut self,
        project: &str,
        rows: &Vec<StoredMemoryFull>,
        target_id: i64,
        now_ms: i64,
    )
        requires
            old(self)@.last_mutation_id + rows@.len() <= i64::MAX,
        ensures
            final(self)@ == (McStoreModel {
                memories: after_superseding(
                    old(self)@.memories,
                    views(rows@),
                    target_id,
                    now_ms,
                ),
                mutations: old(self)@.mutations + superseded_log(
                    project@,
                    views(rows@),
                    target_id,
                    old(self)@.last_mutation_id,
                    now_ms,
                ),
                last_mutation_id: (old(self)@.last_mutation_id + rows@.len()) as i64,
                ..old(self)@
            }),
    {
        broadcast use group_views;

        let ghost s = self@;
        let ghost all = views(rows@);
        let ghost log = superseded_log(project@, all, target_id, s.last_mutation_id, now_ms);
        assert(s.mutations + log.take(0) =~= s.mutations);
        let mut k: usize = 0;
        while k < rows.len()
            invariant
                k <= rows.len(),
                all == views(rows@),
                s.last_mutation_id + rows@.len() <= i64::MAX,
                log == superseded_log(project@, all, target_id, s.last_mutation_id, now_ms),
                self@ == (McStoreModel {
                    memories: after_superseding(
                        s.memories,
                        all.take(k as int),
                        target_id,
                        now_ms,
                    ),
                    mutations: s.mutations + log.take(k as int),
                    last_mutation_id: (s.last_mutation_id + k) as i64,
                    ..s
                }),
            decreases rows.len() - k,
        {
            proof {
                take_next(all, k as int);
                take_next(log, k as int);
                assert(s.mutations + log.take(k + 1) =~= (s.mutations + log.take(k as int)).push(
                    log[k as int],
                ));
                assert(all[k as int] == rows@[k as int]@);
            }
            let mut m = rows[k].dup();
            m.status = "archived".to_owned();
            m.superseded_by_memory_id = Some(target_id);
            m.updated_at = now_ms;
            assert(m@ == superseded_memory(all[k as int], target_id, now_ms));
            put_memory(&mut self.memories, m);
            self.log_mutation(
                project,
                "superseded",
                rows[k].id,
                Some(target_id),
                None,
                None,
                now_ms,
            );
            k += 1;
        }
        proof {
            take_all(all);
            take_all(log);
        }
    }

    /// Reads the target and the sources, by number, where they may be merged.
    fn group_to_merge(&self, project_path: &str, target_id: i64, source_ids: &[i64]) -> (r: Option<
        (StoredMemoryFull, Vec<StoredMemoryFull>),
    >)
        ensures
            match r {
                Some(group) => {
                    &&& memory_by_id(self@.memories, target_id) == Some(group.0@)
                    &&& group.0@.id == target_id
                    &&& mergeable(self@.memories, project_path@, group.0@, source_ids@)
                    &&& views(group.1@) == memories_of(self@.memories, ascending(source_ids@))
                },
                None => !(memory_by_id(self@.memories, target_id) matches Some(target)
                    && mergeable(self@.memories, project_path@, target, source_ids@)),
            },
    {
        broadcast use group_views;

        let ghost s = self@;
        let target = match find_memory(&self.memories, target_id) {
            Some(i) => self.memories[i].dup(),
            None => {
                return None;
            },
        };
        assert(target@.id == target_id);
        if !is_changeable(&target, project_path) {
            return None;
        }
        if source_ids.len() == 0 || !all_distinct(source_ids) || slice_has(source_ids, target_id) {
            return None;
        }
        let ids = sorted_ids(source_ids);
        proof {
            ascending_holds_the_same(source_ids@);
        }
        let rows = match self.load_sources(project_path, &target.category, &ids) {
            Some(rows) => rows,
            None => {
                proof {
                    let i = choose|i: int|
                        0 <= i < ids@.len() && !(memory_by_id(s.memories, #[trigger] ids@[i])
                            matches Some(m) && changeable(m, project_path@) && m.category
                            == target@.category);
                    assert(ids@.contains(ids@[i]));
                    assert(source_ids@.contains(ids@[i]));
                    let j = choose|j: int| 0 <= j < source_ids@.len() && source_ids@[j] == ids@[i];
                    assert(memory_by_id(s.memories, source_ids@[j]) == memory_by_id(
                        s.memories,
                        ids@[i],
                    ));
                }
                return None;
            },
        };
        assert(mergeable(s.memories, project_path@, target@, source_ids@)) by {
            assert forall|j: int| 0 <= j < source_ids@.len() implies (memory_by_id(
                s.memories,
                #[trigger] source_ids@[j],
            ) matches Some(m) && changeable(m, project_path@) && m.category == target@.category) by {
                assert(source_ids@.contains(source_ids@[j]));
                assert(ids@.contains(source_ids@[j]));
                let i = choose|i: int| 0 <= i < ids@.len() && ids@[i] == source_ids@[j];
                assert(memory_by_id(s.memories, ids@[i]) is Some);
            }
        }
        Some((target, rows))
    }

    /// Merges the sources into the target and logs every change. `None` means that the
    /// memories may not be merged so.
    pub fn merge_memories(
        &mut self,
        project_path: &str,
        target_id: i64,
        source_ids: &[i64],
        merged_content: &str,
        now_ms: i64,
    ) -> (r: Result<Option<StoredMemoryFull>, McStoreError>)
        requires
            merge_counts_fit(
                old(self)@,
                project_path@,
                target_id,
                source_ids@,
                merged_content@,
            ),
        ensures
            merge_answered(
                old(self)@,
                project_path@,
                target_id,
                source_ids@,
                merged_content@,
                now_ms,
                r,
                final(self)@,
            ),
            well_formed(old(self)@) ==> well_formed(final(self)@),
            commands_kept(old(self)@, final(self)@),
    {
        broadcast use group_views;

        let ghost s = self@;
        let (target, rows) = match self.group_to_merge(project_path, target_id, source_ids) {
            Some(group) => group,
            None => {
                return Ok(None);
            },
        };
        let hash = compute_normalized_memory_hash(merged_content);
        if let Some(k) = find_saying(&self.memories, project_path, &target.category, &hash) {
            if self.memories[k].id != target_id {
                return Err(McStoreError::MemoryDuplicateContent { id: self.memories[k].id });
            }
        }
        if (rows.len() as i128) + (self.last_mutation_id as i128) >= i64::MAX as i128 {
            return Err(McStoreError::Store(StoreError::Exhausted));
        }
        let group = grouped(&target, &rows);
        assert(views(group@) =~= merge_group(s.memories, target@, source_ids@));
        let merged_from = merged_from_json(&group);
        let (seen, retrieved, permanent) = sum_counts(&group);
        self.supersede_all(project_path, &rows, target_id, now_ms);
        let category = target.category.clone();
        let mut m = target.dup();
        m.content = merged_content.to_owned();
        m.normalized_hash = hash;
        m.seen_count = seen;
        m.retrieval_count = retrieved;
        m.merged_from = Some(merged_from);
        m.status = if permanent {
            "permanent".to_owned()
        } else {
            "active".to_owned()
        };
        m.updated_at = now_ms;
        m.shareable = 0;
        m.classified_at = None;
        assert(m@ == merged_memory(
            target@,
            merge_group(s.memories, target@, source_ids@),
            merged_content@,
            now_ms,
        ));
        proof {
            if well_formed(s) {
                merged_kept(
                    s,
                    project_path@,
                    target@,
                    source_ids@,
                    merged_content@,
                    now_ms,
                );
            }
        }
        let out = m.dup();
        put_memory(&mut self.memories, m);
        self.log_mutation(
            project_path,
            "update",
            target_id,
            None,
            Some(&category),
            Some(merged_content),
            now_ms,
        );
        Ok(Some(out))
    }

    /// Tests whether the counts of a merged memory would fit its columns.
    fn merge_fits(
        &self,
        project_path: &str,
        target_id: i64,
        source_ids: &[i64],
        merged_content: &str,
    ) -> (r: bool)
        ensures
            r == merge_counts_fit(
                self@,
                project_path@,
                target_id,
                source_ids@,
                merged_content@,
            ),
    {
        broadcast use group_views;

        match self.group_to_merge(project_path, target_id, source_ids) {
            Some((target, rows)) => {
                let hash = compute_normalized_memory_hash(merged_content);
                if let Some(k) = find_saying(
                    &self.memories,
                    project_path,
                    &target.category,
                    &hash,
                ) {
                    if self.memories[k].id != target_id {
                        return true;
                    }
                }
                let group = grouped(&target, &rows);
                assert(views(group@) =~= merge_group(self@.memories, target@, source_ids@));
                counts_fit(&group)
            },
            None => true,
        }
    }

    /// Merges the sources into the target as [`McStore::merge_memories`] does, where the
    /// counts of the merged memory fit their columns. Where they do not, the merge fails and
    /// nothing changes.
    pub fn merge_memories_checked(
        &mut self,
        project_path: &str,
        target_id: i64,
        source_ids: &[i64],
        merged_content: &str,
        now_ms: i64,
    ) -> (r: Result<Option<StoredMemoryFull>, McStoreError>)
        ensures
            if merge_counts_fit(
                old(self)@,
                project_path@,
                target_id,
                source_ids@,
                merged_content@,
            ) {
                merge_answered(
                    old(self)@,
                    project_path@,
                    target_id,
                    source_ids@,
                    merged_content@,
                    now_ms,
                    r,
                    final(self)@,
                )
            } else {
                &&& r == Err::<Option<StoredMemoryFull>, McStoreError>(
                    McStoreError::Store(StoreError::IntegerOverflow),
                )
                &&& final(self)@ == old(self)@
            },
            well_formed(old(self)@) ==> well_formed(final(self)@),
            commands_kept(old(self)@, final(self)@),
    {
        if !self.merge_fits(project_path, target_id, source_ids, merged_content) {
            return Err(McStoreError::Store(StoreError::IntegerOverflow));
        }
        self.merge_memories(project_path, target_id, source_ids, merged_content, now_ms)
    }
}

} // verus!

//! What a publication is for.

use vstd::prelude::*;

use crate::meta::{HistorianPhase, ModuleMetaModel};
use crate::rows::{
    keyed_all, of_session, of_session_concat, of_session_keyed_all, row_of, row_of_put, views,
};
use crate::store::McStoreModel;
use crate::store::cache::next_version;
use crate::store::compartments::{max_sequence, max_sequence_is_largest, renumbered};
use crate::store::facts::{
    active_contents, fact_contents, facts_to_store, promotable, promoted_memories, with_promoted,
};
use crate::store::publish::{publication, published_meta, with_published, HistorianPublishRequest};
use crate::store::records::{
    CacheRowModel, FactCandidateModel, StoredCompartmentModel, StoredMemoryFullModel,
};
use crate::store::transcripts::{evicted, kept_blob, with_rows};
use crate::text::blank;

verus! {

// --- the record ---------------------------------------------------------------------------

/// Whether a publication raised a floor: the new one is none of the request's, the one before
/// and the first ordinal but one of these, and none of them is above it.
pub open spec fn floor_is_raised(before: Option<u64>, given: u64, after: Option<u64>) -> bool {
    after matches Some(f) && {
        &&& f >= given
        &&& f >= 1
        &&& before matches Some(b) ==> f >= b
        &&& f == given || f == 1 || before == Some(f)
    }
}

/// An accepted publication raises the publication floor to what it asks for, never lowers it,
/// makes the historian idle without losing its count of firings, and moves the row on by one
/// version. What is rendered of the session, and all else of its record, stays. The answer
/// tells the new version.
pub proof fn a_publication_raises_the_floor(s: McStoreModel, request: HistorianPublishRequest)
    requires
        publication(s, request) is Ok,
    ensures
        ({
            let (result, after) = publication(s, request)->Ok_0;
            let session = request.session_id@;
            &&& row_of(s.cache, session) matches Some(was)
            &&& row_of(after.cache, session) matches Some(now)
            &&& floor_is_raised(
                was.meta.publication_floor_ordinal,
                request.publication_floor_ordinal,
                now.meta.publication_floor_ordinal,
            )
            &&& now.meta.historian.state == HistorianPhase::Idle
            &&& now.meta.historian.producer_run_id is None
            &&& now.meta.historian.firing_seq == was.meta.historian.firing_seq
            &&& now.meta == (ModuleMetaModel {
                publication_floor_ordinal: now.meta.publication_floor_ordinal,
                historian: now.meta.historian,
                ..was.meta
            })
            &&& now.core == was.core
            &&& now.row_version == was.row_version + 1
            &&& result.row_version == now.row_version
        }),
{
    let session = request.session_id@;
    let was = row_of(s.cache, session)->0;
    row_of_put(
        s.cache,
        session,
        CacheRowModel {
            row_version: next_version(s, session),
            core: was.core,
            meta: published_meta(was.meta, request.publication_floor_ordinal),
        },
        session,
    );
}

/// A publication is accepted only from the producer that the session waits for, at the version
/// and the epoch that the request was made for.
pub proof fn a_publication_is_awaited(s: McStoreModel, request: HistorianPublishRequest)
    requires
        publication(s, request) is Ok,
    ensures
        row_of(s.cache, request.session_id@) matches Some(was) && {
            let h = was.meta.historian;
            &&& request.expected_row_version == Some(was.row_version)
            &&& request.expected_revert_epoch == was.meta.revert_epoch
            &&& h.state == HistorianPhase::Publishing || h.state == HistorianPhase::AwaitingProducer
            &&& h.firing_seq == request.predicate@.firing_seq
            &&& h.producer_run_id == Some(request.predicate@.producer_run_id)
            &&& h.chunk_fingerprint == request.predicate@.chunk_fingerprint
        },
{
}

// --- compartments -------------------------------------------------------------------------

/// An accepted publication appends its compartments, each as it was given but for its
/// sequence. The sequences go on behind all those of the session, one by one. The
/// compartments that were there stay, and so do those of other sessions and their rows.
pub proof fn a_publication_appends_its_compartments(
    s: McStoreModel,
    request: HistorianPublishRequest,
    other: Seq<char>,
)
    requires
        publication(s, request) is Ok,
    ensures
        ({
            let after = publication(s, request)->Ok_0.1;
            let session = request.session_id@;
            let was = of_session(s.compartments, session);
            let now = of_session(after.compartments, session);
            let given = views(request.compartments@);
            &&& now.len() == was.len() + given.len()
            &&& forall|i: int| 0 <= i < was.len() ==> now[i] == #[trigger] was[i]
            &&& forall|k: int|
                0 <= k < given.len() ==> {
                    let c = now[was.len() + k];
                    &&& c == (StoredCompartmentModel { sequence: c.sequence, ..#[trigger] given[k] })
                    &&& k > 0 ==> c.sequence == now[was.len() + k - 1].sequence + 1
                    &&& forall|i: int| 0 <= i < was.len() ==> (#[trigger] was[i]).sequence < c.sequence
                    &&& (k == 0 && was.len() > 0) ==> exists|i: int|
                        0 <= i < was.len() && (#[trigger] was[i]).sequence + 1 == c.sequence
                    &&& (k == 0 && was.len() == 0) ==> c.sequence == 1
                }
            &&& other != session ==> {
                &&& of_session(after.compartments, other) == of_session(s.compartments, other)
                &&& row_of(after.cache, other) == row_of(s.cache, other)
            }
        }),
{
    let session = request.session_id@;
    let row = row_of(s.cache, session)->0;
    let was = of_session(s.compartments, session);
    let given = views(request.compartments@);
    let last = max_sequence(was);
    let new = renumbered(given, last);
    let after = with_published(s, request, row);
    of_session_concat(s.compartments, keyed_all(session, new), session);
    of_session_keyed_all(session, new, session);
    if other != session {
        of_session_concat(s.compartments, keyed_all(session, new), other);
        of_session_keyed_all(session, new, other);
        assert(of_session(s.compartments, other) + Seq::<StoredCompartmentModel>::empty()
            =~= of_session(s.compartments, other));
        row_of_put(
            s.cache,
            session,
            CacheRowModel {
                row_version: next_version(s, session),
                core: row.core,
                meta: published_meta(row.meta, request.publication_floor_ordinal),
            },
            other,
        );
    }
    let now = of_session(after.compartments, session);
    assert(now == was + new);
    assert forall|k: int| 0 <= k < given.len() implies ({
        let c = now[was.len() + k];
        &&& c == (StoredCompartmentModel { sequence: c.sequence, ..#[trigger] given[k] })
        &&& k > 0 ==> c.sequence == now[was.len() + k - 1].sequence + 1
        &&& forall|i: int| 0 <= i < was.len() ==> (#[trigger] was[i]).sequence < c.sequence
        &&& (k == 0 && was.len() > 0) ==> exists|i: int|
            0 <= i < was.len() && (#[trigger] was[i]).sequence + 1 == c.sequence
        &&& (k == 0 && was.len() == 0) ==> c.sequence == 1
    }) by {
        assert(now[was.len() + k] == new[k]);
        if k > 0 {
            assert(now[was.len() + k - 1] == new[k - 1]);
        }
        assert forall|i: int| 0 <= i < was.len() implies (#[trigger] was[i]).sequence
            < new[k].sequence by {
            max_sequence_is_largest(was, i);
        }
        if was.len() > 0 {
            the_largest_occurs(was);
        }
    }
}

/// The largest sequence of compartments is that of one of them.
pub proof fn the_largest_occurs(rows: Seq<StoredCompartmentModel>)
    requires
        rows.len() > 0,
    ensures
        exists|i: int| 0 <= i < rows.len() && (#[trigger] rows[i]).sequence == max_sequence(rows),
    decreases rows.len(),
{
    if rows.len() == 1 {
        assert(rows[0].sequence == max_sequence(rows));
    } else {
        let rest = rows.drop_last();
        the_largest_occurs(rest);
        let i = choose|i: int|
            0 <= i < rest.len() && (#[trigger] rest[i]).sequence == max_sequence(rest);
        assert(rows[i] == rest[i]);
        assert(rows[rows.len() - 1] == rows.last());
    }
}

// --- facts --------------------------------------------------------------------------------

/// Whether a live memory of a project has a content.
pub open spec fn is_remembered(
    rows: Seq<StoredMemoryFullModel>,
    project: Seq<char>,
    content: Seq<char>,
) -> bool {
    exists|i: int|
        0 <= i < rows.len() && (#[trigger] rows[i]).project_path == project && rows[i].content
            == content && (rows[i].status == "active"@ || rows[i].status == "permanent"@)
}

proof fn what_is_active(rows: Seq<StoredMemoryFullModel>, project: Seq<char>, content: Seq<char>)
    ensures
        active_contents(rows, project).contains(content) == is_remembered(rows, project, content),
    decreases rows.len(),
{
    let all = active_contents(rows, project);
    if rows.len() > 0 {
        let rest = rows.drop_last();
        let less = active_contents(rest, project);
        what_is_active(rest, project, content);
        if less.contains(content) {
            let k = choose|k: int| 0 <= k < less.len() && less[k] == content;
            assert(all[k] == content);
        }
        if is_remembered(rest, project, content) {
            let i = choose|i: int|
                0 <= i < rest.len() && (#[trigger] rest[i]).project_path == project
                    && rest[i].content == content && (rest[i].status == "active"@ || rest[i].status
                    == "permanent"@);
            assert(rows[i] == rest[i]);
        }
        if is_remembered(rows, project, content) && !is_remembered(rest, project, content) {
            let i = choose|i: int|
                0 <= i < rows.len() && (#[trigger] rows[i]).project_path == project
                    && rows[i].content == content && (rows[i].status == "active"@ || rows[i].status
                    == "permanent"@);
            if i < rest.len() {
                assert(rest[i] == rows[i]);
            }
            assert(all[all.len() - 1] == content);
        }
        if all.contains(content) && !less.contains(content) {
            let k = choose|k: int| 0 <= k < all.len() && all[k] == content;
            if k < less.len() {
                assert(less[k] == content);
            }
            assert(rows[rows.len() - 1].content == content);
        }
    }
}

proof fn every_fact_counts(active: Seq<Seq<char>>, facts: Seq<FactCandidateModel>, i: int)
    requires
        0 <= i < facts.len(),
        !blank(facts[i].category),
        !blank(facts[i].content),
    ensures
        active.contains(facts[i].content) || fact_contents(promotable(active, facts)).contains(
            facts[i].content,
        ),
    decreases facts.len(),
{
    let rest = facts.drop_last();
    let less = promotable(active, rest);
    let all = promotable(active, facts);
    let c = facts[i].content;
    if i < rest.len() {
        assert(rest[i] == facts[i]);
        every_fact_counts(active, rest, i);
        if fact_contents(less).contains(c) {
            let k = choose|k: int| 0 <= k < fact_contents(less).len() && fact_contents(less)[k] == c;
            assert(fact_contents(all)[k] == c);
        }
    } else if !active.contains(c) {
        if fact_contents(less).contains(c) {
            assert(all == less);
        } else {
            assert(fact_contents(all)[all.len() - 1] == c);
        }
    }
}

proof fn promoted_come_from_facts(active: Seq<Seq<char>>, facts: Seq<FactCandidateModel>, k: int)
    requires
        0 <= k < promotable(active, facts).len(),
    ensures
        facts.contains(promotable(active, facts)[k]),
        !blank(promotable(active, facts)[k].category),
        !blank(promotable(active, facts)[k].content),
    decreases facts.len(),
{
    let rest = facts.drop_last();
    let less = promotable(active, rest);
    if k < less.len() {
        promoted_come_from_facts(active, rest, k);
        let i = choose|i: int| 0 <= i < rest.len() && rest[i] == less[k];
        assert(facts[i] == less[k]);
    } else {
        assert(facts[facts.len() - 1] == promotable(active, facts)[k]);
    }
}

/// Facts are promoted: each with a category and a content is remembered afterwards, by a live
/// memory of the project that says it letter for letter. The memories that were there stay.
/// Each that is added says what one of the facts says, is active, and says what no live memory
/// of the project and no other that is added says.
pub proof fn every_fact_is_remembered(
    s: McStoreModel,
    project: Seq<char>,
    facts: Seq<FactCandidateModel>,
)
    requires
        s.last_memory_id + facts_to_store(s, project, facts).len() <= i64::MAX,
    ensures
        ({
            let after = with_promoted(s, project, facts);
            let n = s.memories.len();
            &&& forall|i: int|
                0 <= i < facts.len() && !blank((#[trigger] facts[i]).category) && !blank(
                    facts[i].content,
                ) ==> is_remembered(after.memories, project, facts[i].content)
            &&& after.memories.len() >= n
            &&& forall|j: int| 0 <= j < n ==> after.memories[j] == #[trigger] s.memories[j]
            &&& forall|j: int|
                n <= j < after.memories.len() ==> {
                    let m = #[trigger] after.memories[j];
                    &&& m.project_path == project
                    &&& m.status == "active"@
                    &&& m.superseded_by_memory_id is None
                    &&& m.id == s.last_memory_id + 1 + (j - n)
                    &&& !is_remembered(s.memories, project, m.content)
                    &&& exists|i: int|
                        0 <= i < facts.len() && (#[trigger] facts[i]).content == m.content
                            && facts[i].category == m.category && facts[i].importance
                            == m.importance && facts[i].expires_at == m.expires_at
                            && facts[i].source_session_id == m.source_session_id
                }
            &&& forall|j: int, k: int|
                n <= j < k < after.memories.len() ==> (#[trigger] after.memories[j]).content != (
                #[trigger] after.memories[k]).content
            &&& after.last_memory_id == s.last_memory_id + (after.memories.len() - n)
        }),
{
    let after = with_promoted(s, project, facts);
    let n = s.memories.len();
    let active = active_contents(s.memories, project);
    let new = promotable(active, facts);
    let added = promoted_memories(s, project, facts);
    crate::store::facts::promotion_adds_no_repeats(active, facts);
    assert forall|i: int|
        0 <= i < facts.len() && !blank((#[trigger] facts[i]).category) && !blank(
            facts[i].content,
        ) implies is_remembered(after.memories, project, facts[i].content) by {
        let c = facts[i].content;
        every_fact_counts(active, facts, i);
        if active.contains(c) {
            what_is_active(s.memories, project, c);
            let j = choose|j: int|
                0 <= j < s.memories.len() && (#[trigger] s.memories[j]).project_path == project
                    && s.memories[j].content == c && (s.memories[j].status == "active"@
                    || s.memories[j].status == "permanent"@);
            assert(after.memories[j] == s.memories[j]);
        } else {
            let k = choose|k: int| 0 <= k < fact_contents(new).len() && fact_contents(new)[k] == c;
            assert(after.memories[n + k] == added[k]);
        }
    }
    assert forall|j: int| n <= j < after.memories.len() implies ({
        let m = #[trigger] after.memories[j];
        &&& m.project_path == project
        &&& m.status == "active"@
        &&& m.superseded_by_memory_id is None
        &&& m.id == s.last_memory_id + 1 + (j - n)
        &&& !is_remembered(s.memories, project, m.content)
        &&& exists|i: int|
            0 <= i < facts.len() && (#[trigger] facts[i]).content == m.content && facts[i].category
                == m.category && facts[i].importance == m.importance && facts[i].expires_at
                == m.expires_at && facts[i].source_session_id == m.source_session_id
    }) by {
        let k = j - n;
        let m = after.memories[j];
        assert(m == added[k]);
        promoted_come_from_facts(active, facts, k);
        what_is_active(s.memories, project, m.content);
        assert(!active.contains(new[k].content));
        let i = choose|i: int| 0 <= i < facts.len() && facts[i] == new[k];
        assert(facts[i].content == m.content);
    }
    assert forall|j: int, k: int| n <= j < k < after.memories.len() implies (
    #[trigger] after.memories[j]).content != (#[trigger] after.memories[k]).content by {
        assert(after.memories[j] == added[j - n]);
        assert(after.memories[k] == added[k - n]);
        assert(fact_contents(new)[j - n] != fact_contents(new)[k - n]);
    }
}

/// An accepted publication promotes its facts, as [`every_fact_is_remembered`] says, and its
/// answer refers to each memory that it added, by number and content.
pub proof fn a_publication_promotes_its_facts(s: McStoreModel, request: HistorianPublishRequest)
    requires
        publication(s, request) is Ok,
    ensures
        ({
            let (result, after) = publication(s, request)->Ok_0;
            let facts = views(request.facts@);
            let project = request.project_path@;
            let n = s.memories.len();
            &&& after.memories == with_promoted(s, project, facts).memories
            &&& s.last_memory_id + facts_to_store(s, project, facts).len() <= i64::MAX
            &&& result.promoted_refs.len() == after.memories.len() - n
            &&& forall|k: int|
                0 <= k < result.promoted_refs.len() ==> {
                    let m = after.memories[n + k];
                    &&& (#[trigger] result.promoted_refs[k]).memory_id == m.id
                    &&& result.promoted_refs[k].content == m.content
                }
        }),
{
}

// --- transcripts --------------------------------------------------------------------------

/// A publication with a text that is kept stores it for each of its compartments, under the
/// sequences that they get, and then takes the oldest transcripts beyond the bound away. One
/// without a text, or without a compartment, leaves the transcripts.
pub proof fn a_publication_stores_its_text(s: McStoreModel, request: HistorianPublishRequest)
    requires
        publication(s, request) is Ok,
    ensures
        ({
            let after = publication(s, request)->Ok_0.1;
            let session = request.session_id@;
            let given = views(request.compartments@);
            let was = of_session(s.compartments, session);
            let now = of_session(after.compartments, session);
            &&& request.chunk_transcript is None || given.len() == 0 ==> after.transcripts
                == s.transcripts
            &&& (request.chunk_transcript matches Some(text) ==> (kept_blob(text@) matches Some(
                blob,
            ) ==> (given.len() > 0 ==> after.transcripts == evicted(
                with_rows(
                    s.transcripts,
                    session,
                    now[was.len() as int].sequence,
                    given,
                    blob,
                ),
                session,
            ))))
        }),
{
    let session = request.session_id@;
    let row = row_of(s.cache, session)->0;
    let was = of_session(s.compartments, session);
    let given = views(request.compartments@);
    let new = renumbered(given, max_sequence(was));
    let after = with_published(s, request, row);
    of_session_concat(s.compartments, keyed_all(session, new), session);
    of_session_keyed_all(session, new, session);
    let now = of_session(after.compartments, session);
    assert(now == was + new);
    if given.len() > 0 {
        assert(now[was.len() as int] == new[0]);
    }
}

} // verus!

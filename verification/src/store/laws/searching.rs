//! What is found by a search, and who shares a workspace.

use vstd::prelude::*;

use crate::like::{folded_text, holds, like_finds_the_query_itself, up_to_zero};
use crate::rows::{
    accepted_is_kept, first_where, first_where_first, keep_where, kept_is_accepted, sorted,
    sorted_holds_the_same, sorted_is_ordered, sorted_len,
};
use crate::store::McStoreModel;
use crate::store::notes::NoteOrder;
use crate::store::reading::rendered;
use crate::store::records::{
    StoredCompartment, StoredCompartmentModel, StoredMemory, StoredMemoryModel, StoredNote,
    StoredNoteModel, WorkspaceMemberRow, WorkspaceMembershipModel,
};
use crate::store::search::{
    answers, compartment_hit, found_compartment, found_memory, found_note, in_millis, memory_hit,
    note_hit, LatestOrder, RecentOrder,
};
use crate::store::workspace::{
    fingerprint, in_workspace, measured, measured_all, member_at, members_of, membership_of,
    workspace_numbered, workspace_of, MemberOrder,
};
use crate::text::{lowercase, text_le, trimmed};

verus! {

// --- search -------------------------------------------------------------------------------

/// Whether a text holds a query, white space at its ends and the case of letters apart. Both
/// hold no zero character.
pub open spec fn holds_query(text: Seq<char>, query: Seq<char>) -> bool {
    holds(folded_text(text), lowercase(trimmed(query)))
}

/// A text answers a query that it holds, and no other.
pub proof fn an_answer_holds_the_query(text: Seq<char>, query: Seq<char>)
    requires
        !lowercase(trimmed(query)).contains('\0'),
        !text.contains('\0'),
    ensures
        answers(query, text) == holds_query(text, query),
{
    like_finds_the_query_itself(query, folded_text(text));
    let t = folded_text(text);
    assert forall|i: int| 0 <= i < t.len() implies t[i] != '\0' by {
        assert(text[i] != '\0');
    }
    without_a_zero(t);
}

proof fn without_a_zero(s: Seq<char>)
    requires
        forall|i: int| 0 <= i < s.len() ==> s[i] != '\0',
    ensures
        up_to_zero(s) == s,
    decreases s.len(),
{
    if s.len() > 0 {
        let rest = s.skip(1);
        assert forall|i: int| 0 <= i < rest.len() implies rest[i] != '\0' by {
            assert(rest[i] == s[i + 1]);
        }
        without_a_zero(rest);
        assert(seq![s[0]] + rest =~= s);
    } else {
        assert(s =~= Seq::empty());
    }
}

/// A compartment is found by its title and by each of its texts, and by nothing else.
pub proof fn a_compartment_is_found_by_each_text(query: Seq<char>, c: StoredCompartmentModel)
    ensures
        answers(query, c.title) ==> found_compartment(query)(c),
        answers(query, c.content) ==> found_compartment(query)(c),
        c.p1 matches Some(t) ==> (answers(query, t) ==> found_compartment(query)(c)),
        c.p2 matches Some(t) ==> (answers(query, t) ==> found_compartment(query)(c)),
        c.p3 matches Some(t) ==> (answers(query, t) ==> found_compartment(query)(c)),
        c.p4 matches Some(t) ==> (answers(query, t) ==> found_compartment(query)(c)),
        found_compartment(query)(c) && !answers(query, Seq::empty()) ==> answers(query, c.title)
            || answers(query, c.content) || (c.p1 matches Some(t) && answers(query, t)) || (
        c.p2 matches Some(t) && answers(query, t)) || (c.p3 matches Some(t) && answers(query, t))
            || (c.p4 matches Some(t) && answers(query, t)),
{
}

/// A memory is found where it is shown and its text answers.
pub proof fn a_memory_is_found_where_it_is_shown(
    project: Seq<char>,
    membership: Option<WorkspaceMembershipModel>,
    now_ms: i64,
    query: Seq<char>,
    m: StoredMemoryModel,
)
    ensures
        found_memory(project, membership, now_ms, query)(m) <==> rendered(
            project,
            membership,
            now_ms,
        )(m) && answers(query, m.content),
{
}

/// A note is found in its own session of its own project, by its text or by its condition.
pub proof fn a_note_is_found_in_its_session(
    project: Seq<char>,
    session: Seq<char>,
    query: Seq<char>,
    n: StoredNoteModel,
)
    ensures
        found_note(project, session, query)(n) ==> n.project_path == project && n.session_id
            == session,
        n.project_path == project && n.session_id == session && answers(query, n.content)
            ==> found_note(project, session, query)(n),
        n.project_path == project && n.session_id == session && (
        n.surface_condition matches Some(t) && answers(query, t)) ==> found_note(
            project,
            session,
            query,
        )(n),
        found_note(project, session, query)(n) && !answers(query, Seq::empty()) ==> answers(
            query,
            n.content,
        ) || (n.surface_condition matches Some(t) && answers(query, t)),
{
}

/// A hit shows what was found as it is stored.
pub proof fn a_hit_shows_what_was_found(
    m: StoredMemoryModel,
    c: StoredCompartmentModel,
    n: StoredNoteModel,
)
    ensures
        memory_hit(m).id == m.id,
        memory_hit(m).project_path == m.project_path,
        memory_hit(m).category == m.category,
        memory_hit(m).content == m.content,
        memory_hit(m).updated_at == m.updated_at,
        compartment_hit(c).sequence == c.sequence,
        compartment_hit(c).title == c.title,
        compartment_hit(c).content == c.content,
        compartment_hit(c).p1 == c.p1,
        compartment_hit(c).p2 == c.p2,
        compartment_hit(c).p3 == c.p3,
        compartment_hit(c).p4 == c.p4,
        compartment_hit(c).created_at == c.created_at,
        note_hit(n).id == n.id,
        note_hit(n).content == n.content,
        note_hit(n).status == n.status,
        note_hit(n).surface_condition == n.surface_condition,
        note_hit(n).updated_at_ms == n.updated_at_ms,
{
}

/// What was found comes latest first: memories and notes by the time of their last change,
/// compartments by their sequence.
pub proof fn the_latest_is_found_first(
    memories: Seq<StoredMemoryModel>,
    compartments: Seq<StoredCompartmentModel>,
    notes: Seq<StoredNoteModel>,
    a: int,
    b: int,
)
    requires
        0 <= a < b,
    ensures
        b < memories.len() ==> sorted::<StoredMemory, RecentOrder>(memories)[a].updated_at
            >= sorted::<StoredMemory, RecentOrder>(memories)[b].updated_at,
        b < compartments.len() ==> sorted::<StoredCompartment, LatestOrder>(
            compartments,
        )[a].sequence >= sorted::<StoredCompartment, LatestOrder>(compartments)[b].sequence,
        b < notes.len() ==> sorted::<StoredNote, NoteOrder>(notes)[a].updated_at_ms >= sorted::<
            StoredNote,
            NoteOrder,
        >(notes)[b].updated_at_ms,
{
    sorted_is_ordered::<StoredMemory, RecentOrder>(memories);
    sorted_len::<StoredMemory, RecentOrder>(memories);
    sorted_is_ordered::<StoredCompartment, LatestOrder>(compartments);
    sorted_len::<StoredCompartment, LatestOrder>(compartments);
    sorted_is_ordered::<StoredNote, NoteOrder>(notes);
    sorted_len::<StoredNote, NoteOrder>(notes);
    if b < memories.len() {
        let s = sorted::<StoredMemory, RecentOrder>(memories);
        assert(<RecentOrder as crate::rows::RowOrder<StoredMemory>>::le(s[a], s[b]));
    }
    if b < compartments.len() {
        let s = sorted::<StoredCompartment, LatestOrder>(compartments);
        assert(<LatestOrder as crate::rows::RowOrder<StoredCompartment>>::le(s[a], s[b]));
    }
    if b < notes.len() {
        let s = sorted::<StoredNote, NoteOrder>(notes);
        assert(<NoteOrder as crate::rows::RowOrder<StoredNote>>::le(s[a], s[b]));
    }
}

/// Seconds within the range are a thousand times as many milliseconds, and a later time never
/// comes before an earlier one.
pub proof fn seconds_are_thousands_of_milliseconds(a: i64, b: i64)
    ensures
        i64::MIN <= a * 1000 <= i64::MAX ==> in_millis(a) == a * 1000,
        a <= b ==> in_millis(a) <= in_millis(b),
{
}

// --- workspaces -----------------------------------------------------------------------------

/// A project without a member row has no membership. One with a row reads through the
/// workspace of that row: the paths are those of its members, all of them and no other, by
/// path, and each has the name it is shown under.
pub proof fn a_membership_is_the_workspace(s: McStoreModel, project: Seq<char>, path: Seq<char>)
    ensures
        (forall|i: int| 0 <= i < s.members.len() ==> (#[trigger] s.members[i]).project_path
            != project) ==> membership_of(s, project) is None,
        membership_of(s, project) matches Some(m) ==> {
            &&& m.own_identity == project
            &&& exists|i: int| #[trigger] is_the_workspace_of(s, project, i, m.union_identities, path)
            &&& m.display_name_by_path.len() == m.union_identities.len()
            &&& forall|k: int|
                0 <= k < m.union_identities.len() ==> (
                #[trigger] m.display_name_by_path[k]).project_path == m.union_identities[k]
            &&& forall|a: int, b: int|
                0 <= a < b < m.union_identities.len() ==> text_le(
                    #[trigger] m.union_identities[a],
                    #[trigger] m.union_identities[b],
                )
        },
{
    let p = member_at(project);
    first_where_first(s.members, p);
    match first_where(s.members, p) {
        None => {},
        Some(i) => {
            assert(s.members[i].project_path == project);
            if let Some(w) = workspace_of(s, project) {
                first_where_first(s.workspaces, workspace_numbered(s.members[i].workspace_id));
                let q = in_workspace(w.id);
                let kept = keep_where(s.members, q);
                let own = members_of(s, w.id);
                let m = membership_of(s, project)->0;
                kept_is_accepted(s.members, q);
                sorted_is_ordered::<WorkspaceMemberRow, MemberOrder>(kept);
                if m.union_identities.contains(path) {
                    let k = choose|k: int|
                        0 <= k < m.union_identities.len() && m.union_identities[k] == path;
                    assert(own[k].project_path == path);
                    assert(own.contains(own[k]));
                    sorted_holds_the_same::<WorkspaceMemberRow, MemberOrder>(kept, own[k]);
                    let j = choose|j: int| 0 <= j < kept.len() && kept[j] == own[k];
                    assert(q(kept[j]) && s.members.contains(kept[j]));
                    let n = choose|n: int| 0 <= n < s.members.len() && s.members[n] == kept[j];
                    assert(s.members[n].project_path == path);
                }
                if exists|j: int|
                    0 <= j < s.members.len() && (#[trigger] s.members[j]).project_path == path
                        && s.members[j].workspace_id == s.members[i].workspace_id {
                    let j = choose|j: int|
                        0 <= j < s.members.len() && (#[trigger] s.members[j]).project_path == path
                            && s.members[j].workspace_id == s.members[i].workspace_id;
                    accepted_is_kept(s.members, q, s.members[j]);
                    sorted_holds_the_same::<WorkspaceMemberRow, MemberOrder>(kept, s.members[j]);
                    let k = choose|k: int| 0 <= k < own.len() && own[k] == s.members[j];
                    assert(m.union_identities[k] == path);
                }
                assert(is_the_workspace_of(s, project, i, m.union_identities, path));
                assert forall|a: int, b: int|
                    0 <= a < b < m.union_identities.len() implies text_le(
                    #[trigger] m.union_identities[a],
                    #[trigger] m.union_identities[b],
                ) by {
                    assert(<MemberOrder as crate::rows::RowOrder<WorkspaceMemberRow>>::le(
                        own[a],
                        own[b],
                    ));
                }
            }
        },
    }
}

/// Whether the member row at a place is the project's, and a path is among some exactly where
/// a member of the same workspace has it.
pub open spec fn is_the_workspace_of(
    s: McStoreModel,
    project: Seq<char>,
    i: int,
    paths: Seq<Seq<char>>,
    path: Seq<char>,
) -> bool {
    &&& 0 <= i < s.members.len()
    &&& s.members[i].project_path == project
    &&& paths.contains(path) <==> exists|j: int|
        0 <= j < s.members.len() && (#[trigger] s.members[j]).project_path == path
            && s.members[j].workspace_id == s.members[i].workspace_id
}

/// Lists are measured text by text, each behind its tag and its length.
pub proof fn lists_are_measured_text_by_text(
    tag: Seq<char>,
    a: Seq<Seq<char>>,
    b: Seq<Seq<char>>,
    text: Seq<char>,
)
    ensures
        measured_all(tag, a + b) == measured_all(tag, a) + measured_all(tag, b),
        measured_all(tag, seq![text]) == tag + measured(text),
    decreases b.len(),
{
    let one = seq![text];
    assert(one.drop_last() =~= Seq::empty());
    assert(measured_all(tag, Seq::<Seq<char>>::empty()) =~= Seq::empty());
    assert(one.last() == text);
    assert(measured_all(tag, one) =~= tag + measured(text));
    if b.len() == 0 {
        assert(a + b =~= a);
        assert(measured_all(tag, a) + measured_all(tag, b) =~= measured_all(tag, a));
    } else {
        let less = b.drop_last();
        lists_are_measured_text_by_text(tag, a, less, text);
        assert((a + b).drop_last() =~= a + less);
        assert((a + b).last() == b.last());
        assert(measured_all(tag, a + b) =~= measured_all(tag, a) + measured_all(tag, b));
    }
}

/// Whether a text holds another.
pub open spec fn has_part(text: Seq<char>, part: Seq<char>) -> bool {
    exists|a: Seq<char>, b: Seq<char>| #[trigger] (a + part + b) == text
}

proof fn a_list_has_its_texts(tag: Seq<char>, texts: Seq<Seq<char>>, i: int)
    requires
        0 <= i < texts.len(),
    ensures
        has_part(measured_all(tag, texts), tag + measured(texts[i])),
    decreases texts.len(),
{
    let less = texts.drop_last();
    let part = tag + measured(texts[i]);
    if i < less.len() {
        a_list_has_its_texts(tag, less, i);
        assert(less[i] == texts[i]);
        let (a, b) = choose|a: Seq<char>, b: Seq<char>|
            #[trigger] (a + part + b) == measured_all(tag, less);
        let c = b + tag + measured(texts.last());
        assert(a + part + c =~= measured_all(tag, texts));
    } else {
        let none = Seq::<char>::empty();
        assert(measured_all(tag, less) + part + none =~= measured_all(tag, texts));
    }
}

/// The fingerprint of a membership holds each member behind its mark and its length, and each
/// shared category behind its length.
pub proof fn a_fingerprint_holds_members_and_categories(m: WorkspaceMembershipModel, i: int)
    ensures
        0 <= i < m.union_identities.len() ==> has_part(
            fingerprint(m),
            "m:"@ + measured(m.union_identities[i]),
        ),
        0 <= i < m.share_categories.len() ==> has_part(
            fingerprint(m),
            measured(m.share_categories[i]),
        ),
{
    let categories = sorted::<String, crate::store::workspace::TextOrder>(m.share_categories);
    let members = measured_all("m:"@, m.union_identities);
    let shared = measured_all(Seq::empty(), categories);
    if 0 <= i < m.union_identities.len() {
        let part = "m:"@ + measured(m.union_identities[i]);
        a_list_has_its_texts("m:"@, m.union_identities, i);
        let (a, b) = choose|a: Seq<char>, b: Seq<char>| #[trigger] (a + part + b) == members;
        let x = "ws["@ + a;
        let y = b + "|share:"@ + shared + "]"@;
        assert(x + part + y =~= fingerprint(m));
    }
    if 0 <= i < m.share_categories.len() {
        let c = m.share_categories[i];
        let part = measured(c);
        assert(m.share_categories.contains(c));
        sorted_holds_the_same::<String, crate::store::workspace::TextOrder>(m.share_categories, c);
        let k = choose|k: int| 0 <= k < categories.len() && categories[k] == c;
        a_list_has_its_texts(Seq::empty(), categories, k);
        assert(Seq::<char>::empty() + part =~= part);
        let (a, b) = choose|a: Seq<char>, b: Seq<char>| #[trigger] (a + part + b) == shared;
        let x = "ws["@ + members + "|share:"@ + a;
        let y = b + "]"@;
        assert(x + part + y =~= fingerprint(m));
    }
}

} // verus!

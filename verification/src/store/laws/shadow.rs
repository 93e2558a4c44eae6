//! What the mirror of another host's state is for.

use vstd::prelude::*;

use crate::meta::{fresh_core, fresh_meta, ModuleMetaModel};
use crate::rows::{
    accepted_is_kept, find_where, first_where_first, keep_where, kept_is_accepted, of_session,
    opt_text, opt_view, row_of, row_of_put, views, KeyedModel,
};
use crate::store::McStoreModel;
use crate::store::cache::{loaded, version_found};
use crate::store::compartments::{at_sequence, seed_boundary};
use crate::store::laws::history::{last_of_its_sequence, put_compartments_are_there};
use crate::store::laws::rows::what_is_put_is_found;
use crate::store::records::{
    CacheRowModel, ShadowDivergenceRowModel, ShadowMemoryMutationRowModel, ShadowMemoryRowModel,
    ShadowWorkspaceRowModel, WorkspaceMemberRowModel, WorkspaceRowModel,
};
use crate::store::shadow::{
    divergence_outcome, divergence_read, lineage_paths, member_of_some, mirrored, new_members,
    shadow_memory_at, shadow_memory_stays, shadow_mutation_at, shadow_mutation_stays, sync_outcome,
    with_reset, with_shadow_memories, with_shadow_mutations, without_workspaces, workspace_ids,
    workspace_replaced, ShadowDivergenceRecord, ShadowStateSyncRequest,
};

verus! {

/// Whether no memory behind a place has the project and the number of the one there.
pub open spec fn last_memory_of_its_number(given: Seq<ShadowMemoryRowModel>, i: int) -> bool {
    forall|j: int|
        i < j < given.len() ==> !((#[trigger] given[j]).project_path == given[i].project_path
            && given[j].id == given[i].id)
}

/// Memories that are mirrored are there afterwards, each under its project and number, and no
/// other memory changes.
#[verifier::rlimit(50)]
#[verifier::spinoff_prover]
pub proof fn mirrored_memories_are_there(
    rows: Seq<ShadowMemoryRowModel>,
    given: Seq<ShadowMemoryRowModel>,
    project: Seq<char>,
    id: i64,
)
    ensures
        ({
            let found = find_where(
                with_shadow_memories(rows, given),
                |m: ShadowMemoryRowModel| m.project_path == project && m.id == id,
            );
            &&& forall|i: int|
                0 <= i < given.len() && (#[trigger] given[i]).project_path == project
                    && given[i].id == id && last_memory_of_its_number(given, i) ==> found == Some(
                    given[i],
                )
            &&& (forall|i: int|
                0 <= i < given.len() ==> !((#[trigger] given[i]).project_path == project
                    && given[i].id == id)) ==> found == find_where(
                rows,
                |m: ShadowMemoryRowModel| m.project_path == project && m.id == id,
            )
        }),
    decreases given.len(),
{
    let q = |m: ShadowMemoryRowModel| m.project_path == project && m.id == id;
    if given.len() > 0 {
        let rest = given.drop_last();
        let last = given.last();
        let n = given.len() - 1;
        mirrored_memories_are_there(rows, rest, project, id);
        let p = shadow_memory_at(last.project_path, last.id);
        what_is_put_is_found(with_shadow_memories(rows, rest), p, last, q);
        assert(given[n] == last);
        if last.project_path == project && last.id == id {
            assert(p =~= q);
        } else {
            assert forall|x: ShadowMemoryRowModel| #[trigger] p(x) implies !q(x) by {}
        }
        if exists|i: int|
            0 <= i < given.len() && (#[trigger] given[i]).project_path == project && given[i].id
                == id && last_memory_of_its_number(given, i) {
            let i = choose|i: int|
                0 <= i < given.len() && (#[trigger] given[i]).project_path == project
                    && given[i].id == id && last_memory_of_its_number(given, i);
            if i < n {
                assert(rest[i] == given[i]);
                assert(!(given[n].project_path == given[i].project_path && given[n].id
                    == given[i].id));
                assert forall|j: int| i < j < rest.len() implies !((
                #[trigger] rest[j]).project_path == rest[i].project_path && rest[j].id
                    == rest[i].id) by {
                    assert(rest[j] == given[j]);
                }
                assert(last_memory_of_its_number(rest, i));
            }
            assert forall|k: int|
                0 <= k < given.len() && (#[trigger] given[k]).project_path == project
                    && given[k].id == id && last_memory_of_its_number(given, k) implies k == i by {
                if k < i {
                    assert(!(given[i].project_path == given[k].project_path && given[i].id
                        == given[k].id));
                } else if i < k {
                    assert(!(given[k].project_path == given[i].project_path && given[k].id
                        == given[i].id));
                }
            }
        }
        if forall|i: int|
            0 <= i < given.len() ==> !((#[trigger] given[i]).project_path == project
                && given[i].id == id) {
            assert forall|i: int| 0 <= i < rest.len() implies !((
            #[trigger] rest[i]).project_path == project && rest[i].id == id) by {
                assert(rest[i] == given[i]);
            }
        }
    }
}

/// Whether no mutation behind a place has the project and the number of the one there.
pub open spec fn last_mutation_of_its_number(
    given: Seq<ShadowMemoryMutationRowModel>,
    i: int,
) -> bool {
    forall|j: int|
        i < j < given.len() ==> !((#[trigger] given[j]).project_path == given[i].project_path
            && given[j].mutation.id == given[i].mutation.id)
}

/// Mutations that are mirrored are there afterwards, each under its project and number, and
/// no other mutation changes.
pub proof fn mirrored_mutations_are_there(
    rows: Seq<ShadowMemoryMutationRowModel>,
    given: Seq<ShadowMemoryMutationRowModel>,
    project: Seq<char>,
    id: i64,
)
    ensures
        ({
            let found = find_where(
                with_shadow_mutations(rows, given),
                |m: ShadowMemoryMutationRowModel|
                    m.project_path == project && m.mutation.id == id,
            );
            &&& forall|i: int|
                0 <= i < given.len() && (#[trigger] given[i]).project_path == project
                    && given[i].mutation.id == id && last_mutation_of_its_number(given, i)
                    ==> found == Some(given[i])
            &&& (forall|i: int|
                0 <= i < given.len() ==> !((#[trigger] given[i]).project_path == project
                    && given[i].mutation.id == id)) ==> found == find_where(
                rows,
                |m: ShadowMemoryMutationRowModel|
                    m.project_path == project && m.mutation.id == id,
            )
        }),
    decreases given.len(),
{
    let q = |m: ShadowMemoryMutationRowModel| m.project_path == project && m.mutation.id == id;
    if given.len() > 0 {
        let rest = given.drop_last();
        let last = given.last();
        let n = given.len() - 1;
        mirrored_mutations_are_there(rows, rest, project, id);
        let p = shadow_mutation_at(last.project_path, last.mutation.id);
        what_is_put_is_found(with_shadow_mutations(rows, rest), p, last, q);
        assert(given[n] == last);
        if last.project_path == project && last.mutation.id == id {
            assert(p =~= q);
        } else {
            assert forall|x: ShadowMemoryMutationRowModel| #[trigger] p(x) implies !q(x) by {}
        }
        assert forall|i: int|
            0 <= i < given.len() && (#[trigger] given[i]).project_path == project
                && given[i].mutation.id == id && last_mutation_of_its_number(
                given,
                i,
            ) implies find_where(with_shadow_mutations(rows, given), q) == Some(given[i]) by {
            if i < n {
                assert(rest[i] == given[i]);
                assert(!(given[n].project_path == given[i].project_path && given[n].mutation.id
                    == given[i].mutation.id));
                assert forall|j: int| i < j < rest.len() implies !((
                #[trigger] rest[j]).project_path == rest[i].project_path && rest[j].mutation.id
                    == rest[i].mutation.id) by {
                    assert(rest[j] == given[j]);
                }
                assert(last_mutation_of_its_number(rest, i));
            }
        }
        assert forall|i: int| 0 <= i < rest.len() implies #[trigger] rest[i] == given[i] by {}
    }
}

/// An accepted sync leaves the session with what the host sent: its to-do state, its
/// watermarks, the next sequence and a version that follows, its compartments under their
/// sequences, its memories and its mutations. A declared boundary becomes the session's, and
/// without one the boundary and its coverage stay. Other sessions keep what they have.
pub proof fn a_sync_leaves_what_was_sent(
    s: McStoreModel,
    request: ShadowStateSyncRequest,
    other: Seq<char>,
)
    requires
        sync_outcome(s, request) is Ok,
        request.expected_shadow_seq < u64::MAX,
    ensures
        ({
            let (result, after) = sync_outcome(s, request)->Ok_0;
            let session = request.session_id@;
            let before = loaded(s, session);
            let now = loaded(after, session);
            &&& now.meta.last_todo_state == opt_view(request.last_todo_state)
            &&& now.meta.shadow_acked_watermarks == request.acked_watermarks@
            &&& now.meta.shadow_seq == request.expected_shadow_seq + 1
            &&& now.meta.shadow_generation == request.shadow_generation
            &&& result.shadow_seq == now.meta.shadow_seq
            &&& result.shadow_generation == now.meta.shadow_generation
            &&& now.row_version == Some(result.row_version)
            &&& (match before.row_version {
                Some(v) => result.row_version == v + 1,
                None => result.row_version == 1,
            })
            &&& (match request.seed_boundary_id {
                None => now.core == before.core && now.meta == (ModuleMetaModel {
                    last_todo_state: now.meta.last_todo_state,
                    shadow_seq: now.meta.shadow_seq,
                    shadow_acked_watermarks: now.meta.shadow_acked_watermarks,
                    ..before.meta
                }),
                Some(declared) => {
                    &&& seed_boundary(declared@, views(request.compartments@)) matches Ok(b)
                    &&& now.core.boundary_id == b.boundary_id
                    &&& !now.core.reconcile_pending
                    &&& now.meta.coverage_ordinal == Some(b.coverage_end_ordinal)
                    &&& now.meta.coverage_start_ordinal == Some(b.coverage_start_ordinal)
                    &&& now.meta.coverage_compartment_seq == Some(b.max_sequence)
                    &&& now.meta.folded_compartment_seq == b.max_sequence
                    &&& now.meta.pending_rewrite is None
                },
            })
            &&& other != session ==> loaded(after, other) == loaded(s, other)
            &&& after.memories == s.memories
            &&& after.notes == s.notes
            &&& after.tags == s.tags
            &&& after.drops == s.drops
            &&& after.transcripts == s.transcripts
        }),
{
    let session = request.session_id@;
    let (result, after) = sync_outcome(s, request)->Ok_0;
    let row = row_of(after.cache, session);
    let now = loaded(s, session);
    let t = mirrored(s, request)->Ok_0;
    match crate::store::shadow::seeded_state(now.core, now.meta, request) {
        Ok((core, meta)) => {
            row_of_put(
                t.cache,
                session,
                CacheRowModel {
                    row_version: result.row_version,
                    core,
                    meta: crate::store::shadow::synced_meta(meta, request),
                },
                other,
            );
        },
        Err(e) => {},
    }
}

/// The compartments of an accepted sync are the session's, each under its sequence, and no
/// other compartment changes.
pub proof fn a_sync_mirrors_compartments(
    s: McStoreModel,
    request: ShadowStateSyncRequest,
    owner: Seq<char>,
    sequence: i64,
)
    requires
        sync_outcome(s, request) is Ok,
    ensures
        ({
            let after = sync_outcome(s, request)->Ok_0.1;
            let cs = views(request.compartments@);
            let found = find_where(after.compartments, at_sequence(owner, sequence));
            &&& forall|i: int|
                0 <= i < cs.len() && owner == request.session_id@ && (
                #[trigger] cs[i]).sequence == sequence && last_of_its_sequence(cs, i) ==> found
                    == Some(KeyedModel { session: request.session_id@, row: cs[i] })
            &&& (owner != request.session_id@ || forall|i: int|
                0 <= i < cs.len() ==> (#[trigger] cs[i]).sequence != sequence) ==> found
                == find_where(s.compartments, at_sequence(owner, sequence))
        }),
{
    put_compartments_are_there(
        s.compartments,
        request.session_id@,
        views(request.compartments@),
        owner,
        sequence,
    );
}

/// The memories and the mutations of an accepted sync are there behind it, each under its
/// project and number.
pub proof fn a_sync_mirrors_memories(s: McStoreModel, request: ShadowStateSyncRequest, i: int)
    requires
        sync_outcome(s, request) is Ok,
    ensures
        ({
            let after = sync_outcome(s, request)->Ok_0.1;
            let memories = views(request.memories@);
            let mutations = views(request.memory_mutations@);
            &&& 0 <= i < memories.len() && last_memory_of_its_number(memories, i)
                ==> after.shadow_memories.contains(memories[i])
            &&& 0 <= i < mutations.len() && last_mutation_of_its_number(mutations, i)
                ==> after.shadow_mutations.contains(mutations[i])
        }),
{
    let after = sync_outcome(s, request)->Ok_0.1;
    let memories = views(request.memories@);
    let mutations = views(request.memory_mutations@);
    if 0 <= i < memories.len() && last_memory_of_its_number(memories, i) {
        let m = memories[i];
        mirrored_memories_are_there(s.shadow_memories, memories, m.project_path, m.id);
        first_where_first(
            after.shadow_memories,
            |x: ShadowMemoryRowModel| x.project_path == m.project_path && x.id == m.id,
        );
    }
    if 0 <= i < mutations.len() && last_mutation_of_its_number(mutations, i) {
        let m = mutations[i];
        mirrored_mutations_are_there(
            s.shadow_mutations,
            mutations,
            m.project_path,
            m.mutation.id,
        );
        first_where_first(
            after.shadow_mutations,
            |x: ShadowMemoryMutationRowModel|
                x.project_path == m.project_path && x.mutation.id == m.mutation.id,
        );
    }
}

/// Whether two projects are members of one workspace.
pub open spec fn share_a_workspace(
    members: Seq<WorkspaceMemberRowModel>,
    a: Seq<char>,
    b: Seq<char>,
) -> bool {
    exists|i: int, j: int|
        0 <= i < members.len() && 0 <= j < members.len() && (#[trigger] members[i]).project_path
            == a && (#[trigger] members[j]).project_path == b && members[i].workspace_id
            == members[j].workspace_id
}

/// Whether a project is a member of a workspace.
pub open spec fn is_member(
    members: Seq<WorkspaceMemberRowModel>,
    project: Seq<char>,
    id: i64,
) -> bool {
    exists|i: int|
        0 <= i < members.len() && (#[trigger] members[i]).project_path == project
            && members[i].workspace_id == id
}

proof fn numbers_are_memberships(s: McStoreModel, project: Seq<char>, id: i64)
    ensures
        workspace_ids(s, project).contains(id) <==> is_member(s.members, project, id),
{
    let p = crate::store::workspace::member_at(project);
    let kept = keep_where(s.members, p);
    let ids = workspace_ids(s, project);
    kept_is_accepted(s.members, p);
    if ids.contains(id) {
        let k = choose|k: int| 0 <= k < ids.len() && ids[k] == id;
        assert(kept[k].workspace_id == id);
        assert(s.members.contains(kept[k]) && p(kept[k]));
        let i = choose|i: int| 0 <= i < s.members.len() && s.members[i] == kept[k];
        assert(s.members[i].project_path == project);
    }
    if is_member(s.members, project, id) {
        let i = choose|i: int|
            0 <= i < s.members.len() && (#[trigger] s.members[i]).project_path == project
                && s.members[i].workspace_id == id;
        accepted_is_kept(s.members, p, s.members[i]);
        let k = choose|k: int| 0 <= k < kept.len() && kept[k] == s.members[i];
        assert(ids[k] == id);
    }
}

/// A replaced workspace: the project's old workspaces and their members are gone, others
/// stay, and the new one, if any, is there with its name, its categories and its members.
pub proof fn a_workspace_is_replaced(
    s: McStoreModel,
    project: Seq<char>,
    workspace: Option<ShadowWorkspaceRowModel>,
    w: WorkspaceRowModel,
    m: WorkspaceMemberRowModel,
)
    requires
        workspace_replaced(s, project, workspace) is Ok,
        forall|i: int|
            0 <= i < s.workspaces.len() ==> (#[trigger] s.workspaces[i]).id <= s.last_workspace_id,
        forall|i: int|
            0 <= i < s.members.len() ==> (#[trigger] s.members[i]).workspace_id
                <= s.last_workspace_id,
    ensures
        ({
            let after = workspace_replaced(s, project, workspace)->Ok_0;
            &&& w.id <= s.last_workspace_id ==> (after.workspaces.contains(w) <==> (
            s.workspaces.contains(w) && !is_member(s.members, project, w.id)))
            &&& m.workspace_id <= s.last_workspace_id ==> (after.members.contains(m) <==> (
            s.members.contains(m) && !is_member(s.members, project, m.workspace_id)))
            &&& (workspace matches Some(given) ==> {
                &&& after.workspaces.last().id == s.last_workspace_id + 1
                &&& after.workspaces.last().name == given.name
                &&& after.workspaces.last().share_categories == crate::json::strings_text(
                    given.share_categories,
                )
                &&& forall|i: int|
                    0 <= i < given.members.len() ==> after.members.contains(
                        WorkspaceMemberRowModel {
                            workspace_id: (s.last_workspace_id + 1) as i64,
                            project_path: (#[trigger] given.members[i]).project_path,
                            display_name: given.members[i].display_name,
                            display_path: given.members[i].display_path,
                            added_at: 0,
                        },
                    )
            })
        }),
{
    let after = workspace_replaced(s, project, workspace)->Ok_0;
    let cleared = without_workspaces(s, project);
    let ids = workspace_ids(s, project);
    let pw = crate::store::shadow::workspace_stays(ids);
    let pm = crate::store::shadow::member_stays(ids);
    numbers_are_memberships(s, project, w.id);
    numbers_are_memberships(s, project, m.workspace_id);
    kept_is_accepted(s.workspaces, pw);
    kept_is_accepted(s.members, pm);
    if s.workspaces.contains(w) && pw(w) {
        accepted_is_kept(s.workspaces, pw, w);
    }
    if s.members.contains(m) && pm(m) {
        accepted_is_kept(s.members, pm, m);
    }
    assert(cleared.workspaces.contains(w) <==> s.workspaces.contains(w) && pw(w));
    assert(cleared.members.contains(m) <==> s.members.contains(m) && pm(m));
    if let Some(given) = workspace {
        let id = (s.last_workspace_id + 1) as i64;
        let new = new_members(id, given.members);
        assert(after.members == cleared.members + new);
        assert forall|i: int| 0 <= i < given.members.len() implies after.members.contains(
            WorkspaceMemberRowModel {
                workspace_id: id,
                project_path: (#[trigger] given.members[i]).project_path,
                display_name: given.members[i].display_name,
                display_path: given.members[i].display_path,
                added_at: 0,
            },
        ) by {
            assert(after.members[cleared.members.len() + i] == new[i]);
        }
        if cleared.workspaces.contains(w) {
            let k = choose|k: int| 0 <= k < cleared.workspaces.len() && cleared.workspaces[k] == w;
            assert(after.workspaces[k] == w);
        }
        if after.workspaces.contains(w) && w.id <= s.last_workspace_id {
            let k = choose|k: int| 0 <= k < after.workspaces.len() && after.workspaces[k] == w;
            assert(cleared.workspaces[k] == w);
        }
        if cleared.members.contains(m) {
            let k = choose|k: int| 0 <= k < cleared.members.len() && cleared.members[k] == m;
            assert(after.members[k] == m);
        }
        if after.members.contains(m) && m.workspace_id <= s.last_workspace_id {
            let k = choose|k: int| 0 <= k < after.members.len() && after.members[k] == m;
            assert(k < cleared.members.len());
            assert(cleared.members[k] == m);
        }
    }
}

/// A reset begins a new lineage: the session's state is fresh under the next generation, its
/// compartments, drops and ledger are gone, and so are the mirrored memories and mutations of
/// the project and of those it shares a workspace with; no others are.
pub proof fn a_reset_clears_the_lineage(
    s: McStoreModel,
    session: Seq<char>,
    project: Seq<char>,
    other: Seq<char>,
    memory: ShadowMemoryRowModel,
    mutation: ShadowMemoryMutationRowModel,
)
    requires
        loaded(s, session).meta.shadow_generation < u64::MAX,
        version_found(s, session) < u64::MAX,
    ensures
        ({
            let after = with_reset(s, session, project);
            let gone = |path: Seq<char>|
                path == project || share_a_workspace(s.members, project, path);
            &&& loaded(after, session).core == fresh_core()
            &&& loaded(after, session).meta == (ModuleMetaModel {
                shadow_generation: loaded(after, session).meta.shadow_generation,
                ..fresh_meta()
            })
            &&& loaded(after, session).meta.shadow_generation == loaded(
                s,
                session,
            ).meta.shadow_generation + 1
            &&& loaded(after, session).row_version == Some((version_found(s, session) + 1) as u64)
            &&& of_session(after.compartments, session).len() == 0
            &&& of_session(after.drops, session).len() == 0
            &&& of_session(after.ledger, session).len() == 0
            &&& other != session ==> {
                &&& loaded(after, other) == loaded(s, other)
                &&& of_session(after.compartments, other) == of_session(s.compartments, other)
                &&& of_session(after.drops, other) == of_session(s.drops, other)
                &&& of_session(after.ledger, other) == of_session(s.ledger, other)
            }
            &&& after.shadow_memories.contains(memory) <==> s.shadow_memories.contains(memory)
                && !gone(memory.project_path)
            &&& after.shadow_mutations.contains(mutation) <==> s.shadow_mutations.contains(
                mutation,
            ) && !gone(mutation.project_path)
            &&& after.memories == s.memories
            &&& after.tags == s.tags
            &&& after.transcripts == s.transcripts
            &&& after.divergences == s.divergences
        }),
{
    let after = with_reset(s, session, project);
    let paths = lineage_paths(s, project);
    row_of_put(
        s.cache,
        session,
        CacheRowModel {
            row_version: crate::store::cache::next_version(s, session),
            core: fresh_core(),
            meta: crate::store::shadow::reset_meta(loaded(s, session).meta.shadow_generation),
        },
        other,
    );
    a_removed_session_has_no_rows(s.compartments, session, other);
    a_removed_session_has_no_rows(s.drops, session, other);
    a_removed_session_has_no_rows(s.ledger, session, other);
    a_lineage_is_the_workspace(s, project, memory.project_path);
    a_lineage_is_the_workspace(s, project, mutation.project_path);
    let p = shadow_memory_stays(paths);
    kept_is_accepted(s.shadow_memories, p);
    if s.shadow_memories.contains(memory) && p(memory) {
        accepted_is_kept(s.shadow_memories, p, memory);
    }
    let q = shadow_mutation_stays(paths);
    kept_is_accepted(s.shadow_mutations, q);
    if s.shadow_mutations.contains(mutation) && q(mutation) {
        accepted_is_kept(s.shadow_mutations, q, mutation);
    }
    assert(after.shadow_memories == keep_where(s.shadow_memories, p));
    assert(after.shadow_mutations == keep_where(s.shadow_mutations, q));
}

proof fn a_removed_session_has_no_rows<M>(
    table: Seq<KeyedModel<M>>,
    session: Seq<char>,
    other: Seq<char>,
)
    ensures
        of_session(crate::rows::without_session(table, session), session).len() == 0,
        other != session ==> of_session(crate::rows::without_session(table, session), other)
            == of_session(table, other),
    decreases table.len(),
{
    if table.len() > 0 {
        let rest = table.drop_last();
        a_removed_session_has_no_rows(rest, session, other);
        let kept = crate::rows::without_session(rest, session);
        if table.last().session != session {
            assert(crate::rows::without_session(table, session) == kept.push(table.last()));
            assert(kept.push(table.last()).drop_last() =~= kept);
        }
    }
}

proof fn a_lineage_is_the_workspace(s: McStoreModel, project: Seq<char>, path: Seq<char>)
    ensures
        lineage_paths(s, project).contains(path) <==> (path == project || share_a_workspace(
            s.members,
            project,
            path,
        )),
{
    let ids = workspace_ids(s, project);
    let p = member_of_some(ids);
    let kept = keep_where(s.members, p);
    let paths = lineage_paths(s, project);
    kept_is_accepted(s.members, p);
    assert(paths.last() == project);
    if paths.contains(path) && path != project {
        let k = choose|k: int| 0 <= k < paths.len() && paths[k] == path;
        assert(kept[k].project_path == path);
        assert(s.members.contains(kept[k]) && p(kept[k]));
        let j = choose|j: int| 0 <= j < s.members.len() && s.members[j] == kept[k];
        numbers_are_memberships(s, project, kept[k].workspace_id);
        let i = choose|i: int|
            0 <= i < s.members.len() && (#[trigger] s.members[i]).project_path == project
                && s.members[i].workspace_id == kept[k].workspace_id;
        assert(s.members[i].project_path == project && s.members[j].project_path == path);
    }
    if path == project {
        assert(paths[paths.len() - 1] == path);
    } else if share_a_workspace(s.members, project, path) {
        let (i, j) = choose|i: int, j: int|
            0 <= i < s.members.len() && 0 <= j < s.members.len() && (
            #[trigger] s.members[i]).project_path == project && (
            #[trigger] s.members[j]).project_path == path && s.members[i].workspace_id
                == s.members[j].workspace_id;
        numbers_are_memberships(s, project, s.members[j].workspace_id);
        assert(is_member(s.members, project, s.members[j].workspace_id));
        accepted_is_kept(s.members, p, s.members[j]);
        let k = choose|k: int| 0 <= k < kept.len() && kept[k] == s.members[j];
        assert(paths[k] == path);
    }
}

/// A report that is taken in a session that is not quarantined is stored behind all others
/// under the next number, with all that it says; one that asks for quarantine puts the
/// session there, and another leaves the session as it is. A report in a quarantined session
/// is counted and stored nowhere.
pub proof fn a_report_is_stored(
    s: McStoreModel,
    record: ShadowDivergenceRecord,
    other: Seq<char>,
)
    requires
        divergence_outcome(s, record) is Ok,
    ensures
        ({
            let (result, after) = divergence_outcome(s, record)->Ok_0;
            let session = record.session_id@;
            &&& row_of(s.cache, session) matches Some(was)
            &&& row_of(after.cache, session) matches Some(now)
            &&& was.meta.shadow_generation == record.shadow_generation
            &&& now.core == was.core
            &&& result.quarantined == now.meta.shadow_quarantined
            &&& result.row_version == now.row_version
            &&& now.meta.shadow_quarantined == (was.meta.shadow_quarantined || record.quarantine)
            &&& !was.meta.shadow_quarantined && !record.quarantine ==> now == was
            &&& was.meta.shadow_quarantined || record.quarantine ==> now.row_version
                == was.row_version + 1
            &&& was.meta.shadow_quarantined ==> after.divergences == s.divergences && (
            was.meta.shadow_quarantined_pass_count < u64::MAX
                ==> now.meta.shadow_quarantined_pass_count
                == was.meta.shadow_quarantined_pass_count + 1)
            &&& !was.meta.shadow_quarantined ==> {
                let row = after.divergences.last();
                &&& now.meta.shadow_quarantined_pass_count
                    == was.meta.shadow_quarantined_pass_count
                &&& after.divergences.len() == s.divergences.len() + 1
                &&& after.divergences.drop_last() == s.divergences
                &&& row.id == s.last_divergence_id + 1
                &&& tells_the_report(row, record)
            }
            &&& other != session ==> row_of(after.cache, other) == row_of(s.cache, other)
        }),
{
    let session = record.session_id@;
    let (result, after) = divergence_outcome(s, record)->Ok_0;
    let was = row_of(s.cache, session)->0;
    if was.meta.shadow_quarantined || record.quarantine {
        row_of_put(
            s.cache,
            session,
            CacheRowModel {
                row_version: crate::store::cache::next_version(s, session),
                core: was.core,
                meta: if was.meta.shadow_quarantined {
                    ModuleMetaModel {
                        shadow_quarantined_pass_count: crate::store::shadow::saturating_next(
                            was.meta.shadow_quarantined_pass_count,
                        ),
                        ..was.meta
                    }
                } else {
                    ModuleMetaModel { shadow_quarantined: true, ..was.meta }
                },
            },
            other,
        );
    }
    if !was.meta.shadow_quarantined {
        assert(after.divergences.drop_last() =~= s.divergences);
    }
}

/// Whether a row says all that a report says.
pub open spec fn tells_the_report(
    row: ShadowDivergenceRowModel,
    record: ShadowDivergenceRecord,
) -> bool {
    &&& row.session_id == record.session_id@
    &&& row.pass_seq == record.pass_seq
    &&& row.class == record.class@
    &&& row.first_mid == opt_text(record.first_mid)
    &&& row.first_block == opt_text(record.first_block)
    &&& row.first_field == opt_text(record.first_field)
    &&& row.ts_prefix == record.ts_prefix@
    &&& row.rs_prefix == record.rs_prefix@
    &&& row.first_diff_offset == record.first_diff_offset
    &&& row.ts_window == record.ts_window@
    &&& row.rs_window == record.rs_window@
    &&& row.normalizations_json == record.normalizations_json@
    &&& row.ts_decision_json == record.ts_decision_json@
    &&& row.rs_decision_json == record.rs_decision_json@
    &&& row.state_hash == record.state_hash@
    &&& row.created_at_ms == record.created_at_ms
}

/// A stored report reads back as it was stored, where its counts fit a signed column.
pub proof fn a_report_reads_back(d: ShadowDivergenceRowModel)
    requires
        d.pass_seq <= i64::MAX,
        d.first_diff_offset matches Some(n) ==> n <= i64::MAX,
    ensures
        divergence_read(d) == d,
{
}

} // verus!

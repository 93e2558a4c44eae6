//! Shadow sessions: mirroring another producer's state and recording where it diverges.

use vstd::prelude::*;

use crate::json::{parsed_strings, strings_text, write_strings};
use crate::meta::{
    fresh_core, fresh_meta, CoreState, CoreStateModel, ModuleMeta, ModuleMetaModel,
};
use crate::rows::{
    find_row, find_session, first_where, group_views, keep_where, list_has, list_names,
    map_rows, of_session_without, opt_owned, opt_text, opt_view, put_in, put_where,
    remove_session, row_of, select_rows, set_row, sort_rows, sorted, take_all, take_next,
    views, without_session, Row, RowOrder, RowTest,
};
use crate::store::cache::{loaded, next_version, version_left, with_cache, LAST_ROW_VERSION};
use crate::store::compartments::{
    seed_boundary, upsert_compartments, validated_seed_boundary, with_upserted, SeedBoundaryModel,
};
use crate::store::drops::{commands_kept, commands_kept_of};
use crate::store::errors::{
    McStoreError, ShadowStateSyncError, ShadowStateSyncErrorModel, StoreError,
};
use crate::store::integrity::{
    cache_kept, divergence_added, lineage_removed, mirrored_kept, well_formed, workspace_swapped,
};
use crate::store::records::{
    CacheRow, CacheRowModel, ShadowDivergenceRow, ShadowDivergenceRowModel,
    ShadowDivergenceWriteResult, ShadowMemoryMutationRow, ShadowMemoryMutationRowModel,
    ShadowMemoryRow, ShadowMemoryRowModel, ShadowResetResult, ShadowStateSyncResult,
    ShadowWorkspaceMemberRow, ShadowWorkspaceMemberRowModel, ShadowWorkspaceRow,
    ShadowWorkspaceRowModel, StoredCompartment, WorkspaceMemberRow, WorkspaceMemberRowModel,
    WorkspaceRow, WorkspaceRowModel,
};
use crate::store::workspace::{
    member_at, workspace_named, MemberAt, WorkspaceNamed,
};
use crate::store::{McStore, McStoreModel};
use crate::text::{owned, same_text};

verus! {

// --- replacing the workspace of a shadow project --------------------------------------

/// The workspaces that a project belongs to.
pub open spec fn workspace_ids(s: McStoreModel, project: Seq<char>) -> Seq<i64> {
    keep_where(s.members, member_at(project)).map_values(
        |m: WorkspaceMemberRowModel| m.workspace_id,
    )
}

/// A workspace that is not among `ids`.
pub open spec fn workspace_stays(ids: Seq<i64>) -> spec_fn(WorkspaceRowModel) -> bool {
    |w: WorkspaceRowModel| !ids.contains(w.id)
}

/// A member of a workspace that is not among `ids`.
pub open spec fn member_stays(ids: Seq<i64>) -> spec_fn(WorkspaceMemberRowModel) -> bool {
    |m: WorkspaceMemberRowModel| !ids.contains(m.workspace_id)
}

/// The store without the workspaces of a project and their members.
pub open spec fn without_workspaces(s: McStoreModel, project: Seq<char>) -> McStoreModel {
    McStoreModel {
        workspaces: keep_where(s.workspaces, workspace_stays(workspace_ids(s, project))),
        members: keep_where(s.members, member_stays(workspace_ids(s, project))),
        ..s
    }
}

/// The member rows of a new workspace.
pub open spec fn new_members(id: i64, members: Seq<ShadowWorkspaceMemberRowModel>) -> Seq<
    WorkspaceMemberRowModel,
> {
    members.map_values(
        |m: ShadowWorkspaceMemberRowModel|
            WorkspaceMemberRowModel {
                workspace_id: id,
                project_path: m.project_path,
                display_name: m.display_name,
                display_path: m.display_path,
                added_at: 0,
            },
    )
}

/// Whether no new member belongs to a workspace yet, and none is named twice.
pub open spec fn members_free(
    taken: Seq<WorkspaceMemberRowModel>,
    members: Seq<ShadowWorkspaceMemberRowModel>,
) -> bool {
    &&& forall|i: int|
        0 <= i < members.len() ==> first_where(
            taken,
            member_at((#[trigger] members[i]).project_path),
        ) is None
    &&& forall|i: int, j: int|
        0 <= i < j < members.len() ==> (#[trigger] members[i]).project_path != (
        #[trigger] members[j]).project_path
}

/// The store with a new workspace.
pub open spec fn with_workspace(s: McStoreModel, w: ShadowWorkspaceRowModel) -> McStoreModel {
    let id = (s.last_workspace_id + 1) as i64;
    McStoreModel {
        workspaces: s.workspaces.push(
            WorkspaceRowModel {
                id,
                name: w.name,
                created_at: 0,
                updated_at: 0,
                share_categories: strings_text(w.share_categories),
            },
        ),
        last_workspace_id: id,
        members: s.members + new_members(id, w.members),
        ..s
    }
}

/// The store with the workspace of a shadow project replaced.
pub open spec fn workspace_replaced(
    s: McStoreModel,
    project: Seq<char>,
    workspace: Option<ShadowWorkspaceRowModel>,
) -> Result<McStoreModel, StoreError> {
    let cleared = without_workspaces(s, project);
    match workspace {
        None => Ok(cleared),
        Some(w) => if s.last_workspace_id == i64::MAX {
            Err(StoreError::Exhausted)
        } else if first_where(cleared.workspaces, workspace_named(w.name)) is Some || !members_free(
            cleared.members,
            w.members,
        ) {
            Err(StoreError::Constraint)
        } else {
            Ok(with_workspace(cleared, w))
        },
    }
}

/// Accepts workspaces that are not among some.
pub struct WorkspaceStays<'a> {
    pub ids: &'a Vec<i64>,
}

impl<'a> RowTest<WorkspaceRow> for WorkspaceStays<'a> {
    open spec fn accepts(&self) -> spec_fn(WorkspaceRowModel) -> bool {
        workspace_stays(self.ids@)
    }

    fn test(&self, row: &WorkspaceRow) -> (r: bool) {
        !list_has(self.ids, row.id)
    }
}

/// Accepts members of workspaces that are not among some.
pub struct MemberStays<'a> {
    pub ids: &'a Vec<i64>,
}

impl<'a> RowTest<WorkspaceMemberRow> for MemberStays<'a> {
    open spec fn accepts(&self) -> spec_fn(WorkspaceMemberRowModel) -> bool {
        member_stays(self.ids@)
    }

    fn test(&self, row: &WorkspaceMemberRow) -> (r: bool) {
        !list_has(self.ids, row.workspace_id)
    }
}

/// Accepts the members of some workspaces.
pub struct MemberOfSome<'a> {
    pub ids: &'a Vec<i64>,
}

impl<'a> RowTest<WorkspaceMemberRow> for MemberOfSome<'a> {
    open spec fn accepts(&self) -> spec_fn(WorkspaceMemberRowModel) -> bool {
        member_of_some(self.ids@)
    }

    fn test(&self, row: &WorkspaceMemberRow) -> (r: bool) {
        list_has(self.ids, row.workspace_id)
    }
}

fn workspace_number(m: &WorkspaceMemberRow) -> (r: i64)
    ensures
        r == m@.workspace_id,
{
    m.workspace_id
}

fn member_path(m: &WorkspaceMemberRow) -> (r: String)
    ensures
        r@ == m@.project_path,
{
    m.project_path.clone()
}

fn are_members_free(taken: &Vec<WorkspaceMemberRow>, members: &Vec<ShadowWorkspaceMemberRow>) -> (r:
    bool)
    ensures
        r == members_free(views(taken@), views(members@)),
{
    let ghost all = views(members@);
    let mut i: usize = 0;
    while i < members.len()
        invariant
            i <= members.len(),
            all == views(members@),
            forall|k: int|
                0 <= k < i ==> first_where(
                    views(taken@),
                    member_at((#[trigger] all[k]).project_path),
                ) is None,
            forall|k: int, m: int|
                0 <= k < m < i ==> (#[trigger] all[k]).project_path != (
                #[trigger] all[m]).project_path,
        decreases members.len() - i,
    {
        assert(all[i as int] == members@[i as int]@);
        if find_row(taken, &MemberAt { project: &members[i].project_path }).is_some() {
            return false;
        }
        let mut j: usize = 0;
        while j < i
            invariant
                j <= i < members.len(),
                all == views(members@),
                forall|k: int|
                    0 <= k < j ==> (#[trigger] all[k]).project_path != all[i as int].project_path,
            decreases i - j,
        {
            assert(all[j as int] == members@[j as int]@);
            assert(all[i as int] == members@[i as int]@);
            if same_text(&members[j].project_path, &members[i].project_path) {
                assert(all[j as int].project_path == all[i as int].project_path);
                return false;
            }
            j += 1;
        }
        i += 1;
    }
    true
}

// --- mirrored memories ----------------------------------------------------------------

/// The shadow memory of a project with a number.
pub open spec fn shadow_memory_at(project: Seq<char>, id: i64) -> spec_fn(
    ShadowMemoryRowModel,
) -> bool {
    |m: ShadowMemoryRowModel| m.project_path == project && m.id == id
}

/// The shadow mutation of a project with a number.
pub open spec fn shadow_mutation_at(project: Seq<char>, id: i64) -> spec_fn(
    ShadowMemoryMutationRowModel,
) -> bool {
    |m: ShadowMemoryMutationRowModel| m.project_path == project && m.mutation.id == id
}

/// The shadow memories with some put.
pub open spec fn with_shadow_memories(
    rows: Seq<ShadowMemoryRowModel>,
    given: Seq<ShadowMemoryRowModel>,
) -> Seq<ShadowMemoryRowModel>
    decreases given.len(),
{
    if given.len() == 0 {
        rows
    } else {
        let m = given.last();
        put_where(
            with_shadow_memories(rows, given.drop_last()),
            shadow_memory_at(m.project_path, m.id),
            m,
        )
    }
}

/// The shadow mutations with some put.
pub open spec fn with_shadow_mutations(
    rows: Seq<ShadowMemoryMutationRowModel>,
    given: Seq<ShadowMemoryMutationRowModel>,
) -> Seq<ShadowMemoryMutationRowModel>
    decreases given.len(),
{
    if given.len() == 0 {
        rows
    } else {
        let m = given.last();
        put_where(
            with_shadow_mutations(rows, given.drop_last()),
            shadow_mutation_at(m.project_path, m.mutation.id),
            m,
        )
    }
}

/// Accepts the shadow memory of a project with a number.
pub struct ShadowMemoryAt<'a> {
    pub project: &'a str,
    pub id: i64,
}

impl<'a> RowTest<ShadowMemoryRow> for ShadowMemoryAt<'a> {
    open spec fn accepts(&self) -> spec_fn(ShadowMemoryRowModel) -> bool {
        shadow_memory_at(self.project@, self.id)
    }

    fn test(&self, row: &ShadowMemoryRow) -> (r: bool) {
        same_text(&row.project_path, self.project) && row.id == self.id
    }
}

/// Accepts the shadow mutation of a project with a number.
pub struct ShadowMutationAt<'a> {
    pub project: &'a str,
    pub id: i64,
}

impl<'a> RowTest<ShadowMemoryMutationRow> for ShadowMutationAt<'a> {
    open spec fn accepts(&self) -> spec_fn(ShadowMemoryMutationRowModel) -> bool {
        shadow_mutation_at(self.project@, self.id)
    }

    fn test(&self, row: &ShadowMemoryMutationRow) -> (r: bool) {
        same_text(&row.project_path, self.project) && row.mutation.id == self.id
    }
}

fn put_shadow_memories(rows: &mut Vec<ShadowMemoryRow>, given: &[ShadowMemoryRow])
    ensures
        views(final(rows)@) == with_shadow_memories(views(old(rows)@), views(given@)),
{
    broadcast use group_views;

    let ghost before = views(rows@);
    let ghost all = views(given@);
    let mut i: usize = 0;
    while i < given.len()
        invariant
            i <= given.len(),
            all == views(given@),
            views(rows@) == with_shadow_memories(before, all.take(i as int)),
        decreases given.len() - i,
    {
        proof {
            take_next(all, i as int);
        }
        assert(all[i as int] == given@[i as int]@);
        put_in(
            rows,
            &ShadowMemoryAt { project: &given[i].project_path, id: given[i].id },
            given[i].dup(),
        );
        i += 1;
    }
    proof {
        take_all(all);
    }
}

fn put_shadow_mutations(rows: &mut Vec<ShadowMemoryMutationRow>, given: &[ShadowMemoryMutationRow])
    ensures
        views(final(rows)@) == with_shadow_mutations(views(old(rows)@), views(given@)),
{
    broadcast use group_views;

    let ghost before = views(rows@);
    let ghost all = views(given@);
    let mut i: usize = 0;
    while i < given.len()
        invariant
            i <= given.len(),
            all == views(given@),
            views(rows@) == with_shadow_mutations(before, all.take(i as int)),
        decreases given.len() - i,
    {
        proof {
            take_next(all, i as int);
        }
        assert(all[i as int] == given@[i as int]@);
        put_in(
            rows,
            &ShadowMutationAt { project: &given[i].project_path, id: given[i].mutation.id },
            given[i].dup(),
        );
        i += 1;
    }
    proof {
        take_all(all);
    }
}

// --- state sync -----------------------------------------------------------------------

/// One step of a shadow lineage: what the mirrored producer's state changed to.
pub struct ShadowStateSyncRequest<'a> {
    pub session_id: &'a str,
    pub shadow_project_path: &'a str,
    pub shadow_generation: u64,
    pub expected_shadow_seq: u64,
    /// The producer's boundary, given on a full seed only.
    pub seed_boundary_id: Option<&'a str>,
    pub compartments: &'a [StoredCompartment],
    pub memories: &'a [ShadowMemoryRow],
    pub memory_mutations: &'a [ShadowMemoryMutationRow],
    pub workspace: Option<&'a ShadowWorkspaceRow>,
    pub last_todo_state: Option<String>,
    /// The sender's acknowledged watermarks, as JSON text.
    pub acked_watermarks: String,
}

/// What an optional workspace holds.
pub open spec fn workspace_given(w: Option<&ShadowWorkspaceRow>) -> Option<ShadowWorkspaceRowModel> {
    match w {
        Some(w) => Some(w@),
        None => None,
    }
}

/// A counter one further; the last value stays.
pub open spec fn saturating_next(n: u64) -> u64 {
    if n == u64::MAX {
        n
    } else {
        (n + 1) as u64
    }
}

/// The core after a seeded boundary was adopted.
pub open spec fn adopted_core(core: CoreStateModel, b: SeedBoundaryModel) -> CoreStateModel {
    CoreStateModel { boundary_id: b.boundary_id, reconcile_pending: false, ..core }
}

/// The record after a seeded boundary was adopted.
pub open spec fn adopted_meta(meta: ModuleMetaModel, b: SeedBoundaryModel) -> ModuleMetaModel {
    ModuleMetaModel {
        coverage_ordinal: Some(b.coverage_end_ordinal),
        coverage_start_ordinal: Some(b.coverage_start_ordinal),
        coverage_compartment_seq: Some(b.max_sequence),
        folded_compartment_seq: b.max_sequence,
        pending_rewrite: None,
        ..meta
    }
}

/// The record after a sync was accepted.
pub open spec fn synced_meta(meta: ModuleMetaModel, request: ShadowStateSyncRequest) ->
    ModuleMetaModel {
    ModuleMetaModel {
        last_todo_state: opt_view(request.last_todo_state),
        shadow_seq: saturating_next(meta.shadow_seq),
        shadow_acked_watermarks: request.acked_watermarks@,
        ..meta
    }
}

/// The tables after a sync, before the cache row is written.
pub open spec fn mirrored(s: McStoreModel, request: ShadowStateSyncRequest) -> Result<
    McStoreModel,
    StoreError,
> {
    let replaced = workspace_replaced(
        s,
        request.shadow_project_path@,
        workspace_given(request.workspace),
    );
    match replaced {
        Ok(t) => Ok(
            McStoreModel {
                compartments: with_upserted(
                    s.compartments,
                    request.session_id@,
                    views(request.compartments@),
                ),
                shadow_memories: with_shadow_memories(s.shadow_memories, views(request.memories@)),
                shadow_mutations: with_shadow_mutations(
                    s.shadow_mutations,
                    views(request.memory_mutations@),
                ),
                ..t
            },
        ),
        Err(e) => Err(e),
    }
}

/// What a seeded boundary makes of the cache, if one is declared.
pub open spec fn seeded_state(
    core: CoreStateModel,
    meta: ModuleMetaModel,
    request: ShadowStateSyncRequest,
) -> Result<(CoreStateModel, ModuleMetaModel), ShadowStateSyncErrorModel> {
    match request.seed_boundary_id {
        None => Ok((core, meta)),
        Some(declared) => match seed_boundary(declared@, views(request.compartments@)) {
            Ok(b) => Ok((adopted_core(core, b), adopted_meta(meta, b))),
            Err(detail) => Err(
                ShadowStateSyncErrorModel::InvalidSeedBoundary { declared: declared@, detail },
            ),
        },
    }
}

/// What a sync returns, and the store behind it.
pub open spec fn sync_outcome(s: McStoreModel, request: ShadowStateSyncRequest) -> Result<
    (ShadowStateSyncResult, McStoreModel),
    ShadowStateSyncErrorModel,
> {
    let session = request.session_id@;
    let now = loaded(s, session);
    if now.meta.shadow_generation != request.shadow_generation {
        Err(
            ShadowStateSyncErrorModel::GenerationMismatch {
                expected: request.shadow_generation,
                found: now.meta.shadow_generation,
            },
        )
    } else if now.meta.shadow_seq != request.expected_shadow_seq {
        Err(
            ShadowStateSyncErrorModel::SeqMismatch {
                expected: request.expected_shadow_seq,
                found: now.meta.shadow_seq,
            },
        )
    } else {
        match seeded_state(now.core, now.meta, request) {
            Err(e) => Err(e),
            Ok((core, meta)) => if !version_left(s, session) {
                Err(
                    ShadowStateSyncErrorModel::Store(
                        McStoreError::Store(StoreError::Exhausted),
                    ),
                )
            } else {
                match mirrored(s, request) {
                    Err(e) => Err(ShadowStateSyncErrorModel::Store(McStoreError::Store(e))),
                    Ok(t) => Ok(
                        (
                            ShadowStateSyncResult {
                                shadow_generation: meta.shadow_generation,
                                shadow_seq: saturating_next(meta.shadow_seq),
                                row_version: next_version(s, session),
                            },
                            with_cache(
                                t,
                                session,
                                next_version(s, session),
                                core,
                                synced_meta(meta, request),
                            ),
                        ),
                    ),
                }
            },
        }
    }
}

/// A sync applies once: the same step a second time is refused.
pub proof fn a_sync_applies_once(s: McStoreModel, request: ShadowStateSyncRequest)
    requires
        sync_outcome(s, request) is Ok,
        request.expected_shadow_seq < u64::MAX,
    ensures
        sync_outcome(sync_outcome(s, request)->Ok_0.1, request) == Err::<
            (ShadowStateSyncResult, McStoreModel),
            ShadowStateSyncErrorModel,
        >(
            ShadowStateSyncErrorModel::SeqMismatch {
                expected: request.expected_shadow_seq,
                found: (request.expected_shadow_seq + 1) as u64,
            },
        ),
{
    let session = request.session_id@;
    let now = loaded(s, session);
    let (core, meta) = seeded_state(now.core, now.meta, request)->Ok_0;
    let t = mirrored(s, request)->Ok_0;
    crate::rows::row_of_put(
        t.cache,
        session,
        CacheRowModel {
            row_version: next_version(s, session),
            core,
            meta: synced_meta(meta, request),
        },
        session,
    );
}

// --- reset ----------------------------------------------------------------------------

/// A member of one of some workspaces.
pub open spec fn member_of_some(ids: Seq<i64>) -> spec_fn(WorkspaceMemberRowModel) -> bool {
    |m: WorkspaceMemberRowModel| ids.contains(m.workspace_id)
}

/// The paths of a shadow project and of all members of its workspace.
pub open spec fn lineage_paths(s: McStoreModel, project: Seq<char>) -> Seq<Seq<char>> {
    keep_where(s.members, member_of_some(workspace_ids(s, project))).map_values(
        |m: WorkspaceMemberRowModel| m.project_path,
    ).push(project)
}

/// A shadow memory of a project that is not among some.
pub open spec fn shadow_memory_stays(paths: Seq<Seq<char>>) -> spec_fn(
    ShadowMemoryRowModel,
) -> bool {
    |m: ShadowMemoryRowModel| !paths.contains(m.project_path)
}

/// A shadow mutation of a project that is not among some.
pub open spec fn shadow_mutation_stays(paths: Seq<Seq<char>>) -> spec_fn(
    ShadowMemoryMutationRowModel,
) -> bool {
    |m: ShadowMemoryMutationRowModel| !paths.contains(m.project_path)
}

/// The record that a new lineage begins with.
pub open spec fn reset_meta(generation: u64) -> ModuleMetaModel {
    ModuleMetaModel { shadow_generation: saturating_next(generation), ..fresh_meta() }
}

/// The store after a reset.
pub open spec fn with_reset(s: McStoreModel, session: Seq<char>, project: Seq<char>) -> McStoreModel {
    let paths = lineage_paths(s, project);
    with_cache(
        McStoreModel {
            compartments: without_session(s.compartments, session),
            drops: without_session(s.drops, session),
            ledger: without_session(s.ledger, session),
            shadow_memories: keep_where(s.shadow_memories, shadow_memory_stays(paths)),
            shadow_mutations: keep_where(s.shadow_mutations, shadow_mutation_stays(paths)),
            ..without_workspaces(s, project)
        },
        session,
        next_version(s, session),
        fresh_core(),
        reset_meta(loaded(s, session).meta.shadow_generation),
    )
}

/// A reset ends the lineage: behind it a sync and a report of the old generation are
/// refused.
pub proof fn a_reset_ends_the_lineage(
    s: McStoreModel,
    session: Seq<char>,
    project: Seq<char>,
    request: ShadowStateSyncRequest,
    record: ShadowDivergenceRecord,
)
    requires
        loaded(s, session).meta.shadow_generation < u64::MAX,
        request.session_id@ == session,
        request.shadow_generation == loaded(s, session).meta.shadow_generation,
        record.session_id@ == session,
        record.shadow_generation == loaded(s, session).meta.shadow_generation,
    ensures
        sync_outcome(with_reset(s, session, project), request) == Err::<
            (ShadowStateSyncResult, McStoreModel),
            ShadowStateSyncErrorModel,
        >(
            ShadowStateSyncErrorModel::GenerationMismatch {
                expected: request.shadow_generation,
                found: (request.shadow_generation + 1) as u64,
            },
        ),
        divergence_outcome(with_reset(s, session, project), record) == Err::<
            (ShadowDivergenceWriteResult, McStoreModel),
            McStoreError,
        >(
            McStoreError::CasConflict {
                expected: Some(record.shadow_generation),
                found: (record.shadow_generation + 1) as u64,
            },
        ),
{
    crate::rows::row_of_put(
        s.cache,
        session,
        CacheRowModel {
            row_version: next_version(s, session),
            core: fresh_core(),
            meta: reset_meta(loaded(s, session).meta.shadow_generation),
        },
        session,
    );
}

/// Accepts shadow memories of projects that are not among some.
pub struct ShadowMemoryStays<'a> {
    pub paths: &'a Vec<String>,
}

impl<'a> RowTest<ShadowMemoryRow> for ShadowMemoryStays<'a> {
    open spec fn accepts(&self) -> spec_fn(ShadowMemoryRowModel) -> bool {
        shadow_memory_stays(views(self.paths@))
    }

    fn test(&self, row: &ShadowMemoryRow) -> (r: bool) {
        !list_names(self.paths, &row.project_path)
    }
}

/// Accepts shadow mutations of projects that are not among some.
pub struct ShadowMutationStays<'a> {
    pub paths: &'a Vec<String>,
}

impl<'a> RowTest<ShadowMemoryMutationRow> for ShadowMutationStays<'a> {
    open spec fn accepts(&self) -> spec_fn(ShadowMemoryMutationRowModel) -> bool {
        shadow_mutation_stays(views(self.paths@))
    }

    fn test(&self, row: &ShadowMemoryMutationRow) -> (r: bool) {
        !list_names(self.paths, &row.project_path)
    }
}

// --- divergences ----------------------------------------------------------------------

/// A difference between the mirrored producer's output and the shadow's.
pub struct ShadowDivergenceRecord<'a> {
    pub session_id: &'a str,
    pub shadow_generation: u64,
    pub pass_seq: u64,
    pub class: &'a str,
    pub first_mid: Option<&'a str>,
    pub first_block: Option<&'a str>,
    pub first_field: Option<&'a str>,
    pub ts_prefix: &'a str,
    pub rs_prefix: &'a str,
    pub first_diff_offset: Option<u64>,
    pub ts_window: &'a str,
    pub rs_window: &'a str,
    pub normalizations_json: &'a str,
    pub ts_decision_json: &'a str,
    pub rs_decision_json: &'a str,
    pub state_hash: &'a str,
    pub created_at_ms: i64,
    pub quarantine: bool,
}

/// The row that a report is stored as.
pub open spec fn divergence_row(record: ShadowDivergenceRecord, id: i64) -> ShadowDivergenceRowModel {
    ShadowDivergenceRowModel {
        id,
        session_id: record.session_id@,
        pass_seq: record.pass_seq,
        class: record.class@,
        first_mid: opt_text(record.first_mid),
        first_block: opt_text(record.first_block),
        first_field: opt_text(record.first_field),
        ts_prefix: record.ts_prefix@,
        rs_prefix: record.rs_prefix@,
        first_diff_offset: record.first_diff_offset,
        ts_window: record.ts_window@,
        rs_window: record.rs_window@,
        normalizations_json: record.normalizations_json@,
        ts_decision_json: record.ts_decision_json@,
        rs_decision_json: record.rs_decision_json@,
        state_hash: record.state_hash@,
        created_at_ms: record.created_at_ms,
    }
}

/// The store with a report's row.
pub open spec fn with_divergence(s: McStoreModel, record: ShadowDivergenceRecord) -> McStoreModel {
    McStoreModel {
        divergences: s.divergences.push(
            divergence_row(record, (s.last_divergence_id + 1) as i64),
        ),
        last_divergence_id: (s.last_divergence_id + 1) as i64,
        ..s
    }
}

/// What a report returns, and the store behind it. In a quarantined session a report is
/// counted and no more.
pub open spec fn divergence_outcome(s: McStoreModel, record: ShadowDivergenceRecord) -> Result<
    (ShadowDivergenceWriteResult, McStoreModel),
    McStoreError,
> {
    let session = record.session_id@;
    match row_of(s.cache, session) {
        None => Err(
            McStoreError::CasConflict { expected: Some(record.shadow_generation), found: 0 },
        ),
        Some(row) => if row.meta.shadow_generation != record.shadow_generation {
            Err(
                McStoreError::CasConflict {
                    expected: Some(record.shadow_generation),
                    found: row.meta.shadow_generation,
                },
            )
        } else if row.meta.shadow_quarantined {
            if !version_left(s, session) {
                Err(McStoreError::Store(StoreError::Exhausted))
            } else {
                let meta = ModuleMetaModel {
                    shadow_quarantined_pass_count: saturating_next(
                        row.meta.shadow_quarantined_pass_count,
                    ),
                    ..row.meta
                };
                Ok(
                    (
                        ShadowDivergenceWriteResult {
                            quarantined: true,
                            row_version: next_version(s, session),
                        },
                        with_cache(s, session, next_version(s, session), row.core, meta),
                    ),
                )
            }
        } else if s.last_divergence_id == i64::MAX || (record.quarantine && !version_left(
            s,
            session,
        )) {
            Err(McStoreError::Store(StoreError::Exhausted))
        } else if record.quarantine {
            let meta = ModuleMetaModel { shadow_quarantined: true, ..row.meta };
            Ok(
                (
                    ShadowDivergenceWriteResult {
                        quarantined: true,
                        row_version: next_version(s, session),
                    },
                    with_cache(
                        with_divergence(s, record),
                        session,
                        next_version(s, session),
                        row.core,
                        meta,
                    ),
                ),
            )
        } else {
            Ok(
                (
                    ShadowDivergenceWriteResult {
                        quarantined: false,
                        row_version: row.row_version,
                    },
                    with_divergence(s, record),
                ),
            )
        },
    }
}

/// Quarantine is terminal: behind it every accepted report says so, adds no row and leaves
/// the session quarantined.
pub proof fn quarantine_is_terminal(s: McStoreModel, record: ShadowDivergenceRecord)
    requires
        row_of(s.cache, record.session_id@) matches Some(row) && row.meta.shadow_quarantined,
    ensures
        divergence_outcome(s, record) matches Ok((result, after)) ==> {
            &&& result.quarantined
            &&& after.divergences == s.divergences
            &&& row_of(after.cache, record.session_id@) matches Some(row)
                && row.meta.shadow_quarantined
        },
{
    let session = record.session_id@;
    let row = row_of(s.cache, session).unwrap();
    let meta = ModuleMetaModel {
        shadow_quarantined_pass_count: saturating_next(row.meta.shadow_quarantined_pass_count),
        ..row.meta
    };
    crate::rows::row_of_put(
        s.cache,
        session,
        CacheRowModel { row_version: next_version(s, session), core: row.core, meta },
        session,
    );
}

/// A count as a column of signed numbers holds it.
pub open spec fn as_signed(n: u64) -> int {
    if n > i64::MAX {
        n - 0x1_0000_0000_0000_0000
    } else {
        n as int
    }
}

/// A count as it is read back: what does not fit a signed column reads as zero.
pub open spec fn read_count(n: u64) -> u64 {
    if n > i64::MAX {
        0
    } else {
        n
    }
}

fn read_back(n: u64) -> (r: u64)
    ensures
        r == read_count(n),
{
    if n > 0x7fff_ffff_ffff_ffff {
        0
    } else {
        n
    }
}

/// Reports by pass, and by number within a pass.
pub struct DivergenceOrder;

impl RowOrder<ShadowDivergenceRow> for DivergenceOrder {
    open spec fn le(a: ShadowDivergenceRowModel, b: ShadowDivergenceRowModel) -> bool {
        as_signed(a.pass_seq) < as_signed(b.pass_seq) || (a.pass_seq == b.pass_seq && a.id <= b.id)
    }

    proof fn le_total(a: ShadowDivergenceRowModel, b: ShadowDivergenceRowModel) {
    }

    proof fn le_transitive(
        a: ShadowDivergenceRowModel,
        b: ShadowDivergenceRowModel,
        c: ShadowDivergenceRowModel,
    ) {
    }

    fn at_most(a: &ShadowDivergenceRow, b: &ShadowDivergenceRow) -> (r: bool) {
        let top: u64 = 0x7fff_ffff_ffff_ffff;
        let before: bool = if a.pass_seq > top && b.pass_seq <= top {
            true
        } else if a.pass_seq <= top && b.pass_seq > top {
            false
        } else {
            a.pass_seq < b.pass_seq
        };
        before || (a.pass_seq == b.pass_seq && a.id <= b.id)
    }
}

/// A report of a session.
pub open spec fn divergence_of(session: Seq<char>) -> spec_fn(ShadowDivergenceRowModel) -> bool {
    |d: ShadowDivergenceRowModel| d.session_id == session
}

/// Accepts the reports of a session.
pub struct DivergenceOf<'a> {
    pub session: &'a str,
}

impl<'a> RowTest<ShadowDivergenceRow> for DivergenceOf<'a> {
    open spec fn accepts(&self) -> spec_fn(ShadowDivergenceRowModel) -> bool {
        divergence_of(self.session@)
    }

    fn test(&self, row: &ShadowDivergenceRow) -> (r: bool) {
        same_text(&row.session_id, self.session)
    }
}

/// A report as it is read back.
pub open spec fn divergence_read(d: ShadowDivergenceRowModel) -> ShadowDivergenceRowModel {
    ShadowDivergenceRowModel {
        pass_seq: read_count(d.pass_seq),
        first_diff_offset: match d.first_diff_offset {
            Some(n) => Some(read_count(n)),
            None => None,
        },
        ..d
    }
}

fn read_divergence(d: &ShadowDivergenceRow) -> (r: ShadowDivergenceRow)
    ensures
        r@ == divergence_read(d@),
{
    let mut r = d.dup();
    r.pass_seq = read_back(d.pass_seq);
    r.first_diff_offset = match d.first_diff_offset {
        Some(n) => Some(read_back(n)),
        None => None,
    };
    r
}

impl McStore {
    fn workspaces_of(&self, project: &str) -> (r: Vec<i64>)
        ensures
            r@ == workspace_ids(self@, project@),
    {
        let ids = map_rows(
            &select_rows(&self.members, &MemberAt { project }),
            workspace_number,
            Ghost(|m: WorkspaceMemberRowModel| m.workspace_id),
        );
        assert(views(ids@) =~= ids@);
        ids
    }

    fn remove_workspaces(&mut self, project: &str)
        ensures
            final(self)@ == without_workspaces(old(self)@, project@),
    {
        let ids = self.workspaces_of(project);
        self.workspaces = select_rows(&self.workspaces, &WorkspaceStays { ids: &ids });
        self.members = select_rows(&self.members, &MemberStays { ids: &ids });
    }

    fn add_workspace(&mut self, w: &ShadowWorkspaceRow)
        requires
            old(self)@.last_workspace_id < i64::MAX,
        ensures
            final(self)@ == with_workspace(old(self)@, w@),
            parsed_strings(strings_text(w@.share_categories)) == Some(w@.share_categories),
    {
        broadcast use group_views;

        let ghost s = self@;
        let id: i64 = self.last_workspace_id + 1;
        let share_categories = write_strings(&w.share_categories);
        self.workspaces.push(
            WorkspaceRow {
                id,
                name: w.name.clone(),
                created_at: 0,
                updated_at: 0,
                share_categories,
            },
        );
        self.last_workspace_id = id;
        let ghost added = new_members(id, w@.members);
        let ghost opened = self@;
        let mut i: usize = 0;
        assert(s.members + added.take(0) =~= s.members);
        while i < w.members.len()
            invariant
                i <= w.members.len(),
                added == new_members(id, w@.members),
                opened.members == s.members,
                self@ == (McStoreModel { members: s.members + added.take(i as int), ..opened }),
            decreases w.members.len() - i,
        {
            proof {
                take_next(added, i as int);
                assert(views(w.members@)[i as int] == w.members@[i as int]@);
                assert((s.members + added.take(i as int)).push(added[i as int]) =~= s.members
                    + added.take(i + 1));
            }
            let m = &w.members[i];
            self.members.push(
                WorkspaceMemberRow {
                    workspace_id: id,
                    project_path: m.project_path.clone(),
                    display_name: m.display_name.clone(),
                    display_path: m.display_path.clone(),
                    added_at: 0,
                },
            );
            i += 1;
        }
        proof {
            take_all(added);
        }
    }

    /// Tells why the tables refuse a workspace for a shadow project, if they do.
    fn workspace_fault(&self, project: &str, workspace: Option<&ShadowWorkspaceRow>) -> (r: Option<
        StoreError,
    >)
        ensures
            match workspace_replaced(self@, project@, workspace_given(workspace)) {
                Ok(_) => r is None,
                Err(e) => r == Some(e),
            },
    {
        let w = match workspace {
            Some(w) => w,
            None => {
                return None;
            },
        };
        if self.last_workspace_id == i64::MAX {
            return Some(StoreError::Exhausted);
        }
        let ids = self.workspaces_of(project);
        let workspaces = select_rows(&self.workspaces, &WorkspaceStays { ids: &ids });
        let members = select_rows(&self.members, &MemberStays { ids: &ids });
        if find_row(&workspaces, &WorkspaceNamed { name: &w.name }).is_some() || !are_members_free(
            &members,
            &w.members,
        ) {
            return Some(StoreError::Constraint);
        }
        None
    }

    /// Applies one step of a shadow lineage, where it is the next one.
    pub fn apply_shadow_state_sync(&mut self, request: ShadowStateSyncRequest<'_>) -> (r: Result<
        ShadowStateSyncResult,
        ShadowStateSyncError,
    >)
        ensures
            match (r, sync_outcome(old(self)@, request)) {
                (Ok(result), Ok((returned, after))) => result == returned && final(self)@ == after,
                (Err(e), Err(refused)) => e@ == refused && final(self)@ == old(self)@,
                _ => false,
            },
            r is Ok ==> (workspace_given(request.workspace) matches Some(w) ==> parsed_strings(
                strings_text(w.share_categories),
            ) == Some(w.share_categories)),
            well_formed(old(self)@) ==> well_formed(final(self)@),
            commands_kept(old(self)@, final(self)@),
    {
        broadcast use group_views;

        let ghost s = self@;
        let ghost session = request.session_id@;
        let state = self.load(request.session_id);
        let mut core = state.core;
        let mut meta = state.meta;
        if meta.shadow_generation != request.shadow_generation {
            return Err(
                ShadowStateSyncError::GenerationMismatch {
                    expected: request.shadow_generation,
                    found: meta.shadow_generation,
                },
            );
        }
        if meta.shadow_seq != request.expected_shadow_seq {
            return Err(
                ShadowStateSyncError::SeqMismatch {
                    expected: request.expected_shadow_seq,
                    found: meta.shadow_seq,
                },
            );
        }
        match request.seed_boundary_id {
            Some(declared) => {
                match validated_seed_boundary(declared, request.compartments) {
                    Ok(adoption) => {
                        core.boundary_id = adoption.boundary_id;
                        core.reconcile_pending = false;
                        meta.coverage_ordinal = Some(adoption.coverage_end_ordinal);
                        meta.coverage_start_ordinal = Some(adoption.coverage_start_ordinal);
                        meta.coverage_compartment_seq = Some(adoption.max_sequence);
                        meta.folded_compartment_seq = adoption.max_sequence;
                        meta.pending_rewrite = None;
                    },
                    Err(detail) => {
                        return Err(
                            ShadowStateSyncError::InvalidSeedBoundary {
                                declared: owned(declared),
                                detail,
                            },
                        );
                    },
                }
            },
            None => {},
        }
        let ghost seeded = seeded_state(
            loaded(s, session).core,
            loaded(s, session).meta,
            request,
        )->Ok_0;
        assert(core@ == seeded.0 && meta@ == seeded.1);
        let current: u64 = match state.row_version {
            Some(v) => v,
            None => 0,
        };
        if current >= LAST_ROW_VERSION {
            return Err(ShadowStateSyncError::Store(McStoreError::Store(StoreError::Exhausted)));
        }
        match self.workspace_fault(request.shadow_project_path, request.workspace) {
            Some(e) => {
                return Err(ShadowStateSyncError::Store(McStoreError::Store(e)));
            },
            None => {},
        }
        upsert_compartments(&mut self.compartments, request.session_id, request.compartments);
        self.remove_workspaces(request.shadow_project_path);
        match request.workspace {
            Some(w) => {
                self.add_workspace(w);
            },
            None => {},
        }
        put_shadow_memories(&mut self.shadow_memories, request.memories);
        put_shadow_mutations(&mut self.shadow_mutations, request.memory_mutations);
        proof {
            assert(self@ == mirrored(s, request)->Ok_0);
        }
        meta.last_todo_state = request.last_todo_state;
        meta.shadow_seq = if meta.shadow_seq == u64::MAX {
            u64::MAX
        } else {
            meta.shadow_seq + 1
        };
        meta.shadow_acked_watermarks = request.acked_watermarks;
        assert(meta@ == synced_meta(seeded.1, request));
        let next: u64 = current + 1;
        proof {
            if well_formed(s) {
                let workspace = workspace_given(request.workspace);
                workspace_swapped(s, request.shadow_project_path@, workspace);
                mirrored_kept(
                    workspace_replaced(s, request.shadow_project_path@, workspace)->Ok_0,
                    session,
                    views(request.compartments@),
                    views(request.memories@),
                    views(request.memory_mutations@),
                );
                cache_kept(
                    self@,
                    session,
                    CacheRowModel { row_version: next, core: core@, meta: meta@ },
                );
            }
        }
        let result = ShadowStateSyncResult {
            shadow_generation: meta.shadow_generation,
            shadow_seq: meta.shadow_seq,
            row_version: next,
        };
        set_row(&mut self.cache, request.session_id, CacheRow { row_version: next, core, meta });
        Ok(result)
    }

    /// Begins a new shadow lineage: drops what the session mirrors and raises its
    /// generation.
    pub fn reset_shadow_session(&mut self, session_id: &str, shadow_project_path: &str) -> (r:
        Result<ShadowResetResult, McStoreError>)
        ensures
            match r {
                Ok(result) => {
                    &&& version_left(old(self)@, session_id@)
                    &&& result == (ShadowResetResult {
                        shadow_generation: saturating_next(
                            loaded(old(self)@, session_id@).meta.shadow_generation,
                        ),
                        shadow_seq: 0,
                        row_version: next_version(old(self)@, session_id@),
                    })
                    &&& final(self)@ == with_reset(
                        old(self)@,
                        session_id@,
                        shadow_project_path@,
                    )
                },
                Err(e) => {
                    &&& !version_left(old(self)@, session_id@)
                    &&& e == McStoreError::Store(StoreError::Exhausted)
                    &&& final(self)@ == old(self)@
                },
            },
            well_formed(old(self)@) ==> well_formed(final(self)@),
            forall|other: Seq<char>|
                other != session_id@ ==> #[trigger] commands_kept_of(
                    old(self)@,
                    final(self)@,
                    other,
                ),
    {
        broadcast use group_views;

        let ghost s = self@;
        let state = self.load(session_id);
        let current: u64 = match state.row_version {
            Some(v) => v,
            None => 0,
        };
        if current >= LAST_ROW_VERSION {
            return Err(McStoreError::Store(StoreError::Exhausted));
        }
        let mut meta = ModuleMeta::default();
        meta.shadow_generation = if state.meta.shadow_generation == u64::MAX {
            u64::MAX
        } else {
            state.meta.shadow_generation + 1
        };
        let ids = self.workspaces_of(shadow_project_path);
        let mut paths = map_rows(
            &select_rows(&self.members, &MemberOfSome { ids: &ids }),
            member_path,
            Ghost(|m: WorkspaceMemberRowModel| m.project_path),
        );
        paths.push(owned(shadow_project_path));
        assert(views(paths@) == lineage_paths(s, shadow_project_path@));
        remove_session(&mut self.compartments, session_id);
        remove_session(&mut self.drops, session_id);
        remove_session(&mut self.ledger, session_id);
        self.shadow_memories = select_rows(
            &self.shadow_memories,
            &ShadowMemoryStays { paths: &paths },
        );
        self.shadow_mutations = select_rows(
            &self.shadow_mutations,
            &ShadowMutationStays { paths: &paths },
        );
        self.remove_workspaces(shadow_project_path);
        let next: u64 = current + 1;
        let shadow_generation: u64 = meta.shadow_generation;
        proof {
            if well_formed(s) {
                lineage_removed(s, session_id@, shadow_project_path@);
                cache_kept(
                    self@,
                    session_id@,
                    CacheRowModel { row_version: next, core: fresh_core(), meta: meta@ },
                );
            }
        }
        set_row(
            &mut self.cache,
            session_id,
            CacheRow { row_version: next, core: CoreState::default(), meta },
        );
        proof {
            assert forall|other: Seq<char>| other != session_id@ implies #[trigger]
                commands_kept_of(s, self@, other) by {
                of_session_without(s.ledger, session_id@, other);
            }
        }
        Ok(ShadowResetResult { shadow_generation, shadow_seq: 0, row_version: next })
    }

    /// Stores a report of a divergence, and quarantines the session where the report asks
    /// for it. A report of another generation is refused.
    pub fn record_shadow_divergence(&mut self, record: ShadowDivergenceRecord<'_>) -> (r: Result<
        ShadowDivergenceWriteResult,
        McStoreError,
    >)
        ensures
            match (r, divergence_outcome(old(self)@, record)) {
                (Ok(result), Ok((returned, after))) => result == returned && final(self)@ == after,
                (Err(e), Err(refused)) => e == refused && final(self)@ == old(self)@,
                _ => false,
            },
            well_formed(old(self)@) ==> well_formed(final(self)@),
            commands_kept(old(self)@, final(self)@),
    {
        broadcast use group_views;

        let row = match find_session(&self.cache, record.session_id) {
            Some(at) => self.cache[at].row.dup(),
            None => {
                return Err(
                    McStoreError::CasConflict {
                        expected: Some(record.shadow_generation),
                        found: 0,
                    },
                );
            },
        };
        let mut meta = row.meta.dup();
        if meta.shadow_generation != record.shadow_generation {
            return Err(
                McStoreError::CasConflict {
                    expected: Some(record.shadow_generation),
                    found: meta.shadow_generation,
                },
            );
        }
        if meta.shadow_quarantined {
            if row.row_version >= LAST_ROW_VERSION {
                return Err(McStoreError::Store(StoreError::Exhausted));
            }
            meta.shadow_quarantined_pass_count = if meta.shadow_quarantined_pass_count == u64::MAX {
                u64::MAX
            } else {
                meta.shadow_quarantined_pass_count + 1
            };
            let next: u64 = row.row_version + 1;
            proof {
                if well_formed(old(self)@) {
                    cache_kept(
                        self@,
                        record.session_id@,
                        CacheRowModel { row_version: next, core: row@.core, meta: meta@ },
                    );
                }
            }
            set_row(
                &mut self.cache,
                record.session_id,
                CacheRow { row_version: next, core: row.core.dup(), meta },
            );
            return Ok(ShadowDivergenceWriteResult { quarantined: true, row_version: next });
        }
        if self.last_divergence_id == i64::MAX || (record.quarantine && row.row_version
            >= LAST_ROW_VERSION) {
            return Err(McStoreError::Store(StoreError::Exhausted));
        }
        let id: i64 = self.last_divergence_id + 1;
        let report = ShadowDivergenceRow {
            id,
            session_id: owned(record.session_id),
            pass_seq: record.pass_seq,
            class: owned(record.class),
            first_mid: opt_owned(record.first_mid),
            first_block: opt_owned(record.first_block),
            first_field: opt_owned(record.first_field),
            ts_prefix: owned(record.ts_prefix),
            rs_prefix: owned(record.rs_prefix),
            first_diff_offset: record.first_diff_offset,
            ts_window: owned(record.ts_window),
            rs_window: owned(record.rs_window),
            normalizations_json: owned(record.normalizations_json),
            ts_decision_json: owned(record.ts_decision_json),
            rs_decision_json: owned(record.rs_decision_json),
            state_hash: owned(record.state_hash),
            created_at_ms: record.created_at_ms,
        };
        assert(report@ == divergence_row(record, id));
        proof {
            if well_formed(old(self)@) {
                divergence_added(old(self)@, report@);
            }
        }
        self.divergences.push(report);
        self.last_divergence_id = id;
        if record.quarantine {
            meta.shadow_quarantined = true;
            let next: u64 = row.row_version + 1;
            proof {
                if well_formed(old(self)@) {
                    cache_kept(
                        self@,
                        record.session_id@,
                        CacheRowModel { row_version: next, core: row@.core, meta: meta@ },
                    );
                }
            }
            set_row(
                &mut self.cache,
                record.session_id,
                CacheRow { row_version: next, core: row.core.dup(), meta },
            );
            Ok(ShadowDivergenceWriteResult { quarantined: true, row_version: next })
        } else {
            Ok(ShadowDivergenceWriteResult { quarantined: false, row_version: row.row_version })
        }
    }

    /// Reads the reports of a session, by pass.
    pub fn load_shadow_divergences(&self, session_id: &str) -> (r: Vec<ShadowDivergenceRow>)
        ensures
            views(r@) == sorted::<ShadowDivergenceRow, DivergenceOrder>(
                keep_where(self@.divergences, divergence_of(session_id@)),
            ).map_values(|d: ShadowDivergenceRowModel| divergence_read(d)),
    {
        map_rows(
            &sort_rows::<ShadowDivergenceRow, DivergenceOrder>(
                select_rows(&self.divergences, &DivergenceOf { session: session_id }),
            ),
            read_divergence,
            Ghost(|d: ShadowDivergenceRowModel| divergence_read(d)),
        )
    }
}

} // verus!

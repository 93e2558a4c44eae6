//! Reading memories for a render: what is visible, in which order, and up to which numbers.

use vstd::prelude::*;

use crate::rows::{
    group_views, keep_where, largest, largest_of, list_dup, map_rows, select_rows, slice_dup,
    slice_has, sort_rows, sorted, views, list_names, Row, RowOrder, RowTest,
};
use crate::store::errors::{McStoreError, StoreError};
use crate::store::limits::{
    distinct_names, each_once, is_seeing_too_much, sees_too_much, MAX_VALUES,
};
use crate::store::memories::{is_live_status, live_status};
use crate::store::merging::{ascending, sorted_ids};
use crate::store::mutations::{coalesce_mutations, coalesced, MutationOrder};
use crate::store::records::{
    MemoryRenderSnapshot, MemoryRenderSnapshotModel, MemoryRevision, MemoryRevisionModel,
    ShadowMemoryMutationRow, ShadowMemoryMutationRowModel, ShadowMemoryRow, ShadowMemoryRowModel,
    StoredMemory, StoredMemoryFull, StoredMemoryFullModel, StoredMemoryModel,
    StoredMemoryMutation, StoredMemoryMutationModel, UserMemoryRow, UserMemoryRowModel,
    WorkspaceMembership, WorkspaceMembershipModel,
};
use crate::store::{McStore, McStoreModel};
use crate::text::{owned, same_text, starts, starts_with};

verus! {

/// How the name of a shadow session, and of a shadow project, begins.
pub const SHADOW_SESSION_PREFIX: &'static str = "shadow:";

/// Whether a project is a shadow project.
pub open spec fn shadow_path(path: Seq<char>) -> bool {
    starts(path, SHADOW_SESSION_PREFIX@)
}

/// Tests whether a project is a shadow project.
pub fn is_shadow_project_path(project_path: &str) -> (r: bool)
    ensures
        r == shadow_path(project_path@),
{
    starts_with(project_path, SHADOW_SESSION_PREFIX)
}

// --- the rows that a render reads -----------------------------------------------------

/// What a render reads of a memory.
pub open spec fn brief(m: StoredMemoryFullModel) -> StoredMemoryModel {
    StoredMemoryModel {
        id: m.id,
        project_path: m.project_path,
        category: m.category,
        content: m.content,
        importance: m.importance,
        status: m.status,
        expires_at: m.expires_at,
        superseded_by_memory_id: m.superseded_by_memory_id,
        updated_at: m.updated_at,
    }
}

/// What a render reads of a shadow memory.
pub open spec fn shadow_brief(m: ShadowMemoryRowModel) -> StoredMemoryModel {
    StoredMemoryModel {
        id: m.id,
        project_path: m.project_path,
        category: m.category,
        content: m.content,
        importance: m.importance,
        status: m.status,
        expires_at: m.expires_at,
        superseded_by_memory_id: m.superseded_by_memory_id,
        updated_at: m.updated_at,
    }
}

/// The memories of the store, or of its shadow mirror.
pub open spec fn memory_rows(s: McStoreModel, shadow: bool) -> Seq<StoredMemoryModel> {
    if shadow {
        s.shadow_memories.map_values(|m: ShadowMemoryRowModel| shadow_brief(m))
    } else {
        s.memories.map_values(|m: StoredMemoryFullModel| brief(m))
    }
}

/// The mutation log of the store, or of its shadow mirror.
pub open spec fn mutation_rows(s: McStoreModel, shadow: bool) -> Seq<ShadowMemoryMutationRowModel> {
    if shadow {
        s.shadow_mutations
    } else {
        s.mutations
    }
}

/// Whether a memory has not expired at a time.
pub open spec fn unexpired(expires_at: Option<i64>, now_ms: i64) -> bool {
    match expires_at {
        Some(t) => t > now_ms,
        None => true,
    }
}

/// Whether a memory is live and has not expired.
pub open spec fn renderable(m: StoredMemoryModel, now_ms: i64) -> bool {
    live_status(m.status) && unexpired(m.expires_at, now_ms)
}

/// Whether a project sees a memory: its own, and of its workspace's other members those in
/// a shared category.
pub open spec fn visible(
    path: Seq<char>,
    category: Seq<char>,
    project: Seq<char>,
    membership: Option<WorkspaceMembershipModel>,
) -> bool {
    match membership {
        Some(w) => path == w.own_identity || (w.union_identities.contains(path)
            && w.share_categories.contains(category)),
        None => path == project,
    }
}

/// What a render of a project reads.
pub open spec fn rendered(
    project: Seq<char>,
    membership: Option<WorkspaceMembershipModel>,
    now_ms: i64,
) -> spec_fn(StoredMemoryModel) -> bool {
    |m: StoredMemoryModel|
        visible(m.project_path, m.category, project, membership) && renderable(m, now_ms)
}

/// The importance that a memory without one counts with.
pub open spec fn weight(m: StoredMemoryModel) -> i32 {
    match m.importance {
        Some(n) => n,
        None => 50,
    }
}

/// Memories by importance, largest first; equal importance by number.
pub struct RenderOrder;

impl RowOrder<StoredMemory> for RenderOrder {
    open spec fn le(a: StoredMemoryModel, b: StoredMemoryModel) -> bool {
        weight(a) > weight(b) || (weight(a) == weight(b) && a.id <= b.id)
    }

    proof fn le_total(a: StoredMemoryModel, b: StoredMemoryModel) {
    }

    proof fn le_transitive(a: StoredMemoryModel, b: StoredMemoryModel, c: StoredMemoryModel) {
    }

    fn at_most(a: &StoredMemory, b: &StoredMemory) -> (r: bool) {
        let x: i32 = match a.importance {
            Some(n) => n,
            None => 50,
        };
        let y: i32 = match b.importance {
            Some(n) => n,
            None => 50,
        };
        x > y || (x == y && a.id <= b.id)
    }
}

/// The memories that a render of a project reads, in its order.
pub open spec fn rendered_rows(
    s: McStoreModel,
    shadow: bool,
    project: Seq<char>,
    membership: Option<WorkspaceMembershipModel>,
    now_ms: i64,
) -> Seq<StoredMemoryModel> {
    sorted::<StoredMemory, RenderOrder>(
        keep_where(memory_rows(s, shadow), rendered(project, membership, now_ms)),
    )
}

/// A project that is in no workspace sees no other project's memories, and of the other
/// members of its workspace a project sees shared categories alone.
pub proof fn foreign_memories_are_shared(
    s: McStoreModel,
    shadow: bool,
    project: Seq<char>,
    membership: Option<WorkspaceMembershipModel>,
    now_ms: i64,
    i: int,
)
    requires
        0 <= i < rendered_rows(s, shadow, project, membership, now_ms).len(),
    ensures
        ({
            let m = rendered_rows(s, shadow, project, membership, now_ms)[i];
            &&& renderable(m, now_ms)
            &&& memory_rows(s, shadow).contains(m)
            &&& membership is None ==> m.project_path == project
            &&& membership matches Some(w) ==> m.project_path == w.own_identity || (
            w.union_identities.contains(m.project_path) && w.share_categories.contains(m.category))
        }),
{
    let p = rendered(project, membership, now_ms);
    let kept = keep_where(memory_rows(s, shadow), p);
    let m = rendered_rows(s, shadow, project, membership, now_ms)[i];
    assert(rendered_rows(s, shadow, project, membership, now_ms).contains(m));
    crate::rows::sorted_holds_the_same::<StoredMemory, RenderOrder>(kept, m);
    crate::rows::kept_is_accepted(memory_rows(s, shadow), p);
    let k = choose|k: int| 0 <= k < kept.len() && kept[k] == m;
    assert(p(kept[k]));
}

fn read_brief(m: &StoredMemoryFull) -> (r: StoredMemory)
    ensures
        r@ == brief(m@),
{
    StoredMemory {
        id: m.id,
        project_path: m.project_path.clone(),
        category: m.category.clone(),
        content: m.content.clone(),
        importance: m.importance,
        status: m.status.clone(),
        expires_at: m.expires_at,
        superseded_by_memory_id: m.superseded_by_memory_id,
        updated_at: m.updated_at,
    }
}

fn read_shadow_brief(m: &ShadowMemoryRow) -> (r: StoredMemory)
    ensures
        r@ == shadow_brief(m@),
{
    StoredMemory {
        id: m.id,
        project_path: m.project_path.clone(),
        category: m.category.clone(),
        content: m.content.clone(),
        importance: m.importance,
        status: m.status.clone(),
        expires_at: m.expires_at,
        superseded_by_memory_id: m.superseded_by_memory_id,
        updated_at: m.updated_at,
    }
}

/// What an optional membership holds.
pub open spec fn seen_through(membership: Option<&WorkspaceMembership>) -> Option<
    WorkspaceMembershipModel,
> {
    match membership {
        Some(w) => Some(w@),
        None => None,
    }
}

/// Tests whether a project sees a memory.
pub(crate) fn is_visible(
    path: &str,
    category: &str,
    project: &str,
    membership: Option<&WorkspaceMembership>,
) -> (r: bool)
    ensures
        r == visible(path@, category@, project@, seen_through(membership)),
{
    match membership {
        Some(w) => same_text(path, &w.own_identity) || (list_names(&w.union_identities, path)
            && list_names(&w.share_categories, category)),
        None => same_text(path, project),
    }
}

/// Accepts what a render reads.
pub struct Rendered<'a> {
    pub project: &'a str,
    pub membership: Option<&'a WorkspaceMembership>,
    pub now_ms: i64,
}

impl<'a> RowTest<StoredMemory> for Rendered<'a> {
    open spec fn accepts(&self) -> spec_fn(StoredMemoryModel) -> bool {
        rendered(self.project@, seen_through(self.membership), self.now_ms)
    }

    fn test(&self, row: &StoredMemory) -> (r: bool) {
        let fresh: bool = match row.expires_at {
            Some(t) => t > self.now_ms,
            None => true,
        };
        is_visible(&row.project_path, &row.category, self.project, self.membership)
            && is_live_status(&row.status) && fresh
    }
}

// --- numbers --------------------------------------------------------------------------

/// Whether one of the projects is a shadow project.
pub open spec fn some_shadow(paths: Seq<Seq<char>>) -> bool {
    exists|i: int| 0 <= i < paths.len() && shadow_path(#[trigger] paths[i])
}

/// The numbers of the memories of some projects.
pub open spec fn memory_ids(s: McStoreModel, shadow: bool, paths: Seq<Seq<char>>) -> Seq<i64> {
    keep_where(
        memory_rows(s, shadow),
        |m: StoredMemoryModel| paths.contains(m.project_path),
    ).map_values(|m: StoredMemoryModel| m.id)
}

/// The log rows of some projects.
pub open spec fn log_of(paths: Seq<Seq<char>>) -> spec_fn(ShadowMemoryMutationRowModel) -> bool {
    |m: ShadowMemoryMutationRowModel| paths.contains(m.project_path)
}

/// The numbers of the log rows of some projects.
pub open spec fn mutation_ids(s: McStoreModel, shadow: bool, paths: Seq<Seq<char>>) -> Seq<i64> {
    keep_where(mutation_rows(s, shadow), log_of(paths)).map_values(
        |m: ShadowMemoryMutationRowModel| m.mutation.id,
    )
}

/// The paths of a union that are read.
pub open spec fn read_paths(paths: Seq<Seq<char>>) -> Seq<Seq<char>> {
    if some_shadow(paths) {
        keep_where(paths, |p: Seq<char>| shadow_path(p))
    } else {
        paths
    }
}

/// Accepts the memories of some projects.
pub struct MemoryIn<'a> {
    pub paths: &'a Vec<String>,
}

impl<'a> RowTest<StoredMemory> for MemoryIn<'a> {
    open spec fn accepts(&self) -> spec_fn(StoredMemoryModel) -> bool {
        |m: StoredMemoryModel| views(self.paths@).contains(m.project_path)
    }

    fn test(&self, row: &StoredMemory) -> (r: bool) {
        list_names(self.paths, &row.project_path)
    }
}

/// Accepts the log rows of some projects.
pub struct LoggedIn<'a> {
    pub paths: &'a Vec<String>,
}

impl<'a> RowTest<ShadowMemoryMutationRow> for LoggedIn<'a> {
    open spec fn accepts(&self) -> spec_fn(ShadowMemoryMutationRowModel) -> bool {
        log_of(views(self.paths@))
    }

    fn test(&self, row: &ShadowMemoryMutationRow) -> (r: bool) {
        list_names(self.paths, &row.project_path)
    }
}

/// Accepts shadow projects.
pub struct ShadowPaths;

impl RowTest<String> for ShadowPaths {
    open spec fn accepts(&self) -> spec_fn(Seq<char>) -> bool {
        |p: Seq<char>| shadow_path(p)
    }

    fn test(&self, row: &String) -> (r: bool) {
        is_shadow_project_path(row)
    }
}

/// Tests whether one of the projects is a shadow project.
pub(crate) fn names_shadow(paths: &[String]) -> (r: bool)
    ensures
        r == some_shadow(views(paths@)),
{
    let mut i: usize = 0;
    while i < paths.len()
        invariant
            i <= paths.len(),
            forall|j: int| 0 <= j < i ==> !shadow_path(#[trigger] views(paths@)[j]),
        decreases paths.len() - i,
    {
        assert(views(paths@)[i as int] == paths@[i as int]@);
        if is_shadow_project_path(&paths[i]) {
            return true;
        }
        i += 1;
    }
    false
}

fn paths_read(paths: &[String]) -> (r: Vec<String>)
    ensures
        views(r@) == read_paths(views(paths@)),
{
    let all = slice_dup(paths);
    if names_shadow(paths) {
        select_rows(&all, &ShadowPaths)
    } else {
        all
    }
}

fn memory_number(m: &StoredMemory) -> (r: i64)
    ensures
        r == m@.id,
{
    m.id
}

fn mutation_number(m: &ShadowMemoryMutationRow) -> (r: i64)
    ensures
        r == m@.mutation.id,
{
    m.mutation.id
}

/// The log rows that correct a rendered baseline.
pub open spec fn correcting(
    paths: Seq<Seq<char>>,
    after_id: i64,
    rendered_ids: Seq<i64>,
) -> spec_fn(ShadowMemoryMutationRowModel) -> bool {
    |m: ShadowMemoryMutationRowModel|
        paths.contains(m.project_path) && m.mutation.id > after_id && rendered_ids.contains(
            m.mutation.target_memory_id,
        )
}

/// The corrections of a rendered baseline, in log order.
pub open spec fn corrections(
    s: McStoreModel,
    paths: Seq<Seq<char>>,
    after_id: i64,
    rendered_ids: Seq<i64>,
) -> Seq<StoredMemoryMutationModel> {
    sorted::<StoredMemoryMutation, MutationOrder>(
        keep_where(
            mutation_rows(s, some_shadow(paths)),
            correcting(read_paths(paths), after_id, rendered_ids),
        ).map_values(|m: ShadowMemoryMutationRowModel| m.mutation),
    )
}

/// Accepts the log rows that correct a rendered baseline.
pub struct Correcting<'a> {
    pub paths: &'a Vec<String>,
    pub after_id: i64,
    pub rendered_ids: &'a [i64],
}

impl<'a> RowTest<ShadowMemoryMutationRow> for Correcting<'a> {
    open spec fn accepts(&self) -> spec_fn(ShadowMemoryMutationRowModel) -> bool {
        correcting(views(self.paths@), self.after_id, self.rendered_ids@)
    }

    fn test(&self, row: &ShadowMemoryMutationRow) -> (r: bool) {
        list_names(self.paths, &row.project_path) && row.mutation.id > self.after_id && slice_has(
            self.rendered_ids,
            row.mutation.target_memory_id,
        )
    }
}

fn mutation_itself(m: &ShadowMemoryMutationRow) -> (r: StoredMemoryMutation)
    ensures
        r@ == m@.mutation,
{
    m.mutation.dup()
}

// --- user memories --------------------------------------------------------------------

/// User memories by promotion, oldest first; equal times by number.
pub struct PromotionOrder;

impl RowOrder<UserMemoryRow> for PromotionOrder {
    open spec fn le(a: UserMemoryRowModel, b: UserMemoryRowModel) -> bool {
        a.promoted_at < b.promoted_at || (a.promoted_at == b.promoted_at && a.id <= b.id)
    }

    proof fn le_total(a: UserMemoryRowModel, b: UserMemoryRowModel) {
    }

    proof fn le_transitive(a: UserMemoryRowModel, b: UserMemoryRowModel, c: UserMemoryRowModel) {
    }

    fn at_most(a: &UserMemoryRow, b: &UserMemoryRow) -> (r: bool) {
        a.promoted_at < b.promoted_at || (a.promoted_at == b.promoted_at && a.id <= b.id)
    }
}

/// An active user memory.
pub open spec fn active_user_memory() -> spec_fn(UserMemoryRowModel) -> bool {
    |m: UserMemoryRowModel| m.status == "active"@
}

/// Accepts active user memories.
pub struct ActiveUserMemory;

impl RowTest<UserMemoryRow> for ActiveUserMemory {
    open spec fn accepts(&self) -> spec_fn(UserMemoryRowModel) -> bool {
        active_user_memory()
    }

    fn test(&self, row: &UserMemoryRow) -> (r: bool) {
        same_text(&row.status, "active")
    }
}

fn user_memory_content(m: &UserMemoryRow) -> (r: String)
    ensures
        r@ == m@.content,
{
    m.content.clone()
}

impl McStore {
    /// Reads the memories of the store, or of its shadow mirror.
    pub(crate) fn memory_briefs(&self, shadow: bool) -> (r: Vec<StoredMemory>)
        ensures
            views(r@) == memory_rows(self@, shadow),
    {
        if shadow {
            map_rows(
                &self.shadow_memories,
                read_shadow_brief,
                Ghost(|m: ShadowMemoryRowModel| shadow_brief(m)),
            )
        } else {
            map_rows(&self.memories, read_brief, Ghost(|m: StoredMemoryFullModel| brief(m)))
        }
    }

    fn read_rendered(
        &self,
        shadow: bool,
        project: &str,
        membership: Option<&WorkspaceMembership>,
        now_ms: i64,
    ) -> (r: Vec<StoredMemory>)
        ensures
            views(r@) == rendered_rows(self@, shadow, project@, seen_through(membership), now_ms),
    {
        let all = self.memory_briefs(shadow);
        sort_rows::<StoredMemory, RenderOrder>(
            select_rows(&all, &Rendered { project, membership, now_ms }),
        )
    }

    fn largest_memory(&self, shadow: bool, paths: &Vec<String>) -> (r: i64)
        ensures
            r == largest(memory_ids(self@, shadow, views(paths@))),
    {
        let all = self.memory_briefs(shadow);
        let ids = map_rows(
            &select_rows(&all, &MemoryIn { paths }),
            memory_number,
            Ghost(|m: StoredMemoryModel| m.id),
        );
        assert(views(ids@) =~= ids@);
        largest_of(&ids)
    }

    fn largest_mutation(&self, shadow: bool, paths: &Vec<String>) -> (r: i64)
        ensures
            r == largest(mutation_ids(self@, shadow, views(paths@))),
    {
        let kept = if shadow {
            select_rows(&self.shadow_mutations, &LoggedIn { paths })
        } else {
            select_rows(&self.mutations, &LoggedIn { paths })
        };
        let ids = map_rows(
            &kept,
            mutation_number,
            Ghost(|m: ShadowMemoryMutationRowModel| m.mutation.id),
        );
        assert(views(ids@) =~= ids@);
        largest_of(&ids)
    }

    /// Reads the live, unexpired memories of a project, most important first. The time is
    /// the caller's, so that a replay sees the memories that the first render saw.
    pub fn load_active_memories(&self, project_path: &str, now_ms: i64) -> (r: Vec<StoredMemory>)
        ensures
            views(r@) == rendered_rows(
                self@,
                shadow_path(project_path@),
                project_path@,
                None,
                now_ms,
            ),
    {
        self.read_rendered(is_shadow_project_path(project_path), project_path, None, now_ms)
    }

    /// Reads the memories that a project sees through its workspace, most important first.
    /// The read fails where the workspace is too large for one statement.
    pub fn load_workspace_union_memories(&self, membership: &WorkspaceMembership, now_ms: i64) -> (r:
        Result<Vec<StoredMemory>, McStoreError>)
        ensures
            ({
                let none = membership.union_identities@.len() == 0;
                match r {
                    Ok(rows) => {
                        &&& none || !sees_too_much(Some(membership@))
                        &&& views(rows@) == (if none {
                            Seq::empty()
                        } else {
                            rendered_rows(
                                self@,
                                shadow_path(membership@.own_identity),
                                membership@.own_identity,
                                Some(membership@),
                                now_ms,
                            )
                        })
                    },
                    Err(e) => {
                        &&& !none && sees_too_much(Some(membership@))
                        &&& e == McStoreError::Store(StoreError::TooManyValues)
                    },
                }
            }),
    {
        broadcast use group_views;

        if membership.union_identities.len() == 0 {
            return Ok(Vec::new());
        }
        if is_seeing_too_much(Some(membership)) {
            return Err(McStoreError::Store(StoreError::TooManyValues));
        }
        Ok(
            self.read_rendered(
                is_shadow_project_path(&membership.own_identity),
                &membership.own_identity,
                Some(membership),
                now_ms,
            ),
        )
    }

    /// Reads what a render of a project needs: its memories and the numbers that they go up
    /// to. The read fails where the workspace is too large for one statement.
    pub fn load_memory_render_snapshot(
        &self,
        project_path: &str,
        membership: Option<&WorkspaceMembership>,
        now_ms: i64,
    ) -> (r: Result<MemoryRenderSnapshot, McStoreError>)
        ensures
            match r {
                Ok(v) => {
                    &&& !snapshot_too_large(seen_through(membership))
                    &&& v@ == render_snapshot(
                        self@,
                        project_path@,
                        seen_through(membership),
                        now_ms,
                    )
                },
                Err(e) => {
                    &&& snapshot_too_large(seen_through(membership))
                    &&& e == McStoreError::Store(StoreError::TooManyValues)
                },
            },
    {
        broadcast use group_views;

        let shadow: bool = is_shadow_project_path(project_path);
        let project_paths: Vec<String> = match membership {
            Some(w) => list_dup(&w.union_identities),
            None => {
                let mut one: Vec<String> = Vec::new();
                one.push(owned(project_path));
                assert(views(one@) =~= seq![project_path@]);
                one
            },
        };
        if is_seeing_too_much(membership) || project_paths.len() > MAX_VALUES {
            return Err(McStoreError::Store(StoreError::TooManyValues));
        }
        let memories = self.read_rendered(shadow, project_path, membership, now_ms);
        let max_memory_id: i64 = self.largest_memory(shadow, &project_paths);
        let mutation_cursor: i64 = self.largest_mutation(shadow, &project_paths);
        Ok(
            MemoryRenderSnapshot {
                memories,
                revision: MemoryRevision { project_paths, max_memory_id, mutation_cursor },
            },
        )
    }

    /// The corrections to a rendered baseline: one per memory, of the log rows behind
    /// `after_id` that name a rendered memory. The read fails where the projects and the
    /// memories are too many for one statement.
    pub fn memory_mutations_for_render(
        &self,
        project_paths: &[String],
        after_id: i64,
        rendered_memory_ids: &[i64],
    ) -> (r: Result<Vec<StoredMemoryMutation>, McStoreError>)
        ensures
            ({
                let too_many = corrections_too_many(views(project_paths@), rendered_memory_ids@);
                match r {
                    Ok(rows) => {
                        &&& !too_many
                        &&& coalesced(
                            views(rows@),
                            corrections(
                                self@,
                                views(project_paths@),
                                after_id,
                                rendered_memory_ids@,
                            ),
                        )
                    },
                    Err(e) => {
                        &&& too_many
                        &&& e == McStoreError::Store(StoreError::TooManyValues)
                    },
                }
            }),
    {
        broadcast use group_views;

        let paths = paths_read(project_paths);
        if rendered_memory_ids.len() > 0 && project_paths.len() > 0 {
            let projects: usize = distinct_names(&paths).len();
            let memories: usize = sorted_ids(rendered_memory_ids).len();
            if projects > MAX_VALUES || memories > MAX_VALUES || projects + 1 + memories
                > MAX_VALUES {
                return Err(McStoreError::Store(StoreError::TooManyValues));
            }
        }
        let test = Correcting { paths: &paths, after_id, rendered_ids: rendered_memory_ids };
        let kept = if names_shadow(project_paths) {
            select_rows(&self.shadow_mutations, &test)
        } else {
            select_rows(&self.mutations, &test)
        };
        let rows = sort_rows::<StoredMemoryMutation, MutationOrder>(
            map_rows(
                &kept,
                mutation_itself,
                Ghost(|m: ShadowMemoryMutationRowModel| m.mutation),
            ),
        );
        Ok(coalesce_mutations(rows))
    }

    /// The largest number in the mutation log of some projects, zero where there is none. The
    /// read fails where the projects are too many for one statement.
    pub fn max_memory_mutation_id(&self, project_paths: &[String]) -> (r: Result<
        i64,
        McStoreError,
    >)
        ensures
            match r {
                Ok(id) => {
                    &&& !paths_too_many(views(project_paths@))
                    &&& id == largest(
                        mutation_ids(
                            self@,
                            some_shadow(views(project_paths@)),
                            read_paths(views(project_paths@)),
                        ),
                    )
                },
                Err(e) => {
                    &&& paths_too_many(views(project_paths@))
                    &&& e == McStoreError::Store(StoreError::TooManyValues)
                },
            },
    {
        broadcast use group_views;

        let paths = paths_read(project_paths);
        if distinct_names(&paths).len() > MAX_VALUES {
            return Err(McStoreError::Store(StoreError::TooManyValues));
        }
        Ok(self.largest_mutation(names_shadow(project_paths), &paths))
    }

    /// The largest number of a memory of some projects, zero where there is none. The read
    /// fails where the projects are too many for one statement.
    pub fn max_memory_id(&self, project_paths: &[String]) -> (r: Result<i64, McStoreError>)
        ensures
            match r {
                Ok(id) => {
                    &&& !paths_too_many(views(project_paths@))
                    &&& id == largest(
                        memory_ids(
                            self@,
                            some_shadow(views(project_paths@)),
                            read_paths(views(project_paths@)),
                        ),
                    )
                },
                Err(e) => {
                    &&& paths_too_many(views(project_paths@))
                    &&& e == McStoreError::Store(StoreError::TooManyValues)
                },
            },
    {
        broadcast use group_views;

        let paths = paths_read(project_paths);
        if distinct_names(&paths).len() > MAX_VALUES {
            return Err(McStoreError::Store(StoreError::TooManyValues));
        }
        Ok(self.largest_memory(names_shadow(project_paths), &paths))
    }

    /// The revision of the memories of exactly these projects.
    pub(crate) fn memory_revision_of(&self, project_paths: &Vec<String>) -> (r: (i64, i64))
        ensures
            r == stored_revision(self@, views(project_paths@)),
    {
        let shadow: bool = names_shadow(project_paths);
        (self.largest_memory(shadow, project_paths), self.largest_mutation(shadow, project_paths))
    }

    /// Reads what the active user memories say, oldest promotion first.
    pub fn load_active_user_memories(&self) -> (r: Vec<String>)
        ensures
            views(r@) == sorted::<UserMemoryRow, PromotionOrder>(
                keep_where(self@.user_memories, active_user_memory()),
            ).map_values(|m: UserMemoryRowModel| m.content),
    {
        map_rows(
            &sort_rows::<UserMemoryRow, PromotionOrder>(
                select_rows(&self.user_memories, &ActiveUserMemory),
            ),
            user_memory_content,
            Ghost(|m: UserMemoryRowModel| m.content),
        )
    }
}

/// Whether a read over some projects binds too many values.
pub open spec fn paths_too_many(paths: Seq<Seq<char>>) -> bool {
    each_once(read_paths(paths)).len() > MAX_VALUES
}

/// Whether a read of corrections binds too many values: the projects, the number to start
/// behind, and the memories. Without a project or a memory nothing is read.
pub open spec fn corrections_too_many(paths: Seq<Seq<char>>, rendered_ids: Seq<i64>) -> bool {
    rendered_ids.len() > 0 && paths.len() > 0 && each_once(read_paths(paths)).len() + 1
        + ascending(rendered_ids).len() > MAX_VALUES
}

/// Whether one of the reads of a snapshot binds too many values.
pub open spec fn snapshot_too_large(membership: Option<WorkspaceMembershipModel>) -> bool {
    sees_too_much(membership) || match membership {
        Some(w) => w.union_identities.len() > MAX_VALUES,
        None => false,
    }
}

/// The numbers that the memories and the log of exactly these projects go up to.
pub open spec fn stored_revision(s: McStoreModel, paths: Seq<Seq<char>>) -> (i64, i64) {
    (
        largest(memory_ids(s, some_shadow(paths), paths)),
        largest(mutation_ids(s, some_shadow(paths), paths)),
    )
}

/// What a render of a project reads.
pub open spec fn render_snapshot(
    s: McStoreModel,
    project: Seq<char>,
    membership: Option<WorkspaceMembershipModel>,
    now_ms: i64,
) -> MemoryRenderSnapshotModel {
    let shadow = shadow_path(project);
    let paths = match membership {
        Some(w) => w.union_identities,
        None => seq![project],
    };
    MemoryRenderSnapshotModel {
        memories: rendered_rows(s, shadow, project, membership, now_ms),
        revision: MemoryRevisionModel {
            project_paths: paths,
            max_memory_id: largest(memory_ids(s, shadow, paths)),
            mutation_cursor: largest(mutation_ids(s, shadow, paths)),
        },
    }
}

} // verus!

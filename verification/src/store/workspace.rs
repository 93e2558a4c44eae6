//! Workspaces: which projects read each other's memories, and which categories they share.

use vstd::prelude::*;
use vstd::utf8::encode_utf8;

use crate::json::{parse_strings, parsed_strings};
use crate::rows::{
    find_row, find_where, first_where, group_views, keep_where, list_dup, map_rows, select_rows,
    sort_rows, sorted, take_all, take_next, views, RowOrder, RowTest,
};
use crate::store::drops::commands_kept;
use crate::store::errors::{McStoreError, StoreError};
use crate::store::integrity::{member_added, well_formed, workspace_added};
use crate::store::records::{
    MemberName, MemberNameModel, WorkspaceMemberRow, WorkspaceMemberRowModel, WorkspaceMembership,
    WorkspaceMembershipModel, WorkspaceRow, WorkspaceRowModel,
};
use crate::store::{McStore, McStoreModel};
use crate::text::{
    decimal, owned, same_text, text_before, text_le, text_order_total, text_order_transitive,
    u64_text,
};

verus! {

/// The member row of a project.
pub open spec fn member_at(project: Seq<char>) -> spec_fn(WorkspaceMemberRowModel) -> bool {
    |m: WorkspaceMemberRowModel| m.project_path == project
}

/// The workspace with a number.
pub open spec fn workspace_numbered(id: i64) -> spec_fn(WorkspaceRowModel) -> bool {
    |w: WorkspaceRowModel| w.id == id
}

/// The workspace with a name.
pub open spec fn workspace_named(name: Seq<char>) -> spec_fn(WorkspaceRowModel) -> bool {
    |w: WorkspaceRowModel| w.name == name
}

/// A member of one workspace.
pub open spec fn in_workspace(id: i64) -> spec_fn(WorkspaceMemberRowModel) -> bool {
    |m: WorkspaceMemberRowModel| m.workspace_id == id
}

/// The workspace that a project belongs to.
pub open spec fn workspace_of(s: McStoreModel, project: Seq<char>) -> Option<WorkspaceRowModel> {
    match find_where(s.members, member_at(project)) {
        Some(m) => find_where(s.workspaces, workspace_numbered(m.workspace_id)),
        None => None,
    }
}

/// Member rows by project path.
pub struct MemberOrder;

impl RowOrder<WorkspaceMemberRow> for MemberOrder {
    open spec fn le(a: WorkspaceMemberRowModel, b: WorkspaceMemberRowModel) -> bool {
        text_le(a.project_path, b.project_path)
    }

    proof fn le_total(a: WorkspaceMemberRowModel, b: WorkspaceMemberRowModel) {
        text_order_total(a.project_path, b.project_path);
    }

    proof fn le_transitive(
        a: WorkspaceMemberRowModel,
        b: WorkspaceMemberRowModel,
        c: WorkspaceMemberRowModel,
    ) {
        text_order_transitive(a.project_path, b.project_path, c.project_path);
    }

    fn at_most(a: &WorkspaceMemberRow, b: &WorkspaceMemberRow) -> (r: bool) {
        proof {
            text_order_total(a@.project_path, b@.project_path);
        }
        !text_before(&b.project_path, &a.project_path)
    }
}

/// Texts by their characters.
pub struct TextOrder;

impl RowOrder<String> for TextOrder {
    open spec fn le(a: Seq<char>, b: Seq<char>) -> bool {
        text_le(a, b)
    }

    proof fn le_total(a: Seq<char>, b: Seq<char>) {
        text_order_total(a, b);
    }

    proof fn le_transitive(a: Seq<char>, b: Seq<char>, c: Seq<char>) {
        text_order_transitive(a, b, c);
    }

    fn at_most(a: &String, b: &String) -> (r: bool) {
        proof {
            text_order_total(a@, b@);
        }
        !text_before(b, a)
    }
}

/// The members of a workspace by project path.
pub open spec fn members_of(s: McStoreModel, id: i64) -> Seq<WorkspaceMemberRowModel> {
    sorted::<WorkspaceMemberRow, MemberOrder>(keep_where(s.members, in_workspace(id)))
}

/// What a project reads through its workspace.
pub open spec fn membership_of(s: McStoreModel, project: Seq<char>) -> Option<
    WorkspaceMembershipModel,
> {
    match workspace_of(s, project) {
        Some(w) => Some(
            WorkspaceMembershipModel {
                union_identities: members_of(s, w.id).map_values(
                    |m: WorkspaceMemberRowModel| member_path(m),
                ),
                own_identity: project,
                share_categories: match parsed_strings(w.share_categories) {
                    Some(list) => list,
                    None => Seq::empty(),
                },
                display_name_by_path: members_of(s, w.id).map_values(
                    |m: WorkspaceMemberRowModel| member_name(m),
                ),
            },
        ),
        None => None,
    }
}

/// The length of a text in bytes, a colon, the text and a semicolon.
pub open spec fn measured(text: Seq<char>) -> Seq<char> {
    decimal(encode_utf8(text).len()) + ":"@ + text + ";"@
}

/// All texts of a list, each measured and behind `tag`.
pub open spec fn measured_all(tag: Seq<char>, texts: Seq<Seq<char>>) -> Seq<char>
    decreases texts.len(),
{
    if texts.len() == 0 {
        Seq::empty()
    } else {
        measured_all(tag, texts.drop_last()) + tag + measured(texts.last())
    }
}

/// The fingerprint of a membership: its members by path and its shared categories by name,
/// each behind its length.
pub open spec fn fingerprint(m: WorkspaceMembershipModel) -> Seq<char> {
    "ws["@ + measured_all("m:"@, m.union_identities) + "|share:"@ + measured_all(
        Seq::empty(),
        sorted::<String, TextOrder>(m.share_categories),
    ) + "]"@
}

/// Memberships that differ only in the order of the shared categories have the same
/// fingerprint.
pub proof fn fingerprint_ignores_share_order(
    a: WorkspaceMembershipModel,
    b: WorkspaceMembershipModel,
)
    requires
        a.union_identities == b.union_identities,
        a.share_categories.to_multiset() == b.share_categories.to_multiset(),
    ensures
        fingerprint(a) == fingerprint(b),
{
    let x = sorted::<String, TextOrder>(a.share_categories);
    let y = sorted::<String, TextOrder>(b.share_categories);
    crate::rows::sorted_is_ordered::<String, TextOrder>(a.share_categories);
    crate::rows::sorted_is_ordered::<String, TextOrder>(b.share_categories);
    assert forall|p: Seq<char>, q: Seq<char>|
        #[trigger] TextOrder::le(p, q) && TextOrder::le(q, p) implies p == q by {
        text_order_total(p, q);
    }
    crate::rows::ordered_unique::<String, TextOrder>(x, y, a.share_categories);
}

/// Accepts the member row of one project.
pub struct MemberAt<'a> {
    pub project: &'a str,
}

impl<'a> RowTest<WorkspaceMemberRow> for MemberAt<'a> {
    open spec fn accepts(&self) -> spec_fn(WorkspaceMemberRowModel) -> bool {
        member_at(self.project@)
    }

    fn test(&self, row: &WorkspaceMemberRow) -> (r: bool) {
        same_text(&row.project_path, self.project)
    }
}

/// Accepts the members of one workspace.
pub struct InWorkspace {
    pub id: i64,
}

impl RowTest<WorkspaceMemberRow> for InWorkspace {
    open spec fn accepts(&self) -> spec_fn(WorkspaceMemberRowModel) -> bool {
        in_workspace(self.id)
    }

    fn test(&self, row: &WorkspaceMemberRow) -> (r: bool) {
        row.workspace_id == self.id
    }
}

/// Accepts the workspace with one number.
pub struct WorkspaceNumbered {
    pub id: i64,
}

impl RowTest<WorkspaceRow> for WorkspaceNumbered {
    open spec fn accepts(&self) -> spec_fn(WorkspaceRowModel) -> bool {
        workspace_numbered(self.id)
    }

    fn test(&self, row: &WorkspaceRow) -> (r: bool) {
        row.id == self.id
    }
}

/// Accepts the workspace with one name.
pub struct WorkspaceNamed<'a> {
    pub name: &'a str,
}

impl<'a> RowTest<WorkspaceRow> for WorkspaceNamed<'a> {
    open spec fn accepts(&self) -> spec_fn(WorkspaceRowModel) -> bool {
        workspace_named(self.name@)
    }

    fn test(&self, row: &WorkspaceRow) -> (r: bool) {
        same_text(&row.name, self.name)
    }
}

/// The path of a member.
pub open spec fn member_path(m: WorkspaceMemberRowModel) -> Seq<char> {
    m.project_path
}

/// The name of a member.
pub open spec fn member_name(m: WorkspaceMemberRowModel) -> MemberNameModel {
    MemberNameModel { project_path: m.project_path, display_name: m.display_name }
}

fn path_of(m: &WorkspaceMemberRow) -> (r: String)
    ensures
        r@ == member_path(m@),
{
    m.project_path.clone()
}

fn name_of(m: &WorkspaceMemberRow) -> (r: MemberName)
    ensures
        r@ == member_name(m@),
{
    MemberName { project_path: m.project_path.clone(), display_name: m.display_name.clone() }
}

fn append_measured(out: &mut String, tag: &str, texts: &Vec<String>)
    ensures
        final(out)@ == old(out)@ + measured_all(tag@, views(texts@)),
{
    broadcast use group_views;

    let ghost before = out@;
    let ghost all = views(texts@);
    let mut i: usize = 0;
    assert(before + measured_all(tag@, all.take(0)) =~= before);
    while i < texts.len()
        invariant
            i <= texts.len(),
            all == views(texts@),
            out@ == before + measured_all(tag@, all.take(i as int)),
        decreases texts.len() - i,
    {
        proof {
            take_next(all, i as int);
        }
        assert(all[i as int] == texts@[i as int]@);
        let length: usize = texts[i].as_str().as_bytes().len();
        out.append(tag);
        out.append(&u64_text(length as u64));
        out.append(":");
        out.append(&texts[i]);
        out.append(";");
        assert(out@ =~= before + measured_all(tag@, all.take(i + 1)));
        i += 1;
    }
    proof {
        take_all(all);
    }
}

impl McStore {
    /// Finds what a project reads through its workspace; nothing where it is in none.
    pub fn resolve_workspace_membership(&self, project_path: &str) -> (r: Option<
        WorkspaceMembership,
    >)
        ensures
            match r {
                Some(m) => membership_of(self@, project_path@) == Some(m@),
                None => membership_of(self@, project_path@) is None,
            },
    {
        broadcast use group_views;

        let at: usize = match find_row(&self.members, &MemberAt { project: project_path }) {
            Some(at) => at,
            None => {
                return None;
            },
        };
        let id: i64 = self.members[at].workspace_id;
        let found: usize = match find_row(&self.workspaces, &WorkspaceNumbered { id }) {
            Some(found) => found,
            None => {
                return None;
            },
        };
        let workspace = &self.workspaces[found];
        let rows = sort_rows::<WorkspaceMemberRow, MemberOrder>(
            select_rows(&self.members, &InWorkspace { id }),
        );
        assert(views(rows@) == members_of(self@, workspace.id));
        let union_identities = map_rows(
            &rows,
            path_of,
            Ghost(|m: WorkspaceMemberRowModel| member_path(m)),
        );
        let display_name_by_path = map_rows(
            &rows,
            name_of,
            Ghost(|m: WorkspaceMemberRowModel| member_name(m)),
        );
        let share_categories = match parse_strings(&workspace.share_categories) {
            Some(list) => list,
            None => Vec::new(),
        };
        Some(
            WorkspaceMembership {
                union_identities,
                own_identity: owned(project_path),
                share_categories,
                display_name_by_path,
            },
        )
    }

    /// A fingerprint of what a project reads through its workspace, empty where it is in
    /// none.
    pub fn workspace_fingerprint(&self, project_path: &str) -> (r: String)
        ensures
            r@ == (match membership_of(self@, project_path@) {
                Some(m) => fingerprint(m),
                None => Seq::empty(),
            }),
    {
        let m = match self.resolve_workspace_membership(project_path) {
            Some(m) => m,
            None => {
                let none: String = owned("");
                proof {
                    reveal_strlit("");
                    assert(none@ =~= Seq::empty());
                }
                return none;
            },
        };
        let shared = sort_rows::<String, TextOrder>(list_dup(&m.share_categories));
        let mut out = owned("ws[");
        append_measured(&mut out, "m:", &m.union_identities);
        out.append("|share:");
        proof {
            reveal_strlit("");
            assert(""@ =~= Seq::<char>::empty());
        }
        append_measured(&mut out, "", &shared);
        out.append("]");
        out
    }

    /// Adds a project to the workspace with a name; a new workspace shares what the given
    /// JSON text lists.
    pub fn seed_workspace_member(
        &mut self,
        workspace: &str,
        project_path: &str,
        share_categories_json: &str,
    ) -> (r: Result<(), McStoreError>)
        ensures
            ({
                let s = old(self)@;
                let known = find_where(s.workspaces, workspace_named(workspace@));
                let id = match known {
                    Some(w) => w.id,
                    None => (s.last_workspace_id + 1) as i64,
                };
                let free = first_where(s.members, member_at(project_path@)) is None;
                let numbered = known is Some || s.last_workspace_id < i64::MAX;
                match r {
                    Ok(_) => {
                        &&& free && numbered
                        &&& final(self)@ == (McStoreModel {
                            workspaces: if known is Some {
                                s.workspaces
                            } else {
                                s.workspaces.push(
                                    WorkspaceRowModel {
                                        id,
                                        name: workspace@,
                                        created_at: 0,
                                        updated_at: 0,
                                        share_categories: share_categories_json@,
                                    },
                                )
                            },
                            last_workspace_id: if known is Some {
                                s.last_workspace_id
                            } else {
                                id
                            },
                            members: s.members.push(
                                WorkspaceMemberRowModel {
                                    workspace_id: id,
                                    project_path: project_path@,
                                    display_name: project_path@,
                                    display_path: project_path@,
                                    added_at: 0,
                                },
                            ),
                            ..s
                        })
                    },
                    Err(e) => {
                        &&& !(free && numbered)
                        &&& e == McStoreError::Store(
                            if numbered {
                                StoreError::Constraint
                            } else {
                                StoreError::Exhausted
                            },
                        )
                        &&& final(self)@ == s
                    },
                }
            }),
            well_formed(old(self)@) ==> well_formed(final(self)@),
            commands_kept(old(self)@, final(self)@),
    {
        broadcast use group_views;

        let known: Option<usize> = find_row(&self.workspaces, &WorkspaceNamed { name: workspace });
        if known.is_none() && self.last_workspace_id == i64::MAX {
            return Err(McStoreError::Store(StoreError::Exhausted));
        }
        if find_row(&self.members, &MemberAt { project: project_path }).is_some() {
            return Err(McStoreError::Store(StoreError::Constraint));
        }
        let id: i64 = match known {
            Some(at) => self.workspaces[at].id,
            None => {
                let id: i64 = self.last_workspace_id + 1;
                proof {
                    if well_formed(self@) {
                        workspace_added(
                            self@,
                            WorkspaceRowModel {
                                id,
                                name: workspace@,
                                created_at: 0,
                                updated_at: 0,
                                share_categories: share_categories_json@,
                            },
                        );
                    }
                }
                self.workspaces.push(
                    WorkspaceRow {
                        id,
                        name: owned(workspace),
                        created_at: 0,
                        updated_at: 0,
                        share_categories: owned(share_categories_json),
                    },
                );
                self.last_workspace_id = id;
                id
            },
        };
        proof {
            if well_formed(old(self)@) {
                member_added(
                    self@,
                    WorkspaceMemberRowModel {
                        workspace_id: id,
                        project_path: project_path@,
                        display_name: project_path@,
                        display_path: project_path@,
                        added_at: 0,
                    },
                );
            }
        }
        self.members.push(
            WorkspaceMemberRow {
                workspace_id: id,
                project_path: owned(project_path),
                display_name: owned(project_path),
                display_path: owned(project_path),
                added_at: 0,
            },
        );
        Ok(())
    }
}

} // verus!

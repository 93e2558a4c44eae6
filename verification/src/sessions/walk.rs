//! Walking a directory for transcripts.

use vstd::prelude::*;

use crate::paths::{is_jsonl_name, jsonl_name};
use crate::rows::{group_views, list_names, opt_view, take_all, take_next, views, Row};
use crate::text::owned;

verus! {

/// Something in a directory.
#[derive(Debug, PartialEq, Eq)]
pub struct DirItem {
    pub path: String,
    pub name: String,
    pub is_dir: bool,
}

/// What a [`DirItem`] holds.
#[verifier::ext_equal]
pub struct DirItemModel {
    pub path: Seq<char>,
    pub name: Seq<char>,
    pub is_dir: bool,
}

impl View for DirItem {
    type V = DirItemModel;

    open spec fn view(&self) -> DirItemModel {
        DirItemModel { path: self.path@, name: self.name@, is_dir: self.is_dir }
    }
}

impl Row for DirItem {
    fn dup(&self) -> (r: Self) {
        DirItem { path: self.path.clone(), name: self.name.clone(), is_dir: self.is_dir }
    }

    fn same(&self, other: &Self) -> (r: bool) {
        self.path == other.path && self.name == other.name && self.is_dir == other.is_dir
    }
}

/// A walk under way: what is still to be looked at, the next at the end; the directories
/// that were entered; and the transcripts that were found.
#[derive(Debug, PartialEq, Eq)]
pub struct Walk {
    pub pending: Vec<DirItem>,
    pub visited: Vec<String>,
    pub files: Vec<String>,
}

/// What a [`Walk`] holds.
#[verifier::ext_equal]
pub struct WalkModel {
    pub pending: Seq<DirItemModel>,
    pub visited: Seq<Seq<char>>,
    pub files: Seq<Seq<char>>,
}

impl View for Walk {
    type V = WalkModel;

    open spec fn view(&self) -> WalkModel {
        WalkModel {
            pending: views(self.pending@),
            visited: views(self.visited@),
            files: views(self.files@),
        }
    }
}

/// The directory to look into next: the first among what is still to be looked at.
pub open spec fn next_dir(pending: Seq<DirItemModel>) -> Option<Seq<char>>
    decreases pending.len(),
{
    if pending.len() == 0 {
        None
    } else if pending.last().is_dir {
        Some(pending.last().path)
    } else {
        next_dir(pending.drop_last())
    }
}

/// What is still to be looked at behind that directory.
pub open spec fn behind_next(pending: Seq<DirItemModel>) -> Seq<DirItemModel>
    decreases pending.len(),
{
    if pending.len() == 0 {
        pending
    } else if pending.last().is_dir {
        pending.drop_last()
    } else {
        behind_next(pending.drop_last())
    }
}

/// The transcripts in front of that directory.
pub open spec fn files_before(pending: Seq<DirItemModel>) -> Seq<Seq<char>>
    decreases pending.len(),
{
    if pending.len() == 0 || pending.last().is_dir {
        Seq::empty()
    } else {
        let rest = files_before(pending.drop_last());
        if jsonl_name(pending.last().name) {
            seq![pending.last().path] + rest
        } else {
            rest
        }
    }
}

/// The walk after it went on to a directory.
pub open spec fn gone_on(walk: WalkModel) -> WalkModel {
    WalkModel {
        pending: behind_next(walk.pending),
        visited: walk.visited,
        files: walk.files + files_before(walk.pending),
    }
}

/// The walk after it entered a directory. One that was entered before is passed over.
pub open spec fn entered(walk: WalkModel, canonical: Seq<char>, items: Seq<DirItemModel>) ->
    WalkModel {
    if walk.visited.contains(canonical) {
        walk
    } else {
        WalkModel {
            pending: walk.pending + items.reverse(),
            visited: walk.visited.push(canonical),
            files: walk.files,
        }
    }
}

impl Walk {
    /// Begins a walk at a root.
    pub fn new(root: &str) -> (r: Self)
        ensures
            r@ == (WalkModel {
                pending: seq![DirItemModel { path: root@, name: Seq::empty(), is_dir: true }],
                visited: Seq::empty(),
                files: Seq::empty(),
            }),
    {
        broadcast use group_views;

        let mut pending: Vec<DirItem> = Vec::new();
        pending.push(DirItem { path: owned(root), name: String::new(), is_dir: true });
        Walk { pending, visited: Vec::new(), files: Vec::new() }
    }

    /// Goes on to the next directory, and collects the transcripts in front of it.
    pub fn next_directory(&mut self) -> (r: Option<String>)
        ensures
            opt_view(r) == next_dir(old(self)@.pending),
            final(self)@ == gone_on(old(self)@),
    {
        broadcast use group_views;

        let ghost before = self@;
        while self.pending.len() > 0
            invariant
                before == old(self)@,
                self@.visited == before.visited,
                next_dir(before.pending) == next_dir(self@.pending),
                behind_next(before.pending) == behind_next(self@.pending),
                before.files + files_before(before.pending) == self@.files + files_before(
                    self@.pending,
                ),
            decreases self.pending.len(),
        {
            let ghost now = self@;
            let ghost rows = self.pending@;
            match self.pending.pop() {
                Some(item) => {
                    assert(rows == self.pending@.push(item));
                    assert(now.pending == views(self.pending@).push(item@));
                    assert(now.pending.drop_last() =~= self@.pending);
                    assert(now.pending.last() == item@);
                    if item.is_dir {
                        assert(files_before(now.pending) == Seq::<Seq<char>>::empty());
                        assert(self@.files =~= before.files + files_before(before.pending));
                        return Some(item.path);
                    }
                    if is_jsonl_name(&item.name) {
                        let ghost behind = files_before(self@.pending);
                        self.files.push(item.path);
                        assert(now.files + (seq![item.path@] + behind) =~= self@.files + behind);
                    }
                },
                None => {},
            }
        }
        assert(self@.files =~= before.files + files_before(before.pending));
        None
    }

    /// Enters a directory with what it holds, in the order of its listing.
    pub fn enter_directory(&mut self, canonical: &str, items: &Vec<DirItem>)
        ensures
            final(self)@ == entered(old(self)@, canonical@, views(items@)),
    {
        broadcast use group_views;

        if list_names(&self.visited, canonical) {
            return;
        }
        let ghost before = self@;
        let ghost listed = views(items@).reverse();
        self.visited.push(owned(canonical));
        let mut i: usize = items.len();
        while i > 0
            invariant
                i <= items.len(),
                listed == views(items@).reverse(),
                self@.visited == before.visited.push(canonical@),
                self@.files == before.files,
                self@.pending == before.pending + listed.take(items.len() - i),
            decreases i,
        {
            i -= 1;
            proof {
                take_next(listed, (items.len() - i - 1) as int);
                assert(listed[(items.len() - i - 1) as int] == views(items@)[i as int]);
            }
            let ghost held = self@.pending;
            let item = items[i].dup();
            assert(item@ == views(items@)[i as int]);
            self.pending.push(item);
            assert(self@.pending == held.push(item@));
            assert(self@.pending =~= before.pending + listed.take(items.len() - i));
        }
        proof {
            take_all(listed);
        }
    }
}

/// A directory is entered once, whatever leads to it: what was entered holds no repeat.
pub proof fn no_directory_is_entered_twice(
    walk: WalkModel,
    canonical: Seq<char>,
    items: Seq<DirItemModel>,
)
    requires
        walk.visited.no_duplicates(),
    ensures
        entered(walk, canonical, items).visited.no_duplicates(),
        entered(walk, canonical, items).visited.contains(canonical),
        entered(entered(walk, canonical, items), canonical, items) == entered(
            walk,
            canonical,
            items,
        ),
{
    let after = entered(walk, canonical, items);
    if !walk.visited.contains(canonical) {
        assert(after.visited[walk.visited.len() as int] == canonical);
    }
}

} // verus!

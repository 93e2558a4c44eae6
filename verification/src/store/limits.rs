//! How much one statement over the tables may hold.

use vstd::prelude::*;

use crate::rows::{
    group_views, keep_where, list_names, select_rows, take_all, take_next, views, RowTest,
};
use crate::store::reading::seen_through;
use crate::store::records::{WorkspaceMembership, WorkspaceMembershipModel};
use crate::text::{chars_of, same_text};

verus! {

/// The most values that a statement binds.
pub const MAX_VALUES: usize = 32_766;

/// The most bytes that a search pattern has.
pub const MAX_PATTERN_BYTES: usize = 50_000;

/// The bytes of a character in UTF-8.
pub open spec fn utf8_width(c: char) -> nat {
    if c <= '\u{7f}' {
        1
    } else if c <= '\u{7ff}' {
        2
    } else if c <= '\u{ffff}' {
        3
    } else {
        4
    }
}

/// The bytes of a text in UTF-8.
pub open spec fn utf8_len(s: Seq<char>) -> nat
    decreases s.len(),
{
    if s.len() == 0 {
        0
    } else {
        utf8_len(s.drop_last()) + utf8_width(s.last())
    }
}

/// Whether a pattern is longer than a search takes.
pub open spec fn overlong(pattern: Seq<char>) -> bool {
    utf8_len(pattern) > MAX_PATTERN_BYTES
}

proof fn utf8_len_grows(s: Seq<char>, i: int)
    requires
        0 <= i <= s.len(),
    ensures
        utf8_len(s.take(i)) <= utf8_len(s),
    decreases s.len() - i,
{
    if i < s.len() {
        take_next(s, i);
        utf8_len_grows(s, i + 1);
    } else {
        take_all(s);
    }
}

/// Tests whether a pattern is longer than a search takes.
pub(crate) fn is_overlong(pattern: &str) -> (r: bool)
    ensures
        r == overlong(pattern@),
{
    let cs = chars_of(pattern);
    let mut n: usize = 0;
    let mut i: usize = 0;
    while i < cs.len()
        invariant
            i <= cs.len(),
            cs@ == pattern@,
            n == utf8_len(cs@.take(i as int)),
            n <= MAX_PATTERN_BYTES,
        decreases cs.len() - i,
    {
        proof {
            take_next(cs@, i as int);
        }
        let c = cs[i];
        n += if c <= '\u{7f}' {
            1
        } else if c <= '\u{7ff}' {
            2
        } else if c <= '\u{ffff}' {
            3
        } else {
            4
        };
        i += 1;
        if n > MAX_PATTERN_BYTES {
            proof {
                utf8_len_grows(cs@, i as int);
            }
            return true;
        }
    }
    proof {
        take_all(cs@);
    }
    false
}

/// The names of a list, each once.
pub open spec fn each_once(names: Seq<Seq<char>>) -> Seq<Seq<char>>
    decreases names.len(),
{
    if names.len() == 0 {
        Seq::empty()
    } else {
        let rest = each_once(names.drop_last());
        if rest.contains(names.last()) {
            rest
        } else {
            rest.push(names.last())
        }
    }
}

/// Reads the names of a list, each once.
pub(crate) fn distinct_names(names: &Vec<String>) -> (r: Vec<String>)
    ensures
        views(r@) == each_once(views(names@)),
{
    broadcast use group_views;

    let ghost given = views(names@);
    let mut r: Vec<String> = Vec::new();
    let mut i: usize = 0;
    while i < names.len()
        invariant
            i <= names.len(),
            given == views(names@),
            views(r@) == each_once(given.take(i as int)),
        decreases names.len() - i,
    {
        proof {
            take_next(given, i as int);
        }
        if !list_names(&r, &names[i]) {
            r.push(names[i].clone());
        }
        i += 1;
    }
    proof {
        take_all(given);
    }
    r
}

/// The members of a workspace other than the project itself.
pub open spec fn foreign_members(w: WorkspaceMembershipModel) -> Seq<Seq<char>> {
    keep_where(w.union_identities, |p: Seq<char>| p != w.own_identity)
}

/// The values that say which memories a project sees: the project, and in a workspace that
/// shares something the other members and the shared categories.
pub open spec fn seen_values(membership: Option<WorkspaceMembershipModel>) -> nat {
    match membership {
        Some(w) => if foreign_members(w).len() > 0 && w.share_categories.len() > 0 {
            1 + foreign_members(w).len() + w.share_categories.len()
        } else {
            1
        },
        None => 1,
    }
}

/// Whether a read of what a project sees, with one value more, binds too many.
pub open spec fn sees_too_much(membership: Option<WorkspaceMembershipModel>) -> bool {
    seen_values(membership) + 1 > MAX_VALUES
}

/// Accepts the members of a workspace other than the project itself.
pub struct ForeignMember<'a> {
    pub own: &'a str,
}

impl<'a> RowTest<String> for ForeignMember<'a> {
    open spec fn accepts(&self) -> spec_fn(Seq<char>) -> bool {
        |p: Seq<char>| p != self.own@
    }

    fn test(&self, row: &String) -> (r: bool) {
        !same_text(row, self.own)
    }
}

/// Tests whether a read of what a project sees, with one value more, binds too many.
pub(crate) fn is_seeing_too_much(membership: Option<&WorkspaceMembership>) -> (r: bool)
    ensures
        r == sees_too_much(seen_through(membership)),
{
    broadcast use group_views;

    match membership {
        Some(w) => {
            let test = ForeignMember { own: &w.own_identity };
            assert(test.accepts() =~= (|p: Seq<char>| p != w@.own_identity));
            let foreign = select_rows(&w.union_identities, &test);
            let shared: usize = w.share_categories.len();
            foreign.len() > 0 && shared > 0 && (foreign.len() > MAX_VALUES || shared > MAX_VALUES
                || foreign.len() + shared + 2 > MAX_VALUES)
        },
        None => false,
    }
}

} // verus!

//! Tables as lists of rows: models, copying, selecting and ordering.
//!
//! Every type that a table or a contract speaks of has a model: its view. The model of a
//! list is the list of its elements' models.

use vstd::prelude::*;
use vstd::seq_lib::group_to_multiset_ensures;

use crate::text::same_text;

verus! {

// --- models of lists and options ------------------------------------------------------

/// The models of a list of values.
pub open spec fn views<T: View>(s: Seq<T>) -> Seq<T::V> {
    s.map_values(|t: T| t@)
}

/// The model of an optional value.
pub open spec fn opt_view<T: View>(o: Option<T>) -> Option<T::V> {
    match o {
        Some(t) => Some(t@),
        None => None,
    }
}

/// The text of an optional borrowed string.
pub open spec fn opt_text(o: Option<&str>) -> Option<Seq<char>> {
    match o {
        Some(t) => Some(t@),
        None => None,
    }
}

pub broadcast proof fn views_push<T: View>(s: Seq<T>, x: T)
    ensures
        #[trigger] views(s.push(x)) == views(s).push(x@),
{
    assert(views(s.push(x)) =~= views(s).push(x@));
}

pub broadcast proof fn views_empty<T: View>()
    ensures
        #[trigger] views(Seq::<T>::empty()) == Seq::<T::V>::empty(),
{
    assert(views(Seq::<T>::empty()) =~= Seq::<T::V>::empty());
}

pub broadcast proof fn views_len<T: View>(s: Seq<T>)
    ensures
        #[trigger] views(s).len() == s.len(),
{
}

pub broadcast proof fn views_take<T: View>(s: Seq<T>, n: int)
    requires
        0 <= n <= s.len(),
    ensures
        #[trigger] views(s.take(n)) == views(s).take(n),
{
    assert(views(s.take(n)) =~= views(s).take(n));
}

pub broadcast proof fn views_update<T: View>(s: Seq<T>, n: int, x: T)
    requires
        0 <= n < s.len(),
    ensures
        #[trigger] views(s.update(n, x)) == views(s).update(n, x@),
{
    assert(views(s.update(n, x)) =~= views(s).update(n, x@));
}

pub broadcast proof fn views_insert<T: View>(s: Seq<T>, n: int, x: T)
    requires
        0 <= n <= s.len(),
    ensures
        #[trigger] views(s.insert(n, x)) == views(s).insert(n, x@),
{
    assert(views(s.insert(n, x)) =~= views(s).insert(n, x@));
}

pub broadcast proof fn views_add<T: View>(a: Seq<T>, b: Seq<T>)
    ensures
        #[trigger] views(a + b) == views(a) + views(b),
{
    assert(views(a + b) =~= views(a) + views(b));
}

pub broadcast group group_views {
    views_push,
    views_empty,
    views_len,
    views_take,
    views_update,
    views_insert,
    views_add,
}

/// One more element of a prefix.
pub proof fn take_next<A>(s: Seq<A>, n: int)
    requires
        0 <= n < s.len(),
    ensures
        s.take(n + 1) == s.take(n).push(s[n]),
        s.take(n + 1).drop_last() == s.take(n),
        s.take(n + 1).last() == s[n],
{
    assert(s.take(n + 1) =~= s.take(n).push(s[n]));
    assert(s.take(n + 1).drop_last() =~= s.take(n));
}

/// The whole list as a prefix.
pub proof fn take_all<A>(s: Seq<A>)
    ensures
        s.take(s.len() as int) == s,
{
    assert(s.take(s.len() as int) =~= s);
}

// --- rows -----------------------------------------------------------------------------

/// A value that can be copied and compared by its model.
pub trait Row: View + Sized {
    /// A copy.
    fn dup(&self) -> (r: Self)
        ensures
            r@ == self@,
    ;

    /// Compares two values.
    fn same(&self, other: &Self) -> (r: bool)
        ensures
            r == (self@ == other@),
    ;
}

impl Row for String {
    fn dup(&self) -> (r: Self) {
        self.clone()
    }

    fn same(&self, other: &Self) -> (r: bool) {
        *self == *other
    }
}

impl Row for i64 {
    fn dup(&self) -> (r: Self) {
        *self
    }

    fn same(&self, other: &Self) -> (r: bool) {
        *self == *other
    }
}

impl Row for i32 {
    fn dup(&self) -> (r: Self) {
        *self
    }

    fn same(&self, other: &Self) -> (r: bool) {
        *self == *other
    }
}

impl Row for u64 {
    fn dup(&self) -> (r: Self) {
        *self
    }

    fn same(&self, other: &Self) -> (r: bool) {
        *self == *other
    }
}

impl Row for u8 {
    fn dup(&self) -> (r: Self) {
        *self
    }

    fn same(&self, other: &Self) -> (r: bool) {
        *self == *other
    }
}

/// Copies an optional value.
pub fn opt_dup<T: Row>(o: &Option<T>) -> (r: Option<T>)
    ensures
        opt_view(r) == opt_view(*o),
{
    match o {
        Some(t) => Some(t.dup()),
        None => None,
    }
}

/// Compares two optional values.
pub fn opt_same<T: Row>(a: &Option<T>, b: &Option<T>) -> (r: bool)
    ensures
        r == (opt_view(*a) == opt_view(*b)),
{
    match (a, b) {
        (Some(x), Some(y)) => x.same(y),
        (None, None) => true,
        _ => false,
    }
}

/// Copies an optional text.
pub fn opt_owned(o: Option<&str>) -> (r: Option<String>)
    ensures
        opt_view(r) == opt_text(o),
{
    match o {
        Some(s) => Some(s.to_owned()),
        None => None,
    }
}

/// Copies a list.
pub fn list_dup<T: Row>(list: &Vec<T>) -> (r: Vec<T>)
    ensures
        views(r@) == views(list@),
{
    broadcast use group_views;

    let mut r: Vec<T> = Vec::new();
    let mut i: usize = 0;
    while i < list.len()
        invariant
            i <= list.len(),
            views(r@) == views(list@).take(i as int),
        decreases list.len() - i,
    {
        proof {
            take_next(views(list@), i as int);
        }
        r.push(list[i].dup());
        i += 1;
    }
    proof {
        take_all(views(list@));
    }
    r
}

/// Compares two lists.
pub fn list_same<T: Row>(a: &Vec<T>, b: &Vec<T>) -> (r: bool)
    ensures
        r == (views(a@) == views(b@)),
{
    if a.len() != b.len() {
        assert(views(a@).len() != views(b@).len());
        return false;
    }
    let mut i: usize = 0;
    while i < a.len()
        invariant
            a.len() == b.len(),
            i <= a.len(),
            forall|j: int| 0 <= j < i ==> (#[trigger] a@[j])@ == b@[j]@,
        decreases a.len() - i,
    {
        if !a[i].same(&b[i]) {
            assert(views(a@)[i as int] != views(b@)[i as int]);
            return false;
        }
        i += 1;
    }
    assert(views(a@) =~= views(b@));
    true
}

/// Looks a text up in a list of strings.
pub fn list_names(list: &Vec<String>, text: &str) -> (r: bool)
    ensures
        r == views(list@).contains(text@),
{
    let mut i: usize = 0;
    while i < list.len()
        invariant
            i <= list.len(),
            forall|j: int| 0 <= j < i ==> #[trigger] views(list@)[j] != text@,
        decreases list.len() - i,
    {
        if same_text(&list[i], text) {
            assert(views(list@)[i as int] == text@);
            return true;
        }
        i += 1;
    }
    false
}

/// Looks a number up in a list.
pub fn list_has(list: &Vec<i64>, n: i64) -> (r: bool)
    ensures
        r == list@.contains(n),
{
    let mut i: usize = 0;
    while i < list.len()
        invariant
            i <= list.len(),
            forall|j: int| 0 <= j < i ==> list@[j] != n,
        decreases list.len() - i,
    {
        if list[i] == n {
            return true;
        }
        i += 1;
    }
    false
}

// --- tables of session rows -----------------------------------------------------------

/// A row that belongs to one session.
#[derive(Debug, PartialEq, Eq)]
pub struct Keyed<T> {
    pub session_id: String,
    pub row: T,
}

/// What a [`Keyed`] row holds.
#[verifier::ext_equal]
pub struct KeyedModel<M> {
    pub session: Seq<char>,
    pub row: M,
}

impl<T: View> View for Keyed<T> {
    type V = KeyedModel<T::V>;

    open spec fn view(&self) -> KeyedModel<T::V> {
        KeyedModel { session: self.session_id@, row: self.row@ }
    }
}

impl<T: Row> Row for Keyed<T> {
    fn dup(&self) -> (r: Self) {
        Keyed { session_id: self.session_id.clone(), row: self.row.dup() }
    }

    fn same(&self, other: &Self) -> (r: bool) {
        self.session_id == other.session_id && self.row.same(&other.row)
    }
}

/// The rows of one session, in table order.
pub open spec fn of_session<M>(table: Seq<KeyedModel<M>>, session: Seq<char>) -> Seq<M>
    decreases table.len(),
{
    if table.len() == 0 {
        Seq::empty()
    } else {
        let rest = of_session(table.drop_last(), session);
        if table.last().session == session {
            rest.push(table.last().row)
        } else {
            rest
        }
    }
}

/// The table without the rows of one session.
pub open spec fn without_session<M>(table: Seq<KeyedModel<M>>, session: Seq<char>) -> Seq<
    KeyedModel<M>,
>
    decreases table.len(),
{
    if table.len() == 0 {
        Seq::empty()
    } else {
        let rest = without_session(table.drop_last(), session);
        if table.last().session == session {
            rest
        } else {
            rest.push(table.last())
        }
    }
}

/// The rows of `rows`, all owned by `session`.
pub open spec fn keyed_all<M>(session: Seq<char>, rows: Seq<M>) -> Seq<KeyedModel<M>> {
    rows.map_values(|m: M| KeyedModel { session, row: m })
}

/// Appending a table appends every session's rows.
pub proof fn of_session_concat<M>(a: Seq<KeyedModel<M>>, b: Seq<KeyedModel<M>>, session: Seq<char>)
    ensures
        of_session(a + b, session) == of_session(a, session) + of_session(b, session),
    decreases b.len(),
{
    if b.len() == 0 {
        assert(a + b == a);
        assert(of_session(a, session) + of_session(b, session) == of_session(a, session));
    } else {
        of_session_concat(a, b.drop_last(), session);
        assert((a + b).drop_last() == a + b.drop_last());
        assert(of_session(a + b, session) =~= of_session(a, session) + of_session(b, session));
    }
}

/// Appending one row.
pub proof fn of_session_push<M>(a: Seq<KeyedModel<M>>, k: KeyedModel<M>, session: Seq<char>)
    ensures
        of_session(a.push(k), session) == (if k.session == session {
            of_session(a, session).push(k.row)
        } else {
            of_session(a, session)
        }),
{
    assert(a.push(k).drop_last() == a);
}

/// Rows that all belong to one session are that session's rows, and no other's.
pub proof fn of_session_keyed_all<M>(owner: Seq<char>, rows: Seq<M>, session: Seq<char>)
    ensures
        of_session(keyed_all(owner, rows), session) == (if owner == session {
            rows
        } else {
            Seq::empty()
        }),
    decreases rows.len(),
{
    if rows.len() > 0 {
        of_session_keyed_all(owner, rows.drop_last(), session);
        assert(keyed_all(owner, rows).drop_last() =~= keyed_all(owner, rows.drop_last()));
        assert(rows.drop_last().push(rows.last()) =~= rows);
    } else {
        assert(keyed_all(owner, rows).len() == 0);
        assert(rows =~= Seq::empty());
    }
}

/// Removing one session empties it and leaves every other one as it was.
pub proof fn of_session_without<M>(table: Seq<KeyedModel<M>>, gone: Seq<char>, session: Seq<char>)
    ensures
        of_session(without_session(table, gone), session) == (if gone == session {
            Seq::empty()
        } else {
            of_session(table, session)
        }),
    decreases table.len(),
{
    if table.len() > 0 {
        of_session_without(table.drop_last(), gone, session);
        let rest = without_session(table.drop_last(), gone);
        if table.last().session != gone {
            of_session_push(rest, table.last(), session);
        }
    }
}

/// Reads the rows of one session.
pub fn session_rows<T: Row>(table: &Vec<Keyed<T>>, session: &str) -> (out: Vec<T>)
    ensures
        views(out@) == of_session(views(table@), session@),
{
    broadcast use group_views;

    let mut out: Vec<T> = Vec::new();
    let mut i: usize = 0;
    while i < table.len()
        invariant
            i <= table.len(),
            views(out@) == of_session(views(table@).take(i as int), session@),
        decreases table.len() - i,
    {
        proof {
            take_next(views(table@), i as int);
        }
        if same_text(&table[i].session_id, session) {
            out.push(table[i].row.dup());
        }
        i += 1;
    }
    proof {
        take_all(views(table@));
    }
    out
}

/// Drops the rows of one session.
pub fn remove_session<T: Row>(table: &mut Vec<Keyed<T>>, session: &str)
    ensures
        views(final(table)@) == without_session(views(old(table)@), session@),
{
    broadcast use group_views;

    let mut kept: Vec<Keyed<T>> = Vec::new();
    let mut i: usize = 0;
    while i < table.len()
        invariant
            i <= table.len(),
            table@ == old(table)@,
            views(kept@) == without_session(views(table@).take(i as int), session@),
        decreases table.len() - i,
    {
        proof {
            take_next(views(table@), i as int);
        }
        if !same_text(&table[i].session_id, session) {
            kept.push(table[i].dup());
        }
        i += 1;
    }
    proof {
        take_all(views(table@));
    }
    *table = kept;
}

/// Tests whether a session owns a row.
pub fn has_session<T: View>(table: &Vec<Keyed<T>>, session: &str) -> (r: bool)
    ensures
        r == (of_session(views(table@), session@).len() > 0),
{
    broadcast use group_views;

    let mut i: usize = 0;
    while i < table.len()
        invariant
            i <= table.len(),
            of_session(views(table@).take(i as int), session@).len() == 0,
        decreases table.len() - i,
    {
        proof {
            take_next(views(table@), i as int);
        }
        if same_text(&table[i].session_id, session) {
            proof {
                of_session_grows(views(table@), i + 1, session@);
            }
            return true;
        }
        i += 1;
    }
    proof {
        take_all(views(table@));
    }
    false
}

/// A prefix of the table holds no more of a session's rows than the table.
pub proof fn of_session_grows<M>(table: Seq<KeyedModel<M>>, n: int, session: Seq<char>)
    requires
        0 <= n <= table.len(),
    ensures
        of_session(table.take(n), session).len() <= of_session(table, session).len(),
{
    assert(table =~= table.take(n) + table.skip(n));
    of_session_concat(table.take(n), table.skip(n), session);
}

/// Appends rows to one session.
pub fn append_session<T: Row>(table: &mut Vec<Keyed<T>>, session: &str, rows: Vec<T>)
    ensures
        views(final(table)@) == views(old(table)@) + keyed_all(session@, views(rows@)),
{
    broadcast use group_views;

    let ghost before = views(table@);
    let ghost added = keyed_all(session@, views(rows@));
    let mut i: usize = 0;
    while i < rows.len()
        invariant
            i <= rows.len(),
            added == keyed_all(session@, views(rows@)),
            views(table@) == before + added.take(i as int),
        decreases rows.len() - i,
    {
        proof {
            take_next(added, i as int);
            assert(before + added.take(i as int).push(added[i as int]) =~= (before + added.take(
                i as int,
            )).push(added[i as int]));
        }
        table.push(Keyed { session_id: session.to_owned(), row: rows[i].dup() });
        i += 1;
    }
    proof {
        take_all(added);
    }
}

// --- tables with one row per session --------------------------------------------------

/// The place of a session's first row.
pub open spec fn session_index<M>(table: Seq<KeyedModel<M>>, session: Seq<char>) -> Option<int>
    decreases table.len(),
{
    if table.len() == 0 {
        None
    } else {
        match session_index(table.drop_last(), session) {
            Some(i) => Some(i),
            None => if table.last().session == session {
                Some(table.len() - 1)
            } else {
                None
            },
        }
    }
}

/// The row of a session, where a session has at most one.
pub open spec fn row_of<M>(table: Seq<KeyedModel<M>>, session: Seq<char>) -> Option<M> {
    match session_index(table, session) {
        Some(i) => Some(table[i].row),
        None => None,
    }
}

/// The table with the row of one session replaced, or appended where it had none.
pub open spec fn put_row<M>(table: Seq<KeyedModel<M>>, session: Seq<char>, row: M) -> Seq<
    KeyedModel<M>,
> {
    match session_index(table, session) {
        Some(i) => table.update(i, KeyedModel { session, row }),
        None => table.push(KeyedModel { session, row }),
    }
}

/// The place of a session's row is the first that carries the session's name.
pub proof fn session_index_first<M>(table: Seq<KeyedModel<M>>, session: Seq<char>)
    ensures
        session_index(table, session) matches Some(i) ==> 0 <= i < table.len() && table[i].session
            == session && (forall|j: int| 0 <= j < i ==> (#[trigger] table[j]).session != session),
        session_index(table, session) is None ==> (forall|j: int|
            0 <= j < table.len() ==> (#[trigger] table[j]).session != session),
    decreases table.len(),
{
    if table.len() > 0 {
        let rest = table.drop_last();
        session_index_first(rest, session);
        match session_index(rest, session) {
            Some(i) => {
                assert(table[i] == rest[i]);
                assert forall|j: int| 0 <= j < i implies (#[trigger] table[j]).session
                    != session by {
                    assert(table[j] == rest[j]);
                }
            },
            None => {
                assert forall|j: int| 0 <= j < rest.len() implies (#[trigger] table[j]).session
                    != session by {
                    assert(table[j] == rest[j]);
                }
            },
        }
    }
}

/// The first place that carries a session's name is the place of its row.
pub proof fn session_index_is<M>(table: Seq<KeyedModel<M>>, session: Seq<char>, at: int)
    requires
        0 <= at < table.len(),
        table[at].session == session,
        forall|j: int| 0 <= j < at ==> (#[trigger] table[j]).session != session,
    ensures
        session_index(table, session) == Some(at),
{
    session_index_first(table, session);
    match session_index(table, session) {
        Some(i) => {
            if i < at {
                assert(table[i].session != session);
            }
        },
        None => {
            assert(table[at].session != session);
        },
    }
}

/// What is put for a session is what it then holds; every other session keeps its row.
pub proof fn row_of_put<M>(table: Seq<KeyedModel<M>>, session: Seq<char>, row: M, other: Seq<char>)
    ensures
        row_of(put_row(table, session, row), session) == Some(row),
        other != session ==> row_of(put_row(table, session, row), other) == row_of(table, other),
{
    let after = put_row(table, session, row);
    session_index_first(table, session);
    match session_index(table, session) {
        Some(i) => {
            assert forall|j: int| 0 <= j < i implies (#[trigger] after[j]).session != session by {
                assert(after[j] == table[j]);
            }
            session_index_is(after, session, i);
        },
        None => {
            assert forall|j: int| 0 <= j < table.len() implies (#[trigger] after[j]).session
                != session by {
                assert(after[j] == table[j]);
            }
            session_index_is(after, session, table.len() as int);
        },
    }
    if other != session {
        session_index_first(table, other);
        session_index_first(after, other);
        match session_index(table, other) {
            Some(k) => {
                assert(after[k] == table[k]);
                assert forall|j: int| 0 <= j < k implies (#[trigger] after[j]).session != other by {
                    assert(table[j].session != other);
                }
                session_index_is(after, other, k);
            },
            None => {
                match session_index(after, other) {
                    Some(k) => {
                        assert(k < table.len());
                        assert(table[k].session == other);
                    },
                    None => {},
                }
            },
        }
    }
}

/// Finds the row of a session.
pub fn find_session<T: View>(table: &Vec<Keyed<T>>, session: &str) -> (r: Option<usize>)
    ensures
        r matches Some(i) ==> i < table.len() && session_index(views(table@), session@) == Some(
            i as int,
        ) && row_of(views(table@), session@) == Some(table@[i as int].row@),
        r is None ==> session_index(views(table@), session@) is None && row_of(
            views(table@),
            session@,
        ) is None,
{
    broadcast use group_views;

    let mut i: usize = 0;
    while i < table.len()
        invariant
            i <= table.len(),
            forall|j: int| 0 <= j < i ==> (#[trigger] views(table@)[j]).session != session@,
        decreases table.len() - i,
    {
        if same_text(&table[i].session_id, session) {
            proof {
                session_index_is(views(table@), session@, i as int);
            }
            return Some(i);
        }
        assert(views(table@)[i as int].session != session@);
        i += 1;
    }
    proof {
        session_index_first(views(table@), session@);
    }
    None
}

/// Puts the row of a session.
pub fn set_row<T: View>(table: &mut Vec<Keyed<T>>, session: &str, row: T)
    ensures
        views(final(table)@) == put_row(views(old(table)@), session@, row@),
{
    broadcast use group_views;

    match find_session(table, session) {
        Some(i) => {
            table.set(i, Keyed { session_id: session.to_owned(), row });
        },
        None => {
            table.push(Keyed { session_id: session.to_owned(), row });
        },
    }
}

// --- finding one row ------------------------------------------------------------------

/// The place of the first row that `p` accepts.
pub open spec fn first_where<M>(rows: Seq<M>, p: spec_fn(M) -> bool) -> Option<int>
    decreases rows.len(),
{
    if rows.len() == 0 {
        None
    } else {
        match first_where(rows.drop_last(), p) {
            Some(i) => Some(i),
            None => if p(rows.last()) {
                Some(rows.len() - 1)
            } else {
                None
            },
        }
    }
}

/// The first row that `p` accepts.
pub open spec fn find_where<M>(rows: Seq<M>, p: spec_fn(M) -> bool) -> Option<M> {
    match first_where(rows, p) {
        Some(i) => Some(rows[i]),
        None => None,
    }
}

/// The rows with the first that `p` accepts replaced, or `row` appended where there is none.
pub open spec fn put_where<M>(rows: Seq<M>, p: spec_fn(M) -> bool, row: M) -> Seq<M> {
    match first_where(rows, p) {
        Some(i) => rows.update(i, row),
        None => rows.push(row),
    }
}

/// The first accepted place is accepted, and no place before it is.
pub proof fn first_where_first<M>(rows: Seq<M>, p: spec_fn(M) -> bool)
    ensures
        first_where(rows, p) matches Some(i) ==> 0 <= i < rows.len() && p(rows[i]) && (forall|j: int|
            0 <= j < i ==> !p(#[trigger] rows[j])),
        first_where(rows, p) is None ==> (forall|j: int| 0 <= j < rows.len() ==> !p(#[trigger] rows[j])),
    decreases rows.len(),
{
    if rows.len() > 0 {
        let rest = rows.drop_last();
        first_where_first(rest, p);
        match first_where(rest, p) {
            Some(i) => {
                assert(rows[i] == rest[i]);
                assert forall|j: int| 0 <= j < i implies !p(#[trigger] rows[j]) by {
                    assert(rows[j] == rest[j]);
                }
            },
            None => {
                assert forall|j: int| 0 <= j < rest.len() implies !p(#[trigger] rows[j]) by {
                    assert(rows[j] == rest[j]);
                }
            },
        }
    }
}

/// An accepted place with none before it is the first.
pub proof fn first_where_is<M>(rows: Seq<M>, p: spec_fn(M) -> bool, at: int)
    requires
        0 <= at < rows.len(),
        p(rows[at]),
        forall|j: int| 0 <= j < at ==> !p(#[trigger] rows[j]),
    ensures
        first_where(rows, p) == Some(at),
{
    first_where_first(rows, p);
    match first_where(rows, p) {
        Some(i) => {
            if i < at {
                assert(!p(rows[i]));
            }
        },
        None => {
            assert(!p(rows[at]));
        },
    }
}

// --- selecting ------------------------------------------------------------------------

/// The rows that `p` accepts, in table order.
pub open spec fn keep_where<M>(rows: Seq<M>, p: spec_fn(M) -> bool) -> Seq<M>
    decreases rows.len(),
{
    if rows.len() == 0 {
        Seq::empty()
    } else {
        let rest = keep_where(rows.drop_last(), p);
        if p(rows.last()) {
            rest.push(rows.last())
        } else {
            rest
        }
    }
}

/// What is kept is accepted and comes from the rows.
pub proof fn kept_is_accepted<M>(rows: Seq<M>, p: spec_fn(M) -> bool)
    ensures
        forall|i: int|
            0 <= i < keep_where(rows, p).len() ==> p(#[trigger] keep_where(rows, p)[i])
                && rows.contains(keep_where(rows, p)[i]),
        keep_where(rows, p).len() <= rows.len(),
    decreases rows.len(),
{
    if rows.len() > 0 {
        let rest = rows.drop_last();
        kept_is_accepted(rest, p);
        assert forall|i: int| 0 <= i < keep_where(rows, p).len() implies p(
            #[trigger] keep_where(rows, p)[i],
        ) && rows.contains(keep_where(rows, p)[i]) by {
            if i < keep_where(rest, p).len() {
                let x = keep_where(rest, p)[i];
                let k = choose|k: int| 0 <= k < rest.len() && rest[k] == x;
                assert(rows[k] == x);
            } else {
                assert(rows[rows.len() - 1] == keep_where(rows, p)[i]);
            }
        }
    }
}

/// Every accepted row is kept.
pub proof fn accepted_is_kept<M>(rows: Seq<M>, p: spec_fn(M) -> bool, row: M)
    requires
        rows.contains(row),
        p(row),
    ensures
        keep_where(rows, p).contains(row),
    decreases rows.len(),
{
    let rest = rows.drop_last();
    let kept = keep_where(rows, p);
    if rows.last() == row {
        assert(kept[kept.len() - 1] == row);
    } else {
        let k = choose|k: int| 0 <= k < rows.len() && rows[k] == row;
        assert(rest[k] == row);
        accepted_is_kept(rest, p, row);
        let m = choose|m: int| 0 <= m < keep_where(rest, p).len() && keep_where(rest, p)[m] == row;
        assert(kept[m] == row);
    }
}

/// A test on rows of type `T`.
pub trait RowTest<T: View> {
    /// What the test accepts.
    spec fn accepts(&self) -> spec_fn(T::V) -> bool;

    /// Tests one row.
    fn test(&self, row: &T) -> (r: bool)
        ensures
            r == (self.accepts())(row@),
    ;
}

/// Reads the rows that a test accepts.
pub fn select_rows<T: Row, P: RowTest<T>>(rows: &Vec<T>, p: &P) -> (out: Vec<T>)
    ensures
        views(out@) == keep_where(views(rows@), p.accepts()),
{
    broadcast use group_views;

    let ghost given = views(rows@);
    let mut out: Vec<T> = Vec::new();
    let mut i: usize = 0;
    while i < rows.len()
        invariant
            i <= rows.len(),
            given == views(rows@),
            views(out@) == keep_where(given.take(i as int), p.accepts()),
        decreases rows.len() - i,
    {
        proof {
            take_next(given, i as int);
        }
        assert(given[i as int] == rows@[i as int]@);
        if p.test(&rows[i]) {
            out.push(rows[i].dup());
        }
        i += 1;
    }
    proof {
        take_all(given);
    }
    out
}

/// Finds the first row that a test accepts.
pub fn find_row<T: View, P: RowTest<T>>(rows: &Vec<T>, p: &P) -> (r: Option<usize>)
    ensures
        match r {
            Some(i) => {
                &&& i < rows.len()
                &&& first_where(views(rows@), p.accepts()) == Some(i as int)
                &&& find_where(views(rows@), p.accepts()) == Some(rows@[i as int]@)
                &&& (p.accepts())(rows@[i as int]@)
            },
            None => {
                &&& first_where(views(rows@), p.accepts()) is None
                &&& find_where(views(rows@), p.accepts()) is None
            },
        },
{
    let ghost all = views(rows@);
    let mut i: usize = 0;
    while i < rows.len()
        invariant
            i <= rows.len(),
            all == views(rows@),
            forall|j: int| 0 <= j < i ==> !(p.accepts())(#[trigger] all[j]),
        decreases rows.len() - i,
    {
        assert(all[i as int] == rows@[i as int]@);
        if p.test(&rows[i]) {
            proof {
                first_where_is(all, p.accepts(), i as int);
            }
            return Some(i);
        }
        i += 1;
    }
    proof {
        first_where_first(all, p.accepts());
    }
    None
}

/// Puts a row in place of the first that a test accepts, or behind all rows.
pub fn put_in<T: View, P: RowTest<T>>(rows: &mut Vec<T>, p: &P, row: T)
    ensures
        views(final(rows)@) == put_where(views(old(rows)@), p.accepts(), row@),
{
    broadcast use group_views;

    match find_row(rows, p) {
        Some(i) => {
            rows.set(i, row);
        },
        None => {
            rows.push(row);
        },
    }
}

/// Reads one column, or several, of every row.
pub(crate) fn map_rows<T: View, U: View, F: Fn(&T) -> U>(
    rows: &Vec<T>,
    column: F,
    Ghost(g): Ghost<spec_fn(T::V) -> U::V>,
) -> (out: Vec<U>)
    requires
        forall|t: &T| #[trigger] column.requires((t,)),
        forall|t: &T, u: U| #[trigger] column.ensures((t,), u) ==> u@ == g(t@),
    ensures
        views(out@) == views(rows@).map_values(g),
{
    broadcast use group_views;

    let ghost wanted = views(rows@).map_values(g);
    let mut out: Vec<U> = Vec::new();
    let mut i: usize = 0;
    while i < rows.len()
        invariant
            i <= rows.len(),
            wanted == views(rows@).map_values(g),
            forall|t: &T| #[trigger] column.requires((t,)),
            forall|t: &T, u: U| #[trigger] column.ensures((t,), u) ==> u@ == g(t@),
            views(out@) == wanted.take(i as int),
        decreases rows.len() - i,
    {
        proof {
            take_next(wanted, i as int);
        }
        assert(views(rows@)[i as int] == rows@[i as int]@);
        out.push(column(&rows[i]));
        i += 1;
    }
    proof {
        take_all(wanted);
    }
    out
}

/// The largest of some numbers, zero where there is none.
pub open spec fn largest(ids: Seq<i64>) -> i64
    decreases ids.len(),
{
    if ids.len() == 0 {
        0
    } else if ids.len() == 1 {
        ids[0]
    } else {
        let rest = largest(ids.drop_last());
        if rest >= ids.last() {
            rest
        } else {
            ids.last()
        }
    }
}

/// The largest number is one of them and bounds them all.
pub proof fn largest_bounds(ids: Seq<i64>)
    ensures
        forall|i: int| 0 <= i < ids.len() ==> #[trigger] ids[i] <= largest(ids),
        ids.len() > 0 ==> ids.contains(largest(ids)),
    decreases ids.len(),
{
    if ids.len() == 1 {
        assert(ids.contains(ids[0]));
    } else if ids.len() > 1 {
        let rest = ids.drop_last();
        largest_bounds(rest);
        assert forall|i: int| 0 <= i < ids.len() implies #[trigger] ids[i] <= largest(ids) by {
            if i < rest.len() {
                assert(rest[i] <= largest(rest));
            }
        }
        if largest(rest) >= ids.last() {
            let k = choose|k: int| 0 <= k < rest.len() && rest[k] == largest(rest);
            assert(ids[k] == largest(ids));
        } else {
            assert(ids[ids.len() - 1] == largest(ids));
        }
    }
}

/// Finds the largest of some numbers.
pub fn largest_of(ids: &Vec<i64>) -> (r: i64)
    ensures
        r == largest(ids@),
{
    if ids.len() == 0 {
        return 0;
    }
    let mut r: i64 = ids[0];
    let mut i: usize = 1;
    assert(ids@.take(1)[0] == ids@[0]);
    while i < ids.len()
        invariant
            1 <= i <= ids.len(),
            r == largest(ids@.take(i as int)),
        decreases ids.len() - i,
    {
        proof {
            take_next(ids@, i as int);
        }
        if ids[i] > r {
            r = ids[i];
        }
        i += 1;
    }
    proof {
        take_all(ids@);
    }
    r
}

/// The part of an ordered reading that starts behind `offset` rows and holds at most
/// `limit`.
pub open spec fn page<M>(rows: Seq<M>, offset: nat, limit: nat) -> Seq<M> {
    if offset >= rows.len() {
        Seq::empty()
    } else if offset + limit >= rows.len() {
        rows.subrange(offset as int, rows.len() as int)
    } else {
        rows.subrange(offset as int, (offset + limit) as int)
    }
}

/// Reads one page.
pub(crate) fn page_of<T: Row>(rows: &Vec<T>, offset: usize, limit: usize) -> (out: Vec<T>)
    ensures
        views(out@) == page(views(rows@), offset as nat, limit as nat),
{
    broadcast use group_views;

    let ghost given = views(rows@);
    let mut out: Vec<T> = Vec::new();
    if offset >= rows.len() {
        return out;
    }
    let mut i: usize = offset;
    while i < rows.len() && out.len() < limit
        invariant
            offset <= i <= rows.len(),
            given == views(rows@),
            out@.len() == i - offset,
            out@.len() <= limit,
            views(out@) == given.subrange(offset as int, i as int),
        decreases rows.len() - i,
    {
        assert(given.subrange(offset as int, i + 1) =~= given.subrange(
            offset as int,
            i as int,
        ).push(given[i as int]));
        out.push(rows[i].dup());
        i += 1;
    }
    out
}

/// Looks a text up in a list of strings.
pub fn slice_names(list: &[String], text: &str) -> (r: bool)
    ensures
        r == views(list@).contains(text@),
{
    let mut i: usize = 0;
    while i < list.len()
        invariant
            i <= list.len(),
            forall|j: int| 0 <= j < i ==> #[trigger] views(list@)[j] != text@,
        decreases list.len() - i,
    {
        if same_text(&list[i], text) {
            assert(views(list@)[i as int] == text@);
            return true;
        }
        i += 1;
    }
    false
}

/// Looks a number up in a list.
pub fn slice_has(ids: &[i64], id: i64) -> (r: bool)
    ensures
        r == ids@.contains(id),
{
    let mut i: usize = 0;
    while i < ids.len()
        invariant
            i <= ids.len(),
            forall|j: int| 0 <= j < i ==> ids@[j] != id,
        decreases ids.len() - i,
    {
        if ids[i] == id {
            return true;
        }
        i += 1;
    }
    false
}

/// Copies a list.
pub fn slice_dup<T: Row>(list: &[T]) -> (r: Vec<T>)
    ensures
        views(r@) == views(list@),
{
    broadcast use group_views;

    let ghost given = views(list@);
    let mut r: Vec<T> = Vec::new();
    let mut i: usize = 0;
    while i < list.len()
        invariant
            i <= list.len(),
            given == views(list@),
            views(r@) == given.take(i as int),
        decreases list.len() - i,
    {
        proof {
            take_next(given, i as int);
        }
        r.push(list[i].dup());
        i += 1;
    }
    proof {
        take_all(given);
    }
    r
}

// --- ordering -------------------------------------------------------------------------

/// An order in which rows of type `T` are read out.
pub trait RowOrder<T: View> {
    /// `a` may stand before `b`.
    spec fn le(a: T::V, b: T::V) -> bool;

    proof fn le_total(a: T::V, b: T::V)
        ensures
            Self::le(a, b) || Self::le(b, a),
    ;

    proof fn le_transitive(a: T::V, b: T::V, c: T::V)
        requires
            Self::le(a, b),
            Self::le(b, c),
        ensures
            Self::le(a, c),
    ;

    fn at_most(a: &T, b: &T) -> (r: bool)
        ensures
            r == Self::le(a@, b@),
    ;
}

/// Every row may stand before all later ones.
pub open spec fn in_order<T: View, O: RowOrder<T>>(s: Seq<T::V>) -> bool {
    forall|i: int, j: int| 0 <= i < j < s.len() ==> O::le(#[trigger] s[i], #[trigger] s[j])
}

/// `out` holds the rows of `rows`, each as often, in order.
pub open spec fn ordered_from<T: View, O: RowOrder<T>>(out: Seq<T::V>, rows: Seq<T::V>) -> bool {
    &&& in_order::<T, O>(out)
    &&& out.to_multiset() == rows.to_multiset()
}

/// Two ordered readings of the same rows agree when equal rank means equal rows.
pub proof fn ordered_unique<T: View, O: RowOrder<T>>(a: Seq<T::V>, b: Seq<T::V>, rows: Seq<T::V>)
    requires
        ordered_from::<T, O>(a, rows),
        ordered_from::<T, O>(b, rows),
        forall|x: T::V, y: T::V|
            rows.contains(x) && rows.contains(y) && #[trigger] O::le(x, y) && O::le(y, x) ==> x == y,
    ensures
        a == b,
    decreases a.len(),
{
    broadcast use group_to_multiset_ensures;

    assert(a.len() == a.to_multiset().len());
    assert(b.len() == b.to_multiset().len());
    if a.len() > 0 {
        let x = a.last();
        let y = b.last();
        assert(a.contains(a[a.len() - 1]));
        assert(b.contains(b[b.len() - 1]));
        assert(a.to_multiset().count(x) > 0);
        assert(b.to_multiset().count(x) > 0);
        assert(b.to_multiset().count(y) > 0);
        assert(a.to_multiset().count(y) > 0);
        assert(rows.to_multiset().count(x) > 0 && rows.to_multiset().count(y) > 0);
        assert(b.contains(x) && a.contains(y) && rows.contains(x) && rows.contains(y));
        let i = choose|i: int| 0 <= i < b.len() && b[i] == x;
        let j = choose|j: int| 0 <= j < a.len() && a[j] == y;
        O::le_total(x, x);
        O::le_total(y, y);
        assert(O::le(x, y)) by {
            if i < b.len() - 1 {
                assert(O::le(b[i], b[b.len() - 1]));
            }
        }
        assert(O::le(y, x)) by {
            if j < a.len() - 1 {
                assert(O::le(a[j], a[a.len() - 1]));
            }
        }
        assert(x == y);
        let a1 = a.drop_last();
        let b1 = b.drop_last();
        assert(a == a1.push(x));
        assert(b == b1.push(x));
        assert(a1.to_multiset() =~= a.to_multiset().remove(x));
        assert(b1.to_multiset() =~= b.to_multiset().remove(x));
        assert forall|p: T::V, q: T::V|
            a1.contains(p) && a1.contains(q) && #[trigger] O::le(p, q) && O::le(q, p) implies p
            == q by {
            assert(a.contains(p) && a.contains(q));
            assert(a.to_multiset().count(p) > 0 && a.to_multiset().count(q) > 0);
            assert(rows.to_multiset().count(p) > 0 && rows.to_multiset().count(q) > 0);
        }
        ordered_unique::<T, O>(a1, b1, a1);
    }
}

/// The ordered list with `row` placed behind every row that may stand before it.
pub open spec fn placed<T: View, O: RowOrder<T>>(s: Seq<T::V>, row: T::V) -> Seq<T::V>
    decreases s.len(),
{
    if s.len() == 0 || O::le(s.last(), row) {
        s.push(row)
    } else {
        placed::<T, O>(s.drop_last(), row).push(s.last())
    }
}

/// The rows in the order `O`; rows of equal rank keep their order.
pub open spec fn sorted<T: View, O: RowOrder<T>>(rows: Seq<T::V>) -> Seq<T::V>
    decreases rows.len(),
{
    if rows.len() == 0 {
        Seq::empty()
    } else {
        placed::<T, O>(sorted::<T, O>(rows.drop_last()), rows.last())
    }
}

proof fn placed_at<T: View, O: RowOrder<T>>(s: Seq<T::V>, row: T::V, at: int)
    requires
        0 <= at <= s.len(),
        forall|j: int| at <= j < s.len() ==> !O::le(#[trigger] s[j], row),
        at > 0 ==> O::le(s[at - 1], row),
    ensures
        placed::<T, O>(s, row) == s.insert(at, row),
    decreases s.len(),
{
    if at == s.len() {
        assert(s.insert(at, row) =~= s.push(row));
    } else {
        assert(!O::le(s[s.len() - 1], row));
        let rest = s.drop_last();
        assert forall|j: int| at <= j < rest.len() implies !O::le(#[trigger] rest[j], row) by {
            assert(rest[j] == s[j]);
        }
        placed_at::<T, O>(rest, row, at);
        assert(rest.insert(at, row).push(s.last()) =~= s.insert(at, row));
    }
}

proof fn placed_keeps_order<T: View, O: RowOrder<T>>(s: Seq<T::V>, row: T::V)
    requires
        in_order::<T, O>(s),
    ensures
        in_order::<T, O>(placed::<T, O>(s, row)),
        placed::<T, O>(s, row).to_multiset() == s.to_multiset().insert(row),
        forall|x: T::V|
            placed::<T, O>(s, row).contains(x) ==> #[trigger] s.contains(x) || x == row,
    decreases s.len(),
{
    broadcast use group_to_multiset_ensures;

    let done = placed::<T, O>(s, row);
    if s.len() == 0 || O::le(s.last(), row) {
        vstd::seq_lib::to_multiset_build(s, row);
        assert forall|i: int, j: int| 0 <= i < j < done.len() implies O::le(
            #[trigger] done[i],
            #[trigger] done[j],
        ) by {
            if j == s.len() && i < s.len() - 1 {
                O::le_transitive(s[i], s[s.len() - 1], row);
            }
        }
        assert forall|x: T::V| done.contains(x) implies #[trigger] s.contains(x) || x == row by {
            let k = choose|k: int| 0 <= k < done.len() && done[k] == x;
            if k < s.len() {
                assert(s[k] == x);
            }
        }
    } else {
        let rest = s.drop_last();
        let inner = placed::<T, O>(rest, row);
        placed_keeps_order::<T, O>(rest, row);
        O::le_total(s.last(), row);
        assert(s == rest.push(s.last()));
        vstd::seq_lib::to_multiset_build(rest, s.last());
        vstd::seq_lib::to_multiset_build(inner, s.last());
        assert(done.to_multiset() =~= s.to_multiset().insert(row));
        assert forall|i: int, j: int| 0 <= i < j < done.len() implies O::le(
            #[trigger] done[i],
            #[trigger] done[j],
        ) by {
            if j == done.len() - 1 {
                let x = inner[i];
                assert(inner.contains(x));
                assert(rest.contains(x) || x == row);
                if x != row {
                    let k = choose|k: int| 0 <= k < rest.len() && rest[k] == x;
                    assert(O::le(s[k], s[s.len() - 1]));
                }
            } else {
                assert(done[i] == inner[i] && done[j] == inner[j]);
            }
        }
        assert forall|x: T::V| done.contains(x) implies #[trigger] s.contains(x) || x == row by {
            let k = choose|k: int| 0 <= k < done.len() && done[k] == x;
            if k < inner.len() {
                assert(inner[k] == x);
                assert(inner.contains(x));
                if rest.contains(x) {
                    let m = choose|m: int| 0 <= m < rest.len() && rest[m] == x;
                    assert(s[m] == x);
                }
            } else {
                assert(s[s.len() - 1] == x);
            }
        }
    }
}

/// Sorting keeps every row, as often, and puts the rows in order.
pub proof fn sorted_is_ordered<T: View, O: RowOrder<T>>(rows: Seq<T::V>)
    ensures
        ordered_from::<T, O>(sorted::<T, O>(rows), rows),
    decreases rows.len(),
{
    broadcast use group_to_multiset_ensures;

    if rows.len() > 0 {
        let rest = rows.drop_last();
        sorted_is_ordered::<T, O>(rest);
        placed_keeps_order::<T, O>(sorted::<T, O>(rest), rows.last());
        assert(rows == rest.push(rows.last()));
        vstd::seq_lib::to_multiset_build(rest, rows.last());
    } else {
        assert(rows =~= Seq::empty());
    }
}

/// Sorting keeps the number of rows.
pub broadcast proof fn sorted_len<T: View, O: RowOrder<T>>(rows: Seq<T::V>)
    ensures
        #[trigger] sorted::<T, O>(rows).len() == rows.len(),
{
    broadcast use group_to_multiset_ensures;

    sorted_is_ordered::<T, O>(rows);
    assert(rows.to_multiset().len() == rows.len());
    assert(sorted::<T, O>(rows).to_multiset().len() == sorted::<T, O>(rows).len());
}

/// Sorting keeps the rows.
pub proof fn sorted_holds_the_same<T: View, O: RowOrder<T>>(rows: Seq<T::V>, row: T::V)
    ensures
        sorted::<T, O>(rows).contains(row) == rows.contains(row),
{
    broadcast use group_to_multiset_ensures;

    sorted_is_ordered::<T, O>(rows);
    assert(rows.contains(row) == (rows.to_multiset().count(row) > 0));
    assert(sorted::<T, O>(rows).contains(row) == (sorted::<T, O>(rows).to_multiset().count(row)
        > 0));
}

/// Reads rows out in the order `O`.
pub fn sort_rows<T: View, O: RowOrder<T>>(rows: Vec<T>) -> (out: Vec<T>)
    ensures
        views(out@) == sorted::<T, O>(views(rows@)),
{
    broadcast use group_views;

    let ghost given = views(rows@);
    let mut rest: Vec<T> = reversed(rows);
    let mut out: Vec<T> = Vec::new();
    let ghost mut done: int = 0;
    while rest.len() > 0
        invariant
            0 <= done <= given.len(),
            views(rest@) == given.skip(done).reverse(),
            views(out@) == sorted::<T, O>(given.take(done)),
        decreases rest.len(),
    {
        let ghost rest0 = rest@;
        let row = rest.pop().unwrap();
        let ghost s = views(out@);
        proof {
            assert(views(rest0).last() == row@);
            assert(given.skip(done).reverse().last() == given[done]);
            take_next(given, done);
            assert(views(rest@) =~= views(rest0).drop_last());
            assert(given.skip(done).reverse().drop_last() =~= given.skip(done + 1).reverse());
        }
        let mut at: usize = out.len();
        while at > 0 && !O::at_most(&out[at - 1], &row)
            invariant
                at <= out.len(),
                s == views(out@),
                forall|j: int| at <= j < s.len() ==> !O::le(#[trigger] s[j], row@),
            decreases at,
        {
            assert(s[at - 1] == out@[at - 1]@);
            at -= 1;
        }
        proof {
            if at > 0 {
                assert(s[at - 1] == out@[at - 1]@);
            }
            placed_at::<T, O>(s, row@, at as int);
            done = done + 1;
        }
        out.insert(at, row);
    }
    proof {
        assert(given.skip(done).len() == 0) by {
            assert(given.skip(done).reverse().len() == given.skip(done).len());
        }
        take_all(given);
    }
    out
}

/// Turns a list round.
fn reversed<T: View>(rows: Vec<T>) -> (out: Vec<T>)
    ensures
        views(out@) == views(rows@).skip(0).reverse(),
{
    broadcast use group_views;

    let ghost given = views(rows@);
    let mut rest: Vec<T> = rows;
    let mut out: Vec<T> = Vec::new();
    while rest.len() > 0
        invariant
            rest@.len() <= given.len(),
            views(rest@) == given.take(rest@.len() as int),
            views(out@) == given.skip(rest@.len() as int).reverse(),
        decreases rest.len(),
    {
        let ghost n = rest@.len() as int;
        let ghost rest0 = rest@;
        let row = rest.pop().unwrap();
        proof {
            assert(views(rest0)[n - 1] == row@);
            assert(views(rest@) =~= given.take(n - 1));
            assert(given.skip(n - 1).reverse() =~= given.skip(n).reverse().push(given[n - 1]));
        }
        out.push(row);
    }
    out
}

} // verus!

//! Keys of tables: what no two rows share, and how tables keep it so.

use vstd::prelude::*;

use crate::rows::{
    first_where, first_where_first, keep_where, kept_is_accepted, keyed_all, of_session, placed,
    put_row, put_where, session_index, session_index_first, sorted, without_session, KeyedModel,
    RowOrder,
};

verus! {

/// No two rows share a key.
pub open spec fn distinct<M, K>(rows: Seq<M>, key: spec_fn(M) -> K) -> bool {
    forall|i: int, j: int|
        0 <= i < j < rows.len() ==> key(#[trigger] rows[i]) != key(#[trigger] rows[j])
}

/// No row has a larger number than `last`.
pub open spec fn up_to_last<M>(rows: Seq<M>, number: spec_fn(M) -> i64, last: i64) -> bool {
    forall|i: int| 0 <= i < rows.len() ==> number(#[trigger] rows[i]) <= last
}

/// No row has the key.
pub open spec fn unused<M, K>(rows: Seq<M>, key: spec_fn(M) -> K, k: K) -> bool {
    forall|i: int| 0 <= i < rows.len() ==> key(#[trigger] rows[i]) != k
}

/// The key of a session's row: the session and the key within it.
pub open spec fn keyed<M, K>(key: spec_fn(M) -> K) -> spec_fn(KeyedModel<M>) -> (Seq<char>, K) {
    |r: KeyedModel<M>| (r.session, key(r.row))
}

/// The session of a row.
pub open spec fn session_key<M>() -> spec_fn(KeyedModel<M>) -> Seq<char> {
    |r: KeyedModel<M>| r.session
}

pub proof fn distinct_push<M, K>(rows: Seq<M>, key: spec_fn(M) -> K, row: M)
    requires
        distinct(rows, key),
        unused(rows, key, key(row)),
    ensures
        distinct(rows.push(row), key),
{
}

pub proof fn distinct_update<M, K>(rows: Seq<M>, key: spec_fn(M) -> K, at: int, row: M)
    requires
        distinct(rows, key),
        0 <= at < rows.len(),
        forall|i: int|
            0 <= i < rows.len() && i != at ==> key(#[trigger] rows[i]) != key(row),
    ensures
        distinct(rows.update(at, row), key),
{
    let after = rows.update(at, row);
    assert forall|i: int, j: int| 0 <= i < j < after.len() implies key(#[trigger] after[i]) != key(
        #[trigger] after[j],
    ) by {
        if i == at {
            assert(after[j] == rows[j]);
        } else if j == at {
            assert(after[i] == rows[i]);
        } else {
            assert(after[i] == rows[i] && after[j] == rows[j]);
        }
    }
}

pub proof fn distinct_put<M, K>(
    rows: Seq<M>,
    key: spec_fn(M) -> K,
    p: spec_fn(M) -> bool,
    row: M,
)
    requires
        distinct(rows, key),
        forall|r: M| #[trigger] p(r) == (key(r) == key(row)),
    ensures
        distinct(put_where(rows, p, row), key),
{
    first_where_first(rows, p);
    match first_where(rows, p) {
        Some(at) => {
            assert forall|i: int| 0 <= i < rows.len() && i != at implies key(#[trigger] rows[i])
                != key(row) by {
                assert(p(rows[at]));
                if i < at {
                    assert(key(rows[i]) != key(rows[at]));
                } else {
                    assert(key(rows[at]) != key(rows[i]));
                }
            }
            distinct_update(rows, key, at, row);
        },
        None => {
            assert forall|i: int| 0 <= i < rows.len() implies key(#[trigger] rows[i]) != key(
                row,
            ) by {
                assert(!p(rows[i]));
            }
            distinct_push(rows, key, row);
        },
    }
}

pub proof fn distinct_kept<M, K>(rows: Seq<M>, key: spec_fn(M) -> K, p: spec_fn(M) -> bool)
    requires
        distinct(rows, key),
    ensures
        distinct(keep_where(rows, p), key),
    decreases rows.len(),
{
    if rows.len() > 0 {
        let rest = rows.drop_last();
        assert forall|i: int, j: int| 0 <= i < j < rest.len() implies key(#[trigger] rest[i])
            != key(#[trigger] rest[j]) by {
            assert(rest[i] == rows[i] && rest[j] == rows[j]);
        }
        distinct_kept(rest, key, p);
        let kept = keep_where(rest, p);
        kept_is_accepted(rest, p);
        assert forall|i: int| 0 <= i < kept.len() implies key(#[trigger] kept[i]) != key(
            rows.last(),
        ) by {
            assert(rest.contains(kept[i]));
            let k = choose|k: int| 0 <= k < rest.len() && rest[k] == kept[i];
            assert(rows[k] == kept[i]);
            assert(key(rows[k]) != key(rows[rows.len() - 1]));
        }
        if p(rows.last()) {
            distinct_push(kept, key, rows.last());
        }
    }
}

pub proof fn up_to_last_kept<M>(
    rows: Seq<M>,
    number: spec_fn(M) -> i64,
    last: i64,
    p: spec_fn(M) -> bool,
)
    requires
        up_to_last(rows, number, last),
    ensures
        up_to_last(keep_where(rows, p), number, last),
{
    let kept = keep_where(rows, p);
    kept_is_accepted(rows, p);
    assert forall|i: int| 0 <= i < kept.len() implies number(#[trigger] kept[i]) <= last by {
        assert(rows.contains(kept[i]));
        let k = choose|k: int| 0 <= k < rows.len() && rows[k] == kept[i];
        assert(number(rows[k]) <= last);
    }
}

pub proof fn distinct_concat<M, K>(a: Seq<M>, b: Seq<M>, key: spec_fn(M) -> K)
    requires
        distinct(a, key),
        distinct(b, key),
        forall|i: int, j: int|
            0 <= i < a.len() && 0 <= j < b.len() ==> key(#[trigger] a[i]) != key(#[trigger] b[j]),
    ensures
        distinct(a + b, key),
{
    let all = a + b;
    assert forall|i: int, j: int| 0 <= i < j < all.len() implies key(#[trigger] all[i]) != key(
        #[trigger] all[j],
    ) by {
        if j < a.len() {
            assert(all[i] == a[i] && all[j] == a[j]);
        } else if i >= a.len() {
            assert(all[i] == b[i - a.len()] && all[j] == b[j - a.len()]);
        } else {
            assert(all[i] == a[i] && all[j] == b[j - a.len()]);
        }
    }
}

/// The rows of other sessions are those that are kept when a session's go.
pub proof fn without_session_is_kept<M>(table: Seq<KeyedModel<M>>, session: Seq<char>)
    ensures
        without_session(table, session) == keep_where(
            table,
            |k: KeyedModel<M>| k.session != session,
        ),
    decreases table.len(),
{
    let p = |k: KeyedModel<M>| k.session != session;
    if table.len() > 0 {
        without_session_is_kept(table.drop_last(), session);
    } else {
        assert(without_session(table, session) =~= keep_where(table, p));
    }
}

pub proof fn distinct_without<M, K>(
    table: Seq<KeyedModel<M>>,
    key: spec_fn(KeyedModel<M>) -> K,
    session: Seq<char>,
)
    requires
        distinct(table, key),
    ensures
        distinct(without_session(table, session), key),
{
    without_session_is_kept(table, session);
    distinct_kept(table, key, |k: KeyedModel<M>| k.session != session);
}

pub proof fn distinct_put_row<M>(table: Seq<KeyedModel<M>>, session: Seq<char>, row: M)
    requires
        distinct(table, session_key()),
    ensures
        distinct(put_row(table, session, row), session_key()),
{
    let key = session_key::<M>();
    let new = KeyedModel { session, row };
    session_index_first(table, session);
    match session_index(table, session) {
        Some(at) => {
            assert forall|i: int| 0 <= i < table.len() && i != at implies key(#[trigger] table[i])
                != key(new) by {
                if i < at {
                    assert(table[i].session != session);
                } else {
                    assert(key(table[at]) != key(table[i]));
                }
            }
            distinct_update(table, key, at, new);
        },
        None => {
            distinct_push(table, key, new);
        },
    }
}

/// A row of a session is among the session's rows.
pub proof fn of_session_holds<M>(table: Seq<KeyedModel<M>>, session: Seq<char>, at: int)
    requires
        0 <= at < table.len(),
        table[at].session == session,
    ensures
        of_session(table, session).contains(table[at].row),
    decreases table.len(),
{
    let rest = of_session(table.drop_last(), session);
    let all = of_session(table, session);
    if at == table.len() - 1 {
        assert(all[all.len() - 1] == table[at].row);
    } else {
        assert(table.drop_last()[at] == table[at]);
        of_session_holds(table.drop_last(), session, at);
        let k = choose|k: int| 0 <= k < rest.len() && rest[k] == table[at].row;
        assert(all[k] == table[at].row);
    }
}

/// A session's rows come from the table.
pub proof fn of_session_comes_from<M>(table: Seq<KeyedModel<M>>, session: Seq<char>, n: int)
    requires
        0 <= n < of_session(table, session).len(),
    ensures
        exists|i: int|
            0 <= i < table.len() && #[trigger] table[i] == (KeyedModel {
                session,
                row: of_session(table, session)[n],
            }),
    decreases table.len(),
{
    if table.len() > 0 {
        let rest = table.drop_last();
        let less = of_session(rest, session);
        if n < less.len() {
            of_session_comes_from(rest, session, n);
            let i = choose|i: int|
                0 <= i < rest.len() && #[trigger] rest[i] == (KeyedModel {
                    session,
                    row: less[n],
                });
            assert(table[i] == rest[i]);
        } else {
            assert(table[table.len() - 1] == (KeyedModel { session, row: table.last().row }));
        }
    }
}

pub proof fn distinct_in_session<M, K>(
    table: Seq<KeyedModel<M>>,
    key: spec_fn(M) -> K,
    session: Seq<char>,
)
    requires
        distinct(table, keyed(key)),
    ensures
        distinct(of_session(table, session), key),
    decreases table.len(),
{
    if table.len() > 0 {
        let rest = table.drop_last();
        assert forall|i: int, j: int| 0 <= i < j < rest.len() implies keyed(key)(
            #[trigger] rest[i],
        ) != keyed(key)(#[trigger] rest[j]) by {
            assert(rest[i] == table[i] && rest[j] == table[j]);
        }
        distinct_in_session(rest, key, session);
        if table.last().session == session {
            let rows = of_session(rest, session);
            assert forall|n: int| 0 <= n < rows.len() implies key(#[trigger] rows[n]) != key(
                table.last().row,
            ) by {
                of_session_comes_from(rest, session, n);
                let i = choose|i: int|
                    0 <= i < rest.len() && #[trigger] rest[i] == (KeyedModel {
                        session,
                        row: rows[n],
                    });
                assert(table[i] == rest[i]);
                assert(keyed(key)(table[i]) != keyed(key)(table[table.len() - 1]));
            }
            distinct_push(rows, key, table.last().row);
        }
    }
}

/// A table stays distinct where rows are appended that are distinct among themselves and
/// from those that their session has.
pub proof fn distinct_append<M, K>(
    table: Seq<KeyedModel<M>>,
    key: spec_fn(M) -> K,
    session: Seq<char>,
    rows: Seq<M>,
)
    requires
        distinct(table, keyed(key)),
        distinct(of_session(table, session) + rows, key),
    ensures
        distinct(table + keyed_all(session, rows), keyed(key)),
{
    let had = of_session(table, session);
    let all = had + rows;
    let added = keyed_all(session, rows);
    assert forall|i: int, j: int| 0 <= i < j < added.len() implies keyed(key)(#[trigger] added[i])
        != keyed(key)(#[trigger] added[j]) by {
        assert(all[had.len() + i] == rows[i] && all[had.len() + j] == rows[j]);
    }
    assert forall|i: int, j: int| 0 <= i < table.len() && 0 <= j < added.len() implies keyed(key)(
        #[trigger] table[i],
    ) != keyed(key)(#[trigger] added[j]) by {
        if table[i].session == session {
            of_session_holds(table, session, i);
            let k = choose|k: int| 0 <= k < had.len() && had[k] == table[i].row;
            assert(all[k] == had[k] && all[had.len() + j] == rows[j]);
            assert(key(all[k]) != key(all[had.len() + j]));
        }
    }
    distinct_concat(table, added, keyed(key));
}

proof fn distinct_placed<T: View, O: RowOrder<T>, K>(
    s: Seq<T::V>,
    row: T::V,
    key: spec_fn(T::V) -> K,
)
    requires
        distinct(s, key),
        unused(s, key, key(row)),
    ensures
        distinct(placed::<T, O>(s, row), key),
        forall|k: K| k != key(row) && #[trigger] unused(s, key, k) ==> unused(
            placed::<T, O>(s, row),
            key,
            k,
        ),
    decreases s.len(),
{
    if s.len() == 0 || O::le(s.last(), row) {
        distinct_push(s, key, row);
    } else {
        let rest = s.drop_last();
        assert forall|i: int, j: int| 0 <= i < j < rest.len() implies key(#[trigger] rest[i])
            != key(#[trigger] rest[j]) by {
            assert(rest[i] == s[i] && rest[j] == s[j]);
        }
        assert forall|i: int| 0 <= i < rest.len() implies key(#[trigger] rest[i]) != key(row) by {
            assert(rest[i] == s[i]);
        }
        distinct_placed::<T, O, K>(rest, row, key);
        let inner = placed::<T, O>(rest, row);
        assert(unused(rest, key, key(s.last()))) by {
            assert forall|i: int| 0 <= i < rest.len() implies key(#[trigger] rest[i]) != key(
                s.last(),
            ) by {
                assert(rest[i] == s[i]);
                assert(key(s[i]) != key(s[s.len() - 1]));
            }
        }
        assert(key(s[s.len() - 1]) != key(row));
        distinct_push(inner, key, s.last());
        let done = placed::<T, O>(s, row);
        assert forall|k: K| k != key(row) && #[trigger] unused(s, key, k) implies unused(
            done,
            key,
            k,
        ) by {
            assert(unused(rest, key, k)) by {
                assert forall|i: int| 0 <= i < rest.len() implies key(#[trigger] rest[i])
                    != k by {
                    assert(rest[i] == s[i]);
                }
            }
            assert(unused(inner, key, k));
            assert(key(s[s.len() - 1]) != k);
            assert forall|i: int| 0 <= i < done.len() implies key(#[trigger] done[i]) != k by {
                if i < inner.len() {
                    assert(done[i] == inner[i]);
                }
            }
        }
    }
}

/// Sorting keeps rows distinct.
pub proof fn distinct_sorted<T: View, O: RowOrder<T>, K>(rows: Seq<T::V>, key: spec_fn(T::V) -> K)
    requires
        distinct(rows, key),
    ensures
        distinct(sorted::<T, O>(rows), key),
        forall|k: K| #[trigger] unused(rows, key, k) ==> unused(sorted::<T, O>(rows), key, k),
    decreases rows.len(),
{
    if rows.len() > 0 {
        let rest = rows.drop_last();
        assert forall|i: int, j: int| 0 <= i < j < rest.len() implies key(#[trigger] rest[i])
            != key(#[trigger] rest[j]) by {
            assert(rest[i] == rows[i] && rest[j] == rows[j]);
        }
        distinct_sorted::<T, O, K>(rest, key);
        assert(unused(rest, key, key(rows.last()))) by {
            assert forall|i: int| 0 <= i < rest.len() implies key(#[trigger] rest[i]) != key(
                rows.last(),
            ) by {
                assert(rest[i] == rows[i]);
                assert(key(rows[i]) != key(rows[rows.len() - 1]));
            }
        }
        distinct_placed::<T, O, K>(sorted::<T, O>(rest), rows.last(), key);
        assert forall|k: K| #[trigger] unused(rows, key, k) implies unused(
            sorted::<T, O>(rows),
            key,
            k,
        ) by {
            assert(unused(rest, key, k)) by {
                assert forall|i: int| 0 <= i < rest.len() implies key(#[trigger] rest[i])
                    != k by {
                    assert(rest[i] == rows[i]);
                }
            }
            assert(key(rows[rows.len() - 1]) != k);
            assert(unused(sorted::<T, O>(rest), key, k));
        }
    }
}

} // verus!

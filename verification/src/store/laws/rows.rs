//! What readings of rows are for.

use vstd::prelude::*;

use crate::rows::{
    accepted_is_kept, find_where, first_where, first_where_first, first_where_is, in_order,
    keep_where, kept_is_accepted, page, put_where, sorted, sorted_holds_the_same, sorted_is_ordered,
    sorted_len, RowOrder,
};

verus! {

/// A reading of accepted rows in an order holds exactly the accepted rows, in that order.
pub proof fn a_reading_holds_what_is_accepted<T: View, O: RowOrder<T>>(
    rows: Seq<T::V>,
    p: spec_fn(T::V) -> bool,
    row: T::V,
)
    ensures
        sorted::<T, O>(keep_where(rows, p)).contains(row) == (rows.contains(row) && p(row)),
        in_order::<T, O>(sorted::<T, O>(keep_where(rows, p))),
        sorted::<T, O>(keep_where(rows, p)).len() == keep_where(rows, p).len(),
{
    let kept = keep_where(rows, p);
    sorted_holds_the_same::<T, O>(kept, row);
    sorted_is_ordered::<T, O>(kept);
    sorted_len::<T, O>(kept);
    kept_is_accepted(rows, p);
    if kept.contains(row) {
        let i = choose|i: int| 0 <= i < kept.len() && kept[i] == row;
        assert(p(kept[i]));
    }
    if rows.contains(row) && p(row) {
        accepted_is_kept(rows, p, row);
    }
}

/// Rows that are kept are taken one by one, in their order: those of a longer table are those
/// of its first part and behind them those of the rest.
pub proof fn rows_are_kept_one_by_one<M>(a: Seq<M>, b: Seq<M>, p: spec_fn(M) -> bool)
    ensures
        keep_where(a + b, p) == keep_where(a, p) + keep_where(b, p),
        forall|x: M| #[trigger]
            keep_where(seq![x], p) == (if p(x) {
                seq![x]
            } else {
                Seq::empty()
            }),
    decreases b.len(),
{
    if b.len() == 0 {
        assert(a + b =~= a);
        assert(keep_where(a, p) + keep_where(b, p) =~= keep_where(a, p));
    } else {
        rows_are_kept_one_by_one(a, b.drop_last(), p);
        assert((a + b).drop_last() =~= a + b.drop_last());
        assert(keep_where(a + b, p) =~= keep_where(a, p) + keep_where(b, p));
    }
    assert forall|x: M| #[trigger] keep_where(seq![x], p) == (if p(x) {
        seq![x]
    } else {
        Seq::empty()
    }) by {
        assert(seq![x].drop_last() =~= Seq::<M>::empty());
        assert(keep_where(Seq::<M>::empty(), p) =~= Seq::empty());
        assert(keep_where(seq![x], p) =~= (if p(x) {
            seq![x]
        } else {
            Seq::empty()
        }));
    }
}

/// A page shows the rows behind its offset, in order, as many as there are up to the limit.
pub proof fn a_page_shows_its_rows<M>(rows: Seq<M>, offset: nat, limit: nat)
    ensures
        ({
            let shown = page(rows, offset, limit);
            &&& shown.len() <= limit
            &&& shown.len() < limit ==> offset + shown.len() >= rows.len()
            &&& forall|i: int|
                0 <= i < shown.len() ==> offset + i < rows.len() && #[trigger] shown[i]
                    == rows[offset + i]
        }),
{
}

/// A row that is put where others like it are looked for is what is then found there, and
/// what is found elsewhere stays.
pub proof fn what_is_put_is_found<M>(
    rows: Seq<M>,
    p: spec_fn(M) -> bool,
    row: M,
    q: spec_fn(M) -> bool,
)
    requires
        p(row),
    ensures
        find_where(put_where(rows, p, row), p) == Some(row),
        !q(row) && (forall|x: M| #[trigger] p(x) ==> !q(x)) ==> find_where(
            put_where(rows, p, row),
            q,
        ) == find_where(rows, q),
{
    let after = put_where(rows, p, row);
    first_where_first(rows, p);
    first_where_first(rows, q);
    first_where_first(after, q);
    let at = match first_where(rows, p) {
        Some(i) => i,
        None => rows.len() as int,
    };
    assert forall|j: int| 0 <= j < at implies !p(#[trigger] after[j]) by {
        assert(after[j] == rows[j]);
    }
    first_where_is(after, p, at);
    if !q(row) && (forall|x: M| #[trigger] p(x) ==> !q(x)) {
        match first_where(rows, q) {
            Some(k) => {
                if k == at {
                    assert(p(rows[k]));
                }
                assert(after[k] == rows[k]);
                assert forall|j: int| 0 <= j < k implies !q(#[trigger] after[j]) by {
                    if j != at {
                        assert(after[j] == rows[j]);
                    }
                }
                first_where_is(after, q, k);
            },
            None => {
                if let Some(k) = first_where(after, q) {
                    if k != at {
                        assert(after[k] == rows[k]);
                        assert(!q(rows[k]));
                    }
                }
            },
        }
    }
}

} // verus!

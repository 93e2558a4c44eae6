//! What is found of sessions: on disk, in a list, in an entry.

use vstd::prelude::*;

use crate::rows::{accepted_is_kept, keep_where, kept_is_accepted};
use crate::sessions::recent::{first_shown, shown, RECENT_SESSIONS_LIMIT, SessionRowModel};
use crate::sessions::tree::{any_int, any_text, int_of, member, text_of, JsonTree};
use crate::sessions::walk::{behind_next, files_before, next_dir, DirItemModel};

verus! {

// --- the walk -----------------------------------------------------------------------------

/// Whether a name ends in the extension of a transcript and holds more than that.
pub open spec fn is_transcript(name: Seq<char>) -> bool {
    name.len() > 6 && name.skip(name.len() - 6) == ".jsonl"@
}

/// A walk goes on to the directory that is on top of what is to be looked at, files apart.
/// What lies below it stays, and of the files above it the transcripts are found, all of
/// them and no other.
pub proof fn a_walk_passes_over_files(pending: Seq<DirItemModel>, path: Seq<char>)
    ensures
        next_dir(pending) matches Some(dir) ==> {
            let left = behind_next(pending);
            &&& left.len() < pending.len()
            &&& left == pending.take(left.len() as int)
            &&& pending[left.len() as int].is_dir
            &&& pending[left.len() as int].path == dir
            &&& forall|i: int| left.len() < i < pending.len() ==> !(#[trigger] pending[i]).is_dir
            &&& files_before(pending).contains(path) <==> exists|i: int|
                left.len() < i < pending.len() && (#[trigger] pending[i]).path == path
                    && is_transcript(pending[i].name)
        },
        next_dir(pending) is None ==> {
            &&& behind_next(pending).len() == 0
            &&& forall|i: int| 0 <= i < pending.len() ==> !(#[trigger] pending[i]).is_dir
            &&& files_before(pending).contains(path) <==> exists|i: int|
                0 <= i < pending.len() && (#[trigger] pending[i]).path == path && is_transcript(
                    pending[i].name,
                )
        },
    decreases pending.len(),
{
    if pending.len() > 0 {
        let n = pending.len() - 1;
        let last = pending.last();
        let less = pending.drop_last();
        assert(pending[n] == last);
        if last.is_dir {
            assert(pending.take(n) =~= less);
        } else {
            a_walk_passes_over_files(less, path);
            let left = behind_next(pending);
            let from = if next_dir(pending) is Some { left.len() + 1 } else { 0 };
            assert forall|i: int| 0 <= i < less.len() implies #[trigger] pending[i]
                == less[i] by {}
            assert(less.take(left.len() as int) =~= pending.take(left.len() as int));
            let inner = files_before(less);
            let all = files_before(pending);
            assert(crate::paths::jsonl_name(last.name) == is_transcript(last.name));
            if is_transcript(last.name) {
                assert(all == seq![last.path] + inner);
                assert(all[0] == last.path);
                if inner.contains(path) {
                    let k = choose|k: int| 0 <= k < inner.len() && inner[k] == path;
                    assert(all[k + 1] == path);
                }
                if all.contains(path) && path != last.path {
                    let k = choose|k: int| 0 <= k < all.len() && all[k] == path;
                    assert(inner[k - 1] == path);
                }
            }
            if inner.contains(path) {
                let i = choose|i: int|
                    from <= i < less.len() && (#[trigger] less[i]).path == path && is_transcript(
                        less[i].name,
                    );
                assert(pending[i].path == path);
            }
            if exists|i: int|
                from <= i < pending.len() && (#[trigger] pending[i]).path == path
                    && is_transcript(pending[i].name) {
                let i = choose|i: int|
                    from <= i < pending.len() && (#[trigger] pending[i]).path == path
                        && is_transcript(pending[i].name);
                if i < n {
                    assert(less[i].path == path);
                }
            }
        }
    } else {
        assert(files_before(pending) =~= Seq::empty());
    }
}

// --- the list of recent sessions ------------------------------------------------------------

/// A page shows sessions of the list and none that is read from transcripts without being
/// managed. One that it leaves out for another reason is left out because the page is full,
/// and what a page shows of the front of a list it shows first of the whole list.
pub proof fn a_page_shows_the_first_sessions(rows: Seq<SessionRowModel>, n: int, row: SessionRowModel)
    requires
        0 <= n <= rows.len(),
    ensures
        ({
            let page = first_shown(rows);
            &&& page.len() <= RECENT_SESSIONS_LIMIT
            &&& page.contains(row) ==> rows.contains(row) && (row.transcript is None
                || row.managed)
            &&& rows.contains(row) && (row.transcript is None || row.managed) && page.len()
                < RECENT_SESSIONS_LIMIT ==> page.contains(row)
            &&& first_shown(rows.take(n)).is_prefix_of(page)
        }),
{
    let p = shown();
    let all = keep_where(rows, p);
    let page = first_shown(rows);
    kept_is_accepted(rows, p);
    if page.contains(row) {
        let k = choose|k: int| 0 <= k < page.len() && page[k] == row;
        assert(all[k] == row);
        assert(p(all[k]));
    }
    if rows.contains(row) && p(row) {
        accepted_is_kept(rows, p, row);
    }
    kept_of_the_front(rows, p, n);
}

proof fn kept_of_the_front<M>(rows: Seq<M>, p: spec_fn(M) -> bool, n: int)
    requires
        0 <= n <= rows.len(),
    ensures
        keep_where(rows.take(n), p).is_prefix_of(keep_where(rows, p)),
    decreases rows.len(),
{
    if n == rows.len() {
        assert(rows.take(n) =~= rows);
    } else {
        let rest = rows.drop_last();
        kept_of_the_front(rest, p, n);
        assert(rest.take(n) =~= rows.take(n));
    }
}

// --- members of an entry --------------------------------------------------------------------

/// Of some members the first that is a text is read, and none where none is.
pub proof fn the_first_text_is_read(j: JsonTree, keys: Seq<Seq<char>>, i: int)
    requires
        0 <= i < keys.len(),
        text_of(member(j, keys[i])) is Some,
        forall|k: int| 0 <= k < i ==> text_of(member(j, #[trigger] keys[k])) is None,
    ensures
        any_text(j, keys) == text_of(member(j, keys[i])),
    decreases keys.len(),
{
    if i > 0 {
        let rest = keys.drop_first();
        assert(text_of(member(j, keys[0])) is None);
        assert forall|k: int| 0 <= k < i - 1 implies text_of(
            member(j, #[trigger] rest[k]),
        ) is None by {
            assert(rest[k] == keys[k + 1]);
        }
        the_first_text_is_read(j, rest, i - 1);
    }
}

/// Of some members the first that is an integer is read, and none where none is.
pub proof fn the_first_integer_is_read(j: JsonTree, keys: Seq<Seq<char>>, i: int)
    requires
        0 <= i < keys.len(),
        int_of(member(j, keys[i])) is Some,
        forall|k: int| 0 <= k < i ==> int_of(member(j, #[trigger] keys[k])) is None,
    ensures
        any_int(j, keys) == int_of(member(j, keys[i])),
    decreases keys.len(),
{
    if i > 0 {
        let rest = keys.drop_first();
        assert(int_of(member(j, keys[0])) is None);
        assert forall|k: int| 0 <= k < i - 1 implies int_of(
            member(j, #[trigger] rest[k]),
        ) is None by {
            assert(rest[k] == keys[k + 1]);
        }
        the_first_integer_is_read(j, rest, i - 1);
    }
}

} // verus!

//! What holds of a look for a session among the transcripts.

use vstd::prelude::*;

use crate::rows::{
    find_where, first_where, first_where_first, first_where_is, put_where, sorted_holds_the_same,
    sorted_is_ordered, sorted_len, take_all, RowOrder,
};
use crate::sessions::entries::{
    by_time, claude_events, codex_state, entries_of, owned_event, text_or_empty, times, TimeOrder,
};
use crate::sessions::records::{
    FileTime, JsonlCacheEvent, JsonlCacheEventModel, JsonlSessionMeta, JsonlSessionMetaModel,
    SessionFileModel,
};
use crate::sessions::scan::{
    after_detail, after_first_event, after_meta, after_scan, detail_read, earliest, file_at,
    file_detail, file_of, first_event, found_metas, kept, meta_of, meta_read, nothing_read, path_is,
    path_of, scanned, CacheRowModel, Harness, HarnessCacheModel, NewestFirst,
};

verus! {

/// Whether no path occurs twice among files.
pub open spec fn paths_differ(files: Seq<SessionFileModel>) -> bool {
    forall|i: int, j: int|
        0 <= i < files.len() && 0 <= j < files.len() && i != j ==> (#[trigger] files[i]).path != (
        #[trigger] files[j]).path
}

/// Whether what is kept of a file under the time of its last change is what it holds.
pub open spec fn agrees(
    harness: Harness,
    cache: HarnessCacheModel,
    file: SessionFileModel,
) -> bool {
    file.mtime matches Some(mtime) ==> {
        &&& kept(cache.metas, file.path, mtime) matches Some(meta) ==> meta_of(
            file_detail(harness, file),
        ) == Some(meta)
        &&& kept(cache.details, file.path, mtime) matches Some(detail) ==> file_detail(
            harness,
            file,
        ) == Some(detail)
    }
}

/// Whether a cache is fresh: of each file, what is kept under the time of its last change is
/// what it holds.
pub open spec fn fresh(
    harness: Harness,
    cache: HarnessCacheModel,
    files: Seq<SessionFileModel>,
) -> bool {
    forall|i: int| 0 <= i < files.len() ==> agrees(harness, cache, #[trigger] files[i])
}

proof fn kept_elsewhere<M>(
    table: Seq<CacheRowModel<M>>,
    row: CacheRowModel<M>,
    path: Seq<char>,
    mtime: FileTime,
)
    requires
        path != row.path,
    ensures
        kept(put_where(table, path_is(row.path), row), path, mtime) == kept(table, path, mtime),
{
    let own = path_is::<M>(row.path);
    let p = path_is::<M>(path);
    let after = put_where(table, own, row);
    first_where_first(table, own);
    first_where_first(table, p);
    first_where_first(after, p);
    match first_where(table, p) {
        Some(at) => {
            assert(p(table[at]));
            assert(after[at] == table[at]);
            assert forall|j: int| 0 <= j < at implies !p(#[trigger] after[j]) by {
                if after[j] != row {
                    assert(after[j] == table[j]);
                }
            }
            first_where_is(after, p, at);
        },
        None => {
            if let Some(at) = first_where(after, p) {
                assert(p(after[at]));
                assert(after[at] != row);
                assert(after[at] == table[at]);
                assert(!p(table[at]));
            }
        },
    }
}

proof fn kept_at_its_own<M>(table: Seq<CacheRowModel<M>>, row: CacheRowModel<M>, mtime: FileTime)
    ensures
        kept(put_where(table, path_is(row.path), row), row.path, mtime) == (if mtime == row.mtime {
            Some(row.value)
        } else {
            None
        }),
{
    let p = path_is::<M>(row.path);
    let after = put_where(table, p, row);
    first_where_first(table, p);
    let at = match first_where(table, p) {
        Some(i) => i,
        None => table.len() as int,
    };
    assert forall|j: int| 0 <= j < at implies !p(#[trigger] after[j]) by {
        assert(after[j] == table[j]);
    }
    assert(after[at] == row);
    first_where_is(after, p, at);
}

/// Whether a change to a file shows: where it was read before under the same time of its last
/// change, it held what it holds now.
pub open spec fn change_shows(
    harness: Harness,
    before: SessionFileModel,
    file: SessionFileModel,
) -> bool {
    before.path == file.path && before.mtime == file.mtime ==> file_detail(harness, before)
        == file_detail(harness, file)
}

proof fn a_read_agrees(
    harness: Harness,
    cache: HarnessCacheModel,
    before: SessionFileModel,
    file: SessionFileModel,
)
    requires
        agrees(harness, cache, file),
        change_shows(harness, before, file),
    ensures
        agrees(harness, after_meta(harness, cache, before), file),
        agrees(harness, after_detail(harness, cache, before), file),
{
    if let (Some(mtime), Some(at), Some(d)) = (
        before.mtime,
        file.mtime,
        file_detail(harness, before),
    ) {
        let meta_row = CacheRowModel { path: before.path, mtime, value: d.meta };
        let row = CacheRowModel { path: before.path, mtime, value: d };
        if before.path == file.path {
            kept_at_its_own(cache.metas, meta_row, at);
            kept_at_its_own(cache.details, row, at);
        } else {
            kept_elsewhere(cache.metas, meta_row, file.path, at);
            kept_elsewhere(cache.details, row, file.path, at);
        }
    }
}

/// A new cache is fresh, and reading a file leaves a fresh cache fresh.
pub proof fn reading_keeps_a_cache_fresh(
    harness: Harness,
    cache: HarnessCacheModel,
    files: Seq<SessionFileModel>,
    k: int,
)
    requires
        paths_differ(files),
        fresh(harness, cache, files),
        0 <= k < files.len(),
    ensures
        fresh(harness, nothing_read(), files),
        fresh(harness, after_meta(harness, cache, files[k]), files),
        fresh(harness, after_detail(harness, cache, files[k]), files),
{
    let metas = after_meta(harness, cache, files[k]);
    let details = after_detail(harness, cache, files[k]);
    assert forall|i: int| 0 <= i < files.len() implies agrees(harness, metas, #[trigger] files[i])
        && agrees(harness, details, files[i]) by {
        assert(agrees(harness, cache, files[i]));
        a_read_agrees(harness, cache, files[k], files[i]);
    }
}

/// A scan leaves a fresh cache fresh.
pub proof fn a_scan_keeps_a_cache_fresh(
    harness: Harness,
    cache: HarnessCacheModel,
    files: Seq<SessionFileModel>,
)
    requires
        paths_differ(files),
        fresh(harness, cache, files),
    ensures
        fresh(harness, after_scan(harness, cache, files), files),
{
    take_all(files);
    scanned_so_far(harness, cache, files, files.len() as int);
}

proof fn scanned_so_far(
    harness: Harness,
    cache: HarnessCacheModel,
    files: Seq<SessionFileModel>,
    n: int,
)
    requires
        paths_differ(files),
        fresh(harness, cache, files),
        0 <= n <= files.len(),
    ensures
        fresh(harness, after_scan(harness, cache, files.take(n)), files),
        after_scan(harness, cache, files.take(n)).details == cache.details,
    decreases n,
{
    let part = files.take(n);
    if n > 0 {
        scanned_so_far(harness, cache, files, n - 1);
        assert(part.drop_last() =~= files.take(n - 1));
        assert(part.last() == files[n - 1]);
        reading_keeps_a_cache_fresh(
            harness,
            after_scan(harness, cache, files.take(n - 1)),
            files,
            n - 1,
        );
    }
}

/// Where a fresh cache shows meta data, it is that of a file with events.
proof fn metas_come_from_files(
    harness: Harness,
    cache: HarnessCacheModel,
    files: Seq<SessionFileModel>,
    n: int,
    meta: JsonlSessionMetaModel,
)
    requires
        paths_differ(files),
        fresh(harness, cache, files),
        0 <= n <= files.len(),
        found_metas(harness, cache, files.take(n)).contains(meta),
    ensures
        exists|i: int|
            0 <= i < n && (#[trigger] files[i]).mtime is Some && meta_of(
                file_detail(harness, files[i]),
            ) == Some(meta),
    decreases n,
{
    let part = files.take(n);
    let all = found_metas(harness, cache, part);
    let k = choose|k: int| 0 <= k < all.len() && all[k] == meta;
    if n > 0 {
        assert(part.drop_last() =~= files.take(n - 1));
        assert(part.last() == files[n - 1]);
        let before = after_scan(harness, cache, files.take(n - 1));
        let rest = found_metas(harness, cache, files.take(n - 1));
        scanned_so_far(harness, cache, files, n - 1);
        assert(agrees(harness, before, files[n - 1]));
        if k < rest.len() {
            assert(rest[k] == meta);
            assert(rest.contains(meta));
            metas_come_from_files(harness, cache, files, n - 1, meta);
        } else {
            assert(meta_read(harness, before, files[n - 1]) == Some(meta));
            assert(meta_of(file_detail(harness, files[n - 1])) == Some(meta));
        }
    }
}

proof fn earliest_is_least(s: Seq<i64>)
    requires
        s.len() > 0,
    ensures
        earliest(s) matches Some(t) && s.contains(t) && (forall|i: int|
            0 <= i < s.len() ==> t <= #[trigger] s[i]),
    decreases s.len(),
{
    let rest = s.drop_last();
    assert(s[s.len() - 1] == s.last());
    if rest.len() > 0 {
        earliest_is_least(rest);
        let t = earliest(rest)->0;
        let k = choose|k: int| 0 <= k < rest.len() && rest[k] == t;
        assert(s[k] == t);
        assert forall|i: int| 0 <= i < s.len() implies earliest(s)->0 <= #[trigger] s[i] by {
            if i < rest.len() {
                assert(rest[i] == s[i]);
            }
        }
    }
}

/// When the header of a transcript says that its session was created. Only `Codex` writes
/// headers.
pub open spec fn header_time(harness: Harness, file: SessionFileModel) -> Option<i64> {
    match (harness, file.lines) {
        (Harness::Codex, Some(text)) => codex_state(entries_of(text.lines), file.stem).created,
        _ => None,
    }
}

/// A session has events, its meta data names its file, and without a header it was created
/// with the earliest of its events.
proof fn a_session_has_events(harness: Harness, file: SessionFileModel)
    requires
        file_detail(harness, file) is Some,
    ensures
        ({
            let d = file_detail(harness, file)->0;
            &&& d.events.len() > 0
            &&& d.meta.jsonl_path == file.path
            &&& forall|i: int|
                0 <= i < d.events.len() ==> d.events[0].timestamp_ms <= (
                #[trigger] d.events[i]).timestamp_ms
            &&& d.meta.created == match header_time(harness, file) {
                Some(h) => h,
                None => d.events[0].timestamp_ms,
            }
        }),
{
    let d = file_detail(harness, file)->0;
    let entries = entries_of(file.lines->0.lines);
    let events = match harness {
        Harness::ClaudeCode => claude_events(entries),
        Harness::Codex => {
            let state = codex_state(entries, file.stem);
            let session = if state.session_id.len() == 0 {
                text_or_empty(file.stem)
            } else {
                state.session_id
            };
            state.events.map_values(|e: JsonlCacheEventModel| owned_event(e, session))
        },
    };
    assert(d.events == by_time(events));
    sorted_len::<JsonlCacheEvent, TimeOrder>(events);
    sorted_is_ordered::<JsonlCacheEvent, TimeOrder>(events);
    let ordered = by_time(events);
    assert forall|i: int| 0 <= i < ordered.len() implies ordered[0].timestamp_ms <= (
    #[trigger] ordered[i]).timestamp_ms by {
        if i > 0 {
            assert(TimeOrder::le(ordered[0], ordered[i]));
        }
    }
}

/// Whether the first event of a session is told as its transcript shows it. Where a session
/// is found, it has the time of one of the events that a read of the file at the found path
/// shows, and none of these is earlier. It is when the session was created, unless the header
/// of a `Codex` transcript says otherwise. Where no session is found, no time is told.
pub open spec fn begins_as_shown(
    harness: Harness,
    cache: HarnessCacheModel,
    files: Seq<SessionFileModel>,
    id: Seq<char>,
) -> bool {
    match path_of(scanned(harness, cache, files), id) {
        None => first_event(harness, cache, files, id) is None,
        Some(path) => {
            &&& file_of(harness, cache, files, id) matches Some(file)
            &&& files.contains(file)
            &&& file.path == path
            &&& detail_read(harness, after_scan(harness, cache, files), file) matches Some(d)
            &&& file_detail(harness, file) == Some(d)
            &&& d.meta.session_id == id
            &&& first_event(harness, cache, files, id) matches Some(t)
            &&& times(d.events).contains(t)
            &&& forall|i: int|
                0 <= i < d.events.len() ==> t <= (#[trigger] d.events[i]).timestamp_ms
            &&& d.meta.created == match header_time(harness, file) {
                Some(h) => h,
                None => t,
            }
        },
    }
}

/// Where a cache is fresh, the first event of a session is told as its transcript shows it.
pub proof fn a_first_event_is_the_earliest(
    harness: Harness,
    cache: HarnessCacheModel,
    files: Seq<SessionFileModel>,
    id: Seq<char>,
)
    requires
        paths_differ(files),
        fresh(harness, cache, files),
    ensures
        begins_as_shown(harness, cache, files, id),
{
    let metas = scanned(harness, cache, files);
    let found = found_metas(harness, cache, files);
    let named = |m: JsonlSessionMetaModel| m.session_id == id;
    first_where_first(metas, named);
    if let Some(path) = path_of(metas, id) {
        let k = first_where(metas, named)->0;
        let meta = metas[k];
        assert(named(metas[k]));
        assert(metas.contains(meta));
        sorted_holds_the_same::<JsonlSessionMeta, NewestFirst>(found, meta);
        take_all(files);
        metas_come_from_files(harness, cache, files, files.len() as int, meta);
        let i = choose|i: int|
            0 <= i < files.len() && (#[trigger] files[i]).mtime is Some && meta_of(
                file_detail(harness, files[i]),
            ) == Some(meta);
        let file = files[i];
        a_session_has_events(harness, file);
        let d = file_detail(harness, file)->0;
        assert(file.path == path);
        let at = file_at(path);
        assert forall|j: int| 0 <= j < i implies !at(#[trigger] files[j]) by {
            assert(files[j].path != files[i].path);
        }
        first_where_is(files, at, i);
        assert(find_where(files, at) == Some(file));
        scanned_so_far(harness, cache, files, files.len() as int);
        assert(agrees(harness, after_scan(harness, cache, files), files[i]));
        assert(detail_read(harness, after_scan(harness, cache, files), file) == Some(d));
        let all = times(d.events);
        earliest_is_least(all);
        let t = earliest(all)->0;
        assert forall|j: int| 0 <= j < d.events.len() implies t <= (
        #[trigger] d.events[j]).timestamp_ms by {
            assert(all[j] == d.events[j].timestamp_ms);
        }
        let m = choose|m: int| 0 <= m < all.len() && all[m] == t;
        assert(d.events[m].timestamp_ms == t);
        assert(t <= d.events[0].timestamp_ms);
    }
}

// --- whatever was read before -----------------------------------------------------------

/// A read of the transcripts of a harness.
pub enum SessionRead {
    /// What is known of the session in a file.
    Meta(SessionFileModel),
    /// The session in a file, with its events.
    Detail(SessionFileModel),
    /// The sessions among files, or the path of one of them.
    Scan(Seq<SessionFileModel>),
    /// When the session with an id began.
    FirstEvent(Seq<SessionFileModel>, Seq<char>),
}

impl SessionRead {
    /// The files that a read may open.
    pub open spec fn files(self) -> Seq<SessionFileModel> {
        match self {
            SessionRead::Meta(file) => seq![file],
            SessionRead::Detail(file) => seq![file],
            SessionRead::Scan(files) => files,
            SessionRead::FirstEvent(files, _) => files,
        }
    }
}

/// What is kept after a read.
pub open spec fn after_read(harness: Harness, cache: HarnessCacheModel, read: SessionRead) ->
    HarnessCacheModel {
    match read {
        SessionRead::Meta(file) => after_meta(harness, cache, file),
        SessionRead::Detail(file) => after_detail(harness, cache, file),
        SessionRead::Scan(files) => after_scan(harness, cache, files),
        SessionRead::FirstEvent(files, id) => after_first_event(harness, cache, files, id),
    }
}

/// What is kept after reads, where nothing was read before.
pub open spec fn after_reads(harness: Harness, reads: Seq<SessionRead>) -> HarnessCacheModel
    decreases reads.len(),
{
    if reads.len() == 0 {
        nothing_read()
    } else {
        after_read(harness, after_reads(harness, reads.drop_last()), reads.last())
    }
}

/// Whether each change to a file since some reads shows.
pub open spec fn changes_show(
    harness: Harness,
    reads: Seq<SessionRead>,
    file: SessionFileModel,
) -> bool {
    forall|k: int, i: int|
        0 <= k < reads.len() && 0 <= i < reads[k].files().len() ==> change_shows(
            harness,
            #[trigger] reads[k].files()[i],
            file,
        )
}

proof fn a_scan_agrees(
    harness: Harness,
    cache: HarnessCacheModel,
    before: Seq<SessionFileModel>,
    file: SessionFileModel,
)
    requires
        agrees(harness, cache, file),
        forall|i: int|
            0 <= i < before.len() ==> change_shows(harness, #[trigger] before[i], file),
    ensures
        agrees(harness, after_scan(harness, cache, before), file),
    decreases before.len(),
{
    if before.len() > 0 {
        let rest = before.drop_last();
        assert forall|i: int| 0 <= i < rest.len() implies change_shows(
            harness,
            #[trigger] rest[i],
            file,
        ) by {
            assert(rest[i] == before[i]);
        }
        a_scan_agrees(harness, cache, rest, file);
        assert(change_shows(harness, before[before.len() - 1], file));
        a_read_agrees(harness, after_scan(harness, cache, rest), before.last(), file);
    }
}

proof fn reads_agree(harness: Harness, reads: Seq<SessionRead>, file: SessionFileModel)
    requires
        changes_show(harness, reads, file),
    ensures
        agrees(harness, after_reads(harness, reads), file),
    decreases reads.len(),
{
    if reads.len() > 0 {
        let rest = reads.drop_last();
        let read = reads.last();
        let cache = after_reads(harness, rest);
        assert forall|k: int, i: int|
            0 <= k < rest.len() && 0 <= i < rest[k].files().len() implies change_shows(
            harness,
            #[trigger] rest[k].files()[i],
            file,
        ) by {
            assert(rest[k] == reads[k]);
            assert(change_shows(harness, reads[k].files()[i], file));
        }
        reads_agree(harness, rest, file);
        let last = reads.len() - 1;
        let opened = read.files();
        assert forall|i: int| 0 <= i < opened.len() implies change_shows(
            harness,
            #[trigger] opened[i],
            file,
        ) by {
            assert(change_shows(harness, reads[last].files()[i], file));
        }
        match read {
            SessionRead::Meta(one) => {
                assert(opened[0] == one);
                a_read_agrees(harness, cache, one, file);
            },
            SessionRead::Detail(one) => {
                assert(opened[0] == one);
                a_read_agrees(harness, cache, one, file);
            },
            SessionRead::Scan(files) => {
                a_scan_agrees(harness, cache, files, file);
            },
            SessionRead::FirstEvent(files, id) => {
                a_scan_agrees(harness, cache, files, file);
                if let Some(path) = path_of(scanned(harness, cache, files), id) {
                    first_where_first(files, file_at(path));
                    if let Some(i) = first_where(files, file_at(path)) {
                        assert(opened[i] == files[i]);
                        let scanned = after_scan(harness, cache, files);
                        a_read_agrees(harness, scanned, files[i], file);
                    }
                }
            },
        }
    }
}

/// A cache is fresh whatever was read before, as long as a change to a file shows in the time
/// of its last change.
pub proof fn reads_leave_a_cache_fresh(
    harness: Harness,
    reads: Seq<SessionRead>,
    files: Seq<SessionFileModel>,
)
    requires
        forall|i: int| 0 <= i < files.len() ==> changes_show(harness, reads, #[trigger] files[i]),
    ensures
        fresh(harness, after_reads(harness, reads), files),
{
    assert forall|i: int| 0 <= i < files.len() implies agrees(
        harness,
        after_reads(harness, reads),
        #[trigger] files[i],
    ) by {
        reads_agree(harness, reads, files[i]);
    }
}

/// A fresh cache is not seen: a scan, a read and the look for a first event give what they
/// give where nothing was read before.
pub proof fn a_fresh_cache_shows_the_files(
    harness: Harness,
    cache: HarnessCacheModel,
    files: Seq<SessionFileModel>,
    id: Seq<char>,
)
    requires
        paths_differ(files),
        fresh(harness, cache, files),
    ensures
        scanned(harness, cache, files) == scanned(harness, nothing_read(), files),
        forall|i: int|
            0 <= i < files.len() ==> detail_read(harness, cache, #[trigger] files[i])
                == detail_read(harness, nothing_read(), files[i]),
        first_event(harness, cache, files, id) == first_event(harness, nothing_read(), files, id),
{
    take_all(files);
    fresh_metas(harness, cache, files, files.len() as int);
    assert forall|i: int| 0 <= i < files.len() implies detail_read(
        harness,
        cache,
        #[trigger] files[i],
    ) == detail_read(harness, nothing_read(), files[i]) by {
        assert(agrees(harness, cache, files[i]));
    }
    if let Some(path) = path_of(scanned(harness, cache, files), id) {
        first_where_first(files, file_at(path));
        if let Some(i) = first_where(files, file_at(path)) {
            a_scan_keeps_a_cache_fresh(harness, cache, files);
            a_scan_keeps_a_cache_fresh(harness, nothing_read(), files);
            assert(agrees(harness, after_scan(harness, cache, files), files[i]));
            assert(agrees(harness, after_scan(harness, nothing_read(), files), files[i]));
        }
    }
}

proof fn fresh_metas(
    harness: Harness,
    cache: HarnessCacheModel,
    files: Seq<SessionFileModel>,
    n: int,
)
    requires
        paths_differ(files),
        fresh(harness, cache, files),
        0 <= n <= files.len(),
    ensures
        found_metas(harness, cache, files.take(n)) == found_metas(
            harness,
            nothing_read(),
            files.take(n),
        ),
    decreases n,
{
    if n > 0 {
        fresh_metas(harness, cache, files, n - 1);
        let part = files.take(n);
        assert(part.drop_last() =~= files.take(n - 1));
        assert(part.last() == files[n - 1]);
        scanned_so_far(harness, cache, files, n - 1);
        scanned_so_far(harness, nothing_read(), files, n - 1);
        let before = after_scan(harness, cache, files.take(n - 1));
        let anew = after_scan(harness, nothing_read(), files.take(n - 1));
        assert(agrees(harness, before, files[n - 1]));
        assert(agrees(harness, anew, files[n - 1]));
    }
}

/// Whatever was read before, the first event of a session is told as its transcript shows it,
/// as long as a change to a file shows in the time of its last change.
pub proof fn a_session_begins_as_shown(
    harness: Harness,
    reads: Seq<SessionRead>,
    files: Seq<SessionFileModel>,
    id: Seq<char>,
)
    requires
        paths_differ(files),
        forall|i: int| 0 <= i < files.len() ==> changes_show(harness, reads, #[trigger] files[i]),
    ensures
        begins_as_shown(harness, after_reads(harness, reads), files, id),
        first_event(harness, after_reads(harness, reads), files, id) == first_event(
            harness,
            nothing_read(),
            files,
            id,
        ),
{
    let cache = after_reads(harness, reads);
    reads_leave_a_cache_fresh(harness, reads, files);
    a_first_event_is_the_earliest(harness, cache, files, id);
    a_fresh_cache_shows_the_files(harness, cache, files, id);
}

} // verus!

//! Finding sessions: what was read before is kept until its file changes.

use vstd::prelude::*;

use crate::paths::{join_path, joined};
use crate::rows::{
    find_row, find_where, first_where_first, first_where_is, group_views, opt_text, opt_view,
    put_in, put_where, sort_rows, sorted, take_all, take_next, views, Row, RowOrder, RowTest,
};
use crate::sessions::entries::{
    claude_code_session_detail, claude_detail, codex_detail, codex_session_detail, entries_of,
    read_entries, times,
};
use crate::sessions::records::{
    FileTime, JsonlSessionDetail, JsonlSessionDetailModel, JsonlSessionMeta,
    JsonlSessionMetaModel, SessionFile, SessionFileModel,
};
use crate::text::{owned, same_text};

verus! {

/// A harness whose transcripts are read.
#[derive(Debug, Clone, Copy, PartialEq, Eq, Structural)]
pub enum Harness {
    ClaudeCode,
    Codex,
}

/// The session of a transcript.
pub open spec fn file_detail(harness: Harness, file: SessionFileModel) -> Option<
    JsonlSessionDetailModel,
> {
    match file.lines {
        Some(text) => match harness {
            Harness::ClaudeCode => claude_detail(file.path, file.stem, entries_of(text.lines)),
            Harness::Codex => codex_detail(file.path, file.stem, entries_of(text.lines)),
        },
        None => None,
    }
}

/// Reads the session of a transcript.
pub fn read_session(harness: Harness, file: &SessionFile) -> (r: Option<JsonlSessionDetail>)
    ensures
        opt_view(r) == file_detail(harness, file@),
{
    match &file.lines {
        Some(text) => {
            let entries = read_entries(&text.lines);
            match harness {
                Harness::ClaudeCode => claude_code_session_detail(
                    &file.path,
                    &file.stem,
                    &entries,
                ),
                Harness::Codex => codex_session_detail(&file.path, &file.stem, &entries),
            }
        },
        None => None,
    }
}

// --- what was read before -------------------------------------------------------------

/// What was read of a file, and when the file had been changed by then.
#[derive(Debug, PartialEq, Eq)]
pub struct CacheRow<T> {
    pub path: String,
    pub mtime: FileTime,
    pub value: T,
}

/// What a [`CacheRow`] holds.
#[verifier::ext_equal]
pub struct CacheRowModel<M> {
    pub path: Seq<char>,
    pub mtime: FileTime,
    pub value: M,
}

impl<T: View> View for CacheRow<T> {
    type V = CacheRowModel<T::V>;

    open spec fn view(&self) -> CacheRowModel<T::V> {
        CacheRowModel { path: self.path@, mtime: self.mtime, value: self.value@ }
    }
}

/// Accepts the row of one path.
pub open spec fn path_is<M>(path: Seq<char>) -> spec_fn(CacheRowModel<M>) -> bool {
    |r: CacheRowModel<M>| r.path == path
}

/// Accepts the row of one path.
pub struct PathIs<'a> {
    pub path: &'a str,
}

impl<'a, T: View> RowTest<CacheRow<T>> for PathIs<'a> {
    open spec fn accepts(&self) -> spec_fn(CacheRowModel<T::V>) -> bool {
        path_is(self.path@)
    }

    fn test(&self, row: &CacheRow<T>) -> (r: bool) {
        same_text(&row.path, self.path)
    }
}

/// What is kept of a file that has not been changed since.
pub open spec fn kept<M>(table: Seq<CacheRowModel<M>>, path: Seq<char>, mtime: FileTime) -> Option<
    M,
> {
    match find_where(table, path_is(path)) {
        Some(row) => if row.mtime == mtime {
            Some(row.value)
        } else {
            None
        },
        None => None,
    }
}

/// What reading a file gives: what is kept of it, or what it now holds.
pub open spec fn read_value<M>(
    table: Seq<CacheRowModel<M>>,
    path: Seq<char>,
    mtime: Option<FileTime>,
    fresh: Option<M>,
) -> Option<M> {
    match mtime {
        None => None,
        Some(mtime) => match kept(table, path, mtime) {
            Some(value) => Some(value),
            None => fresh,
        },
    }
}

/// What is kept after reading a file.
pub open spec fn read_table<M>(
    table: Seq<CacheRowModel<M>>,
    path: Seq<char>,
    mtime: Option<FileTime>,
    fresh: Option<M>,
) -> Seq<CacheRowModel<M>> {
    match (mtime, fresh) {
        (Some(mtime), Some(value)) => if kept(table, path, mtime) is None {
            put_where(table, path_is(path), CacheRowModel { path, mtime, value })
        } else {
            table
        },
        _ => table,
    }
}

/// A file that did not change is read once: a second read gives what the first gave, even
/// where the file could no longer be opened, and keeps what is kept.
pub proof fn a_second_read_is_kept<M>(
    table: Seq<CacheRowModel<M>>,
    path: Seq<char>,
    mtime: FileTime,
    fresh: Option<M>,
    later: Option<M>,
)
    requires
        read_value(table, path, Some(mtime), fresh) is Some,
    ensures
        ({
            let after = read_table(table, path, Some(mtime), fresh);
            &&& read_value(after, path, Some(mtime), later) == read_value(
                table,
                path,
                Some(mtime),
                fresh,
            )
            &&& read_table(after, path, Some(mtime), later) == after
        }),
{
    if kept(table, path, mtime) is None {
        let row = CacheRowModel { path, mtime, value: fresh->0 };
        kept_of_put(table, row);
    }
}

/// A changed file is read anew, and what was read is what is kept from then on.
pub proof fn a_changed_file_is_read(
    table: Seq<CacheRowModel<JsonlSessionDetailModel>>,
    path: Seq<char>,
    mtime: FileTime,
    fresh: JsonlSessionDetailModel,
)
    requires
        find_where(table, path_is(path)) matches Some(row) ==> row.mtime != mtime,
    ensures
        read_value(table, path, Some(mtime), Some(fresh)) == Some(fresh),
        kept(read_table(table, path, Some(mtime), Some(fresh)), path, mtime) == Some(fresh),
{
    kept_of_put(table, CacheRowModel { path, mtime, value: fresh });
}

proof fn kept_of_put<M>(table: Seq<CacheRowModel<M>>, row: CacheRowModel<M>)
    ensures
        kept(put_where(table, path_is(row.path), row), row.path, row.mtime) == Some(row.value),
{
    let p = path_is::<M>(row.path);
    let after = put_where(table, p, row);
    first_where_first(table, p);
    let at = match crate::rows::first_where(table, p) {
        Some(i) => i,
        None => table.len() as int,
    };
    assert forall|j: int| 0 <= j < at implies !p(#[trigger] after[j]) by {
        assert(after[j] == table[j]);
    }
    first_where_is(after, p, at);
}

fn find_kept<T: Row>(table: &Vec<CacheRow<T>>, path: &str, mtime: FileTime) -> (r: Option<T>)
    ensures
        opt_view(r) == kept(views(table@), path@, mtime),
{
    let wanted = PathIs { path };
    match find_row(table, &wanted) {
        Some(i) => if table[i].mtime == mtime {
            Some(table[i].value.dup())
        } else {
            None
        },
        None => None,
    }
}

fn keep<T: Row>(table: &mut Vec<CacheRow<T>>, path: &str, mtime: FileTime, value: &T)
    ensures
        views(final(table)@) == put_where(
            views(old(table)@),
            path_is(path@),
            (CacheRowModel { path: path@, mtime, value: value@ }),
        ),
{
    let wanted = PathIs { path };
    let row = CacheRow { path: owned(path), mtime, value: value.dup() };
    put_in(table, &wanted, row);
}

/// What was read of a harness's transcripts.
#[derive(Debug, PartialEq, Eq)]
pub struct HarnessCache {
    pub metas: Vec<CacheRow<JsonlSessionMeta>>,
    pub details: Vec<CacheRow<JsonlSessionDetail>>,
    /// A root to read in place of the harness's own.
    pub root: Option<String>,
}

/// What a [`HarnessCache`] holds.
#[verifier::ext_equal]
pub struct HarnessCacheModel {
    pub metas: Seq<CacheRowModel<JsonlSessionMetaModel>>,
    pub details: Seq<CacheRowModel<JsonlSessionDetailModel>>,
    pub root: Option<Seq<char>>,
}

impl View for HarnessCache {
    type V = HarnessCacheModel;

    open spec fn view(&self) -> HarnessCacheModel {
        HarnessCacheModel {
            metas: views(self.metas@),
            details: views(self.details@),
            root: opt_view(self.root),
        }
    }
}

/// Nothing was read yet.
pub open spec fn nothing_read() -> HarnessCacheModel {
    HarnessCacheModel { metas: Seq::empty(), details: Seq::empty(), root: None }
}

impl HarnessCache {
    fn empty() -> (r: Self)
        ensures
            r@ == nothing_read(),
    {
        broadcast use group_views;

        HarnessCache { metas: Vec::new(), details: Vec::new(), root: None }
    }
}

/// What was read of all transcripts.
#[derive(Debug, PartialEq, Eq)]
pub struct SessionCache {
    pub claude: HarnessCache,
    pub codex: HarnessCache,
}

/// What a [`SessionCache`] holds.
#[verifier::ext_equal]
pub struct SessionCacheModel {
    pub claude: HarnessCacheModel,
    pub codex: HarnessCacheModel,
}

impl View for SessionCache {
    type V = SessionCacheModel;

    open spec fn view(&self) -> SessionCacheModel {
        SessionCacheModel { claude: self.claude@, codex: self.codex@ }
    }
}

impl SessionCache {
    /// A cache that holds nothing.
    pub fn new() -> (r: Self)
        ensures
            r@ == (SessionCacheModel { claude: nothing_read(), codex: nothing_read() }),
    {
        SessionCache { claude: HarnessCache::empty(), codex: HarnessCache::empty() }
    }
}

/// The meta data that a session carries.
pub open spec fn meta_of(detail: Option<JsonlSessionDetailModel>) -> Option<JsonlSessionMetaModel> {
    match detail {
        Some(d) => Some(d.meta),
        None => None,
    }
}

/// What reading a session's meta data gives.
pub open spec fn meta_read(harness: Harness, cache: HarnessCacheModel, file: SessionFileModel) ->
    Option<JsonlSessionMetaModel> {
    read_value(cache.metas, file.path, file.mtime, meta_of(file_detail(harness, file)))
}

/// What is kept after reading a session's meta data.
pub open spec fn after_meta(harness: Harness, cache: HarnessCacheModel, file: SessionFileModel) ->
    HarnessCacheModel {
    HarnessCacheModel {
        metas: read_table(
            cache.metas,
            file.path,
            file.mtime,
            meta_of(file_detail(harness, file)),
        ),
        ..cache
    }
}

/// What reading a session gives.
pub open spec fn detail_read(
    harness: Harness,
    cache: HarnessCacheModel,
    file: SessionFileModel,
) -> Option<JsonlSessionDetailModel> {
    read_value(cache.details, file.path, file.mtime, file_detail(harness, file))
}

/// What is kept after reading a session.
pub open spec fn after_detail(
    harness: Harness,
    cache: HarnessCacheModel,
    file: SessionFileModel,
) -> HarnessCacheModel {
    HarnessCacheModel {
        details: read_table(cache.details, file.path, file.mtime, file_detail(harness, file)),
        ..cache
    }
}

fn read_meta(harness: Harness, cache: &mut HarnessCache, file: &SessionFile) -> (r: Option<
    JsonlSessionMeta,
>)
    ensures
        opt_view(r) == meta_read(harness, old(cache)@, file@),
        final(cache)@ == after_meta(harness, old(cache)@, file@),
{
    let mtime: FileTime = match file.mtime {
        Some(mtime) => mtime,
        None => {
            return None;
        },
    };
    match find_kept(&cache.metas, &file.path, mtime) {
        Some(meta) => Some(meta),
        None => match read_session(harness, file) {
            Some(detail) => {
                keep(&mut cache.metas, &file.path, mtime, &detail.meta);
                Some(detail.meta)
            },
            None => None,
        },
    }
}

fn read_detail(harness: Harness, cache: &mut HarnessCache, file: &SessionFile) -> (r: Option<
    JsonlSessionDetail,
>)
    ensures
        opt_view(r) == detail_read(harness, old(cache)@, file@),
        final(cache)@ == after_detail(harness, old(cache)@, file@),
{
    let mtime: FileTime = match file.mtime {
        Some(mtime) => mtime,
        None => {
            return None;
        },
    };
    match find_kept(&cache.details, &file.path, mtime) {
        Some(detail) => Some(detail),
        None => match read_session(harness, file) {
            Some(detail) => {
                keep(&mut cache.details, &file.path, mtime, &detail);
                Some(detail)
            },
            None => None,
        },
    }
}

// --- scanning -------------------------------------------------------------------------

/// What is kept after reading the meta data of files in turn.
pub open spec fn after_scan(
    harness: Harness,
    cache: HarnessCacheModel,
    files: Seq<SessionFileModel>,
) -> HarnessCacheModel
    decreases files.len(),
{
    if files.len() == 0 {
        cache
    } else {
        after_meta(harness, after_scan(harness, cache, files.drop_last()), files.last())
    }
}

/// The meta data of the files that are sessions, in the order of the files.
pub open spec fn found_metas(
    harness: Harness,
    cache: HarnessCacheModel,
    files: Seq<SessionFileModel>,
) -> Seq<JsonlSessionMetaModel>
    decreases files.len(),
{
    if files.len() == 0 {
        Seq::empty()
    } else {
        let rest = found_metas(harness, cache, files.drop_last());
        match meta_read(harness, after_scan(harness, cache, files.drop_last()), files.last()) {
            Some(meta) => rest.push(meta),
            None => rest,
        }
    }
}

/// Sessions with the one that was changed last in front; equal times keep their order.
pub struct NewestFirst;

impl RowOrder<JsonlSessionMeta> for NewestFirst {
    open spec fn le(a: JsonlSessionMetaModel, b: JsonlSessionMetaModel) -> bool {
        a.modified >= b.modified
    }

    proof fn le_total(a: JsonlSessionMetaModel, b: JsonlSessionMetaModel) {
    }

    proof fn le_transitive(
        a: JsonlSessionMetaModel,
        b: JsonlSessionMetaModel,
        c: JsonlSessionMetaModel,
    ) {
    }

    fn at_most(a: &JsonlSessionMeta, b: &JsonlSessionMeta) -> (r: bool) {
        a.modified >= b.modified
    }
}

/// The sessions among files, newest first.
pub open spec fn scanned(
    harness: Harness,
    cache: HarnessCacheModel,
    files: Seq<SessionFileModel>,
) -> Seq<JsonlSessionMetaModel> {
    sorted::<JsonlSessionMeta, NewestFirst>(found_metas(harness, cache, files))
}

/// The files below a root, none where there is no root.
pub open spec fn files_below(files: Option<Vec<SessionFile>>) -> Seq<SessionFileModel> {
    match files {
        Some(files) => views(files@),
        None => Seq::empty(),
    }
}

/// The path of the first session with an id.
pub open spec fn path_of(metas: Seq<JsonlSessionMetaModel>, id: Seq<char>) -> Option<Seq<char>> {
    match find_where(metas, |m: JsonlSessionMetaModel| m.session_id == id) {
        Some(m) => Some(m.jsonl_path),
        None => None,
    }
}

/// Accepts the session with one id.
pub struct SessionIs<'a> {
    pub id: &'a str,
}

impl<'a> RowTest<JsonlSessionMeta> for SessionIs<'a> {
    open spec fn accepts(&self) -> spec_fn(JsonlSessionMetaModel) -> bool {
        |m: JsonlSessionMetaModel| m.session_id == self.id@
    }

    fn test(&self, row: &JsonlSessionMeta) -> (r: bool) {
        same_text(&row.session_id, self.id)
    }
}

/// The file of one path.
pub open spec fn file_at(path: Seq<char>) -> spec_fn(SessionFileModel) -> bool {
    |f: SessionFileModel| f.path == path
}

/// Accepts the file of one path.
pub struct FileAt<'a> {
    pub path: &'a str,
}

impl<'a> RowTest<SessionFile> for FileAt<'a> {
    open spec fn accepts(&self) -> spec_fn(SessionFileModel) -> bool {
        file_at(self.path@)
    }

    fn test(&self, row: &SessionFile) -> (r: bool) {
        same_text(&row.path, self.path)
    }
}

/// The smallest of some times.
pub open spec fn earliest(times: Seq<i64>) -> Option<i64>
    decreases times.len(),
{
    if times.len() == 0 {
        None
    } else {
        match earliest(times.drop_last()) {
            Some(t) => if t <= times.last() {
                Some(t)
            } else {
                Some(times.last())
            },
            None => Some(times.last()),
        }
    }
}

/// The file of the session with an id.
pub open spec fn file_of(
    harness: Harness,
    cache: HarnessCacheModel,
    files: Seq<SessionFileModel>,
    id: Seq<char>,
) -> Option<SessionFileModel> {
    match path_of(scanned(harness, cache, files), id) {
        Some(path) => find_where(files, file_at(path)),
        None => None,
    }
}

/// The time of the first event of the session with an id.
pub open spec fn first_event(
    harness: Harness,
    cache: HarnessCacheModel,
    files: Seq<SessionFileModel>,
    id: Seq<char>,
) -> Option<i64> {
    match file_of(harness, cache, files, id) {
        Some(file) => match detail_read(harness, after_scan(harness, cache, files), file) {
            Some(detail) => earliest(times(detail.events)),
            None => None,
        },
        None => None,
    }
}

/// What is kept after looking for the first event of a session.
pub open spec fn after_first_event(
    harness: Harness,
    cache: HarnessCacheModel,
    files: Seq<SessionFileModel>,
    id: Seq<char>,
) -> HarnessCacheModel {
    let scanned = after_scan(harness, cache, files);
    match file_of(harness, cache, files, id) {
        Some(file) => after_detail(harness, scanned, file),
        None => scanned,
    }
}

fn scan_files(harness: Harness, cache: &mut HarnessCache, files: &Vec<SessionFile>) -> (r: Vec<
    JsonlSessionMeta,
>)
    ensures
        views(r@) == scanned(harness, old(cache)@, views(files@)),
        final(cache)@ == after_scan(harness, old(cache)@, views(files@)),
{
    broadcast use group_views;

    let ghost before = cache@;
    let ghost all = views(files@);
    let mut metas: Vec<JsonlSessionMeta> = Vec::new();
    let mut i: usize = 0;
    while i < files.len()
        invariant
            i <= files.len(),
            all == views(files@),
            views(metas@) == found_metas(harness, before, all.take(i as int)),
            cache@ == after_scan(harness, before, all.take(i as int)),
        decreases files.len() - i,
    {
        proof {
            take_next(all, i as int);
        }
        assert(all[i as int] == files@[i as int]@);
        match read_meta(harness, cache, &files[i]) {
            Some(meta) => {
                metas.push(meta);
            },
            None => {},
        }
        i += 1;
    }
    proof {
        take_all(all);
    }
    sort_rows::<JsonlSessionMeta, NewestFirst>(metas)
}

fn scan_below(harness: Harness, cache: &mut HarnessCache, files: &Option<Vec<SessionFile>>) -> (r:
    Vec<JsonlSessionMeta>)
    ensures
        views(r@) == scanned(harness, old(cache)@, files_below(*files)),
        final(cache)@ == after_scan(harness, old(cache)@, files_below(*files)),
{
    broadcast use group_views;

    match files {
        Some(files) => scan_files(harness, cache, files),
        None => {
            proof {
                crate::rows::sorted_len::<JsonlSessionMeta, NewestFirst>(
                    found_metas(harness, cache@, Seq::empty()),
                );
            }
            Vec::new()
        },
    }
}

fn find_path(
    harness: Harness,
    cache: &mut HarnessCache,
    files: &Option<Vec<SessionFile>>,
    session_id: &str,
) -> (r: Option<String>)
    ensures
        opt_view(r) == path_of(scanned(harness, old(cache)@, files_below(*files)), session_id@),
        final(cache)@ == after_scan(harness, old(cache)@, files_below(*files)),
{
    let metas = scan_below(harness, cache, files);
    let wanted = SessionIs { id: session_id };
    match find_row(&metas, &wanted) {
        Some(i) => Some(metas[i].jsonl_path.clone()),
        None => None,
    }
}

fn earliest_of(detail: &JsonlSessionDetail) -> (r: Option<i64>)
    ensures
        r == earliest(times(detail@.events)),
{
    broadcast use group_views;

    let ghost all = times(detail@.events);
    let mut r: Option<i64> = None;
    let mut i: usize = 0;
    while i < detail.events.len()
        invariant
            i <= detail.events.len(),
            all == times(detail@.events),
            r == earliest(all.take(i as int)),
        decreases detail.events.len() - i,
    {
        proof {
            take_next(all, i as int);
        }
        assert(detail@.events[i as int] == detail.events@[i as int]@);
        let t: i64 = detail.events[i].timestamp_ms;
        r = match r {
            Some(least) => if least <= t {
                Some(least)
            } else {
                Some(t)
            },
            None => Some(t),
        };
        i += 1;
    }
    proof {
        take_all(all);
    }
    r
}

fn find_first_event(
    harness: Harness,
    cache: &mut HarnessCache,
    files: &Option<Vec<SessionFile>>,
    session_id: &str,
) -> (r: Option<i64>)
    ensures
        r == first_event(harness, old(cache)@, files_below(*files), session_id@),
        final(cache)@ == after_first_event(
            harness,
            old(cache)@,
            files_below(*files),
            session_id@,
        ),
{
    let path = match find_path(harness, cache, files, session_id) {
        Some(path) => path,
        None => {
            return None;
        },
    };
    match files {
        Some(files) => {
            let wanted = FileAt { path: &path };
            match find_row(files, &wanted) {
                Some(i) => match read_detail(harness, cache, &files[i]) {
                    Some(detail) => earliest_of(&detail),
                    None => None,
                },
                None => None,
            }
        },
        None => None,
    }
}

/// The newest session comes first: no session behind another was changed later.
pub proof fn newest_sessions_come_first(
    harness: Harness,
    cache: HarnessCacheModel,
    files: Seq<SessionFileModel>,
    i: int,
    j: int,
)
    requires
        0 <= i < j < scanned(harness, cache, files).len(),
    ensures
        scanned(harness, cache, files)[i].modified >= scanned(harness, cache, files)[j].modified,
{
    let metas = found_metas(harness, cache, files);
    crate::rows::sorted_is_ordered::<JsonlSessionMeta, NewestFirst>(metas);
    let out = scanned(harness, cache, files);
    assert(NewestFirst::le(out[i], out[j]));
}

// --- `ClaudeCode` ----------------------------------------------------------------------

/// A directory of a harness below the home directory.
pub open spec fn below_home(home: Option<Seq<char>>, dir: Seq<char>, sub: Seq<char>) -> Option<
    Seq<char>,
> {
    match home {
        Some(home) => Some(joined(joined(home, dir), sub)),
        None => None,
    }
}

/// The root that is set, or one below the home directory.
pub open spec fn sessions_root(
    set: Option<Seq<char>>,
    home: Option<Seq<char>>,
    dir: Seq<char>,
    sub: Seq<char>,
) -> Option<Seq<char>> {
    match set {
        Some(root) => Some(root),
        None => below_home(home, dir, sub),
    }
}

fn find_root(set: &Option<String>, home: Option<&str>, dir: &str, sub: &str) -> (r: Option<String>)
    ensures
        opt_view(r) == sessions_root(opt_view(*set), opt_text(home), dir@, sub@),
{
    match set {
        Some(root) => Some(root.clone()),
        None => match home {
            Some(home) => Some(join_path(&join_path(home, dir), sub)),
            None => None,
        },
    }
}

/// Where `ClaudeCode` transcripts are kept: the root that is set, or the projects of the
/// harness, whose own directory below the home directory is `dir`.
pub fn claude_code_sessions_root(cache: &SessionCache, home: Option<&str>, dir: &str) -> (r: Option<
    String,
>)
    ensures
        opt_view(r) == sessions_root(cache@.claude.root, opt_text(home), dir@, "projects"@),
{
    find_root(&cache.claude.root, home, dir, "projects")
}

/// Where `Codex` transcripts are kept.
pub fn codex_sessions_root(cache: &SessionCache, home: Option<&str>) -> (r: Option<String>)
    ensures
        opt_view(r) == sessions_root(cache@.codex.root, opt_text(home), ".codex"@, "sessions"@),
{
    find_root(&cache.codex.root, home, ".codex", "sessions")
}

/// Reads the `ClaudeCode` sessions, newest first. There are no files where there is no
/// root.
pub fn scan_claude_code_session_dir(
    cache: &mut SessionCache,
    files: &Option<Vec<SessionFile>>,
) -> (r: Vec<JsonlSessionMeta>)
    ensures
        views(r@) == scanned(Harness::ClaudeCode, old(cache)@.claude, files_below(*files)),
        final(cache)@ == (SessionCacheModel {
            claude: after_scan(Harness::ClaudeCode, old(cache)@.claude, files_below(*files)),
            ..old(cache)@
        }),
{
    scan_below(Harness::ClaudeCode, &mut cache.claude, files)
}

/// Reads the `ClaudeCode` sessions among files, newest first.
pub fn scan_claude_code_session_dir_at(cache: &mut SessionCache, files: &Vec<SessionFile>) -> (r:
    Vec<JsonlSessionMeta>)
    ensures
        views(r@) == scanned(Harness::ClaudeCode, old(cache)@.claude, views(files@)),
        final(cache)@ == (SessionCacheModel {
            claude: after_scan(Harness::ClaudeCode, old(cache)@.claude, views(files@)),
            ..old(cache)@
        }),
{
    scan_files(Harness::ClaudeCode, &mut cache.claude, files)
}

/// Reads what is known of a `ClaudeCode` session.
pub fn read_claude_code_session_meta(cache: &mut SessionCache, file: &SessionFile) -> (r: Option<
    JsonlSessionMeta,
>)
    ensures
        opt_view(r) == meta_read(Harness::ClaudeCode, old(cache)@.claude, file@),
        final(cache)@ == (SessionCacheModel {
            claude: after_meta(Harness::ClaudeCode, old(cache)@.claude, file@),
            ..old(cache)@
        }),
{
    read_meta(Harness::ClaudeCode, &mut cache.claude, file)
}

/// Reads a `ClaudeCode` session with its events.
pub fn read_claude_code_session_detail(cache: &mut SessionCache, file: &SessionFile) -> (r: Option<
    JsonlSessionDetail,
>)
    ensures
        opt_view(r) == detail_read(Harness::ClaudeCode, old(cache)@.claude, file@),
        final(cache)@ == (SessionCacheModel {
            claude: after_detail(Harness::ClaudeCode, old(cache)@.claude, file@),
            ..old(cache)@
        }),
{
    read_detail(Harness::ClaudeCode, &mut cache.claude, file)
}

/// Finds the transcript of a `ClaudeCode` session.
pub fn find_claude_code_session_path(
    cache: &mut SessionCache,
    files: &Option<Vec<SessionFile>>,
    session_id: &str,
) -> (r: Option<String>)
    ensures
        opt_view(r) == path_of(
            scanned(Harness::ClaudeCode, old(cache)@.claude, files_below(*files)),
            session_id@,
        ),
        final(cache)@ == (SessionCacheModel {
            claude: after_scan(Harness::ClaudeCode, old(cache)@.claude, files_below(*files)),
            ..old(cache)@
        }),
{
    find_path(Harness::ClaudeCode, &mut cache.claude, files, session_id)
}

/// Reads when a `ClaudeCode` session began.
pub fn claude_code_first_event_timestamp(
    cache: &mut SessionCache,
    files: &Option<Vec<SessionFile>>,
    session_id: &str,
) -> (r: Option<i64>)
    ensures
        r == first_event(
            Harness::ClaudeCode,
            old(cache)@.claude,
            files_below(*files),
            session_id@,
        ),
        final(cache)@ == (SessionCacheModel {
            claude: after_first_event(
                Harness::ClaudeCode,
                old(cache)@.claude,
                files_below(*files),
                session_id@,
            ),
            ..old(cache)@
        }),
{
    find_first_event(Harness::ClaudeCode, &mut cache.claude, files, session_id)
}

// --- `Codex` ----------------------------------------------------------------------------

/// Reads the `Codex` sessions, newest first. There are no files where there is no root.
pub fn scan_codex_session_dir(cache: &mut SessionCache, files: &Option<Vec<SessionFile>>) -> (r:
    Vec<JsonlSessionMeta>)
    ensures
        views(r@) == scanned(Harness::Codex, old(cache)@.codex, files_below(*files)),
        final(cache)@ == (SessionCacheModel {
            codex: after_scan(Harness::Codex, old(cache)@.codex, files_below(*files)),
            ..old(cache)@
        }),
{
    scan_below(Harness::Codex, &mut cache.codex, files)
}

/// Reads the `Codex` sessions among files, newest first.
pub fn scan_codex_session_dir_at(cache: &mut SessionCache, files: &Vec<SessionFile>) -> (r: Vec<
    JsonlSessionMeta,
>)
    ensures
        views(r@) == scanned(Harness::Codex, old(cache)@.codex, views(files@)),
        final(cache)@ == (SessionCacheModel {
            codex: after_scan(Harness::Codex, old(cache)@.codex, views(files@)),
            ..old(cache)@
        }),
{
    scan_files(Harness::Codex, &mut cache.codex, files)
}

/// Reads what is known of a `Codex` session.
pub fn read_codex_session_meta(cache: &mut SessionCache, file: &SessionFile) -> (r: Option<
    JsonlSessionMeta,
>)
    ensures
        opt_view(r) == meta_read(Harness::Codex, old(cache)@.codex, file@),
        final(cache)@ == (SessionCacheModel {
            codex: after_meta(Harness::Codex, old(cache)@.codex, file@),
            ..old(cache)@
        }),
{
    read_meta(Harness::Codex, &mut cache.codex, file)
}

/// Reads a `Codex` session with its events.
pub fn read_codex_session_detail(cache: &mut SessionCache, file: &SessionFile) -> (r: Option<
    JsonlSessionDetail,
>)
    ensures
        opt_view(r) == detail_read(Harness::Codex, old(cache)@.codex, file@),
        final(cache)@ == (SessionCacheModel {
            codex: after_detail(Harness::Codex, old(cache)@.codex, file@),
            ..old(cache)@
        }),
{
    read_detail(Harness::Codex, &mut cache.codex, file)
}

/// Finds the transcript of a `Codex` session.
pub fn find_codex_session_path(
    cache: &mut SessionCache,
    files: &Option<Vec<SessionFile>>,
    session_id: &str,
) -> (r: Option<String>)
    ensures
        opt_view(r) == path_of(
            scanned(Harness::Codex, old(cache)@.codex, files_below(*files)),
            session_id@,
        ),
        final(cache)@ == (SessionCacheModel {
            codex: after_scan(Harness::Codex, old(cache)@.codex, files_below(*files)),
            ..old(cache)@
        }),
{
    find_path(Harness::Codex, &mut cache.codex, files, session_id)
}

/// Reads when a `Codex` session began.
pub fn codex_first_event_timestamp(
    cache: &mut SessionCache,
    files: &Option<Vec<SessionFile>>,
    session_id: &str,
) -> (r: Option<i64>)
    ensures
        r == first_event(Harness::Codex, old(cache)@.codex, files_below(*files), session_id@),
        final(cache)@ == (SessionCacheModel {
            codex: after_first_event(
                Harness::Codex,
                old(cache)@.codex,
                files_below(*files),
                session_id@,
            ),
            ..old(cache)@
        }),
{
    find_first_event(Harness::Codex, &mut cache.codex, files, session_id)
}

// --- for tests ------------------------------------------------------------------------

/// Forgets what was read, and the roots that were set.
pub fn clear_caches_for_tests(cache: &mut SessionCache)
    ensures
        final(cache)@ == (SessionCacheModel { claude: nothing_read(), codex: nothing_read() }),
{
    cache.claude = HarnessCache::empty();
    cache.codex = HarnessCache::empty();
}

/// Sets the root of `ClaudeCode` transcripts.
pub fn set_claude_code_test_root_for_tests(cache: &mut SessionCache, path: String)
    ensures
        final(cache)@ == (SessionCacheModel {
            claude: HarnessCacheModel { root: Some(path@), ..old(cache)@.claude },
            ..old(cache)@
        }),
{
    cache.claude.root = Some(path);
}

/// Sets the root of `Codex` transcripts.
pub fn set_codex_test_root_for_tests(cache: &mut SessionCache, path: String)
    ensures
        final(cache)@ == (SessionCacheModel {
            codex: HarnessCacheModel { root: Some(path@), ..old(cache)@.codex },
            ..old(cache)@
        }),
{
    cache.codex.root = Some(path);
}

} // verus!

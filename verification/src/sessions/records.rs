//! What is read of a session.

use vstd::prelude::*;

use crate::rows::{list_dup, list_same, opt_dup, opt_same, opt_view, views, Row};

verus! {

/// What is known of a session.
#[derive(Debug, Default, PartialEq, Eq)]
pub struct JsonlSessionMeta {
    pub session_id: String,
    pub jsonl_path: String,
    pub cwd: String,
    pub created: i64,
    pub modified: i64,
    pub event_count: u32,
}

/// What a [`JsonlSessionMeta`] holds.
#[verifier::ext_equal]
pub struct JsonlSessionMetaModel {
    pub session_id: Seq<char>,
    pub jsonl_path: Seq<char>,
    pub cwd: Seq<char>,
    pub created: i64,
    pub modified: i64,
    pub event_count: u32,
}

impl View for JsonlSessionMeta {
    type V = JsonlSessionMetaModel;

    open spec fn view(&self) -> JsonlSessionMetaModel {
        JsonlSessionMetaModel {
            session_id: self.session_id@,
            jsonl_path: self.jsonl_path@,
            cwd: self.cwd@,
            created: self.created,
            modified: self.modified,
            event_count: self.event_count,
        }
    }
}

impl Row for JsonlSessionMeta {
    fn dup(&self) -> (r: Self) {
        JsonlSessionMeta {
            session_id: self.session_id.clone(),
            jsonl_path: self.jsonl_path.clone(),
            cwd: self.cwd.clone(),
            created: self.created,
            modified: self.modified,
            event_count: self.event_count,
        }
    }

    fn same(&self, other: &Self) -> (r: bool) {
        self.session_id == other.session_id
            && self.jsonl_path == other.jsonl_path
            && self.cwd == other.cwd
            && self.created == other.created
            && self.modified == other.modified
            && self.event_count == other.event_count
    }
}

impl Clone for JsonlSessionMeta {
    fn clone(&self) -> (r: Self)
        ensures
            r@ == self@,
    {
        self.dup()
    }
}

/// How much of a prompt a request read from a cache.
#[derive(Debug, Default, PartialEq, Eq)]
pub struct JsonlCacheEvent {
    pub message_id: String,
    pub session_id: String,
    pub timestamp_ms: i64,
    /// Input tokens that were not cached.
    pub input_tokens: i64,
    pub cache_read: i64,
    pub cache_write: i64,
    pub total_tokens: i64,
    pub model: Option<String>,
    pub finish: Option<String>,
    pub context_limit: Option<i64>,
}

/// What a [`JsonlCacheEvent`] holds.
#[verifier::ext_equal]
pub struct JsonlCacheEventModel {
    pub message_id: Seq<char>,
    pub session_id: Seq<char>,
    pub timestamp_ms: i64,
    pub input_tokens: i64,
    pub cache_read: i64,
    pub cache_write: i64,
    pub total_tokens: i64,
    pub model: Option<Seq<char>>,
    pub finish: Option<Seq<char>>,
    pub context_limit: Option<i64>,
}

impl View for JsonlCacheEvent {
    type V = JsonlCacheEventModel;

    open spec fn view(&self) -> JsonlCacheEventModel {
        JsonlCacheEventModel {
            message_id: self.message_id@,
            session_id: self.session_id@,
            timestamp_ms: self.timestamp_ms,
            input_tokens: self.input_tokens,
            cache_read: self.cache_read,
            cache_write: self.cache_write,
            total_tokens: self.total_tokens,
            model: opt_view(self.model),
            finish: opt_view(self.finish),
            context_limit: opt_view(self.context_limit),
        }
    }
}

impl Row for JsonlCacheEvent {
    fn dup(&self) -> (r: Self) {
        JsonlCacheEvent {
            message_id: self.message_id.clone(),
            session_id: self.session_id.clone(),
            timestamp_ms: self.timestamp_ms,
            input_tokens: self.input_tokens,
            cache_read: self.cache_read,
            cache_write: self.cache_write,
            total_tokens: self.total_tokens,
            model: opt_dup(&self.model),
            finish: opt_dup(&self.finish),
            context_limit: opt_dup(&self.context_limit),
        }
    }

    fn same(&self, other: &Self) -> (r: bool) {
        self.message_id == other.message_id
            && self.session_id == other.session_id
            && self.timestamp_ms == other.timestamp_ms
            && self.input_tokens == other.input_tokens
            && self.cache_read == other.cache_read
            && self.cache_write == other.cache_write
            && self.total_tokens == other.total_tokens
            && opt_same(&self.model, &other.model)
            && opt_same(&self.finish, &other.finish)
            && opt_same(&self.context_limit, &other.context_limit)
    }
}

impl Clone for JsonlCacheEvent {
    fn clone(&self) -> (r: Self)
        ensures
            r@ == self@,
    {
        self.dup()
    }
}

/// A session with its events.
#[derive(Debug, Default, PartialEq, Eq)]
pub struct JsonlSessionDetail {
    pub meta: JsonlSessionMeta,
    pub events: Vec<JsonlCacheEvent>,
}

/// What a [`JsonlSessionDetail`] holds.
#[verifier::ext_equal]
pub struct JsonlSessionDetailModel {
    pub meta: JsonlSessionMetaModel,
    pub events: Seq<JsonlCacheEventModel>,
}

impl View for JsonlSessionDetail {
    type V = JsonlSessionDetailModel;

    open spec fn view(&self) -> JsonlSessionDetailModel {
        JsonlSessionDetailModel {
            meta: self.meta@,
            events: views(self.events@),
        }
    }
}

impl Row for JsonlSessionDetail {
    fn dup(&self) -> (r: Self) {
        JsonlSessionDetail {
            meta: self.meta.dup(),
            events: list_dup(&self.events),
        }
    }

    fn same(&self, other: &Self) -> (r: bool) {
        self.meta.same(&other.meta)
            && list_same(&self.events, &other.events)
    }
}

impl Clone for JsonlSessionDetail {
    fn clone(&self) -> (r: Self)
        ensures
            r@ == self@,
    {
        self.dup()
    }
}

/// When a file was changed.
#[derive(Debug, Clone, Copy, Default, PartialEq, Eq, Structural)]
pub struct FileTime {
    pub secs: i64,
    pub nanos: u32,
}

impl View for FileTime {
    type V = FileTime;

    open spec fn view(&self) -> FileTime {
        *self
    }
}

impl Row for FileTime {
    fn dup(&self) -> (r: Self) {
        *self
    }

    fn same(&self, other: &Self) -> (r: bool) {
        *self == *other
    }
}

/// A transcript: its path, its name without the extension, when it was changed and its
/// lines. A time is missing where the file cannot be inspected, lines are where it cannot be
/// read.
#[derive(Debug, Default, PartialEq, Eq)]
pub struct SessionFile {
    pub path: String,
    pub stem: Option<String>,
    pub mtime: Option<FileTime>,
    pub lines: Option<TextLines>,
}

/// What a [`SessionFile`] holds.
#[verifier::ext_equal]
pub struct SessionFileModel {
    pub path: Seq<char>,
    pub stem: Option<Seq<char>>,
    pub mtime: Option<FileTime>,
    pub lines: Option<TextLinesModel>,
}

impl View for SessionFile {
    type V = SessionFileModel;

    open spec fn view(&self) -> SessionFileModel {
        SessionFileModel {
            path: self.path@,
            stem: opt_view(self.stem),
            mtime: opt_view(self.mtime),
            lines: opt_view(self.lines),
        }
    }
}

impl Row for SessionFile {
    fn dup(&self) -> (r: Self) {
        SessionFile {
            path: self.path.clone(),
            stem: opt_dup(&self.stem),
            mtime: opt_dup(&self.mtime),
            lines: opt_dup(&self.lines),
        }
    }

    fn same(&self, other: &Self) -> (r: bool) {
        self.path == other.path
            && opt_same(&self.stem, &other.stem)
            && opt_same(&self.mtime, &other.mtime)
            && opt_same(&self.lines, &other.lines)
    }
}

impl Clone for SessionFile {
    fn clone(&self) -> (r: Self)
        ensures
            r@ == self@,
    {
        self.dup()
    }
}

/// The lines of a text.
#[derive(Debug, Default, PartialEq, Eq)]
pub struct TextLines {
    pub lines: Vec<String>,
}

/// What a [`TextLines`] holds.
#[verifier::ext_equal]
pub struct TextLinesModel {
    pub lines: Seq<Seq<char>>,
}

impl View for TextLines {
    type V = TextLinesModel;

    open spec fn view(&self) -> TextLinesModel {
        TextLinesModel {
            lines: views(self.lines@),
        }
    }
}

impl Row for TextLines {
    fn dup(&self) -> (r: Self) {
        TextLines {
            lines: list_dup(&self.lines),
        }
    }

    fn same(&self, other: &Self) -> (r: bool) {
        list_same(&self.lines, &other.lines)
    }
}

impl Clone for TextLines {
    fn clone(&self) -> (r: Self)
        ensures
            r@ == self@,
    {
        self.dup()
    }
}

} // verus!

//! The entries of a transcript, and the session that they make up.

use vstd::prelude::*;
use vstd::wrapping::i64_specs::wrapping_add;

use crate::rows::{
    group_views, map_rows, opt_dup, opt_view, sort_rows, sorted, take_all, take_next, views, Row,
    RowOrder,
};
use crate::sessions::records::{
    JsonlCacheEvent, JsonlCacheEventModel, JsonlSessionDetail, JsonlSessionDetailModel,
    JsonlSessionMeta, JsonlSessionMetaModel,
};
use crate::sessions::tree::{
    any_int, any_text, get_i64_any, get_i64_any_optional, get_member, get_optional_string,
    get_optional_string_any, int_or_zero, member, opt_member, opt_tree, parse_json_line,
    parse_ts_ms, parsed_json, text_of, texts, time_of, tree, Json, JsonTree,
};
use crate::text::{decimal, owned, same_text, u64_text};

verus! {

/// A line of a transcript: the value that it spells, if it spells one.
#[derive(Debug, PartialEq, Eq)]
pub struct Entry {
    pub value: Option<Json>,
}

impl View for Entry {
    type V = Option<JsonTree>;

    open spec fn view(&self) -> Option<JsonTree> {
        opt_tree(self.value)
    }
}

/// The entries of the lines of a transcript.
pub open spec fn entries_of(lines: Seq<Seq<char>>) -> Seq<Option<JsonTree>> {
    lines.map_values(|l: Seq<char>| parsed_json(l))
}

fn read_entry(line: &String) -> (r: Entry)
    ensures
        r@ == parsed_json(line@),
{
    Entry { value: parse_json_line(line) }
}

/// Parses the lines of a transcript.
pub fn read_entries(lines: &Vec<String>) -> (r: Vec<Entry>)
    ensures
        views(r@) == entries_of(views(lines@)),
{
    map_rows(lines, read_entry, Ghost(|l: Seq<char>| parsed_json(l)))
}

/// Events by time; equal times keep their order.
pub struct TimeOrder;

impl RowOrder<JsonlCacheEvent> for TimeOrder {
    open spec fn le(a: JsonlCacheEventModel, b: JsonlCacheEventModel) -> bool {
        a.timestamp_ms <= b.timestamp_ms
    }

    proof fn le_total(a: JsonlCacheEventModel, b: JsonlCacheEventModel) {
    }

    proof fn le_transitive(
        a: JsonlCacheEventModel,
        b: JsonlCacheEventModel,
        c: JsonlCacheEventModel,
    ) {
    }

    fn at_most(a: &JsonlCacheEvent, b: &JsonlCacheEvent) -> (r: bool) {
        a.timestamp_ms <= b.timestamp_ms
    }
}

/// The events by time.
pub open spec fn by_time(events: Seq<JsonlCacheEventModel>) -> Seq<JsonlCacheEventModel> {
    sorted::<JsonlCacheEvent, TimeOrder>(events)
}

/// The number of events as a session keeps it.
pub open spec fn event_count(n: nat) -> u32 {
    (n as usize) as u32
}

fn count_events(events: &Vec<JsonlCacheEvent>) -> (r: u32)
    ensures
        r == event_count(events@.len()),
{
    #[verifier::truncate]
    (events.len() as u32)
}

// --- `ClaudeCode` ----------------------------------------------------------------------

/// Whether an entry belongs to a conversation of a subagent.
pub open spec fn sidechain(entry: JsonTree) -> bool {
    member(entry, "isSidechain"@) == Some(JsonTree::Bool(true))
}

/// The sum of a request's tokens. One beyond the range wraps round.
pub open spec fn claude_total(usage: JsonTree) -> i64 {
    wrapping_add(
        wrapping_add(
            wrapping_add(
                int_or_zero(usage, seq!["input_tokens"@]),
                int_or_zero(usage, seq!["cache_read_input_tokens"@]),
            ),
            int_or_zero(usage, seq!["cache_creation_input_tokens"@]),
        ),
        int_or_zero(usage, seq!["output_tokens"@]),
    )
}

/// The event of an entry: that of an assistant's message outside subagents that used
/// tokens.
pub open spec fn claude_event(entry: JsonTree) -> Option<JsonlCacheEventModel> {
    let message = member(entry, "message"@);
    let usage = opt_member(message, "usage"@);
    if text_of(member(entry, "type"@)) != Some("assistant"@) || sidechain(entry) {
        None
    } else {
        match (message, usage) {
            (Some(message), Some(usage)) => if claude_total(usage) == 0 {
                None
            } else {
                match (
                    text_of(member(entry, "uuid"@)),
                    text_of(member(entry, "sessionId"@)),
                    time_of(member(entry, "timestamp"@)),
                ) {
                    (Some(message_id), Some(session_id), Some(timestamp_ms)) => Some(
                        JsonlCacheEventModel {
                            message_id,
                            session_id,
                            timestamp_ms,
                            input_tokens: int_or_zero(usage, seq!["input_tokens"@]),
                            cache_read: int_or_zero(usage, seq!["cache_read_input_tokens"@]),
                            cache_write: int_or_zero(usage, seq!["cache_creation_input_tokens"@]),
                            total_tokens: claude_total(usage),
                            model: text_of(member(message, "model"@)),
                            finish: text_of(member(message, "stop_reason"@)),
                            context_limit: None,
                        },
                    ),
                    _ => None,
                }
            },
            _ => None,
        }
    }
}

fn text_is(value: &Json, key: &str, wanted: &str) -> (r: bool)
    ensures
        r == (text_of(member(tree(*value), key@)) == Some(wanted@)),
{
    match get_member(value, key) {
        Some(Json::Text(t)) => same_text(t, wanted),
        _ => false,
    }
}

fn read_count(value: &Json, key: &str) -> (r: i64)
    ensures
        r == int_or_zero(tree(*value), seq![key@]),
{
    let keys: [&str; 1] = [key];
    assert(texts(keys@) =~= seq![key@]);
    get_i64_any(value, &keys)
}

/// Reads the event of an entry.
pub fn claude_code_event_from_entry(entry: &Json) -> (r: Option<JsonlCacheEvent>)
    ensures
        opt_view(r) == claude_event(tree(*entry)),
{
    if !text_is(entry, "type", "assistant") {
        return None;
    }
    match get_member(entry, "isSidechain") {
        Some(Json::Bool(b)) => {
            if *b {
                return None;
            }
        },
        _ => {},
    }
    assert(!sidechain(tree(*entry)));
    let message = match get_member(entry, "message") {
        Some(message) => message,
        None => {
            return None;
        },
    };
    let usage = match get_member(message, "usage") {
        Some(usage) => usage,
        None => {
            return None;
        },
    };
    let input: i64 = read_count(usage, "input_tokens");
    let cache_read: i64 = read_count(usage, "cache_read_input_tokens");
    let cache_write: i64 = read_count(usage, "cache_creation_input_tokens");
    let output: i64 = read_count(usage, "output_tokens");
    let total: i64 = input.wrapping_add(cache_read).wrapping_add(cache_write).wrapping_add(output);
    if total == 0 {
        return None;
    }
    let message_id = match get_optional_string(entry, "uuid") {
        Some(t) => t,
        None => {
            return None;
        },
    };
    let session_id = match get_optional_string(entry, "sessionId") {
        Some(t) => t,
        None => {
            return None;
        },
    };
    let timestamp_ms: i64 = match parse_ts_ms(get_member(entry, "timestamp")) {
        Some(ms) => ms,
        None => {
            return None;
        },
    };
    Some(
        JsonlCacheEvent {
            message_id,
            session_id,
            timestamp_ms,
            input_tokens: input,
            cache_read,
            cache_write,
            total_tokens: total,
            model: get_optional_string(message, "model"),
            finish: get_optional_string(message, "stop_reason"),
            context_limit: None,
        },
    )
}

/// The event of a line.
pub open spec fn line_event(entry: Option<JsonTree>) -> Option<JsonlCacheEventModel> {
    match entry {
        Some(j) => claude_event(j),
        None => None,
    }
}

/// The events of a transcript, in its order.
pub open spec fn claude_events(entries: Seq<Option<JsonTree>>) -> Seq<JsonlCacheEventModel>
    decreases entries.len(),
{
    if entries.len() == 0 {
        Seq::empty()
    } else {
        let rest = claude_events(entries.drop_last());
        match line_event(entries.last()) {
            Some(e) => rest.push(e),
            None => rest,
        }
    }
}

/// The first session id of an event that is not empty.
pub open spec fn claude_session_id(entries: Seq<Option<JsonTree>>) -> Seq<char>
    decreases entries.len(),
{
    if entries.len() == 0 {
        Seq::empty()
    } else {
        let rest = claude_session_id(entries.drop_last());
        match line_event(entries.last()) {
            Some(e) if rest.len() == 0 => e.session_id,
            _ => rest,
        }
    }
}

/// The text of a value that is one, empty where it is none.
pub open spec fn text_or_empty(t: Option<Seq<char>>) -> Seq<char> {
    match t {
        Some(t) => t,
        None => Seq::empty(),
    }
}

/// The first working directory of an event's entry that is not empty.
pub open spec fn claude_cwd(entries: Seq<Option<JsonTree>>) -> Seq<char>
    decreases entries.len(),
{
    if entries.len() == 0 {
        Seq::empty()
    } else {
        let rest = claude_cwd(entries.drop_last());
        match (entries.last(), line_event(entries.last())) {
            (Some(j), Some(_)) if rest.len() == 0 => text_or_empty(text_of(member(j, "cwd"@))),
            _ => rest,
        }
    }
}

/// The times of events.
pub open spec fn times(events: Seq<JsonlCacheEventModel>) -> Seq<i64> {
    events.map_values(|e: JsonlCacheEventModel| e.timestamp_ms)
}

/// The session of a transcript with events.
pub open spec fn session_detail(
    path: Seq<char>,
    session_id: Seq<char>,
    cwd: Seq<char>,
    created: Option<i64>,
    events: Seq<JsonlCacheEventModel>,
) -> JsonlSessionDetailModel {
    let ordered = by_time(events);
    JsonlSessionDetailModel {
        meta: JsonlSessionMetaModel {
            session_id,
            jsonl_path: path,
            cwd,
            created: match created {
                Some(t) => t,
                None => ordered[0].timestamp_ms,
            },
            modified: ordered.last().timestamp_ms,
            event_count: event_count(ordered.len()),
        },
        events: ordered,
    }
}

/// The session of a `ClaudeCode` transcript.
pub open spec fn claude_detail(
    path: Seq<char>,
    stem: Option<Seq<char>>,
    entries: Seq<Option<JsonTree>>,
) -> Option<JsonlSessionDetailModel> {
    let events = claude_events(entries);
    let named = claude_session_id(entries);
    if events.len() == 0 {
        None
    } else {
        Some(
            session_detail(
                path,
                if named.len() == 0 {
                    text_or_empty(stem)
                } else {
                    named
                },
                claude_cwd(entries),
                None,
                events,
            ),
        )
    }
}

/// A session begins with its first event, ends with its last, and its events are in order.
pub proof fn a_session_spans_its_events(
    path: Seq<char>,
    session_id: Seq<char>,
    cwd: Seq<char>,
    created: Option<i64>,
    events: Seq<JsonlCacheEventModel>,
    i: int,
)
    requires
        0 <= i < events.len(),
    ensures
        ({
            let d = session_detail(path, session_id, cwd, created, events);
            &&& d.events.to_multiset() == events.to_multiset()
            &&& d.events[i].timestamp_ms <= d.meta.modified
            &&& created is None ==> d.meta.created <= d.events[i].timestamp_ms
        }),
{
    crate::rows::sorted_is_ordered::<JsonlCacheEvent, TimeOrder>(events);
    crate::rows::sorted_len::<JsonlCacheEvent, TimeOrder>(events);
    let ordered = by_time(events);
    if i > 0 {
        assert(TimeOrder::le(ordered[0], ordered[i]));
    }
    if i < ordered.len() - 1 {
        assert(TimeOrder::le(ordered[i], ordered[ordered.len() - 1]));
    }
}

fn assemble(
    path: &str,
    session_id: String,
    cwd: String,
    created: Option<i64>,
    events: Vec<JsonlCacheEvent>,
) -> (r: JsonlSessionDetail)
    requires
        events.len() > 0,
    ensures
        r@ == session_detail(path@, session_id@, cwd@, created, views(events@)),
{
    broadcast use group_views;

    let ghost given = views(events@);
    let ordered = sort_rows::<JsonlCacheEvent, TimeOrder>(events);
    proof {
        crate::rows::sorted_len::<JsonlCacheEvent, TimeOrder>(given);
        assert(views(ordered@)[0] == ordered@[0]@);
        assert(views(ordered@).last() == ordered@.last()@);
    }
    let first: i64 = ordered[0].timestamp_ms;
    let last: i64 = ordered[ordered.len() - 1].timestamp_ms;
    let count: u32 = count_events(&ordered);
    JsonlSessionDetail {
        meta: JsonlSessionMeta {
            session_id,
            jsonl_path: owned(path),
            cwd,
            created: match created {
                Some(t) => t,
                None => first,
            },
            modified: last,
            event_count: count,
        },
        events: ordered,
    }
}

fn empty(s: &String) -> (r: bool)
    ensures
        r == (s@.len() == 0),
{
    s.as_str().unicode_len() == 0
}

fn or_empty(t: Option<String>) -> (r: String)
    ensures
        r@ == text_or_empty(opt_view(t)),
{
    match t {
        Some(t) => t,
        None => String::new(),
    }
}

/// Reads the session of a `ClaudeCode` transcript from its entries.
pub fn claude_code_session_detail(path: &str, stem: &Option<String>, entries: &Vec<Entry>) -> (r:
    Option<JsonlSessionDetail>)
    ensures
        opt_view(r) == claude_detail(path@, opt_view(*stem), views(entries@)),
{
    broadcast use group_views;

    let ghost all = views(entries@);
    let mut events: Vec<JsonlCacheEvent> = Vec::new();
    let mut session_id: String = String::new();
    let mut cwd: String = String::new();
    let mut i: usize = 0;
    while i < entries.len()
        invariant
            i <= entries.len(),
            all == views(entries@),
            views(events@) == claude_events(all.take(i as int)),
            session_id@ == claude_session_id(all.take(i as int)),
            cwd@ == claude_cwd(all.take(i as int)),
        decreases entries.len() - i,
    {
        proof {
            take_next(all, i as int);
        }
        assert(all[i as int] == entries@[i as int]@);
        match &entries[i].value {
            Some(entry) => {
                match claude_code_event_from_entry(entry) {
                    Some(event) => {
                        if empty(&session_id) {
                            session_id = event.session_id.clone();
                        }
                        if empty(&cwd) {
                            cwd = or_empty(get_optional_string(entry, "cwd"));
                        }
                        events.push(event);
                    },
                    None => {},
                }
            },
            None => {},
        }
        i += 1;
    }
    proof {
        take_all(all);
    }
    if events.len() == 0 {
        return None;
    }
    if empty(&session_id) {
        session_id = or_empty(opt_dup(stem));
    }
    Some(assemble(path, session_id, cwd, None, events))
}

// --- `Codex` ----------------------------------------------------------------------------

/// The difference of two counts, held to the range of the type.
pub open spec fn saturating_difference(a: i64, b: i64) -> i64 {
    let d = a - b;
    if d > i64::MAX {
        i64::MAX
    } else if d < i64::MIN {
        i64::MIN
    } else {
        d as i64
    }
}

fn subtract(a: i64, b: i64) -> (r: i64)
    ensures
        r == saturating_difference(a, b),
{
    let d: i128 = (a as i128) - (b as i128);
    if d > i64::MAX as i128 {
        i64::MAX
    } else if d < i64::MIN as i128 {
        i64::MIN
    } else {
        d as i64
    }
}

/// The input tokens that were not cached. A count of Codex holds the cached ones.
pub open spec fn codex_input(usage: JsonTree) -> i64 {
    saturating_difference(
        int_or_zero(usage, seq!["input_tokens"@]),
        int_or_zero(usage, seq!["cached_input_tokens"@]),
    )
}

/// The sum of a request's tokens: what is reported, or what the parts add up to where that
/// is more. A sum beyond the range wraps round.
pub open spec fn codex_total(usage: JsonTree) -> i64 {
    let parts = wrapping_add(
        wrapping_add(codex_input(usage), int_or_zero(usage, seq!["cached_input_tokens"@])),
        int_or_zero(usage, seq!["output_tokens"@]),
    );
    let reported = int_or_zero(usage, seq!["total_tokens"@]);
    if reported >= parts {
        reported
    } else {
        parts
    }
}

/// The id of an event: its line, behind the session where that is known.
pub open spec fn codex_message_id(session: Seq<char>, line: Seq<char>) -> Seq<char> {
    session + "-tc-"@ + line
}

/// The event of an entry: that of a token count.
pub open spec fn codex_event(entry: JsonTree, session: Seq<char>, line: nat) -> Option<
    JsonlCacheEventModel,
> {
    let payload = member(entry, "payload"@);
    let info = opt_member(payload, "info"@);
    let usage = opt_member(info, "last_token_usage"@);
    if text_of(member(entry, "type"@)) != Some("event_msg"@) {
        None
    } else {
        match (payload, info, usage) {
            (Some(payload), Some(info), Some(usage)) => if text_of(member(payload, "type"@)) != Some(
                "token_count"@,
            ) || codex_total(usage) == 0 {
                None
            } else {
                match time_of(member(entry, "timestamp"@)) {
                    Some(timestamp_ms) => Some(
                        JsonlCacheEventModel {
                            message_id: if session.len() == 0 {
                                decimal(line)
                            } else {
                                codex_message_id(session, decimal(line))
                            },
                            session_id: session,
                            timestamp_ms,
                            input_tokens: codex_input(usage),
                            cache_read: int_or_zero(usage, seq!["cached_input_tokens"@]),
                            cache_write: 0,
                            total_tokens: codex_total(usage),
                            model: text_of(member(info, "model"@)),
                            finish: None,
                            context_limit: any_int(info, seq!["model_context_window"@]),
                        },
                    ),
                    None => None,
                }
            },
            _ => None,
        }
    }
}

fn write_message_id(session: &str, line: &str) -> (r: String)
    ensures
        r@ == codex_message_id(session@, line@),
{
    let mut r = owned(session);
    r.append("-tc-");
    r.append(line);
    r
}

/// Reads the event of an entry.
pub fn codex_event_from_entry(entry: &Json, session_id: &str, line_index: usize) -> (r: Option<
    JsonlCacheEvent,
>)
    ensures
        opt_view(r) == codex_event(tree(*entry), session_id@, line_index as nat),
{
    if !text_is(entry, "type", "event_msg") {
        return None;
    }
    let payload = match get_member(entry, "payload") {
        Some(payload) => payload,
        None => {
            return None;
        },
    };
    if !text_is(payload, "type", "token_count") {
        return None;
    }
    let info = match get_member(payload, "info") {
        Some(info) => info,
        None => {
            return None;
        },
    };
    let usage = match get_member(info, "last_token_usage") {
        Some(usage) => usage,
        None => {
            return None;
        },
    };
    let raw_input: i64 = read_count(usage, "input_tokens");
    let cache_read: i64 = read_count(usage, "cached_input_tokens");
    let input: i64 = subtract(raw_input, cache_read);
    let output: i64 = read_count(usage, "output_tokens");
    let reported: i64 = read_count(usage, "total_tokens");
    let parts: i64 = input.wrapping_add(cache_read).wrapping_add(output);
    let total: i64 = if reported >= parts {
        reported
    } else {
        parts
    };
    if total == 0 {
        return None;
    }
    let timestamp_ms: i64 = match parse_ts_ms(get_member(entry, "timestamp")) {
        Some(ms) => ms,
        None => {
            return None;
        },
    };
    let line = u64_text(line_index as u64);
    let message_id = if session_id.unicode_len() == 0 {
        line
    } else {
        write_message_id(session_id, &line)
    };
    let keys: [&str; 1] = ["model_context_window"];
    assert(texts(keys@) =~= seq!["model_context_window"@]);
    Some(
        JsonlCacheEvent {
            message_id,
            session_id: owned(session_id),
            timestamp_ms,
            input_tokens: input,
            cache_read,
            cache_write: 0,
            total_tokens: total,
            model: get_optional_string(info, "model"),
            finish: None,
            context_limit: get_i64_any_optional(info, &keys),
        },
    )
}

/// The first of some members, of the payload or else of the entry itself, that is a text.
pub open spec fn header_text(
    entry: JsonTree,
    inner: Seq<Seq<char>>,
    outer: Seq<Seq<char>>,
) -> Option<Seq<char>> {
    let found = match member(entry, "payload"@) {
        Some(payload) => any_text(payload, inner),
        None => None,
    };
    match found {
        Some(t) => Some(t),
        None => any_text(entry, outer),
    }
}

/// The session id of a header entry.
pub open spec fn header_id(entry: JsonTree) -> Option<Seq<char>> {
    header_text(
        entry,
        seq!["id"@, "session_id"@, "sessionId"@],
        seq!["session_id"@, "sessionId"@, "id"@],
    )
}

/// The working directory of a header entry.
pub open spec fn header_cwd(entry: JsonTree) -> Option<Seq<char>> {
    header_text(
        entry,
        seq!["cwd"@, "worktree"@, "directory"@],
        seq!["cwd"@, "worktree"@, "directory"@],
    )
}

/// Reads the session id of a header entry.
pub fn codex_session_meta_id(entry: &Json) -> (r: Option<String>)
    ensures
        opt_view(r) == header_id(tree(*entry)),
{
    let inner: [&str; 3] = ["id", "session_id", "sessionId"];
    let outer: [&str; 3] = ["session_id", "sessionId", "id"];
    assert(texts(inner@) =~= seq!["id"@, "session_id"@, "sessionId"@]);
    assert(texts(outer@) =~= seq!["session_id"@, "sessionId"@, "id"@]);
    let found = match get_member(entry, "payload") {
        Some(payload) => get_optional_string_any(payload, &inner),
        None => None,
    };
    match found {
        Some(t) => Some(t),
        None => get_optional_string_any(entry, &outer),
    }
}

/// Reads the working directory of a header entry.
pub fn codex_session_meta_cwd(entry: &Json) -> (r: Option<String>)
    ensures
        opt_view(r) == header_cwd(tree(*entry)),
{
    let keys: [&str; 3] = ["cwd", "worktree", "directory"];
    assert(texts(keys@) =~= seq!["cwd"@, "worktree"@, "directory"@]);
    let found = match get_member(entry, "payload") {
        Some(payload) => get_optional_string_any(payload, &keys),
        None => None,
    };
    match found {
        Some(t) => Some(t),
        None => get_optional_string_any(entry, &keys),
    }
}

/// What the lines of a `Codex` transcript have shown so far.
#[verifier::ext_equal]
pub struct CodexStateModel {
    pub session_id: Seq<char>,
    pub cwd: Seq<char>,
    pub created: Option<i64>,
    pub events: Seq<JsonlCacheEventModel>,
}

/// Whether an entry is a header.
pub open spec fn header_entry(entry: JsonTree) -> bool {
    text_of(member(entry, "type"@)) == Some("session_meta"@)
}

/// What the lines of a `Codex` transcript show. A header names the session, and the events
/// behind it belong to that.
pub open spec fn codex_state(entries: Seq<Option<JsonTree>>, stem: Option<Seq<char>>) ->
    CodexStateModel
    decreases entries.len(),
{
    if entries.len() == 0 {
        CodexStateModel {
            session_id: Seq::empty(),
            cwd: Seq::empty(),
            created: None,
            events: Seq::empty(),
        }
    } else {
        let rest = codex_state(entries.drop_last(), stem);
        match entries.last() {
            None => rest,
            Some(j) => if header_entry(j) {
                CodexStateModel {
                    session_id: match header_id(j) {
                        Some(t) => t,
                        None => text_or_empty(stem),
                    },
                    cwd: text_or_empty(header_cwd(j)),
                    created: time_of(member(j, "timestamp"@)),
                    events: rest.events,
                }
            } else {
                match codex_event(j, rest.session_id, (entries.len() - 1) as nat) {
                    Some(e) => CodexStateModel { events: rest.events.push(e), ..rest },
                    None => rest,
                }
            },
        }
    }
}

/// An event that belongs to a session: one that came before any header gets it.
pub open spec fn owned_event(e: JsonlCacheEventModel, session: Seq<char>) -> JsonlCacheEventModel {
    if e.session_id.len() == 0 {
        JsonlCacheEventModel {
            session_id: session,
            message_id: codex_message_id(session, e.message_id),
            ..e
        }
    } else {
        e
    }
}

/// The session of a `Codex` transcript.
pub open spec fn codex_detail(
    path: Seq<char>,
    stem: Option<Seq<char>>,
    entries: Seq<Option<JsonTree>>,
) -> Option<JsonlSessionDetailModel> {
    let state = codex_state(entries, stem);
    let session = if state.session_id.len() == 0 {
        text_or_empty(stem)
    } else {
        state.session_id
    };
    if session.len() == 0 || state.events.len() == 0 {
        None
    } else {
        Some(
            session_detail(
                path,
                session,
                state.cwd,
                state.created,
                state.events.map_values(|e: JsonlCacheEventModel| owned_event(e, session)),
            ),
        )
    }
}

fn own_events(events: &Vec<JsonlCacheEvent>, session: &str) -> (r: Vec<JsonlCacheEvent>)
    ensures
        views(r@) == views(events@).map_values(
            |e: JsonlCacheEventModel| owned_event(e, session@),
        ),
{
    broadcast use group_views;

    let ghost wanted = views(events@).map_values(
        |e: JsonlCacheEventModel| owned_event(e, session@),
    );
    let mut r: Vec<JsonlCacheEvent> = Vec::new();
    let mut i: usize = 0;
    while i < events.len()
        invariant
            i <= events.len(),
            wanted == views(events@).map_values(
                |e: JsonlCacheEventModel| owned_event(e, session@),
            ),
            views(r@) == wanted.take(i as int),
        decreases events.len() - i,
    {
        proof {
            take_next(wanted, i as int);
        }
        assert(views(events@)[i as int] == events@[i as int]@);
        let mut e = events[i].dup();
        if empty(&e.session_id) {
            e.message_id = write_message_id(session, &e.message_id);
            e.session_id = owned(session);
        }
        r.push(e);
        i += 1;
    }
    proof {
        take_all(wanted);
    }
    r
}

/// Reads the session of a `Codex` transcript from its entries.
pub fn codex_session_detail(path: &str, stem: &Option<String>, entries: &Vec<Entry>) -> (r: Option<
    JsonlSessionDetail,
>)
    ensures
        opt_view(r) == codex_detail(path@, opt_view(*stem), views(entries@)),
{
    broadcast use group_views;

    let ghost all = views(entries@);
    let ghost named = opt_view(*stem);
    let mut session_id: String = String::new();
    let mut cwd: String = String::new();
    let mut created: Option<i64> = None;
    let mut events: Vec<JsonlCacheEvent> = Vec::new();
    let mut i: usize = 0;
    while i < entries.len()
        invariant
            i <= entries.len(),
            all == views(entries@),
            named == opt_view(*stem),
            codex_state(all.take(i as int), named) == (CodexStateModel {
                session_id: session_id@,
                cwd: cwd@,
                created,
                events: views(events@),
            }),
        decreases entries.len() - i,
    {
        proof {
            take_next(all, i as int);
        }
        assert(all[i as int] == entries@[i as int]@);
        match &entries[i].value {
            Some(entry) => {
                if text_is(entry, "type", "session_meta") {
                    session_id = match codex_session_meta_id(entry) {
                        Some(t) => t,
                        None => or_empty(opt_dup(stem)),
                    };
                    cwd = or_empty(codex_session_meta_cwd(entry));
                    created = parse_ts_ms(get_member(entry, "timestamp"));
                } else {
                    match codex_event_from_entry(entry, &session_id, i) {
                        Some(event) => {
                            events.push(event);
                        },
                        None => {},
                    }
                }
            },
            None => {},
        }
        i += 1;
    }
    proof {
        take_all(all);
    }
    if empty(&session_id) {
        session_id = or_empty(opt_dup(stem));
    }
    if empty(&session_id) || events.len() == 0 {
        return None;
    }
    let events = own_events(&events, &session_id);
    assert(events@.len() == views(events@).len());
    Some(assemble(path, session_id, cwd, created, events))
}

} // verus!

//! What is read of a transcript: an event for each line that counts tokens.

use vstd::prelude::*;

use crate::rows::{sorted_holds_the_same, sorted_len};
use crate::sessions::entries::{
    by_time, claude_cwd, claude_detail, claude_event, claude_events, claude_session_id,
    claude_total, codex_detail, codex_event, codex_input, codex_state, codex_total, header_cwd,
    header_entry, header_id, header_text, line_event, owned_event, text_or_empty, TimeOrder,
};
use crate::sessions::records::{JsonlCacheEvent, JsonlCacheEventModel, JsonlSessionDetailModel};
use crate::sessions::tree::{any_text, int_or_zero, member, opt_member, text_of, time_of, JsonTree};
use crate::text::decimal;

verus! {

/// Whether `lines` are the places of those entries that count tokens, in order.
pub open spec fn are_the_lines(
    entries: Seq<Option<JsonTree>>,
    counts: spec_fn(JsonTree) -> bool,
    lines: Seq<int>,
) -> bool {
    &&& forall|k: int, l: int| 0 <= k < l < lines.len() ==> lines[k] < lines[l]
    &&& forall|k: int|
        0 <= k < lines.len() ==> 0 <= #[trigger] lines[k] < entries.len() && (
        entries[lines[k]] matches Some(j) && counts(j))
    &&& forall|i: int|
        0 <= i < entries.len() && (#[trigger] entries[i] matches Some(j) && counts(j))
            ==> lines.contains(i)
}

proof fn one_line_more(
    entries: Seq<Option<JsonTree>>,
    counts: spec_fn(JsonTree) -> bool,
    lines: Seq<int>,
)
    requires
        entries.len() > 0,
        are_the_lines(entries.drop_last(), counts, lines),
    ensures
        entries.last() matches Some(j) && counts(j) ==> are_the_lines(
            entries,
            counts,
            lines.push(entries.len() - 1),
        ),
        !(entries.last() matches Some(j) && counts(j)) ==> are_the_lines(entries, counts, lines),
{
    let rest = entries.drop_last();
    let last = entries.len() - 1;
    let more = lines.push(last);
    assert forall|k: int| 0 <= k < lines.len() implies 0 <= #[trigger] lines[k] < entries.len() && (
    entries[lines[k]] matches Some(j) && counts(j)) by {
        assert(rest[lines[k]] == entries[lines[k]]);
    }
    assert forall|i: int|
        0 <= i < last && (#[trigger] entries[i] matches Some(j) && counts(j)) implies lines.contains(
        i,
    ) by {
        assert(rest[i] == entries[i]);
    }
    if entries.last() matches Some(j) && counts(j) {
        assert forall|k: int| 0 <= k < more.len() implies 0 <= #[trigger] more[k] < entries.len()
            && (entries[more[k]] matches Some(j) && counts(j)) by {
            if k < lines.len() {
                assert(more[k] == lines[k]);
            }
        }
        assert forall|i: int|
            0 <= i < entries.len() && (#[trigger] entries[i] matches Some(j) && counts(j)) implies
            more.contains(i) by {
            if i < last {
                let k = choose|k: int| 0 <= k < lines.len() && lines[k] == i;
                assert(more[k] == i);
            } else {
                assert(more[lines.len() as int] == i);
            }
        }
        assert forall|k: int, l: int| 0 <= k < l < more.len() implies more[k] < more[l] by {
            if l == lines.len() {
                assert(lines[k] < rest.len());
            }
        }
    }
}

/// Whether an event tells what the entry at a place of `lines` counted.
pub open spec fn told(
    entries: Seq<Option<JsonTree>>,
    lines: Seq<int>,
    tells: spec_fn(JsonTree, int, JsonlCacheEventModel) -> bool,
    k: int,
    e: JsonlCacheEventModel,
) -> bool {
    tells(entries[lines[k]]->0, lines[k], e)
}

/// Whether one of some events tells what the entry at a place of `lines` counted.
pub open spec fn line_is_told(
    entries: Seq<Option<JsonTree>>,
    lines: Seq<int>,
    tells: spec_fn(JsonTree, int, JsonlCacheEventModel) -> bool,
    k: int,
    events: Seq<JsonlCacheEventModel>,
) -> bool {
    exists|i: int| 0 <= i < events.len() && told(entries, lines, tells, k, #[trigger] events[i])
}

/// Whether an event tells what one of the entries at `lines` counted.
pub open spec fn tells_a_line(
    entries: Seq<Option<JsonTree>>,
    lines: Seq<int>,
    tells: spec_fn(JsonTree, int, JsonlCacheEventModel) -> bool,
    e: JsonlCacheEventModel,
) -> bool {
    exists|k: int| 0 <= k < lines.len() && #[trigger] told(entries, lines, tells, k, e)
}

/// Whether there is one event for each line: as many of them as lines, each line told by one,
/// and each telling one.
pub open spec fn one_for_each(
    entries: Seq<Option<JsonTree>>,
    lines: Seq<int>,
    tells: spec_fn(JsonTree, int, JsonlCacheEventModel) -> bool,
    events: Seq<JsonlCacheEventModel>,
) -> bool {
    &&& events.len() == lines.len()
    &&& forall|k: int|
        0 <= k < lines.len() ==> #[trigger] line_is_told(entries, lines, tells, k, events)
    &&& forall|i: int|
        0 <= i < events.len() ==> tells_a_line(entries, lines, tells, #[trigger] events[i])
}

proof fn ordering_keeps_one_for_each(
    entries: Seq<Option<JsonTree>>,
    lines: Seq<int>,
    tells: spec_fn(JsonTree, int, JsonlCacheEventModel) -> bool,
    events: Seq<JsonlCacheEventModel>,
)
    requires
        events.len() == lines.len(),
        forall|k: int|
            0 <= k < lines.len() ==> #[trigger] told(entries, lines, tells, k, events[k]),
    ensures
        one_for_each(entries, lines, tells, by_time(events)),
{
    let ordered = by_time(events);
    sorted_len::<JsonlCacheEvent, TimeOrder>(events);
    assert forall|k: int| 0 <= k < lines.len() implies #[trigger] line_is_told(
        entries,
        lines,
        tells,
        k,
        ordered,
    ) by {
        assert(told(entries, lines, tells, k, events[k]));
        assert(events.contains(events[k]));
        sorted_holds_the_same::<JsonlCacheEvent, TimeOrder>(events, events[k]);
        let i = choose|i: int| 0 <= i < ordered.len() && ordered[i] == events[k];
        assert(told(entries, lines, tells, k, ordered[i]));
    }
    assert forall|i: int| 0 <= i < ordered.len() implies tells_a_line(
        entries,
        lines,
        tells,
        #[trigger] ordered[i],
    ) by {
        assert(ordered.contains(ordered[i]));
        sorted_holds_the_same::<JsonlCacheEvent, TimeOrder>(events, ordered[i]);
        let k = choose|k: int| 0 <= k < events.len() && events[k] == ordered[i];
        assert(told(entries, lines, tells, k, events[k]));
    }
}

// --- `Codex` ----------------------------------------------------------------------------

/// What a token count of `Codex` reports.
pub open spec fn codex_usage(entry: JsonTree) -> Option<JsonTree> {
    opt_member(opt_member(member(entry, "payload"@), "info"@), "last_token_usage"@)
}

/// Whether an entry of `Codex` is a token count with tokens and a time.
pub open spec fn codex_counts() -> spec_fn(JsonTree) -> bool {
    |entry: JsonTree|
        {
            &&& text_of(member(entry, "type"@)) == Some("event_msg"@)
            &&& text_of(opt_member(member(entry, "payload"@), "type"@)) == Some("token_count"@)
            &&& codex_usage(entry) matches Some(usage) && codex_total(usage) != 0
            &&& time_of(member(entry, "timestamp"@)) is Some
        }
}

/// Whether an event tells what a line of `Codex` counted.
pub open spec fn tells_codex() -> spec_fn(JsonTree, int, JsonlCacheEventModel) -> bool {
    |entry: JsonTree, line: int, e: JsonlCacheEventModel|
        {
            let usage = codex_usage(entry)->0;
            &&& time_of(member(entry, "timestamp"@)) == Some(e.timestamp_ms)
            &&& e.message_id == e.session_id + "-tc-"@ + decimal(line as nat)
            &&& e.cache_read == int_or_zero(usage, seq!["cached_input_tokens"@])
            &&& e.input_tokens == codex_input(usage)
            &&& e.total_tokens == codex_total(usage)
            &&& e.cache_write == 0
        }
}

proof fn an_owned_event_tells(
    entry: JsonTree,
    line: int,
    e: JsonlCacheEventModel,
    session: Seq<char>,
)
    requires
        codex_event(entry, e.session_id, line as nat) == Some(e),
    ensures
        tells_codex()(entry, line, owned_event(e, session)),
{
}

proof fn codex_line(entry: JsonTree, session: Seq<char>, line: nat)
    ensures
        codex_event(entry, session, line) is Some == codex_counts()(entry),
        codex_counts()(entry) ==> !header_entry(entry),
{
    reveal_strlit("event_msg");
    reveal_strlit("session_meta");
    assert("event_msg"@.len() != "session_meta"@.len());
}

proof fn codex_lines(entries: Seq<Option<JsonTree>>, stem: Option<Seq<char>>) -> (lines: Seq<int>)
    ensures
        are_the_lines(entries, codex_counts(), lines),
        codex_state(entries, stem).events.len() == lines.len(),
        forall|k: int|
            0 <= k < lines.len() ==> {
                let e = #[trigger] codex_state(entries, stem).events[k];
                codex_event(entries[lines[k]]->0, e.session_id, lines[k] as nat) == Some(e)
            },
    decreases entries.len(),
{
    if entries.len() == 0 {
        Seq::empty()
    } else {
        let rest = entries.drop_last();
        let lines = codex_lines(rest, stem);
        let before = codex_state(rest, stem);
        let now = codex_state(entries, stem);
        one_line_more(entries, codex_counts(), lines);
        assert forall|k: int| 0 <= k < lines.len() implies ({
            let e = #[trigger] before.events[k];
            codex_event(entries[lines[k]]->0, e.session_id, lines[k] as nat) == Some(e)
        }) by {
            assert(rest[lines[k]] == entries[lines[k]]);
        }
        match entries.last() {
            Some(j) => {
                codex_line(j, before.session_id, (entries.len() - 1) as nat);
                if codex_counts()(j) {
                    let more = lines.push(entries.len() - 1);
                    assert forall|k: int| 0 <= k < more.len() implies ({
                        let e = #[trigger] now.events[k];
                        codex_event(entries[more[k]]->0, e.session_id, more[k] as nat) == Some(e)
                    }) by {
                        if k < lines.len() {
                            assert(now.events[k] == before.events[k]);
                        }
                    }
                    more
                } else {
                    lines
                }
            },
            None => lines,
        }
    }
}

/// Every line of a `Codex` transcript that is a token count with tokens and a time has its
/// event among the events of the session: they are as many as these lines, one for each, with
/// the time and the tokens of the line.
pub proof fn every_codex_count_is_an_event(
    path: Seq<char>,
    stem: Option<Seq<char>>,
    entries: Seq<Option<JsonTree>>,
)
    ensures
        codex_detail(path, stem, entries) matches Some(d) ==> {
            &&& exists|lines: Seq<int>| #[trigger]
                are_the_lines(entries, codex_counts(), lines) && one_for_each(
                    entries,
                    lines,
                    tells_codex(),
                    d.events,
                )
            &&& d.events.len() <= u32::MAX ==> d.meta.event_count == d.events.len()
        },
{
    if let Some(d) = codex_detail(path, stem, entries) {
        let lines = codex_lines(entries, stem);
        let raw = codex_state(entries, stem).events;
        let session = d.meta.session_id;
        let events = raw.map_values(|e: JsonlCacheEventModel| owned_event(e, session));
        assert(d.events == by_time(events));
        assert forall|k: int| 0 <= k < lines.len() implies #[trigger] told(
            entries,
            lines,
            tells_codex(),
            k,
            events[k],
        ) by {
            an_owned_event_tells(entries[lines[k]]->0, lines[k], raw[k], session);
        }
        ordering_keeps_one_for_each(entries, lines, tells_codex(), events);
        counts_as_many(d);
    }
}

proof fn counts_as_many(d: JsonlSessionDetailModel)
    requires
        d.meta.event_count == crate::sessions::entries::event_count(d.events.len()),
    ensures
        d.events.len() <= u32::MAX ==> d.meta.event_count == d.events.len(),
{
}

/// The session of a `Codex` transcript is named by its last header, or by its file where no
/// header names it. It has a session where it is named and a line counts tokens.
pub proof fn the_last_header_names_a_session(
    path: Seq<char>,
    stem: Option<Seq<char>>,
    entries: Seq<Option<JsonTree>>,
    at: int,
)
    requires
        0 <= at < entries.len(),
        entries[at] matches Some(j) && header_entry(j),
        forall|i: int|
            at < i < entries.len() ==> !(#[trigger] entries[i] matches Some(j) && header_entry(j)),
    ensures
        codex_state(entries, stem).session_id == match header_id(entries[at]->0) {
            Some(t) => t,
            None => text_or_empty(stem),
        },
        codex_state(entries, stem).created == time_of(member(entries[at]->0, "timestamp"@)),
        codex_state(entries, stem).cwd == text_or_empty(header_cwd(entries[at]->0)),
        codex_detail(path, stem, entries) matches Some(d) ==> {
            &&& header_id(entries[at]->0) matches Some(t) ==> (t.len() > 0 ==> d.meta.session_id
                == t)
            &&& header_id(entries[at]->0) is None ==> d.meta.session_id == text_or_empty(stem)
            &&& d.meta.jsonl_path == path
        },
    decreases entries.len(),
{
    if at < entries.len() - 1 {
        let rest = entries.drop_last();
        assert(rest[at] == entries[at]);
        assert forall|i: int| at < i < rest.len() implies !(#[trigger] rest[i] matches Some(j)
            && header_entry(j)) by {
            assert(rest[i] == entries[i]);
        }
        the_last_header_names_a_session(path, stem, rest, at);
        assert(!(entries[entries.len() - 1] matches Some(j) && header_entry(j)));
    }
}

/// What a token count of `Codex` amounts to. The cached tokens are part of the input: the two
/// counts of an event add up to what was reported as input. The sum is what is reported, or
/// input and output together where that is more.
pub proof fn codex_tokens_add_up(usage: JsonTree)
    requires
        ({
            let input = int_or_zero(usage, seq!["input_tokens"@]);
            let cached = int_or_zero(usage, seq!["cached_input_tokens"@]);
            let output = int_or_zero(usage, seq!["output_tokens"@]);
            0 <= cached <= input && 0 <= output && input + output <= i64::MAX
        }),
    ensures
        ({
            let input = int_or_zero(usage, seq!["input_tokens"@]);
            let cached = int_or_zero(usage, seq!["cached_input_tokens"@]);
            let output = int_or_zero(usage, seq!["output_tokens"@]);
            let reported = int_or_zero(usage, seq!["total_tokens"@]);
            let total = codex_total(usage);
            &&& codex_input(usage) + cached == input
            &&& total >= reported
            &&& total >= input + output
            &&& total == reported || total == input + output
        }),
{
}

// --- `ClaudeCode` -----------------------------------------------------------------------

/// Whether an entry of `ClaudeCode` is an assistant's message with tokens, a time and a name,
/// outside a subagent's conversation.
pub open spec fn claude_counts() -> spec_fn(JsonTree) -> bool {
    |entry: JsonTree|
        {
            &&& text_of(member(entry, "type"@)) == Some("assistant"@)
            &&& member(entry, "isSidechain"@) != Some(JsonTree::Bool(true))
            &&& opt_member(member(entry, "message"@), "usage"@) matches Some(usage)
                && claude_total(usage) != 0
            &&& text_of(member(entry, "uuid"@)) is Some
            &&& text_of(member(entry, "sessionId"@)) is Some
            &&& time_of(member(entry, "timestamp"@)) is Some
        }
}

/// Whether an event tells what a line of `ClaudeCode` counted.
pub open spec fn tells_claude() -> spec_fn(JsonTree, int, JsonlCacheEventModel) -> bool {
    |entry: JsonTree, line: int, e: JsonlCacheEventModel| tells_message(entry, e)
}

/// Whether an event tells the tokens of an assistant's message.
pub open spec fn tells_message(entry: JsonTree, e: JsonlCacheEventModel) -> bool {
    let usage = opt_member(member(entry, "message"@), "usage"@)->0;
    &&& time_of(member(entry, "timestamp"@)) == Some(e.timestamp_ms)
    &&& text_of(member(entry, "uuid"@)) == Some(e.message_id)
    &&& text_of(member(entry, "sessionId"@)) == Some(e.session_id)
    &&& e.input_tokens == int_or_zero(usage, seq!["input_tokens"@])
    &&& e.cache_read == int_or_zero(usage, seq!["cache_read_input_tokens"@])
    &&& e.cache_write == int_or_zero(usage, seq!["cache_creation_input_tokens"@])
    &&& e.total_tokens == claude_total(usage)
    &&& e.model == text_of(opt_member(member(entry, "message"@), "model"@))
    &&& e.finish == text_of(opt_member(member(entry, "message"@), "stop_reason"@))
}

proof fn claude_line(entry: JsonTree)
    ensures
        claude_event(entry) is Some == claude_counts()(entry),
        claude_event(entry) matches Some(e) ==> tells_message(entry, e),
{
}

proof fn claude_lines(entries: Seq<Option<JsonTree>>) -> (lines: Seq<int>)
    ensures
        are_the_lines(entries, claude_counts(), lines),
        claude_events(entries).len() == lines.len(),
        forall|k: int|
            0 <= k < lines.len() ==> tells_message(
                entries[#[trigger] lines[k]]->0,
                claude_events(entries)[k],
            ),
    decreases entries.len(),
{
    if entries.len() == 0 {
        Seq::empty()
    } else {
        let rest = entries.drop_last();
        let lines = claude_lines(rest);
        let before = claude_events(rest);
        let now = claude_events(entries);
        one_line_more(entries, claude_counts(), lines);
        assert forall|k: int| 0 <= k < lines.len() implies tells_message(
            entries[#[trigger] lines[k]]->0,
            before[k],
        ) by {
            assert(rest[lines[k]] == entries[lines[k]]);
        }
        match entries.last() {
            Some(j) => {
                claude_line(j);
                if claude_counts()(j) {
                    let more = lines.push(entries.len() - 1);
                    assert(now == before.push(line_event(entries.last())->0));
                    assert forall|k: int| 0 <= k < more.len() implies tells_message(
                        entries[#[trigger] more[k]]->0,
                        now[k],
                    ) by {
                        if k < lines.len() {
                            assert(more[k] == lines[k]);
                        }
                    }
                    more
                } else {
                    lines
                }
            },
            None => lines,
        }
    }
}

/// Every line of a `ClaudeCode` transcript that is an assistant's message with tokens, outside
/// a subagent's conversation, has its event among the events of the session: they are as many
/// as these lines, one for each, with the time and the tokens of the line. Where there is such
/// a line, there is a session.
pub proof fn every_claude_count_is_an_event(
    path: Seq<char>,
    stem: Option<Seq<char>>,
    entries: Seq<Option<JsonTree>>,
)
    ensures
        claude_detail(path, stem, entries) is Some <==> exists|i: int|
            0 <= i < entries.len() && (#[trigger] entries[i] matches Some(j) && claude_counts()(j)),
        claude_detail(path, stem, entries) matches Some(d) ==> {
            &&& exists|lines: Seq<int>| #[trigger]
                are_the_lines(entries, claude_counts(), lines) && one_for_each(
                    entries,
                    lines,
                    tells_claude(),
                    d.events,
                )
            &&& d.events.len() <= u32::MAX ==> d.meta.event_count == d.events.len()
            &&& d.meta.jsonl_path == path
        },
{
    let lines = claude_lines(entries);
    let events = claude_events(entries);
    if lines.len() > 0 {
        assert(entries[lines[0]] matches Some(j) && claude_counts()(j));
    }
    if let Some(d) = claude_detail(path, stem, entries) {
        assert(d.events == by_time(events));
        assert forall|k: int| 0 <= k < lines.len() implies #[trigger] told(
            entries,
            lines,
            tells_claude(),
            k,
            events[k],
        ) by {
            assert(tells_message(entries[lines[k]]->0, events[k]));
        }
        ordering_keeps_one_for_each(entries, lines, tells_claude(), events);
        counts_as_many(d);
    }
}

/// The tokens of a `ClaudeCode` message are those of its four counts together.
pub proof fn claude_tokens_add_up(usage: JsonTree)
    requires
        ({
            let input = int_or_zero(usage, seq!["input_tokens"@]);
            let read = int_or_zero(usage, seq!["cache_read_input_tokens"@]);
            let written = int_or_zero(usage, seq!["cache_creation_input_tokens"@]);
            let output = int_or_zero(usage, seq!["output_tokens"@]);
            input >= 0 && read >= 0 && written >= 0 && output >= 0 && input + read + written
                + output <= i64::MAX
        }),
    ensures
        claude_total(usage) == int_or_zero(usage, seq!["input_tokens"@]) + int_or_zero(
            usage,
            seq!["cache_read_input_tokens"@],
        ) + int_or_zero(usage, seq!["cache_creation_input_tokens"@]) + int_or_zero(
            usage,
            seq!["output_tokens"@],
        ),
{
}

/// A session is named by the first of its events that names one, and is where the first of
/// them that says so was.
pub proof fn the_first_event_names_a_session(
    path: Seq<char>,
    stem: Option<Seq<char>>,
    entries: Seq<Option<JsonTree>>,
    at: int,
)
    requires
        0 <= at < entries.len(),
        line_event(entries[at]) is Some,
    ensures
        line_event(entries[at])->0.session_id.len() > 0 && (forall|i: int|
            0 <= i < at ==> (line_event(#[trigger] entries[i]) matches Some(e)
                ==> e.session_id.len() == 0)) ==> (claude_detail(path, stem, entries) matches Some(
            d,
        ) ==> d.meta.session_id == line_event(entries[at])->0.session_id),
        cwd_of(entries[at]).len() > 0 && (forall|i: int|
            0 <= i < at ==> (line_event(#[trigger] entries[i]) is Some ==> cwd_of(
                entries[i],
            ).len() == 0)) ==> (claude_detail(path, stem, entries) matches Some(d) ==> d.meta.cwd
            == cwd_of(entries[at])),
        claude_detail(path, stem, entries) matches Some(d) ==> d.meta.jsonl_path == path,
{
    if line_event(entries[at])->0.session_id.len() > 0 && (forall|i: int|
        0 <= i < at ==> (line_event(#[trigger] entries[i]) matches Some(e) ==> e.session_id.len()
            == 0)) {
        the_first_name(entries, at);
    }
    if cwd_of(entries[at]).len() > 0 && (forall|i: int|
        0 <= i < at ==> (line_event(#[trigger] entries[i]) is Some ==> cwd_of(entries[i]).len()
            == 0)) {
        the_first_directory(entries, at);
    }
}

/// The working directory that an entry says, empty where it says none.
pub open spec fn cwd_of(entry: Option<JsonTree>) -> Seq<char> {
    match entry {
        Some(j) => match text_of(member(j, "cwd"@)) {
            Some(t) => t,
            None => Seq::empty(),
        },
        None => Seq::empty(),
    }
}

proof fn the_first_name(entries: Seq<Option<JsonTree>>, at: int)
    requires
        forall|i: int|
            0 <= i < entries.len() && i < at ==> (line_event(#[trigger] entries[i]) matches Some(e)
                ==> e.session_id.len() == 0),
        0 <= at,
        at < entries.len() ==> line_event(entries[at]) is Some && line_event(
            entries[at],
        )->0.session_id.len() > 0,
    ensures
        at < entries.len() ==> claude_session_id(entries) == line_event(entries[at])->0.session_id,
        at >= entries.len() ==> claude_session_id(entries).len() == 0,
    decreases entries.len(),
{
    if entries.len() > 0 {
        let rest = entries.drop_last();
        assert forall|i: int| 0 <= i < rest.len() implies #[trigger] rest[i] == entries[i] by {}
        the_first_name(rest, at);
        assert(entries[entries.len() - 1] == entries.last());
    }
}

proof fn the_first_directory(entries: Seq<Option<JsonTree>>, at: int)
    requires
        forall|i: int|
            0 <= i < entries.len() && i < at ==> (line_event(#[trigger] entries[i]) is Some
                ==> cwd_of(entries[i]).len() == 0),
        0 <= at,
        at < entries.len() ==> line_event(entries[at]) is Some && cwd_of(entries[at]).len() > 0,
    ensures
        at < entries.len() ==> claude_cwd(entries) == cwd_of(entries[at]),
        at >= entries.len() ==> claude_cwd(entries).len() == 0,
    decreases entries.len(),
{
    if entries.len() > 0 {
        let rest = entries.drop_last();
        assert forall|i: int| 0 <= i < rest.len() implies #[trigger] rest[i] == entries[i] by {}
        the_first_directory(rest, at);
        assert(entries[entries.len() - 1] == entries.last());
    }
}

/// What a header says stands in its payload, and in the entry itself where the payload does
/// not say it.
pub proof fn a_payload_is_read_first(
    entry: JsonTree,
    inner: Seq<Seq<char>>,
    outer: Seq<Seq<char>>,
)
    ensures
        member(entry, "payload"@) matches Some(payload) ==> (any_text(payload, inner) is Some
            ==> header_text(entry, inner, outer) == any_text(payload, inner)),
        (member(entry, "payload"@) matches Some(payload) ==> any_text(payload, inner) is None)
            ==> header_text(entry, inner, outer) == any_text(entry, outer),
{
}

} // verus!

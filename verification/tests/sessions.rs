//! Transcripts of other harnesses.

use magic_context::sessions::entries::{claude_code_event_from_entry, codex_session_meta_id};
use magic_context::sessions::recent::{recent_sessions, SessionRow};
use magic_context::sessions::records::{FileTime, JsonlSessionDetail, SessionFile, TextLines};
use magic_context::sessions::scan::{
    claude_code_first_event_timestamp, claude_code_sessions_root, clear_caches_for_tests,
    codex_first_event_timestamp, codex_sessions_root, find_claude_code_session_path,
    find_codex_session_path, read_claude_code_session_detail, read_claude_code_session_meta,
    read_codex_session_detail, read_codex_session_meta, scan_claude_code_session_dir,
    scan_claude_code_session_dir_at, scan_codex_session_dir, scan_codex_session_dir_at,
    set_claude_code_test_root_for_tests, set_codex_test_root_for_tests, Harness, SessionCache,
};
use magic_context::sessions::tree::{
    get_i64_any, get_i64_any_optional, get_optional_string, get_optional_string_any,
    parse_json_line, parse_ts_ms,
};
use magic_context::sessions::walk::{DirItem, Walk};

fn file(path: &str, secs: i64, content: &str) -> SessionFile {
    let name = path.rsplit('/').next().unwrap();
    SessionFile {
        path: path.to_string(),
        stem: name.strip_suffix(".jsonl").map(|stem| stem.to_string()),
        mtime: Some(FileTime { secs, nanos: 0 }),
        lines: Some(TextLines {
            lines: content.lines().map(|line| line.to_string()).collect(),
        }),
    }
}

fn turn(id: &str, session: &str, at: &str, input: u32) -> String {
    format!(
        "{{\"type\":\"assistant\",\"uuid\":\"{id}\",\"sessionId\":\"{session}\",\"timestamp\":\"{at}\",\"cwd\":\"/p\",\"message\":{{\"usage\":{{\"input_tokens\":{input}}}}}}}\n"
    )
}

#[test]
fn parses_claude_code_usage_and_skips_sidechains() {
    let mut cache = SessionCache::new();
    clear_caches_for_tests(&mut cache);
    let file = file(
        "/tmp/fixtures/-tmp-proj/session-1.jsonl",
        1,
        r#"{"type":"assistant","uuid":"cc-main-1","sessionId":"cc-session","timestamp":"2026-01-01T00:00:00.000Z","cwd":"/tmp/proj","isSidechain":false,"message":{"model":"sonnet-4-20250514","stop_reason":"end_turn","usage":{"input_tokens":10,"cache_read_input_tokens":100,"cache_creation_input_tokens":25,"output_tokens":5}}}
{"type":"assistant","uuid":"cc-side-1","sessionId":"cc-session","timestamp":"2026-01-01T00:00:01.000Z","cwd":"/tmp/proj","isSidechain":true,"message":{"model":"sonnet-4-20250514","usage":{"input_tokens":1,"cache_read_input_tokens":2,"cache_creation_input_tokens":3,"output_tokens":4}}}
{"type":"assistant","uuid":"cc-zero","sessionId":"cc-session","timestamp":"2026-01-01T00:00:02.000Z","cwd":"/tmp/proj","isSidechain":false,"message":{"model":"sonnet-4-20250514","usage":{"input_tokens":0,"cache_read_input_tokens":0,"cache_creation_input_tokens":0,"output_tokens":0}}}
"#,
    );

    let detail = read_claude_code_session_detail(&mut cache, &file).unwrap();
    assert_eq!(detail.meta.session_id, "cc-session");
    assert_eq!(detail.events.len(), 1);
    let event = &detail.events[0];
    assert_eq!(event.message_id, "cc-main-1");
    assert_eq!(event.input_tokens, 10);
    assert_eq!(event.cache_read, 100);
    assert_eq!(event.cache_write, 25);
    assert_eq!(event.total_tokens, 140);
    assert_eq!(event.finish.as_deref(), Some("end_turn"));
    assert_eq!(event.timestamp_ms, 1_767_225_600_000);
}

#[test]
fn parses_codex_token_counts_with_input_normalization() {
    let mut cache = SessionCache::new();
    clear_caches_for_tests(&mut cache);
    let file = file(
        "/tmp/fixtures/2026/01/01/rollout-2026-01-01T000000Z-codex-session.jsonl",
        1,
        r#"{"timestamp":"2026-01-01T00:00:00.000Z","type":"session_meta","payload":{"id":"codex-session","cwd":"/tmp/proj"}}
{"timestamp":"2026-01-01T00:00:01.000Z","type":"event_msg","payload":{"type":"token_count","info":{"model_context_window":200000,"last_token_usage":{"input_tokens":1500,"cached_input_tokens":1200,"output_tokens":50,"total_tokens":1550}}}}
"#,
    );

    let detail = read_codex_session_detail(&mut cache, &file).unwrap();
    assert_eq!(detail.meta.session_id, "codex-session");
    assert_eq!(detail.events.len(), 1);
    let event = &detail.events[0];
    assert_eq!(event.message_id, "codex-session-tc-1");
    assert_eq!(event.input_tokens, 300);
    assert_eq!(event.cache_read, 1200);
    assert_eq!(event.cache_write, 0);
    assert_eq!(event.total_tokens, 1550);
    assert_eq!(event.context_limit, Some(200000));
}

#[test]
fn a_session_spans_its_events() {
    let mut cache = SessionCache::new();
    let content = turn("b", "s", "2026-01-01T00:00:05Z", 2) + &turn("a", "s", "2026-01-01T00:00:01Z", 1);
    let detail = read_claude_code_session_detail(&mut cache, &file("/r/p/x.jsonl", 1, &content)).unwrap();
    let ids: Vec<&str> = detail.events.iter().map(|e| e.message_id.as_str()).collect();
    assert_eq!(ids, vec!["a", "b"]);
    assert_eq!(detail.meta.created, 1_767_225_601_000);
    assert_eq!(detail.meta.modified, 1_767_225_605_000);
    assert_eq!(detail.meta.event_count, 2);
    assert_eq!(detail.meta.cwd, "/p");
}

#[test]
fn a_transcript_without_events_is_no_session() {
    let mut cache = SessionCache::new();
    let empty = file("/r/p/x.jsonl", 1, "{\"type\":\"user\"}\nnot json\n");
    assert!(read_claude_code_session_meta(&mut cache, &empty).is_none());
    assert!(read_codex_session_meta(&mut cache, &empty).is_none());
}

#[test]
fn a_file_is_read_anew_only_when_it_changed() {
    let mut cache = SessionCache::new();
    let first = file("/r/p/x.jsonl", 1, &turn("a", "one", "2026-01-01T00:00:01Z", 1));
    let same_time = file("/r/p/x.jsonl", 1, &turn("a", "two", "2026-01-01T00:00:01Z", 1));
    let later = file("/r/p/x.jsonl", 2, &turn("a", "two", "2026-01-01T00:00:01Z", 1));
    let id = |detail: Option<JsonlSessionDetail>| detail.unwrap().meta.session_id;
    assert_eq!(id(read_claude_code_session_detail(&mut cache, &first)), "one");
    assert_eq!(id(read_claude_code_session_detail(&mut cache, &same_time)), "one");
    assert_eq!(id(read_claude_code_session_detail(&mut cache, &later)), "two");
    clear_caches_for_tests(&mut cache);
    assert_eq!(id(read_claude_code_session_detail(&mut cache, &same_time)), "two");
}

#[test]
fn the_newest_session_comes_first() {
    let mut cache = SessionCache::new();
    let files = vec![
        file("/r/p/old.jsonl", 1, &turn("a", "old", "2026-01-01T00:00:01Z", 1)),
        file("/r/p/new.jsonl", 1, &turn("b", "new", "2026-01-02T00:00:01Z", 1)),
    ];
    let found = scan_claude_code_session_dir_at(&mut cache, &files);
    let ids: Vec<&str> = found.iter().map(|m| m.session_id.as_str()).collect();
    assert_eq!(ids, vec!["new", "old"]);
    assert!(scan_claude_code_session_dir(&mut cache, &None).is_empty());
    assert_eq!(scan_claude_code_session_dir(&mut cache, &Some(files.clone())).len(), 2);
    assert_eq!(
        find_claude_code_session_path(&mut cache, &Some(files.clone()), "old").as_deref(),
        Some("/r/p/old.jsonl")
    );
    assert_eq!(find_claude_code_session_path(&mut cache, &Some(files.clone()), "none"), None);
    assert_eq!(
        claude_code_first_event_timestamp(&mut cache, &Some(files), "old"),
        Some(1_767_225_601_000)
    );
}

#[test]
fn a_first_event_is_the_earliest() {
    let mut cache = SessionCache::new();
    let content = turn("b", "s", "2026-01-01T00:00:02.000Z", 1)
        + &turn("a", "s", "2026-01-01T00:00:01.000Z", 1);
    let files = Some(vec![file("/r/p/s.jsonl", 1, &content)]);
    let first = claude_code_first_event_timestamp(&mut cache, &files, "s");
    let detail = read_claude_code_session_detail(&mut cache, &files.as_ref().unwrap()[0]).unwrap();
    assert_eq!(first, Some(detail.meta.created));
    assert_eq!(first, detail.events.iter().map(|e| e.timestamp_ms).min());
    assert_eq!(claude_code_first_event_timestamp(&mut cache, &files, "t"), None);
    assert_eq!(find_claude_code_session_path(&mut cache, &files, "t"), None);
}

#[test]
fn a_session_begins_as_its_transcript_shows_whatever_was_read_before() {
    let mut cache = SessionCache::new();
    let old = file("/r/p/s.jsonl", 1, &turn("b", "s", "2026-01-01T00:00:02.000Z", 1));
    let other = file("/r/p/t.jsonl", 1, &turn("c", "t", "2026-01-03T00:00:00.000Z", 1));
    let before = Some(vec![old.clone(), other.clone()]);
    assert_eq!(
        claude_code_first_event_timestamp(&mut cache, &before, "s"),
        Some(1_767_225_602_000)
    );
    read_claude_code_session_detail(&mut cache, &other).unwrap();

    let content = turn("b", "s", "2026-01-01T00:00:02.000Z", 1)
        + &turn("a", "s", "2026-01-01T00:00:01.000Z", 1);
    let changed = file("/r/p/s.jsonl", 2, &content);
    let files = Some(vec![changed.clone(), other]);
    let kept = claude_code_first_event_timestamp(&mut cache, &files, "s");
    assert_eq!(kept, Some(1_767_225_601_000));
    let mut empty = SessionCache::new();
    assert_eq!(kept, claude_code_first_event_timestamp(&mut empty, &files, "s"));
    let path = find_claude_code_session_path(&mut cache, &files, "s");
    assert_eq!(path.as_deref(), Some("/r/p/s.jsonl"));
    let detail = read_claude_code_session_detail(&mut cache, &changed).unwrap();
    assert_eq!(kept, Some(detail.meta.created));
}

#[test]
fn codex_sessions_are_found_by_their_header() {
    let mut cache = SessionCache::new();
    let content = r#"{"timestamp":"2026-01-01T00:00:00.000Z","type":"session_meta","payload":{"id":"cx","cwd":"/w"}}
{"timestamp":"2026-01-01T00:00:01.000Z","type":"event_msg","payload":{"type":"token_count","info":{"last_token_usage":{"input_tokens":5}}}}
"#;
    let files = vec![file("/r/2026/a.jsonl", 1, content)];
    assert_eq!(scan_codex_session_dir_at(&mut cache, &files)[0].cwd, "/w");
    assert!(scan_codex_session_dir(&mut cache, &None).is_empty());
    assert_eq!(
        find_codex_session_path(&mut cache, &Some(files.clone()), "cx").as_deref(),
        Some("/r/2026/a.jsonl")
    );
    assert_eq!(
        codex_first_event_timestamp(&mut cache, &Some(files), "cx"),
        Some(1_767_225_601_000)
    );
    let header = parse_json_line(content.lines().next().unwrap()).unwrap();
    assert_eq!(codex_session_meta_id(&header).as_deref(), Some("cx"));
}

#[test]
fn roots_follow_the_home_directory_unless_one_is_set() {
    let mut cache = SessionCache::new();
    assert_eq!(codex_sessions_root(&cache, Some("/home/u")).as_deref(), Some("/home/u/.codex/sessions"));
    assert_eq!(codex_sessions_root(&cache, None), None);
    assert_eq!(
        claude_code_sessions_root(&cache, Some("/home/u"), ".dir").as_deref(),
        Some("/home/u/.dir/projects")
    );
    set_codex_test_root_for_tests(&mut cache, "/t/codex".to_string());
    set_claude_code_test_root_for_tests(&mut cache, "/t/cc".to_string());
    assert_eq!(codex_sessions_root(&cache, None).as_deref(), Some("/t/codex"));
    assert_eq!(claude_code_sessions_root(&cache, None, ".dir").as_deref(), Some("/t/cc"));
}

#[test]
fn a_directory_is_entered_once() {
    let dir = |path: &str| DirItem {
        path: path.to_string(),
        name: path.rsplit('/').next().unwrap().to_string(),
        is_dir: true,
    };
    let leaf = |path: &str| DirItem {
        is_dir: false,
        ..dir(path)
    };
    let mut walk = Walk::new("/r");
    assert_eq!(walk.next_directory().as_deref(), Some("/r"));
    walk.enter_directory("/r", &vec![dir("/r/loop"), leaf("/r/a.jsonl"), leaf("/r/b.txt")]);
    assert_eq!(walk.next_directory().as_deref(), Some("/r/loop"));
    walk.enter_directory("/r", &vec![leaf("/r/loop/a.jsonl")]);
    assert_eq!(walk.next_directory(), None);
    assert_eq!(walk.files, vec!["/r/a.jsonl"]);
}

#[test]
fn members_of_a_json_object() {
    let v = parse_json_line(r#"{"s":"text","e":"","n":7,"f":1.5,"big":18446744073709551615}"#).unwrap();
    assert_eq!(get_optional_string(&v, "s").as_deref(), Some("text"));
    assert_eq!(get_optional_string(&v, "n"), None);
    assert_eq!(get_optional_string_any(&v, &["x", "s"]).as_deref(), Some("text"));
    assert_eq!(get_i64_any_optional(&v, &["x", "n"]), Some(7));
    assert_eq!(get_i64_any_optional(&v, &["s"]), None);
    assert_eq!(get_i64_any(&v, &["x"]), 0);
    assert!(parse_json_line("{").is_none());
    let at = |text: &str| parse_ts_ms(parse_json_line(text).as_ref());
    assert_eq!(at("\"1970-01-01T00:00:01.500Z\""), Some(1_500));
    assert_eq!(at("\"never\""), None);
    assert_eq!(parse_ts_ms(None), None);
}

#[test]
fn an_entry_without_usage_is_no_event() {
    let entry = parse_json_line(r#"{"type":"assistant","message":{}}"#).unwrap();
    assert!(claude_code_event_from_entry(&entry).is_none());
}

#[test]
fn a_page_shows_ten_sessions_and_no_unmanaged_transcript() {
    let row = |n: usize, transcript: Option<Harness>, managed: bool| SessionRow {
        session_id: format!("s{n}"),
        transcript,
        managed,
    };
    let mut rows = vec![
        row(0, Some(Harness::ClaudeCode), false),
        row(1, Some(Harness::Codex), true),
    ];
    for n in 2..20 {
        rows.push(row(n, None, false));
    }
    let shown: Vec<String> = recent_sessions(&rows).into_iter().map(|r| r.session_id).collect();
    assert_eq!(shown.len(), 10);
    assert_eq!(shown[0], "s1");
    assert_eq!(shown[9], "s10");
}

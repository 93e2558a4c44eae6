//! Texts, numbers, digests and the words of errors.

use magic_context::digest::{
    collapse_white_space, compute_normalized_memory_hash, hex_bytes_text, stable_content_hash,
};
use magic_context::json::{merge_archive_reason, write_ids};
use magic_context::like::{fold_text, is_like, sql_like_pattern};
use magic_context::meta::{HistorianDurableState, HistorianPhase};
use magic_context::store::errors::{
    HistorianPublishError, McStoreError, ShadowStateSyncError, StateImportError,
    StateImportValidationError, StoreError,
};
use magic_context::store::records::HistorianPublishPredicate;
use magic_context::store::trace::capped_trace_error;
use magic_context::text::{
    hex_text, i64_text, is_blank, is_white_space, opt_count_text, parse_i64, parse_u64, same_text,
    starts_with, strip_prefix, text_before, trim, u64_text,
};

#[test]
fn the_hash_of_a_memory_ignores_case_and_spacing() {
    assert_eq!(
        compute_normalized_memory_hash("Hello\t  World "),
        "5eb63bbbe01eeed093cb22bb8f5acdc3"
    );
    assert_eq!(
        compute_normalized_memory_hash("hello world"),
        "5eb63bbbe01eeed093cb22bb8f5acdc3"
    );
    assert_eq!(compute_normalized_memory_hash(""), "d41d8cd98f00b204e9800998ecf8427e");
    assert_eq!(compute_normalized_memory_hash("ÄB"), compute_normalized_memory_hash("äb"));
    assert_eq!(collapse_white_space(" a \n b "), "a b");
    assert_eq!(hex_bytes_text(&vec![0, 255, 16]), "00ff10");
}

#[test]
fn the_stable_hash_is_fnv_1a() {
    assert_eq!(stable_content_hash(""), 0xcbf2_9ce4_8422_2325);
    assert_eq!(stable_content_hash("a"), 0xaf63_dc4c_8601_ec8c);
    assert_eq!(stable_content_hash("foobar"), 0x8594_4171_f739_67e8);
}

#[test]
fn a_reason_is_added_to_metadata() {
    assert_eq!(merge_archive_reason(None, "old"), r#"{"archive_reason":"old"}"#);
    assert_eq!(
        merge_archive_reason(Some(r#"{"a":1,"archive_reason":"x"}"#), "say \"no\""),
        r#"{"a":1,"archive_reason":"say \"no\""}"#
    );
    assert_eq!(merge_archive_reason(Some("[1]"), "r"), r#"{"archive_reason":"r"}"#);
    assert_eq!(merge_archive_reason(Some("{"), "r"), r#"{"archive_reason":"r"}"#);
    assert_eq!(write_ids(&vec![]), "[]");
    assert_eq!(write_ids(&vec![3, -4, i64::MIN]), "[3,-4,-9223372036854775808]");
}

#[test]
fn a_pattern_finds_its_query() {
    assert_eq!(sql_like_pattern(" 50%_Off\\ "), "%50\\%\\_off\\\\%");
    assert!(is_like(&sql_like_pattern("50%"), "save 50% now"));
    assert!(!is_like(&sql_like_pattern("50%"), "save 50 now"));
    assert!(is_like("a_c", "ABC"));
    assert!(!is_like("a_c", "ac"));
    assert!(is_like("%", ""));
    assert!(!is_like("É", "é"));
    assert_eq!(fold_text("ABCé"), "abcé");
}

#[test]
fn numbers_are_written_and_read_back() {
    assert_eq!(u64_text(0), "0");
    assert_eq!(u64_text(u64::MAX), "18446744073709551615");
    assert_eq!(i64_text(i64::MIN), "-9223372036854775808");
    assert_eq!(i64_text(42), "42");
    assert_eq!(hex_text(0x2a, 4), "002a");
    assert_eq!(opt_count_text(Some(7)), "Some(7)");
    assert_eq!(opt_count_text(None), "None");
    assert_eq!(parse_u64("18446744073709551615"), Some(u64::MAX));
    assert_eq!(parse_u64("18446744073709551616"), None);
    assert_eq!(parse_u64(""), None);
    assert_eq!(parse_i64("-9223372036854775808"), Some(i64::MIN));
    assert_eq!(parse_i64("9223372036854775808"), None);
    assert_eq!(parse_i64("1x"), None);
}

#[test]
fn texts_are_trimmed_and_compared() {
    assert_eq!(trim(" \u{3000}a b\n"), "a b");
    assert!(is_blank(" \t\n"));
    assert!(!is_blank(" x "));
    assert!(is_white_space('\u{a0}'));
    assert!(!is_white_space('a'));
    assert!(same_text("a", "a") && !same_text("a", "b"));
    assert!(starts_with("red:x", "red:") && !starts_with("re", "red:"));
    assert_eq!(strip_prefix("red:x", "red:"), Some("x"));
    assert_eq!(strip_prefix("x", "red:"), None);
    assert!(text_before("a", "ab") && text_before("Z", "a") && !text_before("b", "a"));
}

#[test]
fn the_texts_of_store_errors() {
    assert_eq!(McStoreError::Store(StoreError::Constraint).text(), "store: constraint failed");
    assert_eq!(McStoreError::Store(StoreError::Exhausted).text(), "store: row numbers exhausted");
    assert_eq!(
        McStoreError::CasConflict {
            expected: Some(1),
            found: 2
        }
        .text(),
        "cas conflict: expected Some(1), found 2"
    );
    assert_eq!(McStoreError::Serde("bad".to_string()).text(), "serde: bad");
    assert_eq!(
        McStoreError::MemoryDuplicateContent { id: 9 }.text(),
        "memory content already exists as ID 9"
    );
    assert_eq!(StateImportError::SessionNotEmpty.text(), "session already has durable state");
    assert_eq!(
        StateImportError::Store(McStoreError::Serde("x".to_string())).text(),
        "store: serde: x"
    );
}

#[test]
fn the_texts_of_import_faults() {
    let faults = [
        (
            StateImportValidationError::SeqNotIncreasing {
                previous: 2,
                current: 1,
            },
            "seq_not_increasing: compartment seq must be strictly increasing: 1 followed 2",
        ),
        (
            StateImportValidationError::RangeInvalid { sequence: 3 },
            "range_invalid: compartment 3 has start_message after end_message",
        ),
        (
            StateImportValidationError::RangesOverlap {
                previous: 1,
                current: 2,
            },
            "ranges_overlap: compartment 2 overlaps or precedes compartment 1",
        ),
        (
            StateImportValidationError::P1Empty { sequence: 4 },
            "p1_empty: compartment 4 has an empty p1",
        ),
        (
            StateImportValidationError::EndMessageIdInvalid { sequence: 5 },
            "end_message_id_invalid: compartment 5 end_message_id is not a parseable mid#idx",
        ),
    ];
    for (fault, text) in faults {
        assert_eq!(StateImportError::Validation(fault).text(), text);
    }
}

#[test]
fn the_texts_of_sync_errors() {
    assert_eq!(
        ShadowStateSyncError::GenerationMismatch {
            expected: 1,
            found: 2
        }
        .text(),
        "shadow generation mismatch: expected 1, found 2"
    );
    assert_eq!(
        ShadowStateSyncError::SeqMismatch {
            expected: 3,
            found: 4
        }
        .text(),
        "shadow seq mismatch: expected 3, found 4"
    );
    assert_eq!(
        ShadowStateSyncError::InvalidSeedBoundary {
            declared: "a\tb".to_string(),
            detail: "why".to_string()
        }
        .text(),
        "invalid seed boundary \"a\\tb\": why"
    );
}

#[test]
fn the_names_of_historian_phases() {
    let names: Vec<&str> = [
        HistorianPhase::Idle,
        HistorianPhase::Firing,
        HistorianPhase::AwaitingProducer,
        HistorianPhase::Validating,
        HistorianPhase::Publishing,
    ]
    .iter()
    .map(|phase| phase.as_str())
    .collect();
    assert_eq!(
        names,
        vec!["idle", "firing", "awaiting_producer", "validating", "publishing"]
    );
    assert_eq!(HistorianPhase::default(), HistorianPhase::Idle);
}

#[test]
fn a_trace_error_is_cut_to_its_cap() {
    assert_eq!(capped_trace_error("short"), "short");
    assert_eq!(capped_trace_error(&"é".repeat(5_000)), "é".repeat(2_000));
}

#[test]
fn the_texts_of_publish_errors() {
    let conflict = |reason: Option<&str>| HistorianPublishError::CasConflict {
        expected: None,
        found: 4,
        reason: reason.map(|r| r.to_string()),
    };
    assert_eq!(conflict(None).text(""), "publish CAS conflict: expected None, found 4");
    assert_eq!(
        conflict(Some("cut")).text(""),
        "publish CAS conflict: expected None, found 4: cut"
    );
    assert_eq!(
        HistorianPublishError::InvalidState {
            state: "idle".to_string()
        }
        .text(""),
        "historian publish invalid state: idle"
    );
    let found = HistorianDurableState::default();
    let mismatch = HistorianPublishError::StateMismatch {
        expected: HistorianPublishPredicate {
            firing_seq: 2,
            producer_run_id: "run".to_string(),
            chunk_fingerprint: "fp".to_string(),
            ..Default::default()
        },
        found: HistorianDurableState::default(),
    };
    assert_eq!(
        mismatch.text(&format!("{found:?}")),
        format!("historian publish state mismatch: expected seq 2 run run fingerprint fp, found {found:?}")
    );
}

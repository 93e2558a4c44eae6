//! The store's operations on whole scenarios.

use std::io::Write;

use magic_context::meta::{
    CoreState, HistorianChunkRange, HistorianDurableState, HistorianPhase, ModuleMeta,
};
use magic_context::store::errors::{
    HistorianPublishError, McStoreError, StateImportError, StateImportValidationError, StoreError,
};
use magic_context::store::import::StateImportPreflight;
use magic_context::store::memories::InsertMemoryInput;
use magic_context::store::notes::NoteInput;
use magic_context::store::publish::HistorianPublishRequest;
use magic_context::store::records::{
    AppendOutcome, FactCandidate, HistorianPublishPredicate, StateImportResult, StoredCompartment,
    StoredMemoryFull, TagMintInput, UserHintRow, UserMemoryRow, WorkspaceMemberRow, WorkspaceRow,
};
use magic_context::store::transcripts::MAX_CHUNK_TRANSCRIPT_COMPRESSED_BYTES;
use magic_context::store::McStore;

fn command_ledger_ids(store: &McStore, session_id: &str) -> Vec<String> {
    let mut rows: Vec<(i64, String)> = store
        .ledger
        .iter()
        .filter(|entry| entry.session_id == session_id)
        .map(|entry| (entry.row.queued_at_ms, entry.row.command_id.clone()))
        .collect();
    rows.sort();
    rows.into_iter().map(|(_, command_id)| command_id).collect()
}

fn insert_memory(
    store: &mut McStore,
    project: &str,
    id: i64,
    content: &str,
    importance: Option<i32>,
    status: &str,
    expires_at: Option<i64>,
) {
    store.memories.push(StoredMemoryFull {
        id,
        project_path: project.to_string(),
        category: "ARCHITECTURE".to_string(),
        content: content.to_string(),
        normalized_hash: format!("h{id}"),
        importance,
        status: status.to_string(),
        expires_at,
        ..Default::default()
    });
    store.last_memory_id = store.last_memory_id.max(id);
}

fn log_mutation(store: &mut McStore, project: &str, kind: &str, target: i64, content: &str) {
    store.seed_mutation(project, kind, target, content).unwrap();
}

fn add_workspace(store: &mut McStore, share_categories: &str) {
    store.workspaces.push(WorkspaceRow {
        id: 1,
        name: "ws".to_string(),
        created_at: 0,
        updated_at: 0,
        share_categories: share_categories.to_string(),
    });
    store.last_workspace_id = 1;
}

fn add_member(store: &mut McStore, project: &str, display_name: &str, display_path: &str) {
    store.members.push(WorkspaceMemberRow {
        workspace_id: 1,
        project_path: project.to_string(),
        display_name: display_name.to_string(),
        display_path: display_path.to_string(),
        added_at: 0,
    });
}

fn compressed(text: &str) -> Vec<u8> {
    let mut encoder = flate2::write::DeflateEncoder::new(Vec::new(), flate2::Compression::fast());
    encoder.write_all(text.as_bytes()).unwrap();
    encoder.finish().unwrap()
}

fn insert_input<'a>(
    project_path: &'a str,
    category: &'a str,
    content: &'a str,
    now_ms: i64,
) -> InsertMemoryInput<'a> {
    InsertMemoryInput {
        project_path,
        category,
        content,
        source_session_id: None,
        source_type: Some("tool"),
        importance: Some(50),
        expires_at: None,
        metadata_json: None,
        now_ms,
    }
}

#[test]
fn bootstrap_load_returns_uninitialized_defaults() {
    let mut store = McStore::new();
    let loaded = store.load("ses_a");
    assert!(!loaded.meta.initialized);
    assert_eq!(loaded.row_version, None);
    assert_eq!(loaded.core, CoreState::default());
}

#[test]
fn commit_then_load_roundtrips_and_bumps_row_version() {
    let mut store = McStore::new();

    let core = CoreState {
        boundary_id: "b1".into(),
        ..Default::default()
    };
    let meta = ModuleMeta {
        initialized: true,
        last_render_config: "cfg1".into(),
        coverage_ordinal: Some(42),
        last_todo_state: Some(
            r#"[{"content":"persist me","status":"pending","priority":"high"}]"#.into(),
        ),
        m1_revision: 0,
        ..Default::default()
    };

    let v1 = store.commit("ses_a", None, &core, &meta).unwrap();
    assert_eq!(v1, 1);

    let loaded = store.load("ses_a");
    assert_eq!(loaded.row_version, Some(1));
    assert_eq!(loaded.core.boundary_id, "b1");
    assert_eq!(loaded.meta, meta);

    let v2 = store.commit("ses_a", Some(1), &core, &meta).unwrap();
    assert_eq!(v2, 2);
}

#[test]
fn stale_cas_expectation_conflicts() {
    let mut store = McStore::new();
    let core = CoreState::default();
    let meta = ModuleMeta::default();

    store.commit("ses_a", None, &core, &meta).unwrap(); // row_version now 1
                                                        // A writer that still thinks the row is absent must conflict.
    let err = store.commit("ses_a", None, &core, &meta).unwrap_err();
    match err {
        McStoreError::CasConflict { expected, found } => {
            assert_eq!(expected, None);
            assert_eq!(found, 1);
        }
        other => panic!("expected CasConflict, got {other:?}"),
    }
}

#[test]
fn cache_commit_rejects_an_advanced_memory_revision() {
    let mut store = McStore::new();
    let project = "git:proj";
    store
        .insert_memory(insert_input(project, "CONSTRAINTS", "old", 1))
        .unwrap();
    let snapshot = store.load_memory_render_snapshot(project, None, 2).unwrap();
    store
        .insert_memory(insert_input(project, "CONSTRAINTS", "new", 3))
        .unwrap();

    let error = store
        .commit_with_consumed_drops(
            "ses",
            None,
            &CoreState::default(),
            &ModuleMeta::default(),
            &[],
            Some(&snapshot.revision),
        )
        .unwrap_err();
    assert!(matches!(error, McStoreError::CasConflict { .. }));
    assert!(store.load("ses").row_version.is_none());
}

#[test]
fn pending_agent_drops_delete_only_inside_successful_commit_tx() {
    let mut store = McStore::new();
    assert_eq!(
        store
            .append_pending_agent_drops("ses", &["a#0".to_string(), "a#0".to_string()], 7)
            .unwrap(),
        1,
        "duplicate pending ids are ignored while still queued"
    );
    let queued = store.load_pending_agent_drops("ses");
    assert_eq!(queued.len(), 1);

    let core = CoreState::default();
    let meta = ModuleMeta::default();
    let conflict =
        store.commit_with_consumed_drops("ses", Some(99), &core, &meta, &[queued[0].id], None);
    assert!(matches!(conflict, Err(McStoreError::CasConflict { .. })));
    assert_eq!(
        store.load_pending_agent_drops("ses").len(),
        1,
        "a failed fenced commit leaves queued drops for retry"
    );

    store
        .commit_with_consumed_drops("ses", None, &core, &meta, &[queued[0].id], None)
        .unwrap();
    assert!(store.load_pending_agent_drops("ses").is_empty());
    assert!(command_ledger_ids(&store, "ses").is_empty());
}

#[test]
fn command_id_duplicate_is_recognized_while_drops_are_pending() {
    let mut store = McStore::new();
    let target_ids = vec!["a#0".to_string()];

    let first = store
        .append_pending_agent_drops_with_command("ses", Some("tool-use-1"), &target_ids, 1)
        .unwrap();
    assert_eq!(
        first,
        AppendOutcome {
            queued: 1,
            duplicate: false,
        }
    );
    let pending = store.load_pending_agent_drops("ses");

    let retry = store
        .append_pending_agent_drops_with_command("ses", Some("tool-use-1"), &target_ids, 2)
        .unwrap();
    assert_eq!(
        retry,
        AppendOutcome {
            queued: 0,
            duplicate: true,
        }
    );
    assert_eq!(store.load_pending_agent_drops("ses"), pending);
    assert_eq!(command_ledger_ids(&store, "ses"), vec!["tool-use-1"]);
}

#[test]
fn command_id_duplicate_survives_consumption() {
    let mut store = McStore::new();
    let target_ids = vec!["a#0".to_string()];
    store
        .append_pending_agent_drops_with_command("ses", Some("tool-use-1"), &target_ids, 1)
        .unwrap();
    let pending = store.load_pending_agent_drops("ses");
    store
        .commit_with_consumed_drops(
            "ses",
            None,
            &CoreState::default(),
            &ModuleMeta::default(),
            &[pending[0].id],
            None,
        )
        .unwrap();
    assert!(store.load_pending_agent_drops("ses").is_empty());

    let retry = store
        .append_pending_agent_drops_with_command("ses", Some("tool-use-1"), &target_ids, 2)
        .unwrap();
    assert_eq!(
        retry,
        AppendOutcome {
            queued: 0,
            duplicate: true,
        }
    );
    assert!(store.load_pending_agent_drops("ses").is_empty());
}

#[test]
fn different_command_id_requeues_after_consumption() {
    let mut store = McStore::new();
    let target_ids = vec!["a#0".to_string()];
    store
        .append_pending_agent_drops_with_command("ses", Some("tool-use-1"), &target_ids, 1)
        .unwrap();
    let pending = store.load_pending_agent_drops("ses");
    store
        .commit_with_consumed_drops(
            "ses",
            None,
            &CoreState::default(),
            &ModuleMeta::default(),
            &[pending[0].id],
            None,
        )
        .unwrap();

    let next = store
        .append_pending_agent_drops_with_command("ses", Some("tool-use-2"), &target_ids, 2)
        .unwrap();
    assert_eq!(
        next,
        AppendOutcome {
            queued: 1,
            duplicate: false,
        }
    );
    assert_eq!(store.load_pending_agent_drops("ses").len(), 1);
}

#[test]
fn command_id_ledger_retains_rows_past_512_commands() {
    let mut store = McStore::new();
    let target_ids = vec!["a#0".to_string()];

    for queued_at_ms in 0..513i64 {
        let command_id = format!("command-{queued_at_ms:03}");
        let outcome = store
            .append_pending_agent_drops_with_command(
                "ses",
                Some(&command_id),
                &target_ids,
                queued_at_ms,
            )
            .unwrap();
        assert!(!outcome.duplicate);
    }

    let command_ids = command_ledger_ids(&store, "ses");
    assert_eq!(command_ids.len(), 513);
    assert_eq!(command_ids.first().map(String::as_str), Some("command-000"));
    assert_eq!(command_ids.last().map(String::as_str), Some("command-512"));

    let oldest_retry = store
        .append_pending_agent_drops_with_command("ses", Some("command-000"), &target_ids, 513)
        .unwrap();
    assert!(oldest_retry.duplicate);
}

#[test]
fn reset_shadow_session_clears_command_ledger_rows() {
    let mut store = McStore::new();
    let session_id = "shadow:cleanup";
    let target_ids = vec!["a#0".to_string()];
    store
        .append_pending_agent_drops_with_command(session_id, Some("tool-use-1"), &target_ids, 1)
        .unwrap();
    store.reset_shadow_session(session_id, session_id).unwrap();

    assert_eq!(
        store
            .append_pending_agent_drops_with_command(
                session_id,
                Some("tool-use-1"),
                &target_ids,
                2,
            )
            .unwrap(),
        AppendOutcome {
            queued: 1,
            duplicate: false,
        }
    );
}

#[test]
fn tags_mint_monotonically_and_channel1_appends_are_idempotent() {
    let mut store = McStore::new();
    let first = vec![
        TagMintInput {
            block_id: "m1#0".to_string(),
            kind: "message".to_string(),
            token_count: 11,
            source_bytes: b"message source".to_vec(),
        },
        TagMintInput {
            block_id: "m2#0".to_string(),
            kind: "tool_result".to_string(),
            token_count: 22,
            source_bytes: b"tool source".to_vec(),
        },
    ];
    let rows = store.mint_or_get_tags("ses", &first, 100).unwrap();
    assert_eq!(
        rows.iter().map(|row| row.tag_number).collect::<Vec<_>>(),
        vec![1, 2]
    );

    let second = vec![
        TagMintInput {
            block_id: "m1#0".to_string(),
            kind: "message".to_string(),
            token_count: 999,
            source_bytes: b"changed source must not overwrite".to_vec(),
        },
        TagMintInput {
            block_id: "m3#0".to_string(),
            kind: "tool_call".to_string(),
            token_count: 33,
            source_bytes: b"new source".to_vec(),
        },
    ];
    let rows = store.mint_or_get_tags("ses", &second, 200).unwrap();
    assert_eq!(
        rows.iter().map(|row| row.tag_number).collect::<Vec<_>>(),
        vec![1, 3],
        "existing block keeps its tag; only new observations consume the next number"
    );
    let all = store.load_tags_for_session("ses");
    assert_eq!(all.len(), 3);
    assert_eq!(
        all[0].token_count, 11,
        "token count is computed once at mint"
    );
    assert_eq!(
        all[0].source_bytes, b"message source",
        "pre-overlay provenance is immutable after the first mint"
    );
    let token_sum_ids = vec!["m1#0".to_string(), "m3#0".to_string()];
    assert_eq!(
        store
            .sum_tag_token_counts_for_blocks("ses", &token_sum_ids),
        44
    );

    assert!(store
        .append_channel1_nudge(
            "ses",
            "m2#0",
            "\n\n<system-reminder>hi</system-reminder>",
            300
        ));
    assert!(!store
        .append_channel1_nudge("ses", "m2#0", "different", 400));
    let appends = store.load_channel1_appends("ses");
    assert_eq!(appends.len(), 1);
    assert_eq!(
        appends[0].reminder_text,
        "\n\n<system-reminder>hi</system-reminder>"
    );

    assert!(store.append_user_hint("ses", "m1#0", "", 500));
    assert!(!store
        .append_user_hint("ses", "m1#0", "different", 600));
    assert!(store
        .append_user_hint(
            "ses",
            "m3#0",
            "\n\n<ctx-search-hint>hit</ctx-search-hint>",
            700
        ));
    assert_eq!(
        store.load_user_hints("ses"),
        vec![
            UserHintRow {
                block_id: "m1#0".to_string(),
                hint_text: String::new(),
                created_at: 500,
            },
            UserHintRow {
                block_id: "m3#0".to_string(),
                hint_text: "\n\n<ctx-search-hint>hit</ctx-search-hint>".to_string(),
                created_at: 700,
            },
        ]
    );
    assert!(!store.user_hint_frontier_open("ses", "m1#0", 1));
    assert!(!store.user_hint_frontier_open("ses", "m2#0", 2));
    assert!(store.user_hint_frontier_open("ses", "m4#0", 4));
}

#[test]
fn pass_trace_upserts_counts_and_caps_errors() {
    let mut store = McStore::new();
    let long_error = "é".repeat(2_500);

    store.trace_pass_received("trace", 11);
    store.trace_pass_received("trace", 12);
    store.trace_pass_rejected("trace", &long_error, 21);
    store
        .trace_pass_rejected("trace", "second error", 22);
    store.trace_pass_completed("trace", 31);

    let trace = store.load_pass_trace("trace").unwrap();
    assert_eq!(trace.last_received_at_ms, 12);
    assert_eq!(trace.last_completed_at_ms, 31);
    assert_eq!(trace.last_reject_error.as_deref(), Some("second error"));
    assert_eq!(trace.last_reject_at_ms, Some(22));
    assert_eq!(trace.reject_count, 2);
    assert_eq!(trace.receive_count, 2);

    store
        .trace_pass_rejected("trace-cap", &long_error, 41);
    let capped = store.load_pass_trace("trace-cap").unwrap();
    assert_eq!(
        capped.last_reject_error.as_ref().unwrap().chars().count(),
        2_000
    );
}

fn import_compartment(
    sequence: i64,
    start_message: i64,
    end_message: i64,
    end_message_id: &str,
    p1: &str,
) -> StoredCompartment {
    StoredCompartment {
        sequence,
        start_message,
        end_message,
        end_message_id: end_message_id.to_string(),
        title: format!("imported {sequence}"),
        content: p1.to_string(),
        p1: Some(p1.to_string()),
        importance: 50,
        ..Default::default()
    }
}

#[test]
fn state_import_is_atomic_bootstrap_only_and_durably_idempotent() {
    let mut store = McStore::new();
    let compartments = vec![
        import_compartment(4, 1, 4, "m4#0", "first"),
        import_compartment(9, 5, 9, "m9#0", "second"),
    ];

    assert_eq!(
        store.preflight_state_import("fresh", "bundle-a").unwrap(),
        StateImportPreflight::Ready
    );
    let imported = store
        .commit_state_import("fresh", "bundle-a", &compartments, 123)
        .unwrap();
    assert_eq!(
        imported,
        StateImportResult {
            imported: 2,
            duplicate: false
        }
    );
    assert_eq!(store.load_compartments("fresh"), compartments);
    let loaded = store.load("fresh");
    assert!(loaded.core.boundary_id.is_empty());
    assert!(
        loaded.row_version.is_none(),
        "import leaves bootstrap INSERT to transform"
    );

    let malformed_retry = vec![import_compartment(1, 3, 2, "bad", "")];
    let duplicate = store
        .commit_state_import("fresh", "bundle-a", &malformed_retry, 999)
        .unwrap();
    assert_eq!(
        duplicate,
        StateImportResult {
            imported: 2,
            duplicate: true
        }
    );
    assert!(store.load("fresh").row_version.is_none());
    assert!(matches!(
        store.commit_state_import("fresh", "bundle-b", &compartments, 999),
        Err(StateImportError::SessionNotEmpty)
    ));
    assert_eq!(store.load_compartments("fresh"), compartments);

    store
        .commit("used", None, &CoreState::default(), &ModuleMeta::default())
        .unwrap();
    assert!(matches!(
        store.commit_state_import("used", "bundle-c", &compartments, 999),
        Err(StateImportError::SessionNotEmpty)
    ));
    assert!(store.load_compartments("used").is_empty());
}

#[test]
fn state_import_preflight_rejects_each_session_owned_state_kind() {
    let mut store = McStore::new();

    let cache = store.load("cache");
    store
        .commit("cache", None, &cache.core, &cache.meta)
        .unwrap();
    store
        .replace_compartments(
            "compartments",
            &[import_compartment(1, 1, 1, "m1#0", "summary")],
        )
        .unwrap();
    store
        .mint_or_get_tags(
            "tags",
            &[TagMintInput {
                block_id: "m1#0".to_string(),
                kind: "message".to_string(),
                token_count: 1,
                source_bytes: b"source".to_vec(),
            }],
            1,
        )
        .unwrap();
    store
        .append_pending_agent_drops("pending", &["m1#0".to_string()], 1)
        .unwrap();
    store
        .append_pending_agent_drops_with_command("ledger", Some("command"), &[], 1)
        .unwrap();
    store.append_user_hint("hints", "m1#0", "", 1);

    for session_id in [
        "cache",
        "compartments",
        "tags",
        "pending",
        "ledger",
        "hints",
    ] {
        assert!(matches!(
            store.preflight_state_import(session_id, "bundle"),
            Err(StateImportError::SessionNotEmpty)
        ));
        assert!(matches!(
            store.commit_state_import(session_id, "bundle", &[], 2),
            Err(StateImportError::SessionNotEmpty)
        ));
    }
}

#[test]
fn rejected_state_import_validation_leaves_no_rows() {
    let mut store = McStore::new();
    let invalid = vec![import_compartment(1, 3, 2, "m2#0", "bad")];

    let error = store
        .commit_state_import("fresh", "bundle-a", &invalid, 123)
        .unwrap_err();
    assert!(matches!(
        error,
        StateImportError::Validation(StateImportValidationError::RangeInvalid { .. })
    ));
    assert!(store.load_compartments("fresh").is_empty());
    assert_eq!(
        store.preflight_state_import("fresh", "bundle-a").unwrap(),
        StateImportPreflight::Ready
    );
}

#[test]
fn compartments_roundtrip_chronological_with_tiers_and_legacy() {
    let mut store = McStore::new();
    assert!(store.load_compartments("ses_a").is_empty());

    let comps = vec![
        StoredCompartment {
            sequence: 1,
            start_message: 1,
            end_message: 9,
            title: "oldest legacy".into(),
            content: "U: flat body".into(),
            legacy: 1,
            importance: 50,
            created_at: 100,
            ..Default::default()
        },
        StoredCompartment {
            sequence: 2,
            start_message: 10,
            end_message: 19,
            start_date: Some("2026-01-02".into()),
            end_date: Some("2026-01-03".into()),
            title: "v2 row".into(),
            content: "P1 full".into(),
            p1: Some("P1 full".into()),
            p2: Some("P2 dense".into()),
            p3: Some("P3".into()),
            p4: None,
            importance: 80,
            episode_type: Some("design,feature".into()),
            legacy: 0,
            created_at: 200,
            ..Default::default()
        },
    ];
    store.replace_compartments("ses_a", &comps).unwrap();

    let read = store.load_compartments("ses_a");
    assert_eq!(
        read, comps,
        "chronological round-trip incl NULL p4 + tiers + legacy"
    );
    assert_eq!(read[0].sequence, 1, "oldest first");

    // a wholesale replace fully supplants the prior set
    let replacement = vec![StoredCompartment {
        sequence: 1,
        title: "only".into(),
        content: "x".into(),
        importance: 50,
        ..Default::default()
    }];
    store.replace_compartments("ses_a", &replacement).unwrap();
    let read2 = store.load_compartments("ses_a");
    assert_eq!(read2.len(), 1);
    assert_eq!(read2[0].title, "only");

    // distinct sessions are isolated
    assert!(store.load_compartments("ses_b").is_empty());
}

#[test]
fn active_memories_filter_order_and_frozen_expiry() {
    let mut store = McStore::new();
    let proj = "git:proj";

    insert_memory(&mut store, proj, 1, "low active", Some(20), "active", None);
    insert_memory(&mut store, proj, 2, "high active", Some(90), "active", None);
    insert_memory(&mut store, proj, 3, "permanent", Some(50), "permanent", None);
    insert_memory(&mut store, proj, 4, "archived", Some(99), "archived", None); // excluded
    insert_memory(&mut store, proj, 5, "expired", Some(99), "active", Some(1000)); // expires at 1000
    insert_memory(&mut store, proj, 6, "other proj", Some(99), "active", None);
    // (re-key the last under a different project)
    store
        .memories
        .iter_mut()
        .filter(|m| m.id == 6)
        .for_each(|m| m.project_path = "git:other".to_string());

    // cutoff AFTER the expiry → memory 5 excluded; archived + other-project excluded;
    // ordered importance desc (90, 50, 20).
    let read = store.load_active_memories(proj, 2000);
    let ids: Vec<i64> = read.iter().map(|m| m.id).collect();
    assert_eq!(
        ids,
        vec![2, 3, 1],
        "active+permanent, expired excluded, importance desc"
    );

    // a cutoff BEFORE the expiry keeps memory 5 (frozen-cutoff determinism: the
    // caller controls the cutoff, not a live clock).
    let read_early = store.load_active_memories(proj, 500);
    assert!(
        read_early.iter().any(|m| m.id == 5),
        "not-yet-expired at the earlier cutoff"
    );
}

#[test]
fn mutation_render_coalesces_latest_wins_with_terminal_precedence() {
    let mut store = McStore::new();
    let proj = "git:proj";

    // memory 10: two updates → latest-wins (single terminal correction).
    log_mutation(&mut store, proj, "update", 10, "v1"); // id 1
    log_mutation(&mut store, proj, "update", 10, "v2"); // id 2 (newer wins)
                                                    // memory 20: an archive then a later update → terminal (archive) outranks update.
    log_mutation(&mut store, proj, "archive", 20, ""); // id 3 terminal
    log_mutation(&mut store, proj, "update", 20, "resurrect?"); // id 4 must NOT win
                                                            // memory 30: in the log but NOT in the rendered manifest → excluded.
    log_mutation(&mut store, proj, "update", 30, "off-m0");

    let rendered = [10i64, 20];
    let projects = vec![proj.to_string()];
    let out = store
        .memory_mutations_for_render(&projects, 0, &rendered).unwrap();

    assert_eq!(out.len(), 2, "one coalesced row per in-manifest target");
    let m10 = out.iter().find(|m| m.target_memory_id == 10).unwrap();
    assert_eq!(m10.new_content.as_deref(), Some("v2"), "latest update wins");
    let m20 = out.iter().find(|m| m.target_memory_id == 20).unwrap();
    assert_eq!(
        m20.mutation_type, "archive",
        "terminal outranks a later update"
    );
    assert!(
        !out.iter().any(|m| m.target_memory_id == 30),
        "off-manifest excluded"
    );

    // afterId cursor past id 2 → memory 10's updates fold out; 20's archive renders.
    let after = store
        .memory_mutations_for_render(&projects, 2, &rendered).unwrap();
    assert!(
        !after.iter().any(|m| m.target_memory_id == 10),
        "folded updates excluded by cursor"
    );
    assert_eq!(after.len(), 1);
    assert_eq!(after[0].target_memory_id, 20);

    // empty manifest → no corrections (nothing in m0 to correct).
    assert!(store
        .memory_mutations_for_render(&projects, 0, &[]).unwrap()
        .is_empty());
}

#[test]
fn workspace_fingerprint_is_deterministic_and_membership_sensitive() {
    let mut store = McStore::new();
    let own = "git:own";
    let foreign = "git:foreign";

    // a project in NO workspace → stable empty marker
    assert_eq!(store.workspace_fingerprint(own), "");

    // members in an order that is not sorted, which the fingerprint canonicalizes
    add_workspace(&mut store, r#"["CONSTRAINTS","ARCHITECTURE"]"#);
    add_member(&mut store, foreign, "foreign", "/f");
    add_member(&mut store, own, "own", "/o");

    // same membership → byte-identical across repeated reads (stability for an
    // unchanged workspace, so it never forces a needless re-render)
    let fp1 = store.workspace_fingerprint(own);
    let fp2 = store.workspace_fingerprint(own);
    assert_eq!(fp1, fp2, "stable workspace → stable fingerprint");
    assert!(!fp1.is_empty());
    // both members appear; the foreign member changes the marker (membership-sensitive)
    assert!(fp1.contains(own) && fp1.contains(foreign), "{fp1}");

    // removing the foreign member changes the fingerprint (a real membership change HARDs)
    store.members.retain(|m| m.project_path != foreign);
    let fp3 = store.workspace_fingerprint(own);
    assert_ne!(fp1, fp3, "a real membership change must change the marker");
}

#[test]
fn max_mutation_and_memory_ids_union_scoped() {
    let mut store = McStore::new();
    let own = "git:own";
    let foreign = "git:foreign";

    insert_memory(&mut store, own, 10, "a", Some(50), "active", None);
    insert_memory(&mut store, foreign, 25, "b", Some(50), "active", None);
    log_mutation(&mut store, own, "update", 10, "v2"); // id 1
    log_mutation(&mut store, foreign, "archive", 25, ""); // id 2

    // single-project sees only its own max
    assert_eq!(store.max_memory_id(&[own.to_string()]).unwrap(), 10);
    assert_eq!(store.max_memory_mutation_id(&[own.to_string()]).unwrap(), 1);
    // union spans both
    let union = vec![own.to_string(), foreign.to_string()];
    assert_eq!(store.max_memory_id(&union).unwrap(), 25);
    assert_eq!(store.max_memory_mutation_id(&union).unwrap(), 2);
    // empty inputs → 0 (no panic, no all-rows scan)
    assert_eq!(store.max_memory_id(&[]).unwrap(), 0);
    assert_eq!(store.max_memory_mutation_id(&[]).unwrap(), 0);
}

#[test]
fn insert_memory_dedups_without_mutation_log_and_advances_memory_id() {
    let mut store = McStore::new();
    let project = "git:proj";
    let paths = [project.to_string()];

    let id = store
        .insert_memory(insert_input(project, "CONSTRAINTS", "Use Rust", 10))
        .unwrap();
    assert_eq!(store.max_memory_id(&paths).unwrap(), id);
    assert_eq!(store.max_memory_mutation_id(&paths).unwrap(), 0);

    let duplicate = store
        .insert_memory(insert_input(project, "CONSTRAINTS", "  use   rust  ", 20))
        .unwrap();
    assert_eq!(
        duplicate, id,
        "normalized duplicate returns the existing id"
    );
    assert_eq!(store.max_memory_id(&paths).unwrap(), id);
    assert_eq!(store.max_memory_mutation_id(&paths).unwrap(), 0);
    assert_eq!(store.load_active_memories(project, 20).len(), 1);
    assert_eq!(store.get_memory_full(id).unwrap().seen_count, 2);
}

#[test]
fn update_memory_content_advances_mutation_log_with_row() {
    let mut store = McStore::new();
    let project = "git:proj";
    let id = store
        .insert_memory(insert_input(project, "ARCHITECTURE", "old", 1))
        .unwrap();
    let before = store
        .max_memory_mutation_id(&[project.to_string()]).unwrap();

    let updated = store
        .update_memory_content(project, id, "new", 2)
        .unwrap()
        .unwrap();
    assert_eq!(updated.content, "new");
    let after = store
        .max_memory_mutation_id(&[project.to_string()]).unwrap();
    assert!(after > before);
    let mutations = store
        .memory_mutations_for_render(&[project.to_string()], before, &[id]).unwrap();
    assert_eq!(mutations.len(), 1);
    assert_eq!(mutations[0].target_memory_id, id);
    assert_eq!(mutations[0].mutation_type, "update");
    assert_eq!(mutations[0].new_content.as_deref(), Some("new"));
}

#[test]
fn archive_memory_advances_mutation_log_with_row() {
    let mut store = McStore::new();
    let project = "git:proj";
    let id = store
        .insert_memory(insert_input(project, "CONSTRAINTS", "keep", 1))
        .unwrap();
    let before = store
        .max_memory_mutation_id(&[project.to_string()]).unwrap();

    let archived = store
        .archive_memory(project, id, Some("obsolete"), 2)
        .unwrap()
        .unwrap();
    assert_eq!(archived.status, "archived");
    assert!(archived
        .metadata_json
        .as_deref()
        .unwrap_or("")
        .contains("archive_reason"));
    let mutations = store
        .memory_mutations_for_render(&[project.to_string()], before, &[id]).unwrap();
    assert_eq!(mutations.len(), 1);
    assert_eq!(mutations[0].target_memory_id, id);
    assert_eq!(mutations[0].mutation_type, "archive");
}

#[test]
fn merge_memories_logs_target_and_each_source_atomically() {
    let mut store = McStore::new();
    let project = "git:proj";
    let target = store
        .insert_memory(insert_input(project, "CONSTRAINTS", "old target", 1))
        .unwrap();
    let source = store
        .insert_memory(insert_input(project, "CONSTRAINTS", "old source", 1))
        .unwrap();
    let before = store
        .max_memory_mutation_id(&[project.to_string()]).unwrap();

    let merged = store
        .merge_memories(project, target, &[source], "merged content", 2)
        .unwrap()
        .unwrap();
    assert_eq!(merged.content, "merged content");
    assert_eq!(merged.merged_from, Some(format!("[{target},{source}]")));
    let source_row = store.get_memory_full(source).unwrap();
    assert_eq!(source_row.status, "archived");
    assert_eq!(source_row.superseded_by_memory_id, Some(target));

    let after = store
        .max_memory_mutation_id(&[project.to_string()]).unwrap();
    assert_eq!(after - before, 2, "target update + source supersede");
    let mutations = store
        .memory_mutations_for_render(&[project.to_string()], before, &[target, source]).unwrap();
    assert_eq!(mutations.len(), 2);
    assert!(mutations.iter().any(|m| {
        m.target_memory_id == target
            && m.mutation_type == "update"
            && m.new_content.as_deref() == Some("merged content")
    }));
    assert!(mutations.iter().any(|m| {
        m.target_memory_id == source
            && m.mutation_type == "superseded"
            && m.superseded_by_id == Some(target)
    }));
}

#[test]
fn mutation_render_spans_workspace_union() {
    // a foreign member's shared memory (in the manifest) updates → its correction
    // must render across the whole workspace union, not just the own project; a
    // single-project query would miss it (the foreign update would never supersede).
    let mut store = McStore::new();
    let own = "git:own";
    let foreign = "git:foreign";

    log_mutation(&mut store, own, "update", 100, "own-updated"); // id 1
    log_mutation(&mut store, foreign, "update", 200, "foreign-updated"); // id 2

    // manifest holds BOTH (the union baseline rendered own-100 + foreign-shared-200)
    let rendered = [100i64, 200];
    let single = store
        .memory_mutations_for_render(&[own.to_string()], 0, &rendered).unwrap();
    assert_eq!(single.len(), 1, "single-project misses the foreign update");
    assert_eq!(single[0].target_memory_id, 100);

    let union = store
        .memory_mutations_for_render(&[own.to_string(), foreign.to_string()], 0, &rendered).unwrap();
    let targets: Vec<i64> = union.iter().map(|m| m.target_memory_id).collect();
    assert!(
        targets.contains(&100) && targets.contains(&200),
        "union supersedes both: {targets:?}"
    );
}

#[test]
fn active_user_memories_ordered_promoted_then_id() {
    let mut store = McStore::new();
    let mut insert = |id: i64, content: &str, status: &str, promoted: i64| {
        store.user_memories.push(UserMemoryRow {
            id,
            content: content.to_string(),
            status: status.to_string(),
            promoted_at: promoted,
        });
    };
    // two share promoted_at=100 → id breaks the tie deterministically (3 before 4).
    insert(1, "first", "active", 50);
    insert(4, "tie-later-id", "active", 100);
    insert(3, "tie-earlier-id", "active", 100);
    insert(2, "archived", "archived", 10); // status != active → excluded from the result

    let got = store.load_active_user_memories();
    assert_eq!(got, vec!["first", "tie-earlier-id", "tie-later-id"]);
}

#[test]
fn workspace_union_shares_foreign_only_in_shared_categories() {
    let mut store = McStore::new();
    let own = "git:own";
    let foreign = "git:foreign";

    // own: id1 CONSTRAINTS + id2 ARCHITECTURE (both visible to own). foreign: id3
    // CONSTRAINTS (shared) + id4 ARCHITECTURE (NOT shared). insert_memory defaults
    // category=ARCHITECTURE, so insert all four then UPDATE ids 1 and 3 to CONSTRAINTS.
    insert_memory(&mut store, own, 1, "own constraint", Some(70), "active", None);
    insert_memory(&mut store, own, 2, "own arch", Some(90), "active", None);
    insert_memory(
        &mut store,
        foreign,
        3,
        "foreign shared",
        Some(80),
        "active",
        None,
    );
    insert_memory(
        &mut store,
        foreign,
        4,
        "foreign secret",
        Some(99),
        "active",
        None,
    );
    store
        .memories
        .iter_mut()
        .filter(|m| m.id == 1 || m.id == 3)
        .for_each(|m| m.category = "CONSTRAINTS".to_string());

    // build a workspace with share_categories=["CONSTRAINTS"], members own+foreign.
    add_workspace(&mut store, r#"["CONSTRAINTS"]"#);
    add_member(&mut store, own, "own", "/own");
    add_member(&mut store, foreign, "svc-foreign", "/foreign");

    let membership = store.resolve_workspace_membership(own).unwrap();
    assert_eq!(membership.own_identity, own);
    assert_eq!(membership.share_categories, vec!["CONSTRAINTS"]);
    assert_eq!(
        membership
            .display_name_by_path
            .iter()
            .find(|m| m.project_path == foreign)
            .map(|m| m.display_name.as_str()),
        Some("svc-foreign")
    );

    let union = store.load_workspace_union_memories(&membership, 0).unwrap();
    let ids: Vec<i64> = union.iter().map(|m| m.id).collect();
    // own sees BOTH its own (1 CONSTRAINTS, 2 ARCHITECTURE); foreign only the shared
    // CONSTRAINTS (3) — NOT the foreign ARCHITECTURE (4, the security boundary).
    assert!(
        ids.contains(&1) && ids.contains(&2),
        "own sees all own: {ids:?}"
    );
    assert!(
        ids.contains(&3),
        "foreign shared CONSTRAINTS visible: {ids:?}"
    );
    assert!(
        !ids.contains(&4),
        "foreign non-shared ARCHITECTURE must NOT leak: {ids:?}"
    );

    // a project in NO workspace → None (single-project fast path)
    assert!(store
        .resolve_workspace_membership("git:loner")
        .is_none());
}

#[test]
fn append_compartments_preserves_existing_rows_and_assigns_tail_sequences() {
    let mut store = McStore::new();
    let c1 = StoredCompartment {
        sequence: 1,
        start_message: 1,
        end_message: 2,
        end_message_id: "m2".into(),
        title: "old-1".into(),
        content: "old one".into(),
        ..Default::default()
    };
    let c2 = StoredCompartment {
        sequence: 2,
        start_message: 3,
        end_message: 4,
        end_message_id: "m4".into(),
        title: "old-2".into(),
        content: "old two".into(),
        ..Default::default()
    };
    store
        .replace_compartments("ses", &[c1.clone(), c2.clone()])
        .unwrap();

    let appended = StoredCompartment {
        sequence: 99,
        start_message: 5,
        end_message: 6,
        end_message_id: "m6".into(),
        title: "new".into(),
        content: "new tail".into(),
        ..Default::default()
    };
    store.append_compartments("ses", &[appended]).unwrap();

    let rows = store.load_compartments("ses");
    let seqs: Vec<i64> = rows.iter().map(|c| c.sequence).collect();
    assert_eq!(seqs, vec![1, 2, 3]);
    assert_eq!(rows[0].title, c1.title);
    assert_eq!(rows[1].title, c2.title);
    assert_eq!(rows[2].title, "new");
}

#[test]
fn promote_facts_exact_dedup_skips_duplicates_and_advances_watermark() {
    let mut store = McStore::new();
    store
        .seed_memory(1, "git:proj", "ARCHITECTURE", "already active", 70)
        .unwrap();
    let before = store.max_memory_id(&["git:proj".to_string()]).unwrap();

    let promoted = store
        .promote_facts(
            "git:proj",
            &[
                FactCandidate {
                    category: "ARCHITECTURE".into(),
                    content: "already active".into(),
                    ..Default::default()
                },
                FactCandidate {
                    category: "ARCHITECTURE".into(),
                    content: "new fact".into(),
                    importance: Some(80),
                    ..Default::default()
                },
                FactCandidate {
                    category: "CONSTRAINTS".into(),
                    content: "new fact".into(),
                    ..Default::default()
                },
            ],
        )
        .unwrap();

    assert_eq!(before, 1);
    assert_eq!(promoted.len(), 1, "duplicate active content is skipped");
    assert_eq!(promoted[0].content, "new fact");
    let after = store.max_memory_id(&["git:proj".to_string()]).unwrap();
    assert_eq!(after, promoted[0].memory_id);
    assert!(after > before, "additive insert advances max_memory_id");
    let active = store.load_active_memories("git:proj", 0);
    let contents: Vec<&str> = active.iter().map(|m| m.content.as_str()).collect();
    assert_eq!(contents, vec!["new fact", "already active"]);
}

fn publishing_meta() -> ModuleMeta {
    ModuleMeta {
        historian: HistorianDurableState {
            state: HistorianPhase::Publishing,
            firing_seq: 7,
            chunk_range: Some(HistorianChunkRange {
                from_ordinal: 10,
                to_ordinal: 20,
            }),
            chunk_fingerprint: "fp".into(),
            producer_session_id: Some("producer-session".into()),
            producer_run_id: Some("run-1".into()),
            fired_at_ms: Some(123),
            expected_revert_epoch: 0,
            failure_backoff_at_ms: Some(456),
            last_failure: None,
            last_no_fire: None,
        },
        ..Default::default()
    }
}

fn publish_predicate() -> HistorianPublishPredicate {
    HistorianPublishPredicate {
        firing_seq: 7,
        producer_run_id: "run-1".into(),
        chunk_fingerprint: "fp".into(),
    }
}

fn publish_compartment() -> StoredCompartment {
    StoredCompartment {
        start_message: 10,
        end_message: 20,
        end_message_id: "m20".into(),
        title: "published".into(),
        content: "published summary".into(),
        ..Default::default()
    }
}

#[test]
fn publish_historian_chunk_is_cas_gated_and_double_publish_conflicts() {
    let mut store = McStore::new();
    store
        .commit("ses", None, &CoreState::default(), &publishing_meta())
        .unwrap();
    let loaded = store.load("ses");
    let expected = loaded.row_version;

    let first = store
        .publish_historian_chunk(HistorianPublishRequest {
            session_id: "ses",
            expected_row_version: expected,
            expected_revert_epoch: 0,
            predicate: &publish_predicate(),
            project_path: "git:proj",
            compartments: &[publish_compartment()],
            facts: &[FactCandidate {
                category: "ARCHITECTURE".into(),
                content: "published fact".into(),
                ..Default::default()
            }],
            publication_floor_ordinal: 21,
            chunk_transcript: None,
        })
        .unwrap();
    assert_eq!(first.row_version, 2);

    let err = store
        .publish_historian_chunk(HistorianPublishRequest {
            session_id: "ses",
            expected_row_version: expected,
            expected_revert_epoch: 0,
            predicate: &publish_predicate(),
            project_path: "git:proj",
            compartments: &[publish_compartment()],
            facts: &[],
            publication_floor_ordinal: 21,
            chunk_transcript: None,
        })
        .unwrap_err();
    assert!(
        matches!(err, HistorianPublishError::CasConflict { .. }),
        "second racing publisher must hit the row-version CAS: {err:?}"
    );
    assert_eq!(store.load_compartments("ses").len(), 1);
    let loaded = store.load("ses");
    assert_eq!(loaded.meta.historian.state, HistorianPhase::Idle);
    assert_eq!(loaded.meta.historian.firing_seq, 7);
    assert_eq!(loaded.meta.publication_floor_ordinal, Some(21));
    assert_eq!(store.max_memory_id(&["git:proj".to_string()]).unwrap(), 1);
}

#[test]
fn publish_historian_chunk_persists_transcript_inside_cas() {
    let mut store = McStore::new();
    store
        .commit("ses", None, &CoreState::default(), &publishing_meta())
        .unwrap();
    let expected = store.load("ses").row_version;
    store
        .publish_historian_chunk(HistorianPublishRequest {
            session_id: "ses",
            expected_row_version: expected,
            expected_revert_epoch: 0,
            predicate: &publish_predicate(),
            project_path: "git:proj",
            compartments: &[publish_compartment()],
            facts: &[],
            publication_floor_ordinal: 21,
            chunk_transcript: Some("U: hello\nA: world"),
        })
        .unwrap();

    let rows = store
        .load_chunk_transcripts_for_range("ses", 10, 21);
    assert_eq!(rows.len(), 1);
    assert_eq!(rows[0].compartment_seq, 1);
    assert_eq!(rows[0].transcript.as_deref(), Some("U: hello\nA: world"));
}

#[test]
fn publish_historian_chunk_cas_conflict_leaves_no_transcript_row() {
    let mut store = McStore::new();
    store
        .commit("ses", None, &CoreState::default(), &publishing_meta())
        .unwrap();
    let err = store
        .publish_historian_chunk(HistorianPublishRequest {
            session_id: "ses",
            expected_row_version: Some(99),
            expected_revert_epoch: 0,
            predicate: &publish_predicate(),
            project_path: "git:proj",
            compartments: &[publish_compartment()],
            facts: &[],
            publication_floor_ordinal: 21,
            chunk_transcript: Some("U: orphan"),
        })
        .unwrap_err();
    assert!(matches!(err, HistorianPublishError::CasConflict { .. }));
    assert!(store
        .load_chunk_transcripts_for_range("ses", 10, 21)
        .is_empty());
}

#[test]
fn oversized_chunk_transcript_is_evicted_as_unrecoverable() {
    let mut store = McStore::new();
    store
        .commit("ses", None, &CoreState::default(), &publishing_meta())
        .unwrap();
    let transcript = (0..50_000)
        .map(|i| format!("{:x}", md5::compute(i.to_string())))
        .collect::<String>();
    assert!(
        compressed(&transcript).len() > MAX_CHUNK_TRANSCRIPT_COMPRESSED_BYTES
    );
    let expected = store.load("ses").row_version;
    store
        .publish_historian_chunk(HistorianPublishRequest {
            session_id: "ses",
            expected_row_version: expected,
            expected_revert_epoch: 0,
            predicate: &publish_predicate(),
            project_path: "git:proj",
            compartments: &[publish_compartment()],
            facts: &[],
            publication_floor_ordinal: 21,
            chunk_transcript: Some(&transcript),
        })
        .unwrap();
    assert!(store
        .load_chunk_transcripts_for_range("ses", 10, 21)
        .is_empty());
}

#[test]
fn notes_crud_pagination_dismiss_resolution_and_search() {
    let mut store = McStore::new();
    let first = store
        .insert_note(NoteInput {
            project_path: "git:proj",
            session_id: "ses",
            content: "Revisit frobnicator later",
            surface_condition: Some("when release tag advances"),
            anchor_block_id: Some("m9#0"),
            now_ms: 10,
        })
        .unwrap();
    let second = store
        .insert_note(NoteInput {
            project_path: "git:proj",
            session_id: "ses",
            content: "Check pagination",
            surface_condition: None,
            anchor_block_id: None,
            now_ms: 20,
        })
        .unwrap();
    assert_eq!(
        store.read_notes("git:proj", "ses", 1, 0).unwrap()[0].id,
        second.id
    );
    assert_eq!(
        store.read_notes("git:proj", "ses", 1, 1).unwrap()[0].id,
        first.id
    );
    store
        .update_note_content(
            "git:proj",
            "ses",
            first.id,
            "Revisit updated frobnicator",
            30,
        )
        .unwrap();
    assert_eq!(
        store
            .search_notes_like("git:proj", "ses", "updated").unwrap()[0]
            .id,
        first.id
    );
    let dismissed = store
        .dismiss_note("git:proj", "ses", first.id, Some("done in v2"), 40)
        .unwrap();
    assert_eq!(dismissed.status, "dismissed");
    assert!(dismissed.content.contains("done in v2"));
    assert_eq!(store.read_notes("git:proj", "ses", 25, 0).unwrap().len(), 1);
    assert!(store
        .search_notes_like("git:other", "ses", "pagination").unwrap()
        .is_empty());
}

#[test]
fn publish_historian_chunk_rejects_wrong_fingerprint_without_writes() {
    let mut store = McStore::new();
    store
        .commit("ses", None, &CoreState::default(), &publishing_meta())
        .unwrap();
    let expected = store.load("ses").row_version;
    let wrong = HistorianPublishPredicate {
        chunk_fingerprint: "different".into(),
        ..publish_predicate()
    };

    let err = store
        .publish_historian_chunk(HistorianPublishRequest {
            session_id: "ses",
            expected_row_version: expected,
            expected_revert_epoch: 0,
            predicate: &wrong,
            project_path: "git:proj",
            compartments: &[publish_compartment()],
            facts: &[FactCandidate {
                category: "ARCHITECTURE".into(),
                content: "should not insert".into(),
                ..Default::default()
            }],
            publication_floor_ordinal: 21,
            chunk_transcript: None,
        })
        .unwrap_err();
    assert!(matches!(err, HistorianPublishError::StateMismatch { .. }));
    assert!(store.load_compartments("ses").is_empty());
    assert_eq!(store.max_memory_id(&["git:proj".to_string()]).unwrap(), 0);
    assert_eq!(
        store.load("ses").meta.historian.state,
        HistorianPhase::Publishing
    );
}

#[test]
fn publish_historian_chunk_fails_loud_from_non_publish_state() {
    let mut store = McStore::new();
    store
        .commit("ses", None, &CoreState::default(), &ModuleMeta::default())
        .unwrap();
    let expected = store.load("ses").row_version;

    let err = store
        .publish_historian_chunk(HistorianPublishRequest {
            session_id: "ses",
            expected_row_version: expected,
            expected_revert_epoch: 0,
            predicate: &publish_predicate(),
            project_path: "git:proj",
            compartments: &[publish_compartment()],
            facts: &[],
            publication_floor_ordinal: 21,
            chunk_transcript: None,
        })
        .unwrap_err();
    assert!(
        matches!(err, HistorianPublishError::InvalidState { ref state } if state == "idle"),
        "idle state must fail loudly: {err:?}"
    );
    assert!(store.load_compartments("ses").is_empty());
}
fn recut_comp(seq: i64, start: i64, end: i64, end_id: &str) -> StoredCompartment {
    StoredCompartment {
        sequence: seq,
        start_message: start,
        end_message: end,
        start_message_id: format!("m{start}#0"),
        end_message_id: end_id.to_string(),
        title: format!("C{seq}"),
        content: format!("summary {seq}"),
        p1: Some(format!("summary {seq}")),
        importance: 50,
        ..Default::default()
    }
}

#[test]
fn truncate_compartments_for_revert_deletes_suffix_and_bumps_epoch() {
    let mut store = McStore::new();
    let meta = ModuleMeta {
        coverage_ordinal: Some(3),
        folded_compartment_seq: 3,
        ..Default::default()
    };
    let rv = store
        .commit("ses", None, &CoreState::default(), &meta)
        .unwrap();
    store
        .replace_compartments(
            "ses",
            &[
                recut_comp(1, 1, 1, "a#0"),
                recut_comp(2, 2, 2, "b#0"),
                recut_comp(3, 3, 3, "c#0"),
            ],
        )
        .unwrap();

    let outcome = store
        .truncate_compartments_for_revert("ses", 1, Some(rv))
        .unwrap();
    assert_eq!(outcome.revert_epoch, 1);
    assert_eq!(outcome.row_version, rv + 1);
    assert!(outcome
        .last_recut
        .as_deref()
        .unwrap()
        .contains("dropped seq 2..3"));
    let loaded = store.load("ses");
    assert_eq!(loaded.meta.revert_epoch, 1);
    assert_eq!(loaded.meta.last_recut, outcome.last_recut);
    let compartments = store.load_compartments("ses");
    assert_eq!(compartments.len(), 1);
    assert_eq!(compartments[0].sequence, 1);

    let no_op = store
        .truncate_compartments_for_revert("ses", 1, Some(outcome.row_version))
        .unwrap();
    assert_eq!(no_op.revert_epoch, 1);
    assert_eq!(no_op.row_version, outcome.row_version);
    assert_eq!(store.load_compartments("ses").len(), 1);
}

#[test]
fn assembly_snapshot_reads_compartments_and_revert_epoch_together() {
    let mut store = McStore::new();
    let meta = ModuleMeta {
        revert_epoch: 4,
        ..Default::default()
    };
    store
        .commit("ses", None, &CoreState::default(), &meta)
        .unwrap();
    store
        .replace_compartments("ses", &[recut_comp(1, 1, 1, "a#0")])
        .unwrap();

    let snapshot = store.load_historian_assembly_snapshot("ses");
    assert_eq!(snapshot.revert_epoch, 4);
    assert_eq!(snapshot.compartments.len(), 1);
    assert_eq!(snapshot.compartments[0].end_message_id, "a#0");
}

#[test]
fn publish_historian_chunk_rejects_recut_epoch_mismatch_as_conflict() {
    let mut store = McStore::new();
    let mut meta = publishing_meta();
    meta.revert_epoch = 1;
    store
        .commit("ses", None, &CoreState::default(), &meta)
        .unwrap();
    let expected = store.load("ses").row_version;

    let err = store
        .publish_historian_chunk(HistorianPublishRequest {
            session_id: "ses",
            expected_row_version: expected,
            expected_revert_epoch: 0,
            predicate: &publish_predicate(),
            project_path: "git:proj",
            compartments: &[publish_compartment()],
            facts: &[],
            publication_floor_ordinal: 21,
            chunk_transcript: None,
        })
        .unwrap_err();
    assert!(matches!(
        err,
        HistorianPublishError::CasConflict {
            reason: Some(ref reason),
            ..
        } if reason == "revert epoch mismatch (session was re-cut mid-firing)"
    ));
    assert!(store.load_compartments("ses").is_empty());
    assert_eq!(
        store.load("ses").meta.historian.state,
        HistorianPhase::Publishing
    );
}

#[test]
fn failed_command_append_rolls_back_ledger_entry() {
    let mut store = McStore::new();
    store.last_drop_id = i64::MAX;
    let target_ids = vec!["a#0".to_string()];

    assert_eq!(
        store.append_pending_agent_drops_with_command("ses", Some("tool-use-1"), &target_ids, 1),
        Err(McStoreError::Store(StoreError::Exhausted))
    );
    assert!(command_ledger_ids(&store, "ses").is_empty());
    assert!(store.load_pending_agent_drops("ses").is_empty());

    store.last_drop_id = 0;
    assert_eq!(
        store
            .append_pending_agent_drops_with_command("ses", Some("tool-use-1"), &target_ids, 2)
            .unwrap(),
        AppendOutcome {
            queued: 1,
            duplicate: false,
        }
    );
}

//! Shadow sessions on whole scenarios.

use magic_context::digest::compute_normalized_memory_hash;
use magic_context::store::errors::ShadowStateSyncError;
use magic_context::store::reading::SHADOW_SESSION_PREFIX;
use magic_context::store::records::{
    ShadowMemoryMutationRow, ShadowMemoryRow, ShadowWorkspaceMemberRow, ShadowWorkspaceRow,
    StoredCompartment, StoredMemoryMutation,
};
use magic_context::store::shadow::{ShadowDivergenceRecord, ShadowStateSyncRequest};
use magic_context::store::McStore;

fn comp(sequence: i64, end: i64, end_id: &str) -> StoredCompartment {
    StoredCompartment {
        sequence,
        start_message: 0,
        end_message: end,
        start_message_id: "a#0".to_string(),
        end_message_id: end_id.to_string(),
        title: "c".to_string(),
        content: "p1".to_string(),
        p1: Some("p1".to_string()),
        importance: 50,
        ..Default::default()
    }
}

fn memory(id: i64, content: &str) -> ShadowMemoryRow {
    ShadowMemoryRow {
        id,
        project_path: "shadow:real".to_string(),
        category: "CONSTRAINTS".to_string(),
        content: content.to_string(),
        normalized_hash: compute_normalized_memory_hash(content),
        importance: Some(70),
        scope: "project".to_string(),
        status: "active".to_string(),
        verification_status: "unverified".to_string(),
        ..Default::default()
    }
}

#[test]
fn shadow_workspace_union_stays_isolated_from_real_project_queries() {
    let mut store = McStore::new();
    let session = "shadow:workspace-session";
    let foreign = "shadow:workspace-session:member:foreign";
    let workspace = ShadowWorkspaceRow {
        name: "shadow-workspace-isolation".to_string(),
        share_categories: vec!["CONSTRAINTS".to_string()],
        members: vec![
            ShadowWorkspaceMemberRow {
                project_path: session.to_string(),
                display_name: "owner".to_string(),
                display_path: "/real/owner".to_string(),
            },
            ShadowWorkspaceMemberRow {
                project_path: foreign.to_string(),
                display_name: "foreign".to_string(),
                display_path: "/real/foreign".to_string(),
            },
        ],
    };
    let mut own = memory(1, "own architecture");
    own.project_path = session.to_string();
    own.category = "ARCHITECTURE".to_string();
    let mut shared = memory(2, "foreign constraint");
    shared.project_path = foreign.to_string();
    let mut private = memory(3, "foreign preference");
    private.project_path = foreign.to_string();
    private.category = "PREFERENCES".to_string();

    store
        .apply_shadow_state_sync(ShadowStateSyncRequest {
            session_id: session,
            shadow_project_path: session,
            shadow_generation: 0,
            expected_shadow_seq: 0,
            seed_boundary_id: None,
            compartments: &[],
            memories: &[own, shared, private],
            memory_mutations: &[],
            workspace: Some(&workspace),
            last_todo_state: None,
            acked_watermarks: String::new(),
        })
        .unwrap();

    let membership = store
        .resolve_workspace_membership(session)
        .expect("shadow workspace membership");
    assert!(membership
        .union_identities
        .iter()
        .all(|path| path.starts_with(SHADOW_SESSION_PREFIX)));
    let visible = store.load_workspace_union_memories(&membership, 0).unwrap();
    assert_eq!(
        visible.iter().map(|memory| memory.id).collect::<Vec<_>>(),
        vec![1, 2]
    );
    assert!(store
        .resolve_workspace_membership("/real/foreign")
        .is_none());
    assert!(store
        .load_active_memories("/real/foreign", 0)
        .is_empty());

    store.reset_shadow_session(session, session).unwrap();
    assert!(store
        .resolve_workspace_membership(session)
        .is_none());
    assert!(store.load_active_memories(foreign, 0).is_empty());
}

#[test]
fn shadow_state_sync_is_generation_and_zero_seq_gated() {
    let mut store = McStore::new();
    let session = "shadow:real";
    let project = "shadow:real";
    let compartments = vec![comp(0, 0, "a#0")];
    let memories = vec![memory(1, "remember zero")];
    let mutations = vec![ShadowMemoryMutationRow {
        project_path: project.to_string(),
        mutation: StoredMemoryMutation {
            id: 0,
            mutation_type: "update".to_string(),
            target_memory_id: 1,
            new_content: Some("remember one".to_string()),
            ..Default::default()
        },
    }];

    let applied = store
        .apply_shadow_state_sync(ShadowStateSyncRequest {
            session_id: session,
            shadow_project_path: project,
            shadow_generation: 0,
            expected_shadow_seq: 0,
            seed_boundary_id: None,
            compartments: &compartments,
            memories: &memories,
            memory_mutations: &mutations,
            workspace: None,
            last_todo_state: Some("[]".to_string()),
            acked_watermarks: r#"{"seq":0}"#.to_string(),
        })
        .unwrap();
    assert_eq!(applied.shadow_seq, 1);
    let loaded = store.load(session);
    assert_eq!(loaded.meta.shadow_generation, 0);
    assert_eq!(loaded.meta.shadow_seq, 1);
    assert_eq!(loaded.meta.last_todo_state.as_deref(), Some("[]"));
    assert_eq!(store.load_compartments(session)[0].sequence, 0);
    assert_eq!(store.load_active_memories(project, 0)[0].id, 1);
    assert_eq!(
        store
            .max_memory_mutation_id(&[project.to_string()]).unwrap(),
        0
    );

    let seq_reject = store
        .apply_shadow_state_sync(ShadowStateSyncRequest {
            session_id: session,
            shadow_project_path: project,
            shadow_generation: 0,
            expected_shadow_seq: 0,
            seed_boundary_id: None,
            compartments: &[],
            memories: &[],
            memory_mutations: &[],
            workspace: None,
            last_todo_state: None,
            acked_watermarks: String::new(),
        })
        .unwrap_err();
    assert!(matches!(
        seq_reject,
        ShadowStateSyncError::SeqMismatch {
            expected: 0,
            found: 1
        }
    ));

    let reset = store.reset_shadow_session(session, project).unwrap();
    assert_eq!(reset.shadow_generation, 1);
    assert_eq!(reset.shadow_seq, 0);
    assert!(store.load_compartments(session).is_empty());
    assert!(store.load_active_memories(project, 0).is_empty());

    let stale_generation = store
        .apply_shadow_state_sync(ShadowStateSyncRequest {
            session_id: session,
            shadow_project_path: project,
            shadow_generation: 0,
            expected_shadow_seq: 0,
            seed_boundary_id: None,
            compartments: &[],
            memories: &[],
            memory_mutations: &[],
            workspace: None,
            last_todo_state: None,
            acked_watermarks: String::new(),
        })
        .unwrap_err();
    assert!(matches!(
        stale_generation,
        ShadowStateSyncError::GenerationMismatch {
            expected: 0,
            found: 1
        }
    ));
}

#[test]
fn assembled_paged_seed_without_reset_retains_omitted_compartments() {
    let mut store = McStore::new();
    let session = "shadow:reset-required";
    let initial = vec![comp(0, 0, "first#0"), comp(1, 1, "stale#0")];
    store
        .apply_shadow_state_sync(ShadowStateSyncRequest {
            session_id: session,
            shadow_project_path: session,
            shadow_generation: 0,
            expected_shadow_seq: 0,
            seed_boundary_id: None,
            compartments: &initial,
            memories: &[],
            memory_mutations: &[],
            workspace: None,
            last_todo_state: None,
            acked_watermarks: String::new(),
        })
        .unwrap();

    // A completed paged seed reaches the store as one assembled request. Omitting
    // the existing sequence-1 compartment here preserves it unless reset ran first.
    let replacement = vec![comp(0, 0, "replacement#0")];
    store
        .apply_shadow_state_sync(ShadowStateSyncRequest {
            session_id: session,
            shadow_project_path: session,
            shadow_generation: 0,
            expected_shadow_seq: 1,
            seed_boundary_id: None,
            compartments: &replacement,
            memories: &[],
            memory_mutations: &[],
            workspace: None,
            last_todo_state: None,
            acked_watermarks: String::new(),
        })
        .unwrap();
    assert_eq!(
        store
            .load_compartments(session)
            .iter()
            .map(|compartment| compartment.sequence)
            .collect::<Vec<_>>(),
        vec![0, 1],
        "state_sync upserts and cannot prove completeness without a prior reset"
    );

    store.reset_shadow_session(session, session).unwrap();
    store
        .apply_shadow_state_sync(ShadowStateSyncRequest {
            session_id: session,
            shadow_project_path: session,
            shadow_generation: 1,
            expected_shadow_seq: 0,
            seed_boundary_id: None,
            compartments: &replacement,
            memories: &[],
            memory_mutations: &[],
            workspace: None,
            last_todo_state: None,
            acked_watermarks: String::new(),
        })
        .unwrap();
    assert_eq!(store.load_compartments(session).len(), 1);
}

#[test]
fn shadow_seed_boundary_mismatch_rejects_without_partial_writes() {
    let mut store = McStore::new();
    let session = "shadow:stale-boundary";
    let compartments = vec![comp(7, 12, "tail#2")];

    let error = store
        .apply_shadow_state_sync(ShadowStateSyncRequest {
            session_id: session,
            shadow_project_path: session,
            shadow_generation: 0,
            expected_shadow_seq: 0,
            seed_boundary_id: Some("tail#1"),
            compartments: &compartments,
            memories: &[],
            memory_mutations: &[],
            workspace: None,
            last_todo_state: None,
            acked_watermarks: String::new(),
        })
        .unwrap_err();
    assert!(matches!(
        error,
        ShadowStateSyncError::InvalidSeedBoundary { .. }
    ));
    let loaded = store.load(session);
    assert_eq!(loaded.meta.shadow_seq, 0);
    assert!(loaded.core.boundary_id.is_empty());
    assert!(store.load_compartments(session).is_empty());
}

#[test]
fn shadow_divergence_quarantines_until_reset() {
    let mut store = McStore::new();
    let session = "shadow:real";
    let project = "shadow:real";
    let reset = store.reset_shadow_session(session, project).unwrap();

    let write = store
        .record_shadow_divergence(ShadowDivergenceRecord {
            session_id: session,
            shadow_generation: reset.shadow_generation,
            pass_seq: 0,
            class: "byte-mismatch",
            first_mid: Some("m0"),
            first_block: Some("0"),
            first_field: Some("content"),
            ts_prefix: "ts",
            rs_prefix: "rs",
            first_diff_offset: Some(3),
            ts_window: "ts-window",
            rs_window: "rs-window",
            normalizations_json: "[]",
            ts_decision_json: "{}",
            rs_decision_json: "{}",
            state_hash: "hash",
            created_at_ms: 7,
            quarantine: true,
        })
        .unwrap();
    assert!(write.quarantined);
    assert!(store.load(session).meta.shadow_quarantined);
    let rows = store.load_shadow_divergences(session);
    assert_eq!(rows.len(), 1);
    assert_eq!(rows[0].first_diff_offset, Some(3));
    assert_eq!(rows[0].ts_window, "ts-window");
    assert_eq!(rows[0].rs_window, "rs-window");

    let repeated = store
        .record_shadow_divergence(ShadowDivergenceRecord {
            session_id: session,
            shadow_generation: reset.shadow_generation,
            pass_seq: 1,
            class: "quarantined",
            first_mid: None,
            first_block: None,
            first_field: None,
            ts_prefix: "",
            rs_prefix: "",
            first_diff_offset: None,
            ts_window: "",
            rs_window: "",
            normalizations_json: "[]",
            ts_decision_json: "{}",
            rs_decision_json: "{}",
            state_hash: "hash",
            created_at_ms: 8,
            quarantine: false,
        })
        .unwrap();
    assert!(repeated.quarantined);
    assert_eq!(store.load_shadow_divergences(session).len(), 1);
    assert_eq!(
        store
            .load(session)
            .meta
            .shadow_quarantined_pass_count,
        1
    );

    let reset = store.reset_shadow_session(session, project).unwrap();
    assert_eq!(reset.shadow_generation, 2);
    let loaded = store.load(session);
    assert!(!loaded.meta.shadow_quarantined);
    assert_eq!(loaded.meta.shadow_quarantined_pass_count, 0);
    assert_eq!(store.load_shadow_divergences(session).len(), 1);
}

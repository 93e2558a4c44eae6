//! What the store promises, on small examples.

use magic_context::like::is_like;
use magic_context::meta::{CoreState, ModuleMeta};
use magic_context::rows::Keyed;
use magic_context::store::errors::{McStoreError, StoreError};
use magic_context::store::memories::InsertMemoryInput;
use magic_context::store::notes::NoteInput;
use magic_context::store::records::{
    AppendOutcome, FactCandidate, McTagRow, MemoryRevision, StoredCompartment, TagMintInput,
    TranscriptRow, WorkspaceMembership,
};
use magic_context::store::McStore;
use magic_context::wire::{CkKind, CkWireBlock, ProviderExtras};

fn comp(sequence: i64) -> StoredCompartment {
    StoredCompartment {
        sequence,
        start_message: sequence,
        end_message: sequence,
        end_message_id: format!("m{sequence}#0"),
        content: format!("C{sequence}"),
        p1: Some(format!("C{sequence}")),
        ..Default::default()
    }
}

fn tag(block: &str) -> TagMintInput {
    TagMintInput {
        block_id: block.to_string(),
        kind: "message".to_string(),
        token_count: 3,
        source_bytes: Vec::new(),
    }
}

fn memory<'a>(project_path: &'a str, category: &'a str, content: &'a str) -> InsertMemoryInput<'a> {
    InsertMemoryInput {
        project_path,
        category,
        content,
        source_session_id: None,
        source_type: Some("tool"),
        importance: Some(50),
        expires_at: None,
        metadata_json: None,
        now_ms: 1,
    }
}

#[test]
fn a_commit_wins_once() {
    let mut s = McStore::new();
    let (core, meta) = (CoreState::default(), ModuleMeta::default());
    assert_eq!(s.commit("ses", None, &core, &meta), Ok(1));
    assert_eq!(
        s.commit("ses", None, &core, &meta),
        Err(McStoreError::CasConflict {
            expected: None,
            found: 1
        })
    );
    assert_eq!(s.commit("ses", Some(1), &core, &meta), Ok(2));
}

#[test]
fn a_second_cut_drops_nothing() {
    let mut s = McStore::new();
    s.replace_compartments("ses", &[comp(1), comp(2), comp(3)]).unwrap();
    s.replace_compartments("other", &[comp(9)]).unwrap();
    let v = s
        .commit("ses", None, &CoreState::default(), &ModuleMeta::default())
        .unwrap();
    let first = s.truncate_compartments_for_revert("ses", 1, Some(v)).unwrap();
    assert_eq!(first.revert_epoch, 1);
    let kept: Vec<i64> = s.load_compartments("ses").iter().map(|c| c.sequence).collect();
    assert_eq!(kept, vec![1]);
    let second = s
        .truncate_compartments_for_revert("ses", 1, Some(first.row_version))
        .unwrap();
    assert_eq!(second, first);
    assert_eq!(s.load_compartments("other").len(), 1);
}

#[test]
fn minting_again_adds_nothing() {
    let mut s = McStore::new();
    let first = s.mint_or_get_tags("ses", &[tag("a#0"), tag("b#0")], 1).unwrap();
    let again = s.mint_or_get_tags("ses", &[tag("b#0"), tag("a#0"), tag("c#0")], 2).unwrap();
    let numbers = |rows: &[McTagRow]| -> Vec<(String, i64)> {
        rows.iter().map(|r| (r.block_id.clone(), r.tag_number)).collect()
    };
    assert_eq!(numbers(&first).len(), 2);
    for row in numbers(&first) {
        assert!(numbers(&again).contains(&row));
    }
    assert_eq!(s.load_tags_for_session("ses").len(), 3);
    assert_eq!(
        s.sum_tag_token_counts_for_blocks("ses", &["a#0".to_string(), "c#0".to_string()]),
        6
    );
}

#[test]
fn promoting_again_adds_nothing() {
    let mut s = McStore::new();
    let facts = vec![
        FactCandidate {
            category: "ARCHITECTURE".to_string(),
            content: "One rule".to_string(),
            importance: Some(50),
            ..Default::default()
        },
        FactCandidate {
            category: "ARCHITECTURE".to_string(),
            content: "One rule".to_string(),
            importance: Some(50),
            ..Default::default()
        },
    ];
    assert_eq!(s.promote_facts("git:p", &facts).unwrap().len(), 1);
    assert_eq!(s.memories.len(), 1);
    assert!(s.promote_facts("git:p", &facts).unwrap().is_empty());
    assert_eq!(s.memories.len(), 1);
}

#[test]
fn a_fingerprint_ignores_the_order_of_shared_categories() {
    let of = |shares: &str| {
        let mut s = McStore::new();
        s.seed_workspace_member("ws", "git:p", shares).unwrap();
        s.workspace_fingerprint("git:p")
    };
    assert_eq!(of(r#"["A","B"]"#), of(r#"["B","A"]"#));
    assert_ne!(of(r#"["A","B"]"#), of(r#"["A"]"#));
    assert_eq!(McStore::new().workspace_fingerprint("git:p"), "");
}

#[test]
fn a_memory_is_inserted_once() {
    let mut s = McStore::new();
    let a = s.insert_memory(memory("git:p", "ARCHITECTURE", "Same Rule")).unwrap();
    let b = s.insert_memory(memory("git:p", "ARCHITECTURE", "same rule")).unwrap();
    let c = s.insert_memory(memory("git:p", "CONSTRAINTS", "same rule")).unwrap();
    assert_eq!(a, b);
    assert_ne!(a, c);
    assert_eq!(s.get_memory_full(a).unwrap().content, "Same Rule");
}

#[test]
fn appended_sequences_are_new() {
    let mut s = McStore::new();
    s.replace_compartments("ses", &[comp(4)]).unwrap();
    s.append_compartments("ses", &[comp(1), comp(1)]).unwrap();
    let kept: Vec<i64> = s.load_compartments("ses").iter().map(|c| c.sequence).collect();
    assert_eq!(kept, vec![4, 5, 6]);
    assert_eq!(s.max_compartment_seq("ses"), 6);
    assert!(s.replace_compartments("ses", &[comp(1), comp(1)]).is_err());
    assert_eq!(s.load_compartments("ses").len(), 3);
}

#[test]
fn searching_memories() {
    let mut s = McStore::new();
    let mut old = memory("git:p", "ARCHITECTURE", "100% Cached_prefix");
    old.expires_at = Some(2_000);
    let a = s.insert_memory(old).unwrap();
    let mut newer = memory("git:p", "CONSTRAINTS", "keep the CACHED prefix");
    newer.now_ms = 5;
    let b = s.insert_memory(newer).unwrap();
    s.insert_memory(memory("git:other", "CONSTRAINTS", "a cached prefix")).unwrap();
    let found = |query: &str, now_secs: i64| -> Vec<i64> {
        s.search_visible_memory_contents("git:p", query, now_secs).unwrap()
            .iter()
            .map(|row| row.id)
            .collect()
    };
    assert_eq!(found(" cached ", 1), vec![b, a]);
    assert_eq!(found("cached", 2), vec![b]);
    assert_eq!(found("cached_prefix", 1), vec![a]);
    assert_eq!(found("100%", 1), vec![a]);
    assert_eq!(found("0%c", 1), Vec::<i64>::new());
    assert_eq!(found("  ", 1), Vec::<i64>::new());
}

#[test]
fn searching_compartments() {
    let mut s = McStore::new();
    let mut titled = comp(1);
    titled.title = "Parser".to_string();
    let mut tiered = comp(2);
    tiered.p4 = Some("the parser again".to_string());
    s.replace_compartments("ses", &[titled, tiered, comp(3)]).unwrap();
    let found: Vec<i64> = s
        .search_compartments_like("ses", "PARSER").unwrap()
        .iter()
        .map(|row| row.sequence)
        .collect();
    assert_eq!(found, vec![2, 1]);
    assert!(s.search_compartments_like("ses", "").unwrap().is_empty());
    assert!(s.search_compartments_like("other", "parser").unwrap().is_empty());
}

#[test]
fn a_text_is_searched_up_to_its_first_zero_character() {
    assert!(!is_like("%b%", "a\0b"));
    assert!(is_like("%a%", "a\0b"));
    assert!(is_like("a", "a\0b"));
    assert!(is_like("%b\0%", "ab"));
    assert!(!is_like("%b\0%", "abc"));
    assert!(is_like("\u{fffe}", "\u{fffd}"));
    assert!(!is_like("\u{fffc}", "\u{fffd}"));
    assert!(!is_like("a\\", "a\\"));
    assert!(is_like("a\\%", "A%"));
    let mut s = McStore::new();
    let a = s.insert_memory(memory("git:p", "ARCHITECTURE", "front\0behind")).unwrap();
    let found = |query: &str| -> Vec<i64> {
        s.search_visible_memory_contents("git:p", query, 1)
            .unwrap()
            .iter()
            .map(|row| row.id)
            .collect()
    };
    assert_eq!(found("front"), vec![a]);
    assert_eq!(found("behind"), Vec::<i64>::new());
    assert_eq!(found("ont\0x"), vec![a]);
    assert_eq!(found("fron\0x"), Vec::<i64>::new());
}

#[test]
fn a_search_pattern_has_a_largest_length() {
    let too_complex = || McStoreError::Store(StoreError::PatternTooComplex);
    let longest = "x".repeat(49_998);
    let longer = "x".repeat(49_999);
    let wide = "\u{e9}".repeat(25_000);
    let mut s = McStore::new();
    assert!(s.search_visible_memory_contents("git:p", &longer, 1).unwrap().is_empty());
    assert!(s.search_compartments_like("ses", &longer).unwrap().is_empty());
    assert!(s.search_notes_like("git:p", "ses", &longer).unwrap().is_empty());

    s.insert_memory(memory("git:p", "ARCHITECTURE", "a rule")).unwrap();
    s.replace_compartments("ses", &[comp(1)]).unwrap();
    s.insert_note(NoteInput {
        project_path: "git:p",
        session_id: "ses",
        content: "a note",
        surface_condition: None,
        anchor_block_id: None,
        now_ms: 1,
    })
    .unwrap();
    assert!(s.search_visible_memory_contents("git:p", &longest, 1).unwrap().is_empty());
    assert_eq!(
        s.search_visible_memory_contents("git:p", &longer, 1).unwrap_err(),
        too_complex()
    );
    assert_eq!(
        s.search_visible_memory_contents("git:p", &wide, 1).unwrap_err(),
        too_complex()
    );
    assert!(s.search_visible_memory_contents("git:other", &longer, 1).unwrap().is_empty());
    assert!(s.search_compartments_like("ses", &longest).unwrap().is_empty());
    assert_eq!(s.search_compartments_like("ses", &longer).unwrap_err(), too_complex());
    assert!(s.search_compartments_like("other", &longer).unwrap().is_empty());
    assert!(s.search_notes_like("git:p", "ses", &longest).unwrap().is_empty());
    assert_eq!(s.search_notes_like("git:p", "ses", &longer).unwrap_err(), too_complex());
    assert!(s.search_notes_like("git:p", "other", &longer).unwrap().is_empty());
    assert_eq!(too_complex().text(), "store: LIKE or GLOB pattern too complex");
}

#[test]
fn a_read_binds_a_largest_number_of_values() {
    let too_many = || McStoreError::Store(StoreError::TooManyValues);
    let paths = |n: usize| -> Vec<String> { (0..n).map(|i| i.to_string()).collect() };
    let mut s = McStore::new();
    let id = s.insert_memory(memory("7", "ARCHITECTURE", "a rule")).unwrap();

    let membership = |n: usize| WorkspaceMembership {
        union_identities: paths(n),
        own_identity: "7".to_string(),
        share_categories: vec!["ARCHITECTURE".to_string()],
        ..Default::default()
    };
    assert_eq!(s.load_workspace_union_memories(&membership(32_764), 0).unwrap().len(), 1);
    assert_eq!(
        s.load_workspace_union_memories(&membership(32_765), 0).unwrap_err(),
        too_many()
    );
    let mut unshared = membership(32_766);
    unshared.share_categories = Vec::new();
    assert_eq!(s.load_workspace_union_memories(&unshared, 0).unwrap().len(), 1);
    assert!(s.load_memory_render_snapshot("7", Some(&unshared), 0).is_ok());
    unshared.union_identities.push("7".to_string());
    assert!(s.load_workspace_union_memories(&unshared, 0).is_ok());
    assert_eq!(
        s.load_memory_render_snapshot("7", Some(&unshared), 0).unwrap_err(),
        too_many()
    );

    let revision = |n: usize| MemoryRevision {
        project_paths: paths(n),
        max_memory_id: id,
        mutation_cursor: 0,
    };
    let (core, meta) = (CoreState::default(), ModuleMeta::default());
    assert_eq!(
        s.commit_with_consumed_drops("ses", None, &core, &meta, &[], Some(&revision(32_767))),
        Err(too_many())
    );
    assert_eq!(
        s.commit_with_consumed_drops("ses", Some(4), &core, &meta, &[], Some(&revision(32_767))),
        Err(McStoreError::CasConflict { expected: Some(4), found: 0 })
    );
    assert_eq!(
        s.commit_with_consumed_drops("ses", None, &core, &meta, &[], Some(&revision(32_766))),
        Ok(1)
    );

    let ids: Vec<i64> = (0..32_765).collect();
    let one = paths(1);
    assert_eq!(
        s.memory_mutations_for_render(&one, 0, &ids).unwrap_err(),
        too_many()
    );
    assert!(s.memory_mutations_for_render(&[], 0, &ids).unwrap().is_empty());
    assert!(s.memory_mutations_for_render(&one, 0, &ids[..3]).unwrap().is_empty());
    assert_eq!(too_many().text(), "store: too many SQL variables");
}

#[test]
fn repeated_projects_are_bound_once() {
    let mut s = McStore::new();
    let id = s.insert_memory(memory("git:p", "ARCHITECTURE", "a rule")).unwrap();
    let repeated: Vec<String> = (0..40_000).map(|_| "git:p".to_string()).collect();
    assert_eq!(s.max_memory_id(&repeated), Ok(id));
    assert_eq!(s.max_memory_mutation_id(&repeated), Ok(0));
}

#[test]
fn a_merge_whose_counts_do_not_fit_changes_nothing() {
    let mut s = McStore::new();
    let target = s.insert_memory(memory("git:p", "ARCHITECTURE", "one")).unwrap();
    let source = s.insert_memory(memory("git:p", "ARCHITECTURE", "two")).unwrap();
    s.memories[0].seen_count = i64::MAX;
    s.memories[1].seen_count = 1;
    assert_eq!(
        s.merge_memories_checked("git:p", target, &[source], "both", 9).unwrap_err(),
        McStoreError::Store(StoreError::IntegerOverflow)
    );
    assert_eq!(s.get_memory_full(target).unwrap().content, "one");
    assert!(s.merge_memories_checked("git:p", target, &[target], "both", 9).unwrap().is_none());
    s.memories[0].seen_count = i64::MAX - 1;
    let merged = s
        .merge_memories_checked("git:p", target, &[source], "both", 9)
        .unwrap()
        .unwrap();
    assert_eq!(merged.seen_count, i64::MAX);
    assert_eq!(merged.content, "both");
    assert_eq!(
        McStoreError::Store(StoreError::IntegerOverflow).text(),
        "store: integer overflow"
    );
}

#[test]
fn a_command_counts_once() {
    let mut s = McStore::new();
    let queue = |s: &mut McStore, session: &str, targets: &[&str]| {
        let targets: Vec<String> = targets.iter().map(|t| t.to_string()).collect();
        s.append_pending_agent_drops_with_command(session, Some("cmd"), &targets, 5)
            .unwrap()
    };
    let duplicate = AppendOutcome { queued: 0, duplicate: true };
    assert_eq!(queue(&mut s, "ses", &["a#0"]), AppendOutcome { queued: 1, duplicate: false });
    s.commit("ses", None, &CoreState::default(), &ModuleMeta::default()).unwrap();
    s.replace_compartments("ses", &[comp(1), comp(2)]).unwrap();
    s.truncate_compartments_for_revert("ses", 1, Some(1)).unwrap();
    s.commit_with_consumed_drops(
        "ses",
        Some(2),
        &CoreState::default(),
        &ModuleMeta::default(),
        &[1],
        None,
    )
    .unwrap();
    s.reset_shadow_session("shadow:other", "shadow:p").unwrap();
    assert!(s.load_pending_agent_drops("ses").is_empty());
    assert_eq!(queue(&mut s, "ses", &["a#0"]), duplicate);
    assert_eq!(queue(&mut s, "ses", &["b#0", "c#0"]), duplicate);
    assert!(s.load_pending_agent_drops("ses").is_empty());
    assert_eq!(queue(&mut s, "other", &["b#0"]).queued, 1);
}

#[test]
fn a_transcript_is_found_by_a_message_that_it_covers() {
    let mut s = McStore::new();
    s.transcripts.push(Keyed {
        session_id: "ses".to_string(),
        row: TranscriptRow {
            compartment_seq: 1,
            start_ordinal: 3,
            end_ordinal: 5,
            transcript_deflate: vec![0xff],
            created_at_ms: 0,
        },
    });
    let found = s.load_chunk_transcript_for_message("ses", 5).unwrap();
    assert_eq!((found.compartment_seq, found.transcript), (1, None));
    assert!(s.load_chunk_transcript_for_message("ses", 6).is_none());
}

#[test]
fn extras_of_a_provider_stay_with_a_block() {
    let extras = ProviderExtras {
        json: Some(r#"{"p":{"k":1}}"#.to_string()),
    };
    let kind = || CkKind::Text {
        text: "t".to_string(),
    };
    let mut block = CkWireBlock::with_provider_extras(kind(), extras.clone());
    assert_eq!(block.provider_extras, extras);
    assert_ne!(block, CkWireBlock::bare(kind()));
    block.original = Some("{}".to_string());
    block.mark_modified();
    assert_eq!(block.original, None);
}

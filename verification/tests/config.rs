//! Configuration files.

use magic_context::config::{
    default_task_schedule, discover_project_configs, read_config, resolve_opencode_db_path,
    resolve_pi_config_path, resolve_project_config_path, resolve_user_config_path,
    validate_project_config_target, write_config, write_project_config, write_temp_name,
    ConfigSeen, ConfigWrite, ParentSeen, ProjectRow, TargetSeen, WriteEvent, WriteStage,
    CANONICAL_DREAM_TASKS, TEMP_ATTEMPTS,
};
use magic_context::paths::{is_jsonl_name, is_same_path, is_within, join_path, path_file_name};

fn begin(parent: ParentSeen, target: TargetSeen) -> ConfigWrite {
    write_project_config(
        Ok("/work/project".to_string()),
        "/work/project/.cortexkit/magic-context.jsonc",
        &parent,
        &target,
    )
}

fn reason(write: &ConfigWrite) -> &str {
    match &write.stage {
        WriteStage::Failed(why) => why,
        other => panic!("expected a failure, got {other:?}"),
    }
}

#[test]
fn pi_config_path_matches_cortexkit_user_path() {
    let expected = "/xdg/cortexkit/magic-context.jsonc";
    assert_eq!(resolve_pi_config_path(Some("/xdg"), Some("/home/u")), expected);
    assert_eq!(resolve_user_config_path(Some("/xdg"), Some("/home/u")), expected);

    let missing = read_config(expected, "pi", ConfigSeen::Absent);
    assert_eq!(missing.path, expected);
    assert!(!missing.exists);
    assert_eq!(missing.content.as_deref(), None);
    assert_eq!(missing.source, "pi");
    assert!(missing.error.is_none());

    let content = "{\n  \"enabled\": true\n}";
    let existing = read_config(expected, "pi", ConfigSeen::Content(content.to_string()));
    assert!(existing.exists);
    assert_eq!(existing.content.as_deref(), Some(content));
    assert_eq!(existing.source, "pi");
    assert!(existing.error.is_none());
}

#[test]
fn read_config_reports_absent_without_error() {
    let config = read_config("/tmp/missing.jsonc", "user", ConfigSeen::Absent);

    assert!(!config.exists);
    assert_eq!(config.content.as_deref(), None);
    assert!(config.error.is_none());
}

#[test]
fn read_config_reports_error_for_present_unreadable_path() {
    let config = read_config(
        "/tmp/magic-context.jsonc",
        "user",
        ConfigSeen::Unreadable("is a directory".to_string()),
    );

    assert!(config.exists);
    assert_eq!(config.content.as_deref(), None);
    let error = config.error.as_deref().unwrap_or("");
    assert!(
        error.contains("Failed to read config"),
        "unexpected error: {error}"
    );

    let unseen = read_config("/x", "user", ConfigSeen::Uninspectable("denied".to_string()));
    assert!(unseen.exists);
    assert_eq!(unseen.error.as_deref(), Some("Failed to inspect config path: denied"));
}

#[test]
fn write_project_config_writes_regular_file_atomically() {
    let file = "/work/project/.cortexkit/magic-context.jsonc".to_string();
    let dir = || ParentSeen::Resolved("/work/project/.cortexkit".to_string());
    for (parent, target) in [
        (ParentSeen::Missing, TargetSeen::Missing),
        (dir(), TargetSeen::Resolved(file.clone())),
    ] {
        let mut write = begin(parent, target);
        assert_eq!(write.stage, WriteStage::Directory);
        write.advance(WriteEvent::Done);
        assert_eq!(write.stage, WriteStage::Create(0));
        write.advance(WriteEvent::Taken);
        assert_eq!(write.stage, WriteStage::Create(1));
        write.advance(WriteEvent::Done);
        assert_eq!(write.stage, WriteStage::Fill(1));
        write.advance(WriteEvent::Done);
        assert_eq!(write.stage, WriteStage::Sync(1));
        write.advance(WriteEvent::Done);
        assert_eq!(write.stage, WriteStage::Check(1));
        write.advance(WriteEvent::Seen(dir(), TargetSeen::Resolved(file.clone())));
        assert_eq!(write.stage, WriteStage::Replace(1));
        write.advance(WriteEvent::Done);
        assert_eq!(write.stage, WriteStage::Finished);
    }
}

#[test]
fn write_project_config_refuses_symlink_target() {
    let write = begin(
        ParentSeen::Resolved("/work/project/.cortexkit".to_string()),
        TargetSeen::Symlink,
    );
    let err = reason(&write);
    assert!(err.contains("symlink"), "unexpected error: {err}");
    assert!(
        matches!(&write.stage, WriteStage::Failed(_)),
        "no file may be made, written or put in place: {:?}",
        write.stage
    );
}

#[test]
fn write_project_config_refuses_non_regular_target() {
    let write = begin(
        ParentSeen::Resolved("/work/project/.cortexkit".to_string()),
        TargetSeen::Irregular,
    );
    let err = reason(&write);
    assert!(err.contains("regular file"), "unexpected error: {err}");
}

#[test]
fn a_link_put_in_place_later_is_refused_before_the_replacement() {
    let mut write = begin(ParentSeen::Missing, TargetSeen::Missing);
    for _ in 0..4 {
        write.advance(WriteEvent::Done);
    }
    assert_eq!(write.stage, WriteStage::Check(0));
    write.advance(WriteEvent::Seen(ParentSeen::Missing, TargetSeen::Symlink));
    assert!(matches!(&write.stage, WriteStage::Discard(0, why) if why.contains("symlink")));
    write.advance(WriteEvent::Failed("gone".to_string()));
    assert!(reason(&write).contains("symlink"));
}

#[test]
fn every_step_of_a_replacement_can_fail() {
    let texts = [
        "Failed to create directory: no",
        "Failed to create temporary config: no",
        "Failed to write config: no",
        "Failed to sync config: no",
        "Failed to replace config atomically: no",
    ];
    for (done, text) in texts.iter().enumerate() {
        let mut write = write_config("/home/u/.config/cortexkit/magic-context.jsonc");
        for _ in 0..done {
            write.advance(WriteEvent::Done);
        }
        write.advance(WriteEvent::Failed("no".to_string()));
        if done >= 2 {
            assert_eq!(write.stage, WriteStage::Discard(0, text.to_string()));
            write.advance(WriteEvent::Done);
        }
        assert_eq!(reason(&write), *text);
    }
    assert_eq!(reason(&write_config("/")), "Config path has no parent directory");
    assert_eq!(
        reason(&write_project_config(
            Err("gone".to_string()),
            "x",
            &ParentSeen::Missing,
            &TargetSeen::Missing
        )),
        "Invalid project path: gone"
    );
}

#[test]
fn names_for_a_temporary_file_run_out() {
    let mut write = write_config("/c/f.jsonc");
    write.advance(WriteEvent::Done);
    for n in 0..TEMP_ATTEMPTS {
        assert_eq!(write.stage, WriteStage::Create(n));
        write.advance(WriteEvent::Taken);
    }
    assert_eq!(reason(&write), "Failed to create a unique temporary config path");
    assert_eq!(write_temp_name("/c/f.jsonc", 42, "1234", 3), ".f.jsonc.42.1234.3.tmp");
    assert_eq!(write_temp_name("/", 1, "2", 0), ".magic-context.jsonc.1.2.0.tmp");
}

#[test]
fn only_the_projects_own_configuration_is_a_target() {
    let check = |path: &str, parent: ParentSeen, target: TargetSeen| {
        validate_project_config_target("/p", path, &parent, &target)
    };
    let own = "/p/.cortexkit/magic-context.jsonc";
    assert_eq!(check(own, ParentSeen::Missing, TargetSeen::Missing), Ok(()));
    assert_eq!(
        check(".cortexkit/magic-context.jsonc", ParentSeen::Missing, TargetSeen::Missing),
        Ok(())
    );
    assert_eq!(
        check("/p/other.jsonc", ParentSeen::Missing, TargetSeen::Missing),
        Err("Config path is outside the project directory".to_string())
    );
    assert!(check(own, ParentSeen::Resolved("/elsewhere".to_string()), TargetSeen::Missing).is_err());
    assert!(check(own, ParentSeen::Failed("denied".to_string()), TargetSeen::Missing).is_err());
    assert_eq!(
        check(own, ParentSeen::Missing, TargetSeen::Resolved("/elsewhere".to_string())),
        Err("Config file resolves outside the project directory".to_string())
    );
    assert_eq!(
        check(own, ParentSeen::Missing, TargetSeen::Unopened("loop".to_string())),
        Err("Failed to open config without following symlinks: loop".to_string())
    );
    assert_eq!(
        check(own, ParentSeen::Missing, TargetSeen::Unresolved("gone".to_string())),
        Err("Invalid config file path: gone".to_string())
    );
    assert_eq!(
        check(own, ParentSeen::Missing, TargetSeen::Uninspectable("io".to_string())),
        Err("Failed to inspect config path: io".to_string())
    );
}

#[test]
fn default_paths() {
    assert_eq!(
        resolve_user_config_path(None, Some("/home/u")),
        "/home/u/.config/cortexkit/magic-context.jsonc"
    );
    assert_eq!(
        resolve_opencode_db_path(None, Some("/home/u")),
        "/home/u/.local/share/opencode/opencode.db"
    );
    assert_eq!(resolve_opencode_db_path(Some("/d"), None), "/d/opencode/opencode.db");
    assert_eq!(resolve_project_config_path("/p"), "/p/.cortexkit/magic-context.jsonc");
}

#[test]
fn schedules_of_the_tasks() {
    let schedules: Vec<&str> = CANONICAL_DREAM_TASKS.iter().map(|t| default_task_schedule(t)).collect();
    assert_eq!(
        schedules,
        vec![
            "0 2 * * *",
            "0 3 * * *",
            "0 4 * * 0",
            "0 4 * * 0",
            "0 6 * * *",
            "0 5 * * *",
            "",
            "0 3 * * *",
            "0 3 * * *",
            "0 3 * * *",
            "0 3 * * *",
        ]
    );
    assert_eq!(default_task_schedule("unknown"), "");
}

#[test]
fn projects_without_a_configuration_are_left_out() {
    let row = |name: Option<&str>, worktree: &str, config_exists: bool| ProjectRow {
        name: name.map(|n| n.to_string()),
        worktree: worktree.to_string(),
        config_exists,
    };
    let found = discover_project_configs(&vec![
        row(Some("named"), "/w/a", true),
        row(None, "/w/b", true),
        row(Some(""), "/w/c", true),
        row(Some("bare"), "/w/d", false),
    ]);
    let names: Vec<&str> = found.iter().map(|e| e.project_name.as_str()).collect();
    assert_eq!(names, vec!["named", "b", "c"]);
    assert_eq!(found[0].config_path, "/w/a/.cortexkit/magic-context.jsonc");
    assert!(found.iter().all(|e| e.exists && e.alt_config_path.is_none() && e.alt_exists.is_none()));
}

#[test]
fn paths_are_read_part_by_part() {
    assert_eq!(join_path("/a", "b"), "/a/b");
    assert_eq!(join_path("/a", "/b"), "/b");
    assert!(is_same_path("/a//b/", "/a/b"));
    assert!(!is_same_path("/a/b", "a/b"));
    assert!(is_within("/a/b/c", "/a/b"));
    assert!(!is_within("/a/bc", "/a/b"));
    assert_eq!(path_file_name("/a/b.txt").as_deref(), Some("b.txt"));
    assert_eq!(path_file_name("/"), None);
    assert!(is_jsonl_name("x.jsonl"));
    assert!(!is_jsonl_name(".jsonl"));
    assert!(!is_jsonl_name("x.json"));
}

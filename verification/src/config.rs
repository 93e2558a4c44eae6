//! The configuration files: where they are, how they are read, and how they are replaced.

use vstd::prelude::*;

use crate::paths::{
    absolute, file_name, is_absolute, is_same_path, is_within, join_path, joined, parts,
    path_file_name, path_parts, same_path, within,
};
use crate::rows::{group_views, opt_dup, opt_text, opt_view, take_all, take_next, views};
use crate::text::{decimal, owned, same_text, u64_text};

verus! {

// --- where they are -------------------------------------------------------------------

/// A directory that is set, or one below the home directory.
pub open spec fn base_dir(set: Option<Seq<char>>, home: Option<Seq<char>>, rest: Seq<char>) -> Seq<
    char,
> {
    match set {
        Some(dir) => dir,
        None => match home {
            Some(home) => joined(home, rest),
            None => joined(Seq::empty(), rest),
        },
    }
}

fn find_base_dir(set: Option<&str>, home: Option<&str>, rest: &str) -> (r: String)
    ensures
        r@ == base_dir(opt_text(set), opt_text(home), rest@),
{
    match set {
        Some(dir) => owned(dir),
        None => match home {
            Some(home) => join_path(home, rest),
            None => {
                proof {
                    reveal_strlit("");
                    assert(""@ =~= Seq::<char>::empty());
                }
                join_path("", rest)
            },
        },
    }
}

/// The path of the user's configuration.
pub open spec fn user_config(config_home: Option<Seq<char>>, home: Option<Seq<char>>) -> Seq<char> {
    joined(
        joined(base_dir(config_home, home, ".config"@), "cortexkit"@),
        "magic-context.jsonc"@,
    )
}

/// Resolves the path of the user's configuration.
pub fn resolve_user_config_path(config_home: Option<&str>, home: Option<&str>) -> (r: String)
    ensures
        r@ == user_config(opt_text(config_home), opt_text(home)),
{
    let base = find_base_dir(config_home, home, ".config");
    join_path(&join_path(&base, "cortexkit"), "magic-context.jsonc")
}

/// Resolves the path of the configuration that Pi reads: the user's.
pub fn resolve_pi_config_path(config_home: Option<&str>, home: Option<&str>) -> (r: String)
    ensures
        r@ == user_config(opt_text(config_home), opt_text(home)),
{
    resolve_user_config_path(config_home, home)
}

/// The path of a project's configuration.
pub open spec fn project_config(project: Seq<char>) -> Seq<char> {
    joined(joined(project, ".cortexkit"@), "magic-context.jsonc"@)
}

/// Resolves the path of a project's configuration.
pub fn resolve_project_config_path(project_path: &str) -> (r: String)
    ensures
        r@ == project_config(project_path@),
{
    join_path(&join_path(project_path, ".cortexkit"), "magic-context.jsonc")
}

/// The path of the database that lists projects.
pub open spec fn opencode_db(data_home: Option<Seq<char>>, home: Option<Seq<char>>) -> Seq<char> {
    joined(joined(base_dir(data_home, home, ".local/share"@), "opencode"@), "opencode.db"@)
}

/// Resolves the path of the database that lists projects.
pub fn resolve_opencode_db_path(data_home: Option<&str>, home: Option<&str>) -> (r: String)
    ensures
        r@ == opencode_db(opt_text(data_home), opt_text(home)),
{
    let base = find_base_dir(data_home, home, ".local/share");
    join_path(&join_path(&base, "opencode"), "opencode.db")
}

// --- scheduled tasks ------------------------------------------------------------------

/// The tasks that every project shows, in their order.
pub const CANONICAL_DREAM_TASKS: [&'static str; 11] = [
    "map-memories",
    "verify",
    "verify-broad",
    "curate",
    "classify-memories",
    "retrospective",
    "maintain-docs",
    "evaluate-smart-notes",
    "review-user-memories",
    "promote-primers",
    "refresh-primers",
];

/// The schedule of a task where no configuration sets one. An empty schedule is off.
pub open spec fn task_schedule(task: Seq<char>) -> Seq<char> {
    if task == "map-memories"@ {
        "0 2 * * *"@
    } else if task == "verify-broad"@ || task == "curate"@ {
        "0 4 * * 0"@
    } else if task == "retrospective"@ {
        "0 5 * * *"@
    } else if task == "classify-memories"@ {
        "0 6 * * *"@
    } else if task == "verify"@ || task == "evaluate-smart-notes"@ || task
        == "review-user-memories"@ || task == "promote-primers"@ || task == "refresh-primers"@ {
        "0 3 * * *"@
    } else {
        ""@
    }
}

/// Reads the schedule of a task where no configuration sets one.
pub fn default_task_schedule(task: &str) -> (r: &'static str)
    ensures
        r@ == task_schedule(task@),
{
    if same_text(task, "map-memories") {
        "0 2 * * *"
    } else if same_text(task, "verify-broad") || same_text(task, "curate") {
        "0 4 * * 0"
    } else if same_text(task, "retrospective") {
        "0 5 * * *"
    } else if same_text(task, "classify-memories") {
        "0 6 * * *"
    } else if same_text(task, "verify") || same_text(task, "evaluate-smart-notes") || same_text(
        task,
        "review-user-memories",
    ) || same_text(task, "promote-primers") || same_text(task, "refresh-primers") {
        "0 3 * * *"
    } else {
        ""
    }
}

// --- reading --------------------------------------------------------------------------

/// A configuration file.
#[derive(Debug, PartialEq, Eq)]
pub struct ConfigFile {
    pub path: String,
    pub exists: bool,
    pub content: Option<String>,
    /// `user`, `pi` or `project`.
    pub source: String,
    pub error: Option<String>,
}

/// What a [`ConfigFile`] holds.
#[verifier::ext_equal]
pub struct ConfigFileModel {
    pub path: Seq<char>,
    pub exists: bool,
    pub content: Option<Seq<char>>,
    pub source: Seq<char>,
    pub error: Option<Seq<char>>,
}

impl View for ConfigFile {
    type V = ConfigFileModel;

    open spec fn view(&self) -> ConfigFileModel {
        ConfigFileModel {
            path: self.path@,
            exists: self.exists,
            content: opt_view(self.content),
            source: self.source@,
            error: opt_view(self.error),
        }
    }
}

impl Clone for ConfigFile {
    fn clone(&self) -> (r: Self)
        ensures
            r@ == self@,
    {
        ConfigFile {
            path: self.path.clone(),
            exists: self.exists,
            content: opt_dup(&self.content),
            source: self.source.clone(),
            error: opt_dup(&self.error),
        }
    }
}

/// A configuration file as it is handed to a caller.
pub type ConfigFileResponse = ConfigFile;

/// What was seen at the path of a configuration.
#[derive(Debug, PartialEq, Eq)]
pub enum ConfigSeen {
    /// There is nothing.
    Absent,
    /// It was read.
    Content(String),
    /// It is there and was not read, with the reason.
    Unreadable(String),
    /// Whether it is there is not known, with the reason.
    Uninspectable(String),
}

/// What a [`ConfigSeen`] holds.
pub enum ConfigSeenModel {
    Absent,
    Content(Seq<char>),
    Unreadable(Seq<char>),
    Uninspectable(Seq<char>),
}

impl View for ConfigSeen {
    type V = ConfigSeenModel;

    open spec fn view(&self) -> ConfigSeenModel {
        match self {
            ConfigSeen::Absent => ConfigSeenModel::Absent,
            ConfigSeen::Content(t) => ConfigSeenModel::Content(t@),
            ConfigSeen::Unreadable(e) => ConfigSeenModel::Unreadable(e@),
            ConfigSeen::Uninspectable(e) => ConfigSeenModel::Uninspectable(e@),
        }
    }
}

/// The file that was seen. One that could not be read is there, and its content is not taken
/// for empty.
pub open spec fn seen_config(path: Seq<char>, source: Seq<char>, seen: ConfigSeenModel) ->
    ConfigFileModel {
    let absent = ConfigFileModel { path, exists: false, content: None, source, error: None };
    match seen {
        ConfigSeenModel::Absent => absent,
        ConfigSeenModel::Content(t) => ConfigFileModel { exists: true, content: Some(t), ..absent },
        ConfigSeenModel::Unreadable(e) => ConfigFileModel {
            exists: true,
            error: Some("Failed to read config: "@ + e),
            ..absent
        },
        ConfigSeenModel::Uninspectable(e) => ConfigFileModel {
            exists: true,
            error: Some("Failed to inspect config path: "@ + e),
            ..absent
        },
    }
}

fn prefixed(prefix: &str, text: &str) -> (r: String)
    ensures
        r@ == prefix@ + text@,
{
    let mut r = owned(prefix);
    r.append(text);
    r
}

/// Reads a configuration from what was seen at its path.
pub fn read_config(path: &str, source: &str, seen: ConfigSeen) -> (r: ConfigFile)
    ensures
        r@ == seen_config(path@, source@, seen@),
{
    let mut r = ConfigFile {
        path: owned(path),
        exists: false,
        content: None,
        source: owned(source),
        error: None,
    };
    match seen {
        ConfigSeen::Absent => {},
        ConfigSeen::Content(t) => {
            r.exists = true;
            r.content = Some(t);
        },
        ConfigSeen::Unreadable(e) => {
            r.exists = true;
            r.error = Some(prefixed("Failed to read config: ", &e));
        },
        ConfigSeen::Uninspectable(e) => {
            r.exists = true;
            r.error = Some(prefixed("Failed to inspect config path: ", &e));
        },
    }
    r
}

/// A configuration is taken for one that can be written anew only where there is none: what
/// was not read is reported as an error.
pub proof fn unread_is_not_absent(path: Seq<char>, source: Seq<char>, seen: ConfigSeenModel)
    ensures
        ({
            let c = seen_config(path, source, seen);
            &&& c.exists <==> !(seen is Absent)
            &&& c.exists <==> (c.content is Some || c.error is Some)
            &&& !(c.content is Some && c.error is Some)
        }),
{
}

// --- checking a target ----------------------------------------------------------------

/// What was seen of the directory of a configuration.
#[derive(Debug, PartialEq, Eq)]
pub enum ParentSeen {
    /// There is none.
    Missing,
    /// It is there, under this canonical path.
    Resolved(String),
    /// It is there and could not be resolved, with the reason.
    Failed(String),
}

/// What a [`ParentSeen`] holds.
pub enum ParentSeenModel {
    Missing,
    Resolved(Seq<char>),
    Failed(Seq<char>),
}

impl View for ParentSeen {
    type V = ParentSeenModel;

    open spec fn view(&self) -> ParentSeenModel {
        match self {
            ParentSeen::Missing => ParentSeenModel::Missing,
            ParentSeen::Resolved(t) => ParentSeenModel::Resolved(t@),
            ParentSeen::Failed(e) => ParentSeenModel::Failed(e@),
        }
    }
}

/// What was seen at the path of a configuration, without following a link.
#[derive(Debug, PartialEq, Eq)]
pub enum TargetSeen {
    /// There is nothing.
    Missing,
    /// It is a link.
    Symlink,
    /// It is neither a link nor a regular file.
    Irregular,
    /// It is a regular file that did not open without following links, with the reason.
    Unopened(String),
    /// It is a regular file that could not be resolved, with the reason.
    Unresolved(String),
    /// It is a regular file, under this canonical path.
    Resolved(String),
    /// Whether it is there is not known, with the reason.
    Uninspectable(String),
}

/// What a [`TargetSeen`] holds.
pub enum TargetSeenModel {
    Missing,
    Symlink,
    Irregular,
    Unopened(Seq<char>),
    Unresolved(Seq<char>),
    Resolved(Seq<char>),
    Uninspectable(Seq<char>),
}

impl View for TargetSeen {
    type V = TargetSeenModel;

    open spec fn view(&self) -> TargetSeenModel {
        match self {
            TargetSeen::Missing => TargetSeenModel::Missing,
            TargetSeen::Symlink => TargetSeenModel::Symlink,
            TargetSeen::Irregular => TargetSeenModel::Irregular,
            TargetSeen::Unopened(e) => TargetSeenModel::Unopened(e@),
            TargetSeen::Unresolved(e) => TargetSeenModel::Unresolved(e@),
            TargetSeen::Resolved(t) => TargetSeenModel::Resolved(t@),
            TargetSeen::Uninspectable(e) => TargetSeenModel::Uninspectable(e@),
        }
    }
}

/// A path as seen from a project.
pub open spec fn from_project(project: Seq<char>, path: Seq<char>) -> Seq<char> {
    if absolute(path) {
        path
    } else {
        joined(project, path)
    }
}

/// Why the directory of a project's configuration is refused. One that is missing counts
/// under its own path.
pub open spec fn parent_fault(project: Seq<char>, parent: ParentSeenModel) -> Option<Seq<char>> {
    match parent {
        ParentSeenModel::Failed(e) => Some("Invalid config directory: "@ + e),
        ParentSeenModel::Resolved(dir) => if within(dir, project) {
            None
        } else {
            Some("Config path is outside the project directory"@)
        },
        ParentSeenModel::Missing => if within(joined(project, ".cortexkit"@), project) {
            None
        } else {
            Some("Config path is outside the project directory"@)
        },
    }
}

/// Why what is at the path of a project's configuration is refused.
pub open spec fn present_fault(project: Seq<char>, target: TargetSeenModel) -> Option<Seq<char>> {
    match target {
        TargetSeenModel::Missing => None,
        TargetSeenModel::Symlink => Some(
            "Refusing to write project config because the config path is a symlink"@,
        ),
        TargetSeenModel::Irregular => Some(
            "Refusing to write project config because the config path is not a regular file"@,
        ),
        TargetSeenModel::Unopened(e) => Some(
            "Failed to open config without following symlinks: "@ + e,
        ),
        TargetSeenModel::Unresolved(e) => Some("Invalid config file path: "@ + e),
        TargetSeenModel::Resolved(file) => if within(file, project) {
            None
        } else {
            Some("Config file resolves outside the project directory"@)
        },
        TargetSeenModel::Uninspectable(e) => Some("Failed to inspect config path: "@ + e),
    }
}

/// Why a target is refused as a project's configuration: it is another path, its directory
/// lies elsewhere, or what is there is not a regular file of the project.
pub open spec fn target_fault(
    project: Seq<char>,
    path: Seq<char>,
    parent: ParentSeenModel,
    target: TargetSeenModel,
) -> Option<Seq<char>> {
    if !same_path(from_project(project, path), project_config(project)) {
        Some("Config path is outside the project directory"@)
    } else {
        match parent_fault(project, parent) {
            Some(e) => Some(e),
            None => present_fault(project, target),
        }
    }
}

/// What a refused check returns.
pub open spec fn fault_of(r: Result<(), String>) -> Option<Seq<char>> {
    match r {
        Ok(_) => None,
        Err(e) => Some(e@),
    }
}

fn check_parent(project: &str, parent: &ParentSeen) -> (r: Result<(), String>)
    ensures
        fault_of(r) == parent_fault(project@, parent@),
{
    let inside: bool = match parent {
        ParentSeen::Failed(e) => {
            return Err(prefixed("Invalid config directory: ", e));
        },
        ParentSeen::Resolved(dir) => is_within(dir, project),
        ParentSeen::Missing => is_within(&join_path(project, ".cortexkit"), project),
    };
    if inside {
        Ok(())
    } else {
        Err(owned("Config path is outside the project directory"))
    }
}

fn check_present(project: &str, target: &TargetSeen) -> (r: Result<(), String>)
    ensures
        fault_of(r) == present_fault(project@, target@),
{
    match target {
        TargetSeen::Missing => Ok(()),
        TargetSeen::Symlink => Err(
            owned("Refusing to write project config because the config path is a symlink"),
        ),
        TargetSeen::Irregular => Err(
            owned("Refusing to write project config because the config path is not a regular file"),
        ),
        TargetSeen::Unopened(e) => Err(
            prefixed("Failed to open config without following symlinks: ", e),
        ),
        TargetSeen::Unresolved(e) => Err(prefixed("Invalid config file path: ", e)),
        TargetSeen::Resolved(file) => if is_within(file, project) {
            Ok(())
        } else {
            Err(owned("Config file resolves outside the project directory"))
        },
        TargetSeen::Uninspectable(e) => Err(prefixed("Failed to inspect config path: ", e)),
    }
}

/// Checks a path against a project whose path is canonical, from what was seen there.
pub fn validate_project_config_target(
    canonical_project: &str,
    path: &str,
    parent: &ParentSeen,
    target: &TargetSeen,
) -> (r: Result<(), String>)
    ensures
        fault_of(r) == target_fault(canonical_project@, path@, parent@, target@),
{
    let seen_from = if is_absolute(path) {
        owned(path)
    } else {
        join_path(canonical_project, path)
    };
    if !is_same_path(&seen_from, &resolve_project_config_path(canonical_project)) {
        return Err(owned("Config path is outside the project directory"));
    }
    match check_parent(canonical_project, parent) {
        Ok(_) => {},
        Err(e) => {
            return Err(e);
        },
    }
    check_present(canonical_project, target)
}

/// Only the project's own configuration is ever accepted, under its own path, in a directory
/// of the project, and never through a link.
pub proof fn an_accepted_target_is_the_project_config(
    project: Seq<char>,
    path: Seq<char>,
    parent: ParentSeenModel,
    target: TargetSeenModel,
)
    requires
        target_fault(project, path, parent, target) is None,
    ensures
        same_path(from_project(project, path), project_config(project)),
        parent matches ParentSeenModel::Resolved(dir) ==> within(dir, project),
        target is Missing || target is Resolved,
        target matches TargetSeenModel::Resolved(file) ==> within(file, project),
{
}

// --- replacing a file -----------------------------------------------------------------

/// How often a name for the temporary file is tried.
pub const TEMP_ATTEMPTS: u8 = 16;

/// How far the replacement of a configuration has come. The number is that of the name
/// that was tried last.
#[derive(Debug, PartialEq, Eq)]
pub enum WriteStage {
    /// The directory is to be made.
    Directory,
    /// A temporary file is to be made.
    Create(u8),
    /// The content is to be written to it.
    Fill(u8),
    /// It is to be synced.
    Sync(u8),
    /// The target is to be looked at again.
    Check(u8),
    /// The file is to take the place of the target.
    Replace(u8),
    /// The file is to be removed, because of an error.
    Discard(u8, String),
    /// The configuration was replaced.
    Finished,
    /// It was not, because of an error.
    Failed(String),
}

/// What a [`WriteStage`] holds.
pub enum WriteStageModel {
    Directory,
    Create(u8),
    Fill(u8),
    Sync(u8),
    Check(u8),
    Replace(u8),
    Discard(u8, Seq<char>),
    Finished,
    Failed(Seq<char>),
}

impl View for WriteStage {
    type V = WriteStageModel;

    open spec fn view(&self) -> WriteStageModel {
        match self {
            WriteStage::Directory => WriteStageModel::Directory,
            WriteStage::Create(n) => WriteStageModel::Create(*n),
            WriteStage::Fill(n) => WriteStageModel::Fill(*n),
            WriteStage::Sync(n) => WriteStageModel::Sync(*n),
            WriteStage::Check(n) => WriteStageModel::Check(*n),
            WriteStage::Replace(n) => WriteStageModel::Replace(*n),
            WriteStage::Discard(n, e) => WriteStageModel::Discard(*n, e@),
            WriteStage::Finished => WriteStageModel::Finished,
            WriteStage::Failed(e) => WriteStageModel::Failed(e@),
        }
    }
}

/// What came of a step.
#[derive(Debug, PartialEq, Eq)]
pub enum WriteEvent {
    /// It was done.
    Done,
    /// The name was taken.
    Taken,
    /// It failed, with the reason.
    Failed(String),
    /// The target was looked at.
    Seen(ParentSeen, TargetSeen),
}

/// What a [`WriteEvent`] holds.
pub enum WriteEventModel {
    Done,
    Taken,
    Failed(Seq<char>),
    Seen(ParentSeenModel, TargetSeenModel),
}

impl View for WriteEvent {
    type V = WriteEventModel;

    open spec fn view(&self) -> WriteEventModel {
        match self {
            WriteEvent::Done => WriteEventModel::Done,
            WriteEvent::Taken => WriteEventModel::Taken,
            WriteEvent::Failed(e) => WriteEventModel::Failed(e@),
            WriteEvent::Seen(p, t) => WriteEventModel::Seen(p@, t@),
        }
    }
}

/// The replacement of a configuration: where it goes, the canonical path of the project it
/// belongs to, and how far it has come.
#[derive(Debug, PartialEq, Eq)]
pub struct ConfigWrite {
    pub path: String,
    pub project: Option<String>,
    pub stage: WriteStage,
}

/// What a [`ConfigWrite`] holds.
#[verifier::ext_equal]
pub struct ConfigWriteModel {
    pub path: Seq<char>,
    pub project: Option<Seq<char>>,
    pub stage: WriteStageModel,
}

impl View for ConfigWrite {
    type V = ConfigWriteModel;

    open spec fn view(&self) -> ConfigWriteModel {
        ConfigWriteModel {
            path: self.path@,
            project: opt_view(self.project),
            stage: self.stage@,
        }
    }
}

/// Where a replacement begins: a path that is only a root, or nothing, is in no directory.
pub open spec fn first_stage(path: Seq<char>) -> WriteStageModel {
    if parts(path).len() == 0 {
        WriteStageModel::Failed("Config path has no parent directory"@)
    } else {
        WriteStageModel::Directory
    }
}

/// Where a replacement of a project's configuration begins.
pub open spec fn project_stage(
    canonical: Result<Seq<char>, Seq<char>>,
    path: Seq<char>,
    parent: ParentSeenModel,
    target: TargetSeenModel,
) -> WriteStageModel {
    match canonical {
        Err(e) => WriteStageModel::Failed("Invalid project path: "@ + e),
        Ok(project) => match target_fault(project, path, parent, target) {
            Some(e) => WriteStageModel::Failed(e),
            None => first_stage(path),
        },
    }
}

/// The model of a path that was resolved, or of the reason why it was not.
pub open spec fn resolved(r: Result<String, String>) -> Result<Seq<char>, Seq<char>> {
    match r {
        Ok(t) => Ok(t@),
        Err(e) => Err(e@),
    }
}

/// The project that a replacement belongs to.
pub open spec fn owner(canonical: Result<Seq<char>, Seq<char>>) -> Option<Seq<char>> {
    match canonical {
        Ok(project) => Some(project),
        Err(_) => None,
    }
}

fn begin(path: &str) -> (r: WriteStage)
    ensures
        r@ == first_stage(path@),
{
    broadcast use group_views;

    if path_parts(path).len() == 0 {
        WriteStage::Failed(owned("Config path has no parent directory"))
    } else {
        WriteStage::Directory
    }
}

/// Begins to replace a configuration.
pub fn write_config(path: &str) -> (r: ConfigWrite)
    ensures
        r@ == (ConfigWriteModel { path: path@, project: None, stage: first_stage(path@) }),
{
    ConfigWrite { path: owned(path), project: None, stage: begin(path) }
}

/// Begins to replace the configuration of a project, from the canonical path of the project
/// and what was seen at the target.
pub fn write_project_config(
    canonical: Result<String, String>,
    path: &str,
    parent: &ParentSeen,
    target: &TargetSeen,
) -> (r: ConfigWrite)
    ensures
        r@ == (ConfigWriteModel {
            path: path@,
            project: owner(resolved(canonical)),
            stage: project_stage(resolved(canonical), path@, parent@, target@),
        }),
{
    match canonical {
        Err(e) => ConfigWrite {
            path: owned(path),
            project: None,
            stage: WriteStage::Failed(prefixed("Invalid project path: ", &e)),
        },
        Ok(project) => match validate_project_config_target(&project, path, parent, target) {
            Err(e) => ConfigWrite {
                path: owned(path),
                project: Some(project),
                stage: WriteStage::Failed(e),
            },
            Ok(_) => ConfigWrite {
                path: owned(path),
                project: Some(project),
                stage: begin(path),
            },
        },
    }
}

/// The stage behind a step.
pub open spec fn next_stage(write: ConfigWriteModel, event: WriteEventModel) -> WriteStageModel {
    match (write.stage, event) {
        (WriteStageModel::Directory, WriteEventModel::Done) => WriteStageModel::Create(0),
        (WriteStageModel::Directory, WriteEventModel::Failed(e)) => WriteStageModel::Failed(
            "Failed to create directory: "@ + e,
        ),
        (WriteStageModel::Create(n), WriteEventModel::Done) => WriteStageModel::Fill(n),
        (WriteStageModel::Create(n), WriteEventModel::Taken) => if n + 1 < TEMP_ATTEMPTS {
            WriteStageModel::Create((n + 1) as u8)
        } else {
            WriteStageModel::Failed("Failed to create a unique temporary config path"@)
        },
        (WriteStageModel::Create(_), WriteEventModel::Failed(e)) => WriteStageModel::Failed(
            "Failed to create temporary config: "@ + e,
        ),
        (WriteStageModel::Fill(n), WriteEventModel::Done) => WriteStageModel::Sync(n),
        (WriteStageModel::Fill(n), WriteEventModel::Failed(e)) => WriteStageModel::Discard(
            n,
            "Failed to write config: "@ + e,
        ),
        (WriteStageModel::Sync(n), WriteEventModel::Done) => if write.project is Some {
            WriteStageModel::Check(n)
        } else {
            WriteStageModel::Replace(n)
        },
        (WriteStageModel::Sync(n), WriteEventModel::Failed(e)) => WriteStageModel::Discard(
            n,
            "Failed to sync config: "@ + e,
        ),
        (WriteStageModel::Check(n), WriteEventModel::Seen(parent, target)) => match write.project {
            Some(project) => match target_fault(project, write.path, parent, target) {
                Some(e) => WriteStageModel::Discard(n, e),
                None => WriteStageModel::Replace(n),
            },
            None => WriteStageModel::Replace(n),
        },
        (WriteStageModel::Replace(_), WriteEventModel::Done) => WriteStageModel::Finished,
        (WriteStageModel::Replace(n), WriteEventModel::Failed(e)) => WriteStageModel::Discard(
            n,
            "Failed to replace config atomically: "@ + e,
        ),
        // Whether the file could be removed makes no difference.
        (WriteStageModel::Discard(_, why), WriteEventModel::Done) => WriteStageModel::Failed(why),
        (WriteStageModel::Discard(_, why), WriteEventModel::Failed(_)) => WriteStageModel::Failed(
            why,
        ),
        (stage, _) => stage,
    }
}

impl ConfigWrite {
    /// Goes on after a step. An event that does not belong to the stage changes nothing.
    pub fn advance(&mut self, event: WriteEvent)
        ensures
            final(self)@ == (ConfigWriteModel {
                stage: next_stage(old(self)@, event@),
                ..old(self)@
            }),
    {
        let mut stage = WriteStage::Finished;
        std::mem::swap(&mut stage, &mut self.stage);
        self.stage = match (stage, event) {
            (WriteStage::Directory, WriteEvent::Done) => WriteStage::Create(0),
            (WriteStage::Directory, WriteEvent::Failed(e)) => WriteStage::Failed(
                prefixed("Failed to create directory: ", &e),
            ),
            (WriteStage::Create(n), WriteEvent::Done) => WriteStage::Fill(n),
            (WriteStage::Create(n), WriteEvent::Taken) => if n < TEMP_ATTEMPTS - 1 {
                WriteStage::Create(n + 1)
            } else {
                WriteStage::Failed(owned("Failed to create a unique temporary config path"))
            },
            (WriteStage::Create(_), WriteEvent::Failed(e)) => WriteStage::Failed(
                prefixed("Failed to create temporary config: ", &e),
            ),
            (WriteStage::Fill(n), WriteEvent::Done) => WriteStage::Sync(n),
            (WriteStage::Fill(n), WriteEvent::Failed(e)) => WriteStage::Discard(
                n,
                prefixed("Failed to write config: ", &e),
            ),
            (WriteStage::Sync(n), WriteEvent::Done) => if self.project.is_some() {
                WriteStage::Check(n)
            } else {
                WriteStage::Replace(n)
            },
            (WriteStage::Sync(n), WriteEvent::Failed(e)) => WriteStage::Discard(
                n,
                prefixed("Failed to sync config: ", &e),
            ),
            (WriteStage::Check(n), WriteEvent::Seen(parent, target)) => match &self.project {
                Some(project) => match validate_project_config_target(
                    project,
                    &self.path,
                    &parent,
                    &target,
                ) {
                    Err(e) => WriteStage::Discard(n, e),
                    Ok(_) => WriteStage::Replace(n),
                },
                None => WriteStage::Replace(n),
            },
            (WriteStage::Replace(_), WriteEvent::Done) => WriteStage::Finished,
            (WriteStage::Replace(n), WriteEvent::Failed(e)) => WriteStage::Discard(
                n,
                prefixed("Failed to replace config atomically: ", &e),
            ),
            (WriteStage::Discard(_, why), WriteEvent::Done) => WriteStage::Failed(why),
            (WriteStage::Discard(_, why), WriteEvent::Failed(_)) => WriteStage::Failed(why),
            (stage, _) => stage,
        };
    }
}

/// The name that a temporary file is made for.
pub open spec fn temp_base(path: Seq<char>) -> Seq<char> {
    match file_name(path) {
        Some(name) => name,
        None => "magic-context.jsonc"@,
    }
}

/// The name of a temporary file: that of its target, the process, the time in nanoseconds
/// and the number of the attempt.
pub open spec fn temp_name(path: Seq<char>, pid: u32, stamp: Seq<char>, attempt: u8) -> Seq<char> {
    "."@ + temp_base(path) + "."@ + decimal(pid as nat) + "."@ + stamp + "."@ + decimal(
        attempt as nat,
    ) + ".tmp"@
}

/// Writes the name of a temporary file, for a time that is given in decimal digits.
pub fn write_temp_name(path: &str, pid: u32, stamp: &str, attempt: u8) -> (r: String)
    ensures
        r@ == temp_name(path@, pid, stamp@, attempt),
{
    let base = match path_file_name(path) {
        Some(name) => name,
        None => owned("magic-context.jsonc"),
    };
    let mut r = owned(".");
    r.append(&base);
    r.append(".");
    r.append(&u64_text(pid as u64));
    r.append(".");
    r.append(stamp);
    r.append(".");
    r.append(&u64_text(attempt as u64));
    r.append(".tmp");
    r
}

/// A configuration counts as replaced only once the file that holds the whole new content,
/// written and synced, has taken its place.
pub proof fn a_config_is_replaced_by_a_synced_file(write: ConfigWriteModel, event: WriteEventModel)
    requires
        !(write.stage is Finished),
    ensures
        next_stage(write, event) is Finished ==> write.stage is Replace && event is Done,
        next_stage(write, event) is Replace && !(write.stage is Replace) ==> {
            ||| write.stage is Sync && event is Done && write.project is None
            ||| write.stage is Check && event is Seen
        },
        next_stage(write, event) is Check && !(write.stage is Check) ==> write.stage is Sync
            && event is Done,
        next_stage(write, event) is Sync && !(write.stage is Sync) ==> write.stage is Fill
            && event is Done,
        next_stage(write, event) is Fill && !(write.stage is Fill) ==> write.stage is Create
            && event is Done,
{
}

/// The target of a project's configuration is checked again right before it is replaced.
pub proof fn a_project_config_is_checked_before_it_is_replaced(
    write: ConfigWriteModel,
    event: WriteEventModel,
)
    requires
        write.project is Some,
        !(write.stage is Replace),
        next_stage(write, event) is Replace,
    ensures
        event matches WriteEventModel::Seen(parent, target) && target_fault(
            write.project->0,
            write.path,
            parent,
            target,
        ) is None,
{
}

/// A replacement that fails once its temporary file was made removes that file first, and
/// then reports why it failed.
pub proof fn a_failed_write_removes_its_file(write: ConfigWriteModel, event: WriteEventModel)
    requires
        write.stage is Fill || write.stage is Sync || write.stage is Check
            || write.stage is Replace,
    ensures
        !(next_stage(write, event) is Failed),
        next_stage(write, event) matches WriteStageModel::Discard(n, why) ==> next_stage(
            (ConfigWriteModel { stage: WriteStageModel::Discard(n, why), ..write }),
            WriteEventModel::Done,
        ) == WriteStageModel::Failed(why),
{
}

/// No more names are tried than [`TEMP_ATTEMPTS`].
pub proof fn attempts_are_bounded(write: ConfigWriteModel, event: WriteEventModel)
    requires
        write.stage matches WriteStageModel::Create(n) ==> n < TEMP_ATTEMPTS,
    ensures
        next_stage(write, event) matches WriteStageModel::Create(n) ==> n < TEMP_ATTEMPTS,
{
}

// --- projects -------------------------------------------------------------------------

/// A project with a configuration.
#[derive(Debug, PartialEq, Eq)]
pub struct ProjectConfigEntry {
    pub project_name: String,
    pub worktree: String,
    pub config_path: String,
    pub exists: bool,
    pub alt_config_path: Option<String>,
    pub alt_exists: Option<bool>,
}

/// What a [`ProjectConfigEntry`] holds.
#[verifier::ext_equal]
pub struct ProjectConfigEntryModel {
    pub project_name: Seq<char>,
    pub worktree: Seq<char>,
    pub config_path: Seq<char>,
    pub exists: bool,
    pub alt_config_path: Option<Seq<char>>,
    pub alt_exists: Option<bool>,
}

impl View for ProjectConfigEntry {
    type V = ProjectConfigEntryModel;

    open spec fn view(&self) -> ProjectConfigEntryModel {
        ProjectConfigEntryModel {
            project_name: self.project_name@,
            worktree: self.worktree@,
            config_path: self.config_path@,
            exists: self.exists,
            alt_config_path: opt_view(self.alt_config_path),
            alt_exists: self.alt_exists,
        }
    }
}

/// A project as its database lists it, and whether its configuration is there.
#[derive(Debug, PartialEq, Eq)]
pub struct ProjectRow {
    pub name: Option<String>,
    pub worktree: String,
    pub config_exists: bool,
}

/// What a [`ProjectRow`] holds.
#[verifier::ext_equal]
pub struct ProjectRowModel {
    pub name: Option<Seq<char>>,
    pub worktree: Seq<char>,
    pub config_exists: bool,
}

impl View for ProjectRow {
    type V = ProjectRowModel;

    open spec fn view(&self) -> ProjectRowModel {
        ProjectRowModel {
            name: opt_view(self.name),
            worktree: self.worktree@,
            config_exists: self.config_exists,
        }
    }
}

/// The name that a project is shown under: its own, or that of its directory.
pub open spec fn display_name(project: ProjectRowModel) -> Seq<char> {
    match project.name {
        Some(name) if name.len() > 0 => name,
        _ => match file_name(project.worktree) {
            Some(name) => name,
            None => project.worktree,
        },
    }
}

/// The entry of a project with a configuration.
pub open spec fn project_entry(project: ProjectRowModel) -> ProjectConfigEntryModel {
    ProjectConfigEntryModel {
        project_name: display_name(project),
        worktree: project.worktree,
        config_path: project_config(project.worktree),
        exists: true,
        alt_config_path: None,
        alt_exists: None,
    }
}

/// The entries of the projects that have a configuration, in their order.
pub open spec fn project_entries(projects: Seq<ProjectRowModel>) -> Seq<ProjectConfigEntryModel>
    decreases projects.len(),
{
    if projects.len() == 0 {
        Seq::empty()
    } else {
        let rest = project_entries(projects.drop_last());
        if projects.last().config_exists {
            rest.push(project_entry(projects.last()))
        } else {
            rest
        }
    }
}

fn find_display_name(project: &ProjectRow) -> (r: String)
    ensures
        r@ == display_name(project@),
{
    match &project.name {
        Some(name) => {
            if name.as_str().unicode_len() > 0 {
                return name.clone();
            }
        },
        None => {},
    }
    match path_file_name(&project.worktree) {
        Some(name) => name,
        None => project.worktree.clone(),
    }
}

/// Lists the projects that have a configuration.
pub fn discover_project_configs(projects: &Vec<ProjectRow>) -> (r: Vec<ProjectConfigEntry>)
    ensures
        views(r@) == project_entries(views(projects@)),
{
    broadcast use group_views;

    let ghost all = views(projects@);
    let mut r: Vec<ProjectConfigEntry> = Vec::new();
    let mut i: usize = 0;
    while i < projects.len()
        invariant
            i <= projects.len(),
            all == views(projects@),
            views(r@) == project_entries(all.take(i as int)),
        decreases projects.len() - i,
    {
        proof {
            take_next(all, i as int);
        }
        assert(all[i as int] == projects@[i as int]@);
        let project = &projects[i];
        if project.config_exists {
            r.push(
                ProjectConfigEntry {
                    project_name: find_display_name(project),
                    worktree: project.worktree.clone(),
                    config_path: resolve_project_config_path(&project.worktree),
                    exists: true,
                    alt_config_path: None,
                    alt_exists: None,
                },
            );
        }
        i += 1;
    }
    proof {
        take_all(all);
    }
    r
}

/// Each project with a configuration is listed, and no other, in the order of the projects,
/// with its directory and the path of its configuration.
pub proof fn configured_projects_are_listed(
    projects: Seq<ProjectRowModel>,
    more: Seq<ProjectRowModel>,
    project: ProjectRowModel,
)
    ensures
        project_entries(projects + more) == project_entries(projects) + project_entries(more),
        project.config_exists ==> {
            let listed = project_entries(seq![project]);
            &&& listed.len() == 1
            &&& listed[0].exists
            &&& listed[0].worktree == project.worktree
            &&& listed[0].config_path == project_config(project.worktree)
            &&& (project.name matches Some(name) ==> (name.len() > 0 ==> listed[0].project_name
                == name))
        },
        !project.config_exists ==> project_entries(seq![project]).len() == 0,
    decreases more.len(),
{
    let one = seq![project];
    assert(one.drop_last() =~= Seq::empty());
    assert(project_entries(one.drop_last()) =~= Seq::empty());
    assert(one.last() == project);
    if more.len() == 0 {
        assert(projects + more =~= projects);
        assert(project_entries(projects) + project_entries(more) =~= project_entries(projects));
    } else {
        let less = more.drop_last();
        configured_projects_are_listed(projects, less, project);
        assert((projects + more).drop_last() =~= projects + less);
        assert((projects + more).last() == more.last());
        assert(project_entries(projects + more) =~= project_entries(projects) + project_entries(
            more,
        ));
    }
}

/// A directory that is set is taken as it is, and else the one below the home directory.
pub proof fn a_set_directory_comes_first(
    set: Option<Seq<char>>,
    home: Option<Seq<char>>,
    rest: Seq<char>,
)
    ensures
        set matches Some(dir) ==> base_dir(set, home, rest) == dir,
        set is None ==> (home matches Some(dir) ==> base_dir(set, home, rest) == joined(dir, rest)),
{
}

/// The temporary files of two attempts have different names.
pub proof fn attempts_have_names_of_their_own(
    path: Seq<char>,
    pid: u32,
    stamp: Seq<char>,
    a: u8,
    b: u8,
)
    requires
        temp_name(path, pid, stamp, a) == temp_name(path, pid, stamp, b),
    ensures
        a == b,
{
    let front = "."@ + temp_base(path) + "."@ + decimal(pid as nat) + "."@ + stamp + "."@;
    let x = temp_name(path, pid, stamp, a);
    let n = front.len() as int;
    let m = x.len() - ".tmp"@.len();
    assert(decimal(a as nat) =~= x.subrange(n, m));
    assert(decimal(b as nat) =~= temp_name(path, pid, stamp, b).subrange(n, m));
    crate::text::decimal_reads_back(a as nat);
    crate::text::decimal_reads_back(b as nat);
}

/// A project's configuration is written exactly where the project was resolved, its target is
/// not refused, and the path has a directory; what is told else is why it is not.
pub proof fn a_refused_target_is_not_written(
    canonical: Result<Seq<char>, Seq<char>>,
    path: Seq<char>,
    parent: ParentSeenModel,
    target: TargetSeenModel,
)
    ensures
        ({
            let stage = project_stage(canonical, path, parent, target);
            &&& canonical is Err ==> stage is Failed
            &&& (canonical matches Ok(project) ==> (target_fault(
                project,
                path,
                parent,
                target,
            ) matches Some(e) ==> stage == WriteStageModel::Failed(e)))
            &&& (canonical matches Ok(project) ==> (target_fault(
                project,
                path,
                parent,
                target,
            ) is None && parts(path).len() > 0 ==> stage is Directory))
            &&& parts(path).len() == 0 ==> stage is Failed
        }),
{
}

} // verus!

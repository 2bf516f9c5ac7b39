//! The decisions behind the one-time import of the official Warp stable
//! channel's configuration and session database into My Warp.
//!
//! Everything here works on paths held as strings and on a snapshot of which
//! of them exist on disk (`existing`). The caller probes the file system,
//! hands the snapshot in, and carries out the copies that the plan lists.

use vstd::prelude::*;
use crate::text::{chars_of, copy_str, push_char, push_str, spec_starts_with, spec_trim, str_eq, str_starts_with, trim_string};
use crate::fluent::strings_view;
use crate::check::contains_key;

verus! {

/// Directory name of My Warp's own configuration.
pub const OSS_CONFIG_DIR_NAME: &'static str = ".warp-oss";
/// Directory name of the official stable channel's state.
pub const OFFICIAL_STABLE_STATE_DIR_NAME: &'static str = "dev.warp.Warp-Stable";
/// Directory name of My Warp's own state.
pub const OSS_STATE_DIR_NAME: &'static str = "dev.warp.WarpOss";
/// Directory, inside My Warp's configuration, that holds the import markers.
pub const MARKER_DIR_NAME: &'static str = ".my-warp-import";
/// Marker written once an import has completed.
pub const IMPORTED_MARKER_NAME: &'static str = "stable-import-v1-completed";
/// Marker written once the user has declined the import.
pub const DECLINED_MARKER_NAME: &'static str = "stable-import-v1-declined";
/// Directory, in the home directory, that receives the backups.
pub const BACKUP_ROOT_NAME: &'static str = ".warp-oss-import-backups";
/// Path, below an app group container, of the application support directory.
pub const APP_SUPPORT_SUBDIR: &'static str = "Library/Application Support";
/// The session database.
pub const SQLITE_FILE: &'static str = "warp.sqlite";
/// The session database's write-ahead log.
pub const SQLITE_WAL_FILE: &'static str = "warp.sqlite-wal";
/// The session database's shared-memory file.
pub const SQLITE_SHM_FILE: &'static str = "warp.sqlite-shm";

// ---------------------------------------------------------------------------
// Paths
// ---------------------------------------------------------------------------

/// `Path::join` on Unix: an absolute `name` replaces `base`; otherwise `name`
/// is appended, with a `/` between the two unless `base` is empty or already
/// ends with one.
pub open spec fn spec_join(base: Seq<char>, name: Seq<char>) -> Seq<char> {
    if name.len() > 0 && name[0] == '/' {
        name
    } else if base.len() == 0 || base.last() == '/' {
        base + name
    } else {
        base + seq!['/'] + name
    }
}

/// `base` joined with `name` (see [`spec_join`]).
pub fn join_path(base: &str, name: &str) -> (res: String)
    ensures
        res@ == spec_join(base@, name@),
{
    let nv = chars_of(name);
    if nv.len() > 0 && nv[0] == '/' {
        return copy_str(name);
    }
    let bv = chars_of(base);
    let mut out = copy_str(base);
    if bv.len() > 0 && bv[bv.len() - 1] != '/' {
        push_char(&mut out, '/');
    }
    push_str(&mut out, name);
    out
}

/// Whether the snapshot `existing` lists the path `p`.
pub open spec fn spec_exists(existing: Seq<String>, p: Seq<char>) -> bool {
    strings_view(existing).contains(p)
}

/// Whether the snapshot lists `p`.
pub fn path_exists(existing: &Vec<String>, p: &str) -> (res: bool)
    ensures
        res == spec_exists(existing@, p@),
{
    contains_key(existing, &chars_of(p))
}

/// The directories that the import reads and writes.
#[derive(Debug, Clone)]
pub struct StableImportPaths {
    pub stable_config_dir: String,
    pub oss_config_dir: String,
    pub stable_state_dir: Option<String>,
    pub oss_state_dir: String,
    pub backup_root: String,
}

/// The view of an optional path.
pub open spec fn opt_path_view(p: Option<String>) -> Option<Seq<char>> {
    match p {
        Some(s) => Some(s@),
        None => None,
    }
}

impl StableImportPaths {
    /// The paths of a user whose home directory is `home`: the official
    /// configuration lives in `home/<warp_config_dir>`, the backups in
    /// `home/.warp-oss-import-backups`; the other directories are given.
    pub fn for_home(
        home: &str,
        warp_config_dir: &str,
        oss_config_dir: String,
        stable_state_dir: Option<String>,
        oss_state_dir: String,
    ) -> (res: Self)
        ensures
            res.stable_config_dir@ == spec_join(home@, warp_config_dir@),
            res.oss_config_dir@ == oss_config_dir@,
            opt_path_view(res.stable_state_dir) == opt_path_view(stable_state_dir),
            res.oss_state_dir@ == oss_state_dir@,
            res.backup_root@ == spec_join(home@, BACKUP_ROOT_NAME@),
    {
        StableImportPaths {
            stable_config_dir: join_path(home, warp_config_dir),
            oss_config_dir,
            stable_state_dir,
            oss_state_dir,
            backup_root: join_path(home, BACKUP_ROOT_NAME),
        }
    }

    /// All directories placed directly below `root`, the official
    /// configuration under the name `warp_config_dir`.
    pub fn under_root(root: &str, warp_config_dir: &str) -> (res: Self)
        ensures
            res.stable_config_dir@ == spec_join(root@, warp_config_dir@),
            res.oss_config_dir@ == spec_join(root@, OSS_CONFIG_DIR_NAME@),
            opt_path_view(res.stable_state_dir) == Some(
                spec_join(root@, OFFICIAL_STABLE_STATE_DIR_NAME@),
            ),
            res.oss_state_dir@ == spec_join(root@, OSS_STATE_DIR_NAME@),
            res.backup_root@ == spec_join(root@, BACKUP_ROOT_NAME@),
    {
        StableImportPaths {
            stable_config_dir: join_path(root, warp_config_dir),
            oss_config_dir: join_path(root, OSS_CONFIG_DIR_NAME),
            stable_state_dir: Some(join_path(root, OFFICIAL_STABLE_STATE_DIR_NAME)),
            oss_state_dir: join_path(root, OSS_STATE_DIR_NAME),
            backup_root: join_path(root, BACKUP_ROOT_NAME),
        }
    }

    pub open spec fn spec_marker_dir(&self) -> Seq<char> {
        spec_join(self.oss_config_dir@, MARKER_DIR_NAME@)
    }

    pub open spec fn spec_imported_marker(&self) -> Seq<char> {
        spec_join(self.spec_marker_dir(), IMPORTED_MARKER_NAME@)
    }

    pub open spec fn spec_declined_marker(&self) -> Seq<char> {
        spec_join(self.spec_marker_dir(), DECLINED_MARKER_NAME@)
    }

    /// The directory that holds the import markers.
    pub fn marker_dir(&self) -> (res: String)
        ensures
            res@ == self.spec_marker_dir(),
    {
        join_path(self.oss_config_dir.as_str(), MARKER_DIR_NAME)
    }

    /// The marker of a completed import.
    pub fn imported_marker(&self) -> (res: String)
        ensures
            res@ == self.spec_imported_marker(),
    {
        let dir = self.marker_dir();
        join_path(dir.as_str(), IMPORTED_MARKER_NAME)
    }

    /// The marker of a declined import.
    pub fn declined_marker(&self) -> (res: String)
        ensures
            res@ == self.spec_declined_marker(),
    {
        let dir = self.marker_dir();
        join_path(dir.as_str(), DECLINED_MARKER_NAME)
    }
}

// ---------------------------------------------------------------------------
// Whether to offer the import
// ---------------------------------------------------------------------------

/// Whether the official state directory is known and holds a session
/// database.
pub open spec fn spec_stable_state_has_sqlite(paths: StableImportPaths, existing: Seq<String>) -> bool {
    match paths.stable_state_dir {
        Some(dir) => spec_exists(existing, spec_join(dir@, SQLITE_FILE@)),
        None => false,
    }
}

/// The import is offered while neither marker exists and there is an
/// official configuration or session database to import.
pub open spec fn spec_should_offer_import(paths: StableImportPaths, existing: Seq<String>) -> bool {
    &&& !spec_exists(existing, paths.spec_imported_marker())
    &&& !spec_exists(existing, paths.spec_declined_marker())
    &&& (spec_exists(existing, paths.stable_config_dir@) || spec_stable_state_has_sqlite(
        paths,
        existing,
    ))
}

/// The session database files, the database first.
pub open spec fn spec_sqlite_files() -> Seq<Seq<char>> {
    seq![SQLITE_FILE@, SQLITE_WAL_FILE@, SQLITE_SHM_FILE@]
}

/// Every path whose existence the decisions of this module read.
pub open spec fn spec_probe_paths(paths: StableImportPaths) -> Seq<Seq<char>> {
    seq![
        paths.spec_imported_marker(),
        paths.spec_declined_marker(),
        paths.stable_config_dir@,
        paths.oss_config_dir@,
        paths.oss_state_dir@,
    ] + match paths.stable_state_dir {
        Some(dir) => spec_sqlite_files().map_values(|f: Seq<char>| spec_join(dir@, f)),
        None => Seq::empty(),
    }
}

impl StableImportPaths {
    /// The paths that the caller should look up on disk before asking this
    /// module for a decision.
    pub fn probe_paths(&self) -> (res: Vec<String>)
        ensures
            strings_view(res@) == spec_probe_paths(*self),
    {
        let mut out: Vec<String> = Vec::new();
        out.push(self.imported_marker());
        out.push(self.declined_marker());
        out.push(copy_str(self.stable_config_dir.as_str()));
        out.push(copy_str(self.oss_config_dir.as_str()));
        out.push(copy_str(self.oss_state_dir.as_str()));
        match &self.stable_state_dir {
            Some(dir) => {
                out.push(join_path(dir.as_str(), SQLITE_FILE));
                out.push(join_path(dir.as_str(), SQLITE_WAL_FILE));
                out.push(join_path(dir.as_str(), SQLITE_SHM_FILE));
            },
            None => {},
        }
        assert(strings_view(out@) =~= spec_probe_paths(*self));
        out
    }
}

/// Whether the official state directory holds a session database.
pub fn stable_state_has_sqlite(paths: &StableImportPaths, existing: &Vec<String>) -> (res: bool)
    ensures
        res == spec_stable_state_has_sqlite(*paths, existing@),
{
    match &paths.stable_state_dir {
        Some(dir) => {
            let db = join_path(dir.as_str(), SQLITE_FILE);
            path_exists(existing, db.as_str())
        },
        None => false,
    }
}

/// Whether to offer the import: no marker of an earlier import or refusal,
/// and something to import.
pub fn should_offer_import(paths: &StableImportPaths, existing: &Vec<String>) -> (res: bool)
    ensures
        res == spec_should_offer_import(*paths, existing@),
{
    let imported = paths.imported_marker();
    let declined = paths.declined_marker();
    if path_exists(existing, imported.as_str()) || path_exists(existing, declined.as_str()) {
        return false;
    }
    path_exists(existing, paths.stable_config_dir.as_str()) || stable_state_has_sqlite(
        paths,
        existing,
    )
}

// ---------------------------------------------------------------------------
// Where the official session database lives
// ---------------------------------------------------------------------------

/// The official state directory inside an app group container.
pub open spec fn spec_app_group_state_dir(root: Seq<char>) -> Seq<char> {
    spec_join(spec_join(root, APP_SUPPORT_SUBDIR@), OFFICIAL_STABLE_STATE_DIR_NAME@)
}

/// The official state directory: with an app group container, its state
/// directory if it holds a database, else the fallback if that holds one,
/// else the container's directory if it exists; in all other cases the
/// fallback.
pub open spec fn spec_official_stable_state_dir(
    app_group_root: Option<Seq<char>>,
    fallback: Option<Seq<char>>,
    existing: Seq<String>,
) -> Option<Seq<char>> {
    match app_group_root {
        None => fallback,
        Some(root) => {
            let app = spec_app_group_state_dir(root);
            if spec_exists(existing, spec_join(app, SQLITE_FILE@)) {
                Some(app)
            } else if fallback is Some && spec_exists(
                existing,
                spec_join(fallback->0, SQLITE_FILE@),
            ) {
                fallback
            } else if spec_exists(existing, app) {
                Some(app)
            } else {
                fallback
            }
        },
    }
}

/// The official state directory inside the app group container `root`.
pub fn app_group_state_dir(root: &str) -> (res: String)
    ensures
        res@ == spec_app_group_state_dir(root@),
{
    let support = join_path(root, APP_SUPPORT_SUBDIR);
    join_path(support.as_str(), OFFICIAL_STABLE_STATE_DIR_NAME)
}

/// Chooses the official state directory (see
/// [`spec_official_stable_state_dir`]).
pub fn official_stable_state_dir(
    app_group_root: Option<String>,
    fallback: Option<String>,
    existing: &Vec<String>,
) -> (res: Option<String>)
    ensures
        opt_path_view(res) == spec_official_stable_state_dir(
            opt_path_view(app_group_root),
            opt_path_view(fallback),
            existing@,
        ),
{
    match app_group_root {
        None => fallback,
        Some(root) => {
            let app = app_group_state_dir(root.as_str());
            let app_db = join_path(app.as_str(), SQLITE_FILE);
            if path_exists(existing, app_db.as_str()) {
                return Some(app);
            }
            let fallback_has_db = match &fallback {
                Some(dir) => {
                    let db = join_path(dir.as_str(), SQLITE_FILE);
                    path_exists(existing, db.as_str())
                },
                None => false,
            };
            if fallback_has_db {
                fallback
            } else if path_exists(existing, app.as_str()) {
                Some(app)
            } else {
                fallback
            }
        },
    }
}

// ---------------------------------------------------------------------------
// The user's answer
// ---------------------------------------------------------------------------

/// What the user chose in the import dialog.
#[derive(Clone, Copy, Debug, PartialEq, Eq, Structural)]
pub enum ImportPromptChoice {
    Import,
    Skip,
}

/// The label of the dialog button that accepts the import.
pub const IMPORT_BUTTON_LABEL: &'static str = "从 Warp 导入";

/// A dialog that failed counts as a refusal; otherwise the import is chosen
/// exactly when the returned button, trimmed, is the import button.
pub open spec fn spec_import_choice(succeeded: bool, stdout: Seq<char>) -> ImportPromptChoice {
    if succeeded && spec_trim(stdout) == IMPORT_BUTTON_LABEL@ {
        ImportPromptChoice::Import
    } else {
        ImportPromptChoice::Skip
    }
}

/// The user's choice, from whether the dialog succeeded and what it printed.
pub fn import_choice(succeeded: bool, stdout: &str) -> (res: ImportPromptChoice)
    ensures
        res == spec_import_choice(succeeded, stdout@),
{
    if !succeeded {
        return ImportPromptChoice::Skip;
    }
    let button = trim_string(stdout);
    if str_eq(button.as_str(), IMPORT_BUTTON_LABEL) {
        ImportPromptChoice::Import
    } else {
        ImportPromptChoice::Skip
    }
}

// ---------------------------------------------------------------------------
// Messages and markers
// ---------------------------------------------------------------------------

/// What an import did.
#[derive(Debug)]
pub struct ImportReport {
    pub backup_dir: String,
    pub copied_config: bool,
    pub copied_state: bool,
}

pub const IMPORTED_CONFIG_LABEL: &'static str = "配置和主题";
pub const IMPORTED_STATE_LABEL: &'static str = "标签页和会话状态";
pub const NOTHING_IMPORTED_LABEL: &'static str = "没有发现可导入的数据";
pub const IMPORTED_LABEL_SEPARATOR: &'static str = "、";
pub const IMPORT_SUCCESS_PREFIX: &'static str = "已导入：";
pub const IMPORT_SUCCESS_BACKUP: &'static str = "\n\n当前 My Warp 数据已备份到：\n";
pub const IMPORT_FAILURE_PREFIX: &'static str = "从官方 Warp 导入配置和标签页失败。\n\n错误：";
pub const IMPORT_FAILURE_SUFFIX: &'static str = "\n\nMy Warp 会继续启动，官方 Warp 数据没有被修改。";
/// The contents of the marker of a declined import.
pub const DECLINED_MARKER_CONTENTS: &'static str = "declined";

/// The list of what was imported, or a note that nothing was.
pub open spec fn spec_imported_summary(copied_config: bool, copied_state: bool) -> Seq<char> {
    if copied_config && copied_state {
        IMPORTED_CONFIG_LABEL@ + IMPORTED_LABEL_SEPARATOR@ + IMPORTED_STATE_LABEL@
    } else if copied_config {
        IMPORTED_CONFIG_LABEL@
    } else if copied_state {
        IMPORTED_STATE_LABEL@
    } else {
        NOTHING_IMPORTED_LABEL@
    }
}

pub open spec fn spec_import_success_message(report: ImportReport) -> Seq<char> {
    IMPORT_SUCCESS_PREFIX@ + spec_imported_summary(report.copied_config, report.copied_state)
        + IMPORT_SUCCESS_BACKUP@ + report.backup_dir@
}

/// The message shown after a successful import.
pub fn import_success_message(report: &ImportReport) -> (res: String)
    ensures
        res@ == spec_import_success_message(*report),
{
    let mut out = copy_str(IMPORT_SUCCESS_PREFIX);
    if report.copied_config && report.copied_state {
        push_str(&mut out, IMPORTED_CONFIG_LABEL);
        push_str(&mut out, IMPORTED_LABEL_SEPARATOR);
        push_str(&mut out, IMPORTED_STATE_LABEL);
    } else if report.copied_config {
        push_str(&mut out, IMPORTED_CONFIG_LABEL);
    } else if report.copied_state {
        push_str(&mut out, IMPORTED_STATE_LABEL);
    } else {
        push_str(&mut out, NOTHING_IMPORTED_LABEL);
    }
    push_str(&mut out, IMPORT_SUCCESS_BACKUP);
    push_str(&mut out, report.backup_dir.as_str());
    out
}

/// The message shown when the import failed with `error`.
pub fn import_failure_message(error: &str) -> (res: String)
    ensures
        res@ == IMPORT_FAILURE_PREFIX@ + error@ + IMPORT_FAILURE_SUFFIX@,
{
    let mut out = copy_str(IMPORT_FAILURE_PREFIX);
    push_str(&mut out, error);
    push_str(&mut out, IMPORT_FAILURE_SUFFIX);
    out
}

pub open spec fn spec_bool_text(b: bool) -> Seq<char> {
    if b {
        "true"@
    } else {
        "false"@
    }
}

/// The contents of the marker of a completed import.
pub open spec fn spec_imported_marker_contents(report: ImportReport) -> Seq<char> {
    "completed\nbackup_dir="@ + report.backup_dir@ + "\ncopied_config="@ + spec_bool_text(
        report.copied_config,
    ) + "\ncopied_state="@ + spec_bool_text(report.copied_state) + "\n"@
}

fn push_bool(out: &mut String, b: bool)
    ensures
        final(out)@ == old(out)@ + spec_bool_text(b),
{
    if b {
        push_str(out, "true");
    } else {
        push_str(out, "false");
    }
}

/// The text written to the marker of a completed import.
pub fn imported_marker_contents(report: &ImportReport) -> (res: String)
    ensures
        res@ == spec_imported_marker_contents(*report),
{
    let mut out = copy_str("completed\nbackup_dir=");
    push_str(&mut out, report.backup_dir.as_str());
    push_str(&mut out, "\ncopied_config=");
    push_bool(&mut out, report.copied_config);
    push_str(&mut out, "\ncopied_state=");
    push_bool(&mut out, report.copied_state);
    push_str(&mut out, "\n");
    out
}

// ---------------------------------------------------------------------------
// The import plan
// ---------------------------------------------------------------------------

/// One copy of a file or directory tree from `source` to `target`.
#[derive(Debug)]
pub struct CopyStep {
    pub source: String,
    pub target: String,
}

impl View for CopyStep {
    type V = (Seq<char>, Seq<char>);

    open spec fn view(&self) -> (Seq<char>, Seq<char>) {
        (self.source@, self.target@)
    }
}

pub open spec fn steps_view(v: Seq<CopyStep>) -> Seq<(Seq<char>, Seq<char>)> {
    v.map_values(|s: CopyStep| s@)
}

fn copy_step(source: &str, target: String) -> (res: CopyStep)
    ensures
        res@ == (source@, target@),
{
    CopyStep { source: copy_str(source), target }
}

/// The backups of My Warp's existing configuration and state directories,
/// each into its own directory below `backup_dir`; a directory that does not
/// exist is not backed up.
pub open spec fn spec_backup_steps(
    paths: StableImportPaths,
    backup_dir: Seq<char>,
    existing: Seq<String>,
) -> Seq<(Seq<char>, Seq<char>)> {
    (if spec_exists(existing, paths.oss_config_dir@) {
        seq![(paths.oss_config_dir@, spec_join(backup_dir, OSS_CONFIG_DIR_NAME@))]
    } else {
        Seq::empty()
    }) + (if spec_exists(existing, paths.oss_state_dir@) {
        seq![(paths.oss_state_dir@, spec_join(backup_dir, OSS_STATE_DIR_NAME@))]
    } else {
        Seq::empty()
    })
}

/// The copies that back up My Warp's existing data into `backup_dir`.
pub fn backup_existing_oss_data(
    paths: &StableImportPaths,
    backup_dir: &str,
    existing: &Vec<String>,
) -> (res: Vec<CopyStep>)
    ensures
        steps_view(res@) == spec_backup_steps(*paths, backup_dir@, existing@),
{
    let mut out: Vec<CopyStep> = Vec::new();
    if path_exists(existing, paths.oss_config_dir.as_str()) {
        out.push(
            copy_step(paths.oss_config_dir.as_str(), join_path(backup_dir, OSS_CONFIG_DIR_NAME)),
        );
    }
    if path_exists(existing, paths.oss_state_dir.as_str()) {
        out.push(
            copy_step(paths.oss_state_dir.as_str(), join_path(backup_dir, OSS_STATE_DIR_NAME)),
        );
    }
    assert(steps_view(out@) =~= spec_backup_steps(*paths, backup_dir@, existing@));
    out
}

/// The session database files to replace in the target directory, and the
/// copies that bring over those present in the source directory.
#[derive(Debug)]
pub struct SqliteCopy {
    pub replaced: Vec<String>,
    pub copies: Vec<CopyStep>,
}

pub open spec fn sqlite_copy_view(c: SqliteCopy) -> (Seq<Seq<char>>, Seq<(Seq<char>, Seq<char>)>) {
    (strings_view(c.replaced@), steps_view(c.copies@))
}

pub open spec fn opt_sqlite_copy_view(c: Option<SqliteCopy>) -> Option<
    (Seq<Seq<char>>, Seq<(Seq<char>, Seq<char>)>),
> {
    match c {
        Some(c) => Some(sqlite_copy_view(c)),
        None => None,
    }
}

/// The copy of the database file `name`, if the source directory holds it.
pub open spec fn spec_copy_if_present(
    source_dir: Seq<char>,
    target_dir: Seq<char>,
    name: Seq<char>,
    existing: Seq<String>,
) -> Seq<(Seq<char>, Seq<char>)> {
    if spec_exists(existing, spec_join(source_dir, name)) {
        seq![(spec_join(source_dir, name), spec_join(target_dir, name))]
    } else {
        Seq::empty()
    }
}

/// Nothing when the source directory holds no database; otherwise all three
/// database files of the target are replaced by those of the source that
/// exist.
pub open spec fn spec_sqlite_copy(
    source_dir: Seq<char>,
    target_dir: Seq<char>,
    existing: Seq<String>,
) -> Option<(Seq<Seq<char>>, Seq<(Seq<char>, Seq<char>)>)> {
    if !spec_exists(existing, spec_join(source_dir, SQLITE_FILE@)) {
        None
    } else {
        Some(
            (
                spec_sqlite_files().map_values(|f: Seq<char>| spec_join(target_dir, f)),
                spec_copy_if_present(source_dir, target_dir, SQLITE_FILE@, existing)
                    + spec_copy_if_present(source_dir, target_dir, SQLITE_WAL_FILE@, existing)
                    + spec_copy_if_present(source_dir, target_dir, SQLITE_SHM_FILE@, existing),
            ),
        )
    }
}

fn push_copy_if_present(
    out: &mut Vec<CopyStep>,
    source_dir: &str,
    target_dir: &str,
    name: &str,
    existing: &Vec<String>,
)
    ensures
        steps_view(final(out)@) == steps_view(old(out)@) + spec_copy_if_present(
            source_dir@,
            target_dir@,
            name@,
            existing@,
        ),
{
    let ghost before = steps_view(out@);
    let source = join_path(source_dir, name);
    if path_exists(existing, source.as_str()) {
        let target = join_path(target_dir, name);
        out.push(CopyStep { source, target });
    }
    assert(steps_view(out@) =~= before + spec_copy_if_present(
        source_dir@,
        target_dir@,
        name@,
        existing@,
    ));
}

/// How the session database moves from `source_dir` to `target_dir`.
pub fn copy_sqlite_state(source_dir: &str, target_dir: &str, existing: &Vec<String>) -> (res:
    Option<SqliteCopy>)
    ensures
        opt_sqlite_copy_view(res) == spec_sqlite_copy(source_dir@, target_dir@, existing@),
{
    let db = join_path(source_dir, SQLITE_FILE);
    if !path_exists(existing, db.as_str()) {
        return None;
    }
    let mut replaced: Vec<String> = Vec::new();
    replaced.push(join_path(target_dir, SQLITE_FILE));
    replaced.push(join_path(target_dir, SQLITE_WAL_FILE));
    replaced.push(join_path(target_dir, SQLITE_SHM_FILE));
    let mut copies: Vec<CopyStep> = Vec::new();
    assert(steps_view(copies@) =~= Seq::<(Seq<char>, Seq<char>)>::empty());
    push_copy_if_present(&mut copies, source_dir, target_dir, SQLITE_FILE, existing);
    push_copy_if_present(&mut copies, source_dir, target_dir, SQLITE_WAL_FILE, existing);
    push_copy_if_present(&mut copies, source_dir, target_dir, SQLITE_SHM_FILE, existing);
    assert(strings_view(replaced@) =~= spec_sqlite_files().map_values(
        |f: Seq<char>| spec_join(target_dir@, f),
    ));
    Some(SqliteCopy { replaced, copies })
}

/// Everything an import does, in order: create `backup_dir`, run the
/// backups, copy the official configuration into My Warp's when
/// `copy_config`, move the session database as `sqlite` says, and write the
/// marker of a completed import.
#[derive(Debug)]
pub struct ImportPlan {
    pub backup_dir: String,
    pub backups: Vec<CopyStep>,
    pub copy_config: bool,
    pub sqlite: Option<SqliteCopy>,
}

/// The database move of an import: none without an official state directory.
pub open spec fn spec_plan_sqlite(paths: StableImportPaths, existing: Seq<String>) -> Option<
    (Seq<Seq<char>>, Seq<(Seq<char>, Seq<char>)>),
> {
    match paths.stable_state_dir {
        Some(dir) => spec_sqlite_copy(dir@, paths.oss_state_dir@, existing),
        None => None,
    }
}

/// The plan of an import started at `timestamp`.
pub fn plan_import(paths: &StableImportPaths, timestamp: &str, existing: &Vec<String>) -> (res:
    ImportPlan)
    ensures
        res.backup_dir@ == spec_join(paths.backup_root@, timestamp@),
        steps_view(res.backups@) == spec_backup_steps(*paths, res.backup_dir@, existing@),
        res.copy_config == spec_exists(existing@, paths.stable_config_dir@),
        opt_sqlite_copy_view(res.sqlite) == spec_plan_sqlite(*paths, existing@),
{
    let backup_dir = join_path(paths.backup_root.as_str(), timestamp);
    let backups = backup_existing_oss_data(paths, backup_dir.as_str(), existing);
    let copy_config = path_exists(existing, paths.stable_config_dir.as_str());
    let sqlite = match &paths.stable_state_dir {
        Some(dir) => copy_sqlite_state(dir.as_str(), paths.oss_state_dir.as_str(), existing),
        None => None,
    };
    ImportPlan { backup_dir, backups, copy_config, sqlite }
}

impl ImportPlan {
    /// The report of the import once the plan has been carried out.
    pub fn report(&self) -> (res: ImportReport)
        ensures
            res.backup_dir@ == self.backup_dir@,
            res.copied_config == self.copy_config,
            res.copied_state == self.sqlite.is_some(),
    {
        ImportReport {
            backup_dir: copy_str(self.backup_dir.as_str()),
            copied_config: self.copy_config,
            copied_state: self.sqlite.is_some(),
        }
    }
}

/// Whether a directory entry is copied: macOS's `.DS_Store` files and `._`
/// resource forks are left behind.
pub fn should_copy_entry(name: &str) -> (res: bool)
    ensures
        res == !(name@ == ".DS_Store"@ || spec_starts_with(name@, "._"@)),
{
    !(str_eq(name, ".DS_Store") || str_starts_with(name, "._"))
}

// ---------------------------------------------------------------------------
// The flow of the first launch
// ---------------------------------------------------------------------------

/// Where the first-launch flow stands.
#[derive(Clone, Copy, Debug, PartialEq, Eq, Structural)]
pub enum ImportStage {
    /// Nothing looked at yet.
    Start,
    /// The import is to be offered; the caller checks whether the official
    /// app runs.
    CheckingOfficialApp,
    /// The user has been asked.
    Prompting,
    /// The import is running.
    Importing,
    /// The flow is over.
    Done,
}

/// What the caller observed since the last step.
#[derive(Clone, Copy, Debug, PartialEq, Eq, Structural)]
pub enum ImportEvent {
    /// `eligible`: this is a release bundle of the OSS channel and the paths
    /// are known; `offer`: what `should_offer_import` answered.
    Started { eligible: bool, offer: bool },
    /// Whether the official app is running.
    OfficialAppRunning(bool),
    /// The user's answer, or `None` when the dialog could not be shown.
    Answered(Option<ImportPromptChoice>),
    /// Whether the import (ending with its marker) succeeded.
    ImportFinished { succeeded: bool },
}

/// What the caller does next.
#[derive(Clone, Copy, Debug, PartialEq, Eq, Structural)]
pub enum ImportAction {
    /// Nothing more.
    Finish,
    /// Find out whether the official app is running.
    CheckOfficialApp,
    /// Tell the user to quit the official app; nothing is imported.
    ShowOfficialAppRunning,
    /// Ask the user whether to import.
    Prompt,
    /// Carry out the import plan.
    RunImport,
    /// Write the marker of a declined import.
    WriteDeclinedMarker,
    /// Show the success message.
    ShowSuccess,
    /// Show the failure message.
    ShowFailure,
}

/// One step of the first-launch flow. An event that the stage does not
/// expect ends the flow.
pub open spec fn spec_next_import_step(stage: ImportStage, event: ImportEvent) -> (
    ImportStage,
    ImportAction,
) {
    match (stage, event) {
        (ImportStage::Start, ImportEvent::Started { eligible, offer }) => if eligible && offer {
            (ImportStage::CheckingOfficialApp, ImportAction::CheckOfficialApp)
        } else {
            (ImportStage::Done, ImportAction::Finish)
        },
        (ImportStage::CheckingOfficialApp, ImportEvent::OfficialAppRunning(running)) => if running {
            (ImportStage::Done, ImportAction::ShowOfficialAppRunning)
        } else {
            (ImportStage::Prompting, ImportAction::Prompt)
        },
        (ImportStage::Prompting, ImportEvent::Answered(answer)) => match answer {
            Some(ImportPromptChoice::Import) => (ImportStage::Importing, ImportAction::RunImport),
            Some(ImportPromptChoice::Skip) => (ImportStage::Done, ImportAction::WriteDeclinedMarker),
            None => (ImportStage::Done, ImportAction::Finish),
        },
        (ImportStage::Importing, ImportEvent::ImportFinished { succeeded }) => if succeeded {
            (ImportStage::Done, ImportAction::ShowSuccess)
        } else {
            (ImportStage::Done, ImportAction::ShowFailure)
        },
        _ => (ImportStage::Done, ImportAction::Finish),
    }
}

/// The next stage and action of the first-launch flow.
pub fn next_import_step(stage: ImportStage, event: ImportEvent) -> (res: (ImportStage, ImportAction))
    ensures
        res == spec_next_import_step(stage, event),
{
    match (stage, event) {
        (ImportStage::Start, ImportEvent::Started { eligible, offer }) => if eligible && offer {
            (ImportStage::CheckingOfficialApp, ImportAction::CheckOfficialApp)
        } else {
            (ImportStage::Done, ImportAction::Finish)
        },
        (ImportStage::CheckingOfficialApp, ImportEvent::OfficialAppRunning(running)) => if running {
            (ImportStage::Done, ImportAction::ShowOfficialAppRunning)
        } else {
            (ImportStage::Prompting, ImportAction::Prompt)
        },
        (ImportStage::Prompting, ImportEvent::Answered(answer)) => match answer {
            Some(ImportPromptChoice::Import) => (ImportStage::Importing, ImportAction::RunImport),
            Some(ImportPromptChoice::Skip) => (ImportStage::Done, ImportAction::WriteDeclinedMarker),
            None => (ImportStage::Done, ImportAction::Finish),
        },
        (ImportStage::Importing, ImportEvent::ImportFinished { succeeded }) => if succeeded {
            (ImportStage::Done, ImportAction::ShowSuccess)
        } else {
            (ImportStage::Done, ImportAction::ShowFailure)
        },
        _ => (ImportStage::Done, ImportAction::Finish),
    }
}

/// The actions a run of the flow takes from `stage` on the events `events`.
pub open spec fn spec_import_run(stage: ImportStage, events: Seq<ImportEvent>) -> Seq<ImportAction>
    decreases events.len(),
{
    if events.len() == 0 {
        Seq::empty()
    } else {
        let (next, action) = spec_next_import_step(stage, events[0]);
        seq![action] + spec_import_run(next, events.drop_first())
    }
}

// ---------------------------------------------------------------------------
// Laws
// ---------------------------------------------------------------------------

/// Once an import has completed or been declined, it is not offered again.
pub proof fn law_marker_blocks_offer(paths: StableImportPaths, existing: Seq<String>)
    requires
        spec_exists(existing, paths.spec_imported_marker()) || spec_exists(
            existing,
            paths.spec_declined_marker(),
        ),
    ensures
        !spec_should_offer_import(paths, existing),
{
}

/// An import is offered only when its plan, on the same snapshot, copies the
/// configuration or the session database.
pub proof fn law_offered_import_copies_something(paths: StableImportPaths, existing: Seq<String>)
    requires
        spec_should_offer_import(paths, existing),
    ensures
        spec_exists(existing, paths.stable_config_dir@) || spec_plan_sqlite(paths, existing) is Some,
{
}

/// The import moves the session database exactly when the offer saw one.
pub proof fn law_plan_copies_state_iff_database(paths: StableImportPaths, existing: Seq<String>)
    ensures
        (spec_plan_sqlite(paths, existing) is Some) == spec_stable_state_has_sqlite(
            paths,
            existing,
        ),
{
}

/// A moved database always brings the database file itself, first.
pub proof fn law_database_copied_first(
    source_dir: Seq<char>,
    target_dir: Seq<char>,
    existing: Seq<String>,
)
    requires
        spec_sqlite_copy(source_dir, target_dir, existing) is Some,
    ensures
        (match spec_sqlite_copy(source_dir, target_dir, existing) {
            Some((_, copies)) => copies.len() >= 1 && copies[0] == (
                spec_join(source_dir, SQLITE_FILE@),
                spec_join(target_dir, SQLITE_FILE@),
            ),
            None => false,
        }),
{
}

// ---------------------------------------------------------------------------
// Where the import writes
// ---------------------------------------------------------------------------

/// `d` as the start of the paths below it: `d` with a trailing `/`.
pub open spec fn spec_dir_prefix(d: Seq<char>) -> Seq<char> {
    if d.len() > 0 && d.last() == '/' {
        d
    } else {
        d + seq!['/']
    }
}

/// Whether `p` is `d` or lies below it.
pub open spec fn spec_within(p: Seq<char>, d: Seq<char>) -> bool {
    p == d || spec_starts_with(p, spec_dir_prefix(d))
}

/// Neither directory lies within the other.
pub open spec fn spec_apart(a: Seq<char>, b: Seq<char>) -> bool {
    !spec_within(a, b) && !spec_within(b, a)
}

/// A path that `Path::join` appends rather than substitutes.
pub open spec fn spec_relative(n: Seq<char>) -> bool {
    n.len() == 0 || n[0] != '/'
}

/// Every path the import creates or overwrites: the backup directory, the
/// backup copies, My Warp's configuration directory when the configuration
/// is copied into it, the replaced and copied database files, and the marker
/// directory and the marker of a completed import.
pub open spec fn spec_plan_targets(
    paths: StableImportPaths,
    timestamp: Seq<char>,
    existing: Seq<String>,
) -> Seq<Seq<char>> {
    let backup_dir = spec_join(paths.backup_root@, timestamp);
    seq![backup_dir] + spec_backup_steps(paths, backup_dir, existing).map_values(
        |s: (Seq<char>, Seq<char>)| s.1,
    ) + (if spec_exists(existing, paths.stable_config_dir@) {
        seq![paths.oss_config_dir@]
    } else {
        Seq::empty()
    }) + match spec_plan_sqlite(paths, existing) {
        Some(c) => c.0 + c.1.map_values(|s: (Seq<char>, Seq<char>)| s.1),
        None => Seq::empty(),
    } + seq![paths.spec_marker_dir(), paths.spec_imported_marker()]
}

proof fn lemma_starts_with_trans(a: Seq<char>, b: Seq<char>, c: Seq<char>)
    requires
        spec_starts_with(a, b),
        spec_starts_with(b, c),
    ensures
        spec_starts_with(a, c),
{
    assert(a.take(c.len() as int) =~= b.take(c.len() as int));
}

proof fn lemma_prefixes_compare(p: Seq<char>, a: Seq<char>, b: Seq<char>)
    requires
        spec_starts_with(p, a),
        spec_starts_with(p, b),
        a.len() <= b.len(),
    ensures
        spec_starts_with(b, a),
{
    assert(b.take(a.len() as int) =~= p.take(a.len() as int));
}

/// A relative name joined to a non-empty directory lies within it.
proof fn lemma_join_within(d: Seq<char>, n: Seq<char>)
    requires
        d.len() > 0,
        spec_relative(n),
    ensures
        spec_join(d, n) == spec_dir_prefix(d) + n,
        spec_within(spec_join(d, n), d),
{
    let q = spec_dir_prefix(d) + n;
    assert(q.take(spec_dir_prefix(d).len() as int) =~= spec_dir_prefix(d));
}

/// What lies within a relative name joined to `d` lies within `d`.
proof fn lemma_within_join(p: Seq<char>, d: Seq<char>, n: Seq<char>)
    requires
        d.len() > 0,
        spec_relative(n),
        spec_within(p, spec_join(d, n)),
    ensures
        spec_within(p, d),
{
    lemma_join_within(d, n);
    let q = spec_join(d, n);
    if p != q {
        let pq = spec_dir_prefix(q);
        assert(pq.take(q.len() as int) =~= q);
        lemma_starts_with_trans(p, pq, q);
        lemma_starts_with_trans(p, q, spec_dir_prefix(d));
    }
}

/// Two directories that a path lies within lie one within the other, the
/// shorter start first.
proof fn lemma_within_both_ordered(p: Seq<char>, d: Seq<char>, s: Seq<char>)
    requires
        spec_starts_with(p, spec_dir_prefix(d)),
        spec_starts_with(p, spec_dir_prefix(s)),
        spec_dir_prefix(s).len() <= spec_dir_prefix(d).len(),
    ensures
        spec_within(d, s) || spec_within(s, d),
{
    let pd = spec_dir_prefix(d);
    let ps = spec_dir_prefix(s);
    lemma_prefixes_compare(p, ps, pd);
    if d.len() > 0 && d.last() == '/' {
    } else if ps.len() <= d.len() {
        assert(d.take(ps.len() as int) =~= pd.take(ps.len() as int));
    } else {
        assert(ps =~= pd);
        if s.len() > 0 && s.last() == '/' {
            assert(s.take(pd.len() as int) =~= pd);
        } else {
            assert(s =~= ps.take(s.len() as int));
            assert(d =~= pd.take(d.len() as int));
        }
    }
}

/// A path within two directories puts them one within the other.
proof fn lemma_within_both(p: Seq<char>, d: Seq<char>, s: Seq<char>)
    requires
        spec_within(p, d),
        spec_within(p, s),
    ensures
        spec_within(d, s) || spec_within(s, d),
{
    if p == d || p == s {
    } else if spec_dir_prefix(s).len() <= spec_dir_prefix(d).len() {
        lemma_within_both_ordered(p, d, s);
    } else {
        lemma_within_both_ordered(p, s, d);
    }
}

/// Paths within three directories that all lie apart from `sd` do not lie
/// within `sd`.
proof fn lemma_targets_apart(
    targets: Seq<Seq<char>>,
    cfg: Seq<char>,
    st: Seq<char>,
    br: Seq<char>,
    sd: Seq<char>,
)
    requires
        forall|k: int|
            0 <= k < targets.len() ==> {
                let t = #[trigger] targets[k];
                spec_within(t, cfg) || spec_within(t, st) || spec_within(t, br)
            },
    ensures
        ({
            let own = seq![cfg, st, br];
            (forall|m: int| 0 <= m < 3 ==> spec_apart(#[trigger] own[m], sd)) ==> forall|k: int|
                0 <= k < targets.len() ==> !spec_within(#[trigger] targets[k], sd)
        }),
{
    let own = seq![cfg, st, br];
    if forall|m: int| 0 <= m < 3 ==> spec_apart(#[trigger] own[m], sd) {
        assert(spec_apart(own[0], sd));
        assert(spec_apart(own[1], sd));
        assert(spec_apart(own[2], sd));
        assert forall|k: int| 0 <= k < targets.len() implies !spec_within(
            #[trigger] targets[k],
            sd,
        ) by {
            let t = targets[k];
            if spec_within(t, sd) {
                if spec_within(t, cfg) {
                    lemma_within_both(t, cfg, sd);
                } else if spec_within(t, st) {
                    lemma_within_both(t, st, sd);
                } else {
                    lemma_within_both(t, br, sd);
                }
            }
        }
    }
}

/// Every path the import writes lies within My Warp's configuration or
/// state directory or the backup root; so when the official directories lie
/// apart from those three, the import writes nothing within them.
pub proof fn law_import_writes_only_own_dirs(
    paths: StableImportPaths,
    timestamp: Seq<char>,
    existing: Seq<String>,
)
    requires
        paths.oss_config_dir@.len() > 0,
        paths.oss_state_dir@.len() > 0,
        paths.backup_root@.len() > 0,
        spec_relative(timestamp),
    ensures
        forall|k: int|
            0 <= k < spec_plan_targets(paths, timestamp, existing).len() ==> {
                let t = #[trigger] spec_plan_targets(paths, timestamp, existing)[k];
                spec_within(t, paths.oss_config_dir@) || spec_within(t, paths.oss_state_dir@)
                    || spec_within(t, paths.backup_root@)
            },
        ({
            let own = seq![paths.oss_config_dir@, paths.oss_state_dir@, paths.backup_root@];
            (forall|m: int| 0 <= m < 3 ==> spec_apart(#[trigger] own[m], paths.stable_config_dir@))
                ==> forall|k: int|
                0 <= k < spec_plan_targets(paths, timestamp, existing).len() ==> !spec_within(
                    #[trigger] spec_plan_targets(paths, timestamp, existing)[k],
                    paths.stable_config_dir@,
                )
        }),
        paths.stable_state_dir matches Some(sd) ==> ({
            let own = seq![paths.oss_config_dir@, paths.oss_state_dir@, paths.backup_root@];
            (forall|m: int| 0 <= m < 3 ==> spec_apart(#[trigger] own[m], sd@)) ==> forall|k: int|
                0 <= k < spec_plan_targets(paths, timestamp, existing).len() ==> !spec_within(
                    #[trigger] spec_plan_targets(paths, timestamp, existing)[k],
                    sd@,
                )
        }),
{
    reveal_strlit(".warp-oss");
    reveal_strlit("dev.warp.WarpOss");
    reveal_strlit(".my-warp-import");
    reveal_strlit("stable-import-v1-completed");
    reveal_strlit("warp.sqlite");
    reveal_strlit("warp.sqlite-wal");
    reveal_strlit("warp.sqlite-shm");
    let cfg = paths.oss_config_dir@;
    let st = paths.oss_state_dir@;
    let br = paths.backup_root@;
    let bd = spec_join(br, timestamp);
    let targets = spec_plan_targets(paths, timestamp, existing);
    lemma_join_within(br, timestamp);
    assert(bd.len() > 0);
    lemma_join_within(bd, OSS_CONFIG_DIR_NAME@);
    lemma_join_within(bd, OSS_STATE_DIR_NAME@);
    lemma_within_join(spec_join(bd, OSS_CONFIG_DIR_NAME@), br, timestamp);
    lemma_within_join(spec_join(bd, OSS_STATE_DIR_NAME@), br, timestamp);
    lemma_join_within(cfg, MARKER_DIR_NAME@);
    let md = paths.spec_marker_dir();
    assert(md.len() > 0);
    lemma_join_within(md, IMPORTED_MARKER_NAME@);
    lemma_within_join(paths.spec_imported_marker(), cfg, MARKER_DIR_NAME@);
    assert(spec_within(cfg, cfg));
    lemma_join_within(st, SQLITE_FILE@);
    lemma_join_within(st, SQLITE_WAL_FILE@);
    lemma_join_within(st, SQLITE_SHM_FILE@);
    let own_ok = |t: Seq<char>| spec_within(t, cfg) || spec_within(t, st) || spec_within(t, br);
    assert forall|k: int| 0 <= k < targets.len() implies own_ok(#[trigger] targets[k]) by {
        let backups = spec_backup_steps(paths, bd, existing);
        assert forall|m: int| 0 <= m < backups.len() implies spec_within(
            (#[trigger] backups[m]).1,
            br,
        ) by {
            if spec_exists(existing, cfg) && m == 0 {
                assert(backups[m].1 == spec_join(bd, OSS_CONFIG_DIR_NAME@));
            } else {
                assert(backups[m].1 == spec_join(bd, OSS_STATE_DIR_NAME@));
            }
        }
        match spec_plan_sqlite(paths, existing) {
            Some(c) => {
                assert forall|m: int| 0 <= m < c.0.len() implies spec_within(
                    #[trigger] c.0[m],
                    st,
                ) by {
                    assert(c.0[m] == spec_join(st, spec_sqlite_files()[m]));
                }
                let sd = paths.stable_state_dir->0@;
                let present = spec_copy_if_present(sd, st, SQLITE_FILE@, existing)
                    + spec_copy_if_present(sd, st, SQLITE_WAL_FILE@, existing)
                    + spec_copy_if_present(sd, st, SQLITE_SHM_FILE@, existing);
                assert(c.1 == present);
                assert forall|m: int| 0 <= m < c.1.len() implies spec_within(
                    (#[trigger] c.1[m]).1,
                    st,
                ) by {
                    let t = c.1[m].1;
                    assert(t == spec_join(st, SQLITE_FILE@) || t == spec_join(st, SQLITE_WAL_FILE@)
                        || t == spec_join(st, SQLITE_SHM_FILE@));
                }
            },
            None => {},
        }
    }
    assert forall|k: int| 0 <= k < targets.len() implies {
        let t = #[trigger] targets[k];
        spec_within(t, cfg) || spec_within(t, st) || spec_within(t, br)
    } by {
        assert(own_ok(targets[k]));
    }
    lemma_targets_apart(targets, cfg, st, br, paths.stable_config_dir@);
    match paths.stable_state_dir {
        Some(sd) => lemma_targets_apart(targets, cfg, st, br, sd@),
        None => {},
    }
}


/// Once the flow is over, nothing more happens, whatever is observed.
pub proof fn law_done_flow_stays_done(events: Seq<ImportEvent>)
    ensures
        spec_import_run(ImportStage::Done, events).len() == events.len(),
        forall|k: int|
            0 <= k < events.len() ==> #[trigger] spec_import_run(ImportStage::Done, events)[k]
                == ImportAction::Finish,
    decreases events.len(),
{
    if events.len() > 0 {
        let rest = events.drop_first();
        law_done_flow_stays_done(rest);
        let run = spec_import_run(ImportStage::Done, events);
        let tail = spec_import_run(ImportStage::Done, rest);
        assert(spec_next_import_step(ImportStage::Done, events[0]) == (
            ImportStage::Done,
            ImportAction::Finish,
        ));
        assert(run == seq![ImportAction::Finish] + tail);
        assert forall|k: int| 0 <= k < events.len() implies #[trigger] spec_import_run(
            ImportStage::Done,
            events,
        )[k] == ImportAction::Finish by {
            if k > 0 {
                assert(run[k] == tail[k - 1]);
            }
        }
    }
}

/// The user is asked only after the caller found the official app not
/// running; when it runs, the user is told to quit it and the flow ends, so
/// no prompt, import or marker follows.
pub proof fn law_no_prompt_while_official_app_runs(stage: ImportStage, event: ImportEvent)
    ensures
        spec_next_import_step(stage, event).1 == ImportAction::Prompt ==> stage
            == ImportStage::CheckingOfficialApp && event == ImportEvent::OfficialAppRunning(false),
        stage == ImportStage::CheckingOfficialApp && event == ImportEvent::OfficialAppRunning(true)
            ==> spec_next_import_step(stage, event) == (
            ImportStage::Done,
            ImportAction::ShowOfficialAppRunning,
        ),
        spec_next_import_step(stage, event).1 == ImportAction::RunImport ==> stage
            == ImportStage::Prompting && event == ImportEvent::Answered(
            Some(ImportPromptChoice::Import),
        ),
{
}

/// Declining writes the declined marker; with that marker (or the one of a
/// completed import) on disk, a later launch ends at once without asking.
pub proof fn law_prompt_happens_once(paths: StableImportPaths, existing: Seq<String>, eligible: bool)
    ensures
        spec_next_import_step(
            ImportStage::Prompting,
            ImportEvent::Answered(Some(ImportPromptChoice::Skip)),
        ) == (ImportStage::Done, ImportAction::WriteDeclinedMarker),
        spec_exists(existing, paths.spec_declined_marker()) || spec_exists(
            existing,
            paths.spec_imported_marker(),
        ) ==> spec_next_import_step(
            ImportStage::Start,
            ImportEvent::Started { eligible, offer: spec_should_offer_import(paths, existing) },
        ) == (ImportStage::Done, ImportAction::Finish),
{
}

/// The marker of a completed import is the last path the import writes, so
/// an import that stops before its end leaves no such marker.
pub proof fn law_marker_written_last(
    paths: StableImportPaths,
    timestamp: Seq<char>,
    existing: Seq<String>,
)
    ensures
        spec_plan_targets(paths, timestamp, existing).last() == paths.spec_imported_marker(),
{
}

/// Each of My Warp's directories that exists is backed up, independently of
/// the other, into its own directory below the backup directory; nothing
/// else is backed up.
pub proof fn law_existing_dirs_are_backed_up(
    paths: StableImportPaths,
    backup_dir: Seq<char>,
    existing: Seq<String>,
)
    ensures
        spec_exists(existing, paths.oss_config_dir@) ==> spec_backup_steps(
            paths,
            backup_dir,
            existing,
        ).contains((paths.oss_config_dir@, spec_join(backup_dir, OSS_CONFIG_DIR_NAME@))),
        spec_exists(existing, paths.oss_state_dir@) ==> spec_backup_steps(
            paths,
            backup_dir,
            existing,
        ).contains((paths.oss_state_dir@, spec_join(backup_dir, OSS_STATE_DIR_NAME@))),
        forall|k: int|
            0 <= k < spec_backup_steps(paths, backup_dir, existing).len() ==> {
                let step = #[trigger] spec_backup_steps(paths, backup_dir, existing)[k];
                spec_exists(existing, step.0) && (step.0 == paths.oss_config_dir@
                    || step.0 == paths.oss_state_dir@)
            },
{
    let steps = spec_backup_steps(paths, backup_dir, existing);
    let c = (paths.oss_config_dir@, spec_join(backup_dir, OSS_CONFIG_DIR_NAME@));
    let t = (paths.oss_state_dir@, spec_join(backup_dir, OSS_STATE_DIR_NAME@));
    let first: Seq<(Seq<char>, Seq<char>)> = if spec_exists(existing, paths.oss_config_dir@) {
        seq![c]
    } else {
        Seq::empty()
    };
    if spec_exists(existing, paths.oss_config_dir@) {
        assert(steps[0] == c);
    }
    if spec_exists(existing, paths.oss_state_dir@) {
        assert(steps[first.len() as int] == t);
    }
}

/// With neither marker present, the import is offered exactly when there is
/// something official to import: the configuration directory, or a session
/// database in the official state directory. Nothing else (such as My
/// Warp's own directories) matters.
pub proof fn law_offer_iff_something_to_import(paths: StableImportPaths, existing: Seq<String>)
    ensures
        spec_should_offer_import(paths, existing) <==> (!spec_exists(
            existing,
            spec_join(spec_join(paths.oss_config_dir@, MARKER_DIR_NAME@), IMPORTED_MARKER_NAME@),
        ) && !spec_exists(
            existing,
            spec_join(spec_join(paths.oss_config_dir@, MARKER_DIR_NAME@), DECLINED_MARKER_NAME@),
        ) && (spec_exists(existing, paths.stable_config_dir@) || (paths.stable_state_dir is Some
            && spec_exists(existing, spec_join(paths.stable_state_dir->0@, SQLITE_FILE@))))),
{
}

} // verus!

use warp_i18n::stable_import::{
    import_choice, import_failure_message, import_success_message, imported_marker_contents,
    join_path, next_import_step, official_stable_state_dir, plan_import, should_copy_entry, should_offer_import,
    stable_state_has_sqlite, ImportAction, ImportEvent, ImportPromptChoice, ImportReport,
    ImportStage, StableImportPaths,
};

fn strings(items: &[&str]) -> Vec<String> {
    items.iter().map(|s| s.to_string()).collect()
}

#[test]
fn paths_are_joined_like_path_join() {
    assert_eq!(join_path("/home/u", ".warp"), "/home/u/.warp");
    assert_eq!(join_path("/home/u/", ".warp"), "/home/u/.warp");
    assert_eq!(join_path("", ".warp"), ".warp");
    assert_eq!(join_path("/home/u", "/etc"), "/etc");
    assert_eq!(join_path("/b", "Library/Application Support"), "/b/Library/Application Support");
}

#[test]
fn markers_live_in_the_oss_config_dir() {
    let paths = StableImportPaths::under_root("/tmp/r", ".warp");
    assert_eq!(paths.stable_config_dir, "/tmp/r/.warp");
    assert_eq!(paths.oss_config_dir, "/tmp/r/.warp-oss");
    assert_eq!(paths.stable_state_dir.as_deref(), Some("/tmp/r/dev.warp.Warp-Stable"));
    assert_eq!(paths.oss_state_dir, "/tmp/r/dev.warp.WarpOss");
    assert_eq!(paths.backup_root, "/tmp/r/.warp-oss-import-backups");
    assert_eq!(paths.marker_dir(), "/tmp/r/.warp-oss/.my-warp-import");
    assert_eq!(
        paths.imported_marker(),
        "/tmp/r/.warp-oss/.my-warp-import/stable-import-v1-completed"
    );
    assert_eq!(
        paths.declined_marker(),
        "/tmp/r/.warp-oss/.my-warp-import/stable-import-v1-declined"
    );
    let home = StableImportPaths::for_home(
        "/home/u",
        ".warp",
        "/home/u/.warp-oss".to_string(),
        None,
        "/state".to_string(),
    );
    assert_eq!(home.stable_config_dir, "/home/u/.warp");
    assert_eq!(home.backup_root, "/home/u/.warp-oss-import-backups");
    assert_eq!(home.stable_state_dir, None);
}

#[test]
fn probe_paths_cover_every_decision() {
    let paths = StableImportPaths::under_root("/r", ".warp");
    assert_eq!(
        paths.probe_paths(),
        strings(&[
            "/r/.warp-oss/.my-warp-import/stable-import-v1-completed",
            "/r/.warp-oss/.my-warp-import/stable-import-v1-declined",
            "/r/.warp",
            "/r/.warp-oss",
            "/r/dev.warp.WarpOss",
            "/r/dev.warp.Warp-Stable/warp.sqlite",
            "/r/dev.warp.Warp-Stable/warp.sqlite-wal",
            "/r/dev.warp.Warp-Stable/warp.sqlite-shm",
        ])
    );
}

#[test]
fn offers_import_when_official_config_exists_and_no_marker_exists() {
    let paths = StableImportPaths::under_root("/r", ".warp");
    assert!(should_offer_import(&paths, &strings(&["/r/.warp"])));
}

#[test]
fn offers_import_when_only_the_database_exists() {
    let paths = StableImportPaths::under_root("/r", ".warp");
    let existing = strings(&["/r/dev.warp.Warp-Stable/warp.sqlite"]);
    assert!(stable_state_has_sqlite(&paths, &existing));
    assert!(should_offer_import(&paths, &existing));
}

#[test]
fn does_not_offer_import_after_decline_marker_exists() {
    let paths = StableImportPaths::under_root("/r", ".warp");
    let declined = strings(&["/r/.warp", "/r/.warp-oss/.my-warp-import/stable-import-v1-declined"]);
    assert!(!should_offer_import(&paths, &declined));
}

#[test]
fn no_offer_after_import_or_without_data() {
    let paths = StableImportPaths::under_root("/r", ".warp");
    let imported = strings(&["/r/.warp", "/r/.warp-oss/.my-warp-import/stable-import-v1-completed"]);
    assert!(!should_offer_import(&paths, &imported));
    assert!(!should_offer_import(&paths, &strings(&["/r/dev.warp.Warp-Stable"])));
    assert!(!stable_state_has_sqlite(&paths, &strings(&["/r/dev.warp.Warp-Stable"])));
}

#[test]
fn plan_backs_up_and_copies_config_and_database() {
    let paths = StableImportPaths::under_root("/r", ".warp");
    let existing = strings(&[
        "/r/.warp",
        "/r/dev.warp.Warp-Stable",
        "/r/dev.warp.Warp-Stable/warp.sqlite",
        "/r/dev.warp.Warp-Stable/warp.sqlite-wal",
        "/r/.warp-oss",
        "/r/dev.warp.WarpOss",
    ]);
    let plan = plan_import(&paths, "20260507-120000", &existing);
    assert_eq!(plan.backup_dir, "/r/.warp-oss-import-backups/20260507-120000");
    let backups: Vec<(String, String)> =
        plan.backups.iter().map(|s| (s.source.clone(), s.target.clone())).collect();
    assert_eq!(
        backups,
        vec![
            (
                "/r/.warp-oss".to_string(),
                "/r/.warp-oss-import-backups/20260507-120000/.warp-oss".to_string()
            ),
            (
                "/r/dev.warp.WarpOss".to_string(),
                "/r/.warp-oss-import-backups/20260507-120000/dev.warp.WarpOss".to_string()
            ),
        ]
    );
    assert!(plan.copy_config);
    let sqlite = plan.sqlite.as_ref().expect("the database is copied");
    assert_eq!(
        sqlite.replaced,
        strings(&[
            "/r/dev.warp.WarpOss/warp.sqlite",
            "/r/dev.warp.WarpOss/warp.sqlite-wal",
            "/r/dev.warp.WarpOss/warp.sqlite-shm",
        ])
    );
    let copies: Vec<(String, String)> =
        sqlite.copies.iter().map(|s| (s.source.clone(), s.target.clone())).collect();
    assert_eq!(
        copies,
        vec![
            (
                "/r/dev.warp.Warp-Stable/warp.sqlite".to_string(),
                "/r/dev.warp.WarpOss/warp.sqlite".to_string()
            ),
            (
                "/r/dev.warp.Warp-Stable/warp.sqlite-wal".to_string(),
                "/r/dev.warp.WarpOss/warp.sqlite-wal".to_string()
            ),
        ]
    );
    let mut written: Vec<String> = vec![plan.backup_dir.clone(), paths.oss_config_dir.clone()];
    written.extend(plan.backups.iter().map(|s| s.target.clone()));
    written.extend(sqlite.replaced.iter().cloned());
    written.extend(sqlite.copies.iter().map(|s| s.target.clone()));
    written.push(paths.imported_marker());
    for target in &written {
        assert!(!target.starts_with("/r/.warp/") && target != "/r/.warp");
        assert!(!target.starts_with("/r/dev.warp.Warp-Stable"));
    }
    let report = plan.report();
    assert!(report.copied_config);
    assert!(report.copied_state);
    assert_eq!(report.backup_dir, "/r/.warp-oss-import-backups/20260507-120000");
}

#[test]
fn plan_without_database_copies_config_only() {
    let paths = StableImportPaths::under_root("/r", ".warp");
    let existing = strings(&["/r/.warp", "/r/dev.warp.Warp-Stable"]);
    let plan = plan_import(&paths, "20260507-120000", &existing);
    assert!(plan.backups.is_empty());
    assert!(plan.copy_config);
    assert!(plan.sqlite.is_none());
    let report = plan.report();
    assert!(report.copied_config);
    assert!(!report.copied_state);
}

#[test]
fn dialog_answer_is_read_from_the_button() {
    assert_eq!(import_choice(true, "从 Warp 导入\n"), ImportPromptChoice::Import);
    assert_eq!(import_choice(true, "暂不导入\n"), ImportPromptChoice::Skip);
    assert_eq!(import_choice(false, "从 Warp 导入"), ImportPromptChoice::Skip);
    assert_eq!(import_choice(true, ""), ImportPromptChoice::Skip);
}

#[test]
fn success_message_lists_what_was_imported() {
    let both = ImportReport { backup_dir: "/b/1".to_string(), copied_config: true, copied_state: true };
    assert_eq!(
        import_success_message(&both),
        "已导入：配置和主题、标签页和会话状态\n\n当前 My Warp 数据已备份到：\n/b/1"
    );
    let config = ImportReport { backup_dir: "/b/2".to_string(), copied_config: true, copied_state: false };
    assert_eq!(
        import_success_message(&config),
        "已导入：配置和主题\n\n当前 My Warp 数据已备份到：\n/b/2"
    );
    let state = ImportReport { backup_dir: "/b/3".to_string(), copied_config: false, copied_state: true };
    assert_eq!(
        import_success_message(&state),
        "已导入：标签页和会话状态\n\n当前 My Warp 数据已备份到：\n/b/3"
    );
    let none = ImportReport { backup_dir: "/b/4".to_string(), copied_config: false, copied_state: false };
    assert_eq!(
        import_success_message(&none),
        "已导入：没有发现可导入的数据\n\n当前 My Warp 数据已备份到：\n/b/4"
    );
}

#[test]
fn failure_message_and_marker_contents() {
    assert_eq!(
        import_failure_message("disk full"),
        "从官方 Warp 导入配置和标签页失败。\n\n错误：disk full\n\nMy Warp 会继续启动，官方 Warp 数据没有被修改。"
    );
    let report = ImportReport { backup_dir: "/b/1".to_string(), copied_config: true, copied_state: false };
    assert_eq!(
        imported_marker_contents(&report),
        "completed\nbackup_dir=/b/1\ncopied_config=true\ncopied_state=false\n"
    );
}

#[test]
fn macos_metadata_is_not_copied() {
    assert!(!should_copy_entry(".DS_Store"));
    assert!(!should_copy_entry("._settings.toml"));
    assert!(should_copy_entry("settings.toml"));
    assert!(should_copy_entry(".hidden"));
}

#[test]
fn official_state_dir_prefers_a_directory_with_a_database() {
    let app = "/g/Library/Application Support/dev.warp.Warp-Stable";
    let app_db = "/g/Library/Application Support/dev.warp.Warp-Stable/warp.sqlite";
    let root = Some("/g".to_string());
    let fallback = Some("/f".to_string());
    assert_eq!(official_stable_state_dir(None, fallback.clone(), &strings(&[])), fallback);
    assert_eq!(official_stable_state_dir(root.clone(), fallback.clone(), &strings(&[])), fallback);
    assert_eq!(
        official_stable_state_dir(root.clone(), fallback.clone(), &strings(&[app])),
        Some(app.to_string())
    );
    assert_eq!(
        official_stable_state_dir(root.clone(), fallback.clone(), &strings(&[app, "/f/warp.sqlite"])),
        fallback
    );
    assert_eq!(
        official_stable_state_dir(root.clone(), fallback.clone(), &strings(&[app_db, "/f/warp.sqlite"])),
        Some(app.to_string())
    );
    assert_eq!(official_stable_state_dir(root, None, &strings(&[])), None);
}

fn run(events: &[ImportEvent]) -> Vec<ImportAction> {
    let mut stage = ImportStage::Start;
    let mut actions = Vec::new();
    for event in events {
        let (next, action) = next_import_step(stage, *event);
        stage = next;
        actions.push(action);
    }
    actions
}

#[test]
fn first_launch_flow_imports_after_asking() {
    assert_eq!(
        run(&[
            ImportEvent::Started { eligible: true, offer: true },
            ImportEvent::OfficialAppRunning(false),
            ImportEvent::Answered(Some(ImportPromptChoice::Import)),
            ImportEvent::ImportFinished { succeeded: true },
        ]),
        vec![
            ImportAction::CheckOfficialApp,
            ImportAction::Prompt,
            ImportAction::RunImport,
            ImportAction::ShowSuccess,
        ]
    );
    assert_eq!(
        run(&[
            ImportEvent::Started { eligible: true, offer: true },
            ImportEvent::OfficialAppRunning(false),
            ImportEvent::Answered(Some(ImportPromptChoice::Import)),
            ImportEvent::ImportFinished { succeeded: false },
        ])[3],
        ImportAction::ShowFailure
    );
}

#[test]
fn first_launch_flow_never_asks_while_official_app_runs() {
    assert_eq!(
        run(&[
            ImportEvent::Started { eligible: true, offer: true },
            ImportEvent::OfficialAppRunning(true),
            ImportEvent::Answered(Some(ImportPromptChoice::Import)),
        ]),
        vec![
            ImportAction::CheckOfficialApp,
            ImportAction::ShowOfficialAppRunning,
            ImportAction::Finish,
        ]
    );
}

#[test]
fn first_launch_flow_declines_and_stops() {
    assert_eq!(
        run(&[
            ImportEvent::Started { eligible: true, offer: true },
            ImportEvent::OfficialAppRunning(false),
            ImportEvent::Answered(Some(ImportPromptChoice::Skip)),
        ])[2],
        ImportAction::WriteDeclinedMarker
    );
    assert_eq!(
        run(&[
            ImportEvent::Started { eligible: true, offer: true },
            ImportEvent::OfficialAppRunning(false),
            ImportEvent::Answered(None),
        ])[2],
        ImportAction::Finish
    );
    assert_eq!(run(&[ImportEvent::Started { eligible: true, offer: false }]), vec![ImportAction::Finish]);
    assert_eq!(run(&[ImportEvent::Started { eligible: false, offer: true }]), vec![ImportAction::Finish]);
}

use warp_i18n::check::{is_message_key, parse_message_keys, validate_key_parity, ResourceKeysByLocale};
use warp_i18n::coverage::{
    audit_source_text, coverage_summary, is_ignored_context, is_ignored_literal,
    is_internal_identifier_literal, localized_call_site_count, message_keys, should_skip_dir,
    should_skip_file, starts_ignored_block, update_brace_depth, I18nCoverageArgs, I18nCoverageScopeArg, SourceAudit,
};
use warp_i18n::resources::resources_for_locale;
use warp_i18n::text::count_occurrences;
use warp_i18n::{
    bundled_resources, check_bundles, tr, tr_in_locale, tr_with_args, tr_with_args_in_locale,
    translate_static_in_locale, try_translate_in_locale, BundleResource, I18nCheckError,
    I18nCheckMode, I18nCheckOptions, I18nCheckReport, LanguagePreference, Locale, LocaleContext,
};

#[test]
fn locale_codes_parse_back() {
    assert_eq!(Locale::En.code(), "en");
    assert_eq!(Locale::ZhCn.code(), "zh-CN");
    for locale in [Locale::En, Locale::ZhCn] {
        assert_eq!(Locale::parse(locale.code()), Some(locale));
        assert_eq!(locale.code().parse::<Locale>(), Ok(locale));
    }
    for preference in [
        LanguagePreference::ZhCn,
        LanguagePreference::En,
        LanguagePreference::System,
    ] {
        assert_eq!(LanguagePreference::try_parse(preference.code()), Ok(preference));
    }
}

#[test]
fn locale_parse_edge_cases() {
    assert_eq!(Locale::parse("EN_us"), Some(Locale::En));
    assert_eq!(Locale::parse("  en"), None);
    assert_eq!(Locale::parse("zh"), Some(Locale::ZhCn));
    assert_eq!(Locale::parse("zh.GB2312"), Some(Locale::ZhCn));
    assert_eq!(Locale::parse("zh-TW"), None);
    assert_eq!(Locale::parse("en@euro"), Some(Locale::En));
    assert_eq!(Locale::parse(""), None);
    assert_eq!(Locale::parse("english"), None);
    assert_eq!(Locale::from_system_locale(None), Locale::En);
    assert_eq!(Locale::from_system_locale(Some("fr_FR")), Locale::En);
    assert_eq!(Locale::from_system_locale(Some("zh_CN")), Locale::ZhCn);
    assert_eq!(Locale::default(), Locale::En);
    assert_eq!(LanguagePreference::default(), LanguagePreference::System);
}

#[test]
fn parse_errors_name_the_value() {
    let error = Locale::try_parse("fr").unwrap_err();
    assert_eq!(error.message(), "unsupported locale: fr");
    let error = LanguagePreference::try_parse("auto").unwrap_err();
    assert_eq!(error.message(), "unsupported language preference: auto");
    assert_eq!(
        LanguagePreference::try_parse("zh_cn"),
        Ok(LanguagePreference::ZhCn)
    );
}

#[test]
fn explicit_preference_ignores_system_locale() {
    assert_eq!(LanguagePreference::En.resolve(Some("zh-CN")), Locale::En);
    assert_eq!(LanguagePreference::En.resolve(None), Locale::En);
    assert_eq!(LanguagePreference::ZhCn.resolve(None), Locale::ZhCn);
    assert_eq!(LanguagePreference::System.resolve(None), Locale::En);
}

#[test]
fn missing_key_shows_the_key() {
    assert_eq!(tr_in_locale(Locale::En, "missing-key"), "missing-key");
    assert_eq!(tr_in_locale(Locale::ZhCn, "missing-key"), "missing-key");
    let error = try_translate_in_locale(Locale::ZhCn, "missing-key").unwrap_err();
    assert_eq!(error.message(), "missing zh-CN translation for key `missing-key`");
    let error = try_translate_in_locale(Locale::En, "missing-key").unwrap_err();
    assert_eq!(error.message(), "missing en translation for key `missing-key`");
}

#[test]
fn translation_follows_the_context() {
    let mut ctx = LocaleContext::with_locale(Locale::ZhCn);
    assert_eq!(tr(&ctx, "common-cancel"), "取消");
    warp_i18n::set_current_locale(&mut ctx, Locale::En);
    assert_eq!(tr(&ctx, "common-cancel"), "Cancel");
    assert_eq!(translate_static_in_locale(Locale::ZhCn, "common-ok"), "确定");
}

#[test]
fn arguments_are_substituted() {
    assert_eq!(
        tr_with_args_in_locale(Locale::En, "app-welcome", &[("name", "Ada")]),
        "Welcome, Ada!"
    );
    assert_eq!(
        tr_with_args_in_locale(Locale::ZhCn, "app-welcome", &[("name", "Ada")]),
        "欢迎，Ada！"
    );
    assert_eq!(
        tr_with_args_in_locale(Locale::En, "app-welcome", &[("name", "Ada"), ("name", "Bo")]),
        "Welcome, Bo!"
    );
    let ctx = LocaleContext::with_locale(Locale::En);
    assert_eq!(tr_with_args(&ctx, "app-welcome", &[("name", "Ada")]), "Welcome, Ada!");
    assert_eq!(tr_with_args(&ctx, "missing-key", &[("name", "Ada")]), "missing-key");
}

#[test]
fn missing_argument_falls_back_to_the_key() {
    assert_eq!(tr_with_args_in_locale(Locale::En, "app-welcome", &[]), "app-welcome");
}

#[test]
fn bundled_resources_are_listed_by_locale() {
    let all = bundled_resources();
    assert_eq!(all.len(), 4);
    let en = resources_for_locale(Locale::En);
    let zh = resources_for_locale(Locale::ZhCn);
    assert_eq!(en.len(), 2);
    assert_eq!(zh.len(), 2);
    assert!(en.iter().all(|r| r.locale == Locale::En));
    assert_eq!(en[0].path, zh[0].path);
}

#[test]
fn check_in_normal_mode_passes() {
    let report = check_bundles(I18nCheckOptions::default()).unwrap();
    assert_eq!(report.locale_count, 2);
    assert_eq!(report.resource_count, 4);
    assert_eq!(report.message_count, 28);
    assert_eq!(
        report.summary(),
        "i18n check passed: 2 locales, 4 resources, 28 messages"
    );
    let report = I18nCheckReport { locale_count: 10, resource_count: 0, message_count: 1234 };
    assert_eq!(
        report.summary(),
        "i18n check passed: 10 locales, 0 resources, 1234 messages"
    );
}

#[test]
fn message_keys_come_out_sorted() {
    let resource = BundleResource {
        locale: Locale::En,
        path: "a.ftl",
        source: "# comment\nzeta = Z\nalpha = A\n  indented = no\nbeta-two = B\n.attr = x\n",
    };
    let keys = parse_message_keys(&resource).unwrap();
    assert_eq!(keys, vec!["alpha".to_string(), "beta-two".to_string(), "zeta".to_string()]);
}

#[test]
fn duplicate_key_is_rejected() {
    let resource = BundleResource {
        locale: Locale::ZhCn,
        path: "b.ftl",
        source: "one = 1\ntwo = 2\none = 3\n",
    };
    let error = parse_message_keys(&resource).unwrap_err();
    assert!(matches!(error, I18nCheckError::DuplicateKey { line: 3, .. }));
    assert_eq!(error.message(), "duplicate key `one` in zh-CN resource `b.ftl` at line 3");
}

#[test]
fn resource_without_messages_is_rejected() {
    let resource = BundleResource { locale: Locale::En, path: "c.ftl", source: "# only\n\n" };
    let error = parse_message_keys(&resource).unwrap_err();
    assert!(matches!(error, I18nCheckError::NoMessages { .. }));
    assert_eq!(error.message(), "no messages found in en resource `c.ftl`");
}

#[test]
fn message_key_shape() {
    assert!(is_message_key("settings-title"));
    assert!(is_message_key("_x1"));
    assert!(!is_message_key("1abc"));
    assert!(!is_message_key(""));
    assert!(!is_message_key("a b"));
}

fn keys(names: &[&str]) -> Vec<String> {
    names.iter().map(|n| n.to_string()).collect()
}

#[test]
fn key_parity_reports_each_kind_of_difference() {
    let same = ResourceKeysByLocale {
        en: Some(vec![("a.ftl", keys(&["k1", "k2"]))]),
        zh_cn: Some(vec![("a.ftl", keys(&["k1", "k2"]))]),
    };
    assert!(validate_key_parity(&same).is_ok());

    let no_zh = ResourceKeysByLocale { en: Some(vec![("a.ftl", keys(&["k1"]))]), zh_cn: None };
    let error = validate_key_parity(&no_zh).unwrap_err();
    assert_eq!(error.message(), "missing locale bundle `zh-CN`");

    let no_en = ResourceKeysByLocale { en: None, zh_cn: Some(vec![("a.ftl", keys(&["k1"]))]) };
    let error = validate_key_parity(&no_en).unwrap_err();
    assert_eq!(error.message(), "missing locale bundle `en`");

    let paths = ResourceKeysByLocale {
        en: Some(vec![("a.ftl", keys(&["k1"])), ("b.ftl", keys(&["k2"]))]),
        zh_cn: Some(vec![("a.ftl", keys(&["k1"])), ("c.ftl", keys(&["k2"]))]),
    };
    let error = validate_key_parity(&paths).unwrap_err();
    assert_eq!(
        error.message(),
        "resource path parity failed for `zh-CN`: missing [\"b.ftl\"], extra [\"c.ftl\"]"
    );

    let key_diff = ResourceKeysByLocale {
        en: Some(vec![("a.ftl", keys(&["k1", "k2"]))]),
        zh_cn: Some(vec![("a.ftl", keys(&["k1", "k3"]))]),
    };
    let error = validate_key_parity(&key_diff).unwrap_err();
    assert_eq!(
        error.message(),
        "key parity failed for `zh-CN` resource `a.ftl`: missing [\"k2\"], extra [\"k3\"]"
    );
}

#[test]
fn coverage_scope_paths() {
    assert_eq!(I18nCoverageScopeArg::SettingsView.scan_root(), "app/src/settings_view");
    assert_eq!(I18nCoverageScopeArg::App.scan_root(), "app/src");
    assert_eq!(I18nCoverageScopeArg::SettingsView.label(), "settings-view");
    assert_eq!(I18nCoverageScopeArg::App.label(), "app");
    let args = I18nCoverageArgs::default();
    assert_eq!(args.scope, I18nCoverageScopeArg::SettingsView);
    assert_eq!(args.max_examples, 40);
}

#[test]
fn skipped_directories_and_files() {
    assert!(should_skip_dir("tests"));
    assert!(should_skip_dir("target"));
    assert!(!should_skip_dir("settings_view"));
    assert!(should_skip_file("view_test.rs"));
    assert!(should_skip_file("view_tests.rs"));
    assert!(should_skip_file("mod_test.rs"));
    assert!(!should_skip_file("view.rs"));
}

#[test]
fn ignored_blocks_contexts_and_literals() {
    assert!(starts_ignored_block("pub mod flags {"));
    assert!(starts_ignored_block("impl From<&Foo> for LoginGatedFeature {"));
    assert!(!starts_ignored_block("impl From<&Foo> for Bar {"));
    assert!(is_ignored_context("    // Text::new(\"Label\")"));
    assert!(is_ignored_context("log::info!(\"Started\")"));
    assert!(!is_ignored_context("Text::new(\"Label\")"));
    assert!(is_ignored_literal("https://warp.dev"));
    assert!(is_ignored_literal("{name}"));
    assert!(is_ignored_literal("Tab"));
    assert!(is_ignored_literal("Failed to load"));
    assert!(is_ignored_literal("snake_case_name"));
    assert!(!is_ignored_literal("Open settings"));
    assert!(is_internal_identifier_literal("CopyOnSelectEnabled"));
    assert!(is_internal_identifier_literal("with_underscore"));
    assert!(!is_internal_identifier_literal("Plain"));
}

#[test]
fn call_sites_are_counted() {
    assert_eq!(
        localized_call_site_count("warp_i18n::tr(\"a\") + warp_i18n::tr_with_args(\"b\", &[])"),
        2
    );
    assert_eq!(localized_call_site_count("x.localized_label_in_locale(l)"), 1);
    assert_eq!(localized_call_site_count("nothing here"), 0);
}

#[test]
fn message_keys_counted_by_the_audit() {
    let keys = message_keys("b-key = B\na-key = A\nBad = no\n  c = indented\n# c = comment\n");
    assert_eq!(keys, vec!["a-key".to_string(), "b-key".to_string()]);
}

#[test]
fn audit_of_a_source_text() {
    let source = [
        "fn render() {",
        "    Text::new(\"Save changes\");",
        "    warp_i18n::tr(\"common-save\");",
        "}",
        "fn search_terms() -> &str {",
        "    \"Hidden Label\"",
        "}",
        "pub mod flags {",
        "    pub const X: &str = \"Flag Label\";",
        "}",
        "let y = \"Visible Text\";",
    ]
    .join("\n");
    let mut audit = SourceAudit::default();
    audit_source_text("app/src/view.rs", &source, &mut audit);
    assert_eq!(audit.localized_call_sites, 1);
    let found: Vec<(String, usize, String)> = audit
        .bare_string_candidates
        .iter()
        .map(|c| (c.path.clone(), c.line_number, c.literal.clone()))
        .collect();
    assert_eq!(
        found,
        vec![
            ("app/src/view.rs".to_string(), 2, "Save changes".to_string()),
            ("app/src/view.rs".to_string(), 11, "Visible Text".to_string()),
        ]
    );
    let summary = coverage_summary(&audit, 1);
    assert_eq!(summary.localized_call_sites, 1);
    assert_eq!(summary.candidate_count, 2);
    assert_eq!(summary.denominator, 3);
    assert_eq!(summary.shown_examples, 1);
    assert_eq!(coverage_summary(&audit, 40).shown_examples, 2);
}

#[test]
fn check_hard_mode_report_matches_normal_mode() {
    let hard = check_bundles(I18nCheckOptions { check_parity: false, mode: I18nCheckMode::Hard })
        .unwrap();
    let normal = check_bundles(I18nCheckOptions { check_parity: true, mode: I18nCheckMode::Normal })
        .unwrap();
    assert_eq!(hard, normal);
}

#[test]
fn occurrences_do_not_overlap() {
    assert_eq!(count_occurrences("aaaa", "aa"), 2);
    assert_eq!(count_occurrences("aaa", "aa"), 1);
    assert_eq!(count_occurrences("ab", ""), 3);
    assert_eq!(count_occurrences("abc", "x"), 0);
}

#[test]
fn brace_depth_saturates_and_is_monotone() {
    assert_eq!(update_brace_depth("}}", 1), 0);
    assert_eq!(update_brace_depth("}{", 0), 1);
    assert_eq!(update_brace_depth("}{", 2), 2);
    for line in ["}}", "{ }", "} x {", "\"}\" }"] {
        for d in 0..4usize {
            let a = update_brace_depth(line, d);
            let b = update_brace_depth(line, d + 1);
            assert!(a <= b && b <= a + 1);
        }
    }
}

#[test]
fn appended_text_keeps_a_line_ignored() {
    for line in ["  // note", "log::info!(x)", "* item"] {
        assert!(is_ignored_context(line));
        assert!(is_ignored_context(&format!("{line} Text::new(\"Label\")")));
    }
}

#[test]
fn every_option_gives_the_same_report() {
    let strict = check_bundles(I18nCheckOptions { check_parity: true, mode: I18nCheckMode::Hard })
        .unwrap();
    for check_parity in [false, true] {
        for mode in [I18nCheckMode::Normal, I18nCheckMode::Hard] {
            assert_eq!(check_bundles(I18nCheckOptions { check_parity, mode }).unwrap(), strict);
        }
    }
}

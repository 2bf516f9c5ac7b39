use warp_i18n::coverage::{
    is_candidate_ui_string, line_contains_code_char, message_counts_by_locale,
    string_literals_in_line, update_brace_depth,
};
use warp_i18n::Locale;

#[test]
fn extracts_string_literals_without_line_comments() {
    assert_eq!(
        string_literals_in_line(r#"Text::new("Visible label") // "comment""#),
        vec!["Visible label".to_string()]
    );
    assert_eq!(
        string_literals_in_line(r#"let s = "escaped \" quote";"#),
        vec!["escaped \" quote".to_string()]
    );
}

#[test]
fn filters_non_ui_literals() {
    assert!(!is_candidate_ui_string(
        r#"warp_i18n::tr("settings-account-log-out")"#,
        "settings-account-log-out"
    ));
    assert!(!is_candidate_ui_string(
        r#"ctx.open_url("https://docs.warp.dev")"#,
        "https://docs.warp.dev"
    ));
    assert!(is_candidate_ui_string(
        r#"Text::new("Check for updates")"#,
        "Check for updates"
    ));
    assert!(!is_candidate_ui_string(
        r#"pub const COPY_ON_SELECT_CONTEXT_FLAG: &str = "Copy_On_Select";"#,
        "Copy_On_Select"
    ));
    assert!(!is_candidate_ui_string(
        r#"FixedBinding::empty("ShowConversationHistory", action, context)"#,
        "ShowConversationHistory"
    ));
    assert!(!is_candidate_ui_string(
        r#"action: "ToggleCopyOnSelect".to_string(),"#,
        "ToggleCopyOnSelect"
    ));
    assert!(!is_candidate_ui_string(
        r#"value: format!("{mode:?}"),"#,
        "{mode:?}"
    ));
    assert!(!is_candidate_ui_string(
        r#"debug!("Refreshing GitHub auth URL")"#,
        "Refreshing GitHub auth URL"
    ));
}

#[test]
fn tracks_brace_depth_outside_strings_and_comments() {
    assert_eq!(update_brace_depth(r#"fn f() { let s = "{"; }"#, 0), 0);
    assert_eq!(update_brace_depth(r#"if ok { // }"#, 0), 1);
    assert!(line_contains_code_char(r#"fn f() { let s = "x";"#, '{'));
    assert!(!line_contains_code_char(r#"let s = "{";"#, '{'));
}

#[test]
fn counts_locale_messages() {
    let counts = message_counts_by_locale();
    assert!(counts.get(Locale::En).unwrap_or_default() > 0);
    assert_eq!(counts.get(Locale::En), counts.get(Locale::ZhCn));
}

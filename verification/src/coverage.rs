//! A heuristic audit of Rust sources for UI strings that are not localised:
//! it counts calls into the localisation API and lists string literals that
//! look like user-facing text.

use vstd::prelude::*;
use crate::check::{contains_key, insert_sorted, line_key_text, spec_insert_sorted, spec_line_key_text};
use crate::fluent::strings_view;
use crate::locale::Locale;
use crate::resources::{bundled_resources, lemma_bundled_sources_short, resources_view, spec_bundled_resources, ResourceView};
use crate::text::{
    chars_eq, chars_of, contains_any, contains_char, contains_chars, ends_with_chars, equals_any,
    is_ascii_alphabetic, is_ascii_alphanumeric, is_ascii_digit, is_ascii_lowercase,
    is_ascii_uppercase, spec_contains, spec_contains_any, spec_contains_char, spec_ends_with,
    spec_is_ascii_alphabetic, spec_is_ascii_alphanumeric, spec_is_ascii_digit,
    spec_is_ascii_lowercase, spec_is_ascii_uppercase, spec_starts_with, spec_starts_with_any,
    spec_trim, spec_trim_start, spec_utf8_len, starts_with_any, starts_with_chars, strs_view,
    trim_bounds, utf8_len_within,
};

verus! {

// ---------------------------------------------------------------------------
// Scope
// ---------------------------------------------------------------------------

/// Which sources the audit scans.
#[derive(Clone, Copy, Debug, PartialEq, Eq, Structural)]
pub enum I18nCoverageScopeArg {
    /// `app/src/settings_view`.
    SettingsView,
    /// All of `app/src`, without tests and integration helpers.
    App,
}

impl I18nCoverageScopeArg {
    /// The directory scanned, relative to the workspace root.
    pub fn scan_root(self) -> (res: &'static str)
        ensures
            res@ == match self {
                I18nCoverageScopeArg::SettingsView => "app/src/settings_view"@,
                I18nCoverageScopeArg::App => "app/src"@,
            },
    {
        match self {
            I18nCoverageScopeArg::SettingsView => "app/src/settings_view",
            I18nCoverageScopeArg::App => "app/src",
        }
    }

    /// The scope's name in the report.
    pub fn label(self) -> (res: &'static str)
        ensures
            res@ == match self {
                I18nCoverageScopeArg::SettingsView => "settings-view"@,
                I18nCoverageScopeArg::App => "app"@,
            },
    {
        match self {
            I18nCoverageScopeArg::SettingsView => "settings-view",
            I18nCoverageScopeArg::App => "app",
        }
    }
}

/// The audit's options: the scope, and how many candidate strings to show.
#[derive(Clone, Copy, Debug, PartialEq, Eq, Structural)]
pub struct I18nCoverageArgs {
    pub scope: I18nCoverageScopeArg,
    pub max_examples: usize,
}

impl Default for I18nCoverageArgs {
    fn default() -> (res: Self)
        ensures
            res.scope == I18nCoverageScopeArg::SettingsView,
            res.max_examples == 40,
    {
        I18nCoverageArgs { scope: I18nCoverageScopeArg::SettingsView, max_examples: 40 }
    }
}

// ---------------------------------------------------------------------------
// Which files are scanned
// ---------------------------------------------------------------------------

pub open spec fn spec_should_skip_dir(name: Seq<char>) -> bool {
    name == "integration_testing"@ || name == "tests"@ || name == "test_util"@ || name
        == "target"@
}

/// Directories the audit does not descend into.
pub fn should_skip_dir(name: &str) -> (res: bool)
    ensures
        res == spec_should_skip_dir(name@),
{
    let v = chars_of(name);
    chars_eq(&v, &chars_of("integration_testing")) || chars_eq(&v, &chars_of("tests")) || chars_eq(
        &v,
        &chars_of("test_util"),
    ) || chars_eq(&v, &chars_of("target"))
}

pub open spec fn spec_should_skip_file(name: Seq<char>) -> bool {
    spec_ends_with(name, "_test.rs"@) || spec_ends_with(name, "_tests.rs"@) || name
        == "mod_test.rs"@
}

/// Test files the audit leaves out.
pub fn should_skip_file(name: &str) -> (res: bool)
    ensures
        res == spec_should_skip_file(name@),
{
    let v = chars_of(name);
    ends_with_chars(&v, &chars_of("_test.rs")) || ends_with_chars(&v, &chars_of("_tests.rs"))
        || chars_eq(&v, &chars_of("mod_test.rs"))
}

// ---------------------------------------------------------------------------
// Code that is not UI
// ---------------------------------------------------------------------------

pub open spec fn spec_ignored_block_starts() -> Seq<Seq<char>> {
    seq![
        "pub mod flags"@,
        "impl Display for SettingsSection"@,
        "impl FromStr for SettingsSection"@,
        "pub fn init_actions_from_parent_view"@,
        "fn telemetry_event("@,
        "impl TelemetryEventDesc for"@,
    ]
}

fn ignored_block_starts() -> (res: Vec<&'static str>)
    ensures
        strs_view(res@) == spec_ignored_block_starts(),
{
    let v = vec![
        "pub mod flags",
        "impl Display for SettingsSection",
        "impl FromStr for SettingsSection",
        "pub fn init_actions_from_parent_view",
        "fn telemetry_event(",
        "impl TelemetryEventDesc for",
    ];
    assert(strs_view(v@) =~= spec_ignored_block_starts());
    v
}

/// A trimmed line that opens a block (flags, telemetry, `Display`/`FromStr`
/// of sections, ...) whose strings are not UI text.
pub open spec fn spec_starts_ignored_block(t: Seq<char>) -> bool {
    ||| spec_starts_with_any(t, spec_ignored_block_starts())
    ||| spec_starts_with(t, "impl From<&"@) && spec_contains(t, "LoginGatedFeature"@)
    ||| spec_starts_with(t, "impl TryFrom<&"@) && spec_contains(t, "TelemetryEvent"@)
}

/// Whether a trimmed line opens a block whose strings are not UI text.
pub fn starts_ignored_block(trimmed: &str) -> (res: bool)
    ensures
        res == spec_starts_ignored_block(trimmed@),
{
    let v = chars_of(trimmed);
    starts_with_any(&v, &ignored_block_starts()) || (starts_with_chars(&v, &chars_of("impl From<&"))
        && contains_chars(&v, &chars_of("LoginGatedFeature"))) || (starts_with_chars(
        &v,
        &chars_of("impl TryFrom<&"),
    ) && contains_chars(&v, &chars_of("TelemetryEvent")))
}

pub open spec fn spec_ignored_contexts() -> Seq<Seq<char>> {
    seq![
        "warp_i18n::"@,
        "log::"@,
        "tracing::"@,
        "debug!("@,
        "info!("@,
        "warn!("@,
        "error!("@,
        "panic!("@,
        "assert"@,
        "debug_assert"@,
        ".expect("@,
        "expect("@,
        "id!("@,
        "FeatureFlag::"@,
        "ContextFlag::"@,
        "TelemetryEvent::"@,
        "ToggleSettingActionPair::"@,
        "SettingActionPairDescriptions::"@,
        "SettingActionPairContexts::"@,
        "FixedBinding::"@,
        "LoginGatedFeature"@,
        "ui_name()"@,
        "storage_key:"@,
        "toml_path:"@,
        "description:"@,
        "onboarding_name:"@,
        "PageType::new_"@,
        "parse::<SettingsSection>"@,
        "ctx.open_url"@,
        "OpenUrl("@,
        "url_source"@,
        "action:"@,
        "value:"@,
    ]
}

fn ignored_contexts() -> (res: Vec<&'static str>)
    ensures
        strs_view(res@) == spec_ignored_contexts(),
{
    let v = vec![
        "warp_i18n::",
        "log::",
        "tracing::",
        "debug!(",
        "info!(",
        "warn!(",
        "error!(",
        "panic!(",
        "assert",
        "debug_assert",
        ".expect(",
        "expect(",
        "id!(",
        "FeatureFlag::",
        "ContextFlag::",
        "TelemetryEvent::",
        "ToggleSettingActionPair::",
        "SettingActionPairDescriptions::",
        "SettingActionPairContexts::",
        "FixedBinding::",
        "LoginGatedFeature",
        "ui_name()",
        "storage_key:",
        "toml_path:",
        "description:",
        "onboarding_name:",
        "PageType::new_",
        "parse::<SettingsSection>",
        "ctx.open_url",
        "OpenUrl(",
        "url_source",
        "action:",
        "value:",
    ];
    assert(strs_view(v@) =~= spec_ignored_contexts());
    v
}

pub open spec fn spec_comment_starts() -> Seq<Seq<char>> {
    seq!["//"@, "///"@, "//!"@, "*"@]
}

/// A line whose strings are not UI text: a comment, or one that logs,
/// asserts, names flags, bindings, telemetry, URLs or settings metadata.
pub open spec fn spec_is_ignored_context(line: Seq<char>) -> bool {
    spec_starts_with_any(spec_trim_start(line), spec_comment_starts()) || spec_contains_any(
        line,
        spec_ignored_contexts(),
    )
}

/// Text after a line that starts with something other than whitespace does
/// not change how much whitespace it starts with.
proof fn lemma_leading_ws_append(line: Seq<char>, suffix: Seq<char>)
    requires
        crate::text::spec_leading_ws(line) < line.len(),
    ensures
        crate::text::spec_leading_ws(line + suffix) == crate::text::spec_leading_ws(line),
    decreases line.len(),
{
    if line.len() > 0 && crate::text::spec_is_whitespace(line[0]) {
        assert((line + suffix).drop_first() =~= line.drop_first() + suffix);
        lemma_leading_ws_append(line.drop_first(), suffix);
    } else {
        assert((line + suffix)[0] == line[0]);
    }
}

/// Appending text never makes an ignored line count again; a comment line
/// is always ignored.
pub proof fn law_ignored_context_survives_append(line: Seq<char>, suffix: Seq<char>)
    ensures
        spec_is_ignored_context(line) ==> spec_is_ignored_context(line + suffix),
        spec_starts_with(spec_trim_start(line), "//"@) || spec_starts_with(
            spec_trim_start(line),
            "*"@,
        ) ==> spec_is_ignored_context(line),
{
    let l2 = line + suffix;
    assert(spec_comment_starts()[0] == "//"@);
    assert(spec_comment_starts()[3] == "*"@);
    if spec_contains_any(line, spec_ignored_contexts()) {
        let i = choose|i: int|
            0 <= i < spec_ignored_contexts().len() && spec_contains(
                line,
                #[trigger] spec_ignored_contexts()[i],
            );
        let p = spec_ignored_contexts()[i];
        let k = choose|k: int| crate::text::spec_occurs_at(line, p, k);
        assert(l2.subrange(k, k + p.len()) =~= line.subrange(k, k + p.len()));
        assert(crate::text::spec_occurs_at(l2, p, k));
        assert(spec_contains(l2, p));
    }
    if spec_starts_with_any(spec_trim_start(line), spec_comment_starts()) {
        let i = choose|i: int|
            0 <= i < spec_comment_starts().len() && spec_starts_with(
                spec_trim_start(line),
                #[trigger] spec_comment_starts()[i],
            );
        let p = spec_comment_starts()[i];
        crate::text::lemma_leading_ws_bound(line);
        if crate::text::spec_leading_ws(line) < line.len() {
            lemma_leading_ws_append(line, suffix);
            assert(spec_trim_start(l2) =~= spec_trim_start(line) + suffix);
            assert(spec_trim_start(l2).take(p.len() as int) =~= spec_trim_start(line).take(
                p.len() as int,
            ));
        } else {
            assert(p.len() == 0);
            assert(spec_trim_start(l2).take(0) =~= p);
        }
        assert(spec_starts_with(spec_trim_start(l2), spec_comment_starts()[i]));
    }
}

/// Whether the strings of a line are not UI text.
pub fn is_ignored_context(line: &str) -> (res: bool)
    ensures
        res == spec_is_ignored_context(line@),
{
    let v = chars_of(line);
    let a = crate::text::skip_ws_forward(&v, 0, v.len());
    proof {
        assert(v@.subrange(0, v@.len() as int) =~= v@);
        crate::text::lemma_leading_ws_bound(v@);
    }
    let t = crate::text::string_of_range(&v, a, v.len());
    let tv = chars_of(t.as_str());
    assert(tv@ =~= spec_trim_start(v@));
    let comments = vec!["//", "///", "//!", "*"];
    assert(strs_view(comments@) =~= spec_comment_starts());
    starts_with_any(&tv, &comments) || contains_any(&v, &ignored_contexts())
}

// ---------------------------------------------------------------------------
// Literals that are not UI text
// ---------------------------------------------------------------------------

pub open spec fn spec_is_identifier_char(c: char) -> bool {
    spec_is_ascii_alphanumeric(c) || c == '_' || c == '-' || c == '.' || c == ':'
}

/// A literal that looks like an internal identifier (`snake_case`, flags,
/// `...Enabled`/`...Open`/`...View` names).
pub open spec fn spec_is_internal_identifier_literal(l: Seq<char>) -> bool {
    &&& !spec_contains_char(l, ' ')
    &&& forall|i: int| 0 <= i < l.len() ==> spec_is_identifier_char(#[trigger] l[i])
    &&& spec_contains_char(l, '_') || spec_contains(l, "Flag."@) || spec_ends_with(l, "Enabled"@)
        || spec_ends_with(l, "Open"@) || spec_ends_with(l, "View"@)
}

fn all_identifier_chars(v: &Vec<char>) -> (res: bool)
    ensures
        res == forall|i: int| 0 <= i < v@.len() ==> spec_is_identifier_char(#[trigger] v@[i]),
{
    let mut i: usize = 0;
    while i < v.len()
        invariant
            i <= v@.len(),
            forall|k: int| 0 <= k < i ==> spec_is_identifier_char(#[trigger] v@[k]),
        decreases v@.len() - i,
    {
        let c = v[i];
        if !(is_ascii_alphanumeric(c) || c == '_' || c == '-' || c == '.' || c == ':') {
            return false;
        }
        i = i + 1;
    }
    true
}

fn is_internal_identifier_literal_chars(v: &Vec<char>) -> (res: bool)
    ensures
        res == spec_is_internal_identifier_literal(v@),
{
    !contains_char(v, ' ') && all_identifier_chars(v) && (contains_char(v, '_') || contains_chars(
        v,
        &chars_of("Flag."),
    ) || ends_with_chars(v, &chars_of("Enabled")) || ends_with_chars(v, &chars_of("Open"))
        || ends_with_chars(v, &chars_of("View")))
}

/// Whether a literal looks like an internal identifier.
pub fn is_internal_identifier_literal(literal: &str) -> (res: bool)
    ensures
        res == spec_is_internal_identifier_literal(literal@),
{
    is_internal_identifier_literal_chars(&chars_of(literal))
}

pub open spec fn spec_ignored_literal_parts() -> Seq<Seq<char>> {
    seq!["://"@, ".svg"@, ".png"@, ".toml"@, "::"@, "${"@, "\\n"@, "{}"@]
}

pub open spec fn spec_ignored_literal_prefixes() -> Seq<Seq<char>> {
    seq!["mailto:"@, "bundled/"@, "/"@, "."@, "%"@, "#"@, "["@]
}

pub open spec fn spec_ignored_message_prefixes() -> Seq<Seq<char>> {
    seq![
        "settings-"@,
        "command-palette-"@,
        "workspace:"@,
        "app:"@,
        "input:"@,
        "pane_group:"@,
        "Could not find current "@,
        "Failed to "@,
        "Could not "@,
        "Successfully updated "@,
        "Unable to "@,
        "Ignoring "@,
        "Unrecognized "@,
        "Received an unexpected "@,
        "This server is not an installation "@,
        "Install server update is only supported "@,
    ]
}

pub open spec fn spec_ignored_exact_literals() -> Seq<Seq<char>> {
    seq![
        "ESC"@,
        "JSON"@,
        "Gallery Id: None"@,
        "Gallery Id: {uuid}"@,
        "File-Based MCP Id: {uuid}"@,
        "Gallery MCP Id: {uuid}"@,
        "Templatable MCP Id: {template_uuid}"@,
        "Templatable MCP Installation Id: {uuid}"@,
        "Could not find cloud template"@,
        "Accept Autosuggestion"@,
        "Open Completions Menu"@,
        "Tab"@,
        "Left Option key is Meta"@,
        "Right Option key is Meta"@,
        "Left Alt key is Meta"@,
        "Right Alt key is Meta"@,
    ]
}

pub open spec fn spec_is_key_like_char(c: char) -> bool {
    spec_is_ascii_lowercase(c) || spec_is_ascii_digit(c) || c == '_' || c == '-'
}

/// A literal that is not UI text: URLs, file names, paths, format strings,
/// identifiers, i18n keys, action names, log or error messages, key names.
pub open spec fn spec_is_ignored_literal(l: Seq<char>) -> bool {
    ||| spec_contains_any(l, spec_ignored_literal_parts())
    ||| spec_starts_with_any(l, spec_ignored_literal_prefixes())
    ||| spec_starts_with(l, "{"@) && spec_ends_with(l, "}"@)
    ||| spec_is_internal_identifier_literal(l)
    ||| spec_starts_with_any(l, spec_ignored_message_prefixes())
    ||| spec_ignored_exact_literals().contains(l)
    ||| !spec_contains_char(l, ' ') && forall|i: int|
        0 <= i < l.len() ==> spec_is_key_like_char(#[trigger] l[i])
}

fn all_key_like_chars(v: &Vec<char>) -> (res: bool)
    ensures
        res == forall|i: int| 0 <= i < v@.len() ==> spec_is_key_like_char(#[trigger] v@[i]),
{
    let mut i: usize = 0;
    while i < v.len()
        invariant
            i <= v@.len(),
            forall|k: int| 0 <= k < i ==> spec_is_key_like_char(#[trigger] v@[k]),
        decreases v@.len() - i,
    {
        let c = v[i];
        if !(is_ascii_lowercase(c) || is_ascii_digit(c) || c == '_' || c == '-') {
            return false;
        }
        i = i + 1;
    }
    true
}

fn is_ignored_literal_chars(v: &Vec<char>) -> (res: bool)
    ensures
        res == spec_is_ignored_literal(v@),
{
    let parts = vec!["://", ".svg", ".png", ".toml", "::", "${", "\\n", "{}"];
    assert(strs_view(parts@) =~= spec_ignored_literal_parts());
    let prefixes = vec!["mailto:", "bundled/", "/", ".", "%", "#", "["];
    assert(strs_view(prefixes@) =~= spec_ignored_literal_prefixes());
    if contains_any(v, &parts) || starts_with_any(v, &prefixes) || (starts_with_chars(
        v,
        &chars_of("{"),
    ) && ends_with_chars(v, &chars_of("}"))) || is_internal_identifier_literal_chars(v) {
        return true;
    }
    let messages = vec![
        "settings-",
        "command-palette-",
        "workspace:",
        "app:",
        "input:",
        "pane_group:",
        "Could not find current ",
        "Failed to ",
        "Could not ",
        "Successfully updated ",
        "Unable to ",
        "Ignoring ",
        "Unrecognized ",
        "Received an unexpected ",
        "This server is not an installation ",
        "Install server update is only supported ",
    ];
    assert(strs_view(messages@) =~= spec_ignored_message_prefixes());
    if starts_with_any(v, &messages) {
        return true;
    }
    let exact = vec![
        "ESC",
        "JSON",
        "Gallery Id: None",
        "Gallery Id: {uuid}",
        "File-Based MCP Id: {uuid}",
        "Gallery MCP Id: {uuid}",
        "Templatable MCP Id: {template_uuid}",
        "Templatable MCP Installation Id: {uuid}",
        "Could not find cloud template",
        "Accept Autosuggestion",
        "Open Completions Menu",
        "Tab",
        "Left Option key is Meta",
        "Right Option key is Meta",
        "Left Alt key is Meta",
        "Right Alt key is Meta",
    ];
    assert(strs_view(exact@) =~= spec_ignored_exact_literals());
    if equals_any(v, &exact) {
        return true;
    }
    !contains_char(v, ' ') && all_key_like_chars(v)
}

/// Whether a literal is not UI text.
pub fn is_ignored_literal(literal: &str) -> (res: bool)
    ensures
        res == spec_is_ignored_literal(literal@),
{
    is_ignored_literal_chars(&chars_of(literal))
}

// ---------------------------------------------------------------------------
// Candidates
// ---------------------------------------------------------------------------

/// A literal on a line that looks like UI text that is not localised: once
/// trimmed it is 2 to 180 bytes long, has an ASCII letter, is not on an
/// ignored line nor an ignored kind of literal, and starts with a capital
/// or holds a space, `...`, `&`, `>` or `:`.
pub open spec fn spec_is_candidate_ui_string(line: Seq<char>, literal: Seq<char>) -> bool {
    let l = spec_trim(literal);
    &&& 2 <= spec_utf8_len(l) <= 180
    &&& exists|i: int| 0 <= i < l.len() && spec_is_ascii_alphabetic(#[trigger] l[i])
    &&& !spec_is_ignored_context(line)
    &&& !spec_is_ignored_literal(l)
    &&& (l.len() > 0 && spec_is_ascii_uppercase(l[0])) || spec_contains_char(l, ' ')
        || spec_contains(l, "..."@) || spec_contains_char(l, '&') || spec_contains_char(l, '>')
        || spec_contains_char(l, ':')
}

fn any_ascii_alphabetic(v: &Vec<char>) -> (res: bool)
    ensures
        res == exists|i: int| 0 <= i < v@.len() && spec_is_ascii_alphabetic(#[trigger] v@[i]),
{
    let mut i: usize = 0;
    while i < v.len()
        invariant
            i <= v@.len(),
            forall|k: int| 0 <= k < i ==> !spec_is_ascii_alphabetic(#[trigger] v@[k]),
        decreases v@.len() - i,
    {
        if is_ascii_alphabetic(v[i]) {
            return true;
        }
        i = i + 1;
    }
    false
}

/// Whether a literal on a line looks like UI text that is not localised.
pub fn is_candidate_ui_string(line: &str, literal: &str) -> (res: bool)
    ensures
        res == spec_is_candidate_ui_string(line@, literal@),
{
    let raw = chars_of(literal);
    let (a, b) = trim_bounds(&raw, 0, raw.len());
    proof {
        assert(raw@.subrange(0, raw@.len() as int) =~= raw@);
    }
    if !utf8_len_within(&raw, a, b, 2, 180) {
        return false;
    }
    let l = chars_of(crate::text::string_of_range(&raw, a, b).as_str());
    if !any_ascii_alphabetic(&l) {
        return false;
    }
    if is_ignored_context(line) || is_ignored_literal_chars(&l) {
        return false;
    }
    let starts_like_label = l.len() > 0 && is_ascii_uppercase(l[0]);
    let has_label_separator = contains_char(&l, ' ') || contains_chars(&l, &chars_of("..."))
        || contains_char(&l, '&') || contains_char(&l, '>') || contains_char(&l, ':');
    starts_like_label || has_label_separator
}

/// A literal that passes the length, letter and ignore filters is a
/// candidate as soon as its trimmed text starts with an ASCII capital, and
/// as soon as it holds any one of a space, `...`, `&`, `>` or `:`; each of
/// these alone suffices.
pub proof fn law_label_like_literal_is_candidate(line: Seq<char>, literal: Seq<char>)
    requires
        2 <= spec_utf8_len(spec_trim(literal)) <= 180,
        !spec_is_ignored_context(line),
        !spec_is_ignored_literal(spec_trim(literal)),
    ensures
        spec_trim(literal).len() > 0 && spec_is_ascii_uppercase(spec_trim(literal)[0])
            ==> spec_is_candidate_ui_string(line, literal),
        (exists|i: int|
            0 <= i < spec_trim(literal).len() && spec_is_ascii_alphabetic(
                #[trigger] spec_trim(literal)[i],
            )) ==> ({
            let l = spec_trim(literal);
            &&& spec_contains_char(l, ' ') ==> spec_is_candidate_ui_string(line, literal)
            &&& spec_contains(l, "..."@) ==> spec_is_candidate_ui_string(line, literal)
            &&& spec_contains_char(l, '&') ==> spec_is_candidate_ui_string(line, literal)
            &&& spec_contains_char(l, '>') ==> spec_is_candidate_ui_string(line, literal)
            &&& spec_contains_char(l, ':') ==> spec_is_candidate_ui_string(line, literal)
        }),
{
    let l = spec_trim(literal);
    if l.len() > 0 && spec_is_ascii_uppercase(l[0]) {
        assert(spec_is_ascii_alphabetic(l[0]));
    }
}

/// A candidate is never a URL or an i18n key, and never comes from a
/// comment or from a line that calls the localisation API, logs, asserts or
/// names a key binding.
pub proof fn law_candidates_exclude_non_ui_strings(line: Seq<char>, literal: Seq<char>)
    requires
        spec_is_candidate_ui_string(line, literal),
    ensures
        !spec_contains(spec_trim(literal), "://"@),
        !spec_starts_with(spec_trim(literal), "settings-"@),
        !spec_starts_with(spec_trim_start(line), "//"@),
        !spec_contains(line, "warp_i18n::"@),
        !spec_contains(line, "log::"@),
        !spec_contains(line, "debug!("@),
        !spec_contains(line, "assert"@),
        !spec_contains(line, "FixedBinding::"@),
{
    let l = spec_trim(literal);
    assert(spec_ignored_literal_parts()[0] == "://"@);
    assert(spec_ignored_message_prefixes()[0] == "settings-"@);
    assert(spec_comment_starts()[0] == "//"@);
    let c = spec_ignored_contexts();
    assert(c[0] == "warp_i18n::"@);
    assert(c[1] == "log::"@);
    assert(c[3] == "debug!("@);
    assert(c[8] == "assert"@);
    assert(c[19] == "FixedBinding::"@);
}

// ---------------------------------------------------------------------------
// Scanning a line of code
// ---------------------------------------------------------------------------

/// `s[i]` and `s[i + 1]` start a line comment.
pub open spec fn spec_comment_at(s: Seq<char>, i: int) -> bool {
    s[i] == '/' && i + 1 < s.len() && s[i + 1] == '/'
}

/// The brace depth after scanning `s[i..]` from `depth`, inside a string or
/// not, after a backslash in a string or not: braces in strings and after a
/// `//` comment do not count, and the depth does not go below zero.
pub open spec fn spec_brace_scan(s: Seq<char>, i: int, depth: int, in_string: bool, escaped: bool) -> int
    decreases s.len() - i,
{
    if i < 0 || i >= s.len() {
        depth
    } else {
        let ch = s[i];
        if !in_string && spec_comment_at(s, i) {
            depth
        } else if escaped {
            spec_brace_scan(s, i + 1, depth, in_string, false)
        } else if ch == '\\' && in_string {
            spec_brace_scan(s, i + 1, depth, in_string, true)
        } else if ch == '"' {
            spec_brace_scan(s, i + 1, depth, !in_string, false)
        } else if ch == '{' && !in_string {
            spec_brace_scan(s, i + 1, depth + 1, in_string, false)
        } else if ch == '}' && !in_string {
            spec_brace_scan(
                s,
                i + 1,
                if depth > 0 {
                    depth - 1
                } else {
                    0
                },
                in_string,
                false,
            )
        } else {
            spec_brace_scan(s, i + 1, depth, in_string, false)
        }
    }
}

/// The brace depth after a line, starting from `depth`.
pub open spec fn spec_update_brace_depth(line: Seq<char>, depth: int) -> int {
    spec_brace_scan(line, 0, depth, false, false)
}

proof fn lemma_brace_scan_bound(s: Seq<char>, i: int, depth: int, in_string: bool, escaped: bool)
    requires
        0 <= i <= s.len(),
        0 <= depth,
    ensures
        0 <= spec_brace_scan(s, i, depth, in_string, escaped) <= depth + (s.len() - i),
    decreases s.len() - i,
{
    if i < s.len() {
        let ch = s[i];
        if !in_string && spec_comment_at(s, i) {
        } else if escaped {
            lemma_brace_scan_bound(s, i + 1, depth, in_string, false);
        } else if ch == '\\' && in_string {
            lemma_brace_scan_bound(s, i + 1, depth, in_string, true);
        } else if ch == '"' {
            lemma_brace_scan_bound(s, i + 1, depth, !in_string, false);
        } else if ch == '{' && !in_string {
            lemma_brace_scan_bound(s, i + 1, depth + 1, in_string, false);
        } else if ch == '}' && !in_string {
            lemma_brace_scan_bound(
                s,
                i + 1,
                if depth > 0 {
                    depth - 1
                } else {
                    0
                },
                in_string,
                false,
            );
        } else {
            lemma_brace_scan_bound(s, i + 1, depth, in_string, false);
        }
    }
}

proof fn lemma_brace_scan_monotone(
    s: Seq<char>,
    i: int,
    d1: int,
    d2: int,
    in_string: bool,
    escaped: bool,
)
    requires
        0 <= d1 <= d2,
    ensures
        spec_brace_scan(s, i, d1, in_string, escaped) <= spec_brace_scan(s, i, d2, in_string, escaped),
        spec_brace_scan(s, i, d2, in_string, escaped) <= spec_brace_scan(s, i, d1, in_string, escaped)
            + (d2 - d1),
    decreases s.len() - i,
{
    if 0 <= i < s.len() {
        let ch = s[i];
        if !in_string && spec_comment_at(s, i) {
        } else if escaped {
            lemma_brace_scan_monotone(s, i + 1, d1, d2, in_string, false);
        } else if ch == '\\' && in_string {
            lemma_brace_scan_monotone(s, i + 1, d1, d2, in_string, true);
        } else if ch == '"' {
            lemma_brace_scan_monotone(s, i + 1, d1, d2, !in_string, false);
        } else if ch == '{' && !in_string {
            lemma_brace_scan_monotone(s, i + 1, d1 + 1, d2 + 1, in_string, false);
        } else if ch == '}' && !in_string {
            let e1 = if d1 > 0 {
                d1 - 1
            } else {
                0
            };
            let e2 = if d2 > 0 {
                d2 - 1
            } else {
                0
            };
            lemma_brace_scan_monotone(s, i + 1, e1, e2, in_string, false);
        } else {
            lemma_brace_scan_monotone(s, i + 1, d1, d2, in_string, false);
        }
    }
}

/// Starting deeper never ends shallower, and ends at most as much deeper as
/// it started.
pub proof fn law_brace_depth_monotone(line: Seq<char>, d1: int, d2: int)
    requires
        0 <= d1 <= d2,
    ensures
        spec_update_brace_depth(line, d1) <= spec_update_brace_depth(line, d2),
        spec_update_brace_depth(line, d2) <= spec_update_brace_depth(line, d1) + (d2 - d1),
{
    lemma_brace_scan_monotone(line, 0, d1, d2, false, false);
}

/// The brace depth after `line`: braces outside strings and line comments
/// open and close blocks; the depth does not go below zero.
pub fn update_brace_depth(line: &str, depth: usize) -> (res: usize)
    requires
        depth + line@.len() <= usize::MAX,
    ensures
        res == spec_update_brace_depth(line@, depth as int),
{
    let v = chars_of(line);
    let mut d = depth;
    let mut in_string = false;
    let mut escaped = false;
    let mut i: usize = 0;
    while i < v.len()
        invariant
            v@ == line@,
            i <= v@.len(),
            depth + v@.len() <= usize::MAX,
            d <= depth + i,
            spec_update_brace_depth(line@, depth as int) == spec_brace_scan(
                v@,
                i as int,
                d as int,
                in_string,
                escaped,
            ),
        decreases v@.len() - i,
    {
        let ch = v[i];
        if !in_string && ch == '/' && i + 1 < v.len() && v[i + 1] == '/' {
            return d;
        }
        if escaped {
            escaped = false;
        } else if ch == '\\' && in_string {
            escaped = true;
        } else if ch == '"' {
            in_string = !in_string;
        } else if ch == '{' && !in_string {
            d = d + 1;
        } else if ch == '}' && !in_string {
            d = if d > 0 {
                d - 1
            } else {
                0
            };
        }
        i = i + 1;
    }
    d
}

/// Whether `target` occurs in `s[i..]` as code: outside strings and before
/// a line comment.
pub open spec fn spec_code_char_scan(s: Seq<char>, target: char, i: int, in_string: bool, escaped: bool) -> bool
    decreases s.len() - i,
{
    if i < 0 || i >= s.len() {
        false
    } else {
        let ch = s[i];
        if !in_string && spec_comment_at(s, i) {
            false
        } else if escaped {
            spec_code_char_scan(s, target, i + 1, in_string, false)
        } else if ch == '\\' && in_string {
            spec_code_char_scan(s, target, i + 1, in_string, true)
        } else if ch == '"' {
            spec_code_char_scan(s, target, i + 1, !in_string, false)
        } else if !in_string && ch == target {
            true
        } else {
            spec_code_char_scan(s, target, i + 1, in_string, false)
        }
    }
}

/// Whether `target` occurs on the line outside strings and comments.
pub fn line_contains_code_char(line: &str, target: char) -> (res: bool)
    ensures
        res == spec_code_char_scan(line@, target, 0, false, false),
{
    let v = chars_of(line);
    let mut in_string = false;
    let mut escaped = false;
    let mut i: usize = 0;
    while i < v.len()
        invariant
            v@ == line@,
            i <= v@.len(),
            spec_code_char_scan(line@, target, 0, false, false) == spec_code_char_scan(
                v@,
                target,
                i as int,
                in_string,
                escaped,
            ),
        decreases v@.len() - i,
    {
        let ch = v[i];
        if !in_string && ch == '/' && i + 1 < v.len() && v[i + 1] == '/' {
            return false;
        }
        if escaped {
            escaped = false;
        } else if ch == '\\' && in_string {
            escaped = true;
        } else if ch == '"' {
            in_string = !in_string;
        } else if !in_string && ch == target {
            return true;
        }
        i = i + 1;
    }
    false
}

/// Reading a string literal's body from `s[j..]`, with `lit` read so far:
/// the literal (escapes resolved to the escaped character) and the index
/// after its closing quote, or `None` if the line ends first.
pub open spec fn spec_scan_literal(s: Seq<char>, j: int, lit: Seq<char>, escaped: bool) -> Option<
    (Seq<char>, int),
>
    decreases s.len() - j,
{
    if j < 0 || j >= s.len() {
        None
    } else {
        let ch = s[j];
        if escaped {
            spec_scan_literal(s, j + 1, lit.push(ch), false)
        } else if ch == '\\' {
            spec_scan_literal(s, j + 1, lit, true)
        } else if ch == '"' {
            Some((lit, j + 1))
        } else {
            spec_scan_literal(s, j + 1, lit.push(ch), false)
        }
    }
}

pub proof fn lemma_scan_literal_progress(s: Seq<char>, j: int, lit: Seq<char>, escaped: bool)
    ensures
        spec_scan_literal(s, j, lit, escaped) matches Some((_, k)) ==> j < k <= s.len(),
    decreases s.len() - j,
{
    if 0 <= j < s.len() {
        let ch = s[j];
        if escaped {
            lemma_scan_literal_progress(s, j + 1, lit.push(ch), false);
        } else if ch == '\\' {
            lemma_scan_literal_progress(s, j + 1, lit, true);
        } else if ch == '"' {
        } else {
            lemma_scan_literal_progress(s, j + 1, lit.push(ch), false);
        }
    }
}

/// The string literals on a line from index `i`, up to a line comment that
/// starts outside a literal; an unterminated literal is dropped.
pub open spec fn spec_literals_from(s: Seq<char>, i: int) -> Seq<Seq<char>>
    decreases s.len() - i,
{
    if i < 0 || i >= s.len() {
        Seq::empty()
    } else if spec_comment_at(s, i) {
        Seq::empty()
    } else if s[i] != '"' {
        spec_literals_from(s, i + 1)
    } else {
        match spec_scan_literal(s, i + 1, Seq::empty(), false) {
            None => Seq::empty(),
            Some((lit, k)) => {
                proof {
                    lemma_scan_literal_progress(s, i + 1, Seq::empty(), false);
                }
                seq![lit] + spec_literals_from(s, k)
            },
        }
    }
}

/// The string literals on a line, in order.
pub fn string_literals_in_line(line: &str) -> (res: Vec<String>)
    ensures
        res@.len() == spec_literals_from(line@, 0).len(),
        forall|k: int| 0 <= k < res@.len() ==> #[trigger] res@[k]@ == spec_literals_from(line@, 0)[k],
{
    let v = chars_of(line);
    let mut literals: Vec<String> = Vec::new();
    let ghost done: Seq<Seq<char>> = Seq::empty();
    let mut i: usize = 0;
    while i < v.len()
        invariant
            v@ == line@,
            i <= v@.len(),
            literals@.len() == done.len(),
            forall|k: int| 0 <= k < literals@.len() ==> #[trigger] literals@[k]@ == done[k],
            spec_literals_from(line@, 0) == done + spec_literals_from(v@, i as int),
        ensures
            literals@.len() == done.len(),
            forall|k: int| 0 <= k < literals@.len() ==> #[trigger] literals@[k]@ == done[k],
            spec_literals_from(line@, 0) == done,
        decreases v@.len() - i,
    {
        let ch = v[i];
        if ch == '/' && i + 1 < v.len() && v[i + 1] == '/' {
            assert(spec_literals_from(v@, i as int) =~= Seq::<Seq<char>>::empty());
            assert(done + spec_literals_from(v@, i as int) =~= done);
            break;
        }
        if ch != '"' {
            assert(i + 1 < v@.len() ==> !(spec_comment_at(v@, i as int)));
            i = i + 1;
        } else {
            let mut literal = String::new();
            let mut escaped = false;
            let mut j = i + 1;
            let mut closed = false;
            while j < v.len()
                invariant_except_break
                    !closed,
                invariant
                    v@ == line@,
                    i < j <= v@.len(),
                    spec_scan_literal(v@, i + 1, Seq::empty(), false) == spec_scan_literal(
                        v@,
                        j as int,
                        literal@,
                        escaped,
                    ),
                ensures
                    i < j <= v@.len(),
                    spec_scan_literal(v@, i + 1, Seq::empty(), false) == spec_scan_literal(
                        v@,
                        j as int,
                        literal@,
                        escaped,
                    ),
                    closed ==> j < v@.len() && v@[j as int] == '"' && !escaped,
                    !closed ==> j >= v@.len(),
                decreases v@.len() - j,
            {
                let c = v[j];
                if escaped {
                    crate::text::push_char(&mut literal, c);
                    escaped = false;
                } else if c == '\\' {
                    escaped = true;
                } else if c == '"' {
                    closed = true;
                    break;
                } else {
                    crate::text::push_char(&mut literal, c);
                }
                j = j + 1;
            }
            if closed {
                proof {
                    assert(spec_scan_literal(v@, i + 1, Seq::empty(), false) == Some(
                        (literal@, j + 1),
                    ));
                    assert(spec_literals_from(v@, i as int) == seq![literal@] + spec_literals_from(
                        v@,
                        j + 1,
                    ));
                    done = done.push(literal@);
                    assert(done.drop_last() + (seq![literal@] + spec_literals_from(v@, j + 1))
                        =~= done + spec_literals_from(v@, j + 1));
                }
                literals.push(literal);
                i = j + 1;
            } else {
                proof {
                    assert(spec_scan_literal(v@, j as int, literal@, escaped) is None);
                    assert(done + spec_literals_from(v@, i as int) =~= done);
                }
                break;
            }
        }
    }
    literals
}

// ---------------------------------------------------------------------------
// Calls into the localisation API
// ---------------------------------------------------------------------------

pub open spec fn spec_localized_call_patterns() -> Seq<Seq<char>> {
    seq![
        "warp_i18n::tr("@,
        "warp_i18n::tr_with_args("@,
        "warp_i18n::t!("@,
        ".localized_label("@,
        ".localized_label_in_locale("@,
    ]
}

/// The number of calls into the localisation API on a line.
pub open spec fn spec_localized_call_site_count(line: Seq<char>) -> nat {
    let p = spec_localized_call_patterns();
    crate::text::spec_count_occurrences(line, p[0]) + crate::text::spec_count_occurrences(line, p[1])
        + crate::text::spec_count_occurrences(line, p[2]) + crate::text::spec_count_occurrences(
        line,
        p[3],
    ) + crate::text::spec_count_occurrences(line, p[4])
}

/// A line holds no more calls than characters.
pub proof fn lemma_localized_call_site_count_bound(line: Seq<char>)
    ensures
        spec_localized_call_site_count(line) <= line.len(),
{
    reveal_strlit("warp_i18n::tr(");
    reveal_strlit("warp_i18n::tr_with_args(");
    reveal_strlit("warp_i18n::t!(");
    reveal_strlit(".localized_label(");
    reveal_strlit(".localized_label_in_locale(");
    crate::text::lemma_count_from_scaled(line, "warp_i18n::tr("@, 0);
    crate::text::lemma_count_from_scaled(line, "warp_i18n::tr_with_args("@, 0);
    crate::text::lemma_count_from_scaled(line, "warp_i18n::t!("@, 0);
    crate::text::lemma_count_from_scaled(line, ".localized_label("@, 0);
    crate::text::lemma_count_from_scaled(line, ".localized_label_in_locale("@, 0);
    let l = line.len() as int;
    let c0 = crate::text::spec_count_from(line, "warp_i18n::tr("@, 0) as int;
    let c1 = crate::text::spec_count_from(line, "warp_i18n::tr_with_args("@, 0) as int;
    let c2 = crate::text::spec_count_from(line, "warp_i18n::t!("@, 0) as int;
    let c3 = crate::text::spec_count_from(line, ".localized_label("@, 0) as int;
    let c4 = crate::text::spec_count_from(line, ".localized_label_in_locale("@, 0) as int;
    assert(c0 + c1 + c2 + c3 + c4 <= l) by (nonlinear_arith)
        requires
            c0 * ("warp_i18n::tr("@.len() as int) <= l,
            c1 * ("warp_i18n::tr_with_args("@.len() as int) <= l,
            c2 * ("warp_i18n::t!("@.len() as int) <= l,
            c3 * (".localized_label("@.len() as int) <= l,
            c4 * (".localized_label_in_locale("@.len() as int) <= l,
            "warp_i18n::tr("@.len() >= 14,
            "warp_i18n::tr_with_args("@.len() >= 14,
            "warp_i18n::t!("@.len() >= 14,
            ".localized_label("@.len() >= 14,
            ".localized_label_in_locale("@.len() >= 14,
            c0 >= 0,
            c1 >= 0,
            c2 >= 0,
            c3 >= 0,
            c4 >= 0,
    ;
}

/// Counts the calls into the localisation API on a line.
pub fn localized_call_site_count(line: &str) -> (res: usize)
    ensures
        res == spec_localized_call_site_count(line@),
        res <= line@.len(),
{
    let v = chars_of(line);
    let p0 = chars_of("warp_i18n::tr(");
    let p1 = chars_of("warp_i18n::tr_with_args(");
    let p2 = chars_of("warp_i18n::t!(");
    let p3 = chars_of(".localized_label(");
    let p4 = chars_of(".localized_label_in_locale(");
    proof {
        lemma_localized_call_site_count_bound(line@);
    }
    let c0 = crate::text::count_occurrences_chars(&v, &p0);
    let c1 = crate::text::count_occurrences_chars(&v, &p1);
    let c2 = crate::text::count_occurrences_chars(&v, &p2);
    let c3 = crate::text::count_occurrences_chars(&v, &p3);
    let c4 = crate::text::count_occurrences_chars(&v, &p4);
    let n = v.len();
    assert(v@.len() == n);
    c0 + c1 + c2 + c3 + c4
}

// ---------------------------------------------------------------------------
// Messages per locale
// ---------------------------------------------------------------------------

/// A key as the audit counts it: lower-case ASCII letters, digits and `-`.
pub open spec fn spec_is_counted_key(k: Seq<char>) -> bool {
    k.len() > 0 && forall|i: int|
        0 <= i < k.len() ==> spec_is_ascii_lowercase(#[trigger] k[i]) || spec_is_ascii_digit(k[i])
            || k[i] == '-'
}

fn is_counted_key(v: &Vec<char>) -> (res: bool)
    ensures
        res == spec_is_counted_key(v@),
{
    if v.len() == 0 {
        return false;
    }
    let mut i: usize = 0;
    while i < v.len()
        invariant
            i <= v@.len(),
            forall|k: int|
                0 <= k < i ==> spec_is_ascii_lowercase(#[trigger] v@[k]) || spec_is_ascii_digit(
                    v@[k],
                ) || v@[k] == '-',
        decreases v@.len() - i,
    {
        let c = v[i];
        if !(is_ascii_lowercase(c) || is_ascii_digit(c) || c == '-') {
            return false;
        }
        i = i + 1;
    }
    true
}

/// Collecting the counted keys of `lines[i..]` into the sorted set `acc`.
pub open spec fn spec_collect_counted_keys(lines: Seq<Seq<char>>, i: int, acc: Seq<Seq<char>>) -> Seq<
    Seq<char>,
>
    decreases lines.len() - i,
{
    if i < 0 || i >= lines.len() {
        acc
    } else {
        match spec_line_key_text(lines[i]) {
            Some(k) => if spec_is_counted_key(k) && !acc.contains(k) {
                spec_collect_counted_keys(lines, i + 1, spec_insert_sorted(acc, k))
            } else {
                spec_collect_counted_keys(lines, i + 1, acc)
            },
            None => spec_collect_counted_keys(lines, i + 1, acc),
        }
    }
}

/// The distinct keys a resource text declares, sorted.
pub open spec fn spec_message_keys(source: Seq<char>) -> Seq<Seq<char>> {
    spec_collect_counted_keys(crate::text::spec_lines(source), 0, Seq::empty())
}

/// The distinct keys a resource text declares, sorted.
pub fn message_keys(source: &str) -> (res: Vec<String>)
    ensures
        strings_view(res@) == spec_message_keys(source@),
        res@.len() <= source@.len(),
{
    let lines = crate::text::lines_of(source);
    let ghost ls = crate::text::spec_lines(source@);
    proof {
        crate::text::lemma_lines_len(source@);
    }
    let mut keys: Vec<String> = Vec::new();
    let mut i: usize = 0;
    assert(strings_view(keys@) =~= Seq::<Seq<char>>::empty());
    while i < lines.len()
        invariant
            i <= lines@.len(),
            lines@.len() == ls.len(),
            ls == crate::text::spec_lines(source@),
            ls.len() <= source@.len(),
            forall|m: int| 0 <= m < lines@.len() ==> #[trigger] lines@[m]@ == ls[m],
            keys@.len() <= i,
            spec_collect_counted_keys(ls, 0, Seq::empty()) == spec_collect_counted_keys(
                ls,
                i as int,
                strings_view(keys@),
            ),
        decreases lines@.len() - i,
    {
        assert(lines@[i as int]@ == ls[i as int]);
        match line_key_text(lines[i].as_str()) {
            None => {},
            Some(key) => {
                let kv = chars_of(key.as_str());
                if is_counted_key(&kv) && !contains_key(&keys, &kv) {
                    insert_sorted(&mut keys, key);
                }
            },
        }
        i = i + 1;
    }
    keys
}

/// The number of messages of each locale.
#[derive(Clone, Copy, Debug, PartialEq, Eq, Structural)]
pub struct MessageCounts {
    pub en: Option<usize>,
    pub zh_cn: Option<usize>,
}

impl MessageCounts {
    /// The number of messages of a locale, if it has resources.
    pub fn get(&self, locale: Locale) -> (res: Option<usize>)
        ensures
            res == match locale {
                Locale::En => self.en,
                Locale::ZhCn => self.zh_cn,
            },
    {
        match locale {
            Locale::En => self.en,
            Locale::ZhCn => self.zh_cn,
        }
    }
}

pub open spec fn spec_add_count(slot: Option<int>, n: int) -> Option<int> {
    match slot {
        Some(c) => Some(c + n),
        None => Some(n),
    }
}

/// Summing the keys of the resources `rs` by locale.
pub open spec fn spec_message_counts(rs: Seq<ResourceView>) -> (Option<int>, Option<int>)
    decreases rs.len(),
{
    if rs.len() == 0 {
        (None, None)
    } else {
        let prev = spec_message_counts(rs.drop_last());
        let r = rs.last();
        let n = spec_message_keys(r.2).len() as int;
        if r.0 == Locale::En {
            (spec_add_count(prev.0, n), prev.1)
        } else {
            (prev.0, spec_add_count(prev.1, n))
        }
    }
}

pub open spec fn opt_usize_view(o: Option<usize>) -> Option<int> {
    match o {
        Some(n) => Some(n as int),
        None => None,
    }
}

/// The number of distinct keys in the bundled resources of each locale.
pub fn message_counts_by_locale() -> (res: MessageCounts)
    ensures
        (opt_usize_view(res.en), opt_usize_view(res.zh_cn)) == spec_message_counts(
            spec_bundled_resources(),
        ),
{
    let resources = bundled_resources();
    let ghost rs = spec_bundled_resources();
    proof {
        lemma_bundled_sources_short();
    }
    let mut counts = MessageCounts { en: None, zh_cn: None };
    let mut i: usize = 0;
    while i < resources.len()
        invariant
            i <= resources@.len(),
            rs == spec_bundled_resources(),
            resources_view(resources@) == rs,
            forall|k: int| 0 <= k < rs.len() ==> (#[trigger] rs[k]).2.len() < 4096,
            match counts.en {
                Some(c) => c <= i * 4096,
                None => true,
            },
            match counts.zh_cn {
                Some(c) => c <= i * 4096,
                None => true,
            },
            (opt_usize_view(counts.en), opt_usize_view(counts.zh_cn)) == spec_message_counts(
                rs.take(i as int),
            ),
        decreases resources@.len() - i,
    {
        let resource = resources[i];
        assert(rs.take(i + 1).drop_last() =~= rs.take(i as int));
        assert(rs[i as int] == resource@);
        let n = message_keys(resource.source).len();
        if resource.locale == Locale::En {
            counts.en = match counts.en {
                Some(c) => Some(c + n),
                None => Some(n),
            };
        } else {
            counts.zh_cn = match counts.zh_cn {
                Some(c) => Some(c + n),
                None => Some(n),
            };
        }
        i = i + 1;
    }
    assert(rs.take(i as int) =~= rs);
    counts
}

// ---------------------------------------------------------------------------
// Auditing a source file
// ---------------------------------------------------------------------------

/// Where the audit is within a file: inside a function whose strings are
/// not UI (`search_terms`, `ui_name`), inside an ignored block (with the
/// brace depth it started at, and whether its `{` was seen), and the
/// current brace depth.
pub struct AuditState {
    pub in_ignored_function: bool,
    pub ignored_brace_depth: Option<int>,
    pub ignored_block_opened: bool,
    pub brace_depth: int,
}

/// The state before a file's first line.
pub open spec fn spec_initial_audit_state() -> AuditState {
    AuditState {
        in_ignored_function: false,
        ignored_brace_depth: None,
        ignored_block_opened: false,
        brace_depth: 0,
    }
}

/// Whether a line starts a function whose strings are not UI text.
pub open spec fn spec_starts_ignored_function(t: Seq<char>) -> bool {
    spec_starts_with(t, "fn search_terms("@) || spec_starts_with(t, "fn ui_name("@)
}

/// The state after a line; its literals are looked at when the state after
/// the line's start checks is outside ignored functions and blocks.
pub open spec fn spec_audit_step(st: AuditState, line: Seq<char>) -> (AuditState, bool) {
    let t = spec_trim_start(line);
    let in_fn = st.in_ignored_function || spec_starts_ignored_function(t);
    let starts_block = st.ignored_brace_depth is None && spec_starts_ignored_block(t);
    let ignored = if starts_block {
        Some(st.brace_depth)
    } else {
        st.ignored_brace_depth
    };
    let opened = if starts_block {
        false
    } else {
        st.ignored_block_opened
    };
    let scans = !in_fn && ignored is None;
    let in_fn2 = if in_fn && t == "}"@ {
        false
    } else {
        in_fn
    };
    let depth = spec_update_brace_depth(line, st.brace_depth);
    let opened2 = if ignored is Some && spec_code_char_scan(line, '{', 0, false, false) {
        true
    } else {
        opened
    };
    let closes = opened2 && match ignored {
        Some(d) => depth <= d,
        None => false,
    };
    let next = AuditState {
        in_ignored_function: in_fn2,
        ignored_brace_depth: if closes {
            None
        } else {
            ignored
        },
        ignored_block_opened: if closes {
            false
        } else {
            opened2
        },
        brace_depth: depth,
    };
    (next, scans)
}

/// The literals of `lits` that look like UI text on `line`, in order.
pub open spec fn spec_candidates_among(line: Seq<char>, lits: Seq<Seq<char>>) -> Seq<Seq<char>>
    decreases lits.len(),
{
    if lits.len() == 0 {
        Seq::empty()
    } else if spec_is_candidate_ui_string(line, lits.last()) {
        spec_candidates_among(line, lits.drop_last()).push(lits.last())
    } else {
        spec_candidates_among(line, lits.drop_last())
    }
}

/// Auditing `lines[i..]` from state `st`: the number of localisation calls
/// and the candidate strings with their line numbers.
pub open spec fn spec_audit_from(lines: Seq<Seq<char>>, i: int, st: AuditState) -> (int, Seq<
    (int, Seq<char>),
>)
    decreases lines.len() - i,
{
    if i < 0 || i >= lines.len() {
        (0, Seq::empty())
    } else {
        let line = lines[i];
        let (next, scans) = spec_audit_step(st, line);
        let found = if scans {
            spec_candidates_among(line, spec_literals_from(line, 0)).map_values(
                |l: Seq<char>| (i + 1, l),
            )
        } else {
            Seq::empty()
        };
        let rest = spec_audit_from(lines, i + 1, next);
        (spec_localized_call_site_count(line) + rest.0, found + rest.1)
    }
}

/// Auditing a whole source text.
pub open spec fn spec_audit_source(source: Seq<char>) -> (int, Seq<(int, Seq<char>)>) {
    spec_audit_from(crate::text::spec_lines(source), 0, spec_initial_audit_state())
}

pub proof fn lemma_audit_calls_nonnegative(lines: Seq<Seq<char>>, i: int, st: AuditState)
    ensures
        spec_audit_from(lines, i, st).0 >= 0,
    decreases lines.len() - i,
{
    if 0 <= i < lines.len() {
        lemma_audit_calls_nonnegative(lines, i + 1, spec_audit_step(st, lines[i]).0);
    }
}

/// The total length of `lines[i..]`.
pub open spec fn spec_total_len_from(lines: Seq<Seq<char>>, i: int) -> nat
    decreases lines.len() - i,
{
    if i < 0 || i >= lines.len() {
        0
    } else {
        lines[i].len() + spec_total_len_from(lines, i + 1)
    }
}

/// The lines before `n` and those from `n` on make up all of them.
pub proof fn lemma_total_len_split(lines: Seq<Seq<char>>, n: int)
    requires
        0 <= n <= lines.len(),
    ensures
        crate::text::spec_total_len(lines.take(n)) + spec_total_len_from(lines, n)
            == crate::text::spec_total_len(lines),
    decreases lines.len() - n,
{
    if n == lines.len() {
        assert(lines.take(n) =~= lines);
    } else {
        lemma_total_len_split(lines, n + 1);
        assert(lines.take(n + 1).drop_last() =~= lines.take(n));
        assert(lines.take(n + 1).last() == lines[n]);
    }
}

/// Auditing `lines[i..]` counts no more calls than they hold characters.
pub proof fn lemma_audit_calls_bound(lines: Seq<Seq<char>>, i: int, st: AuditState)
    ensures
        spec_audit_from(lines, i, st).0 <= spec_total_len_from(lines, i),
    decreases lines.len() - i,
{
    if 0 <= i < lines.len() {
        lemma_localized_call_site_count_bound(lines[i]);
        lemma_audit_calls_bound(lines, i + 1, spec_audit_step(st, lines[i]).0);
    }
}

/// Auditing a text counts no more calls than it has characters.
pub proof fn lemma_audit_source_calls_bound(source: Seq<char>)
    ensures
        spec_audit_source(source).0 <= source.len(),
{
    let ls = crate::text::spec_lines(source);
    lemma_audit_calls_bound(ls, 0, spec_initial_audit_state());
    lemma_total_len_split(ls, 0);
    assert(ls.take(0) =~= Seq::<Seq<char>>::empty());
    crate::text::lemma_lines_total_len(source);
}

/// A string literal that looks like UI text, with where it was found.
#[derive(Debug)]
pub struct BareStringCandidate {
    pub path: String,
    pub line_number: usize,
    pub literal: String,
}

/// What the audit found so far.
#[derive(Debug)]
pub struct SourceAudit {
    pub localized_call_sites: usize,
    pub bare_string_candidates: Vec<BareStringCandidate>,
}

impl Default for SourceAudit {
    fn default() -> (res: Self)
        ensures
            res.localized_call_sites == 0,
            res.bare_string_candidates@.len() == 0,
    {
        SourceAudit { localized_call_sites: 0, bare_string_candidates: Vec::new() }
    }
}

pub open spec fn candidates_view(v: Seq<BareStringCandidate>) -> Seq<(Seq<char>, int, Seq<char>)> {
    v.map_values(|c: BareStringCandidate| (c.path@, c.line_number as int, c.literal@))
}

/// The candidates found on one line, in order.
fn line_candidates(line: &str) -> (res: Vec<String>)
    ensures
        strings_view(res@) == spec_candidates_among(line@, spec_literals_from(line@, 0)),
{
    let literals = string_literals_in_line(line);
    let ghost lits = spec_literals_from(line@, 0);
    let mut out: Vec<String> = Vec::new();
    let mut k: usize = 0;
    assert(strings_view(out@) =~= spec_candidates_among(line@, lits.take(0)));
    while k < literals.len()
        invariant
            k <= literals@.len(),
            lits == spec_literals_from(line@, 0),
            literals@.len() == lits.len(),
            forall|m: int| 0 <= m < literals@.len() ==> #[trigger] literals@[m]@ == lits[m],
            strings_view(out@) == spec_candidates_among(line@, lits.take(k as int)),
        decreases literals@.len() - k,
    {
        assert(lits.take(k + 1).drop_last() =~= lits.take(k as int));
        assert(literals@[k as int]@ == lits[k as int]);
        if is_candidate_ui_string(line, literals[k].as_str()) {
            let ghost before = out@;
            let lit = crate::text::copy_str(literals[k].as_str());
            out.push(lit);
            assert(strings_view(out@) =~= strings_view(before).push(lit@));
        }
        k = k + 1;
    }
    assert(lits.take(k as int) =~= lits);
    out
}

/// Audits one source text: counts its localisation calls and records the
/// literals that look like UI text that is not localised, under `path`.
pub fn audit_source_text(path: &str, source: &str, audit: &mut SourceAudit)
    requires
        old(audit).localized_call_sites + source@.len() <= usize::MAX,
    ensures
        final(audit).localized_call_sites == old(audit).localized_call_sites + spec_audit_source(
            source@,
        ).0,
        candidates_view(final(audit).bare_string_candidates@) == candidates_view(
            old(audit).bare_string_candidates@,
        ) + spec_audit_source(source@).1.map_values(
            |c: (int, Seq<char>)| (path@, c.0, c.1),
        ),
{
    let lines = crate::text::lines_of(source);
    let ghost ls = crate::text::spec_lines(source@);
    let source_chars = chars_of(source);
    let source_len = source_chars.len();
    proof {
        crate::text::lemma_lines_total_len(source@);
        lemma_audit_source_calls_bound(source@);
        lemma_audit_calls_nonnegative(ls, 0, spec_initial_audit_state());
    }
    let ghost start_calls = audit.localized_call_sites as int;
    let ghost start_candidates = candidates_view(audit.bare_string_candidates@);
    let ghost total = spec_audit_source(source@);
    let mut in_ignored_function = false;
    let mut ignored_brace_depth: Option<usize> = None;
    let mut ignored_block_opened = false;
    let mut brace_depth: usize = 0;
    let ghost mut found: Seq<(int, Seq<char>)> = Seq::empty();
    let ghost mut calls: int = 0;
    let mut i: usize = 0;
    assert(ls.take(0) =~= Seq::<Seq<char>>::empty());
    while i < lines.len()
        invariant
            i <= lines@.len(),
            lines@.len() == ls.len(),
            ls == crate::text::spec_lines(source@),
            source_len == source@.len(),
            crate::text::spec_total_len(ls) <= source@.len(),
            forall|m: int| 0 <= m < lines@.len() ==> #[trigger] lines@[m]@ == ls[m],
            total == spec_audit_source(source@),
            brace_depth <= crate::text::spec_total_len(ls.take(i as int)),
            0 <= calls,
            start_calls + total.0 <= usize::MAX,
            audit.localized_call_sites == start_calls + calls,
            candidates_view(audit.bare_string_candidates@) == start_candidates + found.map_values(
                |c: (int, Seq<char>)| (path@, c.0, c.1),
            ),
            total == (
                calls + spec_audit_from(
                    ls,
                    i as int,
                    AuditState {
                        in_ignored_function,
                        ignored_brace_depth: match ignored_brace_depth {
                            Some(d) => Some(d as int),
                            None => None,
                        },
                        ignored_block_opened,
                        brace_depth: brace_depth as int,
                    },
                ).0,
                found + spec_audit_from(
                    ls,
                    i as int,
                    AuditState {
                        in_ignored_function,
                        ignored_brace_depth: match ignored_brace_depth {
                            Some(d) => Some(d as int),
                            None => None,
                        },
                        ignored_block_opened,
                        brace_depth: brace_depth as int,
                    },
                ).1,
            ),
        decreases lines@.len() - i,
    {
        let line = lines[i].as_str();
        let ghost st = AuditState {
            in_ignored_function,
            ignored_brace_depth: match ignored_brace_depth {
                Some(d) => Some(d as int),
                None => None,
            },
            ignored_block_opened,
            brace_depth: brace_depth as int,
        };
        assert(line@ == ls[i as int]);
        proof {
            lemma_audit_calls_nonnegative(ls, i + 1, spec_audit_step(st, ls[i as int]).0);
            assert(ls.take(i + 1).drop_last() =~= ls.take(i as int));
            crate::text::lemma_total_len_prefix(ls, i + 1);
        }
        let lv = chars_of(line);
        let ts = crate::text::skip_ws_forward(&lv, 0, lv.len());
        proof {
            assert(lv@.subrange(0, lv@.len() as int) =~= lv@);
            crate::text::lemma_leading_ws_bound(lv@);
        }
        let trimmed_string = crate::text::string_of_range(&lv, ts, lv.len());
        let trimmed = trimmed_string.as_str();
        assert(trimmed@ =~= spec_trim_start(line@));
        if crate::text::str_starts_with(trimmed, "fn search_terms(")
            || crate::text::str_starts_with(trimmed, "fn ui_name(") {
            in_ignored_function = true;
        }
        let starts_block = ignored_brace_depth.is_none() && starts_ignored_block(trimmed);
        if starts_block {
            ignored_brace_depth = Some(brace_depth);
            ignored_block_opened = false;
        }
        let n = localized_call_site_count(line);
        audit.localized_call_sites = audit.localized_call_sites + n;
        proof {
            calls = calls + n;
        }
        if !in_ignored_function && ignored_brace_depth.is_none() {
            let candidates = line_candidates(line);
            let line_number = i + 1;
            let mut k: usize = 0;
            let ghost before = candidates_view(audit.bare_string_candidates@);
            while k < candidates.len()
                invariant
                    k <= candidates@.len(),
                    line_number == i + 1,
                    audit.localized_call_sites == start_calls + calls,
                    candidates_view(audit.bare_string_candidates@) == before + strings_view(
                        candidates@,
                    ).take(k as int).map_values(|l: Seq<char>| (path@, i + 1, l)),
                decreases candidates@.len() - k,
            {
                let c = BareStringCandidate {
                    path: crate::text::copy_str(path),
                    line_number,
                    literal: crate::text::copy_str(candidates[k].as_str()),
                };
                let ghost prev = audit.bare_string_candidates@;
                audit.bare_string_candidates.push(c);
                assert(candidates_view(audit.bare_string_candidates@) =~= candidates_view(prev).push(
                    (path@, i + 1, strings_view(candidates@)[k as int]),
                ));
                assert(strings_view(candidates@).take(k + 1).map_values(
                    |l: Seq<char>| (path@, i + 1, l),
                ) =~= strings_view(candidates@).take(k as int).map_values(
                    |l: Seq<char>| (path@, i + 1, l),
                ).push((path@, i + 1, strings_view(candidates@)[k as int])));
                k = k + 1;
            }
            proof {
                let lc = strings_view(candidates@);
                assert(lc.take(k as int) =~= lc);
                let f = lc.map_values(|l: Seq<char>| (i + 1, l));
                assert(f.map_values(|c: (int, Seq<char>)| (path@, c.0, c.1)) =~= lc.map_values(
                    |l: Seq<char>| (path@, i + 1, l),
                ));
                assert((found + f).map_values(|c: (int, Seq<char>)| (path@, c.0, c.1))
                    =~= found.map_values(|c: (int, Seq<char>)| (path@, c.0, c.1)) + f.map_values(
                    |c: (int, Seq<char>)| (path@, c.0, c.1),
                ));
                found = found + f;
            }
        }
        if in_ignored_function && crate::text::str_eq(trimmed, "}") {
            in_ignored_function = false;
        }
        brace_depth = update_brace_depth(line, brace_depth);
        proof {
            lemma_brace_scan_bound(line@, 0, st.brace_depth, false, false);
        }
        if ignored_brace_depth.is_some() && line_contains_code_char(line, '{') {
            ignored_block_opened = true;
        }
        let closes = match ignored_brace_depth {
            Some(d) => ignored_block_opened && brace_depth <= d,
            None => false,
        };
        if closes {
            ignored_brace_depth = None;
            ignored_block_opened = false;
        }
        i = i + 1;
    }
}

/// The figures an audit report prints: the calls found, the candidates, the
/// sum of the two (the denominator of the coverage estimate), and how many
/// candidates are shown as examples.
#[derive(Clone, Copy, Debug, PartialEq, Eq, Structural)]
pub struct CoverageSummary {
    pub localized_call_sites: usize,
    pub candidate_count: usize,
    pub denominator: usize,
    pub shown_examples: usize,
}

/// The report's figures for `audit`, showing at most `max_examples`
/// candidates.
pub fn coverage_summary(audit: &SourceAudit, max_examples: usize) -> (res: CoverageSummary)
    requires
        audit.localized_call_sites + audit.bare_string_candidates@.len() <= usize::MAX,
    ensures
        res.localized_call_sites == audit.localized_call_sites,
        res.candidate_count == audit.bare_string_candidates@.len(),
        res.denominator == audit.localized_call_sites + audit.bare_string_candidates@.len(),
        res.shown_examples == if max_examples < audit.bare_string_candidates@.len() {
            max_examples as int
        } else {
            audit.bare_string_candidates@.len() as int
        },
{
    let candidate_count = audit.bare_string_candidates.len();
    let shown_examples = if max_examples < candidate_count {
        max_examples
    } else {
        candidate_count
    };
    CoverageSummary {
        localized_call_sites: audit.localized_call_sites,
        candidate_count,
        denominator: audit.localized_call_sites + candidate_count,
        shown_examples,
    }
}

} // verus!

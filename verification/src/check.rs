//! A consistency check of the bundled resources: every resource parses,
//! declares each message key once and declares at least one, and (on
//! request) every locale has the same files with the same keys as English.

use vstd::prelude::*;
use crate::fluent::{
    add_resource, debug_string_list, debug_strings, fluent_add_errors, fluent_parse_errors,
    new_bundle, parse_resource, set_use_isolating, strings_view,
};
use crate::locale::{spec_locale_code, Locale};
use crate::resources::{
    bundled_resources, lemma_bundled_sources_short, resources_view, spec_bundled_resources,
    BundleResource, ResourceView,
};
use crate::text::{
    chars_eq, chars_lt, chars_of, copy_str, find_char_from, is_ascii_alphabetic,
    is_ascii_alphanumeric, lemma_find_char, lemma_leading_ws_bound, lemma_lines_len, lines_of,
    push_char, push_str, spec_find_char, spec_is_ascii_alphabetic, spec_is_ascii_alphanumeric,
    spec_is_whitespace, spec_leading_ws, spec_lines, spec_str_lt, spec_trim, spec_trim_start,
    lemma_str_lt_total, lemma_str_lt_transitive,
    string_of_range, trim_bounds,
};
use crate::translate::language_identifier;

verus! {

// ---------------------------------------------------------------------------
// Options, report, errors
// ---------------------------------------------------------------------------

/// How deep the check goes: `Hard` also loads each resource into a Fluent
/// bundle and always checks parity.
#[derive(Clone, Copy, Debug, PartialEq, Eq, Structural)]
pub enum I18nCheckMode {
    Normal,
    Hard,
}

#[derive(Clone, Copy, Debug, PartialEq, Eq, Structural)]
pub struct I18nCheckOptions {
    pub check_parity: bool,
    pub mode: I18nCheckMode,
}

impl Default for I18nCheckOptions {
    fn default() -> (res: Self)
        ensures
            res.check_parity == false,
            res.mode == I18nCheckMode::Normal,
    {
        I18nCheckOptions { check_parity: false, mode: I18nCheckMode::Normal }
    }
}

/// What a passing check counted.
#[derive(Clone, Copy, Debug, PartialEq, Eq, Structural)]
pub struct I18nCheckReport {
    pub locale_count: usize,
    pub resource_count: usize,
    pub message_count: usize,
}

/// Why the check failed.
#[derive(Debug)]
pub enum I18nCheckError {
    InvalidResource { locale: Locale, path: &'static str, errors: Vec<String> },
    MissingLocale(Locale),
    ResourceParity {
        locale: Locale,
        missing_paths: Vec<&'static str>,
        extra_paths: Vec<&'static str>,
    },
    KeyParity {
        locale: Locale,
        path: &'static str,
        missing_keys: Vec<String>,
        extra_keys: Vec<String>,
    },
    DuplicateKey { locale: Locale, path: &'static str, key: String, line: usize },
    NoMessages { locale: Locale, path: &'static str },
}

pub enum CheckErrorView {
    InvalidResource { locale: Locale, path: Seq<char>, errors: Seq<Seq<char>> },
    MissingLocale(Locale),
    ResourceParity {
        locale: Locale,
        missing_paths: Seq<Seq<char>>,
        extra_paths: Seq<Seq<char>>,
    },
    KeyParity {
        locale: Locale,
        path: Seq<char>,
        missing_keys: Seq<Seq<char>>,
        extra_keys: Seq<Seq<char>>,
    },
    DuplicateKey { locale: Locale, path: Seq<char>, key: Seq<char>, line: int },
    NoMessages { locale: Locale, path: Seq<char> },
}

/// The views of a vector of file names.
pub open spec fn paths_view(v: Seq<&'static str>) -> Seq<Seq<char>> {
    v.map_values(|p: &'static str| p@)
}

impl View for I18nCheckError {
    type V = CheckErrorView;

    open spec fn view(&self) -> CheckErrorView {
        match self {
            I18nCheckError::InvalidResource { locale, path, errors } =>
                CheckErrorView::InvalidResource {
                locale: *locale,
                path: path@,
                errors: strings_view(errors@),
            },
            I18nCheckError::MissingLocale(l) => CheckErrorView::MissingLocale(*l),
            I18nCheckError::ResourceParity { locale, missing_paths, extra_paths } =>
                CheckErrorView::ResourceParity {
                locale: *locale,
                missing_paths: paths_view(missing_paths@),
                extra_paths: paths_view(extra_paths@),
            },
            I18nCheckError::KeyParity { locale, path, missing_keys, extra_keys } =>
                CheckErrorView::KeyParity {
                locale: *locale,
                path: path@,
                missing_keys: strings_view(missing_keys@),
                extra_keys: strings_view(extra_keys@),
            },
            I18nCheckError::DuplicateKey { locale, path, key, line } =>
                CheckErrorView::DuplicateKey {
                locale: *locale,
                path: path@,
                key: key@,
                line: *line as int,
            },
            I18nCheckError::NoMessages { locale, path } => CheckErrorView::NoMessages {
                locale: *locale,
                path: path@,
            },
        }
    }
}

/// The decimal digits of a number.
pub open spec fn spec_decimal(n: nat) -> Seq<char>
    decreases n,
{
    if n < 10 {
        seq![(48 + n) as char]
    } else {
        spec_decimal(n / 10).push((48 + n % 10) as char)
    }
}

/// The decimal text of a number.
pub fn decimal(n: usize) -> (res: String)
    ensures
        res@ == spec_decimal(n as nat),
    decreases n,
{
    let digit: u8 = (n % 10) as u8;
    let c: char = (48u8 + digit) as char;
    if n < 10 {
        let mut s = String::new();
        push_char(&mut s, c);
        s
    } else {
        let mut s = decimal(n / 10);
        push_char(&mut s, c);
        s
    }
}

impl I18nCheckReport {
    pub open spec fn spec_summary(self) -> Seq<char> {
        "i18n check passed: "@ + spec_decimal(self.locale_count as nat) + " locales, "@
            + spec_decimal(self.resource_count as nat) + " resources, "@ + spec_decimal(
            self.message_count as nat,
        ) + " messages"@
    }

    /// The line printed after a passing check.
    pub fn summary(&self) -> (res: String)
        ensures
            res@ == self.spec_summary(),
    {
        let mut out = String::new();
        push_str(&mut out, "i18n check passed: ");
        push_str(&mut out, decimal(self.locale_count).as_str());
        push_str(&mut out, " locales, ");
        push_str(&mut out, decimal(self.resource_count).as_str());
        push_str(&mut out, " resources, ");
        push_str(&mut out, decimal(self.message_count).as_str());
        push_str(&mut out, " messages");
        out
    }
}

/// The text of a check error.
pub open spec fn spec_check_error_message(e: CheckErrorView) -> Seq<char> {
    match e {
        CheckErrorView::InvalidResource { locale, path, errors } => "invalid "@
            + spec_locale_code(locale) + " resource `"@ + path + "`: "@ + debug_string_list(errors),
        CheckErrorView::MissingLocale(l) => "missing locale bundle `"@ + spec_locale_code(l)
            + "`"@,
        CheckErrorView::ResourceParity { locale, missing_paths, extra_paths } =>
            "resource path parity failed for `"@ + spec_locale_code(locale) + "`: missing "@
            + debug_string_list(missing_paths) + ", extra "@ + debug_string_list(extra_paths),
        CheckErrorView::KeyParity { locale, path, missing_keys, extra_keys } =>
            "key parity failed for `"@ + spec_locale_code(locale) + "` resource `"@ + path
            + "`: missing "@ + debug_string_list(missing_keys) + ", extra "@ + debug_string_list(
            extra_keys,
        ),
        CheckErrorView::DuplicateKey { locale, path, key, line } => "duplicate key `"@ + key
            + "` in "@ + spec_locale_code(locale) + " resource `"@ + path + "` at line "@
            + spec_decimal(line as nat),
        CheckErrorView::NoMessages { locale, path } => "no messages found in "@
            + spec_locale_code(locale) + " resource `"@ + path + "`"@,
    }
}

/// The file names as owned strings.
fn paths_to_strings(paths: &Vec<&'static str>) -> (res: Vec<String>)
    ensures
        strings_view(res@) == paths_view(paths@),
{
    let mut out: Vec<String> = Vec::new();
    let mut i: usize = 0;
    while i < paths.len()
        invariant
            i <= paths@.len(),
            strings_view(out@) == paths_view(paths@.take(i as int)),
        decreases paths@.len() - i,
    {
        let ghost before = out@;
        let p = copy_str(paths[i]);
        out.push(p);
        assert(out@ == before.push(p));
        assert(paths@.take(i + 1) =~= paths@.take(i as int).push(paths@[i as int]));
        assert(strings_view(out@) =~= strings_view(before).push(p@));
        assert(paths_view(paths@.take(i + 1)) =~= paths_view(paths@.take(i as int)).push(
            paths@[i as int]@,
        ));
        i = i + 1;
    }
    assert(paths@.take(paths@.len() as int) =~= paths@);
    out
}

impl I18nCheckError {
    /// The error's text, e.g. ``no messages found in en resource `app.ftl` ``.
    pub fn message(&self) -> (res: String)
        ensures
            res@ == spec_check_error_message(self@),
    {
        match self {
            I18nCheckError::InvalidResource { locale, path, errors } => {
                let mut s = String::from_str("invalid ");
                push_str(&mut s, locale.code());
                push_str(&mut s, " resource `");
                push_str(&mut s, path);
                push_str(&mut s, "`: ");
                let d = debug_strings(errors);
                push_str(&mut s, d.as_str());
                s
            },
            I18nCheckError::MissingLocale(l) => {
                let mut s = String::from_str("missing locale bundle `");
                push_str(&mut s, l.code());
                push_str(&mut s, "`");
                s
            },
            I18nCheckError::ResourceParity { locale, missing_paths, extra_paths } => {
                let mut s = String::from_str("resource path parity failed for `");
                push_str(&mut s, locale.code());
                push_str(&mut s, "`: missing ");
                let d = debug_strings(&paths_to_strings(missing_paths));
                push_str(&mut s, d.as_str());
                push_str(&mut s, ", extra ");
                let d = debug_strings(&paths_to_strings(extra_paths));
                push_str(&mut s, d.as_str());
                s
            },
            I18nCheckError::KeyParity { locale, path, missing_keys, extra_keys } => {
                let mut s = String::from_str("key parity failed for `");
                push_str(&mut s, locale.code());
                push_str(&mut s, "` resource `");
                push_str(&mut s, path);
                push_str(&mut s, "`: missing ");
                let d = debug_strings(missing_keys);
                push_str(&mut s, d.as_str());
                push_str(&mut s, ", extra ");
                let d = debug_strings(extra_keys);
                push_str(&mut s, d.as_str());
                s
            },
            I18nCheckError::DuplicateKey { locale, path, key, line } => {
                let mut s = String::from_str("duplicate key `");
                push_str(&mut s, key.as_str());
                push_str(&mut s, "` in ");
                push_str(&mut s, locale.code());
                push_str(&mut s, " resource `");
                push_str(&mut s, path);
                push_str(&mut s, "` at line ");
                let d = decimal(*line);
                push_str(&mut s, d.as_str());
                s
            },
            I18nCheckError::NoMessages { locale, path } => {
                let mut s = String::from_str("no messages found in ");
                push_str(&mut s, locale.code());
                push_str(&mut s, " resource `");
                push_str(&mut s, path);
                push_str(&mut s, "`");
                s
            },
        }
    }
}

// ---------------------------------------------------------------------------
// Message keys of a resource
// ---------------------------------------------------------------------------

pub open spec fn spec_is_key_char(c: char) -> bool {
    spec_is_ascii_alphanumeric(c) || c == '_' || c == '-'
}

/// A Fluent message identifier: an ASCII letter or `_`, then ASCII letters,
/// digits, `_` and `-`.
pub open spec fn spec_is_message_key(k: Seq<char>) -> bool {
    &&& k.len() > 0
    &&& spec_is_ascii_alphabetic(k[0]) || k[0] == '_'
    &&& forall|i: int| 1 <= i < k.len() ==> spec_is_key_char(#[trigger] k[i])
}

/// The text a line assigns to, if any: for a line that starts neither with
/// whitespace nor with `#` and holds a `=`, its text before the first `=`,
/// trimmed.
pub open spec fn spec_line_key_text(line: Seq<char>) -> Option<Seq<char>> {
    let trimmed = spec_trim_start(line);
    if trimmed.len() == 0 || trimmed[0] == '#' || trimmed.len() != line.len() {
        None
    } else {
        match spec_find_char(line, '=') {
            None => None,
            Some(i) => Some(spec_trim(line.take(i))),
        }
    }
}

/// The message key a line declares, if any: the text it assigns to, when
/// that is a message identifier.
pub open spec fn spec_line_key(line: Seq<char>) -> Option<Seq<char>> {
    match spec_line_key_text(line) {
        Some(k) => if spec_is_message_key(k) {
            Some(k)
        } else {
            None
        },
        None => None,
    }
}

/// Whether `v[from..to]` is a message identifier.
fn is_message_key_range(v: &Vec<char>, from: usize, to: usize) -> (res: bool)
    requires
        from <= to <= v@.len(),
    ensures
        res == spec_is_message_key(v@.subrange(from as int, to as int)),
{
    let ghost k = v@.subrange(from as int, to as int);
    if from == to {
        return false;
    }
    let first = v[from];
    if !(is_ascii_alphabetic(first) || first == '_') {
        return false;
    }
    let mut i = from + 1;
    while i < to
        invariant
            from < i <= to <= v@.len(),
            k == v@.subrange(from as int, to as int),
            forall|j: int| 1 <= j < i - from ==> spec_is_key_char(#[trigger] k[j]),
        decreases to - i,
    {
        let c = v[i];
        if !(is_ascii_alphanumeric(c) || c == '_' || c == '-') {
            assert(k[i - from] == c);
            return false;
        }
        i = i + 1;
    }
    true
}

/// Whether `key` is a message identifier.
pub fn is_message_key(key: &str) -> (res: bool)
    ensures
        res == spec_is_message_key(key@),
{
    let v = chars_of(key);
    assert(v@.subrange(0, v@.len() as int) =~= v@);
    is_message_key_range(&v, 0, v.len())
}

/// The text that `line` assigns to, if any.
pub fn line_key_text(line: &str) -> (res: Option<String>)
    ensures
        match res {
            Some(k) => spec_line_key_text(line@) == Some(k@),
            None => spec_line_key_text(line@) is None,
        },
{
    let v = chars_of(line);
    proof {
        lemma_leading_ws_bound(v@);
        assert(v@.subrange(0, v@.len() as int) =~= v@);
    }
    let mut start: usize = 0;
    while start < v.len() && crate::text::is_whitespace(v[start])
        invariant
            start <= v@.len(),
            forall|j: int| 0 <= j < start ==> spec_is_whitespace(#[trigger] v@[j]),
        decreases v@.len() - start,
    {
        start = start + 1;
    }
    proof {
        lemma_leading_ws_prefix(v@, start as int);
    }
    if start == v.len() || v[start] == '#' || start != 0 {
        return None;
    }
    match find_char_from(&v, 0, '=') {
        None => {
            assert(v@.skip(0) =~= v@);
            None
        },
        Some(eq) => {
            assert(v@.skip(0) =~= v@);
            let (a, b) = trim_bounds(&v, 0, eq);
            assert(v@.subrange(0, eq as int) =~= v@.take(eq as int));
            Some(string_of_range(&v, a, b))
        },
    }
}

/// The message key that `line` declares, if any.
pub fn line_key(line: &str) -> (res: Option<String>)
    ensures
        match res {
            Some(k) => spec_line_key(line@) == Some(k@),
            None => spec_line_key(line@) is None,
        },
{
    match line_key_text(line) {
        Some(k) => if is_message_key(k.as_str()) {
            Some(k)
        } else {
            None
        },
        None => None,
    }
}

/// Scanning whitespace from the front stops where `spec_leading_ws` does.
proof fn lemma_leading_ws_prefix(s: Seq<char>, k: int)
    requires
        0 <= k <= s.len(),
        forall|j: int| 0 <= j < k ==> spec_is_whitespace(#[trigger] s[j]),
        k == s.len() || !spec_is_whitespace(s[k]),
    ensures
        spec_leading_ws(s) == k,
    decreases k,
{
    if k > 0 {
        assert forall|j: int| 0 <= j < k - 1 implies spec_is_whitespace(
            #[trigger] s.drop_first()[j],
        ) by {
            assert(s.drop_first()[j] == s[j + 1]);
        }
        if k < s.len() {
            assert(s.drop_first()[k - 1] == s[k]);
        }
        lemma_leading_ws_prefix(s.drop_first(), k - 1);
    } else {
        lemma_leading_ws_bound(s);
    }
}

/// `k` inserted into `s` before the first element it orders before (the
/// insertion of a `BTreeSet`, when `s` is sorted).
pub open spec fn spec_insert_sorted(s: Seq<Seq<char>>, k: Seq<char>) -> Seq<Seq<char>>
    decreases s.len(),
{
    if s.len() == 0 {
        seq![k]
    } else if spec_str_lt(k, s[0]) {
        seq![k] + s
    } else {
        seq![s[0]] + spec_insert_sorted(s.drop_first(), k)
    }
}

proof fn lemma_insert_sorted_at(s: Seq<Seq<char>>, k: Seq<char>, j: int)
    requires
        0 <= j <= s.len(),
        forall|m: int| 0 <= m < j ==> !spec_str_lt(k, #[trigger] s[m]),
        j < s.len() ==> spec_str_lt(k, s[j]),
    ensures
        spec_insert_sorted(s, k) == s.take(j).push(k) + s.skip(j),
    decreases j,
{
    if j == 0 {
        assert(s.take(0).push(k) + s.skip(0) =~= seq![k] + s);
    } else {
        assert forall|m: int| 0 <= m < j - 1 implies !spec_str_lt(
            k,
            #[trigger] s.drop_first()[m],
        ) by {
            assert(s.drop_first()[m] == s[m + 1]);
        }
        lemma_insert_sorted_at(s.drop_first(), k, j - 1);
        assert(s.take(j).push(k) + s.skip(j) =~= seq![s[0]] + (s.drop_first().take(j - 1).push(
            k,
        ) + s.drop_first().skip(j - 1)));
    }
}

/// Inserts `key` into a sorted key list.
pub fn insert_sorted(keys: &mut Vec<String>, key: String)
    ensures
        final(keys)@.len() == old(keys)@.len() + 1,
        strings_view(final(keys)@) == spec_insert_sorted(strings_view(old(keys)@), key@),
{
    let kv = chars_of(key.as_str());
    let ghost s = strings_view(keys@);
    let mut j: usize = 0;
    while j < keys.len() && !chars_lt(&kv, &chars_of(keys[j].as_str()))
        invariant
            j <= keys@.len(),
            s == strings_view(keys@),
            kv@ == key@,
            forall|m: int| 0 <= m < j ==> !spec_str_lt(key@, #[trigger] s[m]),
        decreases keys@.len() - j,
    {
        j = j + 1;
    }
    proof {
        lemma_insert_sorted_at(s, key@, j as int);
    }
    keys.insert(j, key);
    assert(strings_view(keys@) =~= s.take(j as int).push(key@) + s.skip(j as int));
}

/// Whether the key list holds `key`.
pub fn contains_key(keys: &Vec<String>, key: &Vec<char>) -> (res: bool)
    ensures
        res == strings_view(keys@).contains(key@),
{
    let mut i: usize = 0;
    while i < keys.len()
        invariant
            i <= keys@.len(),
            forall|m: int| 0 <= m < i ==> #[trigger] strings_view(keys@)[m] != key@,
        decreases keys@.len() - i,
    {
        if chars_eq(&chars_of(keys[i].as_str()), key) {
            assert(strings_view(keys@)[i as int] == key@);
            return true;
        }
        i = i + 1;
    }
    false
}

/// Scanning `lines[i..]` with the keys `acc` collected so far: the sorted
/// keys of all lines, or the first key declared twice with its line number.
pub open spec fn spec_scan_keys(lines: Seq<Seq<char>>, i: int, acc: Seq<Seq<char>>) -> Result<
    Seq<Seq<char>>,
    (Seq<char>, int),
>
    decreases lines.len() - i,
{
    if i < 0 || i >= lines.len() {
        Ok(acc)
    } else {
        match spec_line_key(lines[i]) {
            None => spec_scan_keys(lines, i + 1, acc),
            Some(k) => if acc.contains(k) {
                Err((k, i + 1))
            } else {
                spec_scan_keys(lines, i + 1, spec_insert_sorted(acc, k))
            },
        }
    }
}

/// The message keys a resource declares, in order, or why they are not
/// acceptable.
pub open spec fn spec_parse_message_keys(r: ResourceView) -> Result<Seq<Seq<char>>, CheckErrorView> {
    match spec_scan_keys(spec_lines(r.2), 0, Seq::empty()) {
        Err((key, line)) => Err(CheckErrorView::DuplicateKey { locale: r.0, path: r.1, key, line }),
        Ok(keys) => if keys.len() == 0 {
            Err(CheckErrorView::NoMessages { locale: r.0, path: r.1 })
        } else {
            Ok(keys)
        },
    }
}

pub open spec fn keys_result_view(r: Result<Vec<String>, I18nCheckError>) -> Result<
    Seq<Seq<char>>,
    CheckErrorView,
> {
    match r {
        Ok(keys) => Ok(strings_view(keys@)),
        Err(e) => Err(e@),
    }
}

/// The message keys a resource declares, sorted, or the first key declared
/// twice, or that it declares none.
pub fn parse_message_keys(resource: &BundleResource) -> (res: Result<Vec<String>, I18nCheckError>)
    ensures
        keys_result_view(res) == spec_parse_message_keys(resource@),
        res matches Ok(keys) ==> keys@.len() <= resource.source@.len(),
{
    let lines = lines_of(resource.source);
    let ghost ls = spec_lines(resource.source@);
    proof {
        lemma_lines_len(resource.source@);
    }
    let mut keys: Vec<String> = Vec::new();
    let mut i: usize = 0;
    assert(strings_view(keys@) =~= Seq::<Seq<char>>::empty());
    while i < lines.len()
        invariant
            i <= lines@.len(),
            lines@.len() == ls.len(),
            ls == spec_lines(resource.source@),
            ls.len() <= resource.source@.len(),
            forall|m: int| 0 <= m < lines@.len() ==> #[trigger] lines@[m]@ == ls[m],
            keys@.len() <= i,
            spec_scan_keys(ls, 0, Seq::empty()) == spec_scan_keys(ls, i as int, strings_view(
                keys@,
            )),
        decreases lines@.len() - i,
    {
        assert(lines@[i as int]@ == ls[i as int]);
        match line_key(lines[i].as_str()) {
            None => {},
            Some(key) => {
                let kv = chars_of(key.as_str());
                if contains_key(&keys, &kv) {
                    return Err(
                        I18nCheckError::DuplicateKey {
                            locale: resource.locale,
                            path: resource.path,
                            key,
                            line: i + 1,
                        },
                    );
                }
                insert_sorted(&mut keys, key);
            },
        }
        i = i + 1;
    }
    if keys.len() == 0 {
        return Err(I18nCheckError::NoMessages { locale: resource.locale, path: resource.path });
    }
    Ok(keys)
}

/// Strictly increasing, in the order of `str`: each key once, in the order
/// in which a `BTreeSet` yields them.
pub open spec fn spec_strictly_sorted(s: Seq<Seq<char>>) -> bool {
    forall|i: int, j: int| 0 <= i < j < s.len() ==> spec_str_lt(#[trigger] s[i], #[trigger] s[j])
}

/// Inserting a new key into a sorted list keeps it sorted and adds just
/// that key.
proof fn lemma_insert_sorted_keeps_order(s: Seq<Seq<char>>, k: Seq<char>)
    requires
        spec_strictly_sorted(s),
        !s.contains(k),
    ensures
        spec_strictly_sorted(spec_insert_sorted(s, k)),
        forall|x: Seq<char>| #[trigger]
            spec_insert_sorted(s, k).contains(x) <==> (s.contains(x) || x == k),
    decreases s.len(),
{
    let r = spec_insert_sorted(s, k);
    if s.len() == 0 {
        assert(r =~= seq![k]);
        assert(r[0] == k);
    } else if spec_str_lt(k, s[0]) {
        assert(r =~= seq![k] + s);
        assert forall|i: int, j: int| 0 <= i < j < r.len() implies spec_str_lt(
            #[trigger] r[i],
            #[trigger] r[j],
        ) by {
            if i == 0 {
                assert(r[j] == s[j - 1]);
                if j - 1 > 0 {
                    lemma_str_lt_transitive(k, s[0], s[j - 1]);
                }
            } else {
                assert(r[i] == s[i - 1] && r[j] == s[j - 1]);
            }
        }
        assert forall|x: Seq<char>| #[trigger] r.contains(x) <==> (s.contains(x) || x == k) by {
            if r.contains(x) {
                let m = choose|m: int| 0 <= m < r.len() && r[m] == x;
                if m > 0 {
                    assert(s[m - 1] == x);
                }
            }
            if s.contains(x) {
                let m = choose|m: int| 0 <= m < s.len() && s[m] == x;
                assert(r[m + 1] == x);
            }
            if x == k {
                assert(r[0] == k);
            }
        }
    } else {
        let rest = s.drop_first();
        assert(spec_strictly_sorted(rest)) by {
            assert forall|i: int, j: int| 0 <= i < j < rest.len() implies spec_str_lt(
                #[trigger] rest[i],
                #[trigger] rest[j],
            ) by {
                assert(rest[i] == s[i + 1] && rest[j] == s[j + 1]);
            }
        }
        assert(!rest.contains(k)) by {
            if rest.contains(k) {
                let m = choose|m: int| 0 <= m < rest.len() && rest[m] == k;
                assert(s[m + 1] == k);
            }
        }
        lemma_insert_sorted_keeps_order(rest, k);
        let rr = spec_insert_sorted(rest, k);
        assert(r =~= seq![s[0]] + rr);
        assert(k != s[0]) by {
            assert(s[0] == s[0]);
        }
        lemma_str_lt_total(k, s[0]);
        assert forall|x: Seq<char>| rr.contains(x) implies spec_str_lt(s[0], x) by {
            if rest.contains(x) {
                let m = choose|m: int| 0 <= m < rest.len() && rest[m] == x;
                assert(s[m + 1] == x);
            }
        }
        assert forall|i: int, j: int| 0 <= i < j < r.len() implies spec_str_lt(
            #[trigger] r[i],
            #[trigger] r[j],
        ) by {
            assert(r[j] == rr[j - 1]);
            if i == 0 {
                assert(rr.contains(rr[j - 1]));
            } else {
                assert(r[i] == rr[i - 1]);
            }
        }
        assert forall|x: Seq<char>| #[trigger] r.contains(x) <==> (s.contains(x) || x == k) by {
            if r.contains(x) {
                let m = choose|m: int| 0 <= m < r.len() && r[m] == x;
                if m == 0 {
                    assert(s[0] == x);
                } else {
                    assert(rr[m - 1] == x);
                    assert(rr.contains(x));
                    if rest.contains(x) {
                        let n = choose|n: int| 0 <= n < rest.len() && rest[n] == x;
                        assert(s[n + 1] == x);
                    }
                }
            }
            if s.contains(x) {
                let m = choose|m: int| 0 <= m < s.len() && s[m] == x;
                if m == 0 {
                    assert(r[0] == x);
                } else {
                    assert(rest[m - 1] == x);
                    assert(rest.contains(x));
                    assert(rr.contains(x));
                    let n = choose|n: int| 0 <= n < rr.len() && rr[n] == x;
                    assert(r[n + 1] == x);
                }
            }
            if x == k {
                assert(rr.contains(k));
                let n = choose|n: int| 0 <= n < rr.len() && rr[n] == x;
                assert(r[n + 1] == x);
            }
        }
    }
}

/// Whether one of `lines[i..]` declares the key `x`.
pub open spec fn spec_declared_from(lines: Seq<Seq<char>>, i: int, x: Seq<char>) -> bool {
    exists|j: int| i <= j < lines.len() && #[trigger] spec_line_key(lines[j]) == Some(x)
}

/// A scan that succeeds yields a sorted list of the keys collected before
/// and those declared from line `i` on.
proof fn lemma_scan_keys_ok(lines: Seq<Seq<char>>, i: int, acc: Seq<Seq<char>>)
    requires
        0 <= i,
        spec_strictly_sorted(acc),
        spec_scan_keys(lines, i, acc) is Ok,
    ensures
        spec_strictly_sorted(spec_scan_keys(lines, i, acc)->Ok_0),
        forall|x: Seq<char>| #[trigger]
            spec_scan_keys(lines, i, acc)->Ok_0.contains(x) <==> (acc.contains(x)
                || spec_declared_from(lines, i, x)),
    decreases lines.len() - i,
{
    let keys = spec_scan_keys(lines, i, acc)->Ok_0;
    if i >= lines.len() {
        assert forall|x: Seq<char>| #[trigger] keys.contains(x) <==> (acc.contains(x)
            || spec_declared_from(lines, i, x)) by {}
    } else {
        let next = match spec_line_key(lines[i]) {
            None => acc,
            Some(k) => spec_insert_sorted(acc, k),
        };
        match spec_line_key(lines[i]) {
            None => {},
            Some(k) => {
                lemma_insert_sorted_keeps_order(acc, k);
            },
        }
        lemma_scan_keys_ok(lines, i + 1, next);
        assert forall|x: Seq<char>| #[trigger] keys.contains(x) <==> (acc.contains(x)
            || spec_declared_from(lines, i, x)) by {
            if spec_declared_from(lines, i, x) {
                let j = choose|j: int| i <= j < lines.len() && #[trigger] spec_line_key(lines[j])
                    == Some(x);
                if j > i {
                    assert(spec_declared_from(lines, i + 1, x));
                }
            }
            if spec_declared_from(lines, i + 1, x) {
                let j = choose|j: int| i + 1 <= j < lines.len() && #[trigger] spec_line_key(
                    lines[j],
                ) == Some(x);
                assert(spec_declared_from(lines, i, x));
            }
        }
    }
}

/// Once key `k` is collected, or will be at line `j1`, a second
/// declaration at line `j2` stops the scan with an error.
proof fn lemma_scan_keys_duplicate(
    lines: Seq<Seq<char>>,
    i: int,
    acc: Seq<Seq<char>>,
    k: Seq<char>,
    j1: int,
    j2: int,
)
    requires
        0 <= i <= j2,
        j1 < j2 < lines.len(),
        spec_line_key(lines[j1]) == Some(k),
        spec_line_key(lines[j2]) == Some(k),
        i <= j1 || acc.contains(k),
    ensures
        spec_scan_keys(lines, i, acc) is Err,
    decreases lines.len() - i,
{
    match spec_line_key(lines[i]) {
        None => {
            lemma_scan_keys_duplicate(lines, i + 1, acc, k, j1, j2);
        },
        Some(kk) => {
            if !acc.contains(kk) {
                let next = spec_insert_sorted(acc, kk);
                lemma_insert_sorted_contains(acc, kk, k);
                lemma_scan_keys_duplicate(lines, i + 1, next, k, j1, j2);
            }
        },
    }
}

/// Inserting keeps what was there and adds the new key.
proof fn lemma_insert_sorted_contains(s: Seq<Seq<char>>, k: Seq<char>, x: Seq<char>)
    ensures
        (s.contains(x) || x == k) ==> spec_insert_sorted(s, k).contains(x),
    decreases s.len(),
{
    let r = spec_insert_sorted(s, k);
    if s.len() == 0 {
        assert(r[0] == k);
    } else if spec_str_lt(k, s[0]) {
        assert(r =~= seq![k] + s);
        assert(r[0] == k);
        if s.contains(x) {
            let m = choose|m: int| 0 <= m < s.len() && s[m] == x;
            assert(r[m + 1] == x);
        }
    } else {
        let rest = s.drop_first();
        lemma_insert_sorted_contains(rest, k, x);
        let rr = spec_insert_sorted(rest, k);
        assert(r =~= seq![s[0]] + rr);
        if s.contains(x) {
            let m = choose|m: int| 0 <= m < s.len() && s[m] == x;
            if m == 0 {
                assert(r[0] == x);
            } else {
                assert(rest[m - 1] == x);
            }
        }
        if rr.contains(x) {
            let n = choose|n: int| 0 <= n < rr.len() && rr[n] == x;
            assert(r[n + 1] == x);
        }
    }
}

/// The keys of a resource that passes come out strictly sorted, so each
/// once, and they are exactly the keys that its lines declare.
pub proof fn law_parsed_keys_sorted_and_complete(r: ResourceView)
    requires
        spec_parse_message_keys(r) is Ok,
    ensures
        spec_strictly_sorted(spec_parse_message_keys(r)->Ok_0),
        forall|x: Seq<char>| #[trigger]
            spec_parse_message_keys(r)->Ok_0.contains(x) <==> spec_declared_from(
                spec_lines(r.2),
                0,
                x,
            ),
{
    let ls = spec_lines(r.2);
    lemma_scan_keys_ok(ls, 0, Seq::empty());
    let keys = spec_parse_message_keys(r)->Ok_0;
    assert forall|x: Seq<char>| #[trigger] keys.contains(x) <==> spec_declared_from(ls, 0, x) by {
        assert(!Seq::<Seq<char>>::empty().contains(x));
    }
}

/// A key declared on two lines makes the resource fail with a duplicate key.
pub proof fn law_duplicate_key_rejected(r: ResourceView, k: Seq<char>, j1: int, j2: int)
    requires
        0 <= j1 < j2 < spec_lines(r.2).len(),
        spec_line_key(spec_lines(r.2)[j1]) == Some(k),
        spec_line_key(spec_lines(r.2)[j2]) == Some(k),
    ensures
        spec_parse_message_keys(r) is Err,
        spec_parse_message_keys(r)->Err_0 is DuplicateKey,
{
    lemma_scan_keys_duplicate(spec_lines(r.2), 0, Seq::empty(), k, j1, j2);
}

// ---------------------------------------------------------------------------
// Loading a resource into Fluent
// ---------------------------------------------------------------------------

/// Whether Fluent accepts a resource: it must parse, and in `Hard` mode it
/// must also go into an empty bundle without clashes.
pub open spec fn spec_validate_resource(r: ResourceView, mode: I18nCheckMode) -> Result<
    (),
    CheckErrorView,
> {
    if fluent_parse_errors(r.2).len() > 0 {
        Err(
            CheckErrorView::InvalidResource {
                locale: r.0,
                path: r.1,
                errors: fluent_parse_errors(r.2),
            },
        )
    } else if mode == I18nCheckMode::Hard && fluent_add_errors(Seq::empty(), r.2).len() > 0 {
        Err(
            CheckErrorView::InvalidResource {
                locale: r.0,
                path: r.1,
                errors: fluent_add_errors(Seq::empty(), r.2),
            },
        )
    } else {
        Ok(())
    }
}

pub open spec fn unit_result_view(r: Result<(), I18nCheckError>) -> Result<(), CheckErrorView> {
    match r {
        Ok(()) => Ok(()),
        Err(e) => Err(e@),
    }
}

/// Parses a resource with Fluent and, in `Hard` mode, adds it to a fresh
/// bundle of its locale.
pub fn validate_resource(resource: &BundleResource, mode: I18nCheckMode) -> (res: Result<
    (),
    I18nCheckError,
>)
    ensures
        unit_result_view(res) == spec_validate_resource(resource@, mode),
{
    let fluent_resource = match parse_resource(copy_str(resource.source)) {
        Ok(r) => r,
        Err(errors) => {
            return Err(
                I18nCheckError::InvalidResource {
                    locale: resource.locale,
                    path: resource.path,
                    errors,
                },
            );
        },
    };
    if mode == I18nCheckMode::Hard {
        let mut bundle = new_bundle(language_identifier(resource.locale));
        set_use_isolating(&mut bundle, false);
        match add_resource(&mut bundle, fluent_resource) {
            Ok(()) => {},
            Err(errors) => {
                return Err(
                    I18nCheckError::InvalidResource {
                        locale: resource.locale,
                        path: resource.path,
                        errors,
                    },
                );
            },
        }
    }
    Ok(())
}

// ---------------------------------------------------------------------------
// Keys by locale and file
// ---------------------------------------------------------------------------

/// File names with their sorted keys, sorted by file name (a
/// `BTreeMap<&str, BTreeSet<String>>`).
pub type PathKeys = Seq<(Seq<char>, Seq<Seq<char>>)>;

/// `m` with `path` mapped to `keys`: an existing entry for `path` is
/// replaced, otherwise the entry goes before the first larger file name.
pub open spec fn spec_insert_path(m: PathKeys, path: Seq<char>, keys: Seq<Seq<char>>) -> PathKeys
    decreases m.len(),
{
    if m.len() == 0 {
        seq![(path, keys)]
    } else if m[0].0 == path {
        seq![(path, keys)] + m.drop_first()
    } else if spec_str_lt(path, m[0].0) {
        seq![(path, keys)] + m
    } else {
        seq![m[0]] + spec_insert_path(m.drop_first(), path, keys)
    }
}

pub open spec fn path_keys_view(v: Seq<(&'static str, Vec<String>)>) -> PathKeys {
    v.map_values(|e: (&'static str, Vec<String>)| (e.0@, strings_view(e.1@)))
}

/// The keys of each file of each locale (a `BTreeMap` from locale to the
/// keys by file; English orders first).
pub struct ResourceKeysByLocale {
    pub en: Option<Vec<(&'static str, Vec<String>)>>,
    pub zh_cn: Option<Vec<(&'static str, Vec<String>)>>,
}

pub open spec fn slot_view(slot: Option<Vec<(&'static str, Vec<String>)>>) -> Option<PathKeys> {
    match slot {
        Some(v) => Some(path_keys_view(v@)),
        None => None,
    }
}

impl View for ResourceKeysByLocale {
    type V = (Option<PathKeys>, Option<PathKeys>);

    open spec fn view(&self) -> (Option<PathKeys>, Option<PathKeys>) {
        (slot_view(self.en), slot_view(self.zh_cn))
    }
}

proof fn lemma_insert_path_at(m: PathKeys, path: Seq<char>, keys: Seq<Seq<char>>, j: int)
    requires
        0 <= j <= m.len(),
        forall|k: int| 0 <= k < j ==> (#[trigger] m[k]).0 != path && !spec_str_lt(path, m[k].0),
    ensures
        j < m.len() && m[j].0 == path ==> spec_insert_path(m, path, keys) == m.take(j).push(
            (path, keys),
        ) + m.skip(j + 1),
        (j == m.len() || (m[j].0 != path && spec_str_lt(path, m[j].0))) ==> spec_insert_path(
            m,
            path,
            keys,
        ) == m.take(j).push((path, keys)) + m.skip(j),
    decreases j,
{
    if j == 0 {
        if m.len() > 0 {
            assert(m.take(0).push((path, keys)) + m.skip(1) =~= seq![(path, keys)]
                + m.drop_first());
        }
        assert(m.take(0).push((path, keys)) + m.skip(0) =~= seq![(path, keys)] + m);
    } else {
        assert forall|k: int| 0 <= k < j - 1 implies (#[trigger] m.drop_first()[k]).0 != path
            && !spec_str_lt(path, m.drop_first()[k].0) by {
            assert(m.drop_first()[k] == m[k + 1]);
        }
        lemma_insert_path_at(m.drop_first(), path, keys, j - 1);
        if j < m.len() {
            assert(m.take(j).push((path, keys)) + m.skip(j + 1) =~= seq![m[0]] + (
            m.drop_first().take(j - 1).push((path, keys)) + m.drop_first().skip(j)));
        }
        assert(m.take(j).push((path, keys)) + m.skip(j) =~= seq![m[0]] + (m.drop_first().take(
            j - 1,
        ).push((path, keys)) + m.drop_first().skip(j - 1)));
    }
}

/// Maps `path` to `keys` in a file map.
fn insert_path(m: &mut Vec<(&'static str, Vec<String>)>, path: &'static str, keys: Vec<String>)
    ensures
        path_keys_view(final(m)@) == spec_insert_path(path_keys_view(old(m)@), path@, strings_view(
            keys@,
        )),
{
    let pv = chars_of(path);
    let ghost s = path_keys_view(m@);
    let mut j: usize = 0;
    while j < m.len() && !chars_eq(&pv, &chars_of(m[j].0)) && !chars_lt(&pv, &chars_of(m[j].0))
        invariant
            j <= m@.len(),
            s == path_keys_view(m@),
            pv@ == path@,
            forall|k: int| 0 <= k < j ==> (#[trigger] s[k]).0 != path@ && !spec_str_lt(
                path@,
                s[k].0,
            ),
        decreases m@.len() - j,
    {
        j = j + 1;
    }
    proof {
        lemma_insert_path_at(s, path@, strings_view(keys@), j as int);
    }
    if j < m.len() && chars_eq(&pv, &chars_of(m[j].0)) {
        m.set(j, (path, keys));
        assert(path_keys_view(m@) =~= s.take(j as int).push((path@, strings_view(keys@))) + s.skip(
            j + 1,
        ));
    } else {
        m.insert(j, (path, keys));
        assert(path_keys_view(m@) =~= s.take(j as int).push((path@, strings_view(keys@))) + s.skip(
            j as int,
        ));
    }
}

/// The file map of a locale slot after mapping `path` to `keys` (creating
/// the slot when the locale has none yet).
pub open spec fn spec_slot_insert(slot: Option<PathKeys>, path: Seq<char>, keys: Seq<Seq<char>>) -> Option<
    PathKeys,
> {
    let m = match slot {
        Some(m) => m,
        None => Seq::empty(),
    };
    Some(spec_insert_path(m, path, keys))
}

fn slot_insert(
    slot: &mut Option<Vec<(&'static str, Vec<String>)>>,
    path: &'static str,
    keys: Vec<String>,
)
    ensures
        slot_view(*final(slot)) == spec_slot_insert(slot_view(*old(slot)), path@, strings_view(
            keys@,
        )),
{
    let mut m = match slot.take() {
        Some(m) => m,
        None => {
            let empty: Vec<(&'static str, Vec<String>)> = Vec::new();
            assert(path_keys_view(empty@) =~= Seq::<(Seq<char>, Seq<Seq<char>>)>::empty());
            empty
        },
    };
    insert_path(&mut m, path, keys);
    *slot = Some(m);
}

// ---------------------------------------------------------------------------
// Parity with English
// ---------------------------------------------------------------------------

/// The elements of `s` that `t` lacks, in the order of `s` (the iteration
/// of a `BTreeSet` difference).
pub open spec fn spec_minus(s: Seq<Seq<char>>, t: Seq<Seq<char>>) -> Seq<Seq<char>>
    decreases s.len(),
{
    if s.len() == 0 {
        Seq::empty()
    } else if t.contains(s.last()) {
        spec_minus(s.drop_last(), t)
    } else {
        spec_minus(s.drop_last(), t).push(s.last())
    }
}

pub open spec fn spec_paths(m: PathKeys) -> Seq<Seq<char>> {
    m.map_values(|e: (Seq<char>, Seq<Seq<char>>)| e.0)
}

/// Comparing the keys of each English file with the same file of the other
/// locale, from file `i` on: the first file whose keys differ.
pub open spec fn spec_key_parity_from(en: PathKeys, other: PathKeys, locale: Locale, i: int) -> Result<
    (),
    CheckErrorView,
>
    decreases en.len() - i,
{
    if i < 0 || i >= en.len() {
        Ok(())
    } else if en[i].1 != other[i].1 {
        Err(
            CheckErrorView::KeyParity {
                locale,
                path: en[i].0,
                missing_keys: spec_minus(en[i].1, other[i].1),
                extra_keys: spec_minus(other[i].1, en[i].1),
            },
        )
    } else {
        spec_key_parity_from(en, other, locale, i + 1)
    }
}

/// Every locale has English's files, and each file English's keys.
pub open spec fn spec_validate_key_parity(keys: (Option<PathKeys>, Option<PathKeys>)) -> Result<
    (),
    CheckErrorView,
> {
    match keys.0 {
        None => Err(CheckErrorView::MissingLocale(Locale::En)),
        Some(en) => match keys.1 {
            None => Err(CheckErrorView::MissingLocale(Locale::ZhCn)),
            Some(zh) => if spec_paths(en) != spec_paths(zh) {
                Err(
                    CheckErrorView::ResourceParity {
                        locale: Locale::ZhCn,
                        missing_paths: spec_minus(spec_paths(en), spec_paths(zh)),
                        extra_paths: spec_minus(spec_paths(zh), spec_paths(en)),
                    },
                )
            } else {
                spec_key_parity_from(en, zh, Locale::ZhCn, 0)
            },
        },
    }
}

/// The other locale has the same files as English, in the same order, each
/// with the same keys.
pub open spec fn spec_same_files_and_keys(en: PathKeys, other: PathKeys) -> bool {
    en.len() == other.len() && forall|i: int| 0 <= i < en.len() ==> #[trigger] en[i] == other[i]
}

proof fn lemma_key_parity_from_ok(en: PathKeys, other: PathKeys, locale: Locale, i: int)
    requires
        0 <= i <= en.len(),
        en.len() == other.len(),
    ensures
        spec_key_parity_from(en, other, locale, i) is Ok <==> forall|j: int|
            i <= j < en.len() ==> #[trigger] en[j].1 == other[j].1,
    decreases en.len() - i,
{
    if i < en.len() {
        lemma_key_parity_from_ok(en, other, locale, i + 1);
        if en[i].1 == other[i].1 {
            assert forall|j: int| i <= j < en.len() && (forall|k: int|
                i + 1 <= k < en.len() ==> #[trigger] en[k].1 == other[k].1) implies #[trigger] en[j].1
                == other[j].1 by {
                if j > i {
                    assert(en[j].1 == other[j].1);
                }
            }
        }
    }
}

/// The parity check passes exactly when both locales have resources and the
/// other locale has English's files, each with English's keys.
pub proof fn law_key_parity_means_same_keys(keys: (Option<PathKeys>, Option<PathKeys>))
    ensures
        spec_validate_key_parity(keys) is Ok <==> (match keys {
            (Some(en), Some(zh)) => spec_same_files_and_keys(en, zh),
            _ => false,
        }),
{
    match keys {
        (Some(en), Some(zh)) => {
            if spec_paths(en) == spec_paths(zh) {
                assert(en.len() == spec_paths(en).len());
                assert(zh.len() == spec_paths(zh).len());
                lemma_key_parity_from_ok(en, zh, Locale::ZhCn, 0);
                assert forall|i: int| 0 <= i < en.len() implies #[trigger] en[i].0 == zh[i].0 by {
                    assert(spec_paths(en)[i] == en[i].0);
                    assert(spec_paths(zh)[i] == zh[i].0);
                }
                if spec_validate_key_parity(keys) is Ok {
                    assert forall|i: int| 0 <= i < en.len() implies #[trigger] en[i] == zh[i] by {
                        assert(en[i].0 == zh[i].0);
                        assert(en[i].1 == zh[i].1);
                    }
                }
                if spec_same_files_and_keys(en, zh) {
                    assert forall|j: int| 0 <= j < en.len() implies #[trigger] en[j].1 == zh[j].1 by {
                        assert(en[j] == zh[j]);
                    }
                }
            } else if spec_same_files_and_keys(en, zh) {
                assert(spec_paths(en) =~= spec_paths(zh)) by {
                    assert forall|i: int| 0 <= i < spec_paths(en).len() implies spec_paths(en)[i]
                        == spec_paths(zh)[i] by {
                        assert(en[i] == zh[i]);
                    }
                }
            }
        },
        _ => {},
    }
}

/// Whether two key lists are equal.
fn keys_eq(a: &Vec<String>, b: &Vec<String>) -> (res: bool)
    ensures
        res == (strings_view(a@) == strings_view(b@)),
{
    if a.len() != b.len() {
        assert(strings_view(a@).len() != strings_view(b@).len());
        return false;
    }
    let mut i: usize = 0;
    while i < a.len()
        invariant
            i <= a@.len(),
            a@.len() == b@.len(),
            forall|m: int| 0 <= m < i ==> #[trigger] strings_view(a@)[m] == strings_view(b@)[m],
        decreases a@.len() - i,
    {
        if !chars_eq(&chars_of(a[i].as_str()), &chars_of(b[i].as_str())) {
            assert(strings_view(a@)[i as int] != strings_view(b@)[i as int]);
            return false;
        }
        i = i + 1;
    }
    assert(strings_view(a@) =~= strings_view(b@));
    true
}

/// The keys of `a` that `b` lacks, in order.
fn keys_minus(a: &Vec<String>, b: &Vec<String>) -> (res: Vec<String>)
    ensures
        strings_view(res@) == spec_minus(strings_view(a@), strings_view(b@)),
{
    let mut out: Vec<String> = Vec::new();
    let mut i: usize = 0;
    assert(strings_view(a@).take(0) =~= Seq::<Seq<char>>::empty());
    assert(strings_view(out@) =~= Seq::<Seq<char>>::empty());
    while i < a.len()
        invariant
            i <= a@.len(),
            strings_view(out@) == spec_minus(strings_view(a@).take(i as int), strings_view(b@)),
        decreases a@.len() - i,
    {
        let ghost prefix = strings_view(a@).take(i + 1);
        assert(prefix.drop_last() =~= strings_view(a@).take(i as int));
        let kv = chars_of(a[i].as_str());
        if !contains_key(b, &kv) {
            let ghost before = out@;
            let k = copy_str(a[i].as_str());
            out.push(k);
            assert(strings_view(out@) =~= strings_view(before).push(k@));
        }
        i = i + 1;
    }
    assert(strings_view(a@).take(a@.len() as int) =~= strings_view(a@));
    out
}

/// Whether a file list holds `p`.
fn contains_path(paths: &Vec<&'static str>, p: &Vec<char>) -> (res: bool)
    ensures
        res == paths_view(paths@).contains(p@),
{
    let mut i: usize = 0;
    while i < paths.len()
        invariant
            i <= paths@.len(),
            forall|m: int| 0 <= m < i ==> #[trigger] paths_view(paths@)[m] != p@,
        decreases paths@.len() - i,
    {
        if chars_eq(&chars_of(paths[i]), p) {
            assert(paths_view(paths@)[i as int] == p@);
            return true;
        }
        i = i + 1;
    }
    false
}

/// The file names of `a` that `b` lacks, in order.
fn paths_minus(a: &Vec<&'static str>, b: &Vec<&'static str>) -> (res: Vec<&'static str>)
    ensures
        paths_view(res@) == spec_minus(paths_view(a@), paths_view(b@)),
{
    let mut out: Vec<&'static str> = Vec::new();
    let mut i: usize = 0;
    assert(paths_view(a@).take(0) =~= Seq::<Seq<char>>::empty());
    assert(paths_view(out@) =~= Seq::<Seq<char>>::empty());
    while i < a.len()
        invariant
            i <= a@.len(),
            paths_view(out@) == spec_minus(paths_view(a@).take(i as int), paths_view(b@)),
        decreases a@.len() - i,
    {
        let ghost prefix = paths_view(a@).take(i + 1);
        assert(prefix.drop_last() =~= paths_view(a@).take(i as int));
        if !contains_path(b, &chars_of(a[i])) {
            let ghost before = out@;
            out.push(a[i]);
            assert(paths_view(out@) =~= paths_view(before).push(a@[i as int]@));
        }
        i = i + 1;
    }
    assert(paths_view(a@).take(a@.len() as int) =~= paths_view(a@));
    out
}

/// The file names of a file map, in order.
fn paths_of(m: &Vec<(&'static str, Vec<String>)>) -> (res: Vec<&'static str>)
    ensures
        paths_view(res@) == spec_paths(path_keys_view(m@)),
{
    let mut out: Vec<&'static str> = Vec::new();
    let mut i: usize = 0;
    while i < m.len()
        invariant
            i <= m@.len(),
            paths_view(out@) == spec_paths(path_keys_view(m@)).take(i as int),
        decreases m@.len() - i,
    {
        let ghost before = out@;
        out.push(m[i].0);
        assert(out@ == before.push(m@[i as int].0));
        let ghost pk = spec_paths(path_keys_view(m@));
        assert(pk[i as int] == m@[i as int].0@);
        assert(paths_view(out@) =~= paths_view(before).push(m@[i as int].0@));
        assert(pk.take(i + 1) =~= pk.take(i as int).push(pk[i as int]));
        i = i + 1;
    }
    assert(spec_paths(path_keys_view(m@)).take(m@.len() as int) =~= spec_paths(
        path_keys_view(m@),
    ));
    out
}

/// Whether two file lists are equal.
fn paths_eq(a: &Vec<&'static str>, b: &Vec<&'static str>) -> (res: bool)
    ensures
        res == (paths_view(a@) == paths_view(b@)),
{
    if a.len() != b.len() {
        assert(paths_view(a@).len() != paths_view(b@).len());
        return false;
    }
    let mut i: usize = 0;
    while i < a.len()
        invariant
            i <= a@.len(),
            a@.len() == b@.len(),
            forall|m: int| 0 <= m < i ==> #[trigger] paths_view(a@)[m] == paths_view(b@)[m],
        decreases a@.len() - i,
    {
        if !chars_eq(&chars_of(a[i]), &chars_of(b[i])) {
            assert(paths_view(a@)[i as int] != paths_view(b@)[i as int]);
            return false;
        }
        i = i + 1;
    }
    assert(paths_view(a@) =~= paths_view(b@));
    true
}

/// Checks that Chinese has the same files as English and each file the
/// same keys; reports the first difference.
pub fn validate_key_parity(keys: &ResourceKeysByLocale) -> (res: Result<(), I18nCheckError>)
    ensures
        unit_result_view(res) == spec_validate_key_parity(keys@),
{
    let en = match &keys.en {
        Some(e) => e,
        None => {
            return Err(I18nCheckError::MissingLocale(Locale::En));
        },
    };
    let zh = match &keys.zh_cn {
        Some(z) => z,
        None => {
            return Err(I18nCheckError::MissingLocale(Locale::ZhCn));
        },
    };
    let ghost env = path_keys_view(en@);
    let ghost zhv = path_keys_view(zh@);
    let en_paths = paths_of(en);
    let zh_paths = paths_of(zh);
    if !paths_eq(&en_paths, &zh_paths) {
        return Err(
            I18nCheckError::ResourceParity {
                locale: Locale::ZhCn,
                missing_paths: paths_minus(&en_paths, &zh_paths),
                extra_paths: paths_minus(&zh_paths, &en_paths),
            },
        );
    }
    assert(spec_paths(env).len() == spec_paths(zhv).len());
    assert(keys@.0 == Some(env));
    assert(keys@.1 == Some(zhv));
    assert(spec_paths(env) == spec_paths(zhv));
    assert(spec_validate_key_parity(keys@) == spec_key_parity_from(env, zhv, Locale::ZhCn, 0));
    let mut i: usize = 0;
    while i < en.len()
        invariant
            i <= en@.len(),
            en@.len() == zh@.len(),
            env == path_keys_view(en@),
            zhv == path_keys_view(zh@),
            spec_validate_key_parity(keys@) == spec_key_parity_from(env, zhv, Locale::ZhCn, 0),
            spec_key_parity_from(env, zhv, Locale::ZhCn, 0) == spec_key_parity_from(
                env,
                zhv,
                Locale::ZhCn,
                i as int,
            ),
        decreases en@.len() - i,
    {
        assert(env[i as int] == (en@[i as int].0@, strings_view(en@[i as int].1@)));
        assert(zhv[i as int] == (zh@[i as int].0@, strings_view(zh@[i as int].1@)));
        if !keys_eq(&en[i].1, &zh[i].1) {
            assert(env[i as int].1 != zhv[i as int].1);
            return Err(
                I18nCheckError::KeyParity {
                    locale: Locale::ZhCn,
                    path: en[i].0,
                    missing_keys: keys_minus(&en[i].1, &zh[i].1),
                    extra_keys: keys_minus(&zh[i].1, &en[i].1),
                },
            );
        }
        i = i + 1;
    }
    Ok(())
}

// ---------------------------------------------------------------------------
// The whole check
// ---------------------------------------------------------------------------

/// Going through the resources `rs` in order: each must be accepted by
/// Fluent and declare acceptable keys; the keys are collected by locale and
/// file, and counted. The first failure ends the scan.
pub open spec fn spec_collect_keys(rs: Seq<ResourceView>, mode: I18nCheckMode) -> Result<
    ((Option<PathKeys>, Option<PathKeys>), int),
    CheckErrorView,
>
    decreases rs.len(),
{
    if rs.len() == 0 {
        Ok(((None, None), 0))
    } else {
        match spec_collect_keys(rs.drop_last(), mode) {
            Err(e) => Err(e),
            Ok((by_locale, count)) => {
                let r = rs.last();
                match spec_validate_resource(r, mode) {
                    Err(e) => Err(e),
                    Ok(()) => match spec_parse_message_keys(r) {
                        Err(e) => Err(e),
                        Ok(keys) => if r.0 == Locale::En {
                            Ok(
                                (
                                    (spec_slot_insert(by_locale.0, r.1, keys), by_locale.1),
                                    count + keys.len(),
                                ),
                            )
                        } else {
                            Ok(
                                (
                                    (by_locale.0, spec_slot_insert(by_locale.1, r.1, keys)),
                                    count + keys.len(),
                                ),
                            )
                        },
                    },
                }
            },
        }
    }
}

/// Whether the options ask for the parity check.
pub open spec fn spec_checks_parity(options: I18nCheckOptions) -> bool {
    options.check_parity || options.mode == I18nCheckMode::Hard
}

/// The number of locales that have resources.
pub open spec fn spec_locale_count(by_locale: (Option<PathKeys>, Option<PathKeys>)) -> int {
    (if by_locale.0 is Some {
        1int
    } else {
        0int
    }) + (if by_locale.1 is Some {
        1int
    } else {
        0int
    })
}

/// The outcome of checking the resources `rs`: the counts `(locales,
/// resources, messages)`, or the first failure.
pub open spec fn spec_check_resources(rs: Seq<ResourceView>, options: I18nCheckOptions) -> Result<
    (int, int, int),
    CheckErrorView,
> {
    match spec_collect_keys(rs, options.mode) {
        Err(e) => Err(e),
        Ok((by_locale, count)) => {
            let report = (spec_locale_count(by_locale), rs.len() as int, count);
            if spec_checks_parity(options) {
                match spec_validate_key_parity(by_locale) {
                    Err(e) => Err(e),
                    Ok(()) => Ok(report),
                }
            } else {
                Ok(report)
            }
        },
    }
}

pub open spec fn report_result_view(r: Result<I18nCheckReport, I18nCheckError>) -> Result<
    (int, int, int),
    CheckErrorView,
> {
    match r {
        Ok(report) => Ok(
            (
                report.locale_count as int,
                report.resource_count as int,
                report.message_count as int,
            ),
        ),
        Err(e) => Err(e@),
    }
}

proof fn lemma_collect_prefix_err(rs: Seq<ResourceView>, mode: I18nCheckMode, n: int, e: CheckErrorView)
    requires
        0 <= n <= rs.len(),
        spec_collect_keys(rs.take(n), mode) == Err::<
            ((Option<PathKeys>, Option<PathKeys>), int),
            CheckErrorView,
        >(e),
    ensures
        spec_collect_keys(rs, mode) == Err::<
            ((Option<PathKeys>, Option<PathKeys>), int),
            CheckErrorView,
        >(e),
    decreases rs.len() - n,
{
    if n < rs.len() {
        assert(rs.take(n + 1).drop_last() =~= rs.take(n));
        lemma_collect_prefix_err(rs, mode, n + 1, e);
    } else {
        assert(rs.take(n) =~= rs);
    }
}

/// Checks the bundled resources: each parses (and, in `Hard` mode, loads
/// into a bundle), declares each key once and at least one key; with
/// `check_parity` or in `Hard` mode, every locale must also match English
/// file by file and key by key.
pub fn check_bundles(options: I18nCheckOptions) -> (res: Result<I18nCheckReport, I18nCheckError>)
    ensures
        report_result_view(res) == spec_check_resources(spec_bundled_resources(), options),
{
    let resources = bundled_resources();
    let ghost rs = spec_bundled_resources();
    proof {
        lemma_bundled_sources_short();
    }
    let mut by_locale = ResourceKeysByLocale { en: None, zh_cn: None };
    let mut message_count: usize = 0;
    let mut i: usize = 0;
    assert(rs.take(0) =~= Seq::<ResourceView>::empty());
    while i < resources.len()
        invariant
            i <= resources@.len(),
            rs == spec_bundled_resources(),
            resources_view(resources@) == rs,
            forall|k: int| 0 <= k < rs.len() ==> (#[trigger] rs[k]).2.len() < 4096,
            message_count <= i * 4096,
            spec_collect_keys(rs.take(i as int), options.mode) == Ok::<
                ((Option<PathKeys>, Option<PathKeys>), int),
                CheckErrorView,
            >((by_locale@, message_count as int)),
        decreases resources@.len() - i,
    {
        let resource = resources[i];
        assert(rs.take(i + 1).drop_last() =~= rs.take(i as int));
        assert(rs.take(i + 1).last() == resource@);
        assert(rs[i as int] == resource@);
        match validate_resource(&resource, options.mode) {
            Ok(()) => {},
            Err(e) => {
                proof {
                    lemma_collect_prefix_err(rs, options.mode, i + 1, e@);
                }
                return Err(e);
            },
        }
        let keys = match parse_message_keys(&resource) {
            Ok(keys) => keys,
            Err(e) => {
                proof {
                    lemma_collect_prefix_err(rs, options.mode, i + 1, e@);
                }
                return Err(e);
            },
        };
        message_count = message_count + keys.len();
        if resource.locale == Locale::En {
            slot_insert(&mut by_locale.en, resource.path, keys);
        } else {
            slot_insert(&mut by_locale.zh_cn, resource.path, keys);
        }
        i = i + 1;
    }
    assert(rs.take(i as int) =~= rs);
    if options.check_parity || options.mode == I18nCheckMode::Hard {
        match validate_key_parity(&by_locale) {
            Ok(()) => {},
            Err(e) => {
                return Err(e);
            },
        }
    }
    let locale_count: usize = (if by_locale.en.is_some() {
        1usize
    } else {
        0usize
    }) + (if by_locale.zh_cn.is_some() {
        1usize
    } else {
        0usize
    });
    Ok(I18nCheckReport { locale_count, resource_count: resources.len(), message_count })
}

/// A check that passes with the parity check on leaves English and Chinese
/// with the same files, each declaring the same keys; with it off, only the
/// resources themselves are checked.
pub proof fn law_passing_check_has_parity(rs: Seq<ResourceView>, options: I18nCheckOptions)
    requires
        spec_check_resources(rs, options) is Ok,
    ensures
        spec_collect_keys(rs, options.mode) is Ok,
        spec_checks_parity(options) ==> (match spec_collect_keys(rs, options.mode)->Ok_0.0 {
            (Some(en), Some(zh)) => spec_same_files_and_keys(en, zh),
            _ => false,
        }),
{
    let by_locale = spec_collect_keys(rs, options.mode)->Ok_0.0;
    law_key_parity_means_same_keys(by_locale);
}

/// Why a single resource is refused, if it is: Fluent's rejection first,
/// then a problem with its keys.
pub open spec fn spec_resource_error(r: ResourceView, mode: I18nCheckMode) -> Option<CheckErrorView> {
    match spec_validate_resource(r, mode) {
        Err(e) => Some(e),
        Ok(()) => match spec_parse_message_keys(r) {
            Err(e) => Some(e),
            Ok(_) => None,
        },
    }
}

/// The number of keys the resources declare, file by file.
pub open spec fn spec_total_keys(rs: Seq<ResourceView>) -> int
    decreases rs.len(),
{
    if rs.len() == 0 {
        0
    } else {
        spec_total_keys(rs.drop_last()) + spec_parse_message_keys(rs.last())->Ok_0.len()
    }
}

/// Whether some resource belongs to `locale`.
pub open spec fn spec_has_locale(rs: Seq<ResourceView>, locale: Locale) -> bool {
    exists|j: int| 0 <= j < rs.len() && (#[trigger] rs[j]).0 == locale
}

/// Collecting succeeds exactly when no resource is refused; it then counts
/// every key and has a slot for exactly the locales that have resources.
proof fn lemma_collect_keys_ok(rs: Seq<ResourceView>, mode: I18nCheckMode)
    ensures
        spec_collect_keys(rs, mode) is Ok <==> forall|j: int|
            0 <= j < rs.len() ==> spec_resource_error(#[trigger] rs[j], mode) is None,
        spec_collect_keys(rs, mode) is Ok ==> {
            let (by_locale, count) = spec_collect_keys(rs, mode)->Ok_0;
            &&& count == spec_total_keys(rs)
            &&& (by_locale.0 is Some <==> spec_has_locale(rs, Locale::En))
            &&& (by_locale.1 is Some <==> spec_has_locale(rs, Locale::ZhCn))
        },
    decreases rs.len(),
{
    if rs.len() > 0 {
        let init = rs.drop_last();
        lemma_collect_keys_ok(init, mode);
        assert forall|j: int| 0 <= j < init.len() implies #[trigger] init[j] == rs[j] by {}
        if spec_collect_keys(rs, mode) is Ok {
            assert forall|j: int| 0 <= j < rs.len() implies spec_resource_error(
                #[trigger] rs[j],
                mode,
            ) is None by {
                if j < init.len() {
                    assert(init[j] == rs[j]);
                }
            }
            assert(spec_has_locale(rs, Locale::En) <==> spec_has_locale(init, Locale::En)
                || rs.last().0 == Locale::En) by {
                if spec_has_locale(rs, Locale::En) {
                    let j = choose|j: int| 0 <= j < rs.len() && (#[trigger] rs[j]).0 == Locale::En;
                    if j < init.len() {
                        assert(init[j] == rs[j]);
                    }
                }
                if spec_has_locale(init, Locale::En) {
                    let j = choose|j: int| 0 <= j < init.len() && (#[trigger] init[j]).0
                        == Locale::En;
                    assert(rs[j] == init[j]);
                }
                if rs.last().0 == Locale::En {
                    assert(rs[rs.len() - 1].0 == Locale::En);
                }
            }
            assert(spec_has_locale(rs, Locale::ZhCn) <==> spec_has_locale(init, Locale::ZhCn)
                || rs.last().0 == Locale::ZhCn) by {
                if spec_has_locale(rs, Locale::ZhCn) {
                    let j = choose|j: int| 0 <= j < rs.len() && (#[trigger] rs[j]).0
                        == Locale::ZhCn;
                    if j < init.len() {
                        assert(init[j] == rs[j]);
                    }
                }
                if spec_has_locale(init, Locale::ZhCn) {
                    let j = choose|j: int| 0 <= j < init.len() && (#[trigger] init[j]).0
                        == Locale::ZhCn;
                    assert(rs[j] == init[j]);
                }
                if rs.last().0 == Locale::ZhCn {
                    assert(rs[rs.len() - 1].0 == Locale::ZhCn);
                }
            }
        } else {
            if forall|j: int| 0 <= j < rs.len() ==> spec_resource_error(#[trigger] rs[j], mode)
                is None {
                assert(spec_resource_error(rs[rs.len() - 1], mode) is None);
                assert forall|j: int| 0 <= j < init.len() implies spec_resource_error(
                    #[trigger] init[j],
                    mode,
                ) is None by {
                    assert(init[j] == rs[j]);
                    assert(spec_resource_error(rs[j], mode) is None);
                }
            }
        }
    } else {
        assert(!spec_has_locale(rs, Locale::En));
        assert(!spec_has_locale(rs, Locale::ZhCn));
    }
}

/// When resource `i` is the first one refused, collecting fails with its
/// error.
proof fn lemma_collect_keys_first_error(rs: Seq<ResourceView>, mode: I18nCheckMode, i: int)
    requires
        0 <= i < rs.len(),
        spec_resource_error(rs[i], mode) is Some,
        forall|j: int| 0 <= j < i ==> spec_resource_error(#[trigger] rs[j], mode) is None,
    ensures
        spec_collect_keys(rs, mode) == Err::<((Option<PathKeys>, Option<PathKeys>), int), CheckErrorView>(
            spec_resource_error(rs[i], mode)->0,
        ),
    decreases rs.len(),
{
    let init = rs.drop_last();
    if i == rs.len() - 1 {
        assert forall|j: int| 0 <= j < init.len() implies spec_resource_error(
            #[trigger] init[j],
            mode,
        ) is None by {
            assert(init[j] == rs[j]);
        }
        lemma_collect_keys_ok(init, mode);
    } else {
        assert(init[i] == rs[i]);
        assert forall|j: int| 0 <= j < i implies spec_resource_error(#[trigger] init[j], mode)
            is None by {
            assert(init[j] == rs[j]);
        }
        lemma_collect_keys_first_error(init, mode, i);
    }
}

/// The check passes exactly when every resource is accepted by Fluent and
/// declares acceptable keys, and, when parity is asked for, the collected
/// keys have parity. A passing check reports the number of locales that have
/// resources, the number of resources and the number of keys they declare.
pub proof fn law_check_outcome(rs: Seq<ResourceView>, options: I18nCheckOptions)
    ensures
        spec_check_resources(rs, options) is Ok <==> (forall|j: int|
            0 <= j < rs.len() ==> spec_resource_error(#[trigger] rs[j], options.mode) is None) && (
        spec_checks_parity(options) ==> spec_validate_key_parity(
            spec_collect_keys(rs, options.mode)->Ok_0.0,
        ) is Ok),
        spec_check_resources(rs, options) is Ok ==> spec_check_resources(rs, options)->Ok_0 == (
            (if spec_has_locale(rs, Locale::En) {
                1int
            } else {
                0int
            }) + (if spec_has_locale(rs, Locale::ZhCn) {
                1int
            } else {
                0int
            }),
            rs.len() as int,
            spec_total_keys(rs),
        ),
{
    lemma_collect_keys_ok(rs, options.mode);
}

/// A refused resource fails the check with its own error when no earlier
/// resource is refused, before any parity check.
pub proof fn law_check_reports_first_failure(
    rs: Seq<ResourceView>,
    options: I18nCheckOptions,
    i: int,
)
    requires
        0 <= i < rs.len(),
        spec_resource_error(rs[i], options.mode) is Some,
        forall|j: int| 0 <= j < i ==> spec_resource_error(#[trigger] rs[j], options.mode) is None,
    ensures
        spec_check_resources(rs, options) == Err::<(int, int, int), CheckErrorView>(
            spec_resource_error(rs[i], options.mode)->0,
        ),
{
    lemma_collect_keys_first_error(rs, options.mode, i);
}

/// What Fluent accepts in `Hard` mode it accepts in every mode, and the keys
/// collected do not depend on the mode.
proof fn lemma_collect_keys_hard_covers(rs: Seq<ResourceView>, mode: I18nCheckMode)
    requires
        spec_collect_keys(rs, I18nCheckMode::Hard) is Ok,
    ensures
        spec_collect_keys(rs, mode) == spec_collect_keys(rs, I18nCheckMode::Hard),
    decreases rs.len(),
{
    if rs.len() > 0 {
        lemma_collect_keys_hard_covers(rs.drop_last(), mode);
    }
}

/// Once the strictest check (`Hard`, with parity) passes, every choice of
/// options passes with the same report.
pub proof fn law_report_independent_of_options(rs: Seq<ResourceView>, options: I18nCheckOptions)
    requires
        spec_check_resources(
            rs,
            I18nCheckOptions { check_parity: true, mode: I18nCheckMode::Hard },
        ) is Ok,
    ensures
        spec_check_resources(rs, options) == spec_check_resources(
            rs,
            I18nCheckOptions { check_parity: true, mode: I18nCheckMode::Hard },
        ),
{
    lemma_collect_keys_hard_covers(rs, options.mode);
}

} // verus!

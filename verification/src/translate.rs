//! Looking up translations in the bundled resources, with fallback to
//! English.

use vstd::prelude::*;
use fluent_bundle::FluentArgs;
use unic_langid::LanguageIdentifier;
use crate::fluent::{
    add_resource, args_view, debug_string_list, fluent_args_entries, debug_strings, fluent_add_errors,
    fluent_bundle_isolating, fluent_bundle_locales, fluent_bundle_resources, fluent_format,
    fluent_has_message, fluent_message_has_value, fluent_parse_errors, format_pattern,
    get_message, langid_tag, message_value, new_args, new_bundle, parse_language_identifier,
    parse_resource, set_arg, set_use_isolating, strings_view, Bundle,
};
use crate::locale::{current_locale, spec_locale_code, Locale, LocaleContext};
use crate::resources::{
    resources_for_locale, resources_view, spec_bundled_resources, spec_resources_of, ResourceView,
};
use crate::text::{copy_str, push_str};

verus! {

/// The language identifier of a supported locale.
pub fn language_identifier(locale: Locale) -> (res: LanguageIdentifier)
    ensures
        langid_tag(res) == spec_locale_code(locale),
{
    let id = parse_language_identifier(locale.code());
    id.unwrap()
}

// ---------------------------------------------------------------------------
// Errors
// ---------------------------------------------------------------------------

/// A bundled resource that Fluent rejected.
#[derive(Debug)]
pub enum BundleError {
    Parse { path: &'static str, errors: Vec<String> },
    AddResource { path: &'static str, errors: Vec<String> },
}

pub enum BundleErrorView {
    Parse { path: Seq<char>, errors: Seq<Seq<char>> },
    AddResource { path: Seq<char>, errors: Seq<Seq<char>> },
}

impl View for BundleError {
    type V = BundleErrorView;

    open spec fn view(&self) -> BundleErrorView {
        match self {
            BundleError::Parse { path, errors } => BundleErrorView::Parse {
                path: path@,
                errors: strings_view(errors@),
            },
            BundleError::AddResource { path, errors } => BundleErrorView::AddResource {
                path: path@,
                errors: strings_view(errors@),
            },
        }
    }
}

/// Why a translation could not be produced.
#[derive(Debug)]
pub enum TranslationError {
    InvalidBundle { locale: Locale, source: Box<BundleError> },
    MissingMessage {
        locale: Locale,
        key: String,
        fallback_error: Option<Box<TranslationError>>,
    },
    MissingValue { locale: Locale, key: String },
    Format { locale: Locale, key: String, errors: Vec<String> },
}

pub enum TranslationErrorView {
    InvalidBundle { locale: Locale, source: BundleErrorView },
    MissingMessage {
        locale: Locale,
        key: Seq<char>,
        fallback_error: Option<Box<TranslationErrorView>>,
    },
    MissingValue { locale: Locale, key: Seq<char> },
    Format { locale: Locale, key: Seq<char>, errors: Seq<Seq<char>> },
}

pub open spec fn translation_error_view(e: TranslationError) -> TranslationErrorView
    decreases e,
{
    match e {
        TranslationError::InvalidBundle { locale, source } => TranslationErrorView::InvalidBundle {
            locale,
            source: (*source)@,
        },
        TranslationError::MissingMessage { locale, key, fallback_error } => {
            let fallback = match fallback_error {
                Some(b) => Some(Box::new(translation_error_view(*b))),
                None => None,
            };
            TranslationErrorView::MissingMessage { locale, key: key@, fallback_error: fallback }
        },
        TranslationError::MissingValue { locale, key } => TranslationErrorView::MissingValue {
            locale,
            key: key@,
        },
        TranslationError::Format { locale, key, errors } => TranslationErrorView::Format {
            locale,
            key: key@,
            errors: strings_view(errors@),
        },
    }
}

impl View for TranslationError {
    type V = TranslationErrorView;

    open spec fn view(&self) -> TranslationErrorView {
        translation_error_view(*self)
    }
}

/// The text of a bundle error.
pub open spec fn spec_bundle_error_message(e: BundleErrorView) -> Seq<char> {
    match e {
        BundleErrorView::Parse { path, errors } => "failed to parse `"@ + path + "`: "@
            + debug_string_list(errors),
        BundleErrorView::AddResource { path, errors } => "failed to add `"@ + path
            + "` to bundle: "@ + debug_string_list(errors),
    }
}

/// The text of a translation error.
pub open spec fn spec_translation_error_message(e: TranslationErrorView) -> Seq<char> {
    match e {
        TranslationErrorView::InvalidBundle { locale, .. } => "invalid "@ + spec_locale_code(
            locale,
        ) + " translation bundle"@,
        TranslationErrorView::MissingMessage { locale, key, .. } => "missing "@
            + spec_locale_code(locale) + " translation for key `"@ + key + "`"@,
        TranslationErrorView::MissingValue { locale, key } => "missing value for "@
            + spec_locale_code(locale) + " translation key `"@ + key + "`"@,
        TranslationErrorView::Format { locale, key, errors } => "failed to format "@
            + spec_locale_code(locale) + " translation key `"@ + key + "`: "@ + debug_string_list(
            errors,
        ),
    }
}

impl BundleError {
    /// The error's text.
    pub fn message(&self) -> (res: String)
        ensures
            res@ == spec_bundle_error_message(self@),
    {
        match self {
            BundleError::Parse { path, errors } => {
                let mut s = String::from_str("failed to parse `");
                push_str(&mut s, path);
                push_str(&mut s, "`: ");
                let d = debug_strings(errors);
                push_str(&mut s, d.as_str());
                s
            },
            BundleError::AddResource { path, errors } => {
                let mut s = String::from_str("failed to add `");
                push_str(&mut s, path);
                push_str(&mut s, "` to bundle: ");
                let d = debug_strings(errors);
                push_str(&mut s, d.as_str());
                s
            },
        }
    }
}

impl TranslationError {
    /// The error's text, e.g. ``missing en translation for key `app-name` ``.
    pub fn message(&self) -> (res: String)
        ensures
            res@ == spec_translation_error_message(self@),
    {
        match self {
            TranslationError::InvalidBundle { locale, .. } => {
                let mut s = String::from_str("invalid ");
                push_str(&mut s, locale.code());
                push_str(&mut s, " translation bundle");
                s
            },
            TranslationError::MissingMessage { locale, key, .. } => {
                let mut s = String::from_str("missing ");
                push_str(&mut s, locale.code());
                push_str(&mut s, " translation for key `");
                push_str(&mut s, key.as_str());
                push_str(&mut s, "`");
                s
            },
            TranslationError::MissingValue { locale, key } => {
                let mut s = String::from_str("missing value for ");
                push_str(&mut s, locale.code());
                push_str(&mut s, " translation key `");
                push_str(&mut s, key.as_str());
                push_str(&mut s, "`");
                s
            },
            TranslationError::Format { locale, key, errors } => {
                let mut s = String::from_str("failed to format ");
                push_str(&mut s, locale.code());
                push_str(&mut s, " translation key `");
                push_str(&mut s, key.as_str());
                push_str(&mut s, "`: ");
                let d = debug_strings(errors);
                push_str(&mut s, d.as_str());
                s
            },
        }
    }
}

// ---------------------------------------------------------------------------
// Building bundles
// ---------------------------------------------------------------------------

/// Adding the resources `rs` one after the other to an empty bundle: the
/// texts the bundle then holds, or the first resource Fluent rejects.
pub open spec fn spec_build_from(rs: Seq<ResourceView>) -> Result<Seq<Seq<char>>, BundleErrorView>
    decreases rs.len(),
{
    if rs.len() == 0 {
        Ok(Seq::empty())
    } else {
        match spec_build_from(rs.drop_last()) {
            Err(e) => Err(e),
            Ok(sources) => {
                let r = rs.last();
                if fluent_parse_errors(r.2).len() > 0 {
                    Err(BundleErrorView::Parse { path: r.1, errors: fluent_parse_errors(r.2) })
                } else if fluent_add_errors(sources, r.2).len() > 0 {
                    Err(
                        BundleErrorView::AddResource {
                            path: r.1,
                            errors: fluent_add_errors(sources, r.2),
                        },
                    )
                } else {
                    Ok(sources.push(r.2))
                }
            },
        }
    }
}

/// The bundle of a locale: the texts of its resources, or why Fluent
/// rejected one of them.
pub open spec fn spec_build_bundle(locale: Locale) -> Result<Seq<Seq<char>>, BundleErrorView> {
    spec_build_from(spec_resources_of(spec_bundled_resources(), locale))
}

/// Builds the Fluent bundle of a locale from its bundled resources, without
/// isolation marks around placeables.
pub fn build_bundle(locale: Locale) -> (res: Result<Bundle, BundleError>)
    ensures
        match res {
            Ok(b) => spec_build_bundle(locale) == Ok::<Seq<Seq<char>>, BundleErrorView>(
                fluent_bundle_resources(b),
            ) && fluent_bundle_locales(b) == seq![spec_locale_code(locale)]
                && !fluent_bundle_isolating(b),
            Err(e) => spec_build_bundle(locale) == Err::<Seq<Seq<char>>, BundleErrorView>(e@),
        },
{
    let id = language_identifier(locale);
    let mut bundle = new_bundle(id);
    set_use_isolating(&mut bundle, false);
    let resources = resources_for_locale(locale);
    let ghost rs = spec_resources_of(spec_bundled_resources(), locale);
    let mut i: usize = 0;
    assert(resources_view(resources@).take(0) =~= Seq::<ResourceView>::empty());
    while i < resources.len()
        invariant
            i <= resources@.len(),
            rs == spec_resources_of(spec_bundled_resources(), locale),
            resources_view(resources@) == rs,
            spec_build_from(rs.take(i as int)) == Ok::<Seq<Seq<char>>, BundleErrorView>(
                fluent_bundle_resources(bundle),
            ),
            fluent_bundle_locales(bundle) == seq![spec_locale_code(locale)],
            !fluent_bundle_isolating(bundle),
        decreases resources@.len() - i,
    {
        let resource = resources[i];
        assert(rs.take(i + 1).drop_last() =~= rs.take(i as int));
        assert(rs.take(i + 1).last() == resource@);
        let parsed = parse_resource(copy_str(resource.source));
        match parsed {
            Err(errors) => {
                let e = BundleError::Parse { path: resource.path, errors };
                proof {
                    lemma_build_from_prefix_err(rs, i as int + 1, e@);
                }
                return Err(e);
            },
            Ok(fluent_resource) => {
                match add_resource(&mut bundle, fluent_resource) {
                    Err(errors) => {
                        let e = BundleError::AddResource { path: resource.path, errors };
                        proof {
                            lemma_build_from_prefix_err(rs, i as int + 1, e@);
                        }
                        return Err(e);
                    },
                    Ok(()) => {},
                }
            },
        }
        i = i + 1;
    }
    assert(rs.take(i as int) =~= rs);
    Ok(bundle)
}

/// Once a prefix of the resources fails, building from all of them fails the
/// same way.
proof fn lemma_build_from_prefix_err(rs: Seq<ResourceView>, n: int, e: BundleErrorView)
    requires
        0 <= n <= rs.len(),
        spec_build_from(rs.take(n)) == Err::<Seq<Seq<char>>, BundleErrorView>(e),
    ensures
        spec_build_from(rs) == Err::<Seq<Seq<char>>, BundleErrorView>(e),
    decreases rs.len() - n,
{
    if n < rs.len() {
        assert(rs.take(n + 1).drop_last() =~= rs.take(n));
        lemma_build_from_prefix_err(rs, n + 1, e);
    } else {
        assert(rs.take(n) =~= rs);
    }
}

// ---------------------------------------------------------------------------
// Translating
// ---------------------------------------------------------------------------

/// Translating `key` with the resources of one locale only.
pub open spec fn spec_translate_from_locale(
    locale: Locale,
    key: Seq<char>,
    args: Option<Map<Seq<char>, Seq<char>>>,
) -> Result<Seq<char>, TranslationErrorView> {
    match spec_build_bundle(locale) {
        Err(e) => Err(TranslationErrorView::InvalidBundle { locale, source: e }),
        Ok(resources) => if !fluent_has_message(resources, key) {
            Err(TranslationErrorView::MissingMessage { locale, key, fallback_error: None })
        } else if !fluent_message_has_value(resources, key) {
            Err(TranslationErrorView::MissingValue { locale, key })
        } else {
            let formatted = fluent_format(
                seq![spec_locale_code(locale)],
                false,
                resources,
                (resources, key),
                args,
            );
            if formatted.1.len() == 0 {
                Ok(formatted.0)
            } else {
                Err(TranslationErrorView::Format { locale, key, errors: formatted.1 })
            }
        },
    }
}

/// Translating `key` in `locale`, falling back to English: a locale other
/// than English that cannot translate the key uses the English text, and
/// when English cannot either the error names the locale and carries the
/// locale's own failure.
pub open spec fn spec_try_translate(
    locale: Locale,
    key: Seq<char>,
    args: Option<Map<Seq<char>, Seq<char>>>,
) -> Result<Seq<char>, TranslationErrorView> {
    match spec_translate_from_locale(locale, key, args) {
        Ok(v) => Ok(v),
        Err(e) => if locale != Locale::En {
            match spec_translate_from_locale(Locale::En, key, args) {
                Ok(v) => Ok(v),
                Err(_) => Err(
                    TranslationErrorView::MissingMessage {
                        locale,
                        key,
                        fallback_error: Some(Box::new(e)),
                    },
                ),
            }
        } else {
            Err(e)
        },
    }
}

/// The text shown for `key`: its translation, or the key itself.
pub open spec fn spec_tr(
    locale: Locale,
    key: Seq<char>,
    args: Option<Map<Seq<char>, Seq<char>>>,
) -> Seq<char> {
    match spec_try_translate(locale, key, args) {
        Ok(v) => v,
        Err(_) => key,
    }
}

pub open spec fn result_view(r: Result<String, TranslationError>) -> Result<
    Seq<char>,
    TranslationErrorView,
> {
    match r {
        Ok(s) => Ok(s@),
        Err(e) => Err(e@),
    }
}

/// Translates `key` with the resources of `locale` alone.
fn translate_from_locale(locale: Locale, key: &str, args: Option<&FluentArgs>) -> (res: Result<
    String,
    TranslationError,
>)
    ensures
        result_view(res) == spec_translate_from_locale(locale, key@, args_view(args)),
{
    let bundle = match build_bundle(locale) {
        Ok(b) => b,
        Err(source) => {
            return Err(TranslationError::InvalidBundle { locale, source: Box::new(source) });
        },
    };
    let message = match get_message(&bundle, key) {
        Some(m) => m,
        None => {
            return Err(
                TranslationError::MissingMessage { locale, key: copy_str(key), fallback_error: None },
            );
        },
    };
    let pattern = match message_value(&message) {
        Some(p) => p,
        None => {
            return Err(TranslationError::MissingValue { locale, key: copy_str(key) });
        },
    };
    let (value, errors) = format_pattern(&bundle, pattern, args);
    if errors.len() == 0 {
        Ok(value)
    } else {
        Err(TranslationError::Format { locale, key: copy_str(key), errors })
    }
}

/// Translates `key` in `locale` with optional arguments, falling back to
/// English.
pub fn try_translate_with_args(locale: Locale, key: &str, args: Option<&FluentArgs>) -> (res:
    Result<String, TranslationError>)
    ensures
        result_view(res) == spec_try_translate(locale, key@, args_view(args)),
{
    match translate_from_locale(locale, key, args) {
        Ok(value) => Ok(value),
        Err(error) => {
            if locale != Locale::En {
                match translate_from_locale(Locale::En, key, args) {
                    Ok(value) => Ok(value),
                    Err(_) => Err(
                        TranslationError::MissingMessage {
                            locale,
                            key: copy_str(key),
                            fallback_error: Some(Box::new(error)),
                        },
                    ),
                }
            } else {
                Err(error)
            }
        },
    }
}

/// Translates `key` in `locale`, falling back to English.
pub fn try_translate_in_locale(locale: Locale, key: &str) -> (res: Result<String, TranslationError>)
    ensures
        result_view(res) == spec_try_translate(locale, key@, None),
{
    try_translate_with_args(locale, key, None)
}

/// Translates `key` in the current locale, falling back to English.
pub fn try_translate(ctx: &LocaleContext, key: &str) -> (res: Result<String, TranslationError>)
    ensures
        result_view(res) == spec_try_translate(ctx.current_spec(), key@, None),
{
    try_translate_in_locale(current_locale(ctx), key)
}

/// The text for `key` in `locale`: its translation, or the key itself when
/// there is none.
pub fn tr_in_locale(locale: Locale, key: &str) -> (res: String)
    ensures
        res@ == spec_tr(locale, key@, None),
{
    match try_translate_in_locale(locale, key) {
        Ok(value) => value,
        Err(_) => copy_str(key),
    }
}

/// The text for `key` in the current locale.
pub fn tr(ctx: &LocaleContext, key: &str) -> (res: String)
    ensures
        res@ == spec_tr(ctx.current_spec(), key@, None),
{
    tr_in_locale(current_locale(ctx), key)
}

/// The arguments map that setting each `(name, value)` pair in turn gives;
/// a later pair replaces an earlier one with the same name.
pub open spec fn spec_args_map(args: Seq<(&str, &str)>) -> Map<Seq<char>, Seq<char>>
    decreases args.len(),
{
    if args.len() == 0 {
        Map::empty()
    } else {
        spec_args_map(args.drop_last()).insert(args.last().0@, args.last().1@)
    }
}

/// The text for `key` in `locale` with the given arguments, or the key
/// itself when there is none.
pub fn tr_with_args_in_locale(locale: Locale, key: &str, args: &[(&str, &str)]) -> (res: String)
    ensures
        res@ == spec_tr(locale, key@, Some(spec_args_map(args@))),
{
    let mut fluent_args = new_args();
    let mut i: usize = 0;
    while i < args.len()
        invariant
            i <= args@.len(),
            fluent_args_entries(fluent_args) == spec_args_map(args@.take(i as int)),
        decreases args@.len() - i,
    {
        let (name, value) = args[i];
        assert(args@.take(i + 1).drop_last() =~= args@.take(i as int));
        set_arg(&mut fluent_args, name, value);
        i = i + 1;
    }
    assert(args@.take(args@.len() as int) =~= args@);
    match try_translate_with_args(locale, key, Some(&fluent_args)) {
        Ok(value) => value,
        Err(_) => copy_str(key),
    }
}

/// The text for `key` in the current locale with the given arguments.
pub fn tr_with_args(ctx: &LocaleContext, key: &str, args: &[(&str, &str)]) -> (res: String)
    ensures
        res@ == spec_tr(ctx.current_spec(), key@, Some(spec_args_map(args@))),
{
    tr_with_args_in_locale(current_locale(ctx), key, args)
}

/// The text for a key written in the source, in the current locale.
pub fn translate_static(ctx: &LocaleContext, key: &'static str) -> (res: String)
    ensures
        res@ == spec_tr(ctx.current_spec(), key@, None),
{
    tr(ctx, key)
}

/// The text for a key written in the source, in `locale`.
pub fn translate_static_in_locale(locale: Locale, key: &'static str) -> (res: String)
    ensures
        res@ == spec_tr(locale, key@, None),
{
    tr_in_locale(locale, key)
}

// ---------------------------------------------------------------------------
// Laws
// ---------------------------------------------------------------------------

/// A key the locale itself can translate is translated by that locale.
pub proof fn law_own_locale_preferred(
    locale: Locale,
    key: Seq<char>,
    args: Option<Map<Seq<char>, Seq<char>>>,
)
    requires
        spec_translate_from_locale(locale, key, args) is Ok,
    ensures
        spec_try_translate(locale, key, args) == spec_translate_from_locale(locale, key, args),
{
}

/// A key another locale cannot translate takes the English text, when there
/// is one.
pub proof fn law_falls_back_to_english(
    locale: Locale,
    key: Seq<char>,
    args: Option<Map<Seq<char>, Seq<char>>>,
)
    requires
        spec_translate_from_locale(locale, key, args) is Err,
        spec_translate_from_locale(Locale::En, key, args) is Ok,
    ensures
        spec_try_translate(locale, key, args) == spec_translate_from_locale(Locale::En, key, args),
{
}

/// English has no fallback: its result is its own.
pub proof fn law_english_has_no_fallback(key: Seq<char>, args: Option<Map<Seq<char>, Seq<char>>>)
    ensures
        spec_try_translate(Locale::En, key, args) == spec_translate_from_locale(
            Locale::En,
            key,
            args,
        ),
{
}

/// A translation fails only when English cannot translate the key either;
/// the error of another locale names that locale and the key, and carries
/// the locale's own failure.
pub proof fn law_error_only_without_english(
    locale: Locale,
    key: Seq<char>,
    args: Option<Map<Seq<char>, Seq<char>>>,
)
    requires
        spec_try_translate(locale, key, args) is Err,
    ensures
        spec_translate_from_locale(Locale::En, key, args) is Err,
        spec_translate_from_locale(locale, key, args) is Err,
        locale != Locale::En ==> spec_try_translate(locale, key, args) == Err::<
            Seq<char>,
            TranslationErrorView,
        >(
            TranslationErrorView::MissingMessage {
                locale,
                key,
                fallback_error: Some(Box::new(spec_translate_from_locale(locale, key, args)->Err_0)),
            },
        ),
{
}

/// The shown text is the translation when there is one, and otherwise the
/// key itself.
pub proof fn law_tr_shows_translation_or_key(
    locale: Locale,
    key: Seq<char>,
    args: Option<Map<Seq<char>, Seq<char>>>,
)
    ensures
        spec_try_translate(locale, key, args) is Ok ==> spec_tr(locale, key, args)
            == spec_try_translate(locale, key, args)->Ok_0,
        spec_try_translate(locale, key, args) is Err ==> spec_tr(locale, key, args) == key,
{
}

/// In terms of the bundles: a locale other than English whose bundle builds
/// but lacks the key shows the English text, when English has one; a locale
/// whose bundle has the key with a value that formats without errors shows
/// that text, never the English one.
pub proof fn law_bundle_message_or_english(
    locale: Locale,
    key: Seq<char>,
    args: Option<Map<Seq<char>, Seq<char>>>,
)
    requires
        spec_build_bundle(locale) is Ok,
    ensures
        locale != Locale::En && !fluent_has_message(spec_build_bundle(locale)->Ok_0, key)
            && spec_translate_from_locale(Locale::En, key, args) is Ok ==> spec_try_translate(
            locale,
            key,
            args,
        ) == spec_translate_from_locale(Locale::En, key, args),
        ({
            let rs = spec_build_bundle(locale)->Ok_0;
            let formatted = fluent_format(
                seq![spec_locale_code(locale)],
                false,
                rs,
                (rs, key),
                args,
            );
            fluent_has_message(rs, key) && fluent_message_has_value(rs, key) && formatted.1.len()
                == 0 ==> spec_try_translate(locale, key, args) == Ok::<
                Seq<char>,
                TranslationErrorView,
            >(formatted.0)
        }),
{
}

/// A translation is always a text that Fluent formatted without any error,
/// from the locale's own bundle or from the English one, in every locale: a
/// message whose formatting reports errors is never shown as a translation.
pub proof fn law_translation_formats_without_errors(
    locale: Locale,
    key: Seq<char>,
    args: Option<Map<Seq<char>, Seq<char>>>,
)
    ensures
        spec_try_translate(locale, key, args) is Ok ==> ({
            let v = spec_try_translate(locale, key, args)->Ok_0;
            ||| ({
                let rs = spec_build_bundle(locale)->Ok_0;
                &&& spec_build_bundle(locale) is Ok
                &&& fluent_has_message(rs, key)
                &&& fluent_message_has_value(rs, key)
                &&& fluent_format(seq![spec_locale_code(locale)], false, rs, (rs, key), args)
                    == (v, Seq::<Seq<char>>::empty())
            })
            ||| ({
                let rs = spec_build_bundle(Locale::En)->Ok_0;
                &&& spec_build_bundle(Locale::En) is Ok
                &&& fluent_has_message(rs, key)
                &&& fluent_message_has_value(rs, key)
                &&& fluent_format(seq![spec_locale_code(Locale::En)], false, rs, (rs, key), args)
                    == (v, Seq::<Seq<char>>::empty())
            })
        }),
        spec_try_translate(locale, key, args) is Err ==> spec_tr(locale, key, args) == key,
{
    let rs = spec_build_bundle(locale)->Ok_0;
    let f = fluent_format(seq![spec_locale_code(locale)], false, rs, (rs, key), args);
    assert(f.1.len() == 0 ==> f.1 =~= Seq::<Seq<char>>::empty());
    let re = spec_build_bundle(Locale::En)->Ok_0;
    let g = fluent_format(seq![spec_locale_code(Locale::En)], false, re, (re, key), args);
    assert(g.1.len() == 0 ==> g.1 =~= Seq::<Seq<char>>::empty());
}

} // verus!

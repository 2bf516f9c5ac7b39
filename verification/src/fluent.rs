//! The calls into `fluent-bundle`, `fluent-syntax`, `unic-langid` and the
//! standard library's `Debug` formatting that the translation and check logic
//! makes. Each item below is trusted: its contract is not proved but read off
//! the outside crate's source.
//!
//! Fluent values that the logic only carries from one call to the next
//! (resources, bundles, messages, patterns, arguments, language identifiers)
//! stay opaque. What each one holds is given a name: a resource holds its
//! source text, a bundle the source texts of the resources added to it (in
//! order) together with its locales and its isolation setting, a message and
//! a pattern the bundle resources and the message id they were looked up
//! with, and an argument list a map from names to string values. What
//! Fluent computes from those (parse errors, lookups, formatting) is named
//! as a function of them.

use vstd::prelude::*;
use fluent_bundle::{FluentArgs, FluentMessage, FluentResource};
use fluent_syntax::ast::Pattern;
use intl_memoizer::IntlLangMemoizer;
use unic_langid::LanguageIdentifier;

verus! {

#[verifier::external_type_specification]
#[verifier::external_body]
pub struct ExFluentResource(FluentResource);

#[verifier::external_type_specification]
#[verifier::external_body]
pub struct ExIntlLangMemoizer(IntlLangMemoizer);

#[verifier::external_type_specification]
#[verifier::external_body]
#[verifier::reject_recursive_types(R)]
#[verifier::reject_recursive_types(M)]
pub struct ExFluentBundle<R, M>(fluent_bundle::bundle::FluentBundle<R, M>);

#[verifier::external_type_specification]
#[verifier::external_body]
pub struct ExFluentMessage<'m>(FluentMessage<'m>);

#[verifier::external_type_specification]
#[verifier::external_body]
#[verifier::reject_recursive_types(S)]
pub struct ExPattern<S>(Pattern<S>);

#[verifier::external_type_specification]
#[verifier::external_body]
pub struct ExFluentArgs<'args>(FluentArgs<'args>);

#[verifier::external_type_specification]
#[verifier::external_body]
pub struct ExLanguageIdentifier(LanguageIdentifier);

/// The bundle type the library builds: Fluent resources with the
/// single-threaded memoizer.
pub type Bundle = fluent_bundle::FluentBundle<FluentResource>;

// ---------------------------------------------------------------------------
// Names
// ---------------------------------------------------------------------------

/// The `Debug` texts of the errors that parsing `source` as FTL reports
/// (`fluent_syntax::parser::parse_runtime`); empty when it parses cleanly.
pub uninterp spec fn fluent_parse_errors(source: Seq<char>) -> Seq<Seq<char>>;

/// What a resource holds: the FTL text it was parsed from.
pub uninterp spec fn fluent_resource_source(resource: FluentResource) -> Seq<char>;

/// The canonical tag of the language identifier that `code` parses to, or
/// `None` when `code` is not a valid identifier.
pub uninterp spec fn langid_canonical(code: Seq<char>) -> Option<Seq<char>>;

/// What a language identifier holds: its canonical tag.
pub uninterp spec fn langid_tag(id: LanguageIdentifier) -> Seq<char>;

/// What a bundle holds: the source texts of the resources added to it, in
/// the order they were added.
pub uninterp spec fn fluent_bundle_resources(bundle: Bundle) -> Seq<Seq<char>>;

/// The tags of the locales a bundle was made with.
pub uninterp spec fn fluent_bundle_locales(bundle: Bundle) -> Seq<Seq<char>>;

/// Whether a bundle wraps placeables in Unicode isolation marks.
pub uninterp spec fn fluent_bundle_isolating(bundle: Bundle) -> bool;

/// The `Debug` texts of the errors that adding the resource with text
/// `source` to a bundle that holds `resources` reports: one for each entry
/// whose id the bundle already defines. Empty when nothing clashes.
pub uninterp spec fn fluent_add_errors(resources: Seq<Seq<char>>, source: Seq<char>) -> Seq<
    Seq<char>,
>;

/// Whether a bundle holding `resources` defines a message with this id.
pub uninterp spec fn fluent_has_message(resources: Seq<Seq<char>>, id: Seq<char>) -> bool;

/// Whether the message `id` of a bundle holding `resources` has a value.
pub uninterp spec fn fluent_message_has_value(resources: Seq<Seq<char>>, id: Seq<char>) -> bool;

/// What a message holds: the bundle resources and the id it was looked up with.
pub uninterp spec fn fluent_message_origin(message: FluentMessage) -> (Seq<Seq<char>>, Seq<char>);

/// What a pattern holds: the bundle resources and the id of the message
/// whose value it is.
pub uninterp spec fn fluent_pattern_origin(pattern: Pattern<&str>) -> (Seq<Seq<char>>, Seq<char>);

/// What an argument list holds: each argument's name and string value.
pub uninterp spec fn fluent_args_entries(args: FluentArgs) -> Map<Seq<char>, Seq<char>>;

/// The text that formatting the value of message `message` yields in a
/// bundle with the given locales, isolation setting and resources, with the
/// given arguments, and the `Display` texts of the errors reported on the
/// way (`FluentBundle::format_pattern`).
pub uninterp spec fn fluent_format(
    locales: Seq<Seq<char>>,
    use_isolating: bool,
    resources: Seq<Seq<char>>,
    message: (Seq<Seq<char>>, Seq<char>),
    args: Option<Map<Seq<char>, Seq<char>>>,
) -> (Seq<char>, Seq<Seq<char>>);

/// The `Debug` text of a list of strings (`["a", "b"]`, with each string
/// quoted and escaped as `str`'s `Debug` does).
pub uninterp spec fn debug_string_list(items: Seq<Seq<char>>) -> Seq<char>;

/// The views of a vector of strings.
pub open spec fn strings_view(v: Seq<String>) -> Seq<Seq<char>> {
    v.map_values(|s: String| s@)
}

/// The view of an optional argument list.
pub open spec fn args_view(args: Option<&FluentArgs>) -> Option<Map<Seq<char>, Seq<char>>> {
    match args {
        Some(a) => Some(fluent_args_entries(*a)),
        None => None,
    }
}

// ---------------------------------------------------------------------------
// Wrappers
// ---------------------------------------------------------------------------

/// `FluentResource::try_new`: parses FTL text. It fails exactly when the
/// parser reports errors; the resource it returns holds `source`.
#[verifier::external_body]
pub(crate) fn parse_resource(source: String) -> (res: Result<FluentResource, Vec<String>>)
    ensures
        res is Ok <==> fluent_parse_errors(source@).len() == 0,
        res matches Ok(r) ==> fluent_resource_source(r) == source@,
        res matches Err(e) ==> strings_view(e@) == fluent_parse_errors(source@),
{
    match FluentResource::try_new(source) {
        Ok(resource) => Ok(resource),
        Err((_, errors)) => Err(errors.into_iter().map(|error| format!("{error:?}")).collect()),
    }
}

/// `LanguageIdentifier::from_str`: parses a BCP-47 tag. The two tags the
/// library bundles parse to themselves.
#[verifier::external_body]
pub(crate) fn parse_language_identifier(code: &str) -> (res: Option<LanguageIdentifier>)
    ensures
        res is Some <==> langid_canonical(code@) is Some,
        res matches Some(id) ==> langid_canonical(code@) == Some(langid_tag(id)),
        code@ == "en"@ ==> res is Some && langid_tag(res->0) == "en"@,
        code@ == "zh-CN"@ ==> res is Some && langid_tag(res->0) == "zh-CN"@,
{
    code.parse::<LanguageIdentifier>().ok()
}

/// `FluentBundle::new`: an empty bundle for one locale; it isolates
/// placeables until told otherwise.
#[verifier::external_body]
pub(crate) fn new_bundle(locale: LanguageIdentifier) -> (res: Bundle)
    ensures
        fluent_bundle_resources(res) == Seq::<Seq<char>>::empty(),
        fluent_bundle_locales(res) == seq![langid_tag(locale)],
        fluent_bundle_isolating(res),
{
    fluent_bundle::FluentBundle::new(vec![locale])
}

/// `FluentBundle::set_use_isolating`.
#[verifier::external_body]
pub(crate) fn set_use_isolating(bundle: &mut Bundle, value: bool)
    ensures
        fluent_bundle_resources(*final(bundle)) == fluent_bundle_resources(*old(bundle)),
        fluent_bundle_locales(*final(bundle)) == fluent_bundle_locales(*old(bundle)),
        fluent_bundle_isolating(*final(bundle)) == value,
{
    bundle.set_use_isolating(value);
}

/// `FluentBundle::add_resource`: the resource is added in any case; the
/// call fails exactly when some of its entries clash with ones the bundle
/// already has.
#[verifier::external_body]
pub(crate) fn add_resource(bundle: &mut Bundle, resource: FluentResource) -> (res: Result<(), Vec<String>>)
    ensures
        fluent_bundle_resources(*final(bundle)) == fluent_bundle_resources(*old(bundle)).push(
            fluent_resource_source(resource),
        ),
        fluent_bundle_locales(*final(bundle)) == fluent_bundle_locales(*old(bundle)),
        fluent_bundle_isolating(*final(bundle)) == fluent_bundle_isolating(*old(bundle)),
        res is Ok <==> fluent_add_errors(
            fluent_bundle_resources(*old(bundle)),
            fluent_resource_source(resource),
        ).len() == 0,
        res matches Err(e) ==> strings_view(e@) == fluent_add_errors(
            fluent_bundle_resources(*old(bundle)),
            fluent_resource_source(resource),
        ),
{
    bundle.add_resource(resource).map_err(
        |errors| errors.into_iter().map(|error| format!("{error:?}")).collect(),
    )
}

/// `FluentBundle::get_message`: the message with this id, if the bundle
/// defines one.
#[verifier::external_body]
pub(crate) fn get_message<'b>(bundle: &'b Bundle, id: &str) -> (res: Option<FluentMessage<'b>>)
    ensures
        res is Some <==> fluent_has_message(fluent_bundle_resources(*bundle), id@),
        res matches Some(m) ==> fluent_message_origin(m) == (fluent_bundle_resources(*bundle), id@),
{
    bundle.get_message(id)
}

/// `FluentMessage::value`: the message's value pattern, if it has one.
#[verifier::external_body]
pub(crate) fn message_value<'m>(message: &FluentMessage<'m>) -> (res: Option<&'m Pattern<&'m str>>)
    ensures
        res is Some <==> fluent_message_has_value(
            fluent_message_origin(*message).0,
            fluent_message_origin(*message).1,
        ),
        res matches Some(p) ==> fluent_pattern_origin(*p) == fluent_message_origin(*message),
{
    message.value()
}

/// `FluentBundle::format_pattern`: formats a pattern, collecting the
/// `Display` texts of the errors met.
#[verifier::external_body]
pub(crate) fn format_pattern<'b>(bundle: &'b Bundle, pattern: &'b Pattern<&'b str>, args: Option<
    &FluentArgs,
>) -> (res: (String, Vec<String>))
    ensures
        (res.0@, strings_view(res.1@)) == fluent_format(
            fluent_bundle_locales(*bundle),
            fluent_bundle_isolating(*bundle),
            fluent_bundle_resources(*bundle),
            fluent_pattern_origin(*pattern),
            args_view(args),
        ),
{
    let mut errors = Vec::new();
    let value = bundle.format_pattern(pattern, args, &mut errors);
    (value.into_owned(), errors.into_iter().map(|error| error.to_string()).collect())
}

/// `FluentArgs::new`: an empty argument list.
#[verifier::external_body]
pub(crate) fn new_args<'a>() -> (res: FluentArgs<'a>)
    ensures
        fluent_args_entries(res).is_empty(),
{
    FluentArgs::new()
}

/// `FluentArgs::set` with a string value: sets (or replaces) the argument.
#[verifier::external_body]
pub(crate) fn set_arg<'a>(args: &mut FluentArgs<'a>, name: &'a str, value: &'a str)
    ensures
        fluent_args_entries(*final(args)) == fluent_args_entries(*old(args)).insert(name@, value@),
{
    args.set(name, value);
}

/// `Debug` of a list of strings.
#[verifier::external_body]
pub(crate) fn debug_strings(items: &Vec<String>) -> (res: String)
    ensures
        res@ == debug_string_list(strings_view(items@)),
{
    format!("{items:?}")
}

} // verus!

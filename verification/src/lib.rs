//! Localisation for the terminal UI: supported locales and language
//! preferences, the bundled Fluent resources, translation with fallback to
//! English, a consistency check of the bundles, and a heuristic audit of
//! source files for strings that are not localised yet.

pub mod text;
pub mod locale;
pub mod fluent;
pub mod resources;
pub mod translate;
pub mod check;
pub mod coverage;
pub mod stable_import;

pub use check::{check_bundles, I18nCheckError, I18nCheckMode, I18nCheckOptions, I18nCheckReport};
pub use locale::{
    current_locale, current_system_locale, set_current_locale, set_language_preference,
    LanguagePreference, Locale, LocaleContext, ParseLanguagePreferenceError, ParseLocaleError,
};
pub use resources::{bundled_resources, BundleResource};
pub use translate::{
    tr, tr_in_locale, tr_with_args, tr_with_args_in_locale, translate_static,
    translate_static_in_locale, try_translate, try_translate_in_locale, try_translate_with_args,
    BundleError, TranslationError,
};

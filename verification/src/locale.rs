//! Supported locales, the user's language preference, and the current locale.

use vstd::prelude::*;
use crate::text::{
    char_to_ascii_lowercase, chars_eq, chars_of, copy_str, push_str, spec_char_to_ascii_lowercase,
    spec_starts_with, starts_with_chars, str_eq,
};

verus! {

/// A locale with bundled translations.
#[derive(Clone, Copy, Debug, PartialEq, Eq, Structural, Hash, PartialOrd, Ord)]
pub enum Locale {
    En,
    ZhCn,
}

impl Default for Locale {
    fn default() -> (res: Self)
        ensures
            res == Locale::En,
    {
        Locale::En
    }
}

/// The BCP-47 tag of a locale.
pub open spec fn spec_locale_code(locale: Locale) -> Seq<char> {
    match locale {
        Locale::En => "en"@,
        Locale::ZhCn => "zh-CN"@,
    }
}

/// The part of a system locale before its first `'.'` or `'@'`
/// (`zh_CN.UTF-8` gives `zh_CN`).
pub open spec fn spec_locale_base(s: Seq<char>) -> Seq<char>
    decreases s.len(),
{
    if s.len() == 0 || s[0] == '.' || s[0] == '@' {
        Seq::empty()
    } else {
        seq![s[0]] + spec_locale_base(s.drop_first())
    }
}

/// `'_'` becomes `'-'`, ASCII letters become lower case.
pub open spec fn spec_normalize_char(c: char) -> char {
    if c == '_' {
        '-'
    } else {
        spec_char_to_ascii_lowercase(c)
    }
}

/// The normalised form of a system locale that `Locale::parse` matches on.
pub open spec fn spec_normalized_locale(s: Seq<char>) -> Seq<char> {
    let base = spec_locale_base(s);
    Seq::new(base.len(), |i: int| spec_normalize_char(base[i]))
}

/// Which supported locale a system locale string names, if any.
pub open spec fn spec_parse_locale(s: Seq<char>) -> Option<Locale> {
    let n = spec_normalized_locale(s);
    if n == "zh"@ || spec_starts_with(n, "zh-cn"@) || spec_starts_with(n, "zh-hans"@) {
        Some(Locale::ZhCn)
    } else if n == "en"@ || spec_starts_with(n, "en-"@) {
        Some(Locale::En)
    } else {
        None
    }
}

/// The locale used for a system locale that may be absent: English unless
/// the system locale names a supported one.
pub open spec fn spec_from_system_locale(system_locale: Option<Seq<char>>) -> Locale {
    match system_locale {
        Some(s) => match spec_parse_locale(s) {
            Some(l) => l,
            None => Locale::En,
        },
        None => Locale::En,
    }
}

/// The view of an optional string slice.
pub open spec fn spec_opt_str(o: Option<&str>) -> Option<Seq<char>> {
    match o {
        Some(s) => Some(s@),
        None => None,
    }
}

/// A system locale that names no supported locale.
#[derive(Clone, Debug, PartialEq, Eq)]
pub struct ParseLocaleError(pub String);

impl ParseLocaleError {
    /// The error's text: `unsupported locale: <value>`.
    pub fn message(&self) -> (res: String)
        ensures
            res@ == "unsupported locale: "@ + self.0@,
    {
        let mut s = String::from_str("unsupported locale: ");
        push_str(&mut s, self.0.as_str());
        s
    }
}

impl Locale {
    /// The BCP-47 tag of this locale.
    pub fn code(self) -> (res: &'static str)
        ensures
            res@ == spec_locale_code(self),
    {
        match self {
            Locale::En => "en",
            Locale::ZhCn => "zh-CN",
        }
    }

    /// Reads a system locale such as `zh_CN.UTF-8` or `en-US`: the part
    /// before `'.'` or `'@'`, with `'_'` read as `'-'` and letters in any
    /// case.
    pub fn parse(locale: &str) -> (res: Option<Locale>)
        ensures
            res == spec_parse_locale(locale@),
    {
        let v = chars_of(locale);
        let mut n: Vec<char> = Vec::new();
        let mut i: usize = 0;
        assert(v@.skip(0) =~= v@);
        assert(v@.subrange(0, 0) + spec_locale_base(v@) =~= spec_locale_base(v@));
        while i < v.len() && v[i] != '.' && v[i] != '@'
            invariant
                v@ == locale@,
                i <= v@.len(),
                spec_locale_base(v@) == v@.subrange(0, i as int) + spec_locale_base(
                    v@.skip(i as int),
                ),
                n@.len() == i,
                forall|j: int| 0 <= j < i ==> n@[j] == spec_normalize_char(#[trigger] v@[j]),
            decreases v@.len() - i,
        {
            proof {
                let r = v@.skip(i as int);
                assert(r.drop_first() =~= v@.skip(i + 1));
                assert(v@.subrange(0, i + 1) =~= v@.subrange(0, i as int) + seq![r[0]]);
            }
            let c = if v[i] == '_' {
                '-'
            } else {
                char_to_ascii_lowercase(v[i])
            };
            n.push(c);
            i = i + 1;
        }
        proof {
            assert(spec_locale_base(v@.skip(i as int)) =~= Seq::<char>::empty());
            assert(spec_locale_base(v@) =~= v@.subrange(0, i as int));
            assert(n@ =~= spec_normalized_locale(locale@));
        }
        let zh = chars_of("zh");
        let zh_cn = chars_of("zh-cn");
        let zh_hans = chars_of("zh-hans");
        let en = chars_of("en");
        let en_dash = chars_of("en-");
        if chars_eq(&n, &zh) || starts_with_chars(&n, &zh_cn) || starts_with_chars(&n, &zh_hans) {
            Some(Locale::ZhCn)
        } else if chars_eq(&n, &en) || starts_with_chars(&n, &en_dash) {
            Some(Locale::En)
        } else {
            None
        }
    }

    /// The locale for the system locale, English when it is absent or not
    /// supported.
    pub fn from_system_locale(system_locale: Option<&str>) -> (res: Locale)
        ensures
            res == spec_from_system_locale(spec_opt_str(system_locale)),
    {
        match system_locale {
            Some(s) => match Locale::parse(s) {
                Some(l) => l,
                None => Locale::En,
            },
            None => Locale::En,
        }
    }

    /// `FromStr`: the locale a string names, or the error that carries it.
    pub fn try_parse(value: &str) -> (res: Result<Locale, ParseLocaleError>)
        ensures
            match res {
                Ok(l) => spec_parse_locale(value@) == Some(l),
                Err(e) => spec_parse_locale(value@) is None && e.0@ == value@,
            },
    {
        match Locale::parse(value) {
            Some(l) => Ok(l),
            None => Err(ParseLocaleError(copy_str(value))),
        }
    }
}

impl std::str::FromStr for Locale {
    type Err = ParseLocaleError;

    fn from_str(value: &str) -> (res: Result<Self, Self::Err>)
        ensures
            match res {
                Ok(l) => spec_parse_locale(value@) == Some(l),
                Err(e) => spec_parse_locale(value@) is None && e.0@ == value@,
            },
    {
        Locale::try_parse(value)
    }
}

/// What the user chose as the UI language.
#[derive(Clone, Copy, Debug, PartialEq, Eq, Structural, Hash)]
pub enum LanguagePreference {
    ZhCn,
    En,
    System,
}

impl Default for LanguagePreference {
    fn default() -> (res: Self)
        ensures
            res == LanguagePreference::System,
    {
        LanguagePreference::System
    }
}

pub open spec fn spec_preference_code(p: LanguagePreference) -> Seq<char> {
    match p {
        LanguagePreference::ZhCn => "zh-CN"@,
        LanguagePreference::En => "en"@,
        LanguagePreference::System => "system"@,
    }
}

/// The locale a preference resolves to, given the system locale.
pub open spec fn spec_resolve(p: LanguagePreference, system_locale: Option<Seq<char>>) -> Locale {
    match p {
        LanguagePreference::ZhCn => Locale::ZhCn,
        LanguagePreference::En => Locale::En,
        LanguagePreference::System => spec_from_system_locale(system_locale),
    }
}

/// The locale is what the preference resolves to for some system locale.
pub open spec fn spec_resolves_to(p: LanguagePreference, l: Locale) -> bool {
    exists|s: Option<Seq<char>>| spec_resolve(p, s) == l
}

/// The preference a settings value names: `zh-CN`, `zh_cn` or `zh` for
/// Chinese, `en`, or `system`.
pub open spec fn spec_parse_preference(s: Seq<char>) -> Option<LanguagePreference> {
    if s == "zh-CN"@ || s == "zh_cn"@ || s == "zh"@ {
        Some(LanguagePreference::ZhCn)
    } else if s == "en"@ {
        Some(LanguagePreference::En)
    } else if s == "system"@ {
        Some(LanguagePreference::System)
    } else {
        None
    }
}

/// A settings value that names no language preference.
#[derive(Clone, Debug, PartialEq, Eq)]
pub struct ParseLanguagePreferenceError(pub String);

impl ParseLanguagePreferenceError {
    /// The error's text: `unsupported language preference: <value>`.
    pub fn message(&self) -> (res: String)
        ensures
            res@ == "unsupported language preference: "@ + self.0@,
    {
        let mut s = String::from_str("unsupported language preference: ");
        push_str(&mut s, self.0.as_str());
        s
    }
}

impl LanguagePreference {
    /// The settings value of this preference.
    pub fn code(self) -> (res: &'static str)
        ensures
            res@ == spec_preference_code(self),
    {
        match self {
            LanguagePreference::ZhCn => "zh-CN",
            LanguagePreference::En => "en",
            LanguagePreference::System => "system",
        }
    }

    /// The locale this preference selects; `System` follows the given
    /// system locale.
    pub fn resolve(self, system_locale: Option<&str>) -> (res: Locale)
        ensures
            res == spec_resolve(self, spec_opt_str(system_locale)),
    {
        match self {
            LanguagePreference::ZhCn => Locale::ZhCn,
            LanguagePreference::En => Locale::En,
            LanguagePreference::System => Locale::from_system_locale(system_locale),
        }
    }

    /// The locale this preference selects with the operating system's
    /// current locale.
    pub fn resolve_current_system(self) -> (res: Locale)
        ensures
            spec_resolves_to(self, res),
            self != LanguagePreference::System ==> res == spec_resolve(self, None),
    {
        let system = current_system_locale();
        let res = match &system {
            Some(s) => self.resolve(Some(s.as_str())),
            None => self.resolve(None),
        };
        proof {
            let witness = match system {
                Some(s) => Some(s@),
                None => None::<Seq<char>>,
            };
            assert(spec_resolve(self, witness) == res);
        }
        res
    }

    /// `FromStr`: the preference a settings value names, or the error that
    /// carries the value.
    pub fn try_parse(value: &str) -> (res: Result<LanguagePreference, ParseLanguagePreferenceError>)
        ensures
            match res {
                Ok(p) => spec_parse_preference(value@) == Some(p),
                Err(e) => spec_parse_preference(value@) is None && e.0@ == value@,
            },
    {
        if str_eq(value, "zh-CN") || str_eq(value, "zh_cn") || str_eq(value, "zh") {
            Ok(LanguagePreference::ZhCn)
        } else if str_eq(value, "en") {
            Ok(LanguagePreference::En)
        } else if str_eq(value, "system") {
            Ok(LanguagePreference::System)
        } else {
            Err(ParseLanguagePreferenceError(copy_str(value)))
        }
    }
}

impl std::str::FromStr for LanguagePreference {
    type Err = ParseLanguagePreferenceError;

    fn from_str(value: &str) -> (res: Result<Self, Self::Err>)
        ensures
            match res {
                Ok(p) => spec_parse_preference(value@) == Some(p),
                Err(e) => spec_parse_preference(value@) is None && e.0@ == value@,
            },
    {
        LanguagePreference::try_parse(value)
    }
}

/// The operating system's locale (`sys_locale::get_locale`). It depends on
/// the environment, so nothing is stated of it.
#[verifier::external_body]
pub fn current_system_locale() -> Option<String> {
    sys_locale::get_locale()
}

/// The locale the UI is shown in. A process keeps one of these; it starts
/// from the system preference.
#[derive(Debug)]
pub struct LocaleContext {
    current: Locale,
}

impl LocaleContext {
    /// The locale held by this context.
    pub closed spec fn current_spec(&self) -> Locale {
        self.current
    }

    /// A context that starts at what the `System` preference resolves to.
    pub fn new() -> (res: LocaleContext)
        ensures
            spec_resolves_to(LanguagePreference::System, res.current_spec()),
    {
        LocaleContext { current: LanguagePreference::System.resolve_current_system() }
    }

    /// A context that starts at the given locale.
    pub fn with_locale(locale: Locale) -> (res: LocaleContext)
        ensures
            res.current_spec() == locale,
    {
        LocaleContext { current: locale }
    }
}

/// The locale the UI is currently shown in.
pub fn current_locale(ctx: &LocaleContext) -> (res: Locale)
    ensures
        res == ctx.current_spec(),
{
    ctx.current
}

/// Changes the current locale.
pub fn set_current_locale(ctx: &mut LocaleContext, locale: Locale)
    ensures
        final(ctx).current_spec() == locale,
{
    ctx.current = locale;
}

/// Resolves a preference against the system locale, makes the result the
/// current locale and returns it.
pub fn set_language_preference(ctx: &mut LocaleContext, preference: LanguagePreference) -> (res:
    Locale)
    ensures
        final(ctx).current_spec() == res,
        spec_resolves_to(preference, res),
        preference != LanguagePreference::System ==> res == spec_resolve(preference, None),
{
    let locale = preference.resolve_current_system();
    set_current_locale(ctx, locale);
    locale
}

/// Reading a locale's own tag gives the locale back (`FromStr` undoes
/// `Display`).
pub proof fn law_locale_code_parses_back(locale: Locale)
    ensures
        spec_parse_locale(spec_locale_code(locale)) == Some(locale),
{
    reveal_strlit("en");
    reveal_strlit("zh-CN");
    reveal_strlit("zh");
    reveal_strlit("zh-cn");
    reveal_strlit("en-");
    let s = spec_locale_code(locale);
    assert(spec_locale_base(s) =~= s) by {
        reveal_with_fuel(spec_locale_base, 6);
    }
    let n = spec_normalized_locale(s);
    match locale {
        Locale::En => {
            reveal_strlit("zh-hans");
            assert(n =~= "en"@);
            assert(n[0] != "zh"@[0]);
            assert(!spec_starts_with(n, "zh-cn"@));
            assert(!spec_starts_with(n, "zh-hans"@));
        },
        Locale::ZhCn => {
            assert(n =~= "zh-cn"@);
            assert(n.len() != "zh"@.len());
            assert(n.take(5) =~= "zh-cn"@);
        },
    }
}

/// Reading a preference's own settings value gives the preference back.
pub proof fn law_preference_code_parses_back(preference: LanguagePreference)
    ensures
        spec_parse_preference(spec_preference_code(preference)) == Some(preference),
{
    reveal_strlit("zh-CN");
    reveal_strlit("zh_cn");
    reveal_strlit("zh");
    reveal_strlit("en");
    reveal_strlit("system");
    match preference {
        LanguagePreference::En => {
            assert("en"@.len() != "zh-CN"@.len());
            assert("en"@.len() != "zh_cn"@.len());
            assert("en"@[0] != "zh"@[0]);
        },
        LanguagePreference::System => {
            assert("system"@.len() != "zh-CN"@.len());
            assert("system"@.len() != "zh_cn"@.len());
            assert("system"@.len() != "zh"@.len());
            assert("system"@.len() != "en"@.len());
        },
        LanguagePreference::ZhCn => {},
    }
}

/// An explicit language preference does not depend on the system locale.
pub proof fn law_explicit_preference_ignores_system(
    preference: LanguagePreference,
    a: Option<Seq<char>>,
    b: Option<Seq<char>>,
)
    requires
        preference != LanguagePreference::System,
    ensures
        spec_resolve(preference, a) == spec_resolve(preference, b),
{
}

/// Following the system, a missing or unsupported system locale gives
/// English; a supported one gives that locale.
pub proof fn law_system_preference_follows_system(system_locale: Option<Seq<char>>)
    ensures
        spec_resolve(LanguagePreference::System, system_locale) == match system_locale {
            Some(s) => match spec_parse_locale(s) {
                Some(l) => l,
                None => Locale::En,
            },
            None => Locale::En,
        },
{
}

} // verus!

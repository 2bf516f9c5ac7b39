# warp_i18n

Localisation for the Warp terminal UI, verified with Verus.

The library (`src/`) holds:

- `locale` — the supported locales (`en`, `zh-CN`), reading system locale
  strings, the user's language preference and how it resolves, and the
  current locale (`LocaleContext`).
- `resources` — the bundled Fluent (FTL) resources.
- `fluent` — the trusted declarations of the calls into `fluent-bundle`,
  `fluent-syntax` and `unic-langid`.
- `translate` — building a Fluent bundle per locale and translating keys,
  with fallback to English and to the key itself.
- `check` — the consistency check of the bundles: each resource parses,
  declares well-formed keys once each, and Chinese has English's files and
  keys.
- `coverage` — a heuristic audit of Rust source text for UI strings that are
  not localised yet.
- `stable_import` — the decisions of the one-time import of the official
  Warp stable channel's data into My Warp: which paths to look at, whether to
  offer the import, what to back up and copy, the step-by-step flow of the
  first launch, and the messages shown.
- `text` — the string helpers the rest is written with.

Every function there carries a contract. Verus proves them all except those
of the few items marked `#[verifier::external_body]`, whose bodies only call
an outside crate or `String::push` and whose contracts are believed: the
wrappers in `fluent` (read against the crates' sources), `push_char` in
`text`, and `current_system_locale` in `locale`. The public proof functions
named `law_*` state properties that span several functions.

`app/` is the program around the library: the `check-i18n` and
`i18n-coverage` tasks, the process-wide current locale, the settings-file
(serde) form of the locale types, and the file system and dialog work of the
stable import.

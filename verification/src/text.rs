//! Character classes and small string operations, each with a specification
//! over `Seq<char>` and an executable counterpart over character vectors.

use vstd::prelude::*;

verus! {

// ---------------------------------------------------------------------------
// Character classes
// ---------------------------------------------------------------------------

/// Unicode `White_Space`, the set that `char::is_whitespace` tests for.
pub open spec fn spec_is_whitespace(c: char) -> bool {
    let v = c as u32;
    ||| (0x09 <= v && v <= 0x0d)
    ||| v == 0x20
    ||| v == 0x85
    ||| v == 0xa0
    ||| v == 0x1680
    ||| (0x2000 <= v && v <= 0x200a)
    ||| v == 0x2028
    ||| v == 0x2029
    ||| v == 0x202f
    ||| v == 0x205f
    ||| v == 0x3000
}

pub open spec fn spec_is_ascii_uppercase(c: char) -> bool {
    'A' <= c && c <= 'Z'
}

pub open spec fn spec_is_ascii_lowercase(c: char) -> bool {
    'a' <= c && c <= 'z'
}

pub open spec fn spec_is_ascii_digit(c: char) -> bool {
    '0' <= c && c <= '9'
}

pub open spec fn spec_is_ascii_alphabetic(c: char) -> bool {
    spec_is_ascii_uppercase(c) || spec_is_ascii_lowercase(c)
}

pub open spec fn spec_is_ascii_alphanumeric(c: char) -> bool {
    spec_is_ascii_alphabetic(c) || spec_is_ascii_digit(c)
}

pub fn is_whitespace(c: char) -> (res: bool)
    ensures
        res == spec_is_whitespace(c),
{
    let v = c as u32;
    (0x09 <= v && v <= 0x0d) || v == 0x20 || v == 0x85 || v == 0xa0 || v == 0x1680 || (0x2000
        <= v && v <= 0x200a) || v == 0x2028 || v == 0x2029 || v == 0x202f || v == 0x205f || v
        == 0x3000
}

pub fn is_ascii_uppercase(c: char) -> (res: bool)
    ensures
        res == spec_is_ascii_uppercase(c),
{
    'A' <= c && c <= 'Z'
}

pub fn is_ascii_lowercase(c: char) -> (res: bool)
    ensures
        res == spec_is_ascii_lowercase(c),
{
    'a' <= c && c <= 'z'
}

pub fn is_ascii_digit(c: char) -> (res: bool)
    ensures
        res == spec_is_ascii_digit(c),
{
    '0' <= c && c <= '9'
}

pub fn is_ascii_alphabetic(c: char) -> (res: bool)
    ensures
        res == spec_is_ascii_alphabetic(c),
{
    is_ascii_uppercase(c) || is_ascii_lowercase(c)
}

pub fn is_ascii_alphanumeric(c: char) -> (res: bool)
    ensures
        res == spec_is_ascii_alphanumeric(c),
{
    is_ascii_alphabetic(c) || is_ascii_digit(c)
}

/// The ASCII lower-case form of a character; other characters are unchanged.
pub open spec fn spec_char_to_ascii_lowercase(c: char) -> char {
    if spec_is_ascii_uppercase(c) {
        ((c as u32) + 32) as char
    } else {
        c
    }
}

pub fn char_to_ascii_lowercase(c: char) -> (res: char)
    ensures
        res == spec_char_to_ascii_lowercase(c),
{
    if is_ascii_uppercase(c) {
        let v: u8 = (c as u8) + 32;
        v as char
    } else {
        c
    }
}

// ---------------------------------------------------------------------------
// Conversions between `str` and character vectors
// ---------------------------------------------------------------------------

/// The characters of `s`, in order.
pub fn chars_of(s: &str) -> (res: Vec<char>)
    ensures
        res@ == s@,
{
    let mut out: Vec<char> = Vec::new();
    for c in it: s.chars()
        invariant
            it.seq() == s@,
            out@ == it.seq().take(it.index() as int),
    {
        out.push(c);
    }
    out
}

/// Appends one character to a `String` (`String::push`).
#[verifier::external_body]
pub(crate) fn push_char(s: &mut String, c: char)
    ensures
        final(s)@ == old(s)@.push(c),
{
    s.push(c);
}

/// Appends a string slice to a `String`.
pub(crate) fn push_str(s: &mut String, t: &str)
    ensures
        final(s)@ == old(s)@ + t@,
{
    s.append(t);
}

/// The `String` whose characters are `v[from..to]`.
pub fn string_of_range(v: &Vec<char>, from: usize, to: usize) -> (res: String)
    requires
        from <= to <= v@.len(),
    ensures
        res@ == v@.subrange(from as int, to as int),
{
    let mut out = String::new();
    let mut i = from;
    while i < to
        invariant
            from <= i <= to <= v@.len(),
            out@ == v@.subrange(from as int, i as int),
        decreases to - i,
    {
        push_char(&mut out, v[i]);
        i = i + 1;
    }
    out
}

/// The `String` whose characters are all of `v`.
pub fn string_of_chars(v: &Vec<char>) -> (res: String)
    ensures
        res@ == v@,
{
    let s = string_of_range(v, 0, v.len());
    assert(v@.subrange(0, v@.len() as int) =~= v@);
    s
}

/// A fresh `String` with the characters of `s`.
pub fn copy_str(s: &str) -> (res: String)
    ensures
        res@ == s@,
{
    let v = chars_of(s);
    string_of_chars(&v)
}

// ---------------------------------------------------------------------------
// Trimming
// ---------------------------------------------------------------------------

/// Number of leading whitespace characters of `s`.
pub open spec fn spec_leading_ws(s: Seq<char>) -> nat
    decreases s.len(),
{
    if s.len() > 0 && spec_is_whitespace(s[0]) {
        1 + spec_leading_ws(s.drop_first())
    } else {
        0
    }
}

/// Number of trailing whitespace characters of `s`.
pub open spec fn spec_trailing_ws(s: Seq<char>) -> nat
    decreases s.len(),
{
    if s.len() > 0 && spec_is_whitespace(s.last()) {
        1 + spec_trailing_ws(s.drop_last())
    } else {
        0
    }
}

/// `str::trim_start`.
pub open spec fn spec_trim_start(s: Seq<char>) -> Seq<char> {
    s.skip(spec_leading_ws(s) as int)
}

/// `str::trim_end`.
pub open spec fn spec_trim_end(s: Seq<char>) -> Seq<char> {
    s.take(s.len() - spec_trailing_ws(s))
}

/// `str::trim`.
pub open spec fn spec_trim(s: Seq<char>) -> Seq<char> {
    spec_trim_end(spec_trim_start(s))
}

pub proof fn lemma_leading_ws_bound(s: Seq<char>)
    ensures
        spec_leading_ws(s) <= s.len(),
        forall|i: int| 0 <= i < spec_leading_ws(s) ==> spec_is_whitespace(#[trigger] s[i]),
        spec_leading_ws(s) < s.len() ==> !spec_is_whitespace(s[spec_leading_ws(s) as int]),
    decreases s.len(),
{
    if s.len() > 0 && spec_is_whitespace(s[0]) {
        lemma_leading_ws_bound(s.drop_first());
        assert forall|i: int| 0 <= i < spec_leading_ws(s) implies spec_is_whitespace(
            #[trigger] s[i],
        ) by {
            if i > 0 {
                assert(s[i] == s.drop_first()[i - 1]);
            }
        }
        if spec_leading_ws(s) < s.len() {
            assert(s[spec_leading_ws(s) as int] == s.drop_first()[spec_leading_ws(
                s.drop_first(),
            ) as int]);
        }
    }
}

pub proof fn lemma_trailing_ws_bound(s: Seq<char>)
    ensures
        spec_trailing_ws(s) <= s.len(),
        forall|i: int|
            s.len() - spec_trailing_ws(s) <= i < s.len() ==> spec_is_whitespace(#[trigger] s[i]),
        spec_trailing_ws(s) < s.len() ==> !spec_is_whitespace(
            s[s.len() - spec_trailing_ws(s) - 1],
        ),
    decreases s.len(),
{
    if s.len() > 0 && spec_is_whitespace(s.last()) {
        lemma_trailing_ws_bound(s.drop_last());
        assert forall|i: int|
            s.len() - spec_trailing_ws(s) <= i < s.len() implies spec_is_whitespace(
            #[trigger] s[i],
        ) by {
            if i < s.len() - 1 {
                assert(s[i] == s.drop_last()[i]);
            }
        }
    }
}

/// Index of the first non-whitespace character in `v[from..to]` (or `to`).
pub fn skip_ws_forward(v: &Vec<char>, from: usize, to: usize) -> (res: usize)
    requires
        from <= to <= v@.len(),
    ensures
        res == from + spec_leading_ws(v@.subrange(from as int, to as int)),
{
    let mut i = from;
    while i < to && is_whitespace(v[i])
        invariant
            from <= i <= to <= v@.len(),
            spec_leading_ws(v@.subrange(from as int, to as int)) == (i - from) + spec_leading_ws(
                v@.subrange(i as int, to as int),
            ),
        decreases to - i,
    {
        assert(v@.subrange(i as int, to as int).drop_first() =~= v@.subrange(
            i + 1,
            to as int,
        ));
        i = i + 1;
    }
    i
}

/// One past the index of the last non-whitespace character in `v[from..to]` (or `from`).
fn skip_ws_backward(v: &Vec<char>, from: usize, to: usize) -> (res: usize)
    requires
        from <= to <= v@.len(),
    ensures
        res == to - spec_trailing_ws(v@.subrange(from as int, to as int)),
{
    let mut j = to;
    while j > from && is_whitespace(v[j - 1])
        invariant
            from <= j <= to <= v@.len(),
            spec_trailing_ws(v@.subrange(from as int, to as int)) == (to - j) + spec_trailing_ws(
                v@.subrange(from as int, j as int),
            ),
        decreases j - from,
    {
        assert(v@.subrange(from as int, j as int).drop_last() =~= v@.subrange(
            from as int,
            j - 1,
        ));
        j = j - 1;
    }
    j
}

/// The bounds `(a, b)` of `trim(v[from..to])` inside `v`.
pub fn trim_bounds(v: &Vec<char>, from: usize, to: usize) -> (res: (usize, usize))
    requires
        from <= to <= v@.len(),
    ensures
        from <= res.0 <= res.1 <= to,
        v@.subrange(res.0 as int, res.1 as int) == spec_trim(v@.subrange(from as int, to as int)),
{
    let ghost s = v@.subrange(from as int, to as int);
    let a = skip_ws_forward(v, from, to);
    proof {
        lemma_leading_ws_bound(s);
        assert(spec_trim_start(s) =~= v@.subrange(a as int, to as int));
    }
    let b = skip_ws_backward(v, a, to);
    proof {
        lemma_trailing_ws_bound(v@.subrange(a as int, to as int));
        assert(v@.subrange(a as int, b as int) =~= spec_trim_end(
            v@.subrange(a as int, to as int),
        ));
    }
    (a, b)
}

/// `s.trim()` as a new `String`.
pub fn trim_string(s: &str) -> (res: String)
    ensures
        res@ == spec_trim(s@),
{
    let v = chars_of(s);
    let (a, b) = trim_bounds(&v, 0, v.len());
    assert(v@.subrange(0, v@.len() as int) =~= v@);
    string_of_range(&v, a, b)
}

// ---------------------------------------------------------------------------
// Searching
// ---------------------------------------------------------------------------

pub open spec fn spec_starts_with(s: Seq<char>, p: Seq<char>) -> bool {
    p.len() <= s.len() && s.take(p.len() as int) == p
}

pub open spec fn spec_ends_with(s: Seq<char>, p: Seq<char>) -> bool {
    p.len() <= s.len() && s.skip(s.len() - p.len()) == p
}

/// `needle` occurs in `s` starting at index `i`.
pub open spec fn spec_occurs_at(s: Seq<char>, needle: Seq<char>, i: int) -> bool {
    0 <= i && i + needle.len() <= s.len() && s.subrange(i, i + needle.len()) == needle
}

pub open spec fn spec_contains(s: Seq<char>, needle: Seq<char>) -> bool {
    exists|i: int| spec_occurs_at(s, needle, i)
}

pub open spec fn spec_contains_char(s: Seq<char>, c: char) -> bool {
    exists|i: int| 0 <= i < s.len() && s[i] == c
}

/// Whether `needle` occurs in `v` at index `i`.
pub fn occurs_at(v: &Vec<char>, needle: &Vec<char>, i: usize) -> (res: bool)
    ensures
        res == spec_occurs_at(v@, needle@, i as int),
{
    if i > v.len() || needle.len() > v.len() - i {
        return false;
    }
    let mut k: usize = 0;
    while k < needle.len()
        invariant
            i + needle@.len() <= v.len(),
            k <= needle@.len(),
            forall|m: int| 0 <= m < k ==> v@[i + m] == needle@[m],
        decreases needle@.len() - k,
    {
        if v[i + k] != needle[k] {
            assert(v@.subrange(i as int, i + needle@.len())[k as int] != needle@[k as int]);
            return false;
        }
        k = k + 1;
    }
    assert(v@.subrange(i as int, i + needle@.len()) =~= needle@);
    true
}

pub fn starts_with_chars(v: &Vec<char>, p: &Vec<char>) -> (res: bool)
    ensures
        res == spec_starts_with(v@, p@),
{
    let r = occurs_at(v, p, 0);
    proof {
        if p@.len() <= v@.len() {
            assert(v@.take(p@.len() as int) =~= v@.subrange(0, p@.len() as int));
        }
    }
    r
}

pub fn ends_with_chars(v: &Vec<char>, p: &Vec<char>) -> (res: bool)
    ensures
        res == spec_ends_with(v@, p@),
{
    if p.len() > v.len() {
        return false;
    }
    let r = occurs_at(v, p, v.len() - p.len());
    assert(v@.skip(v@.len() - p@.len()) =~= v@.subrange(v@.len() - p@.len(), v@.len() as int));
    r
}

pub fn contains_chars(v: &Vec<char>, needle: &Vec<char>) -> (res: bool)
    ensures
        res == spec_contains(v@, needle@),
{
    if needle.len() > v.len() {
        return false;
    }
    if needle.len() == 0 {
        assert(v@.subrange(0, 0) =~= needle@);
        assert(spec_occurs_at(v@, needle@, 0));
        return true;
    }
    let mut i: usize = 0;
    while i <= v.len() - needle.len()
        invariant
            0 < needle@.len() <= v@.len(),
            i <= v@.len() - needle@.len() + 1,
            forall|j: int| 0 <= j < i ==> !spec_occurs_at(v@, needle@, j),
        decreases v@.len() - needle@.len() + 1 - i,
    {
        if occurs_at(v, needle, i) {
            return true;
        }
        i = i + 1;
    }
    false
}

pub fn contains_char(v: &Vec<char>, c: char) -> (res: bool)
    ensures
        res == spec_contains_char(v@, c),
{
    let mut i: usize = 0;
    while i < v.len()
        invariant
            i <= v@.len(),
            forall|j: int| 0 <= j < i ==> v@[j] != c,
        decreases v@.len() - i,
    {
        if v[i] == c {
            return true;
        }
        i = i + 1;
    }
    false
}

/// `s.starts_with(p)` for string slices.
pub fn str_starts_with(s: &str, p: &str) -> (res: bool)
    ensures
        res == spec_starts_with(s@, p@),
{
    starts_with_chars(&chars_of(s), &chars_of(p))
}

/// Whether two string slices hold the same characters.
pub fn str_eq(a: &str, b: &str) -> (res: bool)
    ensures
        res == (a@ == b@),
{
    let va = chars_of(a);
    let vb = chars_of(b);
    chars_eq(&va, &vb)
}

pub fn chars_eq(va: &Vec<char>, vb: &Vec<char>) -> (res: bool)
    ensures
        res == (va@ == vb@),
{
    if va.len() != vb.len() {
        return false;
    }
    let r = occurs_at(va, vb, 0);
    proof {
        if r {
            assert(va@ =~= va@.subrange(0, vb@.len() as int));
        } else {
            assert(!(va@.subrange(0, vb@.len() as int) == vb@));
            if va@ == vb@ {
                assert(va@.subrange(0, vb@.len() as int) =~= vb@);
            }
        }
    }
    r
}

/// Index of the first occurrence of `c` in `s`, if any.
pub open spec fn spec_find_char(s: Seq<char>, c: char) -> Option<int>
    decreases s.len(),
{
    if s.len() == 0 {
        None
    } else if s[0] == c {
        Some(0)
    } else {
        match spec_find_char(s.drop_first(), c) {
            Some(i) => Some(i + 1),
            None => None,
        }
    }
}

pub proof fn lemma_find_char(s: Seq<char>, c: char)
    ensures
        match spec_find_char(s, c) {
            Some(i) => 0 <= i < s.len() && s[i] == c && forall|j: int| 0 <= j < i ==> s[j] != c,
            None => forall|j: int| 0 <= j < s.len() ==> s[j] != c,
        },
    decreases s.len(),
{
    if s.len() > 0 && s[0] != c {
        lemma_find_char(s.drop_first(), c);
        match spec_find_char(s.drop_first(), c) {
            Some(i) => {
                assert forall|j: int| 0 <= j < i + 1 implies s[j] != c by {
                    if j > 0 {
                        assert(s[j] == s.drop_first()[j - 1]);
                    }
                }
            },
            None => {
                assert forall|j: int| 0 <= j < s.len() implies s[j] != c by {
                    if j > 0 {
                        assert(s[j] == s.drop_first()[j - 1]);
                    }
                }
            },
        }
    }
}

/// The characterisation of `spec_find_char` determines it.
pub proof fn lemma_find_char_unique(s: Seq<char>, c: char, k: int)
    requires
        0 <= k <= s.len(),
        k < s.len() ==> s[k] == c,
        forall|j: int| 0 <= j < k ==> s[j] != c,
    ensures
        spec_find_char(s, c) == (if k < s.len() {
            Some(k)
        } else {
            None::<int>
        }),
{
    lemma_find_char(s, c);
}

/// Index of the first occurrence of `c` in `v[from..]`, relative to `from`.
pub fn find_char_from(v: &Vec<char>, from: usize, c: char) -> (res: Option<usize>)
    requires
        from <= v@.len(),
    ensures
        match res {
            Some(i) => spec_find_char(v@.skip(from as int), c) == Some(i - from) && from <= i
                < v@.len(),
            None => spec_find_char(v@.skip(from as int), c) is None,
        },
{
    let mut i = from;
    while i < v.len()
        invariant
            from <= i <= v@.len(),
            forall|j: int| from <= j < i ==> v@[j] != c,
        decreases v@.len() - i,
    {
        if v[i] == c {
            proof {
                lemma_find_char_unique(v@.skip(from as int), c, i - from);
            }
            return Some(i);
        }
        i = i + 1;
    }
    proof {
        lemma_find_char_unique(v@.skip(from as int), c, v@.len() - from);
    }
    None
}

// ---------------------------------------------------------------------------
// Lines
// ---------------------------------------------------------------------------

/// A line without its terminator: a `'\r'` right before the `'\n'` is dropped.
pub open spec fn spec_strip_cr(line: Seq<char>) -> Seq<char> {
    if line.len() > 0 && line.last() == '\r' {
        line.drop_last()
    } else {
        line
    }
}

/// `str::lines`: split at `'\n'` (dropping a `'\r'` before it); the final
/// line ending is optional and an empty text has no lines.
pub open spec fn spec_lines(s: Seq<char>) -> Seq<Seq<char>>
    decreases s.len(),
{
    if s.len() == 0 {
        Seq::empty()
    } else {
        match spec_find_char(s, '\n') {
            None => seq![s],
            Some(i) => {
                proof {
                    lemma_find_char(s, '\n');
                }
                seq![spec_strip_cr(s.take(i))] + spec_lines(s.skip(i + 1))
            },
        }
    }
}

/// A text has at most as many lines as characters.
pub proof fn lemma_lines_len(s: Seq<char>)
    ensures
        spec_lines(s).len() <= s.len(),
    decreases s.len(),
{
    if s.len() > 0 {
        lemma_find_char(s, '\n');
        match spec_find_char(s, '\n') {
            None => {},
            Some(i) => {
                lemma_lines_len(s.skip(i + 1));
            },
        }
    }
}

/// The total length of some lines.
pub open spec fn spec_total_len(lines: Seq<Seq<char>>) -> nat
    decreases lines.len(),
{
    if lines.len() == 0 {
        0
    } else {
        spec_total_len(lines.drop_last()) + lines.last().len()
    }
}

pub proof fn lemma_total_len_prepend(a: Seq<char>, rest: Seq<Seq<char>>)
    ensures
        spec_total_len(seq![a] + rest) == a.len() + spec_total_len(rest),
    decreases rest.len(),
{
    if rest.len() > 0 {
        lemma_total_len_prepend(a, rest.drop_last());
        assert((seq![a] + rest).drop_last() =~= seq![a] + rest.drop_last());
        assert((seq![a] + rest).last() == rest.last());
    } else {
        assert(seq![a] + rest =~= seq![a]);
        assert(seq![a].drop_last() =~= Seq::<Seq<char>>::empty());
        assert(seq![a].last() == a);
        assert(spec_total_len(Seq::<Seq<char>>::empty()) == 0);
        assert(spec_total_len(seq![a]) == spec_total_len(seq![a].drop_last()) + seq![a].last().len());
    }
}

/// A prefix of some lines is no longer than all of them.
pub proof fn lemma_total_len_prefix(lines: Seq<Seq<char>>, n: int)
    requires
        0 <= n <= lines.len(),
    ensures
        spec_total_len(lines.take(n)) <= spec_total_len(lines),
    decreases lines.len() - n,
{
    if n < lines.len() {
        lemma_total_len_prefix(lines, n + 1);
        assert(lines.take(n + 1).drop_last() =~= lines.take(n));
    } else {
        assert(lines.take(n) =~= lines);
    }
}

/// The lines of a text are no longer, together, than the text.
pub proof fn lemma_lines_total_len(s: Seq<char>)
    ensures
        spec_total_len(spec_lines(s)) <= s.len(),
    decreases s.len(),
{
    if s.len() > 0 {
        lemma_find_char(s, '\n');
        match spec_find_char(s, '\n') {
            None => {
                assert(spec_lines(s) == seq![s]);
                assert(seq![s].drop_last() =~= Seq::<Seq<char>>::empty());
                assert(spec_total_len(seq![s]) == spec_total_len(Seq::<Seq<char>>::empty())
                    + s.len());
            },
            Some(i) => {
                lemma_lines_total_len(s.skip(i + 1));
                lemma_total_len_prepend(spec_strip_cr(s.take(i)), spec_lines(s.skip(i + 1)));
                assert(spec_strip_cr(s.take(i)).len() <= i);
            },
        }
    }
}

/// The lines of `s`, as described by `spec_lines`.
pub fn lines_of(s: &str) -> (res: Vec<String>)
    ensures
        res@.len() == spec_lines(s@).len(),
        forall|i: int| 0 <= i < res@.len() ==> #[trigger] res@[i]@ == spec_lines(s@)[i],
{
    let v = chars_of(s);
    let mut out: Vec<String> = Vec::new();
    let mut start: usize = 0;
    let ghost done: Seq<Seq<char>> = Seq::empty();
    assert(v@.skip(0) =~= v@);
    while start < v.len()
        invariant
            start <= v@.len(),
            v@ == s@,
            out@.len() == done.len(),
            forall|i: int| 0 <= i < out@.len() ==> #[trigger] out@[i]@ == done[i],
            done + spec_lines(v@.skip(start as int)) == spec_lines(s@),
        decreases v@.len() - start,
    {
        let ghost rest = v@.skip(start as int);
        match find_char_from(&v, start, '\n') {
            None => {
                let line = string_of_range(&v, start, v.len());
                assert(line@ =~= rest);
                proof {
                    assert(spec_lines(rest) == seq![rest]);
                    done = done.push(rest);
                    assert(v@.skip(v@.len() as int) =~= Seq::<char>::empty());
                }
                out.push(line);
                start = v.len();
            },
            Some(i) => {
                let mut end = i;
                if end > start && v[end - 1] == '\r' {
                    end = end - 1;
                }
                let line = string_of_range(&v, start, end);
                proof {
                    let k = i - start;
                    assert(rest.take(k) =~= v@.subrange(start as int, i as int));
                    assert(spec_strip_cr(rest.take(k)) =~= line@);
                    assert(rest.skip(k + 1) =~= v@.skip(i + 1));
                    assert(spec_lines(rest) == seq![line@] + spec_lines(v@.skip(i + 1)));
                    done = done.push(line@);
                    assert(done + spec_lines(v@.skip(i + 1)) =~= (done.drop_last() + seq![
                        line@,
                    ]) + spec_lines(v@.skip(i + 1)));
                }
                out.push(line);
                start = i + 1;
            },
        }
    }
    assert(v@.skip(start as int) =~= Seq::<char>::empty());
    assert(done =~= spec_lines(s@));
    out
}

// ---------------------------------------------------------------------------
// Counting
// ---------------------------------------------------------------------------

/// Number of non-overlapping occurrences of a non-empty `needle` in `s[i..]`,
/// scanning left to right (`str::match_indices(..).count()`).
pub open spec fn spec_count_from(s: Seq<char>, needle: Seq<char>, i: int) -> nat
    decreases s.len() - i,
{
    if needle.len() == 0 || i < 0 || i + needle.len() > s.len() {
        0
    } else if spec_occurs_at(s, needle, i) {
        1 + spec_count_from(s, needle, i + needle.len())
    } else {
        spec_count_from(s, needle, i + 1)
    }
}

/// `haystack.match_indices(needle).count()`: an empty needle matches at every
/// character boundary.
pub open spec fn spec_count_occurrences(s: Seq<char>, needle: Seq<char>) -> nat {
    if needle.len() == 0 {
        s.len() + 1
    } else {
        spec_count_from(s, needle, 0)
    }
}

pub proof fn lemma_count_from_bound(s: Seq<char>, needle: Seq<char>, i: int)
    requires
        0 <= i <= s.len(),
    ensures
        spec_count_from(s, needle, i) <= s.len() - i,
    decreases s.len() - i,
{
    if needle.len() == 0 || i + needle.len() > s.len() {
    } else if spec_occurs_at(s, needle, i) {
        lemma_count_from_bound(s, needle, i + needle.len());
    } else {
        lemma_count_from_bound(s, needle, i + 1);
    }
}

/// Each occurrence takes up `needle.len()` characters.
pub proof fn lemma_count_from_scaled(s: Seq<char>, needle: Seq<char>, i: int)
    requires
        0 <= i <= s.len(),
        needle.len() > 0,
    ensures
        spec_count_from(s, needle, i) * needle.len() <= s.len() - i,
    decreases s.len() - i,
{
    let n = needle.len() as int;
    let total = spec_count_from(s, needle, i) as int;
    let room = s.len() - i;
    if i + needle.len() > s.len() {
        assert(total == 0);
        assert(total * n <= room) by (nonlinear_arith)
            requires
                total == 0,
                room >= 0,
        ;
    } else if spec_occurs_at(s, needle, i) {
        lemma_count_from_scaled(s, needle, i + needle.len());
        let c = spec_count_from(s, needle, i + needle.len()) as int;
        assert(total == 1 + c);
        assert(total * n <= room) by (nonlinear_arith)
            requires
                total == 1 + c,
                c * n <= room - n,
        ;
    } else {
        lemma_count_from_scaled(s, needle, i + 1);
        let c = spec_count_from(s, needle, i + 1) as int;
        assert(total == c);
    }
}

pub fn count_occurrences_chars(v: &Vec<char>, needle: &Vec<char>) -> (res: usize)
    requires
        needle@.len() > 0 || v@.len() < usize::MAX,
    ensures
        res == spec_count_occurrences(v@, needle@),
{
    if needle.len() == 0 {
        return v.len() + 1;
    }
    let mut i: usize = 0;
    let mut count: usize = 0;
    while needle.len() <= v.len() - i
        invariant
            needle@.len() > 0,
            i <= v@.len(),
            count <= i,
            count + spec_count_from(v@, needle@, i as int) == spec_count_from(v@, needle@, 0),
        decreases v@.len() - i,
    {
        if occurs_at(v, needle, i) {
            count = count + 1;
            i = i + needle.len();
        } else {
            i = i + 1;
        }
    }
    count
}

/// `haystack.match_indices(needle).count()` for string slices.
pub fn count_occurrences(haystack: &str, needle: &str) -> (res: usize)
    requires
        needle@.len() > 0 || haystack@.len() < usize::MAX,
    ensures
        res == spec_count_occurrences(haystack@, needle@),
{
    count_occurrences_chars(&chars_of(haystack), &chars_of(needle))
}

// ---------------------------------------------------------------------------
// Ordering
// ---------------------------------------------------------------------------

/// The order of `str` (and `String`): lexicographic by code point, a proper
/// prefix first.
pub open spec fn spec_str_lt(a: Seq<char>, b: Seq<char>) -> bool
    decreases a.len(),
{
    if a.len() == 0 {
        b.len() > 0
    } else if b.len() == 0 {
        false
    } else if a[0] != b[0] {
        a[0] < b[0]
    } else {
        spec_str_lt(a.drop_first(), b.drop_first())
    }
}

pub proof fn lemma_str_lt_irreflexive(a: Seq<char>)
    ensures
        !spec_str_lt(a, a),
    decreases a.len(),
{
    if a.len() > 0 {
        lemma_str_lt_irreflexive(a.drop_first());
    }
}

pub proof fn lemma_str_lt_total(a: Seq<char>, b: Seq<char>)
    ensures
        a != b ==> spec_str_lt(a, b) || spec_str_lt(b, a),
        !(spec_str_lt(a, b) && spec_str_lt(b, a)),
    decreases a.len(),
{
    if a.len() > 0 && b.len() > 0 {
        if a[0] == b[0] {
            lemma_str_lt_total(a.drop_first(), b.drop_first());
            if a != b {
                assert(a =~= seq![a[0]] + a.drop_first());
                assert(b =~= seq![b[0]] + b.drop_first());
            }
        }
    } else if a.len() == 0 && b.len() == 0 {
        assert(a =~= b);
    }
}

pub proof fn lemma_str_lt_transitive(a: Seq<char>, b: Seq<char>, c: Seq<char>)
    requires
        spec_str_lt(a, b),
        spec_str_lt(b, c),
    ensures
        spec_str_lt(a, c),
    decreases a.len(),
{
    if a.len() > 0 && b.len() > 0 && c.len() > 0 && a[0] == b[0] && b[0] == c[0] {
        lemma_str_lt_transitive(a.drop_first(), b.drop_first(), c.drop_first());
    }
}

/// Whether `a` orders before `b`.
pub fn chars_lt(a: &Vec<char>, b: &Vec<char>) -> (res: bool)
    ensures
        res == spec_str_lt(a@, b@),
{
    let mut i: usize = 0;
    assert(a@.skip(0) =~= a@);
    assert(b@.skip(0) =~= b@);
    while i < a.len() && i < b.len() && a[i] == b[i]
        invariant
            i <= a@.len(),
            i <= b@.len(),
            spec_str_lt(a@, b@) == spec_str_lt(a@.skip(i as int), b@.skip(i as int)),
        decreases a@.len() - i,
    {
        assert(a@.skip(i as int).drop_first() =~= a@.skip(i + 1));
        assert(b@.skip(i as int).drop_first() =~= b@.skip(i + 1));
        i = i + 1;
    }
    if i == a.len() {
        i < b.len()
    } else if i == b.len() {
        false
    } else {
        a[i] < b[i]
    }
}

// ---------------------------------------------------------------------------
// Pattern lists
// ---------------------------------------------------------------------------

/// The views of a list of string slices.
pub open spec fn strs_view(v: Seq<&str>) -> Seq<Seq<char>> {
    v.map_values(|p: &str| p@)
}

pub open spec fn spec_contains_any(s: Seq<char>, pats: Seq<Seq<char>>) -> bool {
    exists|i: int| 0 <= i < pats.len() && spec_contains(s, #[trigger] pats[i])
}

pub open spec fn spec_starts_with_any(s: Seq<char>, pats: Seq<Seq<char>>) -> bool {
    exists|i: int| 0 <= i < pats.len() && spec_starts_with(s, #[trigger] pats[i])
}

/// Whether `v` contains one of the patterns.
pub fn contains_any(v: &Vec<char>, pats: &Vec<&str>) -> (res: bool)
    ensures
        res == spec_contains_any(v@, strs_view(pats@)),
{
    let mut i: usize = 0;
    while i < pats.len()
        invariant
            i <= pats@.len(),
            forall|k: int| 0 <= k < i ==> !spec_contains(v@, #[trigger] strs_view(pats@)[k]),
        decreases pats@.len() - i,
    {
        if contains_chars(v, &chars_of(pats[i])) {
            assert(spec_contains(v@, strs_view(pats@)[i as int]));
            return true;
        }
        i = i + 1;
    }
    false
}

/// Whether `v` starts with one of the patterns.
pub fn starts_with_any(v: &Vec<char>, pats: &Vec<&str>) -> (res: bool)
    ensures
        res == spec_starts_with_any(v@, strs_view(pats@)),
{
    let mut i: usize = 0;
    while i < pats.len()
        invariant
            i <= pats@.len(),
            forall|k: int| 0 <= k < i ==> !spec_starts_with(v@, #[trigger] strs_view(pats@)[k]),
        decreases pats@.len() - i,
    {
        if starts_with_chars(v, &chars_of(pats[i])) {
            assert(spec_starts_with(v@, strs_view(pats@)[i as int]));
            return true;
        }
        i = i + 1;
    }
    false
}

/// Whether `v` equals one of the patterns.
pub fn equals_any(v: &Vec<char>, pats: &Vec<&str>) -> (res: bool)
    ensures
        res == strs_view(pats@).contains(v@),
{
    let mut i: usize = 0;
    while i < pats.len()
        invariant
            i <= pats@.len(),
            forall|k: int| 0 <= k < i ==> #[trigger] strs_view(pats@)[k] != v@,
        decreases pats@.len() - i,
    {
        if chars_eq(&chars_of(pats[i]), v) {
            assert(strs_view(pats@)[i as int] == v@);
            return true;
        }
        i = i + 1;
    }
    false
}

// ---------------------------------------------------------------------------
// UTF-8 length
// ---------------------------------------------------------------------------

/// The number of bytes UTF-8 uses for a character.
pub open spec fn spec_utf8_width(c: char) -> nat {
    let v = c as u32;
    if v < 0x80 {
        1
    } else if v < 0x800 {
        2
    } else if v < 0x10000 {
        3
    } else {
        4
    }
}

/// The UTF-8 length of a text in bytes (`str::len`).
pub open spec fn spec_utf8_len(s: Seq<char>) -> nat
    decreases s.len(),
{
    if s.len() == 0 {
        0
    } else {
        spec_utf8_len(s.drop_last()) + spec_utf8_width(s.last())
    }
}

/// Whether the UTF-8 length of `v[from..to]` lies within `lo..=hi`.
pub fn utf8_len_within(v: &Vec<char>, from: usize, to: usize, lo: usize, hi: usize) -> (res: bool)
    requires
        from <= to <= v@.len(),
    ensures
        res == (lo <= spec_utf8_len(v@.subrange(from as int, to as int)) <= hi),
{
    let mut total: usize = 0;
    let mut i = from;
    assert(v@.subrange(from as int, from as int) =~= Seq::<char>::empty());
    while i < to
        invariant
            from <= i <= to <= v@.len(),
            total == spec_utf8_len(v@.subrange(from as int, i as int)),
            total <= hi,
        decreases to - i,
    {
        let c = v[i];
        let w: usize = if (c as u32) < 0x80 {
            1
        } else if (c as u32) < 0x800 {
            2
        } else if (c as u32) < 0x10000 {
            3
        } else {
            4
        };
        assert(v@.subrange(from as int, i + 1).drop_last() =~= v@.subrange(from as int, i as int));
        if w > hi - total {
            proof {
                lemma_utf8_len_prefix_monotone(v@.subrange(from as int, to as int), i + 1 - from);
                assert(v@.subrange(from as int, to as int).take(i + 1 - from) =~= v@.subrange(
                    from as int,
                    i + 1,
                ));
            }
            return false;
        }
        total = total + w;
        i = i + 1;
    }
    lo <= total
}

/// A prefix is no longer in UTF-8 than the whole text.
pub proof fn lemma_utf8_len_prefix_monotone(s: Seq<char>, n: int)
    requires
        0 <= n <= s.len(),
    ensures
        spec_utf8_len(s.take(n)) <= spec_utf8_len(s),
    decreases s.len() - n,
{
    if n < s.len() {
        lemma_utf8_len_prefix_monotone(s, n + 1);
        assert(s.take(n + 1).drop_last() =~= s.take(n));
    } else {
        assert(s.take(n) =~= s);
    }
}

} // verus!

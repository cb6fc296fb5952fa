//! Recovering a semantic version from the inconsistent version strings found
//! in Blender build names, file names and version banners.
//!
//! A string is tried, in order, as a strict SemVer version (after trimming),
//! as a strict SemVer version after a cleaning pass (a `blender`/`v` prefix,
//! in any case, and a `-linux`/`-windows` suffix removed), and then against the legacy
//! patterns below, in priority order; the first that succeeds wins.
//!
//! The legacy patterns, with `D` a run of ASCII digits:
//! 1. `D.D (sub D)`: major, minor, patch.
//! 2. `D.D.D` then a space or `-`, then a pre-release up to the first `+`.
//! 3. `D.D` then a space or `-`, then a pre-release up to the first `+`.
//! 4. `D.D` at the end of the string.
//! 5. `D.D` then up to three characters that are not `-`, as the pre-release.
//!
//! (A further catch-all, `D.D` with an optional non-numeric tail, is never
//! reached: pattern 5 already matches every `D.D`.)
//!
//! In search mode a pattern may match anywhere, and its leftmost match counts;
//! otherwise it must match at the start of the string. A captured pre-release
//! is lower-cased, and must then be a valid SemVer pre-release, or the whole
//! parse fails. A missing patch is zero.
use vstd::prelude::*;

use core::cmp::Ordering;

use crate::text::{
    all_digits, chars_of, decimal, decimal_chars, push_all, push_str, cut_at, cut_at_spec, digit_run_end, digits_u64, is_digit, is_letter, occurs_at, occurs_at_exec, read_digits, run_end,
    slice_chars, string_of, trim_end_spec, trim_spec, trim_start_spec, trim_str,
};

verus! {

/// A semantic version: `major.minor.patch[-pre][+build]`.
///
/// Two versions are equal when their numbers and pre-release agree; build
/// metadata plays no part in equality.
#[derive(Clone, Debug)]
pub struct Version {
    pub major: u64,
    pub minor: u64,
    pub patch: u64,
    /// The pre-release text, without its `-`; empty where there is none.
    pub pre: String,
    /// The build metadata, without its `+`; empty where there is none.
    pub build: String,
}

/// A version as plain values: the three numbers, the pre-release and the build
/// metadata.
pub type VersionParts = (u64, u64, u64, Seq<char>, Seq<char>);

impl View for Version {
    type V = VersionParts;

    open spec fn view(&self) -> VersionParts {
        (self.major, self.minor, self.patch, self.pre@, self.build@)
    }
}

impl PartialEq for Version {
    fn eq(&self, o: &Version) -> (r: bool)
        ensures
            r == (self.major == o.major && self.minor == o.minor && self.patch == o.patch
                && self.pre@ == o.pre@),
    {
        self.major == o.major && self.minor == o.minor && self.patch == o.patch && self.pre
            == o.pre
    }
}

impl vstd::std_specs::cmp::PartialEqSpecImpl for Version {
    open spec fn obeys_eq_spec() -> bool {
        true
    }

    open spec fn eq_spec(&self, o: &Version) -> bool {
        self.major == o.major && self.minor == o.minor && self.patch == o.patch && self.pre@
            == o.pre@
    }
}

impl Eq for Version {

}

impl Version {
    /// The version `major.minor.patch`, with neither pre-release nor build
    /// metadata.
    pub fn new(major: u64, minor: u64, patch: u64) -> (r: Version)
        ensures
            r@ == (major, minor, patch, Seq::<char>::empty(), Seq::<char>::empty()),
    {
        Version { major, minor, patch, pre: String::new(), build: String::new() }
    }
}

/// The view of an optional version.
pub open spec fn opt_view(r: Option<Version>) -> Option<VersionParts> {
    match r {
        Some(v) => Some(v@),
        None => None,
    }
}

/// A character that may stand in a SemVer identifier.
pub open spec fn ident_char(c: char) -> bool {
    is_digit(c) || is_letter(c) || c == '-'
}

/// `s` is one or more non-empty identifiers joined by dots.
pub open spec fn dotted_identifiers(s: Seq<char>) -> bool {
    &&& s.len() > 0
    &&& forall|i: int| 0 <= i < s.len() ==> ident_char(#[trigger] s[i]) || s[i] == '.'
    &&& s[0] != '.'
    &&& s.last() != '.'
    &&& forall|i: int| 0 <= i < s.len() - 1 && #[trigger] s[i] == '.' ==> s[i + 1] != '.'
}

/// The end of the identifier that starts at `i`: the next dot, or the end.
pub open spec fn segment_end(s: Seq<char>, i: int) -> int
    decreases s.len() - i,
{
    if 0 <= i < s.len() && s[i] != '.' {
        segment_end(s, i + 1)
    } else {
        i
    }
}

/// An identifier starts at `i`.
pub open spec fn starts_identifier(s: Seq<char>, i: int) -> bool {
    0 <= i < s.len() && (i == 0 || s[i - 1] == '.')
}

/// The identifier that starts at `i` is numeric, longer than one digit, and
/// starts with `0`.
pub open spec fn leading_zero_at(s: Seq<char>, i: int) -> bool {
    &&& s[i] == '0'
    &&& segment_end(s, i) > i + 1
    &&& all_digits(s.subrange(i, segment_end(s, i)))
}

/// A valid SemVer pre-release: empty, or dotted identifiers none of which is a
/// number with a leading zero.
pub open spec fn prerelease_valid(s: Seq<char>) -> bool {
    s.len() == 0 || (dotted_identifiers(s) && forall|i: int|
        #[trigger] starts_identifier(s, i) ==> !leading_zero_at(s, i))
}

/// Valid SemVer build metadata: empty, or dotted identifiers.
pub open spec fn build_metadata_valid(s: Seq<char>) -> bool {
    s.len() == 0 || dotted_identifiers(s)
}

/// A character that a strictly valid SemVer version may hold.
pub open spec fn semver_char(c: char) -> bool {
    ident_char(c) || c == '.' || c == '+'
}

/// Every character of `s` may stand in a strictly valid SemVer version.
pub open spec fn all_semver_chars(s: Seq<char>) -> bool {
    forall|i: int| 0 <= i < s.len() ==> semver_char(#[trigger] s[i])
}

/// The end of the run of identifier characters and dots from `i`.
pub open spec fn ident_run_end(s: Seq<char>, i: int) -> int
    decreases s.len() - i,
{
    if 0 <= i < s.len() && (ident_char(s[i]) || s[i] == '.') {
        ident_run_end(s, i + 1)
    } else {
        i
    }
}

/// A SemVer number at `i`: digits without a leading zero whose value fits a
/// `u64`; its value and where it ends.
pub open spec fn semver_number(s: Seq<char>, i: int) -> Option<(u64, int)> {
    let e = run_end(s, i);
    if 0 <= i && e > i && !(s[i] == '0' && e > i + 1) {
        match digits_u64(s.subrange(i, e)) {
            Some(v) => Some((v, e)),
            None => None,
        }
    } else {
        None
    }
}

/// What follows the patch number at `c`: an optional `-` and non-empty
/// valid pre-release, then an optional `+` and non-empty valid build
/// metadata, then the end. Each is the longest run of identifier characters
/// and dots.
pub open spec fn semver_tail(s: Seq<char>, c: int) -> Option<(Seq<char>, Seq<char>)> {
    let has_pre = 0 <= c < s.len() && s[c] == '-';
    let d = if has_pre {
        ident_run_end(s, c + 1)
    } else {
        c
    };
    let pre = if has_pre {
        s.subrange(c + 1, d)
    } else {
        Seq::<char>::empty()
    };
    let has_build = 0 <= d < s.len() && s[d] == '+';
    let f = if has_build {
        ident_run_end(s, d + 1)
    } else {
        d
    };
    let build = if has_build {
        s.subrange(d + 1, f)
    } else {
        Seq::<char>::empty()
    };
    if (has_pre && !(pre.len() > 0 && prerelease_valid(pre))) || (has_build && !(build.len() > 0
        && build_metadata_valid(build))) || f != s.len() {
        None
    } else {
        Some((pre, build))
    }
}

/// Strict SemVer 2.0: `major.minor.patch[-pre][+build]`, the whole text.
pub open spec fn semver_spec(s: Seq<char>) -> Option<VersionParts> {
    match semver_number(s, 0) {
        None => None,
        Some((ma, a)) => if !(a < s.len() && s[a] == '.') {
            None
        } else {
            match semver_number(s, a + 1) {
                None => None,
                Some((mi, b)) => if !(b < s.len() && s[b] == '.') {
                    None
                } else {
                    match semver_number(s, b + 1) {
                        None => None,
                        Some((pa, c)) => match semver_tail(s, c) {
                            Some((pre, build)) => Some((ma, mi, pa, pre, build)),
                            None => None,
                        },
                    }
                },
            }
        },
    }
}

/// What lower-casing makes of a text.
pub uninterp spec fn lowercase_of(s: Seq<char>) -> Seq<char>;

/// Relies on `semver::Version::parse`: strict SemVer parsing, as
/// `semver_spec` states it (numbers without leading zeros that fit a `u64`,
/// then an optional valid pre-release and build metadata); a text it accepts
/// holds only ASCII letters and digits, `.`, `-` and `+`.
#[verifier::external_body]
fn strict_parse(s: &str) -> (r: Option<Version>)
    ensures
        opt_view(r) == semver_spec(s@),
        r is Some ==> forall|i: int| 0 <= i < s@.len() ==> semver_char(#[trigger] s@[i]),
{
    match semver::Version::parse(s) {
        Ok(v) => Some(
            Version {
                major: v.major,
                minor: v.minor,
                patch: v.patch,
                pre: v.pre.as_str().to_string(),
                build: v.build.as_str().to_string(),
            },
        ),
        Err(_) => None,
    }
}

/// Relies on `semver::Prerelease::new`: it accepts exactly the valid
/// pre-release texts and keeps the text as given.
#[verifier::external_body]
pub(crate) fn checked_prerelease(s: &str) -> (r: Option<String>)
    ensures
        r is Some <==> prerelease_valid(s@),
        r matches Some(t) ==> t@ == s@,
{
    match semver::Prerelease::new(s) {
        Ok(p) => Some(p.as_str().to_string()),
        Err(_) => None,
    }
}

/// Relies on `semver::BuildMetadata::new`: it accepts exactly the valid
/// build-metadata texts and keeps the text as given.
#[verifier::external_body]
pub(crate) fn checked_build_metadata(s: &str) -> (r: Option<String>)
    ensures
        r is Some <==> build_metadata_valid(s@),
        r matches Some(t) ==> t@ == s@,
{
    match semver::BuildMetadata::new(s) {
        Ok(b) => Some(b.as_str().to_string()),
        Err(_) => None,
    }
}

/// Relies on `str::to_lowercase`: the result depends on the text alone.
#[verifier::external_body]
fn lowercase(s: &str) -> (r: String)
    ensures
        r@ == lowercase_of(s@),
{
    s.to_lowercase()
}

// ---------------------------------------------------------------------------
// The cleaning pass
/// `blender`
pub open spec fn word_blender() -> Seq<char> {
    seq!['b', 'l', 'e', 'n', 'd', 'e', 'r']
}

/// `c` is the lower-case ASCII letter `lower`, in either case.
pub open spec fn same_letter(c: char, lower: char) -> bool {
    c == lower || c as u32 + 32 == lower as u32
}

/// The lower-case word `w` stands at `p`, its letters in either case.
pub open spec fn word_ci_at(s: Seq<char>, w: Seq<char>, p: int) -> bool {
    &&& 0 <= p
    &&& p + w.len() <= s.len()
    &&& forall|i: int| 0 <= i < w.len() ==> same_letter(#[trigger] s[p + i], w[i])
}

/// `-windows`
pub open spec fn suffix_windows() -> Seq<char> {
    seq!['-', 'w', 'i', 'n', 'd', 'o', 'w', 's']
}

/// `-linux`
pub open spec fn suffix_linux() -> Seq<char> {
    seq!['-', 'l', 'i', 'n', 'u', 'x']
}

pub open spec fn digit_at(s: Seq<char>, i: int) -> bool {
    0 <= i < s.len() && is_digit(s[i])
}

pub open spec fn dash_at(s: Seq<char>, i: int) -> bool {
    0 <= i < s.len() && s[i] == '-'
}

/// Where the digit after a prefix that ends before `q` stands, allowing one
/// `-` between them.
pub open spec fn digit_after(s: Seq<char>, q: int) -> Option<int> {
    if dash_at(s, q) && digit_at(s, q + 1) {
        Some(q + 1)
    } else if digit_at(s, q) {
        Some(q)
    } else {
        None
    }
}

/// Where the version starts if a `blender` or `v` prefix, in any case,
/// starts at `p`. After `blender` up to two `-` may stand, after `v` one.
pub open spec fn prefix_at(s: Seq<char>, p: int) -> Option<int> {
    if word_ci_at(s, word_blender(), p) {
        let q = p + 7;
        if dash_at(s, q) && dash_at(s, q + 1) && digit_at(s, q + 2) {
            Some(q + 2)
        } else {
            digit_after(s, q)
        }
    } else if 0 <= p < s.len() && same_letter(s[p], 'v') {
        digit_after(s, p + 1)
    } else {
        None
    }
}

/// The leftmost prefix at or after `p`, as the start of the version after it.
pub open spec fn prefix_from(s: Seq<char>, p: int) -> Option<int>
    decreases s.len() + 1 - p,
{
    if p < 0 || p > s.len() {
        None
    } else {
        match prefix_at(s, p) {
            Some(d) => Some(d),
            None => prefix_from(s, p + 1),
        }
    }
}

/// The cleaning pass: after the leftmost prefix, the rest of its line; then
/// cut before `-windows` and before `-linux`.
pub open spec fn simple_clean_spec(s: Seq<char>) -> Seq<char> {
    let c = match prefix_from(s, 0) {
        Some(d) => cut_at_spec(s.subrange(d, s.len() as int), seq!['\n']),
        None => s,
    };
    cut_at_spec(cut_at_spec(c, suffix_windows()), suffix_linux())
}

fn digit_at_exec(v: &Vec<char>, i: usize) -> (r: bool)
    ensures
        r == digit_at(v@, i as int),
{
    i < v.len() && '0' <= v[i] && v[i] <= '9'
}

fn dash_at_exec(v: &Vec<char>, i: usize) -> (r: bool)
    ensures
        r == dash_at(v@, i as int),
{
    i < v.len() && v[i] == '-'
}

fn digit_after_exec(v: &Vec<char>, q: usize) -> (r: Option<usize>)
    requires
        q <= v@.len(),
    ensures
        match r {
            Some(d) => digit_after(v@, q as int) == Some(d as int),
            None => digit_after(v@, q as int) is None,
        },
{
    let n = v.len();
    if dash_at_exec(v, q) && digit_at_exec(v, q + 1) {
        Some(q + 1)
    } else if digit_at_exec(v, q) {
        Some(q)
    } else {
        None
    }
}

fn prefix_at_exec(v: &Vec<char>, p: usize) -> (r: Option<usize>)
    requires
        p <= v@.len(),
    ensures
        match r {
            Some(d) => prefix_at(v@, p as int) == Some(d as int),
            None => prefix_at(v@, p as int) is None,
        },
{
    let n = v.len();
    let word = vec!['b', 'l', 'e', 'n', 'd', 'e', 'r'];
    assert(word@ == word_blender());
    if word_ci_at_exec(v, &word, p) {
        let q = p + 7;
        if dash_at_exec(v, q) && dash_at_exec(v, q + 1) && digit_at_exec(v, q + 2) {
            Some(q + 2)
        } else {
            digit_after_exec(v, q)
        }
    } else if p < v.len() && same_letter_exec(v[p], 'v') {
        digit_after_exec(v, p + 1)
    } else {
        None
    }
}

fn same_letter_exec(c: char, lower: char) -> (r: bool)
    ensures
        r == same_letter(c, lower),
{
    c == lower || c as u32 + 32 == lower as u32
}

/// Whether the lower-case word `w` stands at `p`, in any case.
fn word_ci_at_exec(v: &Vec<char>, w: &Vec<char>, p: usize) -> (r: bool)
    ensures
        r == word_ci_at(v@, w@, p as int),
{
    let n = v.len();
    if p > n || w.len() > n - p {
        return false;
    }
    let mut k: usize = 0;
    while k < w.len()
        invariant
            n == v@.len(),
            p + w@.len() <= n,
            k <= w@.len(),
            forall|i: int| 0 <= i < k ==> same_letter(#[trigger] v@[p + i], w@[i]),
        decreases w@.len() - k,
    {
        if !same_letter_exec(v[p + k], w[k]) {
            return false;
        }
        k = k + 1;
    }
    true
}

fn prefix_from_exec(v: &Vec<char>) -> (r: Option<usize>)
    ensures
        match r {
            Some(d) => prefix_from(v@, 0) == Some(d as int) && d <= v@.len(),
            None => prefix_from(v@, 0) is None,
        },
{
    let mut p: usize = 0;
    loop
        invariant
            p <= v@.len(),
            prefix_from(v@, 0) == prefix_from(v@, p as int),
        decreases v@.len() - p,
    {
        match prefix_at_exec(v, p) {
            Some(d) => {
                return Some(d);
            },
            None => {},
        }
        if p == v.len() {
            assert(prefix_from(v@, p + 1) is None);
            return None;
        }
        p = p + 1;
    }
}

/// Cleans a version string: drops everything before a `blender` or `v`
/// prefix, in any case (and the prefix with its dashes), and everything
/// after the end of that line, then cuts the string before `-windows` and
/// before `-linux`.
pub fn simple_clean(s: &str) -> (r: String)
    ensures
        r@ == simple_clean_spec(s@),
{
    let v = chars_of(s);
    let c = match prefix_from_exec(&v) {
        Some(d) => {
            let rest = slice_chars(&v, d, v.len());
            let nl = vec!['\n'];
            assert(nl@ == seq!['\n']);
            cut_at(rest, &nl)
        },
        None => v,
    };
    let windows = vec!['-', 'w', 'i', 'n', 'd', 'o', 'w', 's'];
    let linux = vec!['-', 'l', 'i', 'n', 'u', 'x'];
    assert(windows@ == suffix_windows());
    assert(linux@ == suffix_linux());
    let c = cut_at(c, &windows);
    let c = cut_at(c, &linux);
    string_of(&c)
}

// ---------------------------------------------------------------------------
// The legacy patterns
/// A stretch of a string, from `start` up to `end`.
#[derive(Clone, Copy, Debug, PartialEq, Eq)]
pub struct Span {
    pub start: usize,
    pub end: usize,
}

/// What a legacy pattern captured.
#[derive(Clone, Copy, Debug, PartialEq, Eq)]
pub struct Captures {
    pub major: Span,
    pub minor: Span,
    pub patch: Option<Span>,
    pub pre: Option<Span>,
}

pub open spec fn span(a: int, b: int) -> Span {
    Span { start: a as usize, end: b as usize }
}

/// `s` from `p` on starts with `D.D`: the end of the major number and of the
/// minor number.
pub open spec fn head_at(s: Seq<char>, p: int) -> Option<(int, int)> {
    let a = run_end(s, p);
    let b = run_end(s, a + 1);
    if 0 <= p && a > p && a < s.len() && s[a] == '.' && b > a + 1 {
        Some((a, b))
    } else {
        None
    }
}

/// The end of the text that stops before the first `+`.
pub open spec fn until_plus(s: Seq<char>, i: int) -> int
    decreases s.len() - i,
{
    if 0 <= i < s.len() && s[i] != '+' {
        until_plus(s, i + 1)
    } else {
        i
    }
}

/// How many of the (up to three) characters from `b` on are not `-`, taken
/// while none is.
pub open spec fn short_tail(s: Seq<char>, b: int) -> int {
    if !(0 <= b < s.len()) || s[b] == '-' {
        0
    } else if !(b + 1 < s.len()) || s[b + 1] == '-' {
        1
    } else if !(b + 2 < s.len()) || s[b + 2] == '-' {
        2
    } else {
        3
    }
}

/// ` (sub `
pub open spec fn word_sub() -> Seq<char> {
    seq![' ', '(', 's', 'u', 'b', ' ']
}

/// What legacy pattern `k` (1 to 5) captures when it matches at `p`.
pub open spec fn pattern_at(k: int, s: Seq<char>, p: int) -> Option<Captures> {
    match head_at(s, p) {
        None => None,
        Some((a, b)) => {
            let ma = span(p, a);
            let mi = span(a + 1, b);
            if k == 1 {
                let c = run_end(s, b + 6);
                if occurs_at(s, word_sub(), b) && c > b + 6 && c < s.len() && s[c] == ')' {
                    Some(Captures { major: ma, minor: mi, patch: Some(span(b + 6, c)), pre: None })
                } else {
                    None
                }
            } else if k == 2 {
                let d = run_end(s, b + 1);
                if b < s.len() && s[b] == '.' && d > b + 1 && d < s.len() && (s[d] == ' ' || s[d]
                    == '-') {
                    Some(
                        Captures {
                            major: ma,
                            minor: mi,
                            patch: Some(span(b + 1, d)),
                            pre: Some(span(d + 1, until_plus(s, d + 1))),
                        },
                    )
                } else {
                    None
                }
            } else if k == 3 {
                if b < s.len() && (s[b] == ' ' || s[b] == '-') {
                    Some(
                        Captures {
                            major: ma,
                            minor: mi,
                            patch: None,
                            pre: Some(span(b + 1, until_plus(s, b + 1))),
                        },
                    )
                } else {
                    None
                }
            } else if k == 4 {
                if b == s.len() {
                    Some(Captures { major: ma, minor: mi, patch: None, pre: None })
                } else {
                    None
                }
            } else if k == 5 {
                Some(
                    Captures {
                        major: ma,
                        minor: mi,
                        patch: None,
                        pre: Some(span(b, b + short_tail(s, b))),
                    },
                )
            } else {
                None
            }
        },
    }
}

/// The leftmost match of pattern `k` at or after `p`.
pub open spec fn pattern_from(k: int, s: Seq<char>, p: int) -> Option<Captures>
    decreases s.len() + 1 - p,
{
    if p < 0 || p > s.len() {
        None
    } else {
        match pattern_at(k, s, p) {
            Some(c) => Some(c),
            None => pattern_from(k, s, p + 1),
        }
    }
}

/// What pattern `k` captures: its leftmost match in search mode, else its
/// match at the start.
pub open spec fn pattern_in(k: int, s: Seq<char>, search: bool) -> Option<Captures> {
    if search {
        pattern_from(k, s, 0)
    } else {
        pattern_at(k, s, 0)
    }
}

/// The captures of the first pattern, from `k` on, that matches.
pub open spec fn first_match_from(k: int, s: Seq<char>, search: bool) -> Option<Captures>
    decreases 6 - k,
{
    if k < 1 || k > 5 {
        None
    } else {
        match pattern_in(k, s, search) {
            Some(c) => Some(c),
            None => first_match_from(k + 1, s, search),
        }
    }
}

/// The captures of the first legacy pattern that matches.
pub open spec fn first_match(s: Seq<char>, search: bool) -> Option<Captures> {
    first_match_from(1, s, search)
}

/// The text of a span.
pub open spec fn span_text(s: Seq<char>, sp: Span) -> Seq<char> {
    s.subrange(sp.start as int, sp.end as int)
}

/// A version from its numbers and its (already lower-cased) pre-release:
/// there is none where the pre-release is not valid.
pub open spec fn version_from_parts_spec(
    major: u64,
    minor: u64,
    patch: u64,
    pre: Seq<char>,
) -> Option<VersionParts> {
    if prerelease_valid(pre) {
        Some((major, minor, patch, pre, Seq::<char>::empty()))
    } else {
        None
    }
}

/// The version that captures spell: each number must fit in a `u64`, a
/// missing patch is zero, and the pre-release is lower-cased.
pub open spec fn version_of_captures(s: Seq<char>, c: Captures) -> Option<VersionParts> {
    let ma = digits_u64(span_text(s, c.major));
    let mi = digits_u64(span_text(s, c.minor));
    let pa = match c.patch {
        Some(sp) => digits_u64(span_text(s, sp)),
        None => Some(0u64),
    };
    if ma is None || mi is None || pa is None {
        None
    } else {
        let pre = match c.pre {
            Some(sp) => lowercase_of(span_text(s, sp)),
            None => Seq::<char>::empty(),
        };
        version_from_parts_spec(ma->0, mi->0, pa->0, pre)
    }
}

/// What `parse_blender_ver` returns.
pub open spec fn parse_spec(s: Seq<char>, search: bool) -> Option<VersionParts> {
    let t = trim_spec(s);
    let c = simple_clean_spec(t);
    if semver_spec(t) is Some {
        semver_spec(t)
    } else if semver_spec(c) is Some {
        semver_spec(c)
    } else {
        match first_match(c, search) {
            Some(caps) => version_of_captures(c, caps),
            None => None,
        }
    }
}

fn head_at_exec(v: &Vec<char>, p: usize) -> (r: Option<(usize, usize)>)
    requires
        p <= v@.len(),
    ensures
        match r {
            Some((a, b)) => head_at(v@, p as int) == Some((a as int, b as int)) && b <= v@.len(),
            None => head_at(v@, p as int) is None,
        },
{
    let a = digit_run_end(v, p);
    if a > p && a < v.len() && v[a] == '.' {
        let b = digit_run_end(v, a + 1);
        if b > a + 1 {
            return Some((a, b));
        }
    }
    None
}

fn until_plus_exec(v: &Vec<char>, i: usize) -> (r: usize)
    requires
        i <= v@.len(),
    ensures
        r as int == until_plus(v@, i as int),
        i <= r <= v@.len(),
{
    let mut j = i;
    while j < v.len() && v[j] != '+'
        invariant
            i <= j <= v@.len(),
            until_plus(v@, i as int) == until_plus(v@, j as int),
        decreases v@.len() - j,
    {
        j = j + 1;
    }
    j
}

fn short_tail_exec(v: &Vec<char>, b: usize) -> (r: usize)
    requires
        b <= v@.len(),
    ensures
        r as int == short_tail(v@, b as int),
        b + r <= v@.len(),
{
    if b >= v.len() || v[b] == '-' {
        0
    } else if b + 1 >= v.len() || v[b + 1] == '-' {
        1
    } else if b + 2 >= v.len() || v[b + 2] == '-' {
        2
    } else {
        3
    }
}

/// The captures of the spans of `c` lie within a string of length `n`.
pub open spec fn captures_within(c: Captures, n: int) -> bool {
    &&& c.major.start <= c.major.end <= n
    &&& c.minor.start <= c.minor.end <= n
    &&& (c.patch matches Some(sp) ==> sp.start <= sp.end <= n)
    &&& (c.pre matches Some(sp) ==> sp.start <= sp.end <= n)
}

/// What legacy pattern `k` captures when it matches at `p`.
fn pattern_at_exec(k: u8, v: &Vec<char>, p: usize) -> (r: Option<Captures>)
    requires
        p <= v@.len(),
    ensures
        r == pattern_at(k as int, v@, p as int),
        r matches Some(c) ==> captures_within(c, v@.len() as int),
{
    let n = v.len();
    let (a, b) = match head_at_exec(v, p) {
        Some(h) => h,
        None => {
            return None;
        },
    };
    let ma = Span { start: p, end: a };
    let mi = Span { start: a + 1, end: b };
    if k == 1 {
        let sub = vec![' ', '(', 's', 'u', 'b', ' '];
        assert(sub@ == word_sub());
        if occurs_at_exec(v, &sub, b) {
            let c = digit_run_end(v, b + 6);
            if c > b + 6 && c < v.len() && v[c] == ')' {
                return Some(
                    Captures { major: ma, minor: mi, patch: Some(Span { start: b + 6, end: c }), pre: None },
                );
            }
        }
        None
    } else if k == 2 {
        if b < v.len() && v[b] == '.' {
            let d = digit_run_end(v, b + 1);
            if d > b + 1 && d < v.len() && (v[d] == ' ' || v[d] == '-') {
                let e = until_plus_exec(v, d + 1);
                return Some(
                    Captures {
                        major: ma,
                        minor: mi,
                        patch: Some(Span { start: b + 1, end: d }),
                        pre: Some(Span { start: d + 1, end: e }),
                    },
                );
            }
        }
        None
    } else if k == 3 {
        if b < v.len() && (v[b] == ' ' || v[b] == '-') {
            let e = until_plus_exec(v, b + 1);
            Some(
                Captures {
                    major: ma,
                    minor: mi,
                    patch: None,
                    pre: Some(Span { start: b + 1, end: e }),
                },
            )
        } else {
            None
        }
    } else if k == 4 {
        if b == v.len() {
            Some(Captures { major: ma, minor: mi, patch: None, pre: None })
        } else {
            None
        }
    } else if k == 5 {
        let t = short_tail_exec(v, b);
        Some(Captures { major: ma, minor: mi, patch: None, pre: Some(Span { start: b, end: b + t }) })
    } else {
        None
    }
}

/// What legacy pattern `k` captures, in search mode or at the start.
fn pattern_in_exec(k: u8, v: &Vec<char>, search: bool) -> (r: Option<Captures>)
    ensures
        r == pattern_in(k as int, v@, search),
        r matches Some(c) ==> captures_within(c, v@.len() as int),
{
    if !search {
        return pattern_at_exec(k, v, 0);
    }
    let mut p: usize = 0;
    loop
        invariant
            search,
            p <= v@.len(),
            pattern_from(k as int, v@, 0) == pattern_from(k as int, v@, p as int),
        decreases v@.len() - p,
    {
        match pattern_at_exec(k, v, p) {
            Some(c) => {
                assert(pattern_from(k as int, v@, p as int) == Some(c));
                return Some(c);
            },
            None => {},
        }
        if p == v.len() {
            assert(pattern_from(k as int, v@, p + 1) is None);
            return None;
        }
        p = p + 1;
    }
}

/// The captures of the first legacy pattern that matches.
fn first_match_exec(v: &Vec<char>, search: bool) -> (r: Option<Captures>)
    ensures
        r == first_match(v@, search),
        r matches Some(c) ==> captures_within(c, v@.len() as int),
{
    let mut k: u8 = 1;
    while k <= 5
        invariant
            1 <= k <= 6,
            first_match(v@, search) == first_match_from(k as int, v@, search),
        decreases 6 - k,
    {
        match pattern_in_exec(k, v, search) {
            Some(c) => {
                return Some(c);
            },
            None => {},
        }
        k = k + 1;
    }
    None
}

/// The version `major.minor.patch-pre`, where `pre` is a valid SemVer
/// pre-release (an empty one included); nothing otherwise.
pub fn version_from_parts(major: u64, minor: u64, patch: u64, pre: &str) -> (r: Option<Version>)
    ensures
        opt_view(r) == version_from_parts_spec(major, minor, patch, pre@),
{
    match checked_prerelease(pre) {
        Some(p) => Some(Version { major, minor, patch, pre: p, build: String::new() }),
        None => None,
    }
}

fn version_of_captures_exec(v: &Vec<char>, c: &Captures) -> (r: Option<Version>)
    requires
        captures_within(*c, v@.len() as int),
    ensures
        opt_view(r) == version_of_captures(v@, *c),
{
    let ma = read_digits(v, c.major.start, c.major.end);
    let mi = read_digits(v, c.minor.start, c.minor.end);
    let pa = match c.patch {
        Some(sp) => read_digits(v, sp.start, sp.end),
        None => Some(0u64),
    };
    match (ma, mi, pa) {
        (Some(ma), Some(mi), Some(pa)) => {
            match c.pre {
                Some(sp) => {
                    let raw = slice_chars(v, sp.start, sp.end);
                    let raw = string_of(&raw);
                    let low = lowercase(raw.as_str());
                    version_from_parts(ma, mi, pa, low.as_str())
                },
                None => {
                    let empty = String::new();
                    version_from_parts(ma, mi, pa, empty.as_str())
                },
            }
        },
        _ => None,
    }
}

/// Parses a Blender version string into a version.
///
/// The text is trimmed and tried as strict SemVer; then cleaned (see
/// `simple_clean`) and tried as strict SemVer again; then matched against
/// the legacy patterns, anywhere in the text when `search` holds and at its
/// start otherwise. A pattern's numbers must fit in a `u64` and its
/// lower-cased pre-release must be valid, or the result is `None`; so it is
/// where no pattern matches.
pub fn parse_blender_ver(s: &str, search: bool) -> (r: Option<Version>)
    ensures
        opt_view(r) == parse_spec(s@, search),
        !all_semver_chars(trim_spec(s@)) ==> semver_spec(trim_spec(s@)) is None,
        semver_spec(trim_spec(s@)) is None && !all_semver_chars(simple_clean_spec(
            trim_spec(s@),
        )) ==> semver_spec(simple_clean_spec(trim_spec(s@))) is None,
{
    let t = trim_str(s);
    match strict_parse(t) {
        Some(v) => {
            return Some(v);
        },
        None => {},
    }
    let c = simple_clean(t);
    match strict_parse(c.as_str()) {
        Some(v) => {
            return Some(v);
        },
        None => {},
    }
    let cv = chars_of(c.as_str());
    match first_match_exec(&cv, search) {
        Some(caps) => version_of_captures_exec(&cv, &caps),
        None => None,
    }
}

/// A valid SemVer string: one that strict SemVer parsing accepts. Such a
/// string holds only ASCII letters and digits, `.`, `-` and `+`.
pub open spec fn is_valid_semver(s: Seq<char>) -> bool {
    &&& semver_spec(s) is Some
    &&& forall|i: int| 0 <= i < s.len() ==> semver_char(#[trigger] s[i])
}

/// Well-formed input is left as it is: a valid SemVer string parses, in
/// either mode, to exactly the version that strict SemVer parsing gives.
pub proof fn lemma_parse_valid_semver(s: Seq<char>, search: bool)
    requires
        is_valid_semver(s),
    ensures
        parse_spec(s, search) == semver_spec(s),
        parse_spec(s, search) is Some,
{
    if s.len() > 0 {
        assert(semver_char(s[0]));
        assert(semver_char(s.last()));
    }
    assert(trim_start_spec(s) == s);
    assert(trim_end_spec(s) == s);
}

/// How strict SemVer orders two valid, non-empty pre-releases.
pub uninterp spec fn prerelease_order_of(a: Seq<char>, b: Seq<char>) -> Ordering;

/// Relies on `semver::Prerelease::new` and `Ord for Prerelease` (SemVer
/// precedence: identifiers compared left to right, numeric ones by value
/// and below alphanumeric ones, which compare in ASCII order; more
/// identifiers rank higher when the shared ones are equal): the result
/// depends on the two texts alone.
#[verifier::external_body]
fn compare_prereleases(a: &str, b: &str) -> (r: Option<Ordering>)
    ensures
        r is Some <==> (prerelease_valid(a@) && prerelease_valid(b@)),
        r matches Some(o) ==> o == prerelease_order_of(a@, b@),
{
    match (semver::Prerelease::new(a), semver::Prerelease::new(b)) {
        (Ok(x), Ok(y)) => Some(x.cmp(&y)),
        _ => None,
    }
}

/// How two numbers compare.
pub open spec fn cmp_u64(a: u64, b: u64) -> Ordering {
    if a < b {
        Ordering::Less
    } else if a > b {
        Ordering::Greater
    } else {
        Ordering::Equal
    }
}

/// SemVer precedence of two versions, build metadata aside: by major, minor
/// and patch, then a version without pre-release above one with, then the
/// pre-releases' own order; none where that needs a pre-release that is not
/// valid.
pub open spec fn precedence(a: Version, b: Version) -> Option<Ordering> {
    if a.major != b.major {
        Some(cmp_u64(a.major, b.major))
    } else if a.minor != b.minor {
        Some(cmp_u64(a.minor, b.minor))
    } else if a.patch != b.patch {
        Some(cmp_u64(a.patch, b.patch))
    } else if a.pre@.len() == 0 && b.pre@.len() == 0 {
        Some(Ordering::Equal)
    } else if a.pre@.len() == 0 {
        Some(Ordering::Greater)
    } else if b.pre@.len() == 0 {
        Some(Ordering::Less)
    } else if prerelease_valid(a.pre@) && prerelease_valid(b.pre@) {
        Some(prerelease_order_of(a.pre@, b.pre@))
    } else {
        None
    }
}

fn compare_u64(a: u64, b: u64) -> (r: Ordering)
    ensures
        r == cmp_u64(a, b),
{
    if a < b {
        Ordering::Less
    } else if a > b {
        Ordering::Greater
    } else {
        Ordering::Equal
    }
}

impl Version {
    /// How this version ranks against `other` by SemVer precedence (build
    /// metadata aside); see `precedence`.
    pub fn cmp_precedence(&self, other: &Version) -> (r: Option<Ordering>)
        ensures
            r == precedence(*self, *other),
    {
        if self.major != other.major {
            return Some(compare_u64(self.major, other.major));
        }
        if self.minor != other.minor {
            return Some(compare_u64(self.minor, other.minor));
        }
        if self.patch != other.patch {
            return Some(compare_u64(self.patch, other.patch));
        }
        let ea = self.pre.as_str().unicode_len() == 0;
        let eb = other.pre.as_str().unicode_len() == 0;
        if ea && eb {
            Some(Ordering::Equal)
        } else if ea {
            Some(Ordering::Greater)
        } else if eb {
            Some(Ordering::Less)
        } else {
            compare_prereleases(self.pre.as_str(), other.pre.as_str())
        }
    }
}

/// The text form of a version: `major.minor.patch`, then `-pre` and `+build`
/// where they are not empty.
pub open spec fn version_text(v: VersionParts) -> Seq<char> {
    decimal(v.0 as nat) + seq!['.'] + decimal(v.1 as nat) + seq!['.'] + decimal(v.2 as nat) + (if v.3.len() > 0 {
        seq!['-'] + v.3
    } else {
        Seq::<char>::empty()
    }) + (if v.4.len() > 0 {
        seq!['+'] + v.4
    } else {
        Seq::<char>::empty()
    })
}

impl Version {
    /// The text form: `major.minor.patch[-pre][+build]`.
    pub fn to_string(&self) -> (r: String)
        ensures
            r@ == version_text(self@),
    {
        let mut out = decimal_chars(self.major);
        out.push('.');
        push_all(&mut out, &decimal_chars(self.minor));
        out.push('.');
        push_all(&mut out, &decimal_chars(self.patch));
        if self.pre.as_str().unicode_len() > 0 {
            out.push('-');
            push_str(&mut out, self.pre.as_str());
        }
        if self.build.as_str().unicode_len() > 0 {
            out.push('+');
            push_str(&mut out, self.build.as_str());
        }
        assert(out@ =~= version_text(self@));
        string_of(&out)
    }
}

} // verus!

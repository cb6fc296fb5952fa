//! Version search queries: their text form and how it is read.
//!
//! The grammar (ASCII digits and word characters; letters of the time part in
//! either case):
//!
//! ```text
//! [<repository>/]<major>.<minor>.<patch>[-<branch>][{+|#}<build-hash>][@<commit-time>]
//! ```
//!
//! - `<repository>`: one or more characters, none of them `/`.
//! - `<major>`, `<minor>`, `<patch>`: `^` (latest), `*` (any), `-` (oldest)
//!   or digits.
//! - `<branch>`: characters that are not `@`, `+` or white space; where the
//!   text after a shorter branch reads as the rest of the query from a `#`
//!   on, the longest such branch is taken.
//! - `<build-hash>`: letters, digits, `_`, `^`, `-` and `*`.
//! - `<commit-time>`: one of `^`, `*`, `-`, or digits, `+`, `:`, `-`, `^`,
//!   `Z`, `U`, `T` and `C`.
//!
//! A repository is read after the first `/` where the rest then reads as a
//! query, and otherwise the whole text is read as a query without one.
use vstd::prelude::*;

use crate::records::{BasicBuildInfo, CommitTime};
use crate::text::{
    all_digits, chars_of, decimal, decimal_chars, digit_run_end, find_from_exec, find_spec,
    is_digit, is_letter, is_white_space, lemma_decimal, lemma_find_char, lemma_find_char_none,
    lemma_parse_decimal, lemma_run_end_block, lemma_trim_id, parse_u64, parse_u64_spec, push_str, same_text, run_end, slice_chars, string_of, trim_spec, trim_str,
};

verus! {

/// How to match a field over an unordered domain.
#[derive(Clone, Debug, PartialEq, Eq, Default)]
pub enum WildPlacement<T> {
    /// No constraint.
    #[default]
    Any,
    /// The field must equal this value.
    Exact(T),
}

/// How to match a field over an ordered domain.
#[derive(Clone, Debug, PartialEq, Eq, Default)]
pub enum OrdPlacement<T> {
    /// All elements tied for the largest value.
    Latest,
    /// No constraint.
    #[default]
    Any,
    /// All elements tied for the smallest value.
    Oldest,
    /// The field must equal this value.
    Exact(T),
}

/// The view of a text placement.
pub open spec fn wild_view(w: WildPlacement<String>) -> WildPlacement<Seq<char>> {
    match w {
        WildPlacement::Any => WildPlacement::Any,
        WildPlacement::Exact(s) => WildPlacement::Exact(s@),
    }
}

/// Reading a text placement: `*` (after trimming) is any; any other text,
/// trimmed, must be matched exactly.
pub open spec fn wild_of(t: Seq<char>) -> WildPlacement<Seq<char>> {
    if trim_spec(t) == seq!['*'] {
        WildPlacement::Any
    } else {
        WildPlacement::Exact(trim_spec(t))
    }
}

/// The token `^` or `Latest`.
pub open spec fn is_latest_token(t: Seq<char>) -> bool {
    t == seq!['^'] || t == seq!['L', 'a', 't', 'e', 's', 't']
}

/// The token `*` or `Any`.
pub open spec fn is_any_token(t: Seq<char>) -> bool {
    t == seq!['*'] || t == seq!['A', 'n', 'y']
}

/// The token `-` or `Oldest`.
pub open spec fn is_oldest_token(t: Seq<char>) -> bool {
    t == seq!['-'] || t == seq!['O', 'l', 'd', 'e', 's', 't']
}

/// Reading an ordered placement, given what the value type makes of the
/// text: the selector tokens first, then an exact value, else any.
pub open spec fn ord_of<T>(t: Seq<char>, parsed: Option<T>) -> OrdPlacement<T> {
    if is_latest_token(t) {
        OrdPlacement::Latest
    } else if is_any_token(t) {
        OrdPlacement::Any
    } else if is_oldest_token(t) {
        OrdPlacement::Oldest
    } else {
        match parsed {
            Some(v) => OrdPlacement::Exact(v),
            None => OrdPlacement::Any,
        }
    }
}

/// What reading a point in time from a text gives: seconds since the epoch
/// and nanoseconds.
pub uninterp spec fn commit_time_of(s: Seq<char>) -> Option<(i64, u32)>;

/// The point in time read from a text, if any.
pub open spec fn commit_time_spec(s: Seq<char>) -> Option<CommitTime> {
    match commit_time_of(s) {
        Some((secs, nanos)) => Some(CommitTime { secs, nanos }),
        None => None,
    }
}

/// Relies on chrono's `FromStr for DateTime<Utc>` (relaxed RFC 3339) and on
/// `DateTime::timestamp` / `timestamp_subsec_nanos`: the result depends on the
/// text alone.
#[verifier::external_body]
fn read_commit_time(s: &str) -> (r: Option<CommitTime>)
    ensures
        match r {
            Some(c) => commit_time_of(s@) == Some((c.secs, c.nanos)),
            None => commit_time_of(s@) is None,
        },
{
    match s.parse::<chrono::DateTime<chrono::Utc>>() {
        Ok(dt) => Some(CommitTime { secs: dt.timestamp(), nanos: dt.timestamp_subsec_nanos() }),
        Err(_) => None,
    }
}

/// Which selector token `t` is: 1 latest, 2 any, 3 oldest, 0 none.
fn token_kind(t: &str) -> (r: u8)
    ensures
        r == 1 <==> is_latest_token(t@),
        r == 2 <==> is_any_token(t@) && !is_latest_token(t@),
        r == 3 <==> is_oldest_token(t@) && !is_any_token(t@) && !is_latest_token(t@),
        r == 0 <==> !is_latest_token(t@) && !is_any_token(t@) && !is_oldest_token(t@),
{
    proof {
        reveal_strlit("^");
        reveal_strlit("Latest");
        reveal_strlit("*");
        reveal_strlit("Any");
        reveal_strlit("-");
        reveal_strlit("Oldest");
        assert("^"@ =~= seq!['^']);
        assert("Latest"@ =~= seq!['L', 'a', 't', 'e', 's', 't']);
        assert("*"@ =~= seq!['*']);
        assert("Any"@ =~= seq!['A', 'n', 'y']);
        assert("-"@ =~= seq!['-']);
        assert("Oldest"@ =~= seq!['O', 'l', 'd', 'e', 's', 't']);
    }
    if same_text(t, "^") || same_text(t, "Latest") {
        1
    } else if same_text(t, "*") || same_text(t, "Any") {
        2
    } else if same_text(t, "-") || same_text(t, "Oldest") {
        3
    } else {
        0
    }
}

/// The placement a text names, given what the value type made of it: `^` or
/// `Latest`, `*` or `Any`, `-` or `Oldest`; else the parsed value exactly,
/// or any where there is none.
pub fn placement_of<T>(t: &str, parsed: Option<T>) -> (r: OrdPlacement<T>)
    ensures
        r == ord_of(t@, parsed),
{
    let k = token_kind(t);
    if k == 1 {
        OrdPlacement::Latest
    } else if k == 2 {
        OrdPlacement::Any
    } else if k == 3 {
        OrdPlacement::Oldest
    } else {
        match parsed {
            Some(v) => OrdPlacement::Exact(v),
            None => OrdPlacement::Any,
        }
    }
}

impl WildPlacement<String> {
    /// Reads a text placement: `*` (after trimming) is any, any other text
    /// is matched exactly, trimmed.
    pub fn from(value: &str) -> (r: WildPlacement<String>)
        ensures
            wild_view(r) == wild_of(value@),
    {
        let t = trim_str(value);
        proof {
            reveal_strlit("*");
            assert("*"@ =~= seq!['*']);
        }
        if same_text(t, "*") {
            WildPlacement::Any
        } else {
            WildPlacement::Exact(t.to_owned())
        }
    }

    /// The text form: `*` for any, else the value.
    pub fn to_string(&self) -> (r: String)
        ensures
            r@ == wild_text(wild_view(*self)),
    {
        match self {
            WildPlacement::Any => {
                proof {
                    reveal_strlit("*");
                    assert("*"@ =~= seq!['*']);
                }
                String::from_str("*")
            },
            WildPlacement::Exact(s) => s.as_str().to_owned(),
        }
    }
}

/// The text form of a text placement.
pub open spec fn wild_text(w: WildPlacement<Seq<char>>) -> Seq<char> {
    match w {
        WildPlacement::Any => seq!['*'],
        WildPlacement::Exact(s) => s,
    }
}

/// The text form of a number placement.
pub open spec fn ord_text(o: OrdPlacement<u64>) -> Seq<char> {
    match o {
        OrdPlacement::Latest => seq!['^'],
        OrdPlacement::Any => seq!['*'],
        OrdPlacement::Oldest => seq!['-'],
        OrdPlacement::Exact(x) => decimal(x as nat),
    }
}

impl OrdPlacement<u64> {
    /// Reads a number placement: the selector tokens, else a number, else
    /// any.
    pub fn from(s: &str) -> (r: OrdPlacement<u64>)
        ensures
            r == ord_of(s@, parse_u64_spec(s@)),
    {
        let parsed = parse_u64(s);
        placement_of(s, parsed)
    }

    /// The text form: `^`, `*`, `-`, or the number.
    pub fn to_string(&self) -> (r: String)
        ensures
            r@ == ord_text(*self),
    {
        let v = match self {
            OrdPlacement::Latest => vec!['^'],
            OrdPlacement::Any => vec!['*'],
            OrdPlacement::Oldest => vec!['-'],
            OrdPlacement::Exact(x) => decimal_chars(*x),
        };
        string_of(&v)
    }
}

impl OrdPlacement<CommitTime> {
    /// Reads a time placement: the selector tokens, else a point in time
    /// (relaxed RFC 3339), else any.
    pub fn from(s: &str) -> (r: OrdPlacement<CommitTime>)
        ensures
            r == ord_of(s@, commit_time_spec(s@)),
    {
        let k = token_kind(s);
        if k != 0 {
            placement_of(s, None)
        } else {
            placement_of(s, read_commit_time(s))
        }
    }
}

/// A search query over builds: a placement for each field.
#[derive(Clone, Debug, PartialEq, Eq, Default)]
pub struct VersionSearchQuery {
    /// The nickname of the repository that the build belongs to.
    pub repository: WildPlacement<String>,
    /// The major part of the version.
    pub major: OrdPlacement<u64>,
    /// The minor part of the version.
    pub minor: OrdPlacement<u64>,
    /// The patch part of the version.
    pub patch: OrdPlacement<u64>,
    /// The branch of the build.
    pub branch: WildPlacement<String>,
    /// The build hash of the build.
    pub build_hash: WildPlacement<String>,
    /// When the build's commit was made.
    pub commit_dt: OrdPlacement<CommitTime>,
}

/// Why a text is not a query.
#[derive(Clone, Copy, Debug, PartialEq, Eq)]
pub enum FromError {
    /// The text does not follow the query grammar.
    CannotCaptureViaRegex,
}

/// A query as plain values.
pub type QueryView = (
    WildPlacement<Seq<char>>,
    OrdPlacement<u64>,
    OrdPlacement<u64>,
    OrdPlacement<u64>,
    WildPlacement<Seq<char>>,
    WildPlacement<Seq<char>>,
    OrdPlacement<CommitTime>,
);

impl View for VersionSearchQuery {
    type V = QueryView;

    open spec fn view(&self) -> QueryView {
        (
            wild_view(self.repository),
            self.major,
            self.minor,
            self.patch,
            wild_view(self.branch),
            wild_view(self.build_hash),
            self.commit_dt,
        )
    }
}

// ---------------------------------------------------------------------------
// The grammar
/// `^`, `*` or `-`.
pub open spec fn is_selector(c: char) -> bool {
    c == '^' || c == '*' || c == '-'
}

/// A character of a branch.
pub open spec fn branch_char(c: char) -> bool {
    c != '@' && c != '+' && !is_white_space(c)
}

/// A character of a build hash.
pub open spec fn hash_char(c: char) -> bool {
    is_digit(c) || is_letter(c) || c == '_' || is_selector(c)
}

/// A character of a commit time that is not a lone selector.
pub open spec fn time_char(c: char) -> bool {
    is_digit(c) || c == '+' || c == ':' || c == '-' || c == '^' || c == 'Z' || c == 'z' || c
        == 'U' || c == 'u' || c == 'T' || c == 't' || c == 'C' || c == 'c'
}

/// The end of a version component (`^`, `*`, `-` or digits) that starts at
/// `i`, if one does.
pub open spec fn component_end(s: Seq<char>, i: int) -> Option<int> {
    if 0 <= i < s.len() && is_selector(s[i]) {
        Some(i + 1)
    } else if 0 <= i && run_end(s, i) > i {
        Some(run_end(s, i))
    } else {
        None
    }
}

/// The end of the run of branch characters from `i`.
pub open spec fn branch_end(s: Seq<char>, i: int) -> int
    decreases s.len() - i,
{
    if 0 <= i < s.len() && branch_char(s[i]) {
        branch_end(s, i + 1)
    } else {
        i
    }
}

/// The end of the run of hash characters from `i`.
pub open spec fn hash_end(s: Seq<char>, i: int) -> int
    decreases s.len() - i,
{
    if 0 <= i < s.len() && hash_char(s[i]) {
        hash_end(s, i + 1)
    } else {
        i
    }
}

/// A commit-time text: a lone selector, or one or more time characters.
pub open spec fn time_ok(t: Seq<char>) -> bool {
    (t.len() == 1 && is_selector(t[0])) || (t.len() > 0 && forall|i: int|
        0 <= i < t.len() ==> time_char(#[trigger] t[i]))
}

/// What a query text holds, as spans of it.
#[derive(Clone, Copy, Debug, PartialEq, Eq)]
pub struct QuerySpans {
    pub repository: Option<(usize, usize)>,
    pub major: (usize, usize),
    pub minor: (usize, usize),
    pub patch: (usize, usize),
    pub branch: Option<(usize, usize)>,
    pub hash: Option<(usize, usize)>,
    pub time: Option<(usize, usize)>,
}

/// The optional build hash and commit time from `i` to the end: the spans of
/// the hash and of the time.
pub open spec fn tail_at(s: Seq<char>, i: int) -> Option<
    (Option<(usize, usize)>, Option<(usize, usize)>),
> {
    let has_hash = 0 <= i < s.len() && (s[i] == '+' || s[i] == '#');
    let j = if has_hash {
        hash_end(s, i + 1)
    } else {
        i
    };
    let hash = if has_hash {
        Some(((i + 1) as usize, j as usize))
    } else {
        None
    };
    if has_hash && j == i + 1 {
        None
    } else if j == s.len() {
        Some((hash, None))
    } else if 0 <= j < s.len() && s[j] == '@' && time_ok(s.subrange(j + 1, s.len() as int)) {
        Some((hash, Some(((j + 1) as usize, s.len() as usize))))
    } else {
        None
    }
}

/// The longest branch from `start` that ends at `b` or before, and after
/// which the rest reads: its end and the rest's spans.
pub open spec fn branch_back(s: Seq<char>, start: int, b: int) -> Option<
    (int, (Option<(usize, usize)>, Option<(usize, usize)>)),
>
    decreases b - start,
{
    if b <= start {
        None
    } else {
        match tail_at(s, b) {
            Some(t) => Some((b, t)),
            None => branch_back(s, start, b - 1),
        }
    }
}

/// Reads `<major>.<minor>.<patch>[-<branch>][...]` from `o` to the end.
pub open spec fn body_at(s: Seq<char>, o: int) -> Option<QuerySpans> {
    match component_end(s, o) {
        None => None,
        Some(a) => if !(a < s.len() && s[a] == '.') {
            None
        } else {
            match component_end(s, a + 1) {
                None => None,
                Some(b) => if !(b < s.len() && s[b] == '.') {
                    None
                } else {
                    match component_end(s, b + 1) {
                        None => None,
                        Some(c) => {
                            let ma = (o as usize, a as usize);
                            let mi = ((a + 1) as usize, b as usize);
                            let pa = ((b + 1) as usize, c as usize);
                            if c < s.len() && s[c] == '-' {
                                match branch_back(s, c + 1, branch_end(s, c + 1)) {
                                    Some((e, (h, t))) => Some(
                                        QuerySpans {
                                            repository: None,
                                            major: ma,
                                            minor: mi,
                                            patch: pa,
                                            branch: Some(((c + 1) as usize, e as usize)),
                                            hash: h,
                                            time: t,
                                        },
                                    ),
                                    None => None,
                                }
                            } else {
                                match tail_at(s, c) {
                                    Some((h, t)) => Some(
                                        QuerySpans {
                                            repository: None,
                                            major: ma,
                                            minor: mi,
                                            patch: pa,
                                            branch: None,
                                            hash: h,
                                            time: t,
                                        },
                                    ),
                                    None => None,
                                }
                            }
                        },
                    }
                },
            }
        },
    }
}

/// The spans of a query text, if it follows the grammar.
pub open spec fn query_spans(s: Seq<char>) -> Option<QuerySpans> {
    let with_repo = match find_spec(s, seq!['/']) {
        Some(j) => if j > 0 {
            match body_at(s, j + 1) {
                Some(q) => Some(QuerySpans { repository: Some((0usize, j as usize)), ..q }),
                None => None,
            }
        } else {
            None
        },
        None => None,
    };
    match with_repo {
        Some(q) => Some(q),
        None => body_at(s, 0),
    }
}

/// The text of a span.
pub open spec fn text_of(s: Seq<char>, sp: (usize, usize)) -> Seq<char> {
    s.subrange(sp.0 as int, sp.1 as int)
}

/// A text placement read from an optional span.
pub open spec fn wild_at(s: Seq<char>, sp: Option<(usize, usize)>) -> WildPlacement<Seq<char>> {
    match sp {
        Some(x) => wild_of(text_of(s, x)),
        None => WildPlacement::Any,
    }
}

/// A number placement read from a span.
pub open spec fn num_at(s: Seq<char>, sp: (usize, usize)) -> OrdPlacement<u64> {
    ord_of(text_of(s, sp), parse_u64_spec(text_of(s, sp)))
}

/// What `VersionSearchQuery::try_from` makes of a text.
pub open spec fn query_spec(s: Seq<char>) -> Option<QueryView> {
    match query_spans(s) {
        None => None,
        Some(q) => Some(
            (
                wild_at(s, q.repository),
                num_at(s, q.major),
                num_at(s, q.minor),
                num_at(s, q.patch),
                wild_at(s, q.branch),
                wild_at(s, q.hash),
                time_at(s, q.time),
            ),
        ),
    }
}

fn component_end_exec(v: &Vec<char>, i: usize) -> (r: Option<usize>)
    requires
        i <= v@.len(),
    ensures
        match r {
            Some(e) => component_end(v@, i as int) == Some(e as int) && e <= v@.len(),
            None => component_end(v@, i as int) is None,
        },
{
    if i < v.len() && (v[i] == '^' || v[i] == '*' || v[i] == '-') {
        Some(i + 1)
    } else {
        let e = digit_run_end(v, i);
        if e > i {
            Some(e)
        } else {
            None
        }
    }
}

fn branch_end_exec(v: &Vec<char>, i: usize) -> (r: usize)
    requires
        i <= v@.len(),
    ensures
        r as int == branch_end(v@, i as int),
        i <= r <= v@.len(),
{
    let mut j = i;
    while j < v.len() && is_branch_char(v[j])
        invariant
            i <= j <= v@.len(),
            branch_end(v@, i as int) == branch_end(v@, j as int),
        decreases v@.len() - j,
    {
        j = j + 1;
    }
    j
}

fn is_white_space_exec(c: char) -> (r: bool)
    ensures
        r == is_white_space(c),
{
    ('\u{9}' <= c && c <= '\u{d}') || c == ' ' || c == '\u{85}' || c == '\u{a0}' || c
        == '\u{1680}' || ('\u{2000}' <= c && c <= '\u{200a}') || c == '\u{2028}' || c
        == '\u{2029}' || c == '\u{202f}' || c == '\u{205f}' || c == '\u{3000}'
}

fn is_branch_char(c: char) -> (r: bool)
    ensures
        r == branch_char(c),
{
    c != '@' && c != '+' && !is_white_space_exec(c)
}

fn is_hash_char(c: char) -> (r: bool)
    ensures
        r == hash_char(c),
{
    ('0' <= c && c <= '9') || ('a' <= c && c <= 'z') || ('A' <= c && c <= 'Z') || c == '_' || c
        == '^' || c == '*' || c == '-'
}

fn is_time_char(c: char) -> (r: bool)
    ensures
        r == time_char(c),
{
    ('0' <= c && c <= '9') || c == '+' || c == ':' || c == '-' || c == '^' || c == 'Z' || c
        == 'z' || c == 'U' || c == 'u' || c == 'T' || c == 't' || c == 'C' || c == 'c'
}

fn hash_end_exec(v: &Vec<char>, i: usize) -> (r: usize)
    requires
        i <= v@.len(),
    ensures
        r as int == hash_end(v@, i as int),
        i <= r <= v@.len(),
{
    let mut j = i;
    while j < v.len() && is_hash_char(v[j])
        invariant
            i <= j <= v@.len(),
            hash_end(v@, i as int) == hash_end(v@, j as int),
        decreases v@.len() - j,
    {
        j = j + 1;
    }
    j
}

/// Whether the characters of `v` from `i` on form a commit-time text.
fn time_ok_exec(v: &Vec<char>, i: usize) -> (r: bool)
    requires
        i <= v@.len(),
    ensures
        r == time_ok(v@.subrange(i as int, v@.len() as int)),
{
    let ghost t = v@.subrange(i as int, v@.len() as int);
    let n = v.len();
    if n - i == 1 && (v[i] == '^' || v[i] == '*' || v[i] == '-') {
        assert(t[0] == v@[i as int]);
        return true;
    }
    if n == i {
        return false;
    }
    assert(t.len() == n - i);
    assert(t[0] == v@[i as int]);
    let mut j = i;
    while j < n
        invariant
            n == v@.len(),
            i <= j <= n,
            t == v@.subrange(i as int, n as int),
            t.len() > 0,
            !(t.len() == 1 && is_selector(t[0])),
            forall|k: int| 0 <= k < j - i ==> time_char(#[trigger] t[k]),
        decreases n - j,
    {
        if !is_time_char(v[j]) {
            assert(t[j - i] == v@[j as int]);
            return false;
        }
        assert(t[j - i] == v@[j as int]);
        j = j + 1;
    }
    true
}

fn tail_at_exec(v: &Vec<char>, i: usize) -> (r: Option<
    (Option<(usize, usize)>, Option<(usize, usize)>),
>)
    requires
        i <= v@.len(),
    ensures
        r == tail_at(v@, i as int),
        r matches Some((h, t)) ==> (h matches Some(x) ==> x.0 <= x.1 <= v@.len()) && (
        t matches Some(x) ==> x.0 <= x.1 <= v@.len()),
{
    let n = v.len();
    let has_hash = i < n && (v[i] == '+' || v[i] == '#');
    let j = if has_hash {
        hash_end_exec(v, i + 1)
    } else {
        i
    };
    let hash = if has_hash {
        Some((i + 1, j))
    } else {
        None
    };
    if has_hash && j == i + 1 {
        None
    } else if j == n {
        Some((hash, None))
    } else if j < n && v[j] == '@' && time_ok_exec(v, j + 1) {
        Some((hash, Some((j + 1, n))))
    } else {
        None
    }
}

fn branch_back_exec(v: &Vec<char>, start: usize, b: usize) -> (r: Option<
    (usize, (Option<(usize, usize)>, Option<(usize, usize)>)),
>)
    requires
        b <= v@.len(),
    ensures
        match r {
            Some((e, t)) => branch_back(v@, start as int, b as int) == Some((e as int, t)) && start
                < e <= v@.len() && (t.0 matches Some(x) ==> x.0 <= x.1 <= v@.len()) && (
            t.1 matches Some(x) ==> x.0 <= x.1 <= v@.len()),
            None => branch_back(v@, start as int, b as int) is None,
        },
{
    let mut e = b;
    while e > start
        invariant
            e <= b <= v@.len(),
            branch_back(v@, start as int, b as int) == branch_back(v@, start as int, e as int),
        decreases e,
    {
        match tail_at_exec(v, e) {
            Some(t) => {
                return Some((e, t));
            },
            None => {},
        }
        e = e - 1;
    }
    None
}

/// The spans fit a string of length `n`.
pub open spec fn spans_within(q: QuerySpans, n: int) -> bool {
    &&& (q.repository matches Some(x) ==> x.0 <= x.1 <= n)
    &&& q.major.0 <= q.major.1 <= n
    &&& q.minor.0 <= q.minor.1 <= n
    &&& q.patch.0 <= q.patch.1 <= n
    &&& (q.branch matches Some(x) ==> x.0 <= x.1 <= n)
    &&& (q.hash matches Some(x) ==> x.0 <= x.1 <= n)
    &&& (q.time matches Some(x) ==> x.0 <= x.1 <= n)
}

fn body_at_exec(v: &Vec<char>, o: usize) -> (r: Option<QuerySpans>)
    requires
        o <= v@.len(),
    ensures
        r == body_at(v@, o as int),
        r matches Some(q) ==> spans_within(q, v@.len() as int),
{
    let n = v.len();
    let a = match component_end_exec(v, o) {
        Some(a) => a,
        None => {
            return None;
        },
    };
    if !(a < n && v[a] == '.') {
        return None;
    }
    let b = match component_end_exec(v, a + 1) {
        Some(b) => b,
        None => {
            return None;
        },
    };
    if !(b < n && v[b] == '.') {
        return None;
    }
    let c = match component_end_exec(v, b + 1) {
        Some(c) => c,
        None => {
            return None;
        },
    };
    let ma = (o, a);
    let mi = (a + 1, b);
    let pa = (b + 1, c);
    if c < n && v[c] == '-' {
        let be = branch_end_exec(v, c + 1);
        match branch_back_exec(v, c + 1, be) {
            Some((e, (h, t))) => Some(
                QuerySpans {
                    repository: None,
                    major: ma,
                    minor: mi,
                    patch: pa,
                    branch: Some((c + 1, e)),
                    hash: h,
                    time: t,
                },
            ),
            None => None,
        }
    } else {
        match tail_at_exec(v, c) {
            Some((h, t)) => Some(
                QuerySpans {
                    repository: None,
                    major: ma,
                    minor: mi,
                    patch: pa,
                    branch: None,
                    hash: h,
                    time: t,
                },
            ),
            None => None,
        }
    }
}

fn query_spans_exec(v: &Vec<char>) -> (r: Option<QuerySpans>)
    ensures
        r == query_spans(v@),
        r matches Some(q) ==> spans_within(q, v@.len() as int),
{
    let n = v.len();
    let slash = vec!['/'];
    assert(slash@ == seq!['/']);
    let with_repo = match find_from_exec(v, &slash, 0) {
        Some(j) => if j > 0 {
            match body_at_exec(v, j + 1) {
                Some(q) => Some(QuerySpans { repository: Some((0usize, j)), ..q }),
                None => None,
            }
        } else {
            None
        },
        None => None,
    };
    match with_repo {
        Some(q) => Some(q),
        None => body_at_exec(v, 0),
    }
}

fn text_at(v: &Vec<char>, sp: (usize, usize)) -> (r: String)
    requires
        sp.0 <= sp.1 <= v@.len(),
    ensures
        r@ == text_of(v@, sp),
{
    string_of(&slice_chars(v, sp.0, sp.1))
}

fn wild_at_exec(v: &Vec<char>, sp: Option<(usize, usize)>) -> (r: WildPlacement<String>)
    requires
        sp matches Some(x) ==> x.0 <= x.1 <= v@.len(),
    ensures
        wild_view(r) == wild_at(v@, sp),
{
    match sp {
        Some(x) => {
            let t = text_at(v, x);
            WildPlacement::<String>::from(t.as_str())
        },
        None => WildPlacement::Any,
    }
}

fn num_at_exec(v: &Vec<char>, sp: (usize, usize)) -> (r: OrdPlacement<u64>)
    requires
        sp.0 <= sp.1 <= v@.len(),
    ensures
        r == num_at(v@, sp),
{
    let t = text_at(v, sp);
    OrdPlacement::<u64>::from(t.as_str())
}

impl VersionSearchQuery {
    /// Reads a query from its text form. Fails with `CannotCaptureViaRegex`
    /// exactly where the text does not follow the grammar; a field whose text
    /// names no value of its type counts as any.
    pub fn try_from(value: &str) -> (r: Result<VersionSearchQuery, FromError>)
        ensures
            match r {
                Ok(q) => query_spec(value@) == Some(q@),
                Err(e) => query_spec(value@) is None && e == FromError::CannotCaptureViaRegex,
            },
    {
        let v = chars_of(value);
        let q = match query_spans_exec(&v) {
            Some(q) => q,
            None => {
                return Err(FromError::CannotCaptureViaRegex);
            },
        };
        let commit_dt = match q.time {
            Some(x) => {
                let t = text_at(&v, x);
                OrdPlacement::<CommitTime>::from(t.as_str())
            },
            None => OrdPlacement::Any,
        };
        Ok(
            VersionSearchQuery {
                repository: wild_at_exec(&v, q.repository),
                major: num_at_exec(&v, q.major),
                minor: num_at_exec(&v, q.minor),
                patch: num_at_exec(&v, q.patch),
                branch: wild_at_exec(&v, q.branch),
                build_hash: wild_at_exec(&v, q.hash),
                commit_dt,
            },
        )
    }

    /// The query that matches exactly this build: its numbers, branch, hash
    /// and commit time, in any repository.
    pub fn from_build(val: &BasicBuildInfo) -> (r: VersionSearchQuery)
        ensures
            r@ == (
                WildPlacement::<Seq<char>>::Any,
                OrdPlacement::Exact(val.ver.version_spec().major),
                OrdPlacement::Exact(val.ver.version_spec().minor),
                OrdPlacement::Exact(val.ver.version_spec().patch),
                WildPlacement::Exact(val.ver.branch_spec()),
                WildPlacement::Exact(val.ver.hash_spec()),
                OrdPlacement::Exact(val.commit_dt),
            ),
    {
        let v = val.version();
        VersionSearchQuery {
            repository: WildPlacement::Any,
            major: OrdPlacement::Exact(v.major),
            minor: OrdPlacement::Exact(v.minor),
            patch: OrdPlacement::Exact(v.patch),
            branch: WildPlacement::Exact(val.ver.branch().to_owned()),
            build_hash: WildPlacement::Exact(val.ver.build_hash().to_owned()),
            commit_dt: OrdPlacement::Exact(val.commit_dt),
        }
    }

    /// This query with its commit-time placement replaced (by any where
    /// there is none).
    pub fn with_commit_dt(self, commit_dt: Option<OrdPlacement<CommitTime>>) -> (r:
        VersionSearchQuery)
        ensures
            r@ == (
                self@.0,
                self@.1,
                self@.2,
                self@.3,
                self@.4,
                self@.5,
                match commit_dt {
                    Some(c) => c,
                    None => OrdPlacement::Any,
                },
            ),
    {
        VersionSearchQuery {
            commit_dt: match commit_dt {
                Some(c) => c,
                None => OrdPlacement::Any,
            },
            ..self
        }
    }

    /// The text form: `[<repository>/]<major>.<minor>.<patch>-<branch>+<hash>`,
    /// with `@^` or `@-` for a latest or oldest commit time and
    /// `@YYYY-MM-DDTHH:MM:SS+00:00` for an exact one (left out where it
    /// holds a fraction of a second or lies outside years 1 to 9999, which the
    /// grammar cannot write).
    pub fn to_string(&self) -> (r: String)
        ensures
            r@ == query_text(self@),
            match self.commit_dt {
                OrdPlacement::Exact(t) => exact_time_shown(t) ==> time_reads_back(t.secs),
                _ => true,
            },
    {
        let mut out: Vec<char> = Vec::new();
        match &self.repository {
            WildPlacement::Exact(r) => {
                push_str(&mut out, r.as_str());
                out.push('/');
            },
            WildPlacement::Any => {},
        }
        push_str(&mut out, self.major.to_string().as_str());
        out.push('.');
        push_str(&mut out, self.minor.to_string().as_str());
        out.push('.');
        push_str(&mut out, self.patch.to_string().as_str());
        out.push('-');
        push_str(&mut out, self.branch.to_string().as_str());
        out.push('+');
        push_str(&mut out, self.build_hash.to_string().as_str());
        match self.commit_dt {
            OrdPlacement::Latest => {
                out.push('@');
                out.push('^');
            },
            OrdPlacement::Oldest => {
                out.push('@');
                out.push('-');
            },
            OrdPlacement::Exact(t) => {
                if t.nanos == 0 && -62135596800i64 <= t.secs && t.secs <= 253402300799i64 {
                    out.push('@');
                    let text = format_commit_time(t.secs);
                    push_str(&mut out, text.as_str());
                }
            },
            OrdPlacement::Any => {},
        }
        proof {
            assert(out@ =~= query_text(self@));
        }
        string_of(&out)
    }
}

/// The seconds of years 1 to 9999, the times that RFC 3339 writes with a
/// four-digit year.
pub open spec fn in_year_range(secs: i64) -> bool {
    -62135596800 <= secs <= 253402300799
}

/// An exact commit time that the text form can show: whole seconds, in
/// years 1 to 9999. (The grammar has no place for fractions of a second.)
pub open spec fn exact_time_shown(t: CommitTime) -> bool {
    t.nanos == 0 && in_year_range(t.secs)
}

/// The RFC 3339 text of a whole second.
pub uninterp spec fn commit_time_text_of(secs: i64) -> Seq<char>;

/// The RFC 3339 text of a second is a commit-time text of the grammar that
/// reads back as that second.
pub open spec fn time_reads_back(secs: i64) -> bool {
    let t = commit_time_text_of(secs);
    &&& t.len() > 1
    &&& forall|i: int| 0 <= i < t.len() ==> time_char(#[trigger] t[i])
    &&& commit_time_of(t) == Some((secs, 0u32))
}

/// Relies on chrono's `DateTime::from_timestamp` and `to_rfc3339_opts` with
/// whole seconds and a `+00:00` offset, which for years 1 to 9999 write
/// `YYYY-MM-DDTHH:MM:SS+00:00`, and on chrono's `FromStr for DateTime<Utc>`,
/// which reads that text back as the same second.
#[verifier::external_body]
fn format_commit_time(secs: i64) -> (r: String)
    requires
        in_year_range(secs),
    ensures
        r@ == commit_time_text_of(secs),
        r@.len() > 1,
        forall|i: int| 0 <= i < r@.len() ==> time_char(#[trigger] r@[i]),
        commit_time_of(r@) == Some((secs, 0u32)),
{
    match chrono::DateTime::from_timestamp(secs, 0) {
        Some(dt) => dt.to_rfc3339_opts(chrono::SecondsFormat::Secs, false),
        None => String::new(),
    }
}

/// The text form of a query.
pub open spec fn query_text(q: QueryView) -> Seq<char> {
    let repo = match q.0 {
        WildPlacement::Exact(r) => r + seq!['/'],
        WildPlacement::Any => Seq::<char>::empty(),
    };
    let time = time_text(q.6);
    repo + ord_text(q.1) + seq!['.'] + ord_text(q.2) + seq!['.'] + ord_text(q.3) + seq!['-']
        + wild_text(q.4) + seq!['+'] + wild_text(q.5) + time
}

// ---------------------------------------------------------------------------
// Reading back the text form
/// A repository placement whose text form reads back: any, or a name that
/// is not `*`, holds no `/` and has no white space at its ends.
pub open spec fn printable_repo(w: WildPlacement<Seq<char>>) -> bool {
    match w {
        WildPlacement::Any => true,
        WildPlacement::Exact(r) => r.len() > 0 && r != seq!['*'] && trim_spec(r) == r && forall|i: int|
            0 <= i < r.len() ==> r[i] != '/',
    }
}

/// A branch placement whose text form reads back: any, or a branch that is
/// not `*` and holds only branch characters other than `/`.
pub open spec fn printable_branch(w: WildPlacement<Seq<char>>) -> bool {
    match w {
        WildPlacement::Any => true,
        WildPlacement::Exact(b) => b.len() > 0 && b != seq!['*'] && forall|i: int|
            0 <= i < b.len() ==> branch_char(#[trigger] b[i]) && b[i] != '/',
    }
}

/// A hash placement whose text form reads back: any, or a hash that is not
/// `*` and holds only hash characters.
pub open spec fn printable_hash(w: WildPlacement<Seq<char>>) -> bool {
    match w {
        WildPlacement::Any => true,
        WildPlacement::Exact(h) => h.len() > 0 && h != seq!['*'] && forall|i: int|
            0 <= i < h.len() ==> hash_char(#[trigger] h[i]),
    }
}

/// A query whose text form reads back as itself: its texts are printable,
/// and an exact commit time is whole seconds in years 1 to 9999 whose
/// RFC 3339 text reads back (which `to_string` ensures of every such time).
pub open spec fn printable(q: QueryView) -> bool {
    &&& printable_repo(q.0)
    &&& printable_branch(q.4)
    &&& printable_hash(q.5)
    &&& match q.6 {
        OrdPlacement::Exact(t) => exact_time_shown(t) && time_reads_back(t.secs),
        _ => true,
    }
}

pub proof fn lemma_branch_end_block(s: Seq<char>, i: int, k: int)
    requires
        0 <= i,
        0 <= k,
        i + k <= s.len(),
        forall|m: int| i <= m < i + k ==> branch_char(#[trigger] s[m]),
        i + k == s.len() || !branch_char(s[i + k]),
    ensures
        branch_end(s, i) == i + k,
    decreases k,
{
    if k > 0 {
        lemma_branch_end_block(s, i + 1, k - 1);
    }
}

pub proof fn lemma_hash_end_block(s: Seq<char>, i: int, k: int)
    requires
        0 <= i,
        0 <= k,
        i + k <= s.len(),
        forall|m: int| i <= m < i + k ==> hash_char(#[trigger] s[m]),
        i + k == s.len() || !hash_char(s[i + k]),
    ensures
        hash_end(s, i) == i + k,
    decreases k,
{
    if k > 0 {
        lemma_hash_end_block(s, i + 1, k - 1);
    }
}

/// The text form of a number placement is `^`, `*`, `-` or digits, and
/// reads back as the placement.
pub proof fn lemma_ord_text(t: OrdPlacement<u64>)
    ensures
        ord_text(t).len() > 0,
        forall|i: int|
            0 <= i < ord_text(t).len() ==> is_digit(#[trigger] ord_text(t)[i]) || is_selector(
                ord_text(t)[i],
            ),
        forall|i: int| 0 <= i < ord_text(t).len() ==> ord_text(t)[i] != '/',
        !(t is Exact) ==> ord_text(t).len() == 1 && is_selector(ord_text(t)[0]),
        t is Exact ==> all_digits(ord_text(t)),
        ord_of(ord_text(t), parse_u64_spec(ord_text(t))) == t,
{
    match t {
        OrdPlacement::Exact(n) => {
            lemma_decimal(n as nat);
            lemma_parse_decimal(n);
            let d = decimal(n as nat);
            assert(is_digit(d[0]));
            assert(d != seq!['^'] && d != seq!['L', 'a', 't', 'e', 's', 't']) by {
                if d == seq!['^'] {
                    assert(d[0] == '^');
                }
                if d == seq!['L', 'a', 't', 'e', 's', 't'] {
                    assert(d[0] == 'L');
                }
            }
            assert(d != seq!['*'] && d != seq!['A', 'n', 'y']) by {
                if d == seq!['*'] {
                    assert(d[0] == '*');
                }
                if d == seq!['A', 'n', 'y'] {
                    assert(d[0] == 'A');
                }
            }
            assert(d != seq!['-'] && d != seq!['O', 'l', 'd', 'e', 's', 't']) by {
                if d == seq!['-'] {
                    assert(d[0] == '-');
                }
                if d == seq!['O', 'l', 'd', 'e', 's', 't'] {
                    assert(d[0] == 'O');
                }
            }
        },
        OrdPlacement::Any => {
            assert(seq!['*'] != seq!['L', 'a', 't', 'e', 's', 't']);
            assert(seq!['*'] != seq!['^']) by {
                assert(seq!['*'][0] != seq!['^'][0]);
            }
        },
        OrdPlacement::Oldest => {
            assert(seq!['-'] != seq!['L', 'a', 't', 'e', 's', 't']);
            assert(seq!['-'] != seq!['A', 'n', 'y']);
            assert(seq!['-'] != seq!['^']) by {
                assert(seq!['-'][0] != seq!['^'][0]);
            }
            assert(seq!['-'] != seq!['*']) by {
                assert(seq!['-'][0] != seq!['*'][0]);
            }
        },
        OrdPlacement::Latest => {},
    }
}

/// A number placement's text form, followed by a character that is not a
/// digit, is read as one version component.
pub proof fn lemma_component(s: Seq<char>, p: int, t: OrdPlacement<u64>)
    requires
        0 <= p,
        p + ord_text(t).len() < s.len(),
        s.subrange(p, p + ord_text(t).len()) == ord_text(t),
        !is_digit(s[p + ord_text(t).len()]),
    ensures
        component_end(s, p) == Some(p + ord_text(t).len()),
{
    lemma_ord_text(t);
    let x = ord_text(t);
    assert(s[p] == x[0]);
    if t is Exact {
        assert(!is_selector(x[0]));
        assert forall|m: int| p <= m < p + x.len() implies is_digit(#[trigger] s[m]) by {
            assert(s[m] == x[m - p]);
        }
        lemma_run_end_block(s, p, x.len() as int);
    }
}

/// A printable text placement reads back as itself.
pub proof fn lemma_wild_round(w: WildPlacement<Seq<char>>)
    requires
        w is Any || (w matches WildPlacement::Exact(t) && t != seq!['*'] && trim_spec(t) == t),
    ensures
        wild_of(wild_text(w)) == w,
{
    match w {
        WildPlacement::Any => {
            lemma_trim_id(seq!['*']);
        },
        WildPlacement::Exact(t) => {},
    }
}

/// A text of branch or hash characters has no white space at its ends.
pub proof fn lemma_no_ws_trim(t: Seq<char>)
    requires
        forall|i: int| 0 <= i < t.len() ==> !is_white_space(#[trigger] t[i]),
    ensures
        trim_spec(t) == t,
{
    if t.len() > 0 {
        assert(!is_white_space(t[0]));
        assert(!is_white_space(t[t.len() - 1]));
    }
    lemma_trim_id(t);
}

/// The text form of a time placement.
pub open spec fn time_text(t: OrdPlacement<CommitTime>) -> Seq<char> {
    match t {
        OrdPlacement::Latest => seq!['@', '^'],
        OrdPlacement::Oldest => seq!['@', '-'],
        OrdPlacement::Exact(c) => if exact_time_shown(c) {
            seq!['@'] + commit_time_text_of(c.secs)
        } else {
            Seq::<char>::empty()
        },
        OrdPlacement::Any => Seq::<char>::empty(),
    }
}

/// Where the parts of a printed query stand in `s`.
pub open spec fn laid_out(s: Seq<char>, q: QueryView, o: int, a: int, b: int, c: int, e: int, j: int) -> bool {
    &&& 0 <= o
    &&& a == o + ord_text(q.1).len()
    &&& b == a + 1 + ord_text(q.2).len()
    &&& c == b + 1 + ord_text(q.3).len()
    &&& e == c + 1 + wild_text(q.4).len()
    &&& j == e + 1 + wild_text(q.5).len()
    &&& s.len() == j + time_text(q.6).len()
    &&& s.subrange(o, a) == ord_text(q.1)
    &&& s[a] == '.'
    &&& s.subrange(a + 1, b) == ord_text(q.2)
    &&& s[b] == '.'
    &&& s.subrange(b + 1, c) == ord_text(q.3)
    &&& s[c] == '-'
    &&& s.subrange(c + 1, e) == wild_text(q.4)
    &&& s[e] == '+'
    &&& s.subrange(e + 1, j) == wild_text(q.5)
    &&& s.subrange(j, s.len() as int) == time_text(q.6)
}

/// A time placement read from an optional span.
pub open spec fn time_at(s: Seq<char>, sp: Option<(usize, usize)>) -> OrdPlacement<CommitTime> {
    match sp {
        Some(x) => ord_of(text_of(s, x), commit_time_spec(text_of(s, x))),
        None => OrdPlacement::Any,
    }
}

/// The spans of the body of a laid-out query.
pub open spec fn body_spans(q: QueryView, o: int, a: int, b: int, c: int, e: int, j: int, n: int) -> QuerySpans {
    QuerySpans {
        repository: None,
        major: (o as usize, a as usize),
        minor: ((a + 1) as usize, b as usize),
        patch: ((b + 1) as usize, c as usize),
        branch: Some(((c + 1) as usize, e as usize)),
        hash: Some(((e + 1) as usize, j as usize)),
        time: if time_text(q.6).len() > 0 {
            Some(((j + 1) as usize, n as usize))
        } else {
            None
        },
    }
}

/// The body of a laid-out printable query reads as its parts.
#[verifier::rlimit(40)]
pub proof fn lemma_body_of_layout(s: Seq<char>, q: QueryView, o: int, a: int, b: int, c: int, e: int, j: int)
    requires
        printable(q),
        laid_out(s, q, o, a, b, c, e, j),
        s.len() <= usize::MAX,
    ensures
        body_at(s, o) == Some(body_spans(q, o, a, b, c, e, j, s.len() as int)),
{
    let n = s.len() as int;
    let bt = wild_text(q.4);
    let ht = wild_text(q.5);
    let tm = time_text(q.6);
    lemma_component(s, o, q.1);
    lemma_component(s, a + 1, q.2);
    lemma_component(s, b + 1, q.3);
    assert(bt.len() > 0 && forall|i: int| 0 <= i < bt.len() ==> branch_char(#[trigger] bt[i]));
    assert forall|m: int| c + 1 <= m < e implies branch_char(#[trigger] s[m]) by {
        assert(s[m] == s.subrange(c + 1, e)[m - c - 1]);
    }
    lemma_branch_end_block(s, c + 1, bt.len() as int);
    assert(ht.len() > 0 && forall|i: int| 0 <= i < ht.len() ==> hash_char(#[trigger] ht[i]));
    assert forall|m: int| e + 1 <= m < j implies hash_char(#[trigger] s[m]) by {
        assert(s[m] == s.subrange(e + 1, j)[m - e - 1]);
    }
    if tm.len() > 0 {
        let x = s.subrange(j + 1, n);
        assert(s[j] == s.subrange(j, n)[0]);
        assert(x =~= s.subrange(j, n).subrange(1, tm.len() as int));
        match q.6 {
            OrdPlacement::Exact(c) => {
                assert(x =~= commit_time_text_of(c.secs));
            },
            _ => {},
        }
        assert(time_ok(x));
    }
    lemma_hash_end_block(s, e + 1, ht.len() as int);
    let sp_time: Option<(usize, usize)> = if tm.len() > 0 {
        Some(((j + 1) as usize, n as usize))
    } else {
        None
    };
    assert(tail_at(s, e) == Some((Some(((e + 1) as usize, j as usize)), sp_time)));
    assert(branch_back(s, c + 1, e) == Some((e, tail_at(s, e)->0)));
}

/// The fields of a laid-out printable query read back as its parts.
#[verifier::rlimit(40)]
pub proof fn lemma_fields_of_layout(s: Seq<char>, q: QueryView, o: int, a: int, b: int, c: int, e: int, j: int)
    requires
        printable(q),
        laid_out(s, q, o, a, b, c, e, j),
        s.len() <= usize::MAX,
    ensures
        num_at(s, body_spans(q, o, a, b, c, e, j, s.len() as int).major) == q.1,
        num_at(s, body_spans(q, o, a, b, c, e, j, s.len() as int).minor) == q.2,
        num_at(s, body_spans(q, o, a, b, c, e, j, s.len() as int).patch) == q.3,
        wild_at(s, body_spans(q, o, a, b, c, e, j, s.len() as int).branch) == q.4,
        wild_at(s, body_spans(q, o, a, b, c, e, j, s.len() as int).hash) == q.5,
        time_at(s, body_spans(q, o, a, b, c, e, j, s.len() as int).time) == q.6,
{
    let n = s.len() as int;
    lemma_ord_text(q.1);
    lemma_ord_text(q.2);
    lemma_ord_text(q.3);
    let bt = wild_text(q.4);
    let ht = wild_text(q.5);
    assert(text_of(s, (o as usize, a as usize)) == ord_text(q.1));
    assert(text_of(s, ((a + 1) as usize, b as usize)) == ord_text(q.2));
    assert(text_of(s, ((b + 1) as usize, c as usize)) == ord_text(q.3));
    assert(text_of(s, ((c + 1) as usize, e as usize)) == bt);
    assert(text_of(s, ((e + 1) as usize, j as usize)) == ht);
    assert(forall|i: int| 0 <= i < bt.len() ==> branch_char(#[trigger] bt[i]));
    assert(forall|i: int| 0 <= i < ht.len() ==> hash_char(#[trigger] ht[i]));
    lemma_no_ws_trim(bt);
    lemma_no_ws_trim(ht);
    lemma_wild_round(q.4);
    lemma_wild_round(q.5);
    let t = text_of(s, ((j + 1) as usize, n as usize));
    match q.6 {
        OrdPlacement::Latest => {
            assert(s.subrange(j, n) == seq!['@', '^']);
            assert(t =~= seq!['^']) by {
                assert(t[0] == s.subrange(j, n)[1]);
            }
        },
        OrdPlacement::Oldest => {
            assert(s.subrange(j, n) == seq!['@', '-']);
            assert(t =~= seq!['-']) by {
                assert(t[0] == s.subrange(j, n)[1]);
            }
            assert(!is_latest_token(t)) by {
                assert(t[0] != seq!['^'][0]);
            }
            assert(!is_any_token(t)) by {
                assert(t[0] != seq!['*'][0]);
            }
        },
        OrdPlacement::Exact(c) => {
            let ct = commit_time_text_of(c.secs);
            assert(s.subrange(j, n) == seq!['@'] + ct);
            assert(t =~= ct) by {
                assert forall|k: int| 0 <= k < t.len() implies t[k] == ct[k] by {
                    assert(t[k] == s.subrange(j, n)[k + 1]);
                }
            }
            assert(time_char(t[0]));
            assert(!is_latest_token(t)) by {
                if t == seq!['L', 'a', 't', 'e', 's', 't'] {
                    assert(t[0] == 'L');
                }
            }
            assert(!is_any_token(t)) by {
                if t == seq!['A', 'n', 'y'] {
                    assert(t[0] == 'A');
                }
            }
            assert(!is_oldest_token(t)) by {
                if t == seq!['O', 'l', 'd', 'e', 's', 't'] {
                    assert(t[0] == 'O');
                }
            }
            assert(commit_time_spec(t) == Some(c));
        },
        _ => {},
    }
}


/// The text before the version: `<repository>/`, or nothing.
pub open spec fn repo_text(w: WildPlacement<Seq<char>>) -> Seq<char> {
    match w {
        WildPlacement::Exact(r) => r + seq!['/'],
        WildPlacement::Any => Seq::<char>::empty(),
    }
}

/// Where the parts of the printed form of `q` start: the version, then the
/// dots, the dash, the plus and the time.
pub open spec fn points(q: QueryView) -> (int, int, int, int, int, int) {
    let o = repo_text(q.0).len() as int;
    let a = o + ord_text(q.1).len();
    let b = a + 1 + ord_text(q.2).len();
    let c = b + 1 + ord_text(q.3).len();
    let e = c + 1 + wild_text(q.4).len();
    let j = e + 1 + wild_text(q.5).len();
    (o, a, b, c, e, j)
}

/// The printed form of a query is laid out part by part.
#[verifier::rlimit(60)]
pub proof fn lemma_text_layout(q: QueryView)
    ensures
        ({
            let p = points(q);
            laid_out(query_text(q), q, p.0, p.1, p.2, p.3, p.4, p.5)
        }),
        query_text(q).subrange(0, points(q).0) == repo_text(q.0),
{
    let s = query_text(q);
    let (o, a, b, c, e, j) = points(q);
    let rp = repo_text(q.0);
    let t1 = ord_text(q.1);
    let t2 = ord_text(q.2);
    let t3 = ord_text(q.3);
    let bt = wild_text(q.4);
    let ht = wild_text(q.5);
    let tm = time_text(q.6);
    let n = j + tm.len();
    assert(s =~= rp + t1 + seq!['.'] + t2 + seq!['.'] + t3 + seq!['-'] + bt + seq!['+'] + ht + tm);
    assert(s.subrange(0, o) =~= rp);
    assert(s.subrange(o, a) =~= t1);
    assert(s.subrange(a + 1, b) =~= t2);
    assert(s.subrange(b + 1, c) =~= t3);
    assert(s.subrange(c + 1, e) =~= bt);
    assert(s.subrange(e + 1, j) =~= ht);
    assert(s.subrange(j, n) =~= tm);
}

/// Without a repository, the printed form of a printable query holds no `/`.
#[verifier::rlimit(60)]
pub proof fn lemma_no_slash(s: Seq<char>, q: QueryView, a: int, b: int, c: int, e: int, j: int)
    requires
        printable(q),
        q.0 is Any,
        laid_out(s, q, 0, a, b, c, e, j),
    ensures
        forall|m: int| 0 <= m < s.len() ==> s[m] != '/',
{
    let n = s.len() as int;
    let tm = time_text(q.6);
    lemma_ord_text(q.1);
    lemma_ord_text(q.2);
    lemma_ord_text(q.3);
    let bt = wild_text(q.4);
    let ht = wild_text(q.5);
    assert(forall|i: int| 0 <= i < bt.len() ==> bt[i] != '/');
    assert(forall|i: int| 0 <= i < ht.len() ==> hash_char(#[trigger] ht[i]));
    assert forall|m: int| 0 <= m < n implies s[m] != '/' by {
        if m < a {
            assert(s[m] == s.subrange(0, a)[m]);
        } else if a + 1 <= m < b {
            assert(s[m] == s.subrange(a + 1, b)[m - a - 1]);
        } else if b + 1 <= m < c {
            assert(s[m] == s.subrange(b + 1, c)[m - b - 1]);
        } else if c + 1 <= m < e {
            assert(s[m] == s.subrange(c + 1, e)[m - c - 1]);
        } else if e + 1 <= m < j {
            assert(s[m] == s.subrange(e + 1, j)[m - e - 1]);
        } else if j <= m {
            assert(s[m] == s.subrange(j, n)[m - j]);
            if m > j {
                match q.6 {
                    OrdPlacement::Exact(t) => {
                        assert(tm[m - j] == commit_time_text_of(t.secs)[m - j - 1]);
                        assert(time_char(tm[m - j]));
                    },
                    _ => {},
                }
            }
        }
    }
}

/// Printing a printable query and reading the text back gives the query.
pub proof fn lemma_query_round_trip(q: QueryView)
    requires
        printable(q),
        query_text(q).len() <= usize::MAX,
    ensures
        query_spec(query_text(q)) == Some(q),
{
    let s = query_text(q);
    let (o, a, b, c, e, j) = points(q);
    let n = s.len() as int;
    lemma_text_layout(q);
    lemma_body_of_layout(s, q, o, a, b, c, e, j);
    lemma_fields_of_layout(s, q, o, a, b, c, e, j);
    let body = body_spans(q, o, a, b, c, e, j, n);
    match q.0 {
        WildPlacement::Exact(r) => {
            let rp = repo_text(q.0);
            assert forall|m: int| 0 <= m < r.len() implies s[m] != '/' by {
                assert(s[m] == rp[m]);
            }
            assert(s[r.len() as int] == rp[r.len() as int]);
            lemma_find_char(s, '/', 0, r.len() as int);
            assert(text_of(s, (0usize, r.len() as usize)) =~= r) by {
                assert forall|m: int| 0 <= m < r.len() implies text_of(s, (0usize, r.len() as usize))[m] == r[m] by {
                    assert(s[m] == rp[m]);
                }
            }
            lemma_wild_round(q.0);
            let full = QuerySpans { repository: Some((0usize, r.len() as usize)), ..body };
            assert(query_spans(s) == Some(full));
        },
        WildPlacement::Any => {
            lemma_no_slash(s, q, a, b, c, e, j);
            lemma_find_char_none(s, '/', 0);
            assert(query_spans(s) == Some(body));
        },
    }
}

} // verus!

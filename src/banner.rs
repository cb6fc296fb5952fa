//! Reading what `blender -v` prints: the version, the build's branch and
//! hash, and when its commit was made.
use vstd::prelude::*;

use crate::records::{BasicBuildInfo, CommitTime, LocalBuild, LocalBuildInfo};
use crate::text::{chars_of, cut_at, cut_at_spec, find_from_exec, find_spec, slice_chars, string_of, trim_spec, trim_str};
use crate::verbose::{default_branch, default_hash, valid_part, VerboseVersion};
use crate::version::{opt_view, parse_blender_ver, parse_spec, Version, VersionParts};

verus! {

/// What a version banner says of a build.
#[derive(Clone, Debug, PartialEq, Eq)]
pub struct CollectedInfo {
    /// When the build's commit was made.
    pub commit_dt: Option<CommitTime>,
    /// The build hash.
    pub build_hash: Option<String>,
    /// The branch.
    pub branch: Option<String>,
    /// The version.
    pub subversion: Option<Version>,
    /// The name a custom build gives itself in place of `Blender`.
    pub custom_name: Option<String>,
}

/// The rest of the line after the first occurrence of `label`.
pub open spec fn after_label(text: Seq<char>, label: Seq<char>) -> Option<Seq<char>> {
    match find_spec(text, label) {
        Some(i) => Some(cut_at_spec(text.subrange(i + label.len(), text.len() as int), seq!['\n'])),
        None => None,
    }
}

/// The first line of a text, as `str::lines` gives it: up to the first line
/// feed, without a carriage return just before it; none for an empty text.
pub open spec fn first_line(text: Seq<char>) -> Option<Seq<char>> {
    if text.len() == 0 {
        None
    } else {
        match find_spec(text, seq!['\n']) {
            Some(i) => if i > 0 && text[i - 1] == '\r' {
                Some(text.subrange(0, i - 1))
            } else {
                Some(text.subrange(0, i))
            },
            None => Some(text),
        }
    }
}

/// What the commit date and time, joined by a space, read as with the
/// format `%F %H:%M`: seconds since the epoch (UTC) and nanoseconds.
pub uninterp spec fn commit_stamp_of(s: Seq<char>) -> Option<(i64, u32)>;

/// Relies on chrono's `NaiveDateTime::parse_from_str` with the format
/// `%F %H:%M`, read as UTC, and on `timestamp` / `timestamp_subsec_nanos`:
/// the result depends on the text alone.
#[verifier::external_body]
fn read_commit_stamp(s: &str) -> (r: Option<CommitTime>)
    ensures
        match r {
            Some(c) => commit_stamp_of(s@) == Some((c.secs, c.nanos)),
            None => commit_stamp_of(s@) is None,
        },
{
    match chrono::NaiveDateTime::parse_from_str(s, "%F %H:%M") {
        Ok(n) => {
            let dt = n.and_utc();
            Some(CommitTime { secs: dt.timestamp(), nanos: dt.timestamp_subsec_nanos() })
        },
        Err(_) => None,
    }
}

/// The commit time that a date and a time text give.
pub open spec fn commit_time_from(date: Seq<char>, time: Seq<char>) -> Option<CommitTime> {
    match commit_stamp_of(date + seq![' '] + time) {
        Some((secs, nanos)) => Some(CommitTime { secs, nanos }),
        None => None,
    }
}

/// `build commit date: `
pub open spec fn label_date() -> Seq<char> {
    seq!['b', 'u', 'i', 'l', 'd', ' ', 'c', 'o', 'm', 'm', 'i', 't', ' ', 'd', 'a', 't', 'e', ':', ' ']
}

/// `build commit time: `
pub open spec fn label_time() -> Seq<char> {
    seq!['b', 'u', 'i', 'l', 'd', ' ', 'c', 'o', 'm', 'm', 'i', 't', ' ', 't', 'i', 'm', 'e', ':', ' ']
}

/// `build hash: `
pub open spec fn label_hash() -> Seq<char> {
    seq!['b', 'u', 'i', 'l', 'd', ' ', 'h', 'a', 's', 'h', ':', ' ']
}

/// `build branch: `
pub open spec fn label_branch() -> Seq<char> {
    seq!['b', 'u', 'i', 'l', 'd', ' ', 'b', 'r', 'a', 'n', 'c', 'h', ':', ' ']
}

/// `Blender `
pub open spec fn label_blender() -> Seq<char> {
    seq!['B', 'l', 'e', 'n', 'd', 'e', 'r', ' ']
}

/// The view of an optional text.
pub open spec fn opt_text(o: Option<String>) -> Option<Seq<char>> {
    match o {
        Some(s) => Some(s@),
        None => None,
    }
}

/// The name and version a banner gives: the version after `Blender ` where
/// it parses (from its start); else the first line, trimmed and split at
/// its first space into a name and a version (trimmed); else neither.
pub open spec fn name_and_version(text: Seq<char>) -> (Option<Seq<char>>, Option<VersionParts>) {
    let by_label = match after_label(text, label_blender()) {
        Some(t) => parse_spec(t, false),
        None => None,
    };
    if by_label is Some {
        (None, by_label)
    } else {
        match first_line(text) {
            None => (None, None),
            Some(l) => {
                let t = trim_spec(l);
                match find_spec(t, seq![' ']) {
                    None => (None, None),
                    Some(i) => (
                        Some(t.subrange(0, i)),
                        parse_spec(trim_spec(t.subrange(i + 1, t.len() as int)), false),
                    ),
                }
            },
        }
    }
}

/// The rest of the line after the first occurrence of `label` in `v`.
fn after_label_exec(v: &Vec<char>, label: &Vec<char>) -> (r: Option<String>)
    ensures
        opt_text(r) == after_label(v@, label@),
{
    let n = v.len();
    match find_from_exec(v, label, 0) {
        Some(i) => {
            let rest = slice_chars(v, i + label.len(), v.len());
            let nl = vec!['\n'];
            assert(nl@ == seq!['\n']);
            let line = cut_at(rest, &nl);
            Some(string_of(&line))
        },
        None => None,
    }
}

fn first_line_exec(v: &Vec<char>) -> (r: Option<String>)
    ensures
        opt_text(r) == first_line(v@),
{
    if v.len() == 0 {
        return None;
    }
    let nl = vec!['\n'];
    assert(nl@ == seq!['\n']);
    match find_from_exec(v, &nl, 0) {
        Some(i) => {
            if i > 0 && v[i - 1] == '\r' {
                Some(string_of(&slice_chars(v, 0, i - 1)))
            } else {
                Some(string_of(&slice_chars(v, 0, i)))
            }
        },
        None => Some(string_of(v)),
    }
}

fn name_and_version_exec(v: &Vec<char>) -> (r: (Option<String>, Option<Version>))
    ensures
        (opt_text(r.0), opt_view(r.1)) == name_and_version(v@),
{
    let label = vec!['B', 'l', 'e', 'n', 'd', 'e', 'r', ' '];
    assert(label@ == label_blender());
    let by_label = match after_label_exec(v, &label) {
        Some(t) => parse_blender_ver(t.as_str(), false),
        None => None,
    };
    if by_label.is_some() {
        return (None, by_label);
    }
    match first_line_exec(v) {
        None => (None, None),
        Some(l) => {
            let t = trim_str(l.as_str());
            let tv = chars_of(t);
            let tn = tv.len();
            let sp = vec![' '];
            assert(sp@ == seq![' ']);
            match find_from_exec(&tv, &sp, 0) {
                None => (None, None),
                Some(i) => {
                    let name = string_of(&slice_chars(&tv, 0, i));
                    let ver = string_of(&slice_chars(&tv, i + 1, tv.len()));
                    let ver = parse_blender_ver(trim_str(ver.as_str()), false);
                    (Some(name), ver)
                },
            }
        },
    }
}

/// What a banner says: the commit time (where both its date and its time
/// are given and read), the build hash and branch (the rest of their
/// lines), and the name and version (see `name_and_version`).
pub open spec fn collect_info_spec(text: Seq<char>) -> (
    Option<CommitTime>,
    Option<Seq<char>>,
    Option<Seq<char>>,
    Option<VersionParts>,
    Option<Seq<char>>,
) {
    let dt = match (after_label(text, label_date()), after_label(text, label_time())) {
        (Some(d), Some(t)) => commit_time_from(d, t),
        _ => None,
    };
    let nv = name_and_version(text);
    (dt, after_label(text, label_hash()), after_label(text, label_branch()), nv.1, nv.0)
}

/// Reads what `blender -v` printed.
pub fn collect_info(text: &str) -> (r: CollectedInfo)
    ensures
        (r.commit_dt, opt_text(r.build_hash), opt_text(r.branch), opt_view(r.subversion), opt_text(
            r.custom_name,
        )) == collect_info_spec(text@),
{
    let v = chars_of(text);
    let date_label = vec!['b', 'u', 'i', 'l', 'd', ' ', 'c', 'o', 'm', 'm', 'i', 't', ' ', 'd', 'a', 't', 'e', ':', ' '];
    let time_label = vec!['b', 'u', 'i', 'l', 'd', ' ', 'c', 'o', 'm', 'm', 'i', 't', ' ', 't', 'i', 'm', 'e', ':', ' '];
    let hash_label = vec!['b', 'u', 'i', 'l', 'd', ' ', 'h', 'a', 's', 'h', ':', ' '];
    let branch_label = vec!['b', 'u', 'i', 'l', 'd', ' ', 'b', 'r', 'a', 'n', 'c', 'h', ':', ' '];
    assert(date_label@ == label_date());
    assert(time_label@ == label_time());
    assert(hash_label@ == label_hash());
    assert(branch_label@ == label_branch());
    let commit_dt = match (after_label_exec(&v, &date_label), after_label_exec(&v, &time_label)) {
        (Some(d), Some(t)) => {
            let mut joined = chars_of(d.as_str());
            joined.push(' ');
            let tc = chars_of(t.as_str());
            let mut k: usize = 0;
            let ghost start = joined@;
            while k < tc.len()
                invariant
                    k <= tc@.len(),
                    joined@ == start + tc@.take(k as int),
                decreases tc@.len() - k,
            {
                joined.push(tc[k]);
                k = k + 1;
                assert(joined@ =~= start + tc@.take(k as int));
            }
            assert(tc@.take(k as int) =~= t@);
            let s = string_of(&joined);
            assert(s@ =~= d@ + seq![' '] + t@);
            read_commit_stamp(s.as_str())
        },
        _ => None,
    };
    let build_hash = after_label_exec(&v, &hash_label);
    let branch = after_label_exec(&v, &branch_label);
    let (custom_name, subversion) = name_and_version_exec(&v);
    CollectedInfo { commit_dt, build_hash, branch, subversion, custom_name }
}

/// Why a local build could not be made from a banner.
#[derive(Clone, Copy, Debug, PartialEq, Eq)]
pub enum BuildInfoError {
    /// The banner gave no version or no commit time.
    MissingInfo,
    /// The banner's branch or hash is not a single build-metadata
    /// identifier.
    InvalidMetadata,
}

/// An optional text, or a default.
pub open spec fn opt_text_or(o: Option<String>, d: Seq<char>) -> Seq<char> {
    match o {
        Some(s) => s@,
        None => d,
    }
}

impl LocalBuild {
    /// The local build in `folder` that a banner describes: its version's
    /// numbers, its branch and hash (`null` and `ffffffff` where not given),
    /// its commit time and custom name; not a favourite, with no custom
    /// executable or environment. Fails where the banner lacks the version or
    /// the commit time, or where its branch or hash is not a single
    /// build-metadata identifier.
    pub fn from_collected(folder: String, info: CollectedInfo) -> (r: Result<LocalBuild, BuildInfoError>)
        ensures
            (info.commit_dt is None || info.subversion is None) ==> r == Err::<LocalBuild, BuildInfoError>(BuildInfoError::MissingInfo),
            (info.commit_dt is Some && info.subversion is Some) ==> (r is Err <==> !(valid_part(
                opt_text_or(info.build_hash, default_hash()),
            ) && valid_part(opt_text_or(info.branch, default_branch())))),
            r is Err ==> r == Err::<LocalBuild, BuildInfoError>(BuildInfoError::MissingInfo) || r == Err::<LocalBuild, BuildInfoError>(BuildInfoError::InvalidMetadata),
            r matches Ok(lb) ==> {
                &&& lb.folder == folder
                &&& Some(lb.info.basic.commit_dt) == info.commit_dt
                &&& lb.info.basic.ver.version_spec().major == info.subversion->0.major
                &&& lb.info.basic.ver.version_spec().minor == info.subversion->0.minor
                &&& lb.info.basic.ver.version_spec().patch == info.subversion->0.patch
                &&& lb.info.basic.ver.branch_spec() == opt_text_or(info.branch, default_branch())
                &&& lb.info.basic.ver.hash_spec() == opt_text_or(info.build_hash, default_hash())
                &&& lb.info.custom_name == info.custom_name
                &&& !lb.info.is_favorited
                &&& lb.info.custom_exe is None
                &&& lb.info.custom_env is None
            },
    {
        let CollectedInfo { commit_dt, build_hash, branch, subversion, custom_name } = info;
        let (commit_dt, v) = match (commit_dt, subversion) {
            (Some(c), Some(v)) => (c, v),
            _ => {
                return Err(BuildInfoError::MissingInfo);
            },
        };
        let ver = VerboseVersion::new(v.major, v.minor, v.patch, None, None, None);
        let ver = match &build_hash {
            Some(h) => ver.with_build_hash(Some(h.as_str())),
            None => ver.with_build_hash(None),
        };
        let ver = match ver {
            Ok(x) => x,
            Err(_) => {
                return Err(BuildInfoError::InvalidMetadata);
            },
        };
        let ver = match &branch {
            Some(b) => ver.with_branch(Some(b.as_str())),
            None => ver.with_branch(None),
        };
        let ver = match ver {
            Ok(x) => x,
            Err(_) => {
                return Err(BuildInfoError::InvalidMetadata);
            },
        };
        Ok(
            LocalBuild {
                folder,
                info: LocalBuildInfo {
                    basic: BasicBuildInfo { ver, commit_dt },
                    is_favorited: false,
                    custom_name,
                    custom_exe: None,
                    custom_env: None,
                },
            },
        )
    }
}

} // verus!

//! Remote build repositories, their listings, and the settings used to reach
//! them.
use vstd::prelude::*;

use crate::matching::lemma_filter_step;
use crate::launching::{join_path, path_join_of};
use crate::records::{BasicBuildInfo, CommitTime, LocalBuild};
use crate::text::{
    chars_of, decimal, find_from_exec, find_spec, push_str, same_text, slice_chars, string_of,
};
use crate::verbose::{join_texts, joined, metadata_split, VerboseVersion};
use crate::version::{
    version_text, build_metadata_valid, checked_build_metadata, checked_prerelease, opt_view, parse_blender_ver,
    parse_spec, prerelease_valid, Version, VersionParts,
};

verus! {

/// Proxy settings.
#[derive(Clone, PartialEq, Eq)]
pub struct ProxyConfig {
    /// The proxy's host name.
    pub url: String,
    /// The user name.
    pub user: String,
    /// The user's password.
    pub password: String,
}

/// Proxy settings as they are stored.
#[derive(Clone, Debug, PartialEq, Eq, Default)]
pub struct SerialProxyOptions {
    /// The proxy's URL.
    pub url: String,
    /// The user name.
    pub user: String,
    /// The user's password.
    pub password: String,
}

/// GitHub credentials.
#[derive(Clone, Debug, PartialEq, Eq)]
pub struct GithubAuthentication {
    /// The account's user name.
    pub user: String,
    /// The account's password or token.
    pub token: String,
}

impl GithubAuthentication {
    /// Credentials from a user name and a password or token.
    pub fn new(username: String, password: String) -> (r: GithubAuthentication)
        ensures
            r.user == username,
            r.token == password,
    {
        GithubAuthentication { user: username, token: password }
    }
}

/// The kinds of build repository.
#[derive(Clone, Copy, Debug, PartialEq, Eq)]
pub enum RepoType {
    /// The official Blender builder, which lists builds as JSON.
    Blender,
}

/// A build repository.
#[derive(Debug, PartialEq, Eq)]
pub struct BuildRepo {
    /// A unique identifier.
    pub repo_id: String,
    /// Where its listing is.
    pub url: String,
    /// A short name.
    pub nickname: String,
    /// What kind of repository it is.
    pub repo_type: RepoType,
}

/// One entry of the Blender builder's listing.
#[derive(Clone, Debug, PartialEq, Eq)]
pub struct BlenderBuildSchema {
    /// The application's name (usually `Blender`).
    pub app: String,
    /// Where to download the build.
    pub url: String,
    /// The version text.
    pub version: String,
    /// The branch the build was made from.
    pub branch: String,
    /// Patch information, if any.
    pub patch: Option<String>,
    /// The commit hash.
    pub hash: String,
    /// The platform (`windows`, `linux`, ...).
    pub platform: String,
    /// The architecture (`x86_64`, ...).
    pub architecture: String,
    /// When the file was last modified, in seconds since the epoch.
    pub file_mtime: usize,
    /// The file's name without its extension.
    pub file_name: String,
    /// The file's size in bytes.
    pub file_size: usize,
    /// The file's extension (`zip`, `tar.xz`, ...).
    pub file_extension: String,
    /// The release cycle (`stable`, `alpha`, ...).
    pub release_cycle: String,
}

/// The full version of a listing entry: the numbers parsed from its version
/// text, `pre` as pre-release and `<branch>.<hash>` as build metadata; none
/// where the version text does not parse or either part is not valid.
pub open spec fn full_version_spec(
    version: Seq<char>,
    pre: Seq<char>,
    branch: Seq<char>,
    hash: Seq<char>,
) -> Option<VersionParts> {
    match parse_spec(version, false) {
        None => None,
        Some(v) => if prerelease_valid(pre) && build_metadata_valid(joined(branch, hash)) {
            Some((v.0, v.1, v.2, pre, joined(branch, hash)))
        } else {
            None
        },
    }
}

/// `<platform>-<release cycle>`
pub open spec fn platform_cycle(platform: Seq<char>, cycle: Seq<char>) -> Seq<char> {
    platform + seq!['-'] + cycle
}

impl BlenderBuildSchema {
    fn version_with(&self, pre: &str) -> (r: Option<Version>)
        ensures
            opt_view(r) == full_version_spec(self.version@, pre@, self.branch@, self.hash@),
    {
        let pre = match checked_prerelease(pre) {
            Some(p) => p,
            None => {
                return None;
            },
        };
        let meta = join_texts(self.branch.as_str(), self.hash.as_str());
        let build = match checked_build_metadata(meta.as_str()) {
            Some(b) => b,
            None => {
                return None;
            },
        };
        match parse_blender_ver(self.version.as_str(), false) {
            Some(v) => Some(Version { major: v.major, minor: v.minor, patch: v.patch, pre, build }),
            None => None,
        }
    }

    /// The build's version: the numbers of its version text, its release
    /// cycle as pre-release and `<branch>.<hash>` as build metadata.
    pub fn full_version(&self) -> (r: Option<Version>)
        ensures
            opt_view(r) == full_version_spec(
                self.version@,
                self.release_cycle@,
                self.branch@,
                self.hash@,
            ),
    {
        self.version_with(self.release_cycle.as_str())
    }

    /// As `full_version`, with `<platform>-<release cycle>` as pre-release.
    pub fn full_version_and_platform(&self) -> (r: Option<Version>)
        ensures
            opt_view(r) == full_version_spec(
                self.version@,
                platform_cycle(self.platform@, self.release_cycle@),
                self.branch@,
                self.hash@,
            ),
    {
        let mut p = chars_of(self.platform.as_str());
        p.push('-');
        push_str(&mut p, self.release_cycle.as_str());
        let pre = string_of(&p);
        assert(pre@ =~= platform_cycle(self.platform@, self.release_cycle@));
        self.version_with(pre.as_str())
    }
}

/// A build and its checksum file, from a listing.
#[derive(Clone, Debug, Default, PartialEq, Eq)]
pub struct Sha256Pair {
    /// The entry of the checksum file.
    pub sha256: Option<BlenderBuildSchema>,
    /// The entry of the build.
    pub build: Option<BlenderBuildSchema>,
}

/// A release on GitHub.
#[derive(Clone, Debug, PartialEq, Eq)]
pub struct GithubRelease {
    pub url: String,
    pub assets_url: String,
    pub upload_url: String,
    pub html_url: String,
    pub id: usize,
    pub tag_name: String,
    pub target_commitish: String,
    pub name: String,
    pub prerelease: bool,
    pub assets: Vec<GithubReleaseAsset>,
}

/// A file of a GitHub release.
#[derive(Clone, Debug, PartialEq, Eq)]
pub struct GithubReleaseAsset {
    pub url: String,
    pub id: usize,
    pub name: String,
    pub content_type: String,
    pub size: usize,
    pub created_at: String,
    pub updated_at: String,
    pub browser_download_url: String,
}

/// One downloadable variant of a build.
#[derive(Clone, Debug, PartialEq, Eq)]
pub struct BuildVariant<B> {
    /// The variant itself.
    pub b: B,
    /// The operating system it is for.
    pub target_os: String,
    /// The architecture it is for.
    pub architecture: String,
    /// Its file extension.
    pub extension: String,
}

/// The variants of one build.
#[derive(Clone, Debug, PartialEq, Eq)]
pub struct Variants<B> {
    /// The variants.
    pub v: Vec<BuildVariant<B>>,
    /// The build they are variants of.
    pub basic: BasicBuildInfo,
}

/// A variant is for the target `(os, architecture, extension)`.
pub open spec fn fits_target<B>(b: BuildVariant<B>, os: Seq<char>, arch: Seq<char>, ext: Seq<char>) -> bool {
    b.target_os@ == os && b.architecture@ == arch && b.extension@ == ext
}

impl<B> Variants<B> {
    /// Keeps the variants for the target `(os, architecture, extension)`, in
    /// order.
    pub fn filter_target(self, target: (&str, &str, &str)) -> (r: Variants<B>)
        ensures
            r.basic == self.basic,
            r.v@ == self.v@.filter(|b: BuildVariant<B>| fits_target(b, target.0@, target.1@, target.2@)),
    {
        let ghost p = |b: BuildVariant<B>| fits_target(b, target.0@, target.1@, target.2@);
        let ghost s = self.v@;
        let Variants { v, basic } = self;
        let mut kept: Vec<BuildVariant<B>> = Vec::new();
        let mut rest = v;
        let mut i: usize = 0;
        let n = rest.len();
        proof {
            assert(rest@ =~= s.subrange(0, n as int));
        }
        while i < n
            invariant
                n == s.len(),
                i <= n,
                p == (|b: BuildVariant<B>| fits_target(b, target.0@, target.1@, target.2@)),
                rest@ == s.subrange(i as int, n as int),
                kept@ == s.take(i as int).filter(p),
            decreases n - i,
        {
            proof {
                lemma_filter_step(s, p, i as int);
            }
            let b = rest.remove(0);
            proof {
                assert(b == s[i as int]);
                assert(rest@ =~= s.subrange(i + 1, n as int));
            }
            if same_text(b.target_os.as_str(), target.0) && same_text(b.architecture.as_str(), target.1)
                && same_text(b.extension.as_str(), target.2) {
                kept.push(b);
            }
            i = i + 1;
        }
        assert(s.take(n as int) =~= s);
        Variants { v: kept, basic }
    }
}

/// A version has these numbers.
pub open spec fn same_numbers(v: Version, p: VersionParts) -> bool {
    v.major == p.0 && v.minor == p.1 && v.patch == p.2
}

/// A point in time can be made from these seconds since the epoch: chrono's
/// dates run from the year -262143 to the year 262142.
pub open spec fn timestamp_in_range(secs: i64) -> bool {
    -8334601315200 <= secs <= 8210266876799
}

/// Relies on chrono's `DateTime::from_timestamp` with no nanoseconds: it
/// gives that instant, or nothing where the seconds fall outside its dates
/// (`NaiveDate::MIN`, -262143-01-01, to `NaiveDate::MAX`, 262142-12-31).
#[verifier::external_body]
fn checked_timestamp(secs: i64) -> (r: Option<CommitTime>)
    ensures
        r is Some <==> timestamp_in_range(secs),
        r matches Some(c) ==> c.secs == secs && c.nanos == 0,
{
    match chrono::DateTime::from_timestamp(secs, 0) {
        Some(dt) => Some(CommitTime { secs: dt.timestamp(), nanos: dt.timestamp_subsec_nanos() }),
        None => None,
    }
}

/// A build offered by a remote repository.
#[derive(Clone, Debug, PartialEq, Eq)]
pub struct RemoteBuild {
    /// Where to download it.
    pub link: String,
    /// Its version and commit time.
    pub basic: BasicBuildInfo,
    /// The platform it is for.
    pub platform: Option<String>,
    /// The architecture it is for.
    pub architecture: Option<String>,
    /// Its file extension.
    pub file_extension: Option<String>,
}

/// The text of an optional field, or a stand-in.
pub open spec fn or_text(o: Option<String>, d: Seq<char>) -> Seq<char> {
    match o {
        Some(s) => s@,
        None => d,
    }
}

/// `<platform> <architecture> (<extension>)`, with `unknown`, `null` and
/// `.???` for missing fields.
pub open spec fn remote_text(b: RemoteBuild) -> Seq<char> {
    or_text(b.platform, seq!['u', 'n', 'k', 'n', 'o', 'w', 'n']) + seq![' '] + or_text(
        b.architecture,
        seq!['n', 'u', 'l', 'l'],
    ) + seq![' ', '('] + or_text(b.file_extension, seq!['.', '?', '?', '?']) + seq![')']
}

fn push_or(out: &mut Vec<char>, o: &Option<String>, d: &str)
    ensures
        final(out)@ == old(out)@ + match o {
            Some(s) => s@,
            None => d@,
        },
{
    match o {
        Some(s) => push_str(out, s.as_str()),
        None => push_str(out, d),
    }
}

impl RemoteBuild {
    /// The build a listing entry describes: its full version (with branch
    /// and hash) and its file's modification time as commit time. None where
    /// the entry's version cannot be read or the time cannot be represented.
    pub fn from_schema(val: BlenderBuildSchema) -> (r: Option<RemoteBuild>)
        ensures
            r is Some <==> full_version_spec(val.version@, val.release_cycle@, val.branch@, val.hash@)
                is Some && val.file_mtime <= i64::MAX && timestamp_in_range(val.file_mtime as i64),
            r matches Some(b) ==> {
                &&& b.link == val.url
                &&& b.basic.commit_dt == CommitTime { secs: val.file_mtime as i64, nanos: 0 }
                &&& full_version_spec(val.version@, val.release_cycle@, val.branch@, val.hash@)
                    matches Some(fv) && same_numbers(b.basic.ver.version_spec(), fv)
                &&& b.basic.ver.version_spec().pre@ == val.release_cycle@
                &&& metadata_split(
                    joined(val.branch@, val.hash@),
                    b.basic.ver.branch_spec(),
                    b.basic.ver.hash_spec(),
                )
                &&& b.platform == Some(val.platform)
                &&& b.architecture == Some(val.architecture)
                &&& b.file_extension == Some(val.file_extension)
            },
    {
        let v = match val.full_version() {
            Some(v) => v,
            None => {
                return None;
            },
        };
        if val.file_mtime as u64 > 9223372036854775807u64 {
            return None;
        }
        let commit_dt = match checked_timestamp(val.file_mtime as i64) {
            Some(c) => c,
            None => {
                return None;
            },
        };
        proof {
            let b = joined(val.branch@, val.hash@);
            assert(b[val.branch@.len() as int] == '.');
        }
        let ver = VerboseVersion::from_version(v);
        Some(
            RemoteBuild {
                link: val.url,
                basic: BasicBuildInfo { ver, commit_dt },
                platform: Some(val.platform),
                architecture: Some(val.architecture),
                file_extension: Some(val.file_extension),
            },
        )
    }

    /// The text form: `<platform> <architecture> (<extension>)`.
    pub fn to_string(&self) -> (r: String)
        ensures
            r@ == remote_text(*self),
    {
        proof {
            reveal_strlit("unknown");
            reveal_strlit("null");
            reveal_strlit(".???");
            assert("unknown"@ =~= seq!['u', 'n', 'k', 'n', 'o', 'w', 'n']);
            assert("null"@ =~= seq!['n', 'u', 'l', 'l']);
            assert(".???"@ =~= seq!['.', '?', '?', '?']);
        }
        let mut out: Vec<char> = Vec::new();
        push_or(&mut out, &self.platform, "unknown");
        out.push(' ');
        push_or(&mut out, &self.architecture, "null");
        out.push(' ');
        out.push('(');
        push_or(&mut out, &self.file_extension, ".???");
        out.push(')');
        assert(out@ =~= remote_text(*self));
        string_of(&out)
    }
}

/// The target `(os, architecture, extension)` of builds for a system, given
/// its architecture and operating system as Rust names them: `aarch64` is
/// `arm64`, and `x86_64` on Windows is `amd64`; Linux builds are `xz`,
/// macOS (`darwin`) builds `dmg`, Windows builds `zip`; none for another
/// system.
pub open spec fn target_setup_spec(arch: Seq<char>, os: Seq<char>) -> Option<(Seq<char>, Seq<char>, Seq<char>)> {
    let a = if arch == seq!['a', 'a', 'r', 'c', 'h', '6', '4'] {
        seq!['a', 'r', 'm', '6', '4']
    } else if arch == seq!['x', '8', '6', '_', '6', '4'] && os == seq!['w', 'i', 'n', 'd', 'o', 'w', 's'] {
        seq!['a', 'm', 'd', '6', '4']
    } else {
        arch
    };
    if os == seq!['l', 'i', 'n', 'u', 'x'] {
        Some((os, a, seq!['x', 'z']))
    } else if os == seq!['m', 'a', 'c', 'o', 's'] {
        Some((seq!['d', 'a', 'r', 'w', 'i', 'n'], a, seq!['d', 'm', 'g']))
    } else if os == seq!['w', 'i', 'n', 'd', 'o', 'w', 's'] {
        Some((os, a, seq!['z', 'i', 'p']))
    } else {
        None
    }
}

/// The view of an optional triple of texts.
pub open spec fn triple_view(r: Option<(String, String, String)>) -> Option<(Seq<char>, Seq<char>, Seq<char>)> {
    match r {
        Some((a, b, c)) => Some((a@, b@, c@)),
        None => None,
    }
}

/// The target of builds for a system; see `target_setup_spec`.
pub fn get_target_setup(arch: &str, os: &str) -> (r: Option<(String, String, String)>)
    ensures
        triple_view(r) == target_setup_spec(arch@, os@),
{
    proof {
        reveal_strlit("aarch64");
        reveal_strlit("arm64");
        reveal_strlit("x86_64");
        reveal_strlit("amd64");
        reveal_strlit("windows");
        reveal_strlit("linux");
        reveal_strlit("macos");
        reveal_strlit("darwin");
        reveal_strlit("xz");
        reveal_strlit("dmg");
        reveal_strlit("zip");
        assert("aarch64"@ =~= seq!['a', 'a', 'r', 'c', 'h', '6', '4']);
        assert("arm64"@ =~= seq!['a', 'r', 'm', '6', '4']);
        assert("x86_64"@ =~= seq!['x', '8', '6', '_', '6', '4']);
        assert("amd64"@ =~= seq!['a', 'm', 'd', '6', '4']);
        assert("windows"@ =~= seq!['w', 'i', 'n', 'd', 'o', 'w', 's']);
        assert("linux"@ =~= seq!['l', 'i', 'n', 'u', 'x']);
        assert("macos"@ =~= seq!['m', 'a', 'c', 'o', 's']);
        assert("darwin"@ =~= seq!['d', 'a', 'r', 'w', 'i', 'n']);
        assert("xz"@ =~= seq!['x', 'z']);
        assert("dmg"@ =~= seq!['d', 'm', 'g']);
        assert("zip"@ =~= seq!['z', 'i', 'p']);
    }
    let a = if same_text(arch, "aarch64") {
        "arm64"
    } else if same_text(arch, "x86_64") && same_text(os, "windows") {
        "amd64"
    } else {
        arch
    };
    if same_text(os, "linux") {
        Some((os.to_owned(), a.to_owned(), String::from_str("xz")))
    } else if same_text(os, "macos") {
        Some((String::from_str("darwin"), a.to_owned(), String::from_str("dmg")))
    } else if same_text(os, "windows") {
        Some((os.to_owned(), a.to_owned(), String::from_str("zip")))
    } else {
        None
    }
}

/// `sha256`
pub open spec fn sha256_ext() -> Seq<char> {
    seq!['s', 'h', 'a', '2', '5', '6']
}

/// The key a listing entry is paired under: its full version with its
/// platform.
pub open spec fn pair_key(sch: BlenderBuildSchema) -> Option<VersionParts> {
    full_version_spec(
        sch.version@,
        platform_cycle(sch.platform@, sch.release_cycle@),
        sch.branch@,
        sch.hash@,
    )
}

/// The pair after `sch` joins `old`: as the checksum where its extension is
/// `sha256`, else as the build.
pub open spec fn joined_pair(old: Sha256Pair, sch: BlenderBuildSchema) -> Sha256Pair {
    if sch.file_extension@ == sha256_ext() {
        Sha256Pair { sha256: Some(sch), build: old.build }
    } else {
        Sha256Pair { sha256: old.sha256, build: Some(sch) }
    }
}

/// The pairs a listing makes, by key; later entries replace earlier ones of
/// the same kind. None where an entry's version cannot be read.
pub open spec fn pairs_spec(lst: Seq<BlenderBuildSchema>) -> Option<Map<VersionParts, Sha256Pair>>
    decreases lst.len(),
{
    if lst.len() == 0 {
        Some(Map::empty())
    } else {
        match pairs_spec(lst.drop_last()) {
            None => None,
            Some(m) => match pair_key(lst.last()) {
                None => None,
                Some(k) => {
                    let old = if m.contains_key(k) {
                        m[k]
                    } else {
                        Sha256Pair { sha256: None, build: None }
                    };
                    Some(m.insert(k, joined_pair(old, lst.last())))
                },
            },
        }
    }
}

/// A list of keyed pairs, with no key twice, that holds exactly the map `m`.
pub open spec fn represents(v: Seq<(Version, Sha256Pair)>, m: Map<VersionParts, Sha256Pair>) -> bool {
    &&& forall|i: int, j: int| 0 <= i < j < v.len() ==> (#[trigger] v[i]).0@ != (#[trigger] v[j]).0@
    &&& forall|i: int| 0 <= i < v.len() ==> m.contains_key((#[trigger] v[i]).0@) && m[v[i].0@] == v[i].1
    &&& forall|k: VersionParts| #[trigger] m.contains_key(k) ==> exists|i: int| 0 <= i < v.len() && v[i].0@ == k
}

fn same_parts(a: &Version, b: &Version) -> (r: bool)
    ensures
        r == (a@ == b@),
{
    a.major == b.major && a.minor == b.minor && a.patch == b.patch && a.pre == b.pre && a.build
        == b.build
}

/// Once a prefix of a listing cannot be paired, the whole listing cannot.
pub proof fn lemma_pairs_none_extends(all: Seq<BlenderBuildSchema>, j: int)
    requires
        0 <= j <= all.len(),
        pairs_spec(all.take(j)) is None,
    ensures
        pairs_spec(all) is None,
    decreases all.len() - j,
{
    if j == all.len() {
        assert(all.take(j) =~= all);
    } else {
        assert(all.take(j + 1).drop_last() =~= all.take(j));
        lemma_pairs_none_extends(all, j + 1);
    }
}

/// Pairs each build of a listing with its checksum file, by full version and
/// platform: one entry per key. None where an entry's version cannot be
/// read.
pub fn get_sha256_pairs(lst: Vec<BlenderBuildSchema>) -> (r: Option<Vec<(Version, Sha256Pair)>>)
    ensures
        match r {
            Some(v) => pairs_spec(lst@) matches Some(m) && represents(v@, m),
            None => pairs_spec(lst@) is None,
        },
{
    let ghost all = lst@;
    let mut out: Vec<(Version, Sha256Pair)> = Vec::new();
    let mut rest = lst;
    let n = rest.len();
    let mut i: usize = 0;
    proof {
        assert(rest@ =~= all.subrange(0, n as int));
        assert(all.take(0) =~= Seq::<BlenderBuildSchema>::empty());
        assert(represents(out@, Map::empty()));
    }
    while i < n
        invariant
            all == lst@,
            n == all.len(),
            i <= n,
            rest@ == all.subrange(i as int, n as int),
            pairs_spec(all.take(i as int)) matches Some(m) && represents(out@, m),
        decreases n - i,
    {
        let ghost m = pairs_spec(all.take(i as int))->0;
        let sch = rest.remove(0);
        proof {
            assert(sch == all[i as int]);
            assert(rest@ =~= all.subrange(i + 1, n as int));
            assert(all.take(i + 1).drop_last() =~= all.take(i as int));
            assert(all.take(i + 1).last() == all[i as int]);
        }
        let key = match sch.full_version_and_platform() {
            Some(k) => k,
            None => {
                proof {
                    assert(pair_key(all.take(i + 1).last()) is None);
                    assert(pairs_spec(all.take(i + 1)) is None);
                    lemma_pairs_none_extends(all, i as int + 1);
                }
                return None;
            },
        };
        let mut idx: usize = 0;
        while idx < out.len() && !same_parts(&out[idx].0, &key)
            invariant
                idx <= out@.len(),
                forall|j: int| 0 <= j < idx ==> out@[j].0@ != key@,
            decreases out@.len() - idx,
        {
            idx = idx + 1;
        }
        let is_sha = same_text(sch.file_extension.as_str(), "sha256");
        proof {
            reveal_strlit("sha256");
            assert("sha256"@ =~= sha256_ext());
        }
        let ghost old_pair = if m.contains_key(key@) {
            m[key@]
        } else {
            Sha256Pair { sha256: None, build: None }
        };
        let ghost out0 = out@;
        let found = idx < out.len();
        let old = if found {
            let (_, p) = out.remove(idx);
            p
        } else {
            Sha256Pair { sha256: None, build: None }
        };
        proof {
            if found {
                assert(out0[idx as int].0@ == key@);
                assert(old == out0[idx as int].1);
            } else {
                if m.contains_key(key@) {
                    let a = choose|a: int| 0 <= a < out0.len() && out0[a].0@ == key@;
                    assert(out0[a].0@ != key@);
                }
            }
            assert(old == old_pair);
        }
        let pair = if is_sha {
            Sha256Pair { sha256: Some(sch), build: old.build }
        } else {
            Sha256Pair { sha256: old.sha256, build: Some(sch) }
        };
        let ghost before = out@;
        out.push((key, pair));
        proof {
            let m2 = m.insert(key@, joined_pair(old_pair, all[i as int]));
            assert(pairs_spec(all.take(i + 1)) == Some(m2));
            // Where an entry of the list before the removal now stands.
            assert forall|a: int| 0 <= a < before.len() implies (#[trigger] before[a]) == (if found
                && a >= idx {
                out0[a + 1]
            } else {
                out0[a]
            }) by {}
            assert forall|a: int| 0 <= a < before.len() implies (#[trigger] before[a]).0@ != key@ by {
                if found && a >= idx {
                    assert(out0[a + 1].0@ != out0[idx as int].0@);
                } else if found {
                    assert(out0[a].0@ != out0[idx as int].0@);
                }
            }
            assert forall|a: int, b: int| 0 <= a < b < out@.len() implies (#[trigger] out@[a]).0@
                != (#[trigger] out@[b]).0@ by {
                assert(out@[a] == before[a]);
                if b < out@.len() - 1 {
                    assert(out@[b] == before[b]);
                    if found && a >= idx {
                        assert(out0[a + 1].0@ != out0[b + 1].0@);
                    } else if found && b >= idx {
                        assert(out0[a].0@ != out0[b + 1].0@);
                    } else {
                        assert(out0[a].0@ != out0[b].0@);
                    }
                }
            }
            assert forall|a: int| 0 <= a < out@.len() implies m2.contains_key(
                (#[trigger] out@[a]).0@,
            ) && m2[out@[a].0@] == out@[a].1 by {
                if a < out@.len() - 1 {
                    assert(out@[a] == before[a]);
                    if found && a >= idx {
                        assert(m.contains_key(out0[a + 1].0@));
                    } else {
                        assert(m.contains_key(out0[a].0@));
                    }
                }
            }
            assert forall|k: VersionParts| #[trigger] m2.contains_key(k) implies exists|a: int|
                0 <= a < out@.len() && out@[a].0@ == k by {
                if k == key@ {
                    assert(out@[out@.len() - 1].0@ == k);
                } else {
                    assert(m.contains_key(k));
                    let a0 = choose|a0: int| 0 <= a0 < out0.len() && out0[a0].0@ == k;
                    if found && a0 > idx {
                        assert(out@[a0 - 1] == before[a0 - 1]);
                        assert(out@[a0 - 1].0@ == k);
                    } else if found && a0 == idx {
                        assert(out0[a0].0@ == key@);
                    } else {
                        assert(out@[a0] == before[a0]);
                        assert(out@[a0].0@ == k);
                    }
                }
            }
        }
        i = i + 1;
    }
    proof {
        assert(all.take(n as int) =~= all);
    }
    Some(out)
}

// ---------------------------------------------------------------------------
// GitHub releases
/// The last position of `c` in `s`, or -1.
pub open spec fn last_index(s: Seq<char>, c: char) -> int
    decreases s.len(),
{
    if s.len() == 0 {
        -1
    } else if s.last() == c {
        s.len() - 1
    } else {
        last_index(s.drop_last(), c)
    }
}

/// What follows the last `/` of a URL (all of it where there is none).
pub open spec fn last_segment(s: Seq<char>) -> Seq<char> {
    s.subrange(last_index(s, '/') + 1, s.len() as int)
}

/// The stem and the extension of a file name, as `Path::file_stem` and
/// `Path::extension` give them, with the stem standing for a missing
/// extension: a name whose only dot is its first character, or that has
/// none, is all stem. None for an empty name, `.` and `..`, which name no
/// file.
pub open spec fn name_parts(name: Seq<char>) -> Option<(Seq<char>, Seq<char>)> {
    if name.len() == 0 || name == seq!['.'] || name == seq!['.', '.'] {
        None
    } else {
        let d = last_index(name, '.');
        if d <= 0 {
            Some((name, name))
        } else {
            Some((name.subrange(0, d), name.subrange(d + 1, name.len() as int)))
        }
    }
}

/// The platform a file stem names: `darwin`, else `windows`, else `linux`
/// where the stem holds the word, else `unknown_platform`.
pub open spec fn platform_of(stem: Seq<char>) -> Seq<char> {
    if find_spec(stem, seq!['d', 'a', 'r', 'w', 'i', 'n']) is Some {
        seq!['d', 'a', 'r', 'w', 'i', 'n']
    } else if find_spec(stem, seq!['w', 'i', 'n', 'd', 'o', 'w', 's']) is Some {
        seq!['w', 'i', 'n', 'd', 'o', 'w', 's']
    } else if find_spec(stem, seq!['l', 'i', 'n', 'u', 'x']) is Some {
        seq!['l', 'i', 'n', 'u', 'x']
    } else {
        seq![
            'u',
            'n',
            'k',
            'n',
            'o',
            'w',
            'n',
            '_',
            'p',
            'l',
            'a',
            't',
            'f',
            'o',
            'r',
            'm',
        ]
    }
}

/// The seconds since the epoch of an RFC 3339 date and time.
pub uninterp spec fn rfc3339_secs_of(s: Seq<char>) -> Option<i64>;

/// Relies on chrono's `DateTime::parse_from_rfc3339` and `timestamp`: the
/// result depends on the text alone.
#[verifier::external_body]
fn read_rfc3339_secs(s: &str) -> (r: Option<i64>)
    ensures
        r == rfc3339_secs_of(s@),
{
    match chrono::DateTime::parse_from_rfc3339(s) {
        Ok(dt) => Some(dt.to_utc().timestamp()),
        Err(_) => None,
    }
}

/// The branch (and release cycle) of a release's builds: `release` for a
/// pre-release and `prerelease` otherwise, as the listing names them.
pub open spec fn release_branch(prerelease: bool) -> Seq<char> {
    if prerelease {
        seq!['r', 'e', 'l', 'e', 'a', 's', 'e']
    } else {
        seq!['p', 'r', 'e', 'r', 'e', 'l', 'e', 'a', 's', 'e']
    }
}

/// The version text of a release: its tag read as a version (1.0.0 where it
/// is not one).
pub open spec fn release_version(tag: Seq<char>) -> Seq<char> {
    match parse_spec(tag, false) {
        Some(v) => version_text(v),
        None => seq!['1', '.', '0', '.', '0'],
    }
}

/// `sch` is the listing entry of `asset` in `rel`.
pub open spec fn asset_schema(rel: GithubRelease, asset: GithubReleaseAsset, sch: BlenderBuildSchema) -> bool {
    let parts = name_parts(last_segment(asset.browser_download_url@))->0;
    &&& sch.app == rel.name
    &&& sch.url == asset.browser_download_url
    &&& sch.version@ == release_version(rel.tag_name@)
    &&& sch.branch@ == release_branch(rel.prerelease)
    &&& sch.patch is None
    &&& sch.hash@ == seq!['f', 'f', 'f', 'f', 'f', 'f', 'f', 'f']
    &&& sch.platform@ == platform_of(parts.0)
    &&& sch.architecture@ == seq!['u', 'n', 'k', 'n', 'o', 'w', 'n', '_', 'a', 'r', 'c', 'h']
    &&& rfc3339_secs_of(asset.updated_at@) matches Some(t) && sch.file_mtime == t as usize
    &&& sch.file_name@ == parts.0
    &&& sch.file_size == asset.size
    &&& sch.file_extension@ == parts.1
    &&& sch.release_cycle@ == release_branch(rel.prerelease)
}

/// An asset can be listed: its URL ends in a file name and its update time
/// reads as an RFC 3339 time.
pub open spec fn asset_listable(asset: GithubReleaseAsset) -> bool {
    &&& name_parts(last_segment(asset.browser_download_url@)) is Some
    &&& rfc3339_secs_of(asset.updated_at@) is Some
}

fn last_index_exec(v: &Vec<char>, c: char) -> (r: Option<usize>)
    ensures
        match r {
            Some(i) => last_index(v@, c) == i as int && i < v@.len(),
            None => last_index(v@, c) == -1,
        },
{
    let mut j = v.len();
    proof {
        assert(v@.subrange(0, j as int) =~= v@);
    }
    while j > 0 && v[j - 1] != c
        invariant
            j <= v@.len(),
            last_index(v@, c) == last_index(v@.subrange(0, j as int), c),
        decreases j,
    {
        assert(v@.subrange(0, j as int).drop_last() =~= v@.subrange(0, j - 1));
        j = j - 1;
    }
    if j == 0 {
        None
    } else {
        Some(j - 1)
    }
}

fn contains_word(v: &Vec<char>, w: &Vec<char>) -> (r: bool)
    ensures
        r == (find_spec(v@, w@) is Some),
{
    find_from_exec(v, w, 0).is_some()
}

fn platform_exec(stem: &Vec<char>) -> (r: String)
    ensures
        r@ == platform_of(stem@),
{
    let darwin = vec!['d', 'a', 'r', 'w', 'i', 'n'];
    let windows = vec!['w', 'i', 'n', 'd', 'o', 'w', 's'];
    let linux = vec!['l', 'i', 'n', 'u', 'x'];
    let unknown = vec!['u', 'n', 'k', 'n', 'o', 'w', 'n', '_', 'p', 'l', 'a', 't', 'f', 'o', 'r', 'm'];
    if contains_word(stem, &darwin) {
        string_of(&darwin)
    } else if contains_word(stem, &windows) {
        string_of(&windows)
    } else if contains_word(stem, &linux) {
        string_of(&linux)
    } else {
        string_of(&unknown)
    }
}

/// The stem and extension of the file a URL ends in.
fn url_name_parts(url: &str) -> (r: Option<(Vec<char>, Vec<char>)>)
    ensures
        match r {
            Some((a, b)) => name_parts(last_segment(url@)) == Some((a@, b@)),
            None => name_parts(last_segment(url@)) is None,
        },
{
    let v = chars_of(url);
    let vn = v.len();
    let start = match last_index_exec(&v, '/') {
        Some(i) => i + 1,
        None => 0,
    };
    let name = slice_chars(&v, start, v.len());
    let n = name.len();
    if n == 0 || (n == 1 && name[0] == '.') || (n == 2 && name[0] == '.' && name[1] == '.') {
        proof {
            if n == 1 && name@[0] == '.' {
                assert(name@ =~= seq!['.']);
            }
            if n == 2 && name@[0] == '.' && name@[1] == '.' {
                assert(name@ =~= seq!['.', '.']);
            }
        }
        return None;
    }
    proof {
        if name@ == seq!['.'] {
            assert(name@[0] == '.');
        }
        if name@ == seq!['.', '.'] {
            assert(name@[0] == '.' && name@[1] == '.');
        }
    }
    match last_index_exec(&name, '.') {
        Some(d) => if d == 0 {
            Some((name.clone(), name))
        } else {
            Some((slice_chars(&name, 0, d), slice_chars(&name, d + 1, n)))
        },
        None => Some((name.clone(), name)),
    }
}

impl GithubRelease {
    /// The listing entries of this release's assets, one per asset, in
    /// order; a file's time is its seconds since the epoch, wrapped into a
    /// `usize` (as a cast does) for a time before the epoch. None where an
    /// asset's URL ends in no file name or its update time does not read as
    /// an RFC 3339 time.
    pub fn to_build_schemas(self) -> (r: Option<Vec<BlenderBuildSchema>>)
        ensures
            r is Some <==> forall|i: int| 0 <= i < self.assets@.len() ==> asset_listable(
                #[trigger] self.assets@[i],
            ),
            r matches Some(v) ==> v@.len() == self.assets@.len() && forall|i: int|
                0 <= i < v@.len() ==> asset_schema(self, self.assets@[i], #[trigger] v@[i]),
    {
        let ghost rel = self;
        let version = match parse_blender_ver(self.tag_name.as_str(), false) {
            Some(v) => v.to_string(),
            None => Version::new(1, 0, 0).to_string(),
        };
        proof {
            lemma_one_text();
        }
        let branch = if self.prerelease {
            string_of(&vec!['r', 'e', 'l', 'e', 'a', 's', 'e'])
        } else {
            string_of(&vec!['p', 'r', 'e', 'r', 'e', 'l', 'e', 'a', 's', 'e'])
        };
        let mut out: Vec<BlenderBuildSchema> = Vec::new();
        let mut i: usize = 0;
        while i < self.assets.len()
            invariant
                rel == self,
                version@ == release_version(rel.tag_name@),
                branch@ == release_branch(rel.prerelease),
                i <= self.assets@.len(),
                out@.len() == i,
                forall|k: int| 0 <= k < i ==> asset_listable(#[trigger] self.assets@[k]),
                forall|k: int| 0 <= k < i ==> asset_schema(rel, rel.assets@[k], #[trigger] out@[k]),
            decreases self.assets@.len() - i,
        {
            let asset = &self.assets[i];
            let (stem, ext) = match url_name_parts(asset.browser_download_url.as_str()) {
                Some(p) => p,
                None => {
                    return None;
                },
            };
            let secs = match read_rfc3339_secs(asset.updated_at.as_str()) {
                Some(t) => t,
                None => {
                    return None;
                },
            };
            let mtime: usize = #[verifier::truncate] (secs as usize);
            let sch = BlenderBuildSchema {
                app: self.name.clone(),
                url: asset.browser_download_url.clone(),
                version: version.clone(),
                branch: branch.clone(),
                patch: None,
                hash: string_of(&vec!['f', 'f', 'f', 'f', 'f', 'f', 'f', 'f']),
                platform: platform_exec(&stem),
                architecture: string_of(&vec!['u', 'n', 'k', 'n', 'o', 'w', 'n', '_', 'a', 'r', 'c', 'h']),
                file_mtime: mtime,
                file_name: string_of(&stem),
                file_size: asset.size,
                file_extension: string_of(&ext),
                release_cycle: branch.clone(),
            };
            let ghost before = out@;
            out.push(sch);
            proof {
                assert forall|k: int| 0 <= k < i + 1 implies asset_schema(rel, rel.assets@[k], #[trigger] out@[k]) by {
                    if k < i {
                        assert(out@[k] == before[k]);
                    }
                }
            }
            i = i + 1;
        }
        Some(out)
    }
}

/// The text of version 1.0.0.
proof fn lemma_one_text()
    ensures
        version_text((1u64, 0u64, 0u64, Seq::<char>::empty(), Seq::<char>::empty())) == seq!['1', '.', '0', '.', '0'],
{
    assert(decimal(1) == seq!['1']);
    assert(decimal(0) == seq!['0']);
    assert(version_text((1u64, 0u64, 0u64, Seq::<char>::empty(), Seq::<char>::empty())) =~= seq!['1', '.', '0', '.', '0']);
}

impl Clone for BuildRepo {
    fn clone(&self) -> (r: BuildRepo)
        ensures
            r == *self,
    {
        BuildRepo {
            repo_id: self.repo_id.clone(),
            url: self.url.clone(),
            nickname: self.nickname.clone(),
            repo_type: self.repo_type,
        }
    }
}

// ---------------------------------------------------------------------------
// Repositories and library folders
/// The position of the last repository with identifier `id`, or -1.
pub open spec fn last_with(repos: Seq<BuildRepo>, id: Seq<char>) -> int
    decreases repos.len(),
{
    if repos.len() == 0 {
        -1
    } else if repos.last().repo_id@ == id {
        repos.len() - 1
    } else {
        last_with(repos.drop_last(), id)
    }
}

/// The folder at `i` is the first of its name.
pub open spec fn first_of_name(folders: Seq<String>, i: int) -> bool {
    forall|j: int| 0 <= j < i ==> folders[j]@ != folders[i]@
}

/// Some folder has this name.
pub open spec fn has_folder(folders: Seq<String>, id: Seq<char>) -> bool {
    exists|j: int| 0 <= j < folders.len() && folders[j]@ == id
}

/// What a folder stands for: the (last) repository of its name, or the name
/// of a folder that no repository claims.
pub open spec fn folder_entry(repos: Seq<BuildRepo>, f: String) -> Result<BuildRepo, String> {
    if last_with(repos, f@) >= 0 {
        Ok(repos[last_with(repos, f@)])
    } else {
        Err(f)
    }
}

/// The repository at `k` has no folder and is the last of its identifier.
pub open spec fn repo_without_folder(repos: Seq<BuildRepo>, folders: Seq<String>, k: int) -> bool {
    last_with(repos, repos[k].repo_id@) == k && !has_folder(folders, repos[k].repo_id@)
}

/// The entries for the folders, one per folder name, in order.
pub open spec fn folder_entries(repos: Seq<BuildRepo>, folders: Seq<String>) -> Seq<Result<BuildRepo, String>> {
    Seq::new(folders.len(), |i: int| i).filter(|i: int| first_of_name(folders, i)).map_values(
        |i: int| folder_entry(repos, folders[i]),
    )
}

/// The repositories without a folder, in order.
pub open spec fn missing_entries(repos: Seq<BuildRepo>, folders: Seq<String>) -> Seq<Result<BuildRepo, String>> {
    Seq::new(repos.len(), |k: int| k).filter(|k: int| repo_without_folder(repos, folders, k)).map_values(
        |k: int| Ok(repos[k]),
    )
}

fn last_with_exec(repos: &Vec<BuildRepo>, id: &str) -> (r: Option<usize>)
    ensures
        match r {
            Some(k) => last_with(repos@, id@) == k as int && k < repos@.len(),
            None => last_with(repos@, id@) == -1,
        },
{
    let mut j = repos.len();
    proof {
        assert(repos@.subrange(0, j as int) =~= repos@);
    }
    while j > 0 && !same_text(repos[j - 1].repo_id.as_str(), id)
        invariant
            j <= repos@.len(),
            last_with(repos@, id@) == last_with(repos@.subrange(0, j as int), id@),
        decreases j,
    {
        assert(repos@.subrange(0, j as int).drop_last() =~= repos@.subrange(0, j - 1));
        j = j - 1;
    }
    if j == 0 {
        None
    } else {
        assert(repos@.subrange(0, j as int).last() == repos@[j - 1]);
        Some(j - 1)
    }
}

fn has_name_before(folders: &Vec<String>, end: usize, id: &str) -> (r: bool)
    requires
        end <= folders@.len(),
    ensures
        r == exists|j: int| 0 <= j < end && folders@[j]@ == id@,
{
    let mut j: usize = 0;
    while j < end
        invariant
            end <= folders@.len(),
            j <= end,
            forall|m: int| 0 <= m < j ==> folders@[m]@ != id@,
        decreases end - j,
    {
        if same_text(folders[j].as_str(), id) {
            return true;
        }
        j = j + 1;
    }
    false
}

/// Sorts the registered repositories against the folders of the library:
/// for each folder name (once, in order) the last repository with that
/// identifier, or the name where none has it; then, in order, each
/// repository (the last of its identifier) that has no folder.
pub fn get_known_and_unknown_repos(repos: Vec<BuildRepo>, folders: Vec<String>) -> (r: Vec<
    Result<BuildRepo, String>,
>)
    ensures
        r@ == folder_entries(repos@, folders@) + missing_entries(repos@, folders@),
{
    let ghost fidx = Seq::new(folders@.len(), |i: int| i);
    let ghost fp = |i: int| first_of_name(folders@, i);
    let ghost fe = |i: int| folder_entry(repos@, folders@[i]);
    let mut out: Vec<Result<BuildRepo, String>> = Vec::new();
    let mut i: usize = 0;
    while i < folders.len()
        invariant
            i <= folders@.len(),
            fidx == Seq::new(folders@.len(), |i: int| i),
            fp == (|i: int| first_of_name(folders@, i)),
            fe == (|i: int| folder_entry(repos@, folders@[i])),
            out@ == fidx.take(i as int).filter(fp).map_values(fe),
        decreases folders@.len() - i,
    {
        proof {
            crate::matching::lemma_filter_step(fidx, fp, i as int);
        }
        let seen = has_name_before(&folders, i, folders[i].as_str());
        if !seen {
            let entry = match last_with_exec(&repos, folders[i].as_str()) {
                Some(k) => Ok(repos[k].clone()),
                None => Err(folders[i].clone()),
            };
            let ghost before = out@;
            out.push(entry);
            proof {
                assert(fp(fidx[i as int]));
                assert(out@ =~= fidx.take(i + 1).filter(fp).map_values(fe));
            }
        } else {
            proof {
                assert(!fp(fidx[i as int]));
            }
        }
        i = i + 1;
    }
    proof {
        assert(fidx.take(i as int) =~= fidx);
    }
    let ghost head = out@;
    let ghost ridx = Seq::new(repos@.len(), |k: int| k);
    let ghost rp = |k: int| repo_without_folder(repos@, folders@, k);
    let ghost re = |k: int| Ok::<BuildRepo, String>(repos@[k]);
    let mut k: usize = 0;
    while k < repos.len()
        invariant
            k <= repos@.len(),
            head == folder_entries(repos@, folders@),
            ridx == Seq::new(repos@.len(), |k: int| k),
            rp == (|k: int| repo_without_folder(repos@, folders@, k)),
            re == (|k: int| Ok::<BuildRepo, String>(repos@[k])),
            out@ == head + ridx.take(k as int).filter(rp).map_values(re),
        decreases repos@.len() - k,
    {
        proof {
            crate::matching::lemma_filter_step(ridx, rp, k as int);
        }
        let last = last_with_exec(&repos, repos[k].repo_id.as_str());
        let claimed = has_name_before(&folders, folders.len(), repos[k].repo_id.as_str());
        let is_last = match last {
            Some(x) => x == k,
            None => false,
        };
        if is_last && !claimed {
            out.push(Ok(repos[k].clone()));
            proof {
                assert(rp(ridx[k as int]));
                assert(out@ =~= head + ridx.take(k + 1).filter(rp).map_values(re));
            }
        } else {
            proof {
                assert(!rp(ridx[k as int]));
            }
        }
        k = k + 1;
    }
    proof {
        assert(ridx.take(k as int) =~= ridx);
    }
    out
}

// ---------------------------------------------------------------------------
// Repository entries
/// A build of a repository, as the library and the repository's listing
/// show it.
#[derive(Debug)]
pub enum BuildEntry {
    /// Offered by the repository, not installed: its variants.
    NotInstalled(Variants<RemoteBuild>),
    /// Installed, in the named folder.
    Installed(String, LocalBuild),
    /// Could not be read: the error's message and the path, where known.
    Errored(String, Option<String>),
}

/// A repository with its builds.
#[derive(Debug)]
pub enum RepoEntry {
    /// A registered repository.
    Registered(BuildRepo, Vec<BuildEntry>),
    /// A folder of the library that no registered repository claims.
    Unknown(String, Vec<BuildEntry>),
    /// A repository whose folder could not be read: its name and the
    /// error's message.
    Error(String, String),
}

/// Some entry is an installed build.
pub open spec fn has_installed(v: Seq<BuildEntry>) -> bool {
    exists|i: int| 0 <= i < v.len() && v[i] is Installed
}

/// Whether some entry of `v` is an installed build.
fn any_installed(v: &Vec<BuildEntry>) -> (r: bool)
    ensures
        r == has_installed(v@),
{
    let mut i: usize = 0;
    while i < v.len()
        invariant
            i <= v@.len(),
            forall|j: int| 0 <= j < i ==> !(v@[j] is Installed),
        decreases v@.len() - i,
    {
        if let BuildEntry::Installed(_, _) = &v[i] {
            assert(v@[i as int] is Installed);
            return true;
        }
        i = i + 1;
    }
    false
}

impl RepoEntry {
    /// Whether any of the repository's builds is installed.
    pub fn has_installed_builds(&self) -> (r: bool)
        ensures
            r == match self {
                RepoEntry::Registered(_, v) => has_installed(v@),
                RepoEntry::Unknown(_, v) => has_installed(v@),
                RepoEntry::Error(_, _) => false,
            },
    {
        match self {
            RepoEntry::Registered(_, v) => any_installed(v),
            RepoEntry::Unknown(_, v) => any_installed(v),
            RepoEntry::Error(_, _) => false,
        }
    }
}

/// The variants of `old` kept for a target are those of `new`, with the
/// same build.
pub open spec fn variants_for(old: Variants<RemoteBuild>, new: Variants<RemoteBuild>, t: (Seq<char>, Seq<char>, Seq<char>)) -> bool {
    new.basic == old.basic && new.v@ == old.v@.filter(
        |b: BuildVariant<RemoteBuild>| fits_target(b, t.0, t.1, t.2),
    )
}

/// An entry keeps something for a target: a listed build keeps some
/// variant for it; any other entry always stays.
pub open spec fn entry_kept(e: BuildEntry, t: (Seq<char>, Seq<char>, Seq<char>)) -> bool {
    match e {
        BuildEntry::NotInstalled(vs) => vs.v@.filter(
            |b: BuildVariant<RemoteBuild>| fits_target(b, t.0, t.1, t.2),
        ).len() > 0,
        _ => true,
    }
}

/// `new` is `old` narrowed to a target.
pub open spec fn entry_for(old: BuildEntry, new: BuildEntry, t: (Seq<char>, Seq<char>, Seq<char>)) -> bool {
    match old {
        BuildEntry::NotInstalled(vs) => new matches BuildEntry::NotInstalled(ns) && variants_for(vs, ns, t),
        _ => new == old,
    }
}

/// The entries of `new` are those of `old` that have variants for the
/// target, each narrowed to it.
pub open spec fn entries_for(old: Seq<BuildEntry>, new: Seq<BuildEntry>, t: (Seq<char>, Seq<char>, Seq<char>)) -> bool {
    let kept = old.filter(|e: BuildEntry| entry_kept(e, t));
    &&& new.len() == kept.len()
    &&& forall|i: int| 0 <= i < new.len() ==> entry_for(kept[i], #[trigger] new[i], t)
}

/// A registered repository keeps some builds for the target; other entries
/// are always kept.
pub open spec fn repo_kept(r: RepoEntry, t: (Seq<char>, Seq<char>, Seq<char>)) -> bool {
    match r {
        RepoEntry::Registered(_, v) => v@.filter(|e: BuildEntry| entry_kept(e, t)).len() > 0,
        _ => true,
    }
}

/// `new` is `old` narrowed to a target.
pub open spec fn repo_for(old: RepoEntry, new: RepoEntry, t: (Seq<char>, Seq<char>, Seq<char>)) -> bool {
    match old {
        RepoEntry::Registered(b, v) => new matches RepoEntry::Registered(nb, nv) && nb == b
            && entries_for(v@, nv@, t),
        _ => new == old,
    }
}

fn entry_for_target(e: BuildEntry, target: (&str, &str, &str)) -> (r: Option<BuildEntry>)
    ensures
        r is Some <==> entry_kept(e, (target.0@, target.1@, target.2@)),
        r matches Some(n) ==> entry_for(e, n, (target.0@, target.1@, target.2@)),
{
    match e {
        BuildEntry::NotInstalled(variants) => {
            let kept = variants.filter_target(target);
            if kept.v.len() == 0 {
                None
            } else {
                Some(BuildEntry::NotInstalled(kept))
            }
        },
        other => Some(other),
    }
}

fn entries_for_target(v: Vec<BuildEntry>, target: (&str, &str, &str)) -> (r: Vec<BuildEntry>)
    ensures
        entries_for(v@, r@, (target.0@, target.1@, target.2@)),
{
    let ghost t = (target.0@, target.1@, target.2@);
    let ghost all = v@;
    let ghost p = |e: BuildEntry| entry_kept(e, t);
    let mut rest = v;
    let mut out: Vec<BuildEntry> = Vec::new();
    let n = rest.len();
    let mut i: usize = 0;
    proof {
        assert(rest@ =~= all.subrange(0, n as int));
    }
    while i < n
        invariant
            n == all.len(),
            i <= n,
            t == (target.0@, target.1@, target.2@),
            p == (|e: BuildEntry| entry_kept(e, t)),
            rest@ == all.subrange(i as int, n as int),
            out@.len() == all.take(i as int).filter(p).len(),
            forall|k: int| 0 <= k < out@.len() ==> entry_for(all.take(i as int).filter(p)[k], #[trigger] out@[k], t),
        decreases n - i,
    {
        proof {
            crate::matching::lemma_filter_step(all, p, i as int);
        }
        let e = rest.remove(0);
        proof {
            assert(e == all[i as int]);
            assert(rest@ =~= all.subrange(i + 1, n as int));
        }
        let ghost before = out@;
        match entry_for_target(e, target) {
            Some(x) => {
                out.push(x);
                proof {
                    assert forall|k: int| 0 <= k < out@.len() implies entry_for(all.take(i + 1).filter(p)[k], #[trigger] out@[k], t) by {
                        if k < before.len() {
                            assert(out@[k] == before[k]);
                        }
                    }
                }
            },
            None => {},
        }
        i = i + 1;
    }
    proof {
        assert(all.take(n as int) =~= all);
    }
    out
}

/// Narrows repositories to the builds for a target `(os, architecture,
/// extension)`: each registered repository keeps the installed and errored
/// builds and the listed builds with variants for the target (only those
/// variants), and is dropped where none is left; other entries are kept.
pub fn filter_repos_by_target(v: Vec<RepoEntry>, target: (&str, &str, &str)) -> (r: Vec<RepoEntry>)
    ensures
        ({
            let t = (target.0@, target.1@, target.2@);
            let kept = v@.filter(|e: RepoEntry| repo_kept(e, t));
            &&& r@.len() == kept.len()
            &&& forall|i: int| 0 <= i < r@.len() ==> repo_for(kept[i], #[trigger] r@[i], t)
        }),
{
    let ghost t = (target.0@, target.1@, target.2@);
    let ghost all = v@;
    let ghost p = |e: RepoEntry| repo_kept(e, t);
    let mut rest = v;
    let mut out: Vec<RepoEntry> = Vec::new();
    let n = rest.len();
    let mut i: usize = 0;
    proof {
        assert(rest@ =~= all.subrange(0, n as int));
    }
    while i < n
        invariant
            n == all.len(),
            i <= n,
            t == (target.0@, target.1@, target.2@),
            p == (|e: RepoEntry| repo_kept(e, t)),
            rest@ == all.subrange(i as int, n as int),
            out@.len() == all.take(i as int).filter(p).len(),
            forall|k: int| 0 <= k < out@.len() ==> repo_for(all.take(i as int).filter(p)[k], #[trigger] out@[k], t),
        decreases n - i,
    {
        proof {
            crate::matching::lemma_filter_step(all, p, i as int);
        }
        let e = rest.remove(0);
        proof {
            assert(e == all[i as int]);
            assert(rest@ =~= all.subrange(i + 1, n as int));
        }
        let ghost before = out@;
        let kept: Option<RepoEntry> = match e {
            RepoEntry::Registered(b, entries) => {
                let ghost old_entries = entries@;
                let narrowed = entries_for_target(entries, target);
                proof {
                    let kf = old_entries.filter(|x: BuildEntry| entry_kept(x, t));
                    assert(narrowed@.len() == kf.len());
                }
                if narrowed.len() == 0 {
                    None
                } else {
                    Some(RepoEntry::Registered(b, narrowed))
                }
            },
            other => Some(other),
        };
        match kept {
            Some(x) => {
                out.push(x);
                proof {
                    assert forall|k: int| 0 <= k < out@.len() implies repo_for(all.take(i + 1).filter(p)[k], #[trigger] out@[k], t) by {
                        if k < before.len() {
                            assert(out@[k] == before[k]);
                        }
                    }
                }
            },
            None => {},
        }
        i = i + 1;
    }
    proof {
        assert(all.take(n as int) =~= all);
    }
    out
}

/// Where blrs keeps its data.
#[derive(Clone, Debug, PartialEq, Eq)]
pub struct BLRSPaths {
    /// The folder of the downloaded builds, one folder per repository.
    pub library: String,
    /// The folder of the repositories' cached listings.
    pub remote_repos: String,
}

impl BLRSPaths {
    /// The folder of a repository's builds: its identifier inside the
    /// library.
    pub fn path_to_repo(&self, br: &BuildRepo) -> (r: String)
        ensures
            r@ == path_join_of(self.library@, br.repo_id@),
    {
        join_path(self.library.as_str(), br.repo_id.as_str())
    }
}

} // verus!

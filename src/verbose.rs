//! A version that carries its build's branch and hash inside the build
//! metadata, as `<branch>.<hash>`.
use vstd::prelude::*;

use crate::text::{
    chars_of, decimal, decimal_chars, push_all, push_str, same_text, slice_chars, string_of,
};
use crate::version::{
    build_metadata_valid, checked_build_metadata, dotted_identifiers, ident_char, Version,
};

verus! {

/// A text that may stand as a branch or a build hash: a single non-empty
/// build-metadata identifier, that is ASCII letters, digits and `-` only
/// (no dot, white space or `+`).
pub open spec fn valid_part(s: Seq<char>) -> bool {
    s.len() > 0 && forall|i: int| 0 <= i < s.len() ==> ident_char(#[trigger] s[i])
}

/// The branch used where none is known.
pub open spec fn default_branch() -> Seq<char> {
    seq!['n', 'u', 'l', 'l']
}

/// The build hash used where none is known.
pub open spec fn default_hash() -> Seq<char> {
    seq!['f', 'f', 'f', 'f', 'f', 'f', 'f', 'f']
}

/// The build metadata `<branch>.<hash>`.
pub open spec fn joined(branch: Seq<char>, hash: Seq<char>) -> Seq<char> {
    branch + seq!['.'] + hash
}

/// The text of an optional argument, or a default.
pub open spec fn text_or(o: Option<&str>, d: Seq<char>) -> Seq<char> {
    match o {
        Some(s) => s@,
        None => d,
    }
}

/// `s` where it may stand as a branch or hash, else `d`.
pub open spec fn part_or(s: Seq<char>, d: Seq<char>) -> Seq<char> {
    if valid_part(s) {
        s
    } else {
        d
    }
}

/// The branch `VerboseVersion::new` records: the branch, else the build name,
/// else the default; an argument that cannot stand as a branch counts as the
/// default.
pub open spec fn new_branch(branch: Option<&str>, build: Option<&str>) -> Seq<char> {
    match branch {
        Some(b) => part_or(b@, default_branch()),
        None => part_or(text_or(build, default_branch()), default_branch()),
    }
}

/// The hash `VerboseVersion::new` records.
pub open spec fn new_hash(hash: Option<&str>) -> Seq<char> {
    part_or(text_or(hash, default_hash()), default_hash())
}

/// A semantic version whose build metadata holds a branch and a build hash,
/// as `<branch>.<hash>`; `hash_split` is where the dot between them stands.
#[derive(Debug, PartialEq, Eq)]
pub struct VerboseVersion {
    v: Version,
    hash_split: usize,
}

impl VerboseVersion {
    /// The build metadata is `<branch>.<hash>`: the branch is a single
    /// identifier, the hash one or more, and `hash_split` is the length of the
    /// branch.
    #[verifier::type_invariant]
    pub closed spec fn wf(&self) -> bool {
        let b = self.v.build@;
        &&& 0 < self.hash_split < b.len()
        &&& b[self.hash_split as int] == '.'
        &&& valid_part(b.subrange(0, self.hash_split as int))
        &&& dotted_identifiers(b.subrange(self.hash_split + 1, b.len() as int))
    }

    /// The branch.
    pub closed spec fn branch_spec(&self) -> Seq<char> {
        self.v.build@.subrange(0, self.hash_split as int)
    }

    /// The build hash.
    pub closed spec fn hash_spec(&self) -> Seq<char> {
        self.v.build@.subrange(self.hash_split + 1, self.v.build@.len() as int)
    }

    /// The build metadata, as callers see it: the branch (a single
    /// identifier, so without a dot), a dot, then the hash (one or more
    /// identifiers).
    pub open spec fn layout(&self) -> bool {
        &&& self.version_spec().build@ == joined(self.branch_spec(), self.hash_spec())
        &&& valid_part(self.branch_spec())
        &&& dotted_identifiers(self.hash_spec())
    }

    /// The underlying version.
    pub closed spec fn version_spec(&self) -> Version {
        self.v
    }

    /// Creates a version `major.minor.patch` with no pre-release, whose branch
    /// is `branch`, else `build`, else `null`, and whose hash is `hash`, else
    /// `ffffffff`. A branch or hash that is not a single build-metadata
    /// identifier is replaced by its default.
    pub fn new(
        major: u64,
        minor: u64,
        patch: u64,
        branch: Option<&str>,
        build: Option<&str>,
        hash: Option<&str>,
    ) -> (r: VerboseVersion)
        ensures
            r.wf(),
            r.layout(),
            r.version_spec().major == major,
            r.version_spec().minor == minor,
            r.version_spec().patch == patch,
            r.version_spec().pre@ == Seq::<char>::empty(),
            r.branch_spec() == new_branch(branch, build),
            r.hash_spec() == new_hash(hash),
    {
        let null = String::from_str("null");
        let fff = String::from_str("ffffffff");
        proof {
            reveal_strlit("null");
            reveal_strlit("ffffffff");
        }
        let first = match branch {
            Some(b) => b,
            None => match build {
                Some(b) => b,
                None => null.as_str(),
            },
        };
        let first = if is_valid_part(first) {
            first
        } else {
            null.as_str()
        };
        let h = match hash {
            Some(h) => h,
            None => fff.as_str(),
        };
        let h = if is_valid_part(h) {
            h
        } else {
            fff.as_str()
        };
        proof {
            assert(valid_part(default_branch()));
            assert(valid_part(default_hash()));
            lemma_part_dotted(h@);
        }
        Self::from_parts(Version::new(major, minor, patch), first, h)
    }

    /// `v` with its build metadata set to `<branch>.<hash>`.
    fn from_parts(v: Version, branch: &str, hash: &str) -> (r: VerboseVersion)
        requires
            valid_part(branch@),
            dotted_identifiers(hash@),
        ensures
            r.wf(),
            r.layout(),
            r.version_spec().major == v.major,
            r.version_spec().minor == v.minor,
            r.version_spec().patch == v.patch,
            r.version_spec().pre@ == v.pre@,
            r.branch_spec() == branch@,
            r.hash_spec() == hash@,
    {
        let mut m = chars_of(branch);
        let split = m.len();
        m.push('.');
        let hc = chars_of(hash);
        let mut i: usize = 0;
        while i < hc.len()
            invariant
                i <= hc@.len(),
                m@ == branch@ + seq!['.'] + hc@.subrange(0, i as int),
            decreases hc@.len() - i,
        {
            m.push(hc[i]);
            i = i + 1;
            assert(m@ =~= branch@ + seq!['.'] + hc@.subrange(0, i as int));
        }
        assert(hc@.subrange(0, i as int) =~= hash@);
        let build = string_of(&m);
        proof {
            let b = build@;
            assert(b.subrange(0, split as int) =~= branch@);
            assert(b.subrange(split + 1, b.len() as int) =~= hash@);
        }
        VerboseVersion {
            v: Version { major: v.major, minor: v.minor, patch: v.patch, pre: v.pre, build },
            hash_split: split,
        }
    }

    /// The underlying version.
    pub fn v(&self) -> (r: &Version)
        ensures
            r == self.version_spec(),
    {
        &self.v
    }

    /// The branch.
    pub fn branch(&self) -> (r: &str)
        ensures
            r@ == self.branch_spec(),
    {
        proof {
            use_type_invariant(&self);
        }
        self.v.build.as_str().substring_char(0, self.hash_split)
    }

    /// The build hash.
    pub fn build_hash(&self) -> (r: &str)
        ensures
            r@ == self.hash_spec(),
    {
        proof {
            use_type_invariant(&self);
        }
        let n = self.v.build.as_str().unicode_len();
        self.v.build.as_str().substring_char(self.hash_split + 1, n)
    }

    /// A copy with the branch replaced (by `null` where `branch` is `None`).
    /// Fails where the branch is not a single build-metadata identifier.
    pub fn with_branch(self, branch: Option<&str>) -> (r: Result<VerboseVersion, MetadataError>)
        ensures
            r is Ok <==> valid_part(text_or(branch, default_branch())),
            r matches Ok(n) ==> {
                &&& n.wf()
                &&& n.layout()
                &&& n.branch_spec() == text_or(branch, default_branch())
                &&& n.hash_spec() == self.hash_spec()
                &&& same_version(n.version_spec(), self.version_spec())
            },
    {
        proof {
            use_type_invariant(&self);
        }
        let null = String::from_str("null");
        proof {
            reveal_strlit("null");
        }
        let b = match branch {
            Some(b) => b,
            None => null.as_str(),
        };
        let h = self.build_hash();
        let candidate = join_texts(b, h);
        let checked = checked_build_metadata(candidate.as_str());
        proof {
            lemma_join_valid(b@, h@);
        }
        if has_dot(b) || checked.is_none() {
            return Err(MetadataError::InvalidMetadata);
        }
        let h = self.build_hash().to_owned();
        Ok(Self::from_parts(self.v, b, h.as_str()))
    }

    /// A copy with the build hash replaced (by `ffffffff` where `hash` is
    /// `None`). Fails where the hash is not a single build-metadata
    /// identifier.
    pub fn with_build_hash(self, hash: Option<&str>) -> (r: Result<VerboseVersion, MetadataError>)
        ensures
            r is Ok <==> valid_part(text_or(hash, default_hash())),
            r matches Ok(n) ==> {
                &&& n.wf()
                &&& n.layout()
                &&& n.hash_spec() == text_or(hash, default_hash())
                &&& n.branch_spec() == self.branch_spec()
                &&& same_version(n.version_spec(), self.version_spec())
            },
    {
        proof {
            use_type_invariant(&self);
        }
        let fff = String::from_str("ffffffff");
        proof {
            reveal_strlit("ffffffff");
        }
        let h = match hash {
            Some(h) => h,
            None => fff.as_str(),
        };
        let b = self.branch();
        let candidate = join_texts(b, h);
        let checked = checked_build_metadata(candidate.as_str());
        proof {
            lemma_hash_join_valid(b@, h@);
        }
        if has_dot(h) || checked.is_none() {
            return Err(MetadataError::InvalidMetadata);
        }
        let b = self.branch().to_owned();
        proof {
            lemma_part_dotted(h@);
        }
        Ok(Self::from_parts(self.v, b.as_str(), h))
    }
}

/// A single identifier is a (one-element) dotted sequence of identifiers.
pub proof fn lemma_part_dotted(s: Seq<char>)
    requires
        valid_part(s),
    ensures
        dotted_identifiers(s),
{
    assert(ident_char(s[0]));
    assert(ident_char(s[s.len() - 1]));
}

/// Two versions agree on their numbers and pre-release.
pub open spec fn same_version(a: Version, b: Version) -> bool {
    a.major == b.major && a.minor == b.minor && a.patch == b.patch && a.pre@ == b.pre@
}

/// Why build metadata could not be set.
#[derive(Clone, Copy, Debug, PartialEq, Eq)]
pub enum MetadataError {
    /// The branch or hash is not a single build-metadata identifier.
    InvalidMetadata,
}

/// Whether `s` holds a dot.
fn has_dot(s: &str) -> (r: bool)
    ensures
        r == exists|i: int| 0 <= i < s@.len() && s@[i] == '.',
{
    let v = chars_of(s);
    let mut i: usize = 0;
    while i < v.len()
        invariant
            v@ == s@,
            i <= v@.len(),
            forall|j: int| 0 <= j < i ==> v@[j] != '.',
        decreases v@.len() - i,
    {
        if v[i] == '.' {
            return true;
        }
        i = i + 1;
    }
    false
}

/// Whether `s` may stand as a branch or build hash.
fn is_valid_part(s: &str) -> (r: bool)
    ensures
        r == valid_part(s@),
{
    let v = chars_of(s);
    if v.len() == 0 {
        return false;
    }
    let mut i: usize = 0;
    while i < v.len()
        invariant
            v@ == s@,
            i <= v@.len(),
            forall|j: int| 0 <= j < i ==> ident_char(#[trigger] v@[j]),
        decreases v@.len() - i,
    {
        let c = v[i];
        if !(('0' <= c && c <= '9') || ('a' <= c && c <= 'z') || ('A' <= c && c <= 'Z') || c
            == '-') {
            assert(!ident_char(s@[i as int]));
            return false;
        }
        i = i + 1;
    }
    true
}

/// `<a>.<b>`
pub(crate) fn join_texts(a: &str, b: &str) -> (r: String)
    ensures
        r@ == joined(a@, b@),
{
    let mut m = chars_of(a);
    m.push('.');
    let bc = chars_of(b);
    let mut i: usize = 0;
    while i < bc.len()
        invariant
            i <= bc@.len(),
            m@ == a@ + seq!['.'] + bc@.subrange(0, i as int),
        decreases bc@.len() - i,
    {
        m.push(bc[i]);
        i = i + 1;
        assert(m@ =~= a@ + seq!['.'] + bc@.subrange(0, i as int));
    }
    assert(bc@.subrange(0, i as int) =~= b@);
    string_of(&m)
}

/// Where `h` is made of dotted identifiers, `<b>.<h>` is valid build metadata
/// exactly when `b`, holding no dot, is a single identifier.
pub proof fn lemma_join_valid(b: Seq<char>, h: Seq<char>)
    requires
        dotted_identifiers(h),
    ensures
        (forall|i: int| 0 <= i < b.len() ==> b[i] != '.') ==> (build_metadata_valid(
            joined(b, h),
        ) <==> valid_part(b)),
{
    let s = joined(b, h);
    if forall|i: int| 0 <= i < b.len() ==> b[i] != '.' {
        if valid_part(b) {
            assert forall|i: int| 0 <= i < s.len() implies ident_char(#[trigger] s[i]) || s[i]
                == '.' by {
                if i < b.len() {
                    assert(s[i] == b[i]);
                } else if i > b.len() {
                    assert(s[i] == h[i - b.len() - 1]);
                }
            }
            assert forall|i: int| 0 <= i < s.len() - 1 && #[trigger] s[i] == '.' implies s[i + 1]
                != '.' by {
                if i < b.len() {
                    assert(s[i] == b[i]);
                } else if i == b.len() {
                    assert(s[i + 1] == h[0]);
                } else {
                    assert(s[i] == h[i - b.len() - 1]);
                    assert(s[i + 1] == h[i - b.len()]);
                }
            }
            assert(s[0] == b[0]);
            assert(s.last() == h.last());
        }
        if build_metadata_valid(s) {
            assert(s.len() > 0);
            if b.len() == 0 {
                assert(s[0] == '.');
            }
            assert forall|i: int| 0 <= i < b.len() implies ident_char(#[trigger] b[i]) by {
                assert(s[i] == b[i]);
            }
        }
    }
}

/// Where `b` is a single identifier, `<b>.<h>` is valid build metadata
/// exactly when `h`, holding no dot, is a single identifier.
pub proof fn lemma_hash_join_valid(b: Seq<char>, h: Seq<char>)
    requires
        valid_part(b),
    ensures
        (forall|i: int| 0 <= i < h.len() ==> h[i] != '.') ==> (build_metadata_valid(
            joined(b, h),
        ) <==> valid_part(h)),
{
    let s = joined(b, h);
    if forall|i: int| 0 <= i < h.len() ==> h[i] != '.' {
        if valid_part(h) {
            assert forall|i: int| 0 <= i < s.len() implies ident_char(#[trigger] s[i]) || s[i]
                == '.' by {
                if i < b.len() {
                    assert(s[i] == b[i]);
                } else if i > b.len() {
                    assert(s[i] == h[i - b.len() - 1]);
                }
            }
            assert forall|i: int| 0 <= i < s.len() - 1 && #[trigger] s[i] == '.' implies s[i + 1]
                != '.' by {
                if i < b.len() {
                    assert(s[i] == b[i]);
                } else if i == b.len() {
                    assert(s[i + 1] == h[0]);
                } else {
                    assert(s[i] == h[i - b.len() - 1]);
                }
            }
            assert(s[0] == b[0]);
            assert(s.last() == h.last());
        }
        if build_metadata_valid(s) {
            if h.len() == 0 {
                assert(s.last() == '.');
            }
            assert forall|i: int| 0 <= i < h.len() implies ident_char(#[trigger] h[i]) by {
                assert(s[b.len() + 1 + i] == h[i]);
            }
        }
    }
}

/// The last version numbered the legacy way (`2.79`, `2.80`, ...) comes
/// before this one, 2.83.0, the first of the three-part numbering.
pub open spec fn before_cutoff(v: Version) -> bool {
    v.major < 2 || (v.major == 2 && v.minor < 83) || (v.major == 2 && v.minor == 83 && v.patch
        == 0 && v.pre@.len() > 0)
}

/// What `display_version` shows.
pub open spec fn display_version_spec(v: Version) -> Seq<char> {
    if before_cutoff(v) {
        decimal(v.major as nat) + seq!['.'] + decimal(v.minor as nat) + v.pre@
    } else {
        decimal(v.major as nat) + seq!['.'] + decimal(v.minor as nat) + seq!['.'] + decimal(
            v.patch as nat,
        )
    }
}

/// What `display_label` shows for a branch and a pre-release.
pub open spec fn display_label_spec(branch: Seq<char>, pre: Seq<char>) -> Seq<char> {
    if branch == seq!['l', 't', 's'] {
        seq!['L', 'T', 'S']
    } else if branch == seq!['p', 'a', 't', 'c', 'h'] || branch == seq![
        'e',
        'x',
        'p',
        'e',
        'r',
        'i',
        'm',
        'e',
        'n',
        't',
        'a',
        'l',
    ] || branch == seq!['d', 'a', 'i', 'l', 'y'] {
        if pre.len() > 0 {
            pre
        } else {
            branch
        }
    } else {
        branch
    }
}

/// The split `from_version` makes of build metadata: where it is valid and
/// holds a dot, the branch before the first dot and the hash after it.
pub open spec fn metadata_split(b: Seq<char>, branch: Seq<char>, hash: Seq<char>) -> bool {
    &&& b == joined(branch, hash)
    &&& forall|i: int| 0 <= i < branch.len() ==> branch[i] != '.'
}

/// The build metadata holds a dot and is valid.
pub open spec fn has_split(b: Seq<char>) -> bool {
    build_metadata_valid(b) && exists|i: int| 0 <= i < b.len() && b[i] == '.'
}

impl VerboseVersion {
    /// Takes a version, reading its build metadata as `<branch>.<hash>`, split
    /// at the first dot. Metadata with no dot (or not valid) counts as absent:
    /// the branch is then `null` and the hash `ffffffff`.
    pub fn from_version(value: Version) -> (r: VerboseVersion)
        ensures
            r.wf(),
            r.layout(),
            same_version(r.version_spec(), value),
            has_split(value.build@) ==> metadata_split(
                value.build@,
                r.branch_spec(),
                r.hash_spec(),
            ),
            !has_split(value.build@) ==> r.branch_spec() == default_branch() && r.hash_spec()
                == default_hash(),
    {
        let b = chars_of(value.build.as_str());
        let checked = checked_build_metadata(value.build.as_str());
        let mut i: usize = 0;
        while i < b.len() && b[i] != '.'
            invariant
                b@ == value.build@,
                i <= b@.len(),
                forall|j: int| 0 <= j < i ==> b@[j] != '.',
            decreases b@.len() - i,
        {
            i = i + 1;
        }
        if i < b.len() && checked.is_some() {
            let branch = string_of(&slice_chars(&b, 0, i));
            let hash = string_of(&slice_chars(&b, i + 1, b.len()));
            proof {
                lemma_split_dotted(b@, i as int);
                assert(joined(branch@, hash@) =~= b@);
            }
            Self::from_parts(value, branch.as_str(), hash.as_str())
        } else {
            proof {
                reveal_strlit("null");
                reveal_strlit("ffffffff");
                assert(valid_part(default_branch()));
                lemma_part_dotted(default_hash());
            }
            Self::from_parts(value, "null", "ffffffff")
        }
    }

    /// The version as shown to people: `major.minor<pre>` for versions before
    /// 2.83.0, which were numbered that way, and `major.minor.patch` from
    /// then on.
    pub fn display_version(&self) -> (r: String)
        ensures
            r@ == display_version_spec(self.version_spec()),
    {
        let v = &self.v;
        let mut out = decimal_chars(v.major);
        out.push('.');
        push_all(&mut out, &decimal_chars(v.minor));
        let before = v.major < 2 || (v.major == 2 && v.minor < 83) || (v.major == 2 && v.minor
            == 83 && v.patch == 0 && v.pre.as_str().unicode_len() > 0);
        if before {
            push_str(&mut out, v.pre.as_str());
        } else {
            out.push('.');
            push_all(&mut out, &decimal_chars(v.patch));
        }
        proof {
            assert(out@ =~= display_version_spec(self.version_spec()));
        }
        string_of(&out)
    }

    /// The label shown beside the version: `LTS` for the `lts` branch; for
    /// the `patch`, `experimental` and `daily` branches the pre-release where
    /// there is one, else the branch; for any other branch, the branch.
    pub fn display_label(&self) -> (r: String)
        ensures
            r@ == display_label_spec(self.branch_spec(), self.version_spec().pre@),
    {
        proof {
            use_type_invariant(&self);
        }
        let b = self.branch();
        proof {
            reveal_strlit("lts");
            reveal_strlit("LTS");
            reveal_strlit("patch");
            reveal_strlit("experimental");
            reveal_strlit("daily");
            assert("lts"@ =~= seq!['l', 't', 's']);
            assert("LTS"@ =~= seq!['L', 'T', 'S']);
            assert("patch"@ =~= seq!['p', 'a', 't', 'c', 'h']);
            assert("experimental"@ =~= seq![
                'e',
                'x',
                'p',
                'e',
                'r',
                'i',
                'm',
                'e',
                'n',
                't',
                'a',
                'l',
            ]);
            assert("daily"@ =~= seq!['d', 'a', 'i', 'l', 'y']);
        }
        if same_text(b, "lts") {
            return String::from_str("LTS");
        }
        if same_text(b, "patch") || same_text(b, "experimental") || same_text(b, "daily") {
            if self.v.pre.as_str().unicode_len() > 0 {
                return self.v.pre.as_str().to_owned();
            }
        }
        b.to_owned()
    }
}

impl Clone for VerboseVersion {
    fn clone(&self) -> (r: VerboseVersion)
        ensures
            r == *self,
    {
        proof {
            use_type_invariant(self);
        }
        VerboseVersion {
            v: Version {
                major: self.v.major,
                minor: self.v.minor,
                patch: self.v.patch,
                pre: self.v.pre.clone(),
                build: self.v.build.clone(),
            },
            hash_split: self.hash_split,
        }
    }
}

impl Default for VerboseVersion {
    /// Version 0.0.0 on branch `null` with hash `ffffffff`.
    fn default() -> (r: VerboseVersion)
        ensures
            r.wf(),
            r.layout(),
            r.version_spec().major == 0 && r.version_spec().minor == 0
                && r.version_spec().patch == 0,
            r.version_spec().pre@ == Seq::<char>::empty(),
            r.branch_spec() == default_branch(),
            r.hash_spec() == default_hash(),
    {
        let r = VerboseVersion::new(0, 0, 0, None, None, None);
        proof {
            assert(valid_part(default_branch()));
            assert(valid_part(default_hash()));
        }
        r
    }
}

/// Splitting valid build metadata at its first dot gives a single
/// identifier and a dotted sequence of identifiers.
pub proof fn lemma_split_dotted(b: Seq<char>, i: int)
    requires
        dotted_identifiers(b),
        0 <= i < b.len(),
        b[i] == '.',
        forall|j: int| 0 <= j < i ==> b[j] != '.',
    ensures
        valid_part(b.subrange(0, i)),
        dotted_identifiers(b.subrange(i + 1, b.len() as int)),
{
    let p = b.subrange(0, i);
    let h = b.subrange(i + 1, b.len() as int);
    assert(i > 0);
    assert forall|j: int| 0 <= j < p.len() implies ident_char(#[trigger] p[j]) by {
        assert(p[j] == b[j]);
    }
    assert(i < b.len() - 1);
    assert(h.len() > 0);
    assert(h[0] == b[i + 1]);
    assert forall|j: int| 0 <= j < h.len() implies ident_char(#[trigger] h[j]) || h[j] == '.' by {
        assert(h[j] == b[i + 1 + j]);
    }
    assert forall|j: int| 0 <= j < h.len() - 1 && #[trigger] h[j] == '.' implies h[j + 1]
        != '.' by {
        assert(h[j] == b[i + 1 + j]);
        assert(h[j + 1] == b[i + 2 + j]);
    }
    assert(h.last() == b.last());
}

/// One setter call from `x` to `y` that re-applies the branch `b` or the
/// hash `h`: `with_branch(Some(b))` or `with_build_hash(Some(h))`, as their
/// contracts describe a successful call.
pub open spec fn setter_step(x: VerboseVersion, y: VerboseVersion, b: Seq<char>, h: Seq<char>) -> bool {
    (y.branch_spec() == b && y.hash_spec() == x.hash_spec()) || (y.hash_spec() == h
        && y.branch_spec() == x.branch_spec())
}

/// A version keeps its branch and hash through any sequence of setter calls
/// that re-apply them (each of which succeeds where the part is a single
/// identifier, such as `daily` or `abc123`).
pub proof fn lemma_setters_keep_parts(chain: Seq<VerboseVersion>)
    requires
        chain.len() > 0,
        forall|i: int|
            0 <= i < chain.len() - 1 ==> setter_step(
                #[trigger] chain[i],
                chain[i + 1],
                chain[0].branch_spec(),
                chain[0].hash_spec(),
            ),
    ensures
        forall|i: int|
            0 <= i < chain.len() ==> (#[trigger] chain[i]).branch_spec() == chain[0].branch_spec()
                && chain[i].hash_spec() == chain[0].hash_spec(),
    decreases chain.len(),
{
    if chain.len() > 1 {
        let d = chain.drop_last();
        assert forall|i: int| 0 <= i < d.len() - 1 implies setter_step(
            #[trigger] d[i],
            d[i + 1],
            d[0].branch_spec(),
            d[0].hash_spec(),
        ) by {
            assert(setter_step(chain[i], chain[i + 1], chain[0].branch_spec(), chain[0].hash_spec()));
        }
        lemma_setters_keep_parts(d);
        let n = chain.len() - 1;
        assert(d[n - 1] == chain[n - 1]);
        assert(setter_step(chain[n - 1], chain[n], chain[0].branch_spec(), chain[0].hash_spec()));
        assert forall|i: int| 0 <= i < chain.len() implies (#[trigger] chain[i]).branch_spec()
            == chain[0].branch_spec() && chain[i].hash_spec() == chain[0].hash_spec() by {
            if i < n {
                assert(d[i] == chain[i]);
            }
        }
    }
}

} // verus!

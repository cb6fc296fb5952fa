//! Build records: a verbose version and the time of the build's commit.
use vstd::prelude::*;

use core::cmp::Ordering;

use std::collections::HashMap;

use crate::verbose::VerboseVersion;
use crate::version::{precedence, Version};

verus! {

/// A point in time, as seconds since the Unix epoch (UTC) and the nanoseconds
/// within that second. Later times have a larger `(secs, nanos)` pair.
#[derive(Clone, Copy, Debug, PartialEq, Eq, Structural, Hash)]
pub struct CommitTime {
    pub secs: i64,
    pub nanos: u32,
}

/// Values with a total order given by an integer key: equal keys mean equal
/// values, and a larger key a later value.
pub trait OrderKey {
    spec fn key(&self) -> int;

    fn order_key(&self) -> (r: i128)
        ensures
            r as int == self.key(),
    ;
}

impl OrderKey for u64 {
    open spec fn key(&self) -> int {
        *self as int
    }

    fn order_key(&self) -> (r: i128) {
        *self as i128
    }
}

impl OrderKey for CommitTime {
    /// The seconds, then the nanoseconds: `secs * 2^32 + nanos`.
    open spec fn key(&self) -> int {
        self.secs as int * 4294967296 + self.nanos as int
    }

    fn order_key(&self) -> (r: i128) {
        (self.secs as i128) * 4294967296 + (self.nanos as i128)
    }
}

/// The most important information of a Blender build: its version (with
/// branch and hash) and when its commit was made.
#[derive(Clone, Debug, PartialEq, Eq)]
pub struct BasicBuildInfo {
    pub ver: VerboseVersion,
    pub commit_dt: CommitTime,
}

/// How two build records are ordered: by commit time, then by their
/// versions' precedence.
pub open spec fn build_order(a: BasicBuildInfo, b: BasicBuildInfo) -> Option<Ordering> {
    if a.commit_dt.key() < b.commit_dt.key() {
        Some(Ordering::Less)
    } else if a.commit_dt.key() > b.commit_dt.key() {
        Some(Ordering::Greater)
    } else {
        precedence(a.ver.version_spec(), b.ver.version_spec())
    }
}

impl BasicBuildInfo {
    /// How this record ranks against `other`: the earlier commit first, and
    /// for equal commit times the lower version first; see `build_order`.
    pub fn cmp_order(&self, other: &BasicBuildInfo) -> (r: Option<Ordering>)
        ensures
            r == build_order(*self, *other),
    {
        let a = self.commit_dt.order_key();
        let b = other.commit_dt.order_key();
        if a < b {
            Some(Ordering::Less)
        } else if a > b {
            Some(Ordering::Greater)
        } else {
            self.version().cmp_precedence(other.version())
        }
    }

    /// The build's version.
    pub fn version(&self) -> (r: &Version)
        ensures
            r == self.ver.version_spec(),
    {
        self.ver.v()
    }
}

/// A build on this machine, with the owner's settings for it.
#[derive(Clone, Debug, PartialEq, Eq)]
pub struct LocalBuildInfo {
    /// The build's version and commit time.
    pub basic: BasicBuildInfo,
    /// Whether the build is a favourite.
    pub is_favorited: bool,
    /// A name of the owner's choosing.
    pub custom_name: Option<String>,
    /// An executable to run instead of the usual one, relative to the folder.
    pub custom_exe: Option<String>,
    /// Environment variables to set when running the build.
    pub custom_env: Option<HashMap<String, String>>,
}

/// A local build and the folder it lives in.
#[derive(Clone, Debug, PartialEq, Eq)]
pub struct LocalBuild {
    /// The build's folder.
    pub folder: String,
    /// What is known of the build.
    pub info: LocalBuildInfo,
}

} // verus!

use blrs::verbose::{MetadataError, VerboseVersion};
use blrs::version::Version;

#[test]
fn test_blend_build_methods() {
    let ver = VerboseVersion::default();

    println!("{:?}", ver);
    assert_eq!(ver.branch(), "null");
    assert_eq!(ver.build_hash(), "ffffffff");
}

#[test]
fn setters_keep_branch_and_hash() {
    let ver = VerboseVersion::new(4, 3, 0, Some("daily"), None, Some("abc123"));
    assert_eq!(ver.branch(), "daily");
    assert_eq!(ver.build_hash(), "abc123");
    let ver = ver.with_branch(Some("daily")).unwrap();
    let ver = ver.with_build_hash(Some("abc123")).unwrap();
    let ver = ver.with_build_hash(Some("abc123")).unwrap();
    let ver = ver.with_branch(Some("daily")).unwrap();
    assert_eq!(ver.branch(), "daily");
    assert_eq!(ver.build_hash(), "abc123");
    assert_eq!(ver.v().major, 4);
}

#[test]
fn setters_change_one_part() {
    let ver = VerboseVersion::new(1, 2, 3, Some("daily"), None, Some("abc123"));
    let ver = ver.with_branch(Some("lts")).unwrap();
    assert_eq!(ver.branch(), "lts");
    assert_eq!(ver.build_hash(), "abc123");
    let ver = ver.with_build_hash(None).unwrap();
    assert_eq!(ver.branch(), "lts");
    assert_eq!(ver.build_hash(), "ffffffff");
    let ver = ver.with_branch(None).unwrap();
    assert_eq!(ver.branch(), "null");
}

#[test]
fn setters_reject_bad_metadata() {
    let ver = VerboseVersion::new(1, 2, 3, Some("daily"), None, Some("abc123"));
    assert_eq!(ver.clone().with_branch(Some("a.b")), Err(MetadataError::InvalidMetadata));
    assert_eq!(ver.clone().with_branch(Some("a b")), Err(MetadataError::InvalidMetadata));
    assert_eq!(ver.clone().with_branch(Some("")), Err(MetadataError::InvalidMetadata));
    assert_eq!(ver.clone().with_build_hash(Some("x+y")), Err(MetadataError::InvalidMetadata));
}

#[test]
fn new_falls_back_to_defaults() {
    let ver = VerboseVersion::new(1, 2, 3, None, Some("stable"), None);
    assert_eq!(ver.branch(), "stable");
    assert_eq!(ver.build_hash(), "ffffffff");
    let ver = VerboseVersion::new(1, 2, 3, Some("bad branch"), None, Some("h.h"));
    assert_eq!(ver.branch(), "null");
    assert_eq!(ver.build_hash(), "ffffffff");
}

fn version(pre: &str, build: &str) -> Version {
    Version {
        major: 4,
        minor: 3,
        patch: 0,
        pre: pre.to_string(),
        build: build.to_string(),
    }
}

#[test]
fn from_version_splits_at_first_dot() {
    let ver = VerboseVersion::from_version(version("alpha", "daily.ddc9f92777cd"));
    assert_eq!(ver.branch(), "daily");
    assert_eq!(ver.build_hash(), "ddc9f92777cd");
    assert_eq!(ver.v().pre, "alpha");
    let ver = VerboseVersion::from_version(version("", "main.PR1.abc"));
    assert_eq!(ver.branch(), "main");
    assert_eq!(ver.build_hash(), "PR1.abc");
    let ver = VerboseVersion::from_version(version("", "stable"));
    assert_eq!(ver.branch(), "null");
    assert_eq!(ver.build_hash(), "ffffffff");
    let ver = VerboseVersion::from_version(version("", "a..b"));
    assert_eq!(ver.branch(), "null");
}

#[test]
fn display_version_before_and_after_cutoff() {
    let old = VerboseVersion::from_version(Version {
        major: 2,
        minor: 79,
        patch: 0,
        pre: "rc1".to_string(),
        build: String::new(),
    });
    assert_eq!(old.display_version(), "2.79rc1");
    let rc = VerboseVersion::from_version(Version {
        major: 2,
        minor: 83,
        patch: 0,
        pre: "rc".to_string(),
        build: String::new(),
    });
    assert_eq!(rc.display_version(), "2.83rc");
    let new = VerboseVersion::new(2, 83, 0, None, None, None);
    assert_eq!(new.display_version(), "2.83.0");
    let new = VerboseVersion::new(4, 2, 17, None, None, None);
    assert_eq!(new.display_version(), "4.2.17");
}

#[test]
fn display_label_by_branch() {
    let lts = VerboseVersion::new(4, 2, 0, Some("lts"), None, None);
    assert_eq!(lts.display_label(), "LTS");
    let daily = VerboseVersion::from_version(version("alpha", "daily.abc"));
    assert_eq!(daily.display_label(), "alpha");
    let daily = VerboseVersion::new(4, 3, 0, Some("daily"), None, None);
    assert_eq!(daily.display_label(), "daily");
    let other = VerboseVersion::from_version(version("alpha", "stable.abc"));
    assert_eq!(other.display_label(), "stable");
}

#[test]
fn build_metadata_holds_branch_and_hash() {
    let ver = VerboseVersion::new(4, 3, 0, Some("daily"), None, Some("abc123"));
    assert_eq!(ver.v().build, "daily.abc123");
    assert_eq!(ver.v().pre, "");
    let ver = ver.with_branch(Some("lts")).unwrap();
    assert_eq!(ver.v().build, "lts.abc123");
    let d = VerboseVersion::default();
    assert_eq!(d.v().build, "null.ffffffff");
    assert_eq!(d.v().pre, "");
}

use blrs::banner::{collect_info, BuildInfoError};
use blrs::records::{CommitTime, LocalBuild};

const OFFICIAL: &str = "Blender 4.2.0\n\tbuild date: 2024-07-16\n\tbuild time: 06:20:46\n\tbuild commit date: 2024-07-15\n\tbuild commit time: 21:50\n\tbuild hash: a51f293548ad\n\tbuild branch: blender-v4.2-release\n\tbuild platform: Linux\n";

#[test]
fn official_banner() {
    let info = collect_info(OFFICIAL);
    let v = info.subversion.unwrap();
    assert_eq!((v.major, v.minor, v.patch), (4, 2, 0));
    assert_eq!(info.custom_name, None);
    assert_eq!(info.build_hash.as_deref(), Some("a51f293548ad"));
    assert_eq!(info.branch.as_deref(), Some("blender-v4.2-release"));
    assert_eq!(info.commit_dt, Some(CommitTime { secs: 1_721_080_200, nanos: 0 }));
}

#[test]
fn custom_build_banner() {
    let info = collect_info("Bforartists 4.2.0\r\n\tbuild hash: abc\n");
    assert_eq!(info.custom_name.as_deref(), Some("Bforartists"));
    let v = info.subversion.unwrap();
    assert_eq!((v.major, v.minor, v.patch), (4, 2, 0));
    assert_eq!(info.commit_dt, None);
    assert_eq!(info.branch, None);
}

#[test]
fn empty_banner() {
    let info = collect_info("");
    assert_eq!(info.subversion, None);
    assert_eq!(info.custom_name, None);
    assert_eq!(info.build_hash, None);
}

#[test]
fn unreadable_commit_time() {
    let info = collect_info("Blender 2.79 (sub 0)\nbuild commit date: someday\nbuild commit time: 21:50\n");
    assert_eq!(info.commit_dt, None);
    let v = info.subversion.unwrap();
    assert_eq!((v.major, v.minor, v.patch), (2, 79, 0));
}

#[test]
fn local_build_from_banner() {
    let text = "Blender 4.3.0 Alpha\n\tbuild commit date: 2024-07-15\n\tbuild commit time: 21:50\n\tbuild hash: a51f293548ad\n\tbuild branch: main\n";
    let lb = LocalBuild::from_collected("builds/4.3".to_string(), collect_info(text)).unwrap();
    assert_eq!(lb.folder, "builds/4.3");
    assert_eq!(lb.info.basic.ver.branch(), "main");
    assert_eq!(lb.info.basic.ver.build_hash(), "a51f293548ad");
    assert_eq!(lb.info.basic.version().minor, 3);
    assert_eq!(lb.info.basic.commit_dt, CommitTime { secs: 1_721_080_200, nanos: 0 });
    assert!(!lb.info.is_favorited);
    // A branch with dots cannot stand beside the hash in the build metadata.
    assert_eq!(
        LocalBuild::from_collected("x".to_string(), collect_info(OFFICIAL)),
        Err(BuildInfoError::InvalidMetadata)
    );
    assert_eq!(
        LocalBuild::from_collected("x".to_string(), collect_info("Blender 4.2.0\n")),
        Err(BuildInfoError::MissingInfo)
    );
}

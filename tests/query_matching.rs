use std::cmp::Ordering;
use blrs::matching::BInfoMatcher;
use blrs::query::{FromError, OrdPlacement, VersionSearchQuery, WildPlacement};
use blrs::records::{BasicBuildInfo, CommitTime};
use blrs::verbose::VerboseVersion;
use blrs::version::Version;

const JAN_2020: i64 = 1_577_836_800;
const JUN_2020: i64 = 1_590_969_600;

fn record(major: u64, minor: u64, patch: u64, branch: &str, secs: i64, repo: &str) -> (BasicBuildInfo, String) {
    (
        BasicBuildInfo {
            ver: VerboseVersion::new(major, minor, patch, Some(branch), None, Some("abc123")),
            commit_dt: CommitTime { secs, nanos: 0 },
        },
        repo.to_string(),
    )
}

fn numbers(found: &[&(BasicBuildInfo, String)]) -> Vec<(u64, u64, u64)> {
    found
        .iter()
        .map(|(b, _)| (b.version().major, b.version().minor, b.version().patch))
        .collect()
}

#[test]
fn test_binfo_matcher() {
    let parse = |s: &str, secs: i64| BasicBuildInfo {
        ver: VerboseVersion::from_version(blrs::version::parse_blender_ver(s, false).unwrap()),
        commit_dt: CommitTime { secs, nanos: 0 },
    };
    let builds: Vec<(BasicBuildInfo, String)> = vec![
        (parse("1.2.3+stable", 1_588_550_400), "r".to_string()),
        (parse("1.2.2+stable", 1_585_785_600), "r".to_string()),
        (parse("1.2.1+daily", 1_583_020_800), "r".to_string()),
        (parse("1.2.4+stable", 1_591_142_400), "r".to_string()),
        (parse("3.6.14+lts", 1_721_088_000), "r".to_string()),
        (parse("4.2.0+stable", 1_721_088_000), "r".to_string()),
        (parse("4.3.0+daily", 1_722_297_600), "r".to_string()),
        (parse("4.3.0+daily", 1_722_124_800), "r".to_string()),
        (parse("4.3.1+daily", 1_721_433_600), "r".to_string()),
    ];
    let bs = builds.clone();
    let _matcher = BInfoMatcher::new(&bs);
}

#[test]
fn latest_commit_keeps_ties() {
    let records = vec![
        record(4, 3, 0, "daily", JUN_2020, "daily"),
        record(4, 3, 1, "daily", JAN_2020, "daily"),
        record(4, 3, 2, "daily", JUN_2020, "daily"),
    ];
    let query = VersionSearchQuery {
        commit_dt: OrdPlacement::Latest,
        ..Default::default()
    };
    let found = BInfoMatcher::new(&records).find_all(&query);
    assert_eq!(found.len(), 2);
    assert_eq!(numbers(&found), vec![(4, 3, 0), (4, 3, 2)]);
}

#[test]
fn oldest_commit_keeps_ties() {
    let records = vec![
        record(1, 0, 0, "daily", JAN_2020, "daily"),
        record(1, 0, 1, "daily", JAN_2020, "daily"),
        record(1, 0, 2, "daily", JUN_2020, "daily"),
    ];
    let query = VersionSearchQuery {
        commit_dt: OrdPlacement::Oldest,
        ..Default::default()
    };
    let found = BInfoMatcher::new(&records).find_all(&query);
    assert_eq!(numbers(&found), vec![(1, 0, 0), (1, 0, 1)]);
}

#[test]
fn fields_narrow_in_order() {
    let records = vec![
        record(4, 2, 0, "daily", JAN_2020, "daily"),
        record(4, 3, 0, "daily", JAN_2020, "daily"),
        record(3, 2, 0, "daily", JAN_2020, "daily"),
    ];
    let query = VersionSearchQuery {
        major: OrdPlacement::Latest,
        minor: OrdPlacement::Exact(2),
        ..Default::default()
    };
    let found = BInfoMatcher::new(&records).find_all(&query);
    assert_eq!(numbers(&found), vec![(4, 2, 0)]);

    let records = vec![
        record(4, 3, 0, "daily", JAN_2020, "daily"),
        record(3, 2, 0, "daily", JAN_2020, "daily"),
    ];
    let found = BInfoMatcher::new(&records).find_all(&query);
    assert!(found.is_empty());
}

#[test]
fn matching_twice_gives_the_same() {
    let records = vec![
        record(4, 3, 0, "daily", JUN_2020, "daily"),
        record(4, 3, 1, "stable", JAN_2020, "daily"),
        record(4, 2, 9, "daily", JUN_2020, "other"),
        record(3, 6, 14, "lts", JUN_2020, "daily"),
    ];
    let query = VersionSearchQuery::try_from("daily/4.^.*-daily@^").unwrap();
    let first = BInfoMatcher::new(&records).find_all(&query);
    let again = BInfoMatcher::new(&records).find_all(&query);
    assert_eq!(first, again);
    let owned: Vec<(BasicBuildInfo, String)> = first.iter().map(|r| (*r).clone()).collect();
    let second = BInfoMatcher::new(&owned).find_all(&query);
    assert_eq!(numbers(&second), numbers(&first));
    assert_eq!(numbers(&first), vec![(4, 3, 0)]);
}

#[test]
fn exact_text_fields_filter() {
    let records = vec![
        record(4, 3, 0, "daily", JUN_2020, "daily"),
        record(4, 3, 0, "stable", JUN_2020, "daily"),
        record(4, 3, 0, "daily", JUN_2020, "other"),
    ];
    let query = VersionSearchQuery {
        repository: WildPlacement::Exact("daily".to_string()),
        branch: WildPlacement::Exact("daily".to_string()),
        build_hash: WildPlacement::Exact("abc123".to_string()),
        ..Default::default()
    };
    let found = BInfoMatcher::new(&records).find_all(&query);
    assert_eq!(found.len(), 1);
    assert!(std::ptr::eq(found[0], &records[0]));
    let none = VersionSearchQuery {
        build_hash: WildPlacement::Exact("zzz".to_string()),
        ..Default::default()
    };
    assert!(BInfoMatcher::new(&records).find_all(&none).is_empty());
}

#[test]
fn placement_find() {
    let v: Vec<u64> = vec![0, 1, 4, 10, 65, 65];
    assert_eq!(OrdPlacement::Latest.find(&v), vec![65, 65]);
    assert_eq!(OrdPlacement::Oldest.find(&v), vec![0]);
    assert_eq!(OrdPlacement::Any.find(&v), v);
    assert_eq!(OrdPlacement::Exact(10u64).find(&v), vec![10]);
    let empty: Vec<u64> = vec![];
    assert!(OrdPlacement::<u64>::Latest.find(&empty).is_empty());
}

#[test]
fn query_parse_round_trip() {
    for s in [
        "*.*.*",
        "1.2.3-master",
        "4.^.^-stable@^",
        "4.3.^+cb886aba06d5@^",
        "daily/4.3.^-stable+cb886aba06d5@-",
        "4.-.*#abc",
    ] {
        let q = VersionSearchQuery::try_from(s).unwrap();
        let text = q.to_string();
        let again = VersionSearchQuery::try_from(text.as_str()).unwrap();
        assert_eq!(again, q, "{} -> {}", s, text);
    }
}

#[test]
fn query_parse_fields() {
    let q = VersionSearchQuery::try_from("4.3.^-stable+cb886aba06d5@2024-07-31T23:53:51+00:00").unwrap();
    assert_eq!(q.repository, WildPlacement::Any);
    assert_eq!(q.major, OrdPlacement::Exact(4));
    assert_eq!(q.minor, OrdPlacement::Exact(3));
    assert_eq!(q.patch, OrdPlacement::Latest);
    assert_eq!(q.branch, WildPlacement::Exact("stable".to_string()));
    assert_eq!(q.build_hash, WildPlacement::Exact("cb886aba06d5".to_string()));
    assert_eq!(q.commit_dt, OrdPlacement::Exact(CommitTime { secs: 1_722_470_031, nanos: 0 }));
}

#[test]
fn query_parse_rejects_malformed_text() {
    assert_eq!(VersionSearchQuery::try_from("incorrect!"), Err(FromError::CannotCaptureViaRegex));
    assert_eq!(VersionSearchQuery::try_from("1.2"), Err(FromError::CannotCaptureViaRegex));
    assert_eq!(VersionSearchQuery::try_from("1.2.3+"), Err(FromError::CannotCaptureViaRegex));
    assert!(VersionSearchQuery::try_from("*.*.*").is_ok());
}

#[test]
fn query_branch_may_hold_hash_sign() {
    let q = VersionSearchQuery::try_from("1.2.3-a#b").unwrap();
    assert_eq!(q.branch, WildPlacement::Exact("a#b".to_string()));
    assert_eq!(q.build_hash, WildPlacement::Any);
    let q = VersionSearchQuery::try_from("1.2.3-a#b@^").unwrap();
    assert_eq!(q.branch, WildPlacement::Exact("a#b".to_string()));
    assert_eq!(q.commit_dt, OrdPlacement::Latest);
}

#[test]
fn query_text_form() {
    let q = VersionSearchQuery::try_from("daily/4.^.-@-").unwrap();
    assert_eq!(q.to_string(), "daily/4.^.--*+*@-");
    let q = VersionSearchQuery::default();
    assert_eq!(q.to_string(), "*.*.*-*+*");
    let q = VersionSearchQuery::try_from("1.2.3@2024-07-31T23:53:51+00:00").unwrap();
    assert_eq!(q.to_string(), "1.2.3-*+*@2024-07-31T23:53:51+00:00");
    let q = q.with_commit_dt(Some(OrdPlacement::Latest));
    assert_eq!(q.to_string(), "1.2.3-*+*@^");
}

#[test]
fn placements_from_text() {
    assert_eq!(OrdPlacement::<u64>::from("^"), OrdPlacement::Latest);
    assert_eq!(OrdPlacement::<u64>::from("Latest"), OrdPlacement::Latest);
    assert_eq!(OrdPlacement::<u64>::from("Any"), OrdPlacement::Any);
    assert_eq!(OrdPlacement::<u64>::from("Oldest"), OrdPlacement::Oldest);
    assert_eq!(OrdPlacement::<u64>::from("+42"), OrdPlacement::Exact(42));
    assert_eq!(OrdPlacement::<u64>::from("x"), OrdPlacement::Any);
    assert_eq!(OrdPlacement::<u64>::from("18446744073709551616"), OrdPlacement::Any);
    assert_eq!(OrdPlacement::<CommitTime>::from("not a time"), OrdPlacement::Any);
    assert_eq!(
        OrdPlacement::<CommitTime>::from("1970-01-01T00:00:10.5+00:00"),
        OrdPlacement::Exact(CommitTime { secs: 10, nanos: 500_000_000 })
    );
    assert_eq!(WildPlacement::<String>::from(" * "), WildPlacement::Any);
    assert_eq!(WildPlacement::<String>::from(" main "), WildPlacement::Exact("main".to_string()));
    assert_eq!(OrdPlacement::Exact(17u64).to_string(), "17");
    assert_eq!(WildPlacement::<String>::Any.to_string(), "*");
}

#[test]
fn exact_query_from_build() {
    let (b, _) = record(4, 3, 1, "daily", JUN_2020, "daily");
    let q = VersionSearchQuery::from_build(&b);
    assert_eq!(q.major, OrdPlacement::Exact(4));
    assert_eq!(q.minor, OrdPlacement::Exact(3));
    assert_eq!(q.patch, OrdPlacement::Exact(1));
    assert_eq!(q.branch, WildPlacement::Exact("daily".to_string()));
    assert_eq!(q.build_hash, WildPlacement::Exact("abc123".to_string()));
    assert_eq!(q.commit_dt, OrdPlacement::Exact(CommitTime { secs: JUN_2020, nanos: 0 }));
    assert_eq!(q.repository, WildPlacement::Any);
}

#[test]
fn records_order_by_commit_then_version() {
    let (early, _) = record(4, 3, 0, "daily", JAN_2020, "d");
    let (late, _) = record(1, 0, 0, "daily", JUN_2020, "d");
    assert_eq!(early.cmp_order(&late), Some(Ordering::Less));
    assert_eq!(late.cmp_order(&early), Some(Ordering::Greater));
    let (same_time_lower, _) = record(4, 2, 0, "daily", JAN_2020, "d");
    assert_eq!(same_time_lower.cmp_order(&early), Some(Ordering::Less));
    assert_eq!(early.cmp_order(&early.clone()), Some(Ordering::Equal));
}

#[test]
fn exact_time_round_trip() {
    for s in ["4.3.^@2024-07-31T23:53:51+00:00", "daily/4.3.^-stable+cb886aba06d5@2024-07-31T23:53:51Z"] {
        let q = VersionSearchQuery::try_from(s).unwrap();
        assert!(matches!(q.commit_dt, OrdPlacement::Exact(_)));
        let text = q.to_string();
        let again = VersionSearchQuery::try_from(text.as_str()).unwrap();
        assert_eq!(again, q, "{} -> {}", s, text);
    }
    let q = VersionSearchQuery {
        commit_dt: OrdPlacement::Exact(CommitTime { secs: 0, nanos: 5 }),
        ..Default::default()
    };
    assert_eq!(q.to_string(), "*.*.*-*+*");
    let q = VersionSearchQuery {
        commit_dt: OrdPlacement::Exact(CommitTime { secs: 0, nanos: 0 }),
        ..Default::default()
    };
    assert_eq!(q.to_string(), "*.*.*-*+*@1970-01-01T00:00:00+00:00");
}

#[test]
fn placement_positions() {
    let v: Vec<u64> = vec![4, 1, 4, 10, 10, 0];
    assert_eq!(OrdPlacement::Latest.find_positions(&v), vec![3, 4]);
    assert_eq!(OrdPlacement::Oldest.find_positions(&v), vec![5]);
    assert_eq!(OrdPlacement::Exact(4u64).find_positions(&v), vec![0, 2]);
    assert_eq!(OrdPlacement::Any.find_positions(&v), vec![0, 1, 2, 3, 4, 5]);
}

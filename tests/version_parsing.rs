use std::cmp::Ordering;
use blrs::version::{parse_blender_ver, simple_clean, version_from_parts, Version};

fn v(major: u64, minor: u64, patch: u64, pre: &str, build: &str) -> Version {
    Version {
        major,
        minor,
        patch,
        pre: pre.to_string(),
        build: build.to_string(),
    }
}

fn check(cases: &[(&str, Version)]) {
    for (s, expected) in cases {
        let estimated = parse_blender_ver(s, true);
        println!("{:?} -> {:?}", s, estimated);
        let got = estimated.unwrap();
        assert_eq!(got, *expected);
        assert_eq!(got.build, expected.build);
    }
}

#[test]
fn test_parser() {
    check(&[
        ("Blender1.0", v(1, 0, 0, "", "")),
        ("blender-4.3.0-alpha-linux", v(4, 3, 0, "alpha", "")),
        ("3.6.14", v(3, 6, 14, "", "")),
        ("4.3.0-alpha+daily.ddc9f92777cd", v(4, 3, 0, "alpha", "daily.ddc9f92777cd")),
        (
            "blender-3.3.21-stable+v33.e016c21db151-linux.x86_64-release.tar.xz",
            v(3, 3, 21, "stable", "v33.e016c21db151"),
        ),
        ("blender-4.3.0-alpha+daily.d9c941a464e7", v(4, 3, 0, "alpha", "daily.d9c941a464e7")),
        ("blender-4.1.0-linux-x64.tar.xz", v(4, 1, 0, "", "")),
        ("2.80 (sub 75)", v(2, 80, 75, "", "")),
        ("2.79", v(2, 79, 0, "", "")),
        ("2.79rc1", v(2, 79, 0, "rc1", "")),
        ("2.79b", v(2, 79, 0, "b", "")),
        ("v4.2.2", v(4, 2, 2, "", "")),
    ]);
}

#[test]
fn build_info_test_parser() {
    check(&[
        ("Blender1.0", v(1, 0, 0, "", "")),
        ("blender-4.3.0-alpha-linux", v(4, 3, 0, "alpha", "")),
        ("3.6.14", v(3, 6, 14, "", "")),
        ("4.3.0-alpha+daily.ddc9f92777cd", v(4, 3, 0, "alpha", "daily.ddc9f92777cd")),
        (
            "blender-3.3.21-stable+v33.e016c21db151-linux.x86_64-release.tar.xz",
            v(3, 3, 21, "stable", "v33.e016c21db151"),
        ),
        ("blender-4.1.0-linux-x64.tar.xz", v(4, 1, 0, "", "")),
        ("2.80 (sub 75)", v(2, 80, 75, "", "")),
        ("2.79", v(2, 79, 0, "", "")),
        ("2.79rc1", v(2, 79, 0, "rc1", "")),
        ("2.79b", v(2, 79, 0, "b", "")),
    ]);
}

#[test]
fn valid_semver_is_kept_exactly() {
    for s in ["1.2.3", "0.0.0", "4.3.0-alpha+daily.ddc9f92777cd", "1.0.0-rc.1+build.5", "10.20.30-x-y.7"] {
        let strict = parse_blender_ver(s, false).unwrap();
        let searched = parse_blender_ver(s, true).unwrap();
        assert_eq!(strict, searched);
        assert_eq!(strict.build, searched.build);
        let rendered = if strict.pre.is_empty() {
            format!("{}.{}.{}", strict.major, strict.minor, strict.patch)
        } else {
            format!("{}.{}.{}-{}", strict.major, strict.minor, strict.patch, strict.pre)
        };
        let rendered = if strict.build.is_empty() {
            rendered
        } else {
            format!("{}+{}", rendered, strict.build)
        };
        assert_eq!(rendered, s);
    }
}

#[test]
fn sub_patch_form() {
    assert_eq!(parse_blender_ver("2.80 (sub 75)", true), Some(v(2, 80, 75, "", "")));
}

#[test]
fn missing_patch_is_zero() {
    assert_eq!(parse_blender_ver("2.79", true), Some(v(2, 79, 0, "", "")));
}

#[test]
fn short_suffix_is_prerelease() {
    assert_eq!(parse_blender_ver("2.79rc1", true), Some(v(2, 79, 0, "rc1", "")));
}

#[test]
fn prefix_and_platform_are_stripped() {
    assert_eq!(parse_blender_ver("blender-4.3.0-alpha-linux", true), Some(v(4, 3, 0, "alpha", "")));
    assert_eq!(parse_blender_ver("blender-4.3.0-alpha-windows", true), Some(v(4, 3, 0, "alpha", "")));
}

#[test]
fn v_prefix_is_stripped() {
    assert_eq!(parse_blender_ver("v4.2.2", true), Some(v(4, 2, 2, "", "")));
}

#[test]
fn prerelease_is_lowercased() {
    let got = parse_blender_ver("2.79RC1", true).unwrap();
    assert_eq!(got.pre, "rc1");
    let got = parse_blender_ver("2.80.0 Alpha", true).unwrap();
    assert_eq!(got, v(2, 80, 0, "alpha", ""));
}

#[test]
fn invalid_prerelease_fails_the_parse() {
    assert_eq!(parse_blender_ver("2.79 a_b", true), None);
    assert_eq!(parse_blender_ver("2.79-01", true), None);
}

#[test]
fn number_overflow_fails_the_parse() {
    assert_eq!(parse_blender_ver("99999999999999999999.1", true), None);
}

#[test]
fn search_mode_finds_later_matches() {
    assert_eq!(parse_blender_ver("Version 2.79", true), Some(v(2, 79, 0, "", "")));
    assert_eq!(parse_blender_ver("Version 2.79", false), None);
    assert_eq!(parse_blender_ver("no version here", true), None);
}

#[test]
fn surrounding_white_space_is_trimmed() {
    assert_eq!(parse_blender_ver("  3.6.14\n", false), Some(v(3, 6, 14, "", "")));
}

#[test]
fn cleaning_pass() {
    assert_eq!(simple_clean("blender-4.1.0-linux-x64.tar.xz"), "4.1.0");
    assert_eq!(simple_clean("blender--4.1"), "4.1");
    assert_eq!(simple_clean("BLENDER4.2 rest\nnext line"), "4.2 rest");
    assert_eq!(simple_clean("plain"), "plain");
}

#[test]
fn parts_make_a_version() {
    assert_eq!(version_from_parts(2, 79, 0, "rc1"), Some(v(2, 79, 0, "rc1", "")));
    assert_eq!(version_from_parts(2, 79, 0, ""), Some(v(2, 79, 0, "", "")));
    assert_eq!(version_from_parts(2, 79, 0, "a b"), None);
}

#[test]
fn precedence_order() {
    assert_eq!(v(1, 2, 3, "", "").cmp_precedence(&v(1, 10, 0, "", "")), Some(Ordering::Less));
    assert_eq!(v(2, 0, 0, "", "").cmp_precedence(&v(1, 10, 0, "", "")), Some(Ordering::Greater));
    assert_eq!(v(1, 0, 0, "", "a").cmp_precedence(&v(1, 0, 0, "", "b")), Some(Ordering::Equal));
    assert_eq!(v(1, 0, 0, "", "").cmp_precedence(&v(1, 0, 0, "rc1", "")), Some(Ordering::Greater));
    assert_eq!(v(1, 0, 0, "alpha", "").cmp_precedence(&v(1, 0, 0, "", "")), Some(Ordering::Less));
    assert_eq!(v(1, 0, 0, "alpha.2", "").cmp_precedence(&v(1, 0, 0, "alpha.10", "")), Some(Ordering::Less));
    assert_eq!(v(1, 0, 0, "alpha.1", "").cmp_precedence(&v(1, 0, 0, "alpha", "")), Some(Ordering::Greater));
    assert_eq!(v(1, 0, 0, "1", "").cmp_precedence(&v(1, 0, 0, "a", "")), Some(Ordering::Less));
    assert_eq!(v(1, 0, 0, "a b", "").cmp_precedence(&v(1, 0, 0, "a", "")), None);
}

#[test]
fn prefix_in_any_case() {
    assert_eq!(simple_clean("V4.2.2"), "4.2.2");
    assert_eq!(simple_clean("BlEnDeR-4.1.0"), "4.1.0");
    assert_eq!(simple_clean("BLENDER--4.1"), "4.1");
    assert_eq!(parse_blender_ver("V4.2.2", true), Some(v(4, 2, 2, "", "")));
    assert_eq!(parse_blender_ver("BlEnDeR-4.1.0-linux", true), Some(v(4, 1, 0, "", "")));
    assert_eq!(parse_blender_ver("Version 2.79", true), Some(v(2, 79, 0, "", "")));
}

#[test]
fn strict_semver_edges() {
    // Taken whole by the strict step.
    assert_eq!(parse_blender_ver("0.0.0-0.a+b-c", false), Some(v(0, 0, 0, "0.a", "b-c")));
    // Rejected by the strict step; nothing else matches at the start.
    // A leading zero fails strict parsing; the short-suffix pattern then
    // captures ".3", which is no valid pre-release.
    assert_eq!(parse_blender_ver("01.2.3", false), None);
    // Strict parsing refuses the empty pre-release; the `D.D.D-` pattern
    // then captures it as empty, which is valid.
    assert_eq!(parse_blender_ver("1.2.3-", false), Some(v(1, 2, 3, "", "")));
    assert_eq!(parse_blender_ver("1.2.3-a..b", false), None);
    assert_eq!(parse_blender_ver("18446744073709551616.0.0", false), None);
}

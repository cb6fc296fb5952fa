use blrs::blendfile::{read_blendfile_header, BlendFileHeader, CompressionType};
use blrs::launching::{BlendLaunchTarget, GeneratedParams, LaunchArguments, OSLaunchTarget};
use blrs::remote::{
    filter_repos_by_target, BlenderBuildSchema, BuildEntry, BuildVariant, GithubAuthentication, RepoEntry,
    Variants,
};
use blrs::records::{BasicBuildInfo, CommitTime};
use blrs::verbose::VerboseVersion;

#[test]
fn transform_appends_target_arguments() {
    let mut args = vec!["-W".to_string()];
    BlendLaunchTarget::Empty.transform(&mut args);
    assert_eq!(args, vec!["-W"]);
    BlendLaunchTarget::OpenLast.transform(&mut args);
    assert_eq!(args, vec!["-W", "--open-last"]);
    BlendLaunchTarget::File("blendfile.blend".to_string()).transform(&mut args);
    assert_eq!(args, vec!["-W", "--open-last", "blendfile.blend"]);
    BlendLaunchTarget::Custom(vec!["-b".to_string(), "-a".to_string()]).transform(&mut args);
    assert_eq!(args, vec!["-W", "--open-last", "blendfile.blend", "-b", "-a"]);
}

#[test]
fn executable_names() {
    assert_eq!(OSLaunchTarget::Linux.exe_name(), "blender");
    assert_eq!(OSLaunchTarget::Windows { no_console: false }.exe_name(), "blender.exe");
    assert_eq!(OSLaunchTarget::Windows { no_console: true }.exe_name(), "blender-launcher.exe");
    assert_eq!(OSLaunchTarget::MacOS.exe_name(), "Blender/Blender.app");
    assert_eq!(OSLaunchTarget::from_os_name("linux"), Some(OSLaunchTarget::Linux));
    assert_eq!(OSLaunchTarget::from_os_name("macos"), Some(OSLaunchTarget::MacOS));
    assert_eq!(
        OSLaunchTarget::from_os_name("windows"),
        Some(OSLaunchTarget::Windows { no_console: false })
    );
    assert_eq!(OSLaunchTarget::from_os_name("haiku"), None);
}

#[test]
fn generated_params() {
    let mut p = GeneratedParams::from_exe("blender/blender");
    assert_eq!(p.exe, "blender/blender");
    assert_eq!(p.args, None);
    p.extend_args(vec!["--open-last".to_string()]);
    assert_eq!(p.args, Some(vec!["--open-last".to_string()]));
    p.extend_args(vec!["a".to_string(), "b".to_string()]);
    assert_eq!(p.args, Some(vec!["--open-last".to_string(), "a".to_string(), "b".to_string()]));
    let l = LaunchArguments::file(BlendLaunchTarget::OpenLast, OSLaunchTarget::Linux);
    assert_eq!(l.file_target, BlendLaunchTarget::OpenLast);
    assert_eq!(l.os_target, OSLaunchTarget::Linux);
    assert!(l.env.is_none());
}

#[test]
fn blend_headers() {
    let plain = b"BLENDER-v280REND";
    assert_eq!(
        read_blendfile_header(plain, CompressionType::Plain),
        Some(BlendFileHeader { version: (2, 80), compression_type: CompressionType::Plain })
    );
    let bullet = b"BULLETf_v405";
    assert_eq!(read_blendfile_header(bullet, CompressionType::Plain).unwrap().version, (4, 5));
    let other = b"NOTBLEN-v280";
    assert_eq!(read_blendfile_header(other, CompressionType::Plain), None);
    assert_eq!(
        read_blendfile_header(other, CompressionType::Zstd).unwrap().compression_type,
        CompressionType::Zstd
    );
    assert_eq!(read_blendfile_header(b"BLENDER-v2", CompressionType::Plain), None);
    assert_eq!(read_blendfile_header(b"BLENDER-vx80", CompressionType::Plain), None);
    let h = BlendFileHeader { version: (3, 6), compression_type: CompressionType::Gzip };
    assert_eq!(h.version().minor, 6);
}

fn schema(version: &str, cycle: &str, branch: &str, hash: &str) -> BlenderBuildSchema {
    BlenderBuildSchema {
        app: "Blender".to_string(),
        url: "https://example.invalid/b.zip".to_string(),
        version: version.to_string(),
        branch: branch.to_string(),
        patch: None,
        hash: hash.to_string(),
        platform: "linux".to_string(),
        architecture: "x86_64".to_string(),
        file_mtime: 0,
        file_name: "b".to_string(),
        file_size: 1,
        file_extension: "zip".to_string(),
        release_cycle: cycle.to_string(),
    }
}

#[test]
fn listing_versions() {
    let s = schema("4.3.0", "alpha", "main", "ddc9f92777cd");
    let v = s.full_version().unwrap();
    assert_eq!((v.major, v.minor, v.patch), (4, 3, 0));
    assert_eq!(v.pre, "alpha");
    assert_eq!(v.build, "main.ddc9f92777cd");
    let v = s.full_version_and_platform().unwrap();
    assert_eq!(v.pre, "linux-alpha");
    assert!(schema("4.3.0", "al pha", "main", "x").full_version().is_none());
    assert!(schema("nothing", "alpha", "main", "x").full_version().is_none());
    assert!(schema("4.3.0", "alpha", "", "x").full_version().is_none());
}

#[test]
fn credentials() {
    let a = GithubAuthentication::new("me".to_string(), "SECRET-REDACTED".to_string());
    assert_eq!(a.user, "me");
    assert_eq!(a.token, "SECRET-REDACTED");
}

#[test]
fn variants_for_target() {
    let variant = |os: &str, arch: &str, ext: &str| BuildVariant {
        b: 0u8,
        target_os: os.to_string(),
        architecture: arch.to_string(),
        extension: ext.to_string(),
    };
    let vs = Variants {
        v: vec![
            variant("linux", "x86_64", "xz"),
            variant("windows", "amd64", "zip"),
            variant("linux", "x86_64", "xz"),
            variant("linux", "arm64", "xz"),
        ],
        basic: BasicBuildInfo {
            ver: VerboseVersion::default(),
            commit_dt: CommitTime { secs: 0, nanos: 0 },
        },
    };
    let kept = vs.filter_target(("linux", "x86_64", "xz"));
    assert_eq!(kept.v.len(), 2);
    assert!(kept.v.iter().all(|b| b.architecture == "x86_64"));
}

fn test_build() -> blrs::records::LocalBuild {
    let now = std::time::SystemTime::now()
        .duration_since(std::time::UNIX_EPOCH)
        .unwrap();
    blrs::records::LocalBuild {
        folder: "blender/".to_string(),
        info: blrs::records::LocalBuildInfo {
            basic: BasicBuildInfo {
                ver: VerboseVersion::new(4, 3, 0, None, None, None),
                commit_dt: CommitTime { secs: now.as_secs() as i64, nanos: now.subsec_nanos() },
            },
            is_favorited: false,
            custom_name: None,
            custom_exe: None,
            custom_env: None,
        },
    }
}

#[test]
fn test_launch_targets() {
    let test_build = test_build();
    assert_eq!(
        LaunchArguments {
            file_target: BlendLaunchTarget::Empty,
            os_target: OSLaunchTarget::Linux,
            env: None,
        }
        .assemble(&test_build)
        .unwrap(),
        GeneratedParams::from_exe("blender/blender")
    );
    assert_eq!(
        LaunchArguments {
            file_target: BlendLaunchTarget::OpenLast,
            os_target: OSLaunchTarget::Linux,
            env: None,
        }
        .assemble(&test_build)
        .unwrap(),
        GeneratedParams {
            exe: "blender/blender".to_string(),
            args: Some(vec!["--open-last".to_string()]),
            env: None
        }
    );
    // The path of a file target is handed on as given.
    assert_eq!(
        LaunchArguments {
            file_target: BlendLaunchTarget::File("blendfile.blend".to_string()),
            os_target: OSLaunchTarget::Linux,
            env: None,
        }
        .assemble(&test_build)
        .unwrap(),
        GeneratedParams {
            exe: "blender/blender".to_string(),
            args: Some(vec!["blendfile.blend".to_string()]),
            env: None
        }
    );
    assert_eq!(
        LaunchArguments {
            file_target: BlendLaunchTarget::Custom(vec![
                "-b".to_string(),
                "-a".to_string(),
                "file.blend".to_string()
            ]),
            os_target: OSLaunchTarget::Linux,
            env: None
        }
        .assemble(&test_build)
        .unwrap(),
        GeneratedParams {
            exe: "blender/blender".to_string(),
            args: Some(vec![
                "-b".to_string(),
                "-a".to_string(),
                "file.blend".to_string()
            ]),
            env: None
        },
    );
}

#[test]
fn macos_launch_and_environment() {
    let mut build = test_build();
    let mut own = std::collections::HashMap::new();
    own.insert("A".to_string(), "1".to_string());
    own.insert("B".to_string(), "1".to_string());
    build.info.custom_env = Some(own);
    let mut extra = std::collections::HashMap::new();
    extra.insert("B".to_string(), "2".to_string());
    let p = LaunchArguments {
        file_target: BlendLaunchTarget::OpenLast,
        os_target: OSLaunchTarget::MacOS,
        env: Some(extra),
    }
    .assemble(&build)
    .unwrap();
    assert_eq!(p.exe, "open");
    assert_eq!(
        p.args,
        Some(vec![
            "-W".to_string(),
            "-n".to_string(),
            "blender/Blender/Blender.app".to_string(),
            "--args".to_string(),
            "--open-last".to_string()
        ])
    );
    let env = p.env.unwrap();
    assert_eq!(env.get("A").map(String::as_str), Some("1"));
    assert_eq!(env.get("B").map(String::as_str), Some("2"));
    build.info.custom_exe = Some("blender-custom".to_string());
    let p = LaunchArguments::file(BlendLaunchTarget::Empty, OSLaunchTarget::Windows { no_console: true })
        .assemble(&build)
        .unwrap();
    assert_eq!(p.exe, "blender/blender-custom");
    assert_eq!(p.args, None);
}

#[test]
fn remote_build_from_listing() {
    let mut s = schema("4.3.0", "alpha", "main", "ddc9f92777cd");
    s.file_mtime = 1_722_470_031;
    let b = blrs::remote::RemoteBuild::from_schema(s.clone()).unwrap();
    assert_eq!(b.basic.ver.branch(), "main");
    assert_eq!(b.basic.ver.build_hash(), "ddc9f92777cd");
    assert_eq!(b.basic.version().pre, "alpha");
    assert_eq!(b.basic.commit_dt, CommitTime { secs: 1_722_470_031, nanos: 0 });
    assert_eq!(b.to_string(), "linux x86_64 (zip)");
    let bare = blrs::remote::RemoteBuild { platform: None, architecture: None, file_extension: None, ..b };
    assert_eq!(bare.to_string(), "unknown null (.???)");
    s.file_mtime = usize::MAX;
    assert!(blrs::remote::RemoteBuild::from_schema(s).is_none());
}

#[test]
fn target_setups() {
    let t = blrs::remote::get_target_setup("x86_64", "linux").unwrap();
    assert_eq!((t.0.as_str(), t.1.as_str(), t.2.as_str()), ("linux", "x86_64", "xz"));
    let t = blrs::remote::get_target_setup("x86_64", "windows").unwrap();
    assert_eq!((t.0.as_str(), t.1.as_str(), t.2.as_str()), ("windows", "amd64", "zip"));
    let t = blrs::remote::get_target_setup("aarch64", "macos").unwrap();
    assert_eq!((t.0.as_str(), t.1.as_str(), t.2.as_str()), ("darwin", "arm64", "dmg"));
    assert!(blrs::remote::get_target_setup("x86_64", "freebsd").is_none());
}

#[test]
fn checksum_pairs() {
    let build = schema("4.3.0", "alpha", "main", "ddc9f92777cd");
    let mut sum = build.clone();
    sum.file_extension = "sha256".to_string();
    let mut windows = build.clone();
    windows.platform = "windows".to_string();
    let pairs = blrs::remote::get_sha256_pairs(vec![build.clone(), windows.clone(), sum.clone()]).unwrap();
    assert_eq!(pairs.len(), 2);
    let linux = pairs.iter().find(|(v, _)| v.pre == "linux-alpha").unwrap();
    assert_eq!(linux.1.build, Some(build.clone()));
    assert_eq!(linux.1.sha256, Some(sum));
    let win = pairs.iter().find(|(v, _)| v.pre == "windows-alpha").unwrap();
    assert_eq!(win.1.build, Some(windows));
    assert_eq!(win.1.sha256, None);
    assert!(blrs::remote::get_sha256_pairs(vec![schema("bad", "alpha", "main", "x")]).is_none());
    assert!(blrs::remote::get_sha256_pairs(vec![]).unwrap().is_empty());
}

fn asset(url: &str, updated: &str) -> blrs::remote::GithubReleaseAsset {
    blrs::remote::GithubReleaseAsset {
        url: String::new(),
        id: 1,
        name: String::new(),
        content_type: String::new(),
        size: 42,
        created_at: String::new(),
        updated_at: updated.to_string(),
        browser_download_url: url.to_string(),
    }
}

fn release(tag: &str, prerelease: bool, assets: Vec<blrs::remote::GithubReleaseAsset>) -> blrs::remote::GithubRelease {
    blrs::remote::GithubRelease {
        url: String::new(),
        assets_url: String::new(),
        upload_url: String::new(),
        html_url: String::new(),
        id: 7,
        tag_name: tag.to_string(),
        target_commitish: String::new(),
        name: "Goo Engine".to_string(),
        prerelease,
        assets,
    }
}

#[test]
fn github_release_listing() {
    let rel = release(
        "v4.1.1",
        false,
        vec![
            asset("https://x.invalid/d/blender-4.1.1-linux-x64.tar.xz", "2024-07-31T23:53:51+00:00"),
            asset("https://x.invalid/d/blender-4.1.1-windows.zip", "1970-01-01T00:00:10Z"),
            asset("https://x.invalid/d/README", "1970-01-01T00:00:00Z"),
        ],
    );
    let schemas = rel.to_build_schemas().unwrap();
    assert_eq!(schemas.len(), 3);
    assert_eq!(schemas[0].version, "4.1.1");
    assert_eq!(schemas[0].branch, "prerelease");
    assert_eq!(schemas[0].release_cycle, "prerelease");
    assert_eq!(schemas[0].file_name, "blender-4.1.1-linux-x64.tar");
    assert_eq!(schemas[0].file_extension, "xz");
    assert_eq!(schemas[0].platform, "linux");
    assert_eq!(schemas[0].file_mtime, 1_722_470_031);
    assert_eq!(schemas[0].hash, "ffffffff");
    assert_eq!(schemas[0].architecture, "unknown_arch");
    assert_eq!(schemas[0].app, "Goo Engine");
    assert_eq!(schemas[1].platform, "windows");
    assert_eq!(schemas[1].file_mtime, 10);
    assert_eq!(schemas[2].file_name, "README");
    assert_eq!(schemas[2].file_extension, "README");
    assert_eq!(schemas[2].platform, "unknown_platform");

    let odd = release("not a version", true, vec![asset("https://x.invalid/.hidden", "2024-07-31T23:53:51Z")]);
    let schemas = odd.to_build_schemas().unwrap();
    assert_eq!(schemas[0].version, "1.0.0");
    assert_eq!(schemas[0].branch, "release");
    assert_eq!(schemas[0].file_name, ".hidden");
    assert_eq!(schemas[0].file_extension, ".hidden");

    assert!(release("v1.0.0", false, vec![asset("https://x.invalid/d/", "2024-07-31T23:53:51Z")]).to_build_schemas().is_none());
    assert!(release("v1.0.0", false, vec![asset("https://x.invalid/d/a.zip", "yesterday")]).to_build_schemas().is_none());
}

#[test]
fn version_text_form() {
    let v = blrs::version::parse_blender_ver("4.3.0-alpha+daily.ddc9f92777cd", false).unwrap();
    assert_eq!(v.to_string(), "4.3.0-alpha+daily.ddc9f92777cd");
    assert_eq!(blrs::version::Version::new(2, 79, 0).to_string(), "2.79.0");
}

fn repo(id: &str, nick: &str) -> blrs::remote::BuildRepo {
    blrs::remote::BuildRepo {
        repo_id: id.to_string(),
        url: format!("https://x.invalid/{}", id),
        nickname: nick.to_string(),
        repo_type: blrs::remote::RepoType::Blender,
    }
}

#[test]
fn known_and_unknown_repos() {
    let repos = vec![repo("daily", "a"), repo("patch", "p"), repo("daily", "b"), repo("lts", "l")];
    let folders = vec!["daily".to_string(), "mine".to_string(), "daily".to_string()];
    let sorted = blrs::remote::get_known_and_unknown_repos(repos, folders);
    assert_eq!(sorted.len(), 4);
    assert_eq!(sorted[0].as_ref().unwrap().nickname, "b");
    assert_eq!(sorted[1], Err("mine".to_string()));
    assert_eq!(sorted[2].as_ref().unwrap().repo_id, "patch");
    assert_eq!(sorted[3].as_ref().unwrap().repo_id, "lts");
}

fn remote(os: &str) -> BuildVariant<blrs::remote::RemoteBuild> {
    let b = blrs::remote::RemoteBuild::from_schema(schema("4.3.0", "alpha", "main", "abc")).unwrap();
    BuildVariant { b, target_os: os.to_string(), architecture: "x86_64".to_string(), extension: "xz".to_string() }
}

fn listed(oses: &[&str]) -> blrs::remote::BuildEntry {
    let v: Vec<_> = oses.iter().map(|o| remote(o)).collect();
    let basic = v[0].b.basic.clone();
    blrs::remote::BuildEntry::NotInstalled(Variants { v, basic })
}

#[test]
fn repositories_for_target() {

    let repos = vec![
        RepoEntry::Registered(repo("daily", "d"), vec![listed(&["linux", "windows"]), listed(&["windows"])]),
        RepoEntry::Registered(repo("patch", "p"), vec![listed(&["windows"])]),
        RepoEntry::Registered(repo("lts", "l"), vec![BuildEntry::Errored("unreadable".to_string(), None)]),
        RepoEntry::Unknown("mine".to_string(), vec![]),
        RepoEntry::Error("broken".to_string(), "denied".to_string()),
    ];
    let kept = filter_repos_by_target(repos, ("linux", "x86_64", "xz"));
    assert_eq!(kept.len(), 4);
    match &kept[0] {
        RepoEntry::Registered(r, entries) => {
            assert_eq!(r.repo_id, "daily");
            assert_eq!(entries.len(), 1);
            match &entries[0] {
                BuildEntry::NotInstalled(vs) => {
                    assert_eq!(vs.v.len(), 1);
                    assert_eq!(vs.v[0].target_os, "linux");
                }
                _ => panic!("expected a listed build"),
            }
        }
        _ => panic!("expected a registered repository"),
    }
    assert!(matches!(&kept[1], RepoEntry::Registered(r, e) if r.repo_id == "lts" && e.len() == 1));
    assert!(matches!(&kept[2], RepoEntry::Unknown(n, _) if n == "mine"));
    assert!(matches!(&kept[3], RepoEntry::Error(n, _) if n == "broken"));
}

#[test]
fn installed_builds() {

    let with = RepoEntry::Unknown("mine".to_string(), vec![listed(&["linux"]), BuildEntry::Installed("4.2".to_string(), test_build())]);
    assert!(with.has_installed_builds());
    let without = RepoEntry::Registered(repo("daily", "d"), vec![listed(&["linux"])]);
    assert!(!without.has_installed_builds());
    assert!(!RepoEntry::Error("x".to_string(), "y".to_string()).has_installed_builds());
}

#[test]
fn pre_epoch_asset_time_wraps() {
    let rel = release("v1.0.0", false, vec![asset("https://x.invalid/d/a.zip", "1969-12-31T23:59:59Z")]);
    let schemas = rel.to_build_schemas().unwrap();
    assert_eq!(schemas[0].file_mtime, (-1i64) as usize);
}

#[test]
fn repository_folder() {
    let paths = blrs::remote::BLRSPaths { library: "lib".to_string(), remote_repos: "cache".to_string() };
    assert_eq!(paths.path_to_repo(&repo("daily", "d")), "lib/daily");
}

#[test]
fn timestamp_range_edges() {
    let mut s = schema("4.3.0", "alpha", "main", "abc");
    s.file_mtime = 8_210_266_876_799;
    assert!(blrs::remote::RemoteBuild::from_schema(s.clone()).is_some());
    s.file_mtime = 8_210_266_876_800;
    assert!(blrs::remote::RemoteBuild::from_schema(s).is_none());
}

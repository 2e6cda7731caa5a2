//! Tests of the installation manager's decisions and the managed runtime
//! registry.

use java_runtimes::{
    adoptium_url, build_adoptium_release, find_java_in_extracted, get_adoptium_arch,
    get_adoptium_os, get_archive_extension, get_managed_java, is_managed_dir_name,
    java_bundle_path, java_standard_path, list_managed_runtimes, managed_runtime_dir_name,
    pick_jdk_dir, zip_root_dir_name, AdoptiumError, Arch, BinaryDoc, DownloadProgress,
    JavaInstallation, ManagedCandidate, Os, PackageDoc, ReleaseDoc, VersionDoc,
};

#[test]
fn test_platform_identifiers() {
    assert_eq!(get_adoptium_os(Os::Windows), "windows");
    assert_eq!(get_adoptium_os(Os::MacOs), "mac");
    assert_eq!(get_adoptium_os(Os::Linux), "linux");
    assert_eq!(get_adoptium_arch(Arch::X64), "x64");
    assert_eq!(get_adoptium_arch(Arch::Aarch64), "aarch64");
    assert_eq!(get_adoptium_arch(Arch::X86), "x32");
    assert_eq!(get_archive_extension(Os::Windows), "zip");
    assert_eq!(get_archive_extension(Os::Linux), "tar.gz");
}

#[test]
fn test_adoptium_url() {
    assert_eq!(
        adoptium_url(21, Os::Linux, Arch::X64),
        "https://api.adoptium.net/v3/assets/latest/21/hotspot?architecture=x64&image_type=jdk&os=linux&vendor=eclipse"
    );
    assert_eq!(
        adoptium_url(8, Os::MacOs, Arch::Aarch64),
        "https://api.adoptium.net/v3/assets/latest/8/hotspot?architecture=aarch64&image_type=jdk&os=mac&vendor=eclipse"
    );
}

fn full_package() -> PackageDoc {
    PackageDoc {
        link: Some("https://example.invalid/jdk.tar.gz".to_string()),
        name: Some("jdk.tar.gz".to_string()),
        size: Some(1234),
        checksum: Some("abcd".to_string()),
    }
}

#[test]
fn test_build_adoptium_release_ok() {
    let releases = vec![ReleaseDoc {
        binary: Some(BinaryDoc { package: Some(full_package()) }),
        version: Some(VersionDoc { semver: Some("21.0.1+12".to_string()) }),
    }];
    let rel = build_adoptium_release(21, &releases).expect("complete document");
    assert_eq!(rel.version, "21.0.1+12");
    assert_eq!(rel.major, 21);
    assert_eq!(rel.download_url, "https://example.invalid/jdk.tar.gz");
    assert_eq!(rel.filename, "jdk.tar.gz");
    assert_eq!(rel.size, 1234);
    assert_eq!(rel.checksum, Some("abcd".to_string()));
}

#[test]
fn test_build_adoptium_release_defaults() {
    let releases = vec![ReleaseDoc {
        binary: Some(BinaryDoc {
            package: Some(PackageDoc {
                link: Some("l".to_string()),
                name: Some("n".to_string()),
                size: None,
                checksum: None,
            }),
        }),
        version: Some(VersionDoc { semver: None }),
    }];
    let rel = build_adoptium_release(17, &releases).expect("defaults apply");
    assert_eq!(rel.version, "unknown");
    assert_eq!(rel.size, 0);
    assert_eq!(rel.checksum, None);
}

#[test]
fn test_build_adoptium_release_errors() {
    let empty: Vec<ReleaseDoc> = vec![];
    assert_eq!(build_adoptium_release(21, &empty).unwrap_err(), AdoptiumError::NoReleases);

    let no_binary = vec![ReleaseDoc { binary: None, version: None }];
    assert_eq!(build_adoptium_release(21, &no_binary).unwrap_err(), AdoptiumError::NoBinary);

    let no_package = vec![ReleaseDoc { binary: Some(BinaryDoc { package: None }), version: None }];
    assert_eq!(build_adoptium_release(21, &no_package).unwrap_err(), AdoptiumError::NoPackage);

    let no_version = vec![ReleaseDoc {
        binary: Some(BinaryDoc { package: Some(full_package()) }),
        version: None,
    }];
    assert_eq!(build_adoptium_release(21, &no_version).unwrap_err(), AdoptiumError::NoVersion);

    let mut p = full_package();
    p.link = None;
    let no_link = vec![ReleaseDoc {
        binary: Some(BinaryDoc { package: Some(p) }),
        version: Some(VersionDoc { semver: None }),
    }];
    assert_eq!(build_adoptium_release(21, &no_link).unwrap_err(), AdoptiumError::NoLink);

    let mut p = full_package();
    p.name = None;
    let no_name = vec![ReleaseDoc {
        binary: Some(BinaryDoc { package: Some(p) }),
        version: Some(VersionDoc { semver: None }),
    }];
    assert_eq!(build_adoptium_release(21, &no_name).unwrap_err(), AdoptiumError::NoName);

    assert_eq!(
        AdoptiumError::NoReleases.message(),
        "no releases found for this Java version"
    );
    assert_eq!(AdoptiumError::NoBinary.message(), "no binary info in release");
}

#[test]
fn test_download_progress() {
    let mut p = DownloadProgress::new(100);
    assert_eq!(p.downloaded, 0);
    assert_eq!(p.total, 100);
    p.record_chunk(40);
    p.record_chunk(25);
    assert_eq!(p.downloaded, 65);
    assert_eq!(p.total, 100);
}

#[test]
fn test_zip_root_dir_name() {
    assert_eq!(zip_root_dir_name("jdk-21.0.1+12/bin/java.exe"), "jdk-21.0.1+12");
    assert_eq!(zip_root_dir_name("flat-file.txt"), "flat-file.txt");
    assert_eq!(zip_root_dir_name(""), "");
}

#[test]
fn test_pick_jdk_dir() {
    let names = vec!["docs".to_string(), "jdk-21.0.1+12".to_string()];
    assert_eq!(pick_jdk_dir(&names), Some("jdk-21.0.1+12".to_string()));
    let temurin = vec!["eclipse-temurin-17".to_string()];
    assert_eq!(pick_jdk_dir(&temurin), Some("eclipse-temurin-17".to_string()));
    let fallback = vec!["first".to_string(), "second".to_string()];
    assert_eq!(pick_jdk_dir(&fallback), Some("first".to_string()));
    assert_eq!(pick_jdk_dir(&vec![]), None);
}

#[test]
fn test_find_java_in_extracted() {
    assert_eq!(java_standard_path(Os::Linux, "/opt/jdk"), "/opt/jdk/bin/java");
    assert_eq!(java_standard_path(Os::Windows, "C:\\jdk"), "C:\\jdk\\bin\\java.exe");
    assert_eq!(java_bundle_path("/opt/jdk"), "/opt/jdk/Contents/Home/bin/java");

    assert_eq!(
        find_java_in_extracted(Os::Linux, "/opt/jdk", true, false),
        Some("/opt/jdk/bin/java".to_string())
    );
    assert_eq!(
        find_java_in_extracted(Os::MacOs, "/opt/jdk", false, true),
        Some("/opt/jdk/Contents/Home/bin/java".to_string())
    );
    // The bundle-style location is consulted only on macOS.
    assert_eq!(find_java_in_extracted(Os::Linux, "/opt/jdk", false, true), None);
    assert_eq!(find_java_in_extracted(Os::MacOs, "/opt/jdk", false, false), None);
}

#[test]
fn test_managed_dir_names() {
    assert_eq!(managed_runtime_dir_name(17), "temurin-17");
    assert_eq!(managed_runtime_dir_name(8), "temurin-8");
    assert!(is_managed_dir_name("temurin-21"));
    assert!(!is_managed_dir_name("zulu-21"));
    assert!(!is_managed_dir_name(""));
}

#[test]
fn test_get_managed_java() {
    let candidates = vec![
        ManagedCandidate { java_path: None, is_valid: false },
        ManagedCandidate { java_path: Some("/r/bad/bin/java".to_string()), is_valid: false },
        ManagedCandidate { java_path: Some("/r/good/bin/java".to_string()), is_valid: true },
        ManagedCandidate { java_path: Some("/r/late/bin/java".to_string()), is_valid: true },
    ];
    assert_eq!(get_managed_java(&candidates), Some("/r/good/bin/java".to_string()));
    assert_eq!(get_managed_java(&vec![]), None);
}

fn sample_installation(path: &str) -> JavaInstallation {
    JavaInstallation {
        path: path.to_string(),
        version: Some("17.0.2".to_string()),
        major: Some(17),
        vendor: None,
        arch: None,
        is_valid: true,
    }
}

#[test]
fn test_list_managed_runtimes_empty_root() {
    let got = list_managed_runtimes(vec![]);
    assert!(got.is_empty());
}

#[test]
fn test_list_managed_runtimes_skips_unresolved() {
    let got = list_managed_runtimes(vec![
        None,
        Some(sample_installation("/r/temurin-17/jdk/bin/java")),
        None,
        Some(sample_installation("/r/temurin-21/jdk/bin/java")),
    ]);
    assert_eq!(got.len(), 2);
    assert_eq!(got[0].path, "/r/temurin-17/jdk/bin/java");
    assert_eq!(got[1].path, "/r/temurin-21/jdk/bin/java");
}

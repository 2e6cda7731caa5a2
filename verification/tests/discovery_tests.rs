//! Tests of candidate collection, deduplication, detection ordering and
//! compatible-runtime lookup.

use java_runtimes::{
    collect_common_candidates, collect_java_candidates, collect_linux_candidates,
    collect_macos_candidates, collect_windows_candidates, dedup_paths, detect_installations,
    find_compatible_java, java_executable_name, linux_jvm_dirs, path_join,
    windows_program_files_roots, windows_vendor_dirs, CommonSnapshot, DirListing, HomebrewEntry,
    LinuxSnapshot, MacSnapshot, Os, ProbeOutcome, ProbedCandidate, SystemSnapshot,
};

fn strings(v: &[&str]) -> Vec<String> {
    v.iter().map(|s| s.to_string()).collect()
}

#[test]
fn test_java_executable_name() {
    assert_eq!(java_executable_name(Os::Windows), "java.exe");
    assert_eq!(java_executable_name(Os::MacOs), "java");
    assert_eq!(java_executable_name(Os::Linux), "java");
}

#[test]
fn test_path_join_separators() {
    assert_eq!(path_join(Os::Linux, "/opt", "java"), "/opt/java");
    assert_eq!(path_join(Os::Windows, "C:\\Program Files", "Java"), "C:\\Program Files\\Java");
}

#[test]
fn test_collect_macos_candidates() {
    let snapshot = MacSnapshot {
        jvm_machines: Some(strings(&["temurin-17.jdk"])),
        homebrew_arm: Some(vec![
            HomebrewEntry {
                name: "openjdk@17".to_string(),
                has_bin_java: true,
                has_libexec_java: true,
            },
            HomebrewEntry {
                name: "python".to_string(),
                has_bin_java: true,
                has_libexec_java: false,
            },
        ]),
        homebrew_intel: None,
    };
    let got = collect_macos_candidates(&snapshot);
    assert_eq!(
        got,
        strings(&[
            "/usr/bin/java",
            "/Library/Java/JavaVirtualMachines/temurin-17.jdk/Contents/Home/bin/java",
            "/opt/homebrew/opt/openjdk@17/bin/java",
            "/opt/homebrew/opt/openjdk@17/libexec/bin/java",
        ])
    );
}

#[test]
fn test_collect_windows_candidates() {
    let roots = windows_program_files_roots(None, None);
    assert_eq!(roots, strings(&["C:\\Program Files", "C:\\Program Files (x86)"]));
    let dirs = windows_vendor_dirs(&strings(&["C:\\Program Files"]));
    assert_eq!(dirs.len(), 7);
    assert_eq!(dirs[0], "C:\\Program Files\\Java");
    assert_eq!(dirs[1], "C:\\Program Files\\Eclipse Adoptium");

    let listing = DirListing {
        path: "C:\\Program Files\\Java".to_string(),
        entries: strings(&["jdk-17", "jre-8"]),
    };
    let got = collect_windows_candidates(&vec![listing]);
    assert_eq!(
        got,
        strings(&[
            "C:\\Program Files\\Java\\jdk-17\\bin\\java.exe",
            "C:\\Program Files\\Java\\jre-8\\bin\\java.exe",
        ])
    );
}

#[test]
fn test_collect_linux_candidates() {
    assert_eq!(linux_jvm_dirs(), strings(&["/usr/lib/jvm", "/usr/lib64/jvm", "/usr/java"]));
    let snapshot = LinuxSnapshot {
        jvm_listings: vec![DirListing {
            path: "/usr/lib/jvm".to_string(),
            entries: strings(&["java-17-openjdk"]),
        }],
        snap_entries: Some(strings(&["openjdk", "firefox"])),
    };
    let got = collect_linux_candidates(&snapshot);
    assert_eq!(
        got,
        strings(&[
            "/usr/bin/java",
            "/usr/lib/jvm/java-17-openjdk/bin/java",
            "/snap/openjdk/current/jdk/bin/java",
        ])
    );
}

#[test]
fn test_collect_common_candidates() {
    let snapshot = CommonSnapshot {
        home: Some("/home/u".to_string()),
        sdkman_names: Some(strings(&["17.0.2-tem", "current"])),
        asdf_names: Some(strings(&["openjdk-21"])),
    };
    let got = collect_common_candidates(Os::Linux, &snapshot);
    assert_eq!(
        got,
        strings(&[
            "/home/u/.sdkman/candidates/java/17.0.2-tem/bin/java",
            "/home/u/.sdkman/candidates/java/current/bin/java",
            "/home/u/.asdf/installs/java/openjdk-21/bin/java",
        ])
    );

    let without_home = CommonSnapshot { home: None, sdkman_names: None, asdf_names: None };
    assert!(collect_common_candidates(Os::Linux, &without_home).is_empty());
}

#[test]
fn test_collect_java_candidates_java_home_first() {
    let snapshot = SystemSnapshot {
        java_home: Some("/opt/jdk".to_string()),
        mac: MacSnapshot { jvm_machines: None, homebrew_arm: None, homebrew_intel: None },
        windows_listings: vec![],
        linux: LinuxSnapshot { jvm_listings: vec![], snap_entries: None },
        common: CommonSnapshot { home: None, sdkman_names: None, asdf_names: None },
    };
    let got = collect_java_candidates(Os::Linux, &snapshot);
    assert_eq!(got, strings(&["/opt/jdk/bin/java", "/usr/bin/java"]));
}

#[test]
fn test_dedup_paths() {
    let input = strings(&["/a", "/b", "/a", "/c", "/b"]);
    assert_eq!(dedup_paths(&input), strings(&["/a", "/b", "/c"]));
    assert!(dedup_paths(&vec![]).is_empty());
}

fn banner(version: &str) -> ProbeOutcome {
    ProbeOutcome::Banner(format!("openjdk version \"{}\"\nTemurin x86_64", version))
}

#[test]
fn test_detect_installations_sorts_and_drops_failures() {
    let probed = vec![
        ProbedCandidate { path: "/java17".to_string(), outcome: banner("17.0.2") },
        ProbedCandidate { path: "/broken".to_string(), outcome: ProbeOutcome::LaunchFailed },
        ProbedCandidate { path: "/java21".to_string(), outcome: banner("21.0.1") },
        ProbedCandidate { path: "/missing".to_string(), outcome: ProbeOutcome::MissingPath },
        ProbedCandidate { path: "/java8".to_string(), outcome: banner("1.8.0_321") },
    ];
    let got = detect_installations(probed);
    let majors: Vec<Option<u32>> = got.iter().map(|i| i.major).collect();
    assert_eq!(majors, vec![Some(21), Some(17), Some(8)]);
    assert_eq!(got[0].path, "/java21");
    assert!(got.iter().all(|i| i.is_valid));
}

#[test]
fn test_detect_installations_tie_breaks_by_path() {
    let probed = vec![
        ProbedCandidate { path: "/b/java".to_string(), outcome: banner("17.0.2") },
        ProbedCandidate { path: "/a/java".to_string(), outcome: banner("17.0.2") },
    ];
    let got = detect_installations(probed);
    assert_eq!(got[0].path, "/a/java");
    assert_eq!(got[1].path, "/b/java");
}

#[test]
fn test_find_compatible_java() {
    let installations = detect_installations(vec![
        ProbedCandidate { path: "/java17".to_string(), outcome: banner("17.0.2") },
        ProbedCandidate { path: "/java21".to_string(), outcome: banner("21.0.1") },
    ]);
    // A managed runtime wins outright.
    assert_eq!(
        find_compatible_java("1.20.6", Some("/managed/java".to_string()), &installations),
        Some("/managed/java".to_string())
    );
    // Otherwise the first installation meeting the requirement is taken.
    assert_eq!(
        find_compatible_java("1.20.6", None, &installations),
        Some("/java21".to_string())
    );
    assert_eq!(
        find_compatible_java("1.12.2", None, &installations),
        Some("/java21".to_string())
    );
    let old_only = detect_installations(vec![ProbedCandidate {
        path: "/java8".to_string(),
        outcome: banner("1.8.0_321"),
    }]);
    assert_eq!(find_compatible_java("1.20.6", None, &old_only), None);
}

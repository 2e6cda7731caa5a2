//! Tests of banner parsing, vendor and architecture classification, and
//! path validation.

use java_runtimes::{
    detect_architecture, detect_vendor, extract_version_string, parse_java_version_output,
    validate_and_create_installation, validate_java_path, ProbeOutcome,
};

#[test]
fn test_detect_vendor() {
    assert_eq!(
        detect_vendor("OpenJDK Runtime Environment Temurin-17.0.2+8"),
        Some("Eclipse Temurin".to_string())
    );
    assert_eq!(
        detect_vendor("OpenJDK Runtime Environment Zulu17.32+13-CA"),
        Some("Azul Zulu".to_string())
    );
    assert_eq!(
        detect_vendor("OpenJDK Runtime Environment Corretto-17.0.2.8.1"),
        Some("Amazon Corretto".to_string())
    );
    assert_eq!(detect_vendor("openjdk version \"17.0.2\""), Some("OpenJDK".to_string()));
    assert_eq!(detect_vendor("Java(TM) SE Runtime Environment"), Some("Oracle".to_string()));
}

#[test]
fn test_detect_vendor_no_match() {
    assert_eq!(detect_vendor("some unrelated text"), None);
    assert_eq!(detect_vendor("GraalVM CE 22.3"), Some("GraalVM".to_string()));
    assert_eq!(detect_vendor("Microsoft Build of OpenJDK"), Some("Microsoft".to_string()));
}

#[test]
fn test_detect_architecture() {
    assert_eq!(detect_architecture("OpenJDK 64-Bit Server VM (build 17, aarch64)"),
        Some("aarch64".to_string()));
    assert_eq!(detect_architecture("something arm64 here"), Some("aarch64".to_string()));
    assert_eq!(detect_architecture("built for x86_64"), Some("x86_64".to_string()));
    assert_eq!(detect_architecture("amd64 port"), Some("x86_64".to_string()));
    assert_eq!(detect_architecture("i386 legacy build"), Some("x86".to_string()));
    assert_eq!(detect_architecture("no arch named"), None);
}

#[test]
fn test_extract_version_string() {
    assert_eq!(
        extract_version_string("openjdk version \"17.0.2\" 2022-01-18"),
        Some("17.0.2".to_string())
    );
    assert_eq!(
        extract_version_string("java version \"1.8.0_321\""),
        Some("1.8.0_321".to_string())
    );
    assert_eq!(extract_version_string("no quotes here"), None);
    assert_eq!(extract_version_string("only one \" quote"), None);
    assert_eq!(extract_version_string("empty \"\" token"), Some("".to_string()));
}

#[test]
fn test_parse_java_version_output() {
    let banner = "openjdk version \"17.0.2\" 2022-01-18\nOpenJDK Runtime Environment Temurin-17.0.2+8 (build 17.0.2+8)\nOpenJDK 64-Bit Server VM Temurin-17.0.2+8 (build 17.0.2+8, mixed mode, sharing) x86_64";
    let info = parse_java_version_output(banner).expect("banner should parse");
    assert_eq!(info.version, "17.0.2");
    assert_eq!(info.major, 17);
    assert_eq!(info.vendor, Some("Eclipse Temurin".to_string()));
    assert_eq!(info.arch, Some("x86_64".to_string()));
}

#[test]
fn test_parse_java_version_output_legacy() {
    let banner = "java version \"1.8.0_321\"\nJava(TM) SE Runtime Environment (build 1.8.0_321-b07)";
    let info = parse_java_version_output(banner).expect("banner should parse");
    assert_eq!(info.version, "1.8.0_321");
    assert_eq!(info.major, 8);
    assert_eq!(info.vendor, Some("Oracle".to_string()));
    assert_eq!(info.arch, None);
}

#[test]
fn test_parse_java_version_output_unparsable() {
    assert!(parse_java_version_output("not a java banner").is_none());
    assert!(parse_java_version_output("").is_none());
    // The quoted token must be on the first line.
    assert!(parse_java_version_output("first line\nversion \"17.0.2\"").is_none());
}

#[test]
fn test_validate_nonexistent_path() {
    let v = validate_java_path(&ProbeOutcome::MissingPath);
    assert!(!v.is_valid);
    assert_eq!(v.version, None);
    assert_eq!(v.major, None);
    assert_eq!(v.vendor, None);
    assert_eq!(v.arch, None);
    assert_eq!(v.error, Some("Path does not exist".to_string()));
}

#[test]
fn test_validate_launch_failure() {
    let v = validate_java_path(&ProbeOutcome::LaunchFailed);
    assert!(!v.is_valid);
    assert_eq!(v.error, Some("Failed to execute java -version".to_string()));
}

#[test]
fn test_validate_banner_outcomes() {
    let good = validate_java_path(&ProbeOutcome::Banner(
        "openjdk version \"21.0.1\"\nTemurin".to_string(),
    ));
    assert!(good.is_valid);
    assert_eq!(good.version, Some("21.0.1".to_string()));
    assert_eq!(good.major, Some(21));
    assert_eq!(good.vendor, Some("Eclipse Temurin".to_string()));
    assert_eq!(good.error, None);

    let bad = validate_java_path(&ProbeOutcome::Banner("garbage output".to_string()));
    assert!(!bad.is_valid);
    assert_eq!(bad.error, Some("Could not parse Java version".to_string()));
}

#[test]
fn test_validate_and_create_installation() {
    let inst = validate_and_create_installation(
        "/usr/bin/java",
        &ProbeOutcome::Banner("openjdk version \"17.0.2\"\nZulu x86_64".to_string()),
    )
    .expect("valid banner should create an installation");
    assert_eq!(inst.path, "/usr/bin/java");
    assert_eq!(inst.version, Some("17.0.2".to_string()));
    assert_eq!(inst.major, Some(17));
    assert_eq!(inst.vendor, Some("Azul Zulu".to_string()));
    assert_eq!(inst.arch, Some("x86_64".to_string()));
    assert!(inst.is_valid);

    assert!(validate_and_create_installation("/bad", &ProbeOutcome::MissingPath).is_none());
    assert!(validate_and_create_installation("/bad", &ProbeOutcome::LaunchFailed).is_none());
    assert!(
        validate_and_create_installation("/bad", &ProbeOutcome::Banner("junk".to_string()))
            .is_none()
    );
}

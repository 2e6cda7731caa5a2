//! The version prober: parses the banner a candidate executable prints for a
//! version query into structured data, and turns probe outcomes into
//! validation results.

use vstd::prelude::*;

use crate::text::{
    contains_ic, find_char, find_char_in, lemma_find_char_first, lemma_find_char_none,
    lemma_find_char_props, str_contains_ic,
};
use crate::versions::{parse_major_version, spec_parse_major};

verus! {

/// View of an `Option<String>` as an optional character sequence.
pub open spec fn opt_str_view(o: Option<String>) -> Option<Seq<char>> {
    match o {
        Some(s) => Some(s@),
        None => None,
    }
}

/// The first line of a text, as `str::lines` yields it: everything before
/// the first newline, with a carriage return stripped ahead of that newline.
pub open spec fn spec_first_line(s: Seq<char>) -> Seq<char> {
    match find_char(s, '\n') {
        Some(i) => {
            let raw = s.take(i);
            if raw.len() > 0 && raw.last() == '\r' {
                raw.drop_last()
            } else {
                raw
            }
        },
        None => s,
    }
}

/// The text between the first two double quotes of a line, if both exist.
pub open spec fn spec_extract_quoted(line: Seq<char>) -> Option<Seq<char>> {
    match find_char(line, '"') {
        None => None,
        Some(i) => {
            let rest = line.skip(i + 1);
            match find_char(rest, '"') {
                None => None,
                Some(j) => Some(rest.take(j)),
            }
        },
    }
}

/// Vendor classification of a version banner: the first case-insensitive
/// keyword match decides, in a fixed priority order.
pub open spec fn spec_vendor(s: Seq<char>) -> Option<Seq<char>> {
    if contains_ic(s, "temurin"@) || contains_ic(s, "adoptium"@) {
        Some("Eclipse Temurin"@)
    } else if contains_ic(s, "zulu"@) {
        Some("Azul Zulu"@)
    } else if contains_ic(s, "corretto"@) {
        Some("Amazon Corretto"@)
    } else if contains_ic(s, "graalvm"@) {
        Some("GraalVM"@)
    } else if contains_ic(s, "microsoft"@) {
        Some("Microsoft"@)
    } else if contains_ic(s, "openjdk"@) {
        Some("OpenJDK"@)
    } else if contains_ic(s, "oracle"@) || contains_ic(s, "java(tm)"@) {
        Some("Oracle"@)
    } else {
        None
    }
}

/// Architecture classification of a version banner, first match in priority
/// order.
pub open spec fn spec_architecture(s: Seq<char>) -> Option<Seq<char>> {
    if contains_ic(s, "aarch64"@) || contains_ic(s, "arm64"@) {
        Some("aarch64"@)
    } else if contains_ic(s, "x86_64"@) || contains_ic(s, "amd64"@) {
        Some("x86_64"@)
    } else if contains_ic(s, "x86"@) || contains_ic(s, "i386"@) || contains_ic(s, "i686"@) {
        Some("x86"@)
    } else {
        None
    }
}

/// Take the first line of a probe output.
fn first_line(s: &str) -> (r: String)
    ensures
        r@ == spec_first_line(s@),
{
    let n: usize = s.unicode_len();
    match find_char_in(s, '\n') {
        Some(i) => {
            proof {
                lemma_find_char_props(s@, '\n');
            }
            if i > 0 && s.get_char(i - 1) == '\r' {
                let r = String::from_str(s.substring_char(0, i - 1));
                proof {
                    assert(s@.take(i as int).drop_last() =~= s@.subrange(0, i - 1));
                }
                r
            } else {
                let r = String::from_str(s.substring_char(0, i));
                proof {
                    assert(s@.take(i as int) =~= s@.subrange(0, i as int));
                    if i > 0 {
                        assert(s@.take(i as int).last() == s@[i - 1]);
                    }
                }
                r
            }
        },
        None => String::from_str(s),
    }
}

/// Extract the double-quoted version token from a banner line, e.g. the
/// `17.0.2` of `openjdk version "17.0.2" 2022-01-18`.
pub fn extract_version_string(line: &str) -> (r: Option<String>)
    ensures
        match r {
            Some(v) => spec_extract_quoted(line@) == Some(v@),
            None => spec_extract_quoted(line@) is None,
        },
{
    let n: usize = line.unicode_len();
    match find_char_in(line, '"') {
        None => None,
        Some(i) => {
            proof {
                lemma_find_char_props(line@, '"');
            }
            let ghost rest = line@.skip(i + 1);
            let mut j: usize = i + 1;
            while j < n
                invariant
                    i + 1 <= j <= n,
                    n == line@.len(),
                    i < n,
                    find_char(line@, '"') == Some(i as int),
                    rest == line@.skip(i + 1),
                    forall|l: int| i + 1 <= l < j ==> #[trigger] line@[l] != '"',
                decreases n - j,
            {
                if line.get_char(j) == '"' {
                    let token = String::from_str(line.substring_char(i + 1, j));
                    proof {
                        assert forall|l: int| 0 <= l < j - i - 1 implies #[trigger] rest[l]
                            != '"' by {
                            assert(rest[l] == line@[i + 1 + l]);
                        }
                        assert(rest[j - i - 1] == line@[j as int]);
                        lemma_find_char_first(rest, '"', j - i - 1);
                        assert(rest.take(j - i - 1) =~= line@.subrange(i + 1, j as int));
                    }
                    return Some(token);
                }
                j = j + 1;
            }
            proof {
                assert forall|l: int| 0 <= l < rest.len() implies #[trigger] rest[l] != '"' by {
                    assert(rest[l] == line@[i + 1 + l]);
                }
                lemma_find_char_none(rest, '"');
            }
            None
        },
    }
}

/// Classify the vendor named in a version banner.
pub fn detect_vendor(output: &str) -> (r: Option<String>)
    ensures
        opt_str_view(r) == spec_vendor(output@),
{
    if str_contains_ic(output, "temurin") || str_contains_ic(output, "adoptium") {
        Some(String::from_str("Eclipse Temurin"))
    } else if str_contains_ic(output, "zulu") {
        Some(String::from_str("Azul Zulu"))
    } else if str_contains_ic(output, "corretto") {
        Some(String::from_str("Amazon Corretto"))
    } else if str_contains_ic(output, "graalvm") {
        Some(String::from_str("GraalVM"))
    } else if str_contains_ic(output, "microsoft") {
        Some(String::from_str("Microsoft"))
    } else if str_contains_ic(output, "openjdk") {
        Some(String::from_str("OpenJDK"))
    } else if str_contains_ic(output, "oracle") || str_contains_ic(output, "java(tm)") {
        Some(String::from_str("Oracle"))
    } else {
        None
    }
}

/// Classify the machine architecture named in a version banner.
pub fn detect_architecture(output: &str) -> (r: Option<String>)
    ensures
        opt_str_view(r) == spec_architecture(output@),
{
    if str_contains_ic(output, "aarch64") || str_contains_ic(output, "arm64") {
        Some(String::from_str("aarch64"))
    } else if str_contains_ic(output, "x86_64") || str_contains_ic(output, "amd64") {
        Some(String::from_str("x86_64"))
    } else if str_contains_ic(output, "x86") || str_contains_ic(output, "i386")
        || str_contains_ic(output, "i686") {
        Some(String::from_str("x86"))
    } else {
        None
    }
}

/// Structured data parsed from a version banner.
#[derive(Debug, Clone)]
pub struct JavaVersionInfo {
    pub version: String,
    pub major: u32,
    pub vendor: Option<String>,
    pub arch: Option<String>,
}

/// Parse the combined output of a version query: the first line must hold a
/// double-quoted version token; vendor and architecture are read from the
/// whole text.
pub fn parse_java_version_output(output: &str) -> (r: Option<JavaVersionInfo>)
    ensures
        (r is Some) == (spec_extract_quoted(spec_first_line(output@)) is Some),
        r matches Some(info) ==> {
            &&& spec_extract_quoted(spec_first_line(output@)) == Some(info.version@)
            &&& info.major == spec_parse_major(info.version@)
            &&& opt_str_view(info.vendor) == spec_vendor(output@)
            &&& opt_str_view(info.arch) == spec_architecture(output@)
        },
{
    let line = first_line(output);
    match extract_version_string(line.as_str()) {
        None => None,
        Some(version) => {
            let major = parse_major_version(version.as_str());
            let vendor = detect_vendor(output);
            let arch = detect_architecture(output);
            Some(JavaVersionInfo { version, major, vendor, arch })
        },
    }
}

/// What probing one candidate path produced: the path was absent, the
/// executable could not be run, or it ran and printed a banner.
#[derive(Debug, Clone)]
pub enum ProbeOutcome {
    MissingPath,
    LaunchFailed,
    Banner(String),
}

/// Result of validating a single Java path on demand.
#[derive(Debug, Clone)]
pub struct JavaValidation {
    pub is_valid: bool,
    pub version: Option<String>,
    pub major: Option<u32>,
    pub vendor: Option<String>,
    pub arch: Option<String>,
    pub error: Option<String>,
}

/// Mathematical model of a `JavaValidation`.
pub struct ValidationView {
    pub is_valid: bool,
    pub version: Option<Seq<char>>,
    pub major: Option<u32>,
    pub vendor: Option<Seq<char>>,
    pub arch: Option<Seq<char>>,
    pub error: Option<Seq<char>>,
}

impl View for JavaValidation {
    type V = ValidationView;

    open spec fn view(&self) -> ValidationView {
        ValidationView {
            is_valid: self.is_valid,
            version: opt_str_view(self.version),
            major: self.major,
            vendor: opt_str_view(self.vendor),
            arch: opt_str_view(self.arch),
            error: opt_str_view(self.error),
        }
    }
}

/// What validating a path yields for each probe outcome: an absent path and
/// a failed launch carry their error text; a banner is parsed, succeeding
/// exactly when it holds a quoted version token.
pub open spec fn spec_validate(probe: ProbeOutcome) -> ValidationView {
    match probe {
        ProbeOutcome::MissingPath => (ValidationView {
            is_valid: false,
            version: None,
            major: None,
            vendor: None,
            arch: None,
            error: Some("Path does not exist"@),
        }),
        ProbeOutcome::LaunchFailed => (ValidationView {
            is_valid: false,
            version: None,
            major: None,
            vendor: None,
            arch: None,
            error: Some("Failed to execute java -version"@),
        }),
        ProbeOutcome::Banner(out) => match spec_extract_quoted(spec_first_line(out@)) {
            Some(v) => (ValidationView {
                is_valid: true,
                version: Some(v),
                major: Some(spec_parse_major(v)),
                vendor: spec_vendor(out@),
                arch: spec_architecture(out@),
                error: None,
            }),
            None => (ValidationView {
                is_valid: false,
                version: None,
                major: None,
                vendor: None,
                arch: None,
                error: Some("Could not parse Java version"@),
            }),
        },
    }
}

/// Validate a Java path from what probing it produced.
pub fn validate_java_path(probe: &ProbeOutcome) -> (r: JavaValidation)
    ensures
        r@ == spec_validate(*probe),
{
    match probe {
        ProbeOutcome::MissingPath => JavaValidation {
            is_valid: false,
            version: None,
            major: None,
            vendor: None,
            arch: None,
            error: Some(String::from_str("Path does not exist")),
        },
        ProbeOutcome::LaunchFailed => JavaValidation {
            is_valid: false,
            version: None,
            major: None,
            vendor: None,
            arch: None,
            error: Some(String::from_str("Failed to execute java -version")),
        },
        ProbeOutcome::Banner(out) => match parse_java_version_output(out.as_str()) {
            Some(info) => JavaValidation {
                is_valid: true,
                version: Some(info.version),
                major: Some(info.major),
                vendor: info.vendor,
                arch: info.arch,
                error: None,
            },
            None => JavaValidation {
                is_valid: false,
                version: None,
                major: None,
                vendor: None,
                arch: None,
                error: Some(String::from_str("Could not parse Java version")),
            },
        },
    }
}

/// Information about one detected Java installation.
#[derive(Debug, Clone)]
pub struct JavaInstallation {
    pub path: String,
    pub version: Option<String>,
    pub major: Option<u32>,
    pub vendor: Option<String>,
    pub arch: Option<String>,
    pub is_valid: bool,
}

/// Mathematical model of a `JavaInstallation`.
pub struct InstallationView {
    pub path: Seq<char>,
    pub version: Option<Seq<char>>,
    pub major: Option<u32>,
    pub vendor: Option<Seq<char>>,
    pub arch: Option<Seq<char>>,
    pub is_valid: bool,
}

impl View for JavaInstallation {
    type V = InstallationView;

    open spec fn view(&self) -> InstallationView {
        InstallationView {
            path: self.path@,
            version: opt_str_view(self.version),
            major: self.major,
            vendor: opt_str_view(self.vendor),
            arch: opt_str_view(self.arch),
            is_valid: self.is_valid,
        }
    }
}

/// The installation a candidate path yields: `None` unless its probe ran and
/// printed a parsable banner.
pub open spec fn spec_installation(path: Seq<char>, probe: ProbeOutcome) -> Option<
    InstallationView,
> {
    match probe {
        ProbeOutcome::Banner(out) => match spec_extract_quoted(spec_first_line(out@)) {
            Some(v) => Some(InstallationView {
                path: path,
                version: Some(v),
                major: Some(spec_parse_major(v)),
                vendor: spec_vendor(out@),
                arch: spec_architecture(out@),
                is_valid: true,
            }),
            None => None,
        },
        _ => None,
    }
}

/// Turn one probed candidate into an installation record, or drop it when
/// the probe failed.
pub fn validate_and_create_installation(path: &str, probe: &ProbeOutcome) -> (r: Option<
    JavaInstallation,
>)
    ensures
        (r is Some) == (spec_installation(path@, *probe) is Some),
        r matches Some(inst) ==> spec_installation(path@, *probe) == Some(inst@),
{
    match probe {
        ProbeOutcome::Banner(out) => match parse_java_version_output(out.as_str()) {
            Some(info) => Some(JavaInstallation {
                path: String::from_str(path),
                version: Some(info.version),
                major: Some(info.major),
                vendor: info.vendor,
                arch: info.arch,
                is_valid: true,
            }),
            None => None,
        },
        _ => None,
    }
}

} // verus!

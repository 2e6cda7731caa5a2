//! The installation manager's decision logic: the release-API URL, the
//! checks on the release document, download progress accounting, archive
//! root resolution, and the location of the java executable inside an
//! extracted tree.

use vstd::prelude::*;

use crate::candidates::{spec_java_exe, spec_join, Arch, Os, java_executable_name, path_join};
use crate::probe::opt_str_view;
use crate::text::{
    contains_seq, find_char, find_char_in, lemma_find_char_props, starts_with, str_contains,
    str_starts_with, u32_digits, u32_to_string,
};

verus! {

/// A downloadable Java release, as read from the distributor's response.
#[derive(Debug, Clone)]
pub struct AdoptiumRelease {
    pub version: String,
    pub major: u32,
    pub download_url: String,
    pub filename: String,
    pub size: u64,
    pub checksum: Option<String>,
}

/// Mathematical model of an `AdoptiumRelease`.
pub struct AdoptiumReleaseView {
    pub version: Seq<char>,
    pub major: u32,
    pub download_url: Seq<char>,
    pub filename: Seq<char>,
    pub size: u64,
    pub checksum: Option<Seq<char>>,
}

impl View for AdoptiumRelease {
    type V = AdoptiumReleaseView;

    open spec fn view(&self) -> AdoptiumReleaseView {
        AdoptiumReleaseView {
            version: self.version@,
            major: self.major,
            download_url: self.download_url@,
            filename: self.filename@,
            size: self.size,
            checksum: opt_str_view(self.checksum),
        }
    }
}

/// The fields of `binary.package` in a release document; a missing or
/// non-string field is `None`.
#[derive(Debug, Clone)]
pub struct PackageDoc {
    pub link: Option<String>,
    pub name: Option<String>,
    pub size: Option<u64>,
    pub checksum: Option<String>,
}

/// The `binary` object of a release document.
#[derive(Debug, Clone)]
pub struct BinaryDoc {
    pub package: Option<PackageDoc>,
}

/// The `version` object of a release document.
#[derive(Debug, Clone)]
pub struct VersionDoc {
    pub semver: Option<String>,
}

/// One release object of the distributor's response, reduced to the fields
/// the manager reads.
#[derive(Debug, Clone)]
pub struct ReleaseDoc {
    pub binary: Option<BinaryDoc>,
    pub version: Option<VersionDoc>,
}

/// Why a release document could not be turned into a release.
#[derive(Debug, Clone, Copy, PartialEq, Eq, Structural)]
pub enum AdoptiumError {
    NoReleases,
    NoBinary,
    NoPackage,
    NoVersion,
    NoLink,
    NoName,
}

/// The human-readable text of each error.
pub open spec fn spec_adoptium_error_message(e: AdoptiumError) -> Seq<char> {
    match e {
        AdoptiumError::NoReleases => "no releases found for this Java version"@,
        AdoptiumError::NoBinary => "no binary info in release"@,
        AdoptiumError::NoPackage => "no package info in binary"@,
        AdoptiumError::NoVersion => "no version info in release"@,
        AdoptiumError::NoLink => "no download link in package"@,
        AdoptiumError::NoName => "no filename in package"@,
    }
}

impl AdoptiumError {
    /// The text the error carries to the caller.
    pub fn message(&self) -> (r: &'static str)
        ensures
            r@ == spec_adoptium_error_message(*self),
    {
        match self {
            AdoptiumError::NoReleases => "no releases found for this Java version",
            AdoptiumError::NoBinary => "no binary info in release",
            AdoptiumError::NoPackage => "no package info in binary",
            AdoptiumError::NoVersion => "no version info in release",
            AdoptiumError::NoLink => "no download link in package",
            AdoptiumError::NoName => "no filename in package",
        }
    }
}

/// What assembling a release from the response yields: the first release
/// object decides; each missing layer gives its own error; a missing semver
/// falls back to `unknown`, a missing size to 0.
pub open spec fn spec_build_release(major: u32, releases: Seq<ReleaseDoc>) -> Result<
    AdoptiumReleaseView,
    AdoptiumError,
> {
    if releases.len() == 0 {
        Err(AdoptiumError::NoReleases)
    } else {
        let rel = releases[0];
        match rel.binary {
            None => Err(AdoptiumError::NoBinary),
            Some(bin) => match bin.package {
                None => Err(AdoptiumError::NoPackage),
                Some(pkg) => match rel.version {
                    None => Err(AdoptiumError::NoVersion),
                    Some(ver) => match pkg.link {
                        None => Err(AdoptiumError::NoLink),
                        Some(link) => match pkg.name {
                            None => Err(AdoptiumError::NoName),
                            Some(name) => Ok(AdoptiumReleaseView {
                                version: (match ver.semver {
                                    Some(s) => s@,
                                    None => "unknown"@,
                                }),
                                major: major,
                                download_url: link@,
                                filename: name@,
                                size: (match pkg.size {
                                    Some(n) => n,
                                    None => 0u64,
                                }),
                                checksum: opt_str_view(pkg.checksum),
                            }),
                        },
                    },
                },
            },
        }
    }
}

/// Assemble a release from the decoded response for a major version.
pub fn build_adoptium_release(java_major: u32, releases: &Vec<ReleaseDoc>) -> (r: Result<
    AdoptiumRelease,
    AdoptiumError,
>)
    ensures
        (match r {
            Ok(rel) => spec_build_release(java_major, releases@) == Ok::<
                AdoptiumReleaseView,
                AdoptiumError,
            >(rel@),
            Err(e) => spec_build_release(java_major, releases@) == Err::<
                AdoptiumReleaseView,
                AdoptiumError,
            >(e),
        }),
{
    if releases.len() == 0 {
        return Err(AdoptiumError::NoReleases);
    }
    let rel = &releases[0];
    match &rel.binary {
        None => Err(AdoptiumError::NoBinary),
        Some(bin) => match &bin.package {
            None => Err(AdoptiumError::NoPackage),
            Some(pkg) => match &rel.version {
                None => Err(AdoptiumError::NoVersion),
                Some(ver) => match &pkg.link {
                    None => Err(AdoptiumError::NoLink),
                    Some(link) => match &pkg.name {
                        None => Err(AdoptiumError::NoName),
                        Some(name) => {
                            let version = match &ver.semver {
                                Some(s) => s.clone(),
                                None => String::from_str("unknown"),
                            };
                            let size = match pkg.size {
                                Some(n) => n,
                                None => 0u64,
                            };
                            let checksum = match &pkg.checksum {
                                Some(c) => Some(c.clone()),
                                None => None,
                            };
                            Ok(AdoptiumRelease {
                                version,
                                major: java_major,
                                download_url: link.clone(),
                                filename: name.clone(),
                                size,
                                checksum,
                            })
                        },
                    },
                },
            },
        },
    }
}

/// The distributor's OS identifier.
pub open spec fn spec_adoptium_os(os: Os) -> Seq<char> {
    match os {
        Os::Windows => "windows"@,
        Os::MacOs => "mac"@,
        Os::Linux => "linux"@,
    }
}

/// The OS identifier sent to the release API.
pub fn get_adoptium_os(os: Os) -> (r: &'static str)
    ensures
        r@ == spec_adoptium_os(os),
{
    match os {
        Os::Windows => "windows",
        Os::MacOs => "mac",
        Os::Linux => "linux",
    }
}

/// The distributor's architecture identifier.
pub open spec fn spec_adoptium_arch(arch: Arch) -> Seq<char> {
    match arch {
        Arch::X64 => "x64"@,
        Arch::Aarch64 => "aarch64"@,
        Arch::X86 => "x32"@,
    }
}

/// The architecture identifier sent to the release API.
pub fn get_adoptium_arch(arch: Arch) -> (r: &'static str)
    ensures
        r@ == spec_adoptium_arch(arch),
{
    match arch {
        Arch::X64 => "x64",
        Arch::Aarch64 => "aarch64",
        Arch::X86 => "x32",
    }
}

/// The archive format downloaded per platform.
pub open spec fn spec_archive_extension(os: Os) -> Seq<char> {
    if os is Windows {
        "zip"@
    } else {
        "tar.gz"@
    }
}

/// The archive extension downloaded on an operating system.
pub fn get_archive_extension(os: Os) -> (r: &'static str)
    ensures
        r@ == spec_archive_extension(os),
{
    match os {
        Os::Windows => "zip",
        _ => "tar.gz",
    }
}

/// The "latest release for a major version" endpoint, filtered by platform,
/// image type `jdk` and vendor `eclipse`.
pub open spec fn spec_adoptium_url(major: u32, os: Os, arch: Arch) -> Seq<char> {
    "https://api.adoptium.net/v3/assets/latest/"@ + u32_digits(major as nat)
        + "/hotspot?architecture="@ + spec_adoptium_arch(arch) + "&image_type=jdk&os="@
        + spec_adoptium_os(os) + "&vendor=eclipse"@
}

/// Build the release-API URL for a major version on the given platform.
pub fn adoptium_url(major: u32, os: Os, arch: Arch) -> (r: String)
    ensures
        r@ == spec_adoptium_url(major, os, arch),
{
    let mut r = String::from_str("https://api.adoptium.net/v3/assets/latest/");
    let digits = u32_to_string(major);
    r.append(digits.as_str());
    r.append("/hotspot?architecture=");
    r.append(get_adoptium_arch(arch));
    r.append("&image_type=jdk&os=");
    r.append(get_adoptium_os(os));
    r.append("&vendor=eclipse");
    r
}

/// Download progress as reported to the caller: bytes received so far, and
/// the expected total, which may be 0 when unknown.
#[derive(Debug, Clone, Copy, PartialEq, Eq, Structural)]
pub struct DownloadProgress {
    pub downloaded: u64,
    pub total: u64,
}

impl DownloadProgress {
    /// Start counting a download of `total` expected bytes.
    pub fn new(total: u64) -> (r: DownloadProgress)
        ensures
            r.downloaded == 0,
            r.total == total,
    {
        DownloadProgress { downloaded: 0, total }
    }

    /// Account one received chunk.
    pub fn record_chunk(&mut self, bytes: u64)
        requires
            old(self).downloaded + bytes <= u64::MAX,
        ensures
            final(self).downloaded == old(self).downloaded + bytes,
            final(self).total == old(self).total,
    {
        self.downloaded = self.downloaded + bytes;
    }
}

/// The top-level directory named by a zip entry: the text before its first
/// slash, or the whole name without one.
pub open spec fn spec_zip_root_name(entry: Seq<char>) -> Seq<char> {
    match find_char(entry, '/') {
        Some(i) => entry.take(i),
        None => entry,
    }
}

/// The expected extraction root recorded from a zip archive's first entry.
pub fn zip_root_dir_name(first_entry: &str) -> (r: String)
    ensures
        r@ == spec_zip_root_name(first_entry@),
{
    let n: usize = first_entry.unicode_len();
    match find_char_in(first_entry, '/') {
        Some(i) => {
            proof {
                lemma_find_char_props(first_entry@, '/');
            }
            let r = String::from_str(first_entry.substring_char(0, i));
            proof {
                assert(first_entry@.subrange(0, i as int) =~= first_entry@.take(i as int));
            }
            r
        },
        None => String::from_str(first_entry),
    }
}

/// A directory name that looks like an extracted JDK root.
pub open spec fn spec_jdk_dir_name_matches(n: Seq<char>) -> bool {
    starts_with(n, "jdk"@) || contains_seq(n, "temurin"@) || contains_seq(n, "adoptium"@)
}

/// The first JDK-like name among the extracted directories, if any.
pub open spec fn spec_first_jdk_match(names: Seq<Seq<char>>) -> Option<Seq<char>>
    decreases names.len(),
{
    if names.len() == 0 {
        None
    } else if spec_jdk_dir_name_matches(names[0]) {
        Some(names[0])
    } else {
        spec_first_jdk_match(names.skip(1))
    }
}

/// The extraction root among the directories found after a tar extraction:
/// the first JDK-like name, or the first directory as a fallback.
pub open spec fn spec_pick_jdk_dir(names: Seq<Seq<char>>) -> Option<Seq<char>> {
    match spec_first_jdk_match(names) {
        Some(n) => Some(n),
        None => if names.len() > 0 {
            Some(names[0])
        } else {
            None
        },
    }
}

/// Choose the extraction root among the directories the extraction left.
pub fn pick_jdk_dir(dir_names: &Vec<String>) -> (r: Option<String>)
    ensures
        opt_str_view(r) == spec_pick_jdk_dir(dir_names.deep_view()),
{
    let ghost dv = dir_names.deep_view();
    let mut i: usize = 0;
    proof {
        assert(dv.skip(0) =~= dv);
    }
    while i < dir_names.len()
        invariant
            i <= dir_names@.len(),
            dv == dir_names.deep_view(),
            dv.len() == dir_names@.len(),
            spec_first_jdk_match(dv) == spec_first_jdk_match(dv.skip(i as int)),
        decreases dir_names@.len() - i,
    {
        proof {
            assert(dv.skip(i as int)[0] == dv[i as int]);
            assert(dv.skip(i as int).skip(1) =~= dv.skip(i + 1));
            assert(dv[i as int] == dir_names@[i as int]@);
        }
        let name = &dir_names[i];
        if str_starts_with(name.as_str(), "jdk") || str_contains(name.as_str(), "temurin")
            || str_contains(name.as_str(), "adoptium") {
            return Some(name.clone());
        }
        i = i + 1;
    }
    proof {
        assert(dv.skip(dir_names@.len() as int).len() == 0);
    }
    if dir_names.len() > 0 {
        proof {
            assert(dv[0] == dir_names@[0]@);
        }
        Some(dir_names[0].clone())
    } else {
        None
    }
}

/// The standard location of the java executable under an extracted root.
pub open spec fn spec_java_standard_path(os: Os, jdk_dir: Seq<char>) -> Seq<char> {
    spec_join(os, spec_join(os, jdk_dir, "bin"@), spec_java_exe(os))
}

/// The bundle-style location used by macOS JDK bundles.
pub open spec fn spec_java_bundle_path(jdk_dir: Seq<char>) -> Seq<char> {
    jdk_dir + "/Contents/Home/bin/java"@
}

/// The standard `bin` path to probe under an extracted root.
pub fn java_standard_path(os: Os, jdk_dir: &str) -> (r: String)
    ensures
        r@ == spec_java_standard_path(os, jdk_dir@),
{
    path_join(os, path_join(os, jdk_dir, "bin").as_str(), java_executable_name(os))
}

/// The bundle-style path to probe under an extracted root.
pub fn java_bundle_path(jdk_dir: &str) -> (r: String)
    ensures
        r@ == spec_java_bundle_path(jdk_dir@),
{
    let mut r = String::from_str(jdk_dir);
    r.append("/Contents/Home/bin/java");
    r
}

/// Locate the java executable inside an extracted JDK tree, given which of
/// the two expected locations exist: the standard `bin` location wins; the
/// bundle-style location is consulted only on macOS; otherwise nothing is
/// found.
pub fn find_java_in_extracted(os: Os, jdk_dir: &str, standard_exists: bool, bundle_exists: bool) -> (r:
    Option<String>)
    ensures
        opt_str_view(r) == (if standard_exists {
            Some(spec_java_standard_path(os, jdk_dir@))
        } else if os is MacOs && bundle_exists {
            Some(spec_java_bundle_path(jdk_dir@))
        } else {
            None
        }),
{
    if standard_exists {
        return Some(java_standard_path(os, jdk_dir));
    }
    match os {
        Os::MacOs => {
            if bundle_exists {
                Some(java_bundle_path(jdk_dir))
            } else {
                None
            }
        },
        _ => None,
    }
}

} // verus!

//! Discovery, validation and provisioning decisions for Java runtimes that
//! launch a Minecraft-compatible game client.
//!
//! The crate holds the verified core: version comparison, the game-version to
//! Java-version compatibility table, banner parsing, candidate-path
//! construction, and the decision logic of the installation manager. All
//! filesystem, subprocess and network work is done by the surrounding
//! application, which hands plain values in and takes plain values back.

pub mod text;
pub mod versions;
pub mod compat;
pub mod probe;
pub mod candidates;
pub mod discover;
pub mod adoptium;
pub mod managed;

pub use adoptium::{
    adoptium_url, build_adoptium_release, find_java_in_extracted, get_adoptium_arch,
    get_adoptium_os, get_archive_extension, java_bundle_path, java_standard_path, pick_jdk_dir,
    zip_root_dir_name, AdoptiumError, AdoptiumRelease, BinaryDoc, DownloadProgress, PackageDoc,
    ReleaseDoc, VersionDoc,
};
pub use candidates::{
    collect_common_candidates, collect_java_candidates, collect_linux_candidates,
    collect_macos_candidates, collect_windows_candidates, java_executable_name, linux_jvm_dirs,
    path_join, windows_program_files_roots, windows_vendor_dirs, Arch, CommonSnapshot, DirListing,
    HomebrewEntry, LinuxSnapshot, MacSnapshot, Os, SystemSnapshot,
};
pub use compat::{get_required_java_version, is_java_compatible, mc_java_requirements,
    JavaRequirement};
pub use discover::{dedup_paths, detect_installations, find_compatible_java, ProbedCandidate};
pub use managed::{
    get_managed_java, is_managed_dir_name, list_managed_runtimes, managed_runtime_dir_name,
    ManagedCandidate,
};
pub use probe::{
    detect_architecture, detect_vendor, extract_version_string, parse_java_version_output,
    validate_and_create_installation, validate_java_path, JavaInstallation, JavaValidation,
    JavaVersionInfo, ProbeOutcome,
};
pub use versions::{compare_mc_versions, is_snapshot_version, parse_major_version};

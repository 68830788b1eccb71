//! Core of a per-project tool manager: manifest, registry resolution,
//! lockfile synchronisation, archive cache and the install protocol.
pub mod text;
pub mod util;
pub mod toml;
pub mod registry;
pub mod lock;
pub mod global;
pub mod integrity;
pub mod locate;
pub mod shims;
pub mod installer;

pub use crate::global::cache::{archive_file_name, entries_to_evict, get_cached_archive, is_cached};
pub use crate::installer::{
    archive_kind, install_packages, uninstall_package, uninstall_targets, ArchiveKind, InstallAction, InstallError,
    InstallEvent, InstallSession, Phase,
};
pub use crate::integrity::{archive_hash, hash_matches};
pub use crate::locate::{pick_binary, select_binary, FileEntry};
pub use crate::lock::{get_locked, is_locked, FrateLock, LockedPackage};
pub use crate::registry::{
    filter_versions, registry_document_url, resolve_dependency, RegistryTool, ReleaseInfo, ResolveError,
    ResolvedDependency,
};
pub use crate::shims::{shim_path, windows_shim_script};
pub use crate::toml::{Dependencies, FrateToml, ManifestError, Project};
pub use crate::util::{
    convert_url_to_api_url, current_target_triple, expand_version, extract_name_at_version,
    format_hash, get_frate_bin_dir, get_frate_dir, get_frate_lock_file, get_frate_shims_dir,
    get_frate_toml, is_executable, is_valid_version, Host,
};

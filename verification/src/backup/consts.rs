//! Names and versions of the storage layout.
use vstd::prelude::*;

verus! {

pub const ENV_SOURCETRAIT_BACKUP_HOME: &'static str = "BACKUP_HOME";
pub const BACKUP_ARCHIVE_DIRNAME: &'static str = "archive";
pub const TAR_XZ_EXTENSION: &'static str = "tar.xz";
pub const SHA256_EXTENSION: &'static str = "sha256";
pub const SOURCETRAIT_BACKUP: &'static str = "backup";
pub const HOME_CONFIG_DIR: &'static str = ".config/sourcetrait/backup";
pub const SOURCETRAIT_BACKUP_CONFIG_FILENAME: &'static str = "backup.toml";
pub const BACKUP_FULL_DIRNAME: &'static str = "full";
pub const BACKUP_INCREMENTAL_DIRNAME: &'static str = "incremental";
pub const BACKUP_LOGS_DIRNAME: &'static str = "logs";
pub const SOURCETRAIT_BACKUP_FS_VERSION_FILENAME: &'static str = ".backup_fs_version";
pub const CFG_BACKUP_STORAGE_DIR: &'static str = "backup_storage_dir";
pub const GROUP_BACKUP_USERNAME: &'static str = "bakusr";

/// The group of backup users of the earlier storage layout: when it exists,
/// root administers the storage.
pub const GROUP_BAK8USR: &'static str = "bak8usr";

/// The version of the storage layout that this library writes: 1.0.0.
pub const FS_VERSION_MAJOR: u64 = 1;
pub const FS_VERSION_MINOR: u64 = 0;
pub const FS_VERSION_PATCH: u64 = 0;

/// The text of the layout version, as written to the version file.
pub const SOURCETRAIT_BACKUP_FS_VERSION_TEXT: &'static str = "1.0.0";

/// The requirement that a layout version must meet to be read: `^1`.
pub const SOURCETRAIT_BACKUP_FS_VERSION_REQ: &'static str = "^1";

} // verus!

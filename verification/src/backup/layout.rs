//! The storage layout: where each kind of backup, archive, log and
//! configuration file lives.
//!
//! ```text
//! STORAGE/{full,incremental,archive}/USER/HOST/YYYY/MM/DD/RUN
//! STORAGE/logs/RUN
//! STORAGE/.backup_fs_version
//! HOME/.config/sourcetrait/backup/backup.toml
//! ```
use vstd::prelude::*;
use crate::backup::consts::{
    BACKUP_ARCHIVE_DIRNAME, BACKUP_FULL_DIRNAME, BACKUP_INCREMENTAL_DIRNAME, BACKUP_LOGS_DIRNAME,
    HOME_CONFIG_DIR, SHA256_EXTENSION, SOURCETRAIT_BACKUP_CONFIG_FILENAME,
    SOURCETRAIT_BACKUP_FS_VERSION_FILENAME, TAR_XZ_EXTENSION,
};
use crate::backup::date::{two_digits, year_text, RunDate};
use crate::backup::remote::Remote;
use crate::command::string_views;
use crate::path::{extension, join, join_str, with_extension};

verus! {

/// The kind of a backup.
#[derive(Debug, Clone, Copy, PartialEq, Eq, Structural)]
pub enum BackupType {
    Full,
    Incremental,
}

/// The directory that holds backups of a kind.
pub open spec fn subdir_text(t: BackupType) -> Seq<char> {
    match t {
        BackupType::Full => BACKUP_FULL_DIRNAME@,
        BackupType::Incremental => BACKUP_INCREMENTAL_DIRNAME@,
    }
}

impl BackupType {
    /// The name of the directory that holds backups of this kind.
    pub fn subdir_name(&self) -> (r: &'static str)
        ensures
            r@ == subdir_text(*self),
    {
        match self {
            BackupType::Full => BACKUP_FULL_DIRNAME,
            BackupType::Incremental => BACKUP_INCREMENTAL_DIRNAME,
        }
    }
}

/// The name of one backup run: who made it, on which host, of which
/// catalogue, on which day; `name` is how it is written as a path.
#[derive(Debug)]
pub struct BackupRunName {
    pub hostname: String,
    pub username: String,
    pub catalogue: String,
    pub datetime: RunDate,
    pub name: String,
}

/// Two run names with the same parts.
pub open spec fn same_run(a: BackupRunName, b: BackupRunName) -> bool {
    &&& a.hostname@ == b.hostname@
    &&& a.username@ == b.username@
    &&& a.catalogue@ == b.catalogue@
    &&& a.datetime == b.datetime
    &&& a.name@ == b.name@
}

impl BackupRunName {
    /// A copy of the run name.
    pub fn duplicate(&self) -> (r: BackupRunName)
        ensures
            same_run(r, *self),
    {
        BackupRunName {
            hostname: self.hostname.clone(),
            username: self.username.clone(),
            catalogue: self.catalogue.clone(),
            datetime: self.datetime,
            name: self.name.clone(),
        }
    }
}

/// The parts of a backup directory's path.
#[derive(Debug)]
pub struct BackupPathParts {
    pub backup_type: BackupType,
    pub hostname: String,
    pub username: String,
    pub catalogue: String,
    pub datetime: Option<RunDate>,
}

impl BackupPathParts {
    pub fn new(
        backup_type: BackupType,
        hostname: &str,
        username: &str,
        catalogue: &str,
        datetime: Option<&RunDate>,
    ) -> (r: Self)
        ensures
            r.backup_type == backup_type,
            r.hostname@ == hostname@,
            r.username@ == username@,
            r.catalogue@ == catalogue@,
            r.datetime == match datetime {
                Some(d) => Some(*d),
                None => None,
            },
    {
        BackupPathParts {
            backup_type,
            hostname: hostname.to_owned(),
            username: username.to_owned(),
            datetime: match datetime {
                Some(d) => Some(*d),
                None => None,
            },
            catalogue: catalogue.to_owned(),
        }
    }

    pub fn from_run(backup_type: BackupType, run_name: &BackupRunName) -> (r: Self)
        ensures
            r.backup_type == backup_type,
            r.hostname@ == run_name.hostname@,
            r.username@ == run_name.username@,
            r.catalogue@ == run_name.catalogue@,
            r.datetime == Some(run_name.datetime),
    {
        BackupPathParts {
            backup_type,
            hostname: run_name.hostname.clone(),
            username: run_name.username.clone(),
            catalogue: run_name.catalogue.clone(),
            datetime: Some(run_name.datetime),
        }
    }
}

/// `base` joined with each part in turn.
pub open spec fn join_all(base: Seq<char>, parts: Seq<Seq<char>>) -> Seq<char>
    decreases parts.len(),
{
    if parts.len() == 0 {
        base
    } else {
        join(join_all(base, parts.drop_last()), parts.last())
    }
}

/// The directories of a date: year, month, day.
pub open spec fn date_parts(d: RunDate) -> Seq<Seq<char>> {
    seq![year_text(d.year as int), two_digits(d.month as int), two_digits(d.day as int)]
}

/// The parts below the storage directory of a run's directory of a kind.
pub open spec fn run_parts(kind: Seq<char>, run: BackupRunName) -> Seq<Seq<char>> {
    seq![kind, run.username@, run.hostname@] + date_parts(run.datetime) + seq![run.name@]
}

/// Where a backup of a kind of a run is stored.
pub open spec fn run_path(storage: Seq<char>, kind: Seq<char>, run: BackupRunName) -> Seq<char> {
    join_all(storage, run_parts(kind, run))
}

/// Where the archive of a run is stored.
pub open spec fn archive_path(storage: Seq<char>, run: BackupRunName) -> Seq<char> {
    with_extension(run_path(storage, BACKUP_ARCHIVE_DIRNAME@, run), TAR_XZ_EXTENSION@)
}

/// Where the log of a run is written.
pub open spec fn log_path(storage: Seq<char>, run: BackupRunName) -> Seq<char> {
    join(join(storage, BACKUP_LOGS_DIRNAME@), run.name@)
}

/// The parts below the storage directory of a backup directory.
pub open spec fn backup_dir_parts(parts: BackupPathParts) -> Seq<Seq<char>> {
    seq![subdir_text(parts.backup_type), parts.username@, parts.hostname@] + match parts.datetime {
        Some(d) => date_parts(d),
        None => Seq::<Seq<char>>::empty(),
    }
}

/// Where the user's configuration file is.
pub open spec fn user_config_path(home: Seq<char>) -> Seq<char> {
    join(join(home, HOME_CONFIG_DIR@), SOURCETRAIT_BACKUP_CONFIG_FILENAME@)
}

/// Where the layout's version file is.
pub open spec fn fs_version_path(storage: Seq<char>) -> Seq<char> {
    join(storage, SOURCETRAIT_BACKUP_FS_VERSION_FILENAME@)
}

/// A path of the storage layout, with what it was made from.
#[derive(Debug)]
pub enum SourceTraitBackupPath {
    StorageDir(String),
    BackupDir { storage_dir: String, path_parts: BackupPathParts, path: String },
    FullBackup { storage_dir: String, run_name: BackupRunName, path: String },
    IncrementalBackup { storage_dir: String, run_name: BackupRunName, path: String },
    Archive { storage_dir: String, run_name: BackupRunName, path: String },
    Log { storage_dir: String, run_name: BackupRunName, path: String },
    UserConfig { home_dir: String, path: String },
    FileSytemVersion { storage_dir: String, path: String },
    RemoteStorageDir { remote: Remote, storage_dir: String },
}

/// The path a value stands for.
pub open spec fn path_of(p: SourceTraitBackupPath) -> Seq<char> {
    match p {
        SourceTraitBackupPath::StorageDir(s) => s@,
        SourceTraitBackupPath::BackupDir { path, .. } => path@,
        SourceTraitBackupPath::FullBackup { path, .. } => path@,
        SourceTraitBackupPath::IncrementalBackup { path, .. } => path@,
        SourceTraitBackupPath::Archive { path, .. } => path@,
        SourceTraitBackupPath::Log { path, .. } => path@,
        SourceTraitBackupPath::UserConfig { path, .. } => path@,
        SourceTraitBackupPath::FileSytemVersion { path, .. } => path@,
        SourceTraitBackupPath::RemoteStorageDir { storage_dir, .. } => storage_dir@,
    }
}

/// Which kind of path a value is.
pub open spec fn kind_of(p: SourceTraitBackupPath) -> nat {
    match p {
        SourceTraitBackupPath::StorageDir(_) => 0,
        SourceTraitBackupPath::BackupDir { .. } => 1,
        SourceTraitBackupPath::FullBackup { .. } => 2,
        SourceTraitBackupPath::IncrementalBackup { .. } => 3,
        SourceTraitBackupPath::Archive { .. } => 4,
        SourceTraitBackupPath::Log { .. } => 5,
        SourceTraitBackupPath::UserConfig { .. } => 6,
        SourceTraitBackupPath::FileSytemVersion { .. } => 7,
        SourceTraitBackupPath::RemoteStorageDir { .. } => 8,
    }
}

/// The run a value was made for, if any.
pub open spec fn run_of(p: SourceTraitBackupPath) -> Option<BackupRunName> {
    match p {
        SourceTraitBackupPath::FullBackup { run_name, .. } => Some(run_name),
        SourceTraitBackupPath::IncrementalBackup { run_name, .. } => Some(run_name),
        SourceTraitBackupPath::Archive { run_name, .. } => Some(run_name),
        SourceTraitBackupPath::Log { run_name, .. } => Some(run_name),
        _ => None,
    }
}

/// `base` joined with each part in turn.
pub fn join_parts(base: &str, parts: &Vec<String>) -> (r: String)
    ensures
        r@ == join_all(base@, string_views(parts@)),
{
    let mut r = base.to_owned();
    let mut i: usize = 0;
    assert(string_views(parts@).take(0) =~= Seq::<Seq<char>>::empty());
    while i < parts.len()
        invariant
            i <= parts.len(),
            r@ == join_all(base@, string_views(parts@).take(i as int)),
        decreases parts.len() - i,
    {
        let ghost t = string_views(parts@).take(i + 1);
        assert(t.drop_last() =~= string_views(parts@).take(i as int));
        assert(t.last() == parts@[i as int]@);
        r = join_str(r.as_str(), parts[i].as_str());
        i += 1;
    }
    assert(string_views(parts@).take(parts.len() as int) =~= string_views(parts@));
    r
}

/// The parts below the storage directory of a run's directory of a kind.
fn run_parts_of(kind: &str, run_name: &BackupRunName) -> (r: Vec<String>)
    requires
        run_name.datetime.valid(),
    ensures
        string_views(r@) == run_parts(kind@, *run_name),
{
    let mut v: Vec<String> = Vec::new();
    v.push(kind.to_owned());
    v.push(run_name.username.clone());
    v.push(run_name.hostname.clone());
    v.push(run_name.datetime.year_dirname());
    v.push(run_name.datetime.month_dirname());
    v.push(run_name.datetime.day_dirname());
    v.push(run_name.name.clone());
    assert(string_views(v@) =~= run_parts(kind@, *run_name));
    v
}

impl SourceTraitBackupPath {
    /// The storage directory.
    pub fn storage_dir(storage_dir: &str) -> (r: Self)
        ensures
            r matches SourceTraitBackupPath::StorageDir(s) && s@ == storage_dir@,
    {
        SourceTraitBackupPath::StorageDir(storage_dir.to_owned())
    }

    /// The directory of the full backup of a run.
    pub fn full_backup(storage_dir: &str, run_name: &BackupRunName) -> (r: Self)
        requires
            run_name.datetime.valid(),
        ensures
            r matches SourceTraitBackupPath::FullBackup { storage_dir: s, run_name: n, path } && s@
                == storage_dir@ && same_run(n, *run_name) && path@ == run_path(
                storage_dir@,
                BACKUP_FULL_DIRNAME@,
                *run_name,
            ),
    {
        let parts = run_parts_of(BACKUP_FULL_DIRNAME, run_name);
        SourceTraitBackupPath::FullBackup {
            storage_dir: storage_dir.to_owned(),
            path: join_parts(storage_dir, &parts),
            run_name: run_name.duplicate(),
        }
    }

    /// The directory of the incremental backup of a run.
    pub fn incremental_backup(storage_dir: &str, run_name: &BackupRunName) -> (r: Self)
        requires
            run_name.datetime.valid(),
        ensures
            r matches SourceTraitBackupPath::IncrementalBackup { storage_dir: s, run_name: n, path } && s@
                == storage_dir@ && same_run(n, *run_name) && path@ == run_path(
                storage_dir@,
                BACKUP_INCREMENTAL_DIRNAME@,
                *run_name,
            ),
    {
        let parts = run_parts_of(BACKUP_INCREMENTAL_DIRNAME, run_name);
        SourceTraitBackupPath::IncrementalBackup {
            storage_dir: storage_dir.to_owned(),
            path: join_parts(storage_dir, &parts),
            run_name: run_name.duplicate(),
        }
    }

    /// The directory of the backup of a kind of a run.
    pub fn backup(storage_dir: &str, backup_type: BackupType, run_name: &BackupRunName) -> (r: Self)
        requires
            run_name.datetime.valid(),
        ensures
            backup_type == BackupType::Full ==> (r matches SourceTraitBackupPath::FullBackup {
                storage_dir: s,
                run_name: n,
                path,
            } && s@ == storage_dir@ && same_run(n, *run_name) && path@ == run_path(
                storage_dir@,
                BACKUP_FULL_DIRNAME@,
                *run_name,
            )),
            backup_type == BackupType::Incremental ==> (r matches SourceTraitBackupPath::IncrementalBackup {
                storage_dir: s,
                run_name: n,
                path,
            } && s@ == storage_dir@ && same_run(n, *run_name) && path@ == run_path(
                storage_dir@,
                BACKUP_INCREMENTAL_DIRNAME@,
                *run_name,
            )),
    {
        match backup_type {
            BackupType::Full => Self::full_backup(storage_dir, run_name),
            BackupType::Incremental => Self::incremental_backup(storage_dir, run_name),
        }
    }

    /// The directory that holds backups of the given parts.
    pub fn backup_dir(storage_dir: &str, path_parts: BackupPathParts) -> (r: Self)
        requires
            path_parts.datetime matches Some(d) ==> d.valid(),
        ensures
            r matches SourceTraitBackupPath::BackupDir { storage_dir: s, path_parts: pp, path } && s@
                == storage_dir@ && pp == path_parts && path@ == join_all(
                storage_dir@,
                backup_dir_parts(path_parts),
            ),
    {
        let mut v: Vec<String> = Vec::new();
        v.push(path_parts.backup_type.subdir_name().to_owned());
        v.push(path_parts.username.clone());
        v.push(path_parts.hostname.clone());
        match &path_parts.datetime {
            Some(d) => {
                v.push(d.year_dirname());
                v.push(d.month_dirname());
                v.push(d.day_dirname());
            },
            None => {},
        }
        assert(string_views(v@) =~= backup_dir_parts(path_parts));
        let path = join_parts(storage_dir, &v);
        SourceTraitBackupPath::BackupDir { storage_dir: storage_dir.to_owned(), path, path_parts }
    }

    /// The archive file of a run.
    pub fn archive(storage_dir: &str, run_name: &BackupRunName) -> (r: Self)
        requires
            run_name.datetime.valid(),
        ensures
            r matches SourceTraitBackupPath::Archive { storage_dir: s, run_name: n, path } && s@
                == storage_dir@ && same_run(n, *run_name) && path@ == archive_path(storage_dir@, *run_name),
    {
        let parts = run_parts_of(BACKUP_ARCHIVE_DIRNAME, run_name);
        let dir = join_parts(storage_dir, &parts);
        let dc = crate::text::chars_of(dir.as_str());
        let ext = crate::text::chars_of(TAR_XZ_EXTENSION);
        let p = crate::path::with_extension_chars(&dc, &ext);
        SourceTraitBackupPath::Archive {
            storage_dir: storage_dir.to_owned(),
            path: crate::text::string_of(&p),
            run_name: run_name.duplicate(),
        }
    }

    /// The log file of a run.
    pub fn log(storage_dir: &str, run_name: &BackupRunName) -> (r: Self)
        ensures
            r matches SourceTraitBackupPath::Log { storage_dir: s, run_name: n, path } && s@ == storage_dir@
                && same_run(n, *run_name) && path@ == log_path(storage_dir@, *run_name),
    {
        let logs = join_str(storage_dir, BACKUP_LOGS_DIRNAME);
        SourceTraitBackupPath::Log {
            storage_dir: storage_dir.to_owned(),
            path: join_str(logs.as_str(), run_name.name.as_str()),
            run_name: run_name.duplicate(),
        }
    }

    /// The user's configuration file.
    pub fn user_config(home_dir: &str) -> (r: Self)
        ensures
            r matches SourceTraitBackupPath::UserConfig { home_dir: h, path } && h@ == home_dir@ && path@
                == user_config_path(home_dir@),
    {
        let dir = join_str(home_dir, HOME_CONFIG_DIR);
        SourceTraitBackupPath::UserConfig {
            home_dir: home_dir.to_owned(),
            path: join_str(dir.as_str(), SOURCETRAIT_BACKUP_CONFIG_FILENAME),
        }
    }

    /// The layout's version file.
    pub fn fs_version(storage_dir: &str) -> (r: Self)
        ensures
            r matches SourceTraitBackupPath::FileSytemVersion { storage_dir: s, path } && s@ == storage_dir@
                && path@ == fs_version_path(storage_dir@),
    {
        SourceTraitBackupPath::FileSytemVersion {
            storage_dir: storage_dir.to_owned(),
            path: join_str(storage_dir, SOURCETRAIT_BACKUP_FS_VERSION_FILENAME),
        }
    }

    /// The directory of the storage that holds this kind of run, for a
    /// backup of a run or an archive.
    pub fn storage_subdir(&self) -> (r: Option<String>)
        ensures
            match *self {
                SourceTraitBackupPath::FullBackup { storage_dir, .. } => (r matches Some(p) && p@ == join(
                    storage_dir@,
                    BACKUP_FULL_DIRNAME@,
                )),
                SourceTraitBackupPath::IncrementalBackup { storage_dir, .. } => (r matches Some(p) && p@
                    == join(storage_dir@, BACKUP_INCREMENTAL_DIRNAME@)),
                SourceTraitBackupPath::Archive { storage_dir, .. } => (r matches Some(p) && p@ == join(
                    storage_dir@,
                    BACKUP_ARCHIVE_DIRNAME@,
                )),
                _ => r.is_none(),
            },
    {
        match self {
            SourceTraitBackupPath::FullBackup { storage_dir, .. } => Some(
                join_str(storage_dir.as_str(), BACKUP_FULL_DIRNAME),
            ),
            SourceTraitBackupPath::IncrementalBackup { storage_dir, .. } => Some(
                join_str(storage_dir.as_str(), BACKUP_INCREMENTAL_DIRNAME),
            ),
            SourceTraitBackupPath::Archive { storage_dir, .. } => Some(
                join_str(storage_dir.as_str(), BACKUP_ARCHIVE_DIRNAME),
            ),
            _ => None,
        }
    }

    /// The run this path was made for, if any.
    pub fn backup_run_name(&self) -> (r: Option<&BackupRunName>)
        ensures
            match run_of(*self) {
                Some(n) => (r matches Some(x) && *x == n),
                None => r.is_none(),
            },
    {
        match self {
            SourceTraitBackupPath::FullBackup { run_name, .. } => Some(run_name),
            SourceTraitBackupPath::IncrementalBackup { run_name, .. } => Some(run_name),
            SourceTraitBackupPath::Archive { run_name, .. } => Some(run_name),
            SourceTraitBackupPath::Log { run_name, .. } => Some(run_name),
            _ => None,
        }
    }

    /// The path.
    pub fn as_path(&self) -> (r: &str)
        ensures
            r@ == path_of(*self),
    {
        match self {
            SourceTraitBackupPath::StorageDir(storage_dir) => storage_dir.as_str(),
            SourceTraitBackupPath::BackupDir { path, .. } => path.as_str(),
            SourceTraitBackupPath::FullBackup { path, .. } => path.as_str(),
            SourceTraitBackupPath::IncrementalBackup { path, .. } => path.as_str(),
            SourceTraitBackupPath::Archive { path, .. } => path.as_str(),
            SourceTraitBackupPath::Log { path, .. } => path.as_str(),
            SourceTraitBackupPath::UserConfig { path, .. } => path.as_str(),
            SourceTraitBackupPath::FileSytemVersion { path, .. } => path.as_str(),
            SourceTraitBackupPath::RemoteStorageDir { storage_dir, .. } => storage_dir.as_str(),
        }
    }

    /// A copy of the value.
    pub fn duplicate(&self) -> (r: Self)
        ensures
            path_of(r) == path_of(*self),
            kind_of(r) == kind_of(*self),
            run_of(*self) matches Some(a) ==> (run_of(r) matches Some(b) && same_run(a, b)),
    {
        match self {
            SourceTraitBackupPath::StorageDir(s) => SourceTraitBackupPath::StorageDir(s.clone()),
            SourceTraitBackupPath::BackupDir { storage_dir, path_parts, path } => SourceTraitBackupPath::BackupDir {
                storage_dir: storage_dir.clone(),
                path_parts: BackupPathParts {
                    backup_type: path_parts.backup_type,
                    hostname: path_parts.hostname.clone(),
                    username: path_parts.username.clone(),
                    catalogue: path_parts.catalogue.clone(),
                    datetime: path_parts.datetime,
                },
                path: path.clone(),
            },
            SourceTraitBackupPath::FullBackup { storage_dir, run_name, path } => SourceTraitBackupPath::FullBackup {
                storage_dir: storage_dir.clone(),
                run_name: run_name.duplicate(),
                path: path.clone(),
            },
            SourceTraitBackupPath::IncrementalBackup {
                storage_dir,
                run_name,
                path,
            } => SourceTraitBackupPath::IncrementalBackup {
                storage_dir: storage_dir.clone(),
                run_name: run_name.duplicate(),
                path: path.clone(),
            },
            SourceTraitBackupPath::Archive { storage_dir, run_name, path } => SourceTraitBackupPath::Archive {
                storage_dir: storage_dir.clone(),
                run_name: run_name.duplicate(),
                path: path.clone(),
            },
            SourceTraitBackupPath::Log { storage_dir, run_name, path } => SourceTraitBackupPath::Log {
                storage_dir: storage_dir.clone(),
                run_name: run_name.duplicate(),
                path: path.clone(),
            },
            SourceTraitBackupPath::UserConfig { home_dir, path } => SourceTraitBackupPath::UserConfig {
                home_dir: home_dir.clone(),
                path: path.clone(),
            },
            SourceTraitBackupPath::FileSytemVersion { storage_dir, path } => SourceTraitBackupPath::FileSytemVersion {
                storage_dir: storage_dir.clone(),
                path: path.clone(),
            },
            SourceTraitBackupPath::RemoteStorageDir { remote, storage_dir } => SourceTraitBackupPath::RemoteStorageDir {
                remote: remote.duplicate(),
                storage_dir: storage_dir.clone(),
            },
        }
    }

    /// The path, owned.
    pub fn to_path_buf(&self) -> (r: String)
        ensures
            r@ == path_of(*self),
    {
        self.as_path().to_owned()
    }
}

/// The paths whose presence shows that a storage directory is set up.
pub fn backup_storage_check_paths(backup_storage_dir: &str) -> (r: Vec<String>)
    ensures
        string_views(r@) == seq![backup_storage_dir@, fs_version_path(backup_storage_dir@)],
{
    let mut v: Vec<String> = Vec::new();
    v.push(backup_storage_dir.to_owned());
    v.push(join_str(backup_storage_dir, SOURCETRAIT_BACKUP_FS_VERSION_FILENAME));
    assert(string_views(v@) =~= seq![backup_storage_dir@, fs_version_path(backup_storage_dir@)]);
    v
}

/// The subdirectories of a storage directory.
pub open spec fn storage_subdirs(s: Seq<char>) -> Seq<Seq<char>> {
    seq![
        join(s, BACKUP_ARCHIVE_DIRNAME@),
        join(s, BACKUP_FULL_DIRNAME@),
        join(s, BACKUP_INCREMENTAL_DIRNAME@),
        join(s, BACKUP_LOGS_DIRNAME@),
    ]
}

/// The storage directory and its subdirectories.
pub fn backup_storage_dirs(backup_storage_dir: &str) -> (r: Vec<String>)
    ensures
        string_views(r@) == seq![backup_storage_dir@] + storage_subdirs(backup_storage_dir@),
{
    let mut v: Vec<String> = Vec::new();
    v.push(backup_storage_dir.to_owned());
    v.push(join_str(backup_storage_dir, BACKUP_ARCHIVE_DIRNAME));
    v.push(join_str(backup_storage_dir, BACKUP_FULL_DIRNAME));
    v.push(join_str(backup_storage_dir, BACKUP_INCREMENTAL_DIRNAME));
    v.push(join_str(backup_storage_dir, BACKUP_LOGS_DIRNAME));
    assert(string_views(v@) =~= seq![backup_storage_dir@] + storage_subdirs(backup_storage_dir@));
    v
}

/// The subdirectories of a storage directory: archive, full, incremental, logs.
pub fn backup_storage_subdirs(backup_storage_dir: &str) -> (r: Vec<String>)
    ensures
        string_views(r@) == storage_subdirs(backup_storage_dir@),
{
    let mut v: Vec<String> = Vec::new();
    v.push(join_str(backup_storage_dir, BACKUP_ARCHIVE_DIRNAME));
    v.push(join_str(backup_storage_dir, BACKUP_FULL_DIRNAME));
    v.push(join_str(backup_storage_dir, BACKUP_INCREMENTAL_DIRNAME));
    v.push(join_str(backup_storage_dir, BACKUP_LOGS_DIRNAME));
    assert(string_views(v@) =~= storage_subdirs(backup_storage_dir@));
    v
}

/// The checksum file of a file: `.sha256` appended to its extension.
pub open spec fn sha256_path(p: Seq<char>) -> Seq<char> {
    with_extension(p, extension(p).unwrap() + seq!['.'] + SHA256_EXTENSION@)
}

/// The path of the checksum file of `filepath`, which must have an extension.
pub fn with_sha256_extension(filepath: &str) -> (r: String)
    requires
        extension(filepath@).is_some(),
    ensures
        r@ == sha256_path(filepath@),
{
    let p = crate::text::chars_of(filepath);
    let e = crate::path::extension_of(&p).unwrap();
    let mut dotted = e;
    dotted.push('.');
    let sha = crate::text::chars_of(SHA256_EXTENSION);
    let full = crate::text::concat(&dotted, &sha);
    assert(full@ =~= extension(filepath@).unwrap() + seq!['.'] + SHA256_EXTENSION@);
    let out = crate::path::with_extension_chars(&p, &full);
    crate::text::string_of(&out)
}

} // verus!

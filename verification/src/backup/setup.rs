//! Setting up the storage layout: the directories a job prepares for its
//! run, the one-time setup of a storage directory, and the setup of a
//! remote's storage directory.
use vstd::prelude::*;
use crate::backup::consts::{
    BACKUP_ARCHIVE_DIRNAME, BACKUP_FULL_DIRNAME, BACKUP_INCREMENTAL_DIRNAME, FS_VERSION_MAJOR, GROUP_BACKUP_USERNAME,
    SOURCETRAIT_BACKUP_FS_VERSION_REQ, SOURCETRAIT_BACKUP_FS_VERSION_TEXT,
};
use crate::backup::date::{two_digits, year_text};
use crate::backup::error::{backup_error_text, some_text, Error};
use crate::backup::layout::{
    backup_storage_check_paths, backup_storage_dirs, backup_storage_subdirs, fs_version_path,
    path_of, storage_subdirs, BackupRunName, SourceTraitBackupPath,
};
use crate::backup::remote::Remote;
use crate::backup::sys::{
    backup_users_id, backup_users_outcome, current_uid, lookup_group_gid, storage_admin_aid,
    storage_admin_outcome, BackupConfig, HomeConfigPlan, E_CREATE_HOME_CONFIG,
    E_CREATE_HOME_CONFIG_DIR,
};
use crate::backup::ssh::{
    each_quoted, ssh_dirs_exist, ssh_file_contents, ssh_make_dirs, ssh_view, ssh_write_file,
    RemoteOutput,
};
use crate::command::{string_views, CommandLine};
use crate::path::{join, join_str, parent};
use crate::text::{dec, trim, trim_str};

verus! {

/// The permissions a path of the layout gets.
#[derive(Debug, Clone, Copy, PartialEq, Eq, Structural)]
pub enum PermissionMode {
    /// `rwxr-x---`
    StorageDir,
    /// `rw-r-----`
    StorageFile,
    /// `rwx------`
    RunDir,
}

pub open spec fn mode_bits(m: PermissionMode) -> u32 {
    match m {
        PermissionMode::StorageDir => 0o750,
        PermissionMode::StorageFile => 0o640,
        PermissionMode::RunDir => 0o700,
    }
}

impl PermissionMode {
    /// The Unix mode bits.
    pub fn unix_mode(&self) -> (r: u32)
        ensures
            r == mode_bits(*self),
    {
        match self {
            PermissionMode::StorageDir => 0o750,
            PermissionMode::StorageFile => 0o640,
            PermissionMode::RunDir => 0o700,
        }
    }
}

/// Who gets to own a path.
#[derive(Debug)]
pub enum Owner {
    /// The current user and its primary group.
    CurrentUser,
    /// The storage administrator and the group of backup users.
    StorageAdmin,
    /// A backup user and its primary group.
    BackupUser(String),
}

/// A directory to make: when `dir` is missing it is created, then `own` is
/// given to `owner` with `mode` (always, when `always_own`). A failure is
/// reported on `dir` with the matching message.
#[derive(Debug)]
pub struct DirStep {
    pub dir: String,
    pub own: String,
    pub owner: Owner,
    pub mode: PermissionMode,
    pub always_own: bool,
    pub create_message: &'static str,
    pub own_message: &'static str,
}

/// The mathematical form of a [`DirStep`].
pub struct DirStepView {
    pub dir: Seq<char>,
    pub own: Seq<char>,
    pub owner: Option<Seq<char>>,
    pub admin: bool,
    pub mode: PermissionMode,
    pub always_own: bool,
    pub create_message: Seq<char>,
    pub own_message: Seq<char>,
}

impl View for DirStep {
    type V = DirStepView;

    open spec fn view(&self) -> DirStepView {
        DirStepView {
            dir: self.dir@,
            own: self.own@,
            owner: match self.owner {
                Owner::BackupUser(u) => Some(u@),
                _ => None,
            },
            admin: self.owner is StorageAdmin,
            mode: self.mode,
            always_own: self.always_own,
            create_message: self.create_message@,
            own_message: self.own_message@,
        }
    }
}

pub open spec fn step_views(v: Seq<DirStep>) -> Seq<DirStepView> {
    Seq::new(v.len(), |i: int| v[i]@)
}

/// A step for a context directory of a run, owned by the current user.
pub open spec fn context_step(
    dir: Seq<char>,
    own: Seq<char>,
    mode: PermissionMode,
    create_message: Seq<char>,
    own_message: Seq<char>,
) -> DirStepView {
    DirStepView {
        dir,
        own,
        owner: None,
        admin: false,
        mode,
        always_own: false,
        create_message,
        own_message,
    }
}

/// The step for the host's directory of a run: it is given to the storage
/// administrator and the group of backup users when that group exists,
/// otherwise to the current user; either way with mode `rwxr-x---`.
pub open spec fn host_step(h: Seq<char>, backup_group_exists: bool) -> DirStepView {
    DirStepView {
        dir: h,
        own: h,
        owner: None,
        admin: backup_group_exists,
        mode: PermissionMode::StorageDir,
        always_own: false,
        create_message: "Failed to create context subdirectory for host"@,
        own_message: "Failed to set ownership for host context subdirectory"@,
    }
}

/// The context directories of a run below the kind's directory `sub`: the
/// user's, the host's, the year's, the month's and the day's, each given
/// to its owner when it is created.
pub open spec fn run_context_steps(
    sub: Seq<char>,
    username: Seq<char>,
    hostname: Seq<char>,
    run: BackupRunName,
    backup_group_exists: bool,
) -> Seq<DirStepView> {
    let u = join(sub, username);
    let h = join(u, hostname);
    let y = join(h, year_text(run.datetime.year as int));
    let m = join(y, two_digits(run.datetime.month as int));
    let d = join(m, two_digits(run.datetime.day as int));
    seq![
        context_step(u, u, PermissionMode::RunDir, "Failed to create context subdirectory for user"@, "Failed to set ownership for user context subdirectory"@),
        host_step(h, backup_group_exists),
        context_step(y, y, PermissionMode::RunDir, "Failed to create context subdirectory for year"@, "Failed to set ownership for year context subdirectory"@),
        context_step(m, m, PermissionMode::RunDir, "Failed to create context subdirectory for month"@, "Failed to set ownership for month context subdirectory"@),
        context_step(d, d, PermissionMode::RunDir, "Failed to create context subdirectory for day"@, "Failed to set ownership for day context subdirectory"@),
    ]
}

/// The storage directory and kind directory of a run path, if it is one.
pub open spec fn run_kind_dir(p: SourceTraitBackupPath) -> Option<(Seq<char>, Seq<char>, BackupRunName)> {
    match p {
        SourceTraitBackupPath::FullBackup { storage_dir, run_name, .. } => Some(
            (storage_dir@, join(storage_dir@, BACKUP_FULL_DIRNAME@), run_name),
        ),
        SourceTraitBackupPath::IncrementalBackup { storage_dir, run_name, .. } => Some(
            (storage_dir@, join(storage_dir@, BACKUP_INCREMENTAL_DIRNAME@), run_name),
        ),
        SourceTraitBackupPath::Archive { storage_dir, run_name, .. } => Some(
            (storage_dir@, join(storage_dir@, BACKUP_ARCHIVE_DIRNAME@), run_name),
        ),
        _ => None,
    }
}

/// The message when the storage directory is missing.
pub const E_STORAGE_DIR_MISSING: &'static str = "Backup storage directory does not exist";

/// What preparing a path needs: when the storage directory is missing, an
/// error on it; when the path exists already, nothing; else the context
/// directories of its run.
pub open spec fn prepare_outcome(
    p: SourceTraitBackupPath,
    storage_dir_exists: bool,
    path_exists: bool,
    username: Seq<char>,
    hostname: Seq<char>,
    backup_group_exists: bool,
    r: Result<Vec<DirStep>, Error>,
) -> bool {
    match p {
        SourceTraitBackupPath::BackupDir { storage_dir, .. } => if !storage_dir_exists {
            r matches Err(Error::FileIO { message, path, cause: None }) && message@ == E_STORAGE_DIR_MISSING@
                && path@ == storage_dir@
        } else {
            r matches Ok(v) && v@.len() == 0
        },
        _ => match run_kind_dir(p) {
            Some((s, sub, run)) => if !storage_dir_exists {
                r matches Err(Error::FileIO { message, path, cause: None }) && message@ == E_STORAGE_DIR_MISSING@
                    && path@ == s
            } else if path_exists {
                r matches Ok(v) && v@.len() == 0
            } else {
                r matches Ok(v) && step_views(v@) == run_context_steps(sub, username, hostname, run, backup_group_exists)
            },
            None => r matches Ok(v) && v@.len() == 0,
        },
    }
}

fn context_step_of(
    dir: &String,
    own: &String,
    mode: PermissionMode,
    create_message: &'static str,
    own_message: &'static str,
) -> (r: DirStep)
    ensures
        r@ == context_step(dir@, own@, mode, create_message@, own_message@),
{
    DirStep {
        dir: dir.clone(),
        own: own.clone(),
        owner: Owner::CurrentUser,
        mode,
        always_own: false,
        create_message,
        own_message,
    }
}

impl SourceTraitBackupPath {
    /// The directories to make before a run writes to this path, given
    /// whether the storage directory and the path exist, the current
    /// user's and host's names, and whether the group of backup users
    /// exists. A backup directory that does not exist yet cannot be prepared.
    pub fn prepare(
        &self,
        storage_dir_exists: bool,
        path_exists: bool,
        username: &str,
        hostname: &str,
        backup_group_exists: bool,
    ) -> (r: Result<Vec<DirStep>, Error>)
        requires
            !(self is BackupDir && storage_dir_exists && !path_exists),
            run_kind_dir(*self) matches Some((_, _, run)) ==> run.datetime.valid(),
        ensures
            prepare_outcome(*self, storage_dir_exists, path_exists, username@, hostname@, backup_group_exists, r),
    {
        match self {
            SourceTraitBackupPath::BackupDir { storage_dir, .. } => {
                if !storage_dir_exists {
                    return Err(Error::file_io_err(storage_dir.as_str(), E_STORAGE_DIR_MISSING));
                }
                Ok(Vec::new())
            },
            SourceTraitBackupPath::FullBackup { storage_dir, run_name, .. }
            | SourceTraitBackupPath::IncrementalBackup { storage_dir, run_name, .. }
            | SourceTraitBackupPath::Archive { storage_dir, run_name, .. } => {
                if !storage_dir_exists {
                    return Err(Error::file_io_err(storage_dir.as_str(), E_STORAGE_DIR_MISSING));
                }
                if path_exists {
                    return Ok(Vec::new());
                }
                let sub = self.storage_subdir().unwrap();
                let u = join_str(sub.as_str(), username);
                let h = join_str(u.as_str(), hostname);
                let y = join_str(h.as_str(), run_name.datetime.year_dirname().as_str());
                let m = join_str(y.as_str(), run_name.datetime.month_dirname().as_str());
                let d = join_str(m.as_str(), run_name.datetime.day_dirname().as_str());
                let mut v: Vec<DirStep> = Vec::new();
                v.push(
                    context_step_of(
                        &u,
                        &u,
                        PermissionMode::RunDir,
                        "Failed to create context subdirectory for user",
                        "Failed to set ownership for user context subdirectory",
                    ),
                );
                v.push(
                    DirStep {
                        dir: h.clone(),
                        own: h.clone(),
                        owner: if backup_group_exists {
                            Owner::StorageAdmin
                        } else {
                            Owner::CurrentUser
                        },
                        mode: PermissionMode::StorageDir,
                        always_own: false,
                        create_message: "Failed to create context subdirectory for host",
                        own_message: "Failed to set ownership for host context subdirectory",
                    },
                );
                v.push(
                    context_step_of(
                        &y,
                        &y,
                        PermissionMode::RunDir,
                        "Failed to create context subdirectory for year",
                        "Failed to set ownership for year context subdirectory",
                    ),
                );
                v.push(
                    context_step_of(
                        &m,
                        &m,
                        PermissionMode::RunDir,
                        "Failed to create context subdirectory for month",
                        "Failed to set ownership for month context subdirectory",
                    ),
                );
                v.push(
                    context_step_of(
                        &d,
                        &d,
                        PermissionMode::RunDir,
                        "Failed to create context subdirectory for day",
                        "Failed to set ownership for day context subdirectory",
                    ),
                );
                let ghost (s0, sub0, run0) = run_kind_dir(*self).unwrap();
                assert(step_views(v@) =~= run_context_steps(sub0, username@, hostname@, run0, backup_group_exists));
                Ok(v)
            },
            _ => Ok(Vec::new()),
        }
    }
}


/// The messages of the first part of a storage directory's setup, which the
/// caller performs: creating the directory, giving it to the storage
/// administrator, and resolving its canonical path.
pub const E_CREATE_STORAGE_DIR: &'static str = "Failed to create backup storage directory";
pub const E_OWN_STORAGE_DIR: &'static str = "Failed to set permissions on backup storage directory";
pub const E_STORAGE_DIR_INACCESSIBLE: &'static str = "Backup storage directory is not accessible";
pub const E_CREATE_STORAGE_SUBDIR: &'static str = "Failed to create backup storage subdirectory";
pub const E_OWN_STORAGE_SUBDIR: &'static str = "Failed to set permissions on backup storage subdirectory";
pub const E_OWN_USER_SUBDIR: &'static str = "Failed to set permissions on user backup storage subdirectory";

/// The directories of a storage directory's setup below its canonical path
/// `c`: each subdirectory, given to the storage administrator, then within
/// it one directory per backup user, given to that user.
pub open spec fn storage_setup_steps(c: Seq<char>, users: Seq<Seq<char>>) -> Seq<DirStepView> {
    storage_subdirs(c).map_values(|sub: Seq<char>| seq![
        DirStepView {
            dir: sub,
            own: sub,
            owner: None,
            admin: true,
            mode: PermissionMode::StorageDir,
            always_own: true,
            create_message: E_CREATE_STORAGE_SUBDIR@,
            own_message: E_OWN_STORAGE_SUBDIR@,
        },
    ] + users.map_values(|u: Seq<char>| DirStepView {
        dir: join(sub, u),
        own: join(sub, u),
        owner: Some(u),
        admin: false,
        mode: PermissionMode::StorageDir,
        always_own: true,
        create_message: E_CREATE_STORAGE_SUBDIR@,
        own_message: E_OWN_USER_SUBDIR@,
    })).flatten()
}

/// The steps for one subdirectory and its users' directories.
fn subdir_steps(sub: &String, users: &Vec<String>) -> (r: Vec<DirStep>)
    ensures
        step_views(r@) == seq![
            DirStepView {
                dir: sub@,
                own: sub@,
                owner: None,
                admin: true,
                mode: PermissionMode::StorageDir,
                always_own: true,
                create_message: E_CREATE_STORAGE_SUBDIR@,
                own_message: E_OWN_STORAGE_SUBDIR@,
            },
        ] + string_views(users@).map_values(|u: Seq<char>| DirStepView {
            dir: join(sub@, u),
            own: join(sub@, u),
            owner: Some(u),
            admin: false,
            mode: PermissionMode::StorageDir,
            always_own: true,
            create_message: E_CREATE_STORAGE_SUBDIR@,
            own_message: E_OWN_USER_SUBDIR@,
        }),
{
    let ghost us = string_views(users@).map_values(|u: Seq<char>| DirStepView {
        dir: join(sub@, u),
        own: join(sub@, u),
        owner: Some(u),
        admin: false,
        mode: PermissionMode::StorageDir,
        always_own: true,
        create_message: E_CREATE_STORAGE_SUBDIR@,
        own_message: E_OWN_USER_SUBDIR@,
    });
    let ghost head = seq![
        DirStepView {
            dir: sub@,
            own: sub@,
            owner: None,
            admin: true,
            mode: PermissionMode::StorageDir,
            always_own: true,
            create_message: E_CREATE_STORAGE_SUBDIR@,
            own_message: E_OWN_STORAGE_SUBDIR@,
        },
    ];
    let mut r: Vec<DirStep> = Vec::new();
    r.push(
        DirStep {
            dir: sub.clone(),
            own: sub.clone(),
            owner: Owner::StorageAdmin,
            mode: PermissionMode::StorageDir,
            always_own: true,
            create_message: E_CREATE_STORAGE_SUBDIR,
            own_message: E_OWN_STORAGE_SUBDIR,
        },
    );
    assert(step_views(r@) =~= head + us.take(0));
    let mut i: usize = 0;
    while i < users.len()
        invariant
            i <= users.len(),
            us.len() == users@.len(),
            forall|j: int| 0 <= j < us.len() ==> #[trigger] us[j] == (DirStepView {
                dir: join(sub@, users@[j]@),
                own: join(sub@, users@[j]@),
                owner: Some(users@[j]@),
                admin: false,
                mode: PermissionMode::StorageDir,
                always_own: true,
                create_message: E_CREATE_STORAGE_SUBDIR@,
                own_message: E_OWN_USER_SUBDIR@,
            }),
            step_views(r@) == head + us.take(i as int),
        decreases users.len() - i,
    {
        let d = join_str(sub.as_str(), users[i].as_str());
        let ghost before = step_views(r@);
        r.push(
            DirStep {
                dir: d.clone(),
                own: d,
                owner: Owner::BackupUser(users[i].clone()),
                mode: PermissionMode::StorageDir,
                always_own: true,
                create_message: E_CREATE_STORAGE_SUBDIR,
                own_message: E_OWN_USER_SUBDIR,
            },
        );
        assert(step_views(r@) =~= before.push(us[i as int]));
        assert(us.take(i + 1) =~= us.take(i as int).push(us[i as int]));
        i += 1;
    }
    assert(us.take(users.len() as int) =~= us);
    r
}

/// The directories to make in the setup of a storage directory whose
/// canonical path is `canonical_dir`, for the given backup users. After
/// them, the version file of `canonical_dir` is set up.
pub fn storage_dir_setup_steps(canonical_dir: &str, backup_users: &Vec<String>) -> (r: Vec<DirStep>)
    ensures
        step_views(r@) == storage_setup_steps(canonical_dir@, string_views(backup_users@)),
{
    let subs = backup_storage_subdirs(canonical_dir);
    let ghost per = storage_subdirs(canonical_dir@).map_values(|sub: Seq<char>| seq![
        DirStepView {
            dir: sub,
            own: sub,
            owner: None,
            admin: true,
            mode: PermissionMode::StorageDir,
            always_own: true,
            create_message: E_CREATE_STORAGE_SUBDIR@,
            own_message: E_OWN_STORAGE_SUBDIR@,
        },
    ] + string_views(backup_users@).map_values(|u: Seq<char>| DirStepView {
        dir: join(sub, u),
        own: join(sub, u),
        owner: Some(u),
        admin: false,
        mode: PermissionMode::StorageDir,
        always_own: true,
        create_message: E_CREATE_STORAGE_SUBDIR@,
        own_message: E_OWN_USER_SUBDIR@,
    }));
    let mut r: Vec<DirStep> = Vec::new();
    let mut i: usize = 0;
    assert(per.take(0).flatten() =~= Seq::<DirStepView>::empty()) by {
        assert(per.take(0) =~= Seq::<Seq<DirStepView>>::empty());
    }
    while i < subs.len()
        invariant
            i <= subs.len(),
            string_views(subs@) == storage_subdirs(canonical_dir@),
            per.len() == subs@.len(),
            forall|j: int| 0 <= j < per.len() ==> #[trigger] per[j] == seq![
                DirStepView {
                    dir: subs@[j]@,
                    own: subs@[j]@,
                    owner: None,
                    admin: true,
                    mode: PermissionMode::StorageDir,
                    always_own: true,
                    create_message: E_CREATE_STORAGE_SUBDIR@,
                    own_message: E_OWN_STORAGE_SUBDIR@,
                },
            ] + string_views(backup_users@).map_values(|u: Seq<char>| DirStepView {
                dir: join(subs@[j]@, u),
                own: join(subs@[j]@, u),
                owner: Some(u),
                admin: false,
                mode: PermissionMode::StorageDir,
                always_own: true,
                create_message: E_CREATE_STORAGE_SUBDIR@,
                own_message: E_OWN_USER_SUBDIR@,
            }),
            step_views(r@) == per.take(i as int).flatten(),
        decreases subs.len() - i,
    {
        let part = subdir_steps(&subs[i], backup_users);
        let ghost before = step_views(r@);
        let mut k: usize = 0;
        while k < part.len()
            invariant
                k <= part.len(),
                step_views(r@) == before + step_views(part@).take(k as int),
            decreases part.len() - k,
        {
            let st = &part[k];
            let ghost b2 = step_views(r@);
            r.push(
                DirStep {
                    dir: st.dir.clone(),
                    own: st.own.clone(),
                    owner: match &st.owner {
                        Owner::CurrentUser => Owner::CurrentUser,
                        Owner::StorageAdmin => Owner::StorageAdmin,
                        Owner::BackupUser(u) => Owner::BackupUser(u.clone()),
                    },
                    mode: st.mode,
                    always_own: st.always_own,
                    create_message: st.create_message,
                    own_message: st.own_message,
                },
            );
            assert(step_views(r@) =~= b2.push(part@[k as int]@));
            assert(step_views(part@).take(k + 1) =~= step_views(part@).take(k as int).push(part@[k as int]@));
            k += 1;
        }
        assert(step_views(part@).take(part.len() as int) =~= step_views(part@));
        assert(step_views(part@) == per[i as int]);
        proof {
            let t = per.take(i + 1);
            assert(t.drop_last() =~= per.take(i as int));
            per.take(i as int).lemma_flatten_push(per[i as int]);
            assert(per.take(i as int).push(per[i as int]) =~= t);
        }
        i += 1;
    }
    assert(per.take(subs.len() as int) =~= per);
    r
}


/// A file to write when it is missing, then give to an owner.
#[derive(Debug)]
pub struct FileStep {
    pub path: String,
    pub contents: String,
    pub owner: Owner,
    pub mode: PermissionMode,
    pub write_message: &'static str,
    pub own_message: &'static str,
}

pub const E_CREATE_FS_VERSION: &'static str = "Failed to create file system version file";
pub const E_OWN_FS_VERSION: &'static str = "Failed to set permissions on file system version file";
pub const E_USER_CONFIG_DIR: &'static str = "Unable to determine user config directory";
pub const E_CREATE_USER_CONFIG_DIR: &'static str = "Failed to create user config directory";
pub const E_CREATE_USER_CONFIG: &'static str = "Failed to create default user config file";

/// One change to the file system that a setup step makes.
#[derive(Debug)]
pub enum FsOp {
    /// Create a directory (with its missing parents, when `parents`).
    CreateDir { path: String, parents: bool, message: &'static str },
    /// Give a path to an owner, with a mode.
    Own { path: String, owner: Owner, mode: PermissionMode, message: &'static str },
    /// Write a file.
    Write { path: String, contents: String, message: &'static str },
}

/// The mathematical form of an [`FsOp`]; an owner is a backup user's name,
/// the storage administrator (`admin`) or else the current user.
pub enum FsOpView {
    CreateDir { path: Seq<char>, parents: bool, message: Seq<char> },
    Own { path: Seq<char>, owner: Option<Seq<char>>, admin: bool, mode: PermissionMode, message: Seq<char> },
    Write { path: Seq<char>, contents: Seq<char>, message: Seq<char> },
}

pub open spec fn owner_name(o: Owner) -> Option<Seq<char>> {
    match o {
        Owner::BackupUser(u) => Some(u@),
        _ => None,
    }
}

impl View for FsOp {
    type V = FsOpView;

    open spec fn view(&self) -> FsOpView {
        match self {
            FsOp::CreateDir { path, parents, message } => FsOpView::CreateDir { path: path@, parents: *parents, message: message@ },
            FsOp::Own { path, owner, mode, message } => FsOpView::Own {
                path: path@,
                owner: owner_name(*owner),
                admin: *owner is StorageAdmin,
                mode: *mode,
                message: message@,
            },
            FsOp::Write { path, contents, message } => FsOpView::Write { path: path@, contents: contents@, message: message@ },
        }
    }
}

pub open spec fn fs_op_views(v: Seq<FsOp>) -> Seq<FsOpView> {
    Seq::new(v.len(), |i: int| v[i]@)
}

/// What a directory step changes: a missing directory is created and then
/// given to its owner; an existing one is given to its owner again only
/// when the step always owns, and is otherwise left alone.
pub open spec fn dir_step_ops(s: DirStepView, exists: bool) -> Seq<FsOpView> {
    let own = FsOpView::Own { path: s.own, owner: s.owner, admin: s.admin, mode: s.mode, message: s.own_message };
    if !exists {
        seq![FsOpView::CreateDir { path: s.dir, parents: false, message: s.create_message }, own]
    } else if s.always_own {
        seq![own]
    } else {
        Seq::<FsOpView>::empty()
    }
}

/// What a file step changes: a missing file is written and then given to
/// its owner; an existing file is left alone.
pub open spec fn file_step_ops(f: FileStep, exists: bool) -> Seq<FsOpView> {
    if exists {
        Seq::<FsOpView>::empty()
    } else {
        seq![
            FsOpView::Write { path: f.path@, contents: f.contents@, message: f.write_message@ },
            FsOpView::Own {
                path: f.path@,
                owner: owner_name(f.owner),
                admin: f.owner is StorageAdmin,
                mode: f.mode,
                message: f.own_message@,
            },
        ]
    }
}

/// What the first part of a storage directory's setup changes: a missing
/// storage directory is created with its parents and given to the storage
/// administrator and the group of backup users with mode `rwxr-x---`; an
/// existing one is left alone.
pub open spec fn storage_dir_ops_spec(path: Seq<char>, exists: bool) -> Seq<FsOpView> {
    if exists {
        Seq::<FsOpView>::empty()
    } else {
        seq![
            FsOpView::CreateDir { path, parents: true, message: E_CREATE_STORAGE_DIR@ },
            FsOpView::Own { path, owner: None, admin: true, mode: PermissionMode::StorageDir, message: E_OWN_STORAGE_DIR@ },
        ]
    }
}

fn copy_owner(o: &Owner) -> (r: Owner)
    ensures
        r == *o,
{
    match o {
        Owner::CurrentUser => Owner::CurrentUser,
        Owner::StorageAdmin => Owner::StorageAdmin,
        Owner::BackupUser(u) => Owner::BackupUser(u.clone()),
    }
}

impl DirStep {
    /// The changes this step makes, given whether its directory exists.
    pub fn ops(&self, exists: bool) -> (r: Vec<FsOp>)
        ensures
            fs_op_views(r@) == dir_step_ops(self@, exists),
    {
        let own = FsOp::Own { path: self.own.clone(), owner: copy_owner(&self.owner), mode: self.mode, message: self.own_message };
        let mut r: Vec<FsOp> = Vec::new();
        if !exists {
            r.push(FsOp::CreateDir { path: self.dir.clone(), parents: false, message: self.create_message });
            r.push(own);
        } else if self.always_own {
            r.push(own);
        }
        assert(fs_op_views(r@) =~= dir_step_ops(self@, exists));
        r
    }
}

impl FileStep {
    /// The changes this step makes, given whether its file exists.
    pub fn ops(&self, exists: bool) -> (r: Vec<FsOp>)
        ensures
            fs_op_views(r@) == file_step_ops(*self, exists),
    {
        let mut r: Vec<FsOp> = Vec::new();
        if !exists {
            r.push(FsOp::Write { path: self.path.clone(), contents: self.contents.clone(), message: self.write_message });
            r.push(FsOp::Own { path: self.path.clone(), owner: copy_owner(&self.owner), mode: self.mode, message: self.own_message });
        }
        assert(fs_op_views(r@) =~= file_step_ops(*self, exists));
        r
    }
}

/// The changes of the first part of a storage directory's setup, given
/// whether the directory exists.
pub fn storage_dir_ops(path: &str, exists: bool) -> (r: Vec<FsOp>)
    ensures
        fs_op_views(r@) == storage_dir_ops_spec(path@, exists),
{
    let mut r: Vec<FsOp> = Vec::new();
    if !exists {
        r.push(FsOp::CreateDir { path: path.to_owned(), parents: true, message: E_CREATE_STORAGE_DIR });
        r.push(FsOp::Own { path: path.to_owned(), owner: Owner::StorageAdmin, mode: PermissionMode::StorageDir, message: E_OWN_STORAGE_DIR });
    }
    assert(fs_op_views(r@) =~= storage_dir_ops_spec(path@, exists));
    r
}

impl SourceTraitBackupPath {
    /// The changes that set up the user's configuration file, given whether
    /// it exists and the default configuration text: an existing file is
    /// left alone; a missing one gets its directory (with missing parents)
    /// and then the default text; a file without a directory is an error.
    pub fn user_config_ops(&self, exists: bool, defaults: &str) -> (r: Result<Vec<FsOp>, Error>)
        requires
            self is UserConfig,
        ensures
            exists ==> (r matches Ok(v) && v@.len() == 0),
            !exists ==> match parent(path_of(*self)) {
                Some(d) => (r matches Ok(v) && fs_op_views(v@) == seq![
                    FsOpView::CreateDir { path: d, parents: true, message: E_CREATE_USER_CONFIG_DIR@ },
                    FsOpView::Write { path: path_of(*self), contents: defaults@, message: E_CREATE_USER_CONFIG@ },
                ]),
                None => (r matches Err(Error::FileIO { message, path, cause: None }) && message@
                    == E_USER_CONFIG_DIR@ && path@ == path_of(*self)),
            },
    {
        let mut v: Vec<FsOp> = Vec::new();
        if exists {
            return Ok(v);
        }
        let dir = self.user_config_dir()?;
        v.push(FsOp::CreateDir { path: dir, parents: true, message: E_CREATE_USER_CONFIG_DIR });
        v.push(FsOp::Write { path: self.as_path().to_owned(), contents: defaults.to_owned(), message: E_CREATE_USER_CONFIG });
        Ok(v)
    }
}

impl HomeConfigPlan {
    /// The changes of the home configuration's setup, given whether its
    /// directory exists and the default configuration text: the directory is
    /// made (with missing parents) when missing, and the default text is
    /// written only when the plan says so.
    pub fn ops(&self, dir_exists: bool, defaults: &str) -> (r: Vec<FsOp>)
        ensures
            fs_op_views(r@) == (if dir_exists {
                Seq::<FsOpView>::empty()
            } else {
                seq![FsOpView::CreateDir { path: self.dir@, parents: true, message: E_CREATE_HOME_CONFIG_DIR@ }]
            }) + (if self.write {
                seq![FsOpView::Write { path: self.file@, contents: defaults@, message: E_CREATE_HOME_CONFIG@ }]
            } else {
                Seq::<FsOpView>::empty()
            }),
    {
        let mut v: Vec<FsOp> = Vec::new();
        if !dir_exists {
            v.push(FsOp::CreateDir { path: self.dir.clone(), parents: true, message: E_CREATE_HOME_CONFIG_DIR });
        }
        if self.write {
            v.push(FsOp::Write { path: self.file.clone(), contents: defaults.to_owned(), message: E_CREATE_HOME_CONFIG });
        }
        assert(fs_op_views(v@) =~= (if dir_exists {
            Seq::<FsOpView>::empty()
        } else {
            seq![FsOpView::CreateDir { path: self.dir@, parents: true, message: E_CREATE_HOME_CONFIG_DIR@ }]
        }) + (if self.write {
            seq![FsOpView::Write { path: self.file@, contents: defaults@, message: E_CREATE_HOME_CONFIG@ }]
        } else {
            Seq::<FsOpView>::empty()
        }));
        v
    }
}

/// The step that writes the version file `path`.
pub open spec fn is_version_file_step(f: FileStep, path: Seq<char>) -> bool {
    &&& f.path@ == path
    &&& f.contents@ == SOURCETRAIT_BACKUP_FS_VERSION_TEXT@
    &&& f.owner is StorageAdmin
    &&& f.mode == PermissionMode::StorageFile
    &&& f.write_message@ == E_CREATE_FS_VERSION@
    &&& f.own_message@ == E_OWN_FS_VERSION@
}

/// The version file step of a storage directory.
pub open spec fn is_version_step(f: FileStep, storage: Seq<char>) -> bool {
    is_version_file_step(f, fs_version_path(storage))
}

/// The rest of a storage directory's setup once it is resolved to its
/// canonical path `canonical_dir`: the directories of
/// [`storage_dir_setup_steps`] for the given backup users, then the version
/// file of `canonical_dir`.
pub fn storage_layout_setup(canonical_dir: &str, backup_users: &Vec<String>) -> (r: (Vec<DirStep>, FileStep))
    ensures
        step_views(r.0@) == storage_setup_steps(canonical_dir@, string_views(backup_users@)),
        is_version_step(r.1, canonical_dir@),
{
    let steps = storage_dir_setup_steps(canonical_dir, backup_users);
    let v = SourceTraitBackupPath::fs_version(canonical_dir);
    let f = v.fs_version_file_step().unwrap();
    (steps, f)
}

impl SourceTraitBackupPath {
    /// The setup of the layout's version file: when it is missing, the
    /// current version is written to it and it is given to the storage
    /// administrator. Other paths have no such file.
    pub fn fs_version_file_step(&self) -> (r: Option<FileStep>)
        ensures
            self is FileSytemVersion ==> (r matches Some(f) && f.path@ == path_of(*self) && f.contents@
                == SOURCETRAIT_BACKUP_FS_VERSION_TEXT@ && f.owner is StorageAdmin && f.mode
                == PermissionMode::StorageFile && f.write_message@ == E_CREATE_FS_VERSION@ && f.own_message@
                == E_OWN_FS_VERSION@),
            !(self is FileSytemVersion) ==> r.is_none(),
    {
        match self {
            SourceTraitBackupPath::FileSytemVersion { path, .. } => Some(
                FileStep {
                    path: path.clone(),
                    contents: SOURCETRAIT_BACKUP_FS_VERSION_TEXT.to_owned(),
                    owner: Owner::StorageAdmin,
                    mode: PermissionMode::StorageFile,
                    write_message: E_CREATE_FS_VERSION,
                    own_message: E_OWN_FS_VERSION,
                },
            ),
            _ => None,
        }
    }

    /// The directory to make for a missing user configuration file: its
    /// parent; a file without one is an error.
    pub fn user_config_dir(&self) -> (r: Result<String, Error>)
        requires
            self is UserConfig,
        ensures
            parent(path_of(*self)) matches Some(d) ==> (r matches Ok(x) && x@ == d),
            parent(path_of(*self)).is_none() ==> (r matches Err(Error::FileIO { message, path, cause: None })
                && message@ == E_USER_CONFIG_DIR@ && path@ == path_of(*self)),
    {
        let p = crate::text::chars_of(self.as_path());
        match crate::path::parent_of(&p) {
            Some(d) => Ok(crate::text::string_of(&d)),
            None => Err(Error::file_io_err(self.as_path(), E_USER_CONFIG_DIR)),
        }
    }
}

/// The parts of a semantic version.
#[derive(Debug)]
pub struct VersionFields {
    pub major: u64,
    pub minor: u64,
    pub patch: u64,
    pub pre: String,
    pub build: String,
}

/// A character of a semantic version identifier.
pub open spec fn ident_char(c: char) -> bool {
    ('a' <= c && c <= 'z') || ('A' <= c && c <= 'Z') || ('0' <= c && c <= '9') || c == '-'
}

/// Identifiers as a pre-release (`pre`) or build text holds them: empty, or
/// dot-separated non-empty identifiers of letters, digits and `-`; in a
/// pre-release, an identifier of two or more digits does not start with `0`.
pub open spec fn valid_identifiers(s: Seq<char>, pre: bool) -> bool {
    s.len() == 0 || {
        &&& forall|i: int| 0 <= i < s.len() ==> ident_char(#[trigger] s[i]) || s[i] == '.'
        &&& s[0] != '.'
        &&& s.last() != '.'
        &&& forall|i: int| 0 <= i < s.len() - 1 && #[trigger] s[i] == '.' ==> s[i + 1] != '.'
        &&& pre ==> forall|i: int|
            0 <= i < s.len() - 1 && (i == 0 || s[i - 1] == '.') && #[trigger] s[i] == '0' && s[i + 1] != '.'
                ==> exists|j: int| i < j < s.len() && !('0' <= #[trigger] s[j] && s[j] <= '9') && s[j] != '.'
                && forall|k: int| i < k < j ==> s[k] != '.'
    }
}

impl VersionFields {
    /// The fields are those of a semantic version: the pre-release and build
    /// texts are valid identifiers.
    pub open spec fn wf(self) -> bool {
        valid_identifiers(self.pre@, true) && valid_identifiers(self.build@, false)
    }
}

/// What `semver::Version::parse` gives for a text: the version's major,
/// minor and patch numbers, pre-release and build texts; or the message of
/// its error.
pub uninterp spec fn semver_parse(text: Seq<char>) -> Result<(u64, u64, u64, Seq<char>, Seq<char>), Seq<char>>;

/// `semver::Version::parse`, with the version taken apart into its fields
/// and an error into its message. What it accepts is named, not stated; a
/// version it gives has valid pre-release and build identifiers, which its
/// `Prerelease` and `BuildMetadata` types hold by construction.
#[verifier::external_body]
fn parse_version(text: &str) -> (r: Result<VersionFields, String>)
    ensures
        r matches Ok(v) ==> v.wf(),
        match semver_parse(text@) {
            Ok((a, b, c, p, bu)) => (r matches Ok(v) && v.major == a && v.minor == b && v.patch == c && v.pre@
                == p && v.build@ == bu),
            Err(m) => (r matches Err(e) && e@ == m),
        },
{
    match semver::Version::parse(text) {
        Ok(v) => Ok(
            VersionFields {
                major: v.major,
                minor: v.minor,
                patch: v.patch,
                pre: v.pre.as_str().to_owned(),
                build: v.build.as_str().to_owned(),
            },
        ),
        Err(e) => Err(e.to_string()),
    }
}

/// How a version is written: `MAJOR.MINOR.PATCH`, then `-PRE` and `+BUILD`
/// when present.
pub open spec fn version_text(v: VersionFields) -> Seq<char> {
    dec(v.major as nat) + "."@ + dec(v.minor as nat) + "."@ + dec(v.patch as nat) + (if v.pre@.len() > 0 {
        "-"@ + v.pre@
    } else {
        Seq::<char>::empty()
    }) + (if v.build@.len() > 0 {
        "+"@ + v.build@
    } else {
        Seq::<char>::empty()
    })
}

/// Whether a layout version is one this library reads: the requirement
/// `^1`, which a release with major version 1 meets.
pub open spec fn fs_version_compatible(v: VersionFields) -> bool {
    v.major == FS_VERSION_MAJOR && v.pre@.len() == 0
}

/// `Display` of `semver::Version` for a version built from its fields: its
/// source writes `MAJOR.MINOR.PATCH`, then `-PRE` and `+BUILD` when they are
/// not empty.
#[verifier::external_body]
fn semver_text(v: &VersionFields) -> (r: String)
    requires
        v.wf(),
    ensures
        r@ == version_text(*v),
{
    semver::Version {
        major: v.major,
        minor: v.minor,
        patch: v.patch,
        pre: semver::Prerelease::new(&v.pre).unwrap(),
        build: semver::BuildMetadata::new(&v.build).unwrap(),
    }.to_string()
}

/// `semver::VersionReq::parse` of a requirement `^M` (a caret on a major
/// version alone), then `VersionReq::matches` on a version built from its
/// fields. Its source: such a text parses to one caret comparator with no
/// minor and patch, which a version meets when its major version is `M`; a
/// pre-release never meets a comparator without minor and patch.
#[verifier::external_body]
fn caret_req_matches(req: &str, v: &VersionFields) -> (r: bool)
    requires
        v.wf(),
        exists|m: u64| req@ == "^"@ + #[trigger] dec(m as nat),
    ensures
        forall|m: u64| req@ == "^"@ + #[trigger] dec(m as nat) ==> r == (v.major == m && v.pre@.len() == 0),
{
    semver::VersionReq::parse(req).unwrap().matches(
        &semver::Version {
            major: v.major,
            minor: v.minor,
            patch: v.patch,
            pre: semver::Prerelease::new(&v.pre).unwrap(),
            build: semver::BuildMetadata::new(&v.build).unwrap(),
        },
    )
}

impl VersionFields {
    /// The version as `semver` writes it.
    pub fn to_string(&self) -> (r: String)
        requires
            self.wf(),
        ensures
            r@ == version_text(*self),
    {
        semver_text(self)
    }

    /// Whether this layout version is one this library reads: it meets the
    /// requirement [`SOURCETRAIT_BACKUP_FS_VERSION_REQ`].
    pub fn is_compatible(&self) -> (r: bool)
        requires
            self.wf(),
        ensures
            r == fs_version_compatible(*self),
    {
        proof {
            reveal_strlit("^1");
            reveal_strlit("^");
            assert(SOURCETRAIT_BACKUP_FS_VERSION_REQ@ =~= "^"@ + dec(FS_VERSION_MAJOR as nat));
        }
        caret_req_matches(SOURCETRAIT_BACKUP_FS_VERSION_REQ, self)
    }
}

/// The message of a failed read of the version file.
pub const E_READ_FS_VERSION: &'static str = "Failed to read file system version file";

/// The message of a version file that does not parse.
pub const E_PARSE_FS_VERSION: &'static str = "Failed to parse file system version file";

/// The version read from a version file, given what reading it gave (the
/// contents, or the cause of the failure).
pub fn read_fs_version(path: &str, contents: Result<String, String>) -> (r: Result<VersionFields, Error>)
    ensures
        contents matches Err(c) ==> (r matches Err(Error::FileIO { message, path: p, cause }) && message@
            == E_READ_FS_VERSION@ && p@ == path@ && some_text(cause, c@)),
        contents matches Ok(t) ==> match semver_parse(t@) {
            Ok((a, b, c, pr, bu)) => (r matches Ok(v) && v.major == a && v.minor == b && v.patch == c && v.pre@
                == pr && v.build@ == bu),
            Err(m) => (r matches Err(Error::FileIO { message, path: p, cause }) && message@
                == E_PARSE_FS_VERSION@ && p@ == path@ && some_text(cause, m)),
        },
{
    match contents {
        Err(c) => Err(Error::file_io(c.as_str(), path, E_READ_FS_VERSION)),
        Ok(t) => match parse_version(t.as_str()) {
            Ok(v) => Ok(v),
            Err(m) => Err(Error::file_io(m.as_str(), path, E_PARSE_FS_VERSION)),
        },
    }
}


/// Where the setup of a remote's storage directory stands: waiting for the
/// outcome of the command it asked for.
#[derive(Debug, Clone, Copy, PartialEq, Eq, Structural)]
pub enum RemoteSetupState {
    /// Whether the storage directory and its version file exist.
    CheckingStorage,
    /// Making the subdirectories of a new storage directory.
    MakingStorage,
    /// Writing the version file of a new storage directory.
    WritingVersion,
    /// Reading the version file of an existing storage directory.
    ReadingVersion,
    /// Whether all the directories exist.
    CheckingDirs,
    /// Making missing directories.
    RepairingDirs,
}

/// What to do next in a remote setup.
#[derive(Debug)]
pub enum RemoteSetupAction {
    Run(CommandLine),
    Done,
    Fail(Error),
}

/// A list of paths as `{:?}` writes it, for paths without characters that
/// need escaping: `["A", "B"]`.
pub open spec fn debug_list(ps: Seq<Seq<char>>) -> Seq<char> {
    "["@ + crate::backup::ssh::join_sep(ps.map_values(|p: Seq<char>| "\""@ + p + "\""@), ", "@) + "]"@
}

/// The error of an `ssh` that could not be started.
pub open spec fn is_spawn_error(e: Error, remote: Remote, cause: Seq<char>) -> bool {
    e matches Error::RemoteCmd { remote_name: n, message: m, cause: c } && n@ == remote.name@ && m@
        == crate::backup::ssh::E_SSH_CMD@ && some_text(c, cause)
}

/// The message of an `ssh` that could not be started.
pub open spec fn spawn_error_text(remote: Remote, cause: Seq<char>) -> Seq<char> {
    "Remote command failed on host "@ + remote.name@ + ": "@ + crate::backup::ssh::E_SSH_CMD@ + " :: "@ + cause
}

/// A remote error with a message and a cause.
pub open spec fn is_remote_error(e: Error, remote: Remote, message: Seq<char>, cause: Option<Seq<char>>) -> bool {
    e matches Error::RemoteCmd { remote_name: n, message: m, cause: c } && n@ == remote.name@ && m@ == message
        && match cause {
        Some(t) => some_text(c, t),
        None => c.is_none(),
    }
}

pub const E_REMOTE_CREATE_STORAGE: &'static str = "Unable to create backup storage directory ";
pub const E_REMOTE_WRITE_VERSION: &'static str = "Unable to write sourcetrait backup filesystem version file ";
pub const E_REMOTE_READ_VERSION: &'static str = "Failed to read remote file system version file ";
pub const E_REMOTE_PARSE_VERSION: &'static str = "Failed to parse remote file system version file ";
pub const E_REMOTE_CREATE_DIRS: &'static str = "Failed to create remote backup storage directories ";

/// The next state and action of a remote setup after the outcome of the
/// last command (`Err`: it could not be started, with the cause).
pub open spec fn remote_setup_next(
    remote: Remote,
    storage: Seq<char>,
    state: RemoteSetupState,
    event: Result<RemoteOutput, String>,
    r: (RemoteSetupState, RemoteSetupAction),
) -> bool {
    let version_file = fs_version_path(storage);
    let all_dirs = seq![storage] + storage_subdirs(storage);
    match state {
        RemoteSetupState::CheckingStorage => match event {
            Err(c) => r.1 matches RemoteSetupAction::Fail(e) && is_spawn_error(e, remote, c@),
            Ok(o) => if o.success {
                r.0 == RemoteSetupState::ReadingVersion && (r.1 matches RemoteSetupAction::Run(cmd) && cmd@
                    == ssh_view(remote, "cat '"@ + version_file + "' 2>/dev/null"@))
            } else {
                r.0 == RemoteSetupState::MakingStorage && (r.1 matches RemoteSetupAction::Run(cmd) && cmd@
                    == ssh_view(remote, each_quoted("mkdir -p "@, storage_subdirs(storage))))
            },
        },
        RemoteSetupState::MakingStorage => match event {
            Err(c) => r.1 matches RemoteSetupAction::Fail(e) && is_remote_error(
                e,
                remote,
                E_REMOTE_CREATE_STORAGE@ + storage,
                Some(spawn_error_text(remote, c@)),
            ),
            Ok(_) => r.0 == RemoteSetupState::WritingVersion && (r.1 matches RemoteSetupAction::Run(cmd) && cmd@
                == ssh_view(
                remote,
                "echo '"@ + crate::backup::ssh::escape_quotes(SOURCETRAIT_BACKUP_FS_VERSION_TEXT@) + "' > "@
                    + version_file + " 2>/dev/null"@,
            )),
        },
        RemoteSetupState::WritingVersion => match event {
            Err(c) => r.1 matches RemoteSetupAction::Fail(e) && is_remote_error(
                e,
                remote,
                E_REMOTE_WRITE_VERSION@ + version_file,
                Some(spawn_error_text(remote, c@)),
            ),
            Ok(o) => if o.success {
                r.1 is Done
            } else {
                r.1 matches RemoteSetupAction::Fail(e) && is_remote_error(
                    e,
                    remote,
                    E_REMOTE_WRITE_VERSION@ + version_file,
                    Some(
                        "Remote command failed on host "@ + remote.name@ + ": "@ + "Failed to write to remote file "@
                            + version_file + " :: "@ + o.stderr@,
                    ),
                )
            },
        },
        RemoteSetupState::ReadingVersion => match event {
            Err(c) => r.1 matches RemoteSetupAction::Fail(e) && is_spawn_error(e, remote, c@),
            Ok(o) => if !o.success {
                r.1 matches RemoteSetupAction::Fail(e) && is_remote_error(
                    e,
                    remote,
                    E_REMOTE_READ_VERSION@ + version_file,
                    None,
                )
            } else {
                match semver_parse(trim(o.stdout@)) {
                    Err(m) => r.1 matches RemoteSetupAction::Fail(e) && is_remote_error(
                        e,
                        remote,
                        E_REMOTE_PARSE_VERSION@ + version_file,
                        Some(m),
                    ),
                    Ok((a, b, c, pr, bu)) => if a == FS_VERSION_MAJOR && pr.len() == 0 {
                        r.0 == RemoteSetupState::CheckingDirs && (r.1 matches RemoteSetupAction::Run(cmd) && cmd@
                            == ssh_view(remote, each_quoted("test -"@ + seq!['d'] + " "@, all_dirs)))
                    } else {
                        r.1 matches RemoteSetupAction::Fail(e) && is_remote_error(
                            e,
                            remote,
                            "Remote file system version "@ + dec(a as nat) + "."@ + dec(b as nat) + "."@ + dec(
                                c as nat,
                            ) + (if pr.len() > 0 {
                                "-"@ + pr
                            } else {
                                Seq::<char>::empty()
                            }) + (if bu.len() > 0 {
                                "+"@ + bu
                            } else {
                                Seq::<char>::empty()
                            }) + " does not match version "@ + SOURCETRAIT_BACKUP_FS_VERSION_TEXT@
                                + ". An upgrade is required."@,
                            None,
                        )
                    },
                }
            },
        },
        RemoteSetupState::CheckingDirs => match event {
            Err(c) => r.1 matches RemoteSetupAction::Fail(e) && is_spawn_error(e, remote, c@),
            Ok(o) => if o.success {
                r.1 is Done
            } else {
                r.0 == RemoteSetupState::RepairingDirs && (r.1 matches RemoteSetupAction::Run(cmd) && cmd@
                    == ssh_view(remote, each_quoted("mkdir -p "@, all_dirs)))
            },
        },
        RemoteSetupState::RepairingDirs => match event {
            Err(c) => r.1 matches RemoteSetupAction::Fail(e) && is_remote_error(
                e,
                remote,
                E_REMOTE_CREATE_DIRS@ + debug_list(all_dirs),
                Some(spawn_error_text(remote, c@)),
            ),
            Ok(_) => r.1 is Done,
        },
    }
}

/// `dirs` as `{:?}` writes them (without escaping).
pub(crate) fn debug_list_of(dirs: &Vec<String>) -> (r: String)
    ensures
        r@ == debug_list(string_views(dirs@)),
{
    let ghost q = string_views(dirs@).map_values(|p: Seq<char>| "\""@ + p + "\""@);
    let mut body = String::new();
    let mut i: usize = 0;
    assert(q.take(0) =~= Seq::<Seq<char>>::empty());
    while i < dirs.len()
        invariant
            i <= dirs.len(),
            q == string_views(dirs@).map_values(|p: Seq<char>| "\""@ + p + "\""@),
            body@ == crate::backup::ssh::join_sep(q.take(i as int), ", "@),
        decreases dirs.len() - i,
    {
        let piece = "\"".to_owned().concat(dirs[i].as_str()).concat("\"");
        assert(piece@ == q[i as int]);
        let ghost t = q.take(i + 1);
        assert(t.drop_last() =~= q.take(i as int));
        if i == 0 {
            body = piece;
            assert(body@ == crate::backup::ssh::join_sep(t, ", "@));
        } else {
            body = body.concat(", ").concat(piece.as_str());
            assert(body@ =~= crate::backup::ssh::join_sep(t, ", "@));
        }
        i += 1;
    }
    assert(q.take(dirs.len() as int) =~= q);
    "[".to_owned().concat(body.as_str()).concat("]")
}

fn spawn_error(remote: &Remote, cause: &str) -> (r: Error)
    ensures
        is_spawn_error(r, *remote, cause@),
        backup_error_text(r) == spawn_error_text(*remote, cause@),
{
    Error::remote_cmd(cause, remote, crate::backup::ssh::E_SSH_CMD)
}

impl SourceTraitBackupPath {
    /// The first command of a remote setup: whether the storage directory
    /// and its version file exist.
    pub fn remote_setup_start(&self) -> (r: (RemoteSetupState, RemoteSetupAction))
        requires
            self is RemoteStorageDir,
        ensures
            r.0 == RemoteSetupState::CheckingStorage,
            self matches SourceTraitBackupPath::RemoteStorageDir { remote, storage_dir } ==> (r.1 matches RemoteSetupAction::Run(cmd)
                && cmd@ == ssh_view(
                *remote,
                each_quoted("test -"@ + seq!['d'] + " "@, seq![storage_dir@, fs_version_path(storage_dir@)]),
            )),
    {
        match self {
            SourceTraitBackupPath::RemoteStorageDir { remote, storage_dir } => {
                let paths = backup_storage_check_paths(storage_dir.as_str());
                (RemoteSetupState::CheckingStorage, RemoteSetupAction::Run(ssh_dirs_exist(remote, &paths)))
            },
            _ => (RemoteSetupState::CheckingStorage, RemoteSetupAction::Done),
        }
    }

    /// The next step of a remote setup (see [`remote_setup_next`]): a new
    /// storage directory gets its subdirectories and version file; an
    /// existing one must have a version of major 1, and gets any missing
    /// directory.
    #[verifier::rlimit(30)]
    pub fn remote_setup_step(&self, state: RemoteSetupState, event: Result<RemoteOutput, String>) -> (r: (
        RemoteSetupState,
        RemoteSetupAction,
    ))
        requires
            self is RemoteStorageDir,
        ensures
            self matches SourceTraitBackupPath::RemoteStorageDir { remote, storage_dir } ==> remote_setup_next(
                *remote,
                storage_dir@,
                state,
                event,
                r,
            ),
    {
        let (remote, storage) = match self {
            SourceTraitBackupPath::RemoteStorageDir { remote, storage_dir } => (remote, storage_dir),
            _ => {
                return (state, RemoteSetupAction::Done);
            },
        };
        let version_file = join_str(storage.as_str(), crate::backup::consts::SOURCETRAIT_BACKUP_FS_VERSION_FILENAME);
        match state {
            RemoteSetupState::CheckingStorage => match event {
                Err(c) => (state, RemoteSetupAction::Fail(spawn_error(remote, c.as_str()))),
                Ok(o) => if o.success {
                    (RemoteSetupState::ReadingVersion, RemoteSetupAction::Run(ssh_file_contents(remote, version_file.as_str())))
                } else {
                    let subs = backup_storage_subdirs(storage.as_str());
                    (RemoteSetupState::MakingStorage, RemoteSetupAction::Run(ssh_make_dirs(remote, &subs)))
                },
            },
            RemoteSetupState::MakingStorage => match event {
                Err(c) => {
                    let inner = spawn_error(remote, c.as_str()).to_string();
                    let m = E_REMOTE_CREATE_STORAGE.to_owned().concat(storage.as_str());
                    let e = Error::remote_cmd(inner.as_str(), remote, m.as_str());
                    assert(is_remote_error(e, *remote, E_REMOTE_CREATE_STORAGE@ + storage@, Some(spawn_error_text(*remote, c@))));
                    (state, RemoteSetupAction::Fail(e))
                },
                Ok(_) => (
                    RemoteSetupState::WritingVersion,
                    RemoteSetupAction::Run(
                        ssh_write_file(remote, version_file.as_str(), SOURCETRAIT_BACKUP_FS_VERSION_TEXT),
                    ),
                ),
            },
            RemoteSetupState::WritingVersion => {
                let m = E_REMOTE_WRITE_VERSION.to_owned().concat(version_file.as_str());
                match event {
                    Err(c) => {
                        let inner = spawn_error(remote, c.as_str()).to_string();
                        let e = Error::remote_cmd(inner.as_str(), remote, m.as_str());
                        assert(is_remote_error(e, *remote, E_REMOTE_WRITE_VERSION@ + version_file@, Some(spawn_error_text(*remote, c@))));
                        (state, RemoteSetupAction::Fail(e))
                    },
                    Ok(o) => if o.success {
                        (state, RemoteSetupAction::Done)
                    } else {
                        let inner = crate::backup::ssh::ssh_write_file_outcome(remote, version_file.as_str(), &o);
                        let text = match inner {
                            Err(e) => e.to_string(),
                            Ok(_) => String::new(),
                        };
                        assert(text@ =~= "Remote command failed on host "@ + remote.name@ + ": "@
                            + "Failed to write to remote file "@ + version_file@ + " :: "@ + o.stderr@);
                        let e = Error::remote_cmd(text.as_str(), remote, m.as_str());
                        assert(is_remote_error(e, *remote, E_REMOTE_WRITE_VERSION@ + version_file@, Some("Remote command failed on host "@ + remote.name@ + ": "@
                            + "Failed to write to remote file "@ + version_file@ + " :: "@ + o.stderr@)));
                        (state, RemoteSetupAction::Fail(e))
                    },
                }
            },
            RemoteSetupState::ReadingVersion => match event {
                Err(c) => (state, RemoteSetupAction::Fail(spawn_error(remote, c.as_str()))),
                Ok(o) => if !o.success {
                    let m = E_REMOTE_READ_VERSION.to_owned().concat(version_file.as_str());
                    (state, RemoteSetupAction::Fail(Error::remote_cmd_err(remote, m.as_str())))
                } else {
                    let text = trim_str(o.stdout.as_str());
                    match parse_version(text.as_str()) {
                        Err(msg) => {
                            let m = E_REMOTE_PARSE_VERSION.to_owned().concat(version_file.as_str());
                            let e = Error::remote_cmd(msg.as_str(), remote, m.as_str());
                            assert(is_remote_error(e, *remote, E_REMOTE_PARSE_VERSION@ + version_file@, Some(msg@)));
                            (state, RemoteSetupAction::Fail(e))
                        },
                        Ok(v) => if v.is_compatible() {
                            let dirs = backup_storage_dirs(storage.as_str());
                            (RemoteSetupState::CheckingDirs, RemoteSetupAction::Run(ssh_dirs_exist(remote, &dirs)))
                        } else {
                            let m = "Remote file system version ".to_owned().concat(v.to_string().as_str()).concat(
                                " does not match version ",
                            ).concat(SOURCETRAIT_BACKUP_FS_VERSION_TEXT).concat(". An upgrade is required.");
                            assert(m@ =~= "Remote file system version "@ + version_text(v)
                                + " does not match version "@ + SOURCETRAIT_BACKUP_FS_VERSION_TEXT@
                                + ". An upgrade is required."@);
                            assert(m@ =~= "Remote file system version "@ + dec(v.major as nat) + "."@ + dec(
                                v.minor as nat,
                            ) + "."@ + dec(v.patch as nat) + (if v.pre@.len() > 0 {
                                "-"@ + v.pre@
                            } else {
                                Seq::<char>::empty()
                            }) + (if v.build@.len() > 0 {
                                "+"@ + v.build@
                            } else {
                                Seq::<char>::empty()
                            }) + " does not match version "@ + SOURCETRAIT_BACKUP_FS_VERSION_TEXT@
                                + ". An upgrade is required."@);
                            (state, RemoteSetupAction::Fail(Error::remote_cmd_err(remote, m.as_str())))
                        },
                    }
                },
            },
            RemoteSetupState::CheckingDirs => match event {
                Err(c) => (state, RemoteSetupAction::Fail(spawn_error(remote, c.as_str()))),
                Ok(o) => if o.success {
                    (state, RemoteSetupAction::Done)
                } else {
                    let dirs = backup_storage_dirs(storage.as_str());
                    (RemoteSetupState::RepairingDirs, RemoteSetupAction::Run(ssh_make_dirs(remote, &dirs)))
                },
            },
            RemoteSetupState::RepairingDirs => match event {
                Err(c) => {
                    let inner = spawn_error(remote, c.as_str()).to_string();
                    let dirs = backup_storage_dirs(storage.as_str());
                    let m = E_REMOTE_CREATE_DIRS.to_owned().concat(debug_list_of(&dirs).as_str());
                    let e = Error::remote_cmd(inner.as_str(), remote, m.as_str());
                    assert(is_remote_error(e, *remote, E_REMOTE_CREATE_DIRS@ + debug_list(seq![storage@] + storage_subdirs(storage@)), Some(spawn_error_text(*remote, c@))));
                    (state, RemoteSetupAction::Fail(e))
                },
                Ok(_) => (state, RemoteSetupAction::Done),
            },
        }
    }
}


/// The accounts that own the storage: the storage administrator's id and
/// the id of the group of backup users.
#[derive(Debug, Clone, Copy)]
pub struct SetupAccounts {
    pub admin: u32,
    pub group: u32,
}

/// What setting up a path of the layout starts with.
#[derive(Debug)]
pub enum SetupPlan {
    /// A storage directory: the changes of [`storage_dir_ops`] for it, then
    /// it is resolved to its canonical path (or the setup fails with
    /// `E_STORAGE_DIR_INACCESSIBLE`), then [`storage_layout_setup`] of that
    /// path gives the directories to make and the version file to write.
    StorageDir { path: String, accounts: SetupAccounts },
    /// The user's configuration file: the directory that
    /// [`SourceTraitBackupPath::user_config_ops`] makes for it (or the error
    /// of a file without one).
    UserConfig(Result<String, Error>),
    /// The version file: the changes of [`FileStep::ops`], which leave an
    /// existing file alone.
    FileSystemVersion { step: FileStep, accounts: SetupAccounts },
    /// A remote's storage directory: the first state and command.
    Remote(RemoteSetupState, RemoteSetupAction),
    /// Nothing to set up.
    Nothing,
}

/// The plan of a path's setup, once the accounts are known.
pub open spec fn setup_plan_ok(p: SourceTraitBackupPath, admin: u32, group: u32, r: SetupPlan) -> bool {
    &&& p matches SourceTraitBackupPath::StorageDir(d) ==> (r matches SetupPlan::StorageDir { path, accounts }
        && path@ == d@ && accounts.admin == admin && accounts.group == group)
    &&& p is UserConfig ==> (r matches SetupPlan::UserConfig(x) && match parent(path_of(p)) {
        Some(d) => (x matches Ok(y) && y@ == d),
        None => (x matches Err(Error::FileIO { message, path, cause: None }) && message@ == E_USER_CONFIG_DIR@
            && path@ == path_of(p)),
    })
    &&& p is FileSytemVersion ==> (r matches SetupPlan::FileSystemVersion {
        step,
        accounts,
    } && is_version_file_step(step, path_of(p)) && accounts.admin == admin
        && accounts.group == group)
    &&& p matches SourceTraitBackupPath::RemoteStorageDir { remote, storage_dir } ==> (r matches SetupPlan::Remote(
        st,
        a,
    ) && st == RemoteSetupState::CheckingStorage && (a matches RemoteSetupAction::Run(cmd) && cmd@ == ssh_view(
        remote,
        each_quoted("test -"@ + seq!['d'] + " "@, seq![storage_dir@, fs_version_path(storage_dir@)]),
    )))
    &&& !(p is StorageDir || p is UserConfig || p is FileSytemVersion || p is RemoteStorageDir) ==> r is Nothing
}

impl SourceTraitBackupPath {
    /// The setup of this path, given the lookups of the storage
    /// administrator and of the group of backup users: a failed lookup is
    /// the setup's error, before anything is changed; otherwise the plan.
    pub fn setup_with(&self, admin: Result<u32, Error>, group: Result<u32, Error>) -> (r: Result<SetupPlan, Error>)
        ensures
            admin matches Err(e) ==> r == Err::<SetupPlan, Error>(e),
            admin is Ok ==> (group matches Err(e) ==> r == Err::<SetupPlan, Error>(e)),
            admin matches Ok(a) ==> (group matches Ok(g) ==> (r matches Ok(plan) && setup_plan_ok(*self, a, g, plan))),
    {
        let a = match admin {
            Ok(a) => a,
            Err(e) => return Err(e),
        };
        let g = match group {
            Ok(g) => g,
            Err(e) => return Err(e),
        };
        let accounts = SetupAccounts { admin: a, group: g };
        let plan = match self {
            SourceTraitBackupPath::StorageDir(p) => SetupPlan::StorageDir { path: p.clone(), accounts },
            SourceTraitBackupPath::UserConfig { .. } => SetupPlan::UserConfig(self.user_config_dir()),
            SourceTraitBackupPath::FileSytemVersion { .. } => match self.fs_version_file_step() {
                Some(f) => SetupPlan::FileSystemVersion { step: f, accounts },
                None => SetupPlan::Nothing,
            },
            SourceTraitBackupPath::RemoteStorageDir { .. } => {
                let (st, act) = self.remote_setup_start();
                SetupPlan::Remote(st, act)
            },
            _ => SetupPlan::Nothing,
        };
        Ok(plan)
    }

    /// One-time setup of this path (storage directories, local or remote,
    /// the version file and the user's configuration): the group of backup
    /// users (`bakusr`) is looked up first, and its absence is the error,
    /// before anything is changed. When it exists, the storage belongs to
    /// root (the storage administrator, [`storage_admin_aid`]) and that group
    /// ([`backup_users_id`]).
    pub fn setup(&self, config: &BackupConfig) -> (r: Result<SetupPlan, Error>)
        ensures
            r matches Err(e) ==> (e matches Error::AccountNotFound { account_type: t, account: n } && t@
                == crate::backup::error::ACCOUNT_GROUP@ && n@ == config.backup_users_group@),
            r matches Ok(plan) ==> exists|a: u32, g: u32| setup_plan_ok(*self, a, g, plan),
            r matches Ok(plan) ==> exists|g: u32| setup_plan_ok(*self, 0, g, plan),
    {
        let found = lookup_group_gid(GROUP_BACKUP_USERNAME);
        let current = current_uid();
        let admin: Result<u32, Error> = Ok(storage_admin_outcome(found, current));
        let group = backup_users_outcome(config, found);
        let r = self.setup_with(admin, group);
        proof {
            if r is Ok {
                let a = admin->Ok_0;
                let g = group->Ok_0;
                assert(found is Some);
                assert(a == 0);
                assert(setup_plan_ok(*self, a, g, r->Ok_0));
            }
        }
        r
    }
}

/// What a directory step does to the file system. A missing directory is
/// created and then given to the step's owner with the step's mode,
/// whatever `always_own` says; an existing one is given to its owner again
/// only when the step always owns, and is otherwise left alone.
pub proof fn law_dir_step_ops(s: DirStepView)
    ensures
        dir_step_ops(s, false) == seq![
            FsOpView::CreateDir { path: s.dir, parents: false, message: s.create_message },
            FsOpView::Own { path: s.own, owner: s.owner, admin: s.admin, mode: s.mode, message: s.own_message },
        ],
        s.always_own ==> dir_step_ops(s, true) == seq![
            FsOpView::Own { path: s.own, owner: s.owner, admin: s.admin, mode: s.mode, message: s.own_message },
        ],
        !s.always_own ==> dir_step_ops(s, true).len() == 0,
{
}

/// A run's context directories, once made, belong to their owners: for
/// every step of `prepare`, a missing directory is created and then owned
/// with the step's mode (`rwx------`, or `rwxr-x---` for the host's).
pub proof fn law_context_dirs_owned_when_made(
    sub: Seq<char>,
    username: Seq<char>,
    hostname: Seq<char>,
    run: BackupRunName,
    backup_group_exists: bool,
    i: int,
)
    requires
        0 <= i < 5,
    ensures
        ({
            let s = run_context_steps(sub, username, hostname, run, backup_group_exists)[i];
            &&& dir_step_ops(s, false).len() == 2
            &&& dir_step_ops(s, false)[0] matches FsOpView::CreateDir { path, .. } && path == s.dir
            &&& dir_step_ops(s, false)[1] matches FsOpView::Own { path, mode, .. } && path == s.dir && mode
                == (if i == 1 { PermissionMode::StorageDir } else { PermissionMode::RunDir })
        }),
{
    law_dir_step_ops(run_context_steps(sub, username, hostname, run, backup_group_exists)[i]);
}

} // verus!

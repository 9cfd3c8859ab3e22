//! Synchronizing backups and archives to remotes.
use vstd::prelude::*;
use crate::backup::error::{backup_error_text, some_text, Error};
use crate::backup::layout::{
    backup_storage_dirs, path_of, same_run, sha256_path, storage_subdirs, with_sha256_extension,
    BackupRunName, BackupType, SourceTraitBackupPath,
};
use crate::backup::remote::{remote_addr, same_remote, Remote};
use crate::backup::setup::{debug_list, spawn_error_text};
use crate::backup::ssh::{each_quoted, scp_file, ssh_check_file_checksum, ssh_dirs_exist, ssh_make_dirs, ssh_view, RemoteOutput};
use crate::command::{string_views, CommandLine, CommandOutput};
use crate::path::{extension, parent};

verus! {

/// The error of a remote command that could not be started (`scp` or `ssh`).
fn spawn_error_of(remote: &Remote, scp: bool, cause: &str) -> (r: Error)
    ensures
        backup_error_text(r) == "Remote command failed on host "@ + remote.name@ + ": "@ + (if scp {
            crate::backup::ssh::E_SCP_CMD@
        } else {
            crate::backup::ssh::E_SSH_CMD@
        }) + " :: "@ + cause@,
        r matches Error::RemoteCmd { remote_name: n, message: m, cause: c } && n@ == remote.name@ && m@ == (
        if scp {
            crate::backup::ssh::E_SCP_CMD@
        } else {
            crate::backup::ssh::E_SSH_CMD@
        }) && some_text(c, cause@),
{
    let e = crate::backup::ssh::remote_spawn_error(remote, scp, cause);
    e
}

/// A job that copies an archive and its checksum file to a remote, then
/// checks the copy there.
#[derive(Debug)]
pub struct SyncArchiveJob {
    pub backup_run_name: BackupRunName,
    pub remote: Remote,
    pub source_filepath: String,
    pub remote_dest_filepath: String,
}

/// What a synchronization of an archive made.
#[derive(Debug)]
pub struct SyncArchiveJobOutput {
    pub backup_run_name: BackupRunName,
    pub remote: Remote,
    pub source_filepath: String,
    pub remote_dest_filepath: String,
    pub remote_dest_checksum_filepath: String,
}

/// Where a synchronization of an archive stands.
#[derive(Debug, Clone, Copy, PartialEq, Eq, Structural)]
pub enum SyncArchiveState {
    MakingDir,
    CopyingArchive,
    CopyingChecksum,
    CheckingChecksum,
}

/// What to do next.
#[derive(Debug)]
pub enum SyncArchiveAction {
    Run(CommandLine),
    Complete(SyncArchiveJobOutput),
    Fail(Error),
}

/// A plain-message error.
pub open spec fn is_generic(e: Error, msg: Seq<char>) -> bool {
    e matches Error::Generic { msg: m } && m@ == msg
}

/// A remote error without cause.
pub open spec fn is_remote_err(e: Error, remote: Remote, message: Seq<char>) -> bool {
    e matches Error::RemoteCmd { remote_name: n, message: m, cause: None } && n@ == remote.name@ && m@ == message
}

/// The error of a command that could not be started.
pub open spec fn is_spawn(e: Error, remote: Remote, scp: bool, cause: Seq<char>) -> bool {
    e matches Error::RemoteCmd { remote_name: n, message: m, cause: c } && n@ == remote.name@ && m@ == (if scp {
        crate::backup::ssh::E_SCP_CMD@
    } else {
        crate::backup::ssh::E_SSH_CMD@
    }) && some_text(c, cause)
}

impl SyncArchiveJob {
    /// Both paths have an extension, for their checksum files.
    pub open spec fn wf(&self) -> bool {
        extension(self.source_filepath@).is_some() && extension(self.remote_dest_filepath@).is_some()
    }

    /// The first step: make the destination's directory on the remote; a
    /// destination without a parent is an error.
    pub fn start(&self) -> (r: (SyncArchiveState, SyncArchiveAction))
        ensures
            parent(self.remote_dest_filepath@) matches Some(d) ==> r.0 == SyncArchiveState::MakingDir && (
            r.1 matches SyncArchiveAction::Run(c) && c@ == ssh_view(self.remote, each_quoted("mkdir -p "@, seq![d]))),
            parent(self.remote_dest_filepath@).is_none() ==> (r.1 matches SyncArchiveAction::Fail(Error::FileIO {
                message,
                path,
                cause: None,
            }) && message@ == "Failed to get parent directory"@ && path@ == self.remote_dest_filepath@),
    {
        let p = crate::text::chars_of(self.remote_dest_filepath.as_str());
        match crate::path::parent_of(&p) {
            None => (
                SyncArchiveState::MakingDir,
                SyncArchiveAction::Fail(
                    Error::file_io_err(self.remote_dest_filepath.as_str(), "Failed to get parent directory"),
                ),
            ),
            Some(d) => {
                let mut dirs: Vec<String> = Vec::new();
                let ds = crate::text::string_of(&d);
                dirs.push(ds);
                assert(string_views(dirs@) =~= seq![d@]);
                (SyncArchiveState::MakingDir, SyncArchiveAction::Run(ssh_make_dirs(&self.remote, &dirs)))
            },
        }
    }

    /// The next step after the outcome of the last command (`Err`: it could
    /// not be started, with the cause): the archive, then its checksum file,
    /// are copied; then the copy is checked on the remote.
    pub fn step(&self, state: SyncArchiveState, event: Result<RemoteOutput, String>) -> (r: (
        SyncArchiveState,
        SyncArchiveAction,
    ))
        requires
            self.wf(),
            state == SyncArchiveState::MakingDir ==> parent(self.remote_dest_filepath@).is_some(),
        ensures
            state == SyncArchiveState::MakingDir ==> match event {
                Err(c) => r.1 matches SyncArchiveAction::Fail(e) && is_generic(
                    e,
                    "Failed to create remote directories: "@ + "Remote command failed on host "@ + self.remote.name@
                        + ": "@ + crate::backup::ssh::E_SSH_CMD@ + " :: "@ + c@,
                ),
                Ok(o) => if o.success {
                    r.0 == SyncArchiveState::CopyingArchive && (r.1 matches SyncArchiveAction::Run(cmd) && cmd@.program
                        == crate::backup::ssh::SCP_CMD@ && cmd@.args == seq![
                        self.source_filepath@,
                        remote_addr(self.remote) + ":"@ + self.remote_dest_filepath@,
                    ])
                } else {
                    r.1 matches SyncArchiveAction::Fail(e) && is_generic(
                        e,
                        "Failed to create remote directory: "@ + parent(self.remote_dest_filepath@).unwrap(),
                    )
                },
            },
            state == SyncArchiveState::CopyingArchive ==> match event {
                Err(c) => r.1 matches SyncArchiveAction::Fail(e) && is_spawn(e, self.remote, true, c@),
                Ok(o) => if o.success {
                    r.0 == SyncArchiveState::CopyingChecksum && (r.1 matches SyncArchiveAction::Run(cmd) && cmd@.program
                        == crate::backup::ssh::SCP_CMD@ && cmd@.args == seq![
                        sha256_path(self.source_filepath@),
                        remote_addr(self.remote) + ":"@ + sha256_path(self.remote_dest_filepath@),
                    ])
                } else {
                    r.1 matches SyncArchiveAction::Fail(e) && is_remote_err(
                        e,
                        self.remote,
                        "Unable to remote copy file :: "@ + o.stderr@,
                    )
                },
            },
            state == SyncArchiveState::CopyingChecksum ==> match event {
                Err(c) => r.1 matches SyncArchiveAction::Fail(e) && is_spawn(e, self.remote, true, c@),
                Ok(o) => if o.success {
                    r.0 == SyncArchiveState::CheckingChecksum && (r.1 matches SyncArchiveAction::Run(cmd) && cmd@
                        == ssh_view(
                        self.remote,
                        "cd "@ + parent(self.remote_dest_filepath@).unwrap() + " && sha256sum --quiet -c '"@
                            + self.remote_dest_filepath@ + ".sha256'"@,
                    ))
                } else {
                    r.1 matches SyncArchiveAction::Fail(e) && is_remote_err(
                        e,
                        self.remote,
                        "Unable to remote copy file :: "@ + o.stderr@,
                    )
                },
            },
            state == SyncArchiveState::CheckingChecksum ==> match event {
                Err(c) => r.1 matches SyncArchiveAction::Fail(e) && is_spawn(e, self.remote, false, c@),
                Ok(o) => if o.success {
                    r.1 matches SyncArchiveAction::Complete(out) && same_run(out.backup_run_name, self.backup_run_name)
                        && out.remote.name@ == self.remote.name@ && same_remote(out.remote, self.remote)
                        && out.source_filepath@ == self.source_filepath@
                        && out.remote_dest_filepath@ == self.remote_dest_filepath@
                        && out.remote_dest_checksum_filepath@ == sha256_path(self.remote_dest_filepath@)
                } else {
                    r.1 matches SyncArchiveAction::Fail(e) && is_remote_err(
                        e,
                        self.remote,
                        "Failed to verify remote file checksum: "@ + self.remote_dest_filepath@ + " :: "@ + o.stderr@,
                    )
                },
            },
    {
        let remote = &self.remote;
        match state {
            SyncArchiveState::MakingDir => match event {
                Err(c) => {
                    let inner = spawn_error_of(remote, false, c.as_str()).to_string();
                    let m = "Failed to create remote directories: ".to_owned().concat(inner.as_str());
                    assert(m@ =~= "Failed to create remote directories: "@ + "Remote command failed on host "@
                        + self.remote.name@ + ": "@ + crate::backup::ssh::E_SSH_CMD@ + " :: "@ + c@);
                    (state, SyncArchiveAction::Fail(Error::msg(m.as_str())))
                },
                Ok(o) => if o.success {
                    (
                        SyncArchiveState::CopyingArchive,
                        SyncArchiveAction::Run(
                            scp_file(remote, self.source_filepath.as_str(), self.remote_dest_filepath.as_str()),
                        ),
                    )
                } else {
                    let p = crate::text::chars_of(self.remote_dest_filepath.as_str());
                    let d = crate::path::parent_of(&p).unwrap();
                    let ds = crate::text::string_of(&d);
                    let m = "Failed to create remote directory: ".to_owned().concat(ds.as_str());
                    (state, SyncArchiveAction::Fail(Error::msg(m.as_str())))
                },
            },
            SyncArchiveState::CopyingArchive | SyncArchiveState::CopyingChecksum => match event {
                Err(c) => (state, SyncArchiveAction::Fail(spawn_error_of(remote, true, c.as_str()))),
                Ok(o) => if !o.success {
                    let m = "Unable to remote copy file :: ".to_owned().concat(o.stderr.as_str());
                    (state, SyncArchiveAction::Fail(Error::remote_cmd_err(remote, m.as_str())))
                } else if state == SyncArchiveState::CopyingArchive {
                    let src = with_sha256_extension(self.source_filepath.as_str());
                    let dst = with_sha256_extension(self.remote_dest_filepath.as_str());
                    (SyncArchiveState::CopyingChecksum, SyncArchiveAction::Run(scp_file(remote, src.as_str(), dst.as_str())))
                } else {
                    match ssh_check_file_checksum(remote, self.remote_dest_filepath.as_str()) {
                        Ok(cmd) => (SyncArchiveState::CheckingChecksum, SyncArchiveAction::Run(cmd)),
                        Err(e) => (state, SyncArchiveAction::Fail(e)),
                    }
                },
            },
            SyncArchiveState::CheckingChecksum => match event {
                Err(c) => (state, SyncArchiveAction::Fail(spawn_error_of(remote, false, c.as_str()))),
                Ok(o) => match crate::backup::ssh::ssh_check_file_checksum_outcome(
                    remote,
                    self.remote_dest_filepath.as_str(),
                    &o,
                ) {
                    Err(e) => (state, SyncArchiveAction::Fail(e)),
                    Ok(_) => {
                        let out = SyncArchiveJobOutput {
                            backup_run_name: self.backup_run_name.duplicate(),
                            remote: remote.duplicate(),
                            source_filepath: self.source_filepath.clone(),
                            remote_dest_filepath: self.remote_dest_filepath.clone(),
                            remote_dest_checksum_filepath: with_sha256_extension(self.remote_dest_filepath.as_str()),
                        };
                        (state, SyncArchiveAction::Complete(out))
                    },
                },
            },
        }
    }
}


/// A job that copies a backup directory to a remote with `rsync`.
#[derive(Debug)]
pub struct SyncBackupJob {
    pub remote: Remote,
    pub remote_backup_storage_dir: String,
    pub backup_type: BackupType,
    pub backup_run_name: BackupRunName,
    pub source_dir: String,
    pub remote_incremental_source_dir: Option<String>,
    pub remote_dest_dir: SourceTraitBackupPath,
}

/// What a synchronization of a backup made.
#[derive(Debug)]
pub struct SyncBackupJobOutput {
    pub remote: Remote,
    pub source_dir: String,
    pub backup_run_name: BackupRunName,
    pub remote_incremental_source_dir: Option<String>,
    pub remote_dest_dir: SourceTraitBackupPath,
}

/// The copy to make with `rsync`: a full copy of `source_dir` to
/// `dest_dir` on the remote, or an incremental one against
/// `incremental_source_dir` there.
#[derive(Debug)]
pub struct RsyncRequest {
    pub backup_type: BackupType,
    pub source_dir: String,
    pub remote: Remote,
    pub incremental_source_dir: Option<String>,
    pub dest_dir: String,
}

/// Where a synchronization of a backup stands.
#[derive(Debug, Clone, Copy, PartialEq, Eq, Structural)]
pub enum SyncBackupState {
    VerifyingRemote,
    MakingDir,
    Copying,
}

/// What to do next.
#[derive(Debug)]
pub enum SyncBackupAction {
    Run(CommandLine),
    Rsync(RsyncRequest),
    Complete(SyncBackupJobOutput),
    Fail(Error),
}

impl SyncBackupJob {
    /// An incremental copy has a source on the remote.
    pub open spec fn wf(&self) -> bool {
        self.backup_type == BackupType::Incremental ==> self.remote_incremental_source_dir.is_some()
    }

    /// The first step: check that the remote's storage directories exist.
    pub fn start(&self) -> (r: (SyncBackupState, SyncBackupAction))
        ensures
            r.0 == SyncBackupState::VerifyingRemote,
            r.1 matches SyncBackupAction::Run(c) && c@ == ssh_view(
                self.remote,
                each_quoted(
                    "test -"@ + seq!['d'] + " "@,
                    seq![self.remote_backup_storage_dir@] + storage_subdirs(self.remote_backup_storage_dir@),
                ),
            ),
    {
        let dirs = backup_storage_dirs(self.remote_backup_storage_dir.as_str());
        (SyncBackupState::VerifyingRemote, SyncBackupAction::Run(ssh_dirs_exist(&self.remote, &dirs)))
    }

    /// The next step after the outcome of the last command (`Err`: it could
    /// not be started, with the cause): once the remote's storage is there,
    /// the destination directory is made, then the copy is made.
    pub fn step(&self, state: SyncBackupState, event: Result<CommandOutput, String>) -> (r: (
        SyncBackupState,
        SyncBackupAction,
    ))
        requires
            self.wf(),
            state == SyncBackupState::Copying ==> (event matches Ok(o) && (o.success || vstd::utf8::valid_utf8(
                o.stderr@,
            ))),
        ensures
            state == SyncBackupState::VerifyingRemote ==> match event {
                Err(c) => r.1 matches SyncBackupAction::Fail(e) && is_generic(
                    e,
                    "Failed to verify remote environment: "@ + spawn_error_text(self.remote, c@),
                ),
                Ok(o) => if o.success {
                    r.0 == SyncBackupState::MakingDir && (r.1 matches SyncBackupAction::Run(cmd) && cmd@ == ssh_view(
                        self.remote,
                        each_quoted("mkdir -p "@, seq![path_of(self.remote_dest_dir)]),
                    ))
                } else {
                    r.1 matches SyncBackupAction::Fail(e) && is_generic(
                        e,
                        "Some remote directories do not exist: "@ + debug_list(
                            seq![self.remote_backup_storage_dir@] + storage_subdirs(self.remote_backup_storage_dir@),
                        ),
                    )
                },
            },
            state == SyncBackupState::MakingDir ==> match event {
                Err(c) => r.1 matches SyncBackupAction::Fail(e) && is_generic(
                    e,
                    "Failed to create remote directories: "@ + spawn_error_text(self.remote, c@),
                ),
                Ok(o) => if o.success {
                    r.0 == SyncBackupState::Copying && (r.1 matches SyncBackupAction::Rsync(q) && q.backup_type
                        == self.backup_type && q.source_dir@ == self.source_dir@ && q.remote.name@
                        == self.remote.name@ && q.remote.host@ == self.remote.host@ && same_remote(
                        q.remote,
                        self.remote,
                    ) && remote_addr(q.remote) == remote_addr(self.remote) && q.incremental_source_dir.is_some()
                        == self.remote_incremental_source_dir.is_some() && (q.incremental_source_dir matches Some(d)
                        ==> d@ == self.remote_incremental_source_dir.unwrap()@) && q.dest_dir@ == path_of(
                        self.remote_dest_dir,
                    ) && (self.backup_type == BackupType::Incremental ==> (q.incremental_source_dir matches Some(
                        d,
                    ) && d@ == self.remote_incremental_source_dir.unwrap()@)))
                } else {
                    r.1 matches SyncBackupAction::Fail(e) && is_generic(
                        e,
                        "Failed to create remote directories: "@ + debug_list(seq![path_of(self.remote_dest_dir)]),
                    )
                },
            },
            state == SyncBackupState::Copying ==> match event {
                Ok(o) => if o.success {
                    r.1 matches SyncBackupAction::Complete(out) && same_run(out.backup_run_name, self.backup_run_name)
                        && out.source_dir@ == self.source_dir@ && path_of(out.remote_dest_dir) == path_of(
                        self.remote_dest_dir,
                    ) && out.remote.name@ == self.remote.name@ && same_remote(out.remote, self.remote)
                } else {
                    r.1 matches SyncBackupAction::Fail(Error::Rsync { cause }) && cause@ == vstd::utf8::decode_utf8(
                        o.stderr@,
                    )
                },
                Err(_) => true,
            },
    {
        let remote = &self.remote;
        match state {
            SyncBackupState::VerifyingRemote => match event {
                Err(c) => {
                    let inner = spawn_error_of(remote, false, c.as_str()).to_string();
                    let m = "Failed to verify remote environment: ".to_owned().concat(inner.as_str());
                    assert(m@ =~= "Failed to verify remote environment: "@ + spawn_error_text(self.remote, c@));
                    (state, SyncBackupAction::Fail(Error::msg(m.as_str())))
                },
                Ok(o) => if o.success {
                    let mut dirs: Vec<String> = Vec::new();
                    dirs.push(self.remote_dest_dir.to_path_buf());
                    assert(string_views(dirs@) =~= seq![path_of(self.remote_dest_dir)]);
                    (SyncBackupState::MakingDir, SyncBackupAction::Run(ssh_make_dirs(remote, &dirs)))
                } else {
                    let dirs = backup_storage_dirs(self.remote_backup_storage_dir.as_str());
                    let m = "Some remote directories do not exist: ".to_owned().concat(
                        crate::backup::setup::debug_list_of(&dirs).as_str(),
                    );
                    (state, SyncBackupAction::Fail(Error::msg(m.as_str())))
                },
            },
            SyncBackupState::MakingDir => match event {
                Err(c) => {
                    let inner = spawn_error_of(remote, false, c.as_str()).to_string();
                    let m = "Failed to create remote directories: ".to_owned().concat(inner.as_str());
                    assert(m@ =~= "Failed to create remote directories: "@ + spawn_error_text(self.remote, c@));
                    (state, SyncBackupAction::Fail(Error::msg(m.as_str())))
                },
                Ok(o) => if o.success {
                    let q = RsyncRequest {
                        backup_type: self.backup_type,
                        source_dir: self.source_dir.clone(),
                        remote: remote.duplicate(),
                        incremental_source_dir: match &self.remote_incremental_source_dir {
                            Some(d) => Some(d.clone()),
                            None => None,
                        },
                        dest_dir: self.remote_dest_dir.to_path_buf(),
                    };
                    (SyncBackupState::Copying, SyncBackupAction::Rsync(q))
                } else {
                    let mut dirs: Vec<String> = Vec::new();
                    dirs.push(self.remote_dest_dir.to_path_buf());
                    assert(string_views(dirs@) =~= seq![path_of(self.remote_dest_dir)]);
                    let m = "Failed to create remote directories: ".to_owned().concat(
                        crate::backup::setup::debug_list_of(&dirs).as_str(),
                    );
                    (state, SyncBackupAction::Fail(Error::msg(m.as_str())))
                },
            },
            SyncBackupState::Copying => match event {
                Ok(o) => if o.success {
                    let out = SyncBackupJobOutput {
                        remote: remote.duplicate(),
                        source_dir: self.source_dir.clone(),
                        backup_run_name: self.backup_run_name.duplicate(),
                        remote_incremental_source_dir: match &self.remote_incremental_source_dir {
                            Some(d) => Some(d.clone()),
                            None => None,
                        },
                        remote_dest_dir: self.remote_dest_dir.duplicate(),
                    };
                    (state, SyncBackupAction::Complete(out))
                } else {
                    (state, SyncBackupAction::Fail(Error::rsync(o.stderr.as_slice())))
                },
                Err(_) => (state, SyncBackupAction::Fail(Error::msg(""))),
            },
        }
    }
}

} // verus!

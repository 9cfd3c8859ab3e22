use sourcetrait_backup::backup::config_cmd::{confirm, run_config_setup, ConfigSetupAction};
use sourcetrait_backup::backup::date::RunDate;
use sourcetrait_backup::backup::error::Error;
use sourcetrait_backup::backup::layout::{BackupRunName, BackupType, SourceTraitBackupPath};
use sourcetrait_backup::backup::os_snapshot::OsSnapshot;
use sourcetrait_backup::backup::remote::{Remote, SyncPlatform};
use sourcetrait_backup::backup::setup::{
    read_fs_version, storage_dir_ops, storage_dir_setup_steps, storage_layout_setup, FsOp, Owner,
    PermissionMode, SetupPlan, VersionFields,
};
use sourcetrait_backup::backup::ssh::RemoteOutput;
use sourcetrait_backup::backup::sync::{
    SyncArchiveAction, SyncArchiveJob, SyncArchiveState, SyncBackupAction, SyncBackupJob, SyncBackupState,
};
use sourcetrait_backup::backup::sys::{
    backup_users_gid, backup_users_id, backup_users_outcome, setup_home_config, storage_admin_aid,
    storage_admin_outcome, storage_admin_uid, verify_backup_dirs, BackupConfig,
};
use sourcetrait_backup::bak::session::{run_with, BakCommand, CliCommand};
use sourcetrait_backup::command::CommandOutput;
use sourcetrait_backup::cross::error::{CrossDir, CrossError, ErrNotFound};
use sourcetrait_backup::cross::platform::{dir_for, exec_which, BaseDirPaths};

fn run() -> BackupRunName {
    BackupRunName {
        hostname: "host".to_string(),
        username: "alice".to_string(),
        catalogue: "home".to_string(),
        datetime: RunDate { year: 2024, month: 3, day: 7 },
        name: "home_20240307".to_string(),
    }
}

fn remote() -> Remote {
    Remote { name: "nas".to_string(), host: "nas.local".to_string(), user: None, platform: SyncPlatform::default() }
}

fn ok() -> RemoteOutput {
    RemoteOutput { success: true, stdout: String::new(), stderr: String::new() }
}

fn failed(stderr: &str) -> RemoteOutput {
    RemoteOutput { success: false, stdout: String::new(), stderr: stderr.to_string() }
}

#[test]
fn storage_setup_gives_each_user_a_directory() {
    let steps = storage_dir_setup_steps("/s", &vec!["alice".to_string(), "bob".to_string()]);
    let dirs: Vec<&str> = steps.iter().map(|s| s.dir.as_str()).collect();
    assert_eq!(
        vec![
            "/s/archive", "/s/archive/alice", "/s/archive/bob", "/s/full", "/s/full/alice", "/s/full/bob",
            "/s/incremental", "/s/incremental/alice", "/s/incremental/bob", "/s/logs", "/s/logs/alice", "/s/logs/bob",
        ],
        dirs
    );
    assert!(matches!(steps[0].owner, Owner::StorageAdmin));
    assert!(matches!(&steps[2].owner, Owner::BackupUser(u) if u == "bob"));
    assert!(steps.iter().all(|s| s.mode == PermissionMode::StorageDir && s.always_own));
    assert_eq!(0o750, steps[0].mode.unix_mode());
}

#[test]
fn version_file_and_user_config() {
    let v = SourceTraitBackupPath::fs_version("/s");
    let step = v.fs_version_file_step().unwrap();
    assert_eq!("/s/.backup_fs_version", step.path);
    assert_eq!("1.0.0", step.contents);
    assert_eq!(0o640, step.mode.unix_mode());
    assert!(SourceTraitBackupPath::storage_dir("/s").fs_version_file_step().is_none());
    let c = SourceTraitBackupPath::user_config("/home/a");
    assert_eq!("/home/a/.config/sourcetrait/backup", c.user_config_dir().unwrap());
}

#[test]
fn reading_the_version_file() {
    let v = read_fs_version("/s/.backup_fs_version", Ok("1.2.3-rc.1+b5".to_string())).unwrap();
    assert_eq!((1, 2, 3), (v.major, v.minor, v.patch));
    assert_eq!("1.2.3-rc.1+b5", v.to_string());
    assert!(!v.is_compatible());
    let v = VersionFields { major: 1, minor: 9, patch: 0, pre: String::new(), build: String::new() };
    assert!(v.is_compatible());
    match read_fs_version("/f", Err("gone".to_string())) {
        Err(Error::FileIO { message, path, cause }) => {
            assert_eq!("Failed to read file system version file", message);
            assert_eq!("/f", path);
            assert_eq!(Some("gone".to_string()), cause);
        },
        _ => panic!("expected a failure"),
    }
    match read_fs_version("/f", Ok("x.y".to_string())) {
        Err(Error::FileIO { message, .. }) => assert_eq!("Failed to parse file system version file", message),
        _ => panic!("expected a failure"),
    }
}

#[test]
fn sync_archive_job_steps() {
    let job = SyncArchiveJob {
        backup_run_name: run(),
        remote: remote(),
        source_filepath: "/s/archive/run.tar.xz".to_string(),
        remote_dest_filepath: "/r/archive/run.tar.xz".to_string(),
    };
    let (state, action) = job.start();
    match action {
        SyncArchiveAction::Run(c) => assert_eq!(vec!["nas.local", "mkdir -p '/r/archive'"], c.args),
        _ => panic!("expected a command"),
    }
    let (state, action) = job.step(state, Ok(ok()));
    assert_eq!(SyncArchiveState::CopyingArchive, state);
    match action {
        SyncArchiveAction::Run(c) => assert_eq!(vec!["/s/archive/run.tar.xz", "nas.local:/r/archive/run.tar.xz"], c.args),
        _ => panic!("expected a command"),
    }
    let (state, action) = job.step(state, Ok(ok()));
    match action {
        SyncArchiveAction::Run(c) => {
            assert_eq!(vec!["/s/archive/run.tar.xz.sha256", "nas.local:/r/archive/run.tar.xz.sha256"], c.args)
        },
        _ => panic!("expected a command"),
    }
    let (state, action) = job.step(state, Ok(ok()));
    match action {
        SyncArchiveAction::Run(c) => assert_eq!(
            "cd /r/archive && sha256sum --quiet -c '/r/archive/run.tar.xz.sha256'",
            c.args[1]
        ),
        _ => panic!("expected a command"),
    }
    match job.step(state, Ok(ok())).1 {
        SyncArchiveAction::Complete(out) => {
            assert_eq!("/r/archive/run.tar.xz.sha256", out.remote_dest_checksum_filepath)
        },
        _ => panic!("expected completion"),
    }
    match job.step(SyncArchiveState::CheckingChecksum, Ok(failed("bad"))).1 {
        SyncArchiveAction::Fail(e) => assert_eq!(
            "Remote command failed on host nas: Failed to verify remote file checksum: /r/archive/run.tar.xz :: bad",
            e.to_string()
        ),
        _ => panic!("expected a failure"),
    }
    match job.step(SyncArchiveState::CopyingArchive, Err("no scp".to_string())).1 {
        SyncArchiveAction::Fail(e) => {
            assert_eq!("Remote command failed on host nas: Failed to run scp :: no scp", e.to_string())
        },
        _ => panic!("expected a failure"),
    }
}

#[test]
fn sync_backup_job_steps() {
    let job = SyncBackupJob {
        remote: remote(),
        remote_backup_storage_dir: "/r".to_string(),
        backup_type: BackupType::Full,
        backup_run_name: run(),
        source_dir: "/s/full/alice/host/2024/03/07/home_20240307".to_string(),
        remote_incremental_source_dir: None,
        remote_dest_dir: SourceTraitBackupPath::full_backup("/r", &run()),
    };
    let (state, _) = job.start();
    match job.step(state, Ok(CommandOutput { success: false, stdout: vec![], stderr: vec![] })).1 {
        SyncBackupAction::Fail(e) => assert_eq!(
            "Some remote directories do not exist: [\"/r\", \"/r/archive\", \"/r/full\", \"/r/incremental\", \"/r/logs\"]",
            e.to_string()
        ),
        _ => panic!("expected a failure"),
    }
    let done = CommandOutput { success: true, stdout: vec![], stderr: vec![] };
    let (state, action) = job.step(SyncBackupState::VerifyingRemote, Ok(done));
    assert_eq!(SyncBackupState::MakingDir, state);
    assert!(matches!(action, SyncBackupAction::Run(_)));
    let done = CommandOutput { success: true, stdout: vec![], stderr: vec![] };
    match job.step(state, Ok(done)).1 {
        SyncBackupAction::Rsync(q) => assert_eq!("/r/full/alice/host/2024/03/07/home_20240307", q.dest_dir),
        _ => panic!("expected a copy"),
    }
}

#[test]
fn accounts_and_home_config() {
    let config = BackupConfig {
        backup_storage_dir: "/s".to_string(),
        storage_admin_user: "root".to_string(),
        backup_users_group: "bakusr".to_string(),
    };
    assert_eq!(0, storage_admin_outcome(Some(1001), 1000));
    assert_eq!(1000, storage_admin_outcome(None, 1000));
    match backup_users_outcome(&config, None) {
        Err(e) => assert_eq!("Group account bakusr not found", e.to_string()),
        Ok(_) => panic!("expected a failure"),
    }
    let plan = setup_home_config("/home/a", false, true);
    assert_eq!("/home/a/.config/sourcetrait/backup/backup.toml", plan.file);
    assert!(!plan.write);
    assert!(setup_home_config("/home/a", true, true).write);
    assert_eq!(vec!["/c/archive", "/c/full", "/c/incremental", "/c/logs"], verify_backup_dirs("/s", Some("/c".to_string())).unwrap());
    match verify_backup_dirs("/s", None) {
        Err(e) => assert_eq!("Directory /s not found. (config: backup_storage_dir)", e.to_string()),
        Ok(_) => panic!("expected a failure"),
    }
}

#[test]
fn snapshot_getters() {
    let s = OsSnapshot {
        hostname: "h".to_string(),
        current_user_aid: 1000,
        current_username: "alice".to_string(),
        current_user_primary_group_aid: Some(100),
        current_user_primary_groupname: Some("users".to_string()),
    };
    assert_eq!("h", s.hostname());
    assert_eq!(1000, s.current_user_aid());
    assert_eq!("alice", s.current_username());
    assert_eq!(Some(100), s.current_user_primary_group_aid());
    assert_eq!(Some("users".to_string()), s.current_user_primary_groupname());
}

#[test]
fn config_decisions() {
    assert!(confirm("yes\n"));
    assert!(confirm(" Y"));
    assert!(confirm("YeS"));
    assert!(!confirm("ye"));
    assert!(matches!(run_config_setup("/h/c.toml", true, false, false), ConfigSetupAction::Verify));
    assert!(matches!(run_config_setup("/h/c.toml", false, false, false), ConfigSetupAction::Decline));
    assert!(matches!(run_config_setup("/h/c.toml", false, true, false), ConfigSetupAction::Create { dir } if dir == "/h"));
    assert!(matches!(run_config_setup("", false, true, false), ConfigSetupAction::Fail(_)));
}

#[test]
fn dispatch_and_platform_dirs() {
    assert_eq!(BakCommand::Backup, run_with(None));
    assert_eq!(BakCommand::Diff(3), run_with(Some(CliCommand::Diff { index: 3 })));
    assert_eq!(BakCommand::List, run_with(Some(CliCommand::List)));
    let dirs = BaseDirPaths {
        cache: "/h/.cache".to_string(),
        config: "/h/.config".to_string(),
        data: "/h/.local/share".to_string(),
        state: None,
    };
    assert_eq!("/h/.local/share/sourcetrait/bak", dir_for(CrossDir::HomeData, &dirs, "sourcetrait/bak").unwrap());
    assert!(matches!(dir_for(CrossDir::HomeState, &dirs, "x"), Err(CrossError::UnsupportedDir { .. })));
    assert_eq!("/usr/bin/vim", exec_which(Ok(Some("/usr/bin/vim".to_string()))).unwrap().unwrap().program);
    assert!(matches!(exec_which(Ok(None)), Ok(None)));
}

#[test]
fn setup_starts_by_kind_of_path() {
    let ok = |p: &SourceTraitBackupPath| p.setup_with(Ok(0), Ok(7)).unwrap();
    assert!(matches!(ok(&SourceTraitBackupPath::storage_dir("/s")), SetupPlan::StorageDir { path, accounts } if path == "/s" && accounts.admin == 0 && accounts.group == 7));
    assert!(matches!(ok(&SourceTraitBackupPath::fs_version("/s")), SetupPlan::FileSystemVersion { step, .. } if step.contents == "1.0.0" && step.path == "/s/.backup_fs_version"));
    assert!(matches!(ok(&SourceTraitBackupPath::user_config("/h")), SetupPlan::UserConfig(Ok(d)) if d == "/h/.config/sourcetrait/backup"));
    assert!(matches!(ok(&SourceTraitBackupPath::log("/s", &run())), SetupPlan::Nothing));
    let r = SourceTraitBackupPath::RemoteStorageDir { remote: remote(), storage_dir: "/r".to_string() };
    assert!(matches!(ok(&r), SetupPlan::Remote(_, _)));
}

#[test]
fn setup_fails_on_missing_accounts_before_any_change() {
    let missing = || Error::AccountNotFound { account_type: "Group".to_string(), account: "bakusr".to_string() };
    let p = SourceTraitBackupPath::storage_dir("/s");
    match p.setup_with(Ok(0), Err(missing())) {
        Err(e) => assert_eq!("Group account bakusr not found", e.to_string()),
        Ok(_) => panic!("expected a missing group"),
    }
    let user = Error::AccountNotFound { account_type: "User".to_string(), account: "root".to_string() };
    match p.setup_with(Err(user), Err(missing())) {
        Err(e) => assert_eq!("User account root not found", e.to_string()),
        Ok(_) => panic!("expected a missing user"),
    }
    let config = BackupConfig {
        backup_storage_dir: "/s".to_string(),
        storage_admin_user: "root".to_string(),
        backup_users_group: "bakusr".to_string(),
    };
    if let Err(e) = p.setup(&config) {
        assert_eq!("Group account bakusr not found", e.to_string());
    }
}

#[test]
fn setup_steps_change_only_what_is_missing() {
    let f = match SourceTraitBackupPath::fs_version("/s").setup_with(Ok(0), Ok(7)).unwrap() {
        SetupPlan::FileSystemVersion { step, .. } => step,
        _ => panic!("expected the version file"),
    };
    assert!(f.ops(true).is_empty());
    let ops = f.ops(false);
    assert_eq!(2, ops.len());
    assert!(matches!(&ops[0], FsOp::Write { path, contents, .. } if path == "/s/.backup_fs_version" && contents == "1.0.0"));
    assert!(matches!(&ops[1], FsOp::Own { owner: Owner::StorageAdmin, mode: PermissionMode::StorageFile, .. }));
    assert!(storage_dir_ops("/s", true).is_empty());
    let ops = storage_dir_ops("/s", false);
    assert!(matches!(&ops[0], FsOp::CreateDir { path, parents: true, message } if path == "/s" && *message == "Failed to create backup storage directory"));
    assert!(matches!(&ops[1], FsOp::Own { owner: Owner::StorageAdmin, mode: PermissionMode::StorageDir, .. }));
    let (steps, version) = storage_layout_setup("/c", &vec!["alice".to_string()]);
    assert_eq!(8, steps.len());
    assert_eq!("/c/.backup_fs_version", version.path);
    assert_eq!(1, steps[0].ops(true).len());
    assert_eq!(2, steps[0].ops(false).len());
}

#[test]
fn storage_admin_is_always_known() {
    let config = BackupConfig {
        backup_storage_dir: "/s".to_string(),
        storage_admin_user: "root".to_string(),
        backup_users_group: "bakusr".to_string(),
    };
    assert!(storage_admin_uid(&config).is_ok());
    assert!(storage_admin_aid(&config).is_ok());
    for r in [backup_users_gid(&config), backup_users_id(&config)] {
        if let Err(e) = r {
            assert_eq!("Group account bakusr not found", e.to_string());
        }
    }
}

#[test]
fn user_config_is_written_only_when_missing() {
    let p = SourceTraitBackupPath::user_config("/h");
    assert!(p.user_config_ops(true, "x = 1\n").unwrap().is_empty());
    let ops = p.user_config_ops(false, "x = 1\n").unwrap();
    assert_eq!(2, ops.len());
    assert!(matches!(&ops[0], FsOp::CreateDir { path, parents: true, .. } if path == "/h/.config/sourcetrait/backup"));
    assert!(matches!(&ops[1], FsOp::Write { path, contents, message } if path == "/h/.config/sourcetrait/backup/backup.toml" && contents == "x = 1\n" && *message == "Failed to create default user config file"));
    let home = setup_home_config("/h", false, true);
    assert!(home.ops(true, "x").is_empty());
    let ops = setup_home_config("/h", true, true).ops(false, "x");
    assert!(matches!(&ops[0], FsOp::CreateDir { path, .. } if path == "/h/.config/sourcetrait/backup"));
    assert!(matches!(&ops[1], FsOp::Write { path, contents, .. } if path == "/h/.config/sourcetrait/backup/backup.toml" && contents == "x"));
}

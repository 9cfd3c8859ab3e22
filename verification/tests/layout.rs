use sourcetrait_backup::backup::archive::{cmd_tar_xz, ArchiveAction, ArchiveEvent, ArchiveJob, ArchiveState};
use sourcetrait_backup::backup::date::RunDate;
use sourcetrait_backup::backup::error::Error;
use sourcetrait_backup::backup::layout::{
    backup_storage_check_paths, backup_storage_dirs, backup_storage_subdirs, with_sha256_extension,
    BackupPathParts, BackupRunName, BackupType, SourceTraitBackupPath,
};
use sourcetrait_backup::backup::remote::{Cmd, Remote, SyncPlatform};
use sourcetrait_backup::backup::setup::{storage_layout_setup, Owner, PermissionMode, RemoteSetupAction, RemoteSetupState};
use sourcetrait_backup::backup::ssh::{
    scp_file, ssh_dir_manifest, ssh_dirs_exist, ssh_file_contents_outcome, ssh_make_dirs,
    ssh_write_file, RemoteOutput,
};
use sourcetrait_backup::backup::sys::{expand_env, home_dir, verify_backup_subdirs};
use sourcetrait_backup::command::CommandOutput;

fn run() -> BackupRunName {
    BackupRunName {
        hostname: "host".to_string(),
        username: "alice".to_string(),
        catalogue: "home".to_string(),
        datetime: RunDate { year: 2024, month: 3, day: 7 },
        name: "home_20240307".to_string(),
    }
}

fn remote(user: Option<&str>) -> Remote {
    Remote {
        name: "nas".to_string(),
        host: "nas.local".to_string(),
        user: user.map(|u| u.to_string()),
        platform: SyncPlatform::GNU,
    }
}

#[test]
fn run_paths_follow_the_layout() {
    let p = SourceTraitBackupPath::full_backup("/strg", &run());
    assert_eq!("/strg/full/alice/host/2024/03/07/home_20240307", p.as_path());
    let p = SourceTraitBackupPath::incremental_backup("/strg", &run());
    assert_eq!("/strg/incremental/alice/host/2024/03/07/home_20240307", p.to_path_buf());
    let p = SourceTraitBackupPath::archive("/strg", &run());
    assert_eq!("/strg/archive/alice/host/2024/03/07/home_20240307.tar.xz", p.as_path());
    let p = SourceTraitBackupPath::log("/strg", &run());
    assert_eq!("/strg/logs/home_20240307", p.as_path());
    let p = SourceTraitBackupPath::user_config("/home/alice");
    assert_eq!("/home/alice/.config/sourcetrait/backup/backup.toml", p.as_path());
    let p = SourceTraitBackupPath::fs_version("/strg");
    assert_eq!("/strg/.backup_fs_version", p.as_path());
}

#[test]
fn backup_picks_the_kind() {
    let a = SourceTraitBackupPath::backup("/s", BackupType::Full, &run());
    let b = SourceTraitBackupPath::full_backup("/s", &run());
    assert_eq!(a.as_path(), b.as_path());
    let a = SourceTraitBackupPath::backup("/s", BackupType::Incremental, &run());
    assert_eq!("/s/incremental/alice/host/2024/03/07/home_20240307", a.as_path());
    assert_eq!("full", BackupType::Full.subdir_name());
    assert_eq!("incremental", BackupType::Incremental.subdir_name());
}

#[test]
fn backup_dir_with_and_without_date() {
    let parts = BackupPathParts::new(BackupType::Full, "host", "alice", "home", None);
    let p = SourceTraitBackupPath::backup_dir("/s", parts);
    assert_eq!("/s/full/alice/host", p.as_path());
    let parts = BackupPathParts::from_run(BackupType::Incremental, &run());
    let p = SourceTraitBackupPath::backup_dir("/s", parts);
    assert_eq!("/s/incremental/alice/host/2024/03/07", p.as_path());
}

#[test]
fn dates_are_padded() {
    let d = RunDate { year: 987, month: 12, day: 31 };
    assert_eq!("0987", d.year_dirname());
    assert_eq!("12", d.month_dirname());
    assert_eq!("31", d.day_dirname());
    let d = RunDate { year: 12345, month: 1, day: 1 };
    assert_eq!("+12345", d.year_dirname());
    let d = RunDate { year: -5, month: 2, day: 28 };
    assert_eq!("-0005", d.year_dirname());
}

#[test]
fn storage_directory_lists() {
    assert_eq!(vec!["/s", "/s/.backup_fs_version"], backup_storage_check_paths("/s"));
    assert_eq!(vec!["/s/archive", "/s/full", "/s/incremental", "/s/logs"], backup_storage_subdirs("/s"));
    assert_eq!(vec!["/s", "/s/archive", "/s/full", "/s/incremental", "/s/logs"], backup_storage_dirs("/s"));
}

#[test]
fn checksum_path_appends_sha256() {
    assert_eq!("/a/run.tar.xz.sha256", with_sha256_extension("/a/run.tar.xz"));
    assert_eq!("/a/b.txt.sha256", with_sha256_extension("/a/b.txt"));
}

#[test]
fn run_name_and_subdir() {
    let p = SourceTraitBackupPath::archive("/s", &run());
    assert_eq!(Some("/s/archive".to_string()), p.storage_subdir());
    assert_eq!("home_20240307", p.backup_run_name().unwrap().name);
    let p = SourceTraitBackupPath::storage_dir("/s");
    assert!(p.storage_subdir().is_none());
    assert!(p.backup_run_name().is_none());
}

#[test]
fn prepare_plans_context_directories() {
    let p = SourceTraitBackupPath::full_backup("/s", &run());
    let steps = p.prepare(true, false, "alice", "host", false).unwrap();
    let dirs: Vec<&str> = steps.iter().map(|s| s.dir.as_str()).collect();
    assert_eq!(
        vec!["/s/full/alice", "/s/full/alice/host", "/s/full/alice/host/2024", "/s/full/alice/host/2024/03", "/s/full/alice/host/2024/03/07"],
        dirs
    );
    assert_eq!("/s/full/alice/host/2024/03", steps[3].own);
    assert_eq!(PermissionMode::StorageDir, steps[1].mode);
    assert!(matches!(steps[1].owner, Owner::CurrentUser));
    let shared = p.prepare(true, false, "alice", "host", true).unwrap();
    assert!(matches!(shared[1].owner, Owner::StorageAdmin));
    assert_eq!(PermissionMode::StorageDir, shared[1].mode);
    assert!(matches!(shared[0].owner, Owner::CurrentUser));
    assert!(matches!(shared[4].owner, Owner::CurrentUser));
    assert_eq!(0o700, steps[0].mode.unix_mode());
    assert!(p.prepare(true, true, "alice", "host", false).unwrap().is_empty());
    match p.prepare(false, false, "alice", "host", false) {
        Err(Error::FileIO { message, path, cause }) => {
            assert_eq!("Backup storage directory does not exist", message);
            assert_eq!("/s", path);
            assert!(cause.is_none());
        },
        _ => panic!("expected a missing storage directory"),
    }
}

#[test]
fn remote_commands() {
    let r = remote(Some("bob"));
    assert_eq!("bob@nas.local", r.addr());
    assert_eq!("nas.local", remote(None).addr());
    let c = ssh_dirs_exist(&r, &vec!["/a".to_string(), "/b c".to_string()]);
    assert_eq!("ssh", c.program);
    assert_eq!(vec!["bob@nas.local", "test -d '/a' && test -d '/b c'"], c.args);
    let c = ssh_make_dirs(&r, &vec!["/x".to_string()]);
    assert_eq!(vec!["bob@nas.local", "mkdir -p '/x'"], c.args);
    let c = ssh_write_file(&r, "/f", "it's");
    assert_eq!("echo 'it\\'s' > /f 2>/dev/null", c.args[1]);
    let c = ssh_dir_manifest(&r, "/d");
    assert_eq!("cd '/d' ; find . -type d | sort ; find . -type f -exec sha256sum {} \\; | sort -k 2", c.args[1]);
    let c = scp_file(&r, "/l", "/r");
    assert_eq!("scp", c.program);
    assert_eq!(vec!["/l", "bob@nas.local:/r"], c.args);
    let out = RemoteOutput { success: true, stdout: "  1.0.0\n".to_string(), stderr: String::new() };
    assert_eq!(Some("1.0.0".to_string()), ssh_file_contents_outcome(&out));
    assert_eq!("scp", Cmd::scp.to_string());
}

#[test]
fn tar_command_runs_in_the_parent() {
    let c = cmd_tar_xz("/s/full/u/h/2024/01/02/run", "/s/archive/run.tar.xz");
    assert_eq!("tar", c.program);
    assert_eq!(Some("/s/full/u/h/2024/01/02".to_string()), c.current_dir);
    assert_eq!(vec!["cf", "/s/archive/run.tar.xz", "--use-compress-program", "xz -T0", "run"], c.args);
}

#[test]
fn archive_job_writes_checksum_line() {
    let job = ArchiveJob {
        backup_run_name: run(),
        source_dir: "/s/full/alice/host/2024/03/07/home_20240307".to_string(),
        dest_filepath: SourceTraitBackupPath::archive("/s", &run()),
    };
    let (state, action) = job.start();
    assert!(matches!(action, ArchiveAction::Prepare));
    let (state, action) = job.step(state, ArchiveEvent::Prepared(Ok(())));
    assert!(matches!(action, ArchiveAction::Run(_)));
    let ok = CommandOutput { success: true, stdout: vec![], stderr: vec![] };
    let (state, action) = job.step(state, ArchiveEvent::Compressed(ok));
    assert!(matches!(action, ArchiveAction::ReadFile(_)));
    let (state, action) = job.step(state, ArchiveEvent::Read(Some(b"hello".to_vec())));
    match action {
        ArchiveAction::WriteFile { path, contents } => {
            assert_eq!("/s/archive/alice/host/2024/03/07/home_20240307.tar.xz.sha256", path);
            assert_eq!(
                "2cf24dba5fb0a30e26e83b2ac5b9e29e1b161e5c1fa7425e73043362938b9824  home_20240307.tar.xz\n",
                contents
            );
        },
        _ => panic!("expected a write"),
    }
    let (_, action) = job.step(state, ArchiveEvent::Written(None));
    match action {
        ArchiveAction::Complete(out) => {
            assert_eq!("2cf24dba5fb0a30e26e83b2ac5b9e29e1b161e5c1fa7425e73043362938b9824", out.checksum)
        },
        _ => panic!("expected completion"),
    }
    let failed = CommandOutput { success: false, stdout: vec![], stderr: b"no space".to_vec() };
    match job.step(ArchiveState::Compressing, ArchiveEvent::Compressed(failed)).1 {
        ArchiveAction::Fail(Error::Rsync { cause }) => assert_eq!("no space", cause),
        _ => panic!("expected a failure"),
    }
}

#[test]
fn remote_setup_rejects_other_major_versions() {
    let p = SourceTraitBackupPath::RemoteStorageDir { remote: remote(None), storage_dir: "/r".to_string() };
    let (state, action) = p.remote_setup_start();
    match action {
        RemoteSetupAction::Run(c) => assert_eq!("test -d '/r' && test -d '/r/.backup_fs_version'", c.args[1]),
        _ => panic!("expected a command"),
    }
    let ok = RemoteOutput { success: true, stdout: String::new(), stderr: String::new() };
    let (state, action) = p.remote_setup_step(state, Ok(ok));
    assert_eq!(RemoteSetupState::ReadingVersion, state);
    assert!(matches!(action, RemoteSetupAction::Run(_)));
    let v2 = RemoteOutput { success: true, stdout: "2.1.0\n".to_string(), stderr: String::new() };
    match p.remote_setup_step(state, Ok(v2)).1 {
        RemoteSetupAction::Fail(e) => assert_eq!(
            "Remote command failed on host nas: Remote file system version 2.1.0 does not match version 1.0.0. An upgrade is required.",
            e.to_string()
        ),
        _ => panic!("expected a failure"),
    }
    let v1 = RemoteOutput { success: true, stdout: "1.4.2".to_string(), stderr: String::new() };
    let (state, action) = p.remote_setup_step(RemoteSetupState::ReadingVersion, Ok(v1));
    assert_eq!(RemoteSetupState::CheckingDirs, state);
    assert!(matches!(action, RemoteSetupAction::Run(_)));
    let bad = RemoteOutput { success: true, stdout: "one".to_string(), stderr: String::new() };
    assert!(matches!(p.remote_setup_step(RemoteSetupState::ReadingVersion, Ok(bad)).1, RemoteSetupAction::Fail(_)));
}

#[test]
fn remote_setup_of_a_new_storage() {
    let p = SourceTraitBackupPath::RemoteStorageDir { remote: remote(None), storage_dir: "/r".to_string() };
    let missing = RemoteOutput { success: false, stdout: String::new(), stderr: String::new() };
    let (state, action) = p.remote_setup_step(RemoteSetupState::CheckingStorage, Ok(missing));
    assert_eq!(RemoteSetupState::MakingStorage, state);
    match action {
        RemoteSetupAction::Run(c) => assert_eq!(
            "mkdir -p '/r/archive' && mkdir -p '/r/full' && mkdir -p '/r/incremental' && mkdir -p '/r/logs'",
            c.args[1]
        ),
        _ => panic!("expected a command"),
    }
    let done = RemoteOutput { success: true, stdout: String::new(), stderr: String::new() };
    let (state, action) = p.remote_setup_step(state, Ok(done));
    assert_eq!(RemoteSetupState::WritingVersion, state);
    match action {
        RemoteSetupAction::Run(c) => assert_eq!("echo '1.0.0' > /r/.backup_fs_version 2>/dev/null", c.args[1]),
        _ => panic!("expected a command"),
    }
    match p.remote_setup_step(RemoteSetupState::RepairingDirs, Err("not found".to_string())).1 {
        RemoteSetupAction::Fail(e) => assert_eq!(
            "Remote command failed on host nas: Failed to create remote backup storage directories [\"/r\", \"/r/archive\", \"/r/full\", \"/r/incremental\", \"/r/logs\"] :: Remote command failed on host nas: Failed to run ssh :: not found",
            e.to_string()
        ),
        _ => panic!("expected a failure"),
    }
}

#[test]
fn environment_expansion() {
    let env = vec![("HOME".to_string(), "/home/a".to_string())];
    let home = Some("/home/a".to_string());
    assert_eq!("/home/a/x", expand_env("$HOME/x", &home, &env, &Err("no group".to_string())).unwrap());
    assert_eq!("/home/a/y", expand_env("~/y", &home, &env, &Err("no group".to_string())).unwrap());
    assert_eq!("/g/staff", expand_env("/g/$GROUP", &home, &env, &Ok("staff".to_string())).unwrap());
    assert_eq!("$NOPE/z", expand_env("$NOPE/z", &home, &env, &Err("no group".to_string())).unwrap());
    match expand_env("$GROUP", &home, &env, &Err("no primary group for uid 1000".to_string())) {
        Err(Error::Generic { msg }) => assert_eq!(
            "Unable to expand environment variables for: $GROUP :: error looking key 'GROUP' up: no primary group for uid 1000",
            msg
        ),
        _ => panic!("expected a failure"),
    }
}

#[test]
fn home_directory_choice() {
    assert_eq!("/b", home_dir(Some("/b".to_string()), Some("/h".to_string())).unwrap());
    assert_eq!("/h", home_dir(None, Some("/h".to_string())).unwrap());
    assert!(home_dir(None, None).is_err());
}

#[test]
fn first_unresolved_subdir_is_reported() {
    let subdirs = vec!["/s/a".to_string(), "/s/b".to_string(), "/s/c".to_string()];
    match verify_backup_subdirs(&subdirs, &vec![true, false, false]) {
        Err(Error::ConfiguredSubdirNotFound { path, config_key }) => {
            assert_eq!("/s/b", path);
            assert_eq!("backup_storage_dir", config_key);
        },
        _ => panic!("expected a failure"),
    }
    assert!(verify_backup_subdirs(&subdirs, &vec![true, true, true]).is_ok());
}

#[test]
fn backup_dir_holds_the_run_directory() {
    for kind in [BackupType::Full, BackupType::Incremental] {
        let run_dir = SourceTraitBackupPath::backup("/s", kind, &run());
        let dir = SourceTraitBackupPath::backup_dir("/s", BackupPathParts::from_run(kind, &run()));
        let parent = std::path::Path::new(run_dir.as_path()).parent().unwrap();
        assert_eq!(parent, std::path::Path::new(dir.as_path()));
    }
    let undated = BackupPathParts::new(BackupType::Full, "host", "alice", "home", None);
    assert_eq!("/s/full/alice/host", SourceTraitBackupPath::backup_dir("/s", undated).as_path());
}

#[test]
fn setup_makes_every_verified_subdirectory() {
    let (steps, _) = storage_layout_setup("/c", &vec!["alice".to_string(), "bob".to_string()]);
    for sub in backup_storage_subdirs("/c") {
        let step = steps.iter().find(|s| s.dir == sub).expect("a step for every subdirectory");
        assert!(matches!(step.owner, Owner::StorageAdmin));
        assert_eq!(PermissionMode::StorageDir, step.mode);
    }
}

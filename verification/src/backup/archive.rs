//! Archiving a backup: `tar` with `xz`, then a SHA-256 checksum file beside
//! the archive.
use vstd::prelude::*;
use crate::backup::error::{some_text, Error};
use crate::backup::layout::{kind_of, path_of, same_run, sha256_path, BackupRunName, SourceTraitBackupPath};
use crate::command::{string_views, CommandLine, CommandOutput, CommandView};
use crate::path::{extension, file_name, parent};

verus! {

/// The command that archives `source_dir` into `zip_file`:
/// `cd PARENT && tar cf ZIP --use-compress-program 'xz -T0' NAME`.
pub open spec fn tar_xz_view(source_dir: Seq<char>, zip_file: Seq<char>) -> CommandView {
    CommandView {
        program: "tar"@,
        args: seq!["cf"@, zip_file, "--use-compress-program"@, "xz -T0"@, file_name(source_dir).unwrap()],
        current_dir: Some(parent(source_dir).unwrap()),
    }
}

/// The command that archives `source_dir` into `zip_file`; the source must
/// have a parent and a file name.
pub fn cmd_tar_xz(source_dir: &str, zip_file: &str) -> (r: CommandLine)
    requires
        parent(source_dir@).is_some(),
        file_name(source_dir@).is_some(),
    ensures
        r@ == tar_xz_view(source_dir@, zip_file@),
{
    let sc = crate::text::chars_of(source_dir);
    let dir = crate::path::parent_of(&sc).unwrap();
    let name = crate::path::file_name_of(&sc).unwrap();
    let mut args: Vec<String> = Vec::new();
    args.push("cf".to_owned());
    args.push(zip_file.to_owned());
    args.push("--use-compress-program".to_owned());
    args.push("xz -T0".to_owned());
    args.push(crate::text::string_of(&name));
    assert(string_views(args@) =~= tar_xz_view(source_dir@, zip_file@).args);
    CommandLine {
        program: "tar".to_owned(),
        args,
        current_dir: Some(crate::text::string_of(&dir)),
    }
}

/// The SHA-256 digest of some bytes, in lowercase hexadecimal.
pub uninterp spec fn sha256_hex(bytes: Seq<u8>) -> Seq<char>;

/// `sha256::digest` of a byte slice: the SHA-256 digest, hex-encoded in
/// lowercase (64 characters). The digest itself is named, not stated.
#[verifier::external_body]
fn sha256_digest(bytes: &[u8]) -> (r: String)
    ensures
        r@ == sha256_hex(bytes@),
        r@.len() == 64,
{
    sha256::digest(bytes)
}

/// The line of a checksum file: the checksum, two spaces, the file name.
pub open spec fn checksum_line(checksum: Seq<char>, filename: Seq<char>) -> Seq<char> {
    checksum + "  "@ + filename + "\n"@
}

/// A job that archives a backup directory.
#[derive(Debug)]
pub struct ArchiveJob {
    pub backup_run_name: BackupRunName,
    pub source_dir: String,
    /// An archive path of the storage layout.
    pub dest_filepath: SourceTraitBackupPath,
}

/// What an archive job made.
#[derive(Debug)]
pub struct ArchiveJobOutput {
    pub backup_run_name: BackupRunName,
    pub source_dir: String,
    pub dest_filepath: SourceTraitBackupPath,
    pub checksum: String,
}

impl ArchiveJobOutput {
    pub fn new(
        backup_run_name: BackupRunName,
        source_dir: String,
        dest_filepath: SourceTraitBackupPath,
        checksum: String,
    ) -> (r: Self)
        ensures
            r.backup_run_name == backup_run_name,
            r.source_dir == source_dir,
            r.dest_filepath == dest_filepath,
            r.checksum == checksum,
    {
        ArchiveJobOutput { backup_run_name, source_dir, dest_filepath, checksum }
    }
}

/// Where an archive job stands: waiting for the outcome of its last action.
#[derive(Debug)]
pub enum ArchiveState {
    Preparing,
    Compressing,
    Reading,
    Writing { checksum: String },
}

/// What happened to the last action.
#[derive(Debug)]
pub enum ArchiveEvent {
    /// The destination's directories were prepared, or not.
    Prepared(Result<(), Error>),
    /// The archiving command finished.
    Compressed(CommandOutput),
    /// The archive was read (`None`: it could not be).
    Read(Option<Vec<u8>>),
    /// The checksum file was written (`Some`: the cause of a failure).
    Written(Option<String>),
}

/// What to do next.
#[derive(Debug)]
pub enum ArchiveAction {
    /// Prepare the directories of the destination (see `prepare`).
    Prepare,
    /// Run a command.
    Run(CommandLine),
    /// Read a file.
    ReadFile(String),
    /// Write a file.
    WriteFile { path: String, contents: String },
    /// The job is done.
    Complete(ArchiveJobOutput),
    /// The job failed.
    Fail(Error),
}

/// The event answers the state's action.
pub open spec fn archive_event_fits(s: ArchiveState, e: ArchiveEvent) -> bool {
    match s {
        ArchiveState::Preparing => e is Prepared,
        ArchiveState::Compressing => e is Compressed,
        ArchiveState::Reading => e is Read,
        ArchiveState::Writing { .. } => e is Written,
    }
}

impl ArchiveJob {
    /// The job's destination is an archive file with an extension.
    pub open spec fn wf(&self) -> bool {
        &&& kind_of(self.dest_filepath) == 4
        &&& extension(path_of(self.dest_filepath)).is_some()
        &&& file_name(path_of(self.dest_filepath)).is_some()
        &&& parent(self.source_dir@).is_some()
        &&& file_name(self.source_dir@).is_some()
    }

    /// The first action: prepare the destination's directories.
    pub fn start(&self) -> (r: (ArchiveState, ArchiveAction))
        ensures
            r.0 is Preparing,
            r.1 is Prepare,
    {
        (ArchiveState::Preparing, ArchiveAction::Prepare)
    }

    /// The next state and action after an event: a failed preparation
    /// fails the job; then the archive is made; a failed archiving fails
    /// with what it wrote; then the archive is read and its checksum line
    /// written beside it; a failed read or write fails the job.
    pub fn step(&self, state: ArchiveState, event: ArchiveEvent) -> (r: (ArchiveState, ArchiveAction))
        requires
            self.wf(),
            archive_event_fits(state, event),
            event matches ArchiveEvent::Compressed(o) ==> (o.success || vstd::utf8::valid_utf8(o.stderr@)),
        ensures
            event matches ArchiveEvent::Prepared(Err(e)) ==> r.1 == ArchiveAction::Fail(e),
            event matches ArchiveEvent::Prepared(Ok(_)) ==> r.0 is Compressing && (r.1 matches ArchiveAction::Run(c)
                && c@ == tar_xz_view(self.source_dir@, path_of(self.dest_filepath))),
            event matches ArchiveEvent::Compressed(o) ==> (!o.success ==> (r.1 matches ArchiveAction::Fail(
                Error::Rsync { cause },
            ) && cause@ == vstd::utf8::decode_utf8(o.stderr@))),
            event matches ArchiveEvent::Compressed(o) ==> (o.success ==> r.0 is Reading && (r.1 matches ArchiveAction::ReadFile(p)
                && p@ == path_of(self.dest_filepath))),
            event matches ArchiveEvent::Read(None) ==> (r.1 matches ArchiveAction::Fail(Error::Generic { msg })
                && msg@ == "Unable to checksum file"@),
            event matches ArchiveEvent::Read(Some(bytes)) ==> (r.0 matches ArchiveState::Writing { checksum }
                && checksum@ == sha256_hex(bytes@) && (r.1 matches ArchiveAction::WriteFile { path, contents }
                && path@ == sha256_path(path_of(self.dest_filepath)) && contents@ == checksum_line(
                sha256_hex(bytes@),
                file_name(path_of(self.dest_filepath)).unwrap(),
            ))),
            event matches ArchiveEvent::Written(Some(cause)) ==> (r.1 matches ArchiveAction::Fail(
                Error::FileIO { message, path, cause: c },
            ) && message@ == "Unable to write checksum file"@ && path@ == sha256_path(path_of(self.dest_filepath))
                && some_text(c, cause@)),
            event matches ArchiveEvent::Written(None) ==> (state matches ArchiveState::Writing { checksum } && (
            r.1 matches ArchiveAction::Complete(out) && same_run(out.backup_run_name, self.backup_run_name)
                && out.source_dir@ == self.source_dir@ && path_of(out.dest_filepath) == path_of(self.dest_filepath)
                && out.checksum@ == checksum@)),
    {
        let dest = self.dest_filepath.as_path();
        match event {
            ArchiveEvent::Prepared(Err(e)) => (ArchiveState::Preparing, ArchiveAction::Fail(e)),
            ArchiveEvent::Prepared(Ok(_)) => (
                ArchiveState::Compressing,
                ArchiveAction::Run(cmd_tar_xz(self.source_dir.as_str(), dest)),
            ),
            ArchiveEvent::Compressed(o) => {
                if !o.success {
                    (ArchiveState::Compressing, ArchiveAction::Fail(Error::rsync(o.stderr.as_slice())))
                } else {
                    (ArchiveState::Reading, ArchiveAction::ReadFile(dest.to_owned()))
                }
            },
            ArchiveEvent::Read(None) => (ArchiveState::Reading, ArchiveAction::Fail(Error::msg("Unable to checksum file"))),
            ArchiveEvent::Read(Some(bytes)) => {
                let checksum = sha256_digest(bytes.as_slice());
                let path = crate::backup::layout::with_sha256_extension(dest);
                let name = crate::path::filename_string(dest).unwrap();
                let contents = checksum.clone().concat("  ").concat(name.as_str()).concat("\n");
                (ArchiveState::Writing { checksum }, ArchiveAction::WriteFile { path, contents })
            },
            ArchiveEvent::Written(Some(cause)) => {
                let path = crate::backup::layout::with_sha256_extension(dest);
                (
                    ArchiveState::Reading,
                    ArchiveAction::Fail(
                        Error::file_io(cause.as_str(), path.as_str(), "Unable to write checksum file"),
                    ),
                )
            },
            ArchiveEvent::Written(None) => {
                let checksum = match state {
                    ArchiveState::Writing { checksum } => checksum,
                    _ => String::new(),
                };
                let out = ArchiveJobOutput::new(
                    self.backup_run_name.duplicate(),
                    self.source_dir.clone(),
                    self.dest_filepath.duplicate(),
                    checksum,
                );
                (ArchiveState::Reading, ArchiveAction::Complete(out))
            },
        }
    }
}

} // verus!

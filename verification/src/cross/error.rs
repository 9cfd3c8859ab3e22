//! The errors of the platform layer and the kinds they carry.
use vstd::prelude::*;
use crate::command::CommandOutput;

verus! {

/// The kind of command the platform layer runs.
#[derive(Debug, Clone, Copy, PartialEq, Eq, Structural)]
pub enum CmdKind {
    Copy,
    Open,
    Editor,
    Which,
}

/// A check made on a command's output.
#[derive(Debug, Clone, Copy, PartialEq, Eq, Structural)]
pub enum CmdCheck {
    Utf8,
}

/// The file operation that failed, with the paths involved.
#[derive(Debug)]
pub enum ErrIo {
    CreateFile(String),
    CreateDir(String),
    ReadFile(String),
    WriteFile(String),
    ReadDir(String),
    WriteDir(String),
    DeleteFile(String),
    DeleteDir(String),
    CopyFile(String, String),
}

impl ErrIo {
    /// The failure of copying `source` to `dest`.
    pub fn copy_file(source: &str, dest: &str) -> (r: ErrIo)
        ensures
            r matches ErrIo::CopyFile(s, d) && s@ == source@ && d@ == dest@,
    {
        ErrIo::CopyFile(source.to_owned(), dest.to_owned())
    }
}

/// What could not be found.
#[derive(Debug, Clone, Copy, PartialEq, Eq, Structural)]
pub enum ErrNotFound {
    Editor,
    Which,
    UserGroup,
}

/// The per-user base directories.
#[derive(Debug, Clone, Copy, PartialEq, Eq, Hash, Structural)]
pub enum CrossDir {
    HomeCache,
    HomeConfig,
    HomeData,
    HomeState,
}

/// An error of the platform layer. Causes coming from the operating system
/// are kept as their messages.
#[allow(inconsistent_fields)]
#[derive(Debug)]
pub enum CrossError {
    Io { op: ErrIo, cause: String },
    NotFound { kind: ErrNotFound },
    EnvVar { var: String, cause: String },
    CmdCall { kind: CmdKind, cause: String },
    Cmd { kind: CmdKind, output: CommandOutput },
    CmdChecked { kind: CmdKind, check: CmdCheck, output: CommandOutput },
    Unsupported,
    UnsupportedDir { kind: CrossDir },
}

/// The message of a [`CrossError`]: the name of its variant.
pub open spec fn cross_error_text(e: CrossError) -> Seq<char> {
    match e {
        CrossError::Io { .. } => "Io"@,
        CrossError::NotFound { .. } => "NotFound"@,
        CrossError::EnvVar { .. } => "EnvVar"@,
        CrossError::CmdCall { .. } => "CmdCall"@,
        CrossError::Cmd { .. } => "Cmd"@,
        CrossError::CmdChecked { .. } => "CmdChecked"@,
        CrossError::Unsupported => "Unsupported"@,
        CrossError::UnsupportedDir { .. } => "UnsupportedDir"@,
    }
}

impl CrossError {
    pub fn io(op: ErrIo, cause: &str) -> (r: Self)
        ensures
            r matches CrossError::Io { op: o, cause: c } && o == op && c@ == cause@,
    {
        CrossError::Io { op, cause: cause.to_owned() }
    }

    pub fn err_io<T>(op: ErrIo, cause: &str) -> (r: Result<T, CrossError>)
        ensures
            r matches Err(CrossError::Io { op: o, cause: c }) && o == op && c@ == cause@,
    {
        Err(Self::io(op, cause))
    }

    pub fn not_found(kind: ErrNotFound) -> (r: Self)
        ensures
            r == (CrossError::NotFound { kind }),
    {
        CrossError::NotFound { kind }
    }

    pub fn err_not_found<T>(kind: ErrNotFound) -> (r: Result<T, CrossError>)
        ensures
            r == Err::<T, CrossError>(CrossError::NotFound { kind }),
    {
        Err(CrossError::NotFound { kind })
    }

    pub fn cmd_call(kind: CmdKind, cause: &str) -> (r: Self)
        ensures
            r matches CrossError::CmdCall { kind: k, cause: c } && k == kind && c@ == cause@,
    {
        CrossError::CmdCall { kind, cause: cause.to_owned() }
    }

    pub fn err_cmd_call<T>(kind: CmdKind, cause: &str) -> (r: Result<T, CrossError>)
        ensures
            r matches Err(CrossError::CmdCall { kind: k, cause: c }) && k == kind && c@ == cause@,
    {
        Err(Self::cmd_call(kind, cause))
    }

    pub fn cmd(kind: CmdKind, output: CommandOutput) -> (r: Self)
        ensures
            r == (CrossError::Cmd { kind, output }),
    {
        CrossError::Cmd { kind, output }
    }

    pub fn err_cmd<T>(kind: CmdKind, output: CommandOutput) -> (r: Result<T, CrossError>)
        ensures
            r == Err::<T, CrossError>(CrossError::Cmd { kind, output }),
    {
        Err(CrossError::Cmd { kind, output })
    }

    pub fn cmd_checked(kind: CmdKind, check: CmdCheck, output: CommandOutput) -> (r: Self)
        ensures
            r == (CrossError::CmdChecked { kind, check, output }),
    {
        CrossError::CmdChecked { kind, check, output }
    }

    pub fn env_var(var: &str, cause: &str) -> (r: Self)
        ensures
            r matches CrossError::EnvVar { var: v, cause: c } && v@ == var@ && c@ == cause@,
    {
        CrossError::EnvVar { var: var.to_owned(), cause: cause.to_owned() }
    }

    pub fn err_env_var<T>(var: &str, cause: &str) -> (r: Result<T, CrossError>)
        ensures
            r matches Err(CrossError::EnvVar { var: v, cause: c }) && v@ == var@ && c@ == cause@,
    {
        Err(Self::env_var(var, cause))
    }

    pub fn err_unsupported<T>() -> (r: Result<T, CrossError>)
        ensures
            r == Err::<T, CrossError>(CrossError::Unsupported),
    {
        Err(CrossError::Unsupported)
    }

    pub fn unsupported_dir(kind: CrossDir) -> (r: Self)
        ensures
            r == (CrossError::UnsupportedDir { kind }),
    {
        CrossError::UnsupportedDir { kind }
    }

    /// The error's message.
    pub fn to_string(&self) -> (r: String)
        ensures
            r@ == cross_error_text(*self),
    {
        let s = match self {
            CrossError::Io { .. } => "Io",
            CrossError::NotFound { .. } => "NotFound",
            CrossError::EnvVar { .. } => "EnvVar",
            CrossError::CmdCall { .. } => "CmdCall",
            CrossError::Cmd { .. } => "Cmd",
            CrossError::CmdChecked { .. } => "CmdChecked",
            CrossError::Unsupported => "Unsupported",
            CrossError::UnsupportedDir { .. } => "UnsupportedDir",
        };
        s.to_owned()
    }
}

} // verus!

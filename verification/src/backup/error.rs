//! The errors of the backup system.
use vstd::prelude::*;
use crate::backup::remote::{Cmd, Remote};
use crate::command::utf8_string;
use crate::cross::error::CrossError;

verus! {

/// An error of the backup system. Causes from the operating system and from
/// other libraries are kept as their messages.
#[allow(inconsistent_fields)]
#[derive(Debug)]
pub enum Error {
    ConfigFile { path: String, cause: String },
    ConfigParse { cause: String },
    DefaultConfigFileNotFound { path: String },
    ConfigFileNotFound { path: String },
    FileIO { message: String, path: String, cause: Option<String> },
    ConfigReferenceNotFound { schema: String, name: String },
    ConfiguredDirNotFound { path: String, config_key: String },
    ConfiguredSubdirNotFound { path: String, config_key: String },
    Rsync { cause: String },
    TarXZ { cause: String },
    Cmd { cmd: Cmd, message: String, cause: Option<String> },
    RemoteCmd { remote_name: String, message: String, cause: Option<String> },
    AccountNotFound { account_type: String, account: String },
    Cross { source: CrossError },
    Generic { msg: String },
}

/// The kind of account that was not found: a group.
pub const ACCOUNT_GROUP: &'static str = "Group";

/// The kind of account that was not found: a user.
pub const ACCOUNT_USER: &'static str = "User";

/// The message of a command that could not be started.
pub const FAILED_TO_EXECUTE: &'static str = "Unable to run executable";

pub open spec fn some_text(s: Option<String>, t: Seq<char>) -> bool {
    s matches Some(x) && x@ == t
}

impl Error {
    /// The configuration file at `path` could not be used.
    pub fn config_file(path: &str, cause: &str) -> (r: Self)
        ensures
            r matches Error::ConfigFile { path: p, cause: c } && p@ == path@ && c@ == cause@,
    {
        Error::ConfigFile { path: path.to_owned(), cause: cause.to_owned() }
    }

    /// The configured directory `path` (configuration key `config_key`) is missing.
    pub fn configured_dir(path: &str, config_key: &str) -> (r: Self)
        ensures
            r matches Error::ConfiguredDirNotFound { path: p, config_key: k } && p@ == path@ && k@
                == config_key@,
    {
        Error::ConfiguredDirNotFound { config_key: config_key.to_owned(), path: path.to_owned() }
    }

    /// A subdirectory `path` of the configured directory is missing.
    pub fn configured_subdir(path: &str, config_key: &str) -> (r: Self)
        ensures
            r matches Error::ConfiguredSubdirNotFound { path: p, config_key: k } && p@ == path@ && k@
                == config_key@,
    {
        Error::ConfiguredSubdirNotFound { config_key: config_key.to_owned(), path: path.to_owned() }
    }

    /// A failed file operation on `path`, with its cause.
    pub fn file_io(cause: &str, path: &str, message: &str) -> (r: Self)
        ensures
            r matches Error::FileIO { message: m, path: p, cause: c } && m@ == message@ && p@ == path@
                && some_text(c, cause@),
    {
        Error::FileIO { message: message.to_owned(), path: path.to_owned(), cause: Some(cause.to_owned()) }
    }

    /// A failed file operation on `path`, without a cause.
    pub fn file_io_err(path: &str, message: &str) -> (r: Self)
        ensures
            r matches Error::FileIO { message: m, path: p, cause: None } && m@ == message@ && p@ == path@,
    {
        Error::FileIO { message: message.to_owned(), path: path.to_owned(), cause: None }
    }

    /// A command that could not be started.
    pub fn cmd_execute(cause: &str, cmd: Cmd) -> (r: Self)
        ensures
            r matches Error::Cmd { cmd: c, message: m, cause: k } && c == cmd && m@ == FAILED_TO_EXECUTE@
                && some_text(k, cause@),
    {
        Error::Cmd { cmd, message: FAILED_TO_EXECUTE.to_owned(), cause: Some(cause.to_owned()) }
    }

    /// A command that failed, with what it wrote to its error stream.
    pub fn cmd_output(stderr: &str, cmd: Cmd, message: &str) -> (r: Self)
        ensures
            r matches Error::Cmd { cmd: c, message: m, cause: k } && c == cmd && m@ == message@ && some_text(
                k,
                stderr@,
            ),
    {
        Error::Cmd { cmd, message: message.to_owned(), cause: Some(stderr.to_owned()) }
    }

    /// A command on `remote` that failed, with its cause.
    pub fn remote_cmd(cause: &str, remote: &Remote, message: &str) -> (r: Self)
        ensures
            r matches Error::RemoteCmd { remote_name: n, message: m, cause: c } && n@ == remote.name@ && m@
                == message@ && some_text(c, cause@),
    {
        Error::RemoteCmd {
            remote_name: remote.name.clone(),
            message: message.to_owned(),
            cause: Some(cause.to_owned()),
        }
    }

    /// A command on `remote` that failed, without a cause.
    pub fn remote_cmd_err(remote: &Remote, message: &str) -> (r: Self)
        ensures
            r matches Error::RemoteCmd { remote_name: n, message: m, cause: None } && n@ == remote.name@
                && m@ == message@,
    {
        Error::RemoteCmd { remote_name: remote.name.clone(), message: message.to_owned(), cause: None }
    }

    /// `rsync` failed; its error stream must be UTF-8.
    pub fn rsync(stderr: &[u8]) -> (r: Self)
        requires
            vstd::utf8::valid_utf8(stderr@),
        ensures
            r matches Error::Rsync { cause } && cause@ == vstd::utf8::decode_utf8(stderr@),
    {
        match utf8_string(stderr) {
            Some(cause) => Error::Rsync { cause },
            None => Error::Rsync { cause: String::new() },
        }
    }

    /// `tar` with `xz` failed; its error stream must be UTF-8.
    pub fn tar_xz(stderr: &[u8]) -> (r: Self)
        requires
            vstd::utf8::valid_utf8(stderr@),
        ensures
            r matches Error::TarXZ { cause } && cause@ == vstd::utf8::decode_utf8(stderr@),
    {
        match utf8_string(stderr) {
            Some(cause) => Error::TarXZ { cause },
            None => Error::TarXZ { cause: String::new() },
        }
    }

    /// A plain message.
    pub fn msg(msg: &str) -> (r: Self)
        ensures
            r matches Error::Generic { msg: m } && m@ == msg@,
    {
        Error::Generic { msg: msg.to_owned() }
    }

}

/// ` :: CAUSE` when there is a cause.
pub open spec fn cause_suffix(c: Option<String>) -> Seq<char> {
    match c {
        Some(x) => " :: "@ + x@,
        None => Seq::<char>::empty(),
    }
}

/// The message of an error. Names, paths and commands are given as they
/// are, without highlighting.
pub open spec fn backup_error_text(e: Error) -> Seq<char> {
    match e {
        Error::ConfigFile { path, cause } => "Config file error: "@ + path@ + " :: "@ + cause@,
        Error::ConfigParse { cause } => "Config parsing error :: "@ + cause@,
        Error::DefaultConfigFileNotFound { path } => "Config file "@ + path@
            + " not found. Have you ran srctrait backup config yet?"@,
        Error::ConfigFileNotFound { path } => "Config file "@ + path@ + " not found."@,
        Error::FileIO { message, path, cause } => message@ + ": "@ + path@ + cause_suffix(cause),
        Error::ConfigReferenceNotFound { schema, name } => "Config item "@ + name@ + " not found for schema "@
            + schema@,
        Error::ConfiguredDirNotFound { path, config_key } => "Directory "@ + path@ + " not found. (config: "@
            + config_key@ + ")"@,
        Error::ConfiguredSubdirNotFound { path, config_key } => "Subdirectory "@ + path@
            + " not found. (config: "@ + config_key@ + ")"@,
        Error::Rsync { cause } => "Failed to rsync: "@ + cause@,
        Error::TarXZ { cause } => "Failed to tar xz: "@ + cause@,
        Error::Cmd { cmd, message, cause } => "Command "@ + crate::backup::remote::cmd_text(cmd) + " failed: "@
            + message@ + cause_suffix(cause),
        Error::RemoteCmd { remote_name, message, cause } => "Remote command failed on host "@ + remote_name@
            + ": "@ + message@ + cause_suffix(cause),
        Error::AccountNotFound { account_type, account } => account_type@ + " account "@ + account@
            + " not found"@,
        Error::Cross { .. } => "Cross"@,
        Error::Generic { msg } => msg@,
    }
}

fn cause_suffix_of(c: &Option<String>) -> (r: String)
    ensures
        r@ == cause_suffix(*c),
{
    match c {
        Some(x) => " :: ".to_owned().concat(x.as_str()),
        None => String::new(),
    }
}

impl Error {
    /// The message of the error.
    pub fn to_string(&self) -> (r: String)
        ensures
            r@ == backup_error_text(*self),
    {
        match self {
            Error::ConfigFile { path, cause } => "Config file error: ".to_owned().concat(path.as_str()).concat(
                " :: ",
            ).concat(cause.as_str()),
            Error::ConfigParse { cause } => "Config parsing error :: ".to_owned().concat(cause.as_str()),
            Error::DefaultConfigFileNotFound { path } => "Config file ".to_owned().concat(path.as_str()).concat(
                " not found. Have you ran srctrait backup config yet?",
            ),
            Error::ConfigFileNotFound { path } => "Config file ".to_owned().concat(path.as_str()).concat(
                " not found.",
            ),
            Error::FileIO { message, path, cause } => {
                let c = cause_suffix_of(cause);
                message.clone().concat(": ").concat(path.as_str()).concat(c.as_str())
            },
            Error::ConfigReferenceNotFound { schema, name } => "Config item ".to_owned().concat(name.as_str()).concat(
                " not found for schema ",
            ).concat(schema.as_str()),
            Error::ConfiguredDirNotFound { path, config_key } => "Directory ".to_owned().concat(path.as_str()).concat(
                " not found. (config: ",
            ).concat(config_key.as_str()).concat(")"),
            Error::ConfiguredSubdirNotFound { path, config_key } => "Subdirectory ".to_owned().concat(
                path.as_str(),
            ).concat(" not found. (config: ").concat(config_key.as_str()).concat(")"),
            Error::Rsync { cause } => "Failed to rsync: ".to_owned().concat(cause.as_str()),
            Error::TarXZ { cause } => "Failed to tar xz: ".to_owned().concat(cause.as_str()),
            Error::Cmd { cmd, message, cause } => {
                let c = cause_suffix_of(cause);
                let n = cmd.to_string();
                "Command ".to_owned().concat(n.as_str()).concat(" failed: ").concat(message.as_str()).concat(
                    c.as_str(),
                )
            },
            Error::RemoteCmd { remote_name, message, cause } => {
                let c = cause_suffix_of(cause);
                "Remote command failed on host ".to_owned().concat(remote_name.as_str()).concat(": ").concat(
                    message.as_str(),
                ).concat(c.as_str())
            },
            Error::AccountNotFound { account_type, account } => account_type.clone().concat(" account ").concat(
                account.as_str(),
            ).concat(" not found"),
            Error::Cross { .. } => "Cross".to_owned(),
            Error::Generic { msg } => msg.clone(),
        }
    }
}

impl From<CrossError> for Error {
    fn from(source: CrossError) -> (r: Self) {
        Error::Cross { source }
    }
}

impl vstd::std_specs::convert::FromSpecImpl<CrossError> for Error {
    open spec fn obeys_from_spec() -> bool {
        true
    }

    open spec fn from_spec(source: CrossError) -> Error {
        Error::Cross { source }
    }
}

} // verus!

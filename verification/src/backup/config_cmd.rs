//! The decisions of the `config` command.
use vstd::prelude::*;
use crate::backup::error::Error;
use crate::path::parent;
use crate::text::trim;

verus! {

/// The subcommands of `config`.
#[derive(Debug, Clone, Copy, PartialEq, Eq, Structural)]
pub enum ConfigCommand {
    Setup,
    Edit,
    Verify,
    Install,
    Show,
}

pub open spec fn is_y(c: char) -> bool {
    c == 'y' || c == 'Y'
}

/// A yes: `y` or `yes`, in any case.
pub open spec fn is_yes(t: Seq<char>) -> bool {
    ||| t.len() == 1 && is_y(t[0])
    ||| t.len() == 3 && is_y(t[0]) && (t[1] == 'e' || t[1] == 'E') && (t[2] == 's' || t[2] == 'S')
}

/// The answer to a question: yes is `y` or `yes` in any case, around which
/// whitespace is ignored; anything else is no.
pub fn confirm(input: &str) -> (r: bool)
    ensures
        r == is_yes(trim(input@)),
{
    let c = crate::text::chars_of(input);
    let t = crate::text::trim_chars(&c);
    (t.len() == 1 && (t[0] == 'y' || t[0] == 'Y')) || (t.len() == 3 && (t[0] == 'y' || t[0] == 'Y') && (t[1]
        == 'e' || t[1] == 'E') && (t[2] == 's' || t[2] == 'S'))
}

/// What `config setup` does.
#[derive(Debug)]
pub enum ConfigSetupAction {
    /// The file exists: verify it.
    Verify,
    /// The user declined to create it.
    Decline,
    /// Create the directory, then write the default configuration.
    Create { dir: String },
    Fail(Error),
}

pub const E_CONFIG_PARENT: &'static str = "Unable to determine config file parent directory";
pub const E_CREATE_CONFIG_DIRS: &'static str = "Failed to create config path directories";
pub const E_WRITE_DEFAULT_CONFIG: &'static str = "Failed to write default config";

/// `config setup`: an existing file is verified; otherwise, unless forced,
/// the user is asked (`create_confirmed`); the file is created in its
/// parent directory, which it must have.
pub fn run_config_setup(config_path: &str, exists: bool, force: bool, create_confirmed: bool) -> (r: ConfigSetupAction)
    ensures
        exists ==> r is Verify,
        !exists && !force && !create_confirmed ==> r is Decline,
        !exists && (force || create_confirmed) ==> match parent(config_path@) {
            Some(d) => (r matches ConfigSetupAction::Create { dir } && dir@ == d),
            None => (r matches ConfigSetupAction::Fail(Error::FileIO { message, path, cause: None })
                && message@ == E_CONFIG_PARENT@ && path@ == config_path@),
        },
{
    if exists {
        return ConfigSetupAction::Verify;
    }
    if !force && !create_confirmed {
        return ConfigSetupAction::Decline;
    }
    let c = crate::text::chars_of(config_path);
    match crate::path::parent_of(&c) {
        Some(d) => ConfigSetupAction::Create { dir: crate::text::string_of(&d) },
        None => ConfigSetupAction::Fail(Error::file_io_err(config_path, E_CONFIG_PARENT)),
    }
}

} // verus!

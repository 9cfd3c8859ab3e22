//! Per-platform decisions of the platform layer.
use vstd::prelude::*;
use crate::bak::mirror::verbatim_mark;
use crate::command::{string_views, utf8_string, CommandLine, CommandOutput, CommandView};
use crate::cross::error::{CmdCheck, CmdKind, CrossError, ErrNotFound};
use crate::text::{trim, trim_chars, trim_prefix_all, chars_of, string_of};

verus! {

/// macOS.
#[derive(Debug)]
pub struct MacOsCrossPlatform;

/// A platform without support: every operation fails.
#[derive(Debug)]
pub struct UnsupportedCrossPlatform;

/// Windows.
#[derive(Debug)]
pub struct WindowsCrossPlatform;

/// The variable that is set in a macOS terminal session.
pub const ENV_VAR_TERM_SESSION_ID: &'static str = "TERM_SESSION_ID";

/// The program that finds a command on the search path.
pub const CMD_WHICH: &'static str = "which";

/// The program that opens a file with its default application on macOS.
pub const CMD_OPEN: &'static str = "open";

/// The variable that names the user's editor.
pub const ENV_VAR_EDITOR: &'static str = "$EDITOR";

/// What the environment holds for a variable.
#[derive(Debug)]
pub enum EnvLookup {
    Present(String),
    NotPresent,
    NotUnicode(String),
}

impl MacOsCrossPlatform {
    /// Whether the process runs in a terminal session, from the lookup of
    /// the session variable.
    pub fn in_terminal(&self, term_session: &EnvLookup) -> (r: Result<bool, CrossError>)
        ensures
            term_session is Present ==> r == Ok::<bool, CrossError>(true),
            term_session is NotPresent ==> r == Ok::<bool, CrossError>(false),
            term_session matches EnvLookup::NotUnicode(c) ==> (r matches Err(CrossError::EnvVar { var, cause })
                && var@ == ENV_VAR_TERM_SESSION_ID@ && cause@ == c@),
    {
        match term_session {
            EnvLookup::Present(_) => Ok(true),
            EnvLookup::NotPresent => Ok(false),
            EnvLookup::NotUnicode(c) => CrossError::err_env_var(ENV_VAR_TERM_SESSION_ID, c.as_str()),
        }
    }

    /// Paths are shown as they are.
    pub fn sanitize_path(&self, path: &str) -> (r: Result<String, CrossError>)
        ensures
            r matches Ok(p) && p@ == path@,
    {
        Ok(path.to_owned())
    }

    /// The command that opens `file` with its default application, used in
    /// place of an editor outside a terminal.
    pub fn cmd_open(&self, file: &str) -> (r: CommandLine)
        ensures
            r@.program == CMD_OPEN@,
            r@.args == seq![file@],
            r@.current_dir.is_none(),
    {
        single_arg_command(CMD_OPEN, file)
    }
}

impl UnsupportedCrossPlatform {
    pub fn in_terminal(&self) -> (r: Result<bool, CrossError>)
        ensures
            r == Err::<bool, CrossError>(CrossError::Unsupported),
    {
        CrossError::err_unsupported()
    }

    pub fn sanitize_path(&self, path: &str) -> (r: Result<String, CrossError>)
        ensures
            r == Err::<String, CrossError>(CrossError::Unsupported),
    {
        CrossError::err_unsupported()
    }
}

impl WindowsCrossPlatform {
    /// Paths are shown without the extended-length mark `\\?\`.
    pub fn sanitize_path(&self, path: &str) -> (r: Result<String, CrossError>)
        ensures
            r matches Ok(p) && p@ == trim_prefix_all(path@, verbatim_mark()),
    {
        Ok(crate::bak::mirror::sanitize_windows_path_str(path))
    }
}

fn single_arg_command(program: &str, arg: &str) -> (r: CommandLine)
    ensures
        r@.program == program@,
        r@.args == seq![arg@],
        r@.current_dir.is_none(),
{
    let mut args: Vec<String> = Vec::new();
    args.push(arg.to_owned());
    assert(string_views(args@) =~= seq![arg@]);
    CommandLine { program: program.to_owned(), args, current_dir: None }
}

/// `which NAME`.
pub fn cmd_which(name: &str) -> (r: CommandLine)
    ensures
        r@.program == CMD_WHICH@,
        r@.args == seq![name@],
        r@.current_dir.is_none(),
{
    single_arg_command(CMD_WHICH, name)
}

/// What a command printed, as text: an error when it failed or printed
/// something that is not UTF-8; otherwise the trimmed text, `None` when
/// that is empty.
pub fn optional_utf8_from(kind: CmdKind, output: CommandOutput) -> (r: Result<Option<String>, CrossError>)
    ensures
        !output.success ==> r == Err::<Option<String>, CrossError>(CrossError::Cmd { kind, output }),
        output.success && !vstd::utf8::valid_utf8(output.stdout@) ==> r == Err::<Option<String>, CrossError>(
            CrossError::CmdChecked { kind, check: CmdCheck::Utf8, output },
        ),
        output.success && vstd::utf8::valid_utf8(output.stdout@) && trim(
            vstd::utf8::decode_utf8(output.stdout@),
        ).len() == 0 ==> (r matches Ok(None)),
        output.success && vstd::utf8::valid_utf8(output.stdout@) && trim(
            vstd::utf8::decode_utf8(output.stdout@),
        ).len() > 0 ==> (r matches Ok(Some(s)) && s@ == trim(vstd::utf8::decode_utf8(output.stdout@))),
{
    if !output.success {
        return CrossError::err_cmd(kind, output);
    }
    match utf8_string(output.stdout.as_slice()) {
        None => Err(CrossError::cmd_checked(kind, CmdCheck::Utf8, output)),
        Some(s) => {
            let c = chars_of(s.as_str());
            let t = trim_chars(&c);
            if t.len() == 0 {
                Ok(None)
            } else {
                Ok(Some(string_of(&t)))
            }
        },
    }
}

/// The editors tried, in order, when none is configured.
pub const EDITOR_GUESSES: [&'static str; 5] = ["hx", "nvim", "vim", "vi", "nano"];

/// The editor command chosen for `file`: the system's opener when there is
/// one, else the configured editor, else the first guess that was found;
/// with `file` as its argument. `guesses_found[i]` is where the `i`-th
/// guess was found, if it was.
pub open spec fn editor_choice(
    file: Seq<char>,
    sys_open: Option<CommandView>,
    env_editor: Option<Seq<char>>,
    guesses_found: Seq<Option<Seq<char>>>,
) -> Option<CommandView> {
    match sys_open {
        Some(c) => Some(CommandView { args: c.args.push(file), ..c }),
        None => match env_editor {
            Some(e) => Some(CommandView { program: e, args: seq![file], current_dir: None }),
            None => {
                if exists|i: int| 0 <= i < guesses_found.len() && (#[trigger] guesses_found[i]).is_some() {
                    let i = first_found(guesses_found);
                    Some(CommandView { program: guesses_found[i].unwrap(), args: seq![file], current_dir: None })
                } else {
                    None
                }
            },
        },
    }
}

/// The index of the first found guess.
pub open spec fn first_found(g: Seq<Option<Seq<char>>>) -> int {
    choose|i: int| 0 <= i < g.len() && g[i].is_some() && forall|j: int| 0 <= j < i ==> (#[trigger] g[j]).is_none()
}


/// How the configured editor is found: used as it is, or looked up with `which`.
#[derive(Debug)]
pub enum EditorLookup {
    Use(String),
    Which(String),
}

/// An absolute editor path that resolves (`canonical` is its resolved form,
/// if it resolved) is used directly; any other value is looked up.
pub fn editor_from_env(value: &str, canonical: Option<String>) -> (r: EditorLookup)
    ensures
        crate::path::is_absolute(value@) && canonical.is_some() ==> (r matches EditorLookup::Use(p) && p@
            == canonical.unwrap()@),
        !(crate::path::is_absolute(value@) && canonical.is_some()) ==> (r matches EditorLookup::Which(v)
            && v@ == value@),
{
    let c = chars_of(value);
    let absolute = c.len() > 0 && c[0] == '/';
    match canonical {
        Some(p) if absolute => EditorLookup::Use(p),
        _ => EditorLookup::Which(value.to_owned()),
    }
}

pub open spec fn opt_view(o: Option<String>) -> Option<Seq<char>> {
    match o {
        Some(s) => Some(s@),
        None => None,
    }
}

pub open spec fn opt_views(v: Seq<Option<String>>) -> Seq<Option<Seq<char>>> {
    Seq::new(v.len(), |i: int| opt_view(v[i]))
}

pub open spec fn opt_command_view(o: Option<CommandLine>) -> Option<CommandView> {
    match o {
        Some(c) => Some(c@),
        None => None,
    }
}

/// The editor command for `file` (see [`editor_choice`]); none found is an error.
pub fn run_best_editor(
    file: &str,
    sys_open: Option<CommandLine>,
    env_editor: Option<String>,
    guesses_found: &Vec<Option<String>>,
) -> (r: Result<CommandLine, CrossError>)
    ensures
        match editor_choice(file@, opt_command_view(sys_open), opt_view(env_editor), opt_views(guesses_found@)) {
            Some(c) => (r matches Ok(x) && x@ == c),
            None => r == Err::<CommandLine, CrossError>(CrossError::NotFound { kind: ErrNotFound::Editor }),
        },
{
    let ghost g = opt_views(guesses_found@);
    match sys_open {
        Some(c) => {
            let mut args = c.args;
            let ghost before = string_views(args@);
            args.push(file.to_owned());
            assert(string_views(args@) =~= before.push(file@));
            return Ok(CommandLine { program: c.program, args, current_dir: c.current_dir });
        },
        None => {},
    }
    match env_editor {
        Some(e) => {
            return Ok(single_arg_command(e.as_str(), file));
        },
        None => {},
    }
    let mut i: usize = 0;
    while i < guesses_found.len()
        invariant
            i <= guesses_found.len(),
            g.len() == guesses_found@.len(),
            forall|j: int| 0 <= j < i ==> (#[trigger] g[j]).is_none(),
            g == opt_views(guesses_found@),
            sys_open.is_none(),
            env_editor.is_none(),
        decreases guesses_found.len() - i,
    {
        match &guesses_found[i] {
            Some(path) => {
                assert(g[i as int] == Some(path@));
                proof {
                    let ii = i as int;
                    assert(0 <= ii < g.len() && g[ii].is_some() && forall|j: int| 0 <= j < ii ==> (
                    #[trigger] g[j]).is_none());
                    let k = first_found(g);
                    assert(0 <= k < g.len() && g[k].is_some() && forall|j: int| 0 <= j < k ==> (
                    #[trigger] g[j]).is_none());
                    if k < ii {
                        assert(g[k].is_none());
                    }
                    if k > ii {
                        assert(g[ii].is_none());
                    }
                    assert(k == ii);
                }
                return Ok(single_arg_command(path.as_str(), file));
            },
            None => {},
        }
        i += 1;
    }
    CrossError::err_not_found(ErrNotFound::Editor)
}


/// The command found by `which`: the path it printed (trimmed); `None` when
/// it printed nothing but blanks; a failure of `which` itself is passed on.
pub fn exec_which(found: Result<Option<String>, CrossError>) -> (r: Result<Option<CommandLine>, CrossError>)
    ensures
        found matches Ok(Some(p)) ==> (r matches Ok(Some(c)) && c@.program == p@ && c@.args.len() == 0
            && c@.current_dir.is_none()),
        found matches Ok(None) ==> r matches Ok(None),
        found matches Err(e) ==> r == Err::<Option<CommandLine>, CrossError>(e),
{
    match found {
        Ok(Some(p)) => {
            let args: Vec<String> = Vec::new();
            assert(string_views(args@) =~= Seq::<Seq<char>>::empty());
            Ok(Some(CommandLine { program: p, args, current_dir: None }))
        },
        Ok(None) => Ok(None),
        Err(e) => Err(e),
    }
}

/// The per-user base directories of the platform (the state directory is
/// not on every platform).
#[derive(Debug)]
pub struct BaseDirPaths {
    pub cache: String,
    pub config: String,
    pub data: String,
    pub state: Option<String>,
}

/// `subdir` within a base directory; a base the platform lacks is an error.
pub fn dir_for(base: crate::cross::error::CrossDir, dirs: &BaseDirPaths, subdir: &str) -> (r: Result<String, CrossError>)
    ensures
        base == crate::cross::error::CrossDir::HomeCache ==> (r matches Ok(p) && p@ == crate::path::join(
            dirs.cache@,
            subdir@,
        )),
        base == crate::cross::error::CrossDir::HomeConfig ==> (r matches Ok(p) && p@ == crate::path::join(
            dirs.config@,
            subdir@,
        )),
        base == crate::cross::error::CrossDir::HomeData ==> (r matches Ok(p) && p@ == crate::path::join(
            dirs.data@,
            subdir@,
        )),
        base == crate::cross::error::CrossDir::HomeState ==> match dirs.state {
            Some(s) => (r matches Ok(p) && p@ == crate::path::join(s@, subdir@)),
            None => r == Err::<String, CrossError>(CrossError::UnsupportedDir { kind: base }),
        },
{
    match base {
        crate::cross::error::CrossDir::HomeCache => Ok(crate::path::join_str(dirs.cache.as_str(), subdir)),
        crate::cross::error::CrossDir::HomeConfig => Ok(crate::path::join_str(dirs.config.as_str(), subdir)),
        crate::cross::error::CrossDir::HomeData => Ok(crate::path::join_str(dirs.data.as_str(), subdir)),
        crate::cross::error::CrossDir::HomeState => match &dirs.state {
            Some(s) => Ok(crate::path::join_str(s.as_str(), subdir)),
            None => Err(CrossError::unsupported_dir(base)),
        },
    }
}

} // verus!

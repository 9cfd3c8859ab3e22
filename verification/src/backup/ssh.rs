//! The commands run on remotes over `ssh` and `scp`, and how their
//! outcomes are read. The caller runs each command and hands back its
//! outcome.
use vstd::prelude::*;
use crate::backup::error::{some_text, Error};
use crate::backup::remote::{remote_addr, Remote};
use crate::command::{string_views, CommandLine};
use crate::path::parent;
use crate::text::{trim, trim_str};

verus! {

pub const SSH_CMD: &'static str = "ssh";
pub const SCP_CMD: &'static str = "scp";
pub const E_SSH_CMD: &'static str = "Failed to run ssh";
pub const E_SCP_CMD: &'static str = "Failed to run scp";

/// The outcome of a remote command: whether it succeeded, and what it
/// wrote (decoded, with invalid UTF-8 replaced).
#[derive(Debug)]
pub struct RemoteOutput {
    pub success: bool,
    pub stdout: String,
    pub stderr: String,
}

/// The pieces with `sep` between each two.
pub open spec fn join_sep(cs: Seq<Seq<char>>, sep: Seq<char>) -> Seq<char>
    decreases cs.len(),
{
    if cs.len() == 0 {
        Seq::<char>::empty()
    } else if cs.len() == 1 {
        cs[0]
    } else {
        join_sep(cs.drop_last(), sep) + sep + cs.last()
    }
}

/// `TEXT '{path}' TAIL` for each path, joined by ` && `.
pub open spec fn each_quoted(head: Seq<char>, ps: Seq<Seq<char>>) -> Seq<char> {
    join_sep(ps.map_values(|p: Seq<char>| head + "'"@ + p + "'"@), " && "@)
}

/// `ssh ADDR SCRIPT`.
pub open spec fn ssh_view(remote: Remote, script: Seq<char>) -> crate::command::CommandView {
    crate::command::CommandView { program: SSH_CMD@, args: seq![remote_addr(remote), script], current_dir: None }
}

fn ssh_command(remote: &Remote, script: String) -> (r: CommandLine)
    ensures
        r@ == ssh_view(*remote, script@),
{
    let mut args: Vec<String> = Vec::new();
    args.push(remote.addr());
    args.push(script);
    assert(string_views(args@) =~= seq![remote_addr(*remote), script@]);
    CommandLine { program: SSH_CMD.to_owned(), args, current_dir: None }
}

/// `head'{p}'` for each path, joined by ` && `.
fn quoted_each(head: &str, paths: &Vec<String>) -> (r: String)
    ensures
        r@ == each_quoted(head@, string_views(paths@)),
{
    let ghost all = string_views(paths@).map_values(|p: Seq<char>| head@ + "'"@ + p + "'"@);
    let mut r = String::new();
    let mut i: usize = 0;
    assert(all.take(0) =~= Seq::<Seq<char>>::empty());
    while i < paths.len()
        invariant
            i <= paths.len(),
            all == string_views(paths@).map_values(|p: Seq<char>| head@ + "'"@ + p + "'"@),
            r@ == join_sep(all.take(i as int), " && "@),
        decreases paths.len() - i,
    {
        let piece = head.to_owned().concat("'").concat(paths[i].as_str()).concat("'");
        assert(piece@ == all[i as int]);
        let ghost t = all.take(i + 1);
        assert(t.drop_last() =~= all.take(i as int));
        if i == 0 {
            r = piece;
            assert(r@ == join_sep(t, " && "@));
        } else {
            r = r.concat(" && ").concat(piece.as_str());
            assert(r@ =~= join_sep(t, " && "@));
        }
        i += 1;
    }
    assert(all.take(paths.len() as int) =~= all);
    r
}

/// `ssh ADDR "test -FLAG 'P1' && test -FLAG 'P2' ..."`: whether every path
/// passes the test.
pub fn ssh_test_paths(remote: &Remote, test_flag: char, paths: &Vec<String>) -> (r: CommandLine)
    ensures
        r@ == ssh_view(*remote, each_quoted("test -"@ + seq![test_flag] + " "@, string_views(paths@))),
{
    let flag = "test -".to_owned();
    let mut fc: Vec<char> = Vec::new();
    fc.push(test_flag);
    let fs = crate::text::string_of(&fc);
    let head = flag.concat(fs.as_str()).concat(" ");
    ssh_command(remote, quoted_each(head.as_str(), paths))
}

/// Whether all the directories exist on the remote.
pub fn ssh_dirs_exist(remote: &Remote, dirs: &Vec<String>) -> (r: CommandLine)
    ensures
        r@ == ssh_view(*remote, each_quoted("test -"@ + seq!['d'] + " "@, string_views(dirs@))),
{
    ssh_test_paths(remote, 'd', dirs)
}

/// Whether all the files exist on the remote.
pub fn ssh_files_exist(remote: &Remote, files: &Vec<String>) -> (r: CommandLine)
    ensures
        r@ == ssh_view(*remote, each_quoted("test -"@ + seq!['f'] + " "@, string_views(files@))),
{
    ssh_test_paths(remote, 'f', files)
}

/// `ssh ADDR "mkdir -p 'D1' && mkdir -p 'D2' ..."`.
pub fn ssh_make_dirs(remote: &Remote, dirs: &Vec<String>) -> (r: CommandLine)
    ensures
        r@ == ssh_view(*remote, each_quoted("mkdir -p "@, string_views(dirs@))),
{
    ssh_command(remote, quoted_each("mkdir -p ", dirs))
}

/// The error of a command that could not be started.
pub fn remote_spawn_error(remote: &Remote, scp: bool, cause: &str) -> (r: Error)
    ensures
        r matches Error::RemoteCmd { remote_name: n, message: m, cause: c } && n@ == remote.name@ && m@ == (
        if scp {
            E_SCP_CMD@
        } else {
            E_SSH_CMD@
        }) && some_text(c, cause@),
{
    Error::remote_cmd(cause, remote, if scp {
        E_SCP_CMD
    } else {
        E_SSH_CMD
    })
}

/// `ssh ADDR "cat 'FILE' 2>/dev/null"`.
pub fn ssh_file_contents(remote: &Remote, file: &str) -> (r: CommandLine)
    ensures
        r@ == ssh_view(*remote, "cat '"@ + file@ + "' 2>/dev/null"@),
{
    ssh_command(remote, "cat '".to_owned().concat(file).concat("' 2>/dev/null"))
}

/// The contents of the file, trimmed, if the command succeeded.
pub fn ssh_file_contents_outcome(output: &RemoteOutput) -> (r: Option<String>)
    ensures
        output.success ==> (r matches Some(s) && s@ == trim(output.stdout@)),
        !output.success ==> r.is_none(),
{
    if output.success {
        Some(trim_str(output.stdout.as_str()))
    } else {
        None
    }
}

/// `ssh ADDR "cd PARENT && sha256sum --quiet -c 'FILE.sha256'"`; a file
/// without a parent directory is an error.
pub fn ssh_check_file_checksum(remote: &Remote, file: &str) -> (r: Result<CommandLine, Error>)
    ensures
        parent(file@).is_none() ==> (r matches Err(Error::Generic { msg }) && msg@
            == "File has no parent directory"@),
        parent(file@) matches Some(p) ==> (r matches Ok(c) && c@ == ssh_view(
            *remote,
            "cd "@ + p + " && sha256sum --quiet -c '"@ + file@ + ".sha256'"@,
        )),
{
    let fc = crate::text::chars_of(file);
    match crate::path::parent_of(&fc) {
        None => Err(Error::msg("File has no parent directory")),
        Some(p) => {
            let ps = crate::text::string_of(&p);
            Ok(
                ssh_command(
                    remote,
                    "cd ".to_owned().concat(ps.as_str()).concat(" && sha256sum --quiet -c '").concat(
                        file,
                    ).concat(".sha256'"),
                ),
            )
        },
    }
}

/// A failed check names the file and what the command wrote.
pub fn ssh_check_file_checksum_outcome(remote: &Remote, file: &str, output: &RemoteOutput) -> (r: Result<(), Error>)
    ensures
        output.success ==> r is Ok,
        !output.success ==> (r matches Err(Error::RemoteCmd { remote_name: n, message: m, cause: None })
            && n@ == remote.name@ && m@ == "Failed to verify remote file checksum: "@ + file@ + " :: "@
            + output.stderr@),
{
    if output.success {
        Ok(())
    } else {
        let m = "Failed to verify remote file checksum: ".to_owned().concat(file).concat(" :: ").concat(
            output.stderr.as_str(),
        );
        Err(Error::remote_cmd_err(remote, m.as_str()))
    }
}

/// `ssh ADDR "mktemp -d"`.
pub fn ssh_temp_dir(remote: &Remote) -> (r: CommandLine)
    ensures
        r@ == ssh_view(*remote, "mktemp -d"@),
{
    ssh_command(remote, "mktemp -d".to_owned())
}

/// What a command that prints a path or text gives back: its output,
/// trimmed, or an error with `message` and what it wrote to its error stream.
pub open spec fn trimmed_or_error(remote: Remote, output: RemoteOutput, message: Seq<char>, r: Result<String, Error>) -> bool {
    &&& output.success ==> (r matches Ok(s) && s@ == trim(output.stdout@))
    &&& !output.success ==> (r matches Err(Error::RemoteCmd { remote_name: n, message: m, cause: None })
        && n@ == remote.name@ && m@ == message + " :: "@ + output.stderr@)
}

fn trimmed_outcome(remote: &Remote, output: &RemoteOutput, message: &str) -> (r: Result<String, Error>)
    ensures
        trimmed_or_error(*remote, *output, message@, r),
{
    if output.success {
        Ok(trim_str(output.stdout.as_str()))
    } else {
        let m = message.to_owned().concat(" :: ").concat(output.stderr.as_str());
        Err(Error::remote_cmd_err(remote, m.as_str()))
    }
}

/// The temporary directory's path.
pub fn ssh_temp_dir_outcome(remote: &Remote, output: &RemoteOutput) -> (r: Result<String, Error>)
    ensures
        trimmed_or_error(*remote, *output, "Unable to create temp dir"@, r),
{
    trimmed_outcome(remote, output, "Unable to create temp dir")
}

/// Every `'` of `s` preceded by a backslash.
pub open spec fn escape_quotes(s: Seq<char>) -> Seq<char>
    decreases s.len(),
{
    if s.len() == 0 {
        Seq::<char>::empty()
    } else {
        escape_quotes(s.drop_last()) + (if s.last() == '\'' {
            seq!['\\', '\'']
        } else {
            seq![s.last()]
        })
    }
}

fn escape_quotes_of(s: &str) -> (r: String)
    ensures
        r@ == escape_quotes(s@),
{
    let c = crate::text::chars_of(s);
    let mut out: Vec<char> = Vec::new();
    let mut i: usize = 0;
    assert(c@.take(0) =~= Seq::<char>::empty());
    while i < c.len()
        invariant
            i <= c.len(),
            out@ == escape_quotes(c@.take(i as int)),
        decreases c.len() - i,
    {
        let ghost t = c@.take(i + 1);
        assert(t.drop_last() =~= c@.take(i as int));
        if c[i] == '\'' {
            out.push('\\');
            out.push('\'');
        } else {
            out.push(c[i]);
        }
        assert(out@ =~= escape_quotes(t));
        i += 1;
    }
    assert(c@.take(c.len() as int) =~= c@);
    crate::text::string_of(&out)
}

/// `ssh ADDR "echo 'CONTENTS' > FILE 2>/dev/null"`, with each `'` of the
/// contents escaped.
pub fn ssh_write_file(remote: &Remote, file: &str, contents: &str) -> (r: CommandLine)
    ensures
        r@ == ssh_view(*remote, "echo '"@ + escape_quotes(contents@) + "' > "@ + file@ + " 2>/dev/null"@),
{
    let escaped = escape_quotes_of(contents);
    ssh_command(
        remote,
        "echo '".to_owned().concat(escaped.as_str()).concat("' > ").concat(file).concat(" 2>/dev/null"),
    )
}

/// A failed write names the file and what the command wrote.
pub fn ssh_write_file_outcome(remote: &Remote, file: &str, output: &RemoteOutput) -> (r: Result<(), Error>)
    ensures
        output.success ==> r is Ok,
        !output.success ==> (r matches Err(Error::RemoteCmd { remote_name: n, message: m, cause: None })
            && n@ == remote.name@ && m@ == "Failed to write to remote file "@ + file@ + " :: "@
            + output.stderr@),
{
    if output.success {
        Ok(())
    } else {
        let m = "Failed to write to remote file ".to_owned().concat(file).concat(" :: ").concat(
            output.stderr.as_str(),
        );
        Err(Error::remote_cmd_err(remote, m.as_str()))
    }
}

/// `ssh ADDR "rm -rf 'DIR'"`.
pub fn ssh_delete_dir(remote: &Remote, dir: &str) -> (r: CommandLine)
    ensures
        r@ == ssh_view(*remote, "rm -rf '"@ + dir@ + "'"@),
{
    ssh_command(remote, "rm -rf '".to_owned().concat(dir).concat("'"))
}

/// What the deletion printed, trimmed.
pub fn ssh_delete_dir_outcome(remote: &Remote, output: &RemoteOutput) -> (r: Result<String, Error>)
    ensures
        trimmed_or_error(*remote, *output, "Unable to create temp dir"@, r),
{
    trimmed_outcome(remote, output, "Unable to create temp dir")
}

/// `ssh ADDR "cd 'DIR' ; find . -type d | sort ; find . -type f -exec sha256sum {} \; | sort -k 2"`:
/// the directories, then the checksums of the files, of a remote tree.
pub fn ssh_dir_manifest(remote: &Remote, dir: &str) -> (r: CommandLine)
    ensures
        r@ == ssh_view(
            *remote,
            "cd '"@ + dir@ + "' ; find . -type d | sort ; find . -type f -exec sha256sum {} \\; | sort -k 2"@,
        ),
{
    ssh_command(
        remote,
        "cd '".to_owned().concat(dir).concat(
            "' ; find . -type d | sort ; find . -type f -exec sha256sum {} \\; | sort -k 2",
        ),
    )
}

/// The manifest, trimmed.
pub fn ssh_dir_manifest_outcome(remote: &Remote, output: &RemoteOutput) -> (r: Result<String, Error>)
    ensures
        trimmed_or_error(*remote, *output, "Unable to dump a directory manifest"@, r),
{
    trimmed_outcome(remote, output, "Unable to dump a directory manifest")
}

/// `scp LOCAL ADDR:DEST`.
pub fn scp_file(remote: &Remote, local_file: &str, remote_dest: &str) -> (r: CommandLine)
    ensures
        r@.program == SCP_CMD@,
        r@.args == seq![local_file@, remote_addr(*remote) + ":"@ + remote_dest@],
        r@.current_dir.is_none(),
{
    let mut args: Vec<String> = Vec::new();
    args.push(local_file.to_owned());
    args.push(remote.addr().concat(":").concat(remote_dest));
    assert(string_views(args@) =~= seq![local_file@, remote_addr(*remote) + ":"@ + remote_dest@]);
    CommandLine { program: SCP_CMD.to_owned(), args, current_dir: None }
}

/// A failed copy reports what the command wrote.
pub fn scp_file_outcome(remote: &Remote, output: &RemoteOutput) -> (r: Result<(), Error>)
    ensures
        output.success ==> r is Ok,
        !output.success ==> (r matches Err(Error::RemoteCmd { remote_name: n, message: m, cause: None })
            && n@ == remote.name@ && m@ == "Unable to remote copy file :: "@ + output.stderr@),
{
    if output.success {
        Ok(())
    } else {
        let m = "Unable to remote copy file :: ".to_owned().concat(output.stderr.as_str());
        Err(Error::remote_cmd_err(remote, m.as_str()))
    }
}

} // verus!

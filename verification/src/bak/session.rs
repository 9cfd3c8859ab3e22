//! The decisions of the `bak` commands (wipe, list, diff, backup) that
//! surround the file operations, which the caller performs.
use vstd::prelude::*;
use crate::bak::error::{shown_cyan, Error};
use crate::bak::rotation::{
    bak_n_names, bak_n_names_of, bak_name, bak_name_of, entries, entry_exists, exists_in,
    listed_bak_n, listed_of, name_of_source, source_name, strings_of, DirEntry,
};
use crate::command::{string_views, CommandLine};
use crate::order::{sort_names, sort_seqs};
use crate::path::{
    components, components_of, file_name, is_absolute, join, join_str, paths_equal, pieces_eq,
    render, render_of, same_path, split_on, split_pieces, views,
};
use crate::text::{chars_of, string_of, trim, trim_chars};

verus! {

/// The directories a command visits: first the given one, if any, then the
/// mirror of the source's directory in the tool's data directory, if asked.
#[derive(Debug)]
pub struct Targets {
    pub dir: Option<String>,
    pub app_data_mirror: bool,
}

/// `wipe`: in the data directory only its mirror is wiped; elsewhere the
/// directory itself, and the mirror too unless the directory was given.
pub fn wipe_targets(dir: &str, app_data_dir: &str, dir_given: bool) -> (r: Targets)
    ensures
        same_path(dir@, app_data_dir@) ==> r.dir.is_none() && r.app_data_mirror,
        !same_path(dir@, app_data_dir@) ==> (r.dir matches Some(d) && d@ == dir@) && r.app_data_mirror
            == !dir_given,
{
    if paths_equal(dir, app_data_dir) {
        Targets { dir: None, app_data_mirror: true }
    } else {
        Targets { dir: Some(dir.to_owned()), app_data_mirror: !dir_given }
    }
}

/// `list`: the directory unless it is the data directory, then the mirror.
pub fn list_targets(dir: &str, app_data_dir: &str) -> (r: Targets)
    ensures
        same_path(dir@, app_data_dir@) ==> r.dir.is_none(),
        !same_path(dir@, app_data_dir@) ==> (r.dir matches Some(d) && d@ == dir@),
        r.app_data_mirror,
{
    if paths_equal(dir, app_data_dir) {
        Targets { dir: None, app_data_mirror: true }
    } else {
        Targets { dir: Some(dir.to_owned()), app_data_mirror: true }
    }
}

/// `sub` lies strictly inside `top`: same root, and the components of
/// `top` are a proper prefix of those of `sub`.
pub open spec fn strictly_inside(top: Seq<char>, sub: Seq<char>) -> bool {
    &&& is_absolute(top) == is_absolute(sub)
    &&& components(top).len() < components(sub).len()
    &&& components(sub).take(components(top).len() as int) == components(top)
}

/// The directories that may be removed, once emptied, after a wipe of the
/// mirror `sub` inside the data directory `top`: `sub`, then each parent,
/// while still strictly inside `top`.
pub open spec fn cleanup_dirs(top: Seq<char>, sub: Seq<char>) -> Seq<Seq<char>> {
    if strictly_inside(top, sub) {
        let n = components(sub).len();
        Seq::new(
            (n - components(top).len()) as nat,
            |k: int| render(is_absolute(sub), components(sub).take(n - k)),
        )
    } else {
        Seq::<Seq<char>>::empty()
    }
}

/// The candidates for removal after a wipe of `app_data_subdir`, innermost
/// first. The caller removes each while it is an empty directory, and stops
/// at the first that is not.
pub fn remove_app_data_subdir(app_data_dir: &str, app_data_subdir: &str) -> (r: Vec<String>)
    ensures
        string_views(r@) == cleanup_dirs(app_data_dir@, app_data_subdir@),
{
    let top = chars_of(app_data_dir);
    let sub = chars_of(app_data_subdir);
    let (tabs, tcs) = components_of(&top);
    let (sabs, scs) = components_of(&sub);
    let mut r: Vec<String> = Vec::new();
    if tabs != sabs || tcs.len() >= scs.len() {
        assert(string_views(r@) =~= Seq::<Seq<char>>::empty());
        return r;
    }
    let mut head: Vec<Vec<char>> = Vec::new();
    let mut i: usize = 0;
    while i < tcs.len()
        invariant
            i <= tcs.len() < scs.len(),
            views(head@) == views(scs@).take(i as int),
        decreases tcs.len() - i,
    {
        let piece = crate::text::skip_chars(&scs[i], 0);
        assert(piece@ =~= scs@[i as int]@);
        let ghost before = views(head@);
        head.push(piece);
        assert(views(head@) =~= before.push(scs@[i as int]@));
        assert(views(scs@).take(i + 1) =~= views(scs@).take(i as int).push(scs@[i as int]@));
        i += 1;
    }
    if !pieces_eq(&head, &tcs) {
        assert(string_views(r@) =~= Seq::<Seq<char>>::empty());
        return r;
    }
    let n = scs.len();
    let m = tcs.len();
    let ghost want = cleanup_dirs(app_data_dir@, app_data_subdir@);
    assert(views(scs@).take(n as int) =~= views(scs@));
    let mut cur = scs;
    let mut k: usize = 0;
    while k < n - m
        invariant
            m < n,
            k <= n - m,
            n == components(app_data_subdir@).len(),
            views(cur@) == components(app_data_subdir@).take(n - k),
            sabs == is_absolute(app_data_subdir@),
            want == cleanup_dirs(app_data_dir@, app_data_subdir@),
            want.len() == n - m,
            forall|j: int| 0 <= j < want.len() ==> #[trigger] want[j] == render(
                is_absolute(app_data_subdir@),
                components(app_data_subdir@).take(n - j),
            ),
            string_views(r@) == want.take(k as int),
        decreases n - m - k,
    {
        let p = render_of(sabs, &cur);
        let s = string_of(&p);
        let ghost before = string_views(r@);
        r.push(s);
        assert(string_views(r@) =~= before.push(want[k as int]));
        assert(want.take(k + 1) =~= want.take(k as int).push(want[k as int]));
        let ghost all = views(cur@);
        cur.pop();
        assert(views(cur@) =~= all.drop_last());
        assert(components(app_data_subdir@).take(n - k).drop_last() =~= components(app_data_subdir@).take(
            n - (k + 1),
        ));
        k += 1;
    }
    assert(want.take(want.len() as int) =~= want);
    r
}

/// The copies of a file shown by `list`: its numbered copies as
/// `list_bak_n_files` sorts them, and, when the single copy exists too, all
/// of them sorted again.
pub open spec fn listed_copies(f: Seq<char>, l: Seq<(Seq<char>, bool)>) -> Seq<Seq<char>> {
    if entry_exists(l, bak_name(f)) {
        sort_seqs(bak_n_names(f, l) + seq![bak_name(f)])
    } else {
        listed_bak_n(f, l)
    }
}

/// The names of the copies of `source_file` in a directory, sorted, as
/// `list` prints them (nothing is printed when there are none).
pub fn print_list_backups(source_file: &str, listing: &[DirEntry]) -> (r: Vec<String>)
    requires
        file_name(source_file@).is_some(),
    ensures
        string_views(r@) == listed_copies(source_name(source_file@), entries(listing@)),
{
    let f = name_of_source(source_file);
    let b = bak_name_of(&f);
    if exists_in(listing, &b) {
        let mut names = bak_n_names_of(&f, listing);
        let ghost base = views(names@);
        names.push(b);
        assert(views(names@) =~= base + seq![bak_name(f@)]);
        let sorted = sort_names(&names);
        let out = strings_of(&sorted);
        assert(string_views(out@) =~= views(sorted@));
        out
    } else {
        let listed = listed_of(&f, listing);
        let out = strings_of(&listed);
        assert(string_views(out@) =~= views(listed@));
        out
    }
}

/// The copy that `diff` compares with: the single copy when it exists (only
/// for index 0), else the numbered copy at `index` as `list_bak_n_files` sorts them.
pub open spec fn diff_choice(f: Seq<char>, l: Seq<(Seq<char>, bool)>, index: nat) -> Option<Seq<char>> {
    if entry_exists(l, bak_name(f)) {
        if index > 0 {
            None
        } else {
            Some(bak_name(f))
        }
    } else if index < listed_bak_n(f, l).len() {
        Some(listed_bak_n(f, l)[index as int])
    } else {
        None
    }
}

/// The path of the copy of `source_file` in `dir` to compare the source
/// with; an index that names no copy is an error.
pub fn diff_target(source_file: &str, dir: &str, listing: &[DirEntry], index: u8) -> (r: Result<String, Error>)
    requires
        file_name(source_file@).is_some(),
    ensures
        match diff_choice(source_name(source_file@), entries(listing@), index as nat) {
            Some(n) => (r matches Ok(p) && p@ == join(dir@, n)),
            None => (r matches Err(Error::Index { src, index: i }) && shown_cyan(source_file@, src@) && i
                == index),
        },
{
    let f = name_of_source(source_file);
    let b = bak_name_of(&f);
    let name: Vec<char> = if exists_in(listing, &b) {
        if index > 0 {
            return Err(Error::index(source_file, index));
        }
        b
    } else {
        let listed = listed_of(&f, listing);
        if (index as usize) < listed.len() {
            let n = crate::text::skip_chars(&listed[index as usize], 0);
            assert(n@ =~= views(listed@)[index as int]);
            n
        } else {
            return Err(Error::index(source_file, index));
        }
    };
    let ns = string_of(&name);
    Ok(join_str(dir, ns.as_str()))
}

/// The answer to a confirmation: yes is `y`, in either case, around which
/// whitespace is ignored.
pub fn confirm_answer(input: &str) -> (r: bool)
    ensures
        r == (trim(input@) == seq!['y'] || trim(input@) == seq!['Y']),
{
    let c = chars_of(input);
    let t = trim_chars(&c);
    let r = t.len() == 1 && (t[0] == 'y' || t[0] == 'Y');
    proof {
        if t.len() == 1 {
            if t[0] == 'y' {
                assert(t@ =~= seq!['y']);
            }
            if t[0] == 'Y' {
                assert(t@ =~= seq!['Y']);
            }
        }
        if t@ == seq!['y'] || t@ == seq!['Y'] {
            assert(t@.len() == 1);
        }
    }
    r
}

/// A line without a final carriage return.
pub open spec fn strip_cr(l: Seq<char>) -> Seq<char> {
    if l.len() > 0 && l.last() == '\r' {
        l.drop_last()
    } else {
        l
    }
}

/// The lines of a trimmed text (as `str::lines` gives them).
pub open spec fn text_lines(t: Seq<char>) -> Seq<Seq<char>> {
    if t.len() == 0 {
        Seq::<Seq<char>>::empty()
    } else {
        split_on(t, '\n').map_values(|l: Seq<char>| strip_cr(l))
    }
}

/// Each line followed by a newline.
pub open spec fn terminated(ls: Seq<Seq<char>>) -> Seq<char>
    decreases ls.len(),
{
    if ls.len() == 0 {
        Seq::<char>::empty()
    } else {
        terminated(ls.drop_last()) + ls.last() + seq!['\n']
    }
}

/// What `diff` shows of the output of `git diff`: its trimmed lines past
/// the first two (which name the files), trimmed.
pub open spec fn diff_body(out: Seq<char>) -> Seq<char> {
    let ls = text_lines(trim(out));
    trim(terminated(if ls.len() >= 2 { ls.skip(2) } else { Seq::<Seq<char>>::empty() }))
}

/// The part of `git diff`'s output that `diff` prints.
pub fn git_diff_body(out: &str) -> (r: String)
    ensures
        r@ == diff_body(out@),
{
    let c = chars_of(out);
    let t = trim_chars(&c);
    let ghost ls = text_lines(t@);
    let mut body: Vec<char> = Vec::new();
    if t.len() > 0 {
        let pieces = split_pieces(&t, '\n');
        let ghost ps = views(pieces@);
        assert(ls =~= ps.map_values(|l: Seq<char>| strip_cr(l)));
        if pieces.len() >= 2 {
            let ghost rest = ls.skip(2);
            let mut i: usize = 2;
            assert(rest.take(0) =~= Seq::<Seq<char>>::empty());
            while i < pieces.len()
                invariant
                    2 <= i <= pieces.len(),
                    ps == views(pieces@),
                    ls == ps.map_values(|l: Seq<char>| strip_cr(l)),
                    rest == ls.skip(2),
                    body@ == terminated(rest.take(i - 2)),
                decreases pieces.len() - i,
            {
                let line = &pieces[i];
                let mut len = line.len();
                if len > 0 && line[len - 1] == '\r' {
                    len -= 1;
                }
                let stripped = crate::text::take_chars(line, len);
                assert(stripped@ =~= strip_cr(ps[i as int]));
                assert(rest[i - 2] == ls[i as int]);
                body = crate::text::concat(&body, &stripped);
                body.push('\n');
                let ghost nt = rest.take(i - 1);
                assert(nt.drop_last() =~= rest.take(i - 2));
                assert(nt.last() == stripped@);
                assert(body@ =~= terminated(nt));
                i += 1;
            }
            assert(rest.take(pieces.len() - 2) =~= rest);
        } else {
            assert(body@ =~= terminated(Seq::<Seq<char>>::empty()));
        }
    } else {
        assert(ls =~= Seq::<Seq<char>>::empty());
        assert(body@ =~= terminated(Seq::<Seq<char>>::empty()));
    }
    let b = trim_chars(&body);
    string_of(&b)
}

/// The commands that show the difference between a copy and the source,
/// in order of preference: `git diff`, then `diff` on Linux and macOS, or
/// PowerShell's `compare-object` on Windows.
pub fn diff_commands(source: &str, file_b: &str, windows: bool) -> (r: Vec<CommandLine>)
    ensures
        r@.len() == 2,
        r@[0]@.program == "git"@,
        r@[0]@.args == seq!["diff"@, "--no-index"@, "--color"@, file_b@, source@],
        r@[0]@.current_dir.is_none(),
        !windows ==> r@[1]@.program == "diff"@ && r@[1]@.args == seq!["--color=always"@, "-c"@, file_b@, source@],
        windows ==> r@[1]@.program == "powershell"@ && r@[1]@.args == seq![
            "compare-object"@,
            "(get-content "@ + file_b@ + ")"@,
            "(get-content "@ + source@ + ")"@,
        ],
        r@[1]@.current_dir.is_none(),
{
    let mut git_args: Vec<String> = Vec::new();
    git_args.push("diff".to_owned());
    git_args.push("--no-index".to_owned());
    git_args.push("--color".to_owned());
    git_args.push(file_b.to_owned());
    git_args.push(source.to_owned());
    assert(string_views(git_args@) =~= seq!["diff"@, "--no-index"@, "--color"@, file_b@, source@]);
    let git = CommandLine { program: "git".to_owned(), args: git_args, current_dir: None };
    let mut other_args: Vec<String> = Vec::new();
    let other = if windows {
        other_args.push("compare-object".to_owned());
        other_args.push("(get-content ".to_owned().concat(file_b).concat(")"));
        other_args.push("(get-content ".to_owned().concat(source).concat(")"));
        assert(string_views(other_args@) =~= seq![
            "compare-object"@,
            "(get-content "@ + file_b@ + ")"@,
            "(get-content "@ + source@ + ")"@,
        ]);
        CommandLine { program: "powershell".to_owned(), args: other_args, current_dir: None }
    } else {
        other_args.push("--color=always".to_owned());
        other_args.push("-c".to_owned());
        other_args.push(file_b.to_owned());
        other_args.push(source.to_owned());
        assert(string_views(other_args@) =~= seq!["--color=always"@, "-c"@, file_b@, source@]);
        CommandLine { program: "diff".to_owned(), args: other_args, current_dir: None }
    };
    let mut r: Vec<CommandLine> = Vec::new();
    r.push(git);
    r.push(other);
    r
}

/// A failed copy into a directory other than the data directory is retried
/// in the mirror when it failed for lack of permission.
pub fn retry_in_app_data(permission_denied: bool, is_app_data_dir: bool) -> (r: bool)
    ensures
        r == (permission_denied && !is_app_data_dir),
{
    permission_denied && !is_app_data_dir
}


/// The subcommands of `bak`.
#[derive(Debug, Clone, Copy, PartialEq, Eq, Structural)]
pub enum CliCommand {
    List,
    Wipe,
    Diff { index: u8 },
}

/// What `bak` does: a backup when no subcommand is given.
#[derive(Debug, Clone, Copy, PartialEq, Eq, Structural)]
pub enum BakCommand {
    Backup,
    List,
    Wipe,
    Diff(u8),
}

/// The command to run for the parsed subcommand.
pub fn run_with(subcommand: Option<CliCommand>) -> (r: BakCommand)
    ensures
        subcommand is None ==> r == BakCommand::Backup,
        subcommand == Some(CliCommand::List) ==> r == BakCommand::List,
        subcommand == Some(CliCommand::Wipe) ==> r == BakCommand::Wipe,
        subcommand matches Some(CliCommand::Diff { index }) ==> r == BakCommand::Diff(index),
{
    match subcommand {
        None => BakCommand::Backup,
        Some(CliCommand::List) => BakCommand::List,
        Some(CliCommand::Wipe) => BakCommand::Wipe,
        Some(CliCommand::Diff { index }) => BakCommand::Diff(index),
    }
}

} // verus!

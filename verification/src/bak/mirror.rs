//! Where the `bak` tool keeps copies when they go to its own data directory:
//! a tree under that directory that mirrors the source file's directory.
use vstd::prelude::*;
use crate::bak::error::Error;
use crate::path::{
    components, components_of, is_absolute, join_with, keep_components, keep_nonempty,
    nonempty_pieces_of, render, segments_of, split_on, views,
};
use crate::text::{
    backslash_all, backslashed, chars_of, concat, first_piece, has_prefix, skip_chars,
    starts_with, string_of, take_chars, take_until, trim_prefix_all, trim_start_matches,
};

verus! {

/// How paths are written: with `/` only, or Windows' `\` with prefixes.
#[derive(Debug, Clone, Copy, PartialEq, Eq, Structural)]
pub enum PathStyle {
    Unix,
    Windows,
}

/// `\\?\`, the mark of a Windows extended-length ("verbatim") path.
pub open spec fn verbatim_mark() -> Seq<char> {
    seq!['\\', '\\', '?', '\\']
}

/// A component as a directory name: every leading verbatim mark removed.
pub open spec fn dirname_of(c: Seq<char>) -> Seq<char> {
    trim_prefix_all(c, verbatim_mark())
}

/// Names that add no directory: empty, `.`, `/` and `\`.
pub open spec fn is_passed_dirname(d: Seq<char>) -> bool {
    d.len() == 0 || d == seq!['.'] || d == seq!['/'] || d == seq!['\\']
}

/// A drive such as `C:` becomes its letter.
pub open spec fn shorten_drive(d: Seq<char>) -> Seq<char> {
    if d.len() == 2 && d[1] == ':' {
        seq![d[0]]
    } else {
        d
    }
}

/// The directory names that the mirror adds for the given components.
pub open spec fn mirror_items(cs: Seq<Seq<char>>) -> Seq<Seq<char>>
    decreases cs.len(),
{
    if cs.len() == 0 {
        Seq::<Seq<char>>::empty()
    } else {
        let r = mirror_items(cs.drop_last());
        let d = dirname_of(cs.last());
        if is_passed_dirname(d) {
            r
        } else {
            r.push(shorten_drive(d))
        }
    }
}

/// Some component names the parent directory (`..`).
pub open spec fn has_parent_dirname(cs: Seq<Seq<char>>) -> bool {
    exists|i: int| 0 <= i < cs.len() && dirname_of(#[trigger] cs[i]) == seq!['.', '.']
}

/// A Unix path has a parent unless it is empty or the root.
pub open spec fn unix_has_parent(p: Seq<char>) -> bool {
    components(p).len() > 0 || (p.len() > 0 && !is_absolute(p))
}

/// The components of a Unix path's parent (without its root).
pub open spec fn unix_parent_components(p: Seq<char>) -> Seq<Seq<char>> {
    if components(p).len() > 0 {
        components(p).drop_last()
    } else {
        Seq::<Seq<char>>::empty()
    }
}

pub open spec fn is_verbatim(p: Seq<char>) -> bool {
    has_prefix(p, verbatim_mark())
}

pub open spec fn is_drive_letter(c: char) -> bool {
    ('a' <= c && c <= 'z') || ('A' <= c && c <= 'Z')
}

/// The prefix of a Windows path: the verbatim mark with the text up to the
/// next `\` (`\\?\C:`), or a drive (`C:`), or nothing.
pub open spec fn win_prefix(p: Seq<char>) -> Seq<char> {
    if is_verbatim(p) {
        verbatim_mark() + first_piece(p.skip(4), '\\')
    } else if p.len() >= 2 && p[1] == ':' && is_drive_letter(p[0]) {
        p.take(2)
    } else {
        Seq::<char>::empty()
    }
}

/// What follows the prefix, with `/` read as `\` unless the path is verbatim.
pub open spec fn win_rest(p: Seq<char>) -> Seq<char> {
    let rest = p.skip(win_prefix(p).len() as int);
    if is_verbatim(p) {
        rest
    } else {
        backslashed(rest)
    }
}

/// Whether a Windows path has a root after its prefix.
pub open spec fn win_rooted(p: Seq<char>) -> bool {
    win_rest(p).len() > 0 && win_rest(p)[0] == '\\'
}

/// The named components after the prefix and root: empty pieces never
/// count, `.` pieces count only in verbatim paths.
pub open spec fn win_segments(p: Seq<char>) -> Seq<Seq<char>> {
    if is_verbatim(p) {
        keep_nonempty(split_on(win_rest(p), '\\'))
    } else {
        keep_components(split_on(win_rest(p), '\\'))
    }
}

/// A Windows path has a parent when it has a named component, or is a
/// non-empty relative path without prefix.
pub open spec fn win_has_parent(p: Seq<char>) -> bool {
    win_segments(p).len() > 0 || (win_prefix(p).len() == 0 && !win_rooted(p) && p.len() > 0)
}

/// The components of a Windows path's parent that can name a directory:
/// its prefix, then its segments but the last.
pub open spec fn win_parent_components(p: Seq<char>) -> Seq<Seq<char>> {
    (if win_prefix(p).len() > 0 {
        seq![win_prefix(p)]
    } else {
        Seq::<Seq<char>>::empty()
    }) + (if win_segments(p).len() > 0 {
        win_segments(p).drop_last()
    } else {
        Seq::<Seq<char>>::empty()
    })
}

/// A Windows path written from its parts, with `\` as the separator.
pub open spec fn win_render(prefix: Seq<char>, rooted: bool, verbatim: bool, segs: Seq<Seq<char>>) -> Seq<
    char,
> {
    prefix + (if rooted || (verbatim && segs.len() > 0) {
        seq!['\\']
    } else {
        Seq::<char>::empty()
    }) + join_with(segs, '\\')
}

/// The source file has a parent directory.
pub open spec fn source_has_parent(style: PathStyle, src: Seq<char>) -> bool {
    match style {
        PathStyle::Unix => unix_has_parent(src),
        PathStyle::Windows => win_has_parent(src),
    }
}

/// The components of the source file's directory.
pub open spec fn source_dir_components(style: PathStyle, src: Seq<char>) -> Seq<Seq<char>> {
    match style {
        PathStyle::Unix => unix_parent_components(src),
        PathStyle::Windows => win_parent_components(src),
    }
}

/// The mirror of the source file's directory under `base`, in normal form:
/// `base` followed by the directory names of the source's directory.
pub open spec fn mirror_path(style: PathStyle, base: Seq<char>, src: Seq<char>) -> Seq<char> {
    match style {
        PathStyle::Unix => render(
            is_absolute(base),
            components(base) + mirror_items(unix_parent_components(src)),
        ),
        PathStyle::Windows => win_render(
            win_prefix(base),
            win_rooted(base),
            is_verbatim(base),
            win_segments(base) + mirror_items(win_parent_components(src)),
        ),
    }
}

fn verbatim_mark_chars() -> (r: Vec<char>)
    ensures
        r@ == verbatim_mark(),
{
    let mut r: Vec<char> = Vec::new();
    r.push('\\');
    r.push('\\');
    r.push('?');
    r.push('\\');
    assert(r@ =~= verbatim_mark());
    r
}

/// The directory name that one component adds, if any.
fn mirror_item(c: &[char]) -> (r: Option<Vec<char>>)
    ensures
        match r {
            Some(d) => !is_passed_dirname(dirname_of(c@)) && d@ == shorten_drive(dirname_of(c@)),
            None => is_passed_dirname(dirname_of(c@)),
        },
{
    let mark = verbatim_mark_chars();
    let d = trim_start_matches(c, &mark);
    let passed = d.len() == 0 || (d.len() == 1 && (d[0] == '.' || d[0] == '/' || d[0] == '\\'));
    proof {
        if d.len() == 1 {
            if d[0] == '.' {
                assert(d@ =~= seq!['.']);
            }
            if d[0] == '/' {
                assert(d@ =~= seq!['/']);
            }
            if d[0] == '\\' {
                assert(d@ =~= seq!['\\']);
            }
        }
        if d@ == seq!['.'] || d@ == seq!['/'] || d@ == seq!['\\'] {
            assert(d@.len() == 1);
        }
    }
    if passed {
        return None;
    }
    if d.len() == 2 && d[1] == ':' {
        let mut s: Vec<char> = Vec::new();
        s.push(d[0]);
        assert(s@ =~= seq![d@[0]]);
        Some(s)
    } else {
        Some(d)
    }
}

/// The directory names that the mirror adds for the given components.
fn mirror_items_of(cs: &Vec<Vec<char>>) -> (r: Vec<Vec<char>>)
    ensures
        views(r@) == mirror_items(views(cs@)),
{
    let mut r: Vec<Vec<char>> = Vec::new();
    let mut i: usize = 0;
    assert(views(cs@).take(0) =~= Seq::<Seq<char>>::empty());
    while i < cs.len()
        invariant
            i <= cs.len(),
            views(r@) == mirror_items(views(cs@).take(i as int)),
        decreases cs.len() - i,
    {
        let ghost t = views(cs@).take(i + 1);
        assert(t.drop_last() =~= views(cs@).take(i as int));
        assert(t.last() == cs@[i as int]@);
        match mirror_item(&cs[i]) {
            Some(d) => {
                let ghost before = views(r@);
                r.push(d);
                assert(views(r@) =~= before.push(d@));
            },
            None => {},
        }
        i += 1;
    }
    assert(views(cs@).take(cs.len() as int) =~= views(cs@));
    r
}

/// Whether some component names the parent directory.
fn any_parent_dirname(cs: &Vec<Vec<char>>) -> (r: bool)
    ensures
        r == has_parent_dirname(views(cs@)),
{
    let mark = verbatim_mark_chars();
    let mut i: usize = 0;
    while i < cs.len()
        invariant
            i <= cs.len(),
            mark@ == verbatim_mark(),
            forall|j: int| 0 <= j < i ==> dirname_of(#[trigger] views(cs@)[j]) != seq!['.', '.'],
        decreases cs.len() - i,
    {
        let d = trim_start_matches(&cs[i], &mark);
        assert(views(cs@)[i as int] == cs@[i as int]@);
        if d.len() == 2 && d[0] == '.' && d[1] == '.' {
            assert(d@ =~= seq!['.', '.']);
            return true;
        }
        proof {
            if d@ == seq!['.', '.'] {
                assert(d@[0] == '.' && d@[1] == '.');
            }
        }
        i += 1;
    }
    false
}

/// The parts of a Windows path: its prefix, whether it is rooted, whether it
/// is verbatim, and its segments.
fn win_parts(p: &[char]) -> (r: (Vec<char>, bool, bool, Vec<Vec<char>>))
    ensures
        r.0@ == win_prefix(p@),
        r.1 == win_rooted(p@),
        r.2 == is_verbatim(p@),
        views(r.3@) == win_segments(p@),
{
    let mark = verbatim_mark_chars();
    let verbatim = starts_with(p, &mark);
    let prefix: Vec<char> = if verbatim {
        let tail = skip_chars(p, 4);
        let first = take_until(&tail, '\\');
        concat(&mark, &first)
    } else if p.len() >= 2 && p[1] == ':' && ((p[0] >= 'a' && p[0] <= 'z') || (p[0] >= 'A' && p[0] <= 'Z')) {
        take_chars(p, 2)
    } else {
        Vec::new()
    };
    proof {
        if verbatim {
            crate::text::lemma_first_piece_len(p@.skip(4), '\\');
        }
        assert(prefix@ =~= win_prefix(p@));
    }
    let tail = skip_chars(p, prefix.len());
    let rest = if verbatim {
        tail
    } else {
        backslash_all(&tail)
    };
    assert(rest@ =~= win_rest(p@));
    let rooted = rest.len() > 0 && rest[0] == '\\';
    let segs = if verbatim {
        nonempty_pieces_of(&rest, '\\')
    } else {
        segments_of(&rest, '\\')
    };
    (prefix, rooted, verbatim, segs)
}

/// A Windows path from its parts.
fn win_render_of(prefix: &[char], rooted: bool, verbatim: bool, segs: &Vec<Vec<char>>) -> (r: Vec<char>)
    ensures
        r@ == win_render(prefix@, rooted, verbatim, views(segs@)),
{
    let mut head = skip_chars(prefix, 0);
    if rooted || (verbatim && segs.len() > 0) {
        head.push('\\');
    }
    assert(head@ =~= prefix@ + (if rooted || (verbatim && segs.len() > 0) {
        seq!['\\']
    } else {
        Seq::<char>::empty()
    }));
    let joined = join_chars_with(segs, '\\');
    concat(&head, &joined)
}

/// The pieces joined with `sep` between each two.
fn join_chars_with(cs: &Vec<Vec<char>>, sep: char) -> (r: Vec<char>)
    ensures
        r@ == join_with(views(cs@), sep),
{
    let mut r: Vec<char> = Vec::new();
    let mut i: usize = 0;
    assert(views(cs@).take(0) =~= Seq::<Seq<char>>::empty());
    while i < cs.len()
        invariant
            i <= cs.len(),
            r@ == join_with(views(cs@).take(i as int), sep),
        decreases cs.len() - i,
    {
        let ghost prev = views(cs@).take(i as int);
        let ghost next = views(cs@).take(i + 1);
        assert(next.drop_last() =~= prev);
        assert(next.last() == cs@[i as int]@);
        if i > 0 {
            r.push(sep);
        }
        r = concat(&r, &cs[i]);
        if i == 0 {
            assert(join_with(next, sep) == next[0]);
            assert(r@ =~= join_with(next, sep));
        }
        i += 1;
    }
    assert(views(cs@).take(cs.len() as int) =~= views(cs@));
    r
}

/// The directory under `base_dir` that mirrors the directory of `src_file`:
/// `base_dir` followed by each directory name of the source's directory,
/// a drive `C:` given as `C`. The source must have a parent directory and
/// name no `..`.
pub fn determine_mirror_dir(base_dir: &str, src_file: &str, style: PathStyle) -> (r: Result<String, Error>)
    requires
        source_has_parent(style, src_file@),
        !has_parent_dirname(source_dir_components(style, src_file@)),
    ensures
        r matches Ok(m) && m@ == mirror_path(style, base_dir@, src_file@),
{
    let base = chars_of(base_dir);
    let src = chars_of(src_file);
    match style {
        PathStyle::Unix => {
            let (_sabs, mut scs) = components_of(&src);
            if scs.len() > 0 {
                let ghost all = views(scs@);
                scs.pop();
                assert(views(scs@) =~= all.drop_last());
            }
            assert(views(scs@) =~= unix_parent_components(src@));
            let items = mirror_items_of(&scs);
            let (babs, mut bcs) = components_of(&base);
            let ghost bv = views(bcs@);
            append_all(&mut bcs, &items);
            let out = crate::path::render_of(babs, &bcs);
            Ok(string_of(&out))
        },
        PathStyle::Windows => {
            let (sprefix, _sroot, _sverb, mut ssegs) = win_parts(&src);
            if ssegs.len() > 0 {
                let ghost all = views(ssegs@);
                ssegs.pop();
                assert(views(ssegs@) =~= all.drop_last());
            }
            let mut dir: Vec<Vec<char>> = Vec::new();
            if sprefix.len() > 0 {
                dir.push(sprefix);
            }
            let ghost d0 = views(dir@);
            append_all(&mut dir, &ssegs);
            assert(views(dir@) =~= win_parent_components(src@));
            let items = mirror_items_of(&dir);
            let (bprefix, brooted, bverb, mut bsegs) = win_parts(&base);
            append_all(&mut bsegs, &items);
            let out = win_render_of(&bprefix, brooted, bverb, &bsegs);
            Ok(string_of(&out))
        },
    }
}

/// Appends copies of the pieces of `more` to `v`.
fn append_all(v: &mut Vec<Vec<char>>, more: &Vec<Vec<char>>)
    ensures
        views(final(v)@) == views(old(v)@) + views(more@),
{
    let ghost start = views(v@);
    let mut k: usize = 0;
    while k < more.len()
        invariant
            k <= more.len(),
            views(v@) == start + views(more@).take(k as int),
        decreases more.len() - k,
    {
        let piece = skip_chars(&more[k], 0);
        assert(piece@ =~= more@[k as int]@);
        let ghost before = views(v@);
        v.push(piece);
        assert(views(v@) =~= before.push(more@[k as int]@));
        assert(views(more@).take(k + 1) =~= views(more@).take(k as int).push(more@[k as int]@));
        k += 1;
    }
    assert(views(more@).take(more.len() as int) =~= views(more@));
}

/// A path as shown to the user: without any leading verbatim mark.
pub fn sanitize_path_str(path: &str) -> (r: String)
    ensures
        r@ == trim_prefix_all(path@, verbatim_mark()),
{
    sanitize_windows_path_str(path)
}

/// A path without any leading verbatim mark.
pub fn sanitize_windows_path_str(path: &str) -> (r: String)
    ensures
        r@ == trim_prefix_all(path@, verbatim_mark()),
{
    let p = chars_of(path);
    let mark = verbatim_mark_chars();
    let t = trim_start_matches(&p, &mark);
    string_of(&t)
}

} // verus!

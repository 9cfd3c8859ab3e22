//! File-system paths as character sequences, with the Unix semantics of
//! `std::path`: a path is an optional root and a list of components; empty
//! and `.` segments do not count as components, so two paths with the same
//! root flag and components are the same `PathBuf`.
use vstd::prelude::*;
use crate::text::{chars_of, concat, skip_chars, string_of, take_chars};

verus! {

/// The views of a vector of character vectors.
pub open spec fn views(v: Seq<Vec<char>>) -> Seq<Seq<char>> {
    Seq::new(v.len(), |i: int| v[i]@)
}

/// The pieces of `s` between occurrences of `c` (always at least one piece).
pub open spec fn split_on(s: Seq<char>, c: char) -> Seq<Seq<char>>
    decreases s.len(),
{
    if s.len() == 0 {
        seq![Seq::<char>::empty()]
    } else {
        let rest = split_on(s.drop_last(), c);
        if s.last() == c {
            rest.push(Seq::<char>::empty())
        } else {
            rest.update(rest.len() - 1, rest.last().push(s.last()))
        }
    }
}

/// A segment that `Path::components` does not yield: empty or `.`.
pub open spec fn is_skipped_segment(seg: Seq<char>) -> bool {
    seg.len() == 0 || seg =~= seq!['.']
}

/// The segments that are components, in order.
pub open spec fn keep_components(ss: Seq<Seq<char>>) -> Seq<Seq<char>>
    decreases ss.len(),
{
    if ss.len() == 0 {
        Seq::<Seq<char>>::empty()
    } else if is_skipped_segment(ss.last()) {
        keep_components(ss.drop_last())
    } else {
        keep_components(ss.drop_last()).push(ss.last())
    }
}

/// The components of a path, without its root.
pub open spec fn components(p: Seq<char>) -> Seq<Seq<char>> {
    keep_components(split_on(p, '/'))
}

/// Whether a path starts at the root.
pub open spec fn is_absolute(p: Seq<char>) -> bool {
    p.len() > 0 && p[0] == '/'
}

/// The pieces `cs` with `sep` between each two.
pub open spec fn join_with(cs: Seq<Seq<char>>, sep: char) -> Seq<char>
    decreases cs.len(),
{
    if cs.len() == 0 {
        Seq::<char>::empty()
    } else if cs.len() == 1 {
        cs[0]
    } else {
        join_with(cs.drop_last(), sep).push(sep) + cs.last()
    }
}

/// The text of the path with the given root flag and components.
pub open spec fn render(abs: bool, cs: Seq<Seq<char>>) -> Seq<char> {
    (if abs { seq!['/'] } else { Seq::<char>::empty() }) + join_with(cs, '/')
}

/// `Path::join` up to normal form: an absolute `b` replaces `a`; otherwise
/// the components of `b` follow those of `a`. The text is rendered from the
/// components (so `a/./b` becomes `a/b` and repeated separators collapse),
/// which `Path`'s equality, on components, does not tell from the text
/// that `PathBuf::join` keeps.
pub open spec fn join(a: Seq<char>, b: Seq<char>) -> Seq<char> {
    if is_absolute(b) {
        render(true, components(b))
    } else {
        render(is_absolute(a), components(a) + components(b))
    }
}

/// `Path::file_name`: the last component, unless there is none or it is `..`.
pub open spec fn file_name(p: Seq<char>) -> Option<Seq<char>> {
    let cs = components(p);
    if cs.len() == 0 || cs.last() =~= seq!['.', '.'] {
        None
    } else {
        Some(cs.last())
    }
}

/// `Path::parent`: the path without its last component, if it has one.
pub open spec fn parent(p: Seq<char>) -> Option<Seq<char>> {
    let cs = components(p);
    if cs.len() == 0 {
        None
    } else {
        Some(render(is_absolute(p), cs.drop_last()))
    }
}

/// The index of the last `c` in `s`, or -1.
pub open spec fn last_index_of(s: Seq<char>, c: char) -> int
    decreases s.len(),
{
    if s.len() == 0 {
        -1
    } else if s.last() == c {
        s.len() - 1
    } else {
        last_index_of(s.drop_last(), c)
    }
}

/// The stem of a file name: up to its last `.`, unless that `.` is the first character.
pub open spec fn name_stem(name: Seq<char>) -> Seq<char> {
    let i = last_index_of(name, '.');
    if i <= 0 { name } else { name.take(i) }
}

/// The extension of a file name: after its last `.`, unless that `.` is the first character.
pub open spec fn name_extension(name: Seq<char>) -> Option<Seq<char>> {
    let i = last_index_of(name, '.');
    if i <= 0 { None } else { Some(name.skip(i + 1)) }
}

/// `Path::extension`.
pub open spec fn extension(p: Seq<char>) -> Option<Seq<char>> {
    match file_name(p) {
        Some(n) => name_extension(n),
        None => None,
    }
}

/// `Path::with_extension`: the file name's extension replaced by `ext`
/// (removed when `ext` is empty); a path without a file name is unchanged.
pub open spec fn with_extension(p: Seq<char>, ext: Seq<char>) -> Seq<char> {
    match file_name(p) {
        Some(n) => render(
            is_absolute(p),
            components(p).drop_last().push(
                name_stem(n) + (if ext.len() > 0 { seq!['.'] + ext } else { Seq::<char>::empty() }),
            ),
        ),
        None => p,
    }
}

pub proof fn lemma_split_nonempty(s: Seq<char>, c: char)
    ensures
        split_on(s, c).len() >= 1,
    decreases s.len(),
{
    if s.len() > 0 {
        lemma_split_nonempty(s.drop_last(), c);
    }
}

/// The components of a path and whether it is absolute.
pub fn components_of(p: &[char]) -> (r: (bool, Vec<Vec<char>>))
    ensures
        r.0 == is_absolute(p@),
        views(r.1@) == components(p@),
{
    let segs = segments_of(p, '/');
    let abs = p.len() > 0 && p[0] == '/';
    (abs, segs)
}

/// The pieces of `p` between occurrences of `sep`, without empty and `.` pieces.
pub fn segments_of(p: &[char], sep: char) -> (r: Vec<Vec<char>>)
    ensures
        views(r@) == keep_components(split_on(p@, sep)),
{
    let mut segs: Vec<Vec<char>> = Vec::new();
    let mut cur: Vec<char> = Vec::new();
    let ghost mut done: Seq<Seq<char>> = Seq::empty();
    let mut i: usize = 0;
    proof {
        assert(p@.take(0) =~= Seq::<char>::empty());
        assert(split_on(p@.take(0), sep) =~= done.push(cur@));
    }
    while i < p.len()
        invariant
            i <= p.len(),
            split_on(p@.take(i as int), sep) == done.push(cur@),
            views(segs@) == keep_components(done),
        decreases p.len() - i,
    {
        let c = p[i];
        let ghost t = p@.take(i + 1);
        assert(t.drop_last() =~= p@.take(i as int));
        assert(t.last() == c);
        if c == sep {
            let ghost old_done = done;
            proof {
                done = done.push(cur@);
                assert(done.drop_last() =~= old_done);
            }
            let skipped = cur.len() == 0 || (cur.len() == 1 && cur[0] == '.');
            proof {
                assert(skipped == is_skipped_segment(cur@)) by {
                    if cur.len() == 1 && cur[0] == '.' {
                        assert(cur@ =~= seq!['.']);
                    }
                }
            }
            if !skipped {
                segs.push(cur);
                assert(views(segs@) =~= keep_components(old_done).push(done.last()));
            }
            cur = Vec::new();
            assert(split_on(t, sep) =~= done.push(cur@));
        } else {
            cur.push(c);
            assert(split_on(t, sep) =~= done.push(cur@));
        }
        i += 1;
    }
    let ghost all = done.push(cur@);
    assert(p@.take(p.len() as int) =~= p@);
    assert(all.drop_last() =~= done);
    let skipped = cur.len() == 0 || (cur.len() == 1 && cur[0] == '.');
    proof {
        assert(skipped == is_skipped_segment(cur@)) by {
            if cur.len() == 1 && cur[0] == '.' {
                assert(cur@ =~= seq!['.']);
            }
        }
    }
    if !skipped {
        segs.push(cur);
        assert(views(segs@) =~= keep_components(done).push(all.last()));
    }
    segs
}

/// The text of a path from its root flag and components.
pub fn render_of(abs: bool, cs: &Vec<Vec<char>>) -> (r: Vec<char>)
    ensures
        r@ == render(abs, views(cs@)),
{
    let mut r: Vec<char> = Vec::new();
    if abs {
        r.push('/');
    }
    let ghost head = r@;
    assert(head =~= (if abs { seq!['/'] } else { Seq::<char>::empty() }));
    let mut i: usize = 0;
    while i < cs.len()
        invariant
            i <= cs.len(),
            r@ == head + join_with(views(cs@).take(i as int), '/'),
        decreases cs.len() - i,
    {
        let ghost prev = views(cs@).take(i as int);
        let ghost next = views(cs@).take(i + 1);
        assert(next.drop_last() =~= prev);
        if i > 0 {
            r.push('/');
        }
        let piece = &cs[i];
        let mut j: usize = 0;
        let ghost base = r@;
        while j < piece.len()
            invariant
                j <= piece.len(),
                r@ == base + piece@.take(j as int),
            decreases piece.len() - j,
        {
            r.push(piece[j]);
            j += 1;
            assert(r@ =~= base + piece@.take(j as int));
        }
        assert(piece@.take(piece.len() as int) =~= piece@);
        assert(next.last() == piece@);
        if i == 0 {
            assert(join_with(next, '/') =~= piece@);
            assert(r@ =~= head + join_with(next, '/'));
        } else {
            assert(r@ =~= head + join_with(next, '/'));
        }
        i += 1;
    }
    assert(views(cs@).take(cs.len() as int) =~= views(cs@));
    r
}

/// `a.join(b)` on path texts.
pub fn join_chars(a: &[char], b: &[char]) -> (r: Vec<char>)
    ensures
        r@ == join(a@, b@),
{
    let (babs, bcs) = components_of(b);
    if babs {
        return render_of(true, &bcs);
    }
    let (aabs, mut acs) = components_of(a);
    let ghost av = views(acs@);
    let mut k: usize = 0;
    while k < bcs.len()
        invariant
            k <= bcs.len(),
            views(acs@) == av + views(bcs@).take(k as int),
        decreases bcs.len() - k,
    {
        let piece = skip_chars(&bcs[k], 0);
        assert(piece@ =~= views(bcs@)[k as int]);
        let ghost before = views(acs@);
        acs.push(piece);
        assert(views(acs@) =~= before.push(piece@));
        assert(views(bcs@).take(k + 1) =~= views(bcs@).take(k as int).push(piece@));
        k += 1;
        assert(views(acs@) =~= av + views(bcs@).take(k as int));
    }
    assert(views(bcs@).take(bcs.len() as int) =~= views(bcs@));
    render_of(aabs, &acs)
}

/// `a.join(b)` on strings.
pub fn join_str(a: &str, b: &str) -> (r: String)
    ensures
        r@ == join(a@, b@),
{
    let av = chars_of(a);
    let bv = chars_of(b);
    let r = join_chars(&av, &bv);
    string_of(&r)
}

/// The file name of a path.
pub fn file_name_of(p: &[char]) -> (r: Option<Vec<char>>)
    ensures
        match r {
            Some(n) => file_name(p@) == Some(n@),
            None => file_name(p@).is_none(),
        },
{
    let (_abs, cs) = components_of(p);
    if cs.len() == 0 {
        return None;
    }
    let last = &cs[cs.len() - 1];
    assert(views(cs@).last() == last@);
    if last.len() == 2 && last[0] == '.' && last[1] == '.' {
        assert(last@ =~= seq!['.', '.']);
        return None;
    }
    proof {
        if last@ =~= seq!['.', '.'] {
            assert(last@[0] == '.' && last@[1] == '.');
        }
    }
    Some(last.clone())
}

/// The parent of a path.
pub fn parent_of(p: &[char]) -> (r: Option<Vec<char>>)
    ensures
        match r {
            Some(q) => parent(p@) == Some(q@),
            None => parent(p@).is_none(),
        },
{
    let (abs, mut cs) = components_of(p);
    if cs.len() == 0 {
        return None;
    }
    let ghost all = views(cs@);
    cs.pop();
    assert(views(cs@) =~= all.drop_last());
    Some(render_of(abs, &cs))
}

pub proof fn lemma_last_index_range(s: Seq<char>, c: char)
    ensures
        -1 <= last_index_of(s, c) < s.len(),
        last_index_of(s, c) >= 0 ==> s[last_index_of(s, c)] == c,
    decreases s.len(),
{
    if s.len() > 0 && s.last() != c {
        lemma_last_index_range(s.drop_last(), c);
    }
}

/// The index of the last `c` in `s`.
pub fn last_index(s: &[char], c: char) -> (r: Option<usize>)
    ensures
        match r {
            Some(i) => last_index_of(s@, c) == i as int,
            None => last_index_of(s@, c) == -1,
        },
{
    let mut i: usize = s.len();
    assert(s@.take(i as int) =~= s@);
    while i > 0
        invariant
            i <= s.len(),
            last_index_of(s@, c) == last_index_of(s@.take(i as int), c),
        decreases i,
    {
        let ghost t = s@.take(i as int);
        assert(t.drop_last() =~= s@.take(i - 1));
        if s[i - 1] == c {
            return Some(i - 1);
        }
        i -= 1;
    }
    None
}

/// `p.with_extension(ext)` on path texts.
pub fn with_extension_chars(p: &[char], ext: &[char]) -> (r: Vec<char>)
    ensures
        r@ == with_extension(p@, ext@),
{
    let (abs, mut cs) = components_of(p);
    if cs.len() == 0 {
        return skip_chars(p, 0);
    }
    let last = cs.pop().unwrap();
    let ghost all = views(cs@).push(last@);
    if last.len() == 2 && last[0] == '.' && last[1] == '.' {
        proof {
            assert(last@ =~= seq!['.', '.']);
        }
        return skip_chars(p, 0);
    }
    proof {
        if last@ =~= seq!['.', '.'] {
            assert(last@[0] == '.' && last@[1] == '.');
        }
    }
    proof {
        lemma_last_index_range(last@, '.');
        assert(file_name(p@) == Some(last@));
        assert(components(p@).drop_last() =~= views(cs@));
    }
    let dot = last_index(&last, '.');
    let stem = match dot {
        Some(d) if d > 0 => take_chars(&last, d),
        _ => skip_chars(&last, 0),
    };
    assert(stem@ =~= name_stem(last@));
    let mut name = stem;
    if ext.len() > 0 {
        let mut dotted: Vec<char> = Vec::new();
        dotted.push('.');
        let tail = concat(&dotted, ext);
        name = concat(&name, &tail);
    } else {
        assert(name@ + Seq::<char>::empty() =~= name@);
    }
    let ghost before = views(cs@);
    cs.push(name);
    assert(views(cs@) =~= before.push(cs@.last()@));
    render_of(abs, &cs)
}


/// A valid component: non-empty, not `.`, and without a separator.
pub open spec fn is_component(x: Seq<char>) -> bool {
    !is_skipped_segment(x) && !x.contains('/')
}

pub open spec fn all_components(cs: Seq<Seq<char>>) -> bool {
    forall|i: int| 0 <= i < cs.len() ==> is_component(#[trigger] cs[i])
}

/// Splitting a concatenation: the last piece of `a` joins the first piece of `b`.
pub proof fn lemma_split_concat(a: Seq<char>, b: Seq<char>, c: char)
    ensures
        split_on(a + b, c) == split_on(a, c).drop_last() + seq![split_on(a, c).last() + split_on(b, c)[0]]
            + split_on(b, c).drop_first(),
    decreases b.len(),
{
    lemma_split_nonempty(a, c);
    lemma_split_nonempty(b, c);
    let sa = split_on(a, c);
    if b.len() == 0 {
        assert(a + b =~= a);
        assert(split_on(b, c) =~= seq![Seq::<char>::empty()]);
        assert(sa.last() + Seq::<char>::empty() =~= sa.last());
        assert(sa.drop_last() + seq![sa.last()] =~= sa);
        assert(split_on(b, c).drop_first() =~= Seq::<Seq<char>>::empty());
    } else {
        let b0 = b.drop_last();
        let x = b.last();
        lemma_split_concat(a, b0, c);
        lemma_split_nonempty(b0, c);
        assert((a + b).drop_last() =~= a + b0);
        assert((a + b).last() == x);
        let t = split_on(b0, c);
        let s0 = split_on(a + b0, c);
        if x == c {
            assert(split_on(b, c) == t.push(Seq::<char>::empty()));
            assert(split_on(b, c)[0] == t[0]);
            assert(split_on(b, c).drop_first() =~= t.drop_first().push(Seq::<char>::empty()));
            assert(split_on(a + b, c) =~= s0.push(Seq::<char>::empty()));
        } else {
            assert(split_on(b, c) == t.update(t.len() - 1, t.last().push(x)));
            assert(split_on(a + b, c) == s0.update(s0.len() - 1, s0.last().push(x)));
            if t.len() == 1 {
                assert(split_on(b, c)[0] == t[0].push(x));
                assert(split_on(b, c).drop_first() =~= Seq::<Seq<char>>::empty());
                assert(t.drop_first() =~= Seq::<Seq<char>>::empty());
                assert((sa.last() + t[0]).push(x) =~= sa.last() + t[0].push(x));
            } else {
                assert(split_on(b, c)[0] == t[0]);
                assert(split_on(b, c).drop_first() =~= t.drop_first().update(
                    t.len() - 2,
                    t.last().push(x),
                ));
            }
            assert(split_on(a + b, c) =~= sa.drop_last() + seq![sa.last() + split_on(b, c)[0]]
                + split_on(b, c).drop_first());
        }
    }
}

/// A piece without the separator splits into itself.
pub proof fn lemma_split_plain(x: Seq<char>, c: char)
    requires
        !x.contains(c),
    ensures
        split_on(x, c) == seq![x],
    decreases x.len(),
{
    if x.len() > 0 {
        assert(x.drop_last().len() < x.len());
        assert(!x.drop_last().contains(c)) by {
            if x.drop_last().contains(c) {
                let i = choose|i: int| 0 <= i < x.drop_last().len() && x.drop_last()[i] == c;
                assert(x[i] == c);
            }
        }
        lemma_split_plain(x.drop_last(), c);
        assert(x[x.len() - 1] != c);
        assert(x.drop_last().push(x.last()) =~= x);
        assert(split_on(x, c) =~= seq![x]);
    } else {
        assert(x =~= Seq::<char>::empty());
    }
}

/// Joining pieces without the separator and splitting gives them back.
pub proof fn lemma_split_join(cs: Seq<Seq<char>>, c: char)
    requires
        cs.len() >= 1,
        forall|i: int| 0 <= i < cs.len() ==> !(#[trigger] cs[i]).contains(c),
    ensures
        split_on(join_with(cs, c), c) == cs,
    decreases cs.len(),
{
    if cs.len() == 1 {
        lemma_split_plain(cs[0], c);
        assert(seq![cs[0]] =~= cs);
    } else {
        let init = cs.drop_last();
        lemma_split_join(init, c);
        let j = join_with(init, c).push(c);
        lemma_split_concat(j, cs.last(), c);
        lemma_split_plain(cs.last(), c);
        lemma_split_nonempty(join_with(init, c), c);
        assert(j.drop_last() =~= join_with(init, c));
        assert(j.last() == c);
        assert(split_on(j, c) == init.push(Seq::<char>::empty()));
        assert(init.push(Seq::<char>::empty()).drop_last() =~= init);
        assert(Seq::<char>::empty() + cs.last() =~= cs.last());
        assert(seq![cs.last()].drop_first() =~= Seq::<Seq<char>>::empty());
        assert(init + seq![cs.last()] + Seq::<Seq<char>>::empty() =~= cs);
    }
}

/// Keeping components distributes over concatenation.
pub proof fn lemma_keep_concat(a: Seq<Seq<char>>, b: Seq<Seq<char>>)
    ensures
        keep_components(a + b) == keep_components(a) + keep_components(b),
    decreases b.len(),
{
    if b.len() == 0 {
        assert(a + b =~= a);
        assert(keep_components(a) + Seq::<Seq<char>>::empty() =~= keep_components(a));
    } else {
        lemma_keep_concat(a, b.drop_last());
        assert((a + b).drop_last() =~= a + b.drop_last());
        assert((a + b).last() == b.last());
        if !is_skipped_segment(b.last()) {
            assert(keep_components(a) + keep_components(b.drop_last()).push(b.last()) =~= (keep_components(a)
                + keep_components(b.drop_last())).push(b.last()));
        }
    }
}

pub proof fn lemma_keep_all(cs: Seq<Seq<char>>)
    requires
        all_components(cs),
    ensures
        keep_components(cs) == cs,
    decreases cs.len(),
{
    if cs.len() > 0 {
        lemma_keep_all(cs.drop_last());
        assert(cs.drop_last().push(cs.last()) =~= cs);
    }
}

/// The components of a rendered path are the ones it was rendered from.
pub proof fn lemma_components_render(abs: bool, cs: Seq<Seq<char>>)
    requires
        all_components(cs),
    ensures
        components(render(abs, cs)) == cs,
        is_absolute(render(abs, cs)) == (abs || (cs.len() > 0 && is_absolute(cs[0]))),
{
    let head = if abs { seq!['/'] } else { Seq::<char>::empty() };
    let j = join_with(cs, '/');
    if cs.len() == 0 {
        if abs {
            assert(render(abs, cs) =~= seq!['/']);
            lemma_split_root();
            lemma_keep_empties();
            let ss = seq![Seq::<char>::empty(), Seq::<char>::empty()];
            assert(ss.drop_last() =~= seq![Seq::<char>::empty()]);
            assert(seq![Seq::<char>::empty()].drop_last() =~= Seq::<Seq<char>>::empty());
        } else {
            assert(render(abs, cs) =~= Seq::<char>::empty());
            assert(split_on(Seq::<char>::empty(), '/') == seq![Seq::<char>::empty()]);
            lemma_keep_empties();
            assert(seq![Seq::<char>::empty()].drop_last() =~= Seq::<Seq<char>>::empty());
        }
    } else {
        assert forall|i: int| 0 <= i < cs.len() implies !(#[trigger] cs[i]).contains('/') by {
            assert(is_component(cs[i]));
        }
        lemma_split_join(cs, '/');
        lemma_keep_all(cs);
        lemma_split_concat(head, j, '/');
        if abs {
            lemma_split_root();
            let ss = seq![Seq::<char>::empty(), Seq::<char>::empty()];
            assert(ss.drop_last() =~= seq![Seq::<char>::empty()]);
            assert(Seq::<char>::empty() + cs[0] =~= cs[0]);
            assert(seq![Seq::<char>::empty()] + seq![cs[0]] + cs.drop_first() =~= seq![Seq::<char>::empty()] + cs);
            lemma_keep_concat(seq![Seq::<char>::empty()], cs);
            assert(seq![Seq::<char>::empty()].drop_last() =~= Seq::<Seq<char>>::empty());
            lemma_keep_empties();
            assert(Seq::<Seq<char>>::empty() + cs =~= cs);
        } else {
            assert(head + j =~= j);
            assert(render(abs, cs) =~= j);
        }
        lemma_join_head(cs);
    }
}

pub proof fn lemma_split_root()
    ensures
        split_on(seq!['/'], '/') == seq![Seq::<char>::empty(), Seq::<char>::empty()],
{
    let h = seq!['/'];
    assert(h.drop_last() =~= Seq::<char>::empty());
    assert(h.last() == '/');
    assert(split_on(h.drop_last(), '/') == seq![Seq::<char>::empty()]);
    assert(seq![Seq::<char>::empty()].push(Seq::<char>::empty()) =~= seq![Seq::<char>::empty(), Seq::<char>::empty()]);
}

pub proof fn lemma_keep_empties()
    ensures
        keep_components(seq![Seq::<char>::empty()]) == Seq::<Seq<char>>::empty(),
        keep_components(seq![Seq::<char>::empty(), Seq::<char>::empty()]) == Seq::<Seq<char>>::empty(),
{
    let e = Seq::<char>::empty();
    let one = seq![e];
    let two = seq![e, e];
    assert(one.last() == e);
    assert(is_skipped_segment(e));
    assert(one.drop_last() =~= Seq::<Seq<char>>::empty());
    assert(keep_components(one) == keep_components(one.drop_last()));
    assert(two.last() == e);
    assert(two.drop_last() =~= one);
}

/// A joined path starts with its first piece.
pub proof fn lemma_join_head(cs: Seq<Seq<char>>)
    requires
        cs.len() > 0,
        cs[0].len() > 0,
    ensures
        join_with(cs, '/').len() > 0,
        join_with(cs, '/')[0] == cs[0][0],
    decreases cs.len(),
{
    if cs.len() > 1 {
        lemma_join_head(cs.drop_last());
    }
}


/// No piece of a split contains the separator.
pub proof fn lemma_split_pieces(s: Seq<char>, c: char)
    ensures
        forall|i: int| 0 <= i < split_on(s, c).len() ==> !(#[trigger] split_on(s, c)[i]).contains(c),
    decreases s.len(),
{
    lemma_split_nonempty(s, c);
    if s.len() == 0 {
        assert(split_on(s, c) =~= seq![Seq::<char>::empty()]);
    } else {
        lemma_split_pieces(s.drop_last(), c);
        lemma_split_nonempty(s.drop_last(), c);
        let rest = split_on(s.drop_last(), c);
        if s.last() != c {
            assert forall|i: int| 0 <= i < split_on(s, c).len() implies !(#[trigger] split_on(s, c)[i]).contains(c) by {
                if i == rest.len() - 1 {
                    let x = rest.last().push(s.last());
                    if x.contains(c) {
                        let j = choose|j: int| 0 <= j < x.len() && x[j] == c;
                        if j < rest.last().len() {
                            assert(rest.last()[j] == c);
                            assert(rest[rest.len() - 1].contains(c));
                        }
                    }
                } else {
                    assert(split_on(s, c)[i] == rest[i]);
                }
            }
        } else {
            assert forall|i: int| 0 <= i < split_on(s, c).len() implies !(#[trigger] split_on(s, c)[i]).contains(c) by {
                if i < rest.len() {
                    assert(split_on(s, c)[i] == rest[i]);
                }
            }
        }
    }
}

/// Kept pieces are the non-skipped pieces.
pub proof fn lemma_keep_subset(ss: Seq<Seq<char>>, c: char)
    requires
        forall|i: int| 0 <= i < ss.len() ==> !(#[trigger] ss[i]).contains(c),
    ensures
        forall|i: int| 0 <= i < keep_components(ss).len() ==> !is_skipped_segment(#[trigger] keep_components(ss)[i])
            && !keep_components(ss)[i].contains(c),
    decreases ss.len(),
{
    if ss.len() > 0 {
        let init = ss.drop_last();
        assert forall|i: int| 0 <= i < init.len() implies !(#[trigger] init[i]).contains(c) by {
            assert(init[i] == ss[i]);
        }
        lemma_keep_subset(init, c);
        let k = keep_components(init);
        if !is_skipped_segment(ss.last()) {
            assert(!ss[ss.len() - 1].contains(c));
            assert forall|i: int| 0 <= i < keep_components(ss).len() implies !is_skipped_segment(
                #[trigger] keep_components(ss)[i],
            ) && !keep_components(ss)[i].contains(c) by {
                if i < k.len() {
                    assert(keep_components(ss)[i] == k[i]);
                }
            }
        }
    }
}

/// Every component of a path is a valid component.
pub proof fn lemma_components_valid(p: Seq<char>)
    ensures
        all_components(components(p)),
{
    lemma_split_pieces(p, '/');
    lemma_keep_subset(split_on(p, '/'), '/');
}



/// The non-empty pieces, in order.
pub open spec fn keep_nonempty(ss: Seq<Seq<char>>) -> Seq<Seq<char>>
    decreases ss.len(),
{
    if ss.len() == 0 {
        Seq::<Seq<char>>::empty()
    } else if ss.last().len() == 0 {
        keep_nonempty(ss.drop_last())
    } else {
        keep_nonempty(ss.drop_last()).push(ss.last())
    }
}

/// The non-empty pieces of `p` between occurrences of `sep`.
pub fn nonempty_pieces_of(p: &[char], sep: char) -> (r: Vec<Vec<char>>)
    ensures
        views(r@) == keep_nonempty(split_on(p@, sep)),
{
    let mut segs: Vec<Vec<char>> = Vec::new();
    let mut cur: Vec<char> = Vec::new();
    let ghost mut done: Seq<Seq<char>> = Seq::empty();
    let mut i: usize = 0;
    proof {
        assert(p@.take(0) =~= Seq::<char>::empty());
        assert(split_on(p@.take(0), sep) =~= done.push(cur@));
    }
    while i < p.len()
        invariant
            i <= p.len(),
            split_on(p@.take(i as int), sep) == done.push(cur@),
            views(segs@) == keep_nonempty(done),
        decreases p.len() - i,
    {
        let c = p[i];
        let ghost t = p@.take(i + 1);
        assert(t.drop_last() =~= p@.take(i as int));
        assert(t.last() == c);
        if c == sep {
            let ghost old_done = done;
            proof {
                done = done.push(cur@);
                assert(done.drop_last() =~= old_done);
            }
            if cur.len() > 0 {
                segs.push(cur);
                assert(views(segs@) =~= keep_nonempty(old_done).push(done.last()));
            }
            cur = Vec::new();
            assert(split_on(t, sep) =~= done.push(cur@));
        } else {
            cur.push(c);
            assert(split_on(t, sep) =~= done.push(cur@));
        }
        i += 1;
    }
    let ghost all = done.push(cur@);
    assert(p@.take(p.len() as int) =~= p@);
    assert(all.drop_last() =~= done);
    if cur.len() > 0 {
        segs.push(cur);
        assert(views(segs@) =~= keep_nonempty(done).push(all.last()));
    }
    segs
}


/// `p.extension()` on a path text.
pub fn extension_of(p: &[char]) -> (r: Option<Vec<char>>)
    ensures
        match r {
            Some(e) => extension(p@) == Some(e@),
            None => extension(p@).is_none(),
        },
{
    match file_name_of(p) {
        None => None,
        Some(n) => {
            proof {
                lemma_last_index_range(n@, '.');
            }
            match last_index(&n, '.') {
                Some(d) => {
                    if d > 0 {
                        Some(skip_chars(&n, d + 1))
                    } else {
                        None
                    }
                },
                None => None,
            }
        },
    }
}

/// Appending an extension: `a.txt` with `bak` gives `a.txt.bak`; a file
/// name without extension gets `ext` as its extension.
pub open spec fn append_extension(p: Seq<char>, ext: Seq<char>) -> Seq<char> {
    match extension(p) {
        Some(e) => with_extension(p, e + seq!['.'] + ext),
        None => with_extension(p, ext),
    }
}

/// `ext` appended to the extension of `p`'s file name.
pub fn append_extension_str(p: &str, ext: &str) -> (r: String)
    ensures
        r@ == append_extension(p@, ext@),
{
    let pc = chars_of(p);
    let ec = chars_of(ext);
    let out = match extension_of(&pc) {
        Some(e) => {
            let mut dotted = e;
            dotted.push('.');
            let full = concat(&dotted, &ec);
            assert(full@ =~= e@ + seq!['.'] + ec@);
            with_extension_chars(&pc, &full)
        },
        None => with_extension_chars(&pc, &ec),
    };
    string_of(&out)
}

/// The file name of a path, if it has one.
pub fn filename_string(p: &str) -> (r: Option<String>)
    ensures
        match r {
            Some(n) => file_name(p@) == Some(n@),
            None => file_name(p@).is_none(),
        },
{
    let pc = chars_of(p);
    match file_name_of(&pc) {
        Some(n) => Some(string_of(&n)),
        None => None,
    }
}


/// The pieces of `p` between occurrences of `sep`, all of them.
pub fn split_pieces(p: &[char], sep: char) -> (r: Vec<Vec<char>>)
    ensures
        views(r@) == split_on(p@, sep),
{
    let mut done: Vec<Vec<char>> = Vec::new();
    let mut cur: Vec<char> = Vec::new();
    let mut i: usize = 0;
    proof {
        assert(p@.take(0) =~= Seq::<char>::empty());
        assert(split_on(p@.take(0), sep) =~= views(done@).push(cur@));
    }
    while i < p.len()
        invariant
            i <= p.len(),
            split_on(p@.take(i as int), sep) == views(done@).push(cur@),
        decreases p.len() - i,
    {
        let c = p[i];
        let ghost t = p@.take(i + 1);
        assert(t.drop_last() =~= p@.take(i as int));
        assert(t.last() == c);
        if c == sep {
            let ghost before = views(done@);
            let ghost piece = cur@;
            done.push(cur);
            assert(views(done@) =~= before.push(piece));
            cur = Vec::new();
            assert(split_on(t, sep) =~= views(done@).push(cur@));
        } else {
            cur.push(c);
            assert(split_on(t, sep) =~= views(done@).push(cur@));
        }
        i += 1;
    }
    assert(p@.take(p.len() as int) =~= p@);
    let ghost before = views(done@);
    let ghost piece = cur@;
    done.push(cur);
    assert(views(done@) =~= before.push(piece));
    done
}

/// Whether two path texts name the same path: the same root and components.
pub open spec fn same_path(a: Seq<char>, b: Seq<char>) -> bool {
    is_absolute(a) == is_absolute(b) && components(a) == components(b)
}

/// Element-wise equality of two lists of pieces.
pub fn pieces_eq(a: &Vec<Vec<char>>, b: &Vec<Vec<char>>) -> (r: bool)
    ensures
        r == (views(a@) == views(b@)),
{
    if a.len() != b.len() {
        proof {
            if views(a@) == views(b@) {
                assert(views(a@).len() == views(b@).len());
            }
        }
        return false;
    }
    let mut i: usize = 0;
    while i < a.len()
        invariant
            a.len() == b.len(),
            i <= a.len(),
            forall|j: int| 0 <= j < i ==> #[trigger] views(a@)[j] == views(b@)[j],
        decreases a.len() - i,
    {
        if !crate::text::chars_eq(&a[i], &b[i]) {
            proof {
                assert(views(a@)[i as int] != views(b@)[i as int]);
            }
            return false;
        }
        i += 1;
    }
    assert(views(a@) =~= views(b@));
    true
}

/// Whether `a` and `b` name the same path.
pub fn paths_equal(a: &str, b: &str) -> (r: bool)
    ensures
        r == same_path(a@, b@),
{
    let ac = chars_of(a);
    let bc = chars_of(b);
    let (aabs, acs) = components_of(&ac);
    let (babs, bcs) = components_of(&bc);
    aabs == babs && pieces_eq(&acs, &bcs)
}


/// The pieces carry no separator.
pub open spec fn no_separator(cs: Seq<Seq<char>>) -> bool {
    forall|i: int| 0 <= i < cs.len() ==> !(#[trigger] cs[i]).contains('/')
}

/// Rendering pieces without separators and reading the components back
/// keeps the pieces that are components.
pub proof fn lemma_components_render_keep(abs: bool, cs: Seq<Seq<char>>)
    requires
        no_separator(cs),
    ensures
        components(render(abs, cs)) == keep_components(cs),
{
    let head = if abs { seq!['/'] } else { Seq::<char>::empty() };
    let j = join_with(cs, '/');
    lemma_keep_empties();
    if cs.len() == 0 {
        if abs {
            assert(render(abs, cs) =~= seq!['/']);
            lemma_split_root();
            let ss = seq![Seq::<char>::empty(), Seq::<char>::empty()];
            assert(ss.drop_last() =~= seq![Seq::<char>::empty()]);
        } else {
            assert(render(abs, cs) =~= Seq::<char>::empty());
            assert(split_on(Seq::<char>::empty(), '/') == seq![Seq::<char>::empty()]);
        }
        assert(keep_components(cs) =~= Seq::<Seq<char>>::empty());
    } else {
        lemma_split_join(cs, '/');
        if abs {
            lemma_split_concat(head, j, '/');
            lemma_split_root();
            let ss = seq![Seq::<char>::empty(), Seq::<char>::empty()];
            assert(ss.drop_last() =~= seq![Seq::<char>::empty()]);
            assert(Seq::<char>::empty() + cs[0] =~= cs[0]);
            assert(seq![Seq::<char>::empty()] + seq![cs[0]] + cs.drop_first() =~= seq![Seq::<char>::empty()] + cs);
            lemma_keep_concat(seq![Seq::<char>::empty()], cs);
            assert(Seq::<Seq<char>>::empty() + keep_components(cs) =~= keep_components(cs));
        } else {
            assert(head + j =~= j);
            assert(render(abs, cs) =~= j);
        }
    }
}

/// A component is a path of one component.
pub proof fn lemma_single_component(x: Seq<char>)
    requires
        is_component(x),
    ensures
        components(x) == seq![x],
        !is_absolute(x),
{
    let cs = seq![x];
    assert(all_components(cs));
    assert(render(false, cs) =~= x);
    lemma_components_render(false, cs);
    if is_absolute(x) {
        assert(x.contains('/')) by {
            assert(x[0] == '/');
        }
    }
}

/// Joining a relative path appends its components; the root stays.
pub proof fn lemma_join_components(a: Seq<char>, b: Seq<char>)
    requires
        !is_absolute(b),
    ensures
        components(join(a, b)) == components(a) + components(b),
        is_absolute(join(a, b)) == is_absolute(a),
{
    lemma_components_valid(a);
    lemma_components_valid(b);
    let cs = components(a) + components(b);
    assert(all_components(cs)) by {
        assert forall|i: int| 0 <= i < cs.len() implies is_component(#[trigger] cs[i]) by {
            if i < components(a).len() {
                assert(cs[i] == components(a)[i]);
            } else {
                assert(cs[i] == components(b)[i - components(a).len()]);
            }
        }
    }
    lemma_components_render(is_absolute(a), cs);
    if cs.len() > 0 && is_absolute(cs[0]) {
        assert(is_component(cs[0]));
        assert(cs[0].contains('/')) by {
            assert(cs[0][0] == '/');
        }
    }
}

/// A path in normal form: what its root and components render to.
pub proof fn lemma_join_normal(a: Seq<char>, b: Seq<char>)
    requires
        !is_absolute(b),
    ensures
        render(is_absolute(join(a, b)), components(join(a, b))) == join(a, b),
{
    lemma_join_components(a, b);
}

/// The parent of `d` joined with one component is `d`, when `d` is itself
/// a join.
pub proof fn lemma_parent_of_join(a: Seq<char>, b: Seq<char>, x: Seq<char>)
    requires
        !is_absolute(b),
        is_component(x),
    ensures
        parent(join(join(a, b), x)) == Some(join(a, b)),
{
    let d = join(a, b);
    lemma_single_component(x);
    lemma_join_components(d, x);
    lemma_join_normal(a, b);
    assert((components(d) + seq![x]).drop_last() =~= components(d));
}


/// The file name that `with_extension` gives.
pub open spec fn renamed(name: Seq<char>, ext: Seq<char>) -> Seq<char> {
    name_stem(name) + (if ext.len() > 0 { seq!['.'] + ext } else { Seq::<char>::empty() })
}

/// A file name is its stem, a dot and its extension, when it has one.
pub proof fn lemma_stem_extension(name: Seq<char>)
    requires
        name_extension(name).is_some(),
    ensures
        name_stem(name) + seq!['.'] + name_extension(name).unwrap() == name,
{
    lemma_last_index_range(name, '.');
    let i = last_index_of(name, '.');
    assert(name.take(i) + seq!['.'] + name.skip(i + 1) =~= name);
}

/// `with_extension` replaces the last component by the renamed file name
/// and keeps the root.
pub proof fn lemma_with_extension(p: Seq<char>, ext: Seq<char>)
    requires
        file_name(p).is_some(),
        ext.len() > 0,
        !ext.contains('/'),
    ensures
        components(with_extension(p, ext)) == components(p).drop_last().push(renamed(file_name(p).unwrap(), ext)),
        is_absolute(with_extension(p, ext)) == is_absolute(p),
        is_component(renamed(file_name(p).unwrap(), ext)),
{
    lemma_components_valid(p);
    let cs = components(p);
    let n = cs.last();
    assert(is_component(cs[cs.len() - 1]));
    lemma_last_index_range(n, '.');
    let i = last_index_of(n, '.');
    let stem = name_stem(n);
    assert(!stem.contains('/')) by {
        if stem.contains('/') {
            let j = choose|j: int| 0 <= j < stem.len() && stem[j] == '/';
            assert(n[j] == '/');
        }
    }
    assert(stem.len() > 0);
    let x = renamed(n, ext);
    assert(!x.contains('/')) by {
        if x.contains('/') {
            let j = choose|j: int| 0 <= j < x.len() && x[j] == '/';
            if j < stem.len() {
                assert(x[j] == stem[j]);
            } else if j > stem.len() {
                assert(x[j] == ext[j - stem.len() - 1]);
            }
        }
    }
    assert(x.len() >= 2);
    let ns = cs.drop_last().push(x);
    assert(all_components(ns)) by {
        assert forall|j: int| 0 <= j < ns.len() implies is_component(#[trigger] ns[j]) by {
            if j < cs.len() - 1 {
                assert(ns[j] == cs[j]);
            }
        }
    }
    lemma_components_render(is_absolute(p), ns);
    if ns.len() > 0 && is_absolute(ns[0]) {
        assert(is_component(ns[0]));
        assert(ns[0].contains('/')) by {
            assert(ns[0][0] == '/');
        }
    }
}

} // verus!

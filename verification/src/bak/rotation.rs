//! Rotation of the `.bak` copies of one file within one directory.
//!
//! The copies of `FILE` are `FILE.bak` (a single copy) or `FILE.bak.N`
//! (numbered copies, the newest being `FILE.bak.0`). The functions here take
//! a listing of the directory and give the file operations to perform, in
//! order; the caller performs them.
use vstd::prelude::*;
use crate::order::{sort_by, sort_names, sort_names_by, sort_seqs};
use crate::path::{file_name, file_name_of, views};
use crate::text::{
    chars_of, concat, dec, has_prefix, parse_u32, parse_u32_chars, starts_with, string_of,
    trim_prefix_all, trim_start_matches, u32_dec,
};

verus! {

/// An entry of a directory listing: its file name and whether it is a regular file.
#[derive(Debug)]
pub struct DirEntry {
    pub name: String,
    pub is_file: bool,
}

/// A file operation within the directory, on file names.
#[derive(Debug)]
pub enum BakOp {
    /// Delete a file.
    Remove(String),
    /// Move a numbered copy one place up (`FILE.bak.N` to `FILE.bak.N+1`).
    Shift(String, String),
    /// Move the single copy `FILE.bak` to `FILE.bak.1`.
    Rename(String, String),
}

/// The mathematical form of a [`BakOp`].
pub enum OpView {
    Remove(Seq<char>),
    Shift(Seq<char>, Seq<char>),
    Rename(Seq<char>, Seq<char>),
}

impl View for BakOp {
    type V = OpView;

    open spec fn view(&self) -> OpView {
        match self {
            BakOp::Remove(n) => OpView::Remove(n@),
            BakOp::Shift(a, b) => OpView::Shift(a@, b@),
            BakOp::Rename(a, b) => OpView::Rename(a@, b@),
        }
    }
}

/// What a backup run does: the operations to perform, then the name of the new copy.
#[derive(Debug)]
pub struct BakPlan {
    pub ops: Vec<BakOp>,
    pub dest: String,
}

pub open spec fn ops_view(ops: Seq<BakOp>) -> Seq<OpView> {
    Seq::new(ops.len(), |i: int| ops[i]@)
}

pub open spec fn entries(l: Seq<DirEntry>) -> Seq<(Seq<char>, bool)> {
    Seq::new(l.len(), |i: int| (l[i].name@, l[i].is_file))
}

/// `FILE.bak`.
pub open spec fn bak_name(f: Seq<char>) -> Seq<char> {
    f + seq!['.', 'b', 'a', 'k']
}

/// `FILE.bak.`, the start of every numbered copy's name.
pub open spec fn bak_n_prefix(f: Seq<char>) -> Seq<char> {
    f + seq!['.', 'b', 'a', 'k', '.']
}

/// `FILE.bak.i`.
pub open spec fn bak_i_name(f: Seq<char>, i: nat) -> Seq<char> {
    bak_n_prefix(f) + dec(i)
}

/// The number of a numbered copy: its name starts with `FILE.bak.`, and what
/// is left after every leading `FILE.bak.` is removed parses as a `u32`.
pub open spec fn entry_index(f: Seq<char>, name: Seq<char>) -> Option<u32> {
    if has_prefix(name, bak_n_prefix(f)) {
        parse_u32(trim_prefix_all(name, bak_n_prefix(f)))
    } else {
        None
    }
}

/// The numbered copies among the files of a listing, in listing order.
pub open spec fn bak_n_names(f: Seq<char>, l: Seq<(Seq<char>, bool)>) -> Seq<Seq<char>>
    decreases l.len(),
{
    if l.len() == 0 {
        Seq::<Seq<char>>::empty()
    } else {
        let r = bak_n_names(f, l.drop_last());
        if l.last().1 && entry_index(f, l.last().0).is_some() {
            r.push(l.last().0)
        } else {
            r
        }
    }
}

/// The rank of a name among the copies of `f`: its number, for a numbered copy.
pub open spec fn bak_rank(f: Seq<char>) -> spec_fn(Seq<char>) -> int {
    |x: Seq<char>| match entry_index(f, x) {
        Some(i) => i as int,
        None => 0,
    }
}

/// The numbered copies as `list_bak_n_files` lists them: their paths
/// sorted, which for one directory is the lexicographic order of names
/// (so `FILE.bak.10` comes before `FILE.bak.2`).
pub open spec fn listed_bak_n(f: Seq<char>, l: Seq<(Seq<char>, bool)>) -> Seq<Seq<char>> {
    sort_seqs(bak_n_names(f, l))
}

/// The numbered copies ordered by their number (names of equal number, such
/// as `FILE.bak.1` and `FILE.bak.01`, lexicographically): the order in which
/// a shift prunes and moves them, so that every copy's number goes up by one.
pub open spec fn numbered_bak_n(f: Seq<char>, l: Seq<(Seq<char>, bool)>) -> Seq<Seq<char>> {
    sort_by(bak_rank(f), bak_n_names(f, l))
}

/// Some entry (file or not) has this name.
pub open spec fn entry_exists(l: Seq<(Seq<char>, bool)>, name: Seq<char>) -> bool {
    exists|i: int| 0 <= i < l.len() && #[trigger] l[i].0 == name
}

/// The most recent copy: `FILE.bak` if present, else `FILE.bak.0` if present.
pub open spec fn last_bak(f: Seq<char>, l: Seq<(Seq<char>, bool)>) -> Option<Seq<char>> {
    if entry_exists(l, bak_name(f)) {
        Some(bak_name(f))
    } else if entry_exists(l, bak_i_name(f, 0)) {
        Some(bak_i_name(f, 0))
    } else {
        None
    }
}

/// Deleting every copy: the numbered ones in order, then `FILE.bak` if present.
pub open spec fn wipe_ops(f: Seq<char>, l: Seq<(Seq<char>, bool)>) -> Seq<OpView> {
    let s = listed_bak_n(f, l);
    Seq::new(s.len(), |i: int| OpView::Remove(s[i])) + (if entry_exists(l, bak_name(f)) {
        seq![OpView::Remove(bak_name(f))]
    } else {
        Seq::<OpView>::empty()
    })
}

/// How many numbered copies survive the pruning of a shift to at most `num` copies.
pub open spec fn shift_keep(f: Seq<char>, l: Seq<(Seq<char>, bool)>, num: nat) -> nat {
    let n = numbered_bak_n(f, l).len();
    if n >= num { (num - 1) as nat } else { n }
}

/// The index of a listed numbered copy.
pub open spec fn listed_index(f: Seq<char>, name: Seq<char>) -> nat {
    entry_index(f, name).unwrap() as nat
}

/// Shifting the numbered copies, taken by number: the highest-numbered ones are deleted
/// until `num - 1` remain, then each remaining `FILE.bak.N`, from the last, is
/// moved to `FILE.bak.N+1`.
pub open spec fn shift_ops(f: Seq<char>, l: Seq<(Seq<char>, bool)>, num: nat) -> Seq<OpView> {
    let s = numbered_bak_n(f, l);
    let k = shift_keep(f, l, num);
    Seq::new((s.len() - k) as nat, |j: int| OpView::Remove(s[s.len() - 1 - j])) + Seq::new(
        k,
        |j: int| OpView::Shift(s[k - 1 - j], bak_i_name(f, listed_index(f, s[k - 1 - j]) + 1)),
    )
}

/// A shift does not panic: `num` is positive and no surviving copy has index `u32::MAX`.
pub open spec fn shift_ok(f: Seq<char>, l: Seq<(Seq<char>, bool)>, num: nat) -> bool {
    &&& num > 0
    &&& forall|j: int|
        0 <= j < shift_keep(f, l, num) ==> listed_index(f, #[trigger] numbered_bak_n(f, l)[j])
            < u32::MAX
}

/// The plan of a backup run: `None` when the most recent copy does not differ
/// from the source; otherwise the operations and the name of the new copy.
pub open spec fn destination(f: Seq<char>, l: Seq<(Seq<char>, bool)>, differs: bool, max: nat) -> Option<
    (Seq<OpView>, Seq<char>),
> {
    match last_bak(f, l) {
        None => Some((Seq::<OpView>::empty(), bak_name(f))),
        Some(last) => if !differs {
            None
        } else if max == 1 {
            Some((wipe_ops(f, l), bak_name(f)))
        } else if last == bak_name(f) {
            Some(
                (
                    shift_ops(f, l, max).push(OpView::Rename(bak_name(f), bak_i_name(f, 1))),
                    bak_i_name(f, 0),
                ),
            )
        } else {
            Some((shift_ops(f, l, max), bak_i_name(f, 0)))
        },
    }
}

/// A backup run does not panic.
pub open spec fn destination_ok(f: Seq<char>, l: Seq<(Seq<char>, bool)>, differs: bool, max: nat) -> bool {
    last_bak(f, l).is_some() && differs && max != 1 ==> shift_ok(f, l, max)
}


pub(crate) fn bak_name_of(f: &[char]) -> (r: Vec<char>)
    ensures
        r@ == bak_name(f@),
{
    let mut suffix: Vec<char> = Vec::new();
    suffix.push('.');
    suffix.push('b');
    suffix.push('a');
    suffix.push('k');
    assert(suffix@ =~= seq!['.', 'b', 'a', 'k']);
    concat(f, &suffix)
}

fn bak_prefix_of(f: &[char]) -> (r: Vec<char>)
    ensures
        r@ == bak_n_prefix(f@),
{
    let mut suffix: Vec<char> = Vec::new();
    suffix.push('.');
    suffix.push('b');
    suffix.push('a');
    suffix.push('k');
    suffix.push('.');
    assert(suffix@ =~= seq!['.', 'b', 'a', 'k', '.']);
    concat(f, &suffix)
}

pub(crate) fn bak_i_of(f: &[char], i: u32) -> (r: Vec<char>)
    ensures
        r@ == bak_i_name(f@, i as nat),
{
    let p = bak_prefix_of(f);
    let d = u32_dec(i);
    concat(&p, &d)
}

/// The number of the numbered copy `name` of `f`, if it is one.
fn index_of_entry(f: &[char], name: &[char]) -> (r: Option<u32>)
    ensures
        r == entry_index(f@, name@),
{
    let p = bak_prefix_of(f);
    if starts_with(name, &p) {
        proof {
            assert(p@.len() > 0);
        }
        let rest = trim_start_matches(name, &p);
        parse_u32_chars(&rest)
    } else {
        None
    }
}

pub(crate) fn bak_n_names_of(f: &[char], l: &[DirEntry]) -> (r: Vec<Vec<char>>)
    ensures
        views(r@) == bak_n_names(f@, entries(l@)),
{
    let mut r: Vec<Vec<char>> = Vec::new();
    let mut i: usize = 0;
    assert(entries(l@).take(0) =~= Seq::<(Seq<char>, bool)>::empty());
    assert(views(r@) =~= Seq::<Seq<char>>::empty());
    while i < l.len()
        invariant
            i <= l.len(),
            views(r@) == bak_n_names(f@, entries(l@).take(i as int)),
        decreases l.len() - i,
    {
        let ghost t = entries(l@).take(i + 1);
        assert(t.drop_last() =~= entries(l@).take(i as int));
        assert(t.last() == (l@[i as int].name@, l@[i as int].is_file));
        let name = chars_of(l[i].name.as_str());
        if l[i].is_file {
            let idx = index_of_entry(f, &name);
            if idx.is_some() {
                let ghost before = views(r@);
                r.push(name);
                assert(views(r@) =~= before.push(t.last().0));
            }
        }
        i += 1;
    }
    assert(entries(l@).take(l.len() as int) =~= entries(l@));
    r
}

pub(crate) fn listed_of(f: &[char], l: &[DirEntry]) -> (r: Vec<Vec<char>>)
    ensures
        views(r@) == listed_bak_n(f@, entries(l@)),
{
    let names = bak_n_names_of(f, l);
    sort_names(&names)
}

pub(crate) fn numbered_of(f: &[char], l: &[DirEntry]) -> (r: Vec<Vec<char>>)
    ensures
        views(r@) == numbered_bak_n(f@, entries(l@)),
{
    let names = bak_n_names_of(f, l);
    let mut ranks: Vec<u64> = Vec::new();
    let mut i: usize = 0;
    while i < names.len()
        invariant
            i <= names.len(),
            ranks@.len() == i,
            forall|j: int| 0 <= j < i ==> ranks@[j] == bak_rank(f@)(#[trigger] names@[j]@),
        decreases names.len() - i,
    {
        let rank: u64 = match index_of_entry(f, &names[i]) {
            Some(n) => n as u64,
            None => 0,
        };
        ranks.push(rank);
        i += 1;
    }
    sort_names_by(&names, &ranks, Ghost(bak_rank(f@)))
}

pub(crate) fn exists_in(l: &[DirEntry], name: &[char]) -> (r: bool)
    ensures
        r == entry_exists(entries(l@), name@),
{
    let mut i: usize = 0;
    while i < l.len()
        invariant
            i <= l.len(),
            forall|j: int| 0 <= j < i ==> entries(l@)[j].0 != name@,
        decreases l.len() - i,
    {
        let n = chars_of(l[i].name.as_str());
        if crate::text::chars_eq(&n, name) {
            assert(entries(l@)[i as int].0 == name@);
            return true;
        }
        i += 1;
    }
    false
}

fn last_bak_of(f: &[char], l: &[DirEntry]) -> (r: Option<Vec<char>>)
    ensures
        match r {
            Some(n) => last_bak(f@, entries(l@)) == Some(n@),
            None => last_bak(f@, entries(l@)).is_none(),
        },
{
    let b = bak_name_of(f);
    if exists_in(l, &b) {
        return Some(b);
    }
    let b0 = bak_i_of(f, 0);
    if exists_in(l, &b0) {
        return Some(b0);
    }
    None
}

pub(crate) fn strings_of(v: &Vec<Vec<char>>) -> (r: Vec<String>)
    ensures
        r@.len() == v@.len(),
        forall|i: int| 0 <= i < v@.len() ==> #[trigger] r@[i]@ == v@[i]@,
{
    let mut r: Vec<String> = Vec::new();
    let mut i: usize = 0;
    while i < v.len()
        invariant
            i <= v.len(),
            r@.len() == i,
            forall|j: int| 0 <= j < i ==> #[trigger] r@[j]@ == v@[j]@,
        decreases v.len() - i,
    {
        r.push(string_of(&v[i]));
        i += 1;
    }
    r
}

fn wipe_of(f: &[char], l: &[DirEntry]) -> (r: Vec<BakOp>)
    ensures
        ops_view(r@) == wipe_ops(f@, entries(l@)),
{
    let listed = listed_of(f, l);
    let ghost s = views(listed@);
    let mut r: Vec<BakOp> = Vec::new();
    let mut i: usize = 0;
    while i < listed.len()
        invariant
            i <= listed.len(),
            s == views(listed@),
            ops_view(r@) == Seq::new(i as nat, |j: int| OpView::Remove(s[j])),
        decreases listed.len() - i,
    {
        let nm = string_of(&listed[i]);
        assert(nm@ == s[i as int]);
        let ghost before = ops_view(r@);
        r.push(BakOp::Remove(nm));
        assert(ops_view(r@) =~= before.push(OpView::Remove(s[i as int])));
        i += 1;
        assert(ops_view(r@) =~= Seq::new(i as nat, |j: int| OpView::Remove(s[j])));
    }
    let ghost head = ops_view(r@);
    let b = bak_name_of(f);
    if exists_in(l, &b) {
        r.push(BakOp::Remove(string_of(&b)));
        assert(ops_view(r@) =~= head + seq![OpView::Remove(bak_name(f@))]);
    } else {
        assert(ops_view(r@) =~= head + Seq::<OpView>::empty());
    }
    assert(head =~= Seq::new(s.len(), |j: int| OpView::Remove(s[j])));
    r
}

fn shift_of(f: &[char], l: &[DirEntry], num: usize) -> (r: Vec<BakOp>)
    requires
        shift_ok(f@, entries(l@), num as nat),
    ensures
        ops_view(r@) == shift_ops(f@, entries(l@), num as nat),
{
    let listed = numbered_of(f, l);
    let ghost s = views(listed@);
    let n = listed.len();
    let keep: usize = if n >= num { num - 1 } else { n };
    assert(keep == shift_keep(f@, entries(l@), num as nat));
    let mut r: Vec<BakOp> = Vec::new();
    let mut p: usize = 0;
    while p < n - keep
        invariant
            keep <= n,
            n == listed.len(),
            s == views(listed@),
            p <= n - keep,
            ops_view(r@) == Seq::new(p as nat, |j: int| OpView::Remove(s[n - 1 - j])),
        decreases n - keep - p,
    {
        let nm = string_of(&listed[n - 1 - p]);
        assert(nm@ == s[n - 1 - p]);
        let ghost before = ops_view(r@);
        r.push(BakOp::Remove(nm));
        assert(ops_view(r@) =~= before.push(OpView::Remove(s[n - 1 - p])));
        p += 1;
        assert(ops_view(r@) =~= Seq::new(p as nat, |j: int| OpView::Remove(s[n - 1 - j])));
    }
    let ghost head = ops_view(r@);
    let ghost tail_spec = Seq::new(
        keep as nat,
        |j: int| OpView::Shift(s[keep - 1 - j], bak_i_name(f@, listed_index(f@, s[keep - 1 - j]) + 1)),
    );
    let mut q: usize = 0;
    while q < keep
        invariant
            keep <= n,
            n == listed.len(),
            s == views(listed@),
            s == numbered_bak_n(f@, entries(l@)),
            keep == shift_keep(f@, entries(l@), num as nat),
            shift_ok(f@, entries(l@), num as nat),
            q <= keep,
            ops_view(r@) == head + tail_spec.take(q as int),
            tail_spec == Seq::new(
                keep as nat,
                |j: int| OpView::Shift(s[keep - 1 - j], bak_i_name(f@, listed_index(f@, s[keep - 1 - j]) + 1)),
            ),
        decreases keep - q,
    {
        let name = &listed[keep - 1 - q];
        let idx = index_of_entry(f, name);
        proof {
            lemma_numbered_have_index(f@, entries(l@), (keep - 1 - q) as int);
            assert(listed_index(f@, s[keep - 1 - q]) < u32::MAX);
        }
        let n1 = idx.unwrap() + 1;
        let next = bak_i_of(f, n1);
        let a = string_of(name);
        let b = string_of(&next);
        assert(a@ == s[keep - 1 - q]);
        let ghost before = ops_view(r@);
        r.push(BakOp::Shift(a, b));
        assert(ops_view(r@) =~= before.push(OpView::Shift(a@, b@)));
        assert(tail_spec.take(q + 1) =~= tail_spec.take(q as int).push(tail_spec[q as int]));
        q += 1;
        assert(ops_view(r@) =~= head + tail_spec.take(q as int));
    }
    assert(tail_spec.take(keep as int) =~= tail_spec);
    assert(head =~= Seq::new((s.len() - keep) as nat, |j: int| OpView::Remove(s[s.len() - 1 - j])));
    r
}

/// Every numbered copy of the shift order has an index.
pub proof fn lemma_numbered_have_index(f: Seq<char>, l: Seq<(Seq<char>, bool)>, j: int)
    requires
        0 <= j < numbered_bak_n(f, l).len(),
    ensures
        entry_index(f, numbered_bak_n(f, l)[j]).is_some(),
{
    lemma_names_have_index(f, l);
    crate::order::lemma_sort_by(bak_rank(f), bak_n_names(f, l));
    let s = numbered_bak_n(f, l);
    assert(s.contains(s[j]));
    assert(s.to_multiset().count(s[j]) > 0) by {
        vstd::seq_lib::to_multiset_contains(s, s[j]);
    }
    vstd::seq_lib::to_multiset_contains(bak_n_names(f, l), s[j]);
}

pub proof fn lemma_names_have_index(f: Seq<char>, l: Seq<(Seq<char>, bool)>)
    ensures
        forall|x: Seq<char>| bak_n_names(f, l).contains(x) ==> entry_index(f, x).is_some(),
    decreases l.len(),
{
    if l.len() > 0 {
        lemma_names_have_index(f, l.drop_last());
        let r = bak_n_names(f, l.drop_last());
        let all = bak_n_names(f, l);
        assert forall|x: Seq<char>| all.contains(x) implies entry_index(f, x).is_some() by {
            let i = choose|i: int| 0 <= i < all.len() && all[i] == x;
            if i < r.len() {
                assert(r[i] == x);
                assert(r.contains(x));
            }
        }
    }
}

fn destination_of(f: &[char], l: &[DirEntry], differs: bool, max: u8) -> (r: Option<BakPlan>)
    requires
        destination_ok(f@, entries(l@), differs, max as nat),
    ensures
        match r {
            Some(p) => destination(f@, entries(l@), differs, max as nat) == Some((ops_view(p.ops@), p.dest@)),
            None => destination(f@, entries(l@), differs, max as nat).is_none(),
        },
{
    let last = last_bak_of(f, l);
    match last {
        None => {
            let ops: Vec<BakOp> = Vec::new();
            assert(ops_view(ops@) =~= Seq::<OpView>::empty());
            Some(BakPlan { ops, dest: string_of(&bak_name_of(f)) })
        },
        Some(last) => {
            if !differs {
                return None;
            }
            if max == 1 {
                let ops = wipe_of(f, l);
                return Some(BakPlan { ops, dest: string_of(&bak_name_of(f)) });
            }
            let b = bak_name_of(f);
            if crate::text::chars_eq(&last, &b) {
                let mut ops = shift_of(f, l, max as usize);
                let ghost head = ops_view(ops@);
                let b1 = bak_i_of(f, 1);
                ops.push(BakOp::Rename(string_of(&b), string_of(&b1)));
                assert(ops_view(ops@) =~= head.push(OpView::Rename(bak_name(f@), bak_i_name(f@, 1))));
                Some(BakPlan { ops, dest: string_of(&bak_i_of(f, 0)) })
            } else {
                let ops = shift_of(f, l, max as usize);
                Some(BakPlan { ops, dest: string_of(&bak_i_of(f, 0)) })
            }
        },
    }
}


/// The file name of a source path; the source must have one.
pub open spec fn source_name(source_file: Seq<char>) -> Seq<char> {
    file_name(source_file).unwrap()
}

pub(crate) fn name_of_source(source_file: &str) -> (r: Vec<char>)
    requires
        file_name(source_file@).is_some(),
    ensures
        r@ == source_name(source_file@),
{
    let p = chars_of(source_file);
    file_name_of(&p).unwrap()
}

/// Returns either a `.bak` or `.bak.0` file name if such an entry exists.
pub fn find_last_bak(source_file: &str, listing: &[DirEntry]) -> (r: Option<String>)
    requires
        file_name(source_file@).is_some(),
    ensures
        match r {
            Some(n) => last_bak(source_name(source_file@), entries(listing@)) == Some(n@),
            None => last_bak(source_name(source_file@), entries(listing@)).is_none(),
        },
{
    let f = name_of_source(source_file);
    match last_bak_of(&f, listing) {
        Some(n) => Some(string_of(&n)),
        None => None,
    }
}

/// The names of all `.bak.N` files of the listing, sorted.
pub fn list_bak_n_files(source_file: &str, listing: &[DirEntry]) -> (r: Vec<String>)
    requires
        file_name(source_file@).is_some(),
    ensures
        r@.len() == listed_bak_n(source_name(source_file@), entries(listing@)).len(),
        forall|i: int| 0 <= i < r@.len() ==> #[trigger] r@[i]@ == listed_bak_n(source_name(source_file@), entries(listing@))[i],
{
    let f = name_of_source(source_file);
    let listed = listed_of(&f, listing);
    strings_of(&listed)
}

/// The deletions that wipe every backup of the file: all `.bak.N` files, then `.bak`.
pub fn wipe(source_file: &str, listing: &[DirEntry]) -> (r: Vec<BakOp>)
    requires
        file_name(source_file@).is_some(),
    ensures
        ops_view(r@) == wipe_ops(source_name(source_file@), entries(listing@)),
{
    let f = name_of_source(source_file);
    wipe_of(&f, listing)
}

/// The operations that increment the number of every `.bak.N` file, after
/// deleting the last ones so that at most `num - 1` remain.
pub fn shift_bak_files(source_file: &str, listing: &[DirEntry], num: u8) -> (r: Vec<BakOp>)
    requires
        file_name(source_file@).is_some(),
        shift_ok(source_name(source_file@), entries(listing@), num as nat),
    ensures
        ops_view(r@) == shift_ops(source_name(source_file@), entries(listing@), num as nat),
{
    let f = name_of_source(source_file);
    shift_of(&f, listing, num as usize)
}

/// Plans a backup of `source_file` into the directory listed by `listing`,
/// keeping at most `max` copies. `last_differs` tells whether the most recent
/// copy (see [`find_last_bak`]) differs from the source. `None`: no copy is needed.
pub fn determine_destination(source_file: &str, listing: &[DirEntry], last_differs: bool, max: u8) -> (r: Option<BakPlan>)
    requires
        file_name(source_file@).is_some(),
        destination_ok(source_name(source_file@), entries(listing@), last_differs, max as nat),
    ensures
        match r {
            Some(p) => destination(source_name(source_file@), entries(listing@), last_differs, max as nat)
                == Some((ops_view(p.ops@), p.dest@)),
            None => destination(source_name(source_file@), entries(listing@), last_differs, max as nat).is_none(),
        },
{
    let f = name_of_source(source_file);
    destination_of(&f, listing, last_differs, max)
}

} // verus!

//! Orders on names and a sort by them: the lexicographic order, in which
//! sorted `PathBuf`s of one directory come out, and the same order refined
//! by a rank (such as the number of a numbered copy) that comes first.
use vstd::prelude::*;
use crate::path::views;
use crate::text::seq_le;

verus! {

broadcast use vstd::seq_lib::group_to_multiset_ensures;

/// The order of names under a rank: by rank first, then lexicographically.
pub open spec fn rank_le(r: spec_fn(Seq<char>) -> int, a: Seq<char>, b: Seq<char>) -> bool {
    r(a) < r(b) || (r(a) == r(b) && seq_le(a, b))
}

/// The rank under which the order is the plain lexicographic one.
pub open spec fn no_rank() -> spec_fn(Seq<char>) -> int {
    |x: Seq<char>| 0int
}

/// Every name is at most every later one, under the rank.
pub open spec fn is_sorted_by(r: spec_fn(Seq<char>) -> int, s: Seq<Seq<char>>) -> bool {
    forall|i: int, j: int| 0 <= i < j < s.len() ==> rank_le(r, #[trigger] s[i], #[trigger] s[j])
}

/// Every name is at most every later one, lexicographically.
pub open spec fn is_sorted(s: Seq<Seq<char>>) -> bool {
    is_sorted_by(no_rank(), s)
}

/// Where `x` goes in the sorted `s`: before the first element it does not exceed.
pub open spec fn insert_pos(r: spec_fn(Seq<char>) -> int, x: Seq<char>, s: Seq<Seq<char>>) -> nat
    decreases s.len(),
{
    if s.len() == 0 {
        0
    } else if rank_le(r, x, s[0]) {
        0
    } else {
        1 + insert_pos(r, x, s.drop_first())
    }
}

/// `s` with `x` inserted at its place.
pub open spec fn insert_sorted(r: spec_fn(Seq<char>) -> int, x: Seq<char>, s: Seq<Seq<char>>) -> Seq<Seq<char>> {
    s.insert(insert_pos(r, x, s) as int, x)
}

/// Insertion sort: the names of `s` ordered by rank, then lexicographically.
pub open spec fn sort_by(r: spec_fn(Seq<char>) -> int, s: Seq<Seq<char>>) -> Seq<Seq<char>>
    decreases s.len(),
{
    if s.len() == 0 {
        Seq::<Seq<char>>::empty()
    } else {
        insert_sorted(r, s.last(), sort_by(r, s.drop_last()))
    }
}

/// The names of `s` in lexicographic order.
pub open spec fn sort_seqs(s: Seq<Seq<char>>) -> Seq<Seq<char>> {
    sort_by(no_rank(), s)
}

pub proof fn lemma_le_refl(a: Seq<char>)
    ensures
        seq_le(a, a),
    decreases a.len(),
{
    if a.len() > 0 {
        lemma_le_refl(a.drop_first());
    }
}

pub proof fn lemma_le_total(a: Seq<char>, b: Seq<char>)
    ensures
        seq_le(a, b) || seq_le(b, a),
    decreases a.len(),
{
    if a.len() > 0 && b.len() > 0 && a[0] == b[0] {
        lemma_le_total(a.drop_first(), b.drop_first());
    }
}

pub proof fn lemma_le_antisym(a: Seq<char>, b: Seq<char>)
    requires
        seq_le(a, b),
        seq_le(b, a),
    ensures
        a == b,
    decreases a.len(),
{
    if a.len() == 0 {
        assert(b.len() == 0);
        assert(a =~= b);
    } else {
        assert(b.len() > 0);
        if a[0] == b[0] {
            lemma_le_antisym(a.drop_first(), b.drop_first());
            assert(a =~= seq![a[0]] + a.drop_first());
            assert(b =~= seq![b[0]] + b.drop_first());
        } else {
            assert(false);
        }
    }
}

pub proof fn lemma_le_trans(a: Seq<char>, b: Seq<char>, c: Seq<char>)
    requires
        seq_le(a, b),
        seq_le(b, c),
    ensures
        seq_le(a, c),
    decreases a.len(),
{
    if a.len() > 0 && b.len() > 0 && c.len() > 0 && a[0] == b[0] && b[0] == c[0] {
        lemma_le_trans(a.drop_first(), b.drop_first(), c.drop_first());
    }
}

/// The ranked order is a total order.
pub proof fn lemma_rank_le_order(r: spec_fn(Seq<char>) -> int)
    ensures
        forall|a: Seq<char>| #[trigger] rank_le(r, a, a),
        forall|a: Seq<char>, b: Seq<char>| rank_le(r, a, b) || #[trigger] rank_le(r, b, a),
        forall|a: Seq<char>, b: Seq<char>| #[trigger] rank_le(r, a, b) && #[trigger] rank_le(r, b, a) ==> a == b,
        forall|a: Seq<char>, b: Seq<char>, c: Seq<char>|
            #[trigger] rank_le(r, a, b) && #[trigger] rank_le(r, b, c) ==> rank_le(r, a, c),
{
    assert forall|a: Seq<char>| #[trigger] rank_le(r, a, a) by {
        lemma_le_refl(a);
    }
    assert forall|a: Seq<char>, b: Seq<char>| rank_le(r, a, b) || #[trigger] rank_le(r, b, a) by {
        lemma_le_total(a, b);
    }
    assert forall|a: Seq<char>, b: Seq<char>| #[trigger] rank_le(r, a, b) && #[trigger] rank_le(r, b, a) implies a == b by {
        lemma_le_antisym(a, b);
    }
    assert forall|a: Seq<char>, b: Seq<char>, c: Seq<char>|
        #[trigger] rank_le(r, a, b) && #[trigger] rank_le(r, b, c) implies rank_le(r, a, c) by {
        if r(a) == r(b) && r(b) == r(c) {
            lemma_le_trans(a, b, c);
        }
    }
}

/// Before the insertion point every element is smaller than `x`; at it, not.
pub proof fn lemma_insert_pos(r: spec_fn(Seq<char>) -> int, x: Seq<char>, s: Seq<Seq<char>>)
    ensures
        insert_pos(r, x, s) <= s.len(),
        forall|i: int| 0 <= i < insert_pos(r, x, s) ==> !rank_le(r, x, #[trigger] s[i]),
        insert_pos(r, x, s) < s.len() ==> rank_le(r, x, s[insert_pos(r, x, s) as int]),
    decreases s.len(),
{
    if s.len() > 0 && !rank_le(r, x, s[0]) {
        lemma_insert_pos(r, x, s.drop_first());
        assert forall|i: int| 0 <= i < insert_pos(r, x, s) implies !rank_le(r, x, #[trigger] s[i]) by {
            if i > 0 {
                assert(s[i] == s.drop_first()[i - 1]);
            }
        }
    }
}

pub proof fn lemma_insert_sorted(r: spec_fn(Seq<char>) -> int, x: Seq<char>, s: Seq<Seq<char>>)
    requires
        is_sorted_by(r, s),
    ensures
        is_sorted_by(r, insert_sorted(r, x, s)),
        insert_sorted(r, x, s).to_multiset() == s.to_multiset().insert(x),
{
    lemma_insert_pos(r, x, s);
    lemma_rank_le_order(r);
    let p = insert_pos(r, x, s) as int;
    let t = insert_sorted(r, x, s);
    assert forall|i: int, j: int| 0 <= i < j < t.len() implies rank_le(r, #[trigger] t[i], #[trigger] t[j]) by {
        if j < p {
            assert(t[i] == s[i] && t[j] == s[j]);
        } else if j == p {
            assert(t[j] == x && t[i] == s[i]);
            assert(!rank_le(r, x, s[i]));
        } else if i == p {
            assert(t[i] == x && t[j] == s[j - 1]);
            if j - 1 > p {
                assert(rank_le(r, s[p], s[j - 1]));
            }
        } else if i < p {
            assert(t[i] == s[i] && t[j] == s[j - 1]);
        } else {
            assert(t[i] == s[i - 1] && t[j] == s[j - 1]);
        }
    }
}

pub proof fn lemma_sort_by(r: spec_fn(Seq<char>) -> int, s: Seq<Seq<char>>)
    ensures
        is_sorted_by(r, sort_by(r, s)),
        sort_by(r, s).to_multiset() == s.to_multiset(),
        sort_by(r, s).len() == s.len(),
    decreases s.len(),
{
    if s.len() > 0 {
        lemma_sort_by(r, s.drop_last());
        lemma_insert_sorted(r, s.last(), sort_by(r, s.drop_last()));
        assert(s.drop_last().push(s.last()) =~= s);
        assert(sort_by(r, s).to_multiset().len() == s.to_multiset().len());
    }
}

pub proof fn lemma_sort_seqs(s: Seq<Seq<char>>)
    ensures
        is_sorted(sort_seqs(s)),
        sort_seqs(s).to_multiset() == s.to_multiset(),
        sort_seqs(s).len() == s.len(),
{
    lemma_sort_by(no_rank(), s);
}

/// A sorted arrangement of a multiset of names is unique.
pub proof fn lemma_sorted_unique(r: spec_fn(Seq<char>) -> int, a: Seq<Seq<char>>, b: Seq<Seq<char>>)
    requires
        is_sorted_by(r, a),
        is_sorted_by(r, b),
        a.to_multiset() == b.to_multiset(),
    ensures
        a == b,
    decreases a.len(),
{
    lemma_rank_le_order(r);
    assert(a.len() == b.len()) by {
        vstd::seq_lib::to_multiset_len(a);
        vstd::seq_lib::to_multiset_len(b);
    }
    if a.len() > 0 {
        assert(a.contains(a[0]));
        assert(b.to_multiset().count(a[0]) > 0);
        assert(b.contains(a[0]));
        assert(b.contains(b[0]));
        assert(a.to_multiset().count(b[0]) > 0);
        assert(a.contains(b[0]));
        let ia = choose|i: int| 0 <= i < a.len() && a[i] == b[0];
        let ib = choose|i: int| 0 <= i < b.len() && b[i] == a[0];
        if ia > 0 {
            assert(rank_le(r, a[0], a[ia]));
        } else {
            assert(rank_le(r, a[0], a[0]));
        }
        if ib > 0 {
            assert(rank_le(r, b[0], b[ib]));
        } else {
            assert(rank_le(r, b[0], b[0]));
        }
        assert(a[0] == b[0]);
        let a1 = a.remove(0);
        let b1 = b.remove(0);
        assert(a1 =~= a.drop_first());
        assert(b1 =~= b.drop_first());
        assert(a1.to_multiset() == b1.to_multiset());
        assert(is_sorted_by(r, a1)) by {
            assert forall|i: int, j: int| 0 <= i < j < a1.len() implies rank_le(r, #[trigger] a1[i], #[trigger] a1[j]) by {
                assert(a1[i] == a[i + 1] && a1[j] == a[j + 1]);
            }
        }
        assert(is_sorted_by(r, b1)) by {
            assert forall|i: int, j: int| 0 <= i < j < b1.len() implies rank_le(r, #[trigger] b1[i], #[trigger] b1[j]) by {
                assert(b1[i] == b[i + 1] && b1[j] == b[j + 1]);
            }
        }
        lemma_sorted_unique(r, a1, b1);
        assert(a =~= seq![a[0]] + a1);
        assert(b =~= seq![b[0]] + b1);
    } else {
        assert(a =~= b);
    }
}

/// `a <= b` in the lexicographic order of names.
pub fn chars_le(a: &[char], b: &[char]) -> (r: bool)
    ensures
        r == seq_le(a@, b@),
{
    let mut i: usize = 0;
    assert(a@.skip(0) =~= a@);
    assert(b@.skip(0) =~= b@);
    while i < a.len() && i < b.len()
        invariant
            i <= a.len(),
            i <= b.len(),
            seq_le(a@, b@) == seq_le(a@.skip(i as int), b@.skip(i as int)),
        decreases a.len() - i,
    {
        let ghost sa = a@.skip(i as int);
        let ghost sb = b@.skip(i as int);
        assert(sa[0] == a@[i as int] && sb[0] == b@[i as int]);
        if a[i] != b[i] {
            return a[i] < b[i];
        }
        assert(sa.drop_first() =~= a@.skip(i + 1));
        assert(sb.drop_first() =~= b@.skip(i + 1));
        i += 1;
    }
    if i == a.len() {
        assert(a@.skip(i as int).len() == 0);
        true
    } else {
        assert(b@.skip(i as int).len() == 0);
        assert(a@.skip(i as int).len() > 0);
        false
    }
}

/// `a <= b` under a rank, given the ranks of both.
fn ranked_le(ra: u64, a: &[char], rb: u64, b: &[char]) -> (res: bool)
    ensures
        res == (ra < rb || (ra == rb && seq_le(a@, b@))),
{
    if ra != rb {
        ra < rb
    } else {
        chars_le(a, b)
    }
}

/// The names of `v` ordered by rank, then lexicographically; `ranks[i]` is
/// the rank of `v[i]`.
pub(crate) fn sort_names_by(v: &Vec<Vec<char>>, ranks: &Vec<u64>, Ghost(r): Ghost<spec_fn(Seq<char>) -> int>) -> (res: Vec<Vec<char>>)
    requires
        ranks@.len() == v@.len(),
        forall|i: int| 0 <= i < v@.len() ==> ranks@[i] == r(#[trigger] v@[i]@),
    ensures
        views(res@) == sort_by(r, views(v@)),
{
    let mut res: Vec<Vec<char>> = Vec::new();
    let mut rr: Vec<u64> = Vec::new();
    let mut i: usize = 0;
    assert(views(v@).take(0) =~= Seq::<Seq<char>>::empty());
    assert(views(res@) =~= Seq::<Seq<char>>::empty());
    while i < v.len()
        invariant
            i <= v.len(),
            ranks@.len() == v@.len(),
            forall|i: int| 0 <= i < v@.len() ==> ranks@[i] == r(#[trigger] v@[i]@),
            rr@.len() == res@.len(),
            forall|j: int| 0 <= j < res@.len() ==> rr@[j] == r(#[trigger] res@[j]@),
            views(res@) == sort_by(r, views(v@).take(i as int)),
        decreases v.len() - i,
    {
        let x = crate::text::skip_chars(&v[i], 0);
        assert(x@ =~= v@[i as int]@);
        let rx = ranks[i];
        let ghost s = views(res@);
        let mut j: usize = 0;
        assert(s.skip(0) =~= s);
        while j < res.len() && !ranked_le(rx, &x, rr[j], &res[j])
            invariant
                j <= res.len(),
                rr@.len() == res@.len(),
                forall|j: int| 0 <= j < res@.len() ==> rr@[j] == r(#[trigger] res@[j]@),
                rx == r(x@),
                s == views(res@),
                insert_pos(r, x@, s) == j + insert_pos(r, x@, s.skip(j as int)),
            decreases res.len() - j,
        {
            let ghost t = s.skip(j as int);
            assert(t[0] == s[j as int]);
            assert(rr@[j as int] == r(res@[j as int]@));
            assert(t.drop_first() =~= s.skip(j + 1));
            j += 1;
        }
        proof {
            let t = s.skip(j as int);
            if j < res.len() {
                assert(t[0] == s[j as int]);
                assert(rr@[j as int] == r(res@[j as int]@));
            }
        }
        let ghost old_res = res@;
        let ghost old_rr = rr@;
        res.insert(j, x);
        rr.insert(j, rx);
        assert forall|k: int| 0 <= k < res@.len() implies rr@[k] == r(#[trigger] res@[k]@) by {
            if k < j {
                assert(res@[k] == old_res[k] && rr@[k] == old_rr[k]);
            } else if k > j {
                assert(res@[k] == old_res[k - 1] && rr@[k] == old_rr[k - 1]);
            }
        }
        assert(views(res@) =~= s.insert(j as int, x@));
        let ghost next = views(v@).take(i + 1);
        assert(next.drop_last() =~= views(v@).take(i as int));
        assert(next.last() == v@[i as int]@);
        i += 1;
    }
    assert(views(v@).take(v.len() as int) =~= views(v@));
    res
}

/// The names of `v` in lexicographic order.
pub fn sort_names(v: &Vec<Vec<char>>) -> (r: Vec<Vec<char>>)
    ensures
        views(r@) == sort_seqs(views(v@)),
{
    let mut ranks: Vec<u64> = Vec::new();
    let mut i: usize = 0;
    while i < v.len()
        invariant
            i <= v.len(),
            ranks@.len() == i,
            forall|j: int| 0 <= j < i ==> ranks@[j] == 0,
        decreases v.len() - i,
    {
        ranks.push(0);
        i += 1;
    }
    sort_names_by(v, &ranks, Ghost(no_rank()))
}

} // verus!

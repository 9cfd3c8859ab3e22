//! What the rotation of `.bak` copies keeps, stated over a model of the
//! directory: a map from file names to contents.
use vstd::prelude::*;
use crate::bak::rotation::{
    bak_i_name, bak_n_names, bak_n_prefix, bak_name, destination, entry_exists, entry_index,
    bak_rank, last_bak, listed_bak_n, listed_index, numbered_bak_n, shift_keep, shift_ops, wipe_ops, OpView,
};
use crate::order::{is_sorted_by, lemma_sort_by, lemma_sort_seqs, lemma_sorted_unique, rank_le, sort_by};
use crate::text::{
    dec, has_prefix, is_digit, lemma_dec_digits, parse_u32,
    trim_prefix_all, u32_body,
};

verus! {

broadcast use vstd::seq_lib::group_to_multiset_ensures;

/// The directory after one operation; `None` when the operation's source is missing.
pub open spec fn apply_op(m: Map<Seq<char>, int>, op: OpView) -> Option<Map<Seq<char>, int>> {
    match op {
        OpView::Remove(n) => if m.dom().contains(n) { Some(m.remove(n)) } else { None },
        OpView::Shift(a, b) => if m.dom().contains(a) {
            Some(m.remove(a).insert(b, m[a]))
        } else {
            None
        },
        OpView::Rename(a, b) => if m.dom().contains(a) {
            Some(m.remove(a).insert(b, m[a]))
        } else {
            None
        },
    }
}

/// The directory after the operations in order; `None` when one of them fails.
pub open spec fn apply_ops(m: Map<Seq<char>, int>, ops: Seq<OpView>) -> Option<Map<Seq<char>, int>>
    decreases ops.len(),
{
    if ops.len() == 0 {
        Some(m)
    } else {
        match apply_ops(m, ops.drop_last()) {
            Some(m1) => apply_op(m1, ops.last()),
            None => None,
        }
    }
}

/// `FILE.bak.i` written in its canonical form (no sign, no leading zero).
pub open spec fn is_canon_copy(f: Seq<char>, n: Seq<char>) -> bool {
    entry_index(f, n).is_some() && n == bak_i_name(f, entry_index(f, n).unwrap() as nat)
}

/// No two entries of the listing share a name.
pub open spec fn names_distinct(l: Seq<(Seq<char>, bool)>) -> bool {
    forall|i: int, j: int| 0 <= i < l.len() && 0 <= j < l.len() && i != j ==> l[i].0 != l[j].0
}

/// The files of the listing are the names of the map.
pub open spec fn listing_of(l: Seq<(Seq<char>, bool)>, m: Map<Seq<char>, int>) -> bool {
    forall|n: Seq<char>|
        m.dom().contains(n) <==> exists|i: int| 0 <= i < l.len() && #[trigger] l[i].0 == n && l[i].1
}

/// The copies of `f` are the files `FILE.bak.0` to `FILE.bak.(k-1)`: no
/// `FILE.bak`, no other numbered name, and no directory with such a name.
pub open spec fn copies_are(f: Seq<char>, l: Seq<(Seq<char>, bool)>, m: Map<Seq<char>, int>, k: nat) -> bool {
    &&& forall|n: Seq<char>| #[trigger] m.dom().contains(n) && entry_index(f, n).is_some() ==> is_canon_copy(f, n) && entry_index(f, n).unwrap() < k
    &&& forall|i: nat| i < k ==> m.dom().contains(#[trigger] bak_i_name(f, i))
    &&& !entry_exists(l, bak_name(f))
    &&& forall|i: int| 0 <= i < l.len() && !l[i].1 ==> entry_index(f, #[trigger] l[i].0).is_none()
}

/// `FILE.bak.0` to `FILE.bak.(k-1)`, in order.
pub open spec fn canon_seq(f: Seq<char>, k: nat) -> Seq<Seq<char>> {
    Seq::new(k, |i: int| bak_i_name(f, i as nat))
}

/// The directory after a shift that keeps `keep` copies: `FILE.bak.1` to
/// `FILE.bak.keep` hold what `FILE.bak.0` to `FILE.bak.(keep-1)` held, no
/// other copy remains, and every other file is unchanged.
pub open spec fn rotated(f: Seq<char>, m: Map<Seq<char>, int>, keep: nat) -> Map<Seq<char>, int> {
    Map::new(
        |n: Seq<char>|
            if is_canon_copy(f, n) {
                1 <= entry_index(f, n).unwrap() <= keep
            } else {
                m.dom().contains(n)
            },
        |n: Seq<char>|
            if is_canon_copy(f, n) && 1 <= entry_index(f, n).unwrap() <= keep {
                m[bak_i_name(f, (entry_index(f, n).unwrap() - 1) as nat)]
            } else {
                m[n]
            },
    )
}

/// A numbered copy's name gives back its number.
pub proof fn lemma_bak_i_index(f: Seq<char>, i: nat)
    requires
        i <= u32::MAX,
    ensures
        entry_index(f, bak_i_name(f, i)) == Some(i as u32),
        is_canon_copy(f, bak_i_name(f, i)),
{
    let p = bak_n_prefix(f);
    let d = dec(i);
    let n = bak_i_name(f, i);
    lemma_dec_digits(i);
    assert(n.subrange(0, p.len() as int) =~= p);
    assert(has_prefix(n, p));
    assert(n.skip(p.len() as int) =~= d);
    assert(p[f.len() as int] == '.');
    assert(!has_prefix(d, p)) by {
        if has_prefix(d, p) {
            assert(d.subrange(0, p.len() as int)[f.len() as int] == p[f.len() as int]);
            assert(is_digit(d[f.len() as int]));
        }
    }
    assert(trim_prefix_all(d, p) == d);
    assert(trim_prefix_all(n, p) == d);
    assert(is_digit(d[0]));
    assert(u32_body(d) == d);
    assert(parse_u32(d) == Some(i as u32));
}

pub proof fn lemma_bak_i_injective(f: Seq<char>, i: nat, j: nat)
    requires
        i <= u32::MAX,
        j <= u32::MAX,
        bak_i_name(f, i) == bak_i_name(f, j),
    ensures
        i == j,
{
    lemma_bak_i_index(f, i);
    lemma_bak_i_index(f, j);
}

/// The canonical copies, in order, are ordered by their number.
pub proof fn lemma_canon_sorted(f: Seq<char>, k: nat)
    requires
        k <= u32::MAX,
    ensures
        is_sorted_by(bak_rank(f), canon_seq(f, k)),
{
    let s = canon_seq(f, k);
    assert forall|i: int, j: int| 0 <= i < j < s.len() implies rank_le(bak_rank(f), #[trigger] s[i], #[trigger] s[j]) by {
        lemma_bak_i_index(f, i as nat);
        lemma_bak_i_index(f, j as nat);
    }
}

/// What the numbered-copy list of a listing contains.
pub proof fn lemma_bak_n_names_contains(f: Seq<char>, l: Seq<(Seq<char>, bool)>, x: Seq<char>)
    ensures
        bak_n_names(f, l).contains(x) <==> (entry_index(f, x).is_some() && exists|i: int|
            0 <= i < l.len() && #[trigger] l[i].0 == x && l[i].1),
    decreases l.len(),
{
    if l.len() > 0 {
        let l0 = l.drop_last();
        lemma_bak_n_names_contains(f, l0, x);
        let r = bak_n_names(f, l0);
        let all = bak_n_names(f, l);
        if all.contains(x) {
            let i = choose|i: int| 0 <= i < all.len() && all[i] == x;
            if i < r.len() {
                assert(r[i] == x);
                assert(r.contains(x));
                let j = choose|j: int| 0 <= j < l0.len() && #[trigger] l0[j].0 == x && l0[j].1;
                assert(l[j] == l0[j]);
            } else {
                assert(l[l.len() - 1].0 == x);
            }
        }
        if entry_index(f, x).is_some() && exists|i: int| 0 <= i < l.len() && #[trigger] l[i].0 == x && l[i].1 {
            let i = choose|i: int| 0 <= i < l.len() && #[trigger] l[i].0 == x && l[i].1;
            if i < l0.len() {
                assert(l0[i] == l[i]);
                assert(r.contains(x));
                let j = choose|j: int| 0 <= j < r.len() && r[j] == x;
                assert(all[j] == x);
            } else {
                assert(all[all.len() - 1] == x);
            }
        }
    }
}

/// With distinct names, the numbered-copy list has no duplicates.
pub proof fn lemma_bak_n_names_distinct(f: Seq<char>, l: Seq<(Seq<char>, bool)>)
    requires
        names_distinct(l),
    ensures
        bak_n_names(f, l).no_duplicates(),
    decreases l.len(),
{
    if l.len() > 0 {
        let l0 = l.drop_last();
        assert(names_distinct(l0)) by {
            assert forall|i: int, j: int| 0 <= i < l0.len() && 0 <= j < l0.len() && i != j implies l0[i].0 != l0[j].0 by {
                assert(l0[i] == l[i] && l0[j] == l[j]);
            }
        }
        lemma_bak_n_names_distinct(f, l0);
        let r = bak_n_names(f, l0);
        let x = l.last().0;
        if l.last().1 && entry_index(f, x).is_some() {
            assert(!r.contains(x)) by {
                lemma_bak_n_names_contains(f, l0, x);
                if r.contains(x) {
                    let j = choose|j: int| 0 <= j < l0.len() && #[trigger] l0[j].0 == x && l0[j].1;
                    assert(l[j].0 == l[l.len() - 1].0);
                }
            }
            let all = r.push(x);
            assert forall|i: int, j: int| 0 <= i < all.len() && 0 <= j < all.len() && i != j implies all[i] != all[j] by {
                if i == all.len() - 1 {
                    assert(r.contains(all[j]));
                } else if j == all.len() - 1 {
                    assert(r.contains(all[i]));
                }
            }
        }
    }
}

/// Two duplicate-free sequences with the same elements have the same multiset.
pub proof fn lemma_same_elements_multiset(a: Seq<Seq<char>>, b: Seq<Seq<char>>)
    requires
        a.no_duplicates(),
        b.no_duplicates(),
        forall|x: Seq<char>| a.contains(x) <==> b.contains(x),
    ensures
        a.to_multiset() == b.to_multiset(),
{
    a.lemma_multiset_has_no_duplicates();
    b.lemma_multiset_has_no_duplicates();
    assert forall|x: Seq<char>| a.to_multiset().count(x) == b.to_multiset().count(x) by {
        vstd::seq_lib::to_multiset_contains(a, x);
        vstd::seq_lib::to_multiset_contains(b, x);
        if a.contains(x) {
            assert(a.to_multiset().contains(x));
            assert(b.to_multiset().contains(x));
        }
    }
    assert(a.to_multiset() =~= b.to_multiset());
}

/// In a directory whose copies are `FILE.bak.0..k-1`, the copies in the shift order are those, by number.
pub proof fn lemma_numbered_canon(
    f: Seq<char>,
    l: Seq<(Seq<char>, bool)>,
    m: Map<Seq<char>, int>,
    k: nat,
)
    requires
        names_distinct(l),
        listing_of(l, m),
        copies_are(f, l, m, k),
        k <= u32::MAX,
    ensures
        numbered_bak_n(f, l) == canon_seq(f, k),
{
    let names = bak_n_names(f, l);
    let c = canon_seq(f, k);
    lemma_bak_n_names_distinct(f, l);
    assert(c.no_duplicates()) by {
        assert forall|i: int, j: int| 0 <= i < c.len() && 0 <= j < c.len() && i != j implies c[i] != c[j] by {
            if c[i] == c[j] {
                lemma_bak_i_injective(f, i as nat, j as nat);
            }
        }
    }
    assert forall|x: Seq<char>| names.contains(x) <==> c.contains(x) by {
        lemma_bak_n_names_contains(f, l, x);
        if names.contains(x) {
            let i = choose|i: int| 0 <= i < l.len() && #[trigger] l[i].0 == x && l[i].1;
            assert(m.dom().contains(x));
            let idx = entry_index(f, x).unwrap() as nat;
            assert(c[idx as int] == x);
        }
        if c.contains(x) {
            let i = choose|i: int| 0 <= i < c.len() && c[i] == x;
            lemma_bak_i_index(f, i as nat);
            assert(m.dom().contains(bak_i_name(f, i as nat)));
            assert(exists|j: int| 0 <= j < l.len() && #[trigger] l[j].0 == x && l[j].1);
        }
    }
    lemma_same_elements_multiset(names, c);
    lemma_sort_by(bak_rank(f), names);
    lemma_canon_sorted(f, k);
    lemma_sorted_unique(bak_rank(f), sort_by(bak_rank(f), names), c);
}


/// Performing `a` then `b` is performing `a + b`.
pub proof fn lemma_apply_concat(m: Map<Seq<char>, int>, a: Seq<OpView>, b: Seq<OpView>)
    ensures
        apply_ops(m, a + b) == (match apply_ops(m, a) {
            Some(m1) => apply_ops(m1, b),
            None => None,
        }),
    decreases b.len(),
{
    if b.len() == 0 {
        assert(a + b =~= a);
    } else {
        lemma_apply_concat(m, a, b.drop_last());
        assert((a + b).drop_last() =~= a + b.drop_last());
        assert((a + b).last() == b.last());
    }
}

pub open spec fn idx(f: Seq<char>, n: Seq<char>) -> nat {
    entry_index(f, n).unwrap() as nat
}

/// The directory after the copies numbered `k - p` and above are deleted.
pub open spec fn after_removes(f: Seq<char>, m: Map<Seq<char>, int>, k: nat, p: nat) -> Map<Seq<char>, int> {
    Map::new(
        |n: Seq<char>| m.dom().contains(n) && !(is_canon_copy(f, n) && k - p <= idx(f, n)),
        |n: Seq<char>| m[n],
    )
}

/// The directory after `t` of the `keep` moves of a shift.
pub open spec fn after_shifts(f: Seq<char>, m: Map<Seq<char>, int>, keep: nat, t: nat) -> Map<Seq<char>, int> {
    Map::new(
        |n: Seq<char>|
            if is_canon_copy(f, n) {
                idx(f, n) < keep - t || (keep - t < idx(f, n) && idx(f, n) <= keep)
            } else {
                m.dom().contains(n)
            },
        |n: Seq<char>|
            if is_canon_copy(f, n) && keep - t < idx(f, n) && idx(f, n) <= keep {
                m[bak_i_name(f, (idx(f, n) - 1) as nat)]
            } else {
                m[n]
            },
    )
}

/// The canonical name of copy `i` is `FILE.bak.i` and nothing else.
pub proof fn lemma_canon_eq(f: Seq<char>, n: Seq<char>, i: nat)
    requires
        i <= u32::MAX,
    ensures
        n == bak_i_name(f, i) <==> (is_canon_copy(f, n) && idx(f, n) == i),
{
    lemma_bak_i_index(f, i);
}

pub proof fn lemma_removes(f: Seq<char>, l: Seq<(Seq<char>, bool)>, m: Map<Seq<char>, int>, k: nat, keep: nat, p: nat)
    requires
        copies_are(f, l, m, k),
        k <= u32::MAX,
        keep <= k,
        p <= k - keep,
    ensures
        apply_ops(
            m,
            Seq::new((k - keep) as nat, |j: int| OpView::Remove(canon_seq(f, k)[k - 1 - j])).take(p as int),
        ) == Some(after_removes(f, m, k, p)),
    decreases p,
{
    let ops = Seq::new((k - keep) as nat, |j: int| OpView::Remove(canon_seq(f, k)[k - 1 - j]));
    if p == 0 {
        assert(ops.take(0) =~= Seq::<OpView>::empty());
        assert(after_removes(f, m, k, 0) =~= m) by {
            assert forall|n: Seq<char>| m.dom().contains(n) implies !(is_canon_copy(f, n) && k <= idx(f, n)) by {
                if entry_index(f, n).is_some() {
                    assert(m.dom().contains(n) && entry_index(f, n).is_some());
                }
            }
        }
    } else {
        lemma_removes(f, l, m, k, keep, (p - 1) as nat);
        assert(ops.take(p as int).drop_last() =~= ops.take(p - 1));
        let j = (k - p) as nat;
        let victim = bak_i_name(f, j);
        assert(ops.take(p as int).last() == OpView::Remove(victim));
        let before = after_removes(f, m, k, (p - 1) as nat);
        lemma_bak_i_index(f, j);
        assert(m.dom().contains(victim));
        assert(before.dom().contains(victim));
        assert(before.remove(victim) =~= after_removes(f, m, k, p)) by {
            assert forall|n: Seq<char>| #![auto] before.remove(victim).dom().contains(n) == after_removes(f, m, k, p).dom().contains(n) by {
                lemma_canon_eq(f, n, j);
            }
        }
    }
}

pub proof fn lemma_shifts(f: Seq<char>, l: Seq<(Seq<char>, bool)>, m: Map<Seq<char>, int>, k: nat, keep: nat, t: nat)
    requires
        copies_are(f, l, m, k),
        k <= u32::MAX,
        keep <= k,
        t <= keep,
    ensures
        apply_ops(
            after_removes(f, m, k, (k - keep) as nat),
            Seq::new(keep, |j: int| OpView::Shift(
                canon_seq(f, k)[keep - 1 - j],
                bak_i_name(f, listed_index(f, canon_seq(f, k)[keep - 1 - j]) + 1),
            )).take(t as int),
        ) == Some(after_shifts(f, m, keep, t)),
    decreases t,
{
    let ops = Seq::new(keep, |j: int| OpView::Shift(
        canon_seq(f, k)[keep - 1 - j],
        bak_i_name(f, listed_index(f, canon_seq(f, k)[keep - 1 - j]) + 1),
    ));
    let base = after_removes(f, m, k, (k - keep) as nat);
    if t == 0 {
        assert(ops.take(0) =~= Seq::<OpView>::empty());
        assert(base =~= after_shifts(f, m, keep, 0)) by {
            assert forall|n: Seq<char>| #![auto] base.dom().contains(n) == after_shifts(f, m, keep, 0).dom().contains(n) by {
                if is_canon_copy(f, n) {
                    let i = idx(f, n);
                    assert(n == bak_i_name(f, i));
                    if i < k {
                        assert(m.dom().contains(bak_i_name(f, i)));
                    }
                    if m.dom().contains(n) {
                        assert(m.dom().contains(n) && entry_index(f, n).is_some());
                    }
                }
            }
        }
    } else {
        lemma_shifts(f, l, m, k, keep, (t - 1) as nat);
        assert(ops.take(t as int).drop_last() =~= ops.take(t - 1));
        let j = (keep - t) as nat;
        let src = bak_i_name(f, j);
        let dst = bak_i_name(f, j + 1);
        lemma_bak_i_index(f, j);
        lemma_bak_i_index(f, j + 1);
        assert(listed_index(f, canon_seq(f, k)[j as int]) == j);
        assert(ops.take(t as int).last() == OpView::Shift(src, dst));
        let before = after_shifts(f, m, keep, (t - 1) as nat);
        assert(before.dom().contains(src));
        assert(before[src] == m[src]);
        let after = before.remove(src).insert(dst, before[src]);
        assert(after =~= after_shifts(f, m, keep, t)) by {
            assert forall|n: Seq<char>| #![auto] after.dom().contains(n) == after_shifts(f, m, keep, t).dom().contains(n) by {
                lemma_canon_eq(f, n, j);
                lemma_canon_eq(f, n, j + 1);
            }
            assert forall|n: Seq<char>| #![auto] after.dom().contains(n) implies after[n] == after_shifts(f, m, keep, t)[n] by {
                lemma_canon_eq(f, n, j);
                lemma_canon_eq(f, n, j + 1);
                if n == dst {
                    assert(after[n] == m[src]);
                }
            }
        }
    }
}

/// **Rotation.** Backing up a changed file whose copies are `FILE.bak.0` to
/// `FILE.bak.(k-1)`, keeping at most `max >= 2` copies:
/// the most recent copy is `FILE.bak.0`; the plan deletes the copies beyond
/// `max - 1` and moves each remaining `FILE.bak.i` to `FILE.bak.(i+1)`; no other
/// file changes; and the new copy is written to `FILE.bak.0`, which the plan
/// has freed. Afterwards at most `max` copies exist.
pub proof fn law_rotation(f: Seq<char>, l: Seq<(Seq<char>, bool)>, m: Map<Seq<char>, int>, k: nat, max: nat)
    requires
        names_distinct(l),
        listing_of(l, m),
        copies_are(f, l, m, k),
        1 <= k <= u32::MAX,
        2 <= max,
    ensures
        last_bak(f, l) == Some(bak_i_name(f, 0)),
        destination(f, l, true, max) == Some((shift_ops(f, l, max), bak_i_name(f, 0))),
        apply_ops(m, shift_ops(f, l, max)) == Some(rotated(f, m, shift_keep(f, l, max))),
        shift_keep(f, l, max) == (if k < max { k } else { (max - 1) as nat }),
        !rotated(f, m, shift_keep(f, l, max)).dom().contains(bak_i_name(f, 0)),
        forall|n: Seq<char>| #[trigger] rotated(f, m, shift_keep(f, l, max)).dom().contains(n) && is_canon_copy(f, n)
            ==> 1 <= idx(f, n) < max,
{
    lemma_numbered_canon(f, l, m, k);
    lemma_bak_i_index(f, 0);
    assert(m.dom().contains(bak_i_name(f, 0)));
    assert(entry_exists(l, bak_i_name(f, 0)));
    let keep = shift_keep(f, l, max);
    let s = canon_seq(f, k);
    let removes = Seq::new((k - keep) as nat, |j: int| OpView::Remove(s[k - 1 - j]));
    let shifts = Seq::new(keep, |j: int| OpView::Shift(
        s[keep - 1 - j],
        bak_i_name(f, listed_index(f, s[keep - 1 - j]) + 1),
    ));
    assert(shift_ops(f, l, max) == removes + shifts);
    lemma_removes(f, l, m, k, keep, (k - keep) as nat);
    assert(removes.take((k - keep) as int) =~= removes);
    lemma_shifts(f, l, m, k, keep, keep);
    assert(shifts.take(keep as int) =~= shifts);
    lemma_apply_concat(m, removes, shifts);
    assert(after_shifts(f, m, keep, keep) =~= rotated(f, m, keep));
}


/// **First copy.** Without `FILE.bak` or `FILE.bak.0`, a backup writes
/// `FILE.bak` and does nothing else, whether or not anything differs.
pub proof fn law_first_copy(f: Seq<char>, l: Seq<(Seq<char>, bool)>, differs: bool, max: nat)
    requires
        !entry_exists(l, bak_name(f)),
        !entry_exists(l, bak_i_name(f, 0)),
    ensures
        destination(f, l, differs, max) == Some((Seq::<OpView>::empty(), bak_name(f))),
{
}

/// **Unchanged source.** When a most recent copy exists and does not differ
/// from the source, no copy is made and nothing changes.
pub proof fn law_unchanged_skips(f: Seq<char>, l: Seq<(Seq<char>, bool)>, max: nat)
    requires
        last_bak(f, l).is_some(),
    ensures
        destination(f, l, false, max).is_none(),
{
}

/// **Second copy.** When the only copy is the file `FILE.bak` and it differs,
/// with `max >= 2`, the plan moves it to `FILE.bak.1`, changes nothing else,
/// and the new copy goes to the free `FILE.bak.0`.
pub proof fn law_second_copy(f: Seq<char>, l: Seq<(Seq<char>, bool)>, m: Map<Seq<char>, int>, max: nat)
    requires
        names_distinct(l),
        listing_of(l, m),
        m.dom().contains(bak_name(f)),
        forall|n: Seq<char>| #[trigger] m.dom().contains(n) ==> entry_index(f, n).is_none(),
        forall|i: int| 0 <= i < l.len() && !l[i].1 ==> entry_index(f, #[trigger] l[i].0).is_none(),
        2 <= max,
    ensures
        ({
            let ops = seq![OpView::Rename(bak_name(f), bak_i_name(f, 1))];
            &&& destination(f, l, true, max) == Some((ops, bak_i_name(f, 0)))
            &&& apply_ops(m, ops) == Some(m.remove(bak_name(f)).insert(bak_i_name(f, 1), m[bak_name(f)]))
            &&& !m.remove(bak_name(f)).insert(bak_i_name(f, 1), m[bak_name(f)]).dom().contains(bak_i_name(f, 0))
        }),
{
    let names = bak_n_names(f, l);
    assert(names =~= Seq::<Seq<char>>::empty()) by {
        if names.len() > 0 {
            assert(names.contains(names[0]));
            lemma_bak_n_names_contains(f, l, names[0]);
            let i = choose|i: int| 0 <= i < l.len() && #[trigger] l[i].0 == names[0] && l[i].1;
            assert(m.dom().contains(names[0]));
        }
    }
    assert(numbered_bak_n(f, l) =~= Seq::<Seq<char>>::empty());
    assert(entry_exists(l, bak_name(f)));
    assert(shift_ops(f, l, max) =~= Seq::<OpView>::empty());
    let ops = seq![OpView::Rename(bak_name(f), bak_i_name(f, 1))];
    assert(shift_ops(f, l, max).push(OpView::Rename(bak_name(f), bak_i_name(f, 1))) =~= ops);
    assert(ops.drop_last() =~= Seq::<OpView>::empty());
    assert(apply_ops(m, ops.drop_last()) == Some(m));
    lemma_bak_i_index(f, 0);
    lemma_bak_i_index(f, 1);
    assert(bak_i_name(f, 0) != bak_i_name(f, 1)) by {
        if bak_i_name(f, 0) == bak_i_name(f, 1) {
            lemma_bak_i_injective(f, 0, 1);
        }
    }
    assert(!m.dom().contains(bak_i_name(f, 0)));
}

/// The directory after a wipe: the map without the wiped names.
pub open spec fn without_copies(f: Seq<char>, l: Seq<(Seq<char>, bool)>, m: Map<Seq<char>, int>) -> Map<Seq<char>, int> {
    Map::new(
        |n: Seq<char>| m.dom().contains(n) && !(entry_index(f, n).is_some() || n == bak_name(f)),
        |n: Seq<char>| m[n],
    )
}

/// **Wipe.** Wiping deletes `FILE.bak` and every numbered copy, and no other file.
pub proof fn law_wipe(f: Seq<char>, l: Seq<(Seq<char>, bool)>, m: Map<Seq<char>, int>)
    requires
        names_distinct(l),
        listing_of(l, m),
        forall|i: int| 0 <= i < l.len() && !l[i].1 ==> l[i].0 != bak_name(f),
    ensures
        apply_ops(m, wipe_ops(f, l)) == Some(without_copies(f, l, m)),
{
    let names = bak_n_names(f, l);
    let s = listed_bak_n(f, l);
    lemma_bak_n_names_distinct(f, l);
    lemma_sort_seqs(names);
    assert(s.no_duplicates()) by {
        names.lemma_multiset_has_no_duplicates();
        assert forall|x: Seq<char>| s.to_multiset().contains(x) implies s.to_multiset().count(x) == 1 by {
            assert(names.to_multiset().contains(x));
        }
        s.lemma_multiset_has_no_duplicates_conv();
    }
    let removes = Seq::new(s.len(), |i: int| OpView::Remove(s[i]));
    assert forall|x: Seq<char>| s.contains(x) <==> (entry_index(f, x).is_some() && m.dom().contains(x)) by {
        vstd::seq_lib::to_multiset_contains(s, x);
        vstd::seq_lib::to_multiset_contains(names, x);
        lemma_bak_n_names_contains(f, l, x);
    }
    lemma_wipe_removes(f, m, s, s.len());
    assert(removes.take(s.len() as int) =~= removes);
    let mid = Map::new(|n: Seq<char>| m.dom().contains(n) && !s.contains(n), |n: Seq<char>| m[n]);
    assert(s.take(s.len() as int) =~= s);
    assert(apply_ops(m, removes) == Some(mid));
    let tail = if entry_exists(l, bak_name(f)) {
        seq![OpView::Remove(bak_name(f))]
    } else {
        Seq::<OpView>::empty()
    };
    assert(wipe_ops(f, l) == removes + tail);
    lemma_apply_concat(m, removes, tail);
    assert(entry_index(f, bak_name(f)).is_none()) by {
        let p = bak_n_prefix(f);
        assert(bak_name(f).len() < p.len());
    }
    if entry_exists(l, bak_name(f)) {
        let i = choose|i: int| 0 <= i < l.len() && #[trigger] l[i].0 == bak_name(f);
        assert(l[i].1);
        assert(m.dom().contains(bak_name(f)));
        assert(tail.drop_last() =~= Seq::<OpView>::empty());
        assert(apply_ops(mid, tail.drop_last()) == Some(mid));
        assert(!s.contains(bak_name(f)));
        assert(mid.dom().contains(bak_name(f)));
        assert(mid.remove(bak_name(f)) =~= without_copies(f, l, m));
        assert(apply_ops(mid, tail) == Some(mid.remove(bak_name(f))));
    } else {
        assert(!m.dom().contains(bak_name(f))) by {
            if m.dom().contains(bak_name(f)) {
                let i = choose|i: int| 0 <= i < l.len() && #[trigger] l[i].0 == bak_name(f) && l[i].1;
            }
        }
        assert(mid =~= without_copies(f, l, m));
        assert(tail =~= Seq::<OpView>::empty());
        assert(apply_ops(mid, tail) == Some(mid));
    }
}

pub proof fn lemma_wipe_removes(f: Seq<char>, m: Map<Seq<char>, int>, s: Seq<Seq<char>>, p: nat)
    requires
        s.no_duplicates(),
        forall|x: Seq<char>| s.contains(x) ==> m.dom().contains(x),
        p <= s.len(),
    ensures
        apply_ops(m, Seq::new(s.len(), |i: int| OpView::Remove(s[i])).take(p as int)) == Some(
            Map::new(|n: Seq<char>| m.dom().contains(n) && !s.take(p as int).contains(n), |n: Seq<char>| m[n]),
        ),
    decreases p,
{
    let ops = Seq::new(s.len(), |i: int| OpView::Remove(s[i]));
    if p == 0 {
        assert(ops.take(0) =~= Seq::<OpView>::empty());
        assert(Map::new(|n: Seq<char>| m.dom().contains(n) && !s.take(0).contains(n), |n: Seq<char>| m[n]) =~= m);
    } else {
        lemma_wipe_removes(f, m, s, (p - 1) as nat);
        assert(ops.take(p as int).drop_last() =~= ops.take(p - 1));
        let x = s[p - 1];
        assert(s.contains(x));
        let before = Map::new(|n: Seq<char>| m.dom().contains(n) && !s.take(p - 1).contains(n), |n: Seq<char>| m[n]);
        assert(!s.take(p - 1).contains(x)) by {
            if s.take(p - 1).contains(x) {
                let t = s.take(p - 1);
                let j = choose|j: int| 0 <= j < t.len() && #[trigger] t[j] == x;
                assert(s[j] == s[p - 1]);
            }
        }
        assert(before.dom().contains(x));
        let after = Map::new(|n: Seq<char>| m.dom().contains(n) && !s.take(p as int).contains(n), |n: Seq<char>| m[n]);
        assert(before.remove(x) =~= after) by {
            assert forall|n: Seq<char>| #![auto] before.remove(x).dom().contains(n) == after.dom().contains(n) by {
                let t1 = s.take(p - 1);
                let t2 = s.take(p as int);
                if n == x {
                    assert(t2[p - 1] == x);
                    assert(t2.contains(n));
                }
                if t1.contains(n) {
                    let j = choose|j: int| 0 <= j < t1.len() && #[trigger] t1[j] == n;
                    assert(t2[j] == n);
                }
                if t2.contains(n) {
                    let j = choose|j: int| 0 <= j < t2.len() && #[trigger] t2[j] == n;
                    if j < p - 1 {
                        assert(t1[j] == n);
                    }
                }
            }
        }
    }
}


/// What is left of `s` after leading patterns are removed is a suffix of `s`.
pub proof fn lemma_trim_suffix(s: Seq<char>, p: Seq<char>)
    ensures
        exists|k: int| 0 <= k <= s.len() && #[trigger] s.skip(k) == trim_prefix_all(s, p),
    decreases s.len(),
{
    if p.len() > 0 && has_prefix(s, p) {
        let t = s.skip(p.len() as int);
        lemma_trim_suffix(t, p);
        let k = choose|k: int| 0 <= k <= t.len() && #[trigger] t.skip(k) == trim_prefix_all(t, p);
        assert(s.skip(p.len() + k) =~= t.skip(k));
    } else {
        assert(s.skip(0) =~= s);
    }
}

/// The directory names of the mirror carry no separator.
pub proof fn lemma_mirror_items_plain(cs: Seq<Seq<char>>)
    requires
        crate::path::no_separator(cs),
    ensures
        crate::path::no_separator(crate::bak::mirror::mirror_items(cs)),
        forall|i: int|
            0 <= i < crate::bak::mirror::mirror_items(cs).len() ==> (#[trigger] crate::bak::mirror::mirror_items(
                cs,
            )[i]).len() > 0,
    decreases cs.len(),
{
    if cs.len() > 0 {
        let init = cs.drop_last();
        assert(crate::path::no_separator(init)) by {
            assert forall|i: int| 0 <= i < init.len() implies !(#[trigger] init[i]).contains('/') by {
                assert(init[i] == cs[i]);
            }
        }
        lemma_mirror_items_plain(init);
        let c = cs.last();
        assert(!cs[cs.len() - 1].contains('/'));
        let d = crate::bak::mirror::dirname_of(c);
        lemma_trim_suffix(c, crate::bak::mirror::verbatim_mark());
        let k = choose|k: int| 0 <= k <= c.len() && #[trigger] c.skip(k) == d;
        assert(!d.contains('/')) by {
            if d.contains('/') {
                let i = choose|i: int| 0 <= i < d.len() && d[i] == '/';
                assert(c[k + i] == '/');
            }
        }
        let x = crate::bak::mirror::shorten_drive(d);
        assert(!x.contains('/')) by {
            if x.contains('/') {
                let i = choose|i: int| 0 <= i < x.len() && x[i] == '/';
                if d.len() == 2 && d[1] == ':' {
                    assert(x[i] == d[0]);
                }
            }
        }
        let r = crate::bak::mirror::mirror_items(cs);
        let r0 = crate::bak::mirror::mirror_items(init);
        if !crate::bak::mirror::is_passed_dirname(d) {
            assert(r == r0.push(x));
            assert forall|i: int| 0 <= i < r.len() implies !(#[trigger] r[i]).contains('/') && r[i].len() > 0 by {
                if i < r0.len() {
                    assert(r[i] == r0[i]);
                }
            }
        }
    }
}

/// The mirror lies inside its base directory: the base's root and
/// components, then the directory names of the source's directory that are
/// components.
pub proof fn law_mirror_inside_base(base: Seq<char>, src: Seq<char>)
    ensures
        crate::path::components(
            crate::bak::mirror::mirror_path(crate::bak::mirror::PathStyle::Unix, base, src),
        ) == crate::path::components(base) + crate::path::keep_components(
            crate::bak::mirror::mirror_items(crate::bak::mirror::unix_parent_components(src)),
        ),
{
    let pc = crate::bak::mirror::unix_parent_components(src);
    crate::path::lemma_components_valid(src);
    crate::path::lemma_components_valid(base);
    let sc = crate::path::components(src);
    assert(crate::path::no_separator(pc)) by {
        assert forall|i: int| 0 <= i < pc.len() implies !(#[trigger] pc[i]).contains('/') by {
            assert(pc[i] == sc[i]);
            assert(crate::path::is_component(sc[i]));
        }
    }
    lemma_mirror_items_plain(pc);
    let items = crate::bak::mirror::mirror_items(pc);
    let bc = crate::path::components(base);
    let cs = bc + items;
    assert(crate::path::no_separator(cs)) by {
        assert forall|i: int| 0 <= i < cs.len() implies !(#[trigger] cs[i]).contains('/') by {
            if i < bc.len() {
                assert(cs[i] == bc[i]);
                assert(crate::path::is_component(bc[i]));
            } else {
                assert(cs[i] == items[i - bc.len()]);
            }
        }
    }
    crate::path::lemma_components_render_keep(crate::path::is_absolute(base), cs);
    crate::path::lemma_keep_concat(bc, items);
    crate::path::lemma_keep_all(bc);
}


/// The names that a list of operations removes, in order.
pub open spec fn removed_names(ops: Seq<OpView>) -> Seq<Seq<char>>
    decreases ops.len(),
{
    if ops.len() == 0 {
        Seq::<Seq<char>>::empty()
    } else {
        removed_names(ops.drop_last()) + match ops.last() {
            OpView::Remove(n) => seq![n],
            _ => Seq::<Seq<char>>::empty(),
        }
    }
}

proof fn lemma_removed_names_concat(a: Seq<OpView>, b: Seq<OpView>)
    ensures
        removed_names(a + b) == removed_names(a) + removed_names(b),
    decreases b.len(),
{
    if b.len() == 0 {
        assert(a + b =~= a);
        assert(removed_names(a) + Seq::<Seq<char>>::empty() =~= removed_names(a));
    } else {
        lemma_removed_names_concat(a, b.drop_last());
        assert((a + b).drop_last() =~= a + b.drop_last());
        assert((a + b).last() == b.last());
        let t = match b.last() {
            OpView::Remove(n) => seq![n],
            _ => Seq::<Seq<char>>::empty(),
        };
        assert(removed_names(a) + removed_names(b.drop_last()) + t =~= removed_names(a) + (removed_names(
            b.drop_last(),
        ) + t));
    }
}

proof fn lemma_removed_all(s: Seq<Seq<char>>)
    ensures
        removed_names(Seq::new(s.len(), |i: int| OpView::Remove(s[i]))) == s,
    decreases s.len(),
{
    let ops = Seq::new(s.len(), |i: int| OpView::Remove(s[i]));
    if s.len() > 0 {
        lemma_removed_all(s.drop_last());
        assert(ops.drop_last() =~= Seq::new(s.drop_last().len(), |i: int| OpView::Remove(s.drop_last()[i])));
        assert(s.drop_last() + seq![s.last()] =~= s);
    } else {
        assert(s =~= Seq::<Seq<char>>::empty());
    }
}

/// Wiping deletes exactly the copies that `list` shows.
pub proof fn law_list_matches_wipe(f: Seq<char>, l: Seq<(Seq<char>, bool)>)
    ensures
        removed_names(wipe_ops(f, l)).to_multiset() == crate::bak::session::listed_copies(f, l).to_multiset(),
{
    let names = bak_n_names(f, l);
    let s = listed_bak_n(f, l);
    let extra = if entry_exists(l, bak_name(f)) {
        seq![bak_name(f)]
    } else {
        Seq::<Seq<char>>::empty()
    };
    let removes = Seq::new(s.len(), |i: int| OpView::Remove(s[i]));
    let tail = if entry_exists(l, bak_name(f)) {
        seq![OpView::Remove(bak_name(f))]
    } else {
        Seq::<OpView>::empty()
    };
    assert(wipe_ops(f, l) == removes + tail);
    lemma_removed_names_concat(removes, tail);
    lemma_removed_all(s);
    if entry_exists(l, bak_name(f)) {
        assert(tail.drop_last() =~= Seq::<OpView>::empty());
        assert(removed_names(tail.drop_last()) == Seq::<Seq<char>>::empty());
        assert(tail.last() == OpView::Remove(bak_name(f)));
        assert(removed_names(tail) =~= extra);
    } else {
        assert(removed_names(tail) =~= extra);
    }
    lemma_sort_seqs(names);
    lemma_sort_seqs(names + extra);
    assert(names + Seq::<Seq<char>>::empty() =~= names);
    vstd::seq_lib::lemma_multiset_commutative(s, extra);
    vstd::seq_lib::lemma_multiset_commutative(names, extra);
}

/// **Single-copy mode.** With `max == 1`, a changed file whose most recent
/// copy exists (`FILE.bak` or `FILE.bak.0`) is backed up as `FILE.bak` after
/// every copy is deleted: the plan writes to `FILE.bak`, and applying its
/// operations leaves no copy at all (neither `FILE.bak` nor any numbered
/// one) while every other file keeps its contents; so once the new copy is
/// written, exactly one copy exists.
pub proof fn law_single_copy_mode(f: Seq<char>, l: Seq<(Seq<char>, bool)>, m: Map<Seq<char>, int>)
    requires
        names_distinct(l),
        listing_of(l, m),
        forall|i: int| 0 <= i < l.len() && !l[i].1 ==> l[i].0 != bak_name(f),
        last_bak(f, l).is_some(),
    ensures
        destination(f, l, true, 1) matches Some((ops, dest)) && dest == bak_name(f) && (apply_ops(m, ops) matches Some(
            m2,
        ) && (forall|n: Seq<char>| #[trigger] m2.dom().contains(n) ==> entry_index(f, n).is_none() && n != bak_name(f))
            && (forall|n: Seq<char>|
            #[trigger] m.dom().contains(n) && entry_index(f, n).is_none() && n != bak_name(f) ==> m2.dom().contains(n)
                && m2[n] == m[n])),
{
    law_wipe(f, l, m);
}

/// Whether a directory name of the source is written as it is into the
/// mirror: no Windows verbatim mark, not a drive such as `C:`, and not `\`.
pub open spec fn plain_dirname(c: Seq<char>) -> bool {
    &&& !has_prefix(c, crate::bak::mirror::verbatim_mark())
    &&& !(c.len() == 2 && c[1] == ':')
    &&& c != seq!['\\']
}

proof fn lemma_mirror_items_plain_id(cs: Seq<Seq<char>>)
    requires
        crate::path::all_components(cs),
        forall|i: int| 0 <= i < cs.len() ==> plain_dirname(#[trigger] cs[i]),
    ensures
        crate::bak::mirror::mirror_items(cs) == cs,
    decreases cs.len(),
{
    if cs.len() > 0 {
        let init = cs.drop_last();
        assert forall|i: int| 0 <= i < init.len() implies crate::path::is_component(#[trigger] init[i]) by {
            assert(init[i] == cs[i]);
        }
        assert forall|i: int| 0 <= i < init.len() implies plain_dirname(#[trigger] init[i]) by {
            assert(init[i] == cs[i]);
        }
        lemma_mirror_items_plain_id(init);
        let c = cs.last();
        assert(crate::path::is_component(cs[cs.len() - 1]));
        assert(plain_dirname(cs[cs.len() - 1]));
        assert(crate::bak::mirror::verbatim_mark().len() > 0);
        assert(crate::bak::mirror::dirname_of(c) == c);
        assert(c != seq!['/']) by {
            if c == seq!['/'] {
                assert(c.contains('/')) by {
                    assert(c[0] == '/');
                }
            }
        }
        assert(!crate::bak::mirror::is_passed_dirname(c));
        assert(crate::bak::mirror::shorten_drive(c) == c);
        assert(init.push(c) =~= cs);
    }
}

/// **The mirror keeps every directory.** For a Unix source file with a
/// parent whose directory names are plain, the mirror directory is the base
/// directory followed by every component of the source's parent, hidden
/// directories such as `.config` included; so two sources in different
/// directories never share a mirror.
pub proof fn law_mirror_keeps_every_directory(base: Seq<char>, src: Seq<char>)
    requires
        crate::path::parent(src).is_some(),
        forall|i: int|
            0 <= i < crate::path::components(src).len() - 1 ==> plain_dirname(#[trigger] crate::path::components(src)[i]),
    ensures
        crate::path::components(crate::bak::mirror::mirror_path(crate::bak::mirror::PathStyle::Unix, base, src))
            == crate::path::components(base) + crate::path::components(crate::path::parent(src).unwrap()),
{
    let sc = crate::path::components(src);
    let pc = crate::bak::mirror::unix_parent_components(src);
    crate::path::lemma_components_valid(src);
    assert(pc == sc.drop_last());
    assert(crate::path::all_components(pc)) by {
        assert forall|i: int| 0 <= i < pc.len() implies crate::path::is_component(#[trigger] pc[i]) by {
            assert(pc[i] == sc[i]);
        }
    }
    assert forall|i: int| 0 <= i < pc.len() implies plain_dirname(#[trigger] pc[i]) by {
        assert(pc[i] == sc[i]);
    }
    crate::path::lemma_components_render(crate::path::is_absolute(src), pc);
    lemma_mirror_items_plain_id(pc);
    law_mirror_inside_base(base, src);
    crate::path::lemma_keep_all(pc);
}

} // verus!

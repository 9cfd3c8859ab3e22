//! The names in a list of extended attributes, as the system hands it over:
//! each name followed by a NUL byte.
use vstd::prelude::*;

verus! {

/// Where the first NUL byte of `s` is (`s.len()` when there is none).
pub open spec fn nul_pos(s: Seq<u8>) -> nat
    decreases s.len(),
{
    if s.len() == 0 {
        0
    } else if s[0] == 0 {
        0
    } else {
        1 + nul_pos(s.drop_first())
    }
}

/// The attribute names of a list: each name up to its NUL byte, in order,
/// until the list ends or a name is empty.
pub open spec fn xattr_names_spec(s: Seq<u8>) -> Seq<Seq<u8>>
    decreases s.len(),
{
    if s.len() == 0 {
        Seq::<Seq<u8>>::empty()
    } else {
        let k = nul_pos(s);
        if k == 0 {
            Seq::<Seq<u8>>::empty()
        } else if k >= s.len() {
            seq![s]
        } else {
            seq![s.take(k as int)] + xattr_names_spec(s.skip((k + 1) as int))
        }
    }
}

pub proof fn lemma_nul_pos(s: Seq<u8>)
    ensures
        nul_pos(s) <= s.len(),
        nul_pos(s) < s.len() ==> s[nul_pos(s) as int] == 0,
        forall|i: int| 0 <= i < nul_pos(s) ==> s[i] != 0,
    decreases s.len(),
{
    if s.len() > 0 && s[0] != 0 {
        lemma_nul_pos(s.drop_first());
        assert forall|i: int| 0 <= i < nul_pos(s) implies s[i] != 0 by {
            if i > 0 {
                assert(s[i] == s.drop_first()[i - 1]);
            }
        }
    }
}

/// The names of a list of extended attributes. The list is empty or ends
/// with a NUL byte, as the system gives it (a last name without one would
/// be read past the end).
pub fn xattr_names(list: &[u8]) -> (r: Vec<Vec<u8>>)
    requires
        list@.len() == 0 || list@.last() == 0,
    ensures
        r@.len() == xattr_names_spec(list@).len(),
        forall|i: int| 0 <= i < r@.len() ==> #[trigger] r@[i]@ == xattr_names_spec(list@)[i],
{
    let ghost s = list@;
    let mut r: Vec<Vec<u8>> = Vec::new();
    let mut pos: usize = 0;
    assert(s.skip(0) =~= s);
    while pos < list.len()
        invariant
            pos <= list.len(),
            s == list@,
            s.len() == 0 || s.last() == 0,
            xattr_names_spec(s).len() == r@.len() + xattr_names_spec(s.skip(pos as int)).len(),
            forall|i: int| 0 <= i < r@.len() ==> #[trigger] r@[i]@ == xattr_names_spec(s)[i],
            forall|i: int|
                0 <= i < xattr_names_spec(s.skip(pos as int)).len() ==> xattr_names_spec(s)[r@.len() + i]
                    == #[trigger] xattr_names_spec(s.skip(pos as int))[i],
        ensures
            xattr_names_spec(s).len() == r@.len(),
            forall|i: int| 0 <= i < r@.len() ==> #[trigger] r@[i]@ == xattr_names_spec(s)[i],
        decreases list.len() - pos,
    {
        let name_start = pos;
        let ghost t = s.skip(name_start as int);
        proof {
            lemma_nul_pos(t);
        }
        while pos < list.len() && list[pos] != 0
            invariant
                name_start <= pos <= list.len(),
                s == list@,
                t == s.skip(name_start as int),
                pos - name_start <= nul_pos(t),
                nul_pos(t) <= t.len(),
                nul_pos(t) < t.len() ==> t[nul_pos(t) as int] == 0,
                forall|i: int| 0 <= i < nul_pos(t) ==> t[i] != 0,
            decreases list.len() - pos,
        {
            assert(t[pos - name_start] == list@[pos as int]);
            pos += 1;
        }
        assert(pos - name_start == nul_pos(t)) by {
            if pos < list.len() {
                assert(t[pos - name_start] == list@[pos as int]);
            }
        }
        if pos <= name_start {
            assert(xattr_names_spec(t) =~= Seq::<Seq<u8>>::empty());
            break;
        }
        assert(pos < list.len()) by {
            assert(s.last() == 0);
            if pos == list.len() {
                assert(t[t.len() - 1] == s.last());
            }
        }
        let mut name: Vec<u8> = Vec::new();
        let mut k: usize = name_start;
        while k < pos
            invariant
                name_start <= k <= pos <= list.len(),
                s == list@,
                name@ =~= s.subrange(name_start as int, k as int),
            decreases pos - k,
        {
            name.push(list[k]);
            k += 1;
        }
        assert(name@ =~= t.take(nul_pos(t) as int));
        assert(t.skip((nul_pos(t) + 1) as int) =~= s.skip(pos + 1));
        let ghost before = r@;
        r.push(name);
        assert forall|i: int| 0 <= i < r@.len() implies #[trigger] r@[i]@ == xattr_names_spec(s)[i] by {
            if i < before.len() {
                assert(r@[i] == before[i]);
            } else {
                assert(xattr_names_spec(t)[0] == t.take(nul_pos(t) as int));
            }
        }
        pos += 1;
        assert forall|i: int|
            0 <= i < xattr_names_spec(s.skip(pos as int)).len() implies xattr_names_spec(s)[r@.len() + i]
                == #[trigger] xattr_names_spec(s.skip(pos as int))[i] by {
            assert(xattr_names_spec(t)[i + 1] == xattr_names_spec(s.skip(pos as int))[i]);
        }
    }
    r
}

} // verus!

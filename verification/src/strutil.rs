//! Verified helpers over string slices: equality, prefix and suffix tests.

use vstd::prelude::*;
use vstd::string::StrSliceExecFns;

verus! {

/// `p` is a prefix of `s`.
pub open spec fn has_prefix(s: Seq<char>, p: Seq<char>) -> bool {
    p.len() <= s.len() && s.subrange(0, p.len() as int) == p
}

/// `p` is a suffix of `s`.
pub open spec fn has_suffix(s: Seq<char>, p: Seq<char>) -> bool {
    p.len() <= s.len() && s.subrange(s.len() - p.len(), s.len() as int) == p
}

/// Pieces joined by a separator character.
pub open spec fn join_with(texts: Seq<Seq<char>>, sep: char) -> Seq<char>
    decreases texts.len(),
{
    if texts.len() == 0 {
        Seq::empty()
    } else if texts.len() == 1 {
        texts[0]
    } else {
        texts[0] + seq![sep] + join_with(texts.drop_first(), sep)
    }
}

/// Appending one more piece appends the separator and the piece to the join.
pub proof fn lemma_join_with_extend(texts: Seq<Seq<char>>, x: Seq<char>, sep: char)
    requires
        texts.len() >= 1,
    ensures
        join_with(texts.push(x), sep) == join_with(texts, sep) + seq![sep] + x,
    decreases texts.len(),
{
    let p = texts.push(x);
    assert(p.drop_first() =~= texts.drop_first().push(x));
    if texts.len() == 1 {
        let q = texts.drop_first().push(x);
        assert(q =~= seq![x]);
        assert(join_with(q, sep) == x);
    } else {
        lemma_join_with_extend(texts.drop_first(), x, sep);
        assert(texts.first() + seq![sep] + (join_with(texts.drop_first(), sep) + seq![sep] + x)
            =~= (texts.first() + seq![sep] + join_with(texts.drop_first(), sep)) + seq![sep] + x);
    }
}

/// Index of the last `'/'`, or `-1` when there is none.
pub open spec fn last_slash(s: Seq<char>) -> int
    decreases s.len(),
{
    if s.len() == 0 {
        -1
    } else if s.last() == '/' {
        s.len() - 1
    } else {
        last_slash(s.drop_last())
    }
}

/// What follows the last `'/'`; the whole sequence when there is none.
pub open spec fn after_last_slash(s: Seq<char>) -> Seq<char> {
    s.subrange(last_slash(s) + 1, s.len() as int)
}

/// `last_slash` points at the last `'/'`, or before the start.
pub proof fn lemma_last_slash(s: Seq<char>)
    ensures
        -1 <= last_slash(s) < s.len(),
        last_slash(s) >= 0 ==> s[last_slash(s)] == '/',
        forall|j: int| last_slash(s) < j < s.len() ==> s[j] != '/',
    decreases s.len(),
{
    if s.len() == 0 {
    } else if s.last() == '/' {
    } else {
        lemma_last_slash(s.drop_last());
        assert forall|j: int| last_slash(s) < j < s.len() implies s[j] != '/' by {
            if j < s.len() - 1 {
                assert(s.drop_last()[j] != '/');
            }
        }
    }
}

/// The leaf name of a path: what follows the last `'/'`.
pub fn basename_of(s: &str) -> (r: String)
    ensures
        r@ == after_last_slash(s@),
{
    let n = s.unicode_len();
    let mut m: usize = n;
    while m > 0 && s.get_char(m - 1) != '/'
        invariant
            0 <= m <= n,
            n == s@.len(),
            forall|j: int| m <= j < n ==> s@[j] != '/',
        decreases m,
    {
        m -= 1;
    }
    proof {
        lemma_last_slash(s@);
        assert(last_slash(s@) == m - 1) by {
            if m > 0 {
                assert(s@[m - 1] == '/');
                if last_slash(s@) > m - 1 {
                    assert(s@[last_slash(s@)] != '/');
                } else if last_slash(s@) < m - 1 {
                    assert(s@[m - 1] != '/');
                }
            } else {
                if last_slash(s@) >= 0 {
                    assert(s@[last_slash(s@)] != '/');
                }
            }
        }
    }
    let r = s.substring_char(m, n).to_owned();
    proof {
        assert(r@ =~= after_last_slash(s@));
    }
    r
}

/// Character-wise string equality.
pub fn str_eq(a: &str, b: &str) -> (r: bool)
    ensures
        r == (a@ == b@),
{
    let la = a.unicode_len();
    let lb = b.unicode_len();
    if la != lb {
        proof {
            assert(a@ != b@) by {
                if a@ == b@ {
                    assert(a@.len() == b@.len());
                }
            }
        }
        return false;
    }
    let mut i: usize = 0;
    while i < la
        invariant
            la == a@.len(),
            la == b@.len(),
            0 <= i <= la,
            forall|j: int| 0 <= j < i ==> a@[j] == b@[j],
        decreases la - i,
    {
        if a.get_char(i) != b.get_char(i) {
            return false;
        }
        i += 1;
    }
    proof {
        assert(a@ =~= b@);
    }
    true
}

/// Whether `s` starts with `p`, character-wise.
pub fn str_starts_with(s: &str, p: &str) -> (r: bool)
    ensures
        r == has_prefix(s@, p@),
{
    let ls = s.unicode_len();
    let lp = p.unicode_len();
    if lp > ls {
        return false;
    }
    let mut i: usize = 0;
    while i < lp
        invariant
            ls == s@.len(),
            lp == p@.len(),
            lp <= ls,
            0 <= i <= lp,
            forall|j: int| 0 <= j < i ==> s@[j] == p@[j],
        decreases lp - i,
    {
        if s.get_char(i) != p.get_char(i) {
            proof {
                assert(!has_prefix(s@, p@)) by {
                    if has_prefix(s@, p@) {
                        assert(s@.subrange(0, p@.len() as int)[i as int] == p@[i as int]);
                    }
                }
            }
            return false;
        }
        i += 1;
    }
    proof {
        assert(s@.subrange(0, p@.len() as int) =~= p@);
    }
    true
}

/// Whether `s` ends with `p`, character-wise.
pub fn str_ends_with(s: &str, p: &str) -> (r: bool)
    ensures
        r == has_suffix(s@, p@),
{
    let ls = s.unicode_len();
    let lp = p.unicode_len();
    if lp > ls {
        return false;
    }
    let off: usize = ls - lp;
    let mut i: usize = 0;
    while i < lp
        invariant
            ls == s@.len(),
            lp == p@.len(),
            lp <= ls,
            off == ls - lp,
            0 <= i <= lp,
            forall|j: int| 0 <= j < i ==> s@[off + j] == p@[j],
        decreases lp - i,
    {
        if s.get_char(off + i) != p.get_char(i) {
            proof {
                assert(!has_suffix(s@, p@)) by {
                    if has_suffix(s@, p@) {
                        assert(s@.subrange(s@.len() - p@.len(), s@.len() as int)[i as int]
                            == p@[i as int]);
                    }
                }
            }
            return false;
        }
        i += 1;
    }
    proof {
        assert(s@.subrange(s@.len() - p@.len(), s@.len() as int) =~= p@);
    }
    true
}

} // verus!

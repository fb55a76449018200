use vstd::prelude::*;

verus! {

/// `m` occurs in `t` starting at position `i`.
pub open spec fn occurs_at(t: Seq<char>, m: Seq<char>, i: int) -> bool {
    0 <= i && i + m.len() <= t.len() && t.subrange(i, i + m.len() as int) == m
}

/// `t` contains `m` as a contiguous substring.
pub open spec fn spec_contains(t: Seq<char>, m: Seq<char>) -> bool {
    exists|i: int| occurs_at(t, m, i)
}

/// `t` starts with `m`.
pub open spec fn spec_starts_with(t: Seq<char>, m: Seq<char>) -> bool {
    m.len() <= t.len() && t.subrange(0, m.len() as int) == m
}

/// Whether `m` occurs in `t` at position `at`.
pub fn match_at(t: &str, m: &str, at: usize) -> (r: bool)
    requires
        at + m@.len() <= t@.len(),
    ensures
        r == occurs_at(t@, m@, at as int),
{
    let tlen = t.unicode_len();
    let mlen = m.unicode_len();
    let mut j: usize = 0;
    while j < mlen
        invariant
            j <= mlen,
            mlen == m@.len(),
            tlen == t@.len(),
            at + mlen <= tlen,
            forall|q: int| 0 <= q < j ==> t@[at + q] == m@[q],
        decreases mlen - j,
    {
        if t.get_char(at + j) != m.get_char(j) {
            proof {
                assert(t@.subrange(at as int, at + m@.len() as int)[j as int] == t@[at + j]);
            }
            return false;
        }
        j += 1;
    }
    proof {
        assert(t@.subrange(at as int, at + m@.len() as int) =~= m@);
    }
    true
}

/// `r` is true exactly when `t` starts with `m`.
pub fn starts_with(t: &str, m: &str) -> (r: bool)
    ensures
        r == spec_starts_with(t@, m@),
{
    let tlen = t.unicode_len();
    let mlen = m.unicode_len();
    if mlen > tlen {
        return false;
    }
    match_at(t, m, 0)
}

/// `r` is true exactly when the views of `a` and `b` are the same
/// character sequence.
pub fn str_eq(a: &str, b: &str) -> (r: bool)
    ensures
        r == (a@ == b@),
{
    let alen = a.unicode_len();
    let blen = b.unicode_len();
    if alen != blen {
        return false;
    }
    let mut i: usize = 0;
    while i < alen
        invariant
            i <= alen,
            alen == a@.len(),
            alen == b@.len(),
            forall|q: int| 0 <= q < i ==> a@[q] == b@[q],
        decreases alen - i,
    {
        if a.get_char(i) != b.get_char(i) {
            return false;
        }
        i += 1;
    }
    proof {
        assert(a@ =~= b@);
    }
    true
}

/// `r` is true exactly when `t` contains `m` as a contiguous substring.
pub fn contains_sub(t: &str, m: &str) -> (r: bool)
    ensures
        r == spec_contains(t@, m@),
{
    let tlen = t.unicode_len();
    let mlen = m.unicode_len();
    if mlen > tlen {
        proof {
            assert forall|i: int| !occurs_at(t@, m@, i) by {
                if 0 <= i {
                    assert(i + m@.len() > t@.len());
                }
            }
        }
        return false;
    }
    if mlen == 0 {
        proof {
            assert(t@.subrange(0, 0) =~= m@);
            assert(occurs_at(t@, m@, 0));
        }
        return true;
    }
    let mut i: usize = 0;
    while i <= tlen - mlen
        invariant
            1 <= mlen <= tlen,
            i <= tlen - mlen + 1,
            mlen == m@.len(),
            tlen == t@.len(),
            forall|k: int| 0 <= k < i ==> !occurs_at(t@, m@, k),
        decreases tlen - mlen + 1 - i,
    {
        if match_at(t, m, i) {
            return true;
        }
        i += 1;
    }
    proof {
        assert forall|k: int| !occurs_at(t@, m@, k) by {
            if 0 <= k && k + m@.len() <= t@.len() {
                assert(k < i);
            }
        }
    }
    false
}

} // verus!

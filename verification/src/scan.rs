use vstd::prelude::*;

verus! {

/// Index of the first occurrence of byte `b` in `s`, or `s.len()` when `b`
/// does not occur.
pub open spec fn idx_of(s: Seq<u8>, b: u8) -> int
    decreases s.len(),
{
    if s.len() == 0 {
        0
    } else if s[0] == b {
        0
    } else {
        1 + idx_of(s.subrange(1, s.len() as int), b)
    }
}

/// `idx_of` is pinned down by its characterization: no `b` strictly before
/// the index, and `b` at it unless it is the length.
pub proof fn lemma_idx_of_unique(s: Seq<u8>, b: u8, i: int)
    requires
        0 <= i <= s.len(),
        forall|j: int| 0 <= j < i ==> s[j] != b,
        i < s.len() ==> s[i] == b,
    ensures
        idx_of(s, b) == i,
    decreases s.len(),
{
    if s.len() == 0 {
    } else if s[0] == b {
        assert(i == 0);
    } else {
        let t = s.subrange(1, s.len() as int);
        assert(i >= 1);
        assert forall|j: int| 0 <= j < i - 1 implies t[j] != b by {
            assert(t[j] == s[j + 1]);
        }
        assert(i - 1 < t.len() ==> t[i - 1] == s[i]);
        lemma_idx_of_unique(t, b, i - 1);
    }
}

/// First position of `b` in `v` at or after `from`; `v.len()` when `b` does
/// not occur there.
pub fn find_byte(v: &Vec<u8>, from: usize, b: u8) -> (j: usize)
    requires
        from <= v.len(),
    ensures
        from <= j <= v@.len(),
        j - from == idx_of(v@.subrange(from as int, v@.len() as int), b),
        forall|k: int| from <= k < j ==> v@[k] != b,
        j < v@.len() ==> v@[j as int] == b,
{
    let mut j: usize = from;
    while j < v.len() && v[j] != b
        invariant
            from <= j <= v@.len(),
            forall|k: int| from <= k < j ==> v@[k] != b,
        decreases v@.len() - j,
    {
        j += 1;
    }
    proof {
        let s = v@.subrange(from as int, v@.len() as int);
        assert forall|k: int| 0 <= k < j - from implies s[k] != b by {
            assert(s[k] == v@[from + k]);
        }
        assert(j < v@.len() ==> s[j - from] == v@[j as int]);
        lemma_idx_of_unique(s, b, j - from);
    }
    j
}

} // verus!

use vstd::prelude::*;

verus! {

/// The contents of a fixed text field: `s` followed by zero bytes up to `n` bytes.
pub open spec fn zero_padded(s: Seq<u8>, n: nat) -> Seq<u8> {
    s + Seq::new((n - s.len()) as nat, |_i: int| 0u8)
}

/// Copies `s` into a ten-byte field, padding with zero bytes.
pub fn to_fixed_slice(s: &[u8]) -> (r: [u8; 10])
    requires
        s@.len() <= 10,
    ensures
        r@ == zero_padded(s@, 10),
{
    let mut out = [0u8; 10];
    let mut i: usize = 0;
    while i < s.len()
        invariant
            i <= s@.len() <= 10,
            out@.len() == 10,
            forall|j: int| 0 <= j < i ==> out@[j] == s@[j],
            forall|j: int| i <= j < 10 ==> out@[j] == 0u8,
        decreases s@.len() - i,
    {
        out[i] = s[i];
        i = i + 1;
    }
    assert(out@ =~= zero_padded(s@, 10));
    out
}

/// `needle` occurs in `haystack` at position `i`.
pub open spec fn occurs_at(haystack: Seq<u8>, needle: Seq<u8>, i: int) -> bool {
    0 <= i && i + needle.len() <= haystack.len() && haystack.subrange(i, i + needle.len()) == needle
}

/// The first position at which `needle` occurs in `haystack`, if any.
pub fn find_subsequence(haystack: &[u8], needle: &[u8]) -> (r: Option<usize>)
    requires
        needle@.len() > 0,
    ensures
        r matches Some(i) ==> occurs_at(haystack@, needle@, i as int),
        r matches Some(i) ==> forall|j: int| 0 <= j < i ==> !occurs_at(haystack@, needle@, j),
        r is None ==> forall|j: int| !occurs_at(haystack@, needle@, j),
{
    let n = needle.len();
    if n > haystack.len() {
        return None;
    }
    let last = haystack.len() - n;
    let mut i: usize = 0;
    while i <= last
        invariant
            n == needle@.len(),
            last + n == haystack@.len(),
            last + n <= usize::MAX,
            n > 0,
            i <= last + 1,
            forall|j: int| 0 <= j < i ==> !occurs_at(haystack@, needle@, j),
        decreases last + 1 - i,
    {
        let mut k: usize = 0;
        let mut same = true;
        while k < n && same
            invariant
                n == needle@.len(),
                last + n == haystack@.len(),
                last + n <= usize::MAX,
                i <= last,
                k <= n,
                same ==> forall|m: int| 0 <= m < k ==> haystack@[i + m] == needle@[m],
                !same ==> !occurs_at(haystack@, needle@, i as int),
            decreases n - k + (if same { 1int } else { 0int }),
        {
            if haystack[i + k] != needle[k] {
                same = false;
                assert(haystack@.subrange(i as int, i + n)[k as int] != needle@[k as int]);
            } else {
                k = k + 1;
            }
        }
        if same {
            assert(haystack@.subrange(i as int, i + n) =~= needle@);
            return Some(i);
        }
        i = i + 1;
    }
    proof {
        assert forall|j: int| !occurs_at(haystack@, needle@, j) by {
            if j > last {
                assert(!(j + n <= haystack@.len()));
            }
        }
    }
    None
}

} // verus!

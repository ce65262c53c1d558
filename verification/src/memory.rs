//! Byte-region routines: `memcpy`, `memset`, `memcmp` and `bcmp`.
//!
//! A region is a slice of bytes. `memcpy` and `memset` change the
//! destination in place; the pointer they return in C is the destination
//! itself, which the caller already holds.
use vstd::prelude::*;

verus! {

/// `dest` after its first `n` bytes are replaced by those of `src`.
pub open spec fn copied(dest: Seq<u8>, src: Seq<u8>, n: int) -> Seq<u8> {
    src.take(n) + dest.skip(n)
}

/// `dest` after its first `n` bytes are set to `v`.
pub open spec fn filled(dest: Seq<u8>, v: u8, n: int) -> Seq<u8> {
    Seq::new(n as nat, |i: int| v) + dest.skip(n)
}

/// `k` is the first position where the regions differ.
pub open spec fn mismatch_at(s1: Seq<u8>, s2: Seq<u8>, k: int) -> bool {
    &&& 0 <= k < s1.len()
    &&& k < s2.len()
    &&& s1[k] != s2[k]
    &&& forall|j: int| 0 <= j < k ==> s1[j] == s2[j]
}

/// The regions agree on every position before `i`.
pub open spec fn bytes_agree_before(s1: Seq<u8>, s2: Seq<u8>, i: int) -> bool {
    forall|j: int| 0 <= j < i ==> s1[j] == s2[j]
}

/// Every byte position that a comparison of at most `n` bytes reaches lies in
/// both regions.
pub open spec fn mem_reads_within(s1: Seq<u8>, s2: Seq<u8>, n: usize) -> bool {
    forall|i: int|
        0 <= i < n && #[trigger] bytes_agree_before(s1, s2, i) ==> i < s1.len() && i < s2.len()
}

/// What `memcmp` gives: the difference of the first differing bytes within
/// the first `n`, else 0.
pub open spec fn mem_diff(s1: Seq<u8>, s2: Seq<u8>, n: usize) -> int {
    if exists|k: int| 0 <= k < n && mismatch_at(s1, s2, k) {
        let k = choose|k: int| 0 <= k < n && mismatch_at(s1, s2, k);
        s1[k] - s2[k]
    } else {
        0
    }
}

/// There is at most one first mismatch.
pub proof fn lemma_mismatch_unique(s1: Seq<u8>, s2: Seq<u8>, k1: int, k2: int)
    requires
        mismatch_at(s1, s2, k1),
        mismatch_at(s1, s2, k2),
    ensures
        k1 == k2,
{
    if k1 < k2 {
        assert(s1[k1] == s2[k1]);
    } else if k2 < k1 {
        assert(s1[k2] == s2[k2]);
    }
}

/// A region compares equal to itself.
pub proof fn lemma_bytes_compare_reflexive(s: Seq<u8>, n: usize)
    ensures
        mem_diff(s, s, n) == 0,
{
}

/// Swapping the operands of `memcmp` negates its result.
pub proof fn lemma_bytes_compare_antisymmetric(s1: Seq<u8>, s2: Seq<u8>, n: usize)
    ensures
        mem_diff(s2, s1, n) == -mem_diff(s1, s2, n),
{
    if exists|k: int| 0 <= k < n && mismatch_at(s1, s2, k) {
        let k = choose|k: int| 0 <= k < n && mismatch_at(s1, s2, k);
        assert(mismatch_at(s2, s1, k));
        let k2 = choose|k2: int| 0 <= k2 < n && mismatch_at(s2, s1, k2);
        assert(mismatch_at(s1, s2, k2));
        lemma_mismatch_unique(s1, s2, k, k2);
    } else {
        if exists|k: int| 0 <= k < n && mismatch_at(s2, s1, k) {
            let k = choose|k: int| 0 <= k < n && mismatch_at(s2, s1, k);
            assert(mismatch_at(s1, s2, k));
        }
    }
}

/// Over regions of at least `n` bytes, `memcmp` gives 0 exactly when their
/// first `n` bytes are equal.
pub proof fn lemma_bytes_compare_zero_iff_equal(s1: Seq<u8>, s2: Seq<u8>, n: usize)
    requires
        n <= s1.len(),
        n <= s2.len(),
    ensures
        mem_reads_within(s1, s2, n),
        mem_diff(s1, s2, n) == 0 <==> s1.take(n as int) == s2.take(n as int),
{
    if s1.take(n as int) != s2.take(n as int) {
        assert(exists|d: int| 0 <= d < n && s1[d] != s2[d]) by {
            if !(exists|d: int| 0 <= d < n && s1[d] != s2[d]) {
                assert(s1.take(n as int) =~= s2.take(n as int));
            }
        }
        let d = choose|d: int| 0 <= d < n && s1[d] != s2[d];
        lemma_first_mismatch_exists(s1, s2, d);
        let k = choose|k: int| 0 <= k < n && mismatch_at(s1, s2, k);
        assert(s1[k] != s2[k]);
    } else {
        if exists|k: int| 0 <= k < n && mismatch_at(s1, s2, k) {
            let k = choose|k: int| 0 <= k < n && mismatch_at(s1, s2, k);
            assert(s1.take(n as int)[k] == s2.take(n as int)[k]);
        }
    }
}

/// A difference at `d` means a first difference at or before `d`.
proof fn lemma_first_mismatch_exists(s1: Seq<u8>, s2: Seq<u8>, d: int)
    requires
        0 <= d < s1.len(),
        d < s2.len(),
        s1[d] != s2[d],
    ensures
        exists|k: int| 0 <= k <= d && mismatch_at(s1, s2, k),
    decreases d,
{
    if exists|j: int| 0 <= j < d && s1[j] != s2[j] {
        let j = choose|j: int| 0 <= j < d && s1[j] != s2[j];
        lemma_first_mismatch_exists(s1, s2, j);
    } else {
        assert(mismatch_at(s1, s2, d));
    }
}

/// `memcmp` gives the difference of the unsigned bytes at the first position
/// within `n` where the regions differ, and 0 when they agree on all `n`
/// bytes; so its sign tells which region has the smaller byte there.
pub proof fn lemma_bytes_compare_first_difference(s1: Seq<u8>, s2: Seq<u8>, n: usize, k: int)
    requires
        0 <= k < n,
        k < s1.len(),
        k < s2.len(),
        s1[k] != s2[k],
        forall|j: int| 0 <= j < k ==> s1[j] == s2[j],
    ensures
        mem_diff(s1, s2, n) == s1[k] - s2[k],
        mem_diff(s1, s2, n) < 0 <==> s1[k] < s2[k],
{
    assert(mismatch_at(s1, s2, k));
    let k2 = choose|k2: int| 0 <= k2 < n && mismatch_at(s1, s2, k2);
    lemma_mismatch_unique(s1, s2, k, k2);
}

/// Regions that agree on their first `n` bytes compare equal.
pub proof fn lemma_bytes_compare_agreeing(s1: Seq<u8>, s2: Seq<u8>, n: usize)
    requires
        forall|j: int| 0 <= j < n ==> s1[j] == s2[j],
    ensures
        mem_diff(s1, s2, n) == 0,
{
}

/// After `memcpy` of `n` bytes, comparing those `n` bytes of the destination
/// with the source gives 0.
pub proof fn lemma_copy_then_compare(dest: Seq<u8>, src: Seq<u8>, n: usize)
    requires
        n <= dest.len(),
        n <= src.len(),
    ensures
        mem_reads_within(copied(dest, src, n as int), src, n),
        mem_diff(copied(dest, src, n as int), src, n) == 0,
{
    let c = copied(dest, src, n as int);
    assert(c.take(n as int) =~= src.take(n as int));
    lemma_bytes_compare_zero_iff_equal(c, src, n);
}

/// `memcpy`: copies the first `n` bytes of `src` over those of `dest`
/// (in C it then returns `dest`).
pub fn memcpy(dest: &mut [u8], src: &[u8], n: usize)
    requires
        n <= old(dest)@.len(),
        n <= src@.len(),
    ensures
        final(dest)@ == copied(old(dest)@, src@, n as int),
        final(dest)@.len() == old(dest)@.len(),
        forall|i: int| 0 <= i < n ==> #[trigger] final(dest)@[i] == src@[i],
        forall|i: int| n <= i < old(dest)@.len() ==> #[trigger] final(dest)@[i] == old(dest)@[i],
{
    let mut i: usize = 0;
    while i < n
        invariant
            i <= n,
            n <= dest@.len(),
            dest@.len() == old(dest)@.len(),
            n <= src@.len(),
            dest@ == copied(old(dest)@, src@, i as int),
        decreases n - i,
    {
        let ghost before = dest@;
        dest[i] = src[i];
        assert(dest@ == before.update(i as int, src@[i as int]));
        i = i + 1;
        assert(dest@ =~= copied(old(dest)@, src@, i as int));
    }
}

/// `memset`: sets the first `n` bytes of `s` to `c` converted to a byte
/// (in C it then returns `s`).
pub fn memset(s: &mut [u8], c: i32, n: usize)
    requires
        n <= old(s)@.len(),
    ensures
        final(s)@ == filled(old(s)@, #[verifier::truncate] (c as u8), n as int),
        final(s)@.len() == old(s)@.len(),
        forall|i: int| 0 <= i < n ==> #[trigger] final(s)@[i] == #[verifier::truncate] (c as u8),
        forall|i: int| n <= i < old(s)@.len() ==> #[trigger] final(s)@[i] == old(s)@[i],
{
    let v = #[verifier::truncate] (c as u8);
    let mut i: usize = 0;
    while i < n
        invariant
            i <= n,
            n <= s@.len(),
            s@.len() == old(s)@.len(),
            v == #[verifier::truncate] (c as u8),
            s@ == filled(old(s)@, v, i as int),
        decreases n - i,
    {
        let ghost before = s@;
        s[i] = v;
        assert(s@ == before.update(i as int, v));
        i = i + 1;
        assert(s@ =~= filled(old(s)@, v, i as int));
    }
}

/// `memcmp`: the difference of the first bytes that differ within the first
/// `n`, each taken as an unsigned byte; 0 when those `n` bytes agree.
pub fn memcmp(s1: &[u8], s2: &[u8], n: usize) -> (r: i32)
    requires
        mem_reads_within(s1@, s2@, n),
    ensures
        r == mem_diff(s1@, s2@, n),
{
    first_byte_difference(s1, s2, n)
}

/// `bcmp`: the same as `memcmp`.
pub fn bcmp(s1: &[u8], s2: &[u8], n: usize) -> (r: i32)
    requires
        mem_reads_within(s1@, s2@, n),
    ensures
        r == mem_diff(s1@, s2@, n),
{
    memcmp(s1, s2, n)
}

/// The walk behind `memcmp`.
fn first_byte_difference(s1: &[u8], s2: &[u8], n: usize) -> (r: i32)
    requires
        mem_reads_within(s1@, s2@, n),
    ensures
        r == mem_diff(s1@, s2@, n),
{
    let mut i: usize = 0;
    while i < n
        invariant
            i <= n,
            mem_reads_within(s1@, s2@, n),
            bytes_agree_before(s1@, s2@, i as int),
        decreases n - i,
    {
        assert(bytes_agree_before(s1@, s2@, i as int));
        let a = s1[i];
        let b = s2[i];
        if a != b {
            proof {
                assert(mismatch_at(s1@, s2@, i as int));
                let k = choose|k: int| 0 <= k < n && mismatch_at(s1@, s2@, k);
                lemma_mismatch_unique(s1@, s2@, i as int, k);
            }
            return a as i32 - b as i32;
        }
        i = i + 1;
    }
    proof {
        assert forall|k: int| 0 <= k < n implies !mismatch_at(s1@, s2@, k) by {
            assert(s1@[k] == s2@[k]);
        }
    }
    0
}

} // verus!

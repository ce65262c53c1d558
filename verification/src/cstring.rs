//! NUL-terminated strings: `strlen`, `strcmp`, `strncmp`, `toupper`,
//! `tolower`, and the conversion of a C string into its bytes.
//!
//! A C string is a slice of `c_char` (`i8` on x86-64) that holds a NUL; its
//! content is what comes before the first NUL. Comparisons read each byte as
//! an `unsigned char`, so their results order strings lexicographically by
//! unsigned byte values, a proper prefix first.
use vstd::prelude::*;

verus! {

/// `n` is the index of the first NUL byte of `s`.
pub open spec fn nul_at(s: Seq<i8>, n: int) -> bool {
    &&& 0 <= n < s.len()
    &&& s[n] == 0
    &&& forall|j: int| 0 <= j < n ==> s[j] != 0
}

/// `s` holds a NUL byte, so it is a well-formed C string.
pub open spec fn is_c_string(s: Seq<i8>) -> bool {
    exists|n: int| 0 <= n < s.len() && s[n] == 0
}

/// Length of a C string: the index of its first NUL.
pub open spec fn c_len(s: Seq<i8>) -> int {
    choose|n: int| nul_at(s, n)
}

/// The content of a C string: the bytes before its first NUL.
pub open spec fn c_content(s: Seq<i8>) -> Seq<i8> {
    s.take(c_len(s))
}

/// The two strings agree, without a NUL, on every position before `i`.
pub open spec fn agree_before(s1: Seq<i8>, s2: Seq<i8>, i: int) -> bool {
    forall|j: int| 0 <= j < i ==> s1[j] != 0 && s1[j] == s2[j]
}

/// Position `k` ends a comparison: one of the strings ends there or they differ.
pub open spec fn is_stop(s1: Seq<i8>, s2: Seq<i8>, k: int) -> bool {
    s1[k] == 0 || s2[k] == 0 || s1[k] != s2[k]
}

/// `k` is the position where a comparison of `s1` and `s2` stops.
pub open spec fn stops_at(s1: Seq<i8>, s2: Seq<i8>, k: int) -> bool {
    &&& 0 <= k < s1.len()
    &&& k < s2.len()
    &&& is_stop(s1, s2, k)
    &&& agree_before(s1, s2, k)
}

/// The comparison of `s1` and `s2` stops within both.
pub open spec fn comparison_ends(s1: Seq<i8>, s2: Seq<i8>) -> bool {
    exists|k: int| stops_at(s1, s2, k)
}

/// The position where the comparison of `s1` and `s2` stops.
pub open spec fn stop_index(s1: Seq<i8>, s2: Seq<i8>) -> int {
    choose|k: int| stops_at(s1, s2, k)
}

/// A `c_char` read as an `unsigned char`.
pub open spec fn byte_of(c: i8) -> u8 {
    c as u8
}

/// The value `strcmp` gives: the difference, as unsigned bytes, of the bytes
/// where the comparison stops.
pub open spec fn str_diff(s1: Seq<i8>, s2: Seq<i8>) -> int {
    byte_of(s1[stop_index(s1, s2)]) - byte_of(s2[stop_index(s1, s2)])
}

/// `a` comes before `b` in lexicographic order of unsigned bytes: at the
/// first position where they part, `a` has ended or has the smaller byte.
pub open spec fn precedes(a: Seq<i8>, b: Seq<i8>) -> bool {
    exists|k: int|
        0 <= k <= a.len() && k <= b.len() && #[trigger] a.take(k) == b.take(k) && ((k == a.len()
            && k < b.len()) || (k < a.len() && k < b.len() && byte_of(a[k]) < byte_of(b[k])))
}

/// The value `strncmp` gives for a bound `n`: the difference where the
/// comparison stops if it stops before `n`, else 0.
pub open spec fn str_diff_within(s1: Seq<i8>, s2: Seq<i8>, n: usize) -> int {
    if exists|k: int| 0 <= k < n && stops_at(s1, s2, k) {
        str_diff(s1, s2)
    } else {
        0
    }
}

/// Every position that a comparison of at most `n` bytes reaches lies in both arrays.
pub open spec fn reads_within(s1: Seq<i8>, s2: Seq<i8>, n: usize) -> bool {
    forall|i: int| 0 <= i < n && #[trigger] agree_before(s1, s2, i) ==> i < s1.len() && i < s2.len()
}

/// ASCII `'a'..='z'`.
pub open spec fn is_lower(c: i32) -> bool {
    97 <= c <= 122
}

/// ASCII `'A'..='Z'`.
pub open spec fn is_upper(c: i32) -> bool {
    65 <= c <= 90
}

/// What `toupper` gives.
pub open spec fn upper_of(c: i32) -> int {
    if is_lower(c) {
        c - 32
    } else {
        c as int
    }
}

/// What `tolower` gives.
pub open spec fn lower_of(c: i32) -> int {
    if is_upper(c) {
        c + 32
    } else {
        c as int
    }
}

/// Reading `c_char`s as unsigned bytes keeps them apart and keeps 0 as 0.
pub proof fn lemma_byte_of(a: i8, b: i8)
    ensures
        byte_of(a) == byte_of(b) <==> a == b,
        byte_of(a) == 0 <==> a == 0,
{
    assert((a as u8) == (b as u8) <==> a == b) by (bit_vector);
    assert((a as u8) == 0 <==> a == 0) by (bit_vector);
}

/// A string has only one first NUL.
pub proof fn lemma_nul_unique(s: Seq<i8>, n1: int, n2: int)
    requires
        nul_at(s, n1),
        nul_at(s, n2),
    ensures
        n1 == n2,
{
    if n1 < n2 {
        assert(s[n1] != 0);
    } else if n2 < n1 {
        assert(s[n2] != 0);
    }
}

/// A NUL at `m` means a first NUL at or before `m`.
proof fn lemma_first_nul_exists(s: Seq<i8>, m: int)
    requires
        0 <= m < s.len(),
        s[m] == 0,
    ensures
        exists|n: int| nul_at(s, n),
    decreases m,
{
    if exists|j: int| 0 <= j < m && s[j] == 0 {
        let j = choose|j: int| 0 <= j < m && s[j] == 0;
        lemma_first_nul_exists(s, j);
    } else {
        assert(nul_at(s, m));
    }
}

/// A C string has a first NUL, and `c_len` is it.
pub proof fn lemma_c_len(s: Seq<i8>)
    requires
        is_c_string(s),
    ensures
        nul_at(s, c_len(s)),
        forall|n: int| nul_at(s, n) ==> n == c_len(s),
{
    let m = choose|m: int| 0 <= m < s.len() && s[m] == 0;
    lemma_first_nul_exists(s, m);
    assert forall|n: int| nul_at(s, n) implies n == c_len(s) by {
        lemma_nul_unique(s, n, c_len(s));
    }
}

/// There is at most one stopping position.
pub proof fn lemma_stop_unique(s1: Seq<i8>, s2: Seq<i8>, k1: int, k2: int)
    requires
        stops_at(s1, s2, k1),
        stops_at(s1, s2, k2),
    ensures
        k1 == k2,
{
    if k1 < k2 {
        assert(s1[k1] != 0 && s1[k1] == s2[k1]);
    } else if k2 < k1 {
        assert(s1[k2] != 0 && s1[k2] == s2[k2]);
    }
}

/// A comparison that stops at `k` stops at `stop_index`.
pub proof fn lemma_stop_index(s1: Seq<i8>, s2: Seq<i8>, k: int)
    requires
        stops_at(s1, s2, k),
    ensures
        stop_index(s1, s2) == k,
{
    lemma_stop_unique(s1, s2, k, stop_index(s1, s2));
}

/// A stop at `m` means a first stop at or before `m`.
proof fn lemma_first_stop_exists(s1: Seq<i8>, s2: Seq<i8>, m: int)
    requires
        0 <= m < s1.len(),
        m < s2.len(),
        is_stop(s1, s2, m),
    ensures
        comparison_ends(s1, s2),
    decreases m,
{
    if exists|j: int| 0 <= j < m && is_stop(s1, s2, j) {
        let j = choose|j: int| 0 <= j < m && is_stop(s1, s2, j);
        lemma_first_stop_exists(s1, s2, j);
    } else {
        assert forall|j: int| 0 <= j < m implies s1[j] != 0 && s1[j] == s2[j] by {
            assert(!is_stop(s1, s2, j));
        }
        assert(stops_at(s1, s2, m));
    }
}

/// Two C strings can always be compared: the comparison stops, at the
/// latest, at the first NUL of the shorter one.
pub proof fn lemma_c_strings_comparable(s1: Seq<i8>, s2: Seq<i8>)
    requires
        is_c_string(s1),
        is_c_string(s2),
    ensures
        comparison_ends(s1, s2),
        stop_index(s1, s2) <= c_len(s1),
        stop_index(s1, s2) <= c_len(s2),
{
    lemma_c_len(s1);
    lemma_c_len(s2);
    let m = if c_len(s1) <= c_len(s2) { c_len(s1) } else { c_len(s2) };
    lemma_first_stop_exists(s1, s2, m);
    let k = stop_index(s1, s2);
    if k > c_len(s1) {
        assert(s1[c_len(s1)] != 0);
    }
    if k > c_len(s2) {
        assert(s2[c_len(s2)] == s1[c_len(s2)]);
    }
}

/// A C string compares equal to itself.
pub proof fn lemma_compare_reflexive(s: Seq<i8>)
    requires
        is_c_string(s),
    ensures
        comparison_ends(s, s),
        str_diff(s, s) == 0,
{
    lemma_c_strings_comparable(s, s);
}

/// Swapping the operands of a comparison negates its result: the
/// comparison stops at the same position.
pub proof fn lemma_compare_antisymmetric(s1: Seq<i8>, s2: Seq<i8>)
    requires
        comparison_ends(s1, s2),
    ensures
        comparison_ends(s2, s1),
        stop_index(s2, s1) == stop_index(s1, s2),
        str_diff(s2, s1) == -str_diff(s1, s2),
{
    let k = stop_index(s1, s2);
    assert(stops_at(s2, s1, k));
    lemma_stop_index(s2, s1, k);
}

/// Two C strings compare equal (the result is 0) exactly when their contents
/// are equal.
pub proof fn lemma_compare_zero_iff_equal(s1: Seq<i8>, s2: Seq<i8>)
    requires
        is_c_string(s1),
        is_c_string(s2),
    ensures
        comparison_ends(s1, s2),
        str_diff(s1, s2) == 0 <==> c_content(s1) == c_content(s2),
{
    lemma_c_strings_comparable(s1, s2);
    lemma_c_len(s1);
    lemma_c_len(s2);
    let k = stop_index(s1, s2);
    lemma_byte_of(s1[k], s2[k]);
    if str_diff(s1, s2) == 0 {
        assert(s1[k] == 0 && s2[k] == 0);
        assert(nul_at(s1, k));
        assert(nul_at(s2, k));
        assert(c_content(s1) =~= c_content(s2));
    }
    if c_content(s1) == c_content(s2) {
        let n = c_len(s1);
        assert(c_content(s1).len() == n);
        assert(c_len(s2) == n);
        if k < n {
            assert(c_content(s1)[k] == c_content(s2)[k]);
            assert(s1[k] != 0);
        }
        assert(k == n);
    }
}

/// Bounding a comparison by more bytes than it reads changes nothing:
/// `strncmp` then gives what `strcmp` gives.
pub proof fn lemma_bounded_matches_full(s1: Seq<i8>, s2: Seq<i8>, n: usize)
    requires
        comparison_ends(s1, s2),
        stop_index(s1, s2) < n,
    ensures
        str_diff_within(s1, s2, n) == str_diff(s1, s2),
{
    let k = stop_index(s1, s2);
    assert(0 <= k < n && stops_at(s1, s2, k));
}

/// The result of `strcmp` orders C strings lexicographically by unsigned
/// bytes: negative exactly when the first comes before the second, positive
/// exactly when it comes after.
pub proof fn lemma_compare_orders(s1: Seq<i8>, s2: Seq<i8>)
    requires
        is_c_string(s1),
        is_c_string(s2),
    ensures
        str_diff(s1, s2) < 0 <==> precedes(c_content(s1), c_content(s2)),
        str_diff(s1, s2) > 0 <==> precedes(c_content(s2), c_content(s1)),
{
    lemma_negative_iff_precedes(s1, s2);
    lemma_negative_iff_precedes(s2, s1);
    lemma_c_strings_comparable(s1, s2);
    lemma_compare_antisymmetric(s1, s2);
}

/// `strcmp` is negative exactly when the first string comes before the second.
proof fn lemma_negative_iff_precedes(s1: Seq<i8>, s2: Seq<i8>)
    requires
        is_c_string(s1),
        is_c_string(s2),
    ensures
        str_diff(s1, s2) < 0 <==> precedes(c_content(s1), c_content(s2)),
{
    lemma_c_strings_comparable(s1, s2);
    lemma_c_len(s1);
    lemma_c_len(s2);
    let k = stop_index(s1, s2);
    let a = c_content(s1);
    let b = c_content(s2);
    lemma_byte_of(s1[k], s2[k]);
    lemma_byte_of(s2[k], s1[k]);
    assert(a.take(k) =~= b.take(k)) by {
        assert forall|j: int| 0 <= j < k implies a.take(k)[j] == b.take(k)[j] by {
            assert(s1[j] == s2[j]);
        }
    }
    if str_diff(s1, s2) < 0 {
        if s1[k] == 0 {
            assert(nul_at(s1, k));
            assert(s2[k] != 0);
            assert(a.len() == k);
            assert(b.len() > k);
        } else {
            assert(s2[k] != 0);
            assert(a.len() > k);
            assert(b.len() > k);
            assert(a[k] == s1[k] && b[k] == s2[k]);
        }
        assert(precedes(a, b));
    }
    if precedes(a, b) {
        let j = choose|j: int|
            0 <= j <= a.len() && j <= b.len() && #[trigger] a.take(j) == b.take(j) && ((j
                == a.len() && j < b.len()) || (j < a.len() && j < b.len() && byte_of(a[j])
                < byte_of(b[j])));
        assert(agree_before(s1, s2, j)) by {
            assert forall|i: int| 0 <= i < j implies s1[i] != 0 && s1[i] == s2[i] by {
                assert(a.take(j)[i] == b.take(j)[i]);
                assert(a[i] == s1[i] && b[i] == s2[i]);
            }
        }
        if j == a.len() {
            assert(s1[j] == 0);
            assert(b[j] == s2[j]);
            lemma_byte_of(s2[j], s1[j]);
        } else {
            assert(a[j] == s1[j] && b[j] == s2[j]);
        }
        assert(stops_at(s1, s2, j));
        lemma_stop_index(s1, s2, j);
    }
}

/// When `n` exceeds the length of the shorter of two C strings, `strncmp`
/// gives what `strcmp` gives.
pub proof fn lemma_bounded_past_shorter(s1: Seq<i8>, s2: Seq<i8>, n: usize)
    requires
        is_c_string(s1),
        is_c_string(s2),
        c_len(s1) < n || c_len(s2) < n,
    ensures
        reads_within(s1, s2, n),
        str_diff_within(s1, s2, n) == str_diff(s1, s2),
{
    lemma_c_strings_comparable(s1, s2);
    lemma_bounded_matches_full(s1, s2, n);
    let k = stop_index(s1, s2);
    assert forall|i: int| 0 <= i < n && #[trigger] agree_before(s1, s2, i) implies i < s1.len()
        && i < s2.len() by {
        if i > k {
            assert(s1[k] != 0 && s1[k] == s2[k]);
        }
    }
}

/// Over the first `i <= n` positions, agreeing without a NUL is the same for
/// two pairs of arrays that hold the same bytes where a comparison of `n`
/// bytes reads.
proof fn lemma_agree_transfer(
    s1: Seq<i8>,
    s2: Seq<i8>,
    t1: Seq<i8>,
    t2: Seq<i8>,
    n: usize,
    i: int,
)
    requires
        0 <= i <= n,
        forall|j: int|
            0 <= j < n && #[trigger] agree_before(s1, s2, j) ==> j < t1.len() && j < t2.len() && t1[j]
                == s1[j] && t2[j] == s2[j],
    ensures
        agree_before(s1, s2, i) <==> agree_before(t1, t2, i),
    decreases i,
{
    if i > 0 {
        lemma_agree_transfer(s1, s2, t1, t2, n, i - 1);
        if agree_before(s1, s2, i - 1) {
            assert(t1[i - 1] == s1[i - 1] && t2[i - 1] == s2[i - 1]);
        }
        if agree_before(s1, s2, i) {
            assert(agree_before(s1, s2, i - 1));
        }
        if agree_before(t1, t2, i) {
            assert(agree_before(t1, t2, i - 1));
        }
    }
}

/// Only the bytes that a comparison of `n` bytes reads matter: arrays that
/// hold the same bytes there give `strncmp` the same result.
pub proof fn lemma_bounded_reads_only_prefix(
    s1: Seq<i8>,
    s2: Seq<i8>,
    t1: Seq<i8>,
    t2: Seq<i8>,
    n: usize,
)
    requires
        reads_within(s1, s2, n),
        forall|j: int|
            0 <= j < n && #[trigger] agree_before(s1, s2, j) ==> j < t1.len() && j < t2.len() && t1[j]
                == s1[j] && t2[j] == s2[j],
    ensures
        reads_within(t1, t2, n),
        str_diff_within(t1, t2, n) == str_diff_within(s1, s2, n),
{
    assert forall|i: int| 0 <= i < n && #[trigger] agree_before(t1, t2, i) implies i < t1.len()
        && i < t2.len() by {
        lemma_agree_transfer(s1, s2, t1, t2, n, i);
    }
    assert forall|k: int| 0 <= k < n implies stops_at(s1, s2, k) == stops_at(t1, t2, k) by {
        lemma_agree_transfer(s1, s2, t1, t2, n, k);
        if agree_before(s1, s2, k) {
            assert(t1[k] == s1[k] && t2[k] == s2[k]);
        }
    }
    if exists|k: int| 0 <= k < n && stops_at(s1, s2, k) {
        let k = choose|k: int| 0 <= k < n && stops_at(s1, s2, k);
        assert(stops_at(t1, t2, k));
        lemma_stop_index(s1, s2, k);
        lemma_stop_index(t1, t2, k);
    } else {
        if exists|k: int| 0 <= k < n && stops_at(t1, t2, k) {
            let k = choose|k: int| 0 <= k < n && stops_at(t1, t2, k);
            assert(stops_at(s1, s2, k));
        }
    }
}

/// `strcmp` gives the difference of the two bytes, read as unsigned, at the
/// first position where the strings differ or the first one ends; `strncmp`
/// gives the same when that position lies before `n`, and 0 when the first
/// `n` bytes agree and hold no NUL.
pub proof fn lemma_compare_difference(s1: Seq<i8>, s2: Seq<i8>, k: int, n: usize)
    requires
        0 <= k < s1.len(),
        k < s2.len(),
        s1[k] == 0 || s1[k] != s2[k],
        forall|j: int| 0 <= j < k ==> s1[j] != 0 && s1[j] == s2[j],
    ensures
        str_diff(s1, s2) == (s1[k] as u8) - (s2[k] as u8),
        k < n ==> str_diff_within(s1, s2, n) == (s1[k] as u8) - (s2[k] as u8),
        n <= k ==> str_diff_within(s1, s2, n) == 0,
{
    assert(stops_at(s1, s2, k));
    lemma_stop_index(s1, s2, k);
    if n <= k {
        assert forall|k2: int| 0 <= k2 < n implies !stops_at(s1, s2, k2) by {
            assert(s1[k2] != 0 && s1[k2] == s2[k2]);
        }
    } else {
        assert(0 <= k < n && stops_at(s1, s2, k));
    }
}

/// A bound of zero bytes compares nothing.
pub proof fn lemma_bounded_zero(s1: Seq<i8>, s2: Seq<i8>)
    ensures
        str_diff_within(s1, s2, 0) == 0,
{
}

/// `toupper` moves exactly the ASCII lower-case letters, each down by 32 to
/// its upper-case letter, and leaves every other value as it is; `tolower`
/// moves exactly the upper-case letters, each up by 32.
pub proof fn lemma_case_changes_only_letters(c: i32)
    ensures
        97 <= c <= 122 ==> upper_of(c) == c - 32 && 65 <= upper_of(c) <= 90,
        !(97 <= c <= 122) ==> upper_of(c) == c,
        65 <= c <= 90 ==> lower_of(c) == c + 32 && 97 <= lower_of(c) <= 122,
        !(65 <= c <= 90) ==> lower_of(c) == c,
{
}

/// `tolower` undoes `toupper` on lower-case letters and `toupper` undoes
/// `tolower` on upper-case letters; each is idempotent.
pub proof fn lemma_case_round_trip(c: i32)
    ensures
        is_lower(c) ==> lower_of(upper_of(c) as i32) == c,
        is_upper(c) ==> upper_of(lower_of(c) as i32) == c,
        upper_of(upper_of(c) as i32) == upper_of(c),
        lower_of(lower_of(c) as i32) == lower_of(c),
{
}

/// Length of the C string `s`: the number of bytes before its first NUL.
pub fn strlen(s: &[i8]) -> (len: usize)
    requires
        is_c_string(s@),
    ensures
        nul_at(s@, len as int),
        len == c_len(s@),
{
    let ghost n = choose|n: int| 0 <= n < s@.len() && s@[n] == 0;
    let mut len: usize = 0;
    while s[len] != 0
        invariant
            0 <= len <= n < s@.len(),
            s@[n] == 0,
            forall|j: int| 0 <= j < len ==> s@[j] != 0,
        decreases n - len,
    {
        len = len + 1;
    }
    proof {
        lemma_c_len(s@);
    }
    len
}

/// Compares two C strings, reading bytes as `unsigned char`. The result is
/// the difference of the bytes at the first position where one of them ends
/// or they differ: negative, zero or positive as `s1` comes before, equals or
/// comes after `s2`.
pub fn strcmp(s1: &[i8], s2: &[i8]) -> (r: i32)
    requires
        comparison_ends(s1@, s2@),
    ensures
        r == str_diff(s1@, s2@),
{
    difference_at_stop(s1, s2)
}

/// The difference of two bytes read as `unsigned char`.
fn unsigned_difference(a: i8, b: i8) -> (d: i32)
    ensures
        d == byte_of(a) - byte_of(b),
{
    (a as u8) as i32 - (b as u8) as i32
}

/// The walk behind `strcmp`.
fn difference_at_stop(s1: &[i8], s2: &[i8]) -> (r: i32)
    requires
        comparison_ends(s1@, s2@),
    ensures
        r == str_diff(s1@, s2@),
{
    let ghost k = stop_index(s1@, s2@);
    let mut i: usize = 0;
    while s1[i] != 0 && s1[i] == s2[i]
        invariant
            stops_at(s1@, s2@, k),
            k == stop_index(s1@, s2@),
            0 <= i <= k,
            agree_before(s1@, s2@, i as int),
        decreases k - i,
    {
        i = i + 1;
    }
    proof {
        lemma_stop_unique(s1@, s2@, i as int, k);
    }
    unsigned_difference(s1[i], s2[i])
}

/// Compares at most `n` bytes of two strings, as `strcmp` does; when the
/// first `n` bytes agree and hold no NUL, the result is 0. Arrays need not be
/// NUL-terminated when the comparison stops within them.
pub fn strncmp(s1: &[i8], s2: &[i8], n: usize) -> (r: i32)
    requires
        reads_within(s1@, s2@, n),
    ensures
        r == str_diff_within(s1@, s2@, n),
{
    bounded_difference(s1, s2, n)
}

/// The walk behind `strncmp`.
fn bounded_difference(s1: &[i8], s2: &[i8], n: usize) -> (r: i32)
    requires
        reads_within(s1@, s2@, n),
    ensures
        r == str_diff_within(s1@, s2@, n),
{
    let mut count: usize = 0;
    while count < n
        invariant
            count <= n,
            agree_before(s1@, s2@, count as int),
            reads_within(s1@, s2@, n),
        decreases n - count,
    {
        assert(agree_before(s1@, s2@, count as int));
        let c1 = s1[count];
        let c2 = s2[count];
        if c1 == 0 || c2 == 0 || c1 != c2 {
            proof {
                assert(stops_at(s1@, s2@, count as int));
                lemma_stop_index(s1@, s2@, count as int);
            }
            return unsigned_difference(c1, c2);
        }
        count = count + 1;
    }
    proof {
        assert forall|k: int| 0 <= k < n implies !stops_at(s1@, s2@, k) by {
            assert(s1@[k] != 0 && s1@[k] == s2@[k]);
        }
    }
    0
}

/// `toupper`: maps ASCII `'a'..='z'` to `'A'..='Z'` and keeps every other value.
pub fn toupper(c: i32) -> (r: i32)
    ensures
        r == upper_of(c),
        97 <= c <= 122 ==> r == c - 32,
        !(97 <= c <= 122) ==> r == c,
{
    if c >= 'a' as i32 && c <= 'z' as i32 {
        c - ('a' as i32 - 'A' as i32)
    } else {
        c
    }
}

/// `tolower`: maps ASCII `'A'..='Z'` to `'a'..='z'` and keeps every other value.
pub fn tolower(c: i32) -> (r: i32)
    ensures
        r == lower_of(c),
        65 <= c <= 90 ==> r == c + 32,
        !(65 <= c <= 90) ==> r == c,
{
    if c >= 'A' as i32 && c <= 'Z' as i32 {
        c + ('a' as i32 - 'A' as i32)
    } else {
        c
    }
}

/// The bytes of a C string up to, not including, its NUL; no string at all
/// (a null pointer) gives no bytes.
pub fn c_str_to_str(s: Option<&[i8]>) -> (bytes: Vec<u8>)
    requires
        s matches Some(s) ==> is_c_string(s@),
    ensures
        s matches Some(s) ==> bytes@ == c_content(s@).map_values(|b: i8| b as u8),
        s matches Some(s) ==> nul_at(s@, bytes@.len() as int) && forall|j: int|
            0 <= j < bytes@.len() ==> #[trigger] bytes@[j] == s@[j] as u8,
        s is None ==> bytes@.len() == 0,
{
    let mut bytes: Vec<u8> = Vec::new();
    match s {
        None => bytes,
        Some(s) => {
            let len = strlen(s);
            let mut i: usize = 0;
            while i < len
                invariant
                    i <= len,
                    nul_at(s@, len as int),
                    len == c_len(s@),
                    bytes@ == c_content(s@).take(i as int).map_values(|b: i8| b as u8),
                decreases len - i,
            {
                bytes.push(s[i] as u8);
                i = i + 1;
                assert(bytes@ =~= c_content(s@).take(i as int).map_values(|b: i8| b as u8));
            }
            assert(c_content(s@).take(len as int) =~= c_content(s@));
            bytes
        },
    }
}

} // verus!

//! Byte-sequence primitives: substring search, whitespace trimming, and
//! equality tests, each proved against a direct mathematical statement.

use vstd::prelude::*;

verus! {

/// Whitespace bytes: tab, line feed, vertical tab, form feed, carriage
/// return, and space.
pub open spec fn is_ws(b: u8) -> bool {
    b == 0x09 || b == 0x0a || b == 0x0b || b == 0x0c || b == 0x0d || b == 0x20
}

/// The needle `n` occurs in `h` starting at position `i`.
pub open spec fn match_at(h: Seq<u8>, n: Seq<u8>, i: int) -> bool {
    0 <= i && i + n.len() <= h.len() && h.subrange(i, i + n.len()) == n
}

/// Position of the first occurrence of `n` in `h` at or after `from`.
pub open spec fn first_match_from(h: Seq<u8>, n: Seq<u8>, from: int) -> Option<int>
    decreases h.len() + 1 - from,
{
    if from + n.len() > h.len() {
        None
    } else if match_at(h, n, from) {
        Some(from)
    } else {
        first_match_from(h, n, from + 1)
    }
}

/// Position of the last occurrence of `n` in `h` strictly below `bound`.
pub open spec fn last_match_before(h: Seq<u8>, n: Seq<u8>, bound: int) -> Option<int>
    decreases bound,
{
    if bound <= 0 {
        None
    } else if match_at(h, n, bound - 1) {
        Some(bound - 1)
    } else {
        last_match_before(h, n, bound - 1)
    }
}

/// Position of the last occurrence of `n` anywhere in `h`.
pub open spec fn last_match(h: Seq<u8>, n: Seq<u8>) -> Option<int> {
    last_match_before(h, n, h.len() + 1int)
}

/// Length of the longest all-whitespace prefix of `s`.
pub open spec fn ws_prefix_len(s: Seq<u8>) -> int
    decreases s.len(),
{
    if s.len() == 0 || !is_ws(s[0]) {
        0
    } else {
        1 + ws_prefix_len(s.drop_first())
    }
}

/// Length of the longest all-whitespace suffix of `s`.
pub open spec fn ws_suffix_len(s: Seq<u8>) -> int
    decreases s.len(),
{
    if s.len() == 0 || !is_ws(s.last()) {
        0
    } else {
        1 + ws_suffix_len(s.drop_last())
    }
}

/// Length of the longest prefix of `s` without whitespace; equally, the
/// position of the first whitespace byte, or the length if there is none.
pub open spec fn non_ws_prefix_len(s: Seq<u8>) -> int
    decreases s.len(),
{
    if s.len() == 0 || is_ws(s[0]) {
        0
    } else {
        1 + non_ws_prefix_len(s.drop_first())
    }
}

/// Position of the last byte of `s` that differs from `b`, if any.
pub open spec fn last_non_byte(s: Seq<u8>, b: u8) -> Option<int>
    decreases s.len(),
{
    if s.len() == 0 {
        None
    } else if s.last() != b {
        Some(s.len() - 1)
    } else {
        last_non_byte(s.drop_last(), b)
    }
}

/// `ws_prefix_len` is the unique cut point: everything before it is
/// whitespace and it either sits on a non-whitespace byte or at the end.
pub proof fn lemma_ws_prefix_len(s: Seq<u8>)
    ensures
        0 <= ws_prefix_len(s) <= s.len(),
        forall|j: int| 0 <= j < ws_prefix_len(s) ==> is_ws(#[trigger] s[j]),
        ws_prefix_len(s) < s.len() ==> !is_ws(s[ws_prefix_len(s)]),
    decreases s.len(),
{
    if s.len() == 0 || !is_ws(s[0]) {
    } else {
        lemma_ws_prefix_len(s.drop_first());
        assert forall|j: int| 0 <= j < ws_prefix_len(s) implies is_ws(#[trigger] s[j]) by {
            if j > 0 {
                assert(s.drop_first()[j - 1] == s[j]);
            }
        }
        if ws_prefix_len(s) < s.len() {
            assert(s.drop_first()[ws_prefix_len(s) - 1] == s[ws_prefix_len(s)]);
        }
    }
}

/// `ws_suffix_len` is the mirror cut point at the end of the sequence.
pub proof fn lemma_ws_suffix_len(s: Seq<u8>)
    ensures
        0 <= ws_suffix_len(s) <= s.len(),
        forall|j: int| s.len() - ws_suffix_len(s) <= j < s.len() ==> is_ws(#[trigger] s[j]),
        ws_suffix_len(s) < s.len() ==> !is_ws(s[s.len() - ws_suffix_len(s) - 1]),
    decreases s.len(),
{
    if s.len() == 0 || !is_ws(s.last()) {
    } else {
        lemma_ws_suffix_len(s.drop_last());
        assert forall|j: int| s.len() - ws_suffix_len(s) <= j < s.len() implies is_ws(
            #[trigger] s[j],
        ) by {
            if j < s.len() - 1 {
                assert(s.drop_last()[j] == s[j]);
            }
        }
        if ws_suffix_len(s) < s.len() {
            assert(s.drop_last()[s.len() - ws_suffix_len(s) - 1] == s[s.len() - ws_suffix_len(s)
                - 1]);
        }
    }
}

/// A first match lies at or after the search start, is a real match, and no
/// earlier position at or after the start matches.
pub proof fn lemma_first_match_props(h: Seq<u8>, n: Seq<u8>, from: int)
    ensures
        match first_match_from(h, n, from) {
            Some(i) => from <= i && match_at(h, n, i) && forall|j: int|
                from <= j < i ==> !match_at(h, n, j),
            None => forall|j: int| from <= j ==> !match_at(h, n, j),
        },
    decreases h.len() + 1 - from,
{
    if from + n.len() > h.len() {
        assert forall|j: int| from <= j implies !match_at(h, n, j) by {}
    } else if match_at(h, n, from) {
    } else {
        lemma_first_match_props(h, n, from + 1);
    }
}

/// Skipping over positions without a match does not change the first match.
pub proof fn lemma_first_match_skip(h: Seq<u8>, n: Seq<u8>, from: int, to: int)
    requires
        from <= to,
        forall|j: int| from <= j < to ==> !match_at(h, n, j),
    ensures
        first_match_from(h, n, from) == first_match_from(h, n, to),
    decreases to - from,
{
    if from < to {
        lemma_first_match_skip(h, n, from + 1, to);
    }
}

/// A last match below a bound is a real match below the bound, and no
/// later position below the bound matches.
pub proof fn lemma_last_match_props(h: Seq<u8>, n: Seq<u8>, bound: int)
    ensures
        match last_match_before(h, n, bound) {
            Some(i) => i < bound && match_at(h, n, i) && forall|j: int|
                i < j < bound ==> !match_at(h, n, j),
            None => forall|j: int| 0 <= j < bound ==> !match_at(h, n, j),
        },
    decreases bound,
{
    if bound <= 0 {
    } else if match_at(h, n, bound - 1) {
    } else {
        lemma_last_match_props(h, n, bound - 1);
    }
}

/// Below a position without a match, the last match is unchanged.
pub proof fn lemma_last_match_skip(h: Seq<u8>, n: Seq<u8>, bound: int, upper: int)
    requires
        bound <= upper,
        forall|j: int| bound <= j < upper ==> !match_at(h, n, j),
    ensures
        last_match_before(h, n, bound) == last_match_before(h, n, upper),
    decreases upper - bound,
{
    if bound < upper {
        lemma_last_match_skip(h, n, bound, upper - 1);
    }
}

/// Whether `n` occurs in `h` at position `i`.
pub fn match_at_exec(h: &[u8], n: &[u8], i: usize) -> (r: bool)
    requires
        i + n@.len() <= h@.len(),
    ensures
        r == match_at(h@, n@, i as int),
{
    let nl = n.len();
    let hl = h.len();
    let mut j: usize = 0;
    while j < nl
        invariant
            nl == n@.len(),
            hl == h@.len(),
            i + n@.len() <= h@.len(),
            0 <= j <= n@.len(),
            forall|k: int| 0 <= k < j ==> h@[i + k] == n@[k],
        decreases n@.len() - j,
    {
        if h[i + j] != n[j] {
            assert(h@.subrange(i as int, i + n@.len())[j as int] != n@[j as int]);
            return false;
        }
        j += 1;
    }
    assert(h@.subrange(i as int, i + n@.len()) =~= n@);
    true
}

/// First occurrence of `n` in `h` at or after `from`, if any.
pub fn find_from(h: &[u8], n: &[u8], from: usize) -> (r: Option<usize>)
    requires
        n@.len() >= 1,
    ensures
        match r {
            Some(i) => first_match_from(h@, n@, from as int) == Some(i as int),
            None => first_match_from(h@, n@, from as int) is None,
        },
{
    let nl = n.len();
    let hl = h.len();
    if nl > hl || from > hl - nl {
        return None;
    }
    let mut i: usize = from;
    while i <= hl - nl
        invariant
            nl == n@.len(),
            hl == h@.len(),
            1 <= nl <= hl,
            from <= i <= hl - nl + 1,
            forall|j: int| from <= j < i ==> !match_at(h@, n@, j),
        decreases hl + 1 - i,
    {
        if match_at_exec(h, n, i) {
            proof {
                lemma_first_match_skip(h@, n@, from as int, i as int);
            }
            return Some(i);
        }
        i += 1;
    }
    proof {
        lemma_first_match_skip(h@, n@, from as int, i as int);
    }
    None
}

/// Last occurrence of `n` in `h`, if any.
pub fn rfind(h: &[u8], n: &[u8]) -> (r: Option<usize>)
    requires
        n@.len() >= 1,
    ensures
        match r {
            Some(i) => last_match(h@, n@) == Some(i as int),
            None => last_match(h@, n@) is None,
        },
{
    let nl = n.len();
    let hl = h.len();
    if nl > hl {
        proof {
            lemma_last_match_skip(h@, n@, 0, h@.len() + 1int);
        }
        return None;
    }
    let mut i: usize = hl - nl + 1;
    proof {
        lemma_last_match_skip(h@, n@, i as int, h@.len() + 1int);
    }
    while i > 0
        invariant
            nl == n@.len(),
            hl == h@.len(),
            nl <= hl,
            i <= hl - nl + 1,
            last_match(h@, n@) == last_match_before(h@, n@, i as int),
        decreases i,
    {
        if match_at_exec(h, n, i - 1) {
            return Some(i - 1);
        }
        i -= 1;
    }
    None
}

/// Whether the two byte slices hold the same bytes.
pub fn bytes_eq(a: &[u8], b: &[u8]) -> (r: bool)
    ensures
        r == (a@ == b@),
{
    if a.len() != b.len() {
        return false;
    }
    let mut j: usize = 0;
    while j < a.len()
        invariant
            a@.len() == b@.len(),
            0 <= j <= a@.len(),
            forall|k: int| 0 <= k < j ==> a@[k] == b@[k],
        decreases a@.len() - j,
    {
        if a[j] != b[j] {
            return false;
        }
        j += 1;
    }
    assert(a@ =~= b@);
    true
}

/// Whether `h` begins with the prefix `n`.
pub fn starts_with(h: &[u8], n: &[u8]) -> (r: bool)
    ensures
        r == (n@.len() <= h@.len() && h@.subrange(0, n@.len() as int) == n@),
{
    if n.len() > h.len() {
        return false;
    }
    match_at_exec(h, n, 0)
}

/// Whether `n` occurs anywhere in `h`.
pub fn contains(h: &[u8], n: &[u8]) -> (r: bool)
    requires
        n@.len() >= 1,
    ensures
        r == (first_match_from(h@, n@, 0) is Some),
{
    find_from(h, n, 0).is_some()
}

/// Copy the byte range `[start, end)` of `v` into a fresh vector.
pub fn subvec(v: &[u8], start: usize, end: usize) -> (r: Vec<u8>)
    requires
        start <= end <= v@.len(),
    ensures
        r@ == v@.subrange(start as int, end as int),
{
    let mut r: Vec<u8> = Vec::new();
    let mut i: usize = start;
    while i < end
        invariant
            start <= i <= end <= v@.len(),
            r@ == v@.subrange(start as int, i as int),
        decreases end - i,
    {
        r.push(v[i]);
        assert(r@ =~= v@.subrange(start as int, i + 1));
        i += 1;
    }
    r
}

/// Length of the whitespace prefix of the byte range `[start, end)` of `v`.
pub fn ws_prefix_exec(v: &[u8], start: usize, end: usize) -> (r: usize)
    requires
        start <= end <= v@.len(),
    ensures
        r == ws_prefix_len(v@.subrange(start as int, end as int)),
{
    let ghost s = v@.subrange(start as int, end as int);
    let mut i: usize = start;
    while i < end && is_ws_exec(v[i])
        invariant
            start <= i <= end <= v@.len(),
            s == v@.subrange(start as int, end as int),
            forall|j: int| 0 <= j < i - start ==> is_ws(#[trigger] s[j]),
        decreases end - i,
    {
        proof {
            assert(s[i - start] == v@[i as int]);
        }
        i += 1;
    }
    proof {
        if i < end {
            assert(s[i - start] == v@[i as int]);
        }
        lemma_ws_unique_cut(s, i - start);
    }
    i - start
}

/// Length of the whitespace suffix of the byte range `[start, end)` of `v`.
pub fn ws_suffix_exec(v: &[u8], start: usize, end: usize) -> (r: usize)
    requires
        start <= end <= v@.len(),
    ensures
        r == ws_suffix_len(v@.subrange(start as int, end as int)),
{
    let ghost s = v@.subrange(start as int, end as int);
    let mut i: usize = end;
    while i > start && is_ws_exec(v[i - 1])
        invariant
            start <= i <= end <= v@.len(),
            s == v@.subrange(start as int, end as int),
            forall|j: int| i - start <= j < s.len() ==> is_ws(#[trigger] s[j]),
        decreases i,
    {
        proof {
            assert(s[i - 1 - start] == v@[i - 1]);
        }
        i -= 1;
    }
    proof {
        if i > start {
            assert(s[i - 1 - start] == v@[i - 1]);
        }
        lemma_ws_unique_cut_suffix(s, end - i);
    }
    end - i
}

/// Length of the non-whitespace prefix of the byte range `[start, end)` of
/// `v`.
pub fn non_ws_prefix_exec(v: &[u8], start: usize, end: usize) -> (r: usize)
    requires
        start <= end <= v@.len(),
    ensures
        r == non_ws_prefix_len(v@.subrange(start as int, end as int)),
{
    let ghost s = v@.subrange(start as int, end as int);
    let mut i: usize = start;
    while i < end && !is_ws_exec(v[i])
        invariant
            start <= i <= end <= v@.len(),
            s == v@.subrange(start as int, end as int),
            forall|j: int| 0 <= j < i - start ==> !is_ws(#[trigger] s[j]),
        decreases end - i,
    {
        proof {
            assert(s[i - start] == v@[i as int]);
        }
        i += 1;
    }
    proof {
        if i < end {
            assert(s[i - start] == v@[i as int]);
        }
        lemma_non_ws_unique_cut(s, i - start);
    }
    i - start
}

/// A cut point with non-whitespace before it and whitespace (or the end)
/// at it is exactly `non_ws_prefix_len`.
pub proof fn lemma_non_ws_unique_cut(s: Seq<u8>, i: int)
    requires
        0 <= i <= s.len(),
        forall|j: int| 0 <= j < i ==> !is_ws(#[trigger] s[j]),
        i < s.len() ==> is_ws(s[i]),
    ensures
        non_ws_prefix_len(s) == i,
    decreases s.len(),
{
    if s.len() == 0 || is_ws(s[0]) {
    } else {
        assert(s.drop_first() =~= s.subrange(1, s.len() as int));
        lemma_non_ws_unique_cut(s.drop_first(), i - 1);
    }
}

/// Position of the last byte of the range `[start, end)` of `v` that
/// differs from `b`, as an absolute position in `v`.
pub fn last_non_byte_exec(v: &[u8], start: usize, end: usize, b: u8) -> (r: Option<usize>)
    requires
        start <= end <= v@.len(),
    ensures
        match r {
            Some(j) => start <= j < end && last_non_byte(
                v@.subrange(start as int, end as int),
                b,
            ) == Some(j - start),
            None => last_non_byte(v@.subrange(start as int, end as int), b) is None,
        },
{
    let ghost s = v@.subrange(start as int, end as int);
    proof {
        assert(s.subrange(0, s.len() as int) =~= s);
    }
    let mut i: usize = end;
    while i > start && v[i - 1] == b
        invariant
            start <= i <= end <= v@.len(),
            s == v@.subrange(start as int, end as int),
            last_non_byte(s, b) == last_non_byte(s.subrange(0, i - start), b),
        decreases i,
    {
        proof {
            assert(s.subrange(0, i - start).last() == v@[i - 1]);
            assert(s.subrange(0, i - start).drop_last() =~= s.subrange(0, i - 1 - start));
        }
        i -= 1;
    }
    if i == start {
        proof {
            assert(s.subrange(0, 0) =~= Seq::<u8>::empty());
        }
        None
    } else {
        proof {
            assert(s.subrange(0, i - start).last() == v@[i - 1]);
        }
        Some(i - 1)
    }
}

/// Whether the byte is whitespace.
pub fn is_ws_exec(b: u8) -> (r: bool)
    ensures
        r == is_ws(b),
{
    b == 0x09 || b == 0x0a || b == 0x0b || b == 0x0c || b == 0x0d || b == 0x20
}

/// A cut point with whitespace before it and non-whitespace (or the end) at
/// it is exactly `ws_prefix_len`.
pub proof fn lemma_ws_unique_cut(s: Seq<u8>, i: int)
    requires
        0 <= i <= s.len(),
        forall|j: int| 0 <= j < i ==> is_ws(#[trigger] s[j]),
        i < s.len() ==> !is_ws(s[i]),
    ensures
        ws_prefix_len(s) == i,
{
    lemma_ws_prefix_len(s);
}

/// The mirror statement for `ws_suffix_len`.
pub proof fn lemma_ws_unique_cut_suffix(s: Seq<u8>, k: int)
    requires
        0 <= k <= s.len(),
        forall|j: int| s.len() - k <= j < s.len() ==> is_ws(#[trigger] s[j]),
        k < s.len() ==> !is_ws(s[s.len() - k - 1]),
    ensures
        ws_suffix_len(s) == k,
{
    lemma_ws_suffix_len(s);
}

/// A fresh vector with the same bytes.
pub fn copy_bytes(v: &[u8]) -> (r: Vec<u8>)
    ensures
        r@ == v@,
{
    let r = subvec(v, 0, v.len());
    assert(v@.subrange(0, v@.len() as int) =~= v@);
    r
}

/// Append the whole of `src` to `dst`.
pub fn append_bytes(dst: &mut Vec<u8>, src: &[u8])
    ensures
        final(dst)@ == old(dst)@ + src@,
{
    let mut i: usize = 0;
    while i < src.len()
        invariant
            0 <= i <= src@.len(),
            dst@ == old(dst)@ + src@.subrange(0, i as int),
        decreases src@.len() - i,
    {
        dst.push(src[i]);
        assert(dst@ =~= old(dst)@ + src@.subrange(0, i + 1));
        i += 1;
    }
    assert(dst@ =~= old(dst)@ + src@);
}

} // verus!

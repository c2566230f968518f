//! The range-safe splicer.
//!
//! Render results complete in arbitrary order. The splicer sorts them by
//! the start of their document range, trims whitespace at each range's
//! boundaries so that surrounding blank lines survive, and applies the
//! replacements in descending start order, so that no splice invalidates
//! the offsets of a replacement still to come. The application order is a
//! function of byte position alone, never of completion timing.

use vstd::prelude::*;

use crate::text;
use vstd::multiset::Multiset;

verus! {

/// One completed render: the rendered content and the byte range
/// `[start, end)` of the document it replaces.
pub struct RenderResult {
    pub start: usize,
    pub end: usize,
    pub content: Vec<u8>,
}

/// The mathematical form of [`RenderResult`].
pub struct GRes {
    pub start: int,
    pub end: int,
    pub content: Seq<u8>,
}

impl View for RenderResult {
    type V = GRes;

    open spec fn view(&self) -> GRes {
        GRes { start: self.start as int, end: self.end as int, content: self.content@ }
    }
}

/// The views of a sequence of results.
pub open spec fn results_view(s: Seq<RenderResult>) -> Seq<GRes> {
    s.map_values(|r: RenderResult| r@)
}

/// Two results do not overlap and do not share a start.
pub open spec fn res_compatible(a: GRes, b: GRes) -> bool {
    (a.end <= b.start || b.end <= a.start) && a.start != b.start
}

/// The splicer's input invariant, guaranteed by the scanner: every range
/// lies within a document of length `len`, and the ranges are pairwise
/// disjoint with pairwise distinct starts, in whatever order they arrive.
pub open spec fn results_wf(rs: Seq<GRes>, len: int) -> bool {
    &&& forall|i: int| 0 <= i < rs.len() ==> 0 <= (#[trigger] rs[i]).start <= rs[i].end <= len
    &&& forall|i: int, j: int|
        0 <= i < rs.len() && 0 <= j < rs.len() && i != j ==> res_compatible(
            #[trigger] rs[i],
            #[trigger] rs[j],
        )
}

/// Sorted by ascending range start.
pub open spec fn sorted_by_start(rs: Seq<GRes>) -> bool {
    forall|i: int, j: int| 0 <= i < j < rs.len() ==> rs[i].start <= rs[j].start
}

/// The trimmed replacement range within `[start, end)` of `doc`: leading
/// and trailing whitespace of the slice stay in place, so the range
/// shrinks inward by exactly the whitespace stripped on each side. An
/// all-whitespace slice trims to the empty range at its end.
pub open spec fn trim_bounds(doc: Seq<u8>, start: int, end: int) -> (int, int) {
    let s = doc.subrange(start, end);
    let lead = text::ws_prefix_len(s);
    if lead == s.len() {
        (end, end)
    } else {
        (start + lead, end - text::ws_suffix_len(s))
    }
}

/// Replace the trimmed range of one result in `doc`.
pub open spec fn apply_one_spec(doc: Seq<u8>, r: GRes) -> Seq<u8> {
    let tb = trim_bounds(doc, r.start, r.end);
    doc.subrange(0, tb.0) + r.content + doc.subrange(tb.1, doc.len() as int)
}

/// Insert a result into a start-sorted sequence, keeping it sorted.
pub open spec fn insert_sorted(r: GRes, rs: Seq<GRes>) -> Seq<GRes>
    decreases rs.len(),
{
    if rs.len() == 0 {
        seq![r]
    } else if r.start <= rs[0].start {
        seq![r] + rs
    } else {
        seq![rs[0]] + insert_sorted(r, rs.drop_first())
    }
}

/// Sort results by ascending range start.
pub open spec fn sort_by_start(rs: Seq<GRes>) -> Seq<GRes>
    decreases rs.len(),
{
    if rs.len() == 0 {
        Seq::empty()
    } else {
        insert_sorted(rs[0], sort_by_start(rs.drop_first()))
    }
}

/// Apply a start-sorted result list in descending start order.
pub open spec fn apply_desc(doc: Seq<u8>, rs: Seq<GRes>) -> Seq<u8>
    decreases rs.len(),
{
    if rs.len() == 0 {
        doc
    } else {
        apply_desc(apply_one_spec(doc, rs.last()), rs.drop_last())
    }
}

/// The document after splicing in a set of render results, in whatever
/// order they arrive: sort by start, then apply back to front.
pub open spec fn splice_spec(doc: Seq<u8>, rs: Seq<GRes>) -> Seq<u8> {
    apply_desc(doc, sort_by_start(rs))
}

/// Bounds and whitespace facts of the trimmed range.
pub proof fn lemma_trim_bounds(doc: Seq<u8>, start: int, end: int)
    requires
        0 <= start <= end <= doc.len(),
    ensures
        ({
            let tb = trim_bounds(doc, start, end);
            &&& start <= tb.0 <= tb.1 <= end
            &&& forall|x: int| start <= x < tb.0 ==> text::is_ws(#[trigger] doc[x])
            &&& forall|x: int| tb.1 <= x < end ==> text::is_ws(#[trigger] doc[x])
            &&& (tb.0 < tb.1 ==> !text::is_ws(doc[tb.0]) && !text::is_ws(doc[tb.1 - 1]))
        }),
{
    let s = doc.subrange(start, end);
    text::lemma_ws_prefix_len(s);
    text::lemma_ws_suffix_len(s);
    let lead = text::ws_prefix_len(s);
    let tb = trim_bounds(doc, start, end);
    if lead == s.len() {
        assert forall|x: int| start <= x < tb.0 implies text::is_ws(#[trigger] doc[x]) by {
            assert(s[x - start] == doc[x]);
        }
    } else {
        let trail = text::ws_suffix_len(s);
        // the byte at `lead` is not whitespace, so the whitespace suffix
        // cannot reach it
        if lead >= s.len() - trail {
            assert(text::is_ws(s[lead]));
        }
        assert forall|x: int| start <= x < tb.0 implies text::is_ws(#[trigger] doc[x]) by {
            assert(s[x - start] == doc[x]);
        }
        assert forall|x: int| tb.1 <= x < end implies text::is_ws(#[trigger] doc[x]) by {
            assert(s[x - start] == doc[x]);
        }
        assert(s[lead] == doc[start + lead]);
        assert(s[s.len() - trail - 1] == doc[end - trail - 1]);
    }
}

/// Inserting into a sorted, pairwise compatible sequence keeps it sorted
/// and compatible, and adds exactly the new element.
pub proof fn lemma_insert_sorted_full(r: GRes, rs: Seq<GRes>, len: int)
    requires
        sorted_by_start(rs),
        forall|i: int| 0 <= i < rs.len() ==> 0 <= (#[trigger] rs[i]).start <= rs[i].end <= len,
        forall|i: int, j: int|
            0 <= i < rs.len() && 0 <= j < rs.len() && i != j ==> res_compatible(
                #[trigger] rs[i],
                #[trigger] rs[j],
            ),
        0 <= r.start <= r.end <= len,
        forall|i: int| 0 <= i < rs.len() ==> res_compatible(#[trigger] rs[i], r),
    ensures
        ({
            let out = insert_sorted(r, rs);
            &&& out.len() == rs.len() + 1
            &&& sorted_by_start(out)
            &&& forall|i: int| 0 <= i < out.len() ==> 0 <= (#[trigger] out[i]).start <= out[i].end
                <= len
            &&& forall|i: int, j: int|
                0 <= i < out.len() && 0 <= j < out.len() && i != j ==> res_compatible(
                    #[trigger] out[i],
                    #[trigger] out[j],
                )
            &&& out.to_multiset() == rs.to_multiset().insert(r)
        }),
    decreases rs.len(),
{
    broadcast use vstd::seq_lib::group_seq_properties;

    let out = insert_sorted(r, rs);
    if rs.len() == 0 {
        assert(seq![r] =~= Seq::<GRes>::empty().push(r));
        Seq::<GRes>::empty().to_multiset_ensures();
        assert(out.to_multiset() =~= rs.to_multiset().insert(r));
    } else if r.start <= rs[0].start {
        assert(out =~= seq![r] + rs);
        assert(out[0] == r);
        assert(forall|i: int| 1 <= i < out.len() ==> #[trigger] out[i] == rs[i - 1]);
        vstd::seq_lib::lemma_multiset_commutative(seq![r], rs);
        assert(seq![r].to_multiset() =~= Multiset::<GRes>::empty().insert(r)) by {
            assert(seq![r] =~= Seq::<GRes>::empty().push(r));
            Seq::<GRes>::empty().to_multiset_ensures();
        }
        assert(out.to_multiset() =~= rs.to_multiset().insert(r));
    } else {
        let tail = insert_sorted(r, rs.drop_first());
        lemma_insert_sorted_full(r, rs.drop_first(), len);
        assert(out =~= seq![rs[0]] + tail);
        assert(out[0] == rs[0]);
        assert(forall|i: int| 1 <= i < out.len() ==> #[trigger] out[i] == tail[i - 1]);
        // every element of the tail is either r or an element of rs, so
        // the head stays compatible with and not above any of them
        rs.drop_first().to_multiset_ensures();
        tail.to_multiset_ensures();
        assert forall|i: int| 1 <= i < out.len() implies rs[0].start <= (#[trigger] out[i]).start
            && res_compatible(rs[0], out[i]) by {
            let x = tail[i - 1];
            assert(tail.to_multiset().count(x) > 0);
            if x == r {
                assert(res_compatible(rs[0], r));
            } else {
                assert(rs.drop_first().to_multiset().count(x) > 0);
                assert(rs.drop_first().contains(x));
                let m = choose|m: int| 0 <= m < rs.drop_first().len() && rs.drop_first()[m] == x;
                assert(rs[m + 1] == x);
                assert(res_compatible(rs[0], x));
            }
        }
        vstd::seq_lib::lemma_multiset_commutative(seq![rs[0]], tail);
        assert(seq![rs[0]].to_multiset() =~= Multiset::<GRes>::empty().insert(rs[0])) by {
            assert(seq![rs[0]] =~= Seq::<GRes>::empty().push(rs[0]));
            Seq::<GRes>::empty().to_multiset_ensures();
        }
        assert(seq![rs[0]] + rs.drop_first() =~= rs);
        vstd::seq_lib::lemma_multiset_commutative(seq![rs[0]], rs.drop_first());
        assert(out.to_multiset() =~= rs.to_multiset().insert(r));
    }
}

/// Sorting a well-formed result list yields a sorted, well-formed list
/// with the same multiset of results.
pub proof fn lemma_sort_full(rs: Seq<GRes>, len: int)
    requires
        results_wf(rs, len),
    ensures
        ({
            let srt = sort_by_start(rs);
            &&& srt.len() == rs.len()
            &&& sorted_by_start(srt)
            &&& results_wf(srt, len)
            &&& srt.to_multiset() == rs.to_multiset()
        }),
    decreases rs.len(),
{
    if rs.len() == 0 {
        assert(rs =~= Seq::<GRes>::empty());
    } else {
        let tail = rs.drop_first();
        assert(forall|i: int| 0 <= i < tail.len() ==> #[trigger] tail[i] == rs[i + 1]);
        lemma_sort_full(tail, len);
        let srt_tail = sort_by_start(tail);
        srt_tail.to_multiset_ensures();
        tail.to_multiset_ensures();
        assert forall|i: int| 0 <= i < srt_tail.len() implies res_compatible(
            #[trigger] srt_tail[i],
            rs[0],
        ) by {
            let x = srt_tail[i];
            assert(srt_tail.to_multiset().count(x) > 0);
            assert(tail.contains(x));
            let m = choose|m: int| 0 <= m < tail.len() && tail[m] == x;
            assert(rs[m + 1] == x);
            assert(res_compatible(x, rs[0]));
        }
        lemma_insert_sorted_full(rs[0], srt_tail, len);
        assert(sort_by_start(rs) == insert_sorted(rs[0], srt_tail));
        assert(sort_by_start(rs).to_multiset() == srt_tail.to_multiset().insert(rs[0]));
        assert(srt_tail.to_multiset() == tail.to_multiset());
        assert(rs.to_multiset() =~= tail.to_multiset().insert(rs[0])) by {
            assert(rs =~= seq![rs[0]] + tail);
            vstd::seq_lib::lemma_multiset_commutative(seq![rs[0]], tail);
            assert(seq![rs[0]].to_multiset() =~= Multiset::<GRes>::empty().insert(rs[0])) by {
                assert(seq![rs[0]] =~= Seq::<GRes>::empty().push(rs[0]));
                Seq::<GRes>::empty().to_multiset_ensures();
            }
        }
        assert(sort_by_start(rs).to_multiset() =~= rs.to_multiset());
    }
}

/// Two start-sorted sequences with the same multiset of results and
/// pairwise distinct starts are equal.
pub proof fn lemma_sorted_unique(s1: Seq<GRes>, s2: Seq<GRes>)
    requires
        sorted_by_start(s1),
        sorted_by_start(s2),
        forall|i: int, j: int|
            0 <= i < s1.len() && 0 <= j < s1.len() && i != j ==> (#[trigger] s1[i]).start != (
            #[trigger] s1[j]).start,
        s1.to_multiset() == s2.to_multiset(),
    ensures
        s1 =~= s2,
    decreases s1.len(),
{
    s1.to_multiset_ensures();
    s2.to_multiset_ensures();
    assert(s1.len() == s2.len());
    if s1.len() == 0 {
    } else {
        assert(s1.to_multiset().count(s1[0]) > 0);
        assert(s2.contains(s1[0]));
        let k = choose|k: int| 0 <= k < s2.len() && s2[k] == s1[0];
        assert(s2.to_multiset().count(s2[0]) > 0);
        assert(s1.contains(s2[0]));
        let m = choose|m: int| 0 <= m < s1.len() && s1[m] == s2[0];
        assert(s2[0].start <= s2[k].start);
        assert(s1[0].start <= s1[m].start);
        assert(s1[0].start == s2[0].start);
        assert(m == 0);
        assert(s1[0] == s2[0]);
        s1.to_multiset_ensures();
        assert(s1.remove(0).to_multiset() =~= s1.to_multiset().remove(s1[0]));
        assert(s2.remove(0).to_multiset() =~= s2.to_multiset().remove(s2[0]));
        assert(s1.remove(0) =~= s1.drop_first());
        assert(s2.remove(0) =~= s2.drop_first());
        assert(forall|i: int|
            0 <= i < s1.drop_first().len() ==> #[trigger] s1.drop_first()[i] == s1[i + 1]);
        assert(forall|i: int|
            0 <= i < s2.drop_first().len() ==> #[trigger] s2.drop_first()[i] == s2[i + 1]);
        lemma_sorted_unique(s1.drop_first(), s2.drop_first());
        assert forall|i: int| 0 <= i < s1.len() implies s1[i] == s2[i] by {
            if i > 0 {
                assert(s1.drop_first()[i - 1] == s2.drop_first()[i - 1]);
            }
        }
    }
}

/// The positional form of an insertion: the new result sits at the first
/// position whose start is not below it.
pub proof fn lemma_insert_sorted_at(r: GRes, rs: Seq<GRes>, pos: int)
    requires
        0 <= pos <= rs.len(),
        forall|j: int| 0 <= j < pos ==> (#[trigger] rs[j]).start < r.start,
        pos < rs.len() ==> r.start <= rs[pos].start,
    ensures
        insert_sorted(r, rs) =~= rs.subrange(0, pos) + seq![r] + rs.subrange(
            pos,
            rs.len() as int,
        ),
    decreases rs.len(),
{
    if rs.len() == 0 {
    } else if r.start <= rs[0].start {
        assert(pos == 0);
    } else {
        assert(forall|i: int|
            0 <= i < rs.drop_first().len() ==> #[trigger] rs.drop_first()[i] == rs[i + 1]);
        lemma_insert_sorted_at(r, rs.drop_first(), pos - 1);
        assert(rs.drop_first().subrange(0, pos - 1) =~= rs.subrange(1, pos));
        assert(rs.drop_first().subrange(pos - 1, rs.drop_first().len() as int) =~= rs.subrange(
            pos,
            rs.len() as int,
        ));
    }
}

/// No render results leave the document byte-for-byte unchanged.
///
/// A document with zero diagram occurrences produces zero render results,
/// so this is the law that such a document comes back identical.
pub proof fn lemma_no_results_unchanged(doc: Seq<u8>)
    ensures
        splice_spec(doc, Seq::empty()) == doc,
{
}

/// Completion-order independence: two result lists that hold the same
/// results, in whatever order each arrives, splice to the identical
/// document.
pub proof fn lemma_completion_order_independent(
    doc: Seq<u8>,
    rs1: Seq<GRes>,
    rs2: Seq<GRes>,
)
    requires
        results_wf(rs1, doc.len() as int),
        results_wf(rs2, doc.len() as int),
        rs1.to_multiset() == rs2.to_multiset(),
    ensures
        splice_spec(doc, rs1) == splice_spec(doc, rs2),
{
    lemma_sort_full(rs1, doc.len() as int);
    lemma_sort_full(rs2, doc.len() as int);
    lemma_sorted_unique(sort_by_start(rs1), sort_by_start(rs2));
}

/// Whitespace-trim correctness for one replacement: the spliced document
/// is exactly the document up to the trimmed start, the rendered content,
/// and the document from the trimmed end on — so the whitespace
/// surrounding the replaced range, its blank lines included, survives in
/// place on both sides.
pub proof fn lemma_blank_lines_preserved(doc: Seq<u8>, r: GRes)
    requires
        0 <= r.start <= r.end <= doc.len(),
    ensures
        ({
            let tb = trim_bounds(doc, r.start, r.end);
            &&& splice_spec(doc, seq![r]) == doc.subrange(0, tb.0) + r.content + doc.subrange(
                tb.1,
                doc.len() as int,
            )
            &&& forall|x: int| r.start <= x < tb.0 ==> text::is_ws(#[trigger] doc[x])
            &&& forall|x: int| tb.1 <= x < r.end ==> text::is_ws(#[trigger] doc[x])
        }),
{
    lemma_trim_bounds(doc, r.start, r.end);
    assert(seq![r][0] == r);
    assert(seq![r].drop_first() =~= Seq::<GRes>::empty());
    assert(sort_by_start(Seq::<GRes>::empty()) == Seq::<GRes>::empty());
    assert(insert_sorted(r, Seq::<GRes>::empty()) == seq![r]);
    assert(sort_by_start(seq![r]) == seq![r]);
    assert(seq![r].drop_last() =~= Seq::<GRes>::empty());
    assert(seq![r].last() == r);
    assert(apply_desc(apply_one_spec(doc, r), Seq::<GRes>::empty()) == apply_one_spec(doc, r));
    assert(splice_spec(doc, seq![r]) == apply_one_spec(doc, r));
}

/// Trim the replacement range `[start, end)` against the document:
/// leading and trailing whitespace of the slice stays in place.
pub fn trim_replace_range(doc: &[u8], start: usize, end: usize) -> (r: (usize, usize))
    requires
        start <= end <= doc@.len(),
    ensures
        (r.0 as int, r.1 as int) == trim_bounds(doc@, start as int, end as int),
        start <= r.0 <= r.1 <= end,
{
    proof {
        lemma_trim_bounds(doc@, start as int, end as int);
    }
    let lead = text::ws_prefix_exec(doc, start, end);
    if lead == end - start {
        (end, end)
    } else {
        let trail = text::ws_suffix_exec(doc, start, end);
        (start + lead, end - trail)
    }
}

/// A fresh document with the range `[ts, te)` replaced by `content`.
pub fn splice_bytes(doc: &[u8], ts: usize, te: usize, content: &[u8]) -> (r: Vec<u8>)
    requires
        ts <= te <= doc@.len(),
    ensures
        r@ == doc@.subrange(0, ts as int) + content@ + doc@.subrange(
            te as int,
            doc@.len() as int,
        ),
{
    let mut out = text::subvec(doc, 0, ts);
    text::append_bytes(&mut out, content);
    let tail = text::subvec(doc, te, doc.len());
    text::append_bytes(&mut out, tail.as_slice());
    out
}

/// Insert a result into a start-sorted vector, keeping it sorted.
fn insert_result(acc: &mut Vec<RenderResult>, r: RenderResult)
    ensures
        results_view(final(acc)@) == insert_sorted(r@, results_view(old(acc)@)),
{
    let ghost rsv = results_view(acc@);
    let mut pos: usize = 0;
    while pos < acc.len() && acc[pos].start < r.start
        invariant
            0 <= pos <= acc@.len(),
            rsv == results_view(acc@),
            forall|j: int| 0 <= j < pos ==> (#[trigger] rsv[j]).start < r@.start,
        decreases acc@.len() - pos,
    {
        proof {
            assert(rsv[pos as int] == acc@[pos as int]@);
        }
        pos += 1;
    }
    proof {
        assert(pos < acc@.len() ==> rsv[pos as int] == acc@[pos as int]@);
        lemma_insert_sorted_at(r@, rsv, pos as int);
    }
    acc.insert(pos, r);
    proof {
        assert(results_view(acc@) =~= rsv.subrange(0, pos as int) + seq![r@] + rsv.subrange(
            pos as int,
            rsv.len() as int,
        ));
    }
}

/// Sort render results by ascending range start.
pub fn sort_results(results: Vec<RenderResult>) -> (r: Vec<RenderResult>)
    ensures
        results_view(r@) == sort_by_start(results_view(results@)),
{
    let mut src = results;
    let mut acc: Vec<RenderResult> = Vec::new();
    proof {
        assert(results_view(acc@) =~= Seq::<GRes>::empty());
        assert(results_view(src@).skip(src@.len() as int) =~= Seq::<GRes>::empty());
        assert(sort_by_start(Seq::<GRes>::empty()) == Seq::<GRes>::empty());
    }
    let ghost rsv = results_view(src@);
    proof {
        assert(results_view(src@) =~= rsv.subrange(0, src@.len() as int));
    }
    while src.len() > 0
        invariant
            src@.len() <= rsv.len(),
            results_view(src@) == rsv.subrange(0, src@.len() as int),
            results_view(acc@) == sort_by_start(rsv.skip(src@.len() as int)),
        decreases src@.len(),
    {
        let ghost pre = src@;
        let r = src.pop().unwrap();
        proof {
            let k = src@.len() as int;
            assert(pre.len() == k + 1);
            assert(r == pre[k]);
            assert(results_view(pre)[k] == pre[k]@);
            assert(r@ == rsv[k]);
            assert(results_view(src@) =~= rsv.subrange(0, k));
            assert(rsv.skip(k) =~= rsv.subrange(k, rsv.len() as int));
            assert(rsv.skip(k)[0] == rsv[k]);
            assert(rsv.skip(k).drop_first() =~= rsv.skip(k + 1));
            assert(sort_by_start(rsv.skip(k)) == insert_sorted(
                rsv[k],
                sort_by_start(rsv.skip(k + 1)),
            ));
        }
        insert_result(&mut acc, r);
    }
    proof {
        assert(rsv.skip(0) =~= rsv);
    }
    acc
}

/// Decide whether a result list satisfies the splicer's input invariant
/// against a document of length `len`.
pub fn check_results_wf(results: &Vec<RenderResult>, len: usize) -> (b: bool)
    ensures
        b == results_wf(results_view(results@), len as int),
{
    let ghost rsv = results_view(results@);
    let n = results.len();
    let mut i: usize = 0;
    while i < n
        invariant
            n == results@.len(),
            0 <= i <= n,
            rsv == results_view(results@),
            forall|a: int| 0 <= a < i ==> 0 <= (#[trigger] rsv[a]).start <= rsv[a].end <= len,
            forall|a: int, b: int|
                0 <= a < i && a < b < n ==> res_compatible(#[trigger] rsv[a], #[trigger] rsv[b]),
        decreases n - i,
    {
        proof {
            assert(rsv[i as int] == results@[i as int]@);
        }
        if !(results[i].start <= results[i].end && results[i].end <= len) {
            return false;
        }
        let mut j: usize = i + 1;
        while j < n
            invariant
                n == results@.len(),
                0 <= i < j <= n,
                rsv == results_view(results@),
                forall|b: int| i < b < j ==> res_compatible(rsv[i as int], #[trigger] rsv[b]),
            decreases n - j,
        {
            proof {
                assert(rsv[i as int] == results@[i as int]@);
                assert(rsv[j as int] == results@[j as int]@);
            }
            let ok = (results[i].end <= results[j].start || results[j].end <= results[i].start)
                && results[i].start != results[j].start;
            if !ok {
                return false;
            }
            j += 1;
        }
        i += 1;
    }
    proof {
        assert forall|a: int, b: int|
            0 <= a < rsv.len() && 0 <= b < rsv.len() && a != b implies res_compatible(
            #[trigger] rsv[a],
            #[trigger] rsv[b],
        ) by {
            if b < a {
                assert(res_compatible(rsv[b], rsv[a]));
            }
        }
    }
    true
}

/// The highest document position that the results at indices below `k`
/// may reach: the end of the `k`-th range from the bottom, or zero.
pub open spec fn low_bound(rs: Seq<GRes>, k: int) -> int {
    if k == 0 {
        0
    } else {
        rs[k - 1].end
    }
}

/// Splice all render results into the document: sort by range start, trim
/// each range against the document, and apply in descending start order,
/// so that no splice moves the offsets of one still to come. The results
/// may arrive in any completion order; the output depends on byte
/// positions alone.
pub fn apply_render_results(doc: &Vec<u8>, results: Vec<RenderResult>) -> (out: Vec<u8>)
    requires
        results_wf(results_view(results@), doc@.len() as int),
    ensures
        out@ == splice_spec(doc@, results_view(results@)),
{
    proof {
        lemma_sort_full(results_view(results@), doc@.len() as int);
    }
    let ghost rsv = results_view(results@);
    let srt = sort_results(results);
    let ghost srtv = results_view(srt@);
    let mut out: Vec<u8> = text::copy_bytes(doc.as_slice());
    let mut k: usize = srt.len();
    proof {
        assert(srtv.take(srtv.len() as int) =~= srtv);
    }
    while k > 0
        invariant
            0 <= k <= srt@.len(),
            srtv == results_view(srt@),
            sorted_by_start(srtv),
            results_wf(srtv, doc@.len() as int),
            apply_desc(doc@, srtv) == apply_desc(out@, srtv.take(k as int)),
            out@.len() >= low_bound(srtv, k as int),
            forall|x: int| 0 <= x < low_bound(srtv, k as int) ==> out@[x] == doc@[x],
        decreases k,
    {
        let rstart = srt[k - 1].start;
        let rend = srt[k - 1].end;
        proof {
            assert(srtv[k - 1] == srt@[k - 1]@);
        }
        let (ts, te) = trim_replace_range(out.as_slice(), rstart, rend);
        let ghost pre_out = out@;
        let spliced = splice_bytes(out.as_slice(), ts, te, srt[k - 1].content.as_slice());
        out = spliced;
        proof {
            let kk = k as int;
            assert(srtv.take(kk).last() == srtv[kk - 1]);
            assert(srtv.take(kk).drop_last() =~= srtv.take(kk - 1));
            assert(out@ == apply_one_spec(pre_out, srtv[kk - 1]));
            assert(apply_desc(pre_out, srtv.take(kk)) == apply_desc(out@, srtv.take(kk - 1)));
            if kk - 1 > 0 {
                // the range below stays untouched: it ends at or before the
                // start of the range just spliced
                assert(res_compatible(srtv[kk - 2], srtv[kk - 1]));
                assert(low_bound(srtv, kk - 1) <= srtv[kk - 1].start);
            }
            assert forall|x: int| 0 <= x < low_bound(srtv, kk - 1) implies out@[x] == doc@[x] by {
                assert(out@[x] == (pre_out.subrange(0, ts as int) + srt@[kk - 1]@.content
                    + pre_out.subrange(te as int, pre_out.len() as int))[x]);
                assert(out@[x] == pre_out[x]);
            }
        }
        k -= 1;
    }
    proof {
        assert(srtv.take(0) =~= Seq::<GRes>::empty());
    }
    out
}

} // verus!

//! Text assembled from one or more source ranges, with transformations between source
//! (escaped) positions and positions in the unescaped text.
//!
//! The markdown parser reports a text like `\*Foo\*Bar` (source `0..10`) as the pieces
//! `""` (`0..0`), `"*Foo"` (`1..5`) and `"*Bar"` (`6..10`): the escape characters are
//! dropped.  The unescaped text `*Foo*Bar` has the offsets `0..8`; an unescaped offset
//! counts the bytes of the ranges before it.
use vstd::prelude::*;

use crate::ext::{trim_lengths_spec, CowExt};
use crate::range::{EscapedRange, UnescapedRange};
use crate::text::{
    ascii_lower_seq, char_index, is_boundary, lemma_utf8_len_concat, lemma_utf8_len_take_le, trim,
    trim_end, trim_start, utf8_len,
};

verus! {

/// Number of bytes a range covers.
pub open spec fn rlen(r: EscapedRange) -> int {
    r.end - r.start
}

/// Number of bytes covered by the first `i` ranges.
pub open spec fn prefix_len(rs: Seq<EscapedRange>, i: int) -> int
    decreases i,
{
    if i <= 0 {
        0
    } else {
        prefix_len(rs, i - 1) + rlen(rs[i - 1])
    }
}

/// The ranges are non-empty, each is ordered, and they follow each other without overlap.
pub open spec fn wf_ranges(rs: Seq<EscapedRange>) -> bool {
    &&& rs.len() > 0
    &&& forall|i: int| 0 <= i < rs.len() ==> (#[trigger] rs[i]).start <= rs[i].end
    &&& forall|i: int, j: int| 0 <= i < j < rs.len() ==> (#[trigger] rs[i]).end <= (#[trigger] rs[j]).start
}

/// Source position `p` lies within range `r` (both ends included).
pub open spec fn contains(r: EscapedRange, p: int) -> bool {
    r.start <= p <= r.end
}

/// The last of the first `n` ranges containing source position `p`.
pub open spec fn last_containing(rs: Seq<EscapedRange>, p: int, n: int) -> Option<int>
    decreases n,
{
    if n <= 0 {
        None
    } else if contains(rs[n - 1], p) {
        Some(n - 1)
    } else {
        last_containing(rs, p, n - 1)
    }
}

/// Unescaped offset of source position `p`: the bytes covered before `p` within the last
/// range containing `p`.
pub open spec fn unescape_pos(rs: Seq<EscapedRange>, p: int) -> int {
    let i = last_containing(rs, p, rs.len() as int)->0;
    prefix_len(rs, i) + p - rs[i].start
}

/// Number of leading ranges that end before `s`.
pub open spec fn skip_before(rs: Seq<EscapedRange>, s: int) -> nat
    decreases rs.len(),
{
    if rs.len() == 0 {
        0
    } else if rs[0].end < s {
        1 + skip_before(rs.drop_first(), s)
    } else {
        0
    }
}

/// Number of leading ranges that start at or before `e`.
pub open spec fn take_upto(rs: Seq<EscapedRange>, e: int) -> nat
    decreases rs.len(),
{
    if rs.len() == 0 {
        0
    } else if rs[0].start <= e {
        1 + take_upto(rs.drop_first(), e)
    } else {
        0
    }
}

/// The ranges touching `s..e`: those after the leading ones that end before `s`, up to the
/// first one that starts after `e`.
pub open spec fn block(rs: Seq<EscapedRange>, s: int, e: int) -> Seq<EscapedRange> {
    let t = rs.skip(skip_before(rs, s) as int);
    t.take(take_upto(t, e) as int)
}

pub open spec fn smax(a: usize, b: usize) -> usize {
    if a >= b {
        a
    } else {
        b
    }
}

pub open spec fn smin(a: usize, b: usize) -> usize {
    if a <= b {
        a
    } else {
        b
    }
}

/// `r` cut to `s..e`.
pub open spec fn clamp(r: EscapedRange, s: usize, e: usize) -> EscapedRange {
    EscapedRange { start: smax(r.start, s), end: smin(r.end, e) }
}

/// Sum of the lengths of the ranges of `b` cut to `s..e`.
pub open spec fn overlap_sum(b: Seq<EscapedRange>, s: usize, e: usize) -> int
    decreases b.len(),
{
    if b.len() == 0 {
        0
    } else {
        overlap_sum(b.drop_last(), s, e) + (smin(b.last().end, e) - smax(b.last().start, s))
    }
}

/// The unescaped range of source range `r` (`CowWrapper::transform_escaped_range`).
pub open spec fn spec_transform_escaped(rs: Seq<EscapedRange>, r: EscapedRange) -> UnescapedRange {
    let start = unescape_pos(rs, r.start as int);
    UnescapedRange {
        start: start as usize,
        end: (start + overlap_sum(block(rs, r.start as int, r.end as int), r.start, r.end)) as usize,
    }
}

/// The subranges of `rs` that describe the source of `sub` (`CowWrapper::subranges`).
pub open spec fn spec_subranges(rs: Seq<EscapedRange>, sub: EscapedRange) -> Seq<EscapedRange> {
    let b = block(rs, sub.start as int, sub.end as int);
    Seq::new(b.len(), |k: int| clamp(b[k], sub.start, sub.end))
}

/// Unescaped offset `p` lies within the `i`-th range (both ends included).
pub open spec fn ucontains(rs: Seq<EscapedRange>, i: int, p: int) -> bool {
    prefix_len(rs, i) <= p <= prefix_len(rs, i + 1)
}

/// The last of the first `n` ranges containing unescaped offset `p`.
pub open spec fn ulast(rs: Seq<EscapedRange>, p: int, n: int) -> Option<int>
    decreases n,
{
    if n <= 0 {
        None
    } else if ucontains(rs, n - 1, p) {
        Some(n - 1)
    } else {
        ulast(rs, p, n - 1)
    }
}

/// Source position of the start of an unescaped range beginning at `p`.  At the border of
/// two ranges, the end of the earlier range is used, so that escape characters in between
/// are included.
pub open spec fn escape_start(rs: Seq<EscapedRange>, p: int) -> int {
    let i = ulast(rs, p, rs.len() as int)->0;
    if p == prefix_len(rs, i) && i > 0 {
        rs[i - 1].end as int
    } else {
        rs[i].start + p - prefix_len(rs, i)
    }
}

/// Source position of the end of an unescaped range ending at `p`.
pub open spec fn escape_end(rs: Seq<EscapedRange>, p: int) -> int {
    let i = ulast(rs, p, rs.len() as int)->0;
    rs[i].start + p - prefix_len(rs, i)
}

/// The source range of unescaped range `u` (`CowWrapper::transform_unescaped_range`).
pub open spec fn spec_transform_unescaped(rs: Seq<EscapedRange>, u: UnescapedRange) -> EscapedRange {
    EscapedRange {
        start: escape_start(rs, u.start as int) as usize,
        end: escape_end(rs, u.end as int) as usize,
    }
}

/// `transform_unescaped_range` is defined on `u`: both ends fall into some range.
pub open spec fn unescaped_defined(rs: Seq<EscapedRange>, u: UnescapedRange) -> bool {
    &&& ulast(rs, u.start as int, rs.len() as int) is Some
    &&& ulast(rs, u.end as int, rs.len() as int) is Some
}

/// Unescaped range `start..end` counted from the start of the first source range.
pub open spec fn from_first(rs: Seq<EscapedRange>, a: int, b: int) -> UnescapedRange {
    UnescapedRange { start: (rs[0].start + a) as usize, end: (rs[0].start + b) as usize }
}

/// The unescaped range `trim_inplace` maps back to the source.
pub open spec fn trim_target(rs: Seq<EscapedRange>, t: Seq<char>) -> UnescapedRange {
    from_first(rs, trim_lengths_spec(t).0 as int, utf8_len(t) - trim_lengths_spec(t).1)
}

/// The unescaped range `trim_start_inplace` maps back to the source.
pub open spec fn trim_start_target(rs: Seq<EscapedRange>, t: Seq<char>) -> UnescapedRange {
    from_first(rs, trim_lengths_spec(t).0 as int, utf8_len(t) as int)
}

/// The unescaped range `trim_end_inplace` maps back to the source: without the trailing
/// whitespace.
pub open spec fn trim_end_target(rs: Seq<EscapedRange>, t: Seq<char>) -> UnescapedRange {
    from_first(rs, 0, utf8_len(t) - trim_lengths_spec(t).1)
}

/// The source ranges of a wrapper whose text keeps the unescaped range `u`.
pub open spec fn retargeted(rs: Seq<EscapedRange>, u: UnescapedRange) -> Seq<EscapedRange> {
    spec_subranges(rs, spec_transform_unescaped(rs, u))
}

// ----------------------------------------------------------------------------------------
// lemmas

/// Neither count of `trim_lengths` exceeds the byte length of the text.
pub proof fn lemma_trim_lengths_bound(t: Seq<char>)
    ensures
        trim_lengths_spec(t).0 <= utf8_len(t),
        trim_lengths_spec(t).1 <= utf8_len(t),
{
    crate::text::lemma_lead_ws_props(t);
    crate::text::lemma_trail_ws_le(t);
    if crate::text::lead_ws(t) != t.len() {
        let k = t.len() - crate::text::trail_ws(t);
        lemma_utf8_len_take_le(t, crate::text::lead_ws(t) as int);
        assert(t =~= t.take(k) + t.skip(k));
        lemma_utf8_len_concat(t.take(k), t.skip(k));
    }
}

/// A byte offset on a character boundary is at most the byte length.
pub proof fn lemma_boundary_le(t: Seq<char>, b: int)
    requires
        is_boundary(t, b),
    ensures
        0 <= b <= utf8_len(t),
{
    let k = choose|k: int| 0 <= k <= t.len() && #[trigger] utf8_len(t.take(k)) == b;
    lemma_utf8_len_take_le(t, k);
}

/// Prefix sums of well-formed ranges are bounded by the end of the last range included.
pub proof fn lemma_prefix_bound(rs: Seq<EscapedRange>, i: int)
    requires
        wf_ranges(rs),
        0 <= i <= rs.len(),
    ensures
        0 <= prefix_len(rs, i),
        i > 0 ==> prefix_len(rs, i) <= rs[i - 1].end,
        i > 0 ==> prefix_len(rs, i) + rs[i - 1].start <= rs[i - 1].end + prefix_len(rs, i - 1),
    decreases i,
{
    if i > 0 {
        lemma_prefix_bound(rs, i - 1);
        assert(rs[i - 1].start <= rs[i - 1].end);
        if i > 1 {
            assert(rs[i - 2].end <= rs[i - 1].start);
        }
    }
}

/// Prefix sums never decrease.
pub proof fn lemma_prefix_mono(rs: Seq<EscapedRange>, i: int, j: int)
    requires
        wf_ranges(rs),
        0 <= i <= j <= rs.len(),
    ensures
        prefix_len(rs, i) <= prefix_len(rs, j),
    decreases j - i,
{
    if i < j {
        lemma_prefix_mono(rs, i, j - 1);
        assert(rs[j - 1].start <= rs[j - 1].end);
    }
}

pub proof fn lemma_last_containing(rs: Seq<EscapedRange>, p: int, n: int)
    requires
        0 <= n <= rs.len(),
    ensures
        last_containing(rs, p, n) matches Some(i) ==> 0 <= i < n && contains(rs[i], p) && forall|
            j: int,
        | i < j < n ==> !contains(#[trigger] rs[j], p),
        last_containing(rs, p, n) is None ==> forall|j: int|
            0 <= j < n ==> !contains(#[trigger] rs[j], p),
    decreases n,
{
    if n > 0 {
        lemma_last_containing(rs, p, n - 1);
    }
}

pub proof fn lemma_ulast(rs: Seq<EscapedRange>, p: int, n: int)
    requires
        0 <= n <= rs.len(),
    ensures
        ulast(rs, p, n) matches Some(i) ==> 0 <= i < n && ucontains(rs, i, p),
    decreases n,
{
    if n > 0 {
        lemma_ulast(rs, p, n - 1);
    }
}

/// Characterisation of `skip_before` by the first range that does not end before `s`.
pub proof fn lemma_skip_before(rs: Seq<EscapedRange>, s: int, k: int)
    requires
        0 <= k <= rs.len(),
        forall|i: int| 0 <= i < k ==> (#[trigger] rs[i]).end < s,
        k == rs.len() || rs[k].end >= s,
    ensures
        skip_before(rs, s) == k,
    decreases k,
{
    if k > 0 {
        lemma_skip_before(rs.drop_first(), s, k - 1);
    }
}

/// Characterisation of `take_upto` by the first range that starts after `e`.
pub proof fn lemma_take_upto(rs: Seq<EscapedRange>, e: int, k: int)
    requires
        0 <= k <= rs.len(),
        forall|i: int| 0 <= i < k ==> (#[trigger] rs[i]).start <= e,
        k == rs.len() || rs[k].start > e,
    ensures
        take_upto(rs, e) == k,
    decreases k,
{
    if k > 0 {
        lemma_take_upto(rs.drop_first(), e, k - 1);
    }
}

/// Sums of non-negative overlaps grow with the prefix.
pub proof fn lemma_overlap_mono(b: Seq<EscapedRange>, s: usize, e: usize, k: int)
    requires
        0 <= k <= b.len(),
        forall|i: int| 0 <= i < b.len() ==> smin((#[trigger] b[i]).end, e) >= smax(b[i].start, s),
    ensures
        overlap_sum(b.take(k), s, e) <= overlap_sum(b, s, e),
        0 <= overlap_sum(b.take(k), s, e),
    decreases b.len() - k,
{
    assert forall|i: int| 0 <= i < b.take(k).len() implies smin((#[trigger] b.take(k)[i]).end, e)
        >= smax(b.take(k)[i].start, s) by {
        assert(b.take(k)[i] == b[i]);
    }
    lemma_overlap_nonneg(b.take(k), s, e);
    if k < b.len() {
        lemma_overlap_mono(b, s, e, k + 1);
        assert(b.take(k + 1).drop_last() =~= b.take(k));
        assert(b.take(k + 1).last() == b[k]);
    } else {
        assert(b.take(k) =~= b);
    }
}

pub proof fn lemma_overlap_nonneg(b: Seq<EscapedRange>, s: usize, e: usize)
    requires
        forall|i: int| 0 <= i < b.len() ==> smin((#[trigger] b[i]).end, e) >= smax(b[i].start, s),
    ensures
        0 <= overlap_sum(b, s, e),
    decreases b.len(),
{
    if b.len() > 0 {
        assert forall|i: int| 0 <= i < b.drop_last().len() implies smin(
            (#[trigger] b.drop_last()[i]).end,
            e,
        ) >= smax(b.drop_last()[i].start, s) by {
            assert(b.drop_last()[i] == b[i]);
        }
        lemma_overlap_nonneg(b.drop_last(), s, e);
        assert(b.last() == b[b.len() - 1]);
    }
}

/// Bytes of range `r` that lie before source position `x`.
pub open spec fn cov_one(r: EscapedRange, x: int) -> int {
    if x <= r.start {
        0
    } else if x >= r.end {
        rlen(r)
    } else {
        x - r.start
    }
}

/// Bytes of the first `n` ranges that lie before source position `x`.
pub open spec fn covered(rs: Seq<EscapedRange>, n: int, x: int) -> int
    decreases n,
{
    if n <= 0 {
        0
    } else {
        covered(rs, n - 1, x) + cov_one(rs[n - 1], x)
    }
}

/// Within range `a`, the bytes before `x` are those of the ranges before `a` and those of
/// `a` before `x`.
proof fn lemma_covered_in(rs: Seq<EscapedRange>, a: int, x: int, n: int)
    requires
        wf_ranges(rs),
        0 <= a < rs.len(),
        rs[a].start <= x <= rs[a].end,
        0 <= n <= rs.len(),
    ensures
        n <= a ==> covered(rs, n, x) == prefix_len(rs, n),
        n > a ==> covered(rs, n, x) == prefix_len(rs, a) + x - rs[a].start,
    decreases n,
{
    if n > 0 {
        lemma_covered_in(rs, a, x, n - 1);
        let k = n - 1;
        assert(rs[k].start <= rs[k].end);
        if k < a {
            assert(rs[k].end <= rs[a].start);
        } else if k > a {
            assert(rs[a].end <= rs[k].start);
        }
    }
}

proof fn lemma_skip_before_props(rs: Seq<EscapedRange>, s: int)
    ensures
        skip_before(rs, s) <= rs.len(),
        forall|k: int| 0 <= k < skip_before(rs, s) ==> (#[trigger] rs[k]).end < s,
        skip_before(rs, s) < rs.len() ==> rs[skip_before(rs, s) as int].end >= s,
    decreases rs.len(),
{
    if rs.len() > 0 && rs[0].end < s {
        lemma_skip_before_props(rs.drop_first(), s);
        assert forall|k: int| 0 <= k < skip_before(rs, s) implies (#[trigger] rs[k]).end < s by {
            if k > 0 {
                assert(rs[k] == rs.drop_first()[k - 1]);
            }
        }
    }
}

proof fn lemma_take_upto_props(rs: Seq<EscapedRange>, e: int)
    ensures
        take_upto(rs, e) <= rs.len(),
        forall|k: int| 0 <= k < take_upto(rs, e) ==> (#[trigger] rs[k]).start <= e,
        take_upto(rs, e) < rs.len() ==> rs[take_upto(rs, e) as int].start > e,
    decreases rs.len(),
{
    if rs.len() > 0 && rs[0].start <= e {
        lemma_take_upto_props(rs.drop_first(), e);
        assert forall|k: int| 0 <= k < take_upto(rs, e) implies (#[trigger] rs[k]).start <= e by {
            if k > 0 {
                assert(rs[k] == rs.drop_first()[k - 1]);
            }
        }
    }
}

/// The bytes of the first `n` ranges between `s` and `e`, by where `n` stands relative to
/// the block `p..m` of ranges touching `s..e`.
proof fn lemma_covered_diff(rs: Seq<EscapedRange>, s: usize, e: usize, p: int, m: int, n: int)
    requires
        wf_ranges(rs),
        s <= e,
        0 <= p <= m <= rs.len(),
        0 <= n <= rs.len(),
        forall|k: int| 0 <= k < p ==> (#[trigger] rs[k]).end < s,
        forall|k: int| p <= k < m ==> (#[trigger] rs[k]).end >= s && rs[k].start <= e,
        forall|k: int| m <= k < rs.len() ==> (#[trigger] rs[k]).start > e,
    ensures
        covered(rs, n, e as int) - covered(rs, n, s as int) == if n <= p {
            0
        } else if n <= m {
            overlap_sum(rs.subrange(p, n), s, e)
        } else {
            overlap_sum(rs.subrange(p, m), s, e)
        },
    decreases n,
{
    if n > 0 {
        lemma_covered_diff(rs, s, e, p, m, n - 1);
        let k = n - 1;
        let r = rs[k];
        assert(r.start <= r.end);
        assert(rs.subrange(p, p) =~= Seq::<EscapedRange>::empty());
        assert(overlap_sum(rs.subrange(p, p), s, e) == 0);
        if k < p {
            assert(r.end < s);
            assert(cov_one(r, e as int) - cov_one(r, s as int) == 0);
        } else if k < m {
            assert(r.end >= s && r.start <= e);
            assert(cov_one(r, e as int) - cov_one(r, s as int) == smin(r.end, e) - smax(r.start, s));
            assert(rs.subrange(p, n).drop_last() =~= rs.subrange(p, n - 1));
            assert(rs.subrange(p, n).last() == r);
            assert(overlap_sum(rs.subrange(p, n), s, e) == overlap_sum(rs.subrange(p, n - 1), s, e)
                + (smin(r.end, e) - smax(r.start, s)));
        } else {
            assert(r.start > e);
            assert(cov_one(r, e as int) - cov_one(r, s as int) == 0);
        }
    }
}

/// The bytes that `transform_escaped_range` counts between `s` and `e` are those of the
/// ranges lying between the two positions.
proof fn lemma_overlap_block(rs: Seq<EscapedRange>, s: usize, e: usize)
    requires
        wf_ranges(rs),
        s <= e,
    ensures
        overlap_sum(block(rs, s as int, e as int), s, e) == covered(rs, rs.len() as int, e as int)
            - covered(rs, rs.len() as int, s as int),
{
    let p = skip_before(rs, s as int) as int;
    lemma_skip_before_props(rs, s as int);
    let t = rs.skip(p);
    let q = take_upto(t, e as int) as int;
    lemma_take_upto_props(t, e as int);
    let m = p + q;
    assert(block(rs, s as int, e as int) =~= rs.subrange(p, m));
    assert forall|k: int| p <= k < m implies (#[trigger] rs[k]).end >= s && rs[k].start <= e by {
        assert(rs[k] == t[k - p]);
        if k > p {
            assert(rs[p].end <= rs[k].start);
            assert(rs[k].start <= rs[k].end);
        }
    }
    assert forall|k: int| m <= k < rs.len() implies (#[trigger] rs[k]).start > e by {
        assert(t[q] == rs[m]);
        if k > m {
            assert(rs[m].end <= rs[k].start);
            assert(rs[m].start <= rs[m].end);
        }
    }
    lemma_covered_diff(rs, s, e, p, m, rs.len() as int);
    if m == p {
        assert(rs.subrange(p, m) =~= Seq::<EscapedRange>::empty());
    }
}

proof fn lemma_ulast_last(rs: Seq<EscapedRange>, p: int, n: int)
    requires
        0 <= n <= rs.len(),
    ensures
        ulast(rs, p, n) matches Some(i) ==> forall|k: int| i < k < n ==> !ucontains(rs, k, p),
    decreases n,
{
    if n > 0 {
        lemma_ulast_last(rs, p, n - 1);
    }
}

/// Every offset up to the length of the first `n` ranges falls into one of them.
proof fn lemma_ulast_defined(rs: Seq<EscapedRange>, p: int, n: int)
    requires
        0 < n <= rs.len(),
        forall|i: int| 0 <= i < rs.len() ==> (#[trigger] rs[i]).start <= rs[i].end,
        0 <= p <= prefix_len(rs, n),
    ensures
        ulast(rs, p, n) is Some,
    decreases n,
{
    if !ucontains(rs, n - 1, p) {
        assert(rs[n - 1].start <= rs[n - 1].end);
        assert(p < prefix_len(rs, n - 1));
        lemma_ulast_defined(rs, p, n - 1);
    }
}

/// Mapping an unescaped range that lies within the text to the source and back gives it
/// again.
pub proof fn law_unescaped_roundtrip_within(rs: Seq<EscapedRange>, u: UnescapedRange)
    requires
        wf_ranges(rs),
        u.start <= u.end <= prefix_len(rs, rs.len() as int),
    ensures
        spec_transform_escaped(rs, spec_transform_unescaped(rs, u)) == u,
{
    lemma_ulast_defined(rs, u.start as int, rs.len() as int);
    lemma_ulast_defined(rs, u.end as int, rs.len() as int);
    law_unescaped_roundtrip(rs, u);
}

/// Mapping an unescaped range to the source and back gives it again: what
/// `transform_unescaped_range` finds, `transform_escaped_range` takes back to the same
/// unescaped range.
pub proof fn law_unescaped_roundtrip(rs: Seq<EscapedRange>, u: UnescapedRange)
    requires
        wf_ranges(rs),
        u.start <= u.end,
        unescaped_defined(rs, u),
    ensures
        spec_transform_unescaped(rs, u).start <= spec_transform_unescaped(rs, u).end,
        last_containing(
            rs,
            spec_transform_unescaped(rs, u).start as int,
            rs.len() as int,
        ) is Some,
        spec_transform_escaped(rs, spec_transform_unescaped(rs, u)) == u,
{
    let n = rs.len() as int;
    let i = ulast(rs, u.start as int, n)->0;
    let j = ulast(rs, u.end as int, n)->0;
    lemma_ulast(rs, u.start as int, n);
    lemma_ulast(rs, u.end as int, n);
    lemma_ulast_last(rs, u.end as int, n);
    lemma_prefix_bound(rs, i + 1);
    lemma_prefix_bound(rs, j + 1);
    assert(rs[i].start <= rs[i].end);
    assert(rs[j].start <= rs[j].end);
    // the start and end fall into ranges `i <= j`
    if j < i {
        lemma_prefix_mono(rs, j + 1, i);
        assert(ucontains(rs, i, u.end as int));
        assert(false);
    }
    let es = escape_start(rs, u.start as int);
    let ee = escape_end(rs, u.end as int);
    // the source start lies in range `a`
    let a = if u.start == prefix_len(rs, i) && i > 0 {
        i - 1
    } else {
        i
    };
    if a == i - 1 {
        assert(rs[i - 1].start <= rs[i - 1].end);
        assert(rs[i - 1].end <= rs[i].start);
        lemma_prefix_bound(rs, i);
    }
    assert(rs[a].start <= es <= rs[a].end);
    assert(rs[j].start <= ee <= rs[j].end);
    lemma_covered_in(rs, a, es, n);
    lemma_covered_in(rs, j, ee, n);
    assert(covered(rs, n, es) == u.start);
    assert(covered(rs, n, ee) == u.end);
    if i < j {
        assert(rs[i].end <= rs[j].start);
    }
    assert(es <= ee);
    let e = spec_transform_unescaped(rs, u);
    assert(e.start as int == es && e.end as int == ee);
    // back to the unescaped range
    lemma_last_containing(rs, es, n);
    let l = last_containing(rs, es, n)->0;
    lemma_covered_in(rs, l, es, n);
    lemma_overlap_block(rs, e.start, e.end);
}

// ----------------------------------------------------------------------------------------

/// Wraps possibly concatenated Text events with their respective `EscapedRange`s
/// for range transformations.
#[derive(Debug, Clone)]
pub struct CowWrapper {
    cow: String,
    ranges: Vec<EscapedRange>,
}

impl CowWrapper {
    /// The unescaped text.
    pub closed spec fn text(&self) -> Seq<char> {
        self.cow@
    }

    /// The source ranges the text was assembled from.
    pub closed spec fn ranges(&self) -> Seq<EscapedRange> {
        self.ranges@
    }

    /// Wraps a text with the source ranges it was assembled from.
    pub fn new(cow: String, ranges: Vec<EscapedRange>) -> (w: CowWrapper)
        ensures
            w.text() == cow@,
            w.ranges() == ranges@,
    {
        CowWrapper { cow, ranges }
    }

    /// The wrapped text.
    pub fn as_str(&self) -> (s: &str)
        ensures
            s@ == self.text(),
    {
        self.cow.as_str()
    }

    /// The source ranges of the text.
    pub fn source_ranges(&self) -> (r: &Vec<EscapedRange>)
        ensures
            r@ == self.ranges(),
    {
        &self.ranges
    }

    /// Returns the source range of the whole wrapped content including any escape characters.
    pub fn escaped_range(&self) -> (r: EscapedRange)
        requires
            self.ranges().len() > 0,
        ensures
            r.start == self.ranges()[0].start,
            r.end == self.ranges().last().end,
    {
        EscapedRange {
            start: self.ranges[0].start,
            end: self.ranges[self.ranges.len() - 1].end,
        }
    }

    /// Returns the unescaped range representing this Cow without any escape characters.
    pub fn unescaped_range(&self) -> (r: UnescapedRange)
        requires
            self.ranges().len() > 0,
            self.ranges()[0].start + crate::text::utf8_len(self.text()) <= usize::MAX,
        ensures
            r.start == self.ranges()[0].start,
            r.end == self.ranges()[0].start + crate::text::utf8_len(self.text()),
    {
        let start = self.ranges[0].start;
        UnescapedRange { start, end: start + crate::ext::byte_len(self.cow.as_str()) }
    }

    /// Transforms an escaped range to an UnescapedRange containing no escape characters.
    ///
    /// This can be used as immediate transformation while performing text processing.
    /// The function `transform_unescaped_range` can be used to transform modified ranges back.
    /// See the documentation of [`UnescapedRange`] for more information.
    pub fn transform_escaped_range(&self, escaped: EscapedRange) -> (r: UnescapedRange)
        requires
            wf_ranges(self.ranges()),
            escaped.start <= escaped.end,
            last_containing(self.ranges(), escaped.start as int, self.ranges().len() as int) is Some,
            unescape_pos(self.ranges(), escaped.start as int) + overlap_sum(
                block(self.ranges(), escaped.start as int, escaped.end as int),
                escaped.start,
                escaped.end,
            ) <= usize::MAX,
        ensures
            r == spec_transform_escaped(self.ranges(), escaped),
    {
        let ghost rs = self.ranges@;
        let n = self.ranges.len();
        let mut unescaped_start: Option<usize> = None;
        let mut unescaped_equiv: usize = 0;
        let mut i: usize = 0;
        while i < n
            invariant
                n == rs.len(),
                rs == self.ranges@,
                wf_ranges(rs),
                i <= n,
                unescaped_equiv == prefix_len(rs, i as int),
                match last_containing(rs, escaped.start as int, i as int) {
                    Some(j) => unescaped_start == Some(
                        (prefix_len(rs, j) + escaped.start - rs[j].start) as usize,
                    ),
                    None => unescaped_start is None,
                },
            decreases n - i,
        {
            let r = self.ranges[i];
            proof {
                lemma_prefix_bound(rs, i as int + 1);
                lemma_prefix_bound(rs, i as int);
            }
            if r.start == escaped.start && i > 0 {
                unescaped_start = Some(unescaped_equiv);
            } else if escaped.start >= r.start && escaped.start <= r.end {
                unescaped_start = Some(unescaped_equiv + (escaped.start - r.start));
            }
            unescaped_equiv = unescaped_equiv + (r.end - r.start);
            i = i + 1;
        }
        proof {
            lemma_last_containing(rs, escaped.start as int, n as int);
        }
        let us = unescaped_start.unwrap();
        let ghost j0 = last_containing(rs, escaped.start as int, n as int)->0;
        proof {
            lemma_prefix_bound(rs, j0);
        }

        let (a, b) = block_bounds(&self.ranges, escaped.start, escaped.end);
        let ghost bl = block(rs, escaped.start as int, escaped.end as int);
        assert(bl =~= rs.subrange(a as int, b as int));
        proof {
            block_terms_nonneg(rs, escaped.start, escaped.end, a as int, b as int);
            lemma_overlap_mono(bl, escaped.start, escaped.end, 0);
        }
        assert(us as int == unescape_pos(rs, escaped.start as int));
        let mut len: usize = 0;
        let mut j: usize = a;
        while j < b
            invariant
                a <= j <= b <= n,
                n == rs.len(),
                rs == self.ranges@,
                bl == rs.subrange(a as int, b as int),
                len == overlap_sum(bl.take(j - a), escaped.start, escaped.end),
                us + overlap_sum(bl, escaped.start, escaped.end) <= usize::MAX,
                forall|k: int|
                    0 <= k < bl.len() ==> smin((#[trigger] bl[k]).end, escaped.end) >= smax(
                        bl[k].start,
                        escaped.start,
                    ),
            decreases b - j,
        {
            let r = self.ranges[j];
            proof {
                assert(bl.take(j - a + 1).drop_last() =~= bl.take(j - a));
                assert(bl[j - a] == r);
                lemma_overlap_mono(bl, escaped.start, escaped.end, j - a + 1);
                lemma_overlap_mono(bl, escaped.start, escaped.end, j - a);
            }
            let hi = if r.end <= escaped.end { r.end } else { escaped.end };
            let lo = if r.start >= escaped.start { r.start } else { escaped.start };
            len = len + (hi - lo);
            j = j + 1;
        }
        assert(bl.take(b - a) =~= bl);
        UnescapedRange { start: us, end: us + len }
    }

    /// Transforms an `UnescapedRange` back to the corresponding `EscapedRange` including all
    /// escape characters present in the source-code.
    pub fn transform_unescaped_range(&self, unescaped: UnescapedRange) -> (r: EscapedRange)
        requires
            wf_ranges(self.ranges()),
            unescaped_defined(self.ranges(), unescaped),
        ensures
            r == spec_transform_unescaped(self.ranges(), unescaped),
    {
        let ghost rs = self.ranges@;
        let n = self.ranges.len();
        let mut escaped_start: Option<usize> = None;
        let mut escaped_end: Option<usize> = None;
        let mut unescaped_equiv: usize = 0;
        let mut i: usize = 0;
        while i < n
            invariant
                n == rs.len(),
                rs == self.ranges@,
                wf_ranges(rs),
                i <= n,
                unescaped_equiv == prefix_len(rs, i as int),
                match ulast(rs, unescaped.start as int, i as int) {
                    Some(j) => escaped_start == Some(
                        (if unescaped.start == prefix_len(rs, j) && j > 0 {
                            rs[j - 1].end as int
                        } else {
                            rs[j].start + unescaped.start - prefix_len(rs, j)
                        }) as usize,
                    ),
                    None => escaped_start is None,
                },
                match ulast(rs, unescaped.end as int, i as int) {
                    Some(j) => escaped_end == Some(
                        (rs[j].start + unescaped.end - prefix_len(rs, j)) as usize,
                    ),
                    None => escaped_end is None,
                },
            decreases n - i,
        {
            let r = self.ranges[i];
            proof {
                lemma_prefix_bound(rs, i as int + 1);
                lemma_prefix_bound(rs, i as int);
            }
            let equiv_start = unescaped_equiv;
            let equiv_end = equiv_start + (r.end - r.start);
            if unescaped.start == equiv_start && i > 0 {
                escaped_start = Some(self.ranges[i - 1].end);
            } else if unescaped.start >= equiv_start && unescaped.start <= equiv_end {
                escaped_start = Some(r.start + (unescaped.start - equiv_start));
            }
            if unescaped.end >= equiv_start && unescaped.end <= equiv_end {
                escaped_end = Some(r.start + (unescaped.end - equiv_start));
            }
            unescaped_equiv = equiv_end;
            i = i + 1;
        }
        EscapedRange { start: escaped_start.unwrap(), end: escaped_end.unwrap() }
    }

    /// Returns the modified list of text-ranges that describe the source-code location of `subrange`.
    pub fn subranges(&self, subrange: EscapedRange) -> (r: Vec<EscapedRange>)
        ensures
            r@ == spec_subranges(self.ranges(), subrange),
    {
        let ghost rs = self.ranges@;
        let (a, b) = block_bounds(&self.ranges, subrange.start, subrange.end);
        let ghost bl = block(rs, subrange.start as int, subrange.end as int);
        assert(bl =~= rs.subrange(a as int, b as int));
        let mut out: Vec<EscapedRange> = Vec::new();
        let mut j: usize = a;
        while j < b
            invariant
                a <= j <= b <= rs.len(),
                rs == self.ranges@,
                bl == rs.subrange(a as int, b as int),
                out.len() == j - a,
                forall|k: int| 0 <= k < j - a ==> out@[k] == clamp(#[trigger] bl[k], subrange.start, subrange.end),
            decreases b - j,
        {
            let r = self.ranges[j];
            let hi = if r.end <= subrange.end { r.end } else { subrange.end };
            let lo = if r.start >= subrange.start { r.start } else { subrange.start };
            out.push(EscapedRange { start: lo, end: hi });
            assert(bl[j - a] == r);
            j = j + 1;
        }
        assert(out@ =~= spec_subranges(rs, subrange));
        out
    }
}

impl CowWrapper {
    /// Replaces the source ranges by those of the unescaped range `u`.
    fn retarget(&mut self, u: UnescapedRange)
        requires
            wf_ranges(old(self).ranges()),
            unescaped_defined(old(self).ranges(), u),
        ensures
            final(self).text() == old(self).text(),
            final(self).ranges() == retargeted(old(self).ranges(), u),
    {
        let escaped = self.transform_unescaped_range(u);
        self.ranges = self.subranges(escaped);
    }

    /// Returns number of `(leading_spaces, trailing_spaces)` of the text in bytes.
    pub fn trim_lengths(&self) -> (r: (usize, usize))
        ensures
            r.0 == trim_lengths_spec(self.text()).0,
            r.1 == trim_lengths_spec(self.text()).1,
    {
        self.cow.trim_lengths()
    }

    /// Trims any leading and trailing whitespace, keeping the source ranges of what is left.
    pub fn trim_inplace(&mut self)
        requires
            wf_ranges(old(self).ranges()),
            old(self).ranges()[0].start + utf8_len(old(self).text()) <= usize::MAX,
            unescaped_defined(old(self).ranges(), trim_target(old(self).ranges(), old(self).text())),
        ensures
            final(self).text() == trim(old(self).text()),
            final(self).ranges() == retargeted(
                old(self).ranges(),
                trim_target(old(self).ranges(), old(self).text()),
            ),
    {
        proof {
            lemma_trim_lengths_bound(self.text());
        }
        let unescaped = self.unescaped_range();
        let (left, right) = self.cow.trim_lengths();
        self.cow.trim_inplace();
        let target = UnescapedRange { start: unescaped.start + left, end: unescaped.end - right };
        self.retarget(target);
    }

    /// Trims any leading whitespace, keeping the source ranges of what is left.
    pub fn trim_start_inplace(&mut self)
        requires
            wf_ranges(old(self).ranges()),
            old(self).ranges()[0].start + utf8_len(old(self).text()) <= usize::MAX,
            unescaped_defined(
                old(self).ranges(),
                trim_start_target(old(self).ranges(), old(self).text()),
            ),
        ensures
            final(self).text() == trim_start(old(self).text()),
            final(self).ranges() == retargeted(
                old(self).ranges(),
                trim_start_target(old(self).ranges(), old(self).text()),
            ),
    {
        proof {
            lemma_trim_lengths_bound(self.text());
        }
        let unescaped = self.unescaped_range();
        let (left, _) = self.cow.trim_lengths();
        self.cow.trim_start_inplace();
        let target = UnescapedRange { start: unescaped.start + left, end: unescaped.end };
        self.retarget(target);
    }

    /// Trims any trailing whitespace, keeping the source ranges of what is left.
    pub fn trim_end_inplace(&mut self)
        requires
            wf_ranges(old(self).ranges()),
            old(self).ranges()[0].start + utf8_len(old(self).text()) <= usize::MAX,
            unescaped_defined(
                old(self).ranges(),
                trim_end_target(old(self).ranges(), old(self).text()),
            ),
        ensures
            final(self).text() == trim_end(old(self).text()),
            final(self).ranges() == retargeted(
                old(self).ranges(),
                trim_end_target(old(self).ranges(), old(self).text()),
            ),
    {
        proof {
            lemma_trim_lengths_bound(self.text());
        }
        let unescaped = self.unescaped_range();
        let (_, right) = self.cow.trim_lengths();
        self.cow.trim_end_inplace();
        let target = UnescapedRange { start: unescaped.start, end: unescaped.end - right };
        self.retarget(target);
    }

    /// Removes the first `num` bytes, keeping the source ranges of what is left.
    pub fn truncate_start(&mut self, num: usize)
        requires
            wf_ranges(old(self).ranges()),
            is_boundary(old(self).text(), num as int),
            old(self).ranges()[0].start + utf8_len(old(self).text()) <= usize::MAX,
            unescaped_defined(
                old(self).ranges(),
                from_first(old(self).ranges(), num as int, utf8_len(old(self).text()) as int),
            ),
        ensures
            final(self).text() == old(self).text().skip(char_index(old(self).text(), num as int)),
            final(self).ranges() == retargeted(
                old(self).ranges(),
                from_first(old(self).ranges(), num as int, utf8_len(old(self).text()) as int),
            ),
    {
        proof {
            lemma_boundary_le(self.text(), num as int);
        }
        let unescaped = self.unescaped_range();
        self.cow.truncate_start(num);
        let target = UnescapedRange { start: unescaped.start + num, end: unescaped.end };
        self.retarget(target);
    }

    /// Removes the last `num` bytes, keeping the source ranges of what is left.
    pub fn truncate_end(&mut self, num: usize)
        requires
            wf_ranges(old(self).ranges()),
            num <= utf8_len(old(self).text()),
            is_boundary(old(self).text(), utf8_len(old(self).text()) - num),
            old(self).ranges()[0].start + utf8_len(old(self).text()) <= usize::MAX,
            unescaped_defined(
                old(self).ranges(),
                from_first(old(self).ranges(), 0, utf8_len(old(self).text()) - num),
            ),
        ensures
            final(self).text() == old(self).text().take(
                char_index(old(self).text(), utf8_len(old(self).text()) - num),
            ),
            final(self).ranges() == retargeted(
                old(self).ranges(),
                from_first(old(self).ranges(), 0, utf8_len(old(self).text()) - num),
            ),
    {
        let unescaped = self.unescaped_range();
        self.cow.truncate_end(num);
        let target = UnescapedRange { start: unescaped.start, end: unescaped.end - num };
        self.retarget(target);
    }

    /// Converts the text to ASCII lowercase; the source ranges stay.
    pub fn make_ascii_lowercase_inplace(&mut self)
        ensures
            final(self).text() == ascii_lower_seq(old(self).text()),
            final(self).ranges() == old(self).ranges(),
    {
        self.cow.make_ascii_lowercase_inplace();
    }

    /// Returns `([0, at), [at, len))`, each with the source ranges of its text.
    pub fn split_at(self, at: usize) -> (r: (CowWrapper, CowWrapper))
        requires
            wf_ranges(self.ranges()),
            is_boundary(self.text(), at as int),
            self.ranges()[0].start + utf8_len(self.text()) <= usize::MAX,
            unescaped_defined(self.ranges(), from_first(self.ranges(), 0, at as int)),
            unescaped_defined(
                self.ranges(),
                from_first(self.ranges(), at as int, utf8_len(self.text()) as int),
            ),
        ensures
            r.0.text() == self.text().take(char_index(self.text(), at as int)),
            r.1.text() == self.text().skip(char_index(self.text(), at as int)),
            r.0.ranges() == retargeted(self.ranges(), from_first(self.ranges(), 0, at as int)),
            r.1.ranges() == retargeted(
                self.ranges(),
                from_first(self.ranges(), at as int, utf8_len(self.text()) as int),
            ),
    {
        proof {
            lemma_boundary_le(self.text(), at as int);
        }
        let unescaped = self.unescaped_range();
        let left_u = UnescapedRange { start: unescaped.start, end: unescaped.start + at };
        let right_u = UnescapedRange { start: unescaped.start + at, end: unescaped.end };
        let left_ranges = self.subranges(self.transform_unescaped_range(left_u));
        let right_ranges = self.subranges(self.transform_unescaped_range(right_u));
        let (left, right) = CowExt::split_at(self.cow, at);
        (CowWrapper { cow: left, ranges: left_ranges }, CowWrapper { cow: right, ranges: right_ranges })
    }

    /// Keeps `[0, at)` and returns `[at, len)`, each with the source ranges of its text.
    pub fn split_off(&mut self, at: usize) -> (r: CowWrapper)
        requires
            wf_ranges(old(self).ranges()),
            is_boundary(old(self).text(), at as int),
            old(self).ranges()[0].start + utf8_len(old(self).text()) <= usize::MAX,
            unescaped_defined(old(self).ranges(), from_first(old(self).ranges(), 0, at as int)),
            unescaped_defined(
                old(self).ranges(),
                from_first(old(self).ranges(), at as int, utf8_len(old(self).text()) as int),
            ),
        ensures
            final(self).text() == old(self).text().take(char_index(old(self).text(), at as int)),
            r.text() == old(self).text().skip(char_index(old(self).text(), at as int)),
            final(self).ranges() == retargeted(
                old(self).ranges(),
                from_first(old(self).ranges(), 0, at as int),
            ),
            r.ranges() == retargeted(
                old(self).ranges(),
                from_first(old(self).ranges(), at as int, utf8_len(old(self).text()) as int),
            ),
    {
        proof {
            lemma_boundary_le(self.text(), at as int);
        }
        let unescaped = self.unescaped_range();
        let left_u = UnescapedRange { start: unescaped.start, end: unescaped.start + at };
        let right_u = UnescapedRange { start: unescaped.start + at, end: unescaped.end };
        let left_ranges = self.subranges(self.transform_unescaped_range(left_u));
        let right_ranges = self.subranges(self.transform_unescaped_range(right_u));
        let right = CowExt::split_off(&mut self.cow, at);
        self.ranges = left_ranges;
        CowWrapper { cow: right, ranges: right_ranges }
    }

    /// Keeps `[at, len)` and returns `[0, at)`, each with the source ranges of its text.
    pub fn split_to(&mut self, at: usize) -> (r: CowWrapper)
        requires
            wf_ranges(old(self).ranges()),
            is_boundary(old(self).text(), at as int),
            old(self).ranges()[0].start + utf8_len(old(self).text()) <= usize::MAX,
            unescaped_defined(old(self).ranges(), from_first(old(self).ranges(), 0, at as int)),
            unescaped_defined(
                old(self).ranges(),
                from_first(old(self).ranges(), at as int, utf8_len(old(self).text()) as int),
            ),
        ensures
            final(self).text() == old(self).text().skip(char_index(old(self).text(), at as int)),
            r.text() == old(self).text().take(char_index(old(self).text(), at as int)),
            final(self).ranges() == retargeted(
                old(self).ranges(),
                from_first(old(self).ranges(), at as int, utf8_len(old(self).text()) as int),
            ),
            r.ranges() == retargeted(
                old(self).ranges(),
                from_first(old(self).ranges(), 0, at as int),
            ),
    {
        proof {
            lemma_boundary_le(self.text(), at as int);
        }
        let unescaped = self.unescaped_range();
        let left_u = UnescapedRange { start: unescaped.start, end: unescaped.start + at };
        let right_u = UnescapedRange { start: unescaped.start + at, end: unescaped.end };
        let left_ranges = self.subranges(self.transform_unescaped_range(left_u));
        let right_ranges = self.subranges(self.transform_unescaped_range(right_u));
        let left = CowExt::split_to(&mut self.cow, at);
        self.ranges = right_ranges;
        CowWrapper { cow: left, ranges: left_ranges }
    }
}

/// Index bounds `(a, b)` of `block(ranges, s, e)` within `ranges`.
fn block_bounds(ranges: &Vec<EscapedRange>, s: usize, e: usize) -> (r: (usize, usize))
    ensures
        r.0 <= r.1 <= ranges@.len(),
        r.0 == skip_before(ranges@, s as int),
        r.1 - r.0 == take_upto(ranges@.skip(r.0 as int), e as int),
        r.0 == ranges@.len() || ranges@[r.0 as int].end >= s,
        forall|i: int| r.0 <= i < r.1 ==> (#[trigger] ranges@[i]).start <= e,
        block(ranges@, s as int, e as int) =~= ranges@.subrange(r.0 as int, r.1 as int),
{
    let ghost rs = ranges@;
    let mut a: usize = 0;
    while a < ranges.len() && ranges[a].end < s
        invariant
            a <= rs.len(),
            rs == ranges@,
            forall|i: int| 0 <= i < a ==> (#[trigger] rs[i]).end < s,
        decreases rs.len() - a,
    {
        a = a + 1;
    }
    proof {
        lemma_skip_before(rs, s as int, a as int);
    }
    let mut b: usize = a;
    while b < ranges.len() && ranges[b].start <= e
        invariant
            a <= b <= rs.len(),
            rs == ranges@,
            forall|i: int| a <= i < b ==> (#[trigger] rs[i]).start <= e,
        decreases rs.len() - b,
    {
        b = b + 1;
    }
    proof {
        let t = rs.skip(a as int);
        assert forall|i: int| 0 <= i < b - a implies (#[trigger] t[i]).start <= e by {
            assert(t[i] == rs[a + i]);
        }
        if b < rs.len() {
            assert(t[b - a] == rs[b as int]);
        }
        lemma_take_upto(t, e as int, (b - a) as int);
        assert(t.take((b - a) as int) =~= rs.subrange(a as int, b as int));
    }
    (a, b)
}

/// Within well-formed ranges, the cut lengths of the ranges touching `s..e` are not negative.
proof fn block_terms_nonneg(rs: Seq<EscapedRange>, s: usize, e: usize, a: int, b: int)
    requires
        wf_ranges(rs),
        s <= e,
        0 <= a <= b <= rs.len(),
        a == skip_before(rs, s as int),
        a == rs.len() || rs[a].end >= s,
        forall|i: int| a <= i < b ==> (#[trigger] rs[i]).start <= e,
    ensures
        forall|k: int|
            0 <= k < b - a ==> smin((#[trigger] rs.subrange(a, b)[k]).end, e) >= smax(
                rs.subrange(a, b)[k].start,
                s,
            ),
{
    assert forall|k: int| 0 <= k < b - a implies smin((#[trigger] rs.subrange(a, b)[k]).end, e)
        >= smax(rs.subrange(a, b)[k].start, s) by {
        let r = rs.subrange(a, b)[k];
        assert(r == rs[a + k]);
        assert(rs[a + k].start <= rs[a + k].end);
        if k > 0 {
            assert(rs[a].end <= rs[a + k].start);
        }
    }
}

} // verus!

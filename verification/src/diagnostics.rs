//! Where in the source a diagnostic points.
use vstd::prelude::*;

use crate::ext::byte_len;
use crate::range::SourceRange;
use crate::text::{
    chars_of, is_whitespace, lemma_trail_ws, lemma_trail_ws_le, lemma_utf8_len_concat,
    lemma_utf8_len_take_le, lemma_utf8_len_take_step, trail_ws, trim_end, utf8_len, width_of,
};

verus! {

/// Among the first `n` characters of `s`: the character index after the last line break
/// that starts before byte offset `b`, or 0.
pub open spec fn line_start_upto(s: Seq<char>, b: int, n: int) -> int
    decreases n,
{
    if n <= 0 {
        0
    } else if s[n - 1] == '\n' && utf8_len(s.take(n - 1)) < b {
        n
    } else {
        line_start_upto(s, b, n - 1)
    }
}

/// The character index where the line that holds byte offset `b` starts.
pub open spec fn line_start(s: Seq<char>, b: int) -> int {
    line_start_upto(s, b, s.len() as int)
}

/// The character index of the line break that ends the line from `i` on, or the end of the
/// text.
pub open spec fn line_end(s: Seq<char>, i: int) -> int
    decreases s.len() - i,
{
    if i >= s.len() {
        s.len() as int
    } else if s[i] == '\n' {
        i
    } else {
        line_end(s, i + 1)
    }
}

/// The line that holds byte offset `b`, without its line break.
pub open spec fn line_at(s: Seq<char>, b: int) -> Seq<char> {
    let ls = line_start(s, b);
    s.subrange(ls, line_end(s, ls))
}

/// The byte offset where the line that holds byte offset `b` ends without trailing
/// whitespace, counting from `b`.
pub open spec fn first_line_end(s: Seq<char>, b: int) -> int {
    b + utf8_len(trim_end(line_at(s, b)))
}

/// The range from `range.start` as long as the line that holds it, without trailing
/// whitespace.
pub open spec fn first_line_spec(s: Seq<char>, range: SourceRange) -> SourceRange {
    SourceRange {
        start: range.start,
        end: (range.start + utf8_len(trim_end(line_at(s, range.start as int)))) as usize,
    }
}

proof fn lemma_line_start_bounds(s: Seq<char>, b: int, n: int)
    requires
        0 <= n <= s.len(),
    ensures
        0 <= line_start_upto(s, b, n) <= n,
    decreases n,
{
    if n > 0 {
        lemma_line_start_bounds(s, b, n - 1);
    }
}

proof fn lemma_line_end_bounds(s: Seq<char>, i: int)
    requires
        0 <= i <= s.len(),
    ensures
        i <= line_end(s, i) <= s.len(),
        forall|k: int| i <= k < line_end(s, i) ==> #[trigger] s[k] != '\n',
        line_end(s, i) < s.len() ==> s[line_end(s, i)] == '\n',
    decreases s.len() - i,
{
    if i < s.len() && s[i] != '\n' {
        lemma_line_end_bounds(s, i + 1);
    }
}

/// The byte length of a part of a text is at most that of the text.
proof fn lemma_utf8_len_subrange(s: Seq<char>, a: int, b: int)
    requires
        0 <= a <= b <= s.len(),
    ensures
        utf8_len(s.subrange(a, b)) <= utf8_len(s),
{
    lemma_utf8_len_concat(s.take(a), s.subrange(a, b));
    assert(s.take(a) + s.subrange(a, b) =~= s.take(b));
    lemma_utf8_len_take_le(s, b);
}

/// The range from `range.start` as long as the line in `source` that holds it, without
/// trailing whitespace: where a code block's info string ends.
pub fn first_line(source: &str, range: SourceRange) -> (r: SourceRange)
    requires
        range.start <= utf8_len(source@),
        range.start + utf8_len(source@) <= usize::MAX,
    ensures
        r == first_line_spec(source@, range),
        r.start == range.start,
        r.end == first_line_end(source@, range.start as int),
{
    let total = byte_len(source);
    let chars = chars_of(source);
    let ghost s = source@;
    let b = range.start;
    // where the line starts
    let mut ls: usize = 0;
    let mut pos: usize = 0;
    let mut k: usize = 0;
    while k < chars.len()
        invariant
            chars@ == s,
            total == utf8_len(s),
            k <= s.len(),
            pos == utf8_len(s.take(k as int)),
            ls == line_start_upto(s, b as int, k as int),
        decreases s.len() - k,
    {
        proof {
            lemma_utf8_len_take_step(s, k as int);
            lemma_utf8_len_take_le(s, k + 1);
        }
        if chars[k] == '\n' && pos < b {
            ls = k + 1;
        }
        pos = pos + width_of(chars[k]);
        k = k + 1;
    }
    proof {
        lemma_line_start_bounds(s, b as int, s.len() as int);
        lemma_line_end_bounds(s, ls as int);
    }
    // where it ends
    let mut le: usize = ls;
    while le < chars.len() && chars[le] != '\n'
        invariant
            chars@ == s,
            ls <= le <= s.len(),
            line_end(s, ls as int) == line_end(s, le as int),
        decreases s.len() - le,
    {
        le = le + 1;
    }
    let ghost line = s.subrange(ls as int, le as int);
    assert(line == line_at(s, b as int));
    // without trailing whitespace
    let mut t: usize = le;
    while t > ls && is_whitespace(chars[t - 1])
        invariant
            chars@ == s,
            ls <= t <= le <= s.len(),
            line == s.subrange(ls as int, le as int),
            forall|i: int| t <= i < le ==> crate::text::is_ws(#[trigger] s[i]),
        decreases t,
    {
        t = t - 1;
    }
    proof {
        let n = (le - t) as int;
        assert forall|i: int| line.len() - n <= i < line.len() implies crate::text::is_ws(#[trigger] line[i]) by {
            assert(line[i] == s[ls + i]);
        }
        if t > ls {
            assert(line[line.len() - n - 1] == s[t - 1]);
        }
        lemma_trail_ws(line, n);
        lemma_trail_ws_le(line);
        assert(trim_end(line) =~= s.subrange(ls as int, t as int));
    }
    // its byte length
    let mut len: usize = 0;
    let mut j: usize = ls;
    while j < t
        invariant
            chars@ == s,
            ls <= j <= t <= s.len(),
            total == utf8_len(s),
            len == utf8_len(s.subrange(ls as int, j as int)),
        decreases t - j,
    {
        proof {
            assert(s.subrange(ls as int, j + 1).drop_last() =~= s.subrange(ls as int, j as int));
            lemma_utf8_len_subrange(s, ls as int, j + 1);
        }
        len = len + width_of(chars[j]);
        j = j + 1;
    }
    proof {
        lemma_utf8_len_subrange(s, ls as int, t as int);
    }
    SourceRange { start: range.start, end: range.start + len }
}

} // verus!

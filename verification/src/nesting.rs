//! How deeply events nest: a conversion opens as many more elements than it closes as the
//! parser's events it takes do.
use vstd::prelude::*;

use crate::conversion::{
    after, apply_config, at, bad, code_body, concat_scan, config_paragraph, consume_scan,
    conv_code_block, conv_event, conv_header, conv_image, conv_inline_code, conv_link,
    conv_paragraph, conv_table, conversion, convert_from, direct_view, emit,
    finish_paragraph, handle_config, has_comma, paragraph_config, plain_paragraph,
    strip_inline_label, text_paragraph, until_end, ConvConfig, ConvState, ElemView, EndOf, Input,
};
use crate::cskvp::CskvpView;
use crate::event::{CmarkEvent, EventView};
use crate::range::SourceRange;

verus! {

/// What a document event does to the nesting: a start opens an element, an end closes one.
pub open spec fn opens(e: EventView) -> int {
    match e {
        EventView::Start(_) => 1,
        EventView::End(_) => -1,
        _ => 0,
    }
}

/// What a parser event does to the nesting.
pub open spec fn opens_input(e: CmarkEvent) -> int {
    match e {
        CmarkEvent::Start(_) => 1,
        CmarkEvent::End(_) => -1,
        _ => 0,
    }
}

/// The starts minus the ends of a sequence of document events.
pub open spec fn depth(s: Seq<EventView>) -> int
    decreases s.len(),
{
    if s.len() == 0 {
        0
    } else {
        depth(s.drop_last()) + opens(s.last())
    }
}

/// The starts minus the ends of the parser events `a..b`.
pub open spec fn input_depth(evs: Input, a: int, b: int) -> int
    decreases b - a,
{
    if b <= a {
        0
    } else {
        input_depth(evs, a, b - 1) + opens_input(evs[b - 1].0)
    }
}

/// The lower of `v` and 0.
pub open spec fn low(v: int) -> int {
    if v < 0 {
        v
    } else {
        0
    }
}

/// The lowest nesting that the parser events `a..b` reach on their way, from 0 at `a`.
pub open spec fn input_floor(evs: Input, a: int, b: int) -> int
    decreases b - a,
{
    if b <= a {
        0
    } else {
        let f = input_floor(evs, a, b - 1);
        let d = input_depth(evs, a, b);
        if d < f {
            d
        } else {
            f
        }
    }
}

/// Every prefix of `s` that holds at least its first `n` events nests `bound` deep or more.
pub open spec fn stays_above(s: Seq<EventView>, n: int, bound: int) -> bool {
    forall|k: int| n <= k <= s.len() ==> #[trigger] depth(s.take(k)) >= bound
}

/// `b` begins with the events of `a`.
pub open spec fn extends(a: Seq<EventView>, b: Seq<EventView>) -> bool {
    a.len() <= b.len() && forall|i: int| 0 <= i < a.len() ==> #[trigger] b[i] == a[i]
}

/// Where `r` did not fail, it came from `st` (which did not fail either) by taking the
/// parser events `st.pos..r.pos` and kept the document events of `st`; it opened `extra`
/// more elements than those parser events do, and on its way it never went lower than
/// those parser events do, shifted by `shift`, nor lower than where it began.
pub open spec fn kept_depth(evs: Input, st: ConvState, r: ConvState, extra: int, shift: int) -> bool {
    !r.failed ==> {
        &&& !st.failed
        &&& 0 <= st.pos <= r.pos <= evs.len()
        &&& extends(st.out, r.out)
        &&& depth(r.out) == depth(st.out) + input_depth(evs, st.pos, r.pos) + extra
        &&& stays_above(
            r.out,
            st.out.len() as int,
            depth(st.out) + low(shift + input_floor(evs, st.pos, r.pos)),
        )
    }
}

pub proof fn lemma_depth_push(s: Seq<EventView>, e: EventView)
    ensures
        depth(s.push(e)) == depth(s) + opens(e),
{
    assert(s.push(e).drop_last() =~= s);
}

pub proof fn lemma_depth_concat(s: Seq<EventView>, t: Seq<EventView>)
    ensures
        depth(s + t) == depth(s) + depth(t),
    decreases t.len(),
{
    if t.len() > 0 {
        lemma_depth_concat(s, t.drop_last());
        assert((s + t).drop_last() =~= s + t.drop_last());
    } else {
        assert(s + t =~= s);
    }
}

proof fn lemma_input_depth_split(evs: Input, a: int, b: int, c: int)
    requires
        a <= b <= c,
    ensures
        input_depth(evs, a, c) == input_depth(evs, a, b) + input_depth(evs, b, c),
    decreases c - b,
{
    if b < c {
        lemma_input_depth_split(evs, a, b, c - 1);
    }
}

/// Taking one parser event.
proof fn lemma_input_depth_one(evs: Input, a: int)
    ensures
        input_depth(evs, a, a + 1) == opens_input(evs[a].0),
{
    assert(input_depth(evs, a, a) == 0);
}

proof fn lemma_consume_scan(evs: Input, q: int, nest: int)
    requires
        nest >= 0,
    ensures
        consume_scan(evs, q, nest) matches Some(r) ==> 0 <= q < r <= evs.len() && input_depth(
            evs,
            q,
            r,
        ) == -(nest + 1),
    decreases evs.len() - q,
{
    if 0 <= q < evs.len() {
        lemma_input_depth_one(evs, q);
        match evs[q].0 {
            CmarkEvent::Start(_) => {
                lemma_consume_scan(evs, q + 1, nest + 1);
                if let Some(r) = consume_scan(evs, q + 1, nest + 1) {
                    lemma_input_depth_split(evs, q, q + 1, r);
                }
            },
            CmarkEvent::End(_) => if nest > 0 {
                lemma_consume_scan(evs, q + 1, nest - 1);
                if let Some(r) = consume_scan(evs, q + 1, nest - 1) {
                    lemma_input_depth_split(evs, q, q + 1, r);
                }
            },
            _ => {
                lemma_consume_scan(evs, q + 1, nest);
                if let Some(r) = consume_scan(evs, q + 1, nest) {
                    lemma_input_depth_split(evs, q, q + 1, r);
                }
            },
        }
    }
}

proof fn lemma_concat_scan(evs: Input, q: int, nest: int, acc: Seq<char>)
    requires
        nest >= 0,
    ensures
        concat_scan(evs, q, nest, acc) matches Some((_, r)) ==> 0 <= q < r <= evs.len()
            && input_depth(evs, q, r) == -(nest + 1),
    decreases evs.len() - q,
{
    if 0 <= q < evs.len() {
        lemma_input_depth_one(evs, q);
        match evs[q].0 {
            CmarkEvent::Start(_) => {
                lemma_concat_scan(evs, q + 1, nest + 1, acc);
                if let Some((_, r)) = concat_scan(evs, q + 1, nest + 1, acc) {
                    lemma_input_depth_split(evs, q, q + 1, r);
                }
            },
            CmarkEvent::End(_) => if nest > 0 {
                lemma_concat_scan(evs, q + 1, nest - 1, acc);
                if let Some((_, r)) = concat_scan(evs, q + 1, nest - 1, acc) {
                    lemma_input_depth_split(evs, q, q + 1, r);
                }
            },
            _ => {
                let acc2 = acc + crate::frontend::concat_piece(evs[q].0);
                lemma_concat_scan(evs, q + 1, nest, acc2);
                if let Some((_, r)) = concat_scan(evs, q + 1, nest, acc2) {
                    lemma_input_depth_split(evs, q, q + 1, r);
                }
            },
        }
    }
}

proof fn lemma_input_floor_bounds(evs: Input, a: int, b: int)
    ensures
        input_floor(evs, a, b) <= 0,
        input_floor(evs, a, b) <= input_depth(evs, a, b),
    decreases b - a,
{
    if b > a {
        lemma_input_floor_bounds(evs, a, b - 1);
    }
}

proof fn lemma_input_floor_split(evs: Input, a: int, b: int, c: int)
    requires
        a <= b <= c,
    ensures
        input_floor(evs, a, c) == if input_floor(evs, a, b) < input_depth(evs, a, b) + input_floor(
            evs,
            b,
            c,
        ) {
            input_floor(evs, a, b)
        } else {
            input_depth(evs, a, b) + input_floor(evs, b, c)
        },
    decreases c - b,
{
    lemma_input_floor_bounds(evs, a, b);
    if b < c {
        lemma_input_floor_split(evs, a, b, c - 1);
        lemma_input_depth_split(evs, a, b, c);
    }
}

// ----------------------------------------------------------------------------------------
// steps

#[verifier::rlimit(30)]
proof fn lemma_chain(
    evs: Input,
    a: ConvState,
    b: ConvState,
    c: ConvState,
    x1: int,
    y1: int,
    x2: int,
    y2: int,
    y: int,
)
    requires
        kept_depth(evs, a, b, x1, y1),
        kept_depth(evs, b, c, x2, y2),
        y <= x1 + y2,
        !c.failed ==> low(y + input_floor(evs, a.pos, b.pos)) <= low(
            y1 + input_floor(evs, a.pos, b.pos),
        ),
    ensures
        kept_depth(evs, a, c, x1 + x2, y),
{
    if !c.failed {
        lemma_input_depth_split(evs, a.pos, b.pos, c.pos);
        lemma_input_floor_split(evs, a.pos, b.pos, c.pos);
        lemma_input_floor_bounds(evs, a.pos, b.pos);
        let na = a.out.len() as int;
        let nb = b.out.len() as int;
        let bound = depth(a.out) + low(y + input_floor(evs, a.pos, c.pos));
        assert(b.out.take(nb) =~= b.out);
        assert(depth(b.out.take(nb)) >= depth(a.out) + low(y1 + input_floor(evs, a.pos, b.pos)));
        assert forall|k: int| na <= k <= c.out.len() implies #[trigger] depth(c.out.take(k)) >= bound by {
            if k <= nb {
                assert(c.out.take(k) =~= b.out.take(k));
                assert(depth(b.out.take(k)) >= depth(a.out) + low(y1 + input_floor(evs, a.pos, b.pos)));
            } else {
                assert(depth(c.out.take(k)) >= depth(b.out) + low(y2 + input_floor(evs, b.pos, c.pos)));
            }
        }
    }
}

proof fn lemma_same(evs: Input, st: ConvState, r: ConvState, y: int)
    requires
        r.out == st.out,
        r.pos == st.pos,
        r.failed == st.failed,
        !st.failed ==> 0 <= st.pos <= evs.len(),
    ensures
        kept_depth(evs, st, r, 0, y),
{
    assert(st.out.take(st.out.len() as int) =~= st.out);
}

proof fn lemma_emit(evs: Input, st: ConvState, e: EventView)
    requires
        !st.failed ==> 0 <= st.pos <= evs.len(),
    ensures
        kept_depth(evs, st, emit(st, e), opens(e), opens(e)),
{
    let n = st.out.len() as int;
    lemma_depth_push(st.out, e);
    assert(st.out.push(e).take(n) =~= st.out);
    assert(st.out.push(e).take(n + 1) =~= st.out.push(e));
}

proof fn lemma_at(evs: Input, st: ConvState, q: int, y: int)
    requires
        !st.failed ==> 0 <= st.pos <= q <= evs.len(),
    ensures
        kept_depth(evs, st, at(st, q), -input_depth(evs, st.pos, q), y),
{
    assert(st.out.take(st.out.len() as int) =~= st.out);
}

proof fn lemma_after(evs: Input, st0: ConvState, st1: ConvState, x: int, y: int)
    requires
        kept_depth(evs, st0, st1, x, y),
    ensures
        kept_depth(evs, st0, after(evs, st0, st1), x, y),
{
}

/// Taking the inline label off a heading's text keeps how every prefix nests.
proof fn lemma_strip(s: Seq<EventView>, inl: Option<(Seq<char>, int, int)>)
    ensures
        strip_inline_label(s, inl) matches Some(inner) ==> inner.len() == s.len() && forall|i: int|
            0 <= i <= s.len() ==> #[trigger] depth(inner.take(i)) == depth(s.take(i)),
{
    if let Some(inner) = strip_inline_label(s, inl) {
        if inl is Some {
            let n = s.len() as int;
            lemma_depth_push(s.drop_last(), inner.last());
            assert(inner =~= s.drop_last().push(inner.last()));
            assert forall|i: int| 0 <= i <= n implies #[trigger] depth(inner.take(i)) == depth(s.take(i)) by {
                if i < n {
                    assert(inner.take(i) =~= s.take(i));
                } else {
                    assert(inner.take(i) =~= inner);
                    assert(s.take(i) =~= s);
                }
            }
        } else {
            assert forall|i: int| 0 <= i <= s.len() implies #[trigger] depth(inner.take(i)) == depth(s.take(i)) by {
                assert(inner =~= s);
            }
        }
    }
}

proof fn lemma_inline_code(evs: Input, st: ConvState, t: Seq<char>)
    requires
        !bad(evs, st),
    ensures
        kept_depth(evs, st, conv_inline_code(st, t), 0, 0),
{
    if crate::conversion::inline_code_ok(t) {
        match crate::frontend::inline_code_spec(t) {
            crate::frontend::InlineCodeView::Latex(l) => {
                lemma_emit(evs, st, EventView::Latex(l));
            },
            crate::frontend::InlineCodeView::Math(m) => {
                lemma_framed(evs, st, crate::event::TagView::InlineMath, m);
            },
            crate::frontend::InlineCodeView::Code(cd) => {
                lemma_framed(evs, st, crate::event::TagView::InlineCode, cd);
            },
        }
    }
}

/// A text framed by a start and an end.
proof fn lemma_framed(evs: Input, st: ConvState, tag: crate::event::TagView, t: Seq<char>)
    requires
        !bad(evs, st),
    ensures
        kept_depth(
            evs,
            st,
            emit(emit(emit(st, EventView::Start(tag)), EventView::Text(t)), EventView::End(tag)),
            0,
            0,
        ),
{
    let s1 = emit(st, EventView::Start(tag));
    let s2 = emit(s1, EventView::Text(t));
    lemma_emit(evs, st, EventView::Start(tag));
    lemma_emit(evs, s1, EventView::Text(t));
    lemma_emit(evs, s2, EventView::End(tag));
    lemma_chain(evs, st, s1, s2, 1, 1, 0, 0, 1);
    lemma_chain(evs, st, s2, emit(s2, EventView::End(tag)), 1, 1, -1, -1, 0);
}

// ----------------------------------------------------------------------------------------
// the conversion, step by step

/// An element of `k`, from its start (taken already) through its end.
proof fn lemma_element(
    evs: Input,
    c: ConvConfig,
    st: ConvState,
    k: EndOf,
    tag: crate::event::TagView,
)
    requires
        !bad(evs, st),
    ensures
        kept_depth(
            evs,
            st,
            emit(
                until_end(evs, c, emit(st, EventView::Start(tag)), k, Seq::empty(), None).0,
                EventView::End(tag),
            ),
            1,
            1,
        ),
    decreases evs.len() - st.pos, 1int,
{
    let s1 = emit(st, EventView::Start(tag));
    let s2 = until_end(evs, c, s1, k, Seq::empty(), None).0;
    lemma_emit(evs, st, EventView::Start(tag));
    lemma_until_end(evs, c, s1, k, Seq::empty(), None);
    lemma_emit(evs, s2, EventView::End(tag));
    lemma_chain(evs, st, s1, s2, 1, 1, 1, 0, 1);
    lemma_chain(evs, st, s2, emit(s2, EventView::End(tag)), 2, 1, -1, -1, 1);
}

proof fn lemma_until_end(
    evs: Input,
    c: ConvConfig,
    st: ConvState,
    k: EndOf,
    text: Seq<char>,
    first: Option<int>,
)
    ensures
        kept_depth(evs, st, until_end(evs, c, st, k, text, first).0, 1, 0),
    decreases evs.len() - st.pos, 0int,
{
    if !bad(evs, st) && st.pos < evs.len() {
        let e = evs[st.pos].0;
        let first2 = if first is None {
            Some(evs[st.pos].1.start as int)
        } else {
            first
        };
        let st1 = at(st, st.pos + 1);
        lemma_input_depth_one(evs, st.pos);
        lemma_at(evs, st, st.pos + 1, 0);
        if !crate::conversion::ends(e, k) {
            let text2 = match e {
                CmarkEvent::Text(t) => if text.len() == 0 {
                    t@
                } else {
                    text + " "@ + t@
                },
                _ => text,
            };
            let x = conv_event(evs, c, st1, e, evs[st.pos].1);
            lemma_conv_event(evs, c, st1, e, evs[st.pos].1);
            let st2 = after(evs, st1, x);
            lemma_after(evs, st1, x, opens_input(e), opens_input(e));
            lemma_until_end(evs, c, st2, k, text2, first2);
            let r = until_end(evs, c, st2, k, text2, first2).0;
            lemma_chain(evs, st, st1, st2, -opens_input(e), 0, opens_input(e), opens_input(e), 0);
            lemma_chain(evs, st, st2, r, 0, 0, 1, 0, 0);
        }
    }
}

proof fn lemma_conv_event(evs: Input, c: ConvConfig, st: ConvState, e: CmarkEvent, r: SourceRange)
    ensures
        kept_depth(evs, st, conv_event(evs, c, st, e, r), opens_input(e), opens_input(e)),
    decreases evs.len() - st.pos, 11int,
{
    if !bad(evs, st) {
        match e {
            CmarkEvent::Code(t) => lemma_inline_code(evs, st, t@),
            CmarkEvent::Start(crate::event::CmarkTag::CodeBlock(l)) => lemma_conv_code_block(
                evs,
                c,
                st,
                l@,
                r,
                None,
            ),
            CmarkEvent::Start(crate::event::CmarkTag::Paragraph) => lemma_conv_paragraph(evs, c, st, r),
            CmarkEvent::Start(crate::event::CmarkTag::Header(level)) => lemma_conv_header(
                evs,
                c,
                st,
                level as int,
                r,
                None,
            ),
            CmarkEvent::Start(crate::event::CmarkTag::Table(al)) => lemma_conv_table(evs, c, st, al@, None),
            CmarkEvent::Start(crate::event::CmarkTag::Link(typ, dst, title)) => lemma_conv_link(
                evs,
                c,
                st,
                typ,
                dst@,
                title@,
            ),
            CmarkEvent::Start(crate::event::CmarkTag::Image(typ, dst, title)) => lemma_conv_image(
                evs,
                st,
                typ,
                dst@,
                title@,
                None,
            ),
            _ => if !crate::frontend::is_consumed_end(e) {
                lemma_emit(evs, st, direct_view(e));
            },
        }
    }
}

proof fn lemma_plain_paragraph(evs: Input, c: ConvConfig, st: ConvState)
    ensures
        kept_depth(evs, st, plain_paragraph(evs, c, st), 1, 1),
    decreases evs.len() - st.pos, 2int,
{
    if !bad(evs, st) {
        lemma_element(evs, c, st, EndOf::Paragraph, crate::event::TagView::Paragraph);
    }
}

proof fn lemma_text_paragraph(evs: Input, c: ConvConfig, st: ConvState, t: Seq<char>)
    ensures
        kept_depth(evs, st, text_paragraph(evs, c, st, t), 1, 1),
    decreases evs.len() - st.pos, 2int,
{
    if !bad(evs, st) {
        let tag = crate::event::TagView::Paragraph;
        let s1 = emit(st, EventView::Start(tag));
        let s2 = emit(s1, EventView::Text(t));
        let s3 = until_end(evs, c, s2, EndOf::Paragraph, Seq::empty(), None).0;
        lemma_emit(evs, st, EventView::Start(tag));
        lemma_emit(evs, s1, EventView::Text(t));
        lemma_until_end(evs, c, s2, EndOf::Paragraph, Seq::empty(), None);
        lemma_emit(evs, s3, EventView::End(tag));
        lemma_chain(evs, st, s1, s2, 1, 1, 0, 0, 1);
        lemma_chain(evs, st, s2, s3, 1, 1, 1, 0, 1);
        lemma_chain(evs, st, s3, emit(s3, EventView::End(tag)), 2, 1, -1, -1, 1);
    }
}

proof fn lemma_finish_paragraph(evs: Input, c: ConvConfig, st: ConvState, end_par: bool)
    ensures
        kept_depth(evs, st, finish_paragraph(evs, c, st, end_par), 0, 0),
    decreases evs.len() - st.pos, 2int,
{
    if !bad(evs, st) {
        if end_par {
            lemma_same(evs, st, st, 0);
        } else {
            let tag = crate::event::TagView::Paragraph;
            let s1 = until_end(evs, c, st, EndOf::Paragraph, Seq::empty(), None).0;
            lemma_until_end(evs, c, st, EndOf::Paragraph, Seq::empty(), None);
            lemma_emit(evs, s1, EventView::End(tag));
            lemma_chain(evs, st, s1, emit(s1, EventView::End(tag)), 1, 0, -1, -1, 0);
        }
    }
}

proof fn lemma_conv_paragraph(evs: Input, c: ConvConfig, st: ConvState, r: SourceRange)
    ensures
        kept_depth(evs, st, conv_paragraph(evs, c, st, r), 1, 1),
    decreases evs.len() - st.pos, 10int,
{
    if !bad(evs, st) && st.pos < evs.len() {
        let p = st.pos;
        if evs[p].0 matches CmarkEvent::Text(t) && crate::frontend::is_pagebreak_spec(t@) {
            if p + 1 < evs.len() {
                if evs[p + 1].0 matches CmarkEvent::End(crate::event::CmarkTag::Paragraph) {
                    lemma_input_depth_one(evs, p);
                    lemma_input_depth_one(evs, p + 1);
                    lemma_input_depth_split(evs, p, p + 1, p + 2);
                    let s1 = at(st, p + 2);
                    lemma_at(evs, st, p + 2, 1);
                    lemma_emit(evs, s1, EventView::PageBreak);
                    lemma_chain(evs, st, s1, emit(s1, EventView::PageBreak), 1, 1, 0, 0, 1);
                } else {
                    lemma_paragraph_config(evs, c, st);
                }
            }
        } else {
            lemma_paragraph_config(evs, c, st);
        }
    }
}

#[verifier::rlimit(30)]
proof fn lemma_paragraph_config(evs: Input, c: ConvConfig, st: ConvState)
    ensures
        kept_depth(evs, st, paragraph_config(evs, c, st), 1, 1),
    decreases evs.len() - st.pos, 9int,
{
    if bad(evs, st) || st.pos >= evs.len() {
        lemma_plain_paragraph(evs, c, st);
    } else {
        let p = st.pos;
        match evs[p].0 {
            CmarkEvent::Text(t) => if !crate::frontend::is_element_config_spec(t@) {
                lemma_plain_paragraph(evs, c, st);
            } else if p + 1 >= evs.len() || !(evs[p + 1].0 matches CmarkEvent::End(
                crate::event::CmarkTag::Paragraph,
            ) || evs[p + 1].0 matches CmarkEvent::SoftBreak) {
                let s1 = at(st, p + 1);
                lemma_input_depth_one(evs, p);
                lemma_at(evs, st, p + 1, 1);
                lemma_text_paragraph(evs, c, s1, t@);
                lemma_chain(evs, st, s1, text_paragraph(evs, c, s1, t@), 0, 1, 1, 1, 1);
            } else {
                let end_par = evs[p + 1].0 matches CmarkEvent::End(crate::event::CmarkTag::Paragraph);
                let s1 = at(st, p + 2);
                lemma_input_depth_one(evs, p);
                lemma_input_depth_one(evs, p + 1);
                lemma_input_depth_split(evs, p, p + 1, p + 2);
                lemma_at(evs, st, p + 2, 1);
                lemma_config_paragraph(evs, c, s1, t@, evs[p].1, end_par);
                let x: int = if end_par {
                    0
                } else {
                    1
                };
                lemma_chain(
                    evs,
                    st,
                    s1,
                    config_paragraph(evs, c, s1, t@, evs[p].1, end_par),
                    1 - x,
                    1,
                    x,
                    x,
                    1,
                );
            },
            _ => lemma_plain_paragraph(evs, c, st),
        }
    }
}

proof fn lemma_config_paragraph(
    evs: Input,
    c: ConvConfig,
    st: ConvState,
    t: Seq<char>,
    tr: SourceRange,
    end_par: bool,
)
    ensures
        ({
            let x: int = if end_par {
                0
            } else {
                1
            };
            kept_depth(evs, st, config_paragraph(evs, c, st, t, tr, end_par), x, x)
        }),
    decreases evs.len() - st.pos, 8int,
{
    if !bad(evs, st) {
        let st1 = if end_par {
            st
        } else {
            emit(st, EventView::Start(crate::event::TagView::Paragraph))
        };
        let x: int = if end_par {
            0
        } else {
            1
        };
        if end_par {
            lemma_same(evs, st, st1, 0);
        } else {
            lemma_emit(evs, st, EventView::Start(crate::event::TagView::Paragraph));
        }
        let n = t.len();
        if !(n < 2 || crate::text::char_width(t[0]) != 1 || crate::text::char_width(t[n - 1]) != 1
            || tr.end == 0 || tr.start + 1 > usize::MAX) {
            let inner = t.subrange(1, n - 1);
            let cstart = tr.start + 1;
            if cstart + crate::text::utf8_len(inner) <= usize::MAX {
                let cv = crate::cskvp::cskvp_spec(inner, cstart);
                let st2 = ConvState { diags: st1.diags + cv.diags, ..st1 };
                lemma_same(evs, st1, st2, x);
                lemma_apply_config(evs, c, st2, crate::conversion::clean(cv), end_par);
                lemma_chain(evs, st, st1, st2, x, x, 0, x, x);
                lemma_chain(
                    evs,
                    st,
                    st2,
                    apply_config(evs, c, st2, crate::conversion::clean(cv), end_par),
                    x,
                    x,
                    0,
                    0,
                    x,
                );
            }
        }
    }
}

#[verifier::rlimit(30)]
proof fn lemma_apply_config(evs: Input, c: ConvConfig, st: ConvState, cv: CskvpView, end_par: bool)
    ensures
        kept_depth(evs, st, apply_config(evs, c, st, cv, end_par), 0, 0),
    decreases evs.len() - st.pos, 7int,
{
    if !bad(evs, st) && st.pos < evs.len() {
        lemma_input_depth_one(evs, st.pos);
        match crate::conversion::elem_of(evs[st.pos].0) {
            Some(el) => {
                let s0 = at(st, st.pos + 1);
                let h = handle_config(evs, c, s0, cv, el, evs[st.pos].1);
                lemma_at(evs, st, st.pos + 1, 0);
                lemma_handle_config(evs, c, s0, cv, el, evs[st.pos].1);
                lemma_chain(evs, st, s0, h, -1, 0, 1, 1, 0);
                let st1 = after(evs, st, h);
                lemma_after(evs, st, h, 0, 0);
                lemma_finish_paragraph(evs, c, st1, end_par);
                lemma_chain(evs, st, st1, finish_paragraph(evs, c, st1, end_par), 0, 0, 0, 0, 0);
            },
            None => {
                let st1 = match cv.label {
                    None => crate::conversion::report(
                        st,
                        crate::error::DiagnosticCode::UnapplicableElementConfig,
                    ),
                    Some((l, _)) => emit(st, EventView::Label(l)),
                };
                match cv.label {
                    None => lemma_same(evs, st, st1, 0),
                    Some((l, _)) => lemma_emit(evs, st, EventView::Label(l)),
                }
                let left = CskvpView { label: None, ..cv };
                let f = finish_paragraph(evs, c, st1, end_par);
                lemma_finish_paragraph(evs, c, st1, end_par);
                lemma_chain(evs, st, st1, f, 0, 0, 0, 0, 0);
                let d = crate::conversion::drop_config(f, Some(cv), left);
                lemma_same(evs, f, d, 0);
                lemma_chain(evs, st, f, d, 0, 0, 0, 0, 0);
            },
        }
    }
}

#[verifier::rlimit(30)]
proof fn lemma_handle_config(
    evs: Input,
    c: ConvConfig,
    st: ConvState,
    cv: CskvpView,
    el: ElemView,
    r: SourceRange,
)
    ensures
        kept_depth(evs, st, handle_config(evs, c, st, cv, el, r), 1, 1),
    decreases evs.len() - st.pos, 6int,
{
    if !bad(evs, st) {
        let fig = match cv.figure {
            Some((b, _)) => b,
            None => c.figures,
        };
        let cv1 = CskvpView { figure: None, ..cv };
        let ftag = if el is Table {
            crate::event::TagView::TableFigure { label: cv1.label, caption: cv1.caption }
        } else {
            crate::event::TagView::Figure { label: cv1.label, caption: cv1.caption }
        };
        let cv2 = if fig {
            CskvpView { label: None, caption: None, ..cv1 }
        } else {
            cv1
        };
        let st1 = if fig {
            emit(st, EventView::Start(ftag))
        } else {
            st
        };
        let x: int = if fig {
            1
        } else {
            0
        };
        if fig {
            lemma_emit(evs, st, EventView::Start(ftag));
        } else {
            lemma_same(evs, st, st1, 1);
        }
        let st2 = match el {
            ElemView::Header(level) => conv_header(evs, c, st1, level, r, Some(cv2)),
            ElemView::CodeBlock(l) => conv_code_block(evs, c, st1, l, r, Some(cv2)),
            ElemView::Table(al) => conv_table(evs, c, st1, al, Some(cv2)),
            ElemView::Image(typ, dst, title) => conv_image(evs, st1, typ, dst, title, Some(cv2)),
        };
        match el {
            ElemView::Header(level) => lemma_conv_header(evs, c, st1, level, r, Some(cv2)),
            ElemView::CodeBlock(l) => lemma_conv_code_block(evs, c, st1, l, r, Some(cv2)),
            ElemView::Table(al) => lemma_conv_table(evs, c, st1, al, Some(cv2)),
            ElemView::Image(typ, dst, title) => lemma_conv_image(evs, st1, typ, dst, title, Some(cv2)),
        }
        lemma_chain(evs, st, st1, st2, x, 1, 1, 1, 1);
        if fig {
            lemma_emit(evs, st2, EventView::End(ftag));
            lemma_chain(evs, st, st2, emit(st2, EventView::End(ftag)), 2, 1, -1, -1, 1);
        }
    }
}

#[verifier::rlimit(30)]
proof fn lemma_conv_header(
    evs: Input,
    c: ConvConfig,
    st: ConvState,
    level: int,
    r: SourceRange,
    cs: Option<CskvpView>,
)
    ensures
        kept_depth(evs, st, conv_header(evs, c, st, level, r, cs), 1, 1),
    decreases evs.len() - st.pos, 3int,
{
    if !bad(evs, st) {
        let res = conv_header(evs, c, st, level, r, cs);
        let n = st.out.len() as int;
        let (st1, text, first) = until_end(evs, c, st, EndOf::Header, Seq::empty(), None);
        lemma_until_end(evs, c, st, EndOf::Header, Seq::empty(), None);
        if !res.failed {
            let inl = crate::frontend::inline_label_match(text);
            let st2 = if crate::conversion::config_or_empty(cs).label is Some && inl is Some {
                crate::conversion::report(st1, crate::error::DiagnosticCode::MultipleLabels)
            } else {
                st1
            };
            let skip = st2.out.skip(n);
            lemma_strip(skip, inl);
            assert(st2.out =~= st.out + skip);
            lemma_depth_concat(st.out, skip);
            assert(st2.out.take(n) =~= st.out);
            let inner = strip_inline_label(skip, inl)->Some_0;
            assert(inner.take(inner.len() as int) =~= inner);
            assert(skip.take(skip.len() as int) =~= skip);
            assert(depth(inner.take(skip.len() as int)) == depth(skip.take(skip.len() as int)));
            assert(depth(inner) == depth(skip));
            assert(res.pos == st1.pos);
            let label = crate::conversion::header_label(
                crate::conversion::config_or_empty(cs).label,
                inl,
                match first {
                    Some(f) => f,
                    None => 0,
                },
                text,
                r,
            )->Some_0;
            let tag = crate::event::TagView::Header { label, level };
            let head = st.out.push(EventView::Start(tag));
            let out3 = head + inner;
            lemma_depth_push(st.out, EventView::Start(tag));
            lemma_depth_concat(head, inner);
            lemma_depth_push(out3, EventView::End(tag));
            assert(res.out == out3.push(EventView::End(tag)));
            // how deep every prefix of the result nests
            let f = input_floor(evs, st.pos, res.pos);
            lemma_input_floor_bounds(evs, st.pos, res.pos);
            let bound = depth(st.out) + low(1 + f);
            assert forall|k: int| n <= k <= res.out.len() implies #[trigger] depth(res.out.take(k)) >= bound by {
                if k == n {
                    assert(res.out.take(k) =~= st.out);
                } else if k < res.out.len() {
                    let i = k - n - 1;
                    assert(res.out.take(k) =~= head + inner.take(i));
                    lemma_depth_concat(head, inner.take(i));
                    assert(st2.out.take(n + i) =~= st.out + skip.take(i));
                    lemma_depth_concat(st.out, skip.take(i));
                    assert(depth(inner.take(i)) == depth(skip.take(i)));
                    assert(depth(st2.out.take(n + i)) >= depth(st.out) + low(f));
                } else {
                    assert(res.out.take(k) =~= res.out);
                    assert(depth(res.out) == depth(st.out) + input_depth(evs, st.pos, res.pos) + 1);
                }
            }
        }
    }
}

proof fn lemma_conv_code_block(
    evs: Input,
    c: ConvConfig,
    st: ConvState,
    lang: Seq<char>,
    r: SourceRange,
    cs: Option<CskvpView>,
)
    ensures
        kept_depth(evs, st, conv_code_block(evs, c, st, lang, r, cs), 1, 1),
    decreases evs.len() - st.pos, if has_comma(lang) && cs is None {
        7int
    } else {
        5int
    },
{
    if !bad(evs, st) && crate::text::utf8_len(lang) <= r.end {
        let cs_start = r.end - crate::text::utf8_len(lang);
        let sl = crate::frontend::split_language_spec(lang);
        match sl.1 {
            Some((rest, p)) => {
                let language = sl.0;
                let lspan = (cs_start, cs_start + crate::text::utf8_len(language));
                let inline = crate::cskvp::cskvp_spec(rest, cs_start + p + 1);
                let st1 = ConvState { diags: st.diags + inline.diags, ..st };
                match cs {
                    Some(_) => {
                        let st2 = crate::conversion::report(
                            st1,
                            crate::error::DiagnosticCode::CodeHasMultipleConfigs,
                        );
                        let st3 = crate::conversion::drop_config(
                            st2,
                            Some(crate::conversion::clean(inline)),
                            crate::conversion::clean(inline),
                        );
                        let ec = Some(crate::cskvp::empty_config());
                        lemma_same(evs, st, st3, 1);
                        lemma_code_body(evs, c, st3, language, lspan, ec);
                        lemma_chain(
                            evs,
                            st,
                            st3,
                            code_body(evs, c, st3, language, lspan, ec),
                            0,
                            1,
                            1,
                            1,
                            1,
                        );
                    },
                    None => {
                        let el = ElemView::CodeBlock(language);
                        let ci = crate::conversion::clean(inline);
                        lemma_same(evs, st, st1, 1);
                        lemma_handle_config(evs, c, st1, ci, el, r);
                        lemma_chain(evs, st, st1, handle_config(evs, c, st1, ci, el, r), 0, 1, 1, 1, 1);
                    },
                }
            },
            None => lemma_code_body(evs, c, st, lang, (cs_start, r.end as int), cs),
        }
    }
}

#[verifier::rlimit(30)]
proof fn lemma_code_body(
    evs: Input,
    c: ConvConfig,
    st: ConvState,
    language: Seq<char>,
    lspan: (int, int),
    cs: Option<CskvpView>,
)
    ensures
        kept_depth(evs, st, code_body(evs, c, st, language, lspan, cs), 1, 1),
    decreases evs.len() - st.pos, 4int,
{
    if !bad(evs, st) {
        let res = code_body(evs, c, st, language, lspan, cs);
        let k = crate::frontend::code_block_kind_spec(language);
        if k.0 == 3 || k.0 == 4 {
            let p = st.pos;
            if !res.failed {
                lemma_input_depth_one(evs, p);
                lemma_input_depth_one(evs, p + 1);
                lemma_input_depth_split(evs, p, p + 1, p + 2);
                let s1 = at(st, p + 2);
                let s2 = ConvState { out: s1.out, pos: s1.pos, failed: s1.failed, ..res };
                let e = res.out.last();
                lemma_at(evs, st, p + 2, 1);
                lemma_same(evs, s1, s2, 1);
                lemma_chain(evs, st, s1, s2, 1, 1, 0, 1, 1);
                assert(res.out =~= st.out.push(e));
                lemma_emit(evs, s2, e);
                assert(emit(s2, e) == res);
                lemma_chain(evs, st, s2, res, 1, 1, 0, 0, 1);
            }
        } else {
            let cv = crate::conversion::config_or_empty(cs);
            let s = crate::cskvp::remove_entry(cv.double, "scale"@);
            let w = crate::cskvp::remove_entry(s.1, "width"@);
            let h = crate::cskvp::remove_entry(w.1, "height"@);
            let tag = if k.0 == 0 {
                crate::event::TagView::Equation { label: cv.label, caption: cv.caption }
            } else if k.0 == 1 {
                crate::event::TagView::NumberedEquation { label: cv.label, caption: cv.caption }
            } else if k.0 == 2 {
                crate::event::TagView::Graphviz {
                    label: cv.label,
                    caption: cv.caption,
                    scale: s.0,
                    width: w.0,
                    height: h.0,
                }
            } else {
                crate::event::TagView::CodeBlock {
                    label: cv.label,
                    caption: cv.caption,
                    language: if k.1 is Some {
                        Some((language, lspan))
                    } else {
                        None
                    },
                }
            };
            let st1 = if k.0 == 5 && language == "sequence"@ {
                crate::conversion::report(st, crate::error::DiagnosticCode::NotYetImplemented)
            } else {
                st
            };
            lemma_same(evs, st, st1, 1);
            lemma_element(evs, c, st1, EndOf::CodeBlock, tag);
            let e = emit(
                until_end(evs, c, emit(st1, EventView::Start(tag)), EndOf::CodeBlock, Seq::empty(), None).0,
                EventView::End(tag),
            );
            lemma_chain(evs, st, st1, e, 0, 1, 1, 1, 1);
            lemma_same(evs, e, res, 1);
            lemma_chain(evs, st, e, res, 1, 1, 0, 1, 1);
        }
    }
}

proof fn lemma_conv_table(
    evs: Input,
    c: ConvConfig,
    st: ConvState,
    al: Seq<crate::latex_complex::Alignment>,
    cs: Option<CskvpView>,
)
    ensures
        kept_depth(evs, st, conv_table(evs, c, st, al, cs), 1, 1),
    decreases evs.len() - st.pos, 3int,
{
    if !bad(evs, st) {
        match crate::conversion::table_scan(evs, st.pos, crate::conversion::empty_columns(al.len() as int)) {
            None => {},
            Some(cols) => {
                let cv = crate::conversion::config_or_empty(cs);
                let tag = crate::event::TagView::Table {
                    label: cv.label,
                    caption: cv.caption,
                    columns: crate::conversion::zip_columns(al, cols),
                };
                lemma_element(evs, c, st, EndOf::Table, tag);
                let e = emit(
                    until_end(evs, c, emit(st, EventView::Start(tag)), EndOf::Table, Seq::empty(), None).0,
                    EventView::End(tag),
                );
                let res = conv_table(evs, c, st, al, cs);
                lemma_same(evs, e, res, 1);
                lemma_chain(evs, st, e, res, 1, 1, 0, 1, 1);
            },
        }
    }
}

proof fn lemma_conv_link(
    evs: Input,
    c: ConvConfig,
    st: ConvState,
    typ: crate::refs::LinkType,
    dst: Seq<char>,
    title: Seq<char>,
)
    ensures
        kept_depth(evs, st, conv_link(evs, c, st, typ, dst, title), 1, 1),
    decreases evs.len() - st.pos, 3int,
{
    if !bad(evs, st) {
        let is_cmd = crate::conversion::is_command_of(c, typ, dst, title);
        if crate::refs::parse_references_ok(c.has_bibliography, typ, dst, title, is_cmd) {
            let rv = crate::refs::spec_parse_references(c.has_bibliography, typ, dst, title, is_cmd);
            match rv {
                crate::refs::RefView::UrlWithContent(d, t) => {
                    lemma_element(
                        evs,
                        c,
                        st,
                        EndOf::Link,
                        crate::event::TagView::Url { destination: d, title: t },
                    );
                },
                crate::refs::RefView::InterLinkWithContent(l, u) => {
                    lemma_element(
                        evs,
                        c,
                        st,
                        EndOf::Link,
                        crate::event::TagView::InterLink { label: l, uppercase: u },
                    );
                },
                _ => {
                    let st1 = emit(st, crate::conversion::ref_event(rv));
                    lemma_emit(evs, st, crate::conversion::ref_event(rv));
                    lemma_consume_scan(evs, st.pos, 0);
                    if let Some(q) = consume_scan(evs, st.pos, 0) {
                        lemma_at(evs, st1, q, 1);
                        lemma_chain(evs, st, st1, at(st1, q), 0, 0, 1, 1, 1);
                    }
                },
            }
        }
    }
}

proof fn lemma_conv_image(
    evs: Input,
    st: ConvState,
    typ: crate::refs::LinkType,
    dst: Seq<char>,
    title: Seq<char>,
    cs: Option<CskvpView>,
)
    ensures
        kept_depth(evs, st, conv_image(evs, st, typ, dst, title, cs), 1, 1),
{
    if !bad(evs, st) {
        let res = conv_image(evs, st, typ, dst, title, cs);
        lemma_concat_scan(evs, st.pos, 0, Seq::empty());
        if !res.failed {
            let q = concat_scan(evs, st.pos, 0, Seq::empty())->Some_0.1;
            let s1 = at(st, q);
            let e = res.out.last();
            lemma_at(evs, st, q, 1);
            assert(res.out =~= st.out.push(e));
            lemma_emit(evs, s1, e);
            lemma_chain(evs, st, s1, emit(s1, e), 1, 1, 0, 0, 1);
            lemma_same(evs, emit(s1, e), res, 1);
            lemma_chain(evs, st, emit(s1, e), res, 1, 1, 0, 1, 1);
        }
    }
}

proof fn lemma_convert_from(evs: Input, c: ConvConfig, st: ConvState)
    requires
        0 <= st.pos <= evs.len(),
    ensures
        kept_depth(evs, st, convert_from(evs, c, st), 0, 0),
        !convert_from(evs, c, st).failed ==> convert_from(evs, c, st).pos == evs.len(),
    decreases evs.len() - st.pos,
{
    if !st.failed && st.pos < evs.len() {
        let e = evs[st.pos].0;
        let st1 = at(st, st.pos + 1);
        lemma_input_depth_one(evs, st.pos);
        lemma_at(evs, st, st.pos + 1, 0);
        let x = conv_event(evs, c, st1, e, evs[st.pos].1);
        lemma_conv_event(evs, c, st1, e, evs[st.pos].1);
        let st2 = after(evs, st1, x);
        lemma_after(evs, st1, x, opens_input(e), opens_input(e));
        lemma_convert_from(evs, c, st2);
        lemma_chain(evs, st, st1, st2, -opens_input(e), 0, opens_input(e), opens_input(e), 0);
        lemma_chain(evs, st, st2, convert_from(evs, c, st2), 0, 0, 0, 0, 0);
    } else {
        lemma_same(evs, st, st, 0);
    }
}

// ----------------------------------------------------------------------------------------
// laws

/// Events nest well: no prefix closes more elements than it opened, and all of them
/// together open as many as they close.
pub open spec fn nests(s: Seq<EventView>) -> bool {
    &&& forall|k: int| 0 <= k <= s.len() ==> #[trigger] depth(s.take(k)) >= 0
    &&& depth(s) == 0
}

/// The parser's events nest well.
pub open spec fn input_nests(evs: Input) -> bool {
    &&& forall|j: int| 0 <= j <= evs.len() ==> #[trigger] input_depth(evs, 0, j) >= 0
    &&& input_depth(evs, 0, evs.len() as int) == 0
}

proof fn lemma_input_floor_nonneg(evs: Input, b: int)
    requires
        0 <= b <= evs.len(),
        forall|j: int| 0 <= j <= evs.len() ==> #[trigger] input_depth(evs, 0, j) >= 0,
    ensures
        input_floor(evs, 0, b) >= 0,
    decreases b,
{
    if b > 0 {
        lemma_input_floor_nonneg(evs, b - 1);
        assert(input_depth(evs, 0, b) >= 0);
    }
}

/// A conversion that succeeds opens as many more elements than it closes as the parser's
/// events do: where the parser's events have as many starts as ends, so do the document
/// events.
pub proof fn law_conversion_keeps_depth(evs: Input, c: ConvConfig)
    ensures
        !conversion(evs, c).failed ==> depth(conversion(evs, c).out) == input_depth(
            evs,
            0,
            evs.len() as int,
        ),
{
    lemma_convert_from(evs, c, crate::conversion::start_state());
}

/// A conversion that succeeds on parser events that nest well yields document events that
/// nest well.
pub proof fn law_conversion_nests(evs: Input, c: ConvConfig)
    requires
        input_nests(evs),
    ensures
        !conversion(evs, c).failed ==> nests(conversion(evs, c).out),
{
    let st = crate::conversion::start_state();
    let r = conversion(evs, c);
    lemma_convert_from(evs, c, st);
    if !r.failed {
        lemma_input_floor_nonneg(evs, evs.len() as int);
        assert(st.out.len() == 0);
        assert(depth(st.out) == 0);
    }
}

} // verus!

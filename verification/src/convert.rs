//! The frontend: converts the markdown parser's events into document events.
//!
//! Each step is proved to compute what the spec function of the same name in
//! `conversion` says; `Frontend::convert` does all of the input.
use vstd::prelude::*;

use crate::conversion::{
    after, bad, concat_scan, consume_scan, conv_inline_code, conversion, convert_from, emit, ends,
    fail, inline_code_ok, moved, report, str_lines, start_state, ConvConfig, ConvState, EndOf,
    Input,
};
use crate::conversion::{
    joined_as, joined_from, text_run, Joined, config_or_empty, drop_config, elem_of, empty_columns, has_comma, ref_event,
    row_scan, svgbob_dst, table_scan, until_end, value_only, zip_columns, ElemView,
};
use crate::ext::CowExt;
use crate::refs::{
    RefView, biber_view, parse_references, references_ok, result_view, ReferenceParseResult,
};
use crate::refs::LinkType;
use crate::text::str_eq;
use crate::cskvp::{opt_sv, remove_entry, sv, Cskvp, CskvpView, Spanned};
use crate::error::DiagnosticCode;
use crate::event::{
    biber_refs_view, columns_view, event_view, events_view, opt_ranged, opt_view, range_view, ranged, strs_view,
    tag_view, CmarkEvent, CmarkTag, CodeBlock, Enumerate, Equation, Event, EventView, Figure,
    BiberReference, FootnoteDefinition, Graphviz, Header, Include, InterLink, ResolveSecurity, Table, Tag, TagView,
    Url,
};
use crate::latex_complex::Alignment;
use crate::range::WithRange;
use crate::conversion;
use crate::ext::char_index_of;
use crate::frontend::{
    autogenerated_label, code_block_kind, concat_piece, concat_piece_of, convert_direct,
    image_alt_text, is_consumed_end,
    inline_label, is_element_config, is_pagebreak, split_language, split_language_spec,
    CodeBlockKind,
};
use crate::frontend::{cmark_events, parse_markdown};
use crate::event::{cmark_event_view, cmark_events_view, CmarkEventView, CmarkTagView};
use crate::diagnostics::{first_line, first_line_end};
use crate::number::push_decimal;
use crate::range::SourceRange;
use crate::text::{
    char_width, chars_of, is_whitespace, push_char, push_str, string_from_range, utf8_len, width_of,
};

verus! {

/// The settings the frontend reads.
pub struct FrontendConfig {
    /// Whether elements with a config go into a figure unless the config says otherwise.
    pub figures: bool,
    pub has_bibliography: bool,
    /// The link destinations that are commands.
    pub commands: Vec<String>,
    /// The directory, with its trailing separator, where svgbob drawings are rendered to.
    pub svgbob_dir: String,
}

impl FrontendConfig {
    pub open spec fn view(&self) -> ConvConfig {
        ConvConfig {
            figures: self.figures,
            has_bibliography: self.has_bibliography,
            commands: strs_view(self.commands@),
            svgbob_dir: self.svgbob_dir@,
        }
    }
}

/// The state of a conversion.
struct ConvOut {
    pos: usize,
    out: Vec<Event>,
    diags: Vec<DiagnosticCode>,
    unused: Vec<Vec<Spanned<String>>>,
    svgbob: Vec<String>,
    failed: bool,
}

/// Notes with their ranges, mathematically.
pub open spec fn notes_view(v: Seq<Spanned<String>>) -> Seq<(Seq<char>, (int, int))> {
    Seq::new(v.len(), |i: int| sv(v[i]))
}

/// The notes of each warning, mathematically.
pub open spec fn notes_list_view(v: Seq<Vec<Spanned<String>>>) -> Seq<Seq<(Seq<char>, (int, int))>> {
    Seq::new(v.len(), |i: int| notes_view(v[i]@))
}

impl ConvOut {
    closed spec fn view(&self) -> ConvState {
        ConvState {
            pos: self.pos as int,
            out: events_view(self.out@),
            diags: self.diags@,
            unused: notes_list_view(self.unused@),
            svgbob: strs_view(self.svgbob@),
            failed: self.failed,
        }
    }
}

fn emit_event(st: &mut ConvOut, e: Event)
    ensures
        final(st).view() == emit(old(st).view(), event_view(e)),
{
    st.out.push(e);
    proof {
        assert(events_view(st.out@) =~= events_view(old(st).out@).push(event_view(e)));
    }
}

fn report_diag(st: &mut ConvOut, d: DiagnosticCode)
    ensures
        final(st).view() == report(old(st).view(), d),
{
    st.diags.push(d);
}

fn set_failed(st: &mut ConvOut)
    ensures
        final(st).view() == fail(old(st).view()),
{
    st.failed = true;
}

/// The view of an optional position.
spec fn opt_int(o: Option<usize>) -> Option<int> {
    match o {
        Some(x) => Some(x as int),
        None => None,
    }
}

/// A step that returned `st1` from `st0`, which it moved forward, is kept as it is.
proof fn lemma_after(evs: Input, st0: ConvState, st1: ConvState)
    requires
        moved(evs, st0, st1),
        bad(evs, st0) ==> st1 == fail(st0),
    ensures
        after(evs, st0, st1) == st1,
{
}

// ----------------------------------------------------------------------------------------
// scanning

/// `concat_scan` from `q`, with nothing open.
fn concat_scan_from(evs: &Vec<(CmarkEvent, SourceRange)>, q: usize) -> (r: Option<(String, usize)>)
    ensures
        match concat_scan(evs@, q as int, 0, Seq::empty()) {
            None => r is None,
            Some((t, q2)) => r matches Some((s, q3)) && s@ == t && q3 as int == q2,
        },
        r matches Some((_, q2)) ==> q < q2 <= evs@.len(),
{
    let mut i = q;
    let mut nest: usize = 0;
    let mut acc = String::new();
    if i > evs.len() {
        return None;
    }
    while i < evs.len()
        invariant
            q <= i <= evs@.len(),
            nest <= i - q,
            concat_scan(evs@, i as int, nest as int, acc@) == concat_scan(
                evs@,
                q as int,
                0,
                Seq::empty(),
            ),
        decreases evs@.len() - i,
    {
        match &evs[i].0 {
            CmarkEvent::Start(_) => {
                nest = nest + 1;
            },
            CmarkEvent::End(_) => {
                if nest > 0 {
                    nest = nest - 1;
                } else {
                    return Some((acc, i + 1));
                }
            },
            e => {
                let piece = concat_piece_of(e);
                push_str(&mut acc, piece.as_str());
            },
        }
        i = i + 1;
    }
    None
}

/// `consume_scan` from `q`, with nothing open.
fn consume_scan_from(evs: &Vec<(CmarkEvent, SourceRange)>, q: usize) -> (r: Option<usize>)
    ensures
        match consume_scan(evs@, q as int, 0) {
            None => r is None,
            Some(q2) => r matches Some(x) && x as int == q2,
        },
        r matches Some(q2) ==> q < q2 <= evs@.len(),
{
    let mut i = q;
    let mut nest: usize = 0;
    if i > evs.len() {
        return None;
    }
    while i < evs.len()
        invariant
            q <= i <= evs@.len(),
            nest <= i - q,
            consume_scan(evs@, i as int, nest as int) == consume_scan(evs@, q as int, 0),
        decreases evs@.len() - i,
    {
        match &evs[i].0 {
            CmarkEvent::Start(_) => {
                nest = nest + 1;
            },
            CmarkEvent::End(_) => {
                if nest > 0 {
                    nest = nest - 1;
                } else {
                    return Some(i + 1);
                }
            },
            _ => {},
        }
        i = i + 1;
    }
    None
}

/// The lines of a text (`str::lines`).
pub fn lines_of(t: &str) -> (r: Vec<String>)
    ensures
        strs_view(r@) == str_lines(t@),
{
    let mut cur = chars_of(t);
    let mut out: Vec<String> = Vec::new();
    while cur.len() > 0
        invariant
            strs_view(out@) + str_lines(cur@) == str_lines(t@),
        decreases cur@.len(),
    {
        let ghost c0 = cur@;
        let mut p: usize = 0;
        while p < cur.len() && cur[p] != '\n'
            invariant
                p <= cur@.len(),
                cur@ == c0,
                crate::refs::first_from(c0, '\n', p as int) == crate::refs::first_from(c0, '\n', 0),
            decreases cur@.len() - p,
        {
            p = p + 1;
        }
        proof {
            crate::refs::lemma_first_from(c0, '\n', 0);
        }
        let ghost before = out@;
        if p < cur.len() {
            let end = if p > 0 && cur[p - 1] == '\r' {
                p - 1
            } else {
                p
            };
            let line = string_from_range(cur.as_slice(), 0, end);
            proof {
                let l = c0.take(p as int);
                if p > 0 && c0[p - 1] == '\r' {
                    assert(line@ =~= l.drop_last());
                } else {
                    assert(line@ =~= l);
                }
            }
            out.push(line);
            let rest = cur.split_off(p + 1);
            let ghost r = rest@;
            proof {
                assert(r =~= c0.skip(p + 1));
                assert(strs_view(out@) =~= strs_view(before).push(line@));
                assert(str_lines(c0) =~= seq![line@] + str_lines(r));
                assert(strs_view(out@) + str_lines(r) =~= strs_view(before) + (seq![line@]
                    + str_lines(r)));
            }
            cur = rest;
        } else {
            let line = string_from_range(cur.as_slice(), 0, p);
            proof {
                assert(line@ =~= c0.take(p as int));
                assert(str_lines(c0) =~= seq![line@]);
            }
            out.push(line);
            proof {
                assert(strs_view(out@) =~= strs_view(before).push(line@));
            }
            cur = Vec::new();
            proof {
                assert(str_lines(cur@) =~= Seq::<Seq<char>>::empty());
                assert(strs_view(out@) + str_lines(cur@) =~= strs_view(before) + seq![line@]);
            }
        }
    }
    proof {
        assert(str_lines(cur@) =~= Seq::<Seq<char>>::empty());
        assert(strs_view(out@) + str_lines(cur@) =~= strs_view(out@));
    }
    out
}

// ----------------------------------------------------------------------------------------
// single events

fn conv_inline_code_exec(st: &mut ConvOut, t: &String)
    ensures
        final(st).view() == conv_inline_code(old(st).view(), t@),
{
    let v = chars_of(t.as_str());
    if v.len() >= 2 && is_whitespace(v[1]) && (v[0] == '$' || v[0] == '\\') && width_of(v[1]) != 1 {
        set_failed(st);
        return;
    }
    let mut evs = crate::frontend::convert_inline_code(t.clone());
    let ghost all = evs@;
    let ghost s0 = st.view();
    proof {
        assert(all.take(0) =~= Seq::<Event>::empty());
        assert(events_view(all.take(0)) =~= Seq::<crate::event::EventView>::empty());
        assert(s0.out + events_view(all.take(0)) =~= s0.out);
    }
    while evs.len() > 0
        invariant
            0 <= all.len() - evs@.len() <= all.len(),
            evs@ == all.skip(all.len() - evs@.len()),
            st.view() == (ConvState {
                out: s0.out + events_view(all.take(all.len() - evs@.len())),
                ..s0
            }),
        decreases evs@.len(),
    {
        let ghost k = all.len() - evs@.len();
        let e = evs.remove(0);
        emit_event(st, e);
        proof {
            assert(all.take(k + 1) =~= all.take(k).push(e));
            assert(evs@ =~= all.skip(k + 1));
            assert(events_view(all.take(k + 1)) =~= events_view(all.take(k)).push(event_view(e)));
        }
    }
    proof {
        assert(all.take(all.len() as int) =~= all);
        match crate::frontend::inline_code_spec(t@) {
            crate::frontend::InlineCodeView::Math(m) => {
                assert(events_view(all) =~= seq![
                    EventView::Start(TagView::InlineMath),
                    EventView::Text(m),
                    EventView::End(TagView::InlineMath),
                ]);
                assert(s0.out + events_view(all) =~= s0.out.push(
                    EventView::Start(TagView::InlineMath),
                ).push(EventView::Text(m)).push(
                    EventView::End(TagView::InlineMath),
                ));
            },
            crate::frontend::InlineCodeView::Latex(l) => {
                assert(events_view(all) =~= seq![EventView::Latex(l)]);
                assert(s0.out + events_view(all) =~= s0.out.push(EventView::Latex(l)));
            },
            crate::frontend::InlineCodeView::Code(c) => {
                assert(events_view(all) =~= seq![
                    EventView::Start(TagView::InlineCode),
                    EventView::Text(c),
                    EventView::End(TagView::InlineCode),
                ]);
                assert(s0.out + events_view(all) =~= s0.out.push(
                    EventView::Start(TagView::InlineCode),
                ).push(EventView::Text(c)).push(
                    EventView::End(TagView::InlineCode),
                ));
            },
        }
    }
}

// ----------------------------------------------------------------------------------------
// copies of tags and configs

fn copy_ranged(w: &WithRange<String>) -> (r: WithRange<String>)
    ensures
        ranged(r) == ranged(*w),
{
    WithRange(w.0.clone(), w.1)
}

fn copy_opt_ranged(o: &Option<WithRange<String>>) -> (r: Option<WithRange<String>>)
    ensures
        opt_ranged(r) == opt_ranged(*o),
{
    match o {
        Some(w) => Some(copy_ranged(w)),
        None => None,
    }
}

fn copy_opt_string(o: &Option<String>) -> (r: Option<String>)
    ensures
        opt_view(r) == opt_view(*o),
{
    match o {
        Some(s) => Some(s.clone()),
        None => None,
    }
}

fn copy_strings(v: &Vec<String>) -> (r: Vec<String>)
    ensures
        strs_view(r@) == strs_view(v@),
{
    let mut out: Vec<String> = Vec::new();
    let mut i: usize = 0;
    while i < v.len()
        invariant
            i <= v@.len(),
            strs_view(out@) == strs_view(v@.take(i as int)),
        decreases v@.len() - i,
    {
        let x = v[i].clone();
        let ghost before = out@;
        out.push(x);
        proof {
            assert(v@.take(i + 1) =~= v@.take(i as int).push(v@[i as int]));
            assert(strs_view(out@) =~= strs_view(before).push(x@));
            assert(strs_view(v@.take(i + 1)) =~= strs_view(v@.take(i as int)).push(v@[i as int]@));
        }
        i = i + 1;
    }
    assert(v@.take(i as int) =~= v@);
    out
}

fn copy_columns(v: &Vec<(Alignment, Vec<String>)>) -> (r: Vec<(Alignment, Vec<String>)>)
    ensures
        columns_view(r@) == columns_view(v@),
{
    let mut out: Vec<(Alignment, Vec<String>)> = Vec::new();
    let mut i: usize = 0;
    while i < v.len()
        invariant
            i <= v@.len(),
            columns_view(out@) == columns_view(v@.take(i as int)),
        decreases v@.len() - i,
    {
        let a = v[i].0;
        let lines = copy_strings(&v[i].1);
        let ghost before = out@;
        out.push((a, lines));
        proof {
            assert(v@.take(i + 1) =~= v@.take(i as int).push(v@[i as int]));
            assert(columns_view(out@) =~= columns_view(before).push((a, strs_view(lines@))));
            assert(columns_view(v@.take(i + 1)) =~= columns_view(v@.take(i as int)).push(
                (v@[i as int].0, strs_view(v@[i as int].1@)),
            ));
        }
        i = i + 1;
    }
    assert(v@.take(i as int) =~= v@);
    out
}

fn copy_alignments(v: &Vec<Alignment>) -> (r: Vec<Alignment>)
    ensures
        r@ == v@,
{
    let mut out: Vec<Alignment> = Vec::new();
    let mut i: usize = 0;
    while i < v.len()
        invariant
            i <= v@.len(),
            out@ == v@.take(i as int),
        decreases v@.len() - i,
    {
        out.push(v[i]);
        proof {
            assert(v@.take(i + 1) =~= v@.take(i as int).push(v@[i as int]));
        }
        i = i + 1;
    }
    assert(v@.take(i as int) =~= v@);
    out
}

/// A copy of a tag, for its end event.
fn copy_tag(t: &Tag) -> (r: Tag)
    ensures
        tag_view(r) == tag_view(*t),
{
    match t {
        Tag::Paragraph => Tag::Paragraph,
        Tag::Header(h) => Tag::Header(Header { label: copy_ranged(&h.label), level: h.level }),
        Tag::BlockQuote => Tag::BlockQuote,
        Tag::CodeBlock(c) => Tag::CodeBlock(
            CodeBlock {
                label: copy_opt_ranged(&c.label),
                caption: copy_opt_ranged(&c.caption),
                language: copy_opt_ranged(&c.language),
            },
        ),
        Tag::List => Tag::List,
        Tag::Enumerate(e) => Tag::Enumerate(Enumerate { start_number: e.start_number }),
        Tag::Item => Tag::Item,
        Tag::FootnoteDefinition(f) => Tag::FootnoteDefinition(
            FootnoteDefinition { label: f.label.clone() },
        ),
        Tag::Url(u) => Tag::Url(
            Url { destination: u.destination.clone(), title: copy_opt_string(&u.title) },
        ),
        Tag::InterLink(l) => Tag::InterLink(
            InterLink { label: l.label.clone(), uppercase: l.uppercase },
        ),
        Tag::Figure(f) => Tag::Figure(
            Figure { label: copy_opt_ranged(&f.label), caption: copy_opt_ranged(&f.caption) },
        ),
        Tag::TableFigure(f) => Tag::TableFigure(
            Figure { label: copy_opt_ranged(&f.label), caption: copy_opt_ranged(&f.caption) },
        ),
        Tag::Table(t) => Tag::Table(
            Table {
                label: copy_opt_ranged(&t.label),
                caption: copy_opt_ranged(&t.caption),
                columns: copy_columns(&t.columns),
            },
        ),
        Tag::TableHead => Tag::TableHead,
        Tag::TableRow => Tag::TableRow,
        Tag::TableCell => Tag::TableCell,
        Tag::InlineEmphasis => Tag::InlineEmphasis,
        Tag::InlineStrong => Tag::InlineStrong,
        Tag::InlineStrikethrough => Tag::InlineStrikethrough,
        Tag::InlineCode => Tag::InlineCode,
        Tag::InlineMath => Tag::InlineMath,
        Tag::Equation(e) => Tag::Equation(
            Equation { label: copy_opt_ranged(&e.label), caption: copy_opt_ranged(&e.caption) },
        ),
        Tag::NumberedEquation(e) => Tag::NumberedEquation(
            Equation { label: copy_opt_ranged(&e.label), caption: copy_opt_ranged(&e.caption) },
        ),
        Tag::Graphviz(g) => Tag::Graphviz(
            Graphviz {
                label: copy_opt_ranged(&g.label),
                caption: copy_opt_ranged(&g.caption),
                scale: copy_opt_ranged(&g.scale),
                width: copy_opt_ranged(&g.width),
                height: copy_opt_ranged(&g.height),
            },
        ),
    }
}

/// The view of an optional config.
spec fn cs_view(o: Option<Cskvp>) -> Option<CskvpView> {
    match o {
        Some(c) => Some(c.view()),
        None => None,
    }
}

/// A config value as a value with its range.
fn with_range(o: Option<Spanned<String>>) -> (r: Option<WithRange<String>>)
    ensures
        opt_ranged(r) == opt_sv(o),
{
    match o {
        Some(x) => Some(WithRange(x.value, x.span)),
        None => None,
    }
}

fn cs_take_label(cs: Option<Cskvp>) -> (r: (Option<WithRange<String>>, Option<Cskvp>))
    ensures
        opt_ranged(r.0) == config_or_empty(cs_view(cs)).label,
        cs_view(r.1) == match cs_view(cs) {
            Some(v) => Some(CskvpView { label: None, ..v }),
            None => None,
        },
{
    match cs {
        Some(mut c) => {
            let l = c.take_label();
            (with_range(l), Some(c))
        },
        None => (None, None),
    }
}

fn cs_take_caption(cs: Option<Cskvp>) -> (r: (Option<WithRange<String>>, Option<Cskvp>))
    ensures
        opt_ranged(r.0) == config_or_empty(cs_view(cs)).caption,
        cs_view(r.1) == match cs_view(cs) {
            Some(v) => Some(CskvpView { caption: None, ..v }),
            None => None,
        },
{
    match cs {
        Some(mut c) => {
            let l = c.take_caption();
            (with_range(l), Some(c))
        },
        None => (None, None),
    }
}

fn cs_take_double(cs: Option<Cskvp>, key: &str) -> (r: (Option<WithRange<String>>, Option<Cskvp>))
    ensures
        opt_ranged(r.0) == remove_entry(config_or_empty(cs_view(cs)).double, key@).0,
        cs_view(r.1) == match cs_view(cs) {
            Some(v) => Some(CskvpView { double: remove_entry(v.double, key@).1, ..v }),
            None => None,
        },
{
    match cs {
        Some(mut c) => {
            let l = c.take_double(key);
            (with_range(l), Some(c))
        },
        None => {
            proof {
                assert(remove_entry(Seq::<(Seq<char>, (Seq<char>, (int, int)))>::empty(), key@).0
                    is None);
            }
            (None, None)
        },
    }
}

/// An element is done with its config: a warning about what is left of it.
fn drop_config_exec(st: &mut ConvOut, cs: Option<Cskvp>)
    ensures
        final(st).view() == drop_config(old(st).view(), cs_view(cs), config_or_empty(cs_view(cs))),
{
    match cs {
        Some(mut c) => {
            let notes = c.unused_attributes();
            proof {
                reveal(crate::conversion::has_unused);
            }
            if notes.len() > 0 {
                report_diag(st, DiagnosticCode::UnknownAttributesInElementConfig);
                let ghost before = st.unused@;
                st.unused.push(notes);
                proof {
                    assert(notes_list_view(st.unused@) =~= notes_list_view(before).push(
                        notes_view(st.unused@.last()@),
                    ));
                }
            } else {
                proof {
                    assert(Seq::new(notes@.len(), |i: int| sv(notes@[i])).len() == 0);
                }
            }
        },
        None => {},
    }
}

// ----------------------------------------------------------------------------------------
// tests on parser events

fn ends_exec(e: &CmarkEvent, k: EndOf) -> (r: bool)
    ensures
        r == ends(*e, k),
{
    match e {
        CmarkEvent::End(t) => match t {
            CmarkTag::CodeBlock(_) => k == EndOf::CodeBlock,
            CmarkTag::Paragraph => k == EndOf::Paragraph,
            CmarkTag::Header(_) => k == EndOf::Header,
            CmarkTag::Table(_) => k == EndOf::Table,
            CmarkTag::Link(..) => k == EndOf::Link,
            _ => false,
        },
        _ => false,
    }
}

fn is_consumed_end_exec(e: &CmarkEvent) -> (r: bool)
    ensures
        r == is_consumed_end(*e),
{
    match e {
        CmarkEvent::End(CmarkTag::CodeBlock(_)) | CmarkEvent::End(CmarkTag::Paragraph)
        | CmarkEvent::End(CmarkTag::Header(_)) | CmarkEvent::End(CmarkTag::Table(_))
        | CmarkEvent::End(CmarkTag::Link(..)) | CmarkEvent::End(CmarkTag::Image(..)) => true,
        _ => false,
    }
}

fn is_end_paragraph(e: &CmarkEvent) -> (r: bool)
    ensures
        r == (*e matches CmarkEvent::End(CmarkTag::Paragraph)),
{
    match e {
        CmarkEvent::End(CmarkTag::Paragraph) => true,
        _ => false,
    }
}

fn is_soft_break(e: &CmarkEvent) -> (r: bool)
    ensures
        r == (*e matches CmarkEvent::SoftBreak),
{
    match e {
        CmarkEvent::SoftBreak => true,
        _ => false,
    }
}

fn is_end_code_block(e: &CmarkEvent) -> (r: bool)
    ensures
        r == (*e matches CmarkEvent::End(CmarkTag::CodeBlock(_))),
{
    match e {
        CmarkEvent::End(CmarkTag::CodeBlock(_)) => true,
        _ => false,
    }
}

/// An element that takes a config before it.
enum Elem {
    Header(i32),
    CodeBlock(String),
    Table(Vec<Alignment>),
    Image(LinkType, String, String),
}

spec fn elem_view(e: Elem) -> ElemView {
    match e {
        Elem::Header(l) => ElemView::Header(l as int),
        Elem::CodeBlock(l) => ElemView::CodeBlock(l@),
        Elem::Table(a) => ElemView::Table(a@),
        Elem::Image(t, d, ti) => ElemView::Image(t, d@, ti@),
    }
}

fn elem_from(e: &CmarkEvent) -> (r: Option<Elem>)
    ensures
        match elem_of(*e) {
            Some(v) => r matches Some(x) && elem_view(x) == v,
            None => r is None,
        },
{
    match e {
        CmarkEvent::Start(CmarkTag::Header(l)) => Some(Elem::Header(*l)),
        CmarkEvent::Start(CmarkTag::CodeBlock(l)) => Some(Elem::CodeBlock(l.clone())),
        CmarkEvent::Start(CmarkTag::Table(a)) => Some(Elem::Table(copy_alignments(a))),
        CmarkEvent::Start(CmarkTag::Image(t, d, ti)) => Some(
            Elem::Image(*t, d.clone(), ti.clone()),
        ),
        _ => None,
    }
}

/// Whether `t` is one of `v`.
fn contains_str(v: &Vec<String>, t: &str) -> (r: bool)
    ensures
        r == strs_view(v@).contains(t@),
{
    let mut i: usize = 0;
    while i < v.len()
        invariant
            i <= v@.len(),
            forall|j: int| 0 <= j < i ==> v@[j]@ != t@,
        decreases v@.len() - i,
    {
        if str_eq(v[i].as_str(), t) {
            assert(strs_view(v@)[i as int] == t@);
            return true;
        }
        i = i + 1;
    }
    proof {
        if strs_view(v@).contains(t@) {
            let j = choose|j: int| 0 <= j < strs_view(v@).len() && strs_view(v@)[j] == t@;
            assert(v@[j]@ == t@);
        }
    }
    false
}

// ----------------------------------------------------------------------------------------
// the steps

/// The common promise of the steps: their state is what the spec says, moved forward.
spec fn stepped(evs: Input, st0: ConvState, st1: ConvState, spec_st: ConvState) -> bool {
    &&& st1 == spec_st
    &&& moved(evs, st0, st1)
}

fn until_end_exec(evs: &Vec<(CmarkEvent, SourceRange)>, c: &FrontendConfig, st: &mut ConvOut, k: EndOf) -> (r: (
    String,
    Option<usize>,
))
    ensures
        stepped(
            evs@,
            old(st).view(),
            final(st).view(),
            until_end(evs@, c.view(), old(st).view(), k, Seq::empty(), None).0,
        ),
        r.0@ == until_end(evs@, c.view(), old(st).view(), k, Seq::empty(), None).1,
        opt_int(r.1) == until_end(evs@, c.view(), old(st).view(), k, Seq::empty(), None).2,
    decreases evs@.len() - old(st).pos, 0int,
{
    let ghost st0 = st.view();
    let mut text = String::new();
    let mut first: Option<usize> = None;
    let mut nonempty = false;
    if st.failed || st.pos > evs.len() {
        set_failed(st);
        return (text, first);
    }
    loop
        invariant
            until_end(evs@, c.view(), st.view(), k, text@, opt_int(first)) == until_end(
                evs@,
                c.view(),
                st0,
                k,
                Seq::empty(),
                None,
            ),
            moved(evs@, st0, st.view()),
            st0 == old(st).view(),
            !st.failed,
            st.pos <= evs@.len(),
            st0.pos <= st.pos,
            nonempty == (text@.len() > 0),
        decreases evs@.len() - st.pos,
    {
        if st.pos >= evs.len() {
            set_failed(st);
            return (text, first);
        }
        let ghost sh = st.view();
        let ghost th = text@;
        let ghost fh = opt_int(first);
        let i = st.pos;
        let r = evs[i].1;
        if first.is_none() {
            first = Some(r.start);
        }
        st.pos = i + 1;
        if ends_exec(&evs[i].0, k) {
            return (text, first);
        }
        let ghost t0 = text@;
        proof {
            if let CmarkEvent::Text(t) = evs@[i as int].0 {
                if t@.len() > 0 {
                    crate::text::lemma_char_width(t@.last());
                }
            }
        }
        match &evs[i].0 {
            CmarkEvent::Text(t) => {
                if nonempty {
                    push_char(&mut text, ' ');
                }
                push_str(&mut text, t.as_str());
                proof {
                    reveal_strlit(" ");
                    if !nonempty {
                        assert(text@ =~= t@);
                    } else {
                        assert(text@ =~= t0 + " "@ + t@);
                    }
                }
                nonempty = nonempty || crate::ext::byte_len(t.as_str()) > 0;
            },
            _ => {},
        }
        let ghost s1 = st.view();
        conv_event_exec(evs, c, st, &evs[i].0, r);
        proof {
            lemma_after(evs@, s1, st.view());
            assert(until_end(evs@, c.view(), sh, k, th, fh) == until_end(
                evs@,
                c.view(),
                st.view(),
                k,
                text@,
                opt_int(first),
            ));
        }
        if st.failed {
            assert(until_end(evs@, c.view(), st.view(), k, text@, opt_int(first)) == (
                st.view(),
                text@,
                opt_int(first),
            ));
            return (text, first);
        }
    }
}

fn conv_event_exec(
    evs: &Vec<(CmarkEvent, SourceRange)>,
    c: &FrontendConfig,
    st: &mut ConvOut,
    e: &CmarkEvent,
    r: SourceRange,
)
    ensures
        stepped(evs@, old(st).view(), final(st).view(), conversion::conv_event(evs@, c.view(), old(st).view(), *e, r)),
    decreases evs@.len() - old(st).pos, 14int,
{
    if st.failed || st.pos > evs.len() {
        set_failed(st);
        return;
    }
    match e {
        CmarkEvent::Code(t) => conv_inline_code_exec(st, t),
        CmarkEvent::Start(CmarkTag::CodeBlock(l)) => conv_code_block_exec(evs, c, st, l.clone(), r, None),
        CmarkEvent::Start(CmarkTag::Paragraph) => conv_paragraph_exec(evs, c, st, r),
        CmarkEvent::Start(CmarkTag::Header(level)) => conv_header_exec(evs, c, st, *level, r, None),
        CmarkEvent::Start(CmarkTag::Table(al)) => conv_table_exec(evs, c, st, copy_alignments(al), None),
        CmarkEvent::Start(CmarkTag::Link(typ, dst, title)) => conv_link_exec(evs, c, st, *typ, dst, title),
        CmarkEvent::Start(CmarkTag::Image(typ, dst, title)) => conv_image_exec(
            evs,
            st,
            *typ,
            dst.clone(),
            title.clone(),
            None,
        ),
        _ => {
            if is_consumed_end_exec(e) {
                set_failed(st);
            } else {
                let d = convert_direct(e);
                emit_event(st, d);
            }
        },
    }
}

fn plain_paragraph_exec(evs: &Vec<(CmarkEvent, SourceRange)>, c: &FrontendConfig, st: &mut ConvOut)
    ensures
        stepped(evs@, old(st).view(), final(st).view(), conversion::plain_paragraph(evs@, c.view(), old(st).view())),
    decreases evs@.len() - old(st).pos, 2int,
{
    if st.failed || st.pos > evs.len() {
        set_failed(st);
        return;
    }
    emit_event(st, Event::Start(Tag::Paragraph));
    until_end_exec(evs, c, st, EndOf::Paragraph);
    emit_event(st, Event::End(Tag::Paragraph));
}

fn text_paragraph_exec(evs: &Vec<(CmarkEvent, SourceRange)>, c: &FrontendConfig, st: &mut ConvOut, t: String)
    ensures
        stepped(evs@, old(st).view(), final(st).view(), conversion::text_paragraph(evs@, c.view(), old(st).view(), t@)),
    decreases evs@.len() - old(st).pos, 2int,
{
    if st.failed || st.pos > evs.len() {
        set_failed(st);
        return;
    }
    emit_event(st, Event::Start(Tag::Paragraph));
    emit_event(st, Event::Text(t));
    until_end_exec(evs, c, st, EndOf::Paragraph);
    emit_event(st, Event::End(Tag::Paragraph));
}

fn finish_paragraph_exec(evs: &Vec<(CmarkEvent, SourceRange)>, c: &FrontendConfig, st: &mut ConvOut, end_par: bool)
    ensures
        stepped(evs@, old(st).view(), final(st).view(), conversion::finish_paragraph(evs@, c.view(), old(st).view(), end_par)),
    decreases evs@.len() - old(st).pos, 2int,
{
    if st.failed || st.pos > evs.len() {
        set_failed(st);
        return;
    }
    if !end_par {
        until_end_exec(evs, c, st, EndOf::Paragraph);
        emit_event(st, Event::End(Tag::Paragraph));
    }
}

fn conv_paragraph_exec(evs: &Vec<(CmarkEvent, SourceRange)>, c: &FrontendConfig, st: &mut ConvOut, r: SourceRange)
    ensures
        stepped(evs@, old(st).view(), final(st).view(), conversion::conv_paragraph(evs@, c.view(), old(st).view(), r)),
    decreases evs@.len() - old(st).pos, 13int,
{
    if st.failed || st.pos >= evs.len() {
        set_failed(st);
        return;
    }
    let p = st.pos;
    let is_break = match &evs[p].0 {
        CmarkEvent::Text(t) => is_pagebreak(t.as_str()),
        _ => false,
    };
    if is_break {
        if p + 1 >= evs.len() {
            set_failed(st);
            return;
        }
        if is_end_paragraph(&evs[p + 1].0) {
            st.pos = p + 2;
            emit_event(st, Event::PageBreak);
            return;
        }
    }
    paragraph_config_exec(evs, c, st);
}

fn paragraph_config_exec(evs: &Vec<(CmarkEvent, SourceRange)>, c: &FrontendConfig, st: &mut ConvOut)
    ensures
        stepped(evs@, old(st).view(), final(st).view(), conversion::paragraph_config(evs@, c.view(), old(st).view())),
    decreases evs@.len() - old(st).pos, 12int,
{
    if st.failed || st.pos >= evs.len() {
        plain_paragraph_exec(evs, c, st);
        return;
    }
    let p = st.pos;
    match &evs[p].0 {
        CmarkEvent::Text(t) => {
            if !is_element_config(t.as_str()) {
                plain_paragraph_exec(evs, c, st);
            } else if p + 1 >= evs.len() || !(is_end_paragraph(&evs[p + 1].0) || is_soft_break(
                &evs[p + 1].0,
            )) {
                st.pos = p + 1;
                text_paragraph_exec(evs, c, st, t.clone());
            } else {
                let end_par = is_end_paragraph(&evs[p + 1].0);
                st.pos = p + 2;
                config_paragraph_exec(evs, c, st, t.clone(), evs[p].1, end_par);
            }
        },
        _ => plain_paragraph_exec(evs, c, st),
    }
}

fn config_paragraph_exec(
    evs: &Vec<(CmarkEvent, SourceRange)>,
    c: &FrontendConfig,
    st: &mut ConvOut,
    t: String,
    tr: SourceRange,
    end_par: bool,
)
    ensures
        stepped(evs@, old(st).view(), final(st).view(), conversion::config_paragraph(evs@, c.view(), old(st).view(), t@, tr, end_par)),
    decreases evs@.len() - old(st).pos, 11int,
{
    if st.failed || st.pos > evs.len() {
        set_failed(st);
        return;
    }
    if !end_par {
        emit_event(st, Event::Start(Tag::Paragraph));
    }
    let v = chars_of(t.as_str());
    let n = v.len();
    if n < 2 || width_of(v[0]) != 1 || width_of(v[n - 1]) != 1 || tr.end == 0 || tr.start == usize::MAX {
        set_failed(st);
        return;
    }
    let inner = string_from_range(v.as_slice(), 1, n - 1);
    let cstart = tr.start + 1;
    let ib = crate::ext::byte_len(inner.as_str());
    if ib > usize::MAX - cstart {
        set_failed(st);
        return;
    }
    let content = SourceRange { start: cstart, end: tr.end - 1 };
    let cv = Cskvp::new(inner, tr, content, &mut st.diags);
    apply_config_exec(evs, c, st, cv, end_par);
}

fn apply_config_exec(
    evs: &Vec<(CmarkEvent, SourceRange)>,
    c: &FrontendConfig,
    st: &mut ConvOut,
    cv: Cskvp,
    end_par: bool,
)
    ensures
        stepped(evs@, old(st).view(), final(st).view(), conversion::apply_config(evs@, c.view(), old(st).view(), cv.view(), end_par)),
    decreases evs@.len() - old(st).pos, 10int,
{
    if st.failed || st.pos >= evs.len() {
        set_failed(st);
        return;
    }
    let p = st.pos;
    match elem_from(&evs[p].0) {
        Some(el) => {
            let r = evs[p].1;
            apply_to_element(evs, c, st, cv, el, r, end_par);
        },
        None => {
            apply_as_label(evs, c, st, cv, end_par);
        },
    }
}

/// A paragraph's config applied to the element after it.
fn apply_to_element(
    evs: &Vec<(CmarkEvent, SourceRange)>,
    c: &FrontendConfig,
    st: &mut ConvOut,
    cv: Cskvp,
    el: Elem,
    r: SourceRange,
    end_par: bool,
)
    requires
        !bad(evs@, old(st).view()),
        old(st).pos < evs@.len(),
    ensures
        stepped(
            evs@,
            old(st).view(),
            final(st).view(),
            conversion::finish_paragraph(
                evs@,
                c.view(),
                after(
                    evs@,
                    old(st).view(),
                    conversion::handle_config(
                        evs@,
                        c.view(),
                        conversion::at(old(st).view(), old(st).pos + 1),
                        cv.view(),
                        elem_view(el),
                        r,
                    ),
                ),
                end_par,
            ),
        ),
    decreases evs@.len() - old(st).pos, 9int,
{
    let ghost s0 = st.view();
    let _n = evs.len();
    st.pos = st.pos + 1;
    let ghost s1 = st.view();
    handle_config_exec(evs, c, st, cv, el, r);
    proof {
        assert(s1 == conversion::at(s0, s0.pos + 1));
        assert(!bad(evs@, s1));
        assert(after(evs@, s0, st.view()) == st.view());
    }
    finish_paragraph_exec(evs, c, st, end_par);
}

/// A paragraph's config before an element that takes none: its label, if any.
#[verifier::rlimit(30)]
fn apply_as_label(
    evs: &Vec<(CmarkEvent, SourceRange)>,
    c: &FrontendConfig,
    st: &mut ConvOut,
    cv: Cskvp,
    end_par: bool,
)
    requires
        !bad(evs@, old(st).view()),
    ensures
        stepped(
            evs@,
            old(st).view(),
            final(st).view(),
            drop_config(
                conversion::finish_paragraph(
                    evs@,
                    c.view(),
                    match cv.view().label {
                        None => report(old(st).view(), DiagnosticCode::UnapplicableElementConfig),
                        Some((l, _)) => emit(old(st).view(), EventView::Label(l)),
                    },
                    end_par,
                ),
                Some(cv.view()),
                CskvpView { label: None, ..cv.view() },
            ),
        ),
    decreases evs@.len() - old(st).pos, 9int,
{
    let ghost cv0 = cv.view();
    let ghost s0 = st.view();
    let mut cv = cv;
    if cv.has_label() {
        let l = cv.take_label();
        match l {
            Some(x) => emit_event(st, Event::Label(x.value)),
            None => {},
        }
    } else {
        report_diag(st, DiagnosticCode::UnapplicableElementConfig);
    }
    assert(cv.view() == CskvpView { label: None, ..cv0 });
    assert(st.view() == match cv0.label {
        None => report(s0, DiagnosticCode::UnapplicableElementConfig),
        Some((l, _)) => emit(s0, EventView::Label(l)),
    });
    finish_paragraph_exec(evs, c, st, end_par);
    drop_config_exec(st, Some(cv));
}

#[verifier::rlimit(30)]
fn handle_config_exec(
    evs: &Vec<(CmarkEvent, SourceRange)>,
    c: &FrontendConfig,
    st: &mut ConvOut,
    cv: Cskvp,
    el: Elem,
    r: SourceRange,
)
    ensures
        stepped(evs@, old(st).view(), final(st).view(), conversion::handle_config(evs@, c.view(), old(st).view(), cv.view(), elem_view(el), r)),
    decreases evs@.len() - old(st).pos, 7int,
{
    if st.failed || st.pos > evs.len() {
        set_failed(st);
        return;
    }
    let ghost cv0 = cv.view();
    let mut cv = cv;
    let fig = match cv.take_figure() {
        Some(f) => f.value,
        None => c.figures,
    };
    let ghost cv1 = cv.view();
    let is_table = match &el {
        Elem::Table(_) => true,
        _ => false,
    };
    let ftag = if fig {
        let caption = with_range(cv.take_caption());
        let label = with_range(cv.take_label());
        let f = Figure { label, caption };
        let t = if is_table {
            Tag::TableFigure(f)
        } else {
            Tag::Figure(f)
        };
        emit_event(st, Event::Start(copy_tag(&t)));
        Some(t)
    } else {
        None
    };
    proof {
        assert(cv1 == CskvpView { figure: None, ..cv0 });
        assert(fig == match cv0.figure {
            Some((b, _)) => b,
            None => c.view().figures,
        });
    }
    handle_element(evs, c, st, cv, el, r);
    match ftag {
        Some(t) => emit_event(st, Event::End(t)),
        None => {},
    }
}

/// The element after a config, converted with it.
fn handle_element(
    evs: &Vec<(CmarkEvent, SourceRange)>,
    c: &FrontendConfig,
    st: &mut ConvOut,
    cv: Cskvp,
    el: Elem,
    r: SourceRange,
)
    ensures
        stepped(
            evs@,
            old(st).view(),
            final(st).view(),
            match elem_view(el) {
                ElemView::Header(level) => conversion::conv_header(evs@, c.view(), old(st).view(), level, r, Some(cv.view())),
                ElemView::CodeBlock(l) => conversion::conv_code_block(evs@, c.view(), old(st).view(), l, r, Some(cv.view())),
                ElemView::Table(al) => conversion::conv_table(evs@, c.view(), old(st).view(), al, Some(cv.view())),
                ElemView::Image(typ, dst, title) => conversion::conv_image(evs@, old(st).view(), typ, dst, title, Some(cv.view())),
            },
        ),
    decreases evs@.len() - old(st).pos, 6int,
{
    match el {
        Elem::Header(level) => conv_header_exec(evs, c, st, level, r, Some(cv)),
        Elem::CodeBlock(l) => conv_code_block_exec(evs, c, st, l, r, Some(cv)),
        Elem::Table(al) => conv_table_exec(evs, c, st, al, Some(cv)),
        Elem::Image(typ, dst, title) => conv_image_exec(evs, st, typ, dst, title, Some(cv)),
    }
}

fn conv_header_exec(
    evs: &Vec<(CmarkEvent, SourceRange)>,
    c: &FrontendConfig,
    st: &mut ConvOut,
    level: i32,
    r: SourceRange,
    cs: Option<Cskvp>,
)
    ensures
        stepped(evs@, old(st).view(), final(st).view(), conversion::conv_header(evs@, c.view(), old(st).view(), level as int, r, cs_view(cs))),
    decreases evs@.len() - old(st).pos, 3int,
{
    if st.failed || st.pos > evs.len() {
        set_failed(st);
        return;
    }
    let ghost cv = config_or_empty(cs_view(cs));
    let (prefix, cs) = cs_take_label(cs);
    let has_prefix = prefix.is_some();
    let n = st.out.len();
    let (text, first) = until_end_exec(evs, c, st, EndOf::Header);
    if st.failed {
        return;
    }
    let fs = match first {
        Some(f) => f,
        None => 0,
    };
    let inl = inline_label(text.as_str());
    let has_inline = inl.is_some();
    let label = match &inl {
        Some((l, s, e)) => {
            if fs > usize::MAX - *e {
                set_failed(st);
                return;
            }
            WithRange(l.clone(), SourceRange { start: fs + *s, end: fs + *e })
        },
        None => match prefix {
            Some(p) => p,
            None => WithRange(autogenerated_label(text.as_str()), r),
        },
    };
    proof {
        assert(Some(ranged(label)) == conversion::header_label(
            cv.label,
            crate::frontend::inline_label_match(text@),
            opt_int(first).unwrap_or(0),
            text@,
            r,
        ));
    }
    if has_prefix && has_inline {
        report_diag(st, DiagnosticCode::MultipleLabels);
    }
    let tag = Tag::Header(Header { label, level });
    let ghost s2 = st.view();
    let ghost inner = s2.out.skip(n as int);
    let ghost stripped = conversion::strip_inline_label(inner, crate::frontend::inline_label_match(text@));
    match &inl {
        Some((l, _, _)) => {
            let len = st.out.len();
            if len == n {
                set_failed(st);
                return;
            }
            let cut = match &st.out[len - 1] {
                Event::Text(lt) => {
                    let lb = crate::ext::byte_len(lt.as_str());
                    let llb = crate::ext::byte_len(l.as_str());
                    if lb < 2 || lb - 2 < llb {
                        set_failed(st);
                        return;
                    }
                    match inline_label(lt.as_str()) {
                        None => {
                            set_failed(st);
                            return;
                        },
                        Some((_, s2, _)) => {
                            let v = chars_of(lt.as_str());
                            match char_index_of(v.as_slice(), s2) {
                                Some(k) => string_from_range(v.as_slice(), 0, k),
                                None => {
                                    set_failed(st);
                                    return;
                                },
                            }
                        },
                    }
                },
                _ => {
                    set_failed(st);
                    return;
                },
            };
            let ghost before = st.out@;
            st.out.set(len - 1, Event::Text(cut));
            proof {
                assert(inner.last() == event_view(before[len - 1]));
                assert(stripped == Some(inner.drop_last().push(EventView::Text(cut@))));
                assert(events_view(st.out@) =~= events_view(before).drop_last().push(
                    EventView::Text(cut@),
                ));
                assert(events_view(st.out@).skip(n as int) =~= stripped->0);
                assert(events_view(st.out@).take(n as int) =~= s2.out.take(n as int));
            }
        },
        None => {
            proof {
                assert(stripped == Some(inner));
                assert(events_view(st.out@).skip(n as int) =~= inner);
            }
        },
    }
    let start = Event::Start(copy_tag(&tag));
    st.out.insert(n, start);
    proof {
        assert(events_view(st.out@) =~= s2.out.take(n as int).push(EventView::Start(tag_view(tag)))
            + stripped->0);
    }
    emit_event(st, Event::End(tag));
    drop_config_exec(st, cs);
}

fn conv_code_block_exec(
    evs: &Vec<(CmarkEvent, SourceRange)>,
    c: &FrontendConfig,
    st: &mut ConvOut,
    lang: String,
    r: SourceRange,
    cs: Option<Cskvp>,
)
    ensures
        stepped(evs@, old(st).view(), final(st).view(), conversion::conv_code_block(evs@, c.view(), old(st).view(), lang@, r, cs_view(cs))),
    decreases evs@.len() - old(st).pos, if has_comma(lang@) && cs is None {
        8int
    } else {
        5int
    },
{
    if st.failed || st.pos > evs.len() {
        set_failed(st);
        return;
    }
    let blen = crate::ext::byte_len(lang.as_str());
    if blen > r.end {
        set_failed(st);
        return;
    }
    let cs_start = r.end - blen;
    let ghost l0 = lang@;
    let (language, split) = split_language(lang);
    match split {
        Some((rest, p)) => {
            let lb = crate::ext::byte_len(language.as_str());
            proof {
                lemma_split_bytes(l0);
            }
            let lspan = SourceRange { start: cs_start, end: cs_start + lb };
            let content = SourceRange { start: cs_start + p + 1, end: r.end };
            let whole = SourceRange { start: cs_start, end: r.end };
            let inline = Cskvp::new(rest, whole, content, &mut st.diags);
            match cs {
                Some(mut pc) => {
                    report_diag(st, DiagnosticCode::CodeHasMultipleConfigs);
                    drop_config_exec(st, Some(inline));
                    pc.clear();
                    code_body_exec(evs, c, st, language, lspan, Some(pc));
                },
                None => {
                    handle_config_exec(evs, c, st, inline, Elem::CodeBlock(language), r);
                },
            }
        },
        None => {
            code_body_exec(evs, c, st, language, SourceRange { start: cs_start, end: r.end }, cs);
        },
    }
}

/// The byte offset of the comma in a code block's info string, and the lengths around it.
proof fn lemma_split_bytes(l: Seq<char>)
    requires
        split_language_spec(l).1 is Some,
    ensures
        match split_language_spec(l).1 {
            Some((rest, p)) => p == utf8_len(split_language_spec(l).0) && utf8_len(l) == p + 1
                + utf8_len(rest),
            None => false,
        },
{
    assert(l.contains(','));
    let pos = crate::refs::first_from(l, ',', 0);
    crate::refs::lemma_first_from(l, ',', 0);
    let k = choose|k: int| 0 <= k < l.len() && l[k] == ',';
    crate::refs::lemma_first_from_le(l, ',', 0, k);
    assert(0 <= pos < l.len());
    assert(l[pos] == ',');
    let a = l.take(pos);
    let b = l.skip(pos + 1);
    let mid = seq![l[pos]];
    assert(l =~= a + (mid + b));
    crate::text::lemma_utf8_len_concat(a, mid + b);
    crate::text::lemma_utf8_len_concat(mid, b);
    assert(mid.drop_last() =~= Seq::<char>::empty());
    assert((',' as u32) == 44u32);
    crate::text::lemma_char_width(l[pos]);
    assert((l[pos] as u32) < 0x80);
    assert(mid.len() == 1 && mid.last() == l[pos]);
    assert(utf8_len(Seq::<char>::empty()) == 0);
    assert(utf8_len(mid.drop_last()) == 0);
    assert(utf8_len(mid) == 1);
    assert(split_language_spec(l).0 == a);
}

fn code_body_exec(
    evs: &Vec<(CmarkEvent, SourceRange)>,
    c: &FrontendConfig,
    st: &mut ConvOut,
    language: String,
    lspan: SourceRange,
    cs: Option<Cskvp>,
)
    ensures
        stepped(evs@, old(st).view(), final(st).view(), conversion::code_body(evs@, c.view(), old(st).view(), language@, range_view(lspan), cs_view(cs))),
    decreases evs@.len() - old(st).pos, 4int,
{
    if st.failed || st.pos > evs.len() {
        set_failed(st);
        return;
    }
    let is_sequence = str_eq(language.as_str(), "sequence");
    let kind = code_block_kind(language);
    match kind {
        CodeBlockKind::InlineLatex | CodeBlockKind::Svgbob => {
            let latex = match kind {
                CodeBlockKind::InlineLatex => true,
                _ => false,
            };
            let p = st.pos;
            if p >= evs.len() || p + 1 >= evs.len() {
                set_failed(st);
                return;
            }
            match &evs[p].0 {
                CmarkEvent::Text(t) => {
                    if !is_end_code_block(&evs[p + 1].0) {
                        set_failed(st);
                        return;
                    }
                    if latex {
                        st.pos = p + 2;
                        emit_event(st, Event::Latex(t.clone()));
                        drop_config_exec(st, cs);
                    } else {
                        let (label, cs) = cs_take_label(cs);
                        let (caption, cs) = cs_take_caption(cs);
                        let (title, cs) = cs_take_double(cs, "title");
                        let (alt_text, cs) = cs_take_double(cs, "alt_text");
                        let (scale, cs) = cs_take_double(cs, "scale");
                        let (width, cs) = cs_take_double(cs, "width");
                        let (height, cs) = cs_take_double(cs, "height");
                        let dst = svgbob_path(&c.svgbob_dir, st.svgbob.len());
                        let inc = Include {
                            resolve_security: ResolveSecurity::SkipChecks,
                            label,
                            caption,
                            title: value_of(title),
                            alt_text: value_of(alt_text),
                            dst,
                            scale,
                            width,
                            height,
                        };
                        let ghost sv0 = st.svgbob@;
                        let svg = crate::frontend::render_svgbob(t.as_str());
                        st.svgbob.push(svg);
                        proof {
                            assert(strs_view(st.svgbob@) =~= strs_view(sv0).push(
                                crate::frontend::svgbob_svg(t@),
                            ));
                        }
                        st.pos = p + 2;
                        emit_event(st, Event::Include(inc));
                        drop_config_exec(st, cs);
                    }
                },
                _ => {
                    set_failed(st);
                    return;
                },
            }
        },
        CodeBlockKind::Graphviz => {
            let (label, cs) = cs_take_label(cs);
            let (caption, cs) = cs_take_caption(cs);
            let (scale, cs) = cs_take_double(cs, "scale");
            let (width, cs) = cs_take_double(cs, "width");
            let (height, cs) = cs_take_double(cs, "height");
            let tag = Tag::Graphviz(Graphviz { label, caption, scale, width, height });
            block_with_tag(evs, c, st, tag, cs);
        },
        CodeBlockKind::Equation => {
            let (label, cs) = cs_take_label(cs);
            let (caption, cs) = cs_take_caption(cs);
            block_with_tag(evs, c, st, Tag::Equation(Equation { label, caption }), cs);
        },
        CodeBlockKind::NumberedEquation => {
            let (label, cs) = cs_take_label(cs);
            let (caption, cs) = cs_take_caption(cs);
            block_with_tag(evs, c, st, Tag::NumberedEquation(Equation { label, caption }), cs);
        },
        CodeBlockKind::Code(l) => {
            let (label, cs) = cs_take_label(cs);
            let (caption, cs) = cs_take_caption(cs);
            let language = match l {
                Some(l) => Some(WithRange(l, lspan)),
                None => {
                    if is_sequence {
                        report_diag(st, DiagnosticCode::NotYetImplemented);
                    }
                    None
                },
            };
            block_with_tag(evs, c, st, Tag::CodeBlock(CodeBlock { label, caption, language }), cs);
        },
    }
}

/// A code block's tag, its events, and the end of the tag.
fn block_with_tag(
    evs: &Vec<(CmarkEvent, SourceRange)>,
    c: &FrontendConfig,
    st: &mut ConvOut,
    tag: Tag,
    cs: Option<Cskvp>,
)
    requires
        !bad(evs@, old(st).view()),
    ensures
        stepped(
            evs@,
            old(st).view(),
            final(st).view(),
            drop_config(
                emit(
                    until_end(evs@, c.view(), emit(old(st).view(), EventView::Start(tag_view(tag))), EndOf::CodeBlock, Seq::empty(), None).0,
                    EventView::End(tag_view(tag)),
                ),
                cs_view(cs),
                config_or_empty(cs_view(cs)),
            ),
        ),
    decreases evs@.len() - old(st).pos, 1int,
{
    emit_event(st, Event::Start(copy_tag(&tag)));
    until_end_exec(evs, c, st, EndOf::CodeBlock);
    emit_event(st, Event::End(tag));
    drop_config_exec(st, cs);
}

/// The URL of the file that the `n`th svgbob drawing is rendered to.
fn svgbob_path(dir: &String, n: usize) -> (r: String)
    ensures
        r@ == svgbob_dst(dir@, n as nat),
{
    let mut s = String::new();
    push_str(&mut s, "file://");
    push_str(&mut s, dir.as_str());
    push_str(&mut s, "svgbob");
    push_decimal(&mut s, n as u64);
    push_str(&mut s, ".svg");
    proof {
        reveal_strlit("file://");
        reveal_strlit("svgbob");
        reveal_strlit(".svg");
    }
    assert(s@ =~= svgbob_dst(dir@, n as nat));
    s
}

fn value_of(o: Option<WithRange<String>>) -> (r: Option<String>)
    ensures
        opt_view(r) == value_only(opt_ranged(o)),
{
    match o {
        Some(w) => Some(w.0),
        None => None,
    }
}

// ----------------------------------------------------------------------------------------
// tables

spec fn cols_view(v: Seq<Vec<String>>) -> Seq<Seq<Seq<char>>> {
    v.map_values(|c: Vec<String>| strs_view(c@))
}

fn append_lines(col: Vec<String>, lines: Vec<String>) -> (r: Vec<String>)
    ensures
        strs_view(r@) == strs_view(col@) + strs_view(lines@),
{
    let mut col = col;
    let mut lines = lines;
    let ghost a = col@;
    let ghost b = lines@;
    col.append(&mut lines);
    assert(strs_view(col@) =~= strs_view(a) + strs_view(b));
    col
}

fn row_scan_exec(evs: &Vec<(CmarkEvent, SourceRange)>, q: usize, cols: Vec<Vec<String>>) -> (r: Option<
    (Vec<Vec<String>>, usize),
>)
    ensures
        match row_scan(evs@, q as int, cols_view(cols@), 0) {
            None => r is None,
            Some((cv, q2)) => r matches Some((x, q3)) && cols_view(x@) == cv && q3 as int == q2
                && x@.len() == cols@.len(),
        },
        r matches Some((_, q2)) ==> q < q2 <= evs@.len(),
{
    let ghost target = row_scan(evs@, q as int, cols_view(cols@), 0);
    let ghost n = cols@.len();
    let mut j = q;
    let mut cur = cols;
    let mut i: usize = 0;
    loop
        invariant
            row_scan(evs@, j as int, cols_view(cur@), i as int) == target,
            target == row_scan(evs@, q as int, cols_view(cols@), 0),
            n == cols@.len(),
            q <= j,
            cur@.len() == n,
        decreases evs@.len() - j,
    {
        if j >= evs.len() {
            return None;
        }
        match &evs[j].0 {
            CmarkEvent::Start(CmarkTag::TableCell) => {
                match concat_scan_from(evs, j + 1) {
                    None => {
                        return None;
                    },
                    Some((t, q2)) => {
                        if i >= cur.len() {
                            return None;
                        }
                        let lines = lines_of(t.as_str());
                        let ghost cv0 = cur@;
                        let col = cur.remove(i);
                        let col = append_lines(col, lines);
                        cur.insert(i, col);
                        proof {
                            assert(cur@ =~= cv0.update(i as int, col));
                            assert(cols_view(cur@) =~= cols_view(cv0).update(
                                i as int,
                                cols_view(cv0)[i as int] + str_lines(t@),
                            ));
                        }
                        j = q2;
                        i = i + 1;
                    },
                }
            },
            CmarkEvent::End(CmarkTag::TableHead) | CmarkEvent::End(CmarkTag::TableRow) => {
                return Some((cur, j + 1));
            },
            _ => {
                return None;
            },
        }
    }
}

fn table_scan_exec(evs: &Vec<(CmarkEvent, SourceRange)>, q: usize, cols: Vec<Vec<String>>) -> (r: Option<
    Vec<Vec<String>>,
>)
    ensures
        match table_scan(evs@, q as int, cols_view(cols@)) {
            None => r is None,
            Some(cv) => r matches Some(x) && cols_view(x@) == cv && x@.len() == cols@.len(),
        },
{
    let ghost target = table_scan(evs@, q as int, cols_view(cols@));
    let ghost n = cols@.len();
    let mut j = q;
    let mut cur = cols;
    loop
        invariant
            table_scan(evs@, j as int, cols_view(cur@)) == target,
            target == table_scan(evs@, q as int, cols_view(cols@)),
            n == cols@.len(),
            cur@.len() == n,
        decreases evs@.len() - j,
    {
        if j >= evs.len() {
            return None;
        }
        match &evs[j].0 {
            CmarkEvent::Start(CmarkTag::TableHead) | CmarkEvent::Start(CmarkTag::TableRow) => {
                match row_scan_exec(evs, j + 1, cur) {
                    None => {
                        return None;
                    },
                    Some((c2, q2)) => {
                        cur = c2;
                        j = q2;
                    },
                }
            },
            CmarkEvent::End(CmarkTag::TableHead) | CmarkEvent::End(CmarkTag::TableRow) => {
                j = j + 1;
            },
            CmarkEvent::End(CmarkTag::Table(_)) => {
                return Some(cur);
            },
            _ => {
                return None;
            },
        }
    }
}

fn conv_table_exec(
    evs: &Vec<(CmarkEvent, SourceRange)>,
    c: &FrontendConfig,
    st: &mut ConvOut,
    al: Vec<Alignment>,
    cs: Option<Cskvp>,
)
    ensures
        stepped(evs@, old(st).view(), final(st).view(), conversion::conv_table(evs@, c.view(), old(st).view(), al@, cs_view(cs))),
    decreases evs@.len() - old(st).pos, 3int,
{
    if st.failed || st.pos > evs.len() {
        set_failed(st);
        return;
    }
    let mut cols0: Vec<Vec<String>> = Vec::new();
    let mut k: usize = 0;
    while k < al.len()
        invariant
            k <= al@.len(),
            cols_view(cols0@) == empty_columns(k as int),
        decreases al@.len() - k,
    {
        let ghost before = cols0@;
        let empty: Vec<String> = Vec::new();
        proof {
            assert(strs_view(empty@) =~= Seq::<Seq<char>>::empty());
        }
        cols0.push(empty);
        proof {
            assert(cols_view(cols0@) =~= cols_view(before).push(strs_view(empty@)));
            assert(cols_view(cols0@) =~= empty_columns(k + 1));
        }
        k = k + 1;
    }
    match table_scan_exec(evs, st.pos, cols0) {
        None => {
            set_failed(st);
        },
        Some(cols) => {
            let (label, cs) = cs_take_label(cs);
            let (caption, cs) = cs_take_caption(cs);
            let columns = zip_columns_exec(al, cols);
            let tag = Tag::Table(Table { label, caption, columns });
            emit_event(st, Event::Start(copy_tag(&tag)));
            until_end_exec(evs, c, st, EndOf::Table);
            emit_event(st, Event::End(tag));
            drop_config_exec(st, cs);
        },
    }
}

fn zip_columns_exec(al: Vec<Alignment>, cols: Vec<Vec<String>>) -> (r: Vec<(Alignment, Vec<String>)>)
    requires
        al@.len() == cols@.len(),
    ensures
        columns_view(r@) == zip_columns(al@, cols_view(cols@)),
{
    let ghost a0 = al@;
    let ghost c0 = cols_view(cols@);
    let mut cols = cols;
    let mut out: Vec<(Alignment, Vec<String>)> = Vec::new();
    let mut i: usize = 0;
    let _n = al.len();
    proof {
        assert(a0.take(0) =~= Seq::<Alignment>::empty());
        assert(c0.take(0) =~= Seq::<Seq<Seq<char>>>::empty());
        assert(zip_columns(a0.take(0), c0.take(0)) =~= Seq::<(Alignment, Seq<Seq<char>>)>::empty());
        assert(columns_view(out@) =~= Seq::<(Alignment, Seq<Seq<char>>)>::empty());
        assert(c0.skip(0) =~= c0);
    }
    while cols.len() > 0
        invariant
            i + cols@.len() == a0.len(),
            al@ == a0,
            cols_view(cols@) == c0.skip(i as int),
            columns_view(out@) == zip_columns(a0.take(i as int), c0.take(i as int)),
            a0.len() == c0.len(),
            a0.len() <= usize::MAX,
        decreases cols@.len(),
    {
        let ghost before = out@;
        let ghost cb = cols@;
        let col = cols.remove(0);
        let a = al[i];
        out.push((a, col));
        proof {
            assert(cols@ =~= cb.skip(1));
            assert(cb[0] == col);
            assert(cols_view(cb)[0] == strs_view(cb[0]@));
            assert(c0[i as int] == strs_view(col@));
            assert(cols_view(cols@) =~= cols_view(cb).skip(1));
            assert(cols_view(cols@) =~= c0.skip(i + 1));
            assert(columns_view(out@) =~= columns_view(before).push((a, strs_view(col@))));
            assert(zip_columns(a0.take(i + 1), c0.take(i + 1)) =~= zip_columns(
                a0.take(i as int),
                c0.take(i as int),
            ).push((a0[i as int], c0[i as int])));
        }
        i = i + 1;
    }
    assert(a0.take(i as int) =~= a0);
    assert(c0.take(i as int) =~= c0);
    out
}

// ----------------------------------------------------------------------------------------
// links and images

fn ref_event_of(r: ReferenceParseResult) -> (e: Event)
    ensures
        event_view(e) == ref_event(result_view(r)),
{
    match r {
        ReferenceParseResult::BiberReferences(b) => {
            let e = Event::BiberReferences(b);
            assert(biber_refs_view(b@) =~= b@.map_values(|x: BiberReference| biber_view(x)));
            e
        },
        ReferenceParseResult::Url(u) => Event::Url(u),
        ReferenceParseResult::InterLink(l) => Event::InterLink(l),
        ReferenceParseResult::UrlWithContent(u) => Event::Url(u),
        ReferenceParseResult::InterLinkWithContent(l) => Event::InterLink(l),
        ReferenceParseResult::Command(c) => Event::Command(c),
        ReferenceParseResult::ResolveInclude(s) => Event::ResolveInclude(s),
        ReferenceParseResult::Text(t) => Event::Text(t),
    }
}

fn conv_link_exec(
    evs: &Vec<(CmarkEvent, SourceRange)>,
    c: &FrontendConfig,
    st: &mut ConvOut,
    typ: LinkType,
    dst: &String,
    title: &String,
)
    ensures
        stepped(evs@, old(st).view(), final(st).view(), conversion::conv_link(evs@, c.view(), old(st).view(), typ, dst@, title@)),
    decreases evs@.len() - old(st).pos, 3int,
{
    if st.failed || st.pos > evs.len() {
        set_failed(st);
        return;
    }
    let unknown = match typ {
        LinkType::ShortcutUnknown | LinkType::ReferenceUnknown => true,
        _ => false,
    };
    let mut target = if unknown {
        title.clone()
    } else {
        dst.clone()
    };
    CowExt::trim_start_inplace(&mut target);
    let is_cmd = contains_str(&c.commands, target.as_str());
    assert(target@ == crate::refs::link_target(typ, dst@, title@));
    assert(is_cmd == conversion::is_command_of(c.view(), typ, dst@, title@));
    if !references_ok(c.has_bibliography, typ, dst.as_str(), title.as_str(), is_cmd) {
        set_failed(st);
        return;
    }
    let rv = parse_references(c.has_bibliography, typ, dst.clone(), title.clone(), is_cmd);
    let ghost s0 = st.view();
    let ghost rvv = result_view(rv);
    assert(rvv == crate::refs::spec_parse_references(c.view().has_bibliography, typ, dst@, title@, is_cmd));
    match rv {
        ReferenceParseResult::UrlWithContent(u) => {
            let tag = Tag::Url(u);
            let ghost tv = tag_view(tag);
            assert(rvv matches RefView::UrlWithContent(d, t) && tv == (TagView::Url { destination: d, title: t }));
            emit_event(st, Event::Start(copy_tag(&tag)));
            until_end_exec(evs, c, st, EndOf::Link);
            emit_event(st, Event::End(tag));
            assert(st.view() == emit(until_end(evs@, c.view(), emit(s0, EventView::Start(tv)), EndOf::Link, Seq::empty(), None).0, EventView::End(tv)));
            assert(!bad(evs@, s0));
            assert(st.view() == conversion::conv_link(evs@, c.view(), s0, typ, dst@, title@));
        },
        ReferenceParseResult::InterLinkWithContent(l) => {
            let tag = Tag::InterLink(l);
            let ghost tv = tag_view(tag);
            assert(rvv matches RefView::InterLinkWithContent(d, t) && tv == (TagView::InterLink { label: d, uppercase: t }));
            emit_event(st, Event::Start(copy_tag(&tag)));
            until_end_exec(evs, c, st, EndOf::Link);
            emit_event(st, Event::End(tag));
            assert(st.view() == conversion::conv_link(evs@, c.view(), s0, typ, dst@, title@));
        },
        other => {
            if let ReferenceParseResult::Text(_) = &other {
                report_diag(st, DiagnosticCode::InvalidReference);
            }
            let ghost s0r = st.view();
            let e = ref_event_of(other);
            emit_event(st, e);
            let ghost s1 = st.view();
            assert(s1 == emit(s0r, ref_event(rvv)));
            match consume_scan_from(evs, st.pos) {
                None => set_failed(st),
                Some(q) => {
                    st.pos = q;
                },
            }
            assert(st.view() == conversion::conv_link(evs@, c.view(), s0, typ, dst@, title@));
        },
    }
}

fn conv_image_exec(
    evs: &Vec<(CmarkEvent, SourceRange)>,
    st: &mut ConvOut,
    typ: LinkType,
    dst: String,
    title: String,
    cs: Option<Cskvp>,
)
    ensures
        stepped(evs@, old(st).view(), final(st).view(), conversion::conv_image(evs@, old(st).view(), typ, dst@, title@, cs_view(cs))),
{
    if st.failed || st.pos > evs.len() {
        set_failed(st);
        return;
    }
    match concat_scan_from(evs, st.pos) {
        None => {
            set_failed(st);
        },
        Some((content, q)) => {
            if typ == LinkType::Autolink || typ == LinkType::Email {
                st.pos = q;
                set_failed(st);
                return;
            }
            let alt_text = image_alt_text(typ, content);
            let (label, cs) = cs_take_label(cs);
            let (caption, cs) = cs_take_caption(cs);
            let (scale, cs) = cs_take_double(cs, "scale");
            let (width, cs) = cs_take_double(cs, "width");
            let (height, cs) = cs_take_double(cs, "height");
            proof {
                if title@.len() > 0 {
                    crate::text::lemma_char_width(title@.last());
                }
            }
            let title = if crate::ext::byte_len(title.as_str()) == 0 {
                None
            } else {
                Some(title)
            };
            let inc = Include {
                resolve_security: ResolveSecurity::Default,
                label,
                caption,
                title,
                alt_text,
                dst,
                scale,
                width,
                height,
            };
            st.pos = q;
            emit_event(st, Event::Include(inc));
            drop_config_exec(st, cs);
        },
    }
}

// ----------------------------------------------------------------------------------------
// the frontend

/// What the frontend produced: the document events, the diagnostics, and the rendered
/// svgbob drawings, in the order of their numbers, to be written to their files.
pub struct Converted {
    pub events: Vec<Event>,
    pub diagnostics: Vec<DiagnosticCode>,
    /// For each `UnknownAttributesInElementConfig` warning, in order, its notes: each
    /// attribute of the config that nothing used, with its range.
    pub unused_attributes: Vec<Vec<Spanned<String>>>,
    pub svgbob: Vec<String>,
}

/// The parser's events with the range of each code block's start cut down to the first
/// line of the block, without trailing whitespace: where its info string ends.
pub open spec fn code_block_first_lines(
    s: Seq<char>,
    evs: Seq<(CmarkEventView, (int, int))>,
) -> Seq<(CmarkEventView, (int, int))> {
    evs.map_values(
        |p: (CmarkEventView, (int, int))|
            match p.0 {
                CmarkEventView::Start(CmarkTagView::CodeBlock(_)) => (p.0, (p.1.0, first_line_end(s, p.1.0))),
                _ => p,
            },
    )
}

/// The frontend that `markdown` is read into: on events that have the view `evs`, adjacent
/// texts joined, with the settings `cfg`; `None` where a text starts before the previous
/// one ends.
pub open spec fn frontend_on(evs: Seq<(CmarkEvent, SourceRange)>, cfg: ConvConfig, r: Option<Frontend>) -> bool {
    match joined_from(evs, 0) {
        None => r is None,
        Some(m) => r matches Some(f) && joined_as(evs, m, f.input()) && f.config() == cfg,
    }
}

fn is_code_block_start(e: &CmarkEvent) -> (r: bool)
    ensures
        r == (cmark_event_view(*e) matches CmarkEventView::Start(CmarkTagView::CodeBlock(_))),
{
    match e {
        CmarkEvent::Start(CmarkTag::CodeBlock(_)) => true,
        _ => false,
    }
}

/// The frontend: the markdown parser's events (adjacent texts joined) and the settings.
pub struct Frontend {
    cfg: FrontendConfig,
    events: Vec<(CmarkEvent, SourceRange)>,
}

impl Frontend {
    /// The events the frontend converts.
    pub closed spec fn input(&self) -> Input {
        self.events@
    }

    pub closed spec fn config(&self) -> ConvConfig {
        self.cfg.view()
    }

    /// A frontend on the parser's events, with each run of adjacent texts joined into one;
    /// `None` where a text starts before the previous one ends.
    pub fn from_events(cfg: FrontendConfig, events: Vec<(CmarkEvent, SourceRange)>) -> (r: Option<Frontend>)
        ensures
            match joined_from(events@, 0) {
                None => r is None,
                Some(m) => r matches Some(f) && joined_as(events@, m, f.input()) && f.config()
                    == cfg.view(),
            },
    {
        match join_texts(events) {
            Some(evs) => Some(Frontend { cfg, events: evs }),
            None => None,
        }
    }

    /// The frontend on a markdown text: the parser's events, each code block's start cut
    /// down to the block's first line, then as `from_events` makes it.
    pub fn new(cfg: FrontendConfig, markdown: &str) -> (r: Option<Frontend>)
        requires
            utf8_len(markdown@) <= isize::MAX,
        ensures
            exists|evs: Seq<(CmarkEvent, SourceRange)>|
                #[trigger] cmark_events_view(evs) == code_block_first_lines(
                    markdown@,
                    cmark_events(markdown@, strs_view(cfg.commands@)),
                ) && frontend_on(evs, cfg.view(), r),
    {
        let parsed = parse_markdown(markdown, &cfg.commands);
        let ghost p = parsed@;
        let ghost target = code_block_first_lines(markdown@, cmark_events_view(p));
        let mut rest = parsed;
        let mut out: Vec<(CmarkEvent, SourceRange)> = Vec::new();
        while rest.len() > 0
            invariant
                out@.len() + rest@.len() == p.len(),
                rest@ == p.skip(out@.len() as int),
                cmark_events_view(out@) == target.take(out@.len() as int),
                target == code_block_first_lines(markdown@, cmark_events_view(p)),
                forall|i: int| 0 <= i < p.len() ==> #[trigger] p[i].1.start <= p[i].1.end <= utf8_len(markdown@),
                utf8_len(markdown@) <= isize::MAX,
            decreases rest.len(),
        {
            let ghost k = out@.len() as int;
            let (e, r) = rest.remove(0);
            assert(p[k] == (e, r));
            let r2 = if is_code_block_start(&e) {
                first_line(markdown, r)
            } else {
                r
            };
            out.push((e, r2));
            assert(cmark_events_view(out@) =~= target.take(k + 1));
            assert(rest@ =~= p.skip(k + 1));
        }
        let ghost fin = out@;
        let f = Frontend::from_events(cfg, out);
        assert(cmark_events_view(fin) == code_block_first_lines(
            markdown@,
            cmark_events(markdown@, strs_view(cfg.commands@)),
        ) && frontend_on(fin, cfg.view(), f));
        f
    }

    /// Converts all events; `None` where the input is one the conversion is not defined on.
    pub fn convert(&self) -> (r: Option<Converted>)
        ensures
            r is None <==> conversion(self.input(), self.config()).failed,
            r matches Some(x) ==> {
                &&& events_view(x.events@) == conversion(self.input(), self.config()).out
                &&& x.diagnostics@ == conversion(self.input(), self.config()).diags
                &&& notes_list_view(x.unused_attributes@) == conversion(self.input(), self.config()).unused
                &&& strs_view(x.svgbob@) == conversion(self.input(), self.config()).svgbob
            },
    {
        let evs = &self.events;
        let c = &self.cfg;
        let mut st = ConvOut {
            pos: 0,
            out: Vec::new(),
            diags: Vec::new(),
            unused: Vec::new(),
            svgbob: Vec::new(),
            failed: false,
        };
        proof {
            assert(events_view(st.out@) =~= Seq::<EventView>::empty());
            assert(strs_view(st.svgbob@) =~= Seq::<Seq<char>>::empty());
            assert(st.diags@ =~= Seq::<DiagnosticCode>::empty());
            assert(notes_list_view(st.unused@) =~= Seq::<Seq<(Seq<char>, (int, int))>>::empty());
            assert(st.view() == start_state());
        }
        while !st.failed && st.pos < evs.len()
            invariant
                convert_from(evs@, c.view(), st.view()) == conversion(evs@, c.view()),
                st.pos <= evs@.len(),
            decreases evs@.len() - st.pos,
        {
            let i = st.pos;
            let r = evs[i].1;
            st.pos = i + 1;
            let ghost s1 = st.view();
            conv_event_exec(evs, c, &mut st, &evs[i].0, r);
            proof {
                lemma_after(evs@, s1, st.view());
            }
        }
        if st.failed {
            None
        } else {
            Some(Converted { events: st.out, diagnostics: st.diags, unused_attributes: st.unused, svgbob: st.svgbob })
        }
    }
}

/// Joins each run of adjacent texts into one text spanning them all; `None` where a text
/// starts before the previous one ends.
pub fn join_texts(events: Vec<(CmarkEvent, SourceRange)>) -> (r: Option<Vec<(CmarkEvent, SourceRange)>>)
    ensures
        match joined_from(events@, 0) {
            None => r is None,
            Some(m) => r matches Some(out) && joined_as(events@, m, out@),
        },
{
    let ghost e0 = events@;
    let mut rest = events;
    let mut out: Vec<(CmarkEvent, SourceRange)> = Vec::new();
    let ghost mut gi: int = 0;
    let ghost mut acc: Seq<Joined> = Seq::empty();
    proof {
        assert(e0.skip(0) =~= e0);
        assert(acc + joined_from(e0, 0)->0 =~= joined_from(e0, 0)->0);
    }
    while rest.len() > 0
        invariant
            0 <= gi <= e0.len(),
            e0 == events@,
            rest@ == e0.skip(gi),
            joined_as(e0, acc, out@),
            joined_from(e0, 0) == match joined_from(e0, gi) {
                None => None,
                Some(rm) => Some(acc + rm),
            },
        decreases rest@.len(),
    {
        let ghost i0 = gi;
        let (e, r) = rest.remove(0);
        proof {
            assert(e0[i0] == (e, r));
            assert(rest@ =~= e0.skip(i0 + 1));
        }
        match e {
            CmarkEvent::Text(t) => {
                let ghost t0 = t;
                let mut text = t;
                let mut end = r.end;
                proof {
                    gi = i0 + 1;
                }
                loop
                    invariant_except_break
                        0 <= i0 < gi <= e0.len(),
                        e0 == events@,
                        rest@ == e0.skip(gi),
                        e0[i0] == (CmarkEvent::Text(t0), r),
                        joined_as(e0, acc, out@),
                        joined_from(e0, 0) == match joined_from(e0, i0) {
                            None => None,
                            Some(rm) => Some(acc + rm),
                        },
                        text_run(e0, gi, text@, end as int) == text_run(e0, i0 + 1, t0@, r.end as int),
                    ensures
                        0 <= i0 < gi <= e0.len(),
                        e0 == events@,
                        rest@ == e0.skip(gi),
                        e0[i0] == (CmarkEvent::Text(t0), r),
                        joined_as(e0, acc, out@),
                        joined_from(e0, 0) == match joined_from(e0, i0) {
                            None => None,
                            Some(rm) => Some(acc + rm),
                        },
                        text_run(e0, i0 + 1, t0@, r.end as int) == Some((text@, end as int, gi)),
                    decreases rest@.len(),
                {
                    if rest.len() == 0 {
                        break;
                    }
                    let is_text = match &rest[0].0 {
                        CmarkEvent::Text(_) => true,
                        _ => false,
                    };
                    if !is_text {
                        break;
                    }
                    let ghost rb = rest@;
                    let (e2, r2) = rest.remove(0);
                    proof {
                        assert(rb[0] == (e2, r2));
                        assert(rb[0] == e0[gi]);
                        assert(rest@ =~= e0.skip(gi + 1));
                    }
                    if end > r2.start {
                        proof {
                            assert(text_run(e0, gi, text@, end as int) is None);
                            assert(joined_from(e0, i0) is None);
                        }
                        return None;
                    }
                    match e2 {
                        CmarkEvent::Text(t2) => {
                            push_str(&mut text, t2.as_str());
                        },
                        _ => {},
                    }
                    end = r2.end;
                    proof {
                        gi = gi + 1;
                    }
                }
                let ghost before = out@;
                out.push((CmarkEvent::Text(text), SourceRange { start: r.start, end }));
                proof {
                    let j = Joined::Text(text@, (r.start as int, end as int));
                    assert(joined_from(e0, i0) == match joined_from(e0, gi) {
                        None => None,
                        Some(rm) => Some(seq![j] + rm),
                    });
                    let acc2 = acc.push(j);
                    assert forall|k: int| 0 <= k < acc2.len() implies match #[trigger] acc2[k] {
                        Joined::Text(t, rg) => (out@[k].0 matches CmarkEvent::Text(s) && s@ == t) && range_view(out@[k].1) == rg,
                        Joined::Event(jj) => 0 <= jj < e0.len() && out@[k] == e0[jj],
                    } by {
                        if k < acc.len() {
                            assert(acc2[k] == acc[k]);
                            assert(out@[k] == before[k]);
                        }
                    }
                    if let Some(rm) = joined_from(e0, gi) {
                        assert(acc + (seq![j] + rm) =~= acc2 + rm);
                    }
                    acc = acc2;
                }
            },
            other => {
                let ghost before = out@;
                out.push((other, r));
                proof {
                    let j = Joined::Event(i0);
                    let acc2 = acc.push(j);
                    assert forall|k: int| 0 <= k < acc2.len() implies match #[trigger] acc2[k] {
                        Joined::Text(t, rg) => (out@[k].0 matches CmarkEvent::Text(s) && s@ == t) && range_view(out@[k].1) == rg,
                        Joined::Event(jj) => 0 <= jj < e0.len() && out@[k] == e0[jj],
                    } by {
                        if k < acc.len() {
                            assert(acc2[k] == acc[k]);
                            assert(out@[k] == before[k]);
                        }
                    }
                    if let Some(rm) = joined_from(e0, i0 + 1) {
                        assert(acc + (seq![j] + rm) =~= acc2 + rm);
                    }
                    acc = acc2;
                    gi = i0 + 1;
                }
            },
        }
    }
    proof {
        assert(joined_from(e0, gi) == Some(Seq::<Joined>::empty()));
        assert(acc + Seq::<Joined>::empty() =~= acc);
    }
    Some(out)
}

} // verus!

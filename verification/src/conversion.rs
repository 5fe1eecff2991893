//! What converting the markdown parser's events into document events yields,
//! mathematically: one spec function for each step of the frontend.
//!
//! A conversion state holds the position in the parser's events, the document events and
//! diagnostics produced so far, the svgbob drawings to render, and whether the input turned
//! out to be one the conversion is not defined on (`failed`): a parser event where another
//! must follow, an end tag where its start should have taken it, and the like.
use vstd::prelude::*;

use crate::cskvp::{cskvp_spec, empty_config, remove_entry, unused_notes, CskvpView};
use crate::error::DiagnosticCode;
use crate::event::{range_view, CmarkEvent, CmarkTag, EventView, IncludeView, Ranged, TagView};
use crate::frontend::{
    autogenerated_label_spec, code_block_kind_spec, concat_piece, inline_code_spec,
    inline_label_match, is_consumed_end, is_element_config_spec, is_html_break,
    is_pagebreak_spec, split_language_spec, svgbob_svg, InlineCodeView,
};
use crate::latex_complex::Alignment;
use crate::number::decimal;
use crate::range::SourceRange;
use crate::refs::{link_target, parse_references_ok, spec_parse_references, LinkType, RefView};
use crate::text::{char_index, char_width, utf8_len};

verus! {

/// The parser's events with their source ranges.
pub type Input = Seq<(CmarkEvent, SourceRange)>;

/// The state of a conversion.
pub struct ConvState {
    pub pos: int,
    pub out: Seq<EventView>,
    pub diags: Seq<DiagnosticCode>,
    /// For each warning about unknown attributes in an element config, in order, its
    /// notes: each attribute that nothing used, with its range.
    pub unused: Seq<Seq<(Seq<char>, (int, int))>>,
    /// The rendered svgbob drawings, to be written to their files.
    pub svgbob: Seq<Seq<char>>,
    pub failed: bool,
}

/// The settings that a conversion reads.
pub struct ConvConfig {
    /// Whether elements with a config go into a figure unless the config says otherwise.
    pub figures: bool,
    pub has_bibliography: bool,
    /// The link destinations that are commands.
    pub commands: Seq<Seq<char>>,
    /// The directory, with its trailing separator, where svgbob drawings are rendered to.
    pub svgbob_dir: Seq<char>,
}

pub open spec fn start_state() -> ConvState {
    ConvState {
        pos: 0,
        out: Seq::empty(),
        diags: Seq::empty(),
        unused: Seq::empty(),
        svgbob: Seq::empty(),
        failed: false,
    }
}

pub open spec fn emit(st: ConvState, e: EventView) -> ConvState {
    ConvState { out: st.out.push(e), ..st }
}

pub open spec fn report(st: ConvState, d: DiagnosticCode) -> ConvState {
    ConvState { diags: st.diags.push(d), ..st }
}

pub open spec fn fail(st: ConvState) -> ConvState {
    ConvState { failed: true, ..st }
}

pub open spec fn at(st: ConvState, pos: int) -> ConvState {
    ConvState { pos, ..st }
}

/// A state that no step works on: failed, or past the end of the input.
pub open spec fn bad(evs: Input, st: ConvState) -> bool {
    st.failed || st.pos < 0 || st.pos > evs.len()
}

/// A step from `st0` to `st1` moved forward within the input, and only added events.
pub open spec fn moved(evs: Input, st0: ConvState, st1: ConvState) -> bool {
    &&& st0.pos <= st1.pos
    &&& !bad(evs, st0) ==> st1.pos <= evs.len()
    &&& st0.out.len() <= st1.out.len()
}

/// The result `st1` of a step that started at `st0`, kept where it moved forward within
/// the input (which every step does).
pub open spec fn after(evs: Input, st0: ConvState, st1: ConvState) -> ConvState {
    if st0.pos <= st1.pos <= evs.len() {
        st1
    } else {
        fail(st0)
    }
}

// ----------------------------------------------------------------------------------------
// element configs

/// An element's config; an element without one has an empty config that reports nothing.
pub open spec fn config_or_empty(o: Option<CskvpView>) -> CskvpView {
    match o {
        Some(c) => c,
        None => empty_config(),
    }
}

/// A config without the diagnostics of its parsing.
pub open spec fn clean(c: CskvpView) -> CskvpView {
    CskvpView { diags: Seq::empty(), ..c }
}

/// Whether anything of a config is left that nothing used.
#[verifier::opaque]
pub open spec fn has_unused(c: CskvpView) -> bool {
    unused_notes(c).len() > 0
}

/// When an element is done with its config `o`, of which `left` is not used: a warning
/// where anything is left of a config that was written, with a note on each attribute left.
pub open spec fn drop_config(st: ConvState, o: Option<CskvpView>, left: CskvpView) -> ConvState {
    if o is Some && has_unused(left) {
        ConvState {
            unused: st.unused.push(unused_notes(left)),
            ..report(st, DiagnosticCode::UnknownAttributesInElementConfig)
        }
    } else {
        st
    }
}

/// The value of a key-value pair taken from a config, without its range.
pub open spec fn value_only(o: Option<(Seq<char>, (int, int))>) -> Option<Seq<char>> {
    match o {
        Some((v, _)) => Some(v),
        None => None,
    }
}

// ----------------------------------------------------------------------------------------
// scanning without converting

/// From `q` on, up to the end tag that closes what is open, the text of the text-like
/// events, and the position after that end tag.
pub open spec fn concat_scan(evs: Input, q: int, nest: int, acc: Seq<char>) -> Option<(Seq<char>, int)>
    decreases evs.len() - q,
{
    if q < 0 || q >= evs.len() {
        None
    } else {
        match evs[q].0 {
            CmarkEvent::Start(_) => concat_scan(evs, q + 1, nest + 1, acc),
            CmarkEvent::End(_) => if nest > 0 {
                concat_scan(evs, q + 1, nest - 1, acc)
            } else {
                Some((acc, q + 1))
            },
            _ => concat_scan(evs, q + 1, nest, acc + concat_piece(evs[q].0)),
        }
    }
}

/// The position after the end tag that closes what is open at `q`.
pub open spec fn consume_scan(evs: Input, q: int, nest: int) -> Option<int>
    decreases evs.len() - q,
{
    if q < 0 || q >= evs.len() {
        None
    } else {
        match evs[q].0 {
            CmarkEvent::Start(_) => consume_scan(evs, q + 1, nest + 1),
            CmarkEvent::End(_) => if nest > 0 {
                consume_scan(evs, q + 1, nest - 1)
            } else {
                Some(q + 1)
            },
            _ => consume_scan(evs, q + 1, nest),
        }
    }
}

/// The lines of a text (`str::lines`): split at `\n`, a `\r` before it removed, and no
/// empty line after a final `\n`.
pub open spec fn str_lines(t: Seq<char>) -> Seq<Seq<char>>
    decreases t.len(),
{
    if t.len() == 0 {
        Seq::empty()
    } else {
        let p = crate::refs::first_from(t, '\n', 0);
        proof {
            crate::refs::lemma_first_from(t, '\n', 0);
        }
        let line = t.take(p);
        if p < t.len() {
            let l = if line.len() > 0 && line.last() == '\r' {
                line.drop_last()
            } else {
                line
            };
            seq![l] + str_lines(t.skip(p + 1))
        } else {
            seq![line]
        }
    }
}

/// The cells of one table row from `q` on, their lines added to their columns; the
/// columns and the position after the row's end.
pub open spec fn row_scan(evs: Input, q: int, cols: Seq<Seq<Seq<char>>>, i: int) -> Option<
    (Seq<Seq<Seq<char>>>, int),
>
    decreases evs.len() - q,
{
    if q < 0 || q >= evs.len() {
        None
    } else {
        match evs[q].0 {
            CmarkEvent::Start(CmarkTag::TableCell) => match concat_scan(evs, q + 1, 0, Seq::empty()) {
                None => None,
                Some((t, q2)) => if i < 0 || i >= cols.len() || q2 <= q || q2 > evs.len() {
                    None
                } else {
                    row_scan(evs, q2, cols.update(i, cols[i] + str_lines(t)), i + 1)
                },
            },
            CmarkEvent::End(CmarkTag::TableHead) | CmarkEvent::End(CmarkTag::TableRow) => Some(
                (cols, q + 1),
            ),
            _ => None,
        }
    }
}

/// The lines of each column of a table from `q` on, up to its end.
pub open spec fn table_scan(evs: Input, q: int, cols: Seq<Seq<Seq<char>>>) -> Option<
    Seq<Seq<Seq<char>>>,
>
    decreases evs.len() - q,
{
    if q < 0 || q >= evs.len() {
        None
    } else {
        match evs[q].0 {
            CmarkEvent::Start(CmarkTag::TableHead) | CmarkEvent::Start(CmarkTag::TableRow) => match row_scan(
                evs,
                q + 1,
                cols,
                0,
            ) {
                None => None,
                Some((cols2, q2)) => if q2 <= q || q2 > evs.len() {
                    None
                } else {
                    table_scan(evs, q2, cols2)
                },
            },
            CmarkEvent::End(CmarkTag::TableHead) | CmarkEvent::End(CmarkTag::TableRow) => table_scan(
                evs,
                q + 1,
                cols,
            ),
            CmarkEvent::End(CmarkTag::Table(_)) => Some(cols),
            _ => None,
        }
    }
}

pub open spec fn empty_columns(n: int) -> Seq<Seq<Seq<char>>> {
    Seq::new(n as nat, |i: int| Seq::<Seq<char>>::empty())
}

pub open spec fn zip_columns(al: Seq<Alignment>, cols: Seq<Seq<Seq<char>>>) -> Seq<
    (Alignment, Seq<Seq<char>>),
> {
    Seq::new(al.len(), |i: int| (al[i], cols[i]))
}

// ----------------------------------------------------------------------------------------
// single events

/// The document event of a parser event that maps one to one.
pub open spec fn direct_view(e: CmarkEvent) -> EventView {
    match e {
        CmarkEvent::Text(t) => EventView::Text(t@),
        CmarkEvent::Html(h) => if is_html_break(h@) {
            EventView::HardBreak
        } else {
            EventView::Html(h@)
        },
        CmarkEvent::FootnoteReference(l) => EventView::FootnoteReference(l@),
        CmarkEvent::SoftBreak => EventView::SoftBreak,
        CmarkEvent::HardBreak => EventView::HardBreak,
        CmarkEvent::Rule => EventView::Rule,
        CmarkEvent::TaskListMarker(c) => EventView::TaskListMarker(c),
        CmarkEvent::Start(t) => EventView::Start(direct_tag(t)),
        CmarkEvent::End(t) => EventView::End(direct_tag(t)),
        _ => EventView::Rule,
    }
}

pub open spec fn direct_tag(t: CmarkTag) -> TagView {
    match t {
        CmarkTag::BlockQuote => TagView::BlockQuote,
        CmarkTag::List(None) => TagView::List,
        CmarkTag::List(Some(n)) => TagView::Enumerate(n as int),
        CmarkTag::Item => TagView::Item,
        CmarkTag::FootnoteDefinition(l) => TagView::FootnoteDefinition(l@),
        CmarkTag::TableHead => TagView::TableHead,
        CmarkTag::TableRow => TagView::TableRow,
        CmarkTag::TableCell => TagView::TableCell,
        CmarkTag::Emphasis => TagView::InlineEmphasis,
        CmarkTag::Strong => TagView::InlineStrong,
        CmarkTag::Strikethrough => TagView::InlineStrikethrough,
        _ => TagView::Paragraph,
    }
}

/// Inline code whose `$ ` or `\ ` prefix does not end on a character boundary cannot be
/// cut.
pub open spec fn inline_code_ok(t: Seq<char>) -> bool {
    !(t.len() >= 2 && crate::text::is_ws(t[1]) && (t[0] == '$' || t[0] == '\\') && char_width(t[1])
        != 1)
}

pub open spec fn conv_inline_code(st: ConvState, t: Seq<char>) -> ConvState {
    if !inline_code_ok(t) {
        fail(st)
    } else {
        match inline_code_spec(t) {
            InlineCodeView::Math(m) => emit(
                emit(emit(st, EventView::Start(TagView::InlineMath)), EventView::Text(m)),
                EventView::End(TagView::InlineMath),
            ),
            InlineCodeView::Latex(l) => emit(st, EventView::Latex(l)),
            InlineCodeView::Code(c) => emit(
                emit(emit(st, EventView::Start(TagView::InlineCode)), EventView::Text(c)),
                EventView::End(TagView::InlineCode),
            ),
        }
    }
}

/// The event of a link destination that has no content of its own.
pub open spec fn ref_event(r: RefView) -> EventView {
    match r {
        RefView::BiberReferences(b) => EventView::BiberReferences(b),
        RefView::Url(d, t) => EventView::Url { destination: d, title: t },
        RefView::InterLink(l, u) => EventView::InterLink { label: l, uppercase: u },
        RefView::UrlWithContent(d, t) => EventView::Url { destination: d, title: t },
        RefView::InterLinkWithContent(l, u) => EventView::InterLink { label: l, uppercase: u },
        RefView::Command(c) => EventView::Command(c),
        RefView::ResolveInclude(s) => EventView::ResolveInclude(s),
        RefView::Text(s) => EventView::Text(s),
    }
}

/// Whether a link destination is a command.
pub open spec fn is_command_of(c: ConvConfig, typ: LinkType, dst: Seq<char>, title: Seq<char>) -> bool {
    c.commands.contains(link_target(typ, dst, title))
}

/// The alternative text of an image.
pub open spec fn alt_text_of(typ: LinkType, content: Seq<char>) -> Option<Seq<char>> {
    if (typ == LinkType::Reference || typ == LinkType::ReferenceUnknown || typ == LinkType::Inline)
        && content.len() > 0 {
        Some(content)
    } else {
        None
    }
}

/// An image: its content up to its end is the alternative text; its config gives label,
/// caption and size.
pub open spec fn conv_image(
    evs: Input,
    st: ConvState,
    typ: LinkType,
    dst: Seq<char>,
    title: Seq<char>,
    cs: Option<CskvpView>,
) -> ConvState {
    if bad(evs, st) {
        fail(st)
    } else {
        match concat_scan(evs, st.pos, 0, Seq::empty()) {
            None => fail(st),
            Some((content, q)) => if typ == LinkType::Autolink || typ == LinkType::Email {
                fail(at(st, q))
            } else {
                let cv = config_or_empty(cs);
                let s = remove_entry(cv.double, "scale"@);
                let w = remove_entry(s.1, "width"@);
                let h = remove_entry(w.1, "height"@);
                let inc = IncludeView {
                    skip_checks: false,
                    label: cv.label,
                    caption: cv.caption,
                    title: if title.len() == 0 {
                        None
                    } else {
                        Some(title)
                    },
                    alt_text: alt_text_of(typ, content),
                    dst,
                    scale: s.0,
                    width: w.0,
                    height: h.0,
                };
                let left = CskvpView { label: None, caption: None, double: h.1, ..cv };
                drop_config(emit(at(st, q), EventView::Include(inc)), cs, left)
            },
        }
    }
}

/// The file an svgbob drawing is rendered to, as a URL.
pub open spec fn svgbob_dst(dir: Seq<char>, n: nat) -> Seq<char> {
    "file://"@ + dir + "svgbob"@ + decimal(n) + ".svg"@
}

// ----------------------------------------------------------------------------------------
// elements that hold further events

/// Which end tag closes an element.
#[derive(PartialEq, Eq, Structural, Clone, Copy)]
pub enum EndOf {
    CodeBlock,
    Paragraph,
    Header,
    Table,
    Link,
}

pub open spec fn ends(e: CmarkEvent, k: EndOf) -> bool {
    match e {
        CmarkEvent::End(t) => match t {
            CmarkTag::CodeBlock(_) => k == EndOf::CodeBlock,
            CmarkTag::Paragraph => k == EndOf::Paragraph,
            CmarkTag::Header(_) => k == EndOf::Header,
            CmarkTag::Table(_) => k == EndOf::Table,
            CmarkTag::Link(..) => k == EndOf::Link,
            _ => false,
        },
        _ => false,
    }
}

/// What may follow a config before it: the elements that take one.
pub enum ElemView {
    Header(int),
    CodeBlock(Seq<char>),
    Table(Seq<Alignment>),
    Image(LinkType, Seq<char>, Seq<char>),
}

pub open spec fn elem_of(e: CmarkEvent) -> Option<ElemView> {
    match e {
        CmarkEvent::Start(CmarkTag::Header(l)) => Some(ElemView::Header(l as int)),
        CmarkEvent::Start(CmarkTag::CodeBlock(l)) => Some(ElemView::CodeBlock(l@)),
        CmarkEvent::Start(CmarkTag::Table(a)) => Some(ElemView::Table(a@)),
        CmarkEvent::Start(CmarkTag::Image(t, d, ti)) => Some(ElemView::Image(t, d@, ti@)),
        _ => None,
    }
}

/// Converts events up to the end tag `k`, which is taken too.  Besides the state, the
/// texts of the text events joined by spaces, and the start of the range of the first
/// event taken.
pub open spec fn until_end(
    evs: Input,
    c: ConvConfig,
    st: ConvState,
    k: EndOf,
    text: Seq<char>,
    first: Option<int>,
) -> (ConvState, Seq<char>, Option<int>)
    decreases evs.len() - st.pos, 0int,
{
    if bad(evs, st) {
        (fail(st), text, first)
    } else if st.pos >= evs.len() {
        (fail(st), text, first)
    } else {
        let e = evs[st.pos].0;
        let first2 = if first is None {
            Some(evs[st.pos].1.start as int)
        } else {
            first
        };
        let st1 = at(st, st.pos + 1);
        if ends(e, k) {
            (st1, text, first2)
        } else {
            let text2 = match e {
                CmarkEvent::Text(t) => if text.len() == 0 {
                    t@
                } else {
                    text + " "@ + t@
                },
                _ => text,
            };
            let st2 = after(evs, st1, conv_event(evs, c, st1, e, evs[st.pos].1));
            until_end(evs, c, st2, k, text2, first2)
        }
    }
}

/// One parser event, taken already; `st.pos` is after it.
pub open spec fn conv_event(evs: Input, c: ConvConfig, st: ConvState, e: CmarkEvent, r: SourceRange) -> ConvState
    decreases evs.len() - st.pos, 11int,
{
    if bad(evs, st) {
        fail(st)
    } else {
        match e {
            CmarkEvent::Code(t) => conv_inline_code(st, t@),
            CmarkEvent::Start(CmarkTag::CodeBlock(l)) => conv_code_block(evs, c, st, l@, r, None),
            CmarkEvent::Start(CmarkTag::Paragraph) => conv_paragraph(evs, c, st, r),
            CmarkEvent::Start(CmarkTag::Header(level)) => conv_header(evs, c, st, level as int, r, None),
            CmarkEvent::Start(CmarkTag::Table(al)) => conv_table(evs, c, st, al@, None),
            CmarkEvent::Start(CmarkTag::Link(typ, dst, title)) => conv_link(evs, c, st, typ, dst@, title@),
            CmarkEvent::Start(CmarkTag::Image(typ, dst, title)) => conv_image(
                evs,
                st,
                typ,
                dst@,
                title@,
                None,
            ),
            _ => if is_consumed_end(e) {
                fail(st)
            } else {
                emit(st, direct_view(e))
            },
        }
    }
}

/// A paragraph whose events are converted as they are.
pub open spec fn plain_paragraph(evs: Input, c: ConvConfig, st: ConvState) -> ConvState
    decreases evs.len() - st.pos, 2int,
{
    if bad(evs, st) {
        fail(st)
    } else {
        let st1 = until_end(evs, c, emit(st, EventView::Start(TagView::Paragraph)), EndOf::Paragraph, Seq::empty(), None).0;
        emit(st1, EventView::End(TagView::Paragraph))
    }
}

/// A paragraph whose first text `t` was taken already.
pub open spec fn text_paragraph(evs: Input, c: ConvConfig, st: ConvState, t: Seq<char>) -> ConvState
    decreases evs.len() - st.pos, 2int,
{
    if bad(evs, st) {
        fail(st)
    } else {
        let st1 = emit(emit(st, EventView::Start(TagView::Paragraph)), EventView::Text(t));
        let st2 = until_end(evs, c, st1, EndOf::Paragraph, Seq::empty(), None).0;
        emit(st2, EventView::End(TagView::Paragraph))
    }
}

/// The rest of a paragraph that a config started (unless it was all of it).
pub open spec fn finish_paragraph(evs: Input, c: ConvConfig, st: ConvState, end_par: bool) -> ConvState
    decreases evs.len() - st.pos, 2int,
{
    if bad(evs, st) {
        fail(st)
    } else if end_par {
        st
    } else {
        let st1 = until_end(evs, c, st, EndOf::Paragraph, Seq::empty(), None).0;
        emit(st1, EventView::End(TagView::Paragraph))
    }
}

/// A paragraph, taken already: a page break, a config for what follows, or text.
pub open spec fn conv_paragraph(evs: Input, c: ConvConfig, st: ConvState, r: SourceRange) -> ConvState
    decreases evs.len() - st.pos, 10int,
{
    if bad(evs, st) || st.pos >= evs.len() {
        fail(st)
    } else {
        let p = st.pos;
        if evs[p].0 matches CmarkEvent::Text(t) && is_pagebreak_spec(t@) {
            if p + 1 >= evs.len() {
                fail(st)
            } else if evs[p + 1].0 matches CmarkEvent::End(CmarkTag::Paragraph) {
                emit(at(st, p + 2), EventView::PageBreak)
            } else {
                paragraph_config(evs, c, st)
            }
        } else {
            paragraph_config(evs, c, st)
        }
    }
}

/// A paragraph that is not a page break: one whose first text is a config, alone or
/// followed by a soft break, configures what follows.
pub open spec fn paragraph_config(evs: Input, c: ConvConfig, st: ConvState) -> ConvState
    decreases evs.len() - st.pos, 9int,
{
    if bad(evs, st) || st.pos >= evs.len() {
        plain_paragraph(evs, c, st)
    } else {
        let p = st.pos;
        match evs[p].0 {
            CmarkEvent::Text(t) => if !is_element_config_spec(t@) {
                plain_paragraph(evs, c, st)
            } else if p + 1 >= evs.len() || !(evs[p + 1].0 matches CmarkEvent::End(
                CmarkTag::Paragraph,
            ) || evs[p + 1].0 matches CmarkEvent::SoftBreak) {
                text_paragraph(evs, c, at(st, p + 1), t@)
            } else {
                config_paragraph(
                    evs,
                    c,
                    at(st, p + 2),
                    t@,
                    evs[p].1,
                    evs[p + 1].0 matches CmarkEvent::End(CmarkTag::Paragraph),
                )
            },
            _ => plain_paragraph(evs, c, st),
        }
    }
}

/// The config `t` (at `tr`) of a paragraph, taken with the end of the paragraph or the
/// soft break after it.
pub open spec fn config_paragraph(
    evs: Input,
    c: ConvConfig,
    st: ConvState,
    t: Seq<char>,
    tr: SourceRange,
    end_par: bool,
) -> ConvState
    decreases evs.len() - st.pos, 8int,
{
    if bad(evs, st) {
        fail(st)
    } else {
        let st1 = if end_par {
            st
        } else {
            emit(st, EventView::Start(TagView::Paragraph))
        };
        let n = t.len();
        if n < 2 || char_width(t[0]) != 1 || char_width(t[n - 1]) != 1 || tr.end == 0 || tr.start
            + 1 > usize::MAX {
            fail(st1)
        } else {
            let inner = t.subrange(1, n - 1);
            let cstart = tr.start + 1;
            if cstart + utf8_len(inner) > usize::MAX {
                fail(st1)
            } else {
                let cv = cskvp_spec(inner, cstart);
                let st2 = ConvState { diags: st1.diags + cv.diags, ..st1 };
                apply_config(evs, c, st2, clean(cv), end_par)
            }
        }
    }
}

/// A paragraph's config `cv`, applied to what follows it: to the element that takes it, or
/// as a label.
pub open spec fn apply_config(evs: Input, c: ConvConfig, st: ConvState, cv: CskvpView, end_par: bool) -> ConvState
    decreases evs.len() - st.pos, 7int,
{
    if bad(evs, st) || st.pos >= evs.len() {
        fail(st)
    } else {
        match elem_of(evs[st.pos].0) {
            Some(el) => {
                let st1 = after(evs, st, handle_config(evs, c, at(st, st.pos + 1), cv, el, evs[st.pos].1));
                finish_paragraph(evs, c, st1, end_par)
            },
            None => {
                let st1 = match cv.label {
                    None => report(st, DiagnosticCode::UnapplicableElementConfig),
                    Some((l, _)) => emit(st, EventView::Label(l)),
                };
                let left = CskvpView { label: None, ..cv };
                drop_config(finish_paragraph(evs, c, st1, end_par), Some(cv), left)
            },
        }
    }
}

/// An element with config `cv` before it: a figure around it where the config or the
/// settings ask for one.
pub open spec fn handle_config(
    evs: Input,
    c: ConvConfig,
    st: ConvState,
    cv: CskvpView,
    el: ElemView,
    r: SourceRange,
) -> ConvState
    decreases evs.len() - st.pos, 6int,
{
    if bad(evs, st) {
        fail(st)
    } else {
        let fig = match cv.figure {
            Some((b, _)) => b,
            None => c.figures,
        };
        let cv1 = CskvpView { figure: None, ..cv };
        let ftag = if el is Table {
            TagView::TableFigure { label: cv1.label, caption: cv1.caption }
        } else {
            TagView::Figure { label: cv1.label, caption: cv1.caption }
        };
        let cv2 = if fig {
            CskvpView { label: None, caption: None, ..cv1 }
        } else {
            cv1
        };
        let st1 = if fig {
            emit(st, EventView::Start(ftag))
        } else {
            st
        };
        let st2 = match el {
            ElemView::Header(level) => conv_header(evs, c, st1, level, r, Some(cv2)),
            ElemView::CodeBlock(l) => conv_code_block(evs, c, st1, l, r, Some(cv2)),
            ElemView::Table(al) => conv_table(evs, c, st1, al, Some(cv2)),
            ElemView::Image(typ, dst, title) => conv_image(evs, st1, typ, dst, title, Some(cv2)),
        };
        if fig {
            emit(st2, EventView::End(ftag))
        } else {
            st2
        }
    }
}

/// The label of a heading from the prefix label, the inline label match and the heading's
/// text; `None` where the inline label's range does not fit.
pub open spec fn header_label(
    prefix: Option<Ranged>,
    inl: Option<(Seq<char>, int, int)>,
    fs: int,
    text: Seq<char>,
    r: SourceRange,
) -> Option<Ranged> {
    match inl {
        Some((l, s, e)) => if fs + e > usize::MAX {
            None
        } else {
            Some((l, (fs + s, fs + e)))
        },
        None => match prefix {
            Some(p) => Some(p),
            None => Some((autogenerated_label_spec(text), range_view(r))),
        },
    }
}

/// The heading's events with the inline label `{#..}` removed from its last text.
pub open spec fn strip_inline_label(inner: Seq<EventView>, inl: Option<(Seq<char>, int, int)>) -> Option<
    Seq<EventView>,
> {
    match inl {
        None => Some(inner),
        Some((l, _, _)) => if inner.len() == 0 {
            None
        } else {
            match inner.last() {
                EventView::Text(lt) => if utf8_len(lt) < utf8_len(l) + 2 {
                    None
                } else {
                    match inline_label_match(lt) {
                        None => None,
                        Some((_, s2, _)) => Some(
                            inner.drop_last().push(EventView::Text(lt.take(char_index(lt, s2)))),
                        ),
                    }
                },
                _ => None,
            }
        },
    }
}

/// A heading of `level`, taken already, with config `cs`.
pub open spec fn conv_header(
    evs: Input,
    c: ConvConfig,
    st: ConvState,
    level: int,
    r: SourceRange,
    cs: Option<CskvpView>,
) -> ConvState
    decreases evs.len() - st.pos, 3int,
{
    if bad(evs, st) {
        fail(st)
    } else {
        let cv = config_or_empty(cs);
        let prefix = cv.label;
        let left = CskvpView { label: None, ..cv };
        let n = st.out.len() as int;
        let (st1, text, first) = until_end(evs, c, st, EndOf::Header, Seq::empty(), None);
        let fs = match first {
            Some(f) => f,
            None => 0,
        };
        let inl = inline_label_match(text);
        if st1.failed {
            st1
        } else {
            match header_label(prefix, inl, fs, text, r) {
                None => fail(st1),
                Some(label) => {
                    let st2 = if prefix is Some && inl is Some {
                        report(st1, DiagnosticCode::MultipleLabels)
                    } else {
                        st1
                    };
                    let tag = TagView::Header { label, level };
                    match strip_inline_label(st2.out.skip(n), inl) {
                        None => fail(st2),
                        Some(inner) => {
                            let st3 = ConvState {
                                out: st2.out.take(n).push(EventView::Start(tag)) + inner,
                                ..st2
                            };
                            drop_config(emit(st3, EventView::End(tag)), cs, left)
                        },
                    }
                },
            }
        }
    }
}

/// Whether a code block's info string holds a config after a comma.
pub open spec fn has_comma(l: Seq<char>) -> bool {
    split_language_spec(l).1 is Some
}

/// A code block with info string `lang`, taken already; `r` is the range of its first
/// line without trailing whitespace.
pub open spec fn conv_code_block(
    evs: Input,
    c: ConvConfig,
    st: ConvState,
    lang: Seq<char>,
    r: SourceRange,
    cs: Option<CskvpView>,
) -> ConvState
    decreases evs.len() - st.pos, if has_comma(lang) && cs is None {
        7int
    } else {
        5int
    },
{
    if bad(evs, st) || utf8_len(lang) > r.end {
        fail(st)
    } else {
        let cs_start = r.end - utf8_len(lang);
        let sl = split_language_spec(lang);
        match sl.1 {
            Some((rest, p)) => {
                let language = sl.0;
                let lspan = (cs_start, cs_start + utf8_len(language));
                let inline = cskvp_spec(rest, cs_start + p + 1);
                let st1 = ConvState { diags: st.diags + inline.diags, ..st };
                match cs {
                    Some(_) => {
                        let st2 = report(st1, DiagnosticCode::CodeHasMultipleConfigs);
                        let st3 = drop_config(st2, Some(clean(inline)), clean(inline));
                        code_body(evs, c, st3, language, lspan, Some(empty_config()))
                    },
                    None => handle_config(
                        evs,
                        c,
                        st1,
                        clean(inline),
                        ElemView::CodeBlock(language),
                        r,
                    ),
                }
            },
            None => code_body(evs, c, st, lang, (cs_start, r.end as int), cs),
        }
    }
}

/// A code block by its language (at `lspan`), with config `cs`.
pub open spec fn code_body(
    evs: Input,
    c: ConvConfig,
    st: ConvState,
    language: Seq<char>,
    lspan: (int, int),
    cs: Option<CskvpView>,
) -> ConvState
    decreases evs.len() - st.pos, 4int,
{
    if bad(evs, st) {
        fail(st)
    } else {
        let cv = config_or_empty(cs);
        let k = code_block_kind_spec(language);
        if k.0 == 3 || k.0 == 4 {
            let p = st.pos;
            if p + 1 >= evs.len() {
                fail(st)
            } else {
                match evs[p].0 {
                    CmarkEvent::Text(t) => if !(evs[p + 1].0 matches CmarkEvent::End(
                        CmarkTag::CodeBlock(_),
                    )) {
                        fail(st)
                    } else if k.0 == 3 {
                        drop_config(emit(at(st, p + 2), EventView::Latex(t@)), cs, cv)
                    } else {
                        let ti = remove_entry(cv.double, "title"@);
                        let al = remove_entry(ti.1, "alt_text"@);
                        let s = remove_entry(al.1, "scale"@);
                        let w = remove_entry(s.1, "width"@);
                        let h = remove_entry(w.1, "height"@);
                        let inc = IncludeView {
                            skip_checks: true,
                            label: cv.label,
                            caption: cv.caption,
                            title: value_only(ti.0),
                            alt_text: value_only(al.0),
                            dst: svgbob_dst(c.svgbob_dir, st.svgbob.len()),
                            scale: s.0,
                            width: w.0,
                            height: h.0,
                        };
                        let st1 = ConvState { svgbob: st.svgbob.push(svgbob_svg(t@)), ..at(st, p + 2) };
                        let left = CskvpView { label: None, caption: None, double: h.1, ..cv };
                        drop_config(emit(st1, EventView::Include(inc)), cs, left)
                    },
                    _ => fail(st),
                }
            }
        } else {
            let s = remove_entry(cv.double, "scale"@);
            let w = remove_entry(s.1, "width"@);
            let h = remove_entry(w.1, "height"@);
            let tag = if k.0 == 0 {
                TagView::Equation { label: cv.label, caption: cv.caption }
            } else if k.0 == 1 {
                TagView::NumberedEquation { label: cv.label, caption: cv.caption }
            } else if k.0 == 2 {
                TagView::Graphviz {
                    label: cv.label,
                    caption: cv.caption,
                    scale: s.0,
                    width: w.0,
                    height: h.0,
                }
            } else {
                TagView::CodeBlock {
                    label: cv.label,
                    caption: cv.caption,
                    language: if k.1 is Some {
                        Some((language, lspan))
                    } else {
                        None
                    },
                }
            };
            let left = if k.0 == 2 {
                CskvpView { label: None, caption: None, double: h.1, ..cv }
            } else {
                CskvpView { label: None, caption: None, ..cv }
            };
            let st1 = if k.0 == 5 && language == "sequence"@ {
                report(st, DiagnosticCode::NotYetImplemented)
            } else {
                st
            };
            let st2 = until_end(evs, c, emit(st1, EventView::Start(tag)), EndOf::CodeBlock, Seq::empty(), None).0;
            drop_config(emit(st2, EventView::End(tag)), cs, left)
        }
    }
}

/// A table with column alignments `al`, taken already: the lines of its columns, then its
/// events.
pub open spec fn conv_table(
    evs: Input,
    c: ConvConfig,
    st: ConvState,
    al: Seq<Alignment>,
    cs: Option<CskvpView>,
) -> ConvState
    decreases evs.len() - st.pos, 3int,
{
    if bad(evs, st) {
        fail(st)
    } else {
        match table_scan(evs, st.pos, empty_columns(al.len() as int)) {
            None => fail(st),
            Some(cols) => {
                let cv = config_or_empty(cs);
                let tag = TagView::Table {
                    label: cv.label,
                    caption: cv.caption,
                    columns: zip_columns(al, cols),
                };
                let left = CskvpView { label: None, caption: None, ..cv };
                let st1 = until_end(evs, c, emit(st, EventView::Start(tag)), EndOf::Table, Seq::empty(), None).0;
                drop_config(emit(st1, EventView::End(tag)), cs, left)
            },
        }
    }
}

/// A link, taken already.
pub open spec fn conv_link(
    evs: Input,
    c: ConvConfig,
    st: ConvState,
    typ: LinkType,
    dst: Seq<char>,
    title: Seq<char>,
) -> ConvState
    decreases evs.len() - st.pos, 3int,
{
    if bad(evs, st) {
        fail(st)
    } else {
        let is_cmd = is_command_of(c, typ, dst, title);
        if !parse_references_ok(c.has_bibliography, typ, dst, title, is_cmd) {
            fail(st)
        } else {
            let rv = spec_parse_references(c.has_bibliography, typ, dst, title, is_cmd);
            match rv {
                RefView::UrlWithContent(d, t) => {
                    let tag = TagView::Url { destination: d, title: t };
                    let st1 = until_end(evs, c, emit(st, EventView::Start(tag)), EndOf::Link, Seq::empty(), None).0;
                    emit(st1, EventView::End(tag))
                },
                RefView::InterLinkWithContent(l, u) => {
                    let tag = TagView::InterLink { label: l, uppercase: u };
                    let st1 = until_end(evs, c, emit(st, EventView::Start(tag)), EndOf::Link, Seq::empty(), None).0;
                    emit(st1, EventView::End(tag))
                },
                _ => {
                    // a citation without a bibliography is reported and kept as text
                    let st0 = match rv {
                        RefView::Text(_) => report(st, DiagnosticCode::InvalidReference),
                        _ => st,
                    };
                    let st1 = emit(st0, ref_event(rv));
                    match consume_scan(evs, st.pos, 0) {
                        None => fail(st1),
                        Some(q) => at(st1, q),
                    }
                },
            }
        }
    }
}

// ----------------------------------------------------------------------------------------
// the whole input

/// Converts the events from `st.pos` on.
pub open spec fn convert_from(evs: Input, c: ConvConfig, st: ConvState) -> ConvState
    decreases evs.len() - st.pos,
{
    if st.failed || st.pos < 0 || st.pos >= evs.len() {
        st
    } else {
        let st1 = at(st, st.pos + 1);
        let st2 = after(evs, st1, conv_event(evs, c, st1, evs[st.pos].0, evs[st.pos].1));
        convert_from(evs, c, st2)
    }
}

/// The conversion of all events.
pub open spec fn conversion(evs: Input, c: ConvConfig) -> ConvState {
    convert_from(evs, c, start_state())
}

// ----------------------------------------------------------------------------------------
// joining adjacent texts

/// An event after adjacent texts are joined: a text with its range, or the input's event
/// at an index.
pub enum Joined {
    Text(Seq<char>, (int, int)),
    Event(int),
}

/// The texts from `j` on that continue a run of texts which so far reads `acc` and ends
/// at `end`: the whole run's text, its end, and the index after it; `None` where a text
/// starts before the previous one ends.
pub open spec fn text_run(evs: Input, j: int, acc: Seq<char>, end: int) -> Option<(Seq<char>, int, int)>
    decreases evs.len() - j,
{
    if j < 0 || j >= evs.len() {
        Some((acc, end, j))
    } else {
        match evs[j].0 {
            CmarkEvent::Text(t) => if end <= evs[j].1.start {
                text_run(evs, j + 1, acc + t@, evs[j].1.end as int)
            } else {
                None
            },
            _ => Some((acc, end, j)),
        }
    }
}

/// The events from `i` on with each run of adjacent texts joined into one.
pub open spec fn joined_from(evs: Input, i: int) -> Option<Seq<Joined>>
    decreases evs.len() - i,
{
    if i < 0 || i >= evs.len() {
        Some(Seq::empty())
    } else {
        match evs[i].0 {
            CmarkEvent::Text(t) => match text_run(evs, i + 1, t@, evs[i].1.end as int) {
                None => None,
                Some((text, end, j)) => if j <= i || j > evs.len() {
                    None
                } else {
                    match joined_from(evs, j) {
                        None => None,
                        Some(rest) => Some(seq![Joined::Text(text, (evs[i].1.start as int, end))] + rest),
                    }
                },
            },
            _ => match joined_from(evs, i + 1) {
                None => None,
                Some(rest) => Some(seq![Joined::Event(i)] + rest),
            },
        }
    }
}

/// `out` is the input with its adjacent texts joined as `m` says.
pub open spec fn joined_as(evs: Input, m: Seq<Joined>, out: Input) -> bool {
    &&& out.len() == m.len()
    &&& forall|k: int|
        0 <= k < m.len() ==> match #[trigger] m[k] {
            Joined::Text(t, r) => (out[k].0 matches CmarkEvent::Text(s) && s@ == t) && range_view(
                out[k].1,
            ) == r,
            Joined::Event(j) => 0 <= j < evs.len() && out[k] == evs[j],
        }
}

// ----------------------------------------------------------------------------------------
// laws

/// The document events of the parser events `from..to`, each converted on its own.
pub open spec fn direct_views(evs: Input, from: int, to: int) -> Seq<EventView> {
    Seq::new((to - from) as nat, |k: int| direct_view(evs[from + k].0))
}

/// Events that map one to one are converted one by one: where every event from the
/// current position on is such an event, the conversion appends their document events in
/// order, reports nothing and does not fail.
pub proof fn law_direct_events_one_to_one(evs: Input, c: ConvConfig, st: ConvState)
    requires
        0 <= st.pos <= evs.len(),
        !st.failed,
        forall|i: int| st.pos <= i < evs.len() ==> crate::frontend::is_direct(#[trigger] evs[i].0),
    ensures
        convert_from(evs, c, st) == (ConvState {
            pos: evs.len() as int,
            out: st.out + direct_views(evs, st.pos, evs.len() as int),
            ..st
        }),
    decreases evs.len() - st.pos,
{
    if st.pos < evs.len() {
        let e = evs[st.pos].0;
        assert(crate::frontend::is_direct(e));
        let st1 = at(st, st.pos + 1);
        let st2 = emit(st1, direct_view(e));
        assert(conv_event(evs, c, st1, e, evs[st.pos].1) == st2);
        assert(after(evs, st1, st2) == st2);
        law_direct_events_one_to_one(evs, c, st2);
        assert(st2.out + direct_views(evs, st2.pos, evs.len() as int) =~= st.out + direct_views(
            evs,
            st.pos,
            evs.len() as int,
        ));
    } else {
        assert(st.out + direct_views(evs, st.pos, evs.len() as int) =~= st.out);
    }
}

} // verus!

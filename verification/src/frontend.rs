//! Conversion of the markdown parser's events into the events of the document: inline
//! code and math, HTML line breaks, headings with their labels, code blocks with their
//! configs, page breaks, figures, images and links.
use vstd::prelude::*;

use crate::conversion::{direct_tag, direct_view};
use crate::event::{
    event_view, opt_view, tag_view, CmarkEvent, CmarkTag, Enumerate, Event,
    FootnoteDefinition, FootnoteReference, Tag, TaskListMarker,
};
use crate::event::{cmark_events_view, strs_view, CmarkEventView};
use crate::latex_complex::Alignment;
use crate::range::SourceRange;
use pulldown_cmark::{
    Alignment as CmAlignment, BrokenLink, CodeBlockKind as CmCodeBlockKind, CowStr, Event as CmEvent, LinkType as CmLinkType,
    Options, Parser, Tag as CmTag,
};
use crate::ext::{eq_ignore_ascii_case, lead_ws_count, trail_ws_count, CowExt};
use crate::refs::LinkType;
use crate::text::{
    ascii_lower, char_index, chars_of, char_width, eq_ignore_case, is_boundary, is_ws, is_whitespace, push_char,
    push_str, str_eq, string_from_range, trim, trim_end, trim_start, utf8_len,
};

verus! {

fn text(t: &str) -> (r: String)
    ensures
        r@ == t@,
{
    t.to_owned()
}

// ----------------------------------------------------------------------------------------
// links without a definition

/// Whether a text starts with `include`, ignoring ASCII case, and goes on after it.
pub open spec fn starts_with_include(t: Seq<char>) -> bool {
    &&& t.len() >= 7
    &&& eq_ignore_case(t.take(7), "include"@)
    &&& utf8_len(t) > 7
}

/// Whether a link reference without a definition is kept as a link: an include, a command,
/// a label (`#..`) or a citation (`@..`).
pub open spec fn keeps_broken_link(reference: Seq<char>, commands: Seq<Seq<char>>) -> bool {
    let t = trim(reference);
    ||| starts_with_include(t)
    ||| commands.contains(t)
    ||| (t.len() > 0 && (t[0] == '#' || t[0] == '@'))
}

/// For a link reference without a definition, the destination and title it gets: the
/// reference itself, where it is kept as a link.
pub fn broken_link_callback(reference: &str, commands: &Vec<String>) -> (r: Option<(String, String)>)
    ensures
        r is Some <==> keeps_broken_link(reference@, crate::event::strs_view(commands@)),
        r matches Some((d, t)) ==> d@ == reference@ && t@ == reference@,
{
    let v = chars_of(reference);
    let lead = lead_ws_count(v.as_slice());
    proof {
        crate::text::lemma_lead_ws_props(v@);
    }
    let rest = string_from_range(v.as_slice(), lead, v.len());
    assert(rest@ =~= trim_start(reference@));
    let w = chars_of(rest.as_str());
    let trail = trail_ws_count(w.as_slice());
    proof {
        crate::text::lemma_trail_ws_le(w@);
    }
    let trimmed = string_from_range(w.as_slice(), 0, w.len() - trail);
    assert(trimmed@ =~= trim_end(trim_start(reference@)));
    assert(trimmed@ == trim(reference@));
    let kept = starts_with_include_exec(trimmed.as_str())
        || contains_text(commands, trimmed.as_str())
        || starts_with_char(trimmed.as_str(), '#')
        || starts_with_char(trimmed.as_str(), '@');
    if kept {
        Some((reference.to_owned(), reference.to_owned()))
    } else {
        None
    }
}

/// The events that the markdown parser `pulldown_cmark` produces for a text, with their
/// source ranges, where a link reference without definition is kept as a link exactly where
/// `broken_link_callback` on the given commands keeps it.
pub uninterp spec fn cmark_events(markdown: Seq<char>, commands: Seq<Seq<char>>) -> Seq<(CmarkEventView, (int, int))>;

/// `pulldown_cmark::Parser::new_with_broken_link_callback` (footnotes, tables,
/// strikethrough and task lists enabled, the callback being `broken_link_callback` on the
/// commands) walked with `into_offset_iter`, each event turned into the library's own.
///
/// Trusted: the contract claims that the events are those named by `cmark_events` of the
/// text and the commands, and that each range lies within the text, as pulldown-cmark
/// documents of `into_offset_iter` (a range "maps to the corresponding range in the markdown
/// source"). What the events are takes the CommonMark grammar to state and is left to the
/// name.
#[verifier::external_body]
pub fn parse_markdown(markdown: &str, commands: &Vec<String>) -> (r: Vec<(CmarkEvent, SourceRange)>)
    ensures
        cmark_events_view(r@) == cmark_events(markdown@, strs_view(commands@)),
        forall|i: int| 0 <= i < r@.len() ==> #[trigger] r@[i].1.start <= r@[i].1.end <= utf8_len(markdown@),
{
    let mut callback = |l: BrokenLink<'_>| {
        broken_link_callback(&l.reference, commands).map(|(d, t)| (CowStr::from(d), CowStr::from(t)))
    };
    let options = Options::ENABLE_FOOTNOTES | Options::ENABLE_TABLES | Options::ENABLE_STRIKETHROUGH | Options::ENABLE_TASKLISTS;
    let parser = Parser::new_with_broken_link_callback(markdown, options, Some(&mut callback));
    parser.into_offset_iter().map(|(e, r)| (cm_event(e), SourceRange { start: r.start, end: r.end })).collect()
}

/// `pulldown_cmark::Event`, an outside type carried through the conversions below.
#[verifier::external_type_specification]
#[verifier::external_body]
pub struct ExCmEvent<'a>(CmEvent<'a>);

/// `pulldown_cmark::Tag`, an outside type carried through the conversions below.
#[verifier::external_type_specification]
#[verifier::external_body]
pub struct ExCmTag<'a>(CmTag<'a>);

/// `pulldown_cmark::CodeBlockKind`, an outside type carried through the conversions below.
#[verifier::external_type_specification]
#[verifier::external_body]
pub struct ExCmCodeBlockKind<'a>(CmCodeBlockKind<'a>);

/// `pulldown_cmark::LinkType`, an outside type carried through the conversions below.
#[verifier::external_type_specification]
#[verifier::external_body]
pub struct ExCmLinkType(CmLinkType);

/// `pulldown_cmark::Alignment`, an outside type carried through the conversions below.
#[verifier::external_type_specification]
#[verifier::external_body]
pub struct ExCmAlignment(CmAlignment);

/// A pulldown-cmark event as the library's, variant for variant, its texts taken by
/// `CowStr::into_string`.
///
/// Trusted: no contract; what `parse_markdown` returns is stated as a whole by
/// `cmark_events`.
#[verifier::external_body]
fn cm_event(e: CmEvent<'_>) -> CmarkEvent {
    match e {
        CmEvent::Start(t) => CmarkEvent::Start(cm_tag(t)),
        CmEvent::End(t) => CmarkEvent::End(cm_tag(t)),
        CmEvent::Text(t) => CmarkEvent::Text(t.into_string()),
        CmEvent::Code(t) => CmarkEvent::Code(t.into_string()),
        CmEvent::Html(t) => CmarkEvent::Html(t.into_string()),
        CmEvent::FootnoteReference(t) => CmarkEvent::FootnoteReference(t.into_string()),
        CmEvent::SoftBreak => CmarkEvent::SoftBreak,
        CmEvent::HardBreak => CmarkEvent::HardBreak,
        CmEvent::Rule => CmarkEvent::Rule,
        CmEvent::TaskListMarker(b) => CmarkEvent::TaskListMarker(b),
    }
}

/// A pulldown-cmark tag of a block as the library's, variant for variant (a heading by its
/// level's number); the other tags go to `cm_inline_tag`.
///
/// Trusted: no contract; what `parse_markdown` returns is stated as a whole by
/// `cmark_events`.
#[verifier::external_body]
fn cm_tag(t: CmTag<'_>) -> CmarkTag {
    match t {
        CmTag::Paragraph => CmarkTag::Paragraph,
        CmTag::Heading(level, _, _) => CmarkTag::Header(level as i32),
        CmTag::BlockQuote => CmarkTag::BlockQuote,
        CmTag::CodeBlock(kind) => CmarkTag::CodeBlock(cm_info(kind)),
        CmTag::List(start) => CmarkTag::List(start),
        CmTag::Item => CmarkTag::Item,
        CmTag::FootnoteDefinition(l) => CmarkTag::FootnoteDefinition(l.into_string()),
        CmTag::Table(a) => CmarkTag::Table(cm_alignments(a)),
        t => cm_inline_tag(t),
    }
}

/// A pulldown-cmark tag of a table part or of inline text as the library's, variant for
/// variant; the other tags go to `cm_tag`, which converts each of them.
///
/// Trusted: no contract; what `parse_markdown` returns is stated as a whole by
/// `cmark_events`.
#[verifier::external_body]
fn cm_inline_tag(t: CmTag<'_>) -> CmarkTag {
    match t {
        CmTag::TableHead => CmarkTag::TableHead,
        CmTag::TableRow => CmarkTag::TableRow,
        CmTag::TableCell => CmarkTag::TableCell,
        CmTag::Emphasis => CmarkTag::Emphasis,
        CmTag::Strong => CmarkTag::Strong,
        CmTag::Strikethrough => CmarkTag::Strikethrough,
        CmTag::Link(k, d, t) => CmarkTag::Link(cm_link_type(k), d.into_string(), t.into_string()),
        CmTag::Image(k, d, t) => CmarkTag::Image(cm_link_type(k), d.into_string(), t.into_string()),
        t => cm_tag(t),
    }
}

/// The info string of a fenced code block; empty for an indented one.
///
/// Trusted: no contract; what `parse_markdown` returns is stated as a whole by
/// `cmark_events`.
#[verifier::external_body]
fn cm_info(k: CmCodeBlockKind<'_>) -> String {
    match k {
        CmCodeBlockKind::Fenced(info) => info.into_string(),
        CmCodeBlockKind::Indented => String::new(),
    }
}

/// A pulldown-cmark link type as the library's, variant for variant.
///
/// Trusted: no contract; what `parse_markdown` returns is stated as a whole by
/// `cmark_events`.
#[verifier::external_body]
fn cm_link_type(k: CmLinkType) -> LinkType {
    match k {
        CmLinkType::Inline => LinkType::Inline,
        CmLinkType::Reference => LinkType::Reference,
        CmLinkType::ReferenceUnknown => LinkType::ReferenceUnknown,
        CmLinkType::Collapsed => LinkType::Collapsed,
        CmLinkType::CollapsedUnknown => LinkType::CollapsedUnknown,
        CmLinkType::Shortcut => LinkType::Shortcut,
        CmLinkType::ShortcutUnknown => LinkType::ShortcutUnknown,
        CmLinkType::Autolink => LinkType::Autolink,
        CmLinkType::Email => LinkType::Email,
    }
}

/// A table's column alignments as the library's, one for one (`None` as unaligned).
///
/// Trusted: no contract; what `parse_markdown` returns is stated as a whole by
/// `cmark_events`.
#[verifier::external_body]
fn cm_alignments(a: Vec<CmAlignment>) -> Vec<Alignment> {
    a.into_iter().map(|a| match a {
        CmAlignment::None => Alignment::Unaligned,
        CmAlignment::Left => Alignment::Left,
        CmAlignment::Center => Alignment::Center,
        CmAlignment::Right => Alignment::Right,
    }).collect()
}

fn starts_with_include_exec(t: &str) -> (r: bool)
    ensures
        r == starts_with_include(t@),
{
    let v = chars_of(t);
    if v.len() < 7 {
        return false;
    }
    let word = chars_of("include");
    let head = v.as_slice().split_at(7).0;
    assert(head@ =~= v@.take(7));
    eq_ignore_ascii_case(head, word.as_slice()) && crate::ext::byte_len(t) > 7
}

/// Whether `t` is one of `v`.
fn contains_text(v: &Vec<String>, t: &str) -> (r: bool)
    ensures
        r == crate::event::strs_view(v@).contains(t@),
{
    let mut i: usize = 0;
    while i < v.len()
        invariant
            i <= v@.len(),
            forall|j: int| 0 <= j < i ==> v@[j]@ != t@,
        decreases v@.len() - i,
    {
        if str_eq(v[i].as_str(), t) {
            assert(crate::event::strs_view(v@)[i as int] == t@);
            return true;
        }
        i = i + 1;
    }
    assert forall|j: int| 0 <= j < crate::event::strs_view(v@).len() implies crate::event::strs_view(
        v@,
    )[j] != t@ by {
        assert(crate::event::strs_view(v@)[j] == v@[j]@);
    }
    false
}

/// Whether `t` starts with `c`.
fn starts_with_char(t: &str, c: char) -> (r: bool)
    ensures
        r == (t@.len() > 0 && t@[0] == c),
{
    let v = chars_of(t);
    v.len() > 0 && v[0] == c
}

// ----------------------------------------------------------------------------------------
// html

/// HTML that is a line break.
pub open spec fn is_html_break(h: Seq<char>) -> bool {
    h == "<br>"@ || h == "<br/>"@ || h == "<br />"@
}

/// HTML: a line break becomes a hard break, anything else is passed on.
pub fn convert_html(html: String) -> (r: Event)
    ensures
        is_html_break(html@) ==> r is HardBreak,
        !is_html_break(html@) ==> (r matches Event::Html(h) && h@ == html@),
{
    if str_eq(html.as_str(), "<br>") || str_eq(html.as_str(), "<br/>") || str_eq(
        html.as_str(),
        "<br />",
    ) {
        Event::HardBreak
    } else {
        Event::Html(html)
    }
}

// ----------------------------------------------------------------------------------------
// inline code

/// How inline code `` `x y` `` is read: `$ ` starts inline math, `\ ` raw LaTeX, anything
/// else is code.
pub enum InlineCodeView {
    Math(Seq<char>),
    Latex(Seq<char>),
    Code(Seq<char>),
}

pub open spec fn inline_code_spec(t: Seq<char>) -> InlineCodeView {
    if t.len() >= 2 && is_ws(t[1]) && t[0] == '$' {
        InlineCodeView::Math(t.skip(2))
    } else if t.len() >= 2 && is_ws(t[1]) && t[0] == '\\' {
        InlineCodeView::Latex(t.skip(2))
    } else {
        InlineCodeView::Code(t)
    }
}

/// The events of inline code, to be placed at its range.
pub fn convert_inline_code(code: String) -> (r: Vec<Event>)
    requires
        code@.len() >= 2 && is_ws(code@[1]) && (code@[0] == '$' || code@[0] == '\\') ==> char_width(
            code@[1],
        ) == 1,
    ensures
        match inline_code_spec(code@) {
            InlineCodeView::Math(m) => r@.len() == 3 && (r@[0] matches Event::Start(Tag::InlineMath))
                && (r@[1] matches Event::Text(t) && t@ == m) && (r@[2] matches Event::End(Tag::InlineMath)),
            InlineCodeView::Latex(l) => r@.len() == 1 && (r@[0] matches Event::Latex(t) && t@ == l),
            InlineCodeView::Code(c) => r@.len() == 3 && (r@[0] matches Event::Start(Tag::InlineCode))
                && (r@[1] matches Event::Text(t) && t@ == c) && (r@[2] matches Event::End(Tag::InlineCode)),
        },
{
    let v = chars_of(code.as_str());
    let mut code = code;
    if v.len() >= 2 && is_whitespace(v[1]) && (v[0] == '$' || v[0] == '\\') {
        proof {
            crate::refs::lemma_ascii_prefix(v@, 2);
            crate::text::lemma_char_index(v@, 2);
        }
        CowExt::truncate_start(&mut code, 2);
        if v[0] == '$' {
            vec![Event::Start(Tag::InlineMath), Event::Text(code), Event::End(Tag::InlineMath)]
        } else {
            vec![Event::Latex(code)]
        }
    } else {
        vec![Event::Start(Tag::InlineCode), Event::Text(code), Event::End(Tag::InlineCode)]
    }
}

// ----------------------------------------------------------------------------------------
// headings

/// Whether a character is an ASCII letter or digit.
pub open spec fn is_ascii_alnum(c: char) -> bool {
    ('a' <= c && c <= 'z') || ('A' <= c && c <= 'Z') || ('0' <= c && c <= '9')
}

/// A character of the label generated from a heading's text: ASCII letters (in lowercase)
/// and digits are kept, every other character becomes `-`.
pub open spec fn label_char(c: char) -> char {
    if is_ascii_alnum(c) {
        ascii_lower(c)
    } else {
        '-'
    }
}

/// The label generated from a heading's text, character by character.
pub open spec fn autogenerated_label_spec(t: Seq<char>) -> Seq<char> {
    t.map_values(|c: char| label_char(c))
}

/// The label of a heading without an explicit one.
pub fn autogenerated_label(t: &str) -> (r: String)
    ensures
        r@ == autogenerated_label_spec(t@),
{
    let v = chars_of(t);
    let mut out = String::new();
    let mut i: usize = 0;
    while i < v.len()
        invariant
            i <= v@.len(),
            out@ =~= autogenerated_label_spec(v@.take(i as int)),
        decreases v@.len() - i,
    {
        let c = v[i];
        if ('a' <= c && c <= 'z') || ('A' <= c && c <= 'Z') || ('0' <= c && c <= '9') {
            push_char(&mut out, crate::text::to_ascii_lower(c));
        } else {
            push_char(&mut out, '-');
        }
        assert(out@ =~= autogenerated_label_spec(v@.take(i + 1)));
        i = i + 1;
    }
    assert(v@.take(i as int) =~= t@);
    out
}

/// What the inline-label pattern `\{#([a-zA-Z0-9-_]+)\}\w*$` finds in a heading's text:
/// the label, and the byte range of the whole match.
pub uninterp spec fn inline_label_match(t: Seq<char>) -> Option<(Seq<char>, int, int)>;

/// The inline label of a heading's text (`regex::Regex::captures`).
///
/// Trusted: the contract claims only that the result is named by `inline_label_match`, and,
/// as the regex crate documents, that the match's range lies within the text and starts and
/// ends on character boundaries.  The pattern's
/// language is not stated.
#[verifier::external_body]
pub fn inline_label(t: &str) -> (r: Option<(String, usize, usize)>)
    ensures
        match r {
            Some((l, s, e)) => inline_label_match(t@) == Some((l@, s as int, e as int)) && s <= e
                <= utf8_len(t@) && is_boundary(t@, s as int) && is_boundary(t@, e as int),
            None => inline_label_match(t@) is None,
        },
{
    let re = regex::Regex::new(r"\{#([a-zA-Z0-9-_]+)\}\w*$").unwrap();
    match re.captures(t) {
        Some(c) => match (c.get(0), c.get(1)) {
            (Some(g0), Some(g1)) => Some((g1.as_str().to_string(), g0.start(), g0.end())),
            _ => None,
        },
        None => None,
    }
}

// ----------------------------------------------------------------------------------------
// paragraphs

/// A paragraph's first text that is an element config: trimmed, it is wrapped in braces.
pub open spec fn is_element_config_spec(t: Seq<char>) -> bool {
    let tr = trim(t);
    tr.len() > 0 && tr[0] == '{' && tr.last() == '}'
}

pub fn is_element_config(t: &str) -> (r: bool)
    ensures
        r == is_element_config_spec(t@),
{
    let mut s = text(t);
    CowExt::trim_inplace(&mut s);
    let v = chars_of(s.as_str());
    v.len() > 0 && v[0] == '{' && v[v.len() - 1] == '}'
}

/// A character of the page break pattern's class `[=\s*]`: `=`, `*` or whitespace.
pub open spec fn pagebreak_char(c: char) -> bool {
    c == '=' || c == '*' || is_ws(c)
}

/// Whether the pattern `[=\s*]{3,}` matches somewhere in a text: three characters of its
/// class in a row.
pub open spec fn pagebreak_pattern_match(t: Seq<char>) -> bool {
    exists|i: int|
        0 <= i && i + 3 <= t.len() && #[trigger] pagebreak_char(t[i]) && pagebreak_char(t[i + 1])
            && pagebreak_char(t[i + 2])
}

/// `regex::Regex::is_match` with the page break pattern.
///
/// Trusted: the contract claims that the pattern matches exactly where three characters of
/// its class stand in a row (the regex crate documents `\s` as Unicode `White_Space`, and a
/// run of three or more holds a run of three).
#[verifier::external_body]
fn pagebreak_pattern(t: &str) -> (r: bool)
    ensures
        r == pagebreak_pattern_match(t@),
{
    let re = regex::Regex::new(r"[=\s*]{3,}").unwrap();
    re.is_match(t)
}

/// What svgbob renders of an ASCII drawing: an SVG document.
pub uninterp spec fn svgbob_svg(ascii: Seq<char>) -> Seq<char>;

/// `svgbob::to_svg`.
///
/// Trusted: the contract claims only that, where the call returns, the result is named by
/// `svgbob_svg`, a function of the drawing alone (svgbob builds it cell by cell into
/// ordered maps); the rendering itself is not stated. svgbob's source holds `expect` and
/// `unwrap` calls on the way (in its cell, span and rect code) whose conditions neither its
/// source nor its documentation characterize by the input, so no input is excluded here on
/// which the call may panic.
#[verifier::external_body]
pub fn render_svgbob(ascii: &str) -> (r: String)
    ensures
        r@ == svgbob_svg(ascii@),
{
    svgbob::to_svg(ascii)
}

/// A paragraph whose only text starts with `=` and matches the page break pattern.
pub open spec fn is_pagebreak_spec(t: Seq<char>) -> bool {
    t.len() > 0 && t[0] == '=' && pagebreak_pattern_match(t)
}

pub fn is_pagebreak(t: &str) -> (r: bool)
    ensures
        r == is_pagebreak_spec(t@),
{
    let v = chars_of(t);
    if v.len() > 0 && v[0] == '=' {
        pagebreak_pattern(t)
    } else {
        false
    }
}

// ----------------------------------------------------------------------------------------
// code blocks

/// The language of a code block `lang,config`, and its config with its byte offset.
pub open spec fn split_language_spec(lang: Seq<char>) -> (Seq<char>, Option<(Seq<char>, int)>) {
    if lang.contains(',') {
        let pos = crate::refs::first_from(lang, ',', 0);
        (lang.take(pos), Some((lang.skip(pos + 1), utf8_len(lang.take(pos)) as int)))
    } else {
        (lang, None)
    }
}

/// Splits the info string of a code block at its first comma.
pub fn split_language(lang: String) -> (r: (String, Option<(String, usize)>))
    ensures
        r.0@ == split_language_spec(lang@).0,
        match split_language_spec(lang@).1 {
            Some((c, p)) => r.1 matches Some((cc, pp)) && cc@ == c && pp as int == p,
            None => r.1 is None,
        },
{
    let v = chars_of(lang.as_str());
    let mut i: usize = 0;
    while i < v.len() && v[i] != ','
        invariant
            i <= v@.len(),
            crate::refs::first_from(v@, ',', i as int) == crate::refs::first_from(v@, ',', 0),
            forall|j: int| 0 <= j < i ==> v@[j] != ',',
        decreases v@.len() - i,
    {
        i = i + 1;
    }
    if i < v.len() {
        assert(v@.contains(','));
        let total = crate::ext::byte_len(lang.as_str());
        let pos = crate::ext::prefix_byte_len(v.as_slice(), i, total);
        let l = crate::text::string_from_range(v.as_slice(), 0, i);
        let rest = crate::text::string_from_range(v.as_slice(), i + 1, v.len());
        assert(l@ =~= v@.take(i as int));
        assert(rest@ =~= v@.skip(i + 1));
        (l, Some((rest, pos)))
    } else {
        assert(!v@.contains(',')) by {
            if v@.contains(',') {
                let k = choose|k: int| 0 <= k < v@.len() && v@[k] == ',';
                assert(v@[k] != ',');
            }
        }
        (lang, None)
    }
}

/// What a code block's language makes of it.
#[derive(Debug, PartialEq, Eq)]
pub enum CodeBlockKind {
    Equation,
    NumberedEquation,
    Graphviz,
    InlineLatex,
    Svgbob,
    /// A listing in the given language; `None` for no language, and for `sequence`, which is
    /// not yet implemented (a warning).
    Code(Option<String>),
}

pub open spec fn code_block_kind_spec(l: Seq<char>) -> (int, Option<Seq<char>>) {
    if l == "equation"@ || l == "$$"@ {
        (0, None)
    } else if l == "numberedequation"@ || l == "$$$"@ {
        (1, None)
    } else if l == "graphviz"@ {
        (2, None)
    } else if l == "inlinelatex"@ {
        (3, None)
    } else if l == "svgbob"@ {
        (4, None)
    } else if l.len() == 0 || l == "sequence"@ {
        (5, None)
    } else {
        (5, Some(l))
    }
}

pub open spec fn code_block_kind_view(k: CodeBlockKind) -> (int, Option<Seq<char>>) {
    match k {
        CodeBlockKind::Equation => (0, None),
        CodeBlockKind::NumberedEquation => (1, None),
        CodeBlockKind::Graphviz => (2, None),
        CodeBlockKind::InlineLatex => (3, None),
        CodeBlockKind::Svgbob => (4, None),
        CodeBlockKind::Code(l) => (5, opt_view(l)),
    }
}

/// A code block is a numbered equation exactly where its language is `numberedequation`
/// or its short form `$$$`; an unnumbered one exactly where it is `equation` or `$$`.
pub proof fn law_equation_languages(l: Seq<char>)
    ensures
        code_block_kind_spec(l) == code_block_kind_view(CodeBlockKind::NumberedEquation) <==> (l
            == "numberedequation"@ || l == "$$$"@),
        code_block_kind_spec(l) == code_block_kind_view(CodeBlockKind::Equation) <==> (l
            == "equation"@ || l == "$$"@),
{
    reveal_strlit("equation");
    reveal_strlit("$$");
    reveal_strlit("numberedequation");
    reveal_strlit("$$$");
    assert("numberedequation"@.len() == 16 && "equation"@.len() == 8);
    assert("$$$"@.len() == 3 && "$$"@.len() == 2);
}

/// The other kinds by their languages: `graphviz`, `inlinelatex` and `svgbob` name their
/// kinds, and any other language but `sequence` is a listing in that very language.
pub proof fn law_other_languages(l: Seq<char>)
    ensures
        code_block_kind_spec(l) == code_block_kind_view(CodeBlockKind::Graphviz) <==> l == "graphviz"@,
        code_block_kind_spec(l) == code_block_kind_view(CodeBlockKind::InlineLatex) <==> l
            == "inlinelatex"@,
        code_block_kind_spec(l) == code_block_kind_view(CodeBlockKind::Svgbob) <==> l == "svgbob"@,
        l.len() > 0 && l != "sequence"@ && l != "equation"@ && l != "$$"@ && l != "numberedequation"@
            && l != "$$$"@ && l != "graphviz"@ && l != "inlinelatex"@ && l != "svgbob"@
            ==> code_block_kind_spec(l) == (5int, Some(l)),
{
    reveal_strlit("equation");
    reveal_strlit("$$");
    reveal_strlit("numberedequation");
    reveal_strlit("$$$");
    reveal_strlit("graphviz");
    reveal_strlit("inlinelatex");
    reveal_strlit("svgbob");
    assert("graphviz"@[0] != "equation"@[0]);
    assert("graphviz"@.len() == 8 && "equation"@.len() == 8 && "inlinelatex"@.len() == 11);
    assert("svgbob"@.len() == 6 && "$$"@.len() == 2 && "$$$"@.len() == 3);
    assert("numberedequation"@.len() == 16);
}

/// The short forms of the equation languages give the same kinds as the long ones, and
/// `$$$` differs from `$$` in numbering the equation.
pub proof fn law_equation_short_forms()
    ensures
        code_block_kind_spec("$$$"@) == code_block_kind_spec("numberedequation"@),
        code_block_kind_spec("$$"@) == code_block_kind_spec("equation"@),
        code_block_kind_spec("$$$"@) != code_block_kind_spec("$$"@),
{
    law_equation_languages("$$$"@);
    law_equation_languages("numberedequation"@);
    law_equation_languages("$$"@);
    law_equation_languages("equation"@);
}

/// The kind of a code block by its language.
pub fn code_block_kind(language: String) -> (r: CodeBlockKind)
    ensures
        code_block_kind_view(r) == code_block_kind_spec(language@),
{
    let l = language.as_str();
    if str_eq(l, "equation") || str_eq(l, "$$") {
        CodeBlockKind::Equation
    } else if str_eq(l, "numberedequation") || str_eq(l, "$$$") {
        CodeBlockKind::NumberedEquation
    } else if str_eq(l, "graphviz") {
        CodeBlockKind::Graphviz
    } else if str_eq(l, "inlinelatex") {
        CodeBlockKind::InlineLatex
    } else if str_eq(l, "svgbob") {
        CodeBlockKind::Svgbob
    } else if l.is_empty() || str_eq(l, "sequence") {
        CodeBlockKind::Code(None)
    } else {
        CodeBlockKind::Code(Some(language))
    }
}

// ----------------------------------------------------------------------------------------
// figures, images, links

/// The alternative text of an image: its content for inline and reference images, where
/// there is any.
pub fn image_alt_text(typ: LinkType, content: String) -> (r: Option<String>)
    requires
        typ != LinkType::Autolink && typ != LinkType::Email,
    ensures
        match typ {
            LinkType::Reference | LinkType::ReferenceUnknown | LinkType::Inline => if content@.len()
                == 0 {
                r is None
            } else {
                r matches Some(a) && a@ == content@
            },
            _ => r is None,
        },
{
    match typ {
        LinkType::Reference | LinkType::ReferenceUnknown | LinkType::Inline => {
            if content.as_str().is_empty() {
                None
            } else {
                Some(content)
            }
        },
        _ => None,
    }
}

// ----------------------------------------------------------------------------------------
// events that map one to one

/// The parser events that become one document event directly; the others (code, code
/// blocks, paragraphs, headings, tables, links, images) are converted with what follows.
pub open spec fn is_direct(e: CmarkEvent) -> bool {
    match e {
        CmarkEvent::Code(_) => false,
        CmarkEvent::Start(CmarkTag::CodeBlock(_)) | CmarkEvent::Start(CmarkTag::Paragraph)
        | CmarkEvent::Start(CmarkTag::Header(_)) | CmarkEvent::Start(CmarkTag::Table(_))
        | CmarkEvent::Start(CmarkTag::Link(..)) | CmarkEvent::Start(CmarkTag::Image(..)) => false,
        CmarkEvent::End(CmarkTag::CodeBlock(_)) | CmarkEvent::End(CmarkTag::Paragraph)
        | CmarkEvent::End(CmarkTag::Header(_)) | CmarkEvent::End(CmarkTag::Table(_))
        | CmarkEvent::End(CmarkTag::Link(..)) | CmarkEvent::End(CmarkTag::Image(..)) => false,
        _ => true,
    }
}

/// The ends of the elements that are converted with what follows them; they are taken
/// where their start is.
pub open spec fn is_consumed_end(e: CmarkEvent) -> bool {
    match e {
        CmarkEvent::End(CmarkTag::CodeBlock(_)) | CmarkEvent::End(CmarkTag::Paragraph)
        | CmarkEvent::End(CmarkTag::Header(_)) | CmarkEvent::End(CmarkTag::Table(_))
        | CmarkEvent::End(CmarkTag::Link(..)) | CmarkEvent::End(CmarkTag::Image(..)) => true,
        _ => false,
    }
}

/// Converts a parser event that maps one to one.
pub fn convert_direct(e: &CmarkEvent) -> (r: Event)
    requires
        is_direct(*e),
    ensures
        event_view(r) == direct_view(*e),
{
    match e {
        CmarkEvent::Text(t) => Event::Text(t.clone()),
        CmarkEvent::Html(h) => convert_html(h.clone()),
        CmarkEvent::FootnoteReference(label) => Event::FootnoteReference(
            FootnoteReference { label: label.clone() },
        ),
        CmarkEvent::SoftBreak => Event::SoftBreak,
        CmarkEvent::HardBreak => Event::HardBreak,
        CmarkEvent::Rule => Event::Rule,
        CmarkEvent::TaskListMarker(checked) => Event::TaskListMarker(TaskListMarker { checked: *checked }),
        CmarkEvent::Start(t) => Event::Start(direct_tag_of(t)),
        CmarkEvent::End(t) => Event::End(direct_tag_of(t)),
        _ => Event::Rule,
    }
}

/// The tag of a parser tag that maps one to one.
fn direct_tag_of(t: &CmarkTag) -> (r: Tag)
    ensures
        tag_view(r) == direct_tag(*t),
{
    match t {
        CmarkTag::BlockQuote => Tag::BlockQuote,
        CmarkTag::List(None) => Tag::List,
        CmarkTag::List(Some(start_number)) => Tag::Enumerate(Enumerate { start_number: *start_number }),
        CmarkTag::Item => Tag::Item,
        CmarkTag::FootnoteDefinition(label) => Tag::FootnoteDefinition(
            FootnoteDefinition { label: label.clone() },
        ),
        CmarkTag::TableHead => Tag::TableHead,
        CmarkTag::TableRow => Tag::TableRow,
        CmarkTag::TableCell => Tag::TableCell,
        CmarkTag::Emphasis => Tag::InlineEmphasis,
        CmarkTag::Strong => Tag::InlineStrong,
        CmarkTag::Strikethrough => Tag::InlineStrikethrough,
        _ => Tag::Paragraph,
    }
}

/// What a text-like event adds to the concatenated text of an element: texts and HTML as
/// they are, code in backticks, breaks as a space.
pub open spec fn concat_piece(e: CmarkEvent) -> Seq<char> {
    match e {
        CmarkEvent::Text(t) => t@,
        CmarkEvent::Code(t) => "`"@ + t@ + "`"@,
        CmarkEvent::Html(h) => h@,
        CmarkEvent::SoftBreak | CmarkEvent::HardBreak => " "@,
        _ => Seq::empty(),
    }
}

pub fn concat_piece_of(e: &CmarkEvent) -> (r: String)
    ensures
        r@ == concat_piece(*e),
{
    match e {
        CmarkEvent::Text(t) => t.clone(),
        CmarkEvent::Code(t) => {
            let mut s = text("`");
            push_str(&mut s, t.as_str());
            push_str(&mut s, "`");
            s
        },
        CmarkEvent::Html(h) => h.clone(),
        CmarkEvent::SoftBreak | CmarkEvent::HardBreak => text(" "),
        _ => String::new(),
    }
}

/// The characters a generated label consists of.
pub open spec fn label_char_ok(c: char) -> bool {
    ('a' <= c && c <= 'z') || ('0' <= c && c <= '9') || c == '-'
}

/// Labels generated for headings keep the heading's text character by character, with
/// ASCII letters in lowercase, digits as they are and every other character replaced by
/// `-`; so they consist of lowercase ASCII letters, digits and `-` only.
pub proof fn law_generated_label_chars(t: Seq<char>)
    ensures
        autogenerated_label_spec(t).len() == t.len(),
        forall|i: int|
            0 <= i < t.len() ==> #[trigger] autogenerated_label_spec(t)[i] == (if is_ascii_alnum(t[i]) {
                ascii_lower(t[i])
            } else {
                '-'
            }),
        forall|i: int|
            0 <= i < autogenerated_label_spec(t).len() ==> label_char_ok(
                #[trigger] autogenerated_label_spec(t)[i],
            ),
{
    assert forall|i: int|
        0 <= i < autogenerated_label_spec(t).len() implies label_char_ok(
            #[trigger] autogenerated_label_spec(t)[i],
        ) by {
        let c = t[i];
        if 'A' <= c && c <= 'Z' {
            assert(ascii_lower(c) == ((c as u32) + 32) as char);
        }
    }
}

} // verus!

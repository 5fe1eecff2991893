//! Payloads of the document events that the frontend hands to the backend.
use vstd::prelude::*;

use crate::latex_complex::Alignment;
use crate::range::{SourceRange, WithRange};
use crate::refs::LinkType;

verus! {

/// A reference to a footnote by its label.
#[derive(Debug, Clone)]
pub struct FootnoteReference {
    pub label: String,
}

/// A biber citation key with optional attributes (`@key attr`).
#[derive(Debug, Clone)]
pub struct BiberReference {
    pub reference: String,
    pub attributes: Option<String>,
}

/// A link to an outside destination.
#[derive(Debug, Clone)]
pub struct Url {
    pub destination: String,
    pub title: Option<String>,
}

/// A link to a label inside the document.
#[derive(Debug, Clone)]
pub struct InterLink {
    pub label: String,
    pub uppercase: bool,
}

/// The checkbox of a task-list item.
#[derive(Debug, Clone, Copy)]
pub struct TaskListMarker {
    pub checked: bool,
}

/// An ordered list starting at `start_number`.
#[derive(Debug, Clone, Copy)]
pub struct Enumerate {
    pub start_number: u64,
}

/// The definition of a footnote by its label.
#[derive(Debug, Clone)]
pub struct FootnoteDefinition {
    pub label: String,
}

/// View of an optional text.
pub open spec fn opt_view(o: Option<String>) -> Option<Seq<char>> {
    match o {
        Some(s) => Some(s@),
        None => None,
    }
}

/// Where an include may be read from.
#[derive(Debug, Clone, Copy, PartialEq, Eq, Structural)]
pub enum ResolveSecurity {
    Default,
    SkipChecks,
}

/// A heading with its label and level.
#[derive(Debug, Clone)]
pub struct Header {
    pub label: WithRange<String>,
    pub level: i32,
}

/// A code block with its label, caption and language.
#[derive(Debug, Clone)]
pub struct CodeBlock {
    pub label: Option<WithRange<String>>,
    pub caption: Option<WithRange<String>>,
    pub language: Option<WithRange<String>>,
}

/// A floating figure with its label and caption.
#[derive(Debug, Clone)]
pub struct Figure {
    pub label: Option<WithRange<String>>,
    pub caption: Option<WithRange<String>>,
}

/// A table: label, caption, and for each column its alignment and the lines of its cells
/// (from which the column widths are computed).
#[derive(Debug, Clone)]
pub struct Table {
    pub label: Option<WithRange<String>>,
    pub caption: Option<WithRange<String>>,
    pub columns: Vec<(Alignment, Vec<String>)>,
}

/// An included file or image.
#[derive(Debug, Clone)]
pub struct Include {
    pub resolve_security: ResolveSecurity,
    pub label: Option<WithRange<String>>,
    pub caption: Option<WithRange<String>>,
    pub title: Option<String>,
    pub alt_text: Option<String>,
    pub dst: String,
    pub scale: Option<WithRange<String>>,
    pub width: Option<WithRange<String>>,
    pub height: Option<WithRange<String>>,
}

/// A block of math with its label and caption.
#[derive(Debug, Clone)]
pub struct Equation {
    pub label: Option<WithRange<String>>,
    pub caption: Option<WithRange<String>>,
}

/// A graphviz graph with its label, caption and size.
#[derive(Debug, Clone)]
pub struct Graphviz {
    pub label: Option<WithRange<String>>,
    pub caption: Option<WithRange<String>>,
    pub scale: Option<WithRange<String>>,
    pub width: Option<WithRange<String>>,
    pub height: Option<WithRange<String>>,
}

/// Elements that contain further elements.
#[derive(Debug, Clone)]
pub enum Tag {
    Paragraph,
    Header(Header),
    BlockQuote,
    CodeBlock(CodeBlock),
    List,
    Enumerate(Enumerate),
    Item,
    FootnoteDefinition(FootnoteDefinition),
    /// Url with content
    Url(Url),
    /// InterLink with content
    InterLink(InterLink),
    Figure(Figure),
    TableFigure(Figure),
    Table(Table),
    TableHead,
    TableRow,
    TableCell,
    InlineEmphasis,
    InlineStrong,
    InlineStrikethrough,
    InlineCode,
    InlineMath,
    Equation(Equation),
    NumberedEquation(Equation),
    Graphviz(Graphviz),
}

/// The events of a document, as the backend takes them.
#[derive(Debug, Clone)]
pub enum Event {
    Start(Tag),
    End(Tag),
    Text(String),
    Html(String),
    Latex(String),
    FootnoteReference(FootnoteReference),
    BiberReferences(Vec<BiberReference>),
    /// Url without content
    Url(Url),
    /// InterLink without content
    InterLink(InterLink),
    /// An include created with `![](foo)`
    Include(Include),
    /// Include to be resolved by the resolver
    ResolveInclude(String),
    Label(String),
    SoftBreak,
    HardBreak,
    Rule,
    PageBreak,
    TaskListMarker(TaskListMarker),
    /// A command, by its text.
    Command(String),
}

/// Tags of the markdown parser.
#[derive(Debug, Clone)]
pub enum CmarkTag {
    Paragraph,
    /// A heading. The field indicates the level of the heading.
    Header(i32),
    BlockQuote,
    CodeBlock(String),
    /// A list. If the list is ordered the field indicates the number of the first item.
    List(Option<u64>),
    Item,
    FootnoteDefinition(String),
    Table(Vec<Alignment>),
    TableHead,
    TableRow,
    TableCell,
    Emphasis,
    Strong,
    Strikethrough,
    Link(LinkType, String, String),
    Image(LinkType, String, String),
}

/// Events of the markdown parser.
#[derive(Debug, Clone)]
pub enum CmarkEvent {
    Start(CmarkTag),
    End(CmarkTag),
    Text(String),
    Code(String),
    Html(String),
    FootnoteReference(String),
    SoftBreak,
    HardBreak,
    Rule,
    /// A task list marker. Contains a true when it is checked
    TaskListMarker(bool),
}

// ----------------------------------------------------------------------------------------
// the events, mathematically

/// A text with the source range it was read from.
pub type Ranged = (Seq<char>, (int, int));

pub open spec fn range_view(r: SourceRange) -> (int, int) {
    (r.start as int, r.end as int)
}

pub open spec fn ranged(w: WithRange<String>) -> Ranged {
    (w.0@, range_view(w.1))
}

pub open spec fn opt_ranged(o: Option<WithRange<String>>) -> Option<Ranged> {
    match o {
        Some(w) => Some(ranged(w)),
        None => None,
    }
}

pub open spec fn strs_view(v: Seq<String>) -> Seq<Seq<char>> {
    v.map_values(|s: String| s@)
}

/// The payload of a tag, mathematically.
pub enum TagView {
    Paragraph,
    Header { label: Ranged, level: int },
    BlockQuote,
    CodeBlock { label: Option<Ranged>, caption: Option<Ranged>, language: Option<Ranged> },
    List,
    Enumerate(int),
    Item,
    FootnoteDefinition(Seq<char>),
    Url { destination: Seq<char>, title: Option<Seq<char>> },
    InterLink { label: Seq<char>, uppercase: bool },
    Figure { label: Option<Ranged>, caption: Option<Ranged> },
    TableFigure { label: Option<Ranged>, caption: Option<Ranged> },
    Table { label: Option<Ranged>, caption: Option<Ranged>, columns: Seq<(Alignment, Seq<Seq<char>>)> },
    TableHead,
    TableRow,
    TableCell,
    InlineEmphasis,
    InlineStrong,
    InlineStrikethrough,
    InlineCode,
    InlineMath,
    Equation { label: Option<Ranged>, caption: Option<Ranged> },
    NumberedEquation { label: Option<Ranged>, caption: Option<Ranged> },
    Graphviz {
        label: Option<Ranged>,
        caption: Option<Ranged>,
        scale: Option<Ranged>,
        width: Option<Ranged>,
        height: Option<Ranged>,
    },
}

/// An included file, mathematically.
pub struct IncludeView {
    pub skip_checks: bool,
    pub label: Option<Ranged>,
    pub caption: Option<Ranged>,
    pub title: Option<Seq<char>>,
    pub alt_text: Option<Seq<char>>,
    pub dst: Seq<char>,
    pub scale: Option<Ranged>,
    pub width: Option<Ranged>,
    pub height: Option<Ranged>,
}

/// An event, mathematically.
pub enum EventView {
    Start(TagView),
    End(TagView),
    Text(Seq<char>),
    Html(Seq<char>),
    Latex(Seq<char>),
    FootnoteReference(Seq<char>),
    BiberReferences(Seq<(Seq<char>, Option<Seq<char>>)>),
    Url { destination: Seq<char>, title: Option<Seq<char>> },
    InterLink { label: Seq<char>, uppercase: bool },
    Include(IncludeView),
    ResolveInclude(Seq<char>),
    Label(Seq<char>),
    SoftBreak,
    HardBreak,
    Rule,
    PageBreak,
    TaskListMarker(bool),
    Command(Seq<char>),
}

pub open spec fn columns_view(c: Seq<(Alignment, Vec<String>)>) -> Seq<(Alignment, Seq<Seq<char>>)> {
    c.map_values(|p: (Alignment, Vec<String>)| (p.0, strs_view(p.1@)))
}

pub open spec fn tag_view(t: Tag) -> TagView {
    match t {
        Tag::Paragraph => TagView::Paragraph,
        Tag::Header(h) => TagView::Header { label: ranged(h.label), level: h.level as int },
        Tag::BlockQuote => TagView::BlockQuote,
        Tag::CodeBlock(c) => TagView::CodeBlock {
            label: opt_ranged(c.label),
            caption: opt_ranged(c.caption),
            language: opt_ranged(c.language),
        },
        Tag::List => TagView::List,
        Tag::Enumerate(e) => TagView::Enumerate(e.start_number as int),
        Tag::Item => TagView::Item,
        Tag::FootnoteDefinition(f) => TagView::FootnoteDefinition(f.label@),
        Tag::Url(u) => TagView::Url { destination: u.destination@, title: opt_view(u.title) },
        Tag::InterLink(l) => TagView::InterLink { label: l.label@, uppercase: l.uppercase },
        Tag::Figure(f) => TagView::Figure { label: opt_ranged(f.label), caption: opt_ranged(f.caption) },
        Tag::TableFigure(f) => TagView::TableFigure {
            label: opt_ranged(f.label),
            caption: opt_ranged(f.caption),
        },
        Tag::Table(t) => TagView::Table {
            label: opt_ranged(t.label),
            caption: opt_ranged(t.caption),
            columns: columns_view(t.columns@),
        },
        Tag::TableHead => TagView::TableHead,
        Tag::TableRow => TagView::TableRow,
        Tag::TableCell => TagView::TableCell,
        Tag::InlineEmphasis => TagView::InlineEmphasis,
        Tag::InlineStrong => TagView::InlineStrong,
        Tag::InlineStrikethrough => TagView::InlineStrikethrough,
        Tag::InlineCode => TagView::InlineCode,
        Tag::InlineMath => TagView::InlineMath,
        Tag::Equation(e) => TagView::Equation {
            label: opt_ranged(e.label),
            caption: opt_ranged(e.caption),
        },
        Tag::NumberedEquation(e) => TagView::NumberedEquation {
            label: opt_ranged(e.label),
            caption: opt_ranged(e.caption),
        },
        Tag::Graphviz(g) => TagView::Graphviz {
            label: opt_ranged(g.label),
            caption: opt_ranged(g.caption),
            scale: opt_ranged(g.scale),
            width: opt_ranged(g.width),
            height: opt_ranged(g.height),
        },
    }
}

pub open spec fn include_view(i: Include) -> IncludeView {
    IncludeView {
        skip_checks: i.resolve_security == ResolveSecurity::SkipChecks,
        label: opt_ranged(i.label),
        caption: opt_ranged(i.caption),
        title: opt_view(i.title),
        alt_text: opt_view(i.alt_text),
        dst: i.dst@,
        scale: opt_ranged(i.scale),
        width: opt_ranged(i.width),
        height: opt_ranged(i.height),
    }
}

pub open spec fn biber_refs_view(v: Seq<BiberReference>) -> Seq<(Seq<char>, Option<Seq<char>>)> {
    v.map_values(|b: BiberReference| (b.reference@, opt_view(b.attributes)))
}

pub open spec fn event_view(e: Event) -> EventView {
    match e {
        Event::Start(t) => EventView::Start(tag_view(t)),
        Event::End(t) => EventView::End(tag_view(t)),
        Event::Text(t) => EventView::Text(t@),
        Event::Html(t) => EventView::Html(t@),
        Event::Latex(t) => EventView::Latex(t@),
        Event::FootnoteReference(f) => EventView::FootnoteReference(f.label@),
        Event::BiberReferences(b) => EventView::BiberReferences(biber_refs_view(b@)),
        Event::Url(u) => EventView::Url { destination: u.destination@, title: opt_view(u.title) },
        Event::InterLink(l) => EventView::InterLink { label: l.label@, uppercase: l.uppercase },
        Event::Include(i) => EventView::Include(include_view(i)),
        Event::ResolveInclude(s) => EventView::ResolveInclude(s@),
        Event::Label(s) => EventView::Label(s@),
        Event::SoftBreak => EventView::SoftBreak,
        Event::HardBreak => EventView::HardBreak,
        Event::Rule => EventView::Rule,
        Event::PageBreak => EventView::PageBreak,
        Event::TaskListMarker(m) => EventView::TaskListMarker(m.checked),
        Event::Command(c) => EventView::Command(c@),
    }
}

pub open spec fn events_view(v: Seq<Event>) -> Seq<EventView> {
    v.map_values(|e: Event| event_view(e))
}

/// A tag of the markdown parser, mathematically.
pub enum CmarkTagView {
    Paragraph,
    Header(int),
    BlockQuote,
    CodeBlock(Seq<char>),
    List(Option<u64>),
    Item,
    FootnoteDefinition(Seq<char>),
    Table(Seq<Alignment>),
    TableHead,
    TableRow,
    TableCell,
    Emphasis,
    Strong,
    Strikethrough,
    Link(LinkType, Seq<char>, Seq<char>),
    Image(LinkType, Seq<char>, Seq<char>),
}

/// An event of the markdown parser, mathematically.
pub enum CmarkEventView {
    Start(CmarkTagView),
    End(CmarkTagView),
    Text(Seq<char>),
    Code(Seq<char>),
    Html(Seq<char>),
    FootnoteReference(Seq<char>),
    SoftBreak,
    HardBreak,
    Rule,
    TaskListMarker(bool),
}

pub open spec fn cmark_tag_view(t: CmarkTag) -> CmarkTagView {
    match t {
        CmarkTag::Paragraph => CmarkTagView::Paragraph,
        CmarkTag::Header(l) => CmarkTagView::Header(l as int),
        CmarkTag::BlockQuote => CmarkTagView::BlockQuote,
        CmarkTag::CodeBlock(i) => CmarkTagView::CodeBlock(i@),
        CmarkTag::List(n) => CmarkTagView::List(n),
        CmarkTag::Item => CmarkTagView::Item,
        CmarkTag::FootnoteDefinition(l) => CmarkTagView::FootnoteDefinition(l@),
        CmarkTag::Table(a) => CmarkTagView::Table(a@),
        CmarkTag::TableHead => CmarkTagView::TableHead,
        CmarkTag::TableRow => CmarkTagView::TableRow,
        CmarkTag::TableCell => CmarkTagView::TableCell,
        CmarkTag::Emphasis => CmarkTagView::Emphasis,
        CmarkTag::Strong => CmarkTagView::Strong,
        CmarkTag::Strikethrough => CmarkTagView::Strikethrough,
        CmarkTag::Link(k, d, t) => CmarkTagView::Link(k, d@, t@),
        CmarkTag::Image(k, d, t) => CmarkTagView::Image(k, d@, t@),
    }
}

pub open spec fn cmark_event_view(e: CmarkEvent) -> CmarkEventView {
    match e {
        CmarkEvent::Start(t) => CmarkEventView::Start(cmark_tag_view(t)),
        CmarkEvent::End(t) => CmarkEventView::End(cmark_tag_view(t)),
        CmarkEvent::Text(t) => CmarkEventView::Text(t@),
        CmarkEvent::Code(t) => CmarkEventView::Code(t@),
        CmarkEvent::Html(t) => CmarkEventView::Html(t@),
        CmarkEvent::FootnoteReference(t) => CmarkEventView::FootnoteReference(t@),
        CmarkEvent::SoftBreak => CmarkEventView::SoftBreak,
        CmarkEvent::HardBreak => CmarkEventView::HardBreak,
        CmarkEvent::Rule => CmarkEventView::Rule,
        CmarkEvent::TaskListMarker(b) => CmarkEventView::TaskListMarker(b),
    }
}

/// The parser's events with their source ranges, mathematically.
pub open spec fn cmark_events_view(v: Seq<(CmarkEvent, SourceRange)>) -> Seq<(CmarkEventView, (int, int))> {
    v.map_values(|p: (CmarkEvent, SourceRange)| (cmark_event_view(p.0), range_view(p.1)))
}

} // verus!

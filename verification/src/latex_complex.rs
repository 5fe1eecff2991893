//! LaTeX code of the elements that contain further elements: what each writes where it
//! begins and where it ends.
use vstd::prelude::*;

use crate::event::{opt_view, FootnoteDefinition, InterLink, Url};
use crate::latex::{inline_begin_text, inline_end_text, wr_view, EnvKind, InlineEnvironment};
use crate::number::{push_signed_decimal, signed_decimal};
use crate::range::WithRange;
use crate::refs::{last_in, lemma_last_in};
use crate::text::{chars_of, push_str, string_from_range, trim, trim_end};

verus! {

fn put(out: &mut String, t: &str)
    ensures
        final(out)@ == old(out)@ + t@,
{
    push_str(out, t);
}

fn text(t: &str) -> (r: String)
    ensures
        r@ == t@,
{
    t.to_owned()
}

// ----------------------------------------------------------------------------------------
// block quotes

/// Number of leading `-` of `s`.
pub open spec fn lead_dashes(s: Seq<char>) -> nat
    decreases s.len(),
{
    if s.len() > 0 && s[0] == '-' {
        1 + lead_dashes(s.drop_first())
    } else {
        0
    }
}

/// Where the last line of a quote names its source (`-- source`): the position where that
/// line starts, and the source.
pub open spec fn quote_source(q: Seq<char>) -> Option<(int, Seq<char>)> {
    let te = trim_end(q);
    match last_in(te, '\n', 0, te.len() as int) {
        Some(pos) => {
            let src = q.skip(pos + 1);
            if src.len() >= 2 && src[0] == '-' && src[1] == '-' {
                Some((pos + 1, trim(src.skip(lead_dashes(src) as int))))
            } else {
                None
            }
        },
        None => None,
    }
}

/// A block quote: `aquote` with the source where the last line names one, else `quote`.
pub open spec fn blockquote_text(q: Seq<char>) -> Seq<char> {
    match quote_source(q) {
        Some((cut, source)) => "\\begin{aquote}{"@ + source + "}\n"@ + q.take(cut) + "\\end{aquote}\n"@,
        None => "\\begin{quote}\n"@ + q + "\\end{quote}\n"@,
    }
}

/// Generator of block quotes; collects the quote's LaTeX until it ends.
#[derive(Debug)]
pub struct BlockQuoteGen {
    quote: String,
}

impl BlockQuoteGen {
    /// The collected LaTeX of the quote.
    pub closed spec fn quote(&self) -> Seq<char> {
        self.quote@
    }

    pub fn new() -> (r: BlockQuoteGen)
        ensures
            r.quote() == Seq::<char>::empty(),
    {
        BlockQuoteGen { quote: String::new() }
    }

    /// Takes LaTeX written inside the quote.
    pub fn write(&mut self, s: &str)
        ensures
            final(self).quote() == old(self).quote() + s@,
    {
        push_str(&mut self.quote, s);
    }

    /// The LaTeX of the whole quote.
    pub fn finish(self) -> (r: String)
        ensures
            r@ == blockquote_text(self.quote()),
    {
        let q = chars_of(self.quote.as_str());
        let mut te = self.quote.clone();
        crate::ext::CowExt::trim_end_inplace(&mut te);
        let tv = chars_of(te.as_str());
        let ghost qv = q@;
        proof {
            crate::text::lemma_trail_ws_le(qv);
        }
        let mut h = tv.len();
        while h > 0 && tv[h - 1] != '\n'
            invariant
                h <= tv@.len(),
                last_in(tv@, '\n', 0, h as int) == last_in(tv@, '\n', 0, tv@.len() as int),
            decreases h,
        {
            h = h - 1;
        }
        let mut source: Option<String> = None;
        let mut cut = q.len();
        if h > 0 {
            let pos = h - 1;
            proof {
                lemma_last_in(tv@, '\n', 0, tv@.len() as int);
                assert(tv@ =~= qv.take(tv@.len() as int));
            }
            let src_len = q.len() - (pos + 1);
            if src_len >= 2 && q[pos + 1] == '-' && q[pos + 2] == '-' {
                let mut k = pos + 1;
                let ghost src = qv.skip(pos + 1);
                while k < q.len() && q[k] == '-'
                    invariant
                        pos + 1 <= k <= q@.len(),
                        q@ == qv,
                        src == qv.skip(pos + 1),
                        lead_dashes(src) == (k - (pos + 1)) + lead_dashes(qv.skip(k as int)),
                    decreases q@.len() - k,
                {
                    proof {
                        assert(qv.skip(k as int).drop_first() =~= qv.skip(k + 1));
                    }
                    k = k + 1;
                }
                proof {
                    assert(src.skip(lead_dashes(src) as int) =~= qv.skip(k as int));
                }
                let mut s = string_from_range(q.as_slice(), k, q.len());
                assert(s@ =~= qv.skip(k as int));
                crate::ext::CowExt::trim_inplace(&mut s);
                source = Some(s);
                cut = pos + 1;
            }
        }
        let quote = string_from_range(q.as_slice(), 0, cut);
        let mut out = String::new();
        match &source {
            Some(s) => {
                put(&mut out, "\\begin{aquote}{");
                put(&mut out, s.as_str());
                put(&mut out, "}\n");
            },
            None => put(&mut out, "\\begin{quote}\n"),
        }
        put(&mut out, quote.as_str());
        if source.is_some() {
            put(&mut out, "\\end{aquote}\n");
        } else {
            put(&mut out, "\\end{quote}\n");
        }
        proof {
            assert(qv.subrange(0, qv.len() as int) =~= qv);
        }
        assert(out@ =~= blockquote_text(qv));
        out
    }
}

// ----------------------------------------------------------------------------------------
// elements with fixed opening and closing

/// Generator of emphasised text.
#[derive(Debug)]
pub struct InlineEmphasisGen;

impl InlineEmphasisGen {
    pub fn begin() -> (r: String)
        ensures
            r@ == "\\emph{"@,
    {
        text("\\emph{")
    }

    pub fn end() -> (r: String)
        ensures
            r@ == "}"@,
    {
        text("}")
    }
}

/// Generator of strong text.
#[derive(Debug)]
pub struct InlineStrongGen;

impl InlineStrongGen {
    pub fn begin() -> (r: String)
        ensures
            r@ == "\\textbf{"@,
    {
        text("\\textbf{")
    }

    pub fn end() -> (r: String)
        ensures
            r@ == "}"@,
    {
        text("}")
    }
}

/// Generator of struck-through text.
#[derive(Debug)]
pub struct InlineStrikethroughGen;

impl InlineStrikethroughGen {
    pub fn begin() -> (r: String)
        ensures
            r@ == "\\sout{"@,
    {
        text("\\sout{")
    }

    pub fn end() -> (r: String)
        ensures
            r@ == "}"@,
    {
        text("}")
    }
}

/// Generator of inline code.
#[derive(Debug)]
pub struct InlineCodeGen;

impl InlineCodeGen {
    pub fn begin() -> (r: String)
        ensures
            r@ == "\\texttt{"@,
    {
        text("\\texttt{")
    }

    pub fn end() -> (r: String)
        ensures
            r@ == "}"@,
    {
        text("}")
    }
}

/// Generator of inline math.
#[derive(Debug)]
pub struct InlineMathGen;

impl InlineMathGen {
    pub fn begin() -> (r: String)
        ensures
            r@ == "\\begin{math}"@,
    {
        text("\\begin{math}")
    }

    pub fn end() -> (r: String)
        ensures
            r@ == "\\end{math}"@,
    {
        text("\\end{math}")
    }
}

/// The kind of a block of math.
#[derive(Debug, Clone, Copy, PartialEq, Eq, Structural)]
pub enum MathBlockKind {
    Equation,
    NumberedEquation,
}

/// Generator of blocks of math: `align*`, or `align` where numbered.
#[derive(Debug)]
pub struct MathBlockGen {
    pub label: Option<WithRange<String>>,
    pub kind: MathBlockKind,
}

impl MathBlockGen {
    pub fn new(kind: MathBlockKind, label: Option<WithRange<String>>) -> (r: (MathBlockGen, String))
        ensures
            r.0.kind == kind,
            r.1@ == (if kind == MathBlockKind::Equation {
                "\\begin{align*}\n"@
            } else {
                "\\begin{align}\n"@
            }),
    {
        let t = match kind {
            MathBlockKind::Equation => text("\\begin{align*}\n"),
            MathBlockKind::NumberedEquation => text("\\begin{align}\n"),
        };
        (MathBlockGen { label, kind }, t)
    }

    pub fn finish(self) -> (r: String)
        ensures
            r@ == (if self.kind == MathBlockKind::Equation {
                "\\end{align*}\n"@
            } else {
                "\\end{align}\n"@
            }),
    {
        match self.kind {
            MathBlockKind::Equation => text("\\end{align*}\n"),
            MathBlockKind::NumberedEquation => text("\\end{align}\n"),
        }
    }
}

/// Generator of footnote definitions.
#[derive(Debug)]
pub struct FootnoteDefinitionGen;

impl FootnoteDefinitionGen {
    pub fn begin(fnote: &FootnoteDefinition) -> (r: String)
        ensures
            r@ == "\\footnotetext{\\label{fnote:"@ + fnote.label@ + "}"@,
    {
        let mut out = text("\\footnotetext{\\label{fnote:");
        put(&mut out, fnote.label.as_str());
        put(&mut out, "}");
        out
    }

    pub fn end() -> (r: String)
        ensures
            r@ == "}\n"@,
    {
        text("}\n")
    }
}

/// Generator of HTML blocks: they are passed over.
#[derive(Debug)]
pub struct HtmlBlockGen;

impl HtmlBlockGen {
    pub fn begin() -> (r: String)
        ensures
            r@ == Seq::<char>::empty(),
    {
        String::new()
    }

    pub fn end() -> (r: String)
        ensures
            r@ == Seq::<char>::empty(),
    {
        String::new()
    }
}

/// Generator of links with content.
#[derive(Debug)]
pub struct UrlWithContentGen {
    pub title: Option<String>,
}

impl UrlWithContentGen {
    pub fn new(url: Url) -> (r: (UrlWithContentGen, String))
        ensures
            r.0.title == url.title,
            r.1@ == (if url.title is Some {
                "\\pdftooltip{\\href{"@
            } else {
                "\\href{"@
            }) + url.destination@ + "}{"@,
    {
        let mut out = if url.title.is_some() {
            text("\\pdftooltip{\\href{")
        } else {
            text("\\href{")
        };
        put(&mut out, url.destination.as_str());
        put(&mut out, "}{");
        (UrlWithContentGen { title: url.title }, out)
    }

    pub fn finish(self) -> (r: String)
        ensures
            r@ == match opt_view(self.title) {
                None => "}"@,
                Some(t) => "}}{"@ + t + "}"@,
            },
    {
        match &self.title {
            None => text("}"),
            Some(t) => {
                let mut out = text("}}{");
                put(&mut out, t.as_str());
                put(&mut out, "}");
                out
            },
        }
    }
}

/// Generator of links to labels with content.
#[derive(Debug)]
pub struct InterLinkWithContentGen;

impl InterLinkWithContentGen {
    pub fn begin(interlink: &InterLink) -> (r: String)
        ensures
            r@ == "\\hyperref["@ + interlink.label@ + "]{"@,
    {
        let mut out = text("\\hyperref[");
        put(&mut out, interlink.label.as_str());
        put(&mut out, "]{");
        out
    }

    pub fn end() -> (r: String)
        ensures
            r@ == "}"@,
    {
        text("}")
    }
}

/// Generator of itemized lists.
#[derive(Debug)]
pub struct ListGen;

impl ListGen {
    /// Opening; a tight list has no space between items.
    pub fn begin(tightlist: bool) -> (r: String)
        ensures
            r@ == "\\begin{itemize}\n"@ + (if tightlist {
                "\\setlength{\\itemsep}{0pt}\\setlength{\\parskip}{0pt}\n"@
            } else {
                Seq::empty()
            }),
    {
        let mut out = text("\\begin{itemize}\n");
        if tightlist {
            put(&mut out, "\\setlength{\\itemsep}{0pt}\\setlength{\\parskip}{0pt}\n");
        }
        assert(out@ =~= "\\begin{itemize}\n"@ + (if tightlist {
            "\\setlength{\\itemsep}{0pt}\\setlength{\\parskip}{0pt}\n"@
        } else {
            Seq::empty()
        }));
        out
    }

    pub fn end() -> (r: String)
        ensures
            r@ == "\\end{itemize}\n"@,
    {
        text("\\end{itemize}\n")
    }
}

/// `n` copies of `s`.
pub open spec fn repeat(s: Seq<char>, n: nat) -> Seq<char>
    decreases n,
{
    if n == 0 {
        Seq::empty()
    } else {
        repeat(s, (n - 1) as nat) + s
    }
}

/// Generator of numbered lists.
#[derive(Debug)]
pub struct EnumerateGen;

impl EnumerateGen {
    /// Opening of a list numbered from `start_number`, nested `depth` numbered lists deep
    /// (counting itself).
    pub fn begin(start_number: u64, depth: usize) -> (r: String)
        requires
            start_number < i32::MAX,
        ensures
            r@ == "\\begin{enumerate}\n"@ + "\\setcounter{enum"@ + repeat("i"@, depth as nat) + "}{"@
                + signed_decimal(start_number - 1) + "}\n"@,
    {
        let start: i64 = start_number as i64 - 1;
        let mut out = text("\\begin{enumerate}\n");
        put(&mut out, "\\setcounter{enum");
        let ghost head = out@;
        let mut i: usize = 0;
        while i < depth
            invariant
                i <= depth,
                out@ == head + repeat("i"@, i as nat),
            decreases depth - i,
        {
            put(&mut out, "i");
            i = i + 1;
        }
        put(&mut out, "}{");
        push_signed_decimal(&mut out, start);
        put(&mut out, "}\n");
        out
    }

    pub fn end() -> (r: String)
        ensures
            r@ == "\\end{enumerate}\n"@,
    {
        text("\\end{enumerate}\n")
    }
}

/// Generator of list items.
#[derive(Debug)]
pub struct ItemGen;

impl ItemGen {
    pub fn begin() -> (r: String)
        ensures
            r@ == "\\item "@,
    {
        text("\\item ")
    }

    pub fn end() -> (r: String)
        ensures
            r@ == "\n"@,
    {
        text("\n")
    }
}

/// Generator of paragraphs.
#[derive(Debug)]
pub struct ParagraphGen;

impl ParagraphGen {
    /// Closing of a paragraph: a blank line, except where a footnote definition ends next.
    pub fn finish(next_ends_footnote_definition: bool) -> (r: String)
        ensures
            r@ == (if next_ends_footnote_definition {
                Seq::empty()
            } else {
                "\n\n"@
            }),
    {
        if next_ends_footnote_definition {
            String::new()
        } else {
            text("\n\n")
        }
    }
}

/// The kind of a proof-like environment.
#[derive(Debug, Clone, Copy, PartialEq, Eq, Structural)]
pub enum ProofKind {
    Corollary,
    Definition,
    Lemma,
    Proof,
    Theorem,
}

pub open spec fn context_name(k: ProofKind) -> Seq<char> {
    match k {
        ProofKind::Corollary => "amsthm-corollary"@,
        ProofKind::Definition => "amsthm-definition"@,
        ProofKind::Lemma => "amsthm-lemma"@,
        ProofKind::Proof => "proof"@,
        ProofKind::Theorem => "amsthm-theorem"@,
    }
}

fn context_str(k: ProofKind) -> (r: &'static str)
    ensures
        r@ == context_name(k),
{
    match k {
        ProofKind::Corollary => "amsthm-corollary",
        ProofKind::Definition => "amsthm-definition",
        ProofKind::Lemma => "amsthm-lemma",
        ProofKind::Proof => "proof",
        ProofKind::Theorem => "amsthm-theorem",
    }
}

/// Generator of proofs, theorems, lemmas, definitions and corollaries.
#[derive(Debug)]
pub struct ProofGen {
    pub kind: ProofKind,
}

impl ProofGen {
    pub fn new(kind: ProofKind, title: Option<String>, label: Option<String>) -> (r: (ProofGen, String))
        ensures
            r.0.kind == kind,
            r.1@ == "\\begin{"@ + context_name(kind) + "}"@ + (match opt_view(title) {
                Some(t) => "["@ + t + "]"@,
                None => Seq::empty(),
            }) + (match opt_view(label) {
                Some(l) => "\\label{"@ + l + "}"@,
                None => Seq::empty(),
            }),
    {
        let mut out = text("\\begin{");
        put(&mut out, context_str(kind));
        put(&mut out, "}");
        let ghost a = out@;
        match &title {
            Some(t) => {
                put(&mut out, "[");
                put(&mut out, t.as_str());
                put(&mut out, "]");
            },
            None => {},
        }
        match &label {
            Some(l) => {
                put(&mut out, "\\label{");
                put(&mut out, l.as_str());
                put(&mut out, "}");
            },
            None => {},
        }
        assert(out@ =~= "\\begin{"@ + context_name(kind) + "}"@ + (match opt_view(title) {
            Some(t) => "["@ + t + "]"@,
            None => Seq::empty(),
        }) + (match opt_view(label) {
            Some(l) => "\\label{"@ + l + "}"@,
            None => Seq::empty(),
        }));
        (ProofGen { kind }, out)
    }

    pub fn finish(self) -> (r: String)
        ensures
            r@ == "\\end{"@ + context_name(self.kind) + "}"@,
    {
        let mut out = text("\\end{");
        put(&mut out, context_str(self.kind));
        put(&mut out, "}");
        out
    }
}

// ----------------------------------------------------------------------------------------
// tables

/// Alignment of a table column.
#[derive(Debug, Clone, Copy, PartialEq, Eq, Structural)]
pub enum Alignment {
    Unaligned,
    Left,
    Center,
    Right,
}

pub open spec fn align_text(a: Alignment) -> Seq<char> {
    match a {
        Alignment::Unaligned => "X |"@,
        Alignment::Left => "L |"@,
        Alignment::Center => "C |"@,
        Alignment::Right => "R |"@,
    }
}

/// One column: its relative width, as formatted, and its alignment.
pub open spec fn column_text(c: (Alignment, String)) -> Seq<char> {
    " >{\\hsize="@ + c.1@ + "\\hsize}"@ + align_text(c.0)
}

pub open spec fn columns_text(cs: Seq<(Alignment, String)>) -> Seq<char>
    decreases cs.len(),
{
    if cs.len() == 0 {
        Seq::empty()
    } else {
        columns_text(cs.drop_last()) + column_text(cs.last())
    }
}

/// Opening of a table: inside an inline table where it has a label or caption.
pub open spec fn table_begin_text(
    label: Option<Seq<char>>,
    caption: Option<Seq<char>>,
    columns: Seq<(Alignment, String)>,
) -> Seq<char> {
    inline_begin_text(label, caption, EnvKind::Table) + "\\begin{tabularx}{\\textwidth}{|"@
        + columns_text(columns) + "}"@ + "\n"@ + "\\hline\n"@
}

/// Generator of tables.
#[derive(Debug)]
pub struct TableGen {
    pub inline_table: InlineEnvironment,
}

impl TableGen {
    /// Opening of a table whose columns have the given alignments and relative widths (the
    /// widths formatted with three decimals).
    pub fn new(
        label: Option<WithRange<String>>,
        caption: Option<WithRange<String>>,
        columns: &Vec<(Alignment, String)>,
    ) -> (r: (TableGen, String))
        ensures
            r.0.inline_table.label == label,
            r.0.inline_table.caption == caption,
            r.0.inline_table.env() == EnvKind::Table,
            r.1@ == table_begin_text(wr_view(label), wr_view(caption), columns@),
    {
        let inline_table = InlineEnvironment::new_table(label, caption);
        let mut out = inline_table.write_begin();
        put(&mut out, "\\begin{tabularx}{\\textwidth}{|");
        let ghost head = out@;
        let mut i: usize = 0;
        assert(columns@.take(0) =~= Seq::<(Alignment, String)>::empty());
        while i < columns.len()
            invariant
                i <= columns@.len(),
                out@ == head + columns_text(columns@.take(i as int)),
            decreases columns@.len() - i,
        {
            let ghost before = out@;
            put(&mut out, " >{\\hsize=");
            put(&mut out, columns[i].1.as_str());
            put(&mut out, "\\hsize}");
            match columns[i].0 {
                Alignment::Unaligned => put(&mut out, "X |"),
                Alignment::Left => put(&mut out, "L |"),
                Alignment::Center => put(&mut out, "C |"),
                Alignment::Right => put(&mut out, "R |"),
            }
            proof {
                assert(columns@.take(i + 1).drop_last() =~= columns@.take(i as int));
                assert(out@ =~= before + column_text(columns@[i as int]));
            }
            i = i + 1;
        }
        assert(columns@.take(i as int) =~= columns@);
        put(&mut out, "}");
        put(&mut out, "\n");
        put(&mut out, "\\hline\n");
        (TableGen { inline_table }, out)
    }

    /// Closing of the table.
    pub fn finish(self) -> (r: String)
        ensures
            r@ == "\\end{tabularx}\n"@ + inline_end_text(
                wr_view(self.inline_table.label),
                wr_view(self.inline_table.caption),
                self.inline_table.env(),
            ),
    {
        let mut out = text("\\end{tabularx}\n");
        let end = self.inline_table.write_end();
        put(&mut out, end.as_str());
        out
    }
}

/// Generator of the head row of a table.
#[derive(Debug)]
pub struct TableHeadGen;

impl TableHeadGen {
    pub fn finish() -> (r: String)
        ensures
            r@ == "\\\\ \\thickhline\n"@,
    {
        text("\\\\ \\thickhline\n")
    }
}

/// Generator of table rows.
#[derive(Debug)]
pub struct TableRowGen;

impl TableRowGen {
    pub fn finish() -> (r: String)
        ensures
            r@ == "\\\\ \\hline\n"@,
    {
        text("\\\\ \\hline\n")
    }
}

/// Generator of table cells.
#[derive(Debug)]
pub struct TableCellGen;

impl TableCellGen {
    /// Closing of a cell: a column separator where another cell follows.
    pub fn finish(next_is_cell: bool) -> (r: String)
        ensures
            r@ == (if next_is_cell {
                "&"@
            } else {
                Seq::empty()
            }),
    {
        if next_is_cell {
            text("&")
        } else {
            String::new()
        }
    }
}

// ----------------------------------------------------------------------------------------
// floating figures

/// The LaTeX environment of a floating figure.
pub trait Environment {
    spec fn spec_env_name() -> Seq<char>;

    fn to_str() -> (r: &'static str)
        ensures
            r@ == Self::spec_env_name(),
    ;
}

/// Floating figures.
#[derive(Debug)]
pub struct Fig;

impl Environment for Fig {
    open spec fn spec_env_name() -> Seq<char> {
        "figure"@
    }

    fn to_str() -> (r: &'static str) {
        "figure"
    }
}

/// Floating tables.
#[derive(Debug)]
pub struct Table;

impl Environment for Table {
    open spec fn spec_env_name() -> Seq<char> {
        "table"@
    }

    fn to_str() -> (r: &'static str) {
        "table"
    }
}

/// Generator of floating figures of environment `T`.
#[derive(Debug)]
pub struct AnyFigureGen<T: Environment> {
    pub label: Option<WithRange<String>>,
    pub caption: Option<WithRange<String>>,
    pub environment: T,
}

impl<T: Environment> AnyFigureGen<T> {
    pub fn new(label: Option<WithRange<String>>, caption: Option<WithRange<String>>, environment: T) -> (r: (
        AnyFigureGen<T>,
        String,
    ))
        ensures
            r.0.label == label,
            r.0.caption == caption,
            r.1@ == "\\begin{"@ + T::spec_env_name() + "}"@,
    {
        let mut out = text("\\begin{");
        put(&mut out, T::to_str());
        put(&mut out, "}");
        (AnyFigureGen { label, caption, environment }, out)
    }

    /// Closing: the caption (empty where there is none), the label, the end.
    pub fn finish(self) -> (r: String)
        ensures
            r@ == (match wr_view(self.caption) {
                Some(c) => "\\caption{"@ + c + "}\n"@,
                None => "\\caption{}\n"@,
            }) + (match wr_view(self.label) {
                Some(l) => "\\label{"@ + l + "}\n"@,
                None => Seq::empty(),
            }) + "\\end{"@ + T::spec_env_name() + "}\n"@,
    {
        let mut out = String::new();
        match &self.caption {
            Some(WithRange(c, _)) => {
                put(&mut out, "\\caption{");
                put(&mut out, c.as_str());
                put(&mut out, "}\n");
            },
            None => put(&mut out, "\\caption{}\n"),
        }
        match &self.label {
            Some(WithRange(l, _)) => {
                put(&mut out, "\\label{");
                put(&mut out, l.as_str());
                put(&mut out, "}\n");
            },
            None => {},
        }
        put(&mut out, "\\end{");
        put(&mut out, T::to_str());
        put(&mut out, "}\n");
        assert(out@ =~= (match wr_view(self.caption) {
            Some(c) => "\\caption{"@ + c + "}\n"@,
            None => "\\caption{}\n"@,
        }) + (match wr_view(self.label) {
            Some(l) => "\\label{"@ + l + "}\n"@,
            None => Seq::empty(),
        }) + "\\end{"@ + T::spec_env_name() + "}\n"@);
        out
    }
}

// ----------------------------------------------------------------------------------------
// headers and code blocks

fn put_repeat(out: &mut String, t: &str, n: usize)
    ensures
        final(out)@ == old(out)@ + repeat(t@, n as nat),
{
    let ghost o = out@;
    let mut i: usize = 0;
    assert(out@ =~= o + repeat(t@, 0));
    while i < n
        invariant
            i <= n,
            out@ == o + repeat(t@, i as nat),
        decreases n - i,
    {
        put(out, t);
        i = i + 1;
    }
}

/// The end of a header: its label and a blank line.
pub open spec fn header_end_text(label: Seq<char>) -> Seq<char> {
    "}\\label{"@ + label + "}\n"@ + "\n"@
}

pub fn header_end(label: &str) -> (r: String)
    ensures
        r@ == header_end_text(label@),
{
    let mut out = text("}\\label{");
    put(&mut out, label);
    put(&mut out, "}\n");
    put(&mut out, "\n");
    out
}

/// Generator of headers: `\section`, `\subsection`, … by level.
#[derive(Debug)]
pub struct HeaderGen {
    pub label: String,
}

impl HeaderGen {
    pub fn new(level: i32, label: String) -> (r: (HeaderGen, String))
        requires
            level > 0,
        ensures
            r.0.label == label,
            r.1@ == "\\"@ + repeat("sub"@, (level - 1) as nat) + "section{"@,
    {
        let mut out = text("\\");
        put_repeat(&mut out, "sub", (level - 1) as usize);
        put(&mut out, "section{");
        (HeaderGen { label }, out)
    }

    pub fn finish(self) -> (r: String)
        ensures
            r@ == header_end_text(self.label@),
    {
        header_end(self.label.as_str())
    }
}

/// Generator of headers of books: level 1 is a chapter.
#[derive(Debug)]
pub struct BookHeaderGen {
    pub label: String,
}

impl BookHeaderGen {
    pub fn new(level: i32, label: String) -> (r: (BookHeaderGen, String))
        requires
            level > 0,
        ensures
            r.0.label == label,
            r.1@ == (if level == 1 {
                "\\chapter{"@
            } else {
                "\\"@ + repeat("sub"@, (level - 2) as nat) + "section{"@
            }),
    {
        if level == 1 {
            (BookHeaderGen { label }, text("\\chapter{"))
        } else {
            let mut out = text("\\");
            put_repeat(&mut out, "sub", (level - 2) as usize);
            put(&mut out, "section{");
            (BookHeaderGen { label }, out)
        }
    }

    pub fn finish(self) -> (r: String)
        ensures
            r@ == header_end_text(self.label@),
    {
        header_end(self.label.as_str())
    }
}

/// The listings name of a language: assembler for the x86 names.
pub open spec fn listing_language(l: Seq<char>) -> Seq<char> {
    if l == "asm-x86"@ || l == "x86"@ || l == "x86-asm"@ {
        "[x86_64]{Assembler}"@
    } else {
        l
    }
}

/// The options of a listing: label, caption, language and basic style, joined by `, `.
pub open spec fn listing_options(
    label: Option<Seq<char>>,
    caption: Option<Seq<char>>,
    language: Option<Seq<char>>,
    basicstyle: Option<Seq<char>>,
) -> Seq<Seq<char>> {
    (match label {
        Some(l) => seq!["label={"@ + l + "}"@],
        None => Seq::empty(),
    }) + (match caption {
        Some(c) => seq!["caption={"@ + c + "}"@],
        None => Seq::empty(),
    }) + (match language {
        Some(l) => seq!["language={"@ + listing_language(l) + "}"@],
        None => Seq::empty(),
    }) + (match basicstyle {
        Some(b) => seq!["basicstyle={"@ + b + "}"@],
        None => Seq::empty(),
    })
}

/// Texts joined by `, `.
pub open spec fn comma_joined(parts: Seq<Seq<char>>) -> Seq<char>
    decreases parts.len(),
{
    if parts.len() == 0 {
        Seq::empty()
    } else if parts.len() == 1 {
        parts[0]
    } else {
        comma_joined(parts.drop_last()) + ", "@ + parts.last()
    }
}

/// Generator of code listings.
#[derive(Debug)]
pub struct CodeBlockGen;

impl CodeBlockGen {
    pub fn begin(
        label: &Option<String>,
        caption: &Option<String>,
        language: &Option<String>,
        basicstyle: &Option<String>,
    ) -> (r: String)
        ensures
            r@ == "\\begin{lstlisting}["@ + comma_joined(
                listing_options(opt_view(*label), opt_view(*caption), opt_view(*language), opt_view(*basicstyle)),
            ) + "]\n"@,
    {
        let mut parts: Vec<String> = Vec::new();
        match label {
            Some(l) => {
                let mut t = text("label={");
                put(&mut t, l.as_str());
                put(&mut t, "}");
                parts.push(t);
            },
            None => {},
        }
        match caption {
            Some(c) => {
                let mut t = text("caption={");
                put(&mut t, c.as_str());
                put(&mut t, "}");
                parts.push(t);
            },
            None => {},
        }
        match language {
            Some(l) => {
                let mut t = text("language={");
                if crate::text::str_eq(l.as_str(), "asm-x86") || crate::text::str_eq(l.as_str(), "x86")
                    || crate::text::str_eq(l.as_str(), "x86-asm") {
                    put(&mut t, "[x86_64]{Assembler}");
                } else {
                    put(&mut t, l.as_str());
                }
                put(&mut t, "}");
                parts.push(t);
            },
            None => {},
        }
        match basicstyle {
            Some(b) => {
                let mut t = text("basicstyle={");
                put(&mut t, b.as_str());
                put(&mut t, "}");
                parts.push(t);
            },
            None => {},
        }
        let ghost pv = Seq::new(parts@.len(), |i: int| parts@[i]@);
        assert(pv =~= listing_options(
            opt_view(*label),
            opt_view(*caption),
            opt_view(*language),
            opt_view(*basicstyle),
        ));
        let mut out = text("\\begin{lstlisting}[");
        let ghost head = out@;
        let mut i: usize = 0;
        assert(pv.take(0) =~= Seq::<Seq<char>>::empty());
        while i < parts.len()
            invariant
                i <= parts@.len(),
                pv == Seq::new(parts@.len(), |i: int| parts@[i]@),
                out@ == head + comma_joined(pv.take(i as int)),
            decreases parts@.len() - i,
        {
            proof {
                assert(pv.take(i + 1).drop_last() =~= pv.take(i as int));
                assert(pv.take(i + 1).last() == parts@[i as int]@);
            }
            if i > 0 {
                put(&mut out, ", ");
            } else {
                assert(out@ =~= head + Seq::<char>::empty());
            }
            put(&mut out, parts[i].as_str());
            proof {
                if i == 0 {
                    assert(comma_joined(pv.take(1)) == pv.take(1)[0]);
                }
            }
            i = i + 1;
        }
        assert(pv.take(i as int) =~= pv);
        put(&mut out, "]\n");
        out
    }

    pub fn end() -> (r: String)
        ensures
            r@ == "\\end{lstlisting}\n"@,
    {
        text("\\end{lstlisting}\n")
    }
}

} // verus!

//! LaTeX code of the leaf elements of a document, and of the inline figure and table
//! environments that give elements a label or caption.
use vstd::prelude::*;

use crate::event::{
    opt_view, BiberReference, FootnoteReference, Graphviz, InterLink, TaskListMarker, Url,
};
use crate::range::WithRange;
use crate::text::{
    chars_of, lemma_occurs_append, lemma_occurs_between, lemma_occurs_prepend, occurs_in, push_char, push_str,
    string_from_range,
};

verus! {

/// Appends `t` to `out`.
fn put(out: &mut String, t: &str)
    ensures
        final(out)@ == old(out)@ + t@,
{
    push_str(out, t);
}

/// The environment of an [`InlineEnvironment`].
#[derive(Debug, Clone, Copy, PartialEq, Eq, Structural)]
pub enum EnvKind {
    Figure,
    Table,
}

pub open spec fn env_name(e: EnvKind) -> Seq<char> {
    match e {
        EnvKind::Figure => "figure"@,
        EnvKind::Table => "table"@,
    }
}

fn env_str(e: EnvKind) -> (r: &'static str)
    ensures
        r@ == env_name(e),
{
    match e {
        EnvKind::Figure => "figure",
        EnvKind::Table => "table",
    }
}

/// Used for inline elements (not wrapped in a floating figure) that want a label or caption.
///
/// Latex requires a figure to be able to have a caption.
/// Also labels not in an environment reference the section instead of the element.
/// Thus we create an inline figure / table with placement specifier `H` (from the `float` package).
#[derive(Debug)]
pub struct InlineEnvironment {
    pub label: Option<WithRange<String>>,
    pub caption: Option<WithRange<String>>,
    pub environment: EnvKind,
}

pub open spec fn wr_view(o: Option<WithRange<String>>) -> Option<Seq<char>> {
    match o {
        Some(w) => Some(w.0@),
        None => None,
    }
}

/// Opening of an inline environment: only where it has a label or a caption.
pub open spec fn inline_begin_text(
    label: Option<Seq<char>>,
    caption: Option<Seq<char>>,
    env: EnvKind,
) -> Seq<char> {
    if label is Some || caption is Some {
        "\\begin{"@ + env_name(env) + "}[H]\n"@
    } else {
        Seq::empty()
    }
}

/// Closing of an inline environment: the caption (numbered only with a label), the label,
/// and the end of the environment; nothing without label and caption.
pub open spec fn inline_end_text(
    label: Option<Seq<char>>,
    caption: Option<Seq<char>>,
    env: EnvKind,
) -> Seq<char> {
    if label is None && caption is None {
        Seq::empty()
    } else {
        let cap = match caption {
            Some(c) => if label is Some {
                "\\caption{"@ + c + "}\n"@
            } else {
                "\\caption*{"@ + c + "}\n"@
            },
            None => "\\caption{}\n"@,
        };
        let lab = match label {
            Some(l) => "\\label{"@ + l + "}\n"@,
            None => Seq::empty(),
        };
        cap + lab + "\\end{"@ + env_name(env) + "}\n"@
    }
}

impl InlineEnvironment {
    pub open spec fn env(&self) -> EnvKind {
        self.environment
    }

    /// An inline figure.
    pub fn new_figure(label: Option<WithRange<String>>, caption: Option<WithRange<String>>) -> (r:
        InlineEnvironment)
        ensures
            r.label == label,
            r.caption == caption,
            r.env() == EnvKind::Figure,
    {
        InlineEnvironment { label, caption, environment: EnvKind::Figure }
    }

    /// An inline table.
    pub fn new_table(label: Option<WithRange<String>>, caption: Option<WithRange<String>>) -> (r:
        InlineEnvironment)
        ensures
            r.label == label,
            r.caption == caption,
            r.env() == EnvKind::Table,
    {
        InlineEnvironment { label, caption, environment: EnvKind::Table }
    }

    /// The opening of the environment.
    pub fn write_begin(&self) -> (r: String)
        ensures
            r@ == inline_begin_text(wr_view(self.label), wr_view(self.caption), self.env()),
    {
        let mut out = String::new();
        if self.label.is_some() || self.caption.is_some() {
            put(&mut out, "\\begin{");
            put(&mut out, env_str(self.environment));
            put(&mut out, "}[H]\n");
        }
        assert(out@ =~= inline_begin_text(wr_view(self.label), wr_view(self.caption), self.env()));
        out
    }

    /// The closing of the environment.
    pub fn write_end(&self) -> (r: String)
        ensures
            r@ == inline_end_text(wr_view(self.label), wr_view(self.caption), self.env()),
    {
        let mut out = String::new();
        if self.label.is_none() && self.caption.is_none() {
            assert(out@ =~= Seq::<char>::empty());
            return out;
        }
        match &self.caption {
            Some(WithRange(caption, _)) => {
                if self.label.is_some() {
                    put(&mut out, "\\caption{");
                } else {
                    put(&mut out, "\\caption*{");
                }
                put(&mut out, caption.as_str());
                put(&mut out, "}\n");
            },
            None => put(&mut out, "\\caption{}\n"),
        }
        match &self.label {
            Some(WithRange(label, _)) => {
                put(&mut out, "\\label{");
                put(&mut out, label.as_str());
                put(&mut out, "}\n");
            },
            None => {},
        }
        put(&mut out, "\\end{");
        put(&mut out, env_str(self.environment));
        put(&mut out, "}\n");
        assert(out@ =~= inline_end_text(wr_view(self.label), wr_view(self.caption), self.env()));
        out
    }
}

// ----------------------------------------------------------------------------------------
// text

/// Where a text stands: inside inline code, inside any code or math, inside math, inside a
/// graphviz graph.
#[derive(Debug, Clone, Copy)]
pub struct TextContext {
    pub in_inline_code: bool,
    pub in_code_or_math: bool,
    pub in_math: bool,
    pub in_graphviz: bool,
}

/// The replacement of `c` in the table `t`: that of its first entry.
pub open spec fn lookup_replacement(t: Seq<(char, Seq<char>)>, c: char) -> Option<Seq<char>>
    decreases t.len(),
{
    if t.len() == 0 {
        None
    } else if t[0].0 == c {
        Some(t[0].1)
    } else {
        lookup_replacement(t.drop_first(), c)
    }
}

pub open spec fn table_view(t: Seq<(char, String)>) -> Seq<(char, Seq<char>)> {
    Seq::new(t.len(), |i: int| (t[i].0, t[i].1@))
}

/// `c` is escaped by a fixed LaTeX sequence where it stands.
pub open spec fn is_special(c: char, ctx: TextContext) -> bool {
    let esc = ctx.in_inline_code || !ctx.in_code_or_math;
    ||| (c == '#' || c == '$' || c == '%' || c == '&' || c == '\\') && esc
    ||| (c == '~' || c == '_' || c == '^' || c == '{' || c == '}') && esc
    ||| c == '✔'
    ||| c == '✘'
}

/// The LaTeX of one character of a text.
pub open spec fn escape_char(c: char, ctx: TextContext, t: Seq<(char, Seq<char>)>) -> Seq<char> {
    let esc = ctx.in_inline_code || !ctx.in_code_or_math;
    let iic = ctx.in_inline_code;
    let plain = !ctx.in_code_or_math;
    if c == '#' && esc {
        "\\#"@
    } else if c == '$' && esc {
        "\\$"@
    } else if c == '%' && esc {
        "\\%"@
    } else if c == '&' && esc {
        "\\&"@
    } else if c == '~' && iic {
        "\\char`~{}"@
    } else if c == '~' && plain {
        "\\textasciitilde{}"@
    } else if c == '_' && iic {
        "\\char`_{}"@
    } else if c == '_' && plain {
        "\\_"@
    } else if c == '^' && iic {
        "\\char`^{}"@
    } else if c == '^' && plain {
        "\\textasciicircum{}"@
    } else if c == '\\' && esc {
        "\\textbackslash{}"@
    } else if c == '{' && iic {
        "\\char`{{}"@
    } else if c == '{' && plain {
        "\\{"@
    } else if c == '}' && iic {
        "\\char`}{}"@
    } else if c == '}' && plain {
        "\\}"@
    } else if c == '✔' {
        "\\checkmark{}"@
    } else if c == '✘' {
        "\\text{X}"@
    } else if ctx.in_graphviz {
        seq![c]
    } else {
        match lookup_replacement(t, c) {
            Some(r) => if ctx.in_math {
                r.subrange(1, r.len() - 1)
            } else {
                r
            },
            None => seq![c],
        }
    }
}

/// The LaTeX of a text, character by character.
pub open spec fn escape_text(s: Seq<char>, ctx: TextContext, t: Seq<(char, Seq<char>)>) -> Seq<char>
    decreases s.len(),
{
    if s.len() == 0 {
        Seq::empty()
    } else {
        escape_text(s.drop_last(), ctx, t) + escape_char(s.last(), ctx, t)
    }
}

/// In math, a replacement loses its first and last character, which must be ASCII.
pub open spec fn math_replacement_ok(r: Seq<char>) -> bool {
    r.len() >= 2 && (r[0] as u32) < 0x80 && (r.last() as u32) < 0x80
}

/// The replacements used for the characters of `s` can be cut where the text is math.
pub open spec fn replacements_ok(s: Seq<char>, ctx: TextContext, t: Seq<(char, Seq<char>)>) -> bool {
    forall|i: int|
        0 <= i < s.len() && ctx.in_math && !ctx.in_graphviz && !is_special(#[trigger] s[i], ctx)
            ==> match lookup_replacement(t, s[i]) {
            Some(r) => math_replacement_ok(r),
            None => true,
        }
}

fn lookup(t: &Vec<(char, String)>, c: char) -> (r: Option<&String>)
    ensures
        match r {
            Some(x) => lookup_replacement(table_view(t@), c) == Some(x@),
            None => lookup_replacement(table_view(t@), c) is None,
        },
{
    let ghost tv = table_view(t@);
    let mut i: usize = 0;
    assert(tv.skip(0) =~= tv);
    while i < t.len()
        invariant
            i <= t@.len(),
            tv == table_view(t@),
            lookup_replacement(tv.skip(i as int), c) == lookup_replacement(tv, c),
        decreases t@.len() - i,
    {
        proof {
            assert(tv.skip(i as int).drop_first() =~= tv.skip(i + 1));
        }
        if t[i].0 == c {
            assert(tv.skip(i as int)[0] == tv[i as int]);
            return Some(&t[i].1);
        }
        assert(tv.skip(i as int)[0] == tv[i as int]);
        i = i + 1;
    }
    None
}

/// Leaf generator of texts: escapes the characters that LaTeX treats specially.
#[derive(Debug)]
pub struct TextGen;

impl TextGen {
    /// The LaTeX of a text in context `ctx`, with `replacements` for other characters.
    pub fn gen(text: &str, ctx: TextContext, replacements: &Vec<(char, String)>) -> (r: String)
        requires
            replacements_ok(text@, ctx, table_view(replacements@)),
        ensures
            r@ == escape_text(text@, ctx, table_view(replacements@)),
    {
        let ghost tv = table_view(replacements@);
        let v = chars_of(text);
        let mut s = String::new();
        let mut i: usize = 0;
        assert(v@.take(0) =~= Seq::<char>::empty());
        while i < v.len()
            invariant
                i <= v@.len(),
                v@ == text@,
                tv == table_view(replacements@),
                replacements_ok(text@, ctx, tv),
                s@ == escape_text(v@.take(i as int), ctx, tv),
            decreases v@.len() - i,
        {
            let c = v[i];
            proof {
                assert(v@.take(i + 1).drop_last() =~= v@.take(i as int));
                assert(v@.take(i + 1).last() == c);
            }
            let esc = ctx.in_inline_code || !ctx.in_code_or_math;
            let iic = ctx.in_inline_code;
            let plain = !ctx.in_code_or_math;
            if c == '#' && esc {
                put(&mut s, "\\#");
            } else if c == '$' && esc {
                put(&mut s, "\\$");
            } else if c == '%' && esc {
                put(&mut s, "\\%");
            } else if c == '&' && esc {
                put(&mut s, "\\&");
            } else if c == '~' && iic {
                put(&mut s, "\\char`~{}");
            } else if c == '~' && plain {
                put(&mut s, "\\textasciitilde{}");
            } else if c == '_' && iic {
                put(&mut s, "\\char`_{}");
            } else if c == '_' && plain {
                put(&mut s, "\\_");
            } else if c == '^' && iic {
                put(&mut s, "\\char`^{}");
            } else if c == '^' && plain {
                put(&mut s, "\\textasciicircum{}");
            } else if c == '\\' && esc {
                put(&mut s, "\\textbackslash{}");
            } else if c == '{' && iic {
                put(&mut s, "\\char`{{}");
            } else if c == '{' && plain {
                put(&mut s, "\\{");
            } else if c == '}' && iic {
                put(&mut s, "\\char`}{}");
            } else if c == '}' && plain {
                put(&mut s, "\\}");
            } else if c == '✔' {
                put(&mut s, "\\checkmark{}");
            } else if c == '✘' {
                put(&mut s, "\\text{X}");
            } else if ctx.in_graphviz {
                push_char(&mut s, c);
            } else {
                match lookup(replacements, c) {
                    Some(rep) => {
                        if ctx.in_math {
                            proof {
                                assert(!is_special(text@[i as int], ctx));
                            }
                            let rv = chars_of(rep.as_str());
                            let cut = string_from_range(rv.as_slice(), 1, rv.len() - 1);
                            put(&mut s, cut.as_str());
                        } else {
                            put(&mut s, rep.as_str());
                        }
                    },
                    None => push_char(&mut s, c),
                }
            }
            proof {
                assert(s@ =~= escape_text(v@.take(i + 1), ctx, tv));
            }
            i = i + 1;
        }
        assert(v@.take(i as int) =~= v@);
        s
    }
}

// ----------------------------------------------------------------------------------------
// leaf elements

/// A generator of a leaf event, one that holds no further events: its LaTeX depends on the
/// event's data alone. Each implementation states in its own contract what it generates.
pub trait SimpleCodeGenUnit<T> {
    /// The LaTeX of one event.
    fn gen(data: T) -> String;
}

/// Leaf generator of raw LaTeX: passes it through.
#[derive(Debug)]
pub struct LatexGen;

impl<'a> SimpleCodeGenUnit<&'a str> for LatexGen {
    fn gen(latex: &'a str) -> (r: String)
        ensures
            r@ == latex@,
    {
        latex.to_owned()
    }
}

/// Leaf generator of footnote references.
#[derive(Debug)]
pub struct FootnoteReferenceGen;

impl<'a> SimpleCodeGenUnit<&'a FootnoteReference> for FootnoteReferenceGen {
    fn gen(fnote: &'a FootnoteReference) -> (r: String)
        ensures
            r@ == "\\footnotemark[\\getrefnumber{fnote:"@ + fnote.label@ + "}]"@,
    {
        let mut out = String::new();
        put(&mut out, "\\footnotemark[\\getrefnumber{fnote:");
        put(&mut out, fnote.label.as_str());
        put(&mut out, "}]");
        out
    }
}

/// One citation of several: `[attributes]{reference}` or `{reference}`.
pub open spec fn cite_item(b: BiberReference) -> Seq<char> {
    match b.attributes {
        Some(a) => "["@ + a@ + "]{"@ + b.reference@ + "}"@,
        None => "{"@ + b.reference@ + "}"@,
    }
}

pub open spec fn cite_items(v: Seq<BiberReference>) -> Seq<char>
    decreases v.len(),
{
    if v.len() == 0 {
        Seq::empty()
    } else {
        cite_items(v.drop_last()) + cite_item(v.last())
    }
}

/// The citation of biber references: `\cite` for one, `\cites` for several.
pub open spec fn cite_text(v: Seq<BiberReference>) -> Seq<char> {
    if v.len() == 1 {
        match v[0].attributes {
            Some(a) => "\\cite["@ + a@ + "]{"@ + v[0].reference@ + "}"@,
            None => "\\cite{"@ + v[0].reference@ + "}"@,
        }
    } else {
        "\\cites"@ + cite_items(v)
    }
}

/// Leaf generator of biber citations.
#[derive(Debug)]
pub struct BiberReferencesGen;

impl<'a> SimpleCodeGenUnit<&'a Vec<BiberReference>> for BiberReferencesGen {
    fn gen(biber: &'a Vec<BiberReference>) -> (r: String)
        ensures
            r@ == cite_text(biber@),
    {
        let mut out = String::new();
        if biber.len() == 1 {
            let b = &biber[0];
            match &b.attributes {
                Some(a) => {
                    put(&mut out, "\\cite[");
                    put(&mut out, a.as_str());
                    put(&mut out, "]{");
                },
                None => put(&mut out, "\\cite{"),
            }
            put(&mut out, b.reference.as_str());
            put(&mut out, "}");
            assert(out@ =~= cite_text(biber@));
        } else {
            put(&mut out, "\\cites");
            let mut i: usize = 0;
            assert(biber@.take(0) =~= Seq::<BiberReference>::empty());
            while i < biber.len()
                invariant
                    i <= biber@.len(),
                    out@ == "\\cites"@ + cite_items(biber@.take(i as int)),
                decreases biber@.len() - i,
            {
                let b = &biber[i];
                let ghost before = out@;
                match &b.attributes {
                    Some(a) => {
                        put(&mut out, "[");
                        put(&mut out, a.as_str());
                        put(&mut out, "]{");
                    },
                    None => put(&mut out, "{"),
                }
                put(&mut out, b.reference.as_str());
                put(&mut out, "}");
                proof {
                    assert(biber@.take(i + 1).drop_last() =~= biber@.take(i as int));
                    assert(out@ =~= before + cite_item(biber@[i as int]));
                }
                i = i + 1;
            }
            assert(biber@.take(i as int) =~= biber@);
        }
        out
    }
}

/// Leaf generator of links without content.
#[derive(Debug)]
pub struct UrlGen;

impl<'a> SimpleCodeGenUnit<&'a Url> for UrlGen {
    fn gen(url: &'a Url) -> (r: String)
        ensures
            r@ == match opt_view(url.title) {
                None => "\\url{"@ + url.destination@ + "}"@,
                Some(t) => "\\pdftooltip{\\url{"@ + url.destination@ + "}}{"@ + t + "}"@,
            },
    {
        let mut out = String::new();
        match &url.title {
            None => {
                put(&mut out, "\\url{");
                put(&mut out, url.destination.as_str());
                put(&mut out, "}");
            },
            Some(t) => {
                put(&mut out, "\\pdftooltip{\\url{");
                put(&mut out, url.destination.as_str());
                put(&mut out, "}}{");
                put(&mut out, t.as_str());
                put(&mut out, "}");
            },
        }
        out
    }
}

/// Leaf generator of links to labels without content.
#[derive(Debug)]
pub struct InterLinkGen;

impl<'a> SimpleCodeGenUnit<&'a InterLink> for InterLinkGen {
    fn gen(interlink: &'a InterLink) -> (r: String)
        ensures
            r@ == (if interlink.uppercase {
                "\\Cref{"@
            } else {
                "\\cref{"@
            }) + interlink.label@ + "}"@,
    {
        let mut out = String::new();
        if interlink.uppercase {
            put(&mut out, "\\Cref{");
        } else {
            put(&mut out, "\\cref{");
        }
        put(&mut out, interlink.label.as_str());
        put(&mut out, "}");
        out
    }
}

/// An image to include.
#[derive(Debug)]
pub struct Image {
    pub label: Option<WithRange<String>>,
    pub caption: Option<WithRange<String>>,
    pub title: Option<String>,
    pub alt_text: Option<String>,
    pub path: String,
    pub scale: Option<WithRange<String>>,
    pub width: Option<WithRange<String>>,
    pub height: Option<WithRange<String>>,
}

pub open spec fn image_opening(title: Option<String>, alt_text: Option<String>) -> Seq<char> {
    (if title is Some {
        "\\pdftooltip{\n"@
    } else {
        Seq::empty()
    }) + (if alt_text is Some {
        "\\imagewithtext["@
    } else {
        "\\includegraphics["@
    })
}

pub open spec fn image_sizes(
    scale: Option<WithRange<String>>,
    width: Option<WithRange<String>>,
    height: Option<WithRange<String>>,
) -> Seq<char> {
    (match wr_view(scale) {
        Some(s) => "scale="@ + s,
        None => Seq::empty(),
    }) + (match wr_view(width) {
        Some(w) => "width="@ + w + ","@,
        None => Seq::empty(),
    }) + (match wr_view(height) {
        Some(h) => "height="@ + h + ","@,
        None => Seq::empty(),
    })
}

pub open spec fn image_closing(path: String, alt_text: Option<String>, title: Option<String>) -> Seq<
    char,
> {
    (match opt_view(alt_text) {
        Some(a) => "]{"@ + path@ + "}{"@ + a + "}\n"@,
        None => "]{"@ + path@ + "}\n"@,
    }) + (match opt_view(title) {
        Some(t) => "}{"@ + t + "}\n"@,
        None => Seq::empty(),
    })
}

/// The LaTeX of an image, inside an inline figure where it has a label or caption.
pub open spec fn image_text(i: Image) -> Seq<char> {
    let l = wr_view(i.label);
    let c = wr_view(i.caption);
    inline_begin_text(l, c, EnvKind::Figure) + image_opening(i.title, i.alt_text) + image_sizes(
        i.scale,
        i.width,
        i.height,
    ) + image_closing(i.path, i.alt_text, i.title) + inline_end_text(l, c, EnvKind::Figure)
}

fn image_opening_text(title: &Option<String>, alt_text: &Option<String>) -> (r: String)
    ensures
        r@ == image_opening(*title, *alt_text),
{
    let mut out = String::new();
    if title.is_some() {
        put(&mut out, "\\pdftooltip{\n");
    }
    if alt_text.is_some() {
        put(&mut out, "\\imagewithtext[");
    } else {
        put(&mut out, "\\includegraphics[");
    }
    assert(out@ =~= image_opening(*title, *alt_text));
    out
}

fn image_sizes_text(
    scale: &Option<WithRange<String>>,
    width: &Option<WithRange<String>>,
    height: &Option<WithRange<String>>,
) -> (r: String)
    ensures
        r@ == image_sizes(*scale, *width, *height),
{
    let mut out = String::new();
    match scale {
        Some(WithRange(s, _)) => {
            put(&mut out, "scale=");
            put(&mut out, s.as_str());
        },
        None => {},
    }
    match width {
        Some(WithRange(w, _)) => {
            put(&mut out, "width=");
            put(&mut out, w.as_str());
            put(&mut out, ",");
        },
        None => {},
    }
    match height {
        Some(WithRange(h, _)) => {
            put(&mut out, "height=");
            put(&mut out, h.as_str());
            put(&mut out, ",");
        },
        None => {},
    }
    assert(out@ =~= image_sizes(*scale, *width, *height));
    out
}

fn image_closing_text(path: &String, alt_text: &Option<String>, title: &Option<String>) -> (r: String)
    ensures
        r@ == image_closing(*path, *alt_text, *title),
{
    let mut out = String::new();
    put(&mut out, "]{");
    put(&mut out, path.as_str());
    match alt_text {
        Some(a) => {
            put(&mut out, "}{");
            put(&mut out, a.as_str());
            put(&mut out, "}\n");
        },
        None => put(&mut out, "}\n"),
    }
    match title {
        Some(t) => {
            put(&mut out, "}{");
            put(&mut out, t.as_str());
            put(&mut out, "}\n");
        },
        None => {},
    }
    assert(out@ =~= image_closing(*path, *alt_text, *title));
    out
}

/// Leaf generator of images.
#[derive(Debug)]
pub struct ImageGen;

impl SimpleCodeGenUnit<Image> for ImageGen {
    fn gen(image: Image) -> (r: String)
        ensures
            r@ == image_text(image),
    {
        let Image { label, caption, title, alt_text, path, scale, width, height } = image;
        let opening = image_opening_text(&title, &alt_text);
        let sizes = image_sizes_text(&scale, &width, &height);
        let closing = image_closing_text(&path, &alt_text, &title);
        let inline_fig = InlineEnvironment::new_figure(label, caption);
        let mut out = inline_fig.write_begin();
        put(&mut out, opening.as_str());
        put(&mut out, sizes.as_str());
        put(&mut out, closing.as_str());
        let end = inline_fig.write_end();
        put(&mut out, end.as_str());
        out
    }
}

/// The size options of a graphviz graph: each of scale, width and height that is set,
/// followed by a comma.
pub open spec fn graphviz_sizes(
    scale: Option<WithRange<String>>,
    width: Option<WithRange<String>>,
    height: Option<WithRange<String>>,
) -> Seq<char> {
    (match wr_view(scale) {
        Some(s) => "scale="@ + s + ","@,
        None => Seq::empty(),
    }) + (match wr_view(width) {
        Some(w) => "width="@ + w + ","@,
        None => Seq::empty(),
    }) + (match wr_view(height) {
        Some(h) => "height="@ + h + ","@,
        None => Seq::empty(),
    })
}

/// The LaTeX of a graphviz graph rendered to `path.pdf`, inside an inline figure where it
/// has a label or caption.
pub open spec fn graphviz_text(g: Graphviz, path: Seq<char>) -> Seq<char> {
    let l = wr_view(g.label);
    let c = wr_view(g.caption);
    inline_begin_text(l, c, EnvKind::Figure) + "\\includegraphics["@ + graphviz_sizes(
        g.scale,
        g.width,
        g.height,
    ) + "]{"@ + path + ".pdf}\n"@ + inline_end_text(l, c, EnvKind::Figure)
}

/// Generator of graphviz graphs: `dot` rendered the graph to `path.pdf`; this includes it.
#[derive(Debug)]
pub struct GraphvizGen;

impl GraphvizGen {
    pub fn finish(graphviz: Graphviz, path: &str) -> (r: String)
        ensures
            r@ == graphviz_text(graphviz, path@),
    {
        let Graphviz { label, caption, scale, width, height } = graphviz;
        let mut sizes = String::new();
        match &scale {
            Some(WithRange(s, _)) => {
                put(&mut sizes, "scale=");
                put(&mut sizes, s.as_str());
                put(&mut sizes, ",");
            },
            None => {},
        }
        match &width {
            Some(WithRange(w, _)) => {
                put(&mut sizes, "width=");
                put(&mut sizes, w.as_str());
                put(&mut sizes, ",");
            },
            None => {},
        }
        match &height {
            Some(WithRange(h, _)) => {
                put(&mut sizes, "height=");
                put(&mut sizes, h.as_str());
                put(&mut sizes, ",");
            },
            None => {},
        }
        assert(sizes@ =~= graphviz_sizes(scale, width, height));
        let inline_fig = InlineEnvironment::new_figure(label, caption);
        let mut out = inline_fig.write_begin();
        put(&mut out, "\\includegraphics[");
        put(&mut out, sizes.as_str());
        put(&mut out, "]{");
        put(&mut out, path);
        put(&mut out, ".pdf}\n");
        let end = inline_fig.write_end();
        put(&mut out, end.as_str());
        out
    }
}

/// Leaf generator of labels.
#[derive(Debug)]
pub struct LabelGen;

impl<'a> SimpleCodeGenUnit<&'a str> for LabelGen {
    fn gen(label: &'a str) -> (r: String)
        ensures
            r@ == "\\label{"@ + label@ + "}\n"@,
    {
        let mut out = String::new();
        put(&mut out, "\\label{");
        put(&mut out, label);
        put(&mut out, "}\n");
        out
    }
}

/// Leaf generator of included PDF files.
#[derive(Debug)]
pub struct PdfGen;

impl<'a> SimpleCodeGenUnit<&'a str> for PdfGen {
    fn gen(path: &'a str) -> (r: String)
        ensures
            r@ == "\\includepdf[pages=-]{"@ + path@ + "}\n"@,
    {
        let mut out = String::new();
        put(&mut out, "\\includepdf[pages=-]{");
        put(&mut out, path);
        put(&mut out, "}\n");
        out
    }
}

/// Leaf generator of soft breaks: kept as line breaks for readability.
#[derive(Debug)]
pub struct SoftBreakGen;

impl SimpleCodeGenUnit<()> for SoftBreakGen {
    fn gen(_unit: ()) -> (r: String)
        ensures
            r@ == "\n"@,
    {
        "\n".to_owned()
    }
}

/// Leaf generator of hard breaks.
#[derive(Debug)]
pub struct HardBreakGen;

impl HardBreakGen {
    /// A hard break; inside a table a `\newline`.
    pub fn gen(in_table: bool) -> (r: String)
        ensures
            r@ == (if in_table {
                "\\newline"@
            } else {
                "\\\\\n"@
            }),
    {
        if in_table {
            "\\newline".to_owned()
        } else {
            "\\\\\n".to_owned()
        }
    }
}

/// Leaf generator of task-list checkboxes.
#[derive(Debug)]
pub struct TaskListMarkerGen;

impl SimpleCodeGenUnit<TaskListMarker> for TaskListMarkerGen {
    fn gen(marker: TaskListMarker) -> (r: String)
        ensures
            r@ == (if marker.checked {
                "[$\\boxtimes$] "@
            } else {
                "[$\\square$] "@
            }),
    {
        if marker.checked {
            "[$\\boxtimes$] ".to_owned()
        } else {
            "[$\\square$] ".to_owned()
        }
    }
}

/// Leaf generator of the table of contents.
#[derive(Debug)]
pub struct TableOfContentsGen;

impl SimpleCodeGenUnit<()> for TableOfContentsGen {
    fn gen(_unit: ()) -> (r: String)
        ensures
            r@ == "\\tableofcontents\n"@,
    {
        "\\tableofcontents\n".to_owned()
    }
}

/// Leaf generator of the bibliography.
#[derive(Debug)]
pub struct BibliographyGen;

impl SimpleCodeGenUnit<()> for BibliographyGen {
    fn gen(_unit: ()) -> (r: String)
        ensures
            r@ == "\\printbibliography[heading=bibintoc]\n"@,
    {
        "\\printbibliography[heading=bibintoc]\n".to_owned()
    }
}

/// A list command framed by switching protrusion off and on.
pub open spec fn list_of_text(cmd: Seq<char>) -> Seq<char> {
    "\\microtypesetup{protrusion=false}\n"@ + cmd + "\n"@ + "\\microtypesetup{protrusion=true}\n"@
}

fn list_of(cmd: &str) -> (r: String)
    ensures
        r@ == list_of_text(cmd@),
{
    let mut out = String::new();
    put(&mut out, "\\microtypesetup{protrusion=false}\n");
    put(&mut out, cmd);
    put(&mut out, "\n");
    put(&mut out, "\\microtypesetup{protrusion=true}\n");
    out
}

/// Leaf generator of the list of tables.
#[derive(Debug)]
pub struct ListOfTablesGen;

impl SimpleCodeGenUnit<()> for ListOfTablesGen {
    fn gen(_unit: ()) -> (r: String)
        ensures
            r@ == list_of_text("\\listoftables"@),
    {
        list_of("\\listoftables")
    }
}

/// Leaf generator of the list of figures.
#[derive(Debug)]
pub struct ListOfFiguresGen;

impl SimpleCodeGenUnit<()> for ListOfFiguresGen {
    fn gen(_unit: ()) -> (r: String)
        ensures
            r@ == list_of_text("\\listoffigures"@),
    {
        list_of("\\listoffigures")
    }
}

/// Leaf generator of the list of listings.
#[derive(Debug)]
pub struct ListOfListingsGen;

impl SimpleCodeGenUnit<()> for ListOfListingsGen {
    fn gen(_unit: ()) -> (r: String)
        ensures
            r@ == list_of_text("\\lstlistoflistings"@),
    {
        list_of("\\lstlistoflistings")
    }
}

/// Leaf generator of the start of the appendix.
#[derive(Debug)]
pub struct AppendixGen;

impl SimpleCodeGenUnit<()> for AppendixGen {
    fn gen(_unit: ()) -> (r: String)
        ensures
            r@ == "\\appendix{}\n"@ + "\\renewcommand\\thelstlisting{\\Alph{lstlisting}}\n"@
                + "\\setcounter{lstlisting}{0}\n"@,
    {
        let mut out = String::new();
        put(&mut out, "\\appendix{}\n");
        put(&mut out, "\\renewcommand\\thelstlisting{\\Alph{lstlisting}}\n");
        put(&mut out, "\\setcounter{lstlisting}{0}\n");
        out
    }
}

/// Escaping a text escapes its parts one after the other: the LaTeX of a concatenation is
/// the concatenation of the LaTeX of the parts.
pub proof fn law_escape_text_concat(a: Seq<char>, b: Seq<char>, ctx: TextContext, t: Seq<(char, Seq<char>)>)
    ensures
        escape_text(a + b, ctx, t) == escape_text(a, ctx, t) + escape_text(b, ctx, t),
    decreases b.len(),
{
    if b.len() == 0 {
        assert(a + b =~= a);
        assert(escape_text(a, ctx, t) + Seq::<char>::empty() =~= escape_text(a, ctx, t));
    } else {
        law_escape_text_concat(a, b.drop_last(), ctx, t);
        assert((a + b).drop_last() =~= a + b.drop_last());
        assert((a + b).last() == b.last());
        assert(escape_text(a, ctx, t) + escape_text(b.drop_last(), ctx, t) + escape_char(
            b.last(),
            ctx,
            t,
        ) =~= escape_text(a, ctx, t) + (escape_text(b.drop_last(), ctx, t) + escape_char(
            b.last(),
            ctx,
            t,
        )));
    }
}

/// Outside code and math, the characters LaTeX treats specially never pass unescaped:
/// each of them becomes its escape sequence.
pub proof fn law_plain_specials_escaped(c: char, ctx: TextContext, t: Seq<(char, Seq<char>)>)
    requires
        !ctx.in_inline_code,
        !ctx.in_code_or_math,
        c == '#' || c == '$' || c == '%' || c == '&' || c == '~' || c == '_' || c == '^' || c == '\\'
            || c == '{' || c == '}',
    ensures
        escape_char(c, ctx, t) != seq![c],
        escape_char(c, ctx, t).len() >= 2,
        escape_char(c, ctx, t)[0] == '\\',
{
    reveal_strlit("\\#");
    reveal_strlit("\\$");
    reveal_strlit("\\%");
    reveal_strlit("\\&");
    reveal_strlit("\\textasciitilde{}");
    reveal_strlit("\\_");
    reveal_strlit("\\textasciicircum{}");
    reveal_strlit("\\textbackslash{}");
    reveal_strlit("\\{");
    reveal_strlit("\\}");
    assert(escape_char(c, ctx, t).len() != seq![c].len());
}

/// A reference in braces, as a citation writes it.
pub open spec fn braced(r: Seq<char>) -> Seq<char> {
    "{"@ + r + "}"@
}

/// A citation of one reference without attributes is `\cite{reference}`.
pub proof fn law_cite_single_plain(b: BiberReference)
    requires
        b.attributes is None,
    ensures
        cite_text(seq![b]) == "\\cite"@ + braced(b.reference@),
{
    reveal_strlit("\\cite{");
    reveal_strlit("\\cite");
    reveal_strlit("{");
    assert(seq![b][0] == b);
    assert("\\cite{"@ =~= "\\cite"@ + "{"@);
    assert(cite_text(seq![b]) =~= "\\cite"@ + braced(b.reference@));
}

proof fn lemma_cite_item_braced(b: BiberReference)
    ensures
        occurs_in(cite_item(b), braced(b.reference@)),
{
    reveal_strlit("]{");
    reveal_strlit("{");
    reveal_strlit("[");
    reveal_strlit("]");
    match b.attributes {
        Some(a) => {
            assert(cite_item(b) =~= ("["@ + a@ + "]"@) + braced(b.reference@) + Seq::<char>::empty());
            lemma_occurs_between("["@ + a@ + "]"@, braced(b.reference@), Seq::<char>::empty());
        },
        None => {
            assert(cite_item(b) =~= Seq::<char>::empty() + braced(b.reference@) + Seq::<char>::empty());
            lemma_occurs_between(Seq::<char>::empty(), braced(b.reference@), Seq::<char>::empty());
        },
    }
}

/// A reference with its attributes in brackets before it, as a citation writes it.
pub open spec fn attributed(a: Seq<char>, r: Seq<char>) -> Seq<char> {
    "["@ + a + "]"@ + braced(r)
}

proof fn lemma_cite_item_attributed(b: BiberReference)
    requires
        b.attributes is Some,
    ensures
        occurs_in(cite_item(b), attributed(b.attributes->0@, b.reference@)),
{
    reveal_strlit("]{");
    reveal_strlit("{");
    reveal_strlit("[");
    reveal_strlit("]");
    let a = b.attributes->0;
    assert(cite_item(b) =~= Seq::<char>::empty() + attributed(a@, b.reference@) + Seq::<char>::empty());
    lemma_occurs_between(Seq::<char>::empty(), attributed(a@, b.reference@), Seq::<char>::empty());
}

proof fn lemma_cite_items_attributed(v: Seq<BiberReference>, i: int)
    requires
        0 <= i < v.len(),
        v[i].attributes is Some,
    ensures
        occurs_in(cite_items(v), attributed(v[i].attributes->0@, v[i].reference@)),
    decreases v.len(),
{
    let t = attributed(v[i].attributes->0@, v[i].reference@);
    if i == v.len() - 1 {
        lemma_cite_item_attributed(v.last());
        lemma_occurs_prepend(cite_items(v.drop_last()), cite_item(v.last()), t);
    } else {
        assert(v.drop_last()[i] == v[i]);
        lemma_cite_items_attributed(v.drop_last(), i);
        lemma_occurs_append(cite_items(v.drop_last()), cite_item(v.last()), t);
    }
}

proof fn lemma_cite_items_braced(v: Seq<BiberReference>, i: int)
    requires
        0 <= i < v.len(),
    ensures
        occurs_in(cite_items(v), braced(v[i].reference@)),
    decreases v.len(),
{
    if i == v.len() - 1 {
        lemma_cite_item_braced(v.last());
        lemma_occurs_prepend(cite_items(v.drop_last()), cite_item(v.last()), braced(v[i].reference@));
    } else {
        lemma_cite_items_braced(v.drop_last(), i);
        assert(v.drop_last()[i] == v[i]);
        lemma_occurs_append(cite_items(v.drop_last()), cite_item(v.last()), braced(v[i].reference@));
    }
}

proof fn lemma_cite_attributed(v: Seq<BiberReference>, i: int)
    requires
        0 <= i < v.len(),
    ensures
        v[i].attributes matches Some(a) ==> occurs_in(cite_text(v), attributed(a@, v[i].reference@)),
{
    if v[i].attributes is Some {
        let a = v[i].attributes->0;
        reveal_strlit("\\cite[");
        reveal_strlit("\\cite");
        reveal_strlit("]{");
        reveal_strlit("{");
        reveal_strlit("[");
        reveal_strlit("]");
        if v.len() == 1 {
            assert(cite_text(v) =~= "\\cite"@ + attributed(a@, v[i].reference@) + Seq::<char>::empty());
            lemma_occurs_between("\\cite"@, attributed(a@, v[i].reference@), Seq::<char>::empty());
        } else {
            lemma_cite_items_attributed(v, i);
            lemma_occurs_prepend("\\cites"@, cite_items(v), attributed(a@, v[i].reference@));
        }
    }
}

proof fn lemma_cite_braced(v: Seq<BiberReference>, i: int)
    requires
        0 <= i < v.len(),
    ensures
        occurs_in(cite_text(v), braced(v[i].reference@)),
{
    reveal_strlit("\\cite[");
    reveal_strlit("\\cite{");
    reveal_strlit("]{");
    reveal_strlit("{");
    reveal_strlit("]");
    if v.len() == 1 {
        let b = v[0];
        match b.attributes {
            Some(a) => {
                assert(cite_text(v) =~= ("\\cite["@ + a@ + "]"@) + braced(b.reference@) + Seq::<char>::empty());
                lemma_occurs_between("\\cite["@ + a@ + "]"@, braced(b.reference@), Seq::<char>::empty());
            },
            None => {
                assert(cite_text(v) =~= "\\cite"@ + braced(b.reference@) + Seq::<char>::empty()) by {
                    reveal_strlit("\\cite");
                }
                lemma_occurs_between("\\cite"@, braced(b.reference@), Seq::<char>::empty());
            },
        }
    } else {
        lemma_cite_items_braced(v, i);
        lemma_occurs_prepend("\\cites"@, cite_items(v), braced(v[i].reference@));
    }
}

/// Every reference of a citation occurs in its LaTeX, in braces, and right after its
/// attributes in brackets where it has any: no reference and no attribute is lost.
pub proof fn law_cite_contains_references(v: Seq<BiberReference>, i: int)
    requires
        0 <= i < v.len(),
    ensures
        occurs_in(cite_text(v), braced(v[i].reference@)),
        v[i].attributes matches Some(a) ==> occurs_in(cite_text(v), attributed(a@, v[i].reference@)),
{
    lemma_cite_braced(v, i);
    lemma_cite_attributed(v, i);
}

} // verus!

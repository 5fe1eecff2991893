//! The preamble of LaTeX documents: document class, packages, fixes and commands, title
//! information, and the preambles of the kinds of documents.
use vstd::prelude::*;

use crate::config::Config;
use crate::event::opt_view;
use crate::text::{ascii_lower_seq, push_str};

verus! {

pub const LSTSET: &'static str = r#"
\lstset{%
  numbers=left,
  numberstyle=\tiny\color{gray},
  stepnumber=1,
  numbersep=5pt,
  showspaces=false,
  showstringspaces=false,
  showtabs=false,
  frame=single,
  rulecolor=\color{black},
  tabsize=8,
  captionpos=b,
  breaklines=true,
  breakatwhitespace=false,
  language=C,
  keywordstyle=\bfseries\color{OliveGreen},
  commentstyle=\itshape\color{Mahogany},
  stringstyle=\color{BrickRed},
  keywordstyle=[2]{\color{Cyan}},
  xleftmargin=8pt,
  xrightmargin=3pt,
  basicstyle=\scriptsize,
  morekeywords={u32, __u32, __be32, __le32,
  		u16, __u16, __be16, __le16,
	        u8,  __u8,  __be8,  __le8,
          size_t, ssize_t, __int8,
      _BYTE, LOBYTE, BYTE1, BYTE2, BYTE3}
}
"#;

pub const LST_DEFINE_ASM: &'static str = r#"
%  x86-64-assembler-language-dialect-for-the-listings-package
\lstdefinelanguage
   [x86_64]{Assembler}
   [x86masm]{Assembler}
   % with these extra keywords:
   {morekeywords={CDQE, CQO, CMPSQ, CMPXCHG16B, JRCXZ, LODSQ, MOVSXD,
                  POPFQ, PUSHFQ, SCASQ, STOSQ, IRETQ, RDTSCP, SWAPGS,
                  B, BX, LDR.W, DCD, =,
                  rax, rdx, rcx, rbx, rsi, rdi, rsp, rbp,
                  r8, r8d, r8w, r8b, r9, r9d, r9w, r9b,
                  LR}}
"#;

pub const LST_DEFINE_RUST: &'static str = r#"
\lstdefinelanguage{rust}{%
  keywords={%
    % strict keywords
    as, break, const, continue, crate, else, enum, extern, false, fn,
    for, if, impl, in, let, loop, match, mod, move, mut, pub, ref,
    return, self, Self, static, struct, super, trait, true, type,
    unsafe, use, where, while,
    % reserved keywords
    abstract, become, box, do, final, macro, override, priv, typeof,
    unsized, virtual, yield,
    % weak keywords
    union, dyn,
  },
  keywords=[2]{%
    i8, u8, i16, u16, i32, u32, i64, u64, i128, u128, isize, usize,
    f32, f64
  },
  keywords=[3]{%
    'a, 'b, 'static,
    [,],&,
    Some, None, Ok, Err
  },
  morecomment=[s]{/*}{*/},
  morecomment=[l]//,
  morestring=[b]"
  %morestring=[b]'
}[keywords,comments,strings,directives]
"#;

pub const LST_DEFINE_JS: &'static str = r#"
\lstdefinelanguage{js}{
  keywords={typeof, new, true, false, catch, function, return, null, catch, switch, var, let, const, if, in, while, do, else, case, break},
  keywordstyle=\color{blue}\bfseries,
  ndkeywords={class, export, boolean, throw, implements, import, this, console},
  ndkeywordstyle=\color{darkgray}\bfseries,
  identifierstyle=\color{black},
  sensitive=false,
  comment=[l]{//},
  morecomment=[s]{/*}{*/},
  commentstyle=\color{purple}\ttfamily,
  stringstyle=\color{red}\ttfamily,
  morestring=[b]',
  morestring=[b]"
}
"#;

pub const AQUOTE: &'static str = r#"
\def\signed #1{{\leavevmode\unskip\nobreak\hfil\penalty50\hskip2em
  \hbox{}\nobreak\hfil(#1)%
  \parfillskip=0pt \finalhyphendemerits=0 \endgraf}}

\newsavebox\mybox
\newenvironment{aquote}[1]
  {\savebox\mybox{#1}\begin{quote}}
  {\signed{\usebox\mybox}\end{quote}}
"#;

pub const THICKHLINE: &'static str = r#"
\makeatletter
\newcommand{\thickhline}{%
    \noalign {\ifnum 0=`}\fi \hrule height 1pt
    \futurelet \reserved@a \@xhline
}
\newcolumntype{"}{@{\hskip\tabcolsep\vrule width 1pt\hskip\tabcolsep}}
\makeatother
"#;

pub const FIX_INCLUDEGRAPHICS: &'static str = r#"
% Redefine \includegraphics so that, unless explicit options are
% given, the image width will not exceed the width or the height of the page.
% Images get their normal width if they fit onto the page, but
% are scaled down if they would overflow the margins.
\makeatletter
\def\ScaleWidthIfNeeded{%
 \ifdim\Gin@nat@width>\linewidth
    \linewidth
  \else
    \Gin@nat@width
  \fi
}
\def\ScaleHeightIfNeeded{%
  \ifdim\Gin@nat@height>0.9\textheight
    0.9\textheight
  \else
    \Gin@nat@width
  \fi
}
\makeatother

\setkeys{Gin}{width=\ScaleWidthIfNeeded,height=\ScaleHeightIfNeeded,keepaspectratio}
"#;

pub const IMAGE_WITH_TEXT: &'static str = r#"
\newsavebox\imagebox
\newcommand*{\imagewithtext}[3][]{%
  \sbox\imagebox{\includegraphics[{#1}]{#2}}%
  \usebox\imagebox
  \llap{%
    \resizebox{\wd\imagebox}{\height}{%
      \texttransparent{0}{#3}%
    }%
  }%
}
"#;

pub const SCALE_TIKZ_PICTURE_TO_WIDTH: &'static str = r#"
\makeatletter
\newsavebox{\measure@tikzpicture}
\NewEnviron{scaletikzpicturetowidth}[1]{%
  \def\tikz@width{#1}%
  \def\tikzscale{1}\begin{lrbox}{\measure@tikzpicture}%
  \BODY
  \end{lrbox}%
  \pgfmathparse{#1/\wd\measure@tikzpicture}%
  \edef\tikzscale{\pgfmathresult}%
  \BODY
}
\makeatother
"#;

pub const THESIS_COVER: &'static str = r#"
\begin{titlepage}
  % HACK for two-sided documents: ignore binding correction for cover page.
  % Adapted from Markus Kohm's KOMA-Script titlepage=firstiscover handling.
  % See http://mirrors.ctan.org/macros/latex/contrib/koma-script/scrkernel-title.dtx,
  % \maketitle macro.
  \oddsidemargin=\evensidemargin\relax
  \textwidth=\dimexpr\paperwidth-2\evensidemargin-2in\relax
  \hsize=\textwidth\relax

  \centering

  \ifempty{\getLogoUniversity}
    \vspace*{20mm}
  \else
    \includegraphics[height=20mm]{\getLogoUniversity}
  \fi

  \vspace{5mm}
  {\huge\MakeUppercase{\getFaculty{}}}\\

  \vspace{5mm}
  {\large\MakeUppercase{\getUniversity{}}}\\

  \vspace{20mm}
  {\Large \getThesisType{}}

  \vspace{15mm}
  {\huge\bfseries \getTitle{}}

  \vspace{15mm}
  {\LARGE \getAuthor{}}

  \ifempty{\getLogoFaculty}
  \else
    \vspace{20mm}
    \includegraphics[height=20mm]{\getLogoFaculty}
  \fi
\end{titlepage}
"#;

pub const THESIS_TITLE: &'static str = r#"
\begin{titlepage}
  \centering

  \ifempty{\getLogoUniversity}
    \vspace*{20mm}
  \else
    \includegraphics[height=20mm]{\getLogoUniversity}
  \fi

  \vspace{5mm}
  {\huge\MakeUppercase{\getFaculty{}}}\\

  \vspace{5mm}
  {\large\MakeUppercase{\getUniversity{}}}\\

  \vspace{20mm}
  {\Large \getThesisType{}}

  \vspace{15mm}
  {\huge\bfseries \getTitle{}}

  \vspace{5mm}
  {\huge\bfseries \getSubtitle{}}

  \vspace{15mm}
  \begin{tabular}{l l}
    Author: & \getAuthor{} \\
    Supervisor: & \getSupervisor{} \\
    Advisor: & \getAdvisor{} \\
    Submission Date: & \getDate{} \\
  \end{tabular}

  \ifempty{\getLogoFaculty}
    \vspace{20mm}
  \else
    \includegraphics[height=20mm]{\getLogoFaculty}
  \fi
\end{titlepage}
"#;

pub const THESIS_DISCLAIMER: &'static str = r#"
\thispagestyle{empty}
\vspace*{0.75\textheight}
\noindent
\getDisclaimer

\vspace{15mm}
\noindent
\getLocation{}, \getDate{} \hspace{50mm} \getAuthor{}
"#;

pub const REPORT_COVER: &'static str = r#"
\begin{titlepage}
  % HACK for two-sided documents: ignore binding correction for cover page.
  % Adapted from Markus Kohm's KOMA-Script titlepage=firstiscover handling.
  % See http://mirrors.ctan.org/macros/latex/contrib/koma-script/scrkernel-title.dtx,
  % \maketitle macro.
  \oddsidemargin=\evensidemargin\relax
  \textwidth=\dimexpr\paperwidth-2\evensidemargin-2in\relax
  \hsize=\textwidth\relax

  \centering

  \ifempty{\getLogoUniversity}
    \vspace*{20mm}
  \else
    \includegraphics[height=20mm]{\getLogoUniversity}
  \fi

  \vspace{5mm}
  \ifempty{\getFaculty}
    \vspace*{1em}
  \else
    {\huge\MakeUppercase{\getFaculty}}\\
  \fi

  \vspace{5mm}
  {\large\MakeUppercase{\getUniversity}}\\

  \vspace{15mm}
  {\huge\bfseries \getTitle{}}

  \vspace{5mm}
  \ifempty{\getSubtitle}
    {\huge\vspace{1em}}
  \else
    {\huge\bfseries \getSubtitle{}}
  \fi

  \vspace{15mm}
  {\LARGE \getAuthor{}}

  \ifempty{\getLogoFaculty}
    \vspace{20mm}
  \else
    \includegraphics[height=20mm]{\getLogoFaculty}
  \fi
\end{titlepage}
"#;

pub const TABULARX: &'static str = r#"
\newcolumntype{L}{>{\raggedright\let\newline\\\arraybackslash\hspace{0pt}}X}
\newcolumntype{C}{>{\centering\let\newline\\\arraybackslash\hspace{0pt}}X}
\newcolumntype{R}{>{\raggedleft\let\newline\\\arraybackslash\hspace{0pt}}X}
\renewcommand\tabularxcolumn[1]{m{#1}}
"#;

fn put(out: &mut String, t: &str)
    ensures
        final(out)@ == old(out)@ + t@,
{
    push_str(out, t);
}

/// The English name of the language with ISO 639-3 code `code`, if there is one.
pub uninterp spec fn iso_english_name(code: Seq<char>) -> Option<Seq<char>>;

/// `isolang::Language::from_639_3` and `Language::to_name`.
///
/// Trusted: the contract claims only that the result is named by `iso_english_name`; the
/// table of names is not stated.
#[verifier::external_body]
fn english_name(code: &str) -> (r: Option<String>)
    ensures
        opt_view(r) == iso_english_name(code@),
{
    match isolang::Language::from_639_3(code) {
        Some(l) => Some(l.to_name().to_string()),
        None => None,
    }
}

/// The babel name of a language: `ngerman` for German, else its English name in ASCII
/// lowercase; `None` for a code that names no language.
pub open spec fn babel_name(code: Seq<char>) -> Option<Seq<char>> {
    if code == "deu"@ {
        Some("ngerman"@)
    } else {
        match iso_english_name(code) {
            Some(n) => Some(ascii_lower_seq(n)),
            None => None,
        }
    }
}

pub fn babel_language(code: &str) -> (r: Option<String>)
    ensures
        opt_view(r) == babel_name(code@),
{
    if crate::text::str_eq(code, "deu") {
        return Some("ngerman".to_owned());
    }
    match english_name(code) {
        Some(mut n) => {
            crate::ext::CowExt::make_ascii_lowercase_inplace(&mut n);
            Some(n)
        },
        None => None,
    }
}

/// `t,` for each text of `v`.
pub open spec fn comma_list(v: Seq<String>) -> Seq<char>
    decreases v.len(),
{
    if v.len() == 0 {
        Seq::empty()
    } else {
        comma_list(v.drop_last()) + v.last()@ + ","@
    }
}

/// `t\n` for each text of `v`.
pub open spec fn line_list(v: Seq<String>) -> Seq<char>
    decreases v.len(),
{
    if v.len() == 0 {
        Seq::empty()
    } else {
        line_list(v.drop_last()) + v.last()@ + "\n"@
    }
}

fn put_comma_list(out: &mut String, v: &Vec<String>)
    ensures
        final(out)@ == old(out)@ + comma_list(v@),
{
    let ghost o = out@;
    let mut i: usize = 0;
    assert(v@.take(0) =~= Seq::<String>::empty());
    while i < v.len()
        invariant
            i <= v@.len(),
            out@ == o + comma_list(v@.take(i as int)),
        decreases v@.len() - i,
    {
        put(out, v[i].as_str());
        put(out, ",");
        proof {
            assert(v@.take(i + 1).drop_last() =~= v@.take(i as int));
        }
        i = i + 1;
    }
    assert(v@.take(i as int) =~= v@);
}

fn put_line_list(out: &mut String, v: &Vec<String>)
    ensures
        final(out)@ == old(out)@ + line_list(v@),
{
    let ghost o = out@;
    let mut i: usize = 0;
    assert(v@.take(0) =~= Seq::<String>::empty());
    while i < v.len()
        invariant
            i <= v@.len(),
            out@ == o + line_list(v@.take(i as int)),
        decreases v@.len() - i,
    {
        put(out, v[i].as_str());
        put(out, "\n");
        proof {
            assert(v@.take(i + 1).drop_last() =~= v@.take(i as int));
        }
        i = i + 1;
    }
    assert(v@.take(i as int) =~= v@);
}

/// The document class with its options: font size, the given options, titlepage, and
/// the configured class options.
pub open spec fn documentclass_text(cfg: Config, class: Seq<char>, options: Seq<char>) -> Seq<char> {
    "\\documentclass["@ + cfg.fontsize@ + ","@ + options + (if cfg.titlepage {
        "titlepage,"@
    } else {
        "notitlepage,"@
    }) + comma_list(cfg.classoptions@) + "]{"@ + class + "}\n"@ + "\n"@
}

/// Writes the documentclass header of latex documents with the given class and options.
pub fn write_documentclass(cfg: &Config, class: &str, options: &str) -> (r: String)
    ensures
        r@ == documentclass_text(*cfg, class@, options@),
{
    let mut out = String::new();
    put(&mut out, "\\documentclass[");
    put(&mut out, cfg.fontsize.as_str());
    put(&mut out, ",");
    put(&mut out, options);
    if cfg.titlepage {
        put(&mut out, "titlepage,");
    } else {
        put(&mut out, "notitlepage,");
    }
    put_comma_list(&mut out, &cfg.classoptions);
    put(&mut out, "]{");
    put(&mut out, class);
    put(&mut out, "}\n");
    put(&mut out, "\n");
    assert(out@ =~= documentclass_text(*cfg, class@, options@));
    out
}

/// Packages loaded before the language.
pub open spec fn packages_head() -> Seq<char> {
    "\\usepackage[utf8]{inputenc}\n\\usepackage[T1]{fontenc}\n\\usepackage[sc]{mathpazo}\n"@
}

/// Packages loaded after the bibliography.
pub open spec fn packages_tail() -> Seq<char> {
    "\\usepackage{cmap}\n\\usepackage{float}\n\\usepackage{listings}\n\\usepackage[usenames, dvipsnames]{color}\n\\usepackage{xcolor}\n\\usepackage{pdfpages}\n\\usepackage{environ}\n\\usepackage{amssymb}\n\\usepackage{amsmath}\n\\usepackage{stmaryrd}\n\\usepackage[gen]{eurosym}\n\\usepackage[normalem]{ulem}\n\\usepackage{graphicx}\n\\usepackage{transparent}\n\\usepackage[final]{microtype}\n\\usepackage[pdfusetitle]{hyperref}\n\\usepackage{caption}\n\\usepackage{cleveref}\n\\usepackage{refcount}\n\\usepackage[titletoc,toc,title]{appendix}\n\\usepackage{array}\n\\usepackage{pdfcomment}\n\\usepackage{tabularx}\n\\usepackage{grffile}\n\n"@
}

/// The packages of a document: encodings and fonts, babel with the document's language,
/// quotes, the geometry, biblatex where there is a bibliography, and the others.
pub open spec fn packages_text(cfg: Config, babel: Seq<char>) -> Seq<char> {
    packages_head() + "\\usepackage["@ + babel + "]{babel}\n"@ + "\\usepackage{csquotes}\n"@
        + "\\usepackage["@ + crate::geometry::geometry_text(cfg.geometry) + "]{geometry}\n"@ + "\n"@
        + match cfg.bibliography {
        Some(b) => "\\usepackage[backend=biber,citestyle="@ + crate::config::citation_text(cfg.citestyle)
            + ",bibstyle="@ + crate::config::citation_text(cfg.bibstyle) + "]{biblatex}\n"@
            + "\\addbibresource{"@ + b@ + "}\n"@,
        None => Seq::empty(),
    } + packages_tail()
}

/// Writes required usepackage statements; `None` where the configured language is unknown.
pub fn write_packages(cfg: &Config) -> (r: Option<String>)
    ensures
        match babel_name(cfg.lang@) {
            Some(b) => r matches Some(s) && s@ == packages_text(*cfg, b),
            None => r is None,
        },
{
    let babel = match babel_language(cfg.lang.as_str()) {
        Some(b) => b,
        None => return None,
    };
    let mut out = String::new();
    put(&mut out, "\\usepackage[utf8]{inputenc}\n\\usepackage[T1]{fontenc}\n\\usepackage[sc]{mathpazo}\n");
    put(&mut out, "\\usepackage[");
    put(&mut out, babel.as_str());
    put(&mut out, "]{babel}\n");
    put(&mut out, "\\usepackage{csquotes}\n");
    put(&mut out, "\\usepackage[");
    let g = cfg.geometry.write_latex_options();
    put(&mut out, g.as_str());
    put(&mut out, "]{geometry}\n");
    put(&mut out, "\n");
    match &cfg.bibliography {
        Some(b) => {
            put(&mut out, "\\usepackage[backend=biber,citestyle=");
            let c = cfg.citestyle.to_string();
            put(&mut out, c.as_str());
            put(&mut out, ",bibstyle=");
            let bs = cfg.bibstyle.to_string();
            put(&mut out, bs.as_str());
            put(&mut out, "]{biblatex}\n");
            put(&mut out, "\\addbibresource{");
            put(&mut out, b.as_str());
            put(&mut out, "}\n");
        },
        None => {},
    }
    put(&mut out, "\\usepackage{cmap}\n\\usepackage{float}\n\\usepackage{listings}\n\\usepackage[usenames, dvipsnames]{color}\n\\usepackage{xcolor}\n\\usepackage{pdfpages}\n\\usepackage{environ}\n\\usepackage{amssymb}\n\\usepackage{amsmath}\n\\usepackage{stmaryrd}\n\\usepackage[gen]{eurosym}\n\\usepackage[normalem]{ulem}\n\\usepackage{graphicx}\n\\usepackage{transparent}\n\\usepackage[final]{microtype}\n\\usepackage[pdfusetitle]{hyperref}\n\\usepackage{caption}\n\\usepackage{cleveref}\n\\usepackage{refcount}\n\\usepackage[titletoc,toc,title]{appendix}\n\\usepackage{array}\n\\usepackage{pdfcomment}\n\\usepackage{tabularx}\n\\usepackage{grffile}\n\n");
    assert(out@ =~= packages_text(*cfg, babel@));
    Some(out)
}

/// The fixed part of the fixes: paragraph layout, listings, and the commands the generated
/// code uses, each followed by a line break.
pub open spec fn fixes_head() -> Seq<char> {
    "\\setlength{\\parindent}{0pt}\n\\setlength{\\parskip}{1\\baselineskip plus 2pt minus 2pt}\n"@
        + LSTSET@ + "\n"@
        + LST_DEFINE_ASM@ + "\n"@
        + LST_DEFINE_RUST@ + "\n"@
        + LST_DEFINE_JS@ + "\n"@
        + THICKHLINE@ + "\n"@
        + AQUOTE@ + "\n"@
        + FIX_INCLUDEGRAPHICS@ + "\n"@
        + IMAGE_WITH_TEXT@ + "\n"@
        + SCALE_TIKZ_PICTURE_TO_WIDTH@ + "\n"@
        + TABULARX@ + "\n"@
}

/// Customized fixes, package configuration and commands used by the generated code, then
/// the configured header includes, one per line.
pub open spec fn fixes_text(cfg: Config) -> Seq<char> {
    fixes_head() + line_list(cfg.header_includes@)
}

/// Writes customized fixes of commands, configuration options of packages, custom commands
/// and similar, which are used by latex code generation.
pub fn write_fixes(cfg: &Config) -> (r: String)
    ensures
        r@ == fixes_text(*cfg),
{
    let mut out = String::new();
    put(&mut out, "\\setlength{\\parindent}{0pt}\n\\setlength{\\parskip}{1\\baselineskip plus 2pt minus 2pt}\n");
    put(&mut out, LSTSET);
    put(&mut out, "\n");
    put(&mut out, LST_DEFINE_ASM);
    put(&mut out, "\n");
    put(&mut out, LST_DEFINE_RUST);
    put(&mut out, "\n");
    put(&mut out, LST_DEFINE_JS);
    put(&mut out, "\n");
    put(&mut out, THICKHLINE);
    put(&mut out, "\n");
    put(&mut out, AQUOTE);
    put(&mut out, "\n");
    put(&mut out, FIX_INCLUDEGRAPHICS);
    put(&mut out, "\n");
    put(&mut out, IMAGE_WITH_TEXT);
    put(&mut out, "\n");
    put(&mut out, SCALE_TIKZ_PICTURE_TO_WIDTH);
    put(&mut out, "\n");
    put(&mut out, TABULARX);
    put(&mut out, "\n");
    assert(out@ =~= fixes_head());
    put_line_list(&mut out, &cfg.header_includes);
    out
}

/// `\name{value}` and a line break, where the value is given.
pub open spec fn opt_line(name: Seq<char>, v: Option<String>) -> Seq<char> {
    match v {
        Some(x) => name + "{"@ + x@ + "}\n"@,
        None => Seq::empty(),
    }
}

fn put_opt_line(out: &mut String, name: &str, v: &Option<String>)
    ensures
        final(out)@ == old(out)@ + opt_line(name@, *v),
{
    match v {
        Some(x) => {
            put(out, name);
            put(out, "{");
            put(out, x.as_str());
            put(out, "}\n");
        },
        None => {},
    }
}

/// Texts joined by `\\`.
pub open spec fn joined(parts: Seq<Seq<char>>) -> Seq<char>
    decreases parts.len(),
{
    if parts.len() == 0 {
        Seq::empty()
    } else if parts.len() == 1 {
        parts[0]
    } else {
        joined(parts.drop_last()) + "\\\\"@ + parts.last()
    }
}

/// The parts of an optional text.
pub open spec fn opt_part(prefix: Seq<char>, v: Option<String>, suffix: Seq<char>) -> Seq<Seq<char>> {
    match v {
        Some(x) => seq![prefix + x@ + suffix],
        None => Seq::empty(),
    }
}

/// The author block: short author, then author, supervisor and advisor joined by `\\`.
pub open spec fn author_text(cfg: Config) -> Seq<char> {
    if cfg.author is Some || cfg.supervisor is Some || cfg.advisor is Some {
        "\\author"@ + (match cfg.author {
            Some(a) => "["@ + a@ + "]"@,
            None => Seq::empty(),
        }) + "{"@ + joined(
            opt_part(Seq::empty(), cfg.author, Seq::empty()) + opt_part(
                "{\\footnotesize Supervisor: "@,
                cfg.supervisor,
                "}"@,
            ) + opt_part("{\\footnotesize Advisor: "@, cfg.advisor, "}"@),
        ) + "}\n"@
    } else {
        Seq::empty()
    }
}

/// The affiliation block: university and faculty joined by `\\`.
pub open spec fn affiliation_text(cfg: Config) -> Seq<char> {
    if cfg.university is Some || cfg.faculty is Some {
        "\\affiliation{"@ + joined(
            opt_part(Seq::empty(), cfg.university, Seq::empty()) + opt_part(
                Seq::empty(),
                cfg.faculty,
                Seq::empty(),
            ),
        ) + "}\n"@
    } else {
        Seq::empty()
    }
}

/// The variables of the LaTeX maketitle titlepage.
pub open spec fn maketitle_info_text(cfg: Config) -> Seq<char> {
    opt_line("\\title"@, cfg.title) + opt_line("\\subtitle"@, cfg.subtitle) + author_text(cfg)
        + opt_line("\\date"@, cfg.date) + opt_line("\\email"@, cfg.email) + affiliation_text(cfg)
        + opt_line("\\publishers"@, cfg.publisher) + "\n"@
}

/// Appends the parts joined by `\\`; `first` says whether nothing was joined yet.
fn join_part(out: &mut String, first: bool, part: &str) -> (r: bool)
    ensures
        final(out)@ == old(out)@ + (if first {
            Seq::empty()
        } else {
            "\\\\"@
        }) + part@,
        r == false,
{
    if !first {
        put(out, "\\\\");
    } else {
        assert(old(out)@ + Seq::<char>::empty() =~= old(out)@);
    }
    put(out, part);
    false
}

proof fn lemma_joined_push(parts: Seq<Seq<char>>, p: Seq<char>)
    ensures
        joined(parts.push(p)) == (if parts.len() == 0 {
            Seq::empty()
        } else {
            joined(parts) + "\\\\"@
        }) + p,
{
    assert(parts.push(p).drop_last() =~= parts);
    if parts.len() == 0 {
        assert(Seq::<char>::empty() + p =~= p);
    }
}

fn author_block(cfg: &Config) -> (r: String)
    ensures
        r@ == author_text(*cfg),
{
    let mut out = String::new();
    if cfg.author.is_some() || cfg.supervisor.is_some() || cfg.advisor.is_some() {
        put(&mut out, "\\author");
        match &cfg.author {
            Some(a) => {
                put(&mut out, "[");
                put(&mut out, a.as_str());
                put(&mut out, "]");
            },
            None => {},
        }
        put(&mut out, "{");
        let ghost head = out@;
        let ghost mut parts: Seq<Seq<char>> = Seq::empty();
        let mut first = true;
        match &cfg.author {
            Some(a) => {
                proof {
                    lemma_joined_push(parts, a@);
                    parts = parts.push(a@);
                }
                first = join_part(&mut out, first, a.as_str());
            },
            None => {},
        }
        assert(out@ == head + joined(parts));
        assert(first == (parts.len() == 0));
        match &cfg.supervisor {
            Some(s) => {
                let mut t = String::new();
                put(&mut t, "{\\footnotesize Supervisor: ");
                put(&mut t, s.as_str());
                put(&mut t, "}");
                proof {
                    lemma_joined_push(parts, t@);
                    parts = parts.push(t@);
                }
                first = join_part(&mut out, first, t.as_str());
            },
            None => {},
        }
        assert(out@ =~= head + joined(parts));
        match &cfg.advisor {
            Some(s) => {
                let mut t = String::new();
                put(&mut t, "{\\footnotesize Advisor: ");
                put(&mut t, s.as_str());
                put(&mut t, "}");
                proof {
                    lemma_joined_push(parts, t@);
                    parts = parts.push(t@);
                }
                first = join_part(&mut out, first, t.as_str());
            },
            None => {},
        }
        assert(out@ =~= head + joined(parts));
        put(&mut out, "}\n");
        proof {
            let expected = opt_part(Seq::empty(), cfg.author, Seq::empty()) + opt_part(
                "{\\footnotesize Supervisor: "@,
                cfg.supervisor,
                "}"@,
            ) + opt_part("{\\footnotesize Advisor: "@, cfg.advisor, "}"@);
            assert(parts =~= expected);
        }
    }
    assert(out@ =~= author_text(*cfg));
    out
}

fn affiliation_block(cfg: &Config) -> (r: String)
    ensures
        r@ == affiliation_text(*cfg),
{
    let mut out = String::new();
    if cfg.university.is_some() || cfg.faculty.is_some() {
        put(&mut out, "\\affiliation{");
        let ghost head = out@;
        let ghost mut parts: Seq<Seq<char>> = Seq::empty();
        let mut first = true;
        match &cfg.university {
            Some(u) => {
                proof {
                    lemma_joined_push(parts, u@);
                    parts = parts.push(u@);
                }
                first = join_part(&mut out, first, u.as_str());
            },
            None => {},
        }
        assert(out@ =~= head + joined(parts));
        match &cfg.faculty {
            Some(f) => {
                proof {
                    lemma_joined_push(parts, f@);
                    parts = parts.push(f@);
                }
                first = join_part(&mut out, first, f.as_str());
            },
            None => {},
        }
        assert(out@ =~= head + joined(parts));
        put(&mut out, "}\n");
        proof {
            let expected = opt_part(Seq::empty(), cfg.university, Seq::empty()) + opt_part(
                Seq::empty(),
                cfg.faculty,
                Seq::empty(),
            );
            assert(parts =~= expected);
        }
    }
    assert(out@ =~= affiliation_text(*cfg));
    out
}

/// Sets up variables for the latex maketitle titlepage.
///
/// It doesn't write the titlepage itself, that is left to the caller.
pub fn write_maketitle_info(cfg: &Config) -> (r: String)
    ensures
        r@ == maketitle_info_text(*cfg),
{
    let mut out = String::new();
    put_opt_line(&mut out, "\\title", &cfg.title);
    put_opt_line(&mut out, "\\subtitle", &cfg.subtitle);
    let a = author_block(cfg);
    put(&mut out, a.as_str());
    put_opt_line(&mut out, "\\date", &cfg.date);
    put_opt_line(&mut out, "\\email", &cfg.email);
    let f = affiliation_block(cfg);
    put(&mut out, f.as_str());
    put_opt_line(&mut out, "\\publishers", &cfg.publisher);
    put(&mut out, "\n");
    assert(out@ =~= maketitle_info_text(*cfg));
    out
}

/// `\newcommand*{\name}{value}` and a line break; the value is empty where it is not given.
pub open spec fn command_line(name: Seq<char>, v: Option<String>) -> Seq<char> {
    "\\newcommand*{"@ + name + "}{"@ + match v {
        Some(x) => x@,
        None => Seq::empty(),
    } + "}\n"@
}

fn put_command_line(out: &mut String, name: &str, v: &Option<String>)
    ensures
        final(out)@ == old(out)@ + command_line(name@, *v),
{
    put(out, "\\newcommand*{");
    put(out, name);
    put(out, "}{");
    match v {
        Some(x) => put(out, x.as_str()),
        None => {
            assert(out@ =~= out@ + Seq::<char>::empty());
        },
    }
    put(out, "}\n");
}

/// The commands a manual titlepage template uses.
pub open spec fn titlepage_commands_text(cfg: Config) -> Seq<char> {
    "\\def \\ifempty#1{\\ifx\\empty#1}\n"@ + command_line("\\getTitle"@, cfg.title) + command_line(
        "\\getSubtitle"@,
        cfg.subtitle,
    ) + command_line("\\getAuthor"@, cfg.author) + command_line("\\getEmail"@, cfg.email)
        + command_line("\\getDate"@, cfg.date) + command_line("\\getSupervisor"@, cfg.supervisor)
        + command_line("\\getAdvisor"@, cfg.advisor) + command_line(
        "\\getLogoUniversity"@,
        cfg.logo_university,
    ) + command_line("\\getLogoFaculty"@, cfg.logo_faculty) + command_line(
        "\\getUniversity"@,
        cfg.university,
    ) + command_line("\\getFaculty"@, cfg.faculty) + command_line("\\getThesisType"@, cfg.thesis_type)
        + command_line("\\getLocation"@, cfg.location)
}

/// If using a manual titlepage template, like Thesis, this command defines latex commands
/// to be used within that template.
pub fn write_manual_titlepage_commands(cfg: &Config) -> (r: String)
    ensures
        r@ == titlepage_commands_text(*cfg),
{
    let mut out = String::new();
    put(&mut out, "\\def \\ifempty#1{\\ifx\\empty#1}\n");
    put_command_line(&mut out, "\\getTitle", &cfg.title);
    put_command_line(&mut out, "\\getSubtitle", &cfg.subtitle);
    put_command_line(&mut out, "\\getAuthor", &cfg.author);
    put_command_line(&mut out, "\\getEmail", &cfg.email);
    put_command_line(&mut out, "\\getDate", &cfg.date);
    put_command_line(&mut out, "\\getSupervisor", &cfg.supervisor);
    put_command_line(&mut out, "\\getAdvisor", &cfg.advisor);
    put_command_line(&mut out, "\\getLogoUniversity", &cfg.logo_university);
    put_command_line(&mut out, "\\getLogoFaculty", &cfg.logo_faculty);
    put_command_line(&mut out, "\\getUniversity", &cfg.university);
    put_command_line(&mut out, "\\getFaculty", &cfg.faculty);
    put_command_line(&mut out, "\\getThesisType", &cfg.thesis_type);
    put_command_line(&mut out, "\\getLocation", &cfg.location);
    assert(out@ =~= titlepage_commands_text(*cfg));
    out
}

} // verus!

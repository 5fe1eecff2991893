//! The kinds of documents: what each writes before and after the body.
use vstd::prelude::*;

use crate::beamer::{close_all, Beamer};
use crate::config::Config;
use crate::preamble::{
    documentclass_text, fixes_text, joined, maketitle_info_text, opt_line, opt_part, packages_text,
    titlepage_commands_text, babel_name, write_documentclass, write_fixes, write_maketitle_info,
    write_manual_titlepage_commands, write_packages, REPORT_COVER, THESIS_COVER, THESIS_DISCLAIMER,
    THESIS_TITLE,
};
use crate::text::push_str;

verus! {

fn put(out: &mut String, t: &str)
    ensures
        final(out)@ == old(out)@ + t@,
{
    push_str(out, t);
}

/// The publishers line: the publisher, supervisor and advisor joined by `\\`; nothing
/// where none of them is given.
pub open spec fn publishers_text(cfg: Config) -> Seq<char> {
    if cfg.publisher is None && cfg.supervisor is None && cfg.advisor is None {
        Seq::empty()
    } else {
        "\\publishers{"@ + joined(
            opt_part(Seq::empty(), cfg.publisher, Seq::empty()) + opt_part(
                "Supervisor: "@,
                cfg.supervisor,
                Seq::empty(),
            ) + opt_part("Advisor: "@, cfg.advisor, Seq::empty()),
        ) + "}\n"@
    }
}

fn publishers(cfg: &Config) -> (r: String)
    ensures
        r@ == publishers_text(*cfg),
{
    let mut out = String::new();
    if cfg.publisher.is_none() && cfg.supervisor.is_none() && cfg.advisor.is_none() {
        assert(out@ =~= publishers_text(*cfg));
        return out;
    }
    let mut parts: Vec<String> = Vec::new();
    match &cfg.publisher {
        Some(p) => parts.push(p.clone()),
        None => {},
    }
    match &cfg.supervisor {
        Some(s) => {
            let mut t = String::new();
            put(&mut t, "Supervisor: ");
            put(&mut t, s.as_str());
            parts.push(t);
        },
        None => {},
    }
    match &cfg.advisor {
        Some(a) => {
            let mut t = String::new();
            put(&mut t, "Advisor: ");
            put(&mut t, a.as_str());
            parts.push(t);
        },
        None => {},
    }
    let ghost pv = Seq::new(parts@.len(), |i: int| parts@[i]@);
    proof {
        let expected = opt_part(Seq::empty(), cfg.publisher, Seq::empty()) + opt_part(
            "Supervisor: "@,
            cfg.supervisor,
            Seq::empty(),
        ) + opt_part("Advisor: "@, cfg.advisor, Seq::empty());
        assert(pv =~= expected);
    }
    put(&mut out, "\\publishers{");
    let ghost head = out@;
    let mut i: usize = 0;
    assert(pv.take(0) =~= Seq::<Seq<char>>::empty());
    while i < parts.len()
        invariant
            i <= parts@.len(),
            pv == Seq::new(parts@.len(), |i: int| parts@[i]@),
            out@ == head + joined(pv.take(i as int)),
        decreases parts@.len() - i,
    {
        proof {
            assert(pv.take(i + 1) =~= pv.take(i as int).push(parts@[i as int]@));
            assert(pv.take(i + 1).drop_last() =~= pv.take(i as int));
        }
        if i > 0 {
            put(&mut out, "\\\\");
        } else {
            assert(out@ =~= head + Seq::<char>::empty());
        }
        put(&mut out, parts[i].as_str());
        proof {
            if i == 0 {
                assert(joined(pv.take(1)) == pv.take(1)[0]);
            }
        }
        i = i + 1;
    }
    assert(pv.take(i as int) =~= pv);
    put(&mut out, "}\n");
    out
}

/// The common head of a document: class, packages, fixes and the start of the document.
pub open spec fn head_text(cfg: Config, class: Seq<char>, options: Seq<char>, babel: Seq<char>) -> Seq<char> {
    documentclass_text(cfg, class, options) + packages_text(cfg, babel) + fixes_text(cfg)
}

fn head(cfg: &Config, class: &str, options: &str) -> (r: Option<String>)
    ensures
        match babel_name(cfg.lang@) {
            Some(b) => r matches Some(s) && s@ == head_text(*cfg, class@, options@, b),
            None => r is None,
        },
{
    let mut out = write_documentclass(cfg, class, options);
    let p = match write_packages(cfg) {
        Some(p) => p,
        None => return None,
    };
    put(&mut out, p.as_str());
    let f = write_fixes(cfg);
    put(&mut out, f.as_str());
    Some(out)
}

/// The title information an article or report sets itself.
pub open spec fn simple_title_text(cfg: Config) -> Seq<char> {
    opt_line("\\title"@, cfg.title) + opt_line("\\subtitle"@, cfg.subtitle) + opt_line(
        "\\author"@,
        cfg.author,
    ) + opt_line("\\date"@, cfg.date) + publishers_text(cfg)
}

fn put_opt(out: &mut String, name: &str, v: &Option<String>)
    ensures
        final(out)@ == old(out)@ + opt_line(name@, *v),
{
    match v {
        Some(x) => {
            put(out, name);
            put(out, "{");
            put(out, x.as_str());
            put(out, "}\n");
        },
        None => {},
    }
}

fn simple_title(cfg: &Config) -> (r: String)
    ensures
        r@ == simple_title_text(*cfg),
{
    let mut out = String::new();
    put_opt(&mut out, "\\title", &cfg.title);
    put_opt(&mut out, "\\subtitle", &cfg.subtitle);
    put_opt(&mut out, "\\author", &cfg.author);
    put_opt(&mut out, "\\date", &cfg.date);
    let p = publishers(cfg);
    put(&mut out, p.as_str());
    assert(out@ =~= simple_title_text(*cfg));
    out
}

/// The end of every document.
pub open spec fn epilogue_text() -> Seq<char> {
    "\\end{document}\n"@
}

fn epilogue() -> (r: String)
    ensures
        r@ == epilogue_text(),
{
    "\\end{document}\n".to_owned()
}

/// A KOMA-Script article.
#[derive(Debug)]
pub struct Article;

/// The preamble of an article.
pub open spec fn article_preamble_text(cfg: Config, babel: Seq<char>) -> Seq<char> {
    head_text(cfg, "scrartcl"@, ""@, babel) + "\n"@ + "\\begin{document}\n"@ + "\n"@ + simple_title_text(
        cfg,
    ) + (if cfg.title is Some {
        "\\maketitle\n"@
    } else {
        Seq::empty()
    }) + "\n"@
}

impl Article {
    /// The preamble; `None` where the configured language is unknown.
    pub fn gen_preamble(cfg: &Config) -> (r: Option<String>)
        ensures
            match babel_name(cfg.lang@) {
                Some(b) => r matches Some(s) && s@ == article_preamble_text(*cfg, b),
                None => r is None,
            },
    {
        let mut out = match head(cfg, "scrartcl", "") {
            Some(h) => h,
            None => return None,
        };
        put(&mut out, "\n");
        put(&mut out, "\\begin{document}\n");
        put(&mut out, "\n");
        let t = simple_title(cfg);
        put(&mut out, t.as_str());
        if cfg.title.is_some() {
            put(&mut out, "\\maketitle\n");
        }
        put(&mut out, "\n");
        Some(out)
    }

    pub fn gen_epilogue() -> (r: String)
        ensures
            r@ == epilogue_text(),
    {
        epilogue()
    }
}

/// A KOMA-Script report.
#[derive(Debug)]
pub struct Report;

/// The preamble of a report.
pub open spec fn report_preamble_text(cfg: Config, babel: Seq<char>) -> Seq<char> {
    head_text(cfg, "scrreprt"@, ""@, babel) + "\n"@ + "\\def \\ifempty#1{\\ifx\\empty#1}\n"@ + "\n"@
        + "\\begin{document}\n"@ + "\n"@ + simple_title_text(cfg) + REPORT_COVER@ + "\n"@ + "\n"@
}

impl Report {
    /// The preamble; `None` where the configured language is unknown.
    pub fn gen_preamble(cfg: &Config) -> (r: Option<String>)
        ensures
            match babel_name(cfg.lang@) {
                Some(b) => r matches Some(s) && s@ == report_preamble_text(*cfg, b),
                None => r is None,
            },
    {
        let mut out = match head(cfg, "scrreprt", "") {
            Some(h) => h,
            None => return None,
        };
        put(&mut out, "\n");
        put(&mut out, "\\def \\ifempty#1{\\ifx\\empty#1}\n");
        put(&mut out, "\n");
        put(&mut out, "\\begin{document}\n");
        put(&mut out, "\n");
        let t = simple_title(cfg);
        put(&mut out, t.as_str());
        put(&mut out, REPORT_COVER);
        put(&mut out, "\n");
        put(&mut out, "\n");
        Some(out)
    }

    pub fn gen_epilogue() -> (r: String)
        ensures
            r@ == epilogue_text(),
    {
        epilogue()
    }
}

/// A thesis (KOMA-Script book).
#[derive(Debug)]
pub struct Thesis;

pub open spec fn thesis_options() -> Seq<char> {
    "headsepline,footsepline,BCOR=12mm,DIV=12,"@
}

/// The preamble of a thesis up to its abstracts.
pub open spec fn thesis_preamble_text(cfg: Config, babel: Seq<char>) -> Seq<char> {
    head_text(cfg, "scrbook"@, thesis_options(), babel) + "\n"@ + "\\begin{document}\n"@ + "\n"@
        + titlepage_commands_text(cfg) + "\\pagenumbering{alph}\n"@ + THESIS_COVER@ + "\n"@
        + "\\frontmatter{}\n"@ + THESIS_TITLE@ + "\n"@ + (match cfg.disclaimer {
        Some(d) => "\\newcommand*{\\getDisclaimer}{"@ + d@ + "}\n"@ + THESIS_DISCLAIMER@ + "\n"@,
        None => Seq::empty(),
    }) + "\\cleardoublepage{}\n"@
}

/// The preamble of a thesis after its abstracts: the table of contents and the start of
/// the main matter.
pub open spec fn thesis_after_abstracts_text() -> Seq<char> {
    "\n"@ + "\\microtypesetup{protrusion=false}\n"@ + "\\tableofcontents{}\n"@
        + "\\microtypesetup{protrusion=true}\n"@ + "\n"@ + "\\mainmatter{}\n"@
}

impl Thesis {
    /// The preamble up to the abstracts (which are generated from their own markdown
    /// files); `None` where the configured language is unknown.
    pub fn gen_preamble(cfg: &Config) -> (r: Option<String>)
        ensures
            match babel_name(cfg.lang@) {
                Some(b) => r matches Some(s) && s@ == thesis_preamble_text(*cfg, b),
                None => r is None,
            },
    {
        let mut out = match head(cfg, "scrbook", "headsepline,footsepline,BCOR=12mm,DIV=12,") {
            Some(h) => h,
            None => return None,
        };
        put(&mut out, "\n");
        put(&mut out, "\\begin{document}\n");
        put(&mut out, "\n");
        let c = write_manual_titlepage_commands(cfg);
        put(&mut out, c.as_str());
        put(&mut out, "\\pagenumbering{alph}\n");
        put(&mut out, THESIS_COVER);
        put(&mut out, "\n");
        put(&mut out, "\\frontmatter{}\n");
        put(&mut out, THESIS_TITLE);
        put(&mut out, "\n");
        let ghost before = out@;
        match &cfg.disclaimer {
            Some(d) => {
                put(&mut out, "\\newcommand*{\\getDisclaimer}{");
                put(&mut out, d.as_str());
                put(&mut out, "}\n");
                put(&mut out, THESIS_DISCLAIMER);
                put(&mut out, "\n");
            },
            None => {},
        }
        assert(out@ =~= before + (match cfg.disclaimer {
            Some(d) => "\\newcommand*{\\getDisclaimer}{"@ + d@ + "}\n"@ + THESIS_DISCLAIMER@ + "\n"@,
            None => Seq::empty(),
        }));
        put(&mut out, "\\cleardoublepage{}\n");
        Some(out)
    }

    /// The preamble after the abstracts.
    pub fn gen_preamble_after_abstracts() -> (r: String)
        ensures
            r@ == thesis_after_abstracts_text(),
    {
        let mut out = String::new();
        put(&mut out, "\n");
        put(&mut out, "\\microtypesetup{protrusion=false}\n");
        put(&mut out, "\\tableofcontents{}\n");
        put(&mut out, "\\microtypesetup{protrusion=true}\n");
        put(&mut out, "\n");
        put(&mut out, "\\mainmatter{}\n");
        assert(out@ =~= thesis_after_abstracts_text());
        out
    }

    pub fn gen_epilogue() -> (r: String)
        ensures
            r@ == epilogue_text(),
    {
        epilogue()
    }
}

/// An ACM article.
#[derive(Debug)]
pub struct AcmArticle;

pub open spec fn acm_options() -> Seq<char> {
    "nonacm,sigconf,natbib=false,pdfusetitle,"@
}

pub open spec fn acm_pass_options() -> Seq<char> {
    "\\PassOptionsToPackage{usenames,dvipsnames}{color}\n"@
        + "\\PassOptionsToPackage{pdfusetitle}{hyperref}\n"@ + "\\PassOptionsToPackage{final}{microtype}\n"@
}

/// The preamble of an ACM article up to its abstract.
pub open spec fn acm_preamble_text(cfg: Config, babel: Seq<char>) -> Seq<char> {
    acm_pass_options() + head_text(cfg, "acmart"@, acm_options(), babel)
}

/// The preamble of an ACM article after its abstract: the start of the document and the
/// title, where there is one.
pub open spec fn acm_after_abstract_text(cfg: Config) -> Seq<char> {
    "\n"@ + "\\begin{document}\n"@ + "\n"@ + if cfg.title is Some {
        maketitle_info_text(cfg) + "\\maketitle\n"@
    } else {
        Seq::empty()
    }
}

impl AcmArticle {
    /// The preamble up to the abstract (which is generated from its own markdown file);
    /// `None` where the configured language is unknown.
    pub fn gen_preamble(cfg: &Config) -> (r: Option<String>)
        ensures
            match babel_name(cfg.lang@) {
                Some(b) => r matches Some(s) && s@ == acm_preamble_text(*cfg, b),
                None => r is None,
            },
    {
        let mut out = String::new();
        put(&mut out, "\\PassOptionsToPackage{usenames,dvipsnames}{color}\n");
        put(&mut out, "\\PassOptionsToPackage{pdfusetitle}{hyperref}\n");
        put(&mut out, "\\PassOptionsToPackage{final}{microtype}\n");
        let h = match head(cfg, "acmart", "nonacm,sigconf,natbib=false,pdfusetitle,") {
            Some(h) => h,
            None => return None,
        };
        put(&mut out, h.as_str());
        assert(out@ =~= acm_preamble_text(*cfg, babel_name(cfg.lang@)->0));
        Some(out)
    }

    /// The preamble after the abstract.
    pub fn gen_preamble_after_abstract(cfg: &Config) -> (r: String)
        ensures
            r@ == acm_after_abstract_text(*cfg),
    {
        let mut out = String::new();
        put(&mut out, "\n");
        put(&mut out, "\\begin{document}\n");
        put(&mut out, "\n");
        if cfg.title.is_some() {
            let m = write_maketitle_info(cfg);
            put(&mut out, m.as_str());
            put(&mut out, "\\maketitle\n");
        }
        assert(out@ =~= acm_after_abstract_text(*cfg));
        out
    }

    pub fn gen_epilogue() -> (r: String)
        ensures
            r@ == epilogue_text(),
    {
        epilogue()
    }
}

pub open spec fn beamer_options() -> Seq<char> {
    "color={usenames,dvipsnames},xcolor={usenames,dvipsnames},hyperref={pdfusetitle},"@
}

/// The preamble of a presentation.
pub open spec fn beamer_preamble_text(cfg: Config, babel: Seq<char>) -> Seq<char> {
    documentclass_text(cfg, "beamer"@, beamer_options()) + "\\usetheme{"@ + cfg.beamertheme@ + "}\n"@
        + "\n"@ + packages_text(cfg, babel) + fixes_text(cfg) + "\n"@ + "\\begin{document}\n"@ + "\n"@
        + "\\pagenumbering{alph}\n"@ + "\n"@ + if cfg.titlepage {
        maketitle_info_text(cfg) + titlepage_commands_text(cfg) + "\\frame{\\titlepage}\n"@
    } else {
        Seq::empty()
    }
}

impl Beamer {
    /// The preamble; `None` where the configured language is unknown.
    pub fn gen_preamble(cfg: &Config) -> (r: Option<String>)
        ensures
            match babel_name(cfg.lang@) {
                Some(b) => r matches Some(s) && s@ == beamer_preamble_text(*cfg, b),
                None => r is None,
            },
    {
        let mut out = write_documentclass(
            cfg,
            "beamer",
            "color={usenames,dvipsnames},xcolor={usenames,dvipsnames},hyperref={pdfusetitle},",
        );
        put(&mut out, "\\usetheme{");
        put(&mut out, cfg.beamertheme.as_str());
        put(&mut out, "}\n");
        put(&mut out, "\n");
        let p = match write_packages(cfg) {
            Some(p) => p,
            None => return None,
        };
        put(&mut out, p.as_str());
        let f = write_fixes(cfg);
        put(&mut out, f.as_str());
        put(&mut out, "\n");
        put(&mut out, "\\begin{document}\n");
        put(&mut out, "\n");
        put(&mut out, "\\pagenumbering{alph}\n");
        put(&mut out, "\n");
        if cfg.titlepage {
            let m = write_maketitle_info(cfg);
            put(&mut out, m.as_str());
            let c = write_manual_titlepage_commands(cfg);
            put(&mut out, c.as_str());
            put(&mut out, "\\frame{\\titlepage}\n");
        }
        assert(out@ =~= beamer_preamble_text(*cfg, babel_name(cfg.lang@)->0));
        Some(out)
    }

    /// The end of a presentation: every frame closed, then the end of the document.
    pub fn gen_epilogue(&mut self) -> (r: String)
        requires
            old(self).wf(),
        ensures
            final(self).wf(),
            final(self).depth() == 0,
            r@ == close_all(old(self).depth(), 1).1 + epilogue_text(),
    {
        proof {
            self.lemma_depth();
        }
        let mut out = match self.close_down(1) {
            Ok((_events, text)) => text,
            Err(_) => String::new(),
        };
        put(&mut out, "\\end{document}\n");
        out
    }
}

} // verus!

//! Configuration values: output kinds, document types, citation styles, and values that
//! may be unknown to the converter.
use vstd::prelude::*;

use crate::event::opt_view;
use crate::ext::str_eq_ignore_ascii_case;
use crate::geometry::{
    debug_quoted, debug_text, first_some, merge_others, others_view, Geometry,
};
use crate::text::{chars_of, eq_ignore_case, push_str, str_eq, string_from_chars, utf8_len};

verus! {

/// A value of a known kind, or a text that names none of them.
#[derive(Debug, Clone)]
pub enum MaybeUnknown<T> {
    Known(T),
    Unknown(String),
}

/// Where to read from or write to.
#[derive(Debug, Clone)]
pub enum FileOrStdio {
    StdIo,
    File(String),
}

impl FileOrStdio {
    /// `""` and `"-"` stand for standard input / output, anything else for a file.
    pub fn from_str(s: &str) -> (r: FileOrStdio)
        ensures
            (s@ == ""@ || s@ == "-"@) ==> r is StdIo,
            !(s@ == ""@ || s@ == "-"@) ==> (r matches FileOrStdio::File(p) && p@ == s@),
    {
        if str_eq(s, "") || str_eq(s, "-") {
            FileOrStdio::StdIo
        } else {
            FileOrStdio::File(s.to_owned())
        }
    }
}

/// The kind of output to produce.
#[derive(Debug, Clone, Copy, PartialEq, Eq, Structural)]
pub enum OutType {
    Latex,
    Pdf,
    Mp4,
}

impl OutType {
    /// Parses an output kind, ignoring ASCII case.
    pub fn from_str(s: &str) -> (r: Result<OutType, String>)
        ensures
            match r {
                Ok(t) => t == out_type_parse(s@)->0,
                Err(e) => out_type_parse(s@) is None && e@ == "unknown output type "@ + debug_text(s@),
            },
            r is Ok <==> out_type_parse(s@) is Some,
    {
        if str_eq_ignore_ascii_case(s, "tex") || str_eq_ignore_ascii_case(s, "latex") {
            Ok(OutType::Latex)
        } else if str_eq_ignore_ascii_case(s, "pdf") {
            Ok(OutType::Pdf)
        } else if str_eq_ignore_ascii_case(s, "mp4") || str_eq_ignore_ascii_case(s, "ffmpeg") {
            Ok(OutType::Mp4)
        } else {
            let mut e = String::new();
            push_str(&mut e, "unknown output type ");
            let q = debug_quoted(s);
            push_str(&mut e, q.as_str());
            Err(e)
        }
    }
}

/// The output kind named by `s`, ignoring ASCII case.
pub open spec fn out_type_parse(s: Seq<char>) -> Option<OutType> {
    if eq_ignore_case(s, "tex"@) || eq_ignore_case(s, "latex"@) {
        Some(OutType::Latex)
    } else if eq_ignore_case(s, "pdf"@) {
        Some(OutType::Pdf)
    } else if eq_ignore_case(s, "mp4"@) || eq_ignore_case(s, "ffmpeg"@) {
        Some(OutType::Mp4)
    } else {
        None
    }
}

/// The kind of document to produce.
#[derive(Debug, Clone, Copy, PartialEq, Eq, Structural)]
pub enum DocumentType {
    Article,
    Report,
    Thesis,
    Beamer,
}

/// The name of a document type.
pub open spec fn document_type_name(v: DocumentType) -> Seq<char> {
    match v {
        DocumentType::Article => "article"@,
        DocumentType::Report => "report"@,
        DocumentType::Thesis => "thesis"@,
        DocumentType::Beamer => "beamer"@,
    }
}

/// The document type named by `s`.
pub open spec fn document_type_parse(s: Seq<char>) -> Option<DocumentType> {
    if s == "article"@ {
        Some(DocumentType::Article)
    } else if s == "report"@ {
        Some(DocumentType::Report)
    } else if s == "thesis"@ {
        Some(DocumentType::Thesis)
    } else if s == "beamer"@ {
        Some(DocumentType::Beamer)
    } else {
        None
    }
}

impl DocumentType {
    /// Parses the name of a document type.
    pub fn from_str(s: &str) -> (r: Option<DocumentType>)
        ensures
            r == document_type_parse(s@),
    {
        if str_eq(s, "article") {
            return Some(DocumentType::Article);
        }
        if str_eq(s, "report") {
            return Some(DocumentType::Report);
        }
        if str_eq(s, "thesis") {
            return Some(DocumentType::Thesis);
        }
        if str_eq(s, "beamer") {
            return Some(DocumentType::Beamer);
        }
        None
    }

    /// The name of the document type.
    pub fn to_string(&self) -> (r: String)
        ensures
            r@ == document_type_name(*self),
    {
        let mut r = String::new();
        match self {
            DocumentType::Article => push_str(&mut r, "article"),
            DocumentType::Report => push_str(&mut r, "report"),
            DocumentType::Thesis => push_str(&mut r, "thesis"),
            DocumentType::Beamer => push_str(&mut r, "beamer"),
        }
        r
    }
}

/// A biblatex citation style.
#[derive(Debug, Clone, Copy, PartialEq, Eq, Structural)]
pub enum CitationStyle {
    Numeric,
    NumericComp,
    NumericVerb,
    Alphabetic,
    AlphabeticVerb,
    Authoryear,
    AuthoryearComp,
    AuthoryearIbid,
    AuthoryearIcomp,
    Authortitle,
    AuthortitleComp,
    AuthortitleIbid,
    AuthortitleIcomp,
    AuthortitleTerse,
    AuthortitleTcomp,
    AuthortitleTicomp,
    Verbose,
    VerboseIbid,
    VerboseNote,
    VerboseInode,
    VerboseTrad1,
    VerboseTrad2,
    VerboseTrad3,
    Reading,
    Draft,
    Debug,
    ChemAcs,
    Phys,
    Nature,
    Science,
    Ieee,
    ChicagoAuthordate,
    Mla,
    Apa,
}

/// The name of a citation style.
pub open spec fn citation_style_name(v: CitationStyle) -> Seq<char> {
    match v {
        CitationStyle::Numeric => "numeric"@,
        CitationStyle::NumericComp => "numeric-comp"@,
        CitationStyle::NumericVerb => "numeric-verb"@,
        CitationStyle::Alphabetic => "alphabetic"@,
        CitationStyle::AlphabeticVerb => "alphabetic-verb"@,
        CitationStyle::Authoryear => "authoryear"@,
        CitationStyle::AuthoryearComp => "authoryear-comp"@,
        CitationStyle::AuthoryearIbid => "authoryear-ibid"@,
        CitationStyle::AuthoryearIcomp => "authoryear-icomp"@,
        CitationStyle::Authortitle => "authortitle"@,
        CitationStyle::AuthortitleComp => "authortitle-comp"@,
        CitationStyle::AuthortitleIbid => "authortitle-ibid"@,
        CitationStyle::AuthortitleIcomp => "authortitle-icomp"@,
        CitationStyle::AuthortitleTerse => "authortitle-terse"@,
        CitationStyle::AuthortitleTcomp => "authortitle-tcomp"@,
        CitationStyle::AuthortitleTicomp => "authortitle-ticomp"@,
        CitationStyle::Verbose => "verbose"@,
        CitationStyle::VerboseIbid => "verbose-ibid"@,
        CitationStyle::VerboseNote => "verbose-note"@,
        CitationStyle::VerboseInode => "verbose-inode"@,
        CitationStyle::VerboseTrad1 => "verbose-trad1"@,
        CitationStyle::VerboseTrad2 => "verbose-trad2"@,
        CitationStyle::VerboseTrad3 => "verbose-trad3"@,
        CitationStyle::Reading => "reading"@,
        CitationStyle::Draft => "draft"@,
        CitationStyle::Debug => "debug"@,
        CitationStyle::ChemAcs => "chem-acs"@,
        CitationStyle::Phys => "phys"@,
        CitationStyle::Nature => "nature"@,
        CitationStyle::Science => "science"@,
        CitationStyle::Ieee => "ieee"@,
        CitationStyle::ChicagoAuthordate => "chicago-authordate"@,
        CitationStyle::Mla => "mla"@,
        CitationStyle::Apa => "apa"@,
    }
}

/// The citation style named by `s`.
pub open spec fn citation_style_parse(s: Seq<char>) -> Option<CitationStyle> {
    if s == "numeric"@ {
        Some(CitationStyle::Numeric)
    } else if s == "numeric-comp"@ {
        Some(CitationStyle::NumericComp)
    } else if s == "numeric-verb"@ {
        Some(CitationStyle::NumericVerb)
    } else if s == "alphabetic"@ {
        Some(CitationStyle::Alphabetic)
    } else if s == "alphabetic-verb"@ {
        Some(CitationStyle::AlphabeticVerb)
    } else if s == "authoryear"@ {
        Some(CitationStyle::Authoryear)
    } else if s == "authoryear-comp"@ {
        Some(CitationStyle::AuthoryearComp)
    } else if s == "authoryear-ibid"@ {
        Some(CitationStyle::AuthoryearIbid)
    } else if s == "authoryear-icomp"@ {
        Some(CitationStyle::AuthoryearIcomp)
    } else if s == "authortitle"@ {
        Some(CitationStyle::Authortitle)
    } else if s == "authortitle-comp"@ {
        Some(CitationStyle::AuthortitleComp)
    } else if s == "authortitle-ibid"@ {
        Some(CitationStyle::AuthortitleIbid)
    } else if s == "authortitle-icomp"@ {
        Some(CitationStyle::AuthortitleIcomp)
    } else if s == "authortitle-terse"@ {
        Some(CitationStyle::AuthortitleTerse)
    } else if s == "authortitle-tcomp"@ {
        Some(CitationStyle::AuthortitleTcomp)
    } else if s == "authortitle-ticomp"@ {
        Some(CitationStyle::AuthortitleTicomp)
    } else if s == "verbose"@ {
        Some(CitationStyle::Verbose)
    } else if s == "verbose-ibid"@ {
        Some(CitationStyle::VerboseIbid)
    } else if s == "verbose-note"@ {
        Some(CitationStyle::VerboseNote)
    } else if s == "verbose-inode"@ {
        Some(CitationStyle::VerboseInode)
    } else if s == "verbose-trad1"@ {
        Some(CitationStyle::VerboseTrad1)
    } else if s == "verbose-trad2"@ {
        Some(CitationStyle::VerboseTrad2)
    } else if s == "verbose-trad3"@ {
        Some(CitationStyle::VerboseTrad3)
    } else if s == "reading"@ {
        Some(CitationStyle::Reading)
    } else if s == "draft"@ {
        Some(CitationStyle::Draft)
    } else if s == "debug"@ {
        Some(CitationStyle::Debug)
    } else if s == "chem-acs"@ {
        Some(CitationStyle::ChemAcs)
    } else if s == "phys"@ {
        Some(CitationStyle::Phys)
    } else if s == "nature"@ {
        Some(CitationStyle::Nature)
    } else if s == "science"@ {
        Some(CitationStyle::Science)
    } else if s == "ieee"@ {
        Some(CitationStyle::Ieee)
    } else if s == "chicago-authordate"@ {
        Some(CitationStyle::ChicagoAuthordate)
    } else if s == "mla"@ {
        Some(CitationStyle::Mla)
    } else if s == "apa"@ {
        Some(CitationStyle::Apa)
    } else {
        None
    }
}

impl CitationStyle {
    /// Parses the name of a citation style.
    pub fn from_str(s: &str) -> (r: Option<CitationStyle>)
        ensures
            r == citation_style_parse(s@),
    {
        if str_eq(s, "numeric") {
            return Some(CitationStyle::Numeric);
        }
        if str_eq(s, "numeric-comp") {
            return Some(CitationStyle::NumericComp);
        }
        if str_eq(s, "numeric-verb") {
            return Some(CitationStyle::NumericVerb);
        }
        if str_eq(s, "alphabetic") {
            return Some(CitationStyle::Alphabetic);
        }
        if str_eq(s, "alphabetic-verb") {
            return Some(CitationStyle::AlphabeticVerb);
        }
        if str_eq(s, "authoryear") {
            return Some(CitationStyle::Authoryear);
        }
        if str_eq(s, "authoryear-comp") {
            return Some(CitationStyle::AuthoryearComp);
        }
        if str_eq(s, "authoryear-ibid") {
            return Some(CitationStyle::AuthoryearIbid);
        }
        if str_eq(s, "authoryear-icomp") {
            return Some(CitationStyle::AuthoryearIcomp);
        }
        if str_eq(s, "authortitle") {
            return Some(CitationStyle::Authortitle);
        }
        if str_eq(s, "authortitle-comp") {
            return Some(CitationStyle::AuthortitleComp);
        }
        if str_eq(s, "authortitle-ibid") {
            return Some(CitationStyle::AuthortitleIbid);
        }
        if str_eq(s, "authortitle-icomp") {
            return Some(CitationStyle::AuthortitleIcomp);
        }
        if str_eq(s, "authortitle-terse") {
            return Some(CitationStyle::AuthortitleTerse);
        }
        if str_eq(s, "authortitle-tcomp") {
            return Some(CitationStyle::AuthortitleTcomp);
        }
        if str_eq(s, "authortitle-ticomp") {
            return Some(CitationStyle::AuthortitleTicomp);
        }
        if str_eq(s, "verbose") {
            return Some(CitationStyle::Verbose);
        }
        if str_eq(s, "verbose-ibid") {
            return Some(CitationStyle::VerboseIbid);
        }
        if str_eq(s, "verbose-note") {
            return Some(CitationStyle::VerboseNote);
        }
        if str_eq(s, "verbose-inode") {
            return Some(CitationStyle::VerboseInode);
        }
        if str_eq(s, "verbose-trad1") {
            return Some(CitationStyle::VerboseTrad1);
        }
        if str_eq(s, "verbose-trad2") {
            return Some(CitationStyle::VerboseTrad2);
        }
        if str_eq(s, "verbose-trad3") {
            return Some(CitationStyle::VerboseTrad3);
        }
        if str_eq(s, "reading") {
            return Some(CitationStyle::Reading);
        }
        if str_eq(s, "draft") {
            return Some(CitationStyle::Draft);
        }
        if str_eq(s, "debug") {
            return Some(CitationStyle::Debug);
        }
        if str_eq(s, "chem-acs") {
            return Some(CitationStyle::ChemAcs);
        }
        if str_eq(s, "phys") {
            return Some(CitationStyle::Phys);
        }
        if str_eq(s, "nature") {
            return Some(CitationStyle::Nature);
        }
        if str_eq(s, "science") {
            return Some(CitationStyle::Science);
        }
        if str_eq(s, "ieee") {
            return Some(CitationStyle::Ieee);
        }
        if str_eq(s, "chicago-authordate") {
            return Some(CitationStyle::ChicagoAuthordate);
        }
        if str_eq(s, "mla") {
            return Some(CitationStyle::Mla);
        }
        if str_eq(s, "apa") {
            return Some(CitationStyle::Apa);
        }
        None
    }

    /// The name of the citation style.
    pub fn to_string(&self) -> (r: String)
        ensures
            r@ == citation_style_name(*self),
    {
        let mut r = String::new();
        match self {
            CitationStyle::Numeric => push_str(&mut r, "numeric"),
            CitationStyle::NumericComp => push_str(&mut r, "numeric-comp"),
            CitationStyle::NumericVerb => push_str(&mut r, "numeric-verb"),
            CitationStyle::Alphabetic => push_str(&mut r, "alphabetic"),
            CitationStyle::AlphabeticVerb => push_str(&mut r, "alphabetic-verb"),
            CitationStyle::Authoryear => push_str(&mut r, "authoryear"),
            CitationStyle::AuthoryearComp => push_str(&mut r, "authoryear-comp"),
            CitationStyle::AuthoryearIbid => push_str(&mut r, "authoryear-ibid"),
            CitationStyle::AuthoryearIcomp => push_str(&mut r, "authoryear-icomp"),
            CitationStyle::Authortitle => push_str(&mut r, "authortitle"),
            CitationStyle::AuthortitleComp => push_str(&mut r, "authortitle-comp"),
            CitationStyle::AuthortitleIbid => push_str(&mut r, "authortitle-ibid"),
            CitationStyle::AuthortitleIcomp => push_str(&mut r, "authortitle-icomp"),
            CitationStyle::AuthortitleTerse => push_str(&mut r, "authortitle-terse"),
            CitationStyle::AuthortitleTcomp => push_str(&mut r, "authortitle-tcomp"),
            CitationStyle::AuthortitleTicomp => push_str(&mut r, "authortitle-ticomp"),
            CitationStyle::Verbose => push_str(&mut r, "verbose"),
            CitationStyle::VerboseIbid => push_str(&mut r, "verbose-ibid"),
            CitationStyle::VerboseNote => push_str(&mut r, "verbose-note"),
            CitationStyle::VerboseInode => push_str(&mut r, "verbose-inode"),
            CitationStyle::VerboseTrad1 => push_str(&mut r, "verbose-trad1"),
            CitationStyle::VerboseTrad2 => push_str(&mut r, "verbose-trad2"),
            CitationStyle::VerboseTrad3 => push_str(&mut r, "verbose-trad3"),
            CitationStyle::Reading => push_str(&mut r, "reading"),
            CitationStyle::Draft => push_str(&mut r, "draft"),
            CitationStyle::Debug => push_str(&mut r, "debug"),
            CitationStyle::ChemAcs => push_str(&mut r, "chem-acs"),
            CitationStyle::Phys => push_str(&mut r, "phys"),
            CitationStyle::Nature => push_str(&mut r, "nature"),
            CitationStyle::Science => push_str(&mut r, "science"),
            CitationStyle::Ieee => push_str(&mut r, "ieee"),
            CitationStyle::ChicagoAuthordate => push_str(&mut r, "chicago-authordate"),
            CitationStyle::Mla => push_str(&mut r, "mla"),
            CitationStyle::Apa => push_str(&mut r, "apa"),
        }
        r
    }
}

/// The name of a citation style, or the unknown text.
pub open spec fn citation_text(c: MaybeUnknown<CitationStyle>) -> Seq<char> {
    match c {
        MaybeUnknown::Known(k) => citation_style_name(k),
        MaybeUnknown::Unknown(u) => u@,
    }
}

impl MaybeUnknown<CitationStyle> {
    /// A known citation style, or the text itself.
    pub fn from_str(s: &str) -> (r: MaybeUnknown<CitationStyle>)
        ensures
            match citation_style_parse(s@) {
                Some(c) => (r matches MaybeUnknown::Known(k) && k == c),
                None => (r matches MaybeUnknown::Unknown(u) && u@ == s@),
            },
    {
        match CitationStyle::from_str(s) {
            Some(c) => MaybeUnknown::Known(c),
            None => MaybeUnknown::Unknown(s.to_owned()),
        }
    }

    /// The name of the citation style, or the unknown text.
    pub fn to_string(&self) -> (r: String)
        ensures
            r@ == citation_text(*self),
    {
        match self {
            MaybeUnknown::Known(c) => c.to_string(),
            MaybeUnknown::Unknown(u) => u.clone(),
        }
    }
}

// ----------------------------------------------------------------------------------------
// paths and languages

/// The extension of the last component of a path (`Path::extension`).
pub uninterp spec fn path_extension_of(p: Seq<char>) -> Option<Seq<char>>;

/// The last component of a path without its extension (`Path::file_stem`).
pub uninterp spec fn path_file_stem_of(p: Seq<char>) -> Option<Seq<char>>;

/// The path with its extension set (`PathBuf::set_extension`), where that is possible.
pub uninterp spec fn path_with_extension_of(p: Seq<char>, ext: Seq<char>) -> Option<Seq<char>>;

/// `Path::extension`, as text.
///
/// Trusted: the contract claims only that the result is the extension of `p`, named by
/// `path_extension_of`; how std splits paths is not stated.
#[verifier::external_body]
pub(crate) fn path_extension(p: &str) -> (r: Option<String>)
    ensures
        opt_view(r) == path_extension_of(p@),
{
    match std::path::Path::new(p).extension() {
        Some(e) => e.to_str().map(|x| x.to_string()),
        None => None,
    }
}

/// `Path::file_stem`, as text.
///
/// Trusted: the contract claims only that the result is the file stem of `p`, named by
/// `path_file_stem_of`; how std splits paths is not stated.
#[verifier::external_body]
fn path_file_stem(p: &str) -> (r: Option<String>)
    ensures
        opt_view(r) == path_file_stem_of(p@),
{
    match std::path::Path::new(p).file_stem() {
        Some(e) => e.to_str().map(|x| x.to_string()),
        None => None,
    }
}

/// Whether a text holds a path separator.
pub open spec fn has_separator(s: Seq<char>) -> bool {
    s.contains('/') || s.contains('\\')
}

/// `PathBuf::set_extension`, as text; `None` where it reports failure.
///
/// Trusted: the contract claims only that the result is named by `path_with_extension_of`;
/// how std replaces extensions is not stated.  std panics on an extension that holds a path
/// separator, which the `requires` leaves out.
#[verifier::external_body]
fn path_with_extension(p: &str, ext: &str) -> (r: Option<String>)
    requires
        !has_separator(ext@),
    ensures
        opt_view(r) == path_with_extension_of(p@, ext@),
{
    let mut buf = std::path::PathBuf::from(p);
    if buf.set_extension(ext) {
        buf.to_str().map(|x| x.to_string())
    } else {
        None
    }
}

/// The ISO 639-3 code of the language with ISO 639-1 code `code`, if there is one.
pub uninterp spec fn iso_639_1_lookup(code: Seq<char>) -> Option<Seq<char>>;

/// The ISO 639-3 code of the language with ISO 639-3 code `code`, if there is one.
pub uninterp spec fn iso_639_3_lookup(code: Seq<char>) -> Option<Seq<char>>;

/// `isolang::Language::from_639_1`, the language given by its ISO 639-3 code.
///
/// Trusted: the contract claims that the result is named by `iso_639_1_lookup`, and, as
/// the crate's source shows, that a code not two bytes long names no language.  The table
/// itself is not stated.
#[verifier::external_body]
fn language_from_639_1(code: &str) -> (r: Option<String>)
    ensures
        opt_view(r) == iso_639_1_lookup(code@),
        utf8_len(code@) != 2 ==> r is None,
{
    match isolang::Language::from_639_1(code) {
        Some(l) => Some(l.to_639_3().to_string()),
        None => None,
    }
}

/// `isolang::Language::from_639_3`, the language given by its ISO 639-3 code.
///
/// Trusted: the contract claims that the result is named by `iso_639_3_lookup`, and, as
/// the crate's source shows, that a code not three bytes long names no language.  The table
/// itself is not stated.
#[verifier::external_body]
fn language_from_639_3(code: &str) -> (r: Option<String>)
    ensures
        opt_view(r) == iso_639_3_lookup(code@),
        utf8_len(code@) != 3 ==> r is None,
{
    match isolang::Language::from_639_3(code) {
        Some(l) => Some(l.to_639_3().to_string()),
        None => None,
    }
}

/// `isolang::Language::Eng`, by its ISO 639-3 code.
///
/// Trusted: the contract claims that English has the code `eng`, as the crate's table has it.
#[verifier::external_body]
fn english_code() -> (r: String)
    ensures
        r@ == "eng"@,
{
    isolang::Language::Eng.to_639_3().to_string()
}

/// The part of a locale before the first `_`.
pub open spec fn locale_language(l: Seq<char>) -> Seq<char> {
    crate::geometry::split_seq(l, '_')[0]
}

/// The language of a locale such as `de_DE.UTF-8` (`isolang::Language::from_locale`).
pub open spec fn locale_lookup(l: Seq<char>) -> Option<Seq<char>> {
    if utf8_len(l) < 3 {
        None
    } else {
        iso_639_1_lookup(locale_language(l))
    }
}

/// The language named by `lang`: an ISO 639-1 code, an ISO 639-3 code or a locale, in this
/// order; English when none is given.
pub open spec fn language_of(lang: Option<Seq<char>>) -> Option<Seq<char>> {
    match lang {
        None => Some("eng"@),
        Some(l) => first_some(iso_639_1_lookup(l), first_some(iso_639_3_lookup(l), locale_lookup(l))),
    }
}

/// The language of a locale, by its ISO 639-3 code.
pub fn language_from_locale(locale: &str) -> (r: Option<String>)
    ensures
        opt_view(r) == locale_lookup(locale@),
{
    if crate::ext::byte_len(locale) < 3 {
        return None;
    }
    let v = chars_of(locale);
    let parts = crate::geometry::split_chars(&v, '_');
    proof {
        crate::geometry::lemma_split_len(v@, '_');
    }
    let first = string_from_chars(parts[0].as_slice());
    language_from_639_1(first.as_str())
}

/// Resolves the configured language to its ISO 639-3 code; `None` where it names none.
pub fn resolve_language(lang: Option<String>) -> (r: Option<String>)
    ensures
        opt_view(r) == language_of(opt_view(lang)),
{
    match lang {
        None => Some(english_code()),
        Some(l) => match language_from_639_1(l.as_str()) {
            Some(c) => Some(c),
            None => match language_from_639_3(l.as_str()) {
                Some(c) => Some(c),
                None => language_from_locale(l.as_str()),
            },
        },
    }
}

// ----------------------------------------------------------------------------------------
// configuration

/// Configuration as given in a file or on the command line; every value is optional.
#[derive(Debug, Default)]
pub struct FileConfig {
    /// Output type (tex / pdf). If left blank, it's derived from the output file ending.
    pub output_type: Option<OutType>,
    /// Type of the document.
    pub document_type: Option<DocumentType>,
    /// Bibliography file in biblatex format.
    pub bibliography: Option<String>,
    /// Citation style. Used for both `citestyle` and `bibstyle`.
    pub citationstyle: Option<MaybeUnknown<CitationStyle>>,
    /// Style used for citation labels. Takes precedence over `citationstyle`.
    pub citestyle: Option<MaybeUnknown<CitationStyle>>,
    /// Style used for generating the bibliography index. Takes precedence over `citationstyle`.
    pub bibstyle: Option<MaybeUnknown<CitationStyle>>,
    /// If figures should be used by default for images and similar
    pub figures: Option<bool>,
    /// File template to use.
    pub template: Option<String>,
    /// Language of document: an ISO 639-1 or ISO 639-3 code, or a locale.
    pub lang: Option<String>,
    /// Fontsize of the document.
    pub fontsize: Option<String>,
    /// Whether a book is one-sided.
    pub oneside: Option<bool>,
    /// Other options passed to `\\documentclass`.
    pub classoptions: Vec<String>,
    /// Whether the titlepage is a page of its own.
    pub titlepage: Option<bool>,
    pub title: Option<String>,
    pub subtitle: Option<String>,
    pub titlehead: Option<String>,
    pub author: Option<String>,
    pub email: Option<String>,
    pub date: Option<String>,
    pub publisher: Option<String>,
    pub advisor: Option<String>,
    pub supervisor: Option<String>,
    pub logo_university: Option<String>,
    pub logo_faculty: Option<String>,
    pub university: Option<String>,
    pub faculty: Option<String>,
    pub thesis_type: Option<String>,
    pub location: Option<String>,
    pub disclaimer: Option<String>,
    pub abstract1: Option<String>,
    pub abstract2: Option<String>,
    pub lhead: Option<String>,
    pub lhead_even: Option<String>,
    pub chead: Option<String>,
    pub chead_even: Option<String>,
    pub rhead: Option<String>,
    pub rhead_even: Option<String>,
    pub lfoot: Option<String>,
    pub lfoot_even: Option<String>,
    pub cfoot: Option<String>,
    pub cfoot_even: Option<String>,
    pub rfoot: Option<String>,
    pub rfoot_even: Option<String>,
    pub header_footer_on_titlepage: Option<bool>,
    /// Whether beamer inserts titleframes for each section.
    pub sectionframes: Option<bool>,
    /// Theme of beamer presentations.
    pub beamertheme: Option<String>,
    /// Custom header includes.
    pub header_includes: Vec<String>,
    pub geometry: Geometry,
}

/// Command-line arguments.
#[derive(Debug)]
pub struct CliArgs {
    /// Output file. Use `-` for stdout.
    pub output: Option<FileOrStdio>,
    /// Output directory for intermediate files.
    pub out_dir: Option<String>,
    /// Input markdown file. Use `-` for stdin.
    pub input: FileOrStdio,
    /// Config file with additional configuration.
    pub configfile: Option<String>,
    pub fileconfig: FileConfig,
}

/// What the surroundings found out for the configuration: the folders, and the files the
/// configured names resolve to (see [`pick`]).
#[derive(Debug)]
pub struct ConfigEnv {
    pub temp_dir: String,
    pub document_folder: String,
    pub cfgfile_folder: Option<String>,
    pub bibliography: Option<String>,
    pub template: Option<String>,
    pub logo_university: Option<String>,
    pub logo_faculty: Option<String>,
    pub abstract1: Option<String>,
    pub abstract2: Option<String>,
}

/// The complete configuration of a conversion.
#[derive(Debug)]
pub struct Config {
    pub output: FileOrStdio,
    pub out_dir: String,
    pub temp_dir: String,
    pub input: FileOrStdio,
    pub document_folder: String,
    pub project_root: String,
    pub output_type: OutType,
    pub document_type: DocumentType,
    pub bibliography: Option<String>,
    pub citestyle: MaybeUnknown<CitationStyle>,
    pub bibstyle: MaybeUnknown<CitationStyle>,
    pub figures: bool,
    pub template: Option<String>,
    /// ISO 639-3 code of the document's language.
    pub lang: String,
    pub fontsize: String,
    pub oneside: bool,
    /// Options for `\\documentclass`, each once.
    pub classoptions: Vec<String>,
    pub titlepage: bool,
    pub title: Option<String>,
    pub subtitle: Option<String>,
    pub titlehead: Option<String>,
    pub author: Option<String>,
    pub email: Option<String>,
    pub date: Option<String>,
    pub publisher: Option<String>,
    pub advisor: Option<String>,
    pub supervisor: Option<String>,
    pub logo_university: Option<String>,
    pub logo_faculty: Option<String>,
    pub university: Option<String>,
    pub faculty: Option<String>,
    pub thesis_type: Option<String>,
    pub location: Option<String>,
    pub disclaimer: Option<String>,
    pub abstract1: Option<String>,
    pub abstract2: Option<String>,
    pub lhead: Option<String>,
    pub lhead_even: Option<String>,
    pub chead: Option<String>,
    pub chead_even: Option<String>,
    pub rhead: Option<String>,
    pub rhead_even: Option<String>,
    pub lfoot: Option<String>,
    pub lfoot_even: Option<String>,
    pub cfoot: Option<String>,
    pub cfoot_even: Option<String>,
    pub rfoot: Option<String>,
    pub rfoot_even: Option<String>,
    pub header_footer_on_titlepage: bool,
    pub sectionframes: bool,
    pub beamertheme: String,
    pub header_includes: Vec<String>,
    pub geometry: Geometry,
}

/// The first of three optional values that is there: command line, then input file, then
/// config file.
pub open spec fn first3<T>(a: Option<T>, b: Option<T>, c: Option<T>) -> Option<T> {
    first_some(a, first_some(b, c))
}

/// The first of three optional values that is there: command line, then input file, then
/// config file.
pub fn pick<T>(a: Option<T>, b: Option<T>, c: Option<T>) -> (r: Option<T>)
    ensures
        r == first3(a, b, c),
{
    match a {
        Some(x) => Some(x),
        None => match b {
            Some(x) => Some(x),
            None => c,
        },
    }
}

/// The output kind derived from where the output goes: LaTeX for standard output and for
/// files ending in `tex` or `latex` (any ASCII case), else PDF.
pub open spec fn output_type_for(output: Option<FileOrStdio>) -> OutType {
    match output {
        Some(FileOrStdio::StdIo) => OutType::Latex,
        Some(FileOrStdio::File(p)) => match path_extension_of(p@) {
            Some(e) => if eq_ignore_case(e, "tex"@) || eq_ignore_case(e, "latex"@) {
                OutType::Latex
            } else {
                OutType::Pdf
            },
            None => OutType::Pdf,
        },
        None => OutType::Pdf,
    }
}

/// The output kind derived from where the output goes.
pub fn output_type_for_output(output: &Option<FileOrStdio>) -> (r: OutType)
    ensures
        r == output_type_for(*output),
{
    match output {
        Some(FileOrStdio::StdIo) => OutType::Latex,
        Some(FileOrStdio::File(p)) => match path_extension(p.as_str()) {
            Some(e) => if str_eq_ignore_ascii_case(e.as_str(), "tex") || str_eq_ignore_ascii_case(
                e.as_str(),
                "latex",
            ) {
                OutType::Latex
            } else {
                OutType::Pdf
            },
            None => OutType::Pdf,
        },
        None => OutType::Pdf,
    }
}

/// The extension of files of an output kind.
pub open spec fn out_extension(t: OutType) -> Seq<char> {
    match t {
        OutType::Latex => "tex"@,
        OutType::Pdf => "pdf"@,
        OutType::Mp4 => "mp4"@,
    }
}

/// The default output: the input's file stem with the extension of the output kind, or
/// `out` with it when reading standard input; `None` where the path cannot be formed.
pub open spec fn default_output_path(input: FileOrStdio, t: OutType) -> Option<Seq<char>> {
    match input {
        FileOrStdio::File(p) => match path_file_stem_of(p@) {
            Some(stem) => path_with_extension_of(stem, out_extension(t)),
            None => None,
        },
        FileOrStdio::StdIo => path_with_extension_of("out"@, out_extension(t)),
    }
}

fn default_output(input: &FileOrStdio, t: OutType) -> (r: Option<String>)
    ensures
        opt_view(r) == default_output_path(*input, t),
{
    let ext = match t {
        OutType::Latex => "tex",
        OutType::Pdf => "pdf",
        OutType::Mp4 => "mp4",
    };
    proof {
        reveal_strlit("tex");
        reveal_strlit("pdf");
        reveal_strlit("mp4");
        assert(!has_separator(ext@));
    }
    match input {
        FileOrStdio::File(p) => match path_file_stem(p.as_str()) {
            Some(stem) => path_with_extension(stem.as_str(), ext),
            None => None,
        },
        FileOrStdio::StdIo => path_with_extension("out", ext),
    }
}

/// Texts viewed as sequences.
pub open spec fn texts_view(v: Seq<String>) -> Seq<Seq<char>> {
    Seq::new(v.len(), |i: int| v[i]@)
}

/// `m` with `t` added unless it is there already.
pub open spec fn add_unique(m: Seq<Seq<char>>, t: Seq<char>) -> Seq<Seq<char>> {
    if m.contains(t) {
        m
    } else {
        m.push(t)
    }
}

/// `m` with each text of `items` added unless it is there already, in order.
pub open spec fn add_all_unique(m: Seq<Seq<char>>, items: Seq<Seq<char>>) -> Seq<Seq<char>>
    decreases items.len(),
{
    if items.len() == 0 {
        m
    } else {
        add_unique(add_all_unique(m, items.drop_last()), items.last())
    }
}

/// Adds each text of `items` to `m` unless it is there already.
fn extend_unique(m: &mut Vec<String>, items: Vec<String>)
    ensures
        texts_view(final(m)@) == add_all_unique(texts_view(old(m)@), texts_view(items@)),
{
    let ghost m0 = texts_view(m@);
    let ghost iv = texts_view(items@);
    let mut i: usize = 0;
    while i < items.len()
        invariant
            i <= items@.len(),
            iv == texts_view(items@),
            texts_view(m@) == add_all_unique(m0, iv.take(i as int)),
        decreases items@.len() - i,
    {
        let ghost mv = texts_view(m@);
        let mut found = false;
        let mut j: usize = 0;
        while j < m.len()
            invariant
                j <= m@.len(),
                i < items@.len(),
                mv == texts_view(m@),
                found <==> exists|k: int| 0 <= k < j && m@[k]@ == items@[i as int]@,
            decreases m@.len() - j,
        {
            if str_eq(m[j].as_str(), items[i].as_str()) {
                found = true;
            }
            j = j + 1;
        }
        proof {
            assert(iv.take(i + 1).drop_last() =~= iv.take(i as int));
            assert(iv.take(i + 1).last() == items@[i as int]@);
            if found {
                let k = choose|k: int| 0 <= k < j && m@[k]@ == items@[i as int]@;
                assert(mv[k] == items@[i as int]@);
            } else {
                assert(!mv.contains(items@[i as int]@)) by {
                    if mv.contains(items@[i as int]@) {
                        let k = choose|k: int| 0 <= k < mv.len() && mv[k] == items@[i as int]@;
                        assert(m@[k]@ == items@[i as int]@);
                    }
                }
            }
        }
        if !found {
            m.push(items[i].clone());
            assert(texts_view(m@) =~= mv.push(items@[i as int]@));
        }
        i = i + 1;
    }
    assert(iv.take(i as int) =~= iv);
}

/// Appends the texts of `items` to `m`.
fn append_all(m: &mut Vec<String>, items: Vec<String>)
    ensures
        texts_view(final(m)@) == texts_view(old(m)@) + texts_view(items@),
{
    let ghost m0 = texts_view(m@);
    let mut items = items;
    let ghost i0 = texts_view(items@);
    m.append(&mut items);
    assert(texts_view(m@) =~= m0 + i0);
}

pub open spec fn citation_view(c: MaybeUnknown<CitationStyle>) -> (Option<CitationStyle>, Seq<char>) {
    match c {
        MaybeUnknown::Known(k) => (Some(k), Seq::empty()),
        MaybeUnknown::Unknown(u) => (None, u@),
    }
}

fn clone_citation(c: &MaybeUnknown<CitationStyle>) -> (r: MaybeUnknown<CitationStyle>)
    ensures
        citation_view(r) == citation_view(*c),
{
    match c {
        MaybeUnknown::Known(k) => MaybeUnknown::Known(*k),
        MaybeUnknown::Unknown(u) => MaybeUnknown::Unknown(u.clone()),
    }
}

/// Whether figures are used by default for a kind of document.
pub open spec fn default_figures(d: DocumentType) -> bool {
    d == DocumentType::Thesis || d == DocumentType::Report
}

/// The geometry `g` is the three geometries merged, the first one winning.
pub open spec fn geometry_merged3(g: Geometry, a: Geometry, b: Geometry, c: Geometry) -> bool {
    &&& g.papersize == first3(a.papersize, b.papersize, c.papersize)
    &&& g.orientation == first3(a.orientation, b.orientation, c.orientation)
    &&& g.margin == first3(a.margin, b.margin, c.margin)
    &&& g.textwidth == first3(a.textwidth, b.textwidth, c.textwidth)
    &&& g.textheight == first3(a.textheight, b.textheight, c.textheight)
    &&& g.total == first3(a.total, b.total, c.total)
    &&& g.left == first3(a.left, b.left, c.left)
    &&& g.lmargin == first3(a.lmargin, b.lmargin, c.lmargin)
    &&& g.inner == first3(a.inner, b.inner, c.inner)
    &&& g.right == first3(a.right, b.right, c.right)
    &&& g.rmargin == first3(a.rmargin, b.rmargin, c.rmargin)
    &&& g.outer == first3(a.outer, b.outer, c.outer)
    &&& g.top == first3(a.top, b.top, c.top)
    &&& g.tmargin == first3(a.tmargin, b.tmargin, c.tmargin)
    &&& g.bottom == first3(a.bottom, b.bottom, c.bottom)
    &&& g.bmargin == first3(a.bmargin, b.bmargin, c.bmargin)
    &&& g.headheight == first3(a.headheight, b.headheight, c.headheight)
    &&& g.footsep == first3(a.footsep, b.footsep, c.footsep)
    &&& g.footskip == first3(a.footskip, b.footskip, c.footskip)
    &&& g.marginparwidth == first3(a.marginparwidth, b.marginparwidth, c.marginparwidth)
    &&& g.marginpar == first3(a.marginpar, b.marginpar, c.marginpar)
    &&& others_view(g.others) == merge_others(
        merge_others(others_view(a.others), others_view(b.others)),
        others_view(c.others),
    )
}

impl Config {
    /// Combines the command line, the input file's and the config file's configuration, in
    /// this order of precedence, with the defaults.  Fails where the language is unknown, or
    /// where no default output path can be formed.
    #[verifier::rlimit(40)]
    pub fn new(args: CliArgs, infile: FileConfig, file: FileConfig, env: ConfigEnv) -> (r: Result<Config, String>)
        ensures
            language_of(opt_view(first3(args.fileconfig.lang, infile.lang, file.lang))) is None ==> r is Err,
            (args.output is None && default_output_path(args.input, match first3(
                args.fileconfig.output_type,
                infile.output_type,
                file.output_type,
            ) {
                Some(t) => t,
                None => output_type_for(args.output),
            }) is None) ==> r is Err,
            r matches Ok(cfg) ==> config_built(cfg, args, infile, file, env),
            (language_of(opt_view(first3(args.fileconfig.lang, infile.lang, file.lang))) is Some && (
            args.output is Some || default_output_path(args.input, match first3(
                args.fileconfig.output_type,
                infile.output_type,
                file.output_type,
            ) {
                Some(t) => t,
                None => output_type_for(args.output),
            }) is Some)) ==> r is Ok,
    {
        let CliArgs { output: args_output, out_dir, input, configfile: _, fileconfig: cli } = args;
        let output_type = match pick(cli.output_type, infile.output_type, file.output_type) {
            Some(t) => t,
            None => output_type_for_output(&args_output),
        };
        let output = match args_output {
            Some(fos) => fos,
            None => match default_output(&input, output_type) {
                Some(p) => FileOrStdio::File(p),
                None => {
                    let mut e = String::new();
                    push_str(&mut e, "no output path can be derived from the input");
                    return Err(e);
                },
            },
        };
        let lang = match resolve_language(pick(cli.lang, infile.lang, file.lang)) {
            Some(l) => l,
            None => {
                let mut e = String::new();
                push_str(&mut e, "Unknown language parameter");
                return Err(e);
            },
        };
        let project_root = match env.cfgfile_folder {
            Some(f) => f,
            None => env.document_folder.clone(),
        };
        let mut classoptions: Vec<String> = Vec::new();
        assert(texts_view(classoptions@) =~= Seq::<Seq<char>>::empty());
        extend_unique(&mut classoptions, cli.classoptions);
        extend_unique(&mut classoptions, infile.classoptions);
        extend_unique(&mut classoptions, file.classoptions);
        let mut header_includes = cli.header_includes;
        append_all(&mut header_includes, infile.header_includes);
        append_all(&mut header_includes, file.header_includes);
        let citationstyle = pick(cli.citationstyle, infile.citationstyle, file.citationstyle);
        let document_type = match pick(cli.document_type, infile.document_type, file.document_type) {
            Some(d) => d,
            None => DocumentType::Article,
        };
        let citestyle = match pick(cli.citestyle, infile.citestyle, file.citestyle) {
            Some(c) => c,
            None => match &citationstyle {
                Some(c) => clone_citation(c),
                None => MaybeUnknown::Known(CitationStyle::NumericComp),
            },
        };
        let bibstyle = match pick(cli.bibstyle, infile.bibstyle, file.bibstyle) {
            Some(c) => c,
            None => match citationstyle {
                Some(c) => c,
                None => MaybeUnknown::Known(CitationStyle::Ieee),
            },
        };
        let figures = match pick(cli.figures, infile.figures, file.figures) {
            Some(f) => f,
            None => match document_type {
                DocumentType::Article | DocumentType::Beamer => false,
                DocumentType::Thesis | DocumentType::Report => true,
            },
        };
        let fontsize = match pick(cli.fontsize, infile.fontsize, file.fontsize) {
            Some(f) => f,
            None => {
                let mut f = String::new();
                push_str(&mut f, "11pt");
                assert(f@ =~= "11pt"@);
                f
            },
        };
        let beamertheme = match pick(cli.beamertheme, infile.beamertheme, file.beamertheme) {
            Some(t) => t,
            None => {
                let mut t = String::new();
                push_str(&mut t, "Madrid");
                assert(t@ =~= "Madrid"@);
                t
            },
        };
        let out_dir = match out_dir {
            Some(d) => d,
            None => env.temp_dir.clone(),
        };
        let geometry = cli.geometry.merge(infile.geometry).merge(file.geometry);
        Ok(Config {
            output,
            out_dir,
            temp_dir: env.temp_dir,
            input,
            document_folder: env.document_folder,
            project_root,
            output_type,
            document_type,
            bibliography: env.bibliography,
            template: env.template,
            lang,
            citestyle,
            bibstyle,
            figures,
            fontsize,
            oneside: match pick(cli.oneside, infile.oneside, file.oneside) {
                Some(b) => b,
                None => false,
            },
            titlepage: match pick(cli.titlepage, infile.titlepage, file.titlepage) {
                Some(b) => b,
                None => true,
            },
            title: pick(cli.title, infile.title, file.title),
            subtitle: pick(cli.subtitle, infile.subtitle, file.subtitle),
            titlehead: pick(cli.titlehead, infile.titlehead, file.titlehead),
            author: pick(cli.author, infile.author, file.author),
            email: pick(cli.email, infile.email, file.email),
            date: pick(cli.date, infile.date, file.date),
            publisher: pick(cli.publisher, infile.publisher, file.publisher),
            advisor: pick(cli.advisor, infile.advisor, file.advisor),
            supervisor: pick(cli.supervisor, infile.supervisor, file.supervisor),
            university: pick(cli.university, infile.university, file.university),
            faculty: pick(cli.faculty, infile.faculty, file.faculty),
            thesis_type: pick(cli.thesis_type, infile.thesis_type, file.thesis_type),
            location: pick(cli.location, infile.location, file.location),
            disclaimer: pick(cli.disclaimer, infile.disclaimer, file.disclaimer),
            lhead: pick(cli.lhead, infile.lhead, file.lhead),
            lhead_even: pick(cli.lhead_even, infile.lhead_even, file.lhead_even),
            chead: pick(cli.chead, infile.chead, file.chead),
            chead_even: pick(cli.chead_even, infile.chead_even, file.chead_even),
            rhead: pick(cli.rhead, infile.rhead, file.rhead),
            rhead_even: pick(cli.rhead_even, infile.rhead_even, file.rhead_even),
            lfoot: pick(cli.lfoot, infile.lfoot, file.lfoot),
            lfoot_even: pick(cli.lfoot_even, infile.lfoot_even, file.lfoot_even),
            cfoot: pick(cli.cfoot, infile.cfoot, file.cfoot),
            cfoot_even: pick(cli.cfoot_even, infile.cfoot_even, file.cfoot_even),
            rfoot: pick(cli.rfoot, infile.rfoot, file.rfoot),
            rfoot_even: pick(cli.rfoot_even, infile.rfoot_even, file.rfoot_even),
            logo_university: env.logo_university,
            logo_faculty: env.logo_faculty,
            abstract1: env.abstract1,
            abstract2: env.abstract2,
            header_footer_on_titlepage: match pick(
                cli.header_footer_on_titlepage,
                infile.header_footer_on_titlepage,
                file.header_footer_on_titlepage,
            ) {
                Some(b) => b,
                None => false,
            },
            sectionframes: match pick(cli.sectionframes, infile.sectionframes, file.sectionframes) {
                Some(b) => b,
                None => true,
            },
            beamertheme,
            classoptions,
            header_includes,
            geometry,
        })
    }
}

/// `cfg` is the configuration combined from the command line `args`, the input file's
/// configuration `infile`, the config file's `file`, and the surroundings `env`.
pub open spec fn config_built(cfg: Config, args: CliArgs, infile: FileConfig, file: FileConfig, env: ConfigEnv) -> bool {
    let cli = args.fileconfig;
    let out_type = match first3(cli.output_type, infile.output_type, file.output_type) {
        Some(t) => t,
        None => output_type_for(args.output),
    };
    let doc = match first3(cli.document_type, infile.document_type, file.document_type) {
        Some(d) => d,
        None => DocumentType::Article,
    };
    let cs = first3(cli.citationstyle, infile.citationstyle, file.citationstyle);
    &&& cfg.output_type == out_type
    &&& match args.output {
        Some(o) => cfg.output == o,
        None => cfg.output matches FileOrStdio::File(p) && Some(p@) == default_output_path(args.input, out_type),
    }
    &&& cfg.input == args.input
    &&& cfg.out_dir == match args.out_dir {
        Some(d) => d,
        None => env.temp_dir,
    }
    &&& cfg.temp_dir == env.temp_dir
    &&& cfg.document_folder == env.document_folder
    &&& cfg.project_root == match env.cfgfile_folder {
        Some(f) => f,
        None => env.document_folder,
    }
    &&& cfg.document_type == doc
    &&& Some(cfg.lang@) == language_of(opt_view(first3(cli.lang, infile.lang, file.lang)))
    &&& citation_view(cfg.citestyle) == match first3(cli.citestyle, infile.citestyle, file.citestyle) {
        Some(c) => citation_view(c),
        None => match cs {
            Some(c) => citation_view(c),
            None => (Some(CitationStyle::NumericComp), Seq::empty()),
        },
    }
    &&& citation_view(cfg.bibstyle) == match first3(cli.bibstyle, infile.bibstyle, file.bibstyle) {
        Some(c) => citation_view(c),
        None => match cs {
            Some(c) => citation_view(c),
            None => (Some(CitationStyle::Ieee), Seq::empty()),
        },
    }
    &&& cfg.figures == match first3(cli.figures, infile.figures, file.figures) {
        Some(f) => f,
        None => default_figures(doc),
    }
    &&& cfg.fontsize@ == match first3(cli.fontsize, infile.fontsize, file.fontsize) {
        Some(f) => f@,
        None => "11pt"@,
    }
    &&& cfg.oneside == match first3(cli.oneside, infile.oneside, file.oneside) {
        Some(b) => b,
        None => false,
    }
    &&& cfg.titlepage == match first3(cli.titlepage, infile.titlepage, file.titlepage) {
        Some(b) => b,
        None => true,
    }
    &&& texts_view(cfg.classoptions@) == add_all_unique(
        add_all_unique(
            add_all_unique(Seq::empty(), texts_view(cli.classoptions@)),
            texts_view(infile.classoptions@),
        ),
        texts_view(file.classoptions@),
    )
    &&& texts_view(cfg.header_includes@) == texts_view(cli.header_includes@) + texts_view(
        infile.header_includes@,
    ) + texts_view(file.header_includes@)
    &&& cfg.bibliography == env.bibliography
    &&& cfg.template == env.template
    &&& cfg.logo_university == env.logo_university
    &&& cfg.logo_faculty == env.logo_faculty
    &&& cfg.abstract1 == env.abstract1
    &&& cfg.abstract2 == env.abstract2
    &&& cfg.title == first3(cli.title, infile.title, file.title)
    &&& cfg.subtitle == first3(cli.subtitle, infile.subtitle, file.subtitle)
    &&& cfg.titlehead == first3(cli.titlehead, infile.titlehead, file.titlehead)
    &&& cfg.author == first3(cli.author, infile.author, file.author)
    &&& cfg.email == first3(cli.email, infile.email, file.email)
    &&& cfg.date == first3(cli.date, infile.date, file.date)
    &&& cfg.publisher == first3(cli.publisher, infile.publisher, file.publisher)
    &&& cfg.advisor == first3(cli.advisor, infile.advisor, file.advisor)
    &&& cfg.supervisor == first3(cli.supervisor, infile.supervisor, file.supervisor)
    &&& cfg.university == first3(cli.university, infile.university, file.university)
    &&& cfg.faculty == first3(cli.faculty, infile.faculty, file.faculty)
    &&& cfg.thesis_type == first3(cli.thesis_type, infile.thesis_type, file.thesis_type)
    &&& cfg.location == first3(cli.location, infile.location, file.location)
    &&& cfg.disclaimer == first3(cli.disclaimer, infile.disclaimer, file.disclaimer)
    &&& cfg.lhead == first3(cli.lhead, infile.lhead, file.lhead)
    &&& cfg.lhead_even == first3(cli.lhead_even, infile.lhead_even, file.lhead_even)
    &&& cfg.chead == first3(cli.chead, infile.chead, file.chead)
    &&& cfg.chead_even == first3(cli.chead_even, infile.chead_even, file.chead_even)
    &&& cfg.rhead == first3(cli.rhead, infile.rhead, file.rhead)
    &&& cfg.rhead_even == first3(cli.rhead_even, infile.rhead_even, file.rhead_even)
    &&& cfg.lfoot == first3(cli.lfoot, infile.lfoot, file.lfoot)
    &&& cfg.lfoot_even == first3(cli.lfoot_even, infile.lfoot_even, file.lfoot_even)
    &&& cfg.cfoot == first3(cli.cfoot, infile.cfoot, file.cfoot)
    &&& cfg.cfoot_even == first3(cli.cfoot_even, infile.cfoot_even, file.cfoot_even)
    &&& cfg.rfoot == first3(cli.rfoot, infile.rfoot, file.rfoot)
    &&& cfg.rfoot_even == first3(cli.rfoot_even, infile.rfoot_even, file.rfoot_even)
    &&& cfg.header_footer_on_titlepage == match first3(
        cli.header_footer_on_titlepage,
        infile.header_footer_on_titlepage,
        file.header_footer_on_titlepage,
    ) {
        Some(b) => b,
        None => false,
    }
    &&& cfg.sectionframes == match first3(cli.sectionframes, infile.sectionframes, file.sectionframes) {
        Some(b) => b,
        None => true,
    }
    &&& cfg.beamertheme@ == match first3(cli.beamertheme, infile.beamertheme, file.beamertheme) {
        Some(t) => t@,
        None => "Madrid"@,
    }
    &&& geometry_merged3(cfg.geometry, cli.geometry, infile.geometry, file.geometry)
}

/// A parsed citation style prints as the text it was parsed from.
pub proof fn law_citation_style_name_of_parse(s: Seq<char>)
    ensures
        citation_style_parse(s) matches Some(c) ==> citation_style_name(c) == s,
{
}

/// A parsed document type prints as the text it was parsed from.
pub proof fn law_document_type_name_of_parse(s: Seq<char>)
    ensures
        document_type_parse(s) matches Some(d) ==> document_type_name(d) == s,
{
}

/// A citation style read from a text, known or not, prints as that text: `m` is what
/// `MaybeUnknown::from_str` makes of `s`.
pub proof fn law_maybe_unknown_roundtrip(s: Seq<char>, m: MaybeUnknown<CitationStyle>)
    requires
        match citation_style_parse(s) {
            Some(c) => (m matches MaybeUnknown::Known(k) && k == c),
            None => (m matches MaybeUnknown::Unknown(u) && u@ == s),
        },
    ensures
        citation_text(m) == s,
{
}

/// Settings given on the command line override those in the input file's header, which
/// override those in the config file, which override the defaults; shown for the document
/// type, the title and whether there is a title page.
pub proof fn law_settings_precedence(
    cfg: Config,
    args: CliArgs,
    infile: FileConfig,
    file: FileConfig,
    env: ConfigEnv,
)
    requires
        config_built(cfg, args, infile, file, env),
    ensures
        args.fileconfig.document_type matches Some(d) ==> cfg.document_type == d,
        args.fileconfig.document_type is None ==> (infile.document_type matches Some(d)
            ==> cfg.document_type == d),
        args.fileconfig.document_type is None && infile.document_type is None ==> (
        file.document_type matches Some(d) ==> cfg.document_type == d),
        args.fileconfig.document_type is None && infile.document_type is None
            && file.document_type is None ==> cfg.document_type == DocumentType::Article,
        args.fileconfig.title is Some ==> cfg.title == args.fileconfig.title,
        args.fileconfig.title is None ==> (infile.title is Some ==> cfg.title == infile.title),
        args.fileconfig.title is None && infile.title is None ==> cfg.title == file.title,
        args.fileconfig.titlepage matches Some(b) ==> cfg.titlepage == b,
        args.fileconfig.titlepage is None && infile.titlepage is None && file.titlepage is None
            ==> cfg.titlepage,
{
}

} // verus!

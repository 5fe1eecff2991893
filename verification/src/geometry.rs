//! Page geometry: paper size, orientation, margins and the options handed to the LaTeX
//! `geometry` package.
use vstd::prelude::*;

use crate::config::MaybeUnknown;
use crate::text::{
    ascii_lower_seq, chars_of, lemma_occurs_append, lemma_occurs_between, occurs_at, occurs_in, push_str, str_eq,
    string_from_chars, string_from_range, trim,
};
use crate::ext::str_eq_ignore_ascii_case;

verus! {

/// The text of `s` in Unicode lowercase (`str::to_lowercase`).
pub uninterp spec fn unicode_lower(s: Seq<char>) -> Seq<char>;

/// Every character of `s` is ASCII.
pub open spec fn all_ascii(s: Seq<char>) -> bool {
    forall|i: int| 0 <= i < s.len() ==> (#[trigger] s[i] as u32) < 128
}

/// The lowercase of `s`: ASCII lowercase for an ASCII text, else the Unicode lowercase
/// mapping.
pub open spec fn lowercase(s: Seq<char>) -> Seq<char> {
    if all_ascii(s) {
        ascii_lower_seq(s)
    } else {
        unicode_lower(s)
    }
}

/// `str::to_lowercase`.
///
/// Trusted: the contract claims that the result is the Unicode lowercase mapping of `s`,
/// named by `unicode_lower`, and that on ASCII text it maps `A..=Z` to `a..=z` and keeps
/// every other character (as `to_ascii_lowercase` does); the mapping's tables beyond ASCII
/// are not stated.
#[verifier::external_body]
fn to_lowercase(s: &str) -> (r: String)
    ensures
        r@ == unicode_lower(s@),
        all_ascii(s@) ==> r@ == ascii_lower_seq(s@),
{
    s.to_lowercase()
}

/// The text of `s` as `{:?}` formats it: quoted, with escapes.
pub uninterp spec fn debug_text(s: Seq<char>) -> Seq<char>;

/// `format!("{:?}", s)` on a string.
///
/// Trusted: the contract claims only that the result is the debug formatting of `s`,
/// named by `debug_text`; the escaping rules are not stated.
#[verifier::external_body]
pub(crate) fn debug_quoted(s: &str) -> (r: String)
    ensures
        r@ == debug_text(s@),
{
    format!("{:?}", s)
}

/// A paper size of the LaTeX `geometry` package.
#[derive(Debug, Clone)]
pub enum Papersize {
    A0paper,
    A1paper,
    A2paper,
    A3paper,
    A4paper,
    A5paper,
    A6paper,
    B0paper,
    B1paper,
    B2paper,
    B3paper,
    B4paper,
    B5paper,
    B6paper,
    C0paper,
    C1paper,
    C2paper,
    C3paper,
    C4paper,
    C5paper,
    C6paper,
    B0j,
    B1j,
    B2j,
    B3j,
    B4j,
    B5j,
    B6j,
    AnsiAPaper,
    AnsiBPaper,
    AnsiCPaper,
    AnsiDPaper,
    AnsiEPaper,
    Letterpaper,
    Executivepaper,
    Legalpaper,
    /// `papersize = "{30cm, 15cm}"`
    Custom(String, String),
}

/// Mathematical view of a [`Papersize`]: the variant's position, and for a custom size its
/// width and height.
pub open spec fn paper_view(p: Papersize) -> (int, Seq<char>, Seq<char>) {
    match p {
        Papersize::A0paper => (0, Seq::empty(), Seq::empty()),
        Papersize::A1paper => (1, Seq::empty(), Seq::empty()),
        Papersize::A2paper => (2, Seq::empty(), Seq::empty()),
        Papersize::A3paper => (3, Seq::empty(), Seq::empty()),
        Papersize::A4paper => (4, Seq::empty(), Seq::empty()),
        Papersize::A5paper => (5, Seq::empty(), Seq::empty()),
        Papersize::A6paper => (6, Seq::empty(), Seq::empty()),
        Papersize::B0paper => (7, Seq::empty(), Seq::empty()),
        Papersize::B1paper => (8, Seq::empty(), Seq::empty()),
        Papersize::B2paper => (9, Seq::empty(), Seq::empty()),
        Papersize::B3paper => (10, Seq::empty(), Seq::empty()),
        Papersize::B4paper => (11, Seq::empty(), Seq::empty()),
        Papersize::B5paper => (12, Seq::empty(), Seq::empty()),
        Papersize::B6paper => (13, Seq::empty(), Seq::empty()),
        Papersize::C0paper => (14, Seq::empty(), Seq::empty()),
        Papersize::C1paper => (15, Seq::empty(), Seq::empty()),
        Papersize::C2paper => (16, Seq::empty(), Seq::empty()),
        Papersize::C3paper => (17, Seq::empty(), Seq::empty()),
        Papersize::C4paper => (18, Seq::empty(), Seq::empty()),
        Papersize::C5paper => (19, Seq::empty(), Seq::empty()),
        Papersize::C6paper => (20, Seq::empty(), Seq::empty()),
        Papersize::B0j => (21, Seq::empty(), Seq::empty()),
        Papersize::B1j => (22, Seq::empty(), Seq::empty()),
        Papersize::B2j => (23, Seq::empty(), Seq::empty()),
        Papersize::B3j => (24, Seq::empty(), Seq::empty()),
        Papersize::B4j => (25, Seq::empty(), Seq::empty()),
        Papersize::B5j => (26, Seq::empty(), Seq::empty()),
        Papersize::B6j => (27, Seq::empty(), Seq::empty()),
        Papersize::AnsiAPaper => (28, Seq::empty(), Seq::empty()),
        Papersize::AnsiBPaper => (29, Seq::empty(), Seq::empty()),
        Papersize::AnsiCPaper => (30, Seq::empty(), Seq::empty()),
        Papersize::AnsiDPaper => (31, Seq::empty(), Seq::empty()),
        Papersize::AnsiEPaper => (32, Seq::empty(), Seq::empty()),
        Papersize::Letterpaper => (33, Seq::empty(), Seq::empty()),
        Papersize::Executivepaper => (34, Seq::empty(), Seq::empty()),
        Papersize::Legalpaper => (35, Seq::empty(), Seq::empty()),
        Papersize::Custom(width, height) => (36, width@, height@),
    }
}

/// `l` is a custom paper size `{width,height}`.
pub open spec fn is_custom_paper(l: Seq<char>) -> bool {
    &&& l.len() > 0
    &&& l[0] == '{'
    &&& l.last() == '}'
    &&& l.contains(',')
}

/// Position of the first comma of `l`.
pub open spec fn first_comma(l: Seq<char>) -> int {
    choose|i: int| 0 <= i < l.len() && l[i] == ',' && forall|j: int| 0 <= j < i ==> l[j] != ','
}

/// The paper size named by the lowercase text `l`.
pub open spec fn papersize_parse(l: Seq<char>) -> Option<(int, Seq<char>, Seq<char>)> {
    if l == "a0"@ || l == "a0paper"@ {
        Some((0, Seq::empty(), Seq::empty()))
    } else if l == "a1"@ || l == "a1paper"@ {
        Some((1, Seq::empty(), Seq::empty()))
    } else if l == "a2"@ || l == "a2paper"@ {
        Some((2, Seq::empty(), Seq::empty()))
    } else if l == "a3"@ || l == "a3paper"@ {
        Some((3, Seq::empty(), Seq::empty()))
    } else if l == "a4"@ || l == "a4paper"@ {
        Some((4, Seq::empty(), Seq::empty()))
    } else if l == "a5"@ || l == "a5paper"@ {
        Some((5, Seq::empty(), Seq::empty()))
    } else if l == "a6"@ || l == "a6paper"@ {
        Some((6, Seq::empty(), Seq::empty()))
    } else if l == "b0"@ || l == "b0paper"@ {
        Some((7, Seq::empty(), Seq::empty()))
    } else if l == "b1"@ || l == "b1paper"@ {
        Some((8, Seq::empty(), Seq::empty()))
    } else if l == "b2"@ || l == "b2paper"@ {
        Some((9, Seq::empty(), Seq::empty()))
    } else if l == "b3"@ || l == "b3paper"@ {
        Some((10, Seq::empty(), Seq::empty()))
    } else if l == "b4"@ || l == "b4paper"@ {
        Some((11, Seq::empty(), Seq::empty()))
    } else if l == "b5"@ || l == "b5paper"@ {
        Some((12, Seq::empty(), Seq::empty()))
    } else if l == "b6"@ || l == "b6paper"@ {
        Some((13, Seq::empty(), Seq::empty()))
    } else if l == "c0"@ || l == "c0paper"@ {
        Some((14, Seq::empty(), Seq::empty()))
    } else if l == "c1"@ || l == "c1paper"@ {
        Some((15, Seq::empty(), Seq::empty()))
    } else if l == "c2"@ || l == "c2paper"@ {
        Some((16, Seq::empty(), Seq::empty()))
    } else if l == "c3"@ || l == "c3paper"@ {
        Some((17, Seq::empty(), Seq::empty()))
    } else if l == "c4"@ || l == "c4paper"@ {
        Some((18, Seq::empty(), Seq::empty()))
    } else if l == "c5"@ || l == "c5paper"@ {
        Some((19, Seq::empty(), Seq::empty()))
    } else if l == "c6"@ || l == "c6paper"@ {
        Some((20, Seq::empty(), Seq::empty()))
    } else if l == "b0j"@ {
        Some((21, Seq::empty(), Seq::empty()))
    } else if l == "b1j"@ {
        Some((22, Seq::empty(), Seq::empty()))
    } else if l == "b2j"@ {
        Some((23, Seq::empty(), Seq::empty()))
    } else if l == "b3j"@ {
        Some((24, Seq::empty(), Seq::empty()))
    } else if l == "b4j"@ {
        Some((25, Seq::empty(), Seq::empty()))
    } else if l == "b5j"@ {
        Some((26, Seq::empty(), Seq::empty()))
    } else if l == "b6j"@ {
        Some((27, Seq::empty(), Seq::empty()))
    } else if l == "ansia"@ || l == "ansiapaper"@ {
        Some((28, Seq::empty(), Seq::empty()))
    } else if l == "ansib"@ || l == "ansibpaper"@ {
        Some((29, Seq::empty(), Seq::empty()))
    } else if l == "ansic"@ || l == "ansicpaper"@ {
        Some((30, Seq::empty(), Seq::empty()))
    } else if l == "ansid"@ || l == "ansidpaper"@ {
        Some((31, Seq::empty(), Seq::empty()))
    } else if l == "ansie"@ || l == "ansiepaper"@ {
        Some((32, Seq::empty(), Seq::empty()))
    } else if l == "letter"@ || l == "letterpaper"@ {
        Some((33, Seq::empty(), Seq::empty()))
    } else if l == "executive"@ || l == "executivepaper"@ {
        Some((34, Seq::empty(), Seq::empty()))
    } else if l == "legal"@ || l == "legalpaper"@ {
        Some((35, Seq::empty(), Seq::empty()))
    } else if is_custom_paper(l) {
        let c = first_comma(l);
        Some((36, l.subrange(1, c), trim(l.subrange(c + 1, l.len() - 1))))
    } else {
        None
    }
}

/// The option text of a paper size.
pub open spec fn paper_text(v: (int, Seq<char>, Seq<char>)) -> Seq<char> {
    if v.0 == 0 {
        "a0paper"@
    } else if v.0 == 1 {
        "a1paper"@
    } else if v.0 == 2 {
        "a2paper"@
    } else if v.0 == 3 {
        "a3paper"@
    } else if v.0 == 4 {
        "a4paper"@
    } else if v.0 == 5 {
        "a5paper"@
    } else if v.0 == 6 {
        "a6paper"@
    } else if v.0 == 7 {
        "b0paper"@
    } else if v.0 == 8 {
        "b1paper"@
    } else if v.0 == 9 {
        "b2paper"@
    } else if v.0 == 10 {
        "b3paper"@
    } else if v.0 == 11 {
        "b4paper"@
    } else if v.0 == 12 {
        "b5paper"@
    } else if v.0 == 13 {
        "b6paper"@
    } else if v.0 == 14 {
        "c0paper"@
    } else if v.0 == 15 {
        "c1paper"@
    } else if v.0 == 16 {
        "c2paper"@
    } else if v.0 == 17 {
        "c3paper"@
    } else if v.0 == 18 {
        "c4paper"@
    } else if v.0 == 19 {
        "c5paper"@
    } else if v.0 == 20 {
        "c6paper"@
    } else if v.0 == 21 {
        "b0j"@
    } else if v.0 == 22 {
        "b1j"@
    } else if v.0 == 23 {
        "b2j"@
    } else if v.0 == 24 {
        "b3j"@
    } else if v.0 == 25 {
        "b4j"@
    } else if v.0 == 26 {
        "b5j"@
    } else if v.0 == 27 {
        "b6j"@
    } else if v.0 == 28 {
        "ansiapaper"@
    } else if v.0 == 29 {
        "ansibpaper"@
    } else if v.0 == 30 {
        "ansicpaper"@
    } else if v.0 == 31 {
        "ansidpaper"@
    } else if v.0 == 32 {
        "ansiepaper"@
    } else if v.0 == 33 {
        "letterpaper"@
    } else if v.0 == 34 {
        "executivepaper"@
    } else if v.0 == 35 {
        "legalpaper"@
    } else {
        "papersize={"@ + v.1 + ","@ + v.2 + "}"@
    }
}

/// Position of the first `c` in `v`, if any.
fn find_char_in(v: &Vec<char>, c: char) -> (r: Option<usize>)
    ensures
        match r {
            Some(i) => i < v@.len() && v@[i as int] == c && forall|j: int| 0 <= j < i ==> v@[j] != c,
            None => !v@.contains(c),
        },
{
    let mut i: usize = 0;
    while i < v.len()
        invariant
            i <= v@.len(),
            forall|j: int| 0 <= j < i ==> v@[j] != c,
        decreases v@.len() - i,
    {
        if v[i] == c {
            return Some(i);
        }
        i = i + 1;
    }
    None
}

impl Papersize {
    /// Parses a paper size, ignoring case.
    pub fn from_str(s: &str) -> (r: Result<Papersize, String>)
        ensures
            match r {
                Ok(p) => papersize_parse(lowercase(s@)) == Some(paper_view(p)),
                Err(e) => papersize_parse(lowercase(s@)) is None && e@ == "unknown papersize "@
                    + debug_text(lowercase(s@)),
            },
    {
        let lower = to_lowercase(s);
        let l = lower.as_str();
        if str_eq(l, "a0") || str_eq(l, "a0paper") {
            return Ok(Papersize::A0paper);
        }
        if str_eq(l, "a1") || str_eq(l, "a1paper") {
            return Ok(Papersize::A1paper);
        }
        if str_eq(l, "a2") || str_eq(l, "a2paper") {
            return Ok(Papersize::A2paper);
        }
        if str_eq(l, "a3") || str_eq(l, "a3paper") {
            return Ok(Papersize::A3paper);
        }
        if str_eq(l, "a4") || str_eq(l, "a4paper") {
            return Ok(Papersize::A4paper);
        }
        if str_eq(l, "a5") || str_eq(l, "a5paper") {
            return Ok(Papersize::A5paper);
        }
        if str_eq(l, "a6") || str_eq(l, "a6paper") {
            return Ok(Papersize::A6paper);
        }
        if str_eq(l, "b0") || str_eq(l, "b0paper") {
            return Ok(Papersize::B0paper);
        }
        if str_eq(l, "b1") || str_eq(l, "b1paper") {
            return Ok(Papersize::B1paper);
        }
        if str_eq(l, "b2") || str_eq(l, "b2paper") {
            return Ok(Papersize::B2paper);
        }
        if str_eq(l, "b3") || str_eq(l, "b3paper") {
            return Ok(Papersize::B3paper);
        }
        if str_eq(l, "b4") || str_eq(l, "b4paper") {
            return Ok(Papersize::B4paper);
        }
        if str_eq(l, "b5") || str_eq(l, "b5paper") {
            return Ok(Papersize::B5paper);
        }
        if str_eq(l, "b6") || str_eq(l, "b6paper") {
            return Ok(Papersize::B6paper);
        }
        if str_eq(l, "c0") || str_eq(l, "c0paper") {
            return Ok(Papersize::C0paper);
        }
        if str_eq(l, "c1") || str_eq(l, "c1paper") {
            return Ok(Papersize::C1paper);
        }
        if str_eq(l, "c2") || str_eq(l, "c2paper") {
            return Ok(Papersize::C2paper);
        }
        if str_eq(l, "c3") || str_eq(l, "c3paper") {
            return Ok(Papersize::C3paper);
        }
        if str_eq(l, "c4") || str_eq(l, "c4paper") {
            return Ok(Papersize::C4paper);
        }
        if str_eq(l, "c5") || str_eq(l, "c5paper") {
            return Ok(Papersize::C5paper);
        }
        if str_eq(l, "c6") || str_eq(l, "c6paper") {
            return Ok(Papersize::C6paper);
        }
        if str_eq(l, "b0j") {
            return Ok(Papersize::B0j);
        }
        if str_eq(l, "b1j") {
            return Ok(Papersize::B1j);
        }
        if str_eq(l, "b2j") {
            return Ok(Papersize::B2j);
        }
        if str_eq(l, "b3j") {
            return Ok(Papersize::B3j);
        }
        if str_eq(l, "b4j") {
            return Ok(Papersize::B4j);
        }
        if str_eq(l, "b5j") {
            return Ok(Papersize::B5j);
        }
        if str_eq(l, "b6j") {
            return Ok(Papersize::B6j);
        }
        if str_eq(l, "ansia") || str_eq(l, "ansiapaper") {
            return Ok(Papersize::AnsiAPaper);
        }
        if str_eq(l, "ansib") || str_eq(l, "ansibpaper") {
            return Ok(Papersize::AnsiBPaper);
        }
        if str_eq(l, "ansic") || str_eq(l, "ansicpaper") {
            return Ok(Papersize::AnsiCPaper);
        }
        if str_eq(l, "ansid") || str_eq(l, "ansidpaper") {
            return Ok(Papersize::AnsiDPaper);
        }
        if str_eq(l, "ansie") || str_eq(l, "ansiepaper") {
            return Ok(Papersize::AnsiEPaper);
        }
        if str_eq(l, "letter") || str_eq(l, "letterpaper") {
            return Ok(Papersize::Letterpaper);
        }
        if str_eq(l, "executive") || str_eq(l, "executivepaper") {
            return Ok(Papersize::Executivepaper);
        }
        if str_eq(l, "legal") || str_eq(l, "legalpaper") {
            return Ok(Papersize::Legalpaper);
        }
        let v = chars_of(l);
        if v.len() > 0 && v[0] == '{' && v[v.len() - 1] == '}' {
            match find_char_in(&v, ',') {
                Some(comma) => {
                    let width = string_from_range(v.as_slice(), 1, comma);
                    let mut height = string_from_range(v.as_slice(), comma + 1, v.len() - 1);
                    crate::ext::CowExt::trim_inplace(&mut height);
                    proof {
                        let c = first_comma(v@);
                        assert(v@.contains(','));
                        assert(c == comma as int) by {
                            if c < comma {
                                assert(v@[c] == ',');
                            } else if c > comma {
                                assert(v@[comma as int] == ',');
                            }
                        }
                    }
                    return Ok(Papersize::Custom(width, height));
                },
                None => {},
            }
        }
        let mut e = String::new();
        push_str(&mut e, "unknown papersize ");
        let q = debug_quoted(l);
        push_str(&mut e, q.as_str());
        Err(e)
    }

    /// The option text of the paper size.
    pub fn to_string(&self) -> (r: String)
        ensures
            r@ == paper_text(paper_view(*self)),
    {
        match self {
            Papersize::A0paper => {
                let mut r = String::new();
                push_str(&mut r, "a0paper");
                r
            },
            Papersize::A1paper => {
                let mut r = String::new();
                push_str(&mut r, "a1paper");
                r
            },
            Papersize::A2paper => {
                let mut r = String::new();
                push_str(&mut r, "a2paper");
                r
            },
            Papersize::A3paper => {
                let mut r = String::new();
                push_str(&mut r, "a3paper");
                r
            },
            Papersize::A4paper => {
                let mut r = String::new();
                push_str(&mut r, "a4paper");
                r
            },
            Papersize::A5paper => {
                let mut r = String::new();
                push_str(&mut r, "a5paper");
                r
            },
            Papersize::A6paper => {
                let mut r = String::new();
                push_str(&mut r, "a6paper");
                r
            },
            Papersize::B0paper => {
                let mut r = String::new();
                push_str(&mut r, "b0paper");
                r
            },
            Papersize::B1paper => {
                let mut r = String::new();
                push_str(&mut r, "b1paper");
                r
            },
            Papersize::B2paper => {
                let mut r = String::new();
                push_str(&mut r, "b2paper");
                r
            },
            Papersize::B3paper => {
                let mut r = String::new();
                push_str(&mut r, "b3paper");
                r
            },
            Papersize::B4paper => {
                let mut r = String::new();
                push_str(&mut r, "b4paper");
                r
            },
            Papersize::B5paper => {
                let mut r = String::new();
                push_str(&mut r, "b5paper");
                r
            },
            Papersize::B6paper => {
                let mut r = String::new();
                push_str(&mut r, "b6paper");
                r
            },
            Papersize::C0paper => {
                let mut r = String::new();
                push_str(&mut r, "c0paper");
                r
            },
            Papersize::C1paper => {
                let mut r = String::new();
                push_str(&mut r, "c1paper");
                r
            },
            Papersize::C2paper => {
                let mut r = String::new();
                push_str(&mut r, "c2paper");
                r
            },
            Papersize::C3paper => {
                let mut r = String::new();
                push_str(&mut r, "c3paper");
                r
            },
            Papersize::C4paper => {
                let mut r = String::new();
                push_str(&mut r, "c4paper");
                r
            },
            Papersize::C5paper => {
                let mut r = String::new();
                push_str(&mut r, "c5paper");
                r
            },
            Papersize::C6paper => {
                let mut r = String::new();
                push_str(&mut r, "c6paper");
                r
            },
            Papersize::B0j => {
                let mut r = String::new();
                push_str(&mut r, "b0j");
                r
            },
            Papersize::B1j => {
                let mut r = String::new();
                push_str(&mut r, "b1j");
                r
            },
            Papersize::B2j => {
                let mut r = String::new();
                push_str(&mut r, "b2j");
                r
            },
            Papersize::B3j => {
                let mut r = String::new();
                push_str(&mut r, "b3j");
                r
            },
            Papersize::B4j => {
                let mut r = String::new();
                push_str(&mut r, "b4j");
                r
            },
            Papersize::B5j => {
                let mut r = String::new();
                push_str(&mut r, "b5j");
                r
            },
            Papersize::B6j => {
                let mut r = String::new();
                push_str(&mut r, "b6j");
                r
            },
            Papersize::AnsiAPaper => {
                let mut r = String::new();
                push_str(&mut r, "ansiapaper");
                r
            },
            Papersize::AnsiBPaper => {
                let mut r = String::new();
                push_str(&mut r, "ansibpaper");
                r
            },
            Papersize::AnsiCPaper => {
                let mut r = String::new();
                push_str(&mut r, "ansicpaper");
                r
            },
            Papersize::AnsiDPaper => {
                let mut r = String::new();
                push_str(&mut r, "ansidpaper");
                r
            },
            Papersize::AnsiEPaper => {
                let mut r = String::new();
                push_str(&mut r, "ansiepaper");
                r
            },
            Papersize::Letterpaper => {
                let mut r = String::new();
                push_str(&mut r, "letterpaper");
                r
            },
            Papersize::Executivepaper => {
                let mut r = String::new();
                push_str(&mut r, "executivepaper");
                r
            },
            Papersize::Legalpaper => {
                let mut r = String::new();
                push_str(&mut r, "legalpaper");
                r
            },
            Papersize::Custom(width, height) => {
                let mut r = String::new();
                push_str(&mut r, "papersize={");
                push_str(&mut r, width.as_str());
                push_str(&mut r, ",");
                push_str(&mut r, height.as_str());
                push_str(&mut r, "}");
                r
            },
        }
    }
}

/// Default paper size: A4.
impl Default for Papersize {
    fn default() -> (r: Papersize)
        ensures
            r is A4paper,
    {
        Papersize::A4paper
    }
}

/// Page orientation.
#[derive(Debug, Clone, Copy, PartialEq, Eq, Structural)]
pub enum Orientation {
    Portrait,
    Landscape,
}

impl Orientation {
    /// Parses an orientation, ignoring ASCII case.
    pub fn from_str(s: &str) -> (r: Result<Orientation, String>)
        ensures
            match r {
                Ok(o) => (o == Orientation::Portrait && crate::text::eq_ignore_case(s@, "portrait"@))
                    || (o == Orientation::Landscape && !crate::text::eq_ignore_case(s@, "portrait"@)
                    && crate::text::eq_ignore_case(s@, "landscape"@)),
                Err(e) => !crate::text::eq_ignore_case(s@, "portrait"@) && !crate::text::eq_ignore_case(
                    s@,
                    "landscape"@,
                ) && e@ == "unknown orientation "@ + debug_text(s@),
            },
    {
        if str_eq_ignore_ascii_case(s, "portrait") {
            Ok(Orientation::Portrait)
        } else if str_eq_ignore_ascii_case(s, "landscape") {
            Ok(Orientation::Landscape)
        } else {
            let mut e = String::new();
            push_str(&mut e, "unknown orientation ");
            let q = debug_quoted(s);
            push_str(&mut e, q.as_str());
            Err(e)
        }
    }

    /// The option text of the orientation.
    pub fn to_string(&self) -> (r: String)
        ensures
            r@ == (if *self == Orientation::Portrait { "portrait"@ } else { "landscape"@ }),
    {
        let mut r = String::new();
        match self {
            Orientation::Portrait => push_str(&mut r, "portrait"),
            Orientation::Landscape => push_str(&mut r, "landscape"),
        }
        r
    }
}

/// Key-value pairs viewed as texts.
pub open spec fn pairs_view(v: Seq<(String, String)>) -> Seq<(Seq<char>, Seq<char>)> {
    Seq::new(v.len(), |i: int| (v[i].0@, v[i].1@))
}

/// The key `k` occurs in `m`.
pub open spec fn has_key(m: Seq<(Seq<char>, Seq<char>)>, k: Seq<char>) -> bool {
    exists|i: int| 0 <= i < m.len() && m[i].0 == k
}

/// No key occurs twice.
pub open spec fn unique_keys(m: Seq<(Seq<char>, Seq<char>)>) -> bool {
    forall|i: int, j: int| 0 <= i < j < m.len() ==> m[i].0 != m[j].0
}

/// Position of the first pair with key `k`.
pub open spec fn key_index(m: Seq<(Seq<char>, Seq<char>)>, k: Seq<char>) -> int {
    choose|i: int| 0 <= i < m.len() && m[i].0 == k && forall|j: int| 0 <= j < i ==> m[j].0 != k
}

pub proof fn lemma_key_index(m: Seq<(Seq<char>, Seq<char>)>, k: Seq<char>, i: int)
    requires
        0 <= i < m.len(),
        m[i].0 == k,
        forall|j: int| 0 <= j < i ==> m[j].0 != k,
    ensures
        key_index(m, k) == i,
{
    let c = key_index(m, k);
    if c < i {
    }
    if c > i {
    }
}

/// `m` with `k` set to `v`: the pair of key `k` is replaced in place, or appended.
pub open spec fn put(m: Seq<(Seq<char>, Seq<char>)>, k: Seq<char>, v: Seq<char>) -> Seq<
    (Seq<char>, Seq<char>),
> {
    if has_key(m, k) {
        m.update(key_index(m, k), (k, v))
    } else {
        m.push((k, v))
    }
}

/// `m` with every pair of `items` set, in order.
pub open spec fn put_all(m: Seq<(Seq<char>, Seq<char>)>, items: Seq<(Seq<char>, Seq<char>)>) -> Seq<
    (Seq<char>, Seq<char>),
>
    decreases items.len(),
{
    if items.len() == 0 {
        m
    } else {
        let prev = put_all(m, items.drop_last());
        put(prev, items.last().0, items.last().1)
    }
}

proof fn lemma_first_key(m: Seq<(Seq<char>, Seq<char>)>, k: Seq<char>, i0: int)
    requires
        0 <= i0 < m.len(),
        m[i0].0 == k,
    ensures
        exists|i: int| 0 <= i < m.len() && m[i].0 == k && forall|j: int| 0 <= j < i ==> m[j].0 != k,
    decreases i0,
{
    if exists|j: int| 0 <= j < i0 && m[j].0 == k {
        let j = choose|j: int| 0 <= j < i0 && m[j].0 == k;
        lemma_first_key(m, k, j);
    }
}

pub proof fn lemma_put_unique(m: Seq<(Seq<char>, Seq<char>)>, k: Seq<char>, v: Seq<char>)
    requires
        unique_keys(m),
    ensures
        unique_keys(put(m, k, v)),
        has_key(put(m, k, v), k),
        forall|k2: Seq<char>| has_key(m, k2) ==> has_key(put(m, k, v), k2),
{
    let r = put(m, k, v);
    if has_key(m, k) {
        let i0 = choose|i: int| 0 <= i < m.len() && m[i].0 == k;
        let i = choose|i: int| 0 <= i < m.len() && m[i].0 == k && forall|j: int| 0 <= j < i ==> m[j].0 != k;
        assert(exists|i: int| 0 <= i < m.len() && m[i].0 == k && forall|j: int| 0 <= j < i ==> m[j].0 != k) by {
            lemma_first_key(m, k, i0);
        }
        assert(r[i].0 == k);
        assert forall|k2: Seq<char>| has_key(m, k2) implies has_key(r, k2) by {
            let j = choose|j: int| 0 <= j < m.len() && m[j].0 == k2;
            assert(r[j].0 == k2);
        }
    } else {
        assert(r[m.len() as int].0 == k);
        assert forall|k2: Seq<char>| has_key(m, k2) implies has_key(r, k2) by {
            let j = choose|j: int| 0 <= j < m.len() && m[j].0 == k2;
            assert(r[j].0 == k2);
        }
    }
}

pub proof fn lemma_put_all_unique(m: Seq<(Seq<char>, Seq<char>)>, items: Seq<(Seq<char>, Seq<char>)>)
    requires
        unique_keys(m),
    ensures
        unique_keys(put_all(m, items)),
    decreases items.len(),
{
    if items.len() > 0 {
        lemma_put_all_unique(m, items.drop_last());
        lemma_put_unique(put_all(m, items.drop_last()), items.last().0, items.last().1);
    }
}

/// Sets `k` to `v` in the key-value pairs `m`.
fn put_pair(m: &mut Vec<(String, String)>, k: String, v: String)
    ensures
        pairs_view(final(m)@) == put(pairs_view(old(m)@), k@, v@),
{
    let ghost mv = pairs_view(m@);
    let mut i: usize = 0;
    while i < m.len()
        invariant
            i <= m@.len(),
            mv == pairs_view(m@),
            mv == pairs_view(old(m)@),
            forall|j: int| 0 <= j < i ==> m@[j].0@ != k@,
        decreases m@.len() - i,
    {
        if str_eq(m[i].0.as_str(), k.as_str()) {
            proof {
                assert(mv[i as int].0 == k@);
                assert(has_key(mv, k@));
                assert forall|j: int| 0 <= j < i implies mv[j].0 != k@ by {
                    assert(mv[j].0 == m@[j].0@);
                }
                lemma_key_index(mv, k@, i as int);
            }
            m.set(i, (k, v));
            proof {
                assert(pairs_view(m@) =~= put(mv, k@, v@));
            }
            return;
        }
        i = i + 1;
    }
    proof {
        assert(!has_key(mv, k@)) by {
            if has_key(mv, k@) {
                let c = choose|c: int| 0 <= c < mv.len() && mv[c].0 == k@;
                assert(mv[c].0 == m@[c].0@);
            }
        }
    }
    m.push((k, v));
    assert(pairs_view(m@) =~= put(mv, k@, v@));
}

/// Sets every pair of `items` in `m`, in order.
fn put_pairs(m: &mut Vec<(String, String)>, items: Vec<(String, String)>)
    ensures
        pairs_view(final(m)@) == put_all(pairs_view(old(m)@), pairs_view(items@)),
{
    let ghost m0 = pairs_view(m@);
    let ghost iv = pairs_view(items@);
    let mut items = items;
    let mut n: usize = 0;
    let total = items.len();
    while items.len() > 0
        invariant
            n + items@.len() == total,
            total == iv.len(),
            pairs_view(items@) == iv.skip(n as int),
            pairs_view(m@) == put_all(m0, iv.take(n as int)),
        decreases items@.len(),
    {
        let ghost before = items@;
        let (k, v) = items.remove(0);
        proof {
            assert(pairs_view(items@) =~= pairs_view(before).skip(1));
            assert(iv.skip(n as int)[0] == iv[n as int]);
            assert(iv.take(n + 1).drop_last() =~= iv.take(n as int));
            assert(iv.take(n + 1).last() == iv[n as int]);
            assert(pairs_view(items@) =~= iv.skip(n + 1));
        }
        put_pair(m, k, v);
        n = n + 1;
    }
    assert(iv.take(n as int) =~= iv);
}

/// Page geometry of the LaTeX `geometry` package.
#[derive(Debug, Clone, Default)]
pub struct Geometry {
    pub papersize: Option<MaybeUnknown<Papersize>>,
    pub orientation: Option<MaybeUnknown<Orientation>>,
    pub margin: Option<String>,
    pub textwidth: Option<String>,
    pub textheight: Option<String>,
    pub total: Option<String>,
    pub left: Option<String>,
    pub lmargin: Option<String>,
    pub inner: Option<String>,
    pub right: Option<String>,
    pub rmargin: Option<String>,
    pub outer: Option<String>,
    pub top: Option<String>,
    pub tmargin: Option<String>,
    pub bottom: Option<String>,
    pub bmargin: Option<String>,
    pub headheight: Option<String>,
    pub footsep: Option<String>,
    pub footskip: Option<String>,
    pub marginparwidth: Option<String>,
    pub marginpar: Option<String>,
    /// Further options, each key once.
    pub others: Option<Vec<(String, String)>>,
}

/// The first of two optional values that is there.
pub open spec fn first_some<T>(a: Option<T>, b: Option<T>) -> Option<T> {
    if a is Some {
        a
    } else {
        b
    }
}

/// The merged further options: the left pairs, from the source that takes precedence, are
/// set over the right ones.
pub open spec fn merge_others(
    a: Option<Seq<(Seq<char>, Seq<char>)>>,
    b: Option<Seq<(Seq<char>, Seq<char>)>>,
) -> Option<Seq<(Seq<char>, Seq<char>)>> {
    match (a, b) {
        (Some(x), Some(y)) => Some(put_all(y, x)),
        (Some(x), None) => Some(x),
        (None, Some(y)) => Some(y),
        (None, None) => None,
    }
}

pub open spec fn others_view(o: Option<Vec<(String, String)>>) -> Option<Seq<(Seq<char>, Seq<char>)>> {
    match o {
        Some(x) => Some(pairs_view(x@)),
        None => None,
    }
}

/// Option text `name=value,` of an optional value.
pub open spec fn kv_text(name: Seq<char>, v: Option<String>) -> Seq<char> {
    match v {
        Some(x) => name + "="@ + x@ + ","@,
        None => Seq::empty(),
    }
}

/// Option texts `key=value,` of key-value pairs, in order.
pub open spec fn pairs_text(m: Seq<(Seq<char>, Seq<char>)>) -> Seq<char>
    decreases m.len(),
{
    if m.len() == 0 {
        Seq::empty()
    } else {
        pairs_text(m.drop_last()) + m.last().0 + "="@ + m.last().1 + ","@
    }
}

pub open spec fn papersize_text(p: Option<MaybeUnknown<Papersize>>) -> Seq<char> {
    match p {
        Some(MaybeUnknown::Known(x)) => paper_text(paper_view(x)) + ","@,
        Some(MaybeUnknown::Unknown(u)) => u@ + ","@,
        None => Seq::empty(),
    }
}

pub open spec fn orientation_text(p: Option<MaybeUnknown<Orientation>>) -> Seq<char> {
    match p {
        Some(MaybeUnknown::Known(x)) => (if x == Orientation::Portrait {
            "portrait"@
        } else {
            "landscape"@
        }) + ","@,
        Some(MaybeUnknown::Unknown(u)) => u@ + ","@,
        None => Seq::empty(),
    }
}

/// The options of a geometry: paper size, orientation, the named options that are set, and
/// the further options.
pub open spec fn geometry_text(g: Geometry) -> Seq<char> {
    papersize_text(g.papersize) + orientation_text(g.orientation)
        + kv_text("margin"@, g.margin)
        + kv_text("textwidth"@, g.textwidth)
        + kv_text("textheight"@, g.textheight)
        + kv_text("total"@, g.total)
        + kv_text("left"@, g.left)
        + kv_text("lmargin"@, g.lmargin)
        + kv_text("inner"@, g.inner)
        + kv_text("right"@, g.right)
        + kv_text("rmargin"@, g.rmargin)
        + kv_text("outer"@, g.outer)
        + kv_text("top"@, g.top)
        + kv_text("tmargin"@, g.tmargin)
        + kv_text("bottom"@, g.bottom)
        + kv_text("bmargin"@, g.bmargin)
        + kv_text("headheight"@, g.headheight)
        + kv_text("footsep"@, g.footsep)
        + kv_text("footskip"@, g.footskip)
        + kv_text("marginparwidth"@, g.marginparwidth)
        + kv_text("marginpar"@, g.marginpar)
        + match g.others {
        Some(x) => pairs_text(pairs_view(x@)),
        None => Seq::empty(),
    }
}

fn push_kv(out: &mut String, name: &str, v: &Option<String>)
    ensures
        final(out)@ == old(out)@ + kv_text(name@, *v),
{
    match v {
        Some(x) => {
            push_str(out, name);
            push_str(out, "=");
            push_str(out, x.as_str());
            push_str(out, ",");
        },
        None => {},
    }
}

impl Geometry {
    /// Combines two geometries: each option of `self` that is set wins over that of `g`, and
    /// so does each further option of `self` over one of `g` with the same key.
    pub fn merge(self, g: Geometry) -> (r: Geometry)
        ensures
            r.papersize == first_some(self.papersize, g.papersize),
            r.orientation == first_some(self.orientation, g.orientation),
            r.margin == first_some(self.margin, g.margin),
            r.textwidth == first_some(self.textwidth, g.textwidth),
            r.textheight == first_some(self.textheight, g.textheight),
            r.total == first_some(self.total, g.total),
            r.left == first_some(self.left, g.left),
            r.lmargin == first_some(self.lmargin, g.lmargin),
            r.inner == first_some(self.inner, g.inner),
            r.right == first_some(self.right, g.right),
            r.rmargin == first_some(self.rmargin, g.rmargin),
            r.outer == first_some(self.outer, g.outer),
            r.top == first_some(self.top, g.top),
            r.tmargin == first_some(self.tmargin, g.tmargin),
            r.bottom == first_some(self.bottom, g.bottom),
            r.bmargin == first_some(self.bmargin, g.bmargin),
            r.headheight == first_some(self.headheight, g.headheight),
            r.footsep == first_some(self.footsep, g.footsep),
            r.footskip == first_some(self.footskip, g.footskip),
            r.marginparwidth == first_some(self.marginparwidth, g.marginparwidth),
            r.marginpar == first_some(self.marginpar, g.marginpar),
            others_view(r.others) == merge_others(others_view(self.others), others_view(g.others)),
    {
        let others = match (self.others, g.others) {
            (Some(s), Some(o)) => {
                let mut o = o;
                put_pairs(&mut o, s);
                Some(o)
            },
            (Some(s), None) => Some(s),
            (None, Some(o)) => Some(o),
            (None, None) => None,
        };
        Geometry {
            papersize: if self.papersize.is_some() { self.papersize } else { g.papersize },
            orientation: if self.orientation.is_some() { self.orientation } else { g.orientation },
            margin: if self.margin.is_some() { self.margin } else { g.margin },
            textwidth: if self.textwidth.is_some() { self.textwidth } else { g.textwidth },
            textheight: if self.textheight.is_some() { self.textheight } else { g.textheight },
            total: if self.total.is_some() { self.total } else { g.total },
            left: if self.left.is_some() { self.left } else { g.left },
            lmargin: if self.lmargin.is_some() { self.lmargin } else { g.lmargin },
            inner: if self.inner.is_some() { self.inner } else { g.inner },
            right: if self.right.is_some() { self.right } else { g.right },
            rmargin: if self.rmargin.is_some() { self.rmargin } else { g.rmargin },
            outer: if self.outer.is_some() { self.outer } else { g.outer },
            top: if self.top.is_some() { self.top } else { g.top },
            tmargin: if self.tmargin.is_some() { self.tmargin } else { g.tmargin },
            bottom: if self.bottom.is_some() { self.bottom } else { g.bottom },
            bmargin: if self.bmargin.is_some() { self.bmargin } else { g.bmargin },
            headheight: if self.headheight.is_some() { self.headheight } else { g.headheight },
            footsep: if self.footsep.is_some() { self.footsep } else { g.footsep },
            footskip: if self.footskip.is_some() { self.footskip } else { g.footskip },
            marginparwidth: if self.marginparwidth.is_some() { self.marginparwidth } else { g.marginparwidth },
            marginpar: if self.marginpar.is_some() { self.marginpar } else { g.marginpar },
            others,
        }
    }

    /// The options of the geometry, as handed to the `geometry` package.
    #[verifier::rlimit(50)]
    pub fn write_latex_options(&self) -> (r: String)
        ensures
            r@ == geometry_text(*self),
    {
        let mut out = String::new();
        match &self.papersize {
            Some(MaybeUnknown::Known(p)) => {
                let t = p.to_string();
                push_str(&mut out, t.as_str());
                push_str(&mut out, ",");
            },
            Some(MaybeUnknown::Unknown(u)) => {
                push_str(&mut out, u.as_str());
                push_str(&mut out, ",");
            },
            None => {},
        }
        match &self.orientation {
            Some(MaybeUnknown::Known(o)) => {
                let t = o.to_string();
                push_str(&mut out, t.as_str());
                push_str(&mut out, ",");
            },
            Some(MaybeUnknown::Unknown(u)) => {
                push_str(&mut out, u.as_str());
                push_str(&mut out, ",");
            },
            None => {},
        }
        assert(out@ =~= papersize_text(self.papersize) + orientation_text(self.orientation));
        push_kv(&mut out, "margin", &self.margin);
        push_kv(&mut out, "textwidth", &self.textwidth);
        push_kv(&mut out, "textheight", &self.textheight);
        push_kv(&mut out, "total", &self.total);
        push_kv(&mut out, "left", &self.left);
        push_kv(&mut out, "lmargin", &self.lmargin);
        push_kv(&mut out, "inner", &self.inner);
        push_kv(&mut out, "right", &self.right);
        push_kv(&mut out, "rmargin", &self.rmargin);
        push_kv(&mut out, "outer", &self.outer);
        push_kv(&mut out, "top", &self.top);
        push_kv(&mut out, "tmargin", &self.tmargin);
        push_kv(&mut out, "bottom", &self.bottom);
        push_kv(&mut out, "bmargin", &self.bmargin);
        push_kv(&mut out, "headheight", &self.headheight);
        push_kv(&mut out, "footsep", &self.footsep);
        push_kv(&mut out, "footskip", &self.footskip);
        push_kv(&mut out, "marginparwidth", &self.marginparwidth);
        push_kv(&mut out, "marginpar", &self.marginpar);
        match &self.others {
            Some(others) => {
                let ghost base = out@;
                let mut i: usize = 0;
                while i < others.len()
                    invariant
                        i <= others@.len(),
                        out@ == base + pairs_text(pairs_view(others@).take(i as int)),
                    decreases others@.len() - i,
                {
                    proof {
                        assert(pairs_view(others@).take(i + 1).drop_last() =~= pairs_view(others@).take(
                            i as int,
                        ));
                    }
                    push_str(&mut out, others[i].0.as_str());
                    push_str(&mut out, "=");
                    push_str(&mut out, others[i].1.as_str());
                    push_str(&mut out, ",");
                    i = i + 1;
                }
                assert(pairs_view(others@).take(i as int) =~= pairs_view(others@));
            },
            None => {},
        }
        assert(out@ =~= geometry_text(*self));
        out
    }
}

/// The pieces of `s` between occurrences of `c` (`str::split` on a character).
pub open spec fn split_seq(s: Seq<char>, c: char) -> Seq<Seq<char>>
    decreases s.len(),
{
    if s.len() == 0 {
        seq![Seq::empty()]
    } else {
        let r = split_seq(s.drop_last(), c);
        if s.last() == c {
            r.push(Seq::empty())
        } else {
            r.update(r.len() - 1, r.last().push(s.last()))
        }
    }
}

pub proof fn lemma_split_len(s: Seq<char>, c: char)
    ensures
        split_seq(s, c).len() >= 1,
    decreases s.len(),
{
    if s.len() > 0 {
        lemma_split_len(s.drop_last(), c);
    }
}

/// The pieces of `v` between occurrences of `c`.
pub(crate) fn split_chars(v: &Vec<char>, c: char) -> (r: Vec<Vec<char>>)
    ensures
        r@.len() == split_seq(v@, c).len(),
        forall|i: int| 0 <= i < r@.len() ==> (#[trigger] r@[i])@ == split_seq(v@, c)[i],
{
    let mut done: Vec<Vec<char>> = Vec::new();
    let mut cur: Vec<char> = Vec::new();
    let mut i: usize = 0;
    assert(v@.take(0) =~= Seq::<char>::empty());
    while i < v.len()
        invariant
            i <= v@.len(),
            done@.len() + 1 == split_seq(v@.take(i as int), c).len(),
            forall|j: int| 0 <= j < done@.len() ==> (#[trigger] done@[j])@ == split_seq(
                v@.take(i as int),
                c,
            )[j],
            cur@ == split_seq(v@.take(i as int), c).last(),
        decreases v@.len() - i,
    {
        proof {
            assert(v@.take(i + 1).drop_last() =~= v@.take(i as int));
            lemma_split_len(v@.take(i as int), c);
        }
        if v[i] == c {
            done.push(cur);
            cur = Vec::new();
        } else {
            cur.push(v[i]);
        }
        i = i + 1;
    }
    assert(v@.take(i as int) =~= v@);
    done.push(cur);
    done
}

/// The message of a malformed list of further options.
pub open spec fn others_error() -> Seq<char> {
    "Expected `key=value,key2=value2` format for others"@
}

/// The pair `(key, value)` of a piece `key=value[=...]`.
pub open spec fn kv_of(p: Seq<char>) -> (Seq<char>, Seq<char>) {
    (split_seq(p, '=')[0], split_seq(p, '=')[1])
}

/// Further options `key=value,key2=value2`; a later key wins.  `None` where the text has no
/// `=`, or a piece has none.
pub open spec fn parse_others_spec(s: Seq<char>) -> Option<Seq<(Seq<char>, Seq<char>)>> {
    let pairs = split_seq(s, ',');
    if !s.contains('=') {
        None
    } else if exists|i: int| 0 <= i < pairs.len() && split_seq(#[trigger] pairs[i], '=').len() < 2 {
        None
    } else {
        Some(put_all(Seq::empty(), Seq::new(pairs.len(), |i: int| kv_of(pairs[i]))))
    }
}

/// Parses further options `key=value,key2=value2`.
pub fn parse_others(s: &str) -> (r: Result<Vec<(String, String)>, String>)
    ensures
        match r {
            Ok(m) => parse_others_spec(s@) == Some(pairs_view(m@)),
            Err(e) => parse_others_spec(s@) is None && e@ == others_error(),
        },
{
    let v = chars_of(s);
    let mut err = String::new();
    push_str(&mut err, "Expected `key=value,key2=value2` format for others");
    match find_char_in(&v, '=') {
        Some(idx) => {
            assert(v@[idx as int] == '=');
            assert(s@.contains('='));
        },
        None => {
            return Err(err);
        },
    }
    let pairs = split_chars(&v, ',');
    let ghost ps = split_seq(v@, ',');
    let ghost items = Seq::new(ps.len(), |i: int| kv_of(ps[i]));
    let mut m: Vec<(String, String)> = Vec::new();
    let mut i: usize = 0;
    assert(pairs_view(m@) =~= put_all(Seq::empty(), items.take(0)));
    while i < pairs.len()
        invariant
            i <= pairs@.len(),
            pairs@.len() == ps.len(),
            ps == split_seq(v@, ','),
            items == Seq::new(ps.len(), |i: int| kv_of(ps[i])),
            forall|j: int| 0 <= j < pairs@.len() ==> (#[trigger] pairs@[j])@ == ps[j],
            forall|j: int| 0 <= j < i ==> split_seq(#[trigger] ps[j], '=').len() >= 2,
            pairs_view(m@) == put_all(Seq::empty(), items.take(i as int)),
            err@ == others_error(),
            s@.contains('='),
            v@ == s@,
        decreases pairs@.len() - i,
    {
        let parts = split_chars(&pairs[i], '=');
        if parts.len() < 2 {
            assert(split_seq(ps[i as int], '=').len() < 2);
            return Err(err);
        }
        let k = string_from_chars(parts[0].as_slice());
        let val = string_from_chars(parts[1].as_slice());
        proof {
            assert(items.take(i + 1).drop_last() =~= items.take(i as int));
            assert(items.take(i + 1).last() == kv_of(ps[i as int]));
        }
        put_pair(&mut m, k, val);
        i = i + 1;
    }
    assert(items.take(i as int) =~= items);
    Ok(m)
}

/// An orientation reads back from its own text.
pub proof fn law_orientation_roundtrip(o: Orientation)
    ensures
        o == Orientation::Portrait ==> crate::text::eq_ignore_case("portrait"@, "portrait"@),
        o == Orientation::Landscape ==> !crate::text::eq_ignore_case("landscape"@, "portrait"@)
            && crate::text::eq_ignore_case("landscape"@, "landscape"@),
{
    reveal_strlit("landscape");
    reveal_strlit("portrait");
    assert(crate::text::ascii_lower_seq("landscape"@).len() != crate::text::ascii_lower_seq(
        "portrait"@,
    ).len());
}

/// Merging with a geometry that sets nothing changes nothing.
pub proof fn law_merge_with_unset(g: Geometry, unset: Geometry)
    requires
        unset.papersize is None,
        unset.orientation is None,
        unset.margin is None,
        unset.textwidth is None,
        unset.textheight is None,
        unset.total is None,
        unset.left is None,
        unset.lmargin is None,
        unset.inner is None,
        unset.right is None,
        unset.rmargin is None,
        unset.outer is None,
        unset.top is None,
        unset.tmargin is None,
        unset.bottom is None,
        unset.bmargin is None,
        unset.headheight is None,
        unset.footsep is None,
        unset.footskip is None,
        unset.marginparwidth is None,
        unset.marginpar is None,
        unset.others is None,
    ensures
        first_some(g.papersize, unset.papersize) == g.papersize,
        first_some(g.orientation, unset.orientation) == g.orientation,
        first_some(g.margin, unset.margin) == g.margin,
        first_some(g.textwidth, unset.textwidth) == g.textwidth,
        first_some(g.textheight, unset.textheight) == g.textheight,
        first_some(g.total, unset.total) == g.total,
        first_some(g.left, unset.left) == g.left,
        first_some(g.lmargin, unset.lmargin) == g.lmargin,
        first_some(g.inner, unset.inner) == g.inner,
        first_some(g.right, unset.right) == g.right,
        first_some(g.rmargin, unset.rmargin) == g.rmargin,
        first_some(g.outer, unset.outer) == g.outer,
        first_some(g.top, unset.top) == g.top,
        first_some(g.tmargin, unset.tmargin) == g.tmargin,
        first_some(g.bottom, unset.bottom) == g.bottom,
        first_some(g.bmargin, unset.bmargin) == g.bmargin,
        first_some(g.headheight, unset.headheight) == g.headheight,
        first_some(g.footsep, unset.footsep) == g.footsep,
        first_some(g.footskip, unset.footskip) == g.footskip,
        first_some(g.marginparwidth, unset.marginparwidth) == g.marginparwidth,
        first_some(g.marginpar, unset.marginpar) == g.marginpar,
        merge_others(others_view(g.others), others_view(unset.others)) == others_view(g.others),
{
}

/// Merging geometries, a further option of the source that takes precedence wins over one
/// with the same key of the other source.
pub proof fn law_merge_others_left_wins(
    a: Seq<(Seq<char>, Seq<char>)>,
    b: Seq<(Seq<char>, Seq<char>)>,
    k: Seq<char>,
    i: int,
)
    requires
        unique_keys(a),
        unique_keys(b),
        0 <= i < a.len(),
        a[i].0 == k,
    ensures
        ({
            let n = merge_others(Some(a), Some(b))->Some_0;
            &&& has_key(n, k)
            &&& n[key_index(n, k)].1 == a[i].1
        }),
{
    assert forall|j: int| i < j < a.len() implies a[j].0 != k by {
        assert(a[j].0 != a[i].0);
    }
    law_put_all_last_wins(b, a, k, i);
}

/// Setting pairs in order: the value of a key is the one set last.
pub proof fn law_put_all_last_wins(
    m: Seq<(Seq<char>, Seq<char>)>,
    items: Seq<(Seq<char>, Seq<char>)>,
    k: Seq<char>,
    i: int,
)
    requires
        unique_keys(m),
        0 <= i < items.len(),
        items[i].0 == k,
        forall|j: int| i < j < items.len() ==> items[j].0 != k,
    ensures
        has_key(put_all(m, items), k),
        put_all(m, items)[key_index(put_all(m, items), k)].1 == items[i].1,
    decreases items.len(),
{
    lemma_put_all_unique(m, items);
    if i == items.len() - 1 {
        let prev = put_all(m, items.drop_last());
        lemma_put_all_unique(m, items.drop_last());
        lemma_put_unique(prev, k, items[i].1);
        let r = put(prev, k, items[i].1);
        lemma_unique_key_index(r, k);
    } else {
        law_put_all_last_wins(m, items.drop_last(), k, i);
        let prev = put_all(m, items.drop_last());
        lemma_put_all_unique(m, items.drop_last());
        let last = items.last();
        assert(last.0 != k);
        lemma_put_unique(prev, last.0, last.1);
        lemma_put_other(prev, last.0, last.1, k);
    }
}

/// In pairs with unique keys, the position of a key is that of any pair with it.
proof fn lemma_unique_key_index(m: Seq<(Seq<char>, Seq<char>)>, k: Seq<char>)
    requires
        unique_keys(m),
        has_key(m, k),
    ensures
        0 <= key_index(m, k) < m.len(),
        m[key_index(m, k)].0 == k,
        forall|j: int| 0 <= j < m.len() && m[j].0 == k ==> j == key_index(m, k),
{
    let i0 = choose|i: int| 0 <= i < m.len() && m[i].0 == k;
    lemma_first_key(m, k, i0);
    let c = key_index(m, k);
    assert forall|j: int| 0 <= j < m.len() && m[j].0 == k implies j == c by {
        if j != c {
            if j < c {
                assert(m[j].0 != m[c].0);
            } else {
                assert(m[c].0 != m[j].0);
            }
        }
    }
}

/// Setting another key keeps the value of `k`.
proof fn lemma_put_other(m: Seq<(Seq<char>, Seq<char>)>, k2: Seq<char>, v: Seq<char>, k: Seq<char>)
    requires
        unique_keys(m),
        k2 != k,
        has_key(m, k),
    ensures
        has_key(put(m, k2, v), k),
        put(m, k2, v)[key_index(put(m, k2, v), k)].1 == m[key_index(m, k)].1,
{
    lemma_put_unique(m, k2, v);
    lemma_unique_key_index(m, k);
    let r = put(m, k2, v);
    lemma_unique_key_index(r, k);
    let i = key_index(m, k);
    if has_key(m, k2) {
        lemma_unique_key_index(m, k2);
        assert(r[i] == m[i]);
    } else {
        assert(r[i] == m[i]);
    }
    assert(r[i].0 == k);
}

} // verus!

verus! {

/// A text of lowercase ASCII letters and digits is its own lowercase.
proof fn lemma_lowercase_keeps(t: Seq<char>)
    requires
        forall|i: int| 0 <= i < t.len() ==> ('a' <= #[trigger] t[i] <= 'z' || '0' <= t[i] <= '9'),
    ensures
        lowercase(t) == t,
{
    assert(all_ascii(t));
    assert(ascii_lower_seq(t) =~= t);
}

/// Printing a paper size other than a custom one and parsing the text (ignoring case)
/// gives the same paper size back.
#[verifier::spinoff_prover]
#[verifier::rlimit(100)]
pub proof fn law_papersize_roundtrip(p: Papersize)
    requires
        !(p is Custom),
    ensures
        papersize_parse(lowercase(paper_text(paper_view(p)))) == Some(paper_view(p)),
{
    let t = paper_text(paper_view(p));
    reveal_strlit("a0");
    reveal_strlit("a0paper");
    reveal_strlit("a1");
    reveal_strlit("a1paper");
    reveal_strlit("a2");
    reveal_strlit("a2paper");
    reveal_strlit("a3");
    reveal_strlit("a3paper");
    reveal_strlit("a4");
    reveal_strlit("a4paper");
    reveal_strlit("a5");
    reveal_strlit("a5paper");
    reveal_strlit("a6");
    reveal_strlit("a6paper");
    reveal_strlit("b0");
    reveal_strlit("b0paper");
    reveal_strlit("b1");
    reveal_strlit("b1paper");
    reveal_strlit("b2");
    reveal_strlit("b2paper");
    reveal_strlit("b3");
    reveal_strlit("b3paper");
    reveal_strlit("b4");
    reveal_strlit("b4paper");
    reveal_strlit("b5");
    reveal_strlit("b5paper");
    reveal_strlit("b6");
    reveal_strlit("b6paper");
    reveal_strlit("c0");
    reveal_strlit("c0paper");
    reveal_strlit("c1");
    reveal_strlit("c1paper");
    reveal_strlit("c2");
    reveal_strlit("c2paper");
    reveal_strlit("c3");
    reveal_strlit("c3paper");
    reveal_strlit("c4");
    reveal_strlit("c4paper");
    reveal_strlit("c5");
    reveal_strlit("c5paper");
    reveal_strlit("c6");
    reveal_strlit("c6paper");
    reveal_strlit("b0j");
    reveal_strlit("b1j");
    reveal_strlit("b2j");
    reveal_strlit("b3j");
    reveal_strlit("b4j");
    reveal_strlit("b5j");
    reveal_strlit("b6j");
    reveal_strlit("ansia");
    reveal_strlit("ansiapaper");
    reveal_strlit("ansib");
    reveal_strlit("ansibpaper");
    reveal_strlit("ansic");
    reveal_strlit("ansicpaper");
    reveal_strlit("ansid");
    reveal_strlit("ansidpaper");
    reveal_strlit("ansie");
    reveal_strlit("ansiepaper");
    reveal_strlit("letter");
    reveal_strlit("letterpaper");
    reveal_strlit("executive");
    reveal_strlit("executivepaper");
    reveal_strlit("legal");
    reveal_strlit("legalpaper");
    lemma_lowercase_keeps(t);
    match p {
        Papersize::A0paper => {
            assert(t == "a0paper"@);
            assert(t[0] == 'a' && t[1] == '0' && t[2] == 'p' && t[3] == 'a' && t[4] == 'p' && t[5] == 'e' && t[6] == 'r');
            assert(papersize_parse(t) == Some((0int, Seq::<char>::empty(), Seq::<char>::empty())));
        },
        Papersize::A1paper => {
            assert(t == "a1paper"@);
            assert(t[0] == 'a' && t[1] == '1' && t[2] == 'p' && t[3] == 'a' && t[4] == 'p' && t[5] == 'e' && t[6] == 'r');
            assert(papersize_parse(t) == Some((1int, Seq::<char>::empty(), Seq::<char>::empty())));
        },
        Papersize::A2paper => {
            assert(t == "a2paper"@);
            assert(t[0] == 'a' && t[1] == '2' && t[2] == 'p' && t[3] == 'a' && t[4] == 'p' && t[5] == 'e' && t[6] == 'r');
            assert(papersize_parse(t) == Some((2int, Seq::<char>::empty(), Seq::<char>::empty())));
        },
        Papersize::A3paper => {
            assert(t == "a3paper"@);
            assert(t[0] == 'a' && t[1] == '3' && t[2] == 'p' && t[3] == 'a' && t[4] == 'p' && t[5] == 'e' && t[6] == 'r');
            assert(papersize_parse(t) == Some((3int, Seq::<char>::empty(), Seq::<char>::empty())));
        },
        Papersize::A4paper => {
            assert(t == "a4paper"@);
            assert(t[0] == 'a' && t[1] == '4' && t[2] == 'p' && t[3] == 'a' && t[4] == 'p' && t[5] == 'e' && t[6] == 'r');
            assert(papersize_parse(t) == Some((4int, Seq::<char>::empty(), Seq::<char>::empty())));
        },
        Papersize::A5paper => {
            assert(t == "a5paper"@);
            assert(t[0] == 'a' && t[1] == '5' && t[2] == 'p' && t[3] == 'a' && t[4] == 'p' && t[5] == 'e' && t[6] == 'r');
            assert(papersize_parse(t) == Some((5int, Seq::<char>::empty(), Seq::<char>::empty())));
        },
        Papersize::A6paper => {
            assert(t == "a6paper"@);
            assert(t[0] == 'a' && t[1] == '6' && t[2] == 'p' && t[3] == 'a' && t[4] == 'p' && t[5] == 'e' && t[6] == 'r');
            assert(papersize_parse(t) == Some((6int, Seq::<char>::empty(), Seq::<char>::empty())));
        },
        Papersize::B0paper => {
            assert(t == "b0paper"@);
            assert(t[0] == 'b' && t[1] == '0' && t[2] == 'p' && t[3] == 'a' && t[4] == 'p' && t[5] == 'e' && t[6] == 'r');
            assert(papersize_parse(t) == Some((7int, Seq::<char>::empty(), Seq::<char>::empty())));
        },
        Papersize::B1paper => {
            assert(t == "b1paper"@);
            assert(t[0] == 'b' && t[1] == '1' && t[2] == 'p' && t[3] == 'a' && t[4] == 'p' && t[5] == 'e' && t[6] == 'r');
            assert(papersize_parse(t) == Some((8int, Seq::<char>::empty(), Seq::<char>::empty())));
        },
        Papersize::B2paper => {
            assert(t == "b2paper"@);
            assert(t[0] == 'b' && t[1] == '2' && t[2] == 'p' && t[3] == 'a' && t[4] == 'p' && t[5] == 'e' && t[6] == 'r');
            assert(papersize_parse(t) == Some((9int, Seq::<char>::empty(), Seq::<char>::empty())));
        },
        Papersize::B3paper => {
            assert(t == "b3paper"@);
            assert(t[0] == 'b' && t[1] == '3' && t[2] == 'p' && t[3] == 'a' && t[4] == 'p' && t[5] == 'e' && t[6] == 'r');
            assert(papersize_parse(t) == Some((10int, Seq::<char>::empty(), Seq::<char>::empty())));
        },
        Papersize::B4paper => {
            assert(t == "b4paper"@);
            assert(t[0] == 'b' && t[1] == '4' && t[2] == 'p' && t[3] == 'a' && t[4] == 'p' && t[5] == 'e' && t[6] == 'r');
            assert(papersize_parse(t) == Some((11int, Seq::<char>::empty(), Seq::<char>::empty())));
        },
        Papersize::B5paper => {
            assert(t == "b5paper"@);
            assert(t[0] == 'b' && t[1] == '5' && t[2] == 'p' && t[3] == 'a' && t[4] == 'p' && t[5] == 'e' && t[6] == 'r');
            assert(papersize_parse(t) == Some((12int, Seq::<char>::empty(), Seq::<char>::empty())));
        },
        Papersize::B6paper => {
            assert(t == "b6paper"@);
            assert(t[0] == 'b' && t[1] == '6' && t[2] == 'p' && t[3] == 'a' && t[4] == 'p' && t[5] == 'e' && t[6] == 'r');
            assert(papersize_parse(t) == Some((13int, Seq::<char>::empty(), Seq::<char>::empty())));
        },
        Papersize::C0paper => {
            assert(t == "c0paper"@);
            assert(t[0] == 'c' && t[1] == '0' && t[2] == 'p' && t[3] == 'a' && t[4] == 'p' && t[5] == 'e' && t[6] == 'r');
            assert(papersize_parse(t) == Some((14int, Seq::<char>::empty(), Seq::<char>::empty())));
        },
        Papersize::C1paper => {
            assert(t == "c1paper"@);
            assert(t[0] == 'c' && t[1] == '1' && t[2] == 'p' && t[3] == 'a' && t[4] == 'p' && t[5] == 'e' && t[6] == 'r');
            assert(papersize_parse(t) == Some((15int, Seq::<char>::empty(), Seq::<char>::empty())));
        },
        Papersize::C2paper => {
            assert(t == "c2paper"@);
            assert(t[0] == 'c' && t[1] == '2' && t[2] == 'p' && t[3] == 'a' && t[4] == 'p' && t[5] == 'e' && t[6] == 'r');
            assert(papersize_parse(t) == Some((16int, Seq::<char>::empty(), Seq::<char>::empty())));
        },
        Papersize::C3paper => {
            assert(t == "c3paper"@);
            assert(t[0] == 'c' && t[1] == '3' && t[2] == 'p' && t[3] == 'a' && t[4] == 'p' && t[5] == 'e' && t[6] == 'r');
            assert(papersize_parse(t) == Some((17int, Seq::<char>::empty(), Seq::<char>::empty())));
        },
        Papersize::C4paper => {
            assert(t == "c4paper"@);
            assert(t[0] == 'c' && t[1] == '4' && t[2] == 'p' && t[3] == 'a' && t[4] == 'p' && t[5] == 'e' && t[6] == 'r');
            assert(papersize_parse(t) == Some((18int, Seq::<char>::empty(), Seq::<char>::empty())));
        },
        Papersize::C5paper => {
            assert(t == "c5paper"@);
            assert(t[0] == 'c' && t[1] == '5' && t[2] == 'p' && t[3] == 'a' && t[4] == 'p' && t[5] == 'e' && t[6] == 'r');
            assert(papersize_parse(t) == Some((19int, Seq::<char>::empty(), Seq::<char>::empty())));
        },
        Papersize::C6paper => {
            assert(t == "c6paper"@);
            assert(t[0] == 'c' && t[1] == '6' && t[2] == 'p' && t[3] == 'a' && t[4] == 'p' && t[5] == 'e' && t[6] == 'r');
            assert(papersize_parse(t) == Some((20int, Seq::<char>::empty(), Seq::<char>::empty())));
        },
        Papersize::B0j => {
            assert(t == "b0j"@);
            assert(t[0] == 'b' && t[1] == '0' && t[2] == 'j');
            assert(papersize_parse(t) == Some((21int, Seq::<char>::empty(), Seq::<char>::empty())));
        },
        Papersize::B1j => {
            assert(t == "b1j"@);
            assert(t[0] == 'b' && t[1] == '1' && t[2] == 'j');
            assert(papersize_parse(t) == Some((22int, Seq::<char>::empty(), Seq::<char>::empty())));
        },
        Papersize::B2j => {
            assert(t == "b2j"@);
            assert(t[0] == 'b' && t[1] == '2' && t[2] == 'j');
            assert(papersize_parse(t) == Some((23int, Seq::<char>::empty(), Seq::<char>::empty())));
        },
        Papersize::B3j => {
            assert(t == "b3j"@);
            assert(t[0] == 'b' && t[1] == '3' && t[2] == 'j');
            assert(papersize_parse(t) == Some((24int, Seq::<char>::empty(), Seq::<char>::empty())));
        },
        Papersize::B4j => {
            assert(t == "b4j"@);
            assert(t[0] == 'b' && t[1] == '4' && t[2] == 'j');
            assert(papersize_parse(t) == Some((25int, Seq::<char>::empty(), Seq::<char>::empty())));
        },
        Papersize::B5j => {
            assert(t == "b5j"@);
            assert(t[0] == 'b' && t[1] == '5' && t[2] == 'j');
            assert(papersize_parse(t) == Some((26int, Seq::<char>::empty(), Seq::<char>::empty())));
        },
        Papersize::B6j => {
            assert(t == "b6j"@);
            assert(t[0] == 'b' && t[1] == '6' && t[2] == 'j');
            assert(papersize_parse(t) == Some((27int, Seq::<char>::empty(), Seq::<char>::empty())));
        },
        Papersize::AnsiAPaper => {
            assert(t == "ansiapaper"@);
            assert(t[0] == 'a' && t[1] == 'n' && t[2] == 's' && t[3] == 'i' && t[4] == 'a' && t[5] == 'p' && t[6] == 'a' && t[7] == 'p' && t[8] == 'e' && t[9] == 'r');
            assert(papersize_parse(t) == Some((28int, Seq::<char>::empty(), Seq::<char>::empty())));
        },
        Papersize::AnsiBPaper => {
            assert(t == "ansibpaper"@);
            assert(t[0] == 'a' && t[1] == 'n' && t[2] == 's' && t[3] == 'i' && t[4] == 'b' && t[5] == 'p' && t[6] == 'a' && t[7] == 'p' && t[8] == 'e' && t[9] == 'r');
            assert(papersize_parse(t) == Some((29int, Seq::<char>::empty(), Seq::<char>::empty())));
        },
        Papersize::AnsiCPaper => {
            assert(t == "ansicpaper"@);
            assert(t[0] == 'a' && t[1] == 'n' && t[2] == 's' && t[3] == 'i' && t[4] == 'c' && t[5] == 'p' && t[6] == 'a' && t[7] == 'p' && t[8] == 'e' && t[9] == 'r');
            assert(papersize_parse(t) == Some((30int, Seq::<char>::empty(), Seq::<char>::empty())));
        },
        Papersize::AnsiDPaper => {
            assert(t == "ansidpaper"@);
            assert(t[0] == 'a' && t[1] == 'n' && t[2] == 's' && t[3] == 'i' && t[4] == 'd' && t[5] == 'p' && t[6] == 'a' && t[7] == 'p' && t[8] == 'e' && t[9] == 'r');
            assert(papersize_parse(t) == Some((31int, Seq::<char>::empty(), Seq::<char>::empty())));
        },
        Papersize::AnsiEPaper => {
            assert(t == "ansiepaper"@);
            assert(t[0] == 'a' && t[1] == 'n' && t[2] == 's' && t[3] == 'i' && t[4] == 'e' && t[5] == 'p' && t[6] == 'a' && t[7] == 'p' && t[8] == 'e' && t[9] == 'r');
            assert(papersize_parse(t) == Some((32int, Seq::<char>::empty(), Seq::<char>::empty())));
        },
        Papersize::Letterpaper => {
            assert(t == "letterpaper"@);
            assert(t[0] == 'l' && t[1] == 'e' && t[2] == 't' && t[3] == 't' && t[4] == 'e' && t[5] == 'r' && t[6] == 'p' && t[7] == 'a' && t[8] == 'p' && t[9] == 'e' && t[10] == 'r');
            assert(papersize_parse(t) == Some((33int, Seq::<char>::empty(), Seq::<char>::empty())));
        },
        Papersize::Executivepaper => {
            assert(t == "executivepaper"@);
            assert(t[0] == 'e' && t[1] == 'x' && t[2] == 'e' && t[3] == 'c' && t[4] == 'u' && t[5] == 't' && t[6] == 'i' && t[7] == 'v' && t[8] == 'e' && t[9] == 'p' && t[10] == 'a' && t[11] == 'p' && t[12] == 'e' && t[13] == 'r');
            assert(papersize_parse(t) == Some((34int, Seq::<char>::empty(), Seq::<char>::empty())));
        },
        Papersize::Legalpaper => {
            assert(t == "legalpaper"@);
            assert(t[0] == 'l' && t[1] == 'e' && t[2] == 'g' && t[3] == 'a' && t[4] == 'l' && t[5] == 'p' && t[6] == 'a' && t[7] == 'p' && t[8] == 'e' && t[9] == 'r');
            assert(papersize_parse(t) == Some((35int, Seq::<char>::empty(), Seq::<char>::empty())));
        },
        Papersize::Custom(..) => {},
    }
}

} // verus!

verus! {

/// The texts of `ps` one after the other.
pub open spec fn concat_all(ps: Seq<Seq<char>>) -> Seq<char>
    decreases ps.len(),
{
    if ps.len() == 0 {
        Seq::empty()
    } else {
        concat_all(ps.drop_last()) + ps.last()
    }
}

proof fn lemma_concat_all_occurs(ps: Seq<Seq<char>>, j: int)
    requires
        0 <= j < ps.len(),
    ensures
        occurs_in(concat_all(ps), ps[j]),
    decreases ps.len(),
{
    if j == ps.len() - 1 {
        lemma_occurs_between(concat_all(ps.drop_last()), ps[j], Seq::<char>::empty());
        assert(concat_all(ps.drop_last()) + ps[j] + Seq::<char>::empty() =~= concat_all(ps));
    } else {
        lemma_concat_all_occurs(ps.drop_last(), j);
        assert(ps.drop_last()[j] == ps[j]);
        lemma_occurs_append(concat_all(ps.drop_last()), ps.last(), ps[j]);
    }
}

/// The further options of a geometry as option text.
pub open spec fn others_text(o: Option<Vec<(String, String)>>) -> Seq<char> {
    match o {
        Some(x) => pairs_text(pairs_view(x@)),
        None => Seq::empty(),
    }
}

/// The parts of a geometry's option text, in order.
pub open spec fn geometry_pieces(g: Geometry) -> Seq<Seq<char>> {
    seq![
        papersize_text(g.papersize),
        orientation_text(g.orientation),
        kv_text("margin"@, g.margin),
        kv_text("textwidth"@, g.textwidth),
        kv_text("textheight"@, g.textheight),
        kv_text("total"@, g.total),
        kv_text("left"@, g.left),
        kv_text("lmargin"@, g.lmargin),
        kv_text("inner"@, g.inner),
        kv_text("right"@, g.right),
        kv_text("rmargin"@, g.rmargin),
        kv_text("outer"@, g.outer),
        kv_text("top"@, g.top),
        kv_text("tmargin"@, g.tmargin),
        kv_text("bottom"@, g.bottom),
        kv_text("bmargin"@, g.bmargin),
        kv_text("headheight"@, g.headheight),
        kv_text("footsep"@, g.footsep),
        kv_text("footskip"@, g.footskip),
        kv_text("marginparwidth"@, g.marginparwidth),
        kv_text("marginpar"@, g.marginpar),
        others_text(g.others),
    ]
}

proof fn lemma_concat_all_step(ps: Seq<Seq<char>>, k: int)
    requires
        0 <= k < ps.len(),
    ensures
        concat_all(ps.take(k + 1)) == concat_all(ps.take(k)) + ps[k],
{
    assert(ps.take(k + 1).drop_last() =~= ps.take(k));
    assert(ps.take(k + 1).last() == ps[k]);
}

#[verifier::spinoff_prover]
proof fn lemma_geometry_pieces(g: Geometry)
    ensures
        concat_all(geometry_pieces(g)) == geometry_text(g),
{
    let ps = geometry_pieces(g);
    assert(concat_all(ps.take(0)) == Seq::<char>::empty()) by {
        assert(ps.take(0).len() == 0);
    }
    assert(Seq::<char>::empty() + ps[0] =~= ps[0]);
    lemma_concat_all_step(ps, 0);
    assert(concat_all(ps.take(1)) == papersize_text(g.papersize));
    lemma_concat_all_step(ps, 1);
    assert(concat_all(ps.take(2)) == papersize_text(g.papersize) + orientation_text(g.orientation));
    lemma_concat_all_step(ps, 2);
    assert(concat_all(ps.take(3)) == papersize_text(g.papersize) + orientation_text(g.orientation) + kv_text("margin"@, g.margin));
    lemma_concat_all_step(ps, 3);
    assert(concat_all(ps.take(4)) == papersize_text(g.papersize) + orientation_text(g.orientation) + kv_text("margin"@, g.margin) + kv_text("textwidth"@, g.textwidth));
    lemma_concat_all_step(ps, 4);
    assert(concat_all(ps.take(5)) == papersize_text(g.papersize) + orientation_text(g.orientation) + kv_text("margin"@, g.margin) + kv_text("textwidth"@, g.textwidth) + kv_text("textheight"@, g.textheight));
    lemma_concat_all_step(ps, 5);
    assert(concat_all(ps.take(6)) == papersize_text(g.papersize) + orientation_text(g.orientation) + kv_text("margin"@, g.margin) + kv_text("textwidth"@, g.textwidth) + kv_text("textheight"@, g.textheight) + kv_text("total"@, g.total));
    lemma_concat_all_step(ps, 6);
    assert(concat_all(ps.take(7)) == papersize_text(g.papersize) + orientation_text(g.orientation) + kv_text("margin"@, g.margin) + kv_text("textwidth"@, g.textwidth) + kv_text("textheight"@, g.textheight) + kv_text("total"@, g.total) + kv_text("left"@, g.left));
    lemma_concat_all_step(ps, 7);
    assert(concat_all(ps.take(8)) == papersize_text(g.papersize) + orientation_text(g.orientation) + kv_text("margin"@, g.margin) + kv_text("textwidth"@, g.textwidth) + kv_text("textheight"@, g.textheight) + kv_text("total"@, g.total) + kv_text("left"@, g.left) + kv_text("lmargin"@, g.lmargin));
    lemma_concat_all_step(ps, 8);
    assert(concat_all(ps.take(9)) == papersize_text(g.papersize) + orientation_text(g.orientation) + kv_text("margin"@, g.margin) + kv_text("textwidth"@, g.textwidth) + kv_text("textheight"@, g.textheight) + kv_text("total"@, g.total) + kv_text("left"@, g.left) + kv_text("lmargin"@, g.lmargin) + kv_text("inner"@, g.inner));
    lemma_concat_all_step(ps, 9);
    assert(concat_all(ps.take(10)) == papersize_text(g.papersize) + orientation_text(g.orientation) + kv_text("margin"@, g.margin) + kv_text("textwidth"@, g.textwidth) + kv_text("textheight"@, g.textheight) + kv_text("total"@, g.total) + kv_text("left"@, g.left) + kv_text("lmargin"@, g.lmargin) + kv_text("inner"@, g.inner) + kv_text("right"@, g.right));
    lemma_concat_all_step(ps, 10);
    assert(concat_all(ps.take(11)) == papersize_text(g.papersize) + orientation_text(g.orientation) + kv_text("margin"@, g.margin) + kv_text("textwidth"@, g.textwidth) + kv_text("textheight"@, g.textheight) + kv_text("total"@, g.total) + kv_text("left"@, g.left) + kv_text("lmargin"@, g.lmargin) + kv_text("inner"@, g.inner) + kv_text("right"@, g.right) + kv_text("rmargin"@, g.rmargin));
    lemma_concat_all_step(ps, 11);
    assert(concat_all(ps.take(12)) == papersize_text(g.papersize) + orientation_text(g.orientation) + kv_text("margin"@, g.margin) + kv_text("textwidth"@, g.textwidth) + kv_text("textheight"@, g.textheight) + kv_text("total"@, g.total) + kv_text("left"@, g.left) + kv_text("lmargin"@, g.lmargin) + kv_text("inner"@, g.inner) + kv_text("right"@, g.right) + kv_text("rmargin"@, g.rmargin) + kv_text("outer"@, g.outer));
    lemma_concat_all_step(ps, 12);
    assert(concat_all(ps.take(13)) == papersize_text(g.papersize) + orientation_text(g.orientation) + kv_text("margin"@, g.margin) + kv_text("textwidth"@, g.textwidth) + kv_text("textheight"@, g.textheight) + kv_text("total"@, g.total) + kv_text("left"@, g.left) + kv_text("lmargin"@, g.lmargin) + kv_text("inner"@, g.inner) + kv_text("right"@, g.right) + kv_text("rmargin"@, g.rmargin) + kv_text("outer"@, g.outer) + kv_text("top"@, g.top));
    lemma_concat_all_step(ps, 13);
    assert(concat_all(ps.take(14)) == papersize_text(g.papersize) + orientation_text(g.orientation) + kv_text("margin"@, g.margin) + kv_text("textwidth"@, g.textwidth) + kv_text("textheight"@, g.textheight) + kv_text("total"@, g.total) + kv_text("left"@, g.left) + kv_text("lmargin"@, g.lmargin) + kv_text("inner"@, g.inner) + kv_text("right"@, g.right) + kv_text("rmargin"@, g.rmargin) + kv_text("outer"@, g.outer) + kv_text("top"@, g.top) + kv_text("tmargin"@, g.tmargin));
    lemma_concat_all_step(ps, 14);
    assert(concat_all(ps.take(15)) == papersize_text(g.papersize) + orientation_text(g.orientation) + kv_text("margin"@, g.margin) + kv_text("textwidth"@, g.textwidth) + kv_text("textheight"@, g.textheight) + kv_text("total"@, g.total) + kv_text("left"@, g.left) + kv_text("lmargin"@, g.lmargin) + kv_text("inner"@, g.inner) + kv_text("right"@, g.right) + kv_text("rmargin"@, g.rmargin) + kv_text("outer"@, g.outer) + kv_text("top"@, g.top) + kv_text("tmargin"@, g.tmargin) + kv_text("bottom"@, g.bottom));
    lemma_concat_all_step(ps, 15);
    assert(concat_all(ps.take(16)) == papersize_text(g.papersize) + orientation_text(g.orientation) + kv_text("margin"@, g.margin) + kv_text("textwidth"@, g.textwidth) + kv_text("textheight"@, g.textheight) + kv_text("total"@, g.total) + kv_text("left"@, g.left) + kv_text("lmargin"@, g.lmargin) + kv_text("inner"@, g.inner) + kv_text("right"@, g.right) + kv_text("rmargin"@, g.rmargin) + kv_text("outer"@, g.outer) + kv_text("top"@, g.top) + kv_text("tmargin"@, g.tmargin) + kv_text("bottom"@, g.bottom) + kv_text("bmargin"@, g.bmargin));
    lemma_concat_all_step(ps, 16);
    assert(concat_all(ps.take(17)) == papersize_text(g.papersize) + orientation_text(g.orientation) + kv_text("margin"@, g.margin) + kv_text("textwidth"@, g.textwidth) + kv_text("textheight"@, g.textheight) + kv_text("total"@, g.total) + kv_text("left"@, g.left) + kv_text("lmargin"@, g.lmargin) + kv_text("inner"@, g.inner) + kv_text("right"@, g.right) + kv_text("rmargin"@, g.rmargin) + kv_text("outer"@, g.outer) + kv_text("top"@, g.top) + kv_text("tmargin"@, g.tmargin) + kv_text("bottom"@, g.bottom) + kv_text("bmargin"@, g.bmargin) + kv_text("headheight"@, g.headheight));
    lemma_concat_all_step(ps, 17);
    assert(concat_all(ps.take(18)) == papersize_text(g.papersize) + orientation_text(g.orientation) + kv_text("margin"@, g.margin) + kv_text("textwidth"@, g.textwidth) + kv_text("textheight"@, g.textheight) + kv_text("total"@, g.total) + kv_text("left"@, g.left) + kv_text("lmargin"@, g.lmargin) + kv_text("inner"@, g.inner) + kv_text("right"@, g.right) + kv_text("rmargin"@, g.rmargin) + kv_text("outer"@, g.outer) + kv_text("top"@, g.top) + kv_text("tmargin"@, g.tmargin) + kv_text("bottom"@, g.bottom) + kv_text("bmargin"@, g.bmargin) + kv_text("headheight"@, g.headheight) + kv_text("footsep"@, g.footsep));
    lemma_concat_all_step(ps, 18);
    assert(concat_all(ps.take(19)) == papersize_text(g.papersize) + orientation_text(g.orientation) + kv_text("margin"@, g.margin) + kv_text("textwidth"@, g.textwidth) + kv_text("textheight"@, g.textheight) + kv_text("total"@, g.total) + kv_text("left"@, g.left) + kv_text("lmargin"@, g.lmargin) + kv_text("inner"@, g.inner) + kv_text("right"@, g.right) + kv_text("rmargin"@, g.rmargin) + kv_text("outer"@, g.outer) + kv_text("top"@, g.top) + kv_text("tmargin"@, g.tmargin) + kv_text("bottom"@, g.bottom) + kv_text("bmargin"@, g.bmargin) + kv_text("headheight"@, g.headheight) + kv_text("footsep"@, g.footsep) + kv_text("footskip"@, g.footskip));
    lemma_concat_all_step(ps, 19);
    assert(concat_all(ps.take(20)) == papersize_text(g.papersize) + orientation_text(g.orientation) + kv_text("margin"@, g.margin) + kv_text("textwidth"@, g.textwidth) + kv_text("textheight"@, g.textheight) + kv_text("total"@, g.total) + kv_text("left"@, g.left) + kv_text("lmargin"@, g.lmargin) + kv_text("inner"@, g.inner) + kv_text("right"@, g.right) + kv_text("rmargin"@, g.rmargin) + kv_text("outer"@, g.outer) + kv_text("top"@, g.top) + kv_text("tmargin"@, g.tmargin) + kv_text("bottom"@, g.bottom) + kv_text("bmargin"@, g.bmargin) + kv_text("headheight"@, g.headheight) + kv_text("footsep"@, g.footsep) + kv_text("footskip"@, g.footskip) + kv_text("marginparwidth"@, g.marginparwidth));
    lemma_concat_all_step(ps, 20);
    assert(concat_all(ps.take(21)) == papersize_text(g.papersize) + orientation_text(g.orientation) + kv_text("margin"@, g.margin) + kv_text("textwidth"@, g.textwidth) + kv_text("textheight"@, g.textheight) + kv_text("total"@, g.total) + kv_text("left"@, g.left) + kv_text("lmargin"@, g.lmargin) + kv_text("inner"@, g.inner) + kv_text("right"@, g.right) + kv_text("rmargin"@, g.rmargin) + kv_text("outer"@, g.outer) + kv_text("top"@, g.top) + kv_text("tmargin"@, g.tmargin) + kv_text("bottom"@, g.bottom) + kv_text("bmargin"@, g.bmargin) + kv_text("headheight"@, g.headheight) + kv_text("footsep"@, g.footsep) + kv_text("footskip"@, g.footskip) + kv_text("marginparwidth"@, g.marginparwidth) + kv_text("marginpar"@, g.marginpar));
    lemma_concat_all_step(ps, 21);
    assert(concat_all(ps.take(22)) == papersize_text(g.papersize) + orientation_text(g.orientation) + kv_text("margin"@, g.margin) + kv_text("textwidth"@, g.textwidth) + kv_text("textheight"@, g.textheight) + kv_text("total"@, g.total) + kv_text("left"@, g.left) + kv_text("lmargin"@, g.lmargin) + kv_text("inner"@, g.inner) + kv_text("right"@, g.right) + kv_text("rmargin"@, g.rmargin) + kv_text("outer"@, g.outer) + kv_text("top"@, g.top) + kv_text("tmargin"@, g.tmargin) + kv_text("bottom"@, g.bottom) + kv_text("bmargin"@, g.bmargin) + kv_text("headheight"@, g.headheight) + kv_text("footsep"@, g.footsep) + kv_text("footskip"@, g.footskip) + kv_text("marginparwidth"@, g.marginparwidth) + kv_text("marginpar"@, g.marginpar) + others_text(g.others));
    assert(ps.take(22) =~= ps);
}

/// Every named option of a geometry that is set is written as `name=value,`: no option is
/// dropped.
pub proof fn law_named_options_written(g: Geometry)
    ensures
        g.margin matches Some(v) ==> occurs_in(geometry_text(g), "margin"@ + "="@ + v@ + ","@),
        g.textwidth matches Some(v) ==> occurs_in(geometry_text(g), "textwidth"@ + "="@ + v@ + ","@),
        g.textheight matches Some(v) ==> occurs_in(geometry_text(g), "textheight"@ + "="@ + v@ + ","@),
        g.total matches Some(v) ==> occurs_in(geometry_text(g), "total"@ + "="@ + v@ + ","@),
        g.left matches Some(v) ==> occurs_in(geometry_text(g), "left"@ + "="@ + v@ + ","@),
        g.lmargin matches Some(v) ==> occurs_in(geometry_text(g), "lmargin"@ + "="@ + v@ + ","@),
        g.inner matches Some(v) ==> occurs_in(geometry_text(g), "inner"@ + "="@ + v@ + ","@),
        g.right matches Some(v) ==> occurs_in(geometry_text(g), "right"@ + "="@ + v@ + ","@),
        g.rmargin matches Some(v) ==> occurs_in(geometry_text(g), "rmargin"@ + "="@ + v@ + ","@),
        g.outer matches Some(v) ==> occurs_in(geometry_text(g), "outer"@ + "="@ + v@ + ","@),
        g.top matches Some(v) ==> occurs_in(geometry_text(g), "top"@ + "="@ + v@ + ","@),
        g.tmargin matches Some(v) ==> occurs_in(geometry_text(g), "tmargin"@ + "="@ + v@ + ","@),
        g.bottom matches Some(v) ==> occurs_in(geometry_text(g), "bottom"@ + "="@ + v@ + ","@),
        g.bmargin matches Some(v) ==> occurs_in(geometry_text(g), "bmargin"@ + "="@ + v@ + ","@),
        g.headheight matches Some(v) ==> occurs_in(geometry_text(g), "headheight"@ + "="@ + v@ + ","@),
        g.footsep matches Some(v) ==> occurs_in(geometry_text(g), "footsep"@ + "="@ + v@ + ","@),
        g.footskip matches Some(v) ==> occurs_in(geometry_text(g), "footskip"@ + "="@ + v@ + ","@),
        g.marginparwidth matches Some(v) ==> occurs_in(geometry_text(g), "marginparwidth"@ + "="@ + v@ + ","@),
        g.marginpar matches Some(v) ==> occurs_in(geometry_text(g), "marginpar"@ + "="@ + v@ + ","@),
{
    let ps = geometry_pieces(g);
    lemma_geometry_pieces(g);
    lemma_concat_all_occurs(ps, 2);
    lemma_concat_all_occurs(ps, 3);
    lemma_concat_all_occurs(ps, 4);
    lemma_concat_all_occurs(ps, 5);
    lemma_concat_all_occurs(ps, 6);
    lemma_concat_all_occurs(ps, 7);
    lemma_concat_all_occurs(ps, 8);
    lemma_concat_all_occurs(ps, 9);
    lemma_concat_all_occurs(ps, 10);
    lemma_concat_all_occurs(ps, 11);
    lemma_concat_all_occurs(ps, 12);
    lemma_concat_all_occurs(ps, 13);
    lemma_concat_all_occurs(ps, 14);
    lemma_concat_all_occurs(ps, 15);
    lemma_concat_all_occurs(ps, 16);
    lemma_concat_all_occurs(ps, 17);
    lemma_concat_all_occurs(ps, 18);
    lemma_concat_all_occurs(ps, 19);
    lemma_concat_all_occurs(ps, 20);
}

} // verus!

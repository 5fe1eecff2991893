//! Classification of markdown link destinations: includes, commands, biber citations,
//! links to labels inside the document and links to outside destinations.
use vstd::prelude::*;

use crate::event::{opt_view, BiberReference, InterLink, Url};
use crate::ext::{byte_len, char_index_of, lead_ws_count, starts_with_ignore_case_spec, CowExt, StrExt};
use crate::text::{
    ascii_lower_seq, eq_ignore_case, char_index, char_width, chars_of, is_boundary, is_ws, lead_ws,
    lemma_char_index, lemma_char_width, lemma_lead_ws_props, lemma_utf8_len_concat,
    lemma_utf8_len_take_mono, lemma_utf8_len_take_step, string_from_chars, string_from_range,
    trail_ws, trim, trim_start, utf8_len, width_of,
};

verus! {

/// The kind of a markdown link, as the markdown parser reports it.
#[derive(Debug, Clone, Copy, PartialEq, Eq, Structural)]
pub enum LinkType {
    Inline,
    Reference,
    ReferenceUnknown,
    Collapsed,
    CollapsedUnknown,
    Shortcut,
    ShortcutUnknown,
    Autolink,
    Email,
}

/// What a link destination stands for.
#[derive(Debug)]
pub enum ReferenceParseResult {
    BiberReferences(Vec<BiberReference>),
    Url(Url),
    InterLink(InterLink),
    UrlWithContent(Url),
    InterLinkWithContent(InterLink),
    /// A command; holds the destination that was recognised as one.
    Command(String),
    ResolveInclude(String),
    Text(String),
}

/// Mathematical view of a [`ReferenceParseResult`].
pub enum RefView {
    BiberReferences(Seq<(Seq<char>, Option<Seq<char>>)>),
    Url(Seq<char>, Option<Seq<char>>),
    InterLink(Seq<char>, bool),
    UrlWithContent(Seq<char>, Option<Seq<char>>),
    InterLinkWithContent(Seq<char>, bool),
    Command(Seq<char>),
    ResolveInclude(Seq<char>),
    Text(Seq<char>),
}

pub open spec fn pair_view(p: (String, Option<String>)) -> (Seq<char>, Option<Seq<char>>) {
    (p.0@, opt_view(p.1))
}

pub open spec fn biber_view(b: BiberReference) -> (Seq<char>, Option<Seq<char>>) {
    (b.reference@, opt_view(b.attributes))
}

pub open spec fn result_view(r: ReferenceParseResult) -> RefView {
    match r {
        ReferenceParseResult::BiberReferences(v) => RefView::BiberReferences(
            v@.map_values(|b: BiberReference| biber_view(b)),
        ),
        ReferenceParseResult::Url(u) => RefView::Url(u.destination@, opt_view(u.title)),
        ReferenceParseResult::InterLink(l) => RefView::InterLink(l.label@, l.uppercase),
        ReferenceParseResult::UrlWithContent(u) => RefView::UrlWithContent(
            u.destination@,
            opt_view(u.title),
        ),
        ReferenceParseResult::InterLinkWithContent(l) => RefView::InterLinkWithContent(
            l.label@,
            l.uppercase,
        ),
        ReferenceParseResult::Command(c) => RefView::Command(c@),
        ReferenceParseResult::ResolveInclude(s) => RefView::ResolveInclude(s@),
        ReferenceParseResult::Text(s) => RefView::Text(s@),
    }
}

/// Unicode uppercase property of a character (`char::is_uppercase`).
pub uninterp spec fn char_is_uppercase(c: char) -> bool;

/// `char::is_uppercase`.
///
/// Trusted: the contract claims only that the result is the Unicode `Uppercase` property
/// of `c`, named by `char_is_uppercase`; the property's tables are not stated.
#[verifier::external_body]
fn is_uppercase(c: char) -> (r: bool)
    ensures
        r == char_is_uppercase(c),
{
    c.is_uppercase()
}

// ----------------------------------------------------------------------------------------
// searching

/// Index of the first `ch` at or after `i`, or the length when there is none.
pub open spec fn first_from(s: Seq<char>, ch: char, i: int) -> int
    decreases s.len() - i,
{
    if i >= s.len() {
        s.len() as int
    } else if s[i] == ch {
        i
    } else {
        first_from(s, ch, i + 1)
    }
}

/// Index of the last `ch` within `lo..hi`, if any.
pub open spec fn last_in(s: Seq<char>, ch: char, lo: int, hi: int) -> Option<int>
    decreases hi - lo,
{
    if hi <= lo {
        None
    } else if s[hi - 1] == ch {
        Some(hi - 1)
    } else {
        last_in(s, ch, lo, hi - 1)
    }
}

pub proof fn lemma_first_from(s: Seq<char>, ch: char, i: int)
    requires
        0 <= i,
    ensures
        i <= s.len() ==> i <= first_from(s, ch, i) <= s.len(),
        i > s.len() ==> first_from(s, ch, i) == s.len(),
        first_from(s, ch, i) < s.len() ==> s[first_from(s, ch, i)] == ch,
    decreases s.len() - i,
{
    if i < s.len() && s[i] != ch {
        lemma_first_from(s, ch, i + 1);
    }
}

/// The first `ch` from `i` on is no later than any `ch` from `i` on.
pub proof fn lemma_first_from_le(s: Seq<char>, ch: char, i: int, k: int)
    requires
        0 <= i <= k < s.len(),
        s[k] == ch,
    ensures
        first_from(s, ch, i) <= k,
    decreases k - i,
{
    if s[i] != ch {
        lemma_first_from_le(s, ch, i + 1, k);
    }
}

pub proof fn lemma_last_in(s: Seq<char>, ch: char, lo: int, hi: int)
    ensures
        last_in(s, ch, lo, hi) matches Some(q) ==> lo <= q < hi && s[q] == ch,
    decreases hi - lo,
{
    if hi > lo && s[hi - 1] != ch {
        lemma_last_in(s, ch, lo, hi - 1);
    }
}

fn find_from(v: &Vec<char>, ch: char, i: usize) -> (r: usize)
    requires
        i <= v@.len(),
    ensures
        r == first_from(v@, ch, i as int),
{
    let mut j = i;
    while j < v.len() && v[j] != ch
        invariant
            i <= j <= v@.len(),
            first_from(v@, ch, j as int) == first_from(v@, ch, i as int),
        decreases v@.len() - j,
    {
        j = j + 1;
    }
    j
}

fn rfind_in(v: &Vec<char>, ch: char, lo: usize, hi: usize) -> (r: Option<usize>)
    requires
        lo <= hi <= v@.len(),
    ensures
        match r {
            Some(q) => last_in(v@, ch, lo as int, hi as int) == Some(q as int),
            None => last_in(v@, ch, lo as int, hi as int) is None,
        },
{
    let mut h = hi;
    while h > lo && v[h - 1] != ch
        invariant
            lo <= h <= hi <= v@.len(),
            last_in(v@, ch, lo as int, h as int) == last_in(v@, ch, lo as int, hi as int),
        decreases h,
    {
        h = h - 1;
    }
    if h > lo {
        Some(h - 1)
    } else {
        None
    }
}

// ----------------------------------------------------------------------------------------
// byte lengths

pub proof fn lemma_subrange_len_le(s: Seq<char>, lo: int, hi: int)
    requires
        0 <= lo <= hi <= s.len(),
    ensures
        utf8_len(s.subrange(lo, hi)) <= utf8_len(s),
{
    assert(s =~= s.take(lo) + (s.subrange(lo, hi) + s.skip(hi)));
    lemma_utf8_len_concat(s.take(lo), s.subrange(lo, hi) + s.skip(hi));
    lemma_utf8_len_concat(s.subrange(lo, hi), s.skip(hi));
}

/// A prefix of ASCII characters takes one byte per character.
pub proof fn lemma_ascii_prefix(s: Seq<char>, k: int)
    requires
        0 <= k <= s.len(),
        forall|i: int| 0 <= i < k ==> (#[trigger] s[i] as u32) < 0x80,
    ensures
        utf8_len(s.take(k)) == k,
    decreases k,
{
    if k > 0 {
        lemma_ascii_prefix(s, k - 1);
        lemma_utf8_len_take_step(s, k - 1);
        lemma_char_width(s[k - 1]);
    } else {
        assert(s.take(0) =~= Seq::<char>::empty());
    }
}

/// Bytes of the characters `lo..hi`.
fn bytes_between(v: &Vec<char>, lo: usize, hi: usize) -> (n: usize)
    requires
        lo <= hi <= v@.len(),
        utf8_len(v@) <= usize::MAX,
    ensures
        n == utf8_len(v@.subrange(lo as int, hi as int)),
{
    let mut n: usize = 0;
    let mut i = lo;
    assert(v@.subrange(lo as int, lo as int) =~= Seq::<char>::empty());
    while i < hi
        invariant
            lo <= i <= hi <= v@.len(),
            utf8_len(v@) <= usize::MAX,
            n == utf8_len(v@.subrange(lo as int, i as int)),
        decreases hi - i,
    {
        proof {
            assert(v@.subrange(lo as int, i + 1).drop_last() =~= v@.subrange(lo as int, i as int));
            lemma_subrange_len_le(v@, lo as int, i + 1);
        }
        n = n + width_of(v[i]);
        i = i + 1;
    }
    n
}

// ----------------------------------------------------------------------------------------
// biber citations

/// A single citation `@key rest`, trimmed: the key after `@` up to the first space, and
/// what follows that space.
pub open spec fn single_biber(t: Seq<char>) -> (Seq<char>, Option<Seq<char>>) {
    let u = trim(t);
    let p = first_from(u, ' ', 0);
    (u.subrange(1, p), if p < u.len() { Some(u.skip(p + 1)) } else { None })
}

/// `single_biber` is defined on `t`: trimmed, it starts with `@`.
pub open spec fn single_ok(t: Seq<char>) -> bool {
    trim(t).len() > 0 && trim(t)[0] == '@'
}

/// Start of the next citation: the next `@` after the current one.
pub open spec fn biber_next_at(s: Seq<char>) -> int {
    first_from(s, '@', lead_ws(s) as int + 1)
}

/// Byte offset where the current citation ends: the last `,` before the next citation,
/// counted from the current citation's `@`; the whole length when there is none.
pub open spec fn biber_single_end(s: Seq<char>) -> int {
    let k = lead_ws(s) as int;
    match last_in(s, ',', k, biber_next_at(s)) {
        Some(q) => utf8_len(s.subrange(k, q)) as int,
        None => utf8_len(s) as int,
    }
}

/// The text of the current citation.
pub open spec fn biber_chunk(s: Seq<char>) -> Seq<char> {
    s.subrange(lead_ws(s) as int, char_index(s, biber_single_end(s)))
}

/// The citations of `s`, one after the other.
pub open spec fn biber_list(s: Seq<char>) -> Seq<(Seq<char>, Option<Seq<char>>)>
    decreases s.len(),
{
    if s.len() == 0 {
        Seq::empty()
    } else {
        proof {
            lemma_lead_ws_props(s);
            lemma_first_from(s, '@', lead_ws(s) as int + 1);
        }
        seq![single_biber(biber_chunk(s))] + biber_list(s.skip(biber_next_at(s)))
    }
}

/// `biber_list` is defined on `s`: each citation starts, after ASCII whitespace, with `@`,
/// its end falls on a character boundary after its start, and it is a valid single citation.
pub open spec fn biber_ok(s: Seq<char>) -> bool
    decreases s.len(),
{
    if s.len() == 0 {
        true
    } else {
        proof {
            lemma_lead_ws_props(s);
            lemma_first_from(s, '@', lead_ws(s) as int + 1);
        }
        let k = lead_ws(s) as int;
        &&& k < s.len()
        &&& s[k] == '@'
        &&& forall|i: int| 0 <= i < k ==> (#[trigger] s[i] as u32) < 0x80
        &&& k <= biber_single_end(s)
        &&& is_boundary(s, biber_single_end(s))
        &&& single_ok(biber_chunk(s))
        &&& biber_ok(s.skip(biber_next_at(s)))
    }
}

/// Returns (reference, Option<options>)
pub fn parse_single_biber(s: String) -> (r: (String, Option<String>))
    requires
        single_ok(s@),
    ensures
        pair_view(r) == single_biber(s@),
{
    let ghost s0 = s@;
    let mut s = s;
    CowExt::trim_inplace(&mut s);
    let v = chars_of(s.as_str());
    let mut p: usize = 0;
    while p < v.len() && v[p] != ' '
        invariant
            p <= v@.len(),
            v@ == trim(s0),
            first_from(v@, ' ', p as int) == first_from(v@, ' ', 0),
        decreases v@.len() - p,
    {
        p = p + 1;
    }
    proof {
        lemma_first_from(v@, ' ', 1);
    }
    assert(p as int == first_from(v@, ' ', 0));
    let reference = string_from_range(v.as_slice(), 1, p);
    let rest = if p < v.len() {
        Some(string_from_range(v.as_slice(), p + 1, v.len()))
    } else {
        None
    };
    (reference, rest)
}

/// The citations of a text holding one or more of them, as `(reference, attributes)`.
pub fn iter_multiple_biber(s: String) -> (r: Vec<(String, Option<String>)>)
    requires
        biber_ok(s@),
    ensures
        r@.map_values(|p: (String, Option<String>)| pair_view(p)) == biber_list(s@),
{
    let ghost s0 = s@;
    let _ = byte_len(s.as_str());
    let mut cur: Vec<char> = chars_of(s.as_str());
    let mut out: Vec<(String, Option<String>)> = Vec::new();
    while cur.len() > 0
        invariant
            biber_ok(cur@),
            utf8_len(cur@) <= usize::MAX,
            out@.map_values(|p: (String, Option<String>)| pair_view(p)) + biber_list(cur@)
                == biber_list(s0),
        decreases cur@.len(),
    {
        let ghost c0 = cur@;
        proof {
            lemma_lead_ws_props(c0);
            lemma_first_from(c0, '@', lead_ws(c0) as int + 1);
        }
        let k = lead_ws_count(cur.as_slice());
        let c = find_from(&cur, '@', k + 1);
        let se = match rfind_in(&cur, ',', k, c) {
            Some(q) => {
                proof {
                    lemma_last_in(c0, ',', k as int, c as int);
                }
                bytes_between(&cur, k, q)
            },
            None => {
                assert(c0.subrange(0, c0.len() as int) =~= c0);
                bytes_between(&cur, 0, cur.len())
            },
        };
        assert(se as int == biber_single_end(c0));
        let j = match char_index_of(cur.as_slice(), se) {
            Some(j) => j,
            None => {
                assert(false);
                0
            },
        };
        proof {
            lemma_ascii_prefix(c0, k as int);
            if j < k {
                lemma_utf8_len_take_mono(c0, j as int, k as int);
            }
        }
        let chunk = string_from_range(cur.as_slice(), k, j);
        let pair = parse_single_biber(chunk);
        let ghost before = out@;
        out.push(pair);
        let rest = cur.split_off(c);
        proof {
            lemma_subrange_len_le(c0, c as int, c0.len() as int);
            assert(rest@ =~= c0.subrange(c as int, c0.len() as int));
            assert(out@.map_values(|p: (String, Option<String>)| pair_view(p)) =~= before.map_values(
                |p: (String, Option<String>)| pair_view(p),
            ).push(single_biber(biber_chunk(c0))));
            assert(biber_list(c0) =~= seq![single_biber(biber_chunk(c0))] + biber_list(rest@));
        }
        cur = rest;
    }
    proof {
        assert(biber_list(cur@) =~= Seq::<(Seq<char>, Option<Seq<char>>)>::empty());
    }
    out
}

/// Whether a text is a single citation: trimmed, it starts with `@`.
fn single_check(s: String) -> (r: bool)
    ensures
        r == single_ok(s@),
{
    let mut t = s;
    CowExt::trim_inplace(&mut t);
    let v = chars_of(t.as_str());
    v.len() > 0 && v[0] == '@'
}

/// Whether `biber_list` is defined on a text (`biber_ok`).
pub fn biber_check(s: &str) -> (r: bool)
    ensures
        r == biber_ok(s@),
{
    let ghost s0 = s@;
    let _ = byte_len(s);
    let mut cur: Vec<char> = chars_of(s);
    while cur.len() > 0
        invariant
            biber_ok(cur@) == biber_ok(s0),
            s0 == s@,
            utf8_len(cur@) <= usize::MAX,
        decreases cur@.len(),
    {
        let ghost c0 = cur@;
        proof {
            lemma_lead_ws_props(c0);
            lemma_first_from(c0, '@', lead_ws(c0) as int + 1);
        }
        let k = lead_ws_count(cur.as_slice());
        if k >= cur.len() || cur[k] != '@' {
            assert(!biber_ok(c0));
            return false;
        }
        let mut i: usize = 0;
        while i < k
            invariant
                i <= k < c0.len(),
                cur@ == c0,
                k == lead_ws(c0),
                c0[k as int] == '@',
                biber_ok(c0) == biber_ok(s0),
                s0 == s@,
                forall|j: int| 0 <= j < i ==> (#[trigger] c0[j] as u32) < 0x80,
            decreases k - i,
        {
            if (cur[i] as u32) >= 0x80 {
                assert((c0[i as int] as u32) >= 0x80);
                assert(!biber_ok(c0));
                return false;
            }
            i = i + 1;
        }
        let c = find_from(&cur, '@', k + 1);
        let se = match rfind_in(&cur, ',', k, c) {
            Some(q) => {
                proof {
                    lemma_last_in(c0, ',', k as int, c as int);
                }
                bytes_between(&cur, k, q)
            },
            None => {
                assert(c0.subrange(0, c0.len() as int) =~= c0);
                bytes_between(&cur, 0, cur.len())
            },
        };
        assert(se as int == biber_single_end(c0));
        if k > se {
            return false;
        }
        let j = match char_index_of(cur.as_slice(), se) {
            Some(j) => j,
            None => {
                return false;
            },
        };
        proof {
            lemma_ascii_prefix(c0, k as int);
            if j < k {
                lemma_utf8_len_take_mono(c0, j as int, k as int);
            }
        }
        let chunk = string_from_range(cur.as_slice(), k, j);
        assert(chunk@ == biber_chunk(c0));
        if !single_check(chunk) {
            assert(!single_ok(biber_chunk(c0)));
            assert(!biber_ok(c0));
            return false;
        }
        let rest = cur.split_off(c);
        proof {
            lemma_subrange_len_le(c0, c as int, c0.len() as int);
            assert(rest@ =~= c0.skip(c as int));
        }
        cur = rest;
    }
    true
}

// ----------------------------------------------------------------------------------------
// link destinations

/// The word that starts an include (`[include path]`).
pub open spec fn include_word() -> Seq<char> {
    seq!['i', 'n', 'c', 'l', 'u', 'd', 'e', ' ']
}

pub open spec fn is_unknown_link(typ: LinkType) -> bool {
    typ == LinkType::ShortcutUnknown || typ == LinkType::ReferenceUnknown
}

/// Link types whose interlinks and urls carry no content of their own.
pub open spec fn without_content(typ: LinkType) -> bool {
    ||| typ == LinkType::Shortcut
    ||| typ == LinkType::ShortcutUnknown
    ||| typ == LinkType::Collapsed
    ||| typ == LinkType::CollapsedUnknown
}

/// Link types whose urls carry no content of their own.
pub open spec fn url_without_content(typ: LinkType) -> bool {
    ||| typ == LinkType::Autolink
    ||| typ == LinkType::Email
    ||| without_content(typ)
}

/// The destination that is classified: the title for unknown references (it keeps the
/// case as written), with leading whitespace removed.
pub open spec fn link_target(typ: LinkType, dst: Seq<char>, title: Seq<char>) -> Seq<char> {
    trim_start(if is_unknown_link(typ) { title } else { dst })
}

/// `parse_references` is defined on these inputs.
pub open spec fn parse_references_ok(
    has_bibliography: bool,
    typ: LinkType,
    dst: Seq<char>,
    title: Seq<char>,
    is_command: bool,
) -> bool {
    let d = link_target(typ, dst, title);
    let su = typ == LinkType::ShortcutUnknown;
    &&& su ==> (utf8_len(d) <= 8 || is_boundary(d, 8))
    &&& if su && (starts_with_ignore_case_spec(d, include_word()) || is_command) {
        true
    } else if su && d.len() > 0 && d[0] == '@' {
        has_bibliography ==> biber_ok(d)
    } else {
        &&& d.len() > 0
        &&& d[0] != '^'
        &&& d[0] == '#' ==> d.len() >= 2
        &&& d[0] != '#' ==> !(su || typ == LinkType::ReferenceUnknown || typ
            == LinkType::CollapsedUnknown)
    }
}

/// What a link destination stands for.
pub open spec fn spec_parse_references(
    has_bibliography: bool,
    typ: LinkType,
    dst: Seq<char>,
    title: Seq<char>,
    is_command: bool,
) -> RefView {
    let d = link_target(typ, dst, title);
    let su = typ == LinkType::ShortcutUnknown;
    let ttl = if title.len() == 0 {
        None
    } else {
        Some(title)
    };
    if su && starts_with_ignore_case_spec(d, include_word()) {
        RefView::ResolveInclude(d.skip(8))
    } else if su && is_command {
        RefView::Command(d)
    } else if su && d.len() > 0 && d[0] == '@' {
        if !has_bibliography {
            RefView::Text(seq!['['] + d + seq![']'])
        } else if biber_list(d).len() >= 2 {
            RefView::BiberReferences(biber_list(d))
        } else {
            RefView::BiberReferences(seq![single_biber(d)])
        }
    } else if d[0] == '#' {
        let label = d.skip(1);
        if without_content(typ) {
            RefView::InterLink(ascii_lower_seq(label), char_is_uppercase(label[0]))
        } else {
            RefView::InterLinkWithContent(ascii_lower_seq(label), char_is_uppercase(label[0]))
        }
    } else if url_without_content(typ) {
        RefView::Url(d, ttl)
    } else {
        RefView::UrlWithContent(d, ttl)
    }
}

pub proof fn lemma_trail_ws_all(s: Seq<char>)
    ensures
        trail_ws(s) <= s.len(),
        forall|i: int| s.len() - trail_ws(s) <= i < s.len() ==> is_ws(#[trigger] s[i]),
    decreases s.len(),
{
    if s.len() > 0 && is_ws(s.last()) {
        lemma_trail_ws_all(s.drop_last());
        assert forall|i: int| s.len() - trail_ws(s) <= i < s.len() implies is_ws(#[trigger] s[i]) by {
            if i < s.len() - 1 {
                assert(s[i] == s.drop_last()[i]);
            }
        }
    }
}

/// A text starting with `@` is a single citation as it stands.
pub proof fn lemma_at_single_ok(d: Seq<char>)
    requires
        d.len() > 0,
        d[0] == '@',
    ensures
        single_ok(d),
{
    assert(lead_ws(d) == 0);
    assert(trim_start(d) =~= d);
    lemma_trail_ws_all(d);
    assert(trail_ws(d) < d.len());
}

/// The byte offset of the first `n` ASCII characters is their count.
proof fn lemma_ascii_boundary(d: Seq<char>, n: int)
    requires
        0 <= n <= d.len(),
        forall|i: int| 0 <= i < n ==> (#[trigger] d[i] as u32) < 0x80,
    ensures
        is_boundary(d, n),
        char_index(d, n) == n,
{
    lemma_ascii_prefix(d, n);
    lemma_char_index(d, n);
}

fn biber_references(list: Vec<(String, Option<String>)>) -> (r: Vec<BiberReference>)
    ensures
        r@.map_values(|b: BiberReference| biber_view(b)) == list@.map_values(
            |p: (String, Option<String>)| pair_view(p),
        ),
{
    let ghost l0 = list@;
    let mut list = list;
    let mut out: Vec<BiberReference> = Vec::new();
    while list.len() > 0
        invariant
            out@.map_values(|b: BiberReference| biber_view(b)) + list@.map_values(
                |p: (String, Option<String>)| pair_view(p),
            ) == l0.map_values(|p: (String, Option<String>)| pair_view(p)),
        decreases list@.len(),
    {
        let ghost lb = list@;
        let ghost ob = out@;
        let p = list.remove(0);
        out.push(BiberReference { reference: p.0, attributes: p.1 });
        proof {
            assert(lb =~= seq![p] + list@);
            assert(out@.map_values(|b: BiberReference| biber_view(b)) =~= ob.map_values(
                |b: BiberReference| biber_view(b),
            ).push(pair_view(p)));
            assert(lb.map_values(|p: (String, Option<String>)| pair_view(p)) =~= seq![pair_view(p)]
                + list@.map_values(|p: (String, Option<String>)| pair_view(p)));
        }
    }
    assert(list@.map_values(|p: (String, Option<String>)| pair_view(p)) =~= Seq::<
        (Seq<char>, Option<Seq<char>>),
    >::empty());
    out
}

/// Whether `parse_references` is defined on a link (`parse_references_ok`).
pub fn references_ok(
    has_bibliography: bool,
    typ: LinkType,
    dst: &str,
    title: &str,
    is_command: bool,
) -> (r: bool)
    ensures
        r == parse_references_ok(has_bibliography, typ, dst@, title@, is_command),
{
    let unknown = match typ {
        LinkType::ShortcutUnknown | LinkType::ReferenceUnknown => true,
        _ => false,
    };
    let su = match typ {
        LinkType::ShortcutUnknown => true,
        _ => false,
    };
    let mut d = if unknown {
        title.to_owned()
    } else {
        dst.to_owned()
    };
    CowExt::trim_start_inplace(&mut d);
    let ghost target = link_target(typ, dst@, title@);
    assert(d@ == target);
    let v = chars_of(d.as_str());
    let n = byte_len(d.as_str());
    if su && n > 8 && char_index_of(v.as_slice(), 8).is_none() {
        return false;
    }
    if su {
        let word = "include ";
        proof {
            reveal_strlit("include ");
            assert(word@ =~= include_word());
            lemma_ascii_prefix(include_word(), 8);
            assert(include_word().take(8) =~= include_word());
        }
        if StrExt::starts_with_ignore_ascii_case(d.as_str(), word) || is_command {
            return true;
        }
        if v.len() > 0 && v[0] == '@' {
            return !has_bibliography || biber_check(d.as_str());
        }
    }
    if v.len() == 0 || v[0] == '^' {
        return false;
    }
    if v[0] == '#' {
        v.len() >= 2
    } else {
        !(su || typ == LinkType::ReferenceUnknown || typ == LinkType::CollapsedUnknown)
    }
}

/// Classifies a link destination.  `is_command` says whether the destination, without
/// leading whitespace, parses as a command.
pub fn parse_references(
    has_bibliography: bool,
    typ: LinkType,
    dst: String,
    title: String,
    is_command: bool,
) -> (r: ReferenceParseResult)
    requires
        parse_references_ok(has_bibliography, typ, dst@, title@, is_command),
    ensures
        result_view(r) == spec_parse_references(has_bibliography, typ, dst@, title@, is_command),
{
    let ghost target = link_target(typ, dst@, title@);
    let unknown = match typ {
        LinkType::ShortcutUnknown | LinkType::ReferenceUnknown => true,
        _ => false,
    };
    let shortcut_unknown = match typ {
        LinkType::ShortcutUnknown => true,
        _ => false,
    };
    let mut d = if unknown {
        title.clone()
    } else {
        dst
    };
    let title = if title.as_str().is_empty() {
        None
    } else {
        Some(title)
    };
    CowExt::trim_start_inplace(&mut d);
    assert(d@ == target);
    if shortcut_unknown {
        let word = "include ";
        proof {
            reveal_strlit("include ");
            assert(word@ =~= include_word());
            lemma_ascii_prefix(include_word(), 8);
            assert(include_word().take(8) =~= include_word());
        }
        if StrExt::starts_with_ignore_ascii_case(d.as_str(), word) {
            CowExt::truncate_start(&mut d, 8);
            proof {
                let ci = char_index(target, 8);
                assert(0 <= ci <= target.len() && utf8_len(target.take(ci)) == 8);
                assert(ascii_lower_seq(target.take(ci)).len() == ascii_lower_seq(
                    include_word(),
                ).len());
            }
            return ReferenceParseResult::ResolveInclude(d);
        } else if is_command {
            return ReferenceParseResult::Command(d);
        }
    }
    let dv = chars_of(d.as_str());
    if dv.len() > 0 && dv[0] == '@' && shortcut_unknown {
        if !has_bibliography {
            let mut t = String::new();
            crate::text::push_char(&mut t, '[');
            crate::text::push_str(&mut t, d.as_str());
            crate::text::push_char(&mut t, ']');
            assert(t@ =~= seq!['['] + target + seq![']']);
            return ReferenceParseResult::Text(t);
        }
        let list = iter_multiple_biber(d.clone());
        if list.len() >= 2 {
            let refs = biber_references(list);
            proof {
                assert(list@.map_values(|p: (String, Option<String>)| pair_view(p)).len()
                    == list@.len());
            }
            return ReferenceParseResult::BiberReferences(refs);
        } else {
            proof {
                lemma_at_single_ok(target);
                assert(list@.map_values(|p: (String, Option<String>)| pair_view(p)).len()
                    == list@.len());
            }
            let (r, a) = parse_single_biber(d);
            let refs = vec![BiberReference { reference: r, attributes: a }];
            assert(refs@.map_values(|b: BiberReference| biber_view(b)) =~= seq![
                single_biber(target),
            ]);
            return ReferenceParseResult::BiberReferences(refs);
        }
    }
    let prefix = dv[0];
    if prefix == '#' {
        proof {
            lemma_ascii_boundary(target, 1);
        }
        CowExt::truncate_start(&mut d, 1);
        let lv = chars_of(d.as_str());
        let uppercase = is_uppercase(lv[0]);
        CowExt::make_ascii_lowercase_inplace(&mut d);
        let link = InterLink { label: d, uppercase };
        match typ {
            LinkType::Shortcut
            | LinkType::ShortcutUnknown
            | LinkType::Collapsed
            | LinkType::CollapsedUnknown => ReferenceParseResult::InterLink(link),
            _ => ReferenceParseResult::InterLinkWithContent(link),
        }
    } else {
        let url = Url { destination: d, title };
        match typ {
            LinkType::Autolink
            | LinkType::Email
            | LinkType::Shortcut
            | LinkType::ShortcutUnknown
            | LinkType::Collapsed
            | LinkType::CollapsedUnknown => ReferenceParseResult::Url(url),
            _ => ReferenceParseResult::UrlWithContent(url),
        }
    }
}

/// The label of a link to a label, where the link is one.
pub open spec fn interlink_label(r: RefView) -> Option<Seq<char>> {
    match r {
        RefView::InterLink(l, _) => Some(l),
        RefView::InterLinkWithContent(l, _) => Some(l),
        _ => None,
    }
}

/// Whether a text holds no ASCII uppercase letter.
pub open spec fn no_ascii_upper(t: Seq<char>) -> bool {
    forall|i: int| 0 <= i < t.len() ==> !('A' <= #[trigger] t[i] <= 'Z')
}

proof fn lemma_ascii_lower_props(t: Seq<char>)
    ensures
        no_ascii_upper(ascii_lower_seq(t)),
        ascii_lower_seq(ascii_lower_seq(t)) == ascii_lower_seq(t),
{
    assert forall|i: int| 0 <= i < t.len() implies !('A' <= #[trigger] ascii_lower_seq(t)[i] <= 'Z') by {
        let c = t[i];
        if 'A' <= c <= 'Z' {
            assert(((c as u32) + 32) as char as u32 == (c as u32) + 32);
        }
    }
    assert(ascii_lower_seq(ascii_lower_seq(t)) =~= ascii_lower_seq(t));
}

/// A link to a label `#x` is labelled `x` in ASCII lowercase, whatever the kind of link:
/// the label holds no ASCII uppercase letter and is the target without `#` up to ASCII case.
pub proof fn law_interlink_labels_lowercase(
    has_bibliography: bool,
    typ: LinkType,
    dst: Seq<char>,
    title: Seq<char>,
    is_command: bool,
)
    ensures
        interlink_label(spec_parse_references(has_bibliography, typ, dst, title, is_command)) matches Some(l)
            ==> no_ascii_upper(l) && eq_ignore_case(l, link_target(typ, dst, title).skip(1)),
{
    lemma_ascii_lower_props(link_target(typ, dst, title).skip(1));
}

/// Two links to the same label get the same label, whether they have content of their own
/// or not: a heading is reached by both kinds alike.
pub proof fn law_interlink_kinds_agree(
    has_bibliography: bool,
    typ1: LinkType,
    dst1: Seq<char>,
    title1: Seq<char>,
    is_command1: bool,
    typ2: LinkType,
    dst2: Seq<char>,
    title2: Seq<char>,
    is_command2: bool,
)
    requires
        link_target(typ1, dst1, title1) == link_target(typ2, dst2, title2),
        interlink_label(spec_parse_references(has_bibliography, typ1, dst1, title1, is_command1)) is Some,
        interlink_label(spec_parse_references(has_bibliography, typ2, dst2, title2, is_command2)) is Some,
    ensures
        interlink_label(spec_parse_references(has_bibliography, typ1, dst1, title1, is_command1))
            == interlink_label(spec_parse_references(has_bibliography, typ2, dst2, title2, is_command2)),
{
    law_interlink_labels_lowercase(has_bibliography, typ1, dst1, title1, is_command1);
    law_interlink_labels_lowercase(has_bibliography, typ2, dst2, title2, is_command2);
    let l1 = interlink_label(spec_parse_references(has_bibliography, typ1, dst1, title1, is_command1))->0;
    let l2 = interlink_label(spec_parse_references(has_bibliography, typ2, dst2, title2, is_command2))->0;
    lemma_lower_unique(l1, l2);
}

/// Two texts without ASCII uppercase letters that are equal up to ASCII case are equal.
proof fn lemma_lower_unique(a: Seq<char>, b: Seq<char>)
    requires
        no_ascii_upper(a),
        no_ascii_upper(b),
        ascii_lower_seq(a) == ascii_lower_seq(b),
    ensures
        a == b,
{
    assert(ascii_lower_seq(a) =~= a);
    assert(ascii_lower_seq(b) =~= b);
}

} // verus!

//! Comma separated key-value pairs, the element configs of the markdown source:
//! `{#label, caption="A \"quoted\" caption", figure=false, nofigure}`.
use vstd::prelude::*;

use crate::error::DiagnosticCode;
use crate::ext::{byte_len, char_index_of, lead_ws_count, CowExt};
use crate::range::SourceRange;
use crate::text::{
    char_index, char_width, chars_of, is_boundary, lead_ws, lemma_char_index, lemma_lead_ws_props,
    lemma_utf8_len_concat, lemma_utf8_len_take_le, trim, trim_start, utf8_len, width_of,
};

verus! {

/// What a double-quoted string at the start of `input` splits it into: the quoted string
/// and what follows it.
pub uninterp spec fn quoted_split(input: Seq<char>) -> Option<(Seq<char>, Seq<char>)>;

/// The content of a quoted string, without its quotes and escapes.
pub uninterp spec fn quoted_content(quoted: Seq<char>) -> Option<Seq<char>>;

/// `quoted_string::parse::<TestSpec>`.
///
/// Trusted: the contract claims that the result is named by `quoted_split`, and, as the
/// crate's source shows, that the quoted string is a start of `input` that begins and ends
/// with its own `"` (so it holds two characters at least) and the tail is the rest of it.
/// The grammar of quoted strings is not stated.
#[verifier::external_body]
fn parse_quoted(input: &str) -> (r: Option<(String, String)>)
    ensures
        match r {
            Some((q, t)) => quoted_split(input@) == Some((q@, t@)) && q@.len() >= 2 && q@[0] == '"'
                && q@.last() == '"' && q@ + t@ == input@,
            None => quoted_split(input@) is None,
        },
{
    match quoted_string::parse::<quoted_string::test_utils::TestSpec>(input) {
        Ok(parsed) => Some((parsed.quoted_string.to_string(), parsed.tail.to_string())),
        Err(_) => None,
    }
}

/// `quoted_string::to_content::<TestSpec>`.
///
/// Trusted: the contract claims only that the result is named by `quoted_content`; how the
/// quotes and escapes are removed is not stated.  The crate computes the content's capacity
/// as the input's length less two, so the input must hold two characters at least.
#[verifier::external_body]
fn quoted_to_content(quoted: &str) -> (r: Option<String>)
    requires
        quoted@.len() >= 2,
    ensures
        match r {
            Some(c) => quoted_content(quoted@) == Some(c@),
            None => quoted_content(quoted@) is None,
        },
{
    match quoted_string::to_content::<quoted_string::test_utils::TestSpec>(quoted) {
        Ok(c) => Some(c.into_owned()),
        Err(_) => None,
    }
}

/// A value with the source range it was parsed from.
#[derive(Debug, Clone, PartialEq, Eq)]
pub struct Spanned<T> {
    pub value: T,
    pub span: SourceRange,
}

impl<T> Spanned<T> {
    pub fn new(value: T, span: SourceRange) -> (r: Spanned<T>)
        ensures
            r.value == value,
            r.span == span,
    {
        Spanned { value, span }
    }
}

/// A parsed entry: `key=value` or a single value.
#[derive(Debug, PartialEq, Eq)]
pub enum Value {
    Double(String, String),
    Single(String),
}

/// The marker of an error that was reported as a diagnostic.
#[derive(Debug, PartialEq, Eq)]
pub struct Diagnostic;

// ----------------------------------------------------------------------------------------
// the parser, mathematically

/// The state of a parser: what is left, and where it starts in the source.
pub struct PState {
    pub rest: Seq<char>,
    pub start: int,
}

/// A parsed entry, mathematically.
pub enum ValueView {
    Double(Seq<char>, Seq<char>),
    Single(Seq<char>),
}

/// The outcome of one step of the parser.
pub enum NextOutcome {
    Failed,
    Done,
    Item(ValueView, (int, int)),
}

/// Leading whitespace skipped.
pub open spec fn ws_skipped(p: PState) -> PState {
    PState { rest: trim_start(p.rest), start: p.start + utf8_len(p.rest.take(lead_ws(p.rest) as int)) }
}

/// Skips whitespace and one delimiter character, if any: the delimiter, its range, and the
/// state after it.
pub open spec fn delimiter_step(p: PState) -> (Option<char>, (int, int), PState) {
    let q = ws_skipped(p);
    if q.rest.len() == 0 {
        (None, (q.start, q.start), q)
    } else {
        let w = char_width(q.rest[0]) as int;
        (Some(q.rest[0]), (q.start, q.start + w), PState { rest: q.rest.skip(1), start: q.start + w })
    }
}

/// Position of the first character of `s` that is one of `delims`, or the length.
pub open spec fn first_delim(s: Seq<char>, delims: Seq<char>) -> int
    decreases s.len(),
{
    if s.len() == 0 {
        0
    } else if delims.contains(s[0]) {
        0
    } else {
        1 + first_delim(s.drop_first(), delims)
    }
}

/// An unquoted value up to the first delimiter, trimmed, with its range; and the state at
/// that delimiter.
pub open spec fn unquoted_step(p: PState, delims: Seq<char>) -> ((Seq<char>, (int, int)), PState) {
    let idx = first_delim(p.rest, delims);
    let val = p.rest.take(idx);
    let bidx = utf8_len(val) as int;
    let ts = utf8_len(val.take(lead_ws(val) as int)) as int;
    let v = trim(val);
    let te = bidx - ts - utf8_len(v);
    ((v, (p.start + ts, p.start + bidx - te)), PState { rest: p.rest.skip(idx), start: p.start + bidx })
}

/// A double-quoted value: its content and the range of the quoted string, and the state
/// after it; `None` where it is not a valid quoted string.
pub open spec fn quoted_step(p: PState) -> Option<((Seq<char>, (int, int)), PState)> {
    match quoted_split(p.rest) {
        None => None,
        Some((q, t)) => if !(q.len() > 0 && q + t == p.rest) {
            None
        } else {
            match quoted_content(q) {
            None => None,
            Some(c) => Some(
                (
                    (c, (p.start, p.start + utf8_len(q))),
                    PState { rest: t, start: p.start + utf8_len(q) },
                ),
            ),
            }
        },
    }
}

/// A value, quoted or not, after leading whitespace; `None` for an invalid quoted string,
/// with the state after the whitespace.
pub open spec fn single_step(p: PState, delims: Seq<char>) -> (Option<(Seq<char>, (int, int))>, PState) {
    let q = ws_skipped(p);
    if q.rest.len() > 0 && q.rest[0] == '"' {
        match quoted_step(q) {
            Some((v, q2)) => (Some(v), q2),
            None => (None, q),
        }
    } else {
        let (v, q2) = unquoted_step(q, delims);
        (Some(v), q2)
    }
}

pub open spec fn key_delims() -> Seq<char> {
    seq!['=', ',']
}

pub open spec fn value_delims() -> Seq<char> {
    seq![',']
}

/// One step of the parser: the outcome, the state after it, and the diagnostics it reports.
pub open spec fn next_spec(p: PState) -> (NextOutcome, PState, Seq<DiagnosticCode>) {
    if p.rest.len() == 0 {
        (NextOutcome::Done, p, Seq::empty())
    } else {
        let (k, p1) = single_step(p, key_delims());
        match k {
            None => (NextOutcome::Failed, p1, seq![DiagnosticCode::InvalidDoubleQuotedString]),
            Some((key, kspan)) => {
                let (d, _dspan, p2) = delimiter_step(p1);
                if d == Some('=') {
                    let (v, p3) = single_step(p2, value_delims());
                    match v {
                        None => (
                            NextOutcome::Failed,
                            p3,
                            seq![DiagnosticCode::InvalidDoubleQuotedString],
                        ),
                        Some((val, vspan)) => {
                            let (d2, _d2span, p4) = delimiter_step(p3);
                            if !(d2 is None || d2 == Some(',')) {
                                (
                                    NextOutcome::Done,
                                    PState { rest: Seq::empty(), start: p4.start },
                                    seq![DiagnosticCode::InvalidCskvp],
                                )
                            } else {
                                (
                                    NextOutcome::Item(ValueView::Double(key, val), (kspan.0, vspan.1)),
                                    p4,
                                    Seq::empty(),
                                )
                            }
                        },
                    }
                } else if !(d is None || d == Some(',')) {
                    (
                        NextOutcome::Done,
                        PState { rest: Seq::empty(), start: p2.start },
                        seq![DiagnosticCode::InvalidCskv],
                    )
                } else {
                    (NextOutcome::Item(ValueView::Single(key), kspan), p2, Seq::empty())
                }
            },
        }
    }
}

// ----------------------------------------------------------------------------------------
// lemmas

pub proof fn lemma_trim_start_bytes(s: Seq<char>)
    ensures
        trim_start(s).len() <= s.len(),
        utf8_len(s.take(lead_ws(s) as int)) + utf8_len(trim_start(s)) == utf8_len(s),
{
    lemma_lead_ws_props(s);
    let k = lead_ws(s) as int;
    assert(s =~= s.take(k) + s.skip(k));
    lemma_utf8_len_concat(s.take(k), s.skip(k));
}

pub proof fn lemma_first_delim(s: Seq<char>, delims: Seq<char>)
    ensures
        0 <= first_delim(s, delims) <= s.len(),
        first_delim(s, delims) < s.len() ==> delims.contains(s[first_delim(s, delims)]),
        forall|i: int| 0 <= i < first_delim(s, delims) ==> !delims.contains(#[trigger] s[i]),
    decreases s.len(),
{
    if s.len() > 0 && !delims.contains(s[0]) {
        lemma_first_delim(s.drop_first(), delims);
        assert forall|i: int| 0 <= i < first_delim(s, delims) implies !delims.contains(
            #[trigger] s[i],
        ) by {
            if i > 0 {
                assert(s[i] == s.drop_first()[i - 1]);
            }
        }
    }
}

/// No step of the parser makes what is left longer; a step that yields an entry makes it
/// shorter.
pub proof fn lemma_next_shrinks(p: PState)
    ensures
        next_spec(p).1.rest.len() <= p.rest.len(),
        next_spec(p).0 is Item ==> next_spec(p).1.rest.len() < p.rest.len(),
{
    if p.rest.len() > 0 {
        lemma_single_step(p, key_delims());
        let (k, p1) = single_step(p, key_delims());
        lemma_delimiter_step(p1);
        let (d, _s, p2) = delimiter_step(p1);
        lemma_single_step(p2, value_delims());
        let (v, p3) = single_step(p2, value_delims());
        lemma_delimiter_step(p3);
    }
}

pub proof fn lemma_single_step(p: PState, delims: Seq<char>)
    ensures
        single_step(p, delims).1.rest.len() <= p.rest.len(),
{
    lemma_trim_start_bytes(p.rest);
    let q = ws_skipped(p);
    lemma_first_delim(q.rest, delims);
    if q.rest.len() > 0 && q.rest[0] == '"' {
        match quoted_split(q.rest) {
            Some((qq, t)) => {
                if qq.len() > 0 && qq + t == q.rest {
                    assert(t.len() <= q.rest.len());
                }
            },
            None => {},
        }
    }
}

pub proof fn lemma_delimiter_step(p: PState)
    ensures
        delimiter_step(p).2.rest.len() <= p.rest.len(),
        delimiter_step(p).0 is Some ==> delimiter_step(p).2.rest.len() < p.rest.len(),
        delimiter_step(p).0 is None ==> delimiter_step(p).2.rest.len() == 0,
{
    lemma_trim_start_bytes(p.rest);
}

// ----------------------------------------------------------------------------------------
// the parser

pub open spec fn value_view(v: Value) -> ValueView {
    match v {
        Value::Double(k, val) => ValueView::Double(k@, val@),
        Value::Single(val) => ValueView::Single(val@),
    }
}

pub open spec fn span_view(s: SourceRange) -> (int, int) {
    (s.start as int, s.end as int)
}

/// Parser of comma separated key-value pairs.
#[derive(Debug)]
pub struct Parser {
    rest: String,
    span: SourceRange,
}

impl Parser {
    /// What is left, and where it starts in the source.
    pub closed spec fn state(&self) -> PState {
        PState { rest: self.rest@, start: self.span.start as int }
    }

    /// Where the text ends in the source.
    pub closed spec fn end(&self) -> int {
        self.span.end as int
    }

    /// What is left ends where the text ends, unless nothing is left.
    pub closed spec fn wf(&self) -> bool {
        self.rest@.len() == 0 || self.span.start + utf8_len(self.rest@) == self.span.end
    }

    /// A parser of `s`, which spans `span` in the source.
    pub fn new(s: String, span: SourceRange) -> (r: Parser)
        requires
            span.start + utf8_len(s@) == span.end,
        ensures
            r.wf(),
            r.state() == (PState { rest: s@, start: span.start as int }),
            r.end() == span.end,
    {
        Parser { rest: s, span }
    }

    fn skip_ws(&mut self)
        requires
            old(self).wf(),
        ensures
            final(self).wf(),
            final(self).end() == old(self).end(),
            final(self).state() == ws_skipped(old(self).state()),
    {
        let len = byte_len(self.rest.as_str());
        proof {
            lemma_trim_start_bytes(self.rest@);
        }
        CowExt::trim_start_inplace(&mut self.rest);
        let len2 = byte_len(self.rest.as_str());
        self.span.start = self.span.start + (len - len2);
    }

    fn skip_delimiter(&mut self) -> (r: (Option<char>, SourceRange))
        requires
            old(self).wf(),
        ensures
            final(self).wf(),
            final(self).end() == old(self).end(),
            r.0 == delimiter_step(old(self).state()).0,
            span_view(r.1) == delimiter_step(old(self).state()).1,
            final(self).state() == delimiter_step(old(self).state()).2,
    {
        self.skip_ws();
        let v = chars_of(self.rest.as_str());
        let start = self.span.start;
        if v.len() > 0 {
            let c = v[0];
            let w = width_of(c);
            proof {
                crate::text::lemma_utf8_len_take_step(v@, 0);
                assert(v@.take(0) =~= Seq::<char>::empty());
                lemma_char_index(v@, 1);
                lemma_utf8_len_take_le(v@, 1);
            }
            CowExt::truncate_start(&mut self.rest, w);
            self.span.start = self.span.start + w;
            proof {
                assert(self.rest@.len() == 0 || utf8_len(v@) == w + utf8_len(self.rest@)) by {
                    assert(v@ =~= v@.take(1) + v@.skip(1));
                    lemma_utf8_len_concat(v@.take(1), v@.skip(1));
                }
            }
            (Some(c), SourceRange { start, end: start + w })
        } else {
            (None, SourceRange { start, end: start })
        }
    }

    fn next_unquoted(&mut self, delims: &Vec<char>) -> (r: Spanned<String>)
        requires
            old(self).wf(),
        ensures
            final(self).wf(),
            final(self).end() == old(self).end(),
            r.value@ == unquoted_step(old(self).state(), delims@).0.0,
            span_view(r.span) == unquoted_step(old(self).state(), delims@).0.1,
            final(self).state() == unquoted_step(old(self).state(), delims@).1,
    {
        let ghost p = self.state();
        let v = chars_of(self.rest.as_str());
        let total = byte_len(self.rest.as_str());
        let mut idx: usize = 0;
        proof {
            lemma_first_delim(v@, delims@);
        }
        while idx < v.len() && !contains_char(delims, v[idx])
            invariant
                idx <= v@.len(),
                v@ == p.rest,
                first_delim(v@, delims@) >= idx,
                0 <= first_delim(v@, delims@) <= v@.len(),
                first_delim(v@, delims@) < v@.len() ==> delims@.contains(v@[first_delim(v@, delims@)]),
                forall|i: int| 0 <= i < first_delim(v@, delims@) ==> !delims@.contains(#[trigger] v@[i]),
            decreases v@.len() - idx,
        {
            idx = idx + 1;
        }
        assert(idx as int == first_delim(v@, delims@));
        let bidx = crate::ext::prefix_byte_len(v.as_slice(), idx, total);
        proof {
            lemma_char_index(v@, idx as int);
            lemma_utf8_len_take_le(v@, idx as int);
            assert(v@ =~= v@.take(idx as int) + v@.skip(idx as int));
            lemma_utf8_len_concat(v@.take(idx as int), v@.skip(idx as int));
        }
        let right = CowExt::split_off(&mut self.rest, bidx);
        let mut val = right;
        core::mem::swap(&mut val, &mut self.rest);
        let self_start = self.span.start;
        self.span.start = self.span.start + bidx;
        let ghost vv = val@;
        proof {
            lemma_trim_start_bytes(vv);
            lemma_lead_ws_props(vv);
            crate::text::lemma_trail_ws_le(trim_start(vv));
            lemma_utf8_len_take_le(trim_start(vv), trim_start(vv).len() - crate::text::trail_ws(
                trim_start(vv),
            ));
        }
        let len = bidx;
        CowExt::trim_start_inplace(&mut val);
        let trimmed_start = len - byte_len(val.as_str());
        CowExt::trim_end_inplace(&mut val);
        let trimmed_end = len - trimmed_start - byte_len(val.as_str());
        let span = SourceRange {
            start: self_start + trimmed_start,
            end: self_start + bidx - trimmed_end,
        };
        Spanned { value: val, span }
    }

    fn next_quoted(&mut self) -> (r: Result<Spanned<String>, Diagnostic>)
        requires
            old(self).wf(),
        ensures
            final(self).wf(),
            final(self).end() == old(self).end(),
            match quoted_step(old(self).state()) {
                Some((v, q)) => r matches Ok(x) && x.value@ == v.0 && span_view(x.span) == v.1
                    && final(self).state() == q,
                None => r is Err && final(self).state() == old(self).state(),
            },
    {
        match parse_quoted(self.rest.as_str()) {
            None => Err(Diagnostic),
            Some((q, t)) => match quoted_to_content(q.as_str()) {
                None => Err(Diagnostic),
                Some(content) => {
                    let qlen = byte_len(q.as_str());
                    proof {
                        lemma_utf8_len_concat(q@, t@);
                    }
                    let start = self.span.start;
                    self.rest = t;
                    self.span.start = self.span.start + qlen;
                    Ok(Spanned { value: content, span: SourceRange { start, end: start + qlen } })
                },
            },
        }
    }

    fn next_single(&mut self, delims: &Vec<char>) -> (r: Result<Spanned<String>, Diagnostic>)
        requires
            old(self).wf(),
        ensures
            final(self).wf(),
            final(self).end() == old(self).end(),
            final(self).state() == single_step(old(self).state(), delims@).1,
            match single_step(old(self).state(), delims@).0 {
                Some(v) => r matches Ok(x) && x.value@ == v.0 && span_view(x.span) == v.1,
                None => r is Err,
            },
    {
        self.skip_ws();
        let v = chars_of(self.rest.as_str());
        if v.len() > 0 && v[0] == '"' {
            self.next_quoted()
        } else {
            Ok(self.next_unquoted(delims))
        }
    }

    /// The next entry; `Ok(None)` at the end or after a misplaced delimiter, `Err` for an
    /// invalid quoted string.  Reports its diagnostics to `diagnostics`.
    pub fn next(&mut self, diagnostics: &mut Vec<DiagnosticCode>) -> (r: Result<
        Option<Spanned<Value>>,
        Diagnostic,
    >)
        requires
            old(self).wf(),
        ensures
            final(self).wf(),
            final(self).end() == old(self).end(),
            final(self).state() == next_spec(old(self).state()).1,
            final(diagnostics)@ == old(diagnostics)@ + next_spec(old(self).state()).2,
            match next_spec(old(self).state()).0 {
                NextOutcome::Failed => r is Err,
                NextOutcome::Done => r matches Ok(None),
                NextOutcome::Item(v, sp) => r matches Ok(Some(x)) && value_view(x.value) == v
                    && span_view(x.span) == sp,
            },
    {
        let ghost d0 = diagnostics@;
        if self.rest.as_str().is_empty() {
            assert(diagnostics@ =~= d0 + Seq::<DiagnosticCode>::empty());
            return Ok(None);
        }
        let kd = vec!['=', ','];
        let vd = vec![','];
        assert(kd@ =~= key_delims());
        assert(vd@ =~= value_delims());
        let key = match self.next_single(&kd) {
            Ok(k) => k,
            Err(e) => {
                diagnostics.push(DiagnosticCode::InvalidDoubleQuotedString);
                assert(diagnostics@ =~= d0 + seq![DiagnosticCode::InvalidDoubleQuotedString]);
                return Err(e);
            },
        };
        let (delim, _delim_span) = self.skip_delimiter();
        if delim == Some('=') {
            let value = match self.next_single(&vd) {
                Ok(v) => v,
                Err(e) => {
                    diagnostics.push(DiagnosticCode::InvalidDoubleQuotedString);
                    assert(diagnostics@ =~= d0 + seq![DiagnosticCode::InvalidDoubleQuotedString]);
                    return Err(e);
                },
            };
            let span = SourceRange { start: key.span.start, end: value.span.end };
            let (delim2, _delim2_span) = self.skip_delimiter();
            if !(delim2.is_none() || delim2 == Some(',')) {
                diagnostics.push(DiagnosticCode::InvalidCskvp);
                assert(diagnostics@ =~= d0 + seq![DiagnosticCode::InvalidCskvp]);
                self.rest = String::new();
                return Ok(None);
            }
            assert(diagnostics@ =~= d0 + Seq::<DiagnosticCode>::empty());
            Ok(Some(Spanned { value: Value::Double(key.value, value.value), span }))
        } else {
            if !(delim.is_none() || delim == Some(',')) {
                diagnostics.push(DiagnosticCode::InvalidCskv);
                assert(diagnostics@ =~= d0 + seq![DiagnosticCode::InvalidCskv]);
                self.rest = String::new();
                return Ok(None);
            }
            assert(diagnostics@ =~= d0 + Seq::<DiagnosticCode>::empty());
            Ok(Some(Spanned { value: Value::Single(key.value), span: key.span }))
        }
    }
}

/// `c` is one of `v`.
fn contains_char(v: &Vec<char>, c: char) -> (r: bool)
    ensures
        r == v@.contains(c),
{
    let mut i: usize = 0;
    while i < v.len()
        invariant
            i <= v@.len(),
            forall|j: int| 0 <= j < i ==> v@[j] != c,
        decreases v@.len() - i,
    {
        if v[i] == c {
            assert(v@[i as int] == c);
            return true;
        }
        i = i + 1;
    }
    false
}

// ----------------------------------------------------------------------------------------
// element configs, mathematically

/// A text with its range.
pub open spec fn sv(x: Spanned<String>) -> (Seq<char>, (int, int)) {
    (x.value@, span_view(x.span))
}

pub open spec fn has_entry(m: Seq<(Seq<char>, (Seq<char>, (int, int)))>, k: Seq<char>) -> bool {
    exists|i: int| 0 <= i < m.len() && m[i].0 == k
}

/// Position of the first entry with key `k`.
pub open spec fn entry_index(m: Seq<(Seq<char>, (Seq<char>, (int, int)))>, k: Seq<char>) -> int {
    choose|i: int| 0 <= i < m.len() && m[i].0 == k && forall|j: int| 0 <= j < i ==> m[j].0 != k
}

/// `m` with key `k` set to `v`: the entry of key `k` is replaced in place, or appended.
pub open spec fn put_entry(
    m: Seq<(Seq<char>, (Seq<char>, (int, int)))>,
    k: Seq<char>,
    v: (Seq<char>, (int, int)),
) -> Seq<(Seq<char>, (Seq<char>, (int, int)))> {
    if has_entry(m, k) {
        m.update(entry_index(m, k), (k, v))
    } else {
        m.push((k, v))
    }
}

/// The value of key `k` removed from `m`.
pub open spec fn remove_entry(m: Seq<(Seq<char>, (Seq<char>, (int, int)))>, k: Seq<char>) -> (
    Option<(Seq<char>, (int, int))>,
    Seq<(Seq<char>, (Seq<char>, (int, int)))>,
) {
    if has_entry(m, k) {
        (Some(m[entry_index(m, k)].1), m.remove(entry_index(m, k)))
    } else {
        (None, m)
    }
}

pub open spec fn has_single(m: Seq<(Seq<char>, (int, int))>, v: Seq<char>) -> bool {
    exists|i: int| 0 <= i < m.len() && m[i].0 == v
}

/// Position of the first single value `v`.
pub open spec fn single_index(m: Seq<(Seq<char>, (int, int))>, v: Seq<char>) -> int {
    choose|i: int| 0 <= i < m.len() && m[i].0 == v && forall|j: int| 0 <= j < i ==> m[j].0 != v
}

/// The first single value `v` removed from `m`.
pub open spec fn remove_single(m: Seq<(Seq<char>, (int, int))>, v: Seq<char>) -> (
    Option<(Seq<char>, (int, int))>,
    Seq<(Seq<char>, (int, int))>,
) {
    if has_single(m, v) {
        (Some(m[single_index(m, v)]), m.remove(single_index(m, v)))
    } else {
        (None, m)
    }
}

/// An element config, mathematically.
pub struct CskvpView {
    pub label: Option<(Seq<char>, (int, int))>,
    pub caption: Option<(Seq<char>, (int, int))>,
    pub figure: Option<(bool, (int, int))>,
    pub single: Seq<(Seq<char>, (int, int))>,
    pub double: Seq<(Seq<char>, (Seq<char>, (int, int)))>,
    pub diags: Seq<DiagnosticCode>,
}

pub open spec fn empty_config() -> CskvpView {
    CskvpView {
        label: None,
        caption: None,
        figure: None,
        single: Seq::empty(),
        double: Seq::empty(),
        diags: Seq::empty(),
    }
}

/// Takes one parsed entry: `key=value` is set; `#label` becomes the label (a second one
/// is reported); other single values are kept in order.
pub open spec fn take_entry(acc: CskvpView, v: ValueView, sp: (int, int)) -> CskvpView {
    match v {
        ValueView::Double(k, val) => CskvpView { double: put_entry(acc.double, k, (val, sp)), ..acc },
        ValueView::Single(val) => if val.len() > 0 && val[0] == '#' {
            CskvpView {
                label: Some((val.skip(1), sp)),
                diags: acc.diags + if acc.label is Some {
                    seq![DiagnosticCode::FoundTwoLabels]
                } else {
                    Seq::empty()
                },
                ..acc
            }
        } else {
            CskvpView { single: acc.single.push((val, sp)), ..acc }
        },
    }
}

/// Parses all entries from state `p` on, taking each into `acc`.
pub open spec fn run_entries(p: PState, acc: CskvpView) -> CskvpView
    decreases p.rest.len(),
{
    let (o, p2, d) = next_spec(p);
    let acc1 = CskvpView { diags: acc.diags + d, ..acc };
    match o {
        NextOutcome::Item(v, sp) => {
            proof {
                lemma_next_shrinks(p);
            }
            run_entries(p2, take_entry(acc1, v, sp))
        },
        _ => acc1,
    }
}

/// `figure=true` / `figure=false`: the value, or a reported error for another text.
pub open spec fn figure_value(f: Option<(Seq<char>, (int, int))>) -> (Option<(bool, (int, int))>, Seq<
    DiagnosticCode,
>) {
    match f {
        Some((v, sp)) => if v == "true"@ {
            (Some((true, sp)), Seq::empty())
        } else if v == "false"@ {
            (Some((false, sp)), Seq::empty())
        } else {
            (None, seq![DiagnosticCode::InvalidFigureValue])
        },
        None => (None, Seq::empty()),
    }
}

pub open spec fn flag_of(f: Option<(Seq<char>, (int, int))>, b: bool) -> Option<(bool, (int, int))> {
    match f {
        Some((_v, sp)) => Some((b, sp)),
        None => None,
    }
}

/// The one figure setting among `figure=…`, `figure` and `nofigure`; none, and a reported
/// error, where there are several.
pub open spec fn one_figure(
    a: Option<(bool, (int, int))>,
    b: Option<(bool, (int, int))>,
    c: Option<(bool, (int, int))>,
) -> (Option<(bool, (int, int))>, Seq<DiagnosticCode>) {
    let n = (if a is Some { 1int } else { 0 }) + (if b is Some { 1int } else { 0 }) + (if c is Some {
        1int
    } else {
        0
    });
    if n == 0 {
        (None, Seq::empty())
    } else if n == 1 {
        (if a is Some { a } else if b is Some { b } else { c }, Seq::empty())
    } else {
        (None, seq![DiagnosticCode::MultipleFigureKeys])
    }
}

/// The element config of the text `s` that starts at `start`.
pub open spec fn cskvp_spec(s: Seq<char>, start: int) -> CskvpView {
    let acc = run_entries(PState { rest: s, start }, empty_config());
    let (fd_raw, d1) = remove_entry(acc.double, "figure"@);
    let (fd, diag1) = figure_value(fd_raw);
    let (fig, s1) = remove_single(acc.single, "figure"@);
    let (nofig, s2) = remove_single(s1, "nofigure"@);
    let (figure, diag2) = one_figure(fd, flag_of(fig, true), flag_of(nofig, false));
    let (caption, d2) = remove_entry(d1, "caption"@);
    CskvpView {
        label: acc.label,
        caption,
        figure,
        single: s2,
        double: d2,
        diags: acc.diags + diag1 + diag2,
    }
}

/// The entries of the config text `s` that starts at `start`, before the figure setting
/// and the caption are taken out.
pub open spec fn parsed_entries(s: Seq<char>, start: int) -> CskvpView {
    run_entries(PState { rest: s, start }, empty_config())
}

/// A config whose only figure setting is the single value `nofigure` is not a figure, one
/// whose only figure setting is the single value `figure` is one, and one whose only figure
/// setting is `figure=true` or `figure=false` is as that value says; each time the setting
/// has the range of that entry.
pub proof fn law_figure_flags(s: Seq<char>, start: int)
    ensures
        ({
            let e = parsed_entries(s, start);
            !has_entry(e.double, "figure"@) && !has_single(e.single, "figure"@) && has_single(
                e.single,
                "nofigure"@,
            ) ==> cskvp_spec(s, start).figure == Some(
                (false, e.single[single_index(e.single, "nofigure"@)].1),
            )
        }),
        ({
            let e = parsed_entries(s, start);
            !has_entry(e.double, "figure"@) && has_single(e.single, "figure"@) && !has_single(
                e.single.remove(single_index(e.single, "figure"@)),
                "nofigure"@,
            ) ==> cskvp_spec(s, start).figure == Some(
                (true, e.single[single_index(e.single, "figure"@)].1),
            )
        }),
        ({
            let e = parsed_entries(s, start);
            let f = e.double[entry_index(e.double, "figure"@)].1;
            has_entry(e.double, "figure"@) && !has_single(e.single, "figure"@) && !has_single(
                e.single,
                "nofigure"@,
            ) && (f.0 == "true"@ || f.0 == "false"@) ==> cskvp_spec(s, start).figure == Some(
                (f.0 == "true"@, f.1),
            )
        }),
{
    reveal_strlit("true");
    reveal_strlit("false");
    assert("true"@.len() != "false"@.len());
}

// ----------------------------------------------------------------------------------------
// element configs

pub open spec fn entries_view(m: Seq<(String, Spanned<String>)>) -> Seq<(Seq<char>, (Seq<char>, (int, int)))> {
    Seq::new(m.len(), |i: int| (m[i].0@, sv(m[i].1)))
}

pub open spec fn singles_view(m: Seq<Spanned<String>>) -> Seq<(Seq<char>, (int, int))> {
    Seq::new(m.len(), |i: int| sv(m[i]))
}

pub open spec fn opt_sv(o: Option<Spanned<String>>) -> Option<(Seq<char>, (int, int))> {
    match o {
        Some(x) => Some(sv(x)),
        None => None,
    }
}

pub open spec fn opt_flag(o: Option<Spanned<bool>>) -> Option<(bool, (int, int))> {
    match o {
        Some(x) => Some((x.value, span_view(x.span))),
        None => None,
    }
}

proof fn lemma_entry_index(m: Seq<(Seq<char>, (Seq<char>, (int, int)))>, k: Seq<char>, i: int)
    requires
        0 <= i < m.len(),
        m[i].0 == k,
        forall|j: int| 0 <= j < i ==> m[j].0 != k,
    ensures
        has_entry(m, k),
        entry_index(m, k) == i,
{
    let c = entry_index(m, k);
    if c < i {
    }
    if c > i {
    }
}

proof fn lemma_single_index(m: Seq<(Seq<char>, (int, int))>, v: Seq<char>, i: int)
    requires
        0 <= i < m.len(),
        m[i].0 == v,
        forall|j: int| 0 <= j < i ==> m[j].0 != v,
    ensures
        has_single(m, v),
        single_index(m, v) == i,
{
    let c = single_index(m, v);
    if c < i {
    }
    if c > i {
    }
}

/// Position of the first entry with key `k`, if any.
fn find_entry(m: &Vec<(String, Spanned<String>)>, k: &str) -> (r: Option<usize>)
    ensures
        match r {
            Some(i) => has_entry(entries_view(m@), k@) && i as int == entry_index(entries_view(m@), k@)
                && i < m@.len(),
            None => !has_entry(entries_view(m@), k@),
        },
{
    let ghost mv = entries_view(m@);
    let mut i: usize = 0;
    while i < m.len()
        invariant
            i <= m@.len(),
            mv == entries_view(m@),
            forall|j: int| 0 <= j < i ==> mv[j].0 != k@,
        decreases m@.len() - i,
    {
        if crate::text::str_eq(m[i].0.as_str(), k) {
            proof {
                lemma_entry_index(mv, k@, i as int);
            }
            return Some(i);
        }
        i = i + 1;
    }
    proof {
        if has_entry(mv, k@) {
            let c = choose|c: int| 0 <= c < mv.len() && mv[c].0 == k@;
            assert(mv[c].0 == k@);
        }
    }
    None
}

/// Position of the first single value `v`, if any.
fn find_single(m: &Vec<Spanned<String>>, v: &str) -> (r: Option<usize>)
    ensures
        match r {
            Some(i) => has_single(singles_view(m@), v@) && i as int == single_index(singles_view(m@), v@)
                && i < m@.len(),
            None => !has_single(singles_view(m@), v@),
        },
{
    let ghost mv = singles_view(m@);
    let mut i: usize = 0;
    while i < m.len()
        invariant
            i <= m@.len(),
            mv == singles_view(m@),
            forall|j: int| 0 <= j < i ==> mv[j].0 != v@,
        decreases m@.len() - i,
    {
        if crate::text::str_eq(m[i].value.as_str(), v) {
            proof {
                lemma_single_index(mv, v@, i as int);
            }
            return Some(i);
        }
        i = i + 1;
    }
    proof {
        if has_single(mv, v@) {
            let c = choose|c: int| 0 <= c < mv.len() && mv[c].0 == v@;
            assert(mv[c].0 == v@);
        }
    }
    None
}

fn put_double(m: &mut Vec<(String, Spanned<String>)>, k: String, v: Spanned<String>)
    ensures
        entries_view(final(m)@) == put_entry(entries_view(old(m)@), k@, sv(v)),
{
    let ghost mv = entries_view(m@);
    match find_entry(m, k.as_str()) {
        Some(i) => {
            m.set(i, (k, v));
            assert(entries_view(m@) =~= put_entry(mv, k@, sv(v)));
        },
        None => {
            m.push((k, v));
            assert(entries_view(m@) =~= put_entry(mv, k@, sv(v)));
        },
    }
}

fn take_double_entry(m: &mut Vec<(String, Spanned<String>)>, k: &str) -> (r: Option<Spanned<String>>)
    ensures
        opt_sv(r) == remove_entry(entries_view(old(m)@), k@).0,
        entries_view(final(m)@) == remove_entry(entries_view(old(m)@), k@).1,
{
    let ghost mv = entries_view(m@);
    match find_entry(m, k) {
        Some(i) => {
            let (_key, v) = m.remove(i);
            assert(entries_view(m@) =~= mv.remove(i as int));
            Some(v)
        },
        None => None,
    }
}

fn take_single_value(m: &mut Vec<Spanned<String>>, v: &str) -> (r: Option<Spanned<String>>)
    ensures
        opt_sv(r) == remove_single(singles_view(old(m)@), v@).0,
        singles_view(final(m)@) == remove_single(singles_view(old(m)@), v@).1,
{
    let ghost mv = singles_view(m@);
    match find_single(m, v) {
        Some(i) => {
            let x = m.remove(i);
            assert(singles_view(m@) =~= mv.remove(i as int));
            Some(x)
        },
        None => None,
    }
}

/// An element config: label, caption, figure setting, and the other single values and
/// key-value pairs.
#[derive(Debug)]
pub struct Cskvp {
    span: SourceRange,
    label: Option<Spanned<String>>,
    caption: Option<Spanned<String>>,
    figure: Option<Spanned<bool>>,
    single: Vec<Spanned<String>>,
    double: Vec<(String, Spanned<String>)>,
}

impl Cskvp {
    /// The contents of the config (its diagnostics are those reported while parsing it).
    pub closed spec fn view_with(&self, diags: Seq<DiagnosticCode>) -> CskvpView {
        CskvpView {
            label: opt_sv(self.label),
            caption: opt_sv(self.caption),
            figure: opt_flag(self.figure),
            single: singles_view(self.single@),
            double: entries_view(self.double@),
            diags,
        }
    }

    /// The range of the whole config in the source.
    pub closed spec fn spec_span(&self) -> SourceRange {
        self.span
    }

    /// Parses the config `s`, whose content starts at `content_span.start` in the source;
    /// the whole config spans `span`.  Reports its diagnostics to `diagnostics`.
    pub fn new(
        s: String,
        span: SourceRange,
        content_span: SourceRange,
        diagnostics: &mut Vec<DiagnosticCode>,
    ) -> (r: Cskvp)
        requires
            content_span.start + utf8_len(s@) <= usize::MAX,
        ensures
            r.view_with(cskvp_spec(s@, content_span.start as int).diags) == cskvp_spec(
                s@,
                content_span.start as int,
            ),
            final(diagnostics)@ == old(diagnostics)@ + cskvp_spec(s@, content_span.start as int).diags,
            r.spec_span() == span,
            r.view() == (CskvpView {
                diags: Seq::empty(),
                ..cskvp_spec(s@, content_span.start as int)
            }),
    {
        let ghost d0 = diagnostics@;
        let ghost p0 = PState { rest: s@, start: content_span.start as int };
        let len = byte_len(s.as_str());
        let parser_span = SourceRange { start: content_span.start, end: content_span.start + len };
        let mut parser = Parser::new(s, parser_span);
        let mut single: Vec<Spanned<String>> = Vec::new();
        let mut double: Vec<(String, Spanned<String>)> = Vec::new();
        let mut label: Option<Spanned<String>> = None;
        let ghost mut ldiags: Seq<DiagnosticCode> = Seq::empty();
        proof {
            assert(singles_view(single@) =~= Seq::<(Seq<char>, (int, int))>::empty());
            assert(entries_view(double@) =~= Seq::<(Seq<char>, (Seq<char>, (int, int)))>::empty());
            assert(diagnostics@ =~= d0 + ldiags);
        }
        loop
            invariant_except_break
                run_entries(
                    parser.state(),
                    CskvpView {
                        label: opt_sv(label),
                        caption: None,
                        figure: None,
                        single: singles_view(single@),
                        double: entries_view(double@),
                        diags: ldiags,
                    },
                ) == run_entries(p0, empty_config()),
            invariant
                parser.wf(),
                diagnostics@ == d0 + ldiags,
            ensures
                (CskvpView {
                    label: opt_sv(label),
                    caption: None,
                    figure: None,
                    single: singles_view(single@),
                    double: entries_view(double@),
                    diags: ldiags,
                }) == run_entries(p0, empty_config()),
            decreases parser.state().rest.len(),
        {
            let ghost before = parser.state();
            let ghost acc = CskvpView {
                label: opt_sv(label),
                caption: None,
                figure: None,
                single: singles_view(single@),
                double: entries_view(double@),
                diags: ldiags,
            };
            proof {
                lemma_next_shrinks(before);
            }
            let ghost dn = next_spec(before).2;
            let next = parser.next(diagnostics);
            proof {
                ldiags = ldiags + dn;
                assert(diagnostics@ =~= d0 + ldiags);
            }
            match next {
                Ok(Some(Spanned { value, span: item_span })) => match value {
                    Value::Double(key, val) => {
                        put_double(&mut double, key, Spanned { value: val, span: item_span });
                    },
                    Value::Single(val) => {
                        let v = chars_of(val.as_str());
                        if v.len() > 0 && v[0] == '#' {
                            if label.is_some() {
                                diagnostics.push(DiagnosticCode::FoundTwoLabels);
                                proof {
                                    ldiags = ldiags + seq![DiagnosticCode::FoundTwoLabels];
                                    assert(diagnostics@ =~= d0 + ldiags);
                                }
                            } else {
                                proof {
                                    assert(ldiags =~= ldiags + Seq::<DiagnosticCode>::empty());
                                }
                            }
                            let mut val = val;
                            proof {
                                crate::refs::lemma_ascii_prefix(v@, 1);
                                lemma_char_index(v@, 1);
                            }
                            CowExt::truncate_start(&mut val, 1);
                            label = Some(Spanned { value: val, span: item_span });
                        } else {
                            single.push(Spanned { value: val, span: item_span });
                            assert(singles_view(single@) =~= acc.single.push(
                                (v@, (item_span.start as int, item_span.end as int)),
                            ));
                        }
                    },
                },
                _ => {
                    proof {
                        assert(run_entries(before, acc) == (CskvpView {
                            diags: acc.diags + dn,
                            ..acc
                        }));
                    }
                    break ;
                },
            }
        }
        let figure_double = match take_double_entry(&mut double, "figure") {
            Some(Spanned { value, span: fspan }) => {
                if crate::text::str_eq(value.as_str(), "true") {
                    Some(Spanned { value: true, span: fspan })
                } else if crate::text::str_eq(value.as_str(), "false") {
                    Some(Spanned { value: false, span: fspan })
                } else {
                    diagnostics.push(DiagnosticCode::InvalidFigureValue);
                    None
                }
            },
            None => None,
        };
        let figure = match take_single_value(&mut single, "figure") {
            Some(Spanned { value: _, span: fspan }) => Some(Spanned { value: true, span: fspan }),
            None => None,
        };
        let nofigure = match take_single_value(&mut single, "nofigure") {
            Some(Spanned { value: _, span: fspan }) => Some(Spanned { value: false, span: fspan }),
            None => None,
        };
        let n: usize = (if figure_double.is_some() { 1 } else { 0 }) + (if figure.is_some() {
            1
        } else {
            0
        }) + (if nofigure.is_some() { 1 } else { 0 });
        let figure = if n == 1 {
            if figure_double.is_some() {
                figure_double
            } else if figure.is_some() {
                figure
            } else {
                nofigure
            }
        } else {
            if n > 1 {
                diagnostics.push(DiagnosticCode::MultipleFigureKeys);
            }
            None
        };
        let caption = take_double_entry(&mut double, "caption");
        let r = Cskvp { span, label, caption, figure, single, double };
        proof {
            let spec = cskvp_spec(s@, content_span.start as int);
            assert(diagnostics@ =~= old(diagnostics)@ + spec.diags);
            assert(r.view_with(spec.diags) == spec);
        }
        r
    }
}

/// The notes on attributes of a config that nothing used, in order: label, figure setting,
/// caption, key-value pairs, single values.
pub open spec fn unused_notes(c: CskvpView) -> Seq<(Seq<char>, (int, int))> {
    (match c.label {
        Some((l, sp)) => seq![("label ignored: "@ + l, sp)],
        None => Seq::empty(),
    }) + (match c.figure {
        Some((f, sp)) => seq![
            ("figure config ignored: "@ + if f {
                "true"@
            } else {
                "false"@
            }, sp),
        ],
        None => Seq::empty(),
    }) + (match c.caption {
        Some((t, sp)) => seq![("caption ignored: "@ + t, sp)],
        None => Seq::empty(),
    }) + Seq::new(
        c.double.len(),
        |i: int| ("unknown attribute `"@ + c.double[i].0 + "="@ + c.double[i].1.0 + "`"@, c.double[i].1.1),
    ) + Seq::new(c.single.len(), |i: int| ("unknown attribute `"@ + c.single[i].0 + "`"@, c.single[i].1))
}

fn note(prefix: &str, body: &str, span: SourceRange) -> (r: Spanned<String>)
    ensures
        r.value@ == prefix@ + body@,
        r.span == span,
{
    let mut t = String::new();
    crate::text::push_str(&mut t, prefix);
    crate::text::push_str(&mut t, body);
    assert(t@ =~= prefix@ + body@);
    Spanned { value: t, span }
}

fn note_quoted(prefix: &str, body: &str, suffix: &str, span: SourceRange) -> (r: Spanned<String>)
    ensures
        r.value@ == prefix@ + body@ + suffix@,
        r.span == span,
{
    let mut t = String::new();
    crate::text::push_str(&mut t, prefix);
    crate::text::push_str(&mut t, body);
    crate::text::push_str(&mut t, suffix);
    Spanned { value: t, span }
}

impl Cskvp {
    /// The contents of the config.
    pub closed spec fn view(&self) -> CskvpView {
        self.view_with(Seq::empty())
    }

    /// The range of the whole config in the source.
    pub fn span(&self) -> (r: SourceRange)
        ensures
            r == self.spec_span(),
    {
        self.span
    }

    pub fn has_label(&self) -> (r: bool)
        ensures
            r == self.view().label is Some,
    {
        self.label.is_some()
    }

    pub fn take_label(&mut self) -> (r: Option<Spanned<String>>)
        ensures
            opt_sv(r) == old(self).view().label,
            final(self).view() == (CskvpView { label: None, ..old(self).view() }),
            final(self).spec_span() == old(self).spec_span(),
    {
        let r = self.label.take();
        r
    }

    pub fn take_figure(&mut self) -> (r: Option<Spanned<bool>>)
        ensures
            opt_flag(r) == old(self).view().figure,
            final(self).view() == (CskvpView { figure: None, ..old(self).view() }),
            final(self).spec_span() == old(self).spec_span(),
    {
        self.figure.take()
    }

    pub fn take_caption(&mut self) -> (r: Option<Spanned<String>>)
        ensures
            opt_sv(r) == old(self).view().caption,
            final(self).view() == (CskvpView { caption: None, ..old(self).view() }),
            final(self).spec_span() == old(self).spec_span(),
    {
        self.caption.take()
    }

    /// Takes the value of key `key`.
    pub fn take_double(&mut self, key: &str) -> (r: Option<Spanned<String>>)
        ensures
            opt_sv(r) == remove_entry(old(self).view().double, key@).0,
            final(self).view() == (CskvpView {
                double: remove_entry(old(self).view().double, key@).1,
                ..old(self).view()
            }),
            final(self).spec_span() == old(self).spec_span(),
    {
        take_double_entry(&mut self.double, key)
    }

    /// Removes all elements from `self`, so that nothing is reported as unused.
    pub fn clear(&mut self)
        ensures
            final(self).view() == empty_config(),
            final(self).spec_span() == old(self).spec_span(),
    {
        self.label = None;
        self.figure = None;
        self.caption = None;
        self.single.clear();
        self.double.clear();
        assert(singles_view(self.single@) =~= Seq::<(Seq<char>, (int, int))>::empty());
        assert(entries_view(self.double@) =~= Seq::<(Seq<char>, (Seq<char>, (int, int)))>::empty());
    }

    /// Takes everything that is left and returns the notes on the attributes that nothing
    /// used; a warning about them is due where there are any.
    pub fn unused_attributes(&mut self) -> (r: Vec<Spanned<String>>)
        ensures
            Seq::new(r@.len(), |i: int| sv(r@[i])) == unused_notes(old(self).view()),
            final(self).view() == empty_config(),
            final(self).spec_span() == old(self).spec_span(),
    {
        let ghost c = self.view();
        let mut out: Vec<Spanned<String>> = Vec::new();
        let ghost mut expect: Seq<(Seq<char>, (int, int))> = Seq::empty();
        let ghost e1 = match c.label {
            Some((l, sp)) => seq![("label ignored: "@ + l, sp)],
            None => Seq::<(Seq<char>, (int, int))>::empty(),
        };
        let ghost e2 = match c.figure {
            Some((f, sp)) => seq![
                ("figure config ignored: "@ + if f {
                    "true"@
                } else {
                    "false"@
                }, sp),
            ],
            None => Seq::<(Seq<char>, (int, int))>::empty(),
        };
        let ghost e3 = match c.caption {
            Some((t, sp)) => seq![("caption ignored: "@ + t, sp)],
            None => Seq::<(Seq<char>, (int, int))>::empty(),
        };
        match self.label.take() {
            Some(Spanned { value, span }) => {
                out.push(note("label ignored: ", value.as_str(), span));
            },
            None => {},
        }
        assert(Seq::new(out@.len(), |i: int| sv(out@[i])) =~= e1);
        match self.figure.take() {
            Some(Spanned { value, span }) => {
                let t = if value { "true" } else { "false" };
                out.push(note("figure config ignored: ", t, span));
            },
            None => {},
        }
        assert(Seq::new(out@.len(), |i: int| sv(out@[i])) =~= e1 + e2);
        match self.caption.take() {
            Some(Spanned { value, span }) => {
                out.push(note("caption ignored: ", value.as_str(), span));
            },
            None => {},
        }
        assert(Seq::new(out@.len(), |i: int| sv(out@[i])) =~= e1 + e2 + e3);
        let ghost head = Seq::new(out@.len(), |i: int| sv(out@[i]));
        let mut i: usize = 0;
        let n1 = out.len();
        while i < self.double.len()
            invariant
                i <= self.double@.len(),
                c.double == entries_view(self.double@),
                out@.len() == n1 + i,
                n1 == head.len(),
                forall|j: int| 0 <= j < n1 ==> sv(#[trigger] out@[j]) == head[j],
                forall|j: int|
                    0 <= j < i ==> sv(#[trigger] out@[n1 + j]) == ("unknown attribute `"@ + c.double[j].0
                        + "="@ + c.double[j].1.0 + "`"@, c.double[j].1.1),
            decreases self.double@.len() - i,
        {
            let mut t = String::new();
            crate::text::push_str(&mut t, self.double[i].0.as_str());
            crate::text::push_str(&mut t, "=");
            crate::text::push_str(&mut t, self.double[i].1.value.as_str());
            out.push(note_quoted("unknown attribute `", t.as_str(), "`", self.double[i].1.span));
            i = i + 1;
        }
        let n2 = out.len();
        let mut j: usize = 0;
        while j < self.single.len()
            invariant
                j <= self.single@.len(),
                c.single == singles_view(self.single@),
                c.double.len() + n1 == n2,
                out@.len() == n2 + j,
                n1 == head.len(),
                forall|k: int| 0 <= k < n1 ==> sv(#[trigger] out@[k]) == head[k],
                forall|k: int|
                    0 <= k < c.double.len() ==> sv(#[trigger] out@[n1 + k]) == ("unknown attribute `"@
                        + c.double[k].0 + "="@ + c.double[k].1.0 + "`"@, c.double[k].1.1),
                forall|k: int|
                    0 <= k < j ==> sv(#[trigger] out@[n2 + k]) == ("unknown attribute `"@ + c.single[k].0
                        + "`"@, c.single[k].1),
            decreases self.single@.len() - j,
        {
            out.push(note_quoted("unknown attribute `", self.single[j].value.as_str(), "`", self.single[j].span));
            j = j + 1;
        }
        self.single.clear();
        self.double.clear();
        proof {
            assert(singles_view(self.single@) =~= Seq::<(Seq<char>, (int, int))>::empty());
            assert(entries_view(self.double@) =~= Seq::<(Seq<char>, (Seq<char>, (int, int)))>::empty());
            let ov = Seq::new(out@.len(), |i: int| sv(out@[i]));
            let un = unused_notes(c);
            let dv = Seq::new(
                c.double.len(),
                |i: int| ("unknown attribute `"@ + c.double[i].0 + "="@ + c.double[i].1.0 + "`"@, c.double[i].1.1),
            );
            let svv = Seq::new(c.single.len(), |i: int| ("unknown attribute `"@ + c.single[i].0 + "`"@, c.single[i].1));
            assert(un == e1 + e2 + e3 + dv + svv);
            assert(head == e1 + e2 + e3);
            assert forall|k: int| 0 <= k < ov.len() implies ov[k] == un[k] by {
                if k < n1 {
                    assert(ov[k] == head[k]);
                } else if k < n2 {
                    assert(ov[k] == sv(out@[n1 + (k - n1)]));
                } else {
                    assert(ov[k] == sv(out@[n2 + (k - n2)]));
                }
            }
            assert(ov =~= un);
        }
        out
    }
}

impl Default for Cskvp {
    /// An empty config at `0..0`.
    fn default() -> (r: Cskvp)
        ensures
            r.view() == empty_config(),
            r.spec_span() == (SourceRange { start: 0, end: 0 }),
    {
        let r = Cskvp {
            span: SourceRange { start: 0, end: 0 },
            label: None,
            caption: None,
            figure: None,
            single: Vec::new(),
            double: Vec::new(),
        };
        assert(singles_view(r.single@) =~= Seq::<(Seq<char>, (int, int))>::empty());
        assert(entries_view(r.double@) =~= Seq::<(Seq<char>, (Seq<char>, (int, int)))>::empty());
        r
    }
}

} // verus!

//! Extension operations on texts: case-insensitive prefix tests, in-place trimming,
//! truncation and splitting at byte offsets, and removal of labelled elements from lists.
use vstd::prelude::*;

use crate::range::WithRange;
use crate::text::{
    ascii_lower, ascii_lower_seq, char_index, chars_of, eq_ignore_case, is_boundary, is_whitespace,
    is_ws, lead_ws, lemma_char_index, lemma_lead_ws, lemma_lead_ws_props, lemma_trail_ws,
    lemma_trail_ws_le, lemma_utf8_len_concat, lemma_utf8_len_take_le, lemma_utf8_len_take_mono,
    lemma_utf8_len_take_step, str_eq, string_from_chars, to_ascii_lower, trail_ws, trim, trim_end,
    trim_start, utf8_len, width_of,
};

verus! {

/// `(leading, trailing)` whitespace of `s`, in bytes.  A text that is only whitespace has
/// all of it counted as leading.
pub open spec fn trim_lengths_spec(s: Seq<char>) -> (nat, nat) {
    if lead_ws(s) == s.len() {
        (utf8_len(s), 0)
    } else {
        (utf8_len(s.take(lead_ws(s) as int)), utf8_len(s.skip(s.len() - trail_ws(s))))
    }
}

/// `s` starts with `other` up to ASCII case, where `other` must be strictly shorter (in bytes).
pub open spec fn starts_with_ignore_case_spec(s: Seq<char>, other: Seq<char>) -> bool {
    if utf8_len(other) >= utf8_len(s) {
        false
    } else {
        eq_ignore_case(s.take(char_index(s, utf8_len(other) as int)), other)
    }
}

/// Byte length of a string (`str::len`).
///
/// Trusted: the contract claims that `str::len` is the number of bytes of the UTF-8
/// encoding of the string's characters.
#[verifier::external_body]
pub fn byte_len(s: &str) -> (n: usize)
    ensures
        n == utf8_len(s@),
{
    s.len()
}

/// Byte length of the first `k` characters.
pub fn prefix_byte_len(v: &[char], k: usize, total: usize) -> (n: usize)
    requires
        k <= v@.len(),
        total == utf8_len(v@),
    ensures
        n == utf8_len(v@.take(k as int)),
{
    let mut n: usize = 0;
    let mut i: usize = 0;
    while i < k
        invariant
            i <= k <= v@.len(),
            total == utf8_len(v@),
            n == utf8_len(v@.take(i as int)),
        decreases k - i,
    {
        proof {
            lemma_utf8_len_take_step(v@, i as int);
            lemma_utf8_len_take_le(v@, i as int + 1);
        }
        n = n + width_of(v[i]);
        i = i + 1;
    }
    n
}

/// The character index of byte offset `b`, if `b` is a character boundary.
pub fn char_index_of(v: &[char], b: usize) -> (r: Option<usize>)
    ensures
        r matches Some(k) ==> k <= v@.len() && utf8_len(v@.take(k as int)) == b && char_index(
            v@,
            b as int,
        ) == k,
        r is None ==> !is_boundary(v@, b as int),
{
    let mut acc: usize = 0;
    let mut i: usize = 0;
    while i < v.len()
        invariant
            i <= v@.len(),
            acc == utf8_len(v@.take(i as int)),
            acc <= b,
            forall|j: int| 0 <= j < i ==> utf8_len(#[trigger] v@.take(j)) < b,
        decreases v@.len() - i,
    {
        if acc == b {
            proof {
                lemma_char_index(v@, i as int);
            }
            return Some(i);
        }
        let w = width_of(v[i]);
        proof {
            lemma_utf8_len_take_step(v@, i as int);
        }
        if w > b - acc {
            proof {
                assert forall|k: int| 0 <= k <= v@.len() implies #[trigger] utf8_len(v@.take(k))
                    != b by {
                    if k > i {
                        lemma_utf8_len_take_mono(v@, i as int + 1, k);
                    }
                }
            }
            return None;
        }
        acc = acc + w;
        i = i + 1;
    }
    if acc == b {
        proof {
            lemma_char_index(v@, i as int);
        }
        Some(i)
    } else {
        proof {
            assert forall|k: int| 0 <= k <= v@.len() implies #[trigger] utf8_len(v@.take(k)) != b by {
                if k == v@.len() {
                } else {
                    assert(utf8_len(v@.take(k)) < b);
                }
            }
        }
        None
    }
}

/// Number of leading whitespace characters.
pub fn lead_ws_count(v: &[char]) -> (k: usize)
    ensures
        k == lead_ws(v@),
{
    let mut i: usize = 0;
    while i < v.len() && is_whitespace(v[i])
        invariant
            i <= v@.len(),
            forall|j: int| 0 <= j < i ==> is_ws(#[trigger] v@[j]),
        decreases v@.len() - i,
    {
        i = i + 1;
    }
    proof {
        lemma_lead_ws(v@, i as int);
    }
    i
}

/// Number of trailing whitespace characters.
pub fn trail_ws_count(v: &[char]) -> (k: usize)
    ensures
        k == trail_ws(v@),
{
    let mut k: usize = 0;
    while k < v.len() && is_whitespace(v[v.len() - k - 1])
        invariant
            k <= v@.len(),
            forall|j: int| v@.len() - k <= j < v@.len() ==> is_ws(#[trigger] v@[j]),
        decreases v@.len() - k,
    {
        k = k + 1;
    }
    proof {
        lemma_trail_ws(v@, k as int);
    }
    k
}

/// ASCII-case-insensitive equality of two character sequences.
pub fn eq_ignore_ascii_case(a: &[char], b: &[char]) -> (r: bool)
    ensures
        r == eq_ignore_case(a@, b@),
{
    if a.len() != b.len() {
        assert(ascii_lower_seq(a@).len() != ascii_lower_seq(b@).len());
        return false;
    }
    let mut i: usize = 0;
    while i < a.len()
        invariant
            i <= a@.len(),
            a@.len() == b@.len(),
            forall|j: int| 0 <= j < i ==> ascii_lower(a@[j]) == ascii_lower(b@[j]),
        decreases a@.len() - i,
    {
        if to_ascii_lower(a[i]) != to_ascii_lower(b[i]) {
            assert(ascii_lower_seq(a@)[i as int] != ascii_lower_seq(b@)[i as int]);
            return false;
        }
        i = i + 1;
    }
    assert(ascii_lower_seq(a@) =~= ascii_lower_seq(b@));
    true
}

/// `str::eq_ignore_ascii_case` on strings.
pub fn str_eq_ignore_ascii_case(a: &str, b: &str) -> (r: bool)
    ensures
        r == eq_ignore_case(a@, b@),
{
    let va = chars_of(a);
    let vb = chars_of(b);
    eq_ignore_ascii_case(va.as_slice(), vb.as_slice())
}

/// Case-insensitive prefix test on strings.
pub trait StrExt {
    /// The characters of the text.
    spec fn chars_view(&self) -> Seq<char>;

    /// `self` starts with `other` up to ASCII case, where `other` must be strictly shorter in
    /// bytes than `self`.  The byte length of `other` must fall on a character boundary of
    /// `self` where it is shorter.
    fn starts_with_ignore_ascii_case(&self, other: &Self) -> (r: bool)
        requires
            utf8_len(other.chars_view()) >= utf8_len(self.chars_view()) || is_boundary(
                self.chars_view(),
                utf8_len(other.chars_view()) as int,
            ),
        ensures
            r == starts_with_ignore_case_spec(self.chars_view(), other.chars_view()),
    ;
}

impl StrExt for str {
    open spec fn chars_view(&self) -> Seq<char> {
        self@
    }

    fn starts_with_ignore_ascii_case(&self, other: &str) -> (r: bool) {
        let n_self = byte_len(self);
        let n_other = byte_len(other);
        if n_other >= n_self {
            return false;
        }
        let v = chars_of(self);
        let o = chars_of(other);
        match char_index_of(v.as_slice(), n_other) {
            Some(k) => {
                let prefix = v.as_slice().split_at(k).0;
                assert(prefix@ =~= v@.take(k as int));
                eq_ignore_ascii_case(prefix, o.as_slice())
            },
            None => false,
        }
    }
}

/// In-place text editing at byte offsets.
pub trait CowExt: Sized {
    /// The characters of the text.
    spec fn text(&self) -> Seq<char>;

    /// Returns number of `(leading_spaces, trailing_spaces)` in bytes.
    ///
    /// If the whole string is just whitespaces, `leading_spaces` will be its length
    /// and `trailing_space` will be `0`.
    fn trim_lengths(&self) -> (r: (usize, usize))
        ensures
            r.0 == trim_lengths_spec(self.text()).0,
            r.1 == trim_lengths_spec(self.text()).1,
    ;

    /// Trims any leading and trailing whitespace
    fn trim_inplace(&mut self)
        ensures
            final(self).text() == trim(old(self).text()),
    ;

    /// Trims any leading whitespace
    fn trim_start_inplace(&mut self)
        ensures
            final(self).text() == trim_start(old(self).text()),
    ;

    /// Trims any trailing whitespace
    fn trim_end_inplace(&mut self)
        ensures
            final(self).text() == trim_end(old(self).text()),
    ;

    /// Removes the first `num` bytes
    fn truncate_start(&mut self, num: usize)
        requires
            is_boundary(old(self).text(), num as int),
        ensures
            final(self).text() == old(self).text().skip(char_index(old(self).text(), num as int)),
    ;

    /// Removes the last `num` bytes
    fn truncate_end(&mut self, num: usize)
        requires
            num <= utf8_len(old(self).text()),
            is_boundary(old(self).text(), utf8_len(old(self).text()) - num),
        ensures
            final(self).text() == old(self).text().take(
                char_index(old(self).text(), utf8_len(old(self).text()) - num),
            ),
    ;

    /// Convert to ascii lowercase
    fn make_ascii_lowercase_inplace(&mut self)
        ensures
            final(self).text() == ascii_lower_seq(old(self).text()),
    ;

    /// Returns `([0, at), [at, len))`
    fn split_at(self, at: usize) -> (r: (Self, Self))
        requires
            is_boundary(self.text(), at as int),
        ensures
            r.0.text() == self.text().take(char_index(self.text(), at as int)),
            r.1.text() == self.text().skip(char_index(self.text(), at as int)),
    ;

    /// Self contains `[0, at)`, returns `[at, len)`
    fn split_off(&mut self, at: usize) -> (r: Self)
        requires
            is_boundary(old(self).text(), at as int),
        ensures
            final(self).text() == old(self).text().take(char_index(old(self).text(), at as int)),
            r.text() == old(self).text().skip(char_index(old(self).text(), at as int)),
    ;

    /// Self contains `[at, len)`, returns `[0, at)`
    fn split_to(&mut self, at: usize) -> (r: Self)
        requires
            is_boundary(old(self).text(), at as int),
        ensures
            final(self).text() == old(self).text().skip(char_index(old(self).text(), at as int)),
            r.text() == old(self).text().take(char_index(old(self).text(), at as int)),
    ;
}

impl CowExt for String {
    open spec fn text(&self) -> Seq<char> {
        self@
    }

    fn trim_lengths(&self) -> (r: (usize, usize)) {
        let total = byte_len(self.as_str());
        let v = chars_of(self.as_str());
        let lead = lead_ws_count(v.as_slice());
        if lead == v.len() {
            assert(v@.take(v@.len() as int) =~= v@);
            return (total, 0);
        }
        let trail = trail_ws_count(v.as_slice());
        proof {
            lemma_lead_ws_props(v@);
            lemma_trail_ws_le(v@);
        }
        let lead_bytes = prefix_byte_len(v.as_slice(), lead, total);
        let keep = prefix_byte_len(v.as_slice(), v.len() - trail, total);
        proof {
            lemma_trail_ws_le(v@);
            let k = v@.len() - trail;
            assert(v@ =~= v@.take(k) + v@.skip(k));
            lemma_utf8_len_concat(v@.take(k), v@.skip(k));
        }
        (lead_bytes, total - keep)
    }

    fn trim_inplace(&mut self) {
        let v = chars_of(self.as_str());
        let lead = lead_ws_count(v.as_slice());
        proof {
            lemma_lead_ws_props(v@);
        }
        let rest = v.as_slice().split_at(lead).1;
        assert(rest@ =~= trim_start(v@));
        let trail = trail_ws_count(rest);
        proof {
            lemma_trail_ws_le(rest@);
        }
        let kept = rest.split_at(rest.len() - trail).0;
        assert(kept@ =~= trim(v@));
        *self = string_from_chars(kept);
    }

    fn trim_start_inplace(&mut self) {
        let v = chars_of(self.as_str());
        let lead = lead_ws_count(v.as_slice());
        proof {
            lemma_lead_ws_props(v@);
        }
        let rest = v.as_slice().split_at(lead).1;
        assert(rest@ =~= trim_start(v@));
        *self = string_from_chars(rest);
    }

    fn trim_end_inplace(&mut self) {
        let v = chars_of(self.as_str());
        let trail = trail_ws_count(v.as_slice());
        proof {
            lemma_trail_ws_le(v@);
        }
        let kept = v.as_slice().split_at(v.len() - trail).0;
        assert(kept@ =~= trim_end(v@));
        *self = string_from_chars(kept);
    }

    fn truncate_start(&mut self, num: usize) {
        let v = chars_of(self.as_str());
        let k = char_index_of(v.as_slice(), num).unwrap();
        let rest = v.as_slice().split_at(k).1;
        assert(rest@ =~= v@.skip(k as int));
        *self = string_from_chars(rest);
    }

    fn truncate_end(&mut self, num: usize) {
        let total = byte_len(self.as_str());
        let v = chars_of(self.as_str());
        let k = char_index_of(v.as_slice(), total - num).unwrap();
        let kept = v.as_slice().split_at(k).0;
        assert(kept@ =~= v@.take(k as int));
        *self = string_from_chars(kept);
    }

    fn make_ascii_lowercase_inplace(&mut self) {
        let v = chars_of(self.as_str());
        let mut out: Vec<char> = Vec::new();
        let mut i: usize = 0;
        while i < v.len()
            invariant
                i <= v@.len(),
                out@ =~= ascii_lower_seq(v@).take(i as int),
            decreases v@.len() - i,
        {
            out.push(to_ascii_lower(v[i]));
            i = i + 1;
        }
        *self = string_from_chars(out.as_slice());
    }

    fn split_at(self, at: usize) -> (r: (String, String)) {
        let v = chars_of(self.as_str());
        let k = char_index_of(v.as_slice(), at).unwrap();
        let (l, r) = v.as_slice().split_at(k);
        assert(l@ =~= v@.take(k as int));
        assert(r@ =~= v@.skip(k as int));
        (string_from_chars(l), string_from_chars(r))
    }

    fn split_off(&mut self, at: usize) -> (r: String) {
        let v = chars_of(self.as_str());
        let k = char_index_of(v.as_slice(), at).unwrap();
        let (l, r) = v.as_slice().split_at(k);
        assert(l@ =~= v@.take(k as int));
        assert(r@ =~= v@.skip(k as int));
        *self = string_from_chars(l);
        string_from_chars(r)
    }

    fn split_to(&mut self, at: usize) -> (r: String) {
        let v = chars_of(self.as_str());
        let k = char_index_of(v.as_slice(), at).unwrap();
        let (l, r) = v.as_slice().split_at(k);
        assert(l@ =~= v@.take(k as int));
        assert(r@ =~= v@.skip(k as int));
        *self = string_from_chars(r);
        string_from_chars(l)
    }
}

/// Removal of the first element equal to a given text from a list of ranged texts.
pub trait VecExt {
    /// Removes and returns the first element whose text equals `element`.
    fn remove_element(&mut self, element: &str) -> Option<WithRange<String>>;
}

impl VecExt for Vec<WithRange<String>> {
    fn remove_element(&mut self, element: &str) -> (r: Option<WithRange<String>>)
        ensures
            match r {
                Some(e) => exists|i: int|
                    0 <= i < old(self)@.len() && old(self)@[i].0@ == element@ && (forall|j: int|
                        0 <= j < i ==> old(self)@[j].0@ != element@) && e == old(self)@[i]
                        && final(self)@ == old(self)@.remove(i),
                None => (forall|j: int| 0 <= j < old(self)@.len() ==> old(self)@[j].0@ != element@)
                    && final(self)@ == old(self)@,
            },
    {
        let mut i: usize = 0;
        while i < self.len()
            invariant
                i <= self@.len(),
                self@ == old(self)@,
                forall|j: int| 0 <= j < i ==> old(self)@[j].0@ != element@,
            decreases self@.len() - i,
        {
            if str_eq(self[i].0.as_str(), element) {
                let e = self.remove(i);
                return Some(e);
            }
            i = i + 1;
        }
        None
    }
}

/// The trailing whitespace of a text is that of any suffix that keeps a non-whitespace
/// character.
proof fn lemma_trail_ws_skip(s: Seq<char>, k: int)
    requires
        0 <= k < s.len(),
        !is_ws(s[k]),
    ensures
        trail_ws(s.skip(k)) == trail_ws(s),
        trail_ws(s) < s.len() - k,
    decreases s.len(),
{
    if is_ws(s.last()) {
        assert(k < s.len() - 1);
        assert(s.skip(k).drop_last() =~= s.drop_last().skip(k));
        assert(s.drop_last()[k] == s[k]);
        lemma_trail_ws_skip(s.drop_last(), k);
        assert(s.skip(k).last() == s.last());
    } else {
        assert(s.skip(k).last() == s.last());
    }
}

/// Trimming removes exactly the bytes `trim_lengths` counts: the leading and trailing
/// whitespace and the trimmed text make up the whole text.
pub proof fn law_trim_lengths(s: Seq<char>)
    ensures
        trim_lengths_spec(s).0 + trim_lengths_spec(s).1 + utf8_len(trim(s)) == utf8_len(s),
{
    lemma_lead_ws_props(s);
    let k = lead_ws(s) as int;
    if k == s.len() {
        assert(trim_start(s) =~= Seq::<char>::empty());
        assert(trim(s) =~= Seq::<char>::empty());
    } else {
        let t = trail_ws(s) as int;
        lemma_trail_ws_skip(s, k);
        let mid = s.subrange(k, s.len() - t);
        assert(trim_start(s) =~= s.skip(k));
        assert(trim(s) =~= mid);
        assert(s =~= s.take(k) + (mid + s.skip(s.len() - t)));
        lemma_utf8_len_concat(s.take(k), mid + s.skip(s.len() - t));
        lemma_utf8_len_concat(mid, s.skip(s.len() - t));
    }
}

/// Splitting a text at a character boundary and joining the parts gives the text back.
pub proof fn law_split_rejoins(s: Seq<char>, at: int)
    requires
        is_boundary(s, at),
    ensures
        s.take(char_index(s, at)) + s.skip(char_index(s, at)) == s,
{
    assert(s.take(char_index(s, at)) + s.skip(char_index(s, at)) =~= s);
}

} // verus!

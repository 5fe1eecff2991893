//! Source ranges and values annotated with the range they come from.
use vstd::prelude::*;

verus! {

/// A byte range `start..end` in the markdown source.
#[derive(Debug, Clone, Copy, PartialEq, Eq, Structural)]
pub struct SourceRange {
    pub start: usize,
    pub end: usize,
}

impl SourceRange {
    /// Creates the range `start..end`.
    pub fn new(start: usize, end: usize) -> (r: SourceRange)
        ensures
            r.start == start,
            r.end == end,
    {
        SourceRange { start, end }
    }
}

/// A byte range in the markdown source that includes escape characters.
#[derive(Debug, Clone, Copy, PartialEq, Eq, Structural)]
pub struct EscapedRange {
    pub start: usize,
    pub end: usize,
}

/// A range in the unescaped text, i.e. with all escape characters removed.
///
/// Offsets count only the bytes that remain after unescaping, starting with the first
/// byte of the first text range.
#[derive(Debug, Clone, Copy, PartialEq, Eq, Structural)]
pub struct UnescapedRange {
    pub start: usize,
    pub end: usize,
}

impl UnescapedRange {
    /// Number of bytes covered by the range.
    pub fn len(&self) -> (n: usize)
        requires
            self.start <= self.end,
        ensures
            n == self.end - self.start,
    {
        self.end - self.start
    }
}

/// The value with `f` applied to its element and its range kept.
pub open spec fn mapped<T, R>(w: WithRange<T>, f: spec_fn(T) -> R) -> WithRange<R> {
    WithRange(f(w.0), w.1)
}

/// Mapping by the identity changes nothing.
pub proof fn law_map_identity<T>(w: WithRange<T>)
    ensures
        mapped(w, |x: T| x) == w,
{
}

/// Mapping by `f` and then by `g` is mapping by their composition.
pub proof fn law_map_composition<T, U, V>(w: WithRange<T>, f: spec_fn(T) -> U, g: spec_fn(U) -> V)
    ensures
        mapped(mapped(w, f), g) == mapped(w, |x: T| g(f(x))),
{
}

/// A value together with the source range it was parsed from.
#[derive(Debug, Clone, Copy, PartialEq, Eq)]
pub struct WithRange<T>(pub T, pub SourceRange);

impl<T> WithRange<T> {
    /// Returns the wrapped element, dropping the range.
    pub fn element(self) -> (e: T)
        ensures
            e == self.0,
    {
        self.0
    }

    /// Returns a reference to the wrapped element.
    pub fn element_ref(&self) -> (e: &T)
        ensures
            *e == self.0,
    {
        &self.0
    }

    /// Returns the source range of the element.
    pub fn range(&self) -> (r: SourceRange)
        ensures
            r == self.1,
    {
        self.1
    }

    /// Borrows the element, keeping the range.
    pub fn as_ref(&self) -> (r: WithRange<&T>)
        ensures
            *r.0 == self.0,
            r.1 == self.1,
    {
        WithRange(&self.0, self.1)
    }

    /// Applies `f` to the element, keeping the range; where `f` computes a function `sf`,
    /// the result is `mapped(self, sf)`.
    pub fn map<R, F: FnOnce(T) -> R>(self, f: F) -> (r: WithRange<R>)
        requires
            f.requires((self.0,)),
        ensures
            f.ensures((self.0,), r.0),
            r.1 == self.1,
            forall|sf: spec_fn(T) -> R|
                (forall|x: T, y: R| #[trigger] f.ensures((x,), y) ==> y == sf(x)) ==> r == mapped(self, sf),
    {
        let WithRange(element, range) = self;
        WithRange(f(element), range)
    }
}

} // verus!

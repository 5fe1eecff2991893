//! Verified core of a Markdown to LaTeX converter.
use vstd::prelude::*;

pub mod range;
pub mod text;
pub mod ext;
pub mod cow_wrapper;
pub mod event;
pub mod refs;
pub mod config;
pub mod geometry;
pub mod error;
pub mod latex;
pub mod number;
pub mod latex_complex;
pub mod beamer;
pub mod size;
pub mod basic_config;
pub mod cskvp;
pub mod preamble;
pub mod document;
pub mod frontend;
pub mod conversion;
pub mod convert;
pub mod nesting;
pub mod rustdoc;
pub mod diagnostics;

verus! {
} // verus!

//! The plain configuration of a single conversion: where to read, where to write, and what
//! kind of output to produce.
use vstd::prelude::*;

use crate::config::{path_extension_of, FileOrStdio};
use crate::ext::str_eq_ignore_ascii_case;
use crate::text::eq_ignore_case;

verus! {

/// The kind of output to produce.
#[derive(Debug, Clone, Copy, PartialEq, Eq, Structural)]
pub enum OutType {
    Latex,
    Pdf,
}

/// The output kind named by `s`, ignoring ASCII case.
pub open spec fn basic_out_type(s: Seq<char>) -> Option<OutType> {
    if eq_ignore_case(s, "tex"@) || eq_ignore_case(s, "latex"@) {
        Some(OutType::Latex)
    } else if eq_ignore_case(s, "pdf"@) {
        Some(OutType::Pdf)
    } else {
        None
    }
}

impl OutType {
    /// Parses an output kind, ignoring ASCII case; the error holds the text.
    pub fn from_str(s: &str) -> (r: Result<OutType, String>)
        ensures
            match r {
                Ok(t) => basic_out_type(s@) == Some(t),
                Err(e) => basic_out_type(s@) is None && e@ == s@,
            },
    {
        if str_eq_ignore_ascii_case(s, "tex") || str_eq_ignore_ascii_case(s, "latex") {
            Ok(OutType::Latex)
        } else if str_eq_ignore_ascii_case(s, "pdf") {
            Ok(OutType::Pdf)
        } else {
            Err(s.to_owned())
        }
    }
}

/// Where to read, where to write, and the kind of output.
#[derive(Debug)]
pub struct Config {
    pub output: FileOrStdio,
    pub input: FileOrStdio,
    pub output_type: Option<OutType>,
}

/// The output kind derived from where the output goes: LaTeX for standard output and for
/// files ending in `tex` or `latex` (any ASCII case), else PDF.
pub open spec fn derived_out_type(output: FileOrStdio) -> OutType {
    match output {
        FileOrStdio::StdIo => OutType::Latex,
        FileOrStdio::File(p) => match path_extension_of(p@) {
            Some(e) => if eq_ignore_case(e, "tex"@) || eq_ignore_case(e, "latex"@) {
                OutType::Latex
            } else {
                OutType::Pdf
            },
            None => OutType::Pdf,
        },
    }
}

impl Config {
    /// Fills in the output kind where it is not given, from where the output goes.
    pub fn normalize(&mut self)
        ensures
            final(self).output == old(self).output,
            final(self).input == old(self).input,
            final(self).output_type == Some(match old(self).output_type {
                Some(t) => t,
                None => derived_out_type(old(self).output),
            }),
    {
        if self.output_type.is_none() {
            let derived = match &self.output {
                FileOrStdio::StdIo => OutType::Latex,
                FileOrStdio::File(p) => match crate::config::path_extension(p.as_str()) {
                    Some(e) => if str_eq_ignore_ascii_case(e.as_str(), "tex")
                        || str_eq_ignore_ascii_case(e.as_str(), "latex") {
                        OutType::Latex
                    } else {
                        OutType::Pdf
                    },
                    None => OutType::Pdf,
                },
            };
            self.output_type = Some(derived);
        }
    }
}

} // verus!

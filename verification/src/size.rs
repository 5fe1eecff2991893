//! Units of lengths such as `12pt` or `50%`.
use vstd::prelude::*;

use crate::text::{chars_of, str_eq, string_from_range, trim_start};

verus! {

/// The unit of a length.
#[derive(Debug, Clone, Copy, PartialEq, Eq, Structural)]
pub enum SizeUnit {
    Px,
    Em,
    Ex,
    In,
    Cm,
    Mm,
    Pt,
    Pc,
    Percent,
}

/// The unit named by a suffix, without its leading whitespace.
pub open spec fn unit_of_suffix(s: Seq<char>) -> Option<SizeUnit> {
    let t = trim_start(s);
    if t == "px"@ {
        Some(SizeUnit::Px)
    } else if t == "em"@ {
        Some(SizeUnit::Em)
    } else if t == "ex"@ {
        Some(SizeUnit::Ex)
    } else if t == "in"@ {
        Some(SizeUnit::In)
    } else if t == "cm"@ {
        Some(SizeUnit::Cm)
    } else if t == "mm"@ {
        Some(SizeUnit::Mm)
    } else if t == "pt"@ {
        Some(SizeUnit::Pt)
    } else if t == "pc"@ {
        Some(SizeUnit::Pc)
    } else if t == "%"@ {
        Some(SizeUnit::Percent)
    } else {
        None
    }
}

impl SizeUnit {
    /// The unit named by the suffix after the number of a length; `None` for an unknown
    /// suffix.
    pub fn from_suffix(suffix: &str) -> (r: Option<SizeUnit>)
        ensures
            r == unit_of_suffix(suffix@),
    {
        let v = chars_of(suffix);
        let k = crate::ext::lead_ws_count(v.as_slice());
        proof {
            crate::text::lemma_lead_ws_props(v@);
        }
        let t = string_from_range(v.as_slice(), k, v.len());
        assert(t@ =~= trim_start(suffix@));
        let t = t.as_str();
        if str_eq(t, "px") {
            Some(SizeUnit::Px)
        } else if str_eq(t, "em") {
            Some(SizeUnit::Em)
        } else if str_eq(t, "ex") {
            Some(SizeUnit::Ex)
        } else if str_eq(t, "in") {
            Some(SizeUnit::In)
        } else if str_eq(t, "cm") {
            Some(SizeUnit::Cm)
        } else if str_eq(t, "mm") {
            Some(SizeUnit::Mm)
        } else if str_eq(t, "pt") {
            Some(SizeUnit::Pt)
        } else if str_eq(t, "pc") {
            Some(SizeUnit::Pc)
        } else if str_eq(t, "%") {
            Some(SizeUnit::Percent)
        } else {
            None
        }
    }
}

} // verus!

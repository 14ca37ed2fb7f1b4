//! Equality and ordering for owned and borrowed strings: defined purely over
//! the code-unit sequence (terminator excluded), never over identity of the
//! underlying memory, and agreeing across the two types.

use crate::bstr::BStr;
use crate::bstring::BString;
use crate::units::cmp_units;
use crate::units::lex_cmp;
use crate::units::units_eq;
use vstd::prelude::*;

verus! {

impl PartialEq for BString {
    fn eq(&self, other: &BString) -> (r: bool) {
        units_eq(self.units(), other.units())
    }
}

impl vstd::std_specs::cmp::PartialEqSpecImpl for BString {
    open spec fn obeys_eq_spec() -> bool {
        true
    }

    open spec fn eq_spec(&self, other: &BString) -> bool {
        self@ == other@
    }
}

impl Eq for BString {

}

impl PartialOrd for BString {
    fn partial_cmp(&self, other: &BString) -> (r: Option<core::cmp::Ordering>) {
        Some(cmp_units(self.units(), other.units()))
    }
}

impl vstd::std_specs::cmp::PartialOrdSpecImpl for BString {
    open spec fn obeys_partial_cmp_spec() -> bool {
        true
    }

    open spec fn partial_cmp_spec(&self, other: &BString) -> Option<core::cmp::Ordering> {
        Some(lex_cmp(self@, other@))
    }
}

impl<'a> PartialEq for BStr<'a> {
    fn eq(&self, other: &BStr<'a>) -> (r: bool) {
        units_eq(self.units(), other.units())
    }
}

impl<'a> vstd::std_specs::cmp::PartialEqSpecImpl for BStr<'a> {
    open spec fn obeys_eq_spec() -> bool {
        true
    }

    open spec fn eq_spec(&self, other: &BStr<'a>) -> bool {
        self@ == other@
    }
}

impl<'a> Eq for BStr<'a> {

}

impl<'a> PartialOrd for BStr<'a> {
    fn partial_cmp(&self, other: &BStr<'a>) -> (r: Option<core::cmp::Ordering>) {
        Some(cmp_units(self.units(), other.units()))
    }
}

impl<'a> vstd::std_specs::cmp::PartialOrdSpecImpl for BStr<'a> {
    open spec fn obeys_partial_cmp_spec() -> bool {
        true
    }

    open spec fn partial_cmp_spec(&self, other: &BStr<'a>) -> Option<core::cmp::Ordering> {
        Some(lex_cmp(self@, other@))
    }
}

impl<'a> PartialEq<BStr<'a>> for BString {
    fn eq(&self, other: &BStr<'a>) -> (r: bool) {
        units_eq(self.units(), other.units())
    }
}

impl<'a> vstd::std_specs::cmp::PartialEqSpecImpl<BStr<'a>> for BString {
    open spec fn obeys_eq_spec() -> bool {
        true
    }

    open spec fn eq_spec(&self, other: &BStr<'a>) -> bool {
        self@ == other@
    }
}

impl<'a> PartialEq<BString> for BStr<'a> {
    fn eq(&self, other: &BString) -> (r: bool) {
        units_eq(self.units(), other.units())
    }
}

impl<'a> vstd::std_specs::cmp::PartialEqSpecImpl<BString> for BStr<'a> {
    open spec fn obeys_eq_spec() -> bool {
        true
    }

    open spec fn eq_spec(&self, other: &BString) -> bool {
        self@ == other@
    }
}

impl<'a> PartialOrd<BStr<'a>> for BString {
    fn partial_cmp(&self, other: &BStr<'a>) -> (r: Option<core::cmp::Ordering>) {
        Some(cmp_units(self.units(), other.units()))
    }
}

impl<'a> vstd::std_specs::cmp::PartialOrdSpecImpl<BStr<'a>> for BString {
    open spec fn obeys_partial_cmp_spec() -> bool {
        true
    }

    open spec fn partial_cmp_spec(&self, other: &BStr<'a>) -> Option<core::cmp::Ordering> {
        Some(lex_cmp(self@, other@))
    }
}

impl<'a> PartialOrd<BString> for BStr<'a> {
    fn partial_cmp(&self, other: &BString) -> (r: Option<core::cmp::Ordering>) {
        Some(cmp_units(self.units(), other.units()))
    }
}

impl<'a> vstd::std_specs::cmp::PartialOrdSpecImpl<BString> for BStr<'a> {
    open spec fn obeys_partial_cmp_spec() -> bool {
        true
    }

    open spec fn partial_cmp_spec(&self, other: &BString) -> Option<core::cmp::Ordering> {
        Some(lex_cmp(self@, other@))
    }
}

} // verus!

//! Capability traits for call sites: borrowing a value as a (model) foreign
//! string pointer, either never-null or nullable, and converting argument
//! types into something borrowable — without copying values that are
//! already foreign strings.

use crate::bstr::BStr;
use crate::bstring::BString;
use crate::units::OVERFLOW_GUARD;
use crate::utf16::utf16_seq;
use vstd::prelude::*;

verus! {

/// Borrow `self` as a never-null foreign string: the borrowed view always
/// exists and holds exactly `units_spec()`.
pub trait AsBStrPtr {
    /// The code units the borrowed pointer addresses.
    spec fn units_spec(&self) -> Seq<u16>;

    /// Borrow `self` as a view; no allocation, never absent.
    fn as_bstr_ptr<'s>(&'s self) -> (r: BStr<'s>)
        ensures
            r@ == self.units_spec(),
    ;
}

impl AsBStrPtr for BString {
    open spec fn units_spec(&self) -> Seq<u16> {
        self@
    }

    fn as_bstr_ptr<'s>(&'s self) -> (r: BStr<'s>) {
        self.as_bstr()
    }
}

impl<'a> AsBStrPtr for BStr<'a> {
    open spec fn units_spec(&self) -> Seq<u16> {
        self@
    }

    fn as_bstr_ptr<'s>(&'s self) -> (r: BStr<'s>) {
        *self
    }
}

/// Borrow `self` as a nullable foreign string: an absent value stands for
/// the platform's null pointer, and is never a null view.
pub trait AsOptBStrPtr {
    /// The code units the borrowed pointer addresses, or nothing for null.
    spec fn opt_units_spec(&self) -> Option<Seq<u16>>;

    /// Borrow `self` as a view or as the absent value; no allocation.
    fn as_opt_bstr_ptr<'s>(&'s self) -> (r: Option<BStr<'s>>)
        ensures
            r is Some <==> self.opt_units_spec() is Some,
            r matches Some(v) ==> self.opt_units_spec() matches Some(u) && v@ == u,
    ;
}

impl AsOptBStrPtr for BString {
    open spec fn opt_units_spec(&self) -> Option<Seq<u16>> {
        Some(self@)
    }

    fn as_opt_bstr_ptr<'s>(&'s self) -> (r: Option<BStr<'s>>) {
        Some(self.as_bstr())
    }
}

impl<'a> AsOptBStrPtr for BStr<'a> {
    open spec fn opt_units_spec(&self) -> Option<Seq<u16>> {
        Some(self@)
    }

    fn as_opt_bstr_ptr<'s>(&'s self) -> (r: Option<BStr<'s>>) {
        Some(*self)
    }
}

impl<B: AsBStrPtr> AsOptBStrPtr for Option<B> {
    open spec fn opt_units_spec(&self) -> Option<Seq<u16>> {
        match self {
            Some(b) => Some(b.units_spec()),
            None => None,
        }
    }

    fn as_opt_bstr_ptr<'s>(&'s self) -> (r: Option<BStr<'s>>) {
        match self {
            Some(b) => Some(b.as_bstr_ptr()),
            None => None,
        }
    }
}

/// Convert `self` into a value borrowable as a never-null foreign string;
/// values that already are foreign strings pass through without copying.
pub trait IntoBStr: Sized {
    /// What the conversion produces.
    type BStr: AsBStrPtr;

    /// Whether the conversion can succeed; text converts only while its
    /// encoding stays under the overflow guard.
    spec fn into_ok(self) -> bool;

    /// The code units the conversion produces.
    spec fn into_units(self) -> Seq<u16>;

    /// Perform the conversion.
    fn into(self) -> (r: Self::BStr)
        requires
            self.into_ok(),
        ensures
            r.units_spec() == self.into_units(),
    ;
}

impl IntoBStr for BString {
    type BStr = BString;

    open spec fn into_ok(self) -> bool {
        true
    }

    open spec fn into_units(self) -> Seq<u16> {
        self@
    }

    fn into(self) -> (r: BString) {
        self
    }
}

impl<'a> IntoBStr for BStr<'a> {
    type BStr = BStr<'a>;

    open spec fn into_ok(self) -> bool {
        true
    }

    open spec fn into_units(self) -> Seq<u16> {
        self@
    }

    fn into(self) -> (r: BStr<'a>) {
        self
    }
}

impl IntoBStr for &str {
    type BStr = BString;

    open spec fn into_ok(self) -> bool {
        utf16_seq(self@).len() < OVERFLOW_GUARD
    }

    open spec fn into_units(self) -> Seq<u16> {
        utf16_seq(self@)
    }

    fn into(self) -> (r: BString) {
        match BString::from_str(self) {
            Some(b) => b,
            None => unreached(),
        }
    }
}

impl IntoBStr for String {
    type BStr = BString;

    open spec fn into_ok(self) -> bool {
        utf16_seq(self@).len() < OVERFLOW_GUARD
    }

    open spec fn into_units(self) -> Seq<u16> {
        utf16_seq(self@)
    }

    fn into(self) -> (r: BString) {
        match BString::from_str(self.as_str()) {
            Some(b) => b,
            None => unreached(),
        }
    }
}

/// Convert `self` into a value borrowable as a nullable foreign string. The
/// unit value stands for an explicit null; text whose encoding reaches the
/// overflow guard converts to the absent value.
pub trait IntoOptBStr: Sized {
    /// What the conversion produces.
    type OptBStr: AsOptBStrPtr;

    /// The code units the conversion produces, or nothing for null.
    spec fn into_opt_units(self) -> Option<Seq<u16>>;

    /// Perform the conversion.
    fn into(self) -> (r: Self::OptBStr)
        ensures
            r.opt_units_spec() == self.into_opt_units(),
    ;
}

impl IntoOptBStr for () {
    type OptBStr = Option<BString>;

    open spec fn into_opt_units(self) -> Option<Seq<u16>> {
        None
    }

    fn into(self) -> (r: Option<BString>) {
        None
    }
}

impl IntoOptBStr for BString {
    type OptBStr = BString;

    open spec fn into_opt_units(self) -> Option<Seq<u16>> {
        Some(self@)
    }

    fn into(self) -> (r: BString) {
        self
    }
}

impl<'a> IntoOptBStr for BStr<'a> {
    type OptBStr = BStr<'a>;

    open spec fn into_opt_units(self) -> Option<Seq<u16>> {
        Some(self@)
    }

    fn into(self) -> (r: BStr<'a>) {
        self
    }
}

impl IntoOptBStr for Option<BString> {
    type OptBStr = Option<BString>;

    open spec fn into_opt_units(self) -> Option<Seq<u16>> {
        match self {
            Some(b) => Some(b@),
            None => None,
        }
    }

    fn into(self) -> (r: Option<BString>) {
        self
    }
}

impl IntoOptBStr for &str {
    type OptBStr = Option<BString>;

    open spec fn into_opt_units(self) -> Option<Seq<u16>> {
        if utf16_seq(self@).len() < OVERFLOW_GUARD {
            Some(utf16_seq(self@))
        } else {
            None
        }
    }

    fn into(self) -> (r: Option<BString>) {
        BString::from_str(self)
    }
}

impl IntoOptBStr for String {
    type OptBStr = Option<BString>;

    open spec fn into_opt_units(self) -> Option<Seq<u16>> {
        if utf16_seq(self@).len() < OVERFLOW_GUARD {
            Some(utf16_seq(self@))
        } else {
            None
        }
    }

    fn into(self) -> (r: Option<BString>) {
        BString::from_str(self.as_str())
    }
}

} // verus!

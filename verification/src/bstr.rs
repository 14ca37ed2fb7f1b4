//! The borrowed, non-growable view over a foreign-format string, and the
//! model of raw foreign string memory it is checked against.

use crate::units::OVERFLOW_GUARD;
use vstd::prelude::*;
use vstd::slice::slice_index_get;
use vstd::slice::slice_subrange;

verus! {

/// The contents of one foreign-format string allocation: the out-of-band
/// byte-length prefix, and the code-unit buffer it precedes (terminator
/// included). Nothing here is checked — foreign memory may hold anything;
/// [`BStr::from_bstr`] is the checked way in.
pub struct ForeignStr {
    prefix_bytes: u32,
    buf: Vec<u16>,
}

impl ForeignStr {
    /// The byte-length prefix, as the allocator's length query reads it.
    pub closed spec fn spec_prefix_bytes(&self) -> u32 {
        self.prefix_bytes
    }

    /// The full code-unit buffer, terminator included.
    pub closed spec fn seq0(&self) -> Seq<u16> {
        self.buf@
    }

    /// A well-formed foreign string: terminated, byte prefix counting every
    /// unit but the terminator, code-unit count under the overflow guard.
    pub open spec fn valid(&self) -> bool {
        &&& self.seq0().len() >= 1
        &&& self.seq0().last() == 0u16
        &&& self.seq0().len() - 1 < OVERFLOW_GUARD
        &&& self.spec_prefix_bytes() == 2 * (self.seq0().len() - 1)
    }

    /// Arbitrary foreign memory; validity is deliberately not required.
    pub fn new(prefix_bytes: u32, buf: Vec<u16>) -> (r: ForeignStr)
        ensures
            r.spec_prefix_bytes() == prefix_bytes,
            r.seq0() == buf@,
    {
        ForeignStr { prefix_bytes, buf }
    }

    /// The allocator's length-query entry point: the prefix read back in bytes.
    pub fn prefix_bytes(&self) -> (r: u32)
        ensures
            r == self.spec_prefix_bytes(),
    {
        self.prefix_bytes
    }
}

/// A borrowed, never-null view of a valid foreign-format string: `self@` is
/// its code units, the implicit terminator excluded.
#[derive(Clone, Copy, Debug, Hash)]
pub struct BStr<'a> {
    units0: &'a [u16],
}

impl<'a> View for BStr<'a> {
    type V = Seq<u16>;

    closed spec fn view(&self) -> Seq<u16> {
        self.units0@.drop_last()
    }
}

impl<'a> BStr<'a> {
    /// Every reachable view is terminated and bounded by the overflow guard.
    #[verifier::type_invariant]
    pub(crate) closed spec fn wf(self) -> bool {
        &&& self.units0@.len() >= 1
        &&& self.units0@.last() == 0u16
        &&& self.units0@.len() - 1 < OVERFLOW_GUARD
    }

    /// Borrow a terminated code-unit buffer as a view; the buffer must end in
    /// the terminator and stay under the overflow guard.
    pub fn from_units0(units0: &'a [u16]) -> (r: Option<BStr<'a>>)
        ensures
            r is Some <==> units0@.len() >= 1 && units0@.last() == 0u16 && units0@.len() - 1
                < OVERFLOW_GUARD,
            r matches Some(v) ==> v@ == units0@.drop_last(),
    {
        let n: usize = units0.len();
        if n == 0 {
            return None;
        }
        if *slice_index_get(units0, n - 1) != 0u16 {
            return None;
        }
        if n - 1 >= OVERFLOW_GUARD as usize {
            return None;
        }
        Some(BStr { units0 })
    }

    /// Convert a nullable foreign pointer into an optional view: the no-value
    /// result for null and for a prefix that reads as the reserved sentinel.
    /// The caller vouches that non-null memory is a valid foreign string (or
    /// carries the sentinel prefix); that is the unsafety boundary this model
    /// states as a precondition.
    pub fn from_bstr(bstr: Option<&'a ForeignStr>) -> (r: Option<BStr<'a>>)
        requires
            bstr matches Some(f) ==> f.valid() || f.spec_prefix_bytes() == u32::MAX,
        ensures
            r is Some <==> (bstr matches Some(f) && f.spec_prefix_bytes() != u32::MAX),
            r matches Some(v) ==> bstr matches Some(f) && v@ == f.seq0().drop_last(),
    {
        match bstr {
            None => None,
            Some(f) => {
                if f.prefix_bytes() == u32::MAX {
                    return None;
                }
                Some(BStr { units0: f.buf.as_slice() })
            },
        }
    }

    /// 32-bit length in code units, the implicit terminator excluded. A view
    /// never exposes a length at or above the overflow guard.
    pub fn len32(&self) -> (r: u32)
        ensures
            r == self@.len(),
            r < OVERFLOW_GUARD,
    {
        proof {
            use_type_invariant(self);
        }
        (self.units0.len() - 1) as u32
    }

    /// 32-bit length in code units, the implicit terminator included.
    pub fn len320(&self) -> (r: u32)
        ensures
            r == self@.len() + 1,
    {
        proof {
            use_type_invariant(self);
        }
        self.len32() + 1
    }

    /// Length in code units, the implicit terminator excluded.
    pub fn len(&self) -> (r: usize)
        ensures
            r == self@.len(),
    {
        proof {
            use_type_invariant(self);
        }
        self.units0.len() - 1
    }

    /// Length in code units, the implicit terminator included.
    pub fn len0(&self) -> (r: usize)
        ensures
            r == self@.len() + 1,
    {
        proof {
            use_type_invariant(self);
        }
        self.len() + 1
    }

    /// The code units of the string, the terminator excluded.
    pub fn units(&self) -> (r: &'a [u16])
        ensures
            r@ == self@,
            r@.len() < OVERFLOW_GUARD,
    {
        proof {
            use_type_invariant(self);
        }
        let n: usize = self.units0.len();
        slice_subrange(self.units0, 0, n - 1)
    }

    /// The code units of the string, the terminator included.
    pub fn units0(&self) -> (r: &'a [u16])
        ensures
            r@ == self@.push(0u16),
            r@.len() == self@.len() + 1,
            r@.last() == 0u16,
    {
        proof {
            use_type_invariant(self);
            assert(self.units0@ =~= self@.push(0u16));
        }
        self.units0
    }

    /// The view as a foreign-readable string: guaranteed non-null (a slice,
    /// never an absent value) and guaranteed terminator-present.
    pub fn as_bstr(&self) -> (r: &'a [u16])
        ensures
            r@ == self@.push(0u16),
            r@.last() == 0u16,
    {
        self.units0()
    }

    /// The view as a foreign-readable wide-character pointer; same guarantees
    /// as [`Self::as_bstr`].
    pub fn as_lpcwstr(&self) -> (r: &'a [u16])
        ensures
            r@ == self@.push(0u16),
            r@.last() == 0u16,
    {
        self.units0()
    }

    /// Whether this string's code units are the UTF-16 encoding of `s`:
    /// equality with local text goes through the code units alone.
    pub fn eq_str(&self, s: &str) -> (r: bool)
        ensures
            r == (self@ == crate::utf16::utf16_seq(s@)),
    {
        let enc = crate::utf16::encode_utf16(s);
        crate::units::units_eq(self.units(), enc.as_slice())
    }
}

} // verus!

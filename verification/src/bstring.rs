//! The owned foreign-format string: exclusive ownership of one terminated
//! code-unit buffer, built by the conversion layer and viewable as a
//! [`BStr`].

use crate::bstr::BStr;
use crate::units::OVERFLOW_GUARD;
use crate::units::zero_extend;
use crate::utf16::encode_utf16;
use crate::utf16::utf16_seq;
use vstd::prelude::*;

verus! {

/// The foreign allocator's allocate-with-length entry point, modeled as an
/// in-process allocation: a zero-filled buffer of `len + 1` code units, the
/// final unit being the terminator. The model's allocation cannot be
/// exhausted, so the platform allocator's null result never arises here.
fn alloc_buffer(len: usize) -> (r: Vec<u16>)
    requires
        len < usize::MAX,
    ensures
        r@ == Seq::new(len as nat + 1, |i: int| 0u16),
{
    let mut buf: Vec<u16> = Vec::new();
    let mut i: usize = 0;
    while i < len + 1
        invariant
            len < usize::MAX,
            i <= len + 1,
            buf@ == Seq::new(i as nat, |j: int| 0u16),
        decreases len + 1 - i,
    {
        buf.push(0u16);
        proof {
            assert(buf@ =~= Seq::new(i as nat + 1, |j: int| 0u16));
        }
        i += 1;
    }
    buf
}

/// An owned, non-null foreign-format string; `self@` is its code units, the
/// implicit terminator excluded.
#[derive(Debug, Hash)]
pub struct BString {
    buf: Vec<u16>,
}

impl View for BString {
    type V = Seq<u16>;

    closed spec fn view(&self) -> Seq<u16> {
        self.buf@.drop_last()
    }
}

impl BString {
    /// Every owned string holds a terminated buffer bounded by the overflow
    /// guard.
    #[verifier::type_invariant]
    spec fn wf(self) -> bool {
        &&& self.buf@.len() >= 1
        &&& self.buf@.last() == 0u16
        &&& self.buf@.len() - 1 < OVERFLOW_GUARD
    }

    /// Create an owned string from a source of code units.
    ///
    /// `declared_len` is what the source claims its length is; only that
    /// claim sizes the allocation, and the units themselves fill it. If the
    /// source turns out shorter, the missing units are zero-filled — the
    /// guard against a source whose length changes between the length query
    /// and the iteration. Fails exactly when the declared length reaches the
    /// overflow-guard threshold.
    pub fn from_code_units(code_units: &[u16], declared_len: usize) -> (r: Option<BString>)
        ensures
            r is Some <==> declared_len < OVERFLOW_GUARD,
            r matches Some(b) ==> b@ == zero_extend(code_units@, declared_len as nat),
    {
        if declared_len >= OVERFLOW_GUARD as usize {
            return None;
        }
        let mut buf = alloc_buffer(declared_len);
        let n: usize = code_units.len();
        let limit: usize = if n < declared_len {
            n
        } else {
            declared_len
        };
        let mut off: usize = 0;
        while off < limit
            invariant
                limit <= declared_len,
                limit <= code_units@.len(),
                off <= limit,
                buf@.len() == declared_len + 1,
                forall|j: int| 0 <= j < off ==> buf@[j] == code_units@[j],
                forall|j: int| off <= j < buf@.len() ==> buf@[j] == 0u16,
            decreases limit - off,
        {
            let u = *vstd::slice::slice_index_get(code_units, off);
            buf.set(off, u);
            off += 1;
        }
        let r = BString { buf };
        proof {
            assert(r@ =~= zero_extend(code_units@, declared_len as nat));
        }
        Some(r)
    }

    /// Create an owned string from text, materializing its UTF-16 encoding
    /// exactly once. Fails exactly when the encoding reaches the
    /// overflow-guard threshold.
    pub fn from_str(s: &str) -> (r: Option<BString>)
        ensures
            r is Some <==> utf16_seq(s@).len() < OVERFLOW_GUARD,
            r matches Some(b) ==> b@ == utf16_seq(s@),
    {
        let esi = ESI::new(encode_utf16(s));
        let r = BString::from_code_units(esi.as_units(), esi.len());
        proof {
            crate::units::lemma_zero_extend_exact(utf16_seq(s@));
        }
        r
    }

    /// Copy a borrowed view into a freshly allocated owned string. A valid
    /// view is always under the overflow guard, so this cannot fail.
    pub fn from_bstr(s: &BStr) -> (r: Option<BString>)
        ensures
            r matches Some(b) && b@ == s@,
    {
        proof {
            use_type_invariant(s);
        }
        let units = s.units();
        let r = BString::from_code_units(units, units.len());
        proof {
            crate::units::lemma_zero_extend_exact(s@);
        }
        r
    }

    /// View the owned string as a borrowed one over the same memory.
    pub fn as_bstr(&self) -> (r: BStr<'_>)
        ensures
            r@ == self@,
    {
        proof {
            use_type_invariant(self);
        }
        let r = BStr::from_units0(self.buf.as_slice());
        match r {
            Some(v) => v,
            None => unreached(),
        }
    }

    /// The code units of the string, the terminator excluded.
    pub fn units(&self) -> (r: &[u16])
        ensures
            r@ == self@,
    {
        proof {
            use_type_invariant(self);
        }
        let n: usize = self.buf.len();
        vstd::slice::slice_subrange(self.buf.as_slice(), 0, n - 1)
    }

    /// The code units of the string, the terminator included.
    pub fn units0(&self) -> (r: &[u16])
        ensures
            r@ == self@.push(0u16),
            r@.len() == self@.len() + 1,
            r@.last() == 0u16,
    {
        proof {
            use_type_invariant(self);
            assert(self.buf@ =~= self@.push(0u16));
        }
        self.buf.as_slice()
    }

    /// Length in code units, the implicit terminator excluded.
    pub fn len(&self) -> (r: usize)
        ensures
            r == self@.len(),
    {
        proof {
            use_type_invariant(self);
        }
        self.buf.len() - 1
    }

    /// Whether this string's code units are the UTF-16 encoding of `s`:
    /// equality with local text goes through the code units alone.
    pub fn eq_str(&self, s: &str) -> (r: bool)
        ensures
            r == (self@ == utf16_seq(s@)),
    {
        let enc = encode_utf16(s);
        crate::units::units_eq(self.units(), enc.as_slice())
    }
}

impl Clone for BString {
    /// An owned string clones to a fresh allocation with the same code units.
    fn clone(&self) -> (r: Self)
        ensures
            r@ == self@,
    {
        proof {
            use_type_invariant(self);
        }
        let r = BString::from_code_units(self.units(), self.len());
        match r {
            Some(b) => b,
            None => unreached(),
        }
    }
}

/// Round trip: for every code-unit sequence under the overflow guard,
/// building an owned string from it (with its own length declared) and
/// reading the code units back gives exactly that sequence —
/// [`BString::from_code_units`] ensures the view is `zero_extend(s, n)`, and
/// with `n` the sequence's own length that is the sequence itself.
pub proof fn lemma_round_trip(s: Seq<u16>)
    requires
        s.len() < OVERFLOW_GUARD,
    ensures
        zero_extend(s, s.len()) == s,
{
    crate::units::lemma_zero_extend_exact(s);
}

/// Exact-size adapter over a materialized code-unit sequence: the length is
/// taken once, up front, and reported unchanged however the units are later
/// consumed.
pub struct ESI {
    units: Vec<u16>,
    len: usize,
    pos: usize,
}

impl ESI {
    /// The underlying code units.
    pub closed spec fn seq(&self) -> Seq<u16> {
        self.units@
    }

    /// The length snapshot taken at construction.
    pub closed spec fn spec_len(&self) -> nat {
        self.len as nat
    }

    /// How many units have been consumed so far.
    pub closed spec fn spec_pos(&self) -> nat {
        self.pos as nat
    }

    /// Wrap a sequence of code units, snapshotting its length exactly once.
    pub fn new(units: Vec<u16>) -> (r: ESI)
        ensures
            r.seq() == units@,
            r.spec_len() == units@.len(),
            r.spec_pos() == 0,
    {
        let len: usize = units.len();
        ESI { units, len, pos: 0 }
    }

    /// The snapshotted length.
    pub fn len(&self) -> (r: usize)
        ensures
            r == self.spec_len(),
    {
        self.len
    }

    /// The not-yet-consumed view of all underlying units.
    pub fn as_units(&self) -> (r: &[u16])
        ensures
            r@ == self.seq(),
    {
        self.units.as_slice()
    }

    /// The next code unit, if any is left.
    pub fn next(&mut self) -> (r: Option<u16>)
        ensures
            final(self).seq() == old(self).seq(),
            final(self).spec_len() == old(self).spec_len(),
            old(self).spec_pos() < old(self).seq().len() ==> r == Some(
                old(self).seq()[old(self).spec_pos() as int],
            ) && final(self).spec_pos() == old(self).spec_pos() + 1,
            old(self).spec_pos() >= old(self).seq().len() ==> r is None && final(self).spec_pos()
                == old(self).spec_pos(),
    {
        if self.pos < self.units.len() {
            let u = *vstd::slice::slice_index_get(self.units.as_slice(), self.pos);
            self.pos += 1;
            Some(u)
        } else {
            None
        }
    }
}

} // verus!

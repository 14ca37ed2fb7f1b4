//! The packed wire layout a literal encoder emits: word 0 is the byte-length
//! prefix, each following word carries a pair of code units (low unit first),
//! and the final word is zero, covering the terminator.

use crate::bstring::BString;
use crate::units::OVERFLOW_GUARD;
use vstd::arithmetic::div_mod::lemma_fundamental_div_mod_converse_div;
use vstd::arithmetic::div_mod::lemma_fundamental_div_mod_converse_mod;
use vstd::prelude::*;

verus! {

/// The code unit in the low half of a packed word.
pub open spec fn low_unit(w: u32) -> u16 {
    (w % 0x10000) as u16
}

/// The code unit in the high half of a packed word.
pub open spec fn high_unit(w: u32) -> u16 {
    (w / 0x10000) as u16
}

/// Two adjacent code units packed into one word, low unit first.
pub open spec fn word_of(lo: u16, hi: u16) -> u32 {
    (lo + 0x10000 * hi) as u32
}

/// The word holding units `2 * i` and `2 * i + 1`; an odd tail is padded
/// with a zero unit.
pub open spec fn pair_word(units: Seq<u16>, i: int) -> u32 {
    word_of(
        units[2 * i],
        if 2 * i + 1 < units.len() {
            units[2 * i + 1]
        } else {
            0u16
        },
    )
}

/// The packed layout of a code-unit sequence: the byte-length prefix, the
/// paired units, and a trailing zero word.
pub open spec fn packed_of(units: Seq<u16>) -> Seq<u32> {
    seq![(2 * units.len()) as u32] + Seq::new(
        ((units.len() + 1) / 2) as nat,
        |i: int| pair_word(units, i),
    ) + seq![0u32]
}

/// A well-formed packed layout: an even byte prefix, exactly the word count
/// the prefix calls for, a zero final word, and — when the unit count is odd
/// — a zero pad unit in the half-filled word, so that the unit right after
/// the counted ones is always the zero terminator.
pub open spec fn packed_wf(data: Seq<u32>) -> bool {
    let n = data[0] / 2;
    &&& data.len() >= 2
    &&& data[0] % 2 == 0
    &&& data.len() == 2 + (n + 1) / 2
    &&& data.last() == 0u32
    &&& (n % 2 == 1 ==> high_unit(data[(n + 1) / 2]) == 0u16)
}

/// The code units a packed layout carries, the terminator excluded.
pub open spec fn units_of_packed(data: Seq<u32>) -> Seq<u16> {
    Seq::new(
        (data[0] / 2) as nat,
        |i: int|
            if i % 2 == 0 {
                low_unit(data[1 + i / 2])
            } else {
                high_unit(data[1 + i / 2])
            },
    )
}

/// Unpacking a packed word gives back both units.
pub proof fn lemma_word_units(lo: u16, hi: u16)
    ensures
        low_unit(word_of(lo, hi)) == lo,
        high_unit(word_of(lo, hi)) == hi,
{
    let x: int = lo + 0x10000 * hi;
    assert(x == (hi as int) * 0x10000 + lo);
    lemma_fundamental_div_mod_converse_mod(x, 0x10000, hi as int, lo as int);
    lemma_fundamental_div_mod_converse_div(x, 0x10000, hi as int, lo as int);
    assert(word_of(lo, hi) == x);
}

/// Packing any code-unit sequence under the overflow guard yields a
/// well-formed layout, and unpacking it gives the sequence back.
pub proof fn lemma_pack_round_trip(units: Seq<u16>)
    requires
        units.len() < OVERFLOW_GUARD,
    ensures
        packed_wf(packed_of(units)),
        units_of_packed(packed_of(units)) == units,
{
    let data = packed_of(units);
    let n = units.len() as int;
    let words = (n + 1) / 2;
    assert(data.len() == 2 + words);
    assert(data[0] == 2 * n);
    assert(data[0] / 2 == n);
    assert(data[0] % 2 == 0);
    assert(data.last() == 0u32);
    assert forall|i: int| 0 <= i < words implies data[1 + i] == pair_word(units, i) by {}
    if n % 2 == 1 {
        let last_pair = (n + 1) / 2;
        assert(data[last_pair] == pair_word(units, last_pair - 1));
        assert(2 * (last_pair - 1) == n - 1);
        assert(2 * (last_pair - 1) + 1 == n);
        lemma_word_units(units[n - 1], 0u16);
    }
    assert forall|i: int| 0 <= i < n implies units_of_packed(data)[i] == units[i] by {
        let w = data[1 + i / 2];
        assert(0 <= i / 2 < words);
        assert(w == pair_word(units, i / 2));
        if i % 2 == 0 {
            assert(2 * (i / 2) == i);
            if i + 1 < n {
                lemma_word_units(units[i], units[i + 1]);
            } else {
                lemma_word_units(units[i], 0u16);
            }
        } else {
            assert(2 * (i / 2) == i - 1);
            assert(2 * (i / 2) + 1 == i);
            lemma_word_units(units[i - 1], units[i]);
        }
    }
    assert(units_of_packed(data) =~= units);
}

/// Pack code units into the wire layout; fails exactly when the unit count
/// reaches the overflow-guard threshold.
pub fn pack_bstr_words(units: &[u16]) -> (r: Result<Vec<u32>, crate::literal::LiteralError>)
    ensures
        r is Ok <==> units@.len() < OVERFLOW_GUARD,
        r matches Ok(w) ==> w@ == packed_of(units@),
        r matches Err(e) ==> e == crate::literal::LiteralError::Overlong,
{
    let n: usize = units.len();
    if n >= OVERFLOW_GUARD as usize {
        return Err(crate::literal::LiteralError::Overlong);
    }
    let bytes_len: u32 = 2 * (n as u32);
    let words: usize = (n + 1) / 2;
    let mut out: Vec<u32> = Vec::new();
    out.push(bytes_len);
    let mut i: usize = 0;
    while i < words
        invariant
            n == units@.len(),
            n < OVERFLOW_GUARD,
            words == (n + 1) / 2,
            i <= words,
            out@.len() == 1 + i,
            out@[0] == (2 * units@.len()) as u32,
            forall|j: int| 0 <= j < i ==> out@[1 + j] == pair_word(units@, j),
        decreases words - i,
    {
        let lo: u16 = *vstd::slice::slice_index_get(units, 2 * i);
        let hi: u16 = if 2 * i + 1 < n {
            *vstd::slice::slice_index_get(units, 2 * i + 1)
        } else {
            0u16
        };
        let w: u32 = lo as u32 + 0x10000 * hi as u32;
        out.push(w);
        i += 1;
    }
    out.push(0u32);
    proof {
        assert(out@ =~= packed_of(units@));
    }
    Ok(out)
}

/// Unpack a packed layout into an owned string, checking the layout first:
/// the no-value result exactly when the data is not well-formed.
pub fn from_packed(data: &[u32]) -> (r: Option<BString>)
    ensures
        r is Some <==> packed_wf(data@),
        r matches Some(b) ==> b@ == units_of_packed(data@),
{
    let len: usize = data.len();
    if len < 2 {
        return None;
    }
    let prefix: u32 = *vstd::slice::slice_index_get(data, 0);
    if prefix % 2 != 0 {
        return None;
    }
    let n32: u32 = prefix / 2;
    let words: u32 = (n32 + 1) / 2;
    if len != 2 + words as usize {
        return None;
    }
    if *vstd::slice::slice_index_get(data, len - 1) != 0u32 {
        proof {
            assert(data@.last() != 0u32);
        }
        return None;
    }
    if n32 % 2 == 1 {
        let pad_word: u32 = *vstd::slice::slice_index_get(data, words as usize);
        if pad_word >= 0x10000 {
            proof {
                assert(high_unit(data@[(data@[0] / 2 + 1) / 2]) != 0u16);
            }
            return None;
        }
        proof {
            assert(high_unit(data@[(data@[0] / 2 + 1) / 2]) == 0u16);
        }
    }
    let n: usize = n32 as usize;
    let mut units: Vec<u16> = Vec::new();
    let mut i: usize = 0;
    while i < n
        invariant
            len == data@.len(),
            n == n32,
            n32 == data@[0] / 2,
            words == (n32 + 1) / 2,
            len == 2 + words,
            i <= n,
            units@ == units_of_packed(data@).take(i as int),
        decreases n - i,
    {
        let w: u32 = *vstd::slice::slice_index_get(data, 1 + i / 2);
        let u: u16 = if i % 2 == 0 {
            (w % 0x10000) as u16
        } else {
            (w / 0x10000) as u16
        };
        units.push(u);
        proof {
            assert(units@ =~= units_of_packed(data@).take(i + 1));
        }
        i += 1;
    }
    proof {
        assert(units@ =~= units_of_packed(data@));
    }
    let r = BString::from_code_units(units.as_slice(), n);
    proof {
        crate::units::lemma_zero_extend_exact(units@);
    }
    match r {
        Some(b) => Some(b),
        None => unreached(),
    }
}

impl<'a> crate::bstr::BStr<'a> {
    /// The constructor behind the literal facility: it trusts the packed
    /// data, which the producer guarantees well-formed, and materializes the
    /// string it carries. Hand-built data goes through [`from_packed`]
    /// instead, which checks the layout.
    pub fn bstr_macro_impl_detail(data: &[u32]) -> (r: BString)
        requires
            packed_wf(data@),
        ensures
            r@ == units_of_packed(data@),
    {
        match from_packed(data) {
            Some(b) => b,
            None => unreached(),
        }
    }
}

} // verus!

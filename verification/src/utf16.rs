//! UTF-16 encoding of text into 16-bit code units: scalar values below
//! `0x10000` take one unit, all others take a surrogate pair.

use vstd::prelude::*;

verus! {

/// The UTF-16 code units of one Unicode scalar value.
pub open spec fn utf16_units_of_scalar(v: u32) -> Seq<u16>
    recommends
        is_unicode_scalar(v as int),
{
    if v < 0x10000 {
        seq![v as u16]
    } else {
        seq![
            (0xD800 + (v - 0x10000) / 0x400) as u16,
            (0xDC00 + (v - 0x10000) % 0x400) as u16,
        ]
    }
}

/// The UTF-16 code units of one character.
pub open spec fn utf16_units_of_char(c: char) -> Seq<u16> {
    utf16_units_of_scalar(c as u32)
}

/// The UTF-16 encoding of a text, character by character.
pub open spec fn utf16_seq(s: Seq<char>) -> Seq<u16>
    decreases s.len(),
{
    if s.len() == 0 {
        Seq::empty()
    } else {
        utf16_units_of_char(s[0]) + utf16_seq(s.skip(1))
    }
}

/// Appending one character extends the encoding by that character's units.
pub proof fn lemma_utf16_seq_push(s: Seq<char>, c: char)
    ensures
        utf16_seq(s.push(c)) == utf16_seq(s) + utf16_units_of_char(c),
    decreases s.len(),
{
    if s.len() == 0 {
        let t = s.push(c);
        assert(t[0] == c);
        assert(t.skip(1) =~= Seq::<char>::empty());
        assert(utf16_seq(t.skip(1)) == Seq::<u16>::empty());
        assert(utf16_seq(t) == utf16_units_of_char(c) + utf16_seq(t.skip(1)));
        assert(utf16_seq(t) =~= utf16_seq(s) + utf16_units_of_char(c));
    } else {
        assert(s.push(c).skip(1) =~= s.skip(1).push(c));
        lemma_utf16_seq_push(s.skip(1), c);
        assert(utf16_seq(s.push(c)) =~= utf16_seq(s) + utf16_units_of_char(c));
    }
}

/// Append the UTF-16 units of one character to a buffer.
pub fn push_utf16_char(out: &mut Vec<u16>, c: char)
    ensures
        final(out)@ == old(out)@ + utf16_units_of_char(c),
{
    push_utf16_scalar(out, c as u32);
}

/// Whether `v` is a Unicode scalar value (a code point outside the
/// surrogate range).
pub open spec fn is_unicode_scalar(v: int) -> bool {
    0 <= v <= 0x10FFFF && !(0xD800 <= v <= 0xDFFF)
}

/// Append the UTF-16 units of one Unicode scalar value to a buffer.
pub fn push_utf16_scalar(out: &mut Vec<u16>, v: u32)
    requires
        is_unicode_scalar(v as int),
    ensures
        final(out)@ == old(out)@ + utf16_units_of_scalar(v),
{
    if v < 0x10000 {
        out.push(v as u16);
        proof {
            assert(out@ =~= old(out)@ + utf16_units_of_scalar(v));
        }
    } else {
        let rest: u32 = v - 0x10000;
        let hi: u16 = (0xD800 + rest / 0x400) as u16;
        let lo: u16 = (0xDC00 + rest % 0x400) as u16;
        out.push(hi);
        out.push(lo);
        proof {
            assert(out@ =~= old(out)@ + utf16_units_of_scalar(v));
        }
    }
}

/// Encode a text into its UTF-16 code units, materializing the encoding once.
pub fn encode_utf16(s: &str) -> (r: Vec<u16>)
    ensures
        r@ == utf16_seq(s@),
{
    let n: usize = s.unicode_len();
    let mut out: Vec<u16> = Vec::new();
    let mut i: usize = 0;
    while i < n
        invariant
            n == s@.len(),
            i <= n,
            out@ == utf16_seq(s@.take(i as int)),
        decreases n - i,
    {
        let c = s.get_char(i);
        push_utf16_char(&mut out, c);
        proof {
            assert(s@.take(i + 1) =~= s@.take(i as int).push(s@[i as int]));
            lemma_utf16_seq_push(s@.take(i as int), s@[i as int]);
        }
        i += 1;
    }
    proof {
        assert(s@.take(n as int) =~= s@);
    }
    out
}

} // verus!

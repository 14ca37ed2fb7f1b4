//! The literal encoder: decoding escape sequences in source text into UTF-16
//! code units, and packing the units into the 32-bit-word wire layout
//! (byte-length prefix, paired code units, zero terminator word).

use crate::units::OVERFLOW_GUARD;
use crate::utf16::is_unicode_scalar;
use crate::utf16::utf16_units_of_char;
use crate::utf16::utf16_units_of_scalar;
use vstd::prelude::*;

verus! {

/// Why a literal was rejected. Every failure here is a rejection of the
/// source text, never of a runtime value.
#[derive(Clone, Copy, Debug, PartialEq, Eq, Structural)]
pub enum LiteralError {
    /// The literal does not start with a double quote.
    NoOpeningQuote,
    /// The literal does not end with a double quote.
    NoClosingQuote,
    /// The text ends right after a backslash.
    LoneBackslash,
    /// A byte escape is not followed by two hexadecimal digits.
    BadByteEscape,
    /// A Unicode escape is not followed by an opening brace.
    BadUnicodeBrace,
    /// A braced Unicode escape does not hold one to six hexadecimal digits
    /// followed by a closing brace.
    BadUnicodeEscape,
    /// A braced Unicode escape names a value that is not a Unicode scalar.
    InvalidScalar,
    /// The decoded literal reaches the overflow-guard threshold.
    Overlong,
}

impl LiteralError {
    /// The diagnostic a literal-encoding front end would report.
    pub fn message(&self) -> &'static str {
        match self {
            LiteralError::NoOpeningQuote => "expected string literal to start with `\"`",
            LiteralError::NoClosingQuote => "expected string literal to end with `\"`",
            LiteralError::LoneBackslash => "expected character after `\\` in string",
            LiteralError::BadByteEscape => "expected two hexadecimal characters after `\\x` escape sequence",
            LiteralError::BadUnicodeBrace => "expected `{` after `\\u` escape sequence",
            LiteralError::BadUnicodeEscape => "expected 1-6 hexadecimal characters in `\\u{...}` escape sequence",
            LiteralError::InvalidScalar => "invalid unicode codepoint in `\\u{...}` escape sequence",
            LiteralError::Overlong => "expected the decoded literal to stay under the overflow guard",
        }
    }
}

/// Whether `c` is a hexadecimal digit.
pub open spec fn is_hex_digit(c: char) -> bool {
    ('0' <= c && c <= '9') || ('a' <= c && c <= 'f') || ('A' <= c && c <= 'F')
}

/// The value of a hexadecimal digit.
pub open spec fn hex_digit_val(c: char) -> int
    recommends
        is_hex_digit(c),
{
    if '0' <= c && c <= '9' {
        c as int - '0' as int
    } else if 'a' <= c && c <= 'f' {
        c as int - 'a' as int + 10
    } else {
        c as int - 'A' as int + 10
    }
}

/// Parse the inside of a braced Unicode escape: one to six hexadecimal
/// digits, then a closing brace. `digits` digits of accumulated value `acc`
/// have been read already. Returns the scalar value and how many characters
/// of `s` were consumed, the closing brace included.
pub open spec fn take_braced(s: Seq<char>, digits: int, acc: int) -> Option<(int, int)>
    decreases 6 - digits,
{
    if s.len() == 0 || digits > 6 {
        None
    } else if s[0] == '}' {
        if digits >= 1 {
            Some((acc, 1))
        } else {
            None
        }
    } else if is_hex_digit(s[0]) && digits < 6 {
        match take_braced(s.skip(1), digits + 1, acc * 16 + hex_digit_val(s[0])) {
            Some(r) => Some((r.0, r.1 + 1)),
            None => None,
        }
    } else {
        None
    }
}

/// A successful braced parse consumes at least the closing brace, never more
/// of the text than it was given, and yields a non-negative scalar value.
pub proof fn lemma_take_braced_bounds(s: Seq<char>, digits: int, acc: int)
    requires
        0 <= digits,
        0 <= acc,
    ensures
        take_braced(s, digits, acc) matches Some(r) ==> 1 <= r.1 <= s.len() && 0 <= r.0,
    decreases 6 - digits,
{
    if s.len() == 0 || digits > 6 {
    } else if s[0] == '}' {
    } else if is_hex_digit(s[0]) && digits < 6 {
        lemma_take_braced_bounds(s.skip(1), digits + 1, acc * 16 + hex_digit_val(s[0]));
    }
}

/// Prefix a decoded tail with the units of one decoded element.
pub open spec fn prepend(
    units: Seq<u16>,
    rest: Result<Seq<u16>, LiteralError>,
) -> Result<Seq<u16>, LiteralError> {
    match rest {
        Ok(u) => Ok(units + u),
        Err(e) => Err(e),
    }
}

/// Decode source text into UTF-16 code units: each plain character encodes
/// as itself; a backslash starts one of the simple escapes
/// (`0 t n r \ ' "`), a two-digit byte escape (`x`), a braced Unicode scalar
/// escape (`u`), or — for any other character — that character taken
/// literally.
pub open spec fn decode_units(s: Seq<char>) -> Result<Seq<u16>, LiteralError>
    decreases s.len(),
    via decode_units_decreases
{
    if s.len() == 0 {
        Ok(Seq::empty())
    } else if s[0] != '\\' {
        prepend(utf16_units_of_char(s[0]), decode_units(s.skip(1)))
    } else if s.len() == 1 {
        Err(LiteralError::LoneBackslash)
    } else if s[1] == '0' {
        prepend(seq![0u16], decode_units(s.skip(2)))
    } else if s[1] == 't' {
        prepend(seq![9u16], decode_units(s.skip(2)))
    } else if s[1] == 'n' {
        prepend(seq![10u16], decode_units(s.skip(2)))
    } else if s[1] == 'r' {
        prepend(seq![13u16], decode_units(s.skip(2)))
    } else if s[1] == '\\' {
        prepend(seq![92u16], decode_units(s.skip(2)))
    } else if s[1] == '\'' {
        prepend(seq![39u16], decode_units(s.skip(2)))
    } else if s[1] == '"' {
        prepend(seq![34u16], decode_units(s.skip(2)))
    } else if s[1] == 'x' {
        if s.len() >= 4 && is_hex_digit(s[2]) && is_hex_digit(s[3]) {
            prepend(
                seq![(16 * hex_digit_val(s[2]) + hex_digit_val(s[3])) as u16],
                decode_units(s.skip(4)),
            )
        } else {
            Err(LiteralError::BadByteEscape)
        }
    } else if s[1] == 'u' {
        if s.len() >= 3 && s[2] == '{' {
            match take_braced(s.skip(3), 0, 0) {
                Some(r) => {
                    if is_unicode_scalar(r.0) {
                        prepend(utf16_units_of_scalar(r.0 as u32), decode_units(s.skip(3 + r.1)))
                    } else {
                        Err(LiteralError::InvalidScalar)
                    }
                },
                None => Err(LiteralError::BadUnicodeEscape),
            }
        } else {
            Err(LiteralError::BadUnicodeBrace)
        }
    } else {
        prepend(utf16_units_of_char(s[1]), decode_units(s.skip(2)))
    }
}

#[via_fn]
proof fn decode_units_decreases(s: Seq<char>) {
    if s.len() >= 3 {
        lemma_take_braced_bounds(s.skip(3), 0, 0);
    }
}

/// Decode a quoted string literal: the text between the mandatory opening
/// and closing double quotes, escape sequences resolved.
pub open spec fn parse_literal(s: Seq<char>) -> Result<Seq<u16>, LiteralError> {
    if s.len() < 1 || s[0] != '"' {
        Err(LiteralError::NoOpeningQuote)
    } else if s.len() < 2 || s[s.len() - 1] != '"' {
        Err(LiteralError::NoClosingQuote)
    } else {
        decode_units(s.subrange(1, s.len() - 1))
    }
}

/// The value of a hexadecimal digit, or nothing for any other character.
fn hex_val(c: char) -> (r: Option<u16>)
    ensures
        r is Some <==> is_hex_digit(c),
        r matches Some(v) ==> v == hex_digit_val(c) && v < 16,
{
    if '0' <= c && c <= '9' {
        Some(c as u16 - '0' as u16)
    } else if 'a' <= c && c <= 'f' {
        Some(c as u16 - 'a' as u16 + 10)
    } else if 'A' <= c && c <= 'F' {
        Some(c as u16 - 'A' as u16 + 10)
    } else {
        None
    }
}

/// Add `d` to the consumed-character count of a braced parse.
spec fn shift_used(o: Option<(int, int)>, d: int) -> Option<(int, int)> {
    match o {
        Some(r) => Some((r.0, r.1 + d)),
        None => None,
    }
}

/// Run the braced-Unicode-escape parser over `s[start..end]`.
fn parse_braced(s: &str, start: usize, end: usize) -> (r: Option<(u32, usize)>)
    requires
        start <= end <= s@.len(),
    ensures
        r is Some <==> take_braced(s@.subrange(start as int, end as int), 0, 0) is Some,
        r matches Some(p) ==> take_braced(s@.subrange(start as int, end as int), 0, 0) == Some(
            (p.0 as int, p.1 as int),
        ),
{
    let mut pos: usize = start;
    let mut digits: u32 = 0;
    let mut acc: u32 = 0;
    loop
        invariant
            start <= pos <= end <= s@.len(),
            digits <= 6,
            acc < 0x1000000,
            digits <= 5 ==> acc < 0x100000,
            digits <= 4 ==> acc < 0x10000,
            digits <= 3 ==> acc < 0x1000,
            digits <= 2 ==> acc < 0x100,
            digits <= 1 ==> acc < 0x10,
            digits == 0 ==> acc == 0,
            take_braced(s@.subrange(start as int, end as int), 0, 0) == shift_used(
                take_braced(s@.subrange(pos as int, end as int), digits as int, acc as int),
                pos - start,
            ),
        decreases 7 - digits + (end - pos),
    {
        let ghost rem = s@.subrange(pos as int, end as int);
        if pos == end {
            proof {
                assert(rem.len() == 0);
            }
            return None;
        }
        let c = s.get_char(pos);
        proof {
            assert(rem[0] == s@[pos as int]);
        }
        if c == '}' {
            if digits >= 1 {
                proof {
                    assert(take_braced(rem, digits as int, acc as int) == Some(
                        (acc as int, 1int),
                    ));
                }
                return Some((acc, pos + 1 - start));
            } else {
                return None;
            }
        }
        match hex_val(c) {
            Some(d) => {
                if digits >= 6 {
                    proof {
                        assert(take_braced(rem, digits as int, acc as int) is None);
                    }
                    return None;
                }
                proof {
                    assert(rem.skip(1) =~= s@.subrange(pos + 1, end as int));
                }
                acc = acc * 16 + d as u32;
                digits = digits + 1;
                pos = pos + 1;
            },
            None => {
                return None;
            },
        }
    }
}

/// Prefixing twice is prefixing with the concatenation.
proof fn lemma_prepend_assoc(a: Seq<u16>, b: Seq<u16>, r: Result<Seq<u16>, LiteralError>)
    ensures
        prepend(a, prepend(b, r)) == prepend(a + b, r),
{
    match r {
        Ok(u) => {
            assert(a + (b + u) =~= (a + b) + u);
        },
        Err(_) => {},
    }
}

/// Decode a quoted string literal into UTF-16 code units, exactly as
/// [`parse_literal`] describes.
pub fn decode_literal(s: &str) -> (r: Result<Vec<u16>, LiteralError>)
    ensures
        r matches Ok(v) ==> parse_literal(s@) == Ok::<Seq<u16>, LiteralError>(v@),
        r matches Err(e) ==> parse_literal(s@) == Err::<Seq<u16>, LiteralError>(e),
{
    let n: usize = s.unicode_len();
    if n < 1 || s.get_char(0) != '"' {
        return Err(LiteralError::NoOpeningQuote);
    }
    if n < 2 || s.get_char(n - 1) != '"' {
        return Err(LiteralError::NoClosingQuote);
    }
    let ghost inner = s@.subrange(1, n - 1);
    let end: usize = n - 1;
    let mut out: Vec<u16> = Vec::new();
    let mut i: usize = 1;
    while i < end
        invariant
            n == s@.len(),
            2 <= n,
            s@[0] == '"',
            s@[n - 1] == '"',
            end == n - 1,
            1 <= i <= end,
            inner == s@.subrange(1, n - 1),
            decode_units(inner) == prepend(out@, decode_units(s@.subrange(i as int, end as int))),
        decreases end - i,
    {
        let ghost rem = s@.subrange(i as int, end as int);
        let ghost out0 = out@;
        proof {
            assert(rem[0] == s@[i as int]);
        }
        let c = s.get_char(i);
        if c != '\\' {
            crate::utf16::push_utf16_char(&mut out, c);
            proof {
                assert(rem.skip(1) =~= s@.subrange(i + 1, end as int));
                lemma_prepend_assoc(
                    out0,
                    utf16_units_of_char(c),
                    decode_units(s@.subrange(i + 1, end as int)),
                );
            }
            i = i + 1;
            continue ;
        }
        if i + 1 >= end {
            proof {
                assert(rem.len() == 1);
            }
            return Err(LiteralError::LoneBackslash);
        }
        proof {
            assert(rem[1] == s@[i + 1]);
            assert(rem.skip(2) =~= s@.subrange(i + 2, end as int));
        }
        let e = s.get_char(i + 1);
        if e == '0' || e == 't' || e == 'n' || e == 'r' || e == '\\' || e == '\'' || e == '"' {
            let u: u16 = if e == '0' {
                0u16
            } else if e == 't' {
                9u16
            } else if e == 'n' {
                10u16
            } else if e == 'r' {
                13u16
            } else if e == '\\' {
                92u16
            } else if e == '\'' {
                39u16
            } else {
                34u16
            };
            out.push(u);
            proof {
                assert(out@ =~= out0 + seq![u]);
                lemma_prepend_assoc(out0, seq![u], decode_units(s@.subrange(i + 2, end as int)));
            }
            i = i + 2;
        } else if e == 'x' {
            if i + 3 >= end {
                proof {
                    assert(rem.len() < 4);
                }
                return Err(LiteralError::BadByteEscape);
            }
            proof {
                assert(rem.len() >= 4);
                assert(rem[2] == s@[i + 2]);
                assert(rem[3] == s@[i + 3]);
                assert(rem.skip(4) =~= s@.subrange(i + 4, end as int));
            }
            let d1 = match hex_val(s.get_char(i + 2)) {
                Some(d) => d,
                None => {
                    return Err(LiteralError::BadByteEscape);
                },
            };
            let d2 = match hex_val(s.get_char(i + 3)) {
                Some(d) => d,
                None => {
                    return Err(LiteralError::BadByteEscape);
                },
            };
            let u: u16 = 16 * d1 + d2;
            out.push(u);
            proof {
                assert(out@ =~= out0 + seq![u]);
                lemma_prepend_assoc(out0, seq![u], decode_units(s@.subrange(i + 4, end as int)));
            }
            i = i + 4;
        } else if e == 'u' {
            if i + 2 >= end {
                proof {
                    assert(rem.len() < 3);
                }
                return Err(LiteralError::BadUnicodeBrace);
            }
            proof {
                assert(rem.len() >= 3);
                assert(rem[2] == s@[i + 2]);
            }
            if s.get_char(i + 2) != '{' {
                return Err(LiteralError::BadUnicodeBrace);
            }
            proof {
                assert(rem.skip(3) =~= s@.subrange(i + 3, end as int));
            }
            let p = match parse_braced(s, i + 3, end) {
                Some(p) => p,
                None => {
                    return Err(LiteralError::BadUnicodeEscape);
                },
            };
            let v: u32 = p.0;
            let used: usize = p.1;
            proof {
                lemma_take_braced_bounds(s@.subrange(i + 3, end as int), 0, 0);
            }
            if v > 0x10FFFF || (0xD800 <= v && v <= 0xDFFF) {
                return Err(LiteralError::InvalidScalar);
            }
            crate::utf16::push_utf16_scalar(&mut out, v);
            proof {
                assert(rem.skip(3 + used) =~= s@.subrange(i + 3 + used, end as int));
                lemma_prepend_assoc(
                    out0,
                    utf16_units_of_scalar(v),
                    decode_units(s@.subrange(i + 3 + used, end as int)),
                );
            }
            i = i + 3 + used;
        } else {
            crate::utf16::push_utf16_char(&mut out, e);
            proof {
                lemma_prepend_assoc(
                    out0,
                    utf16_units_of_char(e),
                    decode_units(s@.subrange(i + 2, end as int)),
                );
            }
            i = i + 2;
        }
    }
    proof {
        assert(s@.subrange(i as int, end as int).len() == 0);
        assert(decode_units(s@.subrange(i as int, end as int)) == Ok::<Seq<u16>, LiteralError>(
            Seq::empty(),
        ));
        assert(out@ + Seq::<u16>::empty() =~= out@);
    }
    Ok(out)
}

/// Escape decoding rejects text for reasons of its own; running out of the
/// overflow guard is the packing step's error alone.
pub proof fn lemma_decode_units_no_overlong(s: Seq<char>)
    ensures
        decode_units(s) != Err::<Seq<u16>, LiteralError>(LiteralError::Overlong),
    decreases s.len(),
{
    if s.len() == 0 {
    } else if s[0] != '\\' {
        lemma_decode_units_no_overlong(s.skip(1));
    } else if s.len() == 1 {
    } else if s[1] == '0' || s[1] == 't' || s[1] == 'n' || s[1] == 'r' || s[1] == '\\' || s[1]
        == '\'' || s[1] == '"' {
        lemma_decode_units_no_overlong(s.skip(2));
    } else if s[1] == 'x' {
        if s.len() >= 4 && is_hex_digit(s[2]) && is_hex_digit(s[3]) {
            lemma_decode_units_no_overlong(s.skip(4));
        }
    } else if s[1] == 'u' {
        if s.len() >= 3 && s[2] == '{' {
            match take_braced(s.skip(3), 0, 0) {
                Some(r) => {
                    if is_unicode_scalar(r.0) {
                        lemma_take_braced_bounds(s.skip(3), 0, 0);
                        lemma_decode_units_no_overlong(s.skip(3 + r.1));
                    }
                },
                None => {},
            }
        }
    } else {
        lemma_decode_units_no_overlong(s.skip(2));
    }
}

/// Turn the source text of a quoted string literal into the packed wire
/// layout: decode the escapes, then pack the units. An `Overlong` error
/// means the text decoded but its units reach the overflow guard; every
/// other error is [`parse_literal`]'s, reported exactly.
pub fn parse_str(literal: &str) -> (r: Result<Vec<u32>, LiteralError>)
    ensures
        r matches Ok(w) ==> parse_literal(literal@) matches Ok(u) && u.len() < OVERFLOW_GUARD
            && w@ == crate::packed::packed_of(u),
        r matches Err(e) ==> if e == LiteralError::Overlong {
            parse_literal(literal@) matches Ok(u) && u.len() >= OVERFLOW_GUARD
        } else {
            parse_literal(literal@) == Err::<Seq<u16>, LiteralError>(e)
        },
{
    proof {
        lemma_decode_units_no_overlong(literal@.subrange(1, literal@.len() - 1));
    }
    let units = match decode_literal(literal) {
        Ok(u) => u,
        Err(e) => {
            return Err(e);
        },
    };
    match crate::packed::pack_bstr_words(units.as_slice()) {
        Ok(w) => Ok(w),
        Err(e) => Err(e),
    }
}

} // verus!

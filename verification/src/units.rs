//! The mathematical model of code-unit sequences: the overflow guard, the
//! zero-extension used when a source under-reports its length, lexicographic
//! ordering, and the UTF-16 encoding of text.

use vstd::prelude::*;

verus! {

/// Code-unit counts must stay strictly below this threshold so that the
/// byte-length prefix (twice the count) and the terminator-inclusive length
/// can never overflow 32-bit arithmetic.
pub const OVERFLOW_GUARD: u32 = 0x8000_0000u32;

/// `s` truncated or zero-filled to exactly `n` code units.
pub open spec fn zero_extend(s: Seq<u16>, n: nat) -> Seq<u16> {
    Seq::new(n, |i: int| if i < s.len() { s[i] } else { 0u16 })
}

/// Zero-extending a sequence to its own length gives the sequence back.
pub proof fn lemma_zero_extend_exact(s: Seq<u16>)
    ensures
        zero_extend(s, s.len()) == s,
{
    assert(zero_extend(s, s.len()) =~= s);
}

/// Lexicographic comparison of two code-unit sequences; a strict prefix
/// compares below its extensions.
pub open spec fn lex_cmp(a: Seq<u16>, b: Seq<u16>) -> core::cmp::Ordering
    decreases a.len(),
{
    if a.len() == 0 && b.len() == 0 {
        core::cmp::Ordering::Equal
    } else if a.len() == 0 {
        core::cmp::Ordering::Less
    } else if b.len() == 0 {
        core::cmp::Ordering::Greater
    } else if a[0] < b[0] {
        core::cmp::Ordering::Less
    } else if a[0] > b[0] {
        core::cmp::Ordering::Greater
    } else {
        lex_cmp(a.skip(1), b.skip(1))
    }
}

/// Two sequences compare `Equal` exactly when they are the same sequence.
pub proof fn lemma_lex_cmp_equal_iff_eq(a: Seq<u16>, b: Seq<u16>)
    ensures
        lex_cmp(a, b) == core::cmp::Ordering::Equal <==> a == b,
    decreases a.len(),
{
    if a.len() == 0 && b.len() == 0 {
        assert(a =~= b);
    } else if a.len() == 0 || b.len() == 0 {
    } else {
        lemma_lex_cmp_equal_iff_eq(a.skip(1), b.skip(1));
        if a[0] == b[0] && a.skip(1) == b.skip(1) {
            assert forall|i: int| 0 <= i < a.len() implies a[i] == b[i] by {
                if i > 0 {
                    assert(a[i] == a.skip(1)[i - 1]);
                    assert(b[i] == b.skip(1)[i - 1]);
                }
            }
            assert(a =~= b);
        }
        if a == b {
            assert(a.skip(1) =~= b.skip(1));
        }
    }
}

/// Exchanging the operands mirrors the comparison.
pub proof fn lemma_lex_cmp_antisymmetric(a: Seq<u16>, b: Seq<u16>)
    ensures
        lex_cmp(a, b) == core::cmp::Ordering::Less <==> lex_cmp(b, a)
            == core::cmp::Ordering::Greater,
    decreases a.len(),
{
    if a.len() != 0 && b.len() != 0 && a[0] == b[0] {
        lemma_lex_cmp_antisymmetric(a.skip(1), b.skip(1));
    }
}

/// Code units equal: exact element-wise comparison.
pub fn units_eq(a: &[u16], b: &[u16]) -> (r: bool)
    ensures
        r == (a@ == b@),
{
    if a.len() != b.len() {
        proof {
            assert(a@.len() != b@.len());
        }
        return false;
    }
    let n: usize = a.len();
    let mut i: usize = 0;
    while i < n
        invariant
            n == a@.len() == b@.len(),
            i <= n,
            forall|j: int| 0 <= j < i ==> a@[j] == b@[j],
        decreases n - i,
    {
        if a[i] != b[i] {
            return false;
        }
        i += 1;
    }
    proof {
        assert(a@ =~= b@);
    }
    true
}

/// Lexicographic comparison of code-unit slices.
pub fn cmp_units(a: &[u16], b: &[u16]) -> (r: core::cmp::Ordering)
    ensures
        r == lex_cmp(a@, b@),
{
    let an: usize = a.len();
    let bn: usize = b.len();
    let mut i: usize = 0;
    proof {
        assert(a@.skip(0) =~= a@);
        assert(b@.skip(0) =~= b@);
    }
    loop
        invariant
            an == a@.len(),
            bn == b@.len(),
            i <= an,
            i <= bn,
            lex_cmp(a@, b@) == lex_cmp(a@.skip(i as int), b@.skip(i as int)),
        decreases an - i,
    {
        proof {
            lemma_lex_cmp_skip_step(a@, b@, i as int);
        }
        if i >= an || i >= bn {
            if an == bn {
                return core::cmp::Ordering::Equal;
            } else if an < bn {
                return core::cmp::Ordering::Less;
            } else {
                return core::cmp::Ordering::Greater;
            }
        }
        if a[i] < b[i] {
            return core::cmp::Ordering::Less;
        }
        if a[i] > b[i] {
            return core::cmp::Ordering::Greater;
        }
        i += 1;
    }
}

/// One unfolding step of `lex_cmp` on the suffixes starting at `i`.
proof fn lemma_lex_cmp_skip_step(a: Seq<u16>, b: Seq<u16>, i: int)
    requires
        0 <= i <= a.len(),
        0 <= i <= b.len(),
    ensures
        i < a.len() && i < b.len() && a[i] == b[i] ==> lex_cmp(a.skip(i), b.skip(i)) == lex_cmp(
            a.skip(i + 1),
            b.skip(i + 1),
        ),
        i == a.len() && i == b.len() ==> lex_cmp(a.skip(i), b.skip(i))
            == core::cmp::Ordering::Equal,
        i == a.len() && i < b.len() ==> lex_cmp(a.skip(i), b.skip(i))
            == core::cmp::Ordering::Less,
        i < a.len() && i == b.len() ==> lex_cmp(a.skip(i), b.skip(i))
            == core::cmp::Ordering::Greater,
        i < a.len() && i < b.len() && a[i] < b[i] ==> lex_cmp(a.skip(i), b.skip(i))
            == core::cmp::Ordering::Less,
        i < a.len() && i < b.len() && a[i] > b[i] ==> lex_cmp(a.skip(i), b.skip(i))
            == core::cmp::Ordering::Greater,
{
    assert(a.skip(i).len() == a.len() - i);
    assert(b.skip(i).len() == b.len() - i);
    if i < a.len() && i < b.len() {
        assert(a.skip(i)[0] == a[i]);
        assert(b.skip(i)[0] == b[i]);
        assert(a.skip(i).skip(1) =~= a.skip(i + 1));
        assert(b.skip(i).skip(1) =~= b.skip(i + 1));
    }
}

} // verus!

use vstd::prelude::*;
use vstd::arithmetic::power2::{
    lemma2_to64, lemma_pow2_strictly_increases, lemma_pow2_unfold, pow2,
};

verus! {

// The wire format carries positions and velocities as 64-bit floats, but a
// peer may encode a whole-valued number in a compact integer form instead.
// The decoder then has to produce the bit pattern of the 64-bit float with
// that exact integer value.  All integers that the decoder accepts fit well
// inside the 53-bit mantissa, so the conversion below is exact and needs no
// floating-point arithmetic: a positive integer n with most significant bit e
// becomes sign 0, biased exponent 1023 + e, and mantissa n * 2^(52-e) - 2^52.

/// Index of the most significant set bit of `n` (0 when `n` is 0 or 1).
pub open spec fn msb64(n: u64) -> nat
    decreases n,
{
    if n < 2 {
        0
    } else {
        (1 + msb64((n / 2) as u64)) as nat
    }
}

proof fn lemma_msb64_range(n: u64)
    requires
        1 <= n,
    ensures
        pow2(msb64(n)) <= n < pow2(msb64(n) + 1),
    decreases n,
{
    if n < 2 {
        lemma2_to64();
    } else {
        let h: u64 = (n / 2) as u64;
        lemma_msb64_range(h);
        lemma_pow2_unfold((msb64(n)) as nat);
        lemma_pow2_unfold((msb64(n) + 1) as nat);
        assert(pow2(msb64(n)) == 2 * pow2(msb64(h)));
        assert(pow2(msb64(n) + 1) == 2 * pow2(msb64(h) + 1));
    }
}

proof fn lemma_msb64_at_most_32(n: u64)
    requires
        1 <= n <= 0x1_0000_0000,
    ensures
        msb64(n) <= 32,
{
    lemma_msb64_range(n);
    if msb64(n) > 32 {
        lemma_pow2_strictly_increases(32, msb64(n));
        lemma2_to64();
        assert(false);
    }
}

/// IEEE-754 double bit pattern of the positive integer `n`.  Exact for
/// `n <= 2^32`, which is well within the 53-bit mantissa.
pub open spec fn f64_bits_of_mag(n: u64) -> u64
    recommends
        1 <= n <= 0x1_0000_0000,
{
    (((1023 + msb64(n)) as u64) << 52u64) | ((n << ((52 - msb64(n)) as u64))
        & 0x000F_FFFF_FFFF_FFFFu64)
}

/// Bit pattern of the 64-bit float whose exact value is the integer `v`.
pub open spec fn f64_bits_of_int(v: int) -> u64
    recommends
        -0x1_0000_0000 <= v < 0x1_0000_0000,
{
    if v == 0 {
        0u64
    } else if v > 0 {
        f64_bits_of_mag(v as u64)
    } else {
        0x8000_0000_0000_0000u64 | f64_bits_of_mag((-v) as u64)
    }
}

/// Computes the bit pattern of the 64-bit float with value `n`.
pub fn f64_bits_from_uint(n: u64) -> (r: u64)
    requires
        n <= 0x1_0000_0000,
    ensures
        r == f64_bits_of_int(n as int),
{
    if n == 0 {
        return 0;
    }
    proof {
        lemma_msb64_at_most_32(n);
    }
    let mut e: u64 = 0;
    let mut m: u64 = n;
    while m >= 2
        invariant
            1 <= m <= n,
            msb64(n) == e + msb64(m),
            msb64(n) <= 32,
        decreases m,
    {
        m = m / 2;
        e = e + 1;
    }
    let exponent: u64 = 1023 + e;
    let shift: u64 = 52 - e;
    (exponent << 52u64) | ((n << shift) & 0x000F_FFFF_FFFF_FFFF)
}

/// Computes the bit pattern of the 64-bit float with value `-mag`.
pub fn f64_bits_from_neg(mag: u64) -> (r: u64)
    requires
        1 <= mag <= 0x1_0000_0000,
    ensures
        r == f64_bits_of_int(-(mag as int)),
{
    let positive: u64 = f64_bits_from_uint(mag);
    0x8000_0000_0000_0000u64 | positive
}

} // verus!

use vstd::prelude::*;

verus! {

/// The state the game's random number generator starts from.
pub const RNG_SEED: u32 = 0x1234_5678;

/// One step of the xorshift32 generator (shifts 13, 17, 5).
pub open spec fn xorshift32(x: u32) -> u32 {
    let a = x ^ (x << 13u32);
    let b = a ^ (a >> 17u32);
    b ^ (b << 5u32)
}

/// Computes the next state of the xorshift32 generator.
pub fn xorshift32_next(x: u32) -> (r: u32)
    ensures
        r == xorshift32(x),
{
    let mut y = x;
    y = y ^ (y << 13u32);
    y = y ^ (y >> 17u32);
    y = y ^ (y << 5u32);
    y
}

/// A generator state read as a fraction of one, `r / 2^32`, scaled by `n`
/// and rounded down.
pub open spec fn scale_unit(r: u32, n: int) -> int {
    (r as int * n) / 0x1_0000_0000
}

/// Scales the fraction `r / 2^32` by `n`, rounding down.
pub fn scale_unit_exec(r: u32, n: u32) -> (v: u32)
    ensures
        v == scale_unit(r, n as int),
        v as int * 0x1_0000_0000 <= r as int * n,
        n > 0 ==> v < n,
{
    proof {
        assert((r as int) * (n as int) <= 0xffff_ffff * 0xffff_ffff) by (nonlinear_arith)
            requires r <= 0xffff_ffffint, n <= 0xffff_ffffint, 0 <= r, 0 <= n;
    }
    let p: u64 = (r as u64) * (n as u64);
    let v: u64 = p / 0x1_0000_0000u64;
    proof {
        assert((r as int) * (n as int) < 0x1_0000_0000 * (n as int) || n == 0) by (nonlinear_arith)
            requires r < 0x1_0000_0000int;
        assert(v as int * 0x1_0000_0000 <= p as int) by (nonlinear_arith)
            requires v == p / 0x1_0000_0000u64;
        assert(n > 0 ==> v < n) by (nonlinear_arith)
            requires v == p / 0x1_0000_0000u64, p as int == (r as int) * (n as int), r < 0x1_0000_0000int;
    }
    v as u32
}

/// Law: the generator never falls into the all-zero state from any other
/// state, so a nonzero seed keeps it producing numbers forever.
pub proof fn xorshift32_nonzero(x: u32)
    requires
        x != 0,
    ensures
        xorshift32(x) != 0,
{
    let a = x ^ (x << 13u32);
    let b = a ^ (a >> 17u32);
    assert(a != 0) by (bit_vector)
        requires x != 0u32, a == x ^ (x << 13u32);
    assert(b != 0) by (bit_vector)
        requires a != 0u32, b == a ^ (a >> 17u32);
    assert(b ^ (b << 5u32) != 0) by (bit_vector)
        requires b != 0u32;
}

} // verus!

//! Arithmetic in the prime field of order `P = 2^31 - 1`.
//!
//! Elements are held as `u32` values in canonical form, that is below `P`.
use vstd::prelude::*;
use vstd::arithmetic::div_mod::lemma_mul_mod_noop;
use vstd::arithmetic::power::pow;

verus! {

/// The field's order, the Mersenne prime `2^31 - 1`.
pub const P: u64 = 2147483647;

/// Degree of the S-box: `P - 1` is divisible by 2 and 3, so the smallest `D >= 3`
/// with `gcd(P - 1, D) = 1` is 5.
pub const SBOX_DEGREE: u64 = 5;

/// A canonical field element.
pub open spec fn canon(x: int) -> bool {
    0 <= x < P as int
}

/// Field addition on canonical values.
pub open spec fn fadd(a: int, b: int) -> int {
    (a + b) % (P as int)
}

/// The S-box: a value raised to the power `SBOX_DEGREE`, in the field.
pub open spec fn sbox(x: int) -> int {
    pow(x, SBOX_DEGREE as nat) % (P as int)
}

/// `SBOX_DEGREE` is the smallest `D >= 3` coprime to `P - 1`: 3 and 4 share a
/// factor with it, and 5, a prime, does not divide it.
pub proof fn lemma_sbox_degree_smallest()
    ensures
        SBOX_DEGREE == 5,
        (P - 1) % 3 == 0,
        (P - 1) % 2 == 0,
        (P - 1) % 5 != 0,
{
}

/// Field addition.
pub fn field_add(a: u32, b: u32) -> (r: u32)
    requires
        canon(a as int),
        canon(b as int),
    ensures
        r as int == fadd(a as int, b as int),
{
    ((a as u64 + b as u64) % P) as u32
}

/// Field doubling.
pub fn field_double(a: u32) -> (r: u32)
    requires
        canon(a as int),
    ensures
        r as int == fadd(a as int, a as int),
{
    field_add(a, a)
}

/// Field multiplication.
pub fn field_mul(a: u32, b: u32) -> (r: u32)
    requires
        canon(a as int),
        canon(b as int),
    ensures
        r as int == (a as int * b as int) % (P as int),
{
    assert(a as int * b as int <= 2147483646 * 2147483646) by (nonlinear_arith)
        requires
            0 <= a as int <= 2147483646,
            0 <= b as int <= 2147483646,
    ;
    ((a as u64 * b as u64) % P) as u32
}

/// The S-box, `x^5` in the field.
pub fn sbox_exec(x: u32) -> (r: u32)
    requires
        canon(x as int),
    ensures
        r as int == sbox(x as int),
{
    let x2 = field_mul(x, x);
    let x4 = field_mul(x2, x2);
    let r = field_mul(x4, x);
    proof {
        reveal_with_fuel(pow, 6);
        assert(pow(x as int, 5) == x as int * (x as int * (x as int * (x as int * (x as int * 1)))));
        assert(x as int * (x as int * (x as int * (x as int * (x as int * 1)))) == x as int * x as int * x as int * x as int * x as int) by (nonlinear_arith);
        let p = P as int;
        let xi = x as int;
        lemma_mul_mod_noop(xi * xi, xi * xi, p);
        assert(xi * xi * (xi * xi) == xi * xi * xi * xi) by (nonlinear_arith);
        lemma_mul_mod_noop(xi * xi * xi * xi, xi, p);
        assert(xi % p == xi) by {
            vstd::arithmetic::div_mod::lemma_small_mod(xi as nat, p as nat);
        }
        assert((x4 as int) % p == x4 as int) by {
            vstd::arithmetic::div_mod::lemma_small_mod(x4 as nat, p as nat);
        }
    }
    r
}

} // verus!

//! Scalars: residues modulo the Mersenne prime 2^31 - 1, held in a `u64`.
//! Every sum fits in 32 bits and every product in 62 bits, so no operation
//! can overflow.
use vstd::prelude::*;
use vstd::arithmetic::div_mod::*;

verus! {

/// The field's characteristic, the prime 2^31 - 1.
pub const MODULUS: u64 = 2147483647;

/// A canonical residue.
pub open spec fn is_elem(x: int) -> bool {
    0 <= x < MODULUS as int
}

pub open spec fn fadd(a: int, b: int) -> int {
    (a + b) % (MODULUS as int)
}

pub open spec fn fsub(a: int, b: int) -> int {
    (a - b) % (MODULUS as int)
}

pub open spec fn fmul(a: int, b: int) -> int {
    (a * b) % (MODULUS as int)
}

pub open spec fn fneg(a: int) -> int {
    (0 - a) % (MODULUS as int)
}

/// `b` raised to the power `e`, by repeated squaring.
pub open spec fn fpow(b: int, e: nat) -> int
    decreases e,
{
    if e == 0 {
        1
    } else {
        let h = fpow(fmul(b, b), e / 2);
        if e % 2 == 0 {
            h
        } else {
            fmul(b, h)
        }
    }
}

/// The multiplicative inverse by Fermat's little theorem: `b^(p-2)`.
pub open spec fn finv(b: int) -> int {
    fpow(b, (MODULUS - 2) as nat)
}

pub open spec fn fdiv(a: int, b: int) -> int {
    fmul(a, finv(b))
}

pub proof fn lemma_fpow_in_range(b: int, e: nat)
    requires
        is_elem(b),
    ensures
        is_elem(fpow(b, e)),
    decreases e,
{
    if e > 0 {
        lemma_fpow_in_range(fmul(b, b), e / 2);
    }
}

/// The sum of two residues.
pub fn add_mod(a: u64, b: u64) -> (r: u64)
    requires
        is_elem(a as int),
        is_elem(b as int),
    ensures
        r as int == fadd(a as int, b as int),
{
    (a + b) % MODULUS
}

/// The difference of two residues.
pub fn sub_mod(a: u64, b: u64) -> (r: u64)
    requires
        is_elem(a as int),
        is_elem(b as int),
    ensures
        r as int == fsub(a as int, b as int),
{
    proof {
        lemma_add_mod_noop(a as int - b as int, MODULUS as int, MODULUS as int);
        lemma_mod_self_0(MODULUS as int);
        lemma_mod_twice(a as int - b as int, MODULUS as int);
    }
    (a + MODULUS - b) % MODULUS
}

/// The product of two residues.
pub fn mul_mod(a: u64, b: u64) -> (r: u64)
    requires
        is_elem(a as int),
        is_elem(b as int),
    ensures
        r as int == fmul(a as int, b as int),
{
    assert(a * b < 0x4000_0000_0000_0000) by (nonlinear_arith)
        requires
            a < MODULUS,
            b < MODULUS,
    ;
    (a * b) % MODULUS
}

/// `b` raised to the power `e`.
pub fn pow_mod(b: u64, e: u64) -> (r: u64)
    requires
        is_elem(b as int),
    ensures
        r as int == fpow(b as int, e as nat),
    decreases e,
{
    if e == 0 {
        1
    } else {
        let h = pow_mod(mul_mod(b, b), e / 2);
        if e % 2 == 0 {
            h
        } else {
            proof {
                lemma_fpow_in_range(fmul(b as int, b as int), (e / 2) as nat);
            }
            mul_mod(b, h)
        }
    }
}

/// The multiplicative inverse of a nonzero residue (zero maps to zero).
pub fn inv_mod(b: u64) -> (r: u64)
    requires
        is_elem(b as int),
    ensures
        r as int == finv(b as int),
        is_elem(r as int),
{
    proof {
        lemma_fpow_in_range(b as int, (MODULUS - 2) as nat);
    }
    pow_mod(b, MODULUS - 2)
}

/// The residue of a signed integer.
pub fn residue(x: i64) -> (r: u64)
    ensures
        r as int == x as int % (MODULUS as int),
{
    let m: i64 = MODULUS as i64;
    let q: i64 = x % m;
    if q < 0 {
        proof {
            lemma_fundamental_div_mod(x as int, m as int);
        }
        (q + m) as u64
    } else {
        q as u64
    }
}

/// The representative of a residue in the symmetric range
/// `-(p-1)/2 ..= (p-1)/2`, which reads back small negative values.
pub fn to_signed(r: u64) -> (s: i64)
    requires
        is_elem(r as int),
    ensures
        s as int % (MODULUS as int) == r as int,
        -(MODULUS as int) / 2 <= s <= (MODULUS as int) / 2,
{
    if r > MODULUS / 2 {
        let s: i64 = r as i64 - MODULUS as i64;
        proof {
            lemma_fundamental_div_mod(s as int, MODULUS as int);
        }
        s
    } else {
        r as i64
    }
}

} // verus!

//! Arithmetic in the prime field underlying the circuit.
//!
//! Field elements are residues below the configured modulus. The executable
//! operations are specified against the mathematical residue arithmetic
//! (`fadd`, `fmul`, ...); inversion is decided by the greatest common divisor
//! with the modulus, so the contracts are exact for composite moduli too.

use vstd::prelude::*;
use vstd::arithmetic::div_mod::{
    lemma_add_mod_noop, lemma_add_mod_noop_right, lemma_fundamental_div_mod, lemma_mod_add_multiples_vanish,
    lemma_mod_bound, lemma_mod_self_0, lemma_mod_sub_multiples_vanish, lemma_mul_mod_noop_left,
    lemma_mul_mod_noop_right, lemma_small_mod, lemma_sub_mod_noop,
};

verus! {

/// `(a + b) mod m`.
pub open spec fn fadd(m: u128, a: u128, b: u128) -> u128 {
    (((a as int) + (b as int)) % (m as int)) as u128
}

/// `(a * b) mod m`.
pub open spec fn fmul(m: u128, a: u128, b: u128) -> u128 {
    (((a as int) * (b as int)) % (m as int)) as u128
}

/// The additive inverse of a residue `a < m`.
pub open spec fn fneg(m: u128, a: u128) -> u128 {
    if a == 0 {
        0
    } else {
        (m - a) as u128
    }
}

/// `(a - b) mod m`, for residues.
pub open spec fn fsub(m: u128, a: u128, b: u128) -> u128 {
    fadd(m, a, fneg(m, b))
}

/// Greatest common divisor.
pub open spec fn gcd(a: nat, b: nat) -> nat
    decreases b,
{
    if b == 0 {
        a
    } else {
        gcd(b, a % b)
    }
}

/// A residue has a multiplicative inverse exactly when it is coprime with
/// the modulus.
pub open spec fn invertible(m: u128, a: u128) -> bool {
    gcd(a as nat, m as nat) == 1
}

/// The multiplicative inverse of `a` modulo `m` (meaningful only when one
/// exists; it is then unique).
pub open spec fn finv(m: u128, a: u128) -> u128 {
    choose|i: u128| i < m && fmul(m, a, i) == 1
}

/// Multiplicative inverses modulo `m` are unique among residues.
pub proof fn lemma_inverse_unique(m: u128, a: u128, i: u128, j: u128)
    requires
        1 < m,
        i < m,
        j < m,
        fmul(m, a, i) == 1,
        fmul(m, a, j) == 1,
    ensures
        i == j,
{
    let mm = m as int;
    let aa = a as int;
    let ii = i as int;
    let jj = j as int;
    lemma_small_mod(i as nat, m as nat);
    lemma_small_mod(j as nat, m as nat);
    assert((aa * jj) % mm == 1) by {
        vstd::arithmetic::mul::lemma_mul_nonnegative(aa, jj);
        lemma_mod_bound(aa * jj, mm);
    }
    assert((aa * ii) % mm == 1) by {
        vstd::arithmetic::mul::lemma_mul_nonnegative(aa, ii);
        lemma_mod_bound(aa * ii, mm);
    }
    // i == (i * (a*j)) % m
    assert((ii * ((aa * jj) % mm)) % mm == (ii * (aa * jj)) % mm) by {
        lemma_mul_mod_noop_right(ii, aa * jj, mm);
    }
    assert((ii * ((aa * jj) % mm)) % mm == ii % mm);
    // (i * (a*j)) == ((a*i) * j)
    assert(ii * (aa * jj) == (aa * ii) * jj) by (nonlinear_arith);
    // ((a*i) * j) % m == j
    assert(((aa * ii) * jj) % mm == (((aa * ii) % mm) * jj) % mm) by {
        lemma_mul_mod_noop_left(aa * ii, jj, mm);
    }
    assert((((aa * ii) % mm) * jj) % mm == jj % mm);
}

/// Field addition of residues.
pub fn field_add(m: u128, a: u128, b: u128) -> (r: u128)
    requires
        1 < m,
        a < m,
        b < m,
    ensures
        r == fadd(m, a, b),
        r < m,
{
    let r = if b == 0 {
        a
    } else if a >= m - b {
        a - (m - b)
    } else {
        a + b
    };
    proof {
        if a + b < m {
            lemma_small_mod((a + b) as nat, m as nat);
        } else {
            lemma_mod_sub_multiples_vanish((a + b) as int, m as int);
            lemma_small_mod((a + b - m) as nat, m as nat);
        }
    }
    r
}

/// Field negation of a residue.
pub fn field_neg(m: u128, a: u128) -> (r: u128)
    requires
        1 < m,
        a < m,
    ensures
        r == fneg(m, a),
        r < m,
        fadd(m, a, r) == 0,
{
    proof {
        if a != 0 {
            lemma_mod_self_0(m as int);
        } else {
            lemma_small_mod(0, m as nat);
        }
    }
    if a == 0 {
        0
    } else {
        m - a
    }
}

/// Field subtraction of residues.
pub fn field_sub(m: u128, a: u128, b: u128) -> (r: u128)
    requires
        1 < m,
        a < m,
        b < m,
    ensures
        r == fsub(m, a, b),
        r < m,
{
    let nb = field_neg(m, b);
    field_add(m, a, nb)
}

/// Field multiplication of residues, by modular doubling and adding.
#[verifier::loop_isolation(false)]
pub fn field_mul(m: u128, a: u128, b: u128) -> (r: u128)
    requires
        1 < m,
        a < m,
        b < m,
    ensures
        r == fmul(m, a, b),
        r < m,
{
    let mut acc: u128 = 0;
    let mut x: u128 = a;
    let mut y: u128 = b;
    let ghost mm = m as int;
    while y > 0
        invariant
            acc < m,
            x < m,
            ((acc as int) + (x as int) * (y as int)) % mm == ((a as int) * (b as int)) % mm,
        decreases y,
    {
        let ghost acc0 = acc as int;
        let ghost x0 = x as int;
        let ghost y0 = y as int;
        if y % 2 == 1 {
            acc = field_add(m, acc, x);
        }
        let ghost acc1 = acc as int;
        x = field_add(m, x, x);
        y = y / 2;
        proof {
            let x1 = x as int;
            let y1 = y as int;
            lemma_fundamental_div_mod(y0, 2);
            if y0 % 2 == 1 {
                // acc1 == (acc0 + x0) % m
                assert((acc1 + x0 * (y0 - 1)) % mm == (acc0 + x0 * y0) % mm) by {
                    lemma_add_mod_noop_right((acc0 + x0) % mm, x0 * (y0 - 1), mm);
                    lemma_add_mod_noop(acc0 + x0, x0 * (y0 - 1), mm);
                    lemma_add_mod_noop_right(acc0 + x0, x0 * (y0 - 1), mm);
                    assert(acc0 + x0 + x0 * (y0 - 1) == acc0 + x0 * y0) by (nonlinear_arith);
                }
            }
            // In both cases, acc1 + x0 * (2 * y1) keeps the running value.
            assert((acc1 + x0 * (2 * y1)) % mm == ((a as int) * (b as int)) % mm);
            // Replace 2 * x0 by its residue x1.
            assert((acc1 + x1 * y1) % mm == (acc1 + x0 * (2 * y1)) % mm) by {
                lemma_mul_mod_noop_left(2 * x0, y1, mm);
                lemma_add_mod_noop_right(acc1, ((2 * x0) % mm) * y1, mm);
                lemma_add_mod_noop_right(acc1, (2 * x0) * y1, mm);
                assert((2 * x0) * y1 == x0 * (2 * y1)) by (nonlinear_arith);
            }
        }
    }
    proof {
        assert(acc as int + (x as int) * 0 == acc as int);
        lemma_small_mod(acc as nat, m as nat);
    }
    acc
}

/// Field inversion by the extended Euclidean algorithm. Returns the unique
/// multiplicative inverse when `a` is coprime with `m`, and `None` otherwise.
#[verifier::loop_isolation(false)]
pub fn field_inv(m: u128, a: u128) -> (r: Option<u128>)
    requires
        1 < m,
        a < m,
    ensures
        r is Some <==> invertible(m, a),
        r matches Some(i) ==> i < m && fmul(m, a, i) == 1 && i == finv(m, a),
{
    let mut r0: u128 = a;
    let mut r1: u128 = m;
    let mut u0: u128 = 1;
    let mut u1: u128 = 0;
    let ghost mm = m as int;
    let ghost aa = a as int;
    proof {
        lemma_small_mod(a as nat, m as nat);
        lemma_mod_self_0(mm);
        lemma_small_mod(0, m as nat);
        assert(aa * 1 == aa);
        assert(aa * 0 == 0);
    }
    while r1 != 0
        invariant
            u0 < m,
            u1 < m,
            r0 <= m,
            r1 <= m,
            gcd(r0 as nat, r1 as nat) == gcd(a as nat, m as nat),
            (r0 as int) % mm == (aa * (u0 as int)) % mm,
            (r1 as int) % mm == (aa * (u1 as int)) % mm,
        decreases r1,
    {
        let q = r0 / r1;
        let r2 = r0 % r1;
        let qm = q % m;
        let t = field_mul(m, qm, u1);
        let u2 = field_sub(m, u0, t);
        proof {
            let qq = q as int;
            let uu0 = u0 as int;
            let uu1 = u1 as int;
            let tt = t as int;
            let uu2 = u2 as int;
            let rr0 = r0 as int;
            let rr1 = r1 as int;
            let rr2 = r2 as int;
            // gcd is preserved: one unfolding of the definition.
            assert(gcd(r0 as nat, r1 as nat) == gcd(r1 as nat, (r0 as nat) % (r1 as nat)));
            // t == (q * u1) % m
            assert(tt == (qq * uu1) % mm) by {
                lemma_mul_mod_noop_left(qq, uu1, mm);
            }
            // u2 % m == (u0 - q * u1) % m
            assert(uu2 % mm == (uu0 - qq * uu1) % mm) by {
                lemma_small_mod(u2 as nat, m as nat);
                lemma_sub_mod_noop_right_helper(uu0, qq * uu1, mm);
                if tt == 0 {
                    lemma_small_mod(u0 as nat, m as nat);
                    assert(uu2 == uu0 % mm);
                } else {
                    assert(uu2 == (uu0 + (mm - tt)) % mm);
                    assert(uu0 + (mm - tt) == mm + (uu0 - tt));
                    lemma_mod_add_multiples_vanish(uu0 - tt, mm);
                }
            }
            // r2 % m == (a * u2) % m
            assert(rr2 % mm == (aa * uu2) % mm) by {
                lemma_fundamental_div_mod(rr0, rr1);
                assert(rr2 == rr0 - qq * rr1);
                // q * r1 ≡ q * (a * u1)  (mod m)
                assert((qq * rr1) % mm == (qq * (aa * uu1)) % mm) by {
                    lemma_mul_mod_noop_right(qq, rr1, mm);
                    lemma_mul_mod_noop_right(qq, aa * uu1, mm);
                }
                // r0 - q*r1 ≡ a*u0 - q*(a*u1)
                lemma_sub_mod_noop(rr0, qq * rr1, mm);
                lemma_sub_mod_noop(aa * uu0, qq * (aa * uu1), mm);
                assert((rr0 - qq * rr1) % mm == (aa * uu0 - qq * (aa * uu1)) % mm);
                // a * u2 ≡ a * (u0 - q*u1) == a*u0 - q*(a*u1)
                assert((aa * uu2) % mm == (aa * (uu0 - qq * uu1)) % mm) by {
                    lemma_mul_mod_noop_right(aa, uu2, mm);
                    lemma_mul_mod_noop_right(aa, uu0 - qq * uu1, mm);
                }
                assert(aa * (uu0 - qq * uu1) == aa * uu0 - qq * (aa * uu1)) by (nonlinear_arith);
            }
        }
        r0 = r1;
        r1 = r2;
        u0 = u1;
        u1 = u2;
    }
    if r0 == 1 {
        proof {
            lemma_small_mod(1, m as nat);
            assert(fmul(m, a, u0) == 1);
            let w = finv(m, a);
            assert(u0 < m && fmul(m, a, u0) == 1);
            assert(exists|i: u128| i < m && fmul(m, a, i) == 1);
            assert(w < m && fmul(m, a, w) == 1);
            lemma_inverse_unique(m, a, u0, w);
        }
        Some(u0)
    } else {
        proof {
            if invertible(m, a) {
                assert(gcd(r0 as nat, 0) == r0 as nat);
                assert(false);
            }
        }
        None
    }
}

/// `(x - (y % m)) % m == (x - y) % m`, for a positive modulus.
proof fn lemma_sub_mod_noop_right_helper(x: int, y: int, m: int)
    requires
        0 < m,
    ensures
        (x - (y % m)) % m == (x - y) % m,
{
    vstd::arithmetic::div_mod::lemma_sub_mod_noop_right(x, y, m);
}

} // verus!

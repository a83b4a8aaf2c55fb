//! Arithmetic over a prime field whose modulus is a runtime parameter.
//! A field element is a 256-bit unsigned integer held as four 64-bit limbs;
//! every operation takes and returns canonically reduced values.
use vstd::prelude::*;
use vstd::arithmetic::div_mod::{
    lemma_fundamental_div_mod, lemma_fundamental_div_mod_converse, lemma_small_mod,
    lemma_add_mod_noop, lemma_add_mod_noop_right, lemma_mul_mod_noop_left,
    lemma_mul_mod_noop_general, lemma_mod_add_multiples_vanish, lemma_mod_bound,
};
use vstd::arithmetic::power::{
    pow, lemma_pow_adds, lemma_pow_multiplies, lemma_pow_mod_noop, lemma_pow0, lemma_pow1,
};
use vstd::arithmetic::power2::{pow2, lemma_pow2_adds, lemma2_to64, lemma2_to64_rest};

verus! {

/// A 256-bit unsigned value, little-endian limbs: value
/// = l0 + l1*2^64 + l2*2^128 + l3*2^192.
#[derive(Clone, Copy, PartialEq, Eq, Structural, Debug)]
pub struct Fe {
    pub l0: u64,
    pub l1: u64,
    pub l2: u64,
    pub l3: u64,
}

/// The denoted value, in Horner form so that every product multiplies a
/// term by the single-limb radix.
pub open spec fn fe_val(f: Fe) -> int {
    ((f.l3 * 0x10000000000000000 + f.l2) * 0x10000000000000000 + f.l1)
        * 0x10000000000000000 + f.l0
}

/// c * 2^256, in the same Horner style.
pub open spec fn carry_term(c: u64) -> int {
    (((c * 0x10000000000000000) * 0x10000000000000000) * 0x10000000000000000)
        * 0x10000000000000000
}

impl View for Fe {
    type V = int;

    open spec fn view(&self) -> int {
        fe_val(*self)
    }
}

/// The moduli this library accepts: at least 2^64 (so a single limb is
/// always reduced) and below 2^255 (so a sum of two reduced values fits
/// in 256 bits). Stated over the limbs.
pub open spec fn modulus_ok(q: Fe) -> bool {
    (q.l1 > 0 || q.l2 > 0 || q.l3 > 0) && q.l3 < 0x8000000000000000
}

pub proof fn lemma_modulus_bounds(q: Fe)
    requires
        modulus_ok(q),
    ensures
        0x10000000000000000 <= fe_val(q),
        fe_val(q) + fe_val(q) <= carry_term(1),
{
}

/// Addition in the field, as a mathematical function.
pub open spec fn addq(x: int, y: int, q: int) -> int
    recommends 0 < q,
{
    (x + y) % q
}

/// Subtraction in the field, as a mathematical function.
pub open spec fn subq(x: int, y: int, q: int) -> int
    recommends 0 < q,
{
    (x + q - y) % q
}

/// Multiplication in the field, as a mathematical function.
pub open spec fn mulq(x: int, y: int, q: int) -> int
    recommends 0 < q,
{
    (x * y) % q
}

/// Exponentiation in the field, as a mathematical function.
pub open spec fn powq(x: int, e: nat, q: int) -> int
    recommends 0 < q,
{
    pow(x, e) % q
}

/// The multiplicative inverse computed as x^(q-2), the form the library
/// uses for division; for prime q and nonzero x this is the inverse.
pub open spec fn invq(x: int, q: int) -> int
    recommends 2 <= q,
{
    powq(x, (q - 2) as nat, q)
}

#[derive(Clone, Copy, PartialEq, Eq, Structural, Debug)]
pub enum FieldError {
    DivisionByZero,
}

pub proof fn lemma_fe_val_bound(f: Fe)
    ensures
        0 <= fe_val(f),
        fe_val(f) < carry_term(1),
{
}

/// Two limb vectors denoting the same value are the same limbs.
pub proof fn lemma_fe_val_injective(a: Fe, b: Fe)
    requires
        fe_val(a) == fe_val(b),
    ensures
        a == b,
{
    let k1 = ((b.l3 - a.l3) * 0x10000000000000000 + (b.l2 - a.l2)) * 0x10000000000000000
        + (b.l1 - a.l1);
    assert(a.l0 - b.l0 == 0x10000000000000000 * k1);
    assert(k1 == 0 && a.l0 == b.l0) by {
        if k1 >= 1 {
            assert(0x10000000000000000 * k1 >= 0x10000000000000000);
        }
        if k1 <= -1 {
            assert(0x10000000000000000 * k1 <= -0x10000000000000000);
        }
    }
    let k2 = (b.l3 - a.l3) * 0x10000000000000000 + (b.l2 - a.l2);
    assert(a.l1 - b.l1 == 0x10000000000000000 * k2);
    assert(k2 == 0 && a.l1 == b.l1) by {
        if k2 >= 1 {
            assert(0x10000000000000000 * k2 >= 0x10000000000000000);
        }
        if k2 <= -1 {
            assert(0x10000000000000000 * k2 <= -0x10000000000000000);
        }
    }
    let k3 = b.l3 - a.l3;
    assert(a.l2 - b.l2 == 0x10000000000000000 * k3);
    assert(k3 == 0 && a.l2 == b.l2) by {
        if k3 >= 1 {
            assert(0x10000000000000000 * k3 >= 0x10000000000000000);
        }
        if k3 <= -1 {
            assert(0x10000000000000000 * k3 <= -0x10000000000000000);
        }
    }
}

/// The limb vector denoting a value; by injectivity it is unique where
/// one exists.
pub open spec fn fe_of(v: int) -> Fe {
    choose|f: Fe| fe_val(f) == v
}

pub proof fn lemma_fe_of(f: Fe)
    ensures
        fe_of(fe_val(f)) == f,
{
    assert(exists|x: Fe| fe_val(x) == fe_val(f)) by {
        assert(fe_val(f) == fe_val(f));
    }
    let g = fe_of(fe_val(f));
    lemma_fe_val_injective(g, f);
}

pub fn fe_zero() -> (r: Fe)
    ensures
        fe_val(r) == 0,
{
    Fe { l0: 0, l1: 0, l2: 0, l3: 0 }
}

pub fn fe_one() -> (r: Fe)
    ensures
        fe_val(r) == 1,
{
    Fe { l0: 1, l1: 0, l2: 0, l3: 0 }
}

pub fn fe_from_u64(x: u64) -> (r: Fe)
    ensures
        fe_val(r) == x,
{
    Fe { l0: x, l1: 0, l2: 0, l3: 0 }
}

/// Whether a value is the additive identity.
pub fn fe_is_zero(a: &Fe) -> (r: bool)
    ensures
        r == (fe_val(*a) == 0),
{
    a.l0 == 0 && a.l1 == 0 && a.l2 == 0 && a.l3 == 0
}

/// Strict comparison of the denoted values.
pub fn fe_lt(a: &Fe, b: &Fe) -> (r: bool)
    ensures
        r == (fe_val(*a) < fe_val(*b)),
{
    if a.l3 != b.l3 {
        a.l3 < b.l3
    } else if a.l2 != b.l2 {
        a.l2 < b.l2
    } else if a.l1 != b.l1 {
        a.l1 < b.l1
    } else {
        a.l0 < b.l0
    }
}

/// Full 256-bit addition: the limbs of a + b together with the carry out.
fn fe_add_limbs(a: &Fe, b: &Fe) -> (res: (Fe, u64))
    ensures
        fe_val(res.0) + carry_term(res.1) == fe_val(*a) + fe_val(*b),
        res.1 <= 1,
{
    let t0: u128 = a.l0 as u128 + b.l0 as u128;
    let r0: u64 = (t0 % 0x10000000000000000u128) as u64;
    let c0: u64 = (t0 / 0x10000000000000000u128) as u64;
    let t1: u128 = a.l1 as u128 + b.l1 as u128 + c0 as u128;
    let r1: u64 = (t1 % 0x10000000000000000u128) as u64;
    let c1: u64 = (t1 / 0x10000000000000000u128) as u64;
    let t2: u128 = a.l2 as u128 + b.l2 as u128 + c1 as u128;
    let r2: u64 = (t2 % 0x10000000000000000u128) as u64;
    let c2: u64 = (t2 / 0x10000000000000000u128) as u64;
    let t3: u128 = a.l3 as u128 + b.l3 as u128 + c2 as u128;
    let r3: u64 = (t3 % 0x10000000000000000u128) as u64;
    let c3: u64 = (t3 / 0x10000000000000000u128) as u64;
    proof {
        lemma_fundamental_div_mod(t0 as int, 0x10000000000000000);
        lemma_fundamental_div_mod(t1 as int, 0x10000000000000000);
        lemma_fundamental_div_mod(t2 as int, 0x10000000000000000);
        lemma_fundamental_div_mod(t3 as int, 0x10000000000000000);
        lemma_mod_bound(t0 as int, 0x10000000000000000);
        lemma_mod_bound(t1 as int, 0x10000000000000000);
        lemma_mod_bound(t2 as int, 0x10000000000000000);
        lemma_mod_bound(t3 as int, 0x10000000000000000);
    }
    (Fe { l0: r0, l1: r1, l2: r2, l3: r3 }, c3)
}

/// Full 256-bit subtraction: the limbs of a - b together with the borrow out.
fn fe_sub_limbs(a: &Fe, b: &Fe) -> (res: (Fe, u64))
    ensures
        fe_val(res.0) + fe_val(*b) == fe_val(*a) + carry_term(res.1),
        res.1 <= 1,
{
    let t0: u128 = (a.l0 as u128 + 0x10000000000000000u128) - b.l0 as u128;
    let r0: u64 = (t0 % 0x10000000000000000u128) as u64;
    let w0: u64 = 1 - (t0 / 0x10000000000000000u128) as u64;
    let t1: u128 = (a.l1 as u128 + 0x10000000000000000u128) - b.l1 as u128 - w0 as u128;
    let r1: u64 = (t1 % 0x10000000000000000u128) as u64;
    let w1: u64 = 1 - (t1 / 0x10000000000000000u128) as u64;
    let t2: u128 = (a.l2 as u128 + 0x10000000000000000u128) - b.l2 as u128 - w1 as u128;
    let r2: u64 = (t2 % 0x10000000000000000u128) as u64;
    let w2: u64 = 1 - (t2 / 0x10000000000000000u128) as u64;
    let t3: u128 = (a.l3 as u128 + 0x10000000000000000u128) - b.l3 as u128 - w2 as u128;
    let r3: u64 = (t3 % 0x10000000000000000u128) as u64;
    let w3: u64 = 1 - (t3 / 0x10000000000000000u128) as u64;
    proof {
        lemma_fundamental_div_mod(t0 as int, 0x10000000000000000);
        lemma_fundamental_div_mod(t1 as int, 0x10000000000000000);
        lemma_fundamental_div_mod(t2 as int, 0x10000000000000000);
        lemma_fundamental_div_mod(t3 as int, 0x10000000000000000);
        lemma_mod_bound(t0 as int, 0x10000000000000000);
        lemma_mod_bound(t1 as int, 0x10000000000000000);
        lemma_mod_bound(t2 as int, 0x10000000000000000);
        lemma_mod_bound(t3 as int, 0x10000000000000000);
    }
    (Fe { l0: r0, l1: r1, l2: r2, l3: r3 }, w3)
}

/// Reduced addition: (a + b) mod q for already reduced a and b.
pub fn fe_add_mod(a: &Fe, b: &Fe, q: &Fe) -> (r: Fe)
    requires
        modulus_ok(*q),
        fe_val(*a) < fe_val(*q),
        fe_val(*b) < fe_val(*q),
    ensures
        fe_val(r) == addq(fe_val(*a), fe_val(*b), fe_val(*q)),
        0 <= fe_val(r) < fe_val(*q),
{
    proof {
        lemma_fe_val_bound(*a);
        lemma_fe_val_bound(*b);
        lemma_modulus_bounds(*q);
    }
    let (s, c) = fe_add_limbs(a, b);
    proof {
        lemma_fe_val_bound(s);
        assert(c == 0);
    }
    if fe_lt(&s, q) {
        proof {
            lemma_small_mod(fe_val(s) as nat, fe_val(*q) as nat);
        }
        s
    } else {
        let (d, w) = fe_sub_limbs(&s, q);
        proof {
            lemma_fe_val_bound(d);
            assert(w == 0);
            lemma_fundamental_div_mod_converse(fe_val(s), fe_val(*q), 1, fe_val(d));
        }
        d
    }
}

/// Reduced subtraction: (a - b) mod q for already reduced a and b.
pub fn fe_sub_mod(a: &Fe, b: &Fe, q: &Fe) -> (r: Fe)
    requires
        modulus_ok(*q),
        fe_val(*a) < fe_val(*q),
        fe_val(*b) < fe_val(*q),
    ensures
        fe_val(r) == subq(fe_val(*a), fe_val(*b), fe_val(*q)),
        0 <= fe_val(r) < fe_val(*q),
{
    let ghost qi = fe_val(*q);
    proof {
        lemma_fe_val_bound(*a);
        lemma_fe_val_bound(*b);
        lemma_modulus_bounds(*q);
    }
    if !fe_lt(a, b) {
        let (d, w) = fe_sub_limbs(a, b);
        proof {
            lemma_fe_val_bound(d);
            assert(w == 0);
            lemma_mod_add_multiples_vanish(fe_val(d), qi);
            lemma_small_mod(fe_val(d) as nat, fe_val(*q) as nat);
        }
        d
    } else {
        let (s, c) = fe_add_limbs(a, q);
        proof {
            lemma_fe_val_bound(s);
            assert(c == 0);
        }
        let (d, w) = fe_sub_limbs(&s, b);
        proof {
            lemma_fe_val_bound(d);
            assert(w == 0);
            lemma_small_mod(fe_val(d) as nat, fe_val(*q) as nat);
        }
        d
    }
}

/// 64 modular doublings: (x * 2^64) mod q.
fn fe_shift64_mod(x: &Fe, q: &Fe) -> (r: Fe)
    requires
        modulus_ok(*q),
        fe_val(*x) < fe_val(*q),
    ensures
        fe_val(r) == mulq(fe_val(*x), 0x10000000000000000, fe_val(*q)),
        0 <= fe_val(r) < fe_val(*q),
{
    let ghost x0 = fe_val(*x);
    let ghost qv = fe_val(*q);
    let mut acc = *x;
    let mut j: usize = 0;
    proof {
        lemma_fe_val_bound(*x);
        assert(pow2(0) == 1) by {
            lemma2_to64();
        }
        lemma_small_mod(x0 as nat, qv as nat);
    }
    while j < 64
        invariant
            modulus_ok(*q),
            qv == fe_val(*q),
            0 <= x0 < qv,
            j <= 64,
            0 <= fe_val(acc) < qv,
            fe_val(acc) == (x0 * pow2(j as nat)) % qv,
        decreases 64 - j,
    {
        let next = fe_add_mod(&acc, &acc, q);
        proof {
            let p = pow2(j as nat);
            lemma_add_mod_noop(x0 * p, x0 * p, qv);
            assert(x0 * p + x0 * p == x0 * (2 * p)) by (nonlinear_arith);
            lemma_pow2_adds(1, j as nat);
            assert(pow2(1) == 2) by {
                lemma2_to64();
            }
        }
        acc = next;
        j = j + 1;
    }
    proof {
        assert(pow2(64) == 0x10000000000000000) by {
            lemma2_to64_rest();
        }
    }
    acc
}

/// (a * e) mod q for a reduced a and a one-limb factor e.
fn fe_mul_small(a: &Fe, e0: u64, q: &Fe) -> (r: Fe)
    requires
        modulus_ok(*q),
        fe_val(*a) < fe_val(*q),
    ensures
        fe_val(r) == mulq(fe_val(*a), e0 as int, fe_val(*q)),
        0 <= fe_val(r) < fe_val(*q),
{
    let ghost a0 = fe_val(*a);
    let ghost qv = fe_val(*q);
    let mut r = fe_zero();
    let mut c = *a;
    let mut e: u64 = e0;
    proof {
        lemma_fe_val_bound(*a);
        lemma_modulus_bounds(*q);
    }
    while e > 0
        invariant
            modulus_ok(*q),
            qv == fe_val(*q),
            0 <= fe_val(r) < qv,
            0 <= fe_val(c) < qv,
            (fe_val(r) + fe_val(c) * e) % qv == (a0 * e0) % qv,
        decreases e,
    {
        let ghost rv = fe_val(r);
        let ghost cv = fe_val(c);
        let ghost ev = e as int;
        if e % 2 == 1 {
            let r2 = fe_add_mod(&r, &c, q);
            proof {
                assert(cv * ev == cv + (cv + cv) * (ev / 2)) by (nonlinear_arith)
                    requires ev % 2 == 1;
                lemma_add_mod_noop(rv + cv, (cv + cv) * (ev / 2), qv);
                lemma_small_mod(fe_val(r2) as nat, qv as nat);
                lemma_add_mod_noop_right(fe_val(r2), (cv + cv) * (ev / 2), qv);
            }
            r = r2;
        } else {
            proof {
                assert(cv * ev == (cv + cv) * (ev / 2)) by (nonlinear_arith)
                    requires ev % 2 == 0 && ev >= 0;
            }
        }
        let ghost rv2 = fe_val(r);
        let c2 = fe_add_mod(&c, &c, q);
        proof {
            // replace the doubled factor by its reduced value under the mod
            lemma_mul_mod_noop_left(cv + cv, ev / 2, qv);
            lemma_add_mod_noop_right(rv2, fe_val(c2) * (ev / 2), qv);
            lemma_add_mod_noop_right(rv2, (cv + cv) * (ev / 2), qv);
        }
        c = c2;
        e = e / 2;
    }
    proof {
        lemma_small_mod(fe_val(r) as nat, qv as nat);
    }
    r
}

/// One Horner step under the modulus: from (a*p) mod q one gets
/// (a*(p*2^64 + l)) mod q by a shift and an addition.
proof fn step_mul_shift_add(a: int, p: int, l: int, q: int)
    requires
        0 < q,
    ensures
        addq(
            mulq(mulq(a, p, q), 0x10000000000000000, q),
            mulq(a, l, q),
            q,
        ) == mulq(a, p * 0x10000000000000000 + l, q),
{
    lemma_mul_mod_noop_left(a * p, 0x10000000000000000, q);
    lemma_add_mod_noop(a * p * 0x10000000000000000, a * l, q);
    assert(a * p * 0x10000000000000000 + a * l == a * (p * 0x10000000000000000 + l))
        by (nonlinear_arith);
}

/// Reduced multiplication: (a * b) mod q for already reduced a and b.
pub fn fe_mul_mod(a: &Fe, b: &Fe, q: &Fe) -> (r: Fe)
    requires
        modulus_ok(*q),
        fe_val(*a) < fe_val(*q),
        fe_val(*b) < fe_val(*q),
    ensures
        fe_val(r) == mulq(fe_val(*a), fe_val(*b), fe_val(*q)),
        0 <= fe_val(r) < fe_val(*q),
{
    let ghost a0 = fe_val(*a);
    let ghost qv = fe_val(*q);
    let mut acc = fe_mul_small(a, b.l3, q);
    acc = fe_shift64_mod(&acc, q);
    let m2 = fe_mul_small(a, b.l2, q);
    proof {
        step_mul_shift_add(a0, b.l3 as int, b.l2 as int, qv);
    }
    acc = fe_add_mod(&acc, &m2, q);
    let ghost p1 = b.l3 as int * 0x10000000000000000 + b.l2 as int;
    acc = fe_shift64_mod(&acc, q);
    let m1 = fe_mul_small(a, b.l1, q);
    proof {
        step_mul_shift_add(a0, p1, b.l1 as int, qv);
    }
    acc = fe_add_mod(&acc, &m1, q);
    let ghost p2 = p1 * 0x10000000000000000 + b.l1 as int;
    acc = fe_shift64_mod(&acc, q);
    let m0 = fe_mul_small(a, b.l0, q);
    proof {
        step_mul_shift_add(a0, p2, b.l0 as int, qv);
    }
    acc = fe_add_mod(&acc, &m0, q);
    proof {
        assert(p2 * 0x10000000000000000 + b.l0 as int == fe_val(*b));
    }
    acc
}

/// One Horner step of the reduction: from p mod q one gets
/// (p*2^64 + l) mod q by a shift and an addition of a reduced l.
proof fn reduce_step(p: int, l: int, q: int)
    requires
        0x10000000000000000 <= q,
        0 <= l < 0x10000000000000000,
    ensures
        addq(mulq(p % q, 0x10000000000000000, q), l, q)
            == (p * 0x10000000000000000 + l) % q,
{
    lemma_mul_mod_noop_left(p, 0x10000000000000000, q);
    lemma_small_mod(l as nat, q as nat);
    lemma_add_mod_noop(p * 0x10000000000000000, l, q);
}

/// Reduce an arbitrary 256-bit value modulo q.
pub fn fe_mod(a: &Fe, q: &Fe) -> (r: Fe)
    requires
        modulus_ok(*q),
    ensures
        fe_val(r) == fe_val(*a) % fe_val(*q),
        0 <= fe_val(r) < fe_val(*q),
{
    let ghost qv = fe_val(*q);
    let h2 = fe_from_u64(a.l2);
    let h1 = fe_from_u64(a.l1);
    let h0 = fe_from_u64(a.l0);
    proof {
        lemma_modulus_bounds(*q);
        lemma_small_mod(a.l3 as nat, qv as nat);
    }
    let mut acc = fe_from_u64(a.l3);
    acc = fe_shift64_mod(&acc, q);
    proof {
        reduce_step(a.l3 as int, a.l2 as int, qv);
    }
    acc = fe_add_mod(&acc, &h2, q);
    let ghost p1 = a.l3 as int * 0x10000000000000000 + a.l2 as int;
    acc = fe_shift64_mod(&acc, q);
    proof {
        reduce_step(p1, a.l1 as int, qv);
    }
    acc = fe_add_mod(&acc, &h1, q);
    let ghost p2 = p1 * 0x10000000000000000 + a.l1 as int;
    acc = fe_shift64_mod(&acc, q);
    proof {
        reduce_step(p2, a.l0 as int, qv);
    }
    acc = fe_add_mod(&acc, &h0, q);
    proof {
        assert(p2 * 0x10000000000000000 + a.l0 as int == fe_val(*a));
    }
    acc
}

/// (a ^ e) mod q for a reduced a and a one-limb exponent e.
fn fe_pow_small(a: &Fe, e0: u64, q: &Fe) -> (r: Fe)
    requires
        modulus_ok(*q),
        fe_val(*a) < fe_val(*q),
    ensures
        fe_val(r) == powq(fe_val(*a), e0 as nat, fe_val(*q)),
        0 <= fe_val(r) < fe_val(*q),
{
    let ghost a0 = fe_val(*a);
    let ghost qv = fe_val(*q);
    let mut r = fe_one();
    let mut c = *a;
    let mut e: u64 = e0;
    proof {
        lemma_fe_val_bound(*a);
        lemma_modulus_bounds(*q);
        lemma_pow0(a0);
        lemma_pow1(a0);
    }
    while e > 0
        invariant
            modulus_ok(*q),
            qv == fe_val(*q),
            0 <= fe_val(r) < qv,
            0 <= fe_val(c) < qv,
            (fe_val(r) * pow(fe_val(c), e as nat)) % qv == pow(a0, e0 as nat) % qv,
        decreases e,
    {
        let ghost rv = fe_val(r);
        let ghost cv = fe_val(c);
        let ghost ev = e as nat;
        proof {
            // pow(c, e) splits into the bottom bit and the square
            lemma_pow_adds(cv, 2 * (ev / 2), if ev % 2 == 1 { 1nat } else { 0nat });
            lemma_pow_multiplies(cv, 2, ev / 2);
            lemma_pow1(cv);
            lemma_pow0(cv);
            assert(pow(cv, 2) == cv * cv) by {
                lemma_pow_adds(cv, 1, 1);
                lemma_pow1(cv);
            }
        }
        if e % 2 == 1 {
            let r2 = fe_mul_mod(&r, &c, q);
            proof {
                assert(ev == 2 * (ev / 2) + 1);
                assert(pow(cv, ev) == pow(cv * cv, ev / 2) * cv);
                lemma_mul_mod_noop_general(rv, pow(cv, ev), qv);
                lemma_mul_mod_noop_general(rv * cv, pow(cv * cv, ev / 2), qv);
                assert(rv * (pow(cv * cv, ev / 2) * cv)
                    == (rv * cv) * pow(cv * cv, ev / 2)) by (nonlinear_arith);
                lemma_mul_mod_noop_general(fe_val(r2), pow(cv * cv, ev / 2), qv);
                lemma_small_mod(fe_val(r2) as nat, qv as nat);
            }
            r = r2;
        } else {
            proof {
                assert(ev == 2 * (ev / 2));
                assert(pow(cv, ev) == pow(cv * cv, ev / 2));
            }
        }
        let ghost rv2 = fe_val(r);
        let c2 = fe_mul_mod(&c, &c, q);
        proof {
            assert((rv2 * pow(cv * cv, ev / 2)) % qv == pow(a0, e0 as nat) % qv);
            lemma_pow_mod_noop(cv * cv, ev / 2, qv);
            lemma_mul_mod_noop_general(rv2, pow(cv * cv, ev / 2), qv);
            lemma_mul_mod_noop_general(rv2, pow(fe_val(c2), ev / 2), qv);
        }
        c = c2;
        e = e / 2;
    }
    proof {
        lemma_pow0(fe_val(c));
        lemma_small_mod(fe_val(r) as nat, qv as nat);
    }
    r
}

/// 64 modular squarings: (x ^ (2^64)) mod q.
fn fe_sq64(x: &Fe, q: &Fe) -> (r: Fe)
    requires
        modulus_ok(*q),
        fe_val(*x) < fe_val(*q),
    ensures
        fe_val(r) == pow(fe_val(*x), pow2(64)) % fe_val(*q),
        0 <= fe_val(r) < fe_val(*q),
{
    let ghost x0 = fe_val(*x);
    let ghost qv = fe_val(*q);
    let mut acc = *x;
    let mut j: usize = 0;
    proof {
        lemma_fe_val_bound(*x);
        assert(pow2(0) == 1) by {
            lemma2_to64();
        }
        lemma_pow1(x0);
        lemma_small_mod(x0 as nat, qv as nat);
    }
    while j < 64
        invariant
            modulus_ok(*q),
            qv == fe_val(*q),
            0 <= x0 < qv,
            j <= 64,
            0 <= fe_val(acc) < qv,
            fe_val(acc) == pow(x0, pow2(j as nat)) % qv,
        decreases 64 - j,
    {
        let ghost p = pow2(j as nat);
        let next = fe_mul_mod(&acc, &acc, q);
        proof {
            lemma_mul_mod_noop_general(pow(x0, p), pow(x0, p), qv);
            lemma_pow_adds(x0, p, p);
            lemma_pow2_adds(1, j as nat);
            assert(pow2(1) == 2) by {
                lemma2_to64();
            }
            assert(p + p == 2 * p);
        }
        acc = next;
        j = j + 1;
    }
    acc
}

/// One Horner step of the exponent: from a^p mod q one gets
/// a^(p*2^64 + l) mod q by 64 squarings and one multiplication.
proof fn step_pow_shift_add(a: int, p: nat, l: nat, q: int)
    requires
        0 < q,
    ensures
        mulq(
            pow(powq(a, p, q), pow2(64)) % q,
            powq(a, l, q),
            q,
        ) == powq(a, p * pow2(64) + l, q),
{
    lemma_pow_mod_noop(pow(a, p), pow2(64), q);
    lemma_pow_multiplies(a, p, pow2(64));
    lemma_mul_mod_noop_general(pow(a, p * pow2(64)), pow(a, l), q);
    lemma_pow_adds(a, p * pow2(64), l);
}

/// (a ^ e) mod q with a full 256-bit exponent.
pub fn fe_pow_mod(a: &Fe, e: &Fe, q: &Fe) -> (r: Fe)
    requires
        modulus_ok(*q),
        fe_val(*a) < fe_val(*q),
    ensures
        fe_val(r) == powq(fe_val(*a), fe_val(*e) as nat, fe_val(*q)),
        0 <= fe_val(r) < fe_val(*q),
{
    let ghost a0 = fe_val(*a);
    let ghost qv = fe_val(*q);
    proof {
        assert(pow2(64) == 0x10000000000000000) by {
            lemma2_to64_rest();
        }
    }
    let mut acc = fe_pow_small(a, e.l3, q);
    acc = fe_sq64(&acc, q);
    let m2 = fe_pow_small(a, e.l2, q);
    proof {
        step_pow_shift_add(a0, e.l3 as nat, e.l2 as nat, qv);
    }
    acc = fe_mul_mod(&acc, &m2, q);
    let ghost p1 = e.l3 as int * 0x10000000000000000 + e.l2 as int;
    acc = fe_sq64(&acc, q);
    let m1 = fe_pow_small(a, e.l1, q);
    proof {
        step_pow_shift_add(a0, p1 as nat, e.l1 as nat, qv);
    }
    acc = fe_mul_mod(&acc, &m1, q);
    let ghost p2 = p1 * 0x10000000000000000 + e.l1 as int;
    acc = fe_sq64(&acc, q);
    let m0 = fe_pow_small(a, e.l0, q);
    proof {
        step_pow_shift_add(a0, p2 as nat, e.l0 as nat, qv);
    }
    acc = fe_mul_mod(&acc, &m0, q);
    proof {
        assert(p2 * 0x10000000000000000 + e.l0 as int == fe_val(*e));
    }
    acc
}

/// Multiplicative inverse by Fermat exponentiation; the additive identity
/// has none and is rejected.
pub fn fe_inv(a: &Fe, q: &Fe) -> (r: Result<Fe, FieldError>)
    requires
        modulus_ok(*q),
        fe_val(*a) < fe_val(*q),
    ensures
        match r {
            Ok(v) => fe_val(*a) != 0 && fe_val(v) == invq(fe_val(*a), fe_val(*q))
                && 0 <= fe_val(v) < fe_val(*q),
            Err(e) => e == FieldError::DivisionByZero && fe_val(*a) == 0,
        },
{
    if a.l0 == 0 && a.l1 == 0 && a.l2 == 0 && a.l3 == 0 {
        return Err(FieldError::DivisionByZero);
    }
    let two = Fe { l0: 2, l1: 0, l2: 0, l3: 0 };
    proof {
        lemma_modulus_bounds(*q);
        lemma_fe_val_bound(*a);
    }
    let (e, w) = fe_sub_limbs(q, &two);
    proof {
        lemma_fe_val_bound(e);
        assert(w == 0);
    }
    Ok(fe_pow_mod(a, &e, q))
}

/// The 254-bit scalar-field prime this deployment runs on.
pub open spec fn default_modulus_val() -> int {
    (((0x30644e72e131a029 as int) * 0x10000000000000000 + 0xb85045b68181585d)
        * 0x10000000000000000 + 0x2833e84879b97091) * 0x10000000000000000
        + 0x43e1f593f0000001
}

pub fn default_modulus() -> (r: Fe)
    ensures
        fe_val(r) == default_modulus_val(),
        modulus_ok(r),
{
    Fe {
        l0: 0x43e1f593f0000001,
        l1: 0x2833e84879b97091,
        l2: 0xb85045b68181585d,
        l3: 0x30644e72e131a029,
    }
}

} // verus!

//! The domain hash: a sponge built from a fixed cubing permutation over the
//! field. Account fingerprints absorb one element, nullifier fingerprints
//! absorb a fixed zero slot and the secret, so the two domains are separated
//! by the structure of the call, not by convention.
use vstd::prelude::*;
use crate::field::{
    Fe, fe_val, modulus_ok, addq, mulq, fe_add_mod, fe_mul_mod, fe_mod, fe_zero, fe_from_u64,
    lemma_fe_val_injective,
};

verus! {

/// Number of permutation rounds.
pub const SPONGE_ROUNDS: u64 = 31;

/// Fixed round constant of round i.
pub open spec fn rc_spec(i: int) -> int {
    i * i + i + 1
}

/// One round: add the round constant, then cube, all mod q.
pub open spec fn round_spec(x: int, i: int, q: int) -> int
    recommends 0 < q,
{
    mulq(mulq(addq(x, rc_spec(i), q), addq(x, rc_spec(i), q), q), addq(x, rc_spec(i), q), q)
}

/// The first n rounds of the permutation applied to x.
pub open spec fn perm_iter(x: int, n: int, q: int) -> int
    recommends 0 < q,
    decreases n,
{
    if n <= 0 {
        x
    } else {
        round_spec(perm_iter(x, n - 1, q), n - 1, q)
    }
}

/// The full fixed-width permutation.
pub open spec fn perm_spec(x: int, q: int) -> int
    recommends 0 < q,
{
    perm_iter(x, SPONGE_ROUNDS as int, q)
}

/// Sponge absorbing one element, starting from the zero state.
pub open spec fn sponge1_spec(x: int, q: int) -> int
    recommends 0 < q,
{
    perm_spec(x % q, q)
}

/// Sponge absorbing two elements in order.
pub open spec fn sponge2_spec(a: int, b: int, q: int) -> int
    recommends 0 < q,
{
    perm_spec(addq(perm_spec(a % q, q), b, q), q)
}

/// The account fingerprint: one-element sponge of the encoded account,
/// everything reduced by the supplied modulus.
pub open spec fn account_fp_spec(enc: int, q: int) -> int
    recommends 0 < q,
{
    sponge1_spec(enc % q, q)
}

/// The nullifier fingerprint: two-element sponge with a fixed zero first
/// slot, the sponge-with-capacity pattern.
pub open spec fn nullifier_fp_spec(secret: int, q: int) -> int
    recommends 0 < q,
{
    sponge2_spec(0, secret % q, q)
}

fn round(x: &Fe, i: u64, q: &Fe) -> (r: Fe)
    requires
        modulus_ok(*q),
        fe_val(*x) < fe_val(*q),
        i < SPONGE_ROUNDS,
    ensures
        fe_val(r) == round_spec(fe_val(*x), i as int, fe_val(*q)),
        0 <= fe_val(r) < fe_val(*q),
{
    proof {
        assert(i as int * i as int <= 900) by (nonlinear_arith)
            requires i <= 30;
    }
    let c: u64 = i * i + i + 1;
    let cf = fe_from_u64(c);
    proof {
        crate::field::lemma_modulus_bounds(*q);
    }
    let t = fe_add_mod(x, &cf, q);
    let t2 = fe_mul_mod(&t, &t, q);
    fe_mul_mod(&t2, &t, q)
}

/// The fixed permutation, as executable code.
fn permute(x: &Fe, q: &Fe) -> (r: Fe)
    requires
        modulus_ok(*q),
        fe_val(*x) < fe_val(*q),
    ensures
        fe_val(r) == perm_spec(fe_val(*x), fe_val(*q)),
        0 <= fe_val(r) < fe_val(*q),
{
    let ghost x0 = fe_val(*x);
    let ghost qv = fe_val(*q);
    let mut y = *x;
    let mut i: u64 = 0;
    while i < SPONGE_ROUNDS
        invariant
            modulus_ok(*q),
            qv == fe_val(*q),
            i <= SPONGE_ROUNDS,
            0 <= fe_val(y) < qv,
            fe_val(y) == perm_iter(x0, i as int, qv),
        decreases SPONGE_ROUNDS - i,
    {
        y = round(&y, i, q);
        i = i + 1;
    }
    y
}

/// Sponge hash of one field element.
pub fn hash_one(x: &Fe, q: &Fe) -> (r: Fe)
    requires
        modulus_ok(*q),
        fe_val(*x) < fe_val(*q),
    ensures
        fe_val(r) == sponge1_spec(fe_val(*x), fe_val(*q)),
        0 <= fe_val(r) < fe_val(*q),
{
    proof {
        vstd::arithmetic::div_mod::lemma_small_mod(fe_val(*x) as nat, fe_val(*q) as nat);
    }
    permute(x, q)
}

/// Sponge hash of two field elements, in order.
pub fn hash_two(a: &Fe, b: &Fe, q: &Fe) -> (r: Fe)
    requires
        modulus_ok(*q),
        fe_val(*a) < fe_val(*q),
        fe_val(*b) < fe_val(*q),
    ensures
        fe_val(r) == sponge2_spec(fe_val(*a), fe_val(*b), fe_val(*q)),
        0 <= fe_val(r) < fe_val(*q),
{
    proof {
        vstd::arithmetic::div_mod::lemma_small_mod(fe_val(*a) as nat, fe_val(*q) as nat);
    }
    let s = permute(a, q);
    let s2 = fe_add_mod(&s, b, q);
    permute(&s2, q)
}

/// The account fingerprint of an (already encoded) account identifier;
/// the encoding is reduced by the verifier's modulus first.
pub fn account_fingerprint(enc: &Fe, q: &Fe) -> (r: Fe)
    requires
        modulus_ok(*q),
    ensures
        fe_val(r) == account_fp_spec(fe_val(*enc), fe_val(*q)),
        0 <= fe_val(r) < fe_val(*q),
{
    let e = fe_mod(enc, q);
    proof {
        vstd::arithmetic::div_mod::lemma_mod_twice(fe_val(*enc), fe_val(*q));
    }
    hash_one(&e, q)
}

/// The nullifier fingerprint of a secret; the secret is reduced by the
/// verifier's modulus first.
pub fn nullifier_fingerprint(secret: &Fe, q: &Fe) -> (r: Fe)
    requires
        modulus_ok(*q),
    ensures
        fe_val(r) == nullifier_fp_spec(fe_val(*secret), fe_val(*q)),
        0 <= fe_val(r) < fe_val(*q),
{
    let s = fe_mod(secret, q);
    let z = fe_zero();
    proof {
        vstd::arithmetic::div_mod::lemma_mod_twice(fe_val(*secret), fe_val(*q));
        crate::field::lemma_modulus_bounds(*q);
        vstd::arithmetic::div_mod::lemma_small_mod(0nat, fe_val(*q) as nat);
    }
    hash_two(&z, &s, q)
}

/// Hashing is deterministic: two results of the one-element hash on the
/// same input are the same element.
pub proof fn lemma_hash_one_deterministic(r1: Fe, r2: Fe, x: int, q: int)
    requires
        fe_val(r1) == sponge1_spec(x, q),
        fe_val(r2) == sponge1_spec(x, q),
    ensures
        r1 == r2,
{
    lemma_fe_val_injective(r1, r2);
}

/// Hashing is deterministic: two account fingerprints of the same encoded
/// identifier under the same modulus are the same element.
pub proof fn lemma_account_fingerprint_stable(r1: Fe, r2: Fe, enc: int, q: int)
    requires
        fe_val(r1) == account_fp_spec(enc, q),
        fe_val(r2) == account_fp_spec(enc, q),
    ensures
        r1 == r2,
{
    lemma_fe_val_injective(r1, r2);
}

} // verus!

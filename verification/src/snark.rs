//! The PLONK-style proof check: Fiat-Shamir challenges, vanishing-polynomial
//! and Lagrange evaluations at the challenge point, reconstruction of the
//! expected quotient value, and the scalars of the two batched opening
//! checks. The curve points are carried through as data; the final pairing
//! product is computed by the hosting environment, which receives the
//! prepared job and reports a single boolean.
use vstd::prelude::*;
use vstd::arithmetic::power2::{pow2, lemma_pow2_adds, lemma2_to64, lemma_pow2_strictly_increases};
use vstd::arithmetic::power::pow;
use crate::field::{
    Fe, FieldError, fe_val, modulus_ok, addq, subq, mulq, powq, invq,
    fe_add_mod, fe_sub_mod, fe_mul_mod, fe_mod, fe_inv, fe_is_zero, fe_from_u64, fe_zero,
    lemma_modulus_bounds,
};
use crate::hash::{sponge2_spec, hash_two};

verus! {

/// An affine point of the proof-system's first curve group, carried as data.
#[derive(Clone, Copy, PartialEq, Eq, Structural, Debug)]
pub struct G1Point {
    pub x: Fe,
    pub y: Fe,
}

/// An affine point of the second curve group, carried as data.
#[derive(Clone, Copy, PartialEq, Eq, Structural, Debug)]
pub struct G2Point {
    pub x0: Fe,
    pub x1: Fe,
    pub y0: Fe,
    pub y1: Fe,
}

/// The verifying key: field modulus, evaluation domain (2^k roots of unity
/// generated by omega), permutation constants and the circuit commitments.
pub struct VerifierParams {
    pub q: Fe,
    pub k: usize,
    pub omega: Fe,
    pub k1: Fe,
    pub k2: Fe,
    pub qm: G1Point,
    pub ql: G1Point,
    pub qr: G1Point,
    pub qo: G1Point,
    pub qc: G1Point,
    pub s1: G1Point,
    pub s2: G1Point,
    pub s3: G1Point,
    pub x2: G2Point,
}

impl VerifierParams {
    pub open spec fn well_formed(self) -> bool {
        &&& modulus_ok(self.q)
        &&& 1 <= self.k <= 32
        &&& 0 <= fe_val(self.omega) < fe_val(self.q)
    }
}

/// The fixed-shape proof transcript.
#[derive(Clone, Copy, PartialEq, Eq, Structural, Debug)]
pub struct ProofMaterial {
    pub a: G1Point,
    pub b: G1Point,
    pub c: G1Point,
    pub z: G1Point,
    pub t1: G1Point,
    pub t2: G1Point,
    pub t3: G1Point,
    pub eval_a: Fe,
    pub eval_b: Fe,
    pub eval_c: Fe,
    pub eval_s1: Fe,
    pub eval_s2: Fe,
    pub eval_zw: Fe,
    pub eval_r: Fe,
    pub wxi: G1Point,
    pub wxi_w: G1Point,
}

/// The public inputs of one withdrawal, already in field form.
#[derive(Clone, Copy, PartialEq, Eq, Structural, Debug)]
pub struct PublicSignals {
    pub root: Fe,
    pub nullifier_fp: Fe,
    pub recipient_fp: Fe,
    pub relayer_fp: Fe,
    pub fee: Fe,
    pub refund: Fe,
    pub allowlist_root: Fe,
}

/// Everything the hosting environment needs for the two batched pairing
/// checks: the proof's points, the verifying key's points, and the scalars
/// computed here.
pub struct PairingJob {
    pub proof: ProofMaterial,
    pub x2: G2Point,
    pub beta: Fe,
    pub gamma: Fe,
    pub alpha: Fe,
    pub xi: Fe,
    pub v: Fe,
    pub u: Fe,
    pub zh: Fe,
    pub pi: Fe,
    pub r0: Fe,
    pub t_expected: Fe,
    pub z_scalar: Fe,
    pub s3_scalar: Fe,
    pub t2_scalar: Fe,
    pub t3_scalar: Fe,
    pub e_scalar: Fe,
}

/// Reduction of an arbitrary element into the field.
pub open spec fn red(x: Fe, q: int) -> int
    recommends 0 < q,
{
    fe_val(x) % q
}

/// The Fiat-Shamir chain: the state after absorbing one more element.
pub open spec fn ab(t: int, e: int, q: int) -> int
    recommends 0 < q,
{
    sponge2_spec(t, e, q)
}

/// First challenge: the transcript absorbs every public signal and the wire
/// commitments, in this fixed order.
pub open spec fn beta_spec(sg: PublicSignals, pf: ProofMaterial, q: int) -> int {
    ab(ab(ab(ab(ab(ab(ab(ab(ab(ab(ab(ab(ab(
        0,
        red(sg.root, q), q), red(sg.nullifier_fp, q), q), red(sg.recipient_fp, q), q),
        red(sg.relayer_fp, q), q), red(sg.fee, q), q), red(sg.refund, q), q),
        red(sg.allowlist_root, q), q), red(pf.a.x, q), q), red(pf.a.y, q), q),
        red(pf.b.x, q), q), red(pf.b.y, q), q), red(pf.c.x, q), q), red(pf.c.y, q), q)
}

pub open spec fn gamma_spec(sg: PublicSignals, pf: ProofMaterial, q: int) -> int {
    ab(beta_spec(sg, pf, q), 1, q)
}

pub open spec fn alpha_spec(sg: PublicSignals, pf: ProofMaterial, q: int) -> int {
    ab(ab(gamma_spec(sg, pf, q), red(pf.z.x, q), q), red(pf.z.y, q), q)
}

pub open spec fn xi_spec(sg: PublicSignals, pf: ProofMaterial, q: int) -> int {
    ab(ab(ab(alpha_spec(sg, pf, q), red(pf.t1.x, q), q), red(pf.t2.x, q), q),
        red(pf.t3.x, q), q)
}

pub open spec fn v_spec(sg: PublicSignals, pf: ProofMaterial, q: int) -> int {
    ab(ab(ab(ab(ab(ab(ab(xi_spec(sg, pf, q),
        red(pf.eval_a, q), q), red(pf.eval_b, q), q), red(pf.eval_c, q), q),
        red(pf.eval_s1, q), q), red(pf.eval_s2, q), q), red(pf.eval_zw, q), q),
        red(pf.eval_r, q), q)
}

pub open spec fn u_spec(sg: PublicSignals, pf: ProofMaterial, q: int) -> int {
    ab(ab(v_spec(sg, pf, q), red(pf.wxi.x, q), q), red(pf.wxi_w.x, q), q)
}

/// xi^n - 1: the vanishing polynomial of the 2^k domain at xi.
pub open spec fn zh_spec(ps: VerifierParams, sg: PublicSignals, pf: ProofMaterial) -> int {
    let q = fe_val(ps.q);
    subq(powq(xi_spec(sg, pf, q), pow2(ps.k as nat), q), 1, q)
}

/// The i-th Lagrange base at xi: zh * omega^i / (n * (xi - omega^i)).
pub open spec fn lag_spec(ps: VerifierParams, sg: PublicSignals, pf: ProofMaterial, i: nat) -> int {
    let q = fe_val(ps.q);
    let w = powq(fe_val(ps.omega), i, q);
    mulq(
        mulq(zh_spec(ps, sg, pf), w, q),
        invq(lag_den_spec(ps, sg, pf, i), q),
        q,
    )
}

/// The denominator n * (xi - omega^i) of the i-th Lagrange base.
pub open spec fn lag_den_spec(
    ps: VerifierParams, sg: PublicSignals, pf: ProofMaterial, i: nat) -> int {
    let q = fe_val(ps.q);
    let w = powq(fe_val(ps.omega), i, q);
    mulq(pow2(ps.k as nat) as int % q, subq(xi_spec(sg, pf, q), w, q), q)
}

/// Every division the evaluation performs has a nonzero divisor.
pub open spec fn divisors_ok(ps: VerifierParams, sg: PublicSignals, pf: ProofMaterial) -> bool {
    &&& zh_spec(ps, sg, pf) != 0
    &&& lag_den_spec(ps, sg, pf, 0) != 0
    &&& lag_den_spec(ps, sg, pf, 1) != 0
    &&& lag_den_spec(ps, sg, pf, 2) != 0
    &&& lag_den_spec(ps, sg, pf, 3) != 0
    &&& lag_den_spec(ps, sg, pf, 4) != 0
    &&& lag_den_spec(ps, sg, pf, 5) != 0
    &&& lag_den_spec(ps, sg, pf, 6) != 0
}

/// The public-input polynomial evaluated at xi: the signals paired with the
/// first seven Lagrange bases, in order.
pub open spec fn pi_spec(ps: VerifierParams, sg: PublicSignals, pf: ProofMaterial) -> int {
    pi_partial(ps, sg, pf, 7)
}

/// The permutation-argument product (ea + beta*s1 + gamma)(eb + beta*s2 +
/// gamma)(ec + gamma) * alpha * ezw that the linearization subtracts.
pub open spec fn perm_term_spec(ps: VerifierParams, sg: PublicSignals, pf: ProofMaterial) -> int {
    let q = fe_val(ps.q);
    let beta = beta_spec(sg, pf, q);
    let gamma = gamma_spec(sg, pf, q);
    mulq(mulq(mulq(mulq(
        alpha_spec(sg, pf, q),
        addq(addq(red(pf.eval_a, q), mulq(beta, red(pf.eval_s1, q), q), q), gamma, q), q),
        addq(addq(red(pf.eval_b, q), mulq(beta, red(pf.eval_s2, q), q), q), gamma, q), q),
        addq(red(pf.eval_c, q), gamma, q), q),
        red(pf.eval_zw, q), q)
}

/// The constant part of the linearization identity at xi.
pub open spec fn r0_spec(ps: VerifierParams, sg: PublicSignals, pf: ProofMaterial) -> int {
    let q = fe_val(ps.q);
    subq(
        subq(
            addq(red(pf.eval_r, q), pi_spec(ps, sg, pf), q),
            mulq(lag_spec(ps, sg, pf, 0),
                mulq(alpha_spec(sg, pf, q), alpha_spec(sg, pf, q), q), q),
            q,
        ),
        perm_term_spec(ps, sg, pf),
        q,
    )
}

/// The expected quotient evaluation: r0 / zh.
pub open spec fn t_expected_spec(ps: VerifierParams, sg: PublicSignals, pf: ProofMaterial) -> int {
    let q = fe_val(ps.q);
    mulq(r0_spec(ps, sg, pf), invq(zh_spec(ps, sg, pf), q), q)
}

/// The scalar applied to the grand-product commitment z in the batched check.
pub open spec fn z_scalar_spec(ps: VerifierParams, sg: PublicSignals, pf: ProofMaterial) -> int {
    let q = fe_val(ps.q);
    let beta = beta_spec(sg, pf, q);
    let gamma = gamma_spec(sg, pf, q);
    let xi = xi_spec(sg, pf, q);
    addq(
        addq(
            mulq(mulq(mulq(
                alpha_spec(sg, pf, q),
                addq(addq(red(pf.eval_a, q), mulq(beta, xi, q), q), gamma, q), q),
                addq(addq(red(pf.eval_b, q),
                    mulq(beta, mulq(red(ps.k1, q), xi, q), q), q), gamma, q), q),
                addq(addq(red(pf.eval_c, q),
                    mulq(beta, mulq(red(ps.k2, q), xi, q), q), q), gamma, q), q),
            mulq(lag_spec(ps, sg, pf, 0),
                mulq(alpha_spec(sg, pf, q), alpha_spec(sg, pf, q), q), q),
            q,
        ),
        u_spec(sg, pf, q),
        q,
    )
}

/// The scalar applied to the s3 permutation commitment in the batched check.
pub open spec fn s3_scalar_spec(ps: VerifierParams, sg: PublicSignals, pf: ProofMaterial) -> int {
    let q = fe_val(ps.q);
    let beta = beta_spec(sg, pf, q);
    let gamma = gamma_spec(sg, pf, q);
    mulq(mulq(mulq(mulq(
        alpha_spec(sg, pf, q), beta, q),
        red(pf.eval_zw, q), q),
        addq(addq(red(pf.eval_a, q), mulq(beta, red(pf.eval_s1, q), q), q), gamma, q), q),
        addq(addq(red(pf.eval_b, q), mulq(beta, red(pf.eval_s2, q), q), q), gamma, q), q)
}

/// xi^n, the scalar of the middle quotient commitment.
pub open spec fn t2_scalar_spec(ps: VerifierParams, sg: PublicSignals, pf: ProofMaterial) -> int {
    let q = fe_val(ps.q);
    powq(xi_spec(sg, pf, q), pow2(ps.k as nat), q)
}

/// xi^(2n), the scalar of the top quotient commitment.
pub open spec fn t3_scalar_spec(ps: VerifierParams, sg: PublicSignals, pf: ProofMaterial) -> int {
    let q = fe_val(ps.q);
    mulq(t2_scalar_spec(ps, sg, pf), t2_scalar_spec(ps, sg, pf), q)
}

/// The group-one scalar batching the claimed evaluations: t + v*r + v^2*a +
/// v^3*b + v^4*c + v^5*s1 + v^6*s2 + u*zw.
pub open spec fn e_scalar_spec(ps: VerifierParams, sg: PublicSignals, pf: ProofMaterial) -> int {
    let q = fe_val(ps.q);
    let v = v_spec(sg, pf, q);
    let v2 = mulq(v, v, q);
    let v3 = mulq(v2, v, q);
    let v4 = mulq(v3, v, q);
    let v5 = mulq(v4, v, q);
    let v6 = mulq(v5, v, q);
    addq(addq(addq(addq(addq(addq(addq(
        t_expected_spec(ps, sg, pf),
        mulq(v, red(pf.eval_r, q), q), q),
        mulq(v2, red(pf.eval_a, q), q), q),
        mulq(v3, red(pf.eval_b, q), q), q),
        mulq(v4, red(pf.eval_c, q), q), q),
        mulq(v5, red(pf.eval_s1, q), q), q),
        mulq(v6, red(pf.eval_s2, q), q), q),
        mulq(u_spec(sg, pf, q), red(pf.eval_zw, q), q), q)
}

/// Absorb one element into the transcript.
fn absorb(t: &Fe, e: &Fe, q: &Fe) -> (r: Fe)
    requires
        modulus_ok(*q),
        fe_val(*t) < fe_val(*q),
        0 <= fe_val(*t),
    ensures
        fe_val(r) == ab(fe_val(*t), red(*e, fe_val(*q)), fe_val(*q)),
        0 <= fe_val(r) < fe_val(*q),
{
    let er = fe_mod(e, q);
    proof {
        vstd::arithmetic::div_mod::lemma_mod_twice(fe_val(*e), fe_val(*q));
    }
    hash_two(t, &er, q)
}

/// x^(2^k) mod q by k squarings.
fn pow_pow2(x: &Fe, k: usize, q: &Fe) -> (r: Fe)
    requires
        modulus_ok(*q),
        0 <= fe_val(*x) < fe_val(*q),
        k <= 64,
    ensures
        fe_val(r) == powq(fe_val(*x), pow2(k as nat), fe_val(*q)),
        0 <= fe_val(r) < fe_val(*q),
{
    let ghost x0 = fe_val(*x);
    let ghost qv = fe_val(*q);
    let mut acc = *x;
    let mut j: usize = 0;
    proof {
        assert(pow2(0) == 1) by {
            lemma2_to64();
        }
        vstd::arithmetic::power::lemma_pow1(x0);
        vstd::arithmetic::div_mod::lemma_small_mod(x0 as nat, qv as nat);
    }
    while j < k
        invariant
            modulus_ok(*q),
            qv == fe_val(*q),
            0 <= x0 < qv,
            j <= k,
            0 <= fe_val(acc) < qv,
            fe_val(acc) == powq(x0, pow2(j as nat), qv),
        decreases k - j,
    {
        let ghost p = pow2(j as nat);
        let next = fe_mul_mod(&acc, &acc, q);
        proof {
            vstd::arithmetic::div_mod::lemma_mul_mod_noop_general(pow(x0, p), pow(x0, p), qv);
            vstd::arithmetic::power::lemma_pow_adds(x0, p, p);
            lemma_pow2_adds(1, j as nat);
            assert(pow2(1) == 2) by {
                lemma2_to64();
            }
            assert(p + p == 2 * p);
        }
        acc = next;
        j = j + 1;
    }
    acc
}

/// The domain size 2^k as a field element.
fn domain_size_fe(k: usize, q: &Fe) -> (r: Fe)
    requires
        modulus_ok(*q),
        k <= 32,
    ensures
        fe_val(r) == pow2(k as nat) as int % fe_val(*q),
        0 <= fe_val(r) < fe_val(*q),
{
    let mut c: u64 = 1;
    let mut i: usize = 0;
    proof {
        assert(pow2(0) == 1) by {
            lemma2_to64();
        }
    }
    while i < k
        invariant
            i <= k <= 32,
            c == pow2(i as nat),
        decreases k - i,
    {
        proof {
            lemma2_to64();
            if (i as nat) < 32 {
                lemma_pow2_strictly_increases(i as nat, 32);
            }
            lemma_pow2_adds(1, i as nat);
        }
        c = c * 2;
        i = i + 1;
    }
    let f = fe_from_u64(c);
    proof {
        lemma_modulus_bounds(*q);
        vstd::arithmetic::div_mod::lemma_small_mod(c as nat, fe_val(*q) as nat);
    }
    f
}

/// Run the evaluation part of the proof check: derive the challenges from
/// the transcript, evaluate the vanishing polynomial, the Lagrange bases and
/// the public-input polynomial at xi, reconstruct the expected quotient
/// value, and assemble the scalars of the two batched opening checks. Fails
/// with DivisionByZero exactly when some divisor vanishes; the pairing
/// itself is carried out by the caller's environment on the returned job.
/// Derive the six Fiat-Shamir challenges in the fixed transcript order.
fn derive_challenges(ps: &VerifierParams, sg: &PublicSignals, pf: &ProofMaterial)
    -> (r: (Fe, Fe, Fe, Fe, Fe, Fe))
    requires
        ps.well_formed(),
    ensures
        fe_val(r.0) == beta_spec(*sg, *pf, fe_val(ps.q)),
        fe_val(r.1) == gamma_spec(*sg, *pf, fe_val(ps.q)),
        fe_val(r.2) == alpha_spec(*sg, *pf, fe_val(ps.q)),
        fe_val(r.3) == xi_spec(*sg, *pf, fe_val(ps.q)),
        fe_val(r.4) == v_spec(*sg, *pf, fe_val(ps.q)),
        fe_val(r.5) == u_spec(*sg, *pf, fe_val(ps.q)),
        0 <= fe_val(r.0) < fe_val(ps.q),
        0 <= fe_val(r.1) < fe_val(ps.q),
        0 <= fe_val(r.2) < fe_val(ps.q),
        0 <= fe_val(r.3) < fe_val(ps.q),
        0 <= fe_val(r.4) < fe_val(ps.q),
        0 <= fe_val(r.5) < fe_val(ps.q),
{
    let q = &ps.q;
    let ghost qv = fe_val(ps.q);
    proof {
        lemma_modulus_bounds(*q);
        vstd::arithmetic::div_mod::lemma_small_mod(0nat, qv as nat);
        vstd::arithmetic::div_mod::lemma_small_mod(1nat, qv as nat);
    }
    let z0 = fe_zero();
    let one = crate::field::fe_one();
    let mut t = absorb(&z0, &sg.root, q);
    t = absorb(&t, &sg.nullifier_fp, q);
    t = absorb(&t, &sg.recipient_fp, q);
    t = absorb(&t, &sg.relayer_fp, q);
    t = absorb(&t, &sg.fee, q);
    t = absorb(&t, &sg.refund, q);
    t = absorb(&t, &sg.allowlist_root, q);
    t = absorb(&t, &pf.a.x, q);
    t = absorb(&t, &pf.a.y, q);
    t = absorb(&t, &pf.b.x, q);
    t = absorb(&t, &pf.b.y, q);
    t = absorb(&t, &pf.c.x, q);
    let beta = absorb(&t, &pf.c.y, q);
    let gamma = absorb(&beta, &one, q);
    let mut t2 = absorb(&gamma, &pf.z.x, q);
    let alpha = absorb(&t2, &pf.z.y, q);
    t2 = absorb(&alpha, &pf.t1.x, q);
    t2 = absorb(&t2, &pf.t2.x, q);
    let xi = absorb(&t2, &pf.t3.x, q);
    t2 = absorb(&xi, &pf.eval_a, q);
    t2 = absorb(&t2, &pf.eval_b, q);
    t2 = absorb(&t2, &pf.eval_c, q);
    t2 = absorb(&t2, &pf.eval_s1, q);
    t2 = absorb(&t2, &pf.eval_s2, q);
    t2 = absorb(&t2, &pf.eval_zw, q);
    let v = absorb(&t2, &pf.eval_r, q);
    t2 = absorb(&v, &pf.wxi.x, q);
    let u = absorb(&t2, &pf.wxi_w.x, q);
    (beta, gamma, alpha, xi, v, u)
}

/// Evaluate the vanishing polynomial, the first seven Lagrange bases and
/// the public-input polynomial at xi. Fails with DivisionByZero exactly
/// when some divisor vanishes.
#[verifier::loop_isolation(false)]
#[verifier::rlimit(60)]
fn eval_domain(ps: &VerifierParams, sg: &PublicSignals, pf: &ProofMaterial, xi: &Fe)
    -> (r: Result<(Fe, Fe, Fe), FieldError>)
    requires
        ps.well_formed(),
        fe_val(*xi) == xi_spec(*sg, *pf, fe_val(ps.q)),
        0 <= fe_val(*xi) < fe_val(ps.q),
    ensures
        match r {
            Ok(out) => {
                &&& divisors_ok(*ps, *sg, *pf)
                &&& fe_val(out.0) == zh_spec(*ps, *sg, *pf)
                &&& fe_val(out.1) == pi_spec(*ps, *sg, *pf)
                &&& fe_val(out.2) == lag_spec(*ps, *sg, *pf, 0)
                &&& 0 <= fe_val(out.0) < fe_val(ps.q)
                &&& 0 <= fe_val(out.1) < fe_val(ps.q)
                &&& 0 <= fe_val(out.2) < fe_val(ps.q)
            },
            Err(e) => e == FieldError::DivisionByZero && !divisors_ok(*ps, *sg, *pf),
        },
{
    let q = &ps.q;
    let ghost qv = fe_val(ps.q);
    proof {
        lemma_modulus_bounds(*q);
    }
    let one = crate::field::fe_one();
    proof {
        vstd::arithmetic::div_mod::lemma_small_mod(1nat, qv as nat);
    }
    let xin = pow_pow2(xi, ps.k, q);
    let zh = fe_sub_mod(&xin, &one, q);
    let n_fe = domain_size_fe(ps.k, q);
    if fe_is_zero(&zh) {
        return Err(FieldError::DivisionByZero);
    }
    let s_root = fe_mod(&sg.root, q);
    let s_nf = fe_mod(&sg.nullifier_fp, q);
    let s_rc = fe_mod(&sg.recipient_fp, q);
    let s_rl = fe_mod(&sg.relayer_fp, q);
    let s_fee = fe_mod(&sg.fee, q);
    let s_ref = fe_mod(&sg.refund, q);
    let s_al = fe_mod(&sg.allowlist_root, q);
    let sigs: [Fe; 7] = [s_root, s_nf, s_rc, s_rl, s_fee, s_ref, s_al];
    let mut w = crate::field::fe_one();
    proof {
        vstd::arithmetic::power::lemma_pow0(fe_val(ps.omega));
    }
    let mut lags: Vec<Fe> = Vec::new();
    let mut pi = fe_zero();
    let mut i: usize = 0;
    while i < 7
        invariant
            0 <= fe_val(w) < qv,
            fe_val(w) == powq(fe_val(ps.omega), i as nat, qv),
            0 <= fe_val(pi) < qv,
            i <= 7,
            lags@.len() == i,
            forall|j: nat| j < i ==> #[trigger] lag_den_spec(*ps, *sg, *pf, j) != 0,
            forall|j: int| 0 <= j < i
                ==> fe_val(#[trigger] lags@[j]) == lag_spec(*ps, *sg, *pf, j as nat),
            forall|j: int| 0 <= j < i ==> 0 <= fe_val(#[trigger] lags@[j]) < qv,
            fe_val(pi) == pi_partial(*ps, *sg, *pf, i as nat),
        decreases 7 - i,
    {
        let d = fe_mul_mod(&n_fe, &fe_sub_mod(xi, &w, q), q);
        let dinv = match fe_inv(&d, q) {
            Ok(x) => x,
            Err(_) => {
                return Err(FieldError::DivisionByZero);
            },
        };
        let li = fe_mul_mod(&fe_mul_mod(&zh, &w, q), &dinv, q);
        lags.push(li);
        let term = fe_mul_mod(&sigs[i], &li, q);
        proof {
            reveal_with_fuel(pi_partial, 2);
            assert(fe_val(sigs@[i as int]) == red(sig_at(*sg, i as int), qv));
        }
        pi = fe_add_mod(&pi, &term, q);
        let w2 = fe_mul_mod(&w, &ps.omega, q);
        proof {
            let om = fe_val(ps.omega);
            vstd::arithmetic::power::lemma_pow_adds(om, i as nat, 1);
            vstd::arithmetic::power::lemma_pow1(om);
            vstd::arithmetic::div_mod::lemma_mul_mod_noop_general(
                pow(om, i as nat), om, qv);
        }
        w = w2;
        i = i + 1;
    }
    proof {
        assert(fe_val(lags@[0]) == lag_spec(*ps, *sg, *pf, 0));
    }
    Ok((zh, pi, lags[0]))
}

/// Run the evaluation part of the proof check: derive the challenges from
/// the transcript, evaluate the vanishing polynomial, the Lagrange bases and
/// the public-input polynomial at xi, reconstruct the expected quotient
/// value, and assemble the scalars of the two batched opening checks. Fails
/// with DivisionByZero exactly when some divisor vanishes; the pairing
/// itself is carried out by the caller's environment on the returned job.
#[verifier::rlimit(60)]
pub fn prepare(ps: &VerifierParams, sg: &PublicSignals, pf: &ProofMaterial)
    -> (r: Result<PairingJob, FieldError>)
    requires
        ps.well_formed(),
    ensures
        match r {
            Ok(job) => {
                &&& divisors_ok(*ps, *sg, *pf)
                &&& job.proof == *pf
                &&& job.x2 == ps.x2
                &&& fe_val(job.beta) == beta_spec(*sg, *pf, fe_val(ps.q))
                &&& fe_val(job.gamma) == gamma_spec(*sg, *pf, fe_val(ps.q))
                &&& fe_val(job.alpha) == alpha_spec(*sg, *pf, fe_val(ps.q))
                &&& fe_val(job.xi) == xi_spec(*sg, *pf, fe_val(ps.q))
                &&& fe_val(job.v) == v_spec(*sg, *pf, fe_val(ps.q))
                &&& fe_val(job.u) == u_spec(*sg, *pf, fe_val(ps.q))
                &&& fe_val(job.zh) == zh_spec(*ps, *sg, *pf)
                &&& fe_val(job.pi) == pi_spec(*ps, *sg, *pf)
                &&& fe_val(job.r0) == r0_spec(*ps, *sg, *pf)
                &&& fe_val(job.t_expected) == t_expected_spec(*ps, *sg, *pf)
                &&& fe_val(job.z_scalar) == z_scalar_spec(*ps, *sg, *pf)
                &&& fe_val(job.s3_scalar) == s3_scalar_spec(*ps, *sg, *pf)
                &&& fe_val(job.t2_scalar) == t2_scalar_spec(*ps, *sg, *pf)
                &&& fe_val(job.t3_scalar) == t3_scalar_spec(*ps, *sg, *pf)
                &&& fe_val(job.e_scalar) == e_scalar_spec(*ps, *sg, *pf)
            },
            Err(e) => e == FieldError::DivisionByZero && !divisors_ok(*ps, *sg, *pf),
        },
{
    let q = &ps.q;
    let ghost qv = fe_val(ps.q);
    proof {
        lemma_modulus_bounds(*q);
    }
    let (beta, gamma, alpha, xi, v, u) = derive_challenges(ps, sg, pf);
    let (zh, pi, l1) = match eval_domain(ps, sg, pf, &xi) {
        Ok(out) => out,
        Err(e) => {
            return Err(e);
        },
    };
    let ea = fe_mod(&pf.eval_a, q);
    let eb = fe_mod(&pf.eval_b, q);
    let ec = fe_mod(&pf.eval_c, q);
    let es1 = fe_mod(&pf.eval_s1, q);
    let es2 = fe_mod(&pf.eval_s2, q);
    let ezw = fe_mod(&pf.eval_zw, q);
    let er = fe_mod(&pf.eval_r, q);

    let alpha2 = fe_mul_mod(&alpha, &alpha, q);
    let beta_s1 = fe_mul_mod(&beta, &es1, q);
    let beta_s2 = fe_mul_mod(&beta, &es2, q);
    let f1 = fe_add_mod(&fe_add_mod(&ea, &beta_s1, q), &gamma, q);
    let f2 = fe_add_mod(&fe_add_mod(&eb, &beta_s2, q), &gamma, q);
    let f3 = fe_add_mod(&ec, &gamma, q);
    let perm_term = fe_mul_mod(
        &fe_mul_mod(&fe_mul_mod(&fe_mul_mod(&alpha, &f1, q), &f2, q), &f3, q), &ezw, q);
    let l1a2 = fe_mul_mod(&l1, &alpha2, q);
    let r0 = fe_sub_mod(&fe_sub_mod(&fe_add_mod(&er, &pi, q), &l1a2, q), &perm_term, q);
    let zh_inv = match fe_inv(&zh, q) {
        Ok(x) => x,
        Err(_) => {
            return Err(FieldError::DivisionByZero);
        },
    };
    let t_expected = fe_mul_mod(&r0, &zh_inv, q);

    let k1r = fe_mod(&ps.k1, q);
    let k2r = fe_mod(&ps.k2, q);
    let bxi = fe_mul_mod(&beta, &xi, q);
    let bk1xi = fe_mul_mod(&beta, &fe_mul_mod(&k1r, &xi, q), q);
    let bk2xi = fe_mul_mod(&beta, &fe_mul_mod(&k2r, &xi, q), q);
    let g1 = fe_add_mod(&fe_add_mod(&ea, &bxi, q), &gamma, q);
    let g2 = fe_add_mod(&fe_add_mod(&eb, &bk1xi, q), &gamma, q);
    let g3 = fe_add_mod(&fe_add_mod(&ec, &bk2xi, q), &gamma, q);
    let z_scalar = fe_add_mod(
        &fe_add_mod(
            &fe_mul_mod(&fe_mul_mod(&fe_mul_mod(&alpha, &g1, q), &g2, q), &g3, q),
            &l1a2, q),
        &u, q);

    let s3_scalar = fe_mul_mod(
        &fe_mul_mod(&fe_mul_mod(&fe_mul_mod(&alpha, &beta, q), &ezw, q), &f1, q), &f2, q);

    let xin = pow_pow2(&xi, ps.k, q);
    let t2_scalar = xin;
    let t3_scalar = fe_mul_mod(&xin, &xin, q);

    let v2 = fe_mul_mod(&v, &v, q);
    let v3 = fe_mul_mod(&v2, &v, q);
    let v4 = fe_mul_mod(&v3, &v, q);
    let v5 = fe_mul_mod(&v4, &v, q);
    let v6 = fe_mul_mod(&v5, &v, q);
    let e_scalar = fe_add_mod(&fe_add_mod(&fe_add_mod(&fe_add_mod(&fe_add_mod(&fe_add_mod(
        &fe_add_mod(
            &t_expected,
            &fe_mul_mod(&v, &er, q), q),
        &fe_mul_mod(&v2, &ea, q), q),
        &fe_mul_mod(&v3, &eb, q), q),
        &fe_mul_mod(&v4, &ec, q), q),
        &fe_mul_mod(&v5, &es1, q), q),
        &fe_mul_mod(&v6, &es2, q), q),
        &fe_mul_mod(&u, &ezw, q), q);

    Ok(PairingJob {
        proof: *pf,
        x2: ps.x2,
        beta, gamma, alpha, xi, v, u,
        zh, pi, r0, t_expected,
        z_scalar, s3_scalar, t2_scalar, t3_scalar, e_scalar,
    })
}

/// The signal absorbed at position i of the public-input polynomial.
pub open spec fn sig_at(sg: PublicSignals, i: int) -> Fe {
    if i == 0 { sg.root }
    else if i == 1 { sg.nullifier_fp }
    else if i == 2 { sg.recipient_fp }
    else if i == 3 { sg.relayer_fp }
    else if i == 4 { sg.fee }
    else if i == 5 { sg.refund }
    else { sg.allowlist_root }
}

/// The first m terms of the public-input polynomial evaluation.
pub open spec fn pi_partial(
    ps: VerifierParams, sg: PublicSignals, pf: ProofMaterial, m: nat) -> int
    decreases m,
{
    let q = fe_val(ps.q);
    if m == 0 {
        0
    } else {
        addq(
            pi_partial(ps, sg, pf, (m - 1) as nat),
            mulq(red(sig_at(sg, m - 1), q), lag_spec(ps, sg, pf, (m - 1) as nat), q),
            q,
        )
    }
}

} // verus!

use shielded_pool::field::{
    default_modulus, fe_add_mod, fe_from_u64, fe_inv, fe_mod, fe_mul_mod, fe_pow_mod, fe_sub_mod,
    fe_zero, Fe, FieldError,
};
use shielded_pool::gate::{Contract, WithdrawError, WithdrawalRequest};
use shielded_pool::hash::hash_two;
use shielded_pool::merkle::{MerkleAccumulator, MerkleError};
use shielded_pool::registry::{NullifierRegistry, RegistryError};
use shielded_pool::snark::{G1Point, G2Point, ProofMaterial, VerifierParams};

fn fe(x: u64) -> Fe {
    fe_from_u64(x)
}

fn g1(x: u64, y: u64) -> G1Point {
    G1Point { x: fe(x), y: fe(y) }
}

fn params() -> VerifierParams {
    VerifierParams {
        q: default_modulus(),
        k: 3,
        omega: fe(5),
        k1: fe(2),
        k2: fe(3),
        qm: g1(1, 2),
        ql: g1(3, 4),
        qr: g1(5, 6),
        qo: g1(7, 8),
        qc: g1(9, 10),
        s1: g1(11, 12),
        s2: g1(13, 14),
        s3: g1(15, 16),
        x2: G2Point { x0: fe(1), x1: fe(2), y0: fe(3), y1: fe(4) },
    }
}

fn proof_material() -> ProofMaterial {
    ProofMaterial {
        a: g1(21, 22),
        b: g1(23, 24),
        c: g1(25, 26),
        z: g1(27, 28),
        t1: g1(29, 30),
        t2: g1(31, 32),
        t3: g1(33, 34),
        eval_a: fe(41),
        eval_b: fe(42),
        eval_c: fe(43),
        eval_s1: fe(44),
        eval_s2: fe(45),
        eval_zw: fe(46),
        eval_r: fe(47),
        wxi: g1(51, 52),
        wxi_w: g1(53, 54),
    }
}

fn fresh_contract(depth: usize, halted: bool) -> Contract {
    let q = default_modulus();
    Contract::new(
        halted,
        MerkleAccumulator::new(depth, 4, q),
        MerkleAccumulator::new(depth, 4, q),
        NullifierRegistry::new(),
        params(),
    )
}

fn request_for(c: &Contract, secret: u64) -> WithdrawalRequest {
    WithdrawalRequest {
        root: c.view_commitments_root(),
        nullifier_hash: c.view_nullifier_hash(&fe(secret)),
        recipient: fe(1001),
        relayer: None,
        fee: fe(3),
        refund: fe(0),
        allowlist_root: c.view_allowlist_root(),
        proof: proof_material(),
    }
}

#[test]
fn field_add_sub_mul_exact() {
    let q = default_modulus();
    let a = fe(1);
    let b = fe(2);
    assert_eq!(fe_add_mod(&a, &b, &q), fe(3));
    assert_eq!(fe_mul_mod(&fe(3), &fe(5), &q), fe(15));
    // 2 - 5 mod q == q - 3
    let d = fe_sub_mod(&fe(2), &fe(5), &q);
    let qm3 = Fe { l0: q.l0 - 3, l1: q.l1, l2: q.l2, l3: q.l3 };
    assert_eq!(d, qm3);
    // reduction of a value below q is the identity
    assert_eq!(fe_mod(&fe(77), &q), fe(77));
}

#[test]
fn field_pow_exact() {
    let q = default_modulus();
    assert_eq!(fe_pow_mod(&fe(2), &fe(10), &q), fe(1024));
    assert_eq!(fe_pow_mod(&fe(7), &fe(0), &q), fe(1));
}

#[test]
fn field_inverse_times_value_is_one() {
    let q = default_modulus();
    let x = fe(12345);
    let inv = fe_inv(&x, &q).expect("nonzero value has an inverse");
    assert_eq!(fe_mul_mod(&x, &inv, &q), fe(1));
}

#[test]
fn field_inverse_of_zero_is_rejected() {
    let q = default_modulus();
    assert_eq!(fe_inv(&fe_zero(), &q), Err(FieldError::DivisionByZero));
}

#[test]
fn hash_is_deterministic() {
    let c = fresh_contract(2, false);
    let h1 = c.view_account_hash(&fe(99));
    let h2 = c.view_account_hash(&fe(99));
    assert_eq!(h1, h2);
    let n1 = c.view_nullifier_hash(&fe(7));
    let n2 = c.view_nullifier_hash(&fe(7));
    assert_eq!(n1, n2);
    assert_ne!(c.view_account_hash(&fe(1)), c.view_account_hash(&fe(2)));
}

#[test]
fn merkle_single_leaf_root_matches_node_hash() {
    let q = default_modulus();
    let mut acc = MerkleAccumulator::new(1, 4, q);
    let leaf = fe(77);
    let root = acc.insert(leaf).expect("tree has room");
    let expected = hash_two(&leaf, &fe_zero(), &q);
    assert_eq!(root, expected);
}

#[test]
fn merkle_append_keeps_recent_roots() {
    let q = default_modulus();
    let mut acc = MerkleAccumulator::new(2, 4, q);
    let r0 = acc.current_root();
    let r1 = acc.insert(fe(1)).expect("room");
    assert_eq!(acc.leaf_count(), 1);
    let r2 = acc.insert(fe(2)).expect("room");
    assert_eq!(acc.leaf_count(), 2);
    assert!(acc.contains_root(&r0));
    assert!(acc.contains_root(&r1));
    assert!(acc.contains_root(&r2));
    assert!(!acc.contains_root(&fe(123456)));
}

#[test]
fn merkle_tree_full_is_rejected() {
    let q = default_modulus();
    let mut acc = MerkleAccumulator::new(1, 4, q);
    acc.insert(fe(1)).expect("room");
    acc.insert(fe(2)).expect("room");
    assert_eq!(acc.insert(fe(3)), Err(MerkleError::TreeFull));
    assert_eq!(acc.leaf_count(), 2);
}

#[test]
fn registry_rejects_double_insert() {
    let mut reg = NullifierRegistry::new();
    let f = fe(55);
    assert_eq!(reg.insert(f), Ok(()));
    assert!(reg.contains(&f));
    assert_eq!(reg.insert(f), Err(RegistryError::AlreadySpent));
    assert_eq!(reg.count(), 1);
}

#[test]
fn allowlist_membership_tracks_fingerprints() {
    let mut c = fresh_contract(2, false);
    assert!(!c.view_is_in_allowlist(&fe(5)));
    let fp = c.view_account_hash(&fe(5));
    c.allowlist.insert(fp).expect("room");
    assert!(c.view_is_in_allowlist(&fe(5)));
    assert!(!c.view_is_in_allowlist(&fe(6)));
}

#[test]
fn kill_switch_gates_everything() {
    let c = fresh_contract(2, true);
    assert!(c.view_kill_switch());
    let req = request_for(&c, 9);
    assert!(matches!(c.evaluate_withdrawal(&req), Err(WithdrawError::Halted)));
    // even a pairing reported as passing cannot override the halt
    assert!(!c.view_is_withdraw_valid(&req, true));
}

#[test]
fn unknown_commitment_root_is_rejected() {
    let c = fresh_contract(2, false);
    let mut req = request_for(&c, 9);
    req.root = fe(987654321);
    assert!(matches!(
        c.evaluate_withdrawal(&req),
        Err(WithdrawError::UnknownCommitmentRoot)
    ));
    assert!(!c.view_is_withdraw_valid(&req, true));
}

#[test]
fn tampered_evaluation_changes_the_check() {
    let c = fresh_contract(2, false);
    let req = request_for(&c, 9);
    let mut tampered = request_for(&c, 9);
    tampered.proof.eval_a = fe(41 + 1);
    let job = c.evaluate_withdrawal(&req).expect("checks pass");
    let job2 = c.evaluate_withdrawal(&tampered).expect("checks pass");
    // the tampered transcript yields different challenges and a different
    // batched-evaluation scalar, so the pairing check cannot be replayed
    assert_ne!(job.v, job2.v);
    assert_ne!(job.e_scalar, job2.e_scalar);
    // and a pairing that fails makes the verdict false
    assert!(!c.view_is_withdraw_valid(&tampered, false));
}

#[test]
fn withdrawal_scenario_end_to_end() {
    let mut c = fresh_contract(2, false);
    // deposit a commitment; the root advances
    let commitment = c.view_account_hash(&fe(424242));
    let r1 = c.commitments.insert(commitment).expect("room");
    assert_eq!(c.view_commitments_root(), r1);
    // a request against the fresh root passes every check
    let req = request_for(&c, 31337);
    assert!(c.view_is_withdraw_valid(&req, true));
    // the write path registers the nullifier exactly once
    c.execute_withdrawal(&req, true).expect("valid withdrawal");
    assert!(c.view_was_nullifier_spent(&req.nullifier_hash));
    // replaying the same withdrawal now fails as a double spend
    assert!(matches!(
        c.execute_withdrawal(&req, true),
        Err(WithdrawError::NullifierAlreadySpent)
    ));
    assert!(!c.view_is_withdraw_valid(&req, true));
}

#[test]
fn invalid_pairing_outcome_registers_nothing() {
    let mut c = fresh_contract(2, false);
    let req = request_for(&c, 777);
    assert!(matches!(
        c.execute_withdrawal(&req, false),
        Err(WithdrawError::InvalidProof)
    ));
    assert!(!c.view_was_nullifier_spent(&req.nullifier_hash));
}

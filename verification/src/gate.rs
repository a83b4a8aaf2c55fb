//! The withdrawal gate: the process-wide ledger state (kill switch, the two
//! accumulators, the nullifier registry, the verifying key) and the checks
//! of one withdrawal, cheapest first. The read path never mutates state;
//! the write path registers the nullifier exactly once, and only after
//! every check and the pairing have passed.
use vstd::prelude::*;
use crate::field::{Fe, fe_val, fe_zero};
use crate::hash::{account_fp_spec, nullifier_fp_spec, account_fingerprint, nullifier_fingerprint};
use crate::merkle::MerkleAccumulator;
use crate::registry::{NullifierRegistry, RegistryError};
use crate::snark::{
    VerifierParams, ProofMaterial, PublicSignals, PairingJob, divisors_ok, prepare,
};

verus! {

#[derive(Clone, Copy, PartialEq, Eq, Structural, Debug)]
pub enum WithdrawError {
    Halted,
    NullifierAlreadySpent,
    UnknownCommitmentRoot,
    UnknownAllowlistRoot,
    DivisionByZero,
    InvalidProof,
}

/// The public inputs and proof material of one withdrawal.
pub struct WithdrawalRequest {
    pub root: Fe,
    pub nullifier_hash: Fe,
    pub recipient: Fe,
    pub relayer: Option<Fe>,
    pub fee: Fe,
    pub refund: Fe,
    pub allowlist_root: Fe,
    pub proof: ProofMaterial,
}

/// The process-wide ledger state.
pub struct Contract {
    pub kill_switch: bool,
    pub commitments: MerkleAccumulator,
    pub allowlist: MerkleAccumulator,
    pub nullifier: NullifierRegistry,
    pub verifier: VerifierParams,
}

impl Contract {
    pub open spec fn well_formed(self) -> bool {
        &&& self.verifier.well_formed()
        &&& self.commitments.well_formed()
        &&& self.allowlist.well_formed()
        &&& self.commitments.q == self.verifier.q
        &&& self.allowlist.q == self.verifier.q
    }

    /// The public signals a request denotes: the claimed roots, fee and
    /// refund as given, the fingerprints derived from the named accounts,
    /// and zero for an absent relayer.
    pub open spec fn signals_spec(self, req: WithdrawalRequest) -> PublicSignals {
        PublicSignals {
            root: req.root,
            nullifier_fp: req.nullifier_hash,
            recipient_fp: crate::field::fe_of(
                account_fp_spec(fe_val(req.recipient), fe_val(self.verifier.q))),
            relayer_fp: match req.relayer {
                Some(enc) => crate::field::fe_of(
                    account_fp_spec(fe_val(enc), fe_val(self.verifier.q))),
                None => crate::field::fe_of(0),
            },
            fee: req.fee,
            refund: req.refund,
            allowlist_root: req.allowlist_root,
        }
    }

    /// The first four checks of a withdrawal: the kill switch is clear, the
    /// nullifier is fresh, and both claimed roots are recognised.
    pub open spec fn state_checks_ok(self, req: WithdrawalRequest) -> bool {
        &&& !self.kill_switch
        &&& !self.nullifier.spent@.contains(req.nullifier_hash)
        &&& self.commitments.roots@.contains(req.root)
        &&& self.allowlist.roots@.contains(req.allowlist_root)
    }

    pub fn new(
        kill_switch: bool,
        commitments: MerkleAccumulator,
        allowlist: MerkleAccumulator,
        nullifier: NullifierRegistry,
        verifier: VerifierParams,
    ) -> (r: Contract)
        ensures
            r.kill_switch == kill_switch,
            r.commitments == commitments,
            r.allowlist == allowlist,
            r.nullifier == nullifier,
            r.verifier == verifier,
    {
        Contract { kill_switch, commitments, allowlist, nullifier, verifier }
    }

    /// The account fingerprint of an encoded account identifier, under this
    /// verifier's modulus.
    pub fn view_account_hash(&self, account_enc: &Fe) -> (r: Fe)
        requires
            self.well_formed(),
        ensures
            fe_val(r) == account_fp_spec(fe_val(*account_enc), fe_val(self.verifier.q)),
    {
        account_fingerprint(account_enc, &self.verifier.q)
    }

    /// The nullifier fingerprint of a secret.
    pub fn view_nullifier_hash(&self, nullifier: &Fe) -> (r: Fe)
        requires
            self.well_formed(),
        ensures
            fe_val(r) == nullifier_fp_spec(fe_val(*nullifier), fe_val(self.verifier.q)),
    {
        nullifier_fingerprint(nullifier, &self.verifier.q)
    }

    /// The most recently published commitments root.
    pub fn view_commitments_root(&self) -> (r: Fe)
        requires
            self.well_formed(),
        ensures
            r == self.commitments.roots@.last(),
    {
        self.commitments.current_root()
    }

    /// The most recently published allowlist root.
    pub fn view_allowlist_root(&self) -> (r: Fe)
        requires
            self.well_formed(),
        ensures
            r == self.allowlist.roots@.last(),
    {
        self.allowlist.current_root()
    }

    /// Whether an account's fingerprint has been admitted to the allowlist.
    pub fn view_is_in_allowlist(&self, account_enc: &Fe) -> (r: bool)
        requires
            self.well_formed(),
        ensures
            r == self.allowlist.leaves@.contains(crate::field::fe_of(
                account_fp_spec(fe_val(*account_enc), fe_val(self.verifier.q)))),
    {
        let fp = account_fingerprint(account_enc, &self.verifier.q);
        proof {
            crate::field::lemma_fe_of(fp);
        }
        self.allowlist.contains_leaf(&fp)
    }

    /// Whether a nullifier fingerprint has been spent.
    pub fn view_was_nullifier_spent(&self, fingerprint: &Fe) -> (r: bool)
        ensures
            r == self.nullifier.spent@.contains(*fingerprint),
    {
        self.nullifier.contains(fingerprint)
    }

    /// Whether withdrawals are administratively halted.
    pub fn view_kill_switch(&self) -> (r: bool)
        ensures
            r == self.kill_switch,
    {
        self.kill_switch
    }

    /// Steps one to six of the withdrawal evaluation, short-circuiting on
    /// the first failure, cheapest checks first: the kill switch, then the
    /// nullifier registry, then the two root histories, and only then the
    /// field evaluation of the proof. On success the prepared pairing job
    /// is handed back for the environment's pairing product; no state is
    /// touched either way.
    pub fn evaluate_withdrawal(&self, req: &WithdrawalRequest)
        -> (r: Result<PairingJob, WithdrawError>)
        requires
            self.well_formed(),
        ensures
            match r {
                Ok(job) => {
                    let sg = self.signals_spec(*req);
                    &&& self.state_checks_ok(*req)
                    &&& divisors_ok(self.verifier, sg, req.proof)
                    &&& job.proof == req.proof
                    &&& job.x2 == self.verifier.x2
                    &&& fe_val(job.beta) == crate::snark::beta_spec(sg, req.proof, fe_val(self.verifier.q))
                    &&& fe_val(job.xi) == crate::snark::xi_spec(sg, req.proof, fe_val(self.verifier.q))
                    &&& fe_val(job.v) == crate::snark::v_spec(sg, req.proof, fe_val(self.verifier.q))
                    &&& fe_val(job.u) == crate::snark::u_spec(sg, req.proof, fe_val(self.verifier.q))
                    &&& fe_val(job.zh) == crate::snark::zh_spec(self.verifier, sg, req.proof)
                    &&& fe_val(job.pi) == crate::snark::pi_spec(self.verifier, sg, req.proof)
                    &&& fe_val(job.r0) == crate::snark::r0_spec(self.verifier, sg, req.proof)
                    &&& fe_val(job.t_expected)
                        == crate::snark::t_expected_spec(self.verifier, sg, req.proof)
                    &&& fe_val(job.z_scalar)
                        == crate::snark::z_scalar_spec(self.verifier, sg, req.proof)
                    &&& fe_val(job.s3_scalar)
                        == crate::snark::s3_scalar_spec(self.verifier, sg, req.proof)
                    &&& fe_val(job.t2_scalar)
                        == crate::snark::t2_scalar_spec(self.verifier, sg, req.proof)
                    &&& fe_val(job.t3_scalar)
                        == crate::snark::t3_scalar_spec(self.verifier, sg, req.proof)
                    &&& fe_val(job.e_scalar)
                        == crate::snark::e_scalar_spec(self.verifier, sg, req.proof)
                },
                Err(e) => {
                    ||| (e == WithdrawError::Halted && self.kill_switch)
                    ||| (e == WithdrawError::NullifierAlreadySpent && !self.kill_switch
                        && self.nullifier.spent@.contains(req.nullifier_hash))
                    ||| (e == WithdrawError::UnknownCommitmentRoot && !self.kill_switch
                        && !self.nullifier.spent@.contains(req.nullifier_hash)
                        && !self.commitments.roots@.contains(req.root))
                    ||| (e == WithdrawError::UnknownAllowlistRoot && !self.kill_switch
                        && !self.nullifier.spent@.contains(req.nullifier_hash)
                        && self.commitments.roots@.contains(req.root)
                        && !self.allowlist.roots@.contains(req.allowlist_root))
                    ||| (e == WithdrawError::DivisionByZero && self.state_checks_ok(*req)
                        && !divisors_ok(self.verifier, self.signals_spec(*req), req.proof))
                },
            },
            r is Err ==> !(self.state_checks_ok(*req)
                && divisors_ok(self.verifier, self.signals_spec(*req), req.proof)),
    {
        if self.kill_switch {
            return Err(WithdrawError::Halted);
        }
        if self.nullifier.contains(&req.nullifier_hash) {
            return Err(WithdrawError::NullifierAlreadySpent);
        }
        if !self.commitments.contains_root(&req.root) {
            return Err(WithdrawError::UnknownCommitmentRoot);
        }
        if !self.allowlist.contains_root(&req.allowlist_root) {
            return Err(WithdrawError::UnknownAllowlistRoot);
        }
        let recipient_fp = account_fingerprint(&req.recipient, &self.verifier.q);
        let relayer_fp = match &req.relayer {
            Some(enc) => account_fingerprint(enc, &self.verifier.q),
            None => fe_zero(),
        };
        let sg = PublicSignals {
            root: req.root,
            nullifier_fp: req.nullifier_hash,
            recipient_fp,
            relayer_fp,
            fee: req.fee,
            refund: req.refund,
            allowlist_root: req.allowlist_root,
        };
        proof {
            crate::field::lemma_fe_of(recipient_fp);
            crate::field::lemma_fe_of(relayer_fp);
            assert(sg == self.signals_spec(*req));
        }
        match prepare(&self.verifier, &sg, &req.proof) {
            Ok(job) => Ok(job),
            Err(_) => Err(WithdrawError::DivisionByZero),
        }
    }

    /// Evaluate a withdrawal without touching any state: true exactly when
    /// each state check passes, each divisor of the evaluation is nonzero,
    /// and the environment reports the pairing product as equal.
    pub fn view_is_withdraw_valid(&self, req: &WithdrawalRequest, pairing_ok: bool) -> (r: bool)
        requires
            self.well_formed(),
        ensures
            r == (self.state_checks_ok(*req)
                && divisors_ok(self.verifier, self.signals_spec(*req), req.proof)
                && pairing_ok),
    {
        match self.evaluate_withdrawal(req) {
            Ok(_) => pairing_ok,
            Err(_) => false,
        }
    }

    /// The write path: evaluate the withdrawal, take the environment's
    /// pairing verdict, and only on full success register the nullifier —
    /// the unique side effect, performed exactly once.
    pub fn execute_withdrawal(&mut self, req: &WithdrawalRequest, pairing_ok: bool)
        -> (r: Result<(), WithdrawError>)
        requires
            old(self).well_formed(),
        ensures
            final(self).kill_switch == old(self).kill_switch,
            final(self).commitments == old(self).commitments,
            final(self).allowlist == old(self).allowlist,
            final(self).verifier == old(self).verifier,
            match r {
                Ok(()) => old(self).state_checks_ok(*req)
                    && divisors_ok(old(self).verifier,
                        old(self).signals_spec(*req), req.proof)
                    && pairing_ok
                    && final(self).nullifier.spent@
                        == old(self).nullifier.spent@.push(req.nullifier_hash),
                Err(e) => !(old(self).state_checks_ok(*req)
                        && divisors_ok(old(self).verifier,
                            old(self).signals_spec(*req), req.proof)
                        && pairing_ok)
                    && final(self).nullifier.spent@ == old(self).nullifier.spent@
                    && (e == WithdrawError::InvalidProof ==> !pairing_ok),
            },
    {
        let eval = self.evaluate_withdrawal(req);
        match eval {
            Ok(_) => {
                if !pairing_ok {
                    return Err(WithdrawError::InvalidProof);
                }
                match self.nullifier.insert(req.nullifier_hash) {
                    Ok(()) => Ok(()),
                    Err(RegistryError::AlreadySpent) => {
                        // unreachable: the evaluation checked freshness
                        Err(WithdrawError::NullifierAlreadySpent)
                    },
                }
            },
            Err(e) => Err(e),
        }
    }
}

/// A spent fingerprint blocks every later request that carries it: the
/// state checks fail, the read-only verdict is false, and the write path
/// rejects, whatever the proof material or the pairing outcome.
pub proof fn lemma_double_spend_prevented(c: Contract, req: WithdrawalRequest)
    requires
        c.nullifier.spent@.contains(req.nullifier_hash),
    ensures
        !c.state_checks_ok(req),
{
}

/// The kill switch dominates: when halted, no request passes the checks,
/// whatever the proof.
pub proof fn lemma_kill_switch_gates(c: Contract, req: WithdrawalRequest)
    requires
        c.kill_switch,
    ensures
        !c.state_checks_ok(req),
{
}

/// Replaying a withdrawal: once the write path has pushed a request's
/// nullifier fingerprint into the registry, the same request can never
/// pass the state checks again.
pub proof fn lemma_replay_rejected(pre: Contract, post: Contract, req: WithdrawalRequest)
    requires
        post.nullifier.spent@ == pre.nullifier.spent@.push(req.nullifier_hash),
    ensures
        !post.state_checks_ok(req),
{
    assert(post.nullifier.spent@.last() == req.nullifier_hash);
    assert(post.nullifier.spent@.contains(req.nullifier_hash));
}

/// Root validity: a claimed commitment root outside the accumulator's
/// recent history fails the checks, whatever the proof.
pub proof fn lemma_unknown_root_rejected(c: Contract, req: WithdrawalRequest)
    requires
        !c.commitments.roots@.contains(req.root),
    ensures
        !c.state_checks_ok(req),
{
}

} // verus!

//! A registry of proofs and of what verifiers found of them.

use crate::account::{
    account_names, find_account, lemma_without_account, without_account, AccountId,
};
use vstd::prelude::*;

verus! {

/// The SHA-256 digest of a run of bytes.
pub uninterp spec fn sha256_digest(data: Seq<u8>) -> Seq<u8>;

/// The base64 text of a run of bytes, in the standard alphabet, padded.
pub uninterp spec fn base64_text(data: Seq<u8>) -> Seq<char>;

/// Calls `sha2::Sha256::digest`, which hashes the data it is given in one
/// go. The contract gives the digest the name [`sha256_digest`]: it depends
/// on the data alone.
#[verifier::external_body]
fn sha256(data: &[u8]) -> (r: Vec<u8>)
    ensures
        r@ == sha256_digest(data@),
{
    <sha2::Sha256 as sha2::Digest>::digest(data).to_vec()
}

/// Calls `base64::encode`, which encodes with the crate's standard engine.
/// The contract gives the text the name [`base64_text`]: it depends on the
/// bytes alone.
#[verifier::external_body]
#[allow(deprecated)]
fn base64_encode(data: &[u8]) -> (r: String)
    ensures
        r@ == base64_text(data@),
{
    base64::encode(data)
}

/// Why a call on the registry is rejected.
#[derive(Clone, Copy, Debug, PartialEq, Eq, Structural)]
pub enum ProofError {
    /// A proof is registered under this id already.
    ProofIdExists,
    /// The caller is not among the authorized verifiers.
    NotAuthorized,
    /// No proof is registered under this id.
    ProofNotFound,
    /// Only the owner may call this.
    NotOwner,
}

/// A proof as it was submitted, with its verification status.
#[derive(Debug, PartialEq, Eq)]
pub struct ZKProof {
    pub proof_id: String,
    /// The proof itself, as base64 text.
    pub proof_data: String,
    pub public_inputs: Vec<String>,
    pub verification_key: String,
    pub submitter: AccountId,
    pub verified: bool,
    pub submitted_at: u64,
    pub verified_at: Option<u64>,
}

/// What a verifier found of a proof.
#[derive(Debug, PartialEq, Eq)]
pub struct VerificationResult {
    pub proof_id: String,
    pub is_valid: bool,
    pub verified_at: u64,
    pub verifier: AccountId,
}

/// What a proof is, mathematically.
pub struct ProofModel {
    pub proof_id: Seq<char>,
    pub proof_data: Seq<char>,
    pub public_inputs: Seq<Seq<char>>,
    pub verification_key: Seq<char>,
    pub submitter: Seq<char>,
    pub verified: bool,
    pub submitted_at: u64,
    pub verified_at: Option<u64>,
}

/// What a verification result is, mathematically.
pub struct ResultModel {
    pub proof_id: Seq<char>,
    pub is_valid: bool,
    pub verified_at: u64,
    pub verifier: Seq<char>,
}

/// The texts of a run of strings, in order.
pub open spec fn texts(s: Seq<String>) -> Seq<Seq<char>> {
    Seq::new(s.len(), |i: int| s[i]@)
}

impl View for ZKProof {
    type V = ProofModel;

    open spec fn view(&self) -> ProofModel {
        ProofModel {
            proof_id: self.proof_id@,
            proof_data: self.proof_data@,
            public_inputs: texts(self.public_inputs@),
            verification_key: self.verification_key@,
            submitter: self.submitter@,
            verified: self.verified,
            submitted_at: self.submitted_at,
            verified_at: self.verified_at,
        }
    }
}

impl View for VerificationResult {
    type V = ResultModel;

    open spec fn view(&self) -> ResultModel {
        ResultModel {
            proof_id: self.proof_id@,
            is_valid: self.is_valid,
            verified_at: self.verified_at,
            verifier: self.verifier@,
        }
    }
}

impl Clone for VerificationResult {
    fn clone(&self) -> (r: Self)
        ensures
            r == *self,
    {
        VerificationResult {
            proof_id: self.proof_id.clone(),
            is_valid: self.is_valid,
            verified_at: self.verified_at,
            verifier: self.verifier.clone(),
        }
    }
}

impl Clone for ZKProof {
    fn clone(&self) -> (r: Self)
        ensures
            r@ == self@,
    {
        let mut public_inputs: Vec<String> = Vec::new();
        let mut i: usize = 0;
        while i < self.public_inputs.len()
            invariant
                i <= self.public_inputs.len(),
                public_inputs.len() == i,
                forall|j: int| 0 <= j < i ==> (#[trigger] public_inputs@[j])@ == self.public_inputs@[j]@,
            decreases self.public_inputs.len() - i,
        {
            public_inputs.push(self.public_inputs[i].clone());
            i = i + 1;
        }
        assert(texts(public_inputs@) =~= texts(self.public_inputs@));
        ZKProof {
            proof_id: self.proof_id.clone(),
            proof_data: self.proof_data.clone(),
            public_inputs,
            verification_key: self.verification_key.clone(),
            submitter: self.submitter.clone(),
            verified: self.verified,
            submitted_at: self.submitted_at,
            verified_at: self.verified_at,
        }
    }
}

/// The result behind an optional verification result.
pub open spec fn result_of(r: Option<VerificationResult>) -> Option<ResultModel> {
    match r {
        Some(found) => Some(found@),
        None => None,
    }
}

/// A proof with the latest result of its verification, if it has one.
#[derive(Debug, PartialEq, Eq)]
pub struct ProofEntry {
    pub proof: ZKProof,
    pub result: Option<VerificationResult>,
}

/// What a proof entry is, mathematically.
pub struct EntryModel {
    pub proof: ProofModel,
    pub result: Option<ResultModel>,
}

impl View for ProofEntry {
    type V = EntryModel;

    open spec fn view(&self) -> EntryModel {
        EntryModel { proof: self.proof@, result: result_of(self.result) }
    }
}

/// The models of a run of proof entries, in order.
pub open spec fn entry_models(s: Seq<ProofEntry>) -> Seq<EntryModel> {
    Seq::new(s.len(), |i: int| s[i]@)
}

/// The proof ids of a run of entries, in order.
pub open spec fn proof_ids(s: Seq<EntryModel>) -> Seq<Seq<char>> {
    Seq::new(s.len(), |i: int| s[i].proof.proof_id)
}

/// The registry.
#[derive(Debug, PartialEq, Eq)]
pub struct ZKPVerifierContract {
    /// The proofs, in the order in which they were submitted.
    pub proofs: Vec<ProofEntry>,
    pub authorized_verifiers: Vec<AccountId>,
    pub owner: AccountId,
}

/// What the registry is, mathematically.
pub struct RegistryModel {
    pub proofs: Seq<EntryModel>,
    pub authorized_verifiers: Seq<Seq<char>>,
    pub owner: Seq<char>,
}

impl View for ZKPVerifierContract {
    type V = RegistryModel;

    open spec fn view(&self) -> RegistryModel {
        RegistryModel {
            proofs: entry_models(self.proofs@),
            authorized_verifiers: account_names(self.authorized_verifiers@),
            owner: self.owner@,
        }
    }
}

/// Whether the base64 text of the SHA-256 digest of `secret` is `expected`.
pub open spec fn hash_matches(secret: Seq<char>, expected: Seq<char>) -> bool {
    base64_text(sha256_digest(vstd::utf8::encode_utf8(secret))) == expected
}

impl RegistryModel {
    /// Position of the proof registered under `proof_id`, if there is one.
    pub open spec fn proof_position(self, proof_id: Seq<char>) -> Option<int> {
        if exists|i: int| 0 <= i < self.proofs.len() && self.proofs[i].proof.proof_id == proof_id {
            Some(
                choose|i: int|
                    0 <= i < self.proofs.len() && self.proofs[i].proof.proof_id == proof_id,
            )
        } else {
            None
        }
    }

    /// The entry registered under `proof_id`, if there is one.
    pub open spec fn entry(self, proof_id: Seq<char>) -> Option<EntryModel> {
        match self.proof_position(proof_id) {
            Some(i) => Some(self.proofs[i]),
            None => None,
        }
    }

    /// What holds of the registry after every call.
    pub open spec fn wf(self) -> bool {
        &&& proof_ids(self.proofs).no_duplicates()
        &&& self.authorized_verifiers.no_duplicates()
        &&& forall|i: int|
            0 <= i < self.proofs.len() ==> ((#[trigger] self.proofs[i]).result matches Some(found)
                ==> found.proof_id == self.proofs[i].proof.proof_id)
    }

    /// The registry once the proof registered under `proof_id` counts as
    /// verified at `now` with the finding `is_valid` of `verifier`. A
    /// registry without such a proof stays as it is.
    pub open spec fn verified(self, proof_id: Seq<char>, is_valid: bool, now: u64, verifier: Seq<char>) -> RegistryModel {
        match self.proof_position(proof_id) {
            Some(k) => RegistryModel {
                proofs: self.proofs.update(
                    k,
                    EntryModel {
                        proof: ProofModel {
                            verified: true,
                            verified_at: Some(now),
                            ..self.proofs[k].proof
                        },
                        result: Some(
                            ResultModel { proof_id, is_valid, verified_at: now, verifier },
                        ),
                    },
                ),
                ..self
            },
            None => self,
        }
    }
}

/// Where the proof ids are distinct, the position of a proof id is the one
/// position that holds it.
pub proof fn lemma_proof_position(m: RegistryModel, proof_id: Seq<char>, k: int)
    requires
        proof_ids(m.proofs).no_duplicates(),
        0 <= k < m.proofs.len(),
        m.proofs[k].proof.proof_id == proof_id,
    ensures
        m.proof_position(proof_id) == Some(k),
{
    let c = choose|i: int| 0 <= i < m.proofs.len() && m.proofs[i].proof.proof_id == proof_id;
    assert(proof_ids(m.proofs)[c] == proof_ids(m.proofs)[k]);
}

impl ZKPVerifierContract {
    /// What holds of the registry after every call.
    pub open spec fn wf(&self) -> bool {
        self@.wf()
    }

    /// A registry owned by `owner`, who is its first authorized verifier.
    pub fn new(owner: AccountId) -> (r: ZKPVerifierContract)
        ensures
            r.wf(),
            r@ == (RegistryModel {
                proofs: Seq::empty(),
                authorized_verifiers: seq![owner@],
                owner: owner@,
            }),
    {
        let mut authorized_verifiers: Vec<AccountId> = Vec::new();
        authorized_verifiers.push(owner.clone());
        let registry = ZKPVerifierContract { proofs: Vec::new(), authorized_verifiers, owner };
        assert(registry@.proofs =~= Seq::empty());
        assert(registry@.authorized_verifiers =~= seq![owner@]);
        registry
    }

    /// The position of the proof registered under `proof_id`, if there is
    /// one.
    pub fn find_proof(&self, proof_id: &String) -> (r: Option<usize>)
        requires
            proof_ids(self@.proofs).no_duplicates(),
        ensures
            match r {
                Some(k) => k < self.proofs.len() && self@.proof_position(proof_id@) == Some(
                    k as int,
                ),
                None => self@.proof_position(proof_id@) is None,
            },
    {
        let mut i: usize = 0;
        while i < self.proofs.len()
            invariant
                i <= self.proofs.len(),
                proof_ids(self@.proofs).no_duplicates(),
                forall|j: int| 0 <= j < i ==> (#[trigger] self@.proofs[j]).proof.proof_id != proof_id@,
            decreases self.proofs.len() - i,
        {
            assert(self@.proofs[i as int] == self.proofs@[i as int]@);
            if self.proofs[i].proof.proof_id == *proof_id {
                proof {
                    lemma_proof_position(self@, proof_id@, i as int);
                }
                return Some(i);
            }
            i = i + 1;
        }
        None
    }

    /// Registers a proof of `submitter` at time `now`, not yet verified. The
    /// id must be new.
    pub fn submit_proof(
        &mut self,
        submitter: AccountId,
        now: u64,
        proof_id: String,
        proof_data: String,
        public_inputs: Vec<String>,
        verification_key: String,
    ) -> (r: Result<(), ProofError>)
        requires
            old(self).wf(),
        ensures
            final(self).wf(),
            old(self)@.entry(proof_id@) is Some ==> r == Err::<(), ProofError>(
                ProofError::ProofIdExists,
            ) && *final(self) == *old(self),
            old(self)@.entry(proof_id@) is None ==> r is Ok && final(self)@ == (RegistryModel {
                proofs: old(self)@.proofs.push(
                    EntryModel {
                        proof: ProofModel {
                            proof_id: proof_id@,
                            proof_data: proof_data@,
                            public_inputs: texts(public_inputs@),
                            verification_key: verification_key@,
                            submitter: submitter@,
                            verified: false,
                            submitted_at: now,
                            verified_at: None,
                        },
                        result: None,
                    },
                ),
                ..old(self)@
            }),
    {
        if self.find_proof(&proof_id).is_some() {
            return Err(ProofError::ProofIdExists);
        }
        let entry = ProofEntry {
            proof: ZKProof {
                proof_id,
                proof_data,
                public_inputs,
                verification_key,
                submitter,
                verified: false,
                submitted_at: now,
                verified_at: None,
            },
            result: None,
        };
        self.proofs.push(entry);
        proof {
            let before = old(self)@.proofs;
            assert(self@.proofs =~= before.push(entry@));
            assert(self@.authorized_verifiers =~= old(self)@.authorized_verifiers);
            assert(proof_ids(self@.proofs) =~= proof_ids(before).push(proof_id@));
            assert forall|a: int, b: int|
                0 <= a < self@.proofs.len() && 0 <= b < self@.proofs.len() && a
                    != b implies proof_ids(self@.proofs)[a] != proof_ids(self@.proofs)[b] by {
                if a < before.len() && b < before.len() {
                    assert(proof_ids(before)[a] != proof_ids(before)[b]);
                } else if a < before.len() {
                    assert(before[a].proof.proof_id != proof_id@);
                } else {
                    assert(before[b].proof.proof_id != proof_id@);
                }
            }
        }
        Ok(())
    }

    /// Marks the proof registered under `proof_id` as verified at `now`, and
    /// stores the finding `is_valid` of `verifier` in place of an earlier
    /// finding. Nothing changes where no such proof is registered.
    pub fn record_verification(&mut self, proof_id: String, is_valid: bool, now: u64, verifier: AccountId) -> (found:
        bool)
        requires
            old(self).wf(),
        ensures
            final(self).wf(),
            found == old(self)@.entry(proof_id@) is Some,
            final(self)@ == old(self)@.verified(proof_id@, is_valid, now, verifier@),
    {
        match self.find_proof(&proof_id) {
            Some(k) => {
                let ghost before = self@.proofs[k as int];
                assert(before == self.proofs@[k as int]@);
                self.proofs[k].proof.verified = true;
                self.proofs[k].proof.verified_at = Some(now);
                self.proofs[k].result = Some(
                    VerificationResult { proof_id, is_valid, verified_at: now, verifier },
                );
                proof {
                    let after = self.proofs@[k as int]@;
                    assert(after.proof.public_inputs =~= before.proof.public_inputs);
                    assert(self@.proofs =~= old(self)@.proofs.update(k as int, after));
                    assert(self@.authorized_verifiers =~= old(self)@.authorized_verifiers);
                    assert(proof_ids(self@.proofs) =~= proof_ids(old(self)@.proofs));
                }
                true
            },
            None => {
                proof {
                    assert(self@.proofs =~= old(self)@.proofs);
                }
                false
            },
        }
    }

    /// Records what `verifier` found of a proof, at time `now`. Only an
    /// authorized verifier may, and the proof must be registered.
    pub fn verify_proof(&mut self, verifier: AccountId, now: u64, proof_id: String, is_valid: bool) -> (r:
        Result<(), ProofError>)
        requires
            old(self).wf(),
        ensures
            final(self).wf(),
            !old(self)@.authorized_verifiers.contains(verifier@) ==> r == Err::<(), ProofError>(
                ProofError::NotAuthorized,
            ) && *final(self) == *old(self),
            old(self)@.authorized_verifiers.contains(verifier@) && old(self)@.entry(proof_id@)
                is None ==> r == Err::<(), ProofError>(ProofError::ProofNotFound) && *final(self)
                == *old(self),
            old(self)@.authorized_verifiers.contains(verifier@) && old(self)@.entry(proof_id@)
                is Some ==> r is Ok && final(self)@ == old(self)@.verified(
                proof_id@,
                is_valid,
                now,
                verifier@,
            ),
    {
        if find_account(&self.authorized_verifiers, &verifier).is_none() {
            return Err(ProofError::NotAuthorized);
        }
        if self.find_proof(&proof_id).is_none() {
            return Err(ProofError::ProofNotFound);
        }
        self.record_verification(proof_id, is_valid, now, verifier);
        Ok(())
    }

    /// Checks a secret against the hash expected of it: the base64 text of
    /// its SHA-256 digest. Where a proof is registered under `proof_id`, the
    /// finding is recorded for it at `now` in the name of the registry's
    /// own account `current_account`.
    pub fn verify_simple_hash_proof(
        &mut self,
        current_account: AccountId,
        now: u64,
        proof_id: String,
        secret: String,
        expected_hash: String,
    ) -> (is_valid: bool)
        requires
            old(self).wf(),
        ensures
            final(self).wf(),
            is_valid == hash_matches(secret@, expected_hash@),
            final(self)@ == old(self)@.verified(proof_id@, is_valid, now, current_account@),
    {
        let digest = sha256(secret.as_str().as_bytes());
        let computed_hash = base64_encode(digest.as_slice());
        let is_valid = computed_hash == expected_hash;
        self.record_verification(proof_id, is_valid, now, current_account);
        is_valid
    }

    /// The proof registered under `proof_id`, if there is one.
    pub fn get_proof(&self, proof_id: String) -> (r: Option<ZKProof>)
        requires
            self.wf(),
        ensures
            match r {
                Some(found) => self@.entry(proof_id@) is Some && found@ == self@.entry(
                    proof_id@,
                ).unwrap().proof,
                None => self@.entry(proof_id@) is None,
            },
    {
        match self.find_proof(&proof_id) {
            Some(k) => {
                assert(self@.proofs[k as int] == self.proofs@[k as int]@);
                Some(self.proofs[k].proof.clone())
            },
            None => None,
        }
    }

    /// The latest finding on the proof registered under `proof_id`, if it
    /// has been verified.
    pub fn get_verification_result(&self, proof_id: String) -> (r: Option<VerificationResult>)
        requires
            self.wf(),
        ensures
            result_of(r) == match self@.entry(proof_id@) {
                Some(entry) => entry.result,
                None => None,
            },
    {
        match self.find_proof(&proof_id) {
            Some(k) => {
                assert(self@.proofs[k as int] == self.proofs@[k as int]@);
                match &self.proofs[k].result {
                    Some(found) => Some(found.clone()),
                    None => None,
                }
            },
            None => None,
        }
    }

    /// Whether the proof registered under `proof_id` was found valid, if it
    /// has been verified.
    pub fn is_proof_valid(&self, proof_id: String) -> (r: Option<bool>)
        requires
            self.wf(),
        ensures
            r == match self@.entry(proof_id@) {
                Some(entry) => match entry.result {
                    Some(found) => Some(found.is_valid),
                    None => None,
                },
                None => None,
            },
    {
        match self.get_verification_result(proof_id) {
            Some(found) => Some(found.is_valid),
            None => None,
        }
    }

    /// Whether `verifier` is among the authorized verifiers.
    pub fn is_authorized_verifier(&self, verifier: &AccountId) -> (r: bool)
        ensures
            r == self@.authorized_verifiers.contains(verifier@),
    {
        find_account(&self.authorized_verifiers, verifier).is_some()
    }

    /// Authorizes `verifier`. Owner only.
    pub fn add_authorized_verifier(&mut self, caller: &AccountId, verifier: AccountId) -> (r: Result<
        (),
        ProofError,
    >)
        requires
            old(self).wf(),
        ensures
            final(self).wf(),
            caller@ != old(self)@.owner ==> r == Err::<(), ProofError>(ProofError::NotOwner)
                && *final(self) == *old(self),
            caller@ == old(self)@.owner ==> r is Ok && final(self)@ == (RegistryModel {
                authorized_verifiers: if old(self)@.authorized_verifiers.contains(verifier@) {
                    old(self)@.authorized_verifiers
                } else {
                    old(self)@.authorized_verifiers.push(verifier@)
                },
                ..old(self)@
            }),
    {
        if !self.owner.is(caller) {
            return Err(ProofError::NotOwner);
        }
        if find_account(&self.authorized_verifiers, &verifier).is_none() {
            self.authorized_verifiers.push(verifier);
            proof {
                let before = old(self)@.authorized_verifiers;
                let after = self@.authorized_verifiers;
                assert(after =~= before.push(verifier@));
                assert(self@.proofs =~= old(self)@.proofs);
                assert forall|a: int, b: int|
                    0 <= a < after.len() && 0 <= b < after.len() && a != b implies after[a]
                    != after[b] by {
                    if a < before.len() && b < before.len() {
                    } else if a < before.len() {
                        assert(before.contains(before[a]));
                    } else {
                        assert(before.contains(before[b]));
                    }
                }
            }
        } else {
            proof {
                assert(self@.proofs =~= old(self)@.proofs);
            }
        }
        Ok(())
    }

    /// Withdraws the authorization of `verifier`. Owner only.
    pub fn remove_authorized_verifier(&mut self, caller: &AccountId, verifier: &AccountId) -> (r:
        Result<(), ProofError>)
        requires
            old(self).wf(),
        ensures
            final(self).wf(),
            caller@ != old(self)@.owner ==> r == Err::<(), ProofError>(ProofError::NotOwner)
                && *final(self) == *old(self),
            caller@ == old(self)@.owner ==> r is Ok && final(self)@ == (RegistryModel {
                authorized_verifiers: without_account(
                    old(self)@.authorized_verifiers,
                    verifier@,
                ),
                ..old(self)@
            }),
    {
        if !self.owner.is(caller) {
            return Err(ProofError::NotOwner);
        }
        match find_account(&self.authorized_verifiers, verifier) {
            Some(k) => {
                self.authorized_verifiers.remove(k);
                proof {
                    let before = old(self)@.authorized_verifiers;
                    assert(before[k as int] == verifier@);
                    lemma_without_account(before, verifier@, k as int);
                    assert(self@.authorized_verifiers =~= before.remove(k as int));
                    assert(self@.proofs =~= old(self)@.proofs);
                }
            },
            None => {
                proof {
                    assert(self@.proofs =~= old(self)@.proofs);
                }
            },
        }
        Ok(())
    }
}

} // verus!

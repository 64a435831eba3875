//! The Fiat-Shamir transform: the verifier's challenge is squeezed from a
//! codec that has absorbed the initialization vector, the protocol's name, the
//! statement's label and the prover's commitment.

use rand::rngs::OsRng;
use vstd::prelude::*;

use crate::codec::{challenge_of, ByteSchnorrCodec};
use crate::duplex_sponge::SpongeModel;
use crate::element::{encodings, Element};
use crate::errors::Error;
use crate::field::Scalar;
use crate::linear_relation::scalars_valid;
use crate::schnorr_protocol::{
    batchable_bytes, compact_bytes, is_response, protocol_name, ProverState, SchnorrProof,
};
use crate::serialization::concat;

verus! {

/// A commitment, a challenge and a response.
pub type Transcript = (Vec<Element>, Scalar, Vec<Scalar>);

/// The codec state that a proof starts from: the initialization vector, the
/// protocol's name and the statement's label, absorbed in this order.
pub open spec fn template(iv: Seq<u8>, label: Seq<u8>) -> SpongeModel {
    SpongeModel::fresh().absorb(iv).absorb(protocol_name()).absorb(label)
}

/// A Schnorr protocol made non-interactive.
#[derive(Debug)]
pub struct NISigmaProtocol {
    /// The codec state that every proof and every verification starts from.
    pub hash_state: ByteSchnorrCodec,
    /// The interactive protocol.
    pub sigmap: SchnorrProof,
}

impl Clone for NISigmaProtocol {
    fn clone(&self) -> (nizk: NISigmaProtocol)
        ensures
            nizk.hash_state == self.hash_state,
            nizk.sigmap.0.same_as(&self.sigmap.0),
    {
        NISigmaProtocol { hash_state: self.hash_state, sigmap: self.sigmap.clone() }
    }
}

impl NISigmaProtocol {
    /// The challenge for a commitment: what the codec gives once it has
    /// absorbed the commitment's encoding.
    pub open spec fn challenge_for(&self, commitment: Seq<Seq<u8>>) -> nat {
        challenge_of(self.hash_state@.absorb(concat(commitment)))
    }

    /// Whether commitment, challenge and response are what an honest prover
    /// with these nonces sends for this witness.
    pub open spec fn is_transcript(
        &self,
        witness: Seq<Scalar>,
        nonces: Seq<Scalar>,
        commitment: Seq<Seq<u8>>,
        challenge: nat,
        response: Seq<Scalar>,
    ) -> bool {
        &&& nonces.len() == self.sigmap.witness_length()
        &&& commitment == self.sigmap.0.linear_map.values(nonces)
        &&& challenge == self.challenge_for(commitment)
        &&& is_response(response, nonces, witness, challenge)
    }

    /// Whether commitment, challenge and response are what an honest prover
    /// sends for this witness, for some choice of nonces.
    pub open spec fn honest(
        &self,
        witness: Seq<Scalar>,
        commitment: Seq<Seq<u8>>,
        challenge: nat,
        response: Seq<Scalar>,
    ) -> bool {
        exists|nonces: Seq<Scalar>|
            scalars_valid(nonces) && #[trigger] self.is_transcript(
                witness,
                nonces,
                commitment,
                challenge,
                response,
            )
    }

    /// Whether the transcript is the one of an honest run for this witness,
    /// and the verifier accepts it.
    pub open spec fn accepted_run(
        &self,
        witness: Seq<Scalar>,
        commitment: Seq<Seq<u8>>,
        challenge: nat,
        response: Seq<Scalar>,
    ) -> bool {
        &&& self.honest(witness, commitment, challenge, response)
        &&& self.sigmap.accepts(commitment, challenge, response)
    }

    /// Whether the transcript is the one of an honest run for this witness,
    /// and the verifier rejects it.
    pub open spec fn rejected_run(
        &self,
        witness: Seq<Scalar>,
        commitment: Seq<Seq<u8>>,
        challenge: nat,
        response: Seq<Scalar>,
    ) -> bool {
        &&& self.honest(witness, commitment, challenge, response)
        &&& !self.sigmap.accepts(commitment, challenge, response)
    }

    /// Whether some honest run for this witness gives a transcript that the
    /// verifier rejects. The theorems of this library show that no such run
    /// exists for a witness that satisfies a relation over a group.
    pub open spec fn some_proof_rejected(&self, witness: Seq<Scalar>) -> bool {
        exists|commitment: Seq<Seq<u8>>, challenge: nat, response: Seq<Scalar>|
            #[trigger] self.rejected_run(witness, commitment, challenge, response)
    }

    /// What `prove` owes for `witness`: the prover's refusal, where it
    /// refuses; else the accepted transcript of an honest run, or
    /// `VerificationFailure` where the run that was made is rejected.
    pub open spec fn proved(&self, witness: Seq<Scalar>, r: Result<Transcript, Error>) -> bool {
        match self.sigmap.commit_error(witness.len(), self.sigmap.witness_length() as nat) {
            Some(error) => r matches Err(e) && e == error,
            None => match r {
                Ok(t) => self.accepted_run(witness, encodings(t.0@), t.1@, t.2@),
                Err(e) => e == Error::VerificationFailure && self.some_proof_rejected(witness),
            },
        }
    }

    /// What `prove_batchable` owes for `witness`: as `prove`, with the
    /// transcript in batchable form.
    pub open spec fn proved_batchable(&self, witness: Seq<Scalar>, r: Result<Vec<u8>, Error>) -> bool {
        match self.sigmap.commit_error(witness.len(), self.sigmap.witness_length() as nat) {
            Some(error) => r matches Err(e) && e == error,
            None => match r {
                Ok(proof) => exists|commitment: Seq<Element>, challenge: nat, response: Seq<Scalar>|
                    {
                        &&& #[trigger] self.accepted_run(
                            witness,
                            encodings(commitment),
                            challenge,
                            response,
                        )
                        &&& proof@ == batchable_bytes(commitment, response)
                    },
                Err(e) => e == Error::VerificationFailure && self.some_proof_rejected(witness),
            },
        }
    }

    /// What `prove_compact` owes for `witness`: as `prove`, with the
    /// transcript in compact form.
    pub open spec fn proved_compact(&self, witness: Seq<Scalar>, r: Result<Vec<u8>, Error>) -> bool {
        match self.sigmap.commit_error(witness.len(), self.sigmap.witness_length() as nat) {
            Some(error) => r matches Err(e) && e == error,
            None => match r {
                Ok(proof) => exists|commitment: Seq<Seq<u8>>, challenge: Scalar, response: Seq<Scalar>|
                    {
                        &&& #[trigger] self.accepted_run(
                            witness,
                            commitment,
                            challenge@,
                            response,
                        )
                        &&& proof@ == compact_bytes(challenge, response)
                    },
                Err(e) => e == Error::VerificationFailure && self.some_proof_rejected(witness),
            },
        }
    }

    /// The answer to a transcript: the challenge must be the one that the
    /// commitment gives, and the interactive verifier must accept.
    pub open spec fn verify_outcome(
        &self,
        commitment: Seq<Seq<u8>>,
        challenge: nat,
        response: Seq<Scalar>,
    ) -> Result<(), Error> {
        if challenge != self.challenge_for(commitment) {
            Err(Error::VerificationFailure)
        } else {
            self.sigmap.verdict(commitment, challenge, response)
        }
    }

    /// The answer to a proof in batchable form.
    pub open spec fn verify_batchable_outcome(&self, proof: Seq<u8>) -> Result<(), Error> {
        match self.sigmap.parse_batchable(proof) {
            None => Err(Error::VerificationFailure),
            Some((commitment, response)) => self.sigmap.verdict(
                encodings(commitment),
                self.challenge_for(encodings(commitment)),
                response,
            ),
        }
    }

    /// The answer to a proof in compact form: the commitment is the one that
    /// challenge and response determine.
    pub open spec fn verify_compact_outcome(&self, proof: Seq<u8>) -> Result<(), Error> {
        match self.sigmap.parse_compact(proof) {
            None => Err(Error::VerificationFailure),
            Some((challenge, response)) => match self.sigmap.simulation_error(response.len()) {
                Some(error) => Err(error),
                None => self.verify_outcome(
                    self.sigmap.simulated(challenge@, response),
                    challenge@,
                    response,
                ),
            },
        }
    }

    /// Wraps a protocol instance: the codec absorbs the initialization
    /// vector, then the protocol's name, then the statement's label.
    pub fn new(iv: &[u8], instance: SchnorrProof) -> (nizk: NISigmaProtocol)
        requires
            instance.0.balanced(),
        ensures
            nizk.sigmap == instance,
            nizk.hash_state@ == template(iv@, instance.0.spec_label()),
    {
        let mut hash_state = ByteSchnorrCodec::new(iv);
        let name = instance.protocol_identifier();
        let label = instance.instance_label();
        hash_state.prover_message(name.as_slice()).prover_message(label.as_slice());
        NISigmaProtocol { hash_state, sigmap: instance }
    }

    /// The challenge for a commitment, from a copy of the codec.
    fn derive_challenge(&self, commitment: &Vec<Element>) -> (challenge: Scalar)
        ensures
            challenge@ == self.challenge_for(encodings(commitment@)),
    {
        let mut codec = self.hash_state;
        let data = self.sigmap.serialize_commitment(commitment);
        codec.prover_message(data.as_slice()).verifier_challenge()
    }

    /// The rest of a proof once the prover has committed: the challenge, the
    /// response, and the check that the verifier accepts them.
    fn complete(&self, commitment: Vec<Element>, prover_state: ProverState) -> (r: Result<
        Transcript,
        Error,
    >)
        requires
            self.sigmap.0.wf(),
            prover_state.0@.len() == self.sigmap.witness_length(),
            prover_state.1@.len() == self.sigmap.witness_length(),
            encodings(commitment@) == self.sigmap.0.linear_map.values(prover_state.0@),
            self.sigmap.0.linear_map.first_unassigned() is None,
            self.sigmap.0.image_missing() is None,
        ensures
            match r {
                Ok(t) => {
                    &&& t.0@ == commitment@
                    &&& self.is_transcript(
                        prover_state.1@,
                        prover_state.0@,
                        encodings(t.0@),
                        t.1@,
                        t.2@,
                    )
                    &&& self.sigmap.accepts(encodings(t.0@), t.1@, t.2@)
                },
                Err(e) => {
                    &&& e == Error::VerificationFailure
                    &&& exists|challenge: nat, response: Seq<Scalar>|
                        {
                            &&& #[trigger] self.is_transcript(
                                prover_state.1@,
                                prover_state.0@,
                                encodings(commitment@),
                                challenge,
                                response,
                            )
                            &&& !self.sigmap.accepts(encodings(commitment@), challenge, response)
                        }
                },
            },
    {
        let ghost nonces = prover_state.0@;
        let ghost witness = prover_state.1@;
        let challenge = self.derive_challenge(&commitment);
        let response = match self.sigmap.prover_response(prover_state, &challenge) {
            Ok(response) => response,
            Err(e) => {
                return Err(e);
            },
        };
        assert(self.is_transcript(
            witness,
            nonces,
            encodings(commitment@),
            challenge@,
            response@,
        ));
        assert(encodings(commitment@).len() == commitment@.len());
        match self.sigmap.verify(&commitment, &challenge, &response) {
            Ok(()) => Ok((commitment, challenge, response)),
            Err(e) => {
                assert(!self.sigmap.accepts(encodings(commitment@), challenge@, response@));
                Err(e)
            },
        }
    }

    /// A proof for given nonces.
    pub fn prove_with_nonces(&self, witness: &Vec<Scalar>, nonces: Vec<Scalar>) -> (r: Result<
        Transcript,
        Error,
    >)
        requires
            self.sigmap.0.wf(),
        ensures
            match self.sigmap.commit_error(witness@.len(), nonces@.len()) {
                Some(error) => r matches Err(e) && e == error,
                None => match r {
                    Ok(t) => {
                        &&& self.is_transcript(witness@, nonces@, encodings(t.0@), t.1@, t.2@)
                        &&& self.sigmap.accepts(encodings(t.0@), t.1@, t.2@)
                    },
                    Err(e) => {
                        &&& e == Error::VerificationFailure
                        &&& exists|challenge: nat, response: Seq<Scalar>|
                            {
                                &&& #[trigger] self.is_transcript(
                                    witness@,
                                    nonces@,
                                    self.sigmap.0.linear_map.values(nonces@),
                                    challenge,
                                    response,
                                )
                                &&& !self.sigmap.accepts(
                                    self.sigmap.0.linear_map.values(nonces@),
                                    challenge,
                                    response,
                                )
                            }
                    },
                },
            },
    {
        match self.sigmap.prover_commit_with_nonces(witness, nonces) {
            Ok((commitment, prover_state)) => self.complete(commitment, prover_state),
            Err(e) => Err(e),
        }
    }

    /// A proof for `witness`: the commitment to fresh nonces, the challenge
    /// that the commitment gives, and the response. The proof is checked
    /// before it is returned.
    pub fn prove(&self, witness: &Vec<Scalar>, rng: &mut OsRng) -> (r: Result<Transcript, Error>)
        requires
            self.sigmap.0.wf(),
        ensures
            self.proved(witness@, r),
    {
        match self.sigmap.prover_commit(witness, rng) {
            Ok((commitment, prover_state)) => {
                let ghost nonces = prover_state.0@;
                let ghost enc = encodings(commitment@);
                let r = self.complete(commitment, prover_state);
                proof {
                    match &r {
                        Ok(t) => {
                            assert(self.is_transcript(
                                witness@,
                                nonces,
                                encodings(t.0@),
                                t.1@,
                                t.2@,
                            ));
                        },
                        Err(e) => {
                            let (challenge, response) = choose|challenge: nat, response: Seq<Scalar>|
                                {
                                    &&& #[trigger] self.is_transcript(
                                        witness@,
                                        nonces,
                                        enc,
                                        challenge,
                                        response,
                                    )
                                    &&& !self.sigmap.accepts(enc, challenge, response)
                                };
                            assert(self.rejected_run(witness@, enc, challenge, response));
                        },
                    }
                }
                r
            },
            Err(e) => Err(e),
        }
    }

    /// Checks a transcript.
    pub fn verify(&self, commitment: &Vec<Element>, challenge: &Scalar, response: &Vec<Scalar>) -> (r:
        Result<(), Error>)
        requires
            self.sigmap.0.wf(),
        ensures
            r == self.verify_outcome(encodings(commitment@), challenge@, response@),
    {
        let expected_challenge = self.derive_challenge(commitment);
        proof {
            if challenge@ == expected_challenge@ {
                challenge.lemma_value_injective(expected_challenge);
            }
        }
        if *challenge == expected_challenge {
            self.sigmap.verify(commitment, challenge, response)
        } else {
            Err(Error::VerificationFailure)
        }
    }

    /// A proof for `witness` in batchable form.
    pub fn prove_batchable(&self, witness: &Vec<Scalar>, rng: &mut OsRng) -> (r: Result<
        Vec<u8>,
        Error,
    >)
        requires
            self.sigmap.0.wf(),
        ensures
            self.proved_batchable(witness@, r),
    {
        match self.prove(witness, rng) {
            Ok((commitment, challenge, response)) => {
                assert(encodings(commitment@).len() == commitment@.len());
                match self.sigmap.serialize_batchable(&commitment, &challenge, &response) {
                    Ok(proof) => {
                        assert(self.accepted_run(
                            witness@,
                            encodings(commitment@),
                            challenge@,
                            response@,
                        ));
                        Ok(proof)
                    },
                    Err(e) => Err(e),
                }
            },
            Err(e) => Err(e),
        }
    }

    /// Checks a proof in batchable form.
    pub fn verify_batchable(&self, proof: &[u8]) -> (r: Result<(), Error>)
        requires
            self.sigmap.0.wf(),
        ensures
            r == self.verify_batchable_outcome(proof@),
    {
        let (commitment, response) = match self.sigmap.deserialize_batchable(proof) {
            Ok(parts) => parts,
            Err(e) => {
                return Err(e);
            },
        };
        let challenge = self.derive_challenge(&commitment);
        self.sigmap.verify(&commitment, &challenge, &response)
    }

    /// A proof for `witness` in compact form.
    pub fn prove_compact(&self, witness: &Vec<Scalar>, rng: &mut OsRng) -> (r: Result<Vec<u8>, Error>)
        requires
            self.sigmap.0.wf(),
        ensures
            self.proved_compact(witness@, r),
    {
        match self.prove(witness, rng) {
            Ok((commitment, challenge, response)) => {
                assert(encodings(commitment@).len() == commitment@.len());
                match self.sigmap.serialize_compact(&commitment, &challenge, &response) {
                    Ok(proof) => {
                        assert(self.accepted_run(
                            witness@,
                            encodings(commitment@),
                            challenge@,
                            response@,
                        ));
                        Ok(proof)
                    },
                    Err(e) => Err(e),
                }
            },
            Err(e) => Err(e),
        }
    }

    /// Checks a proof in compact form: recomputes the commitment from
    /// challenge and response, then checks the transcript.
    pub fn verify_compact(&self, proof: &[u8]) -> (r: Result<(), Error>)
        requires
            self.sigmap.0.wf(),
        ensures
            r == self.verify_compact_outcome(proof@),
    {
        let (challenge, response) = match self.sigmap.deserialize_compact(proof) {
            Ok(parts) => parts,
            Err(e) => {
                return Err(e);
            },
        };
        let commitment = match self.sigmap.get_commitment(&challenge, &response) {
            Ok(commitment) => commitment,
            Err(e) => {
                return Err(e);
            },
        };
        self.verify(&commitment, &challenge, &response)
    }
}

} // verus!

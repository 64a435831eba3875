//! The generalized Schnorr protocol for a linear relation: the prover commits
//! to the image of random nonces, the verifier sends a challenge, the prover
//! answers with the nonces shifted by the challenge times the witness, and the
//! verifier checks the relation on the answer.

use rand::rngs::OsRng;
use vstd::prelude::*;
use vstd::slice::{slice_subrange, slice_to_vec};
use vstd::std_specs::convert::FromSpecImpl;

use crate::element::{
    encodings, g1_difference, g1_product, g1_sum, identity_encoding, Element, ELEMENT_LEN,
};
use crate::errors::Error;
use crate::field::{field_add, field_mul, Scalar, SCALAR_LEN};
use crate::linear_relation::{missing_from, scalars_valid, LinearRelation};
use crate::serialization::{
    deserialize_elements, deserialize_scalars, elements_bytes, parse_elements, parse_scalars,
    scalars_bytes, serialize_elements, serialize_scalars,
};

verus! {

/// The first message of the protocol: one element per equation.
pub type Commitment = Vec<Element>;

/// The last message of the protocol: one scalar per scalar variable.
pub type Response = Vec<Scalar>;

/// What the prover keeps between its two messages: the nonces and the
/// witness.
pub type ProverState = (Vec<Scalar>, Vec<Scalar>);

/// The response to a challenge: each nonce plus the challenge times the
/// witness entry, in the field.
pub open spec fn response_value(nonce: Scalar, witness: Scalar, challenge: nat) -> nat {
    field_add(nonce@, field_mul(challenge, witness@))
}

/// Whether `response` is the response of nonces and witness to `challenge`.
pub open spec fn is_response(
    response: Seq<Scalar>,
    nonces: Seq<Scalar>,
    witness: Seq<Scalar>,
    challenge: nat,
) -> bool {
    &&& response.len() == nonces.len()
    &&& forall|i: int|
        0 <= i < response.len() ==> (#[trigger] response[i])@ == response_value(
            nonces[i],
            witness[i],
            challenge,
        )
}

/// The batchable form of a proof: the commitment, then the response.
pub open spec fn batchable_bytes(commitment: Seq<Element>, response: Seq<Scalar>) -> Seq<u8> {
    elements_bytes(commitment) + scalars_bytes(response)
}

/// The compact form of a proof: the challenge, then the response.
pub open spec fn compact_bytes(challenge: Scalar, response: Seq<Scalar>) -> Seq<u8> {
    challenge.repr() + scalars_bytes(response)
}

/// The bytes that name this protocol in a transcript.
pub open spec fn protocol_name() -> Seq<u8> {
    seq![
        0x53u8, 0x63u8, 0x68u8, 0x6eu8, 0x6fu8, 0x72u8, 0x72u8, 0x50u8, 0x72u8, 0x6fu8, 0x6fu8,
        0x66u8,
    ]
}

/// The Schnorr protocol that proves knowledge of a witness of a linear
/// relation.
#[derive(Debug)]
pub struct SchnorrProof(pub LinearRelation);

impl Clone for SchnorrProof {
    fn clone(&self) -> (p: SchnorrProof)
        ensures
            p.0.same_as(&self.0),
    {
        SchnorrProof(self.0.clone())
    }
}

impl From<LinearRelation> for SchnorrProof {
    fn from(value: LinearRelation) -> (p: SchnorrProof) {
        SchnorrProof(value)
    }
}

impl FromSpecImpl<LinearRelation> for SchnorrProof {
    open spec fn obeys_from_spec() -> bool {
        true
    }

    open spec fn from_spec(value: LinearRelation) -> SchnorrProof {
        SchnorrProof(value)
    }
}

impl SchnorrProof {
    /// The number of scalar variables, as specifications read it.
    pub open spec fn spec_witness_length(&self) -> usize {
        self.0.linear_map.num_scalars
    }

    /// The number of scalars of a witness, of the nonces and of a response.
    #[verifier::when_used_as_spec(spec_witness_length)]
    pub fn witness_length(&self) -> (n: usize)
        ensures
            n == self.0.linear_map.num_scalars,
    {
        self.0.linear_map.num_scalars
    }

    /// The number of equations, as specifications read it.
    pub open spec fn spec_commitment_length(&self) -> usize {
        self.0.linear_map.constraints.len()
    }

    /// The number of elements of a commitment: one per equation.
    #[verifier::when_used_as_spec(spec_commitment_length)]
    pub fn commitment_length(&self) -> (n: usize)
        ensures
            n == self.0.linear_map.constraints@.len(),
    {
        self.0.linear_map.num_constraints()
    }

    /// Whether every image element is the neutral element, so that the
    /// statement holds of the zero witness.
    pub open spec fn trivial(&self) -> bool {
        forall|j: int|
            0 <= j < self.0.image@.len() ==> (#[trigger] self.0.image_elements()[j])@
                == identity_encoding()
    }

    /// The error with which the prover refuses to commit, if it does.
    pub open spec fn commit_error(&self, witness_len: nat, nonces_len: nat) -> Option<Error> {
        if witness_len != self.witness_length() || nonces_len != self.witness_length() {
            Some(Error::InvalidInstanceWitnessPair)
        } else if self.0.image_missing() is Some {
            Some(Error::UnassignedGroupVar { var: self.0.image_missing()->Some_0 })
        } else if self.trivial() {
            Some(Error::InvalidInstanceWitnessPair)
        } else if self.0.linear_map.first_unassigned() is Some {
            Some(Error::UnassignedGroupVar { var: self.0.linear_map.first_unassigned()->Some_0 })
        } else {
            None
        }
    }

    /// What the verifier compares the image of the response with: for each
    /// equation, the image element times the challenge, plus the commitment.
    pub open spec fn expected(&self, commitment: Seq<Seq<u8>>, challenge: nat) -> Seq<Seq<u8>> {
        Seq::new(
            commitment.len(),
            |j: int| g1_sum(g1_product(self.0.image_elements()[j]@, challenge), commitment[j]),
        )
    }

    /// The verification equation: the image of the response is the expected
    /// one in every equation.
    pub open spec fn accepts(
        &self,
        commitment: Seq<Seq<u8>>,
        challenge: nat,
        response: Seq<Scalar>,
    ) -> bool {
        self.0.linear_map.values(response) == self.expected(commitment, challenge)
    }

    /// The verifier's answer.
    pub open spec fn verdict(
        &self,
        commitment: Seq<Seq<u8>>,
        challenge: nat,
        response: Seq<Scalar>,
    ) -> Result<(), Error> {
        if commitment.len() != self.commitment_length() || response.len()
            != self.witness_length() {
            Err(Error::InvalidInstanceWitnessPair)
        } else if self.0.linear_map.first_unassigned() is Some {
            Err(Error::UnassignedGroupVar { var: self.0.linear_map.first_unassigned()->Some_0 })
        } else if self.0.image_missing() is Some {
            Err(Error::UnassignedGroupVar { var: self.0.image_missing()->Some_0 })
        } else if self.accepts(commitment, challenge, response) {
            Ok(())
        } else {
            Err(Error::VerificationFailure)
        }
    }

    /// The commitment that makes `response` an accepted answer to
    /// `challenge`: for each equation, the image of the response minus the
    /// image element times the challenge.
    pub open spec fn simulated(&self, challenge: nat, response: Seq<Scalar>) -> Seq<Seq<u8>> {
        Seq::new(
            self.0.image@.len(),
            |j: int|
                g1_difference(
                    self.0.linear_map.values(response)[j],
                    g1_product(self.0.image_elements()[j]@, challenge),
                ),
        )
    }

    /// The error with which no commitment can be simulated, if there is one.
    pub open spec fn simulation_error(&self, response_len: nat) -> Option<Error> {
        if response_len != self.witness_length() {
            Some(Error::InvalidInstanceWitnessPair)
        } else if self.0.linear_map.first_unassigned() is Some {
            Some(Error::UnassignedGroupVar { var: self.0.linear_map.first_unassigned()->Some_0 })
        } else if self.0.image_missing() is Some {
            Some(Error::UnassignedGroupVar { var: self.0.image_missing()->Some_0 })
        } else {
            None
        }
    }

    /// The number of bytes of a proof in batchable form.
    pub open spec fn batchable_len(&self) -> nat {
        (self.commitment_length() * ELEMENT_LEN + self.witness_length() * SCALAR_LEN) as nat
    }

    /// The number of bytes of a proof in compact form.
    pub open spec fn compact_len(&self) -> nat {
        ((self.witness_length() + 1) * SCALAR_LEN) as nat
    }

    /// The commitment and the response that a batchable proof holds, where it
    /// has the length that the relation fixes and every block decodes.
    pub open spec fn parse_batchable(&self, data: Seq<u8>) -> Option<(Seq<Element>, Seq<Scalar>)> {
        let split = self.commitment_length() * ELEMENT_LEN;
        if data.len() != self.batchable_len() {
            None
        } else {
            match (
                parse_elements(data.subrange(0, split), self.commitment_length() as nat),
                parse_scalars(data.subrange(split, data.len() as int), self.witness_length() as nat),
            ) {
                (Some(commitment), Some(response)) => Some((commitment, response)),
                _ => None,
            }
        }
    }

    /// The challenge and the response that a compact proof holds, where it
    /// has the length that the relation fixes and every block decodes.
    pub open spec fn parse_compact(&self, data: Seq<u8>) -> Option<(Scalar, Seq<Scalar>)> {
        if data.len() != self.compact_len() {
            None
        } else {
            match (
                parse_scalars(data.subrange(0, SCALAR_LEN as int), 1),
                parse_scalars(
                    data.subrange(SCALAR_LEN as int, data.len() as int),
                    self.witness_length() as nat,
                ),
            ) {
                (Some(challenge), Some(response)) => Some((challenge[0], response)),
                _ => None,
            }
        }
    }

    /// The prover's first message for given nonces: the image of the nonces
    /// under the linear map, and the state to answer a challenge with.
    pub fn prover_commit_with_nonces(&self, witness: &Vec<Scalar>, nonces: Vec<Scalar>) -> (r:
        Result<(Commitment, ProverState), Error>)
        requires
            self.0.wf(),
        ensures
            match self.commit_error(witness@.len(), nonces@.len()) {
                Some(error) => r matches Err(e) && e == error,
                None => r matches Ok((commitment, state)) && {
                    &&& encodings(commitment@) == self.0.linear_map.values(nonces@)
                    &&& state.0@ == nonces@
                    &&& state.1@ == witness@
                },
            },
    {
        if witness.len() != self.witness_length() || nonces.len() != self.witness_length() {
            return Err(Error::InvalidInstanceWitnessPair);
        }
        let image = match self.0.image() {
            Ok(image) => image,
            Err(e) => {
                return Err(e);
            },
        };
        if all_identity(&image) {
            return Err(Error::InvalidInstanceWitnessPair);
        }
        let commitment = match self.0.linear_map.evaluate(nonces.as_slice()) {
            Ok(commitment) => commitment,
            Err(e) => {
                return Err(e);
            },
        };
        Ok((commitment, (nonces, slice_to_vec(witness.as_slice()))))
    }

    /// The prover's first message: draws one fresh nonce per scalar variable
    /// and commits to their image. Whatever the nonces are, the commitment is
    /// their image, and the state holds them beside the witness.
    pub fn prover_commit(&self, witness: &Vec<Scalar>, rng: &mut OsRng) -> (r: Result<
        (Commitment, ProverState),
        Error,
    >)
        requires
            self.0.wf(),
        ensures
            match self.commit_error(witness@.len(), self.witness_length() as nat) {
                Some(error) => r matches Err(e) && e == error,
                None => r matches Ok((commitment, state)) && {
                    &&& state.0@.len() == self.witness_length()
                    &&& scalars_valid(state.0@)
                    &&& encodings(commitment@) == self.0.linear_map.values(state.0@)
                    &&& state.1@ == witness@
                },
            },
    {
        let nonces = random_scalars(self.witness_length(), rng);
        self.prover_commit_with_nonces(witness, nonces)
    }

    /// The prover's second message: `nonce + challenge * witness` in each
    /// position.
    pub fn prover_response(&self, prover_state: ProverState, challenge: &Scalar) -> (r: Result<
        Response,
        Error,
    >)
        ensures
            match r {
                Ok(response) => {
                    &&& prover_state.0@.len() == self.witness_length()
                    &&& prover_state.1@.len() == self.witness_length()
                    &&& is_response(response@, prover_state.0@, prover_state.1@, challenge@)
                },
                Err(e) => {
                    &&& e == Error::InvalidInstanceWitnessPair
                    &&& (prover_state.0@.len() != self.witness_length() || prover_state.1@.len()
                        != self.witness_length())
                },
            },
    {
        let (nonces, witness) = prover_state;
        if nonces.len() != self.witness_length() || witness.len() != self.witness_length() {
            return Err(Error::InvalidInstanceWitnessPair);
        }
        let mut response: Vec<Scalar> = Vec::new();
        let mut i: usize = 0;
        while i < nonces.len()
            invariant
                i <= nonces@.len(),
                nonces@.len() == witness@.len(),
                response@.len() == i,
                forall|k: int|
                    0 <= k < i ==> (#[trigger] response@[k])@ == response_value(
                        nonces@[k],
                        witness@[k],
                        challenge@,
                    ),
            decreases nonces@.len() - i,
        {
            response.push(nonces[i].plus(&challenge.times(&witness[i])));
            i += 1;
        }
        Ok(response)
    }

    /// The verifier: accepts when the image of the response equals, in every
    /// equation, the image element times the challenge plus the commitment.
    pub fn verify(&self, commitment: &Vec<Element>, challenge: &Scalar, response: &Vec<Scalar>) -> (r:
        Result<(), Error>)
        requires
            self.0.wf(),
        ensures
            r == self.verdict(encodings(commitment@), challenge@, response@),
    {
        if commitment.len() != self.commitment_length() || response.len()
            != self.witness_length() {
            return Err(Error::InvalidInstanceWitnessPair);
        }
        let lhs = match self.0.linear_map.evaluate(response.as_slice()) {
            Ok(lhs) => lhs,
            Err(e) => {
                return Err(e);
            },
        };
        let mut rhs: Vec<Element> = Vec::new();
        let mut i: usize = 0;
        while i < commitment.len()
            invariant
                i <= commitment@.len(),
                commitment@.len() == self.0.image@.len(),
                commitment@.len() == self.commitment_length(),
                response@.len() == self.witness_length(),
                self.0.linear_map.first_unassigned() is None,
                rhs@.len() == i,
                self.0.image_missing() == missing_from(
                    self.0.image@,
                    self.0.linear_map.group_elements@,
                    i as int,
                ),
                forall|j: int|
                    0 <= j < i ==> (#[trigger] rhs@[j])@ == self.expected(
                        encodings(commitment@),
                        challenge@,
                    )[j],
            decreases commitment@.len() - i,
        {
            let image_var = self.0.image[i];
            let x = match self.0.linear_map.group_elements.get(image_var) {
                Ok(x) => x,
                Err(e) => {
                    return Err(e);
                },
            };
            rhs.push(x.scale(challenge).plus(&commitment[i]));
            i += 1;
        }
        let same = same_elements(&lhs, &rhs);
        proof {
            let left = self.0.linear_map.values(response@);
            let right = self.expected(encodings(commitment@), challenge@);
            assert(encodings(lhs@).len() == lhs@.len());
            assert(encodings(commitment@).len() == commitment@.len());
            assert(lhs@.len() == rhs@.len());
            if same {
                assert(left =~= right);
            } else {
                if left == right {
                    assert forall|j: int| 0 <= j < lhs@.len() implies lhs@[j] == rhs@[j] by {
                        assert(encodings(lhs@)[j] == left[j]);
                        assert(rhs@[j]@ == right[j]);
                        lhs@[j].lemma_view_injective(rhs@[j]);
                    }
                    assert(lhs@ =~= rhs@);
                }
            }
        }
        if same {
            Ok(())
        } else {
            Err(Error::VerificationFailure)
        }
    }

    /// The encodings of the commitment's elements, one after the other.
    pub fn serialize_commitment(&self, commitment: &Vec<Element>) -> (out: Vec<u8>)
        ensures
            out@ == elements_bytes(commitment@),
    {
        serialize_elements(commitment.as_slice())
    }

    /// The encoding of the challenge.
    pub fn serialize_challenge(&self, challenge: &Scalar) -> (out: Vec<u8>)
        ensures
            out@ == challenge.repr(),
    {
        crate::serialization::serialize_scalar(challenge)
    }

    /// The encodings of the response's scalars, one after the other.
    pub fn serialize_response(&self, response: &Vec<Scalar>) -> (out: Vec<u8>)
        ensures
            out@ == scalars_bytes(response@),
    {
        serialize_scalars(response.as_slice())
    }

    /// Reads a commitment: one element per equation, nothing else.
    pub fn deserialize_commitment(&self, data: &[u8]) -> (r: Result<Vec<Element>, Error>)
        ensures
            match parse_elements(data@, self.commitment_length() as nat) {
                Some(commitment) => r matches Ok(out) && out@ == commitment,
                None => r matches Err(e) && e == Error::VerificationFailure,
            },
    {
        match deserialize_elements(data, self.commitment_length()) {
            Some(commitment) => Ok(commitment),
            None => Err(Error::VerificationFailure),
        }
    }

    /// Reads a challenge: one scalar, nothing else.
    pub fn deserialize_challenge(&self, data: &[u8]) -> (r: Result<Scalar, Error>)
        ensures
            match parse_scalars(data@, 1) {
                Some(scalars) => r matches Ok(challenge) && challenge == scalars[0],
                None => r matches Err(e) && e == Error::VerificationFailure,
            },
    {
        match deserialize_scalars(data, 1) {
            Some(scalars) => Ok(scalars[0]),
            None => Err(Error::VerificationFailure),
        }
    }

    /// Reads a response: one scalar per scalar variable, nothing else.
    pub fn deserialize_response(&self, data: &[u8]) -> (r: Result<Vec<Scalar>, Error>)
        ensures
            match parse_scalars(data@, self.witness_length() as nat) {
                Some(response) => r matches Ok(out) && out@ == response,
                None => r matches Err(e) && e == Error::VerificationFailure,
            },
    {
        match deserialize_scalars(data, self.witness_length()) {
            Some(response) => Ok(response),
            None => Err(Error::VerificationFailure),
        }
    }

    /// The batchable form of a proof: the commitment, then the response. The
    /// challenge is left out: a verifier derives it from the commitment.
    pub fn serialize_batchable(
        &self,
        commitment: &Vec<Element>,
        challenge: &Scalar,
        response: &Vec<Scalar>,
    ) -> (r: Result<Vec<u8>, Error>)
        ensures
            match r {
                Ok(out) => {
                    &&& commitment@.len() == self.commitment_length()
                    &&& response@.len() == self.witness_length()
                    &&& out@ == batchable_bytes(commitment@, response@)
                },
                Err(e) => {
                    &&& e == Error::ProofSizeMismatch
                    &&& (commitment@.len() != self.commitment_length() || response@.len()
                        != self.witness_length())
                },
            },
    {
        if commitment.len() != self.commitment_length() || response.len()
            != self.witness_length() {
            return Err(Error::ProofSizeMismatch);
        }
        let mut out = serialize_elements(commitment.as_slice());
        let tail = serialize_scalars(response.as_slice());
        append(&mut out, &tail);
        Ok(out)
    }

    /// Reads a proof in batchable form.
    pub fn deserialize_batchable(&self, data: &[u8]) -> (r: Result<(Vec<Element>, Vec<Scalar>), Error>)
        ensures
            match self.parse_batchable(data@) {
                Some((commitment, response)) => r matches Ok(out) && out.0@ == commitment && out.1@
                    == response,
                None => r matches Err(e) && e == Error::VerificationFailure,
            },
    {
        let ne = self.commitment_length();
        let ns = self.witness_length();
        let expected: u128 = (ne as u128) * (ELEMENT_LEN as u128) + (ns as u128) * (SCALAR_LEN as u128);
        if data.len() as u128 != expected {
            return Err(Error::VerificationFailure);
        }
        let split = ne * ELEMENT_LEN;
        let commitment = match deserialize_elements(slice_subrange(data, 0, split), ne) {
            Some(commitment) => commitment,
            None => {
                return Err(Error::VerificationFailure);
            },
        };
        let response = match deserialize_scalars(slice_subrange(data, split, data.len()), ns) {
            Some(response) => response,
            None => {
                return Err(Error::VerificationFailure);
            },
        };
        Ok((commitment, response))
    }

    /// The compact form of a proof: the challenge, then the response. The
    /// commitment is left out: a verifier recomputes it from the two.
    pub fn serialize_compact(
        &self,
        commitment: &Vec<Element>,
        challenge: &Scalar,
        response: &Vec<Scalar>,
    ) -> (r: Result<Vec<u8>, Error>)
        ensures
            match r {
                Ok(out) => {
                    &&& response@.len() == self.witness_length()
                    &&& out@ == compact_bytes(*challenge, response@)
                },
                Err(e) => {
                    &&& e == Error::ProofSizeMismatch
                    &&& response@.len() != self.witness_length()
                },
            },
    {
        if response.len() != self.witness_length() {
            return Err(Error::ProofSizeMismatch);
        }
        let mut out = crate::serialization::serialize_scalar(challenge);
        let tail = serialize_scalars(response.as_slice());
        append(&mut out, &tail);
        Ok(out)
    }

    /// Reads a proof in compact form.
    pub fn deserialize_compact(&self, data: &[u8]) -> (r: Result<(Scalar, Vec<Scalar>), Error>)
        ensures
            match self.parse_compact(data@) {
                Some((challenge, response)) => r matches Ok(out) && out.0 == challenge && out.1@
                    == response,
                None => r matches Err(e) && e == Error::VerificationFailure,
            },
    {
        let ns = self.witness_length();
        let expected: u128 = ((ns as u128) + 1) * (SCALAR_LEN as u128);
        if data.len() as u128 != expected {
            return Err(Error::VerificationFailure);
        }
        let challenge = match deserialize_scalars(slice_subrange(data, 0, SCALAR_LEN), 1) {
            Some(scalars) => scalars[0],
            None => {
                return Err(Error::VerificationFailure);
            },
        };
        let response = match deserialize_scalars(slice_subrange(data, SCALAR_LEN, data.len()), ns) {
            Some(response) => response,
            None => {
                return Err(Error::VerificationFailure);
            },
        };
        Ok((challenge, response))
    }

    /// The label of the statement: the shape of the relation.
    pub fn instance_label(&self) -> (out: Vec<u8>)
        requires
            self.0.balanced(),
        ensures
            out@ == self.0.spec_label(),
    {
        self.0.label()
    }

    /// The name of the protocol: the ASCII bytes of `SchnorrProof`.
    pub fn protocol_identifier(&self) -> (out: Vec<u8>)
        ensures
            out@ == protocol_name(),
    {
        let out: Vec<u8> = vec![
            0x53u8,
            0x63u8,
            0x68u8,
            0x6eu8,
            0x6fu8,
            0x72u8,
            0x72u8,
            0x50u8,
            0x72u8,
            0x6fu8,
            0x6fu8,
            0x66u8,
        ];
        assert(out@ =~= protocol_name());
        out
    }

    /// A response drawn at random, each entry on its own.
    pub fn simulate_response(&self, rng: &mut OsRng) -> (response: Vec<Scalar>)
        ensures
            response@.len() == self.witness_length(),
            scalars_valid(response@),
    {
        random_scalars(self.witness_length(), rng)
    }

    /// A transcript made without a witness: a random challenge, a random
    /// response, and the commitment that makes the two verify.
    pub fn simulate_transcript(&self, rng: &mut OsRng) -> (r: Result<
        (Vec<Element>, Scalar, Vec<Scalar>),
        Error,
    >)
        requires
            self.0.wf(),
        ensures
            match self.simulation_error(self.witness_length() as nat) {
                Some(error) => r matches Err(e) && e == error,
                None => r matches Ok(t) && {
                    &&& t.1.wf()
                    &&& t.2@.len() == self.witness_length()
                    &&& scalars_valid(t.2@)
                    &&& encodings(t.0@) == self.simulated(t.1@, t.2@)
                },
            },
    {
        let challenge = Scalar::random(rng);
        let response = self.simulate_response(rng);
        match self.simulate_commitment(&challenge, &response) {
            Ok(commitment) => Ok((commitment, challenge, response)),
            Err(e) => Err(e),
        }
    }

    /// The commitment that makes `response` an accepted answer to
    /// `challenge`.
    pub fn simulate_commitment(&self, challenge: &Scalar, response: &Vec<Scalar>) -> (r: Result<
        Vec<Element>,
        Error,
    >)
        requires
            self.0.wf(),
        ensures
            match self.simulation_error(response@.len()) {
                Some(error) => r matches Err(e) && e == error,
                None => r matches Ok(commitment) && encodings(commitment@) == self.simulated(
                    challenge@,
                    response@,
                ),
            },
    {
        if response.len() != self.witness_length() {
            return Err(Error::InvalidInstanceWitnessPair);
        }
        let response_image = match self.0.linear_map.evaluate(response.as_slice()) {
            Ok(values) => values,
            Err(e) => {
                return Err(e);
            },
        };
        let image = match self.0.image() {
            Ok(image) => image,
            Err(e) => {
                return Err(e);
            },
        };
        assert(encodings(response_image@).len() == response_image@.len());
        let mut commitment: Vec<Element> = Vec::new();
        let mut j: usize = 0;
        while j < image.len()
            invariant
                j <= image@.len(),
                image@.len() == response_image@.len(),
                image@.len() == self.0.image@.len(),
                image@ == self.0.image_elements(),
                encodings(response_image@) == self.0.linear_map.values(response@),
                commitment@.len() == j,
                forall|k: int|
                    0 <= k < j ==> (#[trigger] commitment@[k])@ == self.simulated(
                        challenge@,
                        response@,
                    )[k],
            decreases image@.len() - j,
        {
            proof {
                assert(encodings(response_image@)[j as int] == response_image@[j as int]@);
            }
            commitment.push(response_image[j].minus(&image[j].scale(challenge)));
            j += 1;
        }
        assert(encodings(commitment@) =~= self.simulated(challenge@, response@));
        Ok(commitment)
    }

    /// The commitment of a compact proof, recovered from its challenge and
    /// response.
    pub fn get_commitment(&self, challenge: &Scalar, response: &Vec<Scalar>) -> (r: Result<
        Vec<Element>,
        Error,
    >)
        requires
            self.0.wf(),
        ensures
            match self.simulation_error(response@.len()) {
                Some(error) => r matches Err(e) && e == error,
                None => r matches Ok(commitment) && encodings(commitment@) == self.simulated(
                    challenge@,
                    response@,
                ),
            },
    {
        self.simulate_commitment(challenge, response)
    }
}

/// Draws `n` scalars from the generator, one call each.
fn random_scalars(n: usize, rng: &mut OsRng) -> (out: Vec<Scalar>)
    ensures
        out@.len() == n,
        scalars_valid(out@),
{
    let mut out: Vec<Scalar> = Vec::new();
    let mut i: usize = 0;
    while i < n
        invariant
            i <= n,
            out@.len() == i,
            scalars_valid(out@),
        decreases n - i,
    {
        out.push(Scalar::random(rng));
        i += 1;
    }
    out
}

/// Whether every element is the neutral element.
fn all_identity(elements: &Vec<Element>) -> (r: bool)
    ensures
        r == (forall|j: int|
            0 <= j < elements@.len() ==> (#[trigger] elements@[j])@ == identity_encoding()),
{
    let mut j: usize = 0;
    while j < elements.len()
        invariant
            j <= elements@.len(),
            forall|k: int| 0 <= k < j ==> (#[trigger] elements@[k])@ == identity_encoding(),
        decreases elements@.len() - j,
    {
        if !elements[j].is_identity() {
            return false;
        }
        j += 1;
    }
    true
}

/// Whether two vectors hold the same elements in the same order.
fn same_elements(a: &Vec<Element>, b: &Vec<Element>) -> (r: bool)
    ensures
        r == (a@ == b@),
{
    if a.len() != b.len() {
        return false;
    }
    let mut j: usize = 0;
    while j < a.len()
        invariant
            j <= a@.len(),
            a@.len() == b@.len(),
            forall|k: int| 0 <= k < j ==> a@[k] == b@[k],
        decreases a@.len() - j,
    {
        if a[j] != b[j] {
            return false;
        }
        j += 1;
    }
    assert(a@ =~= b@);
    true
}

/// Appends `tail` to `out`.
fn append(out: &mut Vec<u8>, tail: &Vec<u8>)
    ensures
        final(out)@ == old(out)@ + tail@,
{
    let mut i: usize = 0;
    while i < tail.len()
        invariant
            i <= tail@.len(),
            out@ == old(out)@ + tail@.take(i as int),
        decreases tail@.len() - i,
    {
        out.push(tail[i]);
        assert(out@ =~= old(out)@ + tail@.take(i as int + 1));
        i += 1;
    }
    assert(tail@.take(i as int) =~= tail@);
}

} // verus!

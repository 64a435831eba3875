#![allow(non_snake_case)]

use bls12_381::{G1Affine, G1Projective};
use group::Group;
use rand::rngs::OsRng;

use sigma_rs::codec::ByteSchnorrCodec;
use sigma_rs::element::Element;
use sigma_rs::errors::Error;
use sigma_rs::fiat_shamir::NISigmaProtocol;
use sigma_rs::field::Scalar;
use sigma_rs::linear_relation::{GroupVar, LinearCombination, LinearRelation, Term};
use sigma_rs::schnorr_protocol::SchnorrProof;

const IV: &[u8; 32] = b"yellow submarineyellow submarine";

fn element(p: G1Projective) -> Element {
    Element::from_bytes(&G1Affine::from(p).to_compressed()).unwrap()
}

fn generator() -> Element {
    element(G1Projective::generator())
}

fn random_element(rng: &mut OsRng) -> Element {
    element(G1Projective::random(rng))
}

fn scalar(s: bls12_381::Scalar) -> Scalar {
    Scalar::from_bytes(&s.to_bytes()).unwrap()
}

fn field(s: &Scalar) -> bls12_381::Scalar {
    bls12_381::Scalar::from_bytes(&s.to_bytes()).unwrap()
}

/// X = x * G
fn discrete_log(rng: &mut OsRng) -> (LinearRelation, Vec<Scalar>) {
    let mut relation = LinearRelation::new();
    let x = Scalar::random(rng);
    let var_x = relation.allocate_scalar();
    let [var_G, var_X] = relation.allocate_elements::<2>();
    relation.append_equation(var_X, LinearCombination::from(Term::from((var_x, var_G))));
    relation.set_elements(&[(var_G, generator()), (var_X, generator().scale(&x))]);
    (relation, vec![x])
}

/// X = x * G, Y = x * H
fn dleq(rng: &mut OsRng) -> (LinearRelation, Vec<Scalar>) {
    let mut relation = LinearRelation::new();
    let G = generator();
    let H = random_element(rng);
    assert_ne!(G, H);
    let x = Scalar::random(rng);
    let var_x = relation.allocate_scalar();
    let [var_G, var_H, var_X, var_Y] = relation.allocate_elements::<4>();
    relation.set_elements(&[(var_G, G), (var_H, H), (var_X, G.scale(&x)), (var_Y, H.scale(&x))]);
    relation.append_equation(var_X, LinearCombination::from(Term::from((var_x, var_G))));
    relation.append_equation(var_Y, LinearCombination::from(Term::from((var_x, var_H))));
    (relation, vec![x])
}

/// C = x * G + r * H, with the terms in the given order
fn pedersen(G: Element, H: Element, x: Scalar, r: Scalar, swapped: bool) -> LinearRelation {
    let mut relation = LinearRelation::new();
    let [var_x, var_r] = relation.allocate_scalars::<2>();
    let [var_G, var_H, var_C] = relation.allocate_elements::<3>();
    relation.set_elements(&[
        (var_G, G),
        (var_H, H),
        (var_C, G.scale(&x).plus(&H.scale(&r))),
    ]);
    let terms = if swapped {
        vec![Term::from((var_r, var_H)), Term::from((var_x, var_G))]
    } else {
        vec![Term::from((var_x, var_G)), Term::from((var_r, var_H))]
    };
    relation.append_equation(var_C, LinearCombination::from(terms));
    relation
}

#[test]
fn discrete_log_proves_and_verifies_in_both_forms() {
    let mut rng = OsRng;
    let (relation, witness) = discrete_log(&mut rng);
    let nizk = NISigmaProtocol::new(IV, SchnorrProof(relation));

    let batchable = nizk.prove_batchable(&witness, &mut rng).unwrap();
    assert_eq!(batchable.len(), 48 + 32);
    assert_eq!(nizk.verify_batchable(&batchable), Ok(()));

    let compact = nizk.prove_compact(&witness, &mut rng).unwrap();
    assert_eq!(compact.len(), 2 * 32);
    assert_eq!(nizk.verify_compact(&compact), Ok(()));

    let (commitment, challenge, response) = nizk.prove(&witness, &mut rng).unwrap();
    assert_eq!(nizk.verify(&commitment, &challenge, &response), Ok(()));
    assert_eq!(nizk.sigmap.verify(&commitment, &challenge, &response), Ok(()));
}

#[test]
fn dleq_proof_fails_once_an_image_is_changed() {
    let mut rng = OsRng;
    let (relation, witness) = dleq(&mut rng);
    let nizk = NISigmaProtocol::new(IV, SchnorrProof(relation.clone()));
    let proof = nizk.prove_batchable(&witness, &mut rng).unwrap();
    assert_eq!(proof.len(), 2 * 48 + 32);
    assert_eq!(nizk.verify_batchable(&proof), Ok(()));
    let compact = nizk.prove_compact(&witness, &mut rng).unwrap();
    assert_eq!(nizk.verify_compact(&compact), Ok(()));

    // The same statement with another Y.
    let mut changed = LinearRelation::new();
    let var_x = changed.allocate_scalar();
    let [var_G, var_H, var_X, var_Y] = changed.allocate_elements::<4>();
    let elements = relation.linear_map.group_elements.iter();
    changed.set_elements(&elements[..3]);
    changed.set_element(var_Y, elements[3].1.plus(&generator()));
    changed.append_equation(var_X, LinearCombination::from(Term::from((var_x, var_G))));
    changed.append_equation(var_Y, LinearCombination::from(Term::from((var_x, var_H))));
    assert_eq!(changed.label(), relation.label());

    let verifier = NISigmaProtocol::new(IV, SchnorrProof(changed));
    assert_eq!(verifier.verify_batchable(&proof), Err(Error::VerificationFailure));
    assert_eq!(verifier.verify_compact(&compact), Err(Error::VerificationFailure));
    // The prover's own check catches a witness that does not fit.
    assert_eq!(
        verifier.prove_batchable(&witness, &mut rng),
        Err(Error::VerificationFailure)
    );
}

#[test]
fn pedersen_proof_is_bound_to_the_order_of_the_terms() {
    let mut rng = OsRng;
    let G = generator();
    let H = random_element(&mut rng);
    let x = Scalar::random(&mut rng);
    let r = Scalar::random(&mut rng);

    let plain = pedersen(G, H, x, r, false);
    let swapped = pedersen(G, H, x, r, true);
    assert_eq!(plain.image(), swapped.image());
    assert_ne!(plain.label(), swapped.label());

    let prover = NISigmaProtocol::new(IV, SchnorrProof(plain));
    let proof = prover.prove_batchable(&vec![x, r], &mut rng).unwrap();
    assert_eq!(proof.len(), 48 + 2 * 32);
    assert_eq!(prover.verify_batchable(&proof), Ok(()));

    let verifier = NISigmaProtocol::new(IV, SchnorrProof(swapped));
    assert_eq!(verifier.verify_batchable(&proof), Err(Error::VerificationFailure));
    // The swapped statement is as provable as the plain one.
    let proof = verifier.prove_batchable(&vec![x, r], &mut rng).unwrap();
    assert_eq!(verifier.verify_batchable(&proof), Ok(()));
}

#[test]
fn proof_is_bound_to_the_initialization_vector() {
    let mut rng = OsRng;
    let (relation, witness) = discrete_log(&mut rng);
    let prover = NISigmaProtocol::new(IV, SchnorrProof(relation.clone()));
    let proof = prover.prove_batchable(&witness, &mut rng).unwrap();
    let compact = prover.prove_compact(&witness, &mut rng).unwrap();
    let (commitment, challenge, response) = prover.prove(&witness, &mut rng).unwrap();

    let other = NISigmaProtocol::new(b"yellow submarineyellow submarinf", SchnorrProof(relation));
    assert_eq!(other.verify_batchable(&proof), Err(Error::VerificationFailure));
    assert_eq!(other.verify_compact(&compact), Err(Error::VerificationFailure));
    assert_eq!(
        other.verify(&commitment, &challenge, &response),
        Err(Error::VerificationFailure)
    );
    // The interactive verifier does not look at the transcript.
    assert_eq!(other.sigmap.verify(&commitment, &challenge, &response), Ok(()));
}

#[test]
fn one_wrapper_serves_many_proofs() {
    let mut rng = OsRng;
    let (relation, witness) = dleq(&mut rng);
    let nizk = NISigmaProtocol::new(IV, SchnorrProof(relation));
    let first = nizk.prove_batchable(&witness, &mut rng).unwrap();
    let second = nizk.prove_batchable(&witness, &mut rng).unwrap();
    assert_ne!(first, second);
    assert_eq!(nizk.verify_batchable(&second), Ok(()));
    assert_eq!(nizk.verify_batchable(&first), Ok(()));
    assert_eq!(nizk.verify_batchable(&first), Ok(()));
}

#[test]
fn commitments_to_fresh_nonces_differ() {
    let mut rng = OsRng;
    let (relation, witness) = dleq(&mut rng);
    let protocol = SchnorrProof(relation);
    let (first, first_state) = protocol.prover_commit(&witness, &mut rng).unwrap();
    let (second, second_state) = protocol.prover_commit(&witness, &mut rng).unwrap();
    assert_ne!(first, second);
    assert_ne!(first_state.0, second_state.0);
    assert_eq!(first_state.1, witness);
    assert_eq!(first.len(), 2);
    assert_eq!(first_state.0.len(), 1);
}

#[test]
fn commitment_is_the_image_of_the_nonces() {
    let mut rng = OsRng;
    let (relation, witness) = dleq(&mut rng);
    let H = relation.linear_map.group_elements.get(GroupVar(1)).unwrap();
    let protocol = SchnorrProof(relation);
    let nonce = Scalar::random(&mut rng);
    let (commitment, state) = protocol.prover_commit_with_nonces(&witness, vec![nonce]).unwrap();
    assert_eq!(commitment, vec![generator().scale(&nonce), H.scale(&nonce)]);
    assert_eq!(state, (vec![nonce], witness));
}

#[test]
fn response_is_nonce_plus_challenge_times_witness() {
    let mut rng = OsRng;
    let mut relation = LinearRelation::new();
    relation.allocate_scalars::<3>();
    let protocol = SchnorrProof(relation);

    let small = |n: u64| scalar(bls12_381::Scalar::from(n));
    let response = protocol
        .prover_response((vec![small(1), small(2), small(3)], vec![small(10), small(20), small(30)]), &small(7))
        .unwrap();
    assert_eq!(response, vec![small(71), small(142), small(213)]);

    let nonces: Vec<Scalar> = (0..3).map(|_| Scalar::random(&mut rng)).collect();
    let witness: Vec<Scalar> = (0..3).map(|_| Scalar::random(&mut rng)).collect();
    let challenge = Scalar::random(&mut rng);
    let response = protocol.prover_response((nonces.clone(), witness.clone()), &challenge).unwrap();
    for i in 0..3 {
        assert_eq!(
            field(&response[i]),
            field(&nonces[i]) + field(&challenge) * field(&witness[i])
        );
    }

    assert_eq!(
        protocol.prover_response((vec![small(1)], vec![small(1), small(2), small(3)]), &small(7)),
        Err(Error::InvalidInstanceWitnessPair)
    );
    assert_eq!(
        protocol.prover_response((vec![small(1), small(2), small(3)], vec![]), &small(7)),
        Err(Error::InvalidInstanceWitnessPair)
    );
}

#[test]
fn verifier_checks_the_equation_it_states() {
    let mut rng = OsRng;
    let (relation, witness) = discrete_log(&mut rng);
    let X = relation.image().unwrap()[0];
    let protocol = SchnorrProof(relation);

    // z * G = c * X + T holds for T = r * G and z = r + c * x.
    let r = Scalar::random(&mut rng);
    let c = Scalar::random(&mut rng);
    let T = generator().scale(&r);
    let z = r.plus(&c.times(&witness[0]));
    assert_eq!(protocol.verify(&vec![T], &c, &vec![z]), Ok(()));
    assert_eq!(generator().scale(&z), X.scale(&c).plus(&T));

    assert_eq!(
        protocol.verify(&vec![T], &c, &vec![z.plus(&Scalar::one())]),
        Err(Error::VerificationFailure)
    );
    assert_eq!(
        protocol.verify(&vec![T.plus(&generator())], &c, &vec![z]),
        Err(Error::VerificationFailure)
    );
    assert_eq!(
        protocol.verify(&vec![T], &c.plus(&Scalar::one()), &vec![z]),
        Err(Error::VerificationFailure)
    );
    assert_eq!(
        protocol.verify(&vec![T, T], &c, &vec![z]),
        Err(Error::InvalidInstanceWitnessPair)
    );
    assert_eq!(protocol.verify(&vec![], &c, &vec![z]), Err(Error::InvalidInstanceWitnessPair));
    assert_eq!(
        protocol.verify(&vec![T], &c, &vec![z, z]),
        Err(Error::InvalidInstanceWitnessPair)
    );
}

#[test]
fn prover_refuses_a_witness_of_the_wrong_length() {
    let mut rng = OsRng;
    let (relation, witness) = discrete_log(&mut rng);
    let nizk = NISigmaProtocol::new(IV, SchnorrProof(relation));
    let long = vec![witness[0], witness[0]];
    assert_eq!(nizk.prove(&vec![], &mut rng), Err(Error::InvalidInstanceWitnessPair));
    assert_eq!(nizk.prove_batchable(&long, &mut rng), Err(Error::InvalidInstanceWitnessPair));
    assert_eq!(nizk.prove_compact(&long, &mut rng), Err(Error::InvalidInstanceWitnessPair));
    assert_eq!(
        nizk.sigmap.prover_commit(&long, &mut rng),
        Err(Error::InvalidInstanceWitnessPair)
    );
    assert_eq!(
        nizk.sigmap.prover_commit_with_nonces(&witness, vec![]),
        Err(Error::InvalidInstanceWitnessPair)
    );
    assert_eq!(
        nizk.prove_with_nonces(&witness, long.clone()),
        Err(Error::InvalidInstanceWitnessPair)
    );
}

#[test]
fn prover_refuses_a_trivial_statement() {
    let mut rng = OsRng;
    // X = x * G with X the identity: the zero witness satisfies it.
    let mut relation = LinearRelation::new();
    let var_x = relation.allocate_scalar();
    let [var_G, var_X, var_Y] = relation.allocate_elements::<3>();
    relation.set_elements(&[(var_G, generator()), (var_X, Element::identity())]);
    relation.append_equation(var_X, LinearCombination::from(Term::from((var_x, var_G))));
    let nizk = NISigmaProtocol::new(IV, SchnorrProof(relation.clone()));
    assert_eq!(
        nizk.prove_batchable(&vec![Scalar::zero()], &mut rng),
        Err(Error::InvalidInstanceWitnessPair)
    );
    assert_eq!(
        nizk.prove_compact(&vec![Scalar::zero()], &mut rng),
        Err(Error::InvalidInstanceWitnessPair)
    );
    assert_eq!(
        nizk.sigmap.prover_commit(&vec![Scalar::zero()], &mut rng),
        Err(Error::InvalidInstanceWitnessPair)
    );

    // Two equations, both with the identity as image.
    relation.set_element(var_Y, Element::identity());
    relation.append_equation(var_Y, LinearCombination::from(Term::from((var_x, var_G))));
    let nizk = NISigmaProtocol::new(IV, SchnorrProof(relation));
    assert_eq!(
        nizk.prove(&vec![Scalar::zero()], &mut rng),
        Err(Error::InvalidInstanceWitnessPair)
    );

    // A statement without equations is trivial too.
    let mut empty = LinearRelation::new();
    empty.allocate_scalar();
    let nizk = NISigmaProtocol::new(IV, SchnorrProof(empty));
    assert_eq!(
        nizk.prove(&vec![Scalar::one()], &mut rng),
        Err(Error::InvalidInstanceWitnessPair)
    );
}

#[test]
fn one_image_that_is_not_the_identity_makes_the_statement_provable() {
    let mut rng = OsRng;
    let x = Scalar::random(&mut rng);
    let mut relation = LinearRelation::new();
    let [var_x, var_zero] = relation.allocate_scalars::<2>();
    let [var_G, var_X, var_Y] = relation.allocate_elements::<3>();
    relation.set_elements(&[
        (var_G, generator()),
        (var_X, Element::identity()),
        (var_Y, generator().scale(&x)),
    ]);
    relation.append_equation(var_X, LinearCombination::from(Term::from((var_zero, var_G))));
    relation.append_equation(var_Y, LinearCombination::from(Term::from((var_x, var_G))));
    let nizk = NISigmaProtocol::new(IV, SchnorrProof(relation));
    let proof = nizk.prove_batchable(&vec![x, Scalar::zero()], &mut rng).unwrap();
    assert_eq!(nizk.verify_batchable(&proof), Ok(()));
}

#[test]
fn unassigned_variables_are_reported() {
    let mut rng = OsRng;
    let mut relation = LinearRelation::new();
    let var_x = relation.allocate_scalar();
    let [var_G, var_X] = relation.allocate_elements::<2>();
    relation.append_equation(var_X, LinearCombination::from(Term::from((var_x, var_G))));
    let x = Scalar::random(&mut rng);
    let T = generator();

    // Nothing is assigned: the prover reads the image first, the verifier
    // the combinations.
    let protocol = SchnorrProof(relation.clone());
    assert_eq!(
        protocol.prover_commit(&vec![x], &mut rng),
        Err(Error::UnassignedGroupVar { var: var_X })
    );
    assert_eq!(
        protocol.verify(&vec![T], &x, &vec![x]),
        Err(Error::UnassignedGroupVar { var: var_G })
    );
    assert_eq!(
        protocol.simulate_commitment(&x, &vec![x]),
        Err(Error::UnassignedGroupVar { var: var_G })
    );
    assert_eq!(
        protocol.simulate_transcript(&mut rng),
        Err(Error::UnassignedGroupVar { var: var_G })
    );

    // Only the image is assigned.
    relation.set_element(var_X, generator().scale(&x));
    let nizk = NISigmaProtocol::new(IV, SchnorrProof(relation.clone()));
    assert_eq!(
        nizk.prove_batchable(&vec![x], &mut rng),
        Err(Error::UnassignedGroupVar { var: var_G })
    );
    assert_eq!(
        nizk.verify_batchable(&[T.to_bytes().as_slice(), x.to_bytes().as_slice()].concat()),
        Err(Error::UnassignedGroupVar { var: var_G })
    );

    // Only the base is assigned.
    let mut relation = LinearRelation::new();
    let var_x = relation.allocate_scalar();
    let [var_G, var_X] = relation.allocate_elements::<2>();
    relation.append_equation(var_X, LinearCombination::from(Term::from((var_x, var_G))));
    relation.set_element(var_G, generator());
    let protocol = SchnorrProof(relation);
    assert_eq!(
        protocol.verify(&vec![T], &x, &vec![x]),
        Err(Error::UnassignedGroupVar { var: var_X })
    );
    assert_eq!(
        protocol.get_commitment(&x, &vec![x]),
        Err(Error::UnassignedGroupVar { var: var_X })
    );
}

#[test]
fn simulated_transcripts_verify() {
    let mut rng = OsRng;
    let (relation, _) = dleq(&mut rng);
    let protocol = SchnorrProof(relation);

    let response = protocol.simulate_response(&mut rng);
    assert_eq!(response.len(), 1);
    assert_ne!(protocol.simulate_response(&mut rng), response);

    let challenge = Scalar::random(&mut rng);
    let commitment = protocol.simulate_commitment(&challenge, &response).unwrap();
    assert_eq!(commitment.len(), 2);
    assert_eq!(protocol.verify(&commitment, &challenge, &response), Ok(()));

    let (commitment, challenge, response) = protocol.simulate_transcript(&mut rng).unwrap();
    assert_eq!(protocol.verify(&commitment, &challenge, &response), Ok(()));

    assert_eq!(
        protocol.simulate_commitment(&challenge, &vec![]),
        Err(Error::InvalidInstanceWitnessPair)
    );
}

#[test]
fn simulated_responses_are_sampled_entry_by_entry() {
    let mut rng = OsRng;
    let mut relation = LinearRelation::new();
    relation.allocate_scalars::<4>();
    let response = SchnorrProof(relation).simulate_response(&mut rng);
    assert_eq!(response.len(), 4);
    for i in 0..4 {
        for j in 0..i {
            assert_ne!(response[i], response[j]);
        }
    }
}

#[test]
fn simulated_commitment_is_the_image_of_the_response_minus_the_scaled_image() {
    let mut rng = OsRng;
    let (relation, _) = discrete_log(&mut rng);
    let X = relation.image().unwrap()[0];
    let protocol = SchnorrProof(relation);
    let c = Scalar::random(&mut rng);
    let z = Scalar::random(&mut rng);
    assert_eq!(
        protocol.simulate_commitment(&c, &vec![z]),
        Ok(vec![generator().scale(&z).minus(&X.scale(&c))])
    );
}

#[test]
fn compact_and_batchable_forms_carry_the_same_proof() {
    let mut rng = OsRng;
    let (relation, witness) = dleq(&mut rng);
    let nizk = NISigmaProtocol::new(IV, SchnorrProof(relation));
    let (commitment, challenge, response) = nizk.prove(&witness, &mut rng).unwrap();

    let batchable = nizk.sigmap.serialize_batchable(&commitment, &challenge, &response).unwrap();
    let compact = nizk.sigmap.serialize_compact(&commitment, &challenge, &response).unwrap();
    assert_eq!(nizk.verify_batchable(&batchable), Ok(()));
    assert_eq!(nizk.verify_compact(&compact), Ok(()));

    let (read_challenge, read_response) = nizk.sigmap.deserialize_compact(&compact).unwrap();
    assert_eq!(nizk.sigmap.get_commitment(&read_challenge, &read_response), Ok(commitment.clone()));
    let (read_commitment, from_batchable) = nizk.sigmap.deserialize_batchable(&batchable).unwrap();
    assert_eq!(read_commitment, commitment);
    assert_eq!(from_batchable, read_response);
    assert_eq!(batchable[96..], compact[32..]);
}

#[test]
fn proofs_are_determined_by_witness_and_nonces() {
    let mut rng = OsRng;
    let (relation, witness) = dleq(&mut rng);
    let nizk = NISigmaProtocol::new(IV, SchnorrProof(relation));
    let nonces = vec![Scalar::random(&mut rng)];
    let first = nizk.prove_with_nonces(&witness, nonces.clone()).unwrap();
    let second = nizk.prove_with_nonces(&witness, nonces.clone()).unwrap();
    assert_eq!(first, second);
    assert_eq!(nizk.verify(&first.0, &first.1, &first.2), Ok(()));
    let other = nizk.prove_with_nonces(&witness, vec![nonces[0].plus(&Scalar::one())]).unwrap();
    assert_ne!(other.0, first.0);
    assert_ne!(other.1, first.1);
}

#[test]
fn template_absorbs_vector_name_and_label() {
    let mut rng = OsRng;
    let (relation, witness) = discrete_log(&mut rng);
    let label = relation.label();
    let nizk = NISigmaProtocol::new(IV, SchnorrProof(relation));
    assert_eq!(nizk.sigmap.protocol_identifier(), b"SchnorrProof".to_vec());
    assert_eq!(nizk.sigmap.instance_label(), label);

    let (commitment, challenge, _) = nizk.prove(&witness, &mut rng).unwrap();
    let mut codec = ByteSchnorrCodec::new(IV);
    let expected = codec
        .prover_message(b"SchnorrProof")
        .prover_message(&label)
        .prover_message(&commitment[0].to_bytes())
        .verifier_challenge();
    assert_eq!(challenge, expected);
}

#[test]
fn lengths_of_the_messages() {
    let mut rng = OsRng;
    let (relation, _) = dleq(&mut rng);
    let protocol = SchnorrProof::from(relation);
    assert_eq!(protocol.witness_length(), 1);
    assert_eq!(protocol.commitment_length(), 2);
    assert_eq!(protocol.0.commit_bytes_len(), 96);
}

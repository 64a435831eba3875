#![allow(non_snake_case)]

use bls12_381::{G1Affine, G1Projective};
use group::Group;
use rand::rngs::OsRng;

use sigma_rs::element::Element;
use sigma_rs::fiat_shamir::NISigmaProtocol;
use sigma_rs::field::Scalar;
use sigma_rs::linear_relation::{msm_pr, LinearCombination, LinearRelation, Term};
use sigma_rs::schnorr_protocol::SchnorrProof;

fn element(p: G1Projective) -> Element {
    Element::from_bytes(&G1Affine::from(p).to_compressed()).unwrap()
}

fn generator() -> Element {
    element(G1Projective::generator())
}

fn random_element(rng: &mut OsRng) -> Element {
    element(G1Projective::random(rng))
}

fn terms(pairs: &[(sigma_rs::linear_relation::ScalarVar, sigma_rs::linear_relation::GroupVar)]) -> LinearCombination {
    LinearCombination::from(pairs.iter().map(|&pair| Term::from(pair)).collect::<Vec<Term>>())
}

fn discrete_logarithm(rng: &mut OsRng) -> (LinearRelation, Vec<Scalar>) {
    let mut morphismp = LinearRelation::new();

    let [var_x] = morphismp.allocate_scalars::<1>();
    let [var_G, var_X] = morphismp.allocate_elements::<2>();
    morphismp.append_equation(var_X, terms(&[(var_x, var_G)]));

    let G = generator();
    morphismp.set_elements(&[(var_G, G)]);

    let x = Scalar::random(rng);
    let X = G.scale(&x);
    assert!(vec![X] == morphismp.linear_map.evaluate(&[x]).unwrap());

    morphismp.set_elements(&[(var_X, X)]);
    (morphismp, vec![x])
}

fn dleq(rng: &mut OsRng) -> (LinearRelation, Vec<Scalar>) {
    let mut morphismp = LinearRelation::new();

    let G = generator();
    let H = random_element(rng);
    let x = Scalar::random(rng);
    let X = G.scale(&x);
    let Y = H.scale(&x);

    let [var_x] = morphismp.allocate_scalars::<1>();
    let [var_G, var_H, var_X, var_Y] = morphismp.allocate_elements::<4>();
    morphismp.set_elements(&[(var_G, G), (var_H, H), (var_X, X), (var_Y, Y)]);
    morphismp.append_equation(var_X, terms(&[(var_x, var_G)]));
    morphismp.append_equation(var_Y, terms(&[(var_x, var_H)]));

    assert!(vec![X, Y] == morphismp.linear_map.evaluate(&[x]).unwrap());
    (morphismp, vec![x])
}

fn pedersen_commitment(rng: &mut OsRng) -> (LinearRelation, Vec<Scalar>) {
    let mut morphismp = LinearRelation::new();

    let G = generator();
    let H = random_element(rng);
    let x = Scalar::random(rng);
    let r = Scalar::random(rng);
    let witness = vec![x, r];

    let C = G.scale(&x).plus(&H.scale(&r));

    let [var_x, var_r] = morphismp.allocate_scalars::<2>();
    let [var_G, var_H, var_C] = morphismp.allocate_elements::<3>();
    morphismp.set_elements(&[(var_H, H), (var_G, G), (var_C, C)]);
    morphismp.append_equation(var_C, terms(&[(var_x, var_G), (var_r, var_H)]));

    assert!(vec![C] == morphismp.linear_map.evaluate(&witness).unwrap());
    (morphismp, witness)
}

fn pedersen_commitment_dleq(rng: &mut OsRng) -> (LinearRelation, Vec<Scalar>) {
    let mut morphismp = LinearRelation::new();

    let mut generators = Vec::<Element>::new();
    generators.push(random_element(rng));
    generators.push(random_element(rng));
    generators.push(random_element(rng));
    generators.push(random_element(rng));

    let mut witness = Vec::<Scalar>::new();
    witness.push(Scalar::random(rng));
    witness.push(Scalar::random(rng));

    let X = msm_pr(&witness, &[generators[0], generators[1]]);
    let Y = msm_pr(&witness, &[generators[2], generators[3]]);

    let [var_x, var_r] = morphismp.allocate_scalars::<2>();
    let var_Gs = morphismp.allocate_elements::<4>();
    let [var_X, var_Y] = morphismp.allocate_elements::<2>();

    morphismp.set_elements(&[
        (var_Gs[0], generators[0]),
        (var_Gs[1], generators[1]),
        (var_Gs[2], generators[2]),
        (var_Gs[3], generators[3]),
    ]);
    morphismp.set_elements(&[(var_X, X), (var_Y, Y)]);

    morphismp.append_equation(var_X, terms(&[(var_x, var_Gs[0]), (var_r, var_Gs[1])]));
    morphismp.append_equation(var_Y, terms(&[(var_x, var_Gs[2]), (var_r, var_Gs[3])]));

    assert!(vec![X, Y] == morphismp.linear_map.evaluate(&witness).unwrap());
    (morphismp, witness)
}

fn bbs_blind_commitment_computation(rng: &mut OsRng) -> (LinearRelation, Vec<Scalar>) {
    let mut morphismp = LinearRelation::new();

    // BBS.create_generators(M + 1, "BLIND_" || api_id), with M = 3 committed messages
    let (Q_2, J_1, J_2, J_3) = (
        random_element(rng),
        random_element(rng),
        random_element(rng),
        random_element(rng),
    );
    // BBS.messages_to_scalars(committed_messages, api_id)
    let (msg_1, msg_2, msg_3) = (Scalar::random(rng), Scalar::random(rng), Scalar::random(rng));

    let secret_prover_blind = Scalar::random(rng);
    let C = Q_2
        .scale(&secret_prover_blind)
        .plus(&J_1.scale(&msg_1))
        .plus(&J_2.scale(&msg_2))
        .plus(&J_3.scale(&msg_3));

    let [var_secret_prover_blind, var_msg_1, var_msg_2, var_msg_3] =
        morphismp.allocate_scalars::<4>();
    let [var_Q_2, var_J_1, var_J_2, var_J_3] = morphismp.allocate_elements::<4>();
    let [var_C] = morphismp.allocate_elements::<1>();
    morphismp.set_elements(&[
        (var_Q_2, Q_2),
        (var_J_1, J_1),
        (var_J_2, J_2),
        (var_J_3, J_3),
        (var_C, C),
    ]);

    morphismp.append_equation(
        var_C,
        terms(&[
            (var_secret_prover_blind, var_Q_2),
            (var_msg_1, var_J_1),
            (var_msg_2, var_J_2),
            (var_msg_3, var_J_3),
        ]),
    );

    let witness = vec![secret_prover_blind, msg_1, msg_2, msg_3];

    assert!(vec![C] == morphismp.linear_map.evaluate(&witness).unwrap());
    (morphismp, witness)
}

#[test]
fn test_discrete_logarithm() {
    let mut rng = OsRng;
    discrete_logarithm(&mut rng);
}

#[test]
fn test_dleq() {
    let mut rng = OsRng;
    dleq(&mut rng);
}

#[test]
fn test_pedersen_commitment() {
    let mut rng = OsRng;
    pedersen_commitment(&mut rng);
}

#[test]
fn test_pedersen_commitment_dleq() {
    let mut rng = OsRng;
    pedersen_commitment_dleq(&mut rng);
}

#[test]
fn test_bbs_blind_commitment_computation() {
    let mut rng = OsRng;
    bbs_blind_commitment_computation(&mut rng);
}

#[test]
fn NI_discrete_logarithm() {
    let mut rng = OsRng;
    let (morphismp, witness) = discrete_logarithm(&mut rng);

    let protocol = SchnorrProof(morphismp);
    let domain_sep = b"test-fiat-shamir-schnorr";
    let nizk = NISigmaProtocol::new(domain_sep, protocol);

    let proof_bytes = nizk.prove_batchable(&witness, &mut rng).unwrap();
    let verified = nizk.verify_batchable(&proof_bytes).is_ok();
    assert!(verified, "Fiat-Shamir Schnorr proof verification failed");
}

#[test]
fn NI_dleq() {
    let mut rng = OsRng;
    let (morphismp, witness) = dleq(&mut rng);

    let protocol = SchnorrProof(morphismp);
    let domain_sep = b"test-fiat-shamir-DLEQ";
    let nizk = NISigmaProtocol::new(domain_sep, protocol);

    let proof_bytes = nizk.prove_batchable(&witness, &mut rng).unwrap();
    let verified = nizk.verify_batchable(&proof_bytes).is_ok();
    assert!(verified, "DLEQ proof verification failed");
}

#[test]
fn NI_pedersen_commitment() {
    let mut rng = OsRng;
    let (morphismp, witness) = pedersen_commitment(&mut rng);

    let protocol = SchnorrProof(morphismp);
    let domain_sep = b"test-fiat-shamir-pedersen-commitment";
    let nizk = NISigmaProtocol::new(domain_sep, protocol);

    let proof_bytes = nizk.prove_batchable(&witness, &mut rng).unwrap();
    let verified = nizk.verify_batchable(&proof_bytes).is_ok();
    assert!(verified, "DLEQ proof verification failed");
}

#[test]
fn NI_pedersen_commitment_dleq() {
    let mut rng = OsRng;
    let (morphismp, witness) = pedersen_commitment_dleq(&mut rng);

    let protocol = SchnorrProof(morphismp);
    let domain_sep = b"test-fiat-shamir-pedersen-commitment-DLEQ";
    let nizk = NISigmaProtocol::new(domain_sep, protocol);

    let proof_bytes = nizk.prove_batchable(&witness, &mut rng).unwrap();
    let verified = nizk.verify_batchable(&proof_bytes).is_ok();
    assert!(verified, "DLEQ proof verification failed");
}

#[test]
fn NI_bbs_blind_commitment_computation() {
    let mut rng = OsRng;
    let (morphismp, witness) = bbs_blind_commitment_computation(&mut rng);

    let protocol = SchnorrProof(morphismp);
    let domain_sep = b"test-fiat-shamir-bbs-blind-commitment-computation";
    let nizk = NISigmaProtocol::new(domain_sep, protocol);

    let proof_bytes = nizk.prove_batchable(&witness, &mut rng).unwrap();
    let verified = nizk.verify_batchable(&proof_bytes).is_ok();
    assert!(verified, "DLEQ proof verification failed");
}

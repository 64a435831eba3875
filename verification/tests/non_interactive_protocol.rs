#![allow(non_snake_case)]

use bls12_381::{G1Affine, G1Projective};
use group::Group;
use rand::rngs::OsRng;

use sigma_rs::element::Element;
use sigma_rs::fiat_shamir::NISigmaProtocol;
use sigma_rs::field::Scalar;
use sigma_rs::linear_relation::{LinearCombination, LinearRelation, Term};
use sigma_rs::schnorr_protocol::SchnorrProof;

#[test]
fn fiat_shamir_schnorr_proof_ristretto() {
    // Setup
    let mut rng = OsRng;
    let domain_sep = b"test-fiat-shamir-schnorr";

    // Create a Schnorr statement: H = G * w
    let G = Element::from_bytes(&G1Affine::from(G1Projective::random(&mut rng)).to_compressed())
        .unwrap();
    let w = Scalar::random(&mut rng);
    let H = G.scale(&w);

    let mut morphismp = LinearRelation::new();

    // Scalars and Points bases settings
    let [var_w] = morphismp.allocate_scalars::<1>();
    let [var_G, var_H] = morphismp.allocate_elements::<2>();
    morphismp.set_elements(&[(var_G, G), (var_H, H)]);

    // Set the witness Vec
    let mut witness = Vec::new();
    witness.push(w);

    // The H = z * G equation where z is the unique scalar variable
    morphismp.append_equation(var_H, LinearCombination::from(Term::from((var_w, var_G))));

    // The SigmaProtocol induced by morphismp
    let protocol = SchnorrProof(morphismp);

    // Fiat-Shamir wrapper
    let nizk = NISigmaProtocol::new(domain_sep, protocol);

    // Prove
    let proof_bytes = nizk.prove_batchable(&witness, &mut rng).unwrap();

    // Verify
    let verified = nizk.verify_batchable(&proof_bytes).is_ok();

    assert!(verified, "Fiat-Shamir Schnorr proof verification failed");
}

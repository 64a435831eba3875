#![allow(non_snake_case)]

use bls12_381::{G1Affine, G1Projective};
use group::Group;
use rand::rngs::OsRng;

use sigma_rs::element::Element;
use sigma_rs::errors::Error;
use sigma_rs::fiat_shamir::NISigmaProtocol;
use sigma_rs::field::Scalar;
use sigma_rs::linear_relation::{GroupVar, ScalarVar, Term};
use sigma_rs::proof_builder::ProofBuilder;
use sigma_rs::schnorr_protocol::SchnorrProof;

fn random_element(rng: &mut OsRng) -> Element {
    Element::from_bytes(&G1Affine::from(G1Projective::random(rng)).to_compressed()).unwrap()
}

#[test]
fn builder_proves_the_statement_as_it_stands() {
    let mut rng = OsRng;
    let G = random_element(&mut rng);
    let H = random_element(&mut rng);
    let x = Scalar::random(&mut rng);
    let r = Scalar::random(&mut rng);

    let mut builder = ProofBuilder::new(b"test-proof-builder");
    let scalars = builder.allocate_scalars(2);
    assert_eq!(scalars, vec![ScalarVar(0), ScalarVar(1)]);
    let elements = builder.allocate_elements(3);
    assert_eq!(elements, vec![GroupVar(0), GroupVar(1), GroupVar(2)]);
    assert_eq!(builder.allocate_elements(0), vec![]);
    builder.append_equation(elements[2], &[(scalars[0], elements[0]), (scalars[1], elements[1])]);
    assert_eq!(builder.image(), Err(Error::UnassignedGroupVar { var: elements[2] }));
    let C = G.scale(&x).plus(&H.scale(&r));
    builder.set_elements(&[(elements[0], G), (elements[1], H), (elements[2], C)]);
    assert_eq!(builder.image(), Ok(vec![C]));
    assert_eq!(
        builder.protocol.sigmap.0.linear_map.constraints[0].terms(),
        &[Term::from((scalars[0], elements[0])), Term::from((scalars[1], elements[1]))]
    );

    let proof = builder.prove(&[x, r], &mut rng).unwrap();
    assert_eq!(builder.verify(&proof), Ok(()));
    let compact = builder.prove_compact(&[x, r], &mut rng).unwrap();
    assert_eq!(builder.verify_compact(&compact), Ok(()));
    assert_eq!(builder.verify(&compact), Err(Error::VerificationFailure));
    assert_eq!(builder.prove(&[x], &mut rng), Err(Error::InvalidInstanceWitnessPair));

    // The builder's transcript is the one of a wrapper made for the finished
    // statement.
    let wrapper = NISigmaProtocol::new(
        b"test-proof-builder",
        SchnorrProof(builder.protocol.sigmap.0.clone()),
    );
    assert_eq!(wrapper.verify_batchable(&proof), Ok(()));
    assert_eq!(wrapper.verify_compact(&compact), Ok(()));
    let other = NISigmaProtocol::new(b"test", SchnorrProof(builder.protocol.sigmap.0.clone()));
    assert_eq!(other.verify_batchable(&proof), Err(Error::VerificationFailure));
}

#[test]
fn proofs_made_before_an_equation_is_added_no_longer_verify() {
    let mut rng = OsRng;
    let G = random_element(&mut rng);
    let x = Scalar::random(&mut rng);

    let mut builder = ProofBuilder::new(b"test-proof-builder");
    let scalars = builder.allocate_scalars(1);
    let elements = builder.allocate_elements(3);
    builder.set_elements(&[(elements[0], G), (elements[1], G.scale(&x))]);
    builder.append_equation(elements[1], &[(scalars[0], elements[0])]);
    let proof = builder.prove(&[x], &mut rng).unwrap();
    assert_eq!(builder.verify(&proof), Ok(()));

    builder.set_elements(&[(elements[2], G.scale(&x))]);
    builder.append_equation(elements[2], &[(scalars[0], elements[0])]);
    assert_eq!(builder.verify(&proof), Err(Error::VerificationFailure));
    let proof = builder.prove(&[x], &mut rng).unwrap();
    assert_eq!(proof.len(), 2 * 48 + 32);
    assert_eq!(builder.verify(&proof), Ok(()));
}

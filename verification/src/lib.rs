//! Zero-knowledge proofs of knowledge for linear relations over the BLS12-381
//! group G1: a symbolic relation builder, the generalized Schnorr protocol that
//! it drives, and the Fiat-Shamir transform over a Keccak duplex sponge.

pub mod algebra;
pub mod codec;
pub mod duplex_sponge;
pub mod element;
pub mod errors;
pub mod fiat_shamir;
pub mod field;
pub mod linear_relation;
pub mod proof_builder;
pub mod schnorr_protocol;
pub mod serialization;
pub mod theorems;

pub use linear_relation::LinearRelation;

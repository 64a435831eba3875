//! A builder that keeps a relation, the Schnorr protocol for it and its
//! Fiat-Shamir transform in one place: variables are allocated, equations
//! appended and elements assigned on the builder, and proofs are made and
//! checked for the statement as it stands.

use rand::rngs::OsRng;
use vstd::prelude::*;
use vstd::slice::slice_to_vec;

use crate::codec::ByteSchnorrCodec;
use crate::element::Element;
use crate::errors::Error;
use crate::fiat_shamir::{template, NISigmaProtocol};
use crate::field::Scalar;
use crate::linear_relation::{
    assignable_all, assigned_all, GroupVar, LinearCombination, LinearRelation, ScalarVar, Term,
};
use crate::schnorr_protocol::SchnorrProof;

verus! {

/// The terms that a list of pairs of variables stands for.
pub open spec fn terms_of(pairs: Seq<(ScalarVar, GroupVar)>) -> Seq<Term> {
    Seq::new(pairs.len(), |k: int| Term { scalar: pairs[k].0, elem: pairs[k].1 })
}

/// A statement under construction, with the protocol that proves it.
pub struct ProofBuilder {
    /// The non-interactive protocol for the statement as it stands.
    pub protocol: NISigmaProtocol,
    /// The domain separator that the transcript of every proof starts with.
    pub domain_sep: Vec<u8>,
}

impl ProofBuilder {
    /// The builder's invariant: the relation has one image variable per
    /// combination, and the codec has absorbed the label of the statement as
    /// it stands.
    pub open spec fn wf(&self) -> bool {
        &&& self.protocol.sigmap.0.balanced()
        &&& self.protocol.hash_state@ == template(
            self.domain_sep@,
            self.protocol.sigmap.0.spec_label(),
        )
    }

    /// A builder for an empty statement.
    pub fn new(domain_sep: &[u8]) -> (builder: ProofBuilder)
        ensures
            builder.wf(),
            builder.domain_sep@ == domain_sep@,
            builder.protocol.sigmap.0.wf(),
            builder.protocol.sigmap.0.image@.len() == 0,
            builder.protocol.sigmap.0.linear_map.num_scalars == 0,
            builder.protocol.sigmap.0.linear_map.num_elements == 0,
    {
        let protocol = NISigmaProtocol::new(domain_sep, SchnorrProof(LinearRelation::new()));
        ProofBuilder { protocol, domain_sep: slice_to_vec(domain_sep) }
    }

    /// Adds the equation `lhs = sum of scalar * element` over the pairs.
    pub fn append_equation(&mut self, lhs: GroupVar, rhs: &[(ScalarVar, GroupVar)])
        requires
            old(self).wf(),
        ensures
            final(self).wf(),
            final(self).domain_sep@ == old(self).domain_sep@,
            final(self).protocol.sigmap.0.image@ == old(self).protocol.sigmap.0.image@.push(lhs),
            final(self).protocol.sigmap.0.linear_map.constraints@.len() == old(
                self,
            ).protocol.sigmap.0.linear_map.constraints@.len() + 1,
            final(self).protocol.sigmap.0.linear_map.constraints@.last()@ == terms_of(rhs@),
            final(self).protocol.sigmap.0.linear_map.constraints@.drop_last() == old(
                self,
            ).protocol.sigmap.0.linear_map.constraints@,
            final(self).protocol.sigmap.0.linear_map.group_elements == old(
                self,
            ).protocol.sigmap.0.linear_map.group_elements,
            final(self).protocol.sigmap.0.linear_map.num_scalars == old(
                self,
            ).protocol.sigmap.0.linear_map.num_scalars,
            final(self).protocol.sigmap.0.linear_map.num_elements == old(
                self,
            ).protocol.sigmap.0.linear_map.num_elements,
    {
        let mut terms: Vec<Term> = Vec::new();
        let mut k: usize = 0;
        while k < rhs.len()
            invariant
                k <= rhs@.len(),
                terms@ == terms_of(rhs@).take(k as int),
            decreases rhs@.len() - k,
        {
            let (scalar, elem) = rhs[k];
            terms.push(Term { scalar, elem });
            assert(terms@ =~= terms_of(rhs@).take(k as int + 1));
            k += 1;
        }
        assert(terms@ =~= terms_of(rhs@));
        let ghost before = self.protocol.sigmap.0.linear_map.constraints@;
        self.protocol.sigmap.0.append_equation(lhs, LinearCombination(terms));
        assert(self.protocol.sigmap.0.linear_map.constraints@.drop_last() =~= before);
        let mut hash_state = ByteSchnorrCodec::new(self.domain_sep.as_slice());
        let name = self.protocol.sigmap.protocol_identifier();
        let label = self.protocol.sigmap.instance_label();
        hash_state.prover_message(name.as_slice()).prover_message(label.as_slice());
        self.protocol.hash_state = hash_state;
    }

    /// Allocates `n` scalar variables: the next `n` indices, in order.
    pub fn allocate_scalars(&mut self, n: usize) -> (vars: Vec<ScalarVar>)
        requires
            old(self).protocol.sigmap.0.linear_map.num_scalars + n <= usize::MAX,
        ensures
            vars@.len() == n,
            forall|i: int|
                0 <= i < n ==> #[trigger] vars@[i] == ScalarVar(
                    (old(self).protocol.sigmap.0.linear_map.num_scalars + i) as usize,
                ),
            final(self).protocol.sigmap.0.linear_map.num_scalars == old(
                self,
            ).protocol.sigmap.0.linear_map.num_scalars + n,
            final(self).protocol.sigmap.0.linear_map.num_elements == old(
                self,
            ).protocol.sigmap.0.linear_map.num_elements,
            final(self).protocol.sigmap.0.linear_map.constraints == old(
                self,
            ).protocol.sigmap.0.linear_map.constraints,
            final(self).protocol.sigmap.0.linear_map.group_elements == old(
                self,
            ).protocol.sigmap.0.linear_map.group_elements,
            final(self).protocol.sigmap.0.image == old(self).protocol.sigmap.0.image,
            final(self).protocol.hash_state == old(self).protocol.hash_state,
            final(self).domain_sep@ == old(self).domain_sep@,
    {
        let ghost start = self.protocol.sigmap.0.linear_map.num_scalars;
        let mut vars: Vec<ScalarVar> = Vec::new();
        let mut i: usize = 0;
        while i < n
            invariant
                i <= n,
                start + n <= usize::MAX,
                vars@.len() == i,
                self.protocol.sigmap.0.linear_map.num_scalars == start + i,
                forall|k: int| 0 <= k < i ==> #[trigger] vars@[k] == ScalarVar((start + k) as usize),
                self.protocol.sigmap.0.linear_map.num_elements == old(
                    self,
                ).protocol.sigmap.0.linear_map.num_elements,
                self.protocol.sigmap.0.linear_map.constraints == old(
                    self,
                ).protocol.sigmap.0.linear_map.constraints,
                self.protocol.sigmap.0.linear_map.group_elements == old(
                    self,
                ).protocol.sigmap.0.linear_map.group_elements,
                self.protocol.sigmap.0.image == old(self).protocol.sigmap.0.image,
                self.protocol.hash_state == old(self).protocol.hash_state,
                self.domain_sep@ == old(self).domain_sep@,
            decreases n - i,
        {
            vars.push(self.protocol.sigmap.0.allocate_scalar());
            i += 1;
        }
        vars
    }

    /// Allocates `n` group variables: the next `n` indices, in order.
    pub fn allocate_elements(&mut self, n: usize) -> (vars: Vec<GroupVar>)
        requires
            old(self).protocol.sigmap.0.linear_map.num_elements + n <= usize::MAX,
        ensures
            vars@.len() == n,
            forall|i: int|
                0 <= i < n ==> #[trigger] vars@[i] == GroupVar(
                    (old(self).protocol.sigmap.0.linear_map.num_elements + i) as usize,
                ),
            final(self).protocol.sigmap.0.linear_map.num_elements == old(
                self,
            ).protocol.sigmap.0.linear_map.num_elements + n,
            final(self).protocol.sigmap.0.linear_map.num_scalars == old(
                self,
            ).protocol.sigmap.0.linear_map.num_scalars,
            final(self).protocol.sigmap.0.linear_map.constraints == old(
                self,
            ).protocol.sigmap.0.linear_map.constraints,
            final(self).protocol.sigmap.0.linear_map.group_elements == old(
                self,
            ).protocol.sigmap.0.linear_map.group_elements,
            final(self).protocol.sigmap.0.image == old(self).protocol.sigmap.0.image,
            final(self).protocol.hash_state == old(self).protocol.hash_state,
            final(self).domain_sep@ == old(self).domain_sep@,
    {
        let ghost start = self.protocol.sigmap.0.linear_map.num_elements;
        let mut vars: Vec<GroupVar> = Vec::new();
        let mut i: usize = 0;
        while i < n
            invariant
                i <= n,
                start + n <= usize::MAX,
                vars@.len() == i,
                self.protocol.sigmap.0.linear_map.num_elements == start + i,
                forall|k: int| 0 <= k < i ==> #[trigger] vars@[k] == GroupVar((start + k) as usize),
                self.protocol.sigmap.0.linear_map.num_scalars == old(
                    self,
                ).protocol.sigmap.0.linear_map.num_scalars,
                self.protocol.sigmap.0.linear_map.constraints == old(
                    self,
                ).protocol.sigmap.0.linear_map.constraints,
                self.protocol.sigmap.0.linear_map.group_elements == old(
                    self,
                ).protocol.sigmap.0.linear_map.group_elements,
                self.protocol.sigmap.0.image == old(self).protocol.sigmap.0.image,
                self.protocol.hash_state == old(self).protocol.hash_state,
                self.domain_sep@ == old(self).domain_sep@,
            decreases n - i,
        {
            vars.push(self.protocol.sigmap.0.allocate_element());
            i += 1;
        }
        vars
    }

    /// Assigns elements to group variables, in order.
    pub fn set_elements(&mut self, elements: &[(GroupVar, Element)])
        requires
            assignable_all(old(self).protocol.sigmap.0.linear_map.group_elements@, elements@),
        ensures
            final(self).protocol.sigmap.0.linear_map.group_elements@ == assigned_all(
                old(self).protocol.sigmap.0.linear_map.group_elements@,
                elements@,
            ),
            final(self).protocol.sigmap.0.linear_map.num_elements == old(
                self,
            ).protocol.sigmap.0.linear_map.num_elements,
            final(self).protocol.sigmap.0.linear_map.num_scalars == old(
                self,
            ).protocol.sigmap.0.linear_map.num_scalars,
            final(self).protocol.sigmap.0.linear_map.constraints == old(
                self,
            ).protocol.sigmap.0.linear_map.constraints,
            final(self).protocol.sigmap.0.image == old(self).protocol.sigmap.0.image,
            final(self).protocol.hash_state == old(self).protocol.hash_state,
            final(self).domain_sep@ == old(self).domain_sep@,
    {
        self.protocol.sigmap.0.set_elements(elements);
    }

    /// The elements assigned to the image variables, in order, or the first
    /// image variable that has none.
    pub fn image(&self) -> (r: Result<Vec<Element>, Error>)
        ensures
            match self.protocol.sigmap.0.image_missing() {
                Some(var) => r matches Err(e) && e == (Error::UnassignedGroupVar { var }),
                None => r matches Ok(out) && out@ == self.protocol.sigmap.0.image_elements(),
            },
    {
        self.protocol.sigmap.0.image()
    }

    /// A proof for `witness` in batchable form.
    pub fn prove(&self, witness: &[Scalar], rng: &mut OsRng) -> (r: Result<Vec<u8>, Error>)
        requires
            self.protocol.sigmap.0.wf(),
        ensures
            self.protocol.proved_batchable(witness@, r),
    {
        let witness_tmp = slice_to_vec(witness);
        self.protocol.prove_batchable(&witness_tmp, rng)
    }

    /// Checks a proof in batchable form.
    pub fn verify(&self, proof: &[u8]) -> (r: Result<(), Error>)
        requires
            self.protocol.sigmap.0.wf(),
        ensures
            r == self.protocol.verify_batchable_outcome(proof@),
    {
        self.protocol.verify_batchable(proof)
    }

    /// A proof for `witness` in compact form.
    pub fn prove_compact(&self, witness: &[Scalar], rng: &mut OsRng) -> (r: Result<Vec<u8>, Error>)
        requires
            self.protocol.sigmap.0.wf(),
        ensures
            self.protocol.proved_compact(witness@, r),
    {
        let witness_tmp = slice_to_vec(witness);
        self.protocol.prove_compact(&witness_tmp, rng)
    }

    /// Checks a proof in compact form.
    pub fn verify_compact(&self, proof: &[u8]) -> (r: Result<(), Error>)
        requires
            self.protocol.sigmap.0.wf(),
        ensures
            r == self.protocol.verify_compact_outcome(proof@),
    {
        self.protocol.verify_compact(proof)
    }
}

} // verus!

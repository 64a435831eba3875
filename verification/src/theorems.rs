//! What holds of the protocol for every relation, witness and choice of
//! nonces. The theorems that rest on the algebra of the group take
//! [`group_laws`] as their hypothesis.

use vstd::prelude::*;

use crate::algebra::{
    closed_under_operations, difference_cancels, group_laws, lemma_sum_exchange,
    product_is_linear_in_element, product_is_linear_in_scalar, sum_commutes,
};
use crate::element::{
    encodings, g1_difference, g1_product, g1_sum, g1_valid, identity_encoding, Element,
};
use crate::errors::Error;
use crate::fiat_shamir::{NISigmaProtocol, Transcript};
use crate::field::{field_add, field_mul, modulus, Scalar, SCALAR_LEN};
use crate::linear_relation::{
    coefficients, elements_of, elements_valid, elems_below, elems_of, equations_label,
    first_missing, missing_from, msm_prefix, scalars_below, scalars_valid, slot, slots_valid,
    unassigned_in, GroupVar, LinearCombination, LinearRelation,
};
use crate::schnorr_protocol::{
    batchable_bytes, compact_bytes, is_response, response_value, SchnorrProof,
};
use crate::serialization::{
    chunk, elements_bytes, lemma_elements_bytes, lemma_elements_round_trip, lemma_scalars_bytes,
    lemma_scalars_round_trip, scalars_bytes,
};

verus! {

/// A relation that a proof can be made for: it is well formed, and every
/// group variable that it names holds a group element.
pub open spec fn ready(p: SchnorrProof) -> bool {
    &&& p.0.wf()
    &&& p.0.linear_map.first_unassigned() is None
    &&& p.0.image_missing() is None
    &&& slots_valid(p.0.linear_map.group_elements@)
}

/// Where no variable at or after position `k` is missing, each of them is
/// assigned.
pub proof fn lemma_none_missing(vars: Seq<GroupVar>, slots: Seq<Option<Element>>, k: int, i: int)
    requires
        0 <= k <= i < vars.len(),
        missing_from(vars, slots, k) is None,
    ensures
        slot(slots, vars[i].index() as int) is Some,
    decreases i - k,
{
    if k < i {
        lemma_none_missing(vars, slots, k + 1, i);
    }
}

/// Where no combination at or after position `j` names an unassigned
/// variable, none of them does.
pub proof fn lemma_none_unassigned(
    constraints: Seq<LinearCombination>,
    slots: Seq<Option<Element>>,
    j: int,
    i: int,
)
    requires
        0 <= j <= i < constraints.len(),
        unassigned_in(constraints, slots, j) is None,
    ensures
        first_missing(elems_of(constraints[i]@), slots) is None,
    decreases i - j,
{
    if j < i {
        lemma_none_unassigned(constraints, slots, j + 1, i);
    }
}

/// A multi-scalar product of group elements is a group element.
pub proof fn lemma_msm_valid(scalars: Seq<Scalar>, bases: Seq<Element>, m: nat)
    requires
        group_laws(),
        m <= scalars.len(),
        m <= bases.len(),
        scalars_valid(scalars),
        elements_valid(bases),
    ensures
        g1_valid(msm_prefix(scalars, bases, m)),
    decreases m,
{
    if m > 0 {
        lemma_msm_valid(scalars, bases, (m - 1) as nat);
        let before = msm_prefix(scalars, bases, (m - 1) as nat);
        let base = bases[m - 1];
        let k = scalars[m - 1];
        assert(base.wf() && k.wf());
        assert(closed_under_operations(base@, base@, k@));
        assert(closed_under_operations(before, g1_product(base@, k@), 0));
    }
}

/// The multi-scalar product is linear in the scalars: where each `z` is
/// `r + c * w`, the product of the `z` is `c` times the product of the `w`,
/// plus the product of the `r`.
pub proof fn lemma_msm_response(
    c: nat,
    zs: Seq<Scalar>,
    ws: Seq<Scalar>,
    rs: Seq<Scalar>,
    bases: Seq<Element>,
    m: nat,
)
    requires
        group_laws(),
        c < modulus(),
        m <= bases.len(),
        zs.len() == bases.len(),
        ws.len() == bases.len(),
        rs.len() == bases.len(),
        scalars_valid(zs),
        scalars_valid(ws),
        scalars_valid(rs),
        elements_valid(bases),
        forall|i: int|
            0 <= i < zs.len() ==> (#[trigger] zs[i])@ == field_add(rs[i]@, field_mul(c, ws[i]@)),
    ensures
        msm_prefix(zs, bases, m) == g1_sum(
            g1_product(msm_prefix(ws, bases, m), c),
            msm_prefix(rs, bases, m),
        ),
    decreases m,
{
    let identity = identity_encoding();
    if m == 0 {
        assert(product_is_linear_in_element(identity, identity, c));
        assert(sum_commutes(identity, identity));
    } else {
        let n = (m - 1) as nat;
        lemma_msm_response(c, zs, ws, rs, bases, n);
        lemma_msm_valid(ws, bases, n);
        lemma_msm_valid(rs, bases, n);
        let base = bases[m - 1]@;
        let r = rs[m - 1]@;
        let w = ws[m - 1]@;
        assert(bases[m - 1].wf() && rs[m - 1].wf() && ws[m - 1].wf());
        assert(zs[m - 1]@ == field_add(r, field_mul(c, w)));
        let w_before = msm_prefix(ws, bases, n);
        let r_before = msm_prefix(rs, bases, n);
        let a = g1_product(w_before, c);
        let d = g1_product(base, r);
        let bw = g1_product(base, w);
        let e = g1_product(bw, c);
        assert(field_mul(c, w) == field_mul(w, c)) by {
            assert(c * w == w * c) by (nonlinear_arith);
        }
        assert(field_mul(c, w) < modulus());
        assert(closed_under_operations(w_before, w_before, c));
        assert(closed_under_operations(base, base, r));
        assert(closed_under_operations(base, base, w));
        assert(closed_under_operations(bw, bw, c));
        // base * (r + c*w) = base * r + (base * w) * c
        assert(product_is_linear_in_scalar(base, r, field_mul(c, w)));
        assert(product_is_linear_in_scalar(base, w, c));
        assert(g1_product(base, zs[m - 1]@) == g1_sum(d, e));
        // (w_before + base * w) * c = w_before * c + (base * w) * c
        assert(product_is_linear_in_element(w_before, bw, c));
        lemma_sum_exchange(a, r_before, d, e);
    }
}

/// Completeness of the interactive protocol: for a witness that satisfies
/// the relation, whatever the nonces and the challenge are, the verifier's
/// equation holds of the commitment to the nonces and the honest response.
pub proof fn theorem_honest_response_accepted(
    p: SchnorrProof,
    witness: Seq<Scalar>,
    nonces: Seq<Scalar>,
    challenge: nat,
    response: Seq<Scalar>,
)
    requires
        group_laws(),
        ready(p),
        p.0.satisfied_by(witness),
        witness.len() == p.witness_length(),
        nonces.len() == p.witness_length(),
        scalars_valid(witness),
        scalars_valid(nonces),
        challenge < modulus(),
        is_response(response, nonces, witness, challenge),
    ensures
        p.accepts(p.0.linear_map.values(nonces), challenge, response),
        scalars_valid(response),
{
    let map = p.0.linear_map;
    let slots = map.group_elements@;
    let commitment = map.values(nonces);
    let left = map.values(response);
    let right = p.expected(commitment, challenge);
    assert forall|j: int| 0 <= j < left.len() implies left[j] == right[j] by {
        let terms = map.constraints@[j]@;
        let bases = elements_of(elems_of(terms), slots);
        let zs = coefficients(terms, response);
        let ws = coefficients(terms, witness);
        let rs = coefficients(terms, nonces);
        lemma_none_unassigned(map.constraints@, slots, 0, j);
        assert forall|i: int| 0 <= i < bases.len() implies (#[trigger] bases[i]).wf() by {
            lemma_none_missing(elems_of(terms), slots, 0, i);
            let at = terms[i].elem.index() as int;
            assert(slots[at] is Some);
        }
        assert forall|i: int| 0 <= i < zs.len() implies (#[trigger] zs[i])@ == field_add(
            rs[i]@,
            field_mul(challenge, ws[i]@),
        ) by {
            let at = terms[i].scalar.index() as int;
            assert(response[at]@ == field_add(nonces[at]@, field_mul(challenge, witness[at]@)));
        }
        assert(scalars_valid(zs) && scalars_valid(ws) && scalars_valid(rs)) by {
            assert forall|i: int| 0 <= i < zs.len() implies (#[trigger] zs[i]).wf() && (
            #[trigger] ws[i]).wf() && (#[trigger] rs[i]).wf() by {
                let at = terms[i].scalar.index() as int;
                assert(response[at].wf() && witness[at].wf() && nonces[at].wf());
            }
        }
        lemma_msm_response(challenge, zs, ws, rs, bases, terms.len());
        assert(encodings(p.0.image_elements())[j] == map.values(witness)[j]);
    }
    assert(left =~= right);
}

/// Completeness of the non-interactive protocol, first half: for a witness
/// that satisfies the relation, every transcript of an honest prover
/// satisfies the verifier's equation, so that proving does not fail.
pub proof fn theorem_honest_transcript_accepted(
    nizk: NISigmaProtocol,
    witness: Seq<Scalar>,
    commitment: Seq<Seq<u8>>,
    challenge: nat,
    response: Seq<Scalar>,
)
    requires
        group_laws(),
        ready(nizk.sigmap),
        nizk.sigmap.0.satisfied_by(witness),
        witness.len() == nizk.sigmap.witness_length(),
        scalars_valid(witness),
        nizk.honest(witness, commitment, challenge, response),
    ensures
        nizk.sigmap.accepts(commitment, challenge, response),
        !nizk.rejected_run(witness, commitment, challenge, response),
        challenge < modulus(),
        scalars_valid(response),
        commitment.len() == nizk.sigmap.commitment_length(),
        response.len() == nizk.sigmap.witness_length(),
        forall|j: int| 0 <= j < commitment.len() ==> g1_valid(#[trigger] commitment[j]),
{
    let nonces = choose|nonces: Seq<Scalar>|
        scalars_valid(nonces) && #[trigger] nizk.is_transcript(
            witness,
            nonces,
            commitment,
            challenge,
            response,
        );
    theorem_honest_response_accepted(nizk.sigmap, witness, nonces, challenge, response);
    assert forall|j: int| 0 <= j < commitment.len() implies g1_valid(
        #[trigger] commitment[j],
    ) by {
        lemma_value_valid(nizk.sigmap, nonces, j);
    }
}

/// Completeness of the non-interactive protocol, second half: the
/// transcript of an honest prover for a satisfying witness is accepted as it
/// is and in batchable form.
pub proof fn theorem_completeness(
    nizk: NISigmaProtocol,
    witness: Seq<Scalar>,
    commitment: Seq<Element>,
    challenge: nat,
    response: Seq<Scalar>,
)
    requires
        group_laws(),
        ready(nizk.sigmap),
        nizk.sigmap.0.satisfied_by(witness),
        witness.len() == nizk.sigmap.witness_length(),
        scalars_valid(witness),
        nizk.honest(witness, encodings(commitment), challenge, response),
    ensures
        nizk.verify_outcome(encodings(commitment), challenge, response) == Ok::<(), Error>(()),
        nizk.verify_batchable_outcome(batchable_bytes(commitment, response)) == Ok::<(), Error>(
            (),
        ),
{
    let p = nizk.sigmap;
    theorem_honest_transcript_accepted(nizk, witness, encodings(commitment), challenge, response);
    assert(elements_valid(commitment)) by {
        assert forall|j: int| 0 <= j < commitment.len() implies (#[trigger] commitment[j]).wf() by {
            assert(encodings(commitment)[j] == commitment[j]@);
        }
    }
    theorem_batchable_round_trip(p, commitment, response, Seq::empty());
}

/// Completeness of the non-interactive protocol, in compact form: challenge
/// and response of an honest prover for a satisfying witness are accepted
/// without the commitment.
pub proof fn theorem_completeness_compact(
    nizk: NISigmaProtocol,
    witness: Seq<Scalar>,
    commitment: Seq<Seq<u8>>,
    challenge: Scalar,
    response: Seq<Scalar>,
)
    requires
        group_laws(),
        ready(nizk.sigmap),
        nizk.sigmap.0.satisfied_by(witness),
        witness.len() == nizk.sigmap.witness_length(),
        scalars_valid(witness),
        nizk.honest(witness, commitment, challenge@, response),
    ensures
        nizk.sigmap.simulated(challenge@, response) == commitment,
        nizk.verify_compact_outcome(compact_bytes(challenge, response)) == Ok::<(), Error>(()),
{
    theorem_honest_transcript_accepted(nizk, witness, commitment, challenge@, response);
    theorem_compact_round_trip(nizk.sigmap, challenge, response, Seq::empty());
    theorem_commitment_recovered(nizk.sigmap, commitment, challenge@, response);
}

/// Completeness of proving: for a witness that satisfies a relation that is
/// not trivial, `prove` returns a transcript, and the verifier accepts it.
pub proof fn theorem_proofs_verify(
    nizk: NISigmaProtocol,
    witness: Seq<Scalar>,
    r: Result<Transcript, Error>,
)
    requires
        group_laws(),
        ready(nizk.sigmap),
        !nizk.sigmap.trivial(),
        nizk.sigmap.0.satisfied_by(witness),
        witness.len() == nizk.sigmap.witness_length(),
        scalars_valid(witness),
        nizk.proved(witness, r),
    ensures
        r matches Ok(t) && nizk.verify_outcome(encodings(t.0@), t.1@, t.2@) == Ok::<(), Error>(()),
{
    lemma_no_proof_rejected(nizk, witness);
    let t = r->Ok_0;
    theorem_completeness(nizk, witness, t.0@, t.1@, t.2@);
}

/// Completeness in batchable form: for a witness that satisfies a relation
/// that is not trivial, `prove_batchable` returns a proof, and
/// `verify_batchable` accepts it.
pub proof fn theorem_batchable_proofs_verify(
    nizk: NISigmaProtocol,
    witness: Seq<Scalar>,
    r: Result<Vec<u8>, Error>,
)
    requires
        group_laws(),
        ready(nizk.sigmap),
        !nizk.sigmap.trivial(),
        nizk.sigmap.0.satisfied_by(witness),
        witness.len() == nizk.sigmap.witness_length(),
        scalars_valid(witness),
        nizk.proved_batchable(witness, r),
    ensures
        r matches Ok(proof) && nizk.verify_batchable_outcome(proof@) == Ok::<(), Error>(()),
{
    lemma_no_proof_rejected(nizk, witness);
    let proof = r->Ok_0;
    let (commitment, challenge, response) = choose|
        commitment: Seq<Element>,
        challenge: nat,
        response: Seq<Scalar>,
    |
        {
            &&& #[trigger] nizk.accepted_run(witness, encodings(commitment), challenge, response)
            &&& proof@ == batchable_bytes(commitment, response)
        };
    theorem_completeness(nizk, witness, commitment, challenge, response);
}

/// Completeness in compact form: for a witness that satisfies a relation
/// that is not trivial, `prove_compact` returns a proof, and
/// `verify_compact` accepts it.
pub proof fn theorem_compact_proofs_verify(
    nizk: NISigmaProtocol,
    witness: Seq<Scalar>,
    r: Result<Vec<u8>, Error>,
)
    requires
        group_laws(),
        ready(nizk.sigmap),
        !nizk.sigmap.trivial(),
        nizk.sigmap.0.satisfied_by(witness),
        witness.len() == nizk.sigmap.witness_length(),
        scalars_valid(witness),
        nizk.proved_compact(witness, r),
    ensures
        r matches Ok(proof) && nizk.verify_compact_outcome(proof@) == Ok::<(), Error>(()),
{
    lemma_no_proof_rejected(nizk, witness);
    let proof = r->Ok_0;
    let (commitment, challenge, response) = choose|
        commitment: Seq<Seq<u8>>,
        challenge: Scalar,
        response: Seq<Scalar>,
    |
        {
            &&& #[trigger] nizk.accepted_run(witness, commitment, challenge@, response)
            &&& proof@ == compact_bytes(challenge, response)
        };
    theorem_completeness_compact(nizk, witness, commitment, challenge, response);
}

/// No honest run for a satisfying witness is rejected.
pub proof fn lemma_no_proof_rejected(nizk: NISigmaProtocol, witness: Seq<Scalar>)
    requires
        group_laws(),
        ready(nizk.sigmap),
        nizk.sigmap.0.satisfied_by(witness),
        witness.len() == nizk.sigmap.witness_length(),
        scalars_valid(witness),
    ensures
        !nizk.some_proof_rejected(witness),
{
    assert forall|commitment: Seq<Seq<u8>>, challenge: nat, response: Seq<Scalar>|
        !#[trigger] nizk.rejected_run(witness, commitment, challenge, response) by {
        if nizk.honest(witness, commitment, challenge, response) {
            theorem_honest_transcript_accepted(nizk, witness, commitment, challenge, response);
        }
    }
}

/// A trivial statement is not proved: where every image element is the
/// neutral element, proving fails with `InvalidInstanceWitnessPair`.
pub proof fn theorem_trivial_refused(
    nizk: NISigmaProtocol,
    witness: Seq<Scalar>,
    r: Result<Transcript, Error>,
)
    requires
        nizk.sigmap.0.image_missing() is None,
        nizk.sigmap.trivial(),
        nizk.proved(witness, r),
    ensures
        r matches Err(e) && e == Error::InvalidInstanceWitnessPair,
{
}

/// Simulated transcripts verify: for any challenge and response, the
/// verifier's equation holds of the simulated commitment.
pub proof fn theorem_simulated_accepted(p: SchnorrProof, challenge: nat, response: Seq<Scalar>)
    requires
        group_laws(),
        ready(p),
        response.len() == p.witness_length(),
        scalars_valid(response),
        challenge < modulus(),
    ensures
        p.accepts(p.simulated(challenge, response), challenge, response),
{
    let map = p.0.linear_map;
    let slots = map.group_elements@;
    let left = map.values(response);
    let commitment = p.simulated(challenge, response);
    let right = p.expected(commitment, challenge);
    assert forall|j: int| 0 <= j < left.len() implies left[j] == right[j] by {
        lemma_value_valid(p, response, j);
        lemma_image_valid(p, j);
        let x = p.0.image_elements()[j]@;
        let scaled = g1_product(x, challenge);
        assert(closed_under_operations(x, x, challenge));
        assert(difference_cancels(left[j], scaled));
        assert(closed_under_operations(left[j], scaled, 0));
        assert(sum_commutes(g1_difference(left[j], scaled), scaled));
    }
    assert(left =~= right);
}

/// The value of each combination is a group element.
pub proof fn lemma_value_valid(p: SchnorrProof, scalars: Seq<Scalar>, j: int)
    requires
        group_laws(),
        ready(p),
        scalars.len() == p.witness_length(),
        scalars_valid(scalars),
        0 <= j < p.0.linear_map.constraints@.len(),
    ensures
        g1_valid(p.0.linear_map.values(scalars)[j]),
{
    let map = p.0.linear_map;
    let slots = map.group_elements@;
    let terms = map.constraints@[j]@;
    let bases = elements_of(elems_of(terms), slots);
    let cs = coefficients(terms, scalars);
    lemma_none_unassigned(map.constraints@, slots, 0, j);
    assert forall|i: int| 0 <= i < bases.len() implies (#[trigger] bases[i]).wf() by {
        lemma_none_missing(elems_of(terms), slots, 0, i);
        let at = terms[i].elem.index() as int;
        assert(slots[at] is Some);
    }
    assert forall|i: int| 0 <= i < cs.len() implies (#[trigger] cs[i]).wf() by {
        let at = terms[i].scalar.index() as int;
        assert(scalars[at].wf());
    }
    lemma_msm_valid(cs, bases, terms.len());
}

/// Each image element is a group element.
pub proof fn lemma_image_valid(p: SchnorrProof, j: int)
    requires
        ready(p),
        0 <= j < p.0.image@.len(),
    ensures
        g1_valid(p.0.image_elements()[j]@),
{
    let slots = p.0.linear_map.group_elements@;
    lemma_none_missing(p.0.image@, slots, 0, j);
    let at = p.0.image@[j].index() as int;
    assert(slots[at] is Some);
}

/// The compact form loses nothing: of a transcript that the verifier
/// accepts, the commitment is the one that challenge and response
/// determine.
pub proof fn theorem_commitment_recovered(
    p: SchnorrProof,
    commitment: Seq<Seq<u8>>,
    challenge: nat,
    response: Seq<Scalar>,
)
    requires
        group_laws(),
        ready(p),
        commitment.len() == p.commitment_length(),
        forall|j: int| 0 <= j < commitment.len() ==> g1_valid(#[trigger] commitment[j]),
        response.len() == p.witness_length(),
        scalars_valid(response),
        challenge < modulus(),
        p.accepts(commitment, challenge, response),
    ensures
        p.simulated(challenge, response) == commitment,
{
    let left = p.0.linear_map.values(response);
    let recovered = p.simulated(challenge, response);
    let right = p.expected(commitment, challenge);
    assert forall|j: int| 0 <= j < commitment.len() implies recovered[j] == commitment[j] by {
        lemma_image_valid(p, j);
        let x = p.0.image_elements()[j]@;
        let scaled = g1_product(x, challenge);
        assert(closed_under_operations(x, x, challenge));
        assert(left[j] == right[j]);
        assert(sum_commutes(scaled, commitment[j]));
        assert(difference_cancels(commitment[j], scaled));
    }
    assert(recovered =~= commitment);
}

/// For a challenge and a response there is one commitment that the
/// verifier accepts: a transcript with another commitment is rejected.
pub proof fn theorem_commitment_unique(
    p: SchnorrProof,
    first: Seq<Seq<u8>>,
    second: Seq<Seq<u8>>,
    challenge: nat,
    response: Seq<Scalar>,
)
    requires
        group_laws(),
        ready(p),
        first.len() == p.commitment_length(),
        second.len() == p.commitment_length(),
        forall|j: int| 0 <= j < first.len() ==> g1_valid(#[trigger] first[j]),
        forall|j: int| 0 <= j < second.len() ==> g1_valid(#[trigger] second[j]),
        response.len() == p.witness_length(),
        scalars_valid(response),
        challenge < modulus(),
        p.accepts(first, challenge, response),
        p.accepts(second, challenge, response),
    ensures
        first == second,
{
    theorem_commitment_recovered(p, first, challenge, response);
    theorem_commitment_recovered(p, second, challenge, response);
}

/// A transcript that is accepted carries the challenge that its commitment
/// gives: with any other challenge it is rejected.
pub proof fn theorem_challenge_unique(
    nizk: NISigmaProtocol,
    commitment: Seq<Seq<u8>>,
    challenge: nat,
    response: Seq<Scalar>,
)
    requires
        nizk.verify_outcome(commitment, challenge, response) is Ok,
    ensures
        challenge == nizk.challenge_for(commitment),
        nizk.sigmap.accepts(commitment, challenge, response),
{
}

/// The honest response is a bijection of the nonce: for a challenge and a
/// witness entry, different nonces give different responses, and every field
/// element is the response of some nonce. So a response to a uniform nonce is
/// uniform, as a simulated response is.
pub proof fn theorem_response_bijective(challenge: nat, witness: Scalar, target: nat)
    requires
        witness.wf(),
        challenge < modulus(),
        target < modulus(),
    ensures
        forall|a: Scalar, b: Scalar|
            a.wf() && b.wf() && #[trigger] response_value(a, witness, challenge)
                == #[trigger] response_value(b, witness, challenge) ==> a == b,
        exists|nonce: nat|
            nonce < modulus() && #[trigger] field_add(nonce, field_mul(challenge, witness@))
                == target,
{
    let shift = field_mul(challenge, witness@);
    assert forall|a: Scalar, b: Scalar|
        a.wf() && b.wf() && #[trigger] response_value(a, witness, challenge)
            == #[trigger] response_value(b, witness, challenge) implies a == b by {
        assert(field_add(a@, shift) == field_add(b@, shift));
        assert(a@ == b@);
        a.lemma_value_injective(b);
    }
    let nonce: nat = if target >= shift {
        (target - shift) as nat
    } else {
        (target + modulus() - shift) as nat
    };
    assert(field_add(nonce, shift) == target);
}

/// Reading a proof in batchable form gives back what was written, and only
/// the length that the relation fixes is read at all.
pub proof fn theorem_batchable_round_trip(
    p: SchnorrProof,
    commitment: Seq<Element>,
    response: Seq<Scalar>,
    other: Seq<u8>,
)
    requires
        commitment.len() == p.commitment_length(),
        response.len() == p.witness_length(),
        elements_valid(commitment),
        scalars_valid(response),
    ensures
        p.parse_batchable(batchable_bytes(commitment, response)) == Some((commitment, response)),
        batchable_bytes(commitment, response).len() == p.batchable_len(),
        other.len() != p.batchable_len() ==> p.parse_batchable(other) is None,
{
    let head = elements_bytes(commitment);
    let tail = scalars_bytes(response);
    let data = batchable_bytes(commitment, response);
    lemma_elements_bytes(commitment);
    lemma_scalars_bytes(response);
    lemma_elements_round_trip(commitment);
    lemma_scalars_round_trip(response);
    assert(data.subrange(0, head.len() as int) =~= head);
    assert(data.subrange(head.len() as int, data.len() as int) =~= tail);
}

/// Reading a proof in compact form gives back what was written, and only
/// the length that the relation fixes is read at all.
pub proof fn theorem_compact_round_trip(
    p: SchnorrProof,
    challenge: Scalar,
    response: Seq<Scalar>,
    other: Seq<u8>,
)
    requires
        response.len() == p.witness_length(),
        challenge.wf(),
        scalars_valid(response),
    ensures
        p.parse_compact(compact_bytes(challenge, response)) == Some((challenge, response)),
        compact_bytes(challenge, response).len() == p.compact_len(),
        other.len() != p.compact_len() ==> p.parse_compact(other) is None,
{
    let head = challenge.repr();
    let tail = scalars_bytes(response);
    let data = compact_bytes(challenge, response);
    let single = seq![challenge];
    challenge.lemma_repr_len();
    lemma_scalars_bytes(response);
    lemma_scalars_bytes(single);
    lemma_scalars_round_trip(response);
    lemma_scalars_round_trip(single);
    assert(scalars_bytes(single) =~= head) by {
        assert(chunk(scalars_bytes(single), 0, SCALAR_LEN as int) == single[0].repr());
        assert(chunk(scalars_bytes(single), 0, SCALAR_LEN as int) =~= scalars_bytes(single));
    }
    assert(data.subrange(0, SCALAR_LEN as int) =~= head);
    assert(data.subrange(SCALAR_LEN as int, data.len() as int) =~= tail);
}

/// The label is a function of the shape: two relations with the same image
/// variables and the same terms in the same order have the same label,
/// whatever elements are assigned in them.
pub proof fn theorem_label_of_shape(a: LinearRelation, b: LinearRelation)
    requires
        a.balanced(),
        b.balanced(),
        a.image@ == b.image@,
        forall|j: int|
            0 <= j < a.image@.len() ==> (#[trigger] a.linear_map.constraints@[j])@
                == b.linear_map.constraints@[j]@,
    ensures
        a.spec_label() == b.spec_label(),
{
    lemma_equations_label_of_shape(a, b, a.image@.len());
}

/// Relations that are the same, as a relation and its clone are, are well
/// formed together, have the same label, lack the same variables and give
/// the same values and the same image.
pub proof fn theorem_same_statement(a: LinearRelation, b: LinearRelation, scalars: Seq<Scalar>)
    requires
        a.same_as(&b),
    ensures
        a.wf() == b.wf(),
        a.balanced() ==> a.spec_label() == b.spec_label(),
        a.linear_map.first_unassigned() == b.linear_map.first_unassigned(),
        a.linear_map.values(scalars) == b.linear_map.values(scalars),
        a.image_missing() == b.image_missing(),
        a.image_elements() == b.image_elements(),
{
    if a.balanced() {
        theorem_label_of_shape(a, b);
    }
    lemma_same_unassigned(a, b, 0);
    assert(a.linear_map.values(scalars) =~= b.linear_map.values(scalars));
    let ca = a.linear_map.constraints@;
    let cb = b.linear_map.constraints@;
    if a.wf() {
        assert forall|j: int| 0 <= j < cb.len() implies scalars_below(
            (#[trigger] cb[j])@,
            b.linear_map.num_scalars as int,
        ) && elems_below(cb[j]@, b.linear_map.num_elements as int) by {
            assert(ca[j]@ == cb[j]@);
        }
    }
    if b.wf() {
        assert forall|j: int| 0 <= j < ca.len() implies scalars_below(
            (#[trigger] ca[j])@,
            a.linear_map.num_scalars as int,
        ) && elems_below(ca[j]@, a.linear_map.num_elements as int) by {
            assert(ca[j]@ == cb[j]@);
        }
    }
}

/// The same relations lack the same variable first.
proof fn lemma_same_unassigned(a: LinearRelation, b: LinearRelation, j: int)
    requires
        a.same_as(&b),
        0 <= j,
    ensures
        unassigned_in(a.linear_map.constraints@, a.linear_map.group_elements@, j) == unassigned_in(
            b.linear_map.constraints@,
            b.linear_map.group_elements@,
            j,
        ),
    decreases a.linear_map.constraints@.len() - j,
{
    if j < a.linear_map.constraints@.len() {
        assert(a.linear_map.constraints@[j]@ == b.linear_map.constraints@[j]@);
        lemma_same_unassigned(a, b, j + 1);
    }
}

/// The labels of the first `n` equations agree where the shapes do.
proof fn lemma_equations_label_of_shape(a: LinearRelation, b: LinearRelation, n: nat)
    requires
        n <= a.image@.len(),
        a.balanced(),
        b.balanced(),
        a.image@ == b.image@,
        forall|j: int|
            0 <= j < a.image@.len() ==> (#[trigger] a.linear_map.constraints@[j])@
                == b.linear_map.constraints@[j]@,
    ensures
        equations_label(a.image@, a.linear_map.constraints@, n) == equations_label(
            b.image@,
            b.linear_map.constraints@,
            n,
        ),
    decreases n,
{
    if n > 0 {
        lemma_equations_label_of_shape(a, b, (n - 1) as nat);
        assert(a.linear_map.constraints@[n - 1]@ == b.linear_map.constraints@[n - 1]@);
    }
}

} // verus!

//! The laws of the group as a module over the scalar field.
//!
//! The group operations are computed outside this library, so nothing here
//! proves that they obey the laws of a group. The laws are collected in
//! [`group_laws`], and the theorems about the protocol take them as their
//! hypothesis.

use vstd::prelude::*;

use crate::element::{g1_difference, g1_product, g1_sum, g1_valid, identity_encoding};
use crate::field::{field_add, field_mul, modulus};

verus! {

/// Sums, differences and products of group elements are group elements.
pub open spec fn closed_under_operations(a: Seq<u8>, b: Seq<u8>, k: nat) -> bool {
    &&& g1_valid(g1_sum(a, b))
    &&& g1_valid(g1_difference(a, b))
    &&& g1_valid(g1_product(a, k))
}

/// Addition is commutative and has the identity as its neutral element.
pub open spec fn sum_commutes(a: Seq<u8>, b: Seq<u8>) -> bool {
    &&& g1_sum(a, b) == g1_sum(b, a)
    &&& g1_sum(a, identity_encoding()) == a
}

/// Addition is associative.
pub open spec fn sum_associates(a: Seq<u8>, b: Seq<u8>, c: Seq<u8>) -> bool {
    g1_sum(g1_sum(a, b), c) == g1_sum(a, g1_sum(b, c))
}

/// Subtraction undoes addition, and addition undoes subtraction.
pub open spec fn difference_cancels(a: Seq<u8>, b: Seq<u8>) -> bool {
    &&& g1_difference(g1_sum(a, b), b) == a
    &&& g1_sum(g1_difference(a, b), b) == a
}

/// Scalar multiplication distributes over the sum of two scalars, and
/// multiplying twice is multiplying by the product.
pub open spec fn product_is_linear_in_scalar(a: Seq<u8>, j: nat, k: nat) -> bool {
    &&& g1_product(a, field_add(j, k)) == g1_sum(g1_product(a, j), g1_product(a, k))
    &&& g1_product(g1_product(a, j), k) == g1_product(a, field_mul(j, k))
}

/// Scalar multiplication distributes over the sum of two elements, and keeps
/// the identity.
pub open spec fn product_is_linear_in_element(a: Seq<u8>, b: Seq<u8>, k: nat) -> bool {
    &&& g1_product(g1_sum(a, b), k) == g1_sum(g1_product(a, k), g1_product(b, k))
    &&& g1_product(identity_encoding(), k) == identity_encoding()
}

/// The group of valid encodings is a module over the scalar field: the laws
/// hold of all valid encodings and of all scalars below the modulus.
pub open spec fn group_laws() -> bool {
    &&& g1_valid(identity_encoding())
    &&& forall|a: Seq<u8>, b: Seq<u8>, k: nat|
        g1_valid(a) && g1_valid(b) && k < modulus() ==> #[trigger] closed_under_operations(a, b, k)
    &&& forall|a: Seq<u8>, b: Seq<u8>| g1_valid(a) && g1_valid(b) ==> #[trigger] sum_commutes(a, b)
    &&& forall|a: Seq<u8>, b: Seq<u8>, c: Seq<u8>|
        g1_valid(a) && g1_valid(b) && g1_valid(c) ==> #[trigger] sum_associates(a, b, c)
    &&& forall|a: Seq<u8>, b: Seq<u8>|
        g1_valid(a) && g1_valid(b) ==> #[trigger] difference_cancels(a, b)
    &&& forall|a: Seq<u8>, j: nat, k: nat|
        g1_valid(a) && j < modulus() && k < modulus() ==> #[trigger] product_is_linear_in_scalar(
            a,
            j,
            k,
        )
    &&& forall|a: Seq<u8>, b: Seq<u8>, k: nat|
        g1_valid(a) && g1_valid(b) && k < modulus() ==> #[trigger] product_is_linear_in_element(
            a,
            b,
            k,
        )
}

/// Two sums of two can exchange their inner terms:
/// `(a + b) + (c + d) = (a + d) + (b + c)`.
pub proof fn lemma_sum_exchange(a: Seq<u8>, b: Seq<u8>, c: Seq<u8>, d: Seq<u8>)
    requires
        group_laws(),
        g1_valid(a),
        g1_valid(b),
        g1_valid(c),
        g1_valid(d),
    ensures
        g1_sum(g1_sum(a, b), g1_sum(c, d)) == g1_sum(g1_sum(a, d), g1_sum(b, c)),
{
    let zero = 0nat;
    assert(closed_under_operations(a, b, zero));
    assert(closed_under_operations(c, d, zero));
    assert(closed_under_operations(d, c, zero));
    assert(closed_under_operations(b, c, zero));
    assert(closed_under_operations(a, d, zero));
    assert(closed_under_operations(b, g1_sum(c, d), zero));
    assert(closed_under_operations(g1_sum(b, c), d, zero));
    assert(closed_under_operations(d, g1_sum(b, c), zero));
    // (a + b) + (c + d) = a + (b + (c + d))
    assert(sum_associates(a, b, g1_sum(c, d)));
    // b + (c + d) = (b + c) + d = d + (b + c)
    assert(sum_associates(b, c, d));
    assert(sum_commutes(g1_sum(b, c), d));
    // a + (d + (b + c)) = (a + d) + (b + c)
    assert(sum_associates(a, d, g1_sum(b, c)));
}

} // verus!

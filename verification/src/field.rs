//! The scalar field of BLS12-381, held as canonical 32-byte encodings.
//!
//! A [`Scalar`] stores the little-endian encoding that `bls12_381::Scalar`
//! writes. Its view is the integer below [`modulus`] that the bytes denote, so
//! contracts speak of field arithmetic as arithmetic modulo the group order.

use rand::rngs::OsRng;
use vstd::prelude::*;
use vstd::std_specs::cmp::PartialEqSpecImpl;

verus! {

/// Number of bytes of a scalar's canonical encoding.
pub const SCALAR_LEN: usize = 32;

/// Number of uniform bytes from which a scalar is sampled with negligible bias.
pub const WIDE_LEN: usize = 64;

/// The order of the scalar field, which is also the order of the group G1.
pub open spec fn modulus() -> nat {
    0x73eda753299d7d483339d80809a1d80553bda402fffe5bfeffffffff00000001nat
}

/// The natural number that a byte string denotes, least significant byte first.
pub open spec fn le_value(bytes: Seq<u8>) -> nat
    decreases bytes.len(),
{
    if bytes.len() == 0 {
        0
    } else {
        bytes[0] as nat + 256 * le_value(bytes.skip(1))
    }
}

/// Byte strings of one length that denote the same number are equal.
pub proof fn lemma_le_value_injective(a: Seq<u8>, b: Seq<u8>)
    requires
        a.len() == b.len(),
        le_value(a) == le_value(b),
    ensures
        a == b,
    decreases a.len(),
{
    if a.len() > 0 {
        assert(a[0] == b[0] && le_value(a.skip(1)) == le_value(b.skip(1))) by {
            let x = le_value(a.skip(1));
            let y = le_value(b.skip(1));
            assert(a[0] as nat + 256 * x == b[0] as nat + 256 * y);
        }
        lemma_le_value_injective(a.skip(1), b.skip(1));
        assert(a =~= seq![a[0]] + a.skip(1));
        assert(b =~= seq![b[0]] + b.skip(1));
    } else {
        assert(a =~= b);
    }
}

/// Sum of two field elements.
pub open spec fn field_add(a: nat, b: nat) -> nat {
    (a + b) % modulus()
}

/// Product of two field elements.
pub open spec fn field_mul(a: nat, b: nat) -> nat {
    (a * b) % modulus()
}

/// Additive inverse of a field element.
pub open spec fn field_neg(a: nat) -> nat {
    if a == 0 {
        0
    } else {
        (modulus() - a) as nat
    }
}

/// The field element that 64 uniform bytes are reduced to.
pub open spec fn wide_reduction(bytes: Seq<u8>) -> nat {
    le_value(bytes) % modulus()
}

/// The operating system's random number generator, as `rand` exposes it:
/// an opaque value that is handed on to the field's sampling.
#[verifier::external_type_specification]
#[verifier::external_body]
pub struct ExOsRng(OsRng);

/// The encodings of a sequence of scalars.
pub open spec fn reprs(scalars: Seq<Scalar>) -> Seq<Seq<u8>> {
    Seq::new(scalars.len(), |j: int| scalars[j].repr())
}

/// An element of the scalar field.
#[derive(Clone, Copy, Debug)]
pub struct Scalar {
    bytes: [u8; 32],
}

impl View for Scalar {
    type V = nat;

    /// The integer in `[0, modulus())` that this scalar stands for.
    open spec fn view(&self) -> nat {
        le_value(self.repr())
    }
}

impl Scalar {
    /// The canonical encoding: 32 bytes, least significant first.
    pub closed spec fn repr(self) -> Seq<u8> {
        self.bytes@
    }

    /// A scalar is well formed when its encoding is canonical. Every
    /// executable scalar is.
    #[verifier::type_invariant]
    pub open spec fn wf(self) -> bool {
        self@ < modulus()
    }

    /// Encodings have a fixed length.
    pub proof fn lemma_repr_len(self)
        ensures
            self.repr().len() == SCALAR_LEN,
    {
    }

    /// The scalar that has the given encoding.
    pub closed spec fn with_repr(bytes: Seq<u8>) -> Scalar {
        choose|s: Scalar| s.repr() == bytes
    }

    /// Every scalar is the scalar that has its encoding.
    pub proof fn lemma_with_repr(self)
        ensures
            Scalar::with_repr(self.repr()) == self,
    {
        let s = choose|s: Scalar| s.repr() == self.repr();
        assert(s.bytes =~= self.bytes);
    }

    /// A scalar is its value: equal values mean equal scalars.
    pub proof fn lemma_value_injective(self, other: Scalar)
        requires
            self@ == other@,
        ensures
            self == other,
    {
        lemma_le_value_injective(self.bytes@, other.bytes@);
        assert(self.bytes =~= other.bytes);
    }

    /// The canonical encoding of this scalar.
    pub fn to_bytes(&self) -> (out: [u8; 32])
        ensures
            out@ == self.repr(),
    {
        self.bytes
    }

    /// Reads a canonical encoding: `None` when the integer is not below the
    /// modulus.
    pub fn from_bytes(bytes: &[u8; 32]) -> (r: Option<Scalar>)
        ensures
            r.is_some() == (le_value(bytes@) < modulus()),
            r.is_some() ==> r.unwrap().repr() == bytes@,
    {
        scalar_decode(bytes)
    }

    /// The additive identity.
    pub fn zero() -> (r: Scalar)
        ensures
            r@ == 0,
    {
        scalar_zero()
    }

    /// The multiplicative identity.
    pub fn one() -> (r: Scalar)
        ensures
            r@ == 1,
    {
        scalar_one()
    }

    /// Draws a scalar from the generator.
    pub fn random(rng: &mut OsRng) -> (r: Scalar)
        ensures
            r.wf(),
    {
        scalar_random(rng)
    }

    /// Reduces a 512-bit little-endian integer modulo the group order.
    pub fn from_bytes_wide(bytes: &[u8; 64]) -> (r: Scalar)
        ensures
            r@ == wide_reduction(bytes@),
    {
        scalar_from_wide(bytes)
    }

    /// Field addition.
    pub fn plus(&self, rhs: &Scalar) -> (r: Scalar)
        ensures
            r@ == field_add(self@, rhs@),
    {
        proof {
            use_type_invariant(self);
            use_type_invariant(rhs);
        }
        scalar_add(self, rhs)
    }

    /// Field multiplication.
    pub fn times(&self, rhs: &Scalar) -> (r: Scalar)
        ensures
            r@ == field_mul(self@, rhs@),
    {
        proof {
            use_type_invariant(self);
            use_type_invariant(rhs);
        }
        scalar_mul(self, rhs)
    }

    /// Additive inverse.
    pub fn negate(&self) -> (r: Scalar)
        ensures
            r@ == field_neg(self@),
    {
        proof {
            use_type_invariant(self);
        }
        scalar_neg(self)
    }
}

impl PartialEq for Scalar {
    fn eq(&self, other: &Scalar) -> (r: bool) {
        let mut i: usize = 0;
        while i < 32
            invariant
                i <= 32,
                forall|j: int| 0 <= j < i ==> self.bytes@[j] == other.bytes@[j],
            decreases 32 - i,
        {
            if self.bytes[i] != other.bytes[i] {
                return false;
            }
            i += 1;
        }
        assert(self.bytes =~= other.bytes);
        true
    }
}

impl PartialEqSpecImpl for Scalar {
    open spec fn obeys_eq_spec() -> bool {
        true
    }

    open spec fn eq_spec(&self, other: &Scalar) -> bool {
        *self == *other
    }
}

/// `PrimeField::from_repr` of `bls12_381::Scalar` accepts a little-endian
/// encoding exactly when the integer is below the modulus; `to_repr` of what
/// it accepted gives the same bytes back.
#[verifier::external_body]
fn scalar_decode(bytes: &[u8; 32]) -> (r: Option<Scalar>)
    ensures
        r.is_some() == (le_value(bytes@) < modulus()),
        r.is_some() ==> r.unwrap().repr() == bytes@,
{
    let decoded: Option<bls12_381::Scalar> = <bls12_381::Scalar as ff::PrimeField>::from_repr(
        *bytes,
    ).into();
    match decoded {
        Some(s) => Some(Scalar { bytes: ff::PrimeField::to_repr(&s) }),
        None => None,
    }
}

/// `Field::ZERO` of `bls12_381::Scalar` is the zero of the field.
#[verifier::external_body]
fn scalar_zero() -> (r: Scalar)
    ensures
        r@ == 0,
{
    Scalar { bytes: ff::PrimeField::to_repr(&<bls12_381::Scalar as ff::Field>::ZERO) }
}

/// `Field::ONE` of `bls12_381::Scalar` is the one of the field.
#[verifier::external_body]
fn scalar_one() -> (r: Scalar)
    ensures
        r@ == 1,
{
    Scalar { bytes: ff::PrimeField::to_repr(&<bls12_381::Scalar as ff::Field>::ONE) }
}

/// `Field::random` of `bls12_381::Scalar` draws 64 bytes from the generator
/// and reduces them. Nothing is claimed of the outcome but that it is a
/// scalar. `OsRng` ends the process where the operating system gives it no
/// randomness.
#[verifier::external_body]
fn scalar_random(rng: &mut OsRng) -> (r: Scalar)
    ensures
        r.wf(),
{
    let s = <bls12_381::Scalar as ff::Field>::random(rng);
    Scalar { bytes: ff::PrimeField::to_repr(&s) }
}

/// `bls12_381::Scalar::from_bytes_wide` reads 64 bytes as a little-endian
/// integer and reduces it modulo the group order.
#[verifier::external_body]
fn scalar_from_wide(bytes: &[u8; 64]) -> (r: Scalar)
    ensures
        r@ == wide_reduction(bytes@),
{
    let s = bls12_381::Scalar::from_bytes_wide(bytes);
    Scalar { bytes: ff::PrimeField::to_repr(&s) }
}

/// `+` on `bls12_381::Scalar` is addition modulo the group order.
#[verifier::external_body]
fn scalar_add(a: &Scalar, b: &Scalar) -> (r: Scalar)
    requires
        a.wf(),
        b.wf(),
    ensures
        r@ == field_add(a@, b@),
{
    let x = <bls12_381::Scalar as ff::PrimeField>::from_repr(a.bytes).unwrap();
    let y = <bls12_381::Scalar as ff::PrimeField>::from_repr(b.bytes).unwrap();
    Scalar { bytes: ff::PrimeField::to_repr(&(x + y)) }
}

/// `*` on `bls12_381::Scalar` is multiplication modulo the group order.
#[verifier::external_body]
fn scalar_mul(a: &Scalar, b: &Scalar) -> (r: Scalar)
    requires
        a.wf(),
        b.wf(),
    ensures
        r@ == field_mul(a@, b@),
{
    let x = <bls12_381::Scalar as ff::PrimeField>::from_repr(a.bytes).unwrap();
    let y = <bls12_381::Scalar as ff::PrimeField>::from_repr(b.bytes).unwrap();
    Scalar { bytes: ff::PrimeField::to_repr(&(x * y)) }
}

/// Unary `-` on `bls12_381::Scalar` is negation modulo the group order.
#[verifier::external_body]
fn scalar_neg(a: &Scalar) -> (r: Scalar)
    requires
        a.wf(),
    ensures
        r@ == field_neg(a@),
{
    let x = <bls12_381::Scalar as ff::PrimeField>::from_repr(a.bytes).unwrap();
    Scalar { bytes: ff::PrimeField::to_repr(&(-x)) }
}

} // verus!

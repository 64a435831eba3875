//! The group G1 of BLS12-381, held as canonical 48-byte compressed encodings.
//!
//! An [`Element`] stores the bytes that `GroupEncoding::to_bytes` writes for a
//! point of the prime-order subgroup, so that two elements are equal exactly
//! when their bytes are. The group law itself is the curve's: it is named
//! here, not restated, and each operation says which name its result is.

use vstd::prelude::*;
use vstd::std_specs::cmp::PartialEqSpecImpl;

use crate::field::Scalar;

verus! {

/// Number of bytes of an element's canonical encoding.
pub const ELEMENT_LEN: usize = 48;

/// Whether `GroupEncoding::from_bytes` of `G1Projective` accepts these bytes:
/// they are the compressed encoding of a point of the prime-order subgroup.
pub uninterp spec fn g1_valid(bytes: Seq<u8>) -> bool;

/// The encoding of the sum of the two points that `a` and `b` encode.
pub uninterp spec fn g1_sum(a: Seq<u8>, b: Seq<u8>) -> Seq<u8>;

/// The encoding of the difference of the two points that `a` and `b` encode.
pub uninterp spec fn g1_difference(a: Seq<u8>, b: Seq<u8>) -> Seq<u8>;

/// The encoding of the point that `p` encodes, multiplied by the scalar `k`.
pub uninterp spec fn g1_product(p: Seq<u8>, k: nat) -> Seq<u8>;

/// The encoding of the point at infinity: the compression and infinity flags,
/// then zeros.
pub open spec fn identity_encoding() -> Seq<u8> {
    Seq::new(ELEMENT_LEN as nat, |i: int| if i == 0 { 0xc0u8 } else { 0u8 })
}

/// The encodings of a sequence of elements.
pub open spec fn encodings(elements: Seq<Element>) -> Seq<Seq<u8>> {
    Seq::new(elements.len(), |j: int| elements[j]@)
}

/// An element of the group.
#[derive(Clone, Copy, Debug)]
pub struct Element {
    bytes: [u8; 48],
}

impl View for Element {
    type V = Seq<u8>;

    /// The canonical encoding: 48 bytes.
    closed spec fn view(&self) -> Seq<u8> {
        self.bytes@
    }
}

impl Element {
    /// An element is well formed when its bytes encode a point of the group.
    /// Every executable element is.
    #[verifier::type_invariant]
    pub open spec fn wf(self) -> bool {
        g1_valid(self@)
    }

    /// Encodings have a fixed length.
    pub proof fn lemma_view_len(self)
        ensures
            self@.len() == ELEMENT_LEN,
    {
    }

    /// An element is its encoding: equal encodings mean equal elements.
    pub proof fn lemma_view_injective(self, other: Element)
        requires
            self@ == other@,
        ensures
            self == other,
    {
        assert(self.bytes =~= other.bytes);
    }

    /// The element that has the given encoding.
    pub closed spec fn with_encoding(bytes: Seq<u8>) -> Element {
        choose|e: Element| e@ == bytes
    }

    /// Every element is the element that has its encoding.
    pub proof fn lemma_with_encoding(self)
        ensures
            Element::with_encoding(self@) == self,
    {
        let e = choose|e: Element| e@ == self@;
        assert(e.bytes =~= self.bytes);
    }

    /// The neutral element.
    pub fn identity() -> (r: Element)
        ensures
            r@ == identity_encoding(),
    {
        element_identity()
    }

    /// Whether this is the neutral element.
    pub fn is_identity(&self) -> (r: bool)
        ensures
            r == (self@ == identity_encoding()),
    {
        if self.bytes[0] != 0xc0 {
            return false;
        }
        let mut i: usize = 1;
        while i < 48
            invariant
                1 <= i <= 48,
                self.bytes@[0] == 0xc0u8,
                forall|j: int| 1 <= j < i ==> self.bytes@[j] == 0u8,
            decreases 48 - i,
        {
            if self.bytes[i] != 0 {
                return false;
            }
            i += 1;
        }
        assert(self@ =~= identity_encoding());
        true
    }

    /// The canonical encoding of this element.
    pub fn to_bytes(&self) -> (out: [u8; 48])
        ensures
            out@ == self@,
    {
        self.bytes
    }

    /// Reads a canonical encoding: `None` when the bytes encode no point of the
    /// group.
    pub fn from_bytes(bytes: &[u8; 48]) -> (r: Option<Element>)
        ensures
            r.is_some() == g1_valid(bytes@),
            r.is_some() ==> r.unwrap()@ == bytes@,
    {
        element_decode(bytes)
    }

    /// The group law.
    pub fn plus(&self, rhs: &Element) -> (r: Element)
        ensures
            r@ == g1_sum(self@, rhs@),
    {
        proof {
            use_type_invariant(self);
            use_type_invariant(rhs);
        }
        element_add(self, rhs)
    }

    /// The group law with the inverse of `rhs`.
    pub fn minus(&self, rhs: &Element) -> (r: Element)
        ensures
            r@ == g1_difference(self@, rhs@),
    {
        proof {
            use_type_invariant(self);
            use_type_invariant(rhs);
        }
        element_sub(self, rhs)
    }

    /// Scalar multiplication.
    pub fn scale(&self, k: &Scalar) -> (r: Element)
        ensures
            r@ == g1_product(self@, k@),
    {
        proof {
            use_type_invariant(self);
            use_type_invariant(k);
        }
        element_mul(self, k)
    }
}

impl PartialEq for Element {
    fn eq(&self, other: &Element) -> (r: bool) {
        let mut i: usize = 0;
        while i < 48
            invariant
                i <= 48,
                forall|j: int| 0 <= j < i ==> self.bytes@[j] == other.bytes@[j],
            decreases 48 - i,
        {
            if self.bytes[i] != other.bytes[i] {
                return false;
            }
            i += 1;
        }
        assert(self.bytes =~= other.bytes);
        true
    }
}

impl PartialEqSpecImpl for Element {
    open spec fn obeys_eq_spec() -> bool {
        true
    }

    open spec fn eq_spec(&self, other: &Element) -> bool {
        *self == *other
    }
}

/// `Group::identity` of `G1Projective` is the point at infinity, which
/// `to_compressed` writes as the byte `0xc0` followed by zeros.
#[verifier::external_body]
fn element_identity() -> (r: Element)
    ensures
        r@ == identity_encoding(),
        r.wf(),
{
    let p = <bls12_381::G1Projective as group::Group>::identity();
    Element { bytes: bls12_381::G1Affine::from(p).to_compressed() }
}

/// `GroupEncoding::from_bytes` of `G1Projective` accepts exactly the
/// compressed encodings of points of the prime-order subgroup;
/// `GroupEncoding::to_bytes` of what it accepted gives the same bytes back.
#[verifier::external_body]
fn element_decode(bytes: &[u8; 48]) -> (r: Option<Element>)
    ensures
        r.is_some() == g1_valid(bytes@),
        r.is_some() ==> r.unwrap()@ == bytes@,
{
    let mut repr = <bls12_381::G1Projective as group::GroupEncoding>::Repr::default();
    repr.as_mut().copy_from_slice(bytes);
    let decoded: Option<bls12_381::G1Projective> = group::GroupEncoding::from_bytes(&repr).into();
    match decoded {
        Some(p) => {
            let mut out = [0u8;48];
            out.copy_from_slice(group::GroupEncoding::to_bytes(&p).as_ref());
            Some(Element { bytes: out })
        },
        None => None,
    }
}

/// `+` on `G1Projective` is the group law; its result lies in the group. The
/// operands are read with `G1Affine::from_compressed` and the result is
/// written with `to_compressed`, the functions behind `GroupEncoding`.
#[verifier::external_body]
fn element_add(a: &Element, b: &Element) -> (r: Element)
    requires
        a.wf(),
        b.wf(),
    ensures
        r@ == g1_sum(a@, b@),
        r.wf(),
{
    let x = bls12_381::G1Projective::from(bls12_381::G1Affine::from_compressed(&a.bytes).unwrap());
    let y = bls12_381::G1Projective::from(bls12_381::G1Affine::from_compressed(&b.bytes).unwrap());
    Element { bytes: bls12_381::G1Affine::from(x + y).to_compressed() }
}

/// `-` on `G1Projective` adds the inverse; its result lies in the group. The
/// operands are read and the result is written as for `+`.
#[verifier::external_body]
fn element_sub(a: &Element, b: &Element) -> (r: Element)
    requires
        a.wf(),
        b.wf(),
    ensures
        r@ == g1_difference(a@, b@),
        r.wf(),
{
    let x = bls12_381::G1Projective::from(bls12_381::G1Affine::from_compressed(&a.bytes).unwrap());
    let y = bls12_381::G1Projective::from(bls12_381::G1Affine::from_compressed(&b.bytes).unwrap());
    Element { bytes: bls12_381::G1Affine::from(x - y).to_compressed() }
}

/// `*` of a `G1Projective` by a `bls12_381::Scalar` is scalar multiplication;
/// its result lies in the group. The scalar is read with
/// `PrimeField::from_repr`.
#[verifier::external_body]
fn element_mul(p: &Element, k: &Scalar) -> (r: Element)
    requires
        p.wf(),
        k.wf(),
    ensures
        r@ == g1_product(p@, k@),
        r.wf(),
{
    let x = bls12_381::G1Projective::from(bls12_381::G1Affine::from_compressed(&p.bytes).unwrap());
    let s = <bls12_381::Scalar as ff::PrimeField>::from_repr(k.to_bytes()).unwrap();
    Element { bytes: bls12_381::G1Affine::from(x * s).to_compressed() }
}

} // verus!

//! Canonical fixed-length encoding of scalars and group elements. A vector is
//! the concatenation of its items' encodings, without a length prefix: the
//! relation fixes the counts.

use vstd::prelude::*;

use crate::element::{encodings, g1_valid, Element, ELEMENT_LEN};
use crate::field::{le_value, modulus, reprs, Scalar, SCALAR_LEN};

verus! {

/// The `j`-th block of `size` bytes of `data`.
pub open spec fn chunk(data: Seq<u8>, j: int, size: int) -> Seq<u8> {
    data.subrange(j * size, (j + 1) * size)
}

/// The first `n` blocks, one after the other.
pub open spec fn concat_prefix(blocks: Seq<Seq<u8>>, n: nat) -> Seq<u8>
    decreases n,
{
    if n == 0 {
        Seq::empty()
    } else {
        concat_prefix(blocks, (n - 1) as nat) + blocks[n - 1]
    }
}

/// The blocks, one after the other.
pub open spec fn concat(blocks: Seq<Seq<u8>>) -> Seq<u8> {
    concat_prefix(blocks, blocks.len())
}

/// The encodings of the elements, one after the other.
pub open spec fn elements_bytes(elements: Seq<Element>) -> Seq<u8> {
    concat(encodings(elements))
}

/// The encodings of the scalars, one after the other.
pub open spec fn scalars_bytes(scalars: Seq<Scalar>) -> Seq<u8> {
    concat(reprs(scalars))
}

/// Whether `data` is `count` valid element encodings, one after the other.
pub open spec fn elements_decodable(data: Seq<u8>, count: nat) -> bool {
    &&& data.len() == count * ELEMENT_LEN
    &&& forall|j: int| 0 <= j < count ==> g1_valid(#[trigger] chunk(data, j, ELEMENT_LEN as int))
}

/// The elements that `data` encodes, where it is decodable.
pub open spec fn parse_elements(data: Seq<u8>, count: nat) -> Option<Seq<Element>> {
    if elements_decodable(data, count) {
        Some(Seq::new(count, |j: int| Element::with_encoding(chunk(data, j, ELEMENT_LEN as int))))
    } else {
        None
    }
}

/// Whether `data` is `count` canonical scalar encodings, one after the other.
pub open spec fn scalars_decodable(data: Seq<u8>, count: nat) -> bool {
    &&& data.len() == count * SCALAR_LEN
    &&& forall|j: int|
        0 <= j < count ==> le_value(#[trigger] chunk(data, j, SCALAR_LEN as int)) < modulus()
}

/// The scalars that `data` encodes, where it is decodable.
pub open spec fn parse_scalars(data: Seq<u8>, count: nat) -> Option<Seq<Scalar>> {
    if scalars_decodable(data, count) {
        Some(Seq::new(count, |j: int| Scalar::with_repr(chunk(data, j, SCALAR_LEN as int))))
    } else {
        None
    }
}

/// The concatenation of `n` blocks of `size` bytes has `n * size` bytes, and
/// its `j`-th block of that size is block `j`.
pub proof fn lemma_concat_blocks(blocks: Seq<Seq<u8>>, size: nat, n: nat)
    requires
        n <= blocks.len(),
        forall|j: int| 0 <= j < blocks.len() ==> (#[trigger] blocks[j]).len() == size,
    ensures
        concat_prefix(blocks, n).len() == n * size,
        forall|j: int|
            0 <= j < n ==> #[trigger] chunk(concat_prefix(blocks, n), j, size as int) == blocks[j],
    decreases n,
{
    if n == 0 {
        assert(0 * size == 0);
    } else {
        let m = (n - 1) as nat;
        lemma_concat_blocks(blocks, size, m);
        let before = concat_prefix(blocks, m);
        let all = concat_prefix(blocks, n);
        assert(blocks[n - 1].len() == size);
        assert(m * size + size == n * size) by (nonlinear_arith)
            requires
                m + 1 == n,
        ;
        assert forall|j: int| 0 <= j < n implies #[trigger] chunk(all, j, size as int)
            == blocks[j] by {
            assert(0 <= j * size && (j + 1) * size <= n * size && (j + 1) * size == j * size
                + size) by (nonlinear_arith)
                requires
                    0 <= j < n,
            ;
            if j < m {
                assert((j + 1) * size <= m * size) by (nonlinear_arith)
                    requires
                        0 <= j < m,
                ;
                assert(chunk(all, j, size as int) =~= chunk(before, j, size as int));
            } else {
                assert(chunk(all, j, size as int) =~= blocks[j]);
            }
        }
    }
}

/// The encoding of elements has one block of `ELEMENT_LEN` bytes for each.
pub proof fn lemma_elements_bytes(elements: Seq<Element>)
    ensures
        elements_bytes(elements).len() == elements.len() * ELEMENT_LEN,
        forall|j: int|
            0 <= j < elements.len() ==> #[trigger] chunk(
                elements_bytes(elements),
                j,
                ELEMENT_LEN as int,
            ) == elements[j]@,
{
    assert forall|j: int| 0 <= j < elements.len() implies (#[trigger] encodings(
        elements,
    )[j]).len() == ELEMENT_LEN by {
        elements[j].lemma_view_len();
    }
    lemma_concat_blocks(encodings(elements), ELEMENT_LEN as nat, elements.len());
}

/// The encoding of scalars has one block of `SCALAR_LEN` bytes for each.
pub proof fn lemma_scalars_bytes(scalars: Seq<Scalar>)
    ensures
        scalars_bytes(scalars).len() == scalars.len() * SCALAR_LEN,
        forall|j: int|
            0 <= j < scalars.len() ==> #[trigger] chunk(
                scalars_bytes(scalars),
                j,
                SCALAR_LEN as int,
            ) == scalars[j].repr(),
{
    assert forall|j: int| 0 <= j < scalars.len() implies (#[trigger] reprs(scalars)[j]).len()
        == SCALAR_LEN by {
        scalars[j].lemma_repr_len();
    }
    lemma_concat_blocks(reprs(scalars), SCALAR_LEN as nat, scalars.len());
}

/// Decoding gives back what was encoded: the encoding of well-formed
/// elements parses to those elements.
pub proof fn lemma_elements_round_trip(elements: Seq<Element>)
    requires
        forall|j: int| 0 <= j < elements.len() ==> (#[trigger] elements[j]).wf(),
    ensures
        parse_elements(elements_bytes(elements), elements.len()) == Some(elements),
{
    lemma_elements_bytes(elements);
    let data = elements_bytes(elements);
    assert forall|j: int| 0 <= j < elements.len() implies Element::with_encoding(
        #[trigger] chunk(data, j, ELEMENT_LEN as int),
    ) == elements[j] by {
        elements[j].lemma_with_encoding();
    }
    assert(parse_elements(data, elements.len())->Some_0 =~= elements);
}

/// Decoding gives back what was encoded: the encoding of well-formed
/// scalars parses to those scalars.
pub proof fn lemma_scalars_round_trip(scalars: Seq<Scalar>)
    requires
        forall|j: int| 0 <= j < scalars.len() ==> (#[trigger] scalars[j]).wf(),
    ensures
        parse_scalars(scalars_bytes(scalars), scalars.len()) == Some(scalars),
{
    lemma_scalars_bytes(scalars);
    let data = scalars_bytes(scalars);
    assert forall|j: int| 0 <= j < scalars.len() implies Scalar::with_repr(
        #[trigger] chunk(data, j, SCALAR_LEN as int),
    ) == scalars[j] by {
        scalars[j].lemma_with_repr();
    }
    assert(parse_scalars(data, scalars.len())->Some_0 =~= scalars);
}

/// Appends `item` to `out`.
fn append_bytes(out: &mut Vec<u8>, item: &[u8])
    ensures
        final(out)@ == old(out)@ + item@,
{
    let mut i: usize = 0;
    while i < item.len()
        invariant
            i <= item@.len(),
            out@ == old(out)@ + item@.take(i as int),
        decreases item@.len() - i,
    {
        out.push(item[i]);
        assert(out@ =~= old(out)@ + item@.take(i as int + 1));
        i += 1;
    }
    assert(item@.take(i as int) =~= item@);
}

/// The canonical encoding of an element.
pub fn serialize_element(element: &Element) -> (out: Vec<u8>)
    ensures
        out@ == element@,
{
    let bytes = element.to_bytes();
    let mut out: Vec<u8> = Vec::new();
    append_bytes(&mut out, bytes.as_slice());
    assert(out@ =~= element@);
    out
}

/// The canonical encoding of a scalar.
pub fn serialize_scalar(scalar: &Scalar) -> (out: Vec<u8>)
    ensures
        out@ == scalar.repr(),
{
    let bytes = scalar.to_bytes();
    let mut out: Vec<u8> = Vec::new();
    append_bytes(&mut out, bytes.as_slice());
    assert(out@ =~= scalar.repr());
    out
}

/// The encodings of the elements, one after the other.
pub fn serialize_elements(elements: &[Element]) -> (out: Vec<u8>)
    ensures
        out@ == elements_bytes(elements@),
{
    let mut out: Vec<u8> = Vec::new();
    let mut j: usize = 0;
    while j < elements.len()
        invariant
            j <= elements@.len(),
            out@ == concat_prefix(encodings(elements@), j as nat),
        decreases elements@.len() - j,
    {
        let bytes = elements[j].to_bytes();
        append_bytes(&mut out, bytes.as_slice());
        j += 1;
    }
    out
}

/// The encodings of the scalars, one after the other.
pub fn serialize_scalars(scalars: &[Scalar]) -> (out: Vec<u8>)
    ensures
        out@ == scalars_bytes(scalars@),
{
    let mut out: Vec<u8> = Vec::new();
    let mut j: usize = 0;
    while j < scalars.len()
        invariant
            j <= scalars@.len(),
            out@ == concat_prefix(reprs(scalars@), j as nat),
        decreases scalars@.len() - j,
    {
        let bytes = scalars[j].to_bytes();
        append_bytes(&mut out, bytes.as_slice());
        j += 1;
    }
    out
}

/// Copies the 48 bytes of `data` that start at `start`.
fn read_element_bytes(data: &[u8], start: usize) -> (out: [u8; 48])
    requires
        start + 48 <= data@.len(),
    ensures
        out@ == data@.subrange(start as int, start + 48),
{
    let total = data.len();
    let mut out = [0u8;48];
    let mut i: usize = 0;
    while i < 48
        invariant
            i <= 48,
            start + 48 <= total == data@.len(),
            forall|k: int| 0 <= k < i ==> out@[k] == data@[start + k],
        decreases 48 - i,
    {
        out[i] = data[start + i];
        i += 1;
    }
    assert(out@ =~= data@.subrange(start as int, start + 48));
    out
}

/// Copies the 32 bytes of `data` that start at `start`.
fn read_scalar_bytes(data: &[u8], start: usize) -> (out: [u8; 32])
    requires
        start + 32 <= data@.len(),
    ensures
        out@ == data@.subrange(start as int, start + 32),
{
    let total = data.len();
    let mut out = [0u8;32];
    let mut i: usize = 0;
    while i < 32
        invariant
            i <= 32,
            start + 32 <= total == data@.len(),
            forall|k: int| 0 <= k < i ==> out@[k] == data@[start + k],
        decreases 32 - i,
    {
        out[i] = data[start + i];
        i += 1;
    }
    assert(out@ =~= data@.subrange(start as int, start + 32));
    out
}

/// Reads one element: `None` unless `data` is exactly one valid encoding.
pub fn deserialize_element(data: &[u8]) -> (r: Option<Element>)
    ensures
        r.is_some() == (data@.len() == ELEMENT_LEN && g1_valid(data@)),
        r.is_some() ==> r.unwrap()@ == data@,
{
    if data.len() != ELEMENT_LEN {
        return None;
    }
    let bytes = read_element_bytes(data, 0);
    assert(bytes@ =~= data@);
    Element::from_bytes(&bytes)
}

/// Reads one scalar: `None` unless `data` is exactly one canonical encoding.
pub fn deserialize_scalar(data: &[u8]) -> (r: Option<Scalar>)
    ensures
        r.is_some() == (data@.len() == SCALAR_LEN && le_value(data@) < modulus()),
        r.is_some() ==> r.unwrap().repr() == data@,
{
    if data.len() != SCALAR_LEN {
        return None;
    }
    let bytes = read_scalar_bytes(data, 0);
    assert(bytes@ =~= data@);
    Scalar::from_bytes(&bytes)
}

/// Reads `count` elements: `None` unless `data` is exactly `count` valid
/// encodings, one after the other.
pub fn deserialize_elements(data: &[u8], count: usize) -> (r: Option<Vec<Element>>)
    ensures
        match parse_elements(data@, count as nat) {
            Some(elements) => r matches Some(out) && out@ == elements,
            None => r is None,
        },
{
    if data.len() % ELEMENT_LEN != 0 || data.len() / ELEMENT_LEN != count {
        return None;
    }
    let ghost parsed = Seq::new(
        count as nat,
        |j: int| Element::with_encoding(chunk(data@, j, ELEMENT_LEN as int)),
    );
    let mut out: Vec<Element> = Vec::new();
    let mut j: usize = 0;
    while j < count
        invariant
            j <= count,
            data@.len() == count * ELEMENT_LEN,
            data@.len() <= usize::MAX,
            out@ == parsed.take(j as int),
            parsed == Seq::new(
                count as nat,
                |j: int| Element::with_encoding(chunk(data@, j, ELEMENT_LEN as int)),
            ),
            forall|i: int| 0 <= i < j ==> g1_valid(#[trigger] chunk(data@, i, ELEMENT_LEN as int)),
        decreases count - j,
    {
        assert(j * 48 + 48 <= data@.len()) by (nonlinear_arith)
            requires
                j < count,
                data@.len() == count * 48,
        ;
        let bytes = read_element_bytes(data, j * ELEMENT_LEN);
        assert(bytes@ == chunk(data@, j as int, ELEMENT_LEN as int));
        match Element::from_bytes(&bytes) {
            Some(element) => {
                proof {
                    element.lemma_with_encoding();
                }
                out.push(element);
            },
            None => {
                return None;
            },
        }
        assert(out@ =~= parsed.take(j as int + 1));
        j += 1;
    }
    assert(out@ =~= parsed);
    Some(out)
}

/// Reads `count` scalars: `None` unless `data` is exactly `count` canonical
/// encodings, one after the other.
pub fn deserialize_scalars(data: &[u8], count: usize) -> (r: Option<Vec<Scalar>>)
    ensures
        match parse_scalars(data@, count as nat) {
            Some(scalars) => r matches Some(out) && out@ == scalars,
            None => r is None,
        },
{
    if data.len() % SCALAR_LEN != 0 || data.len() / SCALAR_LEN != count {
        return None;
    }
    let ghost parsed = Seq::new(
        count as nat,
        |j: int| Scalar::with_repr(chunk(data@, j, SCALAR_LEN as int)),
    );
    let mut out: Vec<Scalar> = Vec::new();
    let mut j: usize = 0;
    while j < count
        invariant
            j <= count,
            data@.len() == count * SCALAR_LEN,
            data@.len() <= usize::MAX,
            out@ == parsed.take(j as int),
            parsed == Seq::new(
                count as nat,
                |j: int| Scalar::with_repr(chunk(data@, j, SCALAR_LEN as int)),
            ),
            forall|i: int|
                0 <= i < j ==> le_value(#[trigger] chunk(data@, i, SCALAR_LEN as int)) < modulus(),
        decreases count - j,
    {
        assert(j * 32 + 32 <= data@.len()) by (nonlinear_arith)
            requires
                j < count,
                data@.len() == count * 32,
        ;
        let bytes = read_scalar_bytes(data, j * SCALAR_LEN);
        assert(bytes@ == chunk(data@, j as int, SCALAR_LEN as int));
        match Scalar::from_bytes(&bytes) {
            Some(scalar) => {
                proof {
                    scalar.lemma_with_repr();
                }
                out.push(scalar);
            },
            None => {
                return None;
            },
        }
        assert(out@ =~= parsed.take(j as int + 1));
        j += 1;
    }
    assert(out@ =~= parsed);
    Some(out)
}

} // verus!

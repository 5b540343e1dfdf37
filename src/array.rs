use fallible_iterator::FallibleIterator;
use vstd::prelude::*;

use crate::wire::be_signed;

verus! {

/// One dimension of an array: its number of elements and its first index.
#[derive(Clone, Copy, Debug, PartialEq, Eq, Structural)]
pub struct ArrayDimension {
    pub len: i32,
    pub lower_bound: i32,
}

/// The envelope of a binary array value: its dimensions, its null flag, and
/// the encoded bytes of each element slot in storage order (`None` for a
/// null slot).
#[derive(Debug)]
pub struct Array {
    dims: Vec<ArrayDimension>,
    has_nulls: bool,
    elements: Vec<Option<Vec<u8>>>,
}

pub struct ArrayView {
    pub dims: Seq<ArrayDimension>,
    pub has_nulls: bool,
    pub elements: Seq<Option<Seq<u8>>>,
}

pub open spec fn bytes_view(e: Option<Vec<u8>>) -> Option<Seq<u8>> {
    match e {
        Some(v) => Some(v@),
        None => None,
    }
}

impl View for Array {
    type V = ArrayView;

    closed spec fn view(&self) -> ArrayView {
        ArrayView {
            dims: self.dims@,
            has_nulls: self.has_nulls,
            elements: self.elements@.map_values(|e: Option<Vec<u8>>| bytes_view(e)),
        }
    }
}

/// The product of the dimension sizes.
pub open spec fn size_product(dims: Seq<ArrayDimension>) -> int
    decreases dims.len(),
{
    if dims.len() == 0 {
        1
    } else {
        size_product(dims.drop_last()) * dims.last().len as int
    }
}

/// The number of element slots that an array of these dimensions holds;
/// an array of no dimension holds none.
pub open spec fn slot_count(dims: Seq<ArrayDimension>) -> int {
    if dims.len() == 0 {
        0
    } else {
        size_product(dims)
    }
}

/// `s` is exactly the element stream of `elements`: for each slot a
/// big-endian 32-bit length, negative for a null slot, followed by that many
/// bytes of the element.
pub open spec fn element_stream(s: Seq<u8>, elements: Seq<Option<Seq<u8>>>) -> bool
    decreases elements.len(),
{
    if elements.len() == 0 {
        s.len() == 0
    } else if s.len() < 4 {
        false
    } else {
        let n = be_signed(s, 0, 4);
        if n < 0 {
            elements[0] is None && element_stream(s.subrange(4, s.len() as int), elements.drop_first())
        } else {
            4 + n <= s.len() && elements[0] == Some(s.subrange(4, 4 + n)) && element_stream(
                s.subrange(4 + n, s.len() as int),
                elements.drop_first(),
            )
        }
    }
}

/// `b` is the binary encoding of the array `a`: a header of the dimension
/// count, the null flag and the element type's identifier (32 bits each), then
/// a size and a lower bound for each dimension, then the element stream, with
/// one slot for each position of the array.
pub open spec fn envelope_matches(b: Seq<u8>, a: ArrayView) -> bool {
    let nd = a.dims.len() as int;
    &&& b.len() >= 12 + 8 * nd
    &&& be_signed(b, 0, 4) == nd
    &&& a.has_nulls == (be_signed(b, 4, 4) != 0)
    &&& forall|k: int|
        0 <= k < nd ==> {
            &&& a.dims[k].len >= 0
            &&& #[trigger] a.dims[k].len as int == be_signed(b, 12 + 8 * k, 4)
            &&& a.dims[k].lower_bound as int == be_signed(b, 16 + 8 * k, 4)
        }
    &&& a.elements.len() == slot_count(a.dims)
    &&& element_stream(b.subrange(12 + 8 * nd, b.len() as int), a.elements)
}

/// Each running product of the dimension sizes fits in an `i32`: the count
/// of element slots can be computed.
pub open spec fn counts_fit(dims: Seq<ArrayDimension>) -> bool {
    forall|j: int| 0 <= j <= dims.len() ==> #[trigger] size_product(dims.take(j)) <= i32::MAX
}

/// The array that `b` encodes, where it encodes one whose count of slots
/// fits in an `i32`.
pub open spec fn envelope_of(b: Seq<u8>) -> Option<ArrayView> {
    if exists|a: ArrayView| envelope_matches(b, a) && counts_fit(a.dims) {
        Some(choose|a: ArrayView| envelope_matches(b, a) && counts_fit(a.dims))
    } else {
        None
    }
}

proof fn lemma_stream_unique(s: Seq<u8>, e1: Seq<Option<Seq<u8>>>, e2: Seq<Option<Seq<u8>>>)
    requires
        element_stream(s, e1),
        element_stream(s, e2),
        e1.len() == e2.len(),
    ensures
        e1 == e2,
    decreases e1.len(),
{
    if e1.len() > 0 {
        let n = be_signed(s, 0, 4);
        if n < 0 {
            lemma_stream_unique(s.subrange(4, s.len() as int), e1.drop_first(), e2.drop_first());
        } else {
            lemma_stream_unique(s.subrange(4 + n, s.len() as int), e1.drop_first(), e2.drop_first());
        }
        assert(e1 =~= seq![e1[0]] + e1.drop_first());
        assert(e2 =~= seq![e2[0]] + e2.drop_first());
    } else {
        assert(e1 =~= e2);
    }
}

/// The bytes of an array determine it.
proof fn lemma_envelope_unique(b: Seq<u8>, a1: ArrayView, a2: ArrayView)
    requires
        envelope_matches(b, a1),
        envelope_matches(b, a2),
    ensures
        a1 == a2,
{
    assert forall|k: int| 0 <= k < a1.dims.len() implies a1.dims[k] == a2.dims[k] by {
        assert(a1.dims[k].len as int == be_signed(b, 12 + 8 * k, 4));
        assert(a2.dims[k].len as int == be_signed(b, 12 + 8 * k, 4));
    }
    assert(a1.dims =~= a2.dims);
    lemma_stream_unique(
        b.subrange(12 + 8 * (a1.dims.len() as int), b.len() as int),
        a1.elements,
        a2.elements,
    );
}

/// Relies on `postgres_protocol::types::array_from_sql`, which reads the
/// header and the dimensions, and on draining its `dimensions()` and
/// `values()` iterators, which read each dimension and each element slot and
/// fail where the element stream is cut short or has bytes left over.
#[verifier::external_body]
fn parse_envelope(raw: &[u8]) -> (r: Option<Array>)
    ensures
        r matches Some(a) ==> envelope_matches(raw@, a@) && counts_fit(a@.dims),
        r is None ==> forall|a: ArrayView| envelope_matches(raw@, a) ==> !counts_fit(a.dims),
{
    let array = postgres_protocol::types::array_from_sql(raw).ok()?;
    let dims = array.dimensions().map(|d| Ok(ArrayDimension { len: d.len, lower_bound: d.lower_bound }));
    let elements = array.values().map(|e| Ok(e.map(|s| s.to_vec())));
    Some(Array { dims: dims.collect().ok()?, has_nulls: array.has_nulls(), elements: elements.collect().ok()? })
}

impl Array {
    /// Reads the envelope of a binary array value; `None` where the bytes are
    /// not one, or where its count of slots does not fit in an `i32`.
    pub fn from_sql(raw: &[u8]) -> (r: Option<Array>)
        ensures
            r matches Some(a) ==> envelope_of(raw@) == Some(a@),
            r is None ==> envelope_of(raw@) is None,
    {
        let r = parse_envelope(raw);
        proof {
            if r is Some {
                let a = r->Some_0;
                let c = choose|c: ArrayView| envelope_matches(raw@, c) && counts_fit(c.dims);
                lemma_envelope_unique(raw@, a@, c);
            }
        }
        r
    }

    /// Whether the header marks the array as holding null elements.
    pub fn has_nulls(&self) -> (r: bool)
        ensures
            r == self@.has_nulls,
    {
        self.has_nulls
    }

    /// The dimensions, outermost first.
    pub fn dimensions(&self) -> (r: &Vec<ArrayDimension>)
        ensures
            r@ == self@.dims,
    {
        &self.dims
    }

    /// The encoded element slots in storage order; `None` for a null slot.
    pub fn values(&self) -> (r: &Vec<Option<Vec<u8>>>)
        ensures
            r@.map_values(|e: Option<Vec<u8>>| bytes_view(e)) == self@.elements,
    {
        &self.elements
    }
}

} // verus!

use vstd::prelude::*;

use crate::array::{bytes_view, envelope_of, Array, ArrayView};
use crate::literal::{
    hyphenated_hex, int_text_round_trip, null_literal, parse_int, parse_uuid, quoted_text_round_trip,
    single_quoted, unquote_text, uuid_text_round_trip,
};
use crate::pg_type::{Kind, PgType, ScalarType};
use crate::raw::{decodable, decode_spec, decode_value, format_value, value_literal, ValueView, Value};
use vstd::string::StringExecFns;

verus! {

/// Why a value could not be turned into a literal.
#[derive(Debug)]
pub enum SerializeError {
    /// A decoder was asked for a value of a type that it does not read.
    TypeMismatch,
    /// The bytes of an array value are not a well-formed array.
    MalformedArrayEnvelope,
    /// The bytes of a value are not a valid encoding of its type.
    MalformedValue { type_: String },
    /// The array has more than one dimension.
    UnsupportedDimensionality { dimensions: usize },
    /// There is no decoder for the type.
    UnsupportedType { name: String },
    /// The type is a floating-point one, whose text this library does not
    /// produce.
    FloatingPoint { name: String },
}

/// What an error stands for.
pub enum Failure {
    TypeMismatch,
    MalformedArrayEnvelope,
    MalformedValue(Seq<char>),
    UnsupportedDimensionality(int),
    UnsupportedType(Seq<char>),
    FloatingPoint(Seq<char>),
}

impl View for SerializeError {
    type V = Failure;

    open spec fn view(&self) -> Failure {
        match self {
            SerializeError::TypeMismatch => Failure::TypeMismatch,
            SerializeError::MalformedArrayEnvelope => Failure::MalformedArrayEnvelope,
            SerializeError::MalformedValue { type_ } => Failure::MalformedValue(type_@),
            SerializeError::UnsupportedDimensionality { dimensions } => Failure::UnsupportedDimensionality(
                *dimensions as int,
            ),
            SerializeError::UnsupportedType { name } => Failure::UnsupportedType(name@),
            SerializeError::FloatingPoint { name } => Failure::FloatingPoint(name@),
        }
    }
}

/// The literal or the failure that a result stands for.
pub open spec fn outcome(r: Result<String, SerializeError>) -> Result<Seq<char>, Failure> {
    match r {
        Ok(s) => Ok(s@),
        Err(e) => Err(e@),
    }
}

/// The literal of a present value of the scalar type `k` named `name`,
/// encoded as `b`.
pub open spec fn scalar_outcome(k: ScalarType, name: Seq<char>, b: Seq<u8>) -> Result<Seq<char>, Failure> {
    if k is Float4 || k is Float8 {
        Err(Failure::FloatingPoint(name))
    } else if !decodable(k) {
        Err(Failure::UnsupportedType(name))
    } else {
        match decode_spec(k, b) {
            Some(v) => Ok(value_literal(v, name)),
            None => Err(Failure::MalformedValue(name)),
        }
    }
}

/// The literal of one array slot: `NULL`, or that of its element.
pub open spec fn slot_outcome(k: ScalarType, name: Seq<char>, e: Option<Seq<u8>>) -> Result<Seq<char>, Failure> {
    match e {
        None => Ok("NULL"@),
        Some(b) => scalar_outcome(k, name, b),
    }
}

/// The literals of the slots joined by `, `, or the failure of the first slot
/// that has no literal.
pub open spec fn joined_slots(k: ScalarType, name: Seq<char>, es: Seq<Option<Seq<u8>>>) -> Result<Seq<char>, Failure>
    decreases es.len(),
{
    if es.len() == 0 {
        Ok(Seq::empty())
    } else {
        match joined_slots(k, name, es.drop_last()) {
            Err(f) => Err(f),
            Ok(prefix) => match slot_outcome(k, name, es.last()) {
                Err(f) => Err(f),
                Ok(t) => Ok(
                    if es.len() == 1 {
                        t
                    } else {
                        prefix + ", "@ + t
                    },
                ),
            },
        }
    }
}

/// The literal of an array of elements of the scalar type `k` named `name`:
/// `ARRAY[e1, e2, ...]::name[]`, refused where it has more than one
/// dimension.
pub open spec fn array_outcome(k: ScalarType, name: Seq<char>, a: ArrayView) -> Result<Seq<char>, Failure> {
    if a.dims.len() > 1 {
        Err(Failure::UnsupportedDimensionality(a.dims.len() as int))
    } else {
        match joined_slots(k, name, a.elements) {
            Err(f) => Err(f),
            Ok(body) => Ok("ARRAY["@ + body + "]::"@ + name + "[]"@),
        }
    }
}

/// Why the element type `m` of an array type has no literal form, if it has
/// none.
pub open spec fn member_failure(m: PgType) -> Option<Failure> {
    match m.kind {
        Kind::Array(_) => Some(Failure::UnsupportedType(m.name@)),
        Kind::Simple(k) => if k is Float4 || k is Float8 {
            Some(Failure::FloatingPoint(m.name@))
        } else if !decodable(k) {
            Some(Failure::UnsupportedType(m.name@))
        } else {
            None
        },
    }
}

proof fn lemma_failure_spreads(k: ScalarType, name: Seq<char>, es: Seq<Option<Seq<u8>>>, j: int)
    requires
        0 < j <= es.len(),
        joined_slots(k, name, es.take(j)) is Err,
    ensures
        joined_slots(k, name, es) == joined_slots(k, name, es.take(j)),
    decreases es.len(),
{
    if j == es.len() {
        assert(es.take(j) =~= es);
    } else {
        assert(es.drop_last().take(j) =~= es.take(j));
        lemma_failure_spreads(k, name, es.drop_last(), j);
    }
}

fn name_copy(s: &String) -> (r: String)
    ensures
        r@ == s@,
{
    s.clone()
}

/// The literal of a present value of the scalar type `k` named `name`.
pub fn serialize_scalar(k: ScalarType, name: &String, b: &[u8]) -> (r: Result<String, SerializeError>)
    ensures
        outcome(r) == scalar_outcome(k, name@, b@),
{
    match k {
        ScalarType::Float4 | ScalarType::Float8 => Err(
            SerializeError::FloatingPoint { name: name_copy(name) },
        ),
        ScalarType::Oid | ScalarType::Other => Err(
            SerializeError::UnsupportedType { name: name_copy(name) },
        ),
        _ => match decode_value(k, b) {
            Some(v) => Ok(format_value(&v, name)),
            None => Err(SerializeError::MalformedValue { type_: name_copy(name) }),
        },
    }
}

/// The literal of an array whose elements have the scalar type `k` named
/// `name`.
pub fn serialize_array(k: ScalarType, name: &String, a: &Array) -> (r: Result<String, SerializeError>)
    requires
        decodable(k),
    ensures
        outcome(r) == array_outcome(k, name@, a@),
{
    let dims = a.dimensions();
    if dims.len() > 1 {
        return Err(SerializeError::UnsupportedDimensionality { dimensions: dims.len() });
    }
    let elems = a.values();
    let ghost es = a@.elements;
    let mut body = String::new();
    let mut i: usize = 0;
    proof {
        assert(es.take(0) =~= Seq::<Option<Seq<u8>>>::empty());
    }
    while i < elems.len()
        invariant
            i <= elems@.len(),
            elems@.map_values(|e: Option<Vec<u8>>| bytes_view(e)) == es,
            es == a@.elements,
            a@.dims.len() <= 1,
            joined_slots(k, name@, es.take(i as int)) == Ok::<Seq<char>, Failure>(body@),
        decreases elems@.len() - i,
    {
        let ghost before = body@;
        proof {
            assert(es.take(i + 1).drop_last() =~= es.take(i as int));
            assert(es[i as int] == bytes_view(elems@[i as int]));
            assert(es.take(i + 1).last() == es[i as int]);
        }
        let lit = match &elems[i] {
            None => null_literal(),
            Some(b) => match serialize_scalar(k, name, b.as_slice()) {
                Ok(s) => s,
                Err(e) => {
                    proof {
                        assert(es.take(i + 1).last() == es[i as int]);
                        assert(joined_slots(k, name@, es.take(i + 1)) == Err::<Seq<char>, Failure>(e@));
                        lemma_failure_spreads(k, name@, es, i + 1);
                    }
                    return Err(e);
                },
            },
        };
        if i > 0 {
            body.append(", ");
        }
        body.append(lit.as_str());
        i = i + 1;
        proof {
            if i == 1 {
                assert(body@ =~= lit@);
            } else {
                assert(body@ =~= before + ", "@ + lit@);
            }
        }
    }
    proof {
        assert(es.take(i as int) =~= es);
    }
    let mut s = String::from_str("ARRAY[");
    s.append(body.as_str());
    s.append("]::");
    s.append(name.as_str());
    s.append("[]");
    proof {
        assert(s@ =~= "ARRAY["@ + body@ + "]::"@ + name@ + "[]"@);
    }
    Ok(s)
}

/// The scalar type of a type's values, where it is a simple one.
pub open spec fn scalar_of(t: PgType) -> ScalarType {
    match t.kind {
        Kind::Simple(k) => k,
        Kind::Array(_) => ScalarType::Other,
    }
}

/// The literal of a column value of type `t`, or the reason there is none:
/// `NULL` for an absent value, whatever the type; for a scalar type the
/// literal of its decoded value; for an array type, where the element type
/// has a literal form and the bytes are an array, the array's literal.
pub open spec fn column_outcome(t: PgType, value: Option<Seq<u8>>) -> Result<Seq<char>, Failure> {
    match value {
        None => Ok("NULL"@),
        Some(b) => match t.kind {
            Kind::Simple(k) => scalar_outcome(k, t.name@, b),
            Kind::Array(m) => match member_failure(*m) {
                Some(f) => Err(f),
                None => match envelope_of(b) {
                    None => Err(Failure::MalformedArrayEnvelope),
                    Some(a) => array_outcome(scalar_of(*m), m.name@, a),
                },
            },
        },
    }
}

pub open spec fn value_bytes(value: Option<&[u8]>) -> Option<Seq<u8>> {
    match value {
        Some(b) => Some(b@),
        None => None,
    }
}

/// The literal of a column value of type `type_`.
pub fn serialize(type_: &PgType, value: Option<&[u8]>) -> (r: Result<String, SerializeError>)
    ensures
        outcome(r) == column_outcome(*type_, value_bytes(value)),
{
    let b = match value {
        None => return Ok(null_literal()),
        Some(b) => b,
    };
    match &type_.kind {
        Kind::Simple(k) => serialize_scalar(*k, &type_.name, b),
        Kind::Array(m) => {
            let k = match &m.kind {
                Kind::Array(_) => return Err(SerializeError::UnsupportedType { name: name_copy(&m.name) }),
                Kind::Simple(k) => *k,
            };
            match k {
                ScalarType::Float4 | ScalarType::Float8 => Err(
                    SerializeError::FloatingPoint { name: name_copy(&m.name) },
                ),
                ScalarType::Oid | ScalarType::Other => Err(
                    SerializeError::UnsupportedType { name: name_copy(&m.name) },
                ),
                _ => match Array::from_sql(b) {
                    None => Err(SerializeError::MalformedArrayEnvelope),
                    Some(a) => serialize_array(k, &m.name, &a),
                },
            }
        },
    }
}

/// Values that have a literal for a column of a given type.
pub trait SerializeForInsert: Sized {
    /// The literal of `value` for a column of type `type_`, or the reason
    /// there is none.
    spec fn literal_outcome(type_: PgType, value: Self) -> Result<Seq<char>, Failure>;

    fn serialize(type_: &PgType, value: &Self) -> (r: Result<String, SerializeError>)
        ensures
            outcome(r) == Self::literal_outcome(*type_, *value),
    ;
}

impl<'a> SerializeForInsert for Raw<'a> {
    open spec fn literal_outcome(type_: PgType, value: Raw<'a>) -> Result<Seq<char>, Failure> {
        column_outcome(type_, Some(value.raw@))
    }

    fn serialize(type_: &PgType, value: &Raw<'a>) -> (r: Result<String, SerializeError>) {
        serialize(type_, Some(value.raw))
    }
}

impl<T: SerializeForInsert> SerializeForInsert for Option<T> {
    open spec fn literal_outcome(type_: PgType, value: Option<T>) -> Result<Seq<char>, Failure> {
        match value {
            None => Ok("NULL"@),
            Some(v) => T::literal_outcome(type_, v),
        }
    }

    fn serialize(type_: &PgType, value: &Option<T>) -> (r: Result<String, SerializeError>) {
        match value {
            None => Ok(null_literal()),
            Some(v) => T::serialize(type_, v),
        }
    }
}

/// Whether a decoder for `as_type` reads values of the type shaped `kind`:
/// each decoder reads its own scalar type, and the JSON one reads `jsonb` too.
pub open spec fn accepts(as_type: ScalarType, kind: Kind) -> bool {
    match kind {
        Kind::Simple(k) => decodable(k) && (k == as_type || (as_type is Json && k is Jsonb)),
        Kind::Array(_) => false,
    }
}

/// A column value still in its binary encoding, with its declared type.
pub struct Raw<'a> {
    pub raw: &'a [u8],
    pub type_: &'a PgType,
}

impl<'a> Raw<'a> {
    pub fn new(raw: &'a [u8], type_: &'a PgType) -> (r: Raw<'a>)
        ensures
            r.raw@ == raw@,
            r.type_ == type_,
    {
        Raw { raw, type_ }
    }

    /// Decodes the value with the decoder of `as_type`, which must accept
    /// the declared type.
    pub fn try_into(&self, as_type: ScalarType) -> (r: Result<Value, SerializeError>)
        ensures
            !accepts(as_type, self.type_.kind) ==> (r matches Err(e) && e@ == Failure::TypeMismatch),
            accepts(as_type, self.type_.kind) ==> match decode_spec(scalar_of(*self.type_), self.raw@) {
                Some(v) => (r matches Ok(x) && x@ == v && x.well_formed()),
                None => (r matches Err(e) && e@ == Failure::MalformedValue(self.type_.name@)),
            },
    {
        let k = match &self.type_.kind {
            Kind::Array(_) => return Err(SerializeError::TypeMismatch),
            Kind::Simple(k) => *k,
        };
        let family = k == as_type || (as_type == ScalarType::Json && k == ScalarType::Jsonb);
        match k {
            ScalarType::Float4 | ScalarType::Float8 | ScalarType::Oid | ScalarType::Other => {
                return Err(SerializeError::TypeMismatch);
            },
            _ => {},
        }
        if !family {
            return Err(SerializeError::TypeMismatch);
        }
        match decode_value(k, self.raw) {
            Some(v) => Ok(v),
            None => Err(SerializeError::MalformedValue { type_: name_copy(&self.type_.name) }),
        }
    }
}

/// An absent value is `NULL`, whatever its type, as a column value and as an
/// array element.
pub proof fn absent_value_is_null(t: PgType, k: ScalarType, name: Seq<char>)
    ensures
        column_outcome(t, None) == Ok::<Seq<char>, Failure>("NULL"@),
        slot_outcome(k, name, None) == Ok::<Seq<char>, Failure>("NULL"@),
{
}

/// An array of one dimension and no element is `ARRAY[]::name[]`.
pub proof fn empty_array_literal(k: ScalarType, name: Seq<char>, a: ArrayView)
    requires
        a.dims.len() == 1,
        a.elements.len() == 0,
    ensures
        array_outcome(k, name, a) == Ok::<Seq<char>, Failure>("ARRAY[]::"@ + name + "[]"@),
{
    reveal_strlit("ARRAY[");
    reveal_strlit("]::");
    reveal_strlit("ARRAY[]::");
    assert(("ARRAY["@ + Seq::<char>::empty() + "]::"@ + name + "[]"@) =~= ("ARRAY[]::"@ + name + "[]"@));
}

/// An array of more than one dimension is refused as a whole, whatever its
/// elements.
pub proof fn multi_dimensional_refused(k: ScalarType, name: Seq<char>, a: ArrayView)
    requires
        a.dims.len() > 1,
    ensures
        array_outcome(k, name, a) == Err::<Seq<char>, Failure>(
            Failure::UnsupportedDimensionality(a.dims.len() as int),
        ),
{
}

/// The literal of a decoded text, integer, UUID or boolean reads back as the value
/// it was made from.
pub proof fn scalar_literal_reads_back(k: ScalarType, name: Seq<char>, b: Seq<u8>)
    requires
        decodable(k),
        decode_spec(k, b) is Some,
    ensures
        scalar_outcome(k, name, b) is Ok,
        match (decode_spec(k, b), scalar_outcome(k, name, b)) {
            (Some(ValueView::Text(s)), Ok(lit)) => unquote_text(lit) == s,
            (Some(ValueView::Int(i)), Ok(lit)) => parse_int(lit) == i,
            (Some(ValueView::Uuid(u)), Ok(lit)) => parse_uuid(lit.subrange(1, lit.len() - 1)) == u,
            (Some(ValueView::Bool(v)), Ok(lit)) => lit == (if v {
                "true"@
            } else {
                "false"@
            }),
            _ => true,
        },
{
    match decode_spec(k, b) {
        Some(ValueView::Text(s)) => quoted_text_round_trip(s),
        Some(ValueView::Int(i)) => int_text_round_trip(i),
        Some(ValueView::Uuid(u)) => {
            uuid_text_round_trip(u);
            let lit = single_quoted(hyphenated_hex(u));
            assert(lit.subrange(1, lit.len() - 1) =~= hyphenated_hex(u));
        },
        _ => {},
    }
}

} // verus!

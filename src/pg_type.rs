use vstd::prelude::*;

verus! {

/// The scalar types that a column or an array element can be declared with.
#[derive(Clone, Copy, Debug, PartialEq, Eq, Structural)]
pub enum ScalarType {
    /// `varchar`, `text`, `bpchar`, `name` and `unknown`.
    Text,
    Bool,
    /// The one-byte `"char"` type.
    Char,
    Int2,
    Int4,
    Int8,
    Float4,
    Float8,
    Uuid,
    Date,
    TimestampTz,
    Json,
    Jsonb,
    /// Object identifiers, which have no literal form here.
    Oid,
    /// Any type that has no decoder.
    Other,
}

/// How a type is built: a scalar, or an array of some element type.
#[derive(Debug)]
pub enum Kind {
    Simple(ScalarType),
    Array(Box<PgType>),
}

/// A database type as the server reports it: its name and its shape.
#[derive(Debug)]
pub struct PgType {
    pub name: String,
    pub kind: Kind,
}

impl PgType {
    /// A scalar type of the given name.
    pub fn simple(name: String, scalar: ScalarType) -> (r: PgType)
        ensures
            r.name@ == name@,
            r.kind == Kind::Simple(scalar),
    {
        PgType { name, kind: Kind::Simple(scalar) }
    }

    /// An array type of the given name over `element`.
    pub fn array(name: String, element: PgType) -> (r: PgType)
        ensures
            r.name@ == name@,
            r.kind == Kind::Array(Box::new(element)),
    {
        PgType { name, kind: Kind::Array(Box::new(element)) }
    }

    /// The name of the type, as written in a cast.
    pub fn name(&self) -> (r: &String)
        ensures
            r@ == self.name@,
    {
        &self.name
    }
}

} // verus!

use tokio_postgres::types::FromSql;
use vstd::prelude::*;

use crate::literal::{
    bool_literal, hyphenated_hex, int_literal, int_text, quoted_text, single_quoted, text_literal,
    uuid_literal,
};
use crate::pg_type::{Kind, PgType, ScalarType};
use crate::wire::{be_whole, decode_bool, decode_char, decode_int2, decode_int4, decode_int8};
use vstd::string::StringExecFns;

verus! {

/// The text that UTF-8 bytes decode to; `None` where they are not UTF-8.
pub uninterp spec fn utf8_decoded(b: Seq<u8>) -> Option<Seq<char>>;

/// The `YYYY-MM-DD` text of the date that many days after 2000-01-01;
/// `None` where that date is out of the calendar's range.
pub uninterp spec fn date_text(days: int) -> Option<Seq<char>>;

/// The RFC 3339 text, in UTC, of the instant that many microseconds after
/// 2000-01-01 00:00:00 UTC; `None` where it is out of the calendar's range.
pub uninterp spec fn timestamptz_text(micros: int) -> Option<Seq<char>>;

/// The JSON document that the bytes hold, written back without whitespace
/// and with each object's keys in `serde_json::Map`'s order; `None` where
/// the bytes hold no JSON document.
pub uninterp spec fn compact_json(b: Seq<u8>) -> Option<Seq<char>>;

pub open spec fn opt_view(o: Option<String>) -> Option<Seq<char>> {
    match o {
        Some(s) => Some(s@),
        None => None,
    }
}

/// Relies on `std::str::from_utf8` through
/// `postgres_protocol::types::text_from_sql`: the text of valid UTF-8 bytes.
#[verifier::external_body]
fn utf8_text(b: &[u8]) -> (r: Option<String>)
    ensures
        opt_view(r) == utf8_decoded(b@),
{
    postgres_protocol::types::text_from_sql(b).ok().map(|s| s.to_string())
}

/// Relies on the `FromSql` impl of `time::Date` in tokio-postgres (days since
/// 2000-01-01, refused out of range) and on `time::Date::format`.
#[verifier::external_body]
fn format_date(days: i32) -> (r: Option<String>)
    ensures
        opt_view(r) == date_text(days as int),
{
    let bytes = days.to_be_bytes();
    let date = <time::Date as FromSql>::from_sql(&tokio_postgres::types::Type::DATE, &bytes);
    date.ok().map(|d| d.format("%Y-%m-%d"))
}

/// Relies on the `FromSql` impl of `time::OffsetDateTime` in tokio-postgres
/// (microseconds since 2000-01-01 UTC, refused out of range) and on
/// `time::OffsetDateTime::format` with `time::Format::Rfc3339`.
#[verifier::external_body]
fn format_timestamptz(micros: i64) -> (r: Option<String>)
    ensures
        opt_view(r) == timestamptz_text(micros as int),
{
    let bytes = micros.to_be_bytes();
    let ty = tokio_postgres::types::Type::TIMESTAMPTZ;
    let at = <time::OffsetDateTime as FromSql>::from_sql(&ty, &bytes);
    at.ok().map(|t| t.format(time::Format::Rfc3339))
}

/// Relies on `serde_json::from_slice` into a `serde_json::Value` and on the
/// value's `to_string`, which writes it back without whitespace; both depend
/// on the bytes alone.
#[verifier::external_body]
fn reformat_json(b: &[u8]) -> (r: Option<String>)
    ensures
        opt_view(r) == compact_json(b@),
{
    serde_json::from_slice::<serde_json::Value>(b).ok().map(|v| v.to_string())
}

/// A decoded column value.
#[derive(Debug)]
pub enum Value {
    Text(String),
    Bool(bool),
    Char(i8),
    Int2(i16),
    Int4(i32),
    Int8(i64),
    /// The 16 bytes of a UUID.
    Uuid(Vec<u8>),
    /// A date, as `YYYY-MM-DD`.
    Date(String),
    /// A timestamp with time zone, as RFC 3339 text in UTC.
    TimestampTz(String),
    /// A JSON document, as compact text.
    Json(String),
}

/// What a decoded value stands for, as far as its literal is concerned.
pub enum ValueView {
    Text(Seq<char>),
    Bool(bool),
    Int(int),
    Uuid(Seq<u8>),
    /// Date and time text that needs quotes and nothing else.
    Quoted(Seq<char>),
    Json(Seq<char>),
}

impl Value {
    /// A UUID holds exactly 16 bytes.
    pub open spec fn well_formed(&self) -> bool {
        match self {
            Value::Uuid(b) => b@.len() == 16,
            _ => true,
        }
    }
}

impl View for Value {
    type V = ValueView;

    open spec fn view(&self) -> ValueView {
        match self {
            Value::Text(s) => ValueView::Text(s@),
            Value::Bool(b) => ValueView::Bool(*b),
            Value::Char(i) => ValueView::Int(*i as int),
            Value::Int2(i) => ValueView::Int(*i as int),
            Value::Int4(i) => ValueView::Int(*i as int),
            Value::Int8(i) => ValueView::Int(*i as int),
            Value::Uuid(b) => ValueView::Uuid(b@),
            Value::Date(s) => ValueView::Quoted(s@),
            Value::TimestampTz(s) => ValueView::Quoted(s@),
            Value::Json(s) => ValueView::Json(s@),
        }
    }
}

pub open spec fn int_value(o: Option<int>) -> Option<ValueView> {
    match o {
        Some(i) => Some(ValueView::Int(i)),
        None => None,
    }
}

pub open spec fn quoted_value(o: Option<Seq<char>>) -> Option<ValueView> {
    match o {
        Some(t) => Some(ValueView::Quoted(t)),
        None => None,
    }
}

pub open spec fn json_value(o: Option<Seq<char>>) -> Option<ValueView> {
    match o {
        Some(t) => Some(ValueView::Json(t)),
        None => None,
    }
}

/// Whether the scalar type has a decoder here.
pub open spec fn decodable(k: ScalarType) -> bool {
    !(k is Float4 || k is Float8 || k is Oid || k is Other)
}

/// What the binary encoding `b` of a value of type `k` decodes to; `None`
/// where the bytes are malformed for the type.
pub open spec fn decode_spec(k: ScalarType, b: Seq<u8>) -> Option<ValueView> {
    match k {
        ScalarType::Text => match utf8_decoded(b) {
            Some(s) => Some(ValueView::Text(s)),
            None => None,
        },
        ScalarType::Bool => if b.len() == 1 {
            Some(ValueView::Bool(b[0] != 0))
        } else {
            None
        },
        ScalarType::Char => int_value(be_whole(b, 1)),
        ScalarType::Int2 => int_value(be_whole(b, 2)),
        ScalarType::Int4 => int_value(be_whole(b, 4)),
        ScalarType::Int8 => int_value(be_whole(b, 8)),
        ScalarType::Uuid => if b.len() == 16 {
            Some(ValueView::Uuid(b))
        } else {
            None
        },
        ScalarType::Date => match be_whole(b, 4) {
            Some(d) => quoted_value(date_text(d)),
            None => None,
        },
        ScalarType::TimestampTz => match be_whole(b, 8) {
            Some(t) => quoted_value(timestamptz_text(t)),
            None => None,
        },
        ScalarType::Json => json_value(compact_json(b)),
        ScalarType::Jsonb => if b.len() >= 1 && b[0] == 1 {
            json_value(compact_json(b.drop_first()))
        } else {
            None
        },
        _ => None,
    }
}

/// The literal of a decoded value of a type named `cast_name`.
pub open spec fn value_literal(v: ValueView, cast_name: Seq<char>) -> Seq<char> {
    match v {
        ValueView::Text(s) => quoted_text(s),
        ValueView::Bool(b) => if b {
            "true"@
        } else {
            "false"@
        },
        ValueView::Int(i) => int_text(i),
        ValueView::Uuid(b) => single_quoted(hyphenated_hex(b)),
        ValueView::Quoted(t) => single_quoted(t),
        ValueView::Json(t) => quoted_text(t) + "::"@ + cast_name,
    }
}

pub open spec fn value_opt_view(o: Option<Value>) -> Option<ValueView> {
    match o {
        Some(v) => Some(v@),
        None => None,
    }
}

/// Decodes the binary encoding of a value of a decodable scalar type.
pub fn decode_value(k: ScalarType, b: &[u8]) -> (r: Option<Value>)
    requires
        decodable(k),
    ensures
        value_opt_view(r) == decode_spec(k, b@),
        r matches Some(v) ==> v.well_formed(),
{
    match k {
        ScalarType::Text => match utf8_text(b) {
            Some(s) => Some(Value::Text(s)),
            None => None,
        },
        ScalarType::Bool => match decode_bool(b) {
            Some(v) => Some(Value::Bool(v)),
            None => None,
        },
        ScalarType::Char => match decode_char(b) {
            Some(v) => Some(Value::Char(v)),
            None => None,
        },
        ScalarType::Int2 => match decode_int2(b) {
            Some(v) => Some(Value::Int2(v)),
            None => None,
        },
        ScalarType::Int4 => match decode_int4(b) {
            Some(v) => Some(Value::Int4(v)),
            None => None,
        },
        ScalarType::Int8 => match decode_int8(b) {
            Some(v) => Some(Value::Int8(v)),
            None => None,
        },
        ScalarType::Uuid => if b.len() == 16 {
            let mut bytes: Vec<u8> = Vec::new();
            let mut i: usize = 0;
            while i < 16
                invariant
                    i <= 16,
                    b@.len() == 16,
                    bytes@ == b@.subrange(0, i as int),
                decreases 16 - i,
            {
                bytes.push(b[i]);
                i = i + 1;
                proof {
                    assert(bytes@ =~= b@.subrange(0, i as int));
                }
            }
            proof {
                assert(bytes@ =~= b@);
            }
            Some(Value::Uuid(bytes))
        } else {
            None
        },
        ScalarType::Date => match decode_int4(b) {
            Some(d) => match format_date(d) {
                Some(t) => Some(Value::Date(t)),
                None => None,
            },
            None => None,
        },
        ScalarType::TimestampTz => match decode_int8(b) {
            Some(t) => match format_timestamptz(t) {
                Some(s) => Some(Value::TimestampTz(s)),
                None => None,
            },
            None => None,
        },
        ScalarType::Json => match reformat_json(b) {
            Some(s) => Some(Value::Json(s)),
            None => None,
        },
        ScalarType::Jsonb => if b.len() >= 1 && b[0] == 1 {
            let (_, rest) = b.split_at(1);
            proof {
                assert(rest@ =~= b@.drop_first());
            }
            match reformat_json(rest) {
                Some(s) => Some(Value::Json(s)),
                None => None,
            }
        } else {
            None
        },
        _ => None,
    }
}

/// The literal of a decoded value of the type named `cast_name`.
pub fn format_value(v: &Value, cast_name: &String) -> (r: String)
    requires
        v.well_formed(),
    ensures
        r@ == value_literal(v@, cast_name@),
{
    match v {
        Value::Text(s) => text_literal(s.as_str()),
        Value::Bool(b) => bool_literal(*b),
        Value::Char(i) => int_literal(*i as i64),
        Value::Int2(i) => int_literal(*i as i64),
        Value::Int4(i) => int_literal(*i as i64),
        Value::Int8(i) => int_literal(*i),
        Value::Uuid(b) => uuid_literal(b.as_slice()),
        Value::Date(s) => crate::literal::quote_plain(s.as_str()),
        Value::TimestampTz(s) => crate::literal::quote_plain(s.as_str()),
        Value::Json(s) => {
            let mut lit = text_literal(s.as_str());
            lit.append("::");
            lit.append(cast_name.as_str());
            lit
        },
    }
}

} // verus!

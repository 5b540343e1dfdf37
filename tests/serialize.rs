use pg_gensql::array::Array;
use pg_gensql::literal::{int_literal, text_literal};
use pg_gensql::pg_type::{PgType, ScalarType};
use pg_gensql::raw::{decode_value, Value};
use pg_gensql::serialize_for_insert::{
    serialize, serialize_scalar, Raw, SerializeError, SerializeForInsert,
};
use pg_gensql::wire::{decode_int2, decode_int4, decode_int8};

fn simple(name: &str, k: ScalarType) -> PgType {
    PgType::simple(name.to_string(), k)
}

fn array_of(name: &str, elem_name: &str, k: ScalarType) -> PgType {
    PgType::array(name.to_string(), simple(elem_name, k))
}

fn be32(v: i32) -> Vec<u8> {
    v.to_be_bytes().to_vec()
}

/// Builds a binary array value of the given dimensions and element slots.
fn envelope(dims: &[(i32, i32)], has_nulls: bool, oid: u32, elems: &[Option<Vec<u8>>]) -> Vec<u8> {
    let mut out = Vec::new();
    out.extend(be32(dims.len() as i32));
    out.extend(be32(if has_nulls { 1 } else { 0 }));
    out.extend(oid.to_be_bytes());
    for (len, lower) in dims {
        out.extend(be32(*len));
        out.extend(be32(*lower));
    }
    for e in elems {
        match e {
            None => out.extend(be32(-1)),
            Some(b) => {
                out.extend(be32(b.len() as i32));
                out.extend(b.iter().copied());
            }
        }
    }
    out
}

#[test]
fn int4_scenario() {
    let ty = simple("int4", ScalarType::Int4);
    let raw = 65537i32.to_be_bytes();
    assert_eq!(serialize(&ty, Some(&raw)).unwrap(), "65537");
}

#[test]
fn bool_array_scenario() {
    let ty = array_of("_bool", "bool", ScalarType::Bool);
    let raw = envelope(&[(3, 1)], true, 16, &[Some(vec![1]), None, Some(vec![0])]);
    assert_eq!(serialize(&ty, Some(&raw)).unwrap(), "ARRAY[true, NULL, false]::bool[]");
}

#[test]
fn uuid_scenario() {
    let ty = simple("uuid", ScalarType::Uuid);
    let raw: [u8; 16] = [
        0x3c, 0x8b, 0xc5, 0x04, 0x52, 0x81, 0x47, 0x1b, 0xbd, 0x3d, 0x0a, 0xa8, 0x2d, 0xa7, 0xc6,
        0xc1,
    ];
    assert_eq!(
        serialize(&ty, Some(&raw)).unwrap(),
        "'3c8bc504-5281-471b-bd3d-0aa82da7c6c1'"
    );
}

#[test]
fn jsonb_scenario() {
    let ty = simple("jsonb", ScalarType::Jsonb);
    let mut raw = vec![1u8];
    raw.extend_from_slice(b"{\"hello\":\"world\"}");
    assert_eq!(serialize(&ty, Some(&raw)).unwrap(), "'{\"hello\":\"world\"}'::jsonb");
}

#[test]
fn json_is_compacted_and_escaped() {
    let ty = simple("json", ScalarType::Json);
    let raw = b"{ \"a\" : \"it's\" }";
    assert_eq!(serialize(&ty, Some(raw)).unwrap(), "'{\"a\":\"it''s\"}'::json");
}

#[test]
fn jsonb_with_wrong_version_is_malformed() {
    let ty = simple("jsonb", ScalarType::Jsonb);
    let raw = b"\x02{}";
    assert!(matches!(
        serialize(&ty, Some(raw)),
        Err(SerializeError::MalformedValue { type_ }) if type_ == "jsonb"
    ));
}

#[test]
fn oid_scenario() {
    let ty = simple("oid", ScalarType::Oid);
    let raw = 7u32.to_be_bytes();
    assert!(matches!(
        serialize(&ty, Some(&raw)),
        Err(SerializeError::UnsupportedType { name }) if name == "oid"
    ));
}

#[test]
fn null_is_null_for_every_type() {
    let types = vec![
        simple("text", ScalarType::Text),
        simple("int4", ScalarType::Int4),
        simple("oid", ScalarType::Oid),
        simple("float8", ScalarType::Float8),
        array_of("_int4", "int4", ScalarType::Int4),
    ];
    for ty in &types {
        assert_eq!(serialize(ty, None).unwrap(), "NULL");
    }
}

#[test]
fn empty_array_scenario() {
    let ty = array_of("_int4", "int4", ScalarType::Int4);
    let raw = envelope(&[(0, 1)], false, 23, &[]);
    assert_eq!(serialize(&ty, Some(&raw)).unwrap(), "ARRAY[]::int4[]");
}

#[test]
fn two_dimensional_array_is_refused() {
    let ty = array_of("_int4", "int4", ScalarType::Int4);
    let one = Some(be32(1));
    let raw = envelope(&[(2, 1), (1, 1)], false, 23, &[one.clone(), one]);
    assert!(matches!(
        serialize(&ty, Some(&raw)),
        Err(SerializeError::UnsupportedDimensionality { dimensions: 2 })
    ));
}

#[test]
fn truncated_array_is_malformed_envelope() {
    let ty = array_of("_int4", "int4", ScalarType::Int4);
    let mut raw = envelope(&[(2, 1)], false, 23, &[Some(be32(1)), Some(be32(2))]);
    raw.truncate(raw.len() - 2);
    assert!(matches!(serialize(&ty, Some(&raw)), Err(SerializeError::MalformedArrayEnvelope)));
}

#[test]
fn array_with_bad_element_fails() {
    let ty = array_of("_int4", "int4", ScalarType::Int4);
    let raw = envelope(&[(2, 1)], false, 23, &[Some(be32(1)), Some(vec![0, 1])]);
    assert!(matches!(
        serialize(&ty, Some(&raw)),
        Err(SerializeError::MalformedValue { type_ }) if type_ == "int4"
    ));
}

#[test]
fn text_array_elements_are_quoted() {
    let ty = array_of("_text", "text", ScalarType::Text);
    let raw = envelope(&[(2, 0)], false, 25, &[Some(b"a'b".to_vec()), Some(b"c".to_vec())]);
    assert_eq!(serialize(&ty, Some(&raw)).unwrap(), "ARRAY['a''b', 'c']::text[]");
}

#[test]
fn array_of_oid_is_unsupported() {
    let ty = array_of("_oid", "oid", ScalarType::Oid);
    let raw = envelope(&[(0, 1)], false, 26, &[]);
    assert!(matches!(
        serialize(&ty, Some(&raw)),
        Err(SerializeError::UnsupportedType { name }) if name == "oid"
    ));
}

#[test]
fn text_with_quote_and_backslash() {
    let ty = simple("text", ScalarType::Text);
    let raw = b"it's a \\ test";
    assert_eq!(serialize(&ty, Some(raw)).unwrap(), " E'it''s a \\\\ test'");
    assert_eq!(text_literal("Hello, World!"), "'Hello, World!'");
}

#[test]
fn invalid_utf8_is_malformed() {
    let ty = simple("varchar", ScalarType::Text);
    let raw = [0xffu8, 0xfe];
    assert!(matches!(
        serialize(&ty, Some(&raw)),
        Err(SerializeError::MalformedValue { type_ }) if type_ == "varchar"
    ));
}

#[test]
fn integers_of_each_width() {
    assert_eq!(serialize(&simple("char", ScalarType::Char), Some(b"a")).unwrap(), "97");
    assert_eq!(serialize(&simple("int2", ScalarType::Int2), Some(&[0xff, 0xd6])).unwrap(), "-42");
    let big = 4294967297i64.to_be_bytes();
    assert_eq!(serialize(&simple("int8", ScalarType::Int8), Some(&big)).unwrap(), "4294967297");
    let min = i64::MIN.to_be_bytes();
    assert_eq!(
        serialize(&simple("int8", ScalarType::Int8), Some(&min)).unwrap(),
        "-9223372036854775808"
    );
    assert_eq!(int_literal(0), "0");
    assert_eq!(decode_int2(&[0x80, 0x00]), Some(i16::MIN));
    assert_eq!(decode_int4(&[0xff, 0xff, 0xff, 0xff]), Some(-1));
    assert_eq!(decode_int8(&[1, 2, 3]), None);
}

#[test]
fn int4_of_wrong_length_is_malformed() {
    let ty = simple("int4", ScalarType::Int4);
    assert!(matches!(
        serialize(&ty, Some(&[0, 1, 2])),
        Err(SerializeError::MalformedValue { type_ }) if type_ == "int4"
    ));
}

#[test]
fn booleans() {
    let ty = simple("bool", ScalarType::Bool);
    assert_eq!(serialize(&ty, Some(&[1])).unwrap(), "true");
    assert_eq!(serialize(&ty, Some(&[0])).unwrap(), "false");
    assert!(serialize(&ty, Some(&[0, 0])).is_err());
}

#[test]
fn date_and_timestamp() {
    let date = simple("date", ScalarType::Date);
    assert_eq!(serialize(&date, Some(&be32(0))).unwrap(), "'2000-01-01'");
    assert_eq!(serialize(&date, Some(&be32(7671))).unwrap(), "'2021-01-01'");
    let ts = simple("timestamptz", ScalarType::TimestampTz);
    let micros: i64 = 631_152_000_000_000 + 5_400_000_000;
    assert_eq!(
        serialize(&ts, Some(&micros.to_be_bytes())).unwrap(),
        "'2020-01-01T01:30:00+00:00'"
    );
    assert!(serialize(&date, Some(&be32(i32::MAX))).is_err());
}

#[test]
fn floats_are_left_to_the_caller() {
    let ty = simple("float4", ScalarType::Float4);
    assert!(matches!(
        serialize(&ty, Some(&[0, 0, 0, 0])),
        Err(SerializeError::FloatingPoint { name }) if name == "float4"
    ));
}

#[test]
fn raw_decodes_with_accepting_decoder_only() {
    let ty = simple("jsonb", ScalarType::Jsonb);
    let bytes = b"\x01[1, 2]";
    let raw = Raw::new(bytes, &ty);
    assert!(matches!(Raw::try_into(&raw, ScalarType::Json), Ok(Value::Json(s)) if s == "[1,2]"));
    assert!(matches!(Raw::try_into(&raw, ScalarType::Text), Err(SerializeError::TypeMismatch)));
    let int_ty = simple("int4", ScalarType::Int4);
    let raw = Raw::new(&[0, 0, 0, 5], &int_ty);
    assert!(matches!(Raw::try_into(&raw, ScalarType::Int4), Ok(Value::Int4(5))));
    assert!(matches!(Raw::try_into(&raw, ScalarType::Int8), Err(SerializeError::TypeMismatch)));
}

#[test]
fn array_envelope_parts() {
    let raw = envelope(&[(2, 5)], true, 23, &[None, Some(be32(9))]);
    let a = Array::from_sql(&raw).unwrap();
    assert!(a.has_nulls());
    assert_eq!(a.dimensions().len(), 1);
    assert_eq!(a.dimensions()[0].len, 2);
    assert_eq!(a.dimensions()[0].lower_bound, 5);
    assert_eq!(a.values(), &vec![None, Some(be32(9))]);
    assert!(Array::from_sql(&raw[..10]).is_none());
}

#[test]
fn scalar_decode_and_uuid_case() {
    let v = decode_value(ScalarType::Uuid, &[0xAB; 16]).unwrap();
    assert!(matches!(v, Value::Uuid(ref b) if b.len() == 16));
    let lit = serialize_scalar(ScalarType::Uuid, &"uuid".to_string(), &[0xAB; 16]).unwrap();
    assert_eq!(lit, "'abababab-abab-abab-abab-abababababab'");
}

#[test]
fn trait_serializes_raw_and_absent_values() {
    let ty = simple("int8", ScalarType::Int8);
    let bytes = (-7i64).to_be_bytes();
    let raw = Raw::new(&bytes, &ty);
    assert_eq!(<Raw as SerializeForInsert>::serialize(&ty, &raw).unwrap(), "-7");
    let present = Some(Raw::new(&bytes, &ty));
    assert_eq!(<Option<Raw> as SerializeForInsert>::serialize(&ty, &present).unwrap(), "-7");
    let absent: Option<Raw> = None;
    assert_eq!(<Option<Raw> as SerializeForInsert>::serialize(&ty, &absent).unwrap(), "NULL");
}

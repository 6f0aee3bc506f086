use teanga_wasm::decode::{decode, DecodeError};
use teanga_wasm::encode::encode;
use teanga_wasm::layer::Layer;
use teanga_wasm::value::Value;

fn ints(ns: &[i64]) -> Value {
    Value::Array(ns.iter().map(|&n| Value::Int(n)).collect())
}

fn pair(a: i64, b: i64) -> Value {
    Value::Array(vec![Value::Int(a), Value::Int(b)])
}

fn triple(a: i64, b: i64, c: i64) -> Value {
    Value::Array(vec![Value::Int(a), Value::Int(b), Value::Int(c)])
}

fn s(text: &str) -> Value {
    Value::Str(text.to_string())
}

#[test]
fn string_decodes_as_characters() {
    assert_eq!(decode(&s("hello")), Ok(Layer::Characters("hello".to_string())));
}

#[test]
fn string_array_decodes_as_ls() {
    let v = Value::Array(vec![s("a"), s("b")]);
    assert_eq!(decode(&v), Ok(Layer::LS(vec!["a".to_string(), "b".to_string()])));
}

#[test]
fn empty_array_decodes_as_empty_l1() {
    assert_eq!(decode(&Value::Array(vec![])), Ok(Layer::L1(vec![])));
}

#[test]
fn number_array_decodes_as_l1() {
    assert_eq!(decode(&ints(&[1, 2, 3])), Ok(Layer::L1(vec![1, 2, 3])));
}

#[test]
fn mixed_number_and_string_is_shape_mismatch() {
    let v = Value::Array(vec![Value::Int(1), Value::Int(2), s("x")]);
    assert_eq!(decode(&v), Err(DecodeError::ShapeMismatch { index: 2 }));
}

#[test]
fn pair_array_decodes_as_l2() {
    let v = Value::Array(vec![pair(1, 2), pair(3, 4)]);
    assert_eq!(decode(&v), Ok(Layer::L2(vec![(1, 2), (3, 4)])));
}

#[test]
fn mixed_arity_is_arity_mismatch() {
    // The arity the first element sets is enforced on every element.
    let v = Value::Array(vec![pair(1, 2), triple(3, 4, 5)]);
    assert_eq!(decode(&v), Err(DecodeError::ArityMismatch { index: 1 }));
    let narrow = Value::Array(vec![pair(1, 2), Value::Array(vec![Value::Int(3)])]);
    assert_eq!(decode(&narrow), Err(DecodeError::ArityMismatch { index: 1 }));
}

#[test]
fn triple_first_rejects_shorter_elements() {
    let v = Value::Array(vec![triple(1, 2, 3), pair(4, 5)]);
    assert_eq!(decode(&v), Err(DecodeError::ArityMismatch { index: 1 }));
}

#[test]
fn triple_array_decodes_as_l3() {
    let v = Value::Array(vec![triple(1, 2, 3), triple(4, 5, 6)]);
    assert_eq!(decode(&v), Ok(Layer::L3(vec![(1, 2, 3), (4, 5, 6)])));
}

#[test]
fn non_array_element_in_l2_is_arity_mismatch() {
    let v = Value::Array(vec![pair(1, 2), Value::Int(7)]);
    assert_eq!(decode(&v), Err(DecodeError::ArityMismatch { index: 1 }));
}

#[test]
fn non_numeric_entry_in_l2_is_arity_mismatch() {
    let v = Value::Array(vec![pair(1, 2), Value::Array(vec![s("a"), s("b")])]);
    assert_eq!(decode(&v), Err(DecodeError::ArityMismatch { index: 1 }));
}

#[test]
fn negative_number_is_invalid_number() {
    let v = Value::Array(vec![Value::Int(1), Value::Int(-5)]);
    assert_eq!(decode(&v), Err(DecodeError::InvalidNumber { index: 1 }));
}

#[test]
fn out_of_range_number_is_invalid_number() {
    let v = Value::Array(vec![Value::Int(1), Value::Int(1 << 40)]);
    assert_eq!(decode(&v), Err(DecodeError::InvalidNumber { index: 1 }));
}

#[test]
fn fractional_number_is_invalid_number() {
    let v = Value::Array(vec![Value::Int(1), Value::Float(1.5f64.to_bits())]);
    assert_eq!(decode(&v), Err(DecodeError::InvalidNumber { index: 1 }));
}

#[test]
fn fractional_first_element_is_numeric_dispatch() {
    let v = Value::Array(vec![Value::Float(0.5f64.to_bits()), Value::Int(1)]);
    assert_eq!(decode(&v), Err(DecodeError::InvalidNumber { index: 0 }));
}

#[test]
fn unsupported_shapes() {
    let inner1 = Value::Array(vec![Value::Array(vec![Value::Int(1)])]);
    assert_eq!(decode(&inner1), Err(DecodeError::UnsupportedShape));
    let inner4 = Value::Array(vec![Value::Array(vec![
        Value::Int(1),
        Value::Int(2),
        Value::Int(3),
        Value::Int(4),
    ])]);
    assert_eq!(decode(&inner4), Err(DecodeError::UnsupportedShape));
    assert_eq!(
        decode(&Value::Array(vec![Value::Bool(true)])),
        Err(DecodeError::UnsupportedShape)
    );
    assert_eq!(decode(&Value::Null), Err(DecodeError::UnsupportedShape));
    assert_eq!(decode(&Value::Bool(false)), Err(DecodeError::UnsupportedShape));
    assert_eq!(decode(&Value::Int(3)), Err(DecodeError::UnsupportedShape));
}

#[test]
fn round_trip_characters() {
    let l = Layer::Characters("abc".to_string());
    assert_eq!(decode(&encode(&l)), Ok(l));
}

#[test]
fn round_trip_l1() {
    let l = Layer::L1(vec![0, 7, 4294967295]);
    assert_eq!(decode(&encode(&l)), Ok(l));
    let empty = Layer::L1(vec![]);
    assert_eq!(decode(&encode(&empty)), Ok(empty));
}

#[test]
fn round_trip_l2() {
    let l = Layer::L2(vec![(0, 2), (2, 3)]);
    assert_eq!(decode(&encode(&l)), Ok(l));
}

#[test]
fn round_trip_l3() {
    let l = Layer::L3(vec![(1, 2, 3)]);
    assert_eq!(decode(&encode(&l)), Ok(l));
}

#[test]
fn round_trip_ls() {
    let l = Layer::LS(vec!["NOUN".to_string(), "VERB".to_string()]);
    assert_eq!(decode(&encode(&l)), Ok(l));
}

#[test]
fn empty_ls_decodes_as_l1() {
    // An empty array carries no trace of its shape, so the round trip lands
    // on the empty index layer instead.
    let l = Layer::LS(vec![]);
    assert_eq!(decode(&encode(&l)), Ok(Layer::L1(vec![])));
}

#[test]
fn encode_string_valued_layers() {
    let l = Layer::L1S(vec![(1, "a".to_string())]);
    assert_eq!(
        encode(&l),
        Value::Array(vec![Value::Array(vec![Value::Int(1), s("a")])])
    );
    let l2 = Layer::L2S(vec![(1, 2, "b".to_string())]);
    assert_eq!(
        encode(&l2),
        Value::Array(vec![Value::Array(vec![Value::Int(1), Value::Int(2), s("b")])])
    );
    let l3 = Layer::L3S(vec![(1, 2, 3, "c".to_string())]);
    assert_eq!(
        encode(&l3),
        Value::Array(vec![Value::Array(vec![
            Value::Int(1),
            Value::Int(2),
            Value::Int(3),
            s("c"),
        ])])
    );
}

#[test]
fn encode_meta_layer() {
    assert_eq!(encode(&Layer::MetaLayer(None)), Value::Null);
    let v = Value::Object(vec![("k".to_string(), Value::Bool(true))]);
    let copy = Value::Object(vec![("k".to_string(), Value::Bool(true))]);
    assert_eq!(encode(&Layer::MetaLayer(Some(v))), copy);
}

#[test]
fn decode_error_messages() {
    assert_eq!(
        DecodeError::ShapeMismatch { index: 0 }.message(),
        "Element type mismatch".to_string()
    );
    assert_eq!(
        DecodeError::UnsupportedShape.message(),
        "Unsupported value shape".to_string()
    );
}

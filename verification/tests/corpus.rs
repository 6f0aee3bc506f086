use teanga_wasm::corpus::{CorpusError, SimpleCorpus};
use teanga_wasm::decode::DecodeError;
use teanga_wasm::layer::{DataType, DescriptorError, LayerType};
use teanga_wasm::value::Value;

fn text_corpus() -> SimpleCorpus {
    let mut c = SimpleCorpus::new();
    c.add_layer_meta("text", "characters", None, None).unwrap();
    c
}

#[test]
fn declares_layers_and_lists_meta() {
    let mut c = text_corpus();
    c.add_layer_meta("tokens", "span", Some("text".to_string()), None).unwrap();
    assert_eq!(
        c.get_meta(),
        "{\"text\":{\"layer_type\":\"characters\"},\"tokens\":{\"layer_type\":\"span\",\"base\":\"text\"}}"
    );
}

#[test]
fn string_and_link_data_types() {
    let mut c = text_corpus();
    c.add_layer_meta("tokens", "span", Some("text".to_string()), None).unwrap();
    c.add_layer_meta("lemma", "seq", Some("tokens".to_string()), Some("string".to_string()))
        .unwrap();
    c.add_layer_meta("head", "seq", Some("tokens".to_string()), Some("link".to_string()))
        .unwrap();
    let meta = c.get_meta();
    assert!(meta.contains("\"lemma\":{\"layer_type\":\"seq\",\"base\":\"tokens\",\"data\":\"string\"}"));
    assert!(meta.contains("\"head\":{\"layer_type\":\"seq\",\"base\":\"tokens\",\"data\":\"link\"}"));
}

#[test]
fn enum_data_type_is_parsed_into_values() {
    let mut c = text_corpus();
    c.add_layer_meta(
        "pos",
        "seq",
        Some("text".to_string()),
        Some("[\"NOUN\", \"VERB\"]".to_string()),
    )
    .unwrap();
    // The list literal was parsed into separate values, not kept as text.
    assert!(c.get_meta().contains("\"data\":[\"NOUN\",\"VERB\"]"));
    assert!(c.to_yaml().contains("    data: [\"NOUN\", \"VERB\"]\n"));
}

#[test]
fn malformed_enum_list_is_rejected() {
    let mut c = text_corpus();
    let r = c.add_layer_meta(
        "pos",
        "seq",
        Some("text".to_string()),
        Some("[\"NOUN\", 3]".to_string()),
    );
    assert_eq!(r, Err(CorpusError::Descriptor(DescriptorError::InvalidEnumList)));
    let r2 = c.add_layer_meta(
        "pos",
        "seq",
        Some("text".to_string()),
        Some("[\"NOUN\"".to_string()),
    );
    assert_eq!(r2, Err(CorpusError::Descriptor(DescriptorError::InvalidEnumList)));
}

#[test]
fn invalid_descriptor_strings_are_rejected() {
    let mut c = SimpleCorpus::new();
    assert_eq!(
        c.add_layer_meta("text", "chars", None, None),
        Err(CorpusError::Descriptor(DescriptorError::InvalidLayerType))
    );
    c.add_layer_meta("text", "characters", None, None).unwrap();
    assert_eq!(
        c.add_layer_meta("tokens", "span", Some("text".to_string()), Some("blob".to_string())),
        Err(CorpusError::Descriptor(DescriptorError::InvalidDataType))
    );
}

#[test]
fn schema_invariants_are_enforced() {
    let mut c = text_corpus();
    assert_eq!(
        c.add_layer_meta("text", "characters", None, None),
        Err(CorpusError::DuplicateLayer)
    );
    assert_eq!(c.add_layer_meta("tokens", "span", None, None), Err(CorpusError::MissingBase));
    assert_eq!(
        c.add_layer_meta("tokens", "span", Some("missing".to_string()), None),
        Err(CorpusError::UnknownBase)
    );
}

#[test]
fn documents_get_ordinal_ids() {
    let mut c = text_corpus();
    let id0 = c.add_doc(vec![("text".to_string(), Value::Str("ab".to_string()))]).unwrap();
    let id1 = c.add_doc(vec![("text".to_string(), Value::Str("cd".to_string()))]).unwrap();
    assert_eq!(id0, "0");
    assert_eq!(id1, "1");
    assert_eq!(c.get_doc_ids(), vec!["0".to_string(), "1".to_string()]);
}

#[test]
fn add_doc_rejects_unknown_layer_and_bad_values() {
    let mut c = text_corpus();
    assert_eq!(
        c.add_doc(vec![("notes".to_string(), Value::Str("x".to_string()))]),
        Err(CorpusError::UnknownLayer)
    );
    assert_eq!(
        c.add_doc(vec![("text".to_string(), Value::Bool(true))]),
        Err(CorpusError::Decode(DecodeError::UnsupportedShape))
    );
    assert_eq!(c.get_doc_ids(), Vec::<String>::new());
}

#[test]
fn get_doc_round_trips_layers() {
    let mut c = text_corpus();
    c.add_layer_meta("tokens", "span", Some("text".to_string()), None).unwrap();
    let id = c
        .add_doc(vec![
            ("text".to_string(), Value::Str("ab cd".to_string())),
            (
                "tokens".to_string(),
                Value::Array(vec![
                    Value::Array(vec![Value::Int(0), Value::Int(2)]),
                    Value::Array(vec![Value::Int(3), Value::Int(5)]),
                ]),
            ),
        ])
        .unwrap();
    let doc = c.get_doc_by_id(&id).unwrap();
    assert_eq!(doc.len(), 2);
    assert_eq!(doc[0], ("text".to_string(), Value::Str("ab cd".to_string())));
    assert_eq!(
        doc[1],
        (
            "tokens".to_string(),
            Value::Array(vec![
                Value::Array(vec![Value::Int(0), Value::Int(2)]),
                Value::Array(vec![Value::Int(3), Value::Int(5)]),
            ])
        )
    );
    assert_eq!(c.get_doc_by_id("9"), Err(CorpusError::DocumentNotFound));
}

#[test]
fn corpus_info_summarises() {
    let mut c = text_corpus();
    c.add_doc(vec![("text".to_string(), Value::Str("hi".to_string()))]).unwrap();
    assert_eq!(
        c.corpus_info(),
        "{\"layer_count\":1,\"document_count\":1,\"layer_names\":[\"text\"],\"document_ids\":[\"0\"],\"implementation\":\"Rust WASM\"}"
    );
}

#[test]
fn yaml_escapes_characters_layers() {
    let mut c = text_corpus();
    c.add_doc(vec![("text".to_string(), Value::Str("He said \"hi\"\n".to_string()))])
        .unwrap();
    let yaml = c.to_yaml();
    assert_eq!(
        yaml,
        "_meta:\n  text:\n    type: characters\n0:\n  text: \"He said \\\"hi\\\"\\n\"\n"
    );
}

#[test]
fn yaml_renders_structural_layers_compactly() {
    let mut c = text_corpus();
    c.add_layer_meta("tokens", "span", Some("text".to_string()), None).unwrap();
    c.add_doc(vec![
        ("text".to_string(), Value::Str("ab cd".to_string())),
        (
            "tokens".to_string(),
            Value::Array(vec![
                Value::Array(vec![Value::Int(0), Value::Int(2)]),
                Value::Array(vec![Value::Int(3), Value::Int(5)]),
            ]),
        ),
    ])
    .unwrap();
    let yaml = c.to_yaml();
    assert_eq!(
        yaml,
        "_meta:\n  text:\n    type: characters\n  tokens:\n    type: span\n    base: text\n0:\n  text: \"ab cd\"\n  tokens: [[0,2],[3,5]]\n"
    );
}

#[test]
fn error_messages_name_the_problem() {
    assert_eq!(CorpusError::DuplicateLayer.message(), "Duplicate layer name");
    assert_eq!(
        CorpusError::Descriptor(DescriptorError::InvalidEnumList).message(),
        "Invalid enum value list"
    );
}

#[test]
fn layer_descriptors_lists_the_schema() {
    let mut c = text_corpus();
    c.add_layer_meta("pos", "seq", Some("text".to_string()), Some("[\"A\",\"B\"]".to_string()))
        .unwrap();
    let descs = c.layer_descriptors();
    assert_eq!(descs.len(), 2);
    assert_eq!(descs[0].0, "text");
    assert_eq!(descs[0].1.layer_type, LayerType::Characters);
    assert_eq!(descs[0].1.base, None);
    assert_eq!(descs[0].1.data, None);
    assert_eq!(descs[1].0, "pos");
    assert_eq!(descs[1].1.layer_type, LayerType::Sequence);
    assert_eq!(descs[1].1.base, Some("text".to_string()));
    assert_eq!(
        descs[1].1.data,
        Some(DataType::Enum(vec!["A".to_string(), "B".to_string()]))
    );
}

//! A typed layer model for annotated text corpora, with shape-inference
//! decoding from untyped values, value-preserving encoding back, a
//! line-oriented text serializer, and a small span tokenizer, all arranged
//! around an in-memory corpus store.

pub mod corpus;
pub mod decode;
pub mod encode;
pub mod layer;
pub mod render;
pub mod text;
pub mod tokenize;
pub mod value;

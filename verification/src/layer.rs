//! The typed layer model: the closed set of layer shapes attached to a
//! document, and the static descriptors that a corpus schema keeps for each
//! named layer.

use vstd::prelude::*;

use crate::value::{Value, ValueV};

verus! {

broadcast use vstd::std_specs::vec::group_vec_axioms, vstd::seq::group_seq_axioms;

/// The annotation structure class of a layer, as declared in its descriptor.
#[derive(Clone, Copy, PartialEq, Eq, Structural, Debug)]
pub enum LayerType {
    Characters,
    Span,
    Sequence,
    Division,
    Element,
}

/// Optional refinement of the values attached to each annotation of a layer.
#[derive(Clone, PartialEq, Eq, Debug)]
pub enum DataType {
    String,
    Link,
    Enum(Vec<String>),
}

/// The model of a `DataType`.
pub enum DataTypeV {
    String,
    Link,
    Enum(Seq<Seq<char>>),
}

impl View for DataType {
    type V = DataTypeV;

    open spec fn view(&self) -> DataTypeV {
        match self {
            DataType::String => DataTypeV::String,
            DataType::Link => DataTypeV::Link,
            DataType::Enum(vals) => DataTypeV::Enum(vals.deep_view()),
        }
    }
}

/// Static metadata for one named layer in a corpus schema.
#[derive(Clone, PartialEq, Eq, Debug)]
pub struct LayerDesc {
    pub layer_type: LayerType,
    pub base: Option<String>,
    pub data: Option<DataType>,
}

/// The model of a `LayerDesc`.
pub struct LayerDescV {
    pub layer_type: LayerType,
    pub base: Option<Seq<char>>,
    pub data: Option<DataTypeV>,
}

impl View for LayerDesc {
    type V = LayerDescV;

    open spec fn view(&self) -> LayerDescV {
        LayerDescV {
            layer_type: self.layer_type,
            base: match &self.base {
                Option::Some(b) => Option::Some(b@),
                Option::None => Option::None,
            },
            data: match &self.data {
                Option::Some(d) => Option::Some(d@),
                Option::None => Option::None,
            },
        }
    }
}

/// The data of one layer on one document; exactly one variant is populated.
#[derive(PartialEq, Eq, Debug)]
pub enum Layer {
    /// The root text content layer.
    Characters(String),
    /// Single non-negative indices.
    L1(Vec<u32>),
    /// Index pairs, `(start, end)` spans over a base layer.
    L2(Vec<(u32, u32)>),
    /// Index triples.
    L3(Vec<(u32, u32, u32)>),
    /// Free-standing string values, one per annotation.
    LS(Vec<String>),
    /// An index plus a string value per annotation.
    L1S(Vec<(u32, String)>),
    /// An index pair plus a string value.
    L2S(Vec<(u32, u32, String)>),
    /// An index triple plus a string value.
    L3S(Vec<(u32, u32, u32, String)>),
    /// An arbitrary nested value for document-level metadata; `None` is an
    /// explicit null.
    MetaLayer(Option<Value>),
}

/// The mathematical model of a `Layer`.
pub enum LayerV {
    Characters(Seq<char>),
    L1(Seq<u32>),
    L2(Seq<(u32, u32)>),
    L3(Seq<(u32, u32, u32)>),
    LS(Seq<Seq<char>>),
    L1S(Seq<(u32, Seq<char>)>),
    L2S(Seq<(u32, u32, Seq<char>)>),
    L3S(Seq<(u32, u32, u32, Seq<char>)>),
    Meta(Option<ValueV>),
}

impl View for Layer {
    type V = LayerV;

    open spec fn view(&self) -> LayerV {
        match self {
            Layer::Characters(s) => LayerV::Characters(s@),
            Layer::L1(ns) => LayerV::L1(ns@),
            Layer::L2(ps) => LayerV::L2(ps@),
            Layer::L3(ts) => LayerV::L3(ts@),
            Layer::LS(ss) => LayerV::LS(ss.deep_view()),
            Layer::L1S(xs) => LayerV::L1S(Seq::new(xs@.len(), |i: int| (xs@[i].0, xs@[i].1@))),
            Layer::L2S(xs) => LayerV::L2S(
                Seq::new(xs@.len(), |i: int| (xs@[i].0, xs@[i].1, xs@[i].2@)),
            ),
            Layer::L3S(xs) => LayerV::L3S(
                Seq::new(xs@.len(), |i: int| (xs@[i].0, xs@[i].1, xs@[i].2, xs@[i].3@)),
            ),
            Layer::MetaLayer(v) => LayerV::Meta(
                match v {
                    Option::Some(inner) => Option::Some(inner@),
                    Option::None => Option::None,
                },
            ),
        }
    }
}

impl DataType {
    /// A copy whose model equals this refinement's model.
    pub fn duplicate(&self) -> (r: DataType)
        ensures
            r@ == self@,
    {
        match self {
            DataType::String => DataType::String,
            DataType::Link => DataType::Link,
            DataType::Enum(vals) => {
                let mut out: Vec<String> = Vec::new();
                let mut k: usize = 0;
                while k < vals.len()
                    invariant
                        k <= vals@.len(),
                        out@.len() == k as int,
                        forall|j: int| #![trigger out@[j]]
                            0 <= j < k as int ==> out@[j]@ == vals@[j]@,
                    decreases vals@.len() - k,
                {
                    out.push(vals[k].clone());
                    k = k + 1;
                }
                proof {
                    assert(out.deep_view() =~= vals.deep_view());
                }
                DataType::Enum(out)
            },
        }
    }
}

impl LayerDesc {
    /// A copy whose model equals this descriptor's model.
    pub fn duplicate(&self) -> (r: LayerDesc)
        ensures
            r@ == self@,
    {
        LayerDesc {
            layer_type: self.layer_type,
            base: match &self.base {
                Option::Some(b) => Option::Some(b.clone()),
                Option::None => Option::None,
            },
            data: match &self.data {
                Option::Some(d) => Option::Some(d.duplicate()),
                Option::None => Option::None,
            },
        }
    }
}

/// A descriptor that a caller declared could not be accepted.
#[derive(Clone, Copy, PartialEq, Eq, Structural, Debug)]
pub enum DescriptorError {
    /// The layer type string names no recognized structure class.
    InvalidLayerType,
    /// The data type string names no recognized refinement.
    InvalidDataType,
    /// A data type that looked like an enum value list did not parse as one.
    InvalidEnumList,
}

impl DescriptorError {
    /// The text of this error's account.
    pub open spec fn message_text(&self) -> Seq<char> {
        match self {
            DescriptorError::InvalidLayerType => "Invalid layer type"@,
            DescriptorError::InvalidDataType => "Invalid data type"@,
            DescriptorError::InvalidEnumList => "Invalid enum value list"@,
        }
    }

    /// A short human-readable account of the error.
    pub fn message(&self) -> (r: String)
        ensures
            r@ == self.message_text(),
    {
        match self {
            DescriptorError::InvalidLayerType => String::from_str("Invalid layer type"),
            DescriptorError::InvalidDataType => String::from_str("Invalid data type"),
            DescriptorError::InvalidEnumList => String::from_str("Invalid enum value list"),
        }
    }
}

/// Whether two strings hold the same characters.
pub fn str_eq(a: &str, b: &str) -> (r: bool)
    ensures
        r == (a@ == b@),
{
    let x = a.to_owned();
    let y = b.to_owned();
    x == y
}

/// What a well-formed JSON array of strings denotes; `None` where the text is
/// not one.
pub uninterp spec fn json_string_list(s: Seq<char>) -> Option<Seq<Seq<char>>>;

/// Relies on serde_json::from_str: parses the text as a JSON array of
/// strings, returning `None` where it is malformed.
#[verifier::external_body]
fn parse_string_list(s: &str) -> (r: Option<Vec<String>>)
    ensures
        r is Some <==> json_string_list(s@) is Some,
        r is Some ==> r->Some_0.deep_view() == json_string_list(s@)->Some_0,
{
    serde_json::from_str(s).ok()
}

/// The layer type that a type string names.
pub open spec fn layer_type_of(s: Seq<char>) -> Result<LayerType, DescriptorError> {
    if s == "characters"@ {
        Result::Ok(LayerType::Characters)
    } else if s == "span"@ {
        Result::Ok(LayerType::Span)
    } else if s == "seq"@ {
        Result::Ok(LayerType::Sequence)
    } else if s == "div"@ {
        Result::Ok(LayerType::Division)
    } else if s == "element"@ {
        Result::Ok(LayerType::Element)
    } else {
        Result::Err(DescriptorError::InvalidLayerType)
    }
}

/// Parses a layer type string; exactly "characters", "span", "seq", "div"
/// and "element" are accepted.
pub fn parse_layer_type(s: &str) -> (r: Result<LayerType, DescriptorError>)
    ensures
        r == layer_type_of(s@),
{
    if str_eq(s, "characters") {
        Result::Ok(LayerType::Characters)
    } else if str_eq(s, "span") {
        Result::Ok(LayerType::Span)
    } else if str_eq(s, "seq") {
        Result::Ok(LayerType::Sequence)
    } else if str_eq(s, "div") {
        Result::Ok(LayerType::Division)
    } else if str_eq(s, "element") {
        Result::Ok(LayerType::Element)
    } else {
        Result::Err(DescriptorError::InvalidLayerType)
    }
}

/// The data type refinement that an optional data type string names.
/// A string opening with `[` is read as an enum value list.
pub open spec fn data_type_of(s: Option<Seq<char>>) -> Result<Option<DataTypeV>, DescriptorError> {
    match s {
        Option::None => Result::Ok(Option::None),
        Option::Some(t) => {
            if t == "string"@ {
                Result::Ok(Option::Some(DataTypeV::String))
            } else if t == "link"@ {
                Result::Ok(Option::Some(DataTypeV::Link))
            } else if t.len() > 0 && t[0] == '[' {
                match json_string_list(t) {
                    Option::Some(vals) => Result::Ok(Option::Some(DataTypeV::Enum(vals))),
                    Option::None => Result::Err(DescriptorError::InvalidEnumList),
                }
            } else {
                Result::Err(DescriptorError::InvalidDataType)
            }
        },
    }
}

/// The model of a parsed optional data type.
pub open spec fn opt_data_type_view(r: Option<DataType>) -> Option<DataTypeV> {
    match r {
        Option::Some(d) => Option::Some(d@),
        Option::None => Option::None,
    }
}

/// Parses an optional data type string: "string", "link", a JSON list of
/// enum values, or nothing.
pub fn parse_data_type(s: Option<&str>) -> (r: Result<Option<DataType>, DescriptorError>)
    ensures
        match (r, data_type_of(match s {
            Option::Some(t) => Option::Some(t@),
            Option::None => Option::None,
        })) {
            (Result::Ok(d), Result::Ok(dv)) => opt_data_type_view(d) == dv,
            (Result::Err(e), Result::Err(ev)) => e == ev,
            _ => false,
        },
{
    match s {
        Option::None => Result::Ok(Option::None),
        Option::Some(t) => {
            if str_eq(t, "string") {
                Result::Ok(Option::Some(DataType::String))
            } else if str_eq(t, "link") {
                Result::Ok(Option::Some(DataType::Link))
            } else if !t.is_empty() && t.get_char(0) == '[' {
                match parse_string_list(t) {
                    Option::Some(vals) => Result::Ok(Option::Some(DataType::Enum(vals))),
                    Option::None => Result::Err(DescriptorError::InvalidEnumList),
                }
            } else {
                Result::Err(DescriptorError::InvalidDataType)
            }
        },
    }
}

} // verus!

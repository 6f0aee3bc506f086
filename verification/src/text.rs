//! The line-oriented text serializer and the structured views of the corpus
//! that the boundary hands out: schema metadata as an untyped object,
//! corpus summary information, and the rendered text format.
//!
//! The text format opens with a `_meta:` block listing each layer's type,
//! base and data refinement under two-space indents, then one block per
//! document in insertion order; a characters layer is emitted as a
//! double-quoted escaped string, every other layer as the compact rendering
//! of its encoded form.

use vstd::prelude::*;

use crate::corpus::SimpleCorpus;
use crate::encode::{encode, encode_spec};
use crate::layer::{DataTypeV, Layer, LayerDescV, LayerType, LayerV};
use crate::render::{escape_str, push_char, push_escaped, push_str, render, render_into,
    render_value};
use crate::tokenize::{bytes_len, simple_tokenize, tokenize_spec};
use crate::value::{Value, ValueV};

verus! {

broadcast use vstd::std_specs::vec::group_vec_axioms, vstd::seq::group_seq_axioms, vstd::slice::group_slice_axioms;

/// The name of a layer type in the text format.
pub open spec fn ltype_name(t: LayerType) -> Seq<char> {
    match t {
        LayerType::Characters => "characters"@,
        LayerType::Span => "span"@,
        LayerType::Sequence => "seq"@,
        LayerType::Division => "div"@,
        LayerType::Element => "element"@,
    }
}

/// The name of a layer type, as `ltype_name` gives it.
pub fn ltype_str(t: LayerType) -> (r: &'static str)
    ensures
        r@ == ltype_name(t),
{
    match t {
        LayerType::Characters => "characters",
        LayerType::Span => "span",
        LayerType::Sequence => "seq",
        LayerType::Division => "div",
        LayerType::Element => "element",
    }
}

/// One quoted enum value in a rendered value list.
pub open spec fn enum_item(v: Seq<char>) -> Seq<char> {
    seq!['"'] + escape_str(v) + seq!['"']
}

/// The first `k` enum values, comma-space separated.
pub open spec fn enum_items(vals: Seq<Seq<char>>, k: int) -> Seq<char>
    decreases k,
{
    if k <= 0 || k > vals.len() {
        Seq::empty()
    } else if k == 1 {
        enum_item(vals[0])
    } else {
        enum_items(vals, k - 1) + ", "@ + enum_item(vals[k - 1])
    }
}

/// The text rendering of a data refinement: `string`, `link`, or the
/// bracketed quoted list of enum values.
pub open spec fn data_rep(d: DataTypeV) -> Seq<char> {
    match d {
        DataTypeV::String => "string"@,
        DataTypeV::Link => "link"@,
        DataTypeV::Enum(vals) => seq!['['] + enum_items(vals, vals.len() as int) + seq![']'],
    }
}

/// One schema entry in the metadata block.
pub open spec fn desc_entry(name: Seq<char>, d: LayerDescV) -> Seq<char> {
    "  "@ + name + ":\n"@ + "    type: "@ + ltype_name(d.layer_type) + "\n"@ + (match d.base {
        Option::Some(b) => "    base: "@ + b + "\n"@,
        Option::None => Seq::empty(),
    }) + (match d.data {
        Option::Some(dt) => "    data: "@ + data_rep(dt) + "\n"@,
        Option::None => Seq::empty(),
    })
}

/// The first `k` schema entries of the metadata block.
pub open spec fn meta_entries(m: Seq<(Seq<char>, LayerDescV)>, k: int) -> Seq<char>
    decreases k,
{
    if k <= 0 || k > m.len() {
        Seq::empty()
    } else {
        meta_entries(m, k - 1) + desc_entry(m[k - 1].0, m[k - 1].1)
    }
}

/// The text rendering of one layer's value: a quoted escaped string for a
/// characters layer, the compact rendering of the encoded form otherwise.
pub open spec fn layer_rep(l: LayerV) -> Seq<char> {
    match l {
        LayerV::Characters(s) => seq!['"'] + escape_str(s) + seq!['"'],
        _ => render_value(encode_spec(l)),
    }
}

/// One layer line inside a document block.
pub open spec fn layer_line(name: Seq<char>, l: LayerV) -> Seq<char> {
    "  "@ + name + ": "@ + layer_rep(l) + "\n"@
}

/// The first `k` layer lines of a document block.
pub open spec fn layer_lines(layers: Seq<(Seq<char>, LayerV)>, k: int) -> Seq<char>
    decreases k,
{
    if k <= 0 || k > layers.len() {
        Seq::empty()
    } else {
        layer_lines(layers, k - 1) + layer_line(layers[k - 1].0, layers[k - 1].1)
    }
}

/// One document block: the id line and the document's layer lines.
pub open spec fn doc_block(id: Seq<char>, layers: Seq<(Seq<char>, LayerV)>) -> Seq<char> {
    id + ":\n"@ + layer_lines(layers, layers.len() as int)
}

/// The first `k` document blocks.
pub open spec fn doc_blocks(d: Seq<(Seq<char>, Seq<(Seq<char>, LayerV)>)>, k: int) -> Seq<char>
    decreases k,
{
    if k <= 0 || k > d.len() {
        Seq::empty()
    } else {
        doc_blocks(d, k - 1) + doc_block(d[k - 1].0, d[k - 1].1)
    }
}

/// The whole text form of a corpus: the metadata block, then every document
/// in insertion order.
pub open spec fn yaml_spec(
    m: Seq<(Seq<char>, LayerDescV)>,
    d: Seq<(Seq<char>, Seq<(Seq<char>, LayerV)>)>,
) -> Seq<char> {
    "_meta:\n"@ + meta_entries(m, m.len() as int) + doc_blocks(d, d.len() as int)
}

/// The untyped value of a data refinement inside the metadata object.
pub open spec fn data_value(d: DataTypeV) -> ValueV {
    match d {
        DataTypeV::String => ValueV::Str("string"@),
        DataTypeV::Link => ValueV::Str("link"@),
        DataTypeV::Enum(vals) => ValueV::Array(
            Seq::new(vals.len(), |i: int| ValueV::Str(vals[i])),
        ),
    }
}

/// The untyped object describing one layer descriptor.
pub open spec fn desc_value(d: LayerDescV) -> ValueV {
    ValueV::Object(
        seq![("layer_type"@, ValueV::Str(ltype_name(d.layer_type)))] + (match d.base {
            Option::Some(b) => seq![("base"@, ValueV::Str(b))],
            Option::None => Seq::empty(),
        }) + (match d.data {
            Option::Some(dt) => seq![("data"@, data_value(dt))],
            Option::None => Seq::empty(),
        }),
    )
}

/// The untyped object describing the whole schema, in insertion order.
pub open spec fn meta_value_spec(m: Seq<(Seq<char>, LayerDescV)>) -> ValueV {
    ValueV::Object(Seq::new(m.len(), |i: int| (m[i].0, desc_value(m[i].1))))
}

/// A length capped at what a signed 64-bit count can carry.
pub open spec fn count_cap(n: int) -> i64 {
    if n > i64::MAX {
        i64::MAX
    } else {
        n as i64
    }
}

/// The corpus summary object: layer and document counts, layer names,
/// document ids, and the implementation tag.
pub open spec fn info_value_spec(
    m: Seq<(Seq<char>, LayerDescV)>,
    d: Seq<(Seq<char>, Seq<(Seq<char>, LayerV)>)>,
) -> ValueV {
    ValueV::Object(
        seq![
            ("layer_count"@, ValueV::Int(count_cap(m.len() as int))),
            ("document_count"@, ValueV::Int(count_cap(d.len() as int))),
            ("layer_names"@, ValueV::Array(Seq::new(m.len(), |i: int| ValueV::Str(m[i].0)))),
            ("document_ids"@, ValueV::Array(Seq::new(d.len(), |i: int| ValueV::Str(d[i].0)))),
            ("implementation"@, ValueV::Str("Rust WASM"@)),
        ],
    )
}

impl SimpleCorpus {
    /// The schema metadata as an untyped object, as `meta_value_spec`
    /// describes.
    pub fn meta_value(&self) -> (r: Value)
        ensures
            r@ == meta_value_spec(self.meta_seq()),
    {
        let mut members: Vec<(String, Value)> = Vec::new();
        let mut k: usize = 0;
        while k < self.meta.len()
            invariant
                k <= self.meta@.len(),
                members@.len() == k as int,
                forall|j: int| #![trigger members@[j]]
                    0 <= j < k as int ==> members@[j].0@ == self.meta_seq()[j].0 && members@[j].1@
                        == desc_value(self.meta_seq()[j].1),
            decreases self.meta@.len() - k,
        {
            let desc = &self.meta[k].1;
            let ghost dv = self.meta_seq()[k as int].1;
            let mut fields: Vec<(String, Value)> = Vec::new();
            fields.push(
                (String::from_str("layer_type"), Value::Str(String::from_str(ltype_str(desc.layer_type)))),
            );
            if let Option::Some(b) = &desc.base {
                fields.push((String::from_str("base"), Value::Str(b.clone())));
            }
            match &desc.data {
                Option::Some(crate::layer::DataType::String) => {
                    fields.push((String::from_str("data"), Value::Str(String::from_str("string"))));
                },
                Option::Some(crate::layer::DataType::Link) => {
                    fields.push((String::from_str("data"), Value::Str(String::from_str("link"))));
                },
                Option::Some(crate::layer::DataType::Enum(vals)) => {
                    let mut arr: Vec<Value> = Vec::new();
                    let mut t: usize = 0;
                    while t < vals.len()
                        invariant
                            t <= vals@.len(),
                            arr@.len() == t as int,
                            forall|j: int| #![trigger arr@[j]]
                                0 <= j < t as int ==> arr@[j]@ == ValueV::Str(vals@[j]@),
                        decreases vals@.len() - t,
                    {
                        arr.push(Value::Str(vals[t].clone()));
                        t = t + 1;
                    }
                    let a = Value::Array(arr);
                    proof {
                        assert(dv.data->Some_0->Enum_0 =~= vals.deep_view());
                        assert(a@->Array_0 =~= data_value(dv.data->Some_0)->Array_0);
                        assert(a@ == data_value(dv.data->Some_0));
                    }
                    fields.push((String::from_str("data"), a));
                },
                Option::None => {},
            }
            let obj = Value::Object(fields);
            proof {
                assert(fields@[0].0@ == "layer_type"@);
                assert(fields@[0].1@ == ValueV::Str(ltype_name(dv.layer_type)));
                if dv.base is Some {
                    assert(fields@[1].0@ == "base"@);
                    assert(fields@[1].1@ == ValueV::Str(dv.base->Some_0));
                }
                if dv.data is Some {
                    let di: int = if dv.base is Some { 2 } else { 1 };
                    assert(fields@[di].0@ == "data"@);
                    assert(fields@[di].1@ == data_value(dv.data->Some_0));
                }
                assert(obj@->Object_0 =~= desc_value(dv)->Object_0);
            }
            members.push((self.meta[k].0.clone(), obj));
            k = k + 1;
        }
        let r = Value::Object(members);
        proof {
            assert(r@->Object_0 =~= meta_value_spec(self.meta_seq())->Object_0);
        }
        r
    }

    /// The schema metadata rendered compactly.
    pub fn get_meta(&self) -> (r: String)
        ensures
            r@ == render_value(meta_value_spec(self.meta_seq())),
    {
        let v = self.meta_value();
        render(&v)
    }

    /// The corpus summary rendered compactly, as `info_value_spec`
    /// describes.
    pub fn corpus_info(&self) -> (r: String)
        ensures
            r@ == render_value(info_value_spec(self.meta_seq(), self.docs_seq())),
    {
        let mut members: Vec<(String, Value)> = Vec::new();
        let layer_count: i64 = if self.meta.len() as u64 > i64::MAX as u64 {
            i64::MAX
        } else {
            self.meta.len() as i64
        };
        let doc_count: i64 = if self.docs.len() as u64 > i64::MAX as u64 {
            i64::MAX
        } else {
            self.docs.len() as i64
        };
        members.push((String::from_str("layer_count"), Value::Int(layer_count)));
        members.push((String::from_str("document_count"), Value::Int(doc_count)));
        let mut names: Vec<Value> = Vec::new();
        let mut k: usize = 0;
        while k < self.meta.len()
            invariant
                k <= self.meta@.len(),
                names@.len() == k as int,
                forall|j: int| #![trigger names@[j]]
                    0 <= j < k as int ==> names@[j]@ == ValueV::Str(self.meta_seq()[j].0),
            decreases self.meta@.len() - k,
        {
            names.push(Value::Str(self.meta[k].0.clone()));
            k = k + 1;
        }
        let names_arr = Value::Array(names);
        proof {
            assert(names_arr@->Array_0 =~= Seq::new(
                self.meta_seq().len(),
                |i: int| ValueV::Str(self.meta_seq()[i].0),
            ));
            assert(names_arr@ == ValueV::Array(Seq::new(
                self.meta_seq().len(),
                |i: int| ValueV::Str(self.meta_seq()[i].0),
            )));
        }
        members.push((String::from_str("layer_names"), names_arr));
        let mut ids: Vec<Value> = Vec::new();
        let mut t: usize = 0;
        while t < self.docs.len()
            invariant
                t <= self.docs@.len(),
                ids@.len() == t as int,
                forall|j: int| #![trigger ids@[j]]
                    0 <= j < t as int ==> ids@[j]@ == ValueV::Str(self.docs_seq()[j].0),
            decreases self.docs@.len() - t,
        {
            ids.push(Value::Str(self.docs[t].0.clone()));
            t = t + 1;
        }
        let ids_arr = Value::Array(ids);
        proof {
            assert(ids_arr@->Array_0 =~= Seq::new(
                self.docs_seq().len(),
                |i: int| ValueV::Str(self.docs_seq()[i].0),
            ));
            assert(ids_arr@ == ValueV::Array(Seq::new(
                self.docs_seq().len(),
                |i: int| ValueV::Str(self.docs_seq()[i].0),
            )));
        }
        members.push((String::from_str("document_ids"), ids_arr));
        members.push((String::from_str("implementation"), Value::Str(String::from_str("Rust WASM"))));
        let r = Value::Object(members);
        proof {
            let gs = info_value_spec(self.meta_seq(), self.docs_seq())->Object_0;
            assert(members@[0].0@ == "layer_count"@);
            assert(members@[0].1@ == ValueV::Int(count_cap(self.meta_seq().len() as int)));
            assert(members@[1].0@ == "document_count"@);
            assert(members@[1].1@ == ValueV::Int(count_cap(self.docs_seq().len() as int)));
            assert(members@[2].0@ == "layer_names"@);
            assert(members@[2].1@ == gs[2].1);
            assert(members@[3].0@ == "document_ids"@);
            assert(members@[3].1@ == gs[3].1);
            assert(members@[4].0@ == "implementation"@);
            assert(members@[4].1@ == ValueV::Str("Rust WASM"@));
            assert(r@->Object_0 =~= gs);
        }
        render(&r)
    }

    /// Tokenizes the text and renders the spans compactly as an array of
    /// `[start, end]` pairs; a text whose byte length cannot be addressed by
    /// the span offsets yields the empty array.
    pub fn tokenize_simple(&self, text: &str) -> (r: String)
        ensures
            bytes_len(text@) <= u32::MAX ==> r@ == render_value(
                encode_spec(LayerV::L2(tokenize_spec(text@))),
            ),
            bytes_len(text@) > u32::MAX ==> r@ == "[]"@,
    {
        let byte_count = text.as_bytes().len();
        if byte_count <= u32::MAX as usize {
            let spans = simple_tokenize(text);
            let v = encode(&Layer::L2(spans));
            render(&v)
        } else {
            String::from_str("[]")
        }
    }

    /// Renders the corpus in its text form, as `yaml_spec` describes.
    #[verifier::rlimit(100)]
    pub fn to_yaml(&self) -> (r: String)
        ensures
            r@ == yaml_spec(self.meta_seq(), self.docs_seq()),
    {
        let mut out = String::from_str("_meta:\n");
        let mut k: usize = 0;
        while k < self.meta.len()
            invariant
                k <= self.meta@.len(),
                out@ == "_meta:\n"@ + meta_entries(self.meta_seq(), k as int),
            decreases self.meta@.len() - k,
        {
            let name = &self.meta[k].0;
            let desc = &self.meta[k].1;
            let ghost dv = self.meta_seq()[k as int].1;
            push_str(&mut out, "  ");
            push_str(&mut out, name.as_str());
            push_str(&mut out, ":\n");
            push_str(&mut out, "    type: ");
            push_str(&mut out, ltype_str(desc.layer_type));
            push_str(&mut out, "\n");
            if let Option::Some(b) = &desc.base {
                push_str(&mut out, "    base: ");
                push_str(&mut out, b.as_str());
                push_str(&mut out, "\n");
            }
            match &desc.data {
                Option::Some(crate::layer::DataType::String) => {
                    push_str(&mut out, "    data: ");
                    push_str(&mut out, "string");
                    push_str(&mut out, "\n");
                },
                Option::Some(crate::layer::DataType::Link) => {
                    push_str(&mut out, "    data: ");
                    push_str(&mut out, "link");
                    push_str(&mut out, "\n");
                },
                Option::Some(crate::layer::DataType::Enum(vals)) => {
                    push_str(&mut out, "    data: ");
                    push_char(&mut out, '[');
                    let ghost before = out@;
                    let ghost vv = dv.data->Some_0->Enum_0;
                    let mut t: usize = 0;
                    while t < vals.len()
                        invariant
                            t <= vals@.len(),
                            vv.len() == vals@.len(),
                            forall|j: int| 0 <= j < vals@.len() ==> vv[j] == vals@[j]@,
                            out@ == before + enum_items(vv, t as int),
                        decreases vals@.len() - t,
                    {
                        if t > 0 {
                            push_str(&mut out, ", ");
                        }
                        push_char(&mut out, '"');
                        push_escaped(&mut out, vals[t].as_str());
                        push_char(&mut out, '"');
                        proof {
                            assert(out@ =~= before + enum_items(vv, t as int + 1));
                        }
                        t = t + 1;
                    }
                    push_char(&mut out, ']');
                    push_str(&mut out, "\n");
                },
                Option::None => {},
            }
            proof {
                assert(self.meta_seq()[k as int] == (self.meta@[k as int].0@, dv));
                assert(out@ =~= "_meta:\n"@ + meta_entries(self.meta_seq(), k as int + 1));
            }
            k = k + 1;
        }
        let ghost meta_done = out@;
        let mut d: usize = 0;
        while d < self.docs.len()
            invariant
                d <= self.docs@.len(),
                meta_done == "_meta:\n"@ + meta_entries(self.meta_seq(), self.meta_seq().len() as int),
                out@ == meta_done + doc_blocks(self.docs_seq(), d as int),
            decreases self.docs@.len() - d,
        {
            let ghost dmodel = self.docs_seq()[d as int];
            push_str(&mut out, self.docs[d].0.as_str());
            push_str(&mut out, ":\n");
            let doc = &self.docs[d].1;
            let ghost layers = dmodel.1;
            let ghost block_start = out@;
            let mut j: usize = 0;
            while j < doc.len()
                invariant
                    j <= doc@.len(),
                    layers.len() == doc@.len(),
                    forall|t: int|
                        0 <= t < doc@.len() ==> #[trigger] layers[t] == (doc@[t].0@, doc@[t].1@),
                    out@ == block_start + layer_lines(layers, j as int),
                decreases doc@.len() - j,
            {
                push_str(&mut out, "  ");
                push_str(&mut out, doc[j].0.as_str());
                push_str(&mut out, ": ");
                match &doc[j].1 {
                    Layer::Characters(s) => {
                        push_char(&mut out, '"');
                        push_escaped(&mut out, s.as_str());
                        push_char(&mut out, '"');
                    },
                    other => {
                        let v = encode(other);
                        render_into(&mut out, &v);
                    },
                }
                push_str(&mut out, "\n");
                proof {
                    assert(out@ =~= block_start + layer_lines(layers, j as int + 1));
                }
                j = j + 1;
            }
            proof {
                assert(out@ =~= meta_done + doc_blocks(self.docs_seq(), d as int + 1));
            }
            d = d + 1;
        }
        proof {
            assert(out@ =~= yaml_spec(self.meta_seq(), self.docs_seq()));
        }
        out
    }
}

} // verus!

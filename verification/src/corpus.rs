//! An in-memory corpus store: an insertion-ordered schema of named layer
//! descriptors and an ordered run of documents, each a mapping of layer
//! names to layer data.
//!
//! The store enforces the schema invariants: layer names are unique, a
//! non-characters layer must declare a base, and a declared base must name a
//! layer that already exists (which also rules out cycles). Document ids are
//! the decimal ordinal of the document's insertion.

use vstd::prelude::*;

use crate::decode::{decode, decode_spec, DecodeError};
use crate::layer::{parse_data_type, parse_layer_type, data_type_of, layer_type_of, str_eq,
    DescriptorError, Layer, LayerDesc, LayerDescV, LayerType, LayerV};
use crate::render::{dec_rep, push_u64};
use crate::value::{Value, ValueV};

verus! {

broadcast use vstd::std_specs::vec::group_vec_axioms, vstd::seq::group_seq_axioms;

/// Why a corpus operation failed.
#[derive(Clone, Copy, PartialEq, Eq, Structural, Debug)]
pub enum CorpusError {
    /// A layer descriptor could not be parsed.
    Descriptor(DescriptorError),
    /// A document layer's untyped value could not be decoded.
    Decode(DecodeError),
    /// A layer of this name is already declared.
    DuplicateLayer,
    /// The declared base names no existing layer.
    UnknownBase,
    /// A non-characters layer was declared without a base.
    MissingBase,
    /// A document carries a layer name that the schema does not declare.
    UnknownLayer,
    /// No document has the given id.
    DocumentNotFound,
}

impl CorpusError {
    /// A short human-readable account of the error.
    pub fn message(&self) -> (r: String)
        ensures
            self matches CorpusError::Descriptor(e) ==> r@ == e.message_text(),
            self matches CorpusError::Decode(e) ==> r@ == e.message_text(),
            self is DuplicateLayer ==> r@ == "Duplicate layer name"@,
            self is UnknownBase ==> r@ == "Base names no existing layer"@,
            self is MissingBase ==> r@ == "Layer requires a base"@,
            self is UnknownLayer ==> r@ == "Undeclared layer name"@,
            self is DocumentNotFound ==> r@ == "Document not found"@,
    {
        match self {
            CorpusError::Descriptor(e) => e.message(),
            CorpusError::Decode(e) => e.message(),
            CorpusError::DuplicateLayer => String::from_str("Duplicate layer name"),
            CorpusError::UnknownBase => String::from_str("Base names no existing layer"),
            CorpusError::MissingBase => String::from_str("Layer requires a base"),
            CorpusError::UnknownLayer => String::from_str("Undeclared layer name"),
            CorpusError::DocumentNotFound => String::from_str("Document not found"),
        }
    }
}

/// Whether the schema declares a layer of this name.
pub open spec fn has_layer(m: Seq<(Seq<char>, LayerDescV)>, name: Seq<char>) -> bool {
    exists|i: int| 0 <= i < m.len() && m[i].0 == name
}

/// What declaring a layer yields on a given schema: the descriptor that is
/// appended, or the error that leaves the schema unchanged.
pub open spec fn add_layer_meta_spec(
    m: Seq<(Seq<char>, LayerDescV)>,
    name: Seq<char>,
    layer_type: Seq<char>,
    base: Option<Seq<char>>,
    data_type: Option<Seq<char>>,
) -> Result<LayerDescV, CorpusError> {
    match layer_type_of(layer_type) {
        Result::Err(e) => Result::Err(CorpusError::Descriptor(e)),
        Result::Ok(t) => match data_type_of(data_type) {
            Result::Err(e) => Result::Err(CorpusError::Descriptor(e)),
            Result::Ok(d) => {
                if has_layer(m, name) {
                    Result::Err(CorpusError::DuplicateLayer)
                } else if !(t is Characters) && base is None {
                    Result::Err(CorpusError::MissingBase)
                } else if base is Some && !has_layer(m, base->Some_0) {
                    Result::Err(CorpusError::UnknownBase)
                } else {
                    Result::Ok(LayerDescV { layer_type: t, base, data: d })
                }
            },
        },
    }
}

/// The first problem with a document's entries: a value that does not
/// decode, or a name the schema does not declare, read left to right.
pub open spec fn add_doc_issue(
    m: Seq<(Seq<char>, LayerDescV)>,
    entries: Seq<(Seq<char>, ValueV)>,
    i: int,
) -> Option<CorpusError>
    decreases entries.len() - i,
{
    if i < 0 || i >= entries.len() {
        Option::None
    } else if decode_spec(entries[i].1) is Err {
        Option::Some(CorpusError::Decode(decode_spec(entries[i].1)->Err_0))
    } else if !has_layer(m, entries[i].0) {
        Option::Some(CorpusError::UnknownLayer)
    } else {
        add_doc_issue(m, entries, i + 1)
    }
}

/// The decoded layers of a document whose entries all decode.
pub open spec fn decoded_doc(entries: Seq<(Seq<char>, ValueV)>) -> Seq<(Seq<char>, LayerV)> {
    Seq::new(entries.len(), |i: int| (entries[i].0, decode_spec(entries[i].1)->Ok_0))
}

/// The first document of this id, if one exists.
pub open spec fn find_doc(
    d: Seq<(Seq<char>, Seq<(Seq<char>, LayerV)>)>,
    id: Seq<char>,
    i: int,
) -> Option<Seq<(Seq<char>, LayerV)>>
    decreases d.len() - i,
{
    if i < 0 || i >= d.len() {
        Option::None
    } else if d[i].0 == id {
        Option::Some(d[i].1)
    } else {
        find_doc(d, id, i + 1)
    }
}

/// The model of a document's stored layers.
pub open spec fn doc_model(d: Vec<(String, Layer)>) -> Seq<(Seq<char>, LayerV)> {
    Seq::new(d@.len(), |j: int| (d@[j].0@, d@[j].1@))
}

/// The model of a document's untyped input entries.
pub open spec fn entries_model(d: Vec<(String, Value)>) -> Seq<(Seq<char>, ValueV)> {
    Seq::new(d@.len(), |j: int| (d@[j].0@, d@[j].1@))
}

/// An in-memory corpus: an ordered schema and an ordered run of documents.
pub struct SimpleCorpus {
    pub(crate) meta: Vec<(String, LayerDesc)>,
    pub(crate) docs: Vec<(String, Vec<(String, Layer)>)>,
}

impl SimpleCorpus {
    /// The schema: layer names and their descriptors, in insertion order.
    pub open(crate) spec fn meta_seq(&self) -> Seq<(Seq<char>, LayerDescV)> {
        Seq::new(self.meta@.len(), |i: int| (self.meta@[i].0@, self.meta@[i].1@))
    }

    /// The documents: ids and their layers, in insertion order.
    pub open(crate) spec fn docs_seq(&self) -> Seq<(Seq<char>, Seq<(Seq<char>, LayerV)>)> {
        Seq::new(self.docs@.len(), |i: int| (self.docs@[i].0@, doc_model(self.docs@[i].1)))
    }

    /// The schema invariants: unique layer names, and every declared base
    /// names a layer declared before it.
    pub open spec fn wf(&self) -> bool {
        &&& forall|i: int, j: int|
            0 <= i < j < self.meta_seq().len() ==> self.meta_seq()[i].0 != self.meta_seq()[j].0
        &&& forall|i: int|
            0 <= i < self.meta_seq().len() && (#[trigger] self.meta_seq()[i]).1.base is Some
                ==> exists|j: int|
                0 <= j < i && self.meta_seq()[j].0 == self.meta_seq()[i].1.base->Some_0
    }

    /// A fresh corpus with no layers and no documents.
    pub fn new() -> (r: SimpleCorpus)
        ensures
            r.meta_seq() == Seq::<(Seq<char>, LayerDescV)>::empty(),
            r.docs_seq() == Seq::<(Seq<char>, Seq<(Seq<char>, LayerV)>)>::empty(),
            r.wf(),
    {
        let r = SimpleCorpus { meta: Vec::new(), docs: Vec::new() };
        proof {
            assert(r.meta_seq() =~= Seq::<(Seq<char>, LayerDescV)>::empty());
            assert(r.docs_seq() =~= Seq::<(Seq<char>, Seq<(Seq<char>, LayerV)>)>::empty());
        }
        r
    }

    /// Whether the schema declares this name.
    fn has_layer_named(&self, name: &str) -> (r: bool)
        ensures
            r == has_layer(self.meta_seq(), name@),
    {
        let mut k: usize = 0;
        while k < self.meta.len()
            invariant
                k <= self.meta@.len(),
                forall|j: int| 0 <= j < k as int ==> (#[trigger] self.meta_seq()[j]).0 != name@,
            decreases self.meta@.len() - k,
        {
            if str_eq(self.meta[k].0.as_str(), name) {
                proof {
                    assert(self.meta_seq()[k as int].0 == name@);
                }
                return true;
            }
            k = k + 1;
        }
        false
    }

    /// Declares a layer, as `add_layer_meta_spec` describes: the descriptor
    /// strings are parsed, the name must be new, a non-characters layer must
    /// have a base, and a base must already be declared. On error the corpus
    /// is unchanged.
    pub fn add_layer_meta(
        &mut self,
        name: &str,
        layer_type: &str,
        base: Option<String>,
        data_type: Option<String>,
    ) -> (r: Result<(), CorpusError>)
        requires
            old(self).wf(),
        ensures
            final(self).wf(),
            final(self).docs_seq() == old(self).docs_seq(),
            ({
                let spec_r = add_layer_meta_spec(
                    old(self).meta_seq(),
                    name@,
                    layer_type@,
                    match base {
                        Option::Some(b) => Option::Some(b@),
                        Option::None => Option::None,
                    },
                    match data_type {
                        Option::Some(d) => Option::Some(d@),
                        Option::None => Option::None,
                    },
                );
                match spec_r {
                    Result::Ok(d) => r is Ok && final(self).meta_seq() == old(self).meta_seq().push(
                        (name@, d),
                    ),
                    Result::Err(e) => r == Result::<(), CorpusError>::Err(e) && final(self).meta_seq()
                        == old(self).meta_seq(),
                }
            }),
    {
        let t = match parse_layer_type(layer_type) {
            Result::Ok(t) => t,
            Result::Err(e) => {
                return Result::Err(CorpusError::Descriptor(e));
            },
        };
        let dt_ref: Option<&str> = match &data_type {
            Option::Some(d) => Option::Some(d.as_str()),
            Option::None => Option::None,
        };
        let d = match parse_data_type(dt_ref) {
            Result::Ok(d) => d,
            Result::Err(e) => {
                return Result::Err(CorpusError::Descriptor(e));
            },
        };
        if self.has_layer_named(name) {
            return Result::Err(CorpusError::DuplicateLayer);
        }
        let has_base = match &base {
            Option::Some(_) => true,
            Option::None => false,
        };
        if !matches!(t, LayerType::Characters) && !has_base {
            return Result::Err(CorpusError::MissingBase);
        }
        if let Option::Some(b) = &base {
            if !self.has_layer_named(b.as_str()) {
                return Result::Err(CorpusError::UnknownBase);
            }
        }
        let desc = LayerDesc { layer_type: t, base, data: d };
        let ghost old_meta = self.meta_seq();
        self.meta.push((name.to_owned(), desc));
        proof {
            assert(self.meta_seq() =~= old_meta.push((name@, desc@)));
            assert(self.docs_seq() =~= old(self).docs_seq());
            assert forall|i: int|
                0 <= i < self.meta_seq().len() && (#[trigger] self.meta_seq()[i]).1.base is Some
                    implies exists|j: int|
                    0 <= j < i && self.meta_seq()[j].0 == self.meta_seq()[i].1.base->Some_0 by {
                if i < old_meta.len() {
                    assert(old_meta[i].1.base is Some);
                    let j = choose|j: int| 0 <= j < i && old_meta[j].0 == old_meta[i].1.base->Some_0;
                    assert(self.meta_seq()[j].0 == self.meta_seq()[i].1.base->Some_0);
                } else {
                    if self.meta_seq()[i].1.base is Some {
                        let b = self.meta_seq()[i].1.base->Some_0;
                        assert(has_layer(old_meta, b));
                        let j = choose|j: int| 0 <= j < old_meta.len() && old_meta[j].0 == b;
                        assert(self.meta_seq()[j].0 == b);
                    }
                }
            }
        }
        Result::Ok(())
    }

    /// Adds a document: each entry's value is decoded by shape inference and
    /// its name checked against the schema, left to right; the first problem
    /// is returned and leaves the corpus unchanged. On success the document
    /// is appended and its id, the decimal ordinal of the insertion, is
    /// returned.
    pub fn add_doc(&mut self, doc: Vec<(String, Value)>) -> (r: Result<String, CorpusError>)
        requires
            old(self).wf(),
        ensures
            final(self).wf(),
            final(self).meta_seq() == old(self).meta_seq(),
            ({
                let entries = entries_model(doc);
                match add_doc_issue(old(self).meta_seq(), entries, 0) {
                    Option::Some(e) => r == Result::<String, CorpusError>::Err(e)
                        && final(self).docs_seq() == old(self).docs_seq(),
                    Option::None => r is Ok && r->Ok_0@ == dec_rep(old(self).docs_seq().len() as int)
                        && final(self).docs_seq() == old(self).docs_seq().push(
                        (dec_rep(old(self).docs_seq().len() as int), decoded_doc(entries)),
                    ),
                }
            }),
    {
        let ghost entries = entries_model(doc);
        let mut layers: Vec<(String, Layer)> = Vec::new();
        let mut k: usize = 0;
        while k < doc.len()
            invariant
                old(self) == self,
                self.wf(),
                k <= doc@.len(),
                entries == entries_model(doc),
                entries.len() == doc@.len(),
                add_doc_issue(self.meta_seq(), entries, 0) == add_doc_issue(
                    self.meta_seq(),
                    entries,
                    k as int,
                ),
                layers@.len() == k as int,
                forall|j: int| #![trigger entries[j]]
                    0 <= j < k as int ==> decode_spec(entries[j].1) is Ok && layers@[j].0@
                        == entries[j].0 && layers@[j].1@ == decode_spec(entries[j].1)->Ok_0,
            decreases doc@.len() - k,
        {
            proof {
                assert(entries[k as int] == (doc@[k as int].0@, doc@[k as int].1@));
            }
            let l = match decode(&doc[k].1) {
                Result::Ok(l) => l,
                Result::Err(e) => {
                    return Result::Err(CorpusError::Decode(e));
                },
            };
            if !self.has_layer_named(doc[k].0.as_str()) {
                return Result::Err(CorpusError::UnknownLayer);
            }
            layers.push((doc[k].0.clone(), l));
            k = k + 1;
        }
        let mut id = String::new();
        let count: u64 = self.docs.len() as u64;
        push_u64(&mut id, count);
        let ghost old_docs = self.docs_seq();
        let id_copy = id.clone();
        self.docs.push((id, layers));
        proof {
            assert(doc_model(self.docs@[old_docs.len() as int].1) =~= decoded_doc(entries));
            assert(self.docs_seq() =~= old_docs.push(
                (dec_rep(old_docs.len() as int), decoded_doc(entries)),
            ));
            assert(self.meta_seq() =~= old(self).meta_seq());
        }
        Result::Ok(id_copy)
    }

    /// The declared layer names and their descriptors, in insertion order.
    pub fn layer_descriptors(&self) -> (r: Vec<(String, LayerDesc)>)
        ensures
            r@.len() == self.meta_seq().len(),
            forall|j: int|
                0 <= j < r@.len() ==> (r@[j].0@, r@[j].1@) == #[trigger] self.meta_seq()[j],
    {
        let mut out: Vec<(String, LayerDesc)> = Vec::new();
        let mut k: usize = 0;
        while k < self.meta.len()
            invariant
                k <= self.meta@.len(),
                out@.len() == k as int,
                forall|j: int|
                    0 <= j < k as int ==> (out@[j].0@, out@[j].1@) == #[trigger] self.meta_seq()[j],
            decreases self.meta@.len() - k,
        {
            out.push((self.meta[k].0.clone(), self.meta[k].1.duplicate()));
            k = k + 1;
        }
        out
    }

    /// The ids of all documents, in insertion order.
    pub fn get_doc_ids(&self) -> (r: Vec<String>)
        ensures
            r.deep_view() == Seq::new(self.docs_seq().len(), |i: int| self.docs_seq()[i].0),
    {
        let mut out: Vec<String> = Vec::new();
        let mut k: usize = 0;
        while k < self.docs.len()
            invariant
                k <= self.docs@.len(),
                out@.len() == k as int,
                forall|j: int| #![trigger out@[j]]
                    0 <= j < k as int ==> out@[j]@ == self.docs_seq()[j].0,
            decreases self.docs@.len() - k,
        {
            out.push(self.docs[k].0.clone());
            k = k + 1;
        }
        proof {
            assert(out.deep_view() =~= Seq::new(
                self.docs_seq().len(),
                |i: int| self.docs_seq()[i].0,
            ));
        }
        out
    }

    /// Fetches the first document of this id and encodes each of its layers
    /// back to an untyped value; `DocumentNotFound` where no document has
    /// the id.
    pub fn get_doc_by_id(&self, id: &str) -> (r: Result<Vec<(String, Value)>, CorpusError>)
        ensures
            match find_doc(self.docs_seq(), id@, 0) {
                Option::None => r == Result::<Vec<(String, Value)>, CorpusError>::Err(
                    CorpusError::DocumentNotFound,
                ),
                Option::Some(layers) => r is Ok && entries_model(r->Ok_0) == Seq::new(
                    layers.len(),
                    |j: int| (layers[j].0, crate::encode::encode_spec(layers[j].1)),
                ),
            },
    {
        let mut k: usize = 0;
        while k < self.docs.len()
            invariant
                k <= self.docs@.len(),
                find_doc(self.docs_seq(), id@, 0) == find_doc(self.docs_seq(), id@, k as int),
            decreases self.docs@.len() - k,
        {
            if str_eq(self.docs[k].0.as_str(), id) {
                let doc = &self.docs[k].1;
                let ghost layers = self.docs_seq()[k as int].1;
                let mut out: Vec<(String, Value)> = Vec::new();
                let mut j: usize = 0;
                while j < doc.len()
                    invariant
                        j <= doc@.len(),
                        layers.len() == doc@.len(),
                        forall|t: int|
                            0 <= t < doc@.len() ==> #[trigger] layers[t] == (
                                doc@[t].0@,
                                doc@[t].1@,
                            ),
                        out@.len() == j as int,
                        forall|t: int| #![trigger out@[t]]
                            0 <= t < j as int ==> out@[t].0@ == layers[t].0 && out@[t].1@
                                == crate::encode::encode_spec(layers[t].1),
                    decreases doc@.len() - j,
                {
                    let v = crate::encode::encode(&doc[j].1);
                    out.push((doc[j].0.clone(), v));
                    j = j + 1;
                }
                proof {
                    assert(find_doc(self.docs_seq(), id@, k as int) == Option::Some(layers));
                    assert(entries_model(out) =~= Seq::new(
                        layers.len(),
                        |t: int| (layers[t].0, crate::encode::encode_spec(layers[t].1)),
                    ));
                }
                return Result::Ok(out);
            }
            proof {
                assert(self.docs_seq()[k as int].0 != id@);
            }
            k = k + 1;
        }
        Result::Err(CorpusError::DocumentNotFound)
    }
}

} // verus!

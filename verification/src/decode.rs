//! Shape inference: turning an untyped value into a concrete layer by
//! inspecting its structure alone.
//!
//! The dispatch order is fixed: a string becomes a characters layer; an empty
//! array becomes an empty index layer; otherwise the first element of the
//! array decides the shape, and every later element must conform to it.

use vstd::prelude::*;

use crate::layer::{Layer, LayerV};
use crate::value::{Value, ValueV};

verus! {

broadcast use vstd::std_specs::vec::group_vec_axioms, vstd::seq::group_seq_axioms;

/// Why an untyped value could not be decoded into a layer. Each carries the
/// index of the offending element where one exists.
#[derive(Clone, Copy, PartialEq, Eq, Structural, Debug)]
pub enum DecodeError {
    /// An element's type differs from what the first element implied.
    ShapeMismatch { index: usize },
    /// A nested element has fewer entries than the shape requires, or a
    /// non-numeric entry in an index position.
    ArityMismatch { index: usize },
    /// The outer or inner structure matches no recognized layer shape.
    UnsupportedShape,
    /// A number in an index position is negative, fractional or out of range.
    InvalidNumber { index: usize },
}

impl DecodeError {
    /// The text of this error's account.
    pub open spec fn message_text(&self) -> Seq<char> {
        match self {
            DecodeError::ShapeMismatch { .. } => "Element type mismatch"@,
            DecodeError::ArityMismatch { .. } => "Element arity mismatch"@,
            DecodeError::UnsupportedShape => "Unsupported value shape"@,
            DecodeError::InvalidNumber { .. } => "Expected non-negative 32-bit number"@,
        }
    }

    /// A short human-readable account of the error.
    pub fn message(&self) -> (r: String)
        ensures
            r@ == self.message_text(),
    {
        match self {
            DecodeError::ShapeMismatch { .. } => String::from_str("Element type mismatch"),
            DecodeError::ArityMismatch { .. } => String::from_str("Element arity mismatch"),
            DecodeError::UnsupportedShape => String::from_str("Unsupported value shape"),
            DecodeError::InvalidNumber { .. } => String::from_str(
                "Expected non-negative 32-bit number",
            ),
        }
    }
}

/// Whether a value is a number, integral or not.
pub open spec fn numeric(v: ValueV) -> bool {
    v is Int || v is Float
}

/// The index a numeric value denotes: defined exactly for integers that fit
/// an unsigned 32-bit position.
pub open spec fn index_val(v: ValueV) -> Option<u32> {
    if v is Int && 0 <= v->Int_0 <= u32::MAX {
        Option::Some(v->Int_0 as u32)
    } else {
        Option::None
    }
}

/// The first problem in decoding elements `i..` as single indices, if any.
pub open spec fn l1_issue(vs: Seq<ValueV>, i: int) -> Option<DecodeError>
    decreases vs.len() - i,
{
    if i < 0 || i >= vs.len() {
        Option::None
    } else if !numeric(vs[i]) {
        Option::Some(DecodeError::ShapeMismatch { index: i as usize })
    } else if index_val(vs[i]) is None {
        Option::Some(DecodeError::InvalidNumber { index: i as usize })
    } else {
        l1_issue(vs, i + 1)
    }
}

/// The first problem in reading entry `j` of element number `at`, where the
/// entry must be a non-negative 32-bit index.
pub open spec fn entry_issue(entry: ValueV, at: int) -> Option<DecodeError> {
    if !numeric(entry) {
        Option::Some(DecodeError::ArityMismatch { index: at as usize })
    } else if index_val(entry) is None {
        Option::Some(DecodeError::InvalidNumber { index: at as usize })
    } else {
        Option::None
    }
}

/// The first problem in decoding elements `i..` as tuples of exactly
/// `arity` indices (arity 2 or 3), if any: the arity the first element set
/// is enforced on every element.
pub open spec fn tuple_issue(vs: Seq<ValueV>, arity: int, i: int) -> Option<DecodeError>
    decreases vs.len() - i,
{
    if i < 0 || i >= vs.len() {
        Option::None
    } else if !(vs[i] is Array) || vs[i]->Array_0.len() != arity {
        Option::Some(DecodeError::ArityMismatch { index: i as usize })
    } else if entry_issue(vs[i]->Array_0[0], i) is Some {
        entry_issue(vs[i]->Array_0[0], i)
    } else if entry_issue(vs[i]->Array_0[1], i) is Some {
        entry_issue(vs[i]->Array_0[1], i)
    } else if arity >= 3 && entry_issue(vs[i]->Array_0[2], i) is Some {
        entry_issue(vs[i]->Array_0[2], i)
    } else {
        tuple_issue(vs, arity, i + 1)
    }
}

/// The first problem in decoding elements `i..` as strings, if any.
pub open spec fn ls_issue(vs: Seq<ValueV>, i: int) -> Option<DecodeError>
    decreases vs.len() - i,
{
    if i < 0 || i >= vs.len() {
        Option::None
    } else if !(vs[i] is Str) {
        Option::Some(DecodeError::ShapeMismatch { index: i as usize })
    } else {
        ls_issue(vs, i + 1)
    }
}

/// The pair an element denotes, once `tuple_issue` has cleared it.
pub open spec fn pair_of(v: ValueV) -> (u32, u32) {
    (index_val(v->Array_0[0])->Some_0, index_val(v->Array_0[1])->Some_0)
}

/// The triple an element denotes, once `tuple_issue` has cleared it.
pub open spec fn triple_of(v: ValueV) -> (u32, u32, u32) {
    (
        index_val(v->Array_0[0])->Some_0,
        index_val(v->Array_0[1])->Some_0,
        index_val(v->Array_0[2])->Some_0,
    )
}

/// What shape inference yields on an untyped value: the decoded layer, or
/// the first error met reading the elements left to right.
pub open spec fn decode_spec(v: ValueV) -> Result<LayerV, DecodeError> {
    match v {
        ValueV::Str(s) => Result::Ok(LayerV::Characters(s)),
        ValueV::Array(vs) => {
            if vs.len() == 0 {
                Result::Ok(LayerV::L1(Seq::empty()))
            } else if numeric(vs[0]) {
                match l1_issue(vs, 0) {
                    Option::Some(e) => Result::Err(e),
                    Option::None => Result::Ok(
                        LayerV::L1(Seq::new(vs.len(), |i: int| index_val(vs[i])->Some_0)),
                    ),
                }
            } else if vs[0] is Array {
                if vs[0]->Array_0.len() == 2 {
                    match tuple_issue(vs, 2, 0) {
                        Option::Some(e) => Result::Err(e),
                        Option::None => Result::Ok(
                            LayerV::L2(Seq::new(vs.len(), |i: int| pair_of(vs[i]))),
                        ),
                    }
                } else if vs[0]->Array_0.len() == 3 {
                    match tuple_issue(vs, 3, 0) {
                        Option::Some(e) => Result::Err(e),
                        Option::None => Result::Ok(
                            LayerV::L3(Seq::new(vs.len(), |i: int| triple_of(vs[i]))),
                        ),
                    }
                } else {
                    Result::Err(DecodeError::UnsupportedShape)
                }
            } else if vs[0] is Str {
                match ls_issue(vs, 0) {
                    Option::Some(e) => Result::Err(e),
                    Option::None => Result::Ok(
                        LayerV::LS(Seq::new(vs.len(), |i: int| vs[i]->Str_0)),
                    ),
                }
            } else {
                Result::Err(DecodeError::UnsupportedShape)
            }
        },
        _ => Result::Err(DecodeError::UnsupportedShape),
    }
}

/// The model of a decode result.
pub open spec fn decode_result_view(r: Result<Layer, DecodeError>) -> Result<LayerV, DecodeError> {
    match r {
        Result::Ok(l) => Result::Ok(l@),
        Result::Err(e) => Result::Err(e),
    }
}

/// The index a value denotes, or `None` where it is not an in-range integer.
fn index_u32(v: &Value) -> (r: Option<u32>)
    ensures
        r == index_val(v@),
{
    match v {
        Value::Int(i) => {
            if 0 <= *i && *i <= 0xFFFF_FFFFi64 {
                Option::Some(*i as u32)
            } else {
                Option::None
            }
        },
        _ => Option::None,
    }
}

/// Whether a value is numeric.
fn is_numeric(v: &Value) -> (r: bool)
    ensures
        r == numeric(v@),
{
    match v {
        Value::Int(_) => true,
        Value::Float(_) => true,
        _ => false,
    }
}

/// Reads one index entry of the element at `at`, as `entry_issue` describes.
fn read_entry(entry: &Value, at: usize) -> (r: Result<u32, DecodeError>)
    ensures
        match r {
            Result::Ok(n) => entry_issue(entry@, at as int) is None && index_val(entry@)
                == Option::Some(n),
            Result::Err(e) => entry_issue(entry@, at as int) == Option::Some(e),
        },
{
    if !is_numeric(entry) {
        Result::Err(DecodeError::ArityMismatch { index: at })
    } else {
        match index_u32(entry) {
            Option::Some(n) => Result::Ok(n),
            Option::None => Result::Err(DecodeError::InvalidNumber { index: at }),
        }
    }
}

/// Decodes an untyped value into a layer by shape inference, exactly as
/// `decode_spec` describes: the first offending element decides the error.
pub fn decode(v: &Value) -> (r: Result<Layer, DecodeError>)
    ensures
        decode_result_view(r) == decode_spec(v@),
{
    match v {
        Value::Str(s) => Result::Ok(Layer::Characters(s.clone())),
        Value::Array(vs) => {
            let ghost sv = v@->Array_0;
            proof {
                assert(forall|j: int| 0 <= j < vs@.len() ==> sv[j] == vs@[j]@);
            }
            if vs.len() == 0 {
                let empty: Vec<u32> = Vec::new();
                Result::Ok(Layer::L1(empty))
            } else if is_numeric(&vs[0]) {
                let mut out: Vec<u32> = Vec::new();
                let mut k: usize = 0;
                while k < vs.len()
                    invariant
                        sv.len() == vs@.len(),
                        forall|j: int| 0 <= j < vs@.len() ==> sv[j] == vs@[j]@,
                        k <= vs@.len(),
                        v@ == ValueV::Array(sv),
                        sv.len() > 0,
                        numeric(sv[0]),
                        l1_issue(sv, 0) == l1_issue(sv, k as int),
                        out@.len() == k as int,
                        forall|j: int| 0 <= j < k as int ==> index_val(sv[j]) == Option::Some(
                            out@[j],
                        ),
                    decreases vs@.len() - k,
                {
                    if !is_numeric(&vs[k]) {
                        return Result::Err(DecodeError::ShapeMismatch { index: k });
                    }
                    match index_u32(&vs[k]) {
                        Option::Some(n) => {
                            out.push(n);
                        },
                        Option::None => {
                            return Result::Err(DecodeError::InvalidNumber { index: k });
                        },
                    }
                    k = k + 1;
                }
                proof {
                    assert(Seq::new(sv.len(), |i: int| index_val(sv[i])->Some_0) =~= out@);
                }
                Result::Ok(Layer::L1(out))
            } else if let Value::Array(first) = &vs[0] {
                if first.len() == 2 {
                    let mut out: Vec<(u32, u32)> = Vec::new();
                    let mut k: usize = 0;
                    while k < vs.len()
                        invariant
                            sv.len() == vs@.len(),
                            forall|j: int| 0 <= j < vs@.len() ==> sv[j] == vs@[j]@,
                            k <= vs@.len(),
                            v@ == ValueV::Array(sv),
                            sv.len() > 0,
                            !numeric(sv[0]),
                            sv[0] is Array,
                            sv[0]->Array_0.len() == 2,
                            tuple_issue(sv, 2, 0) == tuple_issue(sv, 2, k as int),
                            out@.len() == k as int,
                            forall|j: int| #![trigger sv[j]]
                                0 <= j < k as int ==> sv[j] is Array && out@[j] == pair_of(sv[j]),
                        decreases vs@.len() - k,
                    {
                        match &vs[k] {
                            Value::Array(inner) => {
                                if inner.len() != 2 {
                                    return Result::Err(DecodeError::ArityMismatch { index: k });
                                }
                                let a = match read_entry(&inner[0], k) {
                                    Result::Ok(n) => n,
                                    Result::Err(e) => {
                                        return Result::Err(e);
                                    },
                                };
                                let b = match read_entry(&inner[1], k) {
                                    Result::Ok(n) => n,
                                    Result::Err(e) => {
                                        return Result::Err(e);
                                    },
                                };
                                proof {
                                    assert(sv[k as int] == vs@[k as int]@);
                                    assert(sv[k as int] is Array);
                                    assert(sv[k as int]->Array_0[0] == inner@[0]@);
                                    assert(sv[k as int]->Array_0[1] == inner@[1]@);
                                    assert((a, b) == pair_of(sv[k as int]));
                                }
                                out.push((a, b));
                            },
                            _ => {
                                return Result::Err(DecodeError::ArityMismatch { index: k });
                            },
                        }
                        k = k + 1;
                    }
                    proof {
                        assert(Seq::new(sv.len(), |i: int| pair_of(sv[i])) =~= out@);
                    }
                    Result::Ok(Layer::L2(out))
                } else if first.len() == 3 {
                    let mut out: Vec<(u32, u32, u32)> = Vec::new();
                    let mut k: usize = 0;
                    while k < vs.len()
                        invariant
                            sv.len() == vs@.len(),
                            forall|j: int| 0 <= j < vs@.len() ==> sv[j] == vs@[j]@,
                            k <= vs@.len(),
                            v@ == ValueV::Array(sv),
                            sv.len() > 0,
                            !numeric(sv[0]),
                            sv[0] is Array,
                            sv[0]->Array_0.len() == 3,
                            tuple_issue(sv, 3, 0) == tuple_issue(sv, 3, k as int),
                            out@.len() == k as int,
                            forall|j: int| #![trigger sv[j]]
                                0 <= j < k as int ==> sv[j] is Array && out@[j] == triple_of(sv[j]),
                        decreases vs@.len() - k,
                    {
                        match &vs[k] {
                            Value::Array(inner) => {
                                if inner.len() != 3 {
                                    return Result::Err(DecodeError::ArityMismatch { index: k });
                                }
                                let a = match read_entry(&inner[0], k) {
                                    Result::Ok(n) => n,
                                    Result::Err(e) => {
                                        return Result::Err(e);
                                    },
                                };
                                let b = match read_entry(&inner[1], k) {
                                    Result::Ok(n) => n,
                                    Result::Err(e) => {
                                        return Result::Err(e);
                                    },
                                };
                                let c = match read_entry(&inner[2], k) {
                                    Result::Ok(n) => n,
                                    Result::Err(e) => {
                                        return Result::Err(e);
                                    },
                                };
                                proof {
                                    assert(sv[k as int] == vs@[k as int]@);
                                    assert(sv[k as int] is Array);
                                    assert(sv[k as int]->Array_0[0] == inner@[0]@);
                                    assert(sv[k as int]->Array_0[1] == inner@[1]@);
                                    assert(sv[k as int]->Array_0[2] == inner@[2]@);
                                    assert((a, b, c) == triple_of(sv[k as int]));
                                }
                                out.push((a, b, c));
                            },
                            _ => {
                                return Result::Err(DecodeError::ArityMismatch { index: k });
                            },
                        }
                        k = k + 1;
                    }
                    proof {
                        assert(Seq::new(sv.len(), |i: int| triple_of(sv[i])) =~= out@);
                    }
                    Result::Ok(Layer::L3(out))
                } else {
                    Result::Err(DecodeError::UnsupportedShape)
                }
            } else if let Value::Str(_) = &vs[0] {
                let mut out: Vec<String> = Vec::new();
                let mut k: usize = 0;
                while k < vs.len()
                    invariant
                        sv.len() == vs@.len(),
                        forall|j: int| 0 <= j < vs@.len() ==> sv[j] == vs@[j]@,
                        k <= vs@.len(),
                        v@ == ValueV::Array(sv),
                        sv.len() > 0,
                        !numeric(sv[0]),
                        !(sv[0] is Array),
                        sv[0] is Str,
                        ls_issue(sv, 0) == ls_issue(sv, k as int),
                        out@.len() == k as int,
                        forall|j: int|
                            0 <= j < k as int ==> sv[j] is Str && out@[j]@ == sv[j]->Str_0,
                    decreases vs@.len() - k,
                {
                    match &vs[k] {
                        Value::Str(s) => {
                            out.push(s.clone());
                        },
                        _ => {
                            return Result::Err(DecodeError::ShapeMismatch { index: k });
                        },
                    }
                    k = k + 1;
                }
                proof {
                    assert(Seq::new(sv.len(), |i: int| sv[i]->Str_0) =~= out.deep_view());
                }
                Result::Ok(Layer::LS(out))
            } else {
                Result::Err(DecodeError::UnsupportedShape)
            }
        },
        _ => Result::Err(DecodeError::UnsupportedShape),
    }
}

} // verus!

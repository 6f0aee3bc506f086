//! Layer encoding: the structural inverse of shape inference. Every layer
//! variant has a defined untyped representation, and encoding never fails.

use vstd::prelude::*;

use crate::decode::{decode_spec, index_val, l1_issue, ls_issue, pair_of, triple_of, tuple_issue,
    DecodeError};
use crate::layer::{Layer, LayerV};
use crate::value::{Value, ValueV};

verus! {

broadcast use vstd::std_specs::vec::group_vec_axioms, vstd::seq::group_seq_axioms;

/// The untyped representation of a layer: a string for characters, arrays of
/// numbers or of fixed-arity arrays for index layers, arrays whose trailing
/// entry is the string value for the string-valued index layers, and the
/// metadata value itself (or null) for a metadata layer.
pub open spec fn encode_spec(l: LayerV) -> ValueV {
    match l {
        LayerV::Characters(s) => ValueV::Str(s),
        LayerV::L1(ns) => ValueV::Array(Seq::new(ns.len(), |i: int| ValueV::Int(ns[i] as i64))),
        LayerV::L2(ps) => ValueV::Array(
            Seq::new(
                ps.len(),
                |i: int|
                    ValueV::Array(
                        seq![ValueV::Int(ps[i].0 as i64), ValueV::Int(ps[i].1 as i64)],
                    ),
            ),
        ),
        LayerV::L3(ts) => ValueV::Array(
            Seq::new(
                ts.len(),
                |i: int|
                    ValueV::Array(
                        seq![
                            ValueV::Int(ts[i].0 as i64),
                            ValueV::Int(ts[i].1 as i64),
                            ValueV::Int(ts[i].2 as i64),
                        ],
                    ),
            ),
        ),
        LayerV::LS(ss) => ValueV::Array(Seq::new(ss.len(), |i: int| ValueV::Str(ss[i]))),
        LayerV::L1S(xs) => ValueV::Array(
            Seq::new(
                xs.len(),
                |i: int|
                    ValueV::Array(seq![ValueV::Int(xs[i].0 as i64), ValueV::Str(xs[i].1)]),
            ),
        ),
        LayerV::L2S(xs) => ValueV::Array(
            Seq::new(
                xs.len(),
                |i: int|
                    ValueV::Array(
                        seq![
                            ValueV::Int(xs[i].0 as i64),
                            ValueV::Int(xs[i].1 as i64),
                            ValueV::Str(xs[i].2),
                        ],
                    ),
            ),
        ),
        LayerV::L3S(xs) => ValueV::Array(
            Seq::new(
                xs.len(),
                |i: int|
                    ValueV::Array(
                        seq![
                            ValueV::Int(xs[i].0 as i64),
                            ValueV::Int(xs[i].1 as i64),
                            ValueV::Int(xs[i].2 as i64),
                            ValueV::Str(xs[i].3),
                        ],
                    ),
            ),
        ),
        LayerV::Meta(ov) => match ov {
            Option::Some(v) => v,
            Option::None => ValueV::Null,
        },
    }
}

/// Encodes a layer into its untyped representation, exactly as `encode_spec`
/// describes. Total: every layer has one.
pub fn encode(l: &Layer) -> (v: Value)
    ensures
        v@ == encode_spec(l@),
{
    match l {
        Layer::Characters(s) => Value::Str(s.clone()),
        Layer::L1(ns) => {
            let mut out: Vec<Value> = Vec::new();
            let mut k: usize = 0;
            while k < ns.len()
                invariant
                    k <= ns@.len(),
                    out@.len() == k as int,
                    forall|j: int| #![trigger out@[j]]
                        0 <= j < k as int ==> out@[j]@ == ValueV::Int(ns@[j] as i64),
                decreases ns@.len() - k,
            {
                out.push(Value::Int(ns[k] as i64));
                k = k + 1;
            }
            proof {
                assert(Value::Array(out)@->Array_0 =~= encode_spec(l@)->Array_0);
            }
            Value::Array(out)
        },
        Layer::L2(ps) => {
            let mut out: Vec<Value> = Vec::new();
            let mut k: usize = 0;
            while k < ps.len()
                invariant
                    k <= ps@.len(),
                    out@.len() == k as int,
                    forall|j: int| #![trigger out@[j]]
                        0 <= j < k as int ==> out@[j]@ == ValueV::Array(
                            seq![
                                ValueV::Int(ps@[j].0 as i64),
                                ValueV::Int(ps@[j].1 as i64),
                            ],
                        ),
                decreases ps@.len() - k,
            {
                let (a, b) = ps[k];
                let mut pair: Vec<Value> = Vec::new();
                pair.push(Value::Int(a as i64));
                pair.push(Value::Int(b as i64));
                let elem = Value::Array(pair);
                proof {
                    assert(pair@[0]@ == ValueV::Int(ps@[k as int].0 as i64));
                    assert(pair@[1]@ == ValueV::Int(ps@[k as int].1 as i64));
                    assert(elem@->Array_0 =~= seq![
                        ValueV::Int(ps@[k as int].0 as i64),
                        ValueV::Int(ps@[k as int].1 as i64),
                    ]);
                }
                out.push(elem);
                k = k + 1;
            }
            proof {
                assert(Value::Array(out)@->Array_0 =~= encode_spec(l@)->Array_0);
            }
            Value::Array(out)
        },
        Layer::L3(ts) => {
            let mut out: Vec<Value> = Vec::new();
            let mut k: usize = 0;
            while k < ts.len()
                invariant
                    k <= ts@.len(),
                    out@.len() == k as int,
                    forall|j: int| #![trigger out@[j]]
                        0 <= j < k as int ==> out@[j]@ == ValueV::Array(
                            seq![
                                ValueV::Int(ts@[j].0 as i64),
                                ValueV::Int(ts@[j].1 as i64),
                                ValueV::Int(ts@[j].2 as i64),
                            ],
                        ),
                decreases ts@.len() - k,
            {
                let (a, b, c) = ts[k];
                let mut triple: Vec<Value> = Vec::new();
                triple.push(Value::Int(a as i64));
                triple.push(Value::Int(b as i64));
                triple.push(Value::Int(c as i64));
                let elem = Value::Array(triple);
                proof {
                    assert(triple@[0]@ == ValueV::Int(ts@[k as int].0 as i64));
                    assert(triple@[1]@ == ValueV::Int(ts@[k as int].1 as i64));
                    assert(triple@[2]@ == ValueV::Int(ts@[k as int].2 as i64));
                    assert(elem@->Array_0 =~= seq![
                        ValueV::Int(ts@[k as int].0 as i64),
                        ValueV::Int(ts@[k as int].1 as i64),
                        ValueV::Int(ts@[k as int].2 as i64),
                    ]);
                }
                out.push(elem);
                k = k + 1;
            }
            proof {
                assert(Value::Array(out)@->Array_0 =~= encode_spec(l@)->Array_0);
            }
            Value::Array(out)
        },
        Layer::LS(ss) => {
            let mut out: Vec<Value> = Vec::new();
            let mut k: usize = 0;
            while k < ss.len()
                invariant
                    k <= ss@.len(),
                    out@.len() == k as int,
                    forall|j: int| #![trigger out@[j]]
                        0 <= j < k as int ==> out@[j]@ == ValueV::Str(ss@[j]@),
                decreases ss@.len() - k,
            {
                out.push(Value::Str(ss[k].clone()));
                k = k + 1;
            }
            proof {
                assert(Value::Array(out)@->Array_0 =~= encode_spec(l@)->Array_0);
            }
            Value::Array(out)
        },
        Layer::L1S(xs) => {
            let mut out: Vec<Value> = Vec::new();
            let mut k: usize = 0;
            while k < xs.len()
                invariant
                    k <= xs@.len(),
                    out@.len() == k as int,
                    forall|j: int| #![trigger out@[j]]
                        0 <= j < k as int ==> out@[j]@ == ValueV::Array(
                            seq![ValueV::Int(xs@[j].0 as i64), ValueV::Str(xs@[j].1@)],
                        ),
                decreases xs@.len() - k,
            {
                let mut pair: Vec<Value> = Vec::new();
                pair.push(Value::Int(xs[k].0 as i64));
                pair.push(Value::Str(xs[k].1.clone()));
                let elem = Value::Array(pair);
                proof {
                    assert(pair@[0]@ == ValueV::Int(xs@[k as int].0 as i64));
                    assert(pair@[1]@ == ValueV::Str(xs@[k as int].1@));
                    assert(elem@->Array_0 =~= seq![
                        ValueV::Int(xs@[k as int].0 as i64),
                        ValueV::Str(xs@[k as int].1@),
                    ]);
                }
                out.push(elem);
                k = k + 1;
            }
            proof {
                assert(Value::Array(out)@->Array_0 =~= encode_spec(l@)->Array_0);
            }
            Value::Array(out)
        },
        Layer::L2S(xs) => {
            let mut out: Vec<Value> = Vec::new();
            let mut k: usize = 0;
            while k < xs.len()
                invariant
                    k <= xs@.len(),
                    out@.len() == k as int,
                    forall|j: int| #![trigger out@[j]]
                        0 <= j < k as int ==> out@[j]@ == ValueV::Array(
                            seq![
                                ValueV::Int(xs@[j].0 as i64),
                                ValueV::Int(xs@[j].1 as i64),
                                ValueV::Str(xs@[j].2@),
                            ],
                        ),
                decreases xs@.len() - k,
            {
                let mut entry: Vec<Value> = Vec::new();
                entry.push(Value::Int(xs[k].0 as i64));
                entry.push(Value::Int(xs[k].1 as i64));
                entry.push(Value::Str(xs[k].2.clone()));
                let elem = Value::Array(entry);
                proof {
                    assert(entry@[0]@ == ValueV::Int(xs@[k as int].0 as i64));
                    assert(entry@[1]@ == ValueV::Int(xs@[k as int].1 as i64));
                    assert(entry@[2]@ == ValueV::Str(xs@[k as int].2@));
                    assert(elem@->Array_0 =~= seq![
                        ValueV::Int(xs@[k as int].0 as i64),
                        ValueV::Int(xs@[k as int].1 as i64),
                        ValueV::Str(xs@[k as int].2@),
                    ]);
                }
                out.push(elem);
                k = k + 1;
            }
            proof {
                assert(Value::Array(out)@->Array_0 =~= encode_spec(l@)->Array_0);
            }
            Value::Array(out)
        },
        Layer::L3S(xs) => {
            let mut out: Vec<Value> = Vec::new();
            let mut k: usize = 0;
            while k < xs.len()
                invariant
                    k <= xs@.len(),
                    out@.len() == k as int,
                    forall|j: int| #![trigger out@[j]]
                        0 <= j < k as int ==> out@[j]@ == ValueV::Array(
                            seq![
                                ValueV::Int(xs@[j].0 as i64),
                                ValueV::Int(xs@[j].1 as i64),
                                ValueV::Int(xs@[j].2 as i64),
                                ValueV::Str(xs@[j].3@),
                            ],
                        ),
                decreases xs@.len() - k,
            {
                let mut entry: Vec<Value> = Vec::new();
                entry.push(Value::Int(xs[k].0 as i64));
                entry.push(Value::Int(xs[k].1 as i64));
                entry.push(Value::Int(xs[k].2 as i64));
                entry.push(Value::Str(xs[k].3.clone()));
                let elem = Value::Array(entry);
                proof {
                    assert(entry@[0]@ == ValueV::Int(xs@[k as int].0 as i64));
                    assert(entry@[1]@ == ValueV::Int(xs@[k as int].1 as i64));
                    assert(entry@[2]@ == ValueV::Int(xs@[k as int].2 as i64));
                    assert(entry@[3]@ == ValueV::Str(xs@[k as int].3@));
                    assert(elem@->Array_0 =~= seq![
                        ValueV::Int(xs@[k as int].0 as i64),
                        ValueV::Int(xs@[k as int].1 as i64),
                        ValueV::Int(xs@[k as int].2 as i64),
                        ValueV::Str(xs@[k as int].3@),
                    ]);
                }
                out.push(elem);
                k = k + 1;
            }
            proof {
                assert(Value::Array(out)@->Array_0 =~= encode_spec(l@)->Array_0);
            }
            Value::Array(out)
        },
        Layer::MetaLayer(ov) => match ov {
            Option::Some(v) => v.duplicate(),
            Option::None => Value::Null,
        },
    }
}

/// Single indices encoded from in-range integers raise no decoding issue.
proof fn lemma_l1_clean(vs: Seq<ValueV>, i: int)
    requires
        forall|j: int| 0 <= j < vs.len() ==> index_val(#[trigger] vs[j]) is Some,
    ensures
        l1_issue(vs, i) is None,
    decreases vs.len() - i,
{
    if 0 <= i < vs.len() {
        lemma_l1_clean(vs, i + 1);
    }
}

/// Tuple elements whose leading entries are in-range integers raise no
/// decoding issue.
proof fn lemma_tuple_clean(vs: Seq<ValueV>, arity: int, i: int)
    requires
        2 <= arity <= 3,
        forall|j: int|
            0 <= j < vs.len() ==> (#[trigger] vs[j]) is Array && vs[j]->Array_0.len() == arity
                && (forall|e: int| 0 <= e < arity ==> index_val(#[trigger] vs[j]->Array_0[e]) is Some),
    ensures
        tuple_issue(vs, arity, i) is None,
    decreases vs.len() - i,
{
    if 0 <= i < vs.len() {
        lemma_tuple_clean(vs, arity, i + 1);
    }
}

/// String elements raise no decoding issue.
proof fn lemma_ls_clean(vs: Seq<ValueV>, i: int)
    requires
        forall|j: int| 0 <= j < vs.len() ==> (#[trigger] vs[j]) is Str,
    ensures
        ls_issue(vs, i) is None,
    decreases vs.len() - i,
{
    if 0 <= i < vs.len() {
        lemma_ls_clean(vs, i + 1);
    }
}

/// Round trip: decoding the encoding of a characters, index, span, triple or
/// string layer gives the layer back. The empty span, triple and string
/// layers are left out: an empty array carries no trace of its shape and
/// decodes as an empty index layer.
pub proof fn lemma_round_trip(l: LayerV)
    requires
        l is Characters || l is L1 || l is L2 || l is L3 || l is LS,
        l is L2 ==> l->L2_0.len() > 0,
        l is L3 ==> l->L3_0.len() > 0,
        l is LS ==> l->LS_0.len() > 0,
    ensures
        decode_spec(encode_spec(l)) == Result::<LayerV, DecodeError>::Ok(l),
{
    let e = encode_spec(l);
    match l {
        LayerV::Characters(_) => {},
        LayerV::L1(ns) => {
            let vs = e->Array_0;
            if ns.len() == 0 {
                assert(decode_spec(e)->Ok_0->L1_0 =~= ns);
            } else {
                lemma_l1_clean(vs, 0);
                assert(decode_spec(e)->Ok_0->L1_0 =~= ns);
            }
        },
        LayerV::L2(ps) => {
            let vs = e->Array_0;
            lemma_tuple_clean(vs, 2, 0);
            assert(forall|i: int| 0 <= i < ps.len() ==> pair_of(#[trigger] vs[i]) == ps[i]);
            assert(decode_spec(e)->Ok_0->L2_0 =~= ps);
        },
        LayerV::L3(ts) => {
            let vs = e->Array_0;
            lemma_tuple_clean(vs, 3, 0);
            assert(forall|i: int| 0 <= i < ts.len() ==> triple_of(#[trigger] vs[i]) == ts[i]);
            assert(decode_spec(e)->Ok_0->L3_0 =~= ts);
        },
        LayerV::LS(ss) => {
            let vs = e->Array_0;
            lemma_ls_clean(vs, 0);
            assert(decode_spec(e)->Ok_0->LS_0 =~= ss);
        },
        _ => {},
    }
}

} // verus!

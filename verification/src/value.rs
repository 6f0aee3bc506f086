//! The untyped structured values that layers are decoded from and encoded to.
//!
//! A `Value` is a small recursive algebraic value: null, boolean, integer,
//! float, string, array, or ordered object. Floats are carried opaquely as
//! their IEEE 754 bit pattern, so that the codec can recognise and reject
//! them in index positions without ever computing with them.

use vstd::prelude::*;

verus! {

broadcast use vstd::std_specs::vec::group_vec_axioms, vstd::seq::group_seq_axioms;

/// An untyped structured value, the input of shape inference and the output
/// of layer encoding.
#[derive(PartialEq, Eq, Debug)]
pub enum Value {
    Null,
    Bool(bool),
    Int(i64),
    /// A non-integral or out-of-range number, held as its IEEE 754 bit pattern.
    Float(u64),
    Str(String),
    Array(Vec<Value>),
    /// An object as an ordered sequence of key/value pairs; iteration order is
    /// insertion order.
    Object(Vec<(String, Value)>),
}

/// The mathematical model of a `Value`.
pub enum ValueV {
    Null,
    Bool(bool),
    Int(i64),
    Float(u64),
    Str(Seq<char>),
    Array(Seq<ValueV>),
    Object(Seq<(Seq<char>, ValueV)>),
}

impl Value {
    /// The model of this value, recursing through arrays and objects.
    pub open spec fn model(self) -> ValueV
        decreases self,
    {
        match self {
            Value::Null => ValueV::Null,
            Value::Bool(b) => ValueV::Bool(b),
            Value::Int(i) => ValueV::Int(i),
            Value::Float(bits) => ValueV::Float(bits),
            Value::Str(s) => ValueV::Str(s@),
            Value::Array(vs) => ValueV::Array(
                Seq::new(
                    vs@.len(),
                    |i: int|
                        if 0 <= i < vs@.len() {
                            vs@[i].model()
                        } else {
                            ValueV::Null
                        },
                ),
            ),
            Value::Object(ps) => ValueV::Object(
                Seq::new(
                    ps@.len(),
                    |i: int|
                        if 0 <= i < ps@.len() {
                            (ps@[i].0@, ps@[i].1.model())
                        } else {
                            (Seq::empty(), ValueV::Null)
                        },
                ),
            ),
        }
    }
}

impl View for Value {
    type V = ValueV;

    open spec fn view(&self) -> ValueV {
        self.model()
    }
}

impl Value {
    /// A deep copy whose model equals this value's model.
    pub fn duplicate(&self) -> (r: Value)
        ensures
            r@ == self@,
        decreases self,
    {
        match self {
            Value::Null => Value::Null,
            Value::Bool(b) => Value::Bool(*b),
            Value::Int(i) => Value::Int(*i),
            Value::Float(bits) => Value::Float(*bits),
            Value::Str(s) => Value::Str(s.clone()),
            Value::Array(vs) => {
                let mut out: Vec<Value> = Vec::new();
                let mut k: usize = 0;
                while k < vs.len()
                    invariant
                        decreases_to!(*self => *vs),
                        k <= vs@.len(),
                        out@.len() == k as int,
                        forall|j: int| 0 <= j < k as int ==> out@[j]@ == vs@[j]@,
                    decreases vs@.len() - k,
                {
                    proof {
                        vstd::std_specs::vec::axiom_vec_index_decreases(*vs, k as int);
                    }
                    let e = vs[k].duplicate();
                    out.push(e);
                    k = k + 1;
                }
                proof {
                    assert(Value::Array(out)@->Array_0 =~= self@->Array_0);
                }
                Value::Array(out)
            },
            Value::Object(ps) => {
                let mut out: Vec<(String, Value)> = Vec::new();
                let mut k: usize = 0;
                while k < ps.len()
                    invariant
                        decreases_to!(*self => *ps),
                        k <= ps@.len(),
                        out@.len() == k as int,
                        forall|j: int|
                            0 <= j < k as int ==> out@[j].0@ == ps@[j].0@ && out@[j].1@
                                == ps@[j].1@,
                    decreases ps@.len() - k,
                {
                    proof {
                        vstd::std_specs::vec::axiom_vec_index_decreases(*ps, k as int);
                        assert(decreases_to!(ps@[k as int] => ps@[k as int].1));
                    }
                    let key = ps[k].0.clone();
                    let val = ps[k].1.duplicate();
                    out.push((key, val));
                    k = k + 1;
                }
                proof {
                    assert(Value::Object(out)@->Object_0 =~= self@->Object_0);
                }
                Value::Object(out)
            },
        }
    }
}

} // verus!

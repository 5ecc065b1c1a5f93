//! The two value models that the codec converts between: JSON trees as
//! clients send them, and the database's tagged values.
//!
//! Floating-point numbers are carried as their IEEE 754 binary64 bit
//! patterns, so that both models stay comparable bit for bit.

use vstd::prelude::*;

verus! {

/// Mathematical model of a JSON tree.
pub enum JsonTree {
    Null,
    Bool(bool),
    Int(i64),
    /// A binary64 number, by its bit pattern.
    Float(u64),
    Text(Seq<char>),
    Array(Seq<JsonTree>),
    /// Fields in the order in which they are held.
    Object(Seq<(Seq<char>, JsonTree)>),
}

/// The database kinds that JSON has no counterpart for.
#[derive(Clone, Copy, Debug, PartialEq, Eq, Structural)]
pub enum OpaqueKind {
    Duration,
    Datetime,
    Uuid,
    Geometry,
    Bytes,
    Table,
    RecordId,
    File,
    Range,
    Regex,
    SetOfValues,
    Other,
}

/// Mathematical model of a database value.
pub enum ValueTree {
    /// The absence of a value.
    Nothing,
    Null,
    Bool(bool),
    Int(i64),
    /// A binary64 number, by its bit pattern.
    Float(u64),
    /// A decimal number, by its full text.
    Decimal(Seq<char>),
    Text(Seq<char>),
    Array(Seq<ValueTree>),
    /// Fields in the order in which they are held.
    Object(Seq<(Seq<char>, ValueTree)>),
    /// A value of a kind that JSON lacks, by its canonical query text.
    Opaque(OpaqueKind, Seq<char>),
}

/// A JSON value.
#[derive(Debug, PartialEq, Eq)]
pub enum Json {
    Null,
    Bool(bool),
    Int(i64),
    /// A binary64 number, by its bit pattern.
    Float(u64),
    String(String),
    Array(Vec<Json>),
    Object(Vec<(String, Json)>),
}

/// A number of the database.
#[derive(Debug, PartialEq, Eq)]
pub enum Number {
    Int(i64),
    /// A binary64 number, by its bit pattern.
    Float(u64),
    /// An arbitrary-precision decimal, by its full text.
    Decimal(String),
}

/// A value of the database.
#[derive(Debug, PartialEq, Eq)]
pub enum Value {
    /// The absence of a value.
    Nothing,
    Null,
    Bool(bool),
    Number(Number),
    String(String),
    Array(Vec<Value>),
    Object(Vec<(String, Value)>),
    /// A record identifier, table, geometry, duration or other kind without
    /// a JSON counterpart, held as its canonical query text.
    Opaque(OpaqueKind, String),
}

/// Whether the bit pattern `bits` is a finite binary64 number (neither an
/// infinity nor a NaN): its eleven exponent bits are not all set.
pub open spec fn is_finite_bits(bits: u64) -> bool {
    (bits >> 52) & 0x7ff != 0x7ff
}

/// Tells whether `bits` is a finite binary64 number.
pub fn finite_bits(bits: u64) -> (b: bool)
    ensures
        b == is_finite_bits(bits),
{
    (bits >> 52) & 0x7ff != 0x7ff
}

/// The tree that `j` stands for.
pub open spec fn json_tree(j: Json) -> JsonTree
    decreases j,
{
    match j {
        Json::Null => JsonTree::Null,
        Json::Bool(b) => JsonTree::Bool(b),
        Json::Int(i) => JsonTree::Int(i),
        Json::Float(f) => JsonTree::Float(f),
        Json::String(s) => JsonTree::Text(s@),
        Json::Array(items) => JsonTree::Array(
            Seq::new(
                items.len() as nat,
                |i: int|
                    if 0 <= i < items.len() {
                        json_tree(items[i])
                    } else {
                        JsonTree::Null
                    },
            ),
        ),
        Json::Object(fields) => JsonTree::Object(
            Seq::new(
                fields.len() as nat,
                |i: int|
                    if 0 <= i < fields.len() {
                        (fields[i].0@, json_tree(fields[i].1))
                    } else {
                        (Seq::empty(), JsonTree::Null)
                    },
            ),
        ),
    }
}

impl View for Json {
    type V = JsonTree;

    open spec fn view(&self) -> JsonTree {
        json_tree(*self)
    }
}

impl View for Number {
    type V = ValueTree;

    open spec fn view(&self) -> ValueTree {
        match self {
            Number::Int(i) => ValueTree::Int(*i),
            Number::Float(f) => ValueTree::Float(*f),
            Number::Decimal(d) => ValueTree::Decimal(d@),
        }
    }
}

/// The tree that `v` stands for.
pub open spec fn value_tree(v: Value) -> ValueTree
    decreases v,
{
    match v {
        Value::Nothing => ValueTree::Nothing,
        Value::Null => ValueTree::Null,
        Value::Bool(b) => ValueTree::Bool(b),
        Value::Number(n) => n@,
        Value::String(s) => ValueTree::Text(s@),
        Value::Array(items) => ValueTree::Array(
            Seq::new(
                items.len() as nat,
                |i: int|
                    if 0 <= i < items.len() {
                        value_tree(items[i])
                    } else {
                        ValueTree::Nothing
                    },
            ),
        ),
        Value::Object(fields) => ValueTree::Object(
            Seq::new(
                fields.len() as nat,
                |i: int|
                    if 0 <= i < fields.len() {
                        (fields[i].0@, value_tree(fields[i].1))
                    } else {
                        (Seq::empty(), ValueTree::Nothing)
                    },
            ),
        ),
        Value::Opaque(kind, text) => ValueTree::Opaque(kind, text@),
    }
}

impl View for Value {
    type V = ValueTree;

    open spec fn view(&self) -> ValueTree {
        value_tree(*self)
    }
}

impl JsonTree {
    /// A JSON tree is well formed when every number in it is finite and no
    /// object holds a key twice.
    pub open spec fn wf(self) -> bool
        decreases self,
    {
        match self {
            JsonTree::Float(f) => is_finite_bits(f),
            JsonTree::Array(items) => forall|i: int|
                0 <= i < items.len() ==> (#[trigger] items[i]).wf(),
            JsonTree::Object(fields) => (forall|i: int|
                0 <= i < fields.len() ==> (#[trigger] fields[i]).1.wf()) && (forall|i: int, j: int|
                0 <= i < j < fields.len() ==> (#[trigger] fields[i]).0 != (#[trigger] fields[j]).0),
            _ => true,
        }
    }
}

impl ValueTree {
    /// A database value is well formed when no object in it holds a key
    /// twice.
    pub open spec fn wf(self) -> bool
        decreases self,
    {
        match self {
            ValueTree::Array(items) => forall|i: int|
                0 <= i < items.len() ==> (#[trigger] items[i]).wf(),
            ValueTree::Object(fields) => (forall|i: int|
                0 <= i < fields.len() ==> (#[trigger] fields[i]).1.wf()) && (forall|i: int, j: int|
                0 <= i < j < fields.len() ==> (#[trigger] fields[i]).0 != (#[trigger] fields[j]).0),
            _ => true,
        }
    }
}

/// The JSON tree of a number that reads as the integer `integer`, where it
/// is one in 64 bits, and as the binary64 number `float`, where it is one.
pub open spec fn number_tree(integer: Option<i64>, float: Option<u64>) -> JsonTree {
    match integer {
        Some(i) => JsonTree::Int(i),
        None => match float {
            Some(bits) => JsonTree::Float(bits),
            None => JsonTree::Null,
        },
    }
}

/// Files a number under the variant it belongs to: an integer where it
/// reads as one, else a floating-point number where it reads as one, else
/// `null`.
pub fn json_number(integer: Option<i64>, float: Option<u64>) -> (r: Json)
    ensures
        r@ == number_tree(integer, float),
{
    match integer {
        Some(i) => Json::Int(i),
        None => match float {
            Some(bits) => Json::Float(bits),
            None => Json::Null,
        },
    }
}

impl Clone for Json {
    /// A copy that stands for the same tree.
    fn clone(&self) -> (r: Json)
        ensures
            r@ == self@,
        decreases self,
    {
        match self {
            Json::Null => Json::Null,
            Json::Bool(b) => Json::Bool(*b),
            Json::Int(i) => Json::Int(*i),
            Json::Float(f) => Json::Float(*f),
            Json::String(s) => Json::String(s.clone()),
            Json::Array(items) => {
                let mut copies: Vec<Json> = Vec::with_capacity(items.len());
                let mut i: usize = 0;
                while i < items.len()
                    invariant
                        i <= items.len(),
                        copies.len() == i,
                        *self == Json::Array(*items),
                        forall|k: int| 0 <= k < i ==> (#[trigger] copies[k])@ == items[k]@,
                    decreases items.len() - i,
                {
                    proof {
                        vstd::std_specs::vec::axiom_vec_index_decreases(*items, i as int);
                        assert(self->Array_0 == *items);
                    }
                    let copy = items[i].clone();
                    copies.push(copy);
                    i += 1;
                }
                let out = Json::Array(copies);
                proof {
                    assert(out@->Array_0 =~= self@->Array_0);
                }
                out
            },
            Json::Object(fields) => {
                let mut copies: Vec<(String, Json)> = Vec::with_capacity(fields.len());
                let mut i: usize = 0;
                while i < fields.len()
                    invariant
                        i <= fields.len(),
                        copies.len() == i,
                        *self == Json::Object(*fields),
                        forall|k: int|
                            0 <= k < i ==> (#[trigger] copies[k]).0@ == fields[k].0@ && copies[k].1@
                                == fields[k].1@,
                    decreases fields.len() - i,
                {
                    proof {
                        vstd::std_specs::vec::axiom_vec_index_decreases(*fields, i as int);
                        assert(self->Object_0 == *fields);
                    }
                    let copy = fields[i].1.clone();
                    copies.push((fields[i].0.clone(), copy));
                    i += 1;
                }
                let out = Json::Object(copies);
                proof {
                    assert(out@->Object_0 =~= self@->Object_0);
                }
                out
            },
        }
    }
}

impl Clone for Value {
    /// A copy that stands for the same tree.
    fn clone(&self) -> (r: Value)
        ensures
            r@ == self@,
        decreases self,
    {
        match self {
            Value::Nothing => Value::Nothing,
            Value::Null => Value::Null,
            Value::Bool(b) => Value::Bool(*b),
            Value::Number(n) => Value::Number(
                match n {
                    Number::Int(i) => Number::Int(*i),
                    Number::Float(f) => Number::Float(*f),
                    Number::Decimal(d) => Number::Decimal(d.clone()),
                },
            ),
            Value::String(s) => Value::String(s.clone()),
            Value::Opaque(kind, text) => Value::Opaque(*kind, text.clone()),
            Value::Array(items) => {
                let mut copies: Vec<Value> = Vec::with_capacity(items.len());
                let mut i: usize = 0;
                while i < items.len()
                    invariant
                        i <= items.len(),
                        copies.len() == i,
                        *self == Value::Array(*items),
                        forall|k: int| 0 <= k < i ==> (#[trigger] copies[k])@ == items[k]@,
                    decreases items.len() - i,
                {
                    proof {
                        vstd::std_specs::vec::axiom_vec_index_decreases(*items, i as int);
                        assert(self->Array_0 == *items);
                    }
                    let copy = items[i].clone();
                    copies.push(copy);
                    i += 1;
                }
                let out = Value::Array(copies);
                proof {
                    assert(out@->Array_0 =~= self@->Array_0);
                }
                out
            },
            Value::Object(fields) => {
                let mut copies: Vec<(String, Value)> = Vec::with_capacity(fields.len());
                let mut i: usize = 0;
                while i < fields.len()
                    invariant
                        i <= fields.len(),
                        copies.len() == i,
                        *self == Value::Object(*fields),
                        forall|k: int|
                            0 <= k < i ==> (#[trigger] copies[k]).0@ == fields[k].0@ && copies[k].1@
                                == fields[k].1@,
                    decreases fields.len() - i,
                {
                    proof {
                        vstd::std_specs::vec::axiom_vec_index_decreases(*fields, i as int);
                        assert(self->Object_0 == *fields);
                    }
                    let copy = fields[i].1.clone();
                    copies.push((fields[i].0.clone(), copy));
                    i += 1;
                }
                let out = Value::Object(copies);
                proof {
                    assert(out@->Object_0 =~= self@->Object_0);
                }
                out
            },
        }
    }
}

} // verus!

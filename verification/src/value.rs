//! Tagged values and the IEEE 754 predicates the machine needs.

use vstd::prelude::*;
use vstd::string::*;
use crate::object::ObjArray;
use crate::object::ObjView;
use crate::object::obj_text;
use crate::object::obj_fmt;

verus! {

/// The sign bit of a double's encoding.
pub const SIGN_BIT: u64 = 0x8000_0000_0000_0000;

/// Every bit of a double's encoding but the sign.
pub const MAGNITUDE_MASK: u64 = 0x7fff_ffff_ffff_ffff;

/// The encoding of positive infinity: exponent all ones, fraction zero.
pub const INFINITY_BITS: u64 = 0x7ff0_0000_0000_0000;

/// A double is NaN when its magnitude lies above that of infinity.
pub open spec fn is_nan_bits(bits: u64) -> bool {
    (bits & MAGNITUDE_MASK) > INFINITY_BITS
}

/// Where a double that is not NaN stands on the number line: its magnitude,
/// negated when the sign bit is set. The two zeros share the key 0.
pub open spec fn order_key(bits: u64) -> int {
    if (bits & SIGN_BIT) != 0 {
        -((bits & MAGNITUDE_MASK) as int)
    } else {
        (bits & MAGNITUDE_MASK) as int
    }
}

/// `a == b` on doubles: false when either is NaN, true for the two zeros.
pub open spec fn numbers_equal(a: u64, b: u64) -> bool {
    !is_nan_bits(a) && !is_nan_bits(b) && order_key(a) == order_key(b)
}

/// `a < b` on doubles: false when either is NaN.
pub open spec fn number_less(a: u64, b: u64) -> bool {
    !is_nan_bits(a) && !is_nan_bits(b) && order_key(a) < order_key(b)
}

/// `-a` on doubles flips the sign bit, of NaN too.
pub open spec fn negated_bits(bits: u64) -> u64 {
    bits ^ SIGN_BIT
}

/// Whether the double is NaN.
pub fn is_nan(bits: u64) -> (r: bool)
    ensures
        r == is_nan_bits(bits),
{
    (bits & MAGNITUDE_MASK) > INFINITY_BITS
}

/// `a == b` on doubles.
pub fn number_eq(a: u64, b: u64) -> (r: bool)
    ensures
        r == numbers_equal(a, b),
{
    if is_nan(a) || is_nan(b) {
        return false;
    }
    let am: u64 = a & MAGNITUDE_MASK;
    let bm: u64 = b & MAGNITUDE_MASK;
    let an: bool = (a & SIGN_BIT) != 0;
    let bn: bool = (b & SIGN_BIT) != 0;
    if an == bn {
        am == bm
    } else {
        am == 0 && bm == 0
    }
}

/// `a < b` on doubles.
pub fn number_lt(a: u64, b: u64) -> (r: bool)
    ensures
        r == number_less(a, b),
{
    if is_nan(a) || is_nan(b) {
        return false;
    }
    let am: u64 = a & MAGNITUDE_MASK;
    let bm: u64 = b & MAGNITUDE_MASK;
    let an: bool = (a & SIGN_BIT) != 0;
    let bn: bool = (b & SIGN_BIT) != 0;
    if an {
        if bn {
            bm < am
        } else {
            !(am == 0 && bm == 0)
        }
    } else {
        if bn {
            false
        } else {
            am < bm
        }
    }
}

/// `-a` on doubles.
pub fn number_neg(bits: u64) -> (r: u64)
    ensures
        r == negated_bits(bits),
{
    bits ^ SIGN_BIT
}

/// The kinds of value.
#[derive(Debug, Clone, Copy, PartialEq, Eq, Structural)]
pub enum ValueType {
    Bool,
    Nil,
    Number,
    Obj,
}

/// A Lox value. `Number` holds a double's encoding, `Obj` the index of a
/// heap object in the `ObjArray` that owns it. The derived `==` compares
/// encodings; `equals` is equality as Lox has it.
#[derive(Debug, Clone, Copy, PartialEq, Eq, Structural)]
pub enum Value {
    Nil,
    Bool(bool),
    Number(u64),
    Obj(usize),
}

/// Only `nil` and `false` are falsey.
pub open spec fn falsey(v: Value) -> bool {
    v is Nil || v == Value::Bool(false)
}

/// Lox `==`: false across kinds; doubles by IEEE equality; objects by
/// identity, which interning makes equality of contents for strings.
pub open spec fn values_equal(a: Value, b: Value) -> bool {
    match (a, b) {
        (Value::Nil, Value::Nil) => true,
        (Value::Bool(x), Value::Bool(y)) => x == y,
        (Value::Number(x), Value::Number(y)) => numbers_equal(x, y),
        (Value::Obj(x), Value::Obj(y)) => x == y,
        _ => false,
    }
}

/// Whether `v` names a string object of `heap`.
pub open spec fn names_string(v: Value, heap: Seq<ObjView>) -> bool {
    match v {
        Value::Obj(i) => i < heap.len() && heap[i as int] is String,
        _ => false,
    }
}

/// What `print` writes for a value that is not a number.
pub open spec fn value_text(v: Value, heap: Seq<ObjView>) -> Seq<u8> {
    match v {
        Value::Nil => "nil".spec_bytes(),
        Value::Bool(true) => "true".spec_bytes(),
        Value::Bool(false) => "false".spec_bytes(),
        Value::Number(_) => Seq::<u8>::empty(),
        Value::Obj(i) => obj_text(heap, i as int),
    }
}

impl Value {
    pub fn number(bits: u64) -> (r: Value)
        ensures
            r == Value::Number(bits),
    {
        Value::Number(bits)
    }

    pub fn bool(value: bool) -> (r: Value)
        ensures
            r == Value::Bool(value),
    {
        Value::Bool(value)
    }

    pub fn nil() -> (r: Value)
        ensures
            r == Value::Nil,
    {
        Value::Nil
    }

    pub fn object(index: usize) -> (r: Value)
        ensures
            r == Value::Obj(index),
    {
        Value::Obj(index)
    }

    /// The kind that the value is of.
    pub open spec fn kind(self) -> ValueType {
        match self {
            Value::Nil => ValueType::Nil,
            Value::Bool(_) => ValueType::Bool,
            Value::Number(_) => ValueType::Number,
            Value::Obj(_) => ValueType::Obj,
        }
    }

    /// The kind that the value is of.
    pub fn value_type(&self) -> (r: ValueType)
        ensures
            r == self.kind(),
    {
        match self {
            Value::Nil => ValueType::Nil,
            Value::Bool(_) => ValueType::Bool,
            Value::Number(_) => ValueType::Number,
            Value::Obj(_) => ValueType::Obj,
        }
    }

    /// The text that printing this value writes, or `None` for a number,
    /// whose decimal form the embedding program produces.
    pub fn print(&self, heap: &ObjArray) -> (r: Option<Vec<u8>>)
        requires
            heap.wf(),
            *self matches Value::Obj(i) ==> i < heap@.len(),
        ensures
            r is None <==> *self is Number,
            r matches Some(text) ==> text@ == value_text(*self, heap@),
    {
        match self {
            Value::Nil => Some("nil".as_bytes_vec()),
            Value::Bool(b) => {
                if *b {
                    Some("true".as_bytes_vec())
                } else {
                    Some("false".as_bytes_vec())
                }
            },
            Value::Number(_) => None,
            Value::Obj(i) => Some(obj_fmt(heap, *i)),
        }
    }

    /// Whether the value counts as false in a condition.
    pub fn is_falsey(&self) -> (r: bool)
        ensures
            r == falsey(*self),
    {
        match self {
            Value::Nil => true,
            Value::Bool(b) => !*b,
            _ => false,
        }
    }

    /// Lox `==`.
    pub fn equals(&self, other: Value) -> (r: bool)
        ensures
            r == values_equal(*self, other),
    {
        match (*self, other) {
            (Value::Nil, Value::Nil) => true,
            (Value::Bool(x), Value::Bool(y)) => x == y,
            (Value::Number(x), Value::Number(y)) => number_eq(x, y),
            (Value::Obj(x), Value::Obj(y)) => x == y,
            _ => false,
        }
    }

    pub fn is_bool(&self) -> (r: bool)
        ensures
            r == (*self is Bool),
    {
        matches!(self, Value::Bool(_))
    }

    pub fn is_nil(&self) -> (r: bool)
        ensures
            r == (*self is Nil),
    {
        matches!(self, Value::Nil)
    }

    pub fn is_number(&self) -> (r: bool)
        ensures
            r == (*self is Number),
    {
        matches!(self, Value::Number(_))
    }

    pub fn is_object(&self) -> (r: bool)
        ensures
            r == (*self is Obj),
    {
        matches!(self, Value::Obj(_))
    }

    pub fn is_string(&self, heap: &ObjArray) -> (r: bool)
        ensures
            r == names_string(*self, heap@),
    {
        match self {
            Value::Obj(i) => heap.is_string(*i),
            _ => false,
        }
    }

    /// The boolean that this value holds.
    pub fn as_bool(&self) -> (r: bool)
        requires
            *self is Bool,
        ensures
            *self == Value::Bool(r),
    {
        match self {
            Value::Bool(b) => *b,
            _ => false,
        }
    }

    /// The encoding of the double that this value holds.
    pub fn as_number(&self) -> (r: u64)
        requires
            *self is Number,
        ensures
            *self == Value::Number(r),
    {
        match self {
            Value::Number(n) => *n,
            _ => 0,
        }
    }

    /// The index of the object that this value names.
    pub fn as_object(&self) -> (r: usize)
        requires
            *self is Obj,
        ensures
            *self == Value::Obj(r),
    {
        match self {
            Value::Obj(i) => *i,
            _ => 0,
        }
    }

    /// The index of the string object that this value names.
    pub fn as_string(&self, heap: &ObjArray) -> (r: usize)
        requires
            names_string(*self, heap@),
        ensures
            *self == Value::Obj(r),
            r < heap@.len(),
            heap@[r as int] is String,
    {
        match self {
            Value::Obj(i) => *i,
            _ => 0,
        }
    }

    /// The contents of the string object that this value names.
    pub fn as_str(&self, heap: &ObjArray) -> (r: Vec<u8>)
        requires
            names_string(*self, heap@),
        ensures
            *self matches Value::Obj(i) && heap@[i as int] == ObjView::String(r@),
    {
        match self {
            Value::Obj(i) => heap.string_bytes(*i),
            _ => Vec::new(),
        }
    }
}

/// A growing list of values: the constant pool of a chunk.
pub struct ValueArray {
    pub values: Vec<Value>,
}

impl View for ValueArray {
    type V = Seq<Value>;

    open spec fn view(&self) -> Seq<Value> {
        self.values@
    }
}

impl Default for ValueArray {
    fn default() -> (r: ValueArray)
        ensures
            r@ == Seq::<Value>::empty(),
    {
        ValueArray { values: Vec::new() }
    }
}

impl ValueArray {
    /// Appends a value.
    pub fn write(&mut self, value: Value)
        ensures
            final(self)@ == old(self)@.push(value),
    {
        self.values.push(value);
    }
}

} // verus!

//! The tagged value representation.
use vstd::prelude::*;
use crate::key::Symbol;

verus! {

/// A handle to an object in the heap arena.
#[derive(Clone, Copy, Debug, PartialEq, Eq, Structural)]
pub struct ObjRef(pub usize);

/// A value of the language. Numbers are IEEE-754 binary64 values held as
/// their bit pattern. Tuples are immutable records in the heap arena.
/// `Empty`, `WrappedContinuation` (a continuation id, and the promise that
/// an async body settles) and `Iterator` (an iterator object and its `next`
/// method) are internal to the engine. `==` compares representations (number
/// bits, handles); the language's equality is `Value::eq`.
#[derive(Debug, PartialEq)]
pub enum Value {
    Null,
    True,
    False,
    String(String),
    Number(u64),
    Symbol(Symbol),
    Object(ObjRef),
    Tuple(ObjRef),
    Empty,
    WrappedContinuation(usize, Option<ObjRef>),
    Iterator(ObjRef, ObjRef),
}

pub const SIGN_MASK: u64 = 0x8000_0000_0000_0000;
pub const EXPONENT_MASK: u64 = 0x7ff0_0000_0000_0000;
pub const FRACTION_MASK: u64 = 0x000f_ffff_ffff_ffff;

/// A NaN: all exponent bits set and a fraction that is not zero.
pub open spec fn is_nan(b: u64) -> bool {
    b & EXPONENT_MASK == EXPONENT_MASK && b & FRACTION_MASK != 0
}

/// Positive or negative zero.
pub open spec fn is_zero(b: u64) -> bool {
    b & !SIGN_MASK == 0
}

/// IEEE-754 equality: NaN equals nothing, the two zeros are equal, and
/// otherwise equal values have equal bits.
pub open spec fn number_eq(a: u64, b: u64) -> bool {
    if is_nan(a) || is_nan(b) {
        false
    } else if is_zero(a) && is_zero(b) {
        true
    } else {
        a == b
    }
}

pub fn number_equals(a: u64, b: u64) -> (r: bool)
    ensures
        r == number_eq(a, b),
{
    if (a & EXPONENT_MASK == EXPONENT_MASK && a & FRACTION_MASK != 0)
        || (b & EXPONENT_MASK == EXPONENT_MASK && b & FRACTION_MASK != 0) {
        false
    } else if a & !SIGN_MASK == 0 && b & !SIGN_MASK == 0 {
        true
    } else {
        a == b
    }
}

/// Equality of values that needs no heap: by content on primitives,
/// IEEE-754 equality on numbers, by identity on objects, continuations and
/// iterators. Tuples are compared item by item by `Value::eq`, which reads
/// their items from the heap; here two tuples are equal only when they are
/// the same record.
pub open spec fn value_eq(a: Value, b: Value) -> bool {
    match (a, b) {
        (Value::Null, Value::Null) => true,
        (Value::True, Value::True) => true,
        (Value::False, Value::False) => true,
        (Value::String(x), Value::String(y)) => x@ == y@,
        (Value::Number(x), Value::Number(y)) => number_eq(x, y),
        (Value::Symbol(x), Value::Symbol(y)) => x.model() == y.model(),
        (Value::Object(x), Value::Object(y)) => x == y,
        (Value::Tuple(x), Value::Tuple(y)) => x == y,
        (Value::Empty, Value::Empty) => true,
        (Value::WrappedContinuation(x, p), Value::WrappedContinuation(y, q)) => x == y && p == q,
        (Value::Iterator(i, n), Value::Iterator(j, m)) => i == j && n == m,
        _ => false,
    }
}

impl Value {
    /// A copy of the value: primitives are copied, objects are shared.
    pub fn duplicate(&self) -> (r: Value)
        ensures
            r == *self,
    {
        match self {
            Value::Null => Value::Null,
            Value::True => Value::True,
            Value::False => Value::False,
            Value::String(s) => Value::String(s.clone()),
            Value::Number(n) => Value::Number(*n),
            Value::Symbol(s) => Value::Symbol(s.duplicate()),
            Value::Object(o) => Value::Object(*o),
            Value::Tuple(o) => Value::Tuple(*o),
            Value::Empty => Value::Empty,
            Value::WrappedContinuation(c, p) => Value::WrappedContinuation(*c, *p),
            Value::Iterator(a, b) => Value::Iterator(*a, *b),
        }
    }

    /// Equality as the language sees it; see `value_eq`.
    pub fn equals(&self, other: &Value) -> (r: bool)
        ensures
            r == value_eq(*self, *other),
    {
        match (self, other) {
            (Value::Null, Value::Null) => true,
            (Value::True, Value::True) => true,
            (Value::False, Value::False) => true,
            (Value::String(x), Value::String(y)) => x.eq(y),
            (Value::Number(x), Value::Number(y)) => number_equals(*x, *y),
            (Value::Symbol(x), Value::Symbol(y)) => x.eq(y),
            (Value::Object(x), Value::Object(y)) => x.0 == y.0,
            (Value::Tuple(x), Value::Tuple(y)) => x.0 == y.0,
            (Value::Empty, Value::Empty) => true,
            (Value::WrappedContinuation(c, p), Value::WrappedContinuation(d, q)) => {
                let same_promise = match (p, q) {
                    (Some(a), Some(b)) => a.0 == b.0,
                    (None, None) => true,
                    _ => false,
                };
                *c == *d && same_promise
            },
            (Value::Iterator(i, n), Value::Iterator(j, m)) => i.0 == j.0 && n.0 == m.0,
            _ => false,
        }
    }

    /// Whether the value is `Null`.
    pub fn is_null(&self) -> (r: bool)
        ensures
            r == (*self is Null),
    {
        match self {
            Value::Null => true,
            _ => false,
        }
    }

    pub open spec fn from_bool_spec(b: bool) -> Value {
        if b { Value::True } else { Value::False }
    }

    /// The boolean value for `b`.
    pub fn from_bool(b: bool) -> (r: Value)
        ensures
            r == Value::from_bool_spec(b),
    {
        if b { Value::True } else { Value::False }
    }

    /// A string value.
    pub fn from_str(s: &str) -> (r: Value)
        ensures
            r matches Value::String(t) && t@ == s@,
    {
        Value::String(s.to_owned())
    }
}

impl Clone for Value {
    fn clone(&self) -> (r: Value)
        ensures
            r == *self,
    {
        self.duplicate()
    }
}

/// Whether two handles name the same object.
pub fn ref_eq(thing: &ObjRef, other: &ObjRef) -> (r: bool)
    ensures
        r == (thing == other),
{
    thing.0 == other.0
}

} // verus!

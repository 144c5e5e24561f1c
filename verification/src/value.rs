//! The dynamic value model: the single datum that flows through registers,
//! the constant pool and the heap, with its equality, ordering and type-tag
//! semantics.
//!
//! A number carries its IEEE-754 binary64 bit pattern.  Objects and arrays
//! are handles into the engine's arena: equality of two aggregates is
//! equality of their arena slots, which is exactly reference identity.
use vstd::prelude::*;

use core::cmp::Ordering;

use crate::numbits::{is_nan_bits, nan_bits, num_eq, num_le, num_lt, number_eq, number_le, number_lt};

verus! {

/// The mathematical shape of a value: what a `Value` denotes in contracts.
pub enum ValueModel {
    Undefined,
    Null,
    Boolean(bool),
    /// The IEEE-754 binary64 bit pattern of the number.
    Number(u64),
    String(Seq<char>),
    /// The arena slot of the shared object.
    Object(int),
    /// The arena slot of the shared array.
    Array(int),
    /// The instruction index where the callable's body begins.
    Function(int),
}

/// A runtime value.  `Object` and `Array` hold arena slots handed out by the
/// engine; copying a value aliases the aggregate, never the contents.
///
/// Hashing mixes the variant tag in and then hashes the payload: a number by
/// its raw bit pattern, an aggregate by its identity, never its contents.
#[derive(Debug, Hash)]
pub enum Value {
    Undefined,
    Null,
    Boolean(bool),
    /// The IEEE-754 binary64 bit pattern of the number.
    Number(u64),
    String(String),
    /// The arena slot of the shared object.
    Object(usize),
    /// The arena slot of the shared array.
    Array(usize),
    /// The instruction index where the callable's body begins.
    Function(usize),
}

impl View for Value {
    type V = ValueModel;

    open spec fn view(&self) -> ValueModel {
        match self {
            Value::Undefined => ValueModel::Undefined,
            Value::Null => ValueModel::Null,
            Value::Boolean(b) => ValueModel::Boolean(*b),
            Value::Number(n) => ValueModel::Number(*n),
            Value::String(s) => ValueModel::String(s@),
            Value::Object(i) => ValueModel::Object(*i as int),
            Value::Array(i) => ValueModel::Array(*i as int),
            Value::Function(i) => ValueModel::Function(*i as int),
        }
    }
}

impl Clone for Value {
    /// Copies the value; an aggregate handle keeps aliasing its slot.
    fn clone(&self) -> (r: Self)
        ensures
            r@ == self@,
    {
        match self {
            Value::Undefined => Value::Undefined,
            Value::Null => Value::Null,
            Value::Boolean(b) => Value::Boolean(*b),
            Value::Number(n) => Value::Number(*n),
            Value::String(s) => Value::String(s.clone()),
            Value::Object(i) => Value::Object(*i),
            Value::Array(i) => Value::Array(*i),
            Value::Function(i) => Value::Function(*i),
        }
    }
}

impl PartialEq for Value {
    /// Value equality: numbers by IEEE-754 equality, aggregates by identity
    /// of their arena slot (see `value_eq`).
    fn eq(&self, other: &Self) -> (r: bool)
        ensures
            r == value_eq(self@, other@),
    {
        values_equal(self, other)
    }
}

impl Eq for Value {

}

impl vstd::std_specs::cmp::PartialEqSpecImpl for Value {
    open spec fn obeys_eq_spec() -> bool {
        true
    }

    open spec fn eq_spec(&self, other: &Value) -> bool {
        value_eq(self@, other@)
    }
}

/// Value equality: same variant and equal payload; numbers by IEEE-754
/// equality (so NaN equals nothing and the two zeros are equal); aggregates
/// by identity of their arena slot, never by contents.
pub open spec fn value_eq(a: ValueModel, b: ValueModel) -> bool {
    match (a, b) {
        (ValueModel::Undefined, ValueModel::Undefined) => true,
        (ValueModel::Null, ValueModel::Null) => true,
        (ValueModel::Boolean(x), ValueModel::Boolean(y)) => x == y,
        (ValueModel::Number(x), ValueModel::Number(y)) => num_eq(x, y),
        (ValueModel::String(x), ValueModel::String(y)) => x == y,
        (ValueModel::Object(x), ValueModel::Object(y)) => x == y,
        (ValueModel::Array(x), ValueModel::Array(y)) => x == y,
        (ValueModel::Function(x), ValueModel::Function(y)) => x == y,
        _ => false,
    }
}

/// The partial order of two values, as `partial_cmp` reports it: defined
/// only within the four ordered variant pairings, and within numbers only
/// when neither is a NaN.
pub open spec fn value_cmp(a: ValueModel, b: ValueModel) -> Option<Ordering> {
    match (a, b) {
        (ValueModel::Number(x), ValueModel::Number(y)) => if is_nan_bits(x) || is_nan_bits(y) {
            None
        } else if num_eq(x, y) {
            Some(Ordering::Equal)
        } else if num_lt(x, y) {
            Some(Ordering::Less)
        } else {
            Some(Ordering::Greater)
        },
        (ValueModel::String(x), ValueModel::String(y)) => if lex_lt(x, y) {
            Some(Ordering::Less)
        } else if x == y {
            Some(Ordering::Equal)
        } else {
            Some(Ordering::Greater)
        },
        (ValueModel::Boolean(x), ValueModel::Boolean(y)) => if !x && y {
            Some(Ordering::Less)
        } else if x == y {
            Some(Ordering::Equal)
        } else {
            Some(Ordering::Greater)
        },
        (ValueModel::Function(x), ValueModel::Function(y)) => if x < y {
            Some(Ordering::Less)
        } else if x == y {
            Some(Ordering::Equal)
        } else {
            Some(Ordering::Greater)
        },
        _ => None,
    }
}

impl PartialOrd for Value {
    /// The partial order of two values (see `value_cmp`): numeric order for
    /// numbers (undefined on NaN), lexicographic for strings, false below
    /// true for booleans, offset order for functions, and no order for any
    /// other pairing.
    fn partial_cmp(&self, other: &Self) -> (r: Option<Ordering>) {
        match (self, other) {
            (Value::Number(x), Value::Number(y)) => {
                if nan_bits(*x) || nan_bits(*y) {
                    None
                } else if number_eq(*x, *y) {
                    Some(Ordering::Equal)
                } else if number_lt(*x, *y) {
                    Some(Ordering::Less)
                } else {
                    Some(Ordering::Greater)
                }
            },
            (Value::String(x), Value::String(y)) => {
                if string_lt(x, y) {
                    Some(Ordering::Less)
                } else if *x == *y {
                    Some(Ordering::Equal)
                } else {
                    Some(Ordering::Greater)
                }
            },
            (Value::Boolean(x), Value::Boolean(y)) => {
                if !*x && *y {
                    Some(Ordering::Less)
                } else if *x == *y {
                    Some(Ordering::Equal)
                } else {
                    Some(Ordering::Greater)
                }
            },
            (Value::Function(x), Value::Function(y)) => {
                if *x < *y {
                    Some(Ordering::Less)
                } else if *x == *y {
                    Some(Ordering::Equal)
                } else {
                    Some(Ordering::Greater)
                }
            },
            _ => None,
        }
    }
}

impl vstd::std_specs::cmp::PartialOrdSpecImpl for Value {
    open spec fn obeys_partial_cmp_spec() -> bool {
        true
    }

    open spec fn partial_cmp_spec(&self, other: &Value) -> Option<Ordering> {
        value_cmp(self@, other@)
    }
}

/// Lexicographic order on character sequences, by Unicode scalar value.
pub open spec fn lex_lt(a: Seq<char>, b: Seq<char>) -> bool
    decreases a.len(),
{
    if b.len() == 0 {
        false
    } else if a.len() == 0 {
        true
    } else if (a[0] as u32) < (b[0] as u32) {
        true
    } else if (a[0] as u32) > (b[0] as u32) {
        false
    } else {
        lex_lt(a.skip(1), b.skip(1))
    }
}

/// The pairs of values that have an order at all: both numbers, both
/// strings, both booleans, or both functions.  Everything else — any
/// cross-variant pair, and any pair involving an aggregate, undefined or
/// null — is unordered.
pub open spec fn has_order(a: ValueModel, b: ValueModel) -> bool {
    match (a, b) {
        (ValueModel::Number(_), ValueModel::Number(_)) => true,
        (ValueModel::String(_), ValueModel::String(_)) => true,
        (ValueModel::Boolean(_), ValueModel::Boolean(_)) => true,
        (ValueModel::Function(_), ValueModel::Function(_)) => true,
        _ => false,
    }
}

/// Strict order on an ordered pair: numbers by IEEE-754 `<` (false on NaN),
/// strings lexicographically, booleans with false below true, functions by
/// their instruction index.
pub open spec fn value_lt(a: ValueModel, b: ValueModel) -> bool {
    match (a, b) {
        (ValueModel::Number(x), ValueModel::Number(y)) => num_lt(x, y),
        (ValueModel::String(x), ValueModel::String(y)) => lex_lt(x, y),
        (ValueModel::Boolean(x), ValueModel::Boolean(y)) => !x && y,
        (ValueModel::Function(x), ValueModel::Function(y)) => x < y,
        _ => false,
    }
}

/// Order-or-equality on an ordered pair; numbers follow IEEE-754 `<=`, so a
/// NaN is at or below nothing, not even itself.
pub open spec fn value_le(a: ValueModel, b: ValueModel) -> bool {
    match (a, b) {
        (ValueModel::Number(x), ValueModel::Number(y)) => num_le(x, y),
        (ValueModel::String(x), ValueModel::String(y)) => lex_lt(x, y) || x == y,
        (ValueModel::Boolean(x), ValueModel::Boolean(y)) => !x || y,
        (ValueModel::Function(x), ValueModel::Function(y)) => x <= y,
        _ => false,
    }
}

/// The reported partial order agrees with the order predicates: an order is
/// reported only within the four ordered pairings, `Less` holds exactly
/// where the strict order does, and `Less` or `Equal` exactly where the
/// non-strict order does.
pub proof fn lemma_cmp_coherent(a: ValueModel, b: ValueModel)
    ensures
        (value_cmp(a, b) is Some) ==> has_order(a, b),
        (value_cmp(a, b) == Some(Ordering::Less)) == value_lt(a, b),
        (value_cmp(a, b) == Some(Ordering::Less) || value_cmp(a, b) == Some(Ordering::Equal))
            == value_le(a, b),
{
}

/// The runtime type tag of a value, as the character sequence `TypeOf`
/// stores: null and the aggregates all read as "object".
pub open spec fn type_tag(v: ValueModel) -> Seq<char> {
    match v {
        ValueModel::Undefined => "undefined"@,
        ValueModel::Null => "object"@,
        ValueModel::Boolean(_) => "boolean"@,
        ValueModel::Number(_) => "number"@,
        ValueModel::String(_) => "string"@,
        ValueModel::Object(_) => "object"@,
        ValueModel::Array(_) => "object"@,
        ValueModel::Function(_) => "function"@,
    }
}

/// The simplified instance test: true exactly when the first value is an
/// aggregate and the second is callable.
pub open spec fn instance_of(a: ValueModel, b: ValueModel) -> bool {
    match (a, b) {
        (ValueModel::Object(_), ValueModel::Function(_)) => true,
        (ValueModel::Array(_), ValueModel::Function(_)) => true,
        _ => false,
    }
}

/// Runtime value equality, mirroring `value_eq`.
pub fn values_equal(a: &Value, b: &Value) -> (r: bool)
    ensures
        r == value_eq(a@, b@),
{
    match (a, b) {
        (Value::Undefined, Value::Undefined) => true,
        (Value::Null, Value::Null) => true,
        (Value::Boolean(x), Value::Boolean(y)) => *x == *y,
        (Value::Number(x), Value::Number(y)) => number_eq(*x, *y),
        (Value::String(x), Value::String(y)) => *x == *y,
        (Value::Object(x), Value::Object(y)) => *x == *y,
        (Value::Array(x), Value::Array(y)) => *x == *y,
        (Value::Function(x), Value::Function(y)) => *x == *y,
        _ => false,
    }
}

/// Lexicographic comparison of two strings, mirroring `lex_lt`.
pub fn string_lt(a: &String, b: &String) -> (r: bool)
    ensures
        r == lex_lt(a@, b@),
{
    let la = a.as_str().unicode_len();
    let lb = b.as_str().unicode_len();
    let mut i: usize = 0;
    loop
        invariant
            i <= la,
            i <= lb,
            la == a@.len(),
            lb == b@.len(),
            forall|j: int| 0 <= j < i ==> a@[j] == b@[j],
        decreases la - i,
    {
        if i >= lb {
            proof {
                lemma_lex_lt_at(a@, b@, i as int);
            }
            return false;
        }
        if i >= la {
            proof {
                lemma_lex_lt_at(a@, b@, i as int);
            }
            return true;
        }
        let ca = a.as_str().get_char(i) as u32;
        let cb = b.as_str().get_char(i) as u32;
        if ca != cb {
            proof {
                lemma_lex_lt_at(a@, b@, i as int);
            }
            return ca < cb;
        }
        proof {
            vstd::utf8::char_u32_cast(a@[i as int], ca);
            vstd::utf8::char_u32_cast(b@[i as int], cb);
        }
        i = i + 1;
    }
}

/// At the first position where two sequences differ (or one ends), the
/// lexicographic order is decided by that position.
proof fn lemma_lex_lt_at(a: Seq<char>, b: Seq<char>, i: int)
    requires
        0 <= i <= a.len(),
        0 <= i <= b.len(),
        forall|j: int| 0 <= j < i ==> a[j] == b[j],
        i == a.len() || i == b.len() || a[i] != b[i],
    ensures
        lex_lt(a, b) == if i == b.len() {
            false
        } else if i == a.len() {
            true
        } else {
            (a[i] as u32) < (b[i] as u32)
        },
    decreases i,
{
    if i == 0 {
        if a.len() != 0 && b.len() != 0 {
            vstd::utf8::char_is_scalar(a[0]);
            vstd::utf8::char_is_scalar(b[0]);
            if (a[0] as u32) == (b[0] as u32) {
                vstd::utf8::char_u32_cast(a[0], a[0] as u32);
                vstd::utf8::char_u32_cast(b[0], b[0] as u32);
                assert(a[0] == b[0]);
            }
        }
    } else {
        assert(a[0] == b[0]);
        assert((a[0] as u32) == (b[0] as u32));
        lemma_lex_lt_at(a.skip(1), b.skip(1), i - 1);
        assert(forall|j: int| 0 <= j < i - 1 ==> a.skip(1)[j] == b.skip(1)[j]);
    }
}

/// Runtime strict comparison of two ordered values, mirroring `value_lt`.
/// Call only after `has_order` is known to hold; on any other pair the
/// result is the unordered answer, false.
pub fn values_lt(a: &Value, b: &Value) -> (r: bool)
    ensures
        r == value_lt(a@, b@),
{
    match (a, b) {
        (Value::Number(x), Value::Number(y)) => number_lt(*x, *y),
        (Value::String(x), Value::String(y)) => string_lt(x, y),
        (Value::Boolean(x), Value::Boolean(y)) => !*x && *y,
        (Value::Function(x), Value::Function(y)) => *x < *y,
        _ => false,
    }
}

/// Runtime order-or-equality of two ordered values, mirroring `value_le`.
pub fn values_le(a: &Value, b: &Value) -> (r: bool)
    ensures
        r == value_le(a@, b@),
{
    match (a, b) {
        (Value::Number(x), Value::Number(y)) => number_le(*x, *y),
        (Value::String(x), Value::String(y)) => string_lt(x, y) || *x == *y,
        (Value::Boolean(x), Value::Boolean(y)) => !*x || *y,
        (Value::Function(x), Value::Function(y)) => *x <= *y,
        _ => false,
    }
}

/// Runtime test for the pairs `value_lt` and `value_le` are defined on.
pub fn values_have_order(a: &Value, b: &Value) -> (r: bool)
    ensures
        r == has_order(a@, b@),
{
    match (a, b) {
        (Value::Number(_), Value::Number(_)) => true,
        (Value::String(_), Value::String(_)) => true,
        (Value::Boolean(_), Value::Boolean(_)) => true,
        (Value::Function(_), Value::Function(_)) => true,
        _ => false,
    }
}

/// Runtime type tag, mirroring `type_tag`.
pub fn type_of(v: &Value) -> (r: String)
    ensures
        r@ == type_tag(v@),
{
    match v {
        Value::Undefined => String::from_str("undefined"),
        Value::Null => String::from_str("object"),
        Value::Boolean(_) => String::from_str("boolean"),
        Value::Number(_) => String::from_str("number"),
        Value::String(_) => String::from_str("string"),
        Value::Object(_) => String::from_str("object"),
        Value::Array(_) => String::from_str("object"),
        Value::Function(_) => String::from_str("function"),
    }
}

/// Runtime instance test, mirroring `instance_of`.
pub fn value_instance_of(a: &Value, b: &Value) -> (r: bool)
    ensures
        r == instance_of(a@, b@),
{
    match (a, b) {
        (Value::Object(_), Value::Function(_)) => true,
        (Value::Array(_), Value::Function(_)) => true,
        _ => false,
    }
}

} // verus!

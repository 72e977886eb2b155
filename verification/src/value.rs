//! Runtime values: the two booleans, null, text, and IEEE double numbers
//! (carried as bit patterns, see [`crate::number`]). Every operation is a
//! pure function of one or two values that yields a new value or fails with
//! a runtime error; only numeric coercion of non-numeric text can fail.

use vstd::prelude::*;
use vstd::string::StringExecFns;

use crate::error::{is_runtime_error, Error};
use crate::number::{
    add_bits, div_bits, eq_bits, format_bits, is_zero_bits, lt_bits, le_bits, mul_bits, num_add,
    num_div, num_eq, num_format, num_is_zero, num_le, num_lt, num_mul, num_parse, num_sub,
    parse_number, sub_bits, BITS_ONE, BITS_ZERO,
};

verus! {

/// A runtime value.
#[derive(Debug)]
pub enum Value {
    True,
    False,
    Null,
    Str(String),
    Number(u64),
}

/// The mathematical model of a value: text as its characters, a number as
/// its bit pattern.
pub enum SpecValue {
    True,
    False,
    Null,
    Str(Seq<char>),
    Number(u64),
}

impl View for Value {
    type V = SpecValue;

    open spec fn view(&self) -> SpecValue {
        match self {
            Value::True => SpecValue::True,
            Value::False => SpecValue::False,
            Value::Null => SpecValue::Null,
            Value::Str(s) => SpecValue::Str(s@),
            Value::Number(b) => SpecValue::Number(*b),
        }
    }
}

/// The value standing for a truth: `True` or `False`.
pub open spec fn bool_value(b: bool) -> SpecValue {
    if b {
        SpecValue::True
    } else {
        SpecValue::False
    }
}

/// Numeric coercion: `True` is one, `False` and `Null` are zero, a number is
/// itself, and text is read as a numeral; non-numeric text has no coercion.
pub open spec fn spec_as_number(v: SpecValue) -> Option<u64> {
    match v {
        SpecValue::True => Some(BITS_ONE),
        SpecValue::False => Some(BITS_ZERO),
        SpecValue::Null => Some(BITS_ZERO),
        SpecValue::Number(b) => Some(b),
        SpecValue::Str(s) => num_parse(s),
    }
}

/// Boolean coercion, a total function: `Null` is false, a number is false
/// exactly when it is a zero of either sign, text is false exactly when it
/// is empty.
pub open spec fn spec_truthy(v: SpecValue) -> bool {
    match v {
        SpecValue::True => true,
        SpecValue::False => false,
        SpecValue::Null => false,
        SpecValue::Number(b) => !num_is_zero(b),
        SpecValue::Str(s) => s.len() != 0,
    }
}

/// Text coercion, a total function: `Null` becomes the empty text, a number
/// its decimal rendering.
pub open spec fn spec_as_string(v: SpecValue) -> Seq<char> {
    match v {
        SpecValue::True => "true"@,
        SpecValue::False => "false"@,
        SpecValue::Null => ""@,
        SpecValue::Number(b) => num_format(b),
        SpecValue::Str(s) => s,
    }
}

/// The display form of a value, used by the `print` statement: as
/// [`spec_as_string`], except that `Null` is shown as the word `null`.
pub open spec fn spec_display_text(v: SpecValue) -> Seq<char> {
    match v {
        SpecValue::Null => "null"@,
        _ => spec_as_string(v),
    }
}

/// Subtraction: both operands coerced to numbers, then the IEEE difference.
pub open spec fn spec_subtract(l: SpecValue, r: SpecValue) -> Option<u64> {
    match (spec_as_number(l), spec_as_number(r)) {
        (Some(a), Some(b)) => Some(num_sub(a, b)),
        _ => None,
    }
}

/// Division: both operands coerced to numbers, then the IEEE quotient; a
/// zero divisor yields an infinity or NaN, never a failure.
pub open spec fn spec_division(l: SpecValue, r: SpecValue) -> Option<u64> {
    match (spec_as_number(l), spec_as_number(r)) {
        (Some(a), Some(b)) => Some(num_div(a, b)),
        _ => None,
    }
}

/// Multiplication: both operands coerced to numbers, then the IEEE product.
pub open spec fn spec_multiply(l: SpecValue, r: SpecValue) -> Option<u64> {
    match (spec_as_number(l), spec_as_number(r)) {
        (Some(a), Some(b)) => Some(num_mul(a, b)),
        _ => None,
    }
}

/// Addition is asymmetric: when the left operand is text, the right is
/// coerced to text and the two are concatenated; otherwise both operands are
/// coerced to numbers and the IEEE sum is taken.
pub open spec fn spec_add(l: SpecValue, r: SpecValue) -> Option<SpecValue> {
    match l {
        SpecValue::Str(s) => Some(SpecValue::Str(s + spec_as_string(r))),
        _ => match (spec_as_number(l), spec_as_number(r)) {
            (Some(a), Some(b)) => Some(SpecValue::Number(num_add(a, b))),
            _ => None,
        },
    }
}

/// Strict greater-than: both operands coerced to numbers, then IEEE order.
pub open spec fn spec_greater(l: SpecValue, r: SpecValue) -> Option<bool> {
    match (spec_as_number(l), spec_as_number(r)) {
        (Some(a), Some(b)) => Some(num_lt(b, a)),
        _ => None,
    }
}

/// Greater-or-equal: both operands coerced to numbers, then IEEE order.
pub open spec fn spec_greater_equal(l: SpecValue, r: SpecValue) -> Option<bool> {
    match (spec_as_number(l), spec_as_number(r)) {
        (Some(a), Some(b)) => Some(num_le(b, a)),
        _ => None,
    }
}

/// Strict less-than: both operands coerced to numbers, then IEEE order.
pub open spec fn spec_less(l: SpecValue, r: SpecValue) -> Option<bool> {
    match (spec_as_number(l), spec_as_number(r)) {
        (Some(a), Some(b)) => Some(num_lt(a, b)),
        _ => None,
    }
}

/// Less-or-equal: both operands coerced to numbers, then IEEE order.
pub open spec fn spec_less_equal(l: SpecValue, r: SpecValue) -> Option<bool> {
    match (spec_as_number(l), spec_as_number(r)) {
        (Some(a), Some(b)) => Some(num_le(a, b)),
        _ => None,
    }
}

/// Equality goes by the left operand: a boolean or null compares by variant,
/// a number coerces the right to a number and compares by IEEE equality, and
/// text coerces the right to text and compares the characters. Only the
/// numeric coercion can fail.
pub open spec fn spec_equal(l: SpecValue, r: SpecValue) -> Option<bool> {
    match l {
        SpecValue::True => Some(r is True),
        SpecValue::False => Some(r is False),
        SpecValue::Null => Some(r is Null),
        SpecValue::Number(a) => match spec_as_number(r) {
            Some(b) => Some(num_eq(a, b)),
            None => None,
        },
        SpecValue::Str(s) => Some(s == spec_as_string(r)),
    }
}

/// Inequality is the logical negation of [`spec_equal`].
pub open spec fn spec_not_equal(l: SpecValue, r: SpecValue) -> Option<bool> {
    match spec_equal(l, r) {
        Some(b) => Some(!b),
        None => None,
    }
}

/// The value standing for a truth.
pub fn value_of_bool(b: bool) -> (v: Value)
    ensures
        v@ == bool_value(b),
{
    if b {
        Value::True
    } else {
        Value::False
    }
}

/// The runtime error reported when text cannot be coerced to a number.
fn coercion_error() -> (e: Error)
    ensures
        is_runtime_error(e, "invalid number literal"@),
{
    Error::runtime(String::from_str("invalid number literal"))
}

impl Value {
    /// A copy of this value with the same model.
    pub fn duplicate(&self) -> (v: Value)
        ensures
            v@ == self@,
    {
        match self {
            Value::True => Value::True,
            Value::False => Value::False,
            Value::Null => Value::Null,
            Value::Str(s) => Value::Str(s.clone()),
            Value::Number(b) => Value::Number(*b),
        }
    }

    pub fn as_number(&self) -> (r: Result<Value, Error>)
        ensures
            r is Ok <==> spec_as_number(self@) is Some,
            r is Ok ==> r->Ok_0@ == SpecValue::Number(spec_as_number(self@)->Some_0),
            r is Err ==> is_runtime_error(r->Err_0, "invalid number literal"@),
    {
        match self {
            Value::True => Ok(Value::Number(BITS_ONE)),
            Value::False => Ok(Value::Number(BITS_ZERO)),
            Value::Null => Ok(Value::Number(BITS_ZERO)),
            Value::Number(b) => Ok(Value::Number(*b)),
            Value::Str(s) => match parse_number(s.as_str()) {
                Some(b) => Ok(Value::Number(b)),
                None => Err(coercion_error()),
            },
        }
    }

    pub fn as_boolean(&self) -> (r: Value)
        ensures
            r@ == bool_value(spec_truthy(self@)),
    {
        match self {
            Value::True => Value::True,
            Value::False => Value::False,
            Value::Null => Value::False,
            Value::Number(b) => value_of_bool(!is_zero_bits(*b)),
            Value::Str(s) => value_of_bool(!s.as_str().is_empty()),
        }
    }

    /// Boolean coercion as a plain truth value.
    pub fn truthy(&self) -> (r: bool)
        ensures
            r == spec_truthy(self@),
    {
        match self {
            Value::True => true,
            Value::False => false,
            Value::Null => false,
            Value::Number(b) => !is_zero_bits(*b),
            Value::Str(s) => !s.as_str().is_empty(),
        }
    }

    pub fn as_string(&self) -> (r: Value)
        ensures
            r@ == SpecValue::Str(spec_as_string(self@)),
    {
        match self {
            Value::True => Value::Str(String::from_str("true")),
            Value::False => Value::Str(String::from_str("false")),
            Value::Null => Value::Str(String::from_str("")),
            Value::Number(b) => Value::Str(format_bits(*b)),
            Value::Str(s) => Value::Str(s.clone()),
        }
    }

    /// The display form of the value, as the `print` statement shows it.
    pub fn to_text(&self) -> (r: String)
        ensures
            r@ == spec_display_text(self@),
    {
        match self {
            Value::True => String::from_str("true"),
            Value::False => String::from_str("false"),
            Value::Null => String::from_str("null"),
            Value::Number(b) => format_bits(*b),
            Value::Str(s) => s.clone(),
        }
    }

    pub fn is_null(&self) -> (r: bool)
        ensures
            r == (self@ is Null),
    {
        match self {
            Value::Null => true,
            _ => false,
        }
    }

    pub fn is_true(&self) -> (r: bool)
        ensures
            r == (self@ is True),
    {
        match self {
            Value::True => true,
            _ => false,
        }
    }

    pub fn is_false(&self) -> (r: bool)
        ensures
            r == (self@ is False),
    {
        match self {
            Value::False => true,
            _ => false,
        }
    }

    /// The two operands coerced to numbers as a pair of bit patterns.
    fn number_pair(&self, rhs: &Value) -> (r: Result<(u64, u64), Error>)
        ensures
            r is Ok <==> (spec_as_number(self@) is Some && spec_as_number(rhs@) is Some),
            r is Ok ==> r->Ok_0.0 == spec_as_number(self@)->Some_0 && r->Ok_0.1 == spec_as_number(
                rhs@,
            )->Some_0,
            r is Err ==> is_runtime_error(r->Err_0, "invalid number literal"@),
    {
        let a = match self.as_number() {
            Ok(v) => v,
            Err(e) => {
                return Err(e);
            },
        };
        let b = match rhs.as_number() {
            Ok(v) => v,
            Err(e) => {
                return Err(e);
            },
        };
        match (a, b) {
            (Value::Number(x), Value::Number(y)) => Ok((x, y)),
            _ => Err(coercion_error()),
        }
    }

    pub fn subtract(&self, rhs: &Value) -> (r: Result<Value, Error>)
        ensures
            r is Ok <==> spec_subtract(self@, rhs@) is Some,
            r is Ok ==> r->Ok_0@ == SpecValue::Number(spec_subtract(self@, rhs@)->Some_0),
            r is Err ==> is_runtime_error(r->Err_0, "invalid number literal"@),
    {
        match self.number_pair(rhs) {
            Ok((a, b)) => Ok(Value::Number(sub_bits(a, b))),
            Err(e) => Err(e),
        }
    }

    pub fn division(&self, rhs: &Value) -> (r: Result<Value, Error>)
        ensures
            r is Ok <==> spec_division(self@, rhs@) is Some,
            r is Ok ==> r->Ok_0@ == SpecValue::Number(spec_division(self@, rhs@)->Some_0),
            r is Err ==> is_runtime_error(r->Err_0, "invalid number literal"@),
    {
        match self.number_pair(rhs) {
            Ok((a, b)) => Ok(Value::Number(div_bits(a, b))),
            Err(e) => Err(e),
        }
    }

    pub fn mutiply(&self, rhs: &Value) -> (r: Result<Value, Error>)
        ensures
            r is Ok <==> spec_multiply(self@, rhs@) is Some,
            r is Ok ==> r->Ok_0@ == SpecValue::Number(spec_multiply(self@, rhs@)->Some_0),
            r is Err ==> is_runtime_error(r->Err_0, "invalid number literal"@),
    {
        match self.number_pair(rhs) {
            Ok((a, b)) => Ok(Value::Number(mul_bits(a, b))),
            Err(e) => Err(e),
        }
    }

    pub fn add(&self, rhs: &Value) -> (r: Result<Value, Error>)
        ensures
            r is Ok <==> spec_add(self@, rhs@) is Some,
            r is Ok ==> r->Ok_0@ == spec_add(self@, rhs@)->Some_0,
            r is Err ==> is_runtime_error(r->Err_0, "invalid number literal"@),
    {
        match self {
            Value::Str(s) => {
                let rhs_text = rhs.as_string();
                match rhs_text {
                    Value::Str(t) => Ok(Value::Str(s.clone().concat(t.as_str()))),
                    _ => Err(coercion_error()),
                }
            },
            _ => match self.number_pair(rhs) {
                Ok((a, b)) => Ok(Value::Number(add_bits(a, b))),
                Err(e) => Err(e),
            },
        }
    }

    pub fn greater(&self, rhs: &Value) -> (r: Result<Value, Error>)
        ensures
            r is Ok <==> spec_greater(self@, rhs@) is Some,
            r is Ok ==> r->Ok_0@ == bool_value(spec_greater(self@, rhs@)->Some_0),
            r is Err ==> is_runtime_error(r->Err_0, "invalid number literal"@),
    {
        match self.number_pair(rhs) {
            Ok((a, b)) => Ok(value_of_bool(lt_bits(b, a))),
            Err(e) => Err(e),
        }
    }

    pub fn greater_equal(&self, rhs: &Value) -> (r: Result<Value, Error>)
        ensures
            r is Ok <==> spec_greater_equal(self@, rhs@) is Some,
            r is Ok ==> r->Ok_0@ == bool_value(spec_greater_equal(self@, rhs@)->Some_0),
            r is Err ==> is_runtime_error(r->Err_0, "invalid number literal"@),
    {
        match self.number_pair(rhs) {
            Ok((a, b)) => Ok(value_of_bool(le_bits(b, a))),
            Err(e) => Err(e),
        }
    }

    pub fn less(&self, rhs: &Value) -> (r: Result<Value, Error>)
        ensures
            r is Ok <==> spec_less(self@, rhs@) is Some,
            r is Ok ==> r->Ok_0@ == bool_value(spec_less(self@, rhs@)->Some_0),
            r is Err ==> is_runtime_error(r->Err_0, "invalid number literal"@),
    {
        match self.number_pair(rhs) {
            Ok((a, b)) => Ok(value_of_bool(lt_bits(a, b))),
            Err(e) => Err(e),
        }
    }

    pub fn less_equal(&self, rhs: &Value) -> (r: Result<Value, Error>)
        ensures
            r is Ok <==> spec_less_equal(self@, rhs@) is Some,
            r is Ok ==> r->Ok_0@ == bool_value(spec_less_equal(self@, rhs@)->Some_0),
            r is Err ==> is_runtime_error(r->Err_0, "invalid number literal"@),
    {
        match self.number_pair(rhs) {
            Ok((a, b)) => Ok(value_of_bool(le_bits(a, b))),
            Err(e) => Err(e),
        }
    }

    pub fn equal(&self, rhs: &Value) -> (r: Result<Value, Error>)
        ensures
            r is Ok <==> spec_equal(self@, rhs@) is Some,
            r is Ok ==> r->Ok_0@ == bool_value(spec_equal(self@, rhs@)->Some_0),
            r is Err ==> is_runtime_error(r->Err_0, "invalid number literal"@),
    {
        match self {
            Value::True => Ok(value_of_bool(rhs.is_true())),
            Value::False => Ok(value_of_bool(rhs.is_false())),
            Value::Null => Ok(value_of_bool(rhs.is_null())),
            Value::Number(a) => match rhs.as_number() {
                Ok(Value::Number(b)) => Ok(value_of_bool(eq_bits(*a, b))),
                Ok(_) => Err(coercion_error()),
                Err(e) => Err(e),
            },
            Value::Str(s) => {
                let rhs_text = rhs.as_string();
                match rhs_text {
                    Value::Str(t) => Ok(value_of_bool(s.eq(&t))),
                    _ => Err(coercion_error()),
                }
            },
        }
    }

    /// The logical negation of [`Value::equal`].
    pub fn not_equal(&self, rhs: &Value) -> (r: Result<Value, Error>)
        ensures
            r is Ok <==> spec_not_equal(self@, rhs@) is Some,
            r is Ok ==> r->Ok_0@ == bool_value(spec_not_equal(self@, rhs@)->Some_0),
            r is Err ==> is_runtime_error(r->Err_0, "invalid number literal"@),
    {
        match self.equal(rhs) {
            Ok(v) => Ok(value_of_bool(v.is_false())),
            Err(e) => Err(e),
        }
    }
}

} // verus!


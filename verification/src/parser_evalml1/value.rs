//! The values of expressions without variables: integers, truth values,
//! and the error that an ill-typed expression evaluates to.

use vstd::prelude::*;
use vstd::string::*;
use crate::error::Error;
use crate::parser_evalml3::lexer::Operator;
use crate::util::{bool_text, bool_to_string, integer_text, integer_to_string};

verus! {

/// What an expression evaluates to.
#[derive(Debug, Clone, Copy, PartialEq, Eq, Structural)]
pub enum Value {
    Int(i32),
    Bool(bool),
    /// What an expression evaluates to when an operand is of the wrong
    /// type.
    Error,
}

/// What `operator` makes of two values. An operand that is no integer makes
/// the result the error value; a result outside the machine integers stops
/// the derivation.
pub open spec fn apply(operator: Operator, left: Value, right: Value) -> Result<Value, Error> {
    match (left, right) {
        (Value::Int(i1), Value::Int(i2)) => match operator {
            Operator::Empty => Err(Error::NoRule),
            Operator::Plus => if i32::MIN <= i1 + i2 <= i32::MAX {
                Ok(Value::Int((i1 + i2) as i32))
            } else {
                Err(Error::Overflow)
            },
            Operator::Minus => if i32::MIN <= i1 - i2 <= i32::MAX {
                Ok(Value::Int((i1 - i2) as i32))
            } else {
                Err(Error::Overflow)
            },
            Operator::Times => if i32::MIN <= i1 * i2 <= i32::MAX {
                Ok(Value::Int((i1 * i2) as i32))
            } else {
                Err(Error::Overflow)
            },
            Operator::Lt => Ok(Value::Bool(i1 < i2)),
        },
        _ => if operator == Operator::Empty {
            Err(Error::NoRule)
        } else {
            Ok(Value::Error)
        },
    }
}

/// The text of a value.
pub open spec fn value_text(value: Value) -> Seq<char> {
    match value {
        Value::Int(i) => integer_text(i as int),
        Value::Bool(b) => bool_text(b),
        Value::Error => "error"@,
    }
}

impl Value {
    /// What `operator` makes of this value and `other`.
    pub fn apply(self, operator: Operator, other: Value) -> (r: Result<Value, Error>)
        ensures
            r == apply(operator, self, other),
    {
        match operator {
            Operator::Empty => Err(Error::NoRule),
            Operator::Plus => self.plus(other),
            Operator::Minus => self.minus(other),
            Operator::Times => self.times(other),
            Operator::Lt => Ok(self.comp(&other)),
        }
    }

    /// The sum of two integers.
    pub fn plus(self, other: Value) -> (r: Result<Value, Error>)
        ensures
            r == apply(Operator::Plus, self, other),
    {
        match (self, other) {
            (Value::Int(i1), Value::Int(i2)) => match i1.checked_add(i2) {
                Some(i3) => Ok(Value::Int(i3)),
                None => Err(Error::Overflow),
            },
            _ => Ok(Value::Error),
        }
    }

    /// The difference of two integers.
    pub fn minus(self, other: Value) -> (r: Result<Value, Error>)
        ensures
            r == apply(Operator::Minus, self, other),
    {
        match (self, other) {
            (Value::Int(i1), Value::Int(i2)) => match i1.checked_sub(i2) {
                Some(i3) => Ok(Value::Int(i3)),
                None => Err(Error::Overflow),
            },
            _ => Ok(Value::Error),
        }
    }

    /// The product of two integers.
    pub fn times(self, other: Value) -> (r: Result<Value, Error>)
        ensures
            r == apply(Operator::Times, self, other),
    {
        match (self, other) {
            (Value::Int(i1), Value::Int(i2)) => match i1.checked_mul(i2) {
                Some(i3) => Ok(Value::Int(i3)),
                None => Err(Error::Overflow),
            },
            _ => Ok(Value::Error),
        }
    }

    /// Whether this integer is less than the other.
    pub fn comp(&self, other: &Value) -> (r: Value)
        ensures
            Ok::<Value, Error>(r) == apply(Operator::Lt, *self, *other),
    {
        match (self, other) {
            (Value::Int(i1), Value::Int(i2)) => Value::Bool(*i1 < *i2),
            _ => Value::Error,
        }
    }

    /// Writes the value.
    pub fn to_string(&self) -> (s: String)
        ensures
            s@ == value_text(*self),
    {
        match self {
            Value::Int(i) => integer_to_string(*i),
            Value::Bool(b) => bool_to_string(*b),
            Value::Error => String::from_str("error"),
        }
    }

    /// The integer that the value is.
    pub fn get_num(self) -> (i: i32)
        requires
            self is Int,
        ensures
            self == Value::Int(i),
    {
        match self {
            Value::Int(i) => i,
            _ => 0,
        }
    }
}

} // verus!

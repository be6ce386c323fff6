//! The values of the ML-like expressions: integers, truth values, and
//! closures: a function together with the environment in which it was
//! written.

use vstd::prelude::*;
use vstd::string::*;
use super::environment::{Environment, EnvironmentModel, bindings_text};
use super::expression::{ExpressionModel, expression_text};
use super::lexer::Operator;
use super::terms::FunTerm;
use crate::error::Error;
use crate::util::{bool_text, bool_to_string, integer_text, integer_to_string};

verus! {

/// What an expression evaluates to.
#[derive(Debug, PartialEq)]
pub enum Value {
    Num(i32),
    Bool(bool),
    /// A function and the environment that it captured.
    Fun(FunTerm, Environment),
}

/// What a `Value` stands for.
pub enum ValueModel {
    Num(int),
    Bool(bool),
    /// The parameter and the body of a function, and the environment that
    /// it captured.
    Fun(Seq<char>, ExpressionModel, EnvironmentModel),
}

impl View for Value {
    type V = ValueModel;

    open spec fn view(&self) -> ValueModel
        decreases self,
    {
        match self {
            Value::Num(i) => ValueModel::Num(*i as int),
            Value::Bool(b) => ValueModel::Bool(*b),
            Value::Fun(function, environment) => ValueModel::Fun(
                function.parameter@,
                function.function_body@,
                environment@,
            ),
        }
    }
}

/// What `operator` makes of two values. Only integers can be operands; a
/// result outside the machine integers stops the derivation.
pub open spec fn apply(operator: Operator, left: ValueModel, right: ValueModel) -> Result<
    ValueModel,
    Error,
> {
    match (left, right) {
        (ValueModel::Num(i1), ValueModel::Num(i2)) => match operator {
            Operator::Empty => Err(Error::NoRule),
            Operator::Plus => if i32::MIN <= i1 + i2 <= i32::MAX {
                Ok(ValueModel::Num(i1 + i2))
            } else {
                Err(Error::Overflow)
            },
            Operator::Minus => if i32::MIN <= i1 - i2 <= i32::MAX {
                Ok(ValueModel::Num(i1 - i2))
            } else {
                Err(Error::Overflow)
            },
            Operator::Times => if i32::MIN <= i1 * i2 <= i32::MAX {
                Ok(ValueModel::Num(i1 * i2))
            } else {
                Err(Error::Overflow)
            },
            Operator::Lt => Ok(ValueModel::Bool(i1 < i2)),
        },
        _ => Err(Error::NoRule),
    }
}

/// The text of a value. A closure is written as its environment in
/// parentheses and its function in brackets.
pub open spec fn value_text(value: ValueModel) -> Seq<char>
    decreases value,
{
    match value {
        ValueModel::Num(i) => integer_text(i),
        ValueModel::Bool(b) => bool_text(b),
        ValueModel::Fun(parameter, body, environment) => "("@ + bindings_text(
            environment,
            environment.len(),
        ) + ")[fun "@ + parameter + " -> "@ + expression_text(body, body.len()) + "]"@,
    }
}

impl Clone for Value {
    fn clone(&self) -> (r: Value)
        ensures
            r@ == self@,
        decreases self,
    {
        match self {
            Value::Num(i) => Value::Num(*i),
            Value::Bool(b) => Value::Bool(*b),
            Value::Fun(function, environment) => Value::Fun(
                FunTerm {
                    parameter: function.parameter.clone(),
                    function_body: function.function_body.clone(),
                },
                environment.clone(),
            ),
        }
    }
}

impl Value {
    /// What `operator` makes of the two integers.
    pub fn apply(operator: Operator, i1: i32, i2: i32) -> (r: Result<Value, Error>)
        ensures
            match apply(operator, ValueModel::Num(i1 as int), ValueModel::Num(i2 as int)) {
                Ok(value) => r is Ok && r->Ok_0@ == value,
                Err(e) => r == Err::<Value, Error>(e),
            },
    {
        match operator {
            Operator::Empty => Err(Error::NoRule),
            Operator::Plus => match i1.checked_add(i2) {
                Some(i3) => Ok(Value::Num(i3)),
                None => Err(Error::Overflow),
            },
            Operator::Minus => match i1.checked_sub(i2) {
                Some(i3) => Ok(Value::Num(i3)),
                None => Err(Error::Overflow),
            },
            Operator::Times => match i1.checked_mul(i2) {
                Some(i3) => Ok(Value::Num(i3)),
                None => Err(Error::Overflow),
            },
            Operator::Lt => Ok(Value::Bool(i1 < i2)),
        }
    }

    /// Writes the value.
    pub fn to_string(&self) -> (s: String)
        ensures
            s@ == value_text(self@),
        decreases self,
    {
        match self {
            Value::Num(i) => integer_to_string(*i),
            Value::Bool(b) => bool_to_string(*b),
            Value::Fun(function, environment) => {
                let mut s = String::from_str("(");
                s.append(environment.bindings_string().as_str());
                s.append(")[fun ");
                s.append(function.parameter.as_str());
                s.append(" -> ");
                s.append(function.function_body.to_string().as_str());
                s.append("]");
                s
            },
        }
    }

    /// The integer that the value is, if it is one.
    pub fn get_num(&self) -> (r: Option<i32>)
        ensures
            match self@ {
                ValueModel::Num(i) => r == Some(i as i32),
                _ => r is None,
            },
    {
        match self {
            Value::Num(i) => Some(*i),
            _ => None,
        }
    }
}

} // verus!

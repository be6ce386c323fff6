//! The rules of arithmetic: what an operator makes of two integers.
//!
//! ```text
//! B-Plus:   i1 plus i2 is i3
//! B-Minus:  i1 minus i2 is i3
//! B-Times:  i1 times i2 is i3
//! B-Lt:     i1 less than i2 is b
//! ```

use vstd::prelude::*;
use vstd::string::*;
use super::super::lexer::Operator;
use super::super::value::{Value, ValueModel, apply, value_text};
use super::writer::{no_strings, rule_string, rule_text};
use crate::util::{integer_text, integer_to_string};

verus! {

/// `i1 op i2 is result`
#[derive(Debug, PartialEq)]
pub struct BOpNode {
    pub i1: i32,
    pub i2: i32,
    pub op: Operator,
    pub result: Value,
}

/// The word for an operator in a rule of arithmetic.
pub open spec fn relation_text(operator: Operator) -> Seq<char> {
    match operator {
        Operator::Plus => " plus "@,
        Operator::Minus => " minus "@,
        Operator::Times => " times "@,
        _ => " less than "@,
    }
}

/// The name of the rule of arithmetic for an operator.
pub open spec fn relation_rule(operator: Operator) -> Seq<char> {
    match operator {
        Operator::Plus => "B-Plus"@,
        Operator::Minus => "B-Minus"@,
        Operator::Times => "B-Times"@,
        _ => "B-Lt"@,
    }
}

impl BOpNode {
    /// Whether the result is what the operator makes of the two integers.
    pub open spec fn valid(self) -> bool {
        apply(self.op, ValueModel::Num(self.i1 as int), ValueModel::Num(self.i2 as int)) == Ok::<
            ValueModel,
            crate::error::Error,
        >(self.result@)
    }

    pub open spec fn text(self, indent: Seq<char>) -> Seq<char> {
        rule_text(
            indent,
            integer_text(self.i1 as int) + relation_text(self.op) + integer_text(self.i2 as int)
                + " is "@ + value_text(self.result@),
            relation_rule(self.op),
            Seq::empty(),
        )
    }

    /// Renders the rule behind `indent`.
    pub fn show(&self, indent: &str) -> (s: String)
        ensures
            s@ == self.text(indent@),
    {
        let mut head = integer_to_string(self.i1);
        head.append(
            match self.op {
                Operator::Plus => " plus ",
                Operator::Minus => " minus ",
                Operator::Times => " times ",
                _ => " less than ",
            },
        );
        head.append(integer_to_string(self.i2).as_str());
        head.append(" is ");
        head.append(self.result.to_string().as_str());
        let rule = match self.op {
            Operator::Plus => "B-Plus",
            Operator::Minus => "B-Minus",
            Operator::Times => "B-Times",
            _ => "B-Lt",
        };
        rule_string(indent, head.as_str(), rule, &no_strings())
    }
}

} // verus!

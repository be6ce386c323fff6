//! The rules of evaluation. Each node holds the judgement that it
//! concludes, `environment |- expression evalto value`, and its premises.
//!
//! ```text
//! E-Int:   E |- i evalto i
//! E-Bool:  E |- b evalto b
//! E-Var1:  E, x = v |- x evalto v
//! E-Var2:  y differs from x,  E |- x evalto v                =>  E, y = w |- x evalto v
//! E-IfT:   E |- e1 evalto true,   E |- e2 evalto v           =>  E |- if e1 then e2 else e3 evalto v
//! E-IfF:   E |- e1 evalto false,  E |- e3 evalto v           =>  E |- if e1 then e2 else e3 evalto v
//! E-Let:   E |- e1 evalto v1,  E, x = v1 |- e2 evalto v      =>  E |- let x = e1 in e2 evalto v
//! E-Plus:  E |- e1 evalto i1,  E |- e2 evalto i2,  i1 plus i2 is i3  =>  E |- e1 + e2 evalto i3
//! E-Fun:   E |- fun x -> e evalto (E)[fun x -> e]
//! E-App:   E |- f evalto (E2)[fun x -> e0],  E |- e2 evalto v2,  E2, x = v2 |- e0 evalto v
//!                                                            =>  E |- f e2 evalto v
//! ```
//!
//! and likewise E-Minus, E-Times and E-Lt. No rule concludes `evalto
//! error`: an ill-typed expression has no tree.

use vstd::prelude::*;
use vstd::string::*;
use super::super::environment::{Environment, environment_text};
use super::super::expression::{Expression, expression_text};
use super::super::lexer::Operator;
use super::super::value::{Value, value_text};
use super::bnodes::BOpNode;
use super::writer::{deeper_indent, no_strings, one_string, rule_string, three_strings, two_strings};
use super::RuleNode;

verus! {

/// A variable: with no premise it is bound on top of the environment
/// (E-Var1), else below the top, and the premise looks it up without the
/// top binding (E-Var2).
#[derive(Debug, PartialEq)]
pub struct EVarNode {
    pub environment: Environment,
    pub expression: Expression,
    pub value: Value,
    pub premise: Option<Box<RuleNode>>,
}

/// A literal: an integer (E-Int) or a truth value (E-Bool).
#[derive(Debug, PartialEq)]
pub struct EValNode {
    pub environment: Environment,
    pub expression: Expression,
    pub value: Value,
}

/// A conditional, with the premise for its condition and the premise for
/// the branch that is taken: the first where `taken` is set (E-IfT), else
/// the second (E-IfF).
#[derive(Debug, PartialEq)]
pub struct EIfNode {
    pub environment: Environment,
    pub expression: Expression,
    pub value: Value,
    pub taken: bool,
    pub condition_premise: Box<RuleNode>,
    pub branch_premise: Box<RuleNode>,
}

/// An operation on two integers (E-Plus, E-Minus, E-Times, E-Lt).
#[derive(Debug, PartialEq)]
pub struct EBNode {
    pub environment: Environment,
    pub expression: Expression,
    pub value: Value,
    pub premise1: Box<RuleNode>,
    pub premise2: Box<RuleNode>,
    pub premise: BOpNode,
}

/// A `let` (E-Let).
#[derive(Debug, PartialEq)]
pub struct ELetNode {
    pub environment: Environment,
    pub expression: Expression,
    pub value: Value,
    pub let_premise: Box<RuleNode>,
    pub in_premise: Box<RuleNode>,
}

/// A function, which evaluates to its closure (E-Fun).
#[derive(Debug, PartialEq)]
pub struct EFunNode {
    pub environment: Environment,
    pub expression: Expression,
    pub value: Value,
}

/// An application (E-App).
#[derive(Debug, PartialEq)]
pub struct EAppNode {
    pub environment: Environment,
    pub expression: Expression,
    pub value: Value,
    pub function_premise: Box<RuleNode>,
    pub argument_premise: Box<RuleNode>,
    pub body_premise: Box<RuleNode>,
}

/// Writes the conclusion `environment |- expression evalto value`.
pub fn head_string(environment: &Environment, expression: &Expression, value: &Value) -> (s:
    String)
    ensures
        s@ == environment_text(environment@) + expression_text(expression@, expression@.len())
            + " evalto "@ + value_text(value@),
{
    let mut s = environment.to_string();
    s.append(expression.to_string().as_str());
    s.append(" evalto ");
    s.append(value.to_string().as_str());
    s
}

impl EValNode {
    /// Renders the rule behind `indent`.
    pub fn show(&self, indent: &str) -> (s: String)
        ensures
            s@ == RuleNode::EVal(*self).text(indent@),
    {
        let head = head_string(&self.environment, &self.expression, &self.value);
        let rule = match self.value {
            Value::Bool(_) => "E-Bool",
            _ => "E-Int",
        };
        rule_string(indent, head.as_str(), rule, &no_strings())
    }
}

impl EFunNode {
    /// Renders the rule behind `indent`.
    pub fn show(&self, indent: &str) -> (s: String)
        ensures
            s@ == RuleNode::EFun(*self).text(indent@),
    {
        let head = head_string(&self.environment, &self.expression, &self.value);
        rule_string(indent, head.as_str(), "E-Fun", &no_strings())
    }
}

impl EVarNode {
    /// Renders the rule and its premise behind `indent`.
    pub fn show(&self, indent: &str) -> (s: String)
        ensures
            s@ == RuleNode::EVar(*self).text(indent@),
        decreases self, 0nat,
    {
        let head = head_string(&self.environment, &self.expression, &self.value);
        let inner = deeper_indent(indent);
        match &self.premise {
            None => rule_string(indent, head.as_str(), "E-Var1", &no_strings()),
            Some(premise) => rule_string(
                indent,
                head.as_str(),
                "E-Var2",
                &one_string(premise.show_indented(inner.as_str())),
            ),
        }
    }
}

impl EIfNode {
    /// Renders the rule and its premises behind `indent`.
    pub fn show(&self, indent: &str) -> (s: String)
        ensures
            s@ == RuleNode::EIf(*self).text(indent@),
        decreases self, 0nat,
    {
        let head = head_string(&self.environment, &self.expression, &self.value);
        let inner = deeper_indent(indent);
        let premises = two_strings(
            self.condition_premise.show_indented(inner.as_str()),
            self.branch_premise.show_indented(inner.as_str()),
        );
        rule_string(
            indent,
            head.as_str(),
            if self.taken {
                "E-IfT"
            } else {
                "E-IfF"
            },
            &premises,
        )
    }
}

impl ELetNode {
    /// Renders the rule and its premises behind `indent`.
    pub fn show(&self, indent: &str) -> (s: String)
        ensures
            s@ == RuleNode::ELet(*self).text(indent@),
        decreases self, 0nat,
    {
        let head = head_string(&self.environment, &self.expression, &self.value);
        let inner = deeper_indent(indent);
        let premises = two_strings(
            self.let_premise.show_indented(inner.as_str()),
            self.in_premise.show_indented(inner.as_str()),
        );
        rule_string(indent, head.as_str(), "E-Let", &premises)
    }
}

impl EBNode {
    /// Renders the rule and its premises behind `indent`.
    pub fn show(&self, indent: &str) -> (s: String)
        ensures
            s@ == RuleNode::EBNode(*self).text(indent@),
        decreases self, 0nat,
    {
        let head = head_string(&self.environment, &self.expression, &self.value);
        let inner = deeper_indent(indent);
        let premises = three_strings(
            self.premise1.show_indented(inner.as_str()),
            self.premise2.show_indented(inner.as_str()),
            self.premise.show(inner.as_str()),
        );
        let rule = match self.premise.op {
            Operator::Plus => "E-Plus",
            Operator::Minus => "E-Minus",
            Operator::Times => "E-Times",
            _ => "E-Lt",
        };
        rule_string(indent, head.as_str(), rule, &premises)
    }
}

impl EAppNode {
    /// Renders the rule and its premises behind `indent`.
    pub fn show(&self, indent: &str) -> (s: String)
        ensures
            s@ == RuleNode::EApp(*self).text(indent@),
        decreases self, 0nat,
    {
        let head = head_string(&self.environment, &self.expression, &self.value);
        let inner = deeper_indent(indent);
        let premises = three_strings(
            self.function_premise.show_indented(inner.as_str()),
            self.argument_premise.show_indented(inner.as_str()),
            self.body_premise.show_indented(inner.as_str()),
        );
        rule_string(indent, head.as_str(), "E-App", &premises)
    }
}

} // verus!

//! Derivation trees of `e evalto v` for expressions of integers and truth
//! values.
//!
//! ```text
//! E-Int:   i evalto i
//! E-Bool:  b evalto b
//! E-IfT:   e1 evalto true,   e2 evalto v  =>  if e1 then e2 else e3 evalto v
//! E-IfF:   e1 evalto false,  e3 evalto v  =>  if e1 then e2 else e3 evalto v
//! E-Plus:  e1 evalto i1,  e2 evalto i2,  i1 plus i2 is i3  =>  e1 + e2 evalto i3
//! ```
//!
//! and likewise E-Minus, E-Times and E-Lt. An expression that is ill-typed
//! evaluates to `error`, by the rule that names the operand at fault:
//!
//! ```text
//! E-PlusBoolL:   e1 evalto b      =>  e1 + e2 evalto error
//! E-PlusErrorL:  e1 evalto error  =>  e1 + e2 evalto error
//! E-PlusBoolR:   e2 evalto b      =>  e1 + e2 evalto error
//! E-PlusErrorR:  e2 evalto error  =>  e1 + e2 evalto error
//! E-IfInt:       e1 evalto i      =>  if e1 then e2 else e3 evalto error
//! E-IfError:     e1 evalto error  =>  if e1 then e2 else e3 evalto error
//! E-IfTError:    e1 evalto true,   e2 evalto error  =>  if e1 then e2 else e3 evalto error
//! E-IfFError:    e1 evalto false,  e3 evalto error  =>  if e1 then e2 else e3 evalto error
//! ```
//!
//! The left operand is looked at first, and the branch of a conditional
//! that is not taken is not looked at.

use vstd::prelude::*;
use vstd::string::*;
use super::terms::{Terms, TermsModel};
use super::value::{Value, apply, value_text};
use crate::error::Error;
use crate::parser_evalml3::expression::{clear_first, expression_text, lemma_split_position_congruent, lemma_split_position_of_slice, lemma_unwrapped_clear_first, read_expression, slice, split_position, unwrapped};
use crate::parser_evalml3::lexer::{Operator, Token, TokenModel, Tokens, is_at};
use crate::parser_evalml3::nodes::writer::{deeper, deeper_indent, no_strings, one_string, rule_string, rule_text, string_views, three_strings, two_strings};
use crate::parser_evalml3::terms::{IfTerm, Term, TermModel};
use crate::util::{bool_text, bool_to_string, integer_text, integer_to_string, line_end, line_end_str, spaces, get_depth_space};

verus! {

/// A derivation tree: the rule at its root, which holds the premises.
#[derive(Debug, PartialEq)]
pub enum RuleNode {
    EInt(EIntNode),
    EBool(EBoolNode),
    EIfT(EIfTNode),
    EIfF(EIfFNode),
    EIfInt(EIfIntNode),
    EIfError(EIfErrorNode),
    EPlus(EPlusNode),
    EMinus(EMinusNode),
    ETimes(ETimesNode),
    ELt(ELtNode),
    EOperandError(EOperandErrorNode),
}

/// `i evalto i`
#[derive(Debug, PartialEq)]
pub struct EIntNode {
    pub i: i32,
}

/// `val evalto val`
#[derive(Debug, PartialEq)]
pub struct EBoolNode {
    pub val: bool,
}

/// A conditional whose condition is true: it evaluates to what its first
/// branch evaluates to.
#[derive(Debug, PartialEq)]
pub struct EIfTNode {
    pub terms: Terms,
    pub value: Value,
    pub condition_premise: Box<RuleNode>,
    pub then_premise: Box<RuleNode>,
}

/// A conditional whose condition is false: it evaluates to what its second
/// branch evaluates to.
#[derive(Debug, PartialEq)]
pub struct EIfFNode {
    pub terms: Terms,
    pub value: Value,
    pub condition_premise: Box<RuleNode>,
    pub else_premise: Box<RuleNode>,
}

/// A conditional whose condition is an integer: it evaluates to `error`.
#[derive(Debug, PartialEq)]
pub struct EIfIntNode {
    pub terms: Terms,
    pub condition_premise: Box<RuleNode>,
}

/// A conditional whose condition evaluates to `error`, as it does itself.
#[derive(Debug, PartialEq)]
pub struct EIfErrorNode {
    pub terms: Terms,
    pub condition_premise: Box<RuleNode>,
}

/// A sum of two integers.
#[derive(Debug, PartialEq)]
pub struct EPlusNode {
    pub terms: Terms,
    pub premise1: Box<RuleNode>,
    pub premise2: Box<RuleNode>,
    pub premise: BPlusNode,
}

/// A difference of two integers.
#[derive(Debug, PartialEq)]
pub struct EMinusNode {
    pub terms: Terms,
    pub premise1: Box<RuleNode>,
    pub premise2: Box<RuleNode>,
    pub premise: BMinusNode,
}

/// A product of two integers.
#[derive(Debug, PartialEq)]
pub struct ETimesNode {
    pub terms: Terms,
    pub premise1: Box<RuleNode>,
    pub premise2: Box<RuleNode>,
    pub premise: BTimesNode,
}

/// A comparison of two integers.
#[derive(Debug, PartialEq)]
pub struct ELtNode {
    pub terms: Terms,
    pub premise1: Box<RuleNode>,
    pub premise2: Box<RuleNode>,
    pub premise: BLtNode,
}

/// An operation with an operand that is no integer: it evaluates to
/// `error`. The premise derives the value of the operand at fault, which is
/// the left one where `on_left` is set, and a truth value where `of_bool`
/// is set, else `error`.
#[derive(Debug, PartialEq)]
pub struct EOperandErrorNode {
    pub terms: Terms,
    pub operator: Operator,
    pub on_left: bool,
    pub of_bool: bool,
    pub premise: Box<RuleNode>,
}

/// `i1 plus i2 is i3`
#[derive(Debug, Clone, Copy, PartialEq, Eq, Structural)]
pub struct BPlusNode {
    pub i1: i32,
    pub i2: i32,
    pub i3: i32,
}

/// `i1 minus i2 is i3`
#[derive(Debug, Clone, Copy, PartialEq, Eq, Structural)]
pub struct BMinusNode {
    pub i1: i32,
    pub i2: i32,
    pub i3: i32,
}

/// `i1 times i2 is i3`
#[derive(Debug, Clone, Copy, PartialEq, Eq, Structural)]
pub struct BTimesNode {
    pub i1: i32,
    pub i2: i32,
    pub i3: i32,
}

/// `i1 less than i2 is value`
#[derive(Debug, Clone, Copy, PartialEq, Eq, Structural)]
pub struct BLtNode {
    pub i1: i32,
    pub i2: i32,
    pub value: bool,
}

/// The value that the terms `lo..hi` evaluate to. An operand of the wrong
/// type makes it the error value. It is no value at all where a result
/// leaves the machine integers, where two terms stand side by side with no
/// operator between them, where a pair of parentheses is empty, and where a
/// term is of a kind that this family does not have.
pub open spec fn value_in(terms: TermsModel, lo: int, hi: int) -> Result<Value, Error>
    decreases terms, hi - lo,
{
    if !(0 <= lo < hi <= terms.len()) {
        Err(Error::NoRule)
    } else if hi - lo == 1 {
        match terms[lo].1 {
            TermModel::Val(i) => if i32::MIN <= i <= i32::MAX {
                Ok(Value::Int(i as i32))
            } else {
                Err(Error::Overflow)
            },
            TermModel::Bool(b) => Ok(Value::Bool(b)),
            TermModel::Paren(inner) => value_in(inner, 0, inner.len() as int),
            TermModel::If(condition, then, otherwise) => match value_in(
                condition,
                0,
                condition.len() as int,
            ) {
                Err(e) => Err(e),
                Ok(Value::Bool(true)) => value_in(then, 0, then.len() as int),
                Ok(Value::Bool(false)) => value_in(otherwise, 0, otherwise.len() as int),
                Ok(_) => Ok(Value::Error),
            },
            _ => Err(Error::NoRule),
        }
    } else {
        let at = split_position(terms, lo, hi);
        if lo < at < hi && terms[at].0 != Operator::Empty {
            match value_in(terms, lo, at) {
                Err(e) => Err(e),
                Ok(Value::Int(i1)) => match value_in(terms, at, hi) {
                    Err(e) => Err(e),
                    Ok(right) => apply(terms[at].0, Value::Int(i1), right),
                },
                Ok(_) => Ok(Value::Error),
            }
        } else {
            Err(Error::NoRule)
        }
    }
}

/// Whether `terms` is a conditional of which `condition` and `branch` are
/// the condition and the first branch, where `first` is set, or the second,
/// where it is not.
pub open spec fn if_shape(terms: TermsModel, first: bool, condition: TermsModel, branch: TermsModel) -> bool {
    &&& terms.len() == 1
    &&& terms[0].0 == Operator::Empty
    &&& terms[0].1 matches TermModel::If(c, t, o)
    &&& condition == unwrapped(c)
    &&& branch == unwrapped(
        if first {
            t
        } else {
            o
        },
    )
}

/// Whether `terms` is split at `operator` into the operands `left` and
/// `right`.
pub open spec fn operands(terms: TermsModel, operator: Operator, left: TermsModel, right: TermsModel) -> bool {
    let at = split_position(terms, 0, terms.len() as int);
    &&& terms.len() >= 2
    &&& operator != Operator::Empty
    &&& terms[at].0 == operator
    &&& left == unwrapped(slice(terms, 0, at))
    &&& right == unwrapped(slice(terms, at, terms.len() as int))
}

/// The conclusion `terms evalto value`.
pub open spec fn head(terms: TermsModel, value: Value) -> Seq<char> {
    expression_text(terms, terms.len()) + " evalto "@ + value_text(value)
}

/// The conclusion `i1 relation i2 is result` of a rule of arithmetic.
pub open spec fn fact(i1: i32, relation: Seq<char>, i2: i32, result: Seq<char>) -> Seq<char> {
    integer_text(i1 as int) + relation + integer_text(i2 as int) + " is "@ + result
}

/// The name of the rule that makes an operation with an ill-typed operand
/// evaluate to `error`.
pub open spec fn operand_rule(operator: Operator, on_left: bool, of_bool: bool) -> Seq<char> {
    "E-"@ + (match operator {
        Operator::Plus => "Plus"@,
        Operator::Minus => "Minus"@,
        Operator::Times => "Times"@,
        _ => "Lt"@,
    }) + (if of_bool {
        "Bool"@
    } else {
        "Error"@
    }) + (if on_left {
        "L"@
    } else {
        "R"@
    })
}

impl RuleNode {
    /// The expression of the judgement at the root.
    pub open spec fn subject(self) -> TermsModel {
        match self {
            RuleNode::EInt(node) => seq![(Operator::Empty, TermModel::Val(node.i as int))],
            RuleNode::EBool(node) => seq![(Operator::Empty, TermModel::Bool(node.val))],
            RuleNode::EIfT(node) => node.terms@,
            RuleNode::EIfF(node) => node.terms@,
            RuleNode::EIfInt(node) => node.terms@,
            RuleNode::EIfError(node) => node.terms@,
            RuleNode::EPlus(node) => node.terms@,
            RuleNode::EMinus(node) => node.terms@,
            RuleNode::ETimes(node) => node.terms@,
            RuleNode::ELt(node) => node.terms@,
            RuleNode::EOperandError(node) => node.terms@,
        }
    }

    /// The value that the judgement at the root gives the expression.
    pub open spec fn value(self) -> Value {
        match self {
            RuleNode::EInt(node) => Value::Int(node.i),
            RuleNode::EBool(node) => Value::Bool(node.val),
            RuleNode::EIfT(node) => node.value,
            RuleNode::EIfF(node) => node.value,
            RuleNode::EIfInt(_) => Value::Error,
            RuleNode::EIfError(_) => Value::Error,
            RuleNode::EPlus(node) => Value::Int(node.premise.i3),
            RuleNode::EMinus(node) => Value::Int(node.premise.i3),
            RuleNode::ETimes(node) => Value::Int(node.premise.i3),
            RuleNode::ELt(node) => Value::Bool(node.premise.value),
            RuleNode::EOperandError(_) => Value::Error,
        }
    }

    /// Whether every node of the tree is an instance of its rule.
    pub open spec fn valid(self) -> bool
        decreases self,
    {
        match self {
            RuleNode::EInt(_) => true,
            RuleNode::EBool(_) => true,
            RuleNode::EIfT(node) => {
                &&& node.condition_premise.valid()
                &&& node.then_premise.valid()
                &&& if_shape(
                    node.terms@,
                    true,
                    node.condition_premise.subject(),
                    node.then_premise.subject(),
                )
                &&& node.condition_premise.value() == Value::Bool(true)
                &&& node.then_premise.value() == node.value
            },
            RuleNode::EIfF(node) => {
                &&& node.condition_premise.valid()
                &&& node.else_premise.valid()
                &&& if_shape(
                    node.terms@,
                    false,
                    node.condition_premise.subject(),
                    node.else_premise.subject(),
                )
                &&& node.condition_premise.value() == Value::Bool(false)
                &&& node.else_premise.value() == node.value
            },
            RuleNode::EIfInt(node) => {
                &&& node.condition_premise.valid()
                &&& node.terms@.len() == 1
                &&& node.terms@[0].0 == Operator::Empty
                &&& node.terms@[0].1 matches TermModel::If(c, _, _)
                &&& node.condition_premise.subject() == unwrapped(c)
                &&& node.condition_premise.value() is Int
            },
            RuleNode::EIfError(node) => {
                &&& node.condition_premise.valid()
                &&& node.terms@.len() == 1
                &&& node.terms@[0].0 == Operator::Empty
                &&& node.terms@[0].1 matches TermModel::If(c, _, _)
                &&& node.condition_premise.subject() == unwrapped(c)
                &&& node.condition_premise.value() is Error
            },
            RuleNode::EPlus(node) => {
                &&& node.premise1.valid()
                &&& node.premise2.valid()
                &&& operands(
                    node.terms@,
                    Operator::Plus,
                    node.premise1.subject(),
                    node.premise2.subject(),
                )
                &&& node.premise1.value() == Value::Int(node.premise.i1)
                &&& node.premise2.value() == Value::Int(node.premise.i2)
                &&& node.premise.i1 + node.premise.i2 == node.premise.i3
            },
            RuleNode::EMinus(node) => {
                &&& node.premise1.valid()
                &&& node.premise2.valid()
                &&& operands(
                    node.terms@,
                    Operator::Minus,
                    node.premise1.subject(),
                    node.premise2.subject(),
                )
                &&& node.premise1.value() == Value::Int(node.premise.i1)
                &&& node.premise2.value() == Value::Int(node.premise.i2)
                &&& node.premise.i1 - node.premise.i2 == node.premise.i3
            },
            RuleNode::ETimes(node) => {
                &&& node.premise1.valid()
                &&& node.premise2.valid()
                &&& operands(
                    node.terms@,
                    Operator::Times,
                    node.premise1.subject(),
                    node.premise2.subject(),
                )
                &&& node.premise1.value() == Value::Int(node.premise.i1)
                &&& node.premise2.value() == Value::Int(node.premise.i2)
                &&& node.premise.i1 * node.premise.i2 == node.premise.i3
            },
            RuleNode::ELt(node) => {
                &&& node.premise1.valid()
                &&& node.premise2.valid()
                &&& operands(
                    node.terms@,
                    Operator::Lt,
                    node.premise1.subject(),
                    node.premise2.subject(),
                )
                &&& node.premise1.value() == Value::Int(node.premise.i1)
                &&& node.premise2.value() == Value::Int(node.premise.i2)
                &&& node.premise.value == (node.premise.i1 < node.premise.i2)
            },
            RuleNode::EOperandError(node) => {
                let terms = node.terms@;
                let at = split_position(terms, 0, terms.len() as int);
                &&& node.premise.valid()
                &&& terms.len() >= 2
                &&& node.operator != Operator::Empty
                &&& terms[at].0 == node.operator
                &&& node.premise.subject() == unwrapped(
                    if node.on_left {
                        slice(terms, 0, at)
                    } else {
                        slice(terms, at, terms.len() as int)
                    },
                )
                &&& if node.of_bool {
                    node.premise.value() is Bool
                } else {
                    node.premise.value() is Error
                }
            },
        }
    }

    /// Whether the tree blames the right operand of an operation only where
    /// the left one is an integer. Where both operands are at fault, the
    /// rules for either side apply; the left one is then named.
    pub open spec fn left_first(self) -> bool
        decreases self,
    {
        match self {
            RuleNode::EInt(_) => true,
            RuleNode::EBool(_) => true,
            RuleNode::EIfT(node) => node.condition_premise.left_first()
                && node.then_premise.left_first(),
            RuleNode::EIfF(node) => node.condition_premise.left_first()
                && node.else_premise.left_first(),
            RuleNode::EIfInt(node) => node.condition_premise.left_first(),
            RuleNode::EIfError(node) => node.condition_premise.left_first(),
            RuleNode::EPlus(node) => node.premise1.left_first() && node.premise2.left_first(),
            RuleNode::EMinus(node) => node.premise1.left_first() && node.premise2.left_first(),
            RuleNode::ETimes(node) => node.premise1.left_first() && node.premise2.left_first(),
            RuleNode::ELt(node) => node.premise1.left_first() && node.premise2.left_first(),
            RuleNode::EOperandError(node) => {
                &&& node.premise.left_first()
                &&& node.on_left || value_in(
                    node.terms@,
                    0,
                    split_position(node.terms@, 0, node.terms@.len() as int),
                ) matches Ok(Value::Int(_))
            },
        }
    }

    /// The name of the rule at the root.
    pub open spec fn rule(self) -> Seq<char> {
        match self {
            RuleNode::EInt(_) => "E-Int"@,
            RuleNode::EBool(_) => "E-Bool"@,
            RuleNode::EIfT(node) => if node.value is Error {
                "E-IfTError"@
            } else {
                "E-IfT"@
            },
            RuleNode::EIfF(node) => if node.value is Error {
                "E-IfFError"@
            } else {
                "E-IfF"@
            },
            RuleNode::EIfInt(_) => "E-IfInt"@,
            RuleNode::EIfError(_) => "E-IfError"@,
            RuleNode::EPlus(_) => "E-Plus"@,
            RuleNode::EMinus(_) => "E-Minus"@,
            RuleNode::ETimes(_) => "E-Times"@,
            RuleNode::ELt(_) => "E-Lt"@,
            RuleNode::EOperandError(node) => operand_rule(
                node.operator,
                node.on_left,
                node.of_bool,
            ),
        }
    }

    /// The text of the tree, each line behind `indent`, with no line end
    /// behind the last.
    pub open spec fn text(self, indent: Seq<char>) -> Seq<char>
        decreases self, 1nat,
    {
        rule_text(
            indent,
            head(self.subject(), self.value()),
            self.rule(),
            self.premise_texts(deeper(indent)),
        )
    }

    /// The texts of the premises of the root, each line behind `indent`.
    pub open spec fn premise_texts(self, indent: Seq<char>) -> Seq<Seq<char>>
        decreases self, 0nat,
    {
        match self {
            RuleNode::EInt(_) => Seq::empty(),
            RuleNode::EBool(_) => Seq::empty(),
            RuleNode::EIfT(node) => seq![
                node.condition_premise.text(indent),
                node.then_premise.text(indent),
            ],
            RuleNode::EIfF(node) => seq![
                node.condition_premise.text(indent),
                node.else_premise.text(indent),
            ],
            RuleNode::EIfInt(node) => seq![node.condition_premise.text(indent)],
            RuleNode::EIfError(node) => seq![node.condition_premise.text(indent)],
            RuleNode::EPlus(node) => seq![
                node.premise1.text(indent),
                node.premise2.text(indent),
                node.premise.text(indent),
            ],
            RuleNode::EMinus(node) => seq![
                node.premise1.text(indent),
                node.premise2.text(indent),
                node.premise.text(indent),
            ],
            RuleNode::ETimes(node) => seq![
                node.premise1.text(indent),
                node.premise2.text(indent),
                node.premise.text(indent),
            ],
            RuleNode::ELt(node) => seq![
                node.premise1.text(indent),
                node.premise2.text(indent),
                node.premise.text(indent),
            ],
            RuleNode::EOperandError(node) => seq![node.premise.text(indent)],
        }
    }
}

impl BPlusNode {
    pub open spec fn text(self, indent: Seq<char>) -> Seq<char> {
        rule_text(
            indent,
            fact(self.i1, " plus "@, self.i2, integer_text(self.i3 as int)),
            "B-Plus"@,
            Seq::empty(),
        )
    }

    /// Renders the rule behind `indent`.
    pub fn show(&self, indent: &str) -> (s: String)
        ensures
            s@ == self.text(indent@),
    {
        show_fact(indent, self.i1, " plus ", self.i2, integer_to_string(self.i3), "B-Plus")
    }
}

impl BMinusNode {
    pub open spec fn text(self, indent: Seq<char>) -> Seq<char> {
        rule_text(
            indent,
            fact(self.i1, " minus "@, self.i2, integer_text(self.i3 as int)),
            "B-Minus"@,
            Seq::empty(),
        )
    }

    /// Renders the rule behind `indent`.
    pub fn show(&self, indent: &str) -> (s: String)
        ensures
            s@ == self.text(indent@),
    {
        show_fact(indent, self.i1, " minus ", self.i2, integer_to_string(self.i3), "B-Minus")
    }
}

impl BTimesNode {
    pub open spec fn text(self, indent: Seq<char>) -> Seq<char> {
        rule_text(
            indent,
            fact(self.i1, " times "@, self.i2, integer_text(self.i3 as int)),
            "B-Times"@,
            Seq::empty(),
        )
    }

    /// Renders the rule behind `indent`.
    pub fn show(&self, indent: &str) -> (s: String)
        ensures
            s@ == self.text(indent@),
    {
        show_fact(indent, self.i1, " times ", self.i2, integer_to_string(self.i3), "B-Times")
    }
}

impl BLtNode {
    pub open spec fn text(self, indent: Seq<char>) -> Seq<char> {
        rule_text(
            indent,
            fact(self.i1, " less than "@, self.i2, bool_text(self.value)),
            "B-Lt"@,
            Seq::empty(),
        )
    }

    /// Renders the rule behind `indent`.
    pub fn show(&self, indent: &str) -> (s: String)
        ensures
            s@ == self.text(indent@),
    {
        show_fact(indent, self.i1, " less than ", self.i2, bool_to_string(self.value), "B-Lt")
    }
}

fn show_fact(indent: &str, i1: i32, relation: &str, i2: i32, result: String, rule: &str) -> (s:
    String)
    ensures
        s@ == rule_text(indent@, fact(i1, relation@, i2, result@), rule@, Seq::empty()),
{
    let mut head = integer_to_string(i1);
    head.append(relation);
    head.append(integer_to_string(i2).as_str());
    head.append(" is ");
    head.append(result.as_str());
    let premises: Vec<String> = Vec::new();
    assert(string_views(premises@) =~= Seq::<Seq<char>>::empty());
    rule_string(indent, head.as_str(), rule, &premises)
}

/// Writes the conclusion `terms evalto value`.
pub fn head_string(terms: &Terms, value: Value) -> (s: String)
    ensures
        s@ == head(terms@, value),
{
    let mut s = terms.to_string();
    s.append(" evalto ");
    s.append(value.to_string().as_str());
    s
}

/// The name of the rule that makes an operation with an ill-typed operand
/// evaluate to `error`.
pub fn operand_rule_string(operator: Operator, on_left: bool, of_bool: bool) -> (s: String)
    ensures
        s@ == operand_rule(operator, on_left, of_bool),
{
    let mut s = String::from_str("E-");
    s.append(
        match operator {
            Operator::Plus => "Plus",
            Operator::Minus => "Minus",
            Operator::Times => "Times",
            _ => "Lt",
        },
    );
    s.append(
        if of_bool {
            "Bool"
        } else {
            "Error"
        },
    );
    s.append(
        if on_left {
            "L"
        } else {
            "R"
        },
    );
    s
}


impl RuleNode {
    /// The value that the judgement at the root gives the expression.
    pub fn get_val(&self) -> (r: Value)
        ensures
            r == self.value(),
    {
        match self {
            RuleNode::EInt(node) => Value::Int(node.i),
            RuleNode::EBool(node) => Value::Bool(node.val),
            RuleNode::EIfT(node) => node.value,
            RuleNode::EIfF(node) => node.value,
            RuleNode::EIfInt(_) => Value::Error,
            RuleNode::EIfError(_) => Value::Error,
            RuleNode::EPlus(node) => Value::Int(node.premise.i3),
            RuleNode::EMinus(node) => Value::Int(node.premise.i3),
            RuleNode::ETimes(node) => Value::Int(node.premise.i3),
            RuleNode::ELt(node) => Value::Bool(node.premise.value),
            RuleNode::EOperandError(_) => Value::Error,
        }
    }

    /// Writes the conclusion at the root.
    pub fn head_string(&self) -> (s: String)
        ensures
            s@ == head(self.subject(), self.value()),
    {
        match self {
            RuleNode::EInt(node) => {
                let terms = Terms::single(Term::Val(node.i));
                head_string(&terms, Value::Int(node.i))
            },
            RuleNode::EBool(node) => {
                let terms = Terms::single(Term::Bool(node.val));
                head_string(&terms, Value::Bool(node.val))
            },
            RuleNode::EIfT(node) => head_string(&node.terms, node.value),
            RuleNode::EIfF(node) => head_string(&node.terms, node.value),
            RuleNode::EIfInt(node) => head_string(&node.terms, Value::Error),
            RuleNode::EIfError(node) => head_string(&node.terms, Value::Error),
            RuleNode::EPlus(node) => head_string(&node.terms, Value::Int(node.premise.i3)),
            RuleNode::EMinus(node) => head_string(&node.terms, Value::Int(node.premise.i3)),
            RuleNode::ETimes(node) => head_string(&node.terms, Value::Int(node.premise.i3)),
            RuleNode::ELt(node) => head_string(&node.terms, Value::Bool(node.premise.value)),
            RuleNode::EOperandError(node) => head_string(&node.terms, Value::Error),
        }
    }

    /// The name of the rule at the root.
    pub fn rule_string(&self) -> (s: String)
        ensures
            s@ == self.rule(),
    {
        match self {
            RuleNode::EInt(_) => String::from_str("E-Int"),
            RuleNode::EBool(_) => String::from_str("E-Bool"),
            RuleNode::EIfT(node) => match node.value {
                Value::Error => String::from_str("E-IfTError"),
                _ => String::from_str("E-IfT"),
            },
            RuleNode::EIfF(node) => match node.value {
                Value::Error => String::from_str("E-IfFError"),
                _ => String::from_str("E-IfF"),
            },
            RuleNode::EIfInt(_) => String::from_str("E-IfInt"),
            RuleNode::EIfError(_) => String::from_str("E-IfError"),
            RuleNode::EPlus(_) => String::from_str("E-Plus"),
            RuleNode::EMinus(_) => String::from_str("E-Minus"),
            RuleNode::ETimes(_) => String::from_str("E-Times"),
            RuleNode::ELt(_) => String::from_str("E-Lt"),
            RuleNode::EOperandError(node) => operand_rule_string(
                node.operator,
                node.on_left,
                node.of_bool,
            ),
        }
    }

    /// Renders the tree, the root at the given depth.
    pub fn show(&self, depth: usize, with_newline: bool) -> (s: String)
        ensures
            s@ == self.text(spaces(depth as nat)) + line_end(with_newline),
    {
        let indent = get_depth_space(depth);
        let mut s = self.show_indented(indent.as_str());
        s.append(line_end_str(with_newline));
        s
    }

    /// Renders the tree, each line behind `indent`.
    pub fn show_indented(&self, indent: &str) -> (s: String)
        ensures
            s@ == self.text(indent@),
        decreases self, 1nat,
    {
        match self {
            RuleNode::EInt(node) => node.show(indent),
            RuleNode::EBool(node) => node.show(indent),
            RuleNode::EIfT(node) => node.show(indent),
            RuleNode::EIfF(node) => node.show(indent),
            RuleNode::EIfInt(node) => node.show(indent),
            RuleNode::EIfError(node) => node.show(indent),
            RuleNode::EPlus(node) => node.show(indent),
            RuleNode::EMinus(node) => node.show(indent),
            RuleNode::ETimes(node) => node.show(indent),
            RuleNode::ELt(node) => node.show(indent),
            RuleNode::EOperandError(node) => node.show(indent),
        }
    }
}

impl EIntNode {
    /// Renders the rule behind `indent`.
    pub fn show(&self, indent: &str) -> (s: String)
        ensures
            s@ == RuleNode::EInt(*self).text(indent@),
    {
        let head = head_string(&Terms::single(Term::Val(self.i)), Value::Int(self.i));
        rule_string(indent, head.as_str(), "E-Int", &no_strings())
    }
}

impl EBoolNode {
    /// Renders the rule behind `indent`.
    pub fn show(&self, indent: &str) -> (s: String)
        ensures
            s@ == RuleNode::EBool(*self).text(indent@),
    {
        let head = head_string(&Terms::single(Term::Bool(self.val)), Value::Bool(self.val));
        rule_string(indent, head.as_str(), "E-Bool", &no_strings())
    }
}

impl EIfTNode {
    /// Renders the rule and its premises behind `indent`.
    pub fn show(&self, indent: &str) -> (s: String)
        ensures
            s@ == RuleNode::EIfT(*self).text(indent@),
        decreases self, 0nat,
    {
        let inner = deeper_indent(indent);
        let premises = two_strings(
            self.condition_premise.show_indented(inner.as_str()),
            self.then_premise.show_indented(inner.as_str()),
        );
        let rule = match self.value {
            Value::Error => "E-IfTError",
            _ => "E-IfT",
        };
        rule_string(indent, head_string(&self.terms, self.value).as_str(), rule, &premises)
    }
}

impl EIfFNode {
    /// Renders the rule and its premises behind `indent`.
    pub fn show(&self, indent: &str) -> (s: String)
        ensures
            s@ == RuleNode::EIfF(*self).text(indent@),
        decreases self, 0nat,
    {
        let inner = deeper_indent(indent);
        let premises = two_strings(
            self.condition_premise.show_indented(inner.as_str()),
            self.else_premise.show_indented(inner.as_str()),
        );
        let rule = match self.value {
            Value::Error => "E-IfFError",
            _ => "E-IfF",
        };
        rule_string(indent, head_string(&self.terms, self.value).as_str(), rule, &premises)
    }
}

impl EIfIntNode {
    /// Renders the rule and its premise behind `indent`.
    pub fn show(&self, indent: &str) -> (s: String)
        ensures
            s@ == RuleNode::EIfInt(*self).text(indent@),
        decreases self, 0nat,
    {
        let inner = deeper_indent(indent);
        let premises = one_string(self.condition_premise.show_indented(inner.as_str()));
        rule_string(
            indent,
            head_string(&self.terms, Value::Error).as_str(),
            "E-IfInt",
            &premises,
        )
    }
}

impl EIfErrorNode {
    /// Renders the rule and its premise behind `indent`.
    pub fn show(&self, indent: &str) -> (s: String)
        ensures
            s@ == RuleNode::EIfError(*self).text(indent@),
        decreases self, 0nat,
    {
        let inner = deeper_indent(indent);
        let premises = one_string(self.condition_premise.show_indented(inner.as_str()));
        rule_string(
            indent,
            head_string(&self.terms, Value::Error).as_str(),
            "E-IfError",
            &premises,
        )
    }
}

impl EPlusNode {
    /// Renders the rule and its premises behind `indent`.
    pub fn show(&self, indent: &str) -> (s: String)
        ensures
            s@ == RuleNode::EPlus(*self).text(indent@),
        decreases self, 0nat,
    {
        let inner = deeper_indent(indent);
        let premises = three_strings(
            self.premise1.show_indented(inner.as_str()),
            self.premise2.show_indented(inner.as_str()),
            self.premise.show(inner.as_str()),
        );
        rule_string(
            indent,
            head_string(&self.terms, Value::Int(self.premise.i3)).as_str(),
            "E-Plus",
            &premises,
        )
    }
}

impl EMinusNode {
    /// Renders the rule and its premises behind `indent`.
    pub fn show(&self, indent: &str) -> (s: String)
        ensures
            s@ == RuleNode::EMinus(*self).text(indent@),
        decreases self, 0nat,
    {
        let inner = deeper_indent(indent);
        let premises = three_strings(
            self.premise1.show_indented(inner.as_str()),
            self.premise2.show_indented(inner.as_str()),
            self.premise.show(inner.as_str()),
        );
        rule_string(
            indent,
            head_string(&self.terms, Value::Int(self.premise.i3)).as_str(),
            "E-Minus",
            &premises,
        )
    }
}

impl ETimesNode {
    /// Renders the rule and its premises behind `indent`.
    pub fn show(&self, indent: &str) -> (s: String)
        ensures
            s@ == RuleNode::ETimes(*self).text(indent@),
        decreases self, 0nat,
    {
        let inner = deeper_indent(indent);
        let premises = three_strings(
            self.premise1.show_indented(inner.as_str()),
            self.premise2.show_indented(inner.as_str()),
            self.premise.show(inner.as_str()),
        );
        rule_string(
            indent,
            head_string(&self.terms, Value::Int(self.premise.i3)).as_str(),
            "E-Times",
            &premises,
        )
    }
}

impl ELtNode {
    /// Renders the rule and its premises behind `indent`.
    pub fn show(&self, indent: &str) -> (s: String)
        ensures
            s@ == RuleNode::ELt(*self).text(indent@),
        decreases self, 0nat,
    {
        let inner = deeper_indent(indent);
        let premises = three_strings(
            self.premise1.show_indented(inner.as_str()),
            self.premise2.show_indented(inner.as_str()),
            self.premise.show(inner.as_str()),
        );
        rule_string(
            indent,
            head_string(&self.terms, Value::Bool(self.premise.value)).as_str(),
            "E-Lt",
            &premises,
        )
    }
}

impl EOperandErrorNode {
    /// Renders the rule and its premise behind `indent`.
    pub fn show(&self, indent: &str) -> (s: String)
        ensures
            s@ == RuleNode::EOperandError(*self).text(indent@),
        decreases self, 0nat,
    {
        let inner = deeper_indent(indent);
        let premises = one_string(self.premise.show_indented(inner.as_str()));
        rule_string(
            indent,
            head_string(&self.terms, Value::Error).as_str(),
            operand_rule_string(self.operator, self.on_left, self.of_bool).as_str(),
            &premises,
        )
    }
}

/// The derivation for the terms `lo..hi`.
fn rule_in(terms: &Terms, lo: usize, hi: usize) -> (r: Result<RuleNode, Error>)
    requires
        lo <= hi <= terms@.len(),
    ensures
        derives(terms@, lo as int, hi as int, r),
    decreases terms, hi - lo, 2nat,
{
    if lo >= hi {
        Err(Error::NoRule)
    } else if hi - lo == 1 {
        rule_for_term(terms, lo)
    } else {
        rule_for_split(terms, lo, hi)
    }
}

/// Whether `r` is what selecting the rules for the terms `lo..hi` owes: a
/// valid tree that gives the terms, without the parentheses around them,
/// their value, or the reason why they have no value.
pub open spec fn derives(terms: TermsModel, lo: int, hi: int, r: Result<RuleNode, Error>) -> bool {
    match value_in(terms, lo, hi) {
        Ok(value) => {
            &&& r is Ok
            &&& r->Ok_0.valid()
            &&& r->Ok_0.left_first()
            &&& r->Ok_0.subject() == unwrapped(slice(terms, lo, hi))
            &&& r->Ok_0.value() == value
        },
        Err(e) => r == Err::<RuleNode, Error>(e),
    }
}

fn rule_for_term(terms: &Terms, lo: usize) -> (r: Result<RuleNode, Error>)
    requires
        lo < terms@.len(),
    ensures
        derives(terms@, lo as int, lo + 1, r),
    decreases terms, 1nat, 1nat,
{
    let ghost only = slice(terms@, lo as int, lo + 1);
    assert(only =~= seq![(Operator::Empty, terms@[lo as int].1)]);
    assert(clear_first(only) =~= only);
    match &terms.terms[lo].1 {
        Term::Val(i) => Ok(RuleNode::EInt(EIntNode { i: *i })),
        Term::Bool(b) => Ok(RuleNode::EBool(EBoolNode { val: *b })),
        Term::Paren(inner) => {
            proof {
                assert(inner@.subrange(0, inner@.len() as int) =~= inner@);
                lemma_unwrapped_clear_first(inner@);
            }
            rule_in(inner, 0, inner.terms.len())
        },
        Term::If(term) => {
            proof {
                assert(clear_first(only) =~= only);
            }
            rule_for_if(term, terms.slice(lo, lo + 1))
        },
        _ => Err(Error::NoRule),
    }
}

/// Whether `r` is what is owed for the conditional `whole`.
pub open spec fn derives_if(
    condition: TermsModel,
    then: TermsModel,
    otherwise: TermsModel,
    whole: TermsModel,
    r: Result<RuleNode, Error>,
) -> bool {
    match value_in(
        seq![(Operator::Empty, TermModel::If(condition, then, otherwise))],
        0,
        1,
    ) {
        Ok(value) => {
            &&& r is Ok
            &&& r->Ok_0.valid()
            &&& r->Ok_0.left_first()
            &&& r->Ok_0.subject() == whole
            &&& r->Ok_0.value() == value
        },
        Err(e) => r == Err::<RuleNode, Error>(e),
    }
}

fn rule_for_if(term: &IfTerm, whole: Terms) -> (r: Result<RuleNode, Error>)
    requires
        whole@ == seq![
            (
                Operator::Empty,
                TermModel::If(
                    term.condition_expression@,
                    term.then_expression@,
                    term.else_expression@,
                ),
            ),
        ],
    ensures
        derives_if(
            term.condition_expression@,
            term.then_expression@,
            term.else_expression@,
            whole@,
            r,
        ),
    decreases term, 0nat, 0nat,
{
    let condition = &term.condition_expression;
    let then = &term.then_expression;
    let otherwise = &term.else_expression;
    proof {
        assert(condition@.subrange(0, condition@.len() as int) =~= condition@);
        assert(then@.subrange(0, then@.len() as int) =~= then@);
        assert(otherwise@.subrange(0, otherwise@.len() as int) =~= otherwise@);
        lemma_unwrapped_clear_first(condition@);
        lemma_unwrapped_clear_first(then@);
        lemma_unwrapped_clear_first(otherwise@);
    }
    let condition_premise = match rule_in(condition, 0, condition.terms.len()) {
        Ok(node) => node,
        Err(e) => return Err(e),
    };
    match condition_premise.get_val() {
        Value::Bool(true) => {
            let then_premise = match rule_in(then, 0, then.terms.len()) {
                Ok(node) => node,
                Err(e) => return Err(e),
            };
            Ok(
                RuleNode::EIfT(
                    EIfTNode {
                        terms: whole,
                        value: then_premise.get_val(),
                        condition_premise: Box::new(condition_premise),
                        then_premise: Box::new(then_premise),
                    },
                ),
            )
        },
        Value::Bool(false) => {
            let else_premise = match rule_in(otherwise, 0, otherwise.terms.len()) {
                Ok(node) => node,
                Err(e) => return Err(e),
            };
            Ok(
                RuleNode::EIfF(
                    EIfFNode {
                        terms: whole,
                        value: else_premise.get_val(),
                        condition_premise: Box::new(condition_premise),
                        else_premise: Box::new(else_premise),
                    },
                ),
            )
        },
        Value::Int(_) => Ok(
            RuleNode::EIfInt(
                EIfIntNode { terms: whole, condition_premise: Box::new(condition_premise) },
            ),
        ),
        Value::Error => Ok(
            RuleNode::EIfError(
                EIfErrorNode { terms: whole, condition_premise: Box::new(condition_premise) },
            ),
        ),
    }
}

fn rule_for_split(terms: &Terms, lo: usize, hi: usize) -> (r: Result<RuleNode, Error>)
    requires
        lo + 2 <= hi <= terms@.len(),
    ensures
        derives(terms@, lo as int, hi as int, r),
    decreases terms, hi - lo, 1nat,
{
    let (at, operator) = terms.split_in(lo, hi);
    if operator == Operator::Empty {
        return Err(Error::NoRule);
    }
    let premise1 = match rule_in(terms, lo, at) {
        Ok(node) => node,
        Err(e) => return Err(e),
    };
    let whole = terms.slice(lo, hi);
    proof {
        lemma_split_position_of_slice(terms@, lo as int, hi as int);
        assert(slice(whole@, 0, at - lo) =~= slice(terms@, lo as int, at as int));
        assert(slice(whole@, at - lo, hi - lo) =~= slice(terms@, at as int, hi as int));
        assert(clear_first(whole@) =~= whole@);
        assert(unwrapped(whole@) == whole@);
        assert(whole@[at - lo] == terms@[at as int]);
        assert forall|k: int| 0 <= k < at - lo implies (#[trigger] whole@[0 + k]).1 == terms@[lo
            + k].1 by {}
        assert forall|k: int| 0 < k < at - lo implies (#[trigger] whole@[0 + k]).0 == terms@[lo
            + k].0 by {}
        lemma_value_congruent(whole@, 0, terms@, lo as int, at - lo);
    }
    let i1 = match premise1.get_val() {
        Value::Int(i1) => i1,
        other => {
            return Ok(
                RuleNode::EOperandError(
                    EOperandErrorNode {
                        terms: whole,
                        operator,
                        on_left: true,
                        of_bool: matches!(other, Value::Bool(_)),
                        premise: Box::new(premise1),
                    },
                ),
            );
        },
    };
    let premise2 = match rule_in(terms, at, hi) {
        Ok(node) => node,
        Err(e) => return Err(e),
    };
    let i2 = match premise2.get_val() {
        Value::Int(i2) => i2,
        other => {
            return Ok(
                RuleNode::EOperandError(
                    EOperandErrorNode {
                        terms: whole,
                        operator,
                        on_left: false,
                        of_bool: matches!(other, Value::Bool(_)),
                        premise: Box::new(premise2),
                    },
                ),
            );
        },
    };
    let premise1 = Box::new(premise1);
    let premise2 = Box::new(premise2);
    match operator {
        Operator::Plus => match i1.checked_add(i2) {
            Some(i3) => Ok(
                RuleNode::EPlus(
                    EPlusNode { terms: whole, premise1, premise2, premise: BPlusNode { i1, i2, i3 } },
                ),
            ),
            None => Err(Error::Overflow),
        },
        Operator::Minus => match i1.checked_sub(i2) {
            Some(i3) => Ok(
                RuleNode::EMinus(
                    EMinusNode {
                        terms: whole,
                        premise1,
                        premise2,
                        premise: BMinusNode { i1, i2, i3 },
                    },
                ),
            ),
            None => Err(Error::Overflow),
        },
        Operator::Times => match i1.checked_mul(i2) {
            Some(i3) => Ok(
                RuleNode::ETimes(
                    ETimesNode {
                        terms: whole,
                        premise1,
                        premise2,
                        premise: BTimesNode { i1, i2, i3 },
                    },
                ),
            ),
            None => Err(Error::Overflow),
        },
        _ => Ok(
            RuleNode::ELt(
                ELtNode {
                    terms: whole,
                    premise1,
                    premise2,
                    premise: BLtNode { i1, i2, value: i1 < i2 },
                },
            ),
        ),
    }
}

/// An expression to evaluate: a sequence of terms.
#[derive(Debug, PartialEq)]
pub struct Expression {
    pub terms: Terms,
}

impl Expression {
    /// The expression of the given terms.
    pub fn new(terms: Terms) -> (r: Expression)
        ensures
            r.terms@ == terms@,
    {
        Expression { terms }
    }

    /// The value of the expression.
    pub fn get_val(&self) -> (r: Result<Value, Error>)
        ensures
            r == value_in(self.terms@, 0, self.terms@.len() as int),
    {
        match rule_in(&self.terms, 0, self.terms.terms.len()) {
            Ok(node) => Ok(node.get_val()),
            Err(e) => Err(e),
        }
    }

    /// The derivation of the value of the expression.
    pub fn get_rule(&self) -> (r: Result<RuleNode, Error>)
        ensures
            derives(self.terms@, 0, self.terms@.len() as int, r),
    {
        rule_in(&self.terms, 0, self.terms.terms.len())
    }

    /// Writes the expression.
    pub fn to_string(&self) -> (s: String)
        ensures
            s@ == expression_text(self.terms@, self.terms@.len()),
    {
        self.terms.to_string()
    }
}

/// The expression of the judgement `e evalto v` at the front of `s`, and
/// the position behind the judgement. The result `v` is an integer, a
/// truth value or `error`.
pub open spec fn read_judgement(s: Seq<TokenModel>) -> Option<(TermsModel, int)> {
    match read_expression(s, 0) {
        Some((terms, at_evalto)) => if 0 <= at_evalto && at_evalto + 1 < s.len() && s[at_evalto]
            == TokenModel::Eval && is_result(s[at_evalto + 1]) {
            Some((terms, at_evalto + 2))
        } else {
            None
        },
        None => None,
    }
}

/// Whether a token can stand for the result of a judgement.
pub open spec fn is_result(token: TokenModel) -> bool {
    token is Int || token is Bool || token is ERR
}

impl RuleNode {
    /// Builds the derivation of the judgement `e evalto v` that the tokens
    /// state, and consumes them. The tree derives the value of `e`,
    /// whatever result the judgement claims.
    pub fn new(tokens: &mut Tokens) -> (r: Result<RuleNode, Error>)
        ensures
            match read_judgement(old(tokens)@) {
                None => r == Err::<RuleNode, Error>(Error::Syntax) && final(tokens)@ == old(
                    tokens,
                )@,
                Some((terms, end)) => derives(terms, 0, terms.len() as int, r) && final(tokens)@
                    == (if r is Ok {
                    old(tokens)@.skip(end)
                } else {
                    old(tokens)@
                }),
            },
    {
        let (terms, at_evalto) = match Terms::parse(&tokens.tokens, 0) {
            Ok(found) => found,
            Err(e) => return Err(e),
        };
        if !is_at(&tokens.tokens, at_evalto, &Token::Eval) || tokens.tokens.len() - at_evalto < 2 {
            return Err(Error::Syntax);
        }
        match &tokens.tokens[at_evalto + 1] {
            Token::Int(_) | Token::Bool(_) | Token::ERR => {},
            _ => return Err(Error::Syntax),
        }
        match Expression::new(terms).get_rule() {
            Ok(node) => {
                tokens.advance(at_evalto + 2);
                Ok(node)
            },
            Err(e) => Err(e),
        }
    }
}


/// The expression that is the conditional of the three expressions.
pub open spec fn conditional(condition: TermsModel, then: TermsModel, otherwise: TermsModel) -> TermsModel {
    seq![(Operator::Empty, TermModel::If(condition, then, otherwise))]
}

/// The branch of a conditional that is not taken has no part in its value,
/// nor in whether it has one: with a condition that is true the second
/// branch may be any expression, with one that is false the first.
pub proof fn lemma_untaken_branch_is_ignored(
    condition: TermsModel,
    then: TermsModel,
    otherwise: TermsModel,
    other: TermsModel,
)
    ensures
        value_in(condition, 0, condition.len() as int) == Ok::<Value, Error>(Value::Bool(true))
            ==> value_in(conditional(condition, then, otherwise), 0, 1) == value_in(
            conditional(condition, then, other),
            0,
            1,
        ),
        value_in(condition, 0, condition.len() as int) == Ok::<Value, Error>(Value::Bool(false))
            ==> value_in(conditional(condition, then, otherwise), 0, 1) == value_in(
            conditional(condition, other, otherwise),
            0,
            1,
        ),
{
}


/// The value of terms depends on the terms and on the operators behind the
/// first of them only: two runs of the same terms with the same operators
/// there have the same value, wherever they stand.
pub proof fn lemma_value_congruent(
    one: TermsModel,
    lo: int,
    other: TermsModel,
    other_lo: int,
    count: int,
)
    requires
        0 <= lo,
        lo + count <= one.len(),
        0 <= other_lo,
        other_lo + count <= other.len(),
        forall|k: int| 0 <= k < count ==> (#[trigger] one[lo + k]).1 == other[other_lo + k].1,
        forall|k: int| 0 < k < count ==> (#[trigger] one[lo + k]).0 == other[other_lo + k].0,
    ensures
        value_in(one, lo, lo + count) == value_in(other, other_lo, other_lo + count),
    decreases count,
{
    if count == 1 {
        assert(one[lo + 0].1 == other[other_lo + 0].1);
    } else if count >= 2 {
        lemma_split_position_congruent(one, lo, other, other_lo, count);
        let at = split_position(one, lo, lo + count) - lo;
        assert(one[lo + at].0 == other[other_lo + at].0);
        assert forall|k: int| 0 <= k < count - at implies (#[trigger] one[lo + at + k]).1
            == other[other_lo + at + k].1 by {
            assert(one[lo + (at + k)].1 == other[other_lo + (at + k)].1);
        }
        assert forall|k: int| 0 < k < count - at implies (#[trigger] one[lo + at + k]).0
            == other[other_lo + at + k].0 by {
            assert(one[lo + (at + k)].0 == other[other_lo + (at + k)].0);
        }
        lemma_value_congruent(one, lo, other, other_lo, at);
        lemma_value_congruent(one, lo + at, other, other_lo + at, count - at);
    }
}

/// A part of the terms, taken as an expression of its own, has the value
/// that it has within the whole.
pub proof fn lemma_value_of_slice(terms: TermsModel, lo: int, hi: int)
    requires
        0 <= lo <= hi <= terms.len(),
    ensures
        value_in(slice(terms, lo, hi), 0, hi - lo) == value_in(terms, lo, hi),
{
    let part = slice(terms, lo, hi);
    assert forall|k: int| 0 <= k < hi - lo implies (#[trigger] part[0 + k]).1 == terms[lo + k].1 by {}
    assert forall|k: int| 0 < k < hi - lo implies (#[trigger] part[0 + k]).0 == terms[lo + k].0 by {}
    lemma_value_congruent(part, 0, terms, lo, hi - lo);
}

/// Parentheses around the whole of an expression do not change its value.
pub proof fn lemma_value_of_unwrapped(terms: TermsModel)
    ensures
        value_in(unwrapped(terms), 0, unwrapped(terms).len() as int) == value_in(
            terms,
            0,
            terms.len() as int,
        ),
    decreases terms,
{
    if terms.len() == 1 && terms[0].1 is Paren {
        lemma_value_of_unwrapped(terms[0].1->Paren_0);
    } else {
        assert(terms.subrange(0, terms.len() as int) =~= terms);
        lemma_value_of_slice(terms, 0, terms.len() as int);
    }
}

/// The rules are sound: a valid tree that names the left operand first
/// gives its expression the value that the expression evaluates to.
pub proof fn lemma_valid_tree_gives_the_value(node: RuleNode)
    requires
        node.valid(),
        node.left_first(),
    ensures
        value_in(node.subject(), 0, node.subject().len() as int) == Ok::<Value, Error>(
            node.value(),
        ),
    decreases node,
{
    let terms = node.subject();
    let len = terms.len() as int;
    let at = split_position(terms, 0, len);
    match node {
        RuleNode::EInt(_) => {},
        RuleNode::EBool(_) => {},
        RuleNode::EIfT(inner) => {
            lemma_valid_tree_gives_the_value(*inner.condition_premise);
            lemma_valid_tree_gives_the_value(*inner.then_premise);
            lemma_value_of_unwrapped(terms[0].1->If_0);
            lemma_value_of_unwrapped(terms[0].1->If_1);
        },
        RuleNode::EIfF(inner) => {
            lemma_valid_tree_gives_the_value(*inner.condition_premise);
            lemma_valid_tree_gives_the_value(*inner.else_premise);
            lemma_value_of_unwrapped(terms[0].1->If_0);
            lemma_value_of_unwrapped(terms[0].1->If_2);
        },
        RuleNode::EIfInt(inner) => {
            lemma_valid_tree_gives_the_value(*inner.condition_premise);
            lemma_value_of_unwrapped(terms[0].1->If_0);
        },
        RuleNode::EIfError(inner) => {
            lemma_valid_tree_gives_the_value(*inner.condition_premise);
            lemma_value_of_unwrapped(terms[0].1->If_0);
        },
        RuleNode::EPlus(inner) => {
            lemma_valid_tree_gives_the_value(*inner.premise1);
            lemma_valid_tree_gives_the_value(*inner.premise2);
            lemma_operand_values(terms);
        },
        RuleNode::EMinus(inner) => {
            lemma_valid_tree_gives_the_value(*inner.premise1);
            lemma_valid_tree_gives_the_value(*inner.premise2);
            lemma_operand_values(terms);
        },
        RuleNode::ETimes(inner) => {
            lemma_valid_tree_gives_the_value(*inner.premise1);
            lemma_valid_tree_gives_the_value(*inner.premise2);
            lemma_operand_values(terms);
        },
        RuleNode::ELt(inner) => {
            lemma_valid_tree_gives_the_value(*inner.premise1);
            lemma_valid_tree_gives_the_value(*inner.premise2);
            lemma_operand_values(terms);
        },
        RuleNode::EOperandError(inner) => {
            lemma_valid_tree_gives_the_value(*inner.premise);
            lemma_operand_values(terms);
        },
    }
}

/// The operands of an expression, taken as expressions of their own and
/// without the parentheses around them, have the values that they have
/// within the expression.
proof fn lemma_operand_values(terms: TermsModel)
    requires
        terms.len() >= 2,
    ensures
        ({
            let at = split_position(terms, 0, terms.len() as int);
            let left = unwrapped(slice(terms, 0, at));
            let right = unwrapped(slice(terms, at, terms.len() as int));
            &&& 0 < at < terms.len()
            &&& value_in(left, 0, left.len() as int) == value_in(terms, 0, at)
            &&& value_in(right, 0, right.len() as int) == value_in(terms, at, terms.len() as int)
        }),
{
    let len = terms.len() as int;
    let at = split_position(terms, 0, len);
    assert(terms.subrange(0, len) =~= terms);
    assert forall|k: int| 0 < k < len implies (#[trigger] terms[0 + k]).0 == terms[0 + k].0 by {}
    lemma_split_position_congruent(terms, 0, terms, 0, len);
    lemma_value_of_unwrapped(slice(terms, 0, at));
    lemma_value_of_unwrapped(slice(terms, at, len));
    lemma_value_of_slice(terms, 0, at);
    lemma_value_of_slice(terms, at, len);
}


/// A judgement has one derivation that names the left operand first: two
/// such trees for the same expression give it the same value and are
/// written the same.
pub proof fn lemma_valid_tree_is_unique(a: RuleNode, b: RuleNode, indent: Seq<char>)
    requires
        a.valid(),
        a.left_first(),
        b.valid(),
        b.left_first(),
        a.subject() == b.subject(),
    ensures
        a.value() == b.value(),
        a.text(indent) == b.text(indent),
    decreases a, 1nat,
{
    lemma_valid_tree_gives_the_value(a);
    lemma_valid_tree_gives_the_value(b);
    lemma_other_rule(a, b);
    if condition_value(a) is Some {
        lemma_conditional_is_unique(a, b, indent);
    } else if a is EOperandError {
        lemma_fault_is_unique(a, b, indent);
    } else if !(a is EInt || a is EBool) {
        lemma_operation_is_unique(a, b, indent);
    }
}

proof fn lemma_conditional_is_unique(a: RuleNode, b: RuleNode, indent: Seq<char>)
    requires
        a.valid(),
        a.left_first(),
        b.valid(),
        b.left_first(),
        a.subject() == b.subject(),
        a.value() == b.value(),
        condition_value(a) is Some,
        a is EIfT <==> b is EIfT,
        a is EIfF <==> b is EIfF,
        a is EIfInt <==> b is EIfInt,
        a is EIfError <==> b is EIfError,
    ensures
        a.text(indent) == b.text(indent),
    decreases a, 0nat,
{
    let inner = deeper(indent);
    match (a, b) {
        (RuleNode::EIfT(x), RuleNode::EIfT(y)) => {
            lemma_valid_tree_is_unique(*x.condition_premise, *y.condition_premise, inner);
            lemma_valid_tree_is_unique(*x.then_premise, *y.then_premise, inner);
        },
        (RuleNode::EIfF(x), RuleNode::EIfF(y)) => {
            lemma_valid_tree_is_unique(*x.condition_premise, *y.condition_premise, inner);
            lemma_valid_tree_is_unique(*x.else_premise, *y.else_premise, inner);
        },
        (RuleNode::EIfInt(x), RuleNode::EIfInt(y)) => {
            lemma_valid_tree_is_unique(*x.condition_premise, *y.condition_premise, inner);
        },
        (RuleNode::EIfError(x), RuleNode::EIfError(y)) => {
            lemma_valid_tree_is_unique(*x.condition_premise, *y.condition_premise, inner);
        },
        _ => {},
    }
}

proof fn lemma_operation_is_unique(a: RuleNode, b: RuleNode, indent: Seq<char>)
    requires
        a.valid(),
        a.left_first(),
        b.valid(),
        b.left_first(),
        a.subject() == b.subject(),
        a.value() == b.value(),
        a is EPlus || a is EMinus || a is ETimes || a is ELt,
        a is EPlus <==> b is EPlus,
        a is EMinus <==> b is EMinus,
        a is ETimes <==> b is ETimes,
        a is ELt <==> b is ELt,
    ensures
        a.text(indent) == b.text(indent),
    decreases a, 0nat,
{
    let inner = deeper(indent);
    match (a, b) {
        (RuleNode::EPlus(x), RuleNode::EPlus(y)) => {
            lemma_valid_tree_is_unique(*x.premise1, *y.premise1, inner);
            lemma_valid_tree_is_unique(*x.premise2, *y.premise2, inner);
        },
        (RuleNode::EMinus(x), RuleNode::EMinus(y)) => {
            lemma_valid_tree_is_unique(*x.premise1, *y.premise1, inner);
            lemma_valid_tree_is_unique(*x.premise2, *y.premise2, inner);
        },
        (RuleNode::ETimes(x), RuleNode::ETimes(y)) => {
            lemma_valid_tree_is_unique(*x.premise1, *y.premise1, inner);
            lemma_valid_tree_is_unique(*x.premise2, *y.premise2, inner);
        },
        (RuleNode::ELt(x), RuleNode::ELt(y)) => {
            lemma_valid_tree_is_unique(*x.premise1, *y.premise1, inner);
            lemma_valid_tree_is_unique(*x.premise2, *y.premise2, inner);
        },
        _ => {},
    }
}

proof fn lemma_fault_is_unique(a: RuleNode, b: RuleNode, indent: Seq<char>)
    requires
        a.valid(),
        a.left_first(),
        b.valid(),
        b.left_first(),
        a.subject() == b.subject(),
        a is EOperandError,
        b is EOperandError,
    ensures
        a.text(indent) == b.text(indent),
    decreases a, 0nat,
{
    let inner = deeper(indent);
    let x = a->EOperandError_0;
    let y = b->EOperandError_0;
    lemma_valid_tree_gives_the_value(*x.premise);
    lemma_valid_tree_gives_the_value(*y.premise);
    lemma_operand_values(a.subject());
    assert(x.on_left == y.on_left);
    lemma_valid_tree_is_unique(*x.premise, *y.premise, inner);
}

/// The condition of a conditional that a valid tree concludes, and the
/// value that the tree gives the condition.
pub open spec fn condition_value(node: RuleNode) -> Option<Value> {
    match node {
        RuleNode::EIfT(_) => Some(Value::Bool(true)),
        RuleNode::EIfF(_) => Some(Value::Bool(false)),
        RuleNode::EIfInt(inner) => Some(inner.condition_premise.value()),
        RuleNode::EIfError(_) => Some(Value::Error),
        _ => None,
    }
}

proof fn lemma_condition_value(node: RuleNode)
    requires
        node.valid(),
        node.left_first(),
        condition_value(node) is Some,
    ensures
        node.subject().len() == 1,
        node.subject()[0].1 is If,
        value_in(
            node.subject()[0].1->If_0,
            0,
            node.subject()[0].1->If_0.len() as int,
        ) == Ok::<Value, Error>(condition_value(node)->Some_0),
{
    let condition = node.subject()[0].1->If_0;
    lemma_value_of_unwrapped(condition);
    match node {
        RuleNode::EIfT(inner) => lemma_valid_tree_gives_the_value(*inner.condition_premise),
        RuleNode::EIfF(inner) => lemma_valid_tree_gives_the_value(*inner.condition_premise),
        RuleNode::EIfInt(inner) => lemma_valid_tree_gives_the_value(*inner.condition_premise),
        RuleNode::EIfError(inner) => lemma_valid_tree_gives_the_value(*inner.condition_premise),
        _ => {},
    }
}

/// Two valid trees for the same expression that give it the same value are
/// instances of the same kind of rule.
proof fn lemma_other_rule(a: RuleNode, b: RuleNode)
    requires
        a.valid(),
        a.left_first(),
        b.valid(),
        b.left_first(),
        a.subject() == b.subject(),
        a.value() == b.value(),
    ensures
        a is EInt <==> b is EInt,
        a is EBool <==> b is EBool,
        a is EIfT <==> b is EIfT,
        a is EIfF <==> b is EIfF,
        a is EIfInt <==> b is EIfInt,
        a is EIfError <==> b is EIfError,
        a is EPlus <==> b is EPlus,
        a is EMinus <==> b is EMinus,
        a is ETimes <==> b is ETimes,
        a is ELt <==> b is ELt,
        a is EOperandError <==> b is EOperandError,
{
    if condition_value(a) is Some {
        lemma_condition_value(a);
    }
    if condition_value(b) is Some {
        lemma_condition_value(b);
    }
}

} // verus!

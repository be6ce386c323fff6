//! Derivation trees of the ML-like evaluation judgement
//! `environment |- expression evalto value`, and the selection of the rule
//! for each sub-judgement.
//!
//! Functions may apply themselves through the environment, so an
//! evaluation need not end. The selection takes a bound on the number of
//! applications that may be nested, and gives up beyond it.

pub mod bnodes;
pub mod enodes;
pub mod writer;

use vstd::prelude::*;
use vstd::string::*;
use self::bnodes::BOpNode;
use self::enodes::{EAppNode, EBNode, EFunNode, EIfNode, ELetNode, EValNode, EVarNode};
use self::writer::{deeper, rule_text};
use super::environment::{Environment, EnvironmentModel, environment_text, lookup, lookup_in};
use super::expression::{Expression, ExpressionModel, clear_first, expression_text, lemma_split_position_of_slice, lemma_unwrapped_clear_first, slice, split_position, unwrapped};
use super::lexer::Operator;
use super::terms::{AppTerm, FunTerm, IfTerm, LetTerm, Term, TermModel};
use super::value::{Value, ValueModel, apply, value_text};
use crate::error::Error;
use crate::util::{get_depth_space, line_end, line_end_str, spaces};

verus! {

/// A derivation tree: the rule at its root, which holds the premises.
#[derive(Debug, PartialEq)]
pub enum RuleNode {
    EVar(EVarNode),
    EVal(EValNode),
    EIf(EIfNode),
    ELet(ELetNode),
    EBNode(EBNode),
    EFun(EFunNode),
    EApp(EAppNode),
}

/// The value of the terms `lo..hi` of `expression` in `environment`, where
/// at most `fuel` applications are nested.
pub open spec fn eval(
    environment: EnvironmentModel,
    expression: ExpressionModel,
    lo: int,
    hi: int,
    fuel: nat,
) -> Result<ValueModel, Error>
    decreases fuel, expression, hi - lo, 1nat,
{
    if !(0 <= lo < hi <= expression.len()) {
        Err(Error::NoRule)
    } else if hi - lo == 1 {
        eval_term(environment, expression[lo].1, fuel)
    } else {
        let at = split_position(expression, lo, hi);
        if lo < at < hi && expression[at].0 != Operator::Empty {
            match eval(environment, expression, lo, at, fuel) {
                Err(e) => Err(e),
                Ok(left) => match eval(environment, expression, at, hi, fuel) {
                    Err(e) => Err(e),
                    Ok(right) => apply(expression[at].0, left, right),
                },
            }
        } else {
            Err(Error::NoRule)
        }
    }
}

/// The value of a term in `environment`, where at most `fuel` applications
/// are nested.
pub open spec fn eval_term(environment: EnvironmentModel, term: TermModel, fuel: nat) -> Result<
    ValueModel,
    Error,
>
    decreases fuel, term, 0nat, 0nat,
{
    match term {
        TermModel::Val(i) => if i32::MIN <= i <= i32::MAX {
            Ok(ValueModel::Num(i))
        } else {
            Err(Error::Overflow)
        },
        TermModel::Bool(b) => Ok(ValueModel::Bool(b)),
        TermModel::Var(name) => match lookup(environment, name) {
            Some(value) => Ok(value),
            None => Err(Error::Undeclared),
        },
        TermModel::Paren(inner) => eval(environment, inner, 0, inner.len() as int, fuel),
        TermModel::If(condition, then, otherwise) => match eval(
            environment,
            condition,
            0,
            condition.len() as int,
            fuel,
        ) {
            Err(e) => Err(e),
            Ok(ValueModel::Bool(true)) => eval(environment, then, 0, then.len() as int, fuel),
            Ok(ValueModel::Bool(false)) => eval(
                environment,
                otherwise,
                0,
                otherwise.len() as int,
                fuel,
            ),
            Ok(_) => Err(Error::NoRule),
        },
        TermModel::Let(identifier, bound, body) => match eval(
            environment,
            bound,
            0,
            bound.len() as int,
            fuel,
        ) {
            Err(e) => Err(e),
            Ok(value) => eval(
                environment.push((identifier, value)),
                body,
                0,
                body.len() as int,
                fuel,
            ),
        },
        TermModel::Fun(parameter, body) => Ok(ValueModel::Fun(parameter, body, environment)),
        TermModel::App(function, argument) => match lookup(environment, function) {
            None => Err(Error::Undeclared),
            Some(ValueModel::Fun(parameter, body, captured)) => if fuel == 0 {
                Err(Error::TooDeep)
            } else {
                match eval(environment, argument, 0, argument.len() as int, fuel) {
                    Err(e) => Err(e),
                    Ok(value) => eval(
                        captured.push((parameter, value)),
                        body,
                        0,
                        body.len() as int,
                        (fuel - 1) as nat,
                    ),
                }
            },
            Some(_) => Err(Error::NoRule),
        },
    }
}

/// The expression that is the one term.
pub open spec fn single(term: TermModel) -> ExpressionModel {
    seq![(Operator::Empty, term)]
}

/// Whether `expression` is split at `operator` into the operands `left` and
/// `right`.
pub open spec fn operands(
    expression: ExpressionModel,
    operator: Operator,
    left: ExpressionModel,
    right: ExpressionModel,
) -> bool {
    let at = split_position(expression, 0, expression.len() as int);
    &&& expression.len() >= 2
    &&& operator != Operator::Empty
    &&& expression[at].0 == operator
    &&& left == unwrapped(slice(expression, 0, at))
    &&& right == unwrapped(slice(expression, at, expression.len() as int))
}

impl RuleNode {
    /// The environment of the judgement at the root.
    pub open spec fn environment(self) -> EnvironmentModel {
        match self {
            RuleNode::EVar(node) => node.environment@,
            RuleNode::EVal(node) => node.environment@,
            RuleNode::EIf(node) => node.environment@,
            RuleNode::ELet(node) => node.environment@,
            RuleNode::EBNode(node) => node.environment@,
            RuleNode::EFun(node) => node.environment@,
            RuleNode::EApp(node) => node.environment@,
        }
    }

    /// The expression of the judgement at the root.
    pub open spec fn expression(self) -> ExpressionModel {
        match self {
            RuleNode::EVar(node) => node.expression@,
            RuleNode::EVal(node) => node.expression@,
            RuleNode::EIf(node) => node.expression@,
            RuleNode::ELet(node) => node.expression@,
            RuleNode::EBNode(node) => node.expression@,
            RuleNode::EFun(node) => node.expression@,
            RuleNode::EApp(node) => node.expression@,
        }
    }

    /// The value that the judgement at the root gives the expression.
    pub open spec fn value(self) -> ValueModel {
        match self {
            RuleNode::EVar(node) => node.value@,
            RuleNode::EVal(node) => node.value@,
            RuleNode::EIf(node) => node.value@,
            RuleNode::ELet(node) => node.value@,
            RuleNode::EBNode(node) => node.value@,
            RuleNode::EFun(node) => node.value@,
            RuleNode::EApp(node) => node.value@,
        }
    }

    /// Whether the premise concludes `environment |- expression evalto
    /// value`.
    pub open spec fn concludes(
        self,
        environment: EnvironmentModel,
        expression: ExpressionModel,
        value: ValueModel,
    ) -> bool {
        &&& self.environment() == environment
        &&& self.expression() == expression
        &&& self.value() == value
    }

    /// Whether every node of the tree is an instance of its rule.
    pub open spec fn valid(self) -> bool
        decreases self,
    {
        match self {
            RuleNode::EVal(node) => {
                ||| node.expression@ == single(TermModel::Val(node.value@->Num_0)) && node.value@
                    is Num
                ||| node.expression@ == single(TermModel::Bool(node.value@->Bool_0))
                    && node.value@ is Bool
            },
            RuleNode::EVar(node) => {
                let environment = node.environment@;
                &&& environment.len() > 0
                &&& node.expression@.len() == 1
                &&& node.expression@[0].0 == Operator::Empty
                &&& node.expression@[0].1 matches TermModel::Var(name)
                &&& match node.premise {
                    None => environment.last() == (name, node.value@),
                    Some(premise) => {
                        &&& environment.last().0 != name
                        &&& premise.valid()
                        &&& premise.concludes(
                            environment.drop_last(),
                            node.expression@,
                            node.value@,
                        )
                    },
                }
            },
            RuleNode::EIf(node) => {
                &&& node.expression@.len() == 1
                &&& node.expression@[0].0 == Operator::Empty
                &&& node.expression@[0].1 matches TermModel::If(condition, then, otherwise)
                &&& node.condition_premise.valid()
                &&& node.branch_premise.valid()
                &&& node.condition_premise.concludes(
                    node.environment@,
                    unwrapped(condition),
                    ValueModel::Bool(node.taken),
                )
                &&& node.branch_premise.concludes(
                    node.environment@,
                    unwrapped(
                        if node.taken {
                            then
                        } else {
                            otherwise
                        },
                    ),
                    node.value@,
                )
            },
            RuleNode::ELet(node) => {
                &&& node.expression@.len() == 1
                &&& node.expression@[0].0 == Operator::Empty
                &&& node.expression@[0].1 matches TermModel::Let(identifier, bound, body)
                &&& node.let_premise.valid()
                &&& node.in_premise.valid()
                &&& node.let_premise.environment() == node.environment@
                &&& node.let_premise.expression() == unwrapped(bound)
                &&& node.in_premise.concludes(
                    node.environment@.push((identifier, node.let_premise.value())),
                    unwrapped(body),
                    node.value@,
                )
            },
            RuleNode::EBNode(node) => {
                &&& node.premise1.valid()
                &&& node.premise2.valid()
                &&& node.premise.valid()
                &&& operands(
                    node.expression@,
                    node.premise.op,
                    node.premise1.expression(),
                    node.premise2.expression(),
                )
                &&& node.premise1.environment() == node.environment@
                &&& node.premise2.environment() == node.environment@
                &&& node.premise1.value() == ValueModel::Num(node.premise.i1 as int)
                &&& node.premise2.value() == ValueModel::Num(node.premise.i2 as int)
                &&& node.value@ == node.premise.result@
            },
            RuleNode::EFun(node) => {
                &&& node.expression@.len() == 1
                &&& node.expression@[0].0 == Operator::Empty
                &&& node.expression@[0].1 matches TermModel::Fun(parameter, body)
                &&& node.value@ == ValueModel::Fun(parameter, body, node.environment@)
            },
            RuleNode::EApp(node) => {
                &&& node.expression@.len() == 1
                &&& node.expression@[0].0 == Operator::Empty
                &&& node.expression@[0].1 matches TermModel::App(function, argument)
                &&& node.function_premise.valid()
                &&& node.argument_premise.valid()
                &&& node.body_premise.valid()
                &&& node.function_premise.environment() == node.environment@
                &&& node.function_premise.expression() == single(TermModel::Var(function))
                &&& node.function_premise.value() matches ValueModel::Fun(
                    parameter,
                    body,
                    captured,
                )
                &&& node.argument_premise.environment() == node.environment@
                &&& node.argument_premise.expression() == unwrapped(argument)
                &&& node.body_premise.concludes(
                    captured.push((parameter, node.argument_premise.value())),
                    unwrapped(body),
                    node.value@,
                )
            },
        }
    }

    /// The name of the rule at the root.
    pub open spec fn rule(self) -> Seq<char> {
        match self {
            RuleNode::EVal(node) => if node.value@ is Bool {
                "E-Bool"@
            } else {
                "E-Int"@
            },
            RuleNode::EVar(node) => if node.premise is None {
                "E-Var1"@
            } else {
                "E-Var2"@
            },
            RuleNode::EIf(node) => if node.taken {
                "E-IfT"@
            } else {
                "E-IfF"@
            },
            RuleNode::ELet(_) => "E-Let"@,
            RuleNode::EBNode(node) => match node.premise.op {
                Operator::Plus => "E-Plus"@,
                Operator::Minus => "E-Minus"@,
                Operator::Times => "E-Times"@,
                _ => "E-Lt"@,
            },
            RuleNode::EFun(_) => "E-Fun"@,
            RuleNode::EApp(_) => "E-App"@,
        }
    }

    /// The conclusion at the root, `environment |- expression evalto
    /// value`.
    pub open spec fn head(self) -> Seq<char> {
        environment_text(self.environment()) + expression_text(
            self.expression(),
            self.expression().len(),
        ) + " evalto "@ + value_text(self.value())
    }

    /// The text of the tree, each line behind `indent`, with no line end
    /// behind the last.
    pub open spec fn text(self, indent: Seq<char>) -> Seq<char>
        decreases self, 1nat,
    {
        rule_text(indent, self.head(), self.rule(), self.premise_texts(deeper(indent)))
    }

    /// The texts of the premises of the root, each line behind `indent`.
    pub open spec fn premise_texts(self, indent: Seq<char>) -> Seq<Seq<char>>
        decreases self, 0nat,
    {
        match self {
            RuleNode::EVal(_) => Seq::empty(),
            RuleNode::EVar(node) => match node.premise {
                None => Seq::empty(),
                Some(premise) => seq![premise.text(indent)],
            },
            RuleNode::EIf(node) => seq![
                node.condition_premise.text(indent),
                node.branch_premise.text(indent),
            ],
            RuleNode::ELet(node) => seq![
                node.let_premise.text(indent),
                node.in_premise.text(indent),
            ],
            RuleNode::EBNode(node) => seq![
                node.premise1.text(indent),
                node.premise2.text(indent),
                node.premise.text(indent),
            ],
            RuleNode::EFun(_) => Seq::empty(),
            RuleNode::EApp(node) => seq![
                node.function_premise.text(indent),
                node.argument_premise.text(indent),
                node.body_premise.text(indent),
            ],
        }
    }
}


impl RuleNode {
    /// The environment of the judgement at the root.
    pub fn get_environment(&self) -> (r: &Environment)
        ensures
            r@ == self.environment(),
    {
        match self {
            RuleNode::EVar(node) => &node.environment,
            RuleNode::EVal(node) => &node.environment,
            RuleNode::EIf(node) => &node.environment,
            RuleNode::ELet(node) => &node.environment,
            RuleNode::EBNode(node) => &node.environment,
            RuleNode::EFun(node) => &node.environment,
            RuleNode::EApp(node) => &node.environment,
        }
    }

    /// The expression of the judgement at the root.
    pub fn get_expression(&self) -> (r: &Expression)
        ensures
            r@ == self.expression(),
    {
        match self {
            RuleNode::EVar(node) => &node.expression,
            RuleNode::EVal(node) => &node.expression,
            RuleNode::EIf(node) => &node.expression,
            RuleNode::ELet(node) => &node.expression,
            RuleNode::EBNode(node) => &node.expression,
            RuleNode::EFun(node) => &node.expression,
            RuleNode::EApp(node) => &node.expression,
        }
    }

    /// The value that the judgement at the root gives the expression.
    pub fn get_val(&self) -> (r: &Value)
        ensures
            r@ == self.value(),
    {
        match self {
            RuleNode::EVar(node) => &node.value,
            RuleNode::EVal(node) => &node.value,
            RuleNode::EIf(node) => &node.value,
            RuleNode::ELet(node) => &node.value,
            RuleNode::EBNode(node) => &node.value,
            RuleNode::EFun(node) => &node.value,
            RuleNode::EApp(node) => &node.value,
        }
    }

    /// Writes the conclusion at the root.
    pub fn head_string(&self) -> (s: String)
        ensures
            s@ == self.head(),
    {
        self::enodes::head_string(self.get_environment(), self.get_expression(), self.get_val())
    }

    /// The name of the rule at the root.
    pub fn rule_str(&self) -> (s: &'static str)
        ensures
            s@ == self.rule(),
    {
        match self {
            RuleNode::EVal(node) => match node.value {
                Value::Bool(_) => "E-Bool",
                _ => "E-Int",
            },
            RuleNode::EVar(node) => match node.premise {
                None => "E-Var1",
                Some(_) => "E-Var2",
            },
            RuleNode::EIf(node) => if node.taken {
                "E-IfT"
            } else {
                "E-IfF"
            },
            RuleNode::ELet(_) => "E-Let",
            RuleNode::EBNode(node) => match node.premise.op {
                Operator::Plus => "E-Plus",
                Operator::Minus => "E-Minus",
                Operator::Times => "E-Times",
                _ => "E-Lt",
            },
            RuleNode::EFun(_) => "E-Fun",
            RuleNode::EApp(_) => "E-App",
        }
    }

    /// Renders the tree, the root at the given depth.
    pub fn show(&self, depth: usize, with_newline: bool) -> (s: String)
        ensures
            s@ == self.text(spaces(depth as nat)) + line_end(with_newline),
    {
        let indent = get_depth_space(depth);
        let mut s = self.show_indented(indent.as_str());
        s.append(line_end_str(with_newline));
        s
    }

    /// Renders the tree, each line behind `indent`.
    pub fn show_indented(&self, indent: &str) -> (s: String)
        ensures
            s@ == self.text(indent@),
        decreases self, 1nat,
    {
        match self {
            RuleNode::EVal(node) => node.show(indent),
            RuleNode::EVar(node) => node.show(indent),
            RuleNode::EIf(node) => node.show(indent),
            RuleNode::ELet(node) => node.show(indent),
            RuleNode::EBNode(node) => node.show(indent),
            RuleNode::EFun(node) => node.show(indent),
            RuleNode::EApp(node) => node.show(indent),
        }
    }
}

/// Whether `r` is what selecting the rules for the terms `lo..hi` of
/// `expression` in `environment` owes: a valid tree that gives the terms,
/// without the parentheses around them, their value, or the reason why
/// they have none.
pub open spec fn derives(
    environment: EnvironmentModel,
    expression: ExpressionModel,
    lo: int,
    hi: int,
    fuel: nat,
    r: Result<RuleNode, Error>,
) -> bool {
    match eval(environment, expression, lo, hi, fuel) {
        Ok(value) => {
            &&& r is Ok
            &&& r->Ok_0.valid()
            &&& r->Ok_0.concludes(environment, unwrapped(slice(expression, lo, hi)), value)
        },
        Err(e) => r == Err::<RuleNode, Error>(e),
    }
}

/// Whether `r` is what selecting the rule for the one term `term`, which
/// makes up the expression `whole`, owes.
pub open spec fn derives_term(
    environment: EnvironmentModel,
    term: TermModel,
    whole: ExpressionModel,
    fuel: nat,
    r: Result<RuleNode, Error>,
) -> bool {
    match eval_term(environment, term, fuel) {
        Ok(value) => {
            &&& r is Ok
            &&& r->Ok_0.valid()
            &&& r->Ok_0.concludes(environment, whole, value)
        },
        Err(e) => r == Err::<RuleNode, Error>(e),
    }
}

/// The derivation of the value of a variable among the oldest `count`
/// bindings of the environment: one E-Var2 for each binding above its
/// newest one, then E-Var1.
fn rule_for_var(environment: &Environment, count: usize, name: &String) -> (r: Result<
    RuleNode,
    Error,
>)
    requires
        count <= environment@.len(),
    ensures
        match lookup_in(environment@, count as nat, name@) {
            Some(value) => {
                &&& r is Ok
                &&& r->Ok_0.valid()
                &&& r->Ok_0.concludes(
                    environment@.take(count as int),
                    single(TermModel::Var(name@)),
                    value,
                )
            },
            None => r == Err::<RuleNode, Error>(Error::Undeclared),
        },
    decreases count,
{
    if count == 0 {
        return Err(Error::Undeclared);
    }
    proof {
        assert(environment@.take(count as int).drop_last() =~= environment@.take(count - 1));
    }
    let expression = Expression::single(Term::Var(name.clone()));
    if environment.stack[count - 1].0 == *name {
        Ok(
            RuleNode::EVar(
                EVarNode {
                    environment: environment.prefix(count),
                    expression,
                    value: environment.stack[count - 1].1.clone(),
                    premise: None,
                },
            ),
        )
    } else {
        match rule_for_var(environment, count - 1, name) {
            Ok(premise) => Ok(
                RuleNode::EVar(
                    EVarNode {
                        environment: environment.prefix(count),
                        expression,
                        value: premise.get_val().clone(),
                        premise: Some(Box::new(premise)),
                    },
                ),
            ),
            Err(e) => Err(e),
        }
    }
}


/// The derivation for the terms `lo..hi` of `expression` in `environment`,
/// with at most `fuel` applications nested.
fn rule_in(
    environment: &Environment,
    expression: &Expression,
    lo: usize,
    hi: usize,
    fuel: usize,
) -> (r: Result<RuleNode, Error>)
    requires
        lo <= hi <= expression@.len(),
    ensures
        derives(environment@, expression@, lo as int, hi as int, fuel as nat, r),
    decreases fuel, expression, hi - lo, 2nat,
{
    if lo >= hi {
        Err(Error::NoRule)
    } else if hi - lo == 1 {
        rule_for_term(environment, expression, lo, fuel)
    } else {
        rule_for_split(environment, expression, lo, hi, fuel)
    }
}

fn rule_for_term(environment: &Environment, expression: &Expression, lo: usize, fuel: usize) -> (r:
    Result<RuleNode, Error>)
    requires
        lo < expression@.len(),
    ensures
        derives(environment@, expression@, lo as int, lo + 1, fuel as nat, r),
    decreases fuel, expression, 1nat, 1nat,
{
    let ghost only = slice(expression@, lo as int, lo + 1);
    assert(only =~= single(expression@[lo as int].1));
    assert(clear_first(only) =~= only);
    assert(eval(environment@, expression@, lo as int, lo + 1, fuel as nat) == eval_term(
        environment@,
        expression@[lo as int].1,
        fuel as nat,
    ));
    match &expression.terms[lo].1 {
        Term::Val(i) => Ok(
            RuleNode::EVal(
                EValNode {
                    environment: environment.clone(),
                    expression: Expression::single(Term::Val(*i)),
                    value: Value::Num(*i),
                },
            ),
        ),
        Term::Bool(b) => Ok(
            RuleNode::EVal(
                EValNode {
                    environment: environment.clone(),
                    expression: Expression::single(Term::Bool(*b)),
                    value: Value::Bool(*b),
                },
            ),
        ),
        Term::Var(name) => {
            assert(environment@.take(environment@.len() as int) =~= environment@);
            rule_for_var(environment, environment.len(), name)
        },
        Term::Paren(inner) => {
            proof {
                assert(inner@.subrange(0, inner@.len() as int) =~= inner@);
                lemma_unwrapped_clear_first(inner@);
            }
            rule_in(environment, inner, 0, inner.terms.len(), fuel)
        },
        Term::If(term) => rule_for_if(environment, term, expression.slice(lo, lo + 1), fuel),
        Term::Let(term) => rule_for_let(environment, term, expression.slice(lo, lo + 1), fuel),
        Term::Fun(term) => Ok(
            RuleNode::EFun(
                EFunNode {
                    environment: environment.clone(),
                    expression: expression.slice(lo, lo + 1),
                    value: Value::Fun(
                        FunTerm {
                            parameter: term.parameter.clone(),
                            function_body: term.function_body.clone(),
                        },
                        environment.clone(),
                    ),
                },
            ),
        ),
        Term::App(term) => rule_for_app(environment, term, expression.slice(lo, lo + 1), fuel),
    }
}

fn rule_for_if(environment: &Environment, term: &IfTerm, whole: Expression, fuel: usize) -> (r:
    Result<RuleNode, Error>)
    requires
        whole@ == single(
            TermModel::If(
                term.condition_expression@,
                term.then_expression@,
                term.else_expression@,
            ),
        ),
    ensures
        derives_term(
            environment@,
            TermModel::If(
                term.condition_expression@,
                term.then_expression@,
                term.else_expression@,
            ),
            whole@,
            fuel as nat,
            r,
        ),
    decreases fuel, term, 0nat, 0nat,
{
    let condition = &term.condition_expression;
    proof {
        assert(condition@.subrange(0, condition@.len() as int) =~= condition@);
        lemma_unwrapped_clear_first(condition@);
    }
    let condition_premise = match rule_in(environment, condition, 0, condition.terms.len(), fuel) {
        Ok(node) => node,
        Err(e) => return Err(e),
    };
    let taken = match condition_premise.get_val() {
        Value::Bool(taken) => *taken,
        _ => return Err(Error::NoRule),
    };
    let branch = if taken {
        &term.then_expression
    } else {
        &term.else_expression
    };
    proof {
        assert(branch@.subrange(0, branch@.len() as int) =~= branch@);
        lemma_unwrapped_clear_first(branch@);
    }
    let branch_premise = match rule_in(environment, branch, 0, branch.terms.len(), fuel) {
        Ok(node) => node,
        Err(e) => return Err(e),
    };
    Ok(
        RuleNode::EIf(
            EIfNode {
                environment: environment.clone(),
                expression: whole,
                value: branch_premise.get_val().clone(),
                taken,
                condition_premise: Box::new(condition_premise),
                branch_premise: Box::new(branch_premise),
            },
        ),
    )
}

fn rule_for_let(environment: &Environment, term: &LetTerm, whole: Expression, fuel: usize) -> (r:
    Result<RuleNode, Error>)
    requires
        whole@ == single(
            TermModel::Let(
                term.let_expression.identifier@,
                term.let_expression.expression@,
                term.in_expression@,
            ),
        ),
    ensures
        derives_term(
            environment@,
            TermModel::Let(
                term.let_expression.identifier@,
                term.let_expression.expression@,
                term.in_expression@,
            ),
            whole@,
            fuel as nat,
            r,
        ),
    decreases fuel, term, 0nat, 0nat,
{
    let bound = &term.let_expression.expression;
    let body = &term.in_expression;
    proof {
        assert(bound@.subrange(0, bound@.len() as int) =~= bound@);
        assert(body@.subrange(0, body@.len() as int) =~= body@);
        lemma_unwrapped_clear_first(bound@);
        lemma_unwrapped_clear_first(body@);
    }
    let let_premise = match rule_in(environment, bound, 0, bound.terms.len(), fuel) {
        Ok(node) => node,
        Err(e) => return Err(e),
    };
    let mut extended = environment.clone();
    extended.set_val(term.let_expression.identifier.clone(), let_premise.get_val().clone());
    let in_premise = match rule_in(&extended, body, 0, body.terms.len(), fuel) {
        Ok(node) => node,
        Err(e) => return Err(e),
    };
    Ok(
        RuleNode::ELet(
            ELetNode {
                environment: environment.clone(),
                expression: whole,
                value: in_premise.get_val().clone(),
                let_premise: Box::new(let_premise),
                in_premise: Box::new(in_premise),
            },
        ),
    )
}

fn rule_for_app(environment: &Environment, term: &AppTerm, whole: Expression, fuel: usize) -> (r:
    Result<RuleNode, Error>)
    requires
        whole@ == single(TermModel::App(term.function@, term.argument@)),
    ensures
        derives_term(
            environment@,
            TermModel::App(term.function@, term.argument@),
            whole@,
            fuel as nat,
            r,
        ),
    decreases fuel, term, 0nat, 0nat,
{
    let argument = &term.argument;
    proof {
        assert(environment@.take(environment@.len() as int) =~= environment@);
        assert(argument@.subrange(0, argument@.len() as int) =~= argument@);
        lemma_unwrapped_clear_first(argument@);
    }
    let function_premise = match rule_for_var(environment, environment.len(), &term.function) {
        Ok(node) => node,
        Err(e) => return Err(e),
    };
    let (function, captured) = match function_premise.get_val().clone() {
        Value::Fun(function, captured) => (function, captured),
        _ => return Err(Error::NoRule),
    };
    if fuel == 0 {
        return Err(Error::TooDeep);
    }
    let argument_premise = match rule_in(environment, argument, 0, argument.terms.len(), fuel) {
        Ok(node) => node,
        Err(e) => return Err(e),
    };
    let body = &function.function_body;
    proof {
        assert(body@.subrange(0, body@.len() as int) =~= body@);
        lemma_unwrapped_clear_first(body@);
    }
    let mut extended = captured;
    extended.set_val(function.parameter.clone(), argument_premise.get_val().clone());
    let body_premise = match rule_in(&extended, body, 0, body.terms.len(), fuel - 1) {
        Ok(node) => node,
        Err(e) => return Err(e),
    };
    Ok(
        RuleNode::EApp(
            EAppNode {
                environment: environment.clone(),
                expression: whole,
                value: body_premise.get_val().clone(),
                function_premise: Box::new(function_premise),
                argument_premise: Box::new(argument_premise),
                body_premise: Box::new(body_premise),
            },
        ),
    )
}

fn rule_for_split(
    environment: &Environment,
    expression: &Expression,
    lo: usize,
    hi: usize,
    fuel: usize,
) -> (r: Result<RuleNode, Error>)
    requires
        lo + 2 <= hi <= expression@.len(),
    ensures
        derives(environment@, expression@, lo as int, hi as int, fuel as nat, r),
    decreases fuel, expression, hi - lo, 1nat,
{
    let (at, operator) = expression.split_in(lo, hi);
    if operator == Operator::Empty {
        return Err(Error::NoRule);
    }
    let premise1 = match rule_in(environment, expression, lo, at, fuel) {
        Ok(node) => node,
        Err(e) => return Err(e),
    };
    let premise2 = match rule_in(environment, expression, at, hi, fuel) {
        Ok(node) => node,
        Err(e) => return Err(e),
    };
    let (i1, i2) = match (premise1.get_val().get_num(), premise2.get_val().get_num()) {
        (Some(i1), Some(i2)) => (i1, i2),
        _ => return Err(Error::NoRule),
    };
    let value = match Value::apply(operator, i1, i2) {
        Ok(value) => value,
        Err(e) => return Err(e),
    };
    let whole = expression.slice(lo, hi);
    proof {
        lemma_split_position_of_slice(expression@, lo as int, hi as int);
        assert(slice(whole@, 0, at - lo) =~= slice(expression@, lo as int, at as int));
        assert(slice(whole@, at - lo, hi - lo) =~= slice(expression@, at as int, hi as int));
        assert(clear_first(whole@) =~= whole@);
        assert(unwrapped(whole@) == whole@);
        assert(whole@[at - lo] == expression@[at as int]);
    }
    Ok(
        RuleNode::EBNode(
            EBNode {
                environment: environment.clone(),
                expression: whole,
                value: value.clone(),
                premise1: Box::new(premise1),
                premise2: Box::new(premise2),
                premise: BOpNode { i1, i2, op: operator, result: value },
            },
        ),
    )
}


impl RuleNode {
    /// Builds the derivation of the value of `expression` in `environment`,
    /// with at most `fuel` applications nested.
    pub fn new(environment: Environment, expression: Expression, fuel: usize) -> (r: Result<
        RuleNode,
        Error,
    >)
        ensures
            match eval(environment@, expression@, 0, expression@.len() as int, fuel as nat) {
                Ok(value) => {
                    &&& r is Ok
                    &&& r->Ok_0.valid()
                    &&& r->Ok_0.concludes(environment@, unwrapped(expression@), value)
                },
                Err(e) => r == Err::<RuleNode, Error>(e),
            },
    {
        proof {
            assert(expression@.subrange(0, expression@.len() as int) =~= expression@);
            lemma_unwrapped_clear_first(expression@);
        }
        rule_in(&environment, &expression, 0, expression.terms.len(), fuel)
    }
}

impl Expression {
    /// The value of the expression in `environment`, with at most `fuel`
    /// applications nested.
    pub fn get_val(&self, environment: &Environment, fuel: usize) -> (r: Result<Value, Error>)
        ensures
            match eval(environment@, self@, 0, self@.len() as int, fuel as nat) {
                Ok(value) => r is Ok && r->Ok_0@ == value,
                Err(e) => r == Err::<Value, Error>(e),
            },
    {
        match rule_in(environment, self, 0, self.terms.len(), fuel) {
            Ok(node) => Ok(node.get_val().clone()),
            Err(e) => Err(e),
        }
    }
}

impl Term {
    /// The value of the term in `environment`, with at most `fuel`
    /// applications nested.
    pub fn get_val(&self, environment: &Environment, fuel: usize) -> (r: Result<Value, Error>)
        ensures
            match eval_term(environment@, self@, fuel as nat) {
                Ok(value) => r is Ok && r->Ok_0@ == value,
                Err(e) => r == Err::<Value, Error>(e),
            },
    {
        let whole = Expression::single(self.clone());
        assert(eval(environment@, whole@, 0, 1, fuel as nat) == eval_term(
            environment@,
            self@,
            fuel as nat,
        ));
        whole.get_val(environment, fuel)
    }
}


/// The expression that is the conditional of the three expressions.
pub open spec fn conditional(
    condition: ExpressionModel,
    then: ExpressionModel,
    otherwise: ExpressionModel,
) -> ExpressionModel {
    single(TermModel::If(condition, then, otherwise))
}

/// The branch of a conditional that is not taken has no part in its value,
/// nor in whether it has one: with a condition that is true the second
/// branch may be any expression, with one that is false the first.
pub proof fn lemma_untaken_branch_is_ignored(
    environment: EnvironmentModel,
    condition: ExpressionModel,
    then: ExpressionModel,
    otherwise: ExpressionModel,
    other: ExpressionModel,
    fuel: nat,
)
    ensures
        eval(environment, condition, 0, condition.len() as int, fuel) == Ok::<ValueModel, Error>(
            ValueModel::Bool(true),
        ) ==> eval(environment, conditional(condition, then, otherwise), 0, 1, fuel) == eval(
            environment,
            conditional(condition, then, other),
            0,
            1,
            fuel,
        ),
        eval(environment, condition, 0, condition.len() as int, fuel) == Ok::<ValueModel, Error>(
            ValueModel::Bool(false),
        ) ==> eval(environment, conditional(condition, then, otherwise), 0, 1, fuel) == eval(
            environment,
            conditional(condition, other, otherwise),
            0,
            1,
            fuel,
        ),
{
    assert(eval(environment, conditional(condition, then, otherwise), 0, 1, fuel) == eval_term(
        environment,
        TermModel::If(condition, then, otherwise),
        fuel,
    ));
    assert(eval(environment, conditional(condition, then, other), 0, 1, fuel) == eval_term(
        environment,
        TermModel::If(condition, then, other),
        fuel,
    ));
    assert(eval(environment, conditional(condition, other, otherwise), 0, 1, fuel) == eval_term(
        environment,
        TermModel::If(condition, other, otherwise),
        fuel,
    ));
}

} // verus!

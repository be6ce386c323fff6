//! Laws of the evaluation, and the soundness of the rules: a valid
//! derivation tree gives its expression the value that the expression
//! evaluates to.

use vstd::prelude::*;
use super::environment::{EnvironmentModel, lookup, lookup_in};
use super::expression::{ExpressionModel, lemma_split_position_congruent, slice, split_position, unwrapped};
use super::nodes::{RuleNode, eval, eval_term};
use super::terms::TermModel;
use super::value::ValueModel;
use crate::error::Error;

verus! {

/// The value of terms depends on the terms and on the operators behind the
/// first of them only: two runs of the same terms with the same operators
/// there have the same value, wherever they stand.
pub proof fn lemma_eval_congruent(
    environment: EnvironmentModel,
    one: ExpressionModel,
    lo: int,
    other: ExpressionModel,
    other_lo: int,
    count: int,
    fuel: nat,
)
    requires
        0 <= lo,
        lo + count <= one.len(),
        0 <= other_lo,
        other_lo + count <= other.len(),
        forall|k: int| 0 <= k < count ==> (#[trigger] one[lo + k]).1 == other[other_lo + k].1,
        forall|k: int| 0 < k < count ==> (#[trigger] one[lo + k]).0 == other[other_lo + k].0,
    ensures
        eval(environment, one, lo, lo + count, fuel) == eval(
            environment,
            other,
            other_lo,
            other_lo + count,
            fuel,
        ),
    decreases count,
{
    if count == 1 {
        assert(one[lo + 0].1 == other[other_lo + 0].1);
    } else if count >= 2 {
        lemma_split_position_congruent(one, lo, other, other_lo, count);
        let at = split_position(one, lo, lo + count) - lo;
        assert(one[lo + at].0 == other[other_lo + at].0);
        assert forall|k: int| 0 <= k < count - at implies (#[trigger] one[lo + at + k]).1
            == other[other_lo + at + k].1 by {
            assert(one[lo + (at + k)].1 == other[other_lo + (at + k)].1);
        }
        assert forall|k: int| 0 < k < count - at implies (#[trigger] one[lo + at + k]).0
            == other[other_lo + at + k].0 by {
            assert(one[lo + (at + k)].0 == other[other_lo + (at + k)].0);
        }
        lemma_eval_congruent(environment, one, lo, other, other_lo, at, fuel);
        lemma_eval_congruent(environment, one, lo + at, other, other_lo + at, count - at, fuel);
    }
}

/// A part of an expression, taken as an expression of its own, has the
/// value that it has within the whole.
pub proof fn lemma_eval_of_slice(
    environment: EnvironmentModel,
    expression: ExpressionModel,
    lo: int,
    hi: int,
    fuel: nat,
)
    requires
        0 <= lo <= hi <= expression.len(),
    ensures
        eval(environment, slice(expression, lo, hi), 0, hi - lo, fuel) == eval(
            environment,
            expression,
            lo,
            hi,
            fuel,
        ),
{
    let part = slice(expression, lo, hi);
    assert forall|k: int| 0 <= k < hi - lo implies (#[trigger] part[0 + k]).1 == expression[lo
        + k].1 by {}
    assert forall|k: int| 0 < k < hi - lo implies (#[trigger] part[0 + k]).0 == expression[lo
        + k].0 by {}
    lemma_eval_congruent(environment, part, 0, expression, lo, hi - lo, fuel);
}

/// Parentheses around the whole of an expression do not change its value.
pub proof fn lemma_eval_of_unwrapped(
    environment: EnvironmentModel,
    expression: ExpressionModel,
    fuel: nat,
)
    ensures
        eval(environment, unwrapped(expression), 0, unwrapped(expression).len() as int, fuel)
            == eval(environment, expression, 0, expression.len() as int, fuel),
    decreases expression,
{
    if expression.len() == 1 && expression[0].1 is Paren {
        lemma_eval_of_unwrapped(environment, expression[0].1->Paren_0, fuel);
        assert(eval(environment, expression, 0, 1, fuel) == eval_term(
            environment,
            expression[0].1,
            fuel,
        ));
    } else {
        assert(expression.subrange(0, expression.len() as int) =~= expression);
        lemma_eval_of_slice(environment, expression, 0, expression.len() as int, fuel);
    }
}

/// A value that is reached with some bound on the nesting of applications
/// is reached with every greater bound.
pub proof fn lemma_eval_monotone(
    environment: EnvironmentModel,
    expression: ExpressionModel,
    lo: int,
    hi: int,
    fuel: nat,
    more: nat,
)
    requires
        fuel <= more,
        eval(environment, expression, lo, hi, fuel) is Ok,
    ensures
        eval(environment, expression, lo, hi, more) == eval(environment, expression, lo, hi, fuel),
    decreases fuel, expression, hi - lo, 1nat,
{
    if hi - lo == 1 {
        lemma_eval_term_monotone(environment, expression[lo].1, fuel, more);
    } else {
        let at = split_position(expression, lo, hi);
        lemma_eval_monotone(environment, expression, lo, at, fuel, more);
        lemma_eval_monotone(environment, expression, at, hi, fuel, more);
    }
}

/// A value of a term that is reached with some bound on the nesting of
/// applications is reached with every greater bound.
pub proof fn lemma_eval_term_monotone(
    environment: EnvironmentModel,
    term: TermModel,
    fuel: nat,
    more: nat,
)
    requires
        fuel <= more,
        eval_term(environment, term, fuel) is Ok,
    ensures
        eval_term(environment, term, more) == eval_term(environment, term, fuel),
    decreases fuel, term, 0nat, 0nat,
{
    match term {
        TermModel::Paren(inner) => {
            lemma_eval_monotone(environment, inner, 0, inner.len() as int, fuel, more);
        },
        TermModel::If(condition, then, otherwise) => {
            lemma_eval_monotone(environment, condition, 0, condition.len() as int, fuel, more);
            match eval(environment, condition, 0, condition.len() as int, fuel) {
                Ok(ValueModel::Bool(true)) => {
                    lemma_eval_monotone(environment, then, 0, then.len() as int, fuel, more);
                },
                Ok(ValueModel::Bool(false)) => {
                    lemma_eval_monotone(
                        environment,
                        otherwise,
                        0,
                        otherwise.len() as int,
                        fuel,
                        more,
                    );
                },
                _ => {},
            }
        },
        TermModel::Let(identifier, bound, body) => {
            lemma_eval_monotone(environment, bound, 0, bound.len() as int, fuel, more);
            let value = eval(environment, bound, 0, bound.len() as int, fuel)->Ok_0;
            lemma_eval_monotone(
                environment.push((identifier, value)),
                body,
                0,
                body.len() as int,
                fuel,
                more,
            );
        },
        TermModel::App(function, argument) => {
            match lookup(environment, function) {
                Some(ValueModel::Fun(parameter, body, captured)) => {
                    lemma_eval_monotone(
                        environment,
                        argument,
                        0,
                        argument.len() as int,
                        fuel,
                        more,
                    );
                    let value = eval(environment, argument, 0, argument.len() as int, fuel)->Ok_0;
                    lemma_eval_monotone(
                        captured.push((parameter, value)),
                        body,
                        0,
                        body.len() as int,
                        (fuel - 1) as nat,
                        (more - 1) as nat,
                    );
                },
                _ => {},
            }
        },
        _ => {},
    }
}

/// The greater of two numbers.
pub open spec fn greater(a: nat, b: nat) -> nat {
    if a < b {
        b
    } else {
        a
    }
}

impl RuleNode {
    /// How many applications are nested in the tree at most.
    pub open spec fn depth(self) -> nat
        decreases self,
    {
        match self {
            RuleNode::EVal(_) => 0,
            RuleNode::EVar(_) => 0,
            RuleNode::EIf(node) => greater(
                node.condition_premise.depth(),
                node.branch_premise.depth(),
            ),
            RuleNode::ELet(node) => greater(node.let_premise.depth(), node.in_premise.depth()),
            RuleNode::EBNode(node) => greater(node.premise1.depth(), node.premise2.depth()),
            RuleNode::EFun(_) => 0,
            RuleNode::EApp(node) => greater(
                node.argument_premise.depth(),
                node.body_premise.depth() + 1,
            ),
        }
    }
}

proof fn lemma_lookup_below_top(environment: EnvironmentModel, count: nat, name: Seq<char>)
    requires
        count < environment.len(),
    ensures
        lookup_in(environment, count, name) == lookup_in(environment.drop_last(), count, name),
    decreases count,
{
    if count > 0 {
        lemma_lookup_below_top(environment, (count - 1) as nat, name);
    }
}

/// A valid tree for a variable ends at once where the newest binding is
/// that of the variable (E-Var1), and else takes that one binding off and
/// goes on below it (E-Var2).
pub proof fn lemma_variable_rule(node: RuleNode)
    requires
        node.valid(),
        node is EVar,
    ensures
        node.environment().len() > 0,
        node.expression().len() == 1,
        node.expression()[0].1 is Var,
        node.environment().last().0 == node.expression()[0].1->Var_0 <==> node->EVar_0.premise
            is None,
        node->EVar_0.premise matches Some(premise) ==> premise.environment()
            == node.environment().drop_last() && premise.expression() == node.expression(),
{
}

/// A valid tree for a variable gives it the value of its newest binding.
pub proof fn lemma_valid_lookup(node: RuleNode)
    requires
        node.valid(),
        node is EVar,
    ensures
        node.expression().len() == 1,
        node.expression()[0].1 is Var,
        lookup(node.environment(), node.expression()[0].1->Var_0) == Some(node.value()),
    decreases node,
{
    let environment = node.environment();
    let name = node.expression()[0].1->Var_0;
    match node->EVar_0.premise {
        None => {},
        Some(premise) => {
            assert(*premise is EVar) by {
                if !(*premise is EVar) {
                    assert(premise.valid());
                    assert(premise.expression()[0].1 is Var);
                }
            }
            lemma_valid_lookup(*premise);
            lemma_lookup_below_top(environment, (environment.len() - 1) as nat, name);
        },
    }
}

/// The rules are sound: a valid tree gives its expression the value that
/// the expression evaluates to in the environment of the tree, with as
/// many applications nested as the tree is deep.
pub proof fn lemma_valid_tree_gives_the_value(node: RuleNode)
    requires
        node.valid(),
    ensures
        eval(
            node.environment(),
            node.expression(),
            0,
            node.expression().len() as int,
            node.depth(),
        ) == Ok::<ValueModel, Error>(node.value()),
    decreases node, 0nat,
{
    let environment = node.environment();
    let expression = node.expression();
    let fuel = node.depth();
    if expression.len() == 1 {
        assert(eval(environment, expression, 0, 1, fuel) == eval_term(
            environment,
            expression[0].1,
            fuel,
        ));
    }
    match node {
        RuleNode::EVal(_) => {},
        RuleNode::EVar(_) => {
            lemma_valid_lookup(node);
        },
        RuleNode::EFun(_) => {},
        RuleNode::EIf(inner) => {
            let condition = expression[0].1->If_0;
            let branch = if inner.taken {
                expression[0].1->If_1
            } else {
                expression[0].1->If_2
            };
            lemma_premise_value(*inner.condition_premise, condition, fuel);
            lemma_premise_value(*inner.branch_premise, branch, fuel);
        },
        RuleNode::ELet(inner) => {
            lemma_premise_value(*inner.let_premise, expression[0].1->Let_1, fuel);
            lemma_premise_value(*inner.in_premise, expression[0].1->Let_2, fuel);
        },
        RuleNode::EBNode(inner) => {
            let len = expression.len() as int;
            let at = split_position(expression, 0, len);
            assert forall|k: int| 0 < k < len implies (#[trigger] expression[0 + k]).0
                == expression[0 + k].0 by {}
            lemma_split_position_congruent(expression, 0, expression, 0, len);
            lemma_premise_value(*inner.premise1, slice(expression, 0, at), fuel);
            lemma_premise_value(*inner.premise2, slice(expression, at, len), fuel);
            lemma_eval_of_slice(environment, expression, 0, at, fuel);
            lemma_eval_of_slice(environment, expression, at, len, fuel);
        },
        RuleNode::EApp(inner) => {
            let function = expression[0].1->App_0;
            let argument = expression[0].1->App_1;
            assert(*inner.function_premise is EVar) by {
                if !(*inner.function_premise is EVar) {
                    assert(inner.function_premise.valid());
                    assert(inner.function_premise.expression()[0].1 is Var);
                }
            }
            lemma_valid_lookup(*inner.function_premise);
            let body = inner.function_premise.value()->Fun_1;
            lemma_premise_value(*inner.argument_premise, argument, fuel);
            lemma_premise_value(*inner.body_premise, body, (fuel - 1) as nat);
        },
    }
}

/// The value that a valid premise for an expression without its outer
/// parentheses gives is the value of the expression, with any bound on the
/// nesting that is no less than the depth of the premise.
proof fn lemma_premise_value(premise: RuleNode, expression: ExpressionModel, fuel: nat)
    requires
        premise.valid(),
        premise.expression() == unwrapped(expression),
        premise.depth() <= fuel,
    ensures
        eval(premise.environment(), expression, 0, expression.len() as int, fuel) == Ok::<
            ValueModel,
            Error,
        >(premise.value()),
    decreases premise, 1nat,
{
    lemma_valid_tree_gives_the_value(premise);
    lemma_eval_monotone(
        premise.environment(),
        premise.expression(),
        0,
        premise.expression().len() as int,
        premise.depth(),
        fuel,
    );
    lemma_eval_of_unwrapped(premise.environment(), expression, fuel);
}


/// A judgement has one derivation only: two valid trees for the same
/// expression in the same environment give it the same value and are
/// written the same.
pub proof fn lemma_valid_tree_is_unique(a: RuleNode, b: RuleNode, indent: Seq<char>)
    requires
        a.valid(),
        b.valid(),
        a.environment() == b.environment(),
        a.expression() == b.expression(),
    ensures
        a.value() == b.value(),
        a.text(indent) == b.text(indent),
    decreases a,
{
    let inner = super::nodes::writer::deeper(indent);
    match (a, b) {
        (RuleNode::EVal(x), RuleNode::EVal(y)) => {},
        (RuleNode::EFun(x), RuleNode::EFun(y)) => {},
        (RuleNode::EVar(x), RuleNode::EVar(y)) => {
            lemma_valid_lookup(a);
            lemma_valid_lookup(b);
            match (x.premise, y.premise) {
                (Some(p), Some(q)) => {
                    lemma_valid_tree_is_unique(*p, *q, inner);
                },
                _ => {},
            }
        },
        (RuleNode::EIf(x), RuleNode::EIf(y)) => {
            lemma_valid_tree_is_unique(*x.condition_premise, *y.condition_premise, inner);
            lemma_valid_tree_is_unique(*x.branch_premise, *y.branch_premise, inner);
        },
        (RuleNode::ELet(x), RuleNode::ELet(y)) => {
            lemma_valid_tree_is_unique(*x.let_premise, *y.let_premise, inner);
            lemma_valid_tree_is_unique(*x.in_premise, *y.in_premise, inner);
        },
        (RuleNode::EBNode(x), RuleNode::EBNode(y)) => {
            lemma_valid_tree_is_unique(*x.premise1, *y.premise1, inner);
            lemma_valid_tree_is_unique(*x.premise2, *y.premise2, inner);
        },
        (RuleNode::EApp(x), RuleNode::EApp(y)) => {
            lemma_valid_tree_is_unique(*x.function_premise, *y.function_premise, inner);
            lemma_valid_tree_is_unique(*x.argument_premise, *y.argument_premise, inner);
            lemma_valid_tree_is_unique(*x.body_premise, *y.body_premise, inner);
        },
        _ => {},
    }
}

} // verus!

//! The tokens of an expression, and the law that the builder loses
//! nothing: the tokens that it consumes are the tokens of what it builds,
//! operators and parentheses included.

use vstd::prelude::*;
use super::expression::{ExpressionModel, read_expression, read_more};
use super::lexer::{Operator, TokenModel};
use super::terms::{TermModel, read_binding, read_term};

verus! {

/// The token of the operator in front of a term: none in front of the
/// first.
pub open spec fn operator_tokens(operator: Operator) -> Seq<TokenModel> {
    if operator == Operator::Empty {
        Seq::empty()
    } else {
        seq![TokenModel::Op(operator)]
    }
}

/// The tokens that write a term.
pub open spec fn term_tokens(term: TermModel) -> Seq<TokenModel>
    decreases term,
{
    match term {
        TermModel::Val(i) => seq![TokenModel::Int(i)],
        TermModel::Bool(b) => seq![TokenModel::Bool(b)],
        TermModel::Var(name) => seq![TokenModel::Var(name)],
        TermModel::Paren(inner) => seq![TokenModel::PS] + expression_tokens(inner, inner.len())
            + seq![TokenModel::PE],
        TermModel::If(condition, then, otherwise) => seq![TokenModel::IF] + expression_tokens(
            condition,
            condition.len(),
        ) + seq![TokenModel::THEN] + expression_tokens(then, then.len()) + seq![TokenModel::ELSE]
            + expression_tokens(otherwise, otherwise.len()),
        TermModel::Let(identifier, bound, body) => seq![
            TokenModel::LET,
            TokenModel::Var(identifier),
            TokenModel::EQ,
        ] + expression_tokens(bound, bound.len()) + seq![TokenModel::IN] + expression_tokens(
            body,
            body.len(),
        ),
        TermModel::Fun(parameter, body) => seq![
            TokenModel::FUN,
            TokenModel::Var(parameter),
            TokenModel::ARROW,
        ] + expression_tokens(body, body.len()),
        TermModel::App(function, argument) => seq![TokenModel::Var(function)]
            + expression_tokens(argument, argument.len()),
    }
}

/// The tokens that write the first `count` terms of an expression, each
/// behind its operator.
pub open spec fn expression_tokens(expression: ExpressionModel, count: nat) -> Seq<TokenModel>
    decreases expression, count,
{
    if count == 0 || count > expression.len() {
        Seq::empty()
    } else {
        expression_tokens(expression, (count - 1) as nat) + operator_tokens(
            expression[count - 1].0,
        ) + term_tokens(expression[count - 1].1)
    }
}

proof fn lemma_tokens_of_prefix(expression: ExpressionModel, longer: ExpressionModel, count: nat)
    requires
        count <= expression.len() <= longer.len(),
        forall|i: int| 0 <= i < expression.len() ==> expression[i] == longer[i],
    ensures
        expression_tokens(expression, count) == expression_tokens(longer, count),
    decreases count,
{
    if count > 0 {
        lemma_tokens_of_prefix(expression, longer, (count - 1) as nat);
    }
}

/// The tokens of a term that the builder reads are the tokens that it
/// consumes.
pub proof fn lemma_read_term_tokens(s: Seq<TokenModel>, i: int)
    requires
        read_term(s, i) is Some,
    ensures
        i < read_term(s, i)->Some_0.1 <= s.len(),
        s.subrange(i, read_term(s, i)->Some_0.1) == term_tokens(read_term(s, i)->Some_0.0),
    decreases s.len() - i, 1nat,
{
    let (term, end) = read_term(s, i)->Some_0;
    match s[i] {
        TokenModel::Int(value) => {
            assert(s.subrange(i, end) =~= term_tokens(term));
        },
        TokenModel::Bool(b) => {
            assert(s.subrange(i, end) =~= term_tokens(term));
        },
        TokenModel::Var(name) => {
            if i + 1 < s.len() && super::terms::starts_term(s[i + 1]) {
                lemma_read_term_tokens(s, i + 1);
                let (argument, _) = read_term(s, i + 1)->Some_0;
                let whole = seq![(Operator::Empty, argument)];
                assert(expression_tokens(whole, 1) =~= term_tokens(argument)) by {
                    assert(expression_tokens(whole, 0) =~= Seq::<TokenModel>::empty());
                }
                assert(s.subrange(i, end) =~= seq![s[i]] + s.subrange(i + 1, end));
            } else {
                assert(s.subrange(i, end) =~= term_tokens(term));
            }
        },
        TokenModel::PS => {
            lemma_read_expression_tokens(s, i + 1);
            let (inner, at_close) = read_expression(s, i + 1)->Some_0;
            assert(s.subrange(i, end) =~= seq![s[i]] + s.subrange(i + 1, at_close) + seq![
                s[at_close],
            ]);
        },
        TokenModel::IF => {
            lemma_read_expression_tokens(s, i + 1);
            let (condition, at_then) = read_expression(s, i + 1)->Some_0;
            lemma_read_expression_tokens(s, at_then + 1);
            let (then, at_else) = read_expression(s, at_then + 1)->Some_0;
            lemma_read_expression_tokens(s, at_else + 1);
            assert(s.subrange(i, end) =~= seq![s[i]] + s.subrange(i + 1, at_then) + seq![
                s[at_then],
            ] + s.subrange(at_then + 1, at_else) + seq![s[at_else]] + s.subrange(
                at_else + 1,
                end,
            ));
        },
        TokenModel::LET => {
            let (identifier, bound, at_in) = read_binding(s, i + 1)->Some_0;
            lemma_read_expression_tokens(s, i + 3);
            lemma_read_expression_tokens(s, at_in + 1);
            assert(s.subrange(i, end) =~= seq![s[i], s[i + 1], s[i + 2]] + s.subrange(
                i + 3,
                at_in,
            ) + seq![s[at_in]] + s.subrange(at_in + 1, end));
        },
        TokenModel::FUN => {
            lemma_read_expression_tokens(s, i + 3);
            assert(s.subrange(i, end) =~= seq![s[i], s[i + 1], s[i + 2]] + s.subrange(
                i + 3,
                end,
            ));
        },
        _ => {},
    }
}

/// The tokens of an expression that the builder reads are the tokens that
/// it consumes: what is written again from the expression has the
/// operators and the parentheses of what was read.
pub proof fn lemma_read_expression_tokens(s: Seq<TokenModel>, i: int)
    requires
        read_expression(s, i) is Some,
    ensures
        i < read_expression(s, i)->Some_0.1 <= s.len(),
        s.subrange(i, read_expression(s, i)->Some_0.1) == expression_tokens(
            read_expression(s, i)->Some_0.0,
            read_expression(s, i)->Some_0.0.len(),
        ),
    decreases s.len() - i, 3nat,
{
    lemma_read_term_tokens(s, i);
    let (first, next) = read_term(s, i)->Some_0;
    let found = seq![(Operator::Empty, first)];
    assert(expression_tokens(found, 1) =~= term_tokens(first)) by {
        assert(expression_tokens(found, 0) =~= Seq::<TokenModel>::empty());
    }
    lemma_read_more_tokens(s, i, next, found);
}

proof fn lemma_read_more_tokens(s: Seq<TokenModel>, start: int, i: int, found: ExpressionModel)
    requires
        0 <= start < i <= s.len(),
        s.subrange(start, i) == expression_tokens(found, found.len()),
        read_more(s, i, found) is Some,
    ensures
        i <= read_more(s, i, found)->Some_0.1 <= s.len(),
        s.subrange(start, read_more(s, i, found)->Some_0.1) == expression_tokens(
            read_more(s, i, found)->Some_0.0,
            read_more(s, i, found)->Some_0.0.len(),
        ),
    decreases s.len() - i, 2nat,
{
    if i < s.len() {
        match s[i] {
            TokenModel::Op(operator) => {
                lemma_read_term_tokens(s, i + 1);
                let (term, next) = read_term(s, i + 1)->Some_0;
                let longer = found.push((operator, term));
                lemma_tokens_of_prefix(found, longer, found.len());
                assert(s.subrange(start, next) =~= s.subrange(start, i) + seq![s[i]]
                    + s.subrange(i + 1, next));
                lemma_read_more_tokens(s, start, next, longer);
            },
            _ => {},
        }
    }
}

} // verus!

//! The ML-like evaluation judgement with environments, conditionals and
//! `let`, and without functions: `x = v, ... |- e evalto v`.
//!
//! Its expressions, environments and rules are those of the judgement with
//! functions; an expression that holds a function or an application is not
//! of this family.
//!
//! Like that family, this one has no rules for ill-typed expressions: an
//! operation on a truth value and a condition that is an integer have no
//! derivation and are reported as [`Error::NoRule`].

use vstd::prelude::*;
use crate::error::Error;
use crate::parser_evalml3::expression::{Expression, ExpressionModel};
use crate::parser_evalml3::lexer::{Lexer, TokenModel, Tokens, lexed, token_table};
use crate::pattern::{alternation, regex_compiles};
use crate::parser_evalml3::nodes::RuleNode;
use crate::parser_evalml3::terms::{Term, TermModel};
use crate::parser_evalml3::{parse_judgement, read_judgement};

verus! {

/// Whether no term of the expression is a function or an application.
pub open spec fn first_order(expression: ExpressionModel) -> bool
    decreases expression,
{
    forall|i: int|
        0 <= i < expression.len() ==> term_first_order(#[trigger] expression[i].1)
}

/// Whether the term is neither a function nor an application, nor holds
/// one.
pub open spec fn term_first_order(term: TermModel) -> bool
    decreases term,
{
    match term {
        TermModel::Val(_) => true,
        TermModel::Bool(_) => true,
        TermModel::Var(_) => true,
        TermModel::Paren(inner) => first_order(inner),
        TermModel::If(condition, then, otherwise) => first_order(condition) && first_order(then)
            && first_order(otherwise),
        TermModel::Let(_, bound, body) => first_order(bound) && first_order(body),
        TermModel::Fun(_, _) => false,
        TermModel::App(_, _) => false,
    }
}

/// Whether no term of the expression is a function or an application.
pub fn is_first_order(expression: &Expression) -> (r: bool)
    ensures
        r == first_order(expression@),
    decreases expression, 1nat,
{
    let mut i: usize = 0;
    while i < expression.terms.len()
        invariant
            i <= expression.terms.len(),
            forall|k: int| 0 <= k < i ==> term_first_order(#[trigger] expression@[k].1),
        decreases expression.terms.len() - i,
    {
        if !is_term_first_order(&expression.terms[i].1) {
            assert(!term_first_order(expression@[i as int].1));
            return false;
        }
        i += 1;
    }
    true
}

/// Whether the term is neither a function nor an application, nor holds
/// one.
pub fn is_term_first_order(term: &Term) -> (r: bool)
    ensures
        r == term_first_order(term@),
    decreases term, 0nat,
{
    match term {
        Term::Val(_) => true,
        Term::Bool(_) => true,
        Term::Var(_) => true,
        Term::Paren(inner) => is_first_order(inner),
        Term::If(term) => is_first_order(&term.condition_expression) && is_first_order(
            &term.then_expression,
        ) && is_first_order(&term.else_expression),
        Term::Let(term) => is_first_order(&term.let_expression.expression) && is_first_order(
            &term.in_expression,
        ),
        Term::Fun(_) => false,
        Term::App(_) => false,
    }
}

/// Whether `r` is what deriving the judgement at the front of `tokens`
/// gives: what the judgement with functions gives for it, where its
/// expression holds neither a function nor an application.
pub open spec fn derivation_of(tokens: Seq<TokenModel>, r: Result<String, Error>) -> bool {
    match read_judgement(tokens) {
        Some((_, expression)) => if first_order(expression) {
            crate::parser_evalml3::derivation_of(tokens, 0, r)
        } else {
            r == Err::<String, Error>(Error::Syntax)
        },
        None => r == Err::<String, Error>(Error::Syntax),
    }
}

/// Derives the judgement at the front of the tokens and renders the
/// derivation tree, the root at depth 0 and closed by a newline.
pub fn derive_tokens(tokens: Tokens) -> (r: Result<String, Error>)
    ensures
        derivation_of(tokens@, r),
{
    let (environment, expression) = match parse_judgement(&tokens) {
        Ok(found) => found,
        Err(e) => return Err(e),
    };
    if !is_first_order(&expression) {
        return Err(Error::Syntax);
    }
    match RuleNode::new(environment, expression, 0) {
        Ok(node) => Ok(node.show(0, true)),
        Err(e) => Err(e),
    }
}

/// Derives a judgement, given as text, and renders the derivation tree.
/// Nothing is derived where the `regex` crate does not take the token
/// patterns.
pub fn derive(judgement: &str) -> (r: Result<String, Error>)
    ensures
        if regex_compiles(alternation(token_table(), token_table().len())) {
            match lexed(judgement@) {
                Ok(tokens) => derivation_of(tokens, r),
                Err(e) => r == Err::<String, Error>(e),
            }
        } else {
            r == Err::<String, Error>(Error::Pattern)
        },
{
    let lexer = match Lexer::new() {
        Ok(lexer) => lexer,
        Err(e) => return Err(e),
    };
    match lexer.lex(judgement) {
        Ok(tokens) => derive_tokens(tokens),
        Err(e) => Err(e),
    }
}

} // verus!

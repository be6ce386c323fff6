//! The ML-like evaluation judgement with environments, conditionals,
//! `let` and functions:
//! `x = v, ... |- e evalto v`.
//!
//! This family has no rules for ill-typed expressions. An operation on a
//! value that is no integer, a condition that is no truth value and the
//! application of a value that is no function have no derivation: they are
//! reported as [`Error::NoRule`], and nothing evaluates to `error`. The
//! rules that derive `evalto error` are those of the family without
//! environment, [`crate::parser_evalml1`].

pub mod lexer;
pub mod terms;
pub mod expression;
pub mod retokenize;
pub mod spacing;
pub mod value;
pub mod environment;
pub mod nodes;
pub mod soundness;

use vstd::prelude::*;
use self::environment::{Environment, EnvironmentModel, read_environment};
use self::expression::{Expression, ExpressionModel, read_expression, unwrapped};
use self::lexer::{Lexer, Token, TokenModel, Tokens, is_at, lexed, token_table};
use crate::pattern::{alternation, regex_compiles};
use self::nodes::{RuleNode, eval};
use crate::error::Error;
use crate::util::{line_end, spaces};

verus! {

/// How many applications of functions may be nested in a derivation that
/// `derive` builds.
pub const DEPTH_LIMIT: usize = 256;

/// The environment and the expression of the judgement `E |- e evalto v`
/// at the front of `s`. What stands behind `evalto` is not read.
pub open spec fn read_judgement(s: Seq<TokenModel>) -> Option<(EnvironmentModel, ExpressionModel)> {
    match read_environment(s) {
        Some((environment, at_turnstile)) => match read_expression(s, at_turnstile + 1) {
            Some((expression, at_evalto)) => if 0 <= at_evalto < s.len() && s[at_evalto]
                == TokenModel::Eval {
                Some((environment, expression))
            } else {
                None
            },
            None => None,
        },
        None => None,
    }
}

/// Whether `r` is what deriving the judgement at the front of `tokens`
/// gives, with at most `fuel` applications nested: the text of a valid
/// derivation tree that gives the expression its value in the environment,
/// or the reason why it has none.
pub open spec fn derivation_of(tokens: Seq<TokenModel>, fuel: nat, r: Result<String, Error>) -> bool {
    match read_judgement(tokens) {
        None => r == Err::<String, Error>(Error::Syntax),
        Some((environment, expression)) => match eval(
            environment,
            expression,
            0,
            expression.len() as int,
            fuel,
        ) {
            Ok(value) => r is Ok && exists|node: RuleNode|
                {
                    &&& #[trigger] node.valid()
                    &&& node.concludes(environment, unwrapped(expression), value)
                    &&& r->Ok_0@ == node.text(spaces(0)) + line_end(true)
                },
            Err(e) => r == Err::<String, Error>(e),
        },
    }
}

/// Reads the judgement at the front of the tokens: its environment and its
/// expression.
pub fn parse_judgement(tokens: &Tokens) -> (r: Result<(Environment, Expression), Error>)
    ensures
        match read_judgement(tokens@) {
            Some((environment, expression)) => r is Ok && r->Ok_0.0@ == environment
                && r->Ok_0.1@ == expression,
            None => r == Err::<(Environment, Expression), Error>(Error::Syntax),
        },
{
    let (environment, at_turnstile) = match Environment::parse(&tokens.tokens) {
        Ok(found) => found,
        Err(e) => return Err(e),
    };
    let (expression, at_evalto) = match Expression::parse(&tokens.tokens, at_turnstile + 1) {
        Ok(found) => found,
        Err(e) => return Err(e),
    };
    if is_at(&tokens.tokens, at_evalto, &Token::Eval) {
        Ok((environment, expression))
    } else {
        Err(Error::Syntax)
    }
}

/// Derives the judgement at the front of the tokens, with at most `fuel`
/// applications nested, and renders the derivation tree, the root at depth
/// 0 and closed by a newline.
pub fn derive_tokens(tokens: Tokens, fuel: usize) -> (r: Result<String, Error>)
    ensures
        derivation_of(tokens@, fuel as nat, r),
{
    let (environment, expression) = match parse_judgement(&tokens) {
        Ok(found) => found,
        Err(e) => return Err(e),
    };
    match RuleNode::new(environment, expression, fuel) {
        Ok(node) => Ok(node.show(0, true)),
        Err(e) => Err(e),
    }
}

/// Derives a judgement, given as text, and renders the derivation tree.
/// Nothing is derived where the `regex` crate does not take the token
/// patterns.
pub fn derive(judgement: &str) -> (r: Result<String, Error>)
    ensures
        if regex_compiles(alternation(token_table(), token_table().len())) {
            match lexed(judgement@) {
                Ok(tokens) => derivation_of(tokens, DEPTH_LIMIT as nat, r),
                Err(e) => r == Err::<String, Error>(e),
            }
        } else {
            r == Err::<String, Error>(Error::Pattern)
        },
{
    let lexer = match Lexer::new() {
        Ok(lexer) => lexer,
        Err(e) => return Err(e),
    };
    match lexer.lex(judgement) {
        Ok(tokens) => derive_tokens(tokens, DEPTH_LIMIT),
        Err(e) => Err(e),
    }
}

} // verus!

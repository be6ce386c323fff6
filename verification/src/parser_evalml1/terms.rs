//! The terms of the expressions without variables: they are the terms of
//! the richer ML-like expressions, of which this family uses literals,
//! parentheses, conditionals and the four operators.

use vstd::prelude::*;
use crate::error::Error;
use crate::parser_evalml3::lexer::Tokens;
use crate::parser_evalml3::terms::{TermModel, read_term};

verus! {

/// A sequence of terms joined by operators.
pub type Terms = crate::parser_evalml3::expression::Expression;

/// What a sequence of terms stands for.
pub type TermsModel = crate::parser_evalml3::expression::ExpressionModel;

/// One term of a sequence.
pub type Term = crate::parser_evalml3::terms::Term;

/// The three expressions of a conditional.
pub type IfTerms = crate::parser_evalml3::terms::IfTerm;

impl IfTerms {
    /// Builds the conditional at the front of the tokens and consumes it.
    /// Where the tokens start with another term, or with none, nothing is
    /// consumed.
    pub fn new(tokens: &mut Tokens) -> (r: Result<IfTerms, Error>)
        ensures
            match read_term(old(tokens)@, 0) {
                Some((TermModel::If(condition, then, otherwise), end)) => {
                    &&& r is Ok
                    &&& r->Ok_0.condition_expression@ == condition
                    &&& r->Ok_0.then_expression@ == then
                    &&& r->Ok_0.else_expression@ == otherwise
                    &&& final(tokens)@ == old(tokens)@.skip(end)
                },
                _ => r == Err::<IfTerms, Error>(Error::Syntax) && final(tokens)@ == old(tokens)@,
            },
    {
        match Term::parse(&tokens.tokens, 0) {
            Ok((Term::If(term), end)) => {
                tokens.advance(end);
                Ok(term)
            },
            _ => Err(Error::Syntax),
        }
    }
}

} // verus!

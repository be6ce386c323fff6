//! The evaluation judgement `e evalto v` for expressions of integers and
//! truth values, in which an ill-typed expression evaluates to `error`.

pub mod terms;
pub mod value;
pub mod nodes;

use vstd::prelude::*;
use self::nodes::{RuleNode, read_judgement, value_in};
use crate::error::Error;
use crate::parser_evalml3::expression::{lemma_unwrapped_clear_first, unwrapped};
use crate::parser_evalml3::lexer::{Lexer, TokenModel, Tokens, lexed, token_table};
use crate::pattern::{alternation, regex_compiles};
use crate::util::{line_end, spaces};

verus! {

/// Whether `r` is what deriving the judgement at the front of `tokens`
/// gives: the text of a valid derivation tree that gives the expression its
/// value, or the reason why the expression has none.
pub open spec fn derivation_of(tokens: Seq<TokenModel>, r: Result<String, Error>) -> bool {
    match read_judgement(tokens) {
        None => r == Err::<String, Error>(Error::Syntax),
        Some((terms, _)) => match value_in(terms, 0, terms.len() as int) {
            Ok(value) => r is Ok && exists|node: RuleNode|
                {
                    &&& #[trigger] node.valid()
                    &&& node.left_first()
                    &&& node.subject() == unwrapped(terms)
                    &&& node.value() == value
                    &&& r->Ok_0@ == node.text(spaces(0)) + line_end(true)
                },
            Err(e) => r == Err::<String, Error>(e),
        },
    }
}

/// Derives the judgement at the front of the tokens and renders the
/// derivation tree, the root at depth 0 and closed by a newline.
pub fn derive_tokens(tokens: Tokens) -> (r: Result<String, Error>)
    ensures
        derivation_of(tokens@, r),
{
    let mut tokens = tokens;
    proof {
        match read_judgement(tokens@) {
            Some((terms, _)) => {
                assert(terms.subrange(0, terms.len() as int) =~= terms);
                lemma_unwrapped_clear_first(terms);
            },
            None => {},
        }
    }
    match RuleNode::new(&mut tokens) {
        Ok(node) => Ok(node.show(0, true)),
        Err(e) => Err(e),
    }
}

/// Derives a judgement, given as text, and renders the derivation tree.
/// Nothing is derived where the `regex` crate does not take the token
/// patterns.
pub fn derive(judgement: &str) -> (r: Result<String, Error>)
    ensures
        if regex_compiles(alternation(token_table(), token_table().len())) {
            match lexed(judgement@) {
                Ok(tokens) => derivation_of(tokens, r),
                Err(e) => r == Err::<String, Error>(e),
            }
        } else {
            r == Err::<String, Error>(Error::Pattern)
        },
{
    let lexer = match Lexer::new() {
        Ok(lexer) => lexer,
        Err(e) => return Err(e),
    };
    match lexer.lex(judgement) {
        Ok(tokens) => derive_tokens(tokens),
        Err(e) => Err(e),
    }
}

} // verus!

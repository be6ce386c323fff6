//! The judgements over Peano numerals: from a judgement as text to the text
//! of its derivation.

pub mod parser_nat;
pub mod parser_compnat1;
pub mod parser_compnat2;
pub mod parser_compnat3;
pub mod parser_evalnatexp;
pub mod parser_reducenatexp;
pub mod spacing;

use vstd::prelude::*;
use crate::error::Error;
use crate::lexer::{Lexer, Token, Tokens, lexed, read_comparison, token_table};
use crate::pattern::{alternation, regex_compiles};
use crate::util::spaces;

verus! {

/// The families of judgements over Peano numerals.
#[derive(Debug, Clone, Copy, PartialEq, Eq, Structural)]
pub enum DerivationRules {
    /// `n1 plus n2 is n3`, `n1 times n2 is n3`
    Nat,
    /// `n1 is less than n2`, by L-Succ and L-Trans
    CompNat1,
    /// `n1 is less than n2`, by L-Zero and L-SuccSucc
    CompNat2,
    /// `n1 is less than n2`, by L-Succ and L-SuccR
    CompNat3,
    /// `e evalto n`
    EvalNatExp,
    /// `e -*-> e'`, `e -d-> e'`, `e ---> e'`
    ReduceNatExp,
}

/// Whether `r` is what deriving the judgement at the front of `tokens` gives
/// in the family `rules`: the text of a valid derivation tree of that
/// judgement, or the reason why the family has none.
pub open spec fn derivation_of(
    tokens: Seq<Token>,
    rules: DerivationRules,
    r: Result<String, Error>,
) -> bool {
    match rules {
        DerivationRules::Nat => match parser_nat::read_judgement(tokens) {
            None => r == Err::<String, Error>(Error::Syntax),
            Some(stated) => if stated.overflows() {
                r == Err::<String, Error>(Error::Overflow)
            } else {
                r is Ok && exists|node: parser_nat::RuleNode|
                    {
                        &&& #[trigger] node.valid()
                        &&& node.conclusion() == stated.derived()
                        &&& r->Ok_0@ == node.text(spaces(0), true)
                    }
            },
        },
        DerivationRules::CompNat1 => match read_comparison(tokens) {
            None => r == Err::<String, Error>(Error::Syntax),
            Some((n1, n2, _)) => if n1 < n2 {
                r is Ok && exists|node: parser_compnat1::RuleNode|
                    {
                        &&& #[trigger] node.valid()
                        &&& node.stepwise()
                        &&& node.lesser() == n1
                        &&& node.greater() == n2
                        &&& r->Ok_0@ == node.text(spaces(0), true)
                    }
            } else {
                r == Err::<String, Error>(Error::NoRule)
            },
        },
        DerivationRules::CompNat2 => match read_comparison(tokens) {
            None => r == Err::<String, Error>(Error::Syntax),
            Some((n1, n2, _)) => if n1 < n2 {
                r is Ok && exists|node: parser_compnat2::RuleNode|
                    {
                        &&& #[trigger] node.valid()
                        &&& node.lesser() == n1
                        &&& node.greater() == n2
                        &&& r->Ok_0@ == node.text(spaces(0), true)
                    }
            } else {
                r == Err::<String, Error>(Error::NoRule)
            },
        },
        DerivationRules::CompNat3 => match read_comparison(tokens) {
            None => r == Err::<String, Error>(Error::Syntax),
            Some((n1, n2, _)) => if n1 < n2 {
                r is Ok && exists|node: parser_compnat3::RuleNode|
                    {
                        &&& #[trigger] node.valid()
                        &&& node.lesser() == n1
                        &&& node.greater() == n2
                        &&& r->Ok_0@ == node.text(spaces(0), true)
                    }
            } else {
                r == Err::<String, Error>(Error::NoRule)
            },
        },
        DerivationRules::EvalNatExp => match parser_evalnatexp::read_judgement(tokens) {
            None => r == Err::<String, Error>(Error::Syntax),
            Some((terms, _, _)) => match parser_evalnatexp::value_in(
                terms,
                0,
                terms.len() as int,
            ) {
                Ok(n) => r is Ok && exists|node: parser_evalnatexp::RuleNode|
                    {
                        &&& #[trigger] node.valid()
                        &&& node.subject() == parser_evalnatexp::unwrapped(terms)
                        &&& node.value() == n
                        &&& r->Ok_0@ == node.text(spaces(0), true)
                    },
                Err(e) => r == Err::<String, Error>(e),
            },
        },
        DerivationRules::ReduceNatExp => match parser_reducenatexp::read_judgement(tokens) {
            None => r == Err::<String, Error>(Error::Syntax),
            Some((stated, _)) => if parser_reducenatexp::derivable(stated) {
                r is Ok && exists|node: parser_reducenatexp::RuleNode|
                    {
                        &&& #[trigger] node.valid()
                        &&& node.conclusion() == stated
                        &&& r->Ok_0@ == node.text(spaces(0), true)
                    }
            } else {
                r == Err::<String, Error>(Error::NoRule)
            },
        },
    }
}

/// The result that a judgement over `plus` or `times` claims is not read:
/// what is derived for one judgement is derived for every judgement of the
/// same two numbers and the same operator.
pub proof fn lemma_claim_is_not_read(tokens: Seq<Token>, other: Seq<Token>, r: Result<String, Error>)
    requires
        parser_nat::read_judgement(tokens) is Some,
        parser_nat::read_judgement(other) is Some,
        parser_nat::read_judgement(tokens)->Some_0.n1 == parser_nat::read_judgement(
            other,
        )->Some_0.n1,
        parser_nat::read_judgement(tokens)->Some_0.operator == parser_nat::read_judgement(
            other,
        )->Some_0.operator,
        parser_nat::read_judgement(tokens)->Some_0.n2 == parser_nat::read_judgement(
            other,
        )->Some_0.n2,
        derivation_of(tokens, DerivationRules::Nat, r),
    ensures
        derivation_of(other, DerivationRules::Nat, r),
{
}

/// Derives the judgement at the front of the tokens in the given family and
/// renders the derivation tree, the root at depth 0 and closed by a newline.
pub fn derive_tokens(tokens: Tokens, derivation_rules: DerivationRules) -> (r: Result<
    String,
    Error,
>)
    ensures
        derivation_of(tokens@, derivation_rules, r),
{
    let mut tokens = tokens;
    match derivation_rules {
        DerivationRules::Nat => match parser_nat::RuleNode::new(&mut tokens) {
            Ok(node) => Ok(node.show(0, true)),
            Err(e) => Err(e),
        },
        DerivationRules::CompNat1 => match parser_compnat1::RuleNode::new(&mut tokens) {
            Ok(node) => Ok(node.show(0, true)),
            Err(e) => Err(e),
        },
        DerivationRules::CompNat2 => match parser_compnat2::RuleNode::new(&mut tokens) {
            Ok(node) => Ok(node.show(0, true)),
            Err(e) => Err(e),
        },
        DerivationRules::CompNat3 => match parser_compnat3::RuleNode::new(&mut tokens) {
            Ok(node) => Ok(node.show(0, true)),
            Err(e) => Err(e),
        },
        DerivationRules::EvalNatExp => match parser_evalnatexp::RuleNode::new(&mut tokens) {
            Ok(node) => Ok(node.show(0, true)),
            Err(e) => Err(e),
        },
        DerivationRules::ReduceNatExp => match parser_reducenatexp::RuleNode::new(&mut tokens) {
            Ok(node) => Ok(node.show(0, true)),
            Err(e) => Err(e),
        },
    }
}

/// Derives a judgement, given as text, in the given family and renders the
/// derivation tree. Nothing is derived where the `regex` crate does not
/// take the token patterns.
pub fn derive(judgement: &str, derivation_rules: DerivationRules) -> (r: Result<String, Error>)
    ensures
        if regex_compiles(alternation(token_table(), token_table().len())) {
            match lexed(judgement@) {
                Ok(tokens) => derivation_of(tokens, derivation_rules, r),
                Err(e) => r == Err::<String, Error>(e),
            }
        } else {
            r == Err::<String, Error>(Error::Pattern)
        },
{
    let lexer = match Lexer::new() {
        Ok(lexer) => lexer,
        Err(e) => return Err(e),
    };
    match lexer.lex(judgement) {
        Ok(tokens) => derive_tokens(tokens, derivation_rules),
        Err(e) => Err(e),
    }
}

} // verus!

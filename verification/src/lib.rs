//! Derivation trees for small operational semantics: Peano arithmetic,
//! comparison of naturals, evaluation and reduction of arithmetic
//! expressions, and three ML-like evaluation judgements.
//!
//! Every family follows the same pipeline: a judgement is split into tokens,
//! the tokens are built into terms, a rule is selected for each sub-judgement
//! and the resulting tree is rendered as indented, brace-delimited text.
//!
//! ```text
//! 3 + 5 evalto 8 by E-Plus {
//!   3 evalto 3 by E-Int {};
//!   5 evalto 5 by E-Int {};
//!   3 plus 5 is 8 by B-Plus {}
//! }
//! ```
//!
//! What is proved of a family is stated over its rules: a tree is valid
//! where every node is an instance of its rule, the selection builds valid
//! trees only, and a valid tree concludes what is true of the numbers or
//! what the expression evaluates to. A judgement that has no derivation is
//! reported as an [`error::Error`]. An ill-typed expression evaluates to
//! `error` by rules of its own in [`parser_evalml1`]; the families with
//! environments have no such rules, and there it has no derivation.
//!
//! - [`chapter1`]: the judgements over Peano numerals.
//! - [`parser_evalml1`]: expressions of integers and truth values, with
//!   rules for ill-typed expressions.
//! - [`parser_evalml2`]: expressions with variables, in an environment.
//! - [`parser_evalml3`]: expressions with functions and applications.
//! - [`pattern`] and the two lexers: tokens, found with the `regex` crate.

pub mod error;
pub mod util;
pub mod pattern;
pub mod lexer;
pub mod chapter1;
pub mod parser_evalml1;
pub mod parser_evalml2;
pub mod parser_evalml3;

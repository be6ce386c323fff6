//! The failures that stop a derivation before any text is produced.

use vstd::prelude::*;

verus! {

/// Why no derivation tree could be built for a judgement.
///
/// A type error of the object language is not among these: where the rules
/// of a family derive `evalto error`, such a judgement has a tree like any
/// other.
#[derive(Debug, Clone, Copy, PartialEq, Eq, Structural)]
pub enum Error {
    /// The token patterns do not form a regular expression.
    Pattern,
    /// The judgement holds text that is no token, or is not ASCII.
    UnknownText,
    /// The tokens do not form a judgement of the family.
    Syntax,
    /// A number leaves the range of the machine integers.
    Overflow,
    /// An identifier is used that no binding of the environment declares.
    Undeclared,
    /// No rule of the family derives the judgement.
    NoRule,
    /// The derivation is deeper than the given bound.
    TooDeep,
}

} // verus!

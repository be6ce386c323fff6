//! Derivations of `n1 is less than n2` by taking a successor off both
//! numbers until the smaller one is zero.
//!
//! ```text
//! L-Zero:      Z is less than S(n)
//! L-SuccSucc:  n1 is less than n2  =>  S(n1) is less than S(n2)
//! ```

use vstd::prelude::*;
use vstd::string::*;
use crate::error::Error;
use crate::lexer::{Tokens, read_comparison, scan_comparison};
use crate::util::{get_depth_space, get_peano_num, get_successor_num, line_end, line_end_str, peano, spaces, successor};

verus! {

/// A derivation tree: the rule at its root, which holds the premises.
#[derive(Debug, PartialEq)]
pub enum RuleNode {
    LZero(LZeroNode),
    LSuccSucc(LSuccSuccNode),
}

/// `Z is less than S(n)`
#[derive(Debug, PartialEq)]
pub struct LZeroNode {
    pub n: usize,
}

/// `n1 is less than n2`, from the comparison of the two predecessors.
#[derive(Debug, PartialEq)]
pub struct LSuccSuccNode {
    pub n1: usize,
    pub n2: usize,
    pub premise: Box<RuleNode>,
}

impl RuleNode {
    /// The smaller number of the judgement at the root.
    pub open spec fn lesser(self) -> nat {
        match self {
            RuleNode::LZero(_) => 0,
            RuleNode::LSuccSucc(node) => node.n1 as nat,
        }
    }

    /// The greater number of the judgement at the root.
    pub open spec fn greater(self) -> nat {
        match self {
            RuleNode::LZero(node) => (node.n + 1) as nat,
            RuleNode::LSuccSucc(node) => node.n2 as nat,
        }
    }

    /// Whether every node of the tree is an instance of its rule.
    pub open spec fn valid(self) -> bool
        decreases self,
    {
        match self {
            RuleNode::LZero(_) => true,
            RuleNode::LSuccSucc(node) => {
                &&& node.premise.valid()
                &&& node.premise.lesser() + 1 == node.n1
                &&& node.premise.greater() + 1 == node.n2
            },
        }
    }

    /// The text of the tree, each line behind `indent`.
    pub open spec fn text(self, indent: Seq<char>, with_newline: bool) -> Seq<char>
        decreases self,
    {
        match self {
            RuleNode::LZero(node) => node.text(indent, with_newline),
            RuleNode::LSuccSucc(node) => node.text(indent, with_newline),
        }
    }

    /// Builds the derivation of the comparison that the tokens state, and
    /// consumes them. A comparison that is false has no derivation.
    pub fn new(tokens: &mut Tokens) -> (r: Result<RuleNode, Error>)
        ensures
            match read_comparison(old(tokens)@) {
                None => r == Err::<RuleNode, Error>(Error::Syntax) && final(tokens)@ == old(
                    tokens,
                )@,
                Some((n1, n2, end)) => if n1 < n2 {
                    &&& r is Ok
                    &&& r->Ok_0.valid()
                    &&& r->Ok_0.lesser() == n1
                    &&& r->Ok_0.greater() == n2
                    &&& final(tokens)@ == old(tokens)@.skip(end)
                } else {
                    r == Err::<RuleNode, Error>(Error::NoRule) && final(tokens)@ == old(tokens)@
                },
            },
    {
        let (n1, n2, end) = match scan_comparison(&tokens.tokens) {
            Ok(found) => found,
            Err(e) => return Err(e),
        };
        match get_rule_lt(n1, n2) {
            Ok(node) => {
                tokens.advance(end);
                Ok(node)
            },
            Err(e) => Err(e),
        }
    }

    /// Renders the tree, the root at the given depth.
    pub fn show(&self, depth: usize, with_newline: bool) -> (s: String)
        ensures
            s@ == self.text(spaces(depth as nat), with_newline),
    {
        let indent = get_depth_space(depth);
        self.show_indented(indent.as_str(), with_newline)
    }

    /// Renders the tree, each line behind `indent`.
    pub fn show_indented(&self, indent: &str, with_newline: bool) -> (s: String)
        ensures
            s@ == self.text(indent@, with_newline),
        decreases self,
    {
        match self {
            RuleNode::LZero(node) => node.show(indent, with_newline),
            RuleNode::LSuccSucc(node) => node.show(indent, with_newline),
        }
    }
}

impl LSuccSuccNode {
    pub open spec fn text(self, indent: Seq<char>, with_newline: bool) -> Seq<char>
        decreases self,
    {
        indent + peano(self.n1 as nat) + " is less than "@ + peano(self.n2 as nat)
            + " by L-SuccSucc {\n"@ + self.premise.text(indent + "  "@, true) + indent + "}"@ + line_end(with_newline)
    }

    /// Renders the rule and its premise behind `indent`.
    pub fn show(&self, indent: &str, with_newline: bool) -> (s: String)
        ensures
            s@ == self.text(indent@, with_newline),
        decreases self,
    {
        let mut s = String::from_str(indent);
        s.append(get_peano_num(self.n1).as_str());
        s.append(" is less than ");
        s.append(get_peano_num(self.n2).as_str());
        s.append(" by L-SuccSucc {\n");
        let mut deeper = String::from_str(indent);
        deeper.append("  ");
        s.append(self.premise.show_indented(deeper.as_str(), true).as_str());
        s.append(indent);
        s.append("}");
        s.append(line_end_str(with_newline));
        s
    }
}

/// The derivation of `n1 is less than n2`, which exists where `n1` is the
/// smaller number.
pub fn get_rule_lt(n1: usize, n2: usize) -> (r: Result<RuleNode, Error>)
    ensures
        n1 < n2 ==> r is Ok && r->Ok_0.valid() && r->Ok_0.lesser() == n1 && r->Ok_0.greater()
            == n2,
        n1 >= n2 ==> r == Err::<RuleNode, Error>(Error::NoRule),
    decreases n1,
{
    if n1 >= n2 {
        Err(Error::NoRule)
    } else if n1 == 0 {
        Ok(RuleNode::LZero(LZeroNode { n: n2 - 1 }))
    } else {
        match get_rule_lt(n1 - 1, n2 - 1) {
            Ok(premise) => Ok(
                RuleNode::LSuccSucc(LSuccSuccNode { n1, n2, premise: Box::new(premise) }),
            ),
            Err(e) => Err(e),
        }
    }
}

/// The rules are sound: a valid tree concludes a comparison that is true.
pub proof fn lemma_valid_tree_holds(node: RuleNode)
    requires
        node.valid(),
    ensures
        node.lesser() < node.greater(),
    decreases node,
{
    match node {
        RuleNode::LZero(_) => {},
        RuleNode::LSuccSucc(inner) => {
            lemma_valid_tree_holds(*inner.premise);
        },
    }
}

/// A comparison has one derivation only: two valid trees that conclude
/// the same are the same tree.
pub proof fn lemma_valid_tree_is_unique(a: RuleNode, b: RuleNode)
    requires
        a.valid(),
        b.valid(),
        a.lesser() == b.lesser(),
        a.greater() == b.greater(),
    ensures
        a == b,
    decreases a,
{
    match (a, b) {
        (RuleNode::LSuccSucc(x), RuleNode::LSuccSucc(y)) => {
            lemma_valid_tree_is_unique(*x.premise, *y.premise);
        },
        (RuleNode::LZero(x), RuleNode::LSuccSucc(y)) => {
            lemma_valid_tree_holds(*y.premise);
        },
        (RuleNode::LSuccSucc(x), RuleNode::LZero(y)) => {
            lemma_valid_tree_holds(*x.premise);
        },
        _ => {},
    }
}

impl LZeroNode {
    pub open spec fn text(self, indent: Seq<char>, with_newline: bool) -> Seq<char> {
        indent + "Z is less than "@ + successor(self.n as nat) + " by L-Zero {}"@ + line_end(
            with_newline,
        )
    }

    /// Renders the rule behind `indent`.
    pub fn show(&self, indent: &str, with_newline: bool) -> (s: String)
        ensures
            s@ == self.text(indent@, with_newline),
    {
        let mut s = String::from_str(indent);
        s.append("Z is less than ");
        s.append(get_successor_num(self.n).as_str());
        s.append(" by L-Zero {}");
        s.append(line_end_str(with_newline));
        s
    }
}

} // verus!

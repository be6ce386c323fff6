//! Derivations of `n1 is less than n2` from the successor step and
//! transitivity.
//!
//! ```text
//! L-Succ:   n is less than S(n)
//! L-Trans:  n1 is less than n2,  n2 is less than n3  =>  n1 is less than n3
//! ```

use vstd::prelude::*;
use vstd::string::*;
use crate::error::Error;
use crate::lexer::{Tokens, read_comparison, scan_comparison};
use crate::util::{get_depth_space, get_peano_num, get_successor_num, line_end, line_end_str, peano, spaces, successor};

verus! {

/// A derivation tree: the rule at its root, which holds the premises.
#[derive(Debug, PartialEq)]
pub enum RuleNode {
    LSucc(LSuccNode),
    LTrans(LTransNode),
}

/// `n is less than S(n)`
#[derive(Debug, PartialEq)]
pub struct LSuccNode {
    pub n: usize,
}

/// `n1 is less than n2`, by way of a number between the two.
#[derive(Debug, PartialEq)]
pub struct LTransNode {
    pub n1: usize,
    pub n2: usize,
    pub premise1: Box<RuleNode>,
    pub premise2: Box<RuleNode>,
}

impl RuleNode {
    /// The smaller number of the judgement at the root.
    pub open spec fn lesser(self) -> nat {
        match self {
            RuleNode::LSucc(node) => node.n as nat,
            RuleNode::LTrans(node) => node.n1 as nat,
        }
    }

    /// The greater number of the judgement at the root.
    pub open spec fn greater(self) -> nat {
        match self {
            RuleNode::LSucc(node) => (node.n + 1) as nat,
            RuleNode::LTrans(node) => node.n2 as nat,
        }
    }

    /// Whether every node of the tree is an instance of its rule.
    pub open spec fn valid(self) -> bool
        decreases self,
    {
        match self {
            RuleNode::LSucc(_) => true,
            RuleNode::LTrans(node) => {
                &&& node.premise1.valid()
                &&& node.premise2.valid()
                &&& node.premise1.lesser() == node.n1
                &&& node.premise1.greater() == node.premise2.lesser()
                &&& node.premise2.greater() == node.n2
            },
        }
    }

    /// Whether transitivity is used with the successor step on the right
    /// only: the greater number is reached one step at a time.
    pub open spec fn stepwise(self) -> bool
        decreases self,
    {
        match self {
            RuleNode::LSucc(_) => true,
            RuleNode::LTrans(node) => node.premise1.stepwise() && *node.premise2 is LSucc,
        }
    }

    /// The text of the tree, each line behind `indent`.
    pub open spec fn text(self, indent: Seq<char>, with_newline: bool) -> Seq<char>
        decreases self,
    {
        match self {
            RuleNode::LSucc(node) => node.text(indent, with_newline),
            RuleNode::LTrans(node) => node.text(indent, with_newline),
        }
    }

    /// Builds the derivation of the comparison that the tokens state, and
    /// consumes them. A comparison that is false has no derivation.
    pub fn new(tokens: &mut Tokens) -> (r: Result<RuleNode, Error>)
        ensures
            match read_comparison(old(tokens)@) {
                None => r == Err::<RuleNode, Error>(Error::Syntax) && final(tokens)@ == old(
                    tokens,
                )@,
                Some((n1, n2, end)) => if n1 < n2 {
                    &&& r is Ok
                    &&& r->Ok_0.valid()
                    &&& r->Ok_0.stepwise()
                    &&& r->Ok_0.lesser() == n1
                    &&& r->Ok_0.greater() == n2
                    &&& final(tokens)@ == old(tokens)@.skip(end)
                } else {
                    r == Err::<RuleNode, Error>(Error::NoRule) && final(tokens)@ == old(tokens)@
                },
            },
    {
        let (n1, n2, end) = match scan_comparison(&tokens.tokens) {
            Ok(found) => found,
            Err(e) => return Err(e),
        };
        match get_rule_lt(n1, n2) {
            Ok(node) => {
                tokens.advance(end);
                Ok(node)
            },
            Err(e) => Err(e),
        }
    }

    /// Renders the tree, the root at the given depth.
    pub fn show(&self, depth: usize, with_newline: bool) -> (s: String)
        ensures
            s@ == self.text(spaces(depth as nat), with_newline),
    {
        let indent = get_depth_space(depth);
        self.show_indented(indent.as_str(), with_newline)
    }

    /// Renders the tree, each line behind `indent`.
    pub fn show_indented(&self, indent: &str, with_newline: bool) -> (s: String)
        ensures
            s@ == self.text(indent@, with_newline),
        decreases self,
    {
        match self {
            RuleNode::LSucc(node) => node.show(indent, with_newline),
            RuleNode::LTrans(node) => node.show(indent, with_newline),
        }
    }
}

impl LTransNode {
    pub open spec fn text(self, indent: Seq<char>, with_newline: bool) -> Seq<char>
        decreases self,
    {
        indent + peano(self.n1 as nat) + " is less than "@ + peano(self.n2 as nat)
            + " by L-Trans {\n"@ + self.premise1.text(indent + "  "@, false) + ";\n"@ + self.premise2.text(
            indent + "  "@,
            true,
        ) + indent + "}"@ + line_end(with_newline)
    }

    /// Renders the rule and its premises behind `indent`.
    pub fn show(&self, indent: &str, with_newline: bool) -> (s: String)
        ensures
            s@ == self.text(indent@, with_newline),
        decreases self,
    {
        let mut s = String::from_str(indent);
        s.append(get_peano_num(self.n1).as_str());
        s.append(" is less than ");
        s.append(get_peano_num(self.n2).as_str());
        s.append(" by L-Trans {\n");
        let mut deeper = String::from_str(indent);
        deeper.append("  ");
        s.append(self.premise1.show_indented(deeper.as_str(), false).as_str());
        s.append(";\n");
        s.append(self.premise2.show_indented(deeper.as_str(), true).as_str());
        s.append(indent);
        s.append("}");
        s.append(line_end_str(with_newline));
        s
    }
}

/// The derivation of `n1 is less than n2`, which exists where `n1` is the
/// smaller number.
pub fn get_rule_lt(n1: usize, n2: usize) -> (r: Result<RuleNode, Error>)
    ensures
        n1 < n2 ==> r is Ok && r->Ok_0.valid() && r->Ok_0.stepwise() && r->Ok_0.lesser() == n1
            && r->Ok_0.greater() == n2,
        n1 >= n2 ==> r == Err::<RuleNode, Error>(Error::NoRule),
    decreases n2 - n1,
{
    if n1 >= n2 {
        Err(Error::NoRule)
    } else if n2 - n1 == 1 {
        Ok(RuleNode::LSucc(LSuccNode { n: n1 }))
    } else {
        let premise1 = match get_rule_lt(n1, n2 - 1) {
            Ok(node) => node,
            Err(e) => return Err(e),
        };
        let premise2 = RuleNode::LSucc(LSuccNode { n: n2 - 1 });
        assert(premise2.valid());
        Ok(
            RuleNode::LTrans(
                LTransNode { n1, n2, premise1: Box::new(premise1), premise2: Box::new(premise2) },
            ),
        )
    }
}

/// The rules are sound: a valid tree concludes a comparison that is true.
pub proof fn lemma_valid_tree_holds(node: RuleNode)
    requires
        node.valid(),
    ensures
        node.lesser() < node.greater(),
    decreases node,
{
    match node {
        RuleNode::LSucc(_) => {},
        RuleNode::LTrans(inner) => {
            lemma_valid_tree_holds(*inner.premise1);
            lemma_valid_tree_holds(*inner.premise2);
        },
    }
}

/// Transitivity can go by way of any number between the two. Of the trees
/// that take one step at a time a comparison has one only.
pub proof fn lemma_stepwise_tree_is_unique(a: RuleNode, b: RuleNode)
    requires
        a.valid(),
        a.stepwise(),
        b.valid(),
        b.stepwise(),
        a.lesser() == b.lesser(),
        a.greater() == b.greater(),
    ensures
        a == b,
    decreases a,
{
    match (a, b) {
        (RuleNode::LTrans(x), RuleNode::LTrans(y)) => {
            lemma_stepwise_tree_is_unique(*x.premise1, *y.premise1);
        },
        (RuleNode::LSucc(x), RuleNode::LTrans(y)) => {
            lemma_valid_tree_holds(*y.premise1);
        },
        (RuleNode::LTrans(x), RuleNode::LSucc(y)) => {
            lemma_valid_tree_holds(*x.premise1);
        },
        _ => {},
    }
}

impl LSuccNode {
    pub open spec fn text(self, indent: Seq<char>, with_newline: bool) -> Seq<char> {
        indent + peano(self.n as nat) + " is less than "@ + successor(self.n as nat)
            + " by L-Succ {}"@ + line_end(with_newline)
    }

    /// Renders the rule behind `indent`.
    pub fn show(&self, indent: &str, with_newline: bool) -> (s: String)
        ensures
            s@ == self.text(indent@, with_newline),
    {
        let mut s = String::from_str(indent);
        s.append(get_peano_num(self.n).as_str());
        s.append(" is less than ");
        s.append(get_successor_num(self.n).as_str());
        s.append(" by L-Succ {}");
        s.append(line_end_str(with_newline));
        s
    }
}

} // verus!

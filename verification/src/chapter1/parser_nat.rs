//! Derivations of `n1 plus n2 is n3` and `n1 times n2 is n3` over Peano
//! numerals.
//!
//! The rules are
//!
//! ```text
//! P-Zero:  Z plus n is n
//! P-Succ:  n1 plus n2 is n        =>  S(n1) plus n2 is S(n)
//! T-Zero:  Z times n is Z
//! T-Succ:  n1 times n2 is n3,  n2 plus n3 is n4  =>  S(n1) times n2 is n4
//! ```

use vstd::prelude::*;
use vstd::string::*;
use crate::error::Error;
use crate::lexer::{Operator, Token, Tokens, after_peano, read_operator, read_peano, scan_operator, scan_peano};
use crate::util::{get_depth_space, get_peano_num, line_end, line_end_str, peano, spaces};

verus! {

/// What a derivation concludes.
pub enum Judgement {
    /// `n1 plus n2 is n3`
    Plus(nat, nat, nat),
    /// `n1 times n2 is n3`
    Times(nat, nat, nat),
}

impl Judgement {
    /// Whether the judgement is true of the natural numbers.
    pub open spec fn holds(self) -> bool {
        match self {
            Judgement::Plus(n1, n2, n3) => n1 + n2 == n3,
            Judgement::Times(n1, n2, n3) => n1 * n2 == n3,
        }
    }
}

/// A derivation tree: the rule at its root, which holds the premises.
#[derive(Debug, PartialEq)]
pub enum RuleNode {
    PZero(PZeroNode),
    PSucc(PSuccNode),
    TZero(TZeroNode),
    TSucc(TSuccNode),
}

/// `Z plus nat_num is nat_num`
#[derive(Debug, PartialEq)]
pub struct PZeroNode {
    pub nat_num: usize,
}

/// `n1 plus n2 is n3`, from the premise for the predecessor of `n1`.
#[derive(Debug, PartialEq)]
pub struct PSuccNode {
    pub n1: usize,
    pub n2: usize,
    pub n3: usize,
    pub premise: Box<RuleNode>,
}

/// `Z times nat_num is Z`
#[derive(Debug, PartialEq)]
pub struct TZeroNode {
    pub nat_num: usize,
}

/// `n1 times n2 is n3`, from the product for the predecessor of `n1` and the
/// sum of `n2` and that product.
#[derive(Debug, PartialEq)]
pub struct TSuccNode {
    pub n1: usize,
    pub n2: usize,
    pub n3: usize,
    pub premise1: Box<RuleNode>,
    pub premise2: Box<RuleNode>,
}

impl RuleNode {
    /// The judgement at the root of the tree.
    pub open spec fn conclusion(self) -> Judgement {
        match self {
            RuleNode::PZero(node) => Judgement::Plus(0, node.nat_num as nat, node.nat_num as nat),
            RuleNode::PSucc(node) => Judgement::Plus(
                node.n1 as nat,
                node.n2 as nat,
                node.n3 as nat,
            ),
            RuleNode::TZero(node) => Judgement::Times(0, node.nat_num as nat, 0),
            RuleNode::TSucc(node) => Judgement::Times(
                node.n1 as nat,
                node.n2 as nat,
                node.n3 as nat,
            ),
        }
    }

    /// Whether every node of the tree is an instance of its rule: the
    /// premises conclude what the rule asks of them.
    pub open spec fn valid(self) -> bool
        decreases self,
    {
        match self {
            RuleNode::PZero(_) => true,
            RuleNode::PSucc(node) => {
                &&& node.n1 > 0
                &&& node.n3 > 0
                &&& node.premise.valid()
                &&& node.premise.conclusion() == Judgement::Plus(
                    (node.n1 - 1) as nat,
                    node.n2 as nat,
                    (node.n3 - 1) as nat,
                )
            },
            RuleNode::TZero(_) => true,
            RuleNode::TSucc(node) => {
                &&& node.n1 > 0
                &&& node.premise1.valid()
                &&& node.premise2.valid()
                &&& node.premise1.conclusion() matches Judgement::Times(m1, m2, m3)
                &&& m1 == node.n1 - 1
                &&& m2 == node.n2
                &&& node.premise2.conclusion() == Judgement::Plus(node.n2 as nat, m3, node.n3 as nat)
            },
        }
    }

    /// The text of the tree, each line behind `indent`.
    pub open spec fn text(self, indent: Seq<char>, with_newline: bool) -> Seq<char>
        decreases self,
    {
        match self {
            RuleNode::PZero(node) => node.text(indent, with_newline),
            RuleNode::PSucc(node) => node.text(indent, with_newline),
            RuleNode::TZero(node) => node.text(indent, with_newline),
            RuleNode::TSucc(node) => node.text(indent, with_newline),
        }
    }

    /// Builds the derivation of the judgement that the tokens state, and
    /// consumes them. The tree derives the true sum or product of the two
    /// numbers, whatever result the judgement claims.
    pub fn new(tokens: &mut Tokens) -> (r: Result<RuleNode, Error>)
        ensures
            match read_judgement(old(tokens)@) {
                None => r == Err::<RuleNode, Error>(Error::Syntax) && final(tokens)@ == old(
                    tokens,
                )@,
                Some(stated) => {
                    &&& stated.derives(r)
                    &&& final(tokens)@ == if r is Ok {
                        old(tokens)@.skip(stated.end)
                    } else {
                        old(tokens)@
                    }
                },
            },
    {
        let n1 = match scan_peano(&tokens.tokens, 0) {
            Ok(found) => found,
            Err(e) => return Err(e),
        };
        let operator = match scan_operator(&tokens.tokens, n1.1) {
            Some(Operator::Plus) => Operator::Plus,
            Some(Operator::Times) => Operator::Times,
            _ => return Err(Error::Syntax),
        };
        let n2 = match scan_peano(&tokens.tokens, n1.1 + 1) {
            Ok(found) => found,
            Err(e) => return Err(e),
        };
        if n2.1 >= tokens.tokens.len() || !matches!(tokens.tokens[n2.1], Token::Equal(_)) {
            return Err(Error::Syntax);
        }
        let n3 = match scan_peano(&tokens.tokens, n2.1 + 1) {
            Ok(found) => found,
            Err(e) => return Err(e),
        };
        match operator {
            Operator::Plus => {
                let node = get_rule_plus(n1.0, n2.0);
                tokens.advance(n3.1);
                Ok(node)
            },
            _ => match n1.0.checked_mul(n2.0) {
                Some(_) => {
                    let node = get_rule_times(n1.0, n2.0);
                    tokens.advance(n3.1);
                    Ok(node)
                },
                None => Err(Error::Overflow),
            },
        }
    }

    /// Renders the tree, the root at the given depth.
    pub fn show(&self, depth: usize, with_newline: bool) -> (s: String)
        ensures
            s@ == self.text(spaces(depth as nat), with_newline),
    {
        let indent = get_depth_space(depth);
        self.show_indented(indent.as_str(), with_newline)
    }

    /// Renders the tree, each line behind `indent`.
    pub fn show_indented(&self, indent: &str, with_newline: bool) -> (s: String)
        ensures
            s@ == self.text(indent@, with_newline),
        decreases self,
    {
        match self {
            RuleNode::PZero(node) => node.show(indent, with_newline),
            RuleNode::PSucc(node) => node.show(indent, with_newline),
            RuleNode::TZero(node) => node.show(indent, with_newline),
            RuleNode::TSucc(node) => node.show(indent, with_newline),
        }
    }
}

/// A judgement as the tokens state it, and the position behind it.
pub struct Stated {
    pub n1: nat,
    pub operator: Operator,
    pub n2: nat,
    pub n3: nat,
    pub end: int,
}

impl Stated {
    /// The judgement that is derived for the stated one: the two numbers
    /// with their true sum or product.
    pub open spec fn derived(self) -> Judgement {
        if self.operator == Operator::Plus {
            Judgement::Plus(self.n1, self.n2, self.n1 + self.n2)
        } else {
            Judgement::Times(self.n1, self.n2, self.n1 * self.n2)
        }
    }

    /// Whether the product of the two numbers is asked for and leaves the
    /// machine integers, so that no tree can hold it.
    pub open spec fn overflows(self) -> bool {
        self.operator == Operator::Times && self.n1 * self.n2 > usize::MAX
    }

    /// Whether `r` is what building the derivation for the stated judgement
    /// gives: a valid tree that concludes the true sum or product, or an
    /// overflow where the product leaves the machine integers. The result
    /// that the judgement claims has no part in it.
    pub open spec fn derives(self, r: Result<RuleNode, Error>) -> bool {
        if self.overflows() {
            r == Err::<RuleNode, Error>(Error::Overflow)
        } else {
            &&& r is Ok
            &&& r->Ok_0.valid()
            &&& r->Ok_0.conclusion() == self.derived()
        }
    }
}

/// The judgement `n1 plus n2 is n3` or `n1 times n2 is n3` at the front of
/// `s`, if `s` starts with one.
pub open spec fn read_judgement(s: Seq<Token>) -> Option<Stated> {
    match read_peano(s, 0) {
        None => None,
        Some(n1) => {
            let at_operator = after_peano(0, n1);
            match read_operator(s, at_operator) {
                None => None,
                Some(Operator::Empty) => None,
                Some(operator) => match read_peano(s, at_operator + 1) {
                    None => None,
                    Some(n2) => {
                        let at_is = after_peano(at_operator + 1, n2);
                        if at_is < s.len() && s[at_is] is Equal {
                            match read_peano(s, at_is + 1) {
                                None => None,
                                Some(n3) => Some(
                                    Stated {
                                        n1,
                                        operator,
                                        n2,
                                        n3,
                                        end: after_peano(at_is + 1, n3),
                                    },
                                ),
                            }
                        } else {
                            None
                        }
                    },
                },
            }
        },
    }
}

/// What is derived for a stated judgement is true, whatever result the
/// judgement claims.
pub proof fn lemma_derived_judgement_holds(stated: Stated)
    ensures
        stated.derived().holds(),
{
}

/// The result that a judgement claims is not read: two judgements of the
/// same two numbers and the same operator are given the same derivation,
/// whatever either claims, and where it is a tree, the tree concludes what
/// is true. A sum always has a tree; a product has one where it fits the
/// machine integers.
pub proof fn lemma_claim_is_not_read(
    one: Stated,
    other: Stated,
    r: Result<RuleNode, Error>,
    other_r: Result<RuleNode, Error>,
)
    requires
        one.n1 == other.n1,
        one.operator == other.operator,
        one.n2 == other.n2,
        one.derives(r),
        other.derives(other_r),
    ensures
        r == other_r,
        r is Ok <==> !one.overflows(),
        one.operator == Operator::Plus && one.n1 + one.n2 <= usize::MAX ==> r is Ok,
        r matches Ok(tree) ==> tree.conclusion() == one.derived() && tree.conclusion().holds(),
{
    if !one.overflows() {
        lemma_valid_tree_is_unique(r->Ok_0, other_r->Ok_0);
    }
}

/// The derivation of `n1 plus n2 is n1 + n2`.
pub fn get_rule_plus(n1: usize, n2: usize) -> (r: RuleNode)
    requires
        n1 + n2 <= usize::MAX,
    ensures
        r.valid(),
        r.conclusion() == Judgement::Plus(n1 as nat, n2 as nat, (n1 + n2) as nat),
    decreases n1,
{
    if n1 == 0 {
        RuleNode::PZero(PZeroNode { nat_num: n2 })
    } else {
        let premise = get_rule_plus(n1 - 1, n2);
        RuleNode::PSucc(PSuccNode { n1, n2, n3: n1 + n2, premise: Box::new(premise) })
    }
}

/// The derivation of `n1 times n2 is n1 * n2`.
pub fn get_rule_times(n1: usize, n2: usize) -> (r: RuleNode)
    requires
        n1 * n2 <= usize::MAX,
    ensures
        r.valid(),
        r.conclusion() == Judgement::Times(n1 as nat, n2 as nat, (n1 * n2) as nat),
    decreases n1,
{
    if n1 == 0 {
        RuleNode::TZero(TZeroNode { nat_num: n2 })
    } else {
        assert((n1 - 1) * n2 + n2 == n1 * n2) by (nonlinear_arith);
        assert((n1 - 1) * n2 >= 0) by (nonlinear_arith)
            requires
                n1 >= 1,
                n2 >= 0,
        ;
        let premise1 = get_rule_times(n1 - 1, n2);
        let premise2 = get_rule_plus(n2, (n1 - 1) * n2);
        RuleNode::TSucc(
            TSuccNode {
                n1,
                n2,
                n3: n1 * n2,
                premise1: Box::new(premise1),
                premise2: Box::new(premise2),
            },
        )
    }
}

/// The rules are sound: whatever a valid tree concludes is true of the
/// natural numbers.
pub proof fn lemma_valid_tree_holds(node: RuleNode)
    requires
        node.valid(),
    ensures
        node.conclusion().holds(),
    decreases node,
{
    match node {
        RuleNode::PZero(_) => {},
        RuleNode::PSucc(inner) => {
            lemma_valid_tree_holds(*inner.premise);
        },
        RuleNode::TZero(_) => {
            assert(0 * (node->TZero_0.nat_num as nat) == 0) by (nonlinear_arith);
        },
        RuleNode::TSucc(inner) => {
            lemma_valid_tree_holds(*inner.premise1);
            lemma_valid_tree_holds(*inner.premise2);
            let n1 = inner.n1 as int;
            let n2 = inner.n2 as int;
            assert((n1 - 1) * n2 + n2 == n1 * n2) by (nonlinear_arith);
        },
    }
}

/// A judgement has one derivation only: two valid trees that conclude
/// the same are the same tree.
pub proof fn lemma_valid_tree_is_unique(a: RuleNode, b: RuleNode)
    requires
        a.valid(),
        b.valid(),
        a.conclusion() == b.conclusion(),
    ensures
        a == b,
    decreases a,
{
    match (a, b) {
        (RuleNode::PSucc(x), RuleNode::PSucc(y)) => {
            lemma_valid_tree_is_unique(*x.premise, *y.premise);
        },
        (RuleNode::TSucc(x), RuleNode::TSucc(y)) => {
            lemma_valid_tree_holds(*x.premise1);
            lemma_valid_tree_holds(*y.premise1);
            lemma_valid_tree_is_unique(*x.premise1, *y.premise1);
            lemma_valid_tree_is_unique(*x.premise2, *y.premise2);
        },
        _ => {},
    }
}

impl PZeroNode {
    pub open spec fn text(self, indent: Seq<char>, with_newline: bool) -> Seq<char> {
        indent + "Z plus "@ + peano(self.nat_num as nat) + " is "@ + peano(self.nat_num as nat)
            + " by P-Zero {}"@ + line_end(with_newline)
    }

    /// Renders the rule behind `indent`.
    pub fn show(&self, indent: &str, with_newline: bool) -> (s: String)
        ensures
            s@ == self.text(indent@, with_newline),
    {
        let n = get_peano_num(self.nat_num);
        let mut s = String::from_str(indent);
        s.append("Z plus ");
        s.append(n.as_str());
        s.append(" is ");
        s.append(n.as_str());
        s.append(" by P-Zero {}");
        s.append(line_end_str(with_newline));
        s
    }

    /// The sum that the rule concludes: the number itself.
    pub fn get_val(&self) -> (n: usize)
        ensures
            n == self.nat_num,
    {
        self.nat_num
    }
}

impl PSuccNode {
    pub open spec fn text(self, indent: Seq<char>, with_newline: bool) -> Seq<char>
        decreases self,
    {
        indent + peano(self.n1 as nat) + " plus "@ + peano(self.n2 as nat) + " is "@ + peano(
            self.n3 as nat,
        ) + " by P-Succ {\n"@ + self.premise.text(indent + "  "@, true) + indent + "}"@
            + line_end(with_newline)
    }

    /// Renders the rule and its premise behind `indent`.
    pub fn show(&self, indent: &str, with_newline: bool) -> (s: String)
        ensures
            s@ == self.text(indent@, with_newline),
        decreases self,
    {
        let mut s = String::from_str(indent);
        s.append(get_peano_num(self.n1).as_str());
        s.append(" plus ");
        s.append(get_peano_num(self.n2).as_str());
        s.append(" is ");
        s.append(get_peano_num(self.n3).as_str());
        s.append(" by P-Succ {\n");
        let mut deeper = String::from_str(indent);
        deeper.append("  ");
        s.append(self.premise.show_indented(deeper.as_str(), true).as_str());
        s.append(indent);
        s.append("}");
        s.append(line_end_str(with_newline));
        s
    }

    /// The sum that the rule concludes.
    pub fn get_val(&self) -> (n: usize)
        ensures
            n == self.n3,
    {
        self.n3
    }
}

impl TSuccNode {
    pub open spec fn text(self, indent: Seq<char>, with_newline: bool) -> Seq<char>
        decreases self,
    {
        indent + peano(self.n1 as nat) + " times "@ + peano(self.n2 as nat) + " is "@ + peano(
            self.n3 as nat,
        ) + " by T-Succ {\n"@ + self.premise1.text(indent + "  "@, false) + ";\n"@
            + self.premise2.text(indent + "  "@, true) + indent + "}"@ + line_end(with_newline)
    }

    /// Renders the rule and its premises behind `indent`.
    pub fn show(&self, indent: &str, with_newline: bool) -> (s: String)
        ensures
            s@ == self.text(indent@, with_newline),
        decreases self,
    {
        let mut s = String::from_str(indent);
        s.append(get_peano_num(self.n1).as_str());
        s.append(" times ");
        s.append(get_peano_num(self.n2).as_str());
        s.append(" is ");
        s.append(get_peano_num(self.n3).as_str());
        s.append(" by T-Succ {\n");
        let mut deeper = String::from_str(indent);
        deeper.append("  ");
        s.append(self.premise1.show_indented(deeper.as_str(), false).as_str());
        s.append(";\n");
        s.append(self.premise2.show_indented(deeper.as_str(), true).as_str());
        s.append(indent);
        s.append("}");
        s.append(line_end_str(with_newline));
        s
    }

    /// The product that the rule concludes.
    pub fn get_val(&self) -> (n: usize)
        ensures
            n == self.n3,
    {
        self.n3
    }
}

impl TZeroNode {
    pub open spec fn text(self, indent: Seq<char>, with_newline: bool) -> Seq<char> {
        indent + "Z times "@ + peano(self.nat_num as nat) + " is Z by T-Zero {}"@ + line_end(
            with_newline,
        )
    }

    /// Renders the rule behind `indent`.
    pub fn show(&self, indent: &str, with_newline: bool) -> (s: String)
        ensures
            s@ == self.text(indent@, with_newline),
    {
        let n = get_peano_num(self.nat_num);
        let mut s = String::from_str(indent);
        s.append("Z times ");
        s.append(n.as_str());
        s.append(" is Z by T-Zero {}");
        s.append(line_end_str(with_newline));
        s
    }

    /// The product that the rule concludes: zero.
    pub fn get_val(&self) -> (n: usize)
        ensures
            n == 0,
    {
        0
    }
}

} // verus!

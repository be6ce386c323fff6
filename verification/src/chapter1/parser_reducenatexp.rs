//! Derivations of the reduction of sums and products of Peano numerals:
//! one step (`--->`), one step in the fixed order from left to right
//! (`-d->`), and any number of steps (`-*->`).
//!
//! Each arrow is derived by one rule with one premise:
//!
//! ```text
//! MR-One:    e ---> e'                  =>  e -*-> e'
//!   R-Plus:    n1 plus n2 is n3         =>  n1 + n2 ---> n3
//! DR-PlusL:  e1 -d-> e1'                =>  e1 + e2 -d-> e1' + e2
//!   DR-Times:  n1 times n2 is n3        =>  n1 * n2 -d-> n3
//! R-PlusR:   e2 ---> e2'                =>  e1 + e2 ---> e1 + e2'
//!   R-Times:   n1 times n2 is n3        =>  n1 * n2 ---> n3
//! ```
//!
//! A judgement of another shape has no derivation here.

use vstd::prelude::*;
use vstd::string::*;
use crate::chapter1::parser_evalnatexp::{Term, TermModel, Terms, read_terms, slice, split_position, terms_text};
use crate::chapter1::parser_nat::{Judgement as NatJudgement, RuleNode as NatRule, get_rule_plus, get_rule_times};
use crate::error::Error;
use crate::lexer::{Operator, Token, Tokens};
use crate::util::{get_depth_space, get_peano_num, line_end, line_end_str, peano, spaces};

verus! {

/// The relation between the two expressions of a judgement.
#[derive(Debug, Clone, Copy, PartialEq, Eq, Structural)]
pub enum Arrow {
    /// `-*->`
    Multi,
    /// `-d->`
    Det,
    /// `--->`
    One,
}

/// What a derivation concludes: `before` reduces to `after`.
pub struct Judgement {
    pub arrow: Arrow,
    pub before: Seq<TermModel>,
    pub after: Seq<TermModel>,
}

/// A derivation tree: the rule at its root, which holds the premises.
#[derive(Debug, PartialEq)]
pub enum RuleNode {
    MROne(MROneNode),
    DRTimes(DRTimesNode),
    DRPlusL(DRPlusLNode),
    RPlus(RPlusNode),
    RPlusR(RPlusRNode),
    RTimes(RTimesNode),
}

/// `n1 * n2 -d-> n3`
#[derive(Debug, PartialEq)]
pub struct DRTimesNode {
    pub n1: usize,
    pub n2: usize,
    pub n3: usize,
    pub premise: NatRule,
}

/// `e1 + e2 -d-> e1' + e2`
#[derive(Debug, PartialEq)]
pub struct DRPlusLNode {
    pub before_terms: Terms,
    pub after_terms: Terms,
    pub premise: Box<RuleNode>,
}

/// `e -*-> e'`, in one step
#[derive(Debug, PartialEq)]
pub struct MROneNode {
    pub before_terms: Terms,
    pub after_terms: Terms,
    pub premise: Box<RuleNode>,
}

/// `n1 + n2 ---> n3`
#[derive(Debug, PartialEq)]
pub struct RPlusNode {
    pub n1: usize,
    pub n2: usize,
    pub n3: usize,
    pub premise: NatRule,
}

/// `e1 + e2 ---> e1 + e2'`
#[derive(Debug, PartialEq)]
pub struct RPlusRNode {
    pub before_terms: Terms,
    pub after_terms: Terms,
    pub premise: Box<RuleNode>,
}

/// `n1 * n2 ---> n3`
#[derive(Debug, PartialEq)]
pub struct RTimesNode {
    pub n1: usize,
    pub n2: usize,
    pub n3: usize,
    pub premise: NatRule,
}

/// The expression `n1 operator n2` of two numerals.
pub open spec fn redex(n1: nat, operator: Operator, n2: nat) -> Seq<TermModel> {
    seq![TermModel::Leaf(Operator::Empty, n1), TermModel::Leaf(operator, n2)]
}

/// The expression that is the numeral of `n`.
pub open spec fn numeral(n: nat) -> Seq<TermModel> {
    seq![TermModel::Leaf(Operator::Empty, n)]
}

/// The expression `left operator right`.
pub open spec fn join(left: Seq<TermModel>, operator: Operator, right: Seq<TermModel>) -> Seq<
    TermModel,
> {
    if right.len() == 0 {
        left
    } else {
        left + right.update(0, right[0].with_operator(operator))
    }
}

impl RuleNode {
    /// The judgement at the root of the tree.
    pub open spec fn conclusion(self) -> Judgement {
        match self {
            RuleNode::MROne(node) => Judgement {
                arrow: Arrow::Multi,
                before: node.before_terms@,
                after: node.after_terms@,
            },
            RuleNode::DRTimes(node) => Judgement {
                arrow: Arrow::Det,
                before: redex(node.n1 as nat, Operator::Times, node.n2 as nat),
                after: numeral(node.n3 as nat),
            },
            RuleNode::DRPlusL(node) => Judgement {
                arrow: Arrow::Det,
                before: node.before_terms@,
                after: node.after_terms@,
            },
            RuleNode::RPlus(node) => Judgement {
                arrow: Arrow::One,
                before: redex(node.n1 as nat, Operator::Plus, node.n2 as nat),
                after: numeral(node.n3 as nat),
            },
            RuleNode::RPlusR(node) => Judgement {
                arrow: Arrow::One,
                before: node.before_terms@,
                after: node.after_terms@,
            },
            RuleNode::RTimes(node) => Judgement {
                arrow: Arrow::One,
                before: redex(node.n1 as nat, Operator::Times, node.n2 as nat),
                after: numeral(node.n3 as nat),
            },
        }
    }

    /// Whether every node of the tree is an instance of its rule.
    pub open spec fn valid(self) -> bool
        decreases self,
    {
        match self {
            RuleNode::MROne(node) => {
                &&& node.premise.valid()
                &&& node.premise.conclusion() == Judgement {
                    arrow: Arrow::One,
                    before: node.before_terms@,
                    after: node.after_terms@,
                }
            },
            RuleNode::DRTimes(node) => {
                &&& node.premise.valid()
                &&& node.premise.conclusion() == NatJudgement::Times(
                    node.n1 as nat,
                    node.n2 as nat,
                    node.n3 as nat,
                )
            },
            RuleNode::DRPlusL(node) => {
                let before = node.before_terms@;
                let at = split_position(before, 0, before.len() as int);
                &&& before.len() >= 2
                &&& before[at].operator() == Operator::Plus
                &&& node.premise.valid()
                &&& node.premise.conclusion().arrow == Arrow::Det
                &&& node.premise.conclusion().before == slice(before, 0, at)
                &&& node.after_terms@ == join(
                    node.premise.conclusion().after,
                    Operator::Plus,
                    slice(before, at, before.len() as int),
                )
            },
            RuleNode::RPlus(node) => {
                &&& node.premise.valid()
                &&& node.premise.conclusion() == NatJudgement::Plus(
                    node.n1 as nat,
                    node.n2 as nat,
                    node.n3 as nat,
                )
            },
            RuleNode::RPlusR(node) => {
                let before = node.before_terms@;
                let at = split_position(before, 0, before.len() as int);
                &&& before.len() >= 2
                &&& before[at].operator() == Operator::Plus
                &&& node.premise.valid()
                &&& node.premise.conclusion().arrow == Arrow::One
                &&& node.premise.conclusion().before == slice(before, at, before.len() as int)
                &&& node.after_terms@ == join(
                    before.subrange(0, at),
                    Operator::Plus,
                    node.premise.conclusion().after,
                )
            },
            RuleNode::RTimes(node) => {
                &&& node.premise.valid()
                &&& node.premise.conclusion() == NatJudgement::Times(
                    node.n1 as nat,
                    node.n2 as nat,
                    node.n3 as nat,
                )
            },
        }
    }

    /// The text of the tree, each line behind `indent`.
    pub open spec fn text(self, indent: Seq<char>, with_newline: bool) -> Seq<char>
        decreases self,
    {
        match self {
            RuleNode::MROne(node) => node.text(indent, with_newline),
            RuleNode::DRTimes(node) => node.text(indent, with_newline),
            RuleNode::DRPlusL(node) => node.text(indent, with_newline),
            RuleNode::RPlus(node) => node.text(indent, with_newline),
            RuleNode::RPlusR(node) => node.text(indent, with_newline),
            RuleNode::RTimes(node) => node.text(indent, with_newline),
        }
    }

    /// Builds the derivation of the reduction that the tokens state, and
    /// consumes them.
    pub fn new(tokens: &mut Tokens) -> (r: Result<RuleNode, Error>)
        ensures
            match read_judgement(old(tokens)@) {
                None => r == Err::<RuleNode, Error>(Error::Syntax) && final(tokens)@ == old(
                    tokens,
                )@,
                Some((stated, end)) => if derivable(stated) {
                    &&& r is Ok
                    &&& r->Ok_0.valid()
                    &&& r->Ok_0.conclusion() == stated
                    &&& final(tokens)@ == old(tokens)@.skip(end)
                } else {
                    r == Err::<RuleNode, Error>(Error::NoRule) && final(tokens)@ == old(tokens)@
                },
            },
    {
        let (before, at_arrow) = match Terms::parse(&tokens.tokens, 0) {
            Ok(found) => found,
            Err(e) => return Err(e),
        };
        if at_arrow >= tokens.tokens.len() {
            return Err(Error::Syntax);
        }
        let arrow = match tokens.tokens[at_arrow] {
            Token::EvalMR(_) => Arrow::Multi,
            Token::EvalDR(_) => Arrow::Det,
            Token::EvalONE(_) => Arrow::One,
            _ => return Err(Error::Syntax),
        };
        let (after, end) = match Terms::parse(&tokens.tokens, at_arrow + 1) {
            Ok(found) => found,
            Err(e) => return Err(e),
        };
        let found = match arrow {
            Arrow::Multi => get_rplus(before, after),
            Arrow::Det => get_drtimes(before, after),
            Arrow::One => get_rtimes_r(before, after),
        };
        match found {
            Ok(node) => {
                tokens.advance(end);
                Ok(node)
            },
            Err(e) => Err(e),
        }
    }

    /// Renders the tree, the root at the given depth.
    pub fn show(&self, depth: usize, with_newline: bool) -> (s: String)
        ensures
            s@ == self.text(spaces(depth as nat), with_newline),
    {
        let indent = get_depth_space(depth);
        self.show_indented(indent.as_str(), with_newline)
    }

    /// Renders the tree, each line behind `indent`.
    pub fn show_indented(&self, indent: &str, with_newline: bool) -> (s: String)
        ensures
            s@ == self.text(indent@, with_newline),
        decreases self,
    {
        match self {
            RuleNode::MROne(node) => node.show(indent, with_newline),
            RuleNode::DRTimes(node) => node.show(indent, with_newline),
            RuleNode::DRPlusL(node) => node.show(indent, with_newline),
            RuleNode::RPlus(node) => node.show(indent, with_newline),
            RuleNode::RPlusR(node) => node.show(indent, with_newline),
            RuleNode::RTimes(node) => node.show(indent, with_newline),
        }
    }
}

impl MROneNode {
    pub open spec fn text(self, indent: Seq<char>, with_newline: bool) -> Seq<char>
        decreases self,
    {
        step_text(
            indent,
            self.before_terms@,
            " -*-> "@,
            self.after_terms@,
            " by MR-One {\n"@,
            self.premise.text(indent + "  "@, true),
            with_newline,
        )
    }

    /// Renders the rule and its premise behind `indent`.
    pub fn show(&self, indent: &str, with_newline: bool) -> (s: String)
        ensures
            s@ == self.text(indent@, with_newline),
        decreases self,
    {
        let mut deeper = String::from_str(indent);
        deeper.append("  ");
        show_step(
            indent,
            &self.before_terms,
            " -*-> ",
            &self.after_terms,
            " by MR-One {\n",
            self.premise.show_indented(deeper.as_str(), true),
            with_newline,
        )
    }
}

impl DRPlusLNode {
    pub open spec fn text(self, indent: Seq<char>, with_newline: bool) -> Seq<char>
        decreases self,
    {
        step_text(
            indent,
            self.before_terms@,
            " -d-> "@,
            self.after_terms@,
            " by DR-PlusL {\n"@,
            self.premise.text(indent + "  "@, true),
            with_newline,
        )
    }

    /// Renders the rule and its premise behind `indent`.
    pub fn show(&self, indent: &str, with_newline: bool) -> (s: String)
        ensures
            s@ == self.text(indent@, with_newline),
        decreases self,
    {
        let mut deeper = String::from_str(indent);
        deeper.append("  ");
        show_step(
            indent,
            &self.before_terms,
            " -d-> ",
            &self.after_terms,
            " by DR-PlusL {\n",
            self.premise.show_indented(deeper.as_str(), true),
            with_newline,
        )
    }
}

impl RPlusRNode {
    pub open spec fn text(self, indent: Seq<char>, with_newline: bool) -> Seq<char>
        decreases self,
    {
        step_text(
            indent,
            self.before_terms@,
            " ---> "@,
            self.after_terms@,
            " by R-PlusR {\n"@,
            self.premise.text(indent + "  "@, true),
            with_newline,
        )
    }

    /// Renders the rule and its premise behind `indent`.
    pub fn show(&self, indent: &str, with_newline: bool) -> (s: String)
        ensures
            s@ == self.text(indent@, with_newline),
        decreases self,
    {
        let mut deeper = String::from_str(indent);
        deeper.append("  ");
        show_step(
            indent,
            &self.before_terms,
            " ---> ",
            &self.after_terms,
            " by R-PlusR {\n",
            self.premise.show_indented(deeper.as_str(), true),
            with_newline,
        )
    }
}

/// The text of a rule that concludes `before arrow after` from one premise.
pub open spec fn step_text(
    indent: Seq<char>,
    before: Seq<TermModel>,
    arrow: Seq<char>,
    after: Seq<TermModel>,
    rule: Seq<char>,
    premise: Seq<char>,
    with_newline: bool,
) -> Seq<char> {
    indent + terms_text(before, before.len()) + arrow + terms_text(after, after.len()) + rule
        + premise + indent + "}"@ + line_end(with_newline)
}

/// The text of a rule that reduces `n1 operator n2` to `n3` by `arrow`.
pub open spec fn redex_text(
    indent: Seq<char>,
    n1: nat,
    operator: Seq<char>,
    n2: nat,
    arrow: Seq<char>,
    n3: nat,
    rule: Seq<char>,
    premise: Seq<char>,
    with_newline: bool,
) -> Seq<char> {
    indent + peano(n1) + operator + peano(n2) + arrow + peano(n3) + rule + premise + indent
        + "}"@ + line_end(with_newline)
}

fn show_step(
    indent: &str,
    before: &Terms,
    arrow: &str,
    after: &Terms,
    rule: &str,
    premise: String,
    with_newline: bool,
) -> (s: String)
    ensures
        s@ == step_text(indent@, before@, arrow@, after@, rule@, premise@, with_newline),
{
    let mut s = String::from_str(indent);
    s.append(before.to_string().as_str());
    s.append(arrow);
    s.append(after.to_string().as_str());
    s.append(rule);
    s.append(premise.as_str());
    s.append(indent);
    s.append("}");
    s.append(line_end_str(with_newline));
    s
}

fn show_redex(
    indent: &str,
    n1: usize,
    operator: &str,
    n2: usize,
    arrow: &str,
    n3: usize,
    rule: &str,
    premise: &NatRule,
    with_newline: bool,
) -> (s: String)
    ensures
        s@ == redex_text(
            indent@,
            n1 as nat,
            operator@,
            n2 as nat,
            arrow@,
            n3 as nat,
            rule@,
            premise.text(indent@ + "  "@, true),
            with_newline,
        ),
{
    let mut deeper = String::from_str(indent);
    deeper.append("  ");
    let mut s = String::from_str(indent);
    s.append(get_peano_num(n1).as_str());
    s.append(operator);
    s.append(get_peano_num(n2).as_str());
    s.append(arrow);
    s.append(get_peano_num(n3).as_str());
    s.append(rule);
    s.append(premise.show_indented(deeper.as_str(), true).as_str());
    s.append(indent);
    s.append("}");
    s.append(line_end_str(with_newline));
    s
}

/// The judgement `e arrow e'` at the front of `s`, and the position behind
/// it.
pub open spec fn read_judgement(s: Seq<Token>) -> Option<(Judgement, int)> {
    match read_terms(s, 0) {
        Some((before, at_arrow)) => if 0 <= at_arrow < s.len() {
            match read_arrow(s[at_arrow]) {
                Some(arrow) => match read_terms(s, at_arrow + 1) {
                    Some((after, end)) => Some((Judgement { arrow, before, after }, end)),
                    None => None,
                },
                None => None,
            }
        } else {
            None
        },
        None => None,
    }
}

/// The arrow that a token stands for.
pub open spec fn read_arrow(token: Token) -> Option<Arrow> {
    match token {
        Token::EvalMR(_) => Some(Arrow::Multi),
        Token::EvalDR(_) => Some(Arrow::Det),
        Token::EvalONE(_) => Some(Arrow::One),
        _ => None,
    }
}

/// Whether `before` is the sum of two numerals and `after` the numeral of
/// their sum.
pub open spec fn sum_step(before: Seq<TermModel>, after: Seq<TermModel>) -> bool {
    &&& before.len() == 2
    &&& after.len() == 1
    &&& before[0] matches TermModel::Leaf(Operator::Empty, n1)
    &&& before[1] matches TermModel::Leaf(Operator::Plus, n2)
    &&& after[0] == TermModel::Leaf(Operator::Empty, n1 + n2)
}

/// Whether `before` starts with a product of two numerals to which the rest
/// is added, and `after` is `before` with the product worked out.
pub open spec fn left_product_step(before: Seq<TermModel>, after: Seq<TermModel>) -> bool {
    &&& before.len() >= 3
    &&& split_position(before, 0, before.len() as int) == 2
    &&& before[2].operator() == Operator::Plus
    &&& before[0] matches TermModel::Leaf(Operator::Empty, n1)
    &&& before[1] matches TermModel::Leaf(Operator::Times, n2)
    &&& after == numeral(n1 * n2) + before.skip(2)
}

/// Whether `before` ends with a product of two numerals that is added to
/// what stands before it, and `after` is `before` with the product worked
/// out.
pub open spec fn right_product_step(before: Seq<TermModel>, after: Seq<TermModel>) -> bool {
    &&& before.len() >= 3
    &&& split_position(before, 0, before.len() as int) == before.len() - 2
    &&& before[before.len() - 2] matches TermModel::Leaf(Operator::Plus, n1)
    &&& before[before.len() - 1] matches TermModel::Leaf(Operator::Times, n2)
    &&& after == before.subrange(0, before.len() - 2).push(
        TermModel::Leaf(Operator::Plus, n1 * n2),
    )
}

/// Whether the rules of this family derive the judgement.
pub open spec fn derivable(stated: Judgement) -> bool {
    match stated.arrow {
        Arrow::Multi => sum_step(stated.before, stated.after),
        Arrow::Det => left_product_step(stated.before, stated.after),
        Arrow::One => right_product_step(stated.before, stated.after),
    }
}

proof fn lemma_left_product_step(before: Seq<TermModel>, after: Seq<TermModel>)
    requires
        left_product_step(before, after),
    ensures
        after.len() == before.len() - 1,
        before[0] is Leaf,
        before[0].operator() == Operator::Empty,
        before[1] is Leaf,
        before[1].operator() == Operator::Times,
        after[0] == TermModel::Leaf(Operator::Empty, before[0]->Leaf_1 * before[1]->Leaf_1),
        after.subrange(1, after.len() as int) == before.subrange(2, before.len() as int),
{
    assert(after.subrange(1, after.len() as int) =~= before.subrange(2, before.len() as int));
}

proof fn lemma_right_product_step(before: Seq<TermModel>, after: Seq<TermModel>)
    requires
        right_product_step(before, after),
    ensures
        after.len() == before.len() - 1,
        before[before.len() - 2] is Leaf,
        before[before.len() - 2].operator() == Operator::Plus,
        before[before.len() - 1] is Leaf,
        before[before.len() - 1].operator() == Operator::Times,
        after[after.len() - 1] == TermModel::Leaf(
            Operator::Plus,
            before[before.len() - 2]->Leaf_1 * before[before.len() - 1]->Leaf_1,
        ),
        after.subrange(0, after.len() - 1) == before.subrange(0, before.len() - 2),
{
    assert(after.subrange(0, after.len() - 1) =~= before.subrange(0, before.len() - 2));
}

/// The numeral that is the term, if it is one.
fn leaf_number(term: &Term) -> (r: Option<(Operator, usize)>)
    ensures
        match r {
            Some((operator, n)) => term@ == TermModel::Leaf(operator, n as nat),
            None => !(term@ is Leaf),
        },
{
    match term {
        Term::Leaf(operator, n) => Some((*operator, *n)),
        Term::Node(_, _) => None,
    }
}

/// The derivation of `before -*-> after` by one addition of two numerals.
pub fn get_rplus(before: Terms, after: Terms) -> (r: Result<RuleNode, Error>)
    ensures
        sum_step(before@, after@) ==> r is Ok && r->Ok_0.valid() && r->Ok_0.conclusion()
            == (Judgement { arrow: Arrow::Multi, before: before@, after: after@ }),
        !sum_step(before@, after@) ==> r == Err::<RuleNode, Error>(Error::NoRule),
{
    if before.terms.len() != 2 || after.terms.len() != 1 {
        return Err(Error::NoRule);
    }
    let (n1, n2, n3) = match (
        leaf_number(&before.terms[0]),
        leaf_number(&before.terms[1]),
        leaf_number(&after.terms[0]),
    ) {
        (Some((Operator::Empty, n1)), Some((Operator::Plus, n2)), Some((Operator::Empty, n3))) => (
            n1,
            n2,
            n3,
        ),
        _ => return Err(Error::NoRule),
    };
    match n1.checked_add(n2) {
        Some(sum) => if sum != n3 {
            return Err(Error::NoRule);
        },
        None => return Err(Error::NoRule),
    }
    let premise = RuleNode::RPlus(RPlusNode { n1, n2, n3, premise: get_rule_plus(n1, n2) });
    proof {
        assert(premise.valid());
        assert(before@ =~= redex(n1 as nat, Operator::Plus, n2 as nat));
        assert(after@ =~= numeral(n3 as nat));
    }
    Ok(
        RuleNode::MROne(
            MROneNode { before_terms: before, after_terms: after, premise: Box::new(premise) },
        ),
    )
}

/// The derivation of `before -d-> after` by working out the product of two
/// numerals at the front of a sum.
pub fn get_drtimes(before: Terms, after: Terms) -> (r: Result<RuleNode, Error>)
    ensures
        left_product_step(before@, after@) ==> r is Ok && r->Ok_0.valid() && r->Ok_0.conclusion()
            == (Judgement { arrow: Arrow::Det, before: before@, after: after@ }),
        !left_product_step(before@, after@) ==> r == Err::<RuleNode, Error>(Error::NoRule),
{
    proof {
        if left_product_step(before@, after@) {
            lemma_left_product_step(before@, after@);
        }
    }
    let len = before.terms.len();
    if len < 3 || after.terms.len() != len - 1 {
        return Err(Error::NoRule);
    }
    let (at, operator) = before.split_in(0, len);
    if at != 2 || operator != Operator::Plus {
        return Err(Error::NoRule);
    }
    let (n1, n2, n3) = match (
        leaf_number(&before.terms[0]),
        leaf_number(&before.terms[1]),
        leaf_number(&after.terms[0]),
    ) {
        (Some((Operator::Empty, n1)), Some((Operator::Times, n2)), Some((Operator::Empty, n3))) => (
            n1,
            n2,
            n3,
        ),
        _ => return Err(Error::NoRule),
    };
    match n1.checked_mul(n2) {
        Some(product) => if product != n3 {
            return Err(Error::NoRule);
        },
        None => return Err(Error::NoRule),
    }
    if !after.same_range(1, &before, 2, len - 2) {
        return Err(Error::NoRule);
    }
    let premise = RuleNode::DRTimes(DRTimesNode { n1, n2, n3, premise: get_rule_times(n1, n2) });
    proof {
        assert(premise.valid());
        assert(slice(before@, 0, 2) =~= redex(n1 as nat, Operator::Times, n2 as nat));
        assert(after@ =~= numeral(n3 as nat) + before@.skip(2)) by {
            assert(after@.subrange(1, len - 1) == before@.subrange(2, len as int));
            assert forall|k: int| 1 <= k < after@.len() implies after@[k] == before@[k + 1] by {
                assert(after@.subrange(1, len - 1)[k - 1] == before@.subrange(2, len as int)[k
                    - 1]);
            }
        }
        assert(after@ =~= join(
            numeral(n3 as nat),
            Operator::Plus,
            slice(before@, 2, len as int),
        ));
    }
    Ok(
        RuleNode::DRPlusL(
            DRPlusLNode { before_terms: before, after_terms: after, premise: Box::new(premise) },
        ),
    )
}

/// The derivation of `before ---> after` by working out the product of two
/// numerals at the end of a sum.
pub fn get_rtimes_r(before: Terms, after: Terms) -> (r: Result<RuleNode, Error>)
    ensures
        right_product_step(before@, after@) ==> r is Ok && r->Ok_0.valid()
            && r->Ok_0.conclusion() == (Judgement {
            arrow: Arrow::One,
            before: before@,
            after: after@,
        }),
        !right_product_step(before@, after@) ==> r == Err::<RuleNode, Error>(Error::NoRule),
{
    proof {
        if right_product_step(before@, after@) {
            lemma_right_product_step(before@, after@);
        }
    }
    let len = before.terms.len();
    if len < 3 || after.terms.len() != len - 1 {
        return Err(Error::NoRule);
    }
    let (at, operator) = before.split_in(0, len);
    if at != len - 2 {
        return Err(Error::NoRule);
    }
    let (n1, n2, n3) = match (
        leaf_number(&before.terms[len - 2]),
        leaf_number(&before.terms[len - 1]),
        leaf_number(&after.terms[len - 2]),
    ) {
        (Some((Operator::Plus, n1)), Some((Operator::Times, n2)), Some((Operator::Plus, n3))) => (
            n1,
            n2,
            n3,
        ),
        _ => return Err(Error::NoRule),
    };
    match n1.checked_mul(n2) {
        Some(product) => if product != n3 {
            return Err(Error::NoRule);
        },
        None => return Err(Error::NoRule),
    }
    if !after.same_range(0, &before, 0, len - 2) {
        return Err(Error::NoRule);
    }
    let premise = RuleNode::RTimes(RTimesNode { n1, n2, n3, premise: get_rule_times(n1, n2) });
    proof {
        assert(premise.valid());
        assert(slice(before@, len - 2, len as int) =~= redex(
            n1 as nat,
            Operator::Times,
            n2 as nat,
        ));
        assert(after@ =~= before@.subrange(0, len - 2).push(
            TermModel::Leaf(Operator::Plus, n3 as nat),
        )) by {
            assert forall|k: int| 0 <= k < len - 2 implies after@[k] == before@[k] by {
                assert(after@.subrange(0, len - 2)[k] == before@.subrange(0, len - 2)[k]);
            }
        }
        assert(after@ =~= join(before@.subrange(0, len - 2), Operator::Plus, numeral(n3 as nat)));
    }
    Ok(
        RuleNode::RPlusR(
            RPlusRNode { before_terms: before, after_terms: after, premise: Box::new(premise) },
        ),
    )
}

impl DRTimesNode {
    pub open spec fn text(self, indent: Seq<char>, with_newline: bool) -> Seq<char> {
        redex_text(
            indent,
            self.n1 as nat,
            " * "@,
            self.n2 as nat,
            " -d-> "@,
            self.n3 as nat,
            " by DR-Times {\n"@,
            self.premise.text(indent + "  "@, true),
            with_newline,
        )
    }

    /// Renders the rule and its premise behind `indent`.
    pub fn show(&self, indent: &str, with_newline: bool) -> (s: String)
        ensures
            s@ == self.text(indent@, with_newline),
    {
        show_redex(
            indent,
            self.n1,
            " * ",
            self.n2,
            " -d-> ",
            self.n3,
            " by DR-Times {\n",
            &self.premise,
            with_newline,
        )
    }
}

impl RPlusNode {
    pub open spec fn text(self, indent: Seq<char>, with_newline: bool) -> Seq<char> {
        redex_text(
            indent,
            self.n1 as nat,
            " + "@,
            self.n2 as nat,
            " ---> "@,
            self.n3 as nat,
            " by R-Plus {\n"@,
            self.premise.text(indent + "  "@, true),
            with_newline,
        )
    }

    /// Renders the rule and its premise behind `indent`.
    pub fn show(&self, indent: &str, with_newline: bool) -> (s: String)
        ensures
            s@ == self.text(indent@, with_newline),
    {
        show_redex(
            indent,
            self.n1,
            " + ",
            self.n2,
            " ---> ",
            self.n3,
            " by R-Plus {\n",
            &self.premise,
            with_newline,
        )
    }
}

impl RTimesNode {
    pub open spec fn text(self, indent: Seq<char>, with_newline: bool) -> Seq<char> {
        redex_text(
            indent,
            self.n1 as nat,
            " * "@,
            self.n2 as nat,
            " ---> "@,
            self.n3 as nat,
            " by R-Times {\n"@,
            self.premise.text(indent + "  "@, true),
            with_newline,
        )
    }

    /// Renders the rule and its premise behind `indent`.
    pub fn show(&self, indent: &str, with_newline: bool) -> (s: String)
        ensures
            s@ == self.text(indent@, with_newline),
    {
        show_redex(
            indent,
            self.n1,
            " * ",
            self.n2,
            " ---> ",
            self.n3,
            " by R-Times {\n",
            &self.premise,
            with_newline,
        )
    }
}

/// What a valid tree concludes: the expression that is reduced has two
/// terms at least, what it is reduced to has one, and where the first has
/// no operator in front, the other has none either.
pub proof fn lemma_valid_tree_shape(node: RuleNode)
    requires
        node.valid(),
    ensures
        node.conclusion().before.len() >= 2,
        node.conclusion().after.len() >= 1,
        node.conclusion().before[0].operator() == Operator::Empty
            ==> node.conclusion().after[0].operator() == Operator::Empty,
    decreases node,
{
    match node {
        RuleNode::MROne(inner) => {
            lemma_valid_tree_shape(*inner.premise);
        },
        RuleNode::DRPlusL(inner) => {
            lemma_valid_tree_shape(*inner.premise);
            let before = inner.before_terms@;
            crate::chapter1::parser_evalnatexp::lemma_split_position(
                before,
                0,
                before.len() as int,
            );
        },
        RuleNode::RPlusR(inner) => {
            lemma_valid_tree_shape(*inner.premise);
            let before = inner.before_terms@;
            crate::chapter1::parser_evalnatexp::lemma_split_position(
                before,
                0,
                before.len() as int,
            );
        },
        _ => {},
    }
}

/// Two valid trees that conclude the same are instances of the same rule.
proof fn lemma_same_rule(a: RuleNode, b: RuleNode)
    requires
        a.valid(),
        b.valid(),
        a.conclusion() == b.conclusion(),
    ensures
        a is MROne <==> b is MROne,
        a is DRTimes <==> b is DRTimes,
        a is DRPlusL <==> b is DRPlusL,
        a is RPlus <==> b is RPlus,
        a is RPlusR <==> b is RPlusR,
        a is RTimes <==> b is RTimes,
{
    lemma_valid_tree_shape(a);
    lemma_valid_tree_shape(b);
    lemma_premise_shape(a);
    lemma_premise_shape(b);
    if a is RPlus && b is RTimes {
        assert(a.conclusion().before[1] == b.conclusion().before[1]);
    }
    if a is RTimes && b is RPlus {
        assert(a.conclusion().before[1] == b.conclusion().before[1]);
    }
}

/// The premise of a rule that works on one side of a sum: the expression
/// that it reduces has two terms at least, so the sum has three, and what
/// it reduces that expression to has one at least.
proof fn lemma_premise_shape(node: RuleNode)
    requires
        node.valid(),
    ensures
        node is DRPlusL ==> node.conclusion().before.len() >= 3 && node.conclusion().after.len()
            >= 2,
        node is RPlusR ==> node.conclusion().before.len() >= 3 && node.conclusion().after.len()
            >= 2,
{
    match node {
        RuleNode::DRPlusL(inner) => {
            lemma_valid_tree_shape(*inner.premise);
            let before = inner.before_terms@;
            crate::chapter1::parser_evalnatexp::lemma_split_position(
                before,
                0,
                before.len() as int,
            );
        },
        RuleNode::RPlusR(inner) => {
            lemma_valid_tree_shape(*inner.premise);
            let before = inner.before_terms@;
            crate::chapter1::parser_evalnatexp::lemma_split_position(
                before,
                0,
                before.len() as int,
            );
        },
        _ => {},
    }
}

/// A judgement has one derivation only: two valid trees that conclude the
/// same are written the same.
pub proof fn lemma_valid_tree_is_unique(
    a: RuleNode,
    b: RuleNode,
    indent: Seq<char>,
    with_newline: bool,
)
    requires
        a.valid(),
        b.valid(),
        a.conclusion() == b.conclusion(),
    ensures
        a.text(indent, with_newline) == b.text(indent, with_newline),
    decreases a, 1nat,
{
    lemma_same_rule(a, b);
    match a {
        RuleNode::MROne(_) => lemma_wrapped_is_unique(a, b, indent, with_newline),
        RuleNode::DRPlusL(_) => lemma_left_step_is_unique(a, b, indent, with_newline),
        RuleNode::RPlusR(_) => lemma_right_step_is_unique(a, b, indent, with_newline),
        _ => lemma_redex_is_unique(a, b, indent, with_newline),
    }
}

proof fn lemma_wrapped_is_unique(a: RuleNode, b: RuleNode, indent: Seq<char>, with_newline: bool)
    requires
        a.valid(),
        b.valid(),
        a.conclusion() == b.conclusion(),
        a is MROne,
        b is MROne,
    ensures
        a.text(indent, with_newline) == b.text(indent, with_newline),
    decreases a, 0nat,
{
    lemma_valid_tree_is_unique(
        *a->MROne_0.premise,
        *b->MROne_0.premise,
        indent + "  "@,
        true,
    );
}

proof fn lemma_left_step_is_unique(a: RuleNode, b: RuleNode, indent: Seq<char>, with_newline: bool)
    requires
        a.valid(),
        b.valid(),
        a.conclusion() == b.conclusion(),
        a is DRPlusL,
        b is DRPlusL,
    ensures
        a.text(indent, with_newline) == b.text(indent, with_newline),
    decreases a, 0nat,
{
    let x = a->DRPlusL_0;
    let y = b->DRPlusL_0;
    let before = x.before_terms@;
    let at = split_position(before, 0, before.len() as int);
    lemma_join_cancels_right(
        x.premise.conclusion().after,
        y.premise.conclusion().after,
        slice(before, at, before.len() as int),
    );
    lemma_valid_tree_is_unique(*x.premise, *y.premise, indent + "  "@, true);
}

proof fn lemma_right_step_is_unique(a: RuleNode, b: RuleNode, indent: Seq<char>, with_newline: bool)
    requires
        a.valid(),
        b.valid(),
        a.conclusion() == b.conclusion(),
        a is RPlusR,
        b is RPlusR,
    ensures
        a.text(indent, with_newline) == b.text(indent, with_newline),
    decreases a, 0nat,
{
    let x = a->RPlusR_0;
    let y = b->RPlusR_0;
    let before = x.before_terms@;
    let at = split_position(before, 0, before.len() as int);
    crate::chapter1::parser_evalnatexp::lemma_split_position(before, 0, before.len() as int);
    lemma_valid_tree_shape(*x.premise);
    lemma_valid_tree_shape(*y.premise);
    assert(x.premise.conclusion().before[0].operator() == Operator::Empty);
    assert(y.premise.conclusion().before[0].operator() == Operator::Empty);
    lemma_join_cancels_left(
        before.subrange(0, at),
        x.premise.conclusion().after,
        y.premise.conclusion().after,
    );
    lemma_valid_tree_is_unique(*x.premise, *y.premise, indent + "  "@, true);
}

proof fn lemma_redex_is_unique(a: RuleNode, b: RuleNode, indent: Seq<char>, with_newline: bool)
    requires
        a.valid(),
        b.valid(),
        a.conclusion() == b.conclusion(),
        a is DRTimes || a is RPlus || a is RTimes,
        a is DRTimes <==> b is DRTimes,
        a is RPlus <==> b is RPlus,
        a is RTimes <==> b is RTimes,
    ensures
        a.text(indent, with_newline) == b.text(indent, with_newline),
{
    let one = a.conclusion();
    let other = b.conclusion();
    assert(one.before[0] == other.before[0]);
    assert(one.before[1] == other.before[1]);
    assert(one.after[0] == other.after[0]);
    match (a, b) {
        (RuleNode::DRTimes(x), RuleNode::DRTimes(y)) => {
            crate::chapter1::parser_nat::lemma_valid_tree_is_unique(x.premise, y.premise);
        },
        (RuleNode::RPlus(x), RuleNode::RPlus(y)) => {
            crate::chapter1::parser_nat::lemma_valid_tree_is_unique(x.premise, y.premise);
        },
        (RuleNode::RTimes(x), RuleNode::RTimes(y)) => {
            crate::chapter1::parser_nat::lemma_valid_tree_is_unique(x.premise, y.premise);
        },
        _ => {},
    }
}

proof fn lemma_join_cancels_right(one: Seq<TermModel>, other: Seq<TermModel>, right: Seq<TermModel>)
    requires
        join(one, Operator::Plus, right) == join(other, Operator::Plus, right),
    ensures
        one == other,
{
    let a = join(one, Operator::Plus, right);
    let b = join(other, Operator::Plus, right);
    assert(a.len() == b.len());
    assert forall|i: int| 0 <= i < one.len() implies one[i] == other[i] by {
        assert(a[i] == b[i]);
    }
    assert(one =~= other);
}

proof fn lemma_join_cancels_left(left: Seq<TermModel>, one: Seq<TermModel>, other: Seq<TermModel>)
    requires
        join(left, Operator::Plus, one) == join(left, Operator::Plus, other),
        one.len() > 0 ==> one[0].operator() == Operator::Empty,
        other.len() > 0 ==> other[0].operator() == Operator::Empty,
    ensures
        one == other,
{
    let a = join(left, Operator::Plus, one);
    let b = join(left, Operator::Plus, other);
    assert(a.len() == b.len());
    assert forall|i: int| 0 <= i < one.len() implies one[i] == other[i] by {
        assert(a[left.len() + i] == b[left.len() + i]);
    }
    assert(one =~= other);
}

} // verus!

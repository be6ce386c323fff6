//! Derivations of `e evalto n` for sums and products of Peano numerals.
//!
//! ```text
//! E-Const:  n evalto n
//! E-Plus:   e1 evalto n1,  e2 evalto n2,  n1 plus n2 is n   =>  e1 + e2 evalto n
//! E-Times:  e1 evalto n1,  e2 evalto n2,  n1 times n2 is n  =>  e1 * e2 evalto n
//! ```
//!
//! An expression is a sequence of terms, each with the operator that joins
//! it to the one before. It is split at the operator that binds least, and
//! among equals at the last one; the two halves are the operands.

use vstd::prelude::*;
use vstd::string::*;
use crate::chapter1::parser_nat::{Judgement as NatJudgement, RuleNode as NatRule, get_rule_plus, get_rule_times};
use crate::error::Error;
use crate::lexer::{Operator, Token, Tokens, after_peano, read_peano, scan_peano};
use crate::util::{get_depth_space, get_peano_num, line_end, line_end_str, peano, spaces};

verus! {

/// A numeral, or an expression in parentheses, with the operator in front.
#[derive(Debug, PartialEq)]
pub enum Term {
    Leaf(Operator, usize),
    Node(Operator, Terms),
}

/// A sequence of terms joined by operators.
#[derive(Debug, PartialEq)]
pub struct Terms {
    pub terms: Vec<Term>,
}

/// What a `Term` stands for.
pub enum TermModel {
    Leaf(Operator, nat),
    Node(Operator, Seq<TermModel>),
}

impl View for Term {
    type V = TermModel;

    open spec fn view(&self) -> TermModel
        decreases self,
    {
        match self {
            Term::Leaf(operator, n) => TermModel::Leaf(*operator, *n as nat),
            Term::Node(operator, terms) => TermModel::Node(*operator, terms@),
        }
    }
}

impl View for Terms {
    type V = Seq<TermModel>;

    open spec fn view(&self) -> Seq<TermModel>
        decreases self,
    {
        Seq::new(
            self.terms.len() as nat,
            |i: int|
                if 0 <= i < self.terms.len() {
                    self.terms[i]@
                } else {
                    TermModel::Leaf(Operator::Empty, 0)
                },
        )
    }
}

impl TermModel {
    /// The operator in front of the term.
    pub open spec fn operator(self) -> Operator {
        match self {
            TermModel::Leaf(operator, _) => operator,
            TermModel::Node(operator, _) => operator,
        }
    }

    /// The term with another operator in front.
    pub open spec fn with_operator(self, operator: Operator) -> TermModel {
        match self {
            TermModel::Leaf(_, n) => TermModel::Leaf(operator, n),
            TermModel::Node(_, terms) => TermModel::Node(operator, terms),
        }
    }
}

/// The terms with no operator in front of the first.
pub open spec fn clear_first(terms: Seq<TermModel>) -> Seq<TermModel> {
    if terms.len() == 0 {
        terms
    } else {
        terms.update(0, terms[0].with_operator(Operator::Empty))
    }
}

/// The terms `lo..hi` as an expression of their own: the first of them
/// loses its operator.
pub open spec fn slice(terms: Seq<TermModel>, lo: int, hi: int) -> Seq<TermModel> {
    clear_first(terms.subrange(lo, hi))
}

/// How loosely an operator binds: the higher, the sooner an expression is
/// split at it.
pub open spec fn priority(operator: Operator) -> nat {
    match operator {
        Operator::Empty => 0,
        Operator::Times => 10,
        Operator::Plus => 20,
    }
}

/// Where the terms `lo..hi` are split: at the operator of highest priority
/// behind the first term, and among equals at the last.
pub open spec fn split_position(terms: Seq<TermModel>, lo: int, hi: int) -> int
    decreases hi - lo,
{
    if hi - lo <= 1 {
        lo
    } else if hi - lo == 2 {
        lo + 1
    } else {
        let before = split_position(terms, lo, hi - 1);
        if priority(terms[before].operator()) <= priority(terms[hi - 1].operator()) {
            hi - 1
        } else {
            before
        }
    }
}

/// The split position lies behind the first term, no operator behind the
/// first term binds more loosely, and every operator behind the split binds
/// more tightly.
pub proof fn lemma_split_position(terms: Seq<TermModel>, lo: int, hi: int)
    requires
        0 <= lo,
        lo + 2 <= hi <= terms.len(),
    ensures
        lo < split_position(terms, lo, hi) < hi,
        forall|i: int|
            lo < i < hi ==> priority(#[trigger] terms[i].operator()) <= priority(
                terms[split_position(terms, lo, hi)].operator(),
            ),
        forall|i: int|
            split_position(terms, lo, hi) < i < hi ==> priority(#[trigger] terms[i].operator())
                < priority(terms[split_position(terms, lo, hi)].operator()),
    decreases hi - lo,
{
    if hi - lo > 2 {
        lemma_split_position(terms, lo, hi - 1);
    }
}

/// A chain of three terms with the same operator is split at the second
/// operator: the first two terms form the left operand.
pub proof fn lemma_equal_chain_splits_last(terms: Seq<TermModel>)
    requires
        terms.len() == 3,
        terms[1].operator() == terms[2].operator(),
    ensures
        split_position(terms, 0, 3) == 2,
{
    assert(split_position(terms, 0, 2) == 1);
}

/// Where terms are split depends on the operators behind the first of
/// them only: two runs of terms with the same operators there are split at
/// the same place.
pub proof fn lemma_split_position_congruent(
    one: Seq<TermModel>,
    lo: int,
    other: Seq<TermModel>,
    other_lo: int,
    count: int,
)
    requires
        0 <= lo,
        lo + count <= one.len(),
        0 <= other_lo,
        other_lo + count <= other.len(),
        forall|k: int|
            0 < k < count ==> (#[trigger] one[lo + k]).operator() == other[other_lo
                + k].operator(),
    ensures
        split_position(one, lo, lo + count) - lo == split_position(
            other,
            other_lo,
            other_lo + count,
        ) - other_lo,
        count >= 2 ==> lo < split_position(one, lo, lo + count) < lo + count,
    decreases count,
{
    if count > 2 {
        lemma_split_position_congruent(one, lo, other, other_lo, count - 1);
        let before = split_position(one, lo, lo + count - 1) - lo;
        assert(one[lo + before].operator() == other[other_lo + before].operator());
        assert(one[lo + (count - 1)].operator() == other[other_lo + (count - 1)].operator());
    }
}

/// The split position of a part of the terms, taken as an expression of its
/// own, is the split position within the whole.
pub proof fn lemma_split_position_of_slice(terms: Seq<TermModel>, lo: int, hi: int)
    requires
        0 <= lo,
        lo + 2 <= hi <= terms.len(),
    ensures
        split_position(slice(terms, lo, hi), 0, hi - lo) + lo == split_position(terms, lo, hi),
        lo < split_position(terms, lo, hi) < hi,
{
    let part = slice(terms, lo, hi);
    assert forall|k: int| 0 < k < hi - lo implies (#[trigger] part[0 + k]).operator() == terms[lo
        + k].operator() by {}
    lemma_split_position_congruent(part, 0, terms, lo, hi - lo);
}

/// The text of the operator between two terms.
pub open spec fn operator_text(operator: Operator) -> Seq<char> {
    match operator {
        Operator::Empty => Seq::empty(),
        Operator::Plus => " + "@,
        Operator::Times => " * "@,
    }
}

/// The text of a term without its operator.
pub open spec fn term_text(term: TermModel) -> Seq<char>
    decreases term,
{
    match term {
        TermModel::Leaf(_, n) => peano(n),
        TermModel::Node(_, terms) => "("@ + terms_text(terms, terms.len()) + ")"@,
    }
}

/// The text of the first `count` terms, each behind its operator.
pub open spec fn terms_text(terms: Seq<TermModel>, count: nat) -> Seq<char>
    decreases terms, count,
{
    if count == 0 || count > terms.len() {
        Seq::empty()
    } else {
        terms_text(terms, (count - 1) as nat) + operator_text(terms[count - 1].operator())
            + term_text(terms[count - 1])
    }
}

/// The expression that is left when the parentheses around the whole are
/// taken off.
pub open spec fn unwrapped(terms: Seq<TermModel>) -> Seq<TermModel>
    decreases terms,
{
    if terms.len() == 1 {
        match terms[0] {
            TermModel::Node(_, inner) => unwrapped(inner),
            TermModel::Leaf(_, _) => clear_first(terms),
        }
    } else {
        clear_first(terms)
    }
}

/// The number that the terms `lo..hi` evaluate to. It is an error where a
/// sum or product on the way leaves the machine integers, and where a pair
/// of parentheses is empty or two terms stand side by side with no operator
/// between them.
pub open spec fn value_in(terms: Seq<TermModel>, lo: int, hi: int) -> Result<nat, Error>
    decreases terms, hi - lo,
{
    if !(0 <= lo < hi <= terms.len()) {
        Err(Error::NoRule)
    } else if hi - lo == 1 {
        match terms[lo] {
            TermModel::Leaf(_, n) => Ok(n),
            TermModel::Node(_, inner) => value_in(inner, 0, inner.len() as int),
        }
    } else {
        let at = split_position(terms, lo, hi);
        if lo < at < hi {
            match value_in(terms, lo, at) {
                Err(e) => Err(e),
                Ok(n1) => match value_in(terms, at, hi) {
                    Err(e) => Err(e),
                    Ok(n2) => match terms[at].operator() {
                        Operator::Empty => Err(Error::NoRule),
                        Operator::Plus => if n1 + n2 <= usize::MAX {
                            Ok(n1 + n2)
                        } else {
                            Err(Error::Overflow)
                        },
                        Operator::Times => if n1 * n2 <= usize::MAX {
                            Ok(n1 * n2)
                        } else {
                            Err(Error::Overflow)
                        },
                    },
                },
            }
        } else {
            Err(Error::NoRule)
        }
    }
}

/// The term that stands in `s` at position `i`, to be joined by `operator`,
/// and the position behind it.
pub open spec fn read_term(s: Seq<Token>, i: int, operator: Operator) -> Option<(TermModel, int)>
    decreases s.len() - i, 0nat,
{
    if 0 <= i < s.len() {
        match s[i] {
            Token::ParenS(_) => match read_terms(s, i + 1) {
                Some((inner, end)) => if end < s.len() && s[end] is Pe {
                    Some((TermModel::Node(operator, inner), end + 1))
                } else {
                    None
                },
                None => None,
            },
            Token::Ps(_) | Token::Zero(_) => match read_peano(s, i) {
                Some(n) => Some((TermModel::Leaf(operator, n), after_peano(i, n))),
                None => None,
            },
            _ => None,
        }
    } else {
        None
    }
}

/// The longest sequence of terms that stands in `s` at position `i`, and the
/// position behind it.
pub open spec fn read_terms(s: Seq<Token>, i: int) -> Option<(Seq<TermModel>, int)>
    decreases s.len() - i, 2nat,
{
    match read_term(s, i, Operator::Empty) {
        Some((first, next)) => if i < next <= s.len() {
            read_more(s, next, seq![first])
        } else {
            None
        },
        None => None,
    }
}

/// The terms `found`, continued by the operators and terms that stand in `s`
/// from position `i` on.
pub open spec fn read_more(s: Seq<Token>, i: int, found: Seq<TermModel>) -> Option<
    (Seq<TermModel>, int),
>
    decreases s.len() - i, 1nat,
{
    if 0 <= i < s.len() {
        match s[i] {
            Token::OpC(operator, _) => if operator == Operator::Empty {
                None
            } else {
                match read_term(s, i + 1, operator) {
                    Some((term, next)) => if i + 1 < next <= s.len() {
                        read_more(s, next, found.push(term))
                    } else {
                        None
                    },
                    None => None,
                }
            },
            _ => Some((found, i)),
        }
    } else {
        Some((found, i))
    }
}

/// The judgement `e evalto n` at the front of `s`: the terms of `e`, the
/// number `n` and the position behind the judgement.
pub open spec fn read_judgement(s: Seq<Token>) -> Option<(Seq<TermModel>, nat, int)> {
    match read_terms(s, 0) {
        Some((terms, at_evalto)) => if 0 <= at_evalto < s.len() && s[at_evalto] is Eval {
            match read_peano(s, at_evalto + 1) {
                Some(n) => Some((terms, n, after_peano(at_evalto + 1, n))),
                None => None,
            }
        } else {
            None
        },
        None => None,
    }
}

impl Clone for Term {
    fn clone(&self) -> (r: Term)
        ensures
            r@ == self@,
        decreases self,
    {
        match self {
            Term::Leaf(operator, n) => Term::Leaf(*operator, *n),
            Term::Node(operator, terms) => Term::Node(*operator, terms.clone()),
        }
    }
}

impl Clone for Terms {
    fn clone(&self) -> (r: Terms)
        ensures
            r@ == self@,
        decreases self,
    {
        let mut terms: Vec<Term> = Vec::new();
        let mut i: usize = 0;
        while i < self.terms.len()
            invariant
                i <= self.terms.len(),
                terms.len() == i,
                forall|k: int| 0 <= k < i ==> terms[k]@ == self.terms[k]@,
            decreases self.terms.len() - i,
        {
            terms.push(self.terms[i].clone());
            i += 1;
        }
        let r = Terms { terms };
        assert(r@ =~= self@);
        r
    }
}

impl Term {
    /// Builds the term at position `pos` of the tokens, to be joined by
    /// `operator`, and gives the position behind it.
    pub fn parse(tokens: &Vec<Token>, pos: usize, operator: Operator) -> (r: Result<
        (Term, usize),
        Error,
    >)
        ensures
            match read_term(tokens@, pos as int, operator) {
                Some((term, end)) => r is Ok && r->Ok_0.0@ == term && r->Ok_0.1 == end && pos < end
                    <= tokens.len(),
                None => r == Err::<(Term, usize), Error>(Error::Syntax),
            },
        decreases tokens.len() - pos, 0nat,
    {
        if pos >= tokens.len() {
            return Err(Error::Syntax);
        }
        match tokens[pos] {
            Token::ParenS(_) => {
                let (inner, end) = match Terms::parse(tokens, pos + 1) {
                    Ok(found) => found,
                    Err(e) => return Err(e),
                };
                if end < tokens.len() && matches!(tokens[end], Token::Pe(_)) {
                    Ok((Term::Node(operator, inner), end + 1))
                } else {
                    Err(Error::Syntax)
                }
            },
            Token::Ps(_) | Token::Zero(_) => match scan_peano(tokens, pos) {
                Ok((n, end)) => Ok((Term::Leaf(operator, n), end)),
                Err(e) => Err(e),
            },
            _ => Err(Error::Syntax),
        }
    }

    /// Builds the term at the front of the tokens and consumes it.
    pub fn new(tokens: &mut Tokens, operator: Operator) -> (r: Result<Term, Error>)
        ensures
            match read_term(old(tokens)@, 0, operator) {
                Some((term, end)) => r is Ok && r->Ok_0@ == term && final(tokens)@ == old(
                    tokens,
                )@.skip(end),
                None => r == Err::<Term, Error>(Error::Syntax) && final(tokens)@ == old(tokens)@,
            },
    {
        match Term::parse(&tokens.tokens, 0, operator) {
            Ok((term, end)) => {
                tokens.advance(end);
                Ok(term)
            },
            Err(e) => Err(e),
        }
    }

    /// The operator in front of the term.
    pub fn get_operator(&self) -> (r: Operator)
        ensures
            r == self@.operator(),
    {
        match self {
            Term::Leaf(operator, _) => *operator,
            Term::Node(operator, _) => *operator,
        }
    }

    /// Writes the term without its operator.
    pub fn to_string(&self) -> (s: String)
        ensures
            s@ == term_text(self@),
        decreases self,
    {
        match self {
            Term::Leaf(_, n) => get_peano_num(*n),
            Term::Node(_, terms) => {
                let mut s = String::from_str("(");
                s.append(terms.to_string().as_str());
                s.append(")");
                s
            },
        }
    }
}

/// Writes the operator between two terms, with a blank on either side.
pub fn operator_str(operator: Operator) -> (s: &'static str)
    ensures
        s@ == operator_text(operator),
{
    match operator {
        Operator::Empty => {
            proof {
                reveal_strlit("");
            }
            ""
        },
        Operator::Plus => " + ",
        Operator::Times => " * ",
    }
}

impl Terms {
    /// Builds the terms that start at position `pos` of the tokens, up to
    /// the first token that is no operator, and gives the position of that
    /// token.
    pub fn parse(tokens: &Vec<Token>, pos: usize) -> (r: Result<(Terms, usize), Error>)
        ensures
            match read_terms(tokens@, pos as int) {
                Some((terms, end)) => r is Ok && r->Ok_0.0@ == terms && r->Ok_0.1 == end && pos
                    < end <= tokens.len(),
                None => r == Err::<(Terms, usize), Error>(Error::Syntax),
            },
        decreases tokens.len() - pos, 2nat,
    {
        let (first, next) = match Term::parse(tokens, pos, Operator::Empty) {
            Ok(found) => found,
            Err(e) => return Err(e),
        };
        let mut terms = Terms { terms: Vec::new() };
        terms.push(first);
        assert(terms@ =~= seq![first@]);
        let mut at: usize = next;
        loop
            invariant
                pos < at <= tokens.len(),
                read_terms(tokens@, pos as int) == read_more(tokens@, at as int, terms@),
            ensures
                read_terms(tokens@, pos as int) == Some((terms@, at as int)),
            decreases tokens.len() - at,
        {
            if at >= tokens.len() {
                break ;
            }
            let operator = match tokens[at] {
                Token::OpC(operator, _) => operator,
                _ => break ,
            };
            if operator == Operator::Empty {
                return Err(Error::Syntax);
            }
            let (term, next) = match Term::parse(tokens, at + 1, operator) {
                Ok(found) => found,
                Err(e) => return Err(e),
            };
            terms.push(term);
            at = next;
        }
        Ok((terms, at))
    }

    /// Builds the terms at the front of the tokens and consumes them.
    pub fn new(tokens: &mut Tokens) -> (r: Result<Terms, Error>)
        ensures
            match read_terms(old(tokens)@, 0) {
                Some((terms, end)) => r is Ok && r->Ok_0@ == terms && final(tokens)@ == old(
                    tokens,
                )@.skip(end),
                None => r == Err::<Terms, Error>(Error::Syntax) && final(tokens)@ == old(tokens)@,
            },
    {
        match Terms::parse(&tokens.tokens, 0) {
            Ok((terms, end)) => {
                tokens.advance(end);
                Ok(terms)
            },
            Err(e) => Err(e),
        }
    }

    /// Puts a term behind the last one.
    pub fn push(&mut self, term: Term)
        ensures
            final(self)@ == old(self)@.push(term@),
    {
        self.terms.push(term);
        assert(self@ =~= old(self)@.push(term@));
    }

    /// Takes the last term off.
    pub fn pop(&mut self) -> (r: Option<Term>)
        ensures
            old(self)@.len() == 0 ==> r is None && final(self)@ == old(self)@,
            old(self)@.len() > 0 ==> r is Some && r->Some_0@ == old(self)@.last() && final(self)@
                == old(self)@.drop_last(),
    {
        let r = self.terms.pop();
        assert(self@ =~= if old(self)@.len() > 0 {
            old(self)@.drop_last()
        } else {
            old(self)@
        });
        r
    }

    /// The number of terms.
    pub fn len(&self) -> (n: usize)
        ensures
            n == self@.len(),
    {
        self.terms.len()
    }

    /// Where the terms are split, and the operator at that position. A
    /// single term is not split: its position is 0 and the operator `Empty`.
    pub fn get_split_position(&self) -> (r: (usize, Operator))
        ensures
            r.0 == split_position(self@, 0, self@.len() as int),
            self@.len() >= 2 ==> 0 < r.0 < self@.len() && r.1 == self@[r.0 as int].operator(),
            self@.len() < 2 ==> r == (0usize, Operator::Empty),
    {
        self.split_in(0, self.terms.len())
    }

    /// Where the terms `lo..hi` are split, and the operator at that position.
    pub fn split_in(&self, lo: usize, hi: usize) -> (r: (usize, Operator))
        requires
            lo <= hi <= self@.len(),
        ensures
            r.0 == split_position(self@, lo as int, hi as int),
            hi - lo >= 2 ==> lo < r.0 < hi && r.1 == self@[r.0 as int].operator(),
            hi - lo < 2 ==> r == (lo, Operator::Empty),
    {
        if hi - lo < 2 {
            return (lo, Operator::Empty);
        }
        let mut at: usize = lo + 1;
        let mut operator = self.terms[at].get_operator();
        let mut end: usize = lo + 2;
        while end < hi
            invariant
                lo + 2 <= end <= hi <= self@.len(),
                lo < at < end,
                at == split_position(self@, lo as int, end as int),
                operator == self@[at as int].operator(),
            decreases hi - end,
        {
            let next = self.terms[end].get_operator();
            if precedes(operator, next) {
                at = end;
                operator = next;
            }
            end += 1;
        }
        (at, operator)
    }

    /// The two halves of the terms at `split_position`: the terms before it
    /// as they are, and the terms from it on with no operator in front. A
    /// position behind the last term leaves the second half empty.
    pub fn get_splitted_terms(&self, split_position: usize) -> (r: (Terms, Terms))
        ensures
            split_position <= self@.len() ==> r.0@ == self@.subrange(0, split_position as int)
                && r.1@ == slice(self@, split_position as int, self@.len() as int),
            split_position > self@.len() ==> r.0@ == self@ && r.1@ == Seq::<TermModel>::empty(),
    {
        let split_position = if split_position > self.terms.len() {
            assert(self@.subrange(0, self@.len() as int) =~= self@);
            assert(slice(self@, self@.len() as int, self@.len() as int) =~= Seq::<
                TermModel,
            >::empty());
            self.terms.len()
        } else {
            split_position
        };
        let former = self.copy_range(0, split_position);
        let mut latter = self.copy_range(split_position, self.terms.len());
        latter.rm_first_operator();
        (former, latter)
    }

    /// The terms `lo..hi`, with their operators.
    pub fn copy_range(&self, lo: usize, hi: usize) -> (r: Terms)
        requires
            lo <= hi <= self@.len(),
        ensures
            r@ == self@.subrange(lo as int, hi as int),
    {
        let mut terms: Vec<Term> = Vec::new();
        let mut i: usize = lo;
        while i < hi
            invariant
                lo <= i <= hi <= self.terms.len(),
                terms.len() == i - lo,
                forall|k: int| 0 <= k < i - lo ==> terms[k]@ == self.terms[lo + k]@,
            decreases hi - i,
        {
            terms.push(self.terms[i].clone());
            i += 1;
        }
        let r = Terms { terms };
        assert(r@ =~= self@.subrange(lo as int, hi as int));
        r
    }

    /// The terms `lo..hi` as an expression of their own.
    pub fn slice(&self, lo: usize, hi: usize) -> (r: Terms)
        requires
            lo <= hi <= self@.len(),
        ensures
            r@ == slice(self@, lo as int, hi as int),
    {
        let mut r = self.copy_range(lo, hi);
        r.rm_first_operator();
        r
    }

    /// Writes the terms, each behind its operator.
    pub fn to_string(&self) -> (s: String)
        ensures
            s@ == terms_text(self@, self@.len()),
        decreases self,
    {
        let mut s = String::new();
        let mut i: usize = 0;
        while i < self.terms.len()
            invariant
                i <= self.terms.len(),
                s@ == terms_text(self@, i as nat),
            decreases self.terms.len() - i,
        {
            s.append(operator_str(self.terms[i].get_operator()));
            s.append(self.terms[i].to_string().as_str());
            i += 1;
        }
        s
    }

    /// Takes the operator off the first term.
    pub fn rm_first_operator(&mut self)
        ensures
            final(self)@ == clear_first(old(self)@),
    {
        if self.terms.len() > 0 {
            let first = self.terms.remove(0);
            let cleared = match first {
                Term::Leaf(_, n) => Term::Leaf(Operator::Empty, n),
                Term::Node(_, terms) => Term::Node(Operator::Empty, terms),
            };
            self.terms.insert(0, cleared);
            assert(self@ =~= clear_first(old(self)@));
        }
    }
}

/// Whether an expression is split at `later` rather than at `earlier`, an
/// operator that stands before it.
pub fn precedes(earlier: Operator, later: Operator) -> (r: bool)
    ensures
        r == (priority(earlier) <= priority(later)),
{
    match (earlier, later) {
        (Operator::Empty, _) => true,
        (Operator::Times, Operator::Empty) => false,
        (Operator::Times, _) => true,
        (Operator::Plus, Operator::Plus) => true,
        (Operator::Plus, _) => false,
    }
}


/// A derivation tree: the rule at its root, which holds the premises.
#[derive(Debug, PartialEq)]
pub enum RuleNode {
    EConst(EConstNode),
    EPlus(EPlusNode),
    ETimes(ETimesNode),
}

/// `n evalto n`
#[derive(Debug, PartialEq)]
pub struct EConstNode {
    pub n: usize,
}

/// `terms evalto value`, where `terms` is a sum: from the values of the two
/// operands and the derivation of their sum.
#[derive(Debug, PartialEq)]
pub struct EPlusNode {
    pub terms: Terms,
    pub value: usize,
    pub premise_term1: Box<RuleNode>,
    pub premise_term2: Box<RuleNode>,
    pub premise: NatRule,
}

/// `terms evalto value`, where `terms` is a product: from the values of the
/// two operands and the derivation of their product.
#[derive(Debug, PartialEq)]
pub struct ETimesNode {
    pub terms: Terms,
    pub value: usize,
    pub premise_term1: Box<RuleNode>,
    pub premise_term2: Box<RuleNode>,
    pub premise: NatRule,
}

impl RuleNode {
    /// The expression of the judgement at the root.
    pub open spec fn subject(self) -> Seq<TermModel> {
        match self {
            RuleNode::EConst(node) => seq![TermModel::Leaf(Operator::Empty, node.n as nat)],
            RuleNode::EPlus(node) => node.terms@,
            RuleNode::ETimes(node) => node.terms@,
        }
    }

    /// The number that the judgement at the root gives the expression.
    pub open spec fn value(self) -> nat {
        match self {
            RuleNode::EConst(node) => node.n as nat,
            RuleNode::EPlus(node) => node.value as nat,
            RuleNode::ETimes(node) => node.value as nat,
        }
    }

    /// Whether every node of the tree is an instance of its rule: the
    /// expression is split into the expressions of the first two premises,
    /// and the third premise derives the result from their values.
    pub open spec fn valid(self) -> bool
        decreases self,
    {
        match self {
            RuleNode::EConst(_) => true,
            RuleNode::EPlus(node) => {
                let terms = node.terms@;
                let at = split_position(terms, 0, terms.len() as int);
                &&& terms.len() >= 2
                &&& terms[at].operator() == Operator::Plus
                &&& node.premise_term1.valid()
                &&& node.premise_term2.valid()
                &&& node.premise.valid()
                &&& node.premise_term1.subject() == unwrapped(slice(terms, 0, at))
                &&& node.premise_term2.subject() == unwrapped(slice(terms, at, terms.len() as int))
                &&& node.premise.conclusion() == NatJudgement::Plus(
                    node.premise_term1.value(),
                    node.premise_term2.value(),
                    node.value as nat,
                )
            },
            RuleNode::ETimes(node) => {
                let terms = node.terms@;
                let at = split_position(terms, 0, terms.len() as int);
                &&& terms.len() >= 2
                &&& terms[at].operator() == Operator::Times
                &&& node.premise_term1.valid()
                &&& node.premise_term2.valid()
                &&& node.premise.valid()
                &&& node.premise_term1.subject() == unwrapped(slice(terms, 0, at))
                &&& node.premise_term2.subject() == unwrapped(slice(terms, at, terms.len() as int))
                &&& node.premise.conclusion() == NatJudgement::Times(
                    node.premise_term1.value(),
                    node.premise_term2.value(),
                    node.value as nat,
                )
            },
        }
    }

    /// The text of the tree, each line behind `indent`.
    pub open spec fn text(self, indent: Seq<char>, with_newline: bool) -> Seq<char>
        decreases self,
    {
        match self {
            RuleNode::EConst(node) => node.text(indent, with_newline),
            RuleNode::EPlus(node) => node.text(indent, with_newline),
            RuleNode::ETimes(node) => node.text(indent, with_newline),
        }
    }

    /// Builds the derivation of the judgement `e evalto n` that the tokens
    /// state, and consumes them. The tree derives the value of `e`, whatever
    /// number the judgement claims.
    pub fn new(tokens: &mut Tokens) -> (r: Result<RuleNode, Error>)
        ensures
            match read_judgement(old(tokens)@) {
                None => r == Err::<RuleNode, Error>(Error::Syntax) && final(tokens)@ == old(
                    tokens,
                )@,
                Some((terms, _, end)) => match value_in(terms, 0, terms.len() as int) {
                    Ok(n) => {
                        &&& r is Ok
                        &&& r->Ok_0.valid()
                        &&& r->Ok_0.subject() == unwrapped(terms)
                        &&& r->Ok_0.value() == n
                        &&& final(tokens)@ == old(tokens)@.skip(end)
                    },
                    Err(e) => r == Err::<RuleNode, Error>(e) && final(tokens)@ == old(tokens)@,
                },
            },
    {
        let (terms, at_evalto) = match Terms::parse(&tokens.tokens, 0) {
            Ok(found) => found,
            Err(e) => return Err(e),
        };
        if at_evalto >= tokens.tokens.len() || !matches!(tokens.tokens[at_evalto], Token::Eval(_)) {
            return Err(Error::Syntax);
        }
        let (_, end) = match scan_peano(&tokens.tokens, at_evalto + 1) {
            Ok(found) => found,
            Err(e) => return Err(e),
        };
        match get_rule_eval(terms) {
            Ok(node) => {
                tokens.advance(end);
                Ok(node)
            },
            Err(e) => Err(e),
        }
    }

    /// The number that the expression at the root evaluates to.
    pub fn get_val(&self) -> (n: usize)
        ensures
            n == self.value(),
    {
        match self {
            RuleNode::EConst(node) => node.get_val(),
            RuleNode::EPlus(node) => node.get_val(),
            RuleNode::ETimes(node) => node.get_val(),
        }
    }

    /// Renders the tree, the root at the given depth.
    pub fn show(&self, depth: usize, with_newline: bool) -> (s: String)
        ensures
            s@ == self.text(spaces(depth as nat), with_newline),
    {
        let indent = get_depth_space(depth);
        self.show_indented(indent.as_str(), with_newline)
    }

    /// Renders the tree, each line behind `indent`.
    pub fn show_indented(&self, indent: &str, with_newline: bool) -> (s: String)
        ensures
            s@ == self.text(indent@, with_newline),
        decreases self,
    {
        match self {
            RuleNode::EConst(node) => node.show(indent, with_newline),
            RuleNode::EPlus(node) => node.show(indent, with_newline),
            RuleNode::ETimes(node) => node.show(indent, with_newline),
        }
    }
}

impl EPlusNode {
    pub open spec fn text(self, indent: Seq<char>, with_newline: bool) -> Seq<char>
        decreases self,
    {
        indent + terms_text(self.terms@, self.terms@.len()) + " evalto "@ + peano(
            self.value as nat,
        ) + " by E-Plus {\n"@ + self.premise_term1.text(indent + "  "@, false) + ";\n"@
            + self.premise_term2.text(indent + "  "@, false) + ";\n"@ + self.premise.text(
            indent + "  "@,
            true,
        ) + indent + "}"@ + line_end(with_newline)
    }

    /// Renders the rule and its premises behind `indent`.
    pub fn show(&self, indent: &str, with_newline: bool) -> (s: String)
        ensures
            s@ == self.text(indent@, with_newline),
        decreases self,
    {
        let mut s = String::from_str(indent);
        s.append(self.terms.to_string().as_str());
        s.append(" evalto ");
        s.append(get_peano_num(self.value).as_str());
        s.append(" by E-Plus {\n");
        let mut deeper = String::from_str(indent);
        deeper.append("  ");
        s.append(self.premise_term1.show_indented(deeper.as_str(), false).as_str());
        s.append(";\n");
        s.append(self.premise_term2.show_indented(deeper.as_str(), false).as_str());
        s.append(";\n");
        s.append(self.premise.show_indented(deeper.as_str(), true).as_str());
        s.append(indent);
        s.append("}");
        s.append(line_end_str(with_newline));
        s
    }

    /// The sum that the rule concludes.
    pub fn get_val(&self) -> (n: usize)
        ensures
            n == self.value,
    {
        self.value
    }
}

impl ETimesNode {
    pub open spec fn text(self, indent: Seq<char>, with_newline: bool) -> Seq<char>
        decreases self,
    {
        indent + terms_text(self.terms@, self.terms@.len()) + " evalto "@ + peano(
            self.value as nat,
        ) + " by E-Times {\n"@ + self.premise_term1.text(indent + "  "@, false) + ";\n"@
            + self.premise_term2.text(indent + "  "@, false) + ";\n"@ + self.premise.text(
            indent + "  "@,
            true,
        ) + indent + "}"@ + line_end(with_newline)
    }

    /// Renders the rule and its premises behind `indent`.
    pub fn show(&self, indent: &str, with_newline: bool) -> (s: String)
        ensures
            s@ == self.text(indent@, with_newline),
        decreases self,
    {
        let mut s = String::from_str(indent);
        s.append(self.terms.to_string().as_str());
        s.append(" evalto ");
        s.append(get_peano_num(self.value).as_str());
        s.append(" by E-Times {\n");
        let mut deeper = String::from_str(indent);
        deeper.append("  ");
        s.append(self.premise_term1.show_indented(deeper.as_str(), false).as_str());
        s.append(";\n");
        s.append(self.premise_term2.show_indented(deeper.as_str(), false).as_str());
        s.append(";\n");
        s.append(self.premise.show_indented(deeper.as_str(), true).as_str());
        s.append(indent);
        s.append("}");
        s.append(line_end_str(with_newline));
        s
    }

    /// The product that the rule concludes.
    pub fn get_val(&self) -> (n: usize)
        ensures
            n == self.value,
    {
        self.value
    }
}

/// Taking the operator off the first term changes nothing of what is left
/// without the outer parentheses.
pub proof fn lemma_unwrapped_clear_first(terms: Seq<TermModel>)
    ensures
        unwrapped(clear_first(terms)) == unwrapped(terms),
{
    if terms.len() == 1 {
        match terms[0] {
            TermModel::Node(_, inner) => {},
            TermModel::Leaf(_, _) => {
                assert(clear_first(clear_first(terms)) =~= clear_first(terms));
            },
        }
    } else {
        assert(clear_first(clear_first(terms)) =~= clear_first(terms));
    }
}

/// The derivation for the terms `lo..hi`.
fn rule_in(terms: &Terms, lo: usize, hi: usize) -> (r: Result<RuleNode, Error>)
    requires
        lo <= hi <= terms@.len(),
    ensures
        match value_in(terms@, lo as int, hi as int) {
            Ok(n) => {
                &&& r is Ok
                &&& r->Ok_0.valid()
                &&& r->Ok_0.subject() == unwrapped(slice(terms@, lo as int, hi as int))
                &&& r->Ok_0.value() == n
            },
            Err(e) => r == Err::<RuleNode, Error>(e),
        },
    decreases terms, hi - lo,
{
    if lo >= hi {
        return Err(Error::NoRule);
    }
    if hi - lo == 1 {
        match &terms.terms[lo] {
            Term::Leaf(_, n) => {
                assert(slice(terms@, lo as int, hi as int) =~= seq![
                    TermModel::Leaf(Operator::Empty, *n as nat),
                ]);
                Ok(RuleNode::EConst(EConstNode { n: *n }))
            },
            Term::Node(_, inner) => {
                proof {
                    assert(slice(terms@, lo as int, hi as int) =~= seq![
                        TermModel::Node(Operator::Empty, inner@),
                    ]);
                    assert(inner@.subrange(0, inner@.len() as int) =~= inner@);
                    lemma_unwrapped_clear_first(inner@);
                }
                rule_in(inner, 0, inner.terms.len())
            },
        }
    } else {
        let (at, operator) = terms.split_in(lo, hi);
        let premise_term1 = match rule_in(terms, lo, at) {
            Ok(node) => node,
            Err(e) => return Err(e),
        };
        let premise_term2 = match rule_in(terms, at, hi) {
            Ok(node) => node,
            Err(e) => return Err(e),
        };
        let n1 = premise_term1.get_val();
        let n2 = premise_term2.get_val();
        let whole = terms.slice(lo, hi);
        proof {
            lemma_split_position_of_slice(terms@, lo as int, hi as int);
            assert(slice(whole@, 0, at - lo) =~= slice(terms@, lo as int, at as int));
            assert(slice(whole@, at - lo, hi - lo) =~= slice(terms@, at as int, hi as int));
            assert(clear_first(whole@) =~= whole@);
            assert(unwrapped(whole@) == whole@);
            assert(whole@[at - lo] == terms@[at as int]);
        }
        match operator {
            Operator::Times => match n1.checked_mul(n2) {
                Some(value) => Ok(
                    RuleNode::ETimes(
                        ETimesNode {
                            terms: whole,
                            value,
                            premise_term1: Box::new(premise_term1),
                            premise_term2: Box::new(premise_term2),
                            premise: get_rule_times(n1, n2),
                        },
                    ),
                ),
                None => Err(Error::Overflow),
            },
            Operator::Empty => Err(Error::NoRule),
            Operator::Plus => match n1.checked_add(n2) {
                Some(value) => Ok(
                    RuleNode::EPlus(
                        EPlusNode {
                            terms: whole,
                            value,
                            premise_term1: Box::new(premise_term1),
                            premise_term2: Box::new(premise_term2),
                            premise: get_rule_plus(n1, n2),
                        },
                    ),
                ),
                None => Err(Error::Overflow),
            },
        }
    }
}

/// The derivation of the value of the terms.
pub fn get_rule_eval(terms: Terms) -> (r: Result<RuleNode, Error>)
    ensures
        match value_in(terms@, 0, terms@.len() as int) {
            Ok(n) => {
                &&& r is Ok
                &&& r->Ok_0.valid()
                &&& r->Ok_0.subject() == unwrapped(terms@)
                &&& r->Ok_0.value() == n
            },
            Err(e) => r == Err::<RuleNode, Error>(e),
        },
{
    proof {
        assert(terms@.subrange(0, terms@.len() as int) =~= terms@);
        lemma_unwrapped_clear_first(terms@);
    }
    rule_in(&terms, 0, terms.terms.len())
}

impl EConstNode {
    pub open spec fn text(self, indent: Seq<char>, with_newline: bool) -> Seq<char> {
        indent + peano(self.n as nat) + " evalto "@ + peano(self.n as nat) + " by E-Const {}"@
            + line_end(with_newline)
    }

    /// Renders the rule behind `indent`.
    pub fn show(&self, indent: &str, with_newline: bool) -> (s: String)
        ensures
            s@ == self.text(indent@, with_newline),
    {
        let n = get_peano_num(self.n);
        let mut s = String::from_str(indent);
        s.append(n.as_str());
        s.append(" evalto ");
        s.append(n.as_str());
        s.append(" by E-Const {}");
        s.append(line_end_str(with_newline));
        s
    }

    /// The number that the constant evaluates to: itself.
    pub fn get_val(&self) -> (n: usize)
        ensures
            n == self.n,
    {
        self.n
    }
}



impl Term {
    /// Whether the two terms are the same, operator included.
    pub fn same(&self, other: &Term) -> (r: bool)
        ensures
            r == (self@ == other@),
        decreases self,
    {
        match (self, other) {
            (Term::Leaf(operator, n), Term::Leaf(other_operator, m)) => *operator
                == *other_operator && *n == *m,
            (Term::Node(operator, terms), Term::Node(other_operator, other_terms)) => *operator
                == *other_operator && terms.same(other_terms),
            _ => false,
        }
    }
}

impl Terms {
    /// Whether the two sequences hold the same terms.
    pub fn same(&self, other: &Terms) -> (r: bool)
        ensures
            r == (self@ == other@),
        decreases self, 1nat,
    {
        if self.terms.len() != other.terms.len() {
            return false;
        }
        assert(self@.subrange(0, self@.len() as int) =~= self@);
        assert(other@.subrange(0, other@.len() as int) =~= other@);
        self.same_range(0, other, 0, self.terms.len())
    }

    /// Whether the `count` terms of `self` from `lo` on are the `count`
    /// terms of `other` from `other_lo` on.
    pub fn same_range(&self, lo: usize, other: &Terms, other_lo: usize, count: usize) -> (r: bool)
        requires
            lo + count <= self@.len(),
            other_lo + count <= other@.len(),
        ensures
            r == (self@.subrange(lo as int, lo + count) == other@.subrange(
                other_lo as int,
                other_lo + count,
            )),
        decreases self, 0nat,
    {
        let mut i: usize = 0;
        while i < count
            invariant
                i <= count,
                lo + count <= self.terms.len(),
                other_lo + count <= other.terms.len(),
                forall|k: int| lo <= k < lo + i ==> #[trigger] self@[k] == other@[k - lo + other_lo],
            decreases count - i,
        {
            if !self.terms[lo + i].same(&other.terms[other_lo + i]) {
                assert(self@.subrange(lo as int, lo + count)[i as int] != other@.subrange(
                    other_lo as int,
                    other_lo + count,
                )[i as int]);
                return false;
            }
            i += 1;
        }
        assert(self@.subrange(lo as int, lo + count) =~= other@.subrange(
            other_lo as int,
            other_lo + count,
        ));
        true
    }
}


impl TermModel {
    /// The term without its operator.
    pub open spec fn bare(self) -> TermModel {
        self.with_operator(Operator::Empty)
    }
}

/// The value of terms depends on the terms and on the operators behind the
/// first of them only: two runs of the same terms with the same operators
/// there have the same value, wherever they stand.
pub proof fn lemma_value_congruent(
    one: Seq<TermModel>,
    lo: int,
    other: Seq<TermModel>,
    other_lo: int,
    count: int,
)
    requires
        0 <= lo,
        lo + count <= one.len(),
        0 <= other_lo,
        other_lo + count <= other.len(),
        forall|k: int|
            0 <= k < count ==> (#[trigger] one[lo + k]).bare() == other[other_lo + k].bare(),
        forall|k: int|
            0 < k < count ==> (#[trigger] one[lo + k]).operator() == other[other_lo
                + k].operator(),
    ensures
        value_in(one, lo, lo + count) == value_in(other, other_lo, other_lo + count),
    decreases count,
{
    if count == 1 {
        assert(one[lo + 0].bare() == other[other_lo + 0].bare());
    } else if count >= 2 {
        lemma_split_position_congruent(one, lo, other, other_lo, count);
        let at = split_position(one, lo, lo + count) - lo;
        assert(one[lo + at].operator() == other[other_lo + at].operator());
        assert forall|k: int| 0 <= k < count - at implies (#[trigger] one[lo + at + k]).bare()
            == other[other_lo + at + k].bare() by {
            assert(one[lo + (at + k)].bare() == other[other_lo + (at + k)].bare());
        }
        assert forall|k: int| 0 < k < count - at implies (#[trigger] one[lo + at
            + k]).operator() == other[other_lo + at + k].operator() by {
            assert(one[lo + (at + k)].operator() == other[other_lo + (at + k)].operator());
        }
        lemma_value_congruent(one, lo, other, other_lo, at);
        lemma_value_congruent(one, lo + at, other, other_lo + at, count - at);
    }
}

/// A part of the terms, taken as an expression of its own, has the value
/// that it has within the whole.
pub proof fn lemma_value_of_slice(terms: Seq<TermModel>, lo: int, hi: int)
    requires
        0 <= lo <= hi <= terms.len(),
    ensures
        value_in(slice(terms, lo, hi), 0, hi - lo) == value_in(terms, lo, hi),
{
    let part = slice(terms, lo, hi);
    assert forall|k: int| 0 <= k < hi - lo implies (#[trigger] part[0 + k]).bare() == terms[lo
        + k].bare() by {}
    assert forall|k: int| 0 < k < hi - lo implies (#[trigger] part[0 + k]).operator() == terms[lo
        + k].operator() by {}
    lemma_value_congruent(part, 0, terms, lo, hi - lo);
}

/// Parentheses around the whole of an expression do not change its value.
pub proof fn lemma_value_of_unwrapped(terms: Seq<TermModel>)
    ensures
        value_in(unwrapped(terms), 0, unwrapped(terms).len() as int) == value_in(
            terms,
            0,
            terms.len() as int,
        ),
    decreases terms,
{
    if terms.len() == 1 && terms[0] is Node {
        lemma_value_of_unwrapped(terms[0]->Node_1);
    } else {
        assert(terms.subrange(0, terms.len() as int) =~= terms);
        lemma_value_of_slice(terms, 0, terms.len() as int);
    }
}

/// The rules are sound: a valid tree gives its expression the value that
/// the expression evaluates to.
pub proof fn lemma_valid_tree_gives_the_value(node: RuleNode)
    requires
        node.valid(),
    ensures
        value_in(node.subject(), 0, node.subject().len() as int) == Ok::<nat, Error>(
            node.value(),
        ),
    decreases node,
{
    let terms = node.subject();
    let len = terms.len() as int;
    let at = split_position(terms, 0, len);
    match node {
        RuleNode::EConst(_) => {},
        RuleNode::EPlus(inner) => {
            lemma_valid_tree_gives_the_value(*inner.premise_term1);
            lemma_valid_tree_gives_the_value(*inner.premise_term2);
            crate::chapter1::parser_nat::lemma_valid_tree_holds(inner.premise);
            lemma_operand_values(terms);
        },
        RuleNode::ETimes(inner) => {
            lemma_valid_tree_gives_the_value(*inner.premise_term1);
            lemma_valid_tree_gives_the_value(*inner.premise_term2);
            crate::chapter1::parser_nat::lemma_valid_tree_holds(inner.premise);
            lemma_operand_values(terms);
        },
    }
}

proof fn lemma_operand_values(terms: Seq<TermModel>)
    requires
        terms.len() >= 2,
    ensures
        ({
            let at = split_position(terms, 0, terms.len() as int);
            let left = unwrapped(slice(terms, 0, at));
            let right = unwrapped(slice(terms, at, terms.len() as int));
            &&& 0 < at < terms.len()
            &&& value_in(left, 0, left.len() as int) == value_in(terms, 0, at)
            &&& value_in(right, 0, right.len() as int) == value_in(terms, at, terms.len() as int)
        }),
{
    let len = terms.len() as int;
    let at = split_position(terms, 0, len);
    assert forall|k: int| 0 < k < len implies (#[trigger] terms[0 + k]).operator() == terms[0
        + k].operator() by {}
    lemma_split_position_congruent(terms, 0, terms, 0, len);
    lemma_value_of_unwrapped(slice(terms, 0, at));
    lemma_value_of_unwrapped(slice(terms, at, len));
    lemma_value_of_slice(terms, 0, at);
    lemma_value_of_slice(terms, at, len);
}


/// A judgement has one derivation only: two valid trees for the same
/// expression give it the same value and are written the same.
pub proof fn lemma_valid_tree_is_unique(
    a: RuleNode,
    b: RuleNode,
    indent: Seq<char>,
    with_newline: bool,
)
    requires
        a.valid(),
        b.valid(),
        a.subject() == b.subject(),
    ensures
        a.value() == b.value(),
        a.text(indent, with_newline) == b.text(indent, with_newline),
    decreases a,
{
    lemma_valid_tree_gives_the_value(a);
    lemma_valid_tree_gives_the_value(b);
    let inner = indent + "  "@;
    match (a, b) {
        (RuleNode::EPlus(x), RuleNode::EPlus(y)) => {
            lemma_valid_tree_is_unique(*x.premise_term1, *y.premise_term1, inner, false);
            lemma_valid_tree_is_unique(*x.premise_term2, *y.premise_term2, inner, false);
            crate::chapter1::parser_nat::lemma_valid_tree_is_unique(x.premise, y.premise);
        },
        (RuleNode::ETimes(x), RuleNode::ETimes(y)) => {
            lemma_valid_tree_is_unique(*x.premise_term1, *y.premise_term1, inner, false);
            lemma_valid_tree_is_unique(*x.premise_term2, *y.premise_term2, inner, false);
            crate::chapter1::parser_nat::lemma_valid_tree_is_unique(x.premise, y.premise);
        },
        _ => {},
    }
}

} // verus!

//! ML-like expressions: sequences of terms joined by operators, and where
//! they are split into operands.
//!
//! An expression is split at the operator that binds least, and among
//! equals at the last one. `*` binds tighter than `+` and `-`, which bind
//! tighter than `<`.

use vstd::prelude::*;
use vstd::string::*;
use super::lexer::{Operator, Token, TokenModel, Tokens, is_at, scan_op, scan_var, token_views};
use super::terms::{Term, TermModel, read_binding, read_term, term_text};
use crate::error::Error;

verus! {

/// A sequence of terms, each with the operator that joins it to the one
/// before.
#[derive(Debug, PartialEq)]
pub struct Expression {
    pub terms: Vec<(Operator, Term)>,
}

/// `identifier = expression`, the binding of a `let`.
#[derive(Debug, PartialEq)]
pub struct LetExpression {
    pub identifier: String,
    pub expression: Expression,
}

/// What an `Expression` stands for.
pub type ExpressionModel = Seq<(Operator, TermModel)>;

impl View for Expression {
    type V = ExpressionModel;

    open spec fn view(&self) -> ExpressionModel
        decreases self,
    {
        Seq::new(
            self.terms.len() as nat,
            |i: int|
                if 0 <= i < self.terms.len() {
                    (self.terms[i].0, self.terms[i].1@)
                } else {
                    (Operator::Empty, TermModel::Val(0))
                },
        )
    }
}

/// The expression with no operator in front of the first term.
pub open spec fn clear_first(expression: ExpressionModel) -> ExpressionModel {
    if expression.len() == 0 {
        expression
    } else {
        expression.update(0, (Operator::Empty, expression[0].1))
    }
}

/// The terms `lo..hi` as an expression of their own: the first of them
/// loses its operator.
pub open spec fn slice(expression: ExpressionModel, lo: int, hi: int) -> ExpressionModel {
    clear_first(expression.subrange(lo, hi))
}

/// How loosely an operator binds: the higher, the sooner an expression is
/// split at it.
pub open spec fn priority(operator: Operator) -> nat {
    match operator {
        Operator::Empty => 0,
        Operator::Times => 10,
        Operator::Plus => 20,
        Operator::Minus => 20,
        Operator::Lt => 30,
    }
}

/// Where the terms `lo..hi` are split: at the operator of highest priority
/// behind the first term, and among equals at the last.
pub open spec fn split_position(expression: ExpressionModel, lo: int, hi: int) -> int
    decreases hi - lo,
{
    if hi - lo <= 1 {
        lo
    } else if hi - lo == 2 {
        lo + 1
    } else {
        let before = split_position(expression, lo, hi - 1);
        if priority(expression[before].0) <= priority(expression[hi - 1].0) {
            hi - 1
        } else {
            before
        }
    }
}

/// The split position lies behind the first term, no operator behind the
/// first term binds more loosely, and every operator behind the split binds
/// more tightly.
pub proof fn lemma_split_position(expression: ExpressionModel, lo: int, hi: int)
    requires
        0 <= lo,
        lo + 2 <= hi <= expression.len(),
    ensures
        lo < split_position(expression, lo, hi) < hi,
        forall|i: int|
            lo < i < hi ==> priority((#[trigger] expression[i]).0) <= priority(
                expression[split_position(expression, lo, hi)].0,
            ),
        forall|i: int|
            split_position(expression, lo, hi) < i < hi ==> priority((#[trigger] expression[i]).0)
                < priority(expression[split_position(expression, lo, hi)].0),
    decreases hi - lo,
{
    if hi - lo > 2 {
        lemma_split_position(expression, lo, hi - 1);
    }
}

/// A chain of three terms joined by operators that bind equally, as in
/// `a - b - c`, is split at the second operator: the first two terms form
/// the left operand.
pub proof fn lemma_equal_chain_splits_last(expression: ExpressionModel)
    requires
        expression.len() == 3,
        priority(expression[1].0) == priority(expression[2].0),
    ensures
        split_position(expression, 0, 3) == 2,
{
    assert(split_position(expression, 0, 2) == 1);
}

/// Where terms are split depends on the operators behind the first of
/// them only: two runs of terms with the same operators there are split at
/// the same place.
pub proof fn lemma_split_position_congruent(
    one: ExpressionModel,
    lo: int,
    other: ExpressionModel,
    other_lo: int,
    count: int,
)
    requires
        0 <= lo,
        lo + count <= one.len(),
        0 <= other_lo,
        other_lo + count <= other.len(),
        forall|k: int| 0 < k < count ==> (#[trigger] one[lo + k]).0 == other[other_lo + k].0,
    ensures
        split_position(one, lo, lo + count) - lo == split_position(
            other,
            other_lo,
            other_lo + count,
        ) - other_lo,
        count >= 2 ==> lo < split_position(one, lo, lo + count) < lo + count,
    decreases count,
{
    if count > 2 {
        lemma_split_position_congruent(one, lo, other, other_lo, count - 1);
        let before = split_position(one, lo, lo + count - 1) - lo;
        assert(one[lo + before].0 == other[other_lo + before].0);
        assert(one[lo + (count - 1)].0 == other[other_lo + (count - 1)].0);
    }
}

/// The split position of a part of an expression, taken as an expression of
/// its own, is the split position within the whole.
pub proof fn lemma_split_position_of_slice(expression: ExpressionModel, lo: int, hi: int)
    requires
        0 <= lo,
        lo + 2 <= hi <= expression.len(),
    ensures
        split_position(slice(expression, lo, hi), 0, hi - lo) + lo == split_position(
            expression,
            lo,
            hi,
        ),
        lo < split_position(expression, lo, hi) < hi,
{
    let part = slice(expression, lo, hi);
    assert forall|k: int| 0 < k < hi - lo implies (#[trigger] part[0 + k]).0 == expression[lo
        + k].0 by {}
    lemma_split_position_congruent(part, 0, expression, lo, hi - lo);
}

/// The text of the operator between two terms.
pub open spec fn operator_text(operator: Operator) -> Seq<char> {
    match operator {
        Operator::Empty => Seq::empty(),
        Operator::Plus => " + "@,
        Operator::Minus => " - "@,
        Operator::Times => " * "@,
        Operator::Lt => " < "@,
    }
}

/// The text of the first `count` terms, each behind its operator.
pub open spec fn expression_text(expression: ExpressionModel, count: nat) -> Seq<char>
    decreases expression, count,
{
    if count == 0 || count > expression.len() {
        Seq::empty()
    } else {
        expression_text(expression, (count - 1) as nat) + operator_text(expression[count - 1].0)
            + term_text(expression[count - 1].1)
    }
}

/// The expression that is left when the parentheses around the whole are
/// taken off.
pub open spec fn unwrapped(expression: ExpressionModel) -> ExpressionModel
    decreases expression,
{
    if expression.len() == 1 {
        match expression[0].1 {
            TermModel::Paren(inner) => unwrapped(inner),
            _ => clear_first(expression),
        }
    } else {
        clear_first(expression)
    }
}

/// Taking the operator off the first term changes nothing of what is left
/// without the outer parentheses.
pub proof fn lemma_unwrapped_clear_first(expression: ExpressionModel)
    ensures
        unwrapped(clear_first(expression)) == unwrapped(expression),
{
    assert(clear_first(clear_first(expression)) =~= clear_first(expression));
}

/// The longest expression that stands in `s` at position `i`, and the
/// position behind it.
pub open spec fn read_expression(s: Seq<TokenModel>, i: int) -> Option<(ExpressionModel, int)>
    decreases s.len() - i, 3nat,
{
    match read_term(s, i) {
        Some((first, next)) => if i < next <= s.len() {
            read_more(s, next, seq![(Operator::Empty, first)])
        } else {
            None
        },
        None => None,
    }
}

/// The terms `found`, continued by the operators and terms that stand in `s`
/// from position `i` on.
pub open spec fn read_more(s: Seq<TokenModel>, i: int, found: ExpressionModel) -> Option<
    (ExpressionModel, int),
>
    decreases s.len() - i, 2nat,
{
    if 0 <= i < s.len() {
        match s[i] {
            TokenModel::Op(operator) => if operator == Operator::Empty {
                None
            } else {
                match read_term(s, i + 1) {
                    Some((term, next)) => if i + 1 < next <= s.len() {
                        read_more(s, next, found.push((operator, term)))
                    } else {
                        None
                    },
                    None => None,
                }
            },
            _ => Some((found, i)),
        }
    } else {
        Some((found, i))
    }
}

impl Clone for Expression {
    fn clone(&self) -> (r: Expression)
        ensures
            r@ == self@,
        decreases self,
    {
        let mut terms: Vec<(Operator, Term)> = Vec::new();
        let mut i: usize = 0;
        while i < self.terms.len()
            invariant
                i <= self.terms.len(),
                terms.len() == i,
                forall|k: int|
                    0 <= k < i ==> (#[trigger] terms[k]).0 == self.terms[k].0 && terms[k].1@
                        == self.terms[k].1@,
            decreases self.terms.len() - i,
        {
            terms.push((self.terms[i].0, self.terms[i].1.clone()));
            i += 1;
        }
        let r = Expression { terms };
        assert(r@ =~= self@);
        r
    }
}

/// Writes the operator between two terms, with a blank on either side.
pub fn operator_str(operator: Operator) -> (s: &'static str)
    ensures
        s@ == operator_text(operator),
{
    match operator {
        Operator::Empty => {
            proof {
                reveal_strlit("");
            }
            ""
        },
        Operator::Plus => " + ",
        Operator::Minus => " - ",
        Operator::Times => " * ",
        Operator::Lt => " < ",
    }
}

/// Writes the operator behind the text `s`, with a blank on either side.
pub fn add_op(operator: Operator, s: String) -> (r: String)
    ensures
        r@ == s@ + operator_text(operator),
{
    let mut r = s;
    r.append(operator_str(operator));
    r
}

/// Whether an expression is split at `later` rather than at `earlier`, an
/// operator that stands before it.
pub fn precedes(earlier: Operator, later: Operator) -> (r: bool)
    ensures
        r == (priority(earlier) <= priority(later)),
{
    let rank = |operator: Operator| -> (n: u8)
        ensures
            n == priority(operator),
        {
            match operator {
                Operator::Empty => 0,
                Operator::Times => 10,
                Operator::Plus => 20,
                Operator::Minus => 20,
                Operator::Lt => 30,
            }
        };
    rank(earlier) <= rank(later)
}

impl LetExpression {
    /// Builds the binding at position `pos` of the tokens and gives the
    /// position behind it.
    pub fn parse(tokens: &Vec<Token>, pos: usize) -> (r: Result<(LetExpression, usize), Error>)
        ensures
            match read_binding(token_views(tokens@), pos as int) {
                Some((identifier, bound, end)) => r is Ok && r->Ok_0.0.identifier@ == identifier
                    && r->Ok_0.0.expression@ == bound && r->Ok_0.1 == end && pos < end
                    <= tokens.len(),
                None => r == Err::<(LetExpression, usize), Error>(Error::Syntax),
            },
        decreases tokens.len() - pos, 4nat,
    {
        if pos >= tokens.len() || tokens.len() - pos < 2 || !is_at(tokens, pos + 1, &Token::EQ) {
            return Err(Error::Syntax);
        }
        let identifier = match scan_var(tokens, pos) {
            Some(name) => name,
            None => return Err(Error::Syntax),
        };
        match Expression::parse(tokens, pos + 2) {
            Ok((expression, end)) => Ok((LetExpression { identifier, expression }, end)),
            Err(e) => Err(e),
        }
    }

    /// Builds the binding at the front of the tokens and consumes it.
    pub fn new(tokens: &mut Tokens) -> (r: Result<LetExpression, Error>)
        ensures
            match read_binding(old(tokens)@, 0) {
                Some((identifier, bound, end)) => r is Ok && r->Ok_0.identifier@ == identifier
                    && r->Ok_0.expression@ == bound && final(tokens)@ == old(tokens)@.skip(end),
                None => r == Err::<LetExpression, Error>(Error::Syntax) && final(tokens)@ == old(
                    tokens,
                )@,
            },
    {
        match LetExpression::parse(&tokens.tokens, 0) {
            Ok((binding, end)) => {
                tokens.advance(end);
                Ok(binding)
            },
            Err(e) => Err(e),
        }
    }

    /// Writes the binding.
    pub fn to_string(&self) -> (s: String)
        ensures
            s@ == self.identifier@ + " = "@ + expression_text(
                self.expression@,
                self.expression@.len(),
            ),
    {
        let mut s = self.identifier.clone();
        s.append(" = ");
        s.append(self.expression.to_string().as_str());
        s
    }
}

impl Expression {
    /// Builds the expression that starts at position `pos` of the tokens,
    /// up to the first token that is no operator, and gives the position of
    /// that token.
    pub fn parse(tokens: &Vec<Token>, pos: usize) -> (r: Result<(Expression, usize), Error>)
        ensures
            match read_expression(token_views(tokens@), pos as int) {
                Some((expression, end)) => r is Ok && r->Ok_0.0@ == expression && r->Ok_0.1 == end
                    && pos < end <= tokens.len(),
                None => r == Err::<(Expression, usize), Error>(Error::Syntax),
            },
        decreases tokens.len() - pos, 3nat,
    {
        let (first, next) = match Term::parse(tokens, pos) {
            Ok(found) => found,
            Err(e) => return Err(e),
        };
        let mut expression = Expression { terms: Vec::new() };
        expression.push(Operator::Empty, first);
        assert(expression@ =~= seq![(Operator::Empty, first@)]);
        let mut at: usize = next;
        loop
            invariant
                pos < at <= tokens.len(),
                read_expression(token_views(tokens@), pos as int) == read_more(
                    token_views(tokens@),
                    at as int,
                    expression@,
                ),
            ensures
                read_expression(token_views(tokens@), pos as int) == Some(
                    (expression@, at as int),
                ),
            decreases tokens.len() - at,
        {
            let operator = match scan_op(tokens, at) {
                Some(operator) => operator,
                None => break ,
            };
            if operator == Operator::Empty {
                return Err(Error::Syntax);
            }
            let (term, next) = match Term::parse(tokens, at + 1) {
                Ok(found) => found,
                Err(e) => return Err(e),
            };
            expression.push(operator, term);
            at = next;
        }
        Ok((expression, at))
    }

    /// Builds the expression at the front of the tokens and consumes it.
    pub fn new(tokens: &mut Tokens) -> (r: Result<Expression, Error>)
        ensures
            match read_expression(old(tokens)@, 0) {
                Some((expression, end)) => r is Ok && r->Ok_0@ == expression && final(tokens)@
                    == old(tokens)@.skip(end),
                None => r == Err::<Expression, Error>(Error::Syntax) && final(tokens)@ == old(
                    tokens,
                )@,
            },
    {
        match Expression::parse(&tokens.tokens, 0) {
            Ok((expression, end)) => {
                tokens.advance(end);
                Ok(expression)
            },
            Err(e) => Err(e),
        }
    }

    /// The expression that is the one term.
    pub fn single(term: Term) -> (r: Expression)
        ensures
            r@ == seq![(Operator::Empty, term@)],
    {
        let mut r = Expression { terms: Vec::new() };
        r.push(Operator::Empty, term);
        assert(r@ =~= seq![(Operator::Empty, term@)]);
        r
    }

    /// Puts a term behind the last one, joined by `operator`.
    pub fn push(&mut self, operator: Operator, term: Term)
        ensures
            final(self)@ == old(self)@.push((operator, term@)),
    {
        self.terms.push((operator, term));
        assert(self@ =~= old(self)@.push((operator, term@)));
    }

    /// The number of terms.
    pub fn len(&self) -> (n: usize)
        ensures
            n == self@.len(),
    {
        self.terms.len()
    }

    /// The first term, where the expression has one.
    pub fn get_first_term(&self) -> (r: Option<&Term>)
        ensures
            self@.len() == 0 ==> r is None,
            self@.len() > 0 ==> r is Some && r->Some_0@ == self@[0].1,
    {
        if self.terms.len() == 0 {
            None
        } else {
            Some(&self.terms[0].1)
        }
    }

    /// Where the expression is split, and the operator at that position. A
    /// single term is not split: its position is 0 and the operator
    /// `Empty`.
    pub fn get_split_position(&self) -> (r: (usize, Operator))
        ensures
            r.0 == split_position(self@, 0, self@.len() as int),
            self@.len() >= 2 ==> 0 < r.0 < self@.len() && r.1 == self@[r.0 as int].0,
            self@.len() < 2 ==> r == (0usize, Operator::Empty),
    {
        self.split_in(0, self.terms.len())
    }

    /// Where the terms `lo..hi` are split, and the operator at that
    /// position.
    pub fn split_in(&self, lo: usize, hi: usize) -> (r: (usize, Operator))
        requires
            lo <= hi <= self@.len(),
        ensures
            r.0 == split_position(self@, lo as int, hi as int),
            hi - lo >= 2 ==> lo < r.0 < hi && r.1 == self@[r.0 as int].0,
            hi - lo < 2 ==> r == (lo, Operator::Empty),
    {
        if hi - lo < 2 {
            return (lo, Operator::Empty);
        }
        let mut at: usize = lo + 1;
        let mut operator = self.terms[at].0;
        let mut end: usize = lo + 2;
        while end < hi
            invariant
                lo + 2 <= end <= hi <= self@.len(),
                lo < at < end,
                at == split_position(self@, lo as int, end as int),
                operator == self@[at as int].0,
            decreases hi - end,
        {
            let next = self.terms[end].0;
            if precedes(operator, next) {
                at = end;
                operator = next;
            }
            end += 1;
        }
        (at, operator)
    }

    /// The two halves of the expression at `split_position`: the terms
    /// before it as they are, and the terms from it on with no operator in
    /// front. A position behind the last term leaves the second half
    /// empty.
    pub fn get_splitted_expression(&self, split_position: usize) -> (r: (Expression, Expression))
        ensures
            split_position <= self@.len() ==> r.0@ == self@.subrange(0, split_position as int)
                && r.1@ == slice(self@, split_position as int, self@.len() as int),
            split_position > self@.len() ==> r.0@ == self@ && r.1@ == Seq::<
                (Operator, TermModel),
            >::empty(),
    {
        let split_position = if split_position > self.terms.len() {
            assert(self@.subrange(0, self@.len() as int) =~= self@);
            assert(slice(self@, self@.len() as int, self@.len() as int) =~= Seq::<
                (Operator, TermModel),
            >::empty());
            self.terms.len()
        } else {
            split_position
        };
        let former = self.copy_range(0, split_position);
        let mut latter = self.copy_range(split_position, self.terms.len());
        latter.rm_first_operator();
        (former, latter)
    }

    /// The terms `lo..hi`, with their operators.
    pub fn copy_range(&self, lo: usize, hi: usize) -> (r: Expression)
        requires
            lo <= hi <= self@.len(),
        ensures
            r@ == self@.subrange(lo as int, hi as int),
    {
        let mut terms: Vec<(Operator, Term)> = Vec::new();
        let mut i: usize = lo;
        while i < hi
            invariant
                lo <= i <= hi <= self.terms.len(),
                terms.len() == i - lo,
                forall|k: int|
                    0 <= k < i - lo ==> (#[trigger] terms[k]).0 == self.terms[lo + k].0
                        && terms[k].1@ == self.terms[lo + k].1@,
            decreases hi - i,
        {
            terms.push((self.terms[i].0, self.terms[i].1.clone()));
            i += 1;
        }
        let r = Expression { terms };
        assert(r@ =~= self@.subrange(lo as int, hi as int));
        r
    }

    /// The terms `lo..hi` as an expression of their own.
    pub fn slice(&self, lo: usize, hi: usize) -> (r: Expression)
        requires
            lo <= hi <= self@.len(),
        ensures
            r@ == slice(self@, lo as int, hi as int),
    {
        let mut r = self.copy_range(lo, hi);
        r.rm_first_operator();
        r
    }

    /// Writes the expression.
    pub fn to_string(&self) -> (s: String)
        ensures
            s@ == expression_text(self@, self@.len()),
        decreases self,
    {
        let mut s = String::new();
        let mut i: usize = 0;
        while i < self.terms.len()
            invariant
                i <= self.terms.len(),
                s@ == expression_text(self@, i as nat),
            decreases self.terms.len() - i,
        {
            s = add_op(self.terms[i].0, s);
            s.append(self.terms[i].1.to_string().as_str());
            i += 1;
        }
        s
    }

    /// Takes the operator off the first term.
    pub fn rm_first_operator(&mut self)
        ensures
            final(self)@ == clear_first(old(self)@),
    {
        if self.terms.len() > 0 {
            let (_, first) = self.terms.remove(0);
            self.terms.insert(0, (Operator::Empty, first));
            assert(self@ =~= clear_first(old(self)@));
        }
    }
}

} // verus!

//! The spacing of a written expression: its tokens, one blank between two
//! of them, and none behind an opening or before a closing parenthesis.
//!
//! Together with the law that the builder consumes the tokens of what it
//! builds, this says what writing an expression again gives: the tokens
//! that were read, in this spacing.

use vstd::prelude::*;
use super::expression::{ExpressionModel, expression_text, operator_text, read_expression, read_more};
use super::lexer::{Operator, TokenModel};
use super::retokenize::{expression_tokens, term_tokens};
use super::terms::{TermModel, read_binding, read_term, starts_term, term_text};
use crate::util::{bool_text, integer_text};

verus! {

/// The text of a token.
pub open spec fn token_text(token: TokenModel) -> Seq<char> {
    match token {
        TokenModel::Int(i) => integer_text(i),
        TokenModel::Op(Operator::Empty) => Seq::empty(),
        TokenModel::Op(Operator::Plus) => "+"@,
        TokenModel::Op(Operator::Minus) => "-"@,
        TokenModel::Op(Operator::Times) => "*"@,
        TokenModel::Op(Operator::Lt) => "<"@,
        TokenModel::Bool(b) => bool_text(b),
        TokenModel::Eval => "evalto"@,
        TokenModel::Var(name) => name,
        TokenModel::ENV => "|-"@,
        TokenModel::ERR => "error"@,
        TokenModel::COMMA => ","@,
        TokenModel::PS => "("@,
        TokenModel::PE => ")"@,
        TokenModel::SS => "["@,
        TokenModel::SE => "]"@,
        TokenModel::IF => "if"@,
        TokenModel::IN => "in"@,
        TokenModel::FUN => "fun"@,
        TokenModel::LET => "let"@,
        TokenModel::THEN => "then"@,
        TokenModel::ELSE => "else"@,
        TokenModel::EQ => "="@,
        TokenModel::ARROW => "->"@,
    }
}

/// What stands between two tokens: a blank, but nothing behind `(` and
/// nothing before `)`.
pub open spec fn gap(before: TokenModel, after: TokenModel) -> Seq<char> {
    if before == TokenModel::PS || after == TokenModel::PE {
        Seq::empty()
    } else {
        " "@
    }
}

/// The first `count` tokens, written with the gaps between them.
pub open spec fn spaced(tokens: Seq<TokenModel>, count: nat) -> Seq<char>
    decreases count,
{
    if count == 0 || count > tokens.len() {
        Seq::empty()
    } else if count == 1 {
        token_text(tokens[0])
    } else {
        spaced(tokens, (count - 1) as nat) + gap(tokens[count - 2], tokens[count - 1])
            + token_text(tokens[count - 1])
    }
}

/// All the tokens, written with the gaps between them.
pub open spec fn written(tokens: Seq<TokenModel>) -> Seq<char> {
    spaced(tokens, tokens.len())
}

/// Whether the expression can have been read: it has a first term with no
/// operator in front, every other term has one, and its terms are well
/// formed.
pub open spec fn well_formed(expression: ExpressionModel) -> bool
    decreases expression,
{
    &&& expression.len() > 0
    &&& expression[0].0 == Operator::Empty
    &&& forall|i: int| 0 < i < expression.len() ==> (#[trigger] expression[i]).0 != Operator::Empty
    &&& forall|i: int| 0 <= i < expression.len() ==> term_well_formed((#[trigger] expression[i]).1)
}

/// Whether the expressions within the term are well formed.
pub open spec fn term_well_formed(term: TermModel) -> bool
    decreases term,
{
    match term {
        TermModel::Val(_) => true,
        TermModel::Bool(_) => true,
        TermModel::Var(_) => true,
        TermModel::Paren(inner) => well_formed(inner),
        TermModel::If(condition, then, otherwise) => well_formed(condition) && well_formed(then)
            && well_formed(otherwise),
        TermModel::Let(_, bound, body) => well_formed(bound) && well_formed(body),
        TermModel::Fun(_, body) => well_formed(body),
        TermModel::App(_, argument) => well_formed(argument),
    }
}

proof fn lemma_spaced_of_prefix(tokens: Seq<TokenModel>, longer: Seq<TokenModel>, count: nat)
    requires
        count <= tokens.len() <= longer.len(),
        forall|i: int| 0 <= i < count ==> tokens[i] == longer[i],
    ensures
        spaced(tokens, count) == spaced(longer, count),
    decreases count,
{
    if count > 1 {
        lemma_spaced_of_prefix(tokens, longer, (count - 1) as nat);
    }
}

/// Two runs of tokens written one behind the other are the two as they are
/// written, with the gap between the last of the one and the first of the
/// other.
pub proof fn lemma_written_concat(a: Seq<TokenModel>, b: Seq<TokenModel>)
    requires
        a.len() > 0,
        b.len() > 0,
    ensures
        written(a + b) == written(a) + gap(a.last(), b[0]) + written(b),
    decreases b.len(),
{
    let whole = a + b;
    if b.len() == 1 {
        lemma_spaced_of_prefix(a, whole, a.len());
        assert(written(whole) =~= written(a) + gap(a.last(), b[0]) + written(b));
    } else {
        let shorter = b.drop_last();
        let last = b.last();
        lemma_written_concat(a, shorter);
        lemma_spaced_of_prefix(a + shorter, whole, (whole.len() - 1) as nat);
        lemma_spaced_of_prefix(shorter, b, shorter.len());
        assert(whole[whole.len() - 2] == b[b.len() - 2]);
        assert(written(whole) =~= written(a) + gap(a.last(), b[0]) + written(b));
    }
}

/// A token in front of a run of tokens.
proof fn lemma_written_after(first: TokenModel, rest: Seq<TokenModel>)
    requires
        rest.len() > 0,
    ensures
        written(seq![first] + rest) == token_text(first) + gap(first, rest[0]) + written(rest),
{
    lemma_written_concat(seq![first], rest);
}

/// A token behind a run of tokens.
proof fn lemma_written_before(front: Seq<TokenModel>, last: TokenModel)
    requires
        front.len() > 0,
    ensures
        written(front + seq![last]) == written(front) + gap(front.last(), last) + token_text(last),
{
    lemma_written_concat(front, seq![last]);
}

/// The tokens of a well-formed term: there is one at least, the first is
/// no closing and the last no opening parenthesis, and written with their
/// gaps they are the text of the term.
pub proof fn lemma_term_is_written(term: TermModel)
    requires
        term_well_formed(term),
    ensures
        term_tokens(term).len() > 0,
        term_tokens(term)[0] != TokenModel::PE,
        term_tokens(term).last() != TokenModel::PS,
        term_text(term) == written(term_tokens(term)),
    decreases term, 0nat,
{
    reveal_strlit(" ");
    match term {
        TermModel::Val(_) => {},
        TermModel::Bool(_) => {},
        TermModel::Var(_) => {},
        TermModel::Paren(inner) => {
            reveal_strlit("(");
            reveal_strlit(")");
            lemma_expression_is_written(inner, inner.len());
            let e = expression_tokens(inner, inner.len());
            lemma_written_after(TokenModel::PS, e);
            lemma_written_before(seq![TokenModel::PS] + e, TokenModel::PE);
            assert(term_text(term) =~= written(term_tokens(term)));
        },
        TermModel::If(condition, then, otherwise) => {
            reveal_strlit("if ");
            reveal_strlit("if");
            reveal_strlit(" then ");
            reveal_strlit("then");
            reveal_strlit(" else ");
            reveal_strlit("else");
            lemma_expression_is_written(condition, condition.len());
            lemma_expression_is_written(then, then.len());
            lemma_expression_is_written(otherwise, otherwise.len());
            let c = expression_tokens(condition, condition.len());
            let t = expression_tokens(then, then.len());
            let o = expression_tokens(otherwise, otherwise.len());
            let s1 = seq![TokenModel::IF] + c;
            let s2 = s1 + seq![TokenModel::THEN];
            let s3 = s2 + t;
            let s4 = s3 + seq![TokenModel::ELSE];
            lemma_written_after(TokenModel::IF, c);
            lemma_written_before(s1, TokenModel::THEN);
            lemma_written_concat(s2, t);
            lemma_written_before(s3, TokenModel::ELSE);
            lemma_written_concat(s4, o);
            assert(term_text(term) =~= written(term_tokens(term)));
        },
        TermModel::Let(identifier, bound, body) => {
            reveal_strlit("let ");
            reveal_strlit("let");
            reveal_strlit(" = ");
            reveal_strlit("=");
            reveal_strlit(" in ");
            reveal_strlit("in");
            lemma_expression_is_written(bound, bound.len());
            lemma_expression_is_written(body, body.len());
            let b = expression_tokens(bound, bound.len());
            let d = expression_tokens(body, body.len());
            let front = seq![TokenModel::LET, TokenModel::Var(identifier), TokenModel::EQ];
            assert(written(front) =~= "let"@ + " "@ + identifier + " "@ + "="@) by {
                assert(spaced(front, 1) =~= "let"@);
                assert(spaced(front, 2) =~= "let"@ + " "@ + identifier);
            }
            let s1 = front + b;
            let s2 = s1 + seq![TokenModel::IN];
            lemma_written_concat(front, b);
            lemma_written_before(s1, TokenModel::IN);
            lemma_written_concat(s2, d);
            assert(term_text(term) =~= written(term_tokens(term)));
        },
        TermModel::Fun(parameter, body) => {
            reveal_strlit("fun ");
            reveal_strlit("fun");
            reveal_strlit(" -> ");
            reveal_strlit("->");
            lemma_expression_is_written(body, body.len());
            let d = expression_tokens(body, body.len());
            let front = seq![TokenModel::FUN, TokenModel::Var(parameter), TokenModel::ARROW];
            assert(written(front) =~= "fun"@ + " "@ + parameter + " "@ + "->"@) by {
                assert(spaced(front, 1) =~= "fun"@);
                assert(spaced(front, 2) =~= "fun"@ + " "@ + parameter);
            }
            lemma_written_concat(front, d);
            assert(term_text(term) =~= written(term_tokens(term)));
        },
        TermModel::App(function, argument) => {
            lemma_expression_is_written(argument, argument.len());
            let a = expression_tokens(argument, argument.len());
            lemma_written_after(TokenModel::Var(function), a);
            assert(term_text(term) =~= written(term_tokens(term)));
        },
    }
}

/// The tokens of the first terms of a well-formed expression: there is one
/// at least, the first is no closing and the last no opening parenthesis,
/// and written with their gaps they are the text of those terms.
pub proof fn lemma_expression_is_written(expression: ExpressionModel, count: nat)
    requires
        well_formed(expression),
        1 <= count <= expression.len(),
    ensures
        expression_tokens(expression, count).len() > 0,
        expression_tokens(expression, count)[0] != TokenModel::PE,
        expression_tokens(expression, count).last() != TokenModel::PS,
        expression_text(expression, count) == written(expression_tokens(expression, count)),
    decreases expression, count,
{
    let term = expression[count - 1].1;
    let operator = expression[count - 1].0;
    lemma_term_is_written(term);
    let t = term_tokens(term);
    if count == 1 {
        assert(expression_tokens(expression, 0) =~= Seq::<TokenModel>::empty());
        assert(expression_tokens(expression, 1) =~= t);
        assert(expression_text(expression, 1) =~= term_text(term)) by {
            assert(expression_text(expression, 0) =~= Seq::<char>::empty());
        }
    } else {
        reveal_strlit(" ");
        reveal_strlit(" + ");
        reveal_strlit("+");
        reveal_strlit(" - ");
        reveal_strlit("-");
        reveal_strlit(" * ");
        reveal_strlit("*");
        reveal_strlit(" < ");
        reveal_strlit("<");
        lemma_expression_is_written(expression, (count - 1) as nat);
        let front = expression_tokens(expression, (count - 1) as nat);
        let joined = front + seq![TokenModel::Op(operator)];
        lemma_written_before(front, TokenModel::Op(operator));
        lemma_written_concat(joined, t);
        assert(expression_tokens(expression, count) =~= joined + t);
        assert(operator_text(operator) =~= " "@ + token_text(TokenModel::Op(operator)) + " "@);
        assert(expression_text(expression, count) =~= written(joined + t));
    }
}

/// What the builder reads as a term is well formed.
pub proof fn lemma_read_term_well_formed(s: Seq<TokenModel>, i: int)
    requires
        read_term(s, i) is Some,
    ensures
        term_well_formed(read_term(s, i)->Some_0.0),
    decreases s.len() - i, 1nat,
{
    match s[i] {
        TokenModel::Var(name) => {
            if i + 1 < s.len() && starts_term(s[i + 1]) {
                lemma_read_term_well_formed(s, i + 1);
            }
        },
        TokenModel::PS => {
            lemma_read_expression_well_formed(s, i + 1);
        },
        TokenModel::IF => {
            lemma_read_expression_well_formed(s, i + 1);
            let at_then = read_expression(s, i + 1)->Some_0.1;
            lemma_read_expression_well_formed(s, at_then + 1);
            let at_else = read_expression(s, at_then + 1)->Some_0.1;
            lemma_read_expression_well_formed(s, at_else + 1);
        },
        TokenModel::LET => {
            lemma_read_expression_well_formed(s, i + 3);
            let at_in = read_binding(s, i + 1)->Some_0.2;
            lemma_read_expression_well_formed(s, at_in + 1);
        },
        TokenModel::FUN => {
            lemma_read_expression_well_formed(s, i + 3);
        },
        _ => {},
    }
}

/// What the builder reads as an expression is well formed.
pub proof fn lemma_read_expression_well_formed(s: Seq<TokenModel>, i: int)
    requires
        read_expression(s, i) is Some,
    ensures
        well_formed(read_expression(s, i)->Some_0.0),
    decreases s.len() - i, 3nat,
{
    lemma_read_term_well_formed(s, i);
    let (first, next) = read_term(s, i)->Some_0;
    lemma_read_more_well_formed(s, next, seq![(Operator::Empty, first)]);
}

proof fn lemma_read_more_well_formed(s: Seq<TokenModel>, i: int, found: ExpressionModel)
    requires
        well_formed(found),
        read_more(s, i, found) is Some,
    ensures
        well_formed(read_more(s, i, found)->Some_0.0),
    decreases s.len() - i, 2nat,
{
    if 0 <= i < s.len() {
        match s[i] {
            TokenModel::Op(operator) => {
                lemma_read_term_well_formed(s, i + 1);
                let (term, next) = read_term(s, i + 1)->Some_0;
                let longer = found.push((operator, term));
                assert(well_formed(longer)) by {
                    assert forall|k: int| 0 <= k < longer.len() implies term_well_formed(
                        (#[trigger] longer[k]).1,
                    ) by {
                        if k < found.len() {
                            assert(longer[k] == found[k]);
                        }
                    }
                    assert forall|k: int| 0 < k < longer.len() implies (#[trigger] longer[k]).0
                        != Operator::Empty by {
                        if k < found.len() {
                            assert(longer[k] == found[k]);
                        }
                    }
                }
                lemma_read_more_well_formed(s, next, longer);
            },
            _ => {},
        }
    }
}

/// Writing again what was read gives the tokens that were read, in the
/// spacing of this module: the operators and the parentheses of the input
/// are kept, each operator between two blanks.
pub proof fn lemma_written_again(s: Seq<TokenModel>, i: int)
    requires
        read_expression(s, i) is Some,
    ensures
        i < read_expression(s, i)->Some_0.1 <= s.len(),
        expression_text(
            read_expression(s, i)->Some_0.0,
            read_expression(s, i)->Some_0.0.len(),
        ) == written(s.subrange(i, read_expression(s, i)->Some_0.1)),
{
    let expression = read_expression(s, i)->Some_0.0;
    super::retokenize::lemma_read_expression_tokens(s, i);
    lemma_read_expression_well_formed(s, i);
    lemma_expression_is_written(expression, expression.len());
}

} // verus!

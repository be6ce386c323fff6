//! The terms of an ML-like expression.

use vstd::prelude::*;
use vstd::string::*;
use super::expression::{Expression, ExpressionModel, LetExpression, expression_text, read_expression};
use super::lexer::{Token, TokenModel, Tokens, scan_var, is_at, token_views};
use crate::error::Error;
use crate::util::{bool_text, bool_to_string, integer_text, integer_to_string};

verus! {

/// One term of an expression.
#[derive(Debug, PartialEq)]
pub enum Term {
    /// an integer literal
    Val(i32),
    /// `true` or `false`
    Bool(bool),
    /// a variable
    Var(String),
    /// an expression in parentheses
    Paren(Expression),
    If(IfTerm),
    Let(LetTerm),
    Fun(FunTerm),
    App(AppTerm),
}

/// `if condition_expression then then_expression else else_expression`
#[derive(Debug, PartialEq)]
pub struct IfTerm {
    pub condition_expression: Expression,
    pub then_expression: Expression,
    pub else_expression: Expression,
}

/// `let identifier = expression in in_expression`
#[derive(Debug, PartialEq)]
pub struct LetTerm {
    pub let_expression: LetExpression,
    pub in_expression: Expression,
}

/// `fun parameter -> function_body`
#[derive(Debug, PartialEq)]
pub struct FunTerm {
    pub parameter: String,
    pub function_body: Expression,
}

/// `function argument`: the function that a variable stands for, applied to
/// one term.
#[derive(Debug, PartialEq)]
pub struct AppTerm {
    pub function: String,
    pub argument: Expression,
}

/// What a `Term` stands for.
pub enum TermModel {
    Val(int),
    Bool(bool),
    Var(Seq<char>),
    Paren(ExpressionModel),
    If(ExpressionModel, ExpressionModel, ExpressionModel),
    Let(Seq<char>, ExpressionModel, ExpressionModel),
    Fun(Seq<char>, ExpressionModel),
    App(Seq<char>, ExpressionModel),
}

impl View for Term {
    type V = TermModel;

    open spec fn view(&self) -> TermModel
        decreases self,
    {
        match self {
            Term::Val(i) => TermModel::Val(*i as int),
            Term::Bool(b) => TermModel::Bool(*b),
            Term::Var(name) => TermModel::Var(name@),
            Term::Paren(expression) => TermModel::Paren(expression@),
            Term::If(term) => TermModel::If(
                term.condition_expression@,
                term.then_expression@,
                term.else_expression@,
            ),
            Term::Let(term) => TermModel::Let(
                term.let_expression.identifier@,
                term.let_expression.expression@,
                term.in_expression@,
            ),
            Term::Fun(term) => TermModel::Fun(term.parameter@, term.function_body@),
            Term::App(term) => TermModel::App(term.function@, term.argument@),
        }
    }
}

/// The text of a term.
pub open spec fn term_text(term: TermModel) -> Seq<char>
    decreases term,
{
    match term {
        TermModel::Val(i) => integer_text(i),
        TermModel::Bool(b) => bool_text(b),
        TermModel::Var(name) => name,
        TermModel::Paren(inner) => "("@ + expression_text(inner, inner.len()) + ")"@,
        TermModel::If(condition, then, otherwise) => "if "@ + expression_text(
            condition,
            condition.len(),
        ) + " then "@ + expression_text(then, then.len()) + " else "@ + expression_text(
            otherwise,
            otherwise.len(),
        ),
        TermModel::Let(identifier, bound, body) => "let "@ + identifier + " = "@
            + expression_text(bound, bound.len()) + " in "@ + expression_text(body, body.len()),
        TermModel::Fun(parameter, body) => "fun "@ + parameter + " -> "@ + expression_text(
            body,
            body.len(),
        ),
        TermModel::App(function, argument) => function + " "@ + expression_text(
            argument,
            argument.len(),
        ),
    }
}

/// Whether a token can be the first of a term.
pub open spec fn starts_term(token: TokenModel) -> bool {
    match token {
        TokenModel::Int(_) | TokenModel::Bool(_) | TokenModel::Var(_) | TokenModel::PS
        | TokenModel::IF | TokenModel::LET | TokenModel::FUN => true,
        _ => false,
    }
}

/// The term that stands in `s` at position `i`, and the position behind it.
/// An identifier with a term behind it is the application of the function
/// of that name to the term.
pub open spec fn read_term(s: Seq<TokenModel>, i: int) -> Option<(TermModel, int)>
    decreases s.len() - i, 1nat,
{
    if 0 <= i < s.len() {
        match s[i] {
            TokenModel::Int(value) => Some((TermModel::Val(value), i + 1)),
            TokenModel::Bool(b) => Some((TermModel::Bool(b), i + 1)),
            TokenModel::Var(name) => read_variable(s, i, name),
            TokenModel::PS => read_paren(s, i),
            TokenModel::IF => read_if(s, i),
            TokenModel::LET => read_let(s, i),
            TokenModel::FUN => read_fun(s, i),
            _ => None,
        }
    } else {
        None
    }
}

/// The variable `name` at position `i` of `s`, or its application to the
/// term behind it.
pub open spec fn read_variable(s: Seq<TokenModel>, i: int, name: Seq<char>) -> Option<
    (TermModel, int),
>
    decreases s.len() - i, 0nat,
{
    if 0 <= i && i + 1 < s.len() && starts_term(s[i + 1]) {
        match read_term(s, i + 1) {
            Some((argument, end)) => Some(
                (TermModel::App(name, seq![(super::lexer::Operator::Empty, argument)]), end),
            ),
            None => None,
        }
    } else {
        Some((TermModel::Var(name), i + 1))
    }
}

/// The expression in parentheses that starts at position `i` of `s`.
pub open spec fn read_paren(s: Seq<TokenModel>, i: int) -> Option<(TermModel, int)>
    decreases s.len() - i, 0nat,
{
    if 0 <= i < s.len() {
        match read_expression(s, i + 1) {
            Some((inner, end)) => if 0 <= end < s.len() && s[end] == TokenModel::PE {
                Some((TermModel::Paren(inner), end + 1))
            } else {
                None
            },
            None => None,
        }
    } else {
        None
    }
}

/// The conditional that starts at position `i` of `s`.
pub open spec fn read_if(s: Seq<TokenModel>, i: int) -> Option<(TermModel, int)>
    decreases s.len() - i, 0nat,
{
    if 0 <= i < s.len() {
        match read_expression(s, i + 1) {
            Some((condition, at_then)) => if i < at_then < s.len() && s[at_then]
                == TokenModel::THEN {
                match read_expression(s, at_then + 1) {
                    Some((then, at_else)) => if at_then < at_else < s.len() && s[at_else]
                        == TokenModel::ELSE {
                        match read_expression(s, at_else + 1) {
                            Some((otherwise, end)) => Some(
                                (TermModel::If(condition, then, otherwise), end),
                            ),
                            None => None,
                        }
                    } else {
                        None
                    },
                    None => None,
                }
            } else {
                None
            },
            None => None,
        }
    } else {
        None
    }
}

/// The `let` that starts at position `i` of `s`.
pub open spec fn read_let(s: Seq<TokenModel>, i: int) -> Option<(TermModel, int)>
    decreases s.len() - i, 0nat,
{
    if 0 <= i < s.len() {
        match read_binding(s, i + 1) {
            Some((identifier, bound, at_in)) => if i < at_in < s.len() && s[at_in]
                == TokenModel::IN {
                match read_expression(s, at_in + 1) {
                    Some((body, end)) => Some((TermModel::Let(identifier, bound, body), end)),
                    None => None,
                }
            } else {
                None
            },
            None => None,
        }
    } else {
        None
    }
}

/// The function that starts at position `i` of `s`.
pub open spec fn read_fun(s: Seq<TokenModel>, i: int) -> Option<(TermModel, int)>
    decreases s.len() - i, 0nat,
{
    if 0 <= i && i + 2 < s.len() && s[i + 2] == TokenModel::ARROW {
        match s[i + 1] {
            TokenModel::Var(parameter) => match read_expression(s, i + 3) {
                Some((body, end)) => Some((TermModel::Fun(parameter, body), end)),
                None => None,
            },
            _ => None,
        }
    } else {
        None
    }
}

/// The binding `identifier = expression` that stands in `s` at position `i`,
/// and the position behind it.
pub open spec fn read_binding(s: Seq<TokenModel>, i: int) -> Option<
    (Seq<char>, ExpressionModel, int),
>
    decreases s.len() - i, 4nat,
{
    if 0 <= i && i + 1 < s.len() && s[i + 1] == TokenModel::EQ {
        match s[i] {
            TokenModel::Var(identifier) => match read_expression(s, i + 2) {
                Some((bound, end)) => Some((identifier, bound, end)),
                None => None,
            },
            _ => None,
        }
    } else {
        None
    }
}

impl Clone for Term {
    fn clone(&self) -> (r: Term)
        ensures
            r@ == self@,
        decreases self,
    {
        match self {
            Term::Val(i) => Term::Val(*i),
            Term::Bool(b) => Term::Bool(*b),
            Term::Var(name) => Term::Var(name.clone()),
            Term::Paren(expression) => Term::Paren(expression.clone()),
            Term::If(term) => Term::If(
                IfTerm {
                    condition_expression: term.condition_expression.clone(),
                    then_expression: term.then_expression.clone(),
                    else_expression: term.else_expression.clone(),
                },
            ),
            Term::Let(term) => Term::Let(
                LetTerm {
                    let_expression: LetExpression {
                        identifier: term.let_expression.identifier.clone(),
                        expression: term.let_expression.expression.clone(),
                    },
                    in_expression: term.in_expression.clone(),
                },
            ),
            Term::Fun(term) => Term::Fun(
                FunTerm {
                    parameter: term.parameter.clone(),
                    function_body: term.function_body.clone(),
                },
            ),
            Term::App(term) => Term::App(
                AppTerm { function: term.function.clone(), argument: term.argument.clone() },
            ),
        }
    }
}

fn starts_term_at(tokens: &Vec<Token>, pos: usize) -> (r: bool)
    ensures
        r == (pos < tokens@.len() && starts_term(token_views(tokens@)[pos as int])),
{
    if pos >= tokens.len() {
        return false;
    }
    match &tokens[pos] {
        Token::Int(_) | Token::Bool(_) | Token::Var(_) | Token::PS | Token::IF | Token::LET
        | Token::FUN => true,
        _ => false,
    }
}

impl Term {
    /// Builds the term at position `pos` of the tokens and gives the
    /// position behind it.
    pub fn parse(tokens: &Vec<Token>, pos: usize) -> (r: Result<(Term, usize), Error>)
        ensures
            match read_term(token_views(tokens@), pos as int) {
                Some((term, end)) => r is Ok && r->Ok_0.0@ == term && r->Ok_0.1 == end && pos < end
                    <= tokens.len(),
                None => r == Err::<(Term, usize), Error>(Error::Syntax),
            },
        decreases tokens.len() - pos, 1nat,
    {
        if pos >= tokens.len() {
            return Err(Error::Syntax);
        }
        match &tokens[pos] {
            Token::Int(value) => Ok((Term::Val(*value), pos + 1)),
            Token::Bool(b) => Ok((Term::Bool(*b), pos + 1)),
            Token::Var(name) => Term::parse_variable(tokens, pos, name),
            Token::PS => Term::parse_paren(tokens, pos),
            Token::IF => Term::parse_if(tokens, pos),
            Token::LET => Term::parse_let(tokens, pos),
            Token::FUN => Term::parse_fun(tokens, pos),
            _ => Err(Error::Syntax),
        }
    }

    fn parse_variable(tokens: &Vec<Token>, pos: usize, name: &String) -> (r: Result<
        (Term, usize),
        Error,
    >)
        requires
            pos < tokens.len(),
        ensures
            match read_variable(token_views(tokens@), pos as int, name@) {
                Some((term, end)) => r is Ok && r->Ok_0.0@ == term && r->Ok_0.1 == end && pos < end
                    <= tokens.len(),
                None => r == Err::<(Term, usize), Error>(Error::Syntax),
            },
        decreases tokens.len() - pos, 0nat,
    {
        if starts_term_at(tokens, pos + 1) {
            let (argument, end) = match Term::parse(tokens, pos + 1) {
                Ok(found) => found,
                Err(e) => return Err(e),
            };
            let argument = Expression::single(argument);
            Ok((Term::App(AppTerm { function: name.clone(), argument }), end))
        } else {
            Ok((Term::Var(name.clone()), pos + 1))
        }
    }

    fn parse_paren(tokens: &Vec<Token>, pos: usize) -> (r: Result<(Term, usize), Error>)
        requires
            pos < tokens.len(),
        ensures
            match read_paren(token_views(tokens@), pos as int) {
                Some((term, end)) => r is Ok && r->Ok_0.0@ == term && r->Ok_0.1 == end && pos < end
                    <= tokens.len(),
                None => r == Err::<(Term, usize), Error>(Error::Syntax),
            },
        decreases tokens.len() - pos, 0nat,
    {
        let (inner, end) = match Expression::parse(tokens, pos + 1) {
            Ok(found) => found,
            Err(e) => return Err(e),
        };
        if is_at(tokens, end, &Token::PE) {
            Ok((Term::Paren(inner), end + 1))
        } else {
            Err(Error::Syntax)
        }
    }

    fn parse_if(tokens: &Vec<Token>, pos: usize) -> (r: Result<(Term, usize), Error>)
        requires
            pos < tokens.len(),
        ensures
            match read_if(token_views(tokens@), pos as int) {
                Some((term, end)) => r is Ok && r->Ok_0.0@ == term && r->Ok_0.1 == end && pos < end
                    <= tokens.len(),
                None => r == Err::<(Term, usize), Error>(Error::Syntax),
            },
        decreases tokens.len() - pos, 0nat,
    {
        let (condition_expression, at_then) = match Expression::parse(tokens, pos + 1) {
            Ok(found) => found,
            Err(e) => return Err(e),
        };
        if !is_at(tokens, at_then, &Token::THEN) {
            return Err(Error::Syntax);
        }
        let (then_expression, at_else) = match Expression::parse(tokens, at_then + 1) {
            Ok(found) => found,
            Err(e) => return Err(e),
        };
        if !is_at(tokens, at_else, &Token::ELSE) {
            return Err(Error::Syntax);
        }
        let (else_expression, end) = match Expression::parse(tokens, at_else + 1) {
            Ok(found) => found,
            Err(e) => return Err(e),
        };
        Ok((Term::If(IfTerm { condition_expression, then_expression, else_expression }), end))
    }

    fn parse_let(tokens: &Vec<Token>, pos: usize) -> (r: Result<(Term, usize), Error>)
        requires
            pos < tokens.len(),
        ensures
            match read_let(token_views(tokens@), pos as int) {
                Some((term, end)) => r is Ok && r->Ok_0.0@ == term && r->Ok_0.1 == end && pos < end
                    <= tokens.len(),
                None => r == Err::<(Term, usize), Error>(Error::Syntax),
            },
        decreases tokens.len() - pos, 0nat,
    {
        let (let_expression, at_in) = match LetExpression::parse(tokens, pos + 1) {
            Ok(found) => found,
            Err(e) => return Err(e),
        };
        if !is_at(tokens, at_in, &Token::IN) {
            return Err(Error::Syntax);
        }
        let (in_expression, end) = match Expression::parse(tokens, at_in + 1) {
            Ok(found) => found,
            Err(e) => return Err(e),
        };
        Ok((Term::Let(LetTerm { let_expression, in_expression }), end))
    }

    fn parse_fun(tokens: &Vec<Token>, pos: usize) -> (r: Result<(Term, usize), Error>)
        requires
            pos < tokens.len(),
        ensures
            match read_fun(token_views(tokens@), pos as int) {
                Some((term, end)) => r is Ok && r->Ok_0.0@ == term && r->Ok_0.1 == end && pos < end
                    <= tokens.len(),
                None => r == Err::<(Term, usize), Error>(Error::Syntax),
            },
        decreases tokens.len() - pos, 0nat,
    {
        if tokens.len() - pos < 3 || !is_at(tokens, pos + 2, &Token::ARROW) {
            return Err(Error::Syntax);
        }
        let parameter = match scan_var(tokens, pos + 1) {
            Some(name) => name,
            None => return Err(Error::Syntax),
        };
        let (function_body, end) = match Expression::parse(tokens, pos + 3) {
            Ok(found) => found,
            Err(e) => return Err(e),
        };
        Ok((Term::Fun(FunTerm { parameter, function_body }), end))
    }

    /// Builds the term at the front of the tokens and consumes it.
    pub fn new(tokens: &mut Tokens) -> (r: Result<Term, Error>)
        ensures
            match read_term(old(tokens)@, 0) {
                Some((term, end)) => r is Ok && r->Ok_0@ == term && final(tokens)@ == old(
                    tokens,
                )@.skip(end),
                None => r == Err::<Term, Error>(Error::Syntax) && final(tokens)@ == old(tokens)@,
            },
    {
        match Term::parse(&tokens.tokens, 0) {
            Ok((term, end)) => {
                tokens.advance(end);
                Ok(term)
            },
            Err(e) => Err(e),
        }
    }

    /// The name of the variable that the term is, if it is one.
    pub fn get_identifier(&self) -> (r: Result<String, Error>)
        ensures
            match self@ {
                TermModel::Var(name) => r is Ok && r->Ok_0@ == name,
                _ => r == Err::<String, Error>(Error::NoRule),
            },
    {
        match self {
            Term::Var(name) => Ok(name.clone()),
            _ => Err(Error::NoRule),
        }
    }

    /// Writes the term.
    pub fn to_string(&self) -> (s: String)
        ensures
            s@ == term_text(self@),
        decreases self,
    {
        match self {
            Term::Val(i) => integer_to_string(*i),
            Term::Bool(b) => bool_to_string(*b),
            Term::Var(name) => name.clone(),
            Term::Paren(expression) => {
                let mut s = String::from_str("(");
                s.append(expression.to_string().as_str());
                s.append(")");
                s
            },
            Term::If(term) => {
                let mut s = String::from_str("if ");
                s.append(term.condition_expression.to_string().as_str());
                s.append(" then ");
                s.append(term.then_expression.to_string().as_str());
                s.append(" else ");
                s.append(term.else_expression.to_string().as_str());
                s
            },
            Term::Let(term) => {
                let mut s = String::from_str("let ");
                s.append(term.let_expression.identifier.as_str());
                s.append(" = ");
                s.append(term.let_expression.expression.to_string().as_str());
                s.append(" in ");
                s.append(term.in_expression.to_string().as_str());
                s
            },
            Term::Fun(term) => {
                let mut s = String::from_str("fun ");
                s.append(term.parameter.as_str());
                s.append(" -> ");
                s.append(term.function_body.to_string().as_str());
                s
            },
            Term::App(term) => {
                let mut s = term.function.clone();
                s.append(" ");
                s.append(term.argument.to_string().as_str());
                s
            },
        }
    }
}

} // verus!

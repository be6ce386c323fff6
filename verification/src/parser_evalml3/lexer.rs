//! Tokens of the ML-like judgements, and the stream that the builders
//! consume from the front.

use vstd::prelude::*;
use vstd::string::*;
use crate::error::Error;
use crate::pattern::{Piece, Scanner, alternation, pieces_of, regex_captures, regex_compiles, table_names};
use crate::util::{integer_of, parse_integer};

verus! {

/// The operator that joins a term to the one before it. The first term of
/// an expression has `Empty`.
#[derive(Debug, Clone, Copy, PartialEq, Eq, Structural)]
pub enum Operator {
    Empty,
    Plus,
    Minus,
    Times,
    Lt,
}

/// A token of an ML-like judgement.
#[derive(Debug, PartialEq)]
pub enum Token {
    /// an integer literal
    Int(i32),
    /// `+`, `-`, `*` or `<`
    Op(Operator),
    /// `true` or `false`
    Bool(bool),
    /// `evalto`
    Eval,
    /// an identifier
    Var(String),
    /// `|-`
    ENV,
    /// `error`
    ERR,
    /// `,`
    COMMA,
    /// `(`
    PS,
    /// `)`
    PE,
    /// `[`
    SS,
    /// `]`
    SE,
    /// `if`
    IF,
    /// `in`
    IN,
    /// `fun`
    FUN,
    /// `let`
    LET,
    /// `then`
    THEN,
    /// `else`
    ELSE,
    /// `=`
    EQ,
    /// `->`
    ARROW,
}

/// What a `Token` stands for.
pub enum TokenModel {
    Int(int),
    Op(Operator),
    Bool(bool),
    Eval,
    Var(Seq<char>),
    ENV,
    ERR,
    COMMA,
    PS,
    PE,
    SS,
    SE,
    IF,
    IN,
    FUN,
    LET,
    THEN,
    ELSE,
    EQ,
    ARROW,
}

impl View for Token {
    type V = TokenModel;

    open spec fn view(&self) -> TokenModel {
        match self {
            Token::Int(i) => TokenModel::Int(*i as int),
            Token::Op(operator) => TokenModel::Op(*operator),
            Token::Bool(b) => TokenModel::Bool(*b),
            Token::Eval => TokenModel::Eval,
            Token::Var(name) => TokenModel::Var(name@),
            Token::ENV => TokenModel::ENV,
            Token::ERR => TokenModel::ERR,
            Token::COMMA => TokenModel::COMMA,
            Token::PS => TokenModel::PS,
            Token::PE => TokenModel::PE,
            Token::SS => TokenModel::SS,
            Token::SE => TokenModel::SE,
            Token::IF => TokenModel::IF,
            Token::IN => TokenModel::IN,
            Token::FUN => TokenModel::FUN,
            Token::LET => TokenModel::LET,
            Token::THEN => TokenModel::THEN,
            Token::ELSE => TokenModel::ELSE,
            Token::EQ => TokenModel::EQ,
            Token::ARROW => TokenModel::ARROW,
        }
    }
}

impl Clone for Token {
    fn clone(&self) -> (r: Token)
        ensures
            r@ == self@,
    {
        match self {
            Token::Int(i) => Token::Int(*i),
            Token::Op(operator) => Token::Op(*operator),
            Token::Bool(b) => Token::Bool(*b),
            Token::Eval => Token::Eval,
            Token::Var(name) => Token::Var(name.clone()),
            Token::ENV => Token::ENV,
            Token::ERR => Token::ERR,
            Token::COMMA => Token::COMMA,
            Token::PS => Token::PS,
            Token::PE => Token::PE,
            Token::SS => Token::SS,
            Token::SE => Token::SE,
            Token::IF => Token::IF,
            Token::IN => Token::IN,
            Token::FUN => Token::FUN,
            Token::LET => Token::LET,
            Token::THEN => Token::THEN,
            Token::ELSE => Token::ELSE,
            Token::EQ => Token::EQ,
            Token::ARROW => Token::ARROW,
        }
    }
}

/// The tokens of a judgement, consumed from the front.
#[derive(Debug, PartialEq)]
pub struct Tokens {
    pub tokens: Vec<Token>,
}

impl View for Tokens {
    type V = Seq<TokenModel>;

    open spec fn view(&self) -> Seq<TokenModel> {
        token_views(self.tokens@)
    }
}

/// What a sequence of tokens stands for.
pub open spec fn token_views(tokens: Seq<Token>) -> Seq<TokenModel> {
    Seq::new(tokens.len(), |i: int| tokens[i]@)
}

impl Clone for Tokens {
    fn clone(&self) -> (r: Tokens)
        ensures
            r@ == self@,
    {
        let mut tokens: Vec<Token> = Vec::new();
        let mut i: usize = 0;
        while i < self.tokens.len()
            invariant
                i <= self.tokens.len(),
                tokens.len() == i,
                forall|k: int| 0 <= k < i ==> (#[trigger] tokens[k])@ == self.tokens[k]@,
            decreases self.tokens.len() - i,
        {
            tokens.push(self.tokens[i].clone());
            i += 1;
        }
        let r = Tokens { tokens };
        assert(r@ =~= self@);
        r
    }
}

impl Tokens {
    /// Takes the first token off the stream.
    pub fn pop(&mut self) -> (r: Option<Token>)
        ensures
            old(self)@.len() == 0 ==> r is None && final(self)@ == old(self)@,
            old(self)@.len() > 0 ==> r is Some && r->Some_0@ == old(self)@[0] && final(self)@
                == old(self)@.skip(1),
    {
        if self.tokens.len() == 0 {
            None
        } else {
            let token = self.tokens.remove(0);
            assert(self@ =~= old(self)@.skip(1));
            Some(token)
        }
    }

    /// The first token of the stream, which stays where it is.
    pub fn peek(&self) -> (r: Option<Token>)
        ensures
            self@.len() == 0 ==> r is None,
            self@.len() > 0 ==> r is Some && r->Some_0@ == self@[0],
    {
        if self.tokens.len() == 0 {
            None
        } else {
            Some(self.tokens[0].clone())
        }
    }

    /// Drops the first `count` tokens, or all where there are fewer.
    pub fn advance(&mut self, count: usize)
        ensures
            count <= old(self)@.len() ==> final(self)@ == old(self)@.skip(count as int),
            count > old(self)@.len() ==> final(self)@ == Seq::<TokenModel>::empty(),
    {
        if count > self.tokens.len() {
            self.tokens = Vec::new();
            assert(self@ =~= Seq::<TokenModel>::empty());
        } else {
            let rest = self.tokens.split_off(count);
            self.tokens = rest;
            assert(self@ =~= old(self)@.skip(count as int));
        }
    }

    /// Consumes an integer literal from the front. Where the stream starts
    /// with another token, or is empty, nothing is consumed.
    pub fn consume_num(&mut self) -> (r: Result<i32, Error>)
        ensures
            match read_num(old(self)@, 0) {
                Some(i) => r == Ok::<i32, Error>(i as i32) && final(self)@ == old(self)@.skip(1),
                None => r == Err::<i32, Error>(Error::Syntax) && final(self)@ == old(self)@,
            },
    {
        match scan_num(&self.tokens, 0) {
            Some(i) => {
                self.advance(1);
                Ok(i)
            },
            None => Err(Error::Syntax),
        }
    }

    /// Consumes an identifier from the front. Where the stream starts with
    /// another token, or is empty, nothing is consumed.
    pub fn consume_var(&mut self) -> (r: Result<String, Error>)
        ensures
            match read_var(old(self)@, 0) {
                Some(name) => r is Ok && r->Ok_0@ == name && final(self)@ == old(self)@.skip(1),
                None => r == Err::<String, Error>(Error::Syntax) && final(self)@ == old(self)@,
            },
    {
        match scan_var(&self.tokens, 0) {
            Some(name) => {
                self.advance(1);
                Ok(name)
            },
            None => Err(Error::Syntax),
        }
    }

    /// Consumes a truth value from the front. Where the stream starts with
    /// another token, or is empty, nothing is consumed.
    pub fn consume_bool(&mut self) -> (r: Result<bool, Error>)
        ensures
            match read_bool(old(self)@, 0) {
                Some(b) => r == Ok::<bool, Error>(b) && final(self)@ == old(self)@.skip(1),
                None => r == Err::<bool, Error>(Error::Syntax) && final(self)@ == old(self)@,
            },
    {
        match scan_bool(&self.tokens, 0) {
            Some(b) => {
                self.advance(1);
                Ok(b)
            },
            None => Err(Error::Syntax),
        }
    }

    /// Consumes an operator from the front. Where the stream starts with
    /// another token, or is empty, nothing is consumed.
    pub fn consume_op(&mut self) -> (r: Result<Operator, Error>)
        ensures
            match read_op(old(self)@, 0) {
                Some(operator) => r == Ok::<Operator, Error>(operator) && final(self)@ == old(
                    self,
                )@.skip(1),
                None => r == Err::<Operator, Error>(Error::Syntax) && final(self)@ == old(self)@,
            },
    {
        match scan_op(&self.tokens, 0) {
            Some(operator) => {
                self.advance(1);
                Ok(operator)
            },
            None => Err(Error::Syntax),
        }
    }
}

/// The integer literal at position `i` of `s`, if one stands there.
pub open spec fn read_num(s: Seq<TokenModel>, i: int) -> Option<int> {
    if 0 <= i < s.len() {
        match s[i] {
            TokenModel::Int(value) => Some(value),
            _ => None,
        }
    } else {
        None
    }
}

/// The identifier at position `i` of `s`, if one stands there.
pub open spec fn read_var(s: Seq<TokenModel>, i: int) -> Option<Seq<char>> {
    if 0 <= i < s.len() {
        match s[i] {
            TokenModel::Var(name) => Some(name),
            _ => None,
        }
    } else {
        None
    }
}

/// The truth value at position `i` of `s`, if one stands there.
pub open spec fn read_bool(s: Seq<TokenModel>, i: int) -> Option<bool> {
    if 0 <= i < s.len() {
        match s[i] {
            TokenModel::Bool(b) => Some(b),
            _ => None,
        }
    } else {
        None
    }
}

/// The operator at position `i` of `s`, if one stands there.
pub open spec fn read_op(s: Seq<TokenModel>, i: int) -> Option<Operator> {
    if 0 <= i < s.len() {
        match s[i] {
            TokenModel::Op(operator) => Some(operator),
            _ => None,
        }
    } else {
        None
    }
}

/// The integer literal at `pos`, if one stands there.
pub fn scan_num(tokens: &Vec<Token>, pos: usize) -> (r: Option<i32>)
    ensures
        match read_num(token_views(tokens@), pos as int) {
            Some(i) => r == Some(i as i32),
            None => r is None,
        },
{
    if pos < tokens.len() {
        match &tokens[pos] {
            Token::Int(i) => Some(*i),
            _ => None,
        }
    } else {
        None
    }
}

/// The identifier at `pos`, if one stands there.
pub fn scan_var(tokens: &Vec<Token>, pos: usize) -> (r: Option<String>)
    ensures
        match read_var(token_views(tokens@), pos as int) {
            Some(name) => r is Some && r->Some_0@ == name,
            None => r is None,
        },
{
    if pos < tokens.len() {
        match &tokens[pos] {
            Token::Var(name) => Some(name.clone()),
            _ => None,
        }
    } else {
        None
    }
}

/// The truth value at `pos`, if one stands there.
pub fn scan_bool(tokens: &Vec<Token>, pos: usize) -> (r: Option<bool>)
    ensures
        r == read_bool(token_views(tokens@), pos as int),
{
    if pos < tokens.len() {
        match &tokens[pos] {
            Token::Bool(b) => Some(*b),
            _ => None,
        }
    } else {
        None
    }
}

/// The operator at `pos`, if one stands there.
pub fn scan_op(tokens: &Vec<Token>, pos: usize) -> (r: Option<Operator>)
    ensures
        r == read_op(token_views(tokens@), pos as int),
{
    if pos < tokens.len() {
        match &tokens[pos] {
            Token::Op(operator) => Some(*operator),
            _ => None,
        }
    } else {
        None
    }
}

/// Whether the token at `pos` is the same as `token`.
pub fn is_at(tokens: &Vec<Token>, pos: usize, token: &Token) -> (r: bool)
    ensures
        r == (0 <= pos < tokens@.len() && token_views(tokens@)[pos as int] == token@),
{
    if pos >= tokens.len() {
        return false;
    }
    match (&tokens[pos], token) {
        (Token::Int(a), Token::Int(b)) => *a == *b,
        (Token::Op(a), Token::Op(b)) => *a == *b,
        (Token::Bool(a), Token::Bool(b)) => *a == *b,
        (Token::Var(a), Token::Var(b)) => *a == *b,
        (Token::Eval, Token::Eval) => true,
        (Token::ENV, Token::ENV) => true,
        (Token::ERR, Token::ERR) => true,
        (Token::COMMA, Token::COMMA) => true,
        (Token::PS, Token::PS) => true,
        (Token::PE, Token::PE) => true,
        (Token::SS, Token::SS) => true,
        (Token::SE, Token::SE) => true,
        (Token::IF, Token::IF) => true,
        (Token::IN, Token::IN) => true,
        (Token::FUN, Token::FUN) => true,
        (Token::LET, Token::LET) => true,
        (Token::THEN, Token::THEN) => true,
        (Token::ELSE, Token::ELSE) => true,
        (Token::EQ, Token::EQ) => true,
        (Token::ARROW, Token::ARROW) => true,
        _ => false,
    }
}

/// The token kinds and their patterns, in the order in which they are tried.
pub open spec fn token_table() -> Seq<(&'static str, &'static str)> {
    seq![
        ("MINT", "-[0-9]+"),
        ("INT", "[0-9]+"),
        ("TRUE", "true"),
        ("FALSE", "false"),
        ("ERR", "error"),
        ("ARROW", "->"),
        ("ENV", "\\|-"),
        ("PLUS", "\\+"),
        ("MINUS", "-"),
        ("TIMES", "\\*"),
        ("LT", "<"),
        ("PS", "\\("),
        ("PE", "\\)"),
        ("SS", "\\["),
        ("SE", "\\]"),
        ("EQ", "="),
        ("COMMA", ","),
        ("IF", "if"),
        ("THEN", "then"),
        ("FUN", "fun"),
        ("ELSE", "else"),
        ("LET", "let"),
        ("IN", "in"),
        ("EVAL", "evalto"),
        ("VAR", "[a-z]+"),
    ]
}

/// The token kinds and their patterns, in the order in which they are tried.
pub fn token_patterns() -> (r: Vec<(&'static str, &'static str)>)
    ensures
        r@ == token_table(),
{
    let r = vec![
        ("MINT", "-[0-9]+"),
        ("INT", "[0-9]+"),
        ("TRUE", "true"),
        ("FALSE", "false"),
        ("ERR", "error"),
        ("ARROW", "->"),
        ("ENV", "\\|-"),
        ("PLUS", "\\+"),
        ("MINUS", "-"),
        ("TIMES", "\\*"),
        ("LT", "<"),
        ("PS", "\\("),
        ("PE", "\\)"),
        ("SS", "\\["),
        ("SE", "\\]"),
        ("EQ", "="),
        ("COMMA", ","),
        ("IF", "if"),
        ("THEN", "then"),
        ("FUN", "fun"),
        ("ELSE", "else"),
        ("LET", "let"),
        ("IN", "in"),
        ("EVAL", "evalto"),
        ("VAR", "[a-z]+"),
    ];
    assert(r@ =~= token_table());
    r
}

/// The token that a piece of `text` stands for. It is unknown text where
/// the piece is of no kind of the table or does not lie within the text,
/// and an overflow where it writes a number outside the machine integers.
pub open spec fn token_of(text: Seq<char>, piece: Piece) -> Result<TokenModel, Error> {
    if !(piece.start <= piece.end <= text.len()) {
        Err(Error::UnknownText)
    } else if piece.kind == 0 || piece.kind == 1 {
        match integer_of(text.subrange(piece.start as int, piece.end as int)) {
            Some(value) => if i32::MIN <= value <= i32::MAX {
                Ok(TokenModel::Int(value))
            } else {
                Err(Error::Overflow)
            },
            None => Err(Error::UnknownText),
        }
    } else if piece.kind == 2 {
        Ok(TokenModel::Bool(true))
    } else if piece.kind == 3 {
        Ok(TokenModel::Bool(false))
    } else if piece.kind == 4 {
        Ok(TokenModel::ERR)
    } else if piece.kind == 5 {
        Ok(TokenModel::ARROW)
    } else if piece.kind == 6 {
        Ok(TokenModel::ENV)
    } else if piece.kind == 7 {
        Ok(TokenModel::Op(Operator::Plus))
    } else if piece.kind == 8 {
        Ok(TokenModel::Op(Operator::Minus))
    } else if piece.kind == 9 {
        Ok(TokenModel::Op(Operator::Times))
    } else if piece.kind == 10 {
        Ok(TokenModel::Op(Operator::Lt))
    } else if piece.kind == 11 {
        Ok(TokenModel::PS)
    } else if piece.kind == 12 {
        Ok(TokenModel::PE)
    } else if piece.kind == 13 {
        Ok(TokenModel::SS)
    } else if piece.kind == 14 {
        Ok(TokenModel::SE)
    } else if piece.kind == 15 {
        Ok(TokenModel::EQ)
    } else if piece.kind == 16 {
        Ok(TokenModel::COMMA)
    } else if piece.kind == 17 {
        Ok(TokenModel::IF)
    } else if piece.kind == 18 {
        Ok(TokenModel::THEN)
    } else if piece.kind == 19 {
        Ok(TokenModel::FUN)
    } else if piece.kind == 20 {
        Ok(TokenModel::ELSE)
    } else if piece.kind == 21 {
        Ok(TokenModel::LET)
    } else if piece.kind == 22 {
        Ok(TokenModel::IN)
    } else if piece.kind == 23 {
        Ok(TokenModel::Eval)
    } else if piece.kind == 24 {
        Ok(TokenModel::Var(text.subrange(piece.start as int, piece.end as int)))
    } else {
        Err(Error::UnknownText)
    }
}

/// The tokens of the first `count` pieces of `text`, or the error of the
/// first piece that gives no token.
pub open spec fn tokens_upto(text: Seq<char>, pieces: Seq<Piece>, count: nat) -> Result<
    Seq<TokenModel>,
    Error,
>
    decreases count,
{
    if count == 0 || count > pieces.len() {
        Ok(Seq::empty())
    } else {
        match tokens_upto(text, pieces, (count - 1) as nat) {
            Err(e) => Err(e),
            Ok(tokens) => match token_of(text, pieces[count - 1]) {
                Ok(token) => Ok(tokens.push(token)),
                Err(e) => Err(e),
            },
        }
    }
}

/// The tokens of the pieces of an ASCII text.
pub open spec fn tokens_of(text: Seq<char>, pieces: Seq<Piece>) -> Result<Seq<TokenModel>, Error> {
    if !vstd::utf8::is_ascii_chars(text) {
        Err(Error::UnknownText)
    } else {
        tokens_upto(text, pieces, pieces.len())
    }
}

/// The tokens of a judgement, given the matches of the token patterns in it.
pub open spec fn lexed(text: Seq<char>) -> Result<Seq<TokenModel>, Error> {
    match pieces_of(
        text,
        regex_captures(
            alternation(token_table(), token_table().len()),
            table_names(token_table()),
            text,
        ),
    ) {
        Ok(pieces) => tokens_of(text, pieces),
        Err(e) => Err(e),
    }
}

fn token_from(text: &str, piece: Piece) -> (r: Result<Token, Error>)
    requires
        text.is_ascii(),
    ensures
        match token_of(text@, piece) {
            Ok(token) => r is Ok && r->Ok_0@ == token,
            Err(e) => r == Err::<Token, Error>(e),
        },
{
    if piece.start > piece.end || piece.end > text.unicode_len() {
        return Err(Error::UnknownText);
    }
    if piece.kind == 0 || piece.kind == 1 {
        match parse_integer(text.substring_ascii(piece.start, piece.end)) {
            Ok(value) => Ok(Token::Int(value)),
            Err(e) => Err(e),
        }
    } else if piece.kind == 2 {
        Ok(Token::Bool(true))
    } else if piece.kind == 3 {
        Ok(Token::Bool(false))
    } else if piece.kind == 4 {
        Ok(Token::ERR)
    } else if piece.kind == 5 {
        Ok(Token::ARROW)
    } else if piece.kind == 6 {
        Ok(Token::ENV)
    } else if piece.kind == 7 {
        Ok(Token::Op(Operator::Plus))
    } else if piece.kind == 8 {
        Ok(Token::Op(Operator::Minus))
    } else if piece.kind == 9 {
        Ok(Token::Op(Operator::Times))
    } else if piece.kind == 10 {
        Ok(Token::Op(Operator::Lt))
    } else if piece.kind == 11 {
        Ok(Token::PS)
    } else if piece.kind == 12 {
        Ok(Token::PE)
    } else if piece.kind == 13 {
        Ok(Token::SS)
    } else if piece.kind == 14 {
        Ok(Token::SE)
    } else if piece.kind == 15 {
        Ok(Token::EQ)
    } else if piece.kind == 16 {
        Ok(Token::COMMA)
    } else if piece.kind == 17 {
        Ok(Token::IF)
    } else if piece.kind == 18 {
        Ok(Token::THEN)
    } else if piece.kind == 19 {
        Ok(Token::FUN)
    } else if piece.kind == 20 {
        Ok(Token::ELSE)
    } else if piece.kind == 21 {
        Ok(Token::LET)
    } else if piece.kind == 22 {
        Ok(Token::IN)
    } else if piece.kind == 23 {
        Ok(Token::Eval)
    } else if piece.kind == 24 {
        Ok(Token::Var(String::from_str(text.substring_ascii(piece.start, piece.end))))
    } else {
        Err(Error::UnknownText)
    }
}

proof fn lemma_tokens_error_stays(text: Seq<char>, pieces: Seq<Piece>, count: nat, more: nat)
    requires
        count <= more <= pieces.len(),
        tokens_upto(text, pieces, count) is Err,
    ensures
        tokens_upto(text, pieces, more) == tokens_upto(text, pieces, count),
    decreases more,
{
    if count < more {
        lemma_tokens_error_stays(text, pieces, count, (more - 1) as nat);
    }
}

/// Makes the tokens of a judgement from the pieces found in it.
pub fn tokens_from(text: &str, pieces: &Vec<Piece>) -> (r: Result<Tokens, Error>)
    ensures
        match tokens_of(text@, pieces@) {
            Ok(tokens) => r is Ok && r->Ok_0@ == tokens,
            Err(e) => r == Err::<Tokens, Error>(e),
        },
{
    if !text.is_ascii() {
        return Err(Error::UnknownText);
    }
    let mut tokens = Tokens { tokens: Vec::new() };
    assert(tokens@ =~= Seq::<TokenModel>::empty());
    let mut i: usize = 0;
    while i < pieces.len()
        invariant
            text.is_ascii(),
            i <= pieces.len(),
            tokens_upto(text@, pieces@, i as nat) == Ok::<Seq<TokenModel>, Error>(tokens@),
        decreases pieces.len() - i,
    {
        match token_from(text, pieces[i]) {
            Ok(token) => {
                let ghost before = tokens@;
                tokens.tokens.push(token);
                assert(tokens@ =~= before.push(token@));
            },
            Err(e) => {
                proof {
                    lemma_tokens_error_stays(text@, pieces@, (i + 1) as nat, pieces@.len());
                }
                return Err(e);
            },
        }
        i += 1;
    }
    Ok(tokens)
}

/// Splits ML-like judgements into tokens.
pub struct Lexer {
    scanner: Scanner,
}

impl Lexer {
    /// The lexer runs the patterns of the token table.
    #[verifier::type_invariant]
    spec fn wf(self) -> bool {
        &&& self.scanner.pattern() == alternation(token_table(), token_table().len())
        &&& self.scanner.names() == table_names(token_table())
    }

    /// Compiles the token table. It fails where the `regex` crate does not
    /// take the patterns.
    pub fn new() -> (r: Result<Lexer, Error>)
        ensures
            r is Ok <==> regex_compiles(alternation(token_table(), token_table().len())),
            r matches Err(e) ==> e == Error::Pattern,
    {
        match Scanner::new(&token_patterns()) {
            Ok(scanner) => Ok(Lexer { scanner }),
            Err(e) => Err(e),
        }
    }

    /// Splits a judgement into its tokens.
    pub fn lex(&self, code: &str) -> (r: Result<Tokens, Error>)
        ensures
            match lexed(code@) {
                Ok(tokens) => r is Ok && r->Ok_0@ == tokens,
                Err(e) => r == Err::<Tokens, Error>(e),
            },
    {
        self.tokenize(code)
    }

    fn tokenize(&self, code: &str) -> (r: Result<Tokens, Error>)
        ensures
            match lexed(code@) {
                Ok(tokens) => r is Ok && r->Ok_0@ == tokens,
                Err(e) => r == Err::<Tokens, Error>(e),
            },
    {
        proof {
            use_type_invariant(self);
        }
        match self.scanner.scan(code) {
            Ok(pieces) => tokens_from(code, &pieces),
            Err(e) => Err(e),
        }
    }
}

} // verus!

//! Tokens of the judgements over Peano numerals, and the stream that the
//! builders of those families consume from the front.

use vstd::prelude::*;
use crate::error::Error;
use crate::pattern::{Piece, Scanner, alternation, pieces_of, regex_captures, regex_compiles, table_names};

verus! {

/// Where in the judgement a token was found: the bytes `start..end`.
#[derive(Debug, Clone, Copy, PartialEq, Eq, Structural)]
pub struct DebugInfo {
    pub start: usize,
    pub end: usize,
}

/// The operator that joins a term to the one before it. The first term of a
/// sequence has `Empty`.
#[derive(Debug, Clone, Copy, PartialEq, Eq, Structural)]
pub enum Operator {
    Empty,
    Plus,
    Times,
}

/// A token of a judgement over Peano numerals, with its place in the text.
#[derive(Debug, Clone, Copy, PartialEq, Eq, Structural)]
pub enum Token {
    /// `Z`
    Zero(DebugInfo),
    /// `is`
    Equal(DebugInfo),
    /// `(`
    ParenS(DebugInfo),
    /// `S(`
    Ps(DebugInfo),
    /// `)`
    Pe(DebugInfo),
    /// `plus` or `times`
    Op(Operator, DebugInfo),
    /// `+` or `*`
    OpC(Operator, DebugInfo),
    /// `is less than`
    Lt(DebugInfo),
    /// `evalto`
    Eval(DebugInfo),
    /// `-*->`
    EvalMR(DebugInfo),
    /// `-d->`
    EvalDR(DebugInfo),
    /// `--->`
    EvalONE(DebugInfo),
}

impl Token {
    /// The place of the token in the judgement.
    pub fn debug_info(&self) -> (d: DebugInfo)
        ensures
            d == self.spec_debug_info(),
    {
        match self {
            Token::Zero(d) => *d,
            Token::Equal(d) => *d,
            Token::ParenS(d) => *d,
            Token::Ps(d) => *d,
            Token::Pe(d) => *d,
            Token::Op(_, d) => *d,
            Token::OpC(_, d) => *d,
            Token::Lt(d) => *d,
            Token::Eval(d) => *d,
            Token::EvalMR(d) => *d,
            Token::EvalDR(d) => *d,
            Token::EvalONE(d) => *d,
        }
    }

    pub open spec fn spec_debug_info(&self) -> DebugInfo {
        match self {
            Token::Zero(d) => *d,
            Token::Equal(d) => *d,
            Token::ParenS(d) => *d,
            Token::Ps(d) => *d,
            Token::Pe(d) => *d,
            Token::Op(_, d) => *d,
            Token::OpC(_, d) => *d,
            Token::Lt(d) => *d,
            Token::Eval(d) => *d,
            Token::EvalMR(d) => *d,
            Token::EvalDR(d) => *d,
            Token::EvalONE(d) => *d,
        }
    }
}

/// The number of `S(` tokens that stand in `s` from position `i` on without
/// a gap.
pub open spec fn leading_ps(s: Seq<Token>, i: int) -> nat
    decreases s.len() - i,
{
    if 0 <= i < s.len() && s[i] is Ps {
        1 + leading_ps(s, i + 1)
    } else {
        0
    }
}

/// Whether the Peano numeral of `n` stands in `s` at position `i`: `n` times
/// `S(`, then `Z`, then `n` times `)`.
pub open spec fn peano_at(s: Seq<Token>, i: int, n: nat) -> bool {
    &&& 0 <= i
    &&& i + 2 * n + 1 <= s.len()
    &&& forall|k: int| i <= k < i + n ==> s[k] is Ps
    &&& s[i + n] is Zero
    &&& forall|k: int| i + n < k <= i + 2 * n ==> s[k] is Pe
}

/// The number whose Peano numeral stands in `s` at position `i`, if one does.
pub open spec fn read_peano(s: Seq<Token>, i: int) -> Option<nat> {
    if peano_at(s, i, leading_ps(s, i)) {
        Some(leading_ps(s, i))
    } else {
        None
    }
}

/// The position behind the numeral of `n` that starts at `i`.
pub open spec fn after_peano(i: int, n: nat) -> int {
    i + 2 * n + 1
}

/// A numeral at a position is the numeral of one number only.
pub proof fn lemma_peano_at_unique(s: Seq<Token>, i: int, n: nat, m: nat)
    requires
        peano_at(s, i, n),
        peano_at(s, i, m),
    ensures
        n == m,
{
    if n < m {
        assert(s[i + n] is Ps);
    } else if m < n {
        assert(s[i + m] is Ps);
    }
}

/// Where a numeral stands, `read_peano` finds it.
pub proof fn lemma_read_peano_complete(s: Seq<Token>, i: int, n: nat)
    requires
        peano_at(s, i, n),
    ensures
        read_peano(s, i) == Some(n),
    decreases n,
{
    lemma_leading_ps(s, i, n);
}

proof fn lemma_leading_ps(s: Seq<Token>, i: int, n: nat)
    requires
        0 <= i,
        i + n < s.len(),
        forall|k: int| i <= k < i + n ==> s[k] is Ps,
        !(s[i + n] is Ps),
    ensures
        leading_ps(s, i) == n,
    decreases n,
{
    if n > 0 {
        lemma_leading_ps(s, i + 1, (n - 1) as nat);
    }
}

/// Reads the Peano numeral that starts at `pos`, and gives its number and
/// the position behind it.
pub fn scan_peano(tokens: &Vec<Token>, pos: usize) -> (r: Result<(usize, usize), Error>)
    ensures
        match read_peano(tokens@, pos as int) {
            Some(n) => r == Ok::<(usize, usize), Error>(
                (n as usize, after_peano(pos as int, n) as usize),
            ) && after_peano(pos as int, n) <= tokens.len(),
            None => r == Err::<(usize, usize), Error>(Error::Syntax),
        },
{
    let len = tokens.len();
    if pos > len {
        return Err(Error::Syntax);
    }
    let mut n: usize = 0;
    while pos + n < len && matches!(tokens[pos + n], Token::Ps(_))
        invariant
            len == tokens.len(),
            pos + n <= len,
            forall|k: int| pos <= k < pos + n ==> tokens@[k] is Ps,
        decreases len - pos - n,
    {
        n += 1;
    }
    proof {
        if pos + n < len {
            lemma_leading_ps(tokens@, pos as int, n as nat);
        } else {
            lemma_leading_ps_at_end(tokens@, pos as int, n as nat);
        }
    }
    if len - pos - n <= n {
        return Err(Error::Syntax);
    }
    if !matches!(tokens[pos + n], Token::Zero(_)) {
        return Err(Error::Syntax);
    }
    let mut m: usize = 0;
    while m < n
        invariant
            len == tokens.len(),
            m <= n,
            pos + 2 * n + 1 <= len,
            leading_ps(tokens@, pos as int) == n,
            tokens@[pos + n] is Zero,
            forall|k: int| pos <= k < pos + n ==> tokens@[k] is Ps,
            forall|k: int| pos + n < k <= pos + n + m ==> tokens@[k] is Pe,
        decreases n - m,
    {
        if !matches!(tokens[pos + n + 1 + m], Token::Pe(_)) {
            return Err(Error::Syntax);
        }
        m += 1;
    }
    Ok((n, pos + 2 * n + 1))
}

proof fn lemma_leading_ps_at_end(s: Seq<Token>, i: int, n: nat)
    requires
        0 <= i,
        i + n == s.len(),
        forall|k: int| i <= k < i + n ==> s[k] is Ps,
    ensures
        leading_ps(s, i) == n,
    decreases n,
{
    if n > 0 {
        lemma_leading_ps_at_end(s, i + 1, (n - 1) as nat);
    }
}

/// The tokens of a judgement, consumed from the front.
#[derive(Debug, PartialEq)]
pub struct Tokens {
    pub tokens: Vec<Token>,
}

impl View for Tokens {
    type V = Seq<Token>;

    open spec fn view(&self) -> Seq<Token> {
        self.tokens@
    }
}

impl Clone for Tokens {
    fn clone(&self) -> (r: Tokens)
        ensures
            r@ == self@,
    {
        let mut tokens: Vec<Token> = Vec::new();
        let mut i: usize = 0;
        while i < self.tokens.len()
            invariant
                i <= self.tokens.len(),
                tokens@ == self.tokens@.take(i as int),
            decreases self.tokens.len() - i,
        {
            tokens.push(self.tokens[i]);
            assert(self.tokens@.take(i + 1) =~= self.tokens@.take(i as int).push(
                self.tokens@[i as int],
            ));
            i += 1;
        }
        assert(self.tokens@.take(i as int) =~= self.tokens@);
        Tokens { tokens }
    }
}

impl Tokens {
    /// Takes the first token off the stream.
    pub fn pop(&mut self) -> (r: Option<Token>)
        ensures
            old(self)@.len() == 0 ==> r is None && final(self)@ == old(self)@,
            old(self)@.len() > 0 ==> r == Some(old(self)@[0]) && final(self)@ == old(self)@.skip(1),
    {
        if self.tokens.len() == 0 {
            None
        } else {
            let token = self.tokens.remove(0);
            assert(self.tokens@ =~= old(self)@.skip(1));
            Some(token)
        }
    }

    /// The first token of the stream, which stays where it is.
    pub fn peek(&self) -> (r: Option<Token>)
        ensures
            self@.len() == 0 ==> r is None,
            self@.len() > 0 ==> r == Some(self@[0]),
    {
        if self.tokens.len() == 0 {
            None
        } else {
            Some(self.tokens[0])
        }
    }

    /// Puts a token behind the last one.
    pub fn push(&mut self, token: Token)
        ensures
            final(self)@ == old(self)@.push(token),
    {
        self.tokens.push(token);
    }

    /// Turns the order of the tokens around.
    pub fn reverse(&mut self)
        ensures
            final(self)@ == old(self)@.reverse(),
    {
        let mut turned: Vec<Token> = Vec::new();
        let mut i: usize = self.tokens.len();
        while i > 0
            invariant
                i <= self.tokens.len(),
                turned@.len() == self.tokens.len() - i,
                forall|k: int| 0 <= k < turned@.len() ==> turned@[k] == self.tokens@[self.tokens.len() - 1 - k],
            decreases i,
        {
            i -= 1;
            turned.push(self.tokens[i]);
        }
        assert(turned@ =~= self.tokens@.reverse());
        self.tokens = turned;
    }

    /// Drops the first `count` tokens, or all where there are fewer.
    pub fn advance(&mut self, count: usize)
        ensures
            count <= old(self)@.len() ==> final(self)@ == old(self)@.skip(count as int),
            count > old(self)@.len() ==> final(self)@ == Seq::<Token>::empty(),
    {
        if count > self.tokens.len() {
            self.tokens = Vec::new();
        } else {
            let rest = self.tokens.split_off(count);
            self.tokens = rest;
        }
    }

    /// Consumes a Peano numeral from the front and gives its number. Where
    /// the stream does not start with a numeral, nothing is consumed.
    pub fn consume_peano_num(&mut self) -> (r: Result<usize, Error>)
        ensures
            match read_peano(old(self)@, 0) {
                Some(n) => r == Ok::<usize, Error>(n as usize) && final(self)@ == old(self)@.skip(
                    after_peano(0, n),
                ),
                None => r == Err::<usize, Error>(Error::Syntax) && final(self)@ == old(self)@,
            },
    {
        match scan_peano(&self.tokens, 0) {
            Ok((n, next)) => {
                self.advance(next);
                Ok(n)
            },
            Err(e) => Err(e),
        }
    }

    /// Consumes `plus` or `times` from the front. Where the stream starts
    /// with another token, or is empty, nothing is consumed.
    pub fn consume_operator(&mut self) -> (r: Result<Operator, Error>)
        ensures
            match read_operator(old(self)@, 0) {
                Some(op) => r == Ok::<Operator, Error>(op) && final(self)@ == old(self)@.skip(1),
                None => r == Err::<Operator, Error>(Error::Syntax) && final(self)@ == old(self)@,
            },
    {
        match scan_operator(&self.tokens, 0) {
            Some(op) => {
                self.advance(1);
                Ok(op)
            },
            None => Err(Error::Syntax),
        }
    }
}

/// The operator word (`plus`, `times`) at position `i` of `s`, if one stands
/// there.
pub open spec fn read_operator(s: Seq<Token>, i: int) -> Option<Operator> {
    if 0 <= i < s.len() {
        match s[i] {
            Token::Op(op, _) => Some(op),
            _ => None,
        }
    } else {
        None
    }
}

/// The operator word at `pos`, if one stands there.
pub fn scan_operator(tokens: &Vec<Token>, pos: usize) -> (r: Option<Operator>)
    ensures
        r == read_operator(tokens@, pos as int),
{
    if pos < tokens.len() {
        match tokens[pos] {
            Token::Op(op, _) => Some(op),
            _ => None,
        }
    } else {
        None
    }
}


/// The two numbers of `n1 is less than n2` at the front of `s`, and the
/// position behind the judgement, if `s` starts with one.
pub open spec fn read_comparison(s: Seq<Token>) -> Option<(nat, nat, int)> {
    match read_peano(s, 0) {
        None => None,
        Some(n1) => {
            let at_less = after_peano(0, n1);
            if at_less < s.len() && s[at_less] is Lt {
                match read_peano(s, at_less + 1) {
                    None => None,
                    Some(n2) => Some((n1, n2, after_peano(at_less + 1, n2))),
                }
            } else {
                None
            }
        },
    }
}

/// Reads `n1 is less than n2` from the front of the tokens: the two numbers
/// and the position behind the judgement.
pub fn scan_comparison(tokens: &Vec<Token>) -> (r: Result<(usize, usize, usize), Error>)
    ensures
        match read_comparison(tokens@) {
            Some((n1, n2, end)) => r == Ok::<(usize, usize, usize), Error>(
                (n1 as usize, n2 as usize, end as usize),
            ) && end <= tokens.len(),
            None => r == Err::<(usize, usize, usize), Error>(Error::Syntax),
        },
{
    let n1 = match scan_peano(tokens, 0) {
        Ok(found) => found,
        Err(e) => return Err(e),
    };
    if n1.1 >= tokens.len() || !matches!(tokens[n1.1], Token::Lt(_)) {
        return Err(Error::Syntax);
    }
    match scan_peano(tokens, n1.1 + 1) {
        Ok(n2) => Ok((n1.0, n2.0, n2.1)),
        Err(e) => Err(e),
    }
}


/// The token kinds and their patterns, in the order in which they are tried.
pub open spec fn token_table() -> Seq<(&'static str, &'static str)> {
    seq![
        ("ZERO", "Z"),
        ("PLUS", "plus"),
        ("TIMES", "times"),
        ("ADD", "\\+"),
        ("MUL", "\\*"),
        ("LT", "is less than"),
        ("EQ", "is"),
        ("PS", "S\\("),
        ("PARENS", "\\("),
        ("PE", "\\)"),
        ("EVAL", "evalto"),
        ("EVALMR", "-\\*->"),
        ("EVALDR", "-d->"),
        ("EVALONE", "--->"),
    ]
}

/// The token kinds and their patterns, in the order in which they are tried.
pub fn token_patterns() -> (r: Vec<(&'static str, &'static str)>)
    ensures
        r@ == token_table(),
{
    let r = vec![
        ("ZERO", "Z"),
        ("PLUS", "plus"),
        ("TIMES", "times"),
        ("ADD", "\\+"),
        ("MUL", "\\*"),
        ("LT", "is less than"),
        ("EQ", "is"),
        ("PS", "S\\("),
        ("PARENS", "\\("),
        ("PE", "\\)"),
        ("EVAL", "evalto"),
        ("EVALMR", "-\\*->"),
        ("EVALDR", "-d->"),
        ("EVALONE", "--->"),
    ];
    assert(r@ =~= token_table());
    r
}

/// The token that a piece of the given kind stands for.
pub open spec fn token_of(piece: Piece) -> Option<Token> {
    let d = DebugInfo { start: piece.start, end: piece.end };
    if piece.kind == 0 {
        Some(Token::Zero(d))
    } else if piece.kind == 1 {
        Some(Token::Op(Operator::Plus, d))
    } else if piece.kind == 2 {
        Some(Token::Op(Operator::Times, d))
    } else if piece.kind == 3 {
        Some(Token::OpC(Operator::Plus, d))
    } else if piece.kind == 4 {
        Some(Token::OpC(Operator::Times, d))
    } else if piece.kind == 5 {
        Some(Token::Lt(d))
    } else if piece.kind == 6 {
        Some(Token::Equal(d))
    } else if piece.kind == 7 {
        Some(Token::Ps(d))
    } else if piece.kind == 8 {
        Some(Token::ParenS(d))
    } else if piece.kind == 9 {
        Some(Token::Pe(d))
    } else if piece.kind == 10 {
        Some(Token::Eval(d))
    } else if piece.kind == 11 {
        Some(Token::EvalMR(d))
    } else if piece.kind == 12 {
        Some(Token::EvalDR(d))
    } else if piece.kind == 13 {
        Some(Token::EvalONE(d))
    } else {
        None
    }
}

/// The tokens of a sequence of pieces: one for each piece, where each is of
/// a kind of the table.
pub open spec fn tokens_of(pieces: Seq<Piece>) -> Result<Seq<Token>, Error> {
    if forall|i: int| 0 <= i < pieces.len() ==> (#[trigger] token_of(pieces[i])) is Some {
        Ok(Seq::new(pieces.len(), |i: int| token_of(pieces[i])->Some_0))
    } else {
        Err(Error::UnknownText)
    }
}

/// The tokens of a judgement, given the matches of the token patterns in it.
pub open spec fn lexed(text: Seq<char>) -> Result<Seq<Token>, Error> {
    match pieces_of(
        text,
        regex_captures(
            alternation(token_table(), token_table().len()),
            table_names(token_table()),
            text,
        ),
    ) {
        Ok(pieces) => tokens_of(pieces),
        Err(e) => Err(e),
    }
}

fn token_from(piece: Piece) -> (r: Option<Token>)
    ensures
        r == token_of(piece),
{
    let d = DebugInfo { start: piece.start, end: piece.end };
    if piece.kind == 0 {
        Some(Token::Zero(d))
    } else if piece.kind == 1 {
        Some(Token::Op(Operator::Plus, d))
    } else if piece.kind == 2 {
        Some(Token::Op(Operator::Times, d))
    } else if piece.kind == 3 {
        Some(Token::OpC(Operator::Plus, d))
    } else if piece.kind == 4 {
        Some(Token::OpC(Operator::Times, d))
    } else if piece.kind == 5 {
        Some(Token::Lt(d))
    } else if piece.kind == 6 {
        Some(Token::Equal(d))
    } else if piece.kind == 7 {
        Some(Token::Ps(d))
    } else if piece.kind == 8 {
        Some(Token::ParenS(d))
    } else if piece.kind == 9 {
        Some(Token::Pe(d))
    } else if piece.kind == 10 {
        Some(Token::Eval(d))
    } else if piece.kind == 11 {
        Some(Token::EvalMR(d))
    } else if piece.kind == 12 {
        Some(Token::EvalDR(d))
    } else if piece.kind == 13 {
        Some(Token::EvalONE(d))
    } else {
        None
    }
}

/// Makes the tokens of a judgement from the pieces found in it.
pub fn tokens_from(pieces: &Vec<Piece>) -> (r: Result<Tokens, Error>)
    ensures
        match tokens_of(pieces@) {
            Ok(tokens) => r is Ok && r->Ok_0@ == tokens,
            Err(e) => r == Err::<Tokens, Error>(e),
        },
{
    let mut tokens: Vec<Token> = Vec::new();
    let mut i: usize = 0;
    while i < pieces.len()
        invariant
            i <= pieces.len(),
            tokens.len() == i,
            forall|k: int| 0 <= k < i ==> #[trigger] token_of(pieces@[k]) == Some(tokens@[k]),
        decreases pieces.len() - i,
    {
        match token_from(pieces[i]) {
            Some(token) => tokens.push(token),
            None => return Err(Error::UnknownText),
        }
        i += 1;
    }
    assert(tokens@ =~= tokens_of(pieces@)->Ok_0);
    Ok(Tokens { tokens })
}

/// Splits judgements over Peano numerals into tokens.
pub struct Lexer {
    scanner: Scanner,
}

impl Lexer {
    /// The lexer runs the patterns of the token table.
    #[verifier::type_invariant]
    spec fn wf(self) -> bool {
        &&& self.scanner.pattern() == alternation(token_table(), token_table().len())
        &&& self.scanner.names() == table_names(token_table())
    }

    /// Compiles the token table. It fails where the `regex` crate does not
    /// take the patterns.
    pub fn new() -> (r: Result<Lexer, Error>)
        ensures
            r is Ok <==> regex_compiles(alternation(token_table(), token_table().len())),
            r matches Err(e) ==> e == Error::Pattern,
    {
        match Scanner::new(&token_patterns()) {
            Ok(scanner) => Ok(Lexer { scanner }),
            Err(e) => Err(e),
        }
    }

    /// Splits a judgement into its tokens.
    pub fn lex(&self, code: &str) -> (r: Result<Tokens, Error>)
        ensures
            match lexed(code@) {
                Ok(tokens) => r is Ok && r->Ok_0@ == tokens,
                Err(e) => r == Err::<Tokens, Error>(e),
            },
    {
        self.tokenize(code)
    }

    fn tokenize(&self, code: &str) -> (r: Result<Tokens, Error>)
        ensures
            match lexed(code@) {
                Ok(tokens) => r is Ok && r->Ok_0@ == tokens,
                Err(e) => r == Err::<Tokens, Error>(e),
            },
    {
        proof {
            use_type_invariant(self);
        }
        match self.scanner.scan(code) {
            Ok(pieces) => tokens_from(&pieces),
            Err(e) => Err(e),
        }
    }
}

} // verus!

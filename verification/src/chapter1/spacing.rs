//! The tokens of an expression over Peano numerals and their spacing.
//!
//! The builder loses nothing: the tokens that it consumes are the tokens
//! of what it builds, operators and parentheses included. And what is
//! written again from the terms is those tokens, one blank between two of
//! them, and none behind `S(` or `(` nor before `)`.

use vstd::prelude::*;
use super::parser_evalnatexp::{TermModel, operator_text, read_more, read_term, read_terms, term_text, terms_text};
use crate::lexer::{Operator, Token, after_peano, peano_at, read_peano};
use crate::util::{lemma_successor_is_next, peano, successor};

verus! {

/// What a token is, whatever its place in the judgement.
pub enum Mark {
    Zero,
    Equal,
    ParenS,
    Ps,
    Pe,
    Op(Operator),
    OpC(Operator),
    Lt,
    Eval,
    EvalMR,
    EvalDR,
    EvalONE,
}

/// What the token is.
pub open spec fn mark(token: Token) -> Mark {
    match token {
        Token::Zero(_) => Mark::Zero,
        Token::Equal(_) => Mark::Equal,
        Token::ParenS(_) => Mark::ParenS,
        Token::Ps(_) => Mark::Ps,
        Token::Pe(_) => Mark::Pe,
        Token::Op(operator, _) => Mark::Op(operator),
        Token::OpC(operator, _) => Mark::OpC(operator),
        Token::Lt(_) => Mark::Lt,
        Token::Eval(_) => Mark::Eval,
        Token::EvalMR(_) => Mark::EvalMR,
        Token::EvalDR(_) => Mark::EvalDR,
        Token::EvalONE(_) => Mark::EvalONE,
    }
}

/// What the tokens `from..to` are.
pub open spec fn marks(tokens: Seq<Token>, from: int, to: int) -> Seq<Mark> {
    Seq::new((to - from) as nat, |k: int| mark(tokens[from + k]))
}

/// The tokens that write the numeral of `n`.
pub open spec fn numeral_marks(n: nat) -> Seq<Mark>
    decreases n,
{
    if n == 0 {
        seq![Mark::Zero]
    } else {
        seq![Mark::Ps] + numeral_marks((n - 1) as nat) + seq![Mark::Pe]
    }
}

/// The token of the operator in front of a term: none in front of the
/// first.
pub open spec fn operator_marks(operator: Operator) -> Seq<Mark> {
    if operator == Operator::Empty {
        Seq::empty()
    } else {
        seq![Mark::OpC(operator)]
    }
}

/// The tokens that write a term, without its operator.
pub open spec fn term_marks(term: TermModel) -> Seq<Mark>
    decreases term,
{
    match term {
        TermModel::Leaf(_, n) => numeral_marks(n),
        TermModel::Node(_, inner) => seq![Mark::ParenS] + terms_marks(inner, inner.len()) + seq![
            Mark::Pe,
        ],
    }
}

/// The tokens that write the first `count` terms, each behind its
/// operator.
pub open spec fn terms_marks(terms: Seq<TermModel>, count: nat) -> Seq<Mark>
    decreases terms, count,
{
    if count == 0 || count > terms.len() {
        Seq::empty()
    } else {
        terms_marks(terms, (count - 1) as nat) + operator_marks(terms[count - 1].operator())
            + term_marks(terms[count - 1])
    }
}

/// The tokens of a numeral that is read are those that write its number.
pub proof fn lemma_numeral_marks(s: Seq<Token>, i: int, n: nat)
    requires
        peano_at(s, i, n),
    ensures
        marks(s, i, after_peano(i, n)) == numeral_marks(n),
    decreases n,
{
    if n == 0 {
        assert(marks(s, i, i + 1) =~= numeral_marks(0));
    } else {
        assert(peano_at(s, i + 1, (n - 1) as nat)) by {
            assert forall|k: int| i + 1 + (n - 1) < k <= i + 1 + 2 * (n - 1) implies s[k] is Pe by {}
        }
        lemma_numeral_marks(s, i + 1, (n - 1) as nat);
        assert(s[i] is Ps);
        assert(s[i + 2 * n] is Pe);
        assert(marks(s, i, i + 2 * n + 1) =~= seq![Mark::Ps] + marks(s, i + 1, i + 2 * n) + seq![
            Mark::Pe,
        ]);
    }
}

proof fn lemma_marks_of_prefix(terms: Seq<TermModel>, longer: Seq<TermModel>, count: nat)
    requires
        count <= terms.len() <= longer.len(),
        forall|i: int| 0 <= i < terms.len() ==> terms[i] == longer[i],
    ensures
        terms_marks(terms, count) == terms_marks(longer, count),
    decreases count,
{
    if count > 0 {
        lemma_marks_of_prefix(terms, longer, (count - 1) as nat);
    }
}

/// The tokens of a term that the builder reads are the tokens that it
/// consumes.
pub proof fn lemma_read_term_marks(s: Seq<Token>, i: int, operator: Operator)
    requires
        read_term(s, i, operator) is Some,
    ensures
        i < read_term(s, i, operator)->Some_0.1 <= s.len(),
        read_term(s, i, operator)->Some_0.0.operator() == operator,
        marks(s, i, read_term(s, i, operator)->Some_0.1) == term_marks(
            read_term(s, i, operator)->Some_0.0,
        ),
    decreases s.len() - i, 0nat,
{
    let (term, end) = read_term(s, i, operator)->Some_0;
    match s[i] {
        Token::ParenS(_) => {
            lemma_read_terms_marks(s, i + 1);
            let (inner, at_close) = read_terms(s, i + 1)->Some_0;
            assert(marks(s, i, end) =~= seq![Mark::ParenS] + marks(s, i + 1, at_close) + seq![
                Mark::Pe,
            ]);
        },
        _ => {
            lemma_numeral_marks(s, i, read_peano(s, i)->Some_0);
        },
    }
}

/// The tokens of the terms that the builder reads are the tokens that it
/// consumes.
pub proof fn lemma_read_terms_marks(s: Seq<Token>, i: int)
    requires
        read_terms(s, i) is Some,
    ensures
        i < read_terms(s, i)->Some_0.1 <= s.len(),
        marks(s, i, read_terms(s, i)->Some_0.1) == terms_marks(
            read_terms(s, i)->Some_0.0,
            read_terms(s, i)->Some_0.0.len(),
        ),
        well_formed(read_terms(s, i)->Some_0.0),
    decreases s.len() - i, 2nat,
{
    lemma_read_term_marks(s, i, Operator::Empty);
    lemma_read_term_well_formed(s, i, Operator::Empty);
    let (first, next) = read_term(s, i, Operator::Empty)->Some_0;
    let found = seq![first];
    assert(terms_marks(found, 1) =~= term_marks(first)) by {
        assert(terms_marks(found, 0) =~= Seq::<Mark>::empty());
    }
    lemma_read_more_marks(s, i, next, found);
}

proof fn lemma_read_more_marks(s: Seq<Token>, start: int, i: int, found: Seq<TermModel>)
    requires
        0 <= start < i <= s.len(),
        marks(s, start, i) == terms_marks(found, found.len()),
        well_formed(found),
        read_more(s, i, found) is Some,
    ensures
        i <= read_more(s, i, found)->Some_0.1 <= s.len(),
        marks(s, start, read_more(s, i, found)->Some_0.1) == terms_marks(
            read_more(s, i, found)->Some_0.0,
            read_more(s, i, found)->Some_0.0.len(),
        ),
        well_formed(read_more(s, i, found)->Some_0.0),
    decreases s.len() - i, 1nat,
{
    if i < s.len() {
        match s[i] {
            Token::OpC(operator, _) => {
                lemma_read_term_marks(s, i + 1, operator);
                let (term, next) = read_term(s, i + 1, operator)->Some_0;
                let longer = found.push(term);
                lemma_marks_of_prefix(found, longer, found.len());
                assert(marks(s, start, next) =~= marks(s, start, i) + seq![Mark::OpC(operator)]
                    + marks(s, i + 1, next));
                assert(well_formed(longer)) by {
                    assert forall|k: int| 0 <= k < longer.len() implies term_well_formed(
                        #[trigger] longer[k],
                    ) by {
                        if k < found.len() {
                            assert(longer[k] == found[k]);
                        } else {
                            lemma_read_term_well_formed(s, i + 1, operator);
                        }
                    }
                    assert forall|k: int| 0 < k < longer.len() implies (
                    #[trigger] longer[k]).operator() != Operator::Empty by {
                        if k < found.len() {
                            assert(longer[k] == found[k]);
                        }
                    }
                }
                lemma_read_more_marks(s, start, next, longer);
            },
            _ => {},
        }
    }
}

/// Whether the terms can have been read: there is a first term with no
/// operator in front, every other term has one, and the terms in
/// parentheses are well formed.
pub open spec fn well_formed(terms: Seq<TermModel>) -> bool
    decreases terms,
{
    &&& terms.len() > 0
    &&& terms[0].operator() == Operator::Empty
    &&& forall|i: int| 0 < i < terms.len() ==> (#[trigger] terms[i]).operator() != Operator::Empty
    &&& forall|i: int| 0 <= i < terms.len() ==> term_well_formed(#[trigger] terms[i])
}

/// Whether the terms within the term are well formed.
pub open spec fn term_well_formed(term: TermModel) -> bool
    decreases term,
{
    match term {
        TermModel::Leaf(_, _) => true,
        TermModel::Node(_, inner) => well_formed(inner),
    }
}

/// What the builder reads as a term is well formed.
pub proof fn lemma_read_term_well_formed(s: Seq<Token>, i: int, operator: Operator)
    requires
        read_term(s, i, operator) is Some,
    ensures
        term_well_formed(read_term(s, i, operator)->Some_0.0),
    decreases s.len() - i, 0nat,
{
    match s[i] {
        Token::ParenS(_) => {
            lemma_read_terms_marks(s, i + 1);
        },
        _ => {},
    }
}

/// The text of a token.
pub open spec fn mark_text(mark: Mark) -> Seq<char> {
    match mark {
        Mark::Zero => "Z"@,
        Mark::Equal => "is"@,
        Mark::ParenS => "("@,
        Mark::Ps => "S("@,
        Mark::Pe => ")"@,
        Mark::Op(Operator::Plus) => "plus"@,
        Mark::Op(Operator::Times) => "times"@,
        Mark::Op(Operator::Empty) => Seq::empty(),
        Mark::OpC(Operator::Plus) => "+"@,
        Mark::OpC(Operator::Times) => "*"@,
        Mark::OpC(Operator::Empty) => Seq::empty(),
        Mark::Lt => "is less than"@,
        Mark::Eval => "evalto"@,
        Mark::EvalMR => "-*->"@,
        Mark::EvalDR => "-d->"@,
        Mark::EvalONE => "--->"@,
    }
}

/// What stands between two tokens: a blank, but nothing behind `S(` or `(`
/// and nothing before `)`.
pub open spec fn gap(before: Mark, after: Mark) -> Seq<char> {
    if before == Mark::Ps || before == Mark::ParenS || after == Mark::Pe {
        Seq::empty()
    } else {
        " "@
    }
}

/// The first `count` tokens, written with the gaps between them.
pub open spec fn spaced(tokens: Seq<Mark>, count: nat) -> Seq<char>
    decreases count,
{
    if count == 0 || count > tokens.len() {
        Seq::empty()
    } else if count == 1 {
        mark_text(tokens[0])
    } else {
        spaced(tokens, (count - 1) as nat) + gap(tokens[count - 2], tokens[count - 1]) + mark_text(
            tokens[count - 1],
        )
    }
}

/// All the tokens, written with the gaps between them.
pub open spec fn written(tokens: Seq<Mark>) -> Seq<char> {
    spaced(tokens, tokens.len())
}

proof fn lemma_spaced_of_prefix(tokens: Seq<Mark>, longer: Seq<Mark>, count: nat)
    requires
        count <= tokens.len() <= longer.len(),
        forall|i: int| 0 <= i < count ==> tokens[i] == longer[i],
    ensures
        spaced(tokens, count) == spaced(longer, count),
    decreases count,
{
    if count > 1 {
        lemma_spaced_of_prefix(tokens, longer, (count - 1) as nat);
    }
}

/// Two runs of tokens written one behind the other are the two as they are
/// written, with the gap between the last of the one and the first of the
/// other.
pub proof fn lemma_written_concat(a: Seq<Mark>, b: Seq<Mark>)
    requires
        a.len() > 0,
        b.len() > 0,
    ensures
        written(a + b) == written(a) + gap(a.last(), b[0]) + written(b),
    decreases b.len(),
{
    let whole = a + b;
    if b.len() == 1 {
        lemma_spaced_of_prefix(a, whole, a.len());
        assert(written(whole) =~= written(a) + gap(a.last(), b[0]) + written(b));
    } else {
        let shorter = b.drop_last();
        lemma_written_concat(a, shorter);
        lemma_spaced_of_prefix(a + shorter, whole, (whole.len() - 1) as nat);
        lemma_spaced_of_prefix(shorter, b, shorter.len());
        assert(whole[whole.len() - 2] == b[b.len() - 2]);
        assert(written(whole) =~= written(a) + gap(a.last(), b[0]) + written(b));
    }
}

/// The tokens of a numeral, written with their gaps, are the numeral.
pub proof fn lemma_numeral_is_written(n: nat)
    ensures
        numeral_marks(n).len() > 0,
        numeral_marks(n)[0] != Mark::Pe,
        numeral_marks(n).last() != Mark::Ps,
        numeral_marks(n).last() != Mark::ParenS,
        written(numeral_marks(n)) == peano(n),
    decreases n,
{
    if n == 0 {
        assert(peano(0) =~= "Z"@) by {
            assert(crate::util::repeat("S("@, 0) =~= Seq::<char>::empty());
            assert(crate::util::repeat(")"@, 0) =~= Seq::<char>::empty());
        }
    } else {
        let inner = numeral_marks((n - 1) as nat);
        lemma_numeral_is_written((n - 1) as nat);
        lemma_written_concat(seq![Mark::Ps], inner);
        lemma_written_concat(seq![Mark::Ps] + inner, seq![Mark::Pe]);
        lemma_successor_is_next((n - 1) as nat);
        assert(written(numeral_marks(n)) =~= successor((n - 1) as nat));
    }
}

/// The tokens of a well-formed term, written with their gaps, are the text
/// of the term.
pub proof fn lemma_term_is_written(term: TermModel)
    requires
        term_well_formed(term),
    ensures
        term_marks(term).len() > 0,
        term_marks(term)[0] != Mark::Pe,
        term_marks(term).last() != Mark::Ps,
        term_marks(term).last() != Mark::ParenS,
        term_text(term) == written(term_marks(term)),
    decreases term, 0nat,
{
    match term {
        TermModel::Leaf(_, n) => {
            lemma_numeral_is_written(n);
        },
        TermModel::Node(_, inner) => {
            reveal_strlit("(");
            reveal_strlit(")");
            lemma_terms_are_written(inner, inner.len());
            let e = terms_marks(inner, inner.len());
            lemma_written_concat(seq![Mark::ParenS], e);
            lemma_written_concat(seq![Mark::ParenS] + e, seq![Mark::Pe]);
            assert(term_text(term) =~= written(term_marks(term)));
        },
    }
}

/// The tokens of the first terms of a well-formed sequence, written with
/// their gaps, are the text of those terms.
pub proof fn lemma_terms_are_written(terms: Seq<TermModel>, count: nat)
    requires
        well_formed(terms),
        1 <= count <= terms.len(),
    ensures
        terms_marks(terms, count).len() > 0,
        terms_marks(terms, count)[0] != Mark::Pe,
        terms_marks(terms, count).last() != Mark::Ps,
        terms_marks(terms, count).last() != Mark::ParenS,
        terms_text(terms, count) == written(terms_marks(terms, count)),
    decreases terms, count,
{
    let term = terms[count - 1];
    let operator = term.operator();
    lemma_term_is_written(term);
    let t = term_marks(term);
    if count == 1 {
        assert(terms_marks(terms, 0) =~= Seq::<Mark>::empty());
        assert(terms_marks(terms, 1) =~= t);
        assert(terms_text(terms, 1) =~= term_text(term)) by {
            assert(terms_text(terms, 0) =~= Seq::<char>::empty());
        }
    } else {
        reveal_strlit(" ");
        reveal_strlit(" + ");
        reveal_strlit("+");
        reveal_strlit(" * ");
        reveal_strlit("*");
        lemma_terms_are_written(terms, (count - 1) as nat);
        let front = terms_marks(terms, (count - 1) as nat);
        let joined = front + seq![Mark::OpC(operator)];
        lemma_written_concat(front, seq![Mark::OpC(operator)]);
        lemma_written_concat(joined, t);
        assert(terms_marks(terms, count) =~= joined + t);
        assert(operator_text(operator) =~= " "@ + mark_text(Mark::OpC(operator)) + " "@);
        assert(terms_text(terms, count) =~= written(joined + t));
    }
}

/// Writing again what was read gives the tokens that were read, in the
/// spacing of this module: the operators and the parentheses of the input
/// are kept, each operator between two blanks.
pub proof fn lemma_written_again(s: Seq<Token>, i: int)
    requires
        read_terms(s, i) is Some,
    ensures
        i < read_terms(s, i)->Some_0.1 <= s.len(),
        terms_text(read_terms(s, i)->Some_0.0, read_terms(s, i)->Some_0.0.len()) == written(
            marks(s, i, read_terms(s, i)->Some_0.1),
        ),
{
    let terms = read_terms(s, i)->Some_0.0;
    lemma_read_terms_marks(s, i);
    lemma_terms_are_written(terms, terms.len());
}

} // verus!

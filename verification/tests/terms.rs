use concepts_pl::chapter1::parser_evalnatexp::{Term, Terms};
use concepts_pl::lexer::Operator;

fn get_terms1() -> Terms {
    let mut terms: Vec<Term> = Vec::new();
    terms.push(Term::Leaf(Operator::Empty, 3));
    terms.push(Term::Leaf(Operator::Plus, 2));
    terms.push(Term::Leaf(Operator::Times, 1));
    Terms { terms }
}

fn get_terms2() -> Terms {
    let mut terms: Vec<Term> = Vec::new();
    terms.push(Term::Leaf(Operator::Empty, 3));
    terms.push(Term::Leaf(Operator::Plus, 2));
    Terms { terms }
}

#[test]
fn it_works() {
    assert_eq!(2 + 2, 4);
}

#[test]
fn test_get_split_position1() {
    let terms = get_terms1();
    let (position, operator) = terms.get_split_position();
    assert_eq!(position, 1);
    assert_eq!(operator, Operator::Plus);
}

#[test]
fn test_get_split_position2() {
    let terms = get_terms2();
    let (position, operator) = terms.get_split_position();
    assert_eq!(position, 1);
    assert_eq!(operator, Operator::Plus);
}

#[test]
fn test_get_splitted_terms1() {
    let terms = get_terms1();
    let (former, latter) = terms.get_splitted_terms(1);

    let mut terms: Vec<Term> = Vec::new();
    terms.push(Term::Leaf(Operator::Empty, 3));
    let expect_former = Terms { terms };

    let mut terms: Vec<Term> = Vec::new();
    terms.push(Term::Leaf(Operator::Empty, 2));
    terms.push(Term::Leaf(Operator::Times, 1));
    let expect_latter = Terms { terms };

    assert_eq!(expect_former, former);
    assert_eq!(expect_latter, latter);
}

#[test]
fn test_get_splitted_terms2() {
    let terms = get_terms2();
    let (former, latter) = terms.get_splitted_terms(1);

    let mut terms: Vec<Term> = Vec::new();
    terms.push(Term::Leaf(Operator::Empty, 3));
    let expect_former = Terms { terms };

    let mut terms: Vec<Term> = Vec::new();
    terms.push(Term::Leaf(Operator::Empty, 2));
    let expect_latter = Terms { terms };

    assert_eq!(expect_former, former);
    assert_eq!(expect_latter, latter);
}

#[test]
fn test_rm_first_operator() {
    let mut terms: Vec<Term> = Vec::new();
    terms.push(Term::Leaf(Operator::Times, 3));
    terms.push(Term::Leaf(Operator::Plus, 2));
    let mut terms = Terms { terms };

    terms.rm_first_operator();

    let mut expect_terms: Vec<Term> = Vec::new();
    expect_terms.push(Term::Leaf(Operator::Empty, 3));
    expect_terms.push(Term::Leaf(Operator::Plus, 2));
    let expect_terms = Terms {
        terms: expect_terms,
    };

    assert_eq!(expect_terms, terms);
}

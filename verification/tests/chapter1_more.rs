use concepts_pl::chapter1::parser_compnat1;
use concepts_pl::chapter1::parser_compnat2;
use concepts_pl::chapter1::parser_compnat3;
use concepts_pl::chapter1::parser_evalnatexp;
use concepts_pl::chapter1::parser_nat;
use concepts_pl::chapter1::parser_reducenatexp;
use concepts_pl::chapter1::DerivationRules;
use concepts_pl::error::Error;
use concepts_pl::lexer::{DebugInfo, Lexer, Operator, Token, Tokens};

fn derive_text(judgement: &str, rules: DerivationRules) -> Result<String, Error> {
    concepts_pl::chapter1::derive(judgement, rules)
}

fn lex(judgement: &str) -> Tokens {
    Lexer::new()
        .expect("expects the token patterns")
        .lex(judgement)
        .expect("expects tokens")
}

#[test]
fn sum_is_derived_whatever_the_judgement_claims() {
    let expect = [
        "S(Z) plus Z is S(Z) by P-Succ {\n",
        "  Z plus Z is Z by P-Zero {}\n",
        "}\n",
    ]
    .concat();
    assert_eq!(derive_text("S(Z) plus Z is Z", DerivationRules::Nat), Ok(expect.clone()));
    assert_eq!(derive_text("S(Z) plus Z is S(S(S(Z)))", DerivationRules::Nat), Ok(expect));
}

#[test]
fn product_is_derived_whatever_the_judgement_claims() {
    assert_eq!(
        derive_text("S(Z) times S(Z) is Z", DerivationRules::Nat),
        derive_text("S(Z) times S(Z) is S(Z)", DerivationRules::Nat)
    );
}

#[test]
fn derived_sum_and_product_are_true() {
    assert_eq!(
        parser_nat::get_rule_plus(2, 3),
        parser_nat::RuleNode::PSucc(parser_nat::PSuccNode {
            n1: 2,
            n2: 3,
            n3: 5,
            premise: Box::new(parser_nat::RuleNode::PSucc(parser_nat::PSuccNode {
                n1: 1,
                n2: 3,
                n3: 4,
                premise: Box::new(parser_nat::RuleNode::PZero(parser_nat::PZeroNode {
                    nat_num: 3
                })),
            })),
        })
    );
    match parser_nat::get_rule_times(3, 4) {
        parser_nat::RuleNode::TSucc(node) => assert_eq!((node.n1, node.n2, node.n3), (3, 4, 12)),
        other => panic!("unexpected rule {:?}", other),
    }
}

#[test]
fn false_comparison_has_no_derivation() {
    assert_eq!(derive_text("S(Z) is less than Z", DerivationRules::CompNat1), Err(Error::NoRule));
    assert_eq!(derive_text("S(Z) is less than S(Z)", DerivationRules::CompNat2), Err(Error::NoRule));
    assert_eq!(derive_text("Z is less than Z", DerivationRules::CompNat3), Err(Error::NoRule));
    assert_eq!(parser_compnat1::get_rule_lt(3, 3), Err(Error::NoRule));
    assert_eq!(parser_compnat2::get_rule_lt(4, 3), Err(Error::NoRule));
    assert_eq!(parser_compnat3::get_rule_lt(0, 0), Err(Error::NoRule));
}

#[test]
fn zero_is_less_than_every_successor() {
    assert_eq!(
        derive_text("Z is less than S(S(S(Z)))", DerivationRules::CompNat2),
        Ok("Z is less than S(S(S(Z))) by L-Zero {}\n".to_string())
    );
}

#[test]
fn malformed_peano_judgement_is_a_syntax_error() {
    assert_eq!(derive_text("Z plus is Z", DerivationRules::Nat), Err(Error::Syntax));
    assert_eq!(derive_text("", DerivationRules::Nat), Err(Error::Syntax));
    assert_eq!(derive_text("S(Z plus Z is Z", DerivationRules::Nat), Err(Error::Syntax));
    assert_eq!(derive_text("S(S(Z) plus Z is Z", DerivationRules::Nat), Err(Error::Syntax));
    assert_eq!(derive_text("Z + Z is Z", DerivationRules::Nat), Err(Error::Syntax));
    assert_eq!(derive_text("Z plus Z", DerivationRules::Nat), Err(Error::Syntax));
    assert_eq!(derive_text("Z is less than", DerivationRules::CompNat1), Err(Error::Syntax));
    assert_eq!(derive_text("Z plus Z is Z", DerivationRules::CompNat2), Err(Error::Syntax));
    assert_eq!(derive_text("Z + evalto Z", DerivationRules::EvalNatExp), Err(Error::Syntax));
    assert_eq!(derive_text("(Z + Z evalto Z", DerivationRules::EvalNatExp), Err(Error::Syntax));
    assert_eq!(derive_text("Z + Z", DerivationRules::EvalNatExp), Err(Error::Syntax));
    assert_eq!(derive_text("Z + Z evalto Z", DerivationRules::ReduceNatExp), Err(Error::Syntax));
}

#[test]
fn peano_text_that_is_no_token_is_unknown() {
    assert_eq!(derive_text("Z plus Q is Z", DerivationRules::Nat), Err(Error::UnknownText));
    assert_eq!(derive_text("Z plus Z is Z.", DerivationRules::Nat), Err(Error::UnknownText));
    assert_eq!(derive_text("Z plus \u{3b6} is Z", DerivationRules::Nat), Err(Error::UnknownText));
}

#[test]
fn reduction_of_another_shape_has_no_derivation() {
    assert_eq!(derive_text("Z + Z ---> Z", DerivationRules::ReduceNatExp), Err(Error::NoRule));
    assert_eq!(
        derive_text("Z + S(Z) -*-> S(S(Z))", DerivationRules::ReduceNatExp),
        Err(Error::NoRule)
    );
    assert_eq!(
        derive_text("S(Z) * S(Z) + Z -d-> S(Z) + S(Z)", DerivationRules::ReduceNatExp),
        Err(Error::NoRule)
    );
}

#[test]
fn product_at_the_end_keeps_the_order_of_its_factors() {
    let expect = [
        "Z + S(Z) * S(S(Z)) ---> Z + S(S(Z)) by R-PlusR {\n",
        "  S(Z) * S(S(Z)) ---> S(S(Z)) by R-Times {\n",
        "    S(Z) times S(S(Z)) is S(S(Z)) by T-Succ {\n",
        "      Z times S(S(Z)) is Z by T-Zero {};\n",
        "      S(S(Z)) plus Z is S(S(Z)) by P-Succ {\n",
        "        S(Z) plus Z is S(Z) by P-Succ {\n",
        "          Z plus Z is Z by P-Zero {}\n",
        "        }\n",
        "      }\n",
        "    }\n",
        "  }\n",
        "}\n",
    ]
    .concat();
    assert_eq!(
        derive_text("Z + S(Z) * S(S(Z)) ---> Z + S(S(Z))", DerivationRules::ReduceNatExp),
        Ok(expect)
    );
}

#[test]
fn tree_is_rendered_at_the_given_depth() {
    let node = parser_nat::get_rule_plus(1, 0);
    let expect = [
        "    S(Z) plus Z is S(Z) by P-Succ {\n",
        "      Z plus Z is Z by P-Zero {}\n",
        "    }",
    ]
    .concat();
    assert_eq!(node.show(4, false), expect);
    assert_eq!(node.show(4, true), expect + "\n");
}

#[test]
fn chain_of_equal_operators_is_split_at_the_last() {
    let terms = parser_evalnatexp::Terms {
        terms: vec![
            parser_evalnatexp::Term::Leaf(Operator::Empty, 1),
            parser_evalnatexp::Term::Leaf(Operator::Plus, 2),
            parser_evalnatexp::Term::Leaf(Operator::Plus, 3),
        ],
    };
    assert_eq!(terms.get_split_position(), (2, Operator::Plus));
    let (former, latter) = terms.get_splitted_terms(2);
    assert_eq!(former.to_string(), "S(Z) + S(S(Z))");
    assert_eq!(latter.to_string(), "S(S(S(Z)))");
}

#[test]
fn sum_after_a_product_is_split_at_the_sum() {
    let terms = parser_evalnatexp::Terms {
        terms: vec![
            parser_evalnatexp::Term::Leaf(Operator::Empty, 1),
            parser_evalnatexp::Term::Leaf(Operator::Times, 2),
            parser_evalnatexp::Term::Leaf(Operator::Plus, 3),
            parser_evalnatexp::Term::Leaf(Operator::Times, 0),
        ],
    };
    assert_eq!(terms.get_split_position(), (2, Operator::Plus));
    assert_eq!(terms.split_in(2, 4), (3, Operator::Times));
}

#[test]
fn single_term_is_not_split() {
    let terms = parser_evalnatexp::Terms {
        terms: vec![parser_evalnatexp::Term::Leaf(Operator::Empty, 1)],
    };
    assert_eq!(terms.get_split_position(), (0, Operator::Empty));
    assert_eq!(terms.len(), 1);
}

#[test]
fn terms_are_written_with_their_parentheses() {
    let mut tokens = lex("(S(Z) + Z) * (Z + (S(Z))) evalto Z");
    let terms = parser_evalnatexp::Terms::new(&mut tokens).expect("expects terms");
    assert_eq!(terms.to_string(), "(S(Z) + Z) * (Z + (S(Z)))");
    assert_eq!(tokens.tokens.len(), 2);
    assert_eq!(terms.clone(), terms);
    assert!(terms.same(&terms.clone()));
    assert!(!terms.same(&terms.slice(1, 2)));
}

#[test]
fn terms_are_pushed_and_popped_at_the_end() {
    let mut terms = parser_evalnatexp::Terms { terms: Vec::new() };
    assert_eq!(terms.pop(), None);
    terms.push(parser_evalnatexp::Term::Leaf(Operator::Empty, 1));
    terms.push(parser_evalnatexp::Term::Leaf(Operator::Times, 2));
    assert_eq!(terms.terms[1].get_operator(), Operator::Times);
    assert_eq!(terms.pop(), Some(parser_evalnatexp::Term::Leaf(Operator::Times, 2)));
    assert_eq!(terms.len(), 1);
}

#[test]
fn value_of_an_expression_is_read_off_its_tree() {
    let mut tokens = lex("S(S(Z)) * (S(Z) + S(S(Z))) evalto Z");
    let node = parser_evalnatexp::RuleNode::new(&mut tokens).expect("expects a derivation");
    assert_eq!(node.get_val(), 6);
    assert!(tokens.tokens.is_empty());
}

#[test]
fn empty_parentheses_have_no_rule() {
    let terms = parser_evalnatexp::Terms {
        terms: vec![parser_evalnatexp::Term::Node(
            Operator::Empty,
            parser_evalnatexp::Terms { terms: Vec::new() },
        )],
    };
    assert_eq!(parser_evalnatexp::get_rule_eval(terms), Err(Error::NoRule));
}

#[test]
fn terms_without_an_operator_between_them_have_no_rule() {
    let terms = parser_evalnatexp::Terms {
        terms: vec![
            parser_evalnatexp::Term::Leaf(Operator::Empty, 1),
            parser_evalnatexp::Term::Leaf(Operator::Empty, 2),
        ],
    };
    assert_eq!(parser_evalnatexp::get_rule_eval(terms), Err(Error::NoRule));
}

#[test]
fn sum_outside_the_machine_integers_is_an_overflow() {
    let terms = parser_evalnatexp::Terms {
        terms: vec![
            parser_evalnatexp::Term::Leaf(Operator::Empty, usize::MAX),
            parser_evalnatexp::Term::Leaf(Operator::Plus, 1),
        ],
    };
    assert_eq!(parser_evalnatexp::get_rule_eval(terms), Err(Error::Overflow));
}

#[test]
fn tokens_carry_their_place_in_the_judgement() {
    let tokens = lex("S(Z) plus Z is  S(Z)");
    let expect = vec![
        Token::Ps(DebugInfo { start: 0, end: 2 }),
        Token::Zero(DebugInfo { start: 2, end: 3 }),
        Token::Pe(DebugInfo { start: 3, end: 4 }),
        Token::Op(Operator::Plus, DebugInfo { start: 5, end: 9 }),
        Token::Zero(DebugInfo { start: 10, end: 11 }),
        Token::Equal(DebugInfo { start: 12, end: 14 }),
        Token::Ps(DebugInfo { start: 16, end: 18 }),
        Token::Zero(DebugInfo { start: 18, end: 19 }),
        Token::Pe(DebugInfo { start: 19, end: 20 }),
    ];
    assert_eq!(tokens.tokens, expect);
    assert_eq!(tokens.tokens[3].debug_info(), DebugInfo { start: 5, end: 9 });
}

#[test]
fn longer_pattern_is_tried_before_its_prefix() {
    let tokens = lex("is less than is (S( -*-> -d-> ---> times * + evalto");
    let kinds: Vec<String> = tokens
        .tokens
        .iter()
        .map(|token| format!("{:?}", token).split('(').next().unwrap_or("").to_string())
        .collect();
    assert_eq!(
        kinds,
        vec![
            "Lt", "Equal", "ParenS", "Ps", "EvalMR", "EvalDR", "EvalONE", "Op", "OpC", "OpC",
            "Eval"
        ]
    );
}

#[test]
fn tokens_are_consumed_from_the_front() {
    let mut tokens = lex("S(S(Z)) times Z");
    assert_eq!(tokens.peek(), Some(Token::Ps(DebugInfo { start: 0, end: 2 })));
    assert_eq!(tokens.consume_peano_num(), Ok(2));
    assert_eq!(tokens.consume_peano_num(), Err(Error::Syntax));
    assert_eq!(tokens.tokens.len(), 2);
    assert_eq!(tokens.consume_operator(), Ok(Operator::Times));
    assert_eq!(tokens.consume_operator(), Err(Error::Syntax));
    assert_eq!(tokens.pop(), Some(Token::Zero(DebugInfo { start: 14, end: 15 })));
    assert_eq!(tokens.pop(), None);
    assert_eq!(tokens.peek(), None);
}

#[test]
fn numeral_must_close_every_successor() {
    let mut tokens = lex("S(S(Z) plus");
    assert_eq!(tokens.consume_peano_num(), Err(Error::Syntax));
    assert_eq!(tokens.tokens.len(), 5);
    let mut tokens = lex("S(S(");
    assert_eq!(tokens.consume_peano_num(), Err(Error::Syntax));
    let mut tokens = lex("Z))");
    assert_eq!(tokens.consume_peano_num(), Ok(0));
    assert_eq!(tokens.tokens.len(), 2);
}

#[test]
fn tokens_are_pushed_reversed_and_advanced() {
    let a = Token::Zero(DebugInfo { start: 0, end: 1 });
    let b = Token::Equal(DebugInfo { start: 2, end: 4 });
    let c = Token::Pe(DebugInfo { start: 5, end: 6 });
    let mut tokens = Tokens { tokens: Vec::new() };
    tokens.push(a);
    tokens.push(b);
    tokens.push(c);
    tokens.reverse();
    assert_eq!(tokens.tokens, vec![c, b, a]);
    tokens.advance(2);
    assert_eq!(tokens.tokens, vec![a]);
}

#[test]
fn reduction_rules_are_selected_by_the_arrow() {
    let mut tokens = lex("Z + S(Z) -*-> S(Z)");
    match parser_reducenatexp::RuleNode::new(&mut tokens) {
        Ok(parser_reducenatexp::RuleNode::MROne(node)) => match *node.premise {
            parser_reducenatexp::RuleNode::RPlus(premise) => {
                assert_eq!((premise.n1, premise.n2, premise.n3), (0, 1, 1))
            }
            other => panic!("unexpected premise {:?}", other),
        },
        other => panic!("unexpected rule {:?}", other),
    }
}

#[test]
fn arithmetic_rules_give_their_results() {
    match parser_nat::get_rule_plus(2, 1) {
        parser_nat::RuleNode::PSucc(node) => {
            assert_eq!(node.get_val(), 3);
            assert_eq!(
                node.show("", false),
                "S(S(Z)) plus S(Z) is S(S(S(Z))) by P-Succ {\n  S(Z) plus S(Z) is S(S(Z)) by P-Succ {\n    Z plus S(Z) is S(Z) by P-Zero {}\n  }\n}"
            );
        }
        other => panic!("unexpected rule {:?}", other),
    }
    assert_eq!(parser_nat::PZeroNode { nat_num: 2 }.get_val(), 2);
    assert_eq!(parser_nat::TZeroNode { nat_num: 2 }.get_val(), 0);
    assert_eq!(
        parser_nat::TZeroNode { nat_num: 2 }.show("  ", true),
        "  Z times S(S(Z)) is Z by T-Zero {}\n"
    );
    match parser_nat::get_rule_times(2, 2) {
        parser_nat::RuleNode::TSucc(node) => assert_eq!(node.get_val(), 4),
        other => panic!("unexpected rule {:?}", other),
    }
}

#[test]
fn tree_is_the_same_whatever_the_judgement_claims() {
    let build = |judgement: &str| {
        let mut tokens = lex(judgement);
        let tree = parser_nat::RuleNode::new(&mut tokens).expect("expects a derivation");
        assert!(tokens.tokens.is_empty());
        tree
    };
    assert_eq!(build("S(Z) plus Z is Z"), build("S(Z) plus Z is S(Z)"));
    assert_eq!(build("S(Z) plus Z is Z"), parser_nat::get_rule_plus(1, 0));
    assert_eq!(
        build("S(S(Z)) times S(Z) is Z"),
        build("S(S(Z)) times S(Z) is S(S(Z))")
    );
    assert_eq!(build("S(S(Z)) times S(Z) is S(S(S(Z)))"), parser_nat::get_rule_times(2, 1));
    match build("S(S(Z)) times S(S(Z)) is Z") {
        parser_nat::RuleNode::TSucc(node) => assert_eq!(node.n3, 4),
        other => panic!("unexpected rule {:?}", other),
    }
}

#[test]
fn token_patterns_of_both_lexers_compile() {
    assert!(Lexer::new().is_ok());
    assert!(concepts_pl::parser_evalml3::lexer::Lexer::new().is_ok());
    let table = concepts_pl::lexer::token_patterns();
    assert!(concepts_pl::pattern::Scanner::new(&table).is_ok());
    assert!(concepts_pl::pattern::Scanner::new(&vec![("OPEN", "(")]).is_err());
}

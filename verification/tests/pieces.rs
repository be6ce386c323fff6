use concepts_pl::error::Error;
use concepts_pl::parser_evalml3::environment::Environment;
use concepts_pl::parser_evalml3::expression::{Expression, LetExpression};
use concepts_pl::parser_evalml3::lexer::{Lexer, Operator, Token, Tokens};
use concepts_pl::parser_evalml3::nodes::writer::{rule_string, RuleWriter};
use concepts_pl::parser_evalml3::nodes::RuleNode;
use concepts_pl::parser_evalml3::terms::Term;
use concepts_pl::parser_evalml3::value::Value;
use concepts_pl::pattern::{get_names, make_regex, pieces_from, Lexeme, Piece, Scanner};
use concepts_pl::util::{
    bool_to_string, get_depth_space, get_peano_num, get_successor_num, integer_to_string,
    natural_to_string, parse_integer,
};

fn lex(judgement: &str) -> Tokens {
    Lexer::new()
        .expect("expects the token patterns")
        .lex(judgement)
        .expect("expects tokens")
}

#[test]
fn numerals_are_written_with_one_successor_per_unit() {
    assert_eq!(get_peano_num(0), "Z");
    assert_eq!(get_peano_num(1), "S(Z)");
    assert_eq!(get_peano_num(3), "S(S(S(Z)))");
    assert_eq!(get_successor_num(0), "S(Z)");
    assert_eq!(get_successor_num(2), get_peano_num(3));
}

#[test]
fn indentation_is_one_blank_per_unit() {
    assert_eq!(get_depth_space(0), "");
    assert_eq!(get_depth_space(3), "   ");
}

#[test]
fn integers_are_written_in_decimal() {
    assert_eq!(integer_to_string(0), "0");
    assert_eq!(integer_to_string(7), "7");
    assert_eq!(integer_to_string(-81), "-81");
    assert_eq!(integer_to_string(1200), "1200");
    assert_eq!(integer_to_string(i32::MAX), "2147483647");
    assert_eq!(integer_to_string(i32::MIN), "-2147483648");
    assert_eq!(natural_to_string(u32::MAX), "4294967295");
    assert_eq!(bool_to_string(true), "true");
    assert_eq!(bool_to_string(false), "false");
}

#[test]
fn integers_are_read_in_decimal() {
    assert_eq!(parse_integer("0"), Ok(0));
    assert_eq!(parse_integer("007"), Ok(7));
    assert_eq!(parse_integer("-81"), Ok(-81));
    assert_eq!(parse_integer("2147483647"), Ok(i32::MAX));
    assert_eq!(parse_integer("-2147483648"), Ok(i32::MIN));
    assert_eq!(parse_integer("2147483648"), Err(Error::Overflow));
    assert_eq!(parse_integer("-2147483649"), Err(Error::Overflow));
    assert_eq!(parse_integer("99999999999999999999999"), Err(Error::Overflow));
    assert_eq!(parse_integer(""), Err(Error::UnknownText));
    assert_eq!(parse_integer("-"), Err(Error::UnknownText));
    assert_eq!(parse_integer("12a"), Err(Error::UnknownText));
    assert_eq!(parse_integer("+3"), Err(Error::UnknownText));
}

#[test]
fn what_is_written_is_read_back() {
    for i in [0, 1, -1, 10, -10, 99, 100, 65536, i32::MAX, i32::MIN] {
        assert_eq!(parse_integer(&integer_to_string(i)), Ok(i));
    }
}

#[test]
fn patterns_are_joined_as_named_groups() {
    let table = vec![("INT", "[0-9]+"), ("OP", "\\+|-"), ("EVAL", "evalto")];
    assert_eq!(make_regex(&table), "(?P<INT>[0-9]+)|(?P<OP>\\+|-)|(?P<EVAL>evalto)");
    assert_eq!(get_names(&table), vec!["INT", "OP", "EVAL"]);
    assert_eq!(make_regex(&Vec::new()), "");
}

#[test]
fn pattern_that_is_no_regular_expression_is_refused() {
    assert!(matches!(Scanner::new(&vec![("OPEN", "(")]), Err(Error::Pattern)));
}

#[test]
fn scanner_finds_the_kind_and_the_place_of_each_token() {
    let scanner = Scanner::new(&vec![("INT", "[0-9]+"), ("OP", "\\+|-"), ("EVAL", "evalto")])
        .expect("expects the patterns to compile");
    assert_eq!(
        scanner.scan("12 + 3 evalto 15"),
        Ok(vec![
            Piece { kind: 0, start: 0, end: 2 },
            Piece { kind: 1, start: 3, end: 4 },
            Piece { kind: 0, start: 5, end: 6 },
            Piece { kind: 2, start: 7, end: 13 },
            Piece { kind: 0, start: 14, end: 16 },
        ])
    );
    assert_eq!(scanner.scan(""), Ok(Vec::new()));
    assert_eq!(scanner.scan("  \t\n"), Ok(Vec::new()));
    assert_eq!(scanner.scan("12 plus 3"), Err(Error::UnknownText));
}

#[test]
fn pieces_need_blank_text_between_the_matches() {
    let lexeme = |start, end, groups: Vec<bool>| Lexeme { start, end, groups };
    let text = "ab  cd";
    assert_eq!(
        pieces_from(
            text,
            &vec![lexeme(0, 2, vec![true, false]), lexeme(4, 6, vec![false, true])]
        ),
        Ok(vec![Piece { kind: 0, start: 0, end: 2 }, Piece { kind: 1, start: 4, end: 6 }])
    );
    assert_eq!(
        pieces_from(text, &vec![lexeme(0, 1, vec![true]), lexeme(4, 6, vec![true])]),
        Err(Error::UnknownText)
    );
    assert_eq!(pieces_from(text, &vec![lexeme(0, 2, vec![true])]), Err(Error::UnknownText));
    assert_eq!(pieces_from(text, &Vec::new()), Err(Error::UnknownText));
}

#[test]
fn pieces_need_matches_in_order_within_the_text_and_of_a_kind() {
    let lexeme = |start, end, groups: Vec<bool>| Lexeme { start, end, groups };
    let text = "ab cd";
    let whole = vec![lexeme(0, 2, vec![true]), lexeme(3, 5, vec![true])];
    assert!(pieces_from(text, &whole).is_ok());
    let swapped = vec![lexeme(3, 5, vec![true]), lexeme(0, 2, vec![true])];
    assert_eq!(pieces_from(text, &swapped), Err(Error::UnknownText));
    let outside = vec![lexeme(0, 2, vec![true]), lexeme(3, 6, vec![true])];
    assert_eq!(pieces_from(text, &outside), Err(Error::UnknownText));
    let backwards = vec![lexeme(2, 0, vec![true]), lexeme(3, 5, vec![true])];
    assert_eq!(pieces_from(text, &backwards), Err(Error::UnknownText));
    let of_no_kind = vec![lexeme(0, 2, vec![false, false]), lexeme(3, 5, vec![true])];
    assert_eq!(pieces_from(text, &of_no_kind), Err(Error::UnknownText));
    let of_two_kinds = vec![lexeme(0, 2, vec![true, true]), lexeme(3, 5, vec![true, false])];
    assert_eq!(
        pieces_from(text, &of_two_kinds),
        Ok(vec![Piece { kind: 1, start: 0, end: 2 }, Piece { kind: 0, start: 3, end: 5 }])
    );
    assert_eq!(pieces_from("\u{e9}", &Vec::new()), Err(Error::UnknownText));
}

#[test]
fn tokens_of_a_judgement_with_environment() {
    let tokens = lex("x = -3, b = true |- let f = fun y -> (y) in if b then f x else [<] evalto error");
    let expect = vec![
        Token::Var("x".to_string()),
        Token::EQ,
        Token::Int(-3),
        Token::COMMA,
        Token::Var("b".to_string()),
        Token::EQ,
        Token::Bool(true),
        Token::ENV,
        Token::LET,
        Token::Var("f".to_string()),
        Token::EQ,
        Token::FUN,
        Token::Var("y".to_string()),
        Token::ARROW,
        Token::PS,
        Token::Var("y".to_string()),
        Token::PE,
        Token::IN,
        Token::IF,
        Token::Var("b".to_string()),
        Token::THEN,
        Token::Var("f".to_string()),
        Token::Var("x".to_string()),
        Token::ELSE,
        Token::SS,
        Token::Op(Operator::Lt),
        Token::SE,
        Token::Eval,
        Token::ERR,
    ];
    assert_eq!(tokens.tokens, expect);
}

#[test]
fn minus_before_a_digit_is_the_sign_of_a_literal() {
    assert_eq!(
        lex("1 - 2 -3 - -4").tokens,
        vec![
            Token::Int(1),
            Token::Op(Operator::Minus),
            Token::Int(2),
            Token::Int(-3),
            Token::Op(Operator::Minus),
            Token::Int(-4),
        ]
    );
}

#[test]
fn ml_tokens_are_consumed_from_the_front() {
    let mut tokens = lex("7 + x true");
    assert_eq!(tokens.peek(), Some(Token::Int(7)));
    assert_eq!(tokens.consume_op(), Err(Error::Syntax));
    assert_eq!(tokens.consume_num(), Ok(7));
    assert_eq!(tokens.consume_num(), Err(Error::Syntax));
    assert_eq!(tokens.consume_op(), Ok(Operator::Plus));
    assert_eq!(tokens.consume_bool(), Err(Error::Syntax));
    assert_eq!(tokens.consume_var(), Ok("x".to_string()));
    assert_eq!(tokens.consume_var(), Err(Error::Syntax));
    assert_eq!(tokens.consume_val(), Ok(Value::Bool(true)));
    assert_eq!(tokens.consume_val(), Err(Error::Syntax));
    assert_eq!(tokens.pop(), None);
    let mut tokens = lex("false 3");
    assert_eq!(tokens.consume_bool(), Ok(false));
    assert_eq!(tokens.consume_val(), Ok(Value::Num(3)));
}

#[test]
fn expression_is_written_as_it_was_read() {
    for text in [
        "1 + 2 * 3 - 4 < 5",
        "(1 + 2) * ((3))",
        "if x < 1 then (if y then 1 else 2) else 3 + 4",
        "let x = 1 + 2 in let y = x in x * y",
        "fun x -> fun y -> x + y",
        "f (g x) + sq 3",
        "-1 - -2",
        "true",
    ] {
        let mut tokens = lex(text);
        let expression = Expression::new(&mut tokens).expect("expects an expression");
        assert_eq!(expression.to_string(), text);
        assert!(tokens.tokens.is_empty());
        assert_eq!(expression.clone(), expression);
    }
}

#[test]
fn expression_ends_before_the_first_token_that_is_no_operator() {
    let mut tokens = lex("1 + 2 evalto 3");
    let expression = Expression::new(&mut tokens).expect("expects an expression");
    assert_eq!(expression.len(), 2);
    assert_eq!(tokens.tokens, vec![Token::Eval, Token::Int(3)]);
    let mut tokens = lex("+ 1");
    assert_eq!(Expression::new(&mut tokens), Err(Error::Syntax));
    assert_eq!(tokens.tokens.len(), 2);
}

#[test]
fn term_and_binding_are_built_from_the_front() {
    let mut tokens = lex("(1 + 2) * 3");
    let term = Term::new(&mut tokens).expect("expects a term");
    assert_eq!(term.to_string(), "(1 + 2)");
    assert_eq!(term.get_identifier(), Err(Error::NoRule));
    assert_eq!(tokens.tokens.len(), 2);
    let mut tokens = lex("x = 1 + 2 in x");
    let binding = LetExpression::new(&mut tokens).expect("expects a binding");
    assert_eq!(binding.identifier, "x");
    assert_eq!(binding.to_string(), "x = 1 + 2");
    assert_eq!(tokens.tokens.len(), 2);
    let mut tokens = lex("y + 1");
    let term = Term::new(&mut tokens).expect("expects a term");
    assert_eq!(term.get_identifier(), Ok("y".to_string()));
}

#[test]
fn difference_chain_is_split_at_the_last_operator() {
    let mut tokens = lex("8 - 2 - 3");
    let expression = Expression::new(&mut tokens).expect("expects an expression");
    assert_eq!(expression.get_split_position(), (2, Operator::Minus));
    let (former, latter) = expression.get_splitted_expression(2);
    assert_eq!(former.to_string(), "8 - 2");
    assert_eq!(latter.to_string(), "3");
    assert_eq!(expression.get_first_term(), Some(&Term::Val(8)));
}

#[test]
fn expression_is_split_at_the_loosest_operator() {
    for (text, position, operator) in [
        ("1 * 2 + 3 * 4", 2, Operator::Plus),
        ("1 + 2 < 3 * 4", 2, Operator::Lt),
        ("1 < 2 + 3", 1, Operator::Lt),
        ("1 * 2 * 3", 2, Operator::Times),
        ("1 + 2 - 3 + 4", 3, Operator::Plus),
        ("1", 0, Operator::Empty),
    ] {
        let mut tokens = lex(text);
        let expression = Expression::new(&mut tokens).expect("expects an expression");
        assert_eq!(expression.get_split_position(), (position, operator));
    }
}

#[test]
fn environment_binds_on_top_and_looks_up_from_the_top() {
    let mut tokens = lex("x = 1, y = true, x = 3 |- x");
    let mut environment = Environment::new(&mut tokens).expect("expects an environment");
    assert_eq!(tokens.tokens, vec![Token::ENV, Token::Var("x".to_string())]);
    assert_eq!(environment.len(), 3);
    assert_eq!(environment.to_string(), "x = 1, y = true, x = 3 |- ");
    assert_eq!(environment.get_val(&"x".to_string()), Ok(Value::Num(3)));
    assert_eq!(environment.get_match_loc(&"x".to_string()), Ok(0));
    assert_eq!(environment.get_match_loc(&"y".to_string()), Ok(1));
    assert_eq!(environment.get_val(&"z".to_string()), Err(Error::Undeclared));
    assert_eq!(environment.get_match_loc(&"z".to_string()), Err(Error::Undeclared));
    environment.pop_val();
    assert_eq!(environment.get_val(&"x".to_string()), Ok(Value::Num(1)));
    assert_eq!(environment.get_match_loc(&"x".to_string()), Ok(1));
    environment.set_val("z".to_string(), Value::Bool(false));
    assert_eq!(environment.to_string(), "x = 1, y = true, z = false |- ");
    assert_eq!(environment.prefix(1).to_string(), "x = 1 |- ");
    assert_eq!(environment.clone(), environment);
}

#[test]
fn empty_environment_is_written_as_the_turnstile() {
    let mut tokens = lex("|- 1");
    let mut environment = Environment::new(&mut tokens).expect("expects an environment");
    assert_eq!(environment.to_string(), "|- ");
    assert_eq!(environment.bindings_string(), "");
    environment.pop_val();
    assert_eq!(environment.len(), 0);
}

#[test]
fn values_are_made_by_the_operators() {
    assert_eq!(Value::apply(Operator::Plus, 3, 5), Ok(Value::Num(8)));
    assert_eq!(Value::apply(Operator::Minus, 3, 5), Ok(Value::Num(-2)));
    assert_eq!(Value::apply(Operator::Times, 3, 5), Ok(Value::Num(15)));
    assert_eq!(Value::apply(Operator::Lt, 3, 5), Ok(Value::Bool(true)));
    assert_eq!(Value::apply(Operator::Lt, 5, 5), Ok(Value::Bool(false)));
    assert_eq!(Value::apply(Operator::Empty, 3, 5), Err(Error::NoRule));
    assert_eq!(Value::apply(Operator::Times, i32::MIN, -1), Err(Error::Overflow));
    assert_eq!(Value::Num(4).get_num(), Some(4));
    assert_eq!(Value::Bool(true).get_num(), None);
}

#[test]
fn value_of_an_expression_in_an_environment() {
    let mut tokens = lex("x = 4 |- let y = x * x in if y < 10 then 0 else y - 10");
    let environment = Environment::new(&mut tokens).expect("expects an environment");
    tokens.advance(1);
    let expression = Expression::new(&mut tokens).expect("expects an expression");
    assert_eq!(expression.get_val(&environment, 0), Ok(Value::Num(6)));
    assert_eq!(Term::Var("x".to_string()).get_val(&environment, 0), Ok(Value::Num(4)));
    let node = RuleNode::new(environment, expression, 0).expect("expects a derivation");
    assert_eq!(node.get_val(), &Value::Num(6));
    assert_eq!(node.rule_str(), "E-Let");
    assert_eq!(
        node.head_string(),
        "x = 4 |- let y = x * x in if y < 10 then 0 else y - 10 evalto 6"
    );
}

#[test]
fn rule_is_written_with_its_premises_in_braces() {
    assert_eq!(rule_string("  ", "a", "R", &Vec::new()), "  a by R {}");
    assert_eq!(
        rule_string("  ", "a", "R", &vec!["    p".to_string()]),
        "  a by R {\n    p\n  }"
    );
    assert_eq!(
        rule_string("", "a", "R", &vec!["  p".to_string(), "  q".to_string(), "  r".to_string()]),
        "a by R {\n  p;\n  q;\n  r\n}"
    );
}

#[test]
fn writer_collects_what_is_written() {
    let mut writer = RuleWriter::new();
    writer.show_rule("", "1 evalto 1", "E-Int", &Vec::new());
    writer.write_nl();
    assert_eq!(writer.finish(), "1 evalto 1 by E-Int {}\n");
}

#[test]
fn writer_writes_rules_with_up_to_three_premises() {
    let mut writer = RuleWriter::new();
    writer.show_rule_without_premise("", "a", "R0");
    writer.write_nl();
    writer.show_rule_with_premise("", "b", "R1", "  p".to_string());
    writer.write_nl();
    writer.show_rule_with_premise2("", "c", "R2", "  p".to_string(), "  q".to_string());
    writer.write_nl();
    writer.show_rule_with_premise3(
        "",
        "d",
        "R3",
        "  p".to_string(),
        "  q".to_string(),
        "  r".to_string(),
    );
    assert_eq!(
        writer.finish(),
        "a by R0 {}\nb by R1 {\n  p\n}\nc by R2 {\n  p;\n  q\n}\nd by R3 {\n  p;\n  q;\n  r\n}"
    );
}

#[test]
fn arithmetic_rule_is_rendered_without_an_environment() {
    let node = concepts_pl::parser_evalml3::nodes::bnodes::BOpNode {
        i1: 4,
        i2: -3,
        op: Operator::Minus,
        result: Value::Num(7),
    };
    assert_eq!(node.show("  "), "  4 minus -3 is 7 by B-Minus {}");
}

#[test]
fn text_that_is_not_ascii_writes_no_integer() {
    assert_eq!(parse_integer("\u{661}\u{662}"), Err(Error::UnknownText));
    assert_eq!(parse_integer("-1\u{e9}"), Err(Error::UnknownText));
}

#[test]
fn more_tokens_than_there_are_cannot_be_dropped() {
    let mut tokens = lex("1 + 2");
    tokens.advance(5);
    assert!(tokens.tokens.is_empty());
    let tokens = lex("1 + 2");
    assert_eq!(tokens.clone(), tokens);
}

#[test]
fn split_behind_the_last_term_leaves_the_second_half_empty() {
    let mut tokens = lex("1 + 2");
    let expression = Expression::new(&mut tokens).expect("expects an expression");
    let (former, latter) = expression.get_splitted_expression(7);
    assert_eq!(former, expression);
    assert_eq!(latter.len(), 0);
    let (former, latter) = expression.get_splitted_expression(0);
    assert_eq!(former.len(), 0);
    assert_eq!(latter, expression);
}

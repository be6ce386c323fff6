use concepts_pl::error::Error;
use concepts_pl::parser_evalml1::nodes::{Expression, RuleNode};
use concepts_pl::parser_evalml1::terms::Terms;
use concepts_pl::parser_evalml1::value::Value;
use concepts_pl::parser_evalml3::lexer::{Lexer, Operator, Tokens};

fn lex(judgement: &str) -> Tokens {
    Lexer::new()
        .expect("expects the token patterns")
        .lex(judgement)
        .expect("expects tokens")
}

fn expression(text: &str) -> Expression {
    let mut tokens = lex(text);
    Expression::new(Terms::new(&mut tokens).expect("expects terms"))
}

#[test]
fn operand_that_is_no_integer_makes_the_error_value() {
    assert_eq!(Value::Int(3).plus(Value::Int(5)), Ok(Value::Int(8)));
    assert_eq!(Value::Int(3).minus(Value::Int(5)), Ok(Value::Int(-2)));
    assert_eq!(Value::Int(3).times(Value::Int(5)), Ok(Value::Int(15)));
    assert_eq!(Value::Int(3).comp(&Value::Int(5)), Value::Bool(true));
    assert_eq!(Value::Int(5).comp(&Value::Int(3)), Value::Bool(false));
    assert_eq!(Value::Int(3).plus(Value::Bool(true)), Ok(Value::Error));
    assert_eq!(Value::Bool(true).minus(Value::Int(3)), Ok(Value::Error));
    assert_eq!(Value::Error.times(Value::Int(3)), Ok(Value::Error));
    assert_eq!(Value::Int(3).comp(&Value::Error), Value::Error);
    assert_eq!(Value::Int(i32::MAX).plus(Value::Int(1)), Err(Error::Overflow));
    assert_eq!(Value::Int(i32::MIN).minus(Value::Int(1)), Err(Error::Overflow));
    assert_eq!(Value::Int(i32::MIN).times(Value::Int(-1)), Err(Error::Overflow));
    assert_eq!(Value::Int(1).apply(Operator::Lt, Value::Int(2)), Ok(Value::Bool(true)));
    assert_eq!(Value::Int(1).apply(Operator::Empty, Value::Int(2)), Err(Error::NoRule));
}

#[test]
fn values_are_written_as_in_a_judgement() {
    assert_eq!(Value::Int(-3).to_string(), "-3");
    assert_eq!(Value::Bool(false).to_string(), "false");
    assert_eq!(Value::Error.to_string(), "error");
    assert_eq!(Value::Int(9).get_num(), 9);
}

#[test]
fn value_of_an_expression() {
    assert_eq!(expression("8 - 2 - 3").get_val(), Ok(Value::Int(3)));
    assert_eq!(expression("(4 + 5) * (1 - 10)").get_val(), Ok(Value::Int(-81)));
    assert_eq!(expression("1 + 2 < 4").get_val(), Ok(Value::Bool(true)));
    assert_eq!(expression("if 1 < 2 then 3 else 4").get_val(), Ok(Value::Int(3)));
    assert_eq!(expression("if 2 < 1 then 3 else 4").get_val(), Ok(Value::Int(4)));
    assert_eq!(expression("if 1 then 3 else 4").get_val(), Ok(Value::Error));
    assert_eq!(expression("1 + true + 2").get_val(), Ok(Value::Error));
    assert_eq!(expression("true + (2147483647 + 1)").get_val(), Ok(Value::Error));
    assert_eq!(expression("(2147483647 + 1) + true").get_val(), Err(Error::Overflow));
    assert_eq!(expression("1 + x").get_val(), Err(Error::NoRule));
    assert_eq!(expression("1 + 2").to_string(), "1 + 2");
}

#[test]
fn rule_of_an_expression() {
    let node = expression("1 + true + 2").get_rule().expect("expects a derivation");
    assert_eq!(node.get_val(), Value::Error);
    assert_eq!(node.rule_string(), "E-PlusErrorL");
    assert_eq!(node.head_string(), "1 + true + 2 evalto error");
    match node {
        RuleNode::EOperandError(node) => {
            assert!(node.on_left);
            assert!(!node.of_bool);
            assert_eq!(node.premise.rule_string(), "E-PlusBoolR");
        }
        other => panic!("unexpected rule {:?}", other),
    }
}

#[test]
fn judgement_needs_a_result() {
    let mut tokens = lex("1 + 2 evalto");
    assert_eq!(RuleNode::new(&mut tokens), Err(Error::Syntax));
    assert_eq!(tokens.tokens.len(), 4);
    let mut tokens = lex("1 + 2 evalto (");
    assert_eq!(RuleNode::new(&mut tokens), Err(Error::Syntax));
    let mut tokens = lex("1 + 2 evalto 3 4");
    let node = RuleNode::new(&mut tokens).expect("expects a derivation");
    assert_eq!(node.show(2, false), "  1 + 2 evalto 3 by E-Plus {\n    1 evalto 1 by E-Int {};\n    2 evalto 2 by E-Int {};\n    1 plus 2 is 3 by B-Plus {}\n  }");
    assert_eq!(tokens.tokens.len(), 1);
}

#[test]
fn conditional_is_built_from_the_front() {
    let mut tokens = lex("if 1 < 2 then 3 else 4 + 5 evalto 3");
    let terms = concepts_pl::parser_evalml1::terms::IfTerms::new(&mut tokens)
        .expect("expects a conditional");
    assert_eq!(terms.condition_expression.to_string(), "1 < 2");
    assert_eq!(terms.then_expression.to_string(), "3");
    assert_eq!(terms.else_expression.to_string(), "4 + 5");
    assert_eq!(tokens.tokens.len(), 2);
    let mut tokens = lex("1 + 2");
    assert_eq!(
        concepts_pl::parser_evalml1::terms::IfTerms::new(&mut tokens),
        Err(Error::Syntax)
    );
    assert_eq!(tokens.tokens.len(), 3);
}

#[test]
fn rule_node_is_rendered_behind_the_indentation() {
    let node = concepts_pl::parser_evalml1::nodes::BLtNode { i1: 1, i2: 2, value: true };
    assert_eq!(node.show("  "), "  1 less than 2 is true by B-Lt {}");
    let node = concepts_pl::parser_evalml1::nodes::EIntNode { i: -4 };
    assert_eq!(node.show(""), "-4 evalto -4 by E-Int {}");
    let node = concepts_pl::parser_evalml1::nodes::EBoolNode { val: false };
    assert_eq!(node.show(" "), " false evalto false by E-Bool {}");
}

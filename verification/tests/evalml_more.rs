use concepts_pl::error::Error;
use concepts_pl::parser_evalml1;
use concepts_pl::parser_evalml2;
use concepts_pl::parser_evalml3;

#[test]
fn function_is_applied_to_its_argument() {
    let judgement = "|- let sq = fun x -> x * x in sq 3 + sq 4 evalto 25";
    let expect = [
        "|- let sq = fun x -> x * x in sq 3 + sq 4 evalto 25 by E-Let {\n",
        "  |- fun x -> x * x evalto ()[fun x -> x * x] by E-Fun {};\n",
        "  sq = ()[fun x -> x * x] |- sq 3 + sq 4 evalto 25 by E-Plus {\n",
        "    sq = ()[fun x -> x * x] |- sq 3 evalto 9 by E-App {\n",
        "      sq = ()[fun x -> x * x] |- sq evalto ()[fun x -> x * x] by E-Var1 {};\n",
        "      sq = ()[fun x -> x * x] |- 3 evalto 3 by E-Int {};\n",
        "      x = 3 |- x * x evalto 9 by E-Times {\n",
        "        x = 3 |- x evalto 3 by E-Var1 {};\n",
        "        x = 3 |- x evalto 3 by E-Var1 {};\n",
        "        3 times 3 is 9 by B-Times {}\n",
        "      }\n",
        "    };\n",
        "    sq = ()[fun x -> x * x] |- sq 4 evalto 16 by E-App {\n",
        "      sq = ()[fun x -> x * x] |- sq evalto ()[fun x -> x * x] by E-Var1 {};\n",
        "      sq = ()[fun x -> x * x] |- 4 evalto 4 by E-Int {};\n",
        "      x = 4 |- x * x evalto 16 by E-Times {\n",
        "        x = 4 |- x evalto 4 by E-Var1 {};\n",
        "        x = 4 |- x evalto 4 by E-Var1 {};\n",
        "        4 times 4 is 16 by B-Times {}\n",
        "      }\n",
        "    };\n",
        "    9 plus 16 is 25 by B-Plus {}\n",
        "  }\n",
        "}\n",
    ]
    .concat();
    assert_eq!(parser_evalml3::derive(judgement), Ok(expect));
}

#[test]
fn closure_keeps_the_environment_of_its_definition() {
    let judgement = "|- let a = 3 in let f = fun y -> y * a in let a = 5 in f 4 evalto 12";
    let expect = [
        "|- let a = 3 in let f = fun y -> y * a in let a = 5 in f 4 evalto 12 by E-Let {\n",
        "  |- 3 evalto 3 by E-Int {};\n",
        "  a = 3 |- let f = fun y -> y * a in let a = 5 in f 4 evalto 12 by E-Let {\n",
        "    a = 3 |- fun y -> y * a evalto (a = 3)[fun y -> y * a] by E-Fun {};\n",
        "    a = 3, f = (a = 3)[fun y -> y * a] |- let a = 5 in f 4 evalto 12 by E-Let {\n",
        "      a = 3, f = (a = 3)[fun y -> y * a] |- 5 evalto 5 by E-Int {};\n",
        "      a = 3, f = (a = 3)[fun y -> y * a], a = 5 |- f 4 evalto 12 by E-App {\n",
        "        a = 3, f = (a = 3)[fun y -> y * a], a = 5 |- f evalto (a = 3)[fun y -> y * a] by E-Var2 {\n",
        "          a = 3, f = (a = 3)[fun y -> y * a] |- f evalto (a = 3)[fun y -> y * a] by E-Var1 {}\n",
        "        };\n",
        "        a = 3, f = (a = 3)[fun y -> y * a], a = 5 |- 4 evalto 4 by E-Int {};\n",
        "        a = 3, y = 4 |- y * a evalto 12 by E-Times {\n",
        "          a = 3, y = 4 |- y evalto 4 by E-Var1 {};\n",
        "          a = 3, y = 4 |- a evalto 3 by E-Var2 {\n",
        "            a = 3 |- a evalto 3 by E-Var1 {}\n",
        "          };\n",
        "          4 times 3 is 12 by B-Times {}\n",
        "        }\n",
        "      }\n",
        "    }\n",
        "  }\n",
        "}\n",
    ]
    .concat();
    assert_eq!(parser_evalml3::derive(judgement), Ok(expect));
}

#[test]
fn function_evaluates_to_its_closure() {
    let judgement = "x = 2 |- fun y -> x + y evalto (x = 2)[fun y -> x + y]";
    let expect = [
        "x = 2 |- fun y -> x + y evalto (x = 2)[fun y -> x + y] by E-Fun {}\n",
    ]
    .concat();
    assert_eq!(parser_evalml3::derive(judgement), Ok(expect));
}

#[test]
fn closure_can_be_passed_as_an_argument() {
    let judgement = "|- let sm = fun f -> f 3 + f 4 in sm (fun x -> x * x) evalto 25";
    let expect = [
        "|- let sm = fun f -> f 3 + f 4 in sm (fun x -> x * x) evalto 25 by E-Let {\n",
        "  |- fun f -> f 3 + f 4 evalto ()[fun f -> f 3 + f 4] by E-Fun {};\n",
        "  sm = ()[fun f -> f 3 + f 4] |- sm (fun x -> x * x) evalto 25 by E-App {\n",
        "    sm = ()[fun f -> f 3 + f 4] |- sm evalto ()[fun f -> f 3 + f 4] by E-Var1 {};\n",
        "    sm = ()[fun f -> f 3 + f 4] |- fun x -> x * x evalto (sm = ()[fun f -> f 3 + f 4])[fun x -> x * x] by E-Fun {};\n",
        "    f = (sm = ()[fun f -> f 3 + f 4])[fun x -> x * x] |- f 3 + f 4 evalto 25 by E-Plus {\n",
        "      f = (sm = ()[fun f -> f 3 + f 4])[fun x -> x * x] |- f 3 evalto 9 by E-App {\n",
        "        f = (sm = ()[fun f -> f 3 + f 4])[fun x -> x * x] |- f evalto (sm = ()[fun f -> f 3 + f 4])[fun x -> x * x] by E-Var1 {};\n",
        "        f = (sm = ()[fun f -> f 3 + f 4])[fun x -> x * x] |- 3 evalto 3 by E-Int {};\n",
        "        sm = ()[fun f -> f 3 + f 4], x = 3 |- x * x evalto 9 by E-Times {\n",
        "          sm = ()[fun f -> f 3 + f 4], x = 3 |- x evalto 3 by E-Var1 {};\n",
        "          sm = ()[fun f -> f 3 + f 4], x = 3 |- x evalto 3 by E-Var1 {};\n",
        "          3 times 3 is 9 by B-Times {}\n",
        "        }\n",
        "      };\n",
        "      f = (sm = ()[fun f -> f 3 + f 4])[fun x -> x * x] |- f 4 evalto 16 by E-App {\n",
        "        f = (sm = ()[fun f -> f 3 + f 4])[fun x -> x * x] |- f evalto (sm = ()[fun f -> f 3 + f 4])[fun x -> x * x] by E-Var1 {};\n",
        "        f = (sm = ()[fun f -> f 3 + f 4])[fun x -> x * x] |- 4 evalto 4 by E-Int {};\n",
        "        sm = ()[fun f -> f 3 + f 4], x = 4 |- x * x evalto 16 by E-Times {\n",
        "          sm = ()[fun f -> f 3 + f 4], x = 4 |- x evalto 4 by E-Var1 {};\n",
        "          sm = ()[fun f -> f 3 + f 4], x = 4 |- x evalto 4 by E-Var1 {};\n",
        "          4 times 4 is 16 by B-Times {}\n",
        "        }\n",
        "      };\n",
        "      9 plus 16 is 25 by B-Plus {}\n",
        "    }\n",
        "  }\n",
        "}\n",
    ]
    .concat();
    assert_eq!(parser_evalml3::derive(judgement), Ok(expect));
}

#[test]
fn top_binding_shadows_an_older_one() {
    let judgement = "x = 1, x = 2 |- x evalto 2";
    let expect = [
        "x = 1, x = 2 |- x evalto 2 by E-Var1 {}\n",
    ]
    .concat();
    assert_eq!(parser_evalml3::derive(judgement), Ok(expect));
}

#[test]
fn lookup_peels_one_binding_per_step() {
    let judgement = "x = 1, y = 2, z = 3 |- x evalto 1";
    let expect = [
        "x = 1, y = 2, z = 3 |- x evalto 1 by E-Var2 {\n",
        "  x = 1, y = 2 |- x evalto 1 by E-Var2 {\n",
        "    x = 1 |- x evalto 1 by E-Var1 {}\n",
        "  }\n",
        "}\n",
    ]
    .concat();
    assert_eq!(parser_evalml3::derive(judgement), Ok(expect));
}

#[test]
fn false_condition_takes_the_second_branch() {
    let judgement = "|- if 3 < 2 then 1 else 2 evalto 2";
    let expect = [
        "|- if 3 < 2 then 1 else 2 evalto 2 by E-IfF {\n",
        "  |- 3 < 2 evalto false by E-Lt {\n",
        "    |- 3 evalto 3 by E-Int {};\n",
        "    |- 2 evalto 2 by E-Int {};\n",
        "    3 less than 2 is false by B-Lt {}\n",
        "  };\n",
        "  |- 2 evalto 2 by E-Int {}\n",
        "}\n",
    ]
    .concat();
    assert_eq!(parser_evalml3::derive(judgement), Ok(expect));
}

#[test]
fn comparison_binds_loosest() {
    let judgement = "|- 1 + 2 < 2 * 3 evalto true";
    let expect = [
        "|- 1 + 2 < 2 * 3 evalto true by E-Lt {\n",
        "  |- 1 + 2 evalto 3 by E-Plus {\n",
        "    |- 1 evalto 1 by E-Int {};\n",
        "    |- 2 evalto 2 by E-Int {};\n",
        "    1 plus 2 is 3 by B-Plus {}\n",
        "  };\n",
        "  |- 2 * 3 evalto 6 by E-Times {\n",
        "    |- 2 evalto 2 by E-Int {};\n",
        "    |- 3 evalto 3 by E-Int {};\n",
        "    2 times 3 is 6 by B-Times {}\n",
        "  };\n",
        "  3 less than 6 is true by B-Lt {}\n",
        "}\n",
    ]
    .concat();
    assert_eq!(parser_evalml3::derive(judgement), Ok(expect));
}

#[test]
fn untaken_branch_with_an_unbound_variable_is_not_derived() {
    let judgement = "|- if true then 1 else z evalto 1";
    let expect = [
        "|- if true then 1 else z evalto 1 by E-IfT {\n",
        "  |- true evalto true by E-Bool {};\n",
        "  |- 1 evalto 1 by E-Int {}\n",
        "}\n",
    ]
    .concat();
    assert_eq!(parser_evalml3::derive(judgement), Ok(expect));
}

#[test]
fn parentheses_are_kept_in_the_conclusion_and_dropped_in_the_premise() {
    let judgement = "|- (1 + 2) * 3 evalto 9";
    let expect = [
        "|- (1 + 2) * 3 evalto 9 by E-Times {\n",
        "  |- 1 + 2 evalto 3 by E-Plus {\n",
        "    |- 1 evalto 1 by E-Int {};\n",
        "    |- 2 evalto 2 by E-Int {};\n",
        "    1 plus 2 is 3 by B-Plus {}\n",
        "  };\n",
        "  |- 3 evalto 3 by E-Int {};\n",
        "  3 times 3 is 9 by B-Times {}\n",
        "}\n",
    ]
    .concat();
    assert_eq!(parser_evalml3::derive(judgement), Ok(expect));
}

#[test]
fn let_in_the_bound_expression() {
    let judgement = "|- let x = let y = 3 - 2 in y * y in let y = 4 in x + y evalto 5";
    let expect = [
        "|- let x = let y = 3 - 2 in y * y in let y = 4 in x + y evalto 5 by E-Let {\n",
        "  |- let y = 3 - 2 in y * y evalto 1 by E-Let {\n",
        "    |- 3 - 2 evalto 1 by E-Minus {\n",
        "      |- 3 evalto 3 by E-Int {};\n",
        "      |- 2 evalto 2 by E-Int {};\n",
        "      3 minus 2 is 1 by B-Minus {}\n",
        "    };\n",
        "    y = 1 |- y * y evalto 1 by E-Times {\n",
        "      y = 1 |- y evalto 1 by E-Var1 {};\n",
        "      y = 1 |- y evalto 1 by E-Var1 {};\n",
        "      1 times 1 is 1 by B-Times {}\n",
        "    }\n",
        "  };\n",
        "  x = 1 |- let y = 4 in x + y evalto 5 by E-Let {\n",
        "    x = 1 |- 4 evalto 4 by E-Int {};\n",
        "    x = 1, y = 4 |- x + y evalto 5 by E-Plus {\n",
        "      x = 1, y = 4 |- x evalto 1 by E-Var2 {\n",
        "        x = 1 |- x evalto 1 by E-Var1 {}\n",
        "      };\n",
        "      x = 1, y = 4 |- y evalto 4 by E-Var1 {};\n",
        "      1 plus 4 is 5 by B-Plus {}\n",
        "    }\n",
        "  }\n",
        "}\n",
    ]
    .concat();
    assert_eq!(parser_evalml3::derive(judgement), Ok(expect));
}

#[test]
fn untaken_ill_typed_branch_is_not_derived() {
    let judgement = "if 4 < 5 then 1 else 1 + true evalto 1";
    let expect = [
        "if 4 < 5 then 1 else 1 + true evalto 1 by E-IfT {\n",
        "  4 < 5 evalto true by E-Lt {\n",
        "    4 evalto 4 by E-Int {};\n",
        "    5 evalto 5 by E-Int {};\n",
        "    4 less than 5 is true by B-Lt {}\n",
        "  };\n",
        "  1 evalto 1 by E-Int {}\n",
        "}\n",
    ]
    .concat();
    assert_eq!(parser_evalml1::derive(judgement), Ok(expect));
}

#[test]
fn boolean_left_operand_of_a_sum() {
    let judgement = "true + 1 evalto error";
    let expect = [
        "true + 1 evalto error by E-PlusBoolL {\n",
        "  true evalto true by E-Bool {}\n",
        "}\n",
    ]
    .concat();
    assert_eq!(parser_evalml1::derive(judgement), Ok(expect));
}

#[test]
fn erroneous_right_operand_of_a_difference() {
    let judgement = "1 - (2 + true) evalto error";
    let expect = [
        "1 - (2 + true) evalto error by E-MinusErrorR {\n",
        "  2 + true evalto error by E-PlusBoolR {\n",
        "    true evalto true by E-Bool {}\n",
        "  }\n",
        "}\n",
    ]
    .concat();
    assert_eq!(parser_evalml1::derive(judgement), Ok(expect));
}

#[test]
fn boolean_left_operand_of_a_product() {
    let judgement = "false * 2 evalto error";
    let expect = [
        "false * 2 evalto error by E-TimesBoolL {\n",
        "  false evalto false by E-Bool {}\n",
        "}\n",
    ]
    .concat();
    assert_eq!(parser_evalml1::derive(judgement), Ok(expect));
}

#[test]
fn erroneous_left_operand_of_a_comparison() {
    let judgement = "(1 < true) < 2 evalto error";
    let expect = [
        "(1 < true) < 2 evalto error by E-LtErrorL {\n",
        "  1 < true evalto error by E-LtBoolR {\n",
        "    true evalto true by E-Bool {}\n",
        "  }\n",
        "}\n",
    ]
    .concat();
    assert_eq!(parser_evalml1::derive(judgement), Ok(expect));
}

#[test]
fn left_operand_is_named_when_both_are_ill_typed() {
    let judgement = "true + false evalto error";
    let expect = [
        "true + false evalto error by E-PlusBoolL {\n",
        "  true evalto true by E-Bool {}\n",
        "}\n",
    ]
    .concat();
    assert_eq!(parser_evalml1::derive(judgement), Ok(expect));
}

#[test]
fn erroneous_condition() {
    let judgement = "if 1 + true then 1 else 2 evalto error";
    let expect = [
        "if 1 + true then 1 else 2 evalto error by E-IfError {\n",
        "  1 + true evalto error by E-PlusBoolR {\n",
        "    true evalto true by E-Bool {}\n",
        "  }\n",
        "}\n",
    ]
    .concat();
    assert_eq!(parser_evalml1::derive(judgement), Ok(expect));
}

#[test]
fn erroneous_second_branch() {
    let judgement = "if 4 < 3 then 1 else 2 * false evalto error";
    let expect = [
        "if 4 < 3 then 1 else 2 * false evalto error by E-IfFError {\n",
        "  4 < 3 evalto false by E-Lt {\n",
        "    4 evalto 4 by E-Int {};\n",
        "    3 evalto 3 by E-Int {};\n",
        "    4 less than 3 is false by B-Lt {}\n",
        "  };\n",
        "  2 * false evalto error by E-TimesBoolR {\n",
        "    false evalto false by E-Bool {}\n",
        "  }\n",
        "}\n",
    ]
    .concat();
    assert_eq!(parser_evalml1::derive(judgement), Ok(expect));
}

#[test]
fn boolean_literal() {
    let judgement = "true evalto true";
    let expect = [
        "true evalto true by E-Bool {}\n",
    ]
    .concat();
    assert_eq!(parser_evalml1::derive(judgement), Ok(expect));
}

#[test]
fn negative_literal() {
    let judgement = "-7 evalto -7";
    let expect = [
        "-7 evalto -7 by E-Int {}\n",
    ]
    .concat();
    assert_eq!(parser_evalml1::derive(judgement), Ok(expect));
}

#[test]
fn product_binds_tighter_than_sum() {
    let judgement = "1 + 2 * 3 evalto 7";
    let expect = [
        "1 + 2 * 3 evalto 7 by E-Plus {\n",
        "  1 evalto 1 by E-Int {};\n",
        "  2 * 3 evalto 6 by E-Times {\n",
        "    2 evalto 2 by E-Int {};\n",
        "    3 evalto 3 by E-Int {};\n",
        "    2 times 3 is 6 by B-Times {}\n",
        "  };\n",
        "  1 plus 6 is 7 by B-Plus {}\n",
        "}\n",
    ]
    .concat();
    assert_eq!(parser_evalml1::derive(judgement), Ok(expect));
}

#[test]
fn zero_is_a_literal() {
    let judgement = "0 + 0 evalto 0";
    let expect = [
        "0 + 0 evalto 0 by E-Plus {\n",
        "  0 evalto 0 by E-Int {};\n",
        "  0 evalto 0 by E-Int {};\n",
        "  0 plus 0 is 0 by B-Plus {}\n",
        "}\n",
    ]
    .concat();
    assert_eq!(parser_evalml1::derive(judgement), Ok(expect));
}

#[test]
fn conditional_on_a_variable() {
    let judgement = "x = false |- if x then 1 else 2 evalto 2";
    let expect = [
        "x = false |- if x then 1 else 2 evalto 2 by E-IfF {\n",
        "  x = false |- x evalto false by E-Var1 {};\n",
        "  x = false |- 2 evalto 2 by E-Int {}\n",
        "}\n",
    ]
    .concat();
    assert_eq!(parser_evalml2::derive(judgement), Ok(expect));
}

#[test]
fn unbound_variable_is_undeclared() {
    assert_eq!(parser_evalml3::derive("x = 1 |- z evalto 1"), Err(Error::Undeclared));
    assert_eq!(parser_evalml2::derive("|- z + 1 evalto 1"), Err(Error::Undeclared));
}

#[test]
fn unbound_function_is_undeclared() {
    assert_eq!(parser_evalml3::derive("|- f 1 evalto 1"), Err(Error::Undeclared));
}

#[test]
fn ill_typed_expression_with_environment_has_no_rule() {
    assert_eq!(parser_evalml3::derive("|- 1 + true evalto 2"), Err(Error::NoRule));
    assert_eq!(parser_evalml3::derive("|- if 1 then 2 else 3 evalto 2"), Err(Error::NoRule));
    assert_eq!(parser_evalml3::derive("x = 1 |- x 2 evalto 2"), Err(Error::NoRule));
}

#[test]
fn result_outside_the_machine_integers_is_an_overflow() {
    assert_eq!(parser_evalml1::derive("2147483647 + 1 evalto 0"), Err(Error::Overflow));
    assert_eq!(parser_evalml1::derive("-2147483647 - 2 evalto 0"), Err(Error::Overflow));
    assert_eq!(parser_evalml1::derive("65536 * 65536 evalto 0"), Err(Error::Overflow));
    assert_eq!(parser_evalml3::derive("|- 2147483647 + 1 evalto 0"), Err(Error::Overflow));
}

#[test]
fn literal_outside_the_machine_integers_is_an_overflow() {
    assert_eq!(parser_evalml1::derive("2147483648 evalto 0"), Err(Error::Overflow));
    assert_eq!(parser_evalml1::derive("-2147483649 evalto 0"), Err(Error::Overflow));
}

#[test]
fn extreme_literals_are_read_and_written() {
    assert_eq!(
        parser_evalml1::derive("-2147483648 evalto -2147483648"),
        Ok("-2147483648 evalto -2147483648 by E-Int {}\n".to_string())
    );
    assert_eq!(
        parser_evalml1::derive("2147483647 evalto 2147483647"),
        Ok("2147483647 evalto 2147483647 by E-Int {}\n".to_string())
    );
}

#[test]
fn endless_application_is_too_deep() {
    let judgement = "|- let y = fun x -> let f = x in f x in let f = y in f y evalto 1";
    assert_eq!(parser_evalml3::derive(judgement), Err(Error::TooDeep));
}

#[test]
fn nesting_bound_counts_applications() {
    let lexer = parser_evalml3::lexer::Lexer::new().expect("expects the token patterns");
    let judgement = "|- let f = fun x -> x + 1 in let sq = fun y -> f y in sq 1 evalto 2";
    let tokens = lexer.lex(judgement).expect("expects tokens");
    assert_eq!(parser_evalml3::derive_tokens(tokens, 1), Err(Error::TooDeep));
    let tokens = lexer.lex(judgement).expect("expects tokens");
    assert!(parser_evalml3::derive_tokens(tokens, 2).is_ok());
}

#[test]
fn function_is_not_of_the_family_without_functions() {
    assert_eq!(parser_evalml2::derive("|- fun x -> x evalto 1"), Err(Error::Syntax));
    assert_eq!(
        parser_evalml2::derive("|- let f = fun x -> x in f 1 evalto 1"),
        Err(Error::Syntax)
    );
}

#[test]
fn variable_is_not_of_the_family_without_environment() {
    assert_eq!(parser_evalml1::derive("x + 1 evalto 1"), Err(Error::NoRule));
}

#[test]
fn malformed_ml_judgement_is_a_syntax_error() {
    assert_eq!(parser_evalml1::derive("3 + evalto 3"), Err(Error::Syntax));
    assert_eq!(parser_evalml1::derive("3 + 5"), Err(Error::Syntax));
    assert_eq!(parser_evalml1::derive("(3 + 5 evalto 8"), Err(Error::Syntax));
    assert_eq!(parser_evalml1::derive("if 1 then 2 evalto 2"), Err(Error::Syntax));
    assert_eq!(parser_evalml1::derive(""), Err(Error::Syntax));
    assert_eq!(parser_evalml3::derive("1 evalto 1"), Err(Error::Syntax));
    assert_eq!(parser_evalml3::derive("x = |- x evalto 1"), Err(Error::Syntax));
    assert_eq!(parser_evalml3::derive("|- let x 1 in x evalto 1"), Err(Error::Syntax));
    assert_eq!(parser_evalml3::derive("|- fun -> 1 evalto 1"), Err(Error::Syntax));
}

#[test]
fn ml_text_that_is_no_token_is_unknown() {
    assert_eq!(parser_evalml1::derive("3 + 5 evalto 8 ?"), Err(Error::UnknownText));
    assert_eq!(parser_evalml1::derive("3 # 5 evalto 8"), Err(Error::UnknownText));
    assert_eq!(parser_evalml1::derive("3 + 5 \u{e9}valto 8"), Err(Error::UnknownText));
    assert_eq!(parser_evalml3::derive("|- X evalto 1"), Err(Error::UnknownText));
}

#[test]
fn claimed_result_is_not_checked() {
    assert_eq!(
        parser_evalml1::derive("3 + 5 evalto 9"),
        parser_evalml1::derive("3 + 5 evalto 8")
    );
    assert_eq!(
        parser_evalml1::derive("1 + true evalto 2"),
        parser_evalml1::derive("1 + true evalto error")
    );
}

#[test]
fn blanks_between_tokens_do_not_matter() {
    assert_eq!(
        parser_evalml1::derive("3+5   evalto\t8\n"),
        parser_evalml1::derive("3 + 5 evalto 8")
    );
}

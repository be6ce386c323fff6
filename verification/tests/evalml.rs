fn run_test1(judgement: &str, expect: &str) {
    let actual = concepts_pl::parser_evalml1::derive(judgement).expect("expects a derivation");
    println!("{:?}", actual);
    assert_eq!(actual, expect);
}

fn run_test2(judgement: &str, expect: &str) {
    let actual = concepts_pl::parser_evalml2::derive(judgement).expect("expects a derivation");
    println!("{:?}", actual);
    assert_eq!(actual, expect);
}

#[test]
fn test_question025() {
    let judgement = "3 + 5 evalto 8";
    let expect = [
        "3 + 5 evalto 8 by E-Plus {\n",
        "  3 evalto 3 by E-Int {};\n",
        "  5 evalto 5 by E-Int {};\n",
        "  3 plus 5 is 8 by B-Plus {}\n",
        "}\n",
    ]
    .concat();
    run_test1(judgement, &expect);
}

#[test]
fn test_question026() {
    let judgement = "8 - 2 - 3 evalto 3";
    let expect = [
        "8 - 2 - 3 evalto 3 by E-Minus {\n",
        "  8 - 2 evalto 6 by E-Minus {\n",
        "    8 evalto 8 by E-Int {};\n",
        "    2 evalto 2 by E-Int {};\n",
        "    8 minus 2 is 6 by B-Minus {}\n",
        "  };\n",
        "  3 evalto 3 by E-Int {};\n",
        "  6 minus 3 is 3 by B-Minus {}\n",
        "}\n",
    ]
    .concat();
    run_test1(judgement, &expect);
}

#[test]
fn test_question027() {
    let judgement = "(4 + 5) * (1 - 10) evalto -81";
    let expect = [
        "(4 + 5) * (1 - 10) evalto -81 by E-Times {\n",
        "  4 + 5 evalto 9 by E-Plus {\n",
        "    4 evalto 4 by E-Int {};\n",
        "    5 evalto 5 by E-Int {};\n",
        "    4 plus 5 is 9 by B-Plus {}\n",
        "  };\n",
        "  1 - 10 evalto -9 by E-Minus {\n",
        "    1 evalto 1 by E-Int {};\n",
        "    10 evalto 10 by E-Int {};\n",
        "    1 minus 10 is -9 by B-Minus {}\n",
        "  };\n",
        "  9 times -9 is -81 by B-Times {}\n",
        "}\n",
    ]
    .concat();
    run_test1(judgement, &expect);
}

#[test]
fn test_question028() {
    let judgement = "if 4 < 5 then 2 + 3 else 8 * 8 evalto 5";
    let expect = [
        "if 4 < 5 then 2 + 3 else 8 * 8 evalto 5 by E-IfT {\n",
        "  4 < 5 evalto true by E-Lt {\n",
        "    4 evalto 4 by E-Int {};\n",
        "    5 evalto 5 by E-Int {};\n",
        "    4 less than 5 is true by B-Lt {}\n",
        "  };\n",
        "  2 + 3 evalto 5 by E-Plus {\n",
        "    2 evalto 2 by E-Int {};\n",
        "    3 evalto 3 by E-Int {};\n",
        "    2 plus 3 is 5 by B-Plus {}\n",
        "  }\n",
        "}\n",
    ]
    .concat();
    run_test1(judgement, &expect);
}

#[test]
fn test_question029() {
    let judgement = "3 + if -23 < -2 * 8 then 8 else 2 + 4 evalto 11";
    let expect = [
        "3 + if -23 < -2 * 8 then 8 else 2 + 4 evalto 11 by E-Plus {\n",
        "  3 evalto 3 by E-Int {};\n",
        "  if -23 < -2 * 8 then 8 else 2 + 4 evalto 8 by E-IfT {\n",
        "    -23 < -2 * 8 evalto true by E-Lt {\n",
        "      -23 evalto -23 by E-Int {};\n",
        "      -2 * 8 evalto -16 by E-Times {\n",
        "        -2 evalto -2 by E-Int {};\n",
        "        8 evalto 8 by E-Int {};\n",
        "        -2 times 8 is -16 by B-Times {}\n",
        "      };\n",
        "      -23 less than -16 is true by B-Lt {}\n",
        "    };\n",
        "    8 evalto 8 by E-Int {}\n",
        "  };\n",
        "  3 plus 8 is 11 by B-Plus {}\n",
        "}\n",
    ]
    .concat();
    run_test1(judgement, &expect);
}

#[test]
fn test_question030() {
    let judgement = "3 + (if -23 < -2 * 8 then 8 else 2) + 4 evalto 15";
    let expect = [
        "3 + (if -23 < -2 * 8 then 8 else 2) + 4 evalto 15 by E-Plus {\n",
        "  3 + (if -23 < -2 * 8 then 8 else 2) evalto 11 by E-Plus {\n",
        "    3 evalto 3 by E-Int {};\n",
        "    if -23 < -2 * 8 then 8 else 2 evalto 8 by E-IfT {\n",
        "      -23 < -2 * 8 evalto true by E-Lt {\n",
        "        -23 evalto -23 by E-Int {};\n",
        "        -2 * 8 evalto -16 by E-Times {\n",
        "          -2 evalto -2 by E-Int {};\n",
        "          8 evalto 8 by E-Int {};\n",
        "          -2 times 8 is -16 by B-Times {}\n",
        "        };\n",
        "        -23 less than -16 is true by B-Lt {}\n",
        "      };\n",
        "      8 evalto 8 by E-Int {}\n",
        "    };\n",
        "    3 plus 8 is 11 by B-Plus {}\n",
        "  };\n",
        "  4 evalto 4 by E-Int {};\n",
        "  11 plus 4 is 15 by B-Plus {}\n",
        "}\n",
    ]
    .concat();
    run_test1(judgement, &expect);
}

#[test]
fn test_question031() {
    let judgement = "1 + true + 2 evalto error";
    let expect = [
        "1 + true + 2 evalto error by E-PlusErrorL {\n",
        "  1 + true evalto error by E-PlusBoolR {\n",
        "    true evalto true by E-Bool {}\n",
        "  }\n",
        "}\n",
    ]
    .concat();
    run_test1(judgement, &expect);
}

#[test]
fn test_question032() {
    let judgement = "if 2 + 3 then 1 else 3 evalto error";
    let expect = [
        "if 2 + 3 then 1 else 3 evalto error by E-IfInt {\n",
        "  2 + 3 evalto 5 by E-Plus {\n",
        "    2 evalto 2 by E-Int {};\n",
        "    3 evalto 3 by E-Int {};\n",
        "    2 plus 3 is 5 by B-Plus {}\n",
        "  }\n",
        "}\n",
    ]
    .concat();
    run_test1(judgement, &expect);
}

#[test]
fn test_question033() {
    let judgement = "if 3 < 4 then 1 < true else 3 - false evalto error";
    let expect = [
        "if 3 < 4 then 1 < true else 3 - false evalto error by E-IfTError {\n",
        "  3 < 4 evalto true by E-Lt {\n",
        "    3 evalto 3 by E-Int {};\n",
        "    4 evalto 4 by E-Int {};\n",
        "    3 less than 4 is true by B-Lt {}\n",
        "  };\n",
        "  1 < true evalto error by E-LtBoolR {\n",
        "    true evalto true by E-Bool {}\n",
        "  }\n",
        "}\n",
    ]
    .concat();
    run_test1(judgement, &expect);
}

#[test]
fn test_question034() {
    let judgement = "x = 3, y = 2 |- x evalto 3";
    let expect = [
        "x = 3, y = 2 |- x evalto 3 by E-Var2 {\n",
        "  x = 3 |- x evalto 3 by E-Var1 {}\n",
        "}\n",
    ]
    .concat();
    run_test2(judgement, &expect);
}

#[test]
fn test_question035() {
    let judgement = "x = true, y = 4 |- if x then y + 1 else y - 1 evalto 5";
    let expect = [
        "x = true, y = 4 |- if x then y + 1 else y - 1 evalto 5 by E-IfT {\n",
        "  x = true, y = 4 |- x evalto true by E-Var2 {\n",
        "    x = true |- x evalto true by E-Var1 {}\n",
        "  };\n",
        "  x = true, y = 4 |- y + 1 evalto 5 by E-Plus {\n",
        "    x = true, y = 4 |- y evalto 4 by E-Var1 {};\n",
        "    x = true, y = 4 |- 1 evalto 1 by E-Int {};\n",
        "    4 plus 1 is 5 by B-Plus {}\n",
        "  }\n",
        "}\n",
    ]
    .concat();
    run_test2(judgement, &expect);
}

#[test]
fn test_question036() {
    let judgement = "|- let x = 1 + 2 in x * 4 evalto 12";
    let expect = [
        "|- let x = 1 + 2 in x * 4 evalto 12 by E-Let {\n",
        "  |- 1 + 2 evalto 3 by E-Plus {\n",
        "    |- 1 evalto 1 by E-Int {};\n",
        "    |- 2 evalto 2 by E-Int {};\n",
        "    1 plus 2 is 3 by B-Plus {}\n",
        "  };\n",
        "  x = 3 |- x * 4 evalto 12 by E-Times {\n",
        "    x = 3 |- x evalto 3 by E-Var1 {};\n",
        "    x = 3 |- 4 evalto 4 by E-Int {};\n",
        "    3 times 4 is 12 by B-Times {}\n",
        "  }\n",
        "}\n",
    ]
    .concat();
    run_test2(judgement, &expect);
}

#[test]
fn test_question037() {
    let judgement = "|- let x = 3 * 3 in let y = 4 * x in x + y evalto 45";
    let expect = [
        "|- let x = 3 * 3 in let y = 4 * x in x + y evalto 45 by E-Let {\n",
        "  |- 3 * 3 evalto 9 by E-Times {\n",
        "    |- 3 evalto 3 by E-Int {};\n",
        "    |- 3 evalto 3 by E-Int {};\n",
        "    3 times 3 is 9 by B-Times {}\n",
        "  };\n",
        "  x = 9 |- let y = 4 * x in x + y evalto 45 by E-Let {\n",
        "    x = 9 |- 4 * x evalto 36 by E-Times {\n",
        "      x = 9 |- 4 evalto 4 by E-Int {};\n",
        "      x = 9 |- x evalto 9 by E-Var1 {};\n",
        "      4 times 9 is 36 by B-Times {}\n",
        "    };\n",
        "    x = 9, y = 36 |- x + y evalto 45 by E-Plus {\n",
        "      x = 9, y = 36 |- x evalto 9 by E-Var2 {\n",
        "        x = 9 |- x evalto 9 by E-Var1 {}\n",
        "      };\n",
        "      x = 9, y = 36 |- y evalto 36 by E-Var1 {};\n",
        "      9 plus 36 is 45 by B-Plus {}\n",
        "    }\n",
        "  }\n",
        "}\n",
    ]
    .concat();
    run_test2(judgement, &expect);
}

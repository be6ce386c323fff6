use concepts_pl::chapter1::DerivationRules;

fn run_test(judgement: &str, derivation_rules: DerivationRules, expect: &str) {
    let actual = concepts_pl::chapter1::derive(judgement, derivation_rules)
        .expect("expects a derivation");
    println!("{:?}", actual);
    assert_eq!(actual, expect);
}

#[test]
fn test_question001() {
    let judgement = "Z plus Z is Z";
    let expect = [
        "Z plus Z is Z by P-Zero {}\n",
    ]
    .concat();
    run_test(judgement, DerivationRules::Nat, &expect);
}

#[test]
fn test_question002() {
    let judgement = "Z plus S(S(Z)) is S(S(Z))";
    let expect = [
        "Z plus S(S(Z)) is S(S(Z)) by P-Zero {}\n",
    ]
    .concat();
    run_test(judgement, DerivationRules::Nat, &expect);
}

#[test]
fn test_question003() {
    let judgement = "S(S(Z)) plus Z is S(S(Z))";
    let expect = [
        "S(S(Z)) plus Z is S(S(Z)) by P-Succ {\n",
        "  S(Z) plus Z is S(Z) by P-Succ {\n",
        "    Z plus Z is Z by P-Zero {}\n",
        "  }\n",
        "}\n",
    ]
    .concat();
    run_test(judgement, DerivationRules::Nat, &expect);
}

#[test]
fn test_question004() {
    let judgement = "S(Z) plus S(S(S(Z))) is S(S(S(S(Z))))";
    let expect = [
        "S(Z) plus S(S(S(Z))) is S(S(S(S(Z)))) by P-Succ {\n",
        "  Z plus S(S(S(Z))) is S(S(S(Z))) by P-Zero {}\n",
        "}\n",
    ]
    .concat();
    run_test(judgement, DerivationRules::Nat, &expect);
}

#[test]
fn test_question005() {
    let judgement = "Z times S(S(Z)) is Z";
    let expect = [
        "Z times S(S(Z)) is Z by T-Zero {}\n",
    ]
    .concat();
    run_test(judgement, DerivationRules::Nat, &expect);
}

#[test]
fn test_question006() {
    let judgement = "S(S(Z)) times Z is Z";
    let expect = [
        "S(S(Z)) times Z is Z by T-Succ {\n",
        "  S(Z) times Z is Z by T-Succ {\n",
        "    Z times Z is Z by T-Zero {};\n",
        "    Z plus Z is Z by P-Zero {}\n",
        "  };\n",
        "  Z plus Z is Z by P-Zero {}\n",
        "}\n",
    ]
    .concat();
    run_test(judgement, DerivationRules::Nat, &expect);
}

#[test]
fn test_question007() {
    let judgement = "S(S(Z)) times S(Z) is S(S(Z))";
    let expect = [
        "S(S(Z)) times S(Z) is S(S(Z)) by T-Succ {\n",
        "  S(Z) times S(Z) is S(Z) by T-Succ {\n",
        "    Z times S(Z) is Z by T-Zero {};\n",
        "    S(Z) plus Z is S(Z) by P-Succ {\n",
        "      Z plus Z is Z by P-Zero {}\n",
        "    }\n",
        "  };\n",
        "  S(Z) plus S(Z) is S(S(Z)) by P-Succ {\n",
        "    Z plus S(Z) is S(Z) by P-Zero {}\n",
        "  }\n",
        "}\n",
    ]
    .concat();
    run_test(judgement, DerivationRules::Nat, &expect);
}

#[test]
fn test_question008() {
    let judgement = "S(S(Z)) times S(S(Z)) is S(S(S(S(Z))))";
    let expect = [
        "S(S(Z)) times S(S(Z)) is S(S(S(S(Z)))) by T-Succ {\n",
        "  S(Z) times S(S(Z)) is S(S(Z)) by T-Succ {\n",
        "    Z times S(S(Z)) is Z by T-Zero {};\n",
        "    S(S(Z)) plus Z is S(S(Z)) by P-Succ {\n",
        "      S(Z) plus Z is S(Z) by P-Succ {\n",
        "        Z plus Z is Z by P-Zero {}\n",
        "      }\n",
        "    }\n",
        "  };\n",
        "  S(S(Z)) plus S(S(Z)) is S(S(S(S(Z)))) by P-Succ {\n",
        "    S(Z) plus S(S(Z)) is S(S(S(Z))) by P-Succ {\n",
        "      Z plus S(S(Z)) is S(S(Z)) by P-Zero {}\n",
        "    }\n",
        "  }\n",
        "}\n",
    ]
    .concat();
    run_test(judgement, DerivationRules::Nat, &expect);
}

#[test]
fn test_question009() {
    let judgement = "S(S(Z)) is less than S(S(S(Z)))";
    let expect = [
        "S(S(Z)) is less than S(S(S(Z))) by L-Succ {}\n",
    ]
    .concat();
    run_test(judgement, DerivationRules::CompNat1, &expect);
}

#[test]
fn test_question010() {
    let judgement = "S(S(Z)) is less than S(S(S(Z)))";
    let expect = [
        "S(S(Z)) is less than S(S(S(Z))) by L-SuccSucc {\n",
        "  S(Z) is less than S(S(Z)) by L-SuccSucc {\n",
        "    Z is less than S(Z) by L-Zero {}\n",
        "  }\n",
        "}\n",
    ]
    .concat();
    run_test(judgement, DerivationRules::CompNat2, &expect);
}

#[test]
fn test_question011() {
    let judgement = "S(S(Z)) is less than S(S(S(Z)))";
    let expect = [
        "S(S(Z)) is less than S(S(S(Z))) by L-Succ {}\n",
    ]
    .concat();
    run_test(judgement, DerivationRules::CompNat3, &expect);
}

#[test]
fn test_question012() {
    let judgement = "S(S(Z)) is less than S(S(S(S(S(Z)))))";
    let expect = [
        "S(S(Z)) is less than S(S(S(S(S(Z))))) by L-Trans {\n",
        "  S(S(Z)) is less than S(S(S(S(Z)))) by L-Trans {\n",
        "    S(S(Z)) is less than S(S(S(Z))) by L-Succ {};\n",
        "    S(S(S(Z))) is less than S(S(S(S(Z)))) by L-Succ {}\n",
        "  };\n",
        "  S(S(S(S(Z)))) is less than S(S(S(S(S(Z))))) by L-Succ {}\n",
        "}\n",
    ]
    .concat();
    run_test(judgement, DerivationRules::CompNat1, &expect);
}

#[test]
fn test_question013() {
    let judgement = "S(S(Z)) is less than S(S(S(S(S(Z)))))";
    let expect = [
        "S(S(Z)) is less than S(S(S(S(S(Z))))) by L-SuccSucc {\n",
        "  S(Z) is less than S(S(S(S(Z)))) by L-SuccSucc {\n",
        "    Z is less than S(S(S(Z))) by L-Zero {}\n",
        "  }\n",
        "}\n",
    ]
    .concat();
    run_test(judgement, DerivationRules::CompNat2, &expect);
}

#[test]
fn test_question014() {
    let judgement = "S(S(Z)) is less than S(S(S(S(S(Z)))))";
    let expect = [
        "S(S(Z)) is less than S(S(S(S(S(Z))))) by L-SuccR {\n",
        "  S(S(Z)) is less than S(S(S(S(Z)))) by L-SuccR {\n",
        "    S(S(Z)) is less than S(S(S(Z))) by L-Succ {}\n",
        "  }\n",
        "}\n",
    ]
    .concat();
    run_test(judgement, DerivationRules::CompNat3, &expect);
}

#[test]
fn test_question015() {
    let judgement = "Z + S(S(Z)) evalto S(S(Z))";
    let expect = [
        "Z + S(S(Z)) evalto S(S(Z)) by E-Plus {\n",
        "  Z evalto Z by E-Const {};\n",
        "  S(S(Z)) evalto S(S(Z)) by E-Const {};\n",
        "  Z plus S(S(Z)) is S(S(Z)) by P-Zero {}\n",
        "}\n",
    ]
    .concat();
    run_test(judgement, DerivationRules::EvalNatExp, &expect);
}

#[test]
fn test_question016() {
    let judgement = "S(S(Z)) + Z evalto S(S(Z))";
    let expect = [
        "S(S(Z)) + Z evalto S(S(Z)) by E-Plus {\n",
        "  S(S(Z)) evalto S(S(Z)) by E-Const {};\n",
        "  Z evalto Z by E-Const {};\n",
        "  S(S(Z)) plus Z is S(S(Z)) by P-Succ {\n",
        "    S(Z) plus Z is S(Z) by P-Succ {\n",
        "      Z plus Z is Z by P-Zero {}\n",
        "    }\n",
        "  }\n",
        "}\n",
    ]
    .concat();
    run_test(judgement, DerivationRules::EvalNatExp, &expect);
}

#[test]
fn test_question017() {
    let judgement = "S(Z) + S(Z) + S(Z) evalto S(S(S(Z)))";
    let expect = [
        "S(Z) + S(Z) + S(Z) evalto S(S(S(Z))) by E-Plus {\n",
        "  S(Z) + S(Z) evalto S(S(Z)) by E-Plus {\n",
        "    S(Z) evalto S(Z) by E-Const {};\n",
        "    S(Z) evalto S(Z) by E-Const {};\n",
        "    S(Z) plus S(Z) is S(S(Z)) by P-Succ {\n",
        "      Z plus S(Z) is S(Z) by P-Zero {}\n",
        "    }\n",
        "  };\n",
        "  S(Z) evalto S(Z) by E-Const {};\n",
        "  S(S(Z)) plus S(Z) is S(S(S(Z))) by P-Succ {\n",
        "    S(Z) plus S(Z) is S(S(Z)) by P-Succ {\n",
        "      Z plus S(Z) is S(Z) by P-Zero {}\n",
        "    }\n",
        "  }\n",
        "}\n",
    ]
    .concat();
    run_test(judgement, DerivationRules::EvalNatExp, &expect);
}

#[test]
fn test_question018() {
    let judgement = "S(S(S(Z))) + S(S(Z)) * S(Z) evalto S(S(S(S(S(Z)))))";
    let expect = [
        "S(S(S(Z))) + S(S(Z)) * S(Z) evalto S(S(S(S(S(Z))))) by E-Plus {\n",
        "  S(S(S(Z))) evalto S(S(S(Z))) by E-Const {};\n",
        "  S(S(Z)) * S(Z) evalto S(S(Z)) by E-Times {\n",
        "    S(S(Z)) evalto S(S(Z)) by E-Const {};\n",
        "    S(Z) evalto S(Z) by E-Const {};\n",
        "    S(S(Z)) times S(Z) is S(S(Z)) by T-Succ {\n",
        "      S(Z) times S(Z) is S(Z) by T-Succ {\n",
        "        Z times S(Z) is Z by T-Zero {};\n",
        "        S(Z) plus Z is S(Z) by P-Succ {\n",
        "          Z plus Z is Z by P-Zero {}\n",
        "        }\n",
        "      };\n",
        "      S(Z) plus S(Z) is S(S(Z)) by P-Succ {\n",
        "        Z plus S(Z) is S(Z) by P-Zero {}\n",
        "      }\n",
        "    }\n",
        "  };\n",
        "  S(S(S(Z))) plus S(S(Z)) is S(S(S(S(S(Z))))) by P-Succ {\n",
        "    S(S(Z)) plus S(S(Z)) is S(S(S(S(Z)))) by P-Succ {\n",
        "      S(Z) plus S(S(Z)) is S(S(S(Z))) by P-Succ {\n",
        "        Z plus S(S(Z)) is S(S(Z)) by P-Zero {}\n",
        "      }\n",
        "    }\n",
        "  }\n",
        "}\n",
    ]
    .concat();
    run_test(judgement, DerivationRules::EvalNatExp, &expect);
}

#[test]
fn test_question019() {
    let judgement = "(S(S(Z)) + S(S(Z))) * Z evalto Z";
    let expect = [
        "(S(S(Z)) + S(S(Z))) * Z evalto Z by E-Times {\n",
        "  S(S(Z)) + S(S(Z)) evalto S(S(S(S(Z)))) by E-Plus {\n",
        "    S(S(Z)) evalto S(S(Z)) by E-Const {};\n",
        "    S(S(Z)) evalto S(S(Z)) by E-Const {};\n",
        "    S(S(Z)) plus S(S(Z)) is S(S(S(S(Z)))) by P-Succ {\n",
        "      S(Z) plus S(S(Z)) is S(S(S(Z))) by P-Succ {\n",
        "        Z plus S(S(Z)) is S(S(Z)) by P-Zero {}\n",
        "      }\n",
        "    }\n",
        "  };\n",
        "  Z evalto Z by E-Const {};\n",
        "  S(S(S(S(Z)))) times Z is Z by T-Succ {\n",
        "    S(S(S(Z))) times Z is Z by T-Succ {\n",
        "      S(S(Z)) times Z is Z by T-Succ {\n",
        "        S(Z) times Z is Z by T-Succ {\n",
        "          Z times Z is Z by T-Zero {};\n",
        "          Z plus Z is Z by P-Zero {}\n",
        "        };\n",
        "        Z plus Z is Z by P-Zero {}\n",
        "      };\n",
        "      Z plus Z is Z by P-Zero {}\n",
        "    };\n",
        "    Z plus Z is Z by P-Zero {}\n",
        "  }\n",
        "}\n",
    ]
    .concat();
    run_test(judgement, DerivationRules::EvalNatExp, &expect);
}

#[test]
fn test_question020() {
    let judgement = "Z * (S(S(Z)) + S(S(Z))) evalto Z";
    let expect = [
        "Z * (S(S(Z)) + S(S(Z))) evalto Z by E-Times {\n",
        "  Z evalto Z by E-Const {};\n",
        "  S(S(Z)) + S(S(Z)) evalto S(S(S(S(Z)))) by E-Plus {\n",
        "    S(S(Z)) evalto S(S(Z)) by E-Const {};\n",
        "    S(S(Z)) evalto S(S(Z)) by E-Const {};\n",
        "    S(S(Z)) plus S(S(Z)) is S(S(S(S(Z)))) by P-Succ {\n",
        "      S(Z) plus S(S(Z)) is S(S(S(Z))) by P-Succ {\n",
        "        Z plus S(S(Z)) is S(S(Z)) by P-Zero {}\n",
        "      }\n",
        "    }\n",
        "  };\n",
        "  Z times S(S(S(S(Z)))) is Z by T-Zero {}\n",
        "}\n",
    ]
    .concat();
    run_test(judgement, DerivationRules::EvalNatExp, &expect);
}

#[test]
fn test_question021() {
    let judgement = "Z + S(S(Z)) -*-> S(S(Z))";
    let expect = [
        "Z + S(S(Z)) -*-> S(S(Z)) by MR-One {\n",
        "  Z + S(S(Z)) ---> S(S(Z)) by R-Plus {\n",
        "    Z plus S(S(Z)) is S(S(Z)) by P-Zero {}\n",
        "  }\n",
        "}\n",
    ]
    .concat();
    run_test(judgement, DerivationRules::ReduceNatExp, &expect);
}

#[test]
fn test_question022() {
    let judgement = "S(Z) * S(Z) + S(Z) * S(Z) -d-> S(Z) + S(Z) * S(Z)";
    let expect = [
        "S(Z) * S(Z) + S(Z) * S(Z) -d-> S(Z) + S(Z) * S(Z) by DR-PlusL {\n",
        "  S(Z) * S(Z) -d-> S(Z) by DR-Times {\n",
        "    S(Z) times S(Z) is S(Z) by T-Succ {\n",
        "      Z times S(Z) is Z by T-Zero {};\n",
        "      S(Z) plus Z is S(Z) by P-Succ {\n",
        "        Z plus Z is Z by P-Zero {}\n",
        "      }\n",
        "    }\n",
        "  }\n",
        "}\n",
    ]
    .concat();
    run_test(judgement, DerivationRules::ReduceNatExp, &expect);
}

#[test]
fn test_question023() {
    let judgement = "S(Z) * S(Z) + S(Z) * S(Z) ---> S(Z) * S(Z) + S(Z)";
    let expect = [
        "S(Z) * S(Z) + S(Z) * S(Z) ---> S(Z) * S(Z) + S(Z) by R-PlusR {\n",
        "  S(Z) * S(Z) ---> S(Z) by R-Times {\n",
        "    S(Z) times S(Z) is S(Z) by T-Succ {\n",
        "      Z times S(Z) is Z by T-Zero {};\n",
        "      S(Z) plus Z is S(Z) by P-Succ {\n",
        "        Z plus Z is Z by P-Zero {}\n",
        "      }\n",
        "    }\n",
        "  }\n",
        "}\n",
    ]
    .concat();
    run_test(judgement, DerivationRules::ReduceNatExp, &expect);
}

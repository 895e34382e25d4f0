use fuzzy_logic_engine_rs::output::{best_match, OutputResult};
use fuzzy_logic_engine_rs::rule::{Connective, Rule};
use fuzzy_logic_engine_rs::scalar::Scalar;
use fuzzy_logic_engine_rs::variable::Range;

fn s(x: f64) -> Scalar {
    Scalar::from_bits(x.to_bits()).unwrap()
}

fn f(x: Scalar) -> f64 {
    f64::from_bits(x.to_bits())
}

fn describe(out: &OutputResult) -> String {
    let value = match out.value.first() {
        Some(v) => format!("{:.3}", f(*v)),
        None => String::new(),
    };
    let min = format!("{:.1}", f(out.range.min));
    let max = format!("{:.1}", f(out.range.max));
    out.describe(&value, &min, &max)
}

#[test]
fn test_outputresult_with_best_term_and_kind() {
    let out = OutputResult {
        variable_name: "Speed".to_string(),
        range: Range { min: s(0.0), max: s(2000.0) },
        value: vec![s(1340.0)],
        best_term: Some("fast".to_string()),
        term_kind: Some("Trapezoid { a: 1000.0, b: 1200.0, c: 1500.0, d: 2000.0 }".to_string()),
    };

    let desc = describe(&out);
    assert!(desc.contains("Speed"));
    assert!(desc.contains("1340"));
    assert!(desc.contains("fast"));
    assert!(desc.contains("Trapezoid"));
}

#[test]
fn test_outputresult_without_best_term() {
    let out = OutputResult {
        variable_name: "Temperature".to_string(),
        range: Range { min: s(-50.0), max: s(50.0) },
        value: vec![s(0.0)],
        best_term: None,
        term_kind: None,
    };

    let desc = describe(&out);
    assert!(desc.contains("Temperature"));
    assert!(desc.contains("0.0"));
    assert!(desc.contains("[-50.0, 50.0]"));
}

#[test]
fn test_outputresult_debug_trait() {
    let out = OutputResult {
        variable_name: "Humidity".to_string(),
        range: Range { min: s(0.0), max: s(100.0) },
        value: vec![s(45.0)],
        best_term: Some("wet".to_string()),
        term_kind: Some("Trapezoid { a: 40.0, b: 70.0, c: 100.0, d: 100.0 }".to_string()),
    };

    let dbg_str = format!("{:?}", out);
    assert!(dbg_str.contains("Humidity"));
    assert!(dbg_str.contains("wet"));
}

#[test]
fn test_create_rule() {
    let rule = Rule::new(
        vec![Some("cold".into()), Some("high".into())],
        vec!["increase".into()],
        Connective::And,
    );

    assert_eq!(rule.antecedent.len(), 2);
    assert_eq!(rule.consequent[0], "increase");
}

#[test]
fn rule_keeps_its_parts() {
    let rule = Rule::new(vec![None, Some("low".into())], vec![], Connective::Or);
    assert_eq!(rule.antecedent, vec![None, Some("low".to_string())]);
    assert!(rule.consequent.is_empty());
    assert!(matches!(rule.connective, Connective::Or));
}

#[test]
fn connectives_fold_from_their_identity() {
    assert_eq!(f(Connective::And.start()), 1.0);
    assert_eq!(f(Connective::Or.start()), 0.0);
    assert_eq!(f(Connective::And.step(s(0.5), s(0.25))), 0.25);
    assert_eq!(f(Connective::And.step(s(0.25), s(0.5))), 0.25);
    assert_eq!(f(Connective::Or.step(s(0.5), s(0.25))), 0.5);
    assert_eq!(f(Connective::Or.step(s(0.25), s(0.5))), 0.5);
}

#[test]
fn description_with_term_and_kind_is_the_full_sentence() {
    let out = OutputResult {
        variable_name: "Speed".to_string(),
        range: Range { min: s(0.0), max: s(2000.0) },
        value: vec![s(1340.0)],
        best_term: Some("fast".to_string()),
        term_kind: Some("Trapezoid".to_string()),
    };
    assert_eq!(
        describe(&out),
        "Speed = 1340.000 in range [0.0, 2000.0] → term 'fast' (Trapezoid)"
    );
}

#[test]
fn description_without_term_or_kind_is_the_short_sentence() {
    let mut out = OutputResult {
        variable_name: "Speed".to_string(),
        range: Range { min: s(-0.5), max: s(0.5) },
        value: vec![s(0.125), s(7.0)],
        best_term: Some("fast".to_string()),
        term_kind: None,
    };
    assert_eq!(describe(&out), "Speed = 0.125 in range [-0.5, 0.5]");
    out.best_term = None;
    out.term_kind = Some("Gauss".to_string());
    assert_eq!(describe(&out), "Speed = 0.125 in range [-0.5, 0.5]");
}

#[test]
fn description_of_a_result_without_value_says_nan() {
    let out = OutputResult {
        variable_name: "Empty".to_string(),
        range: Range { min: s(0.0), max: s(1.0) },
        value: vec![],
        best_term: None,
        term_kind: None,
    };
    assert_eq!(out.describe("ignored", "0.0", "1.0"), "Empty = NaN in range [0.0, 1.0]");
}

#[test]
fn best_match_takes_the_first_strictly_greatest() {
    assert_eq!(best_match(&vec![]), None);
    assert_eq!(best_match(&vec![s(0.0)]), Some(0));
    assert_eq!(best_match(&vec![s(0.25), s(0.5), s(0.5), s(0.125)]), Some(1));
    assert_eq!(best_match(&vec![s(1.0), s(1.0)]), Some(0));
    assert_eq!(best_match(&vec![s(-1.0), s(-1.0)]), None);
    assert_eq!(best_match(&vec![s(-1.0), s(-0.999)]), Some(1));
    assert_eq!(best_match(&vec![s(-3.0), s(f64::NEG_INFINITY)]), None);
    assert_eq!(best_match(&vec![s(0.0), s(-0.0)]), Some(0));
}

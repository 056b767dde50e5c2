//! The find-spec classifier and the piecewise value parsers.

use query_parser::error::FindParseError;
use query_parser::find::values_to_variables;
use query_parser::parse::{find_seq_to_find_spec, FindSp};
use query_parser::query::{Element, FindSpec, Variable};
use query_parser::values::{PlainSymbol, Value};

fn sym(name: &str) -> Value {
    Value::PlainSymbol(PlainSymbol::new(name))
}

fn var(name: &str) -> Variable {
    Variable(PlainSymbol::new(name))
}

fn elem(name: &str) -> Element {
    Element::Variable(var(name))
}

#[test]
fn test_values_to_variables() {
    let x = PlainSymbol("?x".to_string());
    let y = PlainSymbol("?y".to_string());
    let good = vec![Value::PlainSymbol(x.clone()), Value::PlainSymbol(y.clone())];
    let out = values_to_variables(&good).unwrap();
    assert_eq!(out, vec![Variable(x.clone()), Variable(y.clone())]);

    // The first value that is no ?-prefixed plain symbol is the error.
    let bad = vec![Value::PlainSymbol(x.clone()), Value::Integer(5)];
    match values_to_variables(&bad) {
        Err(FindParseError::InvalidInput(v)) => assert_eq!(v, Value::Integer(5)),
        _ => panic!("expected invalid input"),
    }
}

#[test]
fn test_find_sp_variable() {
    let sym = PlainSymbol("?x".to_string());
    let input = Value::PlainSymbol(sym.clone());
    let result = FindSp::variable(&input);
    assert_eq!(result, Some(Variable(sym)));
}

#[test]
fn test_find_scalar() {
    let sym = PlainSymbol("?x".to_string());
    let period = PlainSymbol(".".to_string());
    let input = vec![
        Value::PlainSymbol(sym.clone()),
        Value::PlainSymbol(period.clone()),
    ];
    let result = FindSp::find_scalar(&input);
    assert_eq!(
        result,
        Some(FindSpec::FindScalar(Element::Variable(Variable(sym))))
    );
}

#[test]
fn findsp_variable_rejects_non_variables() {
    assert_eq!(FindSp::variable(&sym("$db")), None);
    assert_eq!(FindSp::variable(&sym("x")), None);
    assert_eq!(FindSp::variable(&Value::Integer(3)), None);
    assert_eq!(FindSp::variable(&sym("")), None);
}

#[test]
fn findsp_period_only_matches_the_dot() {
    assert!(FindSp::period(&sym(".")));
    assert!(!FindSp::period(&sym("..")));
    assert!(!FindSp::period(&sym("?x")));
    assert!(!FindSp::period(&Value::Integer(1)));
}

#[test]
fn classify_scalar() {
    let r = find_seq_to_find_spec(&vec![sym("?x"), sym(".")]);
    assert_eq!(r.unwrap(), FindSpec::FindScalar(elem("?x")));
}

#[test]
fn classify_collection() {
    let r = find_seq_to_find_spec(&vec![Value::Vector(vec![sym("?x"), sym("...")])]);
    assert_eq!(r.unwrap(), FindSpec::FindColl(elem("?x")));
}

#[test]
fn classify_tuple() {
    let r = find_seq_to_find_spec(&vec![Value::Vector(vec![sym("?x"), sym("?y")])]);
    assert_eq!(r.unwrap(), FindSpec::FindTuple(vec![elem("?x"), elem("?y")]));
}

#[test]
fn classify_relation() {
    let r = find_seq_to_find_spec(&vec![sym("?x"), sym("?y")]);
    assert_eq!(r.unwrap(), FindSpec::FindRel(vec![elem("?x"), elem("?y")]));
    let single = find_seq_to_find_spec(&vec![sym("?y")]);
    assert_eq!(single.unwrap(), FindSpec::FindRel(vec![elem("?y")]));
}

#[test]
fn classify_empty_list_is_invalid() {
    match find_seq_to_find_spec(&vec![]) {
        Err(FindParseError::InvalidInput(Value::Vector(v))) => assert!(v.is_empty()),
        _ => panic!("expected invalid input"),
    }
}

#[test]
fn classify_misplaced_ellipsis_is_invalid() {
    // [?x ... ?y] is neither a collection (wrong length) nor a tuple (the
    // ellipsis is no variable).
    match find_seq_to_find_spec(&vec![Value::Vector(vec![sym("?x"), sym("..."), sym("?y")])]) {
        Err(FindParseError::InvalidInput(v)) => assert_eq!(v, sym("...")),
        _ => panic!("expected invalid input"),
    }
}

#[test]
fn classify_empty_inner_vector_is_invalid() {
    match find_seq_to_find_spec(&vec![Value::Vector(vec![])]) {
        Err(FindParseError::InvalidInput(Value::Vector(v))) => assert!(v.is_empty()),
        _ => panic!("expected invalid input"),
    }
}

#[test]
fn classify_scalar_needs_a_variable() {
    match find_seq_to_find_spec(&vec![Value::Integer(7), sym(".")]) {
        Err(FindParseError::InvalidInput(v)) => assert_eq!(v, Value::Integer(7)),
        _ => panic!("expected invalid input"),
    }
}

//! Whole-query parsing: both surface syntaxes, clause extraction, and the
//! error cases.

use query_parser::error::FindParseError;
use query_parser::find::{extract_inputs, extract_with, parse_find, parse_query};
use query_parser::query::{Binding, Element, FindSpec, QuerySpec, Variable};
use query_parser::values::{Keyword, PlainSymbol, Value};

fn kw(name: &str) -> Value {
    Value::Keyword(Keyword::new(name))
}

fn sym(name: &str) -> Value {
    Value::PlainSymbol(PlainSymbol::new(name))
}

fn var(name: &str) -> Variable {
    Variable(PlainSymbol::new(name))
}

fn elem(name: &str) -> Element {
    Element::Variable(var(name))
}

/// The pattern clause `[?x :foaf/knows ?y]`; its contents are opaque to the
/// parser.
fn knows_clause() -> Value {
    Value::Vector(vec![sym("?x"), kw("foaf/knows"), sym("?y")])
}

#[test]
fn parse_flat_query_with_inputs() {
    // [:find ?y :in $ ?x :where [?x :foaf/knows ?y]]
    let tree = Value::Vector(vec![
        kw("find"),
        sym("?y"),
        kw("in"),
        sym("$"),
        sym("?x"),
        kw("where"),
        knows_clause(),
    ]);
    let q = parse_query(tree).unwrap();
    assert_eq!(q.find, FindSpec::FindRel(vec![elem("?y")]));
    assert_eq!(
        q.inputs,
        vec![Binding::DefaultSource, Binding::Variable(var("?x"))]
    );
    assert_eq!(q.with, Vec::<Element>::new());
}

#[test]
fn parse_scalar_query() {
    // [:find ?x . :where [...]]
    let tree = Value::Vector(vec![kw("find"), sym("?x"), sym("."), kw("where"), knows_clause()]);
    assert_eq!(
        parse_find(tree).unwrap(),
        FindSpec::FindScalar(elem("?x"))
    );
}

#[test]
fn parse_collection_query() {
    // [:find [?x ...] :where [...]]
    let tree = Value::Vector(vec![
        kw("find"),
        Value::Vector(vec![sym("?x"), sym("...")]),
        kw("where"),
        knows_clause(),
    ]);
    assert_eq!(parse_find(tree).unwrap(), FindSpec::FindColl(elem("?x")));
}

#[test]
fn parse_tuple_query() {
    // [:find [?x ?y] :where [...]]
    let tree = Value::Vector(vec![
        kw("find"),
        Value::Vector(vec![sym("?x"), sym("?y")]),
        kw("where"),
        knows_clause(),
    ]);
    assert_eq!(
        parse_find(tree).unwrap(),
        FindSpec::FindTuple(vec![elem("?x"), elem("?y")])
    );
}

#[test]
fn parse_relation_query() {
    // [:find ?x ?y :where [...]]
    let tree = Value::Vector(vec![kw("find"), sym("?x"), sym("?y"), kw("where"), knows_clause()]);
    assert_eq!(
        parse_find(tree).unwrap(),
        FindSpec::FindRel(vec![elem("?x"), elem("?y")])
    );
}

#[test]
fn parse_query_is_deterministic() {
    let tree = Value::Vector(vec![
        kw("find"),
        sym("?y"),
        kw("in"),
        sym("$"),
        sym("?x"),
        kw("where"),
        knows_clause(),
    ]);
    assert_eq!(parse_query(tree.clone()), parse_query(tree));
}

#[test]
fn flat_and_map_forms_agree() {
    let flat = Value::Vector(vec![
        kw("find"),
        sym("?y"),
        kw("in"),
        sym("$"),
        sym("?x"),
        kw("where"),
        knows_clause(),
    ]);
    let map = Value::MapOf(vec![
        (kw("find"), Value::Vector(vec![sym("?y")])),
        (kw("in"), Value::Vector(vec![sym("$"), sym("?x")])),
        (kw("where"), Value::Vector(vec![knows_clause()])),
    ]);
    let from_flat: Result<QuerySpec, FindParseError> = parse_query(flat);
    let from_map: Result<QuerySpec, FindParseError> = parse_query(map);
    assert_eq!(from_flat, from_map);
    assert!(from_flat.is_ok());
}

#[test]
fn clause_order_does_not_matter() {
    let usual = Value::Vector(vec![kw("find"), sym("?x"), kw("where"), knows_clause()]);
    let flipped = Value::Vector(vec![kw("where"), knows_clause(), kw("find"), sym("?x")]);
    assert_eq!(parse_query(usual), parse_query(flipped));
}

#[test]
fn missing_where_is_reported() {
    // {:find [?x]}
    let tree = Value::MapOf(vec![(kw("find"), Value::Vector(vec![sym("?x")]))]);
    match parse_query(tree) {
        Err(FindParseError::MissingField(k)) => assert_eq!(k, Keyword::new("where")),
        _ => panic!("expected a missing field"),
    }
}

#[test]
fn missing_find_is_reported() {
    // {:where [[...]]}
    let tree = Value::MapOf(vec![(kw("where"), Value::Vector(vec![knows_clause()]))]);
    match parse_query(tree) {
        Err(FindParseError::MissingField(k)) => assert_eq!(k, Keyword::new("find")),
        _ => panic!("expected a missing field"),
    }
}

#[test]
fn bare_scalar_top_level_is_invalid() {
    match parse_query(Value::Integer(42)) {
        Err(FindParseError::InvalidInput(v)) => assert_eq!(v, Value::Integer(42)),
        _ => panic!("expected invalid input"),
    }
    match parse_query(kw("find")) {
        Err(FindParseError::InvalidInput(v)) => assert_eq!(v, kw("find")),
        _ => panic!("expected invalid input"),
    }
}

#[test]
fn empty_find_clause_is_invalid() {
    // {:find [] :where [[...]]}
    let tree = Value::MapOf(vec![
        (kw("find"), Value::Vector(vec![])),
        (kw("where"), Value::Vector(vec![knows_clause()])),
    ]);
    match parse_query(tree) {
        Err(FindParseError::InvalidInput(Value::Vector(v))) => assert!(v.is_empty()),
        _ => panic!("expected invalid input"),
    }
}

#[test]
fn ungroupable_flat_form_is_invalid() {
    // A single keyword cannot form a keyword+value group; the whole tree is
    // the offending value.
    let tree = Value::Vector(vec![kw("find")]);
    match parse_query(tree.clone()) {
        Err(FindParseError::InvalidInput(v)) => assert_eq!(v, tree),
        _ => panic!("expected invalid input"),
    }
}

#[test]
fn map_form_rejects_bad_keys_and_values() {
    // A non-keyword key.
    let bad_key = Value::MapOf(vec![(Value::Integer(5), Value::Vector(vec![]))]);
    match parse_query(bad_key) {
        Err(FindParseError::InvalidInput(v)) => assert_eq!(v, Value::Integer(5)),
        _ => panic!("expected invalid input"),
    }
    // A non-vector value.
    let bad_value = Value::MapOf(vec![(kw("find"), Value::Integer(6))]);
    match parse_query(bad_value) {
        Err(FindParseError::InvalidInput(v)) => assert_eq!(v, Value::Integer(6)),
        _ => panic!("expected invalid input"),
    }
    // A repeated key.
    let dup = Value::MapOf(vec![
        (kw("find"), Value::Vector(vec![sym("?x")])),
        (kw("find"), Value::Vector(vec![sym("?y")])),
    ]);
    match parse_query(dup) {
        Err(FindParseError::InvalidInput(v)) => assert_eq!(v, kw("find")),
        _ => panic!("expected invalid input"),
    }
}

#[test]
fn top_level_list_and_set_are_invalid() {
    let list = Value::List(vec![kw("find"), sym("?x")]);
    match parse_query(list.clone()) {
        Err(FindParseError::InvalidInput(v)) => assert_eq!(v, list),
        _ => panic!("expected invalid input"),
    }
    let set = Value::SetOf(vec![sym("?x")]);
    match parse_query(set.clone()) {
        Err(FindParseError::InvalidInput(v)) => assert_eq!(v, set),
        _ => panic!("expected invalid input"),
    }
}

#[test]
fn keywords_are_told_apart_from_symbols() {
    assert!(kw("find").is_keyword());
    assert!(!sym("find").is_keyword());
    assert!(!Value::Integer(1).is_keyword());
}

#[test]
fn floats_and_namespaced_symbols_are_no_elements() {
    let f = Value::Float(2.5f64.to_bits());
    let tree = Value::Vector(vec![kw("find"), f.clone(), kw("where"), knows_clause()]);
    match parse_query(tree) {
        Err(FindParseError::InvalidInput(v)) => assert_eq!(v, f),
        _ => panic!("expected invalid input"),
    }
    let ns = Value::NamespacedSymbol("foo".to_string(), "bar".to_string());
    let tree = Value::Vector(vec![kw("find"), ns.clone(), kw("where"), knows_clause()]);
    match parse_query(tree) {
        Err(FindParseError::InvalidInput(v)) => assert_eq!(v, ns),
        _ => panic!("expected invalid input"),
    }
}

#[test]
fn inputs_cover_all_binding_kinds() {
    let vals = vec![sym("$"), sym("$db"), sym("?v"), sym("%"), sym("%rules")];
    let bindings = extract_inputs(&vals).unwrap();
    assert_eq!(
        bindings,
        vec![
            Binding::DefaultSource,
            Binding::NamedSource("db".to_string()),
            Binding::Variable(var("?v")),
            Binding::RuleVars("".to_string()),
            Binding::RuleVars("rules".to_string()),
        ]
    );
}

#[test]
fn repeated_source_binding_is_invalid() {
    let vals = vec![sym("$"), sym("$")];
    match extract_inputs(&vals) {
        Err(FindParseError::InvalidInput(v)) => assert_eq!(v, sym("$")),
        _ => panic!("expected invalid input"),
    }
    let named = vec![sym("$db"), sym("$db")];
    assert!(extract_inputs(&named).is_err());
}

#[test]
fn repeated_variable_binding_is_allowed() {
    let vals = vec![sym("?a"), sym("?a")];
    let bindings = extract_inputs(&vals).unwrap();
    assert_eq!(bindings.len(), 2);
}

#[test]
fn non_binding_input_is_invalid() {
    let vals = vec![sym("$"), Value::Integer(9)];
    match extract_inputs(&vals) {
        Err(FindParseError::InvalidInput(v)) => assert_eq!(v, Value::Integer(9)),
        _ => panic!("expected invalid input"),
    }
    // A plain symbol without a marker prefix denotes nothing.
    assert!(extract_inputs(&vec![sym("db")]).is_err());
}

#[test]
fn with_clause_takes_only_variables() {
    let good = vec![sym("?age"), sym("?name")];
    assert_eq!(
        extract_with(&good).unwrap(),
        vec![elem("?age"), elem("?name")]
    );
    let bad = vec![sym("?age"), sym("$")];
    match extract_with(&bad) {
        Err(FindParseError::InvalidInput(v)) => assert_eq!(v, sym("$")),
        _ => panic!("expected invalid input"),
    }
}

#[test]
fn with_clause_flows_into_the_query() {
    let tree = Value::Vector(vec![
        kw("find"),
        sym("?x"),
        kw("with"),
        sym("?y"),
        kw("where"),
        knows_clause(),
    ]);
    let q = parse_query(tree).unwrap();
    assert_eq!(q.with, vec![elem("?y")]);
    assert_eq!(q.inputs, vec![Binding::DefaultSource]);
}

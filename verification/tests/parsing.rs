//! The parser's trial-order disambiguation and error reporting.

use chronos::ast::{BinaryOperator, Expression, Literal, Statement, Template, TypeSpec};
use chronos::parser::{
    parse_expression, parse_template, Doc, DocEntry, FieldName, ParseError,
};

fn entry(key: &str, value: Doc) -> DocEntry {
    DocEntry { key: String::from(key), value }
}

fn text(s: &str) -> Doc {
    Doc::Text(String::from(s))
}

#[test]
fn mapping_with_actions_parses_as_program() {
    let doc = Doc::Mapping(vec![
        entry("name", text("prog")),
        entry("description", text("a program")),
        entry("actions", Doc::List(vec![text("hello")])),
    ]);
    match parse_template(&doc).expect("parse") {
        Template::Program(p) => {
            assert_eq!(p.name, "prog");
            assert_eq!(p.description.as_deref(), Some("a program"));
            assert_eq!(p.actions.len(), 1);
        }
        Template::Function(_) => panic!("expected a program"),
    }
}

#[test]
fn mapping_with_implementation_parses_as_function() {
    let ret = Doc::Mapping(vec![entry("type", text("Return")), entry("value", Doc::Int(42))]);
    let doc = Doc::Mapping(vec![
        entry("name", text("answer")),
        entry(
            "inputs",
            Doc::List(vec![Doc::Mapping(vec![
                entry("name", text("x")),
                entry("type", text("i64")),
            ])]),
        ),
        entry("output", text("i64")),
        entry("implementation", Doc::List(vec![ret])),
    ]);
    match parse_template(&doc).expect("parse") {
        Template::Function(f) => {
            assert_eq!(f.name, "answer");
            assert_eq!(f.inputs.len(), 1);
            assert_eq!(f.inputs[0].name, "x");
            assert!(f.inputs[0].param_type == TypeSpec::I64);
            assert!(f.output == Some(TypeSpec::I64));
            assert_eq!(f.implementation.len(), 1);
            match &f.implementation[0] {
                Statement::Return { value } => match value {
                    Expression::Literal(Literal::Integer(v)) => assert_eq!(*v, 42),
                    _ => panic!("expected an integer literal"),
                },
            }
        }
        Template::Program(_) => panic!("expected a function"),
    }
}

#[test]
fn neither_shape_reports_missing_implementation() {
    let doc = Doc::Mapping(vec![entry("name", text("thing"))]);
    match parse_template(&doc) {
        Err(ParseError::MissingField(f)) => assert!(f == FieldName::Implementation),
        _ => panic!("expected a missing-field error"),
    }
}

#[test]
fn bare_integer_is_an_integer_literal() {
    match parse_expression(&Doc::Int(7)).expect("parse") {
        Expression::Literal(Literal::Integer(v)) => assert_eq!(v, 7),
        _ => panic!("expected an integer literal"),
    }
}

#[test]
fn bare_string_is_a_variable_reference() {
    match parse_expression(&text("speed")).expect("parse") {
        Expression::Variable(name) => assert_eq!(name, "speed"),
        _ => panic!("expected a variable reference"),
    }
}

#[test]
fn op_left_right_mapping_is_a_binary_op() {
    let doc = Doc::Mapping(vec![
        entry("op", text("Sub")),
        entry("left", Doc::Int(5)),
        entry("right", Doc::Int(2)),
    ]);
    match parse_expression(&doc).expect("parse") {
        Expression::BinaryOp { op, left, right } => {
            assert!(op == BinaryOperator::Sub);
            assert!(matches!(*left, Expression::Literal(Literal::Integer(5))));
            assert!(matches!(*right, Expression::Literal(Literal::Integer(2))));
        }
        _ => panic!("expected a binary operation"),
    }
}

#[test]
fn unknown_operator_is_reported_by_name() {
    let doc = Doc::Mapping(vec![
        entry("op", text("Pow")),
        entry("left", Doc::Int(2)),
        entry("right", Doc::Int(8)),
    ]);
    match parse_expression(&doc) {
        Err(ParseError::UnknownOperator(s)) => assert_eq!(s, "Pow"),
        _ => panic!("expected an unknown-operator error"),
    }
}

#[test]
fn unknown_statement_type_is_reported_by_tag() {
    let bad = Doc::Mapping(vec![entry("type", text("Loop")), entry("value", Doc::Int(1))]);
    let doc = Doc::Mapping(vec![
        entry("name", text("f")),
        entry("implementation", Doc::List(vec![bad])),
    ]);
    match parse_template(&doc) {
        Err(ParseError::UnknownStatementType(tag)) => assert_eq!(tag, "Loop"),
        _ => panic!("expected an unknown-statement-type error"),
    }
}

#[test]
fn non_string_action_is_rejected() {
    let doc = Doc::Mapping(vec![
        entry("name", text("p")),
        entry("actions", Doc::List(vec![Doc::Int(3)])),
    ]);
    match parse_template(&doc) {
        Err(e) => {
            let msg = e.message();
            assert!(msg.contains("action") || msg.contains("implementation"));
        }
        Ok(_) => panic!("expected a parse error"),
    }
}

#[test]
fn parse_error_messages_name_the_field() {
    let doc = Doc::Mapping(vec![entry("actions", Doc::List(vec![text("x")]))]);
    // no name: program trial fails on name, function trial fails on name too
    match parse_template(&doc) {
        Err(ParseError::MissingField(f)) => {
            assert!(f == FieldName::Name);
            assert!(ParseError::MissingField(f).message().contains("name"));
        }
        _ => panic!("expected a missing-name error"),
    }
}

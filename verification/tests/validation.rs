//! The validator's naming and shape rules.

use chronos::ast::{
    Action, Expression, FunctionTemplate, Literal, Parameter, ProgramTemplate, Statement,
    Template, TypeSpec,
};
use chronos::validator::{validate_template, ValidationError};

fn program(name: &str, messages: &[&str]) -> Template {
    Template::Program(ProgramTemplate {
        name: String::from(name),
        description: None,
        actions: messages.iter().map(|m| Action::Print(String::from(*m))).collect(),
    })
}

fn int_return() -> Statement {
    Statement::Return { value: Expression::Literal(Literal::Integer(0)) }
}

fn function(name: &str, inputs: Vec<Parameter>, implementation: Vec<Statement>) -> Template {
    Template::Function(FunctionTemplate {
        name: String::from(name),
        description: None,
        inputs,
        output: None,
        implementation,
    })
}

fn param(name: &str) -> Parameter {
    Parameter { name: String::from(name), param_type: TypeSpec::I64 }
}

#[test]
fn identifier_names_pass() {
    assert!(validate_template(&program("my_prog1", &["hi"])).is_ok());
}

#[test]
fn name_with_space_fails() {
    match validate_template(&program("my prog", &["hi"])) {
        Err(ValidationError::InvalidProgramName(n)) => {
            assert_eq!(n, "my prog");
            let msg = ValidationError::InvalidProgramName(n).message();
            assert_eq!(msg, "Program name must be a valid identifier: 'my prog'");
        }
        _ => panic!("expected an invalid-name error"),
    }
}

#[test]
fn empty_name_fails() {
    match validate_template(&program("", &["hi"])) {
        Err(ValidationError::EmptyProgramName) => {}
        _ => panic!("expected an empty-name error"),
    }
    match validate_template(&function("", vec![], vec![int_return()])) {
        Err(ValidationError::EmptyFunctionName) => {}
        _ => panic!("expected an empty-name error"),
    }
}

#[test]
fn program_without_actions_fails() {
    match validate_template(&program("p", &[])) {
        Err(ValidationError::NoActions) => {}
        _ => panic!("expected a no-actions error"),
    }
}

#[test]
fn empty_print_message_is_valid() {
    assert!(validate_template(&program("p", &[""])).is_ok());
}

#[test]
fn duplicate_parameter_names_fail_naming_the_duplicate() {
    let t = function("f", vec![param("x"), param("x")], vec![int_return()]);
    match validate_template(&t) {
        Err(ValidationError::DuplicateParameter(n)) => {
            assert_eq!(n, "x");
            let msg = ValidationError::DuplicateParameter(n).message();
            assert_eq!(msg, "Duplicate parameter name: 'x'");
        }
        _ => panic!("expected a duplicate-parameter error"),
    }
}

#[test]
fn first_duplicate_wins() {
    let t = function(
        "f",
        vec![param("a"), param("b"), param("b"), param("a")],
        vec![int_return()],
    );
    match validate_template(&t) {
        Err(ValidationError::DuplicateParameter(n)) => assert_eq!(n, "b"),
        _ => panic!("expected a duplicate-parameter error"),
    }
}

#[test]
fn empty_implementation_fails() {
    match validate_template(&function("f", vec![], vec![])) {
        Err(ValidationError::EmptyImplementation) => {}
        _ => panic!("expected an empty-implementation error"),
    }
}

#[test]
fn distinct_parameters_pass() {
    let t = function("f", vec![param("x"), param("y")], vec![int_return()]);
    assert!(validate_template(&t).is_ok());
}

#[test]
fn unicode_letters_count_as_alphanumeric() {
    assert!(validate_template(&program("caf\u{e9}", &["hi"])).is_ok());
    match validate_template(&program("caf\u{e9} !", &["hi"])) {
        Err(ValidationError::InvalidProgramName(_)) => {}
        _ => panic!("expected an invalid-name error"),
    }
}

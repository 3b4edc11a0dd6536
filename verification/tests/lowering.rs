//! Expression and function lowering: operator selection, operand order,
//! post-order evaluation, and unsupported-feature failures.

use chronos::ast::{
    BinaryOperator, Expression, FunctionTemplate, Literal, Statement, Template,
};
use chronos::codegen::{gen_label, generate_asm, CodegenError, LabelAllocator};

fn lit(v: i64) -> Expression {
    Expression::Literal(Literal::Integer(v))
}

fn binop(op: BinaryOperator, left: Expression, right: Expression) -> Expression {
    Expression::BinaryOp { op, left: Box::new(left), right: Box::new(right) }
}

fn returning(value: Expression) -> Template {
    Template::Function(FunctionTemplate {
        name: String::from("f"),
        description: None,
        inputs: vec![],
        output: None,
        implementation: vec![Statement::Return { value }],
    })
}

fn generate(t: &Template) -> Result<String, CodegenError> {
    let mut labels = LabelAllocator::new();
    generate_asm(t, &mut labels)
}

fn op_test(op: BinaryOperator, instr: &str) {
    let listing = generate(&returning(binop(op, lit(7), lit(3)))).expect("generate");
    let left = listing.find("movq $7, %rax").expect("left operand in accumulator");
    let push = listing.find("pushq %rax").expect("left saved");
    let right = listing.find("movq $3, %rbx").expect("right operand in secondary");
    let pop = listing.find("popq %rax").expect("left restored");
    let o = listing.find(instr).expect("operator instruction");
    assert!(left < push && push < right && right < pop && pop < o);
}

#[test]
fn add_lowers_to_addq() {
    op_test(BinaryOperator::Add, "addq %rbx, %rax");
}

#[test]
fn sub_lowers_to_subq_operands_in_order() {
    // left stays the minuend: 5 - 2, never 2 - 5
    let listing = generate(&returning(binop(BinaryOperator::Sub, lit(5), lit(2)))).expect("generate");
    assert!(listing.find("movq $5, %rax").unwrap() < listing.find("movq $2, %rbx").unwrap());
    assert!(listing.contains("subq %rbx, %rax"));
    assert!(!listing.contains("subq %rax, %rbx"));
    op_test(BinaryOperator::Sub, "subq %rbx, %rax");
}

#[test]
fn mul_lowers_to_imulq() {
    op_test(BinaryOperator::Mul, "imulq %rbx, %rax");
}

#[test]
fn div_sign_extends_then_divides() {
    let listing = generate(&returning(binop(BinaryOperator::Div, lit(7), lit(3)))).expect("generate");
    let cqto = listing.find("cqto").expect("sign extension");
    let idiv = listing.find("idivq %rbx").expect("signed divide");
    assert!(cqto < idiv);
    assert!(!listing.contains("idivq %rax"));
}

#[test]
fn nested_expression_lowers_post_order() {
    // (2 + 3) * 4
    let expr = binop(BinaryOperator::Mul, binop(BinaryOperator::Add, lit(2), lit(3)), lit(4));
    let listing = generate(&returning(expr)).expect("generate");
    let m2 = listing.find("movq $2, %rax").unwrap();
    let m3 = listing.find("movq $3, %rbx").unwrap();
    let add = listing.find("addq %rbx, %rax").unwrap();
    let m4 = listing.find("movq $4, %rbx").unwrap();
    let mul = listing.find("imulq %rbx, %rax").unwrap();
    assert!(m2 < m3 && m3 < add && add < m4 && m4 < mul);
}

#[test]
fn negative_literal_is_rendered_signed() {
    let listing = generate(&returning(lit(-12))).expect("generate");
    assert!(listing.contains("movq $-12, %rax"));
}

#[test]
fn function_frame_and_metadata() {
    let listing = generate(&returning(lit(1))).expect("generate");
    assert!(listing.contains(".global f"));
    assert!(listing.contains(".type f, @function"));
    assert!(listing.contains("f:"));
    let push = listing.find("pushq %rbp").unwrap();
    let mov = listing.find("movq %rsp, %rbp").unwrap();
    let pop = listing.find("popq %rbp").unwrap();
    let ret = listing.find("    ret").unwrap();
    assert!(push < mov && mov < pop && pop < ret);
}

#[test]
fn variable_fails_codegen_naming_the_variable() {
    match generate(&returning(Expression::Variable(String::from("speed")))) {
        Err(CodegenError::UnsupportedVariable(n)) => {
            assert_eq!(n, "speed");
            let msg = CodegenError::UnsupportedVariable(n).message();
            assert_eq!(msg, "Variables not yet supported: speed");
        }
        _ => panic!("expected an unsupported-variable error"),
    }
}

#[test]
fn string_literal_in_expression_fails_codegen() {
    let e = Expression::Literal(Literal::String(String::from("oops")));
    match generate(&returning(e)) {
        Err(CodegenError::UnsupportedStringLiteral) => {
            let msg = CodegenError::UnsupportedStringLiteral.message();
            assert_eq!(msg, "String literals in expressions not yet supported");
        }
        _ => panic!("expected an unsupported-string-literal error"),
    }
}

#[test]
fn nested_failure_is_reported_not_miscompiled() {
    let e = binop(BinaryOperator::Add, lit(1), Expression::Variable(String::from("v")));
    match generate(&returning(e)) {
        Err(CodegenError::UnsupportedVariable(n)) => assert_eq!(n, "v"),
        _ => panic!("expected an unsupported-variable error"),
    }
}

#[test]
fn labels_are_monotonic_and_prefixed() {
    let mut labels = LabelAllocator::new();
    assert_eq!(gen_label(&mut labels, "str"), ".Lstr_0");
    assert_eq!(gen_label(&mut labels, "str"), ".Lstr_1");
    assert_eq!(gen_label(&mut labels, "tmp"), ".Ltmp_2");
    assert_eq!(labels.next, 3);
}

//! End-to-end scenarios over the parse -> validate -> generate pipeline.

use chronos::ast::{Action, ProgramTemplate, Template};
use chronos::codegen::{generate_asm, LabelAllocator};
use chronos::parser::{parse_template, Doc, DocEntry};
use chronos::validator::validate_template;

fn entry(key: &str, value: Doc) -> DocEntry {
    DocEntry { key: String::from(key), value }
}

fn program_doc(name: &str, messages: &[&str]) -> Doc {
    let actions: Vec<Doc> = messages.iter().map(|m| Doc::Text(String::from(*m))).collect();
    Doc::Mapping(vec![
        entry("name", Doc::Text(String::from(name))),
        entry("actions", Doc::List(actions)),
    ])
}

fn compile(doc: &Doc) -> String {
    let template = parse_template(doc).expect("parse");
    validate_template(&template).map_err(|e| e.message()).expect("validate");
    let mut labels = LabelAllocator::new();
    generate_asm(&template, &mut labels).expect("generate")
}

#[test]
fn hello_world_end_to_end() {
    let doc = program_doc("hello", &["Hello, World!"]);
    let listing = compile(&doc);
    assert!(listing.contains(".text"));
    assert!(listing.contains(".global _start"));
    assert!(listing.contains("_start:"));
    assert!(listing.contains(".ascii \"Hello, World!\\n\""));
    assert!(listing.contains("movq $1, %rax"));
    assert!(listing.contains("movq $14, %rdx"));
    assert!(listing.contains("movq $60, %rax"));
    assert!(listing.contains(".data"));
}

#[test]
fn write_syscall_per_action_in_source_order() {
    let doc = program_doc("multi", &["one", "two", "three"]);
    let listing = compile(&doc);
    let writes = listing.matches("movq $1, %rax           # syscall: write").count();
    assert_eq!(writes, 3);
    let p_one = listing.find("# Print \"one\"").unwrap();
    let p_two = listing.find("# Print \"two\"").unwrap();
    let p_three = listing.find("# Print \"three\"").unwrap();
    assert!(p_one < p_two && p_two < p_three);
    // each write block references its own distinct label
    assert!(listing.contains("leaq .Lstr_0(%rip), %rsi"));
    assert!(listing.contains("leaq .Lstr_1(%rip), %rsi"));
    assert!(listing.contains("leaq .Lstr_2(%rip), %rsi"));
    assert!(listing.contains(".Lstr_0:"));
    assert!(listing.contains(".Lstr_1:"));
    assert!(listing.contains(".Lstr_2:"));
}

#[test]
fn message_newline_appended_once() {
    let template = Template::Program(ProgramTemplate {
        name: String::from("p"),
        description: None,
        actions: vec![Action::Print(String::from("Hi"))],
    });
    let mut labels = LabelAllocator::new();
    let listing = generate_asm(&template, &mut labels).expect("generate");
    assert!(listing.contains(".ascii \"Hi\\n\""));
    assert!(listing.contains("movq $3, %rdx"));

    let template2 = Template::Program(ProgramTemplate {
        name: String::from("p"),
        description: None,
        actions: vec![Action::Print(String::from("Hi\n"))],
    });
    let mut labels2 = LabelAllocator::new();
    let listing2 = generate_asm(&template2, &mut labels2).expect("generate");
    assert!(listing2.contains(".ascii \"Hi\\n\""));
    assert!(listing2.contains("movq $3, %rdx"));
    assert!(!listing2.contains("movq $4, %rdx"));
}

#[test]
fn recompilation_is_identical_modulo_labels() {
    let doc = program_doc("again", &["repeat me"]);
    let template = parse_template(&doc).expect("parse");
    let mut labels = LabelAllocator::new();
    let first = generate_asm(&template, &mut labels).expect("generate");
    let second = generate_asm(&template, &mut labels).expect("generate");
    assert_ne!(first, second);
    assert!(first.contains(".Lstr_0"));
    assert!(!first.contains(".Lstr_1"));
    assert!(second.contains(".Lstr_1"));
    assert!(!second.contains(".Lstr_0"));
    let renamed = second.replace(".Lstr_1", ".Lstr_0");
    assert_eq!(first, renamed);
}

#[test]
fn empty_message_still_prints_newline() {
    let doc = program_doc("empty_msg", &[""]);
    let listing = compile(&doc);
    assert!(listing.contains(".ascii \"\\n\""));
    assert!(listing.contains("movq $1, %rdx"));
}

#[test]
fn quotes_and_backslashes_are_escaped_in_data() {
    let doc = program_doc("esc", &["say \"hi\" \\ done"]);
    let listing = compile(&doc);
    assert!(listing.contains(".ascii \"say \\\"hi\\\" \\\\ done\\n\""));
}

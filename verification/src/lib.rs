//! A small ahead-of-time compiler for declarative program and function
//! templates.  A document tree is parsed into a typed syntax tree, checked
//! for semantic well-formedness, and lowered to x86-64 assembly text using
//! raw Linux system calls for output and process exit.

pub mod ast;
pub mod codegen;
pub mod parser;
pub mod textfmt;
pub mod validator;

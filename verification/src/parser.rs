//! Parsing of a structured document tree into the typed syntax tree.
//!
//! The document grammar has no discriminator tags for its overlapping
//! shapes, so parsing resolves them by a fixed trial order: a mapping with a
//! well-formed `actions` field is a program; otherwise the document must be
//! a function with an `implementation` field.  A bare integer in expression
//! position is an integer literal; a bare string is a variable reference
//! (string literals in expression position have no explicit form); a
//! mapping carrying `op`, `left` and `right` is a binary operation.

use vstd::prelude::*;
use vstd::pervasive::arbitrary;
use crate::ast::Action;
use crate::ast::BinaryOperator;
use crate::ast::Expression;
use crate::ast::FunctionTemplate;
use crate::ast::Literal;
use crate::ast::Parameter;
use crate::ast::ProgramTemplate;
use crate::ast::Statement;
use crate::ast::Template;
use crate::ast::TypeSpec;

verus! {

/// One key-value pair of a document mapping.
pub struct DocEntry {
    pub key: String,
    pub value: Doc,
}

/// A plain document tree: what the surrounding driver reads from disk and
/// hands to the parser, scalar by scalar.
pub enum Doc {
    Null,
    Bool(bool),
    Int(i64),
    Text(String),
    List(Vec<Doc>),
    Mapping(Vec<DocEntry>),
}

/// The fields and shapes a parse error can point at.
#[derive(Clone, Copy, PartialEq, Eq, Structural, Debug)]
pub enum FieldName {
    Template,
    Name,
    Description,
    Actions,
    Action,
    Inputs,
    Parameter,
    ParameterName,
    ParameterType,
    Output,
    Implementation,
    Statement,
    StatementType,
    Value,
    Op,
    Expression,
    Left,
    Right,
}

/// Malformed or structurally ambiguous input, carrying the offending field
/// or the unrecognized tag text.
#[derive(Debug)]
pub enum ParseError {
    MissingField(FieldName),
    WrongShape(FieldName),
    UnknownStatementType(String),
    UnknownOperator(String),
    UnknownTypeName(String),
}

/// The wording of each field or shape a parse error can point at.
pub open spec fn field_text(f: FieldName) -> Seq<char> {
    match f {
        FieldName::Template => "template"@,
        FieldName::Name => "name"@,
        FieldName::Description => "description"@,
        FieldName::Actions => "actions"@,
        FieldName::Action => "action"@,
        FieldName::Inputs => "inputs"@,
        FieldName::Parameter => "parameter"@,
        FieldName::ParameterName => "parameter name"@,
        FieldName::ParameterType => "parameter type"@,
        FieldName::Output => "output"@,
        FieldName::Implementation => "implementation"@,
        FieldName::Statement => "statement"@,
        FieldName::StatementType => "statement type"@,
        FieldName::Value => "value"@,
        FieldName::Op => "op"@,
        FieldName::Expression => "expression"@,
        FieldName::Left => "left"@,
        FieldName::Right => "right"@,
    }
}

fn field_name_text(f: FieldName) -> (s: &'static str)
    ensures
        s@ == field_text(f),
{
    match f {
        FieldName::Template => "template",
        FieldName::Name => "name",
        FieldName::Description => "description",
        FieldName::Actions => "actions",
        FieldName::Action => "action",
        FieldName::Inputs => "inputs",
        FieldName::Parameter => "parameter",
        FieldName::ParameterName => "parameter name",
        FieldName::ParameterType => "parameter type",
        FieldName::Output => "output",
        FieldName::Implementation => "implementation",
        FieldName::Statement => "statement",
        FieldName::StatementType => "statement type",
        FieldName::Value => "value",
        FieldName::Op => "op",
        FieldName::Expression => "expression",
        FieldName::Left => "left",
        FieldName::Right => "right",
    }
}

/// The wording of each parse failure.
pub open spec fn parse_message(e: ParseError) -> Seq<char> {
    match e {
        ParseError::MissingField(f) => "missing required field: "@ + field_text(f),
        ParseError::WrongShape(f) => "invalid or mismatched field: "@ + field_text(f),
        ParseError::UnknownStatementType(s) => "unknown statement type: "@ + s@,
        ParseError::UnknownOperator(s) => "unknown operator: "@ + s@,
        ParseError::UnknownTypeName(s) => "unknown type name: "@ + s@,
    }
}

impl ParseError {
    /// A description naming the offending field or the unrecognized tag.
    pub fn message(&self) -> (r: String)
        ensures
            r@ == parse_message(*self),
    {
        match self {
            ParseError::MissingField(f) => {
                let mut s = String::from_str("missing required field: ");
                s.append(field_name_text(*f));
                s
            }
            ParseError::WrongShape(f) => {
                let mut s = String::from_str("invalid or mismatched field: ");
                s.append(field_name_text(*f));
                s
            }
            ParseError::UnknownStatementType(t) => {
                let mut s = String::from_str("unknown statement type: ");
                s.append(t.as_str());
                s
            }
            ParseError::UnknownOperator(t) => {
                let mut s = String::from_str("unknown operator: ");
                s.append(t.as_str());
                s
            }
            ParseError::UnknownTypeName(t) => {
                let mut s = String::from_str("unknown type name: ");
                s.append(t.as_str());
                s
            }
        }
    }
}

/// The value under `key` in a mapping's entries, first match first.
pub open spec fn doc_get(entries: Seq<DocEntry>, key: Seq<char>) -> Option<Doc>
    decreases entries.len(),
{
    if entries.len() == 0 {
        None
    } else if entries[0].key@ == key {
        Some(entries[0].value)
    } else {
        doc_get(entries.subrange(1, entries.len() as int), key)
    }
}

/// Relies on `str`'s `==`: equality of the character sequences.
#[verifier::external_body]
fn str_eq(a: &str, b: &str) -> (r: bool)
    ensures
        r == (a@ == b@),
{
    a == b
}

proof fn lemma_doc_get_smaller(entries: Seq<DocEntry>, key: Seq<char>)
    ensures
        doc_get(entries, key) matches Some(v) ==> decreases_to!(entries => v),
    decreases entries.len(),
{
    if entries.len() > 0 {
        if entries[0].key@ == key {
            assert(decreases_to!(entries => entries[0]));
            assert(decreases_to!(entries[0] => entries[0].value));
            assert(decreases_to!(entries => entries[0].value));
        } else {
            let rest = entries.subrange(1, entries.len() as int);
            lemma_doc_get_smaller(rest, key);
            match doc_get(entries, key) {
                Some(v) => {
                    assert(decreases_to!(entries => rest));
                    assert(decreases_to!(entries => v));
                },
                None => {},
            }
        }
    }
}

/// The operator named by the text, if recognized.
pub open spec fn binop_of_text(s: Seq<char>) -> Option<BinaryOperator> {
    if s == "Add"@ {
        Some(BinaryOperator::Add)
    } else if s == "Sub"@ {
        Some(BinaryOperator::Sub)
    } else if s == "Mul"@ {
        Some(BinaryOperator::Mul)
    } else if s == "Div"@ {
        Some(BinaryOperator::Div)
    } else {
        None
    }
}

/// The type named by the text, if recognized.
pub open spec fn typespec_of_text(s: Seq<char>) -> Option<TypeSpec> {
    if s == "i32"@ {
        Some(TypeSpec::I32)
    } else if s == "i64"@ {
        Some(TypeSpec::I64)
    } else if s == "u32"@ {
        Some(TypeSpec::U32)
    } else if s == "u64"@ {
        Some(TypeSpec::U64)
    } else if s == "String"@ {
        Some(TypeSpec::String)
    } else {
        None
    }
}

/// The exact outcome of checking a document in expression position: a bare
/// integer or a bare string is well formed; a mapping must carry a
/// recognized `op` and well-formed `left` and `right`; anything else fails.
pub open spec fn parse_expr_check(d: Doc) -> Result<(), ParseError>
    decreases d,
    via parse_expr_check_decreases
{
    match d {
        Doc::Int(_) => Ok(()),
        Doc::Text(_) => Ok(()),
        Doc::Mapping(entries) => match doc_get(entries@, "op"@) {
            None => Err(ParseError::MissingField(FieldName::Op)),
            Some(od) => match od {
                Doc::Text(s) => match binop_of_text(s@) {
                    None => Err(ParseError::UnknownOperator(s)),
                    Some(_) => match doc_get(entries@, "left"@) {
                        None => Err(ParseError::MissingField(FieldName::Left)),
                        Some(ld) => match parse_expr_check(ld) {
                            Err(e) => Err(e),
                            Ok(()) => match doc_get(entries@, "right"@) {
                                None => Err(ParseError::MissingField(FieldName::Right)),
                                Some(rd) => parse_expr_check(rd),
                            },
                        },
                    },
                },
                _ => Err(ParseError::WrongShape(FieldName::Op)),
            },
        },
        _ => Err(ParseError::WrongShape(FieldName::Expression)),
    }
}

#[via_fn]
proof fn parse_expr_check_decreases(d: Doc) {
    broadcast use vstd::std_specs::vec::group_vec_axioms;

    if let Doc::Mapping(entries) = d {
        assert(decreases_to!(d => entries));
        assert(decreases_to!(entries => entries@));
        lemma_doc_get_smaller(entries@, "left"@);
        lemma_doc_get_smaller(entries@, "right"@);
        match doc_get(entries@, "left"@) {
            Some(ld) => {
                assert(decreases_to!(d => ld));
            },
            None => {},
        }
        match doc_get(entries@, "right"@) {
            Some(rd) => {
                assert(decreases_to!(d => rd));
            },
            None => {},
        }
    }
}

/// The expression stands for exactly this document: same literal, same
/// variable name, or a binary operation whose operator and operands stand
/// for the mapping's `op`, `left` and `right` fields.
pub open spec fn expr_represents(e: Expression, d: Doc) -> bool
    decreases e,
{
    match e {
        Expression::Literal(lit) => match lit {
            Literal::Integer(v) => d == Doc::Int(v),
            Literal::String(_) => false,
        },
        Expression::Variable(name) => d == Doc::Text(name),
        Expression::BinaryOp { op, left, right } => match d {
            Doc::Mapping(entries) => {
                &&& match doc_get(entries@, "op"@) {
                    Some(Doc::Text(s)) => binop_of_text(s@) == Some(op),
                    _ => false,
                }
                &&& match doc_get(entries@, "left"@) {
                    Some(ld) => expr_represents(*left, ld),
                    None => false,
                }
                &&& match doc_get(entries@, "right"@) {
                    Some(rd) => expr_represents(*right, rd),
                    None => false,
                }
            },
            _ => false,
        },
    }
}

/// The exact outcome of checking a document in statement position: a
/// mapping whose `type` tag is `Return` with a well-formed `value`;
/// unknown tags and other shapes fail.
pub open spec fn parse_stmt_check(d: Doc) -> Result<(), ParseError> {
    match d {
        Doc::Mapping(entries) => match doc_get(entries@, "type"@) {
            None => Err(ParseError::MissingField(FieldName::StatementType)),
            Some(td) => match td {
                Doc::Text(tag) => if tag@ == "Return"@ {
                    match doc_get(entries@, "value"@) {
                        None => Err(ParseError::MissingField(FieldName::Value)),
                        Some(vd) => parse_expr_check(vd),
                    }
                } else {
                    Err(ParseError::UnknownStatementType(tag))
                },
                _ => Err(ParseError::WrongShape(FieldName::StatementType)),
            },
        },
        _ => Err(ParseError::WrongShape(FieldName::Statement)),
    }
}

/// The statement stands for exactly this document.
pub open spec fn stmt_represents(s: Statement, d: Doc) -> bool {
    match s {
        Statement::Return { value } => match d {
            Doc::Mapping(entries) => {
                &&& match doc_get(entries@, "type"@) {
                    Some(Doc::Text(tag)) => tag@ == "Return"@,
                    _ => false,
                }
                &&& match doc_get(entries@, "value"@) {
                    Some(vd) => expr_represents(value, vd),
                    None => false,
                }
            },
            _ => false,
        },
    }
}

/// The exact outcome of checking a list of action documents: each must be a
/// bare string, the first offender first.
pub open spec fn actions_check(items: Seq<Doc>) -> Result<(), ParseError>
    decreases items.len(),
{
    if items.len() == 0 {
        Ok(())
    } else {
        match actions_check(items.drop_last()) {
            Err(e) => Err(e),
            Ok(()) => match items.last() {
                Doc::Text(_) => Ok(()),
                _ => Err(ParseError::WrongShape(FieldName::Action)),
            },
        }
    }
}

/// The text a document scalar holds, where it holds one.
pub open spec fn doc_text(d: Doc) -> String {
    match d {
        Doc::Text(s) => s,
        _ => arbitrary(),
    }
}

/// The actions a well-formed action list parses to, in source order.
pub open spec fn parsed_actions(items: Seq<Doc>) -> Seq<Action> {
    items.map_values(|d: Doc| Action::Print(doc_text(d)))
}

/// The exact outcome of checking a list of statement documents.
pub open spec fn stmts_check(items: Seq<Doc>) -> Result<(), ParseError>
    decreases items.len(),
{
    if items.len() == 0 {
        Ok(())
    } else {
        match stmts_check(items.drop_last()) {
            Err(e) => Err(e),
            Ok(()) => parse_stmt_check(items.last()),
        }
    }
}

/// Each statement stands for the document at its position.
pub open spec fn stmts_represent(v: Seq<Statement>, items: Seq<Doc>) -> bool {
    v.len() == items.len() && forall|i: int|
        0 <= i < v.len() ==> stmt_represents(#[trigger] v[i], items[i])
}

/// The exact outcome of checking one parameter document: a mapping with a
/// string `name` and a recognized `type`.
pub open spec fn param_check(d: Doc) -> Result<(), ParseError> {
    match d {
        Doc::Mapping(entries) => match doc_get(entries@, "name"@) {
            None => Err(ParseError::MissingField(FieldName::ParameterName)),
            Some(nd) => match nd {
                Doc::Text(_) => match doc_get(entries@, "type"@) {
                    None => Err(ParseError::MissingField(FieldName::ParameterType)),
                    Some(td) => match td {
                        Doc::Text(tn) => match typespec_of_text(tn@) {
                            Some(_) => Ok(()),
                            None => Err(ParseError::UnknownTypeName(tn)),
                        },
                        _ => Err(ParseError::WrongShape(FieldName::ParameterType)),
                    },
                },
                _ => Err(ParseError::WrongShape(FieldName::ParameterName)),
            },
        },
        _ => Err(ParseError::WrongShape(FieldName::Parameter)),
    }
}

/// The parameter a well-formed parameter document parses to.
pub open spec fn parsed_param(d: Doc) -> Parameter {
    match d {
        Doc::Mapping(entries) => Parameter {
            name: doc_text(doc_get(entries@, "name"@)->Some_0),
            param_type: typespec_of_text(doc_text(doc_get(entries@, "type"@)->Some_0)@)->Some_0,
        },
        _ => arbitrary(),
    }
}

/// The exact outcome of checking a list of parameter documents.
pub open spec fn params_check(items: Seq<Doc>) -> Result<(), ParseError>
    decreases items.len(),
{
    if items.len() == 0 {
        Ok(())
    } else {
        match params_check(items.drop_last()) {
            Err(e) => Err(e),
            Ok(()) => param_check(items.last()),
        }
    }
}

/// The parameters a well-formed parameter list parses to, in source order.
pub open spec fn parsed_params(items: Seq<Doc>) -> Seq<Parameter> {
    items.map_values(|d: Doc| parsed_param(d))
}

/// The exact outcome of checking a mapping's `name` field: required, and a
/// bare string.
pub open spec fn name_check(entries: Seq<DocEntry>) -> Result<(), ParseError> {
    match doc_get(entries, "name"@) {
        None => Err(ParseError::MissingField(FieldName::Name)),
        Some(nd) => match nd {
            Doc::Text(_) => Ok(()),
            _ => Err(ParseError::WrongShape(FieldName::Name)),
        },
    }
}

/// The parsed `name` field of a well-formed mapping.
pub open spec fn parsed_name(entries: Seq<DocEntry>) -> String {
    doc_text(doc_get(entries, "name"@)->Some_0)
}

/// The exact outcome of checking a mapping's optional `description` field:
/// absent or null is fine, otherwise it must be a bare string.
pub open spec fn desc_check(entries: Seq<DocEntry>) -> Result<(), ParseError> {
    match doc_get(entries, "description"@) {
        None => Ok(()),
        Some(dd) => match dd {
            Doc::Null => Ok(()),
            Doc::Text(_) => Ok(()),
            _ => Err(ParseError::WrongShape(FieldName::Description)),
        },
    }
}

/// The parsed `description` field of a well-formed mapping.
pub open spec fn parsed_desc(entries: Seq<DocEntry>) -> Option<String> {
    match doc_get(entries, "description"@) {
        None => None,
        Some(dd) => match dd {
            Doc::Text(s) => Some(s),
            _ => None,
        },
    }
}

/// The exact outcome of interpreting a document as a program template:
/// a mapping with a string `name`, an optional string `description`, and a
/// list `actions` of bare strings.
pub open spec fn program_check(d: Doc) -> Result<(), ParseError> {
    match d {
        Doc::Mapping(entries) => match name_check(entries@) {
            Err(e) => Err(e),
            Ok(()) => match desc_check(entries@) {
                Err(e) => Err(e),
                Ok(()) => match doc_get(entries@, "actions"@) {
                    None => Err(ParseError::MissingField(FieldName::Actions)),
                    Some(ad) => match ad {
                        Doc::List(items) => actions_check(items@),
                        _ => Err(ParseError::WrongShape(FieldName::Actions)),
                    },
                },
            },
        },
        _ => Err(ParseError::WrongShape(FieldName::Template)),
    }
}

/// The action documents of a program mapping.
pub open spec fn program_action_items(d: Doc) -> Seq<Doc> {
    match doc_get(d->Mapping_0@, "actions"@)->Some_0 {
        Doc::List(items) => items@,
        _ => arbitrary(),
    }
}

/// The exact outcome of checking a function's optional `inputs` field:
/// absent means no parameters, otherwise a list of parameter mappings.
pub open spec fn inputs_check(entries: Seq<DocEntry>) -> Result<(), ParseError> {
    match doc_get(entries, "inputs"@) {
        None => Ok(()),
        Some(id) => match id {
            Doc::List(items) => params_check(items@),
            _ => Err(ParseError::WrongShape(FieldName::Inputs)),
        },
    }
}

/// The parsed `inputs` field of a well-formed function mapping.
pub open spec fn parsed_inputs(entries: Seq<DocEntry>) -> Seq<Parameter> {
    match doc_get(entries, "inputs"@) {
        None => Seq::empty(),
        Some(id) => match id {
            Doc::List(items) => parsed_params(items@),
            _ => arbitrary(),
        },
    }
}

/// The exact outcome of checking a function's optional `output` field:
/// absent or null means none, otherwise a recognized type name.
pub open spec fn output_check(entries: Seq<DocEntry>) -> Result<(), ParseError> {
    match doc_get(entries, "output"@) {
        None => Ok(()),
        Some(od) => match od {
            Doc::Null => Ok(()),
            Doc::Text(tn) => match typespec_of_text(tn@) {
                Some(_) => Ok(()),
                None => Err(ParseError::UnknownTypeName(tn)),
            },
            _ => Err(ParseError::WrongShape(FieldName::Output)),
        },
    }
}

/// The parsed `output` field of a well-formed function mapping.
pub open spec fn parsed_output(entries: Seq<DocEntry>) -> Option<TypeSpec> {
    match doc_get(entries, "output"@) {
        None => None,
        Some(od) => match od {
            Doc::Text(tn) => typespec_of_text(tn@),
            _ => None,
        },
    }
}

/// The exact outcome of interpreting a document as a function template:
/// a mapping with a string `name`, optional `description`, `inputs` and
/// `output`, and a required `implementation` list of statements.
pub open spec fn function_check(d: Doc) -> Result<(), ParseError> {
    match d {
        Doc::Mapping(entries) => match name_check(entries@) {
            Err(e) => Err(e),
            Ok(()) => match desc_check(entries@) {
                Err(e) => Err(e),
                Ok(()) => match inputs_check(entries@) {
                    Err(e) => Err(e),
                    Ok(()) => match output_check(entries@) {
                        Err(e) => Err(e),
                        Ok(()) => match doc_get(entries@, "implementation"@) {
                            None => Err(ParseError::MissingField(FieldName::Implementation)),
                            Some(id) => match id {
                                Doc::List(items) => stmts_check(items@),
                                _ => Err(ParseError::WrongShape(FieldName::Implementation)),
                            },
                        },
                    },
                },
            },
        },
        _ => Err(ParseError::WrongShape(FieldName::Template)),
    }
}

/// The statement documents of a function mapping.
pub open spec fn function_stmt_items(d: Doc) -> Seq<Doc> {
    match doc_get(d->Mapping_0@, "implementation"@)->Some_0 {
        Doc::List(items) => items@,
        _ => arbitrary(),
    }
}

/// The exact outcome of the whole trial order: a document that checks as a
/// program parses as one; otherwise it must check as a function, whose
/// error is the one reported.
pub open spec fn template_check(d: Doc) -> Result<(), ParseError> {
    match program_check(d) {
        Ok(()) => Ok(()),
        Err(_) => function_check(d),
    }
}

/// The parsed program template stands for the document.
pub open spec fn program_represents(p: ProgramTemplate, d: Doc) -> bool {
    &&& program_check(d) is Ok
    &&& p.name == parsed_name(d->Mapping_0@)
    &&& p.description == parsed_desc(d->Mapping_0@)
    &&& p.actions@ == parsed_actions(program_action_items(d))
}

/// The parsed function template stands for the document.
pub open spec fn function_represents(f: FunctionTemplate, d: Doc) -> bool {
    &&& function_check(d) is Ok
    &&& f.name == parsed_name(d->Mapping_0@)
    &&& f.description == parsed_desc(d->Mapping_0@)
    &&& f.inputs@ == parsed_inputs(d->Mapping_0@)
    &&& f.output == parsed_output(d->Mapping_0@)
    &&& stmts_represent(f.implementation@, function_stmt_items(d))
}

/// The parsed template stands for the document under the trial order.
pub open spec fn template_represents(t: Template, d: Doc) -> bool {
    match t {
        Template::Program(p) => program_represents(p, d),
        Template::Function(f) => program_check(d) is Err && function_represents(f, d),
    }
}

fn map_get<'a>(entries: &'a Vec<DocEntry>, key: &str) -> (r: Option<&'a Doc>)
    ensures
        match r {
            Some(v) => doc_get(entries@, key@) == Some(*v),
            None => doc_get(entries@, key@) is None,
        },
{
    let mut i: usize = 0;
    proof {
        assert(entries@.subrange(0, entries@.len() as int) =~= entries@);
    }
    while i < entries.len()
        invariant
            i <= entries@.len(),
            doc_get(entries@, key@) == doc_get(
                entries@.subrange(i as int, entries@.len() as int),
                key@,
            ),
        decreases entries@.len() - i,
    {
        if str_eq(entries[i].key.as_str(), key) {
            proof {
                let tail = entries@.subrange(i as int, entries@.len() as int);
                assert(tail[0] == entries@[i as int]);
                assert(doc_get(tail, key@) == Some(entries@[i as int].value));
            }
            return Some(&entries[i].value);
        }
        proof {
            let tail = entries@.subrange(i as int, entries@.len() as int);
            assert(tail[0] == entries@[i as int]);
            assert(tail.subrange(1, tail.len() as int) =~= entries@.subrange(
                i + 1,
                entries@.len() as int,
            ));
        }
        i = i + 1;
    }
    proof {
        assert(entries@.subrange(entries@.len() as int, entries@.len() as int).len() == 0);
    }
    None
}

fn parse_binop(s: &String) -> (r: Option<BinaryOperator>)
    ensures
        r == binop_of_text(s@),
{
    if str_eq(s.as_str(), "Add") {
        Some(BinaryOperator::Add)
    } else if str_eq(s.as_str(), "Sub") {
        Some(BinaryOperator::Sub)
    } else if str_eq(s.as_str(), "Mul") {
        Some(BinaryOperator::Mul)
    } else if str_eq(s.as_str(), "Div") {
        Some(BinaryOperator::Div)
    } else {
        None
    }
}

fn parse_typespec(s: &String) -> (r: Option<TypeSpec>)
    ensures
        r == typespec_of_text(s@),
{
    if str_eq(s.as_str(), "i32") {
        Some(TypeSpec::I32)
    } else if str_eq(s.as_str(), "i64") {
        Some(TypeSpec::I64)
    } else if str_eq(s.as_str(), "u32") {
        Some(TypeSpec::U32)
    } else if str_eq(s.as_str(), "u64") {
        Some(TypeSpec::U64)
    } else if str_eq(s.as_str(), "String") {
        Some(TypeSpec::String)
    } else {
        None
    }
}

/// Law: a document stands for at most one expression, so the trial order
/// is deterministic: two expressions that both represent the same document
/// are equal.
pub proof fn lemma_expr_represents_unique(e1: Expression, e2: Expression, d: Doc)
    requires
        expr_represents(e1, d),
        expr_represents(e2, d),
    ensures
        e1 == e2,
    decreases e1,
{
    match e1 {
        Expression::Literal(_) => {}
        Expression::Variable(_) => {}
        Expression::BinaryOp { op: op1, left: l1, right: r1 } => match e2 {
            Expression::BinaryOp { op: op2, left: l2, right: r2 } => {
                match d {
                    Doc::Mapping(entries) => {
                        match doc_get(entries@, "left"@) {
                            Some(ld) => {
                                lemma_expr_represents_unique(*l1, *l2, ld);
                            },
                            None => {},
                        }
                        match doc_get(entries@, "right"@) {
                            Some(rd) => {
                                lemma_expr_represents_unique(*r1, *r2, rd);
                            },
                            None => {},
                        }
                    },
                    _ => {},
                }
            },
            _ => {},
        },
    }
}

/// Parses a document in expression position, by the fixed trial order.
pub fn parse_expression(d: &Doc) -> (r: Result<Expression, ParseError>)
    ensures
        match r {
            Ok(e) => parse_expr_check(*d) is Ok && expr_represents(e, *d),
            Err(pe) => parse_expr_check(*d) == Err::<(), ParseError>(pe),
        },
    decreases *d,
{
    match d {
        Doc::Int(v) => Ok(Expression::Literal(Literal::Integer(*v))),
        Doc::Text(s) => Ok(Expression::Variable(s.clone())),
        Doc::Mapping(entries) => {
            let od = match map_get(entries, "op") {
                None => {
                    return Err(ParseError::MissingField(FieldName::Op));
                },
                Some(v) => v,
            };
            let op = match od {
                Doc::Text(s) => match parse_binop(s) {
                    None => {
                        return Err(ParseError::UnknownOperator(s.clone()));
                    },
                    Some(op) => op,
                },
                _ => {
                    return Err(ParseError::WrongShape(FieldName::Op));
                },
            };
            let ld = match map_get(entries, "left") {
                None => {
                    return Err(ParseError::MissingField(FieldName::Left));
                },
                Some(v) => v,
            };
            proof {
                broadcast use vstd::std_specs::vec::group_vec_axioms;

                assert(decreases_to!(*d => *entries));
                assert(decreases_to!(*entries => entries@));
                lemma_doc_get_smaller(entries@, "left"@);
                lemma_doc_get_smaller(entries@, "right"@);
                assert(decreases_to!(*d => *ld));
            }
            let left = match parse_expression(ld) {
                Err(e) => {
                    return Err(e);
                },
                Ok(e) => e,
            };
            let rd = match map_get(entries, "right") {
                None => {
                    return Err(ParseError::MissingField(FieldName::Right));
                },
                Some(v) => v,
            };
            proof {
                assert(decreases_to!(*d => *rd));
            }
            let right = match parse_expression(rd) {
                Err(e) => {
                    return Err(e);
                },
                Ok(e) => e,
            };
            Ok(Expression::BinaryOp { op, left: Box::new(left), right: Box::new(right) })
        },
        _ => Err(ParseError::WrongShape(FieldName::Expression)),
    }
}

/// Parses a document in statement position: a mapping tagged `type:
/// Return` with a `value` expression.
pub fn parse_statement(d: &Doc) -> (r: Result<Statement, ParseError>)
    ensures
        match r {
            Ok(s) => parse_stmt_check(*d) is Ok && stmt_represents(s, *d),
            Err(pe) => parse_stmt_check(*d) == Err::<(), ParseError>(pe),
        },
{
    match d {
        Doc::Mapping(entries) => {
            let td = match map_get(entries, "type") {
                None => {
                    return Err(ParseError::MissingField(FieldName::StatementType));
                },
                Some(v) => v,
            };
            let tag = match td {
                Doc::Text(tag) => tag,
                _ => {
                    return Err(ParseError::WrongShape(FieldName::StatementType));
                },
            };
            if !str_eq(tag.as_str(), "Return") {
                return Err(ParseError::UnknownStatementType(tag.clone()));
            }
            let vd = match map_get(entries, "value") {
                None => {
                    return Err(ParseError::MissingField(FieldName::Value));
                },
                Some(v) => v,
            };
            match parse_expression(vd) {
                Err(e) => Err(e),
                Ok(value) => Ok(Statement::Return { value }),
            }
        },
        _ => Err(ParseError::WrongShape(FieldName::Statement)),
    }
}

fn parse_actions(items: &Vec<Doc>) -> (r: Result<Vec<Action>, ParseError>)
    ensures
        match r {
            Ok(v) => actions_check(items@) is Ok && v@ == parsed_actions(items@),
            Err(pe) => actions_check(items@) == Err::<(), ParseError>(pe),
        },
{
    let mut out: Vec<Action> = Vec::new();
    let mut i: usize = 0;
    while i < items.len()
        invariant
            i <= items@.len(),
            actions_check(items@.take(i as int)) is Ok,
            out@ == parsed_actions(items@.take(i as int)),
        decreases items@.len() - i,
    {
        match &items[i] {
            Doc::Text(s) => {
                out.push(Action::Print(s.clone()));
            },
            _ => {
                proof {
                    lemma_list_check_err_action(items@, i as int);
                }
                return Err(ParseError::WrongShape(FieldName::Action));
            },
        }
        proof {
            assert(items@.take(i + 1).drop_last() =~= items@.take(i as int));
            assert(items@.take(i + 1).last() == items@[i as int]);
            assert(out@ =~= parsed_actions(items@.take(i + 1)));
        }
        i = i + 1;
    }
    proof {
        assert(items@.take(items@.len() as int) =~= items@);
    }
    Ok(out)
}

proof fn lemma_list_check_err_action(items: Seq<Doc>, i: int)
    requires
        0 <= i < items.len(),
        actions_check(items.take(i)) is Ok,
        !(items[i] is Text),
    ensures
        actions_check(items) == Err::<(), ParseError>(ParseError::WrongShape(FieldName::Action)),
    decreases items.len(),
{
    if items.len() - 1 == i {
        assert(items.drop_last() =~= items.take(i));
    } else {
        assert(items.drop_last().take(i) =~= items.take(i));
        assert(items.drop_last()[i] == items[i]);
        lemma_list_check_err_action(items.drop_last(), i);
    }
}

proof fn lemma_stmts_check_err(items: Seq<Doc>, i: int)
    requires
        0 <= i < items.len(),
        stmts_check(items.take(i)) is Ok,
        parse_stmt_check(items[i]) is Err,
    ensures
        stmts_check(items) == parse_stmt_check(items[i]),
    decreases items.len(),
{
    if items.len() - 1 == i {
        assert(items.drop_last() =~= items.take(i));
    } else {
        assert(items.drop_last().take(i) =~= items.take(i));
        assert(items.drop_last()[i] == items[i]);
        lemma_stmts_check_err(items.drop_last(), i);
    }
}

proof fn lemma_params_check_err(items: Seq<Doc>, i: int)
    requires
        0 <= i < items.len(),
        params_check(items.take(i)) is Ok,
        param_check(items[i]) is Err,
    ensures
        params_check(items) == param_check(items[i]),
    decreases items.len(),
{
    if items.len() - 1 == i {
        assert(items.drop_last() =~= items.take(i));
    } else {
        assert(items.drop_last().take(i) =~= items.take(i));
        assert(items.drop_last()[i] == items[i]);
        lemma_params_check_err(items.drop_last(), i);
    }
}

fn parse_statements(items: &Vec<Doc>) -> (r: Result<Vec<Statement>, ParseError>)
    ensures
        match r {
            Ok(v) => stmts_check(items@) is Ok && stmts_represent(v@, items@),
            Err(pe) => stmts_check(items@) == Err::<(), ParseError>(pe),
        },
{
    let mut out: Vec<Statement> = Vec::new();
    let mut i: usize = 0;
    while i < items.len()
        invariant
            i <= items@.len(),
            stmts_check(items@.take(i as int)) is Ok,
            out@.len() == i,
            forall|k: int| 0 <= k < i ==> stmt_represents(#[trigger] out@[k], items@[k]),
        decreases items@.len() - i,
    {
        match parse_statement(&items[i]) {
            Ok(s) => {
                out.push(s);
            },
            Err(e) => {
                proof {
                    lemma_stmts_check_err(items@, i as int);
                }
                return Err(e);
            },
        }
        proof {
            assert(items@.take(i + 1).drop_last() =~= items@.take(i as int));
            assert(items@.take(i + 1).last() == items@[i as int]);
        }
        i = i + 1;
    }
    proof {
        assert(items@.take(items@.len() as int) =~= items@);
    }
    Ok(out)
}

fn parse_parameter(d: &Doc) -> (r: Result<Parameter, ParseError>)
    ensures
        match r {
            Ok(p) => param_check(*d) is Ok && p == parsed_param(*d),
            Err(pe) => param_check(*d) == Err::<(), ParseError>(pe),
        },
{
    match d {
        Doc::Mapping(entries) => {
            let nd = match map_get(entries, "name") {
                None => {
                    return Err(ParseError::MissingField(FieldName::ParameterName));
                },
                Some(v) => v,
            };
            let name = match nd {
                Doc::Text(s) => s.clone(),
                _ => {
                    return Err(ParseError::WrongShape(FieldName::ParameterName));
                },
            };
            let td = match map_get(entries, "type") {
                None => {
                    return Err(ParseError::MissingField(FieldName::ParameterType));
                },
                Some(v) => v,
            };
            match td {
                Doc::Text(tn) => match parse_typespec(tn) {
                    Some(param_type) => Ok(Parameter { name, param_type }),
                    None => Err(ParseError::UnknownTypeName(tn.clone())),
                },
                _ => Err(ParseError::WrongShape(FieldName::ParameterType)),
            }
        },
        _ => Err(ParseError::WrongShape(FieldName::Parameter)),
    }
}

fn parse_parameters(items: &Vec<Doc>) -> (r: Result<Vec<Parameter>, ParseError>)
    ensures
        match r {
            Ok(v) => params_check(items@) is Ok && v@ == parsed_params(items@),
            Err(pe) => params_check(items@) == Err::<(), ParseError>(pe),
        },
{
    let mut out: Vec<Parameter> = Vec::new();
    let mut i: usize = 0;
    while i < items.len()
        invariant
            i <= items@.len(),
            params_check(items@.take(i as int)) is Ok,
            out@ == parsed_params(items@.take(i as int)),
        decreases items@.len() - i,
    {
        match parse_parameter(&items[i]) {
            Ok(p) => {
                out.push(p);
            },
            Err(e) => {
                proof {
                    lemma_params_check_err(items@, i as int);
                }
                return Err(e);
            },
        }
        proof {
            assert(items@.take(i + 1).drop_last() =~= items@.take(i as int));
            assert(items@.take(i + 1).last() == items@[i as int]);
            assert(out@ =~= parsed_params(items@.take(i + 1)));
        }
        i = i + 1;
    }
    proof {
        assert(items@.take(items@.len() as int) =~= items@);
    }
    Ok(out)
}

fn parse_name(entries: &Vec<DocEntry>) -> (r: Result<String, ParseError>)
    ensures
        match r {
            Ok(s) => name_check(entries@) is Ok && s == parsed_name(entries@),
            Err(pe) => name_check(entries@) == Err::<(), ParseError>(pe),
        },
{
    match map_get(entries, "name") {
        None => Err(ParseError::MissingField(FieldName::Name)),
        Some(nd) => match nd {
            Doc::Text(s) => Ok(s.clone()),
            _ => Err(ParseError::WrongShape(FieldName::Name)),
        },
    }
}

fn parse_description(entries: &Vec<DocEntry>) -> (r: Result<Option<String>, ParseError>)
    ensures
        match r {
            Ok(o) => desc_check(entries@) is Ok && o == parsed_desc(entries@),
            Err(pe) => desc_check(entries@) == Err::<(), ParseError>(pe),
        },
{
    match map_get(entries, "description") {
        None => Ok(None),
        Some(dd) => match dd {
            Doc::Null => Ok(None),
            Doc::Text(s) => Ok(Some(s.clone())),
            _ => Err(ParseError::WrongShape(FieldName::Description)),
        },
    }
}

/// Interprets a document as a program template.
pub fn parse_program(d: &Doc) -> (r: Result<ProgramTemplate, ParseError>)
    ensures
        match r {
            Ok(p) => program_represents(p, *d),
            Err(pe) => program_check(*d) == Err::<(), ParseError>(pe),
        },
{
    match d {
        Doc::Mapping(entries) => {
            let name = match parse_name(entries) {
                Err(e) => {
                    return Err(e);
                },
                Ok(n) => n,
            };
            let description = match parse_description(entries) {
                Err(e) => {
                    return Err(e);
                },
                Ok(o) => o,
            };
            let ad = match map_get(entries, "actions") {
                None => {
                    return Err(ParseError::MissingField(FieldName::Actions));
                },
                Some(v) => v,
            };
            match ad {
                Doc::List(items) => match parse_actions(items) {
                    Err(e) => Err(e),
                    Ok(actions) => Ok(ProgramTemplate { name, description, actions }),
                },
                _ => Err(ParseError::WrongShape(FieldName::Actions)),
            }
        },
        _ => Err(ParseError::WrongShape(FieldName::Template)),
    }
}

/// Interprets a document as a function template.
pub fn parse_function(d: &Doc) -> (r: Result<FunctionTemplate, ParseError>)
    ensures
        match r {
            Ok(f) => function_represents(f, *d),
            Err(pe) => function_check(*d) == Err::<(), ParseError>(pe),
        },
{
    match d {
        Doc::Mapping(entries) => {
            let name = match parse_name(entries) {
                Err(e) => {
                    return Err(e);
                },
                Ok(n) => n,
            };
            let description = match parse_description(entries) {
                Err(e) => {
                    return Err(e);
                },
                Ok(o) => o,
            };
            let inputs = match map_get(entries, "inputs") {
                None => Vec::new(),
                Some(id) => match id {
                    Doc::List(items) => match parse_parameters(items) {
                        Err(e) => {
                            return Err(e);
                        },
                        Ok(v) => v,
                    },
                    _ => {
                        return Err(ParseError::WrongShape(FieldName::Inputs));
                    },
                },
            };
            let output = match map_get(entries, "output") {
                None => None,
                Some(od) => match od {
                    Doc::Null => None,
                    Doc::Text(tn) => match parse_typespec(tn) {
                        Some(t) => Some(t),
                        None => {
                            return Err(ParseError::UnknownTypeName(tn.clone()));
                        },
                    },
                    _ => {
                        return Err(ParseError::WrongShape(FieldName::Output));
                    },
                },
            };
            let id = match map_get(entries, "implementation") {
                None => {
                    return Err(ParseError::MissingField(FieldName::Implementation));
                },
                Some(v) => v,
            };
            match id {
                Doc::List(items) => match parse_statements(items) {
                    Err(e) => Err(e),
                    Ok(implementation) => Ok(
                        FunctionTemplate { name, description, inputs, output, implementation },
                    ),
                },
                _ => Err(ParseError::WrongShape(FieldName::Implementation)),
            }
        },
        _ => Err(ParseError::WrongShape(FieldName::Template)),
    }
}

/// Parses a document as a template by the fixed trial order: first as a
/// program (which succeeds only when a well-formed `actions` field is
/// present), otherwise as a function (which requires `implementation`);
/// when both trials fail, the function trial's error is reported.
pub fn parse_template(d: &Doc) -> (r: Result<Template, ParseError>)
    ensures
        match r {
            Ok(t) => template_check(*d) is Ok && template_represents(t, *d),
            Err(pe) => template_check(*d) == Err::<(), ParseError>(pe),
        },
{
    match parse_program(d) {
        Ok(p) => Ok(Template::Program(p)),
        Err(_) => match parse_function(d) {
            Ok(f) => Ok(Template::Function(f)),
            Err(e) => Err(e),
        },
    }
}

} // verus!

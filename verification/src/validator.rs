//! Semantic well-formedness checks over the syntax tree: a pure, read-only
//! pass that returns the first rule violation found, in a fixed order.

use vstd::prelude::*;
use crate::ast::Action;
use crate::ast::Expression;
use crate::ast::FunctionTemplate;
use crate::ast::Parameter;
use crate::ast::ProgramTemplate;
use crate::ast::Statement;
use crate::ast::Template;

verus! {

/// Whether the character counts as alphanumeric under Unicode.
pub uninterp spec fn is_unicode_alphanumeric(c: char) -> bool;

/// Relies on `char::is_alphanumeric`: whether the character is in one of the
/// Unicode alphanumeric categories, a function of the character alone.
#[verifier::external_body]
fn char_alphanumeric(c: char) -> (b: bool)
    ensures
        b == is_unicode_alphanumeric(c),
{
    c.is_alphanumeric()
}

/// A character allowed in a template name.
pub open spec fn ident_char_ok(c: char) -> bool {
    is_unicode_alphanumeric(c) || c == '_'
}

/// All characters of `s` are allowed in a name.
pub open spec fn all_ident_chars(s: Seq<char>) -> bool {
    forall|i: int| 0 <= i < s.len() ==> ident_char_ok(s[i])
}

/// A well-formed name: non-empty, alphanumeric or underscore throughout.
pub open spec fn name_ok(s: Seq<char>) -> bool {
    s.len() > 0 && all_ident_chars(s)
}

/// Semantic rule violations, each carrying the offending identifier where
/// one exists.
#[derive(Debug)]
pub enum ValidationError {
    EmptyProgramName,
    InvalidProgramName(String),
    NoActions,
    EmptyFunctionName,
    InvalidFunctionName(String),
    EmptyImplementation,
    DuplicateParameter(String),
}

/// The wording of each rule violation.
pub open spec fn validation_message(e: ValidationError) -> Seq<char> {
    match e {
        ValidationError::EmptyProgramName => "Program name cannot be empty"@,
        ValidationError::InvalidProgramName(n) => "Program name must be a valid identifier: '"@
            + n@ + "'"@,
        ValidationError::NoActions => "Program must have at least one action"@,
        ValidationError::EmptyFunctionName => "Function name cannot be empty"@,
        ValidationError::InvalidFunctionName(n) => "Function name must be a valid identifier: '"@
            + n@ + "'"@,
        ValidationError::EmptyImplementation => "Function must have at least one statement in implementation"@,
        ValidationError::DuplicateParameter(n) => "Duplicate parameter name: '"@ + n@ + "'"@,
    }
}

impl ValidationError {
    /// A description naming the exact rule violated and, where one exists,
    /// the offending identifier.
    pub fn message(&self) -> (r: String)
        ensures
            r@ == validation_message(*self),
    {
        match self {
            ValidationError::EmptyProgramName => String::from_str("Program name cannot be empty"),
            ValidationError::InvalidProgramName(n) => {
                let mut s = String::from_str("Program name must be a valid identifier: '");
                s.append(n.as_str());
                s.append("'");
                s
            }
            ValidationError::NoActions => String::from_str("Program must have at least one action"),
            ValidationError::EmptyFunctionName => String::from_str(
                "Function name cannot be empty",
            ),
            ValidationError::InvalidFunctionName(n) => {
                let mut s = String::from_str("Function name must be a valid identifier: '");
                s.append(n.as_str());
                s.append("'");
                s
            }
            ValidationError::EmptyImplementation => String::from_str(
                "Function must have at least one statement in implementation",
            ),
            ValidationError::DuplicateParameter(n) => {
                let mut s = String::from_str("Duplicate parameter name: '");
                s.append(n.as_str());
                s.append("'");
                s
            }
        }
    }
}

/// Parameter `j` repeats the name of some parameter before it.
pub open spec fn has_earlier_dup(params: Seq<Parameter>, j: int) -> bool {
    exists|i: int| 0 <= i < j && params[i].name@ == params[j].name@
}

/// The name of the first parameter that repeats an earlier one, scanning
/// from position `j` on.
pub open spec fn first_dup_from(params: Seq<Parameter>, j: int) -> Option<String>
    decreases params.len() - j,
    when 0 <= j <= params.len()
{
    if j >= params.len() {
        None
    } else if has_earlier_dup(params, j) {
        Some(params[j].name)
    } else {
        first_dup_from(params, j + 1)
    }
}

/// The name of the first duplicated parameter, if any.
pub open spec fn first_dup(params: Seq<Parameter>) -> Option<String> {
    first_dup_from(params, 0)
}

/// All parameter names are pairwise distinct.
pub open spec fn params_distinct(params: Seq<Parameter>) -> bool {
    forall|i: int, j: int| 0 <= i < j < params.len() ==> params[i].name@ != params[j].name@
}

/// The exact result of validating a program template, first failure first.
pub open spec fn spec_validate_program(p: ProgramTemplate) -> Result<(), ValidationError> {
    if p.name@.len() == 0 {
        Err(ValidationError::EmptyProgramName)
    } else if !all_ident_chars(p.name@) {
        Err(ValidationError::InvalidProgramName(p.name))
    } else if p.actions@.len() == 0 {
        Err(ValidationError::NoActions)
    } else {
        Ok(())
    }
}

/// The exact result of validating a function template, first failure first.
pub open spec fn spec_validate_function(f: FunctionTemplate) -> Result<(), ValidationError> {
    if f.name@.len() == 0 {
        Err(ValidationError::EmptyFunctionName)
    } else if !all_ident_chars(f.name@) {
        Err(ValidationError::InvalidFunctionName(f.name))
    } else if f.implementation@.len() == 0 {
        Err(ValidationError::EmptyImplementation)
    } else {
        match first_dup(f.inputs@) {
            Some(name) => Err(ValidationError::DuplicateParameter(name)),
            None => Ok(()),
        }
    }
}

/// The exact result of validating a template.
pub open spec fn spec_validate_template(t: Template) -> Result<(), ValidationError> {
    match t {
        Template::Program(p) => spec_validate_program(p),
        Template::Function(f) => spec_validate_function(f),
    }
}

/// Declarative well-formedness of a program template.
pub open spec fn program_valid(p: ProgramTemplate) -> bool {
    name_ok(p.name@) && p.actions@.len() > 0
}

/// Declarative well-formedness of a function template.
pub open spec fn function_valid(f: FunctionTemplate) -> bool {
    name_ok(f.name@) && f.implementation@.len() > 0 && params_distinct(f.inputs@)
}

/// Declarative well-formedness of a template.
pub open spec fn template_valid(t: Template) -> bool {
    match t {
        Template::Program(p) => program_valid(p),
        Template::Function(f) => function_valid(f),
    }
}

fn chars_all_ident(s: &String) -> (b: bool)
    ensures
        b == all_ident_chars(s@),
{
    let st = s.as_str();
    let n = st.unicode_len();
    let mut i: usize = 0;
    while i < n
        invariant
            st@ == s@,
            n == s@.len(),
            i <= n,
            forall|k: int| 0 <= k < i ==> ident_char_ok(s@[k]),
        decreases n - i,
    {
        let c = st.get_char(i);
        if !(char_alphanumeric(c) || c == '_') {
            proof {
                assert(!ident_char_ok(s@[i as int]));
            }
            return false;
        }
        i = i + 1;
    }
    true
}

/// Validates one action; every print action is well formed, an empty
/// message included.
pub fn validate_action(action: &Action) -> (r: Result<(), ValidationError>)
    ensures
        r == Ok::<(), ValidationError>(()),
{
    match action {
        Action::Print(_) => Ok(()),
    }
}

/// Validates an expression by walking every nested node; currently a
/// structural no-op, so the walk always succeeds.
pub fn validate_expression(expr: &Expression) -> (r: Result<(), ValidationError>)
    ensures
        r == Ok::<(), ValidationError>(()),
    decreases *expr,
{
    match expr {
        Expression::Literal(_) => Ok(()),
        Expression::Variable(_) => Ok(()),
        Expression::BinaryOp { left, right, .. } => {
            let rl = validate_expression(left);
            match rl {
                Ok(()) => {}
                Err(e) => {
                    return Err(e);
                }
            }
            let rr = validate_expression(right);
            match rr {
                Ok(()) => {}
                Err(e) => {
                    return Err(e);
                }
            }
            Ok(())
        }
    }
}

/// Validates one statement by walking its expressions.
pub fn validate_statement(stmt: &Statement) -> (r: Result<(), ValidationError>)
    ensures
        r == Ok::<(), ValidationError>(()),
{
    match stmt {
        Statement::Return { value } => validate_expression(value),
    }
}

/// Validates a program template: non-empty identifier name, at least one
/// action, and each action well formed.
#[verifier::loop_isolation(false)]
pub fn validate_program(prog: &ProgramTemplate) -> (r: Result<(), ValidationError>)
    ensures
        r == spec_validate_program(*prog),
        r is Ok <==> program_valid(*prog),
{
    if prog.name.as_str().is_empty() {
        return Err(ValidationError::EmptyProgramName);
    }
    if !chars_all_ident(&prog.name) {
        return Err(ValidationError::InvalidProgramName(prog.name.clone()));
    }
    if prog.actions.len() == 0 {
        return Err(ValidationError::NoActions);
    }
    let mut i: usize = 0;
    while i < prog.actions.len()
        invariant
            i <= prog.actions@.len(),
        decreases prog.actions@.len() - i,
    {
        match validate_action(&prog.actions[i]) {
            Ok(()) => {}
            Err(e) => {
                return Err(e);
            }
        }
        i = i + 1;
    }
    Ok(())
}

proof fn lemma_first_dup_found(params: Seq<Parameter>, k: int, j: int)
    requires
        0 <= k <= j < params.len(),
        forall|jj: int| k <= jj < j ==> !has_earlier_dup(params, jj),
        has_earlier_dup(params, j),
    ensures
        first_dup_from(params, k) == Some(params[j].name),
    decreases j - k,
{
    if k < j {
        lemma_first_dup_found(params, k + 1, j);
    }
}

proof fn lemma_first_dup_none(params: Seq<Parameter>, k: int)
    requires
        0 <= k <= params.len(),
        forall|jj: int| k <= jj < params.len() ==> !has_earlier_dup(params, jj),
    ensures
        first_dup_from(params, k) == None::<String>,
    decreases params.len() - k,
{
    if k < params.len() {
        lemma_first_dup_none(params, k + 1);
    }
}

/// Validates a function template: non-empty identifier name, a non-empty
/// implementation, pairwise distinct parameter names (the first duplicate is
/// reported by name), and a walk over every statement.
#[verifier::loop_isolation(false)]
pub fn validate_function(func: &FunctionTemplate) -> (r: Result<(), ValidationError>)
    ensures
        r == spec_validate_function(*func),
        r is Ok <==> function_valid(*func),
{
    if func.name.as_str().is_empty() {
        return Err(ValidationError::EmptyFunctionName);
    }
    if !chars_all_ident(&func.name) {
        return Err(ValidationError::InvalidFunctionName(func.name.clone()));
    }
    if func.implementation.len() == 0 {
        return Err(ValidationError::EmptyImplementation);
    }
    let n = func.inputs.len();
    let mut j: usize = 0;
    while j < n
        invariant
            n == func.inputs@.len(),
            j <= n,
            forall|jj: int| 0 <= jj < j ==> !has_earlier_dup(func.inputs@, jj),
        decreases n - j,
    {
        let mut i: usize = 0;
        while i < j
            invariant
                n == func.inputs@.len(),
                i <= j < n,
                forall|jj: int| 0 <= jj < j ==> !has_earlier_dup(func.inputs@, jj),
                forall|ii: int| 0 <= ii < i ==> func.inputs@[ii].name@ != func.inputs@[j as int].name@,
            decreases j - i,
        {
            if func.inputs[i].name == func.inputs[j].name {
                proof {
                    assert(func.inputs@[i as int].name@ == func.inputs@[j as int].name@);
                    assert(has_earlier_dup(func.inputs@, j as int));
                    lemma_first_dup_found(func.inputs@, 0, j as int);
                    assert(first_dup(func.inputs@) == Some(func.inputs@[j as int].name));
                    assert(!params_distinct(func.inputs@));
                }
                return Err(ValidationError::DuplicateParameter(func.inputs[j].name.clone()));
            }
            i = i + 1;
        }
        proof {
            assert(!has_earlier_dup(func.inputs@, j as int));
        }
        j = j + 1;
    }
    proof {
        lemma_first_dup_none(func.inputs@, 0);
        assert forall|i: int, j2: int|
            0 <= i < j2 < func.inputs@.len() implies func.inputs@[i].name@ != func.inputs@[j2].name@ by {
            assert(!has_earlier_dup(func.inputs@, j2));
        }
    }
    let mut s: usize = 0;
    while s < func.implementation.len()
        invariant
            s <= func.implementation@.len(),
        decreases func.implementation@.len() - s,
    {
        match validate_statement(&func.implementation[s]) {
            Ok(()) => {}
            Err(e) => {
                return Err(e);
            }
        }
        s = s + 1;
    }
    Ok(())
}

/// Validates a template of either kind.  Succeeds exactly on templates that
/// satisfy the data model's invariants: a non-empty name of alphanumeric or
/// underscore characters, a non-empty body, and pairwise distinct parameter
/// names.
pub fn validate_template(template: &Template) -> (r: Result<(), ValidationError>)
    ensures
        r == spec_validate_template(*template),
        r is Ok <==> template_valid(*template),
{
    match template {
        Template::Program(prog) => validate_program(prog),
        Template::Function(func) => validate_function(func),
    }
}

} // verus!

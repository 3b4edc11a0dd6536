//! Lowering of a validated syntax tree to GNU-style x86-64 assembly text:
//! a `.text` section of instructions and, when string data exists, a `.data`
//! section of labelled constants.  Write and exit use raw Linux system call
//! numbers (write = 1, exit = 60).  Labels are drawn from an explicit
//! allocator threaded by ownership, so two compilations that share one
//! allocator never collide on a label name.

use vstd::prelude::*;
use crate::ast::Action;
use crate::ast::BinaryOperator;
use crate::ast::Expression;
use crate::ast::FunctionTemplate;
use crate::ast::Literal;
use crate::ast::ProgramTemplate;
use crate::ast::Statement;
use crate::ast::Template;
use crate::ast::action_msg;
use crate::textfmt::dec_digits;
use crate::textfmt::dec_int;
use crate::textfmt::escape_chars;
use crate::textfmt::escape_str;
use crate::textfmt::i64_dec;
use crate::textfmt::join_lines;
use crate::textfmt::join_with;
use crate::textfmt::push_char;
use crate::textfmt::u64_dec;
use crate::textfmt::usize_dec;
use crate::textfmt::views_of;

verus! {

/// A monotonic counter handing out globally unique assembly labels: a label
/// identifier is used at most once over the allocator's lifetime.
pub struct LabelAllocator {
    pub next: u64,
}

impl LabelAllocator {
    /// A fresh allocator starting at identifier zero.
    pub fn new() -> (a: LabelAllocator)
        ensures
            a.next == 0,
    {
        LabelAllocator { next: 0 }
    }
}

/// The label text for the given prefix and identifier.
pub open spec fn label_chars(prefix: Seq<char>, id: nat) -> Seq<char> {
    ".L"@ + prefix + "_"@ + dec_digits(id)
}

/// Draws the next identifier from the allocator and renders the label.
pub fn gen_label(labels: &mut LabelAllocator, prefix: &str) -> (r: String)
    requires
        old(labels).next < u64::MAX,
    ensures
        r@ == label_chars(prefix@, old(labels).next as nat),
        final(labels).next == old(labels).next + 1,
{
    let id = labels.next;
    labels.next = labels.next + 1;
    let mut s = String::from_str(".L");
    s.append(prefix);
    s.append("_");
    let d = u64_dec(id);
    s.append(d.as_str());
    s
}

/// Nodes whose lowering is not implemented, each carrying a description of
/// the unsupported feature.
#[derive(Debug)]
pub enum CodegenError {
    UnsupportedStringLiteral,
    UnsupportedVariable(String),
}

/// The wording of each code generation failure.
pub open spec fn codegen_message(e: CodegenError) -> Seq<char> {
    match e {
        CodegenError::UnsupportedStringLiteral => "String literals in expressions not yet supported"@,
        CodegenError::UnsupportedVariable(n) => "Variables not yet supported: "@ + n@,
    }
}

impl CodegenError {
    /// A description naming the unsupported feature.
    pub fn message(&self) -> (r: String)
        ensures
            r@ == codegen_message(*self),
    {
        match self {
            CodegenError::UnsupportedStringLiteral => String::from_str(
                "String literals in expressions not yet supported",
            ),
            CodegenError::UnsupportedVariable(n) => {
                let mut s = String::from_str("Variables not yet supported: ");
                s.append(n.as_str());
                s
            }
        }
    }
}

/// The generator's evaluation targets: the primary accumulator and the
/// secondary operand register.
#[derive(Clone, Copy, PartialEq, Eq, Structural)]
pub enum Reg {
    Rax,
    Rbx,
}

/// The assembly spelling of a register.
pub open spec fn reg_chars(r: Reg) -> Seq<char> {
    match r {
        Reg::Rax => "%rax"@,
        Reg::Rbx => "%rbx"@,
    }
}

fn reg_name(r: Reg) -> (s: &'static str)
    ensures
        s@ == reg_chars(r),
{
    match r {
        Reg::Rax => "%rax",
        Reg::Rbx => "%rbx",
    }
}

/// The message as placed in the data section: a trailing newline is added
/// when the source message does not already end with one, otherwise the
/// message is stored unchanged.
pub open spec fn stored_message(m: Seq<char>) -> Seq<char> {
    if m.len() > 0 && m.last() == '\n' {
        m
    } else {
        m.push('\n')
    }
}

/// The byte count written for a message: the UTF-8 length of the stored
/// message, as the machine's length type holds it.
pub open spec fn msg_byte_len(m: Seq<char>) -> nat {
    (vstd::utf8::encode_utf8(stored_message(m)).len() as usize) as nat
}

/// The instruction lines of one print action: a write system call of the
/// stored message's bytes to standard output.
pub open spec fn print_text_lines(msg: Seq<char>, label: Seq<char>) -> Seq<Seq<char>> {
    seq![
        ""@,
        "    # Print \""@ + escape_chars(msg) + "\""@,
        "    movq $1, %rax           # syscall: write"@,
        "    movq $1, %rdi           # fd: stdout"@,
        "    leaq "@ + label + "(%rip), %rsi   # buffer"@,
        "    movq $"@ + dec_digits(msg_byte_len(msg)) + ", %rdx          # count"@,
        "    syscall"@,
    ]
}

/// The data lines of one print action: the stored message as a labelled
/// string constant.
pub open spec fn print_data_lines(msg: Seq<char>, label: Seq<char>) -> Seq<Seq<char>> {
    seq![
        label + ":"@,
        "    .ascii \""@ + escape_chars(stored_message(msg)) + "\""@,
    ]
}

/// The fixed program entry header.
pub open spec fn program_header_lines() -> Seq<Seq<char>> {
    seq![".text"@, ".global _start"@, ""@, "_start:"@]
}

/// The fixed process-termination sequence: exit with status 0.
pub open spec fn exit_lines() -> Seq<Seq<char>> {
    seq![
        ""@,
        "    # Exit"@,
        "    movq $60, %rax      # syscall: exit"@,
        "    xorq %rdi, %rdi     # status: 0"@,
        "    syscall"@,
    ]
}

/// The instruction lines of all actions in source order, action `i` using
/// the label with identifier `start + i`.
pub open spec fn actions_text_lines(actions: Seq<Action>, start: nat) -> Seq<Seq<char>>
    decreases actions.len(),
{
    if actions.len() == 0 {
        Seq::empty()
    } else {
        actions_text_lines(actions.drop_last(), start) + print_text_lines(
            action_msg(actions.last()),
            label_chars("str"@, (start + actions.len() - 1) as nat),
        )
    }
}

/// The data lines of all actions in source order, with the same labels.
pub open spec fn actions_data_lines(actions: Seq<Action>, start: nat) -> Seq<Seq<char>>
    decreases actions.len(),
{
    if actions.len() == 0 {
        Seq::empty()
    } else {
        actions_data_lines(actions.drop_last(), start) + print_data_lines(
            action_msg(actions.last()),
            label_chars("str"@, (start + actions.len() - 1) as nat),
        )
    }
}

/// A program's whole instruction section, line by line.
pub open spec fn program_text_lines(p: ProgramTemplate, start: nat) -> Seq<Seq<char>> {
    program_header_lines() + actions_text_lines(p.actions@, start) + exit_lines()
}

/// A program's whole assembly text: the joined instruction section and,
/// when data lines exist, the joined data section.
pub open spec fn program_output(p: ProgramTemplate, start: nat) -> Seq<char> {
    let text = join_lines(program_text_lines(p, start), "\n"@) + "\n\n"@;
    let data = actions_data_lines(p.actions@, start);
    if data.len() > 0 {
        text + ".data\n"@ + join_lines(data, "\n"@) + "\n"@
    } else {
        text
    }
}

/// The operator-specific instruction lines, on the accumulator and the
/// secondary register, preserving operand order.
pub open spec fn op_lines(op: BinaryOperator) -> Seq<Seq<char>> {
    match op {
        BinaryOperator::Add => seq!["    addq %rbx, %rax"@],
        BinaryOperator::Sub => seq!["    subq %rbx, %rax"@],
        BinaryOperator::Mul => seq!["    imulq %rbx, %rax"@],
        BinaryOperator::Div => seq![
            "    cqto             # sign extend rax to rdx:rax"@,
            "    idivq %rbx       # rax = rdx:rax / rbx"@,
        ],
    }
}

/// The instruction lines that leave the expression's value in `dest`:
/// post-order lowering with the left operand evaluated first, saved on the
/// stack, and restored into the accumulator before the operation.  Bare
/// variables and string literals in expression position have no lowering
/// and fail with a named unsupported-feature error.
pub open spec fn expr_lines(e: Expression, dest: Reg) -> Result<Seq<Seq<char>>, CodegenError>
    decreases e,
{
    match e {
        Expression::Literal(lit) => match lit {
            Literal::Integer(v) => Ok(
                seq!["    movq $"@ + dec_int(v as int) + ", "@ + reg_chars(dest)],
            ),
            Literal::String(_) => Err(CodegenError::UnsupportedStringLiteral),
        },
        Expression::Variable(name) => Err(CodegenError::UnsupportedVariable(name)),
        Expression::BinaryOp { op, left, right } => match expr_lines(*left, Reg::Rax) {
            Err(e1) => Err(e1),
            Ok(ll) => match expr_lines(*right, Reg::Rbx) {
                Err(e2) => Err(e2),
                Ok(rl) => Ok(
                    ll + seq!["    pushq %rax"@] + rl + seq!["    popq %rax"@] + op_lines(op) + (
                    if dest == Reg::Rax {
                        Seq::<Seq<char>>::empty()
                    } else {
                        seq!["    movq %rax, "@ + reg_chars(dest)]
                    }),
                ),
            },
        },
    }
}

/// The instruction lines of one statement; a return lowers its value into
/// the accumulator and falls through into the epilogue.
pub open spec fn stmt_lines(s: Statement) -> Result<Seq<Seq<char>>, CodegenError> {
    match s {
        Statement::Return { value } => match expr_lines(value, Reg::Rax) {
            Err(e) => Err(e),
            Ok(l) => Ok(seq!["    # Return statement"@] + l),
        },
    }
}

/// The instruction lines of all statements in source order; the first
/// failing statement's error wins.
pub open spec fn stmts_lines(stmts: Seq<Statement>) -> Result<Seq<Seq<char>>, CodegenError>
    decreases stmts.len(),
{
    if stmts.len() == 0 {
        Ok(Seq::empty())
    } else {
        match stmts_lines(stmts.drop_last()) {
            Err(e) => Err(e),
            Ok(pre) => match stmt_lines(stmts.last()) {
                Err(e) => Err(e),
                Ok(l) => Ok(pre + l),
            },
        }
    }
}

/// A function's header: visibility and type metadata, the entry label, and
/// the stack-frame prologue.
pub open spec fn function_header_lines(name: Seq<char>) -> Seq<Seq<char>> {
    seq![
        ".text"@,
        ".global "@ + name,
        ".type "@ + name + ", @function"@,
        ""@,
        name + ":"@,
        "    pushq %rbp"@,
        "    movq %rsp, %rbp"@,
        ""@,
    ]
}

/// A function's frame-teardown epilogue and return.
pub open spec fn function_epilogue_lines() -> Seq<Seq<char>> {
    seq![""@, "    popq %rbp"@, "    ret"@]
}

/// A function's whole assembly text, or the first statement's error.
pub open spec fn function_output(f: FunctionTemplate) -> Result<Seq<char>, CodegenError> {
    match stmts_lines(f.implementation@) {
        Err(e) => Err(e),
        Ok(body) => Ok(
            join_lines(
                function_header_lines(f.name@) + body + function_epilogue_lines(),
                "\n"@,
            ) + "\n"@,
        ),
    }
}

/// How many labels a template's lowering draws from the allocator.
pub open spec fn num_labels(t: Template) -> nat {
    match t {
        Template::Program(p) => p.actions@.len(),
        Template::Function(_) => 0,
    }
}

/// The exact assembly text generated for a template when the allocator's
/// next identifier is `start`, or the first lowering error.
pub open spec fn generate_spec(t: Template, start: nat) -> Result<Seq<char>, CodegenError> {
    match t {
        Template::Program(p) => Ok(program_output(p, start)),
        Template::Function(f) => function_output(f),
    }
}

/// An expression whose lowering is implemented: integer literals and binary
/// operations over them, with no bare variable and no string literal.
pub open spec fn expr_supported(e: Expression) -> bool
    decreases e,
{
    match e {
        Expression::Literal(lit) => match lit {
            Literal::Integer(_) => true,
            Literal::String(_) => false,
        },
        Expression::Variable(_) => false,
        Expression::BinaryOp { op, left, right } => expr_supported(*left) && expr_supported(
            *right,
        ),
    }
}

/// A statement whose lowering is implemented.
pub open spec fn stmt_supported(s: Statement) -> bool {
    match s {
        Statement::Return { value } => expr_supported(value),
    }
}

/// A template whose lowering is implemented throughout; programs always
/// are.
pub open spec fn template_supported(t: Template) -> bool {
    match t {
        Template::Program(_) => true,
        Template::Function(f) => forall|i: int|
            0 <= i < f.implementation@.len() ==> stmt_supported(f.implementation@[i]),
    }
}

struct AsmGenerator {
    text_section: Vec<String>,
    data_section: Vec<String>,
}

impl AsmGenerator {
    fn new() -> (g: AsmGenerator)
        ensures
            g.text_section@.len() == 0,
            g.data_section@.len() == 0,
    {
        AsmGenerator { text_section: Vec::new(), data_section: Vec::new() }
    }

    fn emit_text(&mut self, line: &str)
        ensures
            views_of(final(self).text_section@) == views_of(old(self).text_section@).push(line@),
            final(self).data_section == old(self).data_section,
    {
        self.text_section.push(line.to_owned());
        proof {
            assert(views_of(self.text_section@) =~= views_of(old(self).text_section@).push(
                line@,
            ));
        }
    }

    fn emit_data(&mut self, line: &str)
        ensures
            views_of(final(self).data_section@) == views_of(old(self).data_section@).push(line@),
            final(self).text_section == old(self).text_section,
    {
        self.data_section.push(line.to_owned());
        proof {
            assert(views_of(self.data_section@) =~= views_of(old(self).data_section@).push(
                line@,
            ));
        }
    }

    fn generate_action(&mut self, action: &Action, labels: &mut LabelAllocator) -> (r: Result<
        (),
        CodegenError,
    >)
        requires
            old(labels).next < u64::MAX,
        ensures
            r is Ok,
            views_of(final(self).text_section@) == views_of(old(self).text_section@)
                + print_text_lines(
                action_msg(*action),
                label_chars("str"@, old(labels).next as nat),
            ),
            views_of(final(self).data_section@) == views_of(old(self).data_section@)
                + print_data_lines(
                action_msg(*action),
                label_chars("str"@, old(labels).next as nat),
            ),
            final(labels).next == old(labels).next + 1,
    {
        match action {
            Action::Print(msg) => {
                let ghost t0 = views_of(self.text_section@);
                let ghost d0 = views_of(self.data_section@);
                let ghost lbl = label_chars("str"@, labels.next as nat);
                let label = gen_label(labels, "str");

                let mut msg_with_newline = msg.clone();
                let needs_newline = {
                    let st = msg.as_str();
                    let n = st.unicode_len();
                    if n == 0 {
                        true
                    } else {
                        st.get_char(n - 1) != '\n'
                    }
                };
                if needs_newline {
                    push_char(&mut msg_with_newline, '\n');
                }
                proof {
                    assert(msg_with_newline@ == stored_message(msg@));
                }

                let mut data_label = label.clone();
                data_label.append(":");
                self.emit_data(data_label.as_str());
                let mut data_line = String::from_str("    .ascii \"");
                let escaped_stored = escape_str(msg_with_newline.as_str());
                data_line.append(escaped_stored.as_str());
                data_line.append("\"");
                self.emit_data(data_line.as_str());

                let msg_len = msg_with_newline.as_str().len();
                proof {
                    assert(msg_len as nat == msg_byte_len(msg@));
                }

                self.emit_text("");
                let mut comment = String::from_str("    # Print \"");
                let escaped_msg = escape_str(msg.as_str());
                comment.append(escaped_msg.as_str());
                comment.append("\"");
                self.emit_text(comment.as_str());
                self.emit_text("    movq $1, %rax           # syscall: write");
                self.emit_text("    movq $1, %rdi           # fd: stdout");
                let mut buf_line = String::from_str("    leaq ");
                buf_line.append(label.as_str());
                buf_line.append("(%rip), %rsi   # buffer");
                self.emit_text(buf_line.as_str());
                let mut count_line = String::from_str("    movq $");
                let len_str = usize_dec(msg_len);
                count_line.append(len_str.as_str());
                count_line.append(", %rdx          # count");
                self.emit_text(count_line.as_str());
                self.emit_text("    syscall");

                proof {
                    assert(views_of(self.text_section@) =~= t0 + print_text_lines(msg@, lbl));
                    assert(views_of(self.data_section@) =~= d0 + print_data_lines(msg@, lbl));
                }
                Ok(())
            }
        }
    }

    #[verifier::loop_isolation(false)]
    fn generate_program(&mut self, prog: &ProgramTemplate, labels: &mut LabelAllocator) -> (r:
        Result<String, CodegenError>)
        requires
            old(self).text_section@.len() == 0,
            old(self).data_section@.len() == 0,
            old(labels).next + prog.actions@.len() <= u64::MAX,
        ensures
            r matches Ok(out) && out@ == program_output(*prog, old(labels).next as nat),
            final(labels).next == old(labels).next + prog.actions@.len(),
    {
        let ghost start = labels.next as nat;
        self.emit_text(".text");
        self.emit_text(".global _start");
        self.emit_text("");
        self.emit_text("_start:");
        proof {
            assert(views_of(self.text_section@) =~= program_header_lines());
            assert(views_of(self.data_section@) =~= actions_data_lines(
                prog.actions@.take(0),
                start,
            ));
            assert(program_header_lines() + actions_text_lines(prog.actions@.take(0), start)
                =~= views_of(self.text_section@));
        }
        let mut i: usize = 0;
        while i < prog.actions.len()
            invariant
                i <= prog.actions@.len(),
                labels.next as nat == start + i,
                views_of(self.text_section@) == program_header_lines() + actions_text_lines(
                    prog.actions@.take(i as int),
                    start,
                ),
                views_of(self.data_section@) == actions_data_lines(
                    prog.actions@.take(i as int),
                    start,
                ),
            decreases prog.actions@.len() - i,
        {
            let res = self.generate_action(&prog.actions[i], labels);
            match res {
                Ok(()) => {}
                Err(e) => {
                    return Err(e);
                }
            }
            proof {
                let acts = prog.actions@;
                assert(acts.take(i + 1).drop_last() =~= acts.take(i as int));
                assert(acts.take(i + 1).last() == acts[i as int]);
                assert(actions_text_lines(acts.take(i + 1), start) == actions_text_lines(
                    acts.take(i as int),
                    start,
                ) + print_text_lines(action_msg(acts[i as int]), label_chars("str"@, (start + i) as nat)));
                assert(views_of(self.text_section@) =~= program_header_lines()
                    + actions_text_lines(acts.take(i + 1), start));
                assert(views_of(self.data_section@) =~= actions_data_lines(
                    acts.take(i + 1),
                    start,
                ));
            }
            i = i + 1;
        }
        proof {
            assert(prog.actions@.take(prog.actions@.len() as int) =~= prog.actions@);
        }
        self.emit_text("");
        self.emit_text("    # Exit");
        self.emit_text("    movq $60, %rax      # syscall: exit");
        self.emit_text("    xorq %rdi, %rdi     # status: 0");
        self.emit_text("    syscall");
        proof {
            assert(views_of(self.text_section@) =~= program_text_lines(*prog, start));
        }
        let mut output = join_with(&self.text_section, "\n");
        output.append("\n\n");
        if self.data_section.len() > 0 {
            output.append(".data\n");
            let data_joined = join_with(&self.data_section, "\n");
            output.append(data_joined.as_str());
            output.append("\n");
        }
        proof {
            assert(output@ =~= program_output(*prog, start));
        }
        Ok(output)
    }

    #[verifier::rlimit(60)]
    fn generate_expression(&mut self, expr: &Expression, dest_reg: Reg) -> (r: Result<
        (),
        CodegenError,
    >)
        ensures
            match expr_lines(*expr, dest_reg) {
                Ok(l) => r is Ok && views_of(final(self).text_section@) == views_of(
                    old(self).text_section@,
                ) + l,
                Err(e) => r == Err::<(), CodegenError>(e),
            },
            final(self).data_section == old(self).data_section,
        decreases *expr,
    {
        match expr {
            Expression::Literal(lit) => match lit {
                Literal::Integer(val) => {
                    let ghost t0 = views_of(self.text_section@);
                    let mut line = String::from_str("    movq $");
                    let val_str = i64_dec(*val);
                    line.append(val_str.as_str());
                    line.append(", ");
                    line.append(reg_name(dest_reg));
                    self.emit_text(line.as_str());
                    proof {
                        assert(views_of(self.text_section@) =~= t0 + seq![
                            "    movq $"@ + dec_int(*val as int) + ", "@ + reg_chars(dest_reg),
                        ]);
                    }
                    Ok(())
                }
                Literal::String(_) => Err(CodegenError::UnsupportedStringLiteral),
            },
            Expression::Variable(name) => Err(CodegenError::UnsupportedVariable(name.clone())),
            Expression::BinaryOp { op, left, right } => {
                let ghost t0 = views_of(self.text_section@);
                let res_left = self.generate_expression(left, Reg::Rax);
                match res_left {
                    Ok(()) => {}
                    Err(e) => {
                        return Err(e);
                    }
                }
                self.emit_text("    pushq %rax");
                let res_right = self.generate_expression(right, Reg::Rbx);
                match res_right {
                    Ok(()) => {}
                    Err(e) => {
                        return Err(e);
                    }
                }
                self.emit_text("    popq %rax");
                match op {
                    BinaryOperator::Add => self.emit_text("    addq %rbx, %rax"),
                    BinaryOperator::Sub => self.emit_text("    subq %rbx, %rax"),
                    BinaryOperator::Mul => self.emit_text("    imulq %rbx, %rax"),
                    BinaryOperator::Div => {
                        self.emit_text("    cqto             # sign extend rax to rdx:rax");
                        self.emit_text("    idivq %rbx       # rax = rdx:rax / rbx");
                    }
                }
                if !matches!(dest_reg, Reg::Rax) {
                    let mut mv = String::from_str("    movq %rax, ");
                    mv.append(reg_name(dest_reg));
                    self.emit_text(mv.as_str());
                }
                proof {
                    let ll = match expr_lines(**left, Reg::Rax) {
                        Ok(l) => l,
                        Err(_) => Seq::empty(),
                    };
                    let rl = match expr_lines(**right, Reg::Rbx) {
                        Ok(l) => l,
                        Err(_) => Seq::empty(),
                    };
                    let tail = (if dest_reg == Reg::Rax {
                        Seq::<Seq<char>>::empty()
                    } else {
                        seq!["    movq %rax, "@ + reg_chars(dest_reg)]
                    });
                    assert(views_of(self.text_section@) =~= t0 + (ll + seq!["    pushq %rax"@]
                        + rl + seq!["    popq %rax"@] + op_lines(*op) + tail));
                }
                Ok(())
            }
        }
    }

    fn generate_statement(&mut self, stmt: &Statement) -> (r: Result<(), CodegenError>)
        ensures
            match stmt_lines(*stmt) {
                Ok(l) => r is Ok && views_of(final(self).text_section@) == views_of(
                    old(self).text_section@,
                ) + l,
                Err(e) => r == Err::<(), CodegenError>(e),
            },
            final(self).data_section == old(self).data_section,
    {
        match stmt {
            Statement::Return { value } => {
                let ghost t0 = views_of(self.text_section@);
                self.emit_text("    # Return statement");
                let res = self.generate_expression(value, Reg::Rax);
                match res {
                    Ok(()) => {}
                    Err(e) => {
                        return Err(e);
                    }
                }
                proof {
                    let l = match expr_lines(*value, Reg::Rax) {
                        Ok(l) => l,
                        Err(_) => Seq::empty(),
                    };
                    assert(views_of(self.text_section@) =~= t0 + (seq!["    # Return statement"@]
                        + l));
                }
                Ok(())
            }
        }
    }

    #[verifier::loop_isolation(false)]
    fn generate_function(&mut self, func: &FunctionTemplate) -> (r: Result<String, CodegenError>)
        requires
            old(self).text_section@.len() == 0,
        ensures
            match function_output(*func) {
                Ok(out) => r matches Ok(s) && s@ == out,
                Err(e) => r == Err::<String, CodegenError>(e),
            },
    {
        self.emit_text(".text");
        let mut global_line = String::from_str(".global ");
        global_line.append(func.name.as_str());
        self.emit_text(global_line.as_str());
        let mut type_line = String::from_str(".type ");
        type_line.append(func.name.as_str());
        type_line.append(", @function");
        self.emit_text(type_line.as_str());
        self.emit_text("");
        let mut entry_line = func.name.clone();
        entry_line.append(":");
        self.emit_text(entry_line.as_str());
        self.emit_text("    pushq %rbp");
        self.emit_text("    movq %rsp, %rbp");
        self.emit_text("");
        proof {
            assert(views_of(self.text_section@) =~= function_header_lines(func.name@));
            assert(func.implementation@.take(0) =~= Seq::<Statement>::empty());
            assert(views_of(self.text_section@) =~= function_header_lines(func.name@)
                + stmts_ok_lines(func.implementation@.take(0)));
        }
        let mut s: usize = 0;
        while s < func.implementation.len()
            invariant
                s <= func.implementation@.len(),
                stmts_lines(func.implementation@.take(s as int)) is Ok,
                views_of(self.text_section@) == function_header_lines(func.name@)
                    + stmts_ok_lines(func.implementation@.take(s as int)),
            decreases func.implementation@.len() - s,
        {
            let res = self.generate_statement(&func.implementation[s]);
            match res {
                Ok(()) => {}
                Err(e) => {
                    proof {
                        lemma_stmts_lines_err(func.implementation@, s as int);
                    }
                    return Err(e);
                }
            }
            proof {
                let stmts = func.implementation@;
                assert(stmts.take(s + 1).drop_last() =~= stmts.take(s as int));
                assert(stmts.take(s + 1).last() == stmts[s as int]);
                assert(views_of(self.text_section@) =~= function_header_lines(func.name@)
                    + stmts_ok_lines(stmts.take(s + 1)));
            }
            s = s + 1;
        }
        proof {
            assert(func.implementation@.take(func.implementation@.len() as int)
                =~= func.implementation@);
        }
        self.emit_text("");
        self.emit_text("    popq %rbp");
        self.emit_text("    ret");
        proof {
            assert(views_of(self.text_section@) =~= function_header_lines(func.name@)
                + stmts_ok_lines(func.implementation@) + function_epilogue_lines());
        }
        let mut output = join_with(&self.text_section, "\n");
        output.append("\n");
        Ok(output)
    }

    fn generate(&mut self, template: &Template, labels: &mut LabelAllocator) -> (r: Result<
        String,
        CodegenError,
    >)
        requires
            old(self).text_section@.len() == 0,
            old(self).data_section@.len() == 0,
            old(labels).next + num_labels(*template) <= u64::MAX,
        ensures
            match generate_spec(*template, old(labels).next as nat) {
                Ok(out) => r matches Ok(s) && s@ == out,
                Err(e) => r == Err::<String, CodegenError>(e),
            },
            final(labels).next == old(labels).next + num_labels(*template),
    {
        match template {
            Template::Program(prog) => self.generate_program(prog, labels),
            Template::Function(func) => self.generate_function(func),
        }
    }
}

/// The lines of a statement sequence whose lowering succeeds (empty where
/// it fails).
pub open spec fn stmts_ok_lines(stmts: Seq<Statement>) -> Seq<Seq<char>> {
    match stmts_lines(stmts) {
        Ok(l) => l,
        Err(_) => Seq::empty(),
    }
}

proof fn lemma_stmts_lines_err(stmts: Seq<Statement>, s: int)
    requires
        0 <= s < stmts.len(),
        stmts_lines(stmts.take(s)) is Ok,
        stmt_lines(stmts[s]) is Err,
    ensures
        stmts_lines(stmts) == stmt_lines(stmts[s]),
    decreases stmts.len(),
{
    if stmts.len() - 1 == s {
        assert(stmts.drop_last() =~= stmts.take(s));
    } else {
        assert(stmts.drop_last().take(s) =~= stmts.take(s));
        assert(stmts.drop_last()[s] == stmts[s]);
        lemma_stmts_lines_err(stmts.drop_last(), s);
    }
}

/// Generates assembly for a template, drawing labels from the given
/// allocator.  The result is exactly the specified lowering of the template
/// at the allocator's starting identifier; generation succeeds if and only
/// if every node of the template has an implemented lowering (programs
/// always do), and on failure the first unsupported node's error is
/// returned and no assembly text at all.
pub fn generate_asm(template: &Template, labels: &mut LabelAllocator) -> (r: Result<
    String,
    CodegenError,
>)
    requires
        old(labels).next + num_labels(*template) <= u64::MAX,
    ensures
        match generate_spec(*template, old(labels).next as nat) {
            Ok(out) => r matches Ok(s) && s@ == out,
            Err(e) => r == Err::<String, CodegenError>(e),
        },
        final(labels).next == old(labels).next + num_labels(*template),
        r is Ok <==> template_supported(*template),
{
    let mut generator = AsmGenerator::new();
    let r = generator.generate(template, labels);
    proof {
        lemma_generate_spec_ok(*template, old(labels).next as nat);
    }
    r
}

proof fn lemma_expr_lines_ok(e: Expression, dest: Reg)
    ensures
        expr_lines(e, dest) is Ok <==> expr_supported(e),
    decreases e,
{
    match e {
        Expression::BinaryOp { op, left, right } => {
            lemma_expr_lines_ok(*left, Reg::Rax);
            lemma_expr_lines_ok(*right, Reg::Rbx);
        }
        _ => {}
    }
}

proof fn lemma_stmts_lines_ok(stmts: Seq<Statement>)
    ensures
        stmts_lines(stmts) is Ok <==> (forall|i: int|
            0 <= i < stmts.len() ==> stmt_supported(#[trigger] stmts[i])),
    decreases stmts.len(),
{
    if stmts.len() > 0 {
        lemma_stmts_lines_ok(stmts.drop_last());
        match stmts.last() {
            Statement::Return { value } => {
                lemma_expr_lines_ok(value, Reg::Rax);
            }
        }
        if stmts_lines(stmts) is Ok {
            assert forall|i: int| 0 <= i < stmts.len() implies stmt_supported(
                #[trigger] stmts[i],
            ) by {
                if i < stmts.len() - 1 {
                    assert(stmts.drop_last()[i] == stmts[i]);
                } else {
                    assert(stmts[i] == stmts.last());
                }
            }
        } else {
            if forall|i: int| 0 <= i < stmts.len() ==> stmt_supported(#[trigger] stmts[i]) {
                assert forall|i: int| 0 <= i < stmts.drop_last().len() implies stmt_supported(
                    #[trigger] stmts.drop_last()[i],
                ) by {
                    assert(stmts.drop_last()[i] == stmts[i]);
                }
                assert(stmt_supported(stmts.last()));
                assert(false);
            }
        }
    }
}

proof fn lemma_generate_spec_ok(t: Template, start: nat)
    ensures
        generate_spec(t, start) is Ok <==> template_supported(t),
{
    match t {
        Template::Program(_) => {}
        Template::Function(f) => {
            lemma_stmts_lines_ok(f.implementation@);
        }
    }
}

/// Law: distinct identifiers render to distinct labels, whatever the
/// shared prefix.
pub proof fn lemma_labels_distinct(prefix: Seq<char>, i: nat, j: nat)
    requires
        i != j,
    ensures
        label_chars(prefix, i) != label_chars(prefix, j),
{
    if label_chars(prefix, i) == label_chars(prefix, j) {
        let pre = ".L"@ + prefix + "_"@;
        let di = dec_digits(i);
        let dj = dec_digits(j);
        assert(pre + di == pre + dj);
        assert((pre + di).len() == (pre + dj).len());
        assert(di =~= dj) by {
            assert(forall|k: int|
                0 <= k < di.len() ==> di[k] == (pre + di)[pre.len() + k] && dj[k]
                    == (pre + dj)[pre.len() + k]);
        }
        crate::textfmt::lemma_dec_digits_injective(i, j);
    }
}

proof fn lemma_actions_lines_len(actions: Seq<Action>, start: nat)
    ensures
        actions_text_lines(actions, start).len() == 7 * actions.len(),
        actions_data_lines(actions, start).len() == 2 * actions.len(),
    decreases actions.len(),
{
    if actions.len() > 0 {
        lemma_actions_lines_len(actions.drop_last(), start);
    }
}

/// Law: the instruction and data lines of a program's actions consist of
/// one seven-line write block and one two-line data block per print action,
/// laid out in source order, block `i` referencing the label with
/// identifier `start + i`.
pub proof fn lemma_program_print_blocks(actions: Seq<Action>, start: nat, i: int)
    requires
        0 <= i < actions.len(),
    ensures
        actions_text_lines(actions, start).len() == 7 * actions.len(),
        actions_data_lines(actions, start).len() == 2 * actions.len(),
        actions_text_lines(actions, start).subrange(7 * i, 7 * i + 7) == print_text_lines(
            action_msg(actions[i]),
            label_chars("str"@, (start + i) as nat),
        ),
        actions_data_lines(actions, start).subrange(2 * i, 2 * i + 2) == print_data_lines(
            action_msg(actions[i]),
            label_chars("str"@, (start + i) as nat),
        ),
    decreases actions.len(),
{
    lemma_actions_lines_len(actions, start);
    lemma_actions_lines_len(actions.drop_last(), start);
    if i == actions.len() - 1 {
        assert(actions_text_lines(actions, start).subrange(7 * i, 7 * i + 7)
            =~= print_text_lines(
            action_msg(actions[i]),
            label_chars("str"@, (start + i) as nat),
        ));
        assert(actions_data_lines(actions, start).subrange(2 * i, 2 * i + 2)
            =~= print_data_lines(
            action_msg(actions[i]),
            label_chars("str"@, (start + i) as nat),
        ));
    } else {
        lemma_program_print_blocks(actions.drop_last(), start, i);
        assert(actions.drop_last()[i] == actions[i]);
        assert(actions_text_lines(actions, start).subrange(7 * i, 7 * i + 7)
            =~= actions_text_lines(actions.drop_last(), start).subrange(7 * i, 7 * i + 7));
        assert(actions_data_lines(actions, start).subrange(2 * i, 2 * i + 2)
            =~= actions_data_lines(actions.drop_last(), start).subrange(2 * i, 2 * i + 2));
    }
}

/// Law: a program's instruction section is exactly the four header lines,
/// seven lines per print action in source order, and the five exit lines;
/// the write block of action `i` references the label with identifier
/// `start + i`, and two distinct actions never share a label.
pub proof fn lemma_program_write_syscalls(p: ProgramTemplate, start: nat, i: int, j: int)
    requires
        0 <= i < p.actions@.len(),
        0 <= j < p.actions@.len(),
        i != j,
    ensures
        program_text_lines(p, start).len() == 4 + 7 * p.actions@.len() + 5,
        program_text_lines(p, start).subrange(4 + 7 * i, 4 + 7 * i + 7) == print_text_lines(
            action_msg(p.actions@[i]),
            label_chars("str"@, (start + i) as nat),
        ),
        label_chars("str"@, (start + i) as nat) != label_chars("str"@, (start + j) as nat),
{
    lemma_program_print_blocks(p.actions@, start, i);
    lemma_labels_distinct("str"@, (start + i) as nat, (start + j) as nat);
    assert(program_text_lines(p, start).subrange(4 + 7 * i, 4 + 7 * i + 7)
        =~= actions_text_lines(p.actions@, start).subrange(7 * i, 7 * i + 7));
}

/// Law: compiling the same program twice from one allocator yields the
/// same line layout, and the two outputs can differ only where a label is
/// written: every line of a write block other than its buffer-address line
/// is identical across the two compilations, the header and exit lines are
/// identical by construction, and no label of the one compilation recurs
/// in the other.  Everything else about the output is a function of the
/// template alone, so a recompilation is byte-identical up to the label
/// identifiers.
pub proof fn lemma_recompile_differs_only_in_labels(
    p: ProgramTemplate,
    s1: nat,
    s2: nat,
    i: int,
    o: int,
)
    requires
        0 <= i < p.actions@.len(),
        0 <= o < 7,
        o != 4,
        s1 != s2,
    ensures
        program_text_lines(p, s1).len() == program_text_lines(p, s2).len(),
        actions_text_lines(p.actions@, s1).subrange(7 * i, 7 * i + 7)[o] == actions_text_lines(
            p.actions@,
            s2,
        ).subrange(7 * i, 7 * i + 7)[o],
        label_chars("str"@, (s1 + i) as nat) != label_chars("str"@, (s2 + i) as nat),
{
    lemma_program_print_blocks(p.actions@, s1, i);
    lemma_program_print_blocks(p.actions@, s2, i);
    lemma_labels_distinct("str"@, (s1 + i) as nat, (s2 + i) as nat);
    let m = action_msg(p.actions@[i]);
    let l1 = label_chars("str"@, (s1 + i) as nat);
    let l2 = label_chars("str"@, (s2 + i) as nat);
    assert(print_text_lines(m, l1)[o] == print_text_lines(m, l2)[o]);
}

} // verus!

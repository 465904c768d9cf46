//! Emission of x86-64 assembly text.
//!
//! Arguments are passed on the stack, pushed by the caller from left to
//! right; `call` puts the return address on top of them. Every value
//! expression leaves its result in one slot on top of the stack. The
//! registers `rax`, `rbx`, `rcx` and `rdx` are scratch.

use crate::ast::{
    ArithmeticOp, ComparisonOp, Expr, ExprView, Item, ItemView, Program, Statement,
    StatementView,
};
use crate::codegen::balance::{
    lemma_block_is_balanced, lemma_item_is_balanced, lemma_value_takes_one_slot, yields_value,
};
use crate::codegen::{CodegenError, CodegenErrorView};
use crate::context::{
    epilogue_text, label_text, pop_text, push_text, release_text, return_text, slot_of,
    slot_operand, store_text, mutability_of, Context, ContextView, LabelFrame, LabelView,
};
use vstd::prelude::*;
use crate::text::{put, put_framed};
use vstd::string::StringExecFns;

verus! {

/// The text emitted so far, the state it left, and the error that stopped
/// the emission, if one did. After an error nothing more is emitted.
pub struct Emitter {
    pub text: Seq<char>,
    pub state: ContextView,
    pub error: Option<CodegenErrorView>,
}

/// The instructions that combine `rax` and `rbx` by `op`.
pub open spec fn arithmetic_text(op: ArithmeticOp) -> Seq<char> {
    match op {
        ArithmeticOp::Add => "    add rax, rbx\n"@,
        ArithmeticOp::Sub => "    sub rax, rbx\n"@,
        ArithmeticOp::Mul => "    mul rbx\n"@,
        ArithmeticOp::Div => "    xor rdx, rdx\n    div rbx\n"@,
        ArithmeticOp::Mod => "    xor rdx, rdx\n    div rbx\n"@,
    }
}

/// The register that holds the result of `op`.
pub open spec fn arithmetic_result(op: ArithmeticOp) -> Seq<char> {
    match op {
        ArithmeticOp::Mod => "rdx"@,
        _ => "rax"@,
    }
}

/// The instructions that leave in `rcx` whether `rax` compares to `rbx` by
/// `op`, as 1 or 0. The ordering is signed.
pub open spec fn comparison_text(op: ComparisonOp) -> Seq<char> {
    match op {
        ComparisonOp::Eq => "    mov rcx, 0\n    cmp rax, rbx\n    sete cl\n"@,
        ComparisonOp::Ne => "    mov rcx, 0\n    cmp rax, rbx\n    setne cl\n"@,
        ComparisonOp::Lt => "    mov rcx, 0\n    cmp rax, rbx\n    setl cl\n"@,
        ComparisonOp::Le => "    mov rcx, 0\n    cmp rax, rbx\n    setle cl\n"@,
        ComparisonOp::Gt => "    mov rcx, 0\n    cmp rax, rbx\n    setg cl\n"@,
        ComparisonOp::Ge => "    mov rcx, 0\n    cmp rax, rbx\n    setge cl\n"@,
    }
}

impl Emitter {
    /// An emission that starts in `state` with `text` already written.
    pub open spec fn at(text: Seq<char>, state: ContextView) -> Emitter {
        Emitter { text, state, error: None }
    }

    /// An emission that starts in `state` with nothing written.
    pub open spec fn start(state: ContextView) -> Emitter {
        Emitter::at(Seq::empty(), state)
    }

    /// The emission stopped by `error`.
    pub open spec fn failed(self, error: CodegenErrorView) -> Emitter {
        Emitter { text: self.text, state: self.state, error: Some(error) }
    }

    /// The emission gone on: `text` written and the state now `state`.
    pub open spec fn proceed(self, text: Seq<char>, state: ContextView) -> Emitter {
        Emitter { text: self.text + text, state, error: None }
    }

    /// `text` written as it is.
    pub open spec fn raw(self, text: Seq<char>) -> Emitter {
        if self.error is Some {
            self
        } else {
            self.proceed(text, self.state)
        }
    }

    /// `push OPERAND`.
    pub open spec fn push(self, operand: Seq<char>) -> Emitter {
        if self.error is Some {
            self
        } else if !self.state.can_push() {
            self.failed(CodegenErrorView::LimitExceeded)
        } else {
            self.proceed(push_text(operand), self.state.pushed())
        }
    }

    /// `pop OPERAND`.
    pub open spec fn pop(self, operand: Seq<char>) -> Emitter {
        if self.error is Some {
            self
        } else if !self.state.can_pop() {
            self.failed(CodegenErrorView::EmptyStack)
        } else {
            self.proceed(pop_text(operand), self.state.popped())
        }
    }

    /// The push of a copy of the variable `name`.
    pub open spec fn load(self, name: Seq<char>) -> Emitter {
        if self.error is Some {
            self
        } else {
            match slot_of(self.state.frames, name) {
                None => self.failed(CodegenErrorView::IdentifierNotDeclared(name)),
                Some(slots) => self.push(slot_operand(slots)),
            }
        }
    }

    /// The store of the register `source` in the variable `name`.
    pub open spec fn store(self, name: Seq<char>, source: Seq<char>) -> Emitter {
        if self.error is Some {
            self
        } else {
            match mutability_of(self.state.frames, name) {
                None => self.failed(CodegenErrorView::IdentifierNotDeclared(name)),
                Some(false) => self.failed(CodegenErrorView::ChangedImmutableVariable(name)),
                Some(true) => match slot_of(self.state.frames, name) {
                    None => self.failed(CodegenErrorView::IdentifierNotDeclared(name)),
                    Some(slots) => self.raw(store_text(slots, source)),
                },
            }
        }
    }

    /// The declaration of `name` at the slot on top of the innermost frame.
    pub open spec fn declare(self, name: Seq<char>, is_mutable: bool) -> Emitter {
        if self.error is Some {
            self
        } else {
            self.proceed(Seq::empty(), self.state.with_variable(name, is_mutable))
        }
    }

    /// A scope opened.
    pub open spec fn enter(self) -> Emitter {
        if self.error is Some {
            self
        } else {
            Emitter { text: self.text, state: self.state.entered(), error: None }
        }
    }

    /// The innermost scope closed and its slots released.
    pub open spec fn exit(self) -> Emitter {
        if self.error is Some {
            self
        } else if self.state.frames.len() == 0 {
            self.failed(CodegenErrorView::EmptyStack)
        } else {
            self.proceed(release_text(self.state.frames.last().size), self.state.exited())
        }
    }

    /// The label that `label(tag)` hands out.
    pub open spec fn next_label(self, tag: Seq<char>) -> Seq<char> {
        label_text(tag, self.state.label_count(tag))
    }

    /// The counter of `tag` moved on.
    pub open spec fn label(self, tag: Seq<char>) -> Emitter {
        if self.error is Some {
            self
        } else if !self.state.can_label(tag) {
            self.failed(CodegenErrorView::LimitExceeded)
        } else {
            Emitter { text: self.text, state: self.state.with_label(tag), error: None }
        }
    }

    /// A loop with the labels `start` and `end` entered.
    pub open spec fn begin_loop(self, start: Seq<char>, end: Seq<char>) -> Emitter {
        if self.error is Some {
            self
        } else {
            Emitter {
                text: self.text,
                state: self.state.with_regions(self.state.regions.push(LabelView { start, end })),
                error: None,
            }
        }
    }

    /// The innermost loop left.
    pub open spec fn end_loop(self) -> Emitter {
        if self.error is Some || self.state.regions.len() == 0 {
            self
        } else {
            Emitter {
                text: self.text,
                state: self.state.with_regions(self.state.regions.drop_last()),
                error: None,
            }
        }
    }

    /// The jump of `break`, to the end of the innermost loop.
    pub open spec fn jump_out(self) -> Emitter {
        if self.error is Some {
            self
        } else {
            match self.state.region() {
                None => self.failed(CodegenErrorView::OutsideLoop),
                Some(region) => self.raw("    jmp "@ + region.end + "\n"@),
            }
        }
    }

    /// The jump of `continue`, to the start of the innermost loop.
    pub open spec fn jump_back(self) -> Emitter {
        if self.error is Some {
            self
        } else {
            match self.state.region() {
                None => self.failed(CodegenErrorView::OutsideLoop),
                Some(region) => self.raw("    jmp "@ + region.start + "\n"@),
            }
        }
    }

    /// After a call with `arguments` arguments has returned: the arguments
    /// are gone and the returned value is on top.
    pub open spec fn returned(self, arguments: nat) -> Emitter {
        if self.error is Some {
            self
        } else if arguments > 0 && !self.state.holds(arguments) {
            self.failed(CodegenErrorView::EmptyStack)
        } else {
            let state = if arguments > 0 {
                self.state.released(arguments)
            } else {
                self.state
            };
            if !state.can_push() {
                self.failed(CodegenErrorView::LimitExceeded)
            } else {
                Emitter { text: self.text, state: state.pushed(), error: None }
            }
        }
    }

    /// The return of the value in `rax` to the caller.
    pub open spec fn unwind(self) -> Emitter {
        if self.error is Some {
            self
        } else if !self.state.in_function() {
            self.failed(CodegenErrorView::OutsideFunction)
        } else {
            self.raw(return_text(self.state.above_function(), self.state.arguments()))
        }
    }

    /// The scopes of the function `name` opened.
    pub open spec fn enter_function(self, name: Seq<char>) -> Emitter {
        if self.error is Some {
            self
        } else if !self.state.functions.contains_key(name) {
            self.failed(CodegenErrorView::FunctionNotDeclared(name))
        } else if !self.state.can_enter_function(name) {
            self.failed(CodegenErrorView::LimitExceeded)
        } else {
            Emitter { text: self.text, state: self.state.function_entered(name), error: None }
        }
    }

    /// The two scopes of a function closed, and the return from it.
    pub open spec fn exit_function(self) -> Emitter {
        if self.error is Some {
            self
        } else if self.state.frames.len() < 2 {
            self.failed(CodegenErrorView::EmptyStack)
        } else {
            self.proceed(
                epilogue_text(
                    self.state.frames.last().size,
                    self.state.frames[self.state.frames.len() - 2].size,
                ),
                self.state.exited().exited(),
            )
        }
    }

    /// The right operand taken into `rbx` and the left one into `rax`.
    pub open spec fn operands(self) -> Emitter {
        self.pop("rbx"@).pop("rax"@)
    }

    /// The two operands taken into `rbx` and `rax`, combined by `op`, and
    /// the result pushed.
    pub open spec fn arithmetic(self, op: ArithmeticOp) -> Emitter {
        self.operands().raw(arithmetic_text(op)).push(arithmetic_result(op))
    }

    /// The two operands taken into `rbx` and `rax`, compared by `op`, and
    /// the outcome pushed.
    pub open spec fn comparison(self, op: ComparisonOp) -> Emitter {
        self.operands().raw(comparison_text(op)).push("rcx"@)
    }

    /// The variable `name` loaded on top of the value, both taken into `rax`
    /// and `rbx`, combined by `op`, and the result stored in the variable.
    pub open spec fn assign(self, op: ArithmeticOp, name: Seq<char>) -> Emitter {
        self.load(name).pop("rax"@).pop("rbx"@).raw(arithmetic_text(op)).store(
            name,
            arithmetic_result(op),
        )
    }

    /// The top of the stack taken and the jump to `target` where it is zero.
    pub open spec fn branch_if_zero(self, target: Seq<char>) -> Emitter {
        self.pop("rax"@).raw("    or rax, rax\n"@).raw("    jz "@ + target + "\n"@)
    }

    /// The value on top handed to the `exit` system call.
    pub open spec fn exit_process(self) -> Emitter {
        self.raw("    mov rax, 60\n"@).pop("rdi"@).raw("    syscall\n"@)
    }
}

/// What the code generator emits for the expression `expr`, after `emitter`.
pub open spec fn emit_expr(expr: ExprView, emitter: Emitter) -> Emitter
    decreases expr,
{
    if emitter.error is Some {
        emitter
    } else {
        match expr {
            ExprView::Arithmetic { op, lhs, rhs } => {
                let left = emit_expr(*lhs, emitter);
                if left.error is Some {
                    left
                } else {
                    emit_expr(*rhs, left).arithmetic(op)
                }
            },
            ExprView::Comparison { op, lhs, rhs } => {
                let left = emit_expr(*lhs, emitter);
                if left.error is Some {
                    left
                } else {
                    emit_expr(*rhs, left).comparison(op)
                }
            },
            ExprView::Assign { op, identifier, value } => emit_expr(*value, emitter).assign(
                op,
                identifier,
            ),
            ExprView::IntegerLiteral(text) => emitter.push(text),
            ExprView::Identifier(name) => emitter.load(name),
            ExprView::FunctionCall { name, args } => {
                if !emitter.state.functions.contains_key(name) {
                    emitter.failed(CodegenErrorView::FunctionNotDeclared(name))
                } else {
                    emit_args(args, emitter).raw("    call "@ + name + "\n"@).returned(args.len())
                }
            },
            ExprView::Block(statements) => emit_block(statements, emitter.enter()).exit(),
            ExprView::If { check, body, els } => {
                let first = emitter.label("if"@);
                let second = first.label("else"@);
                let third = second.label("endif"@);
                let if_label = emitter.next_label("if"@);
                let else_label = first.next_label("else"@);
                let endif_label = second.next_label("endif"@);
                if third.error is Some {
                    third
                } else {
                    let checked = emit_expr(*check, third.raw(if_label + ":\n"@)).branch_if_zero(
                        else_label,
                    );
                    if checked.error is Some {
                        checked
                    } else {
                        let taken = emit_statement(*body, checked.enter()).exit();
                        if taken.error is Some {
                            taken
                        } else {
                            let joined = taken.raw("    jmp "@ + endif_label + "\n"@).raw(
                                else_label + ":\n"@,
                            );
                            let other = match els {
                                Some(statement) => emit_statement(
                                    *statement,
                                    joined.enter(),
                                ).exit(),
                                None => joined,
                            };
                            other.raw(endif_label + ":\n"@)
                        }
                    }
                }
            },
            ExprView::Loop { body } => {
                let first = emitter.label("loop"@);
                let second = first.label("endloop"@);
                let loop_label = emitter.next_label("loop"@);
                let endloop_label = first.next_label("endloop"@);
                if second.error is Some {
                    second
                } else {
                    emit_statement(
                        *body,
                        second.begin_loop(loop_label, endloop_label).raw(loop_label + ":\n"@),
                    ).raw("    jmp "@ + loop_label + "\n"@).raw(endloop_label + ":\n"@).end_loop()
                }
            },
            ExprView::While { check, body } => {
                let first = emitter.label("while"@);
                let second = first.label("endwhile"@);
                let while_label = emitter.next_label("while"@);
                let endwhile_label = first.next_label("endwhile"@);
                if second.error is Some {
                    second
                } else {
                    let checked = emit_expr(
                        *check,
                        second.begin_loop(while_label, endwhile_label).raw(while_label + ":\n"@),
                    ).branch_if_zero(endwhile_label);
                    if checked.error is Some {
                        checked
                    } else {
                        emit_statement(*body, checked).raw("    jmp "@ + while_label + "\n"@).raw(
                            endwhile_label + ":\n"@,
                        ).end_loop()
                    }
                }
            },
        }
    }
}

/// What is emitted for the arguments of a call, from left to right, up to
/// the first that fails.
pub open spec fn emit_args(args: Seq<ExprView>, emitter: Emitter) -> Emitter
    decreases args,
{
    if args.len() == 0 {
        emitter
    } else {
        let first = emit_expr(args[0], emitter);
        if first.error is Some {
            first
        } else {
            emit_args(args.skip(1), first)
        }
    }
}

/// What is emitted for the statements of a block, in order, up to the first
/// that fails.
pub open spec fn emit_block(statements: Seq<StatementView>, emitter: Emitter) -> Emitter
    decreases statements,
{
    if statements.len() == 0 {
        emitter
    } else {
        let first = emit_statement(statements[0], emitter);
        if first.error is Some {
            first
        } else {
            emit_block(statements.skip(1), first)
        }
    }
}

/// What the code generator emits for the statement `statement`, after
/// `emitter`.
pub open spec fn emit_statement(statement: StatementView, emitter: Emitter) -> Emitter
    decreases statement,
{
    if emitter.error is Some {
        emitter
    } else {
        match statement {
            StatementView::Exit { value } => emit_expr(value, emitter).exit_process(),
            StatementView::Let { identifier, value, is_mutable } => emit_expr(
                value,
                emitter,
            ).declare(identifier, is_mutable),
            StatementView::Expr(value) => emit_expr(value, emitter),
            StatementView::Break => emitter.jump_out(),
            StatementView::Continue => emitter.jump_back(),
            StatementView::Return(value) => emit_expr(value, emitter).pop("rax"@).unwind(),
        }
    }
}

/// What the code generator emits for an item: the function's label, its
/// body between the opening and the closing of its scopes.
pub open spec fn emit_item(item: ItemView, emitter: Emitter) -> Emitter {
    match item {
        ItemView::Function { name, params, body } => {
            let entered = emitter.raw(name + ":\n"@).enter_function(name);
            if entered.error is Some {
                entered
            } else {
                emit_statement(body, entered).exit_function()
            }
        },
    }
}

/// What is emitted for the items of a program, in order, up to the first
/// that fails.
pub open spec fn emit_items(items: Seq<ItemView>, emitter: Emitter) -> Emitter
    decreases items.len(),
{
    if items.len() == 0 {
        emitter
    } else {
        let first = emit_item(items[0], emitter);
        if first.error is Some {
            first
        } else {
            emit_items(items.skip(1), first)
        }
    }
}

/// What the code generator emits for a program: the declaration of the
/// entry symbol, then the items.
pub open spec fn emit_program(items: Seq<ItemView>, emitter: Emitter) -> Emitter {
    emit_items(items, emitter.raw("global _start\n"@))
}

/// Whether an emission that ended with `outcome`, with `text` written and
/// the context in `state`, is the emission `emitter`.
pub open spec fn agrees(
    emitter: Emitter,
    outcome: Result<(), CodegenError>,
    text: Seq<char>,
    state: ContextView,
) -> bool {
    match outcome {
        Ok(()) => emitter == Emitter::at(text, state),
        Err(error) => emitter == Emitter::at(text, state).failed(error@),
    }
}

/// Emits `push OPERAND` at the end of `code`.
fn put_push(context: &mut Context, code: &mut String, operand: &str) -> (outcome: Result<
    (),
    CodegenError,
>)
    requires
        old(context)@.wf(),
    ensures
        final(context)@.wf(),
        agrees(
            Emitter::at(old(code)@, old(context)@).push(operand@),
            outcome,
            final(code)@,
            final(context)@,
        ),
        outcome is Ok ==> final(context)@.frames.len() >= old(context)@.frames.len(),
{
    if !context.can_push() {
        return Err(CodegenError::LimitExceeded);
    }
    let line = context.push(operand);
    put(code, line.as_str());
    Ok(())
}

/// Emits `pop OPERAND` at the end of `code`.
fn put_pop(context: &mut Context, code: &mut String, operand: &str) -> (outcome: Result<
    (),
    CodegenError,
>)
    requires
        old(context)@.wf(),
    ensures
        final(context)@.wf(),
        agrees(
            Emitter::at(old(code)@, old(context)@).pop(operand@),
            outcome,
            final(code)@,
            final(context)@,
        ),
        outcome is Ok ==> final(context)@.frames.len() == old(context)@.frames.len(),
{
    if !context.can_pop() {
        return Err(CodegenError::EmptyStack);
    }
    let line = context.pop(operand);
    put(code, line.as_str());
    Ok(())
}

/// Emits the push of a copy of the variable `name` at the end of `code`.
fn put_load(context: &mut Context, code: &mut String, name: &String) -> (outcome: Result<
    (),
    CodegenError,
>)
    requires
        old(context)@.wf(),
    ensures
        final(context)@.wf(),
        agrees(
            Emitter::at(old(code)@, old(context)@).load(name@),
            outcome,
            final(code)@,
            final(context)@,
        ),
        outcome is Ok ==> final(context)@.frames.len() >= old(context)@.frames.len(),
{
    if !context.has_variable(name.as_str()) {
        return Err(CodegenError::IdentifierNotDeclared(name.clone()));
    }
    if !context.can_push() {
        return Err(CodegenError::LimitExceeded);
    }
    match context.get_variable(name.as_str()) {
        Some(line) => {
            put(code, line.as_str());
            Ok(())
        },
        None => Err(CodegenError::IdentifierNotDeclared(name.clone())),
    }
}

/// Emits the store of `source` in the variable `name` at the end of `code`.
fn put_store(context: &Context, code: &mut String, name: &String, source: &str) -> (outcome:
    Result<(), CodegenError>)
    requires
        context@.wf(),
    ensures
        agrees(
            Emitter::at(old(code)@, context@).store(name@, source@),
            outcome,
            final(code)@,
            context@,
        ),
{
    match context.set_variable(name.as_str(), source) {
        Ok(line) => {
            put(code, line.as_str());
            Ok(())
        },
        Err(error) => Err(error),
    }
}

/// Closes the innermost scope and emits the release of its slots at the
/// end of `code`.
fn put_exit(context: &mut Context, code: &mut String) -> (outcome: Result<(), CodegenError>)
    requires
        old(context)@.wf(),
    ensures
        final(context)@.wf(),
        agrees(
            Emitter::at(old(code)@, old(context)@).exit(),
            outcome,
            final(code)@,
            final(context)@,
        ),
        outcome is Ok ==> final(context)@.frames.len() + 1 == old(context)@.frames.len(),
{
    if context.depth() == 0 {
        return Err(CodegenError::EmptyStack);
    }
    let line = context.exit();
    put(code, line.as_str());
    Ok(())
}

/// A new label with the tag `tag`.
fn take_label(context: &mut Context, tag: &str) -> (label: Result<String, CodegenError>)
    requires
        old(context)@.wf(),
    ensures
        final(context)@.wf(),
        match label {
            Ok(label) => old(context)@.can_label(tag@) && label@ == label_text(
                tag@,
                old(context)@.label_count(tag@),
            ) && final(context)@ == old(context)@.with_label(tag@),
            Err(error) => !old(context)@.can_label(tag@) && error@
                == CodegenErrorView::LimitExceeded && final(context)@ == old(context)@,
        },
{
    if !context.can_label(tag) {
        return Err(CodegenError::LimitExceeded);
    }
    Ok(context.create_label(tag))
}

/// The instructions of `op` and the register that holds its result.
fn arithmetic_code(op: ArithmeticOp) -> (code: (&'static str, &'static str))
    ensures
        code.0@ == arithmetic_text(op),
        code.1@ == arithmetic_result(op),
{
    match op {
        ArithmeticOp::Add => ("    add rax, rbx\n", "rax"),
        ArithmeticOp::Sub => ("    sub rax, rbx\n", "rax"),
        ArithmeticOp::Mul => ("    mul rbx\n", "rax"),
        ArithmeticOp::Div => ("    xor rdx, rdx\n    div rbx\n", "rax"),
        ArithmeticOp::Mod => ("    xor rdx, rdx\n    div rbx\n", "rdx"),
    }
}

/// The instructions of `op`.
fn comparison_code(op: ComparisonOp) -> (code: &'static str)
    ensures
        code@ == comparison_text(op),
{
    match op {
        ComparisonOp::Eq => "    mov rcx, 0\n    cmp rax, rbx\n    sete cl\n",
        ComparisonOp::Ne => "    mov rcx, 0\n    cmp rax, rbx\n    setne cl\n",
        ComparisonOp::Lt => "    mov rcx, 0\n    cmp rax, rbx\n    setl cl\n",
        ComparisonOp::Le => "    mov rcx, 0\n    cmp rax, rbx\n    setle cl\n",
        ComparisonOp::Gt => "    mov rcx, 0\n    cmp rax, rbx\n    setg cl\n",
        ComparisonOp::Ge => "    mov rcx, 0\n    cmp rax, rbx\n    setge cl\n",
    }
}

/// Emits the instructions of `op` and the push of its result at the end
/// of `code`.
fn put_arithmetic(context: &mut Context, code: &mut String, op: ArithmeticOp) -> (outcome: Result<
    (),
    CodegenError,
>)
    requires
        old(context)@.wf(),
    ensures
        final(context)@.wf(),
        agrees(
            Emitter::at(old(code)@, old(context)@).raw(arithmetic_text(op)).push(
                arithmetic_result(op),
            ),
            outcome,
            final(code)@,
            final(context)@,
        ),
        outcome is Ok ==> final(context)@.frames.len() >= old(context)@.frames.len(),
{
    let (instructions, result) = arithmetic_code(op);
    put(code, instructions);
    put_push(context, code, result)
}

/// Emits the instructions of `op` and the push of its outcome at the end
/// of `code`.
fn put_comparison(context: &mut Context, code: &mut String, op: ComparisonOp) -> (outcome: Result<
    (),
    CodegenError,
>)
    requires
        old(context)@.wf(),
    ensures
        final(context)@.wf(),
        agrees(
            Emitter::at(old(code)@, old(context)@).raw(comparison_text(op)).push("rcx"@),
            outcome,
            final(code)@,
            final(context)@,
        ),
        outcome is Ok ==> final(context)@.frames.len() >= old(context)@.frames.len(),
{
    let instructions = comparison_code(op);
    put(code, instructions);
    put_push(context, code, "rcx")
}

/// Emits, after the code of the value, what combines it with the variable
/// `name` by `op` and stores the result there.
fn put_assign(context: &mut Context, code: &mut String, op: ArithmeticOp, name: &String) -> (outcome:
    Result<(), CodegenError>)
    requires
        old(context)@.wf(),
    ensures
        final(context)@.wf(),
        agrees(
            Emitter::at(old(code)@, old(context)@).assign(op, name@),
            outcome,
            final(code)@,
            final(context)@,
        ),
        outcome is Ok ==> final(context)@.frames.len() >= old(context)@.frames.len(),
{
    let (instructions, result) = arithmetic_code(op);
    put_load(context, code, name)?;
    put_pop(context, code, "rax")?;
    put_pop(context, code, "rbx")?;
    put(code, instructions);
    put_store(context, code, name, result)
}

/// Emits what takes the top of the stack and jumps to `target` where it
/// is zero.
fn put_branch_if_zero(context: &mut Context, code: &mut String, target: &String) -> (outcome:
    Result<(), CodegenError>)
    requires
        old(context)@.wf(),
    ensures
        final(context)@.wf(),
        agrees(
            Emitter::at(old(code)@, old(context)@).branch_if_zero(target@),
            outcome,
            final(code)@,
            final(context)@,
        ),
        outcome is Ok ==> final(context)@.frames.len() == old(context)@.frames.len(),
{
    put_pop(context, code, "rax")?;
    put(code, "    or rax, rax\n");
    put_framed(code, "    jz ", target.as_str(), "\n");
    Ok(())
}

/// Accounts for a call with `arguments` arguments that has returned.
fn put_returned(context: &mut Context, code: &String, arguments: usize) -> (outcome: Result<
    (),
    CodegenError,
>)
    requires
        old(context)@.wf(),
    ensures
        final(context)@.wf(),
        agrees(
            Emitter::at(code@, old(context)@).returned(arguments as nat),
            outcome,
            code@,
            final(context)@,
        ),
        outcome is Ok ==> final(context)@.frames.len() >= old(context)@.frames.len(),
{
    if arguments > 0 {
        if !context.holds(arguments as u64) {
            return Err(CodegenError::EmptyStack);
        }
        context.release(arguments as u64);
    } else if !context.can_push() {
        return Err(CodegenError::LimitExceeded);
    }
    context.claim();
    Ok(())
}

/// Emits the code of the two operands of `parent`, the left one first, and
/// takes their values into `rbx` and `rax`.
fn prepare_binop_registers(
    parent: &Expr,
    lhs: &Expr,
    rhs: &Expr,
    context: &mut Context,
    code: &mut String,
) -> (outcome: Result<(), CodegenError>)
    requires
        old(context)@.wf(),
        decreases_to!(parent => lhs),
        decreases_to!(parent => rhs),
    ensures
        final(context)@.wf(),
        agrees(
            {
                let left = emit_expr(lhs@, Emitter::at(old(code)@, old(context)@));
                if left.error is Some {
                    left
                } else {
                    emit_expr(rhs@, left).operands()
                }
            },
            outcome,
            final(code)@,
            final(context)@,
        ),
        outcome is Ok ==> final(context)@.frames.len() >= old(context)@.frames.len(),
    decreases parent, 0nat,
{
    expr_into(lhs, context, code)?;
    expr_into(rhs, context, code)?;
    put_pop(context, code, "rbx")?;
    put_pop(context, code, "rax")
}

/// Emits the code of the arguments `args` of the call `parent`.
fn args_into(parent: &Expr, args: &Vec<Expr>, context: &mut Context, code: &mut String) -> (outcome:
    Result<(), CodegenError>)
    requires
        old(context)@.wf(),
        decreases_to!(parent => args),
    ensures
        final(context)@.wf(),
        agrees(
            emit_args(crate::ast::expr_views(args@), Emitter::at(old(code)@, old(context)@)),
            outcome,
            final(code)@,
            final(context)@,
        ),
        outcome is Ok ==> final(context)@.frames.len() >= old(context)@.frames.len(),
    decreases parent, 0nat,
{
    let ghost start = Emitter::at(code@, context@);
    let ghost views = crate::ast::expr_views(args@);
    let mut i: usize = 0;
    assert(views.skip(0) =~= views);
    while i < args.len()
        invariant
            i <= args.len(),
            context@.wf(),
            views == crate::ast::expr_views(args@),
            start == Emitter::at(old(code)@, old(context)@),
            emit_args(views, start) == emit_args(
                views.skip(i as int),
                Emitter::at(code@, context@),
            ),
            context@.frames.len() >= old(context)@.frames.len(),
            decreases_to!(parent => args),
        decreases args.len() - i,
    {
        assert(views.skip(i as int)[0] == args@[i as int]@);
        assert(views.skip(i as int).skip(1) =~= views.skip(i + 1));
        expr_into(&args[i], context, code)?;
        i += 1;
    }
    Ok(())
}

/// Emits the code of the statements of the block `parent`.
fn statements_into(
    parent: &Expr,
    statements: &Vec<Statement>,
    context: &mut Context,
    code: &mut String,
) -> (outcome: Result<(), CodegenError>)
    requires
        old(context)@.wf(),
        decreases_to!(parent => statements),
    ensures
        final(context)@.wf(),
        agrees(
            emit_block(
                crate::ast::statement_views(statements@),
                Emitter::at(old(code)@, old(context)@),
            ),
            outcome,
            final(code)@,
            final(context)@,
        ),
        outcome is Ok ==> final(context)@.frames.len() >= old(context)@.frames.len(),
    decreases parent, 0nat,
{
    let ghost start = Emitter::at(code@, context@);
    let ghost views = crate::ast::statement_views(statements@);
    let mut i: usize = 0;
    assert(views.skip(0) =~= views);
    while i < statements.len()
        invariant
            i <= statements.len(),
            context@.wf(),
            views == crate::ast::statement_views(statements@),
            start == Emitter::at(old(code)@, old(context)@),
            emit_block(views, start) == emit_block(
                views.skip(i as int),
                Emitter::at(code@, context@),
            ),
            context@.frames.len() >= old(context)@.frames.len(),
            decreases_to!(parent => statements),
        decreases statements.len() - i,
    {
        assert(views.skip(i as int)[0] == statements@[i as int]@);
        assert(views.skip(i as int).skip(1) =~= views.skip(i + 1));
        statement_into(&statements[i], context, code)?;
        i += 1;
    }
    Ok(())
}

/// Emits the code of `statement`, a part of `parent`, in a scope of its own.
fn scoped_into(parent: &Expr, statement: &Statement, context: &mut Context, code: &mut String) -> (outcome:
    Result<(), CodegenError>)
    requires
        old(context)@.wf(),
        decreases_to!(parent => statement),
    ensures
        final(context)@.wf(),
        agrees(
            emit_statement(statement@, Emitter::at(old(code)@, old(context)@).enter()).exit(),
            outcome,
            final(code)@,
            final(context)@,
        ),
        outcome is Ok ==> final(context)@.frames.len() >= old(context)@.frames.len(),
    decreases parent, 0nat,
{
    let _ = context.enter();
    statement_into(statement, context, code)?;
    put_exit(context, code)
}

/// Emits the code of the conditional `parent`.
fn if_into(
    parent: &Expr,
    check: &Expr,
    body: &Statement,
    els: Option<&Statement>,
    context: &mut Context,
    code: &mut String,
) -> (outcome: Result<(), CodegenError>)
    requires
        old(context)@.wf(),
        parent@ == (ExprView::If {
            check: Box::new(check@),
            body: Box::new(body@),
            els: match els {
                Some(statement) => Some(Box::new(statement@)),
                None => None,
            },
        }),
        decreases_to!(parent => check),
        decreases_to!(parent => body),
        els matches Some(statement) ==> decreases_to!(parent => statement),
    ensures
        final(context)@.wf(),
        agrees(
            emit_expr(parent@, Emitter::at(old(code)@, old(context)@)),
            outcome,
            final(code)@,
            final(context)@,
        ),
        outcome is Ok ==> final(context)@.frames.len() >= old(context)@.frames.len(),
    decreases parent, 1nat,
{
    let if_label = take_label(context, "if")?;
    let else_label = take_label(context, "else")?;
    let endif_label = take_label(context, "endif")?;
    put_framed(code, "", if_label.as_str(), ":\n");
    assert(""@ + if_label@ + ":\n"@ =~= if_label@ + ":\n"@) by {
        reveal_strlit("");
    }
    expr_into(check, context, code)?;
    put_branch_if_zero(context, code, &else_label)?;
    scoped_into(parent, body, context, code)?;
    put_framed(code, "    jmp ", endif_label.as_str(), "\n");
    put_framed(code, "", else_label.as_str(), ":\n");
    assert(""@ + else_label@ + ":\n"@ =~= else_label@ + ":\n"@) by {
        reveal_strlit("");
    }
    match els {
        Some(statement) => {
            scoped_into(parent, statement, context, code)?;
        },
        None => {},
    }
    put_framed(code, "", endif_label.as_str(), ":\n");
    assert(""@ + endif_label@ + ":\n"@ =~= endif_label@ + ":\n"@) by {
        reveal_strlit("");
    }
    Ok(())
}

/// Emits the code of the infinite loop `parent`.
fn loop_into(parent: &Expr, body: &Statement, context: &mut Context, code: &mut String) -> (outcome:
    Result<(), CodegenError>)
    requires
        old(context)@.wf(),
        parent@ == (ExprView::Loop { body: Box::new(body@) }),
        decreases_to!(parent => body),
    ensures
        final(context)@.wf(),
        agrees(
            emit_expr(parent@, Emitter::at(old(code)@, old(context)@)),
            outcome,
            final(code)@,
            final(context)@,
        ),
        outcome is Ok ==> final(context)@.frames.len() >= old(context)@.frames.len(),
    decreases parent, 1nat,
{
    let loop_label = take_label(context, "loop")?;
    let endloop_label = take_label(context, "endloop")?;
    context.enter_labelled_region(
        LabelFrame { start: loop_label.clone(), end: endloop_label.clone() },
    );
    put_framed(code, "", loop_label.as_str(), ":\n");
    assert(""@ + loop_label@ + ":\n"@ =~= loop_label@ + ":\n"@) by {
        reveal_strlit("");
    }
    statement_into(body, context, code)?;
    put_framed(code, "    jmp ", loop_label.as_str(), "\n");
    put_framed(code, "", endloop_label.as_str(), ":\n");
    assert(""@ + endloop_label@ + ":\n"@ =~= endloop_label@ + ":\n"@) by {
        reveal_strlit("");
    }
    let _ = context.exit_labelled_region();
    Ok(())
}

/// Emits the code of the conditional loop `parent`.
fn while_into(
    parent: &Expr,
    check: &Expr,
    body: &Statement,
    context: &mut Context,
    code: &mut String,
) -> (outcome: Result<(), CodegenError>)
    requires
        old(context)@.wf(),
        parent@ == (ExprView::While { check: Box::new(check@), body: Box::new(body@) }),
        decreases_to!(parent => check),
        decreases_to!(parent => body),
    ensures
        final(context)@.wf(),
        agrees(
            emit_expr(parent@, Emitter::at(old(code)@, old(context)@)),
            outcome,
            final(code)@,
            final(context)@,
        ),
        outcome is Ok ==> final(context)@.frames.len() >= old(context)@.frames.len(),
    decreases parent, 1nat,
{
    let while_label = take_label(context, "while")?;
    let endwhile_label = take_label(context, "endwhile")?;
    context.enter_labelled_region(
        LabelFrame { start: while_label.clone(), end: endwhile_label.clone() },
    );
    put_framed(code, "", while_label.as_str(), ":\n");
    assert(""@ + while_label@ + ":\n"@ =~= while_label@ + ":\n"@) by {
        reveal_strlit("");
    }
    expr_into(check, context, code)?;
    put_branch_if_zero(context, code, &endwhile_label)?;
    statement_into(body, context, code)?;
    put_framed(code, "    jmp ", while_label.as_str(), "\n");
    put_framed(code, "", endwhile_label.as_str(), ":\n");
    assert(""@ + endwhile_label@ + ":\n"@ =~= endwhile_label@ + ":\n"@) by {
        reveal_strlit("");
    }
    let _ = context.exit_labelled_region();
    Ok(())
}

/// The root of an expression and its parts, by kind.
enum Shape<'a> {
    Arithmetic(ArithmeticOp, &'a Expr, &'a Expr),
    Comparison(ComparisonOp, &'a Expr, &'a Expr),
    Assign(ArithmeticOp, &'a String, &'a Expr),
    IntegerLiteral(&'a String),
    Identifier(&'a String),
    FunctionCall(&'a String, &'a Vec<Expr>),
    Block(&'a Vec<Statement>),
    If(&'a Expr, &'a Statement, Option<&'a Statement>),
    Loop(&'a Statement),
    While(&'a Expr, &'a Statement),
}

impl<'a> Shape<'a> {
    /// The expression that has this root and these parts.
    spec fn view(&self) -> ExprView {
        match self {
            Shape::Arithmetic(op, lhs, rhs) => ExprView::Arithmetic {
                op: *op,
                lhs: Box::new(lhs@),
                rhs: Box::new(rhs@),
            },
            Shape::Comparison(op, lhs, rhs) => ExprView::Comparison {
                op: *op,
                lhs: Box::new(lhs@),
                rhs: Box::new(rhs@),
            },
            Shape::Assign(op, identifier, value) => ExprView::Assign {
                op: *op,
                identifier: identifier@,
                value: Box::new(value@),
            },
            Shape::IntegerLiteral(text) => ExprView::IntegerLiteral(text@),
            Shape::Identifier(name) => ExprView::Identifier(name@),
            Shape::FunctionCall(name, args) => ExprView::FunctionCall {
                name: name@,
                args: crate::ast::expr_views(args@),
            },
            Shape::Block(statements) => ExprView::Block(crate::ast::statement_views(statements@)),
            Shape::If(check, body, els) => ExprView::If {
                check: Box::new(check@),
                body: Box::new(body@),
                els: match els {
                    Some(statement) => Some(Box::new(statement@)),
                    None => None,
                },
            },
            Shape::Loop(body) => ExprView::Loop { body: Box::new(body@) },
            Shape::While(check, body) => ExprView::While {
                check: Box::new(check@),
                body: Box::new(body@),
            },
        }
    }

    /// Every part is a proper part of `whole`.
    spec fn within(&self, whole: &Expr) -> bool {
        match self {
            Shape::Arithmetic(_, lhs, rhs) => decreases_to!(whole => lhs) && decreases_to!(whole => rhs),
            Shape::Comparison(_, lhs, rhs) => decreases_to!(whole => lhs) && decreases_to!(whole => rhs),
            Shape::Assign(_, _, value) => decreases_to!(whole => value),
            Shape::IntegerLiteral(_) => true,
            Shape::Identifier(_) => true,
            Shape::FunctionCall(_, args) => decreases_to!(whole => args),
            Shape::Block(statements) => decreases_to!(whole => statements),
            Shape::If(check, body, els) => decreases_to!(whole => check) && decreases_to!(whole => body)
                && (els matches Some(statement) ==> decreases_to!(whole => statement)),
            Shape::Loop(body) => decreases_to!(whole => body),
            Shape::While(check, body) => decreases_to!(whole => check) && decreases_to!(whole => body),
        }
    }
}

/// Takes `expr` apart.
fn shape(expr: &Expr) -> (parts: Shape<'_>)
    ensures
        parts@ == expr@,
        parts.within(expr),
{
    match expr {
        Expr::Add(a, b) => Shape::Arithmetic(ArithmeticOp::Add, a, b),
        Expr::Sub(a, b) => Shape::Arithmetic(ArithmeticOp::Sub, a, b),
        Expr::Mul(a, b) => Shape::Arithmetic(ArithmeticOp::Mul, a, b),
        Expr::Div(a, b) => Shape::Arithmetic(ArithmeticOp::Div, a, b),
        Expr::Mod(a, b) => Shape::Arithmetic(ArithmeticOp::Mod, a, b),
        Expr::AddAssign { identifier, value } => Shape::Assign(ArithmeticOp::Add, identifier, value),
        Expr::SubAssign { identifier, value } => Shape::Assign(ArithmeticOp::Sub, identifier, value),
        Expr::MulAssign { identifier, value } => Shape::Assign(ArithmeticOp::Mul, identifier, value),
        Expr::DivAssign { identifier, value } => Shape::Assign(ArithmeticOp::Div, identifier, value),
        Expr::ModAssign { identifier, value } => Shape::Assign(ArithmeticOp::Mod, identifier, value),
        Expr::Eq(a, b) => Shape::Comparison(ComparisonOp::Eq, a, b),
        Expr::Ne(a, b) => Shape::Comparison(ComparisonOp::Ne, a, b),
        Expr::Lt(a, b) => Shape::Comparison(ComparisonOp::Lt, a, b),
        Expr::Le(a, b) => Shape::Comparison(ComparisonOp::Le, a, b),
        Expr::Gt(a, b) => Shape::Comparison(ComparisonOp::Gt, a, b),
        Expr::Ge(a, b) => Shape::Comparison(ComparisonOp::Ge, a, b),
        Expr::IntegerLiteral(text) => Shape::IntegerLiteral(text),
        Expr::Identifier(name) => Shape::Identifier(name),
        Expr::FunctionCall { name, args } => Shape::FunctionCall(name, args),
        Expr::Block(statements) => Shape::Block(statements),
        Expr::If { check, body, els } => Shape::If(
            check,
            body,
            match els {
                Some(statement) => Some(statement),
                None => None,
            },
        ),
        Expr::Loop { body } => Shape::Loop(body),
        Expr::While { check, body } => Shape::While(check, body),
    }
}

/// Emits the code of the arithmetic expression `parent`.
fn arithmetic_into(
    parent: &Expr,
    op: ArithmeticOp,
    lhs: &Expr,
    rhs: &Expr,
    context: &mut Context,
    code: &mut String,
) -> (outcome: Result<(), CodegenError>)
    requires
        old(context)@.wf(),
        parent@ == (ExprView::Arithmetic { op, lhs: Box::new(lhs@), rhs: Box::new(rhs@) }),
        decreases_to!(parent => lhs),
        decreases_to!(parent => rhs),
    ensures
        final(context)@.wf(),
        agrees(
            emit_expr(parent@, Emitter::at(old(code)@, old(context)@)),
            outcome,
            final(code)@,
            final(context)@,
        ),
        outcome is Ok ==> final(context)@.frames.len() >= old(context)@.frames.len(),
    decreases parent, 1nat,
{
    prepare_binop_registers(parent, lhs, rhs, context, code)?;
    put_arithmetic(context, code, op)
}

/// Emits the code of the comparison `parent`.
fn comparison_into(
    parent: &Expr,
    op: ComparisonOp,
    lhs: &Expr,
    rhs: &Expr,
    context: &mut Context,
    code: &mut String,
) -> (outcome: Result<(), CodegenError>)
    requires
        old(context)@.wf(),
        parent@ == (ExprView::Comparison { op, lhs: Box::new(lhs@), rhs: Box::new(rhs@) }),
        decreases_to!(parent => lhs),
        decreases_to!(parent => rhs),
    ensures
        final(context)@.wf(),
        agrees(
            emit_expr(parent@, Emitter::at(old(code)@, old(context)@)),
            outcome,
            final(code)@,
            final(context)@,
        ),
        outcome is Ok ==> final(context)@.frames.len() >= old(context)@.frames.len(),
    decreases parent, 1nat,
{
    prepare_binop_registers(parent, lhs, rhs, context, code)?;
    put_comparison(context, code, op)
}

/// Emits the code of the compound assignment `parent`.
fn assign_into(
    parent: &Expr,
    op: ArithmeticOp,
    identifier: &String,
    value: &Expr,
    context: &mut Context,
    code: &mut String,
) -> (outcome: Result<(), CodegenError>)
    requires
        old(context)@.wf(),
        parent@ == (ExprView::Assign { op, identifier: identifier@, value: Box::new(value@) }),
        decreases_to!(parent => value),
    ensures
        final(context)@.wf(),
        agrees(
            emit_expr(parent@, Emitter::at(old(code)@, old(context)@)),
            outcome,
            final(code)@,
            final(context)@,
        ),
        outcome is Ok ==> final(context)@.frames.len() >= old(context)@.frames.len(),
    decreases parent, 1nat,
{
    expr_into(value, context, code)?;
    put_assign(context, code, op, identifier)
}

/// Emits the code of the integer literal `parent`.
fn literal_into(
    parent: &Expr,
    text: &String,
    context: &mut Context,
    code: &mut String,
) -> (outcome: Result<(), CodegenError>)
    requires
        old(context)@.wf(),
        parent@ == ExprView::IntegerLiteral(text@),
    ensures
        final(context)@.wf(),
        agrees(
            emit_expr(parent@, Emitter::at(old(code)@, old(context)@)),
            outcome,
            final(code)@,
            final(context)@,
        ),
        outcome is Ok ==> final(context)@.frames.len() >= old(context)@.frames.len(),
    decreases parent, 1nat,
{
    put_push(context, code, text.as_str())
}

/// Emits the code of the use of a variable, `parent`.
fn identifier_into(
    parent: &Expr,
    name: &String,
    context: &mut Context,
    code: &mut String,
) -> (outcome: Result<(), CodegenError>)
    requires
        old(context)@.wf(),
        parent@ == ExprView::Identifier(name@),
    ensures
        final(context)@.wf(),
        agrees(
            emit_expr(parent@, Emitter::at(old(code)@, old(context)@)),
            outcome,
            final(code)@,
            final(context)@,
        ),
        outcome is Ok ==> final(context)@.frames.len() >= old(context)@.frames.len(),
    decreases parent, 1nat,
{
    put_load(context, code, name)
}

/// Emits the code of the call `parent`.
fn call_into(
    parent: &Expr,
    name: &String,
    args: &Vec<Expr>,
    context: &mut Context,
    code: &mut String,
) -> (outcome: Result<(), CodegenError>)
    requires
        old(context)@.wf(),
        parent@ == (ExprView::FunctionCall { name: name@, args: crate::ast::expr_views(args@) }),
        decreases_to!(parent => args),
    ensures
        final(context)@.wf(),
        agrees(
            emit_expr(parent@, Emitter::at(old(code)@, old(context)@)),
            outcome,
            final(code)@,
            final(context)@,
        ),
        outcome is Ok ==> final(context)@.frames.len() >= old(context)@.frames.len(),
    decreases parent, 1nat,
{
    if !context.knows_function(name.as_str()) {
        return Err(CodegenError::FunctionNotDeclared(name.clone()));
    }
    args_into(parent, args, context, code)?;
    put_framed(code, "    call ", name.as_str(), "\n");
    assert(crate::ast::expr_views(args@).len() == args.len());
    put_returned(context, code, args.len())
}

/// Emits the code of the block `parent`.
fn block_into(
    parent: &Expr,
    statements: &Vec<Statement>,
    context: &mut Context,
    code: &mut String,
) -> (outcome: Result<(), CodegenError>)
    requires
        old(context)@.wf(),
        parent@ == ExprView::Block(crate::ast::statement_views(statements@)),
        decreases_to!(parent => statements),
    ensures
        final(context)@.wf(),
        agrees(
            emit_expr(parent@, Emitter::at(old(code)@, old(context)@)),
            outcome,
            final(code)@,
            final(context)@,
        ),
        outcome is Ok ==> final(context)@.frames.len() >= old(context)@.frames.len(),
    decreases parent, 1nat,
{
    let _ = context.enter();
    statements_into(parent, statements, context, code)?;
    put_exit(context, code)
}

/// Emits the code of `expr` at the end of `code`.
fn expr_into(expr: &Expr, context: &mut Context, code: &mut String) -> (outcome: Result<
    (),
    CodegenError,
>)
    requires
        old(context)@.wf(),
    ensures
        final(context)@.wf(),
        agrees(
            emit_expr(expr@, Emitter::at(old(code)@, old(context)@)),
            outcome,
            final(code)@,
            final(context)@,
        ),
        outcome is Ok ==> final(context)@.frames.len() >= old(context)@.frames.len(),
    decreases expr, 2nat,
{
    match shape(expr) {
        Shape::Arithmetic(op, lhs, rhs) => arithmetic_into(expr, op, lhs, rhs, context, code),
        Shape::Comparison(op, lhs, rhs) => comparison_into(expr, op, lhs, rhs, context, code),
        Shape::Assign(op, identifier, value) => assign_into(
            expr,
            op,
            identifier,
            value,
            context,
            code,
        ),
        Shape::IntegerLiteral(text) => literal_into(expr, text, context, code),
        Shape::Identifier(name) => identifier_into(expr, name, context, code),
        Shape::FunctionCall(name, args) => call_into(expr, name, args, context, code),
        Shape::Block(statements) => block_into(expr, statements, context, code),
        Shape::If(check, body, els) => if_into(expr, check, body, els, context, code),
        Shape::Loop(body) => loop_into(expr, body, context, code),
        Shape::While(check, body) => while_into(expr, check, body, context, code),
    }
}

/// Emits the code of `statement` at the end of `code`.
fn statement_into(statement: &Statement, context: &mut Context, code: &mut String) -> (outcome:
    Result<(), CodegenError>)
    requires
        old(context)@.wf(),
    ensures
        final(context)@.wf(),
        agrees(
            emit_statement(statement@, Emitter::at(old(code)@, old(context)@)),
            outcome,
            final(code)@,
            final(context)@,
        ),
        outcome is Ok ==> final(context)@.frames.len() >= old(context)@.frames.len(),
    decreases statement, 2nat,
{
    match statement {
        Statement::Exit { value } => {
            expr_into(value, context, code)?;
            put(code, "    mov rax, 60\n");
            put_pop(context, code, "rdi")?;
            put(code, "    syscall\n");
            Ok(())
        },
        Statement::Let { identifier, value, is_mutable } => {
            expr_into(value, context, code)?;
            context.declare_variable(identifier.clone(), *is_mutable);
            Ok(())
        },
        Statement::Expr(value) => expr_into(value, context, code),
        Statement::Break => {
            match context.get_labelled_region() {
                Some(region) => {
                    put_framed(code, "    jmp ", region.end.as_str(), "\n");
                    Ok(())
                },
                None => Err(CodegenError::OutsideLoop),
            }
        },
        Statement::Continue => {
            match context.get_labelled_region() {
                Some(region) => {
                    put_framed(code, "    jmp ", region.start.as_str(), "\n");
                    Ok(())
                },
                None => Err(CodegenError::OutsideLoop),
            }
        },
        Statement::Return(value) => {
            expr_into(value, context, code)?;
            put_pop(context, code, "rax")?;
            let sequence = context.unwind()?;
            put(code, sequence.as_str());
            Ok(())
        },
    }
}

/// Emits the code of `item` at the end of `code`.
fn item_into(item: &Item, context: &mut Context, code: &mut String) -> (outcome: Result<
    (),
    CodegenError,
>)
    requires
        old(context)@.wf(),
    ensures
        final(context)@.wf(),
        agrees(
            emit_item(item@, Emitter::at(old(code)@, old(context)@)),
            outcome,
            final(code)@,
            final(context)@,
        ),
{
    match item {
        Item::Function { name, params, body } => {
            put_framed(code, "", name.as_str(), ":\n");
            assert(""@ + name@ + ":\n"@ =~= name@ + ":\n"@) by {
                reveal_strlit("");
            }
            match context.enter_function(name.as_str()) {
                Ok(_) => {},
                Err(error) => {
                    return Err(error);
                },
            }
            statement_into(body, context, code)?;
            let epilogue = context.exit_function()?;
            put(code, epilogue.as_str());
            Ok(())
        },
    }
}

/// Emits the code of `items`, in order, at the end of `code`.
fn items_into(items: &Vec<Item>, context: &mut Context, code: &mut String) -> (outcome: Result<
    (),
    CodegenError,
>)
    requires
        old(context)@.wf(),
    ensures
        final(context)@.wf(),
        agrees(
            emit_items(crate::ast::item_views(items@), Emitter::at(old(code)@, old(context)@)),
            outcome,
            final(code)@,
            final(context)@,
        ),
{
    let ghost start = Emitter::at(code@, context@);
    let ghost views = crate::ast::item_views(items@);
    let mut i: usize = 0;
    assert(views.skip(0) =~= views);
    while i < items.len()
        invariant
            i <= items.len(),
            context@.wf(),
            views == crate::ast::item_views(items@),
            start == Emitter::at(old(code)@, old(context)@),
            emit_items(views, start) == emit_items(
                views.skip(i as int),
                Emitter::at(code@, context@),
            ),
        decreases items.len() - i,
    {
        assert(views.skip(i as int)[0] == items@[i as int]@);
        assert(views.skip(i as int).skip(1) =~= views.skip(i + 1));
        item_into(&items[i], context, code)?;
        i += 1;
    }
    Ok(())
}

/// What can be generated code for: a program and each part of one.
pub trait Codegen: Sized {
    /// What is emitted for this, after `emitter`.
    spec fn emission(&self, emitter: Emitter) -> Emitter;

    /// Emits the assembly text of this, as `context` stands, and leaves
    /// `context` as the emission leaves it.
    fn codegen_x86(self, context: &mut Context) -> (code: Result<String, CodegenError>)
        requires
            old(context)@.wf(),
        ensures
            final(context)@.wf(),
            match code {
                Ok(text) => self.emission(Emitter::start(old(context)@)) == Emitter::at(
                    text@,
                    final(context)@,
                ),
                Err(error) => self.emission(Emitter::start(old(context)@)).error == Some(error@)
                    && self.emission(Emitter::start(old(context)@)).state == final(context)@,
            },
    ;
}

impl Codegen for Expr {
    open spec fn emission(&self, emitter: Emitter) -> Emitter {
        emit_expr(self@, emitter)
    }

    /// Where the expression computes a value and nothing else, the context
    /// is left with exactly one slot more; where it is a block, with the
    /// stack as high as it was.
    fn codegen_x86(self, context: &mut Context) -> (code: Result<String, CodegenError>)
        ensures
            code is Ok && yields_value(self@) ==> final(context)@ == old(context)@.pushed(),
            code is Ok && self@ is Block ==> final(context)@.height == old(context)@.height
                && final(context)@.frames == old(context)@.frames,
    {
        let mut code = String::new();
        proof {
            let start = Emitter::start(context@);
            if emit_expr(self@, start).error is None {
                if yields_value(self@) {
                    lemma_value_takes_one_slot(self@, start);
                }
                if self@ is Block {
                    lemma_block_is_balanced(self@->Block_0, start);
                }
            }
        }
        match expr_into(&self, context, &mut code) {
            Ok(()) => Ok(code),
            Err(error) => Err(error),
        }
    }
}

impl Codegen for Statement {
    open spec fn emission(&self, emitter: Emitter) -> Emitter {
        emit_statement(self@, emitter)
    }

    fn codegen_x86(self, context: &mut Context) -> (code: Result<String, CodegenError>) {
        let mut code = String::new();
        match statement_into(&self, context, &mut code) {
            Ok(()) => Ok(code),
            Err(error) => Err(error),
        }
    }
}

impl Codegen for Item {
    open spec fn emission(&self, emitter: Emitter) -> Emitter {
        emit_item(self@, emitter)
    }

    /// The scopes, the height of the symbolic stack and the loops are left
    /// as they were.
    fn codegen_x86(self, context: &mut Context) -> (code: Result<String, CodegenError>)
        ensures
            code is Ok ==> old(context)@.keeps_stack(final(context)@),
    {
        let mut code = String::new();
        proof {
            let start = Emitter::start(context@);
            if emit_item(self@, start).error is None {
                lemma_item_is_balanced(self@, start);
            }
        }
        match item_into(&self, context, &mut code) {
            Ok(()) => Ok(code),
            Err(error) => Err(error),
        }
    }
}

impl Codegen for Program {
    open spec fn emission(&self, emitter: Emitter) -> Emitter {
        emit_program(self@, emitter)
    }

    fn codegen_x86(self, context: &mut Context) -> (code: Result<String, CodegenError>) {
        let mut code = String::from_str("global _start\n");
        assert(code@ =~= Seq::<char>::empty() + "global _start\n"@);
        match items_into(&self.0, context, &mut code) {
            Ok(()) => Ok(code),
            Err(error) => Err(error),
        }
    }
}

} // verus!

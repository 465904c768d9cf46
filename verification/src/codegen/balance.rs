//! How the emitted code treats the symbolic stack: what an expression
//! leaves on it, what a block leaves of it, and where a jump has no loop to
//! leave.

use crate::ast::{ExprView, ItemView, StatementView};
use crate::codegen::x86::{
    emit_args, emit_block, emit_expr, emit_item, emit_statement, Emitter,
};
use crate::codegen::CodegenErrorView;
use crate::context::{lemma_total_bounds, lemma_total_push, ContextView, FrameView};
use vstd::prelude::*;

verus! {

impl ContextView {
    /// `after` is this state but for the innermost frame, in which slots and
    /// variables may have come and gone, and for the label counters.
    pub open spec fn keeps_base(self, after: ContextView) -> bool {
        &&& self.frames.len() > 0
        &&& after.frames.len() == self.frames.len()
        &&& after.frames.drop_last() =~= self.frames.drop_last()
        &&& after.height - after.frames.last().size == self.height - self.frames.last().size
        &&& after.regions =~= self.regions
        &&& after.functions == self.functions
        &&& after.wf()
    }

    /// `after` is this state but for the label counters.
    pub open spec fn keeps_stack(self, after: ContextView) -> bool {
        &&& after.frames =~= self.frames
        &&& after.height == self.height
        &&& after.regions =~= self.regions
        &&& after.functions == self.functions
    }
}

/// A slot more is a slot more in the innermost frame.
pub broadcast proof fn lemma_pushed(state: ContextView)
    requires
        state.wf(),
        state.can_push(),
    ensures
        #![trigger state.pushed()]
        state.pushed().wf(),
        state.pushed().frames.len() > 0,
        state.pushed().frames.last().size > 0,
        state.frames.len() > 0 ==> state.keeps_base(state.pushed()),
{
    if state.frames.len() > 0 {
        let top = state.frames.last();
        lemma_total_push(state.frames.drop_last(), top.resized(top.size + 1));
        assert(state.frames.drop_last().push(top) =~= state.frames);
        lemma_total_push(state.frames.drop_last(), top);
    } else {
        lemma_total_push(Seq::empty(), FrameView::sized(1));
        assert(Seq::<FrameView>::empty().push(FrameView::sized(1)) =~= seq![FrameView::sized(1)]);
    }
}

/// Slots given up are given up in the innermost frame.
pub broadcast proof fn lemma_released(state: ContextView, slots: nat)
    requires
        state.wf(),
        state.holds(slots),
    ensures
        #![trigger state.released(slots)]
        state.keeps_base(state.released(slots)),
        state.released(slots).height + slots == state.height,
{
    let top = state.frames.last();
    lemma_total_bounds(state.frames, state.frames.len() - 1);
    lemma_total_push(state.frames.drop_last(), top.resized((top.size - slots) as nat));
    assert(state.frames.drop_last().push(top) =~= state.frames);
    lemma_total_push(state.frames.drop_last(), top);
}

/// A declaration changes the innermost frame alone.
pub broadcast proof fn lemma_with_variable(state: ContextView, name: Seq<char>, is_mutable: bool)
    requires
        state.wf(),
    ensures
        #![trigger state.with_variable(name, is_mutable)]
        state.with_variable(name, is_mutable).wf(),
        state.with_variable(name, is_mutable).height == state.height,
        state.frames.len() > 0 ==> state.keeps_base(state.with_variable(name, is_mutable)),
{
    if state.frames.len() > 0 {
        let top = state.frames.last();
        lemma_total_push(
            state.frames.drop_last(),
            top.with_variable(name, top.size, is_mutable),
        );
        assert(state.frames.drop_last().push(top) =~= state.frames);
        lemma_total_push(state.frames.drop_last(), top);
    } else {
        let frame = FrameView::sized(0).with_variable(name, 0, is_mutable);
        lemma_total_push(Seq::empty(), frame);
        assert(Seq::<FrameView>::empty().push(frame) =~= seq![frame]);
    }
}

/// A new scope is an empty frame on top.
pub broadcast proof fn lemma_entered(state: ContextView)
    requires
        state.wf(),
    ensures
        #![trigger state.entered()]
        state.entered().wf(),
        state.entered().frames.drop_last() =~= state.frames,
        state.entered().frames.last().size == 0,
{
    lemma_total_push(state.frames, FrameView::sized(0));
}

/// A scope that is left takes its slots with it.
pub broadcast proof fn lemma_exited(state: ContextView)
    requires
        state.wf(),
        state.frames.len() > 0,
    ensures
        #![trigger state.exited()]
        state.exited().wf(),
        state.exited().height + state.frames.last().size == state.height,
{
    lemma_total_bounds(state.frames, state.frames.len() - 1);
    assert(state.frames.take(state.frames.len() - 1) =~= state.frames.drop_last());
}

/// How the operations of a context act on its frames.
pub broadcast group group_balance {
    lemma_pushed,
    lemma_released,
    lemma_with_variable,
    lemma_entered,
    lemma_exited,
}

/// A statement in a scope of its own leaves the stack as it found it.
pub proof fn lemma_scoped_keeps_stack(statement: StatementView, emitter: Emitter)
    requires
        emitter.error is None,
        emitter.state.wf(),
        emit_statement(statement, emitter.enter()).exit().error is None,
    ensures
        emitter.state.keeps_stack(emit_statement(statement, emitter.enter()).exit().state),
        emit_statement(statement, emitter.enter()).exit().state.wf(),
    decreases statement, 1nat,
{
    broadcast use group_balance;

    lemma_statement_keeps_base(statement, emitter.enter());
}

/// The code of an expression changes the innermost frame alone.
#[verifier::rlimit(50)]
pub proof fn lemma_expr_keeps_base(expr: ExprView, emitter: Emitter)
    requires
        emitter.error is None,
        emitter.state.wf(),
        emitter.state.frames.len() > 0,
        emit_expr(expr, emitter).error is None,
    ensures
        emitter.state.keeps_base(emit_expr(expr, emitter).state),
    decreases expr, 0nat,
{
    broadcast use group_balance;

    match expr {
        ExprView::Arithmetic { op, lhs, rhs } => {
            lemma_expr_keeps_base(*lhs, emitter);
            lemma_expr_keeps_base(*rhs, emit_expr(*lhs, emitter));
        },
        ExprView::Comparison { op, lhs, rhs } => {
            lemma_expr_keeps_base(*lhs, emitter);
            lemma_expr_keeps_base(*rhs, emit_expr(*lhs, emitter));
        },
        ExprView::Assign { op, identifier, value } => {
            lemma_expr_keeps_base(*value, emitter);
        },
        ExprView::IntegerLiteral(text) => {},
        ExprView::Identifier(name) => {},
        ExprView::FunctionCall { name, args } => {
            lemma_args_keep_base(args, emitter);
        },
        ExprView::Block(statements) => {
            lemma_block_keeps_base(statements, emitter.enter());
        },
        ExprView::If { check, body, els } => {
            let third = emitter.label("if"@).label("else"@).label("endif"@);
            let if_label = emitter.next_label("if"@);
            let else_label = emitter.label("if"@).next_label("else"@);
            let endif_label = emitter.label("if"@).label("else"@).next_label("endif"@);
            let opened = third.raw(if_label + ":\n"@);
            lemma_expr_keeps_base(*check, opened);
            let checked = emit_expr(*check, opened).branch_if_zero(else_label);
            lemma_scoped_keeps_stack(*body, checked);
            let taken = emit_statement(*body, checked.enter()).exit();
            let joined = taken.raw("    jmp "@ + endif_label + "\n"@).raw(else_label + ":\n"@);
            match els {
                Some(statement) => {
                    lemma_scoped_keeps_stack(*statement, joined);
                },
                None => {},
            }
        },
        ExprView::Loop { body } => {
            let second = emitter.label("loop"@).label("endloop"@);
            let loop_label = emitter.next_label("loop"@);
            let endloop_label = emitter.label("loop"@).next_label("endloop"@);
            lemma_statement_keeps_base(
                *body,
                second.begin_loop(loop_label, endloop_label).raw(loop_label + ":\n"@),
            );
        },
        ExprView::While { check, body } => {
            let second = emitter.label("while"@).label("endwhile"@);
            let while_label = emitter.next_label("while"@);
            let endwhile_label = emitter.label("while"@).next_label("endwhile"@);
            let opened = second.begin_loop(while_label, endwhile_label).raw(while_label + ":\n"@);
            lemma_expr_keeps_base(*check, opened);
            lemma_statement_keeps_base(
                *body,
                emit_expr(*check, opened).branch_if_zero(endwhile_label),
            );
        },
    }
}

/// The code of the arguments of a call changes the innermost frame alone.
pub proof fn lemma_args_keep_base(args: Seq<ExprView>, emitter: Emitter)
    requires
        emitter.error is None,
        emitter.state.wf(),
        emitter.state.frames.len() > 0,
        emit_args(args, emitter).error is None,
    ensures
        emitter.state.keeps_base(emit_args(args, emitter).state),
    decreases args, 0nat,
{
    if args.len() > 0 {
        lemma_expr_keeps_base(args[0], emitter);
        lemma_args_keep_base(args.skip(1), emit_expr(args[0], emitter));
    }
}

/// The code of the statements of a block changes the innermost frame alone.
pub proof fn lemma_block_keeps_base(statements: Seq<StatementView>, emitter: Emitter)
    requires
        emitter.error is None,
        emitter.state.wf(),
        emitter.state.frames.len() > 0,
        emit_block(statements, emitter).error is None,
    ensures
        emitter.state.keeps_base(emit_block(statements, emitter).state),
    decreases statements, 0nat,
{
    if statements.len() > 0 {
        lemma_statement_keeps_base(statements[0], emitter);
        lemma_block_keeps_base(statements.skip(1), emit_statement(statements[0], emitter));
    }
}

/// The code of a statement changes the innermost frame alone.
pub proof fn lemma_statement_keeps_base(statement: StatementView, emitter: Emitter)
    requires
        emitter.error is None,
        emitter.state.wf(),
        emitter.state.frames.len() > 0,
        emit_statement(statement, emitter).error is None,
    ensures
        emitter.state.keeps_base(emit_statement(statement, emitter).state),
    decreases statement, 0nat,
{
    broadcast use group_balance;

    match statement {
        StatementView::Exit { value } => {
            lemma_expr_keeps_base(value, emitter);
        },
        StatementView::Let { identifier, value, is_mutable } => {
            lemma_expr_keeps_base(value, emitter);
        },
        StatementView::Expr(value) => {
            lemma_expr_keeps_base(value, emitter);
        },
        StatementView::Break => {},
        StatementView::Continue => {},
        StatementView::Return(value) => {
            lemma_expr_keeps_base(value, emitter);
        },
    }
}

/// After the code of a block the symbolic stack is as high as before it,
/// and the scopes and the loops stand as they stood: whatever the block
/// pushed, its end releases.
pub proof fn lemma_block_is_balanced(statements: Seq<StatementView>, emitter: Emitter)
    requires
        emitter.error is None,
        emitter.state.wf(),
        emit_expr(ExprView::Block(statements), emitter).error is None,
    ensures
        emit_expr(ExprView::Block(statements), emitter).state.height == emitter.state.height,
        emit_expr(ExprView::Block(statements), emitter).state.frames == emitter.state.frames,
        emit_expr(ExprView::Block(statements), emitter).state.regions == emitter.state.regions,
        emit_expr(ExprView::Block(statements), emitter).state.wf(),
{
    broadcast use group_balance;

    lemma_block_keeps_base(statements, emitter.enter());
}

/// A jump outside every loop stops the emission: there is no label to jump
/// to.
pub proof fn lemma_jump_needs_loop(emitter: Emitter)
    requires
        emitter.error is None,
        emitter.state.regions.len() == 0,
    ensures
        emit_statement(StatementView::Break, emitter).error == Some(
            CodegenErrorView::OutsideLoop,
        ),
        emit_statement(StatementView::Continue, emitter).error == Some(
            CodegenErrorView::OutsideLoop,
        ),
{
}

/// Whether `expr` is a literal, a name, a call, or arithmetic or a
/// comparison of such: what computes a value and nothing else.
pub open spec fn yields_value(expr: ExprView) -> bool
    decreases expr,
{
    match expr {
        ExprView::IntegerLiteral(_) => true,
        ExprView::Identifier(_) => true,
        ExprView::Arithmetic { op, lhs, rhs } => yields_value(*lhs) && yields_value(*rhs),
        ExprView::Comparison { op, lhs, rhs } => yields_value(*lhs) && yields_value(*rhs),
        ExprView::FunctionCall { name, args } => forall|i: int|
            0 <= i < args.len() ==> yields_value(#[trigger] args[i]),
        _ => false,
    }
}

impl ContextView {
    /// The state with `slots` slots more.
    pub open spec fn pushed_times(self, slots: nat) -> ContextView
        decreases slots,
    {
        if slots == 0 {
            self
        } else {
            self.pushed().pushed_times((slots - 1) as nat)
        }
    }
}

/// A slot that is pushed and given up again leaves no trace.
pub broadcast proof fn lemma_push_release(state: ContextView)
    requires
        state.frames.len() > 0,
    ensures
        #![trigger state.pushed().released(1)]
        state.pushed().released(1) == state,
{
    assert(state.pushed().released(1).frames =~= state.frames);
}

/// A slot that is given up and pushed again leaves no trace.
pub broadcast proof fn lemma_release_push(state: ContextView)
    requires
        state.holds(1),
        state.height >= 1,
    ensures
        #![trigger state.released(1).pushed()]
        state.released(1).pushed() == state,
{
    assert(state.released(1).pushed().frames =~= state.frames);
}

/// Slots pushed on a state with a scope all go to its innermost frame.
pub proof fn lemma_pushed_times(state: ContextView, slots: nat)
    requires
        state.frames.len() > 0,
    ensures
        state.pushed_times(slots) == state.with_stack(
            state.height + slots,
            state.frames.drop_last().push(
                state.frames.last().resized(state.frames.last().size + slots),
            ),
        ),
    decreases slots,
{
    if slots == 0 {
        assert(state.frames.drop_last().push(state.frames.last().resized(state.frames.last().size))
            =~= state.frames);
    } else {
        lemma_pushed_times(state.pushed(), (slots - 1) as nat);
        assert(state.pushed().frames.drop_last() =~= state.frames.drop_last());
    }
}

/// The values of a call are gone after it, and its result is there: as if
/// one value had been pushed.
pub proof fn lemma_call_takes_one_slot(state: ContextView, arguments: nat)
    requires
        state.wf(),
        arguments > 0,
    ensures
        state.pushed_times(arguments).holds(arguments),
        state.pushed_times(arguments).released(arguments).pushed() == state.pushed(),
{
    let first = state.pushed();
    lemma_pushed_times(first, (arguments - 1) as nat);
    let all = first.pushed_times((arguments - 1) as nat);
    assert(all.released(arguments).pushed().frames =~= first.frames);
}

/// The code of values, one after the other, pushes one slot for each.
pub proof fn lemma_values_take_slots(args: Seq<ExprView>, emitter: Emitter)
    requires
        emitter.error is None,
        emitter.state.wf(),
        forall|i: int| 0 <= i < args.len() ==> yields_value(#[trigger] args[i]),
        emit_args(args, emitter).error is None,
    ensures
        emit_args(args, emitter).state == emitter.state.pushed_times(args.len()),
        emit_args(args, emitter).state.wf(),
    decreases args, 0nat,
{
    if args.len() > 0 {
        lemma_value_takes_one_slot(args[0], emitter);
        assert forall|i: int| 0 <= i < args.skip(1).len() implies yields_value(
            #[trigger] args.skip(1)[i],
        ) by {
            assert(args.skip(1)[i] == args[i + 1]);
        }
        lemma_values_take_slots(args.skip(1), emit_expr(args[0], emitter));
    }
}

/// After the code of an expression that computes a value and nothing else,
/// the symbolic stack is higher by exactly one slot, in the innermost frame,
/// and nothing else of the state has changed.
#[verifier::rlimit(50)]
pub proof fn lemma_value_takes_one_slot(expr: ExprView, emitter: Emitter)
    requires
        emitter.error is None,
        emitter.state.wf(),
        yields_value(expr),
        emit_expr(expr, emitter).error is None,
    ensures
        emit_expr(expr, emitter).state == emitter.state.pushed(),
        emit_expr(expr, emitter).state.height == emitter.state.height + 1,
        emit_expr(expr, emitter).state.wf(),
    decreases expr, 1nat,
{
    broadcast use group_balance;
    broadcast use lemma_push_release;
    broadcast use lemma_release_push;

    match expr {
        ExprView::Arithmetic { op, lhs, rhs } => {
            lemma_value_takes_one_slot(*lhs, emitter);
            lemma_value_takes_one_slot(*rhs, emit_expr(*lhs, emitter));
        },
        ExprView::Comparison { op, lhs, rhs } => {
            lemma_value_takes_one_slot(*lhs, emitter);
            lemma_value_takes_one_slot(*rhs, emit_expr(*lhs, emitter));
        },
        ExprView::IntegerLiteral(text) => {},
        ExprView::Identifier(name) => {},
        ExprView::FunctionCall { name, args } => {
            lemma_values_take_slots(args, emitter);
            if args.len() > 0 {
                lemma_call_takes_one_slot(emitter.state, args.len());
            }
        },
        _ => {},
    }
}

/// The code of an expression leaves the enclosing loops as they are.
#[verifier::rlimit(50)]
pub proof fn lemma_expr_keeps_loops(expr: ExprView, emitter: Emitter)
    requires
        emitter.error is None,
        emit_expr(expr, emitter).error is None,
    ensures
        emit_expr(expr, emitter).state.regions =~= emitter.state.regions,
    decreases expr,
{
    match expr {
        ExprView::Arithmetic { op, lhs, rhs } => {
            lemma_expr_keeps_loops(*lhs, emitter);
            lemma_expr_keeps_loops(*rhs, emit_expr(*lhs, emitter));
        },
        ExprView::Comparison { op, lhs, rhs } => {
            lemma_expr_keeps_loops(*lhs, emitter);
            lemma_expr_keeps_loops(*rhs, emit_expr(*lhs, emitter));
        },
        ExprView::Assign { op, identifier, value } => {
            lemma_expr_keeps_loops(*value, emitter);
        },
        ExprView::IntegerLiteral(text) => {},
        ExprView::Identifier(name) => {},
        ExprView::FunctionCall { name, args } => {
            lemma_args_keep_loops(args, emitter);
        },
        ExprView::Block(statements) => {
            lemma_block_keeps_loops(statements, emitter.enter());
        },
        ExprView::If { check, body, els } => {
            let third = emitter.label("if"@).label("else"@).label("endif"@);
            let if_label = emitter.next_label("if"@);
            let else_label = emitter.label("if"@).next_label("else"@);
            let endif_label = emitter.label("if"@).label("else"@).next_label("endif"@);
            let opened = third.raw(if_label + ":\n"@);
            lemma_expr_keeps_loops(*check, opened);
            let checked = emit_expr(*check, opened).branch_if_zero(else_label);
            lemma_statement_keeps_loops(*body, checked.enter());
            let taken = emit_statement(*body, checked.enter()).exit();
            let joined = taken.raw("    jmp "@ + endif_label + "\n"@).raw(else_label + ":\n"@);
            match els {
                Some(statement) => {
                    lemma_statement_keeps_loops(*statement, joined.enter());
                },
                None => {},
            }
        },
        ExprView::Loop { body } => {
            let second = emitter.label("loop"@).label("endloop"@);
            let loop_label = emitter.next_label("loop"@);
            let endloop_label = emitter.label("loop"@).next_label("endloop"@);
            lemma_statement_keeps_loops(
                *body,
                second.begin_loop(loop_label, endloop_label).raw(loop_label + ":\n"@),
            );
        },
        ExprView::While { check, body } => {
            let second = emitter.label("while"@).label("endwhile"@);
            let while_label = emitter.next_label("while"@);
            let endwhile_label = emitter.label("while"@).next_label("endwhile"@);
            let opened = second.begin_loop(while_label, endwhile_label).raw(while_label + ":\n"@);
            lemma_expr_keeps_loops(*check, opened);
            lemma_statement_keeps_loops(
                *body,
                emit_expr(*check, opened).branch_if_zero(endwhile_label),
            );
        },
    }
}

/// The code of the arguments of a call leaves the enclosing loops as they
/// are.
pub proof fn lemma_args_keep_loops(args: Seq<ExprView>, emitter: Emitter)
    requires
        emitter.error is None,
        emit_args(args, emitter).error is None,
    ensures
        emit_args(args, emitter).state.regions =~= emitter.state.regions,
    decreases args,
{
    if args.len() > 0 {
        lemma_expr_keeps_loops(args[0], emitter);
        lemma_args_keep_loops(args.skip(1), emit_expr(args[0], emitter));
    }
}

/// The code of the statements of a block leaves the enclosing loops as they
/// are.
pub proof fn lemma_block_keeps_loops(statements: Seq<StatementView>, emitter: Emitter)
    requires
        emitter.error is None,
        emit_block(statements, emitter).error is None,
    ensures
        emit_block(statements, emitter).state.regions =~= emitter.state.regions,
    decreases statements,
{
    if statements.len() > 0 {
        lemma_statement_keeps_loops(statements[0], emitter);
        lemma_block_keeps_loops(statements.skip(1), emit_statement(statements[0], emitter));
    }
}

/// The code of a statement leaves the enclosing loops as they are.
pub proof fn lemma_statement_keeps_loops(statement: StatementView, emitter: Emitter)
    requires
        emitter.error is None,
        emit_statement(statement, emitter).error is None,
    ensures
        emit_statement(statement, emitter).state.regions =~= emitter.state.regions,
    decreases statement,
{
    match statement {
        StatementView::Exit { value } => {
            lemma_expr_keeps_loops(value, emitter);
        },
        StatementView::Let { identifier, value, is_mutable } => {
            lemma_expr_keeps_loops(value, emitter);
        },
        StatementView::Expr(value) => {
            lemma_expr_keeps_loops(value, emitter);
        },
        StatementView::Break => {},
        StatementView::Continue => {},
        StatementView::Return(value) => {
            lemma_expr_keeps_loops(value, emitter);
        },
    }
}

/// Whether `expr` holds a `break` or a `continue` that no loop of `expr`
/// encloses.
pub open spec fn expr_jumps_astray(expr: ExprView) -> bool
    decreases expr,
{
    match expr {
        ExprView::Arithmetic { op, lhs, rhs } => expr_jumps_astray(*lhs) || expr_jumps_astray(
            *rhs,
        ),
        ExprView::Comparison { op, lhs, rhs } => expr_jumps_astray(*lhs) || expr_jumps_astray(
            *rhs,
        ),
        ExprView::Assign { op, identifier, value } => expr_jumps_astray(*value),
        ExprView::IntegerLiteral(_) => false,
        ExprView::Identifier(_) => false,
        ExprView::FunctionCall { name, args } => exists|i: int|
            0 <= i < args.len() && expr_jumps_astray(#[trigger] args[i]),
        ExprView::Block(statements) => exists|i: int|
            0 <= i < statements.len() && jumps_astray(#[trigger] statements[i]),
        ExprView::If { check, body, els } => expr_jumps_astray(*check) || jumps_astray(*body) || (
        els matches Some(statement) && jumps_astray(*statement)),
        ExprView::Loop { body } => false,
        ExprView::While { check, body } => false,
    }
}

/// Whether `statement` is or holds a `break` or a `continue` that no loop
/// of `statement` encloses.
pub open spec fn jumps_astray(statement: StatementView) -> bool
    decreases statement,
{
    match statement {
        StatementView::Exit { value } => expr_jumps_astray(value),
        StatementView::Let { identifier, value, is_mutable } => expr_jumps_astray(value),
        StatementView::Expr(value) => expr_jumps_astray(value),
        StatementView::Break => true,
        StatementView::Continue => true,
        StatementView::Return(value) => expr_jumps_astray(value),
    }
}

/// Outside every loop, the code of an expression that holds a `break` or a
/// `continue` of its own cannot be generated.
#[verifier::rlimit(50)]
pub proof fn lemma_stray_jump_in_expr_fails(expr: ExprView, emitter: Emitter)
    requires
        emitter.error is None,
        emitter.state.regions.len() == 0,
        expr_jumps_astray(expr),
    ensures
        emit_expr(expr, emitter).error is Some,
    decreases expr,
{
    match expr {
        ExprView::Arithmetic { op, lhs, rhs } => {
            if expr_jumps_astray(*lhs) {
                lemma_stray_jump_in_expr_fails(*lhs, emitter);
            } else if emit_expr(*lhs, emitter).error is None {
                lemma_expr_keeps_loops(*lhs, emitter);
                lemma_stray_jump_in_expr_fails(*rhs, emit_expr(*lhs, emitter));
            }
        },
        ExprView::Comparison { op, lhs, rhs } => {
            if expr_jumps_astray(*lhs) {
                lemma_stray_jump_in_expr_fails(*lhs, emitter);
            } else if emit_expr(*lhs, emitter).error is None {
                lemma_expr_keeps_loops(*lhs, emitter);
                lemma_stray_jump_in_expr_fails(*rhs, emit_expr(*lhs, emitter));
            }
        },
        ExprView::Assign { op, identifier, value } => {
            lemma_stray_jump_in_expr_fails(*value, emitter);
        },
        ExprView::FunctionCall { name, args } => {
            if emitter.state.functions.contains_key(name) {
                lemma_stray_jump_in_args_fails(args, emitter);
            }
        },
        ExprView::Block(statements) => {
            lemma_stray_jump_in_block_fails(statements, emitter.enter());
        },
        ExprView::If { check, body, els } => {
            let third = emitter.label("if"@).label("else"@).label("endif"@);
            let if_label = emitter.next_label("if"@);
            let else_label = emitter.label("if"@).next_label("else"@);
            let endif_label = emitter.label("if"@).label("else"@).next_label("endif"@);
            if third.error is None {
                let opened = third.raw(if_label + ":\n"@);
                if expr_jumps_astray(*check) {
                    lemma_stray_jump_in_expr_fails(*check, opened);
                } else if emit_expr(*check, opened).error is None {
                    lemma_expr_keeps_loops(*check, opened);
                    let checked = emit_expr(*check, opened).branch_if_zero(else_label);
                    if checked.error is None {
                        if jumps_astray(*body) {
                            lemma_stray_jump_fails(*body, checked.enter());
                        } else if emit_statement(*body, checked.enter()).error is None {
                            lemma_statement_keeps_loops(*body, checked.enter());
                            let taken = emit_statement(*body, checked.enter()).exit();
                            if taken.error is None {
                                let joined = taken.raw("    jmp "@ + endif_label + "\n"@).raw(
                                    else_label + ":\n"@,
                                );
                                lemma_stray_jump_fails(*els->Some_0, joined.enter());
                            }
                        }
                    }
                }
            }
        },
        _ => {},
    }
}

/// Outside every loop, the code of arguments of which one holds a `break`
/// or a `continue` of its own cannot be generated.
pub proof fn lemma_stray_jump_in_args_fails(args: Seq<ExprView>, emitter: Emitter)
    requires
        emitter.error is None,
        emitter.state.regions.len() == 0,
        exists|i: int| 0 <= i < args.len() && expr_jumps_astray(#[trigger] args[i]),
    ensures
        emit_args(args, emitter).error is Some,
    decreases args,
{
    let i = choose|i: int| 0 <= i < args.len() && expr_jumps_astray(#[trigger] args[i]);
    if expr_jumps_astray(args[0]) {
        lemma_stray_jump_in_expr_fails(args[0], emitter);
    } else if emit_expr(args[0], emitter).error is None {
        lemma_expr_keeps_loops(args[0], emitter);
        assert(args.skip(1)[i - 1] == args[i]);
        lemma_stray_jump_in_args_fails(args.skip(1), emit_expr(args[0], emitter));
    }
}

/// Outside every loop, the code of statements of which one is or holds a
/// `break` or a `continue` of its own cannot be generated.
pub proof fn lemma_stray_jump_in_block_fails(statements: Seq<StatementView>, emitter: Emitter)
    requires
        emitter.error is None,
        emitter.state.regions.len() == 0,
        exists|i: int| 0 <= i < statements.len() && jumps_astray(#[trigger] statements[i]),
    ensures
        emit_block(statements, emitter).error is Some,
    decreases statements,
{
    let i = choose|i: int| 0 <= i < statements.len() && jumps_astray(#[trigger] statements[i]);
    if jumps_astray(statements[0]) {
        lemma_stray_jump_fails(statements[0], emitter);
    } else if emit_statement(statements[0], emitter).error is None {
        lemma_statement_keeps_loops(statements[0], emitter);
        assert(statements.skip(1)[i - 1] == statements[i]);
        lemma_stray_jump_in_block_fails(statements.skip(1), emit_statement(statements[0], emitter));
    }
}

/// `break` and `continue` outside every loop fail code generation: where no
/// loop is entered, the code of a statement that is or holds a `break` or a
/// `continue` of its own cannot be generated.
pub proof fn lemma_stray_jump_fails(statement: StatementView, emitter: Emitter)
    requires
        emitter.error is None,
        emitter.state.regions.len() == 0,
        jumps_astray(statement),
    ensures
        emit_statement(statement, emitter).error is Some,
    decreases statement,
{
    match statement {
        StatementView::Exit { value } => {
            lemma_stray_jump_in_expr_fails(value, emitter);
        },
        StatementView::Let { identifier, value, is_mutable } => {
            lemma_stray_jump_in_expr_fails(value, emitter);
        },
        StatementView::Expr(value) => {
            lemma_stray_jump_in_expr_fails(value, emitter);
        },
        StatementView::Break => {},
        StatementView::Continue => {},
        StatementView::Return(value) => {
            lemma_stray_jump_in_expr_fails(value, emitter);
        },
    }
}

/// Whether `after` starts with `before`.
#[verifier::opaque]
pub open spec fn continues(before: Seq<char>, after: Seq<char>) -> bool {
    before.len() <= after.len() && after.take(before.len() as int) =~= before
}

/// What starts with what starts with `before` starts with `before`.
pub proof fn lemma_continues_chain(before: Seq<char>, middle: Seq<char>, after: Seq<char>)
    requires
        continues(before, middle),
        continues(middle, after),
    ensures
        continues(before, after),
{
    reveal(continues);
    assert(after.take(before.len() as int) =~= middle.take(before.len() as int));
}

/// Each step of an emission writes after what was written before.
#[verifier::rlimit(50)]
proof fn lemma_operation_continues_text(emitter: Emitter)
    ensures
        continues(emitter.text, emitter.text),
        forall|piece: Seq<char>| continues(emitter.text, #[trigger] emitter.raw(piece).text),
        forall|operand: Seq<char>| continues(emitter.text, #[trigger] emitter.push(operand).text),
        forall|name: Seq<char>| continues(emitter.text, #[trigger] emitter.load(name).text),
        forall|op: crate::ast::ArithmeticOp|
            continues(emitter.text, #[trigger] emitter.arithmetic(op).text),
        forall|op: crate::ast::ComparisonOp|
            continues(emitter.text, #[trigger] emitter.comparison(op).text),
        forall|op: crate::ast::ArithmeticOp, name: Seq<char>|
            continues(emitter.text, #[trigger] emitter.assign(op, name).text),
        forall|target: Seq<char>|
            continues(emitter.text, #[trigger] emitter.branch_if_zero(target).text),
        forall|name: Seq<char>, is_mutable: bool|
            continues(emitter.text, #[trigger] emitter.declare(name, is_mutable).text),
        continues(emitter.text, emitter.exit_process().text),
        continues(emitter.text, emitter.exit().text),
        continues(emitter.text, emitter.jump_out().text),
        continues(emitter.text, emitter.jump_back().text),
        continues(emitter.text, emitter.pop("rax"@).unwind().text),
        continues(emitter.text, emitter.exit_function().text),
        forall|name: Seq<char>, arguments: nat|
            continues(
                emitter.text,
                #[trigger] emitter.raw("    call "@ + name + "\n"@).returned(arguments).text,
            ),
{
    reveal(continues);
    assert(emitter.text.take(emitter.text.len() as int) =~= emitter.text);
    let operands = emitter.pop("rbx"@).pop("rax"@);
    assert(continues(emitter.text, operands.text));
    assert forall|op: crate::ast::ArithmeticOp| continues(
        emitter.text,
        #[trigger] emitter.arithmetic(op).text,
    ) by {
        assert(continues(operands.text, emitter.arithmetic(op).text));
        lemma_continues_chain(emitter.text, operands.text, emitter.arithmetic(op).text);
    }
    assert forall|op: crate::ast::ComparisonOp| continues(
        emitter.text,
        #[trigger] emitter.comparison(op).text,
    ) by {
        assert(continues(operands.text, emitter.comparison(op).text));
        lemma_continues_chain(emitter.text, operands.text, emitter.comparison(op).text);
    }
    assert forall|op: crate::ast::ArithmeticOp, name: Seq<char>| continues(
        emitter.text,
        #[trigger] emitter.assign(op, name).text,
    ) by {
        let loaded = emitter.load(name);
        let taken = loaded.pop("rax"@).pop("rbx"@);
        assert(continues(emitter.text, loaded.text));
        assert(continues(loaded.text, taken.text));
        assert(continues(taken.text, emitter.assign(op, name).text));
        lemma_continues_chain(emitter.text, loaded.text, taken.text);
        lemma_continues_chain(emitter.text, taken.text, emitter.assign(op, name).text);
    }
    assert forall|target: Seq<char>| continues(
        emitter.text,
        #[trigger] emitter.branch_if_zero(target).text,
    ) by {
        let popped = emitter.pop("rax"@);
        assert(continues(emitter.text, popped.text));
        assert(continues(popped.text, emitter.branch_if_zero(target).text));
        lemma_continues_chain(emitter.text, popped.text, emitter.branch_if_zero(target).text);
    }
    assert(continues(emitter.text, emitter.exit_process().text)) by {
        let moved = emitter.raw("    mov rax, 60\n"@);
        assert(continues(emitter.text, moved.text));
        assert(continues(moved.text, emitter.exit_process().text));
        lemma_continues_chain(emitter.text, moved.text, emitter.exit_process().text);
    }
    assert(continues(emitter.text, emitter.pop("rax"@).unwind().text)) by {
        let popped = emitter.pop("rax"@);
        assert(continues(emitter.text, popped.text));
        assert(continues(popped.text, popped.unwind().text));
        lemma_continues_chain(emitter.text, popped.text, popped.unwind().text);
    }
}

/// Putting a label where the emission stands writes after what was written
/// before, whatever labels and loops were taken note of first.
proof fn lemma_label_continues_text(before: Emitter, emitter: Emitter, piece: Seq<char>)
    requires
        emitter.text == before.text,
    ensures
        continues(before.text, emitter.raw(piece).text),
        continues(before.text, emitter.text),
{
    lemma_operation_continues_text(emitter);
}

/// The code of a conditional is written after what was written before.
#[verifier::rlimit(50)]
proof fn lemma_if_continues_text(expr: ExprView, emitter: Emitter)
    requires
        expr is If,
        emitter.error is None,
        emit_expr(expr, emitter).error is None,
    ensures
        continues(emitter.text, emit_expr(expr, emitter).text),
    decreases expr, 0nat,
{
    match expr {
        ExprView::If { check, body, els } => {
            let third = emitter.label("if"@).label("else"@).label("endif"@);
            let if_label = emitter.next_label("if"@);
            let else_label = emitter.label("if"@).next_label("else"@);
            let endif_label = emitter.label("if"@).label("else"@).next_label("endif"@);
            let opened = third.raw(if_label + ":\n"@);
            lemma_label_continues_text(emitter, third, if_label + ":\n"@);
            lemma_expr_continues_text(*check, opened);
            let read = emit_expr(*check, opened);
            lemma_operation_continues_text(read);
            let checked = read.branch_if_zero(else_label);
            lemma_statement_continues_text(*body, checked.enter());
            let run = emit_statement(*body, checked.enter());
            lemma_operation_continues_text(run);
            let taken = run.exit();
            lemma_operation_continues_text(taken);
            let jumped = taken.raw("    jmp "@ + endif_label + "\n"@);
            lemma_operation_continues_text(jumped);
            let joined = jumped.raw(else_label + ":\n"@);
            lemma_continues_chain(emitter.text, opened.text, read.text);
            lemma_continues_chain(emitter.text, read.text, checked.text);
            lemma_continues_chain(emitter.text, checked.text, run.text);
            lemma_continues_chain(emitter.text, run.text, taken.text);
            lemma_continues_chain(emitter.text, taken.text, jumped.text);
            lemma_continues_chain(emitter.text, jumped.text, joined.text);
            match els {
                Some(statement) => {
                    lemma_statement_continues_text(*statement, joined.enter());
                    let other = emit_statement(*statement, joined.enter());
                    lemma_operation_continues_text(other);
                    let left = other.exit();
                    lemma_operation_continues_text(left);
                    lemma_continues_chain(emitter.text, joined.text, other.text);
                    lemma_continues_chain(emitter.text, other.text, left.text);
                    lemma_continues_chain(
                        emitter.text,
                        left.text,
                        left.raw(endif_label + ":\n"@).text,
                    );
                },
                None => {
                    lemma_operation_continues_text(joined);
                    lemma_continues_chain(
                        emitter.text,
                        joined.text,
                        joined.raw(endif_label + ":\n"@).text,
                    );
                },
            }
        },
        _ => {},
    }
}

/// The code of an infinite loop is written after what was written before.
#[verifier::rlimit(50)]
proof fn lemma_loop_continues_text(expr: ExprView, emitter: Emitter)
    requires
        expr is Loop,
        emitter.error is None,
        emit_expr(expr, emitter).error is None,
    ensures
        continues(emitter.text, emit_expr(expr, emitter).text),
    decreases expr, 0nat,
{
    match expr {
        ExprView::Loop { body } => {
            let second = emitter.label("loop"@).label("endloop"@);
            let loop_label = emitter.next_label("loop"@);
            let endloop_label = emitter.label("loop"@).next_label("endloop"@);
            let begun = second.begin_loop(loop_label, endloop_label);
            let opened = begun.raw(loop_label + ":\n"@);
            lemma_label_continues_text(emitter, begun, loop_label + ":\n"@);
            lemma_statement_continues_text(*body, opened);
            let run = emit_statement(*body, opened);
            lemma_operation_continues_text(run);
            let jumped = run.raw("    jmp "@ + loop_label + "\n"@);
            lemma_operation_continues_text(jumped);
            let closed = jumped.raw(endloop_label + ":\n"@);
            assert(closed.end_loop().text == closed.text);
            lemma_continues_chain(emitter.text, opened.text, run.text);
            lemma_continues_chain(emitter.text, run.text, jumped.text);
            lemma_continues_chain(emitter.text, jumped.text, closed.text);
        },
        _ => {},
    }
}

/// The code of a conditional loop is written after what was written
/// before.
#[verifier::rlimit(50)]
proof fn lemma_while_continues_text(expr: ExprView, emitter: Emitter)
    requires
        expr is While,
        emitter.error is None,
        emit_expr(expr, emitter).error is None,
    ensures
        continues(emitter.text, emit_expr(expr, emitter).text),
    decreases expr, 0nat,
{
    match expr {
        ExprView::While { check, body } => {
            let second = emitter.label("while"@).label("endwhile"@);
            let while_label = emitter.next_label("while"@);
            let endwhile_label = emitter.label("while"@).next_label("endwhile"@);
            let begun = second.begin_loop(while_label, endwhile_label);
            let opened = begun.raw(while_label + ":\n"@);
            lemma_label_continues_text(emitter, begun, while_label + ":\n"@);
            lemma_expr_continues_text(*check, opened);
            let read = emit_expr(*check, opened);
            lemma_operation_continues_text(read);
            let checked = read.branch_if_zero(endwhile_label);
            lemma_statement_continues_text(*body, checked);
            let run = emit_statement(*body, checked);
            lemma_operation_continues_text(run);
            let jumped = run.raw("    jmp "@ + while_label + "\n"@);
            lemma_operation_continues_text(jumped);
            let closed = jumped.raw(endwhile_label + ":\n"@);
            assert(closed.end_loop().text == closed.text);
            lemma_continues_chain(emitter.text, opened.text, read.text);
            lemma_continues_chain(emitter.text, read.text, checked.text);
            lemma_continues_chain(emitter.text, checked.text, run.text);
            lemma_continues_chain(emitter.text, run.text, jumped.text);
            lemma_continues_chain(emitter.text, jumped.text, closed.text);
        },
        _ => {},
    }
}

/// The code of an expression is written after what was written before.
#[verifier::rlimit(50)]
pub proof fn lemma_expr_continues_text(expr: ExprView, emitter: Emitter)
    requires
        emitter.error is None,
        emit_expr(expr, emitter).error is None,
    ensures
        continues(emitter.text, emit_expr(expr, emitter).text),
    decreases expr, 1nat,
{
    lemma_operation_continues_text(emitter);
    match expr {
        ExprView::Arithmetic { op, lhs, rhs } => {
            lemma_expr_continues_text(*lhs, emitter);
            let left = emit_expr(*lhs, emitter);
            lemma_expr_continues_text(*rhs, left);
            let right = emit_expr(*rhs, left);
            lemma_operation_continues_text(right);
            lemma_continues_chain(emitter.text, left.text, right.text);
            lemma_continues_chain(emitter.text, right.text, right.arithmetic(op).text);
        },
        ExprView::Comparison { op, lhs, rhs } => {
            lemma_expr_continues_text(*lhs, emitter);
            let left = emit_expr(*lhs, emitter);
            lemma_expr_continues_text(*rhs, left);
            let right = emit_expr(*rhs, left);
            lemma_operation_continues_text(right);
            lemma_continues_chain(emitter.text, left.text, right.text);
            lemma_continues_chain(emitter.text, right.text, right.comparison(op).text);
        },
        ExprView::Assign { op, identifier, value } => {
            lemma_expr_continues_text(*value, emitter);
            let read = emit_expr(*value, emitter);
            lemma_operation_continues_text(read);
            lemma_continues_chain(emitter.text, read.text, read.assign(op, identifier).text);
        },
        ExprView::IntegerLiteral(text) => {},
        ExprView::Identifier(name) => {},
        ExprView::FunctionCall { name, args } => {
            lemma_args_continue_text(args, emitter);
            let pushed = emit_args(args, emitter);
            lemma_operation_continues_text(pushed);
            lemma_continues_chain(
                emitter.text,
                pushed.text,
                pushed.raw("    call "@ + name + "\n"@).returned(args.len()).text,
            );
        },
        ExprView::Block(statements) => {
            lemma_block_continues_text(statements, emitter.enter());
            let run = emit_block(statements, emitter.enter());
            lemma_operation_continues_text(run);
            lemma_continues_chain(emitter.text, run.text, run.exit().text);
        },
        ExprView::If { check, body, els } => {
            lemma_if_continues_text(expr, emitter);
        },
        ExprView::Loop { body } => {
            lemma_loop_continues_text(expr, emitter);
        },
        ExprView::While { check, body } => {
            lemma_while_continues_text(expr, emitter);
        },
    }
}

/// The code of the arguments of a call is written after what was written
/// before.
pub proof fn lemma_args_continue_text(args: Seq<ExprView>, emitter: Emitter)
    requires
        emitter.error is None,
        emit_args(args, emitter).error is None,
    ensures
        continues(emitter.text, emit_args(args, emitter).text),
    decreases args, 0nat,
{
    lemma_operation_continues_text(emitter);
    if args.len() > 0 {
        lemma_expr_continues_text(args[0], emitter);
        lemma_args_continue_text(args.skip(1), emit_expr(args[0], emitter));
        lemma_continues_chain(
            emitter.text,
            emit_expr(args[0], emitter).text,
            emit_args(args, emitter).text,
        );
    }
}

/// The code of the statements of a block is written after what was written
/// before.
pub proof fn lemma_block_continues_text(statements: Seq<StatementView>, emitter: Emitter)
    requires
        emitter.error is None,
        emit_block(statements, emitter).error is None,
    ensures
        continues(emitter.text, emit_block(statements, emitter).text),
    decreases statements, 0nat,
{
    lemma_operation_continues_text(emitter);
    if statements.len() > 0 {
        lemma_statement_continues_text(statements[0], emitter);
        lemma_block_continues_text(statements.skip(1), emit_statement(statements[0], emitter));
        lemma_continues_chain(
            emitter.text,
            emit_statement(statements[0], emitter).text,
            emit_block(statements, emitter).text,
        );
    }
}

/// The code of a statement is written after what was written before.
pub proof fn lemma_statement_continues_text(statement: StatementView, emitter: Emitter)
    requires
        emitter.error is None,
        emit_statement(statement, emitter).error is None,
    ensures
        continues(emitter.text, emit_statement(statement, emitter).text),
    decreases statement, 1nat,
{
    lemma_operation_continues_text(emitter);
    match statement {
        StatementView::Exit { value } => {
            lemma_expr_continues_text(value, emitter);
            lemma_operation_continues_text(emit_expr(value, emitter));
            lemma_continues_chain(
                emitter.text,
                emit_expr(value, emitter).text,
                emit_statement(statement, emitter).text,
            );
        },
        StatementView::Let { identifier, value, is_mutable } => {
            lemma_expr_continues_text(value, emitter);
            let read = emit_expr(value, emitter);
            lemma_operation_continues_text(read);
            lemma_continues_chain(
                emitter.text,
                read.text,
                emit_statement(statement, emitter).text,
            );
        },
        StatementView::Expr(value) => {
            lemma_expr_continues_text(value, emitter);
        },
        StatementView::Break => {},
        StatementView::Continue => {},
        StatementView::Return(value) => {
            lemma_expr_continues_text(value, emitter);
            lemma_operation_continues_text(emit_expr(value, emitter));
            lemma_continues_chain(
                emitter.text,
                emit_expr(value, emitter).text,
                emit_statement(statement, emitter).text,
            );
        },
    }
}

/// The code of a function starts with its label and ends with `ret`, and
/// it leaves the scopes, the height of the symbolic stack and the loops as
/// they were before it.
#[verifier::rlimit(50)]
pub proof fn lemma_item_is_balanced(item: ItemView, emitter: Emitter)
    requires
        emitter.error is None,
        emitter.state.wf(),
        emit_item(item, emitter).error is None,
    ensures
        emitter.state.keeps_stack(emit_item(item, emitter).state),
        emit_item(item, emitter).state.wf(),
        continues(emitter.text + (item->name + ":\n"@), emit_item(item, emitter).text),
        ({
            let text = emit_item(item, emitter).text;
            let last = "    ret\n"@;
            last.len() <= text.len() && text.skip(text.len() - last.len()) =~= last
        }),
{
    broadcast use group_balance;

    let name = item->name;
    let body = item->body;
    let labelled = emitter.raw(name + ":\n"@);
    let entered = labelled.enter_function(name);
    let names = emitter.state.functions[name];
    lemma_total_push(emitter.state.frames, crate::context::parameters_frame(names));
    lemma_total_push(
        emitter.state.frames.push(crate::context::parameters_frame(names)),
        FrameView::sized(0),
    );
    lemma_statement_keeps_base(body, entered);
    lemma_statement_continues_text(body, entered);
    let done = emit_statement(body, entered);
    lemma_operation_continues_text(done);
    lemma_continues_chain(entered.text, done.text, done.exit_function().text);
    assert(done.state.frames.drop_last().drop_last() =~= emitter.state.frames);
    assert(done.state.frames[done.state.frames.len() - 2] == done.state.frames.drop_last().last());
    assert(done.state.frames.drop_last().last() == crate::context::parameters_frame(names));
}

} // verus!

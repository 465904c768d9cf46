//! The abstract syntax tree: items, statements and expressions.

use vstd::prelude::*;

verus! {

/// A positional parameter of a function.
#[derive(Clone, Debug, PartialEq, Eq)]
pub struct Param {
    pub name: String,
}

/// A top-level declaration.
#[derive(Debug, PartialEq, Eq)]
pub enum Item {
    Function { name: String, params: Vec<Param>, body: Statement },
}

/// A whole source file: its items in order.
#[derive(Debug, PartialEq, Eq)]
pub struct Program(pub Vec<Item>);

#[derive(Debug, PartialEq, Eq)]
pub enum Statement {
    Exit { value: Expr },
    Let { identifier: String, value: Expr, is_mutable: bool },
    Expr(Expr),
    Break,
    Continue,
    Return(Expr),
}

#[derive(Debug, PartialEq, Eq)]
pub enum Expr {
    Add(Box<Expr>, Box<Expr>),
    Sub(Box<Expr>, Box<Expr>),
    Mul(Box<Expr>, Box<Expr>),
    Div(Box<Expr>, Box<Expr>),
    Mod(Box<Expr>, Box<Expr>),
    AddAssign { identifier: String, value: Box<Expr> },
    SubAssign { identifier: String, value: Box<Expr> },
    MulAssign { identifier: String, value: Box<Expr> },
    DivAssign { identifier: String, value: Box<Expr> },
    ModAssign { identifier: String, value: Box<Expr> },
    Eq(Box<Expr>, Box<Expr>),
    Ne(Box<Expr>, Box<Expr>),
    Lt(Box<Expr>, Box<Expr>),
    Le(Box<Expr>, Box<Expr>),
    Gt(Box<Expr>, Box<Expr>),
    Ge(Box<Expr>, Box<Expr>),
    IntegerLiteral(String),
    Identifier(String),
    FunctionCall { name: String, args: Vec<Expr> },
    Block(Vec<Statement>),
    If { check: Box<Expr>, body: Box<Statement>, els: Option<Box<Statement>> },
    Loop { body: Box<Statement> },
    While { check: Box<Expr>, body: Box<Statement> },
}

/// The five arithmetic operations, of binary expressions and of compound
/// assignments alike.
#[derive(Clone, Copy, Debug, PartialEq, Eq, Structural)]
pub enum ArithmeticOp {
    Add,
    Sub,
    Mul,
    Div,
    Mod,
}

/// The six comparisons.
#[derive(Clone, Copy, Debug, PartialEq, Eq, Structural)]
pub enum ComparisonOp {
    Eq,
    Ne,
    Lt,
    Le,
    Gt,
    Ge,
}

/// The mathematical value of an [`Expr`]: the tree with its texts as
/// character sequences and the operators of one kind under one variant.
#[allow(inconsistent_fields)]
pub enum ExprView {
    Arithmetic { op: ArithmeticOp, lhs: Box<ExprView>, rhs: Box<ExprView> },
    Assign { op: ArithmeticOp, identifier: Seq<char>, value: Box<ExprView> },
    Comparison { op: ComparisonOp, lhs: Box<ExprView>, rhs: Box<ExprView> },
    IntegerLiteral(Seq<char>),
    Identifier(Seq<char>),
    FunctionCall { name: Seq<char>, args: Seq<ExprView> },
    Block(Seq<StatementView>),
    If { check: Box<ExprView>, body: Box<StatementView>, els: Option<Box<StatementView>> },
    Loop { body: Box<StatementView> },
    While { check: Box<ExprView>, body: Box<StatementView> },
}

/// The mathematical value of a [`Statement`].
pub enum StatementView {
    Exit { value: ExprView },
    Let { identifier: Seq<char>, value: ExprView, is_mutable: bool },
    Expr(ExprView),
    Break,
    Continue,
    Return(ExprView),
}

/// The mathematical value of an [`Item`].
pub enum ItemView {
    Function { name: Seq<char>, params: Seq<Seq<char>>, body: StatementView },
}

/// The names of a parameter list, in order.
pub open spec fn param_names(params: Seq<Param>) -> Seq<Seq<char>> {
    Seq::new(params.len(), |i: int| params[i].name@)
}

/// The views of a sequence of expressions, in order.
pub open spec fn expr_views(exprs: Seq<Expr>) -> Seq<ExprView>
    decreases exprs,
{
    Seq::new(
        exprs.len(),
        |i: int|
            if 0 <= i < exprs.len() {
                exprs[i].model()
            } else {
                ExprView::Block(Seq::empty())
            },
    )
}

/// The views of a sequence of statements, in order.
pub open spec fn statement_views(statements: Seq<Statement>) -> Seq<StatementView>
    decreases statements,
{
    Seq::new(
        statements.len(),
        |i: int|
            if 0 <= i < statements.len() {
                statements[i].model()
            } else {
                StatementView::Break
            },
    )
}

/// The views of a sequence of items, in order.
pub open spec fn item_views(items: Seq<Item>) -> Seq<ItemView> {
    Seq::new(items.len(), |i: int| items[i]@)
}

impl Expr {
    pub open spec fn model(&self) -> ExprView
        decreases self,
    {
        match self {
            Expr::Add(a, b) => ExprView::Arithmetic {
                op: ArithmeticOp::Add,
                lhs: Box::new(a.model()),
                rhs: Box::new(b.model()),
            },
            Expr::Sub(a, b) => ExprView::Arithmetic {
                op: ArithmeticOp::Sub,
                lhs: Box::new(a.model()),
                rhs: Box::new(b.model()),
            },
            Expr::Mul(a, b) => ExprView::Arithmetic {
                op: ArithmeticOp::Mul,
                lhs: Box::new(a.model()),
                rhs: Box::new(b.model()),
            },
            Expr::Div(a, b) => ExprView::Arithmetic {
                op: ArithmeticOp::Div,
                lhs: Box::new(a.model()),
                rhs: Box::new(b.model()),
            },
            Expr::Mod(a, b) => ExprView::Arithmetic {
                op: ArithmeticOp::Mod,
                lhs: Box::new(a.model()),
                rhs: Box::new(b.model()),
            },
            Expr::AddAssign { identifier, value } => ExprView::Assign {
                op: ArithmeticOp::Add,
                identifier: identifier@,
                value: Box::new(value.model()),
            },
            Expr::SubAssign { identifier, value } => ExprView::Assign {
                op: ArithmeticOp::Sub,
                identifier: identifier@,
                value: Box::new(value.model()),
            },
            Expr::MulAssign { identifier, value } => ExprView::Assign {
                op: ArithmeticOp::Mul,
                identifier: identifier@,
                value: Box::new(value.model()),
            },
            Expr::DivAssign { identifier, value } => ExprView::Assign {
                op: ArithmeticOp::Div,
                identifier: identifier@,
                value: Box::new(value.model()),
            },
            Expr::ModAssign { identifier, value } => ExprView::Assign {
                op: ArithmeticOp::Mod,
                identifier: identifier@,
                value: Box::new(value.model()),
            },
            Expr::Eq(a, b) => ExprView::Comparison {
                op: ComparisonOp::Eq,
                lhs: Box::new(a.model()),
                rhs: Box::new(b.model()),
            },
            Expr::Ne(a, b) => ExprView::Comparison {
                op: ComparisonOp::Ne,
                lhs: Box::new(a.model()),
                rhs: Box::new(b.model()),
            },
            Expr::Lt(a, b) => ExprView::Comparison {
                op: ComparisonOp::Lt,
                lhs: Box::new(a.model()),
                rhs: Box::new(b.model()),
            },
            Expr::Le(a, b) => ExprView::Comparison {
                op: ComparisonOp::Le,
                lhs: Box::new(a.model()),
                rhs: Box::new(b.model()),
            },
            Expr::Gt(a, b) => ExprView::Comparison {
                op: ComparisonOp::Gt,
                lhs: Box::new(a.model()),
                rhs: Box::new(b.model()),
            },
            Expr::Ge(a, b) => ExprView::Comparison {
                op: ComparisonOp::Ge,
                lhs: Box::new(a.model()),
                rhs: Box::new(b.model()),
            },
            Expr::IntegerLiteral(text) => ExprView::IntegerLiteral(text@),
            Expr::Identifier(name) => ExprView::Identifier(name@),
            Expr::FunctionCall { name, args } => ExprView::FunctionCall {
                name: name@,
                args: expr_views(args@),
            },
            Expr::Block(statements) => ExprView::Block(statement_views(statements@)),
            Expr::If { check, body, els } => ExprView::If {
                check: Box::new(check.model()),
                body: Box::new(body.model()),
                els: match els {
                    Some(statement) => Some(Box::new(statement.model())),
                    None => None,
                },
            },
            Expr::Loop { body } => ExprView::Loop { body: Box::new(body.model()) },
            Expr::While { check, body } => ExprView::While {
                check: Box::new(check.model()),
                body: Box::new(body.model()),
            },
        }
    }

    /// Whether the root of the tree is one of the five arithmetic nodes.
    pub open spec fn is_arithmetic(&self) -> bool {
        self@ is Arithmetic
    }

    /// The left operand of a binary node.
    pub open spec fn left(&self) -> Expr {
        match self {
            Expr::Add(a, _) => **a,
            Expr::Sub(a, _) => **a,
            Expr::Mul(a, _) => **a,
            Expr::Div(a, _) => **a,
            Expr::Mod(a, _) => **a,
            Expr::Eq(a, _) => **a,
            Expr::Ne(a, _) => **a,
            Expr::Lt(a, _) => **a,
            Expr::Le(a, _) => **a,
            Expr::Gt(a, _) => **a,
            Expr::Ge(a, _) => **a,
            _ => *self,
        }
    }

    /// Rebuilds an arithmetic node with its left operand replaced by what
    /// `func` makes of it; the operator and the right operand stay.
    pub fn map_left<F: Fn(Box<Expr>) -> Expr>(self, func: F) -> (mapped: Expr)
        requires
            self.is_arithmetic(),
            call_requires(func, (Box::new(self.left()),)),
        ensures
            call_ensures(func, (Box::new(self.left()),), mapped.left()),
            mapped@ matches ExprView::Arithmetic { op, lhs, rhs } && op == self@->Arithmetic_op
                && rhs == self@->Arithmetic_rhs && *lhs == mapped.left()@,
    {
        match self {
            Expr::Add(a, b) => Expr::Add(Box::new(func(a)), b),
            Expr::Sub(a, b) => Expr::Sub(Box::new(func(a)), b),
            Expr::Mul(a, b) => Expr::Mul(Box::new(func(a)), b),
            Expr::Div(a, b) => Expr::Div(Box::new(func(a)), b),
            Expr::Mod(a, b) => Expr::Mod(Box::new(func(a)), b),
            other => other,
        }
    }
}

impl View for Expr {
    type V = ExprView;

    open spec fn view(&self) -> ExprView {
        self.model()
    }
}

impl Statement {
    pub open spec fn model(&self) -> StatementView
        decreases self,
    {
        match self {
            Statement::Exit { value } => StatementView::Exit { value: value.model() },
            Statement::Let { identifier, value, is_mutable } => StatementView::Let {
                identifier: identifier@,
                value: value.model(),
                is_mutable: *is_mutable,
            },
            Statement::Expr(value) => StatementView::Expr(value.model()),
            Statement::Break => StatementView::Break,
            Statement::Continue => StatementView::Continue,
            Statement::Return(value) => StatementView::Return(value.model()),
        }
    }
}

impl View for Statement {
    type V = StatementView;

    open spec fn view(&self) -> StatementView {
        self.model()
    }
}

impl View for Item {
    type V = ItemView;

    open spec fn view(&self) -> ItemView {
        match self {
            Item::Function { name, params, body } => ItemView::Function {
                name: name@,
                params: param_names(params@),
                body: body@,
            },
        }
    }
}

impl View for Program {
    type V = Seq<ItemView>;

    open spec fn view(&self) -> Seq<ItemView> {
        item_views(self.0@)
    }
}

/// A copy of `expr`.
fn duplicate_expr(expr: &Expr) -> (copy: Expr)
    ensures
        copy@ == expr@,
    decreases expr, 1nat,
{
    match expr {
            Expr::Add(a, b) => Expr::Add(
                Box::new(duplicate_expr(a)),
                Box::new(duplicate_expr(b)),
            ),
            Expr::Sub(a, b) => Expr::Sub(
                Box::new(duplicate_expr(a)),
                Box::new(duplicate_expr(b)),
            ),
            Expr::Mul(a, b) => Expr::Mul(
                Box::new(duplicate_expr(a)),
                Box::new(duplicate_expr(b)),
            ),
            Expr::Div(a, b) => Expr::Div(
                Box::new(duplicate_expr(a)),
                Box::new(duplicate_expr(b)),
            ),
            Expr::Mod(a, b) => Expr::Mod(
                Box::new(duplicate_expr(a)),
                Box::new(duplicate_expr(b)),
            ),
            Expr::Eq(a, b) => Expr::Eq(
                Box::new(duplicate_expr(a)),
                Box::new(duplicate_expr(b)),
            ),
            Expr::Ne(a, b) => Expr::Ne(
                Box::new(duplicate_expr(a)),
                Box::new(duplicate_expr(b)),
            ),
            Expr::Lt(a, b) => Expr::Lt(
                Box::new(duplicate_expr(a)),
                Box::new(duplicate_expr(b)),
            ),
            Expr::Le(a, b) => Expr::Le(
                Box::new(duplicate_expr(a)),
                Box::new(duplicate_expr(b)),
            ),
            Expr::Gt(a, b) => Expr::Gt(
                Box::new(duplicate_expr(a)),
                Box::new(duplicate_expr(b)),
            ),
            Expr::Ge(a, b) => Expr::Ge(
                Box::new(duplicate_expr(a)),
                Box::new(duplicate_expr(b)),
            ),
            Expr::AddAssign { identifier, value } => Expr::AddAssign {
                identifier: identifier.clone(),
                value: Box::new(duplicate_expr(value)),
            },
            Expr::SubAssign { identifier, value } => Expr::SubAssign {
                identifier: identifier.clone(),
                value: Box::new(duplicate_expr(value)),
            },
            Expr::MulAssign { identifier, value } => Expr::MulAssign {
                identifier: identifier.clone(),
                value: Box::new(duplicate_expr(value)),
            },
            Expr::DivAssign { identifier, value } => Expr::DivAssign {
                identifier: identifier.clone(),
                value: Box::new(duplicate_expr(value)),
            },
            Expr::ModAssign { identifier, value } => Expr::ModAssign {
                identifier: identifier.clone(),
                value: Box::new(duplicate_expr(value)),
            },
            Expr::IntegerLiteral(text) => Expr::IntegerLiteral(text.clone()),
            Expr::Identifier(name) => Expr::Identifier(name.clone()),
            Expr::FunctionCall { name, args } => Expr::FunctionCall {
                name: name.clone(),
                args: duplicate_exprs(expr, args),
            },
            Expr::Block(statements) => Expr::Block(duplicate_statements(expr, statements)),
            Expr::If { check, body, els } => Expr::If {
                check: Box::new(duplicate_expr(check)),
                body: Box::new(duplicate_statement(body)),
                els: match els {
                    Some(statement) => Some(Box::new(duplicate_statement(statement))),
                    None => None,
                },
            },
            Expr::Loop { body } => Expr::Loop { body: Box::new(duplicate_statement(body)) },
            Expr::While { check, body } => Expr::While {
                check: Box::new(duplicate_expr(check)),
                body: Box::new(duplicate_statement(body)),
            },
    }
}

/// Copies of the expressions `exprs`, which are part of `parent`.
fn duplicate_exprs(parent: &Expr, exprs: &Vec<Expr>) -> (copies: Vec<Expr>)
    requires
        decreases_to!(parent => exprs),
    ensures
        expr_views(copies@) == expr_views(exprs@),
    decreases parent, 0nat,
{
    let mut copies: Vec<Expr> = Vec::new();
    let mut i: usize = 0;
    while i < exprs.len()
        invariant
            i <= exprs.len(),
            copies@.len() == i,
            forall|k: int| 0 <= k < i ==> copies@[k]@ == exprs@[k]@,
            decreases_to!(parent => exprs),
        decreases exprs.len() - i,
    {
        copies.push(duplicate_expr(&exprs[i]));
        i += 1;
    }
    assert(expr_views(copies@) =~= expr_views(exprs@));
    copies
}

/// Copies of the statements `statements`, which are part of `parent`.
fn duplicate_statements(parent: &Expr, statements: &Vec<Statement>) -> (copies: Vec<Statement>)
    requires
        decreases_to!(parent => statements),
    ensures
        statement_views(copies@) == statement_views(statements@),
    decreases parent, 0nat,
{
    let mut copies: Vec<Statement> = Vec::new();
    let mut i: usize = 0;
    while i < statements.len()
        invariant
            i <= statements.len(),
            copies@.len() == i,
            forall|k: int| 0 <= k < i ==> copies@[k]@ == statements@[k]@,
            decreases_to!(parent => statements),
        decreases statements.len() - i,
    {
        copies.push(duplicate_statement(&statements[i]));
        i += 1;
    }
    assert(statement_views(copies@) =~= statement_views(statements@));
    copies
}

/// A copy of `statement`.
fn duplicate_statement(statement: &Statement) -> (copy: Statement)
    ensures
        copy@ == statement@,
    decreases statement, 1nat,
{
    match statement {
        Statement::Exit { value } => Statement::Exit { value: duplicate_expr(value) },
        Statement::Let { identifier, value, is_mutable } => Statement::Let {
            identifier: identifier.clone(),
            value: duplicate_expr(value),
            is_mutable: *is_mutable,
        },
        Statement::Expr(value) => Statement::Expr(duplicate_expr(value)),
        Statement::Break => Statement::Break,
        Statement::Continue => Statement::Continue,
        Statement::Return(value) => Statement::Return(duplicate_expr(value)),
    }
}

impl Clone for Expr {
    fn clone(&self) -> (copy: Self)
        ensures
            copy@ == self@,
    {
        duplicate_expr(self)
    }
}

impl Clone for Statement {
    fn clone(&self) -> (copy: Self)
        ensures
            copy@ == self@,
    {
        duplicate_statement(self)
    }
}

impl Clone for Item {
    fn clone(&self) -> (copy: Self)
        ensures
            copy@ == self@,
    {
        match self {
            Item::Function { name, params, body } => {
                let mut copies: Vec<Param> = Vec::new();
                let mut i: usize = 0;
                while i < params.len()
                    invariant
                        i <= params.len(),
                        copies@.len() == i,
                        forall|k: int| 0 <= k < i ==> copies@[k].name@ == params@[k].name@,
                    decreases params.len() - i,
                {
                    copies.push(Param { name: params[i].name.clone() });
                    i += 1;
                }
                assert(param_names(copies@) =~= param_names(params@));
                Item::Function { name: name.clone(), params: copies, body: duplicate_statement(body) }
            },
        }
    }
}

impl Clone for Program {
    fn clone(&self) -> (copy: Self)
        ensures
            copy@ == self@,
    {
        let mut items: Vec<Item> = Vec::new();
        let mut i: usize = 0;
        while i < self.0.len()
            invariant
                i <= self.0.len(),
                items@.len() == i,
                forall|k: int| 0 <= k < i ==> items@[k]@ == self.0@[k]@,
            decreases self.0.len() - i,
        {
            items.push(self.0[i].clone());
            i += 1;
        }
        assert(item_views(items@) =~= item_views(self.0@));
        Program(items)
    }
}

} // verus!

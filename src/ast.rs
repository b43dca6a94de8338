use vstd::prelude::*;

verus! {

broadcast use vstd::std_specs::vec::group_vec_axioms, vstd::seq::group_seq_axioms;

/// A whole parsed source: function definitions and top-level statements, each
/// in source order.
#[derive(Debug, PartialEq)]
pub struct Program {
    pub functions: Vec<Function>,
    pub statements: Vec<Statement>,
}

#[derive(Debug, PartialEq)]
pub struct Function {
    pub name: String,
    pub params: Vec<String>,
    pub body: Vec<Statement>,
}

#[derive(Debug, PartialEq)]
pub enum Statement {
    Assign { name: String, expr: Expr },
    Print { expr: Expr },
    If { cond: Expr, then_branch: Vec<Statement>, else_branch: Vec<Statement> },
    ExprStmt(Expr),
}

#[derive(Debug, PartialEq)]
pub enum Expr {
    StrLiteral(String),
    IntLiteral(i64),
    Variable(String),
    Binary { op: BinOp, left: Box<Expr>, right: Box<Expr> },
    Call { name: String, args: Vec<Expr> },
    Length { array: Box<Expr> },
}

/// Binary operator tags. `Plus` and `Minus` are reserved beside `Add` and
/// `Sub`; the parser produces `Add` and `Sub`.
#[derive(Debug, Clone, Copy, PartialEq, Eq, Structural)]
pub enum BinOp {
    Add,
    Sub,
    Eq,
    Ne,
    Lt,
    Le,
    Ge,
    Gt,
    Plus,
    Minus,
    Mul,
    Div,
}

pub struct ProgramView {
    pub functions: Seq<FunctionView>,
    pub statements: Seq<StatementView>,
}

pub struct FunctionView {
    pub name: Seq<char>,
    pub params: Seq<Seq<char>>,
    pub body: Seq<StatementView>,
}

pub enum StatementView {
    Assign { name: Seq<char>, expr: ExprView },
    Print { expr: ExprView },
    If { cond: ExprView, then_branch: Seq<StatementView>, else_branch: Seq<StatementView> },
    ExprStmt(ExprView),
}

pub enum ExprView {
    StrLiteral(Seq<char>),
    IntLiteral(i64),
    Variable(Seq<char>),
    Binary { op: BinOp, left: Box<ExprView>, right: Box<ExprView> },
    Call { name: Seq<char>, args: Seq<ExprView> },
    Length { array: Box<ExprView> },
}

pub open spec fn expr_view(e: Expr) -> ExprView
    decreases e,
{
    match e {
        Expr::StrLiteral(s) => ExprView::StrLiteral(s@),
        Expr::IntLiteral(n) => ExprView::IntLiteral(n),
        Expr::Variable(s) => ExprView::Variable(s@),
        Expr::Binary { op, left, right } => ExprView::Binary {
            op,
            left: Box::new(expr_view(*left)),
            right: Box::new(expr_view(*right)),
        },
        Expr::Call { name, args } => ExprView::Call { name: name@, args: exprs_view(args@) },
        Expr::Length { array } => ExprView::Length { array: Box::new(expr_view(*array)) },
    }
}

pub open spec fn exprs_view(es: Seq<Expr>) -> Seq<ExprView>
    decreases es,
{
    if es.len() == 0 {
        Seq::empty()
    } else {
        exprs_view(es.drop_last()).push(expr_view(es.last()))
    }
}

pub open spec fn statement_view(s: Statement) -> StatementView
    decreases s,
{
    match s {
        Statement::Assign { name, expr } => StatementView::Assign {
            name: name@,
            expr: expr_view(expr),
        },
        Statement::Print { expr } => StatementView::Print { expr: expr_view(expr) },
        Statement::If { cond, then_branch, else_branch } => StatementView::If {
            cond: expr_view(cond),
            then_branch: statements_view(then_branch@),
            else_branch: statements_view(else_branch@),
        },
        Statement::ExprStmt(e) => StatementView::ExprStmt(expr_view(e)),
    }
}

pub open spec fn statements_view(ss: Seq<Statement>) -> Seq<StatementView>
    decreases ss,
{
    if ss.len() == 0 {
        Seq::empty()
    } else {
        statements_view(ss.drop_last()).push(statement_view(ss.last()))
    }
}

pub open spec fn names_view(ns: Seq<String>) -> Seq<Seq<char>> {
    ns.map_values(|n: String| n@)
}

pub open spec fn function_view(f: Function) -> FunctionView {
    FunctionView { name: f.name@, params: names_view(f.params@), body: statements_view(f.body@) }
}

pub open spec fn functions_view(fs: Seq<Function>) -> Seq<FunctionView> {
    fs.map_values(|f: Function| function_view(f))
}

impl View for Expr {
    type V = ExprView;

    open spec fn view(&self) -> ExprView {
        expr_view(*self)
    }
}

impl View for Statement {
    type V = StatementView;

    open spec fn view(&self) -> StatementView {
        statement_view(*self)
    }
}

impl View for Function {
    type V = FunctionView;

    open spec fn view(&self) -> FunctionView {
        function_view(*self)
    }
}

impl View for Program {
    type V = ProgramView;

    open spec fn view(&self) -> ProgramView {
        ProgramView {
            functions: functions_view(self.functions@),
            statements: statements_view(self.statements@),
        }
    }
}

} // verus!

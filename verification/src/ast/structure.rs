//! The vocabulary of the syntax tree, and the mathematical value of each
//! node.

use vstd::prelude::*;
use vstd::hash_map::StringHashMap;
use std::path::PathBuf;

verus! {

/// `std::path::PathBuf`, carried through as an opaque value.
#[verifier::external_type_specification]
#[verifier::external_body]
pub struct ExPathBuf(PathBuf);

/// A constant of the language.
#[derive(Debug, PartialEq)]
pub enum Literal {
    Integer(i64),
    /// A binary64 number, held as its IEEE 754 bit pattern.
    Float(u64),
    Str(String),
}

/// A binary operation with its two operands.
#[derive(Debug, PartialEq)]
pub struct BinearyExpr {
    pub left: Expr,
    pub operator: String,
    pub right: Expr,
}

/// A call of a named function with its arguments in source order.
#[derive(Debug, PartialEq)]
pub struct FunctionCall {
    pub name: String,
    pub arguments: Vec<Expr>,
}

/// An expression tree.
#[derive(Debug, PartialEq)]
pub enum Expr {
    Literal(Literal),
    Binary(Box<BinearyExpr>),
    Variable(String),
    FunctionCall(Box<FunctionCall>),
}

/// A statement, with the number of the source line it came from.
#[derive(Debug, PartialEq)]
pub enum Stmt {
    Assignment { line: usize, name: String, value: Expr },
    If { line: usize, condition: Expr, body: Vec<Stmt> },
    Expression { line: usize, expression: Expr },
}

/// A function definition: reserved vocabulary that the grammar never builds.
pub struct Function {
    pub name: String,
    pub parameters: Vec<String>,
    pub body: Vec<Stmt>,
}

/// One parse unit: where the source came from and the statements read from
/// it.
pub struct Programm {
    pub file: PathBuf,
    pub statements: Vec<Stmt>,
}

/// The expression most recently bound to each variable name.
pub struct SymbolTable {
    pub var: StringHashMap<Expr>,
}

/// The value of a [`Literal`].
pub enum LiteralView {
    Integer(i64),
    Float(u64),
    Str(Seq<char>),
}

/// The value of an [`Expr`].
pub enum ExprView {
    Literal(LiteralView),
    Binary { left: Box<ExprView>, operator: Seq<char>, right: Box<ExprView> },
    Variable(Seq<char>),
    FunctionCall { name: Seq<char>, arguments: Seq<ExprView> },
}

/// The value of a [`Stmt`].
pub enum StmtView {
    Assignment { line: usize, name: Seq<char>, value: ExprView },
    If { line: usize, condition: ExprView, body: Seq<StmtView> },
    Expression { line: usize, expression: ExprView },
}

/// The value of a [`Function`].
pub struct FunctionView {
    pub name: Seq<char>,
    pub parameters: Seq<Seq<char>>,
    pub body: Seq<StmtView>,
}

impl View for Literal {
    type V = LiteralView;

    open spec fn view(&self) -> LiteralView {
        match self {
            Literal::Integer(i) => LiteralView::Integer(*i),
            Literal::Float(bits) => LiteralView::Float(*bits),
            Literal::Str(s) => LiteralView::Str(s@),
        }
    }
}

impl View for Expr {
    type V = ExprView;

    open spec fn view(&self) -> ExprView
        decreases self,
    {
        match self {
            Expr::Literal(l) => ExprView::Literal(l@),
            Expr::Binary(b) => ExprView::Binary {
                left: Box::new(b.left.view()),
                operator: b.operator@,
                right: Box::new(b.right.view()),
            },
            Expr::Variable(name) => ExprView::Variable(name@),
            Expr::FunctionCall(c) => ExprView::FunctionCall {
                name: c.name@,
                arguments: exprs_view(c.arguments@),
            },
        }
    }
}

impl View for Stmt {
    type V = StmtView;

    open spec fn view(&self) -> StmtView
        decreases self,
    {
        match self {
            Stmt::Assignment { line, name, value } => StmtView::Assignment {
                line: *line,
                name: name@,
                value: value@,
            },
            Stmt::If { line, condition, body } => StmtView::If {
                line: *line,
                condition: condition@,
                body: stmts_view(body@),
            },
            Stmt::Expression { line, expression } => StmtView::Expression {
                line: *line,
                expression: expression@,
            },
        }
    }
}

impl StmtView {
    /// The number of the line that the statement came from.
    pub open spec fn line(self) -> usize {
        match self {
            StmtView::Assignment { line, .. } => line,
            StmtView::If { line, .. } => line,
            StmtView::Expression { line, .. } => line,
        }
    }
}

impl View for Function {
    type V = FunctionView;

    open spec fn view(&self) -> FunctionView {
        FunctionView {
            name: self.name@,
            parameters: self.parameters@.map_values(|p: String| p@),
            body: stmts_view(self.body@),
        }
    }
}

/// The values of the expressions in `s`, in order.
pub open spec fn exprs_view(s: Seq<Expr>) -> Seq<ExprView>
    decreases s,
{
    if s.len() == 0 {
        Seq::empty()
    } else {
        exprs_view(s.drop_last()).push(s.last().view())
    }
}

/// The values of the statements in `s`, in order.
pub open spec fn stmts_view(s: Seq<Stmt>) -> Seq<StmtView>
    decreases s,
{
    if s.len() == 0 {
        Seq::empty()
    } else {
        stmts_view(s.drop_last()).push(s.last().view())
    }
}

} // verus!

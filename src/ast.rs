use vstd::prelude::*;

verus! {

/// A binary operator of a `WHERE` expression; all share one precedence level.
#[derive(Debug, Clone, Copy, PartialEq, Eq, Structural)]
pub enum Op {
    Eq,
    Neq,
    Lt,
    Gt,
    Le,
    Ge,
    And,
    Or,
}

/// A value expression of a `WHERE` clause.
///
/// A floating-point literal is kept as the decimal text it was written with.
#[derive(Debug)]
pub enum Expr {
    Identifier(String),
    String(String),
    Number(i64),
    Float(String),
    Group(Box<Expr>),
    BinOp { left: Box<Expr>, op: Op, right: Box<Expr> },
}

/// A statement of a script; `ForEach` bodies nest further statements.
#[derive(Debug)]
pub enum Statement {
    ForEach { table: String, where_clause: Option<Expr>, body: Vec<Statement> },
    FindFirst { table: String, where_clause: Option<Expr> },
    Create { table: String },
    Delete { table: String },
    Display { fields: Vec<String> },
}

/// The texts of a sequence of strings.
pub open spec fn texts(v: Seq<String>) -> Seq<Seq<char>> {
    v.map_values(|s: String| s@)
}

/// An expression with its texts as character sequences.
pub enum ExprView {
    Identifier(Seq<char>),
    Str(Seq<char>),
    Number(i64),
    Float(Seq<char>),
    Group(Box<ExprView>),
    BinOp(Box<ExprView>, Op, Box<ExprView>),
}

/// A statement with its texts as character sequences.
pub enum StmtView {
    ForEach(Seq<char>, Option<ExprView>, Seq<StmtView>),
    FindFirst(Seq<char>, Option<ExprView>),
    Create(Seq<char>),
    Delete(Seq<char>),
    Display(Seq<Seq<char>>),
}

pub open spec fn expr_view(e: Expr) -> ExprView
    decreases e,
{
    match e {
        Expr::Identifier(s) => ExprView::Identifier(s@),
        Expr::String(s) => ExprView::Str(s@),
        Expr::Number(n) => ExprView::Number(n),
        Expr::Float(s) => ExprView::Float(s@),
        Expr::Group(x) => ExprView::Group(Box::new(expr_view(*x))),
        Expr::BinOp { left, op, right } => ExprView::BinOp(
            Box::new(expr_view(*left)),
            op,
            Box::new(expr_view(*right)),
        ),
    }
}

pub open spec fn opt_expr_view(w: Option<Expr>) -> Option<ExprView> {
    match w {
        Some(e) => Some(expr_view(e)),
        None => None,
    }
}

pub open spec fn stmt_view(s: Statement) -> StmtView
    decreases s,
{
    match s {
        Statement::ForEach { table, where_clause, body } => StmtView::ForEach(
            table@,
            opt_expr_view(where_clause),
            Seq::new(body.len() as nat, |i: int| if 0 <= i < body.len() { stmt_view(body[i]) } else { StmtView::Create(Seq::empty()) }),
        ),
        Statement::FindFirst { table, where_clause } => StmtView::FindFirst(table@, opt_expr_view(where_clause)),
        Statement::Create { table } => StmtView::Create(table@),
        Statement::Delete { table } => StmtView::Delete(table@),
        Statement::Display { fields } => StmtView::Display(texts(fields@)),
    }
}

} // verus!

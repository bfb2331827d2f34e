use vstd::prelude::*;

use crate::token::Token;

verus! {

broadcast use vstd::std_specs::vec::group_vec_axioms;

/// A whole Bolic program.
#[derive(Debug, PartialEq, Eq)]
pub enum Ast {
    Stmts(Stmts),
}

/// The value of an evaluated statement or expression.
#[derive(Debug, Clone, Copy, PartialEq, Eq, Structural)]
pub enum RetVal {
    Int(i64),
    Void,
}

/// Why a Bolic program could not be evaluated.
#[derive(Debug, Clone, Copy, PartialEq, Eq, Structural)]
pub enum EvalError {
    /// A value was needed where a statement gave none.
    VoidValue,
    /// A variable was read before any assignment to it.
    UndeclaredVariable { name: char },
    /// The right operand of a division was zero.
    DivisionByZero,
    /// A result does not fit in a signed 64-bit integer.
    Overflow,
    /// A loop ran more iterations than the interpreter allows.
    LoopLimit,
    /// A statement that is not a loop was run as one.
    NotALoop,
}

impl RetVal {
    /// The integer held, or `VoidValue` for no value.
    pub fn to_i(&self) -> (r: Result<i64, EvalError>)
        ensures
            match self {
                RetVal::Int(i) => r == Ok::<i64, EvalError>(*i),
                RetVal::Void => r == Err::<i64, EvalError>(EvalError::VoidValue),
            },
    {
        match self {
            RetVal::Int(i) => Ok(*i),
            RetVal::Void => Err(EvalError::VoidValue),
        }
    }
}

/// A sequence of statements.
pub type Stmts = Vec<Stmt>;

/// A Bolic statement.
#[derive(Debug, PartialEq, Eq)]
pub enum Stmt {
    Expr(Expr),
    NumOut(Expr),
    CharOut(Expr),
    While { cond: Expr, body: Stmts },
}

/// A Bolic expression.
#[derive(Debug, PartialEq, Eq)]
pub enum Expr {
    Var(Variable),
    BinOp { op: BinOp, l: Box<Expr>, r: Box<Expr> },
    If { cond: Box<Expr>, conseq: Box<Stmts>, alt: Option<Box<Stmts>> },
}

impl Expr {
    /// `l op r`.
    pub fn binop(op: BinOp, l: Expr, r: Expr) -> (e: Self)
        ensures
            e == (Expr::BinOp { op, l: Box::new(l), r: Box::new(r) }),
    {
        Self::BinOp { op: op, l: Box::new(l), r: Box::new(r) }
    }

    /// An integer literal.
    pub fn num(i: i64) -> (e: Self)
        ensures
            e == Expr::Var(Variable::Int(i)),
    {
        Self::Var(Variable::Int(i))
    }

    /// A conditional with an alternative.
    pub fn if_alt(cond: Expr, conseq: Stmts, alt: Stmts) -> (e: Self)
        ensures
            e == (Expr::If {
                cond: Box::new(cond),
                conseq: Box::new(conseq),
                alt: Some(Box::new(alt)),
            }),
    {
        Self::If { cond: Box::new(cond), conseq: Box::new(conseq), alt: Some(Box::new(alt)) }
    }

    /// A conditional without an alternative.
    pub fn if_without_alt(cond: Expr, conseq: Stmts) -> (e: Self)
        ensures
            e == (Expr::If { cond: Box::new(cond), conseq: Box::new(conseq), alt: None }),
    {
        Self::If { cond: Box::new(cond), conseq: Box::new(conseq), alt: None }
    }
}

/// A binary arithmetic operator.
#[derive(Debug, Clone, Copy, PartialEq, Eq, Structural)]
pub enum BinOp {
    Add,
    Sub,
    Mul,
    Div,
}

/// A variable reference, an assignment, or an integer literal.
#[derive(Debug, PartialEq, Eq)]
pub enum Variable {
    Assign { var: char, expr: Box<Expr> },
    Var(char),
    Int(i64),
}

impl Variable {
    /// `var ☜ expr`.
    pub fn assign(var: char, expr: Expr) -> (v: Self)
        ensures
            v == (Variable::Assign { var, expr: Box::new(expr) }),
    {
        Self::Assign { var: var, expr: Box::new(expr) }
    }
}

/// The token an operator is written with.
pub open spec fn op_token(op: BinOp) -> Token {
    match op {
        BinOp::Add => Token::Plus,
        BinOp::Sub => Token::Minus,
        BinOp::Mul => Token::Mul,
        BinOp::Div => Token::Div,
    }
}

/// The tokens that write a variable form.
pub open spec fn var_tokens(v: Variable) -> Seq<Token>
    decreases v,
{
    match v {
        Variable::Assign { var, expr } => seq![Token::Symbol(var), Token::Assign] + expr_tokens(*expr),
        Variable::Var(c) => seq![Token::Symbol(c)],
        Variable::Int(i) => seq![Token::Num(i as u8)],
    }
}

/// The tokens that write an expression.
pub open spec fn expr_tokens(e: Expr) -> Seq<Token>
    decreases e,
{
    match e {
        Expr::Var(v) => var_tokens(v),
        Expr::BinOp { op, l, r } => expr_tokens(*l) + seq![op_token(op)] + expr_tokens(*r),
        Expr::If { cond, conseq, alt } => seq![Token::If] + expr_tokens(*cond) + seq![Token::Then]
            + stmts_tokens(*conseq, conseq.len() as int) + match alt {
            Some(a) => seq![Token::Else] + stmts_tokens(*a, a.len() as int) + seq![Token::IfEnd],
            None => seq![Token::IfEnd],
        },
    }
}

/// The tokens that write a statement.
pub open spec fn stmt_tokens(s: Stmt) -> Seq<Token>
    decreases s,
{
    match s {
        Stmt::Expr(e) => expr_tokens(e),
        Stmt::NumOut(e) => seq![Token::NumOut] + expr_tokens(e),
        Stmt::CharOut(e) => seq![Token::CharOut] + expr_tokens(e),
        Stmt::While { cond, body } => seq![Token::While] + expr_tokens(cond) + seq![Token::Do]
            + stmts_tokens(body, body.len() as int) + seq![Token::WhileEnd],
    }
}

/// The tokens that write the first `n` statements of `v`.
pub open spec fn stmts_tokens(v: Stmts, n: int) -> Seq<Token>
    decreases v, n,
{
    if n <= 0 || n > v.len() {
        Seq::empty()
    } else {
        stmts_tokens(v, n - 1) + stmt_tokens(v[n - 1])
    }
}

/// A variable form as the grammar builds it: an assigned expression is well
/// shaped, and a literal is what one token can hold.
pub open spec fn var_shaped(v: Variable) -> bool
    decreases v, 0int,
{
    match v {
        Variable::Assign { var, expr } => expr_shaped(*expr),
        Variable::Var(_) => true,
        Variable::Int(i) => 0 <= i <= 255,
    }
}

/// A product as the grammar builds it: a variable form, or a variable form times
/// (or divided by) a product; so `*` and `/` group to the right.
pub open spec fn term_shaped(e: Expr) -> bool
    decreases e, 0int,
{
    match e {
        Expr::Var(v) => var_shaped(v),
        Expr::BinOp { op, l, r } => (op == BinOp::Mul || op == BinOp::Div) && match *l {
            Expr::Var(v) => var_shaped(v),
            _ => false,
        } && term_shaped(*r),
        _ => false,
    }
}

/// An expression as the grammar builds it: a conditional, a product, or a product
/// plus (or minus) an expression; so `*` and `/` bind tighter than `+` and `-`.
pub open spec fn expr_shaped(e: Expr) -> bool
    decreases e, 1int,
{
    match e {
        Expr::If { cond, conseq, alt } => expr_shaped(*cond) && stmts_shaped(
            *conseq,
            conseq.len() as int,
        ) && match alt {
            Some(a) => stmts_shaped(*a, a.len() as int),
            None => true,
        },
        Expr::BinOp { op, l, r } => if op == BinOp::Add || op == BinOp::Sub {
            term_shaped(*l) && expr_shaped(*r)
        } else {
            term_shaped(e)
        },
        Expr::Var(v) => var_shaped(v),
    }
}

/// A statement as the grammar builds it.
pub open spec fn stmt_shaped(s: Stmt) -> bool
    decreases s, 0int,
{
    match s {
        Stmt::Expr(e) => expr_shaped(e),
        Stmt::NumOut(e) => expr_shaped(e),
        Stmt::CharOut(e) => expr_shaped(e),
        Stmt::While { cond, body } => expr_shaped(cond) && stmts_shaped(body, body.len() as int),
    }
}

/// Whether the first `n` statements of `v` are well shaped.
pub open spec fn stmts_shaped(v: Stmts, n: int) -> bool
    decreases v, n,
{
    if n <= 0 || n > v.len() {
        true
    } else {
        stmts_shaped(v, n - 1) && stmt_shaped(v[n - 1])
    }
}

/// The mathematical form of a variable form.
pub ghost enum VarV {
    Assign(char, Box<ExprV>),
    Var(char),
    Int(i64),
}

/// The mathematical form of an expression: statement lists become sequences.
pub ghost enum ExprV {
    Var(VarV),
    BinOp(BinOp, Box<ExprV>, Box<ExprV>),
    If(Box<ExprV>, Seq<StmtV>, Option<Seq<StmtV>>),
}

/// The mathematical form of a statement.
pub ghost enum StmtV {
    Expr(ExprV),
    NumOut(ExprV),
    CharOut(ExprV),
    While(ExprV, Seq<StmtV>),
}

/// The mathematical form of a variable form.
pub open spec fn var_view(v: Variable) -> VarV
    decreases v, 0int,
{
    match v {
        Variable::Assign { var, expr } => VarV::Assign(var, Box::new(expr_view(*expr))),
        Variable::Var(c) => VarV::Var(c),
        Variable::Int(i) => VarV::Int(i),
    }
}

/// The mathematical form of an expression.
pub open spec fn expr_view(e: Expr) -> ExprV
    decreases e, 0int,
{
    match e {
        Expr::Var(v) => ExprV::Var(var_view(v)),
        Expr::BinOp { op, l, r } => ExprV::BinOp(
            op,
            Box::new(expr_view(*l)),
            Box::new(expr_view(*r)),
        ),
        Expr::If { cond, conseq, alt } => ExprV::If(
            Box::new(expr_view(*cond)),
            stmts_view(*conseq, conseq.len() as int),
            match alt {
                Some(a) => Some(stmts_view(*a, a.len() as int)),
                None => None,
            },
        ),
    }
}

/// The mathematical form of a statement.
pub open spec fn stmt_view(s: Stmt) -> StmtV
    decreases s, 0int,
{
    match s {
        Stmt::Expr(e) => StmtV::Expr(expr_view(e)),
        Stmt::NumOut(e) => StmtV::NumOut(expr_view(e)),
        Stmt::CharOut(e) => StmtV::CharOut(expr_view(e)),
        Stmt::While { cond, body } => StmtV::While(expr_view(cond), stmts_view(body, body.len() as int)),
    }
}

/// The mathematical forms of the first `n` statements of `v`.
pub open spec fn stmts_view(v: Stmts, n: int) -> Seq<StmtV>
    decreases v, n,
{
    if n <= 0 || n > v.len() {
        Seq::empty()
    } else {
        stmts_view(v, n - 1).push(stmt_view(v[n - 1]))
    }
}

} // verus!

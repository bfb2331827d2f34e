use vstd::prelude::*;

use crate::ast::{
    expr_shaped, expr_tokens, expr_view, op_token, stmt_shaped, stmt_tokens, stmt_view,
    stmts_shaped, stmts_tokens, stmts_view, term_shaped, var_shaped, var_tokens, var_view, Ast,
    BinOp, Expr, ExprV, Stmt, StmtV, Stmts, VarV, Variable,
};
use crate::token::Token;

verus! {

broadcast use vstd::std_specs::vec::group_vec_axioms;

/// Where a Bolic token sequence stops making sense.
#[derive(Debug, Clone, Copy, PartialEq, Eq, Structural)]
pub struct SyntaxError {
    /// The position of the first token that could not be parsed.
    pub position: usize,
}

/// `t[pos..q]` is exactly `toks`.
pub open spec fn spans(t: Seq<Token>, pos: int, q: int, toks: Seq<Token>) -> bool {
    pos <= q <= t.len() && t.subrange(pos, q) == toks
}

// The grammar as spec functions. Each one reads one construct starting at `pos`
// and gives its mathematical form together with `k`, where `k + 1` tokens were
// read (statement lists give the count itself, which may be zero).

/// A variable form at `pos`: `name ☜ expr`, `name`, or a number.
pub open spec fn sp_variable(t: Seq<Token>, pos: int) -> Option<(VarV, nat)>
    decreases t.len() - pos, 2int,
{
    if pos < 0 || pos >= t.len() {
        None
    } else {
        match t[pos] {
            Token::Symbol(c) => if pos + 1 < t.len() && t[pos + 1] == Token::Assign {
                match sp_expr(t, pos + 2) {
                    Some((e, k)) => Some((VarV::Assign(c, Box::new(e)), k + 2)),
                    None => None,
                }
            } else {
                Some((VarV::Var(c), 0))
            },
            Token::Num(n) => Some((VarV::Int(n as i64), 0)),
            _ => None,
        }
    }
}

/// A product at `pos`.
pub open spec fn sp_multiply(t: Seq<Token>, pos: int) -> Option<(ExprV, nat)>
    decreases t.len() - pos, 3int,
{
    match sp_variable(t, pos) {
        None => None,
        Some((v, k)) => {
            let q = pos + k + 1;
            if 0 <= q < t.len() && (t[q] == Token::Mul || t[q] == Token::Div) {
                let op = if t[q] == Token::Mul {
                    BinOp::Mul
                } else {
                    BinOp::Div
                };
                match sp_multiply(t, q + 1) {
                    Some((r, k2)) => Some(
                        (ExprV::BinOp(op, Box::new(ExprV::Var(v)), Box::new(r)), k + k2 + 2),
                    ),
                    None => None,
                }
            } else {
                Some((ExprV::Var(v), k))
            }
        },
    }
}

/// A sum at `pos`.
pub open spec fn sp_additive(t: Seq<Token>, pos: int) -> Option<(ExprV, nat)>
    decreases t.len() - pos, 4int,
{
    match sp_multiply(t, pos) {
        None => None,
        Some((e, k)) => {
            let q = pos + k + 1;
            if 0 <= q < t.len() && (t[q] == Token::Plus || t[q] == Token::Minus) {
                let op = if t[q] == Token::Plus {
                    BinOp::Add
                } else {
                    BinOp::Sub
                };
                match sp_expr(t, q + 1) {
                    Some((r, k2)) => Some((ExprV::BinOp(op, Box::new(e), Box::new(r)), k + k2 + 2)),
                    None => None,
                }
            } else {
                Some((e, k))
            }
        },
    }
}

/// An expression at `pos`.
pub open spec fn sp_expr(t: Seq<Token>, pos: int) -> Option<(ExprV, nat)>
    decreases t.len() - pos, 5int,
{
    if pos < 0 || pos >= t.len() {
        None
    } else if t[pos] == Token::If {
        sp_if(t, pos)
    } else {
        sp_additive(t, pos)
    }
}

/// A conditional at `pos`.
pub open spec fn sp_if(t: Seq<Token>, pos: int) -> Option<(ExprV, nat)>
    decreases t.len() - pos, 4int,
{
    if pos < 0 || pos >= t.len() || t[pos] != Token::If {
        None
    } else {
        match sp_expr(t, pos + 1) {
            None => None,
            Some((c, k1)) => {
                let q1 = pos + k1 + 2;
                if !(q1 < t.len() && t[q1] == Token::Then) {
                    None
                } else {
                    let (ss, k2) = sp_stmts(t, q1 + 1, seq![Token::Else, Token::IfEnd]);
                    let q3 = q1 + 1 + k2;
                    if q3 < t.len() && t[q3] == Token::Else {
                        let (alt, k4) = sp_stmts(t, q3 + 1, seq![Token::IfEnd]);
                        let q5 = q3 + 1 + k4;
                        if q5 < t.len() && t[q5] == Token::IfEnd {
                            Some((ExprV::If(Box::new(c), ss, Some(alt)), (q5 - pos) as nat))
                        } else {
                            None
                        }
                    } else if q3 < t.len() && t[q3] == Token::IfEnd {
                        Some((ExprV::If(Box::new(c), ss, None), (q3 - pos) as nat))
                    } else {
                        None
                    }
                }
            },
        }
    }
}

/// A loop at `pos`.
pub open spec fn sp_while(t: Seq<Token>, pos: int) -> Option<(StmtV, nat)>
    decreases t.len() - pos, 5int,
{
    if pos < 0 || pos >= t.len() || t[pos] != Token::While {
        None
    } else {
        match sp_expr(t, pos + 1) {
            None => None,
            Some((c, k1)) => {
                let q1 = pos + k1 + 2;
                if !(q1 < t.len() && t[q1] == Token::Do) {
                    None
                } else {
                    let (body, k2) = sp_stmts(t, q1 + 1, seq![Token::WhileEnd]);
                    let q3 = q1 + 1 + k2;
                    if q3 < t.len() && t[q3] == Token::WhileEnd {
                        Some((StmtV::While(c, body), (q3 - pos) as nat))
                    } else {
                        None
                    }
                }
            },
        }
    }
}

/// A statement at `pos`.
pub open spec fn sp_stmt(t: Seq<Token>, pos: int) -> Option<(StmtV, nat)>
    decreases t.len() - pos, 6int,
{
    if pos < 0 || pos >= t.len() {
        None
    } else if t[pos] == Token::While {
        sp_while(t, pos)
    } else if t[pos] == Token::NumOut || t[pos] == Token::CharOut {
        match sp_expr(t, pos + 1) {
            Some((e, k)) => Some(
                (
                    if t[pos] == Token::NumOut {
                        StmtV::NumOut(e)
                    } else {
                        StmtV::CharOut(e)
                    },
                    k + 1,
                ),
            ),
            None => None,
        }
    } else {
        match sp_expr(t, pos) {
            Some((e, k)) => Some((StmtV::Expr(e), k)),
            None => None,
        }
    }
}

/// Statements from `pos` until a terminator, the end, or a token where no
/// statement can be read; and how many tokens they take.
pub open spec fn sp_stmts(t: Seq<Token>, pos: int, terms: Seq<Token>) -> (Seq<StmtV>, nat)
    decreases t.len() - pos, 7int,
{
    if pos < 0 || pos >= t.len() || terms.contains(t[pos]) {
        (Seq::empty(), 0)
    } else {
        match sp_stmt(t, pos) {
            None => (Seq::empty(), 0),
            Some((s, k)) => if pos + k + 1 > t.len() {
                // a statement never reads past the end; this keeps the measure visible
                (Seq::empty(), 0)
            } else {
                let (rest, k2) = sp_stmts(t, pos + k + 1, terms);
                (seq![s] + rest, k + 1 + k2)
            },
        }
    }
}

/// The program a token sequence parses to: its statements when they take every
/// token, else the position where reading stopped.
pub open spec fn program_view(t: Seq<Token>) -> Result<Seq<StmtV>, int> {
    let (ss, k) = sp_stmts(t, 0, Seq::empty());
    if k == t.len() {
        Ok(ss)
    } else {
        Err(k as int)
    }
}

proof fn lemma_stmts_prefix(v: Stmts, w: Stmts, n: int)
    requires
        0 <= n <= v.len(),
        n <= w.len(),
        forall|i: int| 0 <= i < n ==> v@[i] == w@[i],
    ensures
        stmts_tokens(v, n) == stmts_tokens(w, n),
        stmts_shaped(v, n) == stmts_shaped(w, n),
        stmts_view(v, n) == stmts_view(w, n),
    decreases n,
{
    if n > 0 {
        lemma_stmts_prefix(v, w, n - 1);
    }
}

/// Takes the token at `pos` if it is `expect`.
fn consume(t: &Vec<Token>, pos: usize, expect: Token) -> (r: Result<usize, SyntaxError>)
    ensures
        match r {
            Ok(q) => pos < t.len() && t@[pos as int] == expect && q == pos + 1,
            Err(e) => (pos >= t.len() || t@[pos as int] != expect) && e.position == pos,
        },
{
    if pos < t.len() && t[pos] == expect {
        Ok(pos + 1)
    } else {
        Err(SyntaxError { position: pos })
    }
}

/// A number literal at `pos`.
fn p_number(t: &Vec<Token>, pos: usize) -> (r: Result<(Variable, usize), SyntaxError>)
    ensures
        r matches Ok((v, q)) ==> t@[pos as int] is Num && var_view(v) == VarV::Int(
            t@[pos as int]->Num_0 as i64,
        ),
        match r {
            Ok((v, q)) => q == pos + 1 && spans(t@, pos as int, q as int, var_tokens(v))
                && var_shaped(v),
            Err(_) => pos >= t.len() || !(t@[pos as int] is Num),
        },
{
    if pos >= t.len() {
        return Err(SyntaxError { position: pos });
    }
    match t[pos] {
        Token::Num(n) => {
            let v = Variable::Int(n as i64);
            proof {
                assert(t@.subrange(pos as int, pos + 1) =~= var_tokens(v));
            }
            Ok((v, pos + 1))
        },
        _ => Err(SyntaxError { position: pos }),
    }
}

/// A variable reference, an assignment, or a number at `pos`.
fn p_variable(t: &Vec<Token>, pos: usize) -> (r: Result<(Variable, usize), SyntaxError>)
    requires
        pos <= t.len(),
    ensures
        match sp_variable(t@, pos as int) {
            Some((x, k)) => r is Ok && var_view(r->Ok_0.0) == x && r->Ok_0.1 == pos + k + 1,
            None => r is Err,
        },
        r matches Ok((v, q)) ==> pos < q && spans(t@, pos as int, q as int, var_tokens(v))
            && var_shaped(v),
    decreases t.len() - pos, 2int,
{
    if pos >= t.len() {
        return Err(SyntaxError { position: pos });
    }
    match t[pos] {
        Token::Symbol(c) => {
            match consume(t, pos + 1, Token::Assign) {
                Ok(q) => {
                    let (e, q2) = match p_expr(t, q) {
                        Ok(x) => x,
                        Err(err) => {
                            return Err(err);
                        },
                    };
                    let v = Variable::assign(c, e);
                    proof {
                        assert(t@.subrange(pos as int, q2 as int) =~= seq![Token::Symbol(c), Token::Assign]
                            + t@.subrange(q as int, q2 as int));
                    }
                    Ok((v, q2))
                },
                Err(_) => {
                    let v = Variable::Var(c);
                    proof {
                        assert(t@.subrange(pos as int, pos + 1) =~= var_tokens(v));
                    }
                    Ok((v, pos + 1))
                },
            }
        },
        Token::Num(_) => p_number(t, pos),
        _ => Err(SyntaxError { position: pos }),
    }
}

/// A product at `pos`: a variable form, then optionally `×` or `÷` and a product.
fn p_multiply(t: &Vec<Token>, pos: usize) -> (r: Result<(Expr, usize), SyntaxError>)
    requires
        pos <= t.len(),
    ensures
        match sp_multiply(t@, pos as int) {
            Some((x, k)) => r is Ok && expr_view(r->Ok_0.0) == x && r->Ok_0.1 == pos + k + 1,
            None => r is Err,
        },
        r matches Ok((e, q)) ==> pos < q && spans(t@, pos as int, q as int, expr_tokens(e))
            && term_shaped(e),
    decreases t.len() - pos, 3int,
{
    let (left, q) = match p_variable(t, pos) {
        Ok(x) => x,
        Err(e) => {
            return Err(e);
        },
    };
    if q >= t.len() {
        return Ok((Expr::Var(left), q));
    }
    let op = match t[q] {
        Token::Mul => BinOp::Mul,
        Token::Div => BinOp::Div,
        _ => {
            return Ok((Expr::Var(left), q));
        },
    };
    let (right, q2) = match p_multiply(t, q + 1) {
        Ok(x) => x,
        Err(e) => {
            return Err(e);
        },
    };
    let ghost lv = left;
    let e = Expr::binop(op, Expr::Var(left), right);
    proof {
        assert(expr_tokens(Expr::Var(lv)) == var_tokens(lv));
        assert(expr_view(Expr::Var(lv)) == ExprV::Var(var_view(lv)));
        assert(term_shaped(e));
        assert(t@.subrange(pos as int, q2 as int) =~= t@.subrange(pos as int, q as int) + seq![
            op_token(op),
        ] + t@.subrange(q + 1, q2 as int));
    }
    Ok((e, q2))
}

/// A sum at `pos`: a product, then optionally `＋` or `−` and an expression.
fn p_additive(t: &Vec<Token>, pos: usize) -> (r: Result<(Expr, usize), SyntaxError>)
    requires
        pos <= t.len(),
    ensures
        match sp_additive(t@, pos as int) {
            Some((x, k)) => r is Ok && expr_view(r->Ok_0.0) == x && r->Ok_0.1 == pos + k + 1,
            None => r is Err,
        },
        r matches Ok((e, q)) ==> pos < q && spans(t@, pos as int, q as int, expr_tokens(e))
            && expr_shaped(e),
    decreases t.len() - pos, 4int,
{
    let (left, q) = match p_multiply(t, pos) {
        Ok(x) => x,
        Err(e) => {
            return Err(e);
        },
    };
    proof {
        assert(term_shaped(left) ==> expr_shaped(left)) by {
            if left is If {
            }
        }
    }
    if q >= t.len() {
        return Ok((left, q));
    }
    let op = match t[q] {
        Token::Plus => BinOp::Add,
        Token::Minus => BinOp::Sub,
        _ => {
            return Ok((left, q));
        },
    };
    let (right, q2) = match p_expr(t, q + 1) {
        Ok(x) => x,
        Err(e) => {
            return Err(e);
        },
    };
    let e = Expr::binop(op, left, right);
    proof {
        assert(t@.subrange(pos as int, q2 as int) =~= t@.subrange(pos as int, q as int) + seq![
            op_token(op),
        ] + t@.subrange(q + 1, q2 as int));
    }
    Ok((e, q2))
}

/// An expression at `pos`: a conditional or a sum. On success, the tokens from
/// `pos` up to the position returned write out the expression exactly.
pub fn p_expr(t: &Vec<Token>, pos: usize) -> (r: Result<(Expr, usize), SyntaxError>)
    requires
        pos <= t.len(),
    ensures
        match sp_expr(t@, pos as int) {
            Some((x, k)) => r is Ok && expr_view(r->Ok_0.0) == x && r->Ok_0.1 == pos + k + 1,
            None => r is Err,
        },
        r matches Ok((e, q)) ==> pos < q && spans(t@, pos as int, q as int, expr_tokens(e))
            && expr_shaped(e),
    decreases t.len() - pos, 5int,
{
    if pos >= t.len() {
        return Err(SyntaxError { position: pos });
    }
    if t[pos] == Token::If {
        p_if(t, pos)
    } else {
        p_additive(t, pos)
    }
}

/// A conditional at `pos`: `✈ cond ☺ stmts (☹ stmts)? ☻`.
fn p_if(t: &Vec<Token>, pos: usize) -> (r: Result<(Expr, usize), SyntaxError>)
    requires
        pos <= t.len(),
    ensures
        match sp_if(t@, pos as int) {
            Some((x, k)) => r is Ok && expr_view(r->Ok_0.0) == x && r->Ok_0.1 == pos + k + 1,
            None => r is Err,
        },
        r matches Ok((e, q)) ==> pos < q && spans(t@, pos as int, q as int, expr_tokens(e))
            && expr_shaped(e),
    decreases t.len() - pos, 4int,
{
    let q0 = match consume(t, pos, Token::If) {
        Ok(q) => q,
        Err(e) => {
            return Err(e);
        },
    };
    let (cond, q1) = match p_expr(t, q0) {
        Ok(x) => x,
        Err(e) => {
            return Err(e);
        },
    };
    let q2 = match consume(t, q1, Token::Then) {
        Ok(q) => q,
        Err(e) => {
            return Err(e);
        },
    };
    let conseq_end = vec![Token::Else, Token::IfEnd];
    proof {
        assert(conseq_end@ =~= seq![Token::Else, Token::IfEnd]);
    }
    let (conseq, q3) = p_stmts(t, q2, &conseq_end);
    let ghost head = seq![Token::If] + expr_tokens(cond) + seq![Token::Then] + stmts_tokens(
        conseq,
        conseq.len() as int,
    );
    proof {
        assert(t@.subrange(pos as int, q3 as int) =~= head);
    }
    match consume(t, q3, Token::Else) {
        Ok(q4) => {
            let alt_end = vec![Token::IfEnd];
            proof {
                assert(alt_end@ =~= seq![Token::IfEnd]);
            }
            let (alt, q5) = p_stmts(t, q4, &alt_end);
            let q6 = match consume(t, q5, Token::IfEnd) {
                Ok(q) => q,
                Err(e) => {
                    return Err(e);
                },
            };
            let e = Expr::if_alt(cond, conseq, alt);
            proof {
                assert(t@.subrange(pos as int, q6 as int) =~= head + (seq![Token::Else]
                    + t@.subrange(q4 as int, q5 as int) + seq![Token::IfEnd]));
            }
            Ok((e, q6))
        },
        Err(_) => {
            let q4 = match consume(t, q3, Token::IfEnd) {
                Ok(q) => q,
                Err(e) => {
                    return Err(e);
                },
            };
            let e = Expr::if_without_alt(cond, conseq);
            proof {
                assert(t@.subrange(pos as int, q4 as int) =~= head + seq![Token::IfEnd]);
            }
            Ok((e, q4))
        },
    }
}

/// A loop at `pos`: `♺ cond ☞ stmts ♘`.
fn p_while(t: &Vec<Token>, pos: usize) -> (r: Result<(Stmt, usize), SyntaxError>)
    requires
        pos <= t.len(),
    ensures
        match sp_while(t@, pos as int) {
            Some((x, k)) => r is Ok && stmt_view(r->Ok_0.0) == x && r->Ok_0.1 == pos + k + 1,
            None => r is Err,
        },
        r matches Ok((s, q)) ==> pos < q && spans(t@, pos as int, q as int, stmt_tokens(s))
            && stmt_shaped(s),
    decreases t.len() - pos, 5int,
{
    let q0 = match consume(t, pos, Token::While) {
        Ok(q) => q,
        Err(e) => {
            return Err(e);
        },
    };
    let (cond, q1) = match p_expr(t, q0) {
        Ok(x) => x,
        Err(e) => {
            return Err(e);
        },
    };
    let q2 = match consume(t, q1, Token::Do) {
        Ok(q) => q,
        Err(e) => {
            return Err(e);
        },
    };
    let body_end = vec![Token::WhileEnd];
    proof {
        assert(body_end@ =~= seq![Token::WhileEnd]);
    }
    let (body, q3) = p_stmts(t, q2, &body_end);
    let q4 = match consume(t, q3, Token::WhileEnd) {
        Ok(q) => q,
        Err(e) => {
            return Err(e);
        },
    };
    let s = Stmt::While { cond, body };
    proof {
        assert(t@.subrange(pos as int, q4 as int) =~= stmt_tokens(s));
    }
    Ok((s, q4))
}

/// A statement at `pos`: a loop, an output statement, or an expression.
fn p_stmt(t: &Vec<Token>, pos: usize) -> (r: Result<(Stmt, usize), SyntaxError>)
    requires
        pos <= t.len(),
    ensures
        match sp_stmt(t@, pos as int) {
            Some((x, k)) => r is Ok && stmt_view(r->Ok_0.0) == x && r->Ok_0.1 == pos + k + 1,
            None => r is Err,
        },
        r matches Ok((s, q)) ==> pos < q && spans(t@, pos as int, q as int, stmt_tokens(s))
            && stmt_shaped(s),
    decreases t.len() - pos, 6int,
{
    if pos >= t.len() {
        return Err(SyntaxError { position: pos });
    }
    match t[pos] {
        Token::While => p_while(t, pos),
        Token::NumOut | Token::CharOut => {
            let (e, q) = match p_expr(t, pos + 1) {
                Ok(x) => x,
                Err(e) => {
                    return Err(e);
                },
            };
            let s = if t[pos] == Token::NumOut {
                Stmt::NumOut(e)
            } else {
                Stmt::CharOut(e)
            };
            proof {
                assert(t@.subrange(pos as int, q as int) =~= seq![t@[pos as int]] + t@.subrange(
                    pos + 1,
                    q as int,
                ));
            }
            Ok((s, q))
        },
        _ => {
            let (e, q) = match p_expr(t, pos) {
                Ok(x) => x,
                Err(e) => {
                    return Err(e);
                },
            };
            Ok((Stmt::Expr(e), q))
        },
    }
}

/// Statements from `pos` up to a terminator, the end, or the first token that
/// starts no statement; a statement that fails to parse is not consumed.
fn p_stmts(t: &Vec<Token>, pos: usize, terminators: &Vec<Token>) -> (r: (Stmts, usize))
    requires
        pos <= t.len(),
    ensures
        sp_stmts(t@, pos as int, terminators@) == (stmts_view(r.0, r.0.len() as int), (r.1 - pos) as nat),
        spans(t@, pos as int, r.1 as int, stmts_tokens(r.0, r.0.len() as int)),
        stmts_shaped(r.0, r.0.len() as int),
    decreases t.len() - pos, 7int,
{
    let mut stmts: Stmts = Vec::new();
    let mut p = pos;
    proof {
        assert(t@.subrange(pos as int, pos as int) =~= stmts_tokens(stmts, 0));
    }
    while p < t.len()
        invariant
            pos <= p <= t.len(),
            spans(t@, pos as int, p as int, stmts_tokens(stmts, stmts.len() as int)),
            stmts_shaped(stmts, stmts.len() as int),
            sp_stmts(t@, pos as int, terminators@) == (
                stmts_view(stmts, stmts.len() as int) + sp_stmts(t@, p as int, terminators@).0,
                (p - pos + sp_stmts(t@, p as int, terminators@).1) as nat,
            ),
        ensures
            pos <= p <= t.len(),
            spans(t@, pos as int, p as int, stmts_tokens(stmts, stmts.len() as int)),
            stmts_shaped(stmts, stmts.len() as int),
            sp_stmts(t@, pos as int, terminators@) == (
                stmts_view(stmts, stmts.len() as int) + sp_stmts(t@, p as int, terminators@).0,
                (p - pos + sp_stmts(t@, p as int, terminators@).1) as nat,
            ),
            sp_stmts(t@, p as int, terminators@) == (Seq::<StmtV>::empty(), 0nat),
        decreases t.len() - p,
    {
        let tok = t[p];
        let mut stop = false;
        let mut k: usize = 0;
        while k < terminators.len()
            invariant
                k <= terminators.len(),
                stop == terminators@.subrange(0, k as int).contains(tok),
            decreases terminators.len() - k,
        {
            if terminators[k] == tok {
                stop = true;
            }
            proof {
                let a = terminators@.subrange(0, k as int);
                let b = terminators@.subrange(0, k + 1);
                assert(b =~= a.push(terminators@[k as int]));
                if stop {
                    if a.contains(tok) {
                        let j = choose|j: int| 0 <= j < a.len() && a[j] == tok;
                        assert(b[j] == tok);
                    } else {
                        assert(b[k as int] == tok);
                    }
                } else {
                    assert forall|j: int| 0 <= j < b.len() implies b[j] != tok by {
                        if j < k {
                            assert(a[j] == b[j]);
                        }
                    }
                }
            }
            k = k + 1;
        }
        proof {
            assert(terminators@.subrange(0, k as int) =~= terminators@);
        }
        if stop {
            break;
        }
        match p_stmt(t, p) {
            Ok((s, q)) => {
                let ghost old_stmts = stmts;
                let ghost n = stmts.len() as int;
                stmts.push(s);
                proof {
                    lemma_stmts_prefix(stmts, old_stmts, n);
                    let rest = sp_stmts(t@, q as int, terminators@);
                    assert(stmts_view(stmts, n + 1) == stmts_view(old_stmts, n).push(stmt_view(s)));
                    assert(stmts_view(old_stmts, n) + (seq![stmt_view(s)] + rest.0)
                        =~= stmts_view(stmts, n + 1) + rest.0);
                    assert(t@.subrange(pos as int, q as int) =~= t@.subrange(pos as int, p as int)
                        + t@.subrange(p as int, q as int));
                }
                p = q;
            },
            Err(_) => {
                break;
            },
        }
    }
    proof {
        assert(stmts_view(stmts, stmts.len() as int) + Seq::<StmtV>::empty()
            =~= stmts_view(stmts, stmts.len() as int));
    }
    (stmts, p)
}

/// Parses a whole Bolic program, as `program_view` reads it: it succeeds when the
/// statements read from the start take every token, and otherwise reports where
/// reading stopped. The statements then write out exactly the tokens given,
/// grouped as the grammar groups them.
pub fn parse(tokens: Vec<Token>) -> (r: Result<Ast, SyntaxError>)
    ensures
        match program_view(tokens@) {
            Ok(ss) => r matches Ok(Ast::Stmts(v)) && stmts_view(v, v.len() as int) == ss,
            Err(k) => r == Err::<Ast, SyntaxError>(SyntaxError { position: k as usize }),
        },
        match r {
            Ok(Ast::Stmts(v)) => stmts_tokens(v, v.len() as int) == tokens@ && stmts_shaped(
                v,
                v.len() as int,
            ),
            Err(e) => e.position < tokens.len(),
        },
{
    let (stmts, q) = p_stmts(&tokens, 0, &Vec::new());
    if q == tokens.len() {
        proof {
            assert(tokens@.subrange(0, q as int) =~= tokens@);
        }
        Ok(Ast::Stmts(stmts))
    } else {
        Err(SyntaxError { position: q })
    }
}

} // verus!

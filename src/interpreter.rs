use std::collections::HashMap;

use vstd::prelude::*;

use crate::ast::{stmts_view, Ast, BinOp, EvalError, Expr, RetVal, Stmt, Stmts, Variable};
use crate::parser::{parse, program_view, SyntaxError};
use crate::token::{lex, tokens_of};

verus! {

broadcast use {vstd::std_specs::hash::group_hash_axioms, vstd::std_specs::vec::group_vec_axioms};

/// One item a Bolic program prints.
#[derive(Debug, Clone, Copy, PartialEq, Eq, Structural)]
pub enum Output {
    /// A number, printed in decimal.
    Number(i64),
    /// A byte, printed as a character.
    Char(u8),
}

/// Why running Bolic source text failed.
#[derive(Debug, Clone, Copy, PartialEq, Eq, Structural)]
pub enum BolicError {
    Syntax(SyntaxError),
    Eval(EvalError),
}

/// The variables (by code point) and the output printed so far.
pub ghost struct EvalState {
    pub vars: Map<u32, i64>,
    pub out: Seq<Output>,
}

/// The result of a binary operator; overflow and division by zero are errors.
pub open spec fn binop_value(op: BinOp, l: i64, r: i64) -> Result<i64, EvalError> {
    let v = match op {
        BinOp::Add => l.checked_add(r),
        BinOp::Sub => l.checked_sub(r),
        BinOp::Mul => l.checked_mul(r),
        BinOp::Div => l.checked_div(r),
    };
    if op == BinOp::Div && r == 0 {
        Err(EvalError::DivisionByZero)
    } else {
        match v {
            Some(x) => Ok(x),
            None => Err(EvalError::Overflow),
        }
    }
}

/// The integer a value holds; no value, or an earlier error, is an error.
pub open spec fn as_int(r: Result<RetVal, EvalError>) -> Result<i64, EvalError> {
    match r {
        Ok(RetVal::Int(i)) => Ok(i),
        Ok(RetVal::Void) => Err(EvalError::VoidValue),
        Err(e) => Err(e),
    }
}

/// Evaluates an expression: the state reached, and the value or the error that
/// stopped evaluation there.
pub open spec fn eval_expr(st: EvalState, e: Expr, limit: nat) -> (EvalState, Result<RetVal, EvalError>)
    decreases e, 0int,
{
    match e {
        Expr::Var(Variable::Int(i)) => (st, Ok(RetVal::Int(i))),
        Expr::Var(Variable::Var(c)) => if st.vars.contains_key(c as u32) {
            (st, Ok(RetVal::Int(st.vars[c as u32])))
        } else {
            (st, Err(EvalError::UndeclaredVariable { name: c }))
        },
        Expr::Var(Variable::Assign { var, expr }) => {
            let (s1, r) = eval_expr(st, *expr, limit);
            match as_int(r) {
                Ok(i) => (EvalState { vars: s1.vars.insert(var as u32, i), ..s1 }, Ok(RetVal::Int(i))),
                Err(err) => (s1, Err(err)),
            }
        },
        Expr::BinOp { op, l, r } => {
            let (s1, ra) = eval_expr(st, *l, limit);
            match as_int(ra) {
                Ok(a) => {
                    let (s2, rb) = eval_expr(s1, *r, limit);
                    match as_int(rb) {
                        Ok(b) => match binop_value(op, a, b) {
                            Ok(x) => (s2, Ok(RetVal::Int(x))),
                            Err(err) => (s2, Err(err)),
                        },
                        Err(err) => (s2, Err(err)),
                    }
                },
                Err(err) => (s1, Err(err)),
            }
        },
        Expr::If { cond, conseq, alt } => {
            let (s1, rc) = eval_expr(st, *cond, limit);
            match as_int(rc) {
                Ok(c) => if c != 0 {
                    eval_stmts(s1, *conseq, 0, limit, RetVal::Void)
                } else {
                    match alt {
                        Some(a) => eval_stmts(s1, *a, 0, limit, RetVal::Void),
                        None => (s1, Ok(RetVal::Void)),
                    }
                },
                Err(err) => (s1, Err(err)),
            }
        },
    }
}

/// Evaluates a statement: the state reached, and its value (none for output and
/// loops) or the error that stopped it.
pub open spec fn eval_stmt(st: EvalState, s: Stmt, limit: nat) -> (EvalState, Result<RetVal, EvalError>)
    decreases s, limit + 1,
{
    match s {
        Stmt::Expr(e) => eval_expr(st, e, limit),
        Stmt::NumOut(e) => {
            let (s1, r) = eval_expr(st, e, limit);
            match as_int(r) {
                Ok(x) => (EvalState { out: s1.out.push(Output::Number(x)), ..s1 }, Ok(RetVal::Void)),
                Err(err) => (s1, Err(err)),
            }
        },
        Stmt::CharOut(e) => {
            let (s1, r) = eval_expr(st, e, limit);
            match as_int(r) {
                Ok(x) => (EvalState { out: s1.out.push(Output::Char(x as u8)), ..s1 }, Ok(RetVal::Void)),
                Err(err) => (s1, Err(err)),
            }
        },
        Stmt::While { .. } => eval_while(st, s, limit, limit),
    }
}

/// Runs a loop statement with at most `k` more passes through its body: the body
/// runs while the condition is non-zero, and a loop that wants more passes fails.
/// A statement that is not a loop fails without running.
pub open spec fn eval_while(st: EvalState, s: Stmt, limit: nat, k: nat) -> (EvalState, Result<RetVal, EvalError>)
    decreases s, k,
{
    match s {
        Stmt::While { cond, body } => {
            let (s1, rc) = eval_expr(st, cond, limit);
            match as_int(rc) {
                Ok(c) => if c == 0 {
                    (s1, Ok(RetVal::Void))
                } else if k == 0 {
                    (s1, Err(EvalError::LoopLimit))
                } else {
                    let (s2, rb) = eval_stmts(s1, body, 0, limit, RetVal::Void);
                    match rb {
                        Ok(_) => eval_while(s2, s, limit, (k - 1) as nat),
                        Err(err) => (s2, Err(err)),
                    }
                },
                Err(err) => (s1, Err(err)),
            }
        },
        _ => (st, Err(EvalError::NotALoop)),
    }
}

/// Evaluates statements `i..` of `v` in order: the state reached, and the value of
/// the last one run (`last` if none is left) or the error that stopped them.
pub open spec fn eval_stmts(st: EvalState, v: Stmts, i: int, limit: nat, last: RetVal) -> (EvalState, Result<RetVal, EvalError>)
    decreases v, v.len() - i,
{
    if i < 0 || i >= v.len() {
        (st, Ok(last))
    } else {
        let (s1, r) = eval_stmt(st, v[i], limit);
        match r {
            Ok(x) => eval_stmts(s1, v, i + 1, limit, x),
            Err(err) => (s1, Err(err)),
        }
    }
}

/// A Bolic evaluator. Every variable is global.
pub struct Interpreter {
    sym_table: HashMap<u32, i64>,
    output: Vec<Output>,
    loop_limit: u64,
}

impl View for Interpreter {
    type V = EvalState;

    closed spec fn view(&self) -> EvalState {
        EvalState { vars: self.sym_table@, out: self.output@ }
    }
}

impl Interpreter {
    /// The most passes any one loop may make through its body.
    pub closed spec fn limit(&self) -> nat {
        self.loop_limit as nat
    }

    /// An evaluator with no variables, no output, and loops bounded only by `u64::MAX`.
    pub fn new() -> (r: Self)
        ensures
            r@.vars == Map::<u32, i64>::empty(),
            r@.out == Seq::<Output>::empty(),
            r.limit() == u64::MAX,
    {
        Self::with_loop_limit(u64::MAX)
    }

    /// An evaluator with no variables and no output, whose loops may each make at
    /// most `limit` passes.
    pub fn with_loop_limit(limit: u64) -> (r: Self)
        ensures
            r@.vars == Map::<u32, i64>::empty(),
            r@.out == Seq::<Output>::empty(),
            r.limit() == limit,
    {
        let r = Self { sym_table: HashMap::new(), output: Vec::new(), loop_limit: limit };
        proof {
            assert(r.output@ =~= Seq::<Output>::empty());
        }
        r
    }

    /// The value of a variable, if it was ever assigned.
    pub fn variable(&self, name: char) -> (r: Option<i64>)
        ensures
            r == (if self@.vars.contains_key(name as u32) {
                Some(self@.vars[name as u32])
            } else {
                None::<i64>
            }),
    {
        match self.sym_table.get(&(name as u32)) {
            Some(v) => Some(*v),
            None => None,
        }
    }

    /// Everything printed so far, in order.
    pub fn output(&self) -> (r: &Vec<Output>)
        ensures
            r@ == self@.out,
    {
        &self.output
    }

    /// Lexes, parses and evaluates Bolic source text. When the tokens do not
    /// parse, nothing changes and the error gives where reading stopped; otherwise
    /// the new state and any error are those of evaluating the parsed statements.
    pub fn run(&mut self, code: &str) -> (r: Result<(), BolicError>)
        ensures
            final(self).limit() == old(self).limit(),
            match program_view(tokens_of(code@)) {
                Err(k) => r == Err::<(), BolicError>(
                    BolicError::Syntax(SyntaxError { position: k as usize }),
                ) && final(self)@ == old(self)@,
                Ok(ss) => exists|v: Stmts|
                    #![trigger stmts_view(v, v.len() as int)]
                    stmts_view(v, v.len() as int) == ss && final(self)@ == eval_stmts(
                        old(self)@,
                        v,
                        0,
                        old(self).limit(),
                        RetVal::Void,
                    ).0 && match eval_stmts(old(self)@, v, 0, old(self).limit(), RetVal::Void).1 {
                        Ok(_) => r is Ok,
                        Err(e) => r == Err::<(), BolicError>(BolicError::Eval(e)),
                    },
            },
    {
        let tokens = lex(code);
        let ast = match parse(tokens) {
            Ok(a) => a,
            Err(e) => {
                return Err(BolicError::Syntax(e));
            },
        };
        match self.eval(&ast) {
            Ok(()) => Ok(()),
            Err(e) => Err(BolicError::Eval(e)),
        }
    }

    /// Evaluates a parsed program.
    pub fn eval(&mut self, ast: &Ast) -> (r: Result<(), EvalError>)
        ensures
            final(self).limit() == old(self).limit(),
            match ast {
                Ast::Stmts(v) => final(self)@ == eval_stmts(
                    old(self)@,
                    *v,
                    0,
                    old(self).limit(),
                    RetVal::Void,
                ).0 && match eval_stmts(old(self)@, *v, 0, old(self).limit(), RetVal::Void).1 {
                    Ok(_) => r is Ok,
                    Err(e) => r == Err::<(), EvalError>(e),
                },
            },
    {
        match ast {
            Ast::Stmts(stmts) => match self.e_stmts(stmts) {
                Ok(_) => Ok(()),
                Err(e) => Err(e),
            },
        }
    }

    #[verifier::loop_isolation(false)]
    fn e_stmts(&mut self, stmts: &Stmts) -> (r: Result<RetVal, EvalError>)
        ensures
            final(self).limit() == old(self).limit(),
            (final(self)@, r) == eval_stmts(old(self)@, *stmts, 0, old(self).limit(), RetVal::Void),
        decreases stmts, 0int,
    {
        let ghost s0 = self@;
        let mut res = RetVal::Void;
        let mut i: usize = 0;
        while i < stmts.len()
            invariant
                i <= stmts.len(),
                self.limit() == old(self).limit(),
                eval_stmts(s0, *stmts, 0, self.limit(), RetVal::Void) == eval_stmts(
                    self@,
                    *stmts,
                    i as int,
                    self.limit(),
                    res,
                ),
            decreases stmts.len() - i,
        {
            match self.e_stmt(&stmts[i]) {
                Ok(v) => {
                    res = v;
                },
                Err(e) => {
                    return Err(e);
                },
            }
            i = i + 1;
        }
        Ok(res)
    }

    fn e_stmt(&mut self, stmt: &Stmt) -> (r: Result<RetVal, EvalError>)
        ensures
            final(self).limit() == old(self).limit(),
            (final(self)@, r) == eval_stmt(old(self)@, *stmt, old(self).limit()),
        decreases stmt, 1int,
    {
        match stmt {
            Stmt::Expr(e) => self.e_expr(e),
            Stmt::While { .. } => self.e_while(stmt),
            Stmt::NumOut(e) => {
                let x = match self.e_expr(e) {
                    Ok(v) => match v.to_i() {
                        Ok(x) => x,
                        Err(err) => {
                            return Err(err);
                        },
                    },
                    Err(err) => {
                        return Err(err);
                    },
                };
                self.output.push(Output::Number(x));
                Ok(RetVal::Void)
            },
            Stmt::CharOut(e) => {
                let x = match self.e_expr(e) {
                    Ok(v) => match v.to_i() {
                        Ok(x) => x,
                        Err(err) => {
                            return Err(err);
                        },
                    },
                    Err(err) => {
                        return Err(err);
                    },
                };
                self.output.push(Output::Char(x as u8));
                Ok(RetVal::Void)
            },
        }
    }

    #[verifier::loop_isolation(false)]
    fn e_while(&mut self, wblock: &Stmt) -> (r: Result<RetVal, EvalError>)
        ensures
            final(self).limit() == old(self).limit(),
            (final(self)@, r) == eval_while(old(self)@, *wblock, old(self).limit(), old(self).limit()),
        decreases wblock, 0int,
    {
        match wblock {
            Stmt::While { cond, body } => {
                let ghost s0 = self@;
                let mut k = self.loop_limit;
                loop
                    invariant
                        self.limit() == old(self).limit(),
                        eval_while(s0, *wblock, self.limit(), self.limit()) == eval_while(
                            self@,
                            *wblock,
                            self.limit(),
                            k as nat,
                        ),
                    decreases k,
                {
                    let c = match self.e_expr(cond) {
                        Ok(v) => match v.to_i() {
                            Ok(x) => x,
                            Err(err) => {
                                return Err(err);
                            },
                        },
                        Err(err) => {
                            return Err(err);
                        },
                    };
                    if c == 0 {
                        return Ok(RetVal::Void);
                    }
                    if k == 0 {
                        return Err(EvalError::LoopLimit);
                    }
                    match self.e_stmts(body) {
                        Ok(_) => {},
                        Err(err) => {
                            return Err(err);
                        },
                    }
                    k = k - 1;
                }
            },
            _ => Err(EvalError::NotALoop),
        }
    }

    fn e_expr(&mut self, expr: &Expr) -> (r: Result<RetVal, EvalError>)
        ensures
            final(self).limit() == old(self).limit(),
            (final(self)@, r) == eval_expr(old(self)@, *expr, old(self).limit()),
        decreases expr, 0int,
    {
        match expr {
            Expr::Var(Variable::Int(i)) => Ok(RetVal::Int(*i)),
            Expr::Var(Variable::Var(c)) => match self.sym_table.get(&(*c as u32)) {
                Some(v) => Ok(RetVal::Int(*v)),
                None => Err(EvalError::UndeclaredVariable { name: *c }),
            },
            Expr::Var(Variable::Assign { var, expr }) => {
                let value = match self.e_expr(expr) {
                    Ok(v) => v,
                    Err(err) => {
                        return Err(err);
                    },
                };
                let x = match value.to_i() {
                    Ok(x) => x,
                    Err(err) => {
                        return Err(err);
                    },
                };
                self.sym_table.insert(*var as u32, x);
                Ok(value)
            },
            Expr::BinOp { op, l, r } => {
                let a = match self.e_expr(l) {
                    Ok(v) => match v.to_i() {
                        Ok(x) => x,
                        Err(err) => {
                            return Err(err);
                        },
                    },
                    Err(err) => {
                        return Err(err);
                    },
                };
                let b = match self.e_expr(r) {
                    Ok(v) => match v.to_i() {
                        Ok(x) => x,
                        Err(err) => {
                            return Err(err);
                        },
                    },
                    Err(err) => {
                        return Err(err);
                    },
                };
                let v = match op {
                    BinOp::Add => a.checked_add(b),
                    BinOp::Sub => a.checked_sub(b),
                    BinOp::Mul => a.checked_mul(b),
                    BinOp::Div => {
                        if b == 0 {
                            return Err(EvalError::DivisionByZero);
                        }
                        a.checked_div(b)
                    },
                };
                match v {
                    Some(x) => Ok(RetVal::Int(x)),
                    None => Err(EvalError::Overflow),
                }
            },
            Expr::If { cond, conseq, alt } => {
                let c = match self.e_expr(cond) {
                    Ok(v) => match v.to_i() {
                        Ok(x) => x,
                        Err(err) => {
                            return Err(err);
                        },
                    },
                    Err(err) => {
                        return Err(err);
                    },
                };
                if c != 0 {
                    self.e_stmts(conseq)
                } else {
                    match alt {
                        Some(a) => self.e_stmts(a),
                        None => Ok(RetVal::Void),
                    }
                }
            },
        }
    }
}

} // verus!

use esolangs::arith_token;
use esolangs::ast::{Ast, BinOp, EvalError, Expr, RetVal, Stmt, Variable};
use esolangs::interpreter::{BolicError, Interpreter, Output};
use esolangs::parser::{p_expr, parse};
use esolangs::token::{lex, Token};

const NUMBERS: &str = "⓪①②③④⑤⑥⑦⑧⑨⑩";

fn expr_of(code: &str) -> Expr {
    let tokens = lex(code);
    let (expr, _) = p_expr(&tokens, 0).unwrap();
    expr
}

#[test]
fn token_numbers() {
    let actual = arith_token::lex(NUMBERS);
    let mut expect = vec![];
    for i in 0..=10 {
        expect.push(arith_token::Token::Num(i));
    }
    assert_eq!(expect, actual);
}

#[test]
fn op() {
    let code = "＋−×÷";
    let actual = lex(code);
    let expect = vec![Token::Plus, Token::Minus, Token::Mul, Token::Div];
    assert_eq!(expect, actual);
}

#[test]
fn token_op() {
    let code = "＋－×÷";
    let actual = arith_token::lex(code);
    let expect = vec![
        arith_token::Token::Plus,
        arith_token::Token::Minus,
        arith_token::Token::Mul,
        arith_token::Token::Div,
    ];
    assert_eq!(expect, actual);
}

#[test]
fn minus_signs_differ_between_dialects() {
    assert_eq!(Vec::<Token>::new(), lex("－"));
    assert_eq!(Vec::<arith_token::Token>::new(), arith_token::lex("−✪☜"));
}

#[test]
fn numbers() {
    let actual = lex(NUMBERS);
    let mut expect = vec![];
    for i in 0..=10 {
        expect.push(Token::Num(i));
    }
    assert_eq!(expect, actual);
}

#[test]
fn output() {
    let code = "✍♪";
    let actual = lex(code);
    let expect = vec![Token::NumOut, Token::CharOut];
    assert_eq!(expect, actual);
}

#[test]
fn token_output() {
    let code = "✍♪";
    let actual = arith_token::lex(code);
    let expect = vec![arith_token::Token::NumOut, arith_token::Token::CharOut];
    assert_eq!(expect, actual);
}

#[test]
fn var() {
    let code = "✪  ✷  ✲ | ✩";
    let actual = lex(code);
    let expect = vec![
        Token::Symbol('✪'),
        Token::Symbol('✷'),
        Token::Symbol('✲'),
        Token::Symbol('✩'),
    ];
    assert_eq!(expect, actual);
}

#[test]
fn assign() {
    let code = "✩ ☜ ④";
    let actual = lex(code);
    let expect = vec![Token::Symbol('✩'), Token::Assign, Token::Num(4)];
    assert_eq!(expect, actual);
}

#[test]
fn assign2() {
    let code = "✩ ☜ ✲";
    let actual = lex(code);
    let expect = vec![Token::Symbol('✩'), Token::Assign, Token::Symbol('✲')];
    assert_eq!(expect, actual);
}

#[test]
fn assign3() {
    let code = "✪☜ ✪−①";
    let actual = lex(code);
    let expect = vec![
        Token::Symbol('✪'),
        Token::Assign,
        Token::Symbol('✪'),
        Token::Minus,
        Token::Num(1),
    ];
    assert_eq!(expect, actual);
}

#[test]
fn if_then_else_end() {
    let code = "✈☺☹☻";
    let actual = lex(code);
    let expect = vec![Token::If, Token::Then, Token::Else, Token::IfEnd];
    assert_eq!(expect, actual);
}

#[test]
fn lex_loop_tokens_and_comments() {
    let code = "♺ hello ☞ world ♘";
    let actual = lex(code);
    assert_eq!(vec![Token::While, Token::Do, Token::WhileEnd], actual);
    assert_eq!(Vec::<Token>::new(), lex("plain text"));
}

#[test]
fn interpreter_assgin() {
    let code = "✩ ☜ ①＋②";
    let mut interpreter = Interpreter::new();
    interpreter.run(code).unwrap();
    let actual = interpreter.variable('✩').unwrap();
    let expect = 3;
    assert_eq!(expect, actual);
}

#[test]
fn assgin2() {
    let code = "✪ ☜ ✩ ☜ ① ＋ ②";
    let mut interpreter = Interpreter::new();
    interpreter.run(code).unwrap();
    let actual = interpreter.variable('✪').unwrap();
    let expect = 3;
    assert_eq!(expect, actual);
}

#[test]
fn parser_numbers() {
    for (i, n) in NUMBERS.chars().enumerate() {
        let expr = expr_of(&n.to_string());
        let expect = Expr::num(i as i64);
        assert_eq!(expect, expr);
    }
}

#[test]
fn mul() {
    let expr = expr_of("①×②");
    let expect = Expr::binop(BinOp::Mul, Expr::num(1), Expr::num(2));
    assert_eq!(expect, expr);
}

#[test]
fn add() {
    let expr = expr_of("①＋②");
    let expect = Expr::binop(BinOp::Add, Expr::num(1), Expr::num(2));
    assert_eq!(expect, expr);
}

#[test]
fn sub() {
    let expr = expr_of("①−②");
    let expect = Expr::binop(BinOp::Sub, Expr::num(1), Expr::num(2));
    assert_eq!(expect, expr);
}

#[test]
fn add_mul() {
    let expr = expr_of("①×②＋③×④");
    let left = Expr::binop(BinOp::Mul, Expr::num(1), Expr::num(2));
    let right = Expr::binop(BinOp::Mul, Expr::num(3), Expr::num(4));
    let expect = Expr::binop(BinOp::Add, left, right);
    assert_eq!(expect, expr);
}

#[test]
fn numout() {
    let tokens = lex("✍①×②＋③×④");
    let ast = parse(tokens).unwrap();
    let left = Expr::binop(BinOp::Mul, Expr::num(1), Expr::num(2));
    let right = Expr::binop(BinOp::Mul, Expr::num(3), Expr::num(4));
    let expr = Expr::binop(BinOp::Add, left, right);
    let expect = Ast::Stmts(vec![Stmt::NumOut(expr)]);
    assert_eq!(expect, ast);
}

#[test]
fn parser_assgin() {
    let tokens = lex("✩ ☜ ④");
    let ast = parse(tokens).unwrap();
    let expect = Variable::assign('✩', Expr::num(4));
    let expect = Ast::Stmts(vec![Stmt::Expr(Expr::Var(expect))]);
    assert_eq!(expect, ast);
}

#[test]
fn if_expr() {
    let tokens = lex("✈①☺②☹③☻");
    let ast = parse(tokens).unwrap();
    let expect = Ast::Stmts(vec![Stmt::Expr(Expr::if_alt(
        Expr::num(1),
        vec![Stmt::Expr(Expr::num(2))],
        vec![Stmt::Expr(Expr::num(3))],
    ))]);
    assert_eq!(expect, ast);
}

#[test]
fn if_expr2() {
    let tokens = lex("✈①☺②☻");
    let ast = parse(tokens).unwrap();
    let expect = Ast::Stmts(vec![Stmt::Expr(Expr::if_without_alt(
        Expr::num(1),
        vec![Stmt::Expr(Expr::num(2))],
    ))]);
    assert_eq!(expect, ast);
}

fn update(op: BinOp) -> Ast {
    let expect = Variable::assign(
        '✪',
        Expr::binop(op, Expr::Var(Variable::Var('✪')), Expr::num(1)),
    );
    Ast::Stmts(vec![Stmt::Expr(Expr::Var(expect))])
}

#[test]
fn update_sub() {
    let ast = parse(lex("✪☜ ✪−①")).unwrap();
    assert_eq!(update(BinOp::Sub), ast);
}

#[test]
fn update_add() {
    let ast = parse(lex("✪☜ ✪＋①")).unwrap();
    assert_eq!(update(BinOp::Add), ast);
}

#[test]
fn update_mul() {
    let ast = parse(lex("✪☜ ✪×①")).unwrap();
    assert_eq!(update(BinOp::Mul), ast);
}

#[test]
fn update_div() {
    let ast = parse(lex("✪☜ ✪÷①")).unwrap();
    assert_eq!(update(BinOp::Div), ast);
}

#[test]
fn parse_rejects_trailing_operator() {
    let err = parse(lex("①＋")).unwrap_err();
    assert_eq!(0, err.position);
}

#[test]
fn parse_while_loop() {
    let ast = parse(lex("♺✩☞✩☜✩−①♘")).unwrap();
    let body = vec![Stmt::Expr(Expr::Var(Variable::assign(
        '✩',
        Expr::binop(BinOp::Sub, Expr::Var(Variable::Var('✩')), Expr::num(1)),
    )))];
    let expect = Ast::Stmts(vec![Stmt::While { cond: Expr::Var(Variable::Var('✩')), body }]);
    assert_eq!(expect, ast);
}

#[test]
fn run_prints_numbers_and_chars() {
    let mut interpreter = Interpreter::new();
    interpreter.run("✍①×②＋③×④ ♪⑩").unwrap();
    assert_eq!(&vec![Output::Number(14), Output::Char(10)], interpreter.output());
}

#[test]
fn run_loop_counts_down() {
    let mut interpreter = Interpreter::new();
    interpreter.run("✩☜③ ♺✩☞✍✩ ✩☜✩−①♘").unwrap();
    assert_eq!(
        &vec![Output::Number(3), Output::Number(2), Output::Number(1)],
        interpreter.output()
    );
    assert_eq!(Some(0), interpreter.variable('✩'));
}

#[test]
fn run_if_picks_branch() {
    let mut interpreter = Interpreter::new();
    interpreter.run("✩☜✈⓪☺①☹②☻ ✷☜✈③☺④☹⑤☻").unwrap();
    assert_eq!(Some(2), interpreter.variable('✩'));
    assert_eq!(Some(4), interpreter.variable('✷'));
}

#[test]
fn run_errors() {
    let mut interpreter = Interpreter::new();
    assert_eq!(
        Err(BolicError::Eval(EvalError::UndeclaredVariable { name: '✲' })),
        interpreter.run("✍✲")
    );
    assert_eq!(
        Err(BolicError::Eval(EvalError::DivisionByZero)),
        interpreter.run("✍①÷⓪")
    );
    assert_eq!(
        Err(BolicError::Eval(EvalError::VoidValue)),
        interpreter.run("✩☜✈⓪☺①☻")
    );
    assert!(matches!(interpreter.run("☺"), Err(BolicError::Syntax(_))));
}

#[test]
fn run_loop_limit() {
    let mut interpreter = Interpreter::with_loop_limit(2);
    assert_eq!(
        Err(BolicError::Eval(EvalError::LoopLimit)),
        interpreter.run("♺①☞②♘")
    );
}

#[test]
fn ret_val_to_i() {
    assert_eq!(Ok(7), RetVal::Int(7).to_i());
    assert_eq!(Err(EvalError::VoidValue), RetVal::Void.to_i());
}

#[test]
fn run_error_keeps_earlier_output_only() {
    let mut interpreter = Interpreter::new();
    assert_eq!(
        Err(BolicError::Eval(EvalError::VoidValue)),
        interpreter.run("✍① ✍✈⓪☺②☻ ✍③")
    );
    assert_eq!(&vec![Output::Number(1)], interpreter.output());
}

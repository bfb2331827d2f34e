use esolangs::assembler::{assemble, ParseError};
use esolangs::instruction::Instruction;
use esolangs::vm::{Action, RuntimeError, VM};
use esolangs::ws_token::{tokenize, Token};

/// Writes `S`, `T` and `L` as space, tab and line feed, dropping anything else.
fn ws(src: &str) -> String {
    src.chars()
        .filter_map(|c| match c {
            'S' => Some(' '),
            'T' => Some('\t'),
            'L' => Some('\n'),
            _ => None,
        })
        .collect()
}

fn program(src: &str) -> Result<Vec<Instruction>, ParseError> {
    assemble(&tokenize(&ws(src)))
}

/// Runs a program to its end, answering reads from `input`.
fn run(insts: Vec<Instruction>, input: &[&str]) -> (String, Result<(), RuntimeError>) {
    let mut vm = VM::new(insts);
    let mut out = String::new();
    let mut lines = input.iter();
    loop {
        match vm.step() {
            Ok(Action::Continue) => {}
            Ok(Action::Halt) => return (out, Ok(())),
            Ok(Action::WriteNumber(n)) => out.push_str(&n.to_string()),
            Ok(Action::WriteChar(c)) => out.push(c as char),
            Ok(Action::ReadNumber(a)) => {
                if let Err(e) = vm.provide_number(a, lines.next().unwrap()) {
                    return (out, Err(e));
                }
            }
            Ok(Action::ReadChar(a)) => {
                if let Err(e) = vm.provide_char(a, lines.next().unwrap()) {
                    return (out, Err(e));
                }
            }
            Err(e) => return (out, Err(e)),
        }
    }
}

fn literal(n: i64) -> Vec<Token> {
    let mut toks = vec![if n < 0 { Token::Mark } else { Token::Blank }];
    let m = n.unsigned_abs();
    let mut bits = vec![];
    let mut v = m;
    while v > 0 {
        bits.push(if v % 2 == 1 { Token::Mark } else { Token::Blank });
        v /= 2;
    }
    bits.reverse();
    toks.extend(bits);
    toks.push(Token::Break);
    toks
}

#[test]
fn tokenize_keeps_only_three_symbols() {
    assert_eq!(
        vec![Token::Blank, Token::Mark, Token::Break],
        tokenize("a b\tc\nd")
    );
    assert_eq!(Vec::<Token>::new(), tokenize(""));
    assert_eq!(Vec::<Token>::new(), tokenize("no-symbols-here!"));
}

#[test]
fn assemble_push_literals() {
    assert_eq!(Ok(vec![Instruction::Push(5)]), program("SSSTSTL"));
    assert_eq!(Ok(vec![Instruction::Push(-1)]), program("SSTTL"));
    assert_eq!(Ok(vec![Instruction::Push(0)]), program("SSSL"));
    assert_eq!(Ok(vec![Instruction::Push(0)]), program("SSTL"));
}

#[test]
fn literal_round_trip() {
    for n in [0i64, 1, -1, 2, 5, -5, 65, 1024, -123456789, i64::MAX, i64::MIN] {
        let mut toks = vec![Token::Blank, Token::Blank];
        toks.extend(literal(n));
        assert_eq!(Ok(vec![Instruction::Push(n)]), assemble(&toks));
    }
}

#[test]
fn assemble_all_opcodes() {
    let src = "SLS SLT SLL STSSTL STLSTL TSSS TSST TSSL TSTS TSTT TTS TTT TLSS TLST TLTS TLTT LSSSTL LSTSTL LSLSTL LTSSTL LTTSTL LTL LLL";
    let expect = vec![
        Instruction::Dup,
        Instruction::Swap,
        Instruction::Discard,
        Instruction::Copy(1),
        Instruction::Slide(1),
        Instruction::Add,
        Instruction::Sub,
        Instruction::Mul,
        Instruction::Div,
        Instruction::Mod,
        Instruction::HeapWrite,
        Instruction::HeapRead,
        Instruction::CharOut,
        Instruction::NumOut,
        Instruction::CharIn,
        Instruction::NumIn,
        Instruction::Label("ST".to_string()),
        Instruction::Call("ST".to_string()),
        Instruction::Jump("ST".to_string()),
        Instruction::JumpZero("ST".to_string()),
        Instruction::JumpNeg("ST".to_string()),
        Instruction::Return,
        Instruction::Exit,
    ];
    assert_eq!(Ok(expect), program(src));
}

#[test]
fn assemble_errors() {
    assert_eq!(
        Err(ParseError::UnexpectedPrefix {
            position: 2,
            prefix: vec![Token::Blank, Token::Mark, Token::Mark]
        }),
        program("STT")
    );
    assert_eq!(
        Err(ParseError::UnexpectedPrefix {
            position: 3,
            prefix: vec![Token::Mark, Token::Blank, Token::Mark, Token::Break]
        }),
        program("TSTL")
    );
    assert_eq!(
        Err(ParseError::UnexpectedPrefix {
            position: 5,
            prefix: vec![Token::Mark, Token::Break, Token::Break]
        }),
        program("LLLTLL")
    );
    assert_eq!(Err(ParseError::IncompleteLiteral { position: 2 }), program("SSL"));
    assert_eq!(Err(ParseError::UnexpectedEndOfInput { position: 4 }), program("SSST"));
    assert_eq!(Err(ParseError::UnexpectedEndOfInput { position: 1 }), program("S"));
    let too_big = format!("SSS{}L", "T".repeat(64));
    assert_eq!(Err(ParseError::LiteralTooLarge { position: 2 }), program(&too_big));
}

#[test]
fn push_dup_leaves_two_copies() {
    let mut vm = VM::new(vec![Instruction::Push(7), Instruction::Push(5), Instruction::Dup]);
    for _ in 0..3 {
        assert_eq!(Ok(Action::Continue), vm.step());
    }
    assert_eq!(&vec![7, 5, 5], vm.stack());
}

#[test]
fn push_push_swap_reverses() {
    let mut vm = VM::new(vec![Instruction::Push(1), Instruction::Push(2), Instruction::Swap]);
    for _ in 0..3 {
        assert_eq!(Ok(Action::Continue), vm.step());
    }
    assert_eq!(&vec![2, 1], vm.stack());
}

#[test]
fn arithmetic_pops_two_pushes_one() {
    let cases = [
        (Instruction::Add, 10),
        (Instruction::Sub, 4),
        (Instruction::Mul, 21),
        (Instruction::Div, 2),
        (Instruction::Mod, 1),
    ];
    for (op, expect) in cases {
        let mut vm = VM::new(vec![
            Instruction::Push(9),
            Instruction::Push(7),
            Instruction::Push(3),
            op,
        ]);
        for _ in 0..4 {
            assert_eq!(Ok(Action::Continue), vm.step());
        }
        assert_eq!(&vec![9, expect], vm.stack());
    }
}

#[test]
fn arithmetic_edge_cases() {
    let mut vm = VM::new(vec![Instruction::Push(-7), Instruction::Push(2), Instruction::Div]);
    for _ in 0..3 {
        vm.step().unwrap();
    }
    assert_eq!(&vec![-3], vm.stack());
    let mut vm = VM::new(vec![Instruction::Push(-7), Instruction::Push(2), Instruction::Mod]);
    for _ in 0..3 {
        vm.step().unwrap();
    }
    assert_eq!(&vec![-1], vm.stack());
    let mut vm = VM::new(vec![Instruction::Push(i64::MAX), Instruction::Push(1), Instruction::Add]);
    for _ in 0..3 {
        vm.step().unwrap();
    }
    assert_eq!(&vec![i64::MIN], vm.stack());
    let (_, r) = run(
        vec![Instruction::Push(1), Instruction::Push(0), Instruction::Div],
        &[],
    );
    assert_eq!(Err(RuntimeError::DivisionByZero), r);
    let (_, r) = run(
        vec![Instruction::Push(1), Instruction::Push(0), Instruction::Mod],
        &[],
    );
    assert_eq!(Err(RuntimeError::DivisionByZero), r);
}

#[test]
fn copy_and_slide() {
    let mut vm = VM::new(vec![
        Instruction::Push(1),
        Instruction::Push(2),
        Instruction::Push(3),
        Instruction::Copy(2),
        Instruction::Slide(2),
    ]);
    for _ in 0..4 {
        vm.step().unwrap();
    }
    assert_eq!(&vec![1, 2, 3, 1], vm.stack());
    vm.step().unwrap();
    assert_eq!(&vec![1, 1], vm.stack());
    let (_, r) = run(vec![Instruction::Push(1), Instruction::Copy(1)], &[]);
    assert_eq!(Err(RuntimeError::StackUnderflow), r);
    let (_, r) = run(vec![Instruction::Push(1), Instruction::Slide(1)], &[]);
    assert_eq!(Err(RuntimeError::StackUnderflow), r);
}

#[test]
fn heap_write_then_read() {
    let mut vm = VM::new(vec![
        Instruction::Push(5),
        Instruction::Push(65),
        Instruction::HeapWrite,
        Instruction::Push(5),
        Instruction::HeapRead,
    ]);
    for _ in 0..5 {
        vm.step().unwrap();
    }
    assert_eq!(&vec![65], vm.stack());
    assert_eq!(Some(65), vm.heap_value(5));
    let (_, r) = run(vec![Instruction::Push(6), Instruction::HeapRead], &[]);
    assert_eq!(Err(RuntimeError::UninitializedHeapRead { address: 6 }), r);
}

#[test]
fn call_returns_after_call_site() {
    let insts = vec![
        Instruction::Call("A".to_string()),
        Instruction::Push(2),
        Instruction::NumOut,
        Instruction::Exit,
        Instruction::Label("A".to_string()),
        Instruction::Push(1),
        Instruction::NumOut,
        Instruction::Return,
    ];
    let (out, r) = run(insts, &[]);
    assert_eq!(Ok(()), r);
    assert_eq!("12", out);
}

#[test]
fn missing_exit_is_an_error() {
    let (out, r) = run(vec![Instruction::Push(3), Instruction::NumOut], &[]);
    assert_eq!("3", out);
    assert_eq!(Err(RuntimeError::MissingHalt), r);
    let (_, r) = run(vec![], &[]);
    assert_eq!(Err(RuntimeError::MissingHalt), r);
}

#[test]
fn duplicate_label_resolves_to_first() {
    let insts = vec![
        Instruction::Jump("L".to_string()),
        Instruction::Label("L".to_string()),
        Instruction::Push(1),
        Instruction::NumOut,
        Instruction::Exit,
        Instruction::Label("L".to_string()),
        Instruction::Push(2),
        Instruction::NumOut,
        Instruction::Exit,
    ];
    let mut vm = VM::new(insts.clone());
    vm.step().unwrap();
    assert_eq!(1, vm.pc());
    let (out, r) = run(insts, &[]);
    assert_eq!(Ok(()), r);
    assert_eq!("1", out);
}

#[test]
fn empty_stack_underflows() {
    for ins in [
        Instruction::Dup,
        Instruction::Swap,
        Instruction::Discard,
        Instruction::Add,
        Instruction::HeapRead,
        Instruction::NumOut,
        Instruction::JumpZero("X".to_string()),
    ] {
        let mut vm = VM::new(vec![ins]);
        assert_eq!(Err(RuntimeError::StackUnderflow), vm.step());
    }
}

#[test]
fn end_to_end_write_number() {
    let insts = program("SSSTL TLST LLL").unwrap();
    assert_eq!(
        vec![Instruction::Push(1), Instruction::NumOut, Instruction::Exit],
        insts
    );
    let (out, r) = run(insts, &[]);
    assert_eq!("1", out);
    assert_eq!(Ok(()), r);
}

#[test]
fn end_to_end_unresolved_label() {
    let insts = program("LSLSTTL LLL").unwrap();
    let (out, r) = run(insts, &[]);
    assert_eq!("", out);
    assert_eq!(
        Err(RuntimeError::UnresolvedLabel { name: "STT".to_string() }),
        r
    );
}

#[test]
fn conditional_jumps_and_return_without_call() {
    let insts = vec![
        Instruction::Push(0),
        Instruction::JumpZero("Z".to_string()),
        Instruction::Push(9),
        Instruction::NumOut,
        Instruction::Label("Z".to_string()),
        Instruction::Push(-1),
        Instruction::JumpNeg("N".to_string()),
        Instruction::Push(8),
        Instruction::NumOut,
        Instruction::Label("N".to_string()),
        Instruction::Push(1),
        Instruction::JumpNeg("N".to_string()),
        Instruction::Push(7),
        Instruction::NumOut,
        Instruction::Return,
    ];
    let (out, r) = run(insts, &[]);
    assert_eq!("7", out);
    assert_eq!(Err(RuntimeError::ReturnWithoutCall), r);
}

#[test]
fn reads_and_char_output() {
    let insts = vec![
        Instruction::Push(1),
        Instruction::NumIn,
        Instruction::Push(2),
        Instruction::CharIn,
        Instruction::Push(1),
        Instruction::HeapRead,
        Instruction::NumOut,
        Instruction::Push(2),
        Instruction::HeapRead,
        Instruction::CharOut,
        Instruction::Exit,
    ];
    let (out, r) = run(insts.clone(), &["-42", "hello"]);
    assert_eq!(Ok(()), r);
    assert_eq!("-42h", out);
    let (_, r) = run(insts.clone(), &["4x", "h"]);
    assert_eq!(Err(RuntimeError::InputParseFailure), r);
    let (_, r) = run(insts, &["+3", ""]);
    assert_eq!(Err(RuntimeError::InputParseFailure), r);
}

#[test]
fn exit_halts_with_pending_call() {
    let insts = vec![
        Instruction::Call("F".to_string()),
        Instruction::Label("F".to_string()),
        Instruction::Exit,
    ];
    let (out, r) = run(insts, &[]);
    assert_eq!("", out);
    assert_eq!(Ok(()), r);
}

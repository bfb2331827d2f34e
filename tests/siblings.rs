use esolangs::hq9plus;
use esolangs::starry::{self, CompileError, Compiler, Instruction};

#[test]
fn hq9_tokenize() {
    assert_eq!(
        vec![
            hq9plus::Token::Hello,
            hq9plus::Token::Quine,
            hq9plus::Token::Ninety,
            hq9plus::Token::Plus,
            hq9plus::Token::Ignore
        ],
        hq9plus::tokenize("HQ9+x")
    );
}

#[test]
fn hq9_hello_and_quine() {
    let mut interpreter = hq9plus::Interpreter::new("H".to_string());
    interpreter.run();
    assert_eq!("Hello, world!\n", interpreter.output());
    let mut interpreter = hq9plus::Interpreter::new("Q+a+".to_string());
    interpreter.run();
    assert_eq!("Q+a+", interpreter.output());
    assert_eq!(2, interpreter.count());
}

#[test]
fn hq9_song() {
    let mut interpreter = hq9plus::Interpreter::new("9".to_string());
    interpreter.run();
    let song = interpreter.output();
    assert!(song.starts_with(
        "99 bottles of beer on the wall, 99 bottles of beer.\nTake one down and pass it around, 98 bottles of beer on the wall.\n"
    ));
    assert!(song.contains(
        "2 bottles of beer on the wall, 2 bottles of beer.\nTake one down and pass it around, 1 bottle of beer on the wall.\n1 bottle of beer on the wall, 1 bottle of beer.\nTake one down and pass it around, no more bottles of beer on the wall.\n"
    ));
    assert!(song.ends_with(
        "No more bottles of beer on the wall, no more bottles of beer.\nGo to the store and buy some more, 99 bottles of beer on the wall.\n"
    ));
    assert_eq!(200, song.lines().count());
}

#[test]
fn hq9_head_to_upper() {
    assert_eq!("Abc", hq9plus::Interpreter::head_to_upper("abc"));
    assert_eq!("", hq9plus::Interpreter::head_to_upper(""));
    assert_eq!("SSa", hq9plus::Interpreter::head_to_upper("ßa"));
}

#[test]
fn starry_tokenize() {
    assert_eq!(
        vec![
            starry::Token::Space,
            starry::Token::Plus,
            starry::Token::Star,
            starry::Token::Period,
            starry::Token::Comma,
            starry::Token::BQuote,
            starry::Token::Quote
        ],
        starry::tokenize(" x+*.,`'y")
    );
}

#[test]
fn starry_compile_opcodes() {
    let cases = [
        (" +", Instruction::Dup),
        ("  +", Instruction::Swap),
        ("   +", Instruction::Rotate),
        ("    +", Instruction::Pop),
        ("     +", Instruction::Push(0)),
        ("       +", Instruction::Push(2)),
        ("*", Instruction::Add),
        (" *", Instruction::Sub),
        ("  *", Instruction::Mul),
        ("   *", Instruction::Div),
        ("    *", Instruction::Mod),
        ("     *", Instruction::Add),
        (".", Instruction::NumOut),
        (" .", Instruction::CharOut),
        (",", Instruction::NumIn),
        (" ,", Instruction::CharIn),
        ("`", Instruction::Label(0)),
        ("  `", Instruction::Label(2)),
        (" '", Instruction::JumpNonZero(1)),
    ];
    for (src, expect) in cases {
        assert_eq!(Ok(vec![expect]), Compiler::new(src.to_string()).compile(), "{:?}", src);
    }
    assert_eq!(
        Ok(vec![Instruction::Push(1), Instruction::CharOut]),
        Compiler::new("      + .x".to_string()).compile()
    );
}

#[test]
fn starry_plus_needs_space() {
    assert_eq!(
        Err(CompileError::PlusWithoutSpace { position: 0 }),
        Compiler::new("+".to_string()).compile()
    );
    assert_eq!(
        Err(CompileError::PlusWithoutSpace { position: 2 }),
        Compiler::new(" *+ +".to_string()).compile()
    );
}

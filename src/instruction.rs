use vstd::prelude::*;

verus! {

/// One operation of the stack machine.
#[derive(Debug, Clone, PartialEq, Eq)]
pub enum Instruction {
    Push(i64),
    Dup,
    Copy(i64),
    Swap,
    Discard,
    Slide(i64),
    Add,
    Sub,
    Mul,
    Div,
    Mod,
    HeapWrite,
    HeapRead,
    Label(String),
    Call(String),
    Jump(String),
    JumpZero(String),
    JumpNeg(String),
    Return,
    Exit,
    CharOut,
    NumOut,
    CharIn,
    NumIn,
}

/// The mathematical form of an instruction: label names become character sequences.
pub ghost enum InstrView {
    Push(i64),
    Dup,
    Copy(i64),
    Swap,
    Discard,
    Slide(i64),
    Add,
    Sub,
    Mul,
    Div,
    Mod,
    HeapWrite,
    HeapRead,
    Label(Seq<char>),
    Call(Seq<char>),
    Jump(Seq<char>),
    JumpZero(Seq<char>),
    JumpNeg(Seq<char>),
    Return,
    Exit,
    CharOut,
    NumOut,
    CharIn,
    NumIn,
}

impl View for Instruction {
    type V = InstrView;

    open spec fn view(&self) -> InstrView {
        match self {
            Instruction::Push(n) => InstrView::Push(*n),
            Instruction::Dup => InstrView::Dup,
            Instruction::Copy(n) => InstrView::Copy(*n),
            Instruction::Swap => InstrView::Swap,
            Instruction::Discard => InstrView::Discard,
            Instruction::Slide(n) => InstrView::Slide(*n),
            Instruction::Add => InstrView::Add,
            Instruction::Sub => InstrView::Sub,
            Instruction::Mul => InstrView::Mul,
            Instruction::Div => InstrView::Div,
            Instruction::Mod => InstrView::Mod,
            Instruction::HeapWrite => InstrView::HeapWrite,
            Instruction::HeapRead => InstrView::HeapRead,
            Instruction::Label(s) => InstrView::Label(s@),
            Instruction::Call(s) => InstrView::Call(s@),
            Instruction::Jump(s) => InstrView::Jump(s@),
            Instruction::JumpZero(s) => InstrView::JumpZero(s@),
            Instruction::JumpNeg(s) => InstrView::JumpNeg(s@),
            Instruction::Return => InstrView::Return,
            Instruction::Exit => InstrView::Exit,
            Instruction::CharOut => InstrView::CharOut,
            Instruction::NumOut => InstrView::NumOut,
            Instruction::CharIn => InstrView::CharIn,
            Instruction::NumIn => InstrView::NumIn,
        }
    }
}

/// The views of a sequence of instructions.
pub open spec fn views(s: Seq<Instruction>) -> Seq<InstrView> {
    s.map_values(|i: Instruction| i@)
}

} // verus!

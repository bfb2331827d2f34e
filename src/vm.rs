use std::collections::HashMap;

use vstd::prelude::*;
use vstd::string::StringSliceAdditionalSpecFns;

use crate::decimal::{parse_decimal, parse_number};
use crate::instruction::{views, InstrView, Instruction};

verus! {

broadcast use vstd::std_specs::hash::group_hash_axioms;

/// A fatal condition that stops the machine.
#[derive(Debug, Clone, PartialEq, Eq)]
pub enum RuntimeError {
    /// A value was needed from an empty (or too shallow) stack.
    StackUnderflow,
    /// A heap address was read before anything was written there.
    UninitializedHeapRead { address: u64 },
    /// A jump or call names a label that the program never defines.
    UnresolvedLabel { name: String },
    /// `Return` ran with no pending call.
    ReturnWithoutCall,
    /// The right operand of a division or modulo was zero.
    DivisionByZero,
    /// The program ran past its last instruction without `Exit`.
    MissingHalt,
    /// An input line could not be read as the value asked for.
    InputParseFailure,
}

/// The mathematical form of a runtime error.
pub ghost enum RuntimeFault {
    StackUnderflow,
    UninitializedHeapRead(u64),
    UnresolvedLabel(Seq<char>),
    ReturnWithoutCall,
    DivisionByZero,
    MissingHalt,
    InputParseFailure,
}

impl View for RuntimeError {
    type V = RuntimeFault;

    open spec fn view(&self) -> RuntimeFault {
        match self {
            RuntimeError::StackUnderflow => RuntimeFault::StackUnderflow,
            RuntimeError::UninitializedHeapRead { address } => RuntimeFault::UninitializedHeapRead(
                *address,
            ),
            RuntimeError::UnresolvedLabel { name } => RuntimeFault::UnresolvedLabel(name@),
            RuntimeError::ReturnWithoutCall => RuntimeFault::ReturnWithoutCall,
            RuntimeError::DivisionByZero => RuntimeFault::DivisionByZero,
            RuntimeError::MissingHalt => RuntimeFault::MissingHalt,
            RuntimeError::InputParseFailure => RuntimeFault::InputParseFailure,
        }
    }
}

/// What the machine asks of its surroundings after one step.
#[derive(Debug, Clone, Copy, PartialEq, Eq, Structural)]
pub enum Action {
    /// Nothing: go on stepping.
    Continue,
    /// `Exit` ran: the program ended successfully.
    Halt,
    /// Write this number in decimal to the output.
    WriteNumber(i64),
    /// Write this byte to the output.
    WriteChar(u8),
    /// Read a line, parse it as a number and store it at this heap address.
    ReadNumber(u64),
    /// Read a line and store its first byte at this heap address.
    ReadChar(u64),
}

/// The mutable state of a machine: operand stack (top last), heap, pending call
/// sites (innermost last) and program counter.
pub ghost struct MachineState {
    pub stack: Seq<i64>,
    pub heap: Map<u64, i64>,
    pub calls: Seq<usize>,
    pub pc: usize,
}

/// The state of a machine that has not run yet.
pub open spec fn initial_state() -> MachineState {
    MachineState { stack: Seq::empty(), heap: Map::empty(), calls: Seq::empty(), pc: 0 }
}

/// Where `name` is first defined in `prog`, if anywhere: the earliest definition wins.
pub open spec fn first_def(prog: Seq<InstrView>, name: Seq<char>) -> Option<int>
    decreases prog.len(),
{
    if prog.len() == 0 {
        None
    } else {
        match first_def(prog.drop_last(), name) {
            Some(i) => Some(i),
            None => if prog.last() == InstrView::Label(name) {
                Some(prog.len() - 1)
            } else {
                None
            },
        }
    }
}

/// The first entry of a label table for `name`.
pub open spec fn table_lookup(t: Seq<(String, usize)>, name: Seq<char>) -> Option<int>
    decreases t.len(),
{
    if t.len() == 0 {
        None
    } else {
        match table_lookup(t.drop_last(), name) {
            Some(i) => Some(i),
            None => if t.last().0@ == name {
                Some(t.last().1 as int)
            } else {
                None
            },
        }
    }
}

/// The result of an arithmetic instruction on its left and right operands.
/// Overflow wraps around, as two's complement arithmetic does.
pub open spec fn arith(op: InstrView, l: i64, r: i64) -> Result<i64, RuntimeFault> {
    match op {
        InstrView::Add => Ok(l.wrapping_add(r)),
        InstrView::Sub => Ok(l.wrapping_sub(r)),
        InstrView::Mul => Ok(l.wrapping_mul(r)),
        InstrView::Div => if r == 0 {
            Err(RuntimeFault::DivisionByZero)
        } else {
            match l.checked_div(r) {
                Some(q) => Ok(q),
                None => Ok(l),
            }
        },
        _ => if r == 0 {
            Err(RuntimeFault::DivisionByZero)
        } else {
            match l.checked_rem(r) {
                Some(m) => Ok(m),
                None => Ok(0),
            }
        },
    }
}

/// Whether an instruction is one of the five binary arithmetic operations.
pub open spec fn is_arith(i: InstrView) -> bool {
    i is Add || i is Sub || i is Mul || i is Div || i is Mod
}

/// `s` with the program counter moved to the next instruction.
pub open spec fn advance(s: MachineState) -> MachineState {
    MachineState { pc: (s.pc + 1) as usize, ..s }
}

/// `s` with a new stack, moved to the next instruction.
pub open spec fn with_stack(s: MachineState, stack: Seq<i64>) -> MachineState {
    MachineState { stack, pc: (s.pc + 1) as usize, ..s }
}

/// Where a taken jump to `name` goes.
pub open spec fn jump_to(prog: Seq<InstrView>, s: MachineState, name: Seq<char>) -> Result<
    (MachineState, Action),
    RuntimeFault,
> {
    match first_def(prog, name) {
        None => Err(RuntimeFault::UnresolvedLabel(name)),
        Some(k) => Ok((MachineState { pc: k as usize, ..s }, Action::Continue)),
    }
}

/// One step of the machine running `prog` from state `s`: the next state and what
/// the surroundings must do, or the fault that stops the machine.
pub open spec fn step_spec(prog: Seq<InstrView>, s: MachineState) -> Result<
    (MachineState, Action),
    RuntimeFault,
> {
    let st = s.stack;
    let n = st.len();
    let under = Err(RuntimeFault::StackUnderflow);
    if s.pc >= prog.len() {
        Err(RuntimeFault::MissingHalt)
    } else {
        match prog[s.pc as int] {
            InstrView::Push(v) => Ok((with_stack(s, st.push(v)), Action::Continue)),
            InstrView::Dup => if n < 1 {
                under
            } else {
                Ok((with_stack(s, st.push(st.last())), Action::Continue))
            },
            InstrView::Copy(k) => if k < 0 || k >= n {
                under
            } else {
                Ok((with_stack(s, st.push(st[n - 1 - k])), Action::Continue))
            },
            InstrView::Swap => if n < 2 {
                under
            } else {
                Ok((with_stack(s, st.subrange(0, n - 2).push(st[n - 1]).push(st[n - 2])), Action::Continue))
            },
            InstrView::Discard => if n < 1 {
                under
            } else {
                Ok((with_stack(s, st.drop_last()), Action::Continue))
            },
            InstrView::Slide(k) => if n < 1 || k < 0 || k > n - 1 {
                under
            } else {
                Ok((with_stack(s, st.subrange(0, n - 1 - k).push(st.last())), Action::Continue))
            },
            InstrView::HeapWrite => if n < 2 {
                under
            } else {
                Ok((
                    MachineState {
                        stack: st.subrange(0, n - 2),
                        heap: s.heap.insert(st[n - 2] as u64, st[n - 1]),
                        ..advance(s)
                    },
                    Action::Continue,
                ))
            },
            InstrView::HeapRead => if n < 1 {
                under
            } else if !s.heap.contains_key(st.last() as u64) {
                Err(RuntimeFault::UninitializedHeapRead(st.last() as u64))
            } else {
                Ok((with_stack(s, st.drop_last().push(s.heap[st.last() as u64])), Action::Continue))
            },
            InstrView::Label(_) => Ok((advance(s), Action::Continue)),
            InstrView::Call(name) => match first_def(prog, name) {
                None => Err(RuntimeFault::UnresolvedLabel(name)),
                Some(k) => Ok((MachineState { calls: s.calls.push(s.pc), pc: k as usize, ..s }, Action::Continue)),
            },
            InstrView::Jump(name) => jump_to(prog, s, name),
            InstrView::JumpZero(name) => if n < 1 {
                under
            } else if st.last() == 0 {
                jump_to(prog, with_stack(s, st.drop_last()), name)
            } else {
                Ok((with_stack(s, st.drop_last()), Action::Continue))
            },
            InstrView::JumpNeg(name) => if n < 1 {
                under
            } else if st.last() < 0 {
                jump_to(prog, with_stack(s, st.drop_last()), name)
            } else {
                Ok((with_stack(s, st.drop_last()), Action::Continue))
            },
            InstrView::Return => if s.calls.len() == 0 {
                Err(RuntimeFault::ReturnWithoutCall)
            } else {
                Ok((MachineState { calls: s.calls.drop_last(), pc: (s.calls.last() + 1) as usize, ..s }, Action::Continue))
            },
            InstrView::Exit => Ok((s, Action::Halt)),
            InstrView::CharOut => if n < 1 {
                under
            } else {
                Ok((with_stack(s, st.drop_last()), Action::WriteChar(st.last() as u8)))
            },
            InstrView::NumOut => if n < 1 {
                under
            } else {
                Ok((with_stack(s, st.drop_last()), Action::WriteNumber(st.last())))
            },
            InstrView::CharIn => if n < 1 {
                under
            } else {
                Ok((with_stack(s, st.drop_last()), Action::ReadChar(st.last() as u64)))
            },
            InstrView::NumIn => if n < 1 {
                under
            } else {
                Ok((with_stack(s, st.drop_last()), Action::ReadNumber(st.last() as u64)))
            },
            op => if n < 2 {
                under
            } else {
                match arith(op, st[n - 2], st[n - 1]) {
                    Ok(v) => Ok((with_stack(s, st.subrange(0, n - 2).push(v)), Action::Continue)),
                    Err(e) => Err(e),
                }
            },
        }
    }
}

/// Where a name is first defined, it is defined there, and nowhere before.
pub proof fn lemma_first_def(prog: Seq<InstrView>, name: Seq<char>)
    ensures
        first_def(prog, name) matches Some(k) ==> {
            &&& 0 <= k < prog.len()
            &&& prog[k] == InstrView::Label(name)
            &&& forall|j: int| 0 <= j < k ==> prog[j] != InstrView::Label(name)
        },
        first_def(prog, name) is None ==> forall|j: int|
            0 <= j < prog.len() ==> prog[j] != InstrView::Label(name),
    decreases prog.len(),
{
    if prog.len() > 0 {
        let p = prog.drop_last();
        lemma_first_def(p, name);
        assert forall|j: int| 0 <= j < p.len() implies p[j] == prog[j] by {}
        if first_def(prog, name) is None {
            assert forall|j: int| 0 <= j < prog.len() implies prog[j] != InstrView::Label(name) by {
                if j < p.len() {
                    assert(p[j] == prog[j]);
                }
            }
        }
    }
}

proof fn lemma_lookup_prefix(t: Seq<(String, usize)>, k: int, name: Seq<char>)
    requires
        0 <= k <= t.len(),
        table_lookup(t.subrange(0, k), name) is Some,
    ensures
        table_lookup(t, name) == table_lookup(t.subrange(0, k), name),
    decreases t.len(),
{
    if k < t.len() {
        assert(t.drop_last().subrange(0, k) =~= t.subrange(0, k));
        lemma_lookup_prefix(t.drop_last(), k, name);
    } else {
        assert(t.subrange(0, k) =~= t);
    }
}

/// A stack machine that runs one program.
pub struct VM {
    insts: Vec<Instruction>,
    stack: Vec<i64>,
    heap: HashMap<u64, i64>,
    labels: Vec<(String, usize)>,
    call_stack: Vec<usize>,
    pc: usize,
}

impl View for VM {
    type V = MachineState;

    closed spec fn view(&self) -> MachineState {
        MachineState {
            stack: self.stack@,
            heap: self.heap@,
            calls: self.call_stack@,
            pc: self.pc,
        }
    }
}

/// The first entry of a label table for `name`.
fn lookup(t: &Vec<(String, usize)>, name: &String) -> (r: Option<usize>)
    ensures
        match r {
            Some(k) => table_lookup(t@, name@) == Some(k as int),
            None => table_lookup(t@, name@) is None,
        },
{
    let mut j: usize = 0;
    while j < t.len()
        invariant
            j <= t.len(),
            table_lookup(t@.subrange(0, j as int), name@) is None,
        decreases t.len() - j,
    {
        proof {
            assert(t@.subrange(0, j + 1).drop_last() =~= t@.subrange(0, j as int));
        }
        if t[j].0 == *name {
            proof {
                lemma_lookup_prefix(t@, j + 1, name@);
            }
            return Some(t[j].1);
        }
        j = j + 1;
    }
    proof {
        assert(t@.subrange(0, j as int) =~= t@);
    }
    None
}

impl VM {
    /// The program the machine runs.
    pub closed spec fn program(&self) -> Seq<InstrView> {
        views(self.insts@)
    }

    /// The label table matches the program, and every position held is inside it.
    pub closed spec fn wf(&self) -> bool {
        &&& self.pc <= self.insts.len()
        &&& forall|i: int| 0 <= i < self.call_stack.len() ==> self.call_stack@[i] < self.insts.len()
        &&& forall|name: Seq<char>| #[trigger]
            table_lookup(self.labels@, name) == first_def(self.program(), name)
    }

    /// A machine about to run `insts` from the first instruction, with an empty
    /// stack, heap and call stack. Labels are indexed before anything runs.
    pub fn new(insts: Vec<Instruction>) -> (vm: VM)
        ensures
            vm.wf(),
            vm.program() == views(insts@),
            vm@ == initial_state(),
    {
        let labels = Self::find_labels(&insts);
        let vm = VM {
            insts,
            stack: Vec::new(),
            heap: HashMap::new(),
            labels,
            call_stack: Vec::new(),
            pc: 0,
        };
        proof {
            assert(vm.stack@ =~= Seq::<i64>::empty());
            assert(vm.call_stack@ =~= Seq::<usize>::empty());
            assert(vm.heap@ =~= Map::<u64, i64>::empty());
        }
        vm
    }

    /// Indexes every label definition; of two with one name the earlier wins.
    fn find_labels(insts: &Vec<Instruction>) -> (t: Vec<(String, usize)>)
        ensures
            forall|name: Seq<char>| #[trigger]
                table_lookup(t@, name) == first_def(views(insts@), name),
    {
        let mut t: Vec<(String, usize)> = Vec::new();
        let mut i: usize = 0;
        while i < insts.len()
            invariant
                i <= insts.len(),
                forall|name: Seq<char>| #[trigger]
                    table_lookup(t@, name) == first_def(views(insts@).subrange(0, i as int), name),
            decreases insts.len() - i,
        {
            let ghost old_t = t@;
            let ghost pre = views(insts@).subrange(0, i as int);
            let ghost next = views(insts@).subrange(0, i + 1);
            proof {
                assert(next.drop_last() =~= pre);
                assert(next.last() == insts@[i as int]@);
            }
            match &insts[i] {
                Instruction::Label(name) => {
                    if lookup(&t, name).is_none() {
                        t.push((name.clone(), i));
                        proof {
                            assert(t@.drop_last() =~= old_t);
                        }
                    }
                },
                _ => {},
            }
            proof {
                assert forall|n: Seq<char>| #[trigger]
                    table_lookup(t@, n) == first_def(next, n) by {
                    assert(table_lookup(old_t, n) == first_def(pre, n));
                }
            }
            i = i + 1;
        }
        proof {
            assert(views(insts@).subrange(0, i as int) =~= views(insts@));
        }
        t
    }

    /// Takes the top value off the stack.
    fn pop(&mut self) -> (r: Result<i64, RuntimeError>)
        ensures
            final(self).insts == old(self).insts,
            final(self).labels == old(self).labels,
            final(self).heap == old(self).heap,
            final(self).call_stack == old(self).call_stack,
            final(self).pc == old(self).pc,
            old(self).stack.len() == 0 ==> r is Err && r->Err_0@ == RuntimeFault::StackUnderflow
                && final(self).stack@ == old(self).stack@,
            old(self).stack.len() > 0 ==> r == Ok::<i64, RuntimeError>(old(self).stack@.last())
                && final(self).stack@ == old(self).stack@.drop_last(),
    {
        match self.stack.pop() {
            Some(x) => Ok(x),
            None => Err(RuntimeError::StackUnderflow),
        }
    }

    /// The position of the first definition of `label`.
    fn resolve_label(&self, label: &String) -> (r: Result<usize, RuntimeError>)
        requires
            self.wf(),
        ensures
            match r {
                Ok(k) => first_def(self.program(), label@) == Some(k as int) && k < self.insts.len(),
                Err(e) => first_def(self.program(), label@) is None
                    && e@ == RuntimeFault::UnresolvedLabel(label@),
            },
    {
        proof {
            lemma_first_def(self.program(), label@);
            assert(table_lookup(self.labels@, label@) == first_def(self.program(), label@));
        }
        match lookup(&self.labels, label) {
            Some(k) => Ok(k),
            None => Err(RuntimeError::UnresolvedLabel { name: label.clone() }),
        }
    }

    /// Runs the instruction at the program counter. On success the machine is in
    /// the next state of `step_spec` and the action tells the caller what to do;
    /// otherwise the error is the fault that `step_spec` gives.
    pub fn step(&mut self) -> (r: Result<Action, RuntimeError>)
        requires
            old(self).wf(),
        ensures
            final(self).wf(),
            final(self).program() == old(self).program(),
            match step_spec(old(self).program(), old(self)@) {
                Ok((s, a)) => r == Ok::<Action, RuntimeError>(a) && final(self)@ == s,
                Err(f) => r is Err && r->Err_0@ == f,
            },
    {
        let pc = self.pc;
        if pc >= self.insts.len() {
            return Err(RuntimeError::MissingHalt);
        }
        let ghost prog = self.program();
        let ghost s0 = self@;
        proof {
            assert(prog[pc as int] == self.insts@[pc as int]@);
        }
        let n = self.stack.len();
        match &self.insts[pc] {
            Instruction::Push(v) => {
                let v = *v;
                self.stack.push(v);
            },
            Instruction::Dup => {
                if n < 1 {
                    return Err(RuntimeError::StackUnderflow);
                }
                let x = self.stack[n - 1];
                self.stack.push(x);
            },
            Instruction::Copy(k) => {
                let k = *k;
                if k < 0 || k as u64 >= n as u64 {
                    return Err(RuntimeError::StackUnderflow);
                }
                let x = self.stack[n - 1 - k as usize];
                self.stack.push(x);
            },
            Instruction::Swap => {
                if n < 2 {
                    return Err(RuntimeError::StackUnderflow);
                }
                let x = self.stack.pop().unwrap();
                let y = self.stack.pop().unwrap();
                self.stack.push(x);
                self.stack.push(y);
                proof {
                    assert(self.stack@ =~= s0.stack.subrange(0, n - 2).push(x).push(y));
                }
            },
            Instruction::Discard => {
                if n < 1 {
                    return Err(RuntimeError::StackUnderflow);
                }
                self.stack.pop();
            },
            Instruction::Slide(k) => {
                let k = *k;
                if n < 1 || k < 0 || k as u64 > (n - 1) as u64 {
                    return Err(RuntimeError::StackUnderflow);
                }
                let top = self.stack[n - 1];
                self.stack.truncate(n - 1 - k as usize);
                self.stack.push(top);
            },
            Instruction::HeapWrite => {
                if n < 2 {
                    return Err(RuntimeError::StackUnderflow);
                }
                let value = self.stack.pop().unwrap();
                let address = self.stack.pop().unwrap();
                self.heap.insert(address as u64, value);
                proof {
                    assert(self.stack@ =~= s0.stack.subrange(0, n - 2));
                }
            },
            Instruction::HeapRead => {
                let address = match self.pop() {
                    Ok(a) => a,
                    Err(e) => {
                        return Err(e);
                    },
                };
                match self.heap.get(&(address as u64)) {
                    Some(v) => {
                        let v = *v;
                        self.stack.push(v);
                    },
                    None => {
                        return Err(RuntimeError::UninitializedHeapRead { address: address as u64 });
                    },
                }
            },
            Instruction::Label(_) => {},
            Instruction::Call(name) => {
                let name = name.clone();
                let k = match self.resolve_label(&name) {
                    Ok(k) => k,
                    Err(e) => {
                        return Err(e);
                    },
                };
                self.call_stack.push(pc);
                self.pc = k;
                return Ok(Action::Continue);
            },
            Instruction::Jump(name) => {
                let name = name.clone();
                let k = match self.resolve_label(&name) {
                    Ok(k) => k,
                    Err(e) => {
                        return Err(e);
                    },
                };
                self.pc = k;
                return Ok(Action::Continue);
            },
            Instruction::JumpZero(name) => {
                let name = name.clone();
                let x = match self.pop() {
                    Ok(x) => x,
                    Err(e) => {
                        return Err(e);
                    },
                };
                if x == 0 {
                    let k = match self.resolve_label(&name) {
                        Ok(k) => k,
                        Err(e) => {
                            return Err(e);
                        },
                    };
                    self.pc = k;
                    return Ok(Action::Continue);
                }
            },
            Instruction::JumpNeg(name) => {
                let name = name.clone();
                let x = match self.pop() {
                    Ok(x) => x,
                    Err(e) => {
                        return Err(e);
                    },
                };
                if x < 0 {
                    let k = match self.resolve_label(&name) {
                        Ok(k) => k,
                        Err(e) => {
                            return Err(e);
                        },
                    };
                    self.pc = k;
                    return Ok(Action::Continue);
                }
            },
            Instruction::Return => {
                match self.call_stack.pop() {
                    Some(c) => {
                        self.pc = c + 1;
                        return Ok(Action::Continue);
                    },
                    None => {
                        return Err(RuntimeError::ReturnWithoutCall);
                    },
                }
            },
            Instruction::Exit => {
                return Ok(Action::Halt);
            },
            Instruction::CharOut => {
                let x = match self.pop() {
                    Ok(x) => x,
                    Err(e) => {
                        return Err(e);
                    },
                };
                self.pc = pc + 1;
                return Ok(Action::WriteChar(x as u8));
            },
            Instruction::NumOut => {
                let x = match self.pop() {
                    Ok(x) => x,
                    Err(e) => {
                        return Err(e);
                    },
                };
                self.pc = pc + 1;
                return Ok(Action::WriteNumber(x));
            },
            Instruction::CharIn => {
                let x = match self.pop() {
                    Ok(x) => x,
                    Err(e) => {
                        return Err(e);
                    },
                };
                self.pc = pc + 1;
                return Ok(Action::ReadChar(x as u64));
            },
            Instruction::NumIn => {
                let x = match self.pop() {
                    Ok(x) => x,
                    Err(e) => {
                        return Err(e);
                    },
                };
                self.pc = pc + 1;
                return Ok(Action::ReadNumber(x as u64));
            },
            Instruction::Add | Instruction::Sub | Instruction::Mul | Instruction::Div
            | Instruction::Mod => {
                let op = &self.insts[pc];
                if n < 2 {
                    return Err(RuntimeError::StackUnderflow);
                }
                let r = self.stack[n - 1];
                let l = self.stack[n - 2];
                let v = match op {
                    Instruction::Add => l.wrapping_add(r),
                    Instruction::Sub => l.wrapping_sub(r),
                    Instruction::Mul => l.wrapping_mul(r),
                    Instruction::Div => {
                        if r == 0 {
                            return Err(RuntimeError::DivisionByZero);
                        }
                        match l.checked_div(r) {
                            Some(q) => q,
                            None => l,
                        }
                    },
                    _ => {
                        if r == 0 {
                            return Err(RuntimeError::DivisionByZero);
                        }
                        match l.checked_rem(r) {
                            Some(m) => m,
                            None => 0,
                        }
                    },
                };
                self.stack.truncate(n - 2);
                self.stack.push(v);
            },
        }
        self.pc = pc + 1;
        Ok(Action::Continue)
    }

    /// Answers `ReadNumber(address)` with the line that was read (its line terminator
    /// removed): the line must be a decimal integer, which is stored at `address`.
    pub fn provide_number(&mut self, address: u64, line: &str) -> (r: Result<(), RuntimeError>)
        requires
            old(self).wf(),
        ensures
            final(self).wf(),
            final(self).program() == old(self).program(),
            match parse_decimal(line@) {
                Some(v) => r is Ok && final(self)@ == (MachineState {
                    heap: old(self)@.heap.insert(address, v),
                    ..old(self)@
                }),
                None => r is Err && r->Err_0@ == RuntimeFault::InputParseFailure && final(self)@
                    == old(self)@,
            },
    {
        match parse_number(line) {
            Some(v) => {
                self.heap.insert(address, v);
                Ok(())
            },
            None => Err(RuntimeError::InputParseFailure),
        }
    }

    /// Answers `ReadChar(address)` with the line that was read: its first byte is
    /// stored at `address`. An empty line has no byte to give.
    pub fn provide_char(&mut self, address: u64, line: &str) -> (r: Result<(), RuntimeError>)
        requires
            old(self).wf(),
        ensures
            final(self).wf(),
            final(self).program() == old(self).program(),
            line.spec_bytes().len() > 0 ==> r is Ok && final(self)@ == (MachineState {
                heap: old(self)@.heap.insert(address, line.spec_bytes()[0] as i64),
                ..old(self)@
            }),
            line.spec_bytes().len() == 0 ==> r is Err && r->Err_0@
                == RuntimeFault::InputParseFailure && final(self)@ == old(self)@,
    {
        let bytes = line.as_bytes();
        if bytes.len() == 0 {
            return Err(RuntimeError::InputParseFailure);
        }
        self.heap.insert(address, bytes[0] as i64);
        Ok(())
    }

    /// The operand stack, top last.
    pub fn stack(&self) -> (r: &Vec<i64>)
        ensures
            r@ == self@.stack,
    {
        &self.stack
    }

    /// The position of the next instruction.
    pub fn pc(&self) -> (r: usize)
        ensures
            r == self@.pc,
    {
        self.pc
    }

    /// The value stored at a heap address, if any.
    pub fn heap_value(&self, address: u64) -> (r: Option<i64>)
        ensures
            r == (if self@.heap.contains_key(address) {
                Some(self@.heap[address])
            } else {
                None::<i64>
            }),
    {
        match self.heap.get(&address) {
            Some(v) => Some(*v),
            None => None,
        }
    }
}

} // verus!

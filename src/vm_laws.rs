use vstd::prelude::*;

use crate::instruction::InstrView;
use crate::vm::{initial_state, first_def, is_arith, lemma_first_def, step_spec, Action, MachineState, RuntimeFault};

verus! {

/// The state after one successful step.
pub open spec fn next(prog: Seq<InstrView>, s: MachineState) -> MachineState {
    step_spec(prog, s)->Ok_0.0
}

/// Whether an instruction takes at least one value off the stack.
pub open spec fn pops_stack(i: InstrView) -> bool {
    !(i is Push || i is Label || i is Call || i is Jump || i is Return || i is Exit)
}

/// Pushing a value and then duplicating the top leaves the value twice on top of
/// the stack.
pub proof fn law_push_dup(prog: Seq<InstrView>, s: MachineState, v: i64)
    requires
        prog.len() <= usize::MAX,
        s.pc + 1 < prog.len(),
        prog[s.pc as int] == InstrView::Push(v),
        prog[s.pc + 1] == InstrView::Dup,
    ensures
        step_spec(prog, s) is Ok,
        step_spec(prog, next(prog, s)) is Ok,
        next(prog, next(prog, s)).stack == s.stack.push(v).push(v),
        next(prog, next(prog, s)).pc == s.pc + 2,
{
    let s1 = next(prog, s);
    assert(s1.pc == s.pc + 1);
    assert(s1.stack == s.stack.push(v));
}

/// Pushing `a`, then `b`, then swapping leaves `b` under `a` on top of the stack.
pub proof fn law_push_push_swap(prog: Seq<InstrView>, s: MachineState, a: i64, b: i64)
    requires
        prog.len() <= usize::MAX,
        s.pc + 2 < prog.len(),
        prog[s.pc as int] == InstrView::Push(a),
        prog[s.pc + 1] == InstrView::Push(b),
        prog[s.pc + 2] == InstrView::Swap,
    ensures
        step_spec(prog, s) is Ok,
        step_spec(prog, next(prog, s)) is Ok,
        step_spec(prog, next(prog, next(prog, s))) is Ok,
        next(prog, next(prog, next(prog, s))).stack == s.stack.push(b).push(a),
{
    let s1 = next(prog, s);
    assert(s1.pc == s.pc + 1);
    let s2 = next(prog, s1);
    assert(s2.pc == s.pc + 2);
    assert(s2.stack == s.stack.push(a).push(b));
    assert(s2.stack.subrange(0, s2.stack.len() - 2) =~= s.stack);
}

/// A binary arithmetic instruction that succeeds leaves the stack one value shorter.
pub proof fn law_arith_depth(prog: Seq<InstrView>, s: MachineState)
    requires
        s.pc < prog.len(),
        is_arith(prog[s.pc as int]),
    ensures
        step_spec(prog, s) is Ok ==> next(prog, s).stack.len() == s.stack.len() - 1,
        step_spec(prog, s) is Err ==> s.stack.len() < 2 || step_spec(prog, s)->Err_0
            == RuntimeFault::DivisionByZero,
{
}

/// Writing a value to the heap and reading the same address back pushes that value.
pub proof fn law_heap_write_read(prog: Seq<InstrView>, s: MachineState, addr: i64, v: i64)
    requires
        prog.len() <= usize::MAX,
        s.pc + 4 < prog.len(),
        prog[s.pc as int] == InstrView::Push(addr),
        prog[s.pc + 1] == InstrView::Push(v),
        prog[s.pc + 2] == InstrView::HeapWrite,
        prog[s.pc + 3] == InstrView::Push(addr),
        prog[s.pc + 4] == InstrView::HeapRead,
    ensures
        ({
            let s1 = next(prog, s);
            let s2 = next(prog, s1);
            let s3 = next(prog, s2);
            let s4 = next(prog, s3);
            &&& step_spec(prog, s) is Ok
            &&& step_spec(prog, s1) is Ok
            &&& step_spec(prog, s2) is Ok
            &&& step_spec(prog, s3) is Ok
            &&& step_spec(prog, s4) is Ok
            &&& next(prog, s4).stack == s.stack.push(v)
            &&& next(prog, s4).heap == s.heap.insert(addr as u64, v)
        }),
{
    let s1 = next(prog, s);
    assert(s1.pc == s.pc + 1);
    assert(s1.stack == s.stack.push(addr));
    let s2 = next(prog, s1);
    assert(s2.pc == s.pc + 2);
    assert(s2.stack == s.stack.push(addr).push(v));
    let s3 = next(prog, s2);
    assert(s3.pc == s.pc + 3);
    assert(s3.stack =~= s.stack);
    assert(s3.heap == s.heap.insert(addr as u64, v));
    let s4 = next(prog, s3);
    assert(s4.pc == s.pc + 4);
    assert(s4.stack == s.stack.push(addr));
    assert(s4.stack.drop_last() =~= s.stack);
}

/// Reading a heap address that was never written fails, naming the address.
pub proof fn law_uninitialized_read(prog: Seq<InstrView>, s: MachineState)
    requires
        s.pc < prog.len(),
        prog[s.pc as int] == InstrView::HeapRead,
        s.stack.len() > 0,
        !s.heap.contains_key(s.stack.last() as u64),
    ensures
        step_spec(prog, s) == Err::<(MachineState, Action), RuntimeFault>(
            RuntimeFault::UninitializedHeapRead(s.stack.last() as u64),
        ),
{
}

/// A call goes to the label and records its own position; a `Return` reached while
/// that call is still the innermost pending one resumes right after the call.
pub proof fn law_call_return(
    prog: Seq<InstrView>,
    s: MachineState,
    name: Seq<char>,
    later: MachineState,
)
    requires
        prog.len() <= usize::MAX,
        s.pc < prog.len(),
        prog[s.pc as int] == InstrView::Call(name),
        first_def(prog, name) is Some,
        later.pc < prog.len(),
        prog[later.pc as int] == InstrView::Return,
        later.calls == s.calls.push(s.pc),
    ensures
        step_spec(prog, s) is Ok,
        next(prog, s).pc == first_def(prog, name)->Some_0,
        next(prog, s).calls == s.calls.push(s.pc),
        step_spec(prog, later) is Ok,
        next(prog, later).pc == s.pc + 1,
        next(prog, later).calls == s.calls,
{
    lemma_first_def(prog, name);
    assert(later.calls.drop_last() =~= s.calls);
}

/// A program with no `Exit` never halts successfully: no step of it yields `Halt`,
/// and running past its last instruction is `MissingHalt`.
pub proof fn law_missing_halt(prog: Seq<InstrView>, s: MachineState)
    requires
        forall|i: int| 0 <= i < prog.len() ==> prog[i] != InstrView::Exit,
    ensures
        step_spec(prog, s) is Ok ==> step_spec(prog, s)->Ok_0.1 != Action::Halt,
        s.pc >= prog.len() ==> step_spec(prog, s) == Err::<(MachineState, Action), RuntimeFault>(
            RuntimeFault::MissingHalt,
        ),
{
    if s.pc < prog.len() {
        assert(prog[s.pc as int] != InstrView::Exit);
    }
}

/// A jump or call to a name defined more than once goes to its earliest definition.
pub proof fn law_earliest_label(prog: Seq<InstrView>, s: MachineState, name: Seq<char>, k: int)
    requires
        prog.len() <= usize::MAX,
        s.pc < prog.len(),
        prog[s.pc as int] == InstrView::Jump(name) || prog[s.pc as int] == InstrView::Call(name),
        0 <= k < prog.len(),
        prog[k] == InstrView::Label(name),
        forall|j: int| 0 <= j < k ==> prog[j] != InstrView::Label(name),
    ensures
        step_spec(prog, s) is Ok,
        next(prog, s).pc == k,
{
    lemma_first_def(prog, name);
}

/// An instruction that takes a value off an empty stack fails with `StackUnderflow`.
pub proof fn law_empty_pop(prog: Seq<InstrView>, s: MachineState)
    requires
        s.pc < prog.len(),
        s.stack.len() == 0,
        pops_stack(prog[s.pc as int]),
    ensures
        step_spec(prog, s) == Err::<(MachineState, Action), RuntimeFault>(
            RuntimeFault::StackUnderflow,
        ),
{
}

/// Running `Push(n); NumOut; Exit` from the start writes `n` and then halts
/// successfully, with an empty stack.
pub proof fn law_push_write_exit(n: i64)
    ensures
        ({
            let prog = seq![InstrView::Push(n), InstrView::NumOut, InstrView::Exit];
            let s0 = initial_state();
            let s1 = next(prog, s0);
            let s2 = next(prog, s1);
            &&& step_spec(prog, s0) is Ok && step_spec(prog, s0)->Ok_0.1 == Action::Continue
            &&& step_spec(prog, s1) is Ok && step_spec(prog, s1)->Ok_0.1 == Action::WriteNumber(n)
            &&& step_spec(prog, s2) is Ok && step_spec(prog, s2)->Ok_0.1 == Action::Halt
            &&& s2.stack.len() == 0
        }),
{
    let prog = seq![InstrView::Push(n), InstrView::NumOut, InstrView::Exit];
    let s1 = next(prog, initial_state());
    assert(s1.pc == 1 && s1.stack == seq![n]);
    let s2 = next(prog, s1);
    assert(s2.pc == 2);
}

} // verus!

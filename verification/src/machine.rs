//! The mathematical model of the virtual machine: its state, and what each
//! instruction does to it.
use vstd::prelude::*;
use crate::instruction::{CommandKind, ImpKind, InstructionView, ParamView};
use crate::text::{decimal_text, line_end, parse_number, trimmed};

verus! {

/// The state of a machine.
pub struct Machine {
    /// The program, labels resolved.
    pub program: Seq<InstructionView>,
    /// The operand stack, its top last.
    pub stack: Seq<i32>,
    /// The positions to return to, the latest last.
    pub call_stack: Seq<usize>,
    pub heap: Seq<i32>,
    /// The position of the next instruction.
    pub ip: usize,
    /// Whether `Exit` has been executed.
    pub done: bool,
    /// Whether the output commands emit nothing.
    pub suppress_output: bool,
    /// All the input that the machine was given.
    pub input: Seq<char>,
    /// How much of the input has been read.
    pub input_pos: usize,
    /// All the text emitted so far.
    pub output: Seq<char>,
    /// How many instructions have been executed, as far as the counter reaches.
    pub executed: u64,
}

/// Why an instruction, or a run, failed.
pub enum Fault {
    /// The command does not belong to the family, or its operand is missing,
    /// of the wrong kind, or a label that no `Mark` defines.
    ParseLogic(InstructionView),
    /// The operand stack or the call stack holds too few values.
    StackUnderflow(InstructionView),
    /// A number, and the closed interval it should have been in.
    NumberOutOfBounds(InstructionView, i32, i32, i32),
    /// The run ended without `Exit`; the instruction before the pointer, if any.
    NoTermination(Option<InstructionView>),
    /// No input was left, or the line read is not a number.
    Stdin(InstructionView),
    /// The divisor was zero.
    DivisionByZero(InstructionView),
}

/// A state, and the fault that the step to it raised, if any.
pub struct Outcome {
    pub state: Machine,
    pub fault: Option<Fault>,
}

pub open spec fn done_ok(m: Machine) -> Outcome {
    Outcome { state: m, fault: None }
}

pub open spec fn failed(m: Machine, fault: Fault) -> Outcome {
    Outcome { state: m, fault: Some(fault) }
}

/// The largest index into a collection of `len` items, as far as `i32` reaches;
/// `-1` for an empty one.
pub open spec fn index_bound(len: int) -> i32 {
    if len > i32::MAX {
        i32::MAX
    } else {
        (len - 1) as i32
    }
}

/// `x` brought into the range of `i32` by adding or subtracting 2^32.
pub open spec fn wrap(x: int) -> i32 {
    let r = x % 0x1_0000_0000;
    if r > i32::MAX {
        (r - 0x1_0000_0000) as i32
    } else {
        r as i32
    }
}

/// The quotient of `l` by `r`, rounded towards zero.
pub open spec fn trunc_div(l: int, r: int) -> int
    recommends
        r != 0,
{
    if l >= 0 {
        if r > 0 { l / r } else { -(l / (-r)) }
    } else {
        if r > 0 { -((-l) / r) } else { (-l) / (-r) }
    }
}

/// The remainder that `trunc_div` leaves; it has the sign of `l`.
pub open spec fn trunc_rem(l: int, r: int) -> int
    recommends
        r != 0,
{
    l - r * trunc_div(l, r)
}

/// Whether `code` is a Unicode scalar value.
pub open spec fn is_scalar(code: int) -> bool {
    0 <= code <= 0xD7FF || 0xE000 <= code <= 0x10FFFF
}

/// The instruction just before the pointer.
pub open spec fn last_fetched(m: Machine) -> Option<InstructionView> {
    if 0 < m.ip <= m.program.len() {
        Some(m.program[m.ip - 1])
    } else {
        None
    }
}

/// The non-zero cells of a heap, by address.
pub open spec fn heap_dump_spec(heap: Seq<i32>) -> Map<usize, i32> {
    Map::new(|addr: usize| addr < heap.len() && heap[addr as int] != 0, |addr: usize| heap[addr as int])
}

/// The non-zero cells of a heap below the address `upto`.
pub open spec fn heap_dump_upto(heap: Seq<i32>, upto: usize) -> Map<usize, i32> {
    Map::new(
        |addr: usize| addr < upto && addr < heap.len() && heap[addr as int] != 0,
        |addr: usize| heap[addr as int],
    )
}

/// The stack family.
pub open spec fn stack_spec(m: Machine, i: InstructionView) -> Outcome {
    let n = m.stack.len() as int;
    match i.cmd {
        CommandKind::PushStack => match i.param {
            Some(ParamView::Number(v)) => done_ok(Machine { stack: m.stack.push(v), ..m }),
            _ => failed(m, Fault::ParseLogic(i)),
        },
        CommandKind::DuplicateStack => if n >= 1 {
            done_ok(Machine { stack: m.stack.push(m.stack[n - 1]), ..m })
        } else {
            failed(m, Fault::StackUnderflow(i))
        },
        CommandKind::CopyNthStack => match i.param {
            Some(ParamView::Number(at)) => if 0 <= at < n {
                done_ok(Machine { stack: m.stack.push(m.stack[at as int]), ..m })
            } else {
                failed(m, Fault::NumberOutOfBounds(i, at, 0, index_bound(n)))
            },
            _ => failed(m, Fault::ParseLogic(i)),
        },
        CommandKind::SwapStack => if n >= 2 {
            done_ok(Machine { stack: m.stack.take(n - 2).push(m.stack[n - 1]).push(m.stack[n - 2]), ..m })
        } else {
            failed(m, Fault::StackUnderflow(i))
        },
        CommandKind::DiscardStack => if n >= 1 {
            done_ok(Machine { stack: m.stack.take(n - 1), ..m })
        } else {
            failed(m, Fault::StackUnderflow(i))
        },
        CommandKind::SlideNStack => if n >= 1 {
            match i.param {
                Some(ParamView::Number(count)) => if count < 0 {
                    failed(m, Fault::NumberOutOfBounds(i, count, 0, i32::MAX))
                } else {
                    let kept = if count >= n - 1 { 0 } else { n - 1 - count };
                    done_ok(Machine { stack: m.stack.take(kept).push(m.stack[n - 1]), ..m })
                },
                _ => failed(m, Fault::ParseLogic(i)),
            }
        } else {
            failed(m, Fault::StackUnderflow(i))
        },
        _ => failed(m, Fault::ParseLogic(i)),
    }
}

/// What an arithmetic command computes from the left and the right operand;
/// `None` for a division by zero.
pub open spec fn arithmetic_result(cmd: CommandKind, l: i32, r: i32) -> Option<i32> {
    match cmd {
        CommandKind::Add => Some(wrap(l + r)),
        CommandKind::Subtract => Some(wrap(l - r)),
        CommandKind::Multiply => Some(wrap(l * r)),
        CommandKind::IntegerDivision => if r == 0 { None } else { Some(wrap(trunc_div(l as int, r as int))) },
        _ => if r == 0 { None } else { Some(wrap(trunc_rem(l as int, r as int))) },
    }
}

pub open spec fn is_arithmetic(cmd: CommandKind) -> bool {
    cmd == CommandKind::Add || cmd == CommandKind::Subtract || cmd == CommandKind::Multiply
        || cmd == CommandKind::IntegerDivision || cmd == CommandKind::Modulo
}

/// The arithmetic family: the right operand is on top, the left one below it.
pub open spec fn arithmetic_spec(m: Machine, i: InstructionView) -> Outcome {
    let n = m.stack.len() as int;
    if !is_arithmetic(i.cmd) {
        failed(m, Fault::ParseLogic(i))
    } else if n < 2 {
        failed(m, Fault::StackUnderflow(i))
    } else {
        match arithmetic_result(i.cmd, m.stack[n - 2], m.stack[n - 1]) {
            Some(v) => done_ok(Machine { stack: m.stack.take(n - 2).push(v), ..m }),
            None => failed(m, Fault::DivisionByZero(i)),
        }
    }
}

/// The heap family.
pub open spec fn heap_spec(m: Machine, i: InstructionView) -> Outcome {
    let n = m.stack.len() as int;
    match i.cmd {
        CommandKind::StoreHeap => if n < 2 {
            failed(m, Fault::StackUnderflow(i))
        } else {
            let addr = m.stack[n - 2];
            if 0 <= addr < m.heap.len() {
                done_ok(Machine { stack: m.stack.take(n - 2), heap: m.heap.update(addr as int, m.stack[n - 1]), ..m })
            } else {
                failed(m, Fault::NumberOutOfBounds(i, addr, 0, index_bound(m.heap.len() as int)))
            }
        },
        CommandKind::RetrieveHeap => if n < 1 {
            failed(m, Fault::StackUnderflow(i))
        } else {
            let addr = m.stack[n - 1];
            if 0 <= addr < m.heap.len() {
                done_ok(Machine { stack: m.stack.take(n - 1).push(m.heap[addr as int]), ..m })
            } else {
                failed(m, Fault::NumberOutOfBounds(i, addr, 0, index_bound(m.heap.len() as int)))
            }
        },
        _ => failed(m, Fault::ParseLogic(i)),
    }
}

/// The instruction pointer set to the `Mark` of the operand: the step that
/// follows every instruction then lands just behind that `Mark`.
pub open spec fn jump_spec(m: Machine, i: InstructionView) -> Outcome {
    match i.param {
        Some(ParamView::Label(_, Some(target))) => done_ok(Machine { ip: target, ..m }),
        _ => failed(m, Fault::ParseLogic(i)),
    }
}

/// A jump that is taken when the value on top of the stack, which is popped,
/// meets the command's condition. The fault of a jump that cannot be taken
/// is raised on the state before the pop.
pub open spec fn branch_spec(m: Machine, i: InstructionView, when_zero: bool) -> Outcome {
    let n = m.stack.len() as int;
    if n < 1 {
        failed(m, Fault::StackUnderflow(i))
    } else {
        let popped = Machine { stack: m.stack.take(n - 1), ..m };
        let taken = if when_zero { m.stack[n - 1] == 0 } else { m.stack[n - 1] < 0 };
        if !taken {
            done_ok(popped)
        } else if jump_spec(popped, i).fault is Some {
            failed(m, Fault::ParseLogic(i))
        } else {
            jump_spec(popped, i)
        }
    }
}

/// The flow family.
pub open spec fn flow_spec(m: Machine, i: InstructionView) -> Outcome {
    match i.cmd {
        CommandKind::Mark => done_ok(m),
        CommandKind::Call => if jump_spec(Machine { call_stack: m.call_stack.push(m.ip), ..m }, i).fault is Some {
            failed(m, Fault::ParseLogic(i))
        } else {
            jump_spec(Machine { call_stack: m.call_stack.push(m.ip), ..m }, i)
        },
        CommandKind::Jump => jump_spec(m, i),
        CommandKind::JumpZero => branch_spec(m, i, true),
        CommandKind::JumpNegative => branch_spec(m, i, false),
        CommandKind::Return => if m.call_stack.len() >= 1 {
            done_ok(
                Machine {
                    call_stack: m.call_stack.take(m.call_stack.len() - 1),
                    ip: m.call_stack[m.call_stack.len() - 1],
                    ..m
                },
            )
        } else {
            failed(m, Fault::StackUnderflow(i))
        },
        CommandKind::Exit => done_ok(Machine { done: true, ..m }),
        _ => failed(m, Fault::ParseLogic(i)),
    }
}

/// The input and output family.
pub open spec fn io_spec(m: Machine, i: InstructionView) -> Outcome {
    let n = m.stack.len() as int;
    let top = m.stack[n - 1];
    let popped = Machine { stack: m.stack.take(n - 1), ..m };
    match i.cmd {
        CommandKind::OutCharacter => if n < 1 {
            failed(m, Fault::StackUnderflow(i))
        } else if top < 0 {
            failed(m, Fault::NumberOutOfBounds(i, top, 0, i32::MAX))
        } else if m.suppress_output {
            done_ok(popped)
        } else if is_scalar(top as int) {
            done_ok(Machine { output: m.output.push(top as u32 as char), ..popped })
        } else {
            failed(m, Fault::NumberOutOfBounds(i, top, 0, 0x10FFFF))
        },
        CommandKind::OutInteger => if n < 1 {
            failed(m, Fault::StackUnderflow(i))
        } else if m.suppress_output {
            done_ok(popped)
        } else {
            done_ok(Machine { output: m.output + decimal_text(top), ..popped })
        },
        CommandKind::ReadCharacter => if n < 1 {
            failed(m, Fault::StackUnderflow(i))
        } else if !(0 <= top < m.heap.len()) {
            failed(m, Fault::NumberOutOfBounds(i, top, 0, index_bound(m.heap.len() as int)))
        } else if m.input_pos >= m.input.len() {
            failed(m, Fault::Stdin(i))
        } else {
            done_ok(
                Machine {
                    heap: m.heap.update(top as int, m.input[m.input_pos as int] as u32 as i32),
                    input_pos: (m.input_pos + 1) as usize,
                    ..popped
                },
            )
        },
        CommandKind::ReadInteger => if n < 1 {
            failed(m, Fault::StackUnderflow(i))
        } else if !(0 <= top < m.heap.len()) {
            failed(m, Fault::NumberOutOfBounds(i, top, 0, index_bound(m.heap.len() as int)))
        } else {
            let end = line_end(m.input, m.input_pos as int);
            match parse_number(trimmed(m.input, m.input_pos as int, end)) {
                Some(v) => done_ok(Machine { heap: m.heap.update(top as int, v), input_pos: end as usize, ..popped }),
                None => failed(m, Fault::Stdin(i)),
            }
        },
        _ => failed(m, Fault::ParseLogic(i)),
    }
}

/// The family of `i` applied to `m`. A fault leaves the state as it was.
pub open spec fn dispatch_spec(m: Machine, i: InstructionView) -> Outcome {
    match i.imp {
        ImpKind::Stack => stack_spec(m, i),
        ImpKind::Arithmetic => arithmetic_spec(m, i),
        ImpKind::Heap => heap_spec(m, i),
        ImpKind::Flow => flow_spec(m, i),
        ImpKind::IO => io_spec(m, i),
    }
}

/// The counter after one more instruction; it stops at its largest value.
pub open spec fn counted(executed: u64) -> u64 {
    if executed < u64::MAX {
        (executed + 1) as u64
    } else {
        executed
    }
}

/// One step: the family of `i` applied to `m`, then, fault or not, the
/// pointer moved on by one and the instruction counted.
pub open spec fn exec_spec(m: Machine, i: InstructionView) -> Outcome {
    let o = dispatch_spec(m, i);
    Outcome {
        state: Machine { ip: (o.state.ip + 1) as usize, executed: counted(m.executed), ..o.state },
        fault: o.fault,
    }
}

/// Whether a run goes on from `m`: `Exit` has not been executed, the pointer
/// is inside the program, and the counter has not reached its end.
pub open spec fn running(m: Machine) -> bool {
    !m.done && m.ip < m.program.len() && m.executed < u64::MAX
}

/// The run from `m`: steps as long as the machine is running and no step
/// faults; at the end `NoTermination` unless `Exit` was executed.
pub open spec fn run_spec(m: Machine) -> Outcome
    decreases u64::MAX - m.executed,
{
    if running(m) {
        let o = exec_spec(m, m.program[m.ip as int]);
        if o.fault is Some {
            o
        } else {
            run_spec(o.state)
        }
    } else if m.done {
        done_ok(m)
    } else {
        failed(m, Fault::NoTermination(last_fetched(m)))
    }
}

/// What holds of every state of a machine built from a program: the pointer
/// is at most the program's length, and the labels' targets and the saved
/// positions are inside the program.
pub open spec fn well_formed(m: Machine) -> bool {
    &&& m.ip <= m.program.len()
    &&& m.input_pos <= m.input.len()
    &&& forall|k: int| 0 <= k < m.program.len() ==> (#[trigger] m.program[k]).target_below(m.program.len() as int)
    &&& forall|k: int| 0 <= k < m.call_stack.len() ==> #[trigger] m.call_stack[k] < m.program.len()
}

/// A family's handler keeps the state well formed and the pointer inside the
/// program, and never touches the program.
pub proof fn lemma_dispatch_well_formed(m: Machine, i: InstructionView)
    requires
        well_formed(m),
        m.ip < m.program.len(),
        i.target_below(m.program.len() as int),
    ensures
        well_formed(dispatch_spec(m, i).state),
        dispatch_spec(m, i).state.ip < m.program.len(),
        dispatch_spec(m, i).state.program == m.program,
        dispatch_spec(m, i).state.executed == m.executed,
        dispatch_spec(m, i).state.suppress_output == m.suppress_output,
        dispatch_spec(m, i).fault is Some ==> dispatch_spec(m, i).state == m,
{
    crate::text::lemma_line_end_bounds(m.input, m.input_pos as int);
}


/// A handler that faults leaves the state as it was.
pub proof fn lemma_fault_leaves_state(m: Machine, i: InstructionView)
    ensures
        dispatch_spec(m, i).fault is Some ==> dispatch_spec(m, i).state == m,
        i.cmd != CommandKind::Exit ==> dispatch_spec(m, i).state.done == m.done,
        dispatch_spec(m, i).state.program == m.program,
        dispatch_spec(m, i).state.heap.len() == m.heap.len(),
        dispatch_spec(m, i).state.suppress_output == m.suppress_output,
{
}

/// One step keeps a well-formed state well formed.
pub proof fn lemma_exec_well_formed(m: Machine)
    requires
        well_formed(m),
        running(m),
    ensures
        well_formed(exec_spec(m, m.program[m.ip as int]).state),
        exec_spec(m, m.program[m.ip as int]).state.program == m.program,
        exec_spec(m, m.program[m.ip as int]).state.executed == m.executed + 1,
{
    lemma_dispatch_well_formed(m, m.program[m.ip as int]);
}

/// A run succeeds exactly if it has executed `Exit`: whatever it raises,
/// it raises it with `Exit` not executed. It keeps the program and the
/// size of the heap, so that a reset brings back the state it started from.
pub proof fn lemma_run_succeeds_iff_exit(m: Machine)
    requires
        well_formed(m),
    ensures
        run_spec(m).fault is None <==> run_spec(m).state.done,
        run_spec(m).state.program == m.program,
        run_spec(m).state.heap.len() == m.heap.len(),
        run_spec(m).state.suppress_output == m.suppress_output,
        well_formed(run_spec(m).state),
    decreases u64::MAX - m.executed,
{
    if running(m) {
        let i = m.program[m.ip as int];
        lemma_fault_leaves_state(m, i);
        lemma_exec_well_formed(m);
        if exec_spec(m, i).fault is None {
            lemma_run_succeeds_iff_exit(exec_spec(m, i).state);
        }
    }
}

/// From a state whose next instruction is `Exit`, the run ends at once,
/// with success.
pub proof fn lemma_exit_ends_run(m: Machine)
    requires
        running(m),
        m.program[m.ip as int].imp == ImpKind::Flow,
        m.program[m.ip as int].cmd == CommandKind::Exit,
    ensures
        run_spec(m).fault is None,
        run_spec(m).state == (Machine { done: true, ip: (m.ip + 1) as usize, executed: (m.executed + 1) as u64, ..m }),
{
    let o = exec_spec(m, m.program[m.ip as int]);
    assert(o.fault is None);
    assert(!running(o.state));
    assert(run_spec(o.state) == done_ok(o.state));
}

/// A run of a program that holds no `Exit` never succeeds.
pub proof fn lemma_run_without_exit_fails(m: Machine)
    requires
        !m.done,
        forall|k: int| 0 <= k < m.program.len() ==> (#[trigger] m.program[k]).cmd != CommandKind::Exit,
    ensures
        run_spec(m).fault is Some,
        !run_spec(m).state.done,
    decreases u64::MAX - m.executed,
{
    if running(m) {
        let i = m.program[m.ip as int];
        lemma_fault_leaves_state(m, i);
        if exec_spec(m, i).fault is None {
            lemma_run_without_exit_fails(exec_spec(m, i).state);
        }
    }
}

/// A run that no instruction faults in and that executes no `Exit` ends
/// with `NoTermination`: the fault of a run is that of an instruction, or
/// `NoTermination` with the pointer off the program or the counter at its end.
pub proof fn lemma_no_termination_when_exhausted(m: Machine)
    ensures
        run_spec(m).fault matches Some(Fault::NoTermination(_)) ==> !run_spec(m).state.done && (run_spec(m).state.ip
            >= m.program.len() || run_spec(m).state.executed == u64::MAX),
        !m.done && (m.ip >= m.program.len() || m.executed == u64::MAX) ==> run_spec(m) == failed(
            m,
            Fault::NoTermination(last_fetched(m)),
        ),
    decreases u64::MAX - m.executed,
{
    if running(m) {
        let i = m.program[m.ip as int];
        lemma_fault_leaves_state(m, i);
        if exec_spec(m, i).fault is None {
            lemma_no_termination_when_exhausted(exec_spec(m, i).state);
        }
    }
}

/// `Push` of a number and then `Discard` leave the stack as it was.
pub proof fn lemma_push_then_discard(m: Machine, number: i32)
    ensures
        ({
            let push = InstructionView {
                imp: ImpKind::Stack,
                cmd: CommandKind::PushStack,
                param: Some(ParamView::Number(number)),
            };
            let discard = InstructionView { imp: ImpKind::Stack, cmd: CommandKind::DiscardStack, param: None };
            let pushed = exec_spec(m, push);
            let discarded = exec_spec(pushed.state, discard);
            &&& pushed.fault is None
            &&& pushed.state.stack == m.stack.push(number)
            &&& discarded.fault is None
            &&& discarded.state.stack == m.stack
            &&& discarded.state.heap == m.heap
            &&& discarded.state.call_stack == m.call_stack
        }),
{
    assert(m.stack.push(number).take(m.stack.len() as int) =~= m.stack);
}

/// `CopyNth` of the position just past the top of the stack raises
/// `NumberOutOfBounds`, with the stack's positions as the bounds, and
/// pushes nothing.
pub proof fn lemma_copy_past_top(m: Machine, i: InstructionView)
    requires
        i.imp == ImpKind::Stack,
        i.cmd == CommandKind::CopyNthStack,
        i.param == Some(ParamView::Number(m.stack.len() as i32)),
        m.stack.len() <= i32::MAX,
    ensures
        exec_spec(m, i).fault == Some(
            Fault::NumberOutOfBounds(i, m.stack.len() as i32, 0, (m.stack.len() - 1) as i32),
        ),
        exec_spec(m, i).state.stack == m.stack,
{
}


/// Whether `i` is the instruction that ends a run.
pub open spec fn is_exit(i: InstructionView) -> bool {
    i.imp == ImpKind::Flow && i.cmd == CommandKind::Exit
}

/// The label of the instruction at `k`, if resolved, points to a `Mark`.
pub open spec fn lands_on_mark(program: Seq<InstructionView>, k: int) -> bool {
    program[k].target() matches Some(t) ==> program[t as int].cmd == CommandKind::Mark
}

/// What holds of every state that a machine reaches by itself when its
/// program ends with `Exit`: every resolved label points to a `Mark`,
/// every saved position to a `Call`, and the pointer has left the program
/// only if `Exit` was executed.
pub open spec fn anchored(m: Machine) -> bool {
    &&& well_formed(m)
    &&& m.program.len() > 0
    &&& is_exit(m.program[m.program.len() - 1])
    &&& forall|k: int| 0 <= k < m.program.len() ==> #[trigger] lands_on_mark(m.program, k)
    &&& forall|k: int|
        0 <= k < m.call_stack.len() ==> m.program[(#[trigger] m.call_stack[k]) as int].cmd == CommandKind::Call
    &&& m.ip == m.program.len() ==> m.done
}

/// A step of the machine's own program that does not fault keeps the state
/// anchored.
pub proof fn lemma_exec_anchored(m: Machine)
    requires
        anchored(m),
        running(m),
        exec_spec(m, m.program[m.ip as int]).fault is None,
    ensures
        anchored(exec_spec(m, m.program[m.ip as int]).state),
{
    let i = m.program[m.ip as int];
    lemma_dispatch_well_formed(m, i);
    let d = dispatch_spec(m, i).state;
    assert(lands_on_mark(m.program, m.ip as int));
    assert(d.ip == m.ip || i.target() == Some(d.ip) || (m.call_stack.len() > 0 && d.ip == m.call_stack[m.call_stack.len()
        - 1]));
    if d.ip != m.ip {
        if i.target() != Some(d.ip) {
            assert(m.program[m.call_stack[m.call_stack.len() - 1] as int].cmd == CommandKind::Call);
        }
        assert(d.ip + 1 < m.program.len());
    } else if m.ip + 1 == m.program.len() {
        assert(is_exit(i));
        assert(d.done);
    }
    assert forall|k: int| 0 <= k < d.call_stack.len() implies m.program[(#[trigger] d.call_stack[k]) as int].cmd
        == CommandKind::Call by {
        if k < m.call_stack.len() {
            assert(d.call_stack[k] == m.call_stack[k]);
        }
    }
}

/// When the last instruction of the program is `Exit`, a run raises
/// `NoTermination` only by the end of the instruction counter: the pointer
/// never leaves the program past an `Exit` that was not executed.
pub proof fn lemma_run_ends_with_exit(m: Machine)
    requires
        anchored(m),
    ensures
        run_spec(m).fault matches Some(Fault::NoTermination(_)) ==> run_spec(m).state.executed == u64::MAX,
    decreases u64::MAX - m.executed,
{
    if running(m) {
        let i = m.program[m.ip as int];
        lemma_fault_leaves_state(m, i);
        if exec_spec(m, i).fault is None {
            lemma_exec_anchored(m);
            lemma_run_ends_with_exit(exec_spec(m, i).state);
        }
    }
}


} // verus!

//! The virtual machine: a program, a stack, a call stack, a heap, and the
//! loop that executes one instruction after the other.
use std::collections::BTreeMap;
use vstd::prelude::*;
use crate::dump::heap_dump;
use crate::instruction::{views, CommandKind, ImpKind, Instruction, InstructionView, ParamKind, ParamView};
use crate::labels::{lemma_label_position, lemma_resolved_targets, resolve_labels, resolved};
use crate::machine::{
    anchored, arithmetic_result, arithmetic_spec, branch_spec, dispatch_spec, exec_spec, flow_spec, heap_dump_spec,
    heap_spec, index_bound, io_spec, is_arithmetic, is_exit, jump_spec, lands_on_mark, lemma_dispatch_well_formed,
    lemma_run_ends_with_exit, run_spec, stack_spec, trunc_div, trunc_rem, well_formed, wrap, Fault, Machine,
};
use crate::parser::{parse, program_of, ParseErrorKind, SourceType};
use crate::text::{find_line_end, parse_line, push_decimal};

verus! {

/// The heap size of the default configurations.
pub const DEFAULT_HEAP_SIZE: usize = 524288;

/// Configuration options for the interpreter.
pub struct InterpreterConfig<'a> {
    /// The name of the source the program comes from.
    pub file_name: &'a str,
    /// The number of heap addresses; each holds one `i32`.
    pub heap_size: usize,
    /// Decode only: the program is listed, not executed.
    pub ir: bool,
    /// Trace the machine's state before each instruction.
    pub debug: bool,
    /// Trace the non-zero heap cells before each instruction.
    pub debug_heap: bool,
    /// The output commands emit nothing.
    pub suppress_output: bool,
}

impl<'a> InterpreterConfig<'a> {
    /// A configuration with the given options.
    pub fn new(
        file_name: &'a str,
        heap_size: usize,
        ir: bool,
        debug: bool,
        debug_heap: bool,
        suppress_output: bool,
    ) -> (config: InterpreterConfig<'a>)
        ensures
            config == (InterpreterConfig { file_name, heap_size, ir, debug, debug_heap, suppress_output }),
    {
        InterpreterConfig { file_name, heap_size, ir, debug, debug_heap, suppress_output }
    }

    /// The default configuration, with the default heap size.
    pub fn default_heap(file_name: &'a str) -> (config: InterpreterConfig<'a>)
        ensures
            config == (InterpreterConfig {
                file_name,
                heap_size: DEFAULT_HEAP_SIZE,
                ir: false,
                debug: false,
                debug_heap: false,
                suppress_output: false,
            }),
    {
        InterpreterConfig {
            file_name,
            heap_size: DEFAULT_HEAP_SIZE,
            ir: false,
            debug: false,
            debug_heap: false,
            suppress_output: false,
        }
    }

    /// The default configuration without a heap.
    pub fn default_no_heap(file_name: &'a str) -> (config: InterpreterConfig<'a>)
        ensures
            config == (InterpreterConfig {
                file_name,
                heap_size: 0,
                ir: false,
                debug: false,
                debug_heap: false,
                suppress_output: false,
            }),
    {
        InterpreterConfig { file_name, heap_size: 0, ir: false, debug: false, debug_heap: false, suppress_output: false }
    }

    /// The default configuration with the default heap size and no output.
    pub fn default_heap_suppressed(file_name: &'a str) -> (config: InterpreterConfig<'a>)
        ensures
            config == (InterpreterConfig {
                file_name,
                heap_size: DEFAULT_HEAP_SIZE,
                ir: false,
                debug: false,
                debug_heap: false,
                suppress_output: true,
            }),
    {
        InterpreterConfig {
            file_name,
            heap_size: DEFAULT_HEAP_SIZE,
            ir: false,
            debug: false,
            debug_heap: false,
            suppress_output: true,
        }
    }

    /// The default configuration without a heap and with no output.
    pub fn default_no_heap_suppressed(file_name: &'a str) -> (config: InterpreterConfig<'a>)
        ensures
            config == (InterpreterConfig {
                file_name,
                heap_size: 0,
                ir: false,
                debug: false,
                debug_heap: false,
                suppress_output: true,
            }),
    {
        InterpreterConfig { file_name, heap_size: 0, ir: false, debug: false, debug_heap: false, suppress_output: true }
    }

    /// The tracing configuration, with the default heap size.
    pub fn debug_heap(file_name: &'a str) -> (config: InterpreterConfig<'a>)
        ensures
            config == (InterpreterConfig {
                file_name,
                heap_size: DEFAULT_HEAP_SIZE,
                ir: false,
                debug: true,
                debug_heap: true,
                suppress_output: false,
            }),
    {
        InterpreterConfig {
            file_name,
            heap_size: DEFAULT_HEAP_SIZE,
            ir: false,
            debug: true,
            debug_heap: true,
            suppress_output: false,
        }
    }

    /// The tracing configuration without a heap.
    pub fn debug_no_heap(file_name: &'a str) -> (config: InterpreterConfig<'a>)
        ensures
            config == (InterpreterConfig {
                file_name,
                heap_size: 0,
                ir: false,
                debug: true,
                debug_heap: false,
                suppress_output: false,
            }),
    {
        InterpreterConfig { file_name, heap_size: 0, ir: false, debug: true, debug_heap: false, suppress_output: false }
    }

    /// The configuration that only decodes the program.
    pub fn ir(file_name: &'a str) -> (config: InterpreterConfig<'a>)
        ensures
            config == (InterpreterConfig {
                file_name,
                heap_size: 0,
                ir: true,
                debug: false,
                debug_heap: false,
                suppress_output: false,
            }),
    {
        InterpreterConfig { file_name, heap_size: 0, ir: true, debug: false, debug_heap: false, suppress_output: false }
    }
}

/// Why an instruction, or a run, failed, with the instruction concerned.
#[derive(Debug)]
pub enum InterpretErrorKind {
    /// The command does not belong to the family, or its operand is missing,
    /// of the wrong kind, or a label that no `Mark` defines.
    ParseLogicError(Instruction),
    /// The operand stack or the call stack holds too few values.
    StackUnderflow(Instruction),
    /// A number, then the low and the high end of the closed interval it
    /// should have been in.
    NumberOutOfBoundsError(Instruction, i32, i32, i32),
    /// The run ended without `Exit`; the instruction before the pointer, if any.
    NoTermination(Option<Instruction>),
    /// No input was left, or the line read is not a number.
    StdinError(Instruction),
    /// The divisor was zero.
    DivisionByZero(Instruction),
}

impl View for InterpretErrorKind {
    type V = Fault;

    open spec fn view(&self) -> Fault {
        match *self {
            InterpretErrorKind::ParseLogicError(i) => Fault::ParseLogic(i@),
            InterpretErrorKind::StackUnderflow(i) => Fault::StackUnderflow(i@),
            InterpretErrorKind::NumberOutOfBoundsError(i, n, low, high) => Fault::NumberOutOfBounds(i@, n, low, high),
            InterpretErrorKind::NoTermination(last) => Fault::NoTermination(
                match last {
                    Some(i) => Some(i@),
                    None => None,
                },
            ),
            InterpretErrorKind::StdinError(i) => Fault::Stdin(i@),
            InterpretErrorKind::DivisionByZero(i) => Fault::DivisionByZero(i@),
        }
    }
}

/// The sentence that describes a fault of each kind.
pub open spec fn summary(fault: Fault) -> Seq<char> {
    match fault {
        Fault::ParseLogic(_) => "the decoder delivered an inconsistent instruction"@,
        Fault::StackUnderflow(_) => "stack is empty"@,
        Fault::NumberOutOfBounds(_, _, _, _) => "number is out of bounds"@,
        Fault::NoTermination(_) => "no termination instruction after last executed instruction"@,
        Fault::Stdin(_) => "stdin error"@,
        Fault::DivisionByZero(_) => "division by zero"@,
    }
}

/// A fault and the sentence that describes it.
#[derive(Debug)]
pub struct InterpretError {
    pub msg: String,
    pub kind: InterpretErrorKind,
}

impl View for InterpretError {
    type V = Fault;

    open spec fn view(&self) -> Fault {
        self.kind@
    }
}

/// `r` reports `fault`: `Ok` for none, else an error of that kind with its
/// sentence.
pub open spec fn reports<T>(r: Result<T, InterpretError>, fault: Option<Fault>) -> bool {
    match r {
        Ok(_) => fault is None,
        Err(e) => fault == Some(e@) && e.msg@ == summary(e@),
    }
}

impl InterpretErrorKind {
    /// The sentence that describes this fault.
    pub fn describe(&self) -> (text: &'static str)
        ensures
            text@ == summary(self@),
    {
        match self {
            InterpretErrorKind::ParseLogicError(_) => "the decoder delivered an inconsistent instruction",
            InterpretErrorKind::StackUnderflow(_) => "stack is empty",
            InterpretErrorKind::NumberOutOfBoundsError(_, _, _, _) => "number is out of bounds",
            InterpretErrorKind::NoTermination(_) => "no termination instruction after last executed instruction",
            InterpretErrorKind::StdinError(_) => "stdin error",
            InterpretErrorKind::DivisionByZero(_) => "division by zero",
        }
    }

    /// The error that carries this fault and its sentence.
    pub fn throw<T>(self) -> (r: Result<T, InterpretError>)
        ensures
            r matches Err(e) && e.kind == self && e.msg@ == summary(self@),
            reports(r, Some(self@)),
    {
        let msg = self.describe().to_owned();
        Err(InterpretError { msg, kind: self })
    }
}

/// `char::from_u32` of std: a character comes back exactly for the Unicode
/// scalar values, and it is the character with the code given.
pub assume_specification[ char::from_u32 ](code: u32) -> (c: Option<char>)
    ensures
        c == (if code <= 0xD7FF || (0xE000 <= code && code <= 0x10FFFF) {
            Some(code as char)
        } else {
            None::<char>
        }),
;

/// The largest index into a collection of `len` items, as far as `i32` reaches.
fn high_index(len: usize) -> (high: i32)
    ensures
        high == index_bound(len as int),
{
    if len > 2147483647 {
        i32::MAX
    } else {
        (len as i32) - 1
    }
}

/// Quotient and remainder of a division that rounds towards zero, both
/// wrapped into `i32`.
fn divide(l: i32, r: i32) -> (qr: (i32, i32))
    requires
        r != 0,
    ensures
        qr.0 == wrap(trunc_div(l as int, r as int)),
        qr.1 == wrap(trunc_rem(l as int, r as int)),
{
    let la: u64 = if l < 0 { (-(l as i64)) as u64 } else { l as u64 };
    let ra: u64 = if r < 0 { (-(r as i64)) as u64 } else { r as u64 };
    let q: u64 = la / ra;
    let m: u64 = la % ra;
    proof {
        vstd::arithmetic::div_mod::lemma_fundamental_div_mod(la as int, ra as int);
        assert(0 <= q <= la) by (nonlinear_arith)
            requires
                q == la / ra,
                ra >= 1,
        ;
        assert((-(ra as int)) * (q as int) == -((ra as int) * (q as int))) by (nonlinear_arith);
        assert((ra as int) * (-(q as int)) == -((ra as int) * (q as int))) by (nonlinear_arith);
        assert((-(ra as int)) * (-(q as int)) == (ra as int) * (q as int)) by (nonlinear_arith);
    }
    let sq: i64 = if (l < 0) != (r < 0) { -(q as i64) } else { q as i64 };
    let sm: i64 = if l < 0 { -(m as i64) } else { m as i64 };
    assert(sq == trunc_div(l as int, r as int));
    assert(sm == trunc_rem(l as int, r as int));
    let quotient: i32 = if sq == 2147483648 { i32::MIN } else { sq as i32 };
    (quotient, sm as i32)
}

/// What an arithmetic command computes from the left and the right operand.
fn compute(cmd: CommandKind, l: i32, r: i32) -> (v: Option<i32>)
    requires
        is_arithmetic(cmd),
    ensures
        v == arithmetic_result(cmd, l, r),
{
    match cmd {
        CommandKind::Add => Some(l.wrapping_add(r)),
        CommandKind::Subtract => Some(l.wrapping_sub(r)),
        CommandKind::Multiply => Some(l.wrapping_mul(r)),
        CommandKind::IntegerDivision => if r == 0 { None } else { Some(divide(l, r).0) },
        _ => if r == 0 { None } else { Some(divide(l, r).1) },
    }
}

/// The root component of the virtual machine.
pub struct Interpreter<'a> {
    config: InterpreterConfig<'a>,
    stack: Vec<i32>,
    call_stack: Vec<usize>,
    heap: Vec<i32>,
    instruction_pointer: usize,
    instructions: Vec<Instruction>,
    done: bool,
    input: Vec<char>,
    input_pos: usize,
    output: Vec<char>,
    instruction_count: u64,
}

impl<'a> View for Interpreter<'a> {
    type V = Machine;

    closed spec fn view(&self) -> Machine {
        Machine {
            program: views(self.instructions@),
            stack: self.stack@,
            call_stack: self.call_stack@,
            heap: self.heap@,
            ip: self.instruction_pointer,
            done: self.done,
            suppress_output: self.config.suppress_output,
            input: self.input@,
            input_pos: self.input_pos,
            output: self.output@,
            executed: self.instruction_count,
        }
    }
}

impl<'a> Interpreter<'a> {
    /// The invariant of the machine's state.
    pub open spec fn wf(&self) -> bool {
        well_formed(self@)
    }

    /// The configuration this interpreter was made with.
    pub closed spec fn spec_config(&self) -> InterpreterConfig<'a> {
        self.config
    }

    /// The stack family: push, duplicate, copy, swap, discard and slide.
    fn stack(&mut self, instr: Instruction) -> (r: Result<(), InterpretError>)
        ensures
            final(self)@ =~= stack_spec(old(self)@, instr@).state,
            reports(r, stack_spec(old(self)@, instr@).fault),
            final(self).spec_config() == old(self).spec_config(),
    {
        let n: usize = self.stack.len();
        match instr.cmd {
            CommandKind::PushStack => {
                match &instr.param {
                    Some(ParamKind::Number(val)) => {
                        self.stack.push(*val);
                        Ok(())
                    },
                    _ => InterpretErrorKind::ParseLogicError(instr).throw(),
                }
            },
            CommandKind::DuplicateStack => {
                if n < 1 {
                    return InterpretErrorKind::StackUnderflow(instr).throw();
                }
                let val: i32 = self.stack[n - 1];
                self.stack.push(val);
                Ok(())
            },
            CommandKind::CopyNthStack => {
                match &instr.param {
                    Some(ParamKind::Number(at)) => {
                        let addr: i32 = *at;
                        if addr < 0 || addr as usize >= n {
                            let high: i32 = high_index(n);
                            return InterpretErrorKind::NumberOutOfBoundsError(instr, addr, 0, high).throw();
                        }
                        let val: i32 = self.stack[addr as usize];
                        self.stack.push(val);
                        Ok(())
                    },
                    _ => InterpretErrorKind::ParseLogicError(instr).throw(),
                }
            },
            CommandKind::SwapStack => {
                if n < 2 {
                    return InterpretErrorKind::StackUnderflow(instr).throw();
                }
                let val: i32 = self.stack[n - 1];
                let other: i32 = self.stack[n - 2];
                self.stack.truncate(n - 2);
                self.stack.push(val);
                self.stack.push(other);
                Ok(())
            },
            CommandKind::DiscardStack => {
                if n < 1 {
                    return InterpretErrorKind::StackUnderflow(instr).throw();
                }
                self.stack.truncate(n - 1);
                Ok(())
            },
            CommandKind::SlideNStack => {
                if n < 1 {
                    return InterpretErrorKind::StackUnderflow(instr).throw();
                }
                match &instr.param {
                    Some(ParamKind::Number(count)) => {
                        let val: i32 = *count;
                        if val < 0 {
                            return InterpretErrorKind::NumberOutOfBoundsError(instr, val, 0, i32::MAX).throw();
                        }
                        let top: i32 = self.stack[n - 1];
                        let kept: usize = if val as usize >= n - 1 { 0 } else { n - 1 - val as usize };
                        self.stack.truncate(kept);
                        self.stack.push(top);
                        Ok(())
                    },
                    _ => InterpretErrorKind::ParseLogicError(instr).throw(),
                }
            },
            _ => InterpretErrorKind::ParseLogicError(instr).throw(),
        }
    }

    /// The arithmetic family, on the two values on top of the stack.
    fn arithmetic(&mut self, instr: Instruction) -> (r: Result<(), InterpretError>)
        ensures
            final(self)@ =~= arithmetic_spec(old(self)@, instr@).state,
            reports(r, arithmetic_spec(old(self)@, instr@).fault),
            final(self).spec_config() == old(self).spec_config(),
    {
        let n: usize = self.stack.len();
        match instr.cmd {
            CommandKind::Add | CommandKind::Subtract | CommandKind::Multiply | CommandKind::IntegerDivision
            | CommandKind::Modulo => {
                if n < 2 {
                    return InterpretErrorKind::StackUnderflow(instr).throw();
                }
                let right: i32 = self.stack[n - 1];
                let left: i32 = self.stack[n - 2];
                match compute(instr.cmd, left, right) {
                    Some(val) => {
                        self.stack.truncate(n - 2);
                        self.stack.push(val);
                        Ok(())
                    },
                    None => InterpretErrorKind::DivisionByZero(instr).throw(),
                }
            },
            _ => InterpretErrorKind::ParseLogicError(instr).throw(),
        }
    }

    /// The heap family: store and retrieve.
    fn heap(&mut self, instr: Instruction) -> (r: Result<(), InterpretError>)
        ensures
            final(self)@ =~= heap_spec(old(self)@, instr@).state,
            reports(r, heap_spec(old(self)@, instr@).fault),
            final(self).spec_config() == old(self).spec_config(),
    {
        let n: usize = self.stack.len();
        match instr.cmd {
            CommandKind::StoreHeap => {
                if n < 2 {
                    return InterpretErrorKind::StackUnderflow(instr).throw();
                }
                let val: i32 = self.stack[n - 1];
                let addr: i32 = self.stack[n - 2];
                if addr < 0 || addr as usize >= self.heap.len() {
                    let high: i32 = high_index(self.heap.len());
                    return InterpretErrorKind::NumberOutOfBoundsError(instr, addr, 0, high).throw();
                }
                self.stack.truncate(n - 2);
                self.heap.set(addr as usize, val);
                Ok(())
            },
            CommandKind::RetrieveHeap => {
                if n < 1 {
                    return InterpretErrorKind::StackUnderflow(instr).throw();
                }
                let addr: i32 = self.stack[n - 1];
                if addr < 0 || addr as usize >= self.heap.len() {
                    let high: i32 = high_index(self.heap.len());
                    return InterpretErrorKind::NumberOutOfBoundsError(instr, addr, 0, high).throw();
                }
                self.stack.truncate(n - 1);
                self.stack.push(self.heap[addr as usize]);
                Ok(())
            },
            _ => InterpretErrorKind::ParseLogicError(instr).throw(),
        }
    }

    /// Sets the pointer to the `Mark` of the instruction's label.
    fn jump(&mut self, instr: Instruction) -> (r: Result<(), InterpretError>)
        ensures
            final(self)@ =~= jump_spec(old(self)@, instr@).state,
            reports(r, jump_spec(old(self)@, instr@).fault),
            final(self).spec_config() == old(self).spec_config(),
    {
        match &instr.param {
            Some(ParamKind::Label(_, Some(index))) => {
                self.instruction_pointer = *index;
                Ok(())
            },
            _ => InterpretErrorKind::ParseLogicError(instr).throw(),
        }
    }

    /// Pops a value and jumps where it meets the condition.
    fn branch(&mut self, instr: Instruction, when_zero: bool) -> (r: Result<(), InterpretError>)
        ensures
            final(self)@ =~= branch_spec(old(self)@, instr@, when_zero).state,
            reports(r, branch_spec(old(self)@, instr@, when_zero).fault),
            final(self).spec_config() == old(self).spec_config(),
    {
        let n: usize = self.stack.len();
        if n < 1 {
            return InterpretErrorKind::StackUnderflow(instr).throw();
        }
        let val: i32 = self.stack[n - 1];
        let taken = if when_zero { val == 0 } else { val < 0 };
        if !taken {
            self.stack.truncate(n - 1);
            return Ok(());
        }
        match &instr.param {
            Some(ParamKind::Label(_, Some(index))) => {
                self.stack.truncate(n - 1);
                self.instruction_pointer = *index;
                Ok(())
            },
            _ => InterpretErrorKind::ParseLogicError(instr).throw(),
        }
    }

    /// The flow family: marks, calls, jumps, return and exit.
    fn flow(&mut self, instr: Instruction) -> (r: Result<(), InterpretError>)
        ensures
            final(self)@ =~= flow_spec(old(self)@, instr@).state,
            reports(r, flow_spec(old(self)@, instr@).fault),
            final(self).spec_config() == old(self).spec_config(),
    {
        match instr.cmd {
            CommandKind::Mark => Ok(()),
            CommandKind::Call => {
                match &instr.param {
                    Some(ParamKind::Label(_, Some(index))) => {
                        self.call_stack.push(self.instruction_pointer);
                        self.instruction_pointer = *index;
                        Ok(())
                    },
                    _ => InterpretErrorKind::ParseLogicError(instr).throw(),
                }
            },
            CommandKind::Jump => self.jump(instr),
            CommandKind::JumpZero => self.branch(instr, true),
            CommandKind::JumpNegative => self.branch(instr, false),
            CommandKind::Return => {
                let n: usize = self.call_stack.len();
                if n < 1 {
                    return InterpretErrorKind::StackUnderflow(instr).throw();
                }
                let frame: usize = self.call_stack[n - 1];
                self.call_stack.truncate(n - 1);
                self.instruction_pointer = frame;
                Ok(())
            },
            CommandKind::Exit => {
                self.done = true;
                Ok(())
            },
            _ => InterpretErrorKind::ParseLogicError(instr).throw(),
        }
    }

    /// The input and output family; output goes to the machine's buffer,
    /// input comes from what the machine was given.
    fn io(&mut self, instr: Instruction) -> (r: Result<(), InterpretError>)
        requires
            old(self)@.input_pos <= old(self)@.input.len(),
        ensures
            final(self)@ =~= io_spec(old(self)@, instr@).state,
            reports(r, io_spec(old(self)@, instr@).fault),
            final(self).spec_config() == old(self).spec_config(),
    {
        let n: usize = self.stack.len();
        match instr.cmd {
            CommandKind::OutCharacter => {
                if n < 1 {
                    return InterpretErrorKind::StackUnderflow(instr).throw();
                }
                let code: i32 = self.stack[n - 1];
                if code < 0 {
                    return InterpretErrorKind::NumberOutOfBoundsError(instr, code, 0, i32::MAX).throw();
                }
                if self.config.suppress_output {
                    self.stack.truncate(n - 1);
                    return Ok(());
                }
                match char::from_u32(code as u32) {
                    Some(character) => {
                        self.stack.truncate(n - 1);
                        self.output.push(character);
                        Ok(())
                    },
                    None => InterpretErrorKind::NumberOutOfBoundsError(instr, code, 0, 0x10FFFF).throw(),
                }
            },
            CommandKind::OutInteger => {
                if n < 1 {
                    return InterpretErrorKind::StackUnderflow(instr).throw();
                }
                let number: i32 = self.stack[n - 1];
                self.stack.truncate(n - 1);
                if !self.config.suppress_output {
                    push_decimal(number, &mut self.output);
                }
                Ok(())
            },
            CommandKind::ReadCharacter => {
                if n < 1 {
                    return InterpretErrorKind::StackUnderflow(instr).throw();
                }
                let addr: i32 = self.stack[n - 1];
                if addr < 0 || addr as usize >= self.heap.len() {
                    let high: i32 = high_index(self.heap.len());
                    return InterpretErrorKind::NumberOutOfBoundsError(instr, addr, 0, high).throw();
                }
                if self.input_pos >= self.input.len() {
                    return InterpretErrorKind::StdinError(instr).throw();
                }
                let character: char = self.input[self.input_pos];
                self.stack.truncate(n - 1);
                let code: i32 = #[verifier::truncate] (character as u32 as i32);
                self.heap.set(addr as usize, code);
                self.input_pos = self.input_pos + 1;
                Ok(())
            },
            CommandKind::ReadInteger => {
                if n < 1 {
                    return InterpretErrorKind::StackUnderflow(instr).throw();
                }
                let addr: i32 = self.stack[n - 1];
                if addr < 0 || addr as usize >= self.heap.len() {
                    let high: i32 = high_index(self.heap.len());
                    return InterpretErrorKind::NumberOutOfBoundsError(instr, addr, 0, high).throw();
                }
                let end: usize = find_line_end(&self.input, self.input_pos);
                match parse_line(&self.input, self.input_pos, end) {
                    Some(num) => {
                        self.stack.truncate(n - 1);
                        self.heap.set(addr as usize, num);
                        self.input_pos = end;
                        Ok(())
                    },
                    None => InterpretErrorKind::StdinError(instr).throw(),
                }
            },
            _ => InterpretErrorKind::ParseLogicError(instr).throw(),
        }
    }
}

/// A heap of `size` cells, each zero.
fn zeroed(size: usize) -> (heap: Vec<i32>)
    ensures
        heap@ == Seq::new(size as nat, |k: int| 0i32),
{
    let mut heap: Vec<i32> = Vec::new();
    let mut k: usize = 0;
    while k < size
        invariant
            k <= size,
            heap@ == Seq::new(k as nat, |j: int| 0i32),
        decreases size - k,
    {
        heap.push(0);
        k += 1;
        assert(heap@ =~= Seq::new(k as nat, |j: int| 0i32));
    }
    heap
}

/// The state in which a machine with this program starts.
pub open spec fn initial(program: Seq<InstructionView>, heap_size: usize, suppress_output: bool) -> Machine {
    Machine {
        program,
        stack: Seq::empty(),
        call_stack: Seq::empty(),
        heap: Seq::new(heap_size as nat, |k: int| 0i32),
        ip: 0,
        done: false,
        suppress_output,
        input: Seq::empty(),
        input_pos: 0,
        output: Seq::empty(),
        executed: 0,
    }
}

impl<'a> Interpreter<'a> {
    /// A machine in its initial state for a program whose labels are resolved.
    fn assemble(config: InterpreterConfig<'a>, instructions: Vec<Instruction>) -> (vm: Interpreter<'a>)
        requires
            forall|k: int|
                0 <= k < instructions.len() ==> (#[trigger] instructions[k])@.target_below(
                    instructions.len() as int,
                ),
        ensures
            vm@ == initial(views(instructions@), config.heap_size, config.suppress_output),
            vm.spec_config() == config,
            vm.wf(),
    {
        let heap = zeroed(config.heap_size);
        let vm = Interpreter {
            config,
            stack: Vec::new(),
            call_stack: Vec::new(),
            heap,
            instruction_pointer: 0,
            instructions,
            done: false,
            input: Vec::new(),
            input_pos: 0,
            output: Vec::new(),
            instruction_count: 0,
        };
        assert(vm@ =~= initial(views(instructions@), config.heap_size, config.suppress_output));
        vm
    }

    /// A machine in its initial state for the given instructions, whose
    /// labels are resolved first.
    pub fn from_instructions(config: InterpreterConfig<'a>, instructions: Vec<Instruction>) -> (vm: Interpreter<'a>)
        ensures
            vm@ == initial(resolved(views(instructions@)), config.heap_size, config.suppress_output),
            vm.spec_config() == config,
            vm.wf(),
    {
        let ghost given = views(instructions@);
        assert(given.len() == instructions.len());
        let program = resolve_labels(instructions);
        proof {
            lemma_resolved_targets(given);
            assert forall|k: int| 0 <= k < program.len() implies (#[trigger] program[k])@.target_below(
                program.len() as int,
            ) by {
                assert(program[k]@ == views(program@)[k]);
            }
        }
        Interpreter::assemble(config, program)
    }

    /// A machine in its initial state for the program that `source` spells
    /// in the way `source_type` says, or the error that decoding finds.
    pub fn with_source_type(config: InterpreterConfig<'a>, source: &[u8], source_type: SourceType) -> (r: Result<
        Interpreter<'a>,
        ParseErrorKind,
    >)
        ensures
            match r {
                Ok(vm) => program_of(source@, source_type) matches Ok(program) && vm@ == initial(
                    resolved(program),
                    config.heap_size,
                    config.suppress_output,
                ) && vm.spec_config() == config && vm.wf(),
                Err(e) => program_of(source@, source_type) == Err::<Seq<InstructionView>, _>(e),
            },
    {
        match parse(source, source_type) {
            Ok(instructions) => Ok(Interpreter::from_instructions(config, instructions)),
            Err(e) => Err(e),
        }
    }

    /// A machine in its initial state for the program that `source` spells
    /// with spaces, tabs and line feeds, or the error that decoding finds.
    pub fn new(config: InterpreterConfig<'a>, source: &[u8]) -> (r: Result<Interpreter<'a>, ParseErrorKind>)
        ensures
            match r {
                Ok(vm) => program_of(source@, SourceType::Whitespace) matches Ok(program) && vm@ == initial(
                    resolved(program),
                    config.heap_size,
                    config.suppress_output,
                ) && vm.spec_config() == config && vm.wf(),
                Err(e) => program_of(source@, SourceType::Whitespace) == Err::<Seq<InstructionView>, _>(e),
            },
    {
        Interpreter::with_source_type(config, source, SourceType::Whitespace)
    }

    /// The instruction to be executed next, or `None` once `Exit` has been
    /// executed or the pointer has left the program.
    pub fn next_instruction(&self) -> (next: Option<Instruction>)
        ensures
            match next {
                Some(instr) => !self@.done && self@.ip < self@.program.len() && instr@ == self@.program[
                    self@.ip as int
                ],
                None => self@.done || self@.ip >= self@.program.len(),
            },
    {
        if self.done {
            return None;
        }
        if self.instruction_pointer < self.instructions.len() {
            return Some(self.instructions[self.instruction_pointer].duplicate());
        }
        None
    }

    /// Executes one instruction: its family's handler, then, whether that
    /// failed or not, the pointer moves on by one.
    pub fn exec(&mut self, instr: Instruction) -> (r: Result<(), InterpretError>)
        requires
            old(self).wf(),
            old(self)@.ip < old(self)@.program.len(),
            instr@.target_below(old(self)@.program.len() as int),
        ensures
            final(self)@ == exec_spec(old(self)@, instr@).state,
            reports(r, exec_spec(old(self)@, instr@).fault),
            final(self).wf(),
            final(self).spec_config() == old(self).spec_config(),
    {
        let res = match instr.imp {
            ImpKind::Stack => self.stack(instr),
            ImpKind::Arithmetic => self.arithmetic(instr),
            ImpKind::Heap => self.heap(instr),
            ImpKind::Flow => self.flow(instr),
            ImpKind::IO => self.io(instr),
        };
        proof {
            lemma_dispatch_well_formed(old(self)@, instr@);
            assert(self@ == dispatch_spec(old(self)@, instr@).state);
            assert(self@.program.len() == self.instructions.len());
        }
        self.instruction_pointer = self.instruction_pointer + 1;
        if self.instruction_count < u64::MAX {
            self.instruction_count = self.instruction_count + 1;
        }
        assert(self@ =~= exec_spec(old(self)@, instr@).state);
        res
    }

    /// Executes the program from the current state: instruction by
    /// instruction until `Exit`, a fault, the end of the program, or the end
    /// of the instruction counter. Succeeds exactly if `Exit` was executed.
    pub fn run(&mut self) -> (r: Result<(), InterpretError>)
        requires
            old(self).wf(),
        ensures
            final(self)@ == run_spec(old(self)@).state,
            reports(r, run_spec(old(self)@).fault),
            final(self).wf(),
            final(self).spec_config() == old(self).spec_config(),
    {
        while !self.done && self.instruction_pointer < self.instructions.len() && self.instruction_count < u64::MAX
            invariant
                self.wf(),
                run_spec(self@) == run_spec(old(self)@),
                self.spec_config() == old(self).spec_config(),
            decreases u64::MAX - self.instruction_count,
        {
            let instr = self.instructions[self.instruction_pointer].duplicate();
            let ghost before = self@;
            assert(before.program[before.ip as int] == instr@);
            let res = self.exec(instr);
            if res.is_err() {
                return res;
            }
        }
        if self.done {
            return Ok(());
        }
        let last = if 0 < self.instruction_pointer && self.instruction_pointer <= self.instructions.len() {
            Some(self.instructions[self.instruction_pointer - 1].duplicate())
        } else {
            None
        };
        InterpretErrorKind::NoTermination(last).throw()
    }

    /// Brings the machine back to its initial state, the program kept as it is.
    pub fn reset(&mut self)
        ensures
            final(self)@ == initial(old(self)@.program, old(self)@.heap.len() as usize, old(self)@.suppress_output),
            final(self).spec_config() == old(self).spec_config(),
            old(self).wf() ==> final(self).wf(),
    {
        self.stack.clear();
        self.call_stack.clear();
        self.heap = zeroed(self.heap.len());
        self.instruction_pointer = 0;
        self.done = false;
        self.input.clear();
        self.input_pos = 0;
        self.output.clear();
        self.instruction_count = 0;
        assert(self@ =~= initial(old(self)@.program, old(self)@.heap.len() as usize, old(self)@.suppress_output));
    }

    /// Gives the machine more input to read, behind what it has already.
    pub fn provide_input(&mut self, text: &Vec<char>)
        ensures
            final(self)@ == (Machine { input: old(self)@.input + text@, ..old(self)@ }),
            final(self).spec_config() == old(self).spec_config(),
            old(self).wf() ==> final(self).wf(),
    {
        let mut k: usize = 0;
        while k < text.len()
            invariant
                k <= text.len(),
                self@ == (Machine { input: old(self)@.input + text@.take(k as int), ..old(self)@ }),
                self.spec_config() == old(self).spec_config(),
            decreases text.len() - k,
        {
            self.input.push(text[k]);
            k += 1;
            assert(self@.input =~= old(self)@.input + text@.take(k as int));
        }
        assert(text@.take(k as int) =~= text@);
    }

    /// The non-zero heap cells, by address.
    pub fn generate_debug_heap_dump(&self) -> (dump: BTreeMap<usize, i32>)
        ensures
            dump@ == heap_dump_spec(self@.heap),
    {
        heap_dump(&self.heap)
    }

    /// The configuration.
    pub fn config(&self) -> (config: &InterpreterConfig<'a>)
        ensures
            *config == self.spec_config(),
            config.suppress_output == self@.suppress_output,
    {
        &self.config
    }

    /// The operand stack, its top last.
    pub fn stack_contents(&self) -> (stack: &Vec<i32>)
        ensures
            stack@ == self@.stack,
    {
        &self.stack
    }

    /// The saved positions of the calls that have not returned.
    pub fn call_stack_contents(&self) -> (frames: &Vec<usize>)
        ensures
            frames@ == self@.call_stack,
    {
        &self.call_stack
    }

    /// The heap.
    pub fn heap_contents(&self) -> (heap: &Vec<i32>)
        ensures
            heap@ == self@.heap,
    {
        &self.heap
    }

    /// The program, labels resolved.
    pub fn program(&self) -> (program: &Vec<Instruction>)
        ensures
            views(program@) == self@.program,
    {
        &self.instructions
    }

    /// The position of the next instruction.
    pub fn instruction_pointer(&self) -> (ip: usize)
        ensures
            ip == self@.ip,
    {
        self.instruction_pointer
    }

    /// Whether `Exit` has been executed.
    pub fn is_done(&self) -> (done: bool)
        ensures
            done == self@.done,
    {
        self.done
    }

    /// How many instructions have been executed.
    pub fn instruction_count(&self) -> (count: u64)
        ensures
            count == self@.executed,
    {
        self.instruction_count
    }

    /// All the text emitted so far.
    pub fn output(&self) -> (text: &Vec<char>)
        ensures
            text@ == self@.output,
    {
        &self.output
    }

    /// How many characters of input are left to read.
    pub fn pending_input(&self) -> (left: usize)
        requires
            self.wf(),
        ensures
            left == self@.input.len() - self@.input_pos,
    {
        self.input.len() - self.input_pos
    }
}

/// A machine that starts on a program whose last instruction is `Exit`
/// does not run off the end of it: its run raises `NoTermination` only if
/// the instruction counter reaches its end first.
pub proof fn lemma_program_ending_with_exit(program: Seq<InstructionView>, heap_size: usize, suppress_output: bool)
    requires
        0 < program.len() <= usize::MAX,
        is_exit(program[program.len() - 1]),
    ensures
        anchored(initial(resolved(program), heap_size, suppress_output)),
        run_spec(initial(resolved(program), heap_size, suppress_output)).fault matches Some(Fault::NoTermination(_))
            ==> run_spec(initial(resolved(program), heap_size, suppress_output)).state.executed == u64::MAX,
{
    let start = initial(resolved(program), heap_size, suppress_output);
    lemma_resolved_targets(program);
    assert forall|k: int| 0 <= k < start.program.len() implies #[trigger] lands_on_mark(start.program, k) by {
        match program[k].param {
            Some(ParamView::Label(bits, _)) => {
                lemma_label_position(program, bits);
            },
            _ => {},
        }
    }
    lemma_run_ends_with_exit(start);
}


} // verus!

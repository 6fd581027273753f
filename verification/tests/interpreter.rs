use spacey::instruction::{CommandKind, ImpKind, Instruction, ParamKind};
use spacey::interpreter::{InterpretErrorKind, Interpreter, InterpreterConfig, DEFAULT_HEAP_SIZE};
use spacey::parser::{ParseErrorKind, SourceType};
use std::collections::BTreeMap;

/// Source text from its spelling in the letters S, T and L; anything else
/// is layout.
fn ws(code: &str) -> Vec<u8> {
    let mut out = Vec::new();
    for b in code.bytes() {
        match b {
            b'S' => out.push(b' '),
            b'T' => out.push(b'\t'),
            b'L' => out.push(b'\n'),
            _ => {}
        }
    }
    out
}

fn push(n: i32) -> Instruction {
    Instruction::with_number(ImpKind::Stack, CommandKind::PushStack, n)
}

fn plain(imp: ImpKind, cmd: CommandKind) -> Instruction {
    Instruction::plain(imp, cmd)
}

fn exit() -> Instruction {
    plain(ImpKind::Flow, CommandKind::Exit)
}

fn labelled(cmd: CommandKind, bits: &[bool]) -> Instruction {
    Instruction::with_label(ImpKind::Flow, cmd, bits.to_vec())
}

fn text(chars: &[char]) -> String {
    chars.iter().collect()
}

#[test]
fn interpret_stack() {
    let config = InterpreterConfig::default_no_heap_suppressed("ws/interpret_stack.ws");
    // push -1, push 7, push 3, duplicate, swap, discard, copy 0, slide 3, exit
    let source = ws("SS TTL  SS STTTL  SS STTL  SLS  SLT  SLL  STS SL  STL STTL  LLL");
    let mut interpreter = Interpreter::new(config, &source).unwrap();

    interpreter.run().unwrap();

    assert_eq!(interpreter.stack_contents(), &vec![-1]);
    assert!(interpreter.heap_contents().is_empty());
}

#[test]
fn interpret_arithmetic() {
    let config = InterpreterConfig::default_no_heap_suppressed("ws/interpret_arithmetic.ws");
    // 7 + 3 = 10, - 2 = 8, * 3 = 24, / 5 = 4, % 9 = 4
    let source = ws(
        "SS STTTL SS STTL TSSS  SS STSL TSST  SS STTL TSSL  SS STSTL TSTS  SS STSSTL TSTT  LLL",
    );
    let mut interpreter = Interpreter::new(config, &source).unwrap();

    interpreter.run().unwrap();

    assert_eq!(interpreter.stack_contents(), &vec![4]);
    assert!(interpreter.heap_contents().is_empty());
}

#[test]
fn interpret_heap() {
    let config = InterpreterConfig::default_heap_suppressed("ws/interpret_heap.ws");
    // heap[0] = -8, heap[1] = 10, then both are retrieved
    let source = ws("SS SL SS TTSSSL TTS  SS STL SS STSTSL TTS  SS SL TTT  SS STL TTT  LLL");
    let mut interpreter = Interpreter::new(config, &source).unwrap();

    interpreter.run().unwrap();

    assert_eq!(interpreter.stack_contents(), &vec![-8, 10]);
}

#[test]
fn interpret_flow() {
    let config = InterpreterConfig::default_no_heap_suppressed("ws/interpret_flow.ws");
    // push 0, jz A, push 1, A:, call B, jump C, B:, return, C:, push -1, jn D, push 2, D:, exit
    let source = ws(
        "SS SL  LTS SL  SS STL  LSS SL  LST TL  LSL STL  LSS TL  LTL  LSS STL  SS TTL  LTT TTL  SS STSL  LSS TTL  LLL",
    );
    let mut interpreter = Interpreter::new(config, &source).unwrap();

    interpreter.run().unwrap();
    assert_eq!(interpreter.stack_contents(), &Vec::<i32>::new());
}

#[test]
fn interpret_io() {
    let config = InterpreterConfig::default_no_heap_suppressed("ws/interpret_io.ws");
    // push 72, output character, push 42, output number, exit
    let source = ws("SS STSSTSSSL TLSS  SS STSTSTSL TLST  LLL");
    let mut interpreter = Interpreter::new(config, &source).unwrap();

    interpreter.run().unwrap();
    assert!(interpreter.output().is_empty());
}

#[test]
fn output_is_emitted_unless_suppressed() {
    let config = InterpreterConfig::default_no_heap("io");
    let source = ws("SS STSSTSSSL TLSS  SS STSTSTSL TLST  LLL");
    let mut interpreter = Interpreter::new(config, &source).unwrap();
    interpreter.run().unwrap();
    assert_eq!(text(interpreter.output()), "H42");
    assert!(interpreter.stack_contents().is_empty());
}

#[test]
fn scenario_subtract_and_print() {
    let program = vec![
        push(5),
        push(3),
        plain(ImpKind::Arithmetic, CommandKind::Subtract),
        plain(ImpKind::IO, CommandKind::OutInteger),
        exit(),
    ];
    let mut vm = Interpreter::from_instructions(InterpreterConfig::default_no_heap("p"), program);
    vm.run().unwrap();
    assert!(vm.stack_contents().is_empty());
    assert_eq!(text(vm.output()), "2");
    assert!(vm.is_done());
    assert_eq!(vm.instruction_count(), 5);
    assert_eq!(vm.instruction_pointer(), 5);
}

#[test]
fn scenario_store_and_retrieve() {
    let program = vec![
        push(0),
        push(42),
        plain(ImpKind::Heap, CommandKind::StoreHeap),
        push(0),
        plain(ImpKind::Heap, CommandKind::RetrieveHeap),
        plain(ImpKind::IO, CommandKind::OutInteger),
        exit(),
    ];
    let config = InterpreterConfig::new("p", 1, false, false, false, false);
    let mut vm = Interpreter::from_instructions(config, program);
    vm.run().unwrap();
    assert_eq!(text(vm.output()), "42");
    assert_eq!(vm.heap_contents(), &vec![42]);
    assert_eq!(vm.generate_debug_heap_dump(), BTreeMap::from([(0usize, 42)]));
}

#[test]
fn scenario_jump_skips() {
    let label = [true, false];
    let program = vec![
        labelled(CommandKind::Jump, &label),
        push(1),
        labelled(CommandKind::Mark, &label),
        push(2),
        exit(),
    ];
    let mut vm = Interpreter::from_instructions(InterpreterConfig::default_no_heap("p"), program);
    assert_eq!(
        vm.program()[0].param,
        Some(ParamKind::Label(vec![true, false], Some(2)))
    );
    vm.run().unwrap();
    assert_eq!(vm.stack_contents(), &vec![2]);
}

#[test]
fn scenario_underflow_cites_add() {
    let add = plain(ImpKind::Arithmetic, CommandKind::Add);
    let program = vec![add.clone(), exit()];
    let mut vm = Interpreter::from_instructions(InterpreterConfig::default_no_heap("p"), program);
    let err = vm.run().unwrap_err();
    match err.kind {
        InterpretErrorKind::StackUnderflow(instr) => assert_eq!(instr, add),
        other => panic!("unexpected {:?}", other),
    }
    assert_eq!(err.msg, "stack is empty");
    assert_eq!(vm.instruction_pointer(), 1);
    assert!(!vm.is_done());
}

#[test]
fn scenario_store_out_of_bounds() {
    let store = plain(ImpKind::Heap, CommandKind::StoreHeap);
    let program = vec![push(-1), push(99), store.clone(), exit()];
    let config = InterpreterConfig::new("p", 10, false, false, false, true);
    let mut vm = Interpreter::from_instructions(config, program);
    let err = vm.run().unwrap_err();
    match err.kind {
        InterpretErrorKind::NumberOutOfBoundsError(instr, n, low, high) => {
            assert_eq!(instr, store);
            assert_eq!((n, low, high), (-1, 0, 9));
        }
        other => panic!("unexpected {:?}", other),
    }
    // the fault leaves the stack and the heap as they were
    assert_eq!(vm.stack_contents(), &vec![-1, 99]);
    assert_eq!(vm.heap_contents(), &vec![0; 10]);
}

#[test]
fn copy_nth_past_the_top_is_out_of_bounds() {
    let copy = Instruction::with_number(ImpKind::Stack, CommandKind::CopyNthStack, 2);
    let program = vec![push(7), push(8), copy.clone(), exit()];
    let mut vm = Interpreter::from_instructions(InterpreterConfig::default_no_heap("p"), program);
    let err = vm.run().unwrap_err();
    match err.kind {
        InterpretErrorKind::NumberOutOfBoundsError(instr, n, low, high) => {
            assert_eq!(instr, copy);
            assert_eq!((n, low, high), (2, 0, 1));
        }
        other => panic!("unexpected {:?}", other),
    }
    assert_eq!(vm.stack_contents(), &vec![7, 8]);
}

#[test]
fn copy_nth_counts_from_the_bottom() {
    let program = vec![
        push(7),
        push(8),
        push(9),
        Instruction::with_number(ImpKind::Stack, CommandKind::CopyNthStack, 0),
        exit(),
    ];
    let mut vm = Interpreter::from_instructions(InterpreterConfig::default_no_heap("p"), program);
    vm.run().unwrap();
    assert_eq!(vm.stack_contents(), &vec![7, 8, 9, 7]);
}

#[test]
fn push_then_discard_restores_the_stack() {
    let program = vec![push(4), push(11), plain(ImpKind::Stack, CommandKind::DiscardStack), exit()];
    let mut vm = Interpreter::from_instructions(InterpreterConfig::default_no_heap("p"), program);
    let first = vm.next_instruction().unwrap();
    vm.exec(first).unwrap();
    let before = vm.stack_contents().clone();
    let second = vm.next_instruction().unwrap();
    vm.exec(second).unwrap();
    assert_eq!(vm.stack_contents(), &vec![4, 11]);
    let third = vm.next_instruction().unwrap();
    vm.exec(third).unwrap();
    assert_eq!(vm.stack_contents(), &before);
}

#[test]
fn run_without_exit_is_no_termination() {
    let program = vec![push(1), push(2)];
    let mut vm = Interpreter::from_instructions(InterpreterConfig::default_no_heap("p"), program);
    let err = vm.run().unwrap_err();
    match err.kind {
        InterpretErrorKind::NoTermination(last) => assert_eq!(last, Some(push(2))),
        other => panic!("unexpected {:?}", other),
    }
    assert_eq!(err.msg, "no termination instruction after last executed instruction");
    assert_eq!(vm.stack_contents(), &vec![1, 2]);
}

#[test]
fn empty_program_is_no_termination() {
    let mut vm = Interpreter::from_instructions(InterpreterConfig::default_no_heap("p"), vec![]);
    assert_eq!(vm.next_instruction(), None);
    let err = vm.run().unwrap_err();
    match err.kind {
        InterpretErrorKind::NoTermination(last) => assert_eq!(last, None),
        other => panic!("unexpected {:?}", other),
    }
}

#[test]
fn run_after_exit_succeeds_again() {
    let mut vm = Interpreter::from_instructions(InterpreterConfig::default_no_heap("p"), vec![exit(), push(1)]);
    vm.run().unwrap();
    assert_eq!(vm.next_instruction(), None);
    vm.run().unwrap();
    assert_eq!(vm.instruction_count(), 1);
    assert!(vm.stack_contents().is_empty());
}

#[test]
fn forward_and_backward_references_resolve_alike() {
    let l = [false, true, true];
    let program = vec![
        labelled(CommandKind::Call, &l),
        labelled(CommandKind::Mark, &l),
        labelled(CommandKind::Jump, &l),
        labelled(CommandKind::Mark, &[true]),
        labelled(CommandKind::JumpZero, &[false]),
    ];
    let vm = Interpreter::from_instructions(InterpreterConfig::default_no_heap("p"), program);
    let resolved = vm.program();
    assert_eq!(resolved[0].param, Some(ParamKind::Label(l.to_vec(), Some(1))));
    assert_eq!(resolved[2].param, Some(ParamKind::Label(l.to_vec(), Some(1))));
    assert_eq!(resolved[1].param, Some(ParamKind::Label(l.to_vec(), Some(1))));
    assert_eq!(resolved[3].param, Some(ParamKind::Label(vec![true], Some(3))));
    assert_eq!(resolved[4].param, Some(ParamKind::Label(vec![false], None)));
}

#[test]
fn duplicate_marks_last_one_wins() {
    let l = [true];
    let program = vec![
        labelled(CommandKind::Mark, &l),
        labelled(CommandKind::Jump, &l),
        push(1),
        labelled(CommandKind::Mark, &l),
        exit(),
    ];
    let mut vm = Interpreter::from_instructions(InterpreterConfig::default_no_heap("p"), program);
    assert_eq!(vm.program()[1].param, Some(ParamKind::Label(vec![true], Some(3))));
    vm.run().unwrap();
    assert!(vm.stack_contents().is_empty());
}

#[test]
fn unresolved_label_faults_only_when_taken() {
    let jz = labelled(CommandKind::JumpZero, &[true, true]);
    let program = vec![push(1), jz.clone(), push(0), jz.clone(), exit()];
    let mut vm = Interpreter::from_instructions(InterpreterConfig::default_no_heap("p"), program);
    let err = vm.run().unwrap_err();
    match err.kind {
        InterpretErrorKind::ParseLogicError(instr) => assert_eq!(instr, jz),
        other => panic!("unexpected {:?}", other),
    }
    assert_eq!(err.msg, "the decoder delivered an inconsistent instruction");
    assert_eq!(vm.instruction_pointer(), 4);
    assert_eq!(vm.stack_contents(), &vec![0]);
}

#[test]
fn command_of_another_family_is_a_parse_logic_error() {
    let odd = plain(ImpKind::Heap, CommandKind::Add);
    let mut vm = Interpreter::from_instructions(InterpreterConfig::default_heap("p"), vec![odd.clone()]);
    assert_eq!(vm.heap_contents().len(), DEFAULT_HEAP_SIZE);
    let err = vm.run().unwrap_err();
    assert!(matches!(err.kind, InterpretErrorKind::ParseLogicError(i) if i == odd));
    let missing = plain(ImpKind::Stack, CommandKind::PushStack);
    let mut vm = Interpreter::from_instructions(InterpreterConfig::default_no_heap("p"), vec![missing.clone()]);
    let err = vm.run().unwrap_err();
    assert!(matches!(err.kind, InterpretErrorKind::ParseLogicError(i) if i == missing));
}

#[test]
fn call_and_return() {
    let f = [true];
    let program = vec![
        labelled(CommandKind::Call, &f),
        push(2),
        exit(),
        labelled(CommandKind::Mark, &f),
        push(1),
        plain(ImpKind::Flow, CommandKind::Return),
    ];
    let mut vm = Interpreter::from_instructions(InterpreterConfig::default_no_heap("p"), program);
    let call = vm.next_instruction().unwrap();
    vm.exec(call).unwrap();
    assert_eq!(vm.call_stack_contents(), &vec![0usize]);
    assert_eq!(vm.instruction_pointer(), 4);
    vm.run().unwrap();
    assert_eq!(vm.stack_contents(), &vec![1, 2]);
    assert!(vm.call_stack_contents().is_empty());
}

#[test]
fn return_with_empty_call_stack_underflows() {
    let ret = plain(ImpKind::Flow, CommandKind::Return);
    let mut vm = Interpreter::from_instructions(InterpreterConfig::default_no_heap("p"), vec![ret.clone(), exit()]);
    let err = vm.run().unwrap_err();
    assert!(matches!(err.kind, InterpretErrorKind::StackUnderflow(i) if i == ret));
}

#[test]
fn swap_with_one_value_keeps_it() {
    let swap = plain(ImpKind::Stack, CommandKind::SwapStack);
    let mut vm = Interpreter::from_instructions(InterpreterConfig::default_no_heap("p"), vec![push(3), swap.clone()]);
    let err = vm.run().unwrap_err();
    assert!(matches!(err.kind, InterpretErrorKind::StackUnderflow(i) if i == swap));
    assert_eq!(vm.stack_contents(), &vec![3]);
}

#[test]
fn swap_and_duplicate() {
    let program = vec![
        push(1),
        push(2),
        plain(ImpKind::Stack, CommandKind::SwapStack),
        plain(ImpKind::Stack, CommandKind::DuplicateStack),
        exit(),
    ];
    let mut vm = Interpreter::from_instructions(InterpreterConfig::default_no_heap("p"), program);
    vm.run().unwrap();
    assert_eq!(vm.stack_contents(), &vec![2, 1, 1]);
}

#[test]
fn slide_keeps_the_top() {
    let slide = |n: i32| Instruction::with_number(ImpKind::Stack, CommandKind::SlideNStack, n);
    let program = vec![push(1), push(2), push(3), push(4), slide(2), exit()];
    let mut vm = Interpreter::from_instructions(InterpreterConfig::default_no_heap("p"), program);
    vm.run().unwrap();
    assert_eq!(vm.stack_contents(), &vec![1, 4]);

    let program = vec![push(1), push(2), slide(5), exit()];
    let mut vm = Interpreter::from_instructions(InterpreterConfig::default_no_heap("p"), program);
    vm.run().unwrap();
    assert_eq!(vm.stack_contents(), &vec![2]);

    let program = vec![push(1), push(2), slide(-1), exit()];
    let mut vm = Interpreter::from_instructions(InterpreterConfig::default_no_heap("p"), program);
    let err = vm.run().unwrap_err();
    match err.kind {
        InterpretErrorKind::NumberOutOfBoundsError(instr, n, low, high) => {
            assert_eq!(instr, slide(-1));
            assert_eq!((n, low, high), (-1, 0, i32::MAX));
        }
        other => panic!("unexpected {:?}", other),
    }
    assert_eq!(err.msg, "number is out of bounds");
    assert_eq!(vm.stack_contents(), &vec![1, 2]);
}

fn arithmetic(cmd: CommandKind, l: i32, r: i32) -> Result<i32, InterpretErrorKind> {
    let program = vec![push(l), push(r), plain(ImpKind::Arithmetic, cmd), exit()];
    let mut vm = Interpreter::from_instructions(InterpreterConfig::default_no_heap("p"), program);
    match vm.run() {
        Ok(()) => {
            assert_eq!(vm.stack_contents().len(), 1);
            Ok(vm.stack_contents()[0])
        }
        Err(e) => {
            assert_eq!(vm.stack_contents(), &vec![l, r]);
            Err(e.kind)
        }
    }
}

#[test]
fn arithmetic_wraps_and_truncates() {
    assert_eq!(arithmetic(CommandKind::Add, i32::MAX, 1).unwrap(), i32::MIN);
    assert_eq!(arithmetic(CommandKind::Subtract, i32::MIN, 1).unwrap(), i32::MAX);
    assert_eq!(arithmetic(CommandKind::Subtract, 5, 3).unwrap(), 2);
    assert_eq!(arithmetic(CommandKind::Multiply, 65536, 65536).unwrap(), 0);
    assert_eq!(arithmetic(CommandKind::Multiply, -7, 6).unwrap(), -42);
    assert_eq!(arithmetic(CommandKind::IntegerDivision, -7, 2).unwrap(), -3);
    assert_eq!(arithmetic(CommandKind::IntegerDivision, 7, -2).unwrap(), -3);
    assert_eq!(arithmetic(CommandKind::IntegerDivision, -7, -2).unwrap(), 3);
    assert_eq!(arithmetic(CommandKind::IntegerDivision, i32::MIN, -1).unwrap(), i32::MIN);
    assert_eq!(arithmetic(CommandKind::Modulo, -7, 2).unwrap(), -1);
    assert_eq!(arithmetic(CommandKind::Modulo, 7, -2).unwrap(), 1);
    assert_eq!(arithmetic(CommandKind::Modulo, i32::MIN, -1).unwrap(), 0);
}

#[test]
fn division_by_zero_is_a_fault() {
    let div = plain(ImpKind::Arithmetic, CommandKind::IntegerDivision);
    let err = arithmetic(CommandKind::IntegerDivision, 1, 0).unwrap_err();
    assert!(matches!(err, InterpretErrorKind::DivisionByZero(i) if i == div));
    let err = arithmetic(CommandKind::Modulo, 1, 0).unwrap_err();
    assert!(matches!(err, InterpretErrorKind::DivisionByZero(_)));
    assert_eq!(err.describe(), "division by zero");
}

#[test]
fn heap_of_size_zero_rejects_every_address() {
    let retrieve = plain(ImpKind::Heap, CommandKind::RetrieveHeap);
    let mut vm = Interpreter::from_instructions(
        InterpreterConfig::default_no_heap("p"),
        vec![push(0), retrieve.clone(), exit()],
    );
    let err = vm.run().unwrap_err();
    match err.kind {
        InterpretErrorKind::NumberOutOfBoundsError(instr, n, low, high) => {
            assert_eq!(instr, retrieve);
            assert_eq!((n, low, high), (0, 0, -1));
        }
        other => panic!("unexpected {:?}", other),
    }
}

#[test]
fn output_character_rejects_what_is_no_character() {
    let out = plain(ImpKind::IO, CommandKind::OutCharacter);
    let run = |n: i32, suppress: bool| {
        let config = InterpreterConfig::new("p", 0, false, false, false, suppress);
        let mut vm = Interpreter::from_instructions(config, vec![push(n), out.clone(), exit()]);
        let r = vm.run().map_err(|e| e.kind);
        (r, text(vm.output()))
    };
    assert!(matches!(run(-1, false).0, Err(InterpretErrorKind::NumberOutOfBoundsError(_, -1, 0, i32::MAX))));
    assert!(matches!(run(-1, true).0, Err(InterpretErrorKind::NumberOutOfBoundsError(_, -1, 0, i32::MAX))));
    assert!(matches!(
        run(0xD800, false).0,
        Err(InterpretErrorKind::NumberOutOfBoundsError(_, 0xD800, 0, 0x10FFFF))
    ));
    assert!(run(0xD800, true).0.is_ok());
    let (r, emitted) = run(0x263A, false);
    assert!(r.is_ok());
    assert_eq!(emitted, "\u{263A}");
    let (r, emitted) = run(65, false);
    assert!(r.is_ok());
    assert_eq!(emitted, "A");
}

#[test]
fn output_number_writes_decimal_text() {
    let run = |n: i32| {
        let mut vm = Interpreter::from_instructions(
            InterpreterConfig::default_no_heap("p"),
            vec![push(n), plain(ImpKind::IO, CommandKind::OutInteger), exit()],
        );
        vm.run().unwrap();
        text(vm.output())
    };
    assert_eq!(run(0), "0");
    assert_eq!(run(7), "7");
    assert_eq!(run(-45), "-45");
    assert_eq!(run(1000), "1000");
    assert_eq!(run(i32::MAX), "2147483647");
    assert_eq!(run(i32::MIN), "-2147483648");
}

#[test]
fn read_character_and_number() {
    let program = vec![
        push(0),
        plain(ImpKind::IO, CommandKind::ReadCharacter),
        push(1),
        plain(ImpKind::IO, CommandKind::ReadInteger),
        push(2),
        plain(ImpKind::IO, CommandKind::ReadInteger),
        exit(),
    ];
    let config = InterpreterConfig::new("p", 3, false, false, false, false);
    let mut vm = Interpreter::from_instructions(config, program);
    let input: Vec<char> = "x  -12 \r\n+7".chars().collect();
    vm.provide_input(&input);
    assert_eq!(vm.pending_input(), 11);
    vm.run().unwrap();
    assert_eq!(vm.heap_contents(), &vec![120, -12, 7]);
    assert_eq!(vm.pending_input(), 0);
    assert_eq!(vm.generate_debug_heap_dump(), BTreeMap::from([(0usize, 120), (1, -12), (2, 7)]));
}

#[test]
fn read_faults() {
    let read_char = plain(ImpKind::IO, CommandKind::ReadCharacter);
    let read_int = plain(ImpKind::IO, CommandKind::ReadInteger);
    let config = || InterpreterConfig::new("p", 1, false, false, false, false);

    let mut vm = Interpreter::from_instructions(config(), vec![push(0), read_char.clone(), exit()]);
    let err = vm.run().unwrap_err();
    assert!(matches!(err.kind, InterpretErrorKind::StdinError(i) if i == read_char));
    assert_eq!(err.msg, "stdin error");
    assert_eq!(vm.stack_contents(), &vec![0]);

    for line in ["", "\n", "abc\n", "12x\n", "2147483648\n", "-2147483649\n", "+\n", "1 2\n", "--1\n"] {
        let mut vm = Interpreter::from_instructions(config(), vec![push(0), read_int.clone(), exit()]);
        vm.provide_input(&line.chars().collect());
        let err = vm.run().unwrap_err();
        assert!(matches!(err.kind, InterpretErrorKind::StdinError(i) if i == read_int), "{:?}", line);
        assert_eq!(vm.heap_contents(), &vec![0]);
    }
    for (line, value) in [("2147483647\n", i32::MAX), ("-2147483648", i32::MIN), ("\t 007 \n", 7), ("-0\n", 0), ("\u{a0}\u{2003}15\u{3000}\r\n", 15)] {
        let mut vm = Interpreter::from_instructions(config(), vec![push(0), read_int.clone(), exit()]);
        vm.provide_input(&line.chars().collect());
        vm.run().unwrap();
        assert_eq!(vm.heap_contents(), &vec![value], "{:?}", line);
    }

    let mut vm = Interpreter::from_instructions(config(), vec![push(1), read_int.clone(), exit()]);
    let err = vm.run().unwrap_err();
    assert!(matches!(err.kind, InterpretErrorKind::NumberOutOfBoundsError(_, 1, 0, 0)));
    let mut vm = Interpreter::from_instructions(config(), vec![read_int.clone(), exit()]);
    let err = vm.run().unwrap_err();
    assert!(matches!(err.kind, InterpretErrorKind::StackUnderflow(_)));
}

#[test]
fn reset_restores_the_initial_state() {
    let program = vec![
        push(0),
        push(5),
        plain(ImpKind::Heap, CommandKind::StoreHeap),
        push(9),
        plain(ImpKind::IO, CommandKind::OutInteger),
        push(3),
        exit(),
    ];
    let config = InterpreterConfig::new("p", 4, false, false, false, false);
    let mut vm = Interpreter::from_instructions(config, program);
    vm.run().unwrap();
    assert_eq!(vm.stack_contents(), &vec![3]);
    assert_eq!(vm.heap_contents(), &vec![5, 0, 0, 0]);
    vm.reset();
    assert!(vm.stack_contents().is_empty());
    assert!(vm.call_stack_contents().is_empty());
    assert_eq!(vm.heap_contents(), &vec![0, 0, 0, 0]);
    assert_eq!(vm.instruction_pointer(), 0);
    assert!(!vm.is_done());
    assert!(vm.output().is_empty());
    assert_eq!(vm.instruction_count(), 0);
    assert_eq!(vm.program().len(), 7);
    assert_eq!(vm.next_instruction(), Some(push(0)));
    vm.run().unwrap();
    assert_eq!(vm.stack_contents(), &vec![3]);
    assert_eq!(text(vm.output()), "9");
}

#[test]
fn config_constructors() {
    let c = InterpreterConfig::new("a.ws", 17, true, false, true, false);
    assert_eq!((c.file_name, c.heap_size, c.ir, c.debug, c.debug_heap, c.suppress_output), ("a.ws", 17, true, false, true, false));
    let c = InterpreterConfig::default_heap("a");
    assert_eq!((c.file_name, c.heap_size, c.ir, c.debug, c.debug_heap, c.suppress_output), ("a", 524288, false, false, false, false));
    let c = InterpreterConfig::default_no_heap("a");
    assert_eq!((c.heap_size, c.ir, c.debug, c.debug_heap, c.suppress_output), (0, false, false, false, false));
    let c = InterpreterConfig::default_heap_suppressed("a");
    assert_eq!((c.heap_size, c.ir, c.debug, c.debug_heap, c.suppress_output), (524288, false, false, false, true));
    let c = InterpreterConfig::default_no_heap_suppressed("a");
    assert_eq!((c.heap_size, c.ir, c.debug, c.debug_heap, c.suppress_output), (0, false, false, false, true));
    let c = InterpreterConfig::debug_heap("a");
    assert_eq!((c.heap_size, c.ir, c.debug, c.debug_heap, c.suppress_output), (524288, false, true, true, false));
    let c = InterpreterConfig::debug_no_heap("a");
    assert_eq!((c.heap_size, c.ir, c.debug, c.debug_heap, c.suppress_output), (0, false, true, false, false));
    let c = InterpreterConfig::ir("a");
    assert_eq!((c.heap_size, c.ir, c.debug, c.debug_heap, c.suppress_output), (0, true, false, false, false));
    let vm = Interpreter::from_instructions(InterpreterConfig::ir("b"), vec![]);
    assert!(vm.config().ir);
    assert_eq!(vm.config().file_name, "b");
}

#[test]
fn throw_wraps_the_kind() {
    let r: Result<u8, _> = InterpretErrorKind::StdinError(exit()).throw();
    let e = r.unwrap_err();
    assert_eq!(e.msg, "stdin error");
    assert!(matches!(e.kind, InterpretErrorKind::StdinError(i) if i == exit()));
}

#[test]
fn new_reports_decoding_errors() {
    let config = || InterpreterConfig::default_no_heap("p");
    assert_eq!(Interpreter::new(config(), &ws("T")).err(), Some(ParseErrorKind::UnrecognizedImp));
    assert_eq!(Interpreter::new(config(), &ws("STT")).err(), Some(ParseErrorKind::UnrecognizedCommand));
    assert_eq!(Interpreter::new(config(), &ws("SSSTT")).err(), Some(ParseErrorKind::UnterminatedOperand));
    assert!(Interpreter::new(config(), b"LLL".as_slice()).unwrap().program().is_empty());
    let vm = Interpreter::with_source_type(config(), b"LLL".as_slice(), SourceType::Mnemonic).unwrap();
    assert_eq!(vm.program(), &vec![exit()]);
}

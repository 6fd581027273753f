//! Instructions of the whitespace machine and their mathematical views.
use vstd::prelude::*;

verus! {

/// The five operation families.
#[derive(Clone, Copy, Debug, PartialEq, Eq, Structural)]
pub enum ImpKind {
    Stack,
    Arithmetic,
    Heap,
    Flow,
    IO,
}

/// The commands, partitioned by family.
#[derive(Clone, Copy, Debug, PartialEq, Eq, Structural)]
pub enum CommandKind {
    PushStack,
    DuplicateStack,
    CopyNthStack,
    SwapStack,
    DiscardStack,
    SlideNStack,
    Add,
    Subtract,
    Multiply,
    IntegerDivision,
    Modulo,
    StoreHeap,
    RetrieveHeap,
    Mark,
    Call,
    Jump,
    JumpZero,
    JumpNegative,
    Return,
    Exit,
    OutCharacter,
    OutInteger,
    ReadCharacter,
    ReadInteger,
}

/// The operand of an instruction: a number, or a label (its bits, `true` for
/// a tab) together with the position of the `Mark` that defines it, once
/// the label has been resolved.
#[derive(Clone, Debug, PartialEq, Eq)]
pub enum ParamKind {
    Number(i32),
    Label(Vec<bool>, Option<usize>),
}

/// One decoded instruction.
#[derive(Clone, Debug, PartialEq, Eq)]
pub struct Instruction {
    pub imp: ImpKind,
    pub cmd: CommandKind,
    pub param: Option<ParamKind>,
}

/// What a `ParamKind` stands for.
pub enum ParamView {
    Number(i32),
    Label(Seq<bool>, Option<usize>),
}

/// What an `Instruction` stands for.
pub struct InstructionView {
    pub imp: ImpKind,
    pub cmd: CommandKind,
    pub param: Option<ParamView>,
}

/// Which operand a command is followed by in the source text.
#[derive(Clone, Copy, Debug, PartialEq, Eq, Structural)]
pub enum OperandKind {
    Nothing,
    Number,
    Label,
}

impl View for ParamKind {
    type V = ParamView;

    open spec fn view(&self) -> ParamView {
        match *self {
            ParamKind::Number(n) => ParamView::Number(n),
            ParamKind::Label(bits, target) => ParamView::Label(bits@, target),
        }
    }
}

impl View for Instruction {
    type V = InstructionView;

    open spec fn view(&self) -> InstructionView {
        InstructionView {
            imp: self.imp,
            cmd: self.cmd,
            param: match self.param {
                Some(p) => Some(p@),
                None => None,
            },
        }
    }
}

/// The views of a sequence of instructions, position by position.
pub open spec fn views(instructions: Seq<Instruction>) -> Seq<InstructionView> {
    Seq::new(instructions.len(), |k: int| instructions[k]@)
}

impl InstructionView {
    /// The position this instruction transfers control to, if its operand is a
    /// resolved label.
    pub open spec fn target(self) -> Option<usize> {
        match self.param {
            Some(ParamView::Label(_, t)) => t,
            _ => None,
        }
    }

    /// A resolved label points below `len`.
    pub open spec fn target_below(self, len: int) -> bool {
        self.target() matches Some(t) ==> t < len
    }
}

/// The operand that the source text carries after `cmd`.
pub open spec fn operand_kind_spec(cmd: CommandKind) -> OperandKind {
    match cmd {
        CommandKind::PushStack | CommandKind::CopyNthStack | CommandKind::SlideNStack => OperandKind::Number,
        CommandKind::Mark | CommandKind::Call | CommandKind::Jump | CommandKind::JumpZero
        | CommandKind::JumpNegative => OperandKind::Label,
        _ => OperandKind::Nothing,
    }
}

/// The operand that the source text carries after `cmd`.
pub fn operand_kind(cmd: CommandKind) -> (kind: OperandKind)
    ensures
        kind == operand_kind_spec(cmd),
{
    match cmd {
        CommandKind::PushStack | CommandKind::CopyNthStack | CommandKind::SlideNStack => OperandKind::Number,
        CommandKind::Mark | CommandKind::Call | CommandKind::Jump | CommandKind::JumpZero
        | CommandKind::JumpNegative => OperandKind::Label,
        _ => OperandKind::Nothing,
    }
}

/// A copy of a label's bits.
pub fn copy_bits(bits: &Vec<bool>) -> (copy: Vec<bool>)
    ensures
        copy@ == bits@,
{
    let mut copy: Vec<bool> = Vec::new();
    let mut k: usize = 0;
    while k < bits.len()
        invariant
            k <= bits.len(),
            copy@ == bits@.take(k as int),
        decreases bits.len() - k,
    {
        copy.push(bits[k]);
        k += 1;
        assert(copy@ =~= bits@.take(k as int));
    }
    assert(bits@.take(k as int) =~= bits@);
    copy
}

/// Whether two labels have the same bits.
pub fn same_bits(a: &Vec<bool>, b: &Vec<bool>) -> (same: bool)
    ensures
        same == (a@ == b@),
{
    if a.len() != b.len() {
        return false;
    }
    let mut k: usize = 0;
    while k < a.len()
        invariant
            a.len() == b.len(),
            k <= a.len(),
            forall|j: int| 0 <= j < k ==> a@[j] == b@[j],
        decreases a.len() - k,
    {
        if a[k] != b[k] {
            return false;
        }
        k += 1;
    }
    assert(a@ =~= b@);
    true
}

impl Instruction {
    /// An instruction without an operand.
    pub fn plain(imp: ImpKind, cmd: CommandKind) -> (instr: Instruction)
        ensures
            instr@ == (InstructionView { imp, cmd, param: None }),
    {
        Instruction { imp, cmd, param: None }
    }

    /// An instruction with a number for its operand.
    pub fn with_number(imp: ImpKind, cmd: CommandKind, number: i32) -> (instr: Instruction)
        ensures
            instr@ == (InstructionView { imp, cmd, param: Some(ParamView::Number(number)) }),
    {
        Instruction { imp, cmd, param: Some(ParamKind::Number(number)) }
    }

    /// An instruction with a label for its operand, not yet resolved.
    pub fn with_label(imp: ImpKind, cmd: CommandKind, bits: Vec<bool>) -> (instr: Instruction)
        ensures
            instr@ == (InstructionView { imp, cmd, param: Some(ParamView::Label(bits@, None)) }),
    {
        Instruction { imp, cmd, param: Some(ParamKind::Label(bits, None)) }
    }

    /// A copy of this instruction.
    pub fn duplicate(&self) -> (copy: Instruction)
        ensures
            copy@ == self@,
    {
        let param = match &self.param {
            None => None,
            Some(ParamKind::Number(n)) => Some(ParamKind::Number(*n)),
            Some(ParamKind::Label(bits, target)) => Some(ParamKind::Label(copy_bits(bits), *target)),
        };
        Instruction { imp: self.imp, cmd: self.cmd, param }
    }
}

} // verus!

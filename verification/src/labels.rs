//! Label resolution: every label operand gets the position of the `Mark`
//! that defines the label.
use vstd::prelude::*;
use crate::instruction::{copy_bits, same_bits, views, CommandKind, Instruction, InstructionView, ParamKind, ParamView};

verus! {

/// Whether `i` is a `Mark` of `label`.
pub open spec fn defines(i: InstructionView, label: Seq<bool>) -> bool {
    i.cmd == CommandKind::Mark && match i.param {
        Some(ParamView::Label(bits, _)) => bits == label,
        _ => false,
    }
}

/// The label that the operand of `i` names, if it names one.
pub open spec fn label_of(i: InstructionView) -> Option<Seq<bool>> {
    match i.param {
        Some(ParamView::Label(bits, _)) => Some(bits),
        _ => None,
    }
}

/// The position of the last `Mark` of `label` in `program`.
pub open spec fn label_position(program: Seq<InstructionView>, label: Seq<bool>) -> Option<usize>
    decreases program.len(),
{
    if program.len() == 0 {
        None
    } else if defines(program.last(), label) {
        Some((program.len() - 1) as usize)
    } else {
        label_position(program.drop_last(), label)
    }
}

/// `i` with its label operand, if it has one, pointing to where `program`
/// defines the label; to nothing where it does not.
pub open spec fn resolve_one(program: Seq<InstructionView>, i: InstructionView) -> InstructionView {
    match i.param {
        Some(ParamView::Label(bits, _)) => InstructionView {
            param: Some(ParamView::Label(bits, label_position(program, bits))),
            ..i
        },
        _ => i,
    }
}

/// `program` with every label operand resolved.
pub open spec fn resolved(program: Seq<InstructionView>) -> Seq<InstructionView> {
    Seq::new(program.len(), |k: int| resolve_one(program, program[k]))
}

/// A label's position is that of a `Mark` of the label, the last one; a
/// label has none exactly if the program holds no `Mark` of it.
pub proof fn lemma_label_position(program: Seq<InstructionView>, label: Seq<bool>)
    requires
        program.len() <= usize::MAX,
    ensures
        match label_position(program, label) {
            Some(p) => p < program.len() && defines(program[p as int], label) && forall|k: int|
                p < k < program.len() ==> !defines(#[trigger] program[k], label),
            None => forall|k: int| 0 <= k < program.len() ==> !defines(#[trigger] program[k], label),
        },
    decreases program.len(),
{
    if program.len() > 0 && !defines(program.last(), label) {
        let shorter = program.drop_last();
        lemma_label_position(shorter, label);
        assert(label_position(program, label) == label_position(shorter, label));
        assert(program[program.len() - 1] == program.last());
        match label_position(shorter, label) {
            Some(p) => {
                assert(shorter[p as int] == program[p as int]);
                assert forall|k: int| p < k < program.len() implies !defines(#[trigger] program[k], label) by {
                    if k < shorter.len() {
                        assert(shorter[k] == program[k]);
                    }
                }
            },
            None => {
                assert forall|k: int| 0 <= k < program.len() implies !defines(#[trigger] program[k], label) by {
                    if k < shorter.len() {
                        assert(shorter[k] == program[k]);
                    }
                }
            },
        }
    } else if program.len() > 0 {
        assert(program[program.len() - 1] == program.last());
    }
}

/// Every resolved label points inside the program.
pub proof fn lemma_resolved_targets(program: Seq<InstructionView>)
    requires
        program.len() <= usize::MAX,
    ensures
        resolved(program).len() == program.len(),
        forall|k: int|
            0 <= k < program.len() ==> (#[trigger] resolved(program)[k]).target_below(program.len() as int),
{
    assert forall|k: int| 0 <= k < program.len() implies (#[trigger] resolved(program)[k]).target_below(
        program.len() as int,
    ) by {
        match program[k].param {
            Some(ParamView::Label(bits, _)) => {
                lemma_label_position(program, bits);
            },
            _ => {},
        }
    }
}

/// Resolution does not depend on where a reference stands: a reference to a
/// label that the program marks anywhere, before the reference or after it,
/// is resolved to the last `Mark` of that label, and so any two references to
/// one label get the same position.
pub proof fn lemma_resolution_order_independent(
    program: Seq<InstructionView>,
    reference: int,
    other: int,
    mark: int,
)
    requires
        program.len() <= usize::MAX,
        0 <= reference < program.len(),
        0 <= other < program.len(),
        0 <= mark < program.len(),
        label_of(program[reference]) is Some,
        label_of(program[other]) == label_of(program[reference]),
        defines(program[mark], label_of(program[reference])->0),
    ensures
        resolved(program)[reference].target() == resolved(program)[other].target(),
        resolved(program)[reference].target() == label_position(program, label_of(program[reference])->0),
        resolved(program)[reference].target() matches Some(p) && mark <= p < program.len() && defines(
            program[p as int],
            label_of(program[reference])->0,
        ),
{
    lemma_label_position(program, label_of(program[reference])->0);
}

/// The position of the last `Mark` of `label`.
pub fn find_mark(instructions: &Vec<Instruction>, label: &Vec<bool>) -> (position: Option<usize>)
    ensures
        position == label_position(views(instructions@), label@),
{
    let ghost program = views(instructions@);
    let mut k: usize = instructions.len();
    assert(program.take(k as int) =~= program);
    while k > 0
        invariant
            k <= instructions.len(),
            program == views(instructions@),
            label_position(program, label@) == label_position(program.take(k as int), label@),
        decreases k,
    {
        let instr = &instructions[k - 1];
        assert(program.take(k as int).last() == instr@);
        assert(program.take(k as int).drop_last() =~= program.take(k - 1));
        if instr.cmd == CommandKind::Mark {
            match &instr.param {
                Some(ParamKind::Label(bits, _)) => {
                    if same_bits(bits, label) {
                        return Some(k - 1);
                    }
                },
                _ => {},
            }
        }
        k -= 1;
    }
    None
}

/// Resolves every label operand of the program.
pub fn resolve_labels(instructions: Vec<Instruction>) -> (out: Vec<Instruction>)
    ensures
        views(out@) == resolved(views(instructions@)),
{
    let ghost program = views(instructions@);
    let mut out: Vec<Instruction> = Vec::new();
    let mut k: usize = 0;
    while k < instructions.len()
        invariant
            k <= instructions.len(),
            out.len() == k,
            program == views(instructions@),
            forall|j: int| 0 <= j < k ==> (#[trigger] out[j])@ == resolve_one(program, program[j]),
        decreases instructions.len() - k,
    {
        let instr = &instructions[k];
        let next = match &instr.param {
            Some(ParamKind::Label(bits, _)) => {
                let target = find_mark(&instructions, bits);
                Instruction { imp: instr.imp, cmd: instr.cmd, param: Some(ParamKind::Label(copy_bits(bits), target)) }
            },
            _ => instr.duplicate(),
        };
        assert(next@ == resolve_one(program, program[k as int]));
        out.push(next);
        k += 1;
    }
    assert(views(out@) =~= resolved(program));
    out
}

} // verus!

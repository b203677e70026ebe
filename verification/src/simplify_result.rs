//! What simplifying an instruction can come to.

use crate::constrain::operands_in_graph;
use crate::dfg::GraphView;
use crate::ids::ValueId;
use crate::instruction::{Instruction, InstructionView};
use vstd::prelude::*;

verus! {

/// How an instruction is to be simplified.
#[derive(Debug, PartialEq, Eq)]
pub enum SimplifyResult {
    /// Use this value in place of the instruction's result.
    SimplifiedTo(ValueId),
    /// Use these values in place of the instruction's results, where it has
    /// several.
    SimplifiedToMultiple(Vec<ValueId>),
    /// Put this simpler instruction in its place.
    SimplifiedToInstruction(Instruction),
    /// Put these simpler instructions in its place. Only a constraint
    /// simplifies so.
    SimplifiedToInstructionMultiple(Vec<Instruction>),
    /// Drop the instruction: it does nothing.
    Remove,
    /// The instruction stays as it is.
    Unchanged,
}

/// A [`SimplifyResult`] as a mathematical value.
pub enum SimplifyResultView {
    SimplifiedTo(ValueId),
    SimplifiedToMultiple(Seq<ValueId>),
    SimplifiedToInstruction(InstructionView),
    SimplifiedToInstructionMultiple(Seq<InstructionView>),
    Remove,
    Unchanged,
}

/// The views of a list of instructions.
pub open spec fn instruction_views(instructions: Seq<Instruction>) -> Seq<InstructionView> {
    instructions.map_values(|instruction: Instruction| instruction@)
}

impl View for SimplifyResult {
    type V = SimplifyResultView;

    open spec fn view(&self) -> SimplifyResultView {
        match self {
            SimplifyResult::SimplifiedTo(value) => SimplifyResultView::SimplifiedTo(*value),
            SimplifyResult::SimplifiedToMultiple(values) => SimplifyResultView::SimplifiedToMultiple(
                values@,
            ),
            SimplifyResult::SimplifiedToInstruction(instruction) => {
                SimplifyResultView::SimplifiedToInstruction(instruction@)
            },
            SimplifyResult::SimplifiedToInstructionMultiple(instructions) => {
                SimplifyResultView::SimplifiedToInstructionMultiple(instruction_views(instructions@))
            },
            SimplifyResult::Remove => SimplifyResultView::Remove,
            SimplifyResult::Unchanged => SimplifyResultView::Unchanged,
        }
    }
}

impl SimplifyResultView {
    /// The instructions to put in place of the simplified one, where the
    /// result names any.
    pub open spec fn instructions(self) -> Option<Seq<InstructionView>> {
        match self {
            SimplifyResultView::SimplifiedToInstruction(instruction) => Some(seq![instruction]),
            SimplifyResultView::SimplifiedToInstructionMultiple(instructions) => Some(instructions),
            _ => None,
        }
    }
}

impl SimplifyResultView {
    /// Whether every value that the result names, itself or as an operand
    /// of an instruction, is a value of `graph`.
    pub open spec fn in_graph(self, graph: GraphView) -> bool {
        match self {
            SimplifyResultView::SimplifiedTo(value) => graph.has_value(value),
            SimplifyResultView::SimplifiedToMultiple(values) => graph.has_values(values),
            SimplifyResultView::SimplifiedToInstruction(body) => graph.has_values(body.operands()),
            SimplifyResultView::SimplifiedToInstructionMultiple(list) => operands_in_graph(graph, list),
            _ => true,
        }
    }
}

impl SimplifyResult {
    /// The instructions to put in place of the simplified one, where the
    /// result names any.
    pub fn instructions(self) -> (instructions: Option<Vec<Instruction>>)
        ensures
            match instructions {
                Some(list) => self@.instructions() == Some(instruction_views(list@)),
                None => self@.instructions() is None,
            },
    {
        match self {
            SimplifyResult::SimplifiedToInstruction(instruction) => {
                let mut list: Vec<Instruction> = Vec::new();
                list.push(instruction);
                assert(instruction_views(list@) == seq![instruction@]);
                Some(list)
            },
            SimplifyResult::SimplifiedToInstructionMultiple(instructions) => Some(instructions),
            _ => None,
        }
    }
}

} // verus!

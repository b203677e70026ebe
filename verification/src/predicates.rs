//! What optimization passes ask of an instruction before they merge it with
//! an equal one, drop it, or lower it.

use acvm::acir::BlackBoxFunc;
use crate::dfg::{DataFlowGraph, GraphView};
use crate::instruction::{Instruction, InstructionView};
use crate::intrinsic::Intrinsic;
use crate::value::Value;
use vstd::prelude::*;

verus! {

impl InstructionView {
    /// Whether the back-end must make the instruction depend on the
    /// condition of the `EnableSideEffectsIf` before it: a division, a read
    /// of an array at an index not known to be safe, a write to an array,
    /// an `EnableSideEffectsIf` itself, and a call of a user function or of
    /// one of the intrinsics that insert into or remove from a slice.
    pub open spec fn requires_acir_gen_predicate(self, graph: GraphView) -> bool {
        match self {
            InstructionView::Binary(binary) => binary.operator.divides(),
            InstructionView::ArrayGet { array, index } => !graph.is_safe_index(index, array),
            InstructionView::EnableSideEffectsIf { .. } | InstructionView::ArraySet { .. } => true,
            InstructionView::Call { func, .. } => match graph.value(func) {
                Value::Function(_) => true,
                Value::Intrinsic(intrinsic) => intrinsic is SliceInsert || intrinsic is SliceRemove,
                _ => false,
            },
            _ => false,
        }
    }

    /// Whether two equal instructions may become one. With
    /// `deduplicate_with_predicate` the two are known to stand under the
    /// same `EnableSideEffectsIf` condition.
    pub open spec fn can_be_deduplicated(
        self,
        graph: GraphView,
        deduplicate_with_predicate: bool,
    ) -> bool {
        match self {
            InstructionView::EnableSideEffectsIf { .. }
            | InstructionView::Allocate
            | InstructionView::Load { .. }
            | InstructionView::Store { .. }
            | InstructionView::IncrementRc { .. }
            | InstructionView::DecrementRc { .. } => false,
            InstructionView::Call { func, .. } => match graph.value(func) {
                Value::Intrinsic(intrinsic) => !intrinsic.side_effects(),
                _ => false,
            },
            InstructionView::Constrain(..) | InstructionView::RangeCheck { .. } => {
                deduplicate_with_predicate
            },
            InstructionView::MakeArray { .. } => true,
            InstructionView::Binary(_)
            | InstructionView::Cast(..)
            | InstructionView::Not(_)
            | InstructionView::Truncate { .. }
            | InstructionView::IfElse { .. }
            | InstructionView::ArrayGet { .. }
            | InstructionView::ArraySet { .. } => deduplicate_with_predicate
                || !self.requires_acir_gen_predicate(graph),
        }
    }

    /// Whether the instruction may be dropped once nothing uses its result.
    /// A division stays unless its divisor is a constant other than zero;
    /// a call goes only if it calls an intrinsic that has no side effects
    /// or is one of the two elliptic-curve operations.
    pub open spec fn can_eliminate_if_unused(self, graph: GraphView) -> bool {
        match self {
            InstructionView::Binary(binary) => !binary.operator.divides() || (graph.numeric_constant(
                binary.rhs,
            ) matches Some(divisor) && divisor.value() != 0),
            InstructionView::Cast(..)
            | InstructionView::Not(_)
            | InstructionView::Truncate { .. }
            | InstructionView::Allocate
            | InstructionView::Load { .. }
            | InstructionView::ArrayGet { .. }
            | InstructionView::IfElse { .. }
            | InstructionView::ArraySet { .. }
            | InstructionView::MakeArray { .. } => true,
            InstructionView::Constrain(..)
            | InstructionView::Store { .. }
            | InstructionView::EnableSideEffectsIf { .. }
            | InstructionView::IncrementRc { .. }
            | InstructionView::DecrementRc { .. }
            | InstructionView::RangeCheck { .. } => false,
            InstructionView::Call { func, .. } => match graph.value(func) {
                Value::Intrinsic(intrinsic) => removable_curve_operation(intrinsic)
                    || !intrinsic.side_effects(),
                _ => false,
            },
        }
    }

    /// Whether the instruction calls the intrinsic that inserts into a
    /// slice: it has no side effects and still needs the predicate.
    pub open spec fn calls_slice_insert(self, graph: GraphView) -> bool {
        self matches InstructionView::Call { func, .. } && graph.value(func) == Value::Intrinsic(
            Intrinsic::SliceInsert,
        )
    }

    /// An instruction that may be deduplicated without regard to the
    /// predicate does not depend on the predicate; a call of the intrinsic
    /// that inserts into a slice is the one exception.
    pub proof fn lemma_deduplication_coherent(self, graph: GraphView)
        requires
            !self.calls_slice_insert(graph),
            self.can_be_deduplicated(graph, false),
        ensures
            !self.requires_acir_gen_predicate(graph),
    {
    }

    /// Whoever deduplicates together with the predicate may deduplicate
    /// whatever may be deduplicated without it.
    pub proof fn lemma_deduplication_monotone(self, graph: GraphView)
        requires
            self.can_be_deduplicated(graph, false),
        ensures
            self.can_be_deduplicated(graph, true),
    {
    }
}

/// The two elliptic-curve operations that may be dropped when unused even
/// though they can fail.
pub open spec fn removable_curve_operation(intrinsic: Intrinsic) -> bool {
    intrinsic matches Intrinsic::BlackBox(func) && (func is MultiScalarMul || func
        is EmbeddedCurveAdd)
}

impl Instruction {
    /// Whether the instruction may be replaced by the result of an equal
    /// instruction.
    pub fn can_be_deduplicated(&self, dfg: &DataFlowGraph, deduplicate_with_predicate: bool) -> (can:
        bool)
        requires
            dfg@.wf(),
            dfg@.has_values(self@.operands()),
        ensures
            can == self@.can_be_deduplicated(dfg@, deduplicate_with_predicate),
    {
        match self {
            // These have side effects or work on memory.
            Instruction::EnableSideEffectsIf { .. }
            | Instruction::Allocate
            | Instruction::Load { .. }
            | Instruction::Store { .. }
            | Instruction::IncrementRc { .. }
            | Instruction::DecrementRc { .. } => false,
            Instruction::Call { func, .. } => {
                assert(self@.operands()[0] == *func);
                match dfg.value(*func) {
                    Value::Intrinsic(intrinsic) => !intrinsic.has_side_effects(),
                    _ => false,
                }
            },
            // These depend on the predicate they stand under.
            Instruction::Constrain(..) | Instruction::RangeCheck { .. } => deduplicate_with_predicate,
            Instruction::MakeArray { .. } => true,
            // These may behave differently under another predicate: merging
            // one with an equal one could put a disabled instruction in
            // the place of an enabled one.
            Instruction::Binary(_)
            | Instruction::Cast(..)
            | Instruction::Not(_)
            | Instruction::Truncate { .. }
            | Instruction::IfElse { .. }
            | Instruction::ArrayGet { .. }
            | Instruction::ArraySet { .. } => deduplicate_with_predicate
                || !self.requires_acir_gen_predicate(dfg),
        }
    }

    /// Whether the instruction may be dropped once nothing uses its result.
    pub fn can_eliminate_if_unused(&self, dfg: &DataFlowGraph) -> (can: bool)
        requires
            dfg@.wf(),
            dfg@.has_values(self@.operands()),
        ensures
            can == self@.can_eliminate_if_unused(dfg@),
    {
        match self {
            Instruction::Binary(binary) => {
                if binary.operator.is_division() {
                    assert(self@.operands()[1] == binary.rhs);
                    // A division by zero must stay, to fail when it runs.
                    match dfg.get_numeric_constant(binary.rhs) {
                        Some(divisor) => !divisor.is_zero(),
                        None => false,
                    }
                } else {
                    true
                }
            },
            Instruction::Cast(..)
            | Instruction::Not(_)
            | Instruction::Truncate { .. }
            | Instruction::Allocate
            | Instruction::Load { .. }
            | Instruction::ArrayGet { .. }
            | Instruction::IfElse { .. }
            | Instruction::ArraySet { .. }
            | Instruction::MakeArray { .. } => true,
            Instruction::Constrain(..)
            | Instruction::Store { .. }
            | Instruction::EnableSideEffectsIf { .. }
            | Instruction::IncrementRc { .. }
            | Instruction::DecrementRc { .. }
            | Instruction::RangeCheck { .. } => false,
            Instruction::Call { func, .. } => {
                assert(self@.operands()[0] == *func);
                match dfg.value(*func) {
                    // Unused curve operations may go even though they can fail.
                    Value::Intrinsic(Intrinsic::BlackBox(BlackBoxFunc::MultiScalarMul))
                    | Value::Intrinsic(Intrinsic::BlackBox(BlackBoxFunc::EmbeddedCurveAdd)) => true,
                    Value::Intrinsic(intrinsic) => !intrinsic.has_side_effects(),
                    // A foreign function can hand information to the world
                    // outside, and a user function cannot be looked into.
                    _ => false,
                }
            },
        }
    }

    /// Whether the instruction depends on the `EnableSideEffectsIf`
    /// condition when it is lowered.
    pub fn requires_acir_gen_predicate(&self, dfg: &DataFlowGraph) -> (required: bool)
        requires
            dfg@.wf(),
            dfg@.has_values(self@.operands()),
        ensures
            required == self@.requires_acir_gen_predicate(dfg@),
    {
        match self {
            Instruction::Binary(binary) => binary.operator.is_division(),
            Instruction::ArrayGet { array, index } => {
                assert(self@.operands()[0] == *array && self@.operands()[1] == *index);
                // A read at an index known to be in bounds needs no predicate.
                !dfg.is_safe_index(*index, *array)
            },
            Instruction::EnableSideEffectsIf { .. } | Instruction::ArraySet { .. } => true,
            Instruction::Call { func, .. } => {
                assert(self@.operands()[0] == *func);
                match dfg.value(*func) {
                    Value::Function(_) => true,
                    Value::Intrinsic(intrinsic) => match intrinsic {
                        Intrinsic::SliceInsert | Intrinsic::SliceRemove => true,
                        _ => false,
                    },
                    _ => false,
                }
            },
            Instruction::Cast(..)
            | Instruction::Not(_)
            | Instruction::Truncate { .. }
            | Instruction::Constrain(..)
            | Instruction::RangeCheck { .. }
            | Instruction::Allocate
            | Instruction::Load { .. }
            | Instruction::Store { .. }
            | Instruction::IfElse { .. }
            | Instruction::IncrementRc { .. }
            | Instruction::DecrementRc { .. }
            | Instruction::MakeArray { .. } => false,
        }
    }
}

} // verus!

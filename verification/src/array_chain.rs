//! The two walks back along a chain of array writes: one to find what a
//! read at a constant index reads, one to find that a write only puts back
//! what was read.

use crate::dfg::{DataFlowGraph, GraphView};
use crate::field::FieldElement;
use crate::ids::ValueId;
use crate::instruction::{Instruction, InstructionView};
use crate::simplify_result::{SimplifyResult, SimplifyResultView};
use crate::value::Value;
use crate::vector::{values_get, values_len, vector_values};
use vstd::prelude::*;

verus! {

/// How many definitions a walk looks at before it gives up. The bound
/// keeps simplification fast; it is not needed for correctness.
pub const MAX_TRIES: usize = 5;

/// What a read of `array` at the constant index `target` simplifies to,
/// looking at no more than `tries` definitions.
///
/// A write at another constant index is stepped over. A write at `target`
/// ends the walk without a result: the write may stand under a condition
/// that disables it while the read is enabled, so its value cannot be taken
/// for what is read. A write at an index that is no constant ends the walk
/// too. An array made from its elements gives the element at `target`, if
/// it has one.
pub open spec fn get_after_set(
    graph: GraphView,
    array: ValueId,
    target: FieldElement,
    tries: nat,
) -> SimplifyResultView
    decreases tries,
{
    if tries == 0 {
        SimplifyResultView::Unchanged
    } else {
        match graph.definition(array) {
            Some(InstructionView::ArraySet { array: inner, index, .. }) => match graph.numeric_constant(
                index,
            ) {
                Some(constant) => if constant == target {
                    SimplifyResultView::Unchanged
                } else {
                    get_after_set(graph, inner, target, (tries - 1) as nat)
                },
                None => SimplifyResultView::Unchanged,
            },
            Some(InstructionView::MakeArray { elements, .. }) => if target.value() < elements.len() {
                SimplifyResultView::SimplifiedTo(elements[target.value() as int])
            } else {
                SimplifyResultView::Unchanged
            },
            _ => SimplifyResultView::Unchanged,
        }
    }
}

/// What a write of `value` to `array` at `index` simplifies to because it
/// only puts back what was read.
///
/// `value` must be read from some array at the same `index`. If that array
/// is `array` itself, the write changes nothing and `array` stands for its
/// result. Otherwise `index` must be a constant, and the walk goes back
/// from `array` along writes at other constant indices until one writes to
/// the array that `value` was read from: then, too, `array` stands for the
/// result.
pub open spec fn set_after_get(
    graph: GraphView,
    array: ValueId,
    index: ValueId,
    value: ValueId,
) -> SimplifyResultView {
    match graph.definition(value) {
        Some(InstructionView::ArrayGet { array: read_array, index: read_index }) => {
            if read_array == array && read_index == index {
                SimplifyResultView::SimplifiedTo(array)
            } else if read_index == index {
                match graph.numeric_constant(index) {
                    Some(target) => set_after_get_walk(
                        graph,
                        array,
                        array,
                        target,
                        read_array,
                        MAX_TRIES as nat,
                    ),
                    None => SimplifyResultView::Unchanged,
                }
            } else {
                SimplifyResultView::Unchanged
            }
        },
        _ => SimplifyResultView::Unchanged,
    }
}

/// The walk of [`set_after_get`]: from `current` back along writes at
/// constant indices other than `target`, for no more than `tries`
/// definitions, until a write to `read_array` is found.
pub open spec fn set_after_get_walk(
    graph: GraphView,
    written: ValueId,
    current: ValueId,
    target: FieldElement,
    read_array: ValueId,
    tries: nat,
) -> SimplifyResultView
    decreases tries,
{
    if tries == 0 {
        SimplifyResultView::Unchanged
    } else {
        match graph.definition(current) {
            Some(InstructionView::ArraySet { array: inner, index, .. }) => match graph.numeric_constant(
                index,
            ) {
                Some(constant) => if constant == target {
                    SimplifyResultView::Unchanged
                } else if inner == read_array {
                    SimplifyResultView::SimplifiedTo(written)
                } else {
                    set_after_get_walk(graph, written, inner, target, read_array, (tries - 1) as nat)
                },
                None => SimplifyResultView::Unchanged,
            },
            _ => SimplifyResultView::Unchanged,
        }
    }
}

/// Simplifies a read of `array_id` at the constant index `target_index` by
/// walking back along the writes that made the array.
pub fn try_optimize_array_get_from_previous_set(
    dfg: &DataFlowGraph,
    array_id: ValueId,
    target_index: FieldElement,
) -> (result: SimplifyResult)
    requires
        dfg@.wf(),
        dfg@.has_value(array_id),
    ensures
        result@ == get_after_set(dfg@, array_id, target_index, MAX_TRIES as nat),
        result@.in_graph(dfg@),
{
    let mut current = array_id;
    let mut tries: usize = MAX_TRIES;
    while tries > 0
        invariant
            dfg@.wf(),
            dfg@.has_value(current),
            get_after_set(dfg@, current, target_index, tries as nat) == get_after_set(
                dfg@,
                array_id,
                target_index,
                MAX_TRIES as nat,
            ),
        decreases tries,
    {
        match dfg.value(current) {
            Value::Instruction { instruction, .. } => {
                assert(dfg@.value_closed(dfg@.values[current.0 as int]));
                let body = dfg.instruction(*instruction);
                assert(dfg@.has_values(dfg@.instructions[instruction.0 as int].operands()));
                match body {
                    Instruction::ArraySet { array, index, .. } => {
                        assert(body@.operands()[0] == *array && body@.operands()[1] == *index);
                        match dfg.get_numeric_constant(*index) {
                            Some(constant) => {
                                if constant == target_index {
                                    // The write may be disabled where the
                                    // read is not: its value is not taken.
                                    return SimplifyResult::Unchanged;
                                }
                                current = *array;
                            },
                            None => {
                                return SimplifyResult::Unchanged;
                            },
                        }
                    },
                    Instruction::MakeArray { elements, .. } => {
                        let length = values_len(elements);
                        return match target_index.try_to_u64() {
                            Some(index) => {
                                if index < length as u64 {
                                    assert(body@.operands()[index as int] == vector_values(
                                        *elements,
                                    )[index as int]);
                                    SimplifyResult::SimplifiedTo(values_get(elements, index as usize))
                                } else {
                                    SimplifyResult::Unchanged
                                }
                            },
                            None => SimplifyResult::Unchanged,
                        };
                    },
                    _ => {
                        return SimplifyResult::Unchanged;
                    },
                }
            },
            _ => {
                return SimplifyResult::Unchanged;
            },
        }
        tries -= 1;
    }
    SimplifyResult::Unchanged
}

/// Simplifies a write of `target_value` to `array_id` at `target_index`
/// that only puts back what was read from the same place.
pub fn try_optimize_array_set_from_previous_get(
    dfg: &DataFlowGraph,
    array_id: ValueId,
    target_index: ValueId,
    target_value: ValueId,
) -> (result: SimplifyResult)
    requires
        dfg@.wf(),
        dfg@.has_value(array_id),
        dfg@.has_value(target_index),
        dfg@.has_value(target_value),
    ensures
        result@ == set_after_get(dfg@, array_id, target_index, target_value),
        result@.in_graph(dfg@),
{
    let read_array = match dfg.value(target_value) {
        Value::Instruction { instruction, .. } => {
            assert(dfg@.value_closed(dfg@.values[target_value.0 as int]));
            match dfg.instruction(*instruction) {
                Instruction::ArrayGet { array, index } => {
                    if *array == array_id && *index == target_index {
                        // The write puts back what was read from this array.
                        return SimplifyResult::SimplifiedTo(array_id);
                    } else if *index == target_index {
                        *array
                    } else {
                        return SimplifyResult::Unchanged;
                    }
                },
                _ => {
                    return SimplifyResult::Unchanged;
                },
            }
        },
        _ => {
            return SimplifyResult::Unchanged;
        },
    };
    // The value was read at the index it is written to, but from another
    // array. If only other indices were written between that array and this
    // one, the write still changes nothing.
    let target = match dfg.get_numeric_constant(target_index) {
        Some(target) => target,
        None => {
            return SimplifyResult::Unchanged;
        },
    };
    let mut current = array_id;
    let mut tries: usize = MAX_TRIES;
    while tries > 0
        invariant
            dfg@.wf(),
            dfg@.has_value(current),
            dfg@.has_value(array_id),
            set_after_get_walk(dfg@, array_id, current, target, read_array, tries as nat)
                == set_after_get(dfg@, array_id, target_index, target_value),
        decreases tries,
    {
        match dfg.value(current) {
            Value::Instruction { instruction, .. } => {
                assert(dfg@.value_closed(dfg@.values[current.0 as int]));
                let body = dfg.instruction(*instruction);
                assert(dfg@.has_values(dfg@.instructions[instruction.0 as int].operands()));
                match body {
                    Instruction::ArraySet { array, index, .. } => {
                        assert(body@.operands()[0] == *array && body@.operands()[1] == *index);
                        let constant = match dfg.get_numeric_constant(*index) {
                            Some(constant) => constant,
                            None => {
                                return SimplifyResult::Unchanged;
                            },
                        };
                        if constant == target {
                            return SimplifyResult::Unchanged;
                        }
                        if *array == read_array {
                            return SimplifyResult::SimplifiedTo(array_id);
                        }
                        current = *array;
                    },
                    _ => {
                        return SimplifyResult::Unchanged;
                    },
                }
            },
            _ => {
                return SimplifyResult::Unchanged;
            },
        }
        tries -= 1;
    }
    SimplifyResult::Unchanged
}

} // verus!

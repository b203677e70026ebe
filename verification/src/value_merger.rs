//! Merging the values of the two branches of a conditional into one.

use crate::binary::{Binary, BinaryOp};
use crate::dfg::{DataFlowGraph, GraphView};
use crate::ids::{BasicBlockId, Location, ValueId};
use crate::instruction::{Instruction, InstructionView};
use crate::vector::{call_stack_clone, call_stack_len, call_stack_locations};
use vstd::prelude::*;

verus! {

/// The call stack that the instructions of a merge get: that of the value
/// of the first branch, or that of the second where the first has none.
pub open spec fn merge_call_stack(graph: GraphView, then_value: ValueId, else_value: ValueId) -> Seq<
    Location,
> {
    if graph.value_call_stack(then_value).len() == 0 {
        graph.value_call_stack(else_value)
    } else {
        graph.value_call_stack(then_value)
    }
}

/// The value that merges two numeric values, and the graph that holds it.
///
/// Equal values merge to themselves. Otherwise five instructions are added
/// to `block`: each condition is cast to the type of its value, each value
/// is multiplied by its condition, and the two products are added. The sum
/// `then_value * then_condition + else_value * else_condition` is the
/// merged value.
pub open spec fn merged(
    graph: GraphView,
    block: BasicBlockId,
    then_condition: ValueId,
    else_condition: ValueId,
    then_value: ValueId,
    else_value: ValueId,
) -> (ValueId, GraphView) {
    if then_value == else_value {
        (then_value, graph)
    } else {
        let stack = merge_call_stack(graph, then_value, else_value);
        let first = graph.values.len();
        let then_cast = ValueId(first as usize);
        let else_cast = ValueId((first + 1) as usize);
        let then_product = ValueId((first + 2) as usize);
        let else_product = ValueId((first + 3) as usize);
        let sum = ValueId((first + 4) as usize);
        let graph = graph.inserted(
            InstructionView::Cast(then_condition, graph.type_of_value(then_value)),
            block,
            stack,
        ).inserted(
            InstructionView::Cast(else_condition, graph.type_of_value(else_value)),
            block,
            stack,
        ).inserted(
            InstructionView::Binary(
                Binary { lhs: then_cast, rhs: then_value, operator: BinaryOp::Mul },
            ),
            block,
            stack,
        ).inserted(
            InstructionView::Binary(
                Binary { lhs: else_cast, rhs: else_value, operator: BinaryOp::Mul },
            ),
            block,
            stack,
        ).inserted(
            InstructionView::Binary(
                Binary { lhs: then_product, rhs: else_product, operator: BinaryOp::Add },
            ),
            block,
            stack,
        );
        (sum, graph)
    }
}

/// Merges two numeric values that come from opposite branches of a
/// conditional: the result is `then_value` where `then_condition` is 1 and
/// `else_value` where `else_condition` is 1.
pub fn merge_numeric_values(
    dfg: &mut DataFlowGraph,
    block: BasicBlockId,
    then_condition: ValueId,
    else_condition: ValueId,
    then_value: ValueId,
    else_value: ValueId,
) -> (merged_value: ValueId)
    requires
        old(dfg)@.wf(),
        old(dfg)@.has_block(block),
        old(dfg)@.has_value(then_condition),
        old(dfg)@.has_value(else_condition),
        old(dfg)@.has_value(then_value),
        old(dfg)@.has_value(else_value),
        old(dfg)@.can_grow(5),
    ensures
        final(dfg)@.wf(),
        (merged_value, final(dfg)@) == merged(
            old(dfg)@,
            block,
            then_condition,
            else_condition,
            then_value,
            else_value,
        ),
        final(dfg)@.extends(old(dfg)@),
        final(dfg)@.has_value(merged_value),
{
    if then_value == else_value {
        return then_value;
    }
    let then_type = dfg.type_of_value(then_value);
    let else_type = dfg.type_of_value(else_value);
    let then_stack = dfg.get_value_call_stack(then_value);
    let call_stack = if call_stack_len(&then_stack) == 0 {
        dfg.get_value_call_stack(else_value)
    } else {
        then_stack
    };
    let ghost stack = call_stack_locations(call_stack);
    let ghost start = dfg@;

    // The conditions are booleans: cast each to the type of its value.
    let cast = Instruction::Cast(then_condition, then_type);
    assert(cast@.operands()[0] == then_condition);
    let then_cast = dfg.insert_with_one_result(cast, block, call_stack_clone(&call_stack));
    let ghost one = dfg@;

    let cast = Instruction::Cast(else_condition, else_type);
    assert(cast@.operands()[0] == else_condition);
    let else_cast = dfg.insert_with_one_result(cast, block, call_stack_clone(&call_stack));
    let ghost two = dfg@;

    let product = Instruction::binary(BinaryOp::Mul, then_cast, then_value);
    assert(product@.operands()[0] == then_cast && product@.operands()[1] == then_value);
    let then_product = dfg.insert_with_one_result(product, block, call_stack_clone(&call_stack));
    let ghost three = dfg@;

    let product = Instruction::binary(BinaryOp::Mul, else_cast, else_value);
    assert(product@.operands()[0] == else_cast && product@.operands()[1] == else_value);
    let else_product = dfg.insert_with_one_result(product, block, call_stack_clone(&call_stack));
    let ghost four = dfg@;

    let sum = Instruction::binary(BinaryOp::Add, then_product, else_product);
    assert(sum@.operands()[0] == then_product && sum@.operands()[1] == else_product);
    let merged_value = dfg.insert_with_one_result(sum, block, call_stack);
    merged_value
}

} // verus!

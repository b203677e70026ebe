//! The simplification of one instruction against the graph it is about to
//! enter: a table of local rewrites, one entry for each kind of
//! instruction.

use crate::array_chain::{
    get_after_set, set_after_get, try_optimize_array_get_from_previous_set,
    try_optimize_array_set_from_previous_get, MAX_TRIES,
};
use crate::binary::{to_constant, to_value, unchanged, Binary, BinaryOp};
use crate::call::{call_simplified, simplify_call};
use crate::cast::{cast_simplified, simplify_cast};
use crate::constrain::{decompose_constrain, decomposed};
use crate::dfg::{typevars_view, DataFlowGraph, GraphView};
use crate::field::{bit_length, not_u128, truncate_u128, two_pow_128, FieldElement};
use crate::ids::{BasicBlockId, InstructionId, Location, ValueId};
use crate::instruction::{Instruction, InstructionView};
use crate::simplify_result::{SimplifyResult, SimplifyResultView};
use crate::types::Type;
use crate::value::Value;
use crate::value_merger::{merge_numeric_values, merged};
use crate::vector::{
    call_stack_clone, call_stack_locations, values_len, values_update, vector_values, CallStack,
};
use vstd::arithmetic::power2::pow2;
use vstd::prelude::*;

verus! {

/// How many values and instructions one simplification can add to a graph.
pub open spec fn growth() -> nat {
    5
}

/// The unsigned `bits`-bit number with every bit of `constant` flipped.
pub open spec fn flipped(constant: FieldElement, bits: u32) -> nat {
    ((two_pow_128() - 1 - constant.value() % two_pow_128()) as nat) % pow2(bits as nat)
}

/// The low `bits` bits of the low 128 bits of `constant`.
pub open spec fn truncated(constant: FieldElement, bits: u32) -> nat {
    (constant.value() % two_pow_128()) % pow2(bits as nat)
}

/// What `Not(value)` simplifies to, and the graph after. The negation of
/// an unsigned constant is a new constant of its type; no other constant
/// is folded, since flipping the bits of its 128-bit image would get the
/// high bits wrong. The negation of a negation is what was negated first.
pub open spec fn not_simplified(graph: GraphView, value: ValueId) -> (SimplifyResultView, GraphView) {
    match graph.value(graph.resolve(value)) {
        Value::NumericConstant { constant, typ } => if typ.unsigned_int() {
            to_constant(graph, FieldElement::of(flipped(constant, typ.bits())), typ)
        } else {
            unchanged(graph)
        },
        Value::Instruction { instruction, .. } => match graph.instruction(instruction) {
            InstructionView::Not(inner) => to_value(graph, inner),
            _ => unchanged(graph),
        },
        _ => unchanged(graph),
    }
}

/// What `Truncate { value, bit_size, max_bit_size }` simplifies to, and the
/// graph after.
///
/// - Where both sizes are equal nothing is cut off: `value` stays.
/// - A constant is cut to a new constant of its type.
/// - The result of a truncation to no more bits than either size is
///   already short enough.
/// - The quotient of a division by a constant has at most as many bits as
///   the dividend's type less the bit length of the divisor; where that
///   is less than `bit_size`, nothing is cut off.
pub open spec fn truncate_simplified(
    graph: GraphView,
    value: ValueId,
    bit_size: u32,
    max_bit_size: u32,
) -> (SimplifyResultView, GraphView) {
    if bit_size == max_bit_size {
        to_value(graph, value)
    } else {
        match graph.numeric_constant_with_type(value) {
            Some((constant, typ)) => to_constant(
                graph,
                FieldElement::of(truncated(constant, bit_size)),
                typ,
            ),
            None => match graph.definition(graph.resolve(value)) {
                Some(InstructionView::Truncate { bit_size: source_bit_size, .. }) => {
                    if source_bit_size <= bit_size && source_bit_size <= max_bit_size {
                        to_value(graph, value)
                    } else {
                        unchanged(graph)
                    }
                },
                Some(InstructionView::Binary(binary)) => {
                    if binary.operator is Div && (graph.numeric_constant(binary.rhs) matches Some(
                        divisor,
                    ) && graph.type_of_value(binary.lhs).bits() - bit_length(divisor.value())
                        < bit_size) {
                        to_value(graph, value)
                    } else {
                        unchanged(graph)
                    }
                },
                _ => unchanged(graph),
            },
        }
    }
}

/// What `ArraySet { array, index, value }` simplifies to, and the graph
/// after. A write at a constant index into an array made from its elements
/// makes a new array, the same but for `value` at `index`, at the end of
/// `block`. Any other write is simplified only if it puts back what was
/// read ([`set_after_get`]).
pub open spec fn array_set_simplified(
    graph: GraphView,
    block: BasicBlockId,
    call_stack: Seq<Location>,
    array: ValueId,
    index: ValueId,
    value: ValueId,
) -> (SimplifyResultView, GraphView) {
    match (graph.array_constant(array), graph.numeric_constant(index)) {
        (Some((elements, _)), Some(constant)) => if constant.value() < elements.len() {
            (
                SimplifyResultView::SimplifiedTo(ValueId(graph.values.len() as usize)),
                graph.inserted(
                    InstructionView::MakeArray {
                        elements: elements.update(constant.value() as int, value),
                        typ: graph.type_of_value(array),
                    },
                    block,
                    call_stack,
                ),
            )
        } else {
            (set_after_get(graph, array, index, value), graph)
        },
        _ => (set_after_get(graph, array, index, value), graph),
    }
}

/// What `EnableSideEffectsIf { condition }` simplifies to, and the graph
/// after. Where the last instruction of `block` is of the same kind, that
/// one takes `condition` and this one goes: of two conditions with nothing
/// between them only the second counts.
pub open spec fn enable_side_effects_simplified(
    graph: GraphView,
    block: BasicBlockId,
    condition: ValueId,
) -> (SimplifyResultView, GraphView) {
    let instructions = graph.blocks[block.0 as int].instructions;
    if instructions.len() > 0 && graph.instruction(instructions.last())
        is EnableSideEffectsIf {
        (
            SimplifyResultView::Remove,
            graph.with_instruction_set(
                instructions.last(),
                InstructionView::EnableSideEffectsIf { condition },
            ),
        )
    } else {
        unchanged(graph)
    }
}

/// What `IfElse` simplifies to, and the graph after. A constant condition
/// picks its branch: `then_value` for 1, `else_value` for 0. Branches that
/// resolve to the same value give that value. Otherwise numeric values are
/// merged ([`merged`]); values of any other type are not.
pub open spec fn if_else_simplified(
    graph: GraphView,
    block: BasicBlockId,
    then_condition: ValueId,
    then_value: ValueId,
    else_condition: ValueId,
    else_value: ValueId,
) -> (SimplifyResultView, GraphView) {
    let constant = graph.numeric_constant(then_condition);
    if constant matches Some(c) && c.value() == 1 {
        to_value(graph, then_value)
    } else if constant matches Some(c) && c.value() == 0 {
        to_value(graph, else_value)
    } else if graph.resolve(then_value) == graph.resolve(else_value) {
        to_value(graph, graph.resolve(then_value))
    } else if graph.type_of_value(then_value) is Numeric {
        let (value, graph) = merged(
            graph,
            block,
            then_condition,
            else_condition,
            graph.resolve(then_value),
            graph.resolve(else_value),
        );
        (SimplifyResultView::SimplifiedTo(value), graph)
    } else {
        unchanged(graph)
    }
}

impl InstructionView {
    /// Whether the instruction writes to an array made from its elements
    /// at a constant index that does not fit 32 bits. An index of an array
    /// fits 32 bits: a graph that holds such a write is ill-typed, and
    /// [`Instruction::simplify`] does not take it.
    pub open spec fn writes_beyond_any_array(self, graph: GraphView) -> bool {
        self matches InstructionView::ArraySet { array, index, .. } && graph.array_constant(array)
            is Some && (graph.numeric_constant(index) matches Some(constant) && constant.value()
            > u32::MAX)
    }

    /// What the instruction simplifies to before it enters `block` of
    /// `graph`, and the graph after.
    pub open spec fn simplified(
        self,
        graph: GraphView,
        block: BasicBlockId,
        ctrl_typevars: Option<Seq<Type>>,
        call_stack: Seq<Location>,
    ) -> (SimplifyResultView, GraphView) {
        match self {
            InstructionView::Binary(binary) => binary.simplified(graph),
            InstructionView::Cast(value, typ) => cast_simplified(graph, value, typ),
            InstructionView::Not(value) => not_simplified(graph, value),
            InstructionView::Constrain(lhs, rhs, error) => {
                let (constraints, graph) = decomposed(graph, lhs, rhs, error);
                if constraints.len() == 0 {
                    (SimplifyResultView::Remove, graph)
                } else {
                    (SimplifyResultView::SimplifiedToInstructionMultiple(constraints), graph)
                }
            },
            InstructionView::ArrayGet { array, index } => match graph.numeric_constant(index) {
                Some(constant) => (get_after_set(graph, array, constant, MAX_TRIES as nat), graph),
                None => unchanged(graph),
            },
            InstructionView::ArraySet { array, index, value, .. } => array_set_simplified(
                graph,
                block,
                call_stack,
                array,
                index,
                value,
            ),
            InstructionView::Truncate { value, bit_size, max_bit_size } => truncate_simplified(
                graph,
                value,
                bit_size,
                max_bit_size,
            ),
            InstructionView::Call { func, arguments } => call_simplified(
                graph,
                func,
                arguments,
                ctrl_typevars,
            ),
            InstructionView::EnableSideEffectsIf { condition } => enable_side_effects_simplified(
                graph,
                block,
                condition,
            ),
            InstructionView::RangeCheck { value, max_bit_size, .. } => {
                if graph.max_num_bits(value) < max_bit_size {
                    (SimplifyResultView::Remove, graph)
                } else {
                    unchanged(graph)
                }
            },
            InstructionView::IfElse {
                then_condition,
                then_value,
                else_condition,
                else_value,
            } => if_else_simplified(
                graph,
                block,
                then_condition,
                then_value,
                else_condition,
                else_value,
            ),
            InstructionView::Allocate
            | InstructionView::Load { .. }
            | InstructionView::Store { .. }
            | InstructionView::IncrementRc { .. }
            | InstructionView::DecrementRc { .. }
            | InstructionView::MakeArray { .. } => unchanged(graph),
        }
    }

    /// A truncation that cuts nothing off simplifies to the value it was
    /// asked to truncate: so does the outer of two truncations to the same
    /// size.
    pub proof fn lemma_truncate_to_full_size(
        graph: GraphView,
        block: BasicBlockId,
        ctrl_typevars: Option<Seq<Type>>,
        call_stack: Seq<Location>,
        value: ValueId,
        bit_size: u32,
    )
        ensures
            (InstructionView::Truncate { value, bit_size, max_bit_size: bit_size }).simplified(
                graph,
                block,
                ctrl_typevars,
                call_stack,
            ) == (SimplifyResultView::SimplifiedTo(value), graph),
    {
    }

    /// A truncation of the result of a truncation to no more bits
    /// simplifies to that result.
    pub proof fn lemma_truncate_of_truncate(
        graph: GraphView,
        block: BasicBlockId,
        ctrl_typevars: Option<Seq<Type>>,
        call_stack: Seq<Location>,
        value: ValueId,
        bit_size: u32,
        max_bit_size: u32,
    )
        requires
            graph.numeric_constant_with_type(value) is None,
            graph.definition(graph.resolve(value)) matches Some(
                InstructionView::Truncate { bit_size: inner, .. },
            ) && inner <= bit_size && inner <= max_bit_size,
        ensures
            (InstructionView::Truncate { value, bit_size, max_bit_size }).simplified(
                graph,
                block,
                ctrl_typevars,
                call_stack,
            ) == (SimplifyResultView::SimplifiedTo(value), graph),
    {
    }

    /// The negation of a negation simplifies to what was negated first.
    pub proof fn lemma_double_negation(
        graph: GraphView,
        block: BasicBlockId,
        ctrl_typevars: Option<Seq<Type>>,
        call_stack: Seq<Location>,
        outer: ValueId,
        inner: ValueId,
    )
        requires
            graph.definition(graph.resolve(outer)) == Some(InstructionView::Not(inner)),
        ensures
            InstructionView::Not(outer).simplified(graph, block, ctrl_typevars, call_stack) == (
                SimplifyResultView::SimplifiedTo(inner),
                graph,
            ),
    {
    }
}

impl GraphView {
    /// Whether this graph holds every value, replacement and block
    /// parameter of `before` as `before` holds it, every instruction of
    /// `before` but perhaps `changed` with the same body, and perhaps more
    /// of each.
    pub open spec fn keeps_all_but(self, before: GraphView, changed: Option<InstructionId>) -> bool {
        &&& before.values.len() <= self.values.len()
        &&& before.replaced.len() <= self.replaced.len()
        &&& before.instructions.len() <= self.instructions.len()
        &&& before.blocks.len() == self.blocks.len()
        &&& forall|v: int| 0 <= v < before.values.len() ==> #[trigger] self.values[v] == before.values[v]
        &&& forall|v: int|
            0 <= v < before.replaced.len() ==> #[trigger] self.replaced[v] == before.replaced[v]
        &&& forall|i: int|
            0 <= i < before.instructions.len() && changed != Some(InstructionId(i as usize))
                ==> #[trigger] self.instructions[i] == before.instructions[i]
        &&& forall|b: int|
            0 <= b < before.blocks.len() ==> (#[trigger] self.blocks[b]).parameters
                == before.blocks[b].parameters
    }
}

impl InstructionView {
    /// The instruction whose body a simplification of this one may set
    /// anew: the last of `block`, where this one and that one are both an
    /// `EnableSideEffectsIf`.
    pub open spec fn coalesces_with(self, graph: GraphView, block: BasicBlockId) -> Option<
        InstructionId,
    > {
        let instructions = graph.blocks[block.0 as int].instructions;
        if self is EnableSideEffectsIf && instructions.len() > 0 && graph.instruction(
            instructions.last(),
        ) is EnableSideEffectsIf {
            Some(instructions.last())
        } else {
            None
        }
    }

    /// A simplification only adds to the graph: every value, every
    /// replacement and every instruction stays as it was, but for the one
    /// `EnableSideEffectsIf` that takes the condition of the one after it.
    pub proof fn lemma_simplified_only_adds(
        self,
        graph: GraphView,
        block: BasicBlockId,
        ctrl_typevars: Option<Seq<Type>>,
        call_stack: Seq<Location>,
    )
        requires
            graph.wf(),
            graph.has_block(block),
        ensures
            self.simplified(graph, block, ctrl_typevars, call_stack).1.keeps_all_but(
                graph,
                self.coalesces_with(graph, block),
            ),
    {
        graph.lemma_keeps_itself();
        match self {
            InstructionView::Binary(binary) => {
                lemma_binary_only_adds(graph, binary);
            },
            InstructionView::Cast(value, typ) => {
                lemma_cast_only_adds(graph, value, typ);
            },
            InstructionView::Not(value) => {
                lemma_not_only_adds(graph, value);
            },
            InstructionView::Constrain(lhs, rhs, error) => {
                lemma_constrain_only_adds(graph, lhs, rhs, error);
            },
            InstructionView::ArraySet { array, index, value, .. } => {
                lemma_array_set_only_adds(graph, block, call_stack, array, index, value);
            },
            InstructionView::Truncate { value, bit_size, max_bit_size } => {
                lemma_truncate_only_adds(graph, value, bit_size, max_bit_size);
            },
            InstructionView::Call { func, arguments } => {
                lemma_call_only_adds(graph, func, arguments, ctrl_typevars);
            },
            InstructionView::EnableSideEffectsIf { condition } => {},
            InstructionView::IfElse { then_condition, then_value, else_condition, else_value } => {
                if graph.type_of_value(then_value) is Numeric {
                    lemma_merged_only_adds(
                        graph,
                        block,
                        then_condition,
                        else_condition,
                        graph.resolve(then_value),
                        graph.resolve(else_value),
                    );
                }
            },
            _ => {},
        }
    }
}

impl GraphView {
    /// A graph keeps all that it holds.
    pub proof fn lemma_keeps_itself(self)
        ensures
            self.keeps_all_but(self, None),
    {
    }

    /// A graph with one more value keeps all that the graph holds.
    pub proof fn lemma_with_value_keeps(self, value: Value)
        requires
            self.wf(),
        ensures
            self.with_value(value).keeps_all_but(self, None),
    {
    }

    /// What keeps all of a graph that keeps all of a third keeps all of
    /// the third.
    pub proof fn lemma_keeps_through(self, middle: GraphView, before: GraphView)
        requires
            self.keeps_all_but(middle, None),
            middle.keeps_all_but(before, None),
        ensures
            self.keeps_all_but(before, None),
    {
        assert forall|v: int| 0 <= v < before.values.len() implies #[trigger] self.values[v]
            == before.values[v] by {
            assert(middle.values[v] == before.values[v]);
        }
        assert forall|v: int| 0 <= v < before.replaced.len() implies #[trigger] self.replaced[v]
            == before.replaced[v] by {
            assert(middle.replaced[v] == before.replaced[v]);
        }
        assert forall|i: int| 0 <= i < before.instructions.len() implies #[trigger] self.instructions[i]
            == before.instructions[i] by {
            assert(middle.instructions[i] == before.instructions[i]);
        }
        assert forall|b: int| 0 <= b < before.blocks.len() implies (#[trigger] self.blocks[b]).parameters
            == before.blocks[b].parameters by {
            assert(middle.blocks[b].parameters == before.blocks[b].parameters);
        }
    }
}

proof fn lemma_binary_only_adds(graph: GraphView, binary: Binary)
    requires
        graph.wf(),
    ensures
        binary.simplified(graph).1.keeps_all_but(graph, None),
{
    graph.lemma_keeps_itself();
    let after = binary.simplified(graph).1;
    if after != graph {
        let value = after.values.last();
        assert(after == graph.with_value(value));
        graph.lemma_with_value_keeps(value);
    }
}

proof fn lemma_cast_only_adds(graph: GraphView, value: ValueId, typ: Type)
    requires
        graph.wf(),
    ensures
        cast_simplified(graph, value, typ).1.keeps_all_but(graph, None),
{
    graph.lemma_keeps_itself();
    let after = cast_simplified(graph, value, typ).1;
    if after != graph {
        let added = after.values.last();
        assert(after == graph.with_value(added));
        graph.lemma_with_value_keeps(added);
    }
}

proof fn lemma_not_only_adds(graph: GraphView, value: ValueId)
    requires
        graph.wf(),
    ensures
        not_simplified(graph, value).1.keeps_all_but(graph, None),
{
    graph.lemma_keeps_itself();
    let after = not_simplified(graph, value).1;
    if after != graph {
        let added = after.values.last();
        assert(after == graph.with_value(added));
        graph.lemma_with_value_keeps(added);
    }
}

proof fn lemma_truncate_only_adds(graph: GraphView, value: ValueId, bit_size: u32, max_bit_size: u32)
    requires
        graph.wf(),
    ensures
        truncate_simplified(graph, value, bit_size, max_bit_size).1.keeps_all_but(graph, None),
{
    graph.lemma_keeps_itself();
    let after = truncate_simplified(graph, value, bit_size, max_bit_size).1;
    if after != graph {
        let added = after.values.last();
        assert(after == graph.with_value(added));
        graph.lemma_with_value_keeps(added);
    }
}

proof fn lemma_constrain_only_adds(
    graph: GraphView,
    lhs: ValueId,
    rhs: ValueId,
    error: Option<crate::error::ConstrainErrorView>,
)
    requires
        graph.wf(),
    ensures
        decomposed(graph, lhs, rhs, error).1.keeps_all_but(graph, None),
{
    graph.lemma_keeps_itself();
    let after = decomposed(graph, lhs, rhs, error).1;
    if after != graph {
        let added = after.values.last();
        assert(after == graph.with_value(added));
        graph.lemma_with_value_keeps(added);
    }
}

proof fn lemma_call_only_adds(
    graph: GraphView,
    func: ValueId,
    arguments: Seq<ValueId>,
    ctrl_typevars: Option<Seq<Type>>,
)
    requires
        graph.wf(),
    ensures
        call_simplified(graph, func, arguments, ctrl_typevars).1.keeps_all_but(graph, None),
{
    graph.lemma_keeps_itself();
    let after = call_simplified(graph, func, arguments, ctrl_typevars).1;
    if after != graph {
        let added = after.values.last();
        assert(after == graph.with_value(added));
        graph.lemma_with_value_keeps(added);
    }
}

proof fn lemma_array_set_only_adds(
    graph: GraphView,
    block: BasicBlockId,
    call_stack: Seq<Location>,
    array: ValueId,
    index: ValueId,
    value: ValueId,
)
    requires
        graph.wf(),
        graph.has_block(block),
    ensures
        array_set_simplified(graph, block, call_stack, array, index, value).1.keeps_all_but(
            graph,
            None,
        ),
{
    graph.lemma_keeps_itself();
    if let (Some((elements, _)), Some(constant)) = (
        graph.array_constant(array),
        graph.numeric_constant(index),
    ) {
        if constant.value() < elements.len() {
            lemma_inserted_shape(
                graph,
                InstructionView::MakeArray {
                    elements: elements.update(constant.value() as int, value),
                    typ: graph.type_of_value(array),
                },
                block,
                call_stack,
            );
        }
    }
}

proof fn lemma_merged_only_adds(
    graph: GraphView,
    block: BasicBlockId,
    then_condition: ValueId,
    else_condition: ValueId,
    then_value: ValueId,
    else_value: ValueId,
)
    requires
        graph.wf(),
        graph.has_block(block),
    ensures
        merged(graph, block, then_condition, else_condition, then_value, else_value).1.keeps_all_but(
            graph,
            None,
        ),
{
    graph.lemma_keeps_itself();
    if then_value != else_value {
        let stack = crate::value_merger::merge_call_stack(graph, then_value, else_value);
        let first = graph.values.len();
        let body_one = InstructionView::Cast(then_condition, graph.type_of_value(then_value));
        let body_two = InstructionView::Cast(else_condition, graph.type_of_value(else_value));
        let body_three = InstructionView::Binary(
            Binary { lhs: ValueId(first as usize), rhs: then_value, operator: BinaryOp::Mul },
        );
        let body_four = InstructionView::Binary(
            Binary { lhs: ValueId((first + 1) as usize), rhs: else_value, operator: BinaryOp::Mul },
        );
        let body_five = InstructionView::Binary(
            Binary {
                lhs: ValueId((first + 2) as usize),
                rhs: ValueId((first + 3) as usize),
                operator: BinaryOp::Add,
            },
        );
        let one = graph.inserted(body_one, block, stack);
        let two = one.inserted(body_two, block, stack);
        let three = two.inserted(body_three, block, stack);
        let four = three.inserted(body_four, block, stack);
        let five = four.inserted(body_five, block, stack);
        lemma_inserted_shape(graph, body_one, block, stack);
        lemma_inserted_shape(one, body_two, block, stack);
        lemma_inserted_shape(two, body_three, block, stack);
        lemma_inserted_shape(three, body_four, block, stack);
        lemma_inserted_shape(four, body_five, block, stack);
        two.lemma_keeps_through(one, graph);
        three.lemma_keeps_through(two, graph);
        four.lemma_keeps_through(three, graph);
        five.lemma_keeps_through(four, graph);
    }
}

/// A graph with one more instruction keeps all that the graph holds, and
/// is as long in each of its parts as it must be to take the next.
proof fn lemma_inserted_shape(
    graph: GraphView,
    body: InstructionView,
    block: BasicBlockId,
    call_stack: Seq<Location>,
)
    requires
        graph.replaced.len() == graph.values.len(),
        graph.has_block(block),
    ensures
        graph.inserted(body, block, call_stack).keeps_all_but(graph, None),
        graph.inserted(body, block, call_stack).replaced.len() == graph.inserted(
            body,
            block,
            call_stack,
        ).values.len(),
        graph.inserted(body, block, call_stack).has_block(block),
{
}

impl Instruction {
    /// Simplifies the instruction before it enters `block`. The result
    /// names what stands for it; `Unchanged` says that it stays as it is.
    /// The graph changes only where the simplification needs a new constant
    /// or new instructions, and where an `EnableSideEffectsIf` hands its
    /// condition to the one just before it.
    pub fn simplify(
        &self,
        dfg: &mut DataFlowGraph,
        block: BasicBlockId,
        ctrl_typevars: Option<Vec<Type>>,
        call_stack: &CallStack,
    ) -> (result: SimplifyResult)
        requires
            old(dfg)@.wf(),
            old(dfg)@.has_block(block),
            old(dfg)@.has_values(self@.operands()),
            old(dfg)@.can_grow(growth()),
            !self@.writes_beyond_any_array(old(dfg)@),
        ensures
            final(dfg)@.wf(),
            (result@, final(dfg)@) == self@.simplified(
                old(dfg)@,
                block,
                typevars_view(ctrl_typevars),
                call_stack_locations(*call_stack),
            ),
            final(dfg)@.values.len() >= old(dfg)@.values.len(),
            final(dfg)@.instructions.len() >= old(dfg)@.instructions.len(),
            final(dfg)@.blocks.len() == old(dfg)@.blocks.len(),
            result@.in_graph(final(dfg)@),
    {
        let ghost before = dfg@;
        let ghost operands = self@.operands();
        match self {
            Instruction::Binary(binary) => {
                assert(operands[0] == binary.lhs && operands[1] == binary.rhs);
                binary.simplify(dfg)
            },
            Instruction::Cast(value, typ) => {
                assert(operands[0] == *value);
                simplify_cast(*value, typ, dfg)
            },
            Instruction::Not(value) => {
                assert(operands[0] == *value);
                proof {
                    before.lemma_resolve_in_graph(*value);
                }
                let resolved = dfg.resolve(*value);
                match dfg.value(resolved) {
                    Value::NumericConstant { constant, typ } => {
                        if typ.is_unsigned() {
                            // Only the bits of the type are flipped.
                            let flipped = truncate_u128(not_u128(constant.to_u128()), typ.bit_size());
                            let typ = typ.clone();
                            SimplifyResult::SimplifiedTo(
                                dfg.make_constant(FieldElement::from_u128(flipped), typ),
                            )
                        } else {
                            SimplifyResult::Unchanged
                        }
                    },
                    Value::Instruction { instruction, .. } => {
                        assert(before.value_closed(before.values[resolved.0 as int]));
                        // !!v => v
                        match dfg.instruction(*instruction) {
                            Instruction::Not(inner) => {
                                assert(before.has_values(
                                    before.instructions[instruction.0 as int].operands(),
                                ));
                                assert(before.instructions[instruction.0 as int].operands()[0]
                                    == *inner);
                                SimplifyResult::SimplifiedTo(*inner)
                            },
                            _ => SimplifyResult::Unchanged,
                        }
                    },
                    _ => SimplifyResult::Unchanged,
                }
            },
            Instruction::Constrain(lhs, rhs, msg) => {
                let constraints = decompose_constrain(*lhs, *rhs, msg, dfg);
                if constraints.len() == 0 {
                    SimplifyResult::Remove
                } else {
                    SimplifyResult::SimplifiedToInstructionMultiple(constraints)
                }
            },
            Instruction::ArrayGet { array, index } => {
                assert(operands[0] == *array && operands[1] == *index);
                match dfg.get_numeric_constant(*index) {
                    Some(constant) => try_optimize_array_get_from_previous_set(dfg, *array, constant),
                    None => SimplifyResult::Unchanged,
                }
            },
            Instruction::ArraySet { array: array_id, index: index_id, value, .. } => {
                assert(operands[0] == *array_id && operands[1] == *index_id && operands[2] == *value);
                let array = dfg.get_array_constant(*array_id);
                let index = dfg.get_numeric_constant(*index_id);
                if let (Some((array, _)), Some(index)) = (array, index) {
                    if let Some(index) = index.try_to_u32() {
                        let index = index as usize;
                        if index < values_len(&array) {
                            let elements = values_update(&array, index, *value);
                            let typ = dfg.type_of_value(*array_id);
                            let instruction = Instruction::MakeArray { elements, typ };
                            proof {
                                lemma_array_constant_in_graph(before, *array_id);
                                assert forall|k: int|
                                    0 <= k < instruction@.operands().len() implies before.has_value(
                                    #[trigger] instruction@.operands()[k],
                                ) by {
                                    if k != index {
                                        assert(instruction@.operands()[k] == vector_values(array)[k]);
                                    }
                                }
                            }
                            let new_array = dfg.insert_with_one_result(
                                instruction,
                                block,
                                call_stack_clone(call_stack),
                            );
                            return SimplifyResult::SimplifiedTo(new_array);
                        }
                    }
                }
                try_optimize_array_set_from_previous_get(dfg, *array_id, *index_id, *value)
            },
            Instruction::Truncate { value, bit_size, max_bit_size } => {
                assert(operands[0] == *value);
                if *bit_size == *max_bit_size {
                    return SimplifyResult::SimplifiedTo(*value);
                }
                if let Some((constant, typ)) = dfg.get_numeric_constant_with_type(*value) {
                    let truncated = truncate_u128(constant.to_u128(), *bit_size);
                    return SimplifyResult::SimplifiedTo(
                        dfg.make_constant(FieldElement::from_u128(truncated), typ),
                    );
                }
                proof {
                    before.lemma_resolve_in_graph(*value);
                }
                let resolved = dfg.resolve(*value);
                if let Value::Instruction { instruction, .. } = dfg.value(resolved) {
                    assert(before.value_closed(before.values[resolved.0 as int]));
                    assert(before.has_values(before.instructions[instruction.0 as int].operands()));
                    match dfg.instruction(*instruction) {
                        Instruction::Truncate { bit_size: source_bit_size, .. } => {
                            // A value cut to fewer bits is short enough.
                            if *source_bit_size <= *bit_size && *source_bit_size <= *max_bit_size {
                                SimplifyResult::SimplifiedTo(*value)
                            } else {
                                SimplifyResult::Unchanged
                            }
                        },
                        Instruction::Binary(Binary { lhs, rhs, operator: BinaryOp::Div }) => {
                            assert(before.instructions[instruction.0 as int].operands()[0] == *lhs
                                && before.instructions[instruction.0 as int].operands()[1] == *rhs);
                            match dfg.get_numeric_constant(*rhs) {
                                Some(divisor) => {
                                    // 2^quotient_bits = 2^numerator_bits / 2^divisor_bits
                                    let numerator_bits = dfg.type_of_value(*lhs).bit_size();
                                    let divisor_bits = divisor.num_bits();
                                    if (numerator_bits as u64) < *bit_size as u64 + divisor_bits as u64 {
                                        SimplifyResult::SimplifiedTo(*value)
                                    } else {
                                        SimplifyResult::Unchanged
                                    }
                                },
                                None => SimplifyResult::Unchanged,
                            }
                        },
                        _ => SimplifyResult::Unchanged,
                    }
                } else {
                    SimplifyResult::Unchanged
                }
            },
            Instruction::Call { func, arguments } => {
                assert(operands[0] == *func);
                assert forall|k: int| 0 <= k < arguments@.len() implies before.has_value(
                    #[trigger] arguments@[k],
                ) by {
                    assert(operands[k + 1] == arguments@[k]);
                }
                simplify_call(*func, arguments, dfg, ctrl_typevars)
            },
            Instruction::EnableSideEffectsIf { condition } => {
                assert(operands[0] == *condition);
                let instructions = dfg.block_instructions(block);
                if instructions.len() > 0 {
                    let last = instructions[instructions.len() - 1];
                    assert(before.has_instructions(before.blocks[block.0 as int].instructions));
                    assert(before.has_instruction(last));
                    if let Instruction::EnableSideEffectsIf { .. } = dfg.instruction(last) {
                        // Of two conditions in a row only the second counts.
                        let replacement = Instruction::EnableSideEffectsIf { condition: *condition };
                        assert(replacement@.operands() =~= seq![*condition]);
                        dfg.set_instruction(last, replacement);
                        return SimplifyResult::Remove;
                    }
                }
                SimplifyResult::Unchanged
            },
            Instruction::Allocate => SimplifyResult::Unchanged,
            Instruction::Load { .. } => SimplifyResult::Unchanged,
            Instruction::Store { .. } => SimplifyResult::Unchanged,
            Instruction::IncrementRc { .. } => SimplifyResult::Unchanged,
            Instruction::DecrementRc { .. } => SimplifyResult::Unchanged,
            Instruction::RangeCheck { value, max_bit_size, .. } => {
                assert(operands[0] == *value);
                let max_potential_bits = dfg.get_value_max_num_bits(*value);
                if max_potential_bits < *max_bit_size {
                    SimplifyResult::Remove
                } else {
                    SimplifyResult::Unchanged
                }
            },
            Instruction::IfElse { then_condition, then_value, else_condition, else_value } => {
                assert(operands[0] == *then_condition && operands[1] == *then_value && operands[2]
                    == *else_condition && operands[3] == *else_value);
                let typ = dfg.type_of_value(*then_value);
                if let Some(constant) = dfg.get_numeric_constant(*then_condition) {
                    if constant.is_one() {
                        return SimplifyResult::SimplifiedTo(*then_value);
                    } else if constant.is_zero() {
                        return SimplifyResult::SimplifiedTo(*else_value);
                    }
                }
                proof {
                    before.lemma_resolve_in_graph(*then_value);
                    before.lemma_resolve_in_graph(*else_value);
                }
                let then_value = dfg.resolve(*then_value);
                let else_value = dfg.resolve(*else_value);
                if then_value == else_value {
                    return SimplifyResult::SimplifiedTo(then_value);
                }
                if typ.is_numeric() {
                    let result = merge_numeric_values(
                        dfg,
                        block,
                        *then_condition,
                        *else_condition,
                        then_value,
                        else_value,
                    );
                    SimplifyResult::SimplifiedTo(result)
                } else {
                    SimplifyResult::Unchanged
                }
            },
            Instruction::MakeArray { .. } => SimplifyResult::Unchanged,
        }
    }
}

/// The elements of an array that a well-formed graph makes from its
/// elements are values of the graph.
pub proof fn lemma_array_constant_in_graph(graph: GraphView, array: ValueId)
    requires
        graph.wf(),
        graph.has_value(array),
        graph.array_constant(array) is Some,
    ensures
        graph.has_values(graph.array_constant(array)->Some_0.0),
{
    graph.lemma_resolve_in_graph(array);
    let resolved = graph.resolve(array);
    assert(graph.value_closed(graph.values[resolved.0 as int]));
    if let Value::Instruction { instruction, .. } = graph.value(resolved) {
        assert(graph.has_values(graph.instructions[instruction.0 as int].operands()));
    }
}

} // verus!

//! Simplifying a conversion of a value to a type.

use crate::dfg::{DataFlowGraph, GraphView};
use crate::field::FieldElement;
use crate::ids::ValueId;
use crate::instruction::{Instruction, InstructionView};
use crate::simplify_result::{SimplifyResult, SimplifyResultView};
use crate::types::{NumericType, Type};
use crate::value::Value;
use vstd::arithmetic::power2::pow2;
use vstd::prelude::*;

verus! {

/// What a cast of the constant `constant` of type `source` to `target`
/// gives: the constant itself into the field, the low bits of it into an
/// integer type, and nothing for a type that is not numeric.
pub open spec fn cast_constant(constant: FieldElement, source: Type, target: Type) -> Option<
    FieldElement,
> {
    match (source, target) {
        (Type::Numeric(from), Type::Numeric(NumericType::NativeField)) => Some(constant),
        (Type::Numeric(_), Type::Numeric(NumericType::Unsigned { bit_size })) => Some(
            FieldElement::of(constant.value() % pow2(bit_size as nat)),
        ),
        (Type::Numeric(_), Type::Numeric(NumericType::Signed { bit_size })) => Some(
            FieldElement::of(constant.value() % pow2(bit_size as nat)),
        ),
        _ => None,
    }
}

/// What a cast of `value` to `target` simplifies to, and the graph after.
///
/// A cast of a cast's result casts the first operand instead. A cast of
/// a constant is the constant that [`cast_constant`] gives, a new value
/// unless the cast is from the field to the field. A cast of any other
/// value to the type it has is that value.
pub open spec fn cast_simplified(graph: GraphView, value: ValueId, target: Type) -> (
    SimplifyResultView,
    GraphView,
) {
    let value = graph.resolve(value);
    let source = graph.type_of_value(value);
    if let Some(InstructionView::Cast(operand, _)) = graph.definition(value) {
        (SimplifyResultView::SimplifiedToInstruction(InstructionView::Cast(operand, target)), graph)
    } else {
        match graph.numeric_constant(value) {
            Some(constant) => {
                if source == Type::Numeric(NumericType::NativeField) && target == source {
                    (SimplifyResultView::SimplifiedTo(value), graph)
                } else {
                    match cast_constant(constant, source, target) {
                        Some(image) => (
                            SimplifyResultView::SimplifiedTo(ValueId(graph.values.len() as usize)),
                            graph.with_value(Value::NumericConstant { constant: image, typ: target }),
                        ),
                        None => (SimplifyResultView::Unchanged, graph),
                    }
                }
            },
            None => if target == source {
                (SimplifyResultView::SimplifiedTo(value), graph)
            } else {
                (SimplifyResultView::Unchanged, graph)
            },
        }
    }
}

/// Simplifies a cast of `value` to `dst_typ`.
pub fn simplify_cast(value: ValueId, dst_typ: &Type, dfg: &mut DataFlowGraph) -> (result:
    SimplifyResult)
    requires
        old(dfg)@.wf(),
        old(dfg)@.has_value(value),
        old(dfg)@.can_grow(1),
    ensures
        final(dfg)@.wf(),
        (result@, final(dfg)@) == cast_simplified(old(dfg)@, value, *dst_typ),
        final(dfg)@.extends(old(dfg)@),
        result@.in_graph(final(dfg)@),
{
    let ghost before = dfg@;
    proof {
        before.lemma_resolve_in_graph(value);
    }
    let value = dfg.resolve(value);
    if let Value::Instruction { instruction, .. } = dfg.value(value) {
        assert(before.value_closed(before.values[value.0 as int]));
        if let Instruction::Cast(operand, _) = dfg.instruction(*instruction) {
            // A cast of a cast: only the last type counts.
            assert(before.has_values(before.instructions[instruction.0 as int].operands()));
            assert(before.instructions[instruction.0 as int].operands()[0] == *operand);
            let cast = Instruction::Cast(*operand, dst_typ.clone());
            assert(cast@.operands() =~= seq![*operand]);
            return SimplifyResult::SimplifiedToInstruction(cast);
        }
    }
    match dfg.get_numeric_constant(value) {
        Some(constant) => {
            let src_typ = dfg.type_of_value(value);
            match (&src_typ, dst_typ) {
                (
                    Type::Numeric(NumericType::NativeField),
                    Type::Numeric(NumericType::NativeField),
                ) => SimplifyResult::SimplifiedTo(value),
                (Type::Numeric(_), Type::Numeric(NumericType::NativeField)) => {
                    // An integer is a field element as it stands.
                    SimplifyResult::SimplifiedTo(dfg.make_constant(constant, dst_typ.clone()))
                },
                (Type::Numeric(_), Type::Numeric(NumericType::Unsigned { bit_size }))
                | (Type::Numeric(_), Type::Numeric(NumericType::Signed { bit_size })) => {
                    // A cast to a narrower integer keeps the low bits.
                    let truncated = constant.truncate(*bit_size);
                    proof {
                        FieldElement::lemma_of_own_value(truncated);
                    }
                    SimplifyResult::SimplifiedTo(dfg.make_constant(truncated, dst_typ.clone()))
                },
                _ => SimplifyResult::Unchanged,
            }
        },
        None => {
            if dst_typ.same(&dfg.type_of_value(value)) {
                SimplifyResult::SimplifiedTo(value)
            } else {
                SimplifyResult::Unchanged
            }
        },
    }
}

} // verus!

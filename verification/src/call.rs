//! Simplifying a call by what is called: a call of an intrinsic can often
//! be decided from the types and constants at hand.

use crate::binary::{to_constant, to_instruction, to_value, unchanged};
use crate::dfg::{typevars_view, DataFlowGraph, GraphView};
use crate::field::FieldElement;
use crate::ids::ValueId;
use crate::instruction::{Instruction, InstructionView};
use crate::intrinsic::Intrinsic;
use crate::simplify_result::{SimplifyResult, SimplifyResultView};
use crate::types::{NumericType, Type};
use crate::value::Value;
use vstd::prelude::*;

verus! {

/// The text that a range check made from a call reports.
pub open spec fn range_constraint_message() -> Seq<char> {
    "call to assert_max_bit_size"@
}

/// What a call of `intrinsic` simplifies to, and the graph after.
///
/// - The length of an array is a constant of the length type; that of a
///   slice is the first argument, which holds it.
/// - An assertion that its arguments are constants goes once they are.
/// - An assertion that a constant condition holds goes if its message is
///   a constant and the condition is 1.
/// - A range constraint with a constant width that fits 32 bits is a range
///   check.
/// - A conversion to or from the field is a cast, to the type that the
///   caller names where it is from the field.
///
/// Any other call stays.
pub open spec fn intrinsic_call_simplified(
    graph: GraphView,
    intrinsic: Intrinsic,
    arguments: Seq<ValueId>,
    ctrl_typevars: Option<Seq<Type>>,
) -> (SimplifyResultView, GraphView) {
    match intrinsic {
        Intrinsic::ArrayLen => {
            if arguments.len() >= 1 && graph.type_of_value(arguments[0]) is Array {
                to_constant(
                    graph,
                    FieldElement::of(graph.type_of_value(arguments[0])->Array_1 as nat),
                    Type::Numeric(NumericType::Unsigned { bit_size: 32 }),
                )
            } else if arguments.len() >= 2 && graph.type_of_value(arguments[1]) is Slice {
                to_value(graph, arguments[0])
            } else {
                unchanged(graph)
            }
        },
        Intrinsic::AssertConstant => {
            if forall|k: int| 0 <= k < arguments.len() ==> graph.is_constant(#[trigger] arguments[k]) {
                (SimplifyResultView::Remove, graph)
            } else {
                unchanged(graph)
            }
        },
        Intrinsic::StaticAssert => {
            if arguments.len() == 2 && graph.is_constant(arguments[1]) && (graph.numeric_constant(
                arguments[0],
            ) matches Some(condition) && condition.value() == 1) {
                (SimplifyResultView::Remove, graph)
            } else {
                unchanged(graph)
            }
        },
        Intrinsic::ApplyRangeConstraint => {
            if arguments.len() >= 2 && (graph.numeric_constant(arguments[1]) matches Some(width)
                && width.value() <= u32::MAX) {
                to_instruction(
                    graph,
                    InstructionView::RangeCheck {
                        value: arguments[0],
                        max_bit_size: graph.numeric_constant(arguments[1])->Some_0.value() as u32,
                        assert_message: Some(range_constraint_message()),
                    },
                )
            } else {
                unchanged(graph)
            }
        },
        Intrinsic::AsField => {
            if arguments.len() >= 1 {
                to_instruction(
                    graph,
                    InstructionView::Cast(arguments[0], Type::Numeric(NumericType::NativeField)),
                )
            } else {
                unchanged(graph)
            }
        },
        Intrinsic::FromField => {
            if arguments.len() >= 1 && (ctrl_typevars matches Some(types) && types.len() >= 1) {
                to_instruction(graph, InstructionView::Cast(arguments[0], ctrl_typevars->Some_0[0]))
            } else {
                unchanged(graph)
            }
        },
        _ => unchanged(graph),
    }
}

/// What a call of `func` simplifies to, and the graph after: only a call
/// of an intrinsic simplifies.
pub open spec fn call_simplified(
    graph: GraphView,
    func: ValueId,
    arguments: Seq<ValueId>,
    ctrl_typevars: Option<Seq<Type>>,
) -> (SimplifyResultView, GraphView) {
    match graph.value(func) {
        Value::Intrinsic(intrinsic) => intrinsic_call_simplified(
            graph,
            intrinsic,
            arguments,
            ctrl_typevars,
        ),
        _ => unchanged(graph),
    }
}

/// Whether every one of `arguments` is a constant.
fn all_constant(dfg: &DataFlowGraph, arguments: &Vec<ValueId>) -> (all: bool)
    requires
        dfg@.wf(),
        dfg@.has_values(arguments@),
    ensures
        all == (forall|k: int| 0 <= k < arguments@.len() ==> dfg@.is_constant(#[trigger] arguments@[k])),
{
    let mut at: usize = 0;
    while at < arguments.len()
        invariant
            at <= arguments.len(),
            dfg@.wf(),
            dfg@.has_values(arguments@),
            forall|k: int| 0 <= k < at ==> dfg@.is_constant(#[trigger] arguments@[k]),
        decreases arguments.len() - at,
    {
        if !dfg.is_constant(arguments[at]) {
            return false;
        }
        at += 1;
    }
    true
}

/// Simplifies a call of `func` with `arguments`. `ctrl_typevars` names the
/// types of the call's results.
pub fn simplify_call(
    func: ValueId,
    arguments: &Vec<ValueId>,
    dfg: &mut DataFlowGraph,
    ctrl_typevars: Option<Vec<Type>>,
) -> (result: SimplifyResult)
    requires
        old(dfg)@.wf(),
        old(dfg)@.has_value(func),
        old(dfg)@.has_values(arguments@),
        old(dfg)@.can_grow(1),
    ensures
        final(dfg)@.wf(),
        (result@, final(dfg)@) == call_simplified(
            old(dfg)@,
            func,
            arguments@,
            typevars_view(ctrl_typevars),
        ),
        final(dfg)@.extends(old(dfg)@),
        result@.in_graph(final(dfg)@),
{
    let intrinsic = match dfg.value(func) {
        Value::Intrinsic(intrinsic) => *intrinsic,
        _ => {
            return SimplifyResult::Unchanged;
        },
    };
    match intrinsic {
        Intrinsic::ArrayLen => {
            if arguments.len() >= 1 {
                if let Type::Array(_, length) = dfg.type_of_value(arguments[0]) {
                    let length = FieldElement::from_u128(length as u128);
                    return SimplifyResult::SimplifiedTo(
                        dfg.make_constant(length, Type::length_type()),
                    );
                }
            }
            if arguments.len() >= 2 {
                if let Type::Slice(_) = dfg.type_of_value(arguments[1]) {
                    // A slice goes with its length, which comes first.
                    return SimplifyResult::SimplifiedTo(arguments[0]);
                }
            }
            SimplifyResult::Unchanged
        },
        Intrinsic::AssertConstant => {
            if all_constant(dfg, arguments) {
                SimplifyResult::Remove
            } else {
                SimplifyResult::Unchanged
            }
        },
        Intrinsic::StaticAssert => {
            if arguments.len() == 2 && dfg.is_constant(arguments[1]) {
                let holds = match dfg.get_numeric_constant(arguments[0]) {
                    Some(condition) => condition.is_one(),
                    None => false,
                };
                if holds {
                    return SimplifyResult::Remove;
                }
            }
            SimplifyResult::Unchanged
        },
        Intrinsic::ApplyRangeConstraint => {
            if arguments.len() >= 2 {
                if let Some(width) = dfg.get_numeric_constant(arguments[1]) {
                    if let Some(max_bit_size) = width.try_to_u32() {
                        let check = Instruction::RangeCheck {
                            value: arguments[0],
                            max_bit_size,
                            assert_message: Some("call to assert_max_bit_size".to_owned()),
                        };
                        assert(check@.operands() =~= seq![arguments@[0]]);
                        return SimplifyResult::SimplifiedToInstruction(check);
                    }
                }
            }
            SimplifyResult::Unchanged
        },
        Intrinsic::AsField => {
            if arguments.len() >= 1 {
                let cast = Instruction::Cast(arguments[0], Type::field());
                assert(cast@.operands() =~= seq![arguments@[0]]);
                return SimplifyResult::SimplifiedToInstruction(cast);
            }
            SimplifyResult::Unchanged
        },
        Intrinsic::FromField => {
            if arguments.len() >= 1 {
                if let Some(types) = ctrl_typevars {
                    if types.len() >= 1 {
                        let cast = Instruction::Cast(arguments[0], types[0].clone());
                        assert(cast@.operands() =~= seq![arguments@[0]]);
                        return SimplifyResult::SimplifiedToInstruction(cast);
                    }
                }
            }
            SimplifyResult::Unchanged
        },
        _ => SimplifyResult::Unchanged,
    }
}

} // verus!

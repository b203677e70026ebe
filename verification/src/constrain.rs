//! Breaking a constraint into simpler ones.

use crate::binary::{Binary, BinaryOp};
use crate::dfg::{DataFlowGraph, GraphView};
use crate::error::{ConstrainError, ConstrainErrorView};
use crate::field::FieldElement;
use crate::ids::ValueId;
use crate::instruction::{error_view, Instruction, InstructionView};
use crate::simplify_result::instruction_views;
use crate::types::{NumericType, Type};
use crate::value::Value;
use vstd::prelude::*;

verus! {

/// The boolean type.
pub open spec fn boolean() -> Type {
    Type::Numeric(NumericType::Unsigned { bit_size: 1 })
}

/// Where one side of a constraint is a boolean constant and the other the
/// result of an instruction: the constant and the instruction.
pub open spec fn constant_against_definition(graph: GraphView, lhs: ValueId, rhs: ValueId) -> Option<
    (FieldElement, InstructionView),
> {
    match (graph.value(lhs), graph.value(rhs)) {
        (Value::NumericConstant { constant, typ }, Value::Instruction { instruction, .. }) => {
            if typ == boolean() {
                Some((constant, graph.instruction(instruction)))
            } else {
                None
            }
        },
        (Value::Instruction { instruction, .. }, Value::NumericConstant { constant, typ }) => {
            if typ == boolean() {
                Some((constant, graph.instruction(instruction)))
            } else {
                None
            }
        },
        _ => None,
    }
}

/// The constraints that say what `lhs == rhs` says, and the graph that
/// holds their operands.
///
/// Both sides are resolved first. A value is equal to itself: no constraint
/// is left. Where a boolean constant stands against the result of an
/// instruction, the constraint moves to the instruction's operands:
/// `(a == b) == 1` becomes `a == b`; `a * b == 1` over booleans becomes
/// `a == 1` and `b == 1`; `a | b == 0` becomes `a == 0` and `b == 0`;
/// `!a == c` becomes `a == !c`. The constant that such a constraint needs
/// is a new value. Any other constraint stays, over the resolved sides.
pub open spec fn decomposed(
    graph: GraphView,
    lhs: ValueId,
    rhs: ValueId,
    error: Option<ConstrainErrorView>,
) -> (Seq<InstructionView>, GraphView) {
    let lhs = graph.resolve(lhs);
    let rhs = graph.resolve(rhs);
    let fresh = ValueId(graph.values.len() as usize);
    let same = (seq![InstructionView::Constrain(lhs, rhs, error)], graph);
    if lhs == rhs {
        (Seq::empty(), graph)
    } else {
        match constant_against_definition(graph, lhs, rhs) {
            Some((constant, InstructionView::Binary(binary))) => {
                if binary.operator is Eq && constant.value() == 1 {
                    (seq![InstructionView::Constrain(binary.lhs, binary.rhs, error)], graph)
                } else if binary.operator is Mul && constant.value() == 1 && graph.type_of_value(
                    binary.lhs,
                ) == boolean() {
                    (
                        seq![
                            InstructionView::Constrain(binary.lhs, fresh, error),
                            InstructionView::Constrain(binary.rhs, fresh, error),
                        ],
                        graph.with_value(
                            Value::NumericConstant { constant: FieldElement::of(1), typ: boolean() },
                        ),
                    )
                } else if binary.operator is Or && constant.value() == 0 {
                    (
                        seq![
                            InstructionView::Constrain(binary.lhs, fresh, error),
                            InstructionView::Constrain(binary.rhs, fresh, error),
                        ],
                        graph.with_value(
                            Value::NumericConstant { constant: FieldElement::of(0), typ: boolean() },
                        ),
                    )
                } else {
                    same
                }
            },
            Some((constant, InstructionView::Not(value))) => (
                seq![InstructionView::Constrain(value, fresh, error)],
                graph.with_value(
                    Value::NumericConstant {
                        constant: FieldElement::of(
                            if constant.value() == 1 {
                                0
                            } else {
                                1
                            },
                        ),
                        typ: boolean(),
                    },
                ),
            ),
            _ => same,
        }
    }
}

/// A copy of an optional error.
fn clone_error(error: &Option<ConstrainError>) -> (copy: Option<ConstrainError>)
    ensures
        error_view(copy) == error_view(*error),
{
    match error {
        Some(error) => Some(error.clone()),
        None => None,
    }
}

/// A list of one instruction.
fn one_instruction(instruction: Instruction) -> (list: Vec<Instruction>)
    ensures
        instruction_views(list@) == seq![instruction@],
{
    let mut list: Vec<Instruction> = Vec::new();
    list.push(instruction);
    assert(instruction_views(list@) == seq![instruction@]);
    list
}

/// A list of two instructions.
fn two_instructions(first: Instruction, second: Instruction) -> (list: Vec<Instruction>)
    ensures
        instruction_views(list@) == seq![first@, second@],
{
    let mut list: Vec<Instruction> = Vec::new();
    list.push(first);
    list.push(second);
    assert(instruction_views(list@) == seq![first@, second@]);
    list
}

/// Whether every operand of every one of `instructions` is in `graph`.
pub open spec fn operands_in_graph(graph: GraphView, instructions: Seq<InstructionView>) -> bool {
    forall|k: int|
        0 <= k < instructions.len() ==> graph.has_values((#[trigger] instructions[k]).operands())
}

/// The operands of a constraint are in a graph that holds its two sides
/// and the values of its error.
proof fn lemma_constrain_operands(
    graph: GraphView,
    lhs: ValueId,
    rhs: ValueId,
    error: Option<ConstrainErrorView>,
)
    requires
        graph.has_value(lhs),
        graph.has_value(rhs),
        error matches Some(error) ==> graph.has_values(error.values()),
    ensures
        graph.has_values(InstructionView::Constrain(lhs, rhs, error).operands()),
{
    let operands = InstructionView::Constrain(lhs, rhs, error).operands();
    assert forall|k: int| 0 <= k < operands.len() implies graph.has_value(#[trigger] operands[k]) by {
        if k >= 2 {
            assert(operands[k] == error->Some_0.values()[k - 2]);
        }
    }
}

/// The constraints that say what `lhs == rhs` says; none if the constraint
/// always holds.
pub fn decompose_constrain(
    lhs: ValueId,
    rhs: ValueId,
    msg: &Option<ConstrainError>,
    dfg: &mut DataFlowGraph,
) -> (constraints: Vec<Instruction>)
    requires
        old(dfg)@.wf(),
        old(dfg)@.has_values(InstructionView::Constrain(lhs, rhs, error_view(*msg)).operands()),
        old(dfg)@.can_grow(1),
    ensures
        final(dfg)@.wf(),
        (instruction_views(constraints@), final(dfg)@) == decomposed(
            old(dfg)@,
            lhs,
            rhs,
            error_view(*msg),
        ),
        final(dfg)@.extends(old(dfg)@),
        operands_in_graph(final(dfg)@, instruction_views(constraints@)),
{
    let ghost before = dfg@;
    let ghost error = error_view(*msg);
    let ghost whole = InstructionView::Constrain(lhs, rhs, error).operands();
    proof {
        assert(whole[0] == lhs && whole[1] == rhs);
        before.lemma_resolve_in_graph(lhs);
        before.lemma_resolve_in_graph(rhs);
        if let Some(error) = error {
            assert forall|k: int| 0 <= k < error.values().len() implies before.has_value(
                #[trigger] error.values()[k],
            ) by {
                assert(whole[k + 2] == error.values()[k]);
            }
        }
    }
    let lhs = dfg.resolve(lhs);
    let rhs = dfg.resolve(rhs);
    if lhs == rhs {
        // A value is equal to itself.
        let constraints: Vec<Instruction> = Vec::new();
        assert(instruction_views(constraints@) == Seq::<InstructionView>::empty());
        return constraints;
    }
    let found = match (dfg.value(lhs), dfg.value(rhs)) {
        (Value::NumericConstant { constant, typ }, Value::Instruction { instruction, .. }) => {
            if typ.same(&Type::bool()) {
                Some((*constant, *instruction))
            } else {
                None
            }
        },
        (Value::Instruction { instruction, .. }, Value::NumericConstant { constant, typ }) => {
            if typ.same(&Type::bool()) {
                Some((*constant, *instruction))
            } else {
                None
            }
        },
        _ => None,
    };
    if let Some((constant, instruction)) = found {
        assert(before.value_closed(before.values[lhs.0 as int]));
        assert(before.value_closed(before.values[rhs.0 as int]));
        assert(before.has_values(before.instructions[instruction.0 as int].operands()));
        match dfg.instruction(instruction) {
            Instruction::Binary(binary) => {
                let binary = *binary;
                assert(before.instructions[instruction.0 as int].operands()[0] == binary.lhs
                    && before.instructions[instruction.0 as int].operands()[1] == binary.rhs);
                match binary.operator {
                    BinaryOp::Eq => {
                        if constant.is_one() {
                            // `(a == b) == 1` says `a == b`.
                            proof {
                                lemma_constrain_operands(before, binary.lhs, binary.rhs, error);
                            }
                            return one_instruction(
                                Instruction::Constrain(binary.lhs, binary.rhs, clone_error(msg)),
                            );
                        }
                    },
                    BinaryOp::Mul => {
                        if constant.is_one() && dfg.type_of_value(binary.lhs).same(&Type::bool()) {
                            // A product of booleans is 1 only if both are.
                            let one = dfg.make_constant(FieldElement::one(), Type::bool());
                            proof {
                                lemma_constrain_operands(dfg@, binary.lhs, one, error);
                                lemma_constrain_operands(dfg@, binary.rhs, one, error);
                            }
                            return two_instructions(
                                Instruction::Constrain(binary.lhs, one, clone_error(msg)),
                                Instruction::Constrain(binary.rhs, one, clone_error(msg)),
                            );
                        }
                    },
                    BinaryOp::Or => {
                        if constant.is_zero() {
                            // A disjunction is 0 only if both sides are.
                            let zero = dfg.make_constant(FieldElement::zero(), Type::bool());
                            proof {
                                lemma_constrain_operands(dfg@, binary.lhs, zero, error);
                                lemma_constrain_operands(dfg@, binary.rhs, zero, error);
                            }
                            return two_instructions(
                                Instruction::Constrain(binary.lhs, zero, clone_error(msg)),
                                Instruction::Constrain(binary.rhs, zero, clone_error(msg)),
                            );
                        }
                    },
                    _ => {},
                }
            },
            Instruction::Not(value) => {
                // `!a == c` says `a == !c`.
                let value = *value;
                assert(before.instructions[instruction.0 as int].operands()[0] == value);
                let flipped = if constant.is_one() {
                    FieldElement::zero()
                } else {
                    FieldElement::one()
                };
                let flipped = dfg.make_constant(flipped, Type::bool());
                proof {
                    lemma_constrain_operands(dfg@, value, flipped, error);
                }
                return one_instruction(Instruction::Constrain(value, flipped, clone_error(msg)));
            },
            _ => {},
        }
    }
    proof {
        lemma_constrain_operands(before, lhs, rhs, error);
    }
    one_instruction(Instruction::Constrain(lhs, rhs, clone_error(msg)))
}

} // verus!

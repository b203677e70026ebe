//! Operations on two values.

use crate::dfg::{DataFlowGraph, GraphView};
use crate::field::{truncate_u128, two_pow, two_pow_128, FieldElement};
use crate::ids::ValueId;
use crate::instruction::{Instruction, InstructionView};
use crate::simplify_result::{SimplifyResult, SimplifyResultView};
use crate::types::{NumericType, Type};
use crate::value::Value;
use vstd::arithmetic::power2::pow2;
use vstd::prelude::*;

verus! {

/// The operator of a [`Binary`] instruction.
#[derive(Clone, Copy, PartialEq, Eq, Structural, Hash, Debug)]
pub enum BinaryOp {
    Add,
    Sub,
    Mul,
    Div,
    Mod,
    Eq,
    Lt,
    And,
    Or,
    Xor,
    Shl,
    Shr,
}

/// An operator and its two operands.
#[derive(Clone, Copy, PartialEq, Eq, Structural, Hash, Debug)]
pub struct Binary {
    pub lhs: ValueId,
    pub rhs: ValueId,
    pub operator: BinaryOp,
}

/// What is known of an instruction's result type before the instruction is
/// in a graph.
#[derive(PartialEq, Eq, Debug)]
pub enum InstructionResultType {
    /// The type of this operand.
    Operand(ValueId),
    /// This type, whatever the operands are.
    Known(Type),
    /// A type that the instruction does not fix: the caller gives it.
    Unknown,
    /// The instruction has no result.
    NoResult,
}

impl BinaryOp {
    /// Whether the operator compares: its result is then a boolean.
    pub open spec fn compares(self) -> bool {
        self is Eq || self is Lt
    }

    /// Whether the operator divides: a zero divisor then fails.
    pub open spec fn divides(self) -> bool {
        self is Div || self is Mod
    }

    pub fn is_division(self) -> (divides: bool)
        ensures
            divides == self.divides(),
    {
        match self {
            BinaryOp::Div | BinaryOp::Mod => true,
            _ => false,
        }
    }
}

impl Binary {
    /// A comparison yields a boolean, any other operator the type of its
    /// left operand.
    pub open spec fn spec_result_type(self) -> InstructionResultType {
        if self.operator.compares() {
            InstructionResultType::Known(Type::Numeric(NumericType::Unsigned { bit_size: 1 }))
        } else {
            InstructionResultType::Operand(self.lhs)
        }
    }

    pub fn result_type(&self) -> (result: InstructionResultType)
        ensures
            result == self.spec_result_type(),
    {
        match self.operator {
            BinaryOp::Eq | BinaryOp::Lt => InstructionResultType::Known(Type::bool()),
            _ => InstructionResultType::Operand(self.lhs),
        }
    }
}

/// What `operator` gives on two unsigned numbers of `bits` bits, where the
/// result is defined and fits the type. The operands are taken modulo
/// 2^`bits`. A comparison gives 1 or 0. A division by zero, a
/// subtraction below zero, a result that does not fit and a shift give
/// nothing.
pub open spec fn fold_unsigned(operator: BinaryOp, lhs: nat, rhs: nat, bits: u32) -> Option<nat> {
    let lhs = lhs % pow2(bits as nat);
    let rhs = rhs % pow2(bits as nat);
    let result: Option<int> = match operator {
        BinaryOp::Add => Some(lhs as int + rhs as int),
        BinaryOp::Sub => Some(lhs as int - rhs as int),
        BinaryOp::Mul => Some(lhs as int * rhs as int),
        BinaryOp::Div => if rhs == 0 {
            None
        } else {
            Some(lhs as int / rhs as int)
        },
        BinaryOp::Mod => if rhs == 0 {
            None
        } else {
            Some(lhs as int % rhs as int)
        },
        BinaryOp::Eq => Some(
            if lhs == rhs {
                1
            } else {
                0
            },
        ),
        BinaryOp::Lt => Some(
            if lhs < rhs {
                1
            } else {
                0
            },
        ),
        BinaryOp::And => Some((lhs as u128 & rhs as u128) as int),
        BinaryOp::Or => Some((lhs as u128 | rhs as u128) as int),
        BinaryOp::Xor => Some((lhs as u128 ^ rhs as u128) as int),
        BinaryOp::Shl | BinaryOp::Shr => None,
    };
    match result {
        Some(number) => if 0 <= number < pow2(bits as nat) {
            Some(number as nat)
        } else {
            None
        },
        None => None,
    }
}

/// What `operator` gives on two constants of type `typ`, with the type of
/// the result: a boolean for a comparison, `typ` otherwise. Constants are
/// folded for unsigned integers of fewer than 128 bits.
pub open spec fn fold_constants(
    operator: BinaryOp,
    lhs: FieldElement,
    rhs: FieldElement,
    typ: Type,
) -> Option<(FieldElement, Type)> {
    match typ {
        Type::Numeric(NumericType::Unsigned { bit_size }) => {
            if bit_size < 128 && lhs.value() < two_pow_128() && rhs.value() < two_pow_128() {
                match fold_unsigned(operator, lhs.value(), rhs.value(), bit_size) {
                    Some(number) => Some(
                        (
                            FieldElement::of(number),
                            if operator.compares() {
                                Type::Numeric(NumericType::Unsigned { bit_size: 1 })
                            } else {
                                typ
                            },
                        ),
                    ),
                    None => None,
                }
            } else {
                None
            }
        },
        _ => None,
    }
}

/// A result that names `value`, in a graph that stays as it is.
pub open spec fn to_value(graph: GraphView, value: ValueId) -> (SimplifyResultView, GraphView) {
    (SimplifyResultView::SimplifiedTo(value), graph)
}

/// A result that names a new constant, in the graph that holds it.
pub open spec fn to_constant(graph: GraphView, constant: FieldElement, typ: Type) -> (
    SimplifyResultView,
    GraphView,
) {
    (
        SimplifyResultView::SimplifiedTo(ValueId(graph.values.len() as usize)),
        graph.with_value(Value::NumericConstant { constant, typ }),
    )
}

/// No simplification, in a graph that stays as it is.
pub open spec fn unchanged(graph: GraphView) -> (SimplifyResultView, GraphView) {
    (SimplifyResultView::Unchanged, graph)
}

/// A result that names another instruction, in a graph that stays as it is.
pub open spec fn to_instruction(graph: GraphView, body: InstructionView) -> (
    SimplifyResultView,
    GraphView,
) {
    (SimplifyResultView::SimplifiedToInstruction(body), graph)
}

impl Binary {
    /// What the operation simplifies to where at most one operand is a
    /// constant: what the neutral and the absorbing elements of each
    /// operator give, and what an operator gives on two equal operands.
    pub open spec fn simplified_by_identity(self, graph: GraphView) -> (SimplifyResultView, GraphView) {
        let lhs = graph.numeric_constant(self.lhs);
        let rhs = graph.numeric_constant(self.rhs);
        let typ = graph.type_of_value(self.lhs);
        let lhs_zero = lhs matches Some(c) && c.value() == 0;
        let lhs_one = lhs matches Some(c) && c.value() == 1;
        let rhs_zero = rhs matches Some(c) && c.value() == 0;
        let rhs_one = rhs matches Some(c) && c.value() == 1;
        let same = graph.resolve(self.lhs) == graph.resolve(self.rhs);
        let boolean = Type::Numeric(NumericType::Unsigned { bit_size: 1 });
        match self.operator {
            BinaryOp::Add => if lhs_zero {
                to_value(graph, self.rhs)
            } else if rhs_zero {
                to_value(graph, self.lhs)
            } else {
                unchanged(graph)
            },
            BinaryOp::Sub => if rhs_zero {
                to_value(graph, self.lhs)
            } else {
                unchanged(graph)
            },
            BinaryOp::Mul => if lhs_one {
                to_value(graph, self.rhs)
            } else if rhs_one {
                to_value(graph, self.lhs)
            } else if lhs_zero || rhs_zero {
                to_constant(graph, FieldElement::of(0), typ)
            } else if same && graph.max_num_bits(self.lhs) == 1 {
                to_value(graph, self.lhs)
            } else {
                unchanged(graph)
            },
            BinaryOp::Div => if rhs_one {
                to_value(graph, self.lhs)
            } else {
                unchanged(graph)
            },
            BinaryOp::Mod => if rhs_one {
                to_constant(graph, FieldElement::of(0), typ)
            } else {
                unchanged(graph)
            },
            BinaryOp::Eq => if same {
                to_constant(graph, FieldElement::of(1), boolean)
            } else if typ == boolean && lhs_one {
                to_value(graph, self.rhs)
            } else if typ == boolean && rhs_one {
                to_value(graph, self.lhs)
            } else if typ == boolean && lhs_zero {
                to_instruction(graph, InstructionView::Not(self.rhs))
            } else if typ == boolean && rhs_zero {
                to_instruction(graph, InstructionView::Not(self.lhs))
            } else {
                unchanged(graph)
            },
            BinaryOp::Lt => if same {
                to_constant(graph, FieldElement::of(0), boolean)
            } else if typ.unsigned_int() && rhs_zero {
                to_constant(graph, FieldElement::of(0), boolean)
            } else {
                unchanged(graph)
            },
            BinaryOp::And => if lhs_zero || rhs_zero {
                to_constant(graph, FieldElement::of(0), typ)
            } else if same {
                to_value(graph, self.lhs)
            } else if typ == boolean {
                to_instruction(
                    graph,
                    InstructionView::Binary(
                        Binary { lhs: self.lhs, rhs: self.rhs, operator: BinaryOp::Mul },
                    ),
                )
            } else {
                unchanged(graph)
            },
            BinaryOp::Or => if lhs_zero {
                to_value(graph, self.rhs)
            } else if rhs_zero {
                to_value(graph, self.lhs)
            } else if same {
                to_value(graph, self.lhs)
            } else {
                unchanged(graph)
            },
            BinaryOp::Xor => if lhs_zero {
                to_value(graph, self.rhs)
            } else if rhs_zero {
                to_value(graph, self.lhs)
            } else if same {
                to_constant(graph, FieldElement::of(0), typ)
            } else {
                unchanged(graph)
            },
            BinaryOp::Shl | BinaryOp::Shr => unchanged(graph),
        }
    }

    /// What the operation simplifies to, and the graph after. Two constant
    /// operands are folded into one constant where [`fold_constants`]
    /// gives one, and left alone where it gives none. Otherwise
    /// [`Self::simplified_by_identity`] decides.
    pub open spec fn simplified(self, graph: GraphView) -> (SimplifyResultView, GraphView) {
        match (graph.numeric_constant(self.lhs), graph.numeric_constant(self.rhs)) {
            (Some(lhs), Some(rhs)) => match fold_constants(
                self.operator,
                lhs,
                rhs,
                graph.type_of_value(self.lhs),
            ) {
                Some((constant, typ)) => to_constant(graph, constant, typ),
                None => unchanged(graph),
            },
            _ => self.simplified_by_identity(graph),
        }
    }

    /// Simplifies the operation.
    pub fn simplify(&self, dfg: &mut DataFlowGraph) -> (result: SimplifyResult)
        requires
            old(dfg)@.wf(),
            old(dfg)@.has_value(self.lhs),
            old(dfg)@.has_value(self.rhs),
            old(dfg)@.can_grow(1),
        ensures
            final(dfg)@.wf(),
            (result@, final(dfg)@) == self.simplified(old(dfg)@),
            final(dfg)@.extends(old(dfg)@),
            result@.in_graph(final(dfg)@),
    {
        let lhs = dfg.get_numeric_constant(self.lhs);
        let rhs = dfg.get_numeric_constant(self.rhs);
        let operand_type = dfg.type_of_value(self.lhs);
        if let (Some(lhs), Some(rhs)) = (lhs, rhs) {
            return match evaluate(self.operator, lhs, rhs, &operand_type) {
                Some((constant, typ)) => SimplifyResult::SimplifiedTo(dfg.make_constant(constant, typ)),
                None => SimplifyResult::Unchanged,
            };
        }
        let lhs_is_zero = match lhs {
            Some(constant) => constant.is_zero(),
            None => false,
        };
        let lhs_is_one = match lhs {
            Some(constant) => constant.is_one(),
            None => false,
        };
        let rhs_is_zero = match rhs {
            Some(constant) => constant.is_zero(),
            None => false,
        };
        let rhs_is_one = match rhs {
            Some(constant) => constant.is_one(),
            None => false,
        };
        let same = dfg.resolve(self.lhs) == dfg.resolve(self.rhs);
        let is_bool = operand_type.same(&Type::bool());
        match self.operator {
            BinaryOp::Add => {
                if lhs_is_zero {
                    return SimplifyResult::SimplifiedTo(self.rhs);
                }
                if rhs_is_zero {
                    return SimplifyResult::SimplifiedTo(self.lhs);
                }
            },
            BinaryOp::Sub => {
                if rhs_is_zero {
                    return SimplifyResult::SimplifiedTo(self.lhs);
                }
            },
            BinaryOp::Mul => {
                if lhs_is_one {
                    return SimplifyResult::SimplifiedTo(self.rhs);
                }
                if rhs_is_one {
                    return SimplifyResult::SimplifiedTo(self.lhs);
                }
                if lhs_is_zero || rhs_is_zero {
                    let zero = dfg.make_constant(FieldElement::zero(), operand_type);
                    return SimplifyResult::SimplifiedTo(zero);
                }
                if same && dfg.get_value_max_num_bits(self.lhs) == 1 {
                    // A boolean times itself is itself.
                    return SimplifyResult::SimplifiedTo(self.lhs);
                }
            },
            BinaryOp::Div => {
                if rhs_is_one {
                    return SimplifyResult::SimplifiedTo(self.lhs);
                }
            },
            BinaryOp::Mod => {
                if rhs_is_one {
                    let zero = dfg.make_constant(FieldElement::zero(), operand_type);
                    return SimplifyResult::SimplifiedTo(zero);
                }
            },
            BinaryOp::Eq => {
                if same {
                    let one = dfg.make_constant(FieldElement::one(), Type::bool());
                    return SimplifyResult::SimplifiedTo(one);
                }
                if is_bool {
                    // `b == true` is `b`, and `b == false` is `!b`.
                    if lhs_is_one {
                        return SimplifyResult::SimplifiedTo(self.rhs);
                    }
                    if rhs_is_one {
                        return SimplifyResult::SimplifiedTo(self.lhs);
                    }
                    if lhs_is_zero {
                        let negation = Instruction::Not(self.rhs);
                        assert(negation@.operands() =~= seq![self.rhs]);
                        return SimplifyResult::SimplifiedToInstruction(negation);
                    }
                    if rhs_is_zero {
                        let negation = Instruction::Not(self.lhs);
                        assert(negation@.operands() =~= seq![self.lhs]);
                        return SimplifyResult::SimplifiedToInstruction(negation);
                    }
                }
            },
            BinaryOp::Lt => {
                if same {
                    let zero = dfg.make_constant(FieldElement::zero(), Type::bool());
                    return SimplifyResult::SimplifiedTo(zero);
                }
                if operand_type.is_unsigned() && rhs_is_zero {
                    // Nothing unsigned is below zero.
                    let zero = dfg.make_constant(FieldElement::zero(), Type::bool());
                    return SimplifyResult::SimplifiedTo(zero);
                }
            },
            BinaryOp::And => {
                if lhs_is_zero || rhs_is_zero {
                    let zero = dfg.make_constant(FieldElement::zero(), operand_type);
                    return SimplifyResult::SimplifiedTo(zero);
                }
                if same {
                    return SimplifyResult::SimplifiedTo(self.lhs);
                }
                if is_bool {
                    // On booleans a product is a conjunction, and cheaper.
                    let product = Instruction::binary(BinaryOp::Mul, self.lhs, self.rhs);
                    assert(product@.operands() =~= seq![self.lhs, self.rhs]);
                    return SimplifyResult::SimplifiedToInstruction(product);
                }
            },
            BinaryOp::Or => {
                if lhs_is_zero {
                    return SimplifyResult::SimplifiedTo(self.rhs);
                }
                if rhs_is_zero {
                    return SimplifyResult::SimplifiedTo(self.lhs);
                }
                if same {
                    return SimplifyResult::SimplifiedTo(self.lhs);
                }
            },
            BinaryOp::Xor => {
                if lhs_is_zero {
                    return SimplifyResult::SimplifiedTo(self.rhs);
                }
                if rhs_is_zero {
                    return SimplifyResult::SimplifiedTo(self.lhs);
                }
                if same {
                    let zero = dfg.make_constant(FieldElement::zero(), operand_type);
                    return SimplifyResult::SimplifiedTo(zero);
                }
            },
            BinaryOp::Shl | BinaryOp::Shr => {},
        }
        SimplifyResult::Unchanged
    }
}

/// Evaluates `operator` on two constants of type `typ`.
pub fn evaluate(operator: BinaryOp, lhs: FieldElement, rhs: FieldElement, typ: &Type) -> (folded:
    Option<(FieldElement, Type)>)
    ensures
        folded == fold_constants(operator, lhs, rhs, *typ),
{
    let bits = match typ {
        Type::Numeric(NumericType::Unsigned { bit_size }) => *bit_size,
        _ => {
            return None;
        },
    };
    if bits >= 128 || lhs.high() != 0 || rhs.high() != 0 {
        proof {
            lemma_high_zero(lhs.value());
            lemma_high_zero(rhs.value());
        }
        return None;
    }
    proof {
        lemma_high_zero(lhs.value());
        lemma_high_zero(rhs.value());
        vstd::arithmetic::div_mod::lemma_small_mod(lhs.value(), two_pow_128());
        vstd::arithmetic::div_mod::lemma_small_mod(rhs.value(), two_pow_128());
        vstd::arithmetic::power2::lemma_pow2_pos(bits as nat);
    }
    let limit = two_pow(bits);
    let left = truncate_u128(lhs.to_u128(), bits);
    let right = truncate_u128(rhs.to_u128(), bits);
    let result: Option<u128> = match operator {
        BinaryOp::Add => left.checked_add(right),
        BinaryOp::Sub => left.checked_sub(right),
        BinaryOp::Mul => {
            let product = left.checked_mul(right);
            proof {
                if product is None {
                    crate::field::lemma_pow2_below_128(bits);
                }
            }
            product
        },
        BinaryOp::Div => if right == 0 {
            None
        } else {
            Some(left / right)
        },
        BinaryOp::Mod => if right == 0 {
            None
        } else {
            Some(left % right)
        },
        BinaryOp::Eq => Some(
            if left == right {
                1
            } else {
                0
            },
        ),
        BinaryOp::Lt => Some(
            if left < right {
                1
            } else {
                0
            },
        ),
        BinaryOp::And => Some(left & right),
        BinaryOp::Or => Some(left | right),
        BinaryOp::Xor => Some(left ^ right),
        BinaryOp::Shl | BinaryOp::Shr => None,
    };
    proof {
        crate::field::lemma_pow2_below_128(bits);
    }
    match result {
        Some(number) => {
            if number < limit {
                let typ = match operator {
                    BinaryOp::Eq | BinaryOp::Lt => Type::bool(),
                    _ => typ.clone(),
                };
                Some((FieldElement::from_u128(number), typ))
            } else {
                None
            }
        },
        None => None,
    }
}

/// A number is below 2^128 exactly if its quotient by 2^128 is zero.
proof fn lemma_high_zero(number: nat)
    ensures
        number / two_pow_128() == 0 <==> number < two_pow_128(),
{
    assert(number / two_pow_128() == 0 <==> number < two_pow_128()) by (nonlinear_arith)
        requires
            two_pow_128() > 0,
    ;
}

} // verus!

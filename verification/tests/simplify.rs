use ssa_ir::array_chain::{
    try_optimize_array_get_from_previous_set, try_optimize_array_set_from_previous_get,
};
use ssa_ir::binary::BinaryOp;
use ssa_ir::dfg::DataFlowGraph;
use ssa_ir::error::ConstrainError;
use ssa_ir::field::FieldElement;
use ssa_ir::ids::{BasicBlockId, InstructionId, Location, ValueId};
use ssa_ir::instruction::Instruction;
use ssa_ir::intrinsic::Intrinsic;
use ssa_ir::simplify_result::SimplifyResult;
use ssa_ir::types::Type;
use ssa_ir::value::Value;
use ssa_ir::vector::CallStack;

fn graph() -> (DataFlowGraph, BasicBlockId) {
    let mut dfg = DataFlowGraph::new();
    let block = dfg.make_block();
    (dfg, block)
}

fn constant(dfg: &mut DataFlowGraph, number: u128, typ: Type) -> ValueId {
    dfg.make_constant(FieldElement::from_u128(number), typ)
}

fn no_stack() -> CallStack {
    CallStack::new()
}

/// Adds `body` to `block` as it is and hands back its first result.
fn insert(dfg: &mut DataFlowGraph, block: BasicBlockId, body: Instruction, typ: Option<Type>) -> ValueId {
    let (_, results) =
        dfg.insert_instruction_without_simplification(body, block, typ.map(|typ| vec![typ]), no_stack());
    results[0]
}

fn simplify(dfg: &mut DataFlowGraph, block: BasicBlockId, body: &Instruction) -> SimplifyResult {
    body.simplify(dfg, block, None, &no_stack())
}

fn field_array(length: usize) -> Type {
    Type::Array(Box::new(Type::field()), length)
}

fn make_array(dfg: &mut DataFlowGraph, block: BasicBlockId, elements: &[ValueId]) -> ValueId {
    let body = Instruction::MakeArray {
        elements: elements.iter().copied().collect(),
        typ: field_array(elements.len()),
    };
    insert(dfg, block, body, None)
}

fn array_set(dfg: &mut DataFlowGraph, block: BasicBlockId, array: ValueId, index: ValueId, value: ValueId) -> ValueId {
    insert(dfg, block, Instruction::ArraySet { array, index, value, mutable: false }, None)
}

fn assert_constant(dfg: &DataFlowGraph, value: ValueId, number: u128, typ: Type) {
    assert_eq!(
        dfg.value(value),
        &Value::NumericConstant { constant: FieldElement::from_u128(number), typ }
    );
}

#[test]
fn not_of_an_unsigned_constant_flips_the_bits_of_its_type() {
    let (mut dfg, block) = graph();
    let c = constant(&mut dfg, 0x0f, Type::unsigned(8));
    let before = dfg.num_values();
    match simplify(&mut dfg, block, &Instruction::Not(c)) {
        SimplifyResult::SimplifiedTo(value) => {
            assert_eq!(value, ValueId(before));
            assert_constant(&dfg, value, 0xf0, Type::unsigned(8));
        }
        other => panic!("not simplified to a value: {other:?}"),
    }
    assert_eq!(dfg.num_values(), before + 1);
}

#[test]
fn not_of_other_unsigned_constants() {
    let (mut dfg, block) = graph();
    for (number, bits, expected) in [
        (0u128, 1u32, 1u128),
        (1, 1, 0),
        (0, 8, 0xff),
        (0xff, 8, 0),
        (0x1234, 16, 0xedcb),
        (5, 64, u64::MAX as u128 - 5),
        (7, 128, u128::MAX - 7),
    ] {
        let c = constant(&mut dfg, number, Type::unsigned(bits));
        match simplify(&mut dfg, block, &Instruction::Not(c)) {
            SimplifyResult::SimplifiedTo(value) => {
                assert_constant(&dfg, value, expected, Type::unsigned(bits))
            }
            other => panic!("not simplified to a value: {other:?}"),
        }
    }
}

#[test]
fn not_of_a_field_or_signed_constant_stays() {
    let (mut dfg, block) = graph();
    let field = constant(&mut dfg, 0x0f, Type::field());
    assert_eq!(simplify(&mut dfg, block, &Instruction::Not(field)), SimplifyResult::Unchanged);
    let signed = constant(&mut dfg, 0x0f, Type::signed(8));
    assert_eq!(simplify(&mut dfg, block, &Instruction::Not(signed)), SimplifyResult::Unchanged);
    let parameter = dfg.add_block_parameter(block, Type::unsigned(8));
    assert_eq!(simplify(&mut dfg, block, &Instruction::Not(parameter)), SimplifyResult::Unchanged);
}

#[test]
fn not_of_not_is_the_value() {
    let (mut dfg, block) = graph();
    let v = dfg.add_block_parameter(block, Type::unsigned(8));
    let negated = insert(&mut dfg, block, Instruction::Not(v), None);
    assert_eq!(simplify(&mut dfg, block, &Instruction::Not(negated)), SimplifyResult::SimplifiedTo(v));
    // Also through a replaced value.
    let alias = dfg.add_block_parameter(block, Type::unsigned(8));
    dfg.set_value_from_id(alias, negated);
    assert_eq!(simplify(&mut dfg, block, &Instruction::Not(alias)), SimplifyResult::SimplifiedTo(v));
    // The negation of another instruction's result stays.
    let cast = insert(&mut dfg, block, Instruction::Cast(v, Type::unsigned(8)), None);
    assert_eq!(simplify(&mut dfg, block, &Instruction::Not(cast)), SimplifyResult::Unchanged);
}

/// The chain of writes: v0 = [10, 11, 12]; v1 = v0 with 5 at 1;
/// v2 = v1 with 6 at 2; v3 = v2 with 7 at 2.
fn chain() -> (DataFlowGraph, BasicBlockId, Vec<ValueId>, ValueId) {
    let (mut dfg, block) = graph();
    let elements: Vec<ValueId> =
        [10u128, 11, 12].iter().map(|n| constant(&mut dfg, *n, Type::field())).collect();
    let v0 = make_array(&mut dfg, block, &elements);
    let one = constant(&mut dfg, 1, Type::length_type());
    let two = constant(&mut dfg, 2, Type::length_type());
    let five = constant(&mut dfg, 5, Type::field());
    let six = constant(&mut dfg, 6, Type::field());
    let seven = constant(&mut dfg, 7, Type::field());
    let v1 = array_set(&mut dfg, block, v0, one, five);
    let v2 = array_set(&mut dfg, block, v1, two, six);
    let v3 = array_set(&mut dfg, block, v2, two, seven);
    (dfg, block, elements, v3)
}

#[test]
fn array_get_walks_past_writes_at_other_indices() {
    let (mut dfg, block, elements, v3) = chain();
    let zero = constant(&mut dfg, 0, Type::length_type());
    let get = Instruction::ArrayGet { array: v3, index: zero };
    let result = simplify(&mut dfg, block, &get);
    assert_eq!(result, SimplifyResult::SimplifiedTo(elements[0]));
    assert_constant(&dfg, elements[0], 10, Type::field());
}

#[test]
fn array_get_stops_at_a_write_to_its_index() {
    let (mut dfg, block, _, v3) = chain();
    let one = constant(&mut dfg, 1, Type::length_type());
    let two = constant(&mut dfg, 2, Type::length_type());
    // Index 1 was written two steps back: the walk ends there, with nothing.
    assert_eq!(
        simplify(&mut dfg, block, &Instruction::ArrayGet { array: v3, index: one }),
        SimplifyResult::Unchanged
    );
    assert_eq!(
        simplify(&mut dfg, block, &Instruction::ArrayGet { array: v3, index: two }),
        SimplifyResult::Unchanged
    );
}

#[test]
fn array_get_reads_an_array_made_from_its_elements() {
    let (mut dfg, block) = graph();
    let a = dfg.add_block_parameter(block, Type::field());
    let b = dfg.add_block_parameter(block, Type::field());
    let array = make_array(&mut dfg, block, &[a, b]);
    for (index, expected) in [
        (0u128, SimplifyResult::SimplifiedTo(a)),
        (1, SimplifyResult::SimplifiedTo(b)),
        (2, SimplifyResult::Unchanged),
        (u64::MAX as u128 + 1, SimplifyResult::Unchanged),
    ] {
        let index = constant(&mut dfg, index, Type::field());
        assert_eq!(simplify(&mut dfg, block, &Instruction::ArrayGet { array, index }), expected);
    }
    // An index that is no constant is not looked up.
    let i = dfg.add_block_parameter(block, Type::length_type());
    assert_eq!(
        simplify(&mut dfg, block, &Instruction::ArrayGet { array, index: i }),
        SimplifyResult::Unchanged
    );
    // An array that no instruction defines is not looked into.
    let unknown = dfg.add_block_parameter(block, field_array(2));
    let zero = constant(&mut dfg, 0, Type::length_type());
    assert_eq!(
        simplify(&mut dfg, block, &Instruction::ArrayGet { array: unknown, index: zero }),
        SimplifyResult::Unchanged
    );
}

#[test]
fn array_get_gives_up_after_five_definitions() {
    let (mut dfg, block) = graph();
    let a = dfg.add_block_parameter(block, Type::field());
    let x = dfg.add_block_parameter(block, Type::field());
    let zero = constant(&mut dfg, 0, Type::length_type());
    let two = constant(&mut dfg, 2, Type::length_type());
    let mut array = make_array(&mut dfg, block, &[a, a, a]);
    // Four writes and the array itself: five definitions, still found.
    for _ in 0..4 {
        array = array_set(&mut dfg, block, array, two, x);
    }
    assert_eq!(
        try_optimize_array_get_from_previous_set(&dfg, array, FieldElement::zero()),
        SimplifyResult::SimplifiedTo(a)
    );
    assert_eq!(
        simplify(&mut dfg, block, &Instruction::ArrayGet { array, index: zero }),
        SimplifyResult::SimplifiedTo(a)
    );
    // One more write: the array is the sixth definition, out of reach.
    array = array_set(&mut dfg, block, array, two, x);
    assert_eq!(
        try_optimize_array_get_from_previous_set(&dfg, array, FieldElement::zero()),
        SimplifyResult::Unchanged
    );
}

#[test]
fn array_get_stops_at_a_write_to_an_unknown_index() {
    let (mut dfg, block) = graph();
    let a = dfg.add_block_parameter(block, Type::field());
    let i = dfg.add_block_parameter(block, Type::length_type());
    let array = make_array(&mut dfg, block, &[a, a]);
    let written = array_set(&mut dfg, block, array, i, a);
    assert_eq!(
        try_optimize_array_get_from_previous_set(&dfg, written, FieldElement::zero()),
        SimplifyResult::Unchanged
    );
}

#[test]
fn array_set_of_what_was_read_is_the_array() {
    let (mut dfg, block) = graph();
    let a = dfg.add_block_parameter(block, Type::field());
    let b = dfg.add_block_parameter(block, Type::field());
    let c = dfg.add_block_parameter(block, Type::field());
    let i = dfg.add_block_parameter(block, Type::length_type());
    let v0 = make_array(&mut dfg, block, &[a, b, c]);
    let v1 = insert(&mut dfg, block, Instruction::ArrayGet { array: v0, index: i }, Some(Type::field()));
    let set = Instruction::ArraySet { array: v0, index: i, value: v1, mutable: false };
    assert_eq!(simplify(&mut dfg, block, &set), SimplifyResult::SimplifiedTo(v0));
    assert_eq!(try_optimize_array_set_from_previous_get(&dfg, v0, i, v1), SimplifyResult::SimplifiedTo(v0));
    // A value read at another index is a real write.
    let j = dfg.add_block_parameter(block, Type::length_type());
    let set = Instruction::ArraySet { array: v0, index: j, value: v1, mutable: false };
    assert_eq!(simplify(&mut dfg, block, &set), SimplifyResult::Unchanged);
    // So is a value that was not read from an array.
    let set = Instruction::ArraySet { array: v0, index: i, value: a, mutable: false };
    assert_eq!(simplify(&mut dfg, block, &set), SimplifyResult::Unchanged);
}

#[test]
fn array_set_follows_writes_at_other_indices_back_to_the_read() {
    let (mut dfg, block) = graph();
    let v1 = dfg.add_block_parameter(block, field_array(3));
    let x = dfg.add_block_parameter(block, Type::field());
    let one = constant(&mut dfg, 1, Type::length_type());
    let two = constant(&mut dfg, 2, Type::length_type());
    // v3 = v1[1]; v5 = v1 with x at 2; writing v3 to v5 at 1 changes nothing.
    let v3 = insert(&mut dfg, block, Instruction::ArrayGet { array: v1, index: one }, Some(Type::field()));
    let v5 = array_set(&mut dfg, block, v1, two, x);
    assert_eq!(
        try_optimize_array_set_from_previous_get(&dfg, v5, one, v3),
        SimplifyResult::SimplifiedTo(v5)
    );
    let set = Instruction::ArraySet { array: v5, index: one, value: v3, mutable: true };
    assert_eq!(simplify(&mut dfg, block, &set), SimplifyResult::SimplifiedTo(v5));
    // A write to index 1 in between makes the write real.
    let v6 = array_set(&mut dfg, block, v1, one, x);
    assert_eq!(try_optimize_array_set_from_previous_get(&dfg, v6, one, v3), SimplifyResult::Unchanged);
    // An index that is no constant cannot be followed.
    let i = dfg.add_block_parameter(block, Type::length_type());
    let read = insert(&mut dfg, block, Instruction::ArrayGet { array: v1, index: i }, Some(Type::field()));
    assert_eq!(try_optimize_array_set_from_previous_get(&dfg, v5, i, read), SimplifyResult::Unchanged);
}

#[test]
fn array_set_into_a_made_array_makes_a_new_array() {
    let (mut dfg, block) = graph();
    let a = dfg.add_block_parameter(block, Type::field());
    let b = dfg.add_block_parameter(block, Type::field());
    let x = dfg.add_block_parameter(block, Type::field());
    let array = make_array(&mut dfg, block, &[a, b, a]);
    let one = constant(&mut dfg, 1, Type::length_type());
    let set = Instruction::ArraySet { array, index: one, value: x, mutable: false };
    let instructions_before = dfg.block_instructions(block).len();
    let result = simplify(&mut dfg, block, &set);
    let SimplifyResult::SimplifiedTo(new_array) = result else {
        panic!("not simplified to a value: {result:?}");
    };
    assert_ne!(new_array, array);
    let expected: im::Vector<ValueId> = [a, x, a].into_iter().collect();
    assert_eq!(dfg.get_array_constant(new_array), Some((expected, field_array(3))));
    // The old array is as it was.
    let old: im::Vector<ValueId> = [a, b, a].into_iter().collect();
    assert_eq!(dfg.get_array_constant(array), Some((old, field_array(3))));
    assert_eq!(dfg.block_instructions(block).len(), instructions_before + 1);
    assert_eq!(dfg.type_of_value(new_array), field_array(3));
    // Out of bounds nothing is made.
    let three = constant(&mut dfg, 3, Type::length_type());
    let set = Instruction::ArraySet { array, index: three, value: x, mutable: false };
    assert_eq!(simplify(&mut dfg, block, &set), SimplifyResult::Unchanged);
}

#[test]
fn truncate_to_the_full_size_is_the_value() {
    let (mut dfg, block) = graph();
    let v = dfg.add_block_parameter(block, Type::unsigned(32));
    let inner = insert(&mut dfg, block, Instruction::Truncate { value: v, bit_size: 8, max_bit_size: 32 }, None);
    let outer = Instruction::Truncate { value: inner, bit_size: 8, max_bit_size: 8 };
    assert_eq!(simplify(&mut dfg, block, &outer), SimplifyResult::SimplifiedTo(inner));
    let outer = Instruction::Truncate { value: v, bit_size: 16, max_bit_size: 16 };
    assert_eq!(simplify(&mut dfg, block, &outer), SimplifyResult::SimplifiedTo(v));
}

#[test]
fn truncate_of_a_shorter_truncation_is_the_value() {
    let (mut dfg, block) = graph();
    let v = dfg.add_block_parameter(block, Type::unsigned(32));
    let inner = insert(&mut dfg, block, Instruction::Truncate { value: v, bit_size: 8, max_bit_size: 32 }, None);
    for (bit_size, max_bit_size, expected) in [
        (8, 9, SimplifyResult::SimplifiedTo(inner)),
        (9, 8, SimplifyResult::SimplifiedTo(inner)),
        (16, 32, SimplifyResult::SimplifiedTo(inner)),
        (7, 32, SimplifyResult::Unchanged),
        (16, 7, SimplifyResult::Unchanged),
    ] {
        let outer = Instruction::Truncate { value: inner, bit_size, max_bit_size };
        assert_eq!(simplify(&mut dfg, block, &outer), expected, "{bit_size} {max_bit_size}");
    }
}

#[test]
fn truncate_of_a_constant_keeps_the_low_bits() {
    let (mut dfg, block) = graph();
    for (number, bits, expected) in [
        (0x1234u128, 8u32, 0x34u128),
        (0x1234, 4, 4),
        (0x1234, 16, 0x1234),
        (0xff, 1, 1),
        (255, 0, 0),
        (u128::MAX, 127, u128::MAX >> 1),
        (u128::MAX, 128, u128::MAX),
        (u128::MAX, 200, u128::MAX),
    ] {
        let c = constant(&mut dfg, number, Type::unsigned(64));
        let truncate = Instruction::Truncate { value: c, bit_size: bits, max_bit_size: 254 };
        match simplify(&mut dfg, block, &truncate) {
            SimplifyResult::SimplifiedTo(value) => {
                assert_constant(&dfg, value, expected, Type::unsigned(64))
            }
            other => panic!("not simplified to a value: {other:?}"),
        }
    }
}

#[test]
fn truncate_after_a_division_by_a_constant() {
    let (mut dfg, block) = graph();
    let x = dfg.add_block_parameter(block, Type::unsigned(32));
    // 256 has 9 bits: the quotient of a 32-bit number has at most 23.
    let divisor = constant(&mut dfg, 256, Type::unsigned(32));
    let quotient = insert(&mut dfg, block, Instruction::binary(BinaryOp::Div, x, divisor), None);
    let truncate = Instruction::Truncate { value: quotient, bit_size: 24, max_bit_size: 32 };
    assert_eq!(simplify(&mut dfg, block, &truncate), SimplifyResult::SimplifiedTo(quotient));
    let truncate = Instruction::Truncate { value: quotient, bit_size: 23, max_bit_size: 32 };
    assert_eq!(simplify(&mut dfg, block, &truncate), SimplifyResult::Unchanged);
    // A divisor that is no constant says nothing.
    let y = dfg.add_block_parameter(block, Type::unsigned(32));
    let quotient = insert(&mut dfg, block, Instruction::binary(BinaryOp::Div, x, y), None);
    let truncate = Instruction::Truncate { value: quotient, bit_size: 31, max_bit_size: 32 };
    assert_eq!(simplify(&mut dfg, block, &truncate), SimplifyResult::Unchanged);
    // Nor does another operator.
    let product = insert(&mut dfg, block, Instruction::binary(BinaryOp::Mul, x, divisor), None);
    let truncate = Instruction::Truncate { value: product, bit_size: 31, max_bit_size: 32 };
    assert_eq!(simplify(&mut dfg, block, &truncate), SimplifyResult::Unchanged);
}

#[test]
fn adjacent_enable_side_effects_become_one() {
    let (mut dfg, block) = graph();
    let c1 = dfg.add_block_parameter(block, Type::bool());
    let c2 = dfg.add_block_parameter(block, Type::bool());
    let (first, _) = dfg.insert_instruction_without_simplification(
        Instruction::EnableSideEffectsIf { condition: c1 },
        block,
        None,
        no_stack(),
    );
    let second = Instruction::EnableSideEffectsIf { condition: c2 };
    assert_eq!(simplify(&mut dfg, block, &second), SimplifyResult::Remove);
    assert_eq!(dfg.block_instructions(block), &vec![first]);
    assert_eq!(dfg.instruction(first), &Instruction::EnableSideEffectsIf { condition: c2 });
}

#[test]
fn enable_side_effects_after_anything_else_stays() {
    let (mut dfg, block) = graph();
    let c = dfg.add_block_parameter(block, Type::bool());
    let enable = Instruction::EnableSideEffectsIf { condition: c };
    // In an empty block.
    assert_eq!(simplify(&mut dfg, block, &enable), SimplifyResult::Unchanged);
    // After another instruction.
    dfg.insert_instruction_without_simplification(enable.clone(), block, None, no_stack());
    let (not, _) = dfg.insert_instruction_without_simplification(Instruction::Not(c), block, None, no_stack());
    assert_eq!(simplify(&mut dfg, block, &enable), SimplifyResult::Unchanged);
    assert_eq!(dfg.block_instructions(block).len(), 2);
    assert_eq!(dfg.instruction(not), &Instruction::Not(c));
    assert_eq!(dfg.instruction(InstructionId(0)), &enable);
}

#[test]
fn range_check_of_a_value_that_fits_goes() {
    let (mut dfg, block) = graph();
    let byte = dfg.add_block_parameter(block, Type::unsigned(8));
    let check = |max_bit_size| Instruction::RangeCheck { value: byte, max_bit_size, assert_message: None };
    assert_eq!(simplify(&mut dfg, block, &check(9)), SimplifyResult::Remove);
    assert_eq!(simplify(&mut dfg, block, &check(8)), SimplifyResult::Unchanged);
    assert_eq!(simplify(&mut dfg, block, &check(7)), SimplifyResult::Unchanged);
    // A constant has the bits it needs: 255 has eight.
    let c = constant(&mut dfg, 255, Type::field());
    let check = |max_bit_size| Instruction::RangeCheck { value: c, max_bit_size, assert_message: None };
    assert_eq!(simplify(&mut dfg, block, &check(9)), SimplifyResult::Remove);
    assert_eq!(simplify(&mut dfg, block, &check(8)), SimplifyResult::Unchanged);
    // The result of a cast has the bits of what was cast.
    let wide = insert(&mut dfg, block, Instruction::Cast(byte, Type::unsigned(64)), None);
    let check = |max_bit_size| Instruction::RangeCheck { value: wide, max_bit_size, assert_message: None };
    assert_eq!(dfg.get_value_max_num_bits(wide), 8);
    assert_eq!(simplify(&mut dfg, block, &check(9)), SimplifyResult::Remove);
    assert_eq!(simplify(&mut dfg, block, &check(8)), SimplifyResult::Unchanged);
}

#[test]
fn if_else_with_a_constant_condition_picks_its_branch() {
    let (mut dfg, block) = graph();
    let a = dfg.add_block_parameter(block, Type::field());
    let b = dfg.add_block_parameter(block, Type::field());
    let other = dfg.add_block_parameter(block, Type::bool());
    let one = constant(&mut dfg, 1, Type::bool());
    let zero = constant(&mut dfg, 0, Type::bool());
    let if_else = |then_condition| Instruction::IfElse {
        then_condition,
        then_value: a,
        else_condition: other,
        else_value: b,
    };
    assert_eq!(simplify(&mut dfg, block, &if_else(one)), SimplifyResult::SimplifiedTo(a));
    assert_eq!(simplify(&mut dfg, block, &if_else(zero)), SimplifyResult::SimplifiedTo(b));
}

#[test]
fn if_else_of_equal_branches_is_the_branch() {
    let (mut dfg, block) = graph();
    let a = dfg.add_block_parameter(block, Type::field());
    let alias = dfg.add_block_parameter(block, Type::field());
    let c = dfg.add_block_parameter(block, Type::bool());
    let n = dfg.add_block_parameter(block, Type::bool());
    dfg.set_value_from_id(alias, a);
    let if_else =
        Instruction::IfElse { then_condition: c, then_value: alias, else_condition: n, else_value: a };
    assert_eq!(simplify(&mut dfg, block, &if_else), SimplifyResult::SimplifiedTo(a));
}

#[test]
fn if_else_of_numeric_values_merges_them() {
    let (mut dfg, block) = graph();
    let a = dfg.add_block_parameter(block, Type::unsigned(32));
    let b = dfg.add_block_parameter(block, Type::unsigned(32));
    let c = dfg.add_block_parameter(block, Type::bool());
    let n = dfg.add_block_parameter(block, Type::bool());
    let if_else = Instruction::IfElse { then_condition: c, then_value: a, else_condition: n, else_value: b };
    let result = simplify(&mut dfg, block, &if_else);
    let SimplifyResult::SimplifiedTo(sum) = result else {
        panic!("not simplified to a value: {result:?}");
    };
    let added = dfg.block_instructions(block).clone();
    assert_eq!(added.len(), 5);
    let result_of = |instruction: InstructionId| dfg.instruction_results(instruction)[0];
    assert_eq!(dfg.instruction(added[0]), &Instruction::Cast(c, Type::unsigned(32)));
    assert_eq!(dfg.instruction(added[1]), &Instruction::Cast(n, Type::unsigned(32)));
    assert_eq!(dfg.instruction(added[2]), &Instruction::binary(BinaryOp::Mul, result_of(added[0]), a));
    assert_eq!(dfg.instruction(added[3]), &Instruction::binary(BinaryOp::Mul, result_of(added[1]), b));
    assert_eq!(
        dfg.instruction(added[4]),
        &Instruction::binary(BinaryOp::Add, result_of(added[2]), result_of(added[3]))
    );
    assert_eq!(sum, result_of(added[4]));
    assert_eq!(dfg.type_of_value(sum), Type::unsigned(32));
}

#[test]
fn if_else_of_other_values_stays() {
    let (mut dfg, block) = graph();
    let a = dfg.add_block_parameter(block, field_array(2));
    let b = dfg.add_block_parameter(block, field_array(2));
    let c = dfg.add_block_parameter(block, Type::bool());
    let n = dfg.add_block_parameter(block, Type::bool());
    let if_else = Instruction::IfElse { then_condition: c, then_value: a, else_condition: n, else_value: b };
    assert_eq!(simplify(&mut dfg, block, &if_else), SimplifyResult::Unchanged);
    assert_eq!(dfg.block_instructions(block).len(), 0);
}

#[test]
fn merged_instructions_take_the_call_stack_of_a_branch() {
    let (mut dfg, block) = graph();
    let x = dfg.add_block_parameter(block, Type::unsigned(8));
    let c = dfg.add_block_parameter(block, Type::bool());
    let n = dfg.add_block_parameter(block, Type::bool());
    let stack: CallStack = [Location { file: 3, start: 1, end: 2 }].into_iter().collect();
    let (_, results) =
        dfg.insert_instruction_without_simplification(Instruction::Not(x), block, None, stack.clone());
    let b = results[0];
    assert_eq!(dfg.get_value_call_stack(b), stack);
    assert_eq!(dfg.get_value_call_stack(x), CallStack::new());
    // The first branch has no call stack: that of the second is taken.
    let if_else = Instruction::IfElse { then_condition: c, then_value: x, else_condition: n, else_value: b };
    let SimplifyResult::SimplifiedTo(sum) = simplify(&mut dfg, block, &if_else) else {
        panic!("not merged");
    };
    assert_eq!(dfg.get_value_call_stack(sum), stack);
}

#[test]
fn instructions_that_never_simplify() {
    let (mut dfg, block) = graph();
    let a = dfg.add_block_parameter(block, Type::field());
    let elements: im::Vector<ValueId> = [a].into_iter().collect();
    for body in [
        Instruction::Allocate,
        Instruction::Load { address: a },
        Instruction::Store { address: a, value: a },
        Instruction::IncrementRc { value: a },
        Instruction::DecrementRc { value: a },
        Instruction::MakeArray { elements, typ: field_array(1) },
    ] {
        let values = dfg.num_values();
        assert_eq!(simplify(&mut dfg, block, &body), SimplifyResult::Unchanged);
        assert_eq!(dfg.num_values(), values);
    }
}

#[test]
fn a_constraint_of_a_value_with_itself_goes() {
    let (mut dfg, block) = graph();
    let a = dfg.add_block_parameter(block, Type::field());
    let alias = dfg.add_block_parameter(block, Type::field());
    dfg.set_value_from_id(alias, a);
    assert_eq!(simplify(&mut dfg, block, &Instruction::Constrain(a, a, None)), SimplifyResult::Remove);
    assert_eq!(simplify(&mut dfg, block, &Instruction::Constrain(alias, a, None)), SimplifyResult::Remove);
}

#[test]
fn a_constraint_moves_to_the_operands_of_what_it_constrains() {
    let (mut dfg, block) = graph();
    let a = dfg.add_block_parameter(block, Type::bool());
    let b = dfg.add_block_parameter(block, Type::bool());
    let alias = dfg.add_block_parameter(block, Type::bool());
    dfg.set_value_from_id(alias, a);
    let one = constant(&mut dfg, 1, Type::bool());
    let zero = constant(&mut dfg, 0, Type::bool());
    let message = || Some(ConstrainError::StaticString("must hold".to_owned()));

    // Any other constraint stays, over the resolved sides.
    assert_eq!(
        simplify(&mut dfg, block, &Instruction::Constrain(alias, b, message())),
        SimplifyResult::SimplifiedToInstructionMultiple(vec![Instruction::Constrain(a, b, message())])
    );

    // (a == b) == 1  =>  a == b
    let equal = insert(&mut dfg, block, Instruction::binary(BinaryOp::Eq, a, b), None);
    assert_eq!(
        simplify(&mut dfg, block, &Instruction::Constrain(equal, one, message())),
        SimplifyResult::SimplifiedToInstructionMultiple(vec![Instruction::Constrain(a, b, message())])
    );
    assert_eq!(
        simplify(&mut dfg, block, &Instruction::Constrain(one, equal, None)),
        SimplifyResult::SimplifiedToInstructionMultiple(vec![Instruction::Constrain(a, b, None)])
    );
    assert_eq!(
        simplify(&mut dfg, block, &Instruction::Constrain(equal, zero, None)),
        SimplifyResult::SimplifiedToInstructionMultiple(vec![Instruction::Constrain(equal, zero, None)])
    );

    // a * b == 1  =>  a == 1, b == 1
    let product = insert(&mut dfg, block, Instruction::binary(BinaryOp::Mul, a, b), None);
    let fresh = ValueId(dfg.num_values());
    assert_eq!(
        simplify(&mut dfg, block, &Instruction::Constrain(product, one, None)),
        SimplifyResult::SimplifiedToInstructionMultiple(vec![
            Instruction::Constrain(a, fresh, None),
            Instruction::Constrain(b, fresh, None),
        ])
    );
    assert_constant(&dfg, fresh, 1, Type::bool());

    // a | b == 0  =>  a == 0, b == 0
    let either = insert(&mut dfg, block, Instruction::binary(BinaryOp::Or, a, b), None);
    let fresh = ValueId(dfg.num_values());
    assert_eq!(
        simplify(&mut dfg, block, &Instruction::Constrain(either, zero, None)),
        SimplifyResult::SimplifiedToInstructionMultiple(vec![
            Instruction::Constrain(a, fresh, None),
            Instruction::Constrain(b, fresh, None),
        ])
    );
    assert_constant(&dfg, fresh, 0, Type::bool());

    // !a == 1  =>  a == 0
    let negated = insert(&mut dfg, block, Instruction::Not(a), None);
    let fresh = ValueId(dfg.num_values());
    assert_eq!(
        simplify(&mut dfg, block, &Instruction::Constrain(negated, one, None)),
        SimplifyResult::SimplifiedToInstructionMultiple(vec![Instruction::Constrain(a, fresh, None)])
    );
    assert_constant(&dfg, fresh, 0, Type::bool());
    let fresh = ValueId(dfg.num_values());
    assert_eq!(
        simplify(&mut dfg, block, &Instruction::Constrain(zero, negated, None)),
        SimplifyResult::SimplifiedToInstructionMultiple(vec![Instruction::Constrain(a, fresh, None)])
    );
    assert_constant(&dfg, fresh, 1, Type::bool());
}

#[test]
fn casts_fold_constants_and_drop_casts_that_do_nothing() {
    let (mut dfg, block) = graph();
    let x = dfg.add_block_parameter(block, Type::unsigned(32));
    // A cast to the type the value has.
    assert_eq!(
        simplify(&mut dfg, block, &Instruction::Cast(x, Type::unsigned(32))),
        SimplifyResult::SimplifiedTo(x)
    );
    assert_eq!(simplify(&mut dfg, block, &Instruction::Cast(x, Type::unsigned(8))), SimplifyResult::Unchanged);
    // A cast of a cast.
    let cast = insert(&mut dfg, block, Instruction::Cast(x, Type::unsigned(64)), None);
    assert_eq!(
        simplify(&mut dfg, block, &Instruction::Cast(cast, Type::field())),
        SimplifyResult::SimplifiedToInstruction(Instruction::Cast(x, Type::field()))
    );
    // Constants.
    let wide = constant(&mut dfg, 0x1234, Type::unsigned(32));
    match simplify(&mut dfg, block, &Instruction::Cast(wide, Type::unsigned(8))) {
        SimplifyResult::SimplifiedTo(value) => assert_constant(&dfg, value, 0x34, Type::unsigned(8)),
        other => panic!("not simplified to a value: {other:?}"),
    }
    match simplify(&mut dfg, block, &Instruction::Cast(wide, Type::signed(4))) {
        SimplifyResult::SimplifiedTo(value) => assert_constant(&dfg, value, 4, Type::signed(4)),
        other => panic!("not simplified to a value: {other:?}"),
    }
    match simplify(&mut dfg, block, &Instruction::Cast(wide, Type::field())) {
        SimplifyResult::SimplifiedTo(value) => assert_constant(&dfg, value, 0x1234, Type::field()),
        other => panic!("not simplified to a value: {other:?}"),
    }
    let field = constant(&mut dfg, 77, Type::field());
    assert_eq!(
        simplify(&mut dfg, block, &Instruction::Cast(field, Type::field())),
        SimplifyResult::SimplifiedTo(field)
    );
    assert_eq!(
        simplify(&mut dfg, block, &Instruction::Cast(field, field_array(1))),
        SimplifyResult::Unchanged
    );
    let high = dfg.make_constant(FieldElement::new(5, 9).unwrap(), Type::field());
    match simplify(&mut dfg, block, &Instruction::Cast(high, Type::unsigned(130))) {
        SimplifyResult::SimplifiedTo(value) => assert_eq!(
            dfg.value(value),
            &Value::NumericConstant {
                constant: FieldElement::new(1, 9).unwrap(),
                typ: Type::unsigned(130)
            }
        ),
        other => panic!("not simplified to a value: {other:?}"),
    }
}

#[test]
fn binary_operations_fold_unsigned_constants() {
    let (mut dfg, block) = graph();
    let folds = [
        (BinaryOp::Add, 200u128, 55u128, Some((255u128, Type::unsigned(8)))),
        (BinaryOp::Add, 200, 56, None),
        (BinaryOp::Sub, 5, 3, Some((2, Type::unsigned(8)))),
        (BinaryOp::Sub, 3, 5, None),
        (BinaryOp::Mul, 15, 17, Some((255, Type::unsigned(8)))),
        (BinaryOp::Mul, 16, 16, None),
        (BinaryOp::Div, 7, 2, Some((3, Type::unsigned(8)))),
        (BinaryOp::Div, 7, 0, None),
        (BinaryOp::Mod, 7, 4, Some((3, Type::unsigned(8)))),
        (BinaryOp::Mod, 7, 0, None),
        (BinaryOp::Eq, 7, 7, Some((1, Type::bool()))),
        (BinaryOp::Eq, 7, 8, Some((0, Type::bool()))),
        (BinaryOp::Lt, 7, 8, Some((1, Type::bool()))),
        (BinaryOp::Lt, 8, 7, Some((0, Type::bool()))),
        (BinaryOp::And, 0b1100, 0b1010, Some((0b1000, Type::unsigned(8)))),
        (BinaryOp::Or, 0b1100, 0b1010, Some((0b1110, Type::unsigned(8)))),
        (BinaryOp::Xor, 0b1100, 0b1010, Some((0b0110, Type::unsigned(8)))),
        (BinaryOp::Shl, 1, 1, None),
        (BinaryOp::Shr, 2, 1, None),
    ];
    for (operator, lhs, rhs, expected) in folds {
        let lhs = constant(&mut dfg, lhs, Type::unsigned(8));
        let rhs = constant(&mut dfg, rhs, Type::unsigned(8));
        let result = simplify(&mut dfg, block, &Instruction::binary(operator, lhs, rhs));
        match (result, expected) {
            (SimplifyResult::SimplifiedTo(value), Some((number, typ))) => {
                assert_constant(&dfg, value, number, typ)
            }
            (SimplifyResult::Unchanged, None) => {}
            (result, expected) => panic!("{operator:?}: {result:?} but expected {expected:?}"),
        }
    }
    // Constants of other types are left alone.
    let lhs = constant(&mut dfg, 2, Type::field());
    let rhs = constant(&mut dfg, 3, Type::field());
    assert_eq!(
        simplify(&mut dfg, block, &Instruction::binary(BinaryOp::Add, lhs, rhs)),
        SimplifyResult::Unchanged
    );
    let lhs = constant(&mut dfg, 2, Type::signed(8));
    let rhs = constant(&mut dfg, 3, Type::signed(8));
    assert_eq!(
        simplify(&mut dfg, block, &Instruction::binary(BinaryOp::Add, lhs, rhs)),
        SimplifyResult::Unchanged
    );
}

#[test]
fn binary_operations_know_their_neutral_elements() {
    let (mut dfg, block) = graph();
    let x = dfg.add_block_parameter(block, Type::unsigned(8));
    let y = dfg.add_block_parameter(block, Type::unsigned(8));
    let zero = constant(&mut dfg, 0, Type::unsigned(8));
    let one = constant(&mut dfg, 1, Type::unsigned(8));
    let to_value = [
        (BinaryOp::Add, zero, x, x),
        (BinaryOp::Add, x, zero, x),
        (BinaryOp::Sub, x, zero, x),
        (BinaryOp::Mul, one, x, x),
        (BinaryOp::Mul, x, one, x),
        (BinaryOp::Div, x, one, x),
        (BinaryOp::And, x, x, x),
        (BinaryOp::Or, zero, x, x),
        (BinaryOp::Or, x, zero, x),
        (BinaryOp::Or, x, x, x),
        (BinaryOp::Xor, zero, x, x),
        (BinaryOp::Xor, x, zero, x),
    ];
    for (operator, lhs, rhs, expected) in to_value {
        assert_eq!(
            simplify(&mut dfg, block, &Instruction::binary(operator, lhs, rhs)),
            SimplifyResult::SimplifiedTo(expected),
            "{operator:?}"
        );
    }
    let to_constant = [
        (BinaryOp::Mul, zero, x, 0u128, Type::unsigned(8)),
        (BinaryOp::Mul, x, zero, 0, Type::unsigned(8)),
        (BinaryOp::Mod, x, one, 0, Type::unsigned(8)),
        (BinaryOp::Eq, x, x, 1, Type::bool()),
        (BinaryOp::Lt, x, x, 0, Type::bool()),
        (BinaryOp::Lt, x, zero, 0, Type::bool()),
        (BinaryOp::And, x, zero, 0, Type::unsigned(8)),
        (BinaryOp::And, zero, x, 0, Type::unsigned(8)),
        (BinaryOp::Xor, x, x, 0, Type::unsigned(8)),
    ];
    for (operator, lhs, rhs, number, typ) in to_constant {
        match simplify(&mut dfg, block, &Instruction::binary(operator, lhs, rhs)) {
            SimplifyResult::SimplifiedTo(value) => assert_constant(&dfg, value, number, typ),
            other => panic!("{operator:?}: {other:?}"),
        }
    }
    for (operator, lhs, rhs) in [
        (BinaryOp::Add, x, y),
        (BinaryOp::Sub, zero, x),
        (BinaryOp::Sub, x, x),
        (BinaryOp::Mul, x, x),
        (BinaryOp::Div, one, x),
        (BinaryOp::Div, x, zero),
        (BinaryOp::Mod, x, zero),
        (BinaryOp::Eq, x, y),
        (BinaryOp::Eq, x, one),
        (BinaryOp::Lt, zero, x),
        (BinaryOp::And, x, y),
        (BinaryOp::Shl, x, zero),
        (BinaryOp::Shr, x, zero),
    ] {
        assert_eq!(
            simplify(&mut dfg, block, &Instruction::binary(operator, lhs, rhs)),
            SimplifyResult::Unchanged,
            "{operator:?}"
        );
    }
}

#[test]
fn binary_operations_on_booleans() {
    let (mut dfg, block) = graph();
    let a = dfg.add_block_parameter(block, Type::bool());
    let b = dfg.add_block_parameter(block, Type::bool());
    let yes = constant(&mut dfg, 1, Type::bool());
    let no = constant(&mut dfg, 0, Type::bool());
    assert_eq!(
        simplify(&mut dfg, block, &Instruction::binary(BinaryOp::Eq, a, yes)),
        SimplifyResult::SimplifiedTo(a)
    );
    assert_eq!(
        simplify(&mut dfg, block, &Instruction::binary(BinaryOp::Eq, yes, a)),
        SimplifyResult::SimplifiedTo(a)
    );
    assert_eq!(
        simplify(&mut dfg, block, &Instruction::binary(BinaryOp::Eq, a, no)),
        SimplifyResult::SimplifiedToInstruction(Instruction::Not(a))
    );
    assert_eq!(
        simplify(&mut dfg, block, &Instruction::binary(BinaryOp::Eq, no, a)),
        SimplifyResult::SimplifiedToInstruction(Instruction::Not(a))
    );
    assert_eq!(
        simplify(&mut dfg, block, &Instruction::binary(BinaryOp::And, a, b)),
        SimplifyResult::SimplifiedToInstruction(Instruction::binary(BinaryOp::Mul, a, b))
    );
    assert_eq!(
        simplify(&mut dfg, block, &Instruction::binary(BinaryOp::Mul, a, a)),
        SimplifyResult::SimplifiedTo(a)
    );
}

#[test]
fn calls_of_intrinsics_simplify_by_what_is_called() {
    let (mut dfg, block) = graph();
    let array = dfg.add_block_parameter(block, field_array(7));
    let slice = dfg.add_block_parameter(block, Type::Slice(Box::new(Type::field())));
    let length = dfg.add_block_parameter(block, Type::length_type());
    let x = dfg.add_block_parameter(block, Type::field());
    let eight = constant(&mut dfg, 8, Type::length_type());
    let yes = constant(&mut dfg, 1, Type::bool());
    let no = constant(&mut dfg, 0, Type::bool());
    let text = dfg.import_foreign_function("message".to_owned());

    let array_len = dfg.import_intrinsic(Intrinsic::ArrayLen);
    match simplify(&mut dfg, block, &Instruction::Call { func: array_len, arguments: vec![array] }) {
        SimplifyResult::SimplifiedTo(value) => assert_constant(&dfg, value, 7, Type::length_type()),
        other => panic!("{other:?}"),
    }
    assert_eq!(
        simplify(&mut dfg, block, &Instruction::Call { func: array_len, arguments: vec![length, slice] }),
        SimplifyResult::SimplifiedTo(length)
    );
    assert_eq!(
        simplify(&mut dfg, block, &Instruction::Call { func: array_len, arguments: vec![x] }),
        SimplifyResult::Unchanged
    );
    assert_eq!(
        simplify(&mut dfg, block, &Instruction::Call { func: array_len, arguments: vec![] }),
        SimplifyResult::Unchanged
    );

    let assert_constant_intrinsic = dfg.import_intrinsic(Intrinsic::AssertConstant);
    assert_eq!(
        simplify(&mut dfg, block, &Instruction::Call { func: assert_constant_intrinsic, arguments: vec![eight, yes] }),
        SimplifyResult::Remove
    );
    assert_eq!(
        simplify(&mut dfg, block, &Instruction::Call { func: assert_constant_intrinsic, arguments: vec![eight, x] }),
        SimplifyResult::Unchanged
    );

    let static_assert = dfg.import_intrinsic(Intrinsic::StaticAssert);
    assert_eq!(
        simplify(&mut dfg, block, &Instruction::Call { func: static_assert, arguments: vec![yes, text] }),
        SimplifyResult::Remove
    );
    assert_eq!(
        simplify(&mut dfg, block, &Instruction::Call { func: static_assert, arguments: vec![no, text] }),
        SimplifyResult::Unchanged
    );
    assert_eq!(
        simplify(&mut dfg, block, &Instruction::Call { func: static_assert, arguments: vec![yes, x] }),
        SimplifyResult::Unchanged
    );

    let range = dfg.import_intrinsic(Intrinsic::ApplyRangeConstraint);
    assert_eq!(
        simplify(&mut dfg, block, &Instruction::Call { func: range, arguments: vec![x, eight] }),
        SimplifyResult::SimplifiedToInstruction(Instruction::RangeCheck {
            value: x,
            max_bit_size: 8,
            assert_message: Some("call to assert_max_bit_size".to_owned()),
        })
    );
    assert_eq!(
        simplify(&mut dfg, block, &Instruction::Call { func: range, arguments: vec![x, length] }),
        SimplifyResult::Unchanged
    );

    let as_field = dfg.import_intrinsic(Intrinsic::AsField);
    assert_eq!(
        simplify(&mut dfg, block, &Instruction::Call { func: as_field, arguments: vec![length] }),
        SimplifyResult::SimplifiedToInstruction(Instruction::Cast(length, Type::field()))
    );
    let from_field = dfg.import_intrinsic(Intrinsic::FromField);
    let call = Instruction::Call { func: from_field, arguments: vec![x] };
    assert_eq!(
        call.simplify(&mut dfg, block, Some(vec![Type::unsigned(16)]), &no_stack()),
        SimplifyResult::SimplifiedToInstruction(Instruction::Cast(x, Type::unsigned(16)))
    );
    assert_eq!(simplify(&mut dfg, block, &call), SimplifyResult::Unchanged);

    // A call of anything but an intrinsic stays.
    let call = Instruction::Call { func: text, arguments: vec![x] };
    assert_eq!(simplify(&mut dfg, block, &call), SimplifyResult::Unchanged);
    let is_unconstrained = dfg.import_intrinsic(Intrinsic::IsUnconstrained);
    let call = Instruction::Call { func: is_unconstrained, arguments: vec![] };
    assert_eq!(simplify(&mut dfg, block, &call), SimplifyResult::Unchanged);
}

#[test]
fn instructions_of_a_result() {
    assert_eq!(SimplifyResult::Unchanged.instructions(), None);
    assert_eq!(SimplifyResult::Remove.instructions(), None);
    assert_eq!(SimplifyResult::SimplifiedTo(ValueId(1)).instructions(), None);
    assert_eq!(SimplifyResult::SimplifiedToMultiple(vec![ValueId(1)]).instructions(), None);
    assert_eq!(
        SimplifyResult::SimplifiedToInstruction(Instruction::Allocate).instructions(),
        Some(vec![Instruction::Allocate])
    );
    assert_eq!(
        SimplifyResult::SimplifiedToInstructionMultiple(vec![
            Instruction::Not(ValueId(1)),
            Instruction::Allocate
        ])
        .instructions(),
        Some(vec![Instruction::Not(ValueId(1)), Instruction::Allocate])
    );
}

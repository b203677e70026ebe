use ssa_ir::dfg::DataFlowGraph;
use ssa_ir::field::FieldElement;
use ssa_ir::ids::{FunctionId, InstructionId, ValueId};
use ssa_ir::instruction::Instruction;
use ssa_ir::intrinsic::Intrinsic;
use ssa_ir::types::{NumericType, Type};
use ssa_ir::value::Value;
use ssa_ir::vector::CallStack;

#[test]
fn a_new_graph_is_empty() {
    let dfg = DataFlowGraph::new();
    assert_eq!(dfg.num_values(), 0);
    assert_eq!(dfg.num_instructions(), 0);
    assert!(!dfg.has_value(ValueId(0)));
    assert!(!dfg.has_instruction(InstructionId(0)));
}

#[test]
fn values_get_the_next_handle_and_their_type() {
    let mut dfg = DataFlowGraph::new();
    let block = dfg.make_block();
    assert!(dfg.has_block(block));
    let parameter = dfg.add_block_parameter(block, Type::unsigned(8));
    let number = dfg.make_constant(FieldElement::from_u128(3), Type::field());
    let function = dfg.import_function(FunctionId(4));
    let intrinsic = dfg.import_intrinsic(Intrinsic::AsSlice);
    let foreign = dfg.import_foreign_function("oracle".to_owned());
    assert_eq!(
        [parameter, number, function, intrinsic, foreign],
        [ValueId(0), ValueId(1), ValueId(2), ValueId(3), ValueId(4)]
    );
    assert_eq!(dfg.num_values(), 5);
    assert_eq!(dfg.value(parameter), &Value::Param { block, position: 0, typ: Type::unsigned(8) });
    assert_eq!(dfg.value(function), &Value::Function(FunctionId(4)));
    assert_eq!(dfg.value(intrinsic), &Value::Intrinsic(Intrinsic::AsSlice));
    assert_eq!(dfg.value(foreign), &Value::ForeignFunction("oracle".to_owned()));
    assert_eq!(dfg.type_of_value(parameter), Type::unsigned(8));
    assert_eq!(dfg.type_of_value(number), Type::field());
    for value in [function, intrinsic, foreign] {
        assert_eq!(dfg.type_of_value(value), Type::Function);
        assert!(dfg.is_constant(value));
    }
    assert!(dfg.is_constant(number));
    assert!(!dfg.is_constant(parameter));
    assert_eq!(dfg.block_parameters(block), &vec![parameter]);
    let second = dfg.add_block_parameter(block, Type::field());
    assert_eq!(dfg.value(second), &Value::Param { block, position: 1, typ: Type::field() });
}

#[test]
fn constants_are_found_through_replacements() {
    let mut dfg = DataFlowGraph::new();
    let block = dfg.make_block();
    let a = dfg.add_block_parameter(block, Type::field());
    let b = dfg.add_block_parameter(block, Type::field());
    let seven = dfg.make_constant(FieldElement::from_u128(7), Type::unsigned(8));
    assert_eq!(dfg.get_numeric_constant(a), None);
    assert_eq!(dfg.resolve(a), a);
    dfg.set_value_from_id(a, b);
    dfg.set_value_from_id(b, seven);
    assert_eq!(dfg.resolve(a), seven);
    assert_eq!(dfg.resolve(b), seven);
    assert_eq!(dfg.resolve(seven), seven);
    assert_eq!(dfg.get_numeric_constant(a), Some(FieldElement::from_u128(7)));
    assert_eq!(
        dfg.get_numeric_constant_with_type(a),
        Some((FieldElement::from_u128(7), Type::unsigned(8)))
    );
    assert!(dfg.is_constant(a));
    // The type of a value is its own, whatever has replaced it.
    assert_eq!(dfg.type_of_value(a), Type::field());
    // A value that the graph does not hold resolves to itself.
    assert_eq!(dfg.resolve(ValueId(99)), ValueId(99));
}

#[test]
fn replacements_in_a_circle_end() {
    let mut dfg = DataFlowGraph::new();
    let block = dfg.make_block();
    let a = dfg.add_block_parameter(block, Type::field());
    let b = dfg.add_block_parameter(block, Type::field());
    dfg.set_value_from_id(a, b);
    dfg.set_value_from_id(b, a);
    // Two values, two steps: back where it began.
    assert_eq!(dfg.resolve(a), a);
    assert_eq!(dfg.resolve(b), b);
}

#[test]
fn inserted_instructions_get_results_of_the_right_types() {
    let mut dfg = DataFlowGraph::new();
    let block = dfg.make_block();
    let x = dfg.add_block_parameter(block, Type::unsigned(16));
    let (not, results) =
        dfg.insert_instruction_without_simplification(Instruction::Not(x), block, None, CallStack::new());
    assert_eq!(not, InstructionId(0));
    assert_eq!(results, vec![ValueId(1)]);
    assert_eq!(
        dfg.value(results[0]),
        &Value::Instruction { instruction: not, position: 0, typ: Type::unsigned(16) }
    );
    assert_eq!(dfg.instruction_results(not), &results);
    let (cast, results) = dfg.insert_instruction_without_simplification(
        Instruction::Cast(x, Type::field()),
        block,
        None,
        CallStack::new(),
    );
    assert_eq!(dfg.type_of_value(results[0]), Type::field());
    let (store, results) = dfg.insert_instruction_without_simplification(
        Instruction::Store { address: x, value: x },
        block,
        None,
        CallStack::new(),
    );
    assert!(results.is_empty());
    let (call, results) = dfg.insert_instruction_without_simplification(
        Instruction::Call { func: x, arguments: vec![] },
        block,
        Some(vec![Type::bool(), Type::field()]),
        CallStack::new(),
    );
    assert_eq!(results.len(), 2);
    assert_eq!(
        dfg.value(results[1]),
        &Value::Instruction { instruction: call, position: 1, typ: Type::field() }
    );
    assert_eq!(dfg.block_instructions(block), &vec![not, cast, store, call]);
    assert_eq!(dfg.num_instructions(), 4);
    assert_eq!(dfg.instruction(cast), &Instruction::Cast(x, Type::field()));
    assert!(dfg.has_instruction(call));
}

#[test]
fn set_instruction_changes_one_body() {
    let mut dfg = DataFlowGraph::new();
    let block = dfg.make_block();
    let x = dfg.add_block_parameter(block, Type::bool());
    let y = dfg.add_block_parameter(block, Type::bool());
    let (first, _) =
        dfg.insert_instruction_without_simplification(Instruction::Not(x), block, None, CallStack::new());
    let (second, _) =
        dfg.insert_instruction_without_simplification(Instruction::Not(x), block, None, CallStack::new());
    dfg.set_instruction(first, Instruction::Not(y));
    assert_eq!(dfg.instruction(first), &Instruction::Not(y));
    assert_eq!(dfg.instruction(second), &Instruction::Not(x));
}

#[test]
fn max_num_bits_of_values() {
    let mut dfg = DataFlowGraph::new();
    let block = dfg.make_block();
    let byte = dfg.add_block_parameter(block, Type::unsigned(8));
    let field = dfg.add_block_parameter(block, Type::field());
    let array = dfg.add_block_parameter(block, Type::Array(Box::new(Type::field()), 2));
    let five = dfg.make_constant(FieldElement::from_u128(5), Type::unsigned(64));
    assert_eq!(dfg.get_value_max_num_bits(byte), 8);
    assert_eq!(dfg.get_value_max_num_bits(field), 254);
    assert_eq!(dfg.get_value_max_num_bits(array), u32::MAX);
    assert_eq!(dfg.get_value_max_num_bits(five), 3);
}

#[test]
fn types_know_their_widths() {
    assert_eq!(Type::unsigned(8).bit_size(), 8);
    assert_eq!(Type::signed(16).bit_size(), 16);
    assert_eq!(Type::field().bit_size(), 254);
    assert_eq!(Type::bool(), Type::Numeric(NumericType::Unsigned { bit_size: 1 }));
    assert_eq!(Type::length_type(), Type::unsigned(32));
    assert_eq!(Type::Function.bit_size(), u32::MAX);
    assert!(Type::unsigned(8).is_unsigned());
    assert!(!Type::signed(8).is_unsigned());
    assert!(!Type::field().is_unsigned());
    assert!(!Type::Function.is_unsigned());
    assert!(Type::field().is_numeric());
    assert!(!Type::Slice(Box::new(Type::field())).is_numeric());
    assert_eq!(NumericType::NativeField.bit_size(), 254);
    assert!(NumericType::Unsigned { bit_size: 3 }.is_unsigned());
    let nested = Type::Reference(Box::new(Type::Array(Box::new(Type::unsigned(8)), 4)));
    assert_eq!(nested.clone(), nested);
    assert!(nested.same(&nested.clone()));
    assert!(!nested.same(&Type::Reference(Box::new(Type::Array(Box::new(Type::unsigned(8)), 5)))));
    assert!(!Type::field().same(&Type::unsigned(254)));
}

#[test]
fn array_constants_are_found_through_replacements() {
    let mut dfg = DataFlowGraph::new();
    let block = dfg.make_block();
    let a = dfg.add_block_parameter(block, Type::field());
    let alias = dfg.add_block_parameter(block, Type::Array(Box::new(Type::field()), 1));
    let elements: im::Vector<ValueId> = [a].into_iter().collect();
    let typ = Type::Array(Box::new(Type::field()), 1);
    let (_, results) = dfg.insert_instruction_without_simplification(
        Instruction::MakeArray { elements: elements.clone(), typ: typ.clone() },
        block,
        None,
        CallStack::new(),
    );
    assert_eq!(dfg.get_array_constant(results[0]), Some((elements.clone(), typ.clone())));
    assert_eq!(dfg.get_array_constant(alias), None);
    dfg.set_value_from_id(alias, results[0]);
    assert_eq!(dfg.get_array_constant(alias), Some((elements, typ)));
    assert_eq!(dfg.get_array_constant(a), None);
}

use acvm::acir::BlackBoxFunc;
use ssa_ir::binary::BinaryOp;
use ssa_ir::dfg::DataFlowGraph;
use ssa_ir::field::FieldElement;
use ssa_ir::ids::{BasicBlockId, FunctionId, ValueId};
use ssa_ir::instruction::Instruction;
use ssa_ir::intrinsic::{Endian, Intrinsic};
use ssa_ir::types::Type;

struct Fixture {
    dfg: DataFlowGraph,
    block: BasicBlockId,
    x: ValueId,
    zero: ValueId,
    two: ValueId,
    array: ValueId,
}

fn fixture() -> Fixture {
    let mut dfg = DataFlowGraph::new();
    let block = dfg.make_block();
    let x = dfg.add_block_parameter(block, Type::unsigned(32));
    let zero = dfg.make_constant(FieldElement::zero(), Type::unsigned(32));
    let two = dfg.make_constant(FieldElement::from_u128(2), Type::unsigned(32));
    let array = dfg.add_block_parameter(block, Type::Array(Box::new(Type::field()), 3));
    Fixture { dfg, block, x, zero, two, array }
}

fn call_of(fixture: &mut Fixture, intrinsic: Intrinsic) -> Instruction {
    let func = fixture.dfg.import_intrinsic(intrinsic);
    Instruction::Call { func, arguments: vec![fixture.x] }
}

#[test]
fn a_division_by_zero_is_not_eliminated() {
    let f = fixture();
    let division = Instruction::binary(BinaryOp::Div, f.x, f.zero);
    assert!(!division.can_eliminate_if_unused(&f.dfg));
    let remainder = Instruction::binary(BinaryOp::Mod, f.x, f.zero);
    assert!(!remainder.can_eliminate_if_unused(&f.dfg));
}

#[test]
fn a_division_is_eliminated_only_by_a_constant_divisor_other_than_zero() {
    let f = fixture();
    assert!(Instruction::binary(BinaryOp::Div, f.x, f.two).can_eliminate_if_unused(&f.dfg));
    assert!(Instruction::binary(BinaryOp::Mod, f.x, f.two).can_eliminate_if_unused(&f.dfg));
    assert!(!Instruction::binary(BinaryOp::Div, f.two, f.x).can_eliminate_if_unused(&f.dfg));
    assert!(Instruction::binary(BinaryOp::Add, f.x, f.zero).can_eliminate_if_unused(&f.dfg));
    assert!(Instruction::binary(BinaryOp::Mul, f.x, f.x).can_eliminate_if_unused(&f.dfg));
}

#[test]
fn a_division_by_a_replaced_value_looks_at_what_replaced_it() {
    let mut f = fixture();
    let y = f.dfg.add_block_parameter(f.block, Type::unsigned(32));
    let division = Instruction::binary(BinaryOp::Div, f.x, y);
    assert!(!division.can_eliminate_if_unused(&f.dfg));
    f.dfg.set_value_from_id(y, f.two);
    assert!(division.can_eliminate_if_unused(&f.dfg));
    f.dfg.set_value_from_id(y, f.zero);
    assert!(!division.can_eliminate_if_unused(&f.dfg));
}

#[test]
fn an_unused_multi_scalar_mul_goes_though_it_has_side_effects() {
    let mut f = fixture();
    let intrinsic = Intrinsic::BlackBox(BlackBoxFunc::MultiScalarMul);
    assert!(intrinsic.has_side_effects());
    let call = call_of(&mut f, intrinsic);
    assert!(call.can_eliminate_if_unused(&f.dfg));
    assert!(!call.can_be_deduplicated(&f.dfg, false));
    assert!(!call.can_be_deduplicated(&f.dfg, true));

    let intrinsic = Intrinsic::BlackBox(BlackBoxFunc::EmbeddedCurveAdd);
    assert!(intrinsic.has_side_effects());
    assert!(call_of(&mut f, intrinsic).can_eliminate_if_unused(&f.dfg));

    let intrinsic = Intrinsic::BlackBox(BlackBoxFunc::RecursiveAggregation);
    assert!(intrinsic.has_side_effects());
    assert!(!call_of(&mut f, intrinsic).can_eliminate_if_unused(&f.dfg));
}

#[test]
fn side_effects_are_those_of_the_list() {
    let with = [
        Intrinsic::AssertConstant,
        Intrinsic::StaticAssert,
        Intrinsic::ApplyRangeConstraint,
        Intrinsic::AsWitness,
        Intrinsic::ToBits(Endian::Big),
        Intrinsic::ToBits(Endian::Little),
        Intrinsic::ToRadix(Endian::Big),
        Intrinsic::ToRadix(Endian::Little),
        Intrinsic::SlicePopBack,
        Intrinsic::SlicePopFront,
        Intrinsic::SliceRemove,
        Intrinsic::BlackBox(BlackBoxFunc::RecursiveAggregation),
        Intrinsic::BlackBox(BlackBoxFunc::MultiScalarMul),
        Intrinsic::BlackBox(BlackBoxFunc::EmbeddedCurveAdd),
    ];
    let without = [
        Intrinsic::ArrayLen,
        Intrinsic::ArrayAsStrUnchecked,
        Intrinsic::AsSlice,
        Intrinsic::SlicePushBack,
        Intrinsic::SlicePushFront,
        Intrinsic::SliceInsert,
        Intrinsic::StrAsBytes,
        Intrinsic::FromField,
        Intrinsic::AsField,
        Intrinsic::IsUnconstrained,
        Intrinsic::DerivePedersenGenerators,
        Intrinsic::FieldLessThan,
        Intrinsic::BlackBox(BlackBoxFunc::SHA256),
        Intrinsic::BlackBox(BlackBoxFunc::AND),
        Intrinsic::BlackBox(BlackBoxFunc::EcdsaSecp256k1),
        Intrinsic::BlackBox(BlackBoxFunc::PedersenHash),
    ];
    for intrinsic in with {
        assert!(intrinsic.has_side_effects(), "{intrinsic:?}");
    }
    for intrinsic in without {
        assert!(!intrinsic.has_side_effects(), "{intrinsic:?}");
    }
}

#[test]
fn calls_are_judged_by_what_they_call() {
    let mut f = fixture();
    let pure = call_of(&mut f, Intrinsic::ArrayLen);
    assert!(pure.can_be_deduplicated(&f.dfg, false));
    assert!(pure.can_eliminate_if_unused(&f.dfg));
    assert!(!pure.requires_acir_gen_predicate(&f.dfg));

    let effect = call_of(&mut f, Intrinsic::AsWitness);
    assert!(!effect.can_be_deduplicated(&f.dfg, true));
    assert!(!effect.can_eliminate_if_unused(&f.dfg));
    assert!(!effect.requires_acir_gen_predicate(&f.dfg));

    let insert = call_of(&mut f, Intrinsic::SliceInsert);
    assert!(insert.requires_acir_gen_predicate(&f.dfg));
    assert!(insert.can_be_deduplicated(&f.dfg, false));
    let remove = call_of(&mut f, Intrinsic::SliceRemove);
    assert!(remove.requires_acir_gen_predicate(&f.dfg));
    assert!(!remove.can_be_deduplicated(&f.dfg, false));

    let function = f.dfg.import_function(FunctionId(0));
    let user = Instruction::Call { func: function, arguments: vec![] };
    assert!(user.requires_acir_gen_predicate(&f.dfg));
    assert!(!user.can_be_deduplicated(&f.dfg, true));
    assert!(!user.can_eliminate_if_unused(&f.dfg));

    let foreign = f.dfg.import_foreign_function("print".to_owned());
    let oracle = Instruction::Call { func: foreign, arguments: vec![] };
    assert!(!oracle.requires_acir_gen_predicate(&f.dfg));
    assert!(!oracle.can_be_deduplicated(&f.dfg, true));
    assert!(!oracle.can_eliminate_if_unused(&f.dfg));
}

fn every_kind(f: &mut Fixture) -> Vec<Instruction> {
    let elements: im::Vector<ValueId> = [f.x, f.two].into_iter().collect();
    vec![
        Instruction::binary(BinaryOp::Add, f.x, f.two),
        Instruction::binary(BinaryOp::Div, f.x, f.two),
        Instruction::binary(BinaryOp::Mod, f.x, f.x),
        Instruction::Cast(f.x, Type::field()),
        Instruction::Not(f.x),
        Instruction::Truncate { value: f.x, bit_size: 8, max_bit_size: 32 },
        Instruction::Constrain(f.x, f.two, None),
        Instruction::RangeCheck { value: f.x, max_bit_size: 8, assert_message: None },
        Instruction::Allocate,
        Instruction::Load { address: f.x },
        Instruction::Store { address: f.x, value: f.two },
        Instruction::EnableSideEffectsIf { condition: f.x },
        Instruction::ArrayGet { array: f.array, index: f.two },
        Instruction::ArrayGet { array: f.array, index: f.x },
        Instruction::ArraySet { array: f.array, index: f.two, value: f.x, mutable: false },
        Instruction::IncrementRc { value: f.array },
        Instruction::DecrementRc { value: f.array },
        Instruction::IfElse {
            then_condition: f.x,
            then_value: f.two,
            else_condition: f.x,
            else_value: f.zero,
        },
        Instruction::MakeArray { elements, typ: Type::Array(Box::new(Type::unsigned(32)), 2) },
        call_of(f, Intrinsic::ArrayLen),
        call_of(f, Intrinsic::SliceRemove),
        call_of(f, Intrinsic::ToBits(Endian::Little)),
        call_of(f, Intrinsic::BlackBox(BlackBoxFunc::SHA256)),
    ]
}

#[test]
fn what_is_deduplicated_without_the_predicate_does_not_need_it() {
    let mut f = fixture();
    for instruction in every_kind(&mut f) {
        if instruction.can_be_deduplicated(&f.dfg, false) {
            assert!(!instruction.requires_acir_gen_predicate(&f.dfg), "{instruction:?}");
            assert!(instruction.can_be_deduplicated(&f.dfg, true), "{instruction:?}");
        }
    }
}

#[test]
fn deduplication_follows_the_table() {
    let f = fixture();
    for never in [
        Instruction::EnableSideEffectsIf { condition: f.x },
        Instruction::Allocate,
        Instruction::Load { address: f.x },
        Instruction::Store { address: f.x, value: f.two },
        Instruction::IncrementRc { value: f.array },
        Instruction::DecrementRc { value: f.array },
    ] {
        assert!(!never.can_be_deduplicated(&f.dfg, false));
        assert!(!never.can_be_deduplicated(&f.dfg, true));
    }
    for with_predicate in [
        Instruction::Constrain(f.x, f.two, None),
        Instruction::RangeCheck { value: f.x, max_bit_size: 8, assert_message: None },
        Instruction::binary(BinaryOp::Div, f.x, f.two),
        Instruction::ArraySet { array: f.array, index: f.two, value: f.x, mutable: false },
        Instruction::ArrayGet { array: f.array, index: f.x },
    ] {
        assert!(!with_predicate.can_be_deduplicated(&f.dfg, false), "{with_predicate:?}");
        assert!(with_predicate.can_be_deduplicated(&f.dfg, true), "{with_predicate:?}");
    }
    let elements: im::Vector<ValueId> = [f.x].into_iter().collect();
    for always in [
        Instruction::MakeArray { elements, typ: Type::Array(Box::new(Type::unsigned(32)), 1) },
        Instruction::binary(BinaryOp::Add, f.x, f.two),
        Instruction::Cast(f.x, Type::field()),
        Instruction::Not(f.x),
        Instruction::Truncate { value: f.x, bit_size: 8, max_bit_size: 32 },
        Instruction::ArrayGet { array: f.array, index: f.two },
    ] {
        assert!(always.can_be_deduplicated(&f.dfg, false), "{always:?}");
        assert!(always.can_be_deduplicated(&f.dfg, true), "{always:?}");
    }
}

#[test]
fn elimination_follows_the_table() {
    let f = fixture();
    let elements: im::Vector<ValueId> = [f.x].into_iter().collect();
    for removable in [
        Instruction::Cast(f.x, Type::field()),
        Instruction::Not(f.x),
        Instruction::Truncate { value: f.x, bit_size: 8, max_bit_size: 32 },
        Instruction::Allocate,
        Instruction::Load { address: f.x },
        Instruction::ArrayGet { array: f.array, index: f.x },
        Instruction::IfElse {
            then_condition: f.x,
            then_value: f.two,
            else_condition: f.x,
            else_value: f.zero,
        },
        Instruction::ArraySet { array: f.array, index: f.two, value: f.x, mutable: false },
        Instruction::MakeArray { elements, typ: Type::Array(Box::new(Type::unsigned(32)), 1) },
    ] {
        assert!(removable.can_eliminate_if_unused(&f.dfg), "{removable:?}");
    }
    for kept in [
        Instruction::Constrain(f.x, f.two, None),
        Instruction::Store { address: f.x, value: f.two },
        Instruction::EnableSideEffectsIf { condition: f.x },
        Instruction::IncrementRc { value: f.array },
        Instruction::DecrementRc { value: f.array },
        Instruction::RangeCheck { value: f.x, max_bit_size: 8, assert_message: None },
    ] {
        assert!(!kept.can_eliminate_if_unused(&f.dfg), "{kept:?}");
    }
}

#[test]
fn a_read_needs_the_predicate_unless_its_index_is_safe() {
    let mut f = fixture();
    let three = f.dfg.make_constant(FieldElement::from_u128(3), Type::unsigned(32));
    assert!(!Instruction::ArrayGet { array: f.array, index: f.two }.requires_acir_gen_predicate(&f.dfg));
    assert!(!Instruction::ArrayGet { array: f.array, index: f.zero }.requires_acir_gen_predicate(&f.dfg));
    assert!(Instruction::ArrayGet { array: f.array, index: three }.requires_acir_gen_predicate(&f.dfg));
    assert!(Instruction::ArrayGet { array: f.array, index: f.x }.requires_acir_gen_predicate(&f.dfg));
    assert!(Instruction::ArrayGet { array: f.x, index: f.zero }.requires_acir_gen_predicate(&f.dfg));
    assert!(f.dfg.is_safe_index(f.two, f.array));
    assert!(!f.dfg.is_safe_index(three, f.array));
    for predicated in [
        Instruction::binary(BinaryOp::Div, f.x, f.two),
        Instruction::binary(BinaryOp::Mod, f.x, f.two),
        Instruction::EnableSideEffectsIf { condition: f.x },
        Instruction::ArraySet { array: f.array, index: f.two, value: f.x, mutable: true },
    ] {
        assert!(predicated.requires_acir_gen_predicate(&f.dfg));
    }
    for free in [
        Instruction::binary(BinaryOp::Mul, f.x, f.two),
        Instruction::Cast(f.x, Type::field()),
        Instruction::Constrain(f.x, f.two, None),
        Instruction::Allocate,
        Instruction::Store { address: f.x, value: f.two },
    ] {
        assert!(!free.requires_acir_gen_predicate(&f.dfg));
    }
}

//! The instructions of a basic block: what each holds, which values it
//! reads, and how its values are renamed.

use crate::binary::{Binary, BinaryOp, InstructionResultType};
use crate::error::{ConstrainError, ConstrainErrorView};
use crate::ids::{clone_values, map_list, visit_list, ValueId};
use crate::types::Type;
use crate::vector::{values_clone, values_get, values_len, values_new, values_push_back, vector_values};
use vstd::prelude::*;

verus! {

/// An operation that a basic block can hold. Two instructions are equal
/// when they hold the same operator and operands: instructions have no
/// identity of their own.
#[derive(Debug, PartialEq, Eq, Hash)]
pub enum Instruction {
    /// An operation on two values, such as `+` or `==`.
    Binary(Binary),
    /// Converts a value to a type.
    Cast(ValueId, Type),
    /// Flips every bit of a value.
    Not(ValueId),
    /// Keeps the low `bit_size` bits of `value`, which has at most
    /// `max_bit_size` bits.
    Truncate { value: ValueId, bit_size: u32, max_bit_size: u32 },
    /// Demands that two values are equal, and says what to report if not.
    Constrain(ValueId, ValueId, Option<ConstrainError>),
    /// Demands that `value` fits in `max_bit_size` bits.
    RangeCheck { value: ValueId, max_bit_size: u32, assert_message: Option<String> },
    /// Calls a function with arguments.
    Call { func: ValueId, arguments: Vec<ValueId> },
    /// Reserves memory for a mutable variable or a reference.
    Allocate,
    /// Reads from memory.
    Load { address: ValueId },
    /// Writes to memory.
    Store { address: ValueId, value: ValueId },
    /// From here to the next instruction of this kind, instructions have
    /// side effects only if `condition` holds. It exists only once the
    /// control flow has been flattened.
    EnableSideEffectsIf { condition: ValueId },
    /// Reads the element at `index` of `array`.
    ArrayGet { array: ValueId, index: ValueId },
    /// An array equal to `array` but for `value` at `index`. It overwrites
    /// `array` itself only where `mutable` is set, which an optimizer does
    /// once it has shown that to be safe.
    ArraySet { array: ValueId, index: ValueId, value: ValueId, mutable: bool },
    /// Adds one to the reference count of a value. It has an effect only
    /// where code runs unconstrained.
    IncrementRc { value: ValueId },
    /// Takes one from the reference count of a value. It has an effect only
    /// where code runs unconstrained.
    DecrementRc { value: ValueId },
    /// Merges the values of the two branches of a conditional.
    /// `else_condition` is the negation of `then_condition`, kept so that it
    /// has one name.
    IfElse {
        then_condition: ValueId,
        then_value: ValueId,
        else_condition: ValueId,
        else_value: ValueId,
    },
    /// A new array or slice of the given elements. `typ` is an array or
    /// slice type that fits them.
    MakeArray { elements: im::Vector<ValueId>, typ: Type },
}

/// An [`Instruction`] as a mathematical value.
pub enum InstructionView {
    Binary(Binary),
    Cast(ValueId, Type),
    Not(ValueId),
    Truncate { value: ValueId, bit_size: u32, max_bit_size: u32 },
    Constrain(ValueId, ValueId, Option<ConstrainErrorView>),
    RangeCheck { value: ValueId, max_bit_size: u32, assert_message: Option<Seq<char>> },
    Call { func: ValueId, arguments: Seq<ValueId> },
    Allocate,
    Load { address: ValueId },
    Store { address: ValueId, value: ValueId },
    EnableSideEffectsIf { condition: ValueId },
    ArrayGet { array: ValueId, index: ValueId },
    ArraySet { array: ValueId, index: ValueId, value: ValueId, mutable: bool },
    IncrementRc { value: ValueId },
    DecrementRc { value: ValueId },
    IfElse {
        then_condition: ValueId,
        then_value: ValueId,
        else_condition: ValueId,
        else_value: ValueId,
    },
    MakeArray { elements: Seq<ValueId>, typ: Type },
}

/// The view of an optional error.
pub open spec fn error_view(error: Option<ConstrainError>) -> Option<ConstrainErrorView> {
    match error {
        Some(error) => Some(error@),
        None => None,
    }
}

/// The view of an optional text.
pub open spec fn text_view(text: Option<String>) -> Option<Seq<char>> {
    match text {
        Some(text) => Some(text@),
        None => None,
    }
}

impl View for Instruction {
    type V = InstructionView;

    open spec fn view(&self) -> InstructionView {
        match self {
            Instruction::Binary(binary) => InstructionView::Binary(*binary),
            Instruction::Cast(value, typ) => InstructionView::Cast(*value, *typ),
            Instruction::Not(value) => InstructionView::Not(*value),
            Instruction::Truncate { value, bit_size, max_bit_size } => InstructionView::Truncate {
                value: *value,
                bit_size: *bit_size,
                max_bit_size: *max_bit_size,
            },
            Instruction::Constrain(lhs, rhs, error) => InstructionView::Constrain(
                *lhs,
                *rhs,
                error_view(*error),
            ),
            Instruction::RangeCheck {
                value,
                max_bit_size,
                assert_message,
            } => InstructionView::RangeCheck {
                value: *value,
                max_bit_size: *max_bit_size,
                assert_message: text_view(*assert_message),
            },
            Instruction::Call { func, arguments } => InstructionView::Call {
                func: *func,
                arguments: arguments@,
            },
            Instruction::Allocate => InstructionView::Allocate,
            Instruction::Load { address } => InstructionView::Load { address: *address },
            Instruction::Store { address, value } => InstructionView::Store {
                address: *address,
                value: *value,
            },
            Instruction::EnableSideEffectsIf { condition } => InstructionView::EnableSideEffectsIf {
                condition: *condition,
            },
            Instruction::ArrayGet { array, index } => InstructionView::ArrayGet {
                array: *array,
                index: *index,
            },
            Instruction::ArraySet { array, index, value, mutable } => InstructionView::ArraySet {
                array: *array,
                index: *index,
                value: *value,
                mutable: *mutable,
            },
            Instruction::IncrementRc { value } => InstructionView::IncrementRc { value: *value },
            Instruction::DecrementRc { value } => InstructionView::DecrementRc { value: *value },
            Instruction::IfElse {
                then_condition,
                then_value,
                else_condition,
                else_value,
            } => InstructionView::IfElse {
                then_condition: *then_condition,
                then_value: *then_value,
                else_condition: *else_condition,
                else_value: *else_value,
            },
            Instruction::MakeArray { elements, typ } => InstructionView::MakeArray {
                elements: vector_values(*elements),
                typ: *typ,
            },
        }
    }
}

impl InstructionView {
    /// The values that the instruction reads, in the order of its fields;
    /// the values of a constraint's error payload come after its two sides.
    pub open spec fn operands(self) -> Seq<ValueId> {
        match self {
            InstructionView::Binary(binary) => seq![binary.lhs, binary.rhs],
            InstructionView::Cast(value, _) => seq![value],
            InstructionView::Not(value) => seq![value],
            InstructionView::Truncate { value, .. } => seq![value],
            InstructionView::Constrain(lhs, rhs, error) => match error {
                Some(error) => seq![lhs, rhs] + error.values(),
                None => seq![lhs, rhs],
            },
            InstructionView::RangeCheck { value, .. } => seq![value],
            InstructionView::Call { func, arguments } => seq![func] + arguments,
            InstructionView::Allocate => Seq::empty(),
            InstructionView::Load { address } => seq![address],
            InstructionView::Store { address, value } => seq![address, value],
            InstructionView::EnableSideEffectsIf { condition } => seq![condition],
            InstructionView::ArrayGet { array, index } => seq![array, index],
            InstructionView::ArraySet { array, index, value, .. } => seq![array, index, value],
            InstructionView::IncrementRc { value } => seq![value],
            InstructionView::DecrementRc { value } => seq![value],
            InstructionView::IfElse {
                then_condition,
                then_value,
                else_condition,
                else_value,
            } => seq![then_condition, then_value, else_condition, else_value],
            InstructionView::MakeArray { elements, .. } => elements,
        }
    }

    /// The same instruction over other values: `values` takes the place of
    /// [`Self::operands`], item for item, and every other field stays.
    pub open spec fn with_operands(self, values: Seq<ValueId>) -> InstructionView {
        match self {
            InstructionView::Binary(binary) => InstructionView::Binary(
                Binary { lhs: values[0], rhs: values[1], operator: binary.operator },
            ),
            InstructionView::Cast(_, typ) => InstructionView::Cast(values[0], typ),
            InstructionView::Not(_) => InstructionView::Not(values[0]),
            InstructionView::Truncate { bit_size, max_bit_size, .. } => InstructionView::Truncate {
                value: values[0],
                bit_size,
                max_bit_size,
            },
            InstructionView::Constrain(_, _, error) => InstructionView::Constrain(
                values[0],
                values[1],
                match error {
                    Some(error) => Some(error.with_values(values.skip(2))),
                    None => None,
                },
            ),
            InstructionView::RangeCheck {
                max_bit_size,
                assert_message,
                ..
            } => InstructionView::RangeCheck { value: values[0], max_bit_size, assert_message },
            InstructionView::Call { .. } => InstructionView::Call {
                func: values[0],
                arguments: values.skip(1),
            },
            InstructionView::Allocate => InstructionView::Allocate,
            InstructionView::Load { .. } => InstructionView::Load { address: values[0] },
            InstructionView::Store { .. } => InstructionView::Store {
                address: values[0],
                value: values[1],
            },
            InstructionView::EnableSideEffectsIf { .. } => InstructionView::EnableSideEffectsIf {
                condition: values[0],
            },
            InstructionView::ArrayGet { .. } => InstructionView::ArrayGet {
                array: values[0],
                index: values[1],
            },
            InstructionView::ArraySet { mutable, .. } => InstructionView::ArraySet {
                array: values[0],
                index: values[1],
                value: values[2],
                mutable,
            },
            InstructionView::IncrementRc { .. } => InstructionView::IncrementRc { value: values[0] },
            InstructionView::DecrementRc { .. } => InstructionView::DecrementRc { value: values[0] },
            InstructionView::IfElse { .. } => InstructionView::IfElse {
                then_condition: values[0],
                then_value: values[1],
                else_condition: values[2],
                else_value: values[3],
            },
            InstructionView::MakeArray { typ, .. } => InstructionView::MakeArray {
                elements: values,
                typ,
            },
        }
    }

    /// The instruction with `rename` applied to each value it reads.
    pub open spec fn rename(self, rename: spec_fn(ValueId) -> ValueId) -> InstructionView {
        self.with_operands(self.operands().map_values(rename))
    }

    /// What is known of the result's type.
    pub open spec fn result_type(self) -> InstructionResultType {
        match self {
            InstructionView::Binary(binary) => binary.spec_result_type(),
            InstructionView::Cast(_, typ) => InstructionResultType::Known(typ),
            InstructionView::MakeArray { typ, .. } => InstructionResultType::Known(typ),
            InstructionView::Not(value) => InstructionResultType::Operand(value),
            InstructionView::Truncate { value, .. } => InstructionResultType::Operand(value),
            InstructionView::ArraySet { array, .. } => InstructionResultType::Operand(array),
            InstructionView::IfElse { then_value, .. } => InstructionResultType::Operand(then_value),
            InstructionView::Constrain(..)
            | InstructionView::Store { .. }
            | InstructionView::IncrementRc { .. }
            | InstructionView::DecrementRc { .. }
            | InstructionView::RangeCheck { .. }
            | InstructionView::EnableSideEffectsIf { .. } => InstructionResultType::NoResult,
            InstructionView::Allocate
            | InstructionView::Load { .. }
            | InstructionView::ArrayGet { .. }
            | InstructionView::Call { .. } => InstructionResultType::Unknown,
        }
    }

    /// Putting an instruction's own operands in place changes nothing.
    pub proof fn lemma_with_own_operands(self)
        ensures
            self.with_operands(self.operands()) == self,
    {
        match self {
            InstructionView::Constrain(lhs, rhs, Some(error)) => {
                assert((seq![lhs, rhs] + error.values()).skip(2) == error.values());
            },
            InstructionView::Call { func, arguments } => {
                assert((seq![func] + arguments).skip(1) == arguments);
            },
            _ => {},
        }
    }

    /// Once values are put in place of the operands, they are the operands.
    pub proof fn lemma_operands_of_with(self, values: Seq<ValueId>)
        requires
            values.len() == self.operands().len(),
        ensures
            self.with_operands(values).operands() == values,
    {
        match self {
            InstructionView::Constrain(lhs, rhs, error) => {
                match error {
                    Some(error) => {
                        assert(seq![values[0], values[1]] + values.skip(2) == values);
                    },
                    None => {
                        assert(seq![values[0], values[1]] == values);
                    },
                }
            },
            InstructionView::Call { .. } => {
                assert(seq![values[0]] + values.skip(1) == values);
            },
            _ => {
                assert(self.with_operands(values).operands() =~= values);
            },
        }
    }

    /// Replacing the operands twice is replacing them once, with the
    /// second list.
    pub proof fn lemma_with_twice(self, first: Seq<ValueId>, second: Seq<ValueId>)
        ensures
            self.with_operands(first).with_operands(second) == self.with_operands(second),
    {
    }

    /// An instruction whose operands are the images, under `rename`, of
    /// the operands of this one, and which is this one otherwise, is this
    /// one renamed.
    pub proof fn lemma_mapped_is_renamed(
        self,
        mapped: InstructionView,
        rename: spec_fn(ValueId) -> ValueId,
    )
        requires
            mapped.operands().len() == self.operands().len(),
            forall|k: int|
                0 <= k < self.operands().len() ==> #[trigger] mapped.operands()[k] == rename(
                    self.operands()[k],
                ),
            mapped == self.with_operands(mapped.operands()),
        ensures
            mapped == self.rename(rename),
    {
        assert(mapped.operands() =~= self.operands().map_values(rename));
    }

    /// Renaming the values of an instruction and renaming them back gives
    /// the instruction again. `back` need undo `there` only on the values
    /// that the instruction reads.
    pub proof fn lemma_rename_round_trip(
        self,
        there: spec_fn(ValueId) -> ValueId,
        back: spec_fn(ValueId) -> ValueId,
    )
        requires
            forall|k: int|
                0 <= k < self.operands().len() ==> back(there(#[trigger] self.operands()[k]))
                    == self.operands()[k],
        ensures
            self.rename(there).rename(back) == self,
    {
        let renamed = self.operands().map_values(there);
        self.lemma_operands_of_with(renamed);
        assert(renamed.map_values(back) =~= self.operands());
        self.lemma_with_twice(renamed, self.operands());
        self.lemma_with_own_operands();
    }

    /// The values that renaming puts in place are the images of the values
    /// that a visit finds, one for one and in the same order: as many of
    /// each, neither more nor fewer.
    pub proof fn lemma_rename_visits_all(self, rename: spec_fn(ValueId) -> ValueId)
        ensures
            self.rename(rename).operands() == self.operands().map_values(rename),
            self.rename(rename).operands().to_multiset() == self.operands().map_values(
                rename,
            ).to_multiset(),
    {
        self.lemma_operands_of_with(self.operands().map_values(rename));
    }
}

/// Applies `f` to each value of a persistent vector, in order.
fn map_vector<F: Fn(ValueId) -> ValueId>(values: &im::Vector<ValueId>, f: &F) -> (mapped: im::Vector<
    ValueId,
>)
    requires
        forall|k: int|
            0 <= k < vector_values(*values).len() ==> f.requires(
                (#[trigger] vector_values(*values)[k],),
            ),
    ensures
        vector_values(mapped).len() == vector_values(*values).len(),
        forall|k: int|
            0 <= k < vector_values(*values).len() ==> f.ensures(
                (vector_values(*values)[k],),
                #[trigger] vector_values(mapped)[k],
            ),
{
    let mut mapped = values_new();
    let length = values_len(values);
    let mut at: usize = 0;
    while at < length
        invariant
            at <= length,
            length == vector_values(*values).len(),
            vector_values(mapped).len() == at,
            forall|k: int|
                0 <= k < vector_values(*values).len() ==> f.requires(
                    (#[trigger] vector_values(*values)[k],),
                ),
            forall|k: int|
                0 <= k < at ==> f.ensures(
                    (vector_values(*values)[k],),
                    #[trigger] vector_values(mapped)[k],
                ),
        decreases length - at,
    {
        let image = f(values_get(values, at));
        values_push_back(&mut mapped, image);
        at += 1;
    }
    mapped
}

impl Clone for Instruction {
    fn clone(&self) -> (copy: Instruction)
        ensures
            copy@ == self@,
    {
        match self {
            Instruction::Binary(binary) => Instruction::Binary(*binary),
            Instruction::Cast(value, typ) => Instruction::Cast(*value, typ.clone()),
            Instruction::Not(value) => Instruction::Not(*value),
            Instruction::Truncate { value, bit_size, max_bit_size } => Instruction::Truncate {
                value: *value,
                bit_size: *bit_size,
                max_bit_size: *max_bit_size,
            },
            Instruction::Constrain(lhs, rhs, error) => Instruction::Constrain(
                *lhs,
                *rhs,
                match error {
                    Some(error) => Some(error.clone()),
                    None => None,
                },
            ),
            Instruction::RangeCheck { value, max_bit_size, assert_message } => Instruction::RangeCheck {
                value: *value,
                max_bit_size: *max_bit_size,
                assert_message: match assert_message {
                    Some(text) => Some(text.clone()),
                    None => None,
                },
            },
            Instruction::Call { func, arguments } => Instruction::Call {
                func: *func,
                arguments: clone_values(arguments),
            },
            Instruction::Allocate => Instruction::Allocate,
            Instruction::Load { address } => Instruction::Load { address: *address },
            Instruction::Store { address, value } => Instruction::Store {
                address: *address,
                value: *value,
            },
            Instruction::EnableSideEffectsIf { condition } => Instruction::EnableSideEffectsIf {
                condition: *condition,
            },
            Instruction::ArrayGet { array, index } => Instruction::ArrayGet {
                array: *array,
                index: *index,
            },
            Instruction::ArraySet { array, index, value, mutable } => Instruction::ArraySet {
                array: *array,
                index: *index,
                value: *value,
                mutable: *mutable,
            },
            Instruction::IncrementRc { value } => Instruction::IncrementRc { value: *value },
            Instruction::DecrementRc { value } => Instruction::DecrementRc { value: *value },
            Instruction::IfElse {
                then_condition,
                then_value,
                else_condition,
                else_value,
            } => Instruction::IfElse {
                then_condition: *then_condition,
                then_value: *then_value,
                else_condition: *else_condition,
                else_value: *else_value,
            },
            Instruction::MakeArray { elements, typ } => Instruction::MakeArray {
                elements: values_clone(elements),
                typ: typ.clone(),
            },
        }
    }
}

impl Instruction {
    /// The instruction that applies `operator` to `lhs` and `rhs`.
    pub fn binary(operator: BinaryOp, lhs: ValueId, rhs: ValueId) -> (instruction: Instruction)
        ensures
            instruction@ == InstructionView::Binary(Binary { lhs, rhs, operator }),
    {
        Instruction::Binary(Binary { lhs, rhs, operator })
    }

    /// What is known of the type of the instruction's result.
    pub fn result_type(&self) -> (result: InstructionResultType)
        ensures
            result == self@.result_type(),
    {
        match self {
            Instruction::Binary(binary) => binary.result_type(),
            Instruction::Cast(_, typ) => InstructionResultType::Known(typ.clone()),
            Instruction::MakeArray { typ, .. } => InstructionResultType::Known(typ.clone()),
            Instruction::Not(value) => InstructionResultType::Operand(*value),
            Instruction::Truncate { value, .. } => InstructionResultType::Operand(*value),
            Instruction::ArraySet { array, .. } => InstructionResultType::Operand(*array),
            Instruction::IfElse { then_value, .. } => InstructionResultType::Operand(*then_value),
            Instruction::Constrain(..)
            | Instruction::Store { .. }
            | Instruction::IncrementRc { .. }
            | Instruction::DecrementRc { .. }
            | Instruction::RangeCheck { .. }
            | Instruction::EnableSideEffectsIf { .. } => InstructionResultType::NoResult,
            Instruction::Allocate
            | Instruction::Load { .. }
            | Instruction::ArrayGet { .. }
            | Instruction::Call { .. } => InstructionResultType::Unknown,
        }
    }

    /// Whether the one who inserts the instruction into a graph must name
    /// the types of its results: so when the instruction does not fix them.
    pub fn requires_ctrl_typevars(&self) -> (required: bool)
        ensures
            required == (self@.result_type() is Unknown),
    {
        match self.result_type() {
            InstructionResultType::Unknown => true,
            _ => false,
        }
    }

    /// A new instruction that reads `f` of each value that this one reads,
    /// and is the same otherwise.
    pub fn map_values<F: Fn(ValueId) -> ValueId>(&self, f: F) -> (mapped: Instruction)
        requires
            forall|k: int|
                0 <= k < self@.operands().len() ==> f.requires((#[trigger] self@.operands()[k],)),
        ensures
            mapped@.operands().len() == self@.operands().len(),
            forall|k: int|
                0 <= k < self@.operands().len() ==> f.ensures(
                    (self@.operands()[k],),
                    #[trigger] mapped@.operands()[k],
                ),
            mapped@ == self@.with_operands(mapped@.operands()),
    {
        let ghost operands = self@.operands();
        match self {
            Instruction::Binary(binary) => {
                assert(operands[0] == binary.lhs && operands[1] == binary.rhs);
                Instruction::Binary(
                    Binary { lhs: f(binary.lhs), rhs: f(binary.rhs), operator: binary.operator },
                )
            },
            Instruction::Cast(value, typ) => {
                assert(operands[0] == *value);
                Instruction::Cast(f(*value), typ.clone())
            },
            Instruction::Not(value) => {
                assert(operands[0] == *value);
                Instruction::Not(f(*value))
            },
            Instruction::Truncate { value, bit_size, max_bit_size } => {
                assert(operands[0] == *value);
                Instruction::Truncate {
                    value: f(*value),
                    bit_size: *bit_size,
                    max_bit_size: *max_bit_size,
                }
            },
            Instruction::Constrain(lhs, rhs, error) => {
                assert(operands[0] == *lhs && operands[1] == *rhs);
                let new_lhs = f(*lhs);
                let new_rhs = f(*rhs);
                let new_error = match error {
                    Some(ConstrainError::Dynamic(selector, is_string, values)) => {
                        assert forall|k: int| 0 <= k < values@.len() implies f.requires(
                            (#[trigger] values@[k],),
                        ) by {
                            assert(operands[k + 2] == values@[k]);
                        }
                        let new_values = map_list(values, &f);
                        proof {
                            let image = seq![new_lhs, new_rhs] + new_values@;
                            assert(image.skip(2) == new_values@);
                            assert forall|k: int| 0 <= k < operands.len() implies f.ensures(
                                (operands[k],),
                                #[trigger] image[k],
                            ) by {
                                if k >= 2 {
                                    assert(image[k] == new_values@[k - 2]);
                                    assert(operands[k] == values@[k - 2]);
                                }
                            }
                        }
                        Some(ConstrainError::Dynamic(*selector, *is_string, new_values))
                    },
                    Some(other) => {
                        proof {
                            assert(seq![new_lhs, new_rhs].skip(2) =~= Seq::<ValueId>::empty());
                        }
                        Some(other.clone())
                    },
                    None => None,
                };
                Instruction::Constrain(new_lhs, new_rhs, new_error)
            },
            Instruction::RangeCheck { value, max_bit_size, assert_message } => {
                assert(operands[0] == *value);
                Instruction::RangeCheck {
                    value: f(*value),
                    max_bit_size: *max_bit_size,
                    assert_message: match assert_message {
                        Some(text) => Some(text.clone()),
                        None => None,
                    },
                }
            },
            Instruction::Call { func, arguments } => {
                assert(operands[0] == *func);
                assert forall|k: int| 0 <= k < arguments@.len() implies f.requires(
                    (#[trigger] arguments@[k],),
                ) by {
                    assert(operands[k + 1] == arguments@[k]);
                }
                let new_func = f(*func);
                let new_arguments = map_list(arguments, &f);
                proof {
                    let image = seq![new_func] + new_arguments@;
                    assert(image.skip(1) == new_arguments@);
                    assert forall|k: int| 0 <= k < operands.len() implies f.ensures(
                        (operands[k],),
                        #[trigger] image[k],
                    ) by {
                        if k >= 1 {
                            assert(image[k] == new_arguments@[k - 1]);
                            assert(operands[k] == arguments@[k - 1]);
                        }
                    }
                }
                Instruction::Call { func: new_func, arguments: new_arguments }
            },
            Instruction::Allocate => Instruction::Allocate,
            Instruction::Load { address } => {
                assert(operands[0] == *address);
                Instruction::Load { address: f(*address) }
            },
            Instruction::Store { address, value } => {
                assert(operands[0] == *address && operands[1] == *value);
                Instruction::Store { address: f(*address), value: f(*value) }
            },
            Instruction::EnableSideEffectsIf { condition } => {
                assert(operands[0] == *condition);
                Instruction::EnableSideEffectsIf { condition: f(*condition) }
            },
            Instruction::ArrayGet { array, index } => {
                assert(operands[0] == *array && operands[1] == *index);
                Instruction::ArrayGet { array: f(*array), index: f(*index) }
            },
            Instruction::ArraySet { array, index, value, mutable } => {
                assert(operands[0] == *array && operands[1] == *index && operands[2] == *value);
                Instruction::ArraySet {
                    array: f(*array),
                    index: f(*index),
                    value: f(*value),
                    mutable: *mutable,
                }
            },
            Instruction::IncrementRc { value } => {
                assert(operands[0] == *value);
                Instruction::IncrementRc { value: f(*value) }
            },
            Instruction::DecrementRc { value } => {
                assert(operands[0] == *value);
                Instruction::DecrementRc { value: f(*value) }
            },
            Instruction::IfElse { then_condition, then_value, else_condition, else_value } => {
                assert(operands[0] == *then_condition && operands[1] == *then_value && operands[2]
                    == *else_condition && operands[3] == *else_value);
                Instruction::IfElse {
                    then_condition: f(*then_condition),
                    then_value: f(*then_value),
                    else_condition: f(*else_condition),
                    else_value: f(*else_value),
                }
            },
            Instruction::MakeArray { elements, typ } => {
                assert(operands == vector_values(*elements));
                Instruction::MakeArray { elements: map_vector(elements, &f), typ: typ.clone() }
            },
        }
    }

    /// Calls `f` on each value that the instruction reads, in the order of
    /// [`InstructionView::operands`], and hands back what the calls
    /// returned, in that order.
    pub fn for_each_value<T, F: Fn(ValueId) -> T>(&self, f: F) -> (results: Vec<T>)
        requires
            forall|k: int|
                0 <= k < self@.operands().len() ==> f.requires((#[trigger] self@.operands()[k],)),
        ensures
            results@.len() == self@.operands().len(),
            forall|k: int|
                0 <= k < self@.operands().len() ==> f.ensures(
                    (self@.operands()[k],),
                    #[trigger] results@[k],
                ),
    {
        let ghost operands = self@.operands();
        let mut results: Vec<T> = Vec::new();
        match self {
            Instruction::Binary(binary) => {
                assert(operands[0] == binary.lhs && operands[1] == binary.rhs);
                results.push(f(binary.lhs));
                results.push(f(binary.rhs));
            },
            Instruction::Call { func, arguments } => {
                assert(operands[0] == *func);
                assert forall|k: int| 0 <= k < arguments@.len() implies f.requires(
                    (#[trigger] arguments@[k],),
                ) by {
                    assert(operands[k + 1] == arguments@[k]);
                }
                results.push(f(*func));
                visit_list(arguments, &f, &mut results);
                proof {
                    assert forall|k: int| 0 <= k < operands.len() implies f.ensures(
                        (operands[k],),
                        #[trigger] results@[k],
                    ) by {
                        if k >= 1 {
                            assert(operands[k] == arguments@[k - 1]);
                            assert(results@[1 + (k - 1)] == results@[k]);
                        } else {
                            assert(results@.take(1)[0] == results@[0]);
                        }
                    }
                }
            },
            Instruction::Cast(value, _)
            | Instruction::Not(value)
            | Instruction::Truncate { value, .. }
            | Instruction::Load { address: value } => {
                assert(operands[0] == *value);
                results.push(f(*value));
            },
            Instruction::Constrain(lhs, rhs, error) => {
                assert(operands[0] == *lhs && operands[1] == *rhs);
                results.push(f(*lhs));
                results.push(f(*rhs));
                if let Some(ConstrainError::Dynamic(_, _, values)) = error {
                    assert forall|k: int| 0 <= k < values@.len() implies f.requires(
                        (#[trigger] values@[k],),
                    ) by {
                        assert(operands[k + 2] == values@[k]);
                    }
                    let ghost first = results@;
                    visit_list(values, &f, &mut results);
                    proof {
                        assert forall|k: int| 0 <= k < operands.len() implies f.ensures(
                            (operands[k],),
                            #[trigger] results@[k],
                        ) by {
                            if k >= 2 {
                                assert(operands[k] == values@[k - 2]);
                                assert(results@[2 + (k - 2)] == results@[k]);
                            } else {
                                assert(results@.take(2)[k] == results@[k]);
                                assert(first[k] == results@[k]);
                            }
                        }
                    }
                }
            },
            Instruction::Store { address, value } => {
                assert(operands[0] == *address && operands[1] == *value);
                results.push(f(*address));
                results.push(f(*value));
            },
            Instruction::Allocate => {},
            Instruction::ArrayGet { array, index } => {
                assert(operands[0] == *array && operands[1] == *index);
                results.push(f(*array));
                results.push(f(*index));
            },
            Instruction::ArraySet { array, index, value, .. } => {
                assert(operands[0] == *array && operands[1] == *index && operands[2] == *value);
                results.push(f(*array));
                results.push(f(*index));
                results.push(f(*value));
            },
            Instruction::EnableSideEffectsIf { condition } => {
                assert(operands[0] == *condition);
                results.push(f(*condition));
            },
            Instruction::IncrementRc { value }
            | Instruction::DecrementRc { value }
            | Instruction::RangeCheck { value, .. } => {
                assert(operands[0] == *value);
                results.push(f(*value));
            },
            Instruction::IfElse { then_condition, then_value, else_condition, else_value } => {
                assert(operands[0] == *then_condition && operands[1] == *then_value && operands[2]
                    == *else_condition && operands[3] == *else_value);
                results.push(f(*then_condition));
                results.push(f(*then_value));
                results.push(f(*else_condition));
                results.push(f(*else_value));
            },
            Instruction::MakeArray { elements, .. } => {
                assert(operands == vector_values(*elements));
                let length = values_len(elements);
                let mut at: usize = 0;
                while at < length
                    invariant
                        at <= length,
                        length == operands.len(),
                        operands == vector_values(*elements),
                        results@.len() == at,
                        forall|k: int| 0 <= k < operands.len() ==> f.requires((#[trigger] operands[k],)),
                        forall|k: int| 0 <= k < at ==> f.ensures((operands[k],), #[trigger] results@[k]),
                    decreases length - at,
                {
                    let result = f(values_get(elements, at));
                    results.push(result);
                    at += 1;
                }
            },
        }
        results
    }
}

} // verus!

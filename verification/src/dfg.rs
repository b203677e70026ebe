//! The data-flow graph: the store of values, instruction bodies and blocks
//! that instructions are simplified against.

use crate::binary::InstructionResultType;
use crate::field::{bit_length, two_pow_128, FieldElement};
use crate::ids::{clone_values, BasicBlockId, FunctionId, InstructionId, Location, ValueId};
use crate::instruction::{Instruction, InstructionView};
use crate::intrinsic::Intrinsic;
use crate::types::Type;
use crate::value::Value;
use crate::vector::{
    call_stack_clone, call_stack_locations, call_stack_new, values_clone, vector_values, CallStack,
};
use vstd::prelude::*;

verus! {

/// A basic block: its parameters and its instructions, in program order.
#[derive(Debug)]
pub struct BasicBlock {
    pub parameters: Vec<ValueId>,
    pub instructions: Vec<InstructionId>,
}

/// A [`BasicBlock`] as a mathematical value.
pub struct BlockView {
    pub parameters: Seq<ValueId>,
    pub instructions: Seq<InstructionId>,
}

impl View for BasicBlock {
    type V = BlockView;

    open spec fn view(&self) -> BlockView {
        BlockView { parameters: self.parameters@, instructions: self.instructions@ }
    }
}

/// A [`DataFlowGraph`] as a mathematical value. A handle is an index into
/// the sequence of its kind.
pub struct GraphView {
    /// The definition of each value.
    pub values: Seq<Value>,
    /// For each value, the value that has taken its place, if any.
    pub replaced: Seq<Option<ValueId>>,
    /// The body of each instruction.
    pub instructions: Seq<InstructionView>,
    /// The results of each instruction.
    pub results: Seq<Seq<ValueId>>,
    /// The call stack of each instruction.
    pub locations: Seq<Seq<Location>>,
    /// The blocks.
    pub blocks: Seq<BlockView>,
}

impl GraphView {
    /// The graph that holds nothing.
    pub open spec fn empty() -> GraphView {
        GraphView {
            values: Seq::empty(),
            replaced: Seq::empty(),
            instructions: Seq::empty(),
            results: Seq::empty(),
            locations: Seq::empty(),
            blocks: Seq::empty(),
        }
    }

    pub open spec fn has_value(self, value: ValueId) -> bool {
        value.0 < self.values.len()
    }

    pub open spec fn has_instruction(self, instruction: InstructionId) -> bool {
        instruction.0 < self.instructions.len()
    }

    pub open spec fn has_block(self, block: BasicBlockId) -> bool {
        block.0 < self.blocks.len()
    }

    /// Whether every one of `values` is in the graph.
    pub open spec fn has_values(self, values: Seq<ValueId>) -> bool {
        forall|k: int| 0 <= k < values.len() ==> self.has_value(#[trigger] values[k])
    }

    /// Whether every one of `instructions` is in the graph.
    pub open spec fn has_instructions(self, instructions: Seq<InstructionId>) -> bool {
        forall|k: int| 0 <= k < instructions.len() ==> self.has_instruction(#[trigger] instructions[k])
    }

    /// Whether what a value's definition names is in the graph.
    pub open spec fn value_closed(self, value: Value) -> bool {
        match value {
            Value::Instruction { instruction, .. } => self.has_instruction(instruction),
            Value::Param { block, .. } => self.has_block(block),
            _ => true,
        }
    }

    /// Whether every handle that the graph holds names something in it.
    pub open spec fn wf(self) -> bool {
        &&& self.replaced.len() == self.values.len()
        &&& self.results.len() == self.instructions.len()
        &&& self.locations.len() == self.instructions.len()
        &&& forall|v: int| 0 <= v < self.values.len() ==> self.value_closed(#[trigger] self.values[v])
        &&& forall|v: int|
            0 <= v < self.replaced.len() ==> (#[trigger] self.replaced[v] matches Some(next)
                ==> self.has_value(next))
        &&& forall|i: int|
            0 <= i < self.instructions.len() ==> self.has_values(
                (#[trigger] self.instructions[i]).operands(),
            )
        &&& forall|i: int| 0 <= i < self.results.len() ==> self.has_values(#[trigger] self.results[i])
        &&& forall|b: int|
            0 <= b < self.blocks.len() ==> self.has_values((#[trigger] self.blocks[b]).parameters)
                && self.has_instructions(self.blocks[b].instructions)
    }

    /// The value reached from `value` by following replacements, at most
    /// `steps` of them.
    pub open spec fn resolve_steps(self, value: ValueId, steps: nat) -> ValueId
        decreases steps,
    {
        if steps == 0 || value.0 >= self.replaced.len() {
            value
        } else {
            match self.replaced[value.0 as int] {
                Some(next) => self.resolve_steps(next, (steps - 1) as nat),
                None => value,
            }
        }
    }

    /// The value that stands for `value` now: the end of its chain of
    /// replacements. A chain is followed for as many steps as the graph has
    /// values, which ends every chain that does not run in a circle.
    pub open spec fn resolve(self, value: ValueId) -> ValueId {
        self.resolve_steps(value, self.values.len())
    }

    /// The definition of a value.
    pub open spec fn value(self, value: ValueId) -> Value {
        self.values[value.0 as int]
    }

    /// The body of an instruction.
    pub open spec fn instruction(self, instruction: InstructionId) -> InstructionView {
        self.instructions[instruction.0 as int]
    }

    /// The instruction that defines `value`, if one does.
    pub open spec fn definition(self, value: ValueId) -> Option<InstructionView> {
        match self.value(value) {
            Value::Instruction { instruction, .. } => Some(self.instruction(instruction)),
            _ => None,
        }
    }

    /// The type of a value.
    pub open spec fn type_of_value(self, value: ValueId) -> Type {
        self.value(value).typ()
    }

    /// The constant that `value` resolves to, with its type.
    pub open spec fn numeric_constant_with_type(self, value: ValueId) -> Option<(FieldElement, Type)> {
        match self.value(self.resolve(value)) {
            Value::NumericConstant { constant, typ } => Some((constant, typ)),
            _ => None,
        }
    }

    /// The constant that `value` resolves to.
    pub open spec fn numeric_constant(self, value: ValueId) -> Option<FieldElement> {
        match self.numeric_constant_with_type(value) {
            Some((constant, _)) => Some(constant),
            None => None,
        }
    }

    /// The elements and the type of the array that `value` resolves to,
    /// where an instruction makes that array from its elements.
    pub open spec fn array_constant(self, value: ValueId) -> Option<(Seq<ValueId>, Type)> {
        match self.definition(self.resolve(value)) {
            Some(InstructionView::MakeArray { elements, typ }) => Some((elements, typ)),
            _ => None,
        }
    }

    /// Whether `value` resolves to something other than the result of an
    /// instruction or the parameter of a block.
    pub open spec fn is_constant(self, value: ValueId) -> bool {
        match self.value(self.resolve(value)) {
            Value::Instruction { .. } | Value::Param { .. } => false,
            _ => true,
        }
    }

    /// A bound on the number of bits of `value`: the bit length of a
    /// constant, the width of the operand for the result of a cast, and the
    /// width of the value's type for the rest.
    pub open spec fn max_num_bits(self, value: ValueId) -> nat {
        match self.value(value) {
            Value::NumericConstant { constant, .. } => bit_length(constant.value()),
            Value::Instruction { instruction, .. } => match self.instruction(instruction) {
                InstructionView::Cast(operand, _) => self.type_of_value(operand).bits() as nat,
                _ => self.type_of_value(value).bits() as nat,
            },
            _ => self.type_of_value(value).bits() as nat,
        }
    }

    /// Whether `index` is a constant below the length of `array`, so that
    /// reading there cannot fail.
    pub open spec fn is_safe_index(self, index: ValueId, array: ValueId) -> bool {
        match (self.type_of_value(array), self.numeric_constant(index)) {
            (Type::Array(_, length), Some(constant)) => constant.value() % two_pow_128() < length,
            _ => false,
        }
    }

    /// The graph with one more value.
    pub open spec fn with_value(self, value: Value) -> GraphView {
        GraphView {
            values: self.values.push(value),
            replaced: self.replaced.push(None),
            ..self
        }
    }

    /// The graph with the body of one instruction set anew.
    pub open spec fn with_instruction_set(
        self,
        instruction: InstructionId,
        body: InstructionView,
    ) -> GraphView {
        GraphView { instructions: self.instructions.update(instruction.0 as int, body), ..self }
    }

    /// The graph with `value` replaced by `by`.
    pub open spec fn with_replacement(self, value: ValueId, by: ValueId) -> GraphView {
        GraphView { replaced: self.replaced.update(value.0 as int, Some(by)), ..self }
    }

    /// The graph with one more block, which is empty.
    pub open spec fn with_block(self) -> GraphView {
        GraphView {
            blocks: self.blocks.push(
                BlockView { parameters: Seq::empty(), instructions: Seq::empty() },
            ),
            ..self
        }
    }

    /// The graph with one more parameter of `block`, of type `typ`.
    pub open spec fn with_parameter(self, block: BasicBlockId, typ: Type) -> GraphView {
        let parameter = ValueId(self.values.len() as usize);
        let position = self.blocks[block.0 as int].parameters.len() as usize;
        GraphView {
            blocks: self.blocks.update(
                block.0 as int,
                BlockView {
                    parameters: self.blocks[block.0 as int].parameters.push(parameter),
                    ..self.blocks[block.0 as int]
                },
            ),
            ..self.with_value(Value::Param { block, position, typ })
        }
    }

    /// The types of the results of an instruction that is about to enter
    /// the graph: what the instruction fixes, else what the caller names.
    pub open spec fn result_types(self, body: InstructionView, ctrl_typevars: Option<Seq<Type>>) -> Seq<
        Type,
    > {
        match body.result_type() {
            InstructionResultType::Known(typ) => seq![typ],
            InstructionResultType::Operand(value) => seq![self.type_of_value(value)],
            InstructionResultType::NoResult => Seq::empty(),
            InstructionResultType::Unknown => match ctrl_typevars {
                Some(types) => types,
                None => Seq::empty(),
            },
        }
    }

    /// The handles of the `count` values that come next.
    pub open spec fn fresh_values(self, count: nat) -> Seq<ValueId> {
        Seq::new(count, |k: int| ValueId((self.values.len() + k) as usize))
    }

    /// The graph with one more instruction, whose results are new values of
    /// the given types, at the end of `block`.
    pub open spec fn with_instruction(
        self,
        body: InstructionView,
        types: Seq<Type>,
        block: BasicBlockId,
        call_stack: Seq<Location>,
    ) -> GraphView {
        let instruction = InstructionId(self.instructions.len() as usize);
        GraphView {
            values: self.values + Seq::new(
                types.len(),
                |k: int| Value::Instruction { instruction, position: k as usize, typ: types[k] },
            ),
            replaced: self.replaced + Seq::new(types.len(), |k: int| None::<ValueId>),
            instructions: self.instructions.push(body),
            results: self.results.push(self.fresh_values(types.len())),
            locations: self.locations.push(call_stack),
            blocks: self.blocks.update(
                block.0 as int,
                BlockView {
                    instructions: self.blocks[block.0 as int].instructions.push(instruction),
                    ..self.blocks[block.0 as int]
                },
            ),
        }
    }

    /// Whether the graph can take `count` more values and instructions:
    /// handles are machine words.
    pub open spec fn can_grow(self, count: nat) -> bool {
        self.values.len() + count <= usize::MAX && self.instructions.len() + count <= usize::MAX
    }

    /// The graph with `body` added at the end of `block`, its result types
    /// being those that it fixes itself.
    pub open spec fn inserted(
        self,
        body: InstructionView,
        block: BasicBlockId,
        call_stack: Seq<Location>,
    ) -> GraphView {
        self.with_instruction(body, self.result_types(body, None), block, call_stack)
    }

    /// The call stack of the instruction that defines `value`; empty for a
    /// value that no instruction defines.
    pub open spec fn value_call_stack(self, value: ValueId) -> Seq<Location> {
        match self.value(value) {
            Value::Instruction { instruction, .. } => self.locations[instruction.0 as int],
            _ => Seq::empty(),
        }
    }

    /// Whether this graph holds all that `before` holds, under the same
    /// handles, and the same blocks by number.
    pub open spec fn extends(self, before: GraphView) -> bool {
        &&& before.values.len() <= self.values.len()
        &&& before.instructions.len() <= self.instructions.len()
        &&& before.blocks.len() == self.blocks.len()
        &&& forall|v: int| 0 <= v < before.values.len() ==> #[trigger] self.values[v] == before.values[v]
        &&& forall|i: int|
            0 <= i < before.instructions.len() ==> #[trigger] self.instructions[i]
                == before.instructions[i]
        &&& forall|i: int|
            0 <= i < before.instructions.len() ==> #[trigger] self.locations[i] == before.locations[i]
    }

    /// A graph with one more instruction extends the graph without it.
    pub proof fn lemma_with_instruction_extends(
        self,
        body: InstructionView,
        types: Seq<Type>,
        block: BasicBlockId,
        call_stack: Seq<Location>,
    )
        requires
            self.wf(),
            self.has_block(block),
        ensures
            self.with_instruction(body, types, block, call_stack).extends(self),
            self.with_instruction(body, types, block, call_stack).values.len() == self.values.len()
                + types.len(),
            self.with_instruction(body, types, block, call_stack).instructions.len()
                == self.instructions.len() + 1,
    {
    }

    /// Whether the graph can take one more instruction with `results`
    /// results: handles are machine words.
    pub open spec fn has_room(self, results: nat) -> bool {
        self.values.len() + results <= usize::MAX && self.instructions.len() < usize::MAX
    }

    /// Adding an instruction whose operands are in the graph keeps the
    /// graph well-formed.
    pub proof fn lemma_with_instruction_wf(
        self,
        body: InstructionView,
        types: Seq<Type>,
        block: BasicBlockId,
        call_stack: Seq<Location>,
    )
        requires
            self.wf(),
            self.has_block(block),
            self.has_values(body.operands()),
            self.has_room(types.len()),
        ensures
            self.with_instruction(body, types, block, call_stack).wf(),
    {
        let after = self.with_instruction(body, types, block, call_stack);
        assert forall|v: int| 0 <= v < after.values.len() implies after.value_closed(
            #[trigger] after.values[v],
        ) by {
            if v < self.values.len() {
                assert(self.value_closed(self.values[v]));
            }
        }
        assert forall|v: int| 0 <= v < after.replaced.len() implies (
        #[trigger] after.replaced[v] matches Some(next) ==> after.has_value(next)) by {
            if v < self.replaced.len() {
                assert(after.replaced[v] == self.replaced[v]);
            }
        }
        assert forall|i: int| 0 <= i < after.instructions.len() implies after.has_values(
            (#[trigger] after.instructions[i]).operands(),
        ) by {
            if i < self.instructions.len() {
                assert(self.has_values(self.instructions[i].operands()));
            }
        }
        assert forall|i: int| 0 <= i < after.results.len() implies after.has_values(
            #[trigger] after.results[i],
        ) by {
            if i < self.results.len() {
                assert(self.has_values(self.results[i]));
            }
        }
        assert forall|b: int| 0 <= b < after.blocks.len() implies after.has_values(
            (#[trigger] after.blocks[b]).parameters,
        ) && after.has_instructions(after.blocks[b].instructions) by {
            assert(self.has_values(self.blocks[b].parameters));
            assert(self.has_instructions(self.blocks[b].instructions));
        }
    }

    /// Following replacements in a well-formed graph stays in the graph.
    pub proof fn lemma_resolve_steps_in_graph(self, value: ValueId, steps: nat)
        requires
            self.wf(),
            self.has_value(value),
        ensures
            self.has_value(self.resolve_steps(value, steps)),
        decreases steps,
    {
        if steps > 0 {
            match self.replaced[value.0 as int] {
                Some(next) => {
                    self.lemma_resolve_steps_in_graph(next, (steps - 1) as nat);
                },
                None => {},
            }
        }
    }

    /// Resolving a value of a well-formed graph gives a value of the graph.
    pub proof fn lemma_resolve_in_graph(self, value: ValueId)
        requires
            self.wf(),
            self.has_value(value),
        ensures
            self.has_value(self.resolve(value)),
    {
        self.lemma_resolve_steps_in_graph(value, self.values.len());
    }
}

/// The store of an SSA function's values, instructions and blocks.
pub struct DataFlowGraph {
    values: Vec<Value>,
    replaced: Vec<Option<ValueId>>,
    instructions: Vec<Instruction>,
    results: Vec<Vec<ValueId>>,
    locations: Vec<CallStack>,
    blocks: Vec<BasicBlock>,
}

impl View for DataFlowGraph {
    type V = GraphView;

    closed spec fn view(&self) -> GraphView {
        GraphView {
            values: self.values@,
            replaced: self.replaced@,
            instructions: self.instructions@.map_values(|body: Instruction| body@),
            results: self.results@.map_values(|results: Vec<ValueId>| results@),
            locations: self.locations@.map_values(|stack: CallStack| call_stack_locations(stack)),
            blocks: self.blocks@.map_values(|block: BasicBlock| block@),
        }
    }
}

impl DataFlowGraph {
    /// A graph that holds nothing.
    pub fn new() -> (graph: DataFlowGraph)
        ensures
            graph@.wf(),
            graph@ == GraphView::empty(),
    {
        let graph = DataFlowGraph {
            values: Vec::new(),
            replaced: Vec::new(),
            instructions: Vec::new(),
            results: Vec::new(),
            locations: Vec::new(),
            blocks: Vec::new(),
        };
        proof {
            let view = graph@;
            assert(view.values =~= Seq::empty());
            assert(view.replaced =~= Seq::empty());
            assert(view.instructions =~= Seq::empty());
            assert(view.results =~= Seq::empty());
            assert(view.locations =~= Seq::empty());
            assert(view.blocks =~= Seq::empty());
        }
        graph
    }

    /// How many values the graph holds.
    pub fn num_values(&self) -> (count: usize)
        ensures
            count == self@.values.len(),
    {
        self.values.len()
    }

    /// How many instructions the graph holds.
    pub fn num_instructions(&self) -> (count: usize)
        ensures
            count == self@.instructions.len(),
    {
        self.instructions.len()
    }

    /// Whether `value` is a value of the graph.
    pub fn has_value(&self, value: ValueId) -> (known: bool)
        ensures
            known == self@.has_value(value),
    {
        value.0 < self.values.len()
    }

    /// Whether `block` is a block of the graph.
    pub fn has_block(&self, block: BasicBlockId) -> (known: bool)
        ensures
            known == self@.has_block(block),
    {
        block.0 < self.blocks.len()
    }

    /// Whether `instruction` is an instruction of the graph.
    pub fn has_instruction(&self, instruction: InstructionId) -> (known: bool)
        ensures
            known == self@.has_instruction(instruction),
    {
        instruction.0 < self.instructions.len()
    }

    /// The definition of `value`.
    pub fn value(&self, value: ValueId) -> (definition: &Value)
        requires
            self@.has_value(value),
        ensures
            *definition == self@.value(value),
    {
        &self.values[value.0]
    }

    /// The body of `instruction`.
    pub fn instruction(&self, instruction: InstructionId) -> (body: &Instruction)
        requires
            self@.has_instruction(instruction),
        ensures
            body@ == self@.instruction(instruction),
    {
        &self.instructions[instruction.0]
    }

    /// The results of `instruction`.
    pub fn instruction_results(&self, instruction: InstructionId) -> (results: &Vec<ValueId>)
        requires
            self@.wf(),
            self@.has_instruction(instruction),
        ensures
            results@ == self@.results[instruction.0 as int],
    {
        &self.results[instruction.0]
    }

    /// The instructions of `block`, in program order.
    pub fn block_instructions(&self, block: BasicBlockId) -> (instructions: &Vec<InstructionId>)
        requires
            self@.has_block(block),
        ensures
            instructions@ == self@.blocks[block.0 as int].instructions,
    {
        &self.blocks[block.0].instructions
    }

    /// The parameters of `block`, in order.
    pub fn block_parameters(&self, block: BasicBlockId) -> (parameters: &Vec<ValueId>)
        requires
            self@.has_block(block),
        ensures
            parameters@ == self@.blocks[block.0 as int].parameters,
    {
        &self.blocks[block.0].parameters
    }

    /// The value that stands for `value` now.
    pub fn resolve(&self, value: ValueId) -> (resolved: ValueId)
        ensures
            resolved == self@.resolve(value),
    {
        let mut current = value;
        let mut steps: usize = self.values.len();
        while steps > 0
            invariant
                self@.resolve_steps(current, steps as nat) == self@.resolve(value),
            decreases steps,
        {
            if current.0 >= self.replaced.len() {
                return current;
            }
            match self.replaced[current.0] {
                Some(next) => {
                    current = next;
                },
                None => {
                    return current;
                },
            }
            steps -= 1;
        }
        current
    }

    /// The type of `value`.
    pub fn type_of_value(&self, value: ValueId) -> (typ: Type)
        requires
            self@.has_value(value),
        ensures
            typ == self@.type_of_value(value),
    {
        self.values[value.0].get_type()
    }

    /// The constant that `value` resolves to, with its type, if it resolves
    /// to a constant.
    pub fn get_numeric_constant_with_type(&self, value: ValueId) -> (constant: Option<
        (FieldElement, Type),
    >)
        requires
            self@.wf(),
            self@.has_value(value),
        ensures
            constant == self@.numeric_constant_with_type(value),
    {
        proof {
            self@.lemma_resolve_in_graph(value);
        }
        match &self.values[self.resolve(value).0] {
            Value::NumericConstant { constant, typ } => Some((*constant, typ.clone())),
            _ => None,
        }
    }

    /// The constant that `value` resolves to, if it resolves to a constant.
    pub fn get_numeric_constant(&self, value: ValueId) -> (constant: Option<FieldElement>)
        requires
            self@.wf(),
            self@.has_value(value),
        ensures
            constant == self@.numeric_constant(value),
    {
        match self.get_numeric_constant_with_type(value) {
            Some((constant, _)) => Some(constant),
            None => None,
        }
    }

    /// The elements and the type of the array that `value` resolves to, if
    /// an instruction makes that array from its elements.
    pub fn get_array_constant(&self, value: ValueId) -> (array: Option<(im::Vector<ValueId>, Type)>)
        requires
            self@.wf(),
            self@.has_value(value),
        ensures
            match array {
                Some((elements, typ)) => self@.array_constant(value) == Some(
                    (vector_values(elements), typ),
                ),
                None => self@.array_constant(value) is None,
            },
    {
        proof {
            self@.lemma_resolve_in_graph(value);
        }
        match &self.values[self.resolve(value).0] {
            Value::Instruction { instruction, .. } => {
                assert(self@.value_closed(self@.values[self@.resolve(value).0 as int]));
                match &self.instructions[instruction.0] {
                    Instruction::MakeArray { elements, typ } => Some(
                        (values_clone(elements), typ.clone()),
                    ),
                    _ => None,
                }
            },
            _ => None,
        }
    }

    /// Whether `value` resolves to something other than an instruction's
    /// result or a block's parameter.
    pub fn is_constant(&self, value: ValueId) -> (constant: bool)
        requires
            self@.wf(),
            self@.has_value(value),
        ensures
            constant == self@.is_constant(value),
    {
        proof {
            self@.lemma_resolve_in_graph(value);
        }
        match &self.values[self.resolve(value).0] {
            Value::Instruction { .. } | Value::Param { .. } => false,
            _ => true,
        }
    }

    /// A bound on the number of bits of `value`.
    pub fn get_value_max_num_bits(&self, value: ValueId) -> (bits: u32)
        requires
            self@.wf(),
            self@.has_value(value),
        ensures
            bits == self@.max_num_bits(value),
    {
        match &self.values[value.0] {
            Value::NumericConstant { constant, .. } => constant.num_bits(),
            Value::Instruction { instruction, .. } => {
                assert(self@.value_closed(self@.values[value.0 as int]));
                match &self.instructions[instruction.0] {
                    Instruction::Cast(operand, _) => {
                        assert(self@.has_values(self@.instructions[instruction.0 as int].operands()));
                        assert(self@.instructions[instruction.0 as int].operands()[0] == *operand);
                        self.type_of_value(*operand).bit_size()
                    },
                    _ => self.type_of_value(value).bit_size(),
                }
            },
            _ => self.type_of_value(value).bit_size(),
        }
    }

    /// Whether reading `array` at `index` cannot fail: `index` is a
    /// constant below the array's length.
    pub fn is_safe_index(&self, index: ValueId, array: ValueId) -> (safe: bool)
        requires
            self@.wf(),
            self@.has_value(index),
            self@.has_value(array),
        ensures
            safe == self@.is_safe_index(index, array),
    {
        match (self.type_of_value(array), self.get_numeric_constant(index)) {
            (Type::Array(_, length), Some(constant)) => constant.to_u128() < length as u128,
            _ => false,
        }
    }

    /// Adds a value whose definition names nothing outside the graph.
    fn make_value(&mut self, value: Value) -> (id: ValueId)
        requires
            old(self)@.wf(),
            old(self)@.value_closed(value),
            old(self)@.values.len() < usize::MAX,
        ensures
            final(self)@.wf(),
            id.0 == old(self)@.values.len(),
            final(self)@ == old(self)@.with_value(value),
    {
        let id = ValueId(self.values.len());
        self.values.push(value);
        self.replaced.push(None);
        proof {
            let before = old(self)@;
            let after = self@;
            assert(after.values == before.values.push(value));
            assert(after.replaced == before.replaced.push(None));
            assert(after.instructions == before.instructions);
            assert(after.results == before.results);
            assert(after.locations == before.locations);
            assert(after.blocks == before.blocks);
            assert forall|i: int| 0 <= i < after.instructions.len() implies after.has_values(
                (#[trigger] after.instructions[i]).operands(),
            ) by {
                assert(before.has_values(before.instructions[i].operands()));
            }
            assert forall|i: int| 0 <= i < after.results.len() implies after.has_values(
                #[trigger] after.results[i],
            ) by {
                assert(before.has_values(before.results[i]));
            }
            assert forall|b: int| 0 <= b < after.blocks.len() implies after.has_values(
                (#[trigger] after.blocks[b]).parameters,
            ) && after.has_instructions(after.blocks[b].instructions) by {
                assert(before.has_values(before.blocks[b].parameters));
            }
        }
        id
    }

    /// Adds the constant `constant` of type `typ`: a new value each time.
    pub fn make_constant(&mut self, constant: FieldElement, typ: Type) -> (id: ValueId)
        requires
            old(self)@.wf(),
            old(self)@.values.len() < usize::MAX,
        ensures
            final(self)@.wf(),
            id.0 == old(self)@.values.len(),
            final(self)@ == old(self)@.with_value(Value::NumericConstant { constant, typ }),
    {
        self.make_value(Value::NumericConstant { constant, typ })
    }

    /// Adds a value that stands for the user function `function`.
    pub fn import_function(&mut self, function: FunctionId) -> (id: ValueId)
        requires
            old(self)@.wf(),
            old(self)@.values.len() < usize::MAX,
        ensures
            final(self)@.wf(),
            id.0 == old(self)@.values.len(),
            final(self)@ == old(self)@.with_value(Value::Function(function)),
    {
        self.make_value(Value::Function(function))
    }

    /// Adds a value that stands for `intrinsic`.
    pub fn import_intrinsic(&mut self, intrinsic: Intrinsic) -> (id: ValueId)
        requires
            old(self)@.wf(),
            old(self)@.values.len() < usize::MAX,
        ensures
            final(self)@.wf(),
            id.0 == old(self)@.values.len(),
            final(self)@ == old(self)@.with_value(Value::Intrinsic(intrinsic)),
    {
        self.make_value(Value::Intrinsic(intrinsic))
    }

    /// Adds a value that stands for the foreign function called `name`.
    pub fn import_foreign_function(&mut self, name: String) -> (id: ValueId)
        requires
            old(self)@.wf(),
            old(self)@.values.len() < usize::MAX,
        ensures
            final(self)@.wf(),
            id.0 == old(self)@.values.len(),
            final(self)@ == old(self)@.with_value(Value::ForeignFunction(name)),
    {
        self.make_value(Value::ForeignFunction(name))
    }

    /// Adds an empty block.
    pub fn make_block(&mut self) -> (block: BasicBlockId)
        requires
            old(self)@.wf(),
        ensures
            final(self)@.wf(),
            block.0 == old(self)@.blocks.len(),
            final(self)@ == old(self)@.with_block(),
    {
        let block = BasicBlockId(self.blocks.len());
        self.blocks.push(BasicBlock { parameters: Vec::new(), instructions: Vec::new() });
        proof {
            let before = old(self)@;
            let after = self@;
            assert(after.blocks == before.with_block().blocks);
            assert(after.values == before.values);
            assert(after.replaced == before.replaced);
            assert(after.instructions == before.instructions);
            assert(after.results == before.results);
            assert(after.locations == before.locations);
            assert forall|v: int| 0 <= v < after.values.len() implies after.value_closed(
                #[trigger] after.values[v],
            ) by {
                assert(before.value_closed(before.values[v]));
            }
            assert forall|b: int| 0 <= b < after.blocks.len() implies after.has_values(
                (#[trigger] after.blocks[b]).parameters,
            ) && after.has_instructions(after.blocks[b].instructions) by {
                if b < before.blocks.len() {
                    assert(before.has_values(before.blocks[b].parameters));
                }
            }
        }
        block
    }

    /// Replaces `value` by `by`: from now on `value` resolves as `by` does.
    pub fn set_value_from_id(&mut self, value: ValueId, by: ValueId)
        requires
            old(self)@.wf(),
            old(self)@.has_value(value),
            old(self)@.has_value(by),
        ensures
            final(self)@.wf(),
            final(self)@ == old(self)@.with_replacement(value, by),
    {
        self.replaced.set(value.0, Some(by));
        proof {
            let before = old(self)@;
            let after = self@;
            assert(after.replaced == before.replaced.update(value.0 as int, Some(by)));
            assert(after.values == before.values);
            assert(after.instructions == before.instructions);
            assert(after.results == before.results);
            assert(after.locations == before.locations);
            assert(after.blocks == before.blocks);
        }
    }

    /// Sets the body of `instruction` anew.
    pub fn set_instruction(&mut self, instruction: InstructionId, body: Instruction)
        requires
            old(self)@.wf(),
            old(self)@.has_instruction(instruction),
            old(self)@.has_values(body@.operands()),
        ensures
            final(self)@.wf(),
            final(self)@ == old(self)@.with_instruction_set(instruction, body@),
    {
        self.instructions.set(instruction.0, body);
        proof {
            let before = old(self)@;
            let after = self@;
            assert(after.instructions == before.instructions.update(instruction.0 as int, body@));
            assert(after.values == before.values);
            assert(after.replaced == before.replaced);
            assert(after.results == before.results);
            assert(after.locations == before.locations);
            assert(after.blocks == before.blocks);
            assert forall|i: int| 0 <= i < after.instructions.len() implies after.has_values(
                (#[trigger] after.instructions[i]).operands(),
            ) by {
                if i != instruction.0 {
                    assert(before.has_values(before.instructions[i].operands()));
                }
            }
        }
    }

    /// The call stack of the instruction that defines `value`.
    pub fn get_value_call_stack(&self, value: ValueId) -> (stack: CallStack)
        requires
            self@.wf(),
            self@.has_value(value),
        ensures
            call_stack_locations(stack) == self@.value_call_stack(value),
    {
        match &self.values[value.0] {
            Value::Instruction { instruction, .. } => {
                assert(self@.value_closed(self@.values[value.0 as int]));
                call_stack_clone(&self.locations[instruction.0])
            },
            _ => call_stack_new(),
        }
    }

    /// Adds `body` to the end of `block`, as it is. `body` is an instruction
    /// with one result, of a type that it fixes itself; the result is
    /// handed back.
    pub fn insert_with_one_result(
        &mut self,
        body: Instruction,
        block: BasicBlockId,
        call_stack: CallStack,
    ) -> (result: ValueId)
        requires
            old(self)@.wf(),
            old(self)@.has_block(block),
            old(self)@.has_values(body@.operands()),
            old(self)@.can_grow(1),
            body@.result_type() is Known || body@.result_type() is Operand,
        ensures
            final(self)@.wf(),
            final(self)@ == old(self)@.inserted(body@, block, call_stack_locations(call_stack)),
            final(self)@.extends(old(self)@),
            final(self)@.values.len() == old(self)@.values.len() + 1,
            final(self)@.instructions.len() == old(self)@.instructions.len() + 1,
            result.0 == old(self)@.values.len(),
            final(self)@.value(result) == (Value::Instruction {
                instruction: InstructionId(old(self)@.instructions.len() as usize),
                position: 0,
                typ: old(self)@.result_types(body@, None)[0],
            }),
    {
        proof {
            let before = self@;
            let types = before.result_types(body@, None);
            assert(types.len() == 1);
            before.lemma_with_instruction_extends(
                body@,
                types,
                block,
                call_stack_locations(call_stack),
            );
        }
        let inserted = self.insert_instruction_without_simplification(body, block, None, call_stack);
        let results = inserted.1;
        assert(results@[0] == ValueId(old(self)@.values.len() as usize));
        results[0]
    }

    /// Adds a parameter of type `typ` to `block`.
    pub fn add_block_parameter(&mut self, block: BasicBlockId, typ: Type) -> (id: ValueId)
        requires
            old(self)@.wf(),
            old(self)@.has_block(block),
            old(self)@.values.len() < usize::MAX,
        ensures
            final(self)@.wf(),
            id.0 == old(self)@.values.len(),
            final(self)@ == old(self)@.with_parameter(block, typ),
    {
        let position = self.blocks[block.0].parameters.len();
        let id = self.make_value(Value::Param { block, position, typ });
        let ghost middle = self@;
        self.blocks[block.0].parameters.push(id);
        proof {
            let before = old(self)@;
            let after = self@;
            assert(after.values == middle.values);
            assert(after.replaced == middle.replaced);
            assert(after.instructions == middle.instructions);
            assert(after.results == middle.results);
            assert(after.locations == middle.locations);
            assert(after.blocks == before.with_parameter(block, typ).blocks);
            assert forall|v: int| 0 <= v < after.values.len() implies after.value_closed(
                #[trigger] after.values[v],
            ) by {
                assert(middle.value_closed(middle.values[v]));
            }
            assert forall|i: int| 0 <= i < after.instructions.len() implies after.has_values(
                (#[trigger] after.instructions[i]).operands(),
            ) by {
                assert(middle.has_values(middle.instructions[i].operands()));
            }
            assert forall|i: int| 0 <= i < after.results.len() implies after.has_values(
                #[trigger] after.results[i],
            ) by {
                assert(middle.has_values(middle.results[i]));
            }
            assert forall|b: int| 0 <= b < after.blocks.len() implies after.has_values(
                (#[trigger] after.blocks[b]).parameters,
            ) && after.has_instructions(after.blocks[b].instructions) by {
                assert(middle.has_values(middle.blocks[b].parameters));
                assert(middle.has_instructions(middle.blocks[b].instructions));
            }
        }
        id
    }

    /// The types of the results of `body`, were it added now.
    fn result_types(&self, body: &Instruction, ctrl_typevars: Option<Vec<Type>>) -> (types: Vec<Type>)
        requires
            self@.wf(),
            self@.has_values(body@.operands()),
        ensures
            types@ == self@.result_types(body@, typevars_view(ctrl_typevars)),
    {
        match body.result_type() {
            InstructionResultType::Known(typ) => {
                let mut types: Vec<Type> = Vec::new();
                types.push(typ);
                assert(types@ == seq![typ]);
                types
            },
            InstructionResultType::Operand(value) => {
                proof {
                    lemma_typed_operand(body@);
                }
                let mut types: Vec<Type> = Vec::new();
                let typ = self.type_of_value(value);
                types.push(typ);
                assert(types@ == seq![typ]);
                types
            },
            InstructionResultType::NoResult => Vec::new(),
            InstructionResultType::Unknown => match ctrl_typevars {
                Some(types) => types,
                None => Vec::new(),
            },
        }
    }

    /// Adds `body` to the end of `block`, as it is, with new values for its
    /// results, and hands back its handle and those of the results.
    /// `ctrl_typevars` names the types of the results where the
    /// instruction does not fix them.
    pub fn insert_instruction_without_simplification(
        &mut self,
        body: Instruction,
        block: BasicBlockId,
        ctrl_typevars: Option<Vec<Type>>,
        call_stack: CallStack,
    ) -> (inserted: (InstructionId, Vec<ValueId>))
        requires
            old(self)@.wf(),
            old(self)@.has_block(block),
            old(self)@.has_values(body@.operands()),
            old(self)@.has_room(
                old(self)@.result_types(body@, typevars_view(ctrl_typevars)).len(),
            ),
        ensures
            final(self)@.wf(),
            final(self)@ == old(self)@.with_instruction(
                body@,
                old(self)@.result_types(body@, typevars_view(ctrl_typevars)),
                block,
                call_stack_locations(call_stack),
            ),
            inserted.0.0 == old(self)@.instructions.len(),
            inserted.1@ == old(self)@.fresh_values(
                old(self)@.result_types(body@, typevars_view(ctrl_typevars)).len(),
            ),
    {
        let ghost before = self@;
        let ghost stack = call_stack_locations(call_stack);
        let types = self.result_types(&body, ctrl_typevars);
        let ghost expected = before.with_instruction(body@, types@, block, stack);
        let instruction = InstructionId(self.instructions.len());
        let count = types.len();
        let first = self.values.len();
        let mut results: Vec<ValueId> = Vec::new();
        let mut position: usize = 0;
        while position < count
            invariant
                position <= count,
                count == types@.len(),
                first == before.values.len(),
                first + count <= usize::MAX,
                instruction.0 == before.instructions.len(),
                self.values@.len() == first + position,
                self.replaced@.len() == first + position,
                self.values@ == expected.values.take(first + position),
                self.replaced@ == expected.replaced.take(first + position),
                results@ == before.fresh_values(position as nat),
                self.instructions == old(self).instructions,
                self.results == old(self).results,
                self.locations == old(self).locations,
                self.blocks == old(self).blocks,
                expected == before.with_instruction(body@, types@, block, stack),
                before.wf(),
            decreases count - position,
        {
            let typ = types[position].clone();
            self.values.push(Value::Instruction { instruction, position, typ });
            self.replaced.push(None);
            results.push(ValueId(first + position));
            proof {
                assert(self.values@ == expected.values.take(first + position + 1));
                assert(self.replaced@ == expected.replaced.take(first + position + 1));
                assert(results@ == before.fresh_values((position + 1) as nat));
            }
            position += 1;
        }
        let result_ids = clone_values(&results);
        self.instructions.push(body);
        self.results.push(results);
        self.locations.push(call_stack);
        self.blocks[block.0].instructions.push(instruction);
        proof {
            let after = self@;
            assert(expected.values.take(first + count) == expected.values);
            assert(expected.replaced.take(first + count) == expected.replaced);
            assert(after.values == expected.values);
            assert(after.replaced == expected.replaced);
            assert(after.instructions == expected.instructions);
            assert(after.results == expected.results);
            assert(after.locations == expected.locations);
            assert(after.blocks == expected.blocks);
            assert(after == expected);
            before.lemma_with_instruction_wf(body@, types@, block, stack);
        }
        (instruction, result_ids)
    }
}

/// The view of an optional list of types.
pub open spec fn typevars_view(ctrl_typevars: Option<Vec<Type>>) -> Option<Seq<Type>> {
    match ctrl_typevars {
        Some(types) => Some(types@),
        None => None,
    }
}

/// The operand that gives an instruction's result its type is one of the
/// instruction's operands.
pub proof fn lemma_typed_operand(body: InstructionView)
    ensures
        body.result_type() matches InstructionResultType::Operand(value) ==> body.operands().len()
            > 0 && (body.operands()[0] == value || (body.operands().len() > 1
            && body.operands()[1] == value)),
{
}

} // verus!

//! Putting an instruction into a block of the graph, simplified first.

use crate::array_chain::{get_after_set, set_after_get, set_after_get_walk};
use crate::dfg::{typevars_view, DataFlowGraph, GraphView};
use crate::field::FieldElement;
use crate::ids::{clone_values, BasicBlockId, InstructionId, Location, ValueId};
use crate::instruction::{Instruction, InstructionView};
use crate::simplify::growth;
use crate::simplify_result::{instruction_views, SimplifyResult, SimplifyResultView};
use crate::types::Type;
use crate::vector::{call_stack_clone, call_stack_locations, CallStack};
use vstd::prelude::*;

verus! {

/// What became of an instruction that was to enter a block.
#[derive(Debug, PartialEq, Eq)]
pub enum InsertInstructionResult {
    /// An instruction entered the block, the given one or a simpler one:
    /// its handle and its results.
    Results(InstructionId, Vec<ValueId>),
    /// No instruction entered: this value stands for the result.
    SimplifiedTo(ValueId),
    /// No instruction entered: these values stand for the results.
    SimplifiedToMultiple(Vec<ValueId>),
    /// No instruction entered, and there is no result.
    InstructionRemoved,
}

/// An [`InsertInstructionResult`] as a mathematical value.
pub enum InsertInstructionResultView {
    Results(InstructionId, Seq<ValueId>),
    SimplifiedTo(ValueId),
    SimplifiedToMultiple(Seq<ValueId>),
    InstructionRemoved,
}

impl View for InsertInstructionResult {
    type V = InsertInstructionResultView;

    open spec fn view(&self) -> InsertInstructionResultView {
        match self {
            InsertInstructionResult::Results(instruction, results) => {
                InsertInstructionResultView::Results(*instruction, results@)
            },
            InsertInstructionResult::SimplifiedTo(value) => InsertInstructionResultView::SimplifiedTo(
                *value,
            ),
            InsertInstructionResult::SimplifiedToMultiple(values) => {
                InsertInstructionResultView::SimplifiedToMultiple(values@)
            },
            InsertInstructionResult::InstructionRemoved => {
                InsertInstructionResultView::InstructionRemoved
            },
        }
    }
}

impl InsertInstructionResultView {
    /// The values that stand for the results of the instruction.
    pub open spec fn results(self) -> Seq<ValueId> {
        match self {
            InsertInstructionResultView::Results(_, results) => results,
            InsertInstructionResultView::SimplifiedTo(value) => seq![value],
            InsertInstructionResultView::SimplifiedToMultiple(values) => values,
            InsertInstructionResultView::InstructionRemoved => Seq::empty(),
        }
    }
}

impl InsertInstructionResult {
    /// The values that stand for the results of the instruction.
    pub fn results(&self) -> (results: Vec<ValueId>)
        ensures
            results@ == self@.results(),
    {
        match self {
            InsertInstructionResult::Results(_, results) => clone_values(results),
            InsertInstructionResult::SimplifiedTo(value) => {
                let mut results: Vec<ValueId> = Vec::new();
                results.push(*value);
                assert(results@ == seq![*value]);
                results
            },
            InsertInstructionResult::SimplifiedToMultiple(values) => clone_values(values),
            InsertInstructionResult::InstructionRemoved => Vec::new(),
        }
    }

    /// How many results there are.
    pub fn len(&self) -> (length: usize)
        ensures
            length == self@.results().len(),
    {
        match self {
            InsertInstructionResult::Results(_, results) => results.len(),
            InsertInstructionResult::SimplifiedTo(_) => 1,
            InsertInstructionResult::SimplifiedToMultiple(values) => values.len(),
            InsertInstructionResult::InstructionRemoved => 0,
        }
    }

    /// The first result. There must be one.
    pub fn first(&self) -> (value: ValueId)
        requires
            self@.results().len() > 0,
        ensures
            value == self@.results()[0],
    {
        match self {
            InsertInstructionResult::Results(_, results) => results[0],
            InsertInstructionResult::SimplifiedTo(value) => *value,
            InsertInstructionResult::SimplifiedToMultiple(values) => values[0],
            InsertInstructionResult::InstructionRemoved => {
                proof {
                    assert(false);
                }
                ValueId(0)
            },
        }
    }
}

impl GraphView {
    /// The graph with each of `bodies` added at the end of `block`, in
    /// order and as it is.
    pub open spec fn with_instructions(
        self,
        bodies: Seq<InstructionView>,
        ctrl_typevars: Option<Seq<Type>>,
        block: BasicBlockId,
        call_stack: Seq<Location>,
    ) -> GraphView
        decreases bodies.len(),
    {
        if bodies.len() == 0 {
            self
        } else {
            let before = self.with_instructions(bodies.drop_last(), ctrl_typevars, block, call_stack);
            before.with_instruction(
                bodies.last(),
                before.result_types(bodies.last(), ctrl_typevars),
                block,
                call_stack,
            )
        }
    }

    /// Whether the graph can take an instruction that is simplified first:
    /// what the simplification adds, and then at most two instructions with
    /// their results.
    pub open spec fn can_insert(self, ctrl_typevars: Option<Seq<Type>>) -> bool {
        let named: nat = match ctrl_typevars {
            Some(types) => types.len(),
            None => 0,
        };
        self.values.len() + growth() + 2 * (named + 1) <= usize::MAX && self.instructions.len()
            + growth() + 2 <= usize::MAX
    }
}

/// The instructions that enter the block where `body` simplifies to
/// `result`: those that the result names, or `body` itself.
pub open spec fn entering(body: InstructionView, result: SimplifyResultView) -> Seq<InstructionView> {
    match result.instructions() {
        Some(list) => list,
        None => seq![body],
    }
}

impl InstructionView {
    /// What becomes of the instruction where it is to enter `block` of
    /// `graph`, and the graph after. It is simplified first. If that yields
    /// values or removes the instruction, nothing enters the block.
    /// Otherwise the simpler instructions enter, or the instruction itself
    /// where there are none, and the results are those of the last.
    pub open spec fn inserted(
        self,
        graph: GraphView,
        block: BasicBlockId,
        ctrl_typevars: Option<Seq<Type>>,
        call_stack: Seq<Location>,
    ) -> (InsertInstructionResultView, GraphView) {
        let (result, graph) = self.simplified(graph, block, ctrl_typevars, call_stack);
        match result {
            SimplifyResultView::SimplifiedTo(value) => (
                InsertInstructionResultView::SimplifiedTo(value),
                graph,
            ),
            SimplifyResultView::SimplifiedToMultiple(values) => (
                InsertInstructionResultView::SimplifiedToMultiple(values),
                graph,
            ),
            SimplifyResultView::Remove => (InsertInstructionResultView::InstructionRemoved, graph),
            _ => {
                let bodies = entering(self, result);
                let before = graph.with_instructions(
                    bodies.drop_last(),
                    ctrl_typevars,
                    block,
                    call_stack,
                );
                (
                    InsertInstructionResultView::Results(
                        InstructionId(before.instructions.len() as usize),
                        before.fresh_values(before.result_types(bodies.last(), ctrl_typevars).len()),
                    ),
                    graph.with_instructions(bodies, ctrl_typevars, block, call_stack),
                )
            },
        }
    }

    /// A simplification names at most two instructions, and never none.
    pub proof fn lemma_simplified_instructions(
        self,
        graph: GraphView,
        block: BasicBlockId,
        ctrl_typevars: Option<Seq<Type>>,
        call_stack: Seq<Location>,
    )
        ensures
            self.simplified(graph, block, ctrl_typevars, call_stack).0 matches 
                SimplifyResultView::SimplifiedToInstructionMultiple(list) ==> 1 <= list.len() <= 2,
    {
        match self {
            InstructionView::ArrayGet { array, index } => {
                if let Some(constant) = graph.numeric_constant(index) {
                    lemma_get_after_set_shape(graph, array, constant, crate::array_chain::MAX_TRIES as nat);
                }
            },
            InstructionView::ArraySet { array, index, value, .. } => {
                lemma_set_after_get_shape(graph, array, index, value);
            },
            _ => {},
        }
    }
}

/// A read simplifies to a value or not at all.
pub proof fn lemma_get_after_set_shape(
    graph: GraphView,
    array: ValueId,
    target: FieldElement,
    tries: nat,
)
    ensures
        get_after_set(graph, array, target, tries) is SimplifiedTo || get_after_set(
            graph,
            array,
            target,
            tries,
        ) is Unchanged,
    decreases tries,
{
    if tries > 0 {
        if let Some(InstructionView::ArraySet { array: inner, index, .. }) = graph.definition(array) {
            lemma_get_after_set_shape(graph, inner, target, (tries - 1) as nat);
        }
    }
}

/// A write that puts back what was read simplifies to a value or not at
/// all.
pub proof fn lemma_set_after_get_shape(
    graph: GraphView,
    array: ValueId,
    index: ValueId,
    value: ValueId,
)
    ensures
        set_after_get(graph, array, index, value) is SimplifiedTo || set_after_get(
            graph,
            array,
            index,
            value,
        ) is Unchanged,
{
    if let Some(InstructionView::ArrayGet { array: read_array, index: read_index }) = graph.definition(
        value,
    ) {
        if let Some(target) = graph.numeric_constant(index) {
            lemma_set_after_get_walk_shape(
                graph,
                array,
                array,
                target,
                read_array,
                crate::array_chain::MAX_TRIES as nat,
            );
        }
    }
}

proof fn lemma_set_after_get_walk_shape(
    graph: GraphView,
    written: ValueId,
    current: ValueId,
    target: FieldElement,
    read_array: ValueId,
    tries: nat,
)
    ensures
        set_after_get_walk(graph, written, current, target, read_array, tries) is SimplifiedTo
            || set_after_get_walk(graph, written, current, target, read_array, tries) is Unchanged,
    decreases tries,
{
    if tries > 0 {
        if let Some(InstructionView::ArraySet { array: inner, .. }) = graph.definition(current) {
            lemma_set_after_get_walk_shape(
                graph,
                written,
                inner,
                target,
                read_array,
                (tries - 1) as nat,
            );
        }
    }
}

/// A copy of an optional list of types.
fn clone_typevars(ctrl_typevars: &Option<Vec<Type>>) -> (copy: Option<Vec<Type>>)
    ensures
        typevars_view(copy) == typevars_view(*ctrl_typevars),
{
    match ctrl_typevars {
        Some(types) => {
            let mut copy: Vec<Type> = Vec::new();
            let mut at: usize = 0;
            while at < types.len()
                invariant
                    at <= types.len(),
                    copy@ == types@.take(at as int),
                decreases types.len() - at,
            {
                copy.push(types[at].clone());
                at += 1;
            }
            proof {
                assert(types@.take(at as int) == types@);
            }
            Some(copy)
        },
        None => None,
    }
}

impl DataFlowGraph {
    /// Puts `instruction` at the end of `block`, simplified first, and says
    /// what stands for its results. `ctrl_typevars` names the types of the
    /// results where the instruction does not fix them.
    pub fn insert_instruction_and_results(
        &mut self,
        instruction: Instruction,
        block: BasicBlockId,
        ctrl_typevars: Option<Vec<Type>>,
        call_stack: CallStack,
    ) -> (inserted: InsertInstructionResult)
        requires
            old(self)@.wf(),
            old(self)@.has_block(block),
            old(self)@.has_values(instruction@.operands()),
            old(self)@.can_insert(typevars_view(ctrl_typevars)),
            !instruction@.writes_beyond_any_array(old(self)@),
        ensures
            final(self)@.wf(),
            (inserted@, final(self)@) == instruction@.inserted(
                old(self)@,
                block,
                typevars_view(ctrl_typevars),
                call_stack_locations(call_stack),
            ),
            final(self)@.has_values(inserted@.results()),
    {
        let ghost start = self@;
        let ghost typevars = typevars_view(ctrl_typevars);
        let ghost stack = call_stack_locations(call_stack);
        proof {
            instruction@.lemma_simplified_instructions(start, block, typevars, stack);
        }
        let result = instruction.simplify(self, block, clone_typevars(&ctrl_typevars), &call_stack);
        let ghost simplified = self@;
        let ghost bodies = entering(instruction@, result@);
        let instructions = match result {
            SimplifyResult::SimplifiedTo(value) => {
                return InsertInstructionResult::SimplifiedTo(value);
            },
            SimplifyResult::SimplifiedToMultiple(values) => {
                return InsertInstructionResult::SimplifiedToMultiple(values);
            },
            SimplifyResult::Remove => {
                return InsertInstructionResult::InstructionRemoved;
            },
            SimplifyResult::SimplifiedToInstruction(simpler) => {
                let mut list: Vec<Instruction> = Vec::new();
                list.push(simpler);
                assert(instruction_views(list@) == seq![simpler@]);
                list
            },
            SimplifyResult::SimplifiedToInstructionMultiple(list) => list,
            SimplifyResult::Unchanged => {
                let mut list: Vec<Instruction> = Vec::new();
                proof {
                    assert forall|k: int|
                        0 <= k < instruction@.operands().len() implies simplified.has_value(
                        #[trigger] instruction@.operands()[k],
                    ) by {
                        assert(start.has_value(instruction@.operands()[k]));
                    }
                }
                list.push(instruction);
                assert(instruction_views(list@) == seq![instruction@]);
                list
            },
        };
        assert(instruction_views(instructions@) == bodies);
        assert(1 <= bodies.len() <= 2);
        let ghost named: nat = match typevars {
            Some(types) => types.len(),
            None => 0,
        };
        let count = instructions.len();
        let mut last = InstructionId(0);
        let mut results: Vec<ValueId> = Vec::new();
        let mut at: usize = 0;
        while at < count
            invariant
                at <= count,
                count == instructions@.len(),
                1 <= count <= 2,
                instruction_views(instructions@) == bodies,
                typevars == typevars_view(ctrl_typevars),
                stack == call_stack_locations(call_stack),
                named == match typevars {
                    Some(types) => types.len(),
                    None => 0,
                },
                self@.wf(),
                self@.has_block(block),
                self@ == simplified.with_instructions(bodies.take(at as int), typevars, block, stack),
                self@.values.len() <= simplified.values.len() + at * (named + 1),
                self@.instructions.len() == simplified.instructions.len() + at,
                simplified.values.len() + 2 * (named + 1) <= usize::MAX,
                simplified.instructions.len() + 2 <= usize::MAX,
                forall|k: int|
                    0 <= k < bodies.len() ==> self@.has_values((#[trigger] bodies[k]).operands()),
                self@.has_values(results@),
                at > 0 ==> {
                    let before = simplified.with_instructions(
                        bodies.take(at - 1),
                        typevars,
                        block,
                        stack,
                    );
                    &&& last.0 == before.instructions.len()
                    &&& results@ == before.fresh_values(
                        before.result_types(bodies[at - 1], typevars).len(),
                    )
                },
            decreases count - at,
        {
            let ghost before = self@;
            let body = instructions[at].clone();
            assert(body@ == bodies[at as int]);
            proof {
                let types = before.result_types(body@, typevars);
                assert(types.len() <= named + 1) by {
                    crate::dfg::lemma_typed_operand(body@);
                }
                assert(at * (named + 1) + (named + 1) <= 2 * (named + 1)) by (nonlinear_arith)
                    requires
                        at <= 1,
                ;
                before.lemma_with_instruction_extends(body@, types, block, stack);
                assert(bodies.take(at + 1).drop_last() == bodies.take(at as int));
                assert(bodies.take(at + 1).last() == bodies[at as int]);
            }
            let inserted = self.insert_instruction_without_simplification(
                body,
                block,
                clone_typevars(&ctrl_typevars),
                call_stack_clone(&call_stack),
            );
            last = inserted.0;
            results = inserted.1;
            proof {
                assert((at + 1) * (named + 1) == at * (named + 1) + (named + 1)) by (nonlinear_arith);
                assert forall|k: int| 0 <= k < bodies.len() implies self@.has_values(
                    (#[trigger] bodies[k]).operands(),
                ) by {
                    assert(before.has_values(bodies[k].operands()));
                }
            }
            at += 1;
        }
        proof {
            assert(bodies.take(count as int) == bodies);
            assert(bodies.take(count - 1) == bodies.drop_last());
        }
        InsertInstructionResult::Results(last, results)
    }
}

} // verus!

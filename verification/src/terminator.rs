//! The instructions that end a basic block.

use crate::ids::{
    clone_values, map_list, mutate_list, visit_list, BasicBlockId, Location, ValueId,
};
use crate::vector::{call_stack_clone, call_stack_locations, CallStack};
use vstd::prelude::*;

verus! {

/// An instruction that leaves a basic block. A block holds one, after its
/// other instructions.
#[derive(Debug, PartialEq, Eq, Hash)]
pub enum TerminatorInstruction {
    /// Goes to `then_destination` if `condition` holds, else to
    /// `else_destination`.
    JmpIf {
        condition: ValueId,
        then_destination: BasicBlockId,
        else_destination: BasicBlockId,
        call_stack: CallStack,
    },
    /// Goes to `destination` and hands it `arguments`.
    Jmp { destination: BasicBlockId, arguments: Vec<ValueId>, call_stack: CallStack },
    /// Leaves the function with `return_values`. A finished function has
    /// one such instruction: an early return jumps to the block that
    /// holds it.
    Return { return_values: Vec<ValueId>, call_stack: CallStack },
}

/// A [`TerminatorInstruction`] as a mathematical value.
pub enum TerminatorView {
    JmpIf {
        condition: ValueId,
        then_destination: BasicBlockId,
        else_destination: BasicBlockId,
        call_stack: Seq<Location>,
    },
    Jmp { destination: BasicBlockId, arguments: Seq<ValueId>, call_stack: Seq<Location> },
    Return { return_values: Seq<ValueId>, call_stack: Seq<Location> },
}

impl View for TerminatorInstruction {
    type V = TerminatorView;

    open spec fn view(&self) -> TerminatorView {
        match self {
            TerminatorInstruction::JmpIf {
                condition,
                then_destination,
                else_destination,
                call_stack,
            } => TerminatorView::JmpIf {
                condition: *condition,
                then_destination: *then_destination,
                else_destination: *else_destination,
                call_stack: call_stack_locations(*call_stack),
            },
            TerminatorInstruction::Jmp { destination, arguments, call_stack } => TerminatorView::Jmp {
                destination: *destination,
                arguments: arguments@,
                call_stack: call_stack_locations(*call_stack),
            },
            TerminatorInstruction::Return { return_values, call_stack } => TerminatorView::Return {
                return_values: return_values@,
                call_stack: call_stack_locations(*call_stack),
            },
        }
    }
}

impl TerminatorView {
    /// The values that the terminator reads, in order.
    pub open spec fn operands(self) -> Seq<ValueId> {
        match self {
            TerminatorView::JmpIf { condition, .. } => seq![condition],
            TerminatorView::Jmp { arguments, .. } => arguments,
            TerminatorView::Return { return_values, .. } => return_values,
        }
    }

    /// The same terminator over other values, item for item.
    pub open spec fn with_operands(self, values: Seq<ValueId>) -> TerminatorView {
        match self {
            TerminatorView::JmpIf {
                then_destination,
                else_destination,
                call_stack,
                ..
            } => TerminatorView::JmpIf {
                condition: values[0],
                then_destination,
                else_destination,
                call_stack,
            },
            TerminatorView::Jmp { destination, call_stack, .. } => TerminatorView::Jmp {
                destination,
                arguments: values,
                call_stack,
            },
            TerminatorView::Return { call_stack, .. } => TerminatorView::Return {
                return_values: values,
                call_stack,
            },
        }
    }

    /// The blocks that the terminator can go to, in order: none for a
    /// return.
    pub open spec fn destinations(self) -> Seq<BasicBlockId> {
        match self {
            TerminatorView::JmpIf { then_destination, else_destination, .. } => seq![
                then_destination,
                else_destination,
            ],
            TerminatorView::Jmp { destination, .. } => seq![destination],
            TerminatorView::Return { .. } => Seq::empty(),
        }
    }

    /// The same terminator with other destinations, item for item.
    pub open spec fn with_destinations(self, blocks: Seq<BasicBlockId>) -> TerminatorView {
        match self {
            TerminatorView::JmpIf { condition, call_stack, .. } => TerminatorView::JmpIf {
                condition,
                then_destination: blocks[0],
                else_destination: blocks[1],
                call_stack,
            },
            TerminatorView::Jmp { arguments, call_stack, .. } => TerminatorView::Jmp {
                destination: blocks[0],
                arguments,
                call_stack,
            },
            TerminatorView::Return { .. } => self,
        }
    }

    /// The source places that lead to the terminator.
    pub open spec fn call_stack(self) -> Seq<Location> {
        match self {
            TerminatorView::JmpIf { call_stack, .. } => call_stack,
            TerminatorView::Jmp { call_stack, .. } => call_stack,
            TerminatorView::Return { call_stack, .. } => call_stack,
        }
    }

    /// The terminator with `rename` applied to each value it reads.
    pub open spec fn rename(self, rename: spec_fn(ValueId) -> ValueId) -> TerminatorView {
        self.with_operands(self.operands().map_values(rename))
    }

    /// Renaming the values of a terminator and renaming them back gives
    /// the terminator again.
    pub proof fn lemma_rename_round_trip(
        self,
        there: spec_fn(ValueId) -> ValueId,
        back: spec_fn(ValueId) -> ValueId,
    )
        requires
            forall|k: int| 0 <= k < self.operands().len() ==> back(there(#[trigger] self.operands()[k]))
                == self.operands()[k],
        ensures
            self.rename(there).rename(back) == self,
    {
        let renamed = self.operands().map_values(there);
        assert(self.with_operands(renamed).operands() =~= renamed);
        assert(renamed.map_values(back) =~= self.operands());
        assert(self.with_operands(self.operands()) == self) by {
            match self {
                TerminatorView::JmpIf { .. } => {},
                _ => {},
            }
        }
    }

    /// The values that renaming puts in place are the images of the values
    /// that a visit finds, in the same order.
    pub proof fn lemma_rename_visits_all(self, rename: spec_fn(ValueId) -> ValueId)
        ensures
            self.rename(rename).operands() == self.operands().map_values(rename),
    {
        let renamed = self.operands().map_values(rename);
        assert(self.with_operands(renamed).operands() =~= renamed);
    }
}

impl Clone for TerminatorInstruction {
    fn clone(&self) -> (copy: TerminatorInstruction)
        ensures
            copy@ == self@,
    {
        match self {
            TerminatorInstruction::JmpIf {
                condition,
                then_destination,
                else_destination,
                call_stack,
            } => TerminatorInstruction::JmpIf {
                condition: *condition,
                then_destination: *then_destination,
                else_destination: *else_destination,
                call_stack: call_stack_clone(call_stack),
            },
            TerminatorInstruction::Jmp {
                destination,
                arguments,
                call_stack,
            } => TerminatorInstruction::Jmp {
                destination: *destination,
                arguments: clone_values(arguments),
                call_stack: call_stack_clone(call_stack),
            },
            TerminatorInstruction::Return {
                return_values,
                call_stack,
            } => TerminatorInstruction::Return {
                return_values: clone_values(return_values),
                call_stack: call_stack_clone(call_stack),
            },
        }
    }
}

impl TerminatorInstruction {
    /// A new terminator that reads `f` of each value that this one reads,
    /// and is the same otherwise.
    pub fn map_values<F: Fn(ValueId) -> ValueId>(&self, f: F) -> (mapped: TerminatorInstruction)
        requires
            forall|k: int|
                0 <= k < self@.operands().len() ==> f.requires((#[trigger] self@.operands()[k],)),
        ensures
            mapped@.operands().len() == self@.operands().len(),
            forall|k: int|
                0 <= k < self@.operands().len() ==> f.ensures(
                    (self@.operands()[k],),
                    #[trigger] mapped@.operands()[k],
                ),
            mapped@ == self@.with_operands(mapped@.operands()),
    {
        match self {
            TerminatorInstruction::JmpIf {
                condition,
                then_destination,
                else_destination,
                call_stack,
            } => {
                assert(self@.operands()[0] == *condition);
                TerminatorInstruction::JmpIf {
                    condition: f(*condition),
                    then_destination: *then_destination,
                    else_destination: *else_destination,
                    call_stack: call_stack_clone(call_stack),
                }
            },
            TerminatorInstruction::Jmp { destination, arguments, call_stack } => {
                assert(self@.operands() == arguments@);
                TerminatorInstruction::Jmp {
                    destination: *destination,
                    arguments: map_list(arguments, &f),
                    call_stack: call_stack_clone(call_stack),
                }
            },
            TerminatorInstruction::Return { return_values, call_stack } => {
                assert(self@.operands() == return_values@);
                TerminatorInstruction::Return {
                    return_values: map_list(return_values, &f),
                    call_stack: call_stack_clone(call_stack),
                }
            },
        }
    }

    /// Puts `f` of each value that the terminator reads in the value's
    /// place.
    pub fn mutate_values<F: Fn(ValueId) -> ValueId>(&mut self, f: F)
        requires
            forall|k: int|
                0 <= k < old(self)@.operands().len() ==> f.requires(
                    (#[trigger] old(self)@.operands()[k],),
                ),
        ensures
            final(self)@.operands().len() == old(self)@.operands().len(),
            forall|k: int|
                0 <= k < old(self)@.operands().len() ==> f.ensures(
                    (old(self)@.operands()[k],),
                    #[trigger] final(self)@.operands()[k],
                ),
            final(self)@ == old(self)@.with_operands(final(self)@.operands()),
    {
        match self {
            TerminatorInstruction::JmpIf { condition, .. } => {
                assert(old(self)@.operands()[0] == *condition);
                *condition = f(*condition);
            },
            TerminatorInstruction::Jmp { arguments, .. } => {
                assert(old(self)@.operands() == arguments@);
                mutate_list(arguments, &f);
            },
            TerminatorInstruction::Return { return_values, .. } => {
                assert(old(self)@.operands() == return_values@);
                mutate_list(return_values, &f);
            },
        }
    }

    /// Calls `f` on each value that the terminator reads, in order, and
    /// hands back what the calls returned, in that order.
    pub fn for_each_value<T, F: Fn(ValueId) -> T>(&self, f: F) -> (results: Vec<T>)
        requires
            forall|k: int|
                0 <= k < self@.operands().len() ==> f.requires((#[trigger] self@.operands()[k],)),
        ensures
            results@.len() == self@.operands().len(),
            forall|k: int|
                0 <= k < self@.operands().len() ==> f.ensures(
                    (self@.operands()[k],),
                    #[trigger] results@[k],
                ),
    {
        match self {
            TerminatorInstruction::JmpIf { condition, .. } => {
                assert(self@.operands()[0] == *condition);
                let mut results: Vec<T> = Vec::new();
                results.push(f(*condition));
                results
            },
            TerminatorInstruction::Jmp { arguments, .. } => {
                assert(self@.operands() == arguments@);
                let mut results: Vec<T> = Vec::new();
                visit_list(arguments, &f, &mut results);
                proof {
                    assert forall|k: int| 0 <= k < arguments@.len() implies f.ensures(
                        (arguments@[k],),
                        #[trigger] results@[k],
                    ) by {
                        assert(results@[0 + k] == results@[k]);
                    }
                }
                results
            },
            TerminatorInstruction::Return { return_values, .. } => {
                assert(self@.operands() == return_values@);
                let mut results: Vec<T> = Vec::new();
                visit_list(return_values, &f, &mut results);
                proof {
                    assert forall|k: int| 0 <= k < return_values@.len() implies f.ensures(
                        (return_values@[k],),
                        #[trigger] results@[k],
                    ) by {
                        assert(results@[0 + k] == results@[k]);
                    }
                }
                results
            },
        }
    }

    /// Puts `f` of each destination of the terminator in the destination's
    /// place. A return has none.
    pub fn mutate_blocks<F: Fn(BasicBlockId) -> BasicBlockId>(&mut self, f: F)
        requires
            forall|k: int|
                0 <= k < old(self)@.destinations().len() ==> f.requires(
                    (#[trigger] old(self)@.destinations()[k],),
                ),
        ensures
            final(self)@.destinations().len() == old(self)@.destinations().len(),
            forall|k: int|
                0 <= k < old(self)@.destinations().len() ==> f.ensures(
                    (old(self)@.destinations()[k],),
                    #[trigger] final(self)@.destinations()[k],
                ),
            final(self)@ == old(self)@.with_destinations(final(self)@.destinations()),
    {
        match self {
            TerminatorInstruction::JmpIf { then_destination, else_destination, .. } => {
                assert(old(self)@.destinations()[0] == *then_destination
                    && old(self)@.destinations()[1] == *else_destination);
                *then_destination = f(*then_destination);
                *else_destination = f(*else_destination);
            },
            TerminatorInstruction::Jmp { destination, .. } => {
                assert(old(self)@.destinations()[0] == *destination);
                *destination = f(*destination);
            },
            TerminatorInstruction::Return { .. } => {},
        }
    }

    /// The source places that lead to the terminator.
    pub fn call_stack(&self) -> (stack: CallStack)
        ensures
            call_stack_locations(stack) == self@.call_stack(),
    {
        match self {
            TerminatorInstruction::JmpIf { call_stack, .. }
            | TerminatorInstruction::Jmp { call_stack, .. }
            | TerminatorInstruction::Return { call_stack, .. } => call_stack_clone(call_stack),
        }
    }
}

} // verus!

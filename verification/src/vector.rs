//! The persistent vectors of the `im` crate, which hold the elements of an
//! array and the places of a call stack. Verus sees such a vector only
//! through what it holds.

use crate::ids::{Location, ValueId};
use vstd::prelude::*;

verus! {

/// `im::Vector`: a sequence whose clones share their storage.
#[verifier::external_type_specification]
#[verifier::external_body]
#[verifier::reject_recursive_types(A)]
pub struct ExVector<A>(im::Vector<A>);

/// The source places that lead to an instruction, outermost call first.
pub type CallStack = im::Vector<Location>;

/// What a vector of values holds, first to last.
pub uninterp spec fn vector_values(vector: im::Vector<ValueId>) -> Seq<ValueId>;

/// What a call stack holds, first to last.
pub uninterp spec fn call_stack_locations(stack: im::Vector<Location>) -> Seq<Location>;

/// `Vector::new`: a vector that holds nothing.
#[verifier::external_body]
pub(crate) fn values_new() -> (vector: im::Vector<ValueId>)
    ensures
        vector_values(vector) == Seq::<ValueId>::empty(),
{
    im::Vector::new()
}

/// `Vector::len`: how many values the vector holds.
#[verifier::external_body]
pub(crate) fn values_len(vector: &im::Vector<ValueId>) -> (length: usize)
    ensures
        length == vector_values(*vector).len(),
{
    vector.len()
}

/// `Vector`'s indexing: the value at `index`. Out of bounds it panics,
/// hence the `requires`.
#[verifier::external_body]
pub(crate) fn values_get(vector: &im::Vector<ValueId>, index: usize) -> (value: ValueId)
    requires
        index < vector_values(*vector).len(),
    ensures
        value == vector_values(*vector)[index as int],
{
    vector[index]
}

/// `Vector::update`: a vector that holds `value` at `index` and what
/// `vector` holds elsewhere. Out of bounds it panics, hence the `requires`.
#[verifier::external_body]
pub(crate) fn values_update(vector: &im::Vector<ValueId>, index: usize, value: ValueId) -> (updated:
    im::Vector<ValueId>)
    requires
        index < vector_values(*vector).len(),
    ensures
        vector_values(updated) == vector_values(*vector).update(index as int, value),
{
    vector.update(index, value)
}

/// `Vector::push_back`: `value` becomes the last item.
#[verifier::external_body]
pub(crate) fn values_push_back(vector: &mut im::Vector<ValueId>, value: ValueId)
    ensures
        vector_values(*final(vector)) == vector_values(*old(vector)).push(value),
{
    vector.push_back(value)
}

/// `Vector`'s `clone`: a vector that holds the same values.
#[verifier::external_body]
pub(crate) fn values_clone(vector: &im::Vector<ValueId>) -> (copy: im::Vector<ValueId>)
    ensures
        vector_values(copy) == vector_values(*vector),
{
    vector.clone()
}

/// `Vector::new`: a call stack that holds nothing.
#[verifier::external_body]
pub(crate) fn call_stack_new() -> (stack: im::Vector<Location>)
    ensures
        call_stack_locations(stack) == Seq::<Location>::empty(),
{
    im::Vector::new()
}

/// `Vector::len`: how many places the call stack holds.
#[verifier::external_body]
pub(crate) fn call_stack_len(stack: &im::Vector<Location>) -> (length: usize)
    ensures
        length == call_stack_locations(*stack).len(),
{
    stack.len()
}

/// `Vector`'s `clone`: a call stack that holds the same places.
#[verifier::external_body]
pub(crate) fn call_stack_clone(stack: &im::Vector<Location>) -> (copy: im::Vector<Location>)
    ensures
        call_stack_locations(copy) == call_stack_locations(*stack),
{
    stack.clone()
}

} // verus!

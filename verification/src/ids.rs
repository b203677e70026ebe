//! Handles into the data-flow graph, and what is done with a list of
//! them. A handle is a plain index: the graph owns what it stands for.

use vstd::prelude::*;

verus! {

/// Handle of an SSA value.
#[derive(Clone, Copy, PartialEq, Eq, Structural, Hash, Debug, PartialOrd, Ord)]
pub struct ValueId(pub usize);

/// Handle of an instruction body. Two blocks may hold the same handle and
/// still get different results from it: a handle is no identity.
#[derive(Clone, Copy, PartialEq, Eq, Structural, Hash, Debug, PartialOrd, Ord)]
pub struct InstructionId(pub usize);

/// Handle of a basic block.
#[derive(Clone, Copy, PartialEq, Eq, Structural, Hash, Debug, PartialOrd, Ord)]
pub struct BasicBlockId(pub usize);

/// Handle of a user function.
#[derive(Clone, Copy, PartialEq, Eq, Structural, Hash, Debug, PartialOrd, Ord)]
pub struct FunctionId(pub usize);

/// A place in the source text: a span of bytes in a file.
#[derive(Clone, Copy, PartialEq, Eq, Structural, Hash, Debug)]
pub struct Location {
    pub file: usize,
    pub start: u32,
    pub end: u32,
}

/// A copy of a list of values.
pub fn clone_values(values: &Vec<ValueId>) -> (copy: Vec<ValueId>)
    ensures
        copy@ == values@,
{
    let mut copy: Vec<ValueId> = Vec::new();
    let mut at: usize = 0;
    while at < values.len()
        invariant
            at <= values.len(),
            copy@ == values@.take(at as int),
        decreases values.len() - at,
    {
        copy.push(values[at]);
        at += 1;
    }
    proof {
        assert(values@.take(at as int) == values@);
    }
    copy
}

/// Applies `f` to each value of a list, in order.
pub(crate) fn map_list<F: Fn(ValueId) -> ValueId>(values: &Vec<ValueId>, f: &F) -> (mapped: Vec<ValueId>)
    requires
        forall|k: int| 0 <= k < values@.len() ==> f.requires((#[trigger] values@[k],)),
    ensures
        mapped@.len() == values@.len(),
        forall|k: int| 0 <= k < values@.len() ==> f.ensures((values@[k],), #[trigger] mapped@[k]),
{
    let mut mapped: Vec<ValueId> = Vec::new();
    let mut at: usize = 0;
    while at < values.len()
        invariant
            at <= values.len(),
            mapped@.len() == at,
            forall|k: int| 0 <= k < values@.len() ==> f.requires((#[trigger] values@[k],)),
            forall|k: int| 0 <= k < at ==> f.ensures((values@[k],), #[trigger] mapped@[k]),
        decreases values.len() - at,
    {
        let image = f(values[at]);
        mapped.push(image);
        at += 1;
    }
    mapped
}

/// Puts `f` of each value of a list in the value's place.
pub(crate) fn mutate_list<F: Fn(ValueId) -> ValueId>(values: &mut Vec<ValueId>, f: &F)
    requires
        forall|k: int| 0 <= k < old(values)@.len() ==> f.requires((#[trigger] old(values)@[k],)),
    ensures
        final(values)@.len() == old(values)@.len(),
        forall|k: int|
            0 <= k < old(values)@.len() ==> f.ensures(
                (old(values)@[k],),
                #[trigger] final(values)@[k],
            ),
{
    let ghost before = values@;
    let length = values.len();
    let mut at: usize = 0;
    while at < length
        invariant
            at <= length,
            values@.len() == length,
            before.len() == length,
            forall|k: int| 0 <= k < length ==> f.requires((#[trigger] before[k],)),
            forall|k: int| 0 <= k < at ==> f.ensures((before[k],), #[trigger] values@[k]),
            forall|k: int| at <= k < length ==> values@[k] == before[k],
        decreases length - at,
    {
        assert(values@[at as int] == before[at as int]);
        let image = f(values[at]);
        values.set(at, image);
        at += 1;
    }
}

/// Applies `f` to each value of a list, in order, and collects what it
/// returns.
pub(crate) fn visit_list<T, F: Fn(ValueId) -> T>(values: &Vec<ValueId>, f: &F, results: &mut Vec<T>)
    requires
        forall|k: int| 0 <= k < values@.len() ==> f.requires((#[trigger] values@[k],)),
    ensures
        final(results)@.len() == old(results)@.len() + values@.len(),
        final(results)@.take(old(results)@.len() as int) == old(results)@,
        forall|k: int|
            0 <= k < values@.len() ==> f.ensures(
                (values@[k],),
                #[trigger] final(results)@[old(results)@.len() + k],
            ),
{
    let ghost before = results@;
    let mut at: usize = 0;
    while at < values.len()
        invariant
            at <= values.len(),
            results@.len() == before.len() + at,
            results@.take(before.len() as int) == before,
            forall|k: int| 0 <= k < values@.len() ==> f.requires((#[trigger] values@[k],)),
            forall|k: int|
                0 <= k < at ==> f.ensures((values@[k],), #[trigger] results@[before.len() + k]),
        decreases values.len() - at,
    {
        let result = f(values[at]);
        results.push(result);
        at += 1;
    }
}

} // verus!

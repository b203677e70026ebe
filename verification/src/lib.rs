//! The instruction layer of an SSA intermediate representation for a
//! zero-knowledge circuit compiler: the instructions a basic block can hold,
//! the terminators that end a block, the predicates optimization passes ask
//! of an instruction, and the local simplifications applied on insertion.
//!
//! The functions are verified against contracts stated over the views of
//! the data types ([`instruction::InstructionView`], [`dfg::GraphView`]).
//! What is taken on trust from the outside crates stands in [`vector`]
//! (persistent vectors), [`error`] (the hasher and the error selector) and
//! [`intrinsic`] (the black-box functions and their names).

pub mod array_chain;
pub mod binary;
pub mod call;
pub mod cast;
pub mod constrain;
pub mod dfg;
pub mod error;
pub mod field;
pub mod ids;
pub mod insert;
pub mod instruction;
pub mod intrinsic;
pub mod predicates;
pub mod simplify;
pub mod simplify_result;
pub mod terminator;
pub mod types;
pub mod value;
pub mod value_merger;
pub mod vector;

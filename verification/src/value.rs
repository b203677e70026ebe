//! What a value of the graph can be.

use crate::field::FieldElement;
use crate::ids::{BasicBlockId, FunctionId, InstructionId};
use crate::intrinsic::Intrinsic;
use crate::types::Type;
use vstd::prelude::*;

verus! {

/// The definition of an SSA value.
#[derive(Debug, PartialEq, Eq, Hash)]
pub enum Value {
    /// The result at `position` of an instruction.
    Instruction { instruction: InstructionId, position: usize, typ: Type },
    /// The parameter at `position` of a block.
    Param { block: BasicBlockId, position: usize, typ: Type },
    /// A number known at compile time.
    NumericConstant { constant: FieldElement, typ: Type },
    /// A user function.
    Function(FunctionId),
    /// A built-in operation.
    Intrinsic(Intrinsic),
    /// A function of the world outside the program, by its name.
    ForeignFunction(String),
}

impl Value {
    /// The type of the value; a function of any kind has the function type.
    pub open spec fn typ(self) -> Type {
        match self {
            Value::Instruction { typ, .. } => typ,
            Value::Param { typ, .. } => typ,
            Value::NumericConstant { typ, .. } => typ,
            _ => Type::Function,
        }
    }

    pub fn get_type(&self) -> (typ: Type)
        ensures
            typ == self.typ(),
    {
        match self {
            Value::Instruction { typ, .. } => typ.clone(),
            Value::Param { typ, .. } => typ.clone(),
            Value::NumericConstant { typ, .. } => typ.clone(),
            _ => Type::Function,
        }
    }
}

} // verus!

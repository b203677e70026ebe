//! Types of SSA values.

use crate::field::MAX_NUM_BITS;
use vstd::prelude::*;

verus! {

/// A numeric type: an integer of a given width, or an element of the
/// native field.
#[derive(Clone, Copy, PartialEq, Eq, Structural, Hash, Debug)]
pub enum NumericType {
    Signed { bit_size: u32 },
    Unsigned { bit_size: u32 },
    NativeField,
}

impl NumericType {
    /// The width in bits; [`MAX_NUM_BITS`] for the native field.
    pub open spec fn bits(self) -> u32 {
        match self {
            NumericType::Signed { bit_size } => bit_size,
            NumericType::Unsigned { bit_size } => bit_size,
            NumericType::NativeField => MAX_NUM_BITS,
        }
    }

    #[verifier::when_used_as_spec(bits)]
    pub fn bit_size(self) -> (bits: u32)
        ensures
            bits == self.bits(),
    {
        match self {
            NumericType::Signed { bit_size } => bit_size,
            NumericType::Unsigned { bit_size } => bit_size,
            NumericType::NativeField => MAX_NUM_BITS,
        }
    }

    pub fn is_unsigned(self) -> (unsigned: bool)
        ensures
            unsigned == (self is Unsigned),
    {
        match self {
            NumericType::Unsigned { .. } => true,
            _ => false,
        }
    }
}

/// The type of an SSA value.
#[derive(PartialEq, Eq, Hash, Debug)]
pub enum Type {
    /// An integer or a field element.
    Numeric(NumericType),
    /// A reference to a value of the given type.
    Reference(Box<Type>),
    /// An array of the given element type and length.
    Array(Box<Type>, usize),
    /// A slice of the given element type.
    Slice(Box<Type>),
    /// A function.
    Function,
}

impl Clone for Type {
    fn clone(&self) -> (copy: Type)
        ensures
            copy == *self,
        decreases *self,
    {
        match self {
            Type::Numeric(numeric) => Type::Numeric(*numeric),
            Type::Reference(element) => Type::Reference(Box::new((**element).clone())),
            Type::Array(element, length) => Type::Array(Box::new((**element).clone()), *length),
            Type::Slice(element) => Type::Slice(Box::new((**element).clone())),
            Type::Function => Type::Function,
        }
    }
}

impl Type {
    /// The width of a numeric type; `u32::MAX`, which bounds nothing, for
    /// any other type.
    pub open spec fn bits(&self) -> u32 {
        match self {
            Type::Numeric(numeric) => numeric.bits(),
            _ => u32::MAX,
        }
    }

    pub open spec fn unsigned_int(&self) -> bool {
        self matches Type::Numeric(numeric) && numeric is Unsigned
    }

    pub fn signed(bit_size: u32) -> (typ: Type)
        ensures
            typ == Type::Numeric(NumericType::Signed { bit_size }),
    {
        Type::Numeric(NumericType::Signed { bit_size })
    }

    pub fn unsigned(bit_size: u32) -> (typ: Type)
        ensures
            typ == Type::Numeric(NumericType::Unsigned { bit_size }),
    {
        Type::Numeric(NumericType::Unsigned { bit_size })
    }

    /// The one-bit unsigned type.
    pub fn bool() -> (typ: Type)
        ensures
            typ == Type::Numeric(NumericType::Unsigned { bit_size: 1 }),
    {
        Type::unsigned(1)
    }

    pub fn field() -> (typ: Type)
        ensures
            typ == Type::Numeric(NumericType::NativeField),
    {
        Type::Numeric(NumericType::NativeField)
    }

    /// The type of array lengths and indices.
    pub fn length_type() -> (typ: Type)
        ensures
            typ == Type::Numeric(NumericType::Unsigned { bit_size: 32 }),
    {
        Type::unsigned(32)
    }

    #[verifier::when_used_as_spec(bits)]
    pub fn bit_size(&self) -> (bits: u32)
        ensures
            bits == self.bits(),
    {
        match self {
            Type::Numeric(numeric) => numeric.bit_size(),
            _ => u32::MAX,
        }
    }

    pub fn is_unsigned(&self) -> (unsigned: bool)
        ensures
            unsigned == self.unsigned_int(),
    {
        match self {
            Type::Numeric(numeric) => numeric.is_unsigned(),
            _ => false,
        }
    }

    pub fn is_numeric(&self) -> (numeric: bool)
        ensures
            numeric == (*self is Numeric),
    {
        match self {
            Type::Numeric(_) => true,
            _ => false,
        }
    }

    /// Whether two types are the same.
    pub fn same(&self, other: &Type) -> (same: bool)
        ensures
            same == (*self == *other),
        decreases *self,
    {
        match (self, other) {
            (Type::Numeric(a), Type::Numeric(b)) => *a == *b,
            (Type::Reference(a), Type::Reference(b)) => (**a).same(&**b),
            (Type::Array(a, n), Type::Array(b, m)) => *n == *m && (**a).same(&**b),
            (Type::Slice(a), Type::Slice(b)) => (**a).same(&**b),
            (Type::Function, Type::Function) => true,
            _ => false,
        }
    }
}

} // verus!

use vstd::prelude::*;

verus! {

/// The element types a tensor can hold.
#[derive(Debug, Clone, Copy, PartialEq, Eq, Hash, Structural)]
pub enum TypeId {
    Float16,
    BFloat16,
    Float32,
    Float64,
    Int8,
    Int16,
    Int32,
    Int64,
    UInt8,
    UInt16,
    UInt32,
    UInt64,
    Bool,
}

/// The width in bytes of one element of type `t`.
pub open spec fn type_size(t: TypeId) -> nat {
    match t {
        TypeId::Float16 | TypeId::BFloat16 | TypeId::Int16 | TypeId::UInt16 => 2,
        TypeId::Float32 | TypeId::Int32 | TypeId::UInt32 => 4,
        TypeId::Float64 | TypeId::Int64 | TypeId::UInt64 => 8,
        TypeId::Int8 | TypeId::UInt8 | TypeId::Bool => 1,
    }
}

/// An element type with a tag and a fixed width.
pub trait DType: Copy + Sized {
    /// The tag of this element type.
    spec fn spec_type_id() -> TypeId;

    /// Returns the tag of this element type.
    fn type_id() -> (t: TypeId)
        ensures
            t == Self::spec_type_id(),
    ;

    /// Returns the width in bytes of one element.
    fn size() -> (n: usize)
        ensures
            n == type_size(Self::spec_type_id()),
    ;
}

impl DType for i32 {
    open spec fn spec_type_id() -> TypeId {
        TypeId::Int32
    }

    fn type_id() -> (t: TypeId) {
        TypeId::Int32
    }

    fn size() -> (n: usize) {
        4
    }
}

impl DType for i64 {
    open spec fn spec_type_id() -> TypeId {
        TypeId::Int64
    }

    fn type_id() -> (t: TypeId) {
        TypeId::Int64
    }

    fn size() -> (n: usize) {
        8
    }
}

impl DType for u8 {
    open spec fn spec_type_id() -> TypeId {
        TypeId::UInt8
    }

    fn type_id() -> (t: TypeId) {
        TypeId::UInt8
    }

    fn size() -> (n: usize) {
        1
    }
}

impl DType for bool {
    open spec fn spec_type_id() -> TypeId {
        TypeId::Bool
    }

    fn type_id() -> (t: TypeId) {
        TypeId::Bool
    }

    fn size() -> (n: usize) {
        1
    }
}

} // verus!

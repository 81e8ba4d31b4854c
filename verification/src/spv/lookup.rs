//! What the writer finds the identifiers of types by.

use crate::arena::Handle;
use crate::ir::{Bytes, ScalarKind, Type, VariableClass, VectorSize};
use crate::spv::table::Key;
use crate::spv::words::Word;
use vstd::prelude::*;

verus! {

/// A type that is known by its structure.
#[derive(Clone, Copy, Debug)]
pub enum LocalType {
    Void,
    Scalar { kind: ScalarKind, width: Bytes },
    Vector { size: VectorSize, kind: ScalarKind, width: Bytes },
    Matrix { columns: VectorSize, rows: VectorSize, width: Bytes },
    Pointer { base: Handle<Type>, class: VariableClass },
    SampledImage { image_type: Handle<Type> },
}

impl LocalType {
    /// Whether the two are the same type.
    pub fn equals(self, other: LocalType) -> (equal: bool)
        ensures
            equal == (self == other),
    {
        match (self, other) {
            (LocalType::Void, LocalType::Void) => true,
            (
                LocalType::Scalar { kind: kind_a, width: width_a },
                LocalType::Scalar { kind: kind_b, width: width_b },
            ) => kind_a == kind_b && width_a == width_b,
            (
                LocalType::Vector { size: size_a, kind: kind_a, width: width_a },
                LocalType::Vector { size: size_b, kind: kind_b, width: width_b },
            ) => size_a == size_b && kind_a == kind_b && width_a == width_b,
            (
                LocalType::Matrix { columns: columns_a, rows: rows_a, width: width_a },
                LocalType::Matrix { columns: columns_b, rows: rows_b, width: width_b },
            ) => columns_a == columns_b && rows_a == rows_b && width_a == width_b,
            (
                LocalType::Pointer { base: base_a, class: class_a },
                LocalType::Pointer { base: base_b, class: class_b },
            ) => base_a.same(base_b) && class_a == class_b,
            (
                LocalType::SampledImage { image_type: image_a },
                LocalType::SampledImage { image_type: image_b },
            ) => image_a.same(image_b),
            _ => false,
        }
    }
}

/// A type: one of the module's arena, or one known by its structure.
#[derive(Clone, Copy, Debug)]
pub enum LookupType {
    Handle(Handle<Type>),
    Local(LocalType),
}

impl From<LocalType> for LookupType {
    fn from(local: LocalType) -> (lookup: Self) {
        LookupType::Local(local)
    }
}

impl vstd::std_specs::convert::FromSpecImpl<LocalType> for LookupType {
    open spec fn obeys_from_spec() -> bool {
        true
    }

    open spec fn from_spec(local: LocalType) -> LookupType {
        LookupType::Local(local)
    }
}

impl Key for LookupType {
    type Id = LookupType;

    open spec fn id(&self) -> LookupType {
        *self
    }

    fn same(&self, other: &Self) -> (equal: bool) {
        match (*self, *other) {
            (LookupType::Handle(a), LookupType::Handle(b)) => a.same(b),
            (LookupType::Local(a), LookupType::Local(b)) => a.equals(b),
            _ => false,
        }
    }
}

/// A type of functions.
#[derive(Debug)]
pub struct LookupFunctionType {
    pub parameter_type_ids: Vec<Word>,
    pub return_type_id: Word,
}

impl Key for LookupFunctionType {
    type Id = (Seq<Word>, Word);

    open spec fn id(&self) -> (Seq<Word>, Word) {
        (self.parameter_type_ids@, self.return_type_id)
    }

    fn same(&self, other: &Self) -> (equal: bool) {
        if self.return_type_id != other.return_type_id || self.parameter_type_ids.len()
            != other.parameter_type_ids.len() {
            return false;
        }
        let mut i: usize = 0;
        while i < self.parameter_type_ids.len()
            invariant
                i <= self.parameter_type_ids@.len(),
                self.parameter_type_ids@.len() == other.parameter_type_ids@.len(),
                forall|k: int|
                    0 <= k < i ==> self.parameter_type_ids@[k] == other.parameter_type_ids@[k],
            decreases self.parameter_type_ids@.len() - i,
        {
            if self.parameter_type_ids[i] != other.parameter_type_ids[i] {
                return false;
            }
            i = i + 1;
        }
        assert(self.parameter_type_ids@ =~= other.parameter_type_ids@);
        true
    }
}

} // verus!

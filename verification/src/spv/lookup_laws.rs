//! What was declared once is found again.

use crate::arena::{Arena, Handle};
use crate::ir::{Constant, GlobalVariable, Module, Type, TypeInner, VariableClass};
use crate::spv::growth::{group_growth, lemma_generate};
use crate::spv::growth_declarations::{
    lemma_define_constant_grows, lemma_function_type_grows, lemma_pointer_grows,
};
use crate::spv::instructions::op_type_function;
use crate::spv::lookup::{LocalType, LookupType};
use crate::spv::model::{Outcome, WriterView};
use crate::spv::open_types::is_named;
use crate::spv::remembering::is_stable;
use crate::spv::types::{scalar, vector};
use crate::spv::words::Word;
use vstd::prelude::*;

verus! {

/// The identifier under which a type is known, if it is. Scalars and vectors of the arena are
/// known by their structure.
pub open spec fn known_type(w: WriterView, types: Arena<Type>, ty: LookupType) -> Option<Word> {
    if w.lookup_type.contains_key(ty) {
        Some(w.lookup_type[ty])
    } else {
        match structure(types, ty) {
            Some(local) => if w.lookup_type.contains_key(local) {
                Some(w.lookup_type[local])
            } else {
                None
            },
            None => None,
        }
    }
}

/// The structure by which a scalar or vector of the arena is known.
pub open spec fn structure(types: Arena<Type>, ty: LookupType) -> Option<LookupType> {
    match ty {
        LookupType::Handle(handle) => if types.contains(handle) {
            match types.at(handle).inner {
                TypeInner::Scalar { kind, width } => Some(scalar(kind, width)),
                TypeInner::Vector { size, kind, width } => Some(vector(size, kind, width)),
                _ => None,
            }
        } else {
            None
        },
        LookupType::Local(_) => None,
    }
}

proof fn lemma_known_type(w: WriterView, types: Arena<Type>, ty: LookupType, depth: nat)
    requires
        known_type(w, types, ty) is Some,
    ensures
        w.type_id_within(types, ty, depth) == Outcome::Done(w, known_type(w, types, ty)->0),
{
    if let Some(local) = structure(types, ty) {
        if !w.lookup_type.contains_key(ty) {
            assert(w.type_id_within(types, ty, depth) == w.type_id_within(types, local, depth));
        }
    }
}

proof fn lemma_local_type_known(
    w: WriterView,
    types: Arena<Type>,
    local: LocalType,
    depth: nat,
)
    ensures
        w.declare_local_type(types, local, depth) matches Outcome::Done(v, id)
            ==> v.lookup_type.contains_key(LookupType::Local(local))
            && v.lookup_type[LookupType::Local(local)] == id,
{
}

/// Scalars and vectors are declared by their structure alone.
proof fn lemma_structure_known(
    w: WriterView,
    types: Arena<Type>,
    local: LocalType,
    depth: nat,
    handle: Handle<Type>,
)
    requires
        local is Scalar || local is Vector,
    ensures
        w.type_id_within(types, LookupType::Local(local), depth) matches Outcome::Done(v, id) ==> {
            &&& v.lookup_type.contains_key(LookupType::Local(local))
            &&& v.lookup_type[LookupType::Local(local)] == id
            &&& v.lookup_type.contains_key(LookupType::Handle(handle))
                == w.lookup_type.contains_key(LookupType::Handle(handle))
        },
{
    reveal_with_fuel(WriterView::type_id_within, 2);
    reveal_with_fuel(WriterView::declare_local_type, 2);
    lemma_local_type_known(w, types, local, depth);
}

proof fn lemma_arena_type_known(w: WriterView, types: Arena<Type>, handle: Handle<Type>, depth: nat)
    ensures
        w.declare_arena_type(types, handle, depth) matches Outcome::Done(v, id)
            ==> v.lookup_type.contains_key(LookupType::Handle(handle))
            && v.lookup_type[LookupType::Handle(handle)] == id,
{
}

proof fn lemma_type_known(w: WriterView, types: Arena<Type>, ty: LookupType)
    ensures
        w.type_id(types, ty) matches Outcome::Done(v, id) ==> known_type(v, types, ty) == Some(id),
{
    reveal(WriterView::type_id);
    let depth = types.count();
    if !w.lookup_type.contains_key(ty) {
        match ty {
            LookupType::Handle(handle) => {
                if types.contains(handle) {
                    match types.at(handle).inner {
                        TypeInner::Scalar { kind, width } => {
                            let local = LocalType::Scalar { kind, width };
                            lemma_structure_known(w, types, local, depth, handle);
                        },
                        TypeInner::Vector { size, kind, width } => {
                            let local = LocalType::Vector { size, kind, width };
                            lemma_structure_known(w, types, local, depth, handle);
                        },
                        _ => {
                            if depth > 0 {
                                lemma_arena_type_known(w, types, handle, (depth - 1) as nat);
                            }
                        },
                    }
                }
            },
            LookupType::Local(local) => {
                lemma_local_type_known(w, types, local, depth);
            },
        }
    }
}

/// Whether a type is found in `later` as it was in `v`: a scalar or vector of the arena, which is
/// known by its structure, was not remembered by its handle in between.
pub open spec fn is_found_alike(
    v: WriterView,
    later: WriterView,
    types: Arena<Type>,
    ty: LookupType,
) -> bool {
    structure(types, ty) is Some ==> later.lookup_type.contains_key(ty)
        == v.lookup_type.contains_key(ty)
}

proof fn lemma_known_later(v: WriterView, later: WriterView, types: Arena<Type>, ty: LookupType)
    requires
        known_type(v, types, ty) is Some,
        v.is_remembered_by(later),
    ensures
        known_type(later, types, ty) is Some,
        !is_stable(ty) ==> known_type(later, types, ty) == Some(later.lookup_type[ty]),
        is_stable(ty) && is_found_alike(v, later, types, ty) ==> known_type(later, types, ty)
            == known_type(v, types, ty),
{
    reveal(WriterView::is_remembered_by);
    if let Some(local) = structure(types, ty) {
        assert(is_stable(local));
        assert(v.lookup_type.contains_key(local) ==> later.lookup_type.contains_key(local));
    }
    assert(v.lookup_type.contains_key(ty) ==> later.lookup_type.contains_key(ty));
}

/// A type is declared once: who asks again, at once or at any later time, gets an identifier,
/// and nothing more is written. It is the same identifier, but for a matrix or a type of pointers
/// that is known by its structure: one of the arena with that structure takes its place.
pub proof fn law_type_is_declared_once(
    w: WriterView,
    types: Arena<Type>,
    ty: LookupType,
    later: WriterView,
)
    ensures
        w.type_id(types, ty) matches Outcome::Done(v, id) ==> {
            &&& v.type_id(types, ty) == Outcome::Done(v, id)
            &&& v.is_remembered_by(later) && is_stable(ty) && is_found_alike(v, later, types, ty)
                ==> later.type_id(types, ty) == Outcome::Done(later, id)
            &&& v.is_remembered_by(later) && !is_stable(ty) ==> later.type_id(types, ty)
                == Outcome::Done(later, later.lookup_type[ty])
        },
{
    lemma_type_known(w, types, ty);
    reveal(WriterView::type_id);
    if let Outcome::Done(v, id) = w.type_id(types, ty) {
        lemma_known_type(v, types, ty, types.count());
        if v.is_remembered_by(later) {
            lemma_known_later(v, later, types, ty);
            lemma_known_type(later, types, ty, types.count());
        }
    }
}

/// A type of the arena that is not a scalar or vector is declared once: who asks again, at any
/// later time, gets the same identifier, and nothing more is written.
pub proof fn law_arena_type_is_declared_once(
    w: WriterView,
    types: Arena<Type>,
    handle: Handle<Type>,
    later: WriterView,
)
    requires
        is_named(types, handle),
    ensures
        w.type_id(types, LookupType::Handle(handle)) matches Outcome::Done(v, id) ==> (
        v.is_remembered_by(later) ==> later.type_id(types, LookupType::Handle(handle))
            == Outcome::Done(later, id)),
{
    law_type_is_declared_once(w, types, LookupType::Handle(handle), later);
}

/// The type of pointers to values of a type, as it is known by its structure.
pub open spec fn pointer(base: Handle<Type>, class: VariableClass) -> LookupType {
    LookupType::Local(LocalType::Pointer { base, class })
}

/// What is remembered of a type of pointers when it is asked for.
proof fn lemma_pointer_known(
    w: WriterView,
    types: Arena<Type>,
    handle: Handle<Type>,
    class: VariableClass,
)
    requires
        types.contains(handle),
        !(types.at(handle).inner is Pointer),
    ensures
        w.pointer_id(types, handle, class) matches Outcome::Done(v, id) ==> {
            &&& v.lookup_type.contains_key(pointer(handle, class))
            &&& v.lookup_type[pointer(handle, class)] == id
            &&& known_type(v, types, LookupType::Handle(handle)) is Some
        },
{
    reveal(WriterView::pointer_id);
    lemma_type_known(w, types, LookupType::Handle(handle));
}

/// What is found of a type of pointers that is remembered.
proof fn lemma_pointer_found(
    w: WriterView,
    types: Arena<Type>,
    handle: Handle<Type>,
    class: VariableClass,
)
    requires
        types.contains(handle),
        !(types.at(handle).inner is Pointer),
        w.lookup_type.contains_key(pointer(handle, class)),
        known_type(w, types, LookupType::Handle(handle)) is Some,
    ensures
        w.pointer_id(types, handle, class) == Outcome::Done(
            w,
            w.lookup_type[pointer(handle, class)],
        ),
{
    reveal(WriterView::pointer_id);
    reveal(WriterView::type_id);
    lemma_known_type(w, types, LookupType::Handle(handle), types.count());
}

/// A type of pointers stands for itself, whatever the storage class: no pointers to its values
/// are declared, and who asks again, at any later time, gets the same identifier.
pub proof fn law_pointer_stands_for_itself(
    w: WriterView,
    types: Arena<Type>,
    handle: Handle<Type>,
    class: VariableClass,
    later: WriterView,
    other: VariableClass,
)
    requires
        types.contains(handle),
        types.at(handle).inner is Pointer,
    ensures
        w.pointer_id(types, handle, class) == w.type_id(types, LookupType::Handle(handle)),
        w.pointer_id(types, handle, class) matches Outcome::Done(v, id) ==> (v.is_remembered_by(
            later,
        ) ==> later.pointer_id(types, handle, other) == Outcome::Done(later, id)),
{
    reveal(WriterView::pointer_id);
    law_arena_type_is_declared_once(w, types, handle, later);
}

/// A type of pointers to values of another type is declared once: it is remembered by the type
/// and the storage class, and who asks again, at once or at any later time, gets what is
/// remembered, and nothing more is written.
pub proof fn law_pointer_is_declared_once(
    w: WriterView,
    types: Arena<Type>,
    handle: Handle<Type>,
    class: VariableClass,
    later: WriterView,
)
    requires
        types.contains(handle),
        !(types.at(handle).inner is Pointer),
    ensures
        w.pointer_id(types, handle, class) matches Outcome::Done(v, id) ==> {
            &&& v.lookup_type.contains_key(pointer(handle, class))
            &&& v.lookup_type[pointer(handle, class)] == id
            &&& v.pointer_id(types, handle, class) == Outcome::Done(v, id)
            &&& v.is_remembered_by(later) ==> later.pointer_id(types, handle, class)
                == Outcome::Done(later, later.lookup_type[pointer(handle, class)])
        },
{
    lemma_pointer_known(w, types, handle, class);
    if let Outcome::Done(v, id) = w.pointer_id(types, handle, class) {
        lemma_pointer_found(v, types, handle, class);
        if v.is_remembered_by(later) {
            lemma_known_later(v, later, types, LookupType::Handle(handle));
            reveal(WriterView::is_remembered_by);
            assert(later.lookup_type.contains_key(pointer(handle, class)));
            lemma_pointer_found(later, types, handle, class);
        }
    }
}

/// Pointers to values of different types, or in different storage classes, have different
/// identifiers, whenever they are asked for.
pub proof fn law_pointers_are_distinct(
    w: WriterView,
    types: Arena<Type>,
    handle: Handle<Type>,
    class: VariableClass,
    later: WriterView,
    other_handle: Handle<Type>,
    other_class: VariableClass,
)
    requires
        w.has_own_ids(),
        types.contains(handle),
        !(types.at(handle).inner is Pointer),
        types.contains(other_handle),
        !(types.at(other_handle).inner is Pointer),
        handle != other_handle || class != other_class,
    ensures
        w.pointer_id(types, handle, class) matches Outcome::Done(v, id) ==> (v.is_remembered_by(
            later,
        ) ==> (later.pointer_id(types, other_handle, other_class) matches Outcome::Done(_, other)
            ==> other != id)),
{
    let a = pointer(handle, class);
    let b = pointer(other_handle, other_class);
    lemma_pointer_known(w, types, handle, class);
    lemma_pointer_grows(w, types, handle, class);
    lemma_pointer_known(later, types, other_handle, other_class);
    lemma_pointer_grows(later, types, other_handle, other_class);
    reveal(WriterView::is_kept_by);
    reveal(WriterView::is_remembered_by);
    reveal(WriterView::has_own_ids);
    if let Outcome::Done(v, id) = w.pointer_id(types, handle, class) {
        assert(v.lookup_type.contains_key(a) && id <= v.id_count);
        if let Outcome::Done(x, other) = later.pointer_id(types, other_handle, other_class) {
            assert(x.lookup_type.contains_key(b));
            if v.is_remembered_by(later) && other <= v.id_count {
                assert(later.lookup_type.contains_key(b) && later.lookup_type[b] == other);
                assert(v.lookup_type.contains_key(b) && v.lookup_type[b] == other);
            }
        }
    }
}

/// What a function returns is declared once: who asks again, at once or at any later time, gets
/// the same identifier, and nothing more is written.
pub proof fn law_return_type_is_declared_once(
    w: WriterView,
    types: Arena<Type>,
    ty: Option<Handle<Type>>,
    later: WriterView,
)
    ensures
        w.return_type_id(types, ty) matches Outcome::Done(v, id) ==> {
            &&& v.return_type_id(types, ty) == Outcome::Done(v, id)
            &&& v.is_remembered_by(later) && (ty matches Some(handle) ==> is_found_alike(
                v,
                later,
                types,
                LookupType::Handle(handle),
            )) ==> later.return_type_id(types, ty) == Outcome::Done(later, id)
        },
{
    reveal(WriterView::return_type_id);
    reveal(WriterView::is_remembered_by);
    if let Some(handle) = ty {
        law_type_is_declared_once(w, types, LookupType::Handle(handle), later);
    }
}

/// A type of functions is declared once, under a new identifier: two calls, whenever they are
/// made, yield the same identifier if the signatures are the same, and only then. The first call
/// for a signature appends its declaration, and later ones write nothing.
pub proof fn law_function_type_is_declared_once(
    w: WriterView,
    parameter_type_ids: Seq<Word>,
    return_type_id: Word,
    later: WriterView,
    other_parameter_type_ids: Seq<Word>,
    other_return_type_id: Word,
)
    ensures
        w.function_type_id(parameter_type_ids, return_type_id) matches Outcome::Done(v, id) ==> {
            &&& !w.lookup_function_type.contains_key((parameter_type_ids, return_type_id)) ==> {
                &&& id == w.id_count + 1
                &&& v.logical_layout.declarations == w.logical_layout.declarations.push(
                    op_type_function(id, return_type_id, parameter_type_ids),
                )
            }
            &&& v.is_remembered_by(later) ==> later.function_type_id(
                parameter_type_ids,
                return_type_id,
            ) == Outcome::Done(later, id)
            &&& w.has_own_ids() && v.is_remembered_by(later) ==> (later.function_type_id(
                other_parameter_type_ids,
                other_return_type_id,
            ) matches Outcome::Done(_, other) ==> (other == id <==> (parameter_type_ids
                == other_parameter_type_ids && return_type_id == other_return_type_id)))
        },
{
    let a = (parameter_type_ids, return_type_id);
    let b = (other_parameter_type_ids, other_return_type_id);
    lemma_function_type_grows(w, parameter_type_ids, return_type_id);
    reveal(WriterView::is_kept_by);
    reveal(WriterView::is_remembered_by);
    reveal(WriterView::has_own_ids);
    if let Outcome::Done(v, id) = w.function_type_id(parameter_type_ids, return_type_id) {
        assert(v.lookup_function_type.dom().contains(a));
        if v.is_remembered_by(later) {
            assert(later.lookup_function_type.dom().contains(a));
            assert(later.lookup_function_type.contains_key(a));
            assert(later.lookup_function_type[a] == id);
            if w.has_own_ids() && later.lookup_function_type.contains_key(b) && a != b {
                assert(later.lookup_function_type[a] != later.lookup_function_type[b]);
            }
        }
    }
}

/// A constant is declared once: who asks again, at any later time, gets the same identifier, and
/// nothing more is written.
pub proof fn law_constant_is_declared_once(
    w: WriterView,
    module: Module,
    handle: Handle<Constant>,
    later: WriterView,
)
    ensures
        w.constant_id(module, handle) matches Outcome::Done(v, id) ==> (v.is_remembered_by(later)
            ==> later.constant_id(module, handle) == Outcome::Done(later, id)),
{
    broadcast use group_growth;
    reveal(WriterView::constant_id);
    let depth = module.constants.count();
    if !w.lookup_constant.contains_key(handle) && depth > 0 && module.constants.contains(handle) {
        lemma_generate(w);
        if let Outcome::Done(x, id) = w.generate_id() {
            let y = x.remember_constant(handle, id);
            let inner = module.constants.at(handle).inner;
            lemma_define_constant_grows(y, module, id, inner, (depth - 1) as nat);
            if let Outcome::Done(v, _) = y.define_constant(
                module,
                id,
                inner,
                (depth - 1) as nat,
            ) {
                reveal(WriterView::is_kept_by);
                reveal(WriterView::is_remembered_by);
                assert(y.lookup_constant.dom().contains(handle));
                assert(v.lookup_constant.dom().contains(handle));
                assert(v.is_remembered_by(later) ==> later.lookup_constant.dom().contains(handle));
            }
        }
    } else {
        reveal(WriterView::is_remembered_by);
        assert(w.is_remembered_by(later) && w.lookup_constant.dom().contains(handle)
            ==> later.lookup_constant.dom().contains(handle));
    }
}

/// A global variable is declared once: who asks again, at any later time, gets the same
/// identifier and storage class, and nothing more is written.
pub proof fn law_global_variable_is_declared_once(
    w: WriterView,
    module: Module,
    handle: Handle<GlobalVariable>,
    later: WriterView,
)
    ensures
        w.global_variable_id(module, handle) matches Outcome::Done(v, found) ==> (
        v.is_remembered_by(later) ==> later.global_variable_id(module, handle) == Outcome::Done(later, found)),
{
    reveal(WriterView::global_variable_id);
    reveal(WriterView::new_global_variable);
    reveal(WriterView::is_remembered_by);
    if let Outcome::Done(v, _) = w.global_variable_id(module, handle) {
        assert(v.lookup_global_variable.dom().contains(handle));
        assert(v.is_remembered_by(later) ==> later.lookup_global_variable.dom().contains(handle));
    }
}

} // verus!

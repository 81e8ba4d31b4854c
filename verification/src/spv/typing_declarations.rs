//! The declaration of types, constants and global variables keeps types before values.

use crate::arena::{Arena, Handle};
use crate::ir::{
    ArraySize, Constant, ConstantInner, GlobalVariable, Module, ScalarKind, StructMember, Type,
    TypeInner, VariableClass,
};
use crate::spv::instructions::{op_decorate, op_type_pointer, op_type_void};
use crate::spv::lookup::{LocalType, LookupType};
use crate::spv::model::{Outcome, WriterView};
use crate::spv::types::{image_kind, rank, scalar, vector};
use crate::spv::typing::{
    are_declared, group_typing, has_type, lemma_looked_up, lemma_remember_type,
};
use crate::spv::words::Word;
use spirv_headers as spirv;
use vstd::prelude::*;

verus! {

proof fn lemma_type_typed(w: WriterView, types: Arena<Type>, ty: LookupType, depth: nat)
    requires
        w.is_typed(),
    ensures
        w.is_typed_by_declaring(w.type_id_within(types, ty, depth)),
    decreases depth, 2 * rank(ty) + 1, 0nat,
{
    broadcast use group_typing;
    if w.lookup_type.contains_key(ty) {
        lemma_looked_up(w, ty);
    } else {
        match ty {
            LookupType::Handle(handle) => {
                if types.contains(handle) {
                    match types.at(handle).inner {
                        TypeInner::Scalar { kind, width } => {
                            lemma_type_typed(w, types, scalar(kind, width), depth);
                        },
                        TypeInner::Vector { size, kind, width } => {
                            lemma_type_typed(w, types, vector(size, kind, width), depth);
                        },
                        _ => {
                            if depth > 0 {
                                lemma_arena_type_typed(w, types, handle, (depth - 1) as nat);
                            }
                        },
                    }
                }
            },
            LookupType::Local(local) => {
                lemma_local_type_typed(w, types, local, depth);
            },
        }
    }
}

proof fn lemma_local_type_typed(w: WriterView, types: Arena<Type>, local: LocalType, depth: nat)
    requires
        w.is_typed(),
    ensures
        w.is_typed_by_declaring(w.declare_local_type(types, local, depth)),
    decreases depth, 2 * rank(LookupType::Local(local)), 0nat,
{
    broadcast use group_typing;
    if let Outcome::Done(v, id) = w.generate_id() {
        match local {
            LocalType::Vector { kind, width, .. } => {
                lemma_type_typed(v, types, scalar(kind, width), depth);
            },
            LocalType::Matrix { rows, width, .. } => {
                lemma_type_typed(v, types, vector(rows, ScalarKind::Float, width), depth);
            },
            LocalType::SampledImage { image_type } => {
                lemma_type_typed(v, types, LookupType::Handle(image_type), depth);
            },
            _ => {},
        }
    }
}

proof fn lemma_arena_type_typed(
    w: WriterView,
    types: Arena<Type>,
    handle: Handle<Type>,
    depth: nat,
)
    requires
        w.is_typed(),
    ensures
        w.is_typed_by_declaring(w.declare_arena_type(types, handle, depth)),
    decreases depth, 20nat, 0nat,
{
    match types.at(handle).inner {
        TypeInner::Image { .. } => {
            lemma_image_type_typed(w, types, handle, depth);
        },
        TypeInner::Array { .. } => {
            lemma_array_type_typed(w, types, handle, depth);
        },
        TypeInner::Struct { .. } => {
            lemma_struct_type_typed(w, types, handle, depth);
        },
        _ => {
            lemma_plain_type_typed(w, types, handle, depth);
        },
    }
}

proof fn lemma_plain_type_typed(
    w: WriterView,
    types: Arena<Type>,
    handle: Handle<Type>,
    depth: nat,
)
    requires
        w.is_typed(),
        !(types.at(handle).inner is Image),
        !(types.at(handle).inner is Array),
        !(types.at(handle).inner is Struct),
    ensures
        w.is_typed_by_declaring(w.declare_arena_type(types, handle, depth)),
    decreases depth, 19nat, 0nat,
{
    broadcast use group_typing;
    if let Outcome::Done(v0, id) = w.generate_id() {
        let v = v0.name(id, types.at(handle).name);
        match types.at(handle).inner {
            TypeInner::Vector { kind, width, .. } => {
                lemma_type_typed(v, types, scalar(kind, width), depth);
            },
            TypeInner::Matrix { columns, width, .. } => {
                let x = v.annotate(op_decorate(id, spirv::Decoration::ColMajor, Seq::empty()));
                lemma_type_typed(x, types, vector(columns, ScalarKind::Float, width), depth);
            },
            TypeInner::Pointer { base, .. } => {
                lemma_type_typed(v, types, LookupType::Handle(base), depth);
            },
            _ => {},
        }
    }
}

proof fn lemma_image_type_typed(
    w: WriterView,
    types: Arena<Type>,
    handle: Handle<Type>,
    depth: nat,
)
    requires
        w.is_typed(),
        types.at(handle).inner is Image,
    ensures
        w.is_typed_by_declaring(w.declare_arena_type(types, handle, depth)),
    decreases depth, 19nat, 0nat,
{
    broadcast use group_typing;
    if let Outcome::Done(v0, id) = w.generate_id() {
        let v = v0.name(id, types.at(handle).name);
        if let TypeInner::Image { class, .. } = types.at(handle).inner {
            lemma_type_typed(v, types, scalar(image_kind(class), 4), depth);
        }
    }
}

proof fn lemma_array_type_typed(
    w: WriterView,
    types: Arena<Type>,
    handle: Handle<Type>,
    depth: nat,
)
    requires
        w.is_typed(),
        types.at(handle).inner is Array,
    ensures
        w.is_typed_by_declaring(w.declare_arena_type(types, handle, depth)),
    decreases depth, 19nat, 0nat,
{
    broadcast use group_typing;
    if let Outcome::Done(v0, id) = w.generate_id() {
        let v = v0.name(id, types.at(handle).name);
        if let TypeInner::Array { base, stride, .. } = types.at(handle).inner {
            lemma_type_typed(
                v.decorate_stride(id, stride),
                types,
                LookupType::Handle(base),
                depth,
            );
        }
    }
}

proof fn lemma_struct_type_typed(
    w: WriterView,
    types: Arena<Type>,
    handle: Handle<Type>,
    depth: nat,
)
    requires
        w.is_typed(),
        types.at(handle).inner is Struct,
    ensures
        w.is_typed_by_declaring(w.declare_arena_type(types, handle, depth)),
    decreases depth, 19nat, 0nat,
{
    broadcast use group_typing;
    if let Outcome::Done(v0, id) = w.generate_id() {
        let v = v0.name(id, types.at(handle).name);
        if let TypeInner::Struct { block, members } = types.at(handle).inner {
            if block {
                lemma_block_members_typed(
                    v.annotate(op_decorate(id, v.block_decoration(handle), Seq::empty())),
                    types,
                    id,
                    members@,
                    0,
                    0,
                    Seq::empty(),
                    depth,
                );
            } else {
                lemma_plain_members_typed(v, types, members@, 0, Seq::empty(), depth);
            }
        }
    }
}

proof fn lemma_plain_members_typed(
    w: WriterView,
    types: Arena<Type>,
    members: Seq<StructMember>,
    i: nat,
    ids: Seq<Word>,
    depth: nat,
)
    requires
        w.is_typed(),
    ensures
        w.is_typed_by(w.plain_members(types, members, i, ids, depth)),
    decreases depth, 15nat, members.len() - i,
{
    broadcast use group_typing;
    if i < members.len() {
        let ty = LookupType::Handle(members[i as int].ty);
        lemma_type_typed(w, types, ty, depth);
        if let Outcome::Done(v, id) = w.type_id_within(types, ty, depth) {
            lemma_plain_members_typed(v, types, members, i + 1, ids.push(id), depth);
        }
    }
}

proof fn lemma_block_members_typed(
    w: WriterView,
    types: Arena<Type>,
    id: Word,
    members: Seq<StructMember>,
    i: nat,
    offset: u32,
    ids: Seq<Word>,
    depth: nat,
)
    requires
        w.is_typed(),
    ensures
        w.is_typed_by(w.block_members(types, id, members, i, offset, ids, depth)),
    decreases depth, 15nat, members.len() - i,
{
    broadcast use group_typing;
    if i < members.len() {
        let member = members[i as int];
        let ty = LookupType::Handle(member.ty);
        if let Outcome::Done(v, end) = w.place_member(types, id, member, i, offset) {
            lemma_type_typed(v, types, ty, depth);
            if let Outcome::Done(x, member_id) = v.type_id_within(types, ty, depth) {
                lemma_block_members_typed(
                    x,
                    types,
                    id,
                    members,
                    i + 1,
                    end,
                    ids.push(member_id),
                    depth,
                );
            }
        }
    }
}

pub proof fn lemma_type_id_typed(w: WriterView, types: Arena<Type>, ty: LookupType)
    requires
        w.is_typed(),
    ensures
        w.is_typed_by_declaring(w.type_id(types, ty)),
{
    reveal(WriterView::type_id);
    lemma_type_typed(w, types, ty, types.count());
}

pub proof fn lemma_pointer_typed(
    w: WriterView,
    types: Arena<Type>,
    handle: Handle<Type>,
    class: VariableClass,
)
    requires
        w.is_typed(),
    ensures
        w.is_typed_by_declaring(w.pointer_id(types, handle, class)),
{
    broadcast use group_typing;
    reveal(WriterView::pointer_id);
    lemma_type_id_typed(w, types, LookupType::Handle(handle));
    let ty = LookupType::Local(LocalType::Pointer { base: handle, class });
    if let Outcome::Done(v, type_id) = w.type_id(types, LookupType::Handle(handle)) {
        if v.lookup_type.contains_key(ty) {
            lemma_looked_up(v, ty);
        } else if let Outcome::Done(x, id) = v.generate_id() {
            let y = x.declare(op_type_pointer(id, x.storage_class(class), type_id));
            lemma_remember_type(y, ty, id);
        }
    }
}

pub proof fn lemma_new_pointer_type_typed(
    w: WriterView,
    types: Arena<Type>,
    ty: LookupType,
    class: spirv::StorageClass,
)
    requires
        w.is_typed(),
    ensures
        w.is_typed_by(w.new_pointer_type(types, ty, class)),
        w.new_pointer_type(types, ty, class) matches Outcome::Done(v, pointer) ==> v.declares(
            pointer.0,
        ),
{
    broadcast use group_typing;
    reveal(WriterView::new_pointer_type);
    lemma_type_id_typed(w, types, ty);
}

pub proof fn lemma_return_type_typed(w: WriterView, types: Arena<Type>, ty: Option<Handle<Type>>)
    requires
        w.is_typed(),
    ensures
        w.is_typed_by_declaring(w.return_type_id(types, ty)),
{
    broadcast use group_typing;
    reveal(WriterView::return_type_id);
    match ty {
        Some(handle) => {
            lemma_type_id_typed(w, types, LookupType::Handle(handle));
        },
        None => {
            reveal(are_declared);
            if let Outcome::Done(v, id) = w.generate_id() {
                let x = v.declare(op_type_void(id));
                assert(WriterView { void_type: Some(id), ..x } == (WriterView {
                    void_type: Some(id),
                    ..v
                }).declare(op_type_void(id)));
            }
        },
    }
}

pub proof fn lemma_function_type_typed(w: WriterView, parameter_type_ids: Seq<Word>, return_type_id: Word)
    requires
        w.is_typed(),
    ensures
        w.is_typed_by(w.function_type_id(parameter_type_ids, return_type_id)),
{
    broadcast use group_typing;
}

pub proof fn lemma_new_constant_typed(w: WriterView, type_id: Word, value: Seq<Word>)
    requires
        w.is_typed(),
        w.declares(type_id),
    ensures
        w.is_typed_by(w.new_constant(type_id, value)),
{
    broadcast use group_typing;
}

proof fn lemma_constant_typed(w: WriterView, module: Module, handle: Handle<Constant>, depth: nat)
    requires
        w.is_typed(),
    ensures
        w.is_typed_by(w.constant_id_within(module, handle, depth)),
    decreases depth, 1nat, 0nat,
{
    broadcast use group_typing;
    if !w.lookup_constant.contains_key(handle) && depth > 0 && module.constants.contains(handle) {
        if let Outcome::Done(v, id) = w.generate_id() {
            lemma_define_constant_typed(
                v.remember_constant(handle, id),
                module,
                id,
                module.constants.at(handle).inner,
                (depth - 1) as nat,
            );
        }
    }
}

pub proof fn lemma_define_constant_typed(
    w: WriterView,
    module: Module,
    id: Word,
    inner: ConstantInner,
    depth: nat,
)
    requires
        w.is_typed(),
    ensures
        w.is_typed_by(w.define_constant(module, id, inner, depth)),
    decreases depth, 3nat, 0nat,
{
    broadcast use group_typing;
    match inner {
        ConstantInner::Scalar { width, value } => {
            lemma_type_id_typed(w, module.types, scalar(value.kind(), width));
        },
        ConstantInner::Composite { ty, components } => {
            lemma_constants_typed(w, module, components@, 0, Seq::empty(), depth);
            if let Outcome::Done(v, _) = w.constant_ids(
                module,
                components@,
                0,
                Seq::empty(),
                depth,
            ) {
                lemma_array_length_typed(v, module, ty, depth);
                if let Outcome::Done(x, _) = v.array_length_id(module, ty, depth) {
                    lemma_type_id_typed(x, module.types, LookupType::Handle(ty));
                }
            }
        },
    }
}

proof fn lemma_array_length_typed(w: WriterView, module: Module, ty: Handle<Type>, depth: nat)
    requires
        w.is_typed(),
    ensures
        w.is_typed_by(w.array_length_id(module, ty, depth)),
    decreases depth, 2nat, 0nat,
{
    broadcast use group_typing;
    if module.types.contains(ty) {
        if let TypeInner::Array { size: ArraySize::Constant(length), .. } =
            module.types.at(ty).inner {
            lemma_constant_typed(w, module, length, depth);
        }
    }
}

proof fn lemma_constants_typed(
    w: WriterView,
    module: Module,
    handles: Seq<Handle<Constant>>,
    i: nat,
    ids: Seq<Word>,
    depth: nat,
)
    requires
        w.is_typed(),
    ensures
        w.is_typed_by(w.constant_ids(module, handles, i, ids, depth)),
    decreases depth, 2nat, handles.len() - i,
{
    broadcast use group_typing;
    if i < handles.len() {
        lemma_constant_typed(w, module, handles[i as int], depth);
        if let Outcome::Done(v, id) = w.constant_id_within(module, handles[i as int], depth) {
            lemma_constants_typed(v, module, handles, i + 1, ids.push(id), depth);
        }
    }
}

pub proof fn lemma_initializer_typed(w: WriterView, module: Module, init: Option<Handle<Constant>>)
    requires
        w.is_typed(),
    ensures
        w.is_typed_by(w.initializer_id(module, init)),
{
    broadcast use group_typing;
    reveal(WriterView::constant_id);
    if let Some(handle) = init {
        lemma_constant_typed(w, module, handle, module.constants.count());
    }
}

proof fn lemma_new_global_variable_typed(
    w: WriterView,
    module: Module,
    handle: Handle<GlobalVariable>,
)
    requires
        w.is_typed(),
    ensures
        w.is_typed_by(w.new_global_variable(module, handle)),
        w.new_global_variable(module, handle) matches Outcome::Done(v, variable) ==> has_type(
            v.logical_layout.declarations,
            variable.0,
        ),
{
    broadcast use group_typing;
    reveal(WriterView::new_global_variable);
    if module.global_variables.contains(handle) {
        let variable = module.global_variables.at(handle);
        if let Outcome::Done(v, id) = w.generate_id() {
            lemma_initializer_typed(v, module, variable.init);
            if let Outcome::Done(x, init) = v.initializer_id(module, variable.init) {
                lemma_pointer_typed(x, module.types, variable.ty, variable.class);
            }
        }
    }
}

pub proof fn lemma_global_variable_typed(
    w: WriterView,
    module: Module,
    handle: Handle<GlobalVariable>,
)
    requires
        w.is_typed(),
    ensures
        w.is_typed_by(w.global_variable_id(module, handle)),
{
    broadcast use group_typing;
    reveal(WriterView::global_variable_id);
    if !w.lookup_global_variable.contains_key(handle) {
        lemma_new_global_variable_typed(w, module, handle);
    }
}

pub proof fn lemma_constant_id_typed(w: WriterView, module: Module, handle: Handle<Constant>)
    requires
        w.is_typed(),
    ensures
        w.is_typed_by(w.constant_id(module, handle)),
{
    reveal(WriterView::constant_id);
    lemma_constant_typed(w, module, handle, module.constants.count());
}

} // verus!

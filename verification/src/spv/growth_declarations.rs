//! The declaration of types, constants and global variables keeps what was written.

use crate::arena::{Arena, Handle};
use crate::ir::{
    ArraySize, Constant, ConstantInner, GlobalVariable, Module, ScalarKind, StructMember, Type,
    TypeInner, VariableClass,
};
use crate::spv::growth::{group_growth, lemma_generate};
use crate::spv::instructions::op_decorate;
use crate::spv::lookup::{LocalType, LookupType};
use crate::spv::model::{Outcome, WriterView};
use crate::spv::open_types::{
    is_named, lemma_local_part_leaves_open, lemma_members_leave_open, lemma_part_leaves_open,
};
use crate::spv::types::{image_kind, rank, scalar, vector};
use crate::spv::words::Word;
use spirv_headers as spirv;
use vstd::prelude::*;

verus! {

pub proof fn lemma_type_grows(w: WriterView, types: Arena<Type>, ty: LookupType, depth: nat)
    ensures
        w.grows_by(w.type_id_within(types, ty, depth)),
        w.finds_no_variable(w.type_id_within(types, ty, depth)),
    decreases depth, 2 * rank(ty) + 1, 0nat,
{
    broadcast use group_growth;
    if !w.lookup_type.contains_key(ty) {
        match ty {
            LookupType::Handle(handle) => {
                if types.contains(handle) {
                    match types.at(handle).inner {
                        TypeInner::Scalar { kind, width } => {
                            lemma_type_grows(w, types, scalar(kind, width), depth);
                        },
                        TypeInner::Vector { size, kind, width } => {
                            lemma_type_grows(w, types, vector(size, kind, width), depth);
                        },
                        _ => {
                            if depth > 0 {
                                lemma_arena_type_grows(w, types, handle, (depth - 1) as nat);
                            }
                        },
                    }
                }
            },
            LookupType::Local(local) => {
                lemma_local_type_grows(w, types, local, depth);
            },
        }
    }
}

pub proof fn lemma_local_type_grows(w: WriterView, types: Arena<Type>, local: LocalType, depth: nat)
    requires
        !w.lookup_type.contains_key(LookupType::Local(local)),
    ensures
        w.grows_by(w.declare_local_type(types, local, depth)),
        w.finds_no_variable(w.declare_local_type(types, local, depth)),
    decreases depth, 2 * rank(LookupType::Local(local)), 0nat,
{
    broadcast use group_growth;
    lemma_generate(w);
    if let Outcome::Done(v, id) = w.generate_id() {
        assert(v.is_kept_by(v));
        lemma_local_part_leaves_open(v, types, local, depth);
        match local {
            LocalType::Vector { kind, width, .. } => {
                lemma_type_grows(v, types, scalar(kind, width), depth);
            },
            LocalType::Matrix { rows, width, .. } => {
                lemma_type_grows(v, types, vector(rows, ScalarKind::Float, width), depth);
            },
            LocalType::SampledImage { image_type } => {
                lemma_type_grows(v, types, LookupType::Handle(image_type), depth);
            },
            _ => {},
        }
    }
}

pub proof fn lemma_arena_type_grows(
    w: WriterView,
    types: Arena<Type>,
    handle: Handle<Type>,
    depth: nat,
)
    requires
        is_named(types, handle),
        !w.lookup_type.contains_key(LookupType::Handle(handle)),
    ensures
        w.grows_by(w.declare_arena_type(types, handle, depth)),
        w.finds_no_variable(w.declare_arena_type(types, handle, depth)),
    decreases depth, 20nat, 0nat,
{
    match types.at(handle).inner {
        TypeInner::Image { .. } => {
            lemma_image_type_grows(w, types, handle, depth);
        },
        TypeInner::Array { .. } => {
            lemma_array_type_grows(w, types, handle, depth);
        },
        TypeInner::Struct { .. } => {
            lemma_struct_type_grows(w, types, handle, depth);
        },
        _ => {
            lemma_plain_type_grows(w, types, handle, depth);
        },
    }
}

pub proof fn lemma_plain_type_grows(
    w: WriterView,
    types: Arena<Type>,
    handle: Handle<Type>,
    depth: nat,
)
    requires
        is_named(types, handle),
        !w.lookup_type.contains_key(LookupType::Handle(handle)),
        !(types.at(handle).inner is Image),
        !(types.at(handle).inner is Array),
        !(types.at(handle).inner is Struct),
    ensures
        w.grows_by(w.declare_arena_type(types, handle, depth)),
        w.finds_no_variable(w.declare_arena_type(types, handle, depth)),
    decreases depth, 19nat, 0nat,
{
    broadcast use group_growth;
    lemma_generate(w);
    if let Outcome::Done(v0, id) = w.generate_id() {
        let v = v0.name(id, types.at(handle).name);
        match types.at(handle).inner {
            TypeInner::Matrix { columns, width, .. } => {
                let x = v.annotate(op_decorate(id, spirv::Decoration::ColMajor, Seq::empty()));
                let part = vector(columns, ScalarKind::Float, width);
                lemma_type_grows(x, types, part, depth);
                lemma_part_leaves_open(x, types, handle, part, depth);
            },
            TypeInner::Pointer { base, .. } => {
                lemma_type_grows(v, types, LookupType::Handle(base), depth);
                lemma_part_leaves_open(v, types, handle, LookupType::Handle(base), depth);
            },
            _ => {},
        }
    }
}

pub proof fn lemma_image_type_grows(
    w: WriterView,
    types: Arena<Type>,
    handle: Handle<Type>,
    depth: nat,
)
    requires
        is_named(types, handle),
        !w.lookup_type.contains_key(LookupType::Handle(handle)),
        types.at(handle).inner is Image,
    ensures
        w.grows_by(w.declare_arena_type(types, handle, depth)),
        w.finds_no_variable(w.declare_arena_type(types, handle, depth)),
    decreases depth, 19nat, 0nat,
{
    broadcast use group_growth;
    lemma_generate(w);
    if let Outcome::Done(v0, id) = w.generate_id() {
        let v = v0.name(id, types.at(handle).name);
        if let TypeInner::Image { class, .. } = types.at(handle).inner {
            let part = scalar(image_kind(class), 4);
            lemma_type_grows(v, types, part, depth);
            lemma_part_leaves_open(v, types, handle, part, depth);
        }
    }
}

pub proof fn lemma_array_type_grows(
    w: WriterView,
    types: Arena<Type>,
    handle: Handle<Type>,
    depth: nat,
)
    requires
        is_named(types, handle),
        !w.lookup_type.contains_key(LookupType::Handle(handle)),
        types.at(handle).inner is Array,
    ensures
        w.grows_by(w.declare_arena_type(types, handle, depth)),
        w.finds_no_variable(w.declare_arena_type(types, handle, depth)),
    decreases depth, 19nat, 0nat,
{
    broadcast use group_growth;
    lemma_generate(w);
    if let Outcome::Done(v0, id) = w.generate_id() {
        let v = v0.name(id, types.at(handle).name);
        if let TypeInner::Array { base, stride, .. } = types.at(handle).inner {
            let x = v.decorate_stride(id, stride);
            lemma_type_grows(x, types, LookupType::Handle(base), depth);
            lemma_part_leaves_open(x, types, handle, LookupType::Handle(base), depth);
        }
    }
}

pub proof fn lemma_struct_type_grows(
    w: WriterView,
    types: Arena<Type>,
    handle: Handle<Type>,
    depth: nat,
)
    requires
        is_named(types, handle),
        !w.lookup_type.contains_key(LookupType::Handle(handle)),
        types.at(handle).inner is Struct,
    ensures
        w.grows_by(w.declare_arena_type(types, handle, depth)),
        w.finds_no_variable(w.declare_arena_type(types, handle, depth)),
    decreases depth, 19nat, 0nat,
{
    broadcast use group_growth;
    lemma_generate(w);
    if let Outcome::Done(v0, id) = w.generate_id() {
        let v = v0.name(id, types.at(handle).name);
        if let TypeInner::Struct { block, members } = types.at(handle).inner {
            if block {
                let x = v.annotate(op_decorate(id, v.block_decoration(handle), Seq::empty()));
                lemma_block_members_grow(w, x, types, id, members@, 0, 0, Seq::empty(), depth);
                lemma_members_leave_open(x, types, handle, id, members@, depth);
            } else {
                lemma_plain_members_grow(v, types, members@, 0, Seq::empty(), depth);
                lemma_members_leave_open(v, types, handle, id, members@, depth);
            }
        }
    }
}

pub proof fn lemma_plain_members_grow(
    w: WriterView,
    types: Arena<Type>,
    members: Seq<StructMember>,
    i: nat,
    ids: Seq<Word>,
    depth: nat,
)
    ensures
        w.grows_by(w.plain_members(types, members, i, ids, depth)),
        w.finds_no_variable(w.plain_members(types, members, i, ids, depth)),
    decreases depth, 15nat, members.len() - i,
{
    broadcast use group_growth;
    if i < members.len() {
        let ty = LookupType::Handle(members[i as int].ty);
        lemma_type_grows(w, types, ty, depth);
        if let Outcome::Done(v, id) = w.type_id_within(types, ty, depth) {
            lemma_plain_members_grow(v, types, members, i + 1, ids.push(id), depth);
        }
    }
}

/// The members of the structure `id`, whose identifier was handed out since `base`.
pub proof fn lemma_block_members_grow(
    base: WriterView,
    w: WriterView,
    types: Arena<Type>,
    id: Word,
    members: Seq<StructMember>,
    i: nat,
    offset: u32,
    ids: Seq<Word>,
    depth: nat,
)
    requires
        base.is_kept_by(w),
        base.id_count < id <= w.id_count,
    ensures
        w.grows_since(base, w.block_members(types, id, members, i, offset, ids, depth)),
        w.finds_no_variable(w.block_members(types, id, members, i, offset, ids, depth)),
    decreases depth, 15nat, members.len() - i,
{
    broadcast use group_growth;
    assert(w.is_kept_by(w));
    if i < members.len() {
        let member = members[i as int];
        let ty = LookupType::Handle(member.ty);
        if let Outcome::Done(v, end) = w.place_member(types, id, member, i, offset) {
            lemma_type_grows(v, types, ty, depth);
            if let Outcome::Done(x, member_id) = v.type_id_within(types, ty, depth) {
                lemma_block_members_grow(
                    base,
                    x,
                    types,
                    id,
                    members,
                    i + 1,
                    end,
                    ids.push(member_id),
                    depth,
                );
            }
        }
    }
}

pub proof fn lemma_type_id_grows(w: WriterView, types: Arena<Type>, ty: LookupType)
    ensures
        w.grows_by(w.type_id(types, ty)),
        w.finds_no_variable(w.type_id(types, ty)),
{
    reveal(WriterView::type_id);
    lemma_type_grows(w, types, ty, types.count());
}

pub proof fn lemma_pointer_grows(
    w: WriterView,
    types: Arena<Type>,
    handle: Handle<Type>,
    class: VariableClass,
)
    ensures
        w.grows_by(w.pointer_id(types, handle, class)),
        w.finds_no_variable(w.pointer_id(types, handle, class)),
{
    broadcast use group_growth;
    reveal(WriterView::pointer_id);
    lemma_type_id_grows(w, types, LookupType::Handle(handle));
    if let Outcome::Done(v, _) = w.type_id(types, LookupType::Handle(handle)) {
        lemma_generate(v);
    }
}

pub proof fn lemma_new_pointer_type_grows(
    w: WriterView,
    types: Arena<Type>,
    ty: LookupType,
    class: spirv::StorageClass,
)
    ensures
        w.grows_by(w.new_pointer_type(types, ty, class)),
        w.finds_no_variable(w.new_pointer_type(types, ty, class)),
{
    broadcast use group_growth;
    reveal(WriterView::new_pointer_type);
    lemma_type_id_grows(w, types, ty);
    if let Outcome::Done(v, _) = w.type_id(types, ty) {
        lemma_generate(v);
    }
}

pub proof fn lemma_return_type_grows(w: WriterView, types: Arena<Type>, ty: Option<Handle<Type>>)
    ensures
        w.grows_by(w.return_type_id(types, ty)),
        w.finds_no_variable(w.return_type_id(types, ty)),
{
    broadcast use group_growth;
    reveal(WriterView::return_type_id);
    match ty {
        Some(handle) => {
            lemma_type_id_grows(w, types, LookupType::Handle(handle));
        },
        None => {
            lemma_generate(w);
            if let Outcome::Done(v, id) = w.generate_id() {
                let x = WriterView { void_type: Some(id), ..v };
                assert(w.void_type is None ==> w.is_kept_by(x)) by {
                    reveal(WriterView::is_kept_by);
                    reveal(WriterView::is_remembered_by);
                    reveal(WriterView::has_own_ids);
                }
                assert(forall|i: Word| #[trigger] x.definitions(i) == v.definitions(i));
            }
        },
    }
}

pub proof fn lemma_function_type_grows(w: WriterView, parameter_type_ids: Seq<Word>, return_type_id: Word)
    ensures
        w.grows_by(w.function_type_id(parameter_type_ids, return_type_id)),
        w.finds_no_variable(w.function_type_id(parameter_type_ids, return_type_id)),
{
    broadcast use group_growth;
    lemma_generate(w);
}

pub proof fn lemma_new_constant_grows(w: WriterView, type_id: Word, value: Seq<Word>)
    ensures
        w.grows_by(w.new_constant(type_id, value)),
        w.finds_no_variable(w.new_constant(type_id, value)),
{
    broadcast use group_growth;
    lemma_generate(w);
}

pub proof fn lemma_constant_grows(w: WriterView, module: Module, handle: Handle<Constant>, depth: nat)
    ensures
        w.grows_by(w.constant_id_within(module, handle, depth)),
        w.finds_no_variable(w.constant_id_within(module, handle, depth)),
    decreases depth, 1nat, 0nat,
{
    broadcast use group_growth;
    if !w.lookup_constant.contains_key(handle) && depth > 0 && module.constants.contains(handle) {
        lemma_generate(w);
        if let Outcome::Done(v, id) = w.generate_id() {
            lemma_define_constant_grows(
                v.remember_constant(handle, id),
                module,
                id,
                module.constants.at(handle).inner,
                (depth - 1) as nat,
            );
        }
    }
}

/// The declaration of the constant `id`, whose identifier was handed out before.
pub proof fn lemma_define_constant_grows(
    w: WriterView,
    module: Module,
    id: Word,
    inner: ConstantInner,
    depth: nat,
)
    ensures
        w.grows_by_defining(w.define_constant(module, id, inner, depth), id),
        w.finds_no_variable(w.define_constant(module, id, inner, depth)),
    decreases depth, 3nat, 0nat,
{
    broadcast use group_growth;
    match inner {
        ConstantInner::Scalar { width, value } => {
            lemma_type_id_grows(w, module.types, scalar(value.kind(), width));
        },
        ConstantInner::Composite { ty, components } => {
            lemma_constants_grow(w, module, components@, 0, Seq::empty(), depth);
            if let Outcome::Done(v, _) = w.constant_ids(
                module,
                components@,
                0,
                Seq::empty(),
                depth,
            ) {
                lemma_array_length_grows(v, module, ty, depth);
                if let Outcome::Done(x, _) = v.array_length_id(module, ty, depth) {
                    lemma_type_id_grows(x, module.types, LookupType::Handle(ty));
                }
            }
        },
    }
}

pub proof fn lemma_array_length_grows(w: WriterView, module: Module, ty: Handle<Type>, depth: nat)
    ensures
        w.grows_by(w.array_length_id(module, ty, depth)),
        w.finds_no_variable(w.array_length_id(module, ty, depth)),
    decreases depth, 2nat, 0nat,
{
    broadcast use group_growth;
    if module.types.contains(ty) {
        if let TypeInner::Array { size: ArraySize::Constant(length), .. } =
            module.types.at(ty).inner {
            lemma_constant_grows(w, module, length, depth);
        }
    }
}

pub proof fn lemma_constants_grow(
    w: WriterView,
    module: Module,
    handles: Seq<Handle<Constant>>,
    i: nat,
    ids: Seq<Word>,
    depth: nat,
)
    ensures
        w.grows_by(w.constant_ids(module, handles, i, ids, depth)),
        w.finds_no_variable(w.constant_ids(module, handles, i, ids, depth)),
    decreases depth, 2nat, handles.len() - i,
{
    broadcast use group_growth;
    if i < handles.len() {
        lemma_constant_grows(w, module, handles[i as int], depth);
        if let Outcome::Done(v, id) = w.constant_id_within(module, handles[i as int], depth) {
            lemma_constants_grow(v, module, handles, i + 1, ids.push(id), depth);
        }
    }
}

pub proof fn lemma_initializer_grows(w: WriterView, module: Module, init: Option<Handle<Constant>>)
    ensures
        w.grows_by(w.initializer_id(module, init)),
        w.finds_no_variable(w.initializer_id(module, init)),
{
    broadcast use group_growth;
    reveal(WriterView::constant_id);
    if let Some(handle) = init {
        lemma_constant_grows(w, module, handle, module.constants.count());
    }
}

pub proof fn lemma_new_global_variable_grows(
    w: WriterView,
    module: Module,
    handle: Handle<GlobalVariable>,
)
    requires
        !w.lookup_global_variable.contains_key(handle),
    ensures
        match w.new_global_variable(module, handle) {
            Outcome::Done(v, variable) => w.is_kept_by(v) && w.is_numbered_by(
                v.declare(variable.0),
            ),
            Outcome::Fail(v, _) => w.grows_to(v),
            Outcome::Stuck => true,
        },
{
    broadcast use group_growth;
    reveal(WriterView::new_global_variable);
    lemma_generate(w);
    if module.global_variables.contains(handle) {
        let variable = module.global_variables.at(handle);
        if let Outcome::Done(v, id) = w.generate_id() {
            lemma_initializer_grows(v, module, variable.init);
            if let Outcome::Done(x, init) = v.initializer_id(module, variable.init) {
                lemma_pointer_grows(x, module.types, variable.ty, variable.class);
                if let Outcome::Done(y, pointer_type_id) = x.pointer_id(
                    module.types,
                    variable.ty,
                    variable.class,
                ) {
                    let z = y.name(id, variable.name);
                    lemma_decorations_grow(w, z, id, variable);
                }
            }
        }
    }
}

/// The decorations of the variable `id`, whose identifier was handed out since `base`.
pub proof fn lemma_decorations_grow(
    base: WriterView,
    w: WriterView,
    id: Word,
    variable: GlobalVariable,
)
    requires
        base.is_kept_by(w),
        base.id_count < id <= w.id_count,
    ensures
        base.is_kept_by(
            w.decorate_interpolation(id, variable.interpolation).decorate_binding(
                id,
                variable.binding,
            ),
        ),
        forall|x: Word| #[trigger]
            w.decorate_interpolation(id, variable.interpolation).decorate_binding(
                id,
                variable.binding,
            ).definitions(x) == w.definitions(x),
{
    broadcast use group_growth;
}

pub proof fn lemma_global_variable_grows(
    w: WriterView,
    module: Module,
    handle: Handle<GlobalVariable>,
)
    ensures
        w.grows_by(w.global_variable_id(module, handle)),
{
    broadcast use group_growth;
    reveal(WriterView::global_variable_id);
    if !w.lookup_global_variable.contains_key(handle) {
        lemma_new_global_variable_grows(w, module, handle);
    }
}

pub proof fn lemma_constant_id_grows(w: WriterView, module: Module, handle: Handle<Constant>)
    ensures
        w.grows_by(w.constant_id(module, handle)),
{
    reveal(WriterView::constant_id);
    lemma_constant_grows(w, module, handle, module.constants.count());
}

} // verus!

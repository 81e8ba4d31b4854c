//! What is required, named and decorated.

use crate::arena::{Arena, Handle};
use crate::ir::{EntryPoint, GlobalVariable, Module, StructMember, Type, TypeInner};
use crate::spv::declaration_laws::lemma_named_within;
use crate::spv::error::Failure;
use crate::spv::instruction::InstructionView;
use crate::spv::instructions::{op_decorate, op_member_name, op_name};
use crate::spv::lookup::{LocalType, LookupType};
use crate::spv::model::{Outcome, WriterFlags, WriterView};
use crate::spv::types::vector;
use crate::spv::variable_laws::decorates;
use crate::spv::words::{text_words, Word};
use spirv_headers as spirv;
use vstd::prelude::*;

verus! {

/// Of several capabilities that are enough, each is enough, and where none is there the module
/// is refused, with the list of them. Where nothing is required, nothing is missing, and more
/// capabilities never hurt.
pub proof fn law_each_capability_is_enough(
    w: WriterView,
    v: WriterView,
    required: Seq<spirv::Capability>,
)
    ensures
        required.len() == 0 ==> w.check(required) == Outcome::Done(w, ()),
        forall|i: int|
            0 <= i < required.len() && w.capabilities.contains(#[trigger] required[i])
                ==> w.check(required) == Outcome::Done(w, ()),
        required.len() > 0 && (forall|i: int|
            0 <= i < required.len() ==> !w.capabilities.contains(#[trigger] required[i]))
            ==> w.check(required) == Outcome::<WriterView, ()>::Fail(
            w,
            Failure::MissingCapabilities(required),
        ),
        w.check(required) is Done && (forall|capability: spirv::Capability| #[trigger]
            w.capabilities.contains(capability) ==> v.capabilities.contains(capability))
            ==> v.check(required) is Done,
{
    if w.check(required) is Done && required.len() > 0 {
        let i = choose|i: int|
            0 <= i < required.len() && w.capabilities.contains(#[trigger] required[i]);
        if forall|capability: spirv::Capability| #[trigger]
            w.capabilities.contains(capability) ==> v.capabilities.contains(capability) {
            assert(v.capabilities.contains(required[i]));
        }
    }
}

/// The set of extended instructions is imported by its name, under the identifier that extended
/// instructions name it by.
pub proof fn law_extended_instructions_are_imported(w: WriterView)
    ensures
        w.prologue() matches Outcome::Done(v, _) ==> {
            let imports = v.logical_layout.ext_inst_imports;
            &&& imports == w.logical_layout.ext_inst_imports.push(imports.last())
            &&& imports.last().op == spirv::Op::ExtInstImport
            &&& imports.last().result_id == Some(v.gl450_ext_inst_id)
            &&& imports.last().operands == text_words("GLSL.std.450"@)
            &&& w.id_count < v.gl450_ext_inst_id <= v.id_count
        },
{
}

/// Whether one of the first `n` global variables of a type is accessed as storage.
pub open spec fn is_accessed(module: Module, n: nat, ty: Handle<Type>) -> bool {
    exists|i: int|
        0 <= i < n && (#[trigger] module.global_variables.data@[i]).ty == ty
            && module.global_variables.data@[i].storage_access.bits != 0
}

/// The types that are accessed as storage are those of the global variables that are.
pub proof fn law_storage_is_found(w: WriterView, module: Module, n: nat, ty: Handle<Type>)
    requires
        n <= module.global_variables.data@.len(),
    ensures
        w.storage_types(module, n).storage_type_handles.contains_key(ty)
            <==> w.storage_type_handles.contains_key(ty) || is_accessed(module, n, ty),
        w.storage_types(module, n) == (WriterView {
            storage_type_handles: w.storage_types(module, n).storage_type_handles,
            ..w
        }),
    decreases n,
{
    if n > 0 {
        let m = (n - 1) as nat;
        law_storage_is_found(w, module, m, ty);
        let variable = module.global_variables.data@[n - 1];
        if is_accessed(module, m, ty) {
            let i = choose|i: int|
                0 <= i < m && (#[trigger] module.global_variables.data@[i]).ty == ty
                    && module.global_variables.data@[i].storage_access.bits != 0;
            assert(module.global_variables.data@[i].ty == ty);
        }
        if is_accessed(module, n, ty) && !is_accessed(module, m, ty) {
            let i = choose|i: int|
                0 <= i < n && (#[trigger] module.global_variables.data@[i]).ty == ty
                    && module.global_variables.data@[i].storage_access.bits != 0;
            if i < m {
                assert(module.global_variables.data@[i].ty == ty);
            }
            assert(i == n - 1);
        }
        if variable.ty == ty && variable.storage_access.bits != 0 {
            assert(module.global_variables.data@[n - 1].ty == ty);
        }
    }
}

/// Whether the debug information names `id`.
pub open spec fn is_named_by(list: Seq<InstructionView>, id: Word, text: Seq<char>) -> bool {
    exists|i: int|
        #![trigger list[i]]
        {
            &&& 0 <= i < list.len()
            &&& list[i].op == spirv::Op::Name
            &&& list[i].operands == seq![id] + text_words(text)
        }
}

/// Whether a name, if there is one and names are wanted, is that of `id`.
pub open spec fn keeps_name(w: WriterView, id: Word, name: Option<String>) -> bool {
    w.flags == WriterFlags::DEBUG && name is Some ==> is_named_by(w.debugs, id, name->0@)
}

proof fn lemma_named(w: WriterView, id: Word, name: Option<String>)
    ensures
        keeps_name(w.name(id, name), id, name),
{
    if let Some(text) = name {
        if w.flags == WriterFlags::DEBUG {
            let v = w.name(id, name);
            assert(v.debugs[w.debugs.len() as int] == op_name(id, text@));
        }
    }
}

proof fn lemma_named_later(v: WriterView, w: WriterView, id: Word, name: Option<String>)
    requires
        keeps_name(v, id, name),
        v.debugs.is_prefix_of(w.debugs),
        v.flags == w.flags,
    ensures
        keeps_name(w, id, name),
{
    if let Some(text) = name {
        if v.flags == WriterFlags::DEBUG {
            let list = v.debugs;
            let i = choose|i: int|
                #![trigger list[i]]
                {
                    &&& 0 <= i < list.len()
                    &&& list[i].op == spirv::Op::Name
                    &&& list[i].operands == seq![id] + text_words(text@)
                };
            assert(v.debugs[i] == w.debugs.subrange(0, v.debugs.len() as int)[i]);
            assert(w.debugs[i] == v.debugs[i]);
        }
    }
}

/// Whether one of the decorations is that of `id`.
pub open spec fn is_decorated_with(
    list: Seq<InstructionView>,
    id: Word,
    decoration: spirv::Decoration,
    words: Seq<Word>,
) -> bool {
    exists|i: int| 0 <= i < list.len() && decorates(#[trigger] list[i], id, decoration, words)
}

proof fn lemma_decorated_later(
    a: Seq<InstructionView>,
    b: Seq<InstructionView>,
    id: Word,
    decoration: spirv::Decoration,
    words: Seq<Word>,
)
    requires
        is_decorated_with(a, id, decoration, words),
        a.is_prefix_of(b),
    ensures
        is_decorated_with(b, id, decoration, words),
{
    let i = choose|i: int|
        0 <= i < a.len() && decorates(#[trigger] a[i], id, decoration, words);
    assert(a[i] == b.subrange(0, a.len() as int)[i]);
    assert(decorates(b[i], id, decoration, words));
}

proof fn lemma_decorated(w: WriterView, id: Word, decoration: spirv::Decoration, words: Seq<Word>)
    ensures
        is_decorated_with(
            w.annotate(op_decorate(id, decoration, words)).annotations,
            id,
            decoration,
            words,
        ),
{
    let v = w.annotate(op_decorate(id, decoration, words));
    assert(decorates(v.annotations[w.annotations.len() as int], id, decoration, words));
}

/// Whether what is remarked in state `v` still is in `w`.
spec fn is_remarked(v: WriterView, w: WriterView) -> bool {
    &&& v.debugs.is_prefix_of(w.debugs)
    &&& v.annotations.is_prefix_of(w.annotations)
    &&& v.flags == w.flags
    &&& v.storage_type_handles == w.storage_type_handles
}

proof fn lemma_kept_is_remarked(v: WriterView, w: WriterView)
    requires
        v.is_kept_by(w),
    ensures
        is_remarked(v, w),
{
    reveal(WriterView::is_kept_by);
}

proof fn lemma_remarked_by_all(a: WriterView, b: WriterView, c: WriterView)
    requires
        is_remarked(a, b),
        is_remarked(b, c),
    ensures
        is_remarked(a, c),
{
    assert(b.debugs =~= c.debugs.subrange(0, b.debugs.len() as int));
    assert(a.debugs =~= c.debugs.subrange(0, a.debugs.len() as int)) by {
        assert(a.debugs =~= b.debugs.subrange(0, a.debugs.len() as int));
    }
    assert(b.annotations =~= c.annotations.subrange(0, b.annotations.len() as int));
    assert(a.annotations =~= c.annotations.subrange(0, a.annotations.len() as int)) by {
        assert(a.annotations =~= b.annotations.subrange(0, a.annotations.len() as int));
    }
}

proof fn lemma_same_is_remarked(w: WriterView)
    ensures
        is_remarked(w, w),
{
    assert(w.debugs.subrange(0, w.debugs.len() as int) =~= w.debugs);
    assert(w.annotations.subrange(0, w.annotations.len() as int) =~= w.annotations);
}

proof fn lemma_plain_members_remarked(
    w: WriterView,
    types: Arena<Type>,
    members: Seq<StructMember>,
    i: nat,
    ids: Seq<Word>,
    depth: nat,
)
    ensures
        w.plain_members(types, members, i, ids, depth) matches Outcome::Done(v, _) ==> is_remarked(
            w,
            v,
        ),
    decreases members.len() - i,
{
    lemma_same_is_remarked(w);
    if i < members.len() {
        let part = LookupType::Handle(members[i as int].ty);
        lemma_named_within(w, types, part, depth);
        if let Outcome::Done(v, id) = w.type_id_within(types, part, depth) {
            lemma_kept_is_remarked(w, v);
            lemma_plain_members_remarked(v, types, members, i + 1, ids.push(id), depth);
            if let Outcome::Done(u, _) = v.plain_members(
                types,
                members,
                i + 1,
                ids.push(id),
                depth,
            ) {
                lemma_remarked_by_all(w, v, u);
            }
        }
    }
}

/// Whether the debug information names the `i`-th member of the structure `id`.
pub open spec fn is_member_named(list: Seq<InstructionView>, id: Word, i: int, text: Seq<char>) -> bool {
    exists|k: int|
        #![trigger list[k]]
        {
            &&& 0 <= k < list.len()
            &&& list[k].op == spirv::Op::MemberName
            &&& list[k].operands == seq![id, i as u32] + text_words(text)
        }
}

/// Whether the name of the `i`-th member, if it has one and names are wanted, is there.
pub open spec fn keeps_member_name(
    w: WriterView,
    id: Word,
    members: Seq<StructMember>,
    i: int,
) -> bool {
    w.flags == WriterFlags::DEBUG && members[i].name is Some ==> is_member_named(
        w.debugs,
        id,
        i,
        members[i].name->0@,
    )
}

proof fn lemma_member_named_later(
    v: WriterView,
    w: WriterView,
    id: Word,
    members: Seq<StructMember>,
    i: int,
)
    requires
        keeps_member_name(v, id, members, i),
        is_remarked(v, w),
    ensures
        keeps_member_name(w, id, members, i),
{
    if v.flags == WriterFlags::DEBUG && members[i].name is Some {
        let text = members[i].name->0@;
        let list = v.debugs;
        let k = choose|k: int|
            #![trigger list[k]]
            {
                &&& 0 <= k < list.len()
                &&& list[k].op == spirv::Op::MemberName
                &&& list[k].operands == seq![id, i as u32] + text_words(text)
            };
        assert(v.debugs[k] == w.debugs.subrange(0, v.debugs.len() as int)[k]);
        assert(w.debugs[k] == v.debugs[k]);
    }
}

proof fn lemma_placed_remarked(
    w: WriterView,
    types: Arena<Type>,
    id: Word,
    members: Seq<StructMember>,
    i: nat,
    offset: u32,
)
    requires
        i < members.len(),
    ensures
        w.place_member(types, id, members[i as int], i, offset) matches Outcome::Done(v, _) ==> {
            &&& is_remarked(w, v)
            &&& keeps_member_name(v, id, members, i as int)
        },
{
    let member = members[i as int];
    if let Outcome::Done(v, _) = w.place_member(types, id, member, i, offset) {
        assert(v.debugs.subrange(0, w.debugs.len() as int) =~= w.debugs);
        assert(v.annotations.subrange(0, w.annotations.len() as int) =~= w.annotations);
        if v.flags == WriterFlags::DEBUG && member.name is Some {
            let named = op_member_name(id, i as u32, member.name->0@);
            assert(v.debugs[w.debugs.len() as int] == named);
        }
    }
}

proof fn lemma_block_members_remarked(
    w: WriterView,
    types: Arena<Type>,
    id: Word,
    members: Seq<StructMember>,
    i: nat,
    offset: u32,
    ids: Seq<Word>,
    depth: nat,
)
    requires
        i <= members.len(),
        forall|k: int| 0 <= k < i ==> #[trigger] keeps_member_name(w, id, members, k),
    ensures
        w.block_members(types, id, members, i, offset, ids, depth) matches Outcome::Done(v, _)
            ==> {
            &&& is_remarked(w, v)
            &&& forall|k: int|
                0 <= k < members.len() ==> #[trigger] keeps_member_name(v, id, members, k)
        },
    decreases members.len() - i,
{
    lemma_same_is_remarked(w);
    if i < members.len() {
        let member = members[i as int];
        lemma_placed_remarked(w, types, id, members, i, offset);
        if let Outcome::Done(u, end) = w.place_member(types, id, member, i, offset) {
            let part = LookupType::Handle(member.ty);
            lemma_named_within(u, types, part, depth);
            if let Outcome::Done(v, member_id) = u.type_id_within(types, part, depth) {
                lemma_kept_is_remarked(u, v);
                lemma_remarked_by_all(w, u, v);
                assert forall|k: int| 0 <= k < i + 1 implies #[trigger] keeps_member_name(
                    v,
                    id,
                    members,
                    k,
                ) by {
                    if k < i {
                        lemma_member_named_later(w, v, id, members, k);
                    } else {
                        lemma_member_named_later(u, v, id, members, k);
                    }
                }
                lemma_block_members_remarked(
                    v,
                    types,
                    id,
                    members,
                    i + 1,
                    end,
                    ids.push(member_id),
                    depth,
                );
                if let Outcome::Done(x, _) = v.block_members(
                    types,
                    id,
                    members,
                    i + 1,
                    end,
                    ids.push(member_id),
                    depth,
                ) {
                    lemma_remarked_by_all(w, v, x);
                }
            }
        }
    }
}

/// Whether all is remarked of a type of the arena that has to be: its name; of a matrix that its
/// columns lie together; of an array how far apart its elements are, if that is given; and of a
/// structure that stands for a buffer that it does, whether the buffer is accessed as storage,
/// and the names of its members.
pub open spec fn is_remarked_on(
    w: WriterView,
    handle: Handle<Type>,
    definition: Type,
    id: Word,
) -> bool {
    &&& keeps_name(w, id, definition.name)
    &&& match definition.inner {
        TypeInner::Matrix { .. } => is_decorated_with(
            w.annotations,
            id,
            spirv::Decoration::ColMajor,
            Seq::empty(),
        ),
        TypeInner::Array { stride: Some(stride), .. } => is_decorated_with(
            w.annotations,
            id,
            spirv::Decoration::ArrayStride,
            seq![stride],
        ),
        TypeInner::Struct { block: true, members } => {
            &&& is_decorated_with(
                w.annotations,
                id,
                if w.storage_type_handles.contains_key(handle) {
                    spirv::Decoration::BufferBlock
                } else {
                    spirv::Decoration::Block
                },
                Seq::empty(),
            )
            &&& forall|k: int|
                0 <= k < members@.len() ==> #[trigger] keeps_member_name(w, id, members@, k)
        },
        _ => true,
    }
}

proof fn lemma_struct_remarked(w: WriterView, types: Arena<Type>, handle: Handle<Type>, depth: nat)
    requires
        types.contains(handle),
        types.at(handle).inner is Struct,
    ensures
        w.declare_arena_type(types, handle, depth) matches Outcome::Done(u, id) ==> is_remarked_on(
            u,
            handle,
            types.at(handle),
            id,
        ),
{
    let definition = types.at(handle);
    if let Outcome::Done(w0, id) = w.generate_id() {
        let w1 = w0.name(id, definition.name);
        lemma_named(w0, id, definition.name);
        let members = definition.inner->Struct_members@;
        if definition.inner->Struct_block {
            let decoration = w1.block_decoration(handle);
            let w2 = w1.annotate(op_decorate(id, decoration, Seq::empty()));
            lemma_decorated(w1, id, decoration, Seq::empty());
            lemma_block_members_remarked(w2, types, id, members, 0, 0, Seq::empty(), depth);
            if let Outcome::Done(v, ids) = w2.block_members(
                types,
                id,
                members,
                0,
                0,
                Seq::empty(),
                depth,
            ) {
                lemma_decorated_later(
                    w2.annotations,
                    v.annotations,
                    id,
                    decoration,
                    Seq::empty(),
                );
                lemma_named_later(w2, v, id, definition.name);
                if let Outcome::Done(u, _) = w.declare_arena_type(types, handle, depth) {
                    assert(u.debugs == v.debugs && u.annotations == v.annotations);
                    assert forall|k: int| 0 <= k < members.len() implies #[trigger]
                        keeps_member_name(u, id, members, k) by {
                        assert(keeps_member_name(v, id, members, k));
                    }
                }
            }
        } else {
            lemma_plain_members_remarked(w1, types, members, 0, Seq::empty(), depth);
            if let Outcome::Done(v, ids) = w1.plain_members(
                types,
                members,
                0,
                Seq::empty(),
                depth,
            ) {
                lemma_named_later(w1, v, id, definition.name);
            }
        }
    }
}

/// A type of the arena is named and decorated as it has to be.
pub proof fn law_types_are_remarked_on(
    w: WriterView,
    types: Arena<Type>,
    handle: Handle<Type>,
    depth: nat,
)
    requires
        types.contains(handle),
    ensures
        w.declare_arena_type(types, handle, depth) matches Outcome::Done(u, id) ==> is_remarked_on(
            u,
            handle,
            types.at(handle),
            id,
        ),
{
    let definition = types.at(handle);
    if definition.inner is Struct {
        lemma_struct_remarked(w, types, handle, depth);
    } else if let Outcome::Done(w0, id) = w.generate_id() {
        let w1 = w0.name(id, definition.name);
        lemma_named(w0, id, definition.name);
        lemma_same_is_remarked(w1);
        match definition.inner {
            TypeInner::Vector { kind, width, .. } => {
                let part = LookupType::Local(LocalType::Scalar { kind, width });
                lemma_part_remarked(w1, types, part, depth, id, definition.name);
            },
            TypeInner::Matrix { columns, width, .. } => {
                let decoration = spirv::Decoration::ColMajor;
                let w2 = w1.annotate(op_decorate(id, decoration, Seq::empty()));
                let part = vector(columns, crate::ir::ScalarKind::Float, width);
                lemma_decorated(w1, id, decoration, Seq::empty());
                lemma_part_remarked(w2, types, part, depth, id, definition.name);
                if let Outcome::Done(v, _) = w2.type_id_within(types, part, depth) {
                    lemma_decorated_later(
                        w2.annotations,
                        v.annotations,
                        id,
                        decoration,
                        Seq::empty(),
                    );
                }
            },
            TypeInner::Image { class, .. } => {
                let part = crate::spv::types::scalar(crate::spv::types::image_kind(class), 4);
                lemma_part_remarked(w1, types, part, depth, id, definition.name);
            },
            TypeInner::Array { base, stride, .. } => {
                let w2 = w1.decorate_stride(id, stride);
                let part = LookupType::Handle(base);
                lemma_part_remarked(w2, types, part, depth, id, definition.name);
                if let Some(stride) = stride {
                    let decoration = spirv::Decoration::ArrayStride;
                    lemma_decorated(w1, id, decoration, seq![stride]);
                    if let Outcome::Done(v, _) = w2.type_id_within(types, part, depth) {
                        lemma_decorated_later(
                            w2.annotations,
                            v.annotations,
                            id,
                            decoration,
                            seq![stride],
                        );
                    }
                }
            },
            TypeInner::Pointer { base, .. } => {
                let part = LookupType::Handle(base);
                lemma_part_remarked(w1, types, part, depth, id, definition.name);
            },
            _ => {},
        }
    }
}

proof fn lemma_part_remarked(
    w: WriterView,
    types: Arena<Type>,
    part: LookupType,
    depth: nat,
    id: Word,
    name: Option<String>,
)
    requires
        keeps_name(w, id, name),
    ensures
        w.type_id_within(types, part, depth) matches Outcome::Done(v, _) ==> is_remarked(w, v)
            && keeps_name(v, id, name),
{
    lemma_named_within(w, types, part, depth);
    if let Outcome::Done(v, _) = w.type_id_within(types, part, depth) {
        lemma_kept_is_remarked(w, v);
        lemma_named_later(w, v, id, name);
    }
}

/// Global variables and entry points keep their names, if names are wanted.
pub proof fn law_names_are_kept(
    w: WriterView,
    module: Module,
    handle: Handle<GlobalVariable>,
    entry_point: EntryPoint,
)
    ensures
        w.global_variable_id(module, handle) matches Outcome::Done(v, found)
            ==> w.lookup_global_variable.contains_key(handle) || keeps_name(
            v,
            found.0,
            module.global_variables.data@[handle.index as int].name,
        ),
        w.entry_point(module, entry_point) matches Outcome::Done(v, _) ==> keeps_name(
            v,
            w.function(module, entry_point.function)->Done_1,
            Some(entry_point.name),
        ),
{
    reveal(WriterView::global_variable_id);
    reveal(WriterView::new_global_variable);
    reveal(WriterView::entry_point);
    if let Outcome::Done(v, found) = w.global_variable_id(module, handle) {
        if !w.lookup_global_variable.contains_key(handle) {
            let variable = module.global_variables.at(handle);
            let w1 = w.generate_id()->Done_0;
            let w2 = w1.initializer_id(module, variable.init)->Done_0;
            let w3 = w2.pointer_id(module.types, variable.ty, variable.class)->Done_0;
            lemma_named(w3, found.0, variable.name);
            assert(v.debugs == w3.name(found.0, variable.name).debugs);
        }
    }
    if let Outcome::Done(v, _) = w.entry_point(module, entry_point) {
        let id = w.function(module, entry_point.function)->Done_1;
        if v.flags == WriterFlags::DEBUG {
            let last = v.debugs.len() - 1;
            assert(v.debugs[last] == op_name(id, entry_point.name@));
        }
    }
}

} // verus!

//! What the declarations of types say.

use crate::arena::{Arena, Handle};
use crate::ir::{
    ArraySize, ImageClass, ImageDimension, ScalarKind, StorageFormat, StructMember, Type, TypeInner,
    VectorSize,
};
use crate::spv::expression_laws::{
    answers, comes_before, lemma_comes_before, lemma_names_later, names_type,
};
use crate::spv::growth::group_growth;
use crate::spv::growth_declarations::lemma_type_grows;
use crate::spv::instruction::InstructionView;
use crate::spv::lookup::{LocalType, LookupType};
use crate::spv::model::{Outcome, WriterView};
use crate::spv::words::Word;
use spirv_headers as spirv;
use vstd::prelude::*;

verus! {

/// Whether a vector of this size has `n` components.
pub open spec fn is_size(size: VectorSize, n: Word) -> bool {
    match size {
        VectorSize::Bi => n == 2,
        VectorSize::Tri => n == 3,
        VectorSize::Quad => n == 4,
    }
}

/// Whether a declaration is that of a scalar of a kind, with as many bits as `width` bytes have.
pub open spec fn is_scalar_type(declaration: InstructionView, kind: ScalarKind, width: u8) -> bool {
    let operands = declaration.operands;
    match kind {
        ScalarKind::Sint => declaration.op == spirv::Op::TypeInt && operands.len() == 2
            && operands[0] == width * 8 && operands[1] == 1,
        ScalarKind::Uint => declaration.op == spirv::Op::TypeInt && operands.len() == 2
            && operands[0] == width * 8 && operands[1] == 0,
        ScalarKind::Float => declaration.op == spirv::Op::TypeFloat && operands.len() == 1
            && operands[0] == width * 8,
        ScalarKind::Bool => declaration.op == spirv::Op::TypeBool && operands.len() == 0,
    }
}

/// Whether a declaration is that of something made of `n` parts of a type.
pub open spec fn is_made_of(
    w: WriterView,
    types: Arena<Type>,
    declaration: InstructionView,
    op: spirv::Op,
    part: LookupType,
    size: VectorSize,
) -> bool {
    &&& declaration.op == op
    &&& declaration.operands.len() == 2
    &&& names_type(w, types, part, declaration.operands[0])
    &&& is_size(size, declaration.operands[1])
}

/// Whether a declaration is that of a type that is known by its structure.
pub open spec fn is_local_type(
    w: WriterView,
    types: Arena<Type>,
    declaration: InstructionView,
    ty: LocalType,
) -> bool {
    match ty {
        LocalType::Scalar { kind, width } => is_scalar_type(declaration, kind, width),
        LocalType::Vector { size, kind, width } => is_made_of(
            w,
            types,
            declaration,
            spirv::Op::TypeVector,
            LookupType::Local(LocalType::Scalar { kind, width }),
            size,
        ),
        LocalType::Matrix { columns, rows, width } => is_made_of(
            w,
            types,
            declaration,
            spirv::Op::TypeMatrix,
            LookupType::Local(LocalType::Vector { size: rows, kind: ScalarKind::Float, width }),
            columns,
        ),
        LocalType::SampledImage { image_type } => {
            &&& declaration.op == spirv::Op::TypeSampledImage
            &&& declaration.operands.len() == 1
            &&& names_type(w, types, LookupType::Handle(image_type), declaration.operands[0])
        },
        _ => false,
    }
}

/// One where something holds, else zero.
pub open spec fn flag(holds: bool) -> Word {
    if holds {
        1
    } else {
        0
    }
}

/// The format of a storage image that a format of SPIR-V stands for.
pub open spec fn format_of(format: spirv::ImageFormat) -> Option<StorageFormat> {
    match format {
        spirv::ImageFormat::R8 => Some(StorageFormat::R8Unorm),
        spirv::ImageFormat::R8Snorm => Some(StorageFormat::R8Snorm),
        spirv::ImageFormat::R8ui => Some(StorageFormat::R8Uint),
        spirv::ImageFormat::R8i => Some(StorageFormat::R8Sint),
        spirv::ImageFormat::R16ui => Some(StorageFormat::R16Uint),
        spirv::ImageFormat::R16i => Some(StorageFormat::R16Sint),
        spirv::ImageFormat::R16f => Some(StorageFormat::R16Float),
        spirv::ImageFormat::Rg8 => Some(StorageFormat::Rg8Unorm),
        spirv::ImageFormat::Rg8Snorm => Some(StorageFormat::Rg8Snorm),
        spirv::ImageFormat::Rg8ui => Some(StorageFormat::Rg8Uint),
        spirv::ImageFormat::Rg8i => Some(StorageFormat::Rg8Sint),
        spirv::ImageFormat::R32ui => Some(StorageFormat::R32Uint),
        spirv::ImageFormat::R32i => Some(StorageFormat::R32Sint),
        spirv::ImageFormat::R32f => Some(StorageFormat::R32Float),
        spirv::ImageFormat::Rg16ui => Some(StorageFormat::Rg16Uint),
        spirv::ImageFormat::Rg16i => Some(StorageFormat::Rg16Sint),
        spirv::ImageFormat::Rg16f => Some(StorageFormat::Rg16Float),
        spirv::ImageFormat::Rgba8 => Some(StorageFormat::Rgba8Unorm),
        spirv::ImageFormat::Rgba8Snorm => Some(StorageFormat::Rgba8Snorm),
        spirv::ImageFormat::Rgba8ui => Some(StorageFormat::Rgba8Uint),
        spirv::ImageFormat::Rgba8i => Some(StorageFormat::Rgba8Sint),
        spirv::ImageFormat::Rgb10A2 => Some(StorageFormat::Rgb10a2Unorm),
        spirv::ImageFormat::R11fG11fB10f => Some(StorageFormat::Rg11b10Float),
        spirv::ImageFormat::Rg32ui => Some(StorageFormat::Rg32Uint),
        spirv::ImageFormat::Rg32i => Some(StorageFormat::Rg32Sint),
        spirv::ImageFormat::Rg32f => Some(StorageFormat::Rg32Float),
        spirv::ImageFormat::Rgba16ui => Some(StorageFormat::Rgba16Uint),
        spirv::ImageFormat::Rgba16i => Some(StorageFormat::Rgba16Sint),
        spirv::ImageFormat::Rgba16f => Some(StorageFormat::Rgba16Float),
        spirv::ImageFormat::Rgba32ui => Some(StorageFormat::Rgba32Uint),
        spirv::ImageFormat::Rgba32i => Some(StorageFormat::Rgba32Sint),
        spirv::ImageFormat::Rgba32f => Some(StorageFormat::Rgba32Float),
        _ => None,
    }
}

/// Whether a format holds integers without a sign, integers with one, or others.
pub open spec fn is_format_kind(format: StorageFormat, kind: ScalarKind) -> bool {
    match format {
        StorageFormat::R8Uint
        | StorageFormat::R16Uint
        | StorageFormat::Rg8Uint
        | StorageFormat::R32Uint
        | StorageFormat::Rg16Uint
        | StorageFormat::Rgba8Uint
        | StorageFormat::Rg32Uint
        | StorageFormat::Rgba16Uint
        | StorageFormat::Rgba32Uint => kind == ScalarKind::Uint,
        StorageFormat::R8Sint
        | StorageFormat::R16Sint
        | StorageFormat::Rg8Sint
        | StorageFormat::R32Sint
        | StorageFormat::Rg16Sint
        | StorageFormat::Rgba8Sint
        | StorageFormat::Rg32Sint
        | StorageFormat::Rgba16Sint
        | StorageFormat::Rgba32Sint => kind == ScalarKind::Sint,
        _ => kind == ScalarKind::Float,
    }
}

/// Whether the texels of an image are of a kind.
pub open spec fn is_texel_kind(class: ImageClass, kind: ScalarKind) -> bool {
    match class {
        ImageClass::Sampled { kind: sampled, .. } => kind == sampled,
        ImageClass::Depth => kind == ScalarKind::Float,
        ImageClass::Storage(format) => is_format_kind(format, kind),
    }
}

/// Whether a declaration is that of a type of images.
pub open spec fn is_image_type(
    w: WriterView,
    types: Arena<Type>,
    declaration: InstructionView,
    dim: ImageDimension,
    arrayed: bool,
    class: ImageClass,
) -> bool {
    let operands = declaration.operands;
    &&& declaration.op == spirv::Op::TypeImage
    &&& operands.len() == 7
    &&& exists|kind: ScalarKind|
        {
            &&& #[trigger] is_texel_kind(class, kind)
            &&& names_type(
                w,
                types,
                LookupType::Local(LocalType::Scalar { kind, width: 4 }),
                operands[0],
            )
        }
    &&& operands[1] == match dim {
        ImageDimension::D1 => spirv::Dim::Dim1D as u32,
        ImageDimension::D2 | ImageDimension::D3 => spirv::Dim::Dim2D as u32,
        ImageDimension::Cube => spirv::Dim::DimCube as u32,
    }
    &&& operands[2] == flag(class is Depth)
    &&& operands[3] == flag(arrayed)
    &&& operands[4] == flag(class is Sampled && class->multi)
    &&& operands[5] == if class is Storage {
        2u32
    } else {
        1u32
    }
    &&& exists|format: spirv::ImageFormat|
        {
            &&& operands[6] == format as u32
            &&& match class {
                ImageClass::Storage(storage) => #[trigger] format_of(format) == Some(storage),
                _ => format == spirv::ImageFormat::Unknown,
            }
        }
}

/// Whether a declaration lists the types of members, in their order.
pub open spec fn lists_members(
    w: WriterView,
    types: Arena<Type>,
    ids: Seq<Word>,
    members: Seq<StructMember>,
) -> bool {
    &&& ids.len() == members.len()
    &&& forall|i: int|
        #![trigger ids[i]]
        0 <= i < ids.len() ==> names_type(w, types, LookupType::Handle(members[i].ty), ids[i])
}

/// Whether a declaration is that of a type of the arena. A matrix of the arena is made of as many
/// columns as it has, each with as many components.
pub open spec fn is_arena_type(
    w: WriterView,
    types: Arena<Type>,
    declaration: InstructionView,
    inner: TypeInner,
) -> bool {
    let operands = declaration.operands;
    match inner {
        TypeInner::Scalar { kind, width } => is_local_type(
            w,
            types,
            declaration,
            LocalType::Scalar { kind, width },
        ),
        TypeInner::Vector { size, kind, width } => is_local_type(
            w,
            types,
            declaration,
            LocalType::Vector { size, kind, width },
        ),
        TypeInner::Matrix { columns, width, .. } => is_made_of(
            w,
            types,
            declaration,
            spirv::Op::TypeMatrix,
            LookupType::Local(LocalType::Vector { size: columns, kind: ScalarKind::Float, width }),
            columns,
        ),
        TypeInner::Array { base, size, .. } => {
            &&& operands.len() > 0
            &&& names_type(w, types, LookupType::Handle(base), operands[0])
            &&& match size {
                ArraySize::Constant(length) => {
                    &&& declaration.op == spirv::Op::TypeArray
                    &&& operands.len() == 2
                    &&& w.lookup_constant.contains_key(length)
                    &&& w.lookup_constant[length] == operands[1]
                },
                ArraySize::Dynamic => declaration.op == spirv::Op::TypeRuntimeArray
                    && operands.len() == 1,
            }
        },
        TypeInner::Struct { members, .. } => declaration.op == spirv::Op::TypeStruct
            && lists_members(w, types, operands, members@),
        TypeInner::Pointer { base, class } => {
            &&& declaration.op == spirv::Op::TypePointer
            &&& operands.len() == 2
            &&& operands[0] == w.storage_class(class) as u32
            &&& names_type(w, types, LookupType::Handle(base), operands[1])
        },
        TypeInner::Image { dim, arrayed, class } => is_image_type(
            w,
            types,
            declaration,
            dim,
            arrayed,
            class,
        ),
        TypeInner::Sampler { .. } => declaration.op == spirv::Op::TypeSampler && operands.len()
            == 0,
    }
}

/// Whether a declaration is that of a type.
pub open spec fn is_type(
    w: WriterView,
    types: Arena<Type>,
    declaration: InstructionView,
    ty: LookupType,
) -> bool {
    match ty {
        LookupType::Local(local) => is_local_type(w, types, declaration, local),
        LookupType::Handle(handle) => is_arena_type(
            w,
            types,
            declaration,
            types.data@[handle.index as int].inner,
        ),
    }
}

/// What was declared last is the type `ty`, as `id`.
pub open spec fn is_last(w: WriterView, types: Arena<Type>, ty: LookupType, id: Word) -> bool {
    let last = w.logical_layout.declarations.last();
    &&& w.logical_layout.declarations.len() > 0
    &&& last.result_id == Some(id)
    &&& last.type_id is None
    &&& is_type(w, types, last, ty)
}

pub proof fn lemma_named_within(w: WriterView, types: Arena<Type>, ty: LookupType, depth: nat)
    ensures
        w.type_id_within(types, ty, depth) matches Outcome::Done(v, id) ==> {
            &&& names_type(v, types, ty, id)
            &&& w.is_kept_by(v)
            &&& comes_before(w, v)
        },
{
    broadcast use group_growth;
    lemma_type_grows(w, types, ty, depth);
    if let Outcome::Done(v, id) = w.type_id_within(types, ty, depth) {
        assert(answers(w, types, ty, depth, v, id));
        lemma_comes_before(w, v);
        lemma_comes_before(v, v);
    }
}

/// A type that is remembered and declared is named as before.
proof fn lemma_names_declared(
    v: WriterView,
    u: WriterView,
    instruction: InstructionView,
    types: Arena<Type>,
    part: LookupType,
    part_id: Word,
)
    requires
        names_type(v, types, part, part_id),
        u.id_count == v.id_count,
        u.logical_layout.declarations == v.logical_layout.declarations.push(instruction),
    ensures
        names_type(u, types, part, part_id),
{
    let a = v.logical_layout.declarations;
    assert(u.logical_layout.declarations.subrange(0, a.len() as int) =~= a);
    lemma_names_later(v, u, types, part, part_id);
}

proof fn lemma_local_declared(w: WriterView, types: Arena<Type>, local: LocalType, depth: nat)
    ensures
        w.declare_local_type(types, local, depth) matches Outcome::Done(u, id) ==> is_last(
            u,
            types,
            LookupType::Local(local),
            id,
        ),
{
    if let Outcome::Done(w1, id) = w.generate_id() {
        let part = match local {
            LocalType::Vector { kind, width, .. } => LookupType::Local(
                LocalType::Scalar { kind, width },
            ),
            LocalType::Matrix { rows, width, .. } => LookupType::Local(
                LocalType::Vector { size: rows, kind: ScalarKind::Float, width },
            ),
            LocalType::SampledImage { image_type } => LookupType::Handle(image_type),
            _ => LookupType::Local(local),
        };
        if local is Vector || local is Matrix || local is SampledImage {
            lemma_named_within(w1, types, part, depth);
            if let Outcome::Done(v, part_id) = w1.type_id_within(types, part, depth) {
                if let Outcome::Done(u, _) = w.declare_local_type(types, local, depth) {
                    let last = u.logical_layout.declarations.last();
                    lemma_names_declared(v, u, last, types, part, part_id);
                }
            }
        }
    }
}

proof fn lemma_plain_declared(w: WriterView, types: Arena<Type>, handle: Handle<Type>, depth: nat)
    requires
        types.contains(handle),
        !(types.at(handle).inner is Image),
        !(types.at(handle).inner is Array),
        !(types.at(handle).inner is Struct),
    ensures
        w.declare_arena_type(types, handle, depth) matches Outcome::Done(u, id) ==> is_last(
            u,
            types,
            LookupType::Handle(handle),
            id,
        ),
{
    let definition = types.at(handle);
    if let Outcome::Done(w0, id) = w.generate_id() {
        let w1 = w0.name(id, definition.name);
        let w2 = match definition.inner {
            TypeInner::Matrix { .. } => w1.annotate(
                crate::spv::instructions::op_decorate(
                    id,
                    spirv::Decoration::ColMajor,
                    Seq::empty(),
                ),
            ),
            _ => w1,
        };
        let part = match definition.inner {
            TypeInner::Vector { kind, width, .. } => LookupType::Local(
                LocalType::Scalar { kind, width },
            ),
            TypeInner::Matrix { columns, width, .. } => LookupType::Local(
                LocalType::Vector { size: columns, kind: ScalarKind::Float, width },
            ),
            TypeInner::Pointer { base, .. } => LookupType::Handle(base),
            _ => LookupType::Handle(handle),
        };
        if definition.inner is Vector || definition.inner is Matrix || definition.inner is Pointer {
            lemma_named_within(w2, types, part, depth);
            if let Outcome::Done(v, part_id) = w2.type_id_within(types, part, depth) {
                if let Outcome::Done(u, _) = w.declare_arena_type(types, handle, depth) {
                    let last = u.logical_layout.declarations.last();
                    assert(u.physical_layout == v.physical_layout);
                    lemma_names_declared(v, u, last, types, part, part_id);
                }
            }
        }
    }
}

proof fn lemma_image_declared(w: WriterView, types: Arena<Type>, handle: Handle<Type>, depth: nat)
    requires
        types.contains(handle),
        types.at(handle).inner is Image,
    ensures
        w.declare_arena_type(types, handle, depth) matches Outcome::Done(u, id) ==> is_last(
            u,
            types,
            LookupType::Handle(handle),
            id,
        ),
{
    let definition = types.at(handle);
    if let Outcome::Done(w0, id) = w.generate_id() {
        let w1 = w0.name(id, definition.name);
        let class = definition.inner->Image_class;
        let kind = match class {
            ImageClass::Sampled { kind, .. } => kind,
            ImageClass::Depth => ScalarKind::Float,
            ImageClass::Storage(format) => format.kind(),
        };
        assert(is_texel_kind(class, kind));
        let part = LookupType::Local(LocalType::Scalar { kind, width: 4 });
        lemma_named_within(w1, types, part, depth);
        if let Outcome::Done(v, part_id) = w1.type_id_within(types, part, depth) {
            if let Outcome::Done(u, _) = w.declare_arena_type(types, handle, depth) {
                let last = u.logical_layout.declarations.last();
                lemma_names_declared(v, u, last, types, part, part_id);
                if let ImageClass::Storage(storage) = class {
                    let format = crate::spv::instructions::storage_image_format(storage);
                    assert(format_of(format) == Some(storage));
                } else {
                    assert(format_of(spirv::ImageFormat::Unknown) is None);
                }
            }
        }
    }
}

proof fn lemma_array_declared(w: WriterView, types: Arena<Type>, handle: Handle<Type>, depth: nat)
    requires
        types.contains(handle),
        types.at(handle).inner is Array,
    ensures
        w.declare_arena_type(types, handle, depth) matches Outcome::Done(u, id) ==> is_last(
            u,
            types,
            LookupType::Handle(handle),
            id,
        ),
{
    let definition = types.at(handle);
    if let Outcome::Done(w0, id) = w.generate_id() {
        let stride = definition.inner->Array_stride;
        let w1 = w0.name(id, definition.name).decorate_stride(id, stride);
        let part = LookupType::Handle(definition.inner->Array_base);
        lemma_named_within(w1, types, part, depth);
        if let Outcome::Done(v, part_id) = w1.type_id_within(types, part, depth) {
            if let Outcome::Done(u, _) = w.declare_arena_type(types, handle, depth) {
                let last = u.logical_layout.declarations.last();
                lemma_names_declared(v, u, last, types, part, part_id);
            }
        }
    }
}

proof fn lemma_members_later(
    v: WriterView,
    w: WriterView,
    types: Arena<Type>,
    ids: Seq<Word>,
    members: Seq<StructMember>,
)
    requires
        lists_members(v, types, ids, members),
        comes_before(v, w),
    ensures
        lists_members(w, types, ids, members),
{
    assert forall|i: int| #![trigger ids[i]] 0 <= i < ids.len() implies names_type(
        w,
        types,
        LookupType::Handle(members[i].ty),
        ids[i],
    ) by {
        lemma_names_later(v, w, types, LookupType::Handle(members[i].ty), ids[i]);
    }
}

/// One more member.
proof fn lemma_member_listed(
    w: WriterView,
    v: WriterView,
    types: Arena<Type>,
    ids: Seq<Word>,
    members: Seq<StructMember>,
    i: nat,
    id: Word,
)
    requires
        i < members.len(),
        lists_members(w, types, ids, members.take(i as int)),
        comes_before(w, v),
        names_type(v, types, LookupType::Handle(members[i as int].ty), id),
    ensures
        lists_members(v, types, ids.push(id), members.take((i + 1) as int)),
{
    lemma_members_later(w, v, types, ids, members.take(i as int));
    let more = ids.push(id);
    assert forall|k: int| #![trigger more[k]] 0 <= k < more.len() implies names_type(
        v,
        types,
        LookupType::Handle(members.take((i + 1) as int)[k].ty),
        more[k],
    ) by {
        if k < i {
            assert(more[k] == ids[k]);
            assert(names_type(
                v,
                types,
                LookupType::Handle(members.take(i as int)[k].ty),
                ids[k],
            ));
        }
    }
}

proof fn lemma_plain_members(
    w: WriterView,
    types: Arena<Type>,
    members: Seq<StructMember>,
    i: nat,
    ids: Seq<Word>,
    depth: nat,
)
    requires
        i <= members.len(),
        lists_members(w, types, ids, members.take(i as int)),
    ensures
        w.plain_members(types, members, i, ids, depth) matches Outcome::Done(v, all)
            ==> lists_members(v, types, all, members),
    decreases members.len() - i,
{
    if i == members.len() {
        assert(members.take(i as int) =~= members);
    } else {
        let part = LookupType::Handle(members[i as int].ty);
        lemma_named_within(w, types, part, depth);
        if let Outcome::Done(v, id) = w.type_id_within(types, part, depth) {
            lemma_member_listed(w, v, types, ids, members, i, id);
            lemma_plain_members(v, types, members, i + 1, ids.push(id), depth);
        }
    }
}

proof fn lemma_block_members(
    w: WriterView,
    types: Arena<Type>,
    id: Word,
    members: Seq<StructMember>,
    i: nat,
    offset: u32,
    ids: Seq<Word>,
    depth: nat,
)
    requires
        i <= members.len(),
        lists_members(w, types, ids, members.take(i as int)),
    ensures
        w.block_members(types, id, members, i, offset, ids, depth) matches Outcome::Done(v, all)
            ==> lists_members(v, types, all, members),
    decreases members.len() - i,
{
    if i == members.len() {
        assert(members.take(i as int) =~= members);
    } else {
        let member = members[i as int];
        if let Outcome::Done(u, end) = w.place_member(types, id, member, i, offset) {
            let a = w.logical_layout.declarations;
            assert(u.logical_layout == w.logical_layout && u.id_count == w.id_count);
            assert(a.subrange(0, a.len() as int) =~= a);
            lemma_members_later(w, u, types, ids, members.take(i as int));
            let part = LookupType::Handle(member.ty);
            lemma_named_within(u, types, part, depth);
            if let Outcome::Done(v, member_id) = u.type_id_within(types, part, depth) {
                lemma_member_listed(u, v, types, ids, members, i, member_id);
                lemma_block_members(
                    v,
                    types,
                    id,
                    members,
                    i + 1,
                    end,
                    ids.push(member_id),
                    depth,
                );
            }
        }
    }
}

proof fn lemma_struct_declared(w: WriterView, types: Arena<Type>, handle: Handle<Type>, depth: nat)
    requires
        types.contains(handle),
        types.at(handle).inner is Struct,
    ensures
        w.declare_arena_type(types, handle, depth) matches Outcome::Done(u, id) ==> is_last(
            u,
            types,
            LookupType::Handle(handle),
            id,
        ),
{
    let definition = types.at(handle);
    if let Outcome::Done(w0, id) = w.generate_id() {
        let w1 = w0.name(id, definition.name);
        let members = definition.inner->Struct_members@;
        assert(members.take(0) =~= Seq::empty());
        let declared = if definition.inner->Struct_block {
            let w2 = w1.annotate(
                crate::spv::instructions::op_decorate(
                    id,
                    w1.block_decoration(handle),
                    Seq::empty(),
                ),
            );
            lemma_block_members(w2, types, id, members, 0, 0, Seq::empty(), depth);
            w2.block_members(types, id, members, 0, 0, Seq::empty(), depth)
        } else {
            lemma_plain_members(w1, types, members, 0, Seq::empty(), depth);
            w1.plain_members(types, members, 0, Seq::empty(), depth)
        };
        if let Outcome::Done(v, ids) = declared {
            if let Outcome::Done(u, _) = w.declare_arena_type(types, handle, depth) {
                let a = v.logical_layout.declarations;
                assert(u.logical_layout.declarations.subrange(0, a.len() as int) =~= a);
                lemma_members_later(v, u, types, ids, members);
            }
        }
    }
}

/// Reading the declaration of a type gives the type back: where anything is declared for one who
/// asks for a type, that type comes last, and its parts, which its declaration names, before it.
pub proof fn law_types_are_read_back(w: WriterView, types: Arena<Type>, ty: LookupType)
    ensures
        w.type_id(types, ty) matches Outcome::Done(v, id) ==> v == w || is_last(v, types, ty, id),
{
    reveal(WriterView::type_id);
    let depth = types.count();
    if !w.lookup_type.contains_key(ty) {
        match ty {
            LookupType::Local(local) => {
                lemma_local_declared(w, types, local, depth);
            },
            LookupType::Handle(handle) => {
                if types.contains(handle) {
                    match types.at(handle).inner {
                        TypeInner::Scalar { kind, width } => {
                            let local = LocalType::Scalar { kind, width };
                            let part = LookupType::Local(local);
                            lemma_local_declared(w, types, local, depth);
                            assert(w.type_id_within(types, ty, depth) == w.type_id_within(
                                types,
                                part,
                                depth,
                            ));
                            if !w.lookup_type.contains_key(part) {
                                assert(w.type_id_within(types, part, depth)
                                    == w.declare_local_type(types, local, depth));
                            }
                        },
                        TypeInner::Vector { size, kind, width } => {
                            let local = LocalType::Vector { size, kind, width };
                            let part = LookupType::Local(local);
                            lemma_local_declared(w, types, local, depth);
                            assert(w.type_id_within(types, ty, depth) == w.type_id_within(
                                types,
                                part,
                                depth,
                            ));
                            if !w.lookup_type.contains_key(part) {
                                assert(w.type_id_within(types, part, depth)
                                    == w.declare_local_type(types, local, depth));
                            }
                        },
                        TypeInner::Image { .. } => {
                            lemma_image_declared(w, types, handle, (depth - 1) as nat);
                        },
                        TypeInner::Array { .. } => {
                            lemma_array_declared(w, types, handle, (depth - 1) as nat);
                        },
                        TypeInner::Struct { .. } => {
                            lemma_struct_declared(w, types, handle, (depth - 1) as nat);
                        },
                        _ => {
                            lemma_plain_declared(w, types, handle, (depth - 1) as nat);
                        },
                    }
                }
            },
        }
    }
}

} // verus!

//! Declaring types.

use crate::arena::{Arena, Handle};
use crate::headers::dim_capabilities;
use crate::ir::{
    ArraySize, ImageClass, ImageDimension, ScalarKind, StructMember, Type, TypeInner,
    VariableClass, VectorSize,
};
use crate::layouter::{lemma_padding, padding, TypeLayout};
use crate::spv::error::Error;
use crate::spv::instruction::InstructionView;
use crate::spv::instructions::{
    instruction_decorate, instruction_member_decorate, instruction_member_name,
    instruction_type_array, instruction_type_function, instruction_type_image,
    instruction_type_matrix, instruction_type_pointer, instruction_type_runtime_array,
    instruction_type_sampled_image, instruction_type_sampler, instruction_type_struct,
    instruction_type_vector, instruction_type_void, op_decorate, op_member_decorate,
    op_member_name, op_type_array, op_type_function, op_type_image, op_type_matrix,
    op_type_pointer, op_type_runtime_array, op_type_sampled_image, op_type_sampler,
    op_type_struct, op_type_vector, op_type_void,
};
use crate::spv::lookup::{LocalType, LookupFunctionType, LookupType};
use crate::spv::model::{
    not_implemented, outcome, scalar_declaration, width_fits, Outcome, WriterView,
};
use crate::spv::words::Word;
use crate::spv::writer::Writer;
use spirv_headers as spirv;
use vstd::prelude::*;

verus! {

/// The dimension that an image is declared with.
pub open spec fn image_dim(dim: ImageDimension) -> spirv::Dim {
    match dim {
        ImageDimension::D1 => spirv::Dim::Dim1D,
        ImageDimension::D2 => spirv::Dim::Dim2D,
        ImageDimension::D3 => spirv::Dim::Dim2D,
        ImageDimension::Cube => spirv::Dim::DimCube,
    }
}

/// The dimension that an image is declared with.
pub fn map_dim(dim: ImageDimension) -> (spirv_dim: spirv::Dim)
    ensures
        spirv_dim == image_dim(dim),
{
    match dim {
        ImageDimension::D1 => spirv::Dim::Dim1D,
        ImageDimension::D2 => spirv::Dim::Dim2D,
        ImageDimension::D3 => spirv::Dim::Dim2D,
        ImageDimension::Cube => spirv::Dim::DimCube,
    }
}

/// The kind of the scalars that an image is made of.
pub open spec fn image_kind(class: ImageClass) -> ScalarKind {
    match class {
        ImageClass::Sampled { kind, .. } => kind,
        ImageClass::Depth => ScalarKind::Float,
        ImageClass::Storage(format) => format.kind(),
    }
}

/// A scalar type.
pub open spec fn scalar(kind: ScalarKind, width: u8) -> LookupType {
    LookupType::Local(LocalType::Scalar { kind, width })
}

/// A vector type.
pub open spec fn vector(size: VectorSize, kind: ScalarKind, width: u8) -> LookupType {
    LookupType::Local(LocalType::Vector { size, kind, width })
}

/// How many kinds of types come before this one: the declaration of a type refers to types of
/// earlier kinds, or to types that lie deeper in the arena.
pub open spec fn rank(ty: LookupType) -> nat {
    match ty {
        LookupType::Local(LocalType::Vector { .. }) => 1,
        LookupType::Local(LocalType::Matrix { .. }) => 2,
        LookupType::Handle(_) => 3,
        LookupType::Local(LocalType::SampledImage { .. }) => 4,
        LookupType::Local(_) => 0,
    }
}

/// The distance between the columns of a matrix that is a member of a structure, if it fits the
/// byte in which it is computed.
pub open spec fn matrix_stride(columns: VectorSize, width: u8) -> Option<u32> {
    let stride = match columns {
        VectorSize::Bi => 2 * width,
        VectorSize::Tri | VectorSize::Quad => 4 * width,
    };
    if stride <= u8::MAX {
        Some(stride as u32)
    } else {
        None
    }
}

impl WriterView {
    /// The identifier of a type, which is declared unless it was before. Types refer to one
    /// another at most `depth` deep.
    pub open spec fn type_id_within(self, types: Arena<Type>, ty: LookupType, depth: nat) -> Outcome<
        WriterView,
        Word,
    >
        decreases depth, 2 * rank(ty) + 1, 0nat,
    {
        if self.lookup_type.contains_key(ty) {
            Outcome::Done(self, self.lookup_type[ty])
        } else {
            match ty {
                LookupType::Handle(handle) => if !types.contains(handle) {
                    Outcome::Stuck
                } else {
                    match types.at(handle).inner {
                        TypeInner::Scalar { kind, width } => self.type_id_within(
                            types,
                            scalar(kind, width),
                            depth,
                        ),
                        TypeInner::Vector { size, kind, width } => self.type_id_within(
                            types,
                            vector(size, kind, width),
                            depth,
                        ),
                        _ => if depth == 0 {
                            Outcome::Stuck
                        } else {
                            self.declare_arena_type(types, handle, (depth - 1) as nat)
                        },
                    }
                },
                LookupType::Local(local) => self.declare_local_type(types, local, depth),
            }
        }
    }

    /// The declaration of `ty` as `id` is complete.
    pub open spec fn declare_type(self, ty: LookupType, id: Word, instruction: InstructionView) -> Outcome<
        WriterView,
        Word,
    > {
        Outcome::Done(self.remember_type(ty, id).declare(instruction), id)
    }

    /// Declares a type that is known by its structure.
    pub open spec fn declare_local_type(
        self,
        types: Arena<Type>,
        local: LocalType,
        depth: nat,
    ) -> Outcome<WriterView, Word>
        decreases depth, 2 * rank(LookupType::Local(local)), 0nat,
    {
        let ty = LookupType::Local(local);
        self.generate_id().bind(
            |w: WriterView, id: Word|
                match local {
                    LocalType::Void => Outcome::Stuck,
                    LocalType::Scalar { kind, width } => if width_fits(width) {
                        w.declare_type(ty, id, scalar_declaration(id, kind, width))
                    } else {
                        Outcome::Stuck
                    },
                    LocalType::Vector { size, kind, width } => w.type_id_within(
                        types,
                        scalar(kind, width),
                        depth,
                    ).bind(
                        |w: WriterView, scalar_id: Word|
                            w.declare_type(ty, id, op_type_vector(id, scalar_id, size)),
                    ),
                    LocalType::Matrix { columns, rows, width } => w.type_id_within(
                        types,
                        vector(rows, ScalarKind::Float, width),
                        depth,
                    ).bind(
                        |w: WriterView, vector_id: Word|
                            w.declare_type(ty, id, op_type_matrix(id, vector_id, columns)),
                    ),
                    LocalType::Pointer { .. } => not_implemented(w, "pointer declaration"@),
                    LocalType::SampledImage { image_type } => w.type_id_within(
                        types,
                        LookupType::Handle(image_type),
                        depth,
                    ).bind(
                        |w: WriterView, image_id: Word|
                            w.declare_type(ty, id, op_type_sampled_image(id, image_id)),
                    ),
                },
        )
    }

    /// Declares a type of the arena.
    pub open spec fn declare_arena_type(
        self,
        types: Arena<Type>,
        handle: Handle<Type>,
        depth: nat,
    ) -> Outcome<WriterView, Word>
        decreases depth, 20nat, 0nat,
    {
        let ty = LookupType::Handle(handle);
        let definition = types.at(handle);
        self.generate_id().bind(
            |w: WriterView, id: Word|
                {
                    let w = w.name(id, definition.name);
                    match definition.inner {
                        TypeInner::Scalar { kind, width } => if width_fits(width) {
                            w.remember_type(scalar(kind, width), id).declare_type(
                                ty,
                                id,
                                scalar_declaration(id, kind, width),
                            )
                        } else {
                            Outcome::Stuck
                        },
                        TypeInner::Vector { size, kind, width } => w.type_id_within(
                            types,
                            scalar(kind, width),
                            depth,
                        ).bind(
                            |w: WriterView, scalar_id: Word|
                                w.remember_type(vector(size, kind, width), id).declare_type(
                                    ty,
                                    id,
                                    op_type_vector(id, scalar_id, size),
                                ),
                        ),
                        TypeInner::Matrix { columns, rows, width } => w.annotate(
                            op_decorate(id, spirv::Decoration::ColMajor, Seq::empty()),
                        ).type_id_within(
                            types,
                            vector(columns, ScalarKind::Float, width),
                            depth,
                        ).bind(
                            |w: WriterView, vector_id: Word|
                                w.remember_type(
                                    LookupType::Local(LocalType::Matrix { columns, rows, width }),
                                    id,
                                ).declare_type(ty, id, op_type_matrix(id, vector_id, columns)),
                        ),
                        TypeInner::Image { dim, arrayed, class } => w.type_id_within(
                            types,
                            scalar(image_kind(class), 4),
                            depth,
                        ).bind(
                            |w: WriterView, type_id: Word|
                                w.check(dim_capabilities(image_dim(dim))).bind(
                                    |w: WriterView, _u: ()|
                                        w.declare_type(
                                            ty,
                                            id,
                                            op_type_image(
                                                id,
                                                type_id,
                                                image_dim(dim),
                                                arrayed,
                                                class,
                                            ),
                                        ),
                                ),
                        ),
                        TypeInner::Sampler { .. } => w.declare_type(ty, id, op_type_sampler(id)),
                        TypeInner::Array { base, size, stride } => w.decorate_stride(
                            id,
                            stride,
                        ).type_id_within(types, LookupType::Handle(base), depth).bind(
                            |w: WriterView, type_id: Word|
                                match size {
                                    ArraySize::Constant(length) => if w.lookup_constant.contains_key(
                                        length,
                                    ) {
                                        w.declare_type(
                                            ty,
                                            id,
                                            op_type_array(id, type_id, w.lookup_constant[length]),
                                        )
                                    } else {
                                        Outcome::Stuck
                                    },
                                    ArraySize::Dynamic => w.declare_type(
                                        ty,
                                        id,
                                        op_type_runtime_array(id, type_id),
                                    ),
                                },
                        ),
                        TypeInner::Struct { block, members } => {
                            let declared = if block {
                                w.annotate(
                                    op_decorate(id, w.block_decoration(handle), Seq::empty()),
                                ).block_members(types, id, members@, 0, 0, Seq::empty(), depth)
                            } else {
                                w.plain_members(types, members@, 0, Seq::empty(), depth)
                            };
                            declared.bind(
                                |w: WriterView, member_ids: Seq<Word>|
                                    w.declare_type(ty, id, op_type_struct(id, member_ids)),
                            )
                        },
                        TypeInner::Pointer { base, class } => w.type_id_within(
                            types,
                            LookupType::Handle(base),
                            depth,
                        ).bind(
                            |w: WriterView, type_id: Word|
                                w.remember_type(
                                    LookupType::Local(LocalType::Pointer { base, class }),
                                    id,
                                ).declare_type(
                                    ty,
                                    id,
                                    op_type_pointer(id, w.storage_class(class), type_id),
                                ),
                        ),
                    }
                },
        )
    }

    /// Decorates an array type with the distance between its elements, if one is given.
    pub open spec fn decorate_stride(self, id: Word, stride: Option<u32>) -> WriterView {
        match stride {
            Some(stride) => self.annotate(
                op_decorate(id, spirv::Decoration::ArrayStride, seq![stride]),
            ),
            None => self,
        }
    }

    /// The decoration of a structure that stands for a buffer.
    pub open spec fn block_decoration(self, handle: Handle<Type>) -> spirv::Decoration {
        if self.storage_type_handles.contains_key(handle) {
            spirv::Decoration::BufferBlock
        } else {
            spirv::Decoration::Block
        }
    }

    /// The identifiers of the types of `members` from the `i`-th on, behind `ids`.
    pub open spec fn plain_members(
        self,
        types: Arena<Type>,
        members: Seq<StructMember>,
        i: nat,
        ids: Seq<Word>,
        depth: nat,
    ) -> Outcome<WriterView, Seq<Word>>
        decreases depth, 15nat, members.len() - i,
    {
        if i >= members.len() {
            Outcome::Done(self, ids)
        } else {
            self.type_id_within(types, LookupType::Handle(members[i as int].ty), depth).bind(
                |w: WriterView, id: Word|
                    w.plain_members(types, members, i + 1, ids.push(id), depth),
            )
        }
    }

    /// The step that places the `i`-th member of the structure `id`, decorates and names it.
    /// The members before it end at `offset`; the result is where this one ends.
    pub open spec fn place_member(
        self,
        types: Arena<Type>,
        id: Word,
        member: StructMember,
        i: nat,
        offset: u32,
    ) -> Outcome<WriterView, u32> {
        if member.ty.index >= self.layouts.len() || !types.contains(member.ty) {
            Outcome::Stuck
        } else {
            let layout = self.layouts[member.ty.index as int];
            let start = offset + padding(layout.alignment, offset as int);
            let end = start + (match member.span {
                Some(span) => span,
                None => layout.size,
            });
            if layout.alignment == 0 || end > u32::MAX {
                Outcome::Stuck
            } else {
                let w = self.annotate(
                    op_member_decorate(
                        id,
                        i as u32,
                        spirv::Decoration::Offset,
                        seq![start as u32],
                    ),
                );
                let w = match member.name {
                    Some(name) => w.note(op_member_name(id, i as u32, name@)),
                    None => w,
                };
                match types.at(member.ty).inner {
                    TypeInner::Matrix { columns, width, .. } => match matrix_stride(
                        columns,
                        width,
                    ) {
                        Some(stride) => Outcome::Done(
                            w.annotate(
                                op_member_decorate(
                                    id,
                                    i as u32,
                                    spirv::Decoration::MatrixStride,
                                    seq![stride],
                                ),
                            ),
                            end as u32,
                        ),
                        None => Outcome::Stuck,
                    },
                    _ => Outcome::Done(w, end as u32),
                }
            }
        }
    }

    /// Places the members of a structure that stands for a buffer from the `i`-th on, and
    /// returns the identifiers of their types, behind `ids`.
    pub open spec fn block_members(
        self,
        types: Arena<Type>,
        id: Word,
        members: Seq<StructMember>,
        i: nat,
        offset: u32,
        ids: Seq<Word>,
        depth: nat,
    ) -> Outcome<WriterView, Seq<Word>>
        decreases depth, 15nat, members.len() - i,
    {
        if i >= members.len() {
            Outcome::Done(self, ids)
        } else {
            let member = members[i as int];
            self.place_member(types, id, member, i, offset).bind(
                |w: WriterView, end: u32|
                    w.type_id_within(types, LookupType::Handle(member.ty), depth).bind(
                        |w: WriterView, member_id: Word|
                            w.block_members(
                                types,
                                id,
                                members,
                                i + 1,
                                end,
                                ids.push(member_id),
                                depth,
                            ),
                    ),
            )
        }
    }

    /// The identifier of a type, which is declared unless it was before.
    #[verifier::opaque]
    pub open spec fn type_id(self, types: Arena<Type>, ty: LookupType) -> Outcome<
        WriterView,
        Word,
    > {
        self.type_id_within(types, ty, types.count())
    }

    /// The identifier of what a function returns: of a type, or of the type without values.
    #[verifier::opaque]
    pub open spec fn return_type_id(self, types: Arena<Type>, ty: Option<Handle<Type>>) -> Outcome<
        WriterView,
        Word,
    > {
        match ty {
            Some(handle) => self.type_id(types, LookupType::Handle(handle)),
            None => match self.void_type {
                Some(id) => Outcome::Done(self, id),
                None => self.generate_id().bind(
                    |w: WriterView, id: Word|
                        Outcome::Done(
                            (WriterView { void_type: Some(id), ..w }).declare(op_type_void(id)),
                            id,
                        ),
                ),
            },
        }
    }

    /// The identifier of the type of pointers to values of a type. A type of pointers stands
    /// for itself.
    #[verifier::opaque]
    pub open spec fn pointer_id(
        self,
        types: Arena<Type>,
        handle: Handle<Type>,
        class: VariableClass,
    ) -> Outcome<WriterView, Word> {
        let ty = LookupType::Local(LocalType::Pointer { base: handle, class });
        self.type_id(types, LookupType::Handle(handle)).bind(
            |w: WriterView, type_id: Word|
                if !types.contains(handle) {
                    Outcome::Stuck
                } else if types.at(handle).inner is Pointer {
                    Outcome::Done(w, type_id)
                } else if w.lookup_type.contains_key(ty) {
                    Outcome::Done(w, w.lookup_type[ty])
                } else {
                    w.generate_id().bind(
                        |w: WriterView, id: Word|
                            Outcome::Done(
                                w.declare(
                                    op_type_pointer(id, w.storage_class(class), type_id),
                                ).remember_type(ty, id),
                                id,
                            ),
                    )
                },
        )
    }

    /// Declares a type of pointers that is not looked up again.
    #[verifier::opaque]
    pub open spec fn new_pointer_type(
        self,
        types: Arena<Type>,
        ty: LookupType,
        class: spirv::StorageClass,
    ) -> Outcome<WriterView, (Word, LookupType)> {
        self.type_id(types, ty).bind(
            |w: WriterView, type_id: Word|
                w.generate_id().bind(
                    |w: WriterView, id: Word|
                        Outcome::Done(w.declare(op_type_pointer(id, class, type_id)), (id, ty)),
                ),
        )
    }

    /// The identifier of a type of functions, which is declared unless it was before.
    pub open spec fn function_type_id(
        self,
        parameter_type_ids: Seq<Word>,
        return_type_id: Word,
    ) -> Outcome<WriterView, Word> {
        let key = (parameter_type_ids, return_type_id);
        if self.lookup_function_type.contains_key(key) {
            Outcome::Done(self, self.lookup_function_type[key])
        } else {
            self.generate_id().bind(
                |w: WriterView, id: Word|
                    Outcome::Done(
                        w.declare(
                            op_type_function(id, return_type_id, parameter_type_ids),
                        ).remember_function_type(parameter_type_ids, return_type_id, id),
                        id,
                    ),
            )
        }
    }
}

/// The members of a structure that stands for a buffer do not overlap, and each is aligned as
/// its type wants it: a member starts where the members before it end or later, at a multiple of
/// its alignment, and takes what its span says or, where that is missing, what its type takes.
pub proof fn law_members_are_placed(
    w: WriterView,
    types: Arena<Type>,
    id: Word,
    member: StructMember,
    i: nat,
    offset: u32,
)
    ensures
        w.place_member(types, id, member, i, offset) matches Outcome::Done(v, end) ==> {
            let layout = w.layouts[member.ty.index as int];
            exists|start: u32|
                {
                    &&& offset <= start < offset + layout.alignment
                    &&& start as int % layout.alignment as int == 0
                    &&& end == start + (match member.span {
                        Some(span) => span,
                        None => layout.size,
                    })
                    &&& v.annotations.len() > w.annotations.len()
                    &&& v.annotations[w.annotations.len() as int]
                        == #[trigger] op_member_decorate(
                        id,
                        i as u32,
                        spirv::Decoration::Offset,
                        seq![start],
                    )
                }
        },
{
    if let Outcome::Done(v, end) = w.place_member(types, id, member, i, offset) {
        let layout = w.layouts[member.ty.index as int];
        lemma_padding(layout.alignment, offset as int);
        let start = (offset + padding(layout.alignment, offset as int)) as u32;
        let placed = op_member_decorate(
            id,
            i as u32,
            spirv::Decoration::Offset,
            seq![start],
        );
        assert(v.annotations[w.annotations.len() as int] == placed);
    }
}

impl Writer {
    fn type_id_within(
        &mut self,
        types: &Arena<Type>,
        ty: LookupType,
        Ghost(depth): Ghost<nat>,
    ) -> (result: Result<Word, Error>)
        requires
            !(old(self)@.type_id_within(*types, ty, depth) is Stuck),
        ensures
            outcome(final(self)@, result) == old(self)@.type_id_within(*types, ty, depth),
        decreases depth, 2 * rank(ty) + 1, 0nat,
    {
        if let Some(id) = self.find_type(ty) {
            return Ok(id);
        }
        match ty {
            LookupType::Handle(handle) => match &types.get(handle).inner {
                TypeInner::Scalar { kind, width } => self.type_id_within(
                    types,
                    LookupType::Local(LocalType::Scalar { kind: *kind, width: *width }),
                    Ghost(depth),
                ),
                TypeInner::Vector { size, kind, width } => self.type_id_within(
                    types,
                    LookupType::Local(
                        LocalType::Vector { size: *size, kind: *kind, width: *width },
                    ),
                    Ghost(depth),
                ),
                _ => self.write_type_declaration_arena(types, handle, Ghost((depth - 1) as nat)),
            },
            LookupType::Local(local) => self.write_type_declaration_local(
                types,
                local,
                Ghost(depth),
            ),
        }
    }

    fn write_type_declaration_local(
        &mut self,
        types: &Arena<Type>,
        local: LocalType,
        Ghost(depth): Ghost<nat>,
    ) -> (result: Result<Word, Error>)
        requires
            !(old(self)@.declare_local_type(*types, local, depth) is Stuck),
        ensures
            outcome(final(self)@, result) == old(self)@.declare_local_type(*types, local, depth),
        decreases depth, 2 * rank(LookupType::Local(local)), 0nat,
    {
        let id = self.generate_id();
        let instruction = match local {
            LocalType::Void => {
                assert(false);
                return Ok(id);
            },
            LocalType::Scalar { kind, width } => self.write_scalar(id, kind, width),
            LocalType::Vector { size, kind, width } => {
                let scalar_id = self.type_id_within(
                    types,
                    LookupType::Local(LocalType::Scalar { kind, width }),
                    Ghost(depth),
                )?;
                instruction_type_vector(id, scalar_id, size)
            },
            LocalType::Matrix { columns, rows, width } => {
                let vector_id = self.type_id_within(
                    types,
                    LookupType::Local(
                        LocalType::Vector { size: rows, kind: ScalarKind::Float, width },
                    ),
                    Ghost(depth),
                )?;
                instruction_type_matrix(id, vector_id, columns)
            },
            LocalType::Pointer { .. } => {
                return Err(Error::FeatureNotImplemented("pointer declaration"));
            },
            LocalType::SampledImage { image_type } => {
                let image_type_id = self.type_id_within(
                    types,
                    LookupType::Handle(image_type),
                    Ghost(depth),
                )?;
                instruction_type_sampled_image(id, image_type_id)
            },
        };
        self.remember_type(LookupType::Local(local), id);
        self.declare(&instruction);
        Ok(id)
    }

    fn write_type_declaration_arena(
        &mut self,
        types: &Arena<Type>,
        handle: Handle<Type>,
        Ghost(depth): Ghost<nat>,
    ) -> (result: Result<Word, Error>)
        requires
            types.contains(handle),
            !(old(self)@.declare_arena_type(*types, handle, depth) is Stuck),
        ensures
            outcome(final(self)@, result) == old(self)@.declare_arena_type(*types, handle, depth),
        decreases depth, 20nat, 0nat,
    {
        let ty = types.get(handle);
        let id = self.generate_id();
        self.name(id, &ty.name);
        let instruction = match &ty.inner {
            TypeInner::Scalar { kind, width } => {
                self.remember_type(
                    LookupType::Local(LocalType::Scalar { kind: *kind, width: *width }),
                    id,
                );
                self.write_scalar(id, *kind, *width)
            },
            TypeInner::Vector { size, kind, width } => {
                let scalar_id = self.type_id_within(
                    types,
                    LookupType::Local(LocalType::Scalar { kind: *kind, width: *width }),
                    Ghost(depth),
                )?;
                self.remember_type(
                    LookupType::Local(
                        LocalType::Vector { size: *size, kind: *kind, width: *width },
                    ),
                    id,
                );
                instruction_type_vector(id, scalar_id, *size)
            },
            TypeInner::Matrix { columns, rows, width } => {
                self.annotate(instruction_decorate(id, spirv::Decoration::ColMajor, &[]));
                let vector_id = self.type_id_within(
                    types,
                    LookupType::Local(
                        LocalType::Vector {
                            size: *columns,
                            kind: ScalarKind::Float,
                            width: *width,
                        },
                    ),
                    Ghost(depth),
                )?;
                self.remember_type(
                    LookupType::Local(
                        LocalType::Matrix { columns: *columns, rows: *rows, width: *width },
                    ),
                    id,
                );
                instruction_type_matrix(id, vector_id, *columns)
            },
            TypeInner::Image { dim, arrayed, class } => {
                let kind = match class {
                    ImageClass::Sampled { kind, .. } => *kind,
                    ImageClass::Depth => ScalarKind::Float,
                    ImageClass::Storage(format) => format.scalar_kind(),
                };
                let type_id = self.type_id_within(
                    types,
                    LookupType::Local(LocalType::Scalar { kind, width: 4 }),
                    Ghost(depth),
                )?;
                let spirv_dim = map_dim(*dim);
                self.check(spirv_dim.required_capabilities())?;
                instruction_type_image(id, type_id, spirv_dim, *arrayed, *class)
            },
            TypeInner::Sampler { .. } => instruction_type_sampler(id),
            TypeInner::Array { base, size, stride } => {
                if let Some(array_stride) = stride {
                    let operands = [*array_stride];
                    assert(operands@ =~= seq![*array_stride]);
                    self.annotate(
                        instruction_decorate(id, spirv::Decoration::ArrayStride, &operands),
                    );
                }
                let type_id = self.type_id_within(
                    types,
                    LookupType::Handle(*base),
                    Ghost(depth),
                )?;
                match size {
                    ArraySize::Constant(length) => {
                        let length_id: Word = match self.find_constant(*length) {
                            Some(length_id) => length_id,
                            None => {
                                assert(false);
                                0
                            },
                        };
                        instruction_type_array(id, type_id, length_id)
                    },
                    ArraySize::Dynamic => instruction_type_runtime_array(id, type_id),
                }
            },
            TypeInner::Struct { block, members } => {
                let member_ids = if *block {
                    let decoration = if self.is_storage_type(handle) {
                        spirv::Decoration::BufferBlock
                    } else {
                        spirv::Decoration::Block
                    };
                    self.annotate(instruction_decorate(id, decoration, &[]));
                    self.write_block_members(types, id, members, Ghost(depth))?
                } else {
                    self.write_plain_members(types, members, Ghost(depth))?
                };
                instruction_type_struct(id, member_ids.as_slice())
            },
            TypeInner::Pointer { base, class } => {
                let type_id = self.type_id_within(
                    types,
                    LookupType::Handle(*base),
                    Ghost(depth),
                )?;
                self.remember_type(
                    LookupType::Local(LocalType::Pointer { base: *base, class: *class }),
                    id,
                );
                instruction_type_pointer(id, self.parse_to_spirv_storage_class(*class), type_id)
            },
        };
        self.remember_type(LookupType::Handle(handle), id);
        self.declare(&instruction);
        Ok(id)
    }

    /// The identifiers of the types of `members`.
    fn write_plain_members(
        &mut self,
        types: &Arena<Type>,
        members: &Vec<StructMember>,
        Ghost(depth): Ghost<nat>,
    ) -> (result: Result<Vec<Word>, Error>)
        requires
            !(old(self)@.plain_members(*types, members@, 0, Seq::empty(), depth) is Stuck),
        ensures
            listed(final(self)@, result) == old(self)@.plain_members(
                *types,
                members@,
                0,
                Seq::empty(),
                depth,
            ),
        decreases depth, 16nat, 0nat,
    {
        let mut ids: Vec<Word> = Vec::new();
        let mut i: usize = 0;
        let ghost whole = self@.plain_members(*types, members@, 0, Seq::empty(), depth);
        assert(ids@ =~= Seq::empty());
        while i < members.len()
            invariant
                i <= members@.len(),
                !(whole is Stuck),
                whole == old(self)@.plain_members(*types, members@, 0, Seq::empty(), depth),
                whole == self@.plain_members(*types, members@, i as nat, ids@, depth),
            decreases members@.len() - i,
        {
            let id = self.type_id_within(
                types,
                LookupType::Handle(members[i].ty),
                Ghost(depth),
            )?;
            ids.push(id);
            i = i + 1;
        }
        Ok(ids)
    }

    /// Places the `i`-th member of the structure `id`, decorates and names it.
    fn write_member(
        &mut self,
        types: &Arena<Type>,
        id: Word,
        member: &StructMember,
        i: usize,
        offset: u32,
    ) -> (end: u32)
        requires
            !(old(self)@.place_member(*types, id, *member, i as nat, offset) is Stuck),
        ensures
            Outcome::Done(final(self)@, end) == old(self)@.place_member(
                *types,
                id,
                *member,
                i as nat,
                offset,
            ),
    {
        let layout: TypeLayout = self.layout(member.ty);
        proof {
            lemma_padding(layout.alignment, offset as int);
        }
        let start: u32 = offset + layout.pad(offset);
        let operands = [start];
        assert(operands@ =~= seq![start]);
        self.annotate(
            instruction_member_decorate(id, i as u32, spirv::Decoration::Offset, &operands),
        );
        let end: u32 = start + match member.span {
            Some(span) => span,
            None => layout.size,
        };
        if let Some(name) = &member.name {
            self.note(instruction_member_name(id, i as u32, name.as_str()));
        }
        if let TypeInner::Matrix { columns, width, .. } = &types.get(member.ty).inner {
            let byte_stride: u8 = match columns {
                VectorSize::Bi => 2 * *width,
                VectorSize::Tri | VectorSize::Quad => 4 * *width,
            };
            let operands = [byte_stride as u32];
            assert(operands@ =~= seq![byte_stride as u32]);
            self.annotate(
                instruction_member_decorate(
                    id,
                    i as u32,
                    spirv::Decoration::MatrixStride,
                    &operands,
                ),
            );
        }
        end
    }

    /// Places the members of a structure that stands for a buffer, and returns the identifiers
    /// of their types.
    fn write_block_members(
        &mut self,
        types: &Arena<Type>,
        id: Word,
        members: &Vec<StructMember>,
        Ghost(depth): Ghost<nat>,
    ) -> (result: Result<Vec<Word>, Error>)
        requires
            !(old(self)@.block_members(
                *types,
                id,
                members@,
                0,
                0,
                Seq::empty(),
                depth,
            ) is Stuck),
        ensures
            listed(final(self)@, result) == old(self)@.block_members(
                *types,
                id,
                members@,
                0,
                0,
                Seq::empty(),
                depth,
            ),
        decreases depth, 16nat, 0nat,
    {
        let mut ids: Vec<Word> = Vec::new();
        let mut offset: u32 = 0;
        let mut i: usize = 0;
        let ghost whole = self@.block_members(*types, id, members@, 0, 0, Seq::empty(), depth);
        assert(ids@ =~= Seq::empty());
        while i < members.len()
            invariant
                i <= members@.len(),
                !(whole is Stuck),
                whole == old(self)@.block_members(
                    *types,
                    id,
                    members@,
                    0,
                    0,
                    Seq::empty(),
                    depth,
                ),
                whole == self@.block_members(
                    *types,
                    id,
                    members@,
                    i as nat,
                    offset,
                    ids@,
                    depth,
                ),
            decreases members@.len() - i,
        {
            let member = &members[i];
            offset = self.write_member(types, id, member, i, offset);
            let member_id = self.type_id_within(
                types,
                LookupType::Handle(member.ty),
                Ghost(depth),
            )?;
            ids.push(member_id);
            i = i + 1;
        }
        Ok(ids)
    }

    /// The identifier of a type, which is declared unless it was before.
    pub fn get_type_id(&mut self, types: &Arena<Type>, ty: LookupType) -> (result: Result<
        Word,
        Error,
    >)
        requires
            !(old(self)@.type_id(*types, ty) is Stuck),
        ensures
            outcome(final(self)@, result) == old(self)@.type_id(*types, ty),
    {
        proof {
            reveal(WriterView::type_id);
        }
        self.type_id_within(types, ty, Ghost(types.count()))
    }

    /// The identifier of what a function returns.
    pub fn get_function_return_type(
        &mut self,
        ty: Option<Handle<Type>>,
        types: &Arena<Type>,
    ) -> (result: Result<Word, Error>)
        requires
            !(old(self)@.return_type_id(*types, ty) is Stuck),
        ensures
            outcome(final(self)@, result) == old(self)@.return_type_id(*types, ty),
    {
        proof {
            reveal(WriterView::return_type_id);
        }
        match ty {
            Some(handle) => self.get_type_id(types, LookupType::Handle(handle)),
            None => match self.void_type() {
                Some(id) => Ok(id),
                None => {
                    let id = self.generate_id();
                    self.set_void_type(id);
                    self.declare(&instruction_type_void(id));
                    Ok(id)
                },
            },
        }
    }

    /// The identifier of the type of pointers to values of a type.
    pub fn get_pointer_id(
        &mut self,
        types: &Arena<Type>,
        handle: Handle<Type>,
        class: VariableClass,
    ) -> (result: Result<Word, Error>)
        requires
            !(old(self)@.pointer_id(*types, handle, class) is Stuck),
        ensures
            outcome(final(self)@, result) == old(self)@.pointer_id(*types, handle, class),
    {
        proof {
            reveal(WriterView::pointer_id);
        }
        let type_id = self.get_type_id(types, LookupType::Handle(handle))?;
        if let TypeInner::Pointer { .. } = &types.get(handle).inner {
            return Ok(type_id);
        }
        let ty = LookupType::Local(LocalType::Pointer { base: handle, class });
        match self.find_type(ty) {
            Some(id) => Ok(id),
            None => {
                let storage_class = self.parse_to_spirv_storage_class(class);
                let id = self.generate_id();
                self.declare(&instruction_type_pointer(id, storage_class, type_id));
                self.remember_type(ty, id);
                Ok(id)
            },
        }
    }

    /// Declares a type of pointers that is not looked up again.
    pub fn create_pointer_type(
        &mut self,
        ty: LookupType,
        class: spirv::StorageClass,
        types: &Arena<Type>,
    ) -> (result: Result<(Word, LookupType), Error>)
        requires
            !(old(self)@.new_pointer_type(*types, ty, class) is Stuck),
        ensures
            outcome(final(self)@, result) == old(self)@.new_pointer_type(*types, ty, class),
    {
        proof {
            reveal(WriterView::new_pointer_type);
        }
        let type_id = self.get_type_id(types, ty)?;
        let id = self.generate_id();
        self.declare(&instruction_type_pointer(id, class, type_id));
        Ok((id, ty))
    }

    /// The identifier of a type of functions.
    pub fn get_function_type(&mut self, ty: LookupFunctionType) -> (id: Word)
        requires
            !(old(self)@.function_type_id(ty.parameter_type_ids@, ty.return_type_id) is Stuck),
        ensures
            Outcome::Done(final(self)@, id) == old(self)@.function_type_id(
                ty.parameter_type_ids@,
                ty.return_type_id,
            ),
    {
        match self.find_function_type(&ty) {
            Some(id) => id,
            None => {
                let id = self.generate_id();
                self.declare(
                    &instruction_type_function(
                        id,
                        ty.return_type_id,
                        ty.parameter_type_ids.as_slice(),
                    ),
                );
                self.remember_function_type(ty, id);
                id
            },
        }
    }
}

/// What values of a type look like, if the writer can tell.
pub open spec fn type_inner(types: Arena<Type>, ty: LookupType) -> Option<TypeInner> {
    match ty {
        LookupType::Handle(handle) => if types.contains(handle) {
            Some(types.at(handle).inner)
        } else {
            None
        },
        LookupType::Local(LocalType::Scalar { kind, width }) => Some(
            TypeInner::Scalar { kind, width },
        ),
        LookupType::Local(LocalType::Vector { size, kind, width }) => Some(
            TypeInner::Vector { size, kind, width },
        ),
        LookupType::Local(LocalType::Matrix { columns, rows, width }) => Some(
            TypeInner::Matrix { columns, rows, width },
        ),
        LookupType::Local(LocalType::Pointer { base, class }) => Some(
            TypeInner::Pointer { base, class },
        ),
        LookupType::Local(LocalType::Void) => None,
        LookupType::Local(LocalType::SampledImage { .. }) => None,
    }
}

/// A value, or a reference to one.
pub enum MaybeOwned<'a, T> {
    Owned(T),
    Borrowed(&'a T),
}

impl<'a, T> MaybeOwned<'a, T> {
    pub open spec fn value(self) -> T {
        match self {
            MaybeOwned::Owned(value) => value,
            MaybeOwned::Borrowed(reference) => *reference,
        }
    }
}

impl<'a, T> std::ops::Deref for MaybeOwned<'a, T> {
    type Target = T;

    fn deref(&self) -> (value: &T)
        ensures
            *value == self.value(),
    {
        match self {
            MaybeOwned::Owned(value) => value,
            MaybeOwned::Borrowed(reference) => *reference,
        }
    }
}

impl Writer {
    /// What values of a type look like.
    pub fn get_type_inner<'a>(&self, types: &'a Arena<Type>, ty: LookupType) -> (inner: MaybeOwned<
        'a,
        TypeInner,
    >)
        requires
            type_inner(*types, ty) is Some,
        ensures
            Some(inner.value()) == type_inner(*types, ty),
    {
        match ty {
            LookupType::Handle(handle) => MaybeOwned::Borrowed(&types.get(handle).inner),
            LookupType::Local(local) => match local {
                LocalType::Scalar { kind, width } => MaybeOwned::Owned(
                    TypeInner::Scalar { kind, width },
                ),
                LocalType::Vector { size, kind, width } => MaybeOwned::Owned(
                    TypeInner::Vector { size, kind, width },
                ),
                LocalType::Matrix { columns, rows, width } => MaybeOwned::Owned(
                    TypeInner::Matrix { columns, rows, width },
                ),
                LocalType::Pointer { base, class } => MaybeOwned::Owned(
                    TypeInner::Pointer { base, class },
                ),
                LocalType::Void | LocalType::SampledImage { .. } => {
                    assert(false);
                    MaybeOwned::Owned(TypeInner::Sampler { comparison: false })
                },
            },
        }
    }
}

/// How a step ended that left `state` behind and returned a list.
pub open spec fn listed<S>(state: S, result: Result<Vec<Word>, Error>) -> Outcome<S, Seq<Word>> {
    match result {
        Ok(list) => Outcome::Done(state, list@),
        Err(error) => Outcome::Fail(state, error@),
    }
}

} // verus!

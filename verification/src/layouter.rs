//! Sizes and alignments of the types of a module.

use crate::arena::{Arena, Handle};
use crate::ir::{
    ArraySize, Constant, ConstantInner, ScalarValue, StructMember, Type, TypeInner, VectorSize,
};
use vstd::prelude::*;

verus! {

/// The room that a value of a type takes, and the multiples at which it may be placed.
#[derive(Clone, Copy, Debug)]
pub struct TypeLayout {
    pub size: u32,
    pub alignment: u32,
}

/// The number of bytes from `offset` up to the next multiple of `alignment`.
pub open spec fn padding(alignment: u32, offset: int) -> int {
    (alignment - offset % (alignment as int)) % (alignment as int)
}

impl TypeLayout {
    /// The number of bytes to leave free after `offset` before a value of the type is placed.
    pub fn pad(&self, offset: u32) -> (bytes: u32)
        requires
            self.alignment > 0,
        ensures
            bytes == padding(self.alignment, offset as int),
            (offset + bytes) % (self.alignment as int) == 0,
            bytes < self.alignment,
    {
        let rest: u32 = offset % self.alignment;
        proof {
            lemma_padding(self.alignment, offset as int);
        }
        if rest == 0 {
            0
        } else {
            self.alignment - rest
        }
    }
}

/// Padding is the least number of bytes that leads to a multiple of the alignment.
pub proof fn lemma_padding(alignment: u32, offset: int)
    requires
        alignment > 0,
        offset >= 0,
    ensures
        0 <= padding(alignment, offset) < alignment,
        (offset + padding(alignment, offset)) % (alignment as int) == 0,
        offset % (alignment as int) == 0 ==> padding(alignment, offset) == 0,
        offset % (alignment as int) != 0 ==> padding(alignment, offset) == alignment - offset % (
        alignment as int),
{
    let a = alignment as int;
    let rest = offset % a;
    vstd::arithmetic::div_mod::lemma_fundamental_div_mod(offset, a);
    vstd::arithmetic::div_mod::lemma_mod_bound(offset, a);
    if rest == 0 {
        vstd::arithmetic::div_mod::lemma_mod_self_0(a);
    } else {
        vstd::arithmetic::div_mod::lemma_small_mod((a - rest) as nat, a as nat);
        let q = offset / a;
        assert(offset + (a - rest) == a * (q + 1)) by (nonlinear_arith)
            requires
                offset == a * q + rest,
        ;
        vstd::arithmetic::div_mod::lemma_mod_multiples_basic(q + 1, a);
        assert((q + 1) * a == a * (q + 1)) by (nonlinear_arith);
    }
}

/// The number of elements that an array of size `size` is laid out with: a dynamically sized
/// one has at least one element. `None` where the size is no constant that can be a length.
pub open spec fn array_count(size: ArraySize, constants: Arena<Constant>) -> Option<u32> {
    match size {
        ArraySize::Dynamic => Some(1),
        ArraySize::Constant(handle) => if constants.contains(handle) {
            match constants.at(handle).inner {
                ConstantInner::Scalar { value: ScalarValue::Uint(value), .. } => if value
                    <= u32::MAX {
                    Some(value as u32)
                } else {
                    None
                },
                ConstantInner::Scalar { value: ScalarValue::Sint(value), .. } => if 0 <= value
                    <= u32::MAX {
                    Some(value as u32)
                } else {
                    None
                },
                _ => None,
            }
        } else {
            None
        },
    }
}

/// The alignment of a vector: one of three components is aligned as one of four.
pub open spec fn vector_alignment(size: VectorSize, width: u8) -> u32 {
    match size {
        VectorSize::Bi => (2 * width) as u32,
        VectorSize::Tri | VectorSize::Quad => (4 * width) as u32,
    }
}

/// Places the first `n` of `members` one after another, each at a multiple of its alignment:
/// the end of the last one, and the largest alignment among them.
pub open spec fn place_members(members: Seq<StructMember>, layouts: Seq<TypeLayout>, n: nat) -> Option<
    (u32, u32),
>
    decreases n,
{
    if n == 0 {
        Some((0, 1))
    } else {
        match place_members(members, layouts, (n - 1) as nat) {
            Some((total, alignment)) => {
                let member = members[n - 1];
                if member.ty.index < layouts.len() {
                    let layout = layouts[member.ty.index as int];
                    let end = total + padding(layout.alignment, total as int) + (match member.span {
                        Some(span) => span,
                        None => layout.size,
                    });
                    if end <= u32::MAX {
                        Some(
                            (
                                end as u32,
                                if layout.alignment > alignment {
                                    layout.alignment
                                } else {
                                    alignment
                                },
                            ),
                        )
                    } else {
                        None
                    }
                } else {
                    None
                }
            },
            None => None,
        }
    }
}

/// The layout of a type, given those of the types before it in the arena. `None` where the type
/// cannot be laid out: it refers to itself or to a later type, or its size does not fit a word.
pub open spec fn type_layout(
    inner: TypeInner,
    constants: Arena<Constant>,
    layouts: Seq<TypeLayout>,
) -> Option<TypeLayout> {
    match inner {
        TypeInner::Scalar { width, .. } => if width > 0 {
            Some(TypeLayout { size: width as u32, alignment: width as u32 })
        } else {
            None
        },
        TypeInner::Vector { size, width, .. } => if width > 0 {
            Some(
                TypeLayout {
                    size: size.times(width as int) as u32,
                    alignment: vector_alignment(size, width),
                },
            )
        } else {
            None
        },
        TypeInner::Matrix { columns, rows, width } => if width > 0 {
            Some(
                TypeLayout {
                    size: columns.times(vector_alignment(rows, width) as int) as u32,
                    alignment: vector_alignment(rows, width),
                },
            )
        } else {
            None
        },
        TypeInner::Pointer { .. } => Some(TypeLayout { size: 4, alignment: 1 }),
        TypeInner::Array { base, size, stride } => if base.index < layouts.len() {
            let layout = layouts[base.index as int];
            match array_count(size, constants) {
                Some(count) => {
                    let step = match stride {
                        Some(stride) => stride as int,
                        None => layout.size + padding(layout.alignment, layout.size as int),
                    };
                    if step <= u32::MAX && count * step <= u32::MAX {
                        Some(
                            TypeLayout {
                                size: (count * step) as u32,
                                alignment: layout.alignment,
                            },
                        )
                    } else {
                        None
                    }
                },
                None => None,
            }
        } else {
            None
        },
        TypeInner::Struct { members, .. } => match place_members(
            members@,
            layouts,
            members@.len(),
        ) {
            Some((total, alignment)) => {
                let size = total + padding(alignment, total as int);
                if size <= u32::MAX {
                    Some(TypeLayout { size: size as u32, alignment })
                } else {
                    None
                }
            },
            None => None,
        },
        TypeInner::Image { .. } | TypeInner::Sampler { .. } => Some(
            TypeLayout { size: 0, alignment: 1 },
        ),
    }
}

/// The layouts of the first `n` types, or `None` where one of them cannot be laid out.
pub open spec fn type_layouts(types: Seq<Type>, constants: Arena<Constant>, n: nat) -> Option<
    Seq<TypeLayout>,
>
    decreases n,
{
    if n == 0 {
        Some(Seq::empty())
    } else {
        match type_layouts(types, constants, (n - 1) as nat) {
            Some(layouts) => match type_layout(types[n - 1].inner, constants, layouts) {
                Some(layout) => Some(layouts.push(layout)),
                None => None,
            },
            None => None,
        }
    }
}

/// Every alignment among `layouts` is at least one.
pub open spec fn aligned(layouts: Seq<TypeLayout>) -> bool {
    forall|i: int| 0 <= i < layouts.len() ==> (#[trigger] layouts[i]).alignment > 0
}

/// Where the first `n` types have layouts, so have any fewer.
proof fn lemma_type_layouts_prefix(types: Seq<Type>, constants: Arena<Constant>, i: nat, n: nat)
    requires
        i <= n,
        type_layouts(types, constants, n) is Some,
    ensures
        type_layouts(types, constants, i) is Some,
    decreases n,
{
    if i < n {
        lemma_type_layouts_prefix(types, constants, i, (n - 1) as nat);
    }
}

/// Where the first `n` members have places, so have any fewer.
proof fn lemma_place_members_prefix(
    members: Seq<StructMember>,
    layouts: Seq<TypeLayout>,
    i: nat,
    n: nat,
)
    requires
        i <= n,
        place_members(members, layouts, n) is Some,
    ensures
        place_members(members, layouts, i) is Some,
    decreases n,
{
    if i < n {
        lemma_place_members_prefix(members, layouts, i, (n - 1) as nat);
    }
}

proof fn lemma_place_members_aligned(
    members: Seq<StructMember>,
    layouts: Seq<TypeLayout>,
    n: nat,
)
    requires
        place_members(members, layouts, n) is Some,
    ensures
        place_members(members, layouts, n) matches Some((_, alignment)) ==> alignment > 0,
    decreases n,
{
    if n > 0 {
        lemma_place_members_aligned(members, layouts, (n - 1) as nat);
    }
}

/// Every type that can be laid out has an alignment of at least one.
pub proof fn lemma_type_layouts_aligned(types: Seq<Type>, constants: Arena<Constant>, n: nat)
    requires
        type_layouts(types, constants, n) is Some,
    ensures
        type_layouts(types, constants, n)->0.len() == n,
        aligned(type_layouts(types, constants, n)->0),
    decreases n,
{
    if n > 0 {
        lemma_type_layouts_aligned(types, constants, (n - 1) as nat);
        let layouts = type_layouts(types, constants, (n - 1) as nat)->0;
        match types[n - 1].inner {
            TypeInner::Struct { members, .. } => {
                lemma_place_members_aligned(members@, layouts, members@.len());
            },
            _ => {},
        }
    }
}

/// Finds the layouts of the types of a module, and hands them out by handle.
#[derive(Debug)]
pub struct Layouter {
    layouts: Vec<TypeLayout>,
}

impl View for Layouter {
    type V = Seq<TypeLayout>;

    closed spec fn view(&self) -> Seq<TypeLayout> {
        self.layouts@
    }
}

impl Layouter {
    pub fn new() -> (layouter: Self)
        ensures
            layouter@ == Seq::<TypeLayout>::empty(),
    {
        Layouter { layouts: Vec::new() }
    }

    /// So many times `unit` as `size` says.
    fn times(size: VectorSize, unit: u32) -> (product: u32)
        requires
            unit <= 1020,
        ensures
            product == size.times(unit as int),
    {
        match size {
            VectorSize::Bi => 2 * unit,
            VectorSize::Tri => 3 * unit,
            VectorSize::Quad => 4 * unit,
        }
    }

    /// The alignment of a vector.
    fn vector(size: VectorSize, width: u8) -> (alignment: u32)
        ensures
            alignment == vector_alignment(size, width),
            alignment <= 1020,
    {
        match size {
            VectorSize::Bi => 2 * (width as u32),
            VectorSize::Tri | VectorSize::Quad => 4 * (width as u32),
        }
    }

    /// The number of elements that an array is laid out with.
    fn count(size: &ArraySize, constants: &Arena<Constant>) -> (count: u32)
        requires
            array_count(*size, *constants) is Some,
        ensures
            array_count(*size, *constants) == Some(count),
    {
        match size {
            ArraySize::Dynamic => 1,
            ArraySize::Constant(handle) => match &constants.get(*handle).inner {
                ConstantInner::Scalar { value: ScalarValue::Uint(value), .. } => *value as u32,
                ConstantInner::Scalar { value: ScalarValue::Sint(value), .. } => *value as u32,
                _ => 1,
            },
        }
    }

    /// The end of the last of `members` and the largest alignment among them.
    fn place(members: &Vec<StructMember>, layouts: &Vec<TypeLayout>) -> (placed: (u32, u32))
        requires
            place_members(members@, layouts@, members@.len()) is Some,
            aligned(layouts@),
        ensures
            place_members(members@, layouts@, members@.len()) == Some(placed),
    {
        let mut total: u32 = 0;
        let mut alignment: u32 = 1;
        let mut i: usize = 0;
        while i < members.len()
            invariant
                i <= members@.len(),
                place_members(members@, layouts@, members@.len()) is Some,
                place_members(members@, layouts@, i as nat) == Some((total, alignment)),
                aligned(layouts@),
            decreases members@.len() - i,
        {
            proof {
                lemma_place_members_prefix(members@, layouts@, (i + 1) as nat, members@.len());
            }
            let member = &members[i];
            let layout: TypeLayout = layouts[member.ty.index as usize];
            proof {
                lemma_padding(layout.alignment, total as int);
            }
            let start: u32 = total + layout.pad(total);
            total = start + match member.span {
                Some(span) => span,
                None => layout.size,
            };
            if layout.alignment > alignment {
                alignment = layout.alignment;
            }
            i = i + 1;
        }
        (total, alignment)
    }

    /// The layout of a type, given those of the types before it.
    fn layout(inner: &TypeInner, constants: &Arena<Constant>, layouts: &Vec<TypeLayout>) -> (layout:
        TypeLayout)
        requires
            type_layout(*inner, *constants, layouts@) is Some,
            aligned(layouts@),
        ensures
            type_layout(*inner, *constants, layouts@) == Some(layout),
    {
        match inner {
            TypeInner::Scalar { width, .. } => {
                TypeLayout { size: *width as u32, alignment: *width as u32 }
            },
            TypeInner::Vector { size, width, .. } => {
                TypeLayout {
                    size: Self::times(*size, *width as u32),
                    alignment: Self::vector(*size, *width),
                }
            },
            TypeInner::Matrix { columns, rows, width } => {
                let alignment: u32 = Self::vector(*rows, *width);
                TypeLayout { size: Self::times(*columns, alignment), alignment }
            },
            TypeInner::Pointer { .. } => TypeLayout { size: 4, alignment: 1 },
            TypeInner::Array { base, size, stride } => {
                let layout: TypeLayout = layouts[base.index as usize];
                let count: u32 = Self::count(size, constants);
                proof {
                    lemma_padding(layout.alignment, layout.size as int);
                }
                let step: u32 = match stride {
                    Some(stride) => *stride,
                    None => layout.size + layout.pad(layout.size),
                };
                TypeLayout { size: count * step, alignment: layout.alignment }
            },
            TypeInner::Struct { members, .. } => {
                let (total, alignment) = Self::place(members, layouts);
                proof {
                    lemma_place_members_aligned(members@, layouts@, members@.len());
                    lemma_padding(alignment, total as int);
                }
                let end = TypeLayout { size: total, alignment };
                TypeLayout { size: total + end.pad(total), alignment }
            },
            TypeInner::Image { .. } | TypeInner::Sampler { .. } => {
                TypeLayout { size: 0, alignment: 1 }
            },
        }
    }

    /// Lays out all of `types`, in the order of the arena.
    pub fn initialize(&mut self, types: &Arena<Type>, constants: &Arena<Constant>)
        requires
            type_layouts(types.data@, *constants, types.count()) is Some,
        ensures
            Some(final(self)@) == type_layouts(types.data@, *constants, types.count()),
    {
        let mut layouts: Vec<TypeLayout> = Vec::new();
        let mut i: usize = 0;
        while i < types.len()
            invariant
                i <= types.count(),
                type_layouts(types.data@, *constants, types.count()) is Some,
                Some(layouts@) == type_layouts(types.data@, *constants, i as nat),
            decreases types.count() - i,
        {
            proof {
                lemma_type_layouts_prefix(
                    types.data@,
                    *constants,
                    (i + 1) as nat,
                    types.count(),
                );
                lemma_type_layouts_aligned(types.data@, *constants, i as nat);
            }
            let layout = Self::layout(&types.data[i].inner, constants, &layouts);
            layouts.push(layout);
            i = i + 1;
        }
        self.layouts = layouts;
    }

    /// The layout of the type that `handle` refers to.
    pub fn resolve(&self, handle: Handle<Type>) -> (layout: TypeLayout)
        requires
            handle.index < self@.len(),
        ensures
            layout == self@[handle.index as int],
    {
        self.layouts[handle.index as usize]
    }
}

} // verus!

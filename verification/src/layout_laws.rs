//! What the sizes and alignments of types are good for.

use crate::arena::Arena;
use crate::ir::{Constant, ScalarKind, StructMember, TypeInner, VectorSize};
use crate::layouter::{
    array_count, lemma_padding, padding, place_members, type_layout, TypeLayout,
};
use vstd::prelude::*;

verus! {

/// How many components a vector has.
pub open spec fn components(size: VectorSize) -> int {
    match size {
        VectorSize::Bi => 2,
        VectorSize::Tri => 3,
        VectorSize::Quad => 4,
    }
}

/// A scalar takes its width and is aligned to it. A vector takes as much as its components, and
/// is aligned to as much as two or four of them take, whatever is enough.
pub proof fn law_vectors_hold_their_components(
    size: VectorSize,
    kind: ScalarKind,
    width: u8,
    constants: Arena<Constant>,
    layouts: Seq<TypeLayout>,
)
    requires
        width > 0,
    ensures
        type_layout(TypeInner::Scalar { kind, width }, constants, layouts) == Some(
            TypeLayout { size: width as u32, alignment: width as u32 },
        ),
        type_layout(TypeInner::Vector { size, kind, width }, constants, layouts) matches Some(layout)
            && {
            &&& layout.size == components(size) * width
            &&& layout.alignment == 2 * width || layout.alignment == 4 * width
            &&& layout.size <= layout.alignment < layout.size + 2 * width
        },
{
}

/// A matrix takes as much as its columns, each of which is a vector and takes as much as it is
/// aligned to.
pub proof fn law_matrices_hold_their_columns(
    columns: VectorSize,
    rows: VectorSize,
    width: u8,
    constants: Arena<Constant>,
    layouts: Seq<TypeLayout>,
)
    requires
        width > 0,
    ensures
        (
            type_layout(TypeInner::Matrix { columns, rows, width }, constants, layouts),
            type_layout(
                TypeInner::Vector { size: rows, kind: ScalarKind::Float, width },
                constants,
                layouts,
            ),
        ) matches (Some(layout), Some(column)) && {
            &&& layout.alignment == column.alignment
            &&& layout.size == components(columns) * column.alignment
        },
{
}

/// An array takes as much as its elements with the room between them. They are as far apart as
/// the array says, or, where it does not, as close as their alignment lets them. An array whose
/// length is not known takes as much as one element.
pub proof fn law_arrays_hold_their_elements(
    inner: TypeInner,
    constants: Arena<Constant>,
    layouts: Seq<TypeLayout>,
) -> (step: int)
    requires
        inner is Array,
        inner->Array_base.index < layouts.len(),
        layouts[inner->Array_base.index as int].alignment > 0,
    ensures
        type_layout(inner, constants, layouts) matches Some(layout) ==> {
            let element = layouts[inner->Array_base.index as int];
            &&& array_count(inner->Array_size, constants) is Some
            &&& layout.alignment == element.alignment
            &&& layout.size == array_count(inner->Array_size, constants)->0 * step
            &&& inner->Array_size is Dynamic ==> layout.size == step
            &&& match inner->Array_stride {
                Some(stride) => step == stride,
                None => {
                    &&& element.size <= step < element.size + element.alignment
                    &&& step % (element.alignment as int) == 0
                },
            }
        },
{
    let element = layouts[inner->Array_base.index as int];
    lemma_padding(element.alignment, element.size as int);
    match inner->Array_stride {
        Some(stride) => stride as int,
        None => element.size + padding(element.alignment, element.size as int),
    }
}

/// The room that a member takes.
pub open spec fn member_room(member: StructMember, layouts: Seq<TypeLayout>) -> int {
    match member.span {
        Some(span) => span as int,
        None => layouts[member.ty.index as int].size as int,
    }
}

/// Whether the members lie one behind the other up to `end`, each at a multiple of its alignment.
pub open spec fn follow_one_another(
    starts: Seq<int>,
    members: Seq<StructMember>,
    layouts: Seq<TypeLayout>,
    end: int,
) -> bool {
    &&& starts.len() == members.len()
    &&& forall|i: int| 0 <= i < starts.len() ==> #[trigger] starts_well(starts, members, layouts, i)
    &&& end == if starts.len() == 0 {
        0
    } else {
        starts.last() + member_room(members.last(), layouts)
    }
}

/// Whether the `i`-th member starts as soon as it can behind the ones in front of it.
pub open spec fn starts_well(
    starts: Seq<int>,
    members: Seq<StructMember>,
    layouts: Seq<TypeLayout>,
    i: int,
) -> bool {
    let alignment = layouts[members[i].ty.index as int].alignment as int;
    let before = if i == 0 {
        0
    } else {
        starts[i - 1] + member_room(members[i - 1], layouts)
    };
    &&& before <= starts[i] < before + alignment
    &&& starts[i] % alignment == 0
}

proof fn lemma_members(
    members: Seq<StructMember>,
    layouts: Seq<TypeLayout>,
    n: nat,
) -> (starts: Seq<int>)
    requires
        n <= members.len(),
        forall|i: int| 0 <= i < layouts.len() ==> (#[trigger] layouts[i]).alignment > 0,
    ensures
        place_members(members, layouts, n) matches Some((total, alignment)) ==> {
            &&& follow_one_another(starts, members.take(n as int), layouts, total as int)
            &&& alignment > 0
            &&& forall|i: int|
                0 <= i < n ==> layouts[(#[trigger] members[i]).ty.index as int].alignment
                    <= alignment
            &&& alignment == 1 || exists|i: int|
                0 <= i < n && layouts[(#[trigger] members[i]).ty.index as int].alignment
                    == alignment
        },
    decreases n,
{
    if n == 0 {
        Seq::empty()
    } else {
        let before = lemma_members(members, layouts, (n - 1) as nat);
        if let Some((total, alignment)) = place_members(members, layouts, (n - 1) as nat) {
            let member = members[n - 1];
            let layout = layouts[member.ty.index as int];
            let start = total + padding(layout.alignment, total as int);
            let starts = before.push(start);
            if let Some((end, most)) = place_members(members, layouts, n) {
                lemma_padding(layout.alignment, total as int);
                let shorter = members.take(n - 1);
                let longer = members.take(n as int);
                assert forall|i: int| 0 <= i < starts.len() implies #[trigger] starts_well(
                    starts,
                    longer,
                    layouts,
                    i,
                ) by {
                    if i < n - 1 {
                        assert(starts_well(before, shorter, layouts, i));
                        assert(shorter[i] == longer[i]);
                        if i > 0 {
                            assert(shorter[i - 1] == longer[i - 1]);
                        }
                    } else if i > 0 {
                        assert(shorter.last() == longer[i - 1]);
                    }
                }
                assert(longer.last() == member);
                if most == layout.alignment {
                    assert(layouts[members[n - 1].ty.index as int].alignment == most);
                }
            }
            starts
        } else {
            Seq::empty()
        }
    }
}

/// The members of a structure lie in it one behind the other. It is aligned as its members want
/// it, and takes as much as they do, up to a multiple of its alignment.
pub proof fn law_structures_hold_their_members(
    inner: TypeInner,
    constants: Arena<Constant>,
    layouts: Seq<TypeLayout>,
) -> (r: (Seq<int>, int))
    requires
        inner is Struct,
        forall|i: int| 0 <= i < layouts.len() ==> (#[trigger] layouts[i]).alignment > 0,
    ensures
        type_layout(inner, constants, layouts) matches Some(layout) ==> {
            let members = inner->Struct_members@;
            let (starts, end) = r;
            &&& follow_one_another(starts, members, layouts, end)
            &&& end <= layout.size < end + layout.alignment
            &&& layout.size as int % layout.alignment as int == 0
            &&& forall|i: int|
                0 <= i < members.len() ==> layouts[(#[trigger] members[i]).ty.index as int].alignment
                    <= layout.alignment
            &&& layout.alignment == 1 || exists|i: int|
                0 <= i < members.len() && layouts[(
                #[trigger] members[i]).ty.index as int].alignment == layout.alignment
        },
{
    let members = inner->Struct_members@;
    let starts = lemma_members(members, layouts, members.len());
    assert(members.take(members.len() as int) =~= members);
    if let Some((total, alignment)) = place_members(members, layouts, members.len()) {
        lemma_padding(alignment, total as int);
        (starts, total as int)
    } else {
        (starts, 0)
    }
}

} // verus!

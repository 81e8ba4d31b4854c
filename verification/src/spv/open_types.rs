//! A type of the arena is not declared within its own declaration.
//!
//! While a type is being declared, the types that it refers to are. A type that would be declared
//! again on the way would have to wait for itself.

use crate::arena::{Arena, Handle};
use crate::ir::{ScalarKind, StructMember, Type, TypeInner};
use crate::spv::instructions::op_decorate;
use crate::spv::lookup::{LocalType, LookupType};
use crate::spv::model::{Outcome, WriterView};
use crate::spv::types::{image_kind, rank, scalar, vector};
use crate::spv::words::Word;
use spirv_headers as spirv;
use vstd::prelude::*;

verus! {

/// Whether a type of the arena is remembered by its handle. Scalars and vectors are remembered
/// by their structure.
pub open spec fn is_named(types: Arena<Type>, handle: Handle<Type>) -> bool {
    &&& types.contains(handle)
    &&& !(types.at(handle).inner is Scalar)
    &&& !(types.at(handle).inner is Vector)
}

/// Whether a type refers to the type `other`.
pub open spec fn refers_to(inner: TypeInner, other: Handle<Type>) -> bool {
    match inner {
        TypeInner::Array { base, .. } => base == other,
        TypeInner::Pointer { base, .. } => base == other,
        TypeInner::Struct { members, .. } => exists|i: int|
            0 <= i < members@.len() && (#[trigger] members@[i]).ty == other,
        _ => false,
    }
}

/// Whether each of the types that are being declared waits for one of them, or for `next`.
pub open spec fn wait_for(types: Arena<Type>, open: Set<Handle<Type>>, next: Handle<Type>) -> bool {
    forall|handle: Handle<Type>| #[trigger]
        open.contains(handle) ==> is_named(types, handle) && waits_for(types, handle, open, next)
}

/// Whether a type refers to one that is being declared, or to `next`.
pub open spec fn waits_for(
    types: Arena<Type>,
    handle: Handle<Type>,
    open: Set<Handle<Type>>,
    next: Handle<Type>,
) -> bool {
    exists|other: Handle<Type>| #[trigger]
        refers_to(types.at(handle).inner, other) && (open.contains(other) || other == next)
}

/// Whether none of the types that are being declared is remembered.
pub open spec fn are_open(w: WriterView, open: Set<Handle<Type>>) -> bool {
    forall|handle: Handle<Type>| #[trigger]
        open.contains(handle) ==> !w.lookup_type.contains_key(LookupType::Handle(handle))
}

/// Whether `v` remembers the types that `w` does and others, but none of those that are being
/// declared, and no more images with samplers.
#[verifier::opaque]
pub open spec fn stay_open(w: WriterView, v: WriterView, open: Set<Handle<Type>>) -> bool {
    &&& forall|ty: LookupType| #[trigger]
        w.lookup_type.contains_key(ty) ==> v.lookup_type.contains_key(ty)
    &&& are_open(w, open) ==> are_open(v, open)
    &&& forall|image_type: Handle<Type>| #[trigger]
        v.lookup_type.contains_key(LookupType::Local(LocalType::SampledImage { image_type }))
            ==> w.lookup_type.contains_key(
            LookupType::Local(LocalType::SampledImage { image_type }),
        )
}

broadcast proof fn lemma_same_types(w: WriterView, v: WriterView, open: Set<Handle<Type>>)
    requires
        v.lookup_type == w.lookup_type,
    ensures
        #[trigger] stay_open(w, v, open),
{
    reveal(stay_open);
}

proof fn lemma_stay_open(a: WriterView, b: WriterView, c: WriterView, open: Set<Handle<Type>>)
    requires
        stay_open(a, b, open),
        stay_open(b, c, open),
    ensures
        stay_open(a, c, open),
{
    reveal(stay_open);
}

/// A type is remembered that is not being declared.
proof fn lemma_remember_other(w: WriterView, ty: LookupType, id: Word, open: Set<Handle<Type>>)
    requires
        ty matches LookupType::Handle(handle) ==> !open.contains(handle),
        !(ty matches LookupType::Local(LocalType::SampledImage { .. })),
    ensures
        stay_open(w, w.remember_type(ty, id), open),
{
    reveal(stay_open);
}

/// Neither the types that are being declared nor an image with its sampler is declared with
/// another type.
pub proof fn lemma_type_open(
    w: WriterView,
    types: Arena<Type>,
    ty: LookupType,
    depth: nat,
    open: Set<Handle<Type>>,
)
    requires
        are_open(w, open),
        ty matches LookupType::Handle(handle) ==> wait_for(types, open, handle),
        !(ty matches LookupType::Local(LocalType::SampledImage { .. })),
    ensures
        w.type_id_within(types, ty, depth) matches Outcome::Done(v, _) ==> stay_open(w, v, open)
            && (ty matches LookupType::Handle(handle) ==> (is_named(types, handle)
            ==> v.lookup_type.contains_key(ty))),
    decreases depth, 2 * rank(ty) + 1, 0nat,
{
    broadcast use lemma_same_types;
    if !w.lookup_type.contains_key(ty) {
        match ty {
            LookupType::Handle(handle) => {
                if types.contains(handle) {
                    match types.at(handle).inner {
                        TypeInner::Scalar { kind, width } => {
                            lemma_type_open(w, types, scalar(kind, width), depth, open);
                        },
                        TypeInner::Vector { size, kind, width } => {
                            lemma_type_open(w, types, vector(size, kind, width), depth, open);
                        },
                        _ => {
                            if depth > 0 {
                                lemma_arena_type_open(
                                    w,
                                    types,
                                    handle,
                                    (depth - 1) as nat,
                                    open,
                                );
                            }
                        },
                    }
                }
            },
            LookupType::Local(local) => {
                lemma_local_type_open(w, types, local, depth, open);
            },
        }
    } else {
        assert(stay_open(w, w, open));
    }
}

proof fn lemma_local_type_open(
    w: WriterView,
    types: Arena<Type>,
    local: LocalType,
    depth: nat,
    open: Set<Handle<Type>>,
)
    requires
        are_open(w, open),
        !(local is SampledImage),
    ensures
        w.declare_local_type(types, local, depth) matches Outcome::Done(v, _) ==> stay_open(
            w,
            v,
            open,
        ),
    decreases depth, 2 * rank(LookupType::Local(local)), 0nat,
{
    if let Outcome::Done(b, id) = w.generate_id() {
        lemma_same_types(w, b, open);
        let ty = LookupType::Local(local);
        match local {
            LocalType::Scalar { .. } => {
                lemma_declared(w, b, ty, id, open, w.declare_local_type(types, local, depth));
            },
            LocalType::Vector { kind, width, .. } => {
                let part = scalar(kind, width);
                lemma_type_open(b, types, part, depth, open);
                if let Outcome::Done(v, _) = b.type_id_within(types, part, depth) {
                    lemma_stay_open(w, b, v, open);
                    lemma_declared(w, v, ty, id, open, w.declare_local_type(types, local, depth));
                }
            },
            LocalType::Matrix { rows, width, .. } => {
                let part = vector(rows, ScalarKind::Float, width);
                lemma_type_open(b, types, part, depth, open);
                if let Outcome::Done(v, _) = b.type_id_within(types, part, depth) {
                    lemma_stay_open(w, b, v, open);
                    lemma_declared(w, v, ty, id, open, w.declare_local_type(types, local, depth));
                }
            },
            _ => {},
        }
    }
}

/// A step that ends by remembering a type.
proof fn lemma_declared(
    w: WriterView,
    v: WriterView,
    ty: LookupType,
    id: Word,
    open: Set<Handle<Type>>,
    step: Outcome<WriterView, Word>,
)
    requires
        stay_open(w, v, open),
        ty matches LookupType::Handle(handle) ==> !open.contains(handle),
        !(ty matches LookupType::Local(LocalType::SampledImage { .. })),
        step matches Outcome::Done(x, _) ==> x.lookup_type == v.lookup_type.insert(ty, id),
    ensures
        step matches Outcome::Done(x, _) ==> stay_open(w, x, open),
{
    if let Outcome::Done(x, _) = step {
        let y = v.remember_type(ty, id);
        lemma_remember_other(v, ty, id, open);
        lemma_stay_open(w, v, y, open);
        lemma_same_types(y, x, open);
        lemma_stay_open(w, y, x, open);
    }
}

/// The types that are being declared while one that `handle` refers to is.
proof fn lemma_wait_for(
    types: Arena<Type>,
    open: Set<Handle<Type>>,
    handle: Handle<Type>,
    next: Handle<Type>,
)
    requires
        is_named(types, handle),
        wait_for(types, open, handle),
        refers_to(types.at(handle).inner, next),
    ensures
        wait_for(types, open.insert(handle), next),
{
    let more = open.insert(handle);
    assert forall|h: Handle<Type>| #[trigger] more.contains(h) implies is_named(types, h)
        && waits_for(types, h, more, next) by {
        if h == handle {
            assert(refers_to(types.at(h).inner, next) && next == next);
        } else {
            assert(waits_for(types, h, open, handle));
            let other = choose|other: Handle<Type>| #[trigger]
                refers_to(types.at(h).inner, other) && (open.contains(other) || other == handle);
            assert(refers_to(types.at(h).inner, other) && more.contains(other));
        }
    }
}

/// Fewer types are being declared.
proof fn lemma_fewer_open(
    w: WriterView,
    v: WriterView,
    open: Set<Handle<Type>>,
    handle: Handle<Type>,
)
    requires
        are_open(w, open.insert(handle)),
        stay_open(w, v, open.insert(handle)),
    ensures
        stay_open(w, v, open),
        are_open(v, open.insert(handle)),
{
    reveal(stay_open);
    assert(are_open(v, open)) by {
        assert forall|h: Handle<Type>| #[trigger] open.contains(h) implies
            !v.lookup_type.contains_key(LookupType::Handle(h)) by {
            assert(open.insert(handle).contains(h));
        }
    }
}

/// A type that is being declared cannot be done before what it waits for.
proof fn lemma_not_again(
    types: Arena<Type>,
    open: Set<Handle<Type>>,
    handle: Handle<Type>,
    v: WriterView,
)
    requires
        wait_for(types, open, handle),
        are_open(v, open.insert(handle)),
        forall|other: Handle<Type>| #[trigger]
            refers_to(types.at(handle).inner, other) && is_named(types, other)
                ==> v.lookup_type.contains_key(LookupType::Handle(other)),
    ensures
        !open.contains(handle),
{
    if open.contains(handle) {
        assert(waits_for(types, handle, open, handle));
        let other = choose|other: Handle<Type>| #[trigger]
            refers_to(types.at(handle).inner, other) && (open.contains(other) || other == handle);
        assert(open.contains(other));
        assert(open.insert(handle).contains(other));
    }
}

/// What the declaration of a type of the arena is made of: what is declared before, and what is
/// remembered then.
proof fn lemma_arena_declared(
    w: WriterView,
    types: Arena<Type>,
    handle: Handle<Type>,
    open: Set<Handle<Type>>,
    a: WriterView,
    v: WriterView,
    other: Option<LookupType>,
    id: Word,
    step: Outcome<WriterView, Word>,
)
    requires
        are_open(w, open),
        wait_for(types, open, handle),
        !w.lookup_type.contains_key(LookupType::Handle(handle)),
        a.lookup_type == w.lookup_type,
        stay_open(a, v, open.insert(handle)),
        forall|other: Handle<Type>| #[trigger]
            refers_to(types.at(handle).inner, other) && is_named(types, other)
                ==> v.lookup_type.contains_key(LookupType::Handle(other)),
        other matches Some(ty) ==> ty is Local && !(ty matches LookupType::Local(
            LocalType::SampledImage { .. },
        )),
        step matches Outcome::Done(x, _) ==> x.lookup_type == match other {
            Some(ty) => v.lookup_type.insert(ty, id).insert(LookupType::Handle(handle), id),
            None => v.lookup_type.insert(LookupType::Handle(handle), id),
        },
    ensures
        step matches Outcome::Done(x, _) ==> stay_open(w, x, open),
{
    assert(are_open(a, open.insert(handle)));
    lemma_fewer_open(a, v, open, handle);
    lemma_not_again(types, open, handle, v);
    lemma_same_types(w, a, open);
    lemma_stay_open(w, a, v, open);
    match other {
        Some(ty) => {
            let y = v.remember_type(ty, id);
            lemma_remember_other(v, ty, id, open);
            lemma_stay_open(w, v, y, open);
            lemma_declared(w, y, LookupType::Handle(handle), id, open, step);
        },
        None => {
            lemma_declared(w, v, LookupType::Handle(handle), id, open, step);
        },
    }
}

proof fn lemma_arena_type_open(
    w: WriterView,
    types: Arena<Type>,
    handle: Handle<Type>,
    depth: nat,
    open: Set<Handle<Type>>,
)
    requires
        is_named(types, handle),
        are_open(w, open),
        wait_for(types, open, handle),
        !w.lookup_type.contains_key(LookupType::Handle(handle)),
    ensures
        w.declare_arena_type(types, handle, depth) matches Outcome::Done(v, _) ==> stay_open(
            w,
            v,
            open,
        ) && v.lookup_type.contains_key(LookupType::Handle(handle)),
    decreases depth, 20nat, 0nat,
{
    let more = open.insert(handle);
    let step = w.declare_arena_type(types, handle, depth);
    if let Outcome::Done(b, id) = w.generate_id() {
        let a = b.name(id, types.at(handle).name);
        lemma_same_types(a, a, more);
        match types.at(handle).inner {
            TypeInner::Matrix { columns, rows, width } => {
                let x = a.annotate(op_decorate(id, spirv::Decoration::ColMajor, Seq::empty()));
                let part = vector(columns, ScalarKind::Float, width);
                let other = LookupType::Local(LocalType::Matrix { columns, rows, width });
                lemma_type_open(x, types, part, depth, more);
                if let Outcome::Done(v, _) = x.type_id_within(types, part, depth) {
                    lemma_arena_declared(w, types, handle, open, x, v, Some(other), id, step);
                }
            },
            TypeInner::Image { class, .. } => {
                let part = scalar(image_kind(class), 4);
                lemma_type_open(a, types, part, depth, more);
                if let Outcome::Done(v, _) = a.type_id_within(types, part, depth) {
                    lemma_arena_declared(w, types, handle, open, a, v, None, id, step);
                }
            },
            TypeInner::Array { base, stride, .. } => {
                let x = a.decorate_stride(id, stride);
                let part = LookupType::Handle(base);
                lemma_wait_for(types, open, handle, base);
                lemma_type_open(x, types, part, depth, more);
                if let Outcome::Done(v, _) = x.type_id_within(types, part, depth) {
                    lemma_arena_declared(w, types, handle, open, x, v, None, id, step);
                }
            },
            TypeInner::Struct { block, members } => {
                assert forall|k: int| 0 <= k < members@.len() implies wait_for(
                    types,
                    more,
                    (#[trigger] members@[k]).ty,
                ) by {
                    lemma_wait_for(types, open, handle, members@[k].ty);
                }
                let none = Seq::<Word>::empty();
                if block {
                    let x = a.annotate(op_decorate(id, a.block_decoration(handle), Seq::empty()));
                    lemma_block_members_open(x, types, id, members@, 0, 0, none, depth, more);
                    if let Outcome::Done(v, _) = x.block_members(
                        types,
                        id,
                        members@,
                        0,
                        0,
                        none,
                        depth,
                    ) {
                        lemma_arena_declared(w, types, handle, open, x, v, None, id, step);
                    }
                } else {
                    lemma_plain_members_open(a, types, members@, 0, none, depth, more);
                    if let Outcome::Done(v, _) = a.plain_members(types, members@, 0, none, depth) {
                        lemma_arena_declared(w, types, handle, open, a, v, None, id, step);
                    }
                }
            },
            TypeInner::Pointer { base, class } => {
                let part = LookupType::Handle(base);
                let other = LookupType::Local(LocalType::Pointer { base, class });
                lemma_wait_for(types, open, handle, base);
                lemma_type_open(a, types, part, depth, more);
                if let Outcome::Done(v, _) = a.type_id_within(types, part, depth) {
                    lemma_arena_declared(w, types, handle, open, a, v, Some(other), id, step);
                }
            },
            _ => {
                lemma_arena_declared(w, types, handle, open, a, a, None, id, step);
            },
        }
    }
}

/// The members of a structure from the `i`-th on.
proof fn lemma_plain_members_open(
    w: WriterView,
    types: Arena<Type>,
    members: Seq<StructMember>,
    i: nat,
    ids: Seq<Word>,
    depth: nat,
    open: Set<Handle<Type>>,
)
    requires
        are_open(w, open),
        forall|k: int| 0 <= k < members.len() ==> wait_for(types, open, (#[trigger] members[k]).ty),
    ensures
        w.plain_members(types, members, i, ids, depth) matches Outcome::Done(v, _) ==> stay_open(
            w,
            v,
            open,
        ) && (forall|k: int|
            i <= k < members.len() && is_named(types, (#[trigger] members[k]).ty)
                ==> v.lookup_type.contains_key(LookupType::Handle(members[k].ty))),
    decreases depth, 15nat, members.len() - i,
{
    broadcast use lemma_same_types;
    if i < members.len() {
        let ty = LookupType::Handle(members[i as int].ty);
        lemma_type_open(w, types, ty, depth, open);
        if let Outcome::Done(x, id) = w.type_id_within(types, ty, depth) {
            lemma_still_open(w, x, open);
            lemma_plain_members_open(x, types, members, i + 1, ids.push(id), depth, open);
            if let Outcome::Done(v, _) = x.plain_members(types, members, i + 1, ids.push(id), depth) {
                lemma_stay_open(w, x, v, open);
                lemma_still_known(x, v, open, ty);
            }
        }
    } else {
        assert(stay_open(w, w, open));
    }
}

/// The members of a structure that stands for a buffer from the `i`-th on.
proof fn lemma_block_members_open(
    w: WriterView,
    types: Arena<Type>,
    id: Word,
    members: Seq<StructMember>,
    i: nat,
    offset: u32,
    ids: Seq<Word>,
    depth: nat,
    open: Set<Handle<Type>>,
)
    requires
        are_open(w, open),
        forall|k: int| 0 <= k < members.len() ==> wait_for(types, open, (#[trigger] members[k]).ty),
    ensures
        w.block_members(types, id, members, i, offset, ids, depth) matches Outcome::Done(v, _)
            ==> stay_open(w, v, open) && (forall|k: int|
            i <= k < members.len() && is_named(types, (#[trigger] members[k]).ty)
                ==> v.lookup_type.contains_key(LookupType::Handle(members[k].ty))),
    decreases depth, 15nat, members.len() - i,
{
    broadcast use lemma_same_types;
    if i < members.len() {
        let member = members[i as int];
        let ty = LookupType::Handle(member.ty);
        if let Outcome::Done(a, end) = w.place_member(types, id, member, i, offset) {
            assert(stay_open(w, a, open));
            lemma_type_open(a, types, ty, depth, open);
            if let Outcome::Done(x, part) = a.type_id_within(types, ty, depth) {
                let more = ids.push(part);
                lemma_still_open(a, x, open);
                lemma_stay_open(w, a, x, open);
                lemma_block_members_open(x, types, id, members, i + 1, end, more, depth, open);
                if let Outcome::Done(v, _) = x.block_members(
                    types,
                    id,
                    members,
                    i + 1,
                    end,
                    more,
                    depth,
                ) {
                    lemma_stay_open(w, x, v, open);
                    lemma_still_known(x, v, open, ty);
                }
            }
        }
    } else {
        assert(stay_open(w, w, open));
    }
}

proof fn lemma_still_open(w: WriterView, v: WriterView, open: Set<Handle<Type>>)
    requires
        are_open(w, open),
        stay_open(w, v, open),
    ensures
        are_open(v, open),
{
    reveal(stay_open);
}

proof fn lemma_still_known(
    w: WriterView,
    v: WriterView,
    open: Set<Handle<Type>>,
    ty: LookupType,
)
    requires
        stay_open(w, v, open),
    ensures
        w.lookup_type.contains_key(ty) ==> v.lookup_type.contains_key(ty),
{
    reveal(stay_open);
}

proof fn lemma_one_waits(types: Arena<Type>, handle: Handle<Type>, next: Handle<Type>)
    requires
        is_named(types, handle),
        refers_to(types.at(handle).inner, next),
    ensures
        wait_for(types, set![handle], next),
{
    assert(set![handle] =~= Set::empty().insert(handle));
    lemma_wait_for(types, Set::empty(), handle, next);
}

/// A type of the arena is not remembered before all that it refers to is.
pub proof fn lemma_part_leaves_open(
    w: WriterView,
    types: Arena<Type>,
    handle: Handle<Type>,
    part: LookupType,
    depth: nat,
)
    requires
        is_named(types, handle),
        !w.lookup_type.contains_key(LookupType::Handle(handle)),
        part matches LookupType::Handle(other) ==> refers_to(types.at(handle).inner, other),
        !(part matches LookupType::Local(LocalType::SampledImage { .. })),
    ensures
        w.type_id_within(types, part, depth) matches Outcome::Done(v, _)
            ==> !v.lookup_type.contains_key(LookupType::Handle(handle)),
{
    let open = set![handle];
    if let LookupType::Handle(other) = part {
        lemma_one_waits(types, handle, other);
    }
    lemma_type_open(w, types, part, depth, open);
    if let Outcome::Done(v, _) = w.type_id_within(types, part, depth) {
        lemma_still_open(w, v, open);
        assert(open.contains(handle));
    }
}

/// A structure is not remembered before all its members are.
pub proof fn lemma_members_leave_open(
    w: WriterView,
    types: Arena<Type>,
    handle: Handle<Type>,
    id: Word,
    members: Seq<StructMember>,
    depth: nat,
)
    requires
        is_named(types, handle),
        !w.lookup_type.contains_key(LookupType::Handle(handle)),
        types.at(handle).inner matches TypeInner::Struct { members: list, .. } && list@ == members,
    ensures
        w.plain_members(types, members, 0, Seq::empty(), depth) matches Outcome::Done(v, _)
            ==> !v.lookup_type.contains_key(LookupType::Handle(handle)),
        w.block_members(types, id, members, 0, 0, Seq::empty(), depth) matches Outcome::Done(v, _)
            ==> !v.lookup_type.contains_key(LookupType::Handle(handle)),
{
    let open = set![handle];
    assert forall|k: int| 0 <= k < members.len() implies wait_for(
        types,
        open,
        (#[trigger] members[k]).ty,
    ) by {
        lemma_one_waits(types, handle, members[k].ty);
    }
    assert(open.contains(handle));
    lemma_plain_members_open(w, types, members, 0, Seq::empty(), depth, open);
    lemma_block_members_open(w, types, id, members, 0, 0, Seq::empty(), depth, open);
    if let Outcome::Done(v, _) = w.plain_members(types, members, 0, Seq::empty(), depth) {
        lemma_still_open(w, v, open);
    }
    if let Outcome::Done(v, _) = w.block_members(types, id, members, 0, 0, Seq::empty(), depth) {
        lemma_still_open(w, v, open);
    }
}

/// A vector is not remembered before its components are, nor an image with its sampler before the
/// image is.
pub proof fn lemma_local_part_leaves_open(
    w: WriterView,
    types: Arena<Type>,
    local: LocalType,
    depth: nat,
)
    requires
        !w.lookup_type.contains_key(LookupType::Local(local)),
    ensures
        match local {
            LocalType::Vector { kind, width, .. } => w.type_id_within(
                types,
                scalar(kind, width),
                depth,
            ) matches Outcome::Done(v, _) ==> !v.lookup_type.contains_key(LookupType::Local(local)),
            LocalType::SampledImage { image_type } => w.type_id_within(
                types,
                LookupType::Handle(image_type),
                depth,
            ) matches Outcome::Done(v, _) ==> !v.lookup_type.contains_key(LookupType::Local(local)),
            _ => true,
        },
{
    reveal(stay_open);
    match local {
        LocalType::Vector { kind, width, .. } => {
            reveal_with_fuel(WriterView::type_id_within, 2);
            reveal_with_fuel(WriterView::declare_local_type, 2);
        },
        LocalType::SampledImage { image_type } => {
            lemma_type_open(w, types, LookupType::Handle(image_type), depth, Set::empty());
        },
        _ => {},
    }
}

} // verus!

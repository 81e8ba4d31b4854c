//! How deep types, constants and expressions may refer to one another.
//!
//! The descriptions of what is written follow references only so deep. That is deep enough: a
//! bound that is larger does not lead anywhere else.

use crate::arena::{Arena, Handle};
use crate::ir::{
    ArraySize, BinaryOperator, Constant, ConstantInner, Expression, Function as IrFunction,
    MathFunction, Module, SampleLevel, ScalarKind, StructMember, Type, TypeInner, UnaryOperator,
};
use crate::spv::expressions::{Cursor, Scope};
use crate::spv::growth_declarations::{lemma_constant_grows, lemma_constants_grow};
use crate::spv::instructions::{op_decorate, op_sampled_image};
use crate::spv::lookup::{LocalType, LookupType};
use crate::spv::model::{Outcome, WriterView};
use crate::spv::module::handle_at;
use crate::spv::operators::sample_type;
use crate::spv::types::{image_kind, rank, scalar, type_inner, vector};
use crate::spv::words::Word;
use spirv_headers as spirv;
use vstd::prelude::*;

verus! {

/// Whether a type refers only to the first `n` types.
pub open spec fn type_refers_below(inner: TypeInner, n: nat) -> bool {
    match inner {
        TypeInner::Pointer { base, .. } => base.index < n,
        TypeInner::Array { base, .. } => base.index < n,
        TypeInner::Struct { members, .. } => forall|i: int|
            0 <= i < members@.len() ==> (#[trigger] members@[i]).ty.index < n,
        _ => true,
    }
}

/// Whether each type refers only to types before it.
pub open spec fn types_in_order(types: Arena<Type>) -> bool {
    forall|i: int|
        0 <= i < types.data@.len() ==> type_refers_below(
            (#[trigger] types.data@[i]).inner,
            i as nat,
        )
}

/// How many types of the arena can lie on the way from a type, itself included.
pub open spec fn reach(types: Arena<Type>, ty: LookupType) -> nat {
    match ty {
        LookupType::Handle(handle) => if types.contains(handle) {
            handle.index as nat + 1
        } else {
            0
        },
        LookupType::Local(LocalType::SampledImage { image_type }) => if types.contains(
            image_type,
        ) {
            image_type.index as nat + 1
        } else {
            0
        },
        LookupType::Local(_) => 0,
    }
}

proof fn lemma_type_depth(
    w: WriterView,
    types: Arena<Type>,
    ty: LookupType,
    n: nat,
    a: nat,
    b: nat,
)
    requires
        types_in_order(types),
        reach(types, ty) <= n,
        n <= a,
        n <= b,
    ensures
        w.type_id_within(types, ty, a) == w.type_id_within(types, ty, b),
    decreases n, 2 * rank(ty) + 1, 0nat,
{
    if !w.lookup_type.contains_key(ty) {
        match ty {
            LookupType::Handle(handle) => {
                if types.contains(handle) {
                    match types.at(handle).inner {
                        TypeInner::Scalar { kind, width } => {
                            lemma_type_depth(w, types, scalar(kind, width), n, a, b);
                        },
                        TypeInner::Vector { size, kind, width } => {
                            lemma_type_depth(w, types, vector(size, kind, width), n, a, b);
                        },
                        _ => {
                            lemma_arena_type_depth(
                                w,
                                types,
                                handle,
                                handle.index as nat,
                                (a - 1) as nat,
                                (b - 1) as nat,
                            );
                        },
                    }
                }
            },
            LookupType::Local(local) => {
                lemma_local_type_depth(w, types, local, n, a, b);
            },
        }
    }
}

proof fn lemma_local_type_depth(
    w: WriterView,
    types: Arena<Type>,
    local: LocalType,
    n: nat,
    a: nat,
    b: nat,
)
    requires
        types_in_order(types),
        reach(types, LookupType::Local(local)) <= n,
        n <= a,
        n <= b,
    ensures
        w.declare_local_type(types, local, a) == w.declare_local_type(types, local, b),
    decreases n, 2 * rank(LookupType::Local(local)), 0nat,
{
    if let Outcome::Done(v, _) = w.generate_id() {
        match local {
            LocalType::Vector { kind, width, .. } => {
                lemma_type_depth(v, types, scalar(kind, width), n, a, b);
            },
            LocalType::Matrix { rows, width, .. } => {
                lemma_type_depth(v, types, vector(rows, ScalarKind::Float, width), n, a, b);
            },
            LocalType::SampledImage { image_type } => {
                lemma_type_depth(v, types, LookupType::Handle(image_type), n, a, b);
            },
            _ => {},
        }
    }
}

proof fn lemma_arena_type_depth(
    w: WriterView,
    types: Arena<Type>,
    handle: Handle<Type>,
    n: nat,
    a: nat,
    b: nat,
)
    requires
        types_in_order(types),
        types.contains(handle),
        handle.index == n,
        n <= a,
        n <= b,
    ensures
        w.declare_arena_type(types, handle, a) == w.declare_arena_type(types, handle, b),
    decreases n, 20nat, 0nat,
{
    assert(types.at(handle) == types.data@[n as int]);
    if let Outcome::Done(v0, id) = w.generate_id() {
        let v = v0.name(id, types.at(handle).name);
        match types.at(handle).inner {
            TypeInner::Vector { kind, width, .. } => {
                lemma_type_depth(v, types, scalar(kind, width), n, a, b);
            },
            TypeInner::Matrix { columns, width, .. } => {
                let x = v.annotate(op_decorate(id, spirv::Decoration::ColMajor, Seq::empty()));
                lemma_type_depth(x, types, vector(columns, ScalarKind::Float, width), n, a, b);
            },
            TypeInner::Image { class, .. } => {
                lemma_type_depth(v, types, scalar(image_kind(class), 4), n, a, b);
            },
            TypeInner::Array { base, stride, .. } => {
                let x = v.decorate_stride(id, stride);
                lemma_type_depth(x, types, LookupType::Handle(base), n, a, b);
            },
            TypeInner::Struct { block, members } => {
                if block {
                    lemma_block_members_depth(
                        v.annotate(op_decorate(id, v.block_decoration(handle), Seq::empty())),
                        types,
                        id,
                        members@,
                        0,
                        0,
                        Seq::empty(),
                        n,
                        a,
                        b,
                    );
                } else {
                    lemma_plain_members_depth(
                        v,
                        types,
                        members@,
                        0,
                        Seq::empty(),
                        n,
                        a,
                        b,
                    );
                }
            },
            TypeInner::Pointer { base, .. } => {
                lemma_type_depth(v, types, LookupType::Handle(base), n, a, b);
            },
            _ => {},
        }
    }
}

proof fn lemma_plain_members_depth(
    w: WriterView,
    types: Arena<Type>,
    members: Seq<StructMember>,
    i: nat,
    ids: Seq<Word>,
    n: nat,
    a: nat,
    b: nat,
)
    requires
        types_in_order(types),
        n <= a,
        n <= b,
        forall|k: int| 0 <= k < members.len() ==> (#[trigger] members[k]).ty.index < n,
    ensures
        w.plain_members(types, members, i, ids, a) == w.plain_members(types, members, i, ids, b),
    decreases n, 15nat, members.len() - i,
{
    if i < members.len() {
        let ty = LookupType::Handle(members[i as int].ty);
        lemma_type_depth(w, types, ty, n, a, b);
        if let Outcome::Done(v, id) = w.type_id_within(types, ty, a) {
            lemma_plain_members_depth(v, types, members, i + 1, ids.push(id), n, a, b);
        }
    }
}

proof fn lemma_block_members_depth(
    w: WriterView,
    types: Arena<Type>,
    id: Word,
    members: Seq<StructMember>,
    i: nat,
    offset: u32,
    ids: Seq<Word>,
    n: nat,
    a: nat,
    b: nat,
)
    requires
        types_in_order(types),
        n <= a,
        n <= b,
        forall|k: int| 0 <= k < members.len() ==> (#[trigger] members[k]).ty.index < n,
    ensures
        w.block_members(types, id, members, i, offset, ids, a) == w.block_members(
            types,
            id,
            members,
            i,
            offset,
            ids,
            b,
        ),
    decreases n, 15nat, members.len() - i,
{
    if i < members.len() {
        let member = members[i as int];
        let ty = LookupType::Handle(member.ty);
        if let Outcome::Done(v, end) = w.place_member(types, id, member, i, offset) {
            lemma_type_depth(v, types, ty, n, a, b);
            if let Outcome::Done(x, member_id) = v.type_id_within(types, ty, a) {
                lemma_block_members_depth(
                    x,
                    types,
                    id,
                    members,
                    i + 1,
                    end,
                    ids.push(member_id),
                    n,
                    a,
                    b,
                );
            }
        }
    }
}

/// Where each type refers only to types before it, as an arena that is filled by appending has
/// it, references are followed as deep as they go.
pub proof fn law_types_are_followed(
    w: WriterView,
    types: Arena<Type>,
    ty: LookupType,
    depth: nat,
)
    requires
        types_in_order(types),
        depth >= types.count(),
    ensures
        w.type_id_within(types, ty, depth) == w.type_id(types, ty),
{
    reveal(WriterView::type_id);
    lemma_type_depth(w, types, ty, types.count(), depth, types.count());
}

/// How many of the first `n` constants are not looked up yet.
pub open spec fn unknown(w: WriterView, n: nat) -> nat
    decreases n,
{
    if n == 0 {
        0
    } else {
        unknown(w, (n - 1) as nat) + if w.lookup_constant.contains_key(handle_at((n - 1) as nat)) {
            0nat
        } else {
            1nat
        }
    }
}

proof fn lemma_unknown_shrinks(w: WriterView, v: WriterView, n: nat)
    requires
        w.lookup_constant.dom().subset_of(v.lookup_constant.dom()),
    ensures
        unknown(v, n) <= unknown(w, n) <= n,
    decreases n,
{
    if n > 0 {
        lemma_unknown_shrinks(w, v, (n - 1) as nat);
        assert(w.lookup_constant.contains_key(handle_at((n - 1) as nat))
            ==> v.lookup_constant.contains_key(handle_at((n - 1) as nat)));
    }
}

proof fn lemma_unknown_drops(w: WriterView, v: WriterView, handle: Handle<Constant>, n: nat)
    requires
        w.lookup_constant.dom().subset_of(v.lookup_constant.dom()),
        handle.index < n <= u32::MAX + 1,
        !w.lookup_constant.contains_key(handle),
        v.lookup_constant.contains_key(handle),
    ensures
        unknown(v, n) < unknown(w, n),
    decreases n,
{
    assert(handle == handle_at::<Constant>(handle.index as nat));
    lemma_unknown_shrinks(w, v, (n - 1) as nat);
    if handle.index < n - 1 {
        lemma_unknown_drops(w, v, handle, (n - 1) as nat);
    }
    assert(w.lookup_constant.contains_key(handle_at((n - 1) as nat))
        ==> v.lookup_constant.contains_key(handle_at((n - 1) as nat)));
}

proof fn lemma_kept_constants(w: WriterView, v: WriterView, count: nat)
    requires
        w.is_kept_by(v),
    ensures
        w.lookup_constant.dom().subset_of(v.lookup_constant.dom()),
        unknown(v, count) <= unknown(w, count),
{
    reveal(WriterView::is_kept_by);
    reveal(WriterView::is_remembered_by);
    assert forall|k: Handle<Constant>| w.lookup_constant.dom().contains(k) implies
        v.lookup_constant.dom().contains(k) by {}
    lemma_unknown_shrinks(w, v, count);
}

proof fn lemma_constant_depth(
    w: WriterView,
    module: Module,
    handle: Handle<Constant>,
    n: nat,
    a: nat,
    b: nat,
)
    requires
        module.constants.count() <= u32::MAX + 1,
        unknown(w, module.constants.count()) <= n,
        n <= a,
        n <= b,
    ensures
        w.constant_id_within(module, handle, a) == w.constant_id_within(module, handle, b),
    decreases n, 1nat, 0nat,
{
    let count = module.constants.count();
    if !w.lookup_constant.contains_key(handle) && module.constants.contains(handle) {
        lemma_unknown_drops(w, w.remember_constant(handle, 0), handle, count);
        if let Outcome::Done(v, id) = w.generate_id() {
            let x = v.remember_constant(handle, id);
            lemma_unknown_drops(w, x, handle, count);
            lemma_define_constant_depth(
                x,
                module,
                id,
                module.constants.at(handle).inner,
                (n - 1) as nat,
                (a - 1) as nat,
                (b - 1) as nat,
            );
        }
    }
}

proof fn lemma_define_constant_depth(
    w: WriterView,
    module: Module,
    id: Word,
    inner: ConstantInner,
    n: nat,
    a: nat,
    b: nat,
)
    requires
        module.constants.count() <= u32::MAX + 1,
        unknown(w, module.constants.count()) <= n,
        n <= a,
        n <= b,
    ensures
        w.define_constant(module, id, inner, a) == w.define_constant(module, id, inner, b),
    decreases n, 3nat, 0nat,
{
    if let ConstantInner::Composite { ty, components } = inner {
        lemma_constants_depth(w, module, components@, 0, Seq::empty(), n, a, b);
        lemma_constants_grow(w, module, components@, 0, Seq::empty(), a);
        if let Outcome::Done(v, _) = w.constant_ids(module, components@, 0, Seq::empty(), a) {
            lemma_kept_constants(w, v, module.constants.count());
            lemma_array_length_depth(v, module, ty, n, a, b);
        }
    }
}

proof fn lemma_array_length_depth(
    w: WriterView,
    module: Module,
    ty: Handle<Type>,
    n: nat,
    a: nat,
    b: nat,
)
    requires
        module.constants.count() <= u32::MAX + 1,
        unknown(w, module.constants.count()) <= n,
        n <= a,
        n <= b,
    ensures
        w.array_length_id(module, ty, a) == w.array_length_id(module, ty, b),
    decreases n, 2nat, 0nat,
{
    if module.types.contains(ty) {
        if let TypeInner::Array { size: ArraySize::Constant(length), .. } =
            module.types.at(ty).inner {
            lemma_constant_depth(w, module, length, n, a, b);
        }
    }
}

proof fn lemma_constants_depth(
    w: WriterView,
    module: Module,
    handles: Seq<Handle<Constant>>,
    i: nat,
    ids: Seq<Word>,
    n: nat,
    a: nat,
    b: nat,
)
    requires
        module.constants.count() <= u32::MAX + 1,
        unknown(w, module.constants.count()) <= n,
        n <= a,
        n <= b,
    ensures
        w.constant_ids(module, handles, i, ids, a) == w.constant_ids(module, handles, i, ids, b),
    decreases n, 2nat, handles.len() - i,
{
    if i < handles.len() {
        lemma_constant_depth(w, module, handles[i as int], n, a, b);
        lemma_constant_grows(w, module, handles[i as int], a);
        if let Outcome::Done(v, id) = w.constant_id_within(module, handles[i as int], a) {
            lemma_kept_constants(w, v, module.constants.count());
            lemma_constants_depth(v, module, handles, i + 1, ids.push(id), n, a, b);
        }
    }
}

/// References among constants are followed as deep as they go, even in a circle: a constant is
/// known before its parts are looked up.
pub proof fn law_constants_are_followed(
    w: WriterView,
    module: Module,
    handle: Handle<Constant>,
    depth: nat,
)
    requires
        module.constants.count() <= u32::MAX + 1,
        depth >= module.constants.count(),
    ensures
        w.constant_id_within(module, handle, depth) == w.constant_id(module, handle),
{
    reveal(WriterView::constant_id);
    let count = module.constants.count();
    lemma_unknown_shrinks(w, w, count);
    lemma_constant_depth(w, module, handle, count, depth, count);
}

/// Whether an expression, if there is one under the handle, is among the first `n`.
pub open spec fn below(s: Scope, handle: Handle<Expression>, n: nat) -> bool {
    s.ir_function.expressions.contains(handle) ==> handle.index < n
}

/// Whether the expressions that a level of detail refers to are among the first `n`.
pub open spec fn level_below(s: Scope, level: SampleLevel, n: nat) -> bool {
    match level {
        SampleLevel::Exact(lod) => below(s, lod, n),
        SampleLevel::Bias(bias) => below(s, bias, n),
        SampleLevel::Gradient { x, y } => below(s, x, n) && below(s, y, n),
        _ => true,
    }
}

/// Whether an expression refers only to the first `n` expressions.
pub open spec fn expression_refers_below(expression: Expression, n: nat) -> bool {
    match expression {
        Expression::Access { base, index } => base.index < n && index.index < n,
        Expression::AccessIndex { base, .. } => base.index < n,
        Expression::Compose { components, .. } => forall|i: int|
            0 <= i < components@.len() ==> (#[trigger] components@[i]).index < n,
        Expression::Unary { expr, .. } => expr.index < n,
        Expression::Binary { left, right, .. } => left.index < n && right.index < n,
        Expression::Math { arg, arg1, arg2, .. } => {
            &&& arg.index < n
            &&& arg1 matches Some(handle) ==> handle.index < n
            &&& arg2 matches Some(handle) ==> handle.index < n
        },
        Expression::Call { arguments, .. } => forall|i: int|
            0 <= i < arguments@.len() ==> (#[trigger] arguments@[i]).index < n,
        Expression::As { expr, .. } => expr.index < n,
        Expression::ImageSample {
            image,
            sampler,
            coordinate,
            array_index,
            level,
            depth_ref,
            ..
        } => {
            &&& image.index < n
            &&& sampler.index < n
            &&& coordinate.index < n
            &&& array_index matches Some(handle) ==> handle.index < n
            &&& depth_ref matches Some(handle) ==> handle.index < n
            &&& match level {
                SampleLevel::Exact(lod) => lod.index < n,
                SampleLevel::Bias(bias) => bias.index < n,
                SampleLevel::Gradient { x, y } => x.index < n && y.index < n,
                _ => true,
            }
        },
        _ => true,
    }
}

/// Whether each expression refers only to expressions before it.
pub open spec fn expressions_in_order(expressions: Arena<Expression>) -> bool {
    forall|i: int|
        0 <= i < expressions.data@.len() ==> expression_refers_below(
            #[trigger] expressions.data@[i],
            i as nat,
        )
}

proof fn lemma_value_depth(
    c: Cursor,
    s: Scope,
    handle: Handle<Expression>,
    n: nat,
    a: nat,
    b: nat,
)
    requires
        expressions_in_order(s.ir_function.expressions),
        n <= a,
        n <= b,
        below(s, handle, n),
    ensures
        c.value(s, handle, a) == c.value(s, handle, b),
    decreases n, 1nat, 0nat,
{
    lemma_raw_depth(c, s, handle, n, a, b);
}

proof fn lemma_pointer_depth(
    c: Cursor,
    s: Scope,
    handle: Handle<Expression>,
    n: nat,
    a: nat,
    b: nat,
)
    requires
        expressions_in_order(s.ir_function.expressions),
        n <= a,
        n <= b,
        below(s, handle, n),
    ensures
        c.pointer(s, handle, a) == c.pointer(s, handle, b),
    decreases n, 1nat, 0nat,
{
    lemma_raw_depth(c, s, handle, n, a, b);
}

proof fn lemma_values_depth(
    c: Cursor,
    s: Scope,
    handles: Seq<Handle<Expression>>,
    i: nat,
    ids: Seq<Word>,
    n: nat,
    a: nat,
    b: nat,
)
    requires
        expressions_in_order(s.ir_function.expressions),
        n <= a,
        n <= b,
        forall|k: int| 0 <= k < handles.len() ==> below(s, #[trigger] handles[k], n),
    ensures
        c.values(s, handles, i, ids, a) == c.values(s, handles, i, ids, b),
    decreases n, 2nat, handles.len() - i,
{
    if i < handles.len() {
        lemma_value_depth(c, s, handles[i as int], n, a, b);
        if let Outcome::Done(d, value) = c.value(s, handles[i as int], a) {
            lemma_values_depth(d, s, handles, i + 1, ids.push(value.0), n, a, b);
        }
    }
}

proof fn lemma_optional_value_depth(
    c: Cursor,
    s: Scope,
    handle: Option<Handle<Expression>>,
    n: nat,
    a: nat,
    b: nat,
)
    requires
        expressions_in_order(s.ir_function.expressions),
        n <= a,
        n <= b,
        handle matches Some(h) ==> below(s, h, n),
    ensures
        c.optional_value(s, handle, a) == c.optional_value(s, handle, b),
    decreases n, 2nat, 0nat,
{
    if let Some(handle) = handle {
        lemma_value_depth(c, s, handle, n, a, b);
    }
}

proof fn lemma_raw_depth(
    c: Cursor,
    s: Scope,
    handle: Handle<Expression>,
    n: nat,
    a: nat,
    b: nat,
)
    requires
        expressions_in_order(s.ir_function.expressions),
        n <= a,
        n <= b,
        below(s, handle, n),
    ensures
        c.raw(s, handle, a) == c.raw(s, handle, b),
    decreases n, 0nat, 0nat,
{
    if s.ir_function.expressions.contains(handle) {
        let m = handle.index as nat;
        assert(s.ir_function.expressions.at(handle) == s.ir_function.expressions.data@[m as int]);
        let a1 = (a - 1) as nat;
        let b1 = (b - 1) as nat;
        match s.ir_function.expressions.at(handle) {
            Expression::Access { base, index } => {
                lemma_access_depth(c, s, base, index, m, a1, b1);
            },
            Expression::AccessIndex { base, index } => {
                lemma_access_index_depth(c, s, base, index, m, a1, b1);
            },
            Expression::Compose { ty, components } => {
                lemma_compose_depth(c, s, ty, components@, m, a1, b1);
            },
            Expression::Unary { op, expr } => {
                lemma_unary_depth(c, s, op, expr, m, a1, b1);
            },
            Expression::Binary { op, left, right } => {
                lemma_binary_depth(c, s, op, left, right, m, a1, b1);
            },
            Expression::Math { fun, arg, arg1, arg2 } => {
                lemma_math_depth(c, s, fun, arg, arg1, arg2, m, a1, b1);
            },
            Expression::Call { function, arguments } => {
                lemma_call_depth(c, s, function, arguments@, m, a1, b1);
            },
            Expression::As { expr, kind, convert } => {
                lemma_cast_depth(c, s, expr, kind, convert, m, a1, b1);
            },
            Expression::ImageSample {
                image,
                sampler,
                coordinate,
                array_index,
                offset,
                level,
                depth_ref,
            } => {
                lemma_image_sample_depth(
                    c,
                    s,
                    image,
                    sampler,
                    coordinate,
                    array_index,
                    offset,
                    level,
                    depth_ref,
                    m,
                    a1,
                    b1,
                );
            },
            _ => {},
        }
    }
}

proof fn lemma_access_depth(
    c: Cursor,
    s: Scope,
    base: Handle<Expression>,
    index: Handle<Expression>,
    n: nat,
    a: nat,
    b: nat,
)
    requires
        expressions_in_order(s.ir_function.expressions),
        n <= a,
        n <= b,
        below(s, base, n),
        below(s, index, n),
    ensures
        c.access(s, base, index, a) == c.access(s, base, index, b),
    decreases n, 3nat, 0nat,
{
    if let Outcome::Done(c1, id) = c.generate_id() {
        lemma_raw_depth(c1, s, base, n, a, b);
        if let Outcome::Done(c2, written) = c1.raw(s, base, a) {
            if let Some(inner) = type_inner(s.module.types, written.1) {
                lemma_value_depth(c2, s, index, n, a, b);
            }
        }
    }
}

proof fn lemma_access_index_depth(
    c: Cursor,
    s: Scope,
    base: Handle<Expression>,
    index: u32,
    n: nat,
    a: nat,
    b: nat,
)
    requires
        expressions_in_order(s.ir_function.expressions),
        n <= a,
        n <= b,
        below(s, base, n),
    ensures
        c.access_index(s, base, index, a) == c.access_index(s, base, index, b),
    decreases n, 3nat, 0nat,
{
    if let Outcome::Done(c1, id) = c.generate_id() {
        lemma_raw_depth(c1, s, base, n, a, b);
    }
}

proof fn lemma_compose_depth(
    c: Cursor,
    s: Scope,
    ty: Handle<Type>,
    components: Seq<Handle<Expression>>,
    n: nat,
    a: nat,
    b: nat,
)
    requires
        expressions_in_order(s.ir_function.expressions),
        n <= a,
        n <= b,
        forall|k: int| 0 <= k < components.len() ==> below(s, #[trigger] components[k], n),
    ensures
        c.compose(s, ty, components, a) == c.compose(s, ty, components, b),
    decreases n, 3nat, 0nat,
{
    if let Outcome::Done(c1, type_id) = c.type_id(s.module.types, LookupType::Handle(ty)) {
        lemma_values_depth(c1, s, components, 0, Seq::empty(), n, a, b);
    }
}

proof fn lemma_unary_depth(
    c: Cursor,
    s: Scope,
    op: UnaryOperator,
    expr: Handle<Expression>,
    n: nat,
    a: nat,
    b: nat,
)
    requires
        expressions_in_order(s.ir_function.expressions),
        n <= a,
        n <= b,
        below(s, expr, n),
    ensures
        c.unary(s, op, expr, a) == c.unary(s, op, expr, b),
    decreases n, 3nat, 0nat,
{
    if let Outcome::Done(c1, id) = c.generate_id() {
        lemma_value_depth(c1, s, expr, n, a, b);
    }
}

proof fn lemma_binary_depth(
    c: Cursor,
    s: Scope,
    op: BinaryOperator,
    left: Handle<Expression>,
    right: Handle<Expression>,
    n: nat,
    a: nat,
    b: nat,
)
    requires
        expressions_in_order(s.ir_function.expressions),
        n <= a,
        n <= b,
        below(s, left, n),
        below(s, right, n),
    ensures
        c.binary(s, op, left, right, a) == c.binary(s, op, left, right, b),
    decreases n, 3nat, 0nat,
{
    if let Outcome::Done(c1, id) = c.generate_id() {
        lemma_value_depth(c1, s, left, n, a, b);
        if let Outcome::Done(c2, l) = c1.value(s, left, a) {
            lemma_value_depth(c2, s, right, n, a, b);
        }
    }
}

proof fn lemma_math_depth(
    c: Cursor,
    s: Scope,
    fun: MathFunction,
    arg: Handle<Expression>,
    arg1: Option<Handle<Expression>>,
    arg2: Option<Handle<Expression>>,
    n: nat,
    a: nat,
    b: nat,
)
    requires
        expressions_in_order(s.ir_function.expressions),
        n <= a,
        n <= b,
        below(s, arg, n),
        arg1 matches Some(h) ==> below(s, h, n),
        arg2 matches Some(h) ==> below(s, h, n),
    ensures
        c.math(s, fun, arg, arg1, arg2, a) == c.math(s, fun, arg, arg1, arg2, b),
    decreases n, 3nat, 0nat,
{
    lemma_value_depth(c, s, arg, n, a, b);
    if let Outcome::Done(c1, arg0) = c.value(s, arg, a) {
        if let Outcome::Done(c2, type_id) = c1.type_id(s.module.types, arg0.1) {
            lemma_optional_value_depth(c2, s, arg1, n, a, b);
            if let Outcome::Done(c3, arg1_id) = c2.optional_value(s, arg1, a) {
                lemma_optional_value_depth(c3, s, arg2, n, a, b);
            }
        }
    }
}

proof fn lemma_call_depth(
    c: Cursor,
    s: Scope,
    function: Handle<IrFunction>,
    arguments: Seq<Handle<Expression>>,
    n: nat,
    a: nat,
    b: nat,
)
    requires
        expressions_in_order(s.ir_function.expressions),
        n <= a,
        n <= b,
        forall|k: int| 0 <= k < arguments.len() ==> below(s, #[trigger] arguments[k], n),
    ensures
        c.call(s, function, arguments, a) == c.call(s, function, arguments, b),
    decreases n, 3nat, 0nat,
{
    if s.module.functions.contains(function) {
        if let Outcome::Done(c1, id) = c.generate_id() {
            lemma_values_depth(c1, s, arguments, 0, Seq::empty(), n, a, b);
        }
    }
}

proof fn lemma_cast_depth(
    c: Cursor,
    s: Scope,
    expr: Handle<Expression>,
    kind: ScalarKind,
    convert: bool,
    n: nat,
    a: nat,
    b: nat,
)
    requires
        expressions_in_order(s.ir_function.expressions),
        n <= a,
        n <= b,
        below(s, expr, n),
    ensures
        c.cast(s, expr, kind, convert, a) == c.cast(s, expr, kind, convert, b),
    decreases n, 3nat, 0nat,
{
    if convert {
        lemma_value_depth(c, s, expr, n, a, b);
    }
}

proof fn lemma_image_sample_depth(
    c: Cursor,
    s: Scope,
    image: Handle<Expression>,
    sampler: Handle<Expression>,
    coordinate: Handle<Expression>,
    array_index: Option<Handle<Expression>>,
    offset: Option<Handle<Constant>>,
    level: SampleLevel,
    depth_ref: Option<Handle<Expression>>,
    n: nat,
    a: nat,
    b: nat,
)
    requires
        expressions_in_order(s.ir_function.expressions),
        n <= a,
        n <= b,
        below(s, image, n),
        below(s, sampler, n),
        below(s, coordinate, n),
        array_index matches Some(h) ==> below(s, h, n),
        level_below(s, level, n),
        depth_ref matches Some(h) ==> below(s, h, n),
    ensures
        c.image_sample(
            s,
            image,
            sampler,
            coordinate,
            array_index,
            offset,
            level,
            depth_ref,
            a,
        ) == c.image_sample(
            s,
            image,
            sampler,
            coordinate,
            array_index,
            offset,
            level,
            depth_ref,
            b,
        ),
    decreases n, 7nat, 0nat,
{
    lemma_value_depth(c, s, image, n, a, b);
    if let Outcome::Done(c1, image_value) = c.value(s, image, a) {
        if let LookupType::Handle(image_type) = image_value.1 {
            let sampled = LookupType::Local(LocalType::SampledImage { image_type });
            if let Outcome::Done(c2, sampled_type_id) = c1.type_id(s.module.types, sampled) {
                lemma_value_depth(c2, s, sampler, n, a, b);
                if let Outcome::Done(c3, sampler_value) = c2.value(s, sampler, a) {
                    lemma_image_coordinate_depth(c3, s, coordinate, array_index, n, a, b);
                    if let Outcome::Done(c4, coordinate_id) = c3.image_coordinate(
                        s,
                        coordinate,
                        array_index,
                        a,
                    ) {
                        lemma_sample_at_depth(
                            c4,
                            s,
                            image_value.0,
                            image_type,
                            sampled_type_id,
                            sampler_value.0,
                            coordinate_id,
                            offset,
                            level,
                            depth_ref,
                            n,
                            a,
                            b,
                        );
                    }
                }
            }
        }
    }
}

proof fn lemma_image_coordinate_depth(
    c: Cursor,
    s: Scope,
    coordinate: Handle<Expression>,
    array_index: Option<Handle<Expression>>,
    n: nat,
    a: nat,
    b: nat,
)
    requires
        expressions_in_order(s.ir_function.expressions),
        n <= a,
        n <= b,
        below(s, coordinate, n),
        array_index matches Some(h) ==> below(s, h, n),
    ensures
        c.image_coordinate(
            s,
            coordinate,
            array_index,
            a,
        ) == c.image_coordinate(
            s,
            coordinate,
            array_index,
            b,
        ),
    decreases n, 5nat, 0nat,
{
    lemma_value_depth(c, s, coordinate, n, a, b);
    if let Outcome::Done(c1, value) = c.value(s, coordinate, a) {
        if let Some(array_index) = array_index {
            let number = scalar(ScalarKind::Float, 4);
            if let Outcome::Done(c2, type_id) = c1.type_id(s.module.types, number) {
                if let Outcome::Done(c3, ids) = c2.coordinate_components(
                    s,
                    value.0,
                    value.1,
                    type_id,
                ) {
                    lemma_layered_coordinate_depth(c3, s, ids, type_id, array_index, n, a, b);
                }
            }
        }
    }
}

proof fn lemma_layered_coordinate_depth(
    c: Cursor,
    s: Scope,
    ids: Seq<Word>,
    scalar_type_id: Word,
    array_index: Handle<Expression>,
    n: nat,
    a: nat,
    b: nat,
)
    requires
        expressions_in_order(s.ir_function.expressions),
        n <= a,
        n <= b,
        below(s, array_index, n),
    ensures
        c.layered_coordinate(
            s,
            ids,
            scalar_type_id,
            array_index,
            a,
        ) == c.layered_coordinate(
            s,
            ids,
            scalar_type_id,
            array_index,
            b,
        ),
    decreases n, 4nat, 0nat,
{
    if let Outcome::Done(c1, layer_id) = c.generate_id() {
        lemma_value_depth(c1, s, array_index, n, a, b);
    }
}

proof fn lemma_sample_at_depth(
    c: Cursor,
    s: Scope,
    image_id: Word,
    image_type: Handle<Type>,
    sampled_image_type_id: Word,
    sampler_id: Word,
    coordinate_id: Word,
    offset: Option<Handle<Constant>>,
    level: SampleLevel,
    depth_ref: Option<Handle<Expression>>,
    n: nat,
    a: nat,
    b: nat,
)
    requires
        expressions_in_order(s.ir_function.expressions),
        n <= a,
        n <= b,
        level_below(s, level, n),
        depth_ref matches Some(h) ==> below(s, h, n),
    ensures
        c.sample_at(
            s,
            image_id,
            image_type,
            sampled_image_type_id,
            sampler_id,
            coordinate_id,
            offset,
            level,
            depth_ref,
            a,
        ) == c.sample_at(
            s,
            image_id,
            image_type,
            sampled_image_type_id,
            sampler_id,
            coordinate_id,
            offset,
            level,
            depth_ref,
            b,
        ),
    decreases n, 6nat, 0nat,
{
    if s.module.types.contains(image_type) {
        if let Some(ty) = sample_type(s.module.types.at(image_type).inner) {
            if let Outcome::Done(c1, sampled_image_id) = c.generate_id() {
                let c2 = c1.emit(
                    op_sampled_image(
                        sampled_image_type_id,
                        sampled_image_id,
                        image_id,
                        sampler_id,
                    ),
                );
                if let Outcome::Done(c3, id) = c2.generate_id() {
                    if let Outcome::Done(c4, type_id) = c3.type_id(s.module.types, ty) {
                        lemma_sample_instruction_depth(
                            c4,
                            s,
                            type_id,
                            id,
                            sampled_image_id,
                            coordinate_id,
                            offset,
                            level,
                            depth_ref,
                            n,
                            a,
                            b,
                        );
                    }
                }
            }
        }
    }
}

proof fn lemma_sample_instruction_depth(
    c: Cursor,
    s: Scope,
    type_id: Word,
    id: Word,
    sampled_image_id: Word,
    coordinate_id: Word,
    offset: Option<Handle<Constant>>,
    level: SampleLevel,
    depth_ref: Option<Handle<Expression>>,
    n: nat,
    a: nat,
    b: nat,
)
    requires
        expressions_in_order(s.ir_function.expressions),
        n <= a,
        n <= b,
        level_below(s, level, n),
        depth_ref matches Some(h) ==> below(s, h, n),
    ensures
        c.sample_instruction(
            s,
            type_id,
            id,
            sampled_image_id,
            coordinate_id,
            offset,
            level,
            depth_ref,
            a,
        ) == c.sample_instruction(
            s,
            type_id,
            id,
            sampled_image_id,
            coordinate_id,
            offset,
            level,
            depth_ref,
            b,
        ),
    decreases n, 5nat, 0nat,
{
    lemma_optional_value_depth(c, s, depth_ref, n, a, b);
    if let Outcome::Done(c1, _) = c.optional_value(s, depth_ref, a) {
        lemma_level_operands_depth(c1, s, level, n, a, b);
    }
}

proof fn lemma_level_operands_depth(
    c: Cursor,
    s: Scope,
    level: SampleLevel,
    n: nat,
    a: nat,
    b: nat,
)
    requires
        expressions_in_order(s.ir_function.expressions),
        n <= a,
        n <= b,
        level_below(s, level, n),
    ensures
        c.level_operands(s, level, a) == c.level_operands(s, level, b),
    decreases n, 4nat, 0nat,
{
    match level {
        SampleLevel::Exact(lod) => {
            lemma_value_depth(c, s, lod, n, a, b);
        },
        SampleLevel::Bias(bias) => {
            lemma_value_depth(c, s, bias, n, a, b);
        },
        SampleLevel::Gradient { x, y } => {
            lemma_value_depth(c, s, x, n, a, b);
            if let Outcome::Done(c1, _) = c.value(s, x, a) {
                lemma_value_depth(c1, s, y, n, a, b);
            }
        },
        _ => {},
    }
}

/// Where each expression refers only to expressions before it, as an arena that is filled by
/// appending has it, references are followed as deep as they go.
pub proof fn law_expressions_are_followed(
    c: Cursor,
    s: Scope,
    handle: Handle<Expression>,
    depth: nat,
)
    requires
        expressions_in_order(s.ir_function.expressions),
        depth >= s.ir_function.expressions.count(),
    ensures
        c.value(s, handle, depth) == c.expression(s, handle),
        c.pointer(s, handle, depth) == c.expression_pointer(s, handle),
{
    let n = s.ir_function.expressions.count();
    lemma_value_depth(c, s, handle, n, depth, n);
    lemma_pointer_depth(c, s, handle, n, depth, n);
}

} // verus!

//! Writing an expression keeps types before values.

use crate::arena::{Arena, Handle};
use crate::ir::{
    BinaryOperator, Constant, ConstantInner, Expression, Function as IrFunction, GlobalVariable,
    MathFunction, SampleLevel, ScalarKind, ScalarValue, Type, TypeInner, UnaryOperator, VectorSize,
};
use crate::spv::expressions::{beside, Cursor, Scope};
use crate::spv::function::RawExpression;
use crate::spv::instructions::{op_composite_extract, op_sampled_image, op_unary};
use crate::spv::lookup::{LocalType, LookupType};
use crate::spv::model::Outcome;
use crate::spv::operators::{element_type, math_op, member_type, sample_type, MathOp};
use crate::spv::types::{scalar, type_inner, vector};
use crate::spv::typing::{group_typing, lemma_beside_typed};
use crate::spv::typing_declarations::{
    lemma_constant_id_typed, lemma_define_constant_typed, lemma_global_variable_typed,
    lemma_new_constant_typed, lemma_new_pointer_type_typed, lemma_return_type_typed,
    lemma_type_id_typed,
};
use crate::spv::words::Word;
use spirv_headers as spirv;
use vstd::prelude::*;

verus! {

proof fn lemma_cursor_type_typed(c: Cursor, types: Arena<Type>, ty: LookupType)
    requires
        c.is_typed(),
    ensures
        c.is_typed_by(c.type_id(types, ty)),
        c.type_id(types, ty) matches Outcome::Done(d, id) ==> d.writer.declares(id),
{
    lemma_type_id_typed(c.writer, types, ty);
    lemma_beside_typed(c, c.writer.type_id(types, ty));
}

proof fn lemma_composite_construct_typed(c: Cursor, type_id: Word, constituent_ids: Seq<Word>)
    requires
        c.is_typed(),
        c.writer.declares(type_id),
    ensures
        c.is_typed_by(c.composite_construct(type_id, constituent_ids)),
{
    broadcast use group_typing;
}

pub proof fn lemma_value_typed(c: Cursor, s: Scope, handle: Handle<Expression>, depth: nat)
    requires
        c.is_typed(),
    ensures
        c.is_typed_by(c.value(s, handle, depth)),
    decreases depth, 1nat, 0nat,
{
    broadcast use group_typing;
    lemma_raw_typed(c, s, handle, depth);
    if let Outcome::Done(d, written) = c.raw(s, handle, depth) {
        if let Outcome::Done(e, _) = d.generate_id() {
            lemma_cursor_type_typed(e, s.module.types, written.1);
        }
    }
}

pub proof fn lemma_pointer_typed(c: Cursor, s: Scope, handle: Handle<Expression>, depth: nat)
    requires
        c.is_typed(),
    ensures
        c.is_typed_by(c.pointer(s, handle, depth)),
    decreases depth, 1nat, 0nat,
{
    broadcast use group_typing;
    lemma_raw_typed(c, s, handle, depth);
}

proof fn lemma_values_typed(
    c: Cursor,
    s: Scope,
    handles: Seq<Handle<Expression>>,
    i: nat,
    ids: Seq<Word>,
    depth: nat,
)
    requires
        c.is_typed(),
    ensures
        c.is_typed_by(c.values(s, handles, i, ids, depth)),
    decreases depth, 2nat, handles.len() - i,
{
    broadcast use group_typing;
    if i < handles.len() {
        lemma_value_typed(c, s, handles[i as int], depth);
        if let Outcome::Done(d, value) = c.value(s, handles[i as int], depth) {
            lemma_values_typed(d, s, handles, i + 1, ids.push(value.0), depth);
        }
    }
}

proof fn lemma_optional_value_typed(
    c: Cursor,
    s: Scope,
    handle: Option<Handle<Expression>>,
    depth: nat,
)
    requires
        c.is_typed(),
    ensures
        c.is_typed_by(c.optional_value(s, handle, depth)),
    decreases depth, 2nat, 0nat,
{
    broadcast use group_typing;
    if let Some(handle) = handle {
        lemma_value_typed(c, s, handle, depth);
    }
}

proof fn lemma_raw_typed(c: Cursor, s: Scope, handle: Handle<Expression>, depth: nat)
    requires
        c.is_typed(),
    ensures
        c.is_typed_by(c.raw(s, handle, depth)),
    decreases depth, 0nat, 0nat,
{
    broadcast use group_typing;
    if depth > 0 && s.ir_function.expressions.contains(handle) {
        let d = (depth - 1) as nat;
        match s.ir_function.expressions.at(handle) {
            Expression::Access { base, index } => {
                lemma_access_typed(c, s, base, index, d);
            },
            Expression::AccessIndex { base, index } => {
                lemma_access_index_typed(c, s, base, index, d);
            },
            Expression::GlobalVariable(handle) => {
                lemma_global_variable_expression_typed(c, s, handle);
            },
            Expression::Constant(handle) => {
                lemma_constant_expression_typed(c, s, handle);
            },
            Expression::Compose { ty, components } => {
                lemma_compose_typed(c, s, ty, components@, d);
            },
            Expression::Unary { op, expr } => {
                lemma_unary_typed(c, s, op, expr, d);
            },
            Expression::Binary { op, left, right } => {
                lemma_binary_typed(c, s, op, left, right, d);
            },
            Expression::Math { fun, arg, arg1, arg2 } => {
                lemma_math_typed(c, s, fun, arg, arg1, arg2, d);
            },
            Expression::Call { function, arguments } => {
                lemma_call_typed(c, s, function, arguments@, d);
            },
            Expression::As { expr, kind, convert } => {
                lemma_cast_typed(c, s, expr, kind, convert, d);
            },
            Expression::ImageSample {
                image,
                sampler,
                coordinate,
                array_index,
                offset,
                level,
                depth_ref,
            } => {
                lemma_image_sample_typed(
                    c,
                    s,
                    image,
                    sampler,
                    coordinate,
                    array_index,
                    offset,
                    level,
                    depth_ref,
                    d,
                );
            },
            _ => {},
        }
    }
}

proof fn lemma_access_typed(
    c: Cursor,
    s: Scope,
    base: Handle<Expression>,
    index: Handle<Expression>,
    depth: nat,
)
    requires
        c.is_typed(),
    ensures
        c.is_typed_by(c.access(s, base, index, depth)),
    decreases depth, 3nat, 0nat,
{
    broadcast use group_typing;
    if let Outcome::Done(c1, id) = c.generate_id() {
        lemma_raw_typed(c1, s, base, depth);
        if let Outcome::Done(c2, written) = c1.raw(s, base, depth) {
            if let Some(inner) = type_inner(s.module.types, written.1) {
                lemma_value_typed(c2, s, index, depth);
                if let Outcome::Done(c3, index_value) = c2.value(s, index, depth) {
                    if let Outcome::Done(_, ty) = element_type(inner) {
                        lemma_pick_element_typed(c3, s, id, written.0, inner, index_value.0, ty);
                    }
                }
            }
        }
    }
}

proof fn lemma_pick_element_typed(
    c: Cursor,
    s: Scope,
    id: Word,
    base: RawExpression,
    inner: TypeInner,
    index_id: Word,
    ty: LookupType,
)
    requires
        c.is_typed(),
    ensures
        c.is_typed_by(c.pick_element(s, id, base, inner, index_id, ty)),
{
    broadcast use group_typing;
    match base {
        RawExpression::Value(_) => {
            lemma_cursor_type_typed(c, s.module.types, ty);
        },
        RawExpression::Pointer(base_id, class) => {
            lemma_chain_typed(c, s, id, base_id, class, index_id, ty);
        },
    }
}

proof fn lemma_chain_typed(
    c: Cursor,
    s: Scope,
    id: Word,
    base_id: Word,
    class: spirv::StorageClass,
    index_id: Word,
    ty: LookupType,
)
    requires
        c.is_typed(),
    ensures
        c.is_typed_by(c.chain(s, id, base_id, class, index_id, ty)),
{
    broadcast use group_typing;
    reveal(Cursor::chain);
    lemma_new_pointer_type_typed(c.writer, s.module.types, ty, class);
    lemma_beside_typed(c, c.writer.new_pointer_type(s.module.types, ty, class));
}

proof fn lemma_access_index_typed(
    c: Cursor,
    s: Scope,
    base: Handle<Expression>,
    index: u32,
    depth: nat,
)
    requires
        c.is_typed(),
    ensures
        c.is_typed_by(c.access_index(s, base, index, depth)),
    decreases depth, 3nat, 0nat,
{
    broadcast use group_typing;
    if let Outcome::Done(c1, id) = c.generate_id() {
        lemma_raw_typed(c1, s, base, depth);
        if let Outcome::Done(c2, written) = c1.raw(s, base, depth) {
            if let Some(inner) = type_inner(s.module.types, written.1) {
                if let Outcome::Done(_, ty) = member_type(inner, index) {
                    lemma_pick_member_typed(c2, s, id, written.0, index, ty);
                }
            }
        }
    }
}

proof fn lemma_pick_member_typed(
    c: Cursor,
    s: Scope,
    id: Word,
    base: RawExpression,
    index: u32,
    ty: LookupType,
)
    requires
        c.is_typed(),
    ensures
        c.is_typed_by(c.pick_member(s, id, base, index, ty)),
{
    broadcast use group_typing;
    match base {
        RawExpression::Value(_) => {
            lemma_cursor_type_typed(c, s.module.types, ty);
        },
        RawExpression::Pointer(base_id, class) => {
            let number = scalar(ScalarKind::Sint, 4);
            lemma_cursor_type_typed(c, s.module.types, number);
            if let Outcome::Done(c1, type_id) = c.type_id(s.module.types, number) {
                let step = c1.writer.new_constant(type_id, seq![index]);
                lemma_new_constant_typed(c1.writer, type_id, seq![index]);
                lemma_beside_typed(c1, step);
                if let Outcome::Done(c2, const_id) = beside(step, c1.block) {
                    lemma_chain_typed(c2, s, id, base_id, class, const_id, ty);
                }
            }
        },
    }
}

proof fn lemma_global_variable_expression_typed(
    c: Cursor,
    s: Scope,
    handle: Handle<GlobalVariable>,
)
    requires
        c.is_typed(),
    ensures
        c.is_typed_by(c.global_variable(s, handle)),
{
    broadcast use group_typing;
    lemma_global_variable_typed(c.writer, s.module, handle);
    lemma_beside_typed(c, c.writer.global_variable_id(s.module, handle));
}

proof fn lemma_constant_expression_typed(c: Cursor, s: Scope, handle: Handle<Constant>)
    requires
        c.is_typed(),
    ensures
        c.is_typed_by(c.constant(s, handle)),
{
    broadcast use group_typing;
    lemma_constant_id_typed(c.writer, s.module, handle);
    lemma_beside_typed(c, c.writer.constant_id(s.module, handle));
}

proof fn lemma_compose_typed(
    c: Cursor,
    s: Scope,
    ty: Handle<Type>,
    components: Seq<Handle<Expression>>,
    depth: nat,
)
    requires
        c.is_typed(),
    ensures
        c.is_typed_by(c.compose(s, ty, components, depth)),
    decreases depth, 3nat, 0nat,
{
    broadcast use group_typing;
    lemma_cursor_type_typed(c, s.module.types, LookupType::Handle(ty));
    if let Outcome::Done(c1, type_id) = c.type_id(s.module.types, LookupType::Handle(ty)) {
        lemma_values_typed(c1, s, components, 0, Seq::empty(), depth);
        if let Outcome::Done(c2, ids) = c1.values(s, components, 0, Seq::empty(), depth) {
            lemma_composite_construct_typed(c2, type_id, ids);
        }
    }
}

proof fn lemma_unary_typed(
    c: Cursor,
    s: Scope,
    op: UnaryOperator,
    expr: Handle<Expression>,
    depth: nat,
)
    requires
        c.is_typed(),
    ensures
        c.is_typed_by(c.unary(s, op, expr, depth)),
    decreases depth, 3nat, 0nat,
{
    broadcast use group_typing;
    if let Outcome::Done(c1, id) = c.generate_id() {
        lemma_value_typed(c1, s, expr, depth);
        if let Outcome::Done(c2, operand) = c1.value(s, expr, depth) {
            lemma_cursor_type_typed(c2, s.module.types, operand.1);
        }
    }
}

proof fn lemma_binary_typed(
    c: Cursor,
    s: Scope,
    op: BinaryOperator,
    left: Handle<Expression>,
    right: Handle<Expression>,
    depth: nat,
)
    requires
        c.is_typed(),
    ensures
        c.is_typed_by(c.binary(s, op, left, right, depth)),
    decreases depth, 3nat, 0nat,
{
    broadcast use group_typing;
    if let Outcome::Done(c1, id) = c.generate_id() {
        lemma_value_typed(c1, s, left, depth);
        if let Outcome::Done(c2, l) = c1.value(s, left, depth) {
            lemma_value_typed(c2, s, right, depth);
            if let Outcome::Done(c3, r) = c2.value(s, right, depth) {
                lemma_apply_binary_typed(c3, s, op, id, l, r);
            }
        }
    }
}

proof fn lemma_apply_binary_typed(
    c: Cursor,
    s: Scope,
    op: BinaryOperator,
    id: Word,
    l: (Word, LookupType),
    r: (Word, LookupType),
)
    requires
        c.is_typed(),
    ensures
        c.is_typed_by(c.apply_binary(s, op, id, l, r)),
{
    broadcast use group_typing;
    reveal(Cursor::apply_binary);
    lemma_cursor_type_typed(c, s.module.types, l.1);
    if let Outcome::Done(c1, _) = c.type_id(s.module.types, l.1) {
        lemma_cursor_type_typed(c1, s.module.types, r.1);
        if let Outcome::Done(c2, _) = c1.type_id(s.module.types, r.1) {
            lemma_cursor_type_typed(c2, s.module.types, scalar(ScalarKind::Bool, 1));
        }
    }
}

proof fn lemma_math_typed(
    c: Cursor,
    s: Scope,
    fun: MathFunction,
    arg: Handle<Expression>,
    arg1: Option<Handle<Expression>>,
    arg2: Option<Handle<Expression>>,
    depth: nat,
)
    requires
        c.is_typed(),
    ensures
        c.is_typed_by(c.math(s, fun, arg, arg1, arg2, depth)),
    decreases depth, 3nat, 0nat,
{
    broadcast use group_typing;
    lemma_value_typed(c, s, arg, depth);
    if let Outcome::Done(c1, arg0) = c.value(s, arg, depth) {
        lemma_cursor_type_typed(c1, s.module.types, arg0.1);
        if let Outcome::Done(c2, type_id) = c1.type_id(s.module.types, arg0.1) {
            lemma_optional_value_typed(c2, s, arg1, depth);
            if let Outcome::Done(c3, arg1_id) = c2.optional_value(s, arg1, depth) {
                lemma_optional_value_typed(c3, s, arg2, depth);
                if let Outcome::Done(c4, arg2_id) = c3.optional_value(s, arg2, depth) {
                    lemma_apply_math_typed(c4, s, fun, arg0, type_id, arg1_id, arg2_id);
                }
            }
        }
    }
}

proof fn lemma_apply_math_typed(
    c: Cursor,
    s: Scope,
    fun: MathFunction,
    arg0: (Word, LookupType),
    arg0_type_id: Word,
    arg1_id: Option<Word>,
    arg2_id: Option<Word>,
)
    requires
        c.is_typed(),
        c.writer.declares(arg0_type_id),
    ensures
        c.is_typed_by(c.apply_math(s, fun, arg0, arg0_type_id, arg1_id, arg2_id)),
{
    broadcast use group_typing;
    reveal(Cursor::apply_math);
    if let Outcome::Done(c1, id) = c.generate_id() {
        if let Outcome::Done(_, op) = math_op(fun, type_inner(s.module.types, arg0.1)) {
            match op {
                MathOp::Dot(ty) => {
                    lemma_cursor_type_typed(c1, s.module.types, ty);
                },
                MathOp::Length(ty) => {
                    lemma_cursor_type_typed(c1, s.module.types, ty);
                },
                MathOp::Distance(ty) => {
                    lemma_cursor_type_typed(c1, s.module.types, ty);
                },
                MathOp::Transpose(ty) => {
                    lemma_cursor_type_typed(c1, s.module.types, ty);
                },
                _ => {},
            }
        }
    }
}

proof fn lemma_call_typed(
    c: Cursor,
    s: Scope,
    function: Handle<IrFunction>,
    arguments: Seq<Handle<Expression>>,
    depth: nat,
)
    requires
        c.is_typed(),
    ensures
        c.is_typed_by(c.call(s, function, arguments, depth)),
    decreases depth, 3nat, 0nat,
{
    broadcast use group_typing;
    if s.module.functions.contains(function) {
        let return_type = s.module.functions.at(function).return_type;
        if let Outcome::Done(c1, id) = c.generate_id() {
            lemma_values_typed(c1, s, arguments, 0, Seq::empty(), depth);
            if let Outcome::Done(c2, ids) = c1.values(s, arguments, 0, Seq::empty(), depth) {
                lemma_return_type_typed(c2.writer, s.module.types, return_type);
                lemma_beside_typed(c2, c2.writer.return_type_id(s.module.types, return_type));
            }
        }
    }
}

proof fn lemma_cast_typed(
    c: Cursor,
    s: Scope,
    expr: Handle<Expression>,
    kind: ScalarKind,
    convert: bool,
    depth: nat,
)
    requires
        c.is_typed(),
    ensures
        c.is_typed_by(c.cast(s, expr, kind, convert, depth)),
    decreases depth, 3nat, 0nat,
{
    broadcast use group_typing;
    if convert {
        lemma_value_typed(c, s, expr, depth);
        if let Outcome::Done(c1, operand) = c.value(s, expr, depth) {
            match type_inner(s.module.types, operand.1) {
                Some(TypeInner::Scalar { kind: from, width }) => {
                    lemma_convert_typed(c1, s, operand.0, from, kind, scalar(kind, width));
                },
                Some(TypeInner::Vector { size, kind: from, width }) => {
                    lemma_convert_typed(c1, s, operand.0, from, kind, vector(size, kind, width));
                },
                _ => {},
            }
        }
    }
}

proof fn lemma_convert_typed(
    c: Cursor,
    s: Scope,
    operand_id: Word,
    from: ScalarKind,
    to: ScalarKind,
    ty: LookupType,
)
    requires
        c.is_typed(),
    ensures
        c.is_typed_by(c.convert(s, operand_id, from, to, ty)),
{
    broadcast use group_typing;
    if let Outcome::Done(c1, id) = c.generate_id() {
        lemma_cursor_type_typed(c1, s.module.types, ty);
    }
}

proof fn lemma_image_sample_typed(
    c: Cursor,
    s: Scope,
    image: Handle<Expression>,
    sampler: Handle<Expression>,
    coordinate: Handle<Expression>,
    array_index: Option<Handle<Expression>>,
    offset: Option<Handle<Constant>>,
    level: SampleLevel,
    depth_ref: Option<Handle<Expression>>,
    depth: nat,
)
    requires
        c.is_typed(),
    ensures
        c.is_typed_by(
            c.image_sample(
                s,
                image,
                sampler,
                coordinate,
                array_index,
                offset,
                level,
                depth_ref,
                depth,
            ),
        ),
    decreases depth, 7nat, 0nat,
{
    broadcast use group_typing;
    lemma_value_typed(c, s, image, depth);
    if let Outcome::Done(c1, image_value) = c.value(s, image, depth) {
        if let LookupType::Handle(image_type) = image_value.1 {
            let sampled = LookupType::Local(LocalType::SampledImage { image_type });
            lemma_cursor_type_typed(c1, s.module.types, sampled);
            if let Outcome::Done(c2, sampled_type_id) = c1.type_id(s.module.types, sampled) {
                lemma_value_typed(c2, s, sampler, depth);
                if let Outcome::Done(c3, sampler_value) = c2.value(s, sampler, depth) {
                    lemma_image_coordinate_typed(c3, s, coordinate, array_index, depth);
                    if let Outcome::Done(c4, coordinate_id) = c3.image_coordinate(
                        s,
                        coordinate,
                        array_index,
                        depth,
                    ) {
                        lemma_sample_at_typed(
                            c4,
                            s,
                            image_value.0,
                            image_type,
                            sampled_type_id,
                            sampler_value.0,
                            coordinate_id,
                            offset,
                            level,
                            depth_ref,
                            depth,
                        );
                    }
                }
            }
        }
    }
}

proof fn lemma_image_coordinate_typed(
    c: Cursor,
    s: Scope,
    coordinate: Handle<Expression>,
    array_index: Option<Handle<Expression>>,
    depth: nat,
)
    requires
        c.is_typed(),
    ensures
        c.is_typed_by(c.image_coordinate(s, coordinate, array_index, depth)),
    decreases depth, 5nat, 0nat,
{
    broadcast use group_typing;
    lemma_value_typed(c, s, coordinate, depth);
    if let Outcome::Done(c1, value) = c.value(s, coordinate, depth) {
        if let Some(array_index) = array_index {
            let number = scalar(ScalarKind::Float, 4);
            lemma_cursor_type_typed(c1, s.module.types, number);
            if let Outcome::Done(c2, type_id) = c1.type_id(s.module.types, number) {
                lemma_coordinate_components_typed(c2, s, value.0, value.1, type_id);
                if let Outcome::Done(c3, ids) = c2.coordinate_components(
                    s,
                    value.0,
                    value.1,
                    type_id,
                ) {
                    lemma_layered_coordinate_typed(c3, s, ids, type_id, array_index, depth);
                }
            }
        }
    }
}

proof fn lemma_coordinate_components_typed(
    c: Cursor,
    s: Scope,
    coordinate_id: Word,
    ty: LookupType,
    scalar_type_id: Word,
)
    requires
        c.is_typed(),
        c.writer.declares(scalar_type_id),
    ensures
        c.is_typed_by(c.coordinate_components(s, coordinate_id, ty, scalar_type_id)),
{
    broadcast use group_typing;
    reveal(Cursor::coordinate_components);
    if let Some(TypeInner::Vector { size, .. }) = type_inner(s.module.types, ty) {
        lemma_components_typed(
            c,
            coordinate_id,
            scalar_type_id,
            0,
            size.number() as nat,
            Seq::empty(),
        );
    }
}

proof fn lemma_components_typed(
    c: Cursor,
    vector_id: Word,
    scalar_type_id: Word,
    i: nat,
    n: nat,
    ids: Seq<Word>,
)
    requires
        c.is_typed(),
        c.writer.declares(scalar_type_id),
    ensures
        c.is_typed_by(c.components(vector_id, scalar_type_id, i, n, ids)),
    decreases n - i,
{
    broadcast use group_typing;
    if i < n {
        if let Outcome::Done(c1, id) = c.generate_id() {
            let c2 = c1.emit(
                op_composite_extract(scalar_type_id, id, vector_id, seq![i as u32]),
            );
            lemma_components_typed(c2, vector_id, scalar_type_id, i + 1, n, ids.push(id));
        }
    }
}

proof fn lemma_layered_coordinate_typed(
    c: Cursor,
    s: Scope,
    ids: Seq<Word>,
    scalar_type_id: Word,
    array_index: Handle<Expression>,
    depth: nat,
)
    requires
        c.is_typed(),
        c.writer.declares(scalar_type_id),
    ensures
        c.is_typed_by(c.layered_coordinate(s, ids, scalar_type_id, array_index, depth)),
    decreases depth, 4nat, 0nat,
{
    broadcast use group_typing;
    let size = if ids.len() == 1 {
        VectorSize::Bi
    } else if ids.len() == 2 {
        VectorSize::Tri
    } else {
        VectorSize::Quad
    };
    let ty = vector(size, ScalarKind::Float, 4);
    if let Outcome::Done(c1, layer_id) = c.generate_id() {
        lemma_value_typed(c1, s, array_index, depth);
        if let Outcome::Done(c2, index) = c1.value(s, array_index, depth) {
            let c3 = c2.emit(
                op_unary(spirv::Op::ConvertUToF, scalar_type_id, layer_id, index.0),
            );
            lemma_cursor_type_typed(c3, s.module.types, ty);
            if let Outcome::Done(c4, type_id) = c3.type_id(s.module.types, ty) {
                lemma_composite_construct_typed(c4, type_id, ids.push(layer_id));
            }
        }
    }
}

proof fn lemma_sample_at_typed(
    c: Cursor,
    s: Scope,
    image_id: Word,
    image_type: Handle<Type>,
    sampled_image_type_id: Word,
    sampler_id: Word,
    coordinate_id: Word,
    offset: Option<Handle<Constant>>,
    level: SampleLevel,
    depth_ref: Option<Handle<Expression>>,
    depth: nat,
)
    requires
        c.is_typed(),
        c.writer.declares(sampled_image_type_id),
    ensures
        c.is_typed_by(
            c.sample_at(
                s,
                image_id,
                image_type,
                sampled_image_type_id,
                sampler_id,
                coordinate_id,
                offset,
                level,
                depth_ref,
                depth,
            ),
        ),
    decreases depth, 6nat, 0nat,
{
    broadcast use group_typing;
    if s.module.types.contains(image_type) {
        if let Some(ty) = sample_type(s.module.types.at(image_type).inner) {
            if let Outcome::Done(c1, sampled_image_id) = c.generate_id() {
                let c2 = c1.emit(
                    op_sampled_image(
                        sampled_image_type_id,
                        sampled_image_id,
                        image_id,
                        sampler_id,
                    ),
                );
                if let Outcome::Done(c3, id) = c2.generate_id() {
                    lemma_cursor_type_typed(c3, s.module.types, ty);
                    if let Outcome::Done(c4, type_id) = c3.type_id(s.module.types, ty) {
                        lemma_sample_instruction_typed(
                            c4,
                            s,
                            type_id,
                            id,
                            sampled_image_id,
                            coordinate_id,
                            offset,
                            level,
                            depth_ref,
                            depth,
                        );
                    }
                }
            }
        }
    }
}

proof fn lemma_sample_instruction_typed(
    c: Cursor,
    s: Scope,
    type_id: Word,
    id: Word,
    sampled_image_id: Word,
    coordinate_id: Word,
    offset: Option<Handle<Constant>>,
    level: SampleLevel,
    depth_ref: Option<Handle<Expression>>,
    depth: nat,
)
    requires
        c.is_typed(),
    ensures
        c.is_typed_by(
            c.sample_instruction(
                s,
                type_id,
                id,
                sampled_image_id,
                coordinate_id,
                offset,
                level,
                depth_ref,
                depth,
            ),
        ),
        c.sample_instruction(
            s,
            type_id,
            id,
            sampled_image_id,
            coordinate_id,
            offset,
            level,
            depth_ref,
            depth,
        ) matches Outcome::Done(_, instruction) ==> instruction.type_id == Some(type_id),
    decreases depth, 5nat, 0nat,
{
    broadcast use group_typing;
    lemma_optional_value_typed(c, s, depth_ref, depth);
    if let Outcome::Done(c1, _) = c.optional_value(s, depth_ref, depth) {
        lemma_level_operands_typed(c1, s, level, depth);
        if let Outcome::Done(c2, _) = c1.level_operands(s, level, depth) {
            if let Some(handle) = offset {
                lemma_constant_id_typed(c2.writer, s.module, handle);
                lemma_beside_typed(c2, c2.writer.constant_id(s.module, handle));
            }
        }
    }
}

proof fn lemma_float_zero_typed(c: Cursor, s: Scope)
    requires
        c.is_typed(),
    ensures
        c.is_typed_by(c.float_zero(s)),
{
    broadcast use group_typing;
    reveal(Cursor::float_zero);
    if let Outcome::Done(c1, id) = c.generate_id() {
        let zero = ConstantInner::Scalar {
            width: 4,
            value: ScalarValue::Float { single: 0, double: 0 },
        };
        let n = s.module.constants.count();
        lemma_define_constant_typed(c1.writer, s.module, id, zero, n);
        lemma_beside_typed(c1, c1.writer.define_constant(s.module, id, zero, n));
    }
}

proof fn lemma_level_operands_typed(c: Cursor, s: Scope, level: SampleLevel, depth: nat)
    requires
        c.is_typed(),
    ensures
        c.is_typed_by(c.level_operands(s, level, depth)),
    decreases depth, 4nat, 0nat,
{
    broadcast use group_typing;
    match level {
        SampleLevel::Zero => {
            lemma_float_zero_typed(c, s);
        },
        SampleLevel::Auto => {},
        SampleLevel::Exact(lod) => {
            lemma_value_typed(c, s, lod, depth);
        },
        SampleLevel::Bias(bias) => {
            lemma_value_typed(c, s, bias, depth);
        },
        SampleLevel::Gradient { x, y } => {
            lemma_value_typed(c, s, x, depth);
            if let Outcome::Done(c1, _) = c.value(s, x, depth) {
                lemma_value_typed(c1, s, y, depth);
            }
        },
    }
}

} // verus!

//! What the instructions of operators, functions and calls say.

use crate::arena::Handle;
use crate::ir::{
    BinaryOperator, Constant, ConstantInner, Expression, Function as IrFunction, MathFunction,
    Module, ScalarKind, ScalarValue, TypeInner, UnaryOperator,
};
use crate::spv::expression_laws::{
    ends_with, expression_at, is_value, lemma_names, lemma_names_later, names_type, writes_value,
    TypedValue,
};
use crate::spv::expressions::{beside, Cursor, Scope};
use crate::spv::function::BlockView;
use crate::spv::growth::{group_growth, lemma_generate};
use crate::spv::growth_declarations::{lemma_define_constant_grows, lemma_return_type_grows};
use crate::spv::growth_expressions::{lemma_optional_value_grows, lemma_values_grow};
use crate::spv::lookup::{LocalType, LookupType};
use crate::spv::model::{Outcome, WriterView};
use crate::spv::operator_laws::{
    arity, converts, extended_takes_kind, function_of, has_kind, is_converted, is_negation,
    is_turned, law_conversions_are_computed, law_functions_are_computed,
    law_operators_are_computed, law_unary_operators_are_computed, operator_of, takes_kind,
    takes_shapes,
};
use crate::spv::operators::{math_op, MathOp};
use crate::spv::types::type_inner;
use crate::spv::words::Word;
use spirv_headers as spirv;
use vstd::prelude::*;

verus! {

/// A unary operator is applied to the value of its operand, by an operation that computes it on
/// values of that kind. The result has the type of the operand.
pub proof fn law_unary_operators_are_applied(
    c: Cursor,
    s: Scope,
    handle: Handle<Expression>,
    depth: nat,
) -> (r: (TypedValue, BlockView))
    requires
        expression_at(s, handle) is Unary,
        c.raw(s, handle, depth) is Done,
    ensures
        (c.raw(s, handle, depth), expression_at(s, handle)) matches (
            Outcome::Done(e, result),
            Expression::Unary { op, expr },
        ) ==> {
            let (operand, middle) = r;
            let last = e.block.body.last();
            let types = s.module.types;
            &&& is_value(s, expr, (depth - 1) as nat, c.block, operand, middle)
            &&& result.0 is Value
            &&& result.1 == operand.1
            &&& ends_with(middle, e, types, last, result.0->Value_0, result.1)
            &&& last.operands == seq![operand.0]
            &&& match op {
                UnaryOperator::Negate => is_negation(last.op) && type_inner(types, operand.1)
                    is Some && forall|kind: ScalarKind| #[trigger]
                    has_kind(type_inner(types, operand.1)->0, kind) ==> takes_kind(last.op, kind),
                UnaryOperator::Not => last.op == spirv::Op::Not,
            }
        },
{
    let types = s.module.types;
    let d = (depth - 1) as nat;
    let op = expression_at(s, handle)->Unary_op;
    let expr = expression_at(s, handle)->Unary_expr;
    assert(c.raw(s, handle, depth) == c.unary(s, op, expr, d));
    let c1 = c.generate_id()->Done_0;
    let c2 = c1.value(s, expr, d)->Done_0;
    let operand = c1.value(s, expr, d)->Done_1;
    assert(writes_value(c1, s, expr, d, c2, operand));
    lemma_names(c2, types, operand.1);
    law_unary_operators_are_computed(op, type_inner(types, operand.1)->0);
    (operand, c2.block)
}

/// The type of the result of an operator: a truth value for a comparison, the vector for a
/// product with a vector on the right, else the type of the left operand.
pub open spec fn is_result_type(
    op: BinaryOperator,
    l: LookupType,
    r: LookupType,
    right: TypeInner,
    ty: LookupType,
) -> bool {
    match op {
        BinaryOperator::Equal
        | BinaryOperator::NotEqual
        | BinaryOperator::Less
        | BinaryOperator::LessEqual
        | BinaryOperator::Greater
        | BinaryOperator::GreaterEqual => ty == LookupType::Local(
            LocalType::Scalar { kind: ScalarKind::Bool, width: 1 },
        ),
        BinaryOperator::Multiply => ty == if right is Vector {
            r
        } else {
            l
        },
        _ => ty == l,
    }
}

/// A binary operator is applied to the values of its operands, the left one first, by an
/// operation that computes it on operands of these types. Only the factors of a scalar and a
/// vector are exchanged.
pub proof fn law_binary_operators_are_applied(
    c: Cursor,
    s: Scope,
    handle: Handle<Expression>,
    depth: nat,
) -> (r: (TypedValue, BlockView, TypedValue, BlockView))
    requires
        expression_at(s, handle) is Binary,
        c.raw(s, handle, depth) is Done,
    ensures
        (c.raw(s, handle, depth), expression_at(s, handle)) matches (
            Outcome::Done(e, result),
            Expression::Binary { op, left, right },
        ) ==> {
            let (l, middle, r, after) = r;
            let last = e.block.body.last();
            let types = s.module.types;
            &&& is_value(s, left, (depth - 1) as nat, c.block, l, middle)
            &&& is_value(s, right, (depth - 1) as nat, middle, r, after)
            &&& type_inner(types, l.1) is Some && type_inner(types, r.1) is Some
            &&& {
                let a = type_inner(types, l.1)->0;
                let b = type_inner(types, r.1)->0;
                &&& operator_of(last.op) == Some(op)
                &&& forall|kind: ScalarKind| #[trigger] has_kind(a, kind) ==> takes_kind(last.op, kind)
                &&& is_result_type(op, l.1, r.1, b, result.1)
                &&& if is_turned(op, a, b) {
                    last.operands == seq![r.0, l.0] && takes_shapes(last.op, b, a)
                } else {
                    last.operands == seq![l.0, r.0] && takes_shapes(last.op, a, b)
                }
            }
            &&& result.0 is Value
            &&& ends_with(after, e, types, last, result.0->Value_0, result.1)
        },
{
    broadcast use group_growth;
    let types = s.module.types;
    let d = (depth - 1) as nat;
    let op = expression_at(s, handle)->Binary_op;
    let left = expression_at(s, handle)->Binary_left;
    let right = expression_at(s, handle)->Binary_right;
    let e = c.raw(s, handle, depth)->Done_0;
    assert(c.raw(s, handle, depth) == c.binary(s, op, left, right, d));
    let c1 = c.generate_id()->Done_0;
    let c2 = c1.value(s, left, d)->Done_0;
    let l = c1.value(s, left, d)->Done_1;
    assert(writes_value(c1, s, left, d, c2, l));
    let c3 = c2.value(s, right, d)->Done_0;
    let r = c2.value(s, right, d)->Done_1;
    assert(writes_value(c2, s, right, d, c3, r));
    reveal(Cursor::apply_binary);
    let a = type_inner(types, l.1)->0;
    let b = type_inner(types, r.1)->0;
    law_operators_are_computed(op, a, b);
    lemma_names(c3, types, l.1);
    if let Outcome::Done(c4, left_id) = c3.type_id(types, l.1) {
        lemma_names(c4, types, r.1);
        if let Outcome::Done(c5, _) = c4.type_id(types, r.1) {
            lemma_names_later(c4.writer, c5.writer, types, l.1, left_id);
            lemma_names(
                c5,
                types,
                LookupType::Local(LocalType::Scalar { kind: ScalarKind::Bool, width: 1 }),
            );
        }
    }
    (l, c2.block, r, c3.block)
}

/// Whether `id` is the value of an expression, whatever its type.
pub open spec fn is_valued(
    s: Scope,
    handle: Handle<Expression>,
    depth: nat,
    before: BlockView,
    id: Word,
    after: BlockView,
) -> bool {
    exists|ty: LookupType| #[trigger] is_value(s, handle, depth, before, (id, ty), after)
}

/// The value of an argument that may be missing.
pub open spec fn is_optional_value(
    s: Scope,
    handle: Option<Handle<Expression>>,
    depth: nat,
    before: BlockView,
    id: Word,
    after: BlockView,
) -> bool {
    match handle {
        Some(handle) => is_valued(s, handle, depth, before, id, after),
        None => id == 0 && after == before,
    }
}

/// The type of the result of a function: of the components for a product of vectors, a length or
/// a distance, with rows for columns for a transposition, else the type of the argument.
pub open spec fn is_function_type(
    fun: MathFunction,
    argument: LookupType,
    inner: Option<TypeInner>,
    ty: LookupType,
) -> bool {
    match fun {
        MathFunction::Dot | MathFunction::Length | MathFunction::Distance => match inner {
            Some(TypeInner::Scalar { kind, width }) => ty == LookupType::Local(
                LocalType::Scalar { kind, width },
            ),
            Some(TypeInner::Vector { kind, width, .. }) => ty == LookupType::Local(
                LocalType::Scalar { kind, width },
            ),
            _ => false,
        },
        MathFunction::Transpose => match inner {
            Some(TypeInner::Matrix { columns, rows, width }) => ty == LookupType::Local(
                LocalType::Matrix { columns: rows, rows: columns, width },
            ),
            _ => false,
        },
        _ => ty == argument,
    }
}

/// Whether an instruction applies a function to arguments, in their order: by an extended
/// instruction of the set `set_id`, or by an operation of its own.
pub open spec fn applies(
    op: spirv::Op,
    operands: Seq<Word>,
    fun: MathFunction,
    inner: Option<TypeInner>,
    set_id: Word,
    arguments: Seq<Word>,
) -> bool {
    match fun {
        MathFunction::Dot => op == spirv::Op::Dot && operands == seq![arguments[0], arguments[1]],
        MathFunction::Transpose => op == spirv::Op::Transpose && operands == seq![arguments[0]],
        _ => if fun == MathFunction::Abs && inner is Some && has_kind(inner->0, ScalarKind::Uint) {
            op == spirv::Op::CopyObject && operands == seq![arguments[0]]
        } else {
            &&& op == spirv::Op::ExtInst
            &&& operands.len() == 2 + arity(fun)
            &&& operands[0] == set_id
            &&& exists|instruction: spirv::GLOp|
                {
                    &&& operands[1] == instruction as u32
                    &&& #[trigger] function_of(instruction) == Some(fun)
                    &&& inner matches Some(inner) ==> forall|kind: ScalarKind| #[trigger]
                        has_kind(inner, kind) ==> extended_takes_kind(instruction, kind)
                }
            &&& forall|i: int|
                0 <= i < arity(fun) ==> #[trigger] operands[2 + i] == arguments[i]
        },
    }
}

pub proof fn lemma_optional(c: Cursor, s: Scope, handle: Option<Handle<Expression>>, depth: nat)
    ensures
        c.optional_value(s, handle, depth) matches Outcome::Done(e, id) ==> {
            &&& is_optional_value(
                s,
                handle,
                depth,
                c.block,
                if id is Some {
                    id->0
                } else {
                    0
                },
                e.block,
            )
            &&& c.writer.is_kept_by(e.writer)
        },
{
    broadcast use group_growth;
    lemma_optional_value_grows(c, s, handle, depth);
    reveal(Cursor::is_kept_by);
    if let Some(handle) = handle {
        if let Outcome::Done(e, value) = c.value(s, handle, depth) {
            assert(writes_value(c, s, handle, depth, e, value));
            assert(is_value(s, handle, depth, c.block, (value.0, value.1), e.block));
        }
    }
}

/// A mathematical function is applied to the values of its arguments, in their order.
pub proof fn law_functions_are_applied(c: Cursor, s: Scope, handle: Handle<Expression>, depth: nat) -> (r: (
    TypedValue,
    BlockView,
    Word,
    BlockView,
    Word,
    BlockView,
))
    requires
        expression_at(s, handle) is Math,
        c.raw(s, handle, depth) is Done,
    ensures
        (c.raw(s, handle, depth), expression_at(s, handle)) matches (
            Outcome::Done(e, result),
            Expression::Math { fun, arg, arg1, arg2 },
        ) ==> {
            let (x, middle, y, late, z, after) = r;
            let last = e.block.body.last();
            let types = s.module.types;
            let d = (depth - 1) as nat;
            &&& is_value(s, arg, d, c.block, x, middle)
            &&& is_optional_value(s, arg1, d, middle, y, late)
            &&& is_optional_value(s, arg2, d, late, z, after)
            &&& applies(
                last.op,
                last.operands,
                fun,
                type_inner(types, x.1),
                e.writer.gl450_ext_inst_id,
                seq![x.0, y, z],
            )
            &&& is_function_type(fun, x.1, type_inner(types, x.1), result.1)
            &&& result.0 is Value
            &&& ends_with(after, e, types, last, result.0->Value_0, result.1)
        },
{
    broadcast use group_growth;
    let types = s.module.types;
    let d = (depth - 1) as nat;
    let fun = expression_at(s, handle)->Math_fun;
    let arg = expression_at(s, handle)->Math_arg;
    let arg1 = expression_at(s, handle)->Math_arg1;
    let arg2 = expression_at(s, handle)->Math_arg2;
    let e = c.raw(s, handle, depth)->Done_0;
    assert(c.raw(s, handle, depth) == c.math(s, fun, arg, arg1, arg2, d));
    let c1 = c.value(s, arg, d)->Done_0;
    let x = c.value(s, arg, d)->Done_1;
    assert(writes_value(c, s, arg, d, c1, x));
    lemma_names(c1, types, x.1);
    let c2 = c1.type_id(types, x.1)->Done_0;
    let type_id = c1.type_id(types, x.1)->Done_1;
    lemma_optional(c2, s, arg1, d);
    let c3 = c2.optional_value(s, arg1, d)->Done_0;
    let y = c2.optional_value(s, arg1, d)->Done_1;
    lemma_optional(c3, s, arg2, d);
    let c4 = c3.optional_value(s, arg2, d)->Done_0;
    let z = c3.optional_value(s, arg2, d)->Done_1;
    let b = if y is Some {
        y->0
    } else {
        0
    };
    let b2 = if z is Some {
        z->0
    } else {
        0
    };
    lemma_names_later(c2.writer, c4.writer, types, x.1, type_id);
    lemma_math_applied(c4, s, fun, x, type_id, y, z);
    (x, c1.block, b, c3.block, b2, c4.block)
}

proof fn lemma_math_applied(
    c: Cursor,
    s: Scope,
    fun: MathFunction,
    x: TypedValue,
    type_id: Word,
    y: Option<Word>,
    z: Option<Word>,
)
    requires
        names_type(c.writer, s.module.types, x.1, type_id),
    ensures
        c.apply_math(s, fun, x, type_id, y, z) matches Outcome::Done(e, result) ==> {
            let last = e.block.body.last();
            let types = s.module.types;
            let b = if y is Some {
                y->0
            } else {
                0
            };
            let b2 = if z is Some {
                z->0
            } else {
                0
            };
            &&& applies(
                last.op,
                last.operands,
                fun,
                type_inner(types, x.1),
                e.writer.gl450_ext_inst_id,
                seq![x.0, b, b2],
            )
            &&& is_function_type(fun, x.1, type_inner(types, x.1), result.1)
            &&& result.0 is Value
            &&& ends_with(c.block, e, types, last, result.0->Value_0, result.1)
        },
{
    broadcast use group_growth;
    reveal(Cursor::apply_math);
    let types = s.module.types;
    let inner = type_inner(types, x.1);
    law_functions_are_computed(fun, inner);
    if let Outcome::Done(c1, id) = c.generate_id() {
        assert(c1.writer.gl450_ext_inst_id == c.writer.gl450_ext_inst_id);
        lemma_generate(c.writer);
        lemma_names_later(c.writer, c1.writer, types, x.1, type_id);
        if let Outcome::Done(_, op) = math_op(fun, inner) {
            if let MathOp::Dot(ty) = op {
                lemma_names(c1, types, ty);
            }
            if let MathOp::Length(ty) = op {
                lemma_names(c1, types, ty);
                assert(function_of(spirv::GLOp::Length) == Some(fun));
            }
            if let MathOp::Distance(ty) = op {
                lemma_names(c1, types, ty);
                assert(function_of(spirv::GLOp::Distance) == Some(fun));
            }
            if let MathOp::Transpose(ty) = op {
                lemma_names(c1, types, ty);
            }
        }
    }
}

/// The type of a number of kind `kind`, or of a vector of such numbers, as wide as `inner`.
pub open spec fn is_of_kind(inner: TypeInner, kind: ScalarKind, ty: LookupType) -> bool {
    match inner {
        TypeInner::Scalar { width, .. } => ty == LookupType::Local(
            LocalType::Scalar { kind, width },
        ),
        TypeInner::Vector { size, width, .. } => ty == LookupType::Local(
            LocalType::Vector { size, kind, width },
        ),
        _ => false,
    }
}

/// A number is converted to the wanted kind, in its own shape and width. Where both kinds have
/// the same bits, or none of them is a number, it is taken as it is.
pub proof fn law_numbers_are_converted(c: Cursor, s: Scope, handle: Handle<Expression>, depth: nat) -> (r: (
    TypedValue,
    BlockView,
))
    requires
        expression_at(s, handle) is As,
        c.raw(s, handle, depth) is Done,
    ensures
        (c.raw(s, handle, depth), expression_at(s, handle)) matches (
            Outcome::Done(e, result),
            Expression::As { expr, kind, convert },
        ) ==> {
            let (operand, middle) = r;
            let last = e.block.body.last();
            let types = s.module.types;
            &&& convert
            &&& is_value(s, expr, (depth - 1) as nat, c.block, operand, middle)
            &&& type_inner(types, operand.1) is Some
            &&& is_of_kind(type_inner(types, operand.1)->0, kind, result.1)
            &&& result.0 is Value
            &&& forall|from: ScalarKind| #[trigger]
                has_kind(type_inner(types, operand.1)->0, from) ==> if is_converted(from, kind) {
                    &&& ends_with(middle, e, types, last, result.0->Value_0, result.1)
                    &&& converts(last.op) == Some((from, kind))
                    &&& last.operands == seq![operand.0]
                } else {
                    result.0->Value_0 == operand.0 && e.block == middle
                }
        },
{
    let types = s.module.types;
    let d = (depth - 1) as nat;
    let expr = expression_at(s, handle)->As_expr;
    let kind = expression_at(s, handle)->As_kind;
    let convert = expression_at(s, handle)->As_convert;
    assert(c.raw(s, handle, depth) == c.cast(s, expr, kind, convert, d));
    let c1 = c.value(s, expr, d)->Done_0;
    let operand = c.value(s, expr, d)->Done_1;
    assert(writes_value(c, s, expr, d, c1, operand));
    let inner = type_inner(types, operand.1)->0;
    assert forall|from: ScalarKind| #[trigger] has_kind(inner, from) implies true by {
        law_conversions_are_computed(from, kind);
    }
    law_conversions_are_computed(
        if inner is Scalar {
            inner->Scalar_kind
        } else {
            inner->Vector_kind
        },
        kind,
    );
    if let Outcome::Done(c2, _) = c1.generate_id() {
        lemma_names(c2, types, c.raw(s, handle, depth)->Done_1.1);
    }
    (operand, c1.block)
}

/// Whether `ids` are the values of expressions, in their order, and the blocks lead from the one
/// before the first to the one behind the last.
pub open spec fn are_values(
    s: Scope,
    handles: Seq<Handle<Expression>>,
    depth: nat,
    blocks: Seq<BlockView>,
    ids: Seq<Word>,
) -> bool {
    &&& ids.len() == handles.len()
    &&& blocks.len() == handles.len() + 1
    &&& forall|i: int|
        #![trigger ids[i]]
        0 <= i < handles.len() ==> is_valued(
            s,
            handles[i],
            depth,
            blocks[i],
            ids[i],
            blocks[i + 1],
        )
}

proof fn lemma_values(
    c: Cursor,
    s: Scope,
    handles: Seq<Handle<Expression>>,
    i: nat,
    ids: Seq<Word>,
    depth: nat,
    blocks: Seq<BlockView>,
) -> (whole: Seq<BlockView>)
    requires
        i <= handles.len(),
        are_values(s, handles.take(i as int), depth, blocks, ids),
        blocks.last() == c.block,
    ensures
        c.values(s, handles, i, ids, depth) matches Outcome::Done(e, all) ==> {
            &&& are_values(s, handles, depth, whole, all)
            &&& whole.last() == e.block
            &&& whole[0] == blocks[0]
            &&& c.writer.is_kept_by(e.writer)
        },
    decreases handles.len() - i,
{
    broadcast use group_growth;
    lemma_values_grow(c, s, handles, i, ids, depth);
    reveal(Cursor::is_kept_by);
    if i == handles.len() {
        assert(handles.take(i as int) =~= handles);
        blocks
    } else if let Outcome::Done(d, value) = c.value(s, handles[i as int], depth) {
        let more = blocks.push(d.block);
        let longer = ids.push(value.0);
        let n = i as int;
        let next = handles.take(n + 1);
        assert(writes_value(c, s, handles[i as int], depth, d, value));
        assert(is_value(s, next[n], depth, more[n], (longer[n], value.1), more[n + 1]));
        assert forall|k: int|
            #![trigger longer[k]]
            0 <= k < next.len() implies is_valued(
            s,
            next[k],
            depth,
            more[k],
            longer[k],
            more[k + 1],
        ) by {
            if k < i {
                assert(ids[k] == longer[k]);
            }
        }
        assert(are_values(s, next, depth, more, longer));
        assert(handles.take((i + 1) as int) =~= next);
        lemma_values(d, s, handles, i + 1, longer, depth, more)
    } else {
        blocks
    }
}

/// A composite value is made of the values of its components, in their order.
pub proof fn law_composites_are_made_of_components(
    c: Cursor,
    s: Scope,
    handle: Handle<Expression>,
    depth: nat,
) -> (blocks: Seq<BlockView>)
    requires
        expression_at(s, handle) is Compose,
        c.raw(s, handle, depth) is Done,
    ensures
        (c.raw(s, handle, depth), expression_at(s, handle)) matches (
            Outcome::Done(e, result),
            Expression::Compose { ty, components },
        ) ==> {
            let last = e.block.body.last();
            &&& are_values(s, components@, (depth - 1) as nat, blocks, last.operands)
            &&& blocks[0] == c.block
            &&& last.op == spirv::Op::CompositeConstruct
            &&& result.0 is Value
            &&& result.1 == LookupType::Handle(ty)
            &&& ends_with(blocks.last(), e, s.module.types, last, result.0->Value_0, result.1)
        },
{
    broadcast use group_growth;
    let types = s.module.types;
    let d = (depth - 1) as nat;
    let ty = expression_at(s, handle)->Compose_ty;
    let components = expression_at(s, handle)->Compose_components@;
    assert(c.raw(s, handle, depth) == c.compose(s, ty, components, d));
    lemma_names(c, types, LookupType::Handle(ty));
    let c1 = c.type_id(types, LookupType::Handle(ty))->Done_0;
    let type_id = c.type_id(types, LookupType::Handle(ty))->Done_1;
    assert(components.take(0) =~= Seq::empty());
    let blocks = lemma_values(c1, s, components, 0, Seq::empty(), d, seq![c1.block]);
    let c2 = c1.values(s, components, 0, Seq::empty(), d)->Done_0;
    lemma_generate(c2.writer);
    let c3 = c2.generate_id()->Done_0;
    lemma_names_later(c1.writer, c3.writer, types, LookupType::Handle(ty), type_id);
    blocks
}

/// Whether the writer, asked for what a function returns in state `a`, answers with `id` and goes
/// on to `b`.
pub open spec fn answers_return(
    a: WriterView,
    s: Scope,
    function: Handle<IrFunction>,
    b: WriterView,
    id: Word,
) -> bool {
    a.return_type_id(s.module.types, s.module.functions.at(function).return_type) == Outcome::Done(
        b,
        id,
    )
}

/// A call names the function that was written for the handle, and hands over the values of the
/// arguments, in their order. It has the type that the function returns.
pub proof fn law_calls_hand_over_arguments(
    c: Cursor,
    s: Scope,
    handle: Handle<Expression>,
    depth: nat,
) -> (blocks: Seq<BlockView>)
    requires
        expression_at(s, handle) is Call,
        c.raw(s, handle, depth) is Done,
    ensures
        (c.raw(s, handle, depth), expression_at(s, handle)) matches (
            Outcome::Done(e, result),
            Expression::Call { function, arguments },
        ) ==> {
            let last = e.block.body.last();
            let n = last.operands.len() as int;
            &&& n > 0
            &&& are_values(s, arguments@, (depth - 1) as nat, blocks, last.operands.subrange(1, n))
            &&& blocks[0] == c.block
            &&& e.block.body == blocks.last().body.push(last)
            &&& last.op == spirv::Op::FunctionCall
            &&& e.writer.lookup_function.contains_key(function)
            &&& last.operands[0] == e.writer.lookup_function[function]
            &&& result.0 is Value
            &&& last.result_id == Some(result.0->Value_0)
            &&& last.type_id is Some
            &&& exists|a: WriterView, b: WriterView| #[trigger]
                answers_return(a, s, function, b, last.type_id->0) && b.is_kept_by(e.writer)
            &&& result.1 == match s.module.functions.at(function).return_type {
                Some(ty) => LookupType::Handle(ty),
                None => LookupType::Local(LocalType::Void),
            }
        },
{
    broadcast use group_growth;
    let types = s.module.types;
    let d = (depth - 1) as nat;
    let function = expression_at(s, handle)->Call_function;
    let arguments = expression_at(s, handle)->Call_arguments@;
    let e = c.raw(s, handle, depth)->Done_0;
    assert(c.raw(s, handle, depth) == c.call(s, function, arguments, d));
    let c1 = c.generate_id()->Done_0;
    assert(arguments.take(0) =~= Seq::empty());
    let blocks = lemma_values(c1, s, arguments, 0, Seq::empty(), d, seq![c1.block]);
    let c2 = c1.values(s, arguments, 0, Seq::empty(), d)->Done_0;
    let ids = c1.values(s, arguments, 0, Seq::empty(), d)->Done_1;
    let return_type = s.module.functions.at(function).return_type;
    lemma_return_type_grows(c2.writer, types, return_type);
    let step = c2.writer.return_type_id(types, return_type);
    let c3 = beside(step, c2.block)->Done_0;
    let type_id = step->Done_1;
    let last = e.block.body.last();
    assert(last.type_id == Some(type_id));
    assert(answers_return(c2.writer, s, function, c3.writer, last.type_id->0));
    assert(c3.writer.is_kept_by(e.writer));
    assert(last.operands.subrange(1, last.operands.len() as int) =~= ids);
    blocks
}

/// Variables, arguments and constants are not computed: their identifiers are those under which
/// they were declared, in the order of the arena or of the function's arguments, and their types
/// those that they were declared with.
pub proof fn law_names_stand_for_what_was_declared(
    c: Cursor,
    s: Scope,
    handle: Handle<Expression>,
    depth: nat,
)
    ensures
        c.raw(s, handle, depth) matches Outcome::Done(e, result) ==> match expression_at(s, handle) {
            Expression::LocalVariable(variable) => {
                &&& e == c
                &&& result.0 is Pointer
                &&& result.0->Pointer_0 == s.function.variables[variable.index as int].0
                &&& result.0->Pointer_1 == spirv::StorageClass::Function
                &&& result.1 == LookupType::Handle(
                    s.ir_function.local_variables.data@[variable.index as int].ty,
                )
            },
            Expression::FunctionArgument(index) => {
                &&& e == c
                &&& result.0 is Value
                &&& s.function.parameters[index as int].result_id == Some(result.0->Value_0)
                &&& result.1 == LookupType::Handle(s.ir_function.arguments@[index as int].ty)
            },
            Expression::GlobalVariable(variable) => {
                &&& e.block == c.block
                &&& result.0 is Pointer
                &&& e.writer.lookup_global_variable.contains_key(variable)
                &&& e.writer.lookup_global_variable[variable] == (
                    result.0->Pointer_0,
                    result.0->Pointer_1,
                )
                &&& result.1 == LookupType::Handle(
                    s.module.global_variables.data@[variable.index as int].ty,
                )
            },
            Expression::Constant(constant) => {
                &&& e.block == c.block
                &&& result.0 is Value
                &&& e.writer.lookup_constant.contains_key(constant)
                &&& e.writer.lookup_constant[constant] == result.0->Value_0
                &&& match s.module.constants.data@[constant.index as int].inner {
                    ConstantInner::Scalar { width, value: ScalarValue::Sint(_) } => result.1
                        == LookupType::Local(LocalType::Scalar { kind: ScalarKind::Sint, width }),
                    ConstantInner::Scalar { width, value: ScalarValue::Uint(_) } => result.1
                        == LookupType::Local(LocalType::Scalar { kind: ScalarKind::Uint, width }),
                    ConstantInner::Scalar { width, value: ScalarValue::Float { .. } } => result.1
                        == LookupType::Local(LocalType::Scalar { kind: ScalarKind::Float, width }),
                    ConstantInner::Scalar { width, value: ScalarValue::Bool(_) } => result.1
                        == LookupType::Local(LocalType::Scalar { kind: ScalarKind::Bool, width }),
                    ConstantInner::Composite { ty, .. } => result.1 == LookupType::Handle(ty),
                }
            },
            _ => true,
        },
{
    if depth > 0 {
        if let Expression::GlobalVariable(variable) = expression_at(s, handle) {
            reveal(WriterView::global_variable_id);
            reveal(WriterView::new_global_variable);
        }
        if let Expression::Constant(constant) = expression_at(s, handle) {
            reveal(WriterView::constant_id);
            lemma_constant_remembered(c.writer, s.module, constant, s.module.constants.count());
        }
    }
}

pub proof fn lemma_constant_remembered(
    w: WriterView,
    module: Module,
    handle: Handle<Constant>,
    depth: nat,
)
    ensures
        w.constant_id_within(module, handle, depth) matches Outcome::Done(v, id)
            ==> v.lookup_constant.contains_key(handle) && v.lookup_constant[handle] == id,
{
    if !w.lookup_constant.contains_key(handle) && depth > 0 && module.constants.contains(handle) {
        if let Outcome::Done(a, id) = w.generate_id() {
            let b = a.remember_constant(handle, id);
            let inner = module.constants.at(handle).inner;
            lemma_define_constant_grows(b, module, id, inner, (depth - 1) as nat);
            if let Outcome::Done(v, _) = b.define_constant(module, id, inner, (depth - 1) as nat) {
                reveal(WriterView::is_kept_by);
                reveal(WriterView::is_remembered_by);
                assert(b.lookup_constant.dom().contains(handle));
            }
        }
    }
}

} // verus!

//! What the operations of SPIR-V compute, and that operators become operations that compute them.

use crate::ir::{BinaryOperator, MathFunction, ScalarKind, TypeInner, UnaryOperator};
use crate::spv::model::Outcome;
use crate::spv::operators::{
    binary_op, conversion_op, element_type, math_op, member_type, sample_type, unary_op, MathOp,
};
use spirv_headers as spirv;
use vstd::prelude::*;

verus! {

/// Whether the components of a value are of kind `kind`. Those of a matrix are floats.
pub open spec fn has_kind(inner: TypeInner, kind: ScalarKind) -> bool {
    ||| inner is Scalar && inner->Scalar_kind == kind
    ||| inner is Vector && inner->Vector_kind == kind
    ||| inner is Matrix && kind == ScalarKind::Float
}

/// Whether the components of a value are of some kind.
pub open spec fn is_numeric(inner: TypeInner) -> bool {
    inner is Scalar || inner is Vector || inner is Matrix
}

/// The operator that an operation on two operands computes.
pub open spec fn operator_of(op: spirv::Op) -> Option<BinaryOperator> {
    match op {
        spirv::Op::FAdd | spirv::Op::IAdd => Some(BinaryOperator::Add),
        spirv::Op::FSub | spirv::Op::ISub => Some(BinaryOperator::Subtract),
        spirv::Op::FMul
        | spirv::Op::IMul
        | spirv::Op::VectorTimesScalar
        | spirv::Op::MatrixTimesScalar
        | spirv::Op::VectorTimesMatrix
        | spirv::Op::MatrixTimesVector
        | spirv::Op::MatrixTimesMatrix => Some(BinaryOperator::Multiply),
        spirv::Op::FDiv | spirv::Op::SDiv | spirv::Op::UDiv => Some(BinaryOperator::Divide),
        spirv::Op::FMod | spirv::Op::SMod | spirv::Op::UMod => Some(BinaryOperator::Modulo),
        spirv::Op::FOrdEqual
        | spirv::Op::IEqual
        | spirv::Op::LogicalEqual => Some(BinaryOperator::Equal),
        spirv::Op::FOrdNotEqual
        | spirv::Op::INotEqual
        | spirv::Op::LogicalNotEqual => Some(BinaryOperator::NotEqual),
        spirv::Op::FOrdLessThan
        | spirv::Op::SLessThan
        | spirv::Op::ULessThan => Some(BinaryOperator::Less),
        spirv::Op::FOrdLessThanEqual
        | spirv::Op::SLessThanEqual
        | spirv::Op::ULessThanEqual => Some(BinaryOperator::LessEqual),
        spirv::Op::FOrdGreaterThan
        | spirv::Op::SGreaterThan
        | spirv::Op::UGreaterThan => Some(BinaryOperator::Greater),
        spirv::Op::FOrdGreaterThanEqual
        | spirv::Op::SGreaterThanEqual
        | spirv::Op::UGreaterThanEqual => Some(BinaryOperator::GreaterEqual),
        spirv::Op::BitwiseAnd => Some(BinaryOperator::And),
        spirv::Op::BitwiseXor => Some(BinaryOperator::ExclusiveOr),
        spirv::Op::BitwiseOr => Some(BinaryOperator::InclusiveOr),
        spirv::Op::LogicalAnd => Some(BinaryOperator::LogicalAnd),
        spirv::Op::LogicalOr => Some(BinaryOperator::LogicalOr),
        spirv::Op::ShiftLeftLogical => Some(BinaryOperator::ShiftLeft),
        spirv::Op::ShiftRightArithmetic
        | spirv::Op::ShiftRightLogical => Some(BinaryOperator::ShiftRight),
        _ => None,
    }
}

/// Whether an operation computes with floats.
pub open spec fn is_float_operation(op: spirv::Op) -> bool {
    match op {
        spirv::Op::FAdd
        | spirv::Op::FSub
        | spirv::Op::FMul
        | spirv::Op::FDiv
        | spirv::Op::FMod
        | spirv::Op::FNegate
        | spirv::Op::FOrdEqual
        | spirv::Op::FOrdNotEqual
        | spirv::Op::FOrdLessThan
        | spirv::Op::FOrdLessThanEqual
        | spirv::Op::FOrdGreaterThan
        | spirv::Op::FOrdGreaterThanEqual => true,
        _ => false,
    }
}

/// Whether an operation takes its operands for integers with a sign.
pub open spec fn is_signed_operation(op: spirv::Op) -> bool {
    match op {
        spirv::Op::SDiv
        | spirv::Op::SMod
        | spirv::Op::SNegate
        | spirv::Op::SLessThan
        | spirv::Op::SLessThanEqual
        | spirv::Op::SGreaterThan
        | spirv::Op::SGreaterThanEqual
        | spirv::Op::ShiftRightArithmetic => true,
        _ => false,
    }
}

/// Whether an operation takes its operands for integers without a sign.
pub open spec fn is_unsigned_operation(op: spirv::Op) -> bool {
    match op {
        spirv::Op::UDiv
        | spirv::Op::UMod
        | spirv::Op::ULessThan
        | spirv::Op::ULessThanEqual
        | spirv::Op::UGreaterThan
        | spirv::Op::UGreaterThanEqual
        | spirv::Op::ShiftRightLogical => true,
        _ => false,
    }
}

/// Whether an operation computes with integers, whether they have a sign or not.
pub open spec fn is_integer_operation(op: spirv::Op) -> bool {
    match op {
        spirv::Op::IAdd
        | spirv::Op::ISub
        | spirv::Op::IMul
        | spirv::Op::IEqual
        | spirv::Op::INotEqual => true,
        _ => false,
    }
}

/// Whether an operation compares or negates truth values.
pub open spec fn is_truth_operation(op: spirv::Op) -> bool {
    match op {
        spirv::Op::LogicalEqual | spirv::Op::LogicalNotEqual | spirv::Op::LogicalNot => true,
        _ => false,
    }
}

/// Whether an operation is made for components of kind `kind`.
pub open spec fn takes_kind(op: spirv::Op, kind: ScalarKind) -> bool {
    &&& is_float_operation(op) ==> kind == ScalarKind::Float
    &&& is_signed_operation(op) ==> kind == ScalarKind::Sint
    &&& is_unsigned_operation(op) ==> kind == ScalarKind::Uint
    &&& is_integer_operation(op) ==> kind != ScalarKind::Float
    &&& is_truth_operation(op) ==> kind == ScalarKind::Bool
}

/// Whether an operation is made for operands of these shapes, in this order.
pub open spec fn takes_shapes(op: spirv::Op, first: TypeInner, second: TypeInner) -> bool {
    match op {
        spirv::Op::VectorTimesScalar => first is Vector && second is Scalar,
        spirv::Op::MatrixTimesScalar => first is Matrix && second is Scalar,
        spirv::Op::VectorTimesMatrix => first is Vector && second is Matrix,
        spirv::Op::MatrixTimesVector => first is Matrix && second is Vector,
        spirv::Op::MatrixTimesMatrix => first is Matrix && second is Matrix,
        spirv::Op::FMul | spirv::Op::IMul => first is Scalar && second is Scalar || first is Vector
            && second is Vector,
        spirv::Op::FAdd
        | spirv::Op::IAdd
        | spirv::Op::FSub
        | spirv::Op::ISub => first is Scalar || first is Vector,
        _ => true,
    }
}

/// Whether a product is written with its factors the other way round: a vector comes before a
/// scalar.
pub open spec fn is_turned(op: BinaryOperator, left: TypeInner, right: TypeInner) -> bool {
    op == BinaryOperator::Multiply && left is Scalar && right is Vector
}

/// Whether there is an operation for the operator on operands of these types.
pub open spec fn is_defined(op: BinaryOperator, left: TypeInner, right: TypeInner) -> bool {
    match op {
        BinaryOperator::Add | BinaryOperator::Subtract => left is Scalar || left is Vector,
        BinaryOperator::Multiply => is_numeric(left) && is_numeric(right) && !(left is Scalar
            && right is Matrix),
        BinaryOperator::Equal | BinaryOperator::NotEqual => is_numeric(left),
        BinaryOperator::Divide
        | BinaryOperator::Modulo
        | BinaryOperator::Less
        | BinaryOperator::LessEqual
        | BinaryOperator::Greater
        | BinaryOperator::GreaterEqual => is_numeric(left) && !has_kind(left, ScalarKind::Bool),
        BinaryOperator::ShiftRight => has_kind(left, ScalarKind::Sint) || has_kind(
            left,
            ScalarKind::Uint,
        ),
        _ => true,
    }
}

/// An operator becomes an operation that computes it, on operands of the kind and the shapes
/// that it is made for. There is one wherever the operator is defined.
pub proof fn law_operators_are_computed(op: BinaryOperator, left: TypeInner, right: TypeInner)
    ensures
        binary_op(op, left, right) is Some <==> is_defined(op, left, right),
        binary_op(op, left, right) matches Some(operation) ==> {
            &&& operator_of(operation) == Some(op)
            &&& forall|kind: ScalarKind| #[trigger] has_kind(left, kind) ==> takes_kind(operation, kind)
            &&& if is_turned(op, left, right) {
                takes_shapes(operation, right, left)
            } else {
                takes_shapes(operation, left, right)
            }
        },
{
}

/// Components are computed with one by one: but for products, the operation on vectors is the
/// one on scalars of the same kind.
pub proof fn law_vectors_are_computed_as_scalars(
    op: BinaryOperator,
    vector: TypeInner,
    scalar: TypeInner,
    right: TypeInner,
    other: TypeInner,
)
    requires
        op != BinaryOperator::Multiply,
        vector is Vector,
        scalar is Scalar,
        vector->Vector_kind == scalar->Scalar_kind,
    ensures
        binary_op(op, vector, right) == binary_op(op, scalar, other),
{
}

/// Operators that differ become operations that differ.
pub proof fn law_operators_are_told_apart(
    one: BinaryOperator,
    other: BinaryOperator,
    left: TypeInner,
    right: TypeInner,
)
    ensures
        one != other && binary_op(one, left, right) is Some ==> binary_op(one, left, right)
            != binary_op(other, left, right),
{
    law_operators_are_computed(one, left, right);
    law_operators_are_computed(other, left, right);
}

/// Whether an operation negates numbers or truth values.
pub open spec fn is_negation(op: spirv::Op) -> bool {
    op == spirv::Op::FNegate || op == spirv::Op::SNegate || op == spirv::Op::LogicalNot
}

/// A negation becomes an operation that negates values of the kind that it is applied to, if
/// they can be negated, and the complement one that complements.
pub proof fn law_unary_operators_are_computed(op: UnaryOperator, inner: TypeInner)
    ensures
        unary_op(op, inner.kind()) is Done <==> op == UnaryOperator::Not || (is_numeric(inner)
            && !has_kind(inner, ScalarKind::Uint)),
        !(unary_op(op, inner.kind()) is Stuck),
        unary_op(op, inner.kind()) matches Outcome::Done(_, operation) ==> match op {
            UnaryOperator::Negate => is_negation(operation) && forall|kind: ScalarKind| #[trigger]
                has_kind(inner, kind) ==> takes_kind(operation, kind),
            UnaryOperator::Not => operation == spirv::Op::Not,
        },
{
}

/// The kinds of numbers that an operation converts from and to.
pub open spec fn converts(op: spirv::Op) -> Option<(ScalarKind, ScalarKind)> {
    match op {
        spirv::Op::ConvertFToU => Some((ScalarKind::Float, ScalarKind::Uint)),
        spirv::Op::ConvertFToS => Some((ScalarKind::Float, ScalarKind::Sint)),
        spirv::Op::ConvertSToF => Some((ScalarKind::Sint, ScalarKind::Float)),
        spirv::Op::ConvertUToF => Some((ScalarKind::Uint, ScalarKind::Float)),
        _ => None,
    }
}

/// Whether a value has to be computed anew to become one of another kind: between floats and
/// integers. Integers with and without a sign have the same bits.
pub open spec fn is_converted(from: ScalarKind, to: ScalarKind) -> bool {
    &&& (from == ScalarKind::Float) != (to == ScalarKind::Float)
    &&& from != ScalarKind::Bool
    &&& to != ScalarKind::Bool
}

/// Numbers are converted by the operation that converts from their kind to the wanted one.
pub proof fn law_conversions_are_computed(from: ScalarKind, to: ScalarKind)
    ensures
        conversion_op(from, to) is Some <==> is_converted(from, to),
        conversion_op(from, to) matches Some(op) ==> converts(op) == Some((from, to)),
        // what was converted can be converted back
        conversion_op(from, to) is Some <==> conversion_op(to, from) is Some,
{
}

/// The function that an extended instruction computes.
pub open spec fn function_of(op: spirv::GLOp) -> Option<MathFunction> {
    match op {
        spirv::GLOp::FAbs | spirv::GLOp::SAbs => Some(MathFunction::Abs),
        spirv::GLOp::FMin | spirv::GLOp::SMin | spirv::GLOp::UMin => Some(MathFunction::Min),
        spirv::GLOp::FMax | spirv::GLOp::SMax | spirv::GLOp::UMax => Some(MathFunction::Max),
        spirv::GLOp::FClamp
        | spirv::GLOp::SClamp
        | spirv::GLOp::UClamp => Some(MathFunction::Clamp),
        spirv::GLOp::Sin => Some(MathFunction::Sin),
        spirv::GLOp::Asin => Some(MathFunction::Asin),
        spirv::GLOp::Cos => Some(MathFunction::Cos),
        spirv::GLOp::Acos => Some(MathFunction::Acos),
        spirv::GLOp::Tan => Some(MathFunction::Tan),
        spirv::GLOp::Atan => Some(MathFunction::Atan),
        spirv::GLOp::Atan2 => Some(MathFunction::Atan2),
        spirv::GLOp::Ceil => Some(MathFunction::Ceil),
        spirv::GLOp::Round => Some(MathFunction::Round),
        spirv::GLOp::Floor => Some(MathFunction::Floor),
        spirv::GLOp::Fract => Some(MathFunction::Fract),
        spirv::GLOp::Trunc => Some(MathFunction::Trunc),
        spirv::GLOp::Cross => Some(MathFunction::Cross),
        spirv::GLOp::Distance => Some(MathFunction::Distance),
        spirv::GLOp::Length => Some(MathFunction::Length),
        spirv::GLOp::Normalize => Some(MathFunction::Normalize),
        _ => None,
    }
}

/// Whether an extended instruction is made for components of kind `kind`, if that matters.
pub open spec fn extended_takes_kind(op: spirv::GLOp, kind: ScalarKind) -> bool {
    match op {
        spirv::GLOp::FAbs
        | spirv::GLOp::FMin
        | spirv::GLOp::FMax
        | spirv::GLOp::FClamp => kind == ScalarKind::Float,
        spirv::GLOp::SAbs
        | spirv::GLOp::SMin
        | spirv::GLOp::SMax
        | spirv::GLOp::SClamp => kind == ScalarKind::Sint,
        spirv::GLOp::UMin
        | spirv::GLOp::UMax
        | spirv::GLOp::UClamp => kind == ScalarKind::Uint,
        _ => true,
    }
}

/// How many arguments a function has.
pub open spec fn arity(fun: MathFunction) -> nat {
    match fun {
        MathFunction::Clamp => 3,
        MathFunction::Min
        | MathFunction::Max
        | MathFunction::Atan2
        | MathFunction::Dot
        | MathFunction::Cross
        | MathFunction::Distance => 2,
        _ => 1,
    }
}

/// The extended instruction that a function is computed by, if it is.
pub open spec fn extended(op: MathOp) -> Option<spirv::GLOp> {
    match op {
        MathOp::Single(op) | MathOp::Double(op) | MathOp::Triple(op) => Some(op),
        MathOp::Length(_) => Some(spirv::GLOp::Length),
        MathOp::Distance(_) => Some(spirv::GLOp::Distance),
        _ => None,
    }
}

/// A function is computed by the extended instruction for it and for its argument's kind, or,
/// if it is not in that set, by an operation of its own: the dot product, the transposition,
/// and the absolute value of what has no sign.
pub proof fn law_functions_are_computed(fun: MathFunction, argument: Option<TypeInner>)
    ensures
        math_op(fun, argument) matches Outcome::Done(_, op) ==> match extended(op) {
            Some(instruction) => {
                &&& function_of(instruction) == Some(fun)
                &&& argument matches Some(inner) ==> forall|kind: ScalarKind| #[trigger]
                    has_kind(inner, kind) ==> extended_takes_kind(instruction, kind)
                &&& op is Single || op is Length ==> arity(fun) == 1
                &&& op is Double || op is Distance ==> arity(fun) == 2
                &&& op is Triple ==> arity(fun) == 3
            },
            None => {
                ||| fun == MathFunction::Dot && op is Dot
                ||| fun == MathFunction::Transpose && op is Transpose
                ||| fun == MathFunction::Abs && op is Copy && argument is Some && has_kind(
                    argument->0,
                    ScalarKind::Uint,
                )
            },
        },
{
}

/// Whether a function can be computed of an argument: it is one of those that are known, and the
/// argument is of a kind and shape that it is made for.
pub open spec fn is_computable(fun: MathFunction, argument: Option<TypeInner>) -> bool {
    match fun {
        MathFunction::Abs | MathFunction::Min | MathFunction::Max | MathFunction::Clamp => argument
            is Some && is_numeric(argument->0) && !has_kind(argument->0, ScalarKind::Bool),
        MathFunction::Dot | MathFunction::Distance | MathFunction::Length => argument is Some && (
        argument->0 is Scalar || argument->0 is Vector),
        MathFunction::Transpose => argument is Some && argument->0 is Matrix,
        MathFunction::Sin
        | MathFunction::Asin
        | MathFunction::Cos
        | MathFunction::Acos
        | MathFunction::Tan
        | MathFunction::Atan
        | MathFunction::Atan2
        | MathFunction::Ceil
        | MathFunction::Round
        | MathFunction::Floor
        | MathFunction::Fract
        | MathFunction::Trunc
        | MathFunction::Cross
        | MathFunction::Normalize => true,
        _ => false,
    }
}

/// A function that can be computed is, and one that is not known is refused.
pub proof fn law_known_functions_are_computed(fun: MathFunction, argument: Option<TypeInner>)
    ensures
        math_op(fun, argument) is Done <==> is_computable(fun, argument),
        math_op(fun, argument) is Fail ==> forall|other: Option<TypeInner>| !(
        #[trigger] is_computable(fun, other)),
{
}

/// Every part that a composite has is found: a fixed index finds the components of a vector, the
/// columns of a matrix and the members of a structure, a computed one the components of a vector
/// and the elements of an array. Anything else is refused, but for an index behind the members of
/// a structure.
pub proof fn law_parts_are_found(inner: TypeInner, index: u32)
    ensures
        member_type(inner, index) is Done <==> inner is Vector || inner is Matrix || (inner is Struct
            && index < inner->Struct_members@.len()),
        member_type(inner, index) is Stuck <==> inner is Struct && index
            >= inner->Struct_members@.len(),
        element_type(inner) is Done <==> inner is Vector || inner is Array,
        !(element_type(inner) is Stuck),
        sample_type(inner) is Some <==> inner is Image && !(inner->Image_class is Storage),
{
}

} // verus!

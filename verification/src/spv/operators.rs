//! Which operation an operator stands for, by the types of its operands.

use crate::ir::{
    BinaryOperator, ImageClass, MathFunction, ScalarKind, TypeInner, UnaryOperator, VectorSize,
};
use crate::spv::error::Error;
use crate::spv::lookup::{LocalType, LookupType};
use crate::spv::model::{not_implemented, outcome, Outcome};
use crate::spv::types::{scalar, vector};
use spirv_headers as spirv;
use vstd::prelude::*;

verus! {

/// The shape of a numeric value.
#[derive(Clone, Copy, Debug, PartialEq, Eq, Structural)]
pub enum Dimension {
    Scalar,
    Vector,
    Matrix,
}

/// The shape of values of a type, if they are numeric.
pub open spec fn dimension(inner: TypeInner) -> Option<Dimension> {
    match inner {
        TypeInner::Scalar { .. } => Some(Dimension::Scalar),
        TypeInner::Vector { .. } => Some(Dimension::Vector),
        TypeInner::Matrix { .. } => Some(Dimension::Matrix),
        _ => None,
    }
}

/// The shape of values of a numeric type.
pub fn get_dimension(inner: &TypeInner) -> (shape: Dimension)
    requires
        dimension(*inner) is Some,
    ensures
        Some(shape) == dimension(*inner),
{
    match inner {
        TypeInner::Scalar { .. } => Dimension::Scalar,
        TypeInner::Vector { .. } => Dimension::Vector,
        _ => Dimension::Matrix,
    }
}

/// The operation for an operand of kind `kind`: one each for signed and unsigned integers, for
/// floats and for truth values, as far as there is one.
pub open spec fn by_kind(
    kind: Option<ScalarKind>,
    sint: Option<spirv::Op>,
    uint: Option<spirv::Op>,
    float: Option<spirv::Op>,
    truth: Option<spirv::Op>,
) -> Option<spirv::Op> {
    match kind {
        Some(ScalarKind::Sint) => sint,
        Some(ScalarKind::Uint) => uint,
        Some(ScalarKind::Float) => float,
        Some(ScalarKind::Bool) => truth,
        None => None,
    }
}

/// The operation for an operand of kind `kind`.
fn select_by_kind(
    kind: Option<ScalarKind>,
    sint: Option<spirv::Op>,
    uint: Option<spirv::Op>,
    float: Option<spirv::Op>,
    truth: Option<spirv::Op>,
) -> (op: Option<spirv::Op>)
    ensures
        op == by_kind(kind, sint, uint, float, truth),
{
    match kind {
        Some(ScalarKind::Sint) => sint,
        Some(ScalarKind::Uint) => uint,
        Some(ScalarKind::Float) => float,
        Some(ScalarKind::Bool) => truth,
        None => None,
    }
}

/// The operation of a sum or difference: matrices have none.
pub open spec fn additive(inner: TypeInner, float: spirv::Op, integer: spirv::Op) -> Option<
    spirv::Op,
> {
    match inner {
        TypeInner::Scalar { kind: ScalarKind::Float, .. } => Some(float),
        TypeInner::Vector { kind: ScalarKind::Float, .. } => Some(float),
        TypeInner::Scalar { .. } => Some(integer),
        TypeInner::Vector { .. } => Some(integer),
        _ => None,
    }
}

/// The operation of a sum or difference.
fn select_additive(inner: &TypeInner, float: spirv::Op, integer: spirv::Op) -> (op: Option<
    spirv::Op,
>)
    ensures
        op == additive(*inner, float, integer),
{
    match inner {
        TypeInner::Scalar { kind, .. } | TypeInner::Vector { kind, .. } => match kind {
            ScalarKind::Float => Some(float),
            _ => Some(integer),
        },
        _ => None,
    }
}

/// The operation of a product, if there is one for operands of these shapes.
pub open spec fn product(left: TypeInner, right: TypeInner) -> Option<spirv::Op> {
    match (dimension(left), dimension(right)) {
        (Some(Dimension::Scalar), Some(Dimension::Vector)) => Some(spirv::Op::VectorTimesScalar),
        (Some(Dimension::Vector), Some(Dimension::Scalar)) => Some(spirv::Op::VectorTimesScalar),
        (Some(Dimension::Vector), Some(Dimension::Matrix)) => Some(spirv::Op::VectorTimesMatrix),
        (Some(Dimension::Matrix), Some(Dimension::Scalar)) => Some(spirv::Op::MatrixTimesScalar),
        (Some(Dimension::Matrix), Some(Dimension::Vector)) => Some(spirv::Op::MatrixTimesVector),
        (Some(Dimension::Matrix), Some(Dimension::Matrix)) => Some(spirv::Op::MatrixTimesMatrix),
        (Some(Dimension::Scalar), Some(Dimension::Matrix)) => None,
        (Some(_), Some(_)) => if left.kind() == Some(ScalarKind::Float) {
            Some(spirv::Op::FMul)
        } else {
            Some(spirv::Op::IMul)
        },
        _ => None,
    }
}

/// The operation of a product.
fn select_product(left: &TypeInner, right: &TypeInner) -> (op: Option<spirv::Op>)
    requires
        dimension(*left) is Some,
        dimension(*right) is Some,
    ensures
        op == product(*left, *right),
{
    match (get_dimension(left), get_dimension(right)) {
        (Dimension::Scalar, Dimension::Vector) => Some(spirv::Op::VectorTimesScalar),
        (Dimension::Vector, Dimension::Scalar) => Some(spirv::Op::VectorTimesScalar),
        (Dimension::Vector, Dimension::Matrix) => Some(spirv::Op::VectorTimesMatrix),
        (Dimension::Matrix, Dimension::Scalar) => Some(spirv::Op::MatrixTimesScalar),
        (Dimension::Matrix, Dimension::Vector) => Some(spirv::Op::MatrixTimesVector),
        (Dimension::Matrix, Dimension::Matrix) => Some(spirv::Op::MatrixTimesMatrix),
        (Dimension::Scalar, Dimension::Matrix) => None,
        (Dimension::Vector, Dimension::Vector) | (Dimension::Scalar, Dimension::Scalar) => {
            match left.scalar_kind() {
                Some(ScalarKind::Float) => Some(spirv::Op::FMul),
                _ => Some(spirv::Op::IMul),
            }
        },
    }
}

/// The operation of a binary operator, if there is one for operands of these types.
pub open spec fn binary_op(op: BinaryOperator, left: TypeInner, right: TypeInner) -> Option<
    spirv::Op,
> {
    let kind = left.kind();
    match op {
        BinaryOperator::Add => additive(left, spirv::Op::FAdd, spirv::Op::IAdd),
        BinaryOperator::Subtract => additive(left, spirv::Op::FSub, spirv::Op::ISub),
        BinaryOperator::Multiply => product(left, right),
        BinaryOperator::Divide => by_kind(
            kind,
            Some(spirv::Op::SDiv),
            Some(spirv::Op::UDiv),
            Some(spirv::Op::FDiv),
            None,
        ),
        BinaryOperator::Modulo => by_kind(
            kind,
            Some(spirv::Op::SMod),
            Some(spirv::Op::UMod),
            Some(spirv::Op::FMod),
            None,
        ),
        BinaryOperator::Equal => by_kind(
            kind,
            Some(spirv::Op::IEqual),
            Some(spirv::Op::IEqual),
            Some(spirv::Op::FOrdEqual),
            Some(spirv::Op::LogicalEqual),
        ),
        BinaryOperator::NotEqual => by_kind(
            kind,
            Some(spirv::Op::INotEqual),
            Some(spirv::Op::INotEqual),
            Some(spirv::Op::FOrdNotEqual),
            Some(spirv::Op::LogicalNotEqual),
        ),
        BinaryOperator::Less => by_kind(
            kind,
            Some(spirv::Op::SLessThan),
            Some(spirv::Op::ULessThan),
            Some(spirv::Op::FOrdLessThan),
            None,
        ),
        BinaryOperator::LessEqual => by_kind(
            kind,
            Some(spirv::Op::SLessThanEqual),
            Some(spirv::Op::ULessThanEqual),
            Some(spirv::Op::FOrdLessThanEqual),
            None,
        ),
        BinaryOperator::Greater => by_kind(
            kind,
            Some(spirv::Op::SGreaterThan),
            Some(spirv::Op::UGreaterThan),
            Some(spirv::Op::FOrdGreaterThan),
            None,
        ),
        BinaryOperator::GreaterEqual => by_kind(
            kind,
            Some(spirv::Op::SGreaterThanEqual),
            Some(spirv::Op::UGreaterThanEqual),
            Some(spirv::Op::FOrdGreaterThanEqual),
            None,
        ),
        BinaryOperator::And => Some(spirv::Op::BitwiseAnd),
        BinaryOperator::ExclusiveOr => Some(spirv::Op::BitwiseXor),
        BinaryOperator::InclusiveOr => Some(spirv::Op::BitwiseOr),
        BinaryOperator::LogicalAnd => Some(spirv::Op::LogicalAnd),
        BinaryOperator::LogicalOr => Some(spirv::Op::LogicalOr),
        BinaryOperator::ShiftLeft => Some(spirv::Op::ShiftLeftLogical),
        BinaryOperator::ShiftRight => by_kind(
            kind,
            Some(spirv::Op::ShiftRightArithmetic),
            Some(spirv::Op::ShiftRightLogical),
            None,
            None,
        ),
    }
}

/// The operation of a binary operator, if there is one for operands of these types.
pub fn select_binary_op(op: BinaryOperator, left: &TypeInner, right: &TypeInner) -> (spirv_op: Option<
    spirv::Op,
>)
    requires
        dimension(*left) is Some,
        dimension(*right) is Some,
    ensures
        spirv_op == binary_op(op, *left, *right),
{
    let kind = left.scalar_kind();
    match op {
        BinaryOperator::Add => select_additive(left, spirv::Op::FAdd, spirv::Op::IAdd),
        BinaryOperator::Subtract => select_additive(left, spirv::Op::FSub, spirv::Op::ISub),
        BinaryOperator::Multiply => select_product(left, right),
        BinaryOperator::Divide => select_by_kind(
            kind,
            Some(spirv::Op::SDiv),
            Some(spirv::Op::UDiv),
            Some(spirv::Op::FDiv),
            None,
        ),
        BinaryOperator::Modulo => select_by_kind(
            kind,
            Some(spirv::Op::SMod),
            Some(spirv::Op::UMod),
            Some(spirv::Op::FMod),
            None,
        ),
        BinaryOperator::Equal => select_by_kind(
            kind,
            Some(spirv::Op::IEqual),
            Some(spirv::Op::IEqual),
            Some(spirv::Op::FOrdEqual),
            Some(spirv::Op::LogicalEqual),
        ),
        BinaryOperator::NotEqual => select_by_kind(
            kind,
            Some(spirv::Op::INotEqual),
            Some(spirv::Op::INotEqual),
            Some(spirv::Op::FOrdNotEqual),
            Some(spirv::Op::LogicalNotEqual),
        ),
        BinaryOperator::Less => select_by_kind(
            kind,
            Some(spirv::Op::SLessThan),
            Some(spirv::Op::ULessThan),
            Some(spirv::Op::FOrdLessThan),
            None,
        ),
        BinaryOperator::LessEqual => select_by_kind(
            kind,
            Some(spirv::Op::SLessThanEqual),
            Some(spirv::Op::ULessThanEqual),
            Some(spirv::Op::FOrdLessThanEqual),
            None,
        ),
        BinaryOperator::Greater => select_by_kind(
            kind,
            Some(spirv::Op::SGreaterThan),
            Some(spirv::Op::UGreaterThan),
            Some(spirv::Op::FOrdGreaterThan),
            None,
        ),
        BinaryOperator::GreaterEqual => select_by_kind(
            kind,
            Some(spirv::Op::SGreaterThanEqual),
            Some(spirv::Op::UGreaterThanEqual),
            Some(spirv::Op::FOrdGreaterThanEqual),
            None,
        ),
        BinaryOperator::And => Some(spirv::Op::BitwiseAnd),
        BinaryOperator::ExclusiveOr => Some(spirv::Op::BitwiseXor),
        BinaryOperator::InclusiveOr => Some(spirv::Op::BitwiseOr),
        BinaryOperator::LogicalAnd => Some(spirv::Op::LogicalAnd),
        BinaryOperator::LogicalOr => Some(spirv::Op::LogicalOr),
        BinaryOperator::ShiftLeft => Some(spirv::Op::ShiftLeftLogical),
        BinaryOperator::ShiftRight => select_by_kind(
            kind,
            Some(spirv::Op::ShiftRightArithmetic),
            Some(spirv::Op::ShiftRightLogical),
            None,
            None,
        ),
    }
}

/// Whether the result of an operator is a truth value whatever its operands are.
pub open spec fn is_comparison(op: BinaryOperator) -> bool {
    match op {
        BinaryOperator::Equal
        | BinaryOperator::NotEqual
        | BinaryOperator::Less
        | BinaryOperator::LessEqual
        | BinaryOperator::Greater
        | BinaryOperator::GreaterEqual => true,
        _ => false,
    }
}

/// Whether the result of an operator is a truth value whatever its operands are.
pub fn yields_truth(op: BinaryOperator) -> (truth: bool)
    ensures
        truth == is_comparison(op),
{
    match op {
        BinaryOperator::Equal
        | BinaryOperator::NotEqual
        | BinaryOperator::Less
        | BinaryOperator::LessEqual
        | BinaryOperator::Greater
        | BinaryOperator::GreaterEqual => true,
        _ => false,
    }
}

/// Whether the result has the type of the right operand: a product with a vector on the right
/// is a vector.
pub open spec fn result_on_right(op: BinaryOperator, right: TypeInner) -> bool {
    op == BinaryOperator::Multiply && dimension(right) == Some(Dimension::Vector)
}

/// Whether the operands change places: the operation for a vector and a scalar wants the vector
/// first.
pub open spec fn operands_swap(op: BinaryOperator, left: TypeInner, right: TypeInner) -> bool {
    op == BinaryOperator::Multiply && dimension(left) == Some(Dimension::Scalar) && dimension(
        right,
    ) == Some(Dimension::Vector)
}

/// The operation of a unary operator.
pub open spec fn unary_op(op: UnaryOperator, kind: Option<ScalarKind>) -> Outcome<(), spirv::Op> {
    match op {
        UnaryOperator::Negate => match kind {
            Some(ScalarKind::Float) => Outcome::Done((), spirv::Op::FNegate),
            Some(ScalarKind::Sint) => Outcome::Done((), spirv::Op::SNegate),
            Some(ScalarKind::Bool) => Outcome::Done((), spirv::Op::LogicalNot),
            Some(ScalarKind::Uint) => not_implemented((), "negation"@),
            None => not_implemented((), "negation"@),
        },
        UnaryOperator::Not => Outcome::Done((), spirv::Op::Not),
    }
}

/// The operation of a unary operator.
pub fn select_unary_op(op: UnaryOperator, inner: &TypeInner) -> (result: Result<spirv::Op, Error>)
    ensures
        outcome((), result) == unary_op(op, inner.kind()),
{
    match op {
        UnaryOperator::Negate => match inner.scalar_kind() {
            Some(ScalarKind::Float) => Ok(spirv::Op::FNegate),
            Some(ScalarKind::Sint) => Ok(spirv::Op::SNegate),
            Some(ScalarKind::Bool) => Ok(spirv::Op::LogicalNot),
            Some(ScalarKind::Uint) | None => Err(Error::FeatureNotImplemented("negation")),
        },
        UnaryOperator::Not => Ok(spirv::Op::Not),
    }
}

/// The operation that converts numbers of kind `from` to kind `to`. Where there is none, the
/// value stays as it is.
pub open spec fn conversion_op(from: ScalarKind, to: ScalarKind) -> Option<spirv::Op> {
    match (from, to) {
        (ScalarKind::Float, ScalarKind::Uint) => Some(spirv::Op::ConvertFToU),
        (ScalarKind::Float, ScalarKind::Sint) => Some(spirv::Op::ConvertFToS),
        (ScalarKind::Sint, ScalarKind::Float) => Some(spirv::Op::ConvertSToF),
        (ScalarKind::Uint, ScalarKind::Float) => Some(spirv::Op::ConvertUToF),
        _ => None,
    }
}

/// The operation that converts numbers of kind `from` to kind `to`.
pub fn select_conversion_op(from: ScalarKind, to: ScalarKind) -> (op: Option<spirv::Op>)
    ensures
        op == conversion_op(from, to),
{
    match (from, to) {
        (ScalarKind::Float, ScalarKind::Uint) => Some(spirv::Op::ConvertFToU),
        (ScalarKind::Float, ScalarKind::Sint) => Some(spirv::Op::ConvertFToS),
        (ScalarKind::Sint, ScalarKind::Float) => Some(spirv::Op::ConvertSToF),
        (ScalarKind::Uint, ScalarKind::Float) => Some(spirv::Op::ConvertUToF),
        _ => None,
    }
}

/// The type of the elements that a computed index picks.
pub open spec fn element_type(inner: TypeInner) -> Outcome<(), LookupType> {
    match inner {
        TypeInner::Vector { kind, width, .. } => Outcome::Done((), scalar(kind, width)),
        TypeInner::Array { base, .. } => Outcome::Done((), LookupType::Handle(base)),
        _ => not_implemented((), "accessing index of non vector or array"@),
    }
}

/// The type of the elements that a computed index picks.
pub fn find_element_type(inner: &TypeInner) -> (result: Result<LookupType, Error>)
    ensures
        outcome((), result) == element_type(*inner),
{
    match inner {
        TypeInner::Vector { kind, width, .. } => Ok(
            LookupType::Local(LocalType::Scalar { kind: *kind, width: *width }),
        ),
        TypeInner::Array { base, .. } => Ok(LookupType::Handle(*base)),
        _ => Err(Error::FeatureNotImplemented("accessing index of non vector or array")),
    }
}

/// The type of the part that a fixed index picks.
pub open spec fn member_type(inner: TypeInner, index: u32) -> Outcome<(), LookupType> {
    match inner {
        TypeInner::Vector { kind, width, .. } => Outcome::Done((), scalar(kind, width)),
        TypeInner::Matrix { rows, width, .. } => Outcome::Done(
            (),
            vector(rows, ScalarKind::Float, width),
        ),
        TypeInner::Struct { members, .. } => if index < members@.len() {
            Outcome::Done((), LookupType::Handle(members@[index as int].ty))
        } else {
            Outcome::Stuck
        },
        _ => not_implemented((), "accessing index of non vector or struct"@),
    }
}

/// The type of the part that a fixed index picks.
pub fn find_member_type(inner: &TypeInner, index: u32) -> (result: Result<LookupType, Error>)
    requires
        !(member_type(*inner, index) is Stuck),
    ensures
        outcome((), result) == member_type(*inner, index),
{
    match inner {
        TypeInner::Vector { kind, width, .. } => Ok(
            LookupType::Local(LocalType::Scalar { kind: *kind, width: *width }),
        ),
        TypeInner::Matrix { rows, width, .. } => Ok(
            LookupType::Local(
                LocalType::Vector { size: *rows, kind: ScalarKind::Float, width: *width },
            ),
        ),
        TypeInner::Struct { members, .. } => Ok(LookupType::Handle(members[index as usize].ty)),
        _ => Err(Error::FeatureNotImplemented("accessing index of non vector or struct")),
    }
}

/// The type of what sampling an image yields, if it can be sampled.
pub open spec fn sample_type(inner: TypeInner) -> Option<LookupType> {
    match inner {
        TypeInner::Image { class: ImageClass::Sampled { kind, .. }, .. } => Some(
            vector(VectorSize::Quad, kind, 4),
        ),
        TypeInner::Image { class: ImageClass::Depth, .. } => Some(scalar(ScalarKind::Float, 4)),
        _ => None,
    }
}

/// The type of what sampling an image yields, if it can be sampled.
pub fn find_sample_type(inner: &TypeInner) -> (ty: Option<LookupType>)
    ensures
        ty == sample_type(*inner),
{
    match inner {
        TypeInner::Image { class, .. } => match class {
            ImageClass::Sampled { kind, .. } => Some(
                LookupType::Local(
                    LocalType::Vector { size: VectorSize::Quad, kind: *kind, width: 4 },
                ),
            ),
            ImageClass::Depth => Some(
                LookupType::Local(LocalType::Scalar { kind: ScalarKind::Float, width: 4 }),
            ),
            ImageClass::Storage(_) => None,
        },
        _ => None,
    }
}

/// How a mathematical function is computed.
#[derive(Clone, Copy, Debug)]
pub enum MathOp {
    /// By an extended instruction on one argument, whose type the result has.
    Single(spirv::GLOp),
    /// By an extended instruction on two arguments. The result has the type of the first.
    Double(spirv::GLOp),
    /// By an extended instruction on three arguments. The result has the type of the first.
    Triple(spirv::GLOp),
    /// The argument is the result.
    Copy,
    /// By the dot product, with a result of this type.
    Dot(LookupType),
    /// By an extended instruction on one argument, with a result of this type.
    Length(LookupType),
    /// By an extended instruction on two arguments, with a result of this type.
    Distance(LookupType),
    /// By the transposition of a matrix, with a result of this type.
    Transpose(LookupType),
}

/// The extended instruction for an argument of kind `kind`, if it is a kind of numbers.
pub open spec fn extended_by_kind(
    kind: Option<ScalarKind>,
    float: spirv::GLOp,
    sint: spirv::GLOp,
    uint: spirv::GLOp,
) -> Option<spirv::GLOp> {
    match kind {
        Some(ScalarKind::Float) => Some(float),
        Some(ScalarKind::Sint) => Some(sint),
        Some(ScalarKind::Uint) => Some(uint),
        _ => None,
    }
}

/// The extended instruction for an argument of kind `kind`.
fn select_extended_by_kind(
    kind: Option<ScalarKind>,
    float: spirv::GLOp,
    sint: spirv::GLOp,
    uint: spirv::GLOp,
) -> (op: Option<spirv::GLOp>)
    ensures
        op == extended_by_kind(kind, float, sint, uint),
{
    match kind {
        Some(ScalarKind::Float) => Some(float),
        Some(ScalarKind::Sint) => Some(sint),
        Some(ScalarKind::Uint) => Some(uint),
        _ => None,
    }
}

/// The kind of the components of an argument, if they have one.
pub open spec fn argument_kind(argument: Option<TypeInner>) -> Option<ScalarKind> {
    match argument {
        Some(inner) => inner.kind(),
        None => None,
    }
}

/// The type of the components of a scalar or vector.
pub open spec fn component_type(argument: Option<TypeInner>) -> Option<LookupType> {
    match argument {
        Some(TypeInner::Scalar { kind, width }) => Some(scalar(kind, width)),
        Some(TypeInner::Vector { kind, width, .. }) => Some(scalar(kind, width)),
        _ => None,
    }
}

/// The type of the components of a scalar or vector.
fn find_component_type(argument: &TypeInner) -> (ty: Option<LookupType>)
    ensures
        ty == component_type(Some(*argument)),
{
    match argument {
        TypeInner::Scalar { kind, width } => Some(
            LookupType::Local(LocalType::Scalar { kind: *kind, width: *width }),
        ),
        TypeInner::Vector { kind, width, .. } => Some(
            LookupType::Local(LocalType::Scalar { kind: *kind, width: *width }),
        ),
        _ => None,
    }
}

/// Done with what was found; stuck where nothing was.
pub open spec fn found<T>(option: Option<T>) -> Outcome<(), T> {
    match option {
        Some(value) => Outcome::Done((), value),
        None => Outcome::Stuck,
    }
}

/// How a function is computed of an argument of type `argument`.
pub open spec fn math_op(fun: MathFunction, argument: Option<TypeInner>) -> Outcome<(), MathOp> {
    let kind = argument_kind(argument);
    match fun {
        MathFunction::Abs => match kind {
            Some(ScalarKind::Float) => Outcome::Done((), MathOp::Single(spirv::GLOp::FAbs)),
            Some(ScalarKind::Sint) => Outcome::Done((), MathOp::Single(spirv::GLOp::SAbs)),
            Some(ScalarKind::Uint) => Outcome::Done((), MathOp::Copy),
            _ => Outcome::Stuck,
        },
        MathFunction::Min => found(
            extended_by_kind(kind, spirv::GLOp::FMin, spirv::GLOp::SMin, spirv::GLOp::UMin),
        ).bind(|_u: (), op: spirv::GLOp| Outcome::Done((), MathOp::Double(op))),
        MathFunction::Max => found(
            extended_by_kind(kind, spirv::GLOp::FMax, spirv::GLOp::SMax, spirv::GLOp::UMax),
        ).bind(|_u: (), op: spirv::GLOp| Outcome::Done((), MathOp::Double(op))),
        MathFunction::Clamp => found(
            extended_by_kind(kind, spirv::GLOp::FClamp, spirv::GLOp::SClamp, spirv::GLOp::UClamp),
        ).bind(|_u: (), op: spirv::GLOp| Outcome::Done((), MathOp::Triple(op))),
        MathFunction::Sin => Outcome::Done((), MathOp::Single(spirv::GLOp::Sin)),
        MathFunction::Asin => Outcome::Done((), MathOp::Single(spirv::GLOp::Asin)),
        MathFunction::Cos => Outcome::Done((), MathOp::Single(spirv::GLOp::Cos)),
        MathFunction::Acos => Outcome::Done((), MathOp::Single(spirv::GLOp::Acos)),
        MathFunction::Tan => Outcome::Done((), MathOp::Single(spirv::GLOp::Tan)),
        MathFunction::Atan => Outcome::Done((), MathOp::Single(spirv::GLOp::Atan)),
        MathFunction::Atan2 => Outcome::Done((), MathOp::Double(spirv::GLOp::Atan2)),
        MathFunction::Ceil => Outcome::Done((), MathOp::Single(spirv::GLOp::Ceil)),
        MathFunction::Round => Outcome::Done((), MathOp::Single(spirv::GLOp::Round)),
        MathFunction::Floor => Outcome::Done((), MathOp::Single(spirv::GLOp::Floor)),
        MathFunction::Fract => Outcome::Done((), MathOp::Single(spirv::GLOp::Fract)),
        MathFunction::Trunc => Outcome::Done((), MathOp::Single(spirv::GLOp::Trunc)),
        MathFunction::Dot => found(component_type(argument)).bind(
            |_u: (), ty: LookupType| Outcome::Done((), MathOp::Dot(ty)),
        ),
        MathFunction::Cross => Outcome::Done((), MathOp::Double(spirv::GLOp::Cross)),
        MathFunction::Distance => found(component_type(argument)).bind(
            |_u: (), ty: LookupType| Outcome::Done((), MathOp::Distance(ty)),
        ),
        MathFunction::Length => found(component_type(argument)).bind(
            |_u: (), ty: LookupType| Outcome::Done((), MathOp::Length(ty)),
        ),
        MathFunction::Normalize => Outcome::Done((), MathOp::Single(spirv::GLOp::Normalize)),
        MathFunction::Transpose => match argument {
            Some(TypeInner::Matrix { columns, rows, width }) => Outcome::Done(
                (),
                MathOp::Transpose(
                    LookupType::Local(LocalType::Matrix { columns: rows, rows: columns, width }),
                ),
            ),
            _ => Outcome::Stuck,
        },
        _ => not_implemented((), "math function"@),
    }
}

/// Whether it depends on the type of the argument how a function is computed.
pub open spec fn depends_on_argument(fun: MathFunction) -> bool {
    match fun {
        MathFunction::Abs
        | MathFunction::Min
        | MathFunction::Max
        | MathFunction::Clamp
        | MathFunction::Dot
        | MathFunction::Distance
        | MathFunction::Length
        | MathFunction::Transpose => true,
        _ => false,
    }
}

/// Whether it depends on the type of the argument how a function is computed.
pub fn needs_argument(fun: MathFunction) -> (needed: bool)
    ensures
        needed == depends_on_argument(fun),
{
    match fun {
        MathFunction::Abs
        | MathFunction::Min
        | MathFunction::Max
        | MathFunction::Clamp
        | MathFunction::Dot
        | MathFunction::Distance
        | MathFunction::Length
        | MathFunction::Transpose => true,
        _ => false,
    }
}

/// What stands for a missing value that is known not to be missing.
fn expect_extended(op: Option<spirv::GLOp>) -> (value: spirv::GLOp)
    requires
        op is Some,
    ensures
        Some(value) == op,
{
    match op {
        Some(value) => value,
        None => spirv::GLOp::FAbs,
    }
}

/// How a function is computed of an argument of type `argument`.
pub fn select_typed_math_op(fun: MathFunction, argument: &TypeInner) -> (op: MathOp)
    requires
        depends_on_argument(fun),
        !(math_op(fun, Some(*argument)) is Stuck),
    ensures
        Outcome::Done((), op) == math_op(fun, Some(*argument)),
{
    let kind = argument.scalar_kind();
    match fun {
        MathFunction::Abs => match kind {
            Some(ScalarKind::Float) => MathOp::Single(spirv::GLOp::FAbs),
            Some(ScalarKind::Sint) => MathOp::Single(spirv::GLOp::SAbs),
            _ => MathOp::Copy,
        },
        MathFunction::Min => MathOp::Double(
            expect_extended(
                select_extended_by_kind(
                    kind,
                    spirv::GLOp::FMin,
                    spirv::GLOp::SMin,
                    spirv::GLOp::UMin,
                ),
            ),
        ),
        MathFunction::Max => MathOp::Double(
            expect_extended(
                select_extended_by_kind(
                    kind,
                    spirv::GLOp::FMax,
                    spirv::GLOp::SMax,
                    spirv::GLOp::UMax,
                ),
            ),
        ),
        MathFunction::Clamp => MathOp::Triple(
            expect_extended(
                select_extended_by_kind(
                    kind,
                    spirv::GLOp::FClamp,
                    spirv::GLOp::SClamp,
                    spirv::GLOp::UClamp,
                ),
            ),
        ),
        MathFunction::Transpose => match argument {
            TypeInner::Matrix { columns, rows, width } => MathOp::Transpose(
                LookupType::Local(
                    LocalType::Matrix { columns: *rows, rows: *columns, width: *width },
                ),
            ),
            _ => MathOp::Copy,
        },
        _ => match find_component_type(argument) {
            Some(ty) => match fun {
                MathFunction::Dot => MathOp::Dot(ty),
                MathFunction::Distance => MathOp::Distance(ty),
                _ => MathOp::Length(ty),
            },
            None => MathOp::Copy,
        },
    }
}

/// How a function is computed, whatever its argument is.
pub fn select_math_op(fun: MathFunction) -> (result: Result<MathOp, Error>)
    requires
        !depends_on_argument(fun),
    ensures
        forall|argument: Option<TypeInner>| outcome((), result) == #[trigger] math_op(fun, argument),
{
    match fun {
        // trigonometry
        MathFunction::Sin => Ok(MathOp::Single(spirv::GLOp::Sin)),
        MathFunction::Asin => Ok(MathOp::Single(spirv::GLOp::Asin)),
        MathFunction::Cos => Ok(MathOp::Single(spirv::GLOp::Cos)),
        MathFunction::Acos => Ok(MathOp::Single(spirv::GLOp::Acos)),
        MathFunction::Tan => Ok(MathOp::Single(spirv::GLOp::Tan)),
        MathFunction::Atan => Ok(MathOp::Single(spirv::GLOp::Atan)),
        MathFunction::Atan2 => Ok(MathOp::Double(spirv::GLOp::Atan2)),
        // decomposition
        MathFunction::Ceil => Ok(MathOp::Single(spirv::GLOp::Ceil)),
        MathFunction::Round => Ok(MathOp::Single(spirv::GLOp::Round)),
        MathFunction::Floor => Ok(MathOp::Single(spirv::GLOp::Floor)),
        MathFunction::Fract => Ok(MathOp::Single(spirv::GLOp::Fract)),
        MathFunction::Trunc => Ok(MathOp::Single(spirv::GLOp::Trunc)),
        // geometry
        MathFunction::Cross => Ok(MathOp::Double(spirv::GLOp::Cross)),
        MathFunction::Normalize => Ok(MathOp::Single(spirv::GLOp::Normalize)),
        _ => Err(Error::FeatureNotImplemented("math function")),
    }
}

} // verus!

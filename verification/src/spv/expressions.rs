//! Writing expressions.

use crate::arena::{Arena, Handle};
use crate::ir::{
    BinaryOperator, Constant, ConstantInner, Expression, Function as IrFunction, GlobalVariable,
    LocalVariable, MathFunction, Module, SampleLevel, ScalarKind, ScalarValue, Type, TypeInner,
    UnaryOperator, VectorSize,
};
use crate::spv::function::{BlockView, FunctionView, RawExpression};
use crate::spv::instruction::InstructionView;
use crate::spv::instructions::{
    op_access_chain, op_binary, op_composite_construct, op_composite_extract, op_ext_inst,
    op_function_call, op_image_sample, op_load, op_sampled_image, op_unary,
    op_vector_extract_dynamic, SampleLod,
};
use crate::spv::lookup::{LocalType, LookupType};
use crate::spv::model::{not_implemented, Outcome, WriterView};
use crate::spv::operators::{
    binary_op, conversion_op, dimension, element_type, is_comparison, math_op, member_type,
    operands_swap, result_on_right, sample_type, unary_op, MathOp,
};
use crate::spv::types::{scalar, type_inner, vector};
use crate::spv::words::Word;
use spirv_headers as spirv;
use vstd::prelude::*;

verus! {

/// Where the writer stands in a function: its own state, and the block that it appends to.
#[verifier::ext_equal]
pub struct Cursor {
    pub writer: WriterView,
    pub block: BlockView,
}

/// What the expressions of a function can refer to.
pub struct Scope {
    pub module: Module,
    pub ir_function: IrFunction,
    /// The function as far as it was written: its parameters and local variables.
    pub function: FunctionView,
}

/// A step of the writer that leaves the block as it is.
pub open spec fn beside<T>(step: Outcome<WriterView, T>, block: BlockView) -> Outcome<Cursor, T> {
    match step {
        Outcome::Done(writer, result) => Outcome::Done(Cursor { writer, block }, result),
        Outcome::Fail(writer, failure) => Outcome::Fail(Cursor { writer, block }, failure),
        Outcome::Stuck => Outcome::Stuck,
    }
}

/// A decision that leaves everything as it is.
pub open spec fn decide<S, T>(state: S, decision: Outcome<(), T>) -> Outcome<S, T> {
    match decision {
        Outcome::Done(_, result) => Outcome::Done(state, result),
        Outcome::Fail(_, failure) => Outcome::Fail(state, failure),
        Outcome::Stuck => Outcome::Stuck,
    }
}

/// What values of a type look like; stuck if the writer cannot tell.
pub open spec fn decide_inner<S>(state: S, types: Arena<Type>, ty: LookupType) -> Outcome<
    S,
    TypeInner,
> {
    match type_inner(types, ty) {
        Some(inner) => Outcome::Done(state, inner),
        None => Outcome::Stuck,
    }
}

impl Cursor {
    /// Appends an instruction to the block.
    pub open spec fn emit(self, instruction: InstructionView) -> Cursor {
        Cursor { block: self.block.emit(instruction), ..self }
    }

    /// Hands out the next identifier.
    pub open spec fn generate_id(self) -> Outcome<Cursor, Word> {
        beside(self.writer.generate_id(), self.block)
    }

    /// The identifier of a type.
    pub open spec fn type_id(self, types: Arena<Type>, ty: LookupType) -> Outcome<Cursor, Word> {
        beside(self.writer.type_id(types, ty), self.block)
    }

    /// Appends the construction of a composite value, and returns its identifier.
    pub open spec fn composite_construct(self, type_id: Word, constituent_ids: Seq<Word>) -> Outcome<
        Cursor,
        Word,
    > {
        self.generate_id().bind(
            |c: Cursor, id: Word|
                Outcome::Done(c.emit(op_composite_construct(type_id, id, constituent_ids)), id),
        )
    }

    /// The value of an expression and its type. Where the expression was written as a pointer,
    /// the value is loaded.
    pub open spec fn value(self, s: Scope, handle: Handle<Expression>, depth: nat) -> Outcome<
        Cursor,
        (Word, LookupType),
    >
        decreases depth, 1nat, 0nat,
    {
        self.raw(s, handle, depth).bind(
            |c: Cursor, written: (RawExpression, LookupType)|
                match written.0 {
                    RawExpression::Value(id) => Outcome::Done(c, (id, written.1)),
                    RawExpression::Pointer(id, _) => c.generate_id().bind(
                        |c: Cursor, load_id: Word|
                            c.type_id(s.module.types, written.1).bind(
                                |c: Cursor, type_id: Word|
                                    Outcome::Done(
                                        c.emit(op_load(type_id, load_id, id)),
                                        (load_id, written.1),
                                    ),
                            ),
                    ),
                },
        )
    }

    /// A pointer to the value of an expression, the type of the value, and where it is stored.
    pub open spec fn pointer(self, s: Scope, handle: Handle<Expression>, depth: nat) -> Outcome<
        Cursor,
        (Word, LookupType, spirv::StorageClass),
    >
        decreases depth, 1nat, 0nat,
    {
        self.raw(s, handle, depth).bind(
            |c: Cursor, written: (RawExpression, LookupType)|
                match written.0 {
                    RawExpression::Value(_) => Outcome::Stuck,
                    RawExpression::Pointer(id, class) => Outcome::Done(c, (id, written.1, class)),
                },
        )
    }

    /// The values of the expressions `handles` from the `i`-th on, behind `ids`.
    pub open spec fn values(
        self,
        s: Scope,
        handles: Seq<Handle<Expression>>,
        i: nat,
        ids: Seq<Word>,
        depth: nat,
    ) -> Outcome<Cursor, Seq<Word>>
        decreases depth, 2nat, handles.len() - i,
    {
        if i >= handles.len() {
            Outcome::Done(self, ids)
        } else {
            self.value(s, handles[i as int], depth).bind(
                |c: Cursor, value: (Word, LookupType)|
                    c.values(s, handles, i + 1, ids.push(value.0), depth),
            )
        }
    }

    /// The value of an expression, if there is one.
    pub open spec fn optional_value(self, s: Scope, handle: Option<Handle<Expression>>, depth: nat) -> Outcome<
        Cursor,
        Option<Word>,
    >
        decreases depth, 2nat, 0nat,
    {
        match handle {
            Some(handle) => self.value(s, handle, depth).bind(
                |c: Cursor, value: (Word, LookupType)| Outcome::Done(c, Some(value.0)),
            ),
            None => Outcome::Done(self, None),
        }
    }

    /// An expression, as a value or as a pointer to it, and the type of the value. Expressions
    /// refer to one another less than `depth` deep.
    pub open spec fn raw(self, s: Scope, handle: Handle<Expression>, depth: nat) -> Outcome<
        Cursor,
        (RawExpression, LookupType),
    >
        decreases depth, 0nat, 0nat,
    {
        if depth == 0 || !s.ir_function.expressions.contains(handle) {
            Outcome::Stuck
        } else {
            let d = (depth - 1) as nat;
            match s.ir_function.expressions.at(handle) {
                Expression::Access { base, index } => self.access(s, base, index, d),
                Expression::AccessIndex { base, index } => self.access_index(s, base, index, d),
                Expression::GlobalVariable(handle) => self.global_variable(s, handle),
                Expression::Constant(handle) => self.constant(s, handle),
                Expression::Compose { ty, components } => self.compose(s, ty, components@, d),
                Expression::Unary { op, expr } => self.unary(s, op, expr, d),
                Expression::Binary { op, left, right } => self.binary(s, op, left, right, d),
                Expression::Math { fun, arg, arg1, arg2 } => self.math(s, fun, arg, arg1, arg2, d),
                Expression::LocalVariable(handle) => self.local_variable(s, handle),
                Expression::FunctionArgument(index) => self.function_argument(s, index),
                Expression::Call { function, arguments } => self.call(s, function, arguments@, d),
                Expression::As { expr, kind, convert } => self.cast(s, expr, kind, convert, d),
                Expression::ImageSample {
                    image,
                    sampler,
                    coordinate,
                    array_index,
                    offset,
                    level,
                    depth_ref,
                } => self.image_sample(
                    s,
                    image,
                    sampler,
                    coordinate,
                    array_index,
                    offset,
                    level,
                    depth_ref,
                    d,
                ),
                _ => not_implemented(self, "expression"@),
            }
        }
    }

    /// The element of a vector or array that a computed index picks.
    pub open spec fn access(
        self,
        s: Scope,
        base: Handle<Expression>,
        index: Handle<Expression>,
        depth: nat,
    ) -> Outcome<Cursor, (RawExpression, LookupType)>
        decreases depth, 3nat, 0nat,
    {
        self.generate_id().bind(
            |c: Cursor, id: Word|
                c.raw(s, base, depth).bind(
                    |c: Cursor, written: (RawExpression, LookupType)|
                        decide_inner(c, s.module.types, written.1).bind(
                            |c: Cursor, inner: TypeInner|
                                c.value(s, index, depth).bind(
                                    |c: Cursor, index_value: (Word, LookupType)|
                                        decide(c, element_type(inner)).bind(
                                            |c: Cursor, ty: LookupType|
                                                c.pick_element(
                                                    s,
                                                    id,
                                                    written.0,
                                                    inner,
                                                    index_value.0,
                                                    ty,
                                                ),
                                        ),
                                ),
                        ),
                ),
        )
    }

    /// Picks the element of type `ty` of a vector or array by the value `index_id`.
    pub open spec fn pick_element(
        self,
        s: Scope,
        id: Word,
        base: RawExpression,
        inner: TypeInner,
        index_id: Word,
        ty: LookupType,
    ) -> Outcome<Cursor, (RawExpression, LookupType)> {
        match base {
            RawExpression::Value(base_id) => if inner is Array {
                not_implemented(self, "accessing index of a value array"@)
            } else {
                self.type_id(s.module.types, ty).bind(
                    |c: Cursor, type_id: Word|
                        Outcome::Done(
                            c.emit(op_vector_extract_dynamic(type_id, id, base_id, index_id)),
                            (RawExpression::Value(id), ty),
                        ),
                )
            },
            RawExpression::Pointer(base_id, class) => self.chain(
                s,
                id,
                base_id,
                class,
                index_id,
                ty,
            ),
        }
    }

    /// A pointer to the part of type `ty` that the value `index_id` picks.
    #[verifier::opaque]
    pub open spec fn chain(
        self,
        s: Scope,
        id: Word,
        base_id: Word,
        class: spirv::StorageClass,
        index_id: Word,
        ty: LookupType,
    ) -> Outcome<Cursor, (RawExpression, LookupType)> {
        beside(self.writer.new_pointer_type(s.module.types, ty, class), self.block).bind(
            |c: Cursor, pointer: (Word, LookupType)|
                Outcome::Done(
                    c.emit(op_access_chain(pointer.0, id, base_id, seq![index_id])),
                    (RawExpression::Pointer(id, class), pointer.1),
                ),
        )
    }

    /// The part of a vector, matrix or structure that a fixed index picks.
    pub open spec fn access_index(
        self,
        s: Scope,
        base: Handle<Expression>,
        index: u32,
        depth: nat,
    ) -> Outcome<Cursor, (RawExpression, LookupType)>
        decreases depth, 3nat, 0nat,
    {
        self.generate_id().bind(
            |c: Cursor, id: Word|
                c.raw(s, base, depth).bind(
                    |c: Cursor, written: (RawExpression, LookupType)|
                        decide_inner(c, s.module.types, written.1).bind(
                            |c: Cursor, inner: TypeInner|
                                decide(c, member_type(inner, index)).bind(
                                    |c: Cursor, ty: LookupType|
                                        c.pick_member(s, id, written.0, index, ty),
                                ),
                        ),
                ),
        )
    }

    /// Picks the part of type `ty` at a fixed index.
    pub open spec fn pick_member(
        self,
        s: Scope,
        id: Word,
        base: RawExpression,
        index: u32,
        ty: LookupType,
    ) -> Outcome<Cursor, (RawExpression, LookupType)> {
        match base {
            RawExpression::Value(base_id) => self.type_id(s.module.types, ty).bind(
                |c: Cursor, type_id: Word|
                    Outcome::Done(
                        c.emit(op_composite_extract(type_id, id, base_id, seq![index])),
                        (RawExpression::Value(id), ty),
                    ),
            ),
            RawExpression::Pointer(base_id, class) => self.type_id(
                s.module.types,
                scalar(ScalarKind::Sint, 4),
            ).bind(
                |c: Cursor, const_type_id: Word|
                    beside(c.writer.new_constant(const_type_id, seq![index]), c.block).bind(
                        |c: Cursor, const_id: Word|
                            c.chain(s, id, base_id, class, const_id, ty),
                    ),
            ),
        }
    }

    /// A global variable.
    pub open spec fn global_variable(self, s: Scope, handle: Handle<GlobalVariable>) -> Outcome<
        Cursor,
        (RawExpression, LookupType),
    > {
        if !s.module.global_variables.contains(handle) {
            Outcome::Stuck
        } else {
            beside(self.writer.global_variable_id(s.module, handle), self.block).bind(
                |c: Cursor, variable: (Word, spirv::StorageClass)|
                    Outcome::Done(
                        c,
                        (
                            RawExpression::Pointer(variable.0, variable.1),
                            LookupType::Handle(s.module.global_variables.at(handle).ty),
                        ),
                    ),
            )
        }
    }

    /// A constant.
    pub open spec fn constant(self, s: Scope, handle: Handle<Constant>) -> Outcome<
        Cursor,
        (RawExpression, LookupType),
    > {
        if !s.module.constants.contains(handle) {
            Outcome::Stuck
        } else {
            beside(self.writer.constant_id(s.module, handle), self.block).bind(
                |c: Cursor, id: Word|
                    Outcome::Done(
                        c,
                        (
                            RawExpression::Value(id),
                            match s.module.constants.at(handle).inner {
                                ConstantInner::Scalar { width, value } => scalar(
                                    value.kind(),
                                    width,
                                ),
                                ConstantInner::Composite { ty, .. } => LookupType::Handle(ty),
                            },
                        ),
                    ),
            )
        }
    }

    /// A value that is made of others.
    pub open spec fn compose(
        self,
        s: Scope,
        ty: Handle<Type>,
        components: Seq<Handle<Expression>>,
        depth: nat,
    ) -> Outcome<Cursor, (RawExpression, LookupType)>
        decreases depth, 3nat, 0nat,
    {
        self.type_id(s.module.types, LookupType::Handle(ty)).bind(
            |c: Cursor, type_id: Word|
                c.values(s, components, 0, Seq::empty(), depth).bind(
                    |c: Cursor, constituent_ids: Seq<Word>|
                        c.composite_construct(type_id, constituent_ids).bind(
                            |c: Cursor, id: Word|
                                Outcome::Done(
                                    c,
                                    (RawExpression::Value(id), LookupType::Handle(ty)),
                                ),
                        ),
                ),
        )
    }

    /// The result of a unary operator.
    pub open spec fn unary(
        self,
        s: Scope,
        op: UnaryOperator,
        expr: Handle<Expression>,
        depth: nat,
    ) -> Outcome<Cursor, (RawExpression, LookupType)>
        decreases depth, 3nat, 0nat,
    {
        self.generate_id().bind(
            |c: Cursor, id: Word|
                c.value(s, expr, depth).bind(
                    |c: Cursor, operand: (Word, LookupType)|
                        decide_inner(c, s.module.types, operand.1).bind(
                            |c: Cursor, inner: TypeInner|
                                c.type_id(s.module.types, operand.1).bind(
                                    |c: Cursor, type_id: Word|
                                        decide(c, unary_op(op, inner.kind())).bind(
                                            |c: Cursor, spirv_op: spirv::Op|
                                                Outcome::Done(
                                                    c.emit(
                                                        op_unary(spirv_op, type_id, id, operand.0),
                                                    ),
                                                    (RawExpression::Value(id), operand.1),
                                                ),
                                        ),
                                ),
                        ),
                ),
        )
    }

    /// The result of a binary operator.
    pub open spec fn binary(
        self,
        s: Scope,
        op: BinaryOperator,
        left: Handle<Expression>,
        right: Handle<Expression>,
        depth: nat,
    ) -> Outcome<Cursor, (RawExpression, LookupType)>
        decreases depth, 3nat, 0nat,
    {
        self.generate_id().bind(
            |c: Cursor, id: Word|
                c.value(s, left, depth).bind(
                    |c: Cursor, l: (Word, LookupType)|
                        c.value(s, right, depth).bind(
                            |c: Cursor, r: (Word, LookupType)| c.apply_binary(s, op, id, l, r),
                        ),
                ),
        )
    }

    /// Applies a binary operator to two values.
    #[verifier::opaque]
    pub open spec fn apply_binary(
        self,
        s: Scope,
        op: BinaryOperator,
        id: Word,
        l: (Word, LookupType),
        r: (Word, LookupType),
    ) -> Outcome<Cursor, (RawExpression, LookupType)> {
        decide_inner(self, s.module.types, l.1).bind(
            |c: Cursor, left: TypeInner|
                decide_inner(c, s.module.types, r.1).bind(
                    |c: Cursor, right: TypeInner|
                        c.type_id(s.module.types, l.1).bind(
                            |c: Cursor, left_type_id: Word|
                                c.type_id(s.module.types, r.1).bind(
                                    |c: Cursor, right_type_id: Word|
                                        c.binary_instruction(
                                            s,
                                            op,
                                            id,
                                            l,
                                            left,
                                            left_type_id,
                                            r,
                                            right,
                                            right_type_id,
                                        ),
                                ),
                        ),
                ),
        )
    }

    /// Appends the operation of a binary operator.
    pub open spec fn binary_instruction(
        self,
        s: Scope,
        op: BinaryOperator,
        id: Word,
        l: (Word, LookupType),
        left: TypeInner,
        left_type_id: Word,
        r: (Word, LookupType),
        right: TypeInner,
        right_type_id: Word,
    ) -> Outcome<Cursor, (RawExpression, LookupType)> {
        if dimension(left) is None || dimension(right) is None {
            Outcome::Stuck
        } else {
            match binary_op(op, left, right) {
                None => Outcome::Stuck,
                Some(spirv_op) => {
                    let truth = scalar(ScalarKind::Bool, 1);
                    let result = if is_comparison(op) {
                        self.type_id(s.module.types, truth).bind(
                            |c: Cursor, type_id: Word| Outcome::Done(c, (type_id, truth)),
                        )
                    } else if result_on_right(op, right) {
                        Outcome::Done(self, (right_type_id, r.1))
                    } else {
                        Outcome::Done(self, (left_type_id, l.1))
                    };
                    let swap = operands_swap(op, left, right);
                    result.bind(
                        |c: Cursor, ty: (Word, LookupType)|
                            Outcome::Done(
                                c.emit(
                                    op_binary(
                                        spirv_op,
                                        ty.0,
                                        id,
                                        if swap {
                                            r.0
                                        } else {
                                            l.0
                                        },
                                        if swap {
                                            l.0
                                        } else {
                                            r.0
                                        },
                                    ),
                                ),
                                (RawExpression::Value(id), ty.1),
                            ),
                    )
                },
            }
        }
    }

    /// The result of a mathematical function.
    pub open spec fn math(
        self,
        s: Scope,
        fun: MathFunction,
        arg: Handle<Expression>,
        arg1: Option<Handle<Expression>>,
        arg2: Option<Handle<Expression>>,
        depth: nat,
    ) -> Outcome<Cursor, (RawExpression, LookupType)>
        decreases depth, 3nat, 0nat,
    {
        self.value(s, arg, depth).bind(
            |c: Cursor, arg0: (Word, LookupType)|
                c.type_id(s.module.types, arg0.1).bind(
                    |c: Cursor, arg0_type_id: Word|
                        c.optional_value(s, arg1, depth).bind(
                            |c: Cursor, arg1_id: Option<Word>|
                                c.optional_value(s, arg2, depth).bind(
                                    |c: Cursor, arg2_id: Option<Word>|
                                        c.apply_math(
                                            s,
                                            fun,
                                            arg0,
                                            arg0_type_id,
                                            arg1_id,
                                            arg2_id,
                                        ),
                                ),
                        ),
                ),
        )
    }

    /// Applies a mathematical function. A zero stands for an argument that is missing.
    #[verifier::opaque]
    pub open spec fn apply_math(
        self,
        s: Scope,
        fun: MathFunction,
        arg0: (Word, LookupType),
        arg0_type_id: Word,
        arg1_id: Option<Word>,
        arg2_id: Option<Word>,
    ) -> Outcome<Cursor, (RawExpression, LookupType)> {
        let a = arg0.0;
        let b = if arg1_id is Some {
            arg1_id->0
        } else {
            0
        };
        let c2 = if arg2_id is Some {
            arg2_id->0
        } else {
            0
        };
        self.generate_id().bind(
            |c: Cursor, id: Word|
                decide(c, math_op(fun, type_inner(s.module.types, arg0.1))).bind(
                    |c: Cursor, op: MathOp|
                        {
                            let set = c.writer.gl450_ext_inst_id;
                            match op {
                                MathOp::Single(op) => c.result(
                                    op_ext_inst(set, op, arg0_type_id, id, seq![a]),
                                    id,
                                    arg0.1,
                                ),
                                MathOp::Double(op) => c.result(
                                    op_ext_inst(set, op, arg0_type_id, id, seq![a, b]),
                                    id,
                                    arg0.1,
                                ),
                                MathOp::Triple(op) => c.result(
                                    op_ext_inst(set, op, arg0_type_id, id, seq![a, b, c2]),
                                    id,
                                    arg0.1,
                                ),
                                MathOp::Copy => c.result(
                                    op_unary(spirv::Op::CopyObject, arg0_type_id, id, a),
                                    id,
                                    arg0.1,
                                ),
                                MathOp::Dot(ty) => c.type_id(s.module.types, ty).bind(
                                    |c: Cursor, type_id: Word|
                                        c.result(
                                            op_binary(spirv::Op::Dot, type_id, id, a, b),
                                            id,
                                            ty,
                                        ),
                                ),
                                MathOp::Length(ty) => c.type_id(s.module.types, ty).bind(
                                    |c: Cursor, type_id: Word|
                                        c.result(
                                            op_ext_inst(
                                                set,
                                                spirv::GLOp::Length,
                                                type_id,
                                                id,
                                                seq![a],
                                            ),
                                            id,
                                            ty,
                                        ),
                                ),
                                MathOp::Distance(ty) => c.type_id(s.module.types, ty).bind(
                                    |c: Cursor, type_id: Word|
                                        c.result(
                                            op_ext_inst(
                                                set,
                                                spirv::GLOp::Distance,
                                                type_id,
                                                id,
                                                seq![a, b],
                                            ),
                                            id,
                                            ty,
                                        ),
                                ),
                                MathOp::Transpose(ty) => c.type_id(s.module.types, ty).bind(
                                    |c: Cursor, type_id: Word|
                                        c.result(
                                            op_unary(spirv::Op::Transpose, type_id, id, a),
                                            id,
                                            ty,
                                        ),
                                ),
                            }
                        },
                ),
        )
    }

    /// Appends the instruction that yields the value `id` of type `ty`.
    pub open spec fn result(self, instruction: InstructionView, id: Word, ty: LookupType) -> Outcome<
        Cursor,
        (RawExpression, LookupType),
    > {
        Outcome::Done(self.emit(instruction), (RawExpression::Value(id), ty))
    }

    /// A local variable.
    pub open spec fn local_variable(self, s: Scope, handle: Handle<LocalVariable>) -> Outcome<
        Cursor,
        (RawExpression, LookupType),
    > {
        if !s.ir_function.local_variables.contains(handle) || handle.index
            >= s.function.variables.len() {
            Outcome::Stuck
        } else {
            Outcome::Done(
                self,
                (
                    RawExpression::Pointer(
                        s.function.variables[handle.index as int].0,
                        spirv::StorageClass::Function,
                    ),
                    LookupType::Handle(s.ir_function.local_variables.at(handle).ty),
                ),
            )
        }
    }

    /// An argument of the function.
    pub open spec fn function_argument(self, s: Scope, index: u32) -> Outcome<
        Cursor,
        (RawExpression, LookupType),
    > {
        if index >= s.ir_function.arguments@.len() || index >= s.function.parameters.len()
            || s.function.parameters[index as int].result_id is None {
            Outcome::Stuck
        } else {
            Outcome::Done(
                self,
                (
                    RawExpression::Value(s.function.parameters[index as int].result_id->0),
                    LookupType::Handle(s.ir_function.arguments@[index as int].ty),
                ),
            )
        }
    }

    /// What a function returns.
    pub open spec fn call(
        self,
        s: Scope,
        function: Handle<IrFunction>,
        arguments: Seq<Handle<Expression>>,
        depth: nat,
    ) -> Outcome<Cursor, (RawExpression, LookupType)>
        decreases depth, 3nat, 0nat,
    {
        if !s.module.functions.contains(function) {
            Outcome::Stuck
        } else {
            let return_type = s.module.functions.at(function).return_type;
            self.generate_id().bind(
                |c: Cursor, id: Word|
                    c.values(s, arguments, 0, Seq::empty(), depth).bind(
                        |c: Cursor, argument_ids: Seq<Word>|
                            beside(
                                c.writer.return_type_id(s.module.types, return_type),
                                c.block,
                            ).bind(
                                |c: Cursor, type_id: Word|
                                    if c.writer.lookup_function.contains_key(function) {
                                        c.result(
                                            op_function_call(
                                                type_id,
                                                id,
                                                c.writer.lookup_function[function],
                                                argument_ids,
                                            ),
                                            id,
                                            match return_type {
                                                Some(ty) => LookupType::Handle(ty),
                                                None => LookupType::Local(LocalType::Void),
                                            },
                                        )
                                    } else {
                                        Outcome::Stuck
                                    },
                            ),
                    ),
            )
        }
    }

    /// A number converted to another kind of number.
    pub open spec fn cast(
        self,
        s: Scope,
        expr: Handle<Expression>,
        kind: ScalarKind,
        convert: bool,
        depth: nat,
    ) -> Outcome<Cursor, (RawExpression, LookupType)>
        decreases depth, 3nat, 0nat,
    {
        if !convert {
            not_implemented(self, "bitcast"@)
        } else {
            self.value(s, expr, depth).bind(
                |c: Cursor, operand: (Word, LookupType)|
                    match type_inner(s.module.types, operand.1) {
                        Some(TypeInner::Scalar { kind: from, width }) => c.convert(
                            s,
                            operand.0,
                            from,
                            kind,
                            scalar(kind, width),
                        ),
                        Some(TypeInner::Vector { size, kind: from, width }) => c.convert(
                            s,
                            operand.0,
                            from,
                            kind,
                            vector(size, kind, width),
                        ),
                        _ => Outcome::Stuck,
                    },
            )
        }
    }

    /// Converts a value to type `ty`.
    pub open spec fn convert(
        self,
        s: Scope,
        operand_id: Word,
        from: ScalarKind,
        to: ScalarKind,
        ty: LookupType,
    ) -> Outcome<Cursor, (RawExpression, LookupType)> {
        match conversion_op(from, to) {
            None => Outcome::Done(self, (RawExpression::Value(operand_id), ty)),
            Some(op) => self.generate_id().bind(
                |c: Cursor, id: Word|
                    c.type_id(s.module.types, ty).bind(
                        |c: Cursor, type_id: Word|
                            c.result(op_unary(op, type_id, id, operand_id), id, ty),
                    ),
            ),
        }
    }

    /// What is found in an image at a coordinate.
    pub open spec fn image_sample(
        self,
        s: Scope,
        image: Handle<Expression>,
        sampler: Handle<Expression>,
        coordinate: Handle<Expression>,
        array_index: Option<Handle<Expression>>,
        offset: Option<Handle<Constant>>,
        level: SampleLevel,
        depth_ref: Option<Handle<Expression>>,
        depth: nat,
    ) -> Outcome<Cursor, (RawExpression, LookupType)>
        decreases depth, 7nat, 0nat,
    {
        self.value(s, image, depth).bind(
            |c: Cursor, image_value: (Word, LookupType)|
                match image_value.1 {
                    LookupType::Local(_) => Outcome::Stuck,
                    LookupType::Handle(image_type) => c.type_id(
                        s.module.types,
                        LookupType::Local(LocalType::SampledImage { image_type }),
                    ).bind(
                        |c: Cursor, sampled_image_type_id: Word|
                            c.value(s, sampler, depth).bind(
                                |c: Cursor, sampler_value: (Word, LookupType)|
                                    c.image_coordinate(s, coordinate, array_index, depth).bind(
                                        |c: Cursor, coordinate_id: Word|
                                            c.sample_at(
                                                s,
                                                image_value.0,
                                                image_type,
                                                sampled_image_type_id,
                                                sampler_value.0,
                                                coordinate_id,
                                                offset,
                                                level,
                                                depth_ref,
                                                depth,
                                            ),
                                    ),
                            ),
                    ),
                },
        )
    }

    /// The coordinate at which an image is sampled. The index into an array of images is its
    /// last component.
    pub open spec fn image_coordinate(
        self,
        s: Scope,
        coordinate: Handle<Expression>,
        array_index: Option<Handle<Expression>>,
        depth: nat,
    ) -> Outcome<Cursor, Word>
        decreases depth, 5nat, 0nat,
    {
        self.value(s, coordinate, depth).bind(
            |c: Cursor, value: (Word, LookupType)|
                match array_index {
                    None => Outcome::Done(c, value.0),
                    Some(array_index) => c.type_id(
                        s.module.types,
                        scalar(ScalarKind::Float, 4),
                    ).bind(
                        |c: Cursor, scalar_type_id: Word|
                            c.coordinate_components(s, value.0, value.1, scalar_type_id).bind(
                                |c: Cursor, ids: Seq<Word>|
                                    c.layered_coordinate(
                                        s,
                                        ids,
                                        scalar_type_id,
                                        array_index,
                                        depth,
                                    ),
                            ),
                    ),
                },
        )
    }

    /// The components of a coordinate that can be extended by one.
    #[verifier::opaque]
    pub open spec fn coordinate_components(
        self,
        s: Scope,
        coordinate_id: Word,
        ty: LookupType,
        scalar_type_id: Word,
    ) -> Outcome<Cursor, Seq<Word>> {
        match type_inner(s.module.types, ty) {
            Some(TypeInner::Scalar { .. }) => Outcome::Done(self, seq![coordinate_id]),
            Some(TypeInner::Vector { size, .. }) => self.components(
                coordinate_id,
                scalar_type_id,
                0,
                size.number() as nat,
                Seq::empty(),
            ).bind(
                |c: Cursor, ids: Seq<Word>|
                    if size == VectorSize::Quad {
                        Outcome::Stuck
                    } else {
                        Outcome::Done(c, ids)
                    },
            ),
            _ => Outcome::Stuck,
        }
    }

    /// The components of a vector from the `i`-th to the `n`-th, behind `ids`.
    pub open spec fn components(
        self,
        vector_id: Word,
        scalar_type_id: Word,
        i: nat,
        n: nat,
        ids: Seq<Word>,
    ) -> Outcome<Cursor, Seq<Word>>
        decreases n - i,
    {
        if i >= n {
            Outcome::Done(self, ids)
        } else {
            self.generate_id().bind(
                |c: Cursor, id: Word|
                    c.emit(
                        op_composite_extract(scalar_type_id, id, vector_id, seq![i as u32]),
                    ).components(vector_id, scalar_type_id, i + 1, n, ids.push(id)),
            )
        }
    }

    /// The coordinate with components `ids`, extended by the index into an array of images.
    pub open spec fn layered_coordinate(
        self,
        s: Scope,
        ids: Seq<Word>,
        scalar_type_id: Word,
        array_index: Handle<Expression>,
        depth: nat,
    ) -> Outcome<Cursor, Word>
        decreases depth, 4nat, 0nat,
    {
        let size = if ids.len() == 1 {
            VectorSize::Bi
        } else if ids.len() == 2 {
            VectorSize::Tri
        } else {
            VectorSize::Quad
        };
        self.generate_id().bind(
            |c: Cursor, layer_id: Word|
                c.value(s, array_index, depth).bind(
                    |c: Cursor, index: (Word, LookupType)|
                        c.emit(
                            op_unary(spirv::Op::ConvertUToF, scalar_type_id, layer_id, index.0),
                        ).type_id(s.module.types, vector(size, ScalarKind::Float, 4)).bind(
                            |c: Cursor, type_id: Word|
                                c.composite_construct(type_id, ids.push(layer_id)),
                        ),
                ),
        )
    }

    /// Samples an image at a coordinate.
    pub open spec fn sample_at(
        self,
        s: Scope,
        image_id: Word,
        image_type: Handle<Type>,
        sampled_image_type_id: Word,
        sampler_id: Word,
        coordinate_id: Word,
        offset: Option<Handle<Constant>>,
        level: SampleLevel,
        depth_ref: Option<Handle<Expression>>,
        depth: nat,
    ) -> Outcome<Cursor, (RawExpression, LookupType)>
        decreases depth, 6nat, 0nat,
    {
        if !s.module.types.contains(image_type) {
            Outcome::Stuck
        } else {
            match sample_type(s.module.types.at(image_type).inner) {
                None => Outcome::Stuck,
                Some(ty) => self.generate_id().bind(
                    |c: Cursor, sampled_image_id: Word|
                        c.emit(
                            op_sampled_image(
                                sampled_image_type_id,
                                sampled_image_id,
                                image_id,
                                sampler_id,
                            ),
                        ).generate_id().bind(
                            |c: Cursor, id: Word|
                                c.type_id(s.module.types, ty).bind(
                                    |c: Cursor, type_id: Word|
                                        c.sample_instruction(
                                            s,
                                            type_id,
                                            id,
                                            sampled_image_id,
                                            coordinate_id,
                                            offset,
                                            level,
                                            depth_ref,
                                            depth,
                                        ).bind(
                                            |c: Cursor, instruction: InstructionView|
                                                c.result(instruction, id, ty),
                                        ),
                                ),
                        ),
                ),
            }
        }
    }

    /// The instruction that samples an image.
    pub open spec fn sample_instruction(
        self,
        s: Scope,
        type_id: Word,
        id: Word,
        sampled_image_id: Word,
        coordinate_id: Word,
        offset: Option<Handle<Constant>>,
        level: SampleLevel,
        depth_ref: Option<Handle<Expression>>,
        depth: nat,
    ) -> Outcome<Cursor, InstructionView>
        decreases depth, 5nat, 0nat,
    {
        self.optional_value(s, depth_ref, depth).bind(
            |c: Cursor, depth_id: Option<Word>|
                c.level_operands(s, level, depth).bind(
                    |c: Cursor, lod: (SampleLod, Seq<Word>)|
                        c.offset_operands(s, offset).bind(
                            |c: Cursor, offset_operands: Seq<Word>|
                                {
                                    let plain = op_image_sample(
                                        type_id,
                                        id,
                                        lod.0,
                                        sampled_image_id,
                                        coordinate_id,
                                        depth_id,
                                    );
                                    Outcome::Done(
                                        c,
                                        InstructionView {
                                            operands: plain.operands + lod.1 + offset_operands,
                                            ..plain
                                        },
                                    )
                                },
                        ),
                ),
        )
    }

    /// Declares the number zero.
    #[verifier::opaque]
    pub open spec fn float_zero(self, s: Scope) -> Outcome<Cursor, Word> {
        self.generate_id().bind(
            |c: Cursor, id: Word|
                beside(
                    c.writer.define_constant(
                        s.module,
                        id,
                        ConstantInner::Scalar {
                            width: 4,
                            value: ScalarValue::Float { single: 0, double: 0 },
                        },
                        s.module.constants.count(),
                    ),
                    c.block,
                ).bind(|c: Cursor, _u: ()| Outcome::Done(c, id)),
        )
    }

    /// How the level of detail is chosen, and the operands that say so.
    pub open spec fn level_operands(self, s: Scope, level: SampleLevel, depth: nat) -> Outcome<
        Cursor,
        (SampleLod, Seq<Word>),
    >
        decreases depth, 4nat, 0nat,
    {
        match level {
            SampleLevel::Zero => self.zero_operands(s),
            SampleLevel::Auto => Outcome::Done(self, (SampleLod::Implicit, Seq::empty())),
            SampleLevel::Exact(lod) => self.lod_operands(s, SampleLod::Explicit, 2, lod, depth),
            SampleLevel::Bias(bias) => self.lod_operands(s, SampleLod::Implicit, 1, bias, depth),
            SampleLevel::Gradient { x, y } => self.gradient_operands(s, x, y, depth),
        }
    }

    /// The operands for the level zero.
    pub open spec fn zero_operands(self, s: Scope) -> Outcome<Cursor, (SampleLod, Seq<Word>)> {
        self.float_zero(s).bind(
            |c: Cursor, zero_id: Word|
                Outcome::Done(c, (SampleLod::Explicit, seq![2u32, zero_id])),
        )
    }

    /// The operands for a level that is the value of an expression.
    pub open spec fn lod_operands(
        self,
        s: Scope,
        lod: SampleLod,
        bits: Word,
        handle: Handle<Expression>,
        depth: nat,
    ) -> Outcome<Cursor, (SampleLod, Seq<Word>)>
        decreases depth, 2nat, 0nat,
    {
        self.value(s, handle, depth).bind(
            |c: Cursor, value: (Word, LookupType)|
                Outcome::Done(c, (lod, seq![bits, value.0])),
        )
    }

    /// The operands for a level that follows from how fast the coordinate changes.
    pub open spec fn gradient_operands(
        self,
        s: Scope,
        x: Handle<Expression>,
        y: Handle<Expression>,
        depth: nat,
    ) -> Outcome<Cursor, (SampleLod, Seq<Word>)>
        decreases depth, 3nat, 0nat,
    {
        self.value_pair(s, x, y, depth).bind(
            |c: Cursor, ids: (Word, Word)|
                Outcome::Done(c, (SampleLod::Explicit, seq![4u32, ids.0, ids.1])),
        )
    }

    /// The values of two expressions.
    pub open spec fn value_pair(
        self,
        s: Scope,
        x: Handle<Expression>,
        y: Handle<Expression>,
        depth: nat,
    ) -> Outcome<Cursor, (Word, Word)>
        decreases depth, 2nat, 0nat,
    {
        self.value(s, x, depth).bind(
            |c: Cursor, x_value: (Word, LookupType)|
                c.value(s, y, depth).bind(
                    |c: Cursor, y_value: (Word, LookupType)|
                        Outcome::Done(c, (x_value.0, y_value.0)),
                ),
        )
    }

    /// The operands for a constant offset, if there is one.
    pub open spec fn offset_operands(self, s: Scope, offset: Option<Handle<Constant>>) -> Outcome<
        Cursor,
        Seq<Word>,
    > {
        match offset {
            Some(handle) => beside(self.writer.constant_id(s.module, handle), self.block).bind(
                |c: Cursor, id: Word| Outcome::Done(c, seq![8u32, id]),
            ),
            None => Outcome::Done(self, Seq::empty()),
        }
    }

    /// The value of an expression of the function that is being written, and its type.
    pub open spec fn expression(self, s: Scope, handle: Handle<Expression>) -> Outcome<
        Cursor,
        (Word, LookupType),
    > {
        self.value(s, handle, s.ir_function.expressions.count())
    }

    /// A pointer to the value of an expression of the function that is being written.
    pub open spec fn expression_pointer(self, s: Scope, handle: Handle<Expression>) -> Outcome<
        Cursor,
        (Word, LookupType, spirv::StorageClass),
    > {
        self.pointer(s, handle, s.ir_function.expressions.count())
    }
}

} // verus!

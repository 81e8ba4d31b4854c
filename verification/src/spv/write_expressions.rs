//! The methods of the writer that write expressions.

use crate::arena::Handle;
use crate::headers::{
    image_operands_bias, image_operands_const_offset, image_operands_grad, image_operands_lod,
};
use crate::ir::{
    BinaryOperator, Constant, ConstantInner, Expression, Function as IrFunction, GlobalVariable,
    LocalVariable, MathFunction, Module, SampleLevel, ScalarKind, ScalarValue, Type, TypeInner,
    UnaryOperator, VectorSize,
};
use crate::spv::error::Error;
use crate::spv::expressions::{Cursor, Scope};
use crate::spv::function::{Block, BlockView, Function, RawExpression};
use crate::spv::instruction::{Instruction, InstructionView};
use crate::spv::instructions::{
    instruction_access_chain, instruction_binary, instruction_composite_construct,
    instruction_composite_extract, instruction_ext_inst, instruction_function_call,
    instruction_image_sample, instruction_load, instruction_sampled_image, instruction_unary,
    instruction_vector_extract_dynamic, SampleLod,
};
use crate::spv::lookup::{LocalType, LookupType};
use crate::spv::model::{outcome, Outcome, WriterView};
use crate::spv::operators::{
    find_element_type, find_member_type, find_sample_type, get_dimension, needs_argument,
    operands_swap, result_on_right, select_binary_op, select_conversion_op, select_math_op,
    select_typed_math_op, select_unary_op, yields_truth, Dimension, MathOp,
};
use crate::spv::types::listed;
use crate::spv::words::Word;
use crate::spv::writer::Writer;
use spirv_headers as spirv;
use std::ops::Deref;
use vstd::prelude::*;

verus! {

/// Where a writer stands that appends to a block.
pub open spec fn cursor(writer: WriterView, block: BlockView) -> Cursor {
    Cursor { writer, block }
}

/// What the expressions of `ir_function` can refer to.
pub open spec fn scope(module: Module, ir_function: IrFunction, function: Function) -> Scope {
    Scope { module, ir_function, function: function@ }
}

/// How a step ended that returned an instruction.
pub open spec fn instructed<S>(state: S, result: Result<Instruction, Error>) -> Outcome<
    S,
    InstructionView,
> {
    match result {
        Ok(instruction) => Outcome::Done(state, instruction@),
        Err(error) => Outcome::Fail(state, error@),
    }
}

/// How a step ended that chose the level of detail of an image.
pub open spec fn leveled<S>(state: S, result: Result<(SampleLod, Vec<Word>), Error>) -> Outcome<
    S,
    (SampleLod, Seq<Word>),
> {
    match result {
        Ok(level) => Outcome::Done(state, (level.0, level.1@)),
        Err(error) => Outcome::Fail(state, error@),
    }
}

/// A list of three words.
fn three_words(first: Word, second: Word, third: Word) -> (words: Vec<Word>)
    ensures
        words@ == seq![first, second, third],
{
    let mut words = two_words(first, second);
    words.push(third);
    assert(words@ =~= seq![first, second, third]);
    words
}

/// A list of two words.
fn two_words(first: Word, second: Word) -> (words: Vec<Word>)
    ensures
        words@ == seq![first, second],
{
    let mut words: Vec<Word> = Vec::new();
    words.push(first);
    words.push(second);
    assert(words@ =~= seq![first, second]);
    words
}

/// An instruction with more operands.
fn with_operands(instruction: Instruction, operands: &Vec<Word>) -> (longer: Instruction)
    ensures
        longer@ == (InstructionView {
            operands: instruction@.operands + operands@,
            ..instruction@
        }),
{
    let mut longer = instruction;
    let ghost plain = longer@;
    let mut i: usize = 0;
    assert(plain.operands + operands@.take(0) =~= plain.operands);
    while i < operands.len()
        invariant
            i <= operands@.len(),
            longer@ == (InstructionView {
                operands: plain.operands + operands@.take(i as int),
                ..plain
            }),
        decreases operands@.len() - i,
    {
        longer.add_operand(operands[i]);
        i = i + 1;
        assert(longer@.operands =~= plain.operands + operands@.take(i as int));
    }
    assert(operands@.take(i as int) =~= operands@);
    longer
}

impl Writer {
    /// Appends the construction of a composite value, and returns its identifier.
    pub fn write_composite_construct(
        &mut self,
        base_type_id: Word,
        constituent_ids: &[Word],
        block: &mut Block,
    ) -> (id: Word)
        requires
            old(self)@.id_count < u32::MAX,
        ensures
            Outcome::Done(cursor(final(self)@, final(block)@), id) == cursor(
                old(self)@,
                old(block)@,
            ).composite_construct(base_type_id, constituent_ids@),
    {
        let id = self.generate_id();
        block.push(instruction_composite_construct(base_type_id, id, constituent_ids));
        id
    }

    fn value_within(
        &mut self,
        module: &Module,
        ir_function: &IrFunction,
        handle: Handle<Expression>,
        block: &mut Block,
        function: &Function,
        Ghost(depth): Ghost<nat>,
    ) -> (result: Result<(Word, LookupType), Error>)
        requires
            !(cursor(old(self)@, old(block)@).value(
                scope(*module, *ir_function, *function),
                handle,
                depth,
            ) is Stuck),
        ensures
            outcome(cursor(final(self)@, final(block)@), result) == cursor(
                old(self)@,
                old(block)@,
            ).value(scope(*module, *ir_function, *function), handle, depth),
        decreases depth, 1nat, 0nat,
    {
        let (raw, ty) = self.raw_within(
            module,
            ir_function,
            handle,
            block,
            function,
            Ghost(depth),
        )?;
        match raw {
            RawExpression::Value(id) => Ok((id, ty)),
            RawExpression::Pointer(id, _) => {
                let load_id = self.generate_id();
                let type_id = self.get_type_id(&module.types, ty)?;
                block.push(instruction_load(type_id, load_id, id));
                Ok((load_id, ty))
            },
        }
    }

    fn pointer_within(
        &mut self,
        module: &Module,
        ir_function: &IrFunction,
        handle: Handle<Expression>,
        block: &mut Block,
        function: &Function,
        Ghost(depth): Ghost<nat>,
    ) -> (result: Result<(Word, LookupType, spirv::StorageClass), Error>)
        requires
            !(cursor(old(self)@, old(block)@).pointer(
                scope(*module, *ir_function, *function),
                handle,
                depth,
            ) is Stuck),
        ensures
            outcome(cursor(final(self)@, final(block)@), result) == cursor(
                old(self)@,
                old(block)@,
            ).pointer(scope(*module, *ir_function, *function), handle, depth),
        decreases depth, 1nat, 0nat,
    {
        let (raw, ty) = self.raw_within(
            module,
            ir_function,
            handle,
            block,
            function,
            Ghost(depth),
        )?;
        match raw {
            RawExpression::Value(id) => {
                assert(false);
                Ok((id, ty, spirv::StorageClass::Function))
            },
            RawExpression::Pointer(id, class) => Ok((id, ty, class)),
        }
    }

    fn values_within(
        &mut self,
        module: &Module,
        ir_function: &IrFunction,
        handles: &Vec<Handle<Expression>>,
        block: &mut Block,
        function: &Function,
        Ghost(depth): Ghost<nat>,
    ) -> (result: Result<Vec<Word>, Error>)
        requires
            !(cursor(old(self)@, old(block)@).values(
                scope(*module, *ir_function, *function),
                handles@,
                0,
                Seq::empty(),
                depth,
            ) is Stuck),
        ensures
            listed(cursor(final(self)@, final(block)@), result) == cursor(
                old(self)@,
                old(block)@,
            ).values(
                scope(*module, *ir_function, *function),
                handles@,
                0,
                Seq::empty(),
                depth,
            ),
        decreases depth, 2nat, 0nat,
    {
        let mut ids: Vec<Word> = Vec::new();
        let mut i: usize = 0;
        let ghost s = scope(*module, *ir_function, *function);
        let ghost whole = cursor(self@, block@).values(s, handles@, 0, Seq::empty(), depth);
        assert(ids@ =~= Seq::empty());
        while i < handles.len()
            invariant
                i <= handles@.len(),
                s == scope(*module, *ir_function, *function),
                !(whole is Stuck),
                whole == cursor(old(self)@, old(block)@).values(
                    s,
                    handles@,
                    0,
                    Seq::empty(),
                    depth,
                ),
                whole == cursor(self@, block@).values(s, handles@, i as nat, ids@, depth),
            decreases handles@.len() - i,
        {
            let (id, _) = self.value_within(
                module,
                ir_function,
                handles[i],
                block,
                function,
                Ghost(depth),
            )?;
            ids.push(id);
            i = i + 1;
        }
        Ok(ids)
    }

    fn optional_value_within(
        &mut self,
        module: &Module,
        ir_function: &IrFunction,
        handle: Option<Handle<Expression>>,
        block: &mut Block,
        function: &Function,
        Ghost(depth): Ghost<nat>,
    ) -> (result: Result<Option<Word>, Error>)
        requires
            !(cursor(old(self)@, old(block)@).optional_value(
                scope(*module, *ir_function, *function),
                handle,
                depth,
            ) is Stuck),
        ensures
            outcome(cursor(final(self)@, final(block)@), result) == cursor(
                old(self)@,
                old(block)@,
            ).optional_value(scope(*module, *ir_function, *function), handle, depth),
        decreases depth, 2nat, 0nat,
    {
        match handle {
            Some(handle) => {
                let (id, _) = self.value_within(
                    module,
                    ir_function,
                    handle,
                    block,
                    function,
                    Ghost(depth),
                )?;
                Ok(Some(id))
            },
            None => Ok(None),
        }
    }

    fn raw_within(
        &mut self,
        module: &Module,
        ir_function: &IrFunction,
        handle: Handle<Expression>,
        block: &mut Block,
        function: &Function,
        Ghost(depth): Ghost<nat>,
    ) -> (result: Result<(RawExpression, LookupType), Error>)
        requires
            !(cursor(old(self)@, old(block)@).raw(
                scope(*module, *ir_function, *function),
                handle,
                depth,
            ) is Stuck),
        ensures
            outcome(cursor(final(self)@, final(block)@), result) == cursor(
                old(self)@,
                old(block)@,
            ).raw(scope(*module, *ir_function, *function), handle, depth),
        decreases depth, 0nat, 0nat,
    {
        let ghost d = (depth - 1) as nat;
        match ir_function.expressions.get(handle) {
            Expression::Access { base, index } => self.write_access(
                module,
                ir_function,
                *base,
                *index,
                block,
                function,
                Ghost(d),
            ),
            Expression::AccessIndex { base, index } => self.write_access_index(
                module,
                ir_function,
                *base,
                *index,
                block,
                function,
                Ghost(d),
            ),
            Expression::GlobalVariable(handle) => self.write_global_variable_reference(
                module,
                *handle,
            ),
            Expression::Constant(handle) => self.write_constant_reference(module, *handle),
            Expression::Compose { ty, components } => self.write_compose(
                module,
                ir_function,
                *ty,
                components,
                block,
                function,
                Ghost(d),
            ),
            Expression::Unary { op, expr } => self.write_unary(
                module,
                ir_function,
                *op,
                *expr,
                block,
                function,
                Ghost(d),
            ),
            Expression::Binary { op, left, right } => self.write_binary(
                module,
                ir_function,
                *op,
                *left,
                *right,
                block,
                function,
                Ghost(d),
            ),
            Expression::Math { fun, arg, arg1, arg2 } => self.write_math(
                module,
                ir_function,
                *fun,
                *arg,
                *arg1,
                *arg2,
                block,
                function,
                Ghost(d),
            ),
            Expression::LocalVariable(variable) => {
                let ty = ir_function.local_variables.get(*variable).ty;
                let id = function.variables[variable.index as usize].id;
                Ok(
                    (
                        RawExpression::Pointer(id, spirv::StorageClass::Function),
                        LookupType::Handle(ty),
                    ),
                )
            },
            Expression::FunctionArgument(index) => {
                let ty = ir_function.arguments[*index as usize].ty;
                match function.parameters[*index as usize].result_id() {
                    Some(id) => Ok((RawExpression::Value(id), LookupType::Handle(ty))),
                    None => {
                        assert(false);
                        Ok((RawExpression::Value(0), LookupType::Handle(ty)))
                    },
                }
            },
            Expression::Call { function: callee, arguments } => self.write_call(
                module,
                ir_function,
                *callee,
                arguments,
                block,
                function,
                Ghost(d),
            ),
            Expression::As { expr, kind, convert } => self.write_cast(
                module,
                ir_function,
                *expr,
                *kind,
                *convert,
                block,
                function,
                Ghost(d),
            ),
            Expression::ImageSample {
                image,
                sampler,
                coordinate,
                array_index,
                offset,
                level,
                depth_ref,
            } => self.write_image_sample(
                module,
                ir_function,
                *image,
                *sampler,
                *coordinate,
                *array_index,
                *offset,
                *level,
                *depth_ref,
                block,
                function,
                Ghost(d),
            ),
            _ => Err(Error::FeatureNotImplemented("expression")),
        }
    }

    fn write_access(
        &mut self,
        module: &Module,
        ir_function: &IrFunction,
        base: Handle<Expression>,
        index: Handle<Expression>,
        block: &mut Block,
        function: &Function,
        Ghost(depth): Ghost<nat>,
    ) -> (result: Result<(RawExpression, LookupType), Error>)
        requires
            !(cursor(old(self)@, old(block)@).access(
                scope(*module, *ir_function, *function),
                base,
                index,
                depth,
            ) is Stuck),
        ensures
            outcome(cursor(final(self)@, final(block)@), result) == cursor(
                old(self)@,
                old(block)@,
            ).access(scope(*module, *ir_function, *function), base, index, depth),
        decreases depth, 3nat, 0nat,
    {
        let id = self.generate_id();
        let (raw_base, base_ty) = self.raw_within(
            module,
            ir_function,
            base,
            block,
            function,
            Ghost(depth),
        )?;
        let base_inner = self.get_type_inner(&module.types, base_ty);
        let (index_id, _) = self.value_within(
            module,
            ir_function,
            index,
            block,
            function,
            Ghost(depth),
        )?;
        let ty = find_element_type(base_inner.deref())?;
        match raw_base {
            RawExpression::Value(base_id) => {
                if let TypeInner::Array { .. } = base_inner.deref() {
                    return Err(Error::FeatureNotImplemented("accessing index of a value array"));
                }
                let type_id = self.get_type_id(&module.types, ty)?;
                block.push(instruction_vector_extract_dynamic(type_id, id, base_id, index_id));
                Ok((RawExpression::Value(id), ty))
            },
            RawExpression::Pointer(base_id, class) => self.write_chain(
                module,
                ir_function,
                id,
                base_id,
                class,
                index_id,
                ty,
                block,
                function,
            ),
        }
    }

    /// A pointer to the part of type `ty` that the value `index_id` picks.
    fn write_chain(
        &mut self,
        module: &Module,
        ir_function: &IrFunction,
        id: Word,
        base_id: Word,
        class: spirv::StorageClass,
        index_id: Word,
        ty: LookupType,
        block: &mut Block,
        function: &Function,
    ) -> (result: Result<(RawExpression, LookupType), Error>)
        requires
            !(cursor(old(self)@, old(block)@).chain(
                scope(*module, *ir_function, *function),
                id,
                base_id,
                class,
                index_id,
                ty,
            ) is Stuck),
        ensures
            outcome(cursor(final(self)@, final(block)@), result) == cursor(
                old(self)@,
                old(block)@,
            ).chain(scope(*module, *ir_function, *function), id, base_id, class, index_id, ty),
    {
        proof {
            reveal(Cursor::chain);
        }
        let (pointer_type_id, pointer_ty) = self.create_pointer_type(ty, class, &module.types)?;
        let indices = [index_id];
        assert(indices@ =~= seq![index_id]);
        block.push(instruction_access_chain(pointer_type_id, id, base_id, &indices));
        Ok((RawExpression::Pointer(id, class), pointer_ty))
    }

    fn write_access_index(
        &mut self,
        module: &Module,
        ir_function: &IrFunction,
        base: Handle<Expression>,
        index: u32,
        block: &mut Block,
        function: &Function,
        Ghost(depth): Ghost<nat>,
    ) -> (result: Result<(RawExpression, LookupType), Error>)
        requires
            !(cursor(old(self)@, old(block)@).access_index(
                scope(*module, *ir_function, *function),
                base,
                index,
                depth,
            ) is Stuck),
        ensures
            outcome(cursor(final(self)@, final(block)@), result) == cursor(
                old(self)@,
                old(block)@,
            ).access_index(scope(*module, *ir_function, *function), base, index, depth),
        decreases depth, 3nat, 0nat,
    {
        let id = self.generate_id();
        let (raw_base, base_ty) = self.raw_within(
            module,
            ir_function,
            base,
            block,
            function,
            Ghost(depth),
        )?;
        let base_inner = self.get_type_inner(&module.types, base_ty);
        let ty = find_member_type(base_inner.deref(), index)?;
        let indices = [index];
        assert(indices@ =~= seq![index]);
        match raw_base {
            RawExpression::Value(base_id) => {
                let type_id = self.get_type_id(&module.types, ty)?;
                block.push(instruction_composite_extract(type_id, id, base_id, &indices));
                Ok((RawExpression::Value(id), ty))
            },
            RawExpression::Pointer(base_id, class) => {
                let const_type_id = self.get_type_id(
                    &module.types,
                    LookupType::Local(LocalType::Scalar { kind: ScalarKind::Sint, width: 4 }),
                )?;
                let const_id = self.create_constant(const_type_id, &indices);
                self.write_chain(
                    module,
                    ir_function,
                    id,
                    base_id,
                    class,
                    const_id,
                    ty,
                    block,
                    function,
                )
            },
        }
    }

    fn write_global_variable_reference(&mut self, module: &Module, handle: Handle<GlobalVariable>) -> (result:
        Result<(RawExpression, LookupType), Error>)
        requires
            module.global_variables.contains(handle),
            !(old(self)@.global_variable_id(*module, handle) is Stuck),
        ensures
            forall|block: BlockView, s: Scope|
                s.module == *module ==> outcome(cursor(final(self)@, block), result)
                    == #[trigger] cursor(old(self)@, block).global_variable(s, handle),
    {
        let ty = module.global_variables.get(handle).ty;
        let (id, class) = self.get_global_variable_id(module, handle)?;
        Ok((RawExpression::Pointer(id, class), LookupType::Handle(ty)))
    }

    fn write_constant_reference(&mut self, module: &Module, handle: Handle<Constant>) -> (result:
        Result<(RawExpression, LookupType), Error>)
        requires
            module.constants.contains(handle),
            !(old(self)@.constant_id(*module, handle) is Stuck),
        ensures
            forall|block: BlockView, s: Scope|
                s.module == *module ==> outcome(cursor(final(self)@, block), result)
                    == #[trigger] cursor(old(self)@, block).constant(s, handle),
    {
        let constant = module.constants.get(handle);
        let id = self.get_constant_id(handle, module)?;
        let ty = match &constant.inner {
            ConstantInner::Scalar { width, value } => LookupType::Local(
                LocalType::Scalar { kind: value.scalar_kind(), width: *width },
            ),
            ConstantInner::Composite { ty, .. } => LookupType::Handle(*ty),
        };
        Ok((RawExpression::Value(id), ty))
    }

    fn write_compose(
        &mut self,
        module: &Module,
        ir_function: &IrFunction,
        ty: Handle<Type>,
        components: &Vec<Handle<Expression>>,
        block: &mut Block,
        function: &Function,
        Ghost(depth): Ghost<nat>,
    ) -> (result: Result<(RawExpression, LookupType), Error>)
        requires
            !(cursor(old(self)@, old(block)@).compose(
                scope(*module, *ir_function, *function),
                ty,
                components@,
                depth,
            ) is Stuck),
        ensures
            outcome(cursor(final(self)@, final(block)@), result) == cursor(
                old(self)@,
                old(block)@,
            ).compose(scope(*module, *ir_function, *function), ty, components@, depth),
        decreases depth, 3nat, 0nat,
    {
        let base_type_id = self.get_type_id(&module.types, LookupType::Handle(ty))?;
        let constituent_ids = self.values_within(
            module,
            ir_function,
            components,
            block,
            function,
            Ghost(depth),
        )?;
        let id = self.write_composite_construct(base_type_id, constituent_ids.as_slice(), block);
        Ok((RawExpression::Value(id), LookupType::Handle(ty)))
    }

    fn write_unary(
        &mut self,
        module: &Module,
        ir_function: &IrFunction,
        op: UnaryOperator,
        expr: Handle<Expression>,
        block: &mut Block,
        function: &Function,
        Ghost(depth): Ghost<nat>,
    ) -> (result: Result<(RawExpression, LookupType), Error>)
        requires
            !(cursor(old(self)@, old(block)@).unary(
                scope(*module, *ir_function, *function),
                op,
                expr,
                depth,
            ) is Stuck),
        ensures
            outcome(cursor(final(self)@, final(block)@), result) == cursor(
                old(self)@,
                old(block)@,
            ).unary(scope(*module, *ir_function, *function), op, expr, depth),
        decreases depth, 3nat, 0nat,
    {
        let id = self.generate_id();
        let (expr_id, ty) = self.value_within(
            module,
            ir_function,
            expr,
            block,
            function,
            Ghost(depth),
        )?;
        let inner = self.get_type_inner(&module.types, ty);
        let type_id = self.get_type_id(&module.types, ty)?;
        let spirv_op = select_unary_op(op, inner.deref())?;
        block.push(instruction_unary(spirv_op, type_id, id, expr_id));
        Ok((RawExpression::Value(id), ty))
    }

    fn write_binary(
        &mut self,
        module: &Module,
        ir_function: &IrFunction,
        op: BinaryOperator,
        left: Handle<Expression>,
        right: Handle<Expression>,
        block: &mut Block,
        function: &Function,
        Ghost(depth): Ghost<nat>,
    ) -> (result: Result<(RawExpression, LookupType), Error>)
        requires
            !(cursor(old(self)@, old(block)@).binary(
                scope(*module, *ir_function, *function),
                op,
                left,
                right,
                depth,
            ) is Stuck),
        ensures
            outcome(cursor(final(self)@, final(block)@), result) == cursor(
                old(self)@,
                old(block)@,
            ).binary(scope(*module, *ir_function, *function), op, left, right, depth),
        decreases depth, 3nat, 0nat,
    {
        let id = self.generate_id();
        let (left_id, left_ty) = self.value_within(
            module,
            ir_function,
            left,
            block,
            function,
            Ghost(depth),
        )?;
        let (right_id, right_ty) = self.value_within(
            module,
            ir_function,
            right,
            block,
            function,
            Ghost(depth),
        )?;
        self.write_binary_values(
            module,
            ir_function,
            op,
            id,
            left_id,
            left_ty,
            right_id,
            right_ty,
            block,
            function,
        )
    }

    /// Applies a binary operator to two values.
    fn write_binary_values(
        &mut self,
        module: &Module,
        ir_function: &IrFunction,
        op: BinaryOperator,
        id: Word,
        left_id: Word,
        left_ty: LookupType,
        right_id: Word,
        right_ty: LookupType,
        block: &mut Block,
        function: &Function,
    ) -> (result: Result<(RawExpression, LookupType), Error>)
        requires
            !(cursor(old(self)@, old(block)@).apply_binary(
                scope(*module, *ir_function, *function),
                op,
                id,
                (left_id, left_ty),
                (right_id, right_ty),
            ) is Stuck),
        ensures
            outcome(cursor(final(self)@, final(block)@), result) == cursor(
                old(self)@,
                old(block)@,
            ).apply_binary(
                scope(*module, *ir_function, *function),
                op,
                id,
                (left_id, left_ty),
                (right_id, right_ty),
            ),
    {
        proof {
            reveal(Cursor::apply_binary);
        }
        let left_inner = self.get_type_inner(&module.types, left_ty);
        let right_inner = self.get_type_inner(&module.types, right_ty);
        let left_type_id = self.get_type_id(&module.types, left_ty)?;
        let right_type_id = self.get_type_id(&module.types, right_ty)?;
        let left_dimension = get_dimension(left_inner.deref());
        let right_dimension = get_dimension(right_inner.deref());
        let spirv_op = match select_binary_op(op, left_inner.deref(), right_inner.deref()) {
            Some(spirv_op) => spirv_op,
            None => {
                assert(false);
                spirv::Op::Nop
            },
        };
        // Whenever there is a vector on the right, the product is a vector.
        let result_side_left = !(op == BinaryOperator::Multiply && right_dimension
            == Dimension::Vector);
        let preserve_order = !(op == BinaryOperator::Multiply && left_dimension
            == Dimension::Scalar && right_dimension == Dimension::Vector);
        assert(result_side_left == !result_on_right(op, right_inner.value()));
        assert(preserve_order == !operands_swap(op, left_inner.value(), right_inner.value()));
        let (type_id, ty): (Word, LookupType) = if yields_truth(op) {
            let truth = LookupType::Local(LocalType::Scalar { kind: ScalarKind::Bool, width: 1 });
            (self.get_type_id(&module.types, truth)?, truth)
        } else if result_side_left {
            (left_type_id, left_ty)
        } else {
            (right_type_id, right_ty)
        };
        if preserve_order {
            block.push(instruction_binary(spirv_op, type_id, id, left_id, right_id));
        } else {
            block.push(instruction_binary(spirv_op, type_id, id, right_id, left_id));
        }
        Ok((RawExpression::Value(id), ty))
    }

    fn write_math(
        &mut self,
        module: &Module,
        ir_function: &IrFunction,
        fun: MathFunction,
        arg: Handle<Expression>,
        arg1: Option<Handle<Expression>>,
        arg2: Option<Handle<Expression>>,
        block: &mut Block,
        function: &Function,
        Ghost(depth): Ghost<nat>,
    ) -> (result: Result<(RawExpression, LookupType), Error>)
        requires
            !(cursor(old(self)@, old(block)@).math(
                scope(*module, *ir_function, *function),
                fun,
                arg,
                arg1,
                arg2,
                depth,
            ) is Stuck),
        ensures
            outcome(cursor(final(self)@, final(block)@), result) == cursor(
                old(self)@,
                old(block)@,
            ).math(scope(*module, *ir_function, *function), fun, arg, arg1, arg2, depth),
        decreases depth, 3nat, 0nat,
    {
        let (arg0_id, arg0_ty) = self.value_within(
            module,
            ir_function,
            arg,
            block,
            function,
            Ghost(depth),
        )?;
        let arg0_type_id = self.get_type_id(&module.types, arg0_ty)?;
        let arg1_id = self.optional_value_within(
            module,
            ir_function,
            arg1,
            block,
            function,
            Ghost(depth),
        )?;
        let arg2_id = self.optional_value_within(
            module,
            ir_function,
            arg2,
            block,
            function,
            Ghost(depth),
        )?;
        self.write_math_values(
            module,
            ir_function,
            fun,
            arg0_id,
            arg0_ty,
            arg0_type_id,
            arg1_id,
            arg2_id,
            block,
            function,
        )
    }

    /// Applies a mathematical function to values.
    fn write_math_values(
        &mut self,
        module: &Module,
        ir_function: &IrFunction,
        fun: MathFunction,
        arg0_id: Word,
        arg0_ty: LookupType,
        arg0_type_id: Word,
        arg1_id: Option<Word>,
        arg2_id: Option<Word>,
        block: &mut Block,
        function: &Function,
    ) -> (result: Result<(RawExpression, LookupType), Error>)
        requires
            !(cursor(old(self)@, old(block)@).apply_math(
                scope(*module, *ir_function, *function),
                fun,
                (arg0_id, arg0_ty),
                arg0_type_id,
                arg1_id,
                arg2_id,
            ) is Stuck),
        ensures
            outcome(cursor(final(self)@, final(block)@), result) == cursor(
                old(self)@,
                old(block)@,
            ).apply_math(
                scope(*module, *ir_function, *function),
                fun,
                (arg0_id, arg0_ty),
                arg0_type_id,
                arg1_id,
                arg2_id,
            ),
    {
        proof {
            reveal(Cursor::apply_math);
        }
        let b: Word = match arg1_id {
            Some(id) => id,
            None => 0,
        };
        let c: Word = match arg2_id {
            Some(id) => id,
            None => 0,
        };
        let id = self.generate_id();
        let op = if needs_argument(fun) {
            let inner = self.get_type_inner(&module.types, arg0_ty);
            select_typed_math_op(fun, inner.deref())
        } else {
            select_math_op(fun)?
        };
        let set_id = self.gl450_ext_inst_id();
        let one = [arg0_id];
        let two = [arg0_id, b];
        let three = [arg0_id, b, c];
        assert(one@ =~= seq![arg0_id]);
        assert(two@ =~= seq![arg0_id, b]);
        assert(three@ =~= seq![arg0_id, b, c]);
        let (instruction, ty): (Instruction, LookupType) = match op {
            MathOp::Single(op) => (
                instruction_ext_inst(set_id, op, arg0_type_id, id, &one),
                arg0_ty,
            ),
            MathOp::Double(op) => (
                instruction_ext_inst(set_id, op, arg0_type_id, id, &two),
                arg0_ty,
            ),
            MathOp::Triple(op) => (
                instruction_ext_inst(set_id, op, arg0_type_id, id, &three),
                arg0_ty,
            ),
            MathOp::Copy => (
                instruction_unary(spirv::Op::CopyObject, arg0_type_id, id, arg0_id),
                arg0_ty,
            ),
            MathOp::Dot(ty) => {
                let type_id = self.get_type_id(&module.types, ty)?;
                (instruction_binary(spirv::Op::Dot, type_id, id, arg0_id, b), ty)
            },
            MathOp::Length(ty) => {
                let type_id = self.get_type_id(&module.types, ty)?;
                (instruction_ext_inst(set_id, spirv::GLOp::Length, type_id, id, &one), ty)
            },
            MathOp::Distance(ty) => {
                let type_id = self.get_type_id(&module.types, ty)?;
                (instruction_ext_inst(set_id, spirv::GLOp::Distance, type_id, id, &two), ty)
            },
            MathOp::Transpose(ty) => {
                let type_id = self.get_type_id(&module.types, ty)?;
                (instruction_unary(spirv::Op::Transpose, type_id, id, arg0_id), ty)
            },
        };
        block.push(instruction);
        Ok((RawExpression::Value(id), ty))
    }

    fn write_call(
        &mut self,
        module: &Module,
        ir_function: &IrFunction,
        callee: Handle<IrFunction>,
        arguments: &Vec<Handle<Expression>>,
        block: &mut Block,
        function: &Function,
        Ghost(depth): Ghost<nat>,
    ) -> (result: Result<(RawExpression, LookupType), Error>)
        requires
            !(cursor(old(self)@, old(block)@).call(
                scope(*module, *ir_function, *function),
                callee,
                arguments@,
                depth,
            ) is Stuck),
        ensures
            outcome(cursor(final(self)@, final(block)@), result) == cursor(
                old(self)@,
                old(block)@,
            ).call(scope(*module, *ir_function, *function), callee, arguments@, depth),
        decreases depth, 3nat, 0nat,
    {
        let return_type = module.functions.get(callee).return_type;
        let id = self.generate_id();
        let argument_ids = self.values_within(
            module,
            ir_function,
            arguments,
            block,
            function,
            Ghost(depth),
        )?;
        let type_id = self.get_function_return_type(return_type, &module.types)?;
        let callee_id: Word = match self.find_function(callee) {
            Some(callee_id) => callee_id,
            None => {
                assert(false);
                0
            },
        };
        block.push(instruction_function_call(type_id, id, callee_id, argument_ids.as_slice()));
        let ty = match return_type {
            Some(handle) => LookupType::Handle(handle),
            None => LookupType::Local(LocalType::Void),
        };
        Ok((RawExpression::Value(id), ty))
    }

    fn write_cast(
        &mut self,
        module: &Module,
        ir_function: &IrFunction,
        expr: Handle<Expression>,
        kind: ScalarKind,
        convert: bool,
        block: &mut Block,
        function: &Function,
        Ghost(depth): Ghost<nat>,
    ) -> (result: Result<(RawExpression, LookupType), Error>)
        requires
            !(cursor(old(self)@, old(block)@).cast(
                scope(*module, *ir_function, *function),
                expr,
                kind,
                convert,
                depth,
            ) is Stuck),
        ensures
            outcome(cursor(final(self)@, final(block)@), result) == cursor(
                old(self)@,
                old(block)@,
            ).cast(scope(*module, *ir_function, *function), expr, kind, convert, depth),
        decreases depth, 3nat, 0nat,
    {
        if !convert {
            return Err(Error::FeatureNotImplemented("bitcast"));
        }
        let (expr_id, expr_ty) = self.value_within(
            module,
            ir_function,
            expr,
            block,
            function,
            Ghost(depth),
        )?;
        let inner = self.get_type_inner(&module.types, expr_ty);
        let (from, local): (ScalarKind, LocalType) = match inner.deref() {
            TypeInner::Scalar { kind: from, width } => (
                *from,
                LocalType::Scalar { kind, width: *width },
            ),
            TypeInner::Vector { size, kind: from, width } => (
                *from,
                LocalType::Vector { size: *size, kind, width: *width },
            ),
            _ => {
                assert(false);
                (kind, LocalType::Void)
            },
        };
        let ty = LookupType::Local(local);
        match select_conversion_op(from, kind) {
            // It is either an identity cast, or one between integers: no instruction is needed.
            None => Ok((RawExpression::Value(expr_id), ty)),
            Some(op) => {
                let id = self.generate_id();
                let type_id = self.get_type_id(&module.types, ty)?;
                block.push(instruction_unary(op, type_id, id, expr_id));
                Ok((RawExpression::Value(id), ty))
            },
        }
    }

    fn write_image_sample(
        &mut self,
        module: &Module,
        ir_function: &IrFunction,
        image: Handle<Expression>,
        sampler: Handle<Expression>,
        coordinate: Handle<Expression>,
        array_index: Option<Handle<Expression>>,
        offset: Option<Handle<Constant>>,
        level: SampleLevel,
        depth_ref: Option<Handle<Expression>>,
        block: &mut Block,
        function: &Function,
        Ghost(depth): Ghost<nat>,
    ) -> (result: Result<(RawExpression, LookupType), Error>)
        requires
            !(cursor(old(self)@, old(block)@).image_sample(
                scope(*module, *ir_function, *function),
                image,
                sampler,
                coordinate,
                array_index,
                offset,
                level,
                depth_ref,
                depth,
            ) is Stuck),
        ensures
            outcome(cursor(final(self)@, final(block)@), result) == cursor(
                old(self)@,
                old(block)@,
            ).image_sample(
                scope(*module, *ir_function, *function),
                image,
                sampler,
                coordinate,
                array_index,
                offset,
                level,
                depth_ref,
                depth,
            ),
        decreases depth, 7nat, 0nat,
    {
        let (image_id, image_ty) = self.value_within(
            module,
            ir_function,
            image,
            block,
            function,
            Ghost(depth),
        )?;
        let image_type = match image_ty {
            LookupType::Handle(handle) => handle,
            LookupType::Local(_) => {
                assert(false);
                Handle::new(0)
            },
        };
        let sampled_image_type_id = self.get_type_id(
            &module.types,
            LookupType::Local(LocalType::SampledImage { image_type }),
        )?;
        let (sampler_id, _) = self.value_within(
            module,
            ir_function,
            sampler,
            block,
            function,
            Ghost(depth),
        )?;
        let coordinate_id = self.write_image_coordinate(
            module,
            ir_function,
            coordinate,
            array_index,
            block,
            function,
            Ghost(depth),
        )?;
        self.write_sample_at(
            module,
            ir_function,
            image_id,
            image_type,
            sampled_image_type_id,
            sampler_id,
            coordinate_id,
            offset,
            level,
            depth_ref,
            block,
            function,
            Ghost(depth),
        )
    }

    fn write_image_coordinate(
        &mut self,
        module: &Module,
        ir_function: &IrFunction,
        coordinate: Handle<Expression>,
        array_index: Option<Handle<Expression>>,
        block: &mut Block,
        function: &Function,
        Ghost(depth): Ghost<nat>,
    ) -> (result: Result<Word, Error>)
        requires
            !(cursor(old(self)@, old(block)@).image_coordinate(
                scope(*module, *ir_function, *function),
                coordinate,
                array_index,
                depth,
            ) is Stuck),
        ensures
            outcome(cursor(final(self)@, final(block)@), result) == cursor(
                old(self)@,
                old(block)@,
            ).image_coordinate(
                scope(*module, *ir_function, *function),
                coordinate,
                array_index,
                depth,
            ),
        decreases depth, 5nat, 0nat,
    {
        let (coordinate_id, coordinate_ty) = self.value_within(
            module,
            ir_function,
            coordinate,
            block,
            function,
            Ghost(depth),
        )?;
        match array_index {
            None => Ok(coordinate_id),
            Some(array_index) => {
                let scalar_type_id = self.get_type_id(
                    &module.types,
                    LookupType::Local(LocalType::Scalar { kind: ScalarKind::Float, width: 4 }),
                )?;
                let ids = self.write_coordinate_components(
                    module,
                    ir_function,
                    coordinate_id,
                    coordinate_ty,
                    scalar_type_id,
                    block,
                    function,
                );
                self.write_layered_coordinate(
                    module,
                    ir_function,
                    ids,
                    scalar_type_id,
                    array_index,
                    block,
                    function,
                    Ghost(depth),
                )
            },
        }
    }

    /// The components of a coordinate that can be extended by one.
    fn write_coordinate_components(
        &mut self,
        module: &Module,
        ir_function: &IrFunction,
        coordinate_id: Word,
        coordinate_ty: LookupType,
        scalar_type_id: Word,
        block: &mut Block,
        function: &Function,
    ) -> (ids: Vec<Word>)
        requires
            !(cursor(old(self)@, old(block)@).coordinate_components(
                scope(*module, *ir_function, *function),
                coordinate_id,
                coordinate_ty,
                scalar_type_id,
            ) is Stuck),
        ensures
            Outcome::Done(cursor(final(self)@, final(block)@), ids@) == cursor(
                old(self)@,
                old(block)@,
            ).coordinate_components(
                scope(*module, *ir_function, *function),
                coordinate_id,
                coordinate_ty,
                scalar_type_id,
            ),
    {
        proof {
            reveal(Cursor::coordinate_components);
        }
        let inner = self.get_type_inner(&module.types, coordinate_ty);
        let mut ids: Vec<Word> = Vec::new();
        match inner.deref() {
            TypeInner::Vector { size, .. } => {
                let n: u32 = size.count();
                let mut i: u32 = 0;
                let ghost whole = cursor(self@, block@).components(
                    coordinate_id,
                    scalar_type_id,
                    0,
                    n as nat,
                    Seq::empty(),
                );
                assert(ids@ =~= Seq::empty());
                while i < n
                    invariant
                        i <= n,
                        !(whole is Stuck),
                        whole == cursor(self@, block@).components(
                            coordinate_id,
                            scalar_type_id,
                            i as nat,
                            n as nat,
                            ids@,
                        ),
                    decreases n - i,
                {
                    let id = self.generate_id();
                    let indices = [i];
                    assert(indices@ =~= seq![i]);
                    block.push(
                        instruction_composite_extract(
                            scalar_type_id,
                            id,
                            coordinate_id,
                            &indices,
                        ),
                    );
                    ids.push(id);
                    i = i + 1;
                }
            },
            _ => {
                ids.push(coordinate_id);
                assert(ids@ =~= seq![coordinate_id]);
            },
        }
        ids
    }

    /// The coordinate with components `ids`, extended by the index into an array of images.
    fn write_layered_coordinate(
        &mut self,
        module: &Module,
        ir_function: &IrFunction,
        ids: Vec<Word>,
        scalar_type_id: Word,
        array_index: Handle<Expression>,
        block: &mut Block,
        function: &Function,
        Ghost(depth): Ghost<nat>,
    ) -> (result: Result<Word, Error>)
        requires
            !(cursor(old(self)@, old(block)@).layered_coordinate(
                scope(*module, *ir_function, *function),
                ids@,
                scalar_type_id,
                array_index,
                depth,
            ) is Stuck),
        ensures
            outcome(cursor(final(self)@, final(block)@), result) == cursor(
                old(self)@,
                old(block)@,
            ).layered_coordinate(
                scope(*module, *ir_function, *function),
                ids@,
                scalar_type_id,
                array_index,
                depth,
            ),
        decreases depth, 4nat, 0nat,
    {
        let size = if ids.len() == 1 {
            VectorSize::Bi
        } else if ids.len() == 2 {
            VectorSize::Tri
        } else {
            VectorSize::Quad
        };
        let layer_id = self.generate_id();
        let mut ids = ids;
        ids.push(layer_id);
        let (index_id, _) = self.value_within(
            module,
            ir_function,
            array_index,
            block,
            function,
            Ghost(depth),
        )?;
        block.push(
            instruction_unary(spirv::Op::ConvertUToF, scalar_type_id, layer_id, index_id),
        );
        let type_id = self.get_type_id(
            &module.types,
            LookupType::Local(LocalType::Vector { size, kind: ScalarKind::Float, width: 4 }),
        )?;
        Ok(self.write_composite_construct(type_id, ids.as_slice(), block))
    }

    fn write_sample_at(
        &mut self,
        module: &Module,
        ir_function: &IrFunction,
        image_id: Word,
        image_type: Handle<Type>,
        sampled_image_type_id: Word,
        sampler_id: Word,
        coordinate_id: Word,
        offset: Option<Handle<Constant>>,
        level: SampleLevel,
        depth_ref: Option<Handle<Expression>>,
        block: &mut Block,
        function: &Function,
        Ghost(depth): Ghost<nat>,
    ) -> (result: Result<(RawExpression, LookupType), Error>)
        requires
            !(cursor(old(self)@, old(block)@).sample_at(
                scope(*module, *ir_function, *function),
                image_id,
                image_type,
                sampled_image_type_id,
                sampler_id,
                coordinate_id,
                offset,
                level,
                depth_ref,
                depth,
            ) is Stuck),
        ensures
            outcome(cursor(final(self)@, final(block)@), result) == cursor(
                old(self)@,
                old(block)@,
            ).sample_at(
                scope(*module, *ir_function, *function),
                image_id,
                image_type,
                sampled_image_type_id,
                sampler_id,
                coordinate_id,
                offset,
                level,
                depth_ref,
                depth,
            ),
        decreases depth, 6nat, 0nat,
    {
        let ty = match find_sample_type(&module.types.get(image_type).inner) {
            Some(ty) => ty,
            None => {
                assert(false);
                LookupType::Local(LocalType::Void)
            },
        };
        let sampled_image_id = self.generate_id();
        block.push(
            instruction_sampled_image(
                sampled_image_type_id,
                sampled_image_id,
                image_id,
                sampler_id,
            ),
        );
        let id = self.generate_id();
        let type_id = self.get_type_id(&module.types, ty)?;
        let instruction = self.write_sample_instruction(
            module,
            ir_function,
            type_id,
            id,
            sampled_image_id,
            coordinate_id,
            offset,
            level,
            depth_ref,
            block,
            function,
            Ghost(depth),
        )?;
        block.push(instruction);
        Ok((RawExpression::Value(id), ty))
    }

    fn write_sample_instruction(
        &mut self,
        module: &Module,
        ir_function: &IrFunction,
        type_id: Word,
        id: Word,
        sampled_image_id: Word,
        coordinate_id: Word,
        offset: Option<Handle<Constant>>,
        level: SampleLevel,
        depth_ref: Option<Handle<Expression>>,
        block: &mut Block,
        function: &Function,
        Ghost(depth): Ghost<nat>,
    ) -> (result: Result<Instruction, Error>)
        requires
            !(cursor(old(self)@, old(block)@).sample_instruction(
                scope(*module, *ir_function, *function),
                type_id,
                id,
                sampled_image_id,
                coordinate_id,
                offset,
                level,
                depth_ref,
                depth,
            ) is Stuck),
        ensures
            instructed(cursor(final(self)@, final(block)@), result) == cursor(
                old(self)@,
                old(block)@,
            ).sample_instruction(
                scope(*module, *ir_function, *function),
                type_id,
                id,
                sampled_image_id,
                coordinate_id,
                offset,
                level,
                depth_ref,
                depth,
            ),
        decreases depth, 5nat, 0nat,
    {
        let depth_id = self.optional_value_within(
            module,
            ir_function,
            depth_ref,
            block,
            function,
            Ghost(depth),
        )?;
        let (lod, level_operands) = self.write_level(
            module,
            ir_function,
            level,
            block,
            function,
            Ghost(depth),
        )?;
        let offset_operands = self.write_offset(module, ir_function, offset, block, function)?;
        let instruction = instruction_image_sample(
            type_id,
            id,
            lod,
            sampled_image_id,
            coordinate_id,
            depth_id,
        );
        let leveled = with_operands(instruction, &level_operands);
        Ok(with_operands(leveled, &offset_operands))
    }

    /// The operands for a constant offset, if there is one.
    fn write_offset(
        &mut self,
        module: &Module,
        ir_function: &IrFunction,
        offset: Option<Handle<Constant>>,
        block: &mut Block,
        function: &Function,
    ) -> (result: Result<Vec<Word>, Error>)
        requires
            !(cursor(old(self)@, old(block)@).offset_operands(
                scope(*module, *ir_function, *function),
                offset,
            ) is Stuck),
        ensures
            listed(cursor(final(self)@, final(block)@), result) == cursor(
                old(self)@,
                old(block)@,
            ).offset_operands(scope(*module, *ir_function, *function), offset),
    {
        match offset {
            Some(handle) => {
                let offset_id = self.get_constant_id(handle, module)?;
                Ok(two_words(image_operands_const_offset(), offset_id))
            },
            None => Ok(Vec::new()),
        }
    }

    /// Declares the number zero.
    fn write_float_zero(
        &mut self,
        module: &Module,
        ir_function: &IrFunction,
        block: &mut Block,
        function: &Function,
    ) -> (result: Result<Word, Error>)
        requires
            !(cursor(old(self)@, old(block)@).float_zero(
                scope(*module, *ir_function, *function),
            ) is Stuck),
        ensures
            outcome(cursor(final(self)@, final(block)@), result) == cursor(
                old(self)@,
                old(block)@,
            ).float_zero(scope(*module, *ir_function, *function)),
    {
        proof {
            reveal(Cursor::float_zero);
        }
        let id = self.generate_id();
        let zero = ConstantInner::Scalar {
            width: 4,
            value: ScalarValue::Float { single: 0, double: 0 },
        };
        self.write_constant_type(id, &zero, module)?;
        Ok(id)
    }

    fn write_level(
        &mut self,
        module: &Module,
        ir_function: &IrFunction,
        level: SampleLevel,
        block: &mut Block,
        function: &Function,
        Ghost(depth): Ghost<nat>,
    ) -> (result: Result<(SampleLod, Vec<Word>), Error>)
        requires
            !(cursor(old(self)@, old(block)@).level_operands(
                scope(*module, *ir_function, *function),
                level,
                depth,
            ) is Stuck),
        ensures
            leveled(cursor(final(self)@, final(block)@), result) == cursor(
                old(self)@,
                old(block)@,
            ).level_operands(scope(*module, *ir_function, *function), level, depth),
        decreases depth, 4nat, 0nat,
    {
        match level {
            SampleLevel::Zero => self.write_zero_operands(module, ir_function, block, function),
            SampleLevel::Auto => Ok((SampleLod::Implicit, Vec::new())),
            SampleLevel::Exact(lod) => self.write_lod_operands(
                module,
                ir_function,
                SampleLod::Explicit,
                image_operands_lod(),
                lod,
                block,
                function,
                Ghost(depth),
            ),
            SampleLevel::Bias(bias) => self.write_lod_operands(
                module,
                ir_function,
                SampleLod::Implicit,
                image_operands_bias(),
                bias,
                block,
                function,
                Ghost(depth),
            ),
            SampleLevel::Gradient { x, y } => self.write_gradient_operands(
                module,
                ir_function,
                x,
                y,
                block,
                function,
                Ghost(depth),
            ),
        }
    }

    fn write_zero_operands(
        &mut self,
        module: &Module,
        ir_function: &IrFunction,
        block: &mut Block,
        function: &Function,
    ) -> (result: Result<(SampleLod, Vec<Word>), Error>)
        requires
            !(cursor(old(self)@, old(block)@).zero_operands(
                scope(*module, *ir_function, *function),
            ) is Stuck),
        ensures
            leveled(cursor(final(self)@, final(block)@), result) == cursor(
                old(self)@,
                old(block)@,
            ).zero_operands(scope(*module, *ir_function, *function)),
    {
        let zero_id = self.write_float_zero(module, ir_function, block, function)?;
        Ok((SampleLod::Explicit, two_words(image_operands_lod(), zero_id)))
    }

    fn write_lod_operands(
        &mut self,
        module: &Module,
        ir_function: &IrFunction,
        lod: SampleLod,
        bits: Word,
        handle: Handle<Expression>,
        block: &mut Block,
        function: &Function,
        Ghost(depth): Ghost<nat>,
    ) -> (result: Result<(SampleLod, Vec<Word>), Error>)
        requires
            !(cursor(old(self)@, old(block)@).lod_operands(
                scope(*module, *ir_function, *function),
                lod,
                bits,
                handle,
                depth,
            ) is Stuck),
        ensures
            leveled(cursor(final(self)@, final(block)@), result) == cursor(
                old(self)@,
                old(block)@,
            ).lod_operands(scope(*module, *ir_function, *function), lod, bits, handle, depth),
        decreases depth, 2nat, 0nat,
    {
        let (id, _) = self.value_within(
            module,
            ir_function,
            handle,
            block,
            function,
            Ghost(depth),
        )?;
        Ok((lod, two_words(bits, id)))
    }

    fn write_gradient_operands(
        &mut self,
        module: &Module,
        ir_function: &IrFunction,
        x: Handle<Expression>,
        y: Handle<Expression>,
        block: &mut Block,
        function: &Function,
        Ghost(depth): Ghost<nat>,
    ) -> (result: Result<(SampleLod, Vec<Word>), Error>)
        requires
            !(cursor(old(self)@, old(block)@).gradient_operands(
                scope(*module, *ir_function, *function),
                x,
                y,
                depth,
            ) is Stuck),
        ensures
            leveled(cursor(final(self)@, final(block)@), result) == cursor(
                old(self)@,
                old(block)@,
            ).gradient_operands(scope(*module, *ir_function, *function), x, y, depth),
        decreases depth, 3nat, 0nat,
    {
        let (x_id, y_id) = self.write_value_pair(
            module,
            ir_function,
            x,
            y,
            block,
            function,
            Ghost(depth),
        )?;
        Ok((SampleLod::Explicit, three_words(image_operands_grad(), x_id, y_id)))
    }

    /// The values of two expressions.
    fn write_value_pair(
        &mut self,
        module: &Module,
        ir_function: &IrFunction,
        x: Handle<Expression>,
        y: Handle<Expression>,
        block: &mut Block,
        function: &Function,
        Ghost(depth): Ghost<nat>,
    ) -> (result: Result<(Word, Word), Error>)
        requires
            !(cursor(old(self)@, old(block)@).value_pair(
                scope(*module, *ir_function, *function),
                x,
                y,
                depth,
            ) is Stuck),
        ensures
            outcome(cursor(final(self)@, final(block)@), result) == cursor(
                old(self)@,
                old(block)@,
            ).value_pair(scope(*module, *ir_function, *function), x, y, depth),
        decreases depth, 2nat, 0nat,
    {
        let (x_id, _) = self.value_within(
            module,
            ir_function,
            x,
            block,
            function,
            Ghost(depth),
        )?;
        let (y_id, _) = self.value_within(
            module,
            ir_function,
            y,
            block,
            function,
            Ghost(depth),
        )?;
        Ok((x_id, y_id))
    }

    /// Writes an expression, and returns its value and type.
    pub fn write_expression(
        &mut self,
        module: &Module,
        ir_function: &IrFunction,
        handle: Handle<Expression>,
        block: &mut Block,
        function: &Function,
    ) -> (result: Result<(Word, LookupType), Error>)
        requires
            !(cursor(old(self)@, old(block)@).expression(
                scope(*module, *ir_function, *function),
                handle,
            ) is Stuck),
        ensures
            outcome(cursor(final(self)@, final(block)@), result) == cursor(
                old(self)@,
                old(block)@,
            ).expression(scope(*module, *ir_function, *function), handle),
    {
        self.value_within(
            module,
            ir_function,
            handle,
            block,
            function,
            Ghost(ir_function.expressions.count()),
        )
    }

    /// Writes an expression, and returns a pointer to its value, the type of the value, and
    /// where it is stored.
    pub fn write_expression_pointer(
        &mut self,
        module: &Module,
        ir_function: &IrFunction,
        handle: Handle<Expression>,
        block: &mut Block,
        function: &Function,
    ) -> (result: Result<(Word, LookupType, spirv::StorageClass), Error>)
        requires
            !(cursor(old(self)@, old(block)@).expression_pointer(
                scope(*module, *ir_function, *function),
                handle,
            ) is Stuck),
        ensures
            outcome(cursor(final(self)@, final(block)@), result) == cursor(
                old(self)@,
                old(block)@,
            ).expression_pointer(scope(*module, *ir_function, *function), handle),
    {
        self.pointer_within(
            module,
            ir_function,
            handle,
            block,
            function,
            Ghost(ir_function.expressions.count()),
        )
    }

    /// Writes an expression, as a value or as a pointer to it.
    pub fn write_expression_raw(
        &mut self,
        module: &Module,
        ir_function: &IrFunction,
        handle: Handle<Expression>,
        block: &mut Block,
        function: &Function,
    ) -> (result: Result<(RawExpression, LookupType), Error>)
        requires
            !(cursor(old(self)@, old(block)@).raw(
                scope(*module, *ir_function, *function),
                handle,
                ir_function.expressions.count(),
            ) is Stuck),
        ensures
            outcome(cursor(final(self)@, final(block)@), result) == cursor(
                old(self)@,
                old(block)@,
            ).raw(
                scope(*module, *ir_function, *function),
                handle,
                ir_function.expressions.count(),
            ),
    {
        self.raw_within(
            module,
            ir_function,
            handle,
            block,
            function,
            Ghost(ir_function.expressions.count()),
        )
    }
}

} // verus!

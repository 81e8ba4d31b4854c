//! What is not refused.

use crate::arena::{Arena, Handle};
use crate::ir::{
    BinaryOperator, Expression, Function as IrFunction, MathFunction, Module, ScalarKind,
    Statement, Type, TypeInner, UnaryOperator,
};
use crate::spv::expressions::{Cursor, Scope};
use crate::spv::function::{BlockView, LoopContext, RawExpression};
use crate::spv::instructions::op_branch;
use crate::spv::lookup::{LocalType, LookupType};
use crate::spv::model::{Outcome, WriterView};
use crate::spv::operation_laws::is_function_type;
use crate::spv::operator_laws::{
    has_kind, is_computable, is_defined, is_numeric, law_known_functions_are_computed,
    law_operators_are_computed, law_unary_operators_are_computed,
};
use crate::spv::statements::Draft;
use crate::spv::types::type_inner;
use crate::spv::words::Word;
use vstd::prelude::*;

verus! {

/// Whether statements are among those that can be written, at any depth.
pub open spec fn is_supported(list: Seq<Statement>) -> bool
    decreases list, 0nat,
{
    list.len() == 0 || (is_supported_statement(list[0]) && is_supported(
        list.subrange(1, list.len() as int),
    ))
}

/// Whether a statement is among those that can be written, at any depth.
pub open spec fn is_supported_statement(statement: Statement) -> bool
    decreases statement, 1nat,
{
    match statement {
        Statement::Block(list) => is_supported(list@),
        Statement::If { accept, reject, .. } => is_supported(accept@) && is_supported(reject@),
        Statement::Loop { body, continuing } => is_supported(body@) && is_supported(continuing@),
        Statement::Switch { .. } | Statement::Kill => false,
        _ => true,
    }
}

/// Whether no expression of a function is refused.
pub open spec fn accepts_expressions(module: Module, ir_function: IrFunction) -> bool {
    &&& forall|d: Draft, block: BlockView, handle: Handle<Expression>|
        !(#[trigger] d.expression(module, ir_function, block, handle) is Fail)
    &&& forall|d: Draft, block: BlockView, handle: Handle<Expression>|
        !(#[trigger] d.expression_pointer(module, ir_function, block, handle) is Fail)
}

/// Statements that can be written are not refused, unless one of their expressions is.
pub proof fn law_supported_statements_are_written(
    d: Draft,
    module: Module,
    ir_function: IrFunction,
    label_id: Word,
    list: Seq<Statement>,
    exit_id: Option<Word>,
    context: LoopContext,
)
    requires
        is_supported(list),
        accepts_expressions(module, ir_function),
    ensures
        !(d.block(module, ir_function, label_id, list, exit_id, context) is Fail),
    decreases list, 1nat,
{
    lemma_statements_written(
        d,
        module,
        ir_function,
        BlockView::start(label_id),
        list,
        context,
    );
}

proof fn lemma_statements_written(
    d: Draft,
    module: Module,
    ir_function: IrFunction,
    block: BlockView,
    list: Seq<Statement>,
    context: LoopContext,
)
    requires
        is_supported(list),
        accepts_expressions(module, ir_function),
    ensures
        !(d.statements(module, ir_function, block, list, context) is Fail),
    decreases list, 0nat,
{
    if list.len() > 0 && block.termination is None {
        lemma_statement_written(d, module, ir_function, block, list[0], context);
        if let Outcome::Done(e, next) = d.statement(module, ir_function, block, list[0], context) {
            let rest = list.subrange(1, list.len() as int);
            lemma_statements_written(e, module, ir_function, next, rest, context);
        }
    }
}

proof fn lemma_statement_written(
    d: Draft,
    module: Module,
    ir_function: IrFunction,
    block: BlockView,
    statement: Statement,
    context: LoopContext,
)
    requires
        is_supported_statement(statement),
        accepts_expressions(module, ir_function),
    ensures
        !(d.statement(module, ir_function, block, statement, context) is Fail),
    decreases statement, 2nat,
{
    match statement {
        Statement::Block(list) => {
            if let Outcome::Done(d1, scope_id) = d.generate_id() {
                let left = block.terminate(op_branch(scope_id));
                if let Outcome::Done(d2, merge_id) = d1.add(left).generate_id() {
                    law_supported_statements_are_written(
                        d2,
                        module,
                        ir_function,
                        scope_id,
                        list@,
                        Some(merge_id),
                        context,
                    );
                }
            }
        },
        Statement::If { condition, accept, reject } => {
            reveal(Draft::fork);
            assert(!(d.expression(module, ir_function, block, condition) is Fail));
            if let Outcome::Done(d1, ids) = d.fork(module, ir_function, block, condition) {
                let exit_id = Some(ids.2);
                law_supported_statements_are_written(
                    d1,
                    module,
                    ir_function,
                    ids.0,
                    accept@,
                    exit_id,
                    context,
                );
                if let Outcome::Done(d2, _) = d1.block(
                    module,
                    ir_function,
                    ids.0,
                    accept@,
                    exit_id,
                    context,
                ) {
                    law_supported_statements_are_written(
                        d2,
                        module,
                        ir_function,
                        ids.1,
                        reject@,
                        exit_id,
                        context,
                    );
                }
            }
        },
        Statement::Loop { body, continuing } => {
            reveal(Draft::enter_loop);
            if let Outcome::Done(d1, ids) = d.enter_loop(block) {
                let inside = LoopContext { continuing_id: Some(ids.3), break_id: Some(ids.1) };
                let after = LoopContext { continuing_id: None, break_id: Some(ids.1) };
                law_supported_statements_are_written(
                    d1,
                    module,
                    ir_function,
                    ids.2,
                    body@,
                    Some(ids.3),
                    inside,
                );
                if let Outcome::Done(d2, _) = d1.block(
                    module,
                    ir_function,
                    ids.2,
                    body@,
                    Some(ids.3),
                    inside,
                ) {
                    law_supported_statements_are_written(
                        d2,
                        module,
                        ir_function,
                        ids.3,
                        continuing@,
                        Some(ids.0),
                        after,
                    );
                }
            }
        },
        Statement::Return { value: Some(value) } => {
            assert(!(d.expression(module, ir_function, block, value) is Fail));
        },
        Statement::Store { pointer, value } => {
            reveal(Draft::store);
            assert(!(d.expression_pointer(module, ir_function, block, pointer) is Fail));
            if let Outcome::Done(d1, target) = d.expression_pointer(
                module,
                ir_function,
                block,
                pointer,
            ) {
                assert(!(d1.expression(module, ir_function, target.0, value) is Fail));
            }
        },
        _ => {},
    }
}

/// Whether a type was declared.
pub open spec fn is_declared(c: Cursor, ty: LookupType) -> bool {
    c.writer.lookup_type.contains_key(ty)
}

proof fn lemma_declared(c: Cursor, types: Arena<Type>, ty: LookupType)
    requires
        is_declared(c, ty),
    ensures
        c.type_id(types, ty) == Outcome::Done(c, c.writer.lookup_type[ty]),
{
    reveal(WriterView::type_id);
}

/// Where an operator is defined and the types are declared, it is applied.
pub proof fn law_defined_operators_are_applied(
    c: Cursor,
    s: Scope,
    op: BinaryOperator,
    id: Word,
    l: (Word, LookupType),
    r: (Word, LookupType),
)
    requires
        type_inner(s.module.types, l.1) is Some,
        type_inner(s.module.types, r.1) is Some,
        is_numeric(type_inner(s.module.types, l.1)->0),
        is_numeric(type_inner(s.module.types, r.1)->0),
        is_defined(
            op,
            type_inner(s.module.types, l.1)->0,
            type_inner(s.module.types, r.1)->0,
        ),
        is_declared(c, l.1),
        is_declared(c, r.1),
        is_declared(c, LookupType::Local(LocalType::Scalar { kind: ScalarKind::Bool, width: 1 })),
    ensures
        c.apply_binary(s, op, id, l, r) is Done,
{
    let types = s.module.types;
    reveal(Cursor::apply_binary);
    lemma_declared(c, types, l.1);
    lemma_declared(c, types, r.1);
    lemma_declared(
        c,
        types,
        LookupType::Local(LocalType::Scalar { kind: ScalarKind::Bool, width: 1 }),
    );
    law_operators_are_computed(op, type_inner(types, l.1)->0, type_inner(types, r.1)->0);
}

/// Where a unary operator is defined for its operand, and the type is declared, it is applied.
pub proof fn law_defined_unary_operators_are_applied(
    c: Cursor,
    s: Scope,
    op: UnaryOperator,
    expr: Handle<Expression>,
    depth: nat,
)
    ensures
        c.generate_id() matches Outcome::Done(c1, _) ==> (c1.value(s, expr, depth) matches Outcome::Done(
            c2,
            operand,
        ) ==> {
            let inner = type_inner(s.module.types, operand.1);
            inner is Some && is_declared(c2, operand.1) && (op == UnaryOperator::Not || (
            is_numeric(inner->0) && !has_kind(inner->0, ScalarKind::Uint))) ==> c.unary(
                s,
                op,
                expr,
                depth,
            ) is Done
        }),
{
    if let Outcome::Done(c1, _) = c.generate_id() {
        if let Outcome::Done(c2, operand) = c1.value(s, expr, depth) {
            if let Some(inner) = type_inner(s.module.types, operand.1) {
                law_unary_operators_are_computed(op, inner);
                if is_declared(c2, operand.1) {
                    lemma_declared(c2, s.module.types, operand.1);
                }
            }
        }
    }
}

/// Where a function can be computed, the type of its result is declared and there is an
/// identifier left, it is applied.
pub proof fn law_computable_functions_are_applied(
    c: Cursor,
    s: Scope,
    fun: MathFunction,
    argument: (Word, LookupType),
    type_id: Word,
    second: Option<Word>,
    third: Option<Word>,
)
    requires
        c.writer.id_count < u32::MAX,
        is_computable(fun, type_inner(s.module.types, argument.1)),
        forall|ty: LookupType| #[trigger]
            is_function_type(fun, argument.1, type_inner(s.module.types, argument.1), ty)
                ==> is_declared(c, ty),
    ensures
        c.apply_math(s, fun, argument, type_id, second, third) is Done,
{
    let types = s.module.types;
    reveal(Cursor::apply_math);
    let inner = type_inner(types, argument.1);
    law_known_functions_are_computed(fun, inner);
    let c1 = c.generate_id()->Done_0;
    let ty = match (fun, inner) {
        (MathFunction::Transpose, Some(TypeInner::Matrix { columns, rows, width })) =>
            LookupType::Local(LocalType::Matrix { columns: rows, rows: columns, width }),
        (_, Some(TypeInner::Scalar { kind, width })) => LookupType::Local(
            LocalType::Scalar { kind, width },
        ),
        (_, Some(TypeInner::Vector { kind, width, .. })) => LookupType::Local(
            LocalType::Scalar { kind, width },
        ),
        _ => argument.1,
    };
    if fun == MathFunction::Dot || fun == MathFunction::Length || fun == MathFunction::Distance
        || fun == MathFunction::Transpose {
        assert(is_function_type(fun, argument.1, inner, ty));
        assert(is_declared(c1, ty));
        lemma_declared(c1, types, ty);
    }
}

/// A part at a fixed index is picked where its type and that of the index are declared and there
/// are identifiers left.
pub proof fn law_parts_can_be_picked(
    c: Cursor,
    s: Scope,
    id: Word,
    base: RawExpression,
    index: u32,
    ty: LookupType,
)
    requires
        c.writer.id_count < u32::MAX - 1,
        is_declared(c, ty),
        is_declared(c, LookupType::Local(LocalType::Scalar { kind: ScalarKind::Sint, width: 4 })),
    ensures
        c.pick_member(s, id, base, index, ty) is Done,
{
    let types = s.module.types;
    reveal(Cursor::chain);
    reveal(WriterView::new_pointer_type);
    let number = LookupType::Local(LocalType::Scalar { kind: ScalarKind::Sint, width: 4 });
    lemma_declared(c, types, ty);
    lemma_declared(c, types, number);
    let step = c.writer.new_constant(c.writer.lookup_type[number], seq![index]);
    let c1 = Cursor { writer: step->Done_0, block: c.block };
    assert(is_declared(c1, ty));
    lemma_declared(c1, types, ty);
}

/// An element is picked where its type is declared and there is an identifier left, unless the
/// whole is an array that is not in memory.
pub proof fn law_elements_can_be_picked(
    c: Cursor,
    s: Scope,
    id: Word,
    base: RawExpression,
    inner: TypeInner,
    index_id: Word,
    ty: LookupType,
)
    requires
        c.writer.id_count < u32::MAX,
        is_declared(c, ty),
        base is Value ==> !(inner is Array),
    ensures
        c.pick_element(s, id, base, inner, index_id, ty) is Done,
{
    reveal(Cursor::chain);
    reveal(WriterView::new_pointer_type);
    lemma_declared(c, s.module.types, ty);
}

/// A number is converted where the wanted type is declared and there is an identifier left.
pub proof fn law_numbers_can_be_converted(
    c: Cursor,
    s: Scope,
    operand_id: Word,
    from: ScalarKind,
    to: ScalarKind,
    ty: LookupType,
)
    requires
        c.writer.id_count < u32::MAX,
        is_declared(c, ty),
    ensures
        c.convert(s, operand_id, from, to, ty) is Done,
{
    let c1 = c.generate_id()->Done_0;
    assert(is_declared(c1, ty));
    lemma_declared(c1, s.module.types, ty);
}

} // verus!

//! What the instructions of an expression say.

use crate::arena::{Arena, Handle};
use crate::ir::{Expression, ScalarKind, Type, TypeInner};
use crate::spv::expressions::{beside, Cursor, Scope};
use crate::spv::function::{BlockView, RawExpression};
use crate::spv::growth::{group_growth, lemma_generate};
use crate::spv::growth_declarations::lemma_type_id_grows;
use crate::spv::instruction::InstructionView;
use crate::spv::instructions::{op_constant, op_type_pointer};
use crate::spv::lookup::{LocalType, LookupType};
use crate::spv::model::{Outcome, WriterView};
use crate::spv::operators::{element_type, member_type};
use crate::spv::types::type_inner;
use crate::spv::words::Word;
use spirv_headers as spirv;
use vstd::prelude::*;

verus! {

/// A value: its identifier and its type.
pub type TypedValue = (Word, LookupType);

/// What an expression was written as, and the type of its value.
pub type Written = (RawExpression, LookupType);

/// Whether the writer, asked for a type in state `a`, answers with `id` and goes on to `b`.
pub open spec fn answers(
    a: WriterView,
    types: Arena<Type>,
    ty: LookupType,
    depth: nat,
    b: WriterView,
    id: Word,
) -> bool {
    a.type_id_within(types, ty, depth) == Outcome::Done(b, id)
}

/// Whether all that was declared in state `v` still is in `w`.
pub open spec fn comes_before(v: WriterView, w: WriterView) -> bool {
    &&& v.id_count <= w.id_count
    &&& v.logical_layout.declarations.is_prefix_of(w.logical_layout.declarations)
}

/// Whether `id` is the identifier of a type: the writer has given it to one who asked for the
/// type.
pub open spec fn names_type(w: WriterView, types: Arena<Type>, ty: LookupType, id: Word) -> bool {
    exists|a: WriterView, depth: nat, b: WriterView| #[trigger]
        answers(a, types, ty, depth, b, id) && comes_before(b, w)
}

/// Whether the value of an expression is written from state `a` on, and the writer goes on to
/// `b`.
pub open spec fn writes_value(
    a: Cursor,
    s: Scope,
    handle: Handle<Expression>,
    depth: nat,
    b: Cursor,
    value: TypedValue,
) -> bool {
    a.value(s, handle, depth) == Outcome::Done(b, value)
}

/// Whether `value` is the value of an expression, and `after` is `before` with the instructions
/// that compute it.
pub open spec fn is_value(
    s: Scope,
    handle: Handle<Expression>,
    depth: nat,
    before: BlockView,
    value: TypedValue,
    after: BlockView,
) -> bool {
    exists|a: Cursor, b: Cursor| #[trigger]
        writes_value(a, s, handle, depth, b, value) && a.block == before && b.block == after
}

/// Whether an expression is written from state `a` on, and the writer goes on to `b`.
pub open spec fn writes_raw(
    a: Cursor,
    s: Scope,
    handle: Handle<Expression>,
    depth: nat,
    b: Cursor,
    written: Written,
) -> bool {
    a.raw(s, handle, depth) == Outcome::Done(b, written)
}

/// Whether an expression is written as `written`, and `after` is `before` with its instructions.
pub open spec fn is_raw(
    s: Scope,
    handle: Handle<Expression>,
    depth: nat,
    before: BlockView,
    written: Written,
    after: BlockView,
) -> bool {
    exists|a: Cursor, b: Cursor| #[trigger]
        writes_raw(a, s, handle, depth, b, written) && a.block == before && b.block == after
}

/// Whether `instruction` is all that follows on `before`, and yields the value `id` of type `ty`.
pub open spec fn ends_with(
    before: BlockView,
    e: Cursor,
    types: Arena<Type>,
    instruction: InstructionView,
    id: Word,
    ty: LookupType,
) -> bool {
    &&& e.block.label_id == before.label_id
    &&& e.block.termination == before.termination
    &&& e.block.body == before.body.push(instruction)
    &&& instruction.result_id == Some(id)
    &&& instruction.type_id is Some
    &&& names_type(e.writer, types, ty, instruction.type_id->0)
}

/// The expression at a handle, where the writer follows it.
pub open spec fn expression_at(s: Scope, handle: Handle<Expression>) -> Expression {
    s.ir_function.expressions.at(handle)
}

/// What a type looks like follows from its structure: types of the arena look as they are
/// written there, and others like those of the arena with the same structure.
pub proof fn law_types_look_as_they_are(types: Arena<Type>, handle: Handle<Type>, ty: LocalType)
    ensures
        types.contains(handle) ==> type_inner(types, LookupType::Handle(handle)) == Some(
            types.at(handle).inner,
        ),
        match type_inner(types, LookupType::Local(ty)) {
            Some(TypeInner::Scalar { kind, width }) => ty == (LocalType::Scalar { kind, width }),
            Some(TypeInner::Vector { size, kind, width }) => ty == (LocalType::Vector {
                size,
                kind,
                width,
            }),
            Some(TypeInner::Matrix { columns, rows, width }) => ty == (LocalType::Matrix {
                columns,
                rows,
                width,
            }),
            Some(TypeInner::Pointer { base, class }) => ty == (LocalType::Pointer { base, class }),
            Some(_) => false,
            None => ty is Void || ty is SampledImage,
        },
{
}

pub proof fn lemma_comes_before(v: WriterView, w: WriterView)
    requires
        v.is_kept_by(w),
    ensures
        comes_before(v, w),
{
    reveal(WriterView::is_kept_by);
}

/// A type that was asked for is named by the answer.
pub proof fn lemma_type_named(w: WriterView, types: Arena<Type>, ty: LookupType)
    ensures
        w.type_id(types, ty) matches Outcome::Done(v, id) ==> names_type(v, types, ty, id)
            && w.is_kept_by(v),
{
    broadcast use group_growth;
    lemma_type_id_grows(w, types, ty);
    reveal(WriterView::type_id);
    if let Outcome::Done(v, id) = w.type_id(types, ty) {
        assert(answers(w, types, ty, types.count(), v, id));
        lemma_comes_before(v, v);
    }
}

pub proof fn lemma_names(c: Cursor, types: Arena<Type>, ty: LookupType)
    ensures
        c.type_id(types, ty) matches Outcome::Done(e, id) ==> {
            &&& e.block == c.block
            &&& names_type(e.writer, types, ty, id)
            &&& c.writer.is_kept_by(e.writer)
            &&& e.writer.gl450_ext_inst_id == c.writer.gl450_ext_inst_id
        },
{
    lemma_type_named(c.writer, types, ty);
    reveal(WriterView::is_kept_by);
}

pub proof fn lemma_names_later(
    v: WriterView,
    w: WriterView,
    types: Arena<Type>,
    ty: LookupType,
    id: Word,
)
    requires
        names_type(v, types, ty, id),
        v.is_kept_by(w) || comes_before(v, w),
    ensures
        names_type(w, types, ty, id),
{
    if v.is_kept_by(w) {
        lemma_comes_before(v, w);
    }
    let (a, depth, b) = choose|a: WriterView, depth: nat, b: WriterView| #[trigger]
        answers(a, types, ty, depth, b, id) && comes_before(b, v);
    let first = b.logical_layout.declarations;
    let second = v.logical_layout.declarations;
    let third = w.logical_layout.declarations;
    assert(third.subrange(0, first.len() as int) =~= second.subrange(0, first.len() as int)) by {
        assert(second =~= third.subrange(0, second.len() as int));
    }
    assert(answers(a, types, ty, depth, b, id) && comes_before(b, w));
}

/// The value of an expression that was written as a pointer is what is loaded from there; another
/// is the value already. Its type is that of the expression.
pub proof fn law_values_are_loaded(c: Cursor, s: Scope, handle: Handle<Expression>, depth: nat) -> (r: (
    Written,
    BlockView,
))
    requires
        c.value(s, handle, depth) is Done,
    ensures
        c.value(s, handle, depth) matches Outcome::Done(e, value) ==> {
            let (written, middle) = r;
            &&& is_raw(s, handle, depth, c.block, written, middle)
            &&& value.1 == written.1
            &&& match written.0 {
                RawExpression::Value(id) => value.0 == id && e.block == middle,
                RawExpression::Pointer(id, _) => {
                    let load = e.block.body.last();
                    &&& ends_with(middle, e, s.module.types, load, value.0, value.1)
                    &&& load.op == spirv::Op::Load
                    &&& load.operands == seq![id]
                },
            }
        },
{
    let step = c.raw(s, handle, depth);
    let d = step->Done_0;
    let written = step->Done_1;
    assert(writes_raw(c, s, handle, depth, d, written));
    if written.0 is Pointer {
        if let Outcome::Done(d1, _) = d.generate_id() {
            lemma_names(d1, s.module.types, written.1);
        }
    }
    (written, d.block)
}

/// The parts of a composite type: the type of the one at `index`, if the index is fixed. A vector
/// is made of scalars, a matrix of columns, a structure of its members.
pub open spec fn is_part(inner: TypeInner, index: u32, ty: LookupType) -> bool {
    match inner {
        TypeInner::Vector { kind, width, .. } => ty == LookupType::Local(
            LocalType::Scalar { kind, width },
        ),
        TypeInner::Matrix { rows, width, .. } => ty == LookupType::Local(
            LocalType::Vector { size: rows, kind: ScalarKind::Float, width },
        ),
        TypeInner::Struct { members, .. } => index < members@.len() && ty == LookupType::Handle(
            members@[index as int].ty,
        ),
        _ => false,
    }
}

/// Whether `type_id` was declared as the type of pointers, of storage class `class`, to values of
/// type `ty`.
pub open spec fn points_to(
    w: WriterView,
    types: Arena<Type>,
    type_id: Word,
    class: spirv::StorageClass,
    ty: LookupType,
) -> bool {
    exists|i: int|
        #![trigger w.logical_layout.declarations[i]]
        {
            let declaration = w.logical_layout.declarations[i];
            &&& 0 <= i < w.logical_layout.declarations.len()
            &&& declaration.op == spirv::Op::TypePointer
            &&& declaration.result_id == Some(type_id)
            &&& declaration.operands.len() == 2
            &&& declaration.operands[0] == class as u32
            &&& names_type(w, types, ty, declaration.operands[1])
        }
}

/// Whether `id` was declared as the integer `number`.
pub open spec fn is_number(w: WriterView, types: Arena<Type>, id: Word, number: u32) -> bool {
    exists|i: int|
        #![trigger w.logical_layout.declarations[i]]
        {
            let declaration = w.logical_layout.declarations[i];
            &&& 0 <= i < w.logical_layout.declarations.len()
            &&& declaration.op == spirv::Op::Constant
            &&& declaration.result_id == Some(id)
            &&& declaration.operands == seq![number]
            &&& declaration.type_id is Some
            &&& names_type(
                w,
                types,
                LookupType::Local(LocalType::Scalar { kind: ScalarKind::Sint, width: 4 }),
                declaration.type_id->0,
            )
        }
}

/// What is appended for a pointer to a part: the pointer that leads there from the one to the
/// whole.
pub open spec fn is_chain(
    before: BlockView,
    e: Cursor,
    types: Arena<Type>,
    base_id: Word,
    index_id: Word,
    id: Word,
    class: spirv::StorageClass,
    ty: LookupType,
) -> bool {
    let chain = e.block.body.last();
    &&& e.block.label_id == before.label_id
    &&& e.block.termination == before.termination
    &&& e.block.body == before.body.push(chain)
    &&& chain.op == spirv::Op::AccessChain
    &&& chain.result_id == Some(id)
    &&& chain.operands == seq![base_id, index_id]
    &&& chain.type_id is Some
    &&& points_to(e.writer, types, chain.type_id->0, class, ty)
}

proof fn lemma_chain(
    c: Cursor,
    s: Scope,
    id: Word,
    base_id: Word,
    class: spirv::StorageClass,
    index_id: Word,
    ty: LookupType,
)
    ensures
        c.chain(s, id, base_id, class, index_id, ty) matches Outcome::Done(e, written) ==> {
            &&& written == (RawExpression::Pointer(id, class), ty)
            &&& is_chain(c.block, e, s.module.types, base_id, index_id, id, class, ty)
            &&& c.writer.is_kept_by(e.writer)
        },
{
    broadcast use group_growth;
    reveal(Cursor::chain);
    reveal(WriterView::new_pointer_type);
    let types = s.module.types;
    lemma_names(c, types, ty);
    if let Outcome::Done(e, written) = c.chain(s, id, base_id, class, index_id, ty) {
        if let Outcome::Done(v, type_id) = c.writer.type_id(types, ty) {
            assert(c.type_id(types, ty) == Outcome::Done(Cursor { writer: v, ..c }, type_id));
            lemma_generate(v);
            if let Outcome::Done(u, pointer_id) = v.generate_id() {
                let pointer = op_type_pointer(pointer_id, class, type_id);
                let n = u.logical_layout.declarations.len() as int;
                assert(e.writer == u.declare(pointer));
                lemma_names_later(v, e.writer, types, ty, type_id);
                assert(e.writer.logical_layout.declarations[n] == pointer);
                assert(points_to(e.writer, types, pointer_id, class, ty));
            }
        }
        assert(seq![base_id] + seq![index_id] =~= seq![base_id, index_id]);
    }
}

/// A fixed index picks the part at that index: a value of it where the whole is a value, a
/// pointer to it where the whole is known by a pointer. The type is that of the part.
pub proof fn law_parts_are_picked(c: Cursor, s: Scope, handle: Handle<Expression>, depth: nat) -> (r: (
    Written,
    BlockView,
))
    requires
        expression_at(s, handle) is AccessIndex,
        c.raw(s, handle, depth) is Done,
    ensures
        (c.raw(s, handle, depth), expression_at(s, handle)) matches (
            Outcome::Done(e, part),
            Expression::AccessIndex { base, index },
        ) ==> {
            let (whole, middle) = r;
            let types = s.module.types;
            &&& is_raw(s, base, (depth - 1) as nat, c.block, whole, middle)
            &&& type_inner(types, whole.1) is Some
            &&& is_part(type_inner(types, whole.1)->0, index, part.1)
            &&& match (whole.0, part.0) {
                (RawExpression::Value(base_id), RawExpression::Value(id)) => {
                    let extract = e.block.body.last();
                    &&& ends_with(middle, e, types, extract, id, part.1)
                    &&& extract.op == spirv::Op::CompositeExtract
                    &&& extract.operands == seq![base_id, index]
                },
                (
                    RawExpression::Pointer(base_id, class),
                    RawExpression::Pointer(id, part_class),
                ) => {
                    let operands = e.block.body.last().operands;
                    &&& part_class == class
                    &&& operands.len() == 2
                    &&& is_chain(middle, e, types, base_id, operands[1], id, class, part.1)
                    &&& is_number(e.writer, types, operands[1], index)
                },
                _ => false,
            }
        },
{
    broadcast use group_growth;
    let types = s.module.types;
    let d = (depth - 1) as nat;
    let base = expression_at(s, handle)->AccessIndex_base;
    let index = expression_at(s, handle)->AccessIndex_index;
    let e = c.raw(s, handle, depth)->Done_0;
    assert(c.raw(s, handle, depth) == c.access_index(s, base, index, d));
    let c1 = c.generate_id()->Done_0;
    let id = c.generate_id()->Done_1;
    let c2 = c1.raw(s, base, d)->Done_0;
    let whole = c1.raw(s, base, d)->Done_1;
    assert(writes_raw(c1, s, base, d, c2, whole));
    let inner = type_inner(types, whole.1)->0;
    let ty = member_type(inner, index)->Done_1;
    match whole.0 {
        RawExpression::Value(base_id) => {
            lemma_names(c2, types, ty);
            assert(seq![base_id] + seq![index] =~= seq![base_id, index]);
        },
        RawExpression::Pointer(base_id, class) => {
            let number = LookupType::Local(LocalType::Scalar { kind: ScalarKind::Sint, width: 4 });
            lemma_names(c2, types, number);
            if let Outcome::Done(c3, type_id) = c2.type_id(types, number) {
                let step = c3.writer.new_constant(type_id, seq![index]);
                lemma_generate(c3.writer);
                if let Outcome::Done(v, const_id) = step {
                    let c4 = Cursor { writer: v, block: c3.block };
                    assert(beside(step, c3.block) == Outcome::Done(c4, const_id));
                    lemma_chain(c4, s, id, base_id, class, const_id, ty);
                    let constant = op_constant(type_id, const_id, seq![index]);
                    let n = c3.writer.logical_layout.declarations.len() as int;
                    assert(v.logical_layout.declarations[n] == constant);
                    lemma_names_later(c3.writer, e.writer, types, number, type_id);
                    assert(n < e.writer.logical_layout.declarations.len()
                        && e.writer.logical_layout.declarations[n] == constant) by {
                        reveal(WriterView::is_kept_by);
                        assert(v.logical_layout.declarations
                            == e.writer.logical_layout.declarations.subrange(
                            0,
                            v.logical_layout.declarations.len() as int,
                        ));
                    }
                    assert(is_number(e.writer, types, const_id, index));
                }
            }
        },
    }
    (whole, c2.block)
}

/// The elements of a vector or an array have the same type.
pub open spec fn is_element(inner: TypeInner, ty: LookupType) -> bool {
    match inner {
        TypeInner::Vector { kind, width, .. } => ty == LookupType::Local(
            LocalType::Scalar { kind, width },
        ),
        TypeInner::Array { base, .. } => ty == LookupType::Handle(base),
        _ => false,
    }
}

/// A computed index picks an element: the value of the index is the last operand, the whole is
/// the one before.
pub proof fn law_elements_are_picked(c: Cursor, s: Scope, handle: Handle<Expression>, depth: nat) -> (r: (
    Written,
    BlockView,
    TypedValue,
    BlockView,
))
    requires
        expression_at(s, handle) is Access,
        c.raw(s, handle, depth) is Done,
    ensures
        (c.raw(s, handle, depth), expression_at(s, handle)) matches (
            Outcome::Done(e, part),
            Expression::Access { base, index },
        ) ==> {
            let (whole, middle, position, after) = r;
            let types = s.module.types;
            &&& is_raw(s, base, (depth - 1) as nat, c.block, whole, middle)
            &&& is_value(s, index, (depth - 1) as nat, middle, position, after)
            &&& type_inner(types, whole.1) is Some
            &&& is_element(type_inner(types, whole.1)->0, part.1)
            &&& match (whole.0, part.0) {
                (RawExpression::Value(base_id), RawExpression::Value(id)) => {
                    let extract = e.block.body.last();
                    &&& ends_with(after, e, types, extract, id, part.1)
                    &&& extract.op == spirv::Op::VectorExtractDynamic
                    &&& extract.operands == seq![base_id, position.0]
                    &&& type_inner(types, whole.1)->0 is Vector
                },
                (
                    RawExpression::Pointer(base_id, class),
                    RawExpression::Pointer(id, part_class),
                ) => {
                    &&& part_class == class
                    &&& is_chain(after, e, types, base_id, position.0, id, class, part.1)
                },
                _ => false,
            }
        },
{
    let types = s.module.types;
    let d = (depth - 1) as nat;
    let base = expression_at(s, handle)->Access_base;
    let index = expression_at(s, handle)->Access_index;
    assert(c.raw(s, handle, depth) == c.access(s, base, index, d));
    let c1 = c.generate_id()->Done_0;
    let id = c.generate_id()->Done_1;
    let c2 = c1.raw(s, base, d)->Done_0;
    let whole = c1.raw(s, base, d)->Done_1;
    assert(writes_raw(c1, s, base, d, c2, whole));
    let inner = type_inner(types, whole.1)->0;
    let c3 = c2.value(s, index, d)->Done_0;
    let position = c2.value(s, index, d)->Done_1;
    assert(writes_value(c2, s, index, d, c3, position));
    let ty = element_type(inner)->Done_1;
    match whole.0 {
        RawExpression::Value(base_id) => {
            lemma_names(c3, types, ty);
        },
        RawExpression::Pointer(base_id, class) => {
            lemma_chain(c3, s, id, base_id, class, position.0, ty);
        },
    }
    (whole, c2.block, position, c3.block)
}

} // verus!

//! What the instructions that sample images say.

use crate::arena::Handle;
use crate::ir::{
    Constant, ConstantInner, Expression, ImageClass, SampleLevel, ScalarKind, ScalarValue,
    TypeInner, VectorSize,
};
use crate::spv::constant_laws::law_constants_are_read_back;
use crate::spv::expression_laws::{
    ends_with, expression_at, is_value, lemma_names, lemma_names_later, names_type, writes_value,
    TypedValue,
};
use crate::spv::expressions::{Cursor, Scope};
use crate::spv::function::BlockView;
use crate::spv::growth::{group_growth, lemma_generate, lemma_kept, lemma_kept_by_all};
use crate::spv::growth_declarations::{lemma_constant_id_grows, lemma_define_constant_grows};
use crate::spv::growth_expressions::lemma_value_grows;
use crate::spv::instruction::InstructionView;
use crate::spv::lookup::{LocalType, LookupType};
use crate::spv::model::{Outcome, WriterView};
use crate::spv::instructions::{op_composite_extract, op_sampled_image, op_unary, SampleLod};
use crate::spv::operation_laws::{
    is_optional_value, is_valued, lemma_constant_remembered, lemma_optional,
};
use crate::spv::types::type_inner;
use crate::spv::words::Word;
use spirv_headers as spirv;
use vstd::prelude::*;

verus! {

/// The blocks and identifiers between the steps of sampling an image.
pub struct Sampling {
    pub image: TypedValue,
    pub with_image: BlockView,
    pub sampler: TypedValue,
    pub with_sampler: BlockView,
    pub coordinate_id: Word,
    pub with_coordinate: BlockView,
    /// The instruction that joins the image and the sampler.
    pub joined: InstructionView,
    pub depth_id: Word,
    pub with_depth: BlockView,
    pub level_ids: Seq<Word>,
    pub with_level: BlockView,
    pub offset_ids: Seq<Word>,
}

/// Whether the level of detail is stated.
pub open spec fn is_explicit(level: SampleLevel) -> bool {
    !(level is Auto || level is Bias)
}

/// Whether an operation samples an image: at a stated level or not, with a depth to compare with
/// or not.
pub open spec fn samples(op: spirv::Op, explicit: bool, compared: bool) -> bool {
    match op {
        spirv::Op::ImageSampleImplicitLod => !explicit && !compared,
        spirv::Op::ImageSampleExplicitLod => explicit && !compared,
        spirv::Op::ImageSampleDrefImplicitLod => !explicit && compared,
        spirv::Op::ImageSampleDrefExplicitLod => explicit && compared,
        _ => false,
    }
}

/// Whether `id` was declared as the float zero.
pub open spec fn is_zero(w: WriterView, id: Word) -> bool {
    exists|i: int|
        #![trigger w.logical_layout.declarations[i]]
        {
            let declaration = w.logical_layout.declarations[i];
            &&& 0 <= i < w.logical_layout.declarations.len()
            &&& declaration.op == spirv::Op::Constant
            &&& declaration.result_id == Some(id)
            &&& declaration.operands == seq![0u32]
        }
}

/// Whether the operands say how the level of detail is found: a bit for the way, and the values
/// of the expressions, in their order.
pub open spec fn is_level(
    w: WriterView,
    s: Scope,
    level: SampleLevel,
    depth: nat,
    before: BlockView,
    operands: Seq<Word>,
    after: BlockView,
) -> bool {
    match level {
        SampleLevel::Auto => operands.len() == 0 && after == before,
        SampleLevel::Zero => operands.len() == 2 && operands[0] == 2 && after == before && is_zero(
            w,
            operands[1],
        ),
        SampleLevel::Exact(lod) => operands.len() == 2 && operands[0] == 2 && is_valued(
            s,
            lod,
            depth,
            before,
            operands[1],
            after,
        ),
        SampleLevel::Bias(bias) => operands.len() == 2 && operands[0] == 1 && is_valued(
            s,
            bias,
            depth,
            before,
            operands[1],
            after,
        ),
        SampleLevel::Gradient { x, y } => operands.len() == 3 && operands[0] == 4 && is_pair(
            s,
            x,
            y,
            depth,
            before,
            operands[1],
            operands[2],
            after,
        ),
    }
}

/// Whether `a` and `b` are the values of two expressions, one after the other.
pub open spec fn is_pair(
    s: Scope,
    x: Handle<Expression>,
    y: Handle<Expression>,
    depth: nat,
    before: BlockView,
    a: Word,
    b: Word,
    after: BlockView,
) -> bool {
    exists|middle: BlockView| #[trigger]
        is_valued(s, x, depth, before, a, middle) && is_valued(s, y, depth, middle, b, after)
}

/// Whether the operands name the constant that the coordinate is moved by.
pub open spec fn is_offset(w: WriterView, offset: Option<Handle<Constant>>, operands: Seq<Word>) -> bool {
    match offset {
        Some(handle) => {
            &&& operands.len() == 2
            &&& operands[0] == 8
            &&& w.lookup_constant.contains_key(handle)
            &&& w.lookup_constant[handle] == operands[1]
        },
        None => operands.len() == 0,
    }
}

/// The type of what is found in an image.
pub open spec fn is_sample_type(inner: TypeInner, ty: LookupType) -> bool {
    match inner {
        TypeInner::Image { class: ImageClass::Sampled { kind, .. }, .. } => ty
            == LookupType::Local(LocalType::Vector { size: VectorSize::Quad, kind, width: 4 }),
        TypeInner::Image { class: ImageClass::Depth, .. } => ty == LookupType::Local(
            LocalType::Scalar { kind: ScalarKind::Float, width: 4 },
        ),
        _ => false,
    }
}

/// The number of components of a coordinate with a layer behind it.
pub open spec fn layered(inner: TypeInner) -> nat {
    match inner {
        TypeInner::Vector { size, .. } => (size.number() + 1) as nat,
        _ => 2,
    }
}

/// Whether the coordinate at which an image is sampled is the value of the expression, or, for an
/// array of images, is made of its components and the index as a float, in this order.
pub open spec fn is_coordinate(
    s: Scope,
    coordinate: Handle<Expression>,
    array_index: Option<Handle<Expression>>,
    depth: nat,
    before: BlockView,
    id: Word,
    after: BlockView,
) -> bool {
    match array_index {
        None => is_valued(s, coordinate, depth, before, id, after),
        Some(array_index) => exists|flat: TypedValue, middle: BlockView, apart: BlockView, layer: Word, late: BlockView|
            {
                &&& #[trigger] is_value(s, coordinate, depth, before, flat, middle)
                &&& #[trigger] is_valued(s, array_index, depth, apart, layer, late)
                &&& is_layered(
                    type_inner(s.module.types, flat.1),
                    flat.0,
                    middle,
                    apart,
                    layer,
                    late,
                    id,
                    after,
                )
            },
    }
}

/// Whether the instructions of `apart` behind those of `middle` take the coordinate `flat` apart,
/// and those of `after` behind those of `late` convert the layer and put all together as `id`.
pub open spec fn is_layered(
    inner: Option<TypeInner>,
    flat: Word,
    middle: BlockView,
    apart: BlockView,
    layer: Word,
    late: BlockView,
    id: Word,
    after: BlockView,
) -> bool {
    let n = late.body.len() as int;
    let whole = after.body.last();
    let last = whole.operands.last();
    &&& inner is Some
    &&& whole.op == spirv::Op::CompositeConstruct
    &&& whole.result_id == Some(id)
    &&& whole.operands.len() == layered(inner->0)
    &&& after.body.len() == n + 2
    &&& after.body[n].op == spirv::Op::ConvertUToF
    &&& after.body[n].operands == seq![layer]
    &&& after.body[n].result_id == Some(last)
    &&& match inner->0 {
        TypeInner::Scalar { .. } => apart == middle && whole.operands[0] == flat,
        _ => is_taken_apart(
            flat,
            middle,
            apart,
            whole.operands.subrange(0, whole.operands.len() - 1),
        ),
    }
}

/// Whether the instructions of `after` behind those of `before` name the components of a vector,
/// in their order.
pub open spec fn is_taken_apart(
    vector: Word,
    before: BlockView,
    after: BlockView,
    ids: Seq<Word>,
) -> bool {
    let n = before.body.len() as int;
    &&& after.body.len() == n + ids.len()
    &&& forall|i: int|
        #![trigger ids[i]]
        0 <= i < ids.len() ==> is_extracted(after.body[n + i], vector, i as u32, ids[i])
}

/// Whether an instruction extracts a component of a vector as `id`.
pub open spec fn is_extracted(
    instruction: InstructionView,
    vector: Word,
    index: u32,
    id: Word,
) -> bool {
    &&& instruction.op == spirv::Op::CompositeExtract
    &&& instruction.result_id == Some(id)
    &&& instruction.operands == seq![vector, index]
}

proof fn lemma_components(
    c: Cursor,
    start: BlockView,
    vector: Word,
    scalar_type_id: Word,
    i: nat,
    n: nat,
    ids: Seq<Word>,
)
    requires
        i <= n <= 4,
        ids.len() == i,
        is_taken_apart(vector, start, c.block, ids),
    ensures
        c.components(vector, scalar_type_id, i, n, ids) matches Outcome::Done(e, all) ==> {
            &&& all.len() == n
            &&& is_taken_apart(vector, start, e.block, all)
            &&& c.writer.is_kept_by(e.writer)
        },
    decreases n - i,
{
    broadcast use group_growth;
    if i < n {
        lemma_generate(c.writer);
        if let Outcome::Done(d, id) = c.generate_id() {
            let extract = op_composite_extract(
                scalar_type_id,
                id,
                vector,
                seq![i as u32],
            );
            let next = d.emit(extract);
            assert(extract.operands =~= seq![vector, i as u32]);
            let more = ids.push(id);
            let m = start.body.len() as int;
            assert(is_extracted(next.block.body[m + i], vector, i as u32, id));
            assert forall|k: int|
                #![trigger more[k]]
                0 <= k < more.len() implies is_extracted(
                next.block.body[m + k],
                vector,
                k as u32,
                more[k],
            ) by {
                if k < i {
                    assert(ids[k] == more[k]);
                    assert(next.block.body[m + k] == c.block.body[m + k]);
                }
            }
            lemma_components(next, start, vector, scalar_type_id, i + 1, n, more);
        }
    }
}

proof fn lemma_coordinate(
    c: Cursor,
    s: Scope,
    coordinate: Handle<Expression>,
    array_index: Option<Handle<Expression>>,
    depth: nat,
)
    ensures
        c.image_coordinate(s, coordinate, array_index, depth) matches Outcome::Done(e, id) ==> {
            &&& is_coordinate(s, coordinate, array_index, depth, c.block, id, e.block)
            &&& c.writer.is_kept_by(e.writer)
        },
{
    broadcast use group_growth;
    let types = s.module.types;
    lemma_value_grows(c, s, coordinate, depth);
    reveal(Cursor::is_kept_by);
    if let Outcome::Done(c1, flat) = c.value(s, coordinate, depth) {
        assert(writes_value(c, s, coordinate, depth, c1, flat));
        assert(is_value(s, coordinate, depth, c.block, (flat.0, flat.1), c1.block));
        if let Some(array_index) = array_index {
            let number = LookupType::Local(LocalType::Scalar { kind: ScalarKind::Float, width: 4 });
            lemma_names(c1, types, number);
            if let Outcome::Done(c2, scalar_id) = c1.type_id(types, number) {
                reveal(Cursor::coordinate_components);
                if let Some(TypeInner::Vector { size, .. }) = type_inner(types, flat.1) {
                    lemma_components(
                        c2,
                        c2.block,
                        flat.0,
                        scalar_id,
                        0,
                        size.number() as nat,
                        Seq::empty(),
                    );
                }
                if let Outcome::Done(c3, ids) = c2.coordinate_components(
                    s,
                    flat.0,
                    flat.1,
                    scalar_id,
                ) {
                    lemma_generate(c3.writer);
                    if let Outcome::Done(c4, layer_id) = c3.generate_id() {
                        lemma_value_grows(c4, s, array_index, depth);
                        if let Outcome::Done(c5, index) = c4.value(s, array_index, depth) {
                            assert(writes_value(c4, s, array_index, depth, c5, index));
                            assert(is_value(
                                s,
                                array_index,
                                depth,
                                c4.block,
                                (index.0, index.1),
                                c5.block,
                            ));
                            let converted = c5.emit(
                                op_unary(
                                    spirv::Op::ConvertUToF,
                                    scalar_id,
                                    layer_id,
                                    index.0,
                                ),
                            );
                            let size = if ids.len() == 1 {
                                VectorSize::Bi
                            } else if ids.len() == 2 {
                                VectorSize::Tri
                            } else {
                                VectorSize::Quad
                            };
                            let ty = LookupType::Local(
                                LocalType::Vector { size, kind: ScalarKind::Float, width: 4 },
                            );
                            lemma_names(converted, types, ty);
                            if let Outcome::Done(c6, _) = converted.type_id(types, ty) {
                                lemma_generate(c6.writer);
                            }
                            if let Outcome::Done(e, id) = c.image_coordinate(
                                s,
                                coordinate,
                                Some(array_index),
                                depth,
                            ) {
                                let whole = e.block.body.last();
                                assert(whole.operands == ids.push(layer_id));
                                assert(whole.operands.subrange(0, whole.operands.len() - 1)
                                    =~= ids);
                                assert(is_valued(
                                    s,
                                    array_index,
                                    depth,
                                    c4.block,
                                    index.0,
                                    c5.block,
                                ));
                                assert(is_layered(
                                    type_inner(types, flat.1),
                                    flat.0,
                                    c1.block,
                                    c4.block,
                                    index.0,
                                    c5.block,
                                    id,
                                    e.block,
                                ));
                            }
                        }
                    }
                }
            }
        }
    }
}

proof fn lemma_zero_level(c: Cursor, s: Scope)
    ensures
        c.zero_operands(s) matches Outcome::Done(e, lod) ==> {
            &&& lod.1.len() == 2 && lod.1[0] == 2
            &&& is_zero(e.writer, lod.1[1])
            &&& lod.0 is Explicit
            &&& e.block == c.block
            &&& c.writer.is_kept_by(e.writer)
        },
{
    broadcast use group_growth;
    reveal(Cursor::float_zero);
    lemma_generate(c.writer);
    let inner = ConstantInner::Scalar {
        width: 4,
        value: ScalarValue::Float { single: 0, double: 0 },
    };
    if let Outcome::Done(w, id) = c.writer.generate_id() {
        lemma_define_constant_grows(
            w,
            s.module,
            id,
            inner,
            s.module.constants.count(),
        );
        law_constants_are_read_back(w, s.module, id, inner, s.module.constants.count());
        if let Outcome::Done(v, _) = w.define_constant(
            s.module,
            id,
            inner,
            s.module.constants.count(),
        ) {
            let last = v.logical_layout.declarations.last();
            assert(last.operands =~= seq![0u32]);
            assert(v.logical_layout.declarations[v.logical_layout.declarations.len() - 1] == last);
            assert(is_zero(v, id));
        }
    }
}

proof fn lemma_zero_later(v: WriterView, w: WriterView, id: Word)
    requires
        is_zero(v, id),
        v.is_kept_by(w),
    ensures
        is_zero(w, id),
{
    reveal(WriterView::is_kept_by);
    let a = v.logical_layout.declarations;
    let b = w.logical_layout.declarations;
    let i = choose|i: int|
        #![trigger v.logical_layout.declarations[i]]
        {
            let declaration = v.logical_layout.declarations[i];
            &&& 0 <= i < v.logical_layout.declarations.len()
            &&& declaration.op == spirv::Op::Constant
            &&& declaration.result_id == Some(id)
            &&& declaration.operands == seq![0u32]
        };
    assert(a[i] == b.subrange(0, a.len() as int)[i]);
    assert(w.logical_layout.declarations[i] == a[i]);
}

proof fn lemma_valued(c: Cursor, s: Scope, handle: Handle<Expression>, depth: nat)
    ensures
        c.value(s, handle, depth) matches Outcome::Done(e, value) ==> {
            &&& is_valued(s, handle, depth, c.block, value.0, e.block)
            &&& c.writer.is_kept_by(e.writer)
        },
{
    lemma_value_grows(c, s, handle, depth);
    reveal(Cursor::is_kept_by);
    if let Outcome::Done(e, value) = c.value(s, handle, depth) {
        assert(writes_value(c, s, handle, depth, e, value));
        assert(is_value(s, handle, depth, c.block, (value.0, value.1), e.block));
    }
}

proof fn lemma_gradient(
    c: Cursor,
    s: Scope,
    x: Handle<Expression>,
    y: Handle<Expression>,
    depth: nat,
)
    ensures
        c.gradient_operands(s, x, y, depth) matches Outcome::Done(e, lod) ==> {
            &&& lod.1.len() == 3 && lod.1[0] == 4
            &&& is_pair(s, x, y, depth, c.block, lod.1[1], lod.1[2], e.block)
            &&& lod.0 is Explicit
            &&& c.writer.is_kept_by(e.writer)
        },
{
    broadcast use lemma_kept_by_all;
    lemma_valued(c, s, x, depth);
    if let Outcome::Done(d, _) = c.value(s, x, depth) {
        lemma_valued(d, s, y, depth);
    }
}

proof fn lemma_lod(
    c: Cursor,
    s: Scope,
    lod: SampleLod,
    bits: Word,
    handle: Handle<Expression>,
    depth: nat,
)
    ensures
        c.lod_operands(s, lod, bits, handle, depth) matches Outcome::Done(e, found) ==> {
            &&& found.0 == lod
            &&& found.1.len() == 2 && found.1[0] == bits
            &&& is_valued(s, handle, depth, c.block, found.1[1], e.block)
            &&& c.writer.is_kept_by(e.writer)
        },
{
    lemma_valued(c, s, handle, depth);
    if let Outcome::Done(e, value) = c.value(s, handle, depth) {
        let found = (lod, seq![bits, value.0]);
        assert(c.lod_operands(s, lod, bits, handle, depth) == Outcome::Done(e, found));
        assert(found.1[1] == value.0);
    } else {
        assert(!(c.lod_operands(s, lod, bits, handle, depth) is Done));
    }
}

proof fn lemma_level(c: Cursor, s: Scope, level: SampleLevel, depth: nat)
    ensures
        c.level_operands(s, level, depth) matches Outcome::Done(e, lod) ==> {
            &&& is_level(e.writer, s, level, depth, c.block, lod.1, e.block)
            &&& (lod.0 is Explicit <==> is_explicit(level))
            &&& c.writer.is_kept_by(e.writer)
        },
{
    broadcast use lemma_kept;
    match level {
        SampleLevel::Zero => {
            lemma_zero_level(c, s);
        },
        SampleLevel::Auto => {},
        SampleLevel::Exact(handle) => {
            lemma_lod(c, s, SampleLod::Explicit, 2, handle, depth);
        },
        SampleLevel::Bias(handle) => {
            lemma_lod(c, s, SampleLod::Implicit, 1, handle, depth);
        },
        SampleLevel::Gradient { x, y } => {
            lemma_gradient(c, s, x, y, depth);
        },
    }
}

proof fn lemma_offset(c: Cursor, s: Scope, offset: Option<Handle<Constant>>)
    ensures
        c.offset_operands(s, offset) matches Outcome::Done(e, operands) ==> {
            &&& is_offset(e.writer, offset, operands)
            &&& e.block == c.block
            &&& c.writer.is_kept_by(e.writer)
        },
{
    broadcast use group_growth;
    if let Some(handle) = offset {
        lemma_constant_id_grows(c.writer, s.module, handle);
        reveal(WriterView::constant_id);
        lemma_constant_remembered(
            c.writer,
            s.module,
            handle,
            s.module.constants.count(),
        );
    }
}

/// An image is sampled with its sampler, at its coordinate, at the level of detail and with the
/// depth and the offset that are asked for.
pub proof fn law_images_are_sampled(c: Cursor, s: Scope, handle: Handle<Expression>, depth: nat) -> (r: Sampling)
    requires
        expression_at(s, handle) is ImageSample,
        c.raw(s, handle, depth) is Done,
    ensures
        (c.raw(s, handle, depth), expression_at(s, handle)) matches (
            Outcome::Done(e, result),
            Expression::ImageSample {
                image,
                sampler,
                coordinate,
                array_index,
                offset,
                level,
                depth_ref,
            },
        ) ==> {
            let d = (depth - 1) as nat;
            let types = s.module.types;
            let last = e.block.body.last();
            let with_joined = r.with_coordinate.emit(r.joined);
            &&& is_value(s, image, d, c.block, r.image, r.with_image)
            &&& is_value(s, sampler, d, r.with_image, r.sampler, r.with_sampler)
            &&& is_coordinate(
                s,
                coordinate,
                array_index,
                d,
                r.with_sampler,
                r.coordinate_id,
                r.with_coordinate,
            )
            &&& r.joined.op == spirv::Op::SampledImage
            &&& r.joined.operands == seq![r.image.0, r.sampler.0]
            &&& r.joined.result_id is Some && r.joined.type_id is Some
            &&& r.image.1 is Handle
            &&& names_type(
                e.writer,
                types,
                LookupType::Local(LocalType::SampledImage { image_type: r.image.1->Handle_0 }),
                r.joined.type_id->0,
            )
            &&& is_optional_value(s, depth_ref, d, with_joined, r.depth_id, r.with_depth)
            &&& is_level(e.writer, s, level, d, r.with_depth, r.level_ids, r.with_level)
            &&& is_offset(e.writer, offset, r.offset_ids)
            &&& samples(last.op, is_explicit(level), depth_ref is Some)
            &&& last.operands == seq![r.joined.result_id->0, r.coordinate_id] + (
            if depth_ref is Some {
                seq![r.depth_id]
            } else {
                Seq::empty()
            }) + r.level_ids + r.offset_ids
            &&& is_sample_type(types.at(r.image.1->Handle_0).inner, result.1)
            &&& result.0 is Value
            &&& ends_with(r.with_level, e, types, last, result.0->Value_0, result.1)
        },
{
    broadcast use group_growth;
    reveal(Cursor::is_kept_by);
    let types = s.module.types;
    let d = (depth - 1) as nat;
    let e = c.raw(s, handle, depth)->Done_0;
    let result = c.raw(s, handle, depth)->Done_1;
    let expression = expression_at(s, handle);
    let image = expression->ImageSample_image;
    let sampler = expression->ImageSample_sampler;
    let coordinate = expression->ImageSample_coordinate;
    let array_index = expression->ImageSample_array_index;
    let offset = expression->ImageSample_offset;
    let level = expression->ImageSample_level;
    let depth_ref = expression->ImageSample_depth_ref;
    assert(c.raw(s, handle, depth) == c.image_sample(
        s,
        image,
        sampler,
        coordinate,
        array_index,
        offset,
        level,
        depth_ref,
        d,
    ));
    let c1 = c.value(s, image, d)->Done_0;
    let iv = c.value(s, image, d)->Done_1;
    assert(writes_value(c, s, image, d, c1, iv));
    let image_type = iv.1->Handle_0;
    let joined_type = LookupType::Local(LocalType::SampledImage { image_type });
    lemma_names(c1, types, joined_type);
    let c2 = c1.type_id(types, joined_type)->Done_0;
    let joined_type_id = c1.type_id(types, joined_type)->Done_1;
    lemma_value_grows(c2, s, sampler, d);
    let c3 = c2.value(s, sampler, d)->Done_0;
    let sv = c2.value(s, sampler, d)->Done_1;
    assert(writes_value(c2, s, sampler, d, c3, sv));
    lemma_coordinate(c3, s, coordinate, array_index, d);
    let c4 = c3.image_coordinate(s, coordinate, array_index, d)->Done_0;
    let coordinate_id = c3.image_coordinate(s, coordinate, array_index, d)->Done_1;
    lemma_generate(c4.writer);
    let c5 = c4.generate_id()->Done_0;
    let joined_id = c4.generate_id()->Done_1;
    let joined = op_sampled_image(
        joined_type_id,
        joined_id,
        iv.0,
        sv.0,
    );
    let c6 = c5.emit(joined);
    lemma_generate(c6.writer);
    let c7 = c6.generate_id()->Done_0;
    lemma_names(c7, types, result.1);
    let c8 = c7.type_id(types, result.1)->Done_0;
    let type_id = c7.type_id(types, result.1)->Done_1;
    lemma_optional(c8, s, depth_ref, d);
    let c9 = c8.optional_value(s, depth_ref, d)->Done_0;
    let depth_id = c8.optional_value(s, depth_ref, d)->Done_1;
    lemma_level(c9, s, level, d);
    let c10 = c9.level_operands(s, level, d)->Done_0;
    let lod = c9.level_operands(s, level, d)->Done_1;
    lemma_offset(c10, s, offset);
    let c11 = c10.offset_operands(s, offset)->Done_0;
    let offset_ids = c10.offset_operands(s, offset)->Done_1;
    assert(e.writer == c11.writer);
    if level is Zero {
        lemma_zero_later(c10.writer, e.writer, lod.1[1]);
    }
    lemma_names_later(c8.writer, e.writer, types, result.1, type_id);
    lemma_names_later(c2.writer, e.writer, types, joined_type, joined_type_id);
    Sampling {
        image: iv,
        with_image: c1.block,
        sampler: sv,
        with_sampler: c3.block,
        coordinate_id,
        with_coordinate: c4.block,
        joined,
        depth_id: if depth_id is Some {
            depth_id->0
        } else {
            0
        },
        with_depth: c9.block,
        level_ids: lod.1,
        with_level: c10.block,
        offset_ids,
    }
}

} // verus!

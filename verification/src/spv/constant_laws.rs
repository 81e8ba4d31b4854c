//! What the declarations of constants say.

use crate::arena::Handle;
use crate::ir::{Constant, ConstantInner, Module, ScalarKind, ScalarValue};
use crate::spv::expression_laws::{lemma_names_later, lemma_type_named, names_type};
use crate::spv::growth::group_growth;
use crate::spv::growth_declarations::{lemma_array_length_grows, lemma_constant_grows};
use crate::spv::instruction::InstructionView;
use crate::spv::lookup::{LocalType, LookupType};
use crate::spv::model::{Outcome, WriterView};
use crate::spv::operation_laws::lemma_constant_remembered;
use crate::spv::words::Word;
use spirv_headers as spirv;
use vstd::prelude::*;

verus! {

/// The number that one or two words stand for, the high one first.
pub open spec fn number_of(words: Seq<Word>) -> int {
    if words.len() == 1 {
        words[0] as int
    } else {
        words[0] * 0x1_0000_0000 + words[1]
    }
}

/// How many numbers as many words can stand for.
pub open spec fn modulus(words: Seq<Word>) -> int {
    if words.len() == 1 {
        0x1_0000_0000
    } else {
        0x1_0000_0000_0000_0000
    }
}

/// Whether a declaration gives a scalar back. Numbers are the same up to a multiple of how many
/// the words can stand for, floats have the same bits.
pub open spec fn is_scalar(declaration: InstructionView, width: u8, value: ScalarValue) -> bool {
    let words = declaration.operands;
    match value {
        ScalarValue::Bool(truth) => {
            &&& declaration.op == spirv::Op::ConstantTrue <==> truth
            &&& declaration.op == spirv::Op::ConstantFalse <==> !truth
            &&& words.len() == 0
        },
        _ => {
            &&& declaration.op == spirv::Op::Constant
            &&& width == 4 || width == 8
            &&& words.len() == width / 4
            &&& match value {
                ScalarValue::Sint(number) => (number - number_of(words)) % modulus(words) == 0,
                ScalarValue::Uint(number) => (number - number_of(words)) % modulus(words) == 0,
                ScalarValue::Float { single, double } => number_of(words) == if width == 4 {
                    single as int
                } else {
                    double as int
                },
                ScalarValue::Bool(_) => false,
            }
        },
    }
}

/// The kind of a scalar.
pub open spec fn is_kind_of(value: ScalarValue, kind: ScalarKind) -> bool {
    match kind {
        ScalarKind::Sint => value is Sint,
        ScalarKind::Uint => value is Uint,
        ScalarKind::Float => value is Float,
        ScalarKind::Bool => value is Bool,
    }
}

/// Whether a declaration gives a constant back: a scalar has its value, a composite the constants
/// that it is made of, in their order, and both have their type.
pub open spec fn is_constant(
    w: WriterView,
    module: Module,
    declaration: InstructionView,
    id: Word,
    inner: ConstantInner,
) -> bool {
    &&& declaration.result_id == Some(id)
    &&& declaration.type_id is Some
    &&& match inner {
        ConstantInner::Scalar { width, value } => {
            &&& is_scalar(declaration, width, value)
            &&& exists|kind: ScalarKind|
                {
                    &&& #[trigger] is_kind_of(value, kind)
                    &&& names_type(
                        w,
                        module.types,
                        LookupType::Local(LocalType::Scalar { kind, width }),
                        declaration.type_id->0,
                    )
                }
        },
        ConstantInner::Composite { ty, components } => {
            &&& declaration.op == spirv::Op::ConstantComposite
            &&& are_constants(w, components@, declaration.operands)
            &&& names_type(w, module.types, LookupType::Handle(ty), declaration.type_id->0)
        },
    }
}

/// Whether constants are known by identifiers, in their order.
pub open spec fn are_constants(w: WriterView, handles: Seq<Handle<Constant>>, ids: Seq<Word>) -> bool {
    &&& ids.len() == handles.len()
    &&& forall|i: int|
        #![trigger ids[i]]
        0 <= i < ids.len() ==> is_known(w, handles[i], ids[i])
}

/// Whether a constant is known by an identifier.
pub open spec fn is_known(w: WriterView, handle: Handle<Constant>, id: Word) -> bool {
    w.lookup_constant.contains_key(handle) && w.lookup_constant[handle] == id
}

proof fn lemma_constants_later(
    v: WriterView,
    w: WriterView,
    handles: Seq<Handle<Constant>>,
    ids: Seq<Word>,
)
    requires
        are_constants(v, handles, ids),
        v.is_kept_by(w),
    ensures
        are_constants(w, handles, ids),
{
    reveal(WriterView::is_kept_by);
    reveal(WriterView::is_remembered_by);
    assert forall|i: int|
        #![trigger ids[i]]
        0 <= i < ids.len() implies is_known(w, handles[i], ids[i]) by {
        assert(is_known(v, handles[i], ids[i]));
        assert(v.lookup_constant.dom().contains(handles[i]));
    }
}

proof fn lemma_ids(
    w: WriterView,
    module: Module,
    handles: Seq<Handle<Constant>>,
    i: nat,
    ids: Seq<Word>,
    depth: nat,
)
    requires
        i <= handles.len(),
        are_constants(w, handles.take(i as int), ids),
    ensures
        w.constant_ids(module, handles, i, ids, depth) matches Outcome::Done(v, all)
            ==> are_constants(v, handles, all),
    decreases handles.len() - i,
{
    if i == handles.len() {
        assert(handles.take(i as int) =~= handles);
    } else {
        let handle = handles[i as int];
        lemma_constant_remembered(w, module, handle, depth);
        lemma_constant_grows(w, module, handle, depth);
        if let Outcome::Done(v, id) = w.constant_id_within(module, handle, depth) {
            lemma_constants_later(w, v, handles.take(i as int), ids);
            let next = handles.take((i + 1) as int);
            let more = ids.push(id);
            assert forall|k: int|
                #![trigger more[k]]
                0 <= k < more.len() implies is_known(v, next[k], more[k]) by {
                if k < i {
                    assert(ids[k] == more[k]);
                    assert(next[k] == handles.take(i as int)[k]);
                    assert(is_known(v, handles.take(i as int)[k], ids[k]));
                }
            }
            lemma_ids(v, module, handles, i + 1, more, depth);
        }
    }
}

proof fn lemma_unsigned_words(number: u64)
    ensures
        ((number >> 32) as u32) * 0x1_0000_0000 + (number as u32) == number,
        (number - (number as u32)) % 0x1_0000_0000 == 0,
{
    assert(((number >> 32) as u32) * 0x1_0000_0000 + (number as u32) == number) by (bit_vector);
    let high = ((number >> 32) as u32) as int;
    assert((high * 0x1_0000_0000) % 0x1_0000_0000 == 0) by (nonlinear_arith);
    assert(number - (number as u32) == high * 0x1_0000_0000);
}

proof fn lemma_signed_words(number: i64)
    ensures
        (number - (((number >> 32) as u32) * 0x1_0000_0000 + (number as u32)))
            % 0x1_0000_0000_0000_0000 == 0,
        (number - (number as u32)) % 0x1_0000_0000 == 0,
{
    let high = (number >> 32) as u32;
    let low = number as u32;
    assert(number as u64 == high * 0x1_0000_0000 + low) by (bit_vector)
        requires
            high == (number >> 32) as u32,
            low == number as u32,
    ;
    let bits = number as u64;
    assert(number >= 0 ==> bits == number) by (bit_vector)
        requires
            bits == number as u64,
    ;
    assert(number < 0 ==> bits == number + 0x1_0000_0000_0000_0000) by (bit_vector)
        requires
            bits == number as u64,
    ;
    let h = high as int;
    if number >= 0 {
        assert(number - low == h * 0x1_0000_0000);
        assert((h * 0x1_0000_0000) % 0x1_0000_0000 == 0) by (nonlinear_arith);
    } else {
        let k = h - 0x1_0000_0000;
        assert(number - low == k * 0x1_0000_0000);
        assert((k * 0x1_0000_0000) % 0x1_0000_0000 == 0) by (nonlinear_arith);
    }
}

/// Reading the declaration of a constant gives the constant back.
pub proof fn law_constants_are_read_back(
    w: WriterView,
    module: Module,
    id: Word,
    inner: ConstantInner,
    depth: nat,
)
    ensures
        w.define_constant(module, id, inner, depth) matches Outcome::Done(v, _) ==> {
            &&& v.logical_layout.declarations.len() > 0
            &&& is_constant(v, module, v.logical_layout.declarations.last(), id, inner)
        },
{
    broadcast use group_growth;
    match inner {
        ConstantInner::Scalar { width, value } => {
            let kind = match value {
                ScalarValue::Sint(_) => ScalarKind::Sint,
                ScalarValue::Uint(_) => ScalarKind::Uint,
                ScalarValue::Float { .. } => ScalarKind::Float,
                ScalarValue::Bool(_) => ScalarKind::Bool,
            };
            let ty = LookupType::Local(LocalType::Scalar { kind, width });
            lemma_type_named(w, module.types, ty);
            assert(is_kind_of(value, kind));
            match value {
                ScalarValue::Sint(number) => {
                    lemma_signed_words(number);
                },
                ScalarValue::Uint(number) => {
                    lemma_unsigned_words(number);
                },
                ScalarValue::Float { double, .. } => {
                    lemma_unsigned_words(double);
                },
                ScalarValue::Bool(_) => {},
            }
            if let Outcome::Done(a, type_id) = w.type_id(module.types, ty) {
                if let Outcome::Done(v, _) = w.define_constant(module, id, inner, depth) {
                    let last = v.logical_layout.declarations.last();
                    assert(v == a.declare(last));
                    assert(a.is_kept_by(v));
                    lemma_names_later(a, v, module.types, ty, type_id);
                    if let ScalarValue::Uint(number) = value {
                        if width == 8 {
                            assert(0int % 0x1_0000_0000_0000_0000 == 0);
                        }
                    }
                }
            }
        },
        ConstantInner::Composite { ty, components } => {
            let handles = components@;
            assert(handles.take(0) =~= Seq::empty());
            lemma_ids(w, module, handles, 0, Seq::empty(), depth);
            if let Outcome::Done(a, ids) = w.constant_ids(
                module,
                handles,
                0,
                Seq::empty(),
                depth,
            ) {
                lemma_array_length_grows(a, module, ty, depth);
                if let Outcome::Done(b, _) = a.array_length_id(module, ty, depth) {
                    lemma_type_named(b, module.types, LookupType::Handle(ty));
                    if let Outcome::Done(f, type_id) = b.type_id(
                        module.types,
                        LookupType::Handle(ty),
                    ) {
                        if let Outcome::Done(v, _) = w.define_constant(module, id, inner, depth) {
                            let last = v.logical_layout.declarations.last();
                            assert(v == f.declare(last));
                            assert(f.is_kept_by(v));
                            lemma_names_later(
                                f,
                                v,
                                module.types,
                                LookupType::Handle(ty),
                                type_id,
                            );
                            lemma_constants_later(a, v, handles, ids);
                        }
                    }
                }
            }
        },
    }
}

/// A constant of the module that was not asked for before is declared, and reading the
/// declaration gives it back. It is known by the identifier from then on.
pub proof fn law_constants_are_declared(w: WriterView, module: Module, handle: Handle<Constant>)
    ensures
        w.constant_id(module, handle) matches Outcome::Done(v, id) ==> {
            &&& v.lookup_constant.contains_key(handle)
            &&& v.lookup_constant[handle] == id
            &&& if w.lookup_constant.contains_key(handle) {
                v == w
            } else {
                &&& v.logical_layout.declarations.len() > 0
                &&& is_constant(
                    v,
                    module,
                    v.logical_layout.declarations.last(),
                    id,
                    module.constants.data@[handle.index as int].inner,
                )
            }
        },
{
    reveal(WriterView::constant_id);
    let depth = module.constants.count();
    lemma_constant_remembered(w, module, handle, depth);
    if !w.lookup_constant.contains_key(handle) && depth > 0 {
        if let Outcome::Done(a, id) = w.generate_id() {
            law_constants_are_read_back(
                a.remember_constant(handle, id),
                module,
                id,
                module.constants.at(handle).inner,
                (depth - 1) as nat,
            );
        }
    }
}

/// Truth values are told apart: of two constants of truth values, one is declared true and the
/// other false exactly if they differ.
pub proof fn law_truth_values_are_told_apart(
    w: WriterView,
    module: Module,
    id: Word,
    width: u8,
    a: bool,
    b: bool,
    depth: nat,
)
    ensures
        (
            w.define_constant(
                module,
                id,
                ConstantInner::Scalar { width, value: ScalarValue::Bool(a) },
                depth,
            ),
            w.define_constant(
                module,
                id,
                ConstantInner::Scalar { width, value: ScalarValue::Bool(b) },
                depth,
            ),
        ) matches (Outcome::Done(v, _), Outcome::Done(u, _)) ==> (
        v.logical_layout.declarations.last().op == u.logical_layout.declarations.last().op <==> a
            == b),
{
}

} // verus!

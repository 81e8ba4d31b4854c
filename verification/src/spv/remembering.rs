//! What the writer remembers of types, constants and variables, and under which identifiers.

use crate::spv::lookup::{LocalType, LookupType};
use crate::spv::model::{Outcome, WriterView};
use crate::spv::words::Word;
use vstd::prelude::*;

verus! {

/// Whether a type keeps the identifier under which it is remembered. A matrix or a type of
/// pointers that is known by its structure gets another one when one of the arena with that
/// structure is declared.
pub open spec fn is_stable(ty: LookupType) -> bool {
    match ty {
        LookupType::Local(LocalType::Matrix { .. }) => false,
        LookupType::Local(LocalType::Pointer { .. }) => false,
        _ => true,
    }
}

impl WriterView {
    /// Whether different types of the arena are remembered under different identifiers, and so
    /// are types with different structures and types of functions with different signatures, all
    /// under identifiers that were handed out.
    #[verifier::opaque]
    pub open spec fn has_own_ids(self) -> bool {
        &&& forall|ty: LookupType| #[trigger]
            self.lookup_type.contains_key(ty) ==> self.lookup_type[ty] <= self.id_count
        &&& forall|a: LookupType, b: LookupType|
            #![trigger self.lookup_type.contains_key(a), self.lookup_type.contains_key(b)]
            self.lookup_type.contains_key(a) && self.lookup_type.contains_key(b) && a != b && (
            a is Handle) == (b is Handle) ==> self.lookup_type[a] != self.lookup_type[b]
        &&& forall|key: (Seq<Word>, Word)| #[trigger]
            self.lookup_function_type.contains_key(key) ==> self.lookup_function_type[key]
                <= self.id_count
        &&& forall|a: (Seq<Word>, Word), b: (Seq<Word>, Word)|
            #![trigger self.lookup_function_type.contains_key(a),
                self.lookup_function_type.contains_key(b)]
            self.lookup_function_type.contains_key(a) && self.lookup_function_type.contains_key(b)
                && a != b ==> self.lookup_function_type[a] != self.lookup_function_type[b]
    }

    /// Whether all that is remembered here is still remembered in `later`, under the same
    /// identifiers but for types that are not stable. The types that `later` remembers besides
    /// have identifiers that were handed out in between, and identifiers stay apart that are.
    #[verifier::opaque]
    pub open spec fn is_remembered_by(self, later: WriterView) -> bool {
        &&& self.id_count <= later.id_count
        &&& self.void_type is Some ==> self.void_type == later.void_type
        &&& forall|ty: LookupType| #[trigger]
            self.lookup_type.contains_key(ty) ==> later.lookup_type.contains_key(ty) && (is_stable(
                ty,
            ) ==> later.lookup_type[ty] == self.lookup_type[ty])
        &&& forall|ty: LookupType| #[trigger]
            later.lookup_type.contains_key(ty) ==> (self.lookup_type.contains_key(ty)
                && later.lookup_type[ty] == self.lookup_type[ty]) || later.lookup_type[ty]
                > self.id_count
        &&& self.lookup_function_type.submap_of(later.lookup_function_type)
        &&& self.lookup_constant.submap_of(later.lookup_constant)
        &&& self.lookup_global_variable.submap_of(later.lookup_global_variable)
        &&& self.has_own_ids() ==> later.has_own_ids()
    }
}

proof fn lemma_submap<K, V>(a: Map<K, V>, b: Map<K, V>, c: Map<K, V>)
    requires
        a.submap_of(b),
        b.submap_of(c),
    ensures
        a.submap_of(c),
{
    assert forall|k: K| #[trigger] a.dom().contains(k) implies #[trigger] c.dom().contains(k)
        && a[k] == c[k] by {
        assert(b.dom().contains(k));
    }
}

/// A step that remembers nothing more.
pub proof fn lemma_nothing_new(w: WriterView, v: WriterView)
    requires
        w.id_count <= v.id_count,
        v.void_type == w.void_type,
        v.lookup_type == w.lookup_type,
        v.lookup_function_type == w.lookup_function_type,
        w.lookup_constant.submap_of(v.lookup_constant),
        w.lookup_global_variable.submap_of(v.lookup_global_variable),
    ensures
        w.is_remembered_by(v),
{
    reveal(WriterView::is_remembered_by);
    reveal(WriterView::has_own_ids);
}

pub broadcast proof fn lemma_remembered_by_all(a: WriterView, b: WriterView, c: WriterView)
    requires
        #[trigger] a.is_remembered_by(b),
        #[trigger] b.is_remembered_by(c),
    ensures
        a.is_remembered_by(c),
{
    reveal(WriterView::is_remembered_by);
    lemma_submap(a.lookup_function_type, b.lookup_function_type, c.lookup_function_type);
    lemma_submap(a.lookup_constant, b.lookup_constant, c.lookup_constant);
    lemma_submap(a.lookup_global_variable, b.lookup_global_variable, c.lookup_global_variable);
}

/// A type is remembered under an identifier that was handed out before others.
pub proof fn lemma_new_type(w: WriterView, b: WriterView, v: WriterView, ty: LookupType, id: Word)
    requires
        w.generate_id() == Outcome::Done(b, id),
        b.is_remembered_by(v),
        is_stable(ty) ==> !v.lookup_type.contains_key(ty),
    ensures
        w.is_remembered_by(v.remember_type(ty, id)),
{
    reveal(WriterView::is_remembered_by);
    reveal(WriterView::has_own_ids);
}

/// A type is remembered under an identifier that was handed out before others, in two ways.
pub proof fn lemma_new_type_twice(
    w: WriterView,
    b: WriterView,
    v: WriterView,
    other: LookupType,
    ty: LookupType,
    id: Word,
)
    requires
        w.generate_id() == Outcome::Done(b, id),
        b.is_remembered_by(v),
        !is_stable(other),
        ty is Handle,
        !v.lookup_type.contains_key(ty),
    ensures
        w.is_remembered_by(v.remember_type(other, id).remember_type(ty, id)),
{
    reveal(WriterView::is_remembered_by);
    reveal(WriterView::has_own_ids);
}

/// A type of functions is remembered under a new identifier.
pub proof fn lemma_new_function_type(
    w: WriterView,
    b: WriterView,
    v: WriterView,
    parameter_type_ids: Seq<Word>,
    return_type_id: Word,
    id: Word,
)
    requires
        w.generate_id() == Outcome::Done(b, id),
        b.is_remembered_by(v),
        v.lookup_function_type == w.lookup_function_type,
        !w.lookup_function_type.contains_key((parameter_type_ids, return_type_id)),
    ensures
        w.is_remembered_by(v.remember_function_type(parameter_type_ids, return_type_id, id)),
{
    reveal(WriterView::is_remembered_by);
    reveal(WriterView::has_own_ids);
}

} // verus!

//! What every step of the writer keeps: the type of a value is declared before the value.

use crate::spv::expressions::{beside, Cursor};
use crate::spv::function::BlockView;
use crate::spv::instruction::InstructionView;
use crate::spv::lookup::LookupType;
use crate::spv::model::{Outcome, WriterView};
use crate::spv::words::Word;
use vstd::prelude::*;

verus! {

/// Whether one of the declarations defines `id`.
#[verifier::opaque]
pub open spec fn declares(declarations: Seq<InstructionView>, id: Word) -> bool {
    exists|i: int|
        0 <= i < declarations.len() && (#[trigger] declarations[i]).result_id == Some(id)
}

/// Whether the type of what an instruction yields, if it yields something, is among the
/// declarations.
pub open spec fn has_type(declarations: Seq<InstructionView>, instruction: InstructionView) -> bool {
    instruction.type_id matches Some(type_id) ==> declares(declarations, type_id)
}

/// Whether the types of what instructions yield are among the declarations.
#[verifier::opaque]
pub open spec fn have_types(
    declarations: Seq<InstructionView>,
    list: Seq<InstructionView>,
) -> bool {
    forall|i: int| 0 <= i < list.len() ==> has_type(declarations, #[trigger] list[i])
}

/// Whether the type of what a declaration yields is among the declarations before it.
#[verifier::opaque]
pub open spec fn types_come_first(declarations: Seq<InstructionView>) -> bool {
    forall|i: int|
        0 <= i < declarations.len() ==> has_type(
            declarations.take(i),
            #[trigger] declarations[i],
        )
}

/// Whether the identifiers of types that are remembered are among the declarations.
#[verifier::opaque]
pub open spec fn are_declared(
    declarations: Seq<InstructionView>,
    lookup_type: Map<LookupType, Word>,
    void_type: Option<Word>,
) -> bool {
    &&& forall|ty: LookupType| #[trigger]
        lookup_type.contains_key(ty) ==> declares(declarations, lookup_type[ty])
    &&& void_type matches Some(id) ==> declares(declarations, id)
}

/// Whether `later` is `declarations` with more behind them.
#[verifier::opaque]
pub open spec fn is_extended(
    declarations: Seq<InstructionView>,
    later: Seq<InstructionView>,
) -> bool {
    declarations.is_prefix_of(later)
}

pub broadcast proof fn lemma_extended(declarations: Seq<InstructionView>)
    ensures
        #[trigger] is_extended(declarations, declarations),
{
    reveal(is_extended);
}

pub broadcast proof fn lemma_extended_by_all(
    a: Seq<InstructionView>,
    b: Seq<InstructionView>,
    c: Seq<InstructionView>,
)
    requires
        #[trigger] is_extended(a, b),
        #[trigger] is_extended(b, c),
    ensures
        is_extended(a, c),
{
    reveal(is_extended);
}

pub broadcast proof fn lemma_still_declares(
    a: Seq<InstructionView>,
    b: Seq<InstructionView>,
    id: Word,
)
    requires
        #[trigger] is_extended(a, b),
        #[trigger] declares(a, id),
    ensures
        declares(b, id),
{
    reveal(is_extended);
    reveal(declares);
    let i = choose|i: int| 0 <= i < a.len() && (#[trigger] a[i]).result_id == Some(id);
    assert(b[i] == b.subrange(0, a.len() as int)[i]);
}

pub broadcast proof fn lemma_still_have_types(
    a: Seq<InstructionView>,
    b: Seq<InstructionView>,
    list: Seq<InstructionView>,
)
    requires
        #[trigger] is_extended(a, b),
        #[trigger] have_types(a, list),
    ensures
        have_types(b, list),
{
    reveal(have_types);
    assert forall|i: int| 0 <= i < list.len() implies has_type(b, #[trigger] list[i]) by {
        assert(has_type(a, list[i]));
        if let Some(id) = list[i].type_id {
            lemma_still_declares(a, b, id);
        }
    }
}

pub broadcast proof fn lemma_one_more_has_type(
    declarations: Seq<InstructionView>,
    list: Seq<InstructionView>,
    instruction: InstructionView,
)
    requires
        have_types(declarations, list),
        has_type(declarations, instruction),
    ensures
        #[trigger] have_types(declarations, list.push(instruction)),
{
    reveal(have_types);
}

pub proof fn lemma_both_have_types(
    declarations: Seq<InstructionView>,
    a: Seq<InstructionView>,
    b: Seq<InstructionView>,
)
    requires
        have_types(declarations, a),
        have_types(declarations, b),
    ensures
        have_types(declarations, a + b),
{
    reveal(have_types);
}

pub broadcast proof fn lemma_nothing_has_types(declarations: Seq<InstructionView>)
    ensures
        #[trigger] have_types(declarations, Seq::empty()),
{
    reveal(have_types);
}

impl WriterView {
    /// Whether one of the declarations defines `id`.
    pub open spec fn declares(self, id: Word) -> bool {
        declares(self.logical_layout.declarations, id)
    }

    /// Whether the type of what an instruction yields is declared before it, and the types that
    /// are looked up are declared.
    pub open spec fn is_typed(self) -> bool {
        let declarations = self.logical_layout.declarations;
        &&& types_come_first(declarations)
        &&& have_types(declarations, self.logical_layout.function_definitions)
        &&& are_declared(declarations, self.lookup_type, self.void_type)
    }

    /// Whether `later` is typed and holds all declarations.
    pub open spec fn is_typed_in(self, later: WriterView) -> bool {
        &&& later.is_typed()
        &&& is_extended(self.logical_layout.declarations, later.logical_layout.declarations)
    }

    /// Whether a step leads to a state that is typed and holds all declarations.
    pub open spec fn is_typed_by<T>(self, step: Outcome<WriterView, T>) -> bool {
        match step {
            Outcome::Done(later, _) => self.is_typed_in(later),
            Outcome::Fail(later, _) => self.is_typed_in(later),
            Outcome::Stuck => true,
        }
    }

    /// Whether a step leads to a state that is typed and holds all declarations, among them that
    /// of the identifier that the step results in.
    pub open spec fn is_typed_by_declaring(self, step: Outcome<WriterView, Word>) -> bool {
        &&& self.is_typed_by(step)
        &&& step matches Outcome::Done(later, id) ==> later.declares(id)
    }
}

/// One more declaration.
pub broadcast proof fn lemma_declare(w: WriterView, instruction: InstructionView)
    requires
        w.is_typed(),
        has_type(w.logical_layout.declarations, instruction),
    ensures
        w.is_typed_in(#[trigger] w.declare(instruction)),
        instruction.result_id matches Some(id) ==> w.declare(instruction).declares(id),
{
    let a = w.logical_layout.declarations;
    let b = a.push(instruction);
    assert(is_extended(a, b)) by {
        reveal(is_extended);
    }
    lemma_still_have_types(a, b, w.logical_layout.function_definitions);
    assert(types_come_first(b)) by {
        reveal(types_come_first);
        assert forall|i: int| 0 <= i < b.len() implies has_type(b.take(i), #[trigger] b[i]) by {
            if i < a.len() {
                assert(b.take(i) =~= a.take(i));
                assert(has_type(a.take(i), a[i]));
            } else {
                assert(b.take(i) =~= a);
            }
        }
    }
    assert(are_declared(b, w.lookup_type, w.void_type)) by {
        reveal(are_declared);
        assert forall|ty: LookupType| #[trigger] w.lookup_type.contains_key(ty) implies declares(
            b,
            w.lookup_type[ty],
        ) by {
            lemma_still_declares(a, b, w.lookup_type[ty]);
        }
        if let Some(id) = w.void_type {
            lemma_still_declares(a, b, id);
        }
    }
    if let Some(id) = instruction.result_id {
        assert(declares(b, id)) by {
            reveal(declares);
            assert(b[a.len() as int].result_id == Some(id));
        }
    }
}

/// One more type that is looked up.
pub proof fn lemma_remember_type(w: WriterView, ty: LookupType, id: Word)
    requires
        w.is_typed(),
        w.declares(id),
    ensures
        w.is_typed_in(w.remember_type(ty, id)),
{
    broadcast use lemma_extended;
    reveal(are_declared);
}

/// The declaration of a type is complete.
pub broadcast proof fn lemma_declare_type(
    w: WriterView,
    ty: LookupType,
    id: Word,
    instruction: InstructionView,
)
    requires
        w.is_typed(),
        instruction.type_id is None,
        instruction.result_id == Some(id),
    ensures
        w.is_typed_by_declaring(#[trigger] w.declare_type(ty, id, instruction)),
{
    lemma_declare(w, instruction);
    let v = w.declare(instruction);
    lemma_remember_type(v, ty, id);
    assert(v.remember_type(ty, id) == w.remember_type(ty, id).declare(instruction));
}

/// The declaration of a type that is also looked up in another way is complete.
pub broadcast proof fn lemma_declare_type_twice(
    w: WriterView,
    other: LookupType,
    ty: LookupType,
    id: Word,
    instruction: InstructionView,
)
    requires
        w.is_typed(),
        instruction.type_id is None,
        instruction.result_id == Some(id),
    ensures
        w.is_typed_by_declaring(
            #[trigger] w.remember_type(other, id).declare_type(ty, id, instruction),
        ),
{
    lemma_declare(w, instruction);
    let v = w.declare(instruction);
    lemma_remember_type(v, other, id);
    lemma_remember_type(v.remember_type(other, id), ty, id);
    assert(v.remember_type(other, id).remember_type(ty, id) == w.remember_type(
        other,
        id,
    ).remember_type(ty, id).declare(instruction));
}

/// The identifier of a type that was looked up.
pub proof fn lemma_looked_up(w: WriterView, ty: LookupType)
    requires
        w.is_typed(),
        w.lookup_type.contains_key(ty),
    ensures
        w.declares(w.lookup_type[ty]),
{
    reveal(are_declared);
}

pub broadcast group group_typing {
    lemma_extended,
    lemma_extended_by_all,
    lemma_still_declares,
    lemma_still_have_types,
    lemma_one_more_has_type,
    lemma_nothing_has_types,
    lemma_declare,
    lemma_declare_type,
    lemma_declare_type_twice,
}

impl BlockView {
    /// Whether the types of what the instructions of a block yield are among the declarations.
    pub open spec fn has_types(self, declarations: Seq<InstructionView>) -> bool {
        &&& have_types(declarations, self.body)
        &&& self.termination matches Some(instruction) ==> has_type(declarations, instruction)
    }
}

impl Cursor {
    /// Whether the type of what an instruction yields is declared before it.
    pub open spec fn is_typed(self) -> bool {
        &&& self.writer.is_typed()
        &&& self.block.has_types(self.writer.logical_layout.declarations)
    }

    /// Whether a step leads to a state that is typed and holds all declarations.
    pub open spec fn is_typed_by<T>(self, step: Outcome<Cursor, T>) -> bool {
        match step {
            Outcome::Done(later, _) => later.is_typed() && self.writer.is_typed_in(later.writer),
            Outcome::Fail(later, _) => later.is_typed() && self.writer.is_typed_in(later.writer),
            Outcome::Stuck => true,
        }
    }
}

/// A step of the writer that leaves the block as it is.
pub proof fn lemma_beside_typed<T>(c: Cursor, step: Outcome<WriterView, T>)
    requires
        c.is_typed(),
        c.writer.is_typed_by(step),
    ensures
        c.is_typed_by(beside(step, c.block)),
{
    broadcast use group_typing;
}

} // verus!

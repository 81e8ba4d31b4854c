//! What every step of the writer keeps: nothing that was written changes, and an identifier is
//! defined once.

use crate::arena::Handle;
use crate::ir::{Constant, GlobalVariable};
use crate::spv::expressions::{beside, Cursor};
use crate::spv::function::BlockView;
use crate::spv::instruction::InstructionView;
use crate::spv::layout::LogicalLayoutView;
use crate::spv::lookup::LookupType;
use crate::spv::model::{Outcome, WriterFlags, WriterView};
use crate::spv::remembering::{
    is_stable, lemma_new_function_type, lemma_new_type, lemma_new_type_twice, lemma_nothing_new,
    lemma_remembered_by_all,
};
use crate::spv::words::Word;
use spirv_headers as spirv;
use vstd::prelude::*;

verus! {

/// One, if the instruction defines `id`.
pub open spec fn defines(instruction: InstructionView, id: Word) -> nat {
    if instruction.result_id == Some(id) {
        1
    } else {
        0
    }
}

/// How many instructions of a list define `id`.
pub open spec fn definitions(list: Seq<InstructionView>, id: Word) -> nat
    decreases list.len(),
{
    if list.len() == 0 {
        0
    } else {
        definitions(list.drop_last(), id) + defines(list.last(), id)
    }
}

pub proof fn lemma_definitions_push(list: Seq<InstructionView>, instruction: InstructionView, id: Word)
    ensures
        definitions(list.push(instruction), id) == definitions(list, id) + defines(
            instruction,
            id,
        ),
{
    assert(list.push(instruction).drop_last() =~= list);
}

pub proof fn lemma_definitions_add(a: Seq<InstructionView>, b: Seq<InstructionView>, id: Word)
    ensures
        definitions(a + b, id) == definitions(a, id) + definitions(b, id),
    decreases b.len(),
{
    if b.len() == 0 {
        assert(a + b =~= a);
    } else {
        lemma_definitions_add(a, b.drop_last(), id);
        assert((a + b).drop_last() =~= a + b.drop_last());
    }
}

impl LogicalLayoutView {
    /// How many instructions define `id`.
    pub open spec fn definitions(self, id: Word) -> nat {
        definitions(self.capabilities, id) + definitions(self.extensions, id) + definitions(
            self.ext_inst_imports,
            id,
        ) + definitions(self.memory_model, id) + definitions(self.entry_points, id) + definitions(
            self.execution_modes,
            id,
        ) + definitions(self.debugs, id) + definitions(self.annotations, id) + definitions(
            self.declarations,
            id,
        ) + definitions(self.function_declarations, id) + definitions(
            self.function_definitions,
            id,
        )
    }

    /// Whether `later` holds the same with more declarations.
    pub open spec fn is_start_of(self, later: LogicalLayoutView) -> bool {
        &&& self.declarations.is_prefix_of(later.declarations)
        &&& later == (LogicalLayoutView { declarations: later.declarations, ..self })
    }
}

/// Whether `later` is `list` with more instructions, none of which defines an identifier.
pub open spec fn gains_remarks(list: Seq<InstructionView>, later: Seq<InstructionView>) -> bool {
    &&& list.is_prefix_of(later)
    &&& forall|i: int| list.len() <= i < later.len() ==> (#[trigger] later[i]).result_id is None
}

/// Whether an instruction decorates an identifier that was handed out between the identifiers
/// `first` and `last`.
pub open spec fn decorates_between(instruction: InstructionView, first: u32, last: u32) -> bool {
    instruction.operands.len() > 0 && first < instruction.operands[0] <= last
}

/// Whether identifier `id` is defined once more at most, and only if it was handed out between
/// the identifiers `first` and `last`.
pub open spec fn numbered(first: u32, last: u32, before: nat, after: nat, id: Word) -> bool {
    after == before || (after == before + 1 && first < id <= last)
}

impl WriterView {
    /// How many instructions define `id`.
    pub open spec fn definitions(self, id: Word) -> nat {
        self.logical_layout.definitions(id)
    }

    /// Whether the decorations that `later` holds besides those here are of identifiers that
    /// were handed out in between.
    pub open spec fn is_decorated_by(self, later: WriterView) -> bool {
        &&& gains_remarks(self.annotations, later.annotations)
        &&& forall|i: int|
            self.annotations.len() <= i < later.annotations.len() ==> decorates_between(
                #[trigger] later.annotations[i],
                self.id_count,
                later.id_count,
            )
    }

    /// Whether all that is known and written here is still so in `later`, and nothing but
    /// declarations, names and decorations was written since.
    #[verifier::opaque]
    pub open spec fn is_kept_by(self, later: WriterView) -> bool {
        &&& self.is_remembered_by(later)
        &&& self.physical_layout == later.physical_layout
        &&& self.logical_layout.is_start_of(later.logical_layout)
        &&& self.id_count <= later.id_count
        &&& self.capabilities == later.capabilities
        &&& gains_remarks(self.debugs, later.debugs)
        &&& self.is_decorated_by(later)
        &&& self.flags == later.flags
        &&& self.flags != WriterFlags::DEBUG ==> self.debugs == later.debugs
        &&& self.lookup_function == later.lookup_function
        &&& self.storage_type_handles == later.storage_type_handles
        &&& self.gl450_ext_inst_id == later.gl450_ext_inst_id
        &&& self.layouts == later.layouts
    }

    /// Whether the instructions that `later` holds besides those here define identifiers that
    /// were handed out in between, each of them once.
    pub open spec fn is_numbered_by(self, later: WriterView) -> bool {
        &&& self.id_count <= later.id_count
        &&& forall|id: Word|
            #![trigger self.definitions(id)]
            #![trigger later.definitions(id)]
            numbered(
                self.id_count,
                later.id_count,
                self.definitions(id),
                later.definitions(id),
                id,
            )
    }

    pub open spec fn grows_to(self, later: WriterView) -> bool {
        self.is_kept_by(later) && self.is_numbered_by(later)
    }

    /// Whether a step leads to a state that the writer grows to, but for the definition of `id`
    /// if the step is done.
    pub open spec fn grows_by_defining<T>(self, step: Outcome<WriterView, T>, id: Word) -> bool {
        match step {
            Outcome::Done(later, _) => {
                &&& self.is_kept_by(later)
                &&& self.id_count <= later.id_count
                &&& forall|x: Word|
                    #![trigger self.definitions(x)]
                    #![trigger later.definitions(x)]
                    numbered(
                        self.id_count,
                        later.id_count,
                        self.definitions(x) + if x == id {
                            1nat
                        } else {
                            0nat
                        },
                        later.definitions(x),
                        x,
                    )
            },
            Outcome::Fail(later, _) => self.grows_to(later),
            Outcome::Stuck => true,
        }
    }

    /// Whether a step leads to a state that the writer grows to, but for decorations of
    /// identifiers that were handed out since `base`.
    pub open spec fn grows_since<T>(self, base: WriterView, step: Outcome<WriterView, T>) -> bool {
        match step {
            Outcome::Done(later, _) => base.is_kept_by(later) && self.is_remembered_by(later)
                && self.is_numbered_by(later),
            Outcome::Fail(later, _) => base.is_kept_by(later) && self.is_remembered_by(later)
                && self.is_numbered_by(later),
            Outcome::Stuck => true,
        }
    }

    /// Whether a step leads to a state that knows no more global variables.
    pub open spec fn finds_no_variable<T>(self, step: Outcome<WriterView, T>) -> bool {
        match step {
            Outcome::Done(later, _) => later.lookup_global_variable == self.lookup_global_variable,
            Outcome::Fail(later, _) => later.lookup_global_variable == self.lookup_global_variable,
            Outcome::Stuck => true,
        }
    }

    /// Whether a step leads to a state that the writer grows to.
    pub open spec fn grows_by<T>(self, step: Outcome<WriterView, T>) -> bool {
        match step {
            Outcome::Done(later, _) => self.grows_to(later),
            Outcome::Fail(later, _) => self.grows_to(later),
            Outcome::Stuck => true,
        }
    }
}

pub proof fn lemma_gains_remarks(
    a: Seq<InstructionView>,
    b: Seq<InstructionView>,
    c: Seq<InstructionView>,
)
    requires
        gains_remarks(a, b),
        gains_remarks(b, c),
    ensures
        gains_remarks(a, c),
{
    assert forall|i: int| a.len() <= i < c.len() implies (#[trigger] c[i]).result_id is None by {
        if i < b.len() {
            assert(b[i] == c.subrange(0, b.len() as int)[i]);
        }
    }
}

pub proof fn lemma_decorated_by_all(a: WriterView, b: WriterView, c: WriterView)
    requires
        a.is_decorated_by(b),
        b.is_decorated_by(c),
        a.id_count <= b.id_count <= c.id_count,
    ensures
        a.is_decorated_by(c),
{
    lemma_gains_remarks(a.annotations, b.annotations, c.annotations);
    assert forall|i: int| a.annotations.len() <= i < c.annotations.len() implies decorates_between(
        #[trigger] c.annotations[i],
        a.id_count,
        c.id_count,
    ) by {
        if i < b.annotations.len() {
            assert(b.annotations[i] == c.annotations.subrange(0, b.annotations.len() as int)[i]);
        }
    }
}

pub broadcast proof fn lemma_kept(w: WriterView)
    ensures
        #[trigger] w.is_kept_by(w),
{
    reveal(WriterView::is_kept_by);
    lemma_nothing_new(w, w);
}

pub broadcast proof fn lemma_kept_by_all(a: WriterView, b: WriterView, c: WriterView)
    requires
        #[trigger] a.is_kept_by(b),
        #[trigger] b.is_kept_by(c),
    ensures
        a.is_kept_by(c),
{
    reveal(WriterView::is_kept_by);
    lemma_gains_remarks(a.debugs, b.debugs, c.debugs);
    lemma_decorated_by_all(a, b, c);
    lemma_remembered_by_all(a, b, c);
}

pub broadcast proof fn lemma_declare_keeps(w: WriterView, instruction: InstructionView)
    ensures
        w.is_kept_by(#[trigger] w.declare(instruction)),
{
    reveal(WriterView::is_kept_by);
    lemma_nothing_new(w, w.declare(instruction));
}

pub broadcast proof fn lemma_declare_numbers(w: WriterView, instruction: InstructionView, id: Word)
    ensures
        #[trigger] w.declare(instruction).definitions(id) == w.definitions(id) + defines(
            instruction,
            id,
        ),
{
    lemma_definitions_push(w.logical_layout.declarations, instruction, id);
}

pub broadcast proof fn lemma_kept_is_remembered(w: WriterView, v: WriterView)
    requires
        #[trigger] w.is_kept_by(v),
    ensures
        w.is_remembered_by(v),
{
    reveal(WriterView::is_kept_by);
}

/// A decoration of an identifier that was handed out since.
pub broadcast proof fn lemma_annotate_keeps(
    w: WriterView,
    v: WriterView,
    instruction: InstructionView,
)
    requires
        #[trigger] w.is_kept_by(v),
        instruction.result_id is None,
        decorates_between(instruction, w.id_count, v.id_count),
    ensures
        w.is_kept_by(#[trigger] v.annotate(instruction)),
{
    reveal(WriterView::is_kept_by);
    lemma_nothing_new(v, v.annotate(instruction));
    lemma_remembered_by_all(w, v, v.annotate(instruction));
    lemma_gains_remarks(w.annotations, v.annotations, v.annotate(instruction).annotations);
}

pub broadcast proof fn lemma_annotate_remembers(w: WriterView, instruction: InstructionView)
    ensures
        w.is_remembered_by(#[trigger] w.annotate(instruction)),
{
    lemma_nothing_new(w, w.annotate(instruction));
}

pub broadcast proof fn lemma_annotate_numbers(w: WriterView, instruction: InstructionView, id: Word)
    ensures
        #[trigger] w.annotate(instruction).definitions(id) == w.definitions(id),
{
}

pub broadcast proof fn lemma_note_keeps(w: WriterView, instruction: InstructionView)
    requires
        instruction.result_id is None,
    ensures
        w.is_kept_by(#[trigger] w.note(instruction)),
{
    reveal(WriterView::is_kept_by);
    lemma_nothing_new(w, w.note(instruction));
}

pub broadcast proof fn lemma_note_numbers(w: WriterView, instruction: InstructionView, id: Word)
    ensures
        #[trigger] w.note(instruction).definitions(id) == w.definitions(id),
{
}

pub broadcast proof fn lemma_name_keeps(w: WriterView, id: Word, name: Option<String>)
    ensures
        w.is_kept_by(#[trigger] w.name(id, name)),
{
    reveal(WriterView::is_kept_by);
    lemma_nothing_new(w, w.name(id, name));
}

pub broadcast proof fn lemma_name_numbers(w: WriterView, named: Word, name: Option<String>, id: Word)
    ensures
        #[trigger] w.name(named, name).definitions(id) == w.definitions(id),
{
}

/// A type is remembered under an identifier that was handed out before others.
pub broadcast proof fn lemma_new_type_keeps(
    w: WriterView,
    b: WriterView,
    v: WriterView,
    ty: LookupType,
    id: Word,
)
    requires
        #[trigger] w.generate_id() == Outcome::Done(b, id),
        w.is_kept_by(v),
        #[trigger] b.is_remembered_by(v),
        is_stable(ty) ==> !v.lookup_type.contains_key(ty),
    ensures
        w.is_kept_by(#[trigger] v.remember_type(ty, id)),
{
    reveal(WriterView::is_kept_by);
    lemma_new_type(w, b, v, ty, id);
}

/// A type is remembered under an identifier that was handed out before others, in two ways.
pub broadcast proof fn lemma_new_type_twice_keeps(
    w: WriterView,
    b: WriterView,
    v: WriterView,
    other: LookupType,
    ty: LookupType,
    id: Word,
)
    requires
        #[trigger] w.generate_id() == Outcome::Done(b, id),
        w.is_kept_by(v),
        #[trigger] b.is_remembered_by(v),
        !is_stable(other),
        ty is Handle,
        !v.lookup_type.contains_key(ty),
    ensures
        w.is_kept_by(#[trigger] v.remember_type(other, id).remember_type(ty, id)),
{
    reveal(WriterView::is_kept_by);
    lemma_new_type_twice(w, b, v, other, ty, id);
}

pub broadcast proof fn lemma_remember_type_numbers(w: WriterView, ty: LookupType, of: Word, id: Word)
    ensures
        #[trigger] w.remember_type(ty, of).definitions(id) == w.definitions(id),
{
}

pub broadcast proof fn lemma_remember_constant_keeps(w: WriterView, handle: Handle<Constant>, id: Word)
    requires
        !w.lookup_constant.contains_key(handle),
    ensures
        w.is_kept_by(#[trigger] w.remember_constant(handle, id)),
{
    reveal(WriterView::is_kept_by);
    lemma_nothing_new(w, w.remember_constant(handle, id));
}

pub broadcast proof fn lemma_remember_constant_numbers(
    w: WriterView,
    handle: Handle<Constant>,
    of: Word,
    id: Word,
)
    ensures
        #[trigger] w.remember_constant(handle, of).definitions(id) == w.definitions(id),
{
}

pub broadcast proof fn lemma_remember_global_variable_keeps(
    w: WriterView,
    handle: Handle<GlobalVariable>,
    id: Word,
    class: spirv::StorageClass,
)
    requires
        !w.lookup_global_variable.contains_key(handle),
    ensures
        w.is_kept_by(#[trigger] w.remember_global_variable(handle, id, class)),
{
    reveal(WriterView::is_kept_by);
    lemma_nothing_new(w, w.remember_global_variable(handle, id, class));
}

pub broadcast proof fn lemma_remember_global_variable_numbers(
    w: WriterView,
    handle: Handle<GlobalVariable>,
    of: Word,
    class: spirv::StorageClass,
    id: Word,
)
    ensures
        #[trigger] w.remember_global_variable(handle, of, class).definitions(id)
            == w.definitions(id),
{
}

/// A type of functions is remembered under a new identifier.
pub broadcast proof fn lemma_new_function_type_keeps(
    w: WriterView,
    b: WriterView,
    v: WriterView,
    parameter_type_ids: Seq<Word>,
    return_type_id: Word,
    id: Word,
)
    requires
        #[trigger] w.generate_id() == Outcome::Done(b, id),
        w.is_kept_by(v),
        #[trigger] b.is_remembered_by(v),
        v.lookup_function_type == w.lookup_function_type,
        !w.lookup_function_type.contains_key((parameter_type_ids, return_type_id)),
    ensures
        w.is_kept_by(
            #[trigger] v.remember_function_type(parameter_type_ids, return_type_id, id),
        ),
{
    reveal(WriterView::is_kept_by);
    lemma_new_function_type(w, b, v, parameter_type_ids, return_type_id, id);
}

pub broadcast proof fn lemma_remember_function_type_numbers(
    w: WriterView,
    parameter_type_ids: Seq<Word>,
    return_type_id: Word,
    of: Word,
    id: Word,
)
    ensures
        #[trigger] w.remember_function_type(parameter_type_ids, return_type_id, of).definitions(id)
            == w.definitions(id),
{
}

pub broadcast proof fn lemma_define_numbers(w: WriterView, list: Seq<InstructionView>, id: Word)
    ensures
        #[trigger] w.define(list).definitions(id) == w.definitions(id) + definitions(list, id),
{
    lemma_definitions_add(w.logical_layout.function_definitions, list, id);
}

/// The identifier that was handed out, and the state in which it was.
pub proof fn lemma_generate(w: WriterView)
    ensures
        w.generate_id() matches Outcome::Done(v, id) ==> w.is_kept_by(v) && v.id_count
            == w.id_count + 1 && id == v.id_count && forall|x: Word| #[trigger]
            v.definitions(x) == w.definitions(x),
        !(w.generate_id() is Fail),
{
    reveal(WriterView::is_kept_by);
    if let Outcome::Done(v, _) = w.generate_id() {
        lemma_nothing_new(w, v);
    }
}

impl BlockView {
    /// How many instructions define `id`.
    pub open spec fn definitions(self, id: Word) -> nat {
        definitions(self.body, id) + (if self.label_id == id {
            1nat
        } else {
            0nat
        }) + (match self.termination {
            Some(instruction) => defines(instruction, id),
            None => 0,
        })
    }

    /// Whether `later` is this block with more instructions.
    pub open spec fn is_start_of(self, later: BlockView) -> bool {
        &&& later.label_id == self.label_id
        &&& self.body.is_prefix_of(later.body)
        &&& later.termination == self.termination
    }
}

impl Cursor {
    /// How many instructions define `id`.
    pub open spec fn definitions(self, id: Word) -> nat {
        self.writer.definitions(id) + self.block.definitions(id)
    }

    /// Whether all that is known and written here is still so in `later`.
    #[verifier::opaque]
    pub open spec fn is_kept_by(self, later: Cursor) -> bool {
        self.writer.is_kept_by(later.writer) && self.block.is_start_of(later.block)
    }

    pub open spec fn grows_to(self, later: Cursor) -> bool {
        &&& self.is_kept_by(later)
        &&& self.writer.id_count <= later.writer.id_count
        &&& forall|id: Word|
            #![trigger self.definitions(id)]
            #![trigger later.definitions(id)]
            numbered(
                self.writer.id_count,
                later.writer.id_count,
                self.definitions(id),
                later.definitions(id),
                id,
            )
    }

    /// Whether a step leads to a state that the writer grows to, but for the definition of `id`
    /// if the step is done.
    pub open spec fn grows_by_defining<T>(self, step: Outcome<Cursor, T>, id: Word) -> bool {
        match step {
            Outcome::Done(later, _) => {
                &&& self.is_kept_by(later)
                &&& self.writer.id_count <= later.writer.id_count
                &&& forall|x: Word|
                    #![trigger self.definitions(x)]
                    #![trigger later.definitions(x)]
                    numbered(
                        self.writer.id_count,
                        later.writer.id_count,
                        self.definitions(x) + if x == id {
                            1nat
                        } else {
                            0nat
                        },
                        later.definitions(x),
                        x,
                    )
            },
            Outcome::Fail(later, _) => self.grows_to(later),
            Outcome::Stuck => true,
        }
    }

    /// Whether a step leads to a state that the writer grows to.
    pub open spec fn grows_by<T>(self, step: Outcome<Cursor, T>) -> bool {
        match step {
            Outcome::Done(later, _) => self.grows_to(later),
            Outcome::Fail(later, _) => self.grows_to(later),
            Outcome::Stuck => true,
        }
    }
}

pub broadcast proof fn lemma_cursor_kept(c: Cursor)
    ensures
        #[trigger] c.is_kept_by(c),
{
    broadcast use group_growth;
    reveal(Cursor::is_kept_by);
}

pub broadcast proof fn lemma_cursor_kept_by_all(a: Cursor, b: Cursor, c: Cursor)
    requires
        #[trigger] a.is_kept_by(b),
        #[trigger] b.is_kept_by(c),
    ensures
        a.is_kept_by(c),
{
    broadcast use group_growth;
    reveal(Cursor::is_kept_by);
}

pub broadcast proof fn lemma_emit_keeps(c: Cursor, instruction: InstructionView)
    ensures
        c.is_kept_by(#[trigger] c.emit(instruction)),
{
    broadcast use group_growth;
    reveal(Cursor::is_kept_by);
}

pub broadcast proof fn lemma_emit_numbers(c: Cursor, instruction: InstructionView, id: Word)
    ensures
        #[trigger] c.emit(instruction).definitions(id) == c.definitions(id) + defines(
            instruction,
            id,
        ),
{
    lemma_definitions_push(c.block.body, instruction, id);
}

/// A step of the writer that leaves the block as it is.
pub proof fn lemma_beside<T>(c: Cursor, step: Outcome<WriterView, T>)
    requires
        c.writer.grows_by(step),
    ensures
        c.grows_by(beside(step, c.block)),
{
    reveal(Cursor::is_kept_by);
    match beside(step, c.block) {
        Outcome::Done(d, _) => {
            assert(forall|id: Word| #[trigger]
                d.definitions(id) == d.writer.definitions(id) + c.block.definitions(id));
        },
        Outcome::Fail(d, _) => {
            assert(forall|id: Word| #[trigger]
                d.definitions(id) == d.writer.definitions(id) + c.block.definitions(id));
        },
        Outcome::Stuck => {},
    }
}

/// A step of the writer that leaves the block as it is, and defines `id`.
pub proof fn lemma_beside_defining<T>(c: Cursor, step: Outcome<WriterView, T>, id: Word)
    requires
        c.writer.grows_by_defining(step, id),
    ensures
        c.grows_by_defining(beside(step, c.block), id),
{
    reveal(Cursor::is_kept_by);
    match beside(step, c.block) {
        Outcome::Done(d, _) => {
            assert(forall|x: Word| #[trigger]
                d.definitions(x) == d.writer.definitions(x) + c.block.definitions(x));
        },
        Outcome::Fail(d, _) => {
            assert(forall|x: Word| #[trigger]
                d.definitions(x) == d.writer.definitions(x) + c.block.definitions(x));
        },
        Outcome::Stuck => {},
    }
}

/// The identifier that was handed out, and the state in which it was.
pub proof fn lemma_cursor_generate(c: Cursor)
    ensures
        c.generate_id() matches Outcome::Done(d, id) ==> c.is_kept_by(d) && d.writer.id_count
            == c.writer.id_count + 1 && id == d.writer.id_count && forall|x: Word| #[trigger]
            d.definitions(x) == c.definitions(x),
        !(c.generate_id() is Fail),
{
    reveal(Cursor::is_kept_by);
    lemma_generate(c.writer);
}

pub broadcast group group_cursor {
    lemma_cursor_kept,
    lemma_cursor_kept_by_all,
    lemma_emit_keeps,
    lemma_emit_numbers,
}

pub broadcast group group_growth {
    lemma_kept,
    lemma_kept_by_all,
    lemma_declare_keeps,
    lemma_declare_numbers,
    lemma_kept_is_remembered,
    lemma_remembered_by_all,
    lemma_annotate_keeps,
    lemma_annotate_remembers,
    lemma_annotate_numbers,
    lemma_note_keeps,
    lemma_note_numbers,
    lemma_name_keeps,
    lemma_name_numbers,
    lemma_new_type_keeps,
    lemma_new_type_twice_keeps,
    lemma_remember_type_numbers,
    lemma_remember_constant_keeps,
    lemma_remember_constant_numbers,
    lemma_remember_global_variable_keeps,
    lemma_remember_global_variable_numbers,
    lemma_new_function_type_keeps,
    lemma_remember_function_type_numbers,
    lemma_define_numbers,
}

} // verus!

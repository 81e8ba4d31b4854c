//! Laws of the writer as a whole.

use crate::arena::Handle;
use crate::headers::lemma_capability_number;
use crate::ir::{EntryPoint, Function as IrFunction, GlobalUse, GlobalVariable, Header, Module};
use crate::layouter::type_layouts;
use crate::spv::function::FunctionView;
use crate::spv::growth::{
    defines, definitions, gains_remarks, lemma_definitions_add, lemma_definitions_push,
    lemma_gains_remarks, lemma_decorated_by_all,
};
use crate::spv::growth_declarations::{lemma_global_variable_grows, lemma_type_id_grows};
use crate::spv::growth_statements::{lemma_function_grows, writes_function};
use crate::spv::instruction::InstructionView;
use crate::spv::instructions::{
    op_capability, op_entry_point, op_ext_inst_import, op_function_end, op_memory_model, op_name,
    op_source,
};
use crate::spv::layout::LogicalLayoutView;
use crate::spv::lookup::LookupType;
use crate::spv::model::{capability_declarations, Outcome, WriterFlags, WriterView};
use crate::spv::module::{execution_model, handle_at, is_interface};
use crate::spv::remembering::{lemma_nothing_new, lemma_remembered_by_all};
use crate::spv::words::Word;
use spirv_headers as spirv;
use vstd::prelude::*;

verus! {

impl WriterView {
    /// Whether all that was written and remembered here still is in `later`, and the instructions
    /// that `later` holds besides define identifiers that were handed out in between, each of
    /// them once.
    pub open spec fn is_continued_by(self, later: WriterView) -> bool {
        let a = self.logical_layout;
        let b = later.logical_layout;
        &&& self.physical_layout == later.physical_layout
        &&& self.capabilities == later.capabilities
        &&& self.flags == later.flags
        &&& a.declarations.is_prefix_of(b.declarations)
        &&& a.function_definitions.is_prefix_of(b.function_definitions)
        &&& a.entry_points.is_prefix_of(b.entry_points)
        &&& a.execution_modes.is_prefix_of(b.execution_modes)
        &&& b == (LogicalLayoutView {
            declarations: b.declarations,
            function_definitions: b.function_definitions,
            entry_points: b.entry_points,
            execution_modes: b.execution_modes,
            ..a
        })
        &&& gains_remarks(self.debugs, later.debugs)
        &&& self.is_decorated_by(later)
        &&& self.flags != WriterFlags::DEBUG ==> self.debugs == later.debugs
        &&& self.is_numbered_by(later)
        &&& self.is_remembered_by(later)
    }

    /// Whether a step leads to a state that the writer continues in.
    pub open spec fn continues_by<T>(self, step: Outcome<WriterView, T>) -> bool {
        match step {
            Outcome::Done(later, _) => self.is_continued_by(later),
            Outcome::Fail(later, _) => self.is_continued_by(later),
            Outcome::Stuck => true,
        }
    }

    /// Whether no identifier is defined twice, those that are defined were handed out, and
    /// neither names nor decorations define any.
    pub open spec fn is_distinct(self) -> bool {
        &&& forall|id: Word| #[trigger] self.definitions(id) <= 1
        &&& forall|id: Word| #[trigger] self.definitions(id) > 0 ==> 0 < id <= self.id_count
        &&& gains_remarks(Seq::empty(), self.debugs)
        &&& gains_remarks(Seq::empty(), self.annotations)
    }
}

proof fn lemma_grown_is_continued(a: WriterView, b: WriterView)
    requires
        a.grows_to(b),
    ensures
        a.is_continued_by(b),
{
    reveal(WriterView::is_kept_by);
}

proof fn lemma_continued_by_all(a: WriterView, b: WriterView, c: WriterView)
    requires
        a.is_continued_by(b),
        b.is_continued_by(c),
    ensures
        a.is_continued_by(c),
{
    lemma_gains_remarks(a.debugs, b.debugs, c.debugs);
    lemma_decorated_by_all(a, b, c);
    lemma_remembered_by_all(a, b, c);
}

proof fn lemma_then<T>(a: WriterView, b: WriterView, step: Outcome<WriterView, T>)
    requires
        a.is_continued_by(b),
        b.continues_by(step),
    ensures
        a.continues_by(step),
{
    match step {
        Outcome::Done(c, _) => {
            lemma_continued_by_all(a, b, c);
        },
        Outcome::Fail(c, _) => {
            lemma_continued_by_all(a, b, c);
        },
        Outcome::Stuck => {},
    }
}

proof fn lemma_grown_step<T>(w: WriterView, step: Outcome<WriterView, T>)
    requires
        w.grows_by(step),
    ensures
        w.continues_by(step),
{
    match step {
        Outcome::Done(v, _) => {
            lemma_grown_is_continued(w, v);
        },
        Outcome::Fail(v, _) => {
            lemma_grown_is_continued(w, v);
        },
        Outcome::Stuck => {},
    }
}

proof fn lemma_function_continues(w: WriterView, step: Outcome<WriterView, Word>)
    requires
        writes_function(w, step),
    ensures
        w.continues_by(step),
        step matches Outcome::Done(v, _) ==> v.logical_layout.entry_points
            == w.logical_layout.entry_points,
{
    match step {
        Outcome::Done(v, id) => {
            let (x, function) = choose|x: WriterView, function: FunctionView|
                w.is_kept_by(x) && function.is_whole(id) && v == #[trigger] x.define(
                    function.instructions().push(op_function_end()),
                );
            reveal(WriterView::is_kept_by);
            lemma_nothing_new(x, v);
            lemma_remembered_by_all(w, x, v);
            let before = w.logical_layout.function_definitions;
            assert(before =~= v.logical_layout.function_definitions.subrange(
                0,
                before.len() as int,
            ));
        },
        Outcome::Fail(v, _) => {
            lemma_grown_is_continued(w, v);
        },
        Outcome::Stuck => {},
    }
}

proof fn lemma_interface_continues(
    w: WriterView,
    module: Module,
    usage: Seq<GlobalUse>,
    i: nat,
    ids: Seq<Word>,
)
    ensures
        w.continues_by(w.interface_ids(module, usage, i, ids)),
        w.interface_ids(module, usage, i, ids) matches Outcome::Done(v, _)
            ==> v.logical_layout.entry_points == w.logical_layout.entry_points,
    decreases usage.len() - i,
{
    lemma_nothing_new(w, w);
    reveal(WriterView::is_kept_by);
    if i < module.global_variables.count() && i < usage.len() {
        if is_interface(module.global_variables.data@[i as int], usage[i as int]) {
            let step = w.global_variable_id(module, handle_at(i));
            lemma_global_variable_grows(w, module, handle_at(i));
            lemma_grown_step(w, step);
            if let Outcome::Done(v, variable) = step {
                lemma_interface_continues(v, module, usage, i + 1, ids.push(variable.0));
                lemma_then(w, v, v.interface_ids(module, usage, i + 1, ids.push(variable.0)));
            }
        } else {
            lemma_interface_continues(w, module, usage, i + 1, ids);
        }
    }
}

proof fn lemma_set_mode_continues(w: WriterView, instruction: InstructionView)
    requires
        instruction.result_id is None,
    ensures
        w.is_continued_by(w.set_mode(instruction)),
{
    let v = w.set_mode(instruction);
    lemma_nothing_new(w, v);
    assert forall|id: Word|
        #![trigger w.definitions(id)]
        #![trigger v.definitions(id)]
        v.definitions(id) == w.definitions(id) by {
        lemma_definitions_push(w.logical_layout.execution_modes, instruction, id);
    }
}

proof fn lemma_enter_continues(w: WriterView, instruction: InstructionView)
    requires
        instruction.result_id is None,
    ensures
        w.is_continued_by(w.enter(instruction)),
{
    let v = w.enter(instruction);
    lemma_nothing_new(w, v);
    assert forall|id: Word|
        #![trigger w.definitions(id)]
        #![trigger v.definitions(id)]
        v.definitions(id) == w.definitions(id) by {
        lemma_definitions_push(w.logical_layout.entry_points, instruction, id);
    }
}

proof fn lemma_note_continues(w: WriterView, instruction: InstructionView)
    requires
        instruction.result_id is None,
    ensures
        w.is_continued_by(w.note(instruction)),
{
    let v = w.note(instruction);
    lemma_nothing_new(w, v);
    assert(forall|id: Word|
        #![trigger w.definitions(id)]
        #![trigger v.definitions(id)]
        v.definitions(id) == w.definitions(id));
}

proof fn lemma_stage_mode_continues(w: WriterView, entry_point: EntryPoint, function_id: Word)
    ensures
        w.continues_by(w.stage_mode(entry_point, function_id)),
{
    lemma_nothing_new(w, w);
    if let Outcome::Done(v, _) = w.stage_mode(entry_point, function_id) {
        if !(entry_point.stage is Vertex) {
            let modes = v.logical_layout.execution_modes;
            lemma_set_mode_continues(w, modes.last());
        }
    }
}

proof fn lemma_entry_point_continues(w: WriterView, module: Module, entry_point: EntryPoint)
    ensures
        w.continues_by(w.entry_point(module, entry_point)),
        w.entry_point(module, entry_point) matches Outcome::Done(v, instruction)
            ==> v.logical_layout.entry_points == w.logical_layout.entry_points
            && declares_entry_point(instruction, entry_point),
{
    reveal(WriterView::entry_point);
    reveal(WriterView::is_kept_by);
    let usage = entry_point.function.global_usage@;
    let one = w.function(module, entry_point.function);
    lemma_function_grows(w, module, entry_point.function);
    lemma_function_continues(w, one);
    if let Outcome::Done(w1, id) = one {
        let two = w1.interface_ids(module, usage, 0, Seq::empty());
        lemma_interface_continues(w1, module, usage, 0, Seq::empty());
        lemma_then(w, w1, two);
        if let Outcome::Done(w2, interface_ids) = two {
            let three = w2.stage_mode(entry_point, id);
            lemma_stage_mode_continues(w2, entry_point, id);
            lemma_then(w, w2, three);
            if let Outcome::Done(w3, _) = three {
                let name = op_name(id, entry_point.name@);
                lemma_note_continues(w3, name);
                lemma_continued_by_all(w, w3, w3.note(name));
                assert(declares_entry_point(
                    op_entry_point(
                        execution_model(entry_point.stage),
                        id,
                        entry_point.name@,
                        interface_ids,
                    ),
                    entry_point,
                ));
            }
        }
    }
}

/// Whether an instruction declares an entry point, with some function and some variables.
pub open spec fn declares_entry_point(instruction: InstructionView, entry_point: EntryPoint) -> bool {
    exists|id: Word, interface_ids: Seq<Word>|
        instruction == #[trigger] op_entry_point(
            execution_model(entry_point.stage),
            id,
            entry_point.name@,
            interface_ids,
        )
}

proof fn lemma_functions_continue(w: WriterView, module: Module, i: nat)
    ensures
        w.continues_by(w.functions(module, i)),
        w.functions(module, i) matches Outcome::Done(v, _) ==> v.logical_layout.entry_points
            == w.logical_layout.entry_points,
    decreases module.functions.count() - i,
{
    lemma_nothing_new(w, w);
    reveal(WriterView::is_kept_by);
    if i < module.functions.count() {
        let step = w.function(module, module.functions.data@[i as int]);
        lemma_function_grows(w, module, module.functions.data@[i as int]);
        lemma_function_continues(w, step);
        if let Outcome::Done(v, id) = step {
            let x = v.remember_function(handle_at(i), id);
            assert(forall|id: Word|
                #![trigger v.definitions(id)]
                #![trigger x.definitions(id)]
                v.definitions(id) == x.definitions(id));
            lemma_nothing_new(v, x);
            lemma_continued_by_all(w, v, x);
            lemma_functions_continue(x, module, i + 1);
            lemma_then(w, x, x.functions(module, i + 1));
        }
    }
}

/// Whether `list` declares the entry points from the `i`-th on, behind those of `start`.
pub open spec fn declares_entry_points(
    start: Seq<InstructionView>,
    list: Seq<InstructionView>,
    entry_points: Seq<EntryPoint>,
    i: nat,
) -> bool {
    &&& list.len() == start.len() + entry_points.len() - i
    &&& start.is_prefix_of(list)
    &&& forall|k: int|
        i <= k < entry_points.len() ==> declares_entry_point(
            list[start.len() + k - i],
            #[trigger] entry_points[k],
        )
}

proof fn lemma_entry_points_continue(w: WriterView, module: Module, i: nat)
    requires
        i <= module.entry_points@.len(),
    ensures
        w.continues_by(w.entry_points(module, i)),
        w.entry_points(module, i) matches Outcome::Done(v, _) ==> declares_entry_points(
            w.logical_layout.entry_points,
            v.logical_layout.entry_points,
            module.entry_points@,
            i,
        ),
    decreases module.entry_points@.len() - i,
{
    lemma_nothing_new(w, w);
    if i < module.entry_points@.len() {
        let entry_point = module.entry_points@[i as int];
        let step = w.entry_point(module, entry_point);
        lemma_entry_point_continues(w, module, entry_point);
        if let Outcome::Done(v, instruction) = step {
            let x = v.enter(instruction);
            lemma_enter_continues(v, instruction);
            lemma_continued_by_all(w, v, x);
            lemma_entry_points_continue(x, module, i + 1);
            lemma_then(w, x, x.entry_points(module, i + 1));
            if let Outcome::Done(y, _) = x.entry_points(module, i + 1) {
                let start = w.logical_layout.entry_points;
                let more = x.logical_layout.entry_points;
                let list = y.logical_layout.entry_points;
                assert(more == start.push(instruction));
                assert(list[start.len() as int] == list.subrange(0, more.len() as int)[
                    start.len() as int
                ]);
                assert(start =~= list.subrange(0, more.len() as int).subrange(
                    0,
                    start.len() as int,
                ));
                assert forall|k: int| i <= k < module.entry_points@.len() implies
                    declares_entry_point(
                    list[start.len() + k - i],
                    #[trigger] module.entry_points@[k],
                ) by {
                    if k > i {
                        assert(list[more.len() + k - (i + 1)] == list[start.len() + k - i]);
                    }
                }
            }
        }
    }
}

pub proof fn lemma_storage_types(w: WriterView, module: Module, n: nat)
    ensures
        w.storage_types(module, n) == (WriterView {
            storage_type_handles: w.storage_types(module, n).storage_type_handles,
            ..w
        }),
    decreases n,
{
    if n > 0 {
        lemma_storage_types(w, module, (n - 1) as nat);
    }
}

/// A list in which no instruction defines an identifier.
proof fn lemma_remarks(list: Seq<InstructionView>, id: Word)
    requires
        forall|i: int| 0 <= i < list.len() ==> (#[trigger] list[i]).result_id is None,
    ensures
        definitions(list, id) == 0,
    decreases list.len(),
{
    if list.len() > 0 {
        lemma_remarks(list.drop_last(), id);
    }
}

/// The state in which the functions and entry points of a module are written.
pub open spec fn contents(w: WriterView, module: Module) -> Outcome<WriterView, ()> {
    w.prologue().bind(
        |w: WriterView, _u: ()|
            w.storage_types(module, module.global_variables.count()).functions(module, 0).bind(
                |w: WriterView, _u: ()| w.entry_points(module, 0),
            ),
    )
}

proof fn lemma_prologue(w: WriterView)
    ensures
        w.prologue() matches Outcome::Done(v, _) ==> {
            &&& w.is_numbered_by(v)
            &&& w.is_remembered_by(v)
            &&& v.id_count == w.id_count + 1
            &&& v.flags == w.flags
            &&& v.capabilities == w.capabilities
            &&& v.physical_layout == w.physical_layout
            &&& v.logical_layout == (LogicalLayoutView {
                ext_inst_imports: w.logical_layout.ext_inst_imports.push(
                    op_ext_inst_import(v.id_count, "GLSL.std.450"@),
                ),
                ..w.logical_layout
            })
            &&& v.annotations == w.annotations
            &&& v.debugs == if w.flags == WriterFlags::DEBUG {
                w.debugs.push(op_source(spirv::SourceLanguage::GLSL, 450))
            } else {
                w.debugs
            }
        },
        !(w.prologue() is Fail),
{
    if let Outcome::Done(v, _) = w.prologue() {
        let import = op_ext_inst_import(v.id_count, "GLSL.std.450"@);
        lemma_nothing_new(w, v);
        assert forall|id: Word|
            #![trigger w.definitions(id)]
            #![trigger v.definitions(id)]
            v.definitions(id) == w.definitions(id) + defines(import, id) by {
            lemma_definitions_push(w.logical_layout.ext_inst_imports, import, id);
        }
    }
}

proof fn lemma_contents(w: WriterView, module: Module)
    ensures
        match contents(w, module) {
            Outcome::Done(v, _) => {
                &&& continues_after_prologue(w, v)
                &&& declares_entry_points(
                    w.logical_layout.entry_points,
                    v.logical_layout.entry_points,
                    module.entry_points@,
                    0,
                )
            },
            Outcome::Fail(v, _) => continues_after_prologue(w, v),
            Outcome::Stuck => true,
        },
{
    lemma_prologue(w);
    if let Outcome::Done(w1, _) = w.prologue() {
        let n = module.global_variables.count();
        let w2 = w1.storage_types(module, n);
        lemma_storage_types(w1, module, n);
        assert(forall|id: Word|
            #![trigger w1.definitions(id)]
            #![trigger w2.definitions(id)]
            w1.definitions(id) == w2.definitions(id));
        let step = w2.functions(module, 0);
        lemma_functions_continue(w2, module, 0);
        if let Outcome::Done(w3, _) = step {
            lemma_entry_points_continue(w3, module, 0);
            lemma_then(w2, w3, w3.entry_points(module, 0));
        }
        match contents(w, module) {
            Outcome::Done(v, _) => {
                let x = WriterView { storage_type_handles: v.storage_type_handles, ..w1 };
                lemma_nothing_new(x, w2);
                lemma_remembered_by_all(x, w2, v);
            },
            Outcome::Fail(v, _) => {
                let x = WriterView { storage_type_handles: v.storage_type_handles, ..w1 };
                lemma_nothing_new(x, w2);
                lemma_remembered_by_all(x, w2, v);
            },
            Outcome::Stuck => {},
        }
    }
}

/// Whether `later` continues what `w` wrote, behind the import of the extended instructions.
pub open spec fn continues_after_prologue(w: WriterView, later: WriterView) -> bool {
    w.prologue() matches Outcome::Done(v, _) && (WriterView {
        storage_type_handles: later.storage_type_handles,
        ..v
    }).is_continued_by(later)
}

/// No identifier is defined twice in a module, and each that is defined lies below the bound
/// that the module declares. This also holds of what is left behind when a module is refused,
/// so that the writer can go on.
pub proof fn law_identifiers_are_distinct(w: WriterView, module: Module)
    requires
        w.is_distinct(),
    ensures
        match w.module(module) {
            Outcome::Done(v, _) => {
                &&& v.is_distinct()
                &&& v.physical_layout.bound == v.id_count + 1
                &&& forall|id: Word| #[trigger]
                    definitions(v.logical_layout.instructions(), id) <= 1
                &&& forall|id: Word| #[trigger]
                    definitions(v.logical_layout.instructions(), id) > 0 ==> 0 < id
                        < v.physical_layout.bound
            },
            Outcome::Fail(v, _) => v.is_distinct(),
            Outcome::Stuck => true,
        },
{
    if let Some(layouts) = type_layouts(
        module.types.data@,
        module.constants,
        module.types.count(),
    ) {
        let start = WriterView { layouts, ..w };
        assert(forall|id: Word|
            #![trigger w.definitions(id)]
            #![trigger start.definitions(id)]
            w.definitions(id) == start.definitions(id));
        lemma_contents(start, module);
        match contents(start, module) {
            Outcome::Done(v, _) => {
                lemma_contents_distinct(start, v);
                lemma_epilogue_distinct(v);
                if let Outcome::Done(x, _) = v.epilogue() {
                    assert(start.logical_layout(module) == v.epilogue());
                    let y = x.with_bound();
                    assert(forall|id: Word|
                        #![trigger x.definitions(id)]
                        #![trigger y.definitions(id)]
                        x.definitions(id) == y.definitions(id));
                    assert forall|id: Word| #[trigger]
                        definitions(y.logical_layout.instructions(), id) == x.definitions(id) by {
                        lemma_layout_instructions(y.logical_layout, id);
                    }
                }
            },
            Outcome::Fail(v, _) => {
                lemma_contents_distinct(start, v);
            },
            Outcome::Stuck => {},
        }
    }
}

proof fn lemma_layout_instructions(layout: LogicalLayoutView, id: Word)
    ensures
        definitions(layout.instructions(), id) == layout.definitions(id),
{
    let a = layout.capabilities;
    let b = a + layout.extensions;
    let c = b + layout.ext_inst_imports;
    let d = c + layout.memory_model;
    let e = d + layout.entry_points;
    let f = e + layout.execution_modes;
    let g = f + layout.debugs;
    let h = g + layout.annotations;
    let i = h + layout.declarations;
    let j = i + layout.function_declarations;
    lemma_definitions_add(a, layout.extensions, id);
    lemma_definitions_add(b, layout.ext_inst_imports, id);
    lemma_definitions_add(c, layout.memory_model, id);
    lemma_definitions_add(d, layout.entry_points, id);
    lemma_definitions_add(e, layout.execution_modes, id);
    lemma_definitions_add(f, layout.debugs, id);
    lemma_definitions_add(g, layout.annotations, id);
    lemma_definitions_add(h, layout.declarations, id);
    lemma_definitions_add(i, layout.function_declarations, id);
    lemma_definitions_add(j, layout.function_definitions, id);
}

proof fn lemma_contents_distinct(w: WriterView, later: WriterView)
    requires
        w.is_distinct(),
        continues_after_prologue(w, later),
    ensures
        later.is_distinct(),
{
    lemma_prologue(w);
    if let Outcome::Done(v, _) = w.prologue() {
        let x = WriterView { storage_type_handles: later.storage_type_handles, ..v };
        assert(forall|id: Word|
            #![trigger v.definitions(id)]
            #![trigger x.definitions(id)]
            v.definitions(id) == x.definitions(id));
        lemma_gains_remarks(Seq::empty(), x.debugs, later.debugs);
        lemma_gains_remarks(Seq::empty(), x.annotations, later.annotations);
    }
}

proof fn lemma_epilogue_distinct(w: WriterView)
    requires
        w.is_distinct(),
    ensures
        match w.epilogue() {
            Outcome::Done(v, _) => v.is_distinct() && v.id_count == w.id_count,
            Outcome::Fail(v, _) => v.is_distinct(),
            Outcome::Stuck => true,
        },
{
    let v = w.require_all(w.capabilities);
    let declared = capability_declarations(w.capabilities);
    assert forall|id: Word|
        #![trigger w.definitions(id)]
        #![trigger v.definitions(id)]
        v.definitions(id) == w.definitions(id) by {
        lemma_definitions_add(w.logical_layout.capabilities, declared, id);
        lemma_remarks(declared, id);
    }
    if let Outcome::Done(x, _) = w.epilogue() {
        let model = op_memory_model(spirv::AddressingModel::Logical, spirv::MemoryModel::GLSL450);
        let a = v.logical_layout;
        assert forall|id: Word|
            #![trigger v.definitions(id)]
            #![trigger x.definitions(id)]
            x.definitions(id) == v.definitions(id) by {
            lemma_definitions_push(a.memory_model, model, id);
            lemma_definitions_add(a.debugs, v.debugs, id);
            lemma_definitions_add(a.annotations, v.annotations, id);
            lemma_remarks(v.debugs, id);
            lemma_remarks(v.annotations, id);
        }
    }
}

/// A writer that has not written anything defines no identifier.
pub proof fn law_initial_is_distinct(
    header: Header,
    flags: WriterFlags,
    capabilities: Seq<spirv::Capability>,
)
    ensures
        WriterView::initial(header, flags, capabilities).is_distinct(),
{
    assert(forall|id: Word|
        #[trigger] WriterView::initial(header, flags, capabilities).definitions(id) == 0);
}

/// The parts of a module that a new writer writes: the given capabilities in their order, the
/// import of the extended instructions under the first identifier, one memory model, and the
/// entry points in their order; names only if they were asked for; no extensions and no
/// function declarations without a body.
pub proof fn law_parts_of_module(
    header: Header,
    flags: WriterFlags,
    capabilities: Seq<spirv::Capability>,
    module: Module,
)
    ensures
        WriterView::initial(header, flags, capabilities).module(module) matches Outcome::Done(
            v,
            words,
        ) ==> {
            let layout = v.logical_layout;
            &&& layout.capabilities == capability_declarations(capabilities)
            &&& layout.extensions == Seq::<InstructionView>::empty()
            &&& layout.ext_inst_imports == seq![op_ext_inst_import(1, "GLSL.std.450"@)]
            &&& layout.memory_model == seq![
                op_memory_model(spirv::AddressingModel::Logical, spirv::MemoryModel::GLSL450),
            ]
            &&& declares_entry_points(
                Seq::empty(),
                layout.entry_points,
                module.entry_points@,
                0,
            )
            &&& flags == WriterFlags::DEBUG ==> layout.debugs.len() > 0 && layout.debugs[0]
                == op_source(spirv::SourceLanguage::GLSL, 450)
            &&& flags != WriterFlags::DEBUG ==> layout.debugs == Seq::<InstructionView>::empty()
            &&& layout.function_declarations == Seq::<InstructionView>::empty()
        },
{
    let w = WriterView::initial(header, flags, capabilities);
    if let Some(layouts) = type_layouts(
        module.types.data@,
        module.constants,
        module.types.count(),
    ) {
        let start = WriterView { layouts, ..w };
        lemma_contents(start, module);
        lemma_prologue(start);
        if let Outcome::Done(v, _) = contents(start, module) {
            assert(start.logical_layout(module) == v.epilogue());
            if let Outcome::Done(p, _) = start.prologue() {
                assert(gains_remarks(p.debugs, v.debugs));
                if let Outcome::Done(x, _) = v.epilogue() {
                    let layout = x.logical_layout;
                    let none = Seq::<InstructionView>::empty();
                    assert(layout.capabilities =~= none + capability_declarations(capabilities));
                    assert(layout.capabilities =~= capability_declarations(capabilities));
                    assert(layout.ext_inst_imports =~= seq![
                        op_ext_inst_import(1, "GLSL.std.450"@),
                    ]);
                    assert(layout.memory_model =~= seq![
                        op_memory_model(
                            spirv::AddressingModel::Logical,
                            spirv::MemoryModel::GLSL450,
                        ),
                    ]);
                    if flags == WriterFlags::DEBUG {
                        assert(layout.debugs =~= v.debugs);
                        assert(p.debugs[0] == v.debugs.subrange(0, p.debugs.len() as int)[0]);
                    } else {
                        assert(layout.debugs =~= none);
                    }
                }
            }
        }
    }
}

impl LogicalLayoutView {
    /// Whether each part of `later` starts with what it holds here.
    pub open spec fn stands_in(self, later: LogicalLayoutView) -> bool {
        &&& self.capabilities.is_prefix_of(later.capabilities)
        &&& self.extensions.is_prefix_of(later.extensions)
        &&& self.ext_inst_imports.is_prefix_of(later.ext_inst_imports)
        &&& self.memory_model.is_prefix_of(later.memory_model)
        &&& self.entry_points.is_prefix_of(later.entry_points)
        &&& self.execution_modes.is_prefix_of(later.execution_modes)
        &&& self.debugs.is_prefix_of(later.debugs)
        &&& self.annotations.is_prefix_of(later.annotations)
        &&& self.declarations.is_prefix_of(later.declarations)
        &&& self.function_declarations.is_prefix_of(later.function_declarations)
        &&& self.function_definitions.is_prefix_of(later.function_definitions)
    }
}

/// What was written stays: each part of a module only grows at its end, also when a module is
/// refused, and identifiers are not handed out again.
pub proof fn law_written_stays(w: WriterView, module: Module)
    ensures
        match w.module(module) {
            Outcome::Done(v, _) => w.logical_layout.stands_in(v.logical_layout) && w.id_count
                < v.id_count,
            Outcome::Fail(v, _) => w.logical_layout.stands_in(v.logical_layout) && w.id_count
                < v.id_count,
            Outcome::Stuck => true,
        },
{
    if let Some(layouts) = type_layouts(
        module.types.data@,
        module.constants,
        module.types.count(),
    ) {
        let start = WriterView { layouts, ..w };
        lemma_contents(start, module);
        lemma_prologue(start);
        if let Outcome::Done(v, _) = contents(start, module) {
            assert(start.logical_layout(module) == v.epilogue());
        }
    }
}

/// A module is only written if the writer may rely on shaders.
pub proof fn law_shaders_are_required(w: WriterView, module: Module)
    ensures
        w.module(module) is Done ==> w.capabilities.contains(spirv::Capability::Shader),
{
    if let Some(layouts) = type_layouts(
        module.types.data@,
        module.constants,
        module.types.count(),
    ) {
        let start = WriterView { layouts, ..w };
        lemma_contents(start, module);
        lemma_prologue(start);
        if let Outcome::Done(v, _) = contents(start, module) {
            assert(start.logical_layout(module) == v.epilogue());
        }
    }
}

/// What is remembered stays: types, types of functions, constants and global variables are found
/// again in every module that is written later, and different ones have different identifiers
/// if they had before. This also holds when a module is refused.
pub proof fn law_remembered_stays(w: WriterView, module: Module)
    ensures
        match w.module(module) {
            Outcome::Done(v, _) => w.is_remembered_by(v) && (w.has_own_ids() ==> v.has_own_ids()),
            Outcome::Fail(v, _) => w.is_remembered_by(v) && (w.has_own_ids() ==> v.has_own_ids()),
            Outcome::Stuck => true,
        },
{
    reveal(WriterView::is_remembered_by);
    if let Some(layouts) = type_layouts(
        module.types.data@,
        module.constants,
        module.types.count(),
    ) {
        let start = WriterView { layouts, ..w };
        lemma_nothing_new(w, start);
        lemma_contents(start, module);
        match contents(start, module) {
            Outcome::Done(v, _) => {
                lemma_contents_remembered(start, v);
                lemma_remembered_by_all(w, start, v);
                assert(start.logical_layout(module) == v.epilogue());
                match v.epilogue() {
                    Outcome::Done(x, _) => {
                        lemma_nothing_new(v, x.with_bound());
                        lemma_remembered_by_all(w, v, x.with_bound());
                    },
                    Outcome::Fail(x, _) => {
                        lemma_nothing_new(v, x);
                        lemma_remembered_by_all(w, v, x);
                    },
                    Outcome::Stuck => {},
                }
            },
            Outcome::Fail(v, _) => {
                lemma_contents_remembered(start, v);
                lemma_remembered_by_all(w, start, v);
            },
            Outcome::Stuck => {},
        }
    }
}

proof fn lemma_contents_remembered(w: WriterView, later: WriterView)
    requires
        continues_after_prologue(w, later),
    ensures
        w.is_remembered_by(later),
{
    lemma_prologue(w);
    if let Outcome::Done(v, _) = w.prologue() {
        let x = WriterView { storage_type_handles: later.storage_type_handles, ..v };
        lemma_nothing_new(v, x);
        lemma_remembered_by_all(w, v, x);
        lemma_remembered_by_all(w, x, later);
    }
}

/// A writer that has not written anything remembers nothing.
pub proof fn law_initial_has_own_ids(
    header: Header,
    flags: WriterFlags,
    capabilities: Seq<spirv::Capability>,
)
    ensures
        WriterView::initial(header, flags, capabilities).has_own_ids(),
{
    reveal(WriterView::has_own_ids);
}

/// A function is written whole, behind the others, or not at all: where it is refused, no part
/// of it stands among the functions.
pub proof fn law_function_is_written_whole(w: WriterView, module: Module, ir_function: IrFunction)
    ensures
        match w.function(module, ir_function) {
            Outcome::Done(v, id) => exists|function: FunctionView| #[trigger]
                function.is_whole(id) && v.logical_layout.function_definitions
                    == w.logical_layout.function_definitions + function.instructions().push(
                    op_function_end(),
                ),
            Outcome::Fail(v, _) => v.logical_layout.function_definitions
                == w.logical_layout.function_definitions,
            Outcome::Stuck => true,
        },
{
    reveal(WriterView::is_kept_by);
    lemma_function_grows(w, module, ir_function);
}

/// Whether the decorations that a step adds are of identifiers that were handed out in that step.
pub open spec fn decorates_new<T>(w: WriterView, step: Outcome<WriterView, T>) -> bool {
    match step {
        Outcome::Done(v, _) => w.is_decorated_by(v),
        Outcome::Fail(v, _) => w.is_decorated_by(v),
        Outcome::Stuck => true,
    }
}

/// A decoration is of an identifier that was handed out in the same step: of a type or a global
/// variable that is declared in it.
pub proof fn law_decorations_are_of_new_identifiers(
    w: WriterView,
    module: Module,
    ty: LookupType,
    variable: Handle<GlobalVariable>,
    ir_function: IrFunction,
)
    ensures
        decorates_new(w, w.type_id(module.types, ty)),
        decorates_new(w, w.global_variable_id(module, variable)),
        decorates_new(w, w.function(module, ir_function)),
        decorates_new(w, w.module(module)),
{
    lemma_type_id_grows(w, module.types, ty);
    lemma_grown_step(w, w.type_id(module.types, ty));
    lemma_global_variable_grows(w, module, variable);
    lemma_grown_step(w, w.global_variable_id(module, variable));
    lemma_function_grows(w, module, ir_function);
    lemma_function_continues(w, w.function(module, ir_function));
    if let Some(layouts) = type_layouts(
        module.types.data@,
        module.constants,
        module.types.count(),
    ) {
        let start = WriterView { layouts, ..w };
        lemma_contents(start, module);
        lemma_prologue(start);
        if let Outcome::Done(v, _) = contents(start, module) {
            assert(start.logical_layout(module) == v.epilogue());
        }
    }
}

/// A module that is refused leaves the header as it was, with the bound that it had.
pub proof fn law_refused_module_leaves_bound(w: WriterView, module: Module)
    ensures
        w.module(module) matches Outcome::Fail(v, _) ==> v.physical_layout == w.physical_layout,
{
    if let Some(layouts) = type_layouts(
        module.types.data@,
        module.constants,
        module.types.count(),
    ) {
        let start = WriterView { layouts, ..w };
        lemma_contents(start, module);
        lemma_prologue(start);
        if let Outcome::Done(v, _) = contents(start, module) {
            assert(start.logical_layout(module) == v.epilogue());
        }
    }
}

/// Writing the parts of a module leaves the given capabilities as they are.
pub proof fn lemma_capabilities_stay(w: WriterView, module: Module)
    ensures
        match w.logical_layout(module) {
            Outcome::Done(v, _) => v.capabilities == w.capabilities,
            Outcome::Fail(v, _) => v.capabilities == w.capabilities,
            Outcome::Stuck => true,
        },
{
    lemma_contents(w, module);
    lemma_prologue(w);
    if let Outcome::Done(v, _) = contents(w, module) {
        assert(w.logical_layout(module) == v.epilogue());
    }
}

/// Each capability that was given to a new writer is declared once, and no other is.
pub proof fn law_capabilities_are_declared_once(
    header: Header,
    flags: WriterFlags,
    capabilities: Seq<spirv::Capability>,
    module: Module,
)
    requires
        capabilities.no_duplicates(),
    ensures
        WriterView::initial(header, flags, capabilities).module(module) matches Outcome::Done(
            v,
            _,
        ) ==> {
            &&& v.logical_layout.capabilities.no_duplicates()
            &&& forall|capability: spirv::Capability| #[trigger]
                capabilities.contains(capability) ==> v.logical_layout.capabilities.contains(
                    op_capability(capability),
                )
            &&& v.logical_layout.capabilities.len() == capabilities.len()
        },
{
    law_parts_of_module(header, flags, capabilities, module);
    let declared = capability_declarations(capabilities);
    assert(declared.no_duplicates()) by {
        assert forall|i: int, j: int|
            0 <= i < declared.len() && 0 <= j < declared.len() && i != j implies declared[i]
            != declared[j] by {
            lemma_capability_number(capabilities[i], capabilities[j]);
            assert(declared[i].operands[0] == capabilities[i] as u32);
            assert(declared[j].operands[0] == capabilities[j] as u32);
        }
    }
    assert forall|capability: spirv::Capability| #[trigger]
        capabilities.contains(capability) implies declared.contains(op_capability(capability)) by {
        let i = choose|i: int| 0 <= i < capabilities.len() && capabilities[i] == capability;
        assert(declared[i] == op_capability(capability));
    }
}

} // verus!

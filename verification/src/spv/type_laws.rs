//! The type of a value is declared before the value.

use crate::ir::{EntryPoint, GlobalUse, Header, Module};
use crate::layouter::type_layouts;
use crate::spv::laws::{contents, lemma_storage_types};
use crate::spv::model::{Outcome, WriterFlags, WriterView};
use crate::spv::module::{handle_at, is_interface};
use crate::spv::typing::{are_declared, group_typing, types_come_first};
use crate::spv::typing_declarations::lemma_global_variable_typed;
use crate::spv::typing_statements::lemma_function_typed;
use crate::spv::words::Word;
use spirv_headers as spirv;
use vstd::prelude::*;

verus! {

proof fn lemma_interface_typed(
    w: WriterView,
    module: Module,
    usage: Seq<GlobalUse>,
    i: nat,
    ids: Seq<Word>,
)
    requires
        w.is_typed(),
    ensures
        w.is_typed_by(w.interface_ids(module, usage, i, ids)),
    decreases usage.len() - i,
{
    broadcast use group_typing;
    if i < module.global_variables.count() && i < usage.len() {
        if is_interface(module.global_variables.data@[i as int], usage[i as int]) {
            lemma_global_variable_typed(w, module, handle_at(i));
            if let Outcome::Done(v, variable) = w.global_variable_id(module, handle_at(i)) {
                lemma_interface_typed(v, module, usage, i + 1, ids.push(variable.0));
            }
        } else {
            lemma_interface_typed(w, module, usage, i + 1, ids);
        }
    }
}

proof fn lemma_entry_point_typed(w: WriterView, module: Module, entry_point: EntryPoint)
    requires
        w.is_typed(),
    ensures
        w.is_typed_by(w.entry_point(module, entry_point)),
{
    broadcast use group_typing;
    reveal(WriterView::entry_point);
    let usage = entry_point.function.global_usage@;
    lemma_function_typed(w, module, entry_point.function);
    if let Outcome::Done(v, _) = w.function(module, entry_point.function) {
        lemma_interface_typed(v, module, usage, 0, Seq::empty());
    }
}

proof fn lemma_functions_typed(w: WriterView, module: Module, i: nat)
    requires
        w.is_typed(),
    ensures
        w.is_typed_by(w.functions(module, i)),
    decreases module.functions.count() - i,
{
    broadcast use group_typing;
    if i < module.functions.count() {
        let ir_function = module.functions.data@[i as int];
        lemma_function_typed(w, module, ir_function);
        if let Outcome::Done(v, id) = w.function(module, ir_function) {
            lemma_functions_typed(v.remember_function(handle_at(i), id), module, i + 1);
        }
    }
}

proof fn lemma_entry_points_typed(w: WriterView, module: Module, i: nat)
    requires
        w.is_typed(),
    ensures
        w.is_typed_by(w.entry_points(module, i)),
    decreases module.entry_points@.len() - i,
{
    broadcast use group_typing;
    if i < module.entry_points@.len() {
        let entry_point = module.entry_points@[i as int];
        lemma_entry_point_typed(w, module, entry_point);
        if let Outcome::Done(v, instruction) = w.entry_point(module, entry_point) {
            lemma_entry_points_typed(v.enter(instruction), module, i + 1);
        }
    }
}

/// The type of what an instruction yields is declared before it: earlier among the declarations,
/// or among them if the instruction is part of a function. This also holds of what is left
/// behind when a module is refused, so that the writer can go on.
pub proof fn law_types_come_first(w: WriterView, module: Module)
    requires
        w.is_typed(),
    ensures
        match w.module(module) {
            Outcome::Done(v, _) => v.is_typed(),
            Outcome::Fail(v, _) => v.is_typed(),
            Outcome::Stuck => true,
        },
{
    broadcast use group_typing;
    if let Some(layouts) = type_layouts(
        module.types.data@,
        module.constants,
        module.types.count(),
    ) {
        let start = WriterView { layouts, ..w };
        if let Outcome::Done(w1, _) = start.prologue() {
            let n = module.global_variables.count();
            let w2 = w1.storage_types(module, n);
            lemma_storage_types(w1, module, n);
            lemma_functions_typed(w2, module, 0);
            if let Outcome::Done(w3, _) = w2.functions(module, 0) {
                lemma_entry_points_typed(w3, module, 0);
            }
        }
        if let Outcome::Done(v, _) = contents(start, module) {
            assert(start.logical_layout(module) == v.epilogue());
        }
    }
}

/// A writer that has not written anything has looked up no type.
pub proof fn law_initial_is_typed(
    header: Header,
    flags: WriterFlags,
    capabilities: Seq<spirv::Capability>,
)
    ensures
        WriterView::initial(header, flags, capabilities).is_typed(),
{
    broadcast use group_typing;
    reveal(types_come_first);
    reveal(are_declared);
}

} // verus!

//! The order of functions and entry points in a module.

use crate::arena::Handle;
use crate::ir::{EntryPoint, Function as IrFunction, GlobalUse, Module};
use crate::layouter::type_layouts;
use crate::spv::function::FunctionView;
use crate::spv::growth_declarations::lemma_global_variable_grows;
use crate::spv::growth_statements::lemma_draft_function_grows;
use crate::spv::instruction::InstructionView;
use crate::spv::instructions::{op_entry_point, op_function_end};
use crate::spv::laws::{contents, lemma_storage_types};
use crate::spv::model::{Outcome, WriterView};
use crate::spv::module::{execution_model, handle_at, is_interface};
use crate::spv::statements::draft;
use crate::spv::words::Word;
use vstd::prelude::*;

verus! {

/// The instructions of functions, each with its end.
pub open spec fn all_instructions(list: Seq<FunctionView>) -> Seq<InstructionView>
    decreases list.len(),
{
    if list.len() == 0 {
        Seq::empty()
    } else {
        list[0].instructions().push(op_function_end()) + all_instructions(
            list.subrange(1, list.len() as int),
        )
    }
}

/// Whether a writer in state `w` writes `ir_function` as `function` under the identifier `id`.
pub open spec fn is_written(
    w: WriterView,
    module: Module,
    ir_function: IrFunction,
    function: FunctionView,
    id: Word,
) -> bool {
    draft(w, FunctionView::empty()).function(module, ir_function) matches Outcome::Done(d, result)
        && d.function == function && result == id
}

/// Whether `function` is what is written for `ir_function`, complete and with the identifier
/// `id`.
#[verifier::opaque]
pub open spec fn is_form_of(
    function: FunctionView,
    id: Word,
    module: Module,
    ir_function: IrFunction,
) -> bool {
    &&& function.is_whole(id)
    &&& exists|w: WriterView| is_written(w, module, ir_function, function, id)
}

/// Whether an instruction declares an entry point with the function `id`.
#[verifier::opaque]
pub open spec fn enters(instruction: InstructionView, entry_point: EntryPoint, id: Word) -> bool {
    exists|interface_ids: Seq<Word>|
        instruction == #[trigger] op_entry_point(
            execution_model(entry_point.stage),
            id,
            entry_point.name@,
            interface_ids,
        )
}

/// Whether functions are what is written for others, in the same order, under the identifiers
/// `ids`.
#[verifier::opaque]
pub open spec fn are_forms_of(
    list: Seq<FunctionView>,
    ids: Seq<Word>,
    module: Module,
    ir_functions: Seq<IrFunction>,
) -> bool {
    &&& list.len() == ir_functions.len()
    &&& ids.len() == ir_functions.len()
    &&& forall|i: int|
        0 <= i < list.len() ==> is_form_of(#[trigger] list[i], ids[i], module, ir_functions[i])
}

/// Whether instructions declare entry points, in the same order, with the functions `ids`.
#[verifier::opaque]
pub open spec fn all_enter(
    list: Seq<InstructionView>,
    entry_points: Seq<EntryPoint>,
    ids: Seq<Word>,
) -> bool {
    &&& list.len() == entry_points.len()
    &&& ids.len() == entry_points.len()
    &&& forall|i: int| 0 <= i < list.len() ==> enters(#[trigger] list[i], entry_points[i], ids[i])
}

/// The functions of entry points.
pub open spec fn entry_functions(entry_points: Seq<EntryPoint>) -> Seq<IrFunction> {
    entry_points.map_values(|entry_point: EntryPoint| entry_point.function)
}

/// Functions that are looked up, with more of them from the `i`-th on.
pub open spec fn with_ids(
    lookup: Map<Handle<IrFunction>, Word>,
    i: nat,
    ids: Seq<Word>,
) -> Map<Handle<IrFunction>, Word>
    decreases ids.len(),
{
    if ids.len() == 0 {
        lookup
    } else {
        with_ids(
            lookup.insert(handle_at(i), ids[0]),
            i + 1,
            ids.subrange(1, ids.len() as int),
        )
    }
}

/// What is behind the first.
pub open spec fn rest<T>(list: Seq<T>) -> Seq<T> {
    list.subrange(1, list.len() as int)
}

proof fn lemma_first_form(
    function: FunctionView,
    id: Word,
    list: Seq<FunctionView>,
    ids: Seq<Word>,
    module: Module,
    ir_functions: Seq<IrFunction>,
)
    requires
        ir_functions.len() > 0,
        is_form_of(function, id, module, ir_functions[0]),
        are_forms_of(list, ids, module, rest(ir_functions)),
    ensures
        are_forms_of(seq![function] + list, seq![id] + ids, module, ir_functions),
{
    reveal(are_forms_of);
    let whole = seq![function] + list;
    let whole_ids = seq![id] + ids;
    assert forall|i: int| 0 <= i < whole.len() implies is_form_of(
        #[trigger] whole[i],
        whole_ids[i],
        module,
        ir_functions[i],
    ) by {
        if i > 0 {
            assert(whole[i] == list[i - 1] && whole_ids[i] == ids[i - 1]);
            assert(ir_functions[i] == rest(ir_functions)[i - 1]);
        }
    }
}

proof fn lemma_first_enters(
    instruction: InstructionView,
    list: Seq<InstructionView>,
    entry_points: Seq<EntryPoint>,
    id: Word,
    ids: Seq<Word>,
)
    requires
        entry_points.len() > 0,
        enters(instruction, entry_points[0], id),
        all_enter(list, rest(entry_points), ids),
    ensures
        all_enter(seq![instruction] + list, entry_points, seq![id] + ids),
{
    reveal(all_enter);
    let whole = seq![instruction] + list;
    let whole_ids = seq![id] + ids;
    assert forall|i: int| 0 <= i < whole.len() implies enters(
        #[trigger] whole[i],
        entry_points[i],
        whole_ids[i],
    ) by {
        if i > 0 {
            assert(whole[i] == list[i - 1] && whole_ids[i] == ids[i - 1]);
            assert(entry_points[i] == rest(entry_points)[i - 1]);
        }
    }
}

/// A function is found by its handle, and those before the `i`-th as they were.
proof fn lemma_with_ids(lookup: Map<Handle<IrFunction>, Word>, i: nat, ids: Seq<Word>, k: nat)
    requires
        i + ids.len() <= u32::MAX + 1,
        k < i + ids.len(),
    ensures
        ({
            let handle = handle_at::<IrFunction>(k);
            let found = with_ids(lookup, i, ids);
            if k < i {
                &&& found.contains_key(handle) == lookup.contains_key(handle)
                &&& lookup.contains_key(handle) ==> found[handle] == lookup[handle]
            } else {
                found.contains_key(handle) && found[handle] == ids[k - i]
            }
        }),
    decreases ids.len(),
{
    if ids.len() > 0 {
        let handle = handle_at::<IrFunction>(k);
        let next = lookup.insert(handle_at(i), ids[0]);
        lemma_with_ids(next, i + 1, rest(ids), k);
        if k < i {
            assert(handle != handle_at::<IrFunction>(i));
        }
    }
}

proof fn lemma_all_instructions(a: Seq<FunctionView>, b: Seq<FunctionView>)
    ensures
        all_instructions(a + b) == all_instructions(a) + all_instructions(b),
    decreases a.len(),
{
    if a.len() == 0 {
        assert(a + b =~= b);
        assert(all_instructions(a) + all_instructions(b) =~= all_instructions(b));
    } else {
        let rest = a.subrange(1, a.len() as int);
        lemma_all_instructions(rest, b);
        assert((a + b).subrange(1, (a + b).len() as int) =~= rest + b);
        let first = a[0].instructions().push(op_function_end());
        assert(first + (all_instructions(rest) + all_instructions(b)) =~= first + all_instructions(
            rest,
        ) + all_instructions(b));
    }
}

proof fn lemma_first_function(function: FunctionView, rest: Seq<FunctionView>)
    ensures
        all_instructions(seq![function] + rest) == function.instructions().push(op_function_end())
            + all_instructions(rest),
{
    let list = seq![function] + rest;
    assert(list[0] == function);
    assert(list.subrange(1, list.len() as int) =~= rest);
}

/// A function as it is written.
proof fn lemma_function(w: WriterView, module: Module, ir_function: IrFunction) -> (function:
    FunctionView)
    ensures
        w.function(module, ir_function) matches Outcome::Done(v, id) ==> {
            &&& is_form_of(function, id, module, ir_function)
            &&& v.logical_layout.function_definitions == w.logical_layout.function_definitions
                + function.instructions().push(op_function_end())
            &&& v.logical_layout.entry_points == w.logical_layout.entry_points
            &&& v.lookup_function == w.lookup_function
        },
{
    reveal(WriterView::function);
    reveal(WriterView::is_kept_by);
    reveal(is_form_of);
    let d = draft(w, FunctionView::empty());
    lemma_draft_function_grows(d, module, ir_function);
    match d.function(module, ir_function) {
        Outcome::Done(e, id) => {
            assert(is_written(w, module, ir_function, e.function, id));
            e.function
        },
        _ => FunctionView::empty(),
    }
}

proof fn lemma_functions(w: WriterView, module: Module, i: nat) -> (out: (
    Seq<FunctionView>,
    Seq<Word>,
))
    requires
        i <= module.functions.count(),
    ensures
        w.functions(module, i) matches Outcome::Done(v, _) ==> {
            let ir_functions = module.functions.data@;
            &&& are_forms_of(
                out.0,
                out.1,
                module,
                ir_functions.subrange(i as int, ir_functions.len() as int),
            )
            &&& v.logical_layout.function_definitions == w.logical_layout.function_definitions
                + all_instructions(out.0)
            &&& v.logical_layout.entry_points == w.logical_layout.entry_points
            &&& v.lookup_function == with_ids(w.lookup_function, i, out.1)
        },
    decreases module.functions.count() - i,
{
    let start = w.logical_layout.function_definitions;
    let ir_functions = module.functions.data@;
    let later = ir_functions.subrange(i as int, ir_functions.len() as int);
    if i < module.functions.count() {
        let ir_function = module.functions.data@[i as int];
        let function = lemma_function(w, module, ir_function);
        match w.function(module, ir_function) {
            Outcome::Done(x, id) => {
                let y = x.remember_function(handle_at(i), id);
                let (list, ids) = lemma_functions(y, module, i + 1);
                let whole_ids = seq![id] + ids;
                lemma_first_function(function, list);
                if let Outcome::Done(v, _) = y.functions(module, i + 1) {
                    assert(rest(later) =~= ir_functions.subrange(
                        (i + 1) as int,
                        ir_functions.len() as int,
                    ));
                    lemma_first_form(function, id, list, ids, module, later);
                    assert(v.logical_layout.function_definitions =~= start + all_instructions(
                        seq![function] + list,
                    ));
                    assert(rest(whole_ids) =~= ids);
                    assert(whole_ids[0] == id);
                }
                (seq![function] + list, whole_ids)
            },
            _ => (Seq::empty(), Seq::empty()),
        }
    } else {
        reveal(are_forms_of);
        assert(start + Seq::<InstructionView>::empty() =~= start);
        (Seq::empty(), Seq::empty())
    }
}

proof fn lemma_interface(
    w: WriterView,
    module: Module,
    usage: Seq<GlobalUse>,
    i: nat,
    ids: Seq<Word>,
)
    ensures
        w.interface_ids(module, usage, i, ids) matches Outcome::Done(v, _) ==> {
            &&& v.logical_layout.function_definitions == w.logical_layout.function_definitions
            &&& v.logical_layout.entry_points == w.logical_layout.entry_points
            &&& v.lookup_function == w.lookup_function
        },
    decreases usage.len() - i,
{
    reveal(WriterView::is_kept_by);
    if i < module.global_variables.count() && i < usage.len() {
        if is_interface(module.global_variables.data@[i as int], usage[i as int]) {
            lemma_global_variable_grows(w, module, handle_at(i));
            if let Outcome::Done(v, variable) = w.global_variable_id(module, handle_at(i)) {
                lemma_interface(v, module, usage, i + 1, ids.push(variable.0));
            }
        } else {
            lemma_interface(w, module, usage, i + 1, ids);
        }
    }
}

/// An entry point as it is written: its function, and the identifier of that.
proof fn lemma_entry_point(w: WriterView, module: Module, entry_point: EntryPoint) -> (out: (
    FunctionView,
    Word,
))
    ensures
        w.entry_point(module, entry_point) matches Outcome::Done(v, instruction) ==> {
            &&& is_form_of(out.0, out.1, module, entry_point.function)
            &&& v.logical_layout.function_definitions == w.logical_layout.function_definitions
                + out.0.instructions().push(op_function_end())
            &&& v.logical_layout.entry_points == w.logical_layout.entry_points
            &&& v.lookup_function == w.lookup_function
            &&& enters(instruction, entry_point, out.1)
        },
{
    reveal(WriterView::entry_point);
    let function = lemma_function(w, module, entry_point.function);
    match w.function(module, entry_point.function) {
        Outcome::Done(w1, id) => {
            let usage = entry_point.function.global_usage@;
            lemma_interface(w1, module, usage, 0, Seq::empty());
            if let Outcome::Done(w2, ids) = w1.interface_ids(module, usage, 0, Seq::empty()) {
                let model = execution_model(entry_point.stage);
                let declared = op_entry_point(model, id, entry_point.name@, ids);
                assert(enters(declared, entry_point, id)) by {
                    reveal(enters);
                }
            }
            (function, id)
        },
        _ => (function, 0),
    }
}

proof fn lemma_entry_points(w: WriterView, module: Module, i: nat) -> (out: (
    Seq<FunctionView>,
    Seq<Word>,
    Seq<InstructionView>,
))
    requires
        i <= module.entry_points@.len(),
    ensures
        w.entry_points(module, i) matches Outcome::Done(v, _) ==> {
            let (list, ids, entered) = out;
            let entry_points = module.entry_points@;
            let later = entry_points.subrange(i as int, entry_points.len() as int);
            &&& are_forms_of(list, ids, module, entry_functions(later))
            &&& all_enter(entered, later, ids)
            &&& v.logical_layout.function_definitions == w.logical_layout.function_definitions
                + all_instructions(list)
            &&& v.logical_layout.entry_points == w.logical_layout.entry_points + entered
            &&& v.lookup_function == w.lookup_function
        },
    decreases module.entry_points@.len() - i,
{
    let start = w.logical_layout.function_definitions;
    let entry_points = module.entry_points@;
    let later = entry_points.subrange(i as int, entry_points.len() as int);
    if i < module.entry_points@.len() {
        let entry_point = module.entry_points@[i as int];
        let (function, id) = lemma_entry_point(w, module, entry_point);
        match w.entry_point(module, entry_point) {
            Outcome::Done(x, instruction) => {
                let y = x.enter(instruction);
                let (list, ids, entered) = lemma_entry_points(y, module, i + 1);
                lemma_first_function(function, list);
                if let Outcome::Done(v, _) = y.entry_points(module, i + 1) {
                    let next = entry_points.subrange((i + 1) as int, entry_points.len() as int);
                    assert(rest(later) =~= next);
                    assert(rest(entry_functions(later)) =~= entry_functions(next));
                    lemma_first_form(function, id, list, ids, module, entry_functions(later));
                    lemma_first_enters(instruction, entered, later, id, ids);
                    assert(v.logical_layout.function_definitions =~= start + all_instructions(
                        seq![function] + list,
                    ));
                    assert(v.logical_layout.entry_points =~= w.logical_layout.entry_points + (
                    seq![instruction] + entered));
                }
                (seq![function] + list, seq![id] + ids, seq![instruction] + entered)
            },
            _ => (Seq::empty(), Seq::empty(), Seq::empty()),
        }
    } else {
        reveal(are_forms_of);
        reveal(all_enter);
        assert(start + Seq::<InstructionView>::empty() =~= start);
        let entered = w.logical_layout.entry_points;
        assert(entered + Seq::<InstructionView>::empty() =~= entered);
        (Seq::empty(), Seq::empty(), Seq::empty())
    }
}

/// How the functions and entry points of a module are written: the functions of the arena under
/// the identifiers `ids`, those of the entry points under `entry_ids`, and the declarations of
/// the entry points.
pub struct Listing {
    pub list: Seq<FunctionView>,
    pub ids: Seq<Word>,
    pub entry_list: Seq<FunctionView>,
    pub entry_ids: Seq<Word>,
    pub entered: Seq<InstructionView>,
}

/// Whether `v` holds, behind what `w` does, the functions of the arena in its order, then those
/// of the entry points in their order, and one declaration for each entry point, in the same
/// order.
pub open spec fn holds_functions(
    w: WriterView,
    v: WriterView,
    module: Module,
    listing: Listing,
) -> bool {
    &&& are_forms_of(listing.list, listing.ids, module, module.functions.data@)
    &&& are_forms_of(
        listing.entry_list,
        listing.entry_ids,
        module,
        entry_functions(module.entry_points@),
    )
    &&& all_enter(listing.entered, module.entry_points@, listing.entry_ids)
    &&& v.logical_layout.function_definitions == w.logical_layout.function_definitions
        + all_instructions(listing.list + listing.entry_list)
    &&& v.logical_layout.entry_points == w.logical_layout.entry_points + listing.entered
    &&& v.lookup_function == with_ids(w.lookup_function, 0, listing.ids)
}

/// How the functions and entry points of a module are written.
proof fn lemma_listing(w: WriterView, module: Module) -> (listing: Listing)
    ensures
        w.module(module) matches Outcome::Done(v, _) ==> holds_functions(w, v, module, listing),
{
    match type_layouts(module.types.data@, module.constants, module.types.count()) {
        Some(layouts) => {
            let start = WriterView { layouts, ..w };
            match start.prologue() {
                Outcome::Done(w1, _) => {
                    let count = module.global_variables.count();
                    let w2 = w1.storage_types(module, count);
                    lemma_storage_types(w1, module, count);
                    let (list, ids) = lemma_functions(w2, module, 0);
                    match w2.functions(module, 0) {
                        Outcome::Done(w3, _) => {
                            let out = lemma_entry_points(w3, module, 0);
                            let (entry_list, entry_ids, entered) = out;
                            let listing = Listing { list, ids, entry_list, entry_ids, entered };
                            lemma_listed(w, module, listing, start, w3);
                            listing
                        },
                        _ => arbitrary(),
                    }
                },
                _ => arbitrary(),
            }
        },
        None => arbitrary(),
    }
}

proof fn lemma_listed(
    w: WriterView,
    module: Module,
    listing: Listing,
    start: WriterView,
    x: WriterView,
)
    requires
        type_layouts(module.types.data@, module.constants, module.types.count()) == Some(
            start.layouts,
        ),
        start == (WriterView { layouts: start.layouts, ..w }),
        contents(start, module) == x.entry_points(module, 0),
        are_forms_of(
            listing.list,
            listing.ids,
            module,
            module.functions.data@.subrange(0, module.functions.data@.len() as int),
        ),
        x.logical_layout.function_definitions == w.logical_layout.function_definitions
            + all_instructions(listing.list),
        x.logical_layout.entry_points == w.logical_layout.entry_points,
        x.lookup_function == with_ids(w.lookup_function, 0, listing.ids),
        x.entry_points(module, 0) matches Outcome::Done(v, _) ==> {
            let entry_points = module.entry_points@;
            let all = entry_points.subrange(0, entry_points.len() as int);
            &&& are_forms_of(listing.entry_list, listing.entry_ids, module, entry_functions(all))
            &&& all_enter(listing.entered, all, listing.entry_ids)
            &&& v.logical_layout.function_definitions == x.logical_layout.function_definitions
                + all_instructions(listing.entry_list)
            &&& v.logical_layout.entry_points == x.logical_layout.entry_points + listing.entered
            &&& v.lookup_function == x.lookup_function
        },
    ensures
        w.module(module) matches Outcome::Done(v, _) ==> holds_functions(w, v, module, listing),
{
    if let Outcome::Done(y, _) = x.entry_points(module, 0) {
        let ir_functions = module.functions.data@;
        let entry_points = module.entry_points@;
        assert(ir_functions.subrange(0, ir_functions.len() as int) =~= ir_functions);
        assert(entry_points.subrange(0, entry_points.len() as int) =~= entry_points);
        assert(start.logical_layout(module) == y.epilogue());
        lemma_all_instructions(listing.list, listing.entry_list);
        assert(y.logical_layout.function_definitions =~= w.logical_layout.function_definitions
            + all_instructions(listing.list + listing.entry_list));
    }
}

/// The functions of a module stand in the order of the arena, before those of the entry points,
/// and each entry point is declared by one instruction, in its order, with its function.
pub proof fn law_functions_stand_in_order(w: WriterView, module: Module)
    ensures
        w.module(module) matches Outcome::Done(v, _) ==> exists|listing: Listing| #[trigger]
            holds_functions(w, v, module, listing),
{
    let listing = lemma_listing(w, module);
}

/// A function of the arena is looked up by its handle: what is found is the identifier under
/// which that function is written.
pub proof fn law_functions_are_looked_up(w: WriterView, module: Module, i: nat)
    requires
        module.functions.count() <= u32::MAX + 1,
        i < module.functions.count(),
    ensures
        w.module(module) matches Outcome::Done(v, _) ==> {
            let handle = handle_at::<IrFunction>(i);
            &&& v.lookup_function.contains_key(handle)
            &&& exists|function: FunctionView| #[trigger]
                is_form_of(
                    function,
                    v.lookup_function[handle],
                    module,
                    module.functions.data@[i as int],
                )
        },
{
    let listing = lemma_listing(w, module);
    if let Outcome::Done(v, _) = w.module(module) {
        reveal(are_forms_of);
        lemma_with_ids(w.lookup_function, 0, listing.ids, i);
        assert(is_form_of(
            listing.list[i as int],
            listing.ids[i as int],
            module,
            module.functions.data@[i as int],
        ));
    }
}

/// Where no two entry points of a module have the same stage and name, no two are declared with
/// the same model and name.
pub proof fn law_entry_points_are_distinct(w: WriterView, module: Module, i: int, j: int)
    requires
        module.has_distinct_entry_points(),
        0 <= i < module.entry_points@.len(),
        0 <= j < module.entry_points@.len(),
        i != j,
    ensures
        w.module(module) matches Outcome::Done(v, _) ==> {
            let start = w.logical_layout.entry_points.len();
            let entered = v.logical_layout.entry_points;
            let a = module.entry_points@[i];
            let b = module.entry_points@[j];
            &&& exists|id: Word| #[trigger] enters(entered[start + i], a, id)
            &&& exists|id: Word| #[trigger] enters(entered[start + j], b, id)
            &&& execution_model(a.stage) != execution_model(b.stage) || a.name@ != b.name@
        },
{
    let listing = lemma_listing(w, module);
    if let Outcome::Done(v, _) = w.module(module) {
        reveal(all_enter);
        let start = w.logical_layout.entry_points.len();
        let entered = v.logical_layout.entry_points;
        assert(entered[start + i] == listing.entered[i]);
        assert(entered[start + j] == listing.entered[j]);
        assert(enters(entered[start + i], module.entry_points@[i], listing.entry_ids[i]));
        assert(enters(entered[start + j], module.entry_points@[j], listing.entry_ids[j]));
    }
}

} // verus!

//! Where members are placed, and what entry points share with other stages.

use crate::arena::Arena;
use crate::ir::{
    EntryPoint, GlobalUse, GlobalVariable, Module, ShaderStage, StructMember, Type, TypeInner,
    VariableClass, VectorSize,
};
use crate::layouter::{lemma_padding, padding, TypeLayout};
use crate::spv::declaration_laws::lemma_named_within;
use crate::spv::growth_declarations::lemma_global_variable_grows;
use crate::spv::instruction::InstructionView;
use crate::spv::instructions::op_member_decorate;
use crate::spv::lookup::LookupType;
use crate::spv::model::{Outcome, WriterView};
use crate::spv::module::{execution_model, handle_at};
use crate::spv::variable_laws::law_global_variables_are_declared;
use crate::spv::words::{text_words, Word};
use spirv_headers as spirv;
use vstd::prelude::*;

verus! {

/// Whether an instruction says something of the `i`-th member of the structure `id`, by a number.
pub open spec fn says_of_member(
    instruction: InstructionView,
    id: Word,
    i: int,
    decoration: spirv::Decoration,
    number: Word,
) -> bool {
    &&& instruction.op == spirv::Op::MemberDecorate
    &&& instruction.operands == seq![id, i as u32, decoration as u32, number]
}

/// Whether one of the decorations says something of the `i`-th member of the structure `id`.
pub open spec fn is_said_of_member(
    list: Seq<InstructionView>,
    id: Word,
    i: int,
    decoration: spirv::Decoration,
    number: Word,
) -> bool {
    exists|k: int|
        0 <= k < list.len() && says_of_member(#[trigger] list[k], id, i, decoration, number)
}

/// The room that a member takes: its span, or, where that is missing, the size of its type.
pub open spec fn room(member: StructMember, layouts: Seq<TypeLayout>) -> int {
    match member.span {
        Some(span) => span as int,
        None => layouts[member.ty.index as int].size as int,
    }
}

/// Where the members in front of the `i`-th end, if they start at `starts`.
pub open spec fn end_of(
    starts: Seq<u32>,
    members: Seq<StructMember>,
    layouts: Seq<TypeLayout>,
    i: int,
) -> int {
    if i == 0 {
        0
    } else {
        starts[i - 1] + room(members[i - 1], layouts)
    }
}

/// Whether the first `n` members start at `starts`: each as soon as it can behind the ones in
/// front of it, at a multiple of the alignment of its type, and with a decoration that says so.
/// The columns of a matrix are as far apart as two or four numbers.
pub open spec fn are_placed(
    w: WriterView,
    types: Arena<Type>,
    id: Word,
    members: Seq<StructMember>,
    n: int,
    starts: Seq<u32>,
) -> bool {
    &&& starts.len() == n
    &&& forall|i: int|
        0 <= i < n ==> #[trigger] is_placed(w, types, id, members, i, starts)
}

/// Whether the `i`-th member is placed.
pub open spec fn is_placed(
    w: WriterView,
    types: Arena<Type>,
    id: Word,
    members: Seq<StructMember>,
    i: int,
    starts: Seq<u32>,
) -> bool {
    let member = members[i];
    let alignment = w.layouts[member.ty.index as int].alignment as int;
    let end = end_of(starts, members, w.layouts, i);
    &&& alignment > 0
    &&& end <= starts[i] < end + alignment
    &&& starts[i] as int % alignment == 0
    &&& is_said_of_member(w.annotations, id, i, spirv::Decoration::Offset, starts[i])
    &&& match types.data@[member.ty.index as int].inner {
        TypeInner::Matrix { columns, width, .. } => is_said_of_member(
            w.annotations,
            id,
            i,
            spirv::Decoration::MatrixStride,
            if columns == VectorSize::Bi {
                (width * 2) as u32
            } else {
                (width * 4) as u32
            },
        ),
        _ => true,
    }
}

proof fn lemma_said_later(
    a: Seq<InstructionView>,
    b: Seq<InstructionView>,
    id: Word,
    i: int,
    decoration: spirv::Decoration,
    number: Word,
)
    requires
        a.is_prefix_of(b),
        is_said_of_member(a, id, i, decoration, number),
    ensures
        is_said_of_member(b, id, i, decoration, number),
{
    let k = choose|k: int|
        0 <= k < a.len() && says_of_member(#[trigger] a[k], id, i, decoration, number);
    assert(a[k] == b.subrange(0, a.len() as int)[k]);
    assert(says_of_member(b[k], id, i, decoration, number));
}

proof fn lemma_placed_later(
    v: WriterView,
    w: WriterView,
    types: Arena<Type>,
    id: Word,
    members: Seq<StructMember>,
    i: int,
    starts: Seq<u32>,
    more: Seq<u32>,
)
    requires
        0 <= i < starts.len(),
        is_placed(v, types, id, members, i, starts),
        starts.is_prefix_of(more),
        v.annotations.is_prefix_of(w.annotations),
        v.layouts == w.layouts,
    ensures
        is_placed(w, types, id, members, i, more),
{
    assert(starts =~= more.subrange(0, starts.len() as int));
    assert(starts[i] == more.subrange(0, starts.len() as int)[i]);
    if i > 0 {
        assert(starts[i - 1] == more.subrange(0, starts.len() as int)[i - 1]);
    }
    lemma_said_later(
        v.annotations,
        w.annotations,
        id,
        i,
        spirv::Decoration::Offset,
        starts[i],
    );
    if let TypeInner::Matrix { columns, width, .. } = types.data@[members[i].ty.index as int].inner {
        lemma_said_later(
            v.annotations,
            w.annotations,
            id,
            i,
            spirv::Decoration::MatrixStride,
            if columns == VectorSize::Bi {
                (width * 2) as u32
            } else {
                (width * 4) as u32
            },
        );
    }
}

proof fn lemma_says(id: Word, i: nat, decoration: spirv::Decoration, number: Word)
    ensures
        says_of_member(
            op_member_decorate(id, i as u32, decoration, seq![number]),
            id,
            i as int,
            decoration,
            number,
        ),
{
    let said = op_member_decorate(id, i as u32, decoration, seq![number]);
    assert(said.operands =~= seq![id, i as u32, decoration as u32, number]);
}

proof fn lemma_place(
    w: WriterView,
    types: Arena<Type>,
    id: Word,
    members: Seq<StructMember>,
    i: nat,
    offset: u32,
    starts: Seq<u32>,
) -> (start: u32)
    requires
        i < members.len(),
        starts.len() == i,
        offset == end_of(starts, members, w.layouts, i as int),
    ensures
        w.place_member(types, id, members[i as int], i, offset) matches Outcome::Done(v, end) ==> {
            &&& is_placed(v, types, id, members, i as int, starts.push(start))
            &&& w.annotations.is_prefix_of(v.annotations)
            &&& v.layouts == w.layouts
            &&& end == start + room(members[i as int], w.layouts)
        },
{
    let member = members[i as int];
    let layout = w.layouts[member.ty.index as int];
    let start = (offset + padding(layout.alignment, offset as int)) as u32;
    if let Outcome::Done(v, end) = w.place_member(types, id, member, i, offset) {
        lemma_padding(layout.alignment, offset as int);
        let more = starts.push(start);
        let n = w.annotations.len() as int;
        let offset_said = op_member_decorate(
            id,
            i as u32,
            spirv::Decoration::Offset,
            seq![start],
        );
        lemma_says(id, i, spirv::Decoration::Offset, start);
        assert(v.annotations[n] == offset_said);
        assert(says_of_member(v.annotations[n], id, i as int, spirv::Decoration::Offset, start));
        assert(w.annotations =~= v.annotations.subrange(0, n));
        if i > 0 {
            assert(more[i - 1] == starts[i - 1]);
        }
        if let TypeInner::Matrix { columns, width, .. } = types.at(member.ty).inner {
            let stride = if columns == VectorSize::Bi {
                (width * 2) as u32
            } else {
                (width * 4) as u32
            };
            let stride_said = op_member_decorate(
                id,
                i as u32,
                spirv::Decoration::MatrixStride,
                seq![stride],
            );
            lemma_says(id, i, spirv::Decoration::MatrixStride, stride);
            assert(v.annotations[n + 1] == stride_said);
            assert(says_of_member(
                v.annotations[n + 1],
                id,
                i as int,
                spirv::Decoration::MatrixStride,
                stride,
            ));
        }
    }
    start
}

proof fn lemma_members_placed(
    w: WriterView,
    types: Arena<Type>,
    id: Word,
    members: Seq<StructMember>,
    i: nat,
    offset: u32,
    ids: Seq<Word>,
    depth: nat,
    starts: Seq<u32>,
) -> (all: Seq<u32>)
    requires
        i <= members.len(),
        offset == end_of(starts, members, w.layouts, i as int),
        are_placed(w, types, id, members, i as int, starts),
    ensures
        w.block_members(types, id, members, i, offset, ids, depth) matches Outcome::Done(v, _)
            ==> are_placed(v, types, id, members, members.len() as int, all),
    decreases members.len() - i,
{
    if i == members.len() {
        starts
    } else {
        let member = members[i as int];
        let start = lemma_place(w, types, id, members, i, offset, starts);
        if let Outcome::Done(u, end) = w.place_member(types, id, member, i, offset) {
            let part = LookupType::Handle(member.ty);
            lemma_named_within(u, types, part, depth);
            if let Outcome::Done(v, member_id) = u.type_id_within(types, part, depth) {
                reveal(WriterView::is_kept_by);
                let more = starts.push(start);
                assert(starts =~= more.subrange(0, starts.len() as int));
                assert(more =~= more.subrange(0, more.len() as int));
                assert(v.layouts == w.layouts && u.layouts == w.layouts);
                assert(w.annotations.is_prefix_of(v.annotations)) by {
                    assert(w.annotations =~= u.annotations.subrange(
                        0,
                        w.annotations.len() as int,
                    ));
                    assert(u.annotations =~= v.annotations.subrange(
                        0,
                        u.annotations.len() as int,
                    ));
                    assert(w.annotations =~= v.annotations.subrange(
                        0,
                        w.annotations.len() as int,
                    ));
                }
                assert forall|k: int| 0 <= k < i + 1 implies #[trigger] is_placed(
                    v,
                    types,
                    id,
                    members,
                    k,
                    more,
                ) by {
                    if k < i {
                        assert(starts[k] == more[k]);
                        assert(is_placed(w, types, id, members, k, starts));
                        lemma_placed_later(w, v, types, id, members, k, starts, more);
                    } else {
                        lemma_placed_later(u, v, types, id, members, k, more, more);
                    }
                }
                lemma_members_placed(
                    v,
                    types,
                    id,
                    members,
                    i + 1,
                    end,
                    ids.push(member_id),
                    depth,
                    more,
                )
            } else {
                starts
            }
        } else {
            starts
        }
    }
}

/// The members of a structure that stands for a buffer lie one behind the other, each aligned as
/// its type wants it, and the decorations say where.
pub proof fn law_members_follow_one_another(
    w: WriterView,
    types: Arena<Type>,
    id: Word,
    members: Seq<StructMember>,
    depth: nat,
) -> (starts: Seq<u32>)
    ensures
        w.block_members(types, id, members, 0, 0, Seq::empty(), depth) matches Outcome::Done(v, _)
            ==> are_placed(v, types, id, members, members.len() as int, starts),
{
    lemma_members_placed(w, types, id, members, 0, 0, Seq::empty(), depth, Seq::empty())
}

/// Whether an entry point shares a global variable with other stages: it is an input or an
/// output, and the function uses it.
pub open spec fn is_shared(variable: GlobalVariable, usage: GlobalUse) -> bool {
    &&& variable.class == VariableClass::Input || variable.class == VariableClass::Output
    &&& usage.bits != 0
}

/// Whether `used` are the global variables in front of the `n`-th that are shared, in their
/// order, and `ids` are their identifiers.
pub open spec fn are_shared(
    w: WriterView,
    module: Module,
    usage: Seq<GlobalUse>,
    n: int,
    used: Seq<int>,
    ids: Seq<Word>,
) -> bool {
    &&& ids.len() == used.len()
    &&& forall|k: int|
        #![trigger used[k]]
        0 <= k < used.len() ==> 0 <= used[k] < n && is_shared(
            module.global_variables.data@[used[k]],
            usage[used[k]],
        )
    &&& forall|k: int, l: int|
        #![trigger used[k], used[l]]
        0 <= k < l < used.len() ==> used[k] < used[l]
    &&& forall|i: int|
        0 <= i < n && #[trigger] is_shared(module.global_variables.data@[i], usage[i])
            ==> used.contains(i)
    &&& forall|k: int| #![trigger ids[k]] 0 <= k < ids.len() ==> is_found(w, used[k], ids[k])
}

/// Whether the `i`-th global variable is known by an identifier.
pub open spec fn is_found(w: WriterView, i: int, id: Word) -> bool {
    w.lookup_global_variable.contains_key(handle_at(i as nat))
        && w.lookup_global_variable[handle_at(i as nat)].0 == id
}

proof fn lemma_found_later(v: WriterView, w: WriterView, i: int, id: Word)
    requires
        is_found(v, i, id),
        v.is_kept_by(w),
    ensures
        is_found(w, i, id),
{
    reveal(WriterView::is_kept_by);
    reveal(WriterView::is_remembered_by);
    assert(v.lookup_global_variable.dom().contains(handle_at(i as nat)));
}

proof fn lemma_interface(
    w: WriterView,
    module: Module,
    usage: Seq<GlobalUse>,
    i: nat,
    ids: Seq<Word>,
    used: Seq<int>,
) -> (all: Seq<int>)
    requires
        i <= module.global_variables.data@.len(),
        i <= usage.len(),
        are_shared(w, module, usage, i as int, used, ids),
    ensures
        w.interface_ids(module, usage, i, ids) matches Outcome::Done(v, found) ==> are_shared(
            v,
            module,
            usage,
            if usage.len() < module.global_variables.data@.len() {
                usage.len() as int
            } else {
                module.global_variables.data@.len() as int
            },
            all,
            found,
        ),
    decreases usage.len() - i,
{
    if i >= module.global_variables.data@.len() || i >= usage.len() {
        used
    } else {
        let n = i as int;
        if is_shared(module.global_variables.data@[n], usage[n]) {
            let handle = handle_at(i);
            let _ = law_global_variables_are_declared(w, module, handle);
            lemma_global_variable_grows(w, module, handle);
            if let Outcome::Done(v, found) = w.global_variable_id(module, handle) {
                let more = used.push(n);
                let more_ids = ids.push(found.0);
                assert forall|k: int| #![trigger more_ids[k]] 0 <= k < more_ids.len() implies is_found(
                    v,
                    more[k],
                    more_ids[k],
                ) by {
                    if k < ids.len() {
                        assert(ids[k] == more_ids[k]);
                        assert(is_found(w, used[k], ids[k]));
                        lemma_found_later(w, v, used[k], ids[k]);
                    }
                }
                assert forall|k: int|
                    0 <= k < n + 1 && #[trigger] is_shared(
                        module.global_variables.data@[k],
                        usage[k],
                    ) implies more.contains(k) by {
                    if k < n {
                        let at = choose|at: int| 0 <= at < used.len() && used[at] == k;
                        assert(more[at] == k);
                    } else {
                        assert(more[used.len() as int] == k);
                    }
                }
                assert forall|k: int| #![trigger more[k]] 0 <= k < more.len() implies 0 <= more[k]
                    < n + 1 && is_shared(
                    module.global_variables.data@[more[k]],
                    usage[more[k]],
                ) by {
                    if k < used.len() {
                        assert(more[k] == used[k]);
                    }
                }
                lemma_interface(v, module, usage, i + 1, more_ids, more)
            } else {
                used
            }
        } else {
            lemma_interface(w, module, usage, i + 1, ids, used)
        }
    }
}

/// Whether a model of SPIR-V is that of a stage.
pub open spec fn is_stage(stage: ShaderStage, model: spirv::ExecutionModel) -> bool {
    match model {
        spirv::ExecutionModel::Vertex => stage == ShaderStage::Vertex,
        spirv::ExecutionModel::Fragment => stage == ShaderStage::Fragment,
        spirv::ExecutionModel::GLCompute => stage == ShaderStage::Compute,
        _ => false,
    }
}

/// Whether execution modes are those of a stage: images begin at the upper left, and work groups
/// have the size that is asked for.
pub open spec fn are_modes(list: Seq<InstructionView>, entry_point: EntryPoint, id: Word) -> bool {
    match entry_point.stage {
        ShaderStage::Vertex => list.len() == 0,
        ShaderStage::Fragment => {
            &&& list.len() == 1
            &&& list[0].op == spirv::Op::ExecutionMode
            &&& list[0].operands == seq![id, spirv::ExecutionMode::OriginUpperLeft as u32]
        },
        ShaderStage::Compute => {
            &&& list.len() == 1
            &&& list[0].op == spirv::Op::ExecutionMode
            &&& list[0].operands.len() == 5
            &&& list[0].operands[0] == id
            &&& list[0].operands[1] == spirv::ExecutionMode::LocalSize as u32
            &&& forall|i: int|
                0 <= i < 3 ==> #[trigger] list[0].operands[2 + i] == entry_point.workgroup_size@[i]
        },
    }
}

/// An entry point is declared for its stage, with its function and its name, and lists the inputs
/// and outputs that the function uses, all of them and in their order. The modes that its stage
/// needs are chosen.
pub proof fn law_entry_points_list_what_they_share(
    w: WriterView,
    module: Module,
    entry_point: EntryPoint,
) -> (r: (Word, Seq<int>, Seq<Word>, int))
    ensures
        w.entry_point(module, entry_point) matches Outcome::Done(v, instruction) ==> {
            let (id, used, ids, n) = r;
            let modes = v.logical_layout.execution_modes;
            let usage = entry_point.function.global_usage@;
            &&& w.function(module, entry_point.function) is Done
            &&& id == w.function(module, entry_point.function)->Done_1
            &&& instruction.op == spirv::Op::EntryPoint
            &&& exists|model: spirv::ExecutionModel| #[trigger]
                is_stage(entry_point.stage, model) && instruction.operands == seq![
                    model as u32,
                    id,
                ] + text_words(entry_point.name@) + ids
            &&& are_shared(
                v,
                module,
                usage,
                if usage.len() < module.global_variables.data@.len() {
                    usage.len() as int
                } else {
                    module.global_variables.data@.len() as int
                },
                used,
                ids,
            )
            &&& 0 <= n <= modes.len()
            &&& are_modes(modes.subrange(n, modes.len() as int), entry_point, id)
        },
{
    reveal(WriterView::entry_point);
    let usage = entry_point.function.global_usage@;
    if let Outcome::Done(w1, id) = w.function(module, entry_point.function) {
        let used = lemma_interface(w1, module, usage, 0, Seq::empty(), Seq::empty());
        if let Outcome::Done(w2, ids) = w1.interface_ids(module, usage, 0, Seq::empty()) {
            let model = execution_model(entry_point.stage);
            assert(is_stage(entry_point.stage, model));
            if let Outcome::Done(v, _) = w.entry_point(module, entry_point) {
                let modes = v.logical_layout.execution_modes;
                let n = w2.logical_layout.execution_modes.len() as int;
                let list = modes.subrange(n, modes.len() as int);
                assert(v.lookup_global_variable == w2.lookup_global_variable);
                assert(are_shared(
                    v,
                    module,
                    usage,
                    if usage.len() < module.global_variables.data@.len() {
                        usage.len() as int
                    } else {
                        module.global_variables.data@.len() as int
                    },
                    used,
                    ids,
                ));
                if entry_point.stage == ShaderStage::Fragment {
                    assert(list[0].operands =~= seq![
                        id,
                        spirv::ExecutionMode::OriginUpperLeft as u32,
                    ]);
                }
                assert(are_modes(list, entry_point, id));
            }
            (id, used, ids, w2.logical_layout.execution_modes.len() as int)
        } else {
            (id, used, Seq::empty(), 0)
        }
    } else {
        (0, Seq::empty(), Seq::empty(), 0)
    }
}

} // verus!

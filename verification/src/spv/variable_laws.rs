//! What the declarations of variables, parameters and members say.

use crate::arena::{Arena, Handle};
use crate::ir::{
    Binding, Builtin, Constant, Function as IrFunction, GlobalVariable, Header, Interpolation,
    Module, Type, VariableClass,
};
use crate::spv::constant_laws::is_known;
use crate::spv::expression_laws::{
    comes_before, lemma_comes_before, lemma_names_later, lemma_type_named, names_type,
};
use crate::spv::function::FunctionView;
use crate::spv::globals::{built_in_value, interpolation_decoration};
use crate::spv::growth::{group_growth, lemma_generate};
use crate::spv::growth_declarations::{
    lemma_initializer_grows, lemma_pointer_grows, lemma_type_id_grows,
};
use crate::spv::instruction::InstructionView;
use crate::spv::layout::PhysicalLayout;
use crate::spv::lookup::{LocalType, LookupType};
use crate::spv::model::{storage_class, Outcome, WriterView};
use crate::spv::operation_laws::lemma_constant_remembered;
use crate::spv::statements::Draft;
use crate::spv::words::Word;
use spirv_headers as spirv;
use vstd::prelude::*;

verus! {

/// The class of variables that a storage class of SPIR-V stands for.
pub open spec fn is_class(class: VariableClass, found: spirv::StorageClass, buffers: bool) -> bool {
    match found {
        spirv::StorageClass::UniformConstant => class == VariableClass::Handle,
        spirv::StorageClass::Function => class == VariableClass::Function,
        spirv::StorageClass::Input => class == VariableClass::Input,
        spirv::StorageClass::Output => class == VariableClass::Output,
        spirv::StorageClass::Private => class == VariableClass::Private,
        spirv::StorageClass::Workgroup => class == VariableClass::WorkGroup,
        spirv::StorageClass::PushConstant => class == VariableClass::PushConstant,
        spirv::StorageClass::StorageBuffer => class == VariableClass::Storage && buffers,
        spirv::StorageClass::Uniform => class == VariableClass::Uniform || (class
            == VariableClass::Storage && !buffers),
        _ => false,
    }
}

/// Variables keep their class. Storage has a class of its own from version 1.3 on; before, it is
/// uniform.
pub proof fn law_classes_are_kept(header: Header, class: VariableClass)
    ensures
        is_class(
            class,
            storage_class(class, PhysicalLayout::initial(header)),
            header.version.0 > 1 || (header.version.0 == 1 && header.version.1 >= 3),
        ),
{
}

/// Whether a value of SPIR-V is what a variable is bound to.
pub open spec fn is_bound_to(built_in: Builtin, value: spirv::BuiltIn) -> bool {
    match value {
        spirv::BuiltIn::BaseInstance => built_in == Builtin::BaseInstance,
        spirv::BuiltIn::BaseVertex => built_in == Builtin::BaseVertex,
        spirv::BuiltIn::ClipDistance => built_in == Builtin::ClipDistance,
        spirv::BuiltIn::InstanceIndex => built_in == Builtin::InstanceIndex,
        spirv::BuiltIn::PointSize => built_in == Builtin::PointSize,
        spirv::BuiltIn::Position => built_in == Builtin::Position,
        spirv::BuiltIn::VertexIndex => built_in == Builtin::VertexIndex,
        spirv::BuiltIn::FragCoord => built_in == Builtin::FragCoord,
        spirv::BuiltIn::FragDepth => built_in == Builtin::FragDepth,
        spirv::BuiltIn::FrontFacing => built_in == Builtin::FrontFacing,
        spirv::BuiltIn::SampleId => built_in == Builtin::SampleIndex,
        spirv::BuiltIn::SampleMask => built_in == Builtin::SampleMaskIn || built_in
            == Builtin::SampleMaskOut,
        spirv::BuiltIn::GlobalInvocationId => built_in == Builtin::GlobalInvocationId,
        spirv::BuiltIn::LocalInvocationId => built_in == Builtin::LocalInvocationId,
        spirv::BuiltIn::LocalInvocationIndex => built_in == Builtin::LocalInvocationIndex,
        spirv::BuiltIn::WorkgroupId => built_in == Builtin::WorkGroupId,
        spirv::BuiltIn::WorkgroupSize => built_in == Builtin::WorkGroupSize,
        _ => false,
    }
}

/// Whether a decoration is that of a way to interpolate.
pub open spec fn is_interpolation(interpolation: Interpolation, decoration: spirv::Decoration) -> bool {
    match decoration {
        spirv::Decoration::NoPerspective => interpolation == Interpolation::Linear,
        spirv::Decoration::Flat => interpolation == Interpolation::Flat,
        spirv::Decoration::Patch => interpolation == Interpolation::Patch,
        spirv::Decoration::Centroid => interpolation == Interpolation::Centroid,
        spirv::Decoration::Sample => interpolation == Interpolation::Sample,
        _ => false,
    }
}

/// Whether an instruction decorates `id` with `decoration`, and with these words behind it.
pub open spec fn decorates(
    instruction: InstructionView,
    id: Word,
    decoration: spirv::Decoration,
    words: Seq<Word>,
) -> bool {
    &&& instruction.op == spirv::Op::Decorate
    &&& instruction.operands == seq![id, decoration as u32] + words
}

/// Whether decorations say what a variable is bound to, and nothing else.
pub open spec fn says_binding(
    list: Seq<InstructionView>,
    id: Word,
    binding: Option<Binding>,
) -> bool {
    match binding {
        Some(Binding::Location(location)) => list.len() == 1 && decorates(
            list[0],
            id,
            spirv::Decoration::Location,
            seq![location],
        ),
        Some(Binding::Resource { group, binding }) => list.len() == 2 && decorates(
            list[0],
            id,
            spirv::Decoration::DescriptorSet,
            seq![group],
        ) && decorates(list[1], id, spirv::Decoration::Binding, seq![binding]),
        Some(Binding::BuiltIn(built_in)) => list.len() == 1 && exists|value: spirv::BuiltIn|
            #[trigger]
            is_bound_to(built_in, value) && decorates(
                list[0],
                id,
                spirv::Decoration::BuiltIn,
                seq![value as u32],
            ),
        None => list.len() == 0,
    }
}

/// Whether decorations say how a variable is interpolated, and nothing else. The usual way needs
/// none.
pub open spec fn says_interpolation(
    list: Seq<InstructionView>,
    id: Word,
    interpolation: Option<Interpolation>,
) -> bool {
    if interpolation is None || interpolation == Some(Interpolation::Perspective) {
        list.len() == 0
    } else {
        list.len() == 1 && exists|decoration: spirv::Decoration| #[trigger]
            is_interpolation(interpolation->0, decoration) && decorates(
                list[0],
                id,
                decoration,
                Seq::empty(),
            )
    }
}

/// The decorations of a variable say how it is interpolated and what it is bound to.
pub proof fn law_variables_are_decorated(
    w: WriterView,
    id: Word,
    interpolation: Option<Interpolation>,
    binding: Option<Binding>,
)
    ensures
        ({
            let v = w.decorate_interpolation(id, interpolation);
            let u = v.decorate_binding(id, binding);
            let n = w.annotations.len() as int;
            let m = v.annotations.len() as int;
            let k = u.annotations.len() as int;
            &&& w.annotations.is_prefix_of(v.annotations)
            &&& v.annotations.is_prefix_of(u.annotations)
            &&& says_interpolation(v.annotations.subrange(n, m), id, interpolation)
            &&& says_binding(u.annotations.subrange(m, k), id, binding)
        }),
{
    if let Some(interpolation) = interpolation {
        if let Some(decoration) = interpolation_decoration(interpolation) {
            assert(is_interpolation(interpolation, decoration));
        }
    }
    if let Some(Binding::BuiltIn(built_in)) = binding {
        assert(is_bound_to(built_in, built_in_value(built_in)));
    }
}

/// Whether the writer, asked for pointers to a type in state `a`, answers with `id` and goes on
/// to `b`.
pub open spec fn answers_pointer(
    a: WriterView,
    types: Arena<Type>,
    ty: Handle<Type>,
    class: VariableClass,
    b: WriterView,
    id: Word,
) -> bool {
    a.pointer_id(types, ty, class) == Outcome::Done(b, id)
}

/// Whether `id` is the identifier of the type of pointers to values of a type: the writer has
/// given it to one who asked for them.
pub open spec fn names_pointer(
    w: WriterView,
    types: Arena<Type>,
    ty: Handle<Type>,
    class: VariableClass,
    id: Word,
) -> bool {
    exists|a: WriterView, b: WriterView| #[trigger]
        answers_pointer(a, types, ty, class, b, id) && comes_before(b, w)
}

/// Reading the declaration of a type of pointers gives its class and what they point to back.
pub proof fn law_pointers_are_read_back(
    w: WriterView,
    types: Arena<Type>,
    ty: Handle<Type>,
    class: VariableClass,
)
    ensures
        (w.type_id(types, LookupType::Handle(ty)), w.pointer_id(types, ty, class)) matches (
            Outcome::Done(u, type_id),
            Outcome::Done(v, id),
        ) ==> {
            let key = LookupType::Local(LocalType::Pointer { base: ty, class });
            let last = v.logical_layout.declarations.last();
            if types.data@[ty.index as int].inner is Pointer {
                v == u && id == type_id
            } else if u.lookup_type.contains_key(key) {
                v == u && id == u.lookup_type[key]
            } else {
                &&& v.logical_layout.declarations == u.logical_layout.declarations.push(last)
                &&& last.op == spirv::Op::TypePointer
                &&& last.result_id == Some(id)
                &&& last.operands == seq![w.storage_class(class) as u32, type_id]
                &&& v.lookup_type.contains_key(key) && v.lookup_type[key] == id
            }
        },
{
    reveal(WriterView::pointer_id);
    lemma_type_id_grows(w, types, LookupType::Handle(ty));
    reveal(WriterView::is_kept_by);
}

/// Whether a declaration is that of a variable: with its class, of the type of pointers to its
/// type, and with its initial value, if it has one.
pub open spec fn is_variable(
    w: WriterView,
    module: Module,
    declaration: InstructionView,
    id: Word,
    ty: Handle<Type>,
    class: VariableClass,
    found: spirv::StorageClass,
    init: Option<Handle<Constant>>,
) -> bool {
    let operands = declaration.operands;
    &&& declaration.op == spirv::Op::Variable
    &&& declaration.result_id == Some(id)
    &&& declaration.type_id is Some
    &&& names_pointer(w, module.types, ty, class, declaration.type_id->0)
    &&& operands.len() > 0
    &&& operands[0] == found as u32
    &&& match init {
        Some(handle) => operands.len() == 2 && is_known(w, handle, operands[1]),
        None => operands.len() == 1,
    }
}

proof fn lemma_initializer(w: WriterView, module: Module, init: Option<Handle<Constant>>)
    ensures
        w.initializer_id(module, init) matches Outcome::Done(v, id) ==> {
            &&& init is Some <==> id is Some
            &&& init is Some ==> is_known(v, init->0, id->0)
            &&& w.is_kept_by(v)
        },
{
    broadcast use group_growth;
    lemma_initializer_grows(w, module, init);
    if let Some(handle) = init {
        reveal(WriterView::constant_id);
        lemma_constant_remembered(w, module, handle, module.constants.count());
    }
}

proof fn lemma_known_later(v: WriterView, w: WriterView, handle: Handle<Constant>, id: Word)
    requires
        is_known(v, handle, id),
        v.is_kept_by(w),
    ensures
        is_known(w, handle, id),
{
    reveal(WriterView::is_kept_by);
    reveal(WriterView::is_remembered_by);
    assert(v.lookup_constant.dom().contains(handle));
}

/// A global variable that was not asked for before is declared with its class, type and initial
/// value, and decorated with how it is interpolated and what it is bound to. It is known from
/// then on.
pub proof fn law_global_variables_are_declared(
    w: WriterView,
    module: Module,
    handle: Handle<GlobalVariable>,
) -> (at: int)
    ensures
        w.global_variable_id(module, handle) matches Outcome::Done(v, found) ==> {
            let variable = module.global_variables.data@[handle.index as int];
            let id = found.0;
            &&& v.lookup_global_variable.contains_key(handle)
            &&& v.lookup_global_variable[handle] == found
            &&& if w.lookup_global_variable.contains_key(handle) {
                v == w
            } else {
                let k = v.annotations.len() as int;
                &&& found.1 == w.storage_class(variable.class)
                &&& v.logical_layout.declarations.len() > 0
                &&& is_variable(
                    v,
                    module,
                    v.logical_layout.declarations.last(),
                    id,
                    variable.ty,
                    variable.class,
                    found.1,
                    variable.init,
                )
                &&& 0 <= at <= k
                &&& exists|m: int|
                    {
                        &&& at <= m <= k
                        &&& says_interpolation(
                            #[trigger] v.annotations.subrange(at, m),
                            id,
                            variable.interpolation,
                        )
                        &&& says_binding(v.annotations.subrange(m, k), id, variable.binding)
                    }
            }
        },
{
    broadcast use group_growth;
    reveal(WriterView::global_variable_id);
    reveal(WriterView::new_global_variable);
    if w.lookup_global_variable.contains_key(handle) || !module.global_variables.contains(handle) {
        0
    } else {
        let variable = module.global_variables.at(handle);
        if let Outcome::Done(w1, id) = w.generate_id() {
            lemma_generate(w);
            lemma_initializer(w1, module, variable.init);
            if let Outcome::Done(w2, init) = w1.initializer_id(module, variable.init) {
                lemma_pointer_grows(w2, module.types, variable.ty, variable.class);
                if let Outcome::Done(w3, pointer_id) = w2.pointer_id(
                    module.types,
                    variable.ty,
                    variable.class,
                ) {
                    let w4 = w3.name(id, variable.name);
                    let w5 = w4.decorate_interpolation(id, variable.interpolation);
                    let w6 = w5.decorate_binding(id, variable.binding);
                    law_variables_are_decorated(w4, id, variable.interpolation, variable.binding);
                    if let Outcome::Done(v, found) = w.global_variable_id(module, handle) {
                        let at = w4.annotations.len() as int;
                        let m = w5.annotations.len() as int;
                        assert(v.annotations == w6.annotations);
                        assert(w6.annotations.subrange(at, m) =~= w5.annotations.subrange(at, m))
                            by {
                            assert(w5.annotations =~= w6.annotations.subrange(0, m));
                        }
                        assert(says_interpolation(
                            v.annotations.subrange(at, m),
                            id,
                            variable.interpolation,
                        ));
                        assert(answers_pointer(
                            w2,
                            module.types,
                            variable.ty,
                            variable.class,
                            w3,
                            pointer_id,
                        ));
                        let a = w3.logical_layout.declarations;
                        assert(v.logical_layout.declarations.subrange(0, a.len() as int) =~= a);
                        assert(comes_before(w3, v));
                        if let Some(init_handle) = variable.init {
                            lemma_known_later(w2, w3, init_handle, init->0);
                        }
                    }
                    w4.annotations.len() as int
                } else {
                    0
                }
            } else {
                0
            }
        } else {
            0
        }
    }
}

/// Whether the parameters of a function have the types of its arguments, in their order.
pub open spec fn are_parameters(
    w: WriterView,
    module: Module,
    ir_function: IrFunction,
    n: int,
    parameters: Seq<InstructionView>,
    type_ids: Seq<Word>,
) -> bool {
    &&& parameters.len() == n
    &&& type_ids.len() == n
    &&& forall|i: int|
        #![trigger parameters[i]]
        0 <= i < n ==> is_parameter(w, module, ir_function, i, parameters[i], type_ids[i])
}

/// Whether an instruction is the `i`-th parameter of a function.
pub open spec fn is_parameter(
    w: WriterView,
    module: Module,
    ir_function: IrFunction,
    i: int,
    parameter: InstructionView,
    type_id: Word,
) -> bool {
    &&& parameter.op == spirv::Op::FunctionParameter
    &&& parameter.result_id is Some
    &&& parameter.type_id == Some(type_id)
    &&& parameter.operands.len() == 0
    &&& names_type(w, module.types, LookupType::Handle(ir_function.arguments@[i].ty), type_id)
}

proof fn lemma_parameters(
    d: Draft,
    module: Module,
    ir_function: IrFunction,
    i: nat,
    type_ids: Seq<Word>,
)
    requires
        i <= ir_function.arguments@.len(),
        are_parameters(
            d.writer,
            module,
            ir_function,
            i as int,
            d.function.parameters,
            type_ids,
        ),
    ensures
        d.arguments(module, ir_function, i, type_ids) matches Outcome::Done(e, all) ==> {
            &&& are_parameters(
                e.writer,
                module,
                ir_function,
                ir_function.arguments@.len() as int,
                e.function.parameters,
                all,
            )
            &&& e.function == (FunctionView { parameters: e.function.parameters, ..d.function })
            &&& d.writer.is_kept_by(e.writer)
        },
    decreases ir_function.arguments@.len() - i,
{
    broadcast use group_growth;
    if i < ir_function.arguments@.len() {
        lemma_generate(d.writer);
        if let Outcome::Done(d1, id) = d.generate_id() {
            let ty = LookupType::Handle(ir_function.arguments@[i as int].ty);
            lemma_type_named(d1.writer, module.types, ty);
            if let Outcome::Done(w, type_id) = d1.writer.type_id(module.types, ty) {
                let d2 = Draft { writer: w, function: d1.function };
                let parameter = crate::spv::instructions::op_function_parameter(type_id, id);
                let d3 = d2.with_parameter(parameter);
                let parameters = d3.function.parameters;
                let more = type_ids.push(type_id);
                assert forall|k: int|
                    #![trigger parameters[k]]
                    0 <= k < i + 1 implies is_parameter(
                    w,
                    module,
                    ir_function,
                    k,
                    parameters[k],
                    more[k],
                ) by {
                    if k < i {
                        let old_parameters = d.function.parameters;
                        assert(old_parameters[k] == parameters[k]);
                        assert(is_parameter(
                            d.writer,
                            module,
                            ir_function,
                            k,
                            old_parameters[k],
                            type_ids[k],
                        ));
                        lemma_names_later(
                            d.writer,
                            w,
                            module.types,
                            LookupType::Handle(ir_function.arguments@[k].ty),
                            type_ids[k],
                        );
                    }
                }
                lemma_parameters(d3, module, ir_function, i + 1, more);
            }
        }
    }
}

/// Whether the local variables of a function are declared, in their order.
pub open spec fn are_locals(
    w: WriterView,
    module: Module,
    ir_function: IrFunction,
    n: int,
    variables: Seq<(Word, InstructionView)>,
) -> bool {
    &&& variables.len() == n
    &&& forall|i: int|
        #![trigger variables[i]]
        0 <= i < n ==> is_variable(
            w,
            module,
            variables[i].1,
            variables[i].0,
            ir_function.local_variables.data@[i].ty,
            VariableClass::Function,
            spirv::StorageClass::Function,
            ir_function.local_variables.data@[i].init,
        )
}

proof fn lemma_variable_later(
    v: WriterView,
    w: WriterView,
    module: Module,
    declaration: InstructionView,
    id: Word,
    ty: Handle<Type>,
    class: VariableClass,
    found: spirv::StorageClass,
    init: Option<Handle<Constant>>,
)
    requires
        is_variable(v, module, declaration, id, ty, class, found, init),
        v.is_kept_by(w),
    ensures
        is_variable(w, module, declaration, id, ty, class, found, init),
{
    let type_id = declaration.type_id->0;
    let (a, b) = choose|a: WriterView, b: WriterView| #[trigger]
        answers_pointer(a, module.types, ty, class, b, type_id) && comes_before(b, v);
    lemma_comes_before(v, w);
    lemma_before_by_all(b, v, w);
    assert(answers_pointer(a, module.types, ty, class, b, type_id) && comes_before(b, w));
    if let Some(handle) = init {
        lemma_known_later(v, w, handle, declaration.operands[1]);
    }
}

proof fn lemma_before_by_all(a: WriterView, b: WriterView, c: WriterView)
    requires
        comes_before(a, b),
        comes_before(b, c),
    ensures
        comes_before(a, c),
{
    let first = a.logical_layout.declarations;
    let second = b.logical_layout.declarations;
    let third = c.logical_layout.declarations;
    assert(second =~= third.subrange(0, second.len() as int));
    assert(third.subrange(0, first.len() as int) =~= second.subrange(0, first.len() as int));
}

proof fn lemma_locals(d: Draft, module: Module, ir_function: IrFunction, i: nat)
    requires
        i <= ir_function.local_variables.data@.len(),
        are_locals(d.writer, module, ir_function, i as int, d.function.variables),
    ensures
        d.local_variables(module, ir_function, i) matches Outcome::Done(e, _) ==> {
            &&& are_locals(
                e.writer,
                module,
                ir_function,
                ir_function.local_variables.data@.len() as int,
                e.function.variables,
            )
            &&& e.function == (FunctionView { variables: e.function.variables, ..d.function })
            &&& d.writer.is_kept_by(e.writer)
        },
    decreases ir_function.local_variables.data@.len() - i,
{
    broadcast use group_growth;
    if i < ir_function.local_variables.data@.len() {
        let variable = ir_function.local_variables.data@[i as int];
        lemma_generate(d.writer);
        if let Outcome::Done(d1, id) = d.generate_id() {
            let w1 = d1.writer.name(id, variable.name);
            lemma_initializer(w1, module, variable.init);
            if let Outcome::Done(w2, init) = w1.initializer_id(module, variable.init) {
                let class = VariableClass::Function;
                lemma_pointer_grows(w2, module.types, variable.ty, class);
                if let Outcome::Done(w3, type_id) = w2.pointer_id(
                    module.types,
                    variable.ty,
                    class,
                ) {
                    let found = spirv::StorageClass::Function;
                    let instruction = crate::spv::instructions::op_variable(
                        type_id,
                        id,
                        found,
                        init,
                    );
                    let d3 = (Draft { writer: w3, function: d1.function }).with_variable(
                        id,
                        instruction,
                    );
                    assert(answers_pointer(w2, module.types, variable.ty, class, w3, type_id));
                    lemma_comes_before(w3, w3);
                    if let Some(handle) = variable.init {
                        lemma_known_later(w2, w3, handle, init->0);
                    }
                    assert(is_variable(
                        w3,
                        module,
                        instruction,
                        id,
                        variable.ty,
                        class,
                        found,
                        variable.init,
                    ));
                    let variables = d3.function.variables;
                    let before = d.function.variables;
                    assert forall|k: int| #![trigger variables[k]] 0 <= k < i + 1 implies is_variable(
                        w3,
                        module,
                        variables[k].1,
                        variables[k].0,
                        ir_function.local_variables.data@[k].ty,
                        class,
                        found,
                        ir_function.local_variables.data@[k].init,
                    ) by {
                        if k < i {
                            assert(before[k] == variables[k]);
                            lemma_variable_later(
                                d.writer,
                                w3,
                                module,
                                before[k].1,
                                before[k].0,
                                ir_function.local_variables.data@[k].ty,
                                class,
                                found,
                                ir_function.local_variables.data@[k].init,
                            );
                        }
                    }
                    lemma_locals(d3, module, ir_function, i + 1);
                }
            }
        }
    }
}

/// The head of a function declares its local variables and parameters, in their order and with
/// their types, and names what it returns and the type of functions with these parameters.
pub proof fn law_functions_have_their_signature(w: WriterView, module: Module, ir_function: IrFunction) -> (r: Seq<
    Word,
>)
    ensures
        (Draft { writer: w, function: FunctionView::empty() }).signature(
            module,
            ir_function,
        ) matches Outcome::Done(e, id) ==> {
            let head = e.function.signature->0;
            let n = ir_function.arguments@.len() as int;
            let key = (r, head.type_id->0);
            &&& e.function.signature is Some
            &&& head.op == spirv::Op::Function
            &&& head.result_id == Some(id)
            &&& head.type_id is Some
            &&& match ir_function.return_type {
                Some(ty) => names_type(
                    e.writer,
                    module.types,
                    LookupType::Handle(ty),
                    head.type_id->0,
                ),
                None => e.writer.void_type == Some(head.type_id->0),
            }
            &&& are_parameters(e.writer, module, ir_function, n, e.function.parameters, r)
            &&& are_locals(
                e.writer,
                module,
                ir_function,
                ir_function.local_variables.data@.len() as int,
                e.function.variables,
            )
            &&& head.operands.len() == 2
            &&& e.writer.lookup_function_type.contains_key(key)
            &&& e.writer.lookup_function_type[key] == head.operands[1]
            &&& e.function.blocks.len() == 0
        },
{
    broadcast use group_growth;
    let d = Draft { writer: w, function: FunctionView::empty() };
    let types = module.types;
    lemma_locals(d, module, ir_function, 0);
    if let Outcome::Done(d1, _) = d.local_variables(module, ir_function, 0) {
        lemma_returned(d1.writer, module, ir_function.return_type);
        if let Outcome::Done(w2, return_id) = d1.writer.return_type_id(
            types,
            ir_function.return_type,
        ) {
            let d2 = Draft { writer: w2, function: d1.function };
            lemma_parameters(d2, module, ir_function, 0, Seq::empty());
            if let Outcome::Done(d3, type_ids) = d2.arguments(
                module,
                ir_function,
                0,
                Seq::empty(),
            ) {
                lemma_generate(d3.writer);
                if let Outcome::Done(d4, id) = d3.generate_id() {
                    crate::spv::growth_declarations::lemma_function_type_grows(
                        d4.writer,
                        type_ids,
                        return_id,
                    );
                    if let Outcome::Done(w5, type_id) = d4.writer.function_type_id(
                        type_ids,
                        return_id,
                    ) {
                        lemma_signature_kept(
                            d1,
                            d3,
                            w2,
                            w5,
                            module,
                            ir_function,
                            return_id,
                            type_ids,
                        );
                    }
                }
                type_ids
            } else {
                Seq::empty()
            }
        } else {
            Seq::empty()
        }
    } else {
        Seq::empty()
    }
}

proof fn lemma_signature_kept(
    d1: Draft,
    d3: Draft,
    w2: WriterView,
    w5: WriterView,
    module: Module,
    ir_function: IrFunction,
    return_id: Word,
    type_ids: Seq<Word>,
)
    requires
        d1.writer.is_kept_by(w5),
        w2.is_kept_by(w5),
        d3.writer.is_kept_by(w5),
        are_locals(
            d1.writer,
            module,
            ir_function,
            ir_function.local_variables.data@.len() as int,
            d1.function.variables,
        ),
        are_parameters(
            d3.writer,
            module,
            ir_function,
            ir_function.arguments@.len() as int,
            d3.function.parameters,
            type_ids,
        ),
        is_returned(w2, module, ir_function.return_type, return_id),
    ensures
        are_locals(
            w5,
            module,
            ir_function,
            ir_function.local_variables.data@.len() as int,
            d1.function.variables,
        ),
        are_parameters(
            w5,
            module,
            ir_function,
            ir_function.arguments@.len() as int,
            d3.function.parameters,
            type_ids,
        ),
        is_returned(w5, module, ir_function.return_type, return_id),
{
    let variables = d1.function.variables;
    assert forall|k: int| #![trigger variables[k]] 0 <= k < variables.len() implies is_variable(
        w5,
        module,
        variables[k].1,
        variables[k].0,
        ir_function.local_variables.data@[k].ty,
        VariableClass::Function,
        spirv::StorageClass::Function,
        ir_function.local_variables.data@[k].init,
    ) by {
        lemma_variable_later(
            d1.writer,
            w5,
            module,
            variables[k].1,
            variables[k].0,
            ir_function.local_variables.data@[k].ty,
            VariableClass::Function,
            spirv::StorageClass::Function,
            ir_function.local_variables.data@[k].init,
        );
    }
    let parameters = d3.function.parameters;
    assert forall|k: int| #![trigger parameters[k]] 0 <= k < parameters.len() implies is_parameter(
        w5,
        module,
        ir_function,
        k,
        parameters[k],
        type_ids[k],
    ) by {
        assert(is_parameter(d3.writer, module, ir_function, k, parameters[k], type_ids[k]));
        lemma_names_later(
            d3.writer,
            w5,
            module.types,
            LookupType::Handle(ir_function.arguments@[k].ty),
            type_ids[k],
        );
    }
    if let Some(ty) = ir_function.return_type {
        lemma_names_later(w2, w5, module.types, LookupType::Handle(ty), return_id);
    } else {
        reveal(WriterView::is_kept_by);
        reveal(WriterView::is_remembered_by);
    }
}

/// Whether `id` is the identifier of what a function returns.
pub open spec fn is_returned(w: WriterView, module: Module, ty: Option<Handle<Type>>, id: Word) -> bool {
    match ty {
        Some(ty) => names_type(w, module.types, LookupType::Handle(ty), id),
        None => w.void_type == Some(id),
    }
}

proof fn lemma_returned(w: WriterView, module: Module, ty: Option<Handle<Type>>)
    ensures
        w.return_type_id(module.types, ty) matches Outcome::Done(v, id) ==> {
            &&& is_returned(v, module, ty, id)
            &&& w.is_kept_by(v)
        },
{
    crate::spv::growth_declarations::lemma_return_type_grows(w, module.types, ty);
    reveal(WriterView::return_type_id);
    if let Some(handle) = ty {
        lemma_type_named(w, module.types, LookupType::Handle(handle));
    }
}

/// What a function returns where it returns nothing is declared as the type without values, and
/// a type of functions lists what is returned and then the parameters, in their order.
pub proof fn law_function_types_are_read_back(
    w: WriterView,
    types: Arena<Type>,
    type_ids: Seq<Word>,
    return_id: Word,
)
    ensures
        w.function_type_id(type_ids, return_id) matches Outcome::Done(v, id) ==> {
            let last = v.logical_layout.declarations.last();
            &&& v.lookup_function_type.contains_key((type_ids, return_id))
            &&& v.lookup_function_type[(type_ids, return_id)] == id
            &&& v == w || {
                &&& v.logical_layout.declarations == w.logical_layout.declarations.push(last)
                &&& last.op == spirv::Op::TypeFunction
                &&& last.result_id == Some(id)
                &&& last.operands.len() == 1 + type_ids.len()
                &&& last.operands[0] == return_id
                &&& forall|i: int|
                    0 <= i < type_ids.len() ==> #[trigger] last.operands[1 + i] == type_ids[i]
            }
        },
        w.return_type_id(types, None) matches Outcome::Done(v, id) ==> v == w || {
            let last = v.logical_layout.declarations.last();
            &&& v.logical_layout.declarations == w.logical_layout.declarations.push(last)
            &&& last.op == spirv::Op::TypeVoid
            &&& last.result_id == Some(id)
        },
{
    reveal(WriterView::return_type_id);
}

} // verus!

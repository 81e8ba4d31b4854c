//! Writing functions, entry points and modules.

use crate::arena::Handle;
use crate::headers::{
    addressing_model_capabilities, execution_mode_capabilities, execution_model_capabilities,
    function_control_empty, memory_model_capabilities,
};
use crate::ir::{
    EntryPoint, Function as IrFunction, GlobalUse, GlobalVariable, Module, ShaderStage,
    VariableClass,
};
use crate::layouter::type_layouts;
use crate::spv::error::Error;
use crate::spv::function::{Function, FunctionView, LoopContext};
use crate::spv::instruction::{Instruction, InstructionView};
use crate::spv::instructions::{
    instruction_entry_point, instruction_execution_mode, instruction_ext_inst_import,
    instruction_function, instruction_function_parameter, instruction_memory_model,
    instruction_name, instruction_source, instruction_variable, op_entry_point, op_execution_mode,
    op_ext_inst_import, op_function, op_function_end, op_function_parameter, op_memory_model,
    op_name, op_source, op_variable,
};
use crate::spv::laws::lemma_capabilities_stay;
use crate::spv::lookup::{LookupFunctionType, LookupType};
use crate::spv::model::{outcome, Outcome, WriterView};
use crate::spv::statements::{draft, drafting, law_blocks_are_left, Draft};
use crate::spv::types::listed;
use crate::spv::words::Word;
use crate::spv::write_expressions::instructed;
use crate::spv::writer::Writer;
use spirv_headers as spirv;
use vstd::prelude::*;

verus! {

/// What is left of a step when the function is complete: the writer, and the function.
pub open spec fn completed<T>(step: Outcome<Draft, T>) -> Outcome<WriterView, (FunctionView, T)> {
    match step {
        Outcome::Done(d, result) => Outcome::Done(d.writer, (d.function, result)),
        Outcome::Fail(d, failure) => Outcome::Fail(d.writer, failure),
        Outcome::Stuck => Outcome::Stuck,
    }
}

impl Draft {
    /// Declares the local variables from the `i`-th on.
    pub open spec fn local_variables(self, module: Module, ir_function: IrFunction, i: nat) -> Outcome<
        Draft,
        (),
    >
        decreases ir_function.local_variables.count() - i,
    {
        if i >= ir_function.local_variables.count() {
            Outcome::Done(self, ())
        } else {
            let variable = ir_function.local_variables.data@[i as int];
            self.generate_id().bind(
                |d: Draft, id: Word|
                    drafting(
                        d.writer.name(id, variable.name).initializer_id(module, variable.init),
                        d.function,
                    ).bind(
                        |d: Draft, init: Option<Word>|
                            drafting(
                                d.writer.pointer_id(
                                    module.types,
                                    variable.ty,
                                    VariableClass::Function,
                                ),
                                d.function,
                            ).bind(
                                |d: Draft, pointer_type_id: Word|
                                    d.with_variable(
                                        id,
                                        op_variable(
                                            pointer_type_id,
                                            id,
                                            spirv::StorageClass::Function,
                                            init,
                                        ),
                                    ).local_variables(module, ir_function, i + 1),
                            ),
                    ),
            )
        }
    }

    /// Appends a local variable.
    pub open spec fn with_variable(self, id: Word, instruction: InstructionView) -> Draft {
        Draft {
            function: FunctionView {
                variables: self.function.variables.push((id, instruction)),
                ..self.function
            },
            ..self
        }
    }

    /// Appends a parameter.
    pub open spec fn with_parameter(self, instruction: InstructionView) -> Draft {
        Draft {
            function: FunctionView {
                parameters: self.function.parameters.push(instruction),
                ..self.function
            },
            ..self
        }
    }

    /// Declares the parameters from the `i`-th on. The result is the types of all parameters,
    /// where `type_ids` are those of the parameters before.
    pub open spec fn arguments(
        self,
        module: Module,
        ir_function: IrFunction,
        i: nat,
        type_ids: Seq<Word>,
    ) -> Outcome<Draft, Seq<Word>>
        decreases ir_function.arguments@.len() - i,
    {
        if i >= ir_function.arguments@.len() {
            Outcome::Done(self, type_ids)
        } else {
            self.generate_id().bind(
                |d: Draft, id: Word|
                    drafting(
                        d.writer.type_id(
                            module.types,
                            LookupType::Handle(ir_function.arguments@[i as int].ty),
                        ),
                        d.function,
                    ).bind(
                        |d: Draft, type_id: Word|
                            d.with_parameter(op_function_parameter(type_id, id)).arguments(
                                module,
                                ir_function,
                                i + 1,
                                type_ids.push(type_id),
                            ),
                    ),
            )
        }
    }

    /// Declares the local variables, the parameters and the type of a function. The result is
    /// the identifier of the function.
    pub open spec fn signature(self, module: Module, ir_function: IrFunction) -> Outcome<
        Draft,
        Word,
    > {
        self.local_variables(module, ir_function, 0).bind(
            |d: Draft, _u: ()|
                drafting(
                    d.writer.return_type_id(module.types, ir_function.return_type),
                    d.function,
                ).bind(
                    |d: Draft, return_type_id: Word|
                        d.arguments(module, ir_function, 0, Seq::empty()).bind(
                            |d: Draft, parameter_type_ids: Seq<Word>|
                                d.generate_id().bind(
                                    |d: Draft, id: Word|
                                        drafting(
                                            d.writer.function_type_id(
                                                parameter_type_ids,
                                                return_type_id,
                                            ),
                                            d.function,
                                        ).bind(
                                            |d: Draft, type_id: Word|
                                                Outcome::Done(
                                                    d.with_signature(
                                                        op_function(return_type_id, id, 0, type_id),
                                                    ),
                                                    id,
                                                ),
                                        ),
                                ),
                        ),
                ),
        )
    }

    /// Sets the signature.
    pub open spec fn with_signature(self, instruction: InstructionView) -> Draft {
        Draft {
            function: FunctionView { signature: Some(instruction), ..self.function },
            ..self
        }
    }

    /// Writes a function into an empty draft. The result is the identifier of the function.
    pub open spec fn function(self, module: Module, ir_function: IrFunction) -> Outcome<
        Draft,
        Word,
    > {
        self.signature(module, ir_function).bind(
            |d: Draft, id: Word|
                d.generate_id().bind(
                    |d: Draft, main_id: Word|
                        d.block(
                            module,
                            ir_function,
                            main_id,
                            ir_function.body@,
                            None,
                            LoopContext::outside(),
                        ).bind(|d: Draft, _u: ()| Outcome::Done(d, id)),
                ),
        )
    }
}

/// Whether an entry point exchanges the variable with other stages.
pub open spec fn is_interface(variable: GlobalVariable, usage: GlobalUse) -> bool {
    (variable.class == VariableClass::Input || variable.class == VariableClass::Output)
        && usage.bits != 0
}

/// The stage of SPIR-V that an entry point is for.
pub open spec fn execution_model(stage: ShaderStage) -> spirv::ExecutionModel {
    match stage {
        ShaderStage::Vertex => spirv::ExecutionModel::Vertex,
        ShaderStage::Fragment => spirv::ExecutionModel::Fragment,
        ShaderStage::Compute => spirv::ExecutionModel::GLCompute,
    }
}

impl WriterView {
    /// Writes a function, and returns its identifier.
    #[verifier::opaque]
    pub open spec fn function(self, module: Module, ir_function: IrFunction) -> Outcome<
        WriterView,
        Word,
    > {
        completed(draft(self, FunctionView::empty()).function(module, ir_function)).bind(
            |w: WriterView, written: (FunctionView, Word)|
                Outcome::Done(
                    w.define(written.0.instructions().push(op_function_end())),
                    written.1,
                ),
        )
    }

    /// The global variables from the `i`-th on that an entry point exchanges with other stages,
    /// behind `ids`.
    pub open spec fn interface_ids(
        self,
        module: Module,
        usage: Seq<GlobalUse>,
        i: nat,
        ids: Seq<Word>,
    ) -> Outcome<WriterView, Seq<Word>>
        decreases usage.len() - i,
    {
        if i >= module.global_variables.count() || i >= usage.len() {
            Outcome::Done(self, ids)
        } else if is_interface(module.global_variables.data@[i as int], usage[i as int]) {
            self.global_variable_id(module, handle_at(i)).bind(
                |w: WriterView, variable: (Word, spirv::StorageClass)|
                    w.interface_ids(module, usage, i + 1, ids.push(variable.0)),
            )
        } else {
            self.interface_ids(module, usage, i + 1, ids)
        }
    }

    /// Chooses the execution mode that a stage needs, if any.
    pub open spec fn stage_mode(self, entry_point: EntryPoint, function_id: Word) -> Outcome<
        WriterView,
        (),
    > {
        match entry_point.stage {
            ShaderStage::Vertex => Outcome::Done(self, ()),
            ShaderStage::Fragment => self.mode(
                function_id,
                spirv::ExecutionMode::OriginUpperLeft,
                Seq::empty(),
            ),
            ShaderStage::Compute => self.mode(
                function_id,
                spirv::ExecutionMode::LocalSize,
                entry_point.workgroup_size@,
            ),
        }
    }

    /// Chooses an execution mode, if it is supported.
    pub open spec fn mode(
        self,
        function_id: Word,
        mode: spirv::ExecutionMode,
        arguments: Seq<Word>,
    ) -> Outcome<WriterView, ()> {
        self.check(execution_mode_capabilities(mode)).bind(
            |w: WriterView, _u: ()|
                Outcome::Done(w.set_mode(op_execution_mode(function_id, mode, arguments)), ()),
        )
    }

    /// Writes the function of an entry point, and returns the declaration of the entry point.
    #[verifier::opaque]
    pub open spec fn entry_point(self, module: Module, entry_point: EntryPoint) -> Outcome<
        WriterView,
        InstructionView,
    > {
        let model = execution_model(entry_point.stage);
        self.function(module, entry_point.function).bind(
            |w: WriterView, id: Word|
                w.interface_ids(
                    module,
                    entry_point.function.global_usage@,
                    0,
                    Seq::empty(),
                ).bind(
                    |w: WriterView, interface_ids: Seq<Word>|
                        w.stage_mode(entry_point, id).bind(
                            |w: WriterView, _u: ()|
                                w.check(execution_model_capabilities(model)).bind(
                                    |w: WriterView, _u: ()|
                                        Outcome::Done(
                                            w.note(op_name(id, entry_point.name@)),
                                            op_entry_point(
                                                model,
                                                id,
                                                entry_point.name@,
                                                interface_ids,
                                            ),
                                        ),
                                ),
                        ),
                ),
        )
    }

    /// Remembers which types the first `n` global variables access as storage.
    pub open spec fn storage_types(self, module: Module, n: nat) -> WriterView
        decreases n,
    {
        if n == 0 {
            self
        } else {
            let w = self.storage_types(module, (n - 1) as nat);
            let variable = module.global_variables.data@[n - 1];
            if variable.storage_access.bits == 0 {
                w
            } else {
                WriterView {
                    storage_type_handles: w.storage_type_handles.insert(variable.ty, ()),
                    ..w
                }
            }
        }
    }

    /// Writes the functions from the `i`-th on.
    pub open spec fn functions(self, module: Module, i: nat) -> Outcome<WriterView, ()>
        decreases module.functions.count() - i,
    {
        if i >= module.functions.count() {
            Outcome::Done(self, ())
        } else {
            self.function(module, module.functions.data@[i as int]).bind(
                |w: WriterView, id: Word|
                    w.remember_function(handle_at(i), id).functions(module, i + 1),
            )
        }
    }

    /// Writes the entry points from the `i`-th on.
    pub open spec fn entry_points(self, module: Module, i: nat) -> Outcome<WriterView, ()>
        decreases module.entry_points@.len() - i,
    {
        if i >= module.entry_points@.len() {
            Outcome::Done(self, ())
        } else {
            self.entry_point(module, module.entry_points@[i as int]).bind(
                |w: WriterView, instruction: InstructionView|
                    w.enter(instruction).entry_points(module, i + 1),
            )
        }
    }

    /// Imports the extended instructions and notes the source language.
    pub open spec fn prologue(self) -> Outcome<WriterView, ()> {
        self.generate_id().bind(
            |w: WriterView, id: Word|
                Outcome::Done(
                    (WriterView { gl450_ext_inst_id: id, ..w }).import(
                        op_ext_inst_import(id, "GLSL.std.450"@),
                    ).note(op_source(spirv::SourceLanguage::GLSL, 450)),
                    (),
                ),
        )
    }

    /// Declares the capabilities and the memory model, and puts the names and decorations where
    /// they belong.
    pub open spec fn epilogue(self) -> Outcome<WriterView, ()> {
        let addressing_model = spirv::AddressingModel::Logical;
        let memory_model = spirv::MemoryModel::GLSL450;
        self.require_all(self.capabilities).check(
            addressing_model_capabilities(addressing_model),
        ).bind(
            |w: WriterView, _u: ()|
                w.check(memory_model_capabilities(memory_model)).bind(
                    |w: WriterView, _u: ()|
                        Outcome::Done(
                            w.set_memory_model(
                                op_memory_model(addressing_model, memory_model),
                            ).arrange(),
                            (),
                        ),
                ),
        )
    }

    /// Writes all parts of a module.
    pub open spec fn logical_layout(self, module: Module) -> Outcome<WriterView, ()> {
        self.prologue().bind(
            |w: WriterView, _u: ()|
                w.storage_types(module, module.global_variables.count()).functions(
                    module,
                    0,
                ).bind(
                    |w: WriterView, _u: ()|
                        w.entry_points(module, 0).bind(|w: WriterView, _u: ()| w.epilogue()),
                ),
        )
    }

    /// Writes a module. The result is its words.
    pub open spec fn module(self, module: Module) -> Outcome<WriterView, Seq<Word>> {
        match type_layouts(module.types.data@, module.constants, module.types.count()) {
            None => Outcome::Stuck,
            Some(layouts) => (WriterView { layouts, ..self }).logical_layout(module).bind(
                |w: WriterView, _u: ()|
                    if w.id_count == u32::MAX {
                        Outcome::Stuck
                    } else {
                        Outcome::Done(w.with_bound(), w.with_bound().words())
                    },
            ),
        }
    }
}

/// The handle of the `i`-th item of an arena.
pub open spec fn handle_at<T>(i: nat) -> Handle<T> {
    Handle { index: i as u32, marker: std::marker::PhantomData }
}

impl Writer {
    /// Declares the local variables of a function.
    fn write_local_variables(
        &mut self,
        ir_function: &IrFunction,
        module: &Module,
        function: &mut Function,
    ) -> (result: Result<(), Error>)
        requires
            !(draft(old(self)@, old(function)@).local_variables(
                *module,
                *ir_function,
                0,
            ) is Stuck),
        ensures
            outcome(draft(final(self)@, final(function)@), result) == draft(
                old(self)@,
                old(function)@,
            ).local_variables(*module, *ir_function, 0),
            final(function)@.blocks == old(function)@.blocks,
    {
        let mut i: usize = 0;
        let ghost whole = draft(self@, function@).local_variables(*module, *ir_function, 0);
        while i < ir_function.local_variables.data.len()
            invariant
                i <= ir_function.local_variables.data@.len(),
                function@.blocks == old(function)@.blocks,
                !(whole is Stuck),
                whole == draft(old(self)@, old(function)@).local_variables(
                    *module,
                    *ir_function,
                    0,
                ),
                whole == draft(self@, function@).local_variables(
                    *module,
                    *ir_function,
                    i as nat,
                ),
            decreases ir_function.local_variables.data@.len() - i,
        {
            let variable = &ir_function.local_variables.data[i];
            let id = self.generate_id();
            self.name(id, &variable.name);
            let init = self.write_initializer(variable.init, module)?;
            let pointer_type_id = self.get_pointer_id(
                &module.types,
                variable.ty,
                VariableClass::Function,
            )?;
            function.add_variable(
                id,
                instruction_variable(pointer_type_id, id, spirv::StorageClass::Function, init),
            );
            i = i + 1;
        }
        Ok(())
    }

    /// Declares the parameters of a function, and returns their types.
    fn write_arguments(
        &mut self,
        ir_function: &IrFunction,
        module: &Module,
        function: &mut Function,
    ) -> (result: Result<Vec<Word>, Error>)
        requires
            !(draft(old(self)@, old(function)@).arguments(
                *module,
                *ir_function,
                0,
                Seq::empty(),
            ) is Stuck),
        ensures
            listed(draft(final(self)@, final(function)@), result) == draft(
                old(self)@,
                old(function)@,
            ).arguments(*module, *ir_function, 0, Seq::empty()),
            final(function)@.blocks == old(function)@.blocks,
    {
        let mut type_ids: Vec<Word> = Vec::new();
        let mut i: usize = 0;
        let ghost whole = draft(self@, function@).arguments(
            *module,
            *ir_function,
            0,
            Seq::empty(),
        );
        assert(type_ids@ =~= Seq::empty());
        while i < ir_function.arguments.len()
            invariant
                i <= ir_function.arguments@.len(),
                function@.blocks == old(function)@.blocks,
                !(whole is Stuck),
                whole == draft(old(self)@, old(function)@).arguments(
                    *module,
                    *ir_function,
                    0,
                    Seq::empty(),
                ),
                whole == draft(self@, function@).arguments(
                    *module,
                    *ir_function,
                    i as nat,
                    type_ids@,
                ),
            decreases ir_function.arguments@.len() - i,
        {
            let id = self.generate_id();
            let type_id = self.get_type_id(
                &module.types,
                LookupType::Handle(ir_function.arguments[i].ty),
            )?;
            type_ids.push(type_id);
            function.add_parameter(instruction_function_parameter(type_id, id));
            i = i + 1;
        }
        Ok(type_ids)
    }

    /// Declares the local variables, the parameters and the type of a function, and returns the
    /// identifier of the function.
    fn write_signature(
        &mut self,
        ir_function: &IrFunction,
        module: &Module,
        function: &mut Function,
    ) -> (result: Result<Word, Error>)
        requires
            !(draft(old(self)@, old(function)@).signature(*module, *ir_function) is Stuck),
        ensures
            outcome(draft(final(self)@, final(function)@), result) == draft(
                old(self)@,
                old(function)@,
            ).signature(*module, *ir_function),
            final(function)@.blocks == old(function)@.blocks,
    {
        self.write_local_variables(ir_function, module, function)?;
        let return_type_id = self.get_function_return_type(
            ir_function.return_type,
            &module.types,
        )?;
        let parameter_type_ids = self.write_arguments(ir_function, module, function)?;
        let id = self.generate_id();
        let type_id = self.get_function_type(
            LookupFunctionType { parameter_type_ids, return_type_id },
        );
        function.signature = Some(
            instruction_function(return_type_id, id, function_control_empty(), type_id),
        );
        Ok(id)
    }

    /// Writes a function, and returns its identifier.
    pub fn write_function(&mut self, ir_function: &IrFunction, module: &Module) -> (result: Result<
        Word,
        Error,
    >)
        requires
            !(old(self)@.function(*module, *ir_function) is Stuck),
        ensures
            outcome(final(self)@, result) == old(self)@.function(*module, *ir_function),
    {
        proof {
            reveal(WriterView::function);
            reveal(FunctionView::gains_blocks);
        }
        let mut function = Function::new();
        let id = self.write_signature(ir_function, module, &mut function)?;
        let main_id = self.generate_id();
        proof {
            law_blocks_are_left(
                draft(self@, function@),
                *module,
                *ir_function,
                main_id,
                ir_function.body@,
                None,
                LoopContext::outside(),
            );
        }
        self.write_block(
            main_id,
            &ir_function.body,
            module,
            ir_function,
            &mut function,
            None,
            LoopContext::new(),
        )?;
        self.define(&function);
        Ok(id)
    }

    /// The global variables that an entry point exchanges with other stages.
    fn write_interface(&mut self, usage: &Vec<GlobalUse>, module: &Module) -> (result: Result<
        Vec<Word>,
        Error,
    >)
        requires
            !(old(self)@.interface_ids(*module, usage@, 0, Seq::empty()) is Stuck),
        ensures
            listed(final(self)@, result) == old(self)@.interface_ids(
                *module,
                usage@,
                0,
                Seq::empty(),
            ),
    {
        let mut ids: Vec<Word> = Vec::new();
        let mut i: usize = 0;
        let ghost whole = self@.interface_ids(*module, usage@, 0, Seq::empty());
        assert(ids@ =~= Seq::empty());
        while i < module.global_variables.data.len() && i < usage.len()
            invariant
                i <= usage@.len(),
                !(whole is Stuck),
                whole == old(self)@.interface_ids(*module, usage@, 0, Seq::empty()),
                whole == self@.interface_ids(*module, usage@, i as nat, ids@),
            decreases usage@.len() - i,
        {
            let io = match module.global_variables.data[i].class {
                VariableClass::Input | VariableClass::Output => !usage[i].is_empty(),
                _ => false,
            };
            if io {
                let (id, _) = self.get_global_variable_id(module, Handle::new(i as u32))?;
                ids.push(id);
            }
            i = i + 1;
        }
        Ok(ids)
    }

    /// Chooses an execution mode, if it is supported.
    fn write_mode(&mut self, function_id: Word, mode: spirv::ExecutionMode, arguments: &[Word]) -> (result:
        Result<(), Error>)
        ensures
            outcome(final(self)@, result) == old(self)@.mode(function_id, mode, arguments@),
    {
        self.check(mode.required_capabilities())?;
        self.set_mode(&instruction_execution_mode(function_id, mode, arguments));
        Ok(())
    }

    /// Writes the function of an entry point, and returns the declaration of the entry point.
    pub fn write_entry_point(&mut self, entry_point: &EntryPoint, module: &Module) -> (result: Result<
        Instruction,
        Error,
    >)
        requires
            !(old(self)@.entry_point(*module, *entry_point) is Stuck),
        ensures
            instructed(final(self)@, result) == old(self)@.entry_point(*module, *entry_point),
    {
        proof {
            reveal(WriterView::entry_point);
        }
        let id = self.write_function(&entry_point.function, module)?;
        let interface_ids = self.write_interface(&entry_point.function.global_usage, module)?;
        let model = match entry_point.stage {
            ShaderStage::Vertex => spirv::ExecutionModel::Vertex,
            ShaderStage::Fragment => {
                self.write_mode(id, spirv::ExecutionMode::OriginUpperLeft, &[])?;
                spirv::ExecutionModel::Fragment
            },
            ShaderStage::Compute => {
                self.write_mode(id, spirv::ExecutionMode::LocalSize, &entry_point.workgroup_size)?;
                spirv::ExecutionModel::GLCompute
            },
        };
        self.check(model.required_capabilities())?;
        self.note(instruction_name(id, entry_point.name.as_str()));
        Ok(
            instruction_entry_point(
                model,
                id,
                entry_point.name.as_str(),
                interface_ids.as_slice(),
            ),
        )
    }

    /// Remembers which types are accessed as storage.
    fn write_storage_types(&mut self, module: &Module)
        ensures
            final(self)@ == old(self)@.storage_types(*module, module.global_variables.count()),
    {
        let mut i: usize = 0;
        while i < module.global_variables.data.len()
            invariant
                i <= module.global_variables.data@.len(),
                self@ == old(self)@.storage_types(*module, i as nat),
            decreases module.global_variables.data@.len() - i,
        {
            let variable = &module.global_variables.data[i];
            if !variable.storage_access.is_empty() {
                self.mark_storage_type(variable.ty);
            }
            i = i + 1;
        }
    }

    /// Writes all functions.
    fn write_functions(&mut self, module: &Module) -> (result: Result<(), Error>)
        requires
            !(old(self)@.functions(*module, 0) is Stuck),
        ensures
            outcome(final(self)@, result) == old(self)@.functions(*module, 0),
    {
        let mut i: usize = 0;
        let ghost whole = self@.functions(*module, 0);
        while i < module.functions.data.len()
            invariant
                i <= module.functions.data@.len(),
                !(whole is Stuck),
                whole == old(self)@.functions(*module, 0),
                whole == self@.functions(*module, i as nat),
            decreases module.functions.data@.len() - i,
        {
            let id = self.write_function(&module.functions.data[i], module)?;
            self.remember_function(Handle::new(i as u32), id);
            i = i + 1;
        }
        Ok(())
    }

    /// Writes all entry points.
    fn write_entry_points(&mut self, module: &Module) -> (result: Result<(), Error>)
        requires
            !(old(self)@.entry_points(*module, 0) is Stuck),
        ensures
            outcome(final(self)@, result) == old(self)@.entry_points(*module, 0),
    {
        let mut i: usize = 0;
        let ghost whole = self@.entry_points(*module, 0);
        while i < module.entry_points.len()
            invariant
                i <= module.entry_points@.len(),
                !(whole is Stuck),
                whole == old(self)@.entry_points(*module, 0),
                whole == self@.entry_points(*module, i as nat),
            decreases module.entry_points@.len() - i,
        {
            let instruction = self.write_entry_point(&module.entry_points[i], module)?;
            self.enter(&instruction);
            i = i + 1;
        }
        Ok(())
    }

    /// Writes all parts of a module.
    pub fn write_logical_layout(&mut self, module: &Module) -> (result: Result<(), Error>)
        requires
            !(old(self)@.logical_layout(*module) is Stuck),
        ensures
            outcome(final(self)@, result) == old(self)@.logical_layout(*module),
            final(self)@.capabilities.no_duplicates(),
    {
        proof {
            lemma_capabilities_stay(self@, *module);
        }
        let id = self.generate_id();
        self.set_gl450_ext_inst_id(id);
        self.import(&instruction_ext_inst_import(id, "GLSL.std.450"));
        self.note(instruction_source(spirv::SourceLanguage::GLSL, 450));
        self.write_storage_types(module);
        self.write_functions(module)?;
        self.write_entry_points(module)?;
        self.require_capabilities();
        let addressing_model = spirv::AddressingModel::Logical;
        let memory_model = spirv::MemoryModel::GLSL450;
        self.check(addressing_model.required_capabilities())?;
        self.check(memory_model.required_capabilities())?;
        self.set_memory_model(&instruction_memory_model(addressing_model, memory_model));
        self.arrange();
        Ok(())
    }

    /// Writes a module, and appends its words to `words`.
    pub fn write(&mut self, module: &Module, words: &mut Vec<Word>) -> (result: Result<(), Error>)
        requires
            !(old(self)@.module(*module) is Stuck),
        ensures
            match result {
                Ok(_) => old(self)@.module(*module) == Outcome::Done(
                    final(self)@,
                    final(self)@.words(),
                ) && final(words)@ == old(words)@ + final(self)@.words(),
                Err(error) => old(self)@.module(*module) == Outcome::<WriterView, Seq<Word>>::Fail(
                    final(self)@,
                    error@,
                ) && final(words)@ == old(words)@,
            },
            final(self)@.capabilities.no_duplicates(),
    {
        self.lay_out(&module.types, &module.constants);
        self.write_logical_layout(module)?;
        self.write_physical_layout();
        self.in_words(words);
        Ok(())
    }
}

} // verus!

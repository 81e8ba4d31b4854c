//! The writer and its elementary steps.

use crate::arena::{Arena, Handle};
use crate::ir::{
    Bytes, Constant, Function, GlobalVariable, Header, ScalarKind, Type, VariableClass,
};
use crate::layouter::{type_layouts, Layouter, TypeLayout};
use crate::spv::error::Error;
use crate::spv::function::Function as SpvFunction;
use crate::spv::instruction::{lemma_views_push, views, Instruction};
use crate::spv::instructions::{
    instruction_capability, instruction_function_end, instruction_name, instruction_type_bool,
    instruction_type_float, instruction_type_int, op_function_end, Signedness,
};
use crate::spv::layout::{LogicalLayout, LogicalLayoutView, PhysicalLayout};
use crate::spv::lookup::{LookupFunctionType, LookupType};
use crate::spv::model::{
    outcome, scalar_declaration, storage_class, width_fits, Outcome, WriterFlags, WriterView,
};
use crate::spv::table::{CapabilitySet, Table};
use crate::spv::words::Word;
use spirv_headers as spirv;
use vstd::prelude::*;

verus! {

/// The number of bits in a byte.
const BITS_PER_BYTE: Bytes = 8;

/// Writes modules as SPIR-V.
pub struct Writer {
    physical_layout: PhysicalLayout,
    logical_layout: LogicalLayout,
    id_count: u32,
    capabilities: CapabilitySet,
    debugs: Vec<Instruction>,
    annotations: Vec<Instruction>,
    flags: WriterFlags,
    void_type: Option<Word>,
    lookup_type: Table<LookupType, Word>,
    lookup_function: Table<Handle<Function>, Word>,
    lookup_function_type: Table<LookupFunctionType, Word>,
    lookup_constant: Table<Handle<Constant>, Word>,
    lookup_global_variable: Table<Handle<GlobalVariable>, (Word, spirv::StorageClass)>,
    storage_type_handles: Table<Handle<Type>, ()>,
    gl450_ext_inst_id: Word,
    layouter: Layouter,
}

impl View for Writer {
    type V = WriterView;

    closed spec fn view(&self) -> WriterView {
        WriterView {
            physical_layout: self.physical_layout,
            logical_layout: self.logical_layout@,
            id_count: self.id_count,
            capabilities: self.capabilities@,
            debugs: views(self.debugs@),
            annotations: views(self.annotations@),
            flags: self.flags,
            void_type: self.void_type,
            lookup_type: self.lookup_type@,
            lookup_function: self.lookup_function@,
            lookup_function_type: self.lookup_function_type@,
            lookup_constant: self.lookup_constant@,
            lookup_global_variable: self.lookup_global_variable@,
            storage_type_handles: self.storage_type_handles@,
            gl450_ext_inst_id: self.gl450_ext_inst_id,
            layouts: self.layouter@,
        }
    }
}

impl Writer {
    /// A writer for modules with header `header` that may rely on `capabilities`.
    pub fn new(header: &Header, flags: WriterFlags, capabilities: CapabilitySet) -> (writer: Self)
        ensures
            writer@ == WriterView::initial(*header, flags, capabilities@),
            writer@.capabilities.no_duplicates(),
    {
        proof {
            use_type_invariant(&capabilities);
        }
        Writer {
            physical_layout: PhysicalLayout::new(header),
            logical_layout: LogicalLayout::new(),
            id_count: 0,
            capabilities,
            debugs: Vec::new(),
            annotations: Vec::new(),
            flags,
            void_type: None,
            lookup_type: Table::new(),
            lookup_function: Table::new(),
            lookup_function_type: Table::new(),
            lookup_constant: Table::new(),
            lookup_global_variable: Table::new(),
            storage_type_handles: Table::new(),
            gl450_ext_inst_id: 0,
            layouter: Layouter::new(),
        }
    }

    /// How many identifiers were handed out: the last of them.
    pub fn id_count(&self) -> (count: u32)
        ensures
            count == self@.id_count,
    {
        self.id_count
    }

    /// The words that stand in front of a module.
    pub fn physical_layout(&self) -> (layout: &PhysicalLayout)
        ensures
            *layout == self@.physical_layout,
    {
        &self.physical_layout
    }

    /// Hands out an identifier that was not handed out before.
    pub fn generate_id(&mut self) -> (id: Word)
        requires
            old(self)@.id_count < u32::MAX,
        ensures
            Outcome::Done(final(self)@, id) == old(self)@.generate_id(),
            final(self)@.capabilities.no_duplicates(),
    {
        proof {
            use_type_invariant(&self.capabilities);
        }
        self.id_count = self.id_count + 1;
        self.id_count
    }

    /// Refuses the module unless one of `required` was given to the writer, or none is required.
    pub fn check(&mut self, required: &[spirv::Capability]) -> (result: Result<(), Error>)
        ensures
            outcome(final(self)@, result) == old(self)@.check(required@),
    {
        if required.len() == 0 {
            return Ok(());
        }
        let mut missing: Vec<spirv::Capability> = Vec::new();
        let mut i: usize = 0;
        while i < required.len()
            invariant
                i <= required@.len(),
                missing@ == required@.take(i as int),
                forall|k: int|
                    0 <= k < i ==> !self@.capabilities.contains(#[trigger] required@[k]),
                self@ == old(self)@,
            decreases required@.len() - i,
        {
            let capability: spirv::Capability = required[i];
            if self.capabilities.contains(capability) {
                assert(self@.capabilities.contains(required@[i as int]));
                return Ok(());
            }
            missing.push(capability);
            i = i + 1;
            assert(missing@ =~= required@.take(i as int));
        }
        assert(missing@ =~= required@);
        Err(Error::MissingCapabilities(missing))
    }

    /// Appends to the imports of extended instructions.
    pub(crate) fn import(&mut self, instruction: &Instruction)
        ensures
            final(self)@ == old(self)@.import(instruction@),
    {
        self.logical_layout.ext_inst_imports.push(instruction);
    }

    /// Appends to the declared capabilities.
    pub(crate) fn require(&mut self, instruction: &Instruction)
        ensures
            final(self)@ == old(self)@.require(instruction@),
    {
        self.logical_layout.capabilities.push(instruction);
    }

    /// Appends to the choice of the memory model.
    pub(crate) fn set_memory_model(&mut self, instruction: &Instruction)
        ensures
            final(self)@ == old(self)@.set_memory_model(instruction@),
    {
        self.logical_layout.memory_model.push(instruction);
    }

    /// Appends to the entry points.
    pub(crate) fn enter(&mut self, instruction: &Instruction)
        ensures
            final(self)@ == old(self)@.enter(instruction@),
    {
        self.logical_layout.entry_points.push(instruction);
    }

    /// Appends to the execution modes.
    pub(crate) fn set_mode(&mut self, instruction: &Instruction)
        ensures
            final(self)@ == old(self)@.set_mode(instruction@),
    {
        self.logical_layout.execution_modes.push(instruction);
    }

    /// Appends to the declarations of types, constants and variables.
    pub(crate) fn declare(&mut self, instruction: &Instruction)
        ensures
            final(self)@ == old(self)@.declare(instruction@),
    {
        self.logical_layout.declarations.push(instruction);
    }

    /// Appends a function to the function definitions.
    pub(crate) fn define(&mut self, function: &SpvFunction)
        requires
            function@.signature is Some,
            function@.is_terminated(),
        ensures
            final(self)@ == old(self)@.define(
                function@.instructions().push(op_function_end()),
            ),
    {
        self.logical_layout.function_definitions.push_function(function);
        self.logical_layout.function_definitions.push(&instruction_function_end());
        assert(self@.logical_layout.function_definitions
            =~= old(self)@.logical_layout.function_definitions
            + function@.instructions().push(op_function_end()));
    }

    /// Appends to the decorations.
    pub(crate) fn annotate(&mut self, instruction: Instruction)
        ensures
            final(self)@ == old(self)@.annotate(instruction@),
    {
        proof {
            lemma_views_push(self.annotations@, instruction);
        }
        self.annotations.push(instruction);
    }

    /// Whether debug information is kept.
    pub(crate) fn debugging(&self) -> (on: bool)
        ensures
            on == (self@.flags == WriterFlags::DEBUG),
    {
        self.flags == WriterFlags::DEBUG
    }

    /// Appends to the debug information.
    pub(crate) fn note(&mut self, instruction: Instruction)
        ensures
            final(self)@ == old(self)@.note(instruction@),
    {
        if self.debugging() {
            proof {
                lemma_views_push(self.debugs@, instruction);
            }
            self.debugs.push(instruction);
        }
    }

    /// Notes the name of an identifier, if it has one.
    pub(crate) fn name(&mut self, id: Word, name: &Option<String>)
        ensures
            final(self)@ == old(self)@.name(id, *name),
    {
        if let Some(text) = name {
            self.note(instruction_name(id, text.as_str()));
        }
    }

    /// The identifier of a type, if it was declared.
    pub(crate) fn find_type(&self, ty: LookupType) -> (id: Option<Word>)
        ensures
            id == (if self@.lookup_type.contains_key(ty) {
                Some(self@.lookup_type[ty])
            } else {
                None
            }),
    {
        self.lookup_type.get(&ty)
    }

    pub(crate) fn remember_type(&mut self, ty: LookupType, id: Word)
        ensures
            final(self)@ == old(self)@.remember_type(ty, id),
    {
        self.lookup_type.insert(ty, id);
    }

    /// The identifier of a constant, if it was declared.
    pub(crate) fn find_constant(&self, handle: Handle<Constant>) -> (id: Option<Word>)
        ensures
            id == (if self@.lookup_constant.contains_key(handle) {
                Some(self@.lookup_constant[handle])
            } else {
                None
            }),
    {
        self.lookup_constant.get(&handle)
    }

    pub(crate) fn remember_constant(&mut self, handle: Handle<Constant>, id: Word)
        ensures
            final(self)@ == old(self)@.remember_constant(handle, id),
    {
        self.lookup_constant.insert(handle, id);
    }

    /// The identifier and storage class of a global variable, if it was declared.
    pub(crate) fn find_global_variable(&self, handle: Handle<GlobalVariable>) -> (found: Option<
        (Word, spirv::StorageClass),
    >)
        ensures
            found == (if self@.lookup_global_variable.contains_key(handle) {
                Some(self@.lookup_global_variable[handle])
            } else {
                None
            }),
    {
        self.lookup_global_variable.get(&handle)
    }

    pub(crate) fn remember_global_variable(
        &mut self,
        handle: Handle<GlobalVariable>,
        id: Word,
        class: spirv::StorageClass,
    )
        ensures
            final(self)@ == old(self)@.remember_global_variable(handle, id, class),
    {
        self.lookup_global_variable.insert(handle, (id, class));
    }

    /// The identifier of a function, if it was written.
    pub(crate) fn find_function(&self, handle: Handle<Function>) -> (id: Option<Word>)
        ensures
            id == (if self@.lookup_function.contains_key(handle) {
                Some(self@.lookup_function[handle])
            } else {
                None
            }),
    {
        self.lookup_function.get(&handle)
    }

    pub(crate) fn remember_function(&mut self, handle: Handle<Function>, id: Word)
        ensures
            final(self)@ == old(self)@.remember_function(handle, id),
    {
        self.lookup_function.insert(handle, id);
    }

    /// The identifier of a type of functions, if it was declared.
    pub(crate) fn find_function_type(&self, ty: &LookupFunctionType) -> (id: Option<Word>)
        ensures
            id == (if self@.lookup_function_type.contains_key(
                (ty.parameter_type_ids@, ty.return_type_id),
            ) {
                Some(self@.lookup_function_type[(ty.parameter_type_ids@, ty.return_type_id)])
            } else {
                None
            }),
    {
        self.lookup_function_type.get(ty)
    }

    pub(crate) fn remember_function_type(&mut self, ty: LookupFunctionType, id: Word)
        ensures
            final(self)@ == old(self)@.remember_function_type(
                ty.parameter_type_ids@,
                ty.return_type_id,
                id,
            ),
    {
        self.lookup_function_type.insert(ty, id);
    }

    pub(crate) fn void_type(&self) -> (id: Option<Word>)
        ensures
            id == self@.void_type,
    {
        self.void_type
    }

    pub(crate) fn set_void_type(&mut self, id: Word)
        ensures
            final(self)@ == (WriterView { void_type: Some(id), ..old(self)@ }),
    {
        self.void_type = Some(id);
    }

    pub(crate) fn gl450_ext_inst_id(&self) -> (id: Word)
        ensures
            id == self@.gl450_ext_inst_id,
    {
        self.gl450_ext_inst_id
    }

    pub(crate) fn set_gl450_ext_inst_id(&mut self, id: Word)
        ensures
            final(self)@ == (WriterView { gl450_ext_inst_id: id, ..old(self)@ }),
    {
        self.gl450_ext_inst_id = id;
    }

    /// Whether variables of this type are accessed as storage.
    pub(crate) fn is_storage_type(&self, handle: Handle<Type>) -> (storage: bool)
        ensures
            storage == self@.storage_type_handles.contains_key(handle),
    {
        self.storage_type_handles.get(&handle).is_some()
    }

    pub(crate) fn mark_storage_type(&mut self, handle: Handle<Type>)
        ensures
            final(self)@ == (WriterView {
                storage_type_handles: old(self)@.storage_type_handles.insert(handle, ()),
                ..old(self)@
            }),
    {
        self.storage_type_handles.insert(handle, ());
    }

    /// Appends the declarations of all capabilities that were given to the writer.
    pub(crate) fn require_capabilities(&mut self)
        ensures
            final(self)@ == old(self)@.require_all(old(self)@.capabilities),
    {
        let ghost start = self@;
        let mut i: usize = 0;
        assert(self@.logical_layout.capabilities =~= start.require_all(
            start.capabilities.take(0),
        ).logical_layout.capabilities);
        while i < self.capabilities.len()
            invariant
                i <= self@.capabilities.len(),
                self@ == start.require_all(start.capabilities.take(i as int)),
                self@.capabilities == start.capabilities,
            decreases self@.capabilities.len() - i,
        {
            let capability = self.capabilities.get(i);
            self.require(&instruction_capability(capability));
            i = i + 1;
            assert(self@.logical_layout.capabilities =~= start.require_all(
                start.capabilities.take(i as int),
            ).logical_layout.capabilities);
        }
        assert(start.capabilities.take(i as int) =~= start.capabilities);
    }

    /// Moves copies of the names and decorations to the parts of the module where they belong.
    pub(crate) fn arrange(&mut self)
        ensures
            final(self)@ == old(self)@.arrange(),
    {
        let ghost start = self@;
        let debugging = self.debugging();
        let mut i: usize = 0;
        assert(views(self.debugs@).take(0) =~= Seq::empty());
        assert(self@.logical_layout.debugs =~= start.logical_layout.debugs
            + start.debugs.take(0));
        while debugging && i < self.debugs.len()
            invariant
                i <= self.debugs@.len(),
                debugging == (start.flags == WriterFlags::DEBUG),
                !debugging ==> i == 0,
                self@ == (WriterView {
                    logical_layout: LogicalLayoutView {
                        debugs: start.logical_layout.debugs + start.debugs.take(i as int),
                        ..start.logical_layout
                    },
                    ..start
                }),
            decreases self.debugs@.len() - i,
        {
            assert(self@.debugs[i as int] == self.debugs@[i as int]@);
            self.logical_layout.debugs.push(&self.debugs[i]);
            i = i + 1;
            assert(self@.logical_layout.debugs =~= start.logical_layout.debugs
                + start.debugs.take(i as int));
        }
        assert(debugging ==> start.debugs.take(i as int) =~= start.debugs);
        let ghost middle = self@;
        let mut j: usize = 0;
        assert(self@.logical_layout.annotations =~= middle.logical_layout.annotations
            + middle.annotations.take(0));
        while j < self.annotations.len()
            invariant
                j <= self.annotations@.len(),
                self@ == (WriterView {
                    logical_layout: LogicalLayoutView {
                        annotations: middle.logical_layout.annotations + middle.annotations.take(
                            j as int,
                        ),
                        ..middle.logical_layout
                    },
                    ..middle
                }),
            decreases self.annotations@.len() - j,
        {
            assert(self@.annotations[j as int] == self.annotations@[j as int]@);
            self.logical_layout.annotations.push(&self.annotations[j]);
            j = j + 1;
            assert(self@.logical_layout.annotations =~= middle.logical_layout.annotations
                + middle.annotations.take(j as int));
        }
        assert(middle.annotations.take(j as int) =~= middle.annotations);
    }

    /// Appends the module to `sink`.
    pub(crate) fn in_words(&self, sink: &mut Vec<Word>)
        ensures
            final(sink)@ == old(sink)@ + self@.words(),
    {
        self.physical_layout.in_words(sink);
        self.logical_layout.in_words(sink);
        assert(sink@ =~= old(sink)@ + self@.words());
    }

    /// Finds the layouts of all types.
    pub(crate) fn lay_out(&mut self, types: &Arena<Type>, constants: &Arena<Constant>)
        requires
            type_layouts(types.data@, *constants, types.count()) is Some,
        ensures
            final(self)@ == (WriterView {
                layouts: type_layouts(types.data@, *constants, types.count())->0,
                ..old(self)@
            }),
    {
        self.layouter.initialize(types, constants);
    }

    /// The layout of a type.
    pub(crate) fn layout(&self, handle: Handle<Type>) -> (layout: TypeLayout)
        requires
            handle.index < self@.layouts.len(),
        ensures
            layout == self@.layouts[handle.index as int],
    {
        self.layouter.resolve(handle)
    }

    /// The declaration of a scalar type.
    pub fn write_scalar(&self, id: Word, kind: ScalarKind, width: Bytes) -> (instruction:
        Instruction)
        requires
            width_fits(width),
        ensures
            instruction@ == scalar_declaration(id, kind, width),
    {
        let bits: u32 = (width * BITS_PER_BYTE) as u32;
        match kind {
            ScalarKind::Sint => instruction_type_int(id, bits, Signedness::Signed),
            ScalarKind::Uint => instruction_type_int(id, bits, Signedness::Unsigned),
            ScalarKind::Float => instruction_type_float(id, bits),
            ScalarKind::Bool => instruction_type_bool(id),
        }
    }

    /// The storage class of SPIR-V for variables of class `class`.
    pub fn parse_to_spirv_storage_class(&self, class: VariableClass) -> (spirv_class:
        spirv::StorageClass)
        ensures
            spirv_class == self@.storage_class(class),
    {
        match class {
            VariableClass::Handle => spirv::StorageClass::UniformConstant,
            VariableClass::Function => spirv::StorageClass::Function,
            VariableClass::Input => spirv::StorageClass::Input,
            VariableClass::Output => spirv::StorageClass::Output,
            VariableClass::Private => spirv::StorageClass::Private,
            VariableClass::Storage => {
                if self.physical_layout.supports_storage_buffers() {
                    spirv::StorageClass::StorageBuffer
                } else {
                    spirv::StorageClass::Uniform
                }
            },
            VariableClass::Uniform => spirv::StorageClass::Uniform,
            VariableClass::WorkGroup => spirv::StorageClass::Workgroup,
            VariableClass::PushConstant => spirv::StorageClass::PushConstant,
        }
    }

    /// Sets the bound of the identifiers: one more than the last that was handed out.
    pub fn write_physical_layout(&mut self)
        requires
            old(self)@.id_count < u32::MAX,
        ensures
            final(self)@ == old(self)@.with_bound(),
    {
        self.physical_layout.bound = self.id_count + 1;
    }
}

} // verus!

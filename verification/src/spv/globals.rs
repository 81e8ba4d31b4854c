//! Declaring global variables.

use crate::arena::Handle;
use crate::headers::storage_class_capabilities;
use crate::ir::{Binding, Builtin, GlobalVariable, Interpolation, Module};
use crate::spv::error::Error;
use crate::spv::instruction::{Instruction, InstructionView};
use crate::spv::instructions::{
    instruction_decorate, instruction_variable, op_decorate, op_variable,
};
use crate::spv::model::{Outcome, WriterView, outcome};
use crate::spv::words::Word;
use crate::spv::writer::Writer;
use spirv_headers as spirv;
use vstd::prelude::*;

verus! {

/// The decoration for a way to interpolate, unless it is the usual one.
pub open spec fn interpolation_decoration(interpolation: Interpolation) -> Option<
    spirv::Decoration,
> {
    match interpolation {
        Interpolation::Linear => Some(spirv::Decoration::NoPerspective),
        Interpolation::Flat => Some(spirv::Decoration::Flat),
        Interpolation::Patch => Some(spirv::Decoration::Patch),
        Interpolation::Centroid => Some(spirv::Decoration::Centroid),
        Interpolation::Sample => Some(spirv::Decoration::Sample),
        Interpolation::Perspective => None,
    }
}

/// The value of SPIR-V that a variable is bound to.
pub open spec fn built_in_value(built_in: Builtin) -> spirv::BuiltIn {
    match built_in {
        Builtin::BaseInstance => spirv::BuiltIn::BaseInstance,
        Builtin::BaseVertex => spirv::BuiltIn::BaseVertex,
        Builtin::ClipDistance => spirv::BuiltIn::ClipDistance,
        Builtin::InstanceIndex => spirv::BuiltIn::InstanceIndex,
        Builtin::PointSize => spirv::BuiltIn::PointSize,
        Builtin::Position => spirv::BuiltIn::Position,
        Builtin::VertexIndex => spirv::BuiltIn::VertexIndex,
        Builtin::FragCoord => spirv::BuiltIn::FragCoord,
        Builtin::FragDepth => spirv::BuiltIn::FragDepth,
        Builtin::FrontFacing => spirv::BuiltIn::FrontFacing,
        Builtin::SampleIndex => spirv::BuiltIn::SampleId,
        Builtin::SampleMaskIn => spirv::BuiltIn::SampleMask,
        Builtin::SampleMaskOut => spirv::BuiltIn::SampleMask,
        Builtin::GlobalInvocationId => spirv::BuiltIn::GlobalInvocationId,
        Builtin::LocalInvocationId => spirv::BuiltIn::LocalInvocationId,
        Builtin::LocalInvocationIndex => spirv::BuiltIn::LocalInvocationIndex,
        Builtin::WorkGroupId => spirv::BuiltIn::WorkgroupId,
        Builtin::WorkGroupSize => spirv::BuiltIn::WorkgroupSize,
    }
}

/// The value of SPIR-V that a variable is bound to.
fn map_built_in(built_in: Builtin) -> (value: spirv::BuiltIn)
    ensures
        value == built_in_value(built_in),
{
    match built_in {
        Builtin::BaseInstance => spirv::BuiltIn::BaseInstance,
        Builtin::BaseVertex => spirv::BuiltIn::BaseVertex,
        Builtin::ClipDistance => spirv::BuiltIn::ClipDistance,
        Builtin::InstanceIndex => spirv::BuiltIn::InstanceIndex,
        Builtin::PointSize => spirv::BuiltIn::PointSize,
        Builtin::Position => spirv::BuiltIn::Position,
        Builtin::VertexIndex => spirv::BuiltIn::VertexIndex,
        // fragment
        Builtin::FragCoord => spirv::BuiltIn::FragCoord,
        Builtin::FragDepth => spirv::BuiltIn::FragDepth,
        Builtin::FrontFacing => spirv::BuiltIn::FrontFacing,
        Builtin::SampleIndex => spirv::BuiltIn::SampleId,
        Builtin::SampleMaskIn => spirv::BuiltIn::SampleMask,
        Builtin::SampleMaskOut => spirv::BuiltIn::SampleMask,
        // compute
        Builtin::GlobalInvocationId => spirv::BuiltIn::GlobalInvocationId,
        Builtin::LocalInvocationId => spirv::BuiltIn::LocalInvocationId,
        Builtin::LocalInvocationIndex => spirv::BuiltIn::LocalInvocationIndex,
        Builtin::WorkGroupId => spirv::BuiltIn::WorkgroupId,
        Builtin::WorkGroupSize => spirv::BuiltIn::WorkgroupSize,
    }
}

impl WriterView {
    /// Decorates a variable with the way in which it is interpolated.
    pub open spec fn decorate_interpolation(
        self,
        id: Word,
        interpolation: Option<Interpolation>,
    ) -> WriterView {
        match interpolation {
            Some(interpolation) => match interpolation_decoration(interpolation) {
                Some(decoration) => self.annotate(op_decorate(id, decoration, Seq::empty())),
                None => self,
            },
            None => self,
        }
    }

    /// Decorates a variable with what it is bound to.
    pub open spec fn decorate_binding(self, id: Word, binding: Option<Binding>) -> WriterView {
        match binding {
            Some(Binding::Location(location)) => self.annotate(
                op_decorate(id, spirv::Decoration::Location, seq![location]),
            ),
            Some(Binding::Resource { group, binding }) => self.annotate(
                op_decorate(id, spirv::Decoration::DescriptorSet, seq![group]),
            ).annotate(op_decorate(id, spirv::Decoration::Binding, seq![binding])),
            Some(Binding::BuiltIn(built_in)) => self.annotate(
                op_decorate(
                    id,
                    spirv::Decoration::BuiltIn,
                    seq![built_in_value(built_in) as u32],
                ),
            ),
            None => self,
        }
    }

    /// Names and decorates a new global variable. The result is its declaration, its identifier
    /// and its storage class.
    #[verifier::opaque]
    pub open spec fn new_global_variable(
        self,
        module: Module,
        handle: Handle<GlobalVariable>,
    ) -> Outcome<WriterView, (InstructionView, Word, spirv::StorageClass)> {
        if !module.global_variables.contains(handle) {
            Outcome::Stuck
        } else {
            let variable = module.global_variables.at(handle);
            let class = self.storage_class(variable.class);
            self.generate_id().bind(
                |w: WriterView, id: Word|
                    w.check(storage_class_capabilities(class)).bind(
                        |w: WriterView, _u: ()|
                            w.initializer_id(module, variable.init).bind(
                                |w: WriterView, init: Option<Word>|
                                    w.pointer_id(module.types, variable.ty, variable.class).bind(
                                        |w: WriterView, pointer_type_id: Word|
                                            Outcome::Done(
                                                w.name(id, variable.name).decorate_interpolation(
                                                    id,
                                                    variable.interpolation,
                                                ).decorate_binding(
                                                    id,
                                                    variable.binding,
                                                ).remember_global_variable(handle, id, class),
                                                (
                                                    op_variable(pointer_type_id, id, class, init),
                                                    id,
                                                    class,
                                                ),
                                            ),
                                    ),
                            ),
                    ),
            )
        }
    }

    /// The identifier and the storage class of a global variable, which is declared unless it
    /// was before.
    #[verifier::opaque]
    pub open spec fn global_variable_id(self, module: Module, handle: Handle<GlobalVariable>) -> Outcome<
        WriterView,
        (Word, spirv::StorageClass),
    > {
        if self.lookup_global_variable.contains_key(handle) {
            Outcome::Done(self, self.lookup_global_variable[handle])
        } else {
            self.new_global_variable(module, handle).bind(
                |w: WriterView, variable: (InstructionView, Word, spirv::StorageClass)|
                    Outcome::Done(w.declare(variable.0), (variable.1, variable.2)),
            )
        }
    }
}

/// How the writing of a global variable ended.
pub open spec fn variable_outcome(
    state: WriterView,
    result: Result<(Instruction, Word, spirv::StorageClass), Error>,
) -> Outcome<WriterView, (InstructionView, Word, spirv::StorageClass)> {
    match result {
        Ok(variable) => Outcome::Done(state, (variable.0@, variable.1, variable.2)),
        Err(error) => Outcome::Fail(state, error@),
    }
}

impl Writer {
    /// Decorates a variable with the way in which it is interpolated.
    fn write_interpolation(&mut self, id: Word, interpolation: Option<Interpolation>)
        ensures
            final(self)@ == old(self)@.decorate_interpolation(id, interpolation),
    {
        if let Some(interpolation) = interpolation {
            let decoration = match interpolation {
                Interpolation::Linear => Some(spirv::Decoration::NoPerspective),
                Interpolation::Flat => Some(spirv::Decoration::Flat),
                Interpolation::Patch => Some(spirv::Decoration::Patch),
                Interpolation::Centroid => Some(spirv::Decoration::Centroid),
                Interpolation::Sample => Some(spirv::Decoration::Sample),
                Interpolation::Perspective => None,
            };
            if let Some(decoration) = decoration {
                self.annotate(instruction_decorate(id, decoration, &[]));
            }
        }
    }

    /// Decorates a variable with what it is bound to.
    fn write_binding(&mut self, id: Word, binding: Option<Binding>)
        ensures
            final(self)@ == old(self)@.decorate_binding(id, binding),
    {
        match binding {
            Some(Binding::Location(location)) => {
                let operands = [location];
                assert(operands@ =~= seq![location]);
                self.annotate(instruction_decorate(id, spirv::Decoration::Location, &operands));
            },
            Some(Binding::Resource { group, binding }) => {
                let operands = [group];
                assert(operands@ =~= seq![group]);
                self.annotate(
                    instruction_decorate(id, spirv::Decoration::DescriptorSet, &operands),
                );
                let operands = [binding];
                assert(operands@ =~= seq![binding]);
                self.annotate(instruction_decorate(id, spirv::Decoration::Binding, &operands));
            },
            Some(Binding::BuiltIn(built_in)) => {
                let value: u32 = map_built_in(built_in) as u32;
                let operands = [value];
                assert(operands@ =~= seq![value]);
                self.annotate(instruction_decorate(id, spirv::Decoration::BuiltIn, &operands));
            },
            None => {},
        }
    }

    /// Names and decorates a new global variable, and returns its declaration, its identifier
    /// and its storage class.
    pub fn write_global_variable(&mut self, module: &Module, handle: Handle<GlobalVariable>) -> (result:
        Result<(Instruction, Word, spirv::StorageClass), Error>)
        requires
            !(old(self)@.new_global_variable(*module, handle) is Stuck),
        ensures
            variable_outcome(final(self)@, result) == old(self)@.new_global_variable(
                *module,
                handle,
            ),
    {
        proof {
            reveal(WriterView::new_global_variable);
        }
        let variable = module.global_variables.get(handle);
        let id = self.generate_id();
        let class = self.parse_to_spirv_storage_class(variable.class);
        self.check(class.required_capabilities())?;
        let init = self.write_initializer(variable.init, module)?;
        let pointer_type_id = self.get_pointer_id(&module.types, variable.ty, variable.class)?;
        let instruction = instruction_variable(pointer_type_id, id, class, init);
        self.name(id, &variable.name);
        self.write_interpolation(id, variable.interpolation);
        self.write_binding(id, variable.binding);
        self.remember_global_variable(handle, id, class);
        Ok((instruction, id, class))
    }

    /// The identifier and the storage class of a global variable, which is declared unless it
    /// was before.
    pub fn get_global_variable_id(&mut self, module: &Module, handle: Handle<GlobalVariable>) -> (result:
        Result<(Word, spirv::StorageClass), Error>)
        requires
            !(old(self)@.global_variable_id(*module, handle) is Stuck),
        ensures
            outcome(final(self)@, result) == old(self)@.global_variable_id(*module, handle),
    {
        proof {
            reveal(WriterView::global_variable_id);
        }
        match self.find_global_variable(handle) {
            Some(found) => Ok(found),
            None => {
                let (instruction, id, class) = self.write_global_variable(module, handle)?;
                self.declare(&instruction);
                Ok((id, class))
            },
        }
    }
}

} // verus!

//! What the writer knows and has written, as mathematics, and the elementary steps on it.
//!
//! The functions that write a part of a module are described by what they make of such a state.
//! A step ends in one of three ways, see [`Outcome`]; a longer description is a chain of steps
//! that breaks off at the first one that is not done.

use crate::arena::Handle;
use crate::ir::{Bytes, Constant, Function, GlobalVariable, Header, ScalarKind, Type, VariableClass};
use crate::layouter::TypeLayout;
use crate::spv::error::{Error, Failure};
use crate::spv::instruction::{encode, InstructionView};
use crate::spv::instructions::{
    op_capability, op_name, op_type_bool, op_type_float, op_type_int, Signedness,
};
use crate::spv::layout::{LogicalLayoutView, PhysicalLayout};
use crate::spv::lookup::LookupType;
use crate::spv::words::Word;
use spirv_headers as spirv;
use vstd::prelude::*;

verus! {

/// How a step ends.
pub enum Outcome<S, T> {
    /// The step is done: the state that it leads to, and its result.
    Done(S, T),
    /// The module is refused: the state that is left behind, and the reason.
    Fail(S, Failure),
    /// The module is malformed in a way that the writer does not look for (a handle that leads
    /// nowhere, an operand of a type that the operator is not made for, references that run in
    /// a circle), or there are no more identifiers. The writer is not meant for such a module.
    Stuck,
}

impl<S, T> Outcome<S, T> {
    /// Goes on with `next` where the step is done.
    pub open spec fn bind<U>(self, next: spec_fn(S, T) -> Outcome<S, U>) -> Outcome<S, U> {
        match self {
            Outcome::Done(state, result) => next(state, result),
            Outcome::Fail(state, failure) => Outcome::Fail(state, failure),
            Outcome::Stuck => Outcome::Stuck,
        }
    }
}

/// How a step ended that left `state` behind and returned `result`.
pub open spec fn outcome<S, T>(state: S, result: Result<T, Error>) -> Outcome<S, T> {
    match result {
        Ok(result) => Outcome::Done(state, result),
        Err(error) => Outcome::Fail(state, error@),
    }
}

/// The step that refuses what is not implemented.
pub open spec fn not_implemented<S, T>(state: S, feature: Seq<char>) -> Outcome<S, T> {
    Outcome::Fail(state, Failure::FeatureNotImplemented(feature))
}

/// Which extra information a module is written with.
#[derive(Clone, Copy, Debug, PartialEq, Eq, Structural)]
pub enum WriterFlags {
    NONE,
    /// Names are written too.
    DEBUG,
}

/// The state of a writer.
#[verifier::ext_equal]
pub struct WriterView {
    pub physical_layout: PhysicalLayout,
    pub logical_layout: LogicalLayoutView,
    /// The last identifier that was handed out.
    pub id_count: u32,
    pub capabilities: Seq<spirv::Capability>,
    pub debugs: Seq<InstructionView>,
    pub annotations: Seq<InstructionView>,
    pub flags: WriterFlags,
    pub void_type: Option<Word>,
    pub lookup_type: Map<LookupType, Word>,
    pub lookup_function: Map<Handle<Function>, Word>,
    pub lookup_function_type: Map<(Seq<Word>, Word), Word>,
    pub lookup_constant: Map<Handle<Constant>, Word>,
    pub lookup_global_variable: Map<Handle<GlobalVariable>, (Word, spirv::StorageClass)>,
    pub storage_type_handles: Map<Handle<Type>, ()>,
    pub gl450_ext_inst_id: Word,
    pub layouts: Seq<TypeLayout>,
}

/// The storage class of SPIR-V for variables of class `class`.
pub open spec fn storage_class(class: VariableClass, layout: PhysicalLayout) -> spirv::StorageClass {
    match class {
        VariableClass::Handle => spirv::StorageClass::UniformConstant,
        VariableClass::Function => spirv::StorageClass::Function,
        VariableClass::Input => spirv::StorageClass::Input,
        VariableClass::Output => spirv::StorageClass::Output,
        VariableClass::Private => spirv::StorageClass::Private,
        VariableClass::Storage => if layout.has_storage_buffers() {
            spirv::StorageClass::StorageBuffer
        } else {
            spirv::StorageClass::Uniform
        },
        VariableClass::Uniform => spirv::StorageClass::Uniform,
        VariableClass::WorkGroup => spirv::StorageClass::Workgroup,
        VariableClass::PushConstant => spirv::StorageClass::PushConstant,
    }
}

/// Whether the number of bits in `width` bytes fits a byte, in which it is computed.
pub open spec fn width_fits(width: Bytes) -> bool {
    width < 32
}

/// The declaration of a scalar type.
pub open spec fn scalar_declaration(id: Word, kind: ScalarKind, width: Bytes) -> InstructionView {
    let bits = (8 * width) as u32;
    match kind {
        ScalarKind::Sint => op_type_int(id, bits, Signedness::Signed),
        ScalarKind::Uint => op_type_int(id, bits, Signedness::Unsigned),
        ScalarKind::Float => op_type_float(id, bits),
        ScalarKind::Bool => op_type_bool(id),
    }
}

/// The declarations of capabilities.
pub open spec fn capability_declarations(capabilities: Seq<spirv::Capability>) -> Seq<
    InstructionView,
> {
    capabilities.map_values(|capability: spirv::Capability| op_capability(capability))
}

impl WriterView {
    /// A writer that has not written anything.
    pub open spec fn initial(
        header: Header,
        flags: WriterFlags,
        capabilities: Seq<spirv::Capability>,
    ) -> WriterView {
        WriterView {
            physical_layout: PhysicalLayout::initial(header),
            logical_layout: LogicalLayoutView::empty(),
            id_count: 0,
            capabilities,
            debugs: Seq::empty(),
            annotations: Seq::empty(),
            flags,
            void_type: None,
            lookup_type: Map::empty(),
            lookup_function: Map::empty(),
            lookup_function_type: Map::empty(),
            lookup_constant: Map::empty(),
            lookup_global_variable: Map::empty(),
            storage_type_handles: Map::empty(),
            gl450_ext_inst_id: 0,
            layouts: Seq::empty(),
        }
    }

    /// Hands out the next identifier, unless there is none left.
    pub open spec fn generate_id(self) -> Outcome<WriterView, Word> {
        if self.id_count == u32::MAX {
            Outcome::Stuck
        } else {
            let id = (self.id_count + 1) as u32;
            Outcome::Done(WriterView { id_count: id, ..self }, id)
        }
    }

    /// Whether one of `required` was given to the writer, or nothing is required.
    pub open spec fn supports(self, required: Seq<spirv::Capability>) -> bool {
        required.len() == 0 || exists|i: int|
            0 <= i < required.len() && self.capabilities.contains(#[trigger] required[i])
    }

    /// Refuses the module unless what it needs is supported.
    pub open spec fn check(self, required: Seq<spirv::Capability>) -> Outcome<WriterView, ()> {
        if self.supports(required) {
            Outcome::Done(self, ())
        } else {
            Outcome::Fail(self, Failure::MissingCapabilities(required))
        }
    }

    /// Appends to the declarations of types, constants and variables.
    pub open spec fn declare(self, instruction: InstructionView) -> WriterView {
        WriterView {
            logical_layout: LogicalLayoutView {
                declarations: self.logical_layout.declarations.push(instruction),
                ..self.logical_layout
            },
            ..self
        }
    }

    /// Appends to the imports of extended instructions.
    pub open spec fn import(self, instruction: InstructionView) -> WriterView {
        WriterView {
            logical_layout: LogicalLayoutView {
                ext_inst_imports: self.logical_layout.ext_inst_imports.push(instruction),
                ..self.logical_layout
            },
            ..self
        }
    }

    /// Appends to the declared capabilities.
    pub open spec fn require(self, instruction: InstructionView) -> WriterView {
        WriterView {
            logical_layout: LogicalLayoutView {
                capabilities: self.logical_layout.capabilities.push(instruction),
                ..self.logical_layout
            },
            ..self
        }
    }

    /// Appends the declarations of capabilities.
    pub open spec fn require_all(self, capabilities: Seq<spirv::Capability>) -> WriterView {
        WriterView {
            logical_layout: LogicalLayoutView {
                capabilities: self.logical_layout.capabilities + capability_declarations(
                    capabilities,
                ),
                ..self.logical_layout
            },
            ..self
        }
    }

    /// Puts the names, if they are wanted, and the decorations where they belong.
    pub open spec fn arrange(self) -> WriterView {
        WriterView {
            logical_layout: LogicalLayoutView {
                debugs: if self.flags == WriterFlags::DEBUG {
                    self.logical_layout.debugs + self.debugs
                } else {
                    self.logical_layout.debugs
                },
                annotations: self.logical_layout.annotations + self.annotations,
                ..self.logical_layout
            },
            ..self
        }
    }

    /// The words of the module.
    pub open spec fn words(self) -> Seq<Word> {
        self.physical_layout.words() + encode(self.logical_layout.instructions())
    }

    /// Appends to the choice of the memory model.
    pub open spec fn set_memory_model(self, instruction: InstructionView) -> WriterView {
        WriterView {
            logical_layout: LogicalLayoutView {
                memory_model: self.logical_layout.memory_model.push(instruction),
                ..self.logical_layout
            },
            ..self
        }
    }

    /// Appends to the entry points.
    pub open spec fn enter(self, instruction: InstructionView) -> WriterView {
        WriterView {
            logical_layout: LogicalLayoutView {
                entry_points: self.logical_layout.entry_points.push(instruction),
                ..self.logical_layout
            },
            ..self
        }
    }

    /// Appends to the execution modes.
    pub open spec fn set_mode(self, instruction: InstructionView) -> WriterView {
        WriterView {
            logical_layout: LogicalLayoutView {
                execution_modes: self.logical_layout.execution_modes.push(instruction),
                ..self.logical_layout
            },
            ..self
        }
    }

    /// Appends to the function definitions.
    pub open spec fn define(self, instructions: Seq<InstructionView>) -> WriterView {
        WriterView {
            logical_layout: LogicalLayoutView {
                function_definitions: self.logical_layout.function_definitions + instructions,
                ..self.logical_layout
            },
            ..self
        }
    }

    /// Appends to the decorations.
    pub open spec fn annotate(self, instruction: InstructionView) -> WriterView {
        WriterView { annotations: self.annotations.push(instruction), ..self }
    }

    /// Appends to the debug information, which is kept only if the writer was asked for it.
    pub open spec fn note(self, instruction: InstructionView) -> WriterView {
        if self.flags == WriterFlags::DEBUG {
            WriterView { debugs: self.debugs.push(instruction), ..self }
        } else {
            self
        }
    }

    /// Notes the name of an identifier, if it has one.
    pub open spec fn name(self, id: Word, name: Option<String>) -> WriterView {
        match name {
            Some(text) => self.note(op_name(id, text@)),
            None => self,
        }
    }

    pub open spec fn remember_type(self, ty: LookupType, id: Word) -> WriterView {
        WriterView { lookup_type: self.lookup_type.insert(ty, id), ..self }
    }

    pub open spec fn remember_constant(self, handle: Handle<Constant>, id: Word) -> WriterView {
        WriterView { lookup_constant: self.lookup_constant.insert(handle, id), ..self }
    }

    pub open spec fn remember_global_variable(
        self,
        handle: Handle<GlobalVariable>,
        id: Word,
        class: spirv::StorageClass,
    ) -> WriterView {
        WriterView {
            lookup_global_variable: self.lookup_global_variable.insert(handle, (id, class)),
            ..self
        }
    }

    pub open spec fn remember_function(self, handle: Handle<Function>, id: Word) -> WriterView {
        WriterView { lookup_function: self.lookup_function.insert(handle, id), ..self }
    }

    pub open spec fn remember_function_type(
        self,
        parameter_type_ids: Seq<Word>,
        return_type_id: Word,
        id: Word,
    ) -> WriterView {
        WriterView {
            lookup_function_type: self.lookup_function_type.insert(
                (parameter_type_ids, return_type_id),
                id,
            ),
            ..self
        }
    }

    /// Sets the bound of the identifiers to one more than the last that was handed out.
    pub open spec fn with_bound(self) -> WriterView {
        WriterView {
            physical_layout: PhysicalLayout {
                bound: (self.id_count + 1) as u32,
                ..self.physical_layout
            },
            ..self
        }
    }

    /// The storage class of SPIR-V for variables of class `class`.
    pub open spec fn storage_class(self, class: VariableClass) -> spirv::StorageClass {
        storage_class(class, self.physical_layout)
    }
}

} // verus!

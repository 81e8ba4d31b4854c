//! The instructions that the writer emits, each with what it says.

use crate::ir::{ImageClass, StorageFormat, VectorSize};
use crate::spv::instruction::{optional, Instruction, InstructionView};
use crate::spv::words::{string_to_words, text_words, Word};
use spirv_headers as spirv;
use vstd::prelude::*;

verus! {

/// Whether a type of integers has negative ones.
#[derive(Clone, Copy, Debug, PartialEq, Eq, Structural)]
pub enum Signedness {
    Unsigned,
    Signed,
}

impl Signedness {
    pub open spec fn number(self) -> Word {
        match self {
            Signedness::Unsigned => 0,
            Signedness::Signed => 1,
        }
    }

    pub fn word(self) -> (word: Word)
        ensures
            word == self.number(),
    {
        match self {
            Signedness::Unsigned => 0,
            Signedness::Signed => 1,
        }
    }
}

/// Whether the level of detail of an image access is given or derived.
#[derive(Clone, Copy, Debug, PartialEq, Eq, Structural)]
pub enum SampleLod {
    Explicit,
    Implicit,
}

/// Appends `words` to `list`.
fn append(list: &mut Vec<Word>, words: &[Word])
    ensures
        final(list)@ == old(list)@ + words@,
{
    let ghost head = list@;
    let mut i: usize = 0;
    while i < words.len()
        invariant
            i <= words@.len(),
            list@ == head + words@.take(i as int),
        decreases words@.len() - i,
    {
        list.push(words[i]);
        i = i + 1;
        assert(list@ =~= head + words@.take(i as int));
    }
    assert(words@.take(i as int) =~= words@);
}

/// Declares a capability.
pub open spec fn op_capability(capability: spirv::Capability) -> InstructionView {
    InstructionView {
        op: spirv::Op::Capability,
        type_id: None,
        result_id: None,
        operands: seq![capability as u32],
    }
}

/// Declares a capability.
pub fn instruction_capability(capability: spirv::Capability) -> (instruction: Instruction)
    ensures
        instruction@ == op_capability(capability),
{
    Instruction::new(spirv::Op::Capability, None, None, vec![capability as u32])
}

/// Imports the extended instructions called `name`.
pub open spec fn op_ext_inst_import(id: Word, name: Seq<char>) -> InstructionView {
    InstructionView {
        op: spirv::Op::ExtInstImport,
        type_id: None,
        result_id: Some(id),
        operands: text_words(name),
    }
}

/// Imports the extended instructions called `name`.
pub fn instruction_ext_inst_import(id: Word, name: &str) -> (instruction: Instruction)
    ensures
        instruction@ == op_ext_inst_import(id, name@),
{
    let mut operands: Vec<Word> = Vec::new();
    append(&mut operands, string_to_words(name).as_slice());
    Instruction::new(spirv::Op::ExtInstImport, None, Some(id), operands)
}

/// Sets the addressing model and the memory model.
pub open spec fn op_memory_model(
    addressing_model: spirv::AddressingModel,
    memory_model: spirv::MemoryModel,
) -> InstructionView {
    InstructionView {
        op: spirv::Op::MemoryModel,
        type_id: None,
        result_id: None,
        operands: seq![addressing_model as u32, memory_model as u32],
    }
}

/// Sets the addressing model and the memory model.
pub fn instruction_memory_model(
    addressing_model: spirv::AddressingModel,
    memory_model: spirv::MemoryModel,
) -> (instruction: Instruction)
    ensures
        instruction@ == op_memory_model(addressing_model, memory_model),
{
    Instruction::new(spirv::Op::MemoryModel, None, None, vec![addressing_model as u32, memory_model as u32])
}

/// Declares an entry point with the variables of its interface.
pub open spec fn op_entry_point(
    model: spirv::ExecutionModel,
    id: Word,
    name: Seq<char>,
    interface_ids: Seq<Word>,
) -> InstructionView {
    InstructionView {
        op: spirv::Op::EntryPoint,
        type_id: None,
        result_id: None,
        operands: seq![model as u32, id] + text_words(name) + interface_ids,
    }
}

/// Declares an entry point with the variables of its interface.
pub fn instruction_entry_point(
    model: spirv::ExecutionModel,
    id: Word,
    name: &str,
    interface_ids: &[Word],
) -> (instruction: Instruction)
    ensures
        instruction@ == op_entry_point(model, id, name@, interface_ids@),
{
    let mut operands: Vec<Word> = vec![model as u32, id];
    append(&mut operands, string_to_words(name).as_slice());
    append(&mut operands, interface_ids);
    Instruction::new(spirv::Op::EntryPoint, None, None, operands)
}

/// Declares an execution mode of an entry point.
pub open spec fn op_execution_mode(
    entry_point_id: Word,
    mode: spirv::ExecutionMode,
    arguments: Seq<Word>,
) -> InstructionView {
    InstructionView {
        op: spirv::Op::ExecutionMode,
        type_id: None,
        result_id: None,
        operands: seq![entry_point_id, mode as u32] + arguments,
    }
}

/// Declares an execution mode of an entry point.
pub fn instruction_execution_mode(
    entry_point_id: Word,
    mode: spirv::ExecutionMode,
    arguments: &[Word],
) -> (instruction: Instruction)
    ensures
        instruction@ == op_execution_mode(entry_point_id, mode, arguments@),
{
    let mut operands: Vec<Word> = vec![entry_point_id, mode as u32];
    append(&mut operands, arguments);
    Instruction::new(spirv::Op::ExecutionMode, None, None, operands)
}

/// Says which language and version the module was written in.
pub open spec fn op_source(language: spirv::SourceLanguage, version: Word) -> InstructionView {
    InstructionView {
        op: spirv::Op::Source,
        type_id: None,
        result_id: None,
        operands: seq![language as u32, version],
    }
}

/// Says which language and version the module was written in.
pub fn instruction_source(
    language: spirv::SourceLanguage,
    version: Word,
) -> (instruction: Instruction)
    ensures
        instruction@ == op_source(language, version),
{
    Instruction::new(spirv::Op::Source, None, None, vec![language as u32, version])
}

/// Names an identifier.
pub open spec fn op_name(target_id: Word, name: Seq<char>) -> InstructionView {
    InstructionView {
        op: spirv::Op::Name,
        type_id: None,
        result_id: None,
        operands: seq![target_id] + text_words(name),
    }
}

/// Names an identifier.
pub fn instruction_name(target_id: Word, name: &str) -> (instruction: Instruction)
    ensures
        instruction@ == op_name(target_id, name@),
{
    let mut operands: Vec<Word> = vec![target_id];
    append(&mut operands, string_to_words(name).as_slice());
    Instruction::new(spirv::Op::Name, None, None, operands)
}

/// Names a member of a structure.
pub open spec fn op_member_name(target_id: Word, member: Word, name: Seq<char>) -> InstructionView {
    InstructionView {
        op: spirv::Op::MemberName,
        type_id: None,
        result_id: None,
        operands: seq![target_id, member] + text_words(name),
    }
}

/// Names a member of a structure.
pub fn instruction_member_name(
    target_id: Word,
    member: Word,
    name: &str,
) -> (instruction: Instruction)
    ensures
        instruction@ == op_member_name(target_id, member, name@),
{
    let mut operands: Vec<Word> = vec![target_id, member];
    append(&mut operands, string_to_words(name).as_slice());
    Instruction::new(spirv::Op::MemberName, None, None, operands)
}

/// Decorates an identifier.
pub open spec fn op_decorate(
    target_id: Word,
    decoration: spirv::Decoration,
    arguments: Seq<Word>,
) -> InstructionView {
    InstructionView {
        op: spirv::Op::Decorate,
        type_id: None,
        result_id: None,
        operands: seq![target_id, decoration as u32] + arguments,
    }
}

/// Decorates an identifier.
pub fn instruction_decorate(
    target_id: Word,
    decoration: spirv::Decoration,
    arguments: &[Word],
) -> (instruction: Instruction)
    ensures
        instruction@ == op_decorate(target_id, decoration, arguments@),
{
    let mut operands: Vec<Word> = vec![target_id, decoration as u32];
    append(&mut operands, arguments);
    Instruction::new(spirv::Op::Decorate, None, None, operands)
}

/// Decorates a member of a structure.
pub open spec fn op_member_decorate(
    target_id: Word,
    member: Word,
    decoration: spirv::Decoration,
    arguments: Seq<Word>,
) -> InstructionView {
    InstructionView {
        op: spirv::Op::MemberDecorate,
        type_id: None,
        result_id: None,
        operands: seq![target_id, member, decoration as u32] + arguments,
    }
}

/// Decorates a member of a structure.
pub fn instruction_member_decorate(
    target_id: Word,
    member: Word,
    decoration: spirv::Decoration,
    arguments: &[Word],
) -> (instruction: Instruction)
    ensures
        instruction@ == op_member_decorate(target_id, member, decoration, arguments@),
{
    let mut operands: Vec<Word> = vec![target_id, member, decoration as u32];
    append(&mut operands, arguments);
    Instruction::new(spirv::Op::MemberDecorate, None, None, operands)
}

/// Declares the type without values.
pub open spec fn op_type_void(id: Word) -> InstructionView {
    InstructionView {
        op: spirv::Op::TypeVoid,
        type_id: None,
        result_id: Some(id),
        operands: Seq::empty(),
    }
}

/// Declares the type without values.
pub fn instruction_type_void(id: Word) -> (instruction: Instruction)
    ensures
        instruction@ == op_type_void(id),
{
    Instruction::new(spirv::Op::TypeVoid, None, Some(id), Vec::new())
}

/// Declares the type of truth values.
pub open spec fn op_type_bool(id: Word) -> InstructionView {
    InstructionView {
        op: spirv::Op::TypeBool,
        type_id: None,
        result_id: Some(id),
        operands: Seq::empty(),
    }
}

/// Declares the type of truth values.
pub fn instruction_type_bool(id: Word) -> (instruction: Instruction)
    ensures
        instruction@ == op_type_bool(id),
{
    Instruction::new(spirv::Op::TypeBool, None, Some(id), Vec::new())
}

/// Declares a type of integers of `width` bits.
pub open spec fn op_type_int(id: Word, width: Word, signedness: Signedness) -> InstructionView {
    InstructionView {
        op: spirv::Op::TypeInt,
        type_id: None,
        result_id: Some(id),
        operands: seq![width, signedness.number()],
    }
}

/// Declares a type of integers of `width` bits.
pub fn instruction_type_int(
    id: Word,
    width: Word,
    signedness: Signedness,
) -> (instruction: Instruction)
    ensures
        instruction@ == op_type_int(id, width, signedness),
{
    Instruction::new(spirv::Op::TypeInt, None, Some(id), vec![width, signedness.word()])
}

/// Declares a type of floating-point numbers of `width` bits.
pub open spec fn op_type_float(id: Word, width: Word) -> InstructionView {
    InstructionView {
        op: spirv::Op::TypeFloat,
        type_id: None,
        result_id: Some(id),
        operands: seq![width],
    }
}

/// Declares a type of floating-point numbers of `width` bits.
pub fn instruction_type_float(id: Word, width: Word) -> (instruction: Instruction)
    ensures
        instruction@ == op_type_float(id, width),
{
    Instruction::new(spirv::Op::TypeFloat, None, Some(id), vec![width])
}

/// Declares a type of vectors.
pub open spec fn op_type_vector(
    id: Word,
    component_type_id: Word,
    size: VectorSize,
) -> InstructionView {
    InstructionView {
        op: spirv::Op::TypeVector,
        type_id: None,
        result_id: Some(id),
        operands: seq![component_type_id, size.number()],
    }
}

/// Declares a type of vectors.
pub fn instruction_type_vector(
    id: Word,
    component_type_id: Word,
    size: VectorSize,
) -> (instruction: Instruction)
    ensures
        instruction@ == op_type_vector(id, component_type_id, size),
{
    Instruction::new(spirv::Op::TypeVector, None, Some(id), vec![component_type_id, size.count()])
}

/// Declares a type of matrices.
pub open spec fn op_type_matrix(
    id: Word,
    column_type_id: Word,
    size: VectorSize,
) -> InstructionView {
    InstructionView {
        op: spirv::Op::TypeMatrix,
        type_id: None,
        result_id: Some(id),
        operands: seq![column_type_id, size.number()],
    }
}

/// Declares a type of matrices.
pub fn instruction_type_matrix(
    id: Word,
    column_type_id: Word,
    size: VectorSize,
) -> (instruction: Instruction)
    ensures
        instruction@ == op_type_matrix(id, column_type_id, size),
{
    Instruction::new(spirv::Op::TypeMatrix, None, Some(id), vec![column_type_id, size.count()])
}

/// Declares the type of samplers.
pub open spec fn op_type_sampler(id: Word) -> InstructionView {
    InstructionView {
        op: spirv::Op::TypeSampler,
        type_id: None,
        result_id: Some(id),
        operands: Seq::empty(),
    }
}

/// Declares the type of samplers.
pub fn instruction_type_sampler(id: Word) -> (instruction: Instruction)
    ensures
        instruction@ == op_type_sampler(id),
{
    Instruction::new(spirv::Op::TypeSampler, None, Some(id), Vec::new())
}

/// Declares a type of images combined with samplers.
pub open spec fn op_type_sampled_image(id: Word, image_type_id: Word) -> InstructionView {
    InstructionView {
        op: spirv::Op::TypeSampledImage,
        type_id: None,
        result_id: Some(id),
        operands: seq![image_type_id],
    }
}

/// Declares a type of images combined with samplers.
pub fn instruction_type_sampled_image(id: Word, image_type_id: Word) -> (instruction: Instruction)
    ensures
        instruction@ == op_type_sampled_image(id, image_type_id),
{
    Instruction::new(spirv::Op::TypeSampledImage, None, Some(id), vec![image_type_id])
}

/// Declares a type of arrays of a constant length.
pub open spec fn op_type_array(
    id: Word,
    element_type_id: Word,
    length_id: Word,
) -> InstructionView {
    InstructionView {
        op: spirv::Op::TypeArray,
        type_id: None,
        result_id: Some(id),
        operands: seq![element_type_id, length_id],
    }
}

/// Declares a type of arrays of a constant length.
pub fn instruction_type_array(
    id: Word,
    element_type_id: Word,
    length_id: Word,
) -> (instruction: Instruction)
    ensures
        instruction@ == op_type_array(id, element_type_id, length_id),
{
    Instruction::new(spirv::Op::TypeArray, None, Some(id), vec![element_type_id, length_id])
}

/// Declares a type of arrays of a length found at run time.
pub open spec fn op_type_runtime_array(id: Word, element_type_id: Word) -> InstructionView {
    InstructionView {
        op: spirv::Op::TypeRuntimeArray,
        type_id: None,
        result_id: Some(id),
        operands: seq![element_type_id],
    }
}

/// Declares a type of arrays of a length found at run time.
pub fn instruction_type_runtime_array(id: Word, element_type_id: Word) -> (instruction: Instruction)
    ensures
        instruction@ == op_type_runtime_array(id, element_type_id),
{
    Instruction::new(spirv::Op::TypeRuntimeArray, None, Some(id), vec![element_type_id])
}

/// Declares a type of structures.
pub open spec fn op_type_struct(id: Word, member_ids: Seq<Word>) -> InstructionView {
    InstructionView {
        op: spirv::Op::TypeStruct,
        type_id: None,
        result_id: Some(id),
        operands: member_ids,
    }
}

/// Declares a type of structures.
pub fn instruction_type_struct(id: Word, member_ids: &[Word]) -> (instruction: Instruction)
    ensures
        instruction@ == op_type_struct(id, member_ids@),
{
    let mut operands: Vec<Word> = Vec::new();
    append(&mut operands, member_ids);
    Instruction::new(spirv::Op::TypeStruct, None, Some(id), operands)
}

/// Declares a type of pointers.
pub open spec fn op_type_pointer(
    id: Word,
    class: spirv::StorageClass,
    type_id: Word,
) -> InstructionView {
    InstructionView {
        op: spirv::Op::TypePointer,
        type_id: None,
        result_id: Some(id),
        operands: seq![class as u32, type_id],
    }
}

/// Declares a type of pointers.
pub fn instruction_type_pointer(
    id: Word,
    class: spirv::StorageClass,
    type_id: Word,
) -> (instruction: Instruction)
    ensures
        instruction@ == op_type_pointer(id, class, type_id),
{
    Instruction::new(spirv::Op::TypePointer, None, Some(id), vec![class as u32, type_id])
}

/// Declares a type of functions.
pub open spec fn op_type_function(
    id: Word,
    return_type_id: Word,
    parameter_ids: Seq<Word>,
) -> InstructionView {
    InstructionView {
        op: spirv::Op::TypeFunction,
        type_id: None,
        result_id: Some(id),
        operands: seq![return_type_id] + parameter_ids,
    }
}

/// Declares a type of functions.
pub fn instruction_type_function(
    id: Word,
    return_type_id: Word,
    parameter_ids: &[Word],
) -> (instruction: Instruction)
    ensures
        instruction@ == op_type_function(id, return_type_id, parameter_ids@),
{
    let mut operands: Vec<Word> = vec![return_type_id];
    append(&mut operands, parameter_ids);
    Instruction::new(spirv::Op::TypeFunction, None, Some(id), operands)
}

/// Declares the constant `true`.
pub open spec fn op_constant_true(type_id: Word, id: Word) -> InstructionView {
    InstructionView {
        op: spirv::Op::ConstantTrue,
        type_id: Some(type_id),
        result_id: Some(id),
        operands: Seq::empty(),
    }
}

/// Declares the constant `true`.
pub fn instruction_constant_true(type_id: Word, id: Word) -> (instruction: Instruction)
    ensures
        instruction@ == op_constant_true(type_id, id),
{
    Instruction::new(spirv::Op::ConstantTrue, Some(type_id), Some(id), Vec::new())
}

/// Declares the constant `false`.
pub open spec fn op_constant_false(type_id: Word, id: Word) -> InstructionView {
    InstructionView {
        op: spirv::Op::ConstantFalse,
        type_id: Some(type_id),
        result_id: Some(id),
        operands: Seq::empty(),
    }
}

/// Declares the constant `false`.
pub fn instruction_constant_false(type_id: Word, id: Word) -> (instruction: Instruction)
    ensures
        instruction@ == op_constant_false(type_id, id),
{
    Instruction::new(spirv::Op::ConstantFalse, Some(type_id), Some(id), Vec::new())
}

/// Declares a scalar constant.
pub open spec fn op_constant(type_id: Word, id: Word, value: Seq<Word>) -> InstructionView {
    InstructionView {
        op: spirv::Op::Constant,
        type_id: Some(type_id),
        result_id: Some(id),
        operands: value,
    }
}

/// Declares a scalar constant.
pub fn instruction_constant(type_id: Word, id: Word, value: &[Word]) -> (instruction: Instruction)
    ensures
        instruction@ == op_constant(type_id, id, value@),
{
    let mut operands: Vec<Word> = Vec::new();
    append(&mut operands, value);
    Instruction::new(spirv::Op::Constant, Some(type_id), Some(id), operands)
}

/// Declares a constant made of constants.
pub open spec fn op_constant_composite(
    type_id: Word,
    id: Word,
    constituent_ids: Seq<Word>,
) -> InstructionView {
    InstructionView {
        op: spirv::Op::ConstantComposite,
        type_id: Some(type_id),
        result_id: Some(id),
        operands: constituent_ids,
    }
}

/// Declares a constant made of constants.
pub fn instruction_constant_composite(
    type_id: Word,
    id: Word,
    constituent_ids: &[Word],
) -> (instruction: Instruction)
    ensures
        instruction@ == op_constant_composite(type_id, id, constituent_ids@),
{
    let mut operands: Vec<Word> = Vec::new();
    append(&mut operands, constituent_ids);
    Instruction::new(spirv::Op::ConstantComposite, Some(type_id), Some(id), operands)
}

/// Declares a variable.
pub open spec fn op_variable(
    type_id: Word,
    id: Word,
    class: spirv::StorageClass,
    initializer_id: Option<Word>,
) -> InstructionView {
    InstructionView {
        op: spirv::Op::Variable,
        type_id: Some(type_id),
        result_id: Some(id),
        operands: seq![class as u32] + optional(initializer_id),
    }
}

/// Declares a variable.
pub fn instruction_variable(
    type_id: Word,
    id: Word,
    class: spirv::StorageClass,
    initializer_id: Option<Word>,
) -> (instruction: Instruction)
    ensures
        instruction@ == op_variable(type_id, id, class, initializer_id),
{
    let mut operands: Vec<Word> = vec![class as u32];
    if let Some(id) = initializer_id {
        operands.push(id);
    }
    Instruction::new(spirv::Op::Variable, Some(type_id), Some(id), operands)
}

/// Reads through a pointer.
pub open spec fn op_load(type_id: Word, id: Word, pointer_id: Word) -> InstructionView {
    InstructionView {
        op: spirv::Op::Load,
        type_id: Some(type_id),
        result_id: Some(id),
        operands: seq![pointer_id],
    }
}

/// Reads through a pointer.
pub fn instruction_load(type_id: Word, id: Word, pointer_id: Word) -> (instruction: Instruction)
    ensures
        instruction@ == op_load(type_id, id, pointer_id),
{
    Instruction::new(spirv::Op::Load, Some(type_id), Some(id), vec![pointer_id])
}

/// Writes through a pointer.
pub open spec fn op_store(pointer_id: Word, object_id: Word) -> InstructionView {
    InstructionView {
        op: spirv::Op::Store,
        type_id: None,
        result_id: None,
        operands: seq![pointer_id, object_id],
    }
}

/// Writes through a pointer.
pub fn instruction_store(pointer_id: Word, object_id: Word) -> (instruction: Instruction)
    ensures
        instruction@ == op_store(pointer_id, object_id),
{
    Instruction::new(spirv::Op::Store, None, None, vec![pointer_id, object_id])
}

/// Makes a pointer to a part of what a pointer points to.
pub open spec fn op_access_chain(
    type_id: Word,
    id: Word,
    base_id: Word,
    index_ids: Seq<Word>,
) -> InstructionView {
    InstructionView {
        op: spirv::Op::AccessChain,
        type_id: Some(type_id),
        result_id: Some(id),
        operands: seq![base_id] + index_ids,
    }
}

/// Makes a pointer to a part of what a pointer points to.
pub fn instruction_access_chain(
    type_id: Word,
    id: Word,
    base_id: Word,
    index_ids: &[Word],
) -> (instruction: Instruction)
    ensures
        instruction@ == op_access_chain(type_id, id, base_id, index_ids@),
{
    let mut operands: Vec<Word> = vec![base_id];
    append(&mut operands, index_ids);
    Instruction::new(spirv::Op::AccessChain, Some(type_id), Some(id), operands)
}

/// Begins a function.
pub open spec fn op_function(
    return_type_id: Word,
    id: Word,
    control: Word,
    function_type_id: Word,
) -> InstructionView {
    InstructionView {
        op: spirv::Op::Function,
        type_id: Some(return_type_id),
        result_id: Some(id),
        operands: seq![control, function_type_id],
    }
}

/// Begins a function.
pub fn instruction_function(
    return_type_id: Word,
    id: Word,
    control: Word,
    function_type_id: Word,
) -> (instruction: Instruction)
    ensures
        instruction@ == op_function(return_type_id, id, control, function_type_id),
{
    Instruction::new(spirv::Op::Function, Some(return_type_id), Some(id), vec![control, function_type_id])
}

/// Declares a parameter of a function.
pub open spec fn op_function_parameter(type_id: Word, id: Word) -> InstructionView {
    InstructionView {
        op: spirv::Op::FunctionParameter,
        type_id: Some(type_id),
        result_id: Some(id),
        operands: Seq::empty(),
    }
}

/// Declares a parameter of a function.
pub fn instruction_function_parameter(type_id: Word, id: Word) -> (instruction: Instruction)
    ensures
        instruction@ == op_function_parameter(type_id, id),
{
    Instruction::new(spirv::Op::FunctionParameter, Some(type_id), Some(id), Vec::new())
}

/// Ends a function.
pub open spec fn op_function_end() -> InstructionView {
    InstructionView {
        op: spirv::Op::FunctionEnd,
        type_id: None,
        result_id: None,
        operands: Seq::empty(),
    }
}

/// Ends a function.
pub fn instruction_function_end() -> (instruction: Instruction)
    ensures
        instruction@ == op_function_end(),
{
    Instruction::new(spirv::Op::FunctionEnd, None, None, Vec::new())
}

/// Calls a function.
pub open spec fn op_function_call(
    type_id: Word,
    id: Word,
    function_id: Word,
    argument_ids: Seq<Word>,
) -> InstructionView {
    InstructionView {
        op: spirv::Op::FunctionCall,
        type_id: Some(type_id),
        result_id: Some(id),
        operands: seq![function_id] + argument_ids,
    }
}

/// Calls a function.
pub fn instruction_function_call(
    type_id: Word,
    id: Word,
    function_id: Word,
    argument_ids: &[Word],
) -> (instruction: Instruction)
    ensures
        instruction@ == op_function_call(type_id, id, function_id, argument_ids@),
{
    let mut operands: Vec<Word> = vec![function_id];
    append(&mut operands, argument_ids);
    Instruction::new(spirv::Op::FunctionCall, Some(type_id), Some(id), operands)
}

/// Combines an image with a sampler.
pub open spec fn op_sampled_image(
    type_id: Word,
    id: Word,
    image_id: Word,
    sampler_id: Word,
) -> InstructionView {
    InstructionView {
        op: spirv::Op::SampledImage,
        type_id: Some(type_id),
        result_id: Some(id),
        operands: seq![image_id, sampler_id],
    }
}

/// Combines an image with a sampler.
pub fn instruction_sampled_image(
    type_id: Word,
    id: Word,
    image_id: Word,
    sampler_id: Word,
) -> (instruction: Instruction)
    ensures
        instruction@ == op_sampled_image(type_id, id, image_id, sampler_id),
{
    Instruction::new(spirv::Op::SampledImage, Some(type_id), Some(id), vec![image_id, sampler_id])
}

/// Applies an operation to one value.
pub open spec fn op_unary(
    op: spirv::Op,
    type_id: Word,
    id: Word,
    value_id: Word,
) -> InstructionView {
    InstructionView {
        op: op,
        type_id: Some(type_id),
        result_id: Some(id),
        operands: seq![value_id],
    }
}

/// Applies an operation to one value.
pub fn instruction_unary(
    op: spirv::Op,
    type_id: Word,
    id: Word,
    value_id: Word,
) -> (instruction: Instruction)
    ensures
        instruction@ == op_unary(op, type_id, id, value_id),
{
    Instruction::new(op, Some(type_id), Some(id), vec![value_id])
}

/// Applies an operation to two values.
pub open spec fn op_binary(
    op: spirv::Op,
    type_id: Word,
    id: Word,
    left_id: Word,
    right_id: Word,
) -> InstructionView {
    InstructionView {
        op: op,
        type_id: Some(type_id),
        result_id: Some(id),
        operands: seq![left_id, right_id],
    }
}

/// Applies an operation to two values.
pub fn instruction_binary(
    op: spirv::Op,
    type_id: Word,
    id: Word,
    left_id: Word,
    right_id: Word,
) -> (instruction: Instruction)
    ensures
        instruction@ == op_binary(op, type_id, id, left_id, right_id),
{
    Instruction::new(op, Some(type_id), Some(id), vec![left_id, right_id])
}

/// Makes a composite value of its parts.
pub open spec fn op_composite_construct(
    type_id: Word,
    id: Word,
    constituent_ids: Seq<Word>,
) -> InstructionView {
    InstructionView {
        op: spirv::Op::CompositeConstruct,
        type_id: Some(type_id),
        result_id: Some(id),
        operands: constituent_ids,
    }
}

/// Makes a composite value of its parts.
pub fn instruction_composite_construct(
    type_id: Word,
    id: Word,
    constituent_ids: &[Word],
) -> (instruction: Instruction)
    ensures
        instruction@ == op_composite_construct(type_id, id, constituent_ids@),
{
    let mut operands: Vec<Word> = Vec::new();
    append(&mut operands, constituent_ids);
    Instruction::new(spirv::Op::CompositeConstruct, Some(type_id), Some(id), operands)
}

/// Takes a part of a composite value.
pub open spec fn op_composite_extract(
    type_id: Word,
    id: Word,
    composite_id: Word,
    indices: Seq<Word>,
) -> InstructionView {
    InstructionView {
        op: spirv::Op::CompositeExtract,
        type_id: Some(type_id),
        result_id: Some(id),
        operands: seq![composite_id] + indices,
    }
}

/// Takes a part of a composite value.
pub fn instruction_composite_extract(
    type_id: Word,
    id: Word,
    composite_id: Word,
    indices: &[Word],
) -> (instruction: Instruction)
    ensures
        instruction@ == op_composite_extract(type_id, id, composite_id, indices@),
{
    let mut operands: Vec<Word> = vec![composite_id];
    append(&mut operands, indices);
    Instruction::new(spirv::Op::CompositeExtract, Some(type_id), Some(id), operands)
}

/// Takes a component of a vector.
pub open spec fn op_vector_extract_dynamic(
    type_id: Word,
    id: Word,
    vector_id: Word,
    index_id: Word,
) -> InstructionView {
    InstructionView {
        op: spirv::Op::VectorExtractDynamic,
        type_id: Some(type_id),
        result_id: Some(id),
        operands: seq![vector_id, index_id],
    }
}

/// Takes a component of a vector.
pub fn instruction_vector_extract_dynamic(
    type_id: Word,
    id: Word,
    vector_id: Word,
    index_id: Word,
) -> (instruction: Instruction)
    ensures
        instruction@ == op_vector_extract_dynamic(type_id, id, vector_id, index_id),
{
    Instruction::new(spirv::Op::VectorExtractDynamic, Some(type_id), Some(id), vec![vector_id, index_id])
}

/// Applies an extended instruction.
pub open spec fn op_ext_inst(
    set_id: Word,
    op: spirv::GLOp,
    type_id: Word,
    id: Word,
    operand_ids: Seq<Word>,
) -> InstructionView {
    InstructionView {
        op: spirv::Op::ExtInst,
        type_id: Some(type_id),
        result_id: Some(id),
        operands: seq![set_id, op as u32] + operand_ids,
    }
}

/// Applies an extended instruction.
pub fn instruction_ext_inst(
    set_id: Word,
    op: spirv::GLOp,
    type_id: Word,
    id: Word,
    operand_ids: &[Word],
) -> (instruction: Instruction)
    ensures
        instruction@ == op_ext_inst(set_id, op, type_id, id, operand_ids@),
{
    let mut operands: Vec<Word> = vec![set_id, op as u32];
    append(&mut operands, operand_ids);
    Instruction::new(spirv::Op::ExtInst, Some(type_id), Some(id), operands)
}

/// Begins a block.
pub open spec fn op_label(id: Word) -> InstructionView {
    InstructionView {
        op: spirv::Op::Label,
        type_id: None,
        result_id: Some(id),
        operands: Seq::empty(),
    }
}

/// Begins a block.
pub fn instruction_label(id: Word) -> (instruction: Instruction)
    ensures
        instruction@ == op_label(id),
{
    Instruction::new(spirv::Op::Label, None, Some(id), Vec::new())
}

/// Names the block where the branches of a selection meet.
pub open spec fn op_selection_merge(merge_id: Word, control: Word) -> InstructionView {
    InstructionView {
        op: spirv::Op::SelectionMerge,
        type_id: None,
        result_id: None,
        operands: seq![merge_id, control],
    }
}

/// Names the block where the branches of a selection meet.
pub fn instruction_selection_merge(merge_id: Word, control: Word) -> (instruction: Instruction)
    ensures
        instruction@ == op_selection_merge(merge_id, control),
{
    Instruction::new(spirv::Op::SelectionMerge, None, None, vec![merge_id, control])
}

/// Names the block behind a loop and the one that continues it.
pub open spec fn op_loop_merge(
    merge_id: Word,
    continuing_id: Word,
    control: Word,
) -> InstructionView {
    InstructionView {
        op: spirv::Op::LoopMerge,
        type_id: None,
        result_id: None,
        operands: seq![merge_id, continuing_id, control],
    }
}

/// Names the block behind a loop and the one that continues it.
pub fn instruction_loop_merge(
    merge_id: Word,
    continuing_id: Word,
    control: Word,
) -> (instruction: Instruction)
    ensures
        instruction@ == op_loop_merge(merge_id, continuing_id, control),
{
    Instruction::new(spirv::Op::LoopMerge, None, None, vec![merge_id, continuing_id, control])
}

/// Goes on at another block.
pub open spec fn op_branch(id: Word) -> InstructionView {
    InstructionView { op: spirv::Op::Branch, type_id: None, result_id: None, operands: seq![id] }
}

/// Goes on at another block.
pub fn instruction_branch(id: Word) -> (instruction: Instruction)
    ensures
        instruction@ == op_branch(id),
{
    Instruction::new(spirv::Op::Branch, None, None, vec![id])
}

/// Goes on at one of two blocks.
pub open spec fn op_branch_conditional(
    condition_id: Word,
    accept_id: Word,
    reject_id: Word,
) -> InstructionView {
    InstructionView {
        op: spirv::Op::BranchConditional,
        type_id: None,
        result_id: None,
        operands: seq![condition_id, accept_id, reject_id],
    }
}

/// Goes on at one of two blocks.
pub fn instruction_branch_conditional(
    condition_id: Word,
    accept_id: Word,
    reject_id: Word,
) -> (instruction: Instruction)
    ensures
        instruction@ == op_branch_conditional(condition_id, accept_id, reject_id),
{
    Instruction::new(spirv::Op::BranchConditional, None, None, vec![condition_id, accept_id, reject_id])
}

/// Returns from a function.
pub open spec fn op_return() -> InstructionView {
    InstructionView {
        op: spirv::Op::Return,
        type_id: None,
        result_id: None,
        operands: Seq::empty(),
    }
}

/// Returns from a function.
pub fn instruction_return() -> (instruction: Instruction)
    ensures
        instruction@ == op_return(),
{
    Instruction::new(spirv::Op::Return, None, None, Vec::new())
}

/// Returns a value from a function.
pub open spec fn op_return_value(value_id: Word) -> InstructionView {
    InstructionView {
        op: spirv::Op::ReturnValue,
        type_id: None,
        result_id: None,
        operands: seq![value_id],
    }
}

/// Returns a value from a function.
pub fn instruction_return_value(value_id: Word) -> (instruction: Instruction)
    ensures
        instruction@ == op_return_value(value_id),
{
    Instruction::new(spirv::Op::ReturnValue, None, None, vec![value_id])
}

/// The image format that a storage format stands for.
pub open spec fn storage_image_format(format: StorageFormat) -> spirv::ImageFormat {
    match format {
        StorageFormat::R8Unorm => spirv::ImageFormat::R8,
        StorageFormat::R8Snorm => spirv::ImageFormat::R8Snorm,
        StorageFormat::R8Uint => spirv::ImageFormat::R8ui,
        StorageFormat::R8Sint => spirv::ImageFormat::R8i,
        StorageFormat::R16Uint => spirv::ImageFormat::R16ui,
        StorageFormat::R16Sint => spirv::ImageFormat::R16i,
        StorageFormat::R16Float => spirv::ImageFormat::R16f,
        StorageFormat::Rg8Unorm => spirv::ImageFormat::Rg8,
        StorageFormat::Rg8Snorm => spirv::ImageFormat::Rg8Snorm,
        StorageFormat::Rg8Uint => spirv::ImageFormat::Rg8ui,
        StorageFormat::Rg8Sint => spirv::ImageFormat::Rg8i,
        StorageFormat::R32Uint => spirv::ImageFormat::R32ui,
        StorageFormat::R32Sint => spirv::ImageFormat::R32i,
        StorageFormat::R32Float => spirv::ImageFormat::R32f,
        StorageFormat::Rg16Uint => spirv::ImageFormat::Rg16ui,
        StorageFormat::Rg16Sint => spirv::ImageFormat::Rg16i,
        StorageFormat::Rg16Float => spirv::ImageFormat::Rg16f,
        StorageFormat::Rgba8Unorm => spirv::ImageFormat::Rgba8,
        StorageFormat::Rgba8Snorm => spirv::ImageFormat::Rgba8Snorm,
        StorageFormat::Rgba8Uint => spirv::ImageFormat::Rgba8ui,
        StorageFormat::Rgba8Sint => spirv::ImageFormat::Rgba8i,
        StorageFormat::Rgb10a2Unorm => spirv::ImageFormat::Rgb10A2,
        StorageFormat::Rg11b10Float => spirv::ImageFormat::R11fG11fB10f,
        StorageFormat::Rg32Uint => spirv::ImageFormat::Rg32ui,
        StorageFormat::Rg32Sint => spirv::ImageFormat::Rg32i,
        StorageFormat::Rg32Float => spirv::ImageFormat::Rg32f,
        StorageFormat::Rgba16Uint => spirv::ImageFormat::Rgba16ui,
        StorageFormat::Rgba16Sint => spirv::ImageFormat::Rgba16i,
        StorageFormat::Rgba16Float => spirv::ImageFormat::Rgba16f,
        StorageFormat::Rgba32Uint => spirv::ImageFormat::Rgba32ui,
        StorageFormat::Rgba32Sint => spirv::ImageFormat::Rgba32i,
        StorageFormat::Rgba32Float => spirv::ImageFormat::Rgba32f,
    }
}

/// The image format that a storage format stands for.
fn map_storage_format(format: StorageFormat) -> (image_format: spirv::ImageFormat)
    ensures
        image_format == storage_image_format(format),
{
    match format {
        StorageFormat::R8Unorm => spirv::ImageFormat::R8,
        StorageFormat::R8Snorm => spirv::ImageFormat::R8Snorm,
        StorageFormat::R8Uint => spirv::ImageFormat::R8ui,
        StorageFormat::R8Sint => spirv::ImageFormat::R8i,
        StorageFormat::R16Uint => spirv::ImageFormat::R16ui,
        StorageFormat::R16Sint => spirv::ImageFormat::R16i,
        StorageFormat::R16Float => spirv::ImageFormat::R16f,
        StorageFormat::Rg8Unorm => spirv::ImageFormat::Rg8,
        StorageFormat::Rg8Snorm => spirv::ImageFormat::Rg8Snorm,
        StorageFormat::Rg8Uint => spirv::ImageFormat::Rg8ui,
        StorageFormat::Rg8Sint => spirv::ImageFormat::Rg8i,
        StorageFormat::R32Uint => spirv::ImageFormat::R32ui,
        StorageFormat::R32Sint => spirv::ImageFormat::R32i,
        StorageFormat::R32Float => spirv::ImageFormat::R32f,
        StorageFormat::Rg16Uint => spirv::ImageFormat::Rg16ui,
        StorageFormat::Rg16Sint => spirv::ImageFormat::Rg16i,
        StorageFormat::Rg16Float => spirv::ImageFormat::Rg16f,
        StorageFormat::Rgba8Unorm => spirv::ImageFormat::Rgba8,
        StorageFormat::Rgba8Snorm => spirv::ImageFormat::Rgba8Snorm,
        StorageFormat::Rgba8Uint => spirv::ImageFormat::Rgba8ui,
        StorageFormat::Rgba8Sint => spirv::ImageFormat::Rgba8i,
        StorageFormat::Rgb10a2Unorm => spirv::ImageFormat::Rgb10A2,
        StorageFormat::Rg11b10Float => spirv::ImageFormat::R11fG11fB10f,
        StorageFormat::Rg32Uint => spirv::ImageFormat::Rg32ui,
        StorageFormat::Rg32Sint => spirv::ImageFormat::Rg32i,
        StorageFormat::Rg32Float => spirv::ImageFormat::Rg32f,
        StorageFormat::Rgba16Uint => spirv::ImageFormat::Rgba16ui,
        StorageFormat::Rgba16Sint => spirv::ImageFormat::Rgba16i,
        StorageFormat::Rgba16Float => spirv::ImageFormat::Rgba16f,
        StorageFormat::Rgba32Uint => spirv::ImageFormat::Rgba32ui,
        StorageFormat::Rgba32Sint => spirv::ImageFormat::Rgba32i,
        StorageFormat::Rgba32Float => spirv::ImageFormat::Rgba32f,
    }
}

/// Declares a type of images: whether they hold depths, come in arrays, hold several samples,
/// and whether they are read with a sampler or accessed in a format of their own.
pub open spec fn op_type_image(
    id: Word,
    sampled_type_id: Word,
    dim: spirv::Dim,
    arrayed: bool,
    class: ImageClass,
) -> InstructionView {
    let (depth, multi, sampled, format) = match class {
        ImageClass::Sampled { multi, .. } => (
            0u32,
            if multi {
                1u32
            } else {
                0u32
            },
            1u32,
            spirv::ImageFormat::Unknown,
        ),
        ImageClass::Depth => (1u32, 0u32, 1u32, spirv::ImageFormat::Unknown),
        ImageClass::Storage(format) => (0u32, 0u32, 2u32, storage_image_format(format)),
    };
    InstructionView {
        op: spirv::Op::TypeImage,
        type_id: None,
        result_id: Some(id),
        operands: seq![
            sampled_type_id,
            dim as u32,
            depth,
            if arrayed {
                1u32
            } else {
                0u32
            },
            multi,
            sampled,
            format as u32,
        ],
    }
}

/// Declares a type of images.
pub fn instruction_type_image(
    id: Word,
    sampled_type_id: Word,
    dim: spirv::Dim,
    arrayed: bool,
    class: ImageClass,
) -> (instruction: Instruction)
    ensures
        instruction@ == op_type_image(id, sampled_type_id, dim, arrayed, class),
{
    let arrayed: Word = if arrayed {
        1
    } else {
        0
    };
    let (depth, multi, sampled, format): (Word, Word, Word, spirv::ImageFormat) = match class {
        ImageClass::Sampled { multi, .. } => (
            0,
            if multi {
                1
            } else {
                0
            },
            1,
            spirv::ImageFormat::Unknown,
        ),
        ImageClass::Depth => (1, 0, 1, spirv::ImageFormat::Unknown),
        ImageClass::Storage(format) => (0, 0, 2, map_storage_format(format)),
    };
    Instruction::new(
        spirv::Op::TypeImage,
        None,
        Some(id),
        vec![sampled_type_id, dim as u32, depth, arrayed, multi, sampled, format as u32],
    )
}

/// The operation that samples an image, with or without a depth to compare with.
pub open spec fn image_sample_op(lod: SampleLod, depth_id: Option<Word>) -> spirv::Op {
    match (lod, depth_id) {
        (SampleLod::Explicit, None) => spirv::Op::ImageSampleExplicitLod,
        (SampleLod::Implicit, None) => spirv::Op::ImageSampleImplicitLod,
        (SampleLod::Explicit, Some(_)) => spirv::Op::ImageSampleDrefExplicitLod,
        (SampleLod::Implicit, Some(_)) => spirv::Op::ImageSampleDrefImplicitLod,
    }
}

/// Samples an image.
pub open spec fn op_image_sample(
    type_id: Word,
    id: Word,
    lod: SampleLod,
    sampled_image_id: Word,
    coordinate_id: Word,
    depth_id: Option<Word>,
) -> InstructionView {
    InstructionView {
        op: image_sample_op(lod, depth_id),
        type_id: Some(type_id),
        result_id: Some(id),
        operands: seq![sampled_image_id, coordinate_id] + optional(depth_id),
    }
}

/// Samples an image.
pub fn instruction_image_sample(
    type_id: Word,
    id: Word,
    lod: SampleLod,
    sampled_image_id: Word,
    coordinate_id: Word,
    depth_id: Option<Word>,
) -> (instruction: Instruction)
    ensures
        instruction@ == op_image_sample(
            type_id,
            id,
            lod,
            sampled_image_id,
            coordinate_id,
            depth_id,
        ),
{
    let op = match (lod, depth_id) {
        (SampleLod::Explicit, None) => spirv::Op::ImageSampleExplicitLod,
        (SampleLod::Implicit, None) => spirv::Op::ImageSampleImplicitLod,
        (SampleLod::Explicit, Some(_)) => spirv::Op::ImageSampleDrefExplicitLod,
        (SampleLod::Implicit, Some(_)) => spirv::Op::ImageSampleDrefImplicitLod,
    };
    let mut operands: Vec<Word> = vec![sampled_image_id, coordinate_id];
    if let Some(id) = depth_id {
        operands.push(id);
    }
    Instruction::new(op, Some(type_id), Some(id), operands)
}

} // verus!

//! The SPIR-V vocabulary: what the verifier is told of the crate `spirv_headers`.
//!
//! The enumerations are declared with their variants, so a variant and its number mean here
//! what they mean in that crate. Of its functions only the ones below are taken on trust.

use spirv_headers as spirv;
use vstd::prelude::*;

verus! {

#[verifier::external_type_specification]
pub struct ExAddressingModel(spirv_headers::AddressingModel);

#[verifier::external_type_specification]
pub struct ExBuiltIn(spirv_headers::BuiltIn);

#[verifier::external_type_specification]
pub struct ExCapability(spirv_headers::Capability);

#[verifier::external_type_specification]
pub struct ExDecoration(spirv_headers::Decoration);

#[verifier::external_type_specification]
pub struct ExDim(spirv_headers::Dim);

#[verifier::external_type_specification]
pub struct ExExecutionMode(spirv_headers::ExecutionMode);

#[verifier::external_type_specification]
pub struct ExExecutionModel(spirv_headers::ExecutionModel);

#[verifier::external_type_specification]
pub struct ExGLOp(spirv_headers::GLOp);

#[verifier::external_type_specification]
pub struct ExImageFormat(spirv_headers::ImageFormat);

#[verifier::external_type_specification]
pub struct ExMemoryModel(spirv_headers::MemoryModel);

#[verifier::external_type_specification]
pub struct ExOp(spirv_headers::Op);

#[verifier::external_type_specification]
pub struct ExSourceLanguage(spirv_headers::SourceLanguage);

#[verifier::external_type_specification]
pub struct ExStorageClass(spirv_headers::StorageClass);

/// The capabilities of which one must be declared before an image of dimension `dim` is.
pub open spec fn dim_capabilities(dim: spirv::Dim) -> Seq<spirv::Capability> {
    match dim {
        spirv::Dim::Dim1D => seq![spirv::Capability::Sampled1D, spirv::Capability::Image1D],
        spirv::Dim::Dim2D => seq![
            spirv::Capability::Shader,
            spirv::Capability::Kernel,
            spirv::Capability::ImageMSArray,
        ],
        spirv::Dim::Dim3D => Seq::empty(),
        spirv::Dim::DimCube => seq![spirv::Capability::Shader, spirv::Capability::ImageCubeArray],
        spirv::Dim::DimRect => seq![spirv::Capability::SampledRect, spirv::Capability::ImageRect],
        spirv::Dim::DimBuffer => seq![
            spirv::Capability::SampledBuffer,
            spirv::Capability::ImageBuffer,
        ],
        spirv::Dim::DimSubpassData => seq![spirv::Capability::InputAttachment],
    }
}

/// `spirv_headers::Dim::required_capabilities` looks its argument up in the table above.
pub assume_specification[ spirv_headers::Dim::required_capabilities ](
    dim: spirv_headers::Dim,
) -> (capabilities: &'static [spirv_headers::Capability])
    ensures
        capabilities@ == dim_capabilities(dim),
;

/// The capabilities of which one must be declared before a variable of storage class `class` is.
pub open spec fn storage_class_capabilities(class: spirv::StorageClass) -> Seq<
    spirv::Capability,
> {
    match class {
        spirv::StorageClass::UniformConstant
        | spirv::StorageClass::Input
        | spirv::StorageClass::Workgroup
        | spirv::StorageClass::CrossWorkgroup
        | spirv::StorageClass::Function
        | spirv::StorageClass::Image => Seq::empty(),
        spirv::StorageClass::AtomicCounter => seq![spirv::Capability::AtomicStorage],
        spirv::StorageClass::Generic => seq![spirv::Capability::GenericPointer],
        spirv::StorageClass::PhysicalStorageBuffer => seq![
            spirv::Capability::PhysicalStorageBufferAddresses,
        ],
        spirv::StorageClass::CallableDataNV
        | spirv::StorageClass::IncomingCallableDataNV
        | spirv::StorageClass::RayPayloadNV
        | spirv::StorageClass::HitAttributeNV
        | spirv::StorageClass::IncomingRayPayloadNV
        | spirv::StorageClass::ShaderRecordBufferNV => seq![
            spirv::Capability::RayTracingNV,
            spirv::Capability::RayTracingProvisionalKHR,
        ],
        spirv::StorageClass::Uniform
        | spirv::StorageClass::Output
        | spirv::StorageClass::Private
        | spirv::StorageClass::PushConstant
        | spirv::StorageClass::StorageBuffer => seq![spirv::Capability::Shader],
    }
}

/// `spirv_headers::StorageClass::required_capabilities` looks its argument up in the table above.
pub assume_specification[ spirv_headers::StorageClass::required_capabilities ](
    class: spirv_headers::StorageClass,
) -> (capabilities: &'static [spirv_headers::Capability])
    ensures
        capabilities@ == storage_class_capabilities(class),
;

/// The capabilities of which one must be declared for an entry point of execution model `model`.
pub open spec fn execution_model_capabilities(model: spirv::ExecutionModel) -> Seq<
    spirv::Capability,
> {
    match model {
        spirv::ExecutionModel::Vertex
        | spirv::ExecutionModel::Fragment
        | spirv::ExecutionModel::GLCompute => seq![spirv::Capability::Shader],
        spirv::ExecutionModel::TessellationControl
        | spirv::ExecutionModel::TessellationEvaluation => seq![spirv::Capability::Tessellation],
        spirv::ExecutionModel::Geometry => seq![spirv::Capability::Geometry],
        spirv::ExecutionModel::Kernel => seq![spirv::Capability::Kernel],
        spirv::ExecutionModel::TaskNV
        | spirv::ExecutionModel::MeshNV => seq![spirv::Capability::MeshShadingNV],
        spirv::ExecutionModel::RayGenerationNV
        | spirv::ExecutionModel::IntersectionNV
        | spirv::ExecutionModel::AnyHitNV
        | spirv::ExecutionModel::ClosestHitNV
        | spirv::ExecutionModel::MissNV
        | spirv::ExecutionModel::CallableNV => seq![
            spirv::Capability::RayTracingNV,
            spirv::Capability::RayTracingProvisionalKHR,
        ],
    }
}

/// `spirv_headers::ExecutionModel::required_capabilities` looks its argument up in the table
/// above.
pub assume_specification[ spirv_headers::ExecutionModel::required_capabilities ](
    model: spirv_headers::ExecutionModel,
) -> (capabilities: &'static [spirv_headers::Capability])
    ensures
        capabilities@ == execution_model_capabilities(model),
;

/// The capabilities of which one must be declared for execution mode `mode`.
pub open spec fn execution_mode_capabilities(mode: spirv::ExecutionMode) -> Seq<
    spirv::Capability,
> {
    match mode {
        spirv::ExecutionMode::LocalSize | spirv::ExecutionMode::LocalSizeId => Seq::empty(),
        spirv::ExecutionMode::DerivativeGroupLinearNV => seq![
            spirv::Capability::ComputeDerivativeGroupLinearNV,
        ],
        spirv::ExecutionMode::DerivativeGroupQuadsNV => seq![
            spirv::Capability::ComputeDerivativeGroupQuadsNV,
        ],
        spirv::ExecutionMode::DenormFlushToZero => seq![spirv::Capability::DenormFlushToZero],
        spirv::ExecutionMode::DenormPreserve => seq![spirv::Capability::DenormPreserve],
        spirv::ExecutionMode::PixelInterlockOrderedEXT
        | spirv::ExecutionMode::PixelInterlockUnorderedEXT => seq![
            spirv::Capability::FragmentShaderPixelInterlockEXT,
        ],
        spirv::ExecutionMode::SampleInterlockOrderedEXT
        | spirv::ExecutionMode::SampleInterlockUnorderedEXT => seq![
            spirv::Capability::FragmentShaderSampleInterlockEXT,
        ],
        spirv::ExecutionMode::ShadingRateInterlockOrderedEXT
        | spirv::ExecutionMode::ShadingRateInterlockUnorderedEXT => seq![
            spirv::Capability::FragmentShaderShadingRateInterlockEXT,
        ],
        spirv::ExecutionMode::Invocations
        | spirv::ExecutionMode::InputPoints
        | spirv::ExecutionMode::InputLines
        | spirv::ExecutionMode::InputLinesAdjacency
        | spirv::ExecutionMode::InputTrianglesAdjacency
        | spirv::ExecutionMode::OutputLineStrip
        | spirv::ExecutionMode::OutputTriangleStrip => seq![spirv::Capability::Geometry],
        spirv::ExecutionMode::OutputPoints => seq![
            spirv::Capability::Geometry,
            spirv::Capability::MeshShadingNV,
        ],
        spirv::ExecutionMode::Triangles => seq![
            spirv::Capability::Geometry,
            spirv::Capability::Tessellation,
        ],
        spirv::ExecutionMode::OutputVertices => seq![
            spirv::Capability::Geometry,
            spirv::Capability::Tessellation,
            spirv::Capability::MeshShadingNV,
        ],
        spirv::ExecutionMode::LocalSizeHint
        | spirv::ExecutionMode::VecTypeHint
        | spirv::ExecutionMode::ContractionOff
        | spirv::ExecutionMode::Initializer
        | spirv::ExecutionMode::Finalizer
        | spirv::ExecutionMode::LocalSizeHintId => seq![spirv::Capability::Kernel],
        spirv::ExecutionMode::OutputLinesNV
        | spirv::ExecutionMode::OutputPrimitivesNV
        | spirv::ExecutionMode::OutputTrianglesNV => seq![spirv::Capability::MeshShadingNV],
        spirv::ExecutionMode::RoundingModeRTE => seq![spirv::Capability::RoundingModeRTE],
        spirv::ExecutionMode::RoundingModeRTZ => seq![spirv::Capability::RoundingModeRTZ],
        spirv::ExecutionMode::PostDepthCoverage => seq![
            spirv::Capability::SampleMaskPostDepthCoverage,
        ],
        spirv::ExecutionMode::PixelCenterInteger
        | spirv::ExecutionMode::OriginUpperLeft
        | spirv::ExecutionMode::OriginLowerLeft
        | spirv::ExecutionMode::EarlyFragmentTests
        | spirv::ExecutionMode::DepthReplacing
        | spirv::ExecutionMode::DepthGreater
        | spirv::ExecutionMode::DepthLess
        | spirv::ExecutionMode::DepthUnchanged => seq![spirv::Capability::Shader],
        spirv::ExecutionMode::SignedZeroInfNanPreserve => seq![
            spirv::Capability::SignedZeroInfNanPreserve,
        ],
        spirv::ExecutionMode::StencilRefReplacingEXT => seq![spirv::Capability::StencilExportEXT],
        spirv::ExecutionMode::SubgroupSize
        | spirv::ExecutionMode::SubgroupsPerWorkgroup
        | spirv::ExecutionMode::SubgroupsPerWorkgroupId => seq![
            spirv::Capability::SubgroupDispatch,
        ],
        spirv::ExecutionMode::SpacingEqual
        | spirv::ExecutionMode::SpacingFractionalEven
        | spirv::ExecutionMode::SpacingFractionalOdd
        | spirv::ExecutionMode::VertexOrderCw
        | spirv::ExecutionMode::VertexOrderCcw
        | spirv::ExecutionMode::PointMode
        | spirv::ExecutionMode::Quads
        | spirv::ExecutionMode::Isolines => seq![spirv::Capability::Tessellation],
        spirv::ExecutionMode::Xfb => seq![spirv::Capability::TransformFeedback],
    }
}

/// `spirv_headers::ExecutionMode::required_capabilities` looks its argument up in the table
/// above.
pub assume_specification[ spirv_headers::ExecutionMode::required_capabilities ](
    mode: spirv_headers::ExecutionMode,
) -> (capabilities: &'static [spirv_headers::Capability])
    ensures
        capabilities@ == execution_mode_capabilities(mode),
;

/// The capabilities of which one must be declared for addressing model `model`.
pub open spec fn addressing_model_capabilities(model: spirv::AddressingModel) -> Seq<
    spirv::Capability,
> {
    match model {
        spirv::AddressingModel::Logical => Seq::empty(),
        spirv::AddressingModel::Physical32
        | spirv::AddressingModel::Physical64 => seq![spirv::Capability::Addresses],
        spirv::AddressingModel::PhysicalStorageBuffer64 => seq![
            spirv::Capability::PhysicalStorageBufferAddresses,
        ],
    }
}

/// `spirv_headers::AddressingModel::required_capabilities` looks its argument up in the table
/// above.
pub assume_specification[ spirv_headers::AddressingModel::required_capabilities ](
    model: spirv_headers::AddressingModel,
) -> (capabilities: &'static [spirv_headers::Capability])
    ensures
        capabilities@ == addressing_model_capabilities(model),
;

/// The capabilities of which one must be declared for memory model `model`.
pub open spec fn memory_model_capabilities(model: spirv::MemoryModel) -> Seq<spirv::Capability> {
    match model {
        spirv::MemoryModel::Simple
        | spirv::MemoryModel::GLSL450 => seq![spirv::Capability::Shader],
        spirv::MemoryModel::OpenCL => seq![spirv::Capability::Kernel],
        spirv::MemoryModel::Vulkan => seq![spirv::Capability::VulkanMemoryModel],
    }
}

/// `spirv_headers::MemoryModel::required_capabilities` looks its argument up in the table above.
pub assume_specification[ spirv_headers::MemoryModel::required_capabilities ](
    model: spirv_headers::MemoryModel,
) -> (capabilities: &'static [spirv_headers::Capability])
    ensures
        capabilities@ == memory_model_capabilities(model),
;

/// The constant `spirv_headers::MAGIC_NUMBER`, which is the first word of every module.
#[verifier::external_body]
pub(crate) fn magic_number() -> (word: u32)
    ensures
        word == 0x0723_0203,
{
    spirv::MAGIC_NUMBER
}

/// The bits of `spirv_headers::FunctionControl::empty()`: no hint is given.
#[verifier::external_body]
pub(crate) fn function_control_empty() -> (bits: u32)
    ensures
        bits == 0,
{
    spirv::FunctionControl::empty().bits()
}

/// The bits of `spirv_headers::SelectionControl::NONE`: no hint is given.
#[verifier::external_body]
pub(crate) fn selection_control_none() -> (bits: u32)
    ensures
        bits == 0,
{
    spirv::SelectionControl::NONE.bits()
}

/// The bits of `spirv_headers::ImageOperands::BIAS`.
#[verifier::external_body]
pub(crate) fn image_operands_bias() -> (bits: u32)
    ensures
        bits == 1,
{
    spirv::ImageOperands::BIAS.bits()
}

/// The bits of `spirv_headers::ImageOperands::LOD`.
#[verifier::external_body]
pub(crate) fn image_operands_lod() -> (bits: u32)
    ensures
        bits == 2,
{
    spirv::ImageOperands::LOD.bits()
}

/// The bits of `spirv_headers::ImageOperands::GRAD`.
#[verifier::external_body]
pub(crate) fn image_operands_grad() -> (bits: u32)
    ensures
        bits == 4,
{
    spirv::ImageOperands::GRAD.bits()
}

/// The bits of `spirv_headers::ImageOperands::CONST_OFFSET`.
#[verifier::external_body]
pub(crate) fn image_operands_const_offset() -> (bits: u32)
    ensures
        bits == 8,
{
    spirv::ImageOperands::CONST_OFFSET.bits()
}

/// The number of an operation fits in the lower half of a word.
pub proof fn lemma_op_fits(op: spirv::Op)
    ensures
        (op as u32) < 0x1_0000,
{
}

/// Two capabilities with one number are the same capability.
pub proof fn lemma_capability_number(a: spirv::Capability, b: spirv::Capability)
    ensures
        ((a as u32) == (b as u32)) ==> a == b,
{
}

} // verus!

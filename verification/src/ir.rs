//! The shader module that the writer turns into SPIR-V.

use crate::arena::{Arena, Handle};
use vstd::prelude::*;

verus! {

/// The width of a scalar in bytes.
pub type Bytes = u8;

/// What a module says of itself: the format version to write, and the tool that made it.
#[derive(Clone, Copy, Debug)]
pub struct Header {
    pub version: (u8, u8, u8),
    pub generator: u32,
}

#[derive(Clone, Copy, Debug, PartialEq, Eq, Structural)]
pub enum ShaderStage {
    Vertex,
    Fragment,
    Compute,
}

/// Where a variable lives.
#[derive(Clone, Copy, Debug, PartialEq, Eq, Structural)]
pub enum VariableClass {
    Function,
    Input,
    Output,
    Private,
    WorkGroup,
    Uniform,
    Storage,
    Handle,
    PushConstant,
}

#[derive(Clone, Copy, Debug, PartialEq, Eq, Structural)]
pub enum Builtin {
    BaseInstance,
    BaseVertex,
    ClipDistance,
    InstanceIndex,
    PointSize,
    Position,
    VertexIndex,
    FragCoord,
    FragDepth,
    FrontFacing,
    SampleIndex,
    SampleMaskIn,
    SampleMaskOut,
    GlobalInvocationId,
    LocalInvocationId,
    LocalInvocationIndex,
    WorkGroupId,
    WorkGroupSize,
}

/// The number of components of a vector, or of columns or rows of a matrix.
#[derive(Clone, Copy, Debug, PartialEq, Eq, Structural)]
pub enum VectorSize {
    Bi,
    Tri,
    Quad,
}

impl VectorSize {
    /// The size as a number.
    pub open spec fn number(self) -> u32 {
        match self {
            VectorSize::Bi => 2,
            VectorSize::Tri => 3,
            VectorSize::Quad => 4,
        }
    }

    /// So many times `unit`.
    pub open spec fn times(self, unit: int) -> int {
        match self {
            VectorSize::Bi => 2 * unit,
            VectorSize::Tri => 3 * unit,
            VectorSize::Quad => 4 * unit,
        }
    }

    /// The size as a number.
    pub fn count(self) -> (number: u32)
        ensures
            number == self.number(),
    {
        match self {
            VectorSize::Bi => 2,
            VectorSize::Tri => 3,
            VectorSize::Quad => 4,
        }
    }
}

#[derive(Clone, Copy, Debug, PartialEq, Eq, Structural)]
pub enum ScalarKind {
    Sint,
    Uint,
    Float,
    Bool,
}

#[derive(Clone, Copy, Debug)]
pub enum ArraySize {
    Constant(Handle<Constant>),
    Dynamic,
}

#[derive(Clone, Copy, Debug, PartialEq, Eq, Structural)]
pub enum Interpolation {
    Perspective,
    Linear,
    Flat,
    Patch,
    Centroid,
    Sample,
}

/// A member of a structure. A `span` is the room that it takes, where that differs from its size.
#[derive(Debug)]
pub struct StructMember {
    pub name: Option<String>,
    pub span: Option<u32>,
    pub ty: Handle<Type>,
}

#[derive(Clone, Copy, Debug, PartialEq, Eq, Structural)]
pub enum ImageDimension {
    D1,
    D2,
    D3,
    Cube,
}

/// The ways in which the shaders of a module access a storage variable, as a bit set.
#[derive(Clone, Copy, Debug, PartialEq, Eq, Structural)]
pub struct StorageAccess {
    pub bits: u32,
}

impl StorageAccess {
    pub fn is_empty(self) -> (empty: bool)
        ensures
            empty == (self.bits == 0),
    {
        self.bits == 0
    }
}

#[derive(Clone, Copy, Debug, PartialEq, Eq, Structural)]
pub enum StorageFormat {
    R8Unorm,
    R8Snorm,
    R8Uint,
    R8Sint,
    R16Uint,
    R16Sint,
    R16Float,
    Rg8Unorm,
    Rg8Snorm,
    Rg8Uint,
    Rg8Sint,
    R32Uint,
    R32Sint,
    R32Float,
    Rg16Uint,
    Rg16Sint,
    Rg16Float,
    Rgba8Unorm,
    Rgba8Snorm,
    Rgba8Uint,
    Rgba8Sint,
    Rgb10a2Unorm,
    Rg11b10Float,
    Rg32Uint,
    Rg32Sint,
    Rg32Float,
    Rgba16Uint,
    Rgba16Sint,
    Rgba16Float,
    Rgba32Uint,
    Rgba32Sint,
    Rgba32Float,
}

impl StorageFormat {
    /// The kind of the values that a shader reads from a texel of this format.
    pub open spec fn kind(self) -> ScalarKind {
        match self {
            StorageFormat::R8Uint | StorageFormat::R16Uint | StorageFormat::Rg8Uint
            | StorageFormat::R32Uint | StorageFormat::Rg16Uint | StorageFormat::Rgba8Uint
            | StorageFormat::Rg32Uint | StorageFormat::Rgba16Uint
            | StorageFormat::Rgba32Uint => ScalarKind::Uint,
            StorageFormat::R8Sint | StorageFormat::R16Sint | StorageFormat::Rg8Sint
            | StorageFormat::R32Sint | StorageFormat::Rg16Sint | StorageFormat::Rgba8Sint
            | StorageFormat::Rg32Sint | StorageFormat::Rgba16Sint
            | StorageFormat::Rgba32Sint => ScalarKind::Sint,
            _ => ScalarKind::Float,
        }
    }

    /// The kind of the values that a shader reads from a texel of this format.
    pub fn scalar_kind(self) -> (kind: ScalarKind)
        ensures
            kind == self.kind(),
    {
        match self {
            StorageFormat::R8Uint | StorageFormat::R16Uint | StorageFormat::Rg8Uint
            | StorageFormat::R32Uint | StorageFormat::Rg16Uint | StorageFormat::Rgba8Uint
            | StorageFormat::Rg32Uint | StorageFormat::Rgba16Uint
            | StorageFormat::Rgba32Uint => ScalarKind::Uint,
            StorageFormat::R8Sint | StorageFormat::R16Sint | StorageFormat::Rg8Sint
            | StorageFormat::R32Sint | StorageFormat::Rg16Sint | StorageFormat::Rgba8Sint
            | StorageFormat::Rg32Sint | StorageFormat::Rgba16Sint
            | StorageFormat::Rgba32Sint => ScalarKind::Sint,
            _ => ScalarKind::Float,
        }
    }
}

#[derive(Clone, Copy, Debug, PartialEq, Eq, Structural)]
pub enum ImageClass {
    Sampled { kind: ScalarKind, multi: bool },
    Depth,
    Storage(StorageFormat),
}

#[derive(Debug)]
pub struct Type {
    pub name: Option<String>,
    pub inner: TypeInner,
}

#[allow(inconsistent_fields)]
#[derive(Debug)]
pub enum TypeInner {
    Scalar { kind: ScalarKind, width: Bytes },
    Vector { size: VectorSize, kind: ScalarKind, width: Bytes },
    Matrix { columns: VectorSize, rows: VectorSize, width: Bytes },
    Pointer { base: Handle<Type>, class: VariableClass },
    Array { base: Handle<Type>, size: ArraySize, stride: Option<u32> },
    Struct { block: bool, members: Vec<StructMember> },
    Image { dim: ImageDimension, arrayed: bool, class: ImageClass },
    Sampler { comparison: bool },
}

impl TypeInner {
    /// The kind of the scalars that a value of this type is made of, where it has one kind only.
    pub open spec fn kind(self) -> Option<ScalarKind> {
        match self {
            TypeInner::Scalar { kind, .. } => Some(kind),
            TypeInner::Vector { kind, .. } => Some(kind),
            TypeInner::Matrix { .. } => Some(ScalarKind::Float),
            _ => None,
        }
    }

    /// The kind of the scalars that a value of this type is made of, where it has one kind only.
    pub fn scalar_kind(&self) -> (kind: Option<ScalarKind>)
        ensures
            kind == self.kind(),
    {
        match self {
            TypeInner::Scalar { kind, .. } => Some(*kind),
            TypeInner::Vector { kind, .. } => Some(*kind),
            TypeInner::Matrix { .. } => Some(ScalarKind::Float),
            _ => None,
        }
    }
}

#[derive(Debug)]
pub struct Constant {
    pub name: Option<String>,
    pub specialization: Option<u32>,
    pub inner: ConstantInner,
}

/// The value of a scalar constant. A floating-point value is held by the bits of its
/// single-precision and of its double-precision form.
#[derive(Clone, Copy, Debug)]
pub enum ScalarValue {
    Sint(i64),
    Uint(u64),
    Float { single: u32, double: u64 },
    Bool(bool),
}

impl ScalarValue {
    pub open spec fn kind(self) -> ScalarKind {
        match self {
            ScalarValue::Sint(_) => ScalarKind::Sint,
            ScalarValue::Uint(_) => ScalarKind::Uint,
            ScalarValue::Float { .. } => ScalarKind::Float,
            ScalarValue::Bool(_) => ScalarKind::Bool,
        }
    }

    pub fn scalar_kind(&self) -> (kind: ScalarKind)
        ensures
            kind == self.kind(),
    {
        match self {
            ScalarValue::Sint(_) => ScalarKind::Sint,
            ScalarValue::Uint(_) => ScalarKind::Uint,
            ScalarValue::Float { .. } => ScalarKind::Float,
            ScalarValue::Bool(_) => ScalarKind::Bool,
        }
    }
}

#[derive(Debug)]
pub enum ConstantInner {
    Scalar { width: Bytes, value: ScalarValue },
    Composite { ty: Handle<Type>, components: Vec<Handle<Constant>> },
}

#[derive(Clone, Copy, Debug)]
pub enum Binding {
    BuiltIn(Builtin),
    Location(u32),
    Resource { group: u32, binding: u32 },
}

/// The ways in which a function uses a global variable, as a bit set.
#[derive(Clone, Copy, Debug, PartialEq, Eq, Structural)]
pub struct GlobalUse {
    pub bits: u8,
}

impl GlobalUse {
    pub fn is_empty(self) -> (empty: bool)
        ensures
            empty == (self.bits == 0),
    {
        self.bits == 0
    }
}

#[derive(Debug)]
pub struct GlobalVariable {
    pub name: Option<String>,
    pub class: VariableClass,
    pub binding: Option<Binding>,
    pub ty: Handle<Type>,
    pub init: Option<Handle<Constant>>,
    pub interpolation: Option<Interpolation>,
    pub storage_access: StorageAccess,
}

#[derive(Debug)]
pub struct LocalVariable {
    pub name: Option<String>,
    pub ty: Handle<Type>,
    pub init: Option<Handle<Constant>>,
}

#[derive(Clone, Copy, Debug, PartialEq, Eq, Structural)]
pub enum UnaryOperator {
    Negate,
    Not,
}

#[derive(Clone, Copy, Debug, PartialEq, Eq, Structural)]
pub enum BinaryOperator {
    Add,
    Subtract,
    Multiply,
    Divide,
    Modulo,
    Equal,
    NotEqual,
    Less,
    LessEqual,
    Greater,
    GreaterEqual,
    And,
    ExclusiveOr,
    InclusiveOr,
    LogicalAnd,
    LogicalOr,
    ShiftLeft,
    ShiftRight,
}

#[derive(Clone, Copy, Debug, PartialEq, Eq, Structural)]
pub enum MathFunction {
    Abs,
    Min,
    Max,
    Clamp,
    Cos,
    Cosh,
    Sin,
    Sinh,
    Tan,
    Tanh,
    Acos,
    Asin,
    Atan,
    Atan2,
    Ceil,
    Floor,
    Round,
    Fract,
    Trunc,
    Modf,
    Frexp,
    Ldexp,
    Exp,
    Exp2,
    Log,
    Log2,
    Pow,
    Dot,
    Outer,
    Cross,
    Distance,
    Length,
    Normalize,
    FaceForward,
    Reflect,
    Sign,
    Fma,
    Mix,
    Step,
    SmoothStep,
    Sqrt,
    InverseSqrt,
    Inverse,
    Transpose,
    Determinant,
    CountOneBits,
    ReverseBits,
}

#[derive(Clone, Copy, Debug, PartialEq, Eq, Structural)]
pub enum RelationalFunction {
    All,
    Any,
    IsNan,
    IsInf,
    IsFinite,
    IsNormal,
}

#[derive(Clone, Copy, Debug, PartialEq, Eq, Structural)]
pub enum DerivativeAxis {
    X,
    Y,
    Width,
}

/// How the level of detail of an image access is found.
#[derive(Clone, Copy, Debug)]
pub enum SampleLevel {
    Auto,
    Zero,
    Exact(Handle<Expression>),
    Bias(Handle<Expression>),
    Gradient { x: Handle<Expression>, y: Handle<Expression> },
}

#[allow(inconsistent_fields)]
#[derive(Debug)]
pub enum Expression {
    Access { base: Handle<Expression>, index: Handle<Expression> },
    AccessIndex { base: Handle<Expression>, index: u32 },
    Constant(Handle<Constant>),
    Compose { ty: Handle<Type>, components: Vec<Handle<Expression>> },
    FunctionArgument(u32),
    GlobalVariable(Handle<GlobalVariable>),
    LocalVariable(Handle<LocalVariable>),
    Load { pointer: Handle<Expression> },
    ImageSample {
        image: Handle<Expression>,
        sampler: Handle<Expression>,
        coordinate: Handle<Expression>,
        array_index: Option<Handle<Expression>>,
        offset: Option<Handle<Constant>>,
        level: SampleLevel,
        depth_ref: Option<Handle<Expression>>,
    },
    ImageLoad {
        image: Handle<Expression>,
        coordinate: Handle<Expression>,
        array_index: Option<Handle<Expression>>,
        index: Option<Handle<Expression>>,
    },
    Unary { op: UnaryOperator, expr: Handle<Expression> },
    Binary { op: BinaryOperator, left: Handle<Expression>, right: Handle<Expression> },
    Select {
        condition: Handle<Expression>,
        accept: Handle<Expression>,
        reject: Handle<Expression>,
    },
    Derivative { axis: DerivativeAxis, expr: Handle<Expression> },
    Relational { fun: RelationalFunction, argument: Handle<Expression> },
    Math {
        fun: MathFunction,
        arg: Handle<Expression>,
        arg1: Option<Handle<Expression>>,
        arg2: Option<Handle<Expression>>,
    },
    As { expr: Handle<Expression>, kind: ScalarKind, convert: bool },
    Call { function: Handle<Function>, arguments: Vec<Handle<Expression>> },
    ArrayLength(Handle<Expression>),
}

#[derive(Debug)]
pub struct SwitchCase {
    pub value: i32,
    pub body: Vec<Statement>,
    pub fall_through: bool,
}

#[allow(inconsistent_fields)]
#[derive(Debug)]
pub enum Statement {
    Block(Vec<Statement>),
    If { condition: Handle<Expression>, accept: Vec<Statement>, reject: Vec<Statement> },
    Switch { selector: Handle<Expression>, cases: Vec<SwitchCase>, default: Vec<Statement> },
    Loop { body: Vec<Statement>, continuing: Vec<Statement> },
    Break,
    Continue,
    Return { value: Option<Handle<Expression>> },
    Kill,
    Store { pointer: Handle<Expression>, value: Handle<Expression> },
}

#[derive(Debug)]
pub struct FunctionArgument {
    pub name: Option<String>,
    pub ty: Handle<Type>,
}

/// A function. `global_usage` says of each global variable, in the order of the module's arena,
/// how the function uses it.
#[derive(Debug)]
pub struct Function {
    pub name: Option<String>,
    pub arguments: Vec<FunctionArgument>,
    pub return_type: Option<Handle<Type>>,
    pub global_usage: Vec<GlobalUse>,
    pub local_variables: Arena<LocalVariable>,
    pub expressions: Arena<Expression>,
    pub body: Vec<Statement>,
}

/// An entry point: the stage that it is for, the name by which it is found, and its function.
#[derive(Debug)]
pub struct EntryPoint {
    pub stage: ShaderStage,
    pub name: String,
    pub workgroup_size: [u32; 3],
    pub function: Function,
}

#[derive(Debug)]
pub struct Module {
    pub header: Header,
    pub types: Arena<Type>,
    pub constants: Arena<Constant>,
    pub global_variables: Arena<GlobalVariable>,
    pub functions: Arena<Function>,
    pub entry_points: Vec<EntryPoint>,
}

impl Module {
    /// Whether an entry point is found by its stage and name: no two have the same.
    pub open spec fn has_distinct_entry_points(self) -> bool {
        forall|i: int, j: int|
            0 <= i < self.entry_points@.len() && 0 <= j < self.entry_points@.len() && i != j
                ==> (#[trigger] self.entry_points@[i]).stage != (
            #[trigger] self.entry_points@[j]).stage || self.entry_points@[i].name@
                != self.entry_points@[j].name@
    }
}

} // verus!

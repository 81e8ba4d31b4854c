//! Whole modules.

use spirv_headers as spirv;
use spv_writer::arena::{Arena, Handle};
use spv_writer::ir::{
    ArraySize, Binding, Builtin, Constant, ConstantInner, EntryPoint, Expression, Function,
    FunctionArgument, GlobalUse, GlobalVariable, Header, ImageClass, ImageDimension,
    Interpolation, LocalVariable, Module, ScalarKind, ScalarValue, ShaderStage, Statement,
    StorageAccess, StructMember, Type, TypeInner, VariableClass, VectorSize,
};
use spv_writer::spv::error::Error;
use spv_writer::spv::model::WriterFlags;
use spv_writer::spv::table::CapabilitySet;
use spv_writer::spv::words::string_to_words;
use spv_writer::spv::writer::Writer;

fn header(minor: u8) -> Header {
    Header {
        version: (1, minor, 0),
        generator: 28,
    }
}

fn empty_module() -> Module {
    Module {
        header: header(0),
        types: Arena::new(),
        constants: Arena::new(),
        global_variables: Arena::new(),
        functions: Arena::new(),
        entry_points: Vec::new(),
    }
}

fn function(body: Vec<Statement>) -> Function {
    Function {
        name: None,
        arguments: Vec::new(),
        return_type: None,
        global_usage: Vec::new(),
        local_variables: Arena::new(),
        expressions: Arena::new(),
        body,
    }
}

fn shader() -> CapabilitySet {
    let mut set = CapabilitySet::new();
    set.insert(spirv::Capability::Shader);
    set
}

fn write_as(
    module: &Module,
    minor: u8,
    flags: WriterFlags,
    capabilities: CapabilitySet,
) -> Result<Vec<u32>, Error> {
    let mut writer = Writer::new(&header(minor), flags, capabilities);
    let mut words = Vec::new();
    writer.write(module, &mut words)?;
    Ok(words)
}

fn write(module: &Module) -> Vec<Vec<u32>> {
    split(&write_as(module, 0, WriterFlags::NONE, shader()).unwrap())
}

/// The instructions of a module, without the header.
fn split(words: &[u32]) -> Vec<Vec<u32>> {
    let mut list = Vec::new();
    let mut at = 5;
    while at < words.len() {
        let next = at + (words[at] >> 16) as usize;
        list.push(words[at..next].to_vec());
        at = next;
    }
    assert_eq!(at, words.len());
    list
}

fn op(op: spirv::Op, operands: &[u32]) -> Vec<u32> {
    let mut words = vec![((operands.len() as u32 + 1) << 16) | op as u32];
    words.extend_from_slice(operands);
    words
}

fn op_text(kind: spirv::Op, start: &[u32], text: &str, end: &[u32]) -> Vec<u32> {
    let mut operands = start.to_vec();
    operands.extend(string_to_words(text));
    operands.extend_from_slice(end);
    op(kind, &operands)
}

fn of(list: &[Vec<u32>], kind: spirv::Op) -> Vec<Vec<u32>> {
    list.iter()
        .filter(|words| words[0] & 0xffff == kind as u32)
        .cloned()
        .collect()
}

fn ty(inner: TypeInner) -> Type {
    Type { name: None, inner }
}

fn float() -> Type {
    ty(TypeInner::Scalar {
        kind: ScalarKind::Float,
        width: 4,
    })
}

fn scalar_constant(width: u8, value: ScalarValue) -> Constant {
    Constant {
        name: None,
        specialization: None,
        inner: ConstantInner::Scalar { width, value },
    }
}

fn global(class: VariableClass, ty: Handle<Type>) -> GlobalVariable {
    GlobalVariable {
        name: None,
        class,
        binding: None,
        ty,
        init: None,
        interpolation: None,
        storage_access: StorageAccess { bits: 0 },
    }
}

/// A function that returns the value of a constant.
fn function_of_constant(handle: Handle<Constant>, ty: Handle<Type>) -> Function {
    let mut result = function(Vec::new());
    let value = result.expressions.append(Expression::Constant(handle));
    result.return_type = Some(ty);
    result.body.push(Statement::Return { value: Some(value) });
    result
}

/// A function that loads a global variable and drops the value.
fn function_of_global(handle: Handle<GlobalVariable>) -> Function {
    let mut result = function(Vec::new());
    let pointer = result.expressions.append(Expression::GlobalVariable(handle));
    result.body.push(Statement::Store {
        pointer,
        value: pointer,
    });
    result
}

#[test]
fn empty_module_has_only_what_every_module_has() {
    let words = write_as(&empty_module(), 0, WriterFlags::NONE, shader()).unwrap();
    assert_eq!(&words[..5], &[0x0723_0203, 0x0001_0000, 28, 2, 0]);
    assert_eq!(
        split(&words),
        vec![
            op(spirv::Op::Capability, &[1]),
            op_text(spirv::Op::ExtInstImport, &[1], "GLSL.std.450", &[]),
            op(spirv::Op::MemoryModel, &[0, 1]),
        ]
    );
}

#[test]
fn words_are_appended() {
    let mut writer = Writer::new(&header(0), WriterFlags::NONE, shader());
    let mut words = vec![7, 8];
    writer.write(&empty_module(), &mut words).unwrap();
    assert_eq!(&words[..3], &[7, 8, 0x0723_0203]);
}

#[test]
fn module_is_refused_without_shaders() {
    match write_as(&empty_module(), 0, WriterFlags::NONE, CapabilitySet::new()) {
        Err(Error::MissingCapabilities(list)) => {
            assert_eq!(list, vec![spirv::Capability::Shader])
        }
        other => panic!("{:?}", other),
    }
}

#[test]
fn refused_module_leaves_the_words_alone() {
    let mut writer = Writer::new(&header(0), WriterFlags::NONE, CapabilitySet::new());
    let mut words = vec![7];
    assert!(writer.write(&empty_module(), &mut words).is_err());
    assert_eq!(words, vec![7]);
    assert_eq!(writer.id_count(), 1);
}

#[test]
fn capabilities_are_declared_in_order_and_once() {
    let mut set = CapabilitySet::new();
    set.insert(spirv::Capability::Sampled1D);
    set.insert(spirv::Capability::Shader);
    set.insert(spirv::Capability::Sampled1D);
    let words = write_as(&empty_module(), 0, WriterFlags::NONE, set).unwrap();
    assert_eq!(
        of(&split(&words), spirv::Op::Capability),
        vec![
            op(spirv::Op::Capability, &[43]),
            op(spirv::Op::Capability, &[1]),
        ]
    );
}

#[test]
fn function_without_statements_returns() {
    let mut module = empty_module();
    module.functions.append(function(Vec::new()));
    assert_eq!(
        write(&module)[3..],
        [
            op(spirv::Op::TypeVoid, &[2]),
            op(spirv::Op::TypeFunction, &[4, 2]),
            op(spirv::Op::Function, &[2, 3, 0, 4]),
            op(spirv::Op::Label, &[5]),
            op(spirv::Op::Return, &[]),
            op(spirv::Op::FunctionEnd, &[]),
        ]
    );
}

#[test]
fn functions_of_one_type_share_it() {
    let mut module = empty_module();
    module.functions.append(function(Vec::new()));
    module.functions.append(function(Vec::new()));
    let list = write(&module);
    assert_eq!(of(&list, spirv::Op::TypeVoid).len(), 1);
    assert_eq!(of(&list, spirv::Op::TypeFunction).len(), 1);
    assert_eq!(
        of(&list, spirv::Op::Function),
        vec![
            op(spirv::Op::Function, &[2, 3, 0, 4]),
            op(spirv::Op::Function, &[2, 6, 0, 4]),
        ]
    );
}

#[test]
fn parameters_and_variables_are_declared() {
    let mut module = empty_module();
    let number = module.types.append(float());
    let one = module.constants.append(scalar_constant(
        4,
        ScalarValue::Float {
            single: 0x3f80_0000,
            double: 0x3ff0_0000_0000_0000,
        },
    ));
    let mut body = function(Vec::new());
    body.arguments.push(FunctionArgument {
        name: None,
        ty: number,
    });
    body.local_variables.append(LocalVariable {
        name: None,
        ty: number,
        init: Some(one),
    });
    module.functions.append(body);
    assert_eq!(
        write(&module)[3..],
        [
            op(spirv::Op::TypeFloat, &[4, 32]),
            op(spirv::Op::Constant, &[4, 3, 0x3f80_0000]),
            op(spirv::Op::TypePointer, &[5, 7, 4]),
            op(spirv::Op::TypeVoid, &[6]),
            op(spirv::Op::TypeFunction, &[9, 6, 4]),
            op(spirv::Op::Function, &[6, 8, 0, 9]),
            op(spirv::Op::FunctionParameter, &[4, 7]),
            op(spirv::Op::Label, &[10]),
            op(spirv::Op::Variable, &[5, 2, 7, 3]),
            op(spirv::Op::Return, &[]),
            op(spirv::Op::FunctionEnd, &[]),
        ]
    );
}

#[test]
fn vertex_entry_point_lists_what_it_exchanges() {
    let mut module = empty_module();
    let number = module.types.append(float());
    let mut position = global(VariableClass::Output, number);
    position.binding = Some(Binding::BuiltIn(Builtin::Position));
    module.global_variables.append(position);
    let mut input = global(VariableClass::Input, number);
    input.binding = Some(Binding::Location(3));
    input.interpolation = Some(Interpolation::Flat);
    module.global_variables.append(input);
    module
        .global_variables
        .append(global(VariableClass::Private, number));
    module
        .global_variables
        .append(global(VariableClass::Input, number));
    let mut main = function(Vec::new());
    main.global_usage = vec![
        GlobalUse { bits: 2 },
        GlobalUse { bits: 1 },
        GlobalUse { bits: 1 },
        GlobalUse { bits: 0 },
    ];
    module.entry_points.push(EntryPoint {
        stage: ShaderStage::Vertex,
        name: String::from("main"),
        workgroup_size: [0, 0, 0],
        function: main,
    });
    let list = write(&module);
    assert_eq!(
        of(&list, spirv::Op::EntryPoint),
        vec![op_text(spirv::Op::EntryPoint, &[0, 3], "main", &[6, 9])]
    );
    assert_eq!(of(&list, spirv::Op::ExecutionMode), Vec::<Vec<u32>>::new());
    assert_eq!(
        of(&list, spirv::Op::Decorate),
        vec![
            op(spirv::Op::Decorate, &[6, 11, 0]),
            op(spirv::Op::Decorate, &[9, 14]),
            op(spirv::Op::Decorate, &[9, 30, 3]),
        ]
    );
    assert_eq!(
        of(&list, spirv::Op::Variable),
        vec![
            op(spirv::Op::Variable, &[8, 6, 3]),
            op(spirv::Op::Variable, &[10, 9, 1]),
        ]
    );
}

#[test]
fn fragment_entry_point_has_its_origin_upper_left() {
    let mut module = empty_module();
    module.entry_points.push(EntryPoint {
        stage: ShaderStage::Fragment,
        name: String::from("fs"),
        workgroup_size: [0, 0, 0],
        function: function(Vec::new()),
    });
    let list = write(&module);
    assert_eq!(
        of(&list, spirv::Op::EntryPoint),
        vec![op_text(spirv::Op::EntryPoint, &[4, 3], "fs", &[])]
    );
    assert_eq!(
        of(&list, spirv::Op::ExecutionMode),
        vec![op(spirv::Op::ExecutionMode, &[3, 7])]
    );
}

#[test]
fn compute_entry_point_has_a_size() {
    let mut module = empty_module();
    module.entry_points.push(EntryPoint {
        stage: ShaderStage::Compute,
        name: String::from("cs"),
        workgroup_size: [8, 4, 1],
        function: function(Vec::new()),
    });
    let list = write(&module);
    assert_eq!(
        of(&list, spirv::Op::EntryPoint),
        vec![op_text(spirv::Op::EntryPoint, &[5, 3], "cs", &[])]
    );
    assert_eq!(
        of(&list, spirv::Op::ExecutionMode),
        vec![op(spirv::Op::ExecutionMode, &[3, 17, 8, 4, 1])]
    );
}

#[test]
fn fragment_entry_point_is_refused_without_shaders() {
    let mut module = empty_module();
    module.entry_points.push(EntryPoint {
        stage: ShaderStage::Fragment,
        name: String::from("fs"),
        workgroup_size: [0, 0, 0],
        function: function(Vec::new()),
    });
    assert!(matches!(
        write_as(&module, 0, WriterFlags::NONE, CapabilitySet::new()),
        Err(Error::MissingCapabilities(_))
    ));
}

#[test]
fn names_are_written_only_if_asked_for() {
    let mut module = empty_module();
    let mut number = float();
    number.name = Some(String::from("Number"));
    let number = module.types.append(number);
    let record = module.types.append(Type {
        name: Some(String::from("Record")),
        inner: TypeInner::Struct {
            block: true,
            members: vec![StructMember {
                name: Some(String::from("x")),
                span: None,
                ty: number,
            }],
        },
    });
    let mut variable = global(VariableClass::Uniform, record);
    variable.name = Some(String::from("uniforms"));
    let variable = module.global_variables.append(variable);
    let mut main = function(Vec::new());
    main.local_variables.append(LocalVariable {
        name: Some(String::from("local")),
        ty: number,
        init: None,
    });
    let pointer = main.expressions.append(Expression::GlobalVariable(variable));
    main.body.push(Statement::Store {
        pointer,
        value: pointer,
    });
    module.entry_points.push(EntryPoint {
        stage: ShaderStage::Vertex,
        name: String::from("main"),
        workgroup_size: [0, 0, 0],
        function: main,
    });

    let silent = write_as(&module, 0, WriterFlags::NONE, shader()).unwrap();
    assert!(of(&split(&silent), spirv::Op::Name).is_empty());
    assert!(of(&split(&silent), spirv::Op::MemberName).is_empty());
    assert!(of(&split(&silent), spirv::Op::Source).is_empty());

    let list = split(&write_as(&module, 0, WriterFlags::DEBUG, shader()).unwrap());
    assert_eq!(
        of(&list, spirv::Op::Source),
        vec![op(spirv::Op::Source, &[2, 450])]
    );
    assert_eq!(
        of(&list, spirv::Op::MemberName),
        vec![op_text(spirv::Op::MemberName, &[10, 0], "x", &[])]
    );
    assert_eq!(
        of(&list, spirv::Op::Name),
        vec![
            op_text(spirv::Op::Name, &[2], "local", &[]),
            op_text(spirv::Op::Name, &[10], "Record", &[]),
            op_text(spirv::Op::Name, &[9], "uniforms", &[]),
            op_text(spirv::Op::Name, &[6], "main", &[]),
        ]
    );
}

#[test]
fn resources_are_decorated_with_set_and_binding() {
    let mut module = empty_module();
    let number = module.types.append(float());
    let mut variable = global(VariableClass::Uniform, number);
    variable.binding = Some(Binding::Resource {
        group: 2,
        binding: 5,
    });
    let variable = module.global_variables.append(variable);
    module.functions.append(function_of_global(variable));
    let list = write(&module);
    let id = of(&list, spirv::Op::Variable)[0][2];
    assert_eq!(
        of(&list, spirv::Op::Decorate),
        vec![
            op(spirv::Op::Decorate, &[id, 34, 2]),
            op(spirv::Op::Decorate, &[id, 33, 5]),
        ]
    );
}

#[test]
fn interpolation_becomes_a_decoration() {
    let decorations = |interpolation| {
        let mut module = empty_module();
        let number = module.types.append(float());
        let mut variable = global(VariableClass::Input, number);
        variable.interpolation = Some(interpolation);
        let variable = module.global_variables.append(variable);
        module.functions.append(function_of_global(variable));
        of(&write(&module), spirv::Op::Decorate)
            .iter()
            .map(|words| words[2])
            .collect::<Vec<u32>>()
    };
    assert_eq!(
        decorations(Interpolation::Linear),
        vec![spirv::Decoration::NoPerspective as u32]
    );
    assert_eq!(
        decorations(Interpolation::Flat),
        vec![spirv::Decoration::Flat as u32]
    );
    assert_eq!(
        decorations(Interpolation::Patch),
        vec![spirv::Decoration::Patch as u32]
    );
    assert_eq!(
        decorations(Interpolation::Centroid),
        vec![spirv::Decoration::Centroid as u32]
    );
    assert_eq!(
        decorations(Interpolation::Sample),
        vec![spirv::Decoration::Sample as u32]
    );
    assert_eq!(decorations(Interpolation::Perspective), Vec::<u32>::new());
}

#[test]
fn built_in_values_have_the_numbers_of_spirv() {
    let number = |built_in| {
        let mut module = empty_module();
        let number = module.types.append(float());
        let mut variable = global(VariableClass::Input, number);
        variable.binding = Some(Binding::BuiltIn(built_in));
        let variable = module.global_variables.append(variable);
        module.functions.append(function_of_global(variable));
        of(&write(&module), spirv::Op::Decorate)[0][3]
    };
    assert_eq!(number(Builtin::Position), 0);
    assert_eq!(number(Builtin::PointSize), 1);
    assert_eq!(number(Builtin::ClipDistance), 3);
    assert_eq!(number(Builtin::FragCoord), 15);
    assert_eq!(number(Builtin::FrontFacing), 17);
    assert_eq!(number(Builtin::SampleIndex), 18);
    assert_eq!(number(Builtin::SampleMaskIn), 20);
    assert_eq!(number(Builtin::SampleMaskOut), 20);
    assert_eq!(number(Builtin::FragDepth), 22);
    assert_eq!(number(Builtin::WorkGroupSize), 25);
    assert_eq!(number(Builtin::WorkGroupId), 26);
    assert_eq!(number(Builtin::LocalInvocationId), 27);
    assert_eq!(number(Builtin::GlobalInvocationId), 28);
    assert_eq!(number(Builtin::LocalInvocationIndex), 29);
    assert_eq!(number(Builtin::VertexIndex), 42);
    assert_eq!(number(Builtin::InstanceIndex), 43);
    assert_eq!(number(Builtin::BaseVertex), 4424);
    assert_eq!(number(Builtin::BaseInstance), 4425);
}

#[test]
fn storage_classes_depend_on_the_version() {
    let class = |class, minor| {
        let mut module = empty_module();
        let number = module.types.append(float());
        let variable = module.global_variables.append(global(class, number));
        module.functions.append(function_of_global(variable));
        let mut set = shader();
        set.insert(spirv::Capability::Kernel);
        let words = write_as(&module, minor, WriterFlags::NONE, set).unwrap();
        of(&split(&words), spirv::Op::Variable)[0][3]
    };
    assert_eq!(class(VariableClass::Handle, 0), 0);
    assert_eq!(class(VariableClass::Input, 0), 1);
    assert_eq!(class(VariableClass::Uniform, 0), 2);
    assert_eq!(class(VariableClass::Output, 0), 3);
    assert_eq!(class(VariableClass::WorkGroup, 0), 4);
    assert_eq!(class(VariableClass::Private, 0), 6);
    assert_eq!(class(VariableClass::Function, 0), 7);
    assert_eq!(class(VariableClass::PushConstant, 0), 9);
    assert_eq!(class(VariableClass::Storage, 0), 2);
    assert_eq!(class(VariableClass::Storage, 3), 12);
}

#[test]
fn global_variable_is_refused_without_its_capability() {
    let mut module = empty_module();
    let number = module.types.append(float());
    let variable = module
        .global_variables
        .append(global(VariableClass::Output, number));
    module.functions.append(function_of_global(variable));
    match write_as(&module, 0, WriterFlags::NONE, CapabilitySet::new()) {
        Err(Error::MissingCapabilities(list)) => {
            assert_eq!(list, vec![spirv::Capability::Shader])
        }
        other => panic!("{:?}", other),
    }
}

#[test]
fn constants_have_one_word_or_two() {
    let words = |kind, width, value| {
        let mut module = empty_module();
        let number = module.types.append(ty(TypeInner::Scalar { kind, width }));
        let constant = module.constants.append(scalar_constant(width, value));
        module
            .functions
            .append(function_of_constant(constant, number));
        let mut list = of(&write(&module), spirv::Op::Constant);
        list.remove(0).split_off(3)
    };
    assert_eq!(words(ScalarKind::Uint, 4, ScalarValue::Uint(7)), vec![7]);
    assert_eq!(
        words(ScalarKind::Sint, 4, ScalarValue::Sint(-2)),
        vec![0xffff_fffe]
    );
    assert_eq!(
        words(ScalarKind::Uint, 8, ScalarValue::Uint(0x0123_4567_89ab_cdef)),
        vec![0x0123_4567, 0x89ab_cdef]
    );
    assert_eq!(
        words(ScalarKind::Sint, 8, ScalarValue::Sint(-2)),
        vec![0xffff_ffff, 0xffff_fffe]
    );
    let half = ScalarValue::Float {
        single: 0.5f32.to_bits(),
        double: 0.5f64.to_bits(),
    };
    assert_eq!(words(ScalarKind::Float, 4, half), vec![0x3f00_0000]);
    assert_eq!(words(ScalarKind::Float, 8, half), vec![0x3fe0_0000, 0]);
}

#[test]
fn truth_values_are_constants_of_their_own() {
    let mut module = empty_module();
    let truth = module.types.append(ty(TypeInner::Scalar {
        kind: ScalarKind::Bool,
        width: 1,
    }));
    let yes = module
        .constants
        .append(scalar_constant(1, ScalarValue::Bool(true)));
    let no = module
        .constants
        .append(scalar_constant(1, ScalarValue::Bool(false)));
    module.functions.append(function_of_constant(yes, truth));
    module.functions.append(function_of_constant(no, truth));
    let list = write(&module);
    assert_eq!(
        of(&list, spirv::Op::TypeBool),
        vec![op(spirv::Op::TypeBool, &[2])]
    );
    assert_eq!(of(&list, spirv::Op::ConstantTrue).len(), 1);
    assert_eq!(of(&list, spirv::Op::ConstantFalse).len(), 1);
}

#[test]
fn composite_constant_declares_its_parts_first() {
    let mut module = empty_module();
    let number = module.types.append(float());
    let one = ScalarValue::Float {
        single: 0x3f80_0000,
        double: 0x3ff0_0000_0000_0000,
    };
    let one = module.constants.append(scalar_constant(4, one));
    let two = module
        .constants
        .append(scalar_constant(4, ScalarValue::Uint(2)));
    let pair = module.types.append(ty(TypeInner::Array {
        base: number,
        size: ArraySize::Constant(two),
        stride: Some(4),
    }));
    let both = module.constants.append(Constant {
        name: None,
        specialization: None,
        inner: ConstantInner::Composite {
            ty: pair,
            components: vec![one, one],
        },
    });
    let mut body = function(Vec::new());
    let value = body.expressions.append(Expression::Constant(both));
    body.body.push(Statement::Return { value: Some(value) });
    module.functions.append(body);
    assert_eq!(
        write(&module)[3..],
        [
            op(spirv::Op::Decorate, &[11, 6, 4]),
            op(spirv::Op::TypeVoid, &[2]),
            op(spirv::Op::TypeFunction, &[4, 2]),
            op(spirv::Op::TypeFloat, &[8, 32]),
            op(spirv::Op::Constant, &[8, 7, 0x3f80_0000]),
            op(spirv::Op::TypeInt, &[10, 32, 0]),
            op(spirv::Op::Constant, &[10, 9, 2]),
            op(spirv::Op::TypeArray, &[11, 8, 9]),
            op(spirv::Op::ConstantComposite, &[11, 6, 7, 7]),
            op(spirv::Op::Function, &[2, 3, 0, 4]),
            op(spirv::Op::Label, &[5]),
            op(spirv::Op::ReturnValue, &[6]),
            op(spirv::Op::FunctionEnd, &[]),
        ]
    );
}

#[test]
fn buffers_have_offsets_and_strides() {
    let mut module = empty_module();
    let number = module.types.append(float());
    let vec3 = module.types.append(ty(TypeInner::Vector {
        size: VectorSize::Tri,
        kind: ScalarKind::Float,
        width: 4,
    }));
    let matrix = module.types.append(ty(TypeInner::Matrix {
        columns: VectorSize::Quad,
        rows: VectorSize::Quad,
        width: 4,
    }));
    let list = module.types.append(ty(TypeInner::Array {
        base: number,
        size: ArraySize::Dynamic,
        stride: Some(16),
    }));
    let members = [number, vec3, matrix, number, list]
        .iter()
        .enumerate()
        .map(|(index, ty)| StructMember {
            name: None,
            span: if index == 3 { Some(12) } else { None },
            ty: *ty,
        })
        .collect();
    let buffer = module.types.append(ty(TypeInner::Struct {
        block: true,
        members,
    }));
    let variable = module
        .global_variables
        .append(global(VariableClass::Uniform, buffer));
    module.functions.append(function_of_global(variable));
    let words = write(&module);
    let id = of(&words, spirv::Op::TypeStruct)[0][1];
    let member = |index, decoration: spirv::Decoration, value| {
        op(
            spirv::Op::MemberDecorate,
            &[id, index, decoration as u32, value],
        )
    };
    assert_eq!(
        of(&words, spirv::Op::MemberDecorate),
        vec![
            member(0, spirv::Decoration::Offset, 0),
            member(1, spirv::Decoration::Offset, 16),
            member(2, spirv::Decoration::Offset, 32),
            member(2, spirv::Decoration::MatrixStride, 16),
            member(3, spirv::Decoration::Offset, 96),
            member(4, spirv::Decoration::Offset, 108),
        ]
    );
    let matrix_id = of(&words, spirv::Op::TypeMatrix)[0][1];
    let list_id = of(&words, spirv::Op::TypeRuntimeArray)[0][1];
    assert_eq!(
        of(&words, spirv::Op::Decorate),
        vec![
            op(
                spirv::Op::Decorate,
                &[id, spirv::Decoration::Block as u32]
            ),
            op(
                spirv::Op::Decorate,
                &[matrix_id, spirv::Decoration::ColMajor as u32]
            ),
            op(
                spirv::Op::Decorate,
                &[list_id, spirv::Decoration::ArrayStride as u32, 16]
            ),
        ]
    );
}

#[test]
fn storage_buffers_are_marked_as_such() {
    let mut module = empty_module();
    let number = module.types.append(float());
    let buffer = module.types.append(ty(TypeInner::Struct {
        block: true,
        members: vec![StructMember {
            name: None,
            span: None,
            ty: number,
        }],
    }));
    let mut variable = global(VariableClass::Storage, buffer);
    variable.storage_access = StorageAccess { bits: 1 };
    let variable = module.global_variables.append(variable);
    module.functions.append(function_of_global(variable));
    let words = write(&module);
    assert_eq!(
        of(&words, spirv::Op::Decorate)[0][2],
        spirv::Decoration::BufferBlock as u32
    );
}

#[test]
fn plain_structure_has_no_offsets() {
    let mut module = empty_module();
    let number = module.types.append(float());
    let record = module.types.append(ty(TypeInner::Struct {
        block: false,
        members: vec![
            StructMember {
                name: None,
                span: None,
                ty: number,
            },
            StructMember {
                name: None,
                span: None,
                ty: number,
            },
        ],
    }));
    let variable = module
        .global_variables
        .append(global(VariableClass::Private, record));
    module.functions.append(function_of_global(variable));
    let words = write(&module);
    assert!(of(&words, spirv::Op::MemberDecorate).is_empty());
    let float_id = of(&words, spirv::Op::TypeFloat)[0][1];
    let record_words = &of(&words, spirv::Op::TypeStruct)[0];
    assert_eq!(record_words[2..], [float_id, float_id]);
}

#[test]
fn image_is_refused_without_its_dimension() {
    let mut module = empty_module();
    let image = module.types.append(ty(TypeInner::Image {
        dim: ImageDimension::D1,
        arrayed: false,
        class: ImageClass::Sampled {
            kind: ScalarKind::Float,
            multi: false,
        },
    }));
    let variable = module
        .global_variables
        .append(global(VariableClass::Handle, image));
    module.functions.append(function_of_global(variable));
    match write_as(&module, 0, WriterFlags::NONE, shader()) {
        Err(Error::MissingCapabilities(list)) => {
            assert_eq!(list, spirv::Dim::Dim1D.required_capabilities().to_vec())
        }
        other => panic!("{:?}", other),
    }
}

/// A function that reads and writes a cell of a matrix.
fn module_with_a_matrix() -> Module {
    let mut module = empty_module();
    let number = module.types.append(float());
    let matrix = module.types.append(ty(TypeInner::Matrix {
        columns: VectorSize::Bi,
        rows: VectorSize::Bi,
        width: 4,
    }));
    let variable = module
        .global_variables
        .append(global(VariableClass::Private, matrix));
    let mut body = function(Vec::new());
    let base = body.expressions.append(Expression::GlobalVariable(variable));
    let column = body
        .expressions
        .append(Expression::AccessIndex { base, index: 1 });
    let cell = body.expressions.append(Expression::AccessIndex {
        base: column,
        index: 0,
    });
    body.return_type = Some(number);
    body.body.push(Statement::Store {
        pointer: cell,
        value: cell,
    });
    body.body.push(Statement::Return { value: Some(cell) });
    module.functions.append(body);
    module
}

/// What an instruction yields a value of, and the identifier that it defines.
fn type_and_result(instruction: &[u32]) -> (Option<u32>, Option<u32>) {
    let with_type = [
        spirv::Op::Constant,
        spirv::Op::Variable,
        spirv::Op::Function,
        spirv::Op::Load,
        spirv::Op::AccessChain,
    ];
    let without_type = [
        spirv::Op::ExtInstImport,
        spirv::Op::TypeFloat,
        spirv::Op::TypeInt,
        spirv::Op::TypeVector,
        spirv::Op::TypeMatrix,
        spirv::Op::TypePointer,
        spirv::Op::TypeFunction,
        spirv::Op::Label,
    ];
    let kind = instruction[0] & 0xffff;
    if with_type.iter().any(|op| *op as u32 == kind) {
        (Some(instruction[1]), Some(instruction[2]))
    } else if without_type.iter().any(|op| *op as u32 == kind) {
        (None, Some(instruction[1]))
    } else {
        (None, None)
    }
}

#[test]
fn no_identifier_is_defined_twice_and_all_lie_below_the_bound() {
    let words = write_as(&module_with_a_matrix(), 0, WriterFlags::DEBUG, shader()).unwrap();
    let mut ids: Vec<u32> = split(&words)
        .iter()
        .filter_map(|instruction| type_and_result(instruction).1)
        .collect();
    ids.sort_unstable();
    let count = ids.len();
    ids.dedup();
    assert_eq!(ids.len(), count);
    assert_eq!(ids[0], 1);
    assert_eq!(*ids.last().unwrap() + 1, words[3]);
    assert_eq!(ids.len() as u32 + 1, words[3]);
}

#[test]
fn types_come_before_their_values() {
    let mut seen = Vec::new();
    let mut typed = 0;
    for instruction in write(&module_with_a_matrix()) {
        let (type_id, result_id) = type_and_result(&instruction);
        if let Some(type_id) = type_id {
            assert!(seen.contains(&type_id));
            typed += 1;
        }
        seen.extend(result_id);
    }
    // two pointers each for the store and for both values, two indices each for them, two
    // loads, the variable and the function
    assert_eq!(typed, 3 * 2 + 3 * 2 + 2 + 1 + 1);
}

#[test]
fn refused_function_leaves_nothing_among_the_functions() {
    let mut module = empty_module();
    module.functions.append(function(vec![
        Statement::Block(Vec::new()),
        Statement::Kill,
    ]));
    let mut writer = Writer::new(&header(0), WriterFlags::NONE, shader());
    let mut words = Vec::new();
    assert!(matches!(
        writer.write(&module, &mut words),
        Err(Error::FeatureNotImplemented("statement"))
    ));
    assert!(words.is_empty());
    writer.write(&empty_module(), &mut words).unwrap();
    let list = split(&words);
    assert!(of(&list, spirv::Op::Function).is_empty());
    assert!(of(&list, spirv::Op::Label).is_empty());
    // what it declared is remembered
    assert_eq!(of(&list, spirv::Op::TypeFunction).len(), 1);
}

#[test]
fn what_was_written_stays_when_a_second_module_follows() {
    let mut module = empty_module();
    module.functions.append(function(Vec::new()));
    let mut writer = Writer::new(&header(0), WriterFlags::NONE, shader());
    let mut first = Vec::new();
    writer.write(&module, &mut first).unwrap();
    let mut second = Vec::new();
    writer.write(&empty_module(), &mut second).unwrap();
    let first = split(&first);
    let second = split(&second);
    assert_eq!(of(&first, spirv::Op::Function), of(&second, spirv::Op::Function));
    assert_eq!(of(&second, spirv::Op::ExtInstImport).len(), 2);
    assert_eq!(of(&second, spirv::Op::ExtInstImport)[1][1], 6);
}

/// An entry point that uses the first `used` global variables.
fn entry_point(stage: ShaderStage, name: &str, used: usize) -> EntryPoint {
    let mut main = function(Vec::new());
    main.global_usage = vec![GlobalUse { bits: 1 }; used];
    EntryPoint {
        stage,
        name: String::from(name),
        workgroup_size: [1, 1, 1],
        function: main,
    }
}

#[test]
fn functions_come_in_order_before_those_of_entry_points() {
    let mut module = empty_module();
    let number = module.types.append(float());
    for count in 0..2 {
        let mut item = function(Vec::new());
        for _ in 0..count {
            item.arguments.push(FunctionArgument {
                name: None,
                ty: number,
            });
        }
        module.functions.append(item);
    }
    module.entry_points.push(entry_point(ShaderStage::Vertex, "vs", 0));
    module.entry_points.push(entry_point(ShaderStage::Fragment, "fs", 0));
    let list = write(&module);
    let functions = of(&list, spirv::Op::Function);
    let types = of(&list, spirv::Op::TypeFunction);
    assert_eq!(types.len(), 2);
    assert_eq!(types[0].len(), 3);
    assert_eq!(types[1].len(), 4);
    let used: Vec<u32> = functions.iter().map(|words| words[4]).collect();
    assert_eq!(used, [types[0][1], types[1][1], types[0][1], types[0][1]]);
    assert_eq!(
        of(&list, spirv::Op::EntryPoint),
        vec![
            op_text(spirv::Op::EntryPoint, &[0, functions[2][2]], "vs", &[]),
            op_text(spirv::Op::EntryPoint, &[4, functions[3][2]], "fs", &[]),
        ]
    );
}

#[test]
fn entry_points_differ_in_stage_or_name() {
    let mut module = empty_module();
    module.entry_points.push(entry_point(ShaderStage::Vertex, "main", 0));
    module.entry_points.push(entry_point(ShaderStage::Fragment, "main", 0));
    module.entry_points.push(entry_point(ShaderStage::Vertex, "other", 0));
    let list = of(&write(&module), spirv::Op::EntryPoint);
    let keys: Vec<(u32, Vec<u32>)> = list
        .iter()
        .map(|words| (words[1], words[3..].to_vec()))
        .collect();
    assert_eq!(
        keys,
        vec![
            (0, string_to_words("main")),
            (4, string_to_words("main")),
            (0, string_to_words("other")),
        ]
    );
}

#[test]
fn refused_module_leaves_the_bound_alone() {
    let mut refused = empty_module();
    refused.functions.append(function(vec![Statement::Kill]));
    let mut writer = Writer::new(&header(0), WriterFlags::NONE, shader());
    let mut words = Vec::new();
    assert!(writer.write(&refused, &mut words).is_err());
    assert_eq!(writer.physical_layout().bound, 0);
    writer.write(&empty_module(), &mut words).unwrap();
    let bound = writer.id_count() + 1;
    assert_eq!(writer.physical_layout().bound, bound);
    assert_eq!(words[3], bound);
    assert!(writer.write(&refused, &mut words).is_err());
    assert_eq!(writer.physical_layout().bound, bound);
    assert!(writer.id_count() >= bound);
}

#[test]
fn new_decorations_are_of_new_identifiers() {
    let mut writer = Writer::new(&header(0), WriterFlags::NONE, shader());
    let mut module = empty_module();
    let number = module.types.append(float());
    let mut found = Vec::new();
    let mut bounds = vec![0];
    for location in 0..2 {
        let mut input = global(VariableClass::Input, number);
        input.binding = Some(Binding::Location(location));
        module.global_variables.append(input);
        module.entry_points = vec![entry_point(
            ShaderStage::Vertex,
            "main",
            module.global_variables.data.len(),
        )];
        let mut words = Vec::new();
        writer.write(&module, &mut words).unwrap();
        found.push(of(&split(&words), spirv::Op::Decorate));
        bounds.push(writer.id_count());
    }
    assert_eq!(found[0].len(), 1);
    let first = &found[0][0];
    assert_eq!(first[2..], [30, 0]);
    assert!(bounds[0] < first[1] && first[1] <= bounds[1]);
    let last = found[1].last().unwrap();
    assert_eq!(last[2..], [30, 1]);
    assert!(bounds[1] < last[1] && last[1] <= bounds[2]);
    assert!(found[1][..found[1].len() - 1].iter().all(|words| words == first));
}

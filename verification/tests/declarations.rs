//! Types, constants and variables as they are looked up.

use spirv_headers as spirv;
use spv_writer::arena::{Arena, Handle};
use spv_writer::ir::{
    Constant, ConstantInner, GlobalVariable, Header, ImageDimension, Module, ScalarKind,
    ScalarValue, StorageAccess, StructMember, Type, TypeInner, VariableClass, VectorSize,
};
use spv_writer::spv::error::Error;
use spv_writer::spv::lookup::{LocalType, LookupFunctionType, LookupType};
use spv_writer::spv::model::WriterFlags;
use spv_writer::spv::table::CapabilitySet;
use spv_writer::spv::types::map_dim;
use spv_writer::spv::writer::Writer;

fn writer() -> Writer {
    let header = Header {
        version: (1, 0, 0),
        generator: 0,
    };
    let mut capabilities = CapabilitySet::new();
    capabilities.insert(spirv::Capability::Shader);
    Writer::new(&header, WriterFlags::NONE, capabilities)
}

fn module() -> Module {
    Module {
        header: Header {
            version: (1, 0, 0),
            generator: 0,
        },
        types: Arena::new(),
        constants: Arena::new(),
        global_variables: Arena::new(),
        functions: Arena::new(),
        entry_points: Vec::new(),
    }
}

fn float() -> LookupType {
    LookupType::from(LocalType::Scalar {
        kind: ScalarKind::Float,
        width: 4,
    })
}

#[test]
fn identifiers_count_up_from_one() {
    let mut writer = writer();
    assert_eq!(writer.generate_id(), 1);
    assert_eq!(writer.generate_id(), 2);
    writer.write_physical_layout();
    assert_eq!(writer.physical_layout().bound, 3);
}

#[test]
fn type_is_declared_once() {
    let types = Arena::new();
    let mut writer = writer();
    assert_eq!(writer.get_type_id(&types, float()).unwrap(), 1);
    assert_eq!(writer.get_type_id(&types, float()).unwrap(), 1);
    let matrix = LookupType::Local(LocalType::Matrix {
        columns: VectorSize::Tri,
        rows: VectorSize::Bi,
        width: 4,
    });
    assert_eq!(writer.get_type_id(&types, matrix).unwrap(), 2);
    // the column was declared with it
    let column = LookupType::Local(LocalType::Vector {
        size: VectorSize::Bi,
        kind: ScalarKind::Float,
        width: 4,
    });
    assert_eq!(writer.get_type_id(&types, column).unwrap(), 3);
    assert_eq!(writer.id_count(), 3);
}

#[test]
fn nested_types_are_followed_to_the_last() {
    let mut types = Arena::new();
    let sampler = types.append(Type {
        name: None,
        inner: TypeInner::Sampler { comparison: false },
    });
    let mut outer = sampler;
    for _ in 0..4 {
        outer = types.append(Type {
            name: None,
            inner: TypeInner::Struct {
                block: false,
                members: vec![StructMember {
                    name: None,
                    span: None,
                    ty: outer,
                }],
            },
        });
    }
    let mut writer = writer();
    assert_eq!(
        writer
            .get_type_id(&types, LookupType::Handle(outer))
            .unwrap(),
        1
    );
    assert_eq!(
        writer
            .get_type_id(&types, LookupType::Handle(sampler))
            .unwrap(),
        5
    );
    assert_eq!(writer.id_count(), 5);
}

#[test]
fn scalars_of_the_arena_are_known_by_their_structure() {
    let mut types = Arena::new();
    let inner = || TypeInner::Scalar {
        kind: ScalarKind::Float,
        width: 4,
    };
    let a = types.append(Type {
        name: None,
        inner: inner(),
    });
    let b = types.append(Type {
        name: None,
        inner: inner(),
    });
    let mut writer = writer();
    let id = writer.get_type_id(&types, LookupType::Handle(a)).unwrap();
    assert_eq!(
        writer.get_type_id(&types, LookupType::Handle(b)).unwrap(),
        id
    );
    assert_eq!(writer.get_type_id(&types, float()).unwrap(), id);
}

#[test]
fn pointer_without_a_handle_is_refused() {
    let mut types = Arena::new();
    let base = types.append(Type {
        name: None,
        inner: TypeInner::Sampler { comparison: false },
    });
    let mut writer = writer();
    let pointer = LookupType::Local(LocalType::Pointer {
        base,
        class: VariableClass::Private,
    });
    assert!(matches!(
        writer.get_type_id(&types, pointer),
        Err(Error::FeatureNotImplemented("pointer declaration"))
    ));
    assert_eq!(writer.id_count(), 1);
}

#[test]
fn pointer_is_declared_once() {
    let mut types = Arena::new();
    let base = types.append(Type {
        name: None,
        inner: TypeInner::Sampler { comparison: false },
    });
    let pointer = types.append(Type {
        name: None,
        inner: TypeInner::Pointer {
            base,
            class: VariableClass::Private,
        },
    });
    let mut writer = writer();
    let id = writer
        .get_pointer_id(&types, base, VariableClass::Function)
        .unwrap();
    assert_eq!(id, 2);
    assert_eq!(
        writer
            .get_pointer_id(&types, base, VariableClass::Function)
            .unwrap(),
        id
    );
    // a type of pointers stands for itself
    let own = writer
        .get_type_id(&types, LookupType::Handle(pointer))
        .unwrap();
    assert_eq!(
        writer
            .get_pointer_id(&types, pointer, VariableClass::Function)
            .unwrap(),
        own
    );
    // a type of pointers that is made on the way is not
    let first = writer
        .create_pointer_type(
            LookupType::Handle(base),
            spirv::StorageClass::Uniform,
            &types,
        )
        .unwrap();
    let second = writer
        .create_pointer_type(
            LookupType::Handle(base),
            spirv::StorageClass::Uniform,
            &types,
        )
        .unwrap();
    assert_eq!(second.0, first.0 + 1);
}

#[test]
fn arena_type_takes_the_place_of_its_structure_and_keeps_it() {
    let mut types = Arena::new();
    let matrix = types.append(Type {
        name: None,
        inner: TypeInner::Matrix {
            columns: VectorSize::Bi,
            rows: VectorSize::Bi,
            width: 4,
        },
    });
    let structure = LookupType::Local(LocalType::Matrix {
        columns: VectorSize::Bi,
        rows: VectorSize::Bi,
        width: 4,
    });
    let mut writer = writer();
    let first = writer.get_type_id(&types, structure).unwrap();
    let own = writer
        .get_type_id(&types, LookupType::Handle(matrix))
        .unwrap();
    assert_ne!(first, own);
    assert_eq!(writer.get_type_id(&types, structure).unwrap(), own);
    writer
        .get_pointer_id(&types, matrix, VariableClass::Private)
        .unwrap();
    assert_eq!(
        writer
            .get_type_id(&types, LookupType::Handle(matrix))
            .unwrap(),
        own
    );
    assert_eq!(writer.get_type_id(&types, structure).unwrap(), own);
}

#[test]
fn pointers_have_identifiers_of_their_own() {
    let mut types = Arena::new();
    let sampler = types.append(Type {
        name: None,
        inner: TypeInner::Sampler { comparison: false },
    });
    let other = types.append(Type {
        name: None,
        inner: TypeInner::Sampler { comparison: true },
    });
    let mut writer = writer();
    let mut ids = Vec::new();
    // the last two have one storage class in the module
    for class in [
        VariableClass::Function,
        VariableClass::Uniform,
        VariableClass::Storage,
    ] {
        ids.push(writer.get_pointer_id(&types, sampler, class).unwrap());
        ids.push(writer.get_pointer_id(&types, other, class).unwrap());
    }
    ids.sort_unstable();
    ids.dedup();
    assert_eq!(ids.len(), 6);
}

#[test]
fn function_types_have_identifiers_of_their_own() {
    let mut writer = writer();
    let mut ask = |parameter_type_ids: Vec<u32>, return_type_id| {
        writer.get_function_type(LookupFunctionType {
            parameter_type_ids,
            return_type_id,
        })
    };
    assert_eq!(ask(vec![], 7), 1);
    assert_eq!(ask(vec![7], 7), 2);
    assert_eq!(ask(vec![], 8), 3);
    assert_eq!(ask(vec![7, 8], 7), 4);
    assert_eq!(ask(vec![8, 7], 7), 5);
    assert_eq!(ask(vec![7], 7), 2);
}

#[test]
fn return_type_and_function_type_are_declared_once() {
    let types = Arena::new();
    let mut writer = writer();
    let nothing = writer.get_function_return_type(None, &types).unwrap();
    assert_eq!(nothing, 1);
    assert_eq!(
        writer.get_function_return_type(None, &types).unwrap(),
        nothing
    );
    let key = || LookupFunctionType {
        parameter_type_ids: vec![nothing],
        return_type_id: nothing,
    };
    assert_eq!(writer.get_function_type(key()), 2);
    assert_eq!(writer.get_function_type(key()), 2);
    assert_eq!(writer.id_count(), 2);
}

#[test]
fn constant_and_variable_are_declared_once() {
    let mut module = module();
    let one = module.constants.append(Constant {
        name: None,
        specialization: None,
        inner: ConstantInner::Scalar {
            width: 4,
            value: ScalarValue::Uint(1),
        },
    });
    let ty = module.types.append(Type {
        name: None,
        inner: TypeInner::Scalar {
            kind: ScalarKind::Uint,
            width: 4,
        },
    });
    let variable = module.global_variables.append(GlobalVariable {
        name: None,
        class: VariableClass::Private,
        binding: None,
        ty,
        init: Some(one),
        interpolation: None,
        storage_access: StorageAccess { bits: 0 },
    });
    let mut writer = writer();
    assert_eq!(writer.get_constant_id(one, &module).unwrap(), 1);
    let found = writer.get_global_variable_id(&module, variable).unwrap();
    assert_eq!(found, (3, spirv::StorageClass::Private));
    let count = writer.id_count();
    assert_eq!(writer.get_constant_id(one, &module).unwrap(), 1);
    assert_eq!(
        writer.get_global_variable_id(&module, variable).unwrap(),
        found
    );
    assert_eq!(writer.id_count(), count);
    assert_eq!(writer.create_constant(2, &[5]), count + 1);
}

#[test]
fn composite_that_holds_itself_is_written_once() {
    let mut module = module();
    let ty = module.types.append(Type {
        name: None,
        inner: TypeInner::Struct {
            block: false,
            members: Vec::new(),
        },
    });
    let own: Handle<Constant> = Handle::new(0);
    module.constants.append(Constant {
        name: None,
        specialization: None,
        inner: ConstantInner::Composite {
            ty,
            components: vec![own],
        },
    });
    let mut writer = writer();
    assert_eq!(writer.get_constant_id(own, &module).unwrap(), 1);
    assert_eq!(writer.id_count(), 2);
}

#[test]
fn capabilities_are_alternatives() {
    let mut writer = writer();
    assert!(writer.check(&[]).is_ok());
    assert!(writer
        .check(&[spirv::Capability::Kernel, spirv::Capability::Shader])
        .is_ok());
    match writer.check(&[spirv::Capability::Kernel, spirv::Capability::Geometry]) {
        Err(Error::MissingCapabilities(list)) => assert_eq!(
            list,
            vec![spirv::Capability::Kernel, spirv::Capability::Geometry]
        ),
        other => panic!("{:?}", other),
    }
}

#[test]
fn dimensions_of_images() {
    assert_eq!(map_dim(ImageDimension::D1), spirv::Dim::Dim1D);
    assert_eq!(map_dim(ImageDimension::D2), spirv::Dim::Dim2D);
    assert_eq!(map_dim(ImageDimension::D3), spirv::Dim::Dim2D);
    assert_eq!(map_dim(ImageDimension::Cube), spirv::Dim::DimCube);
}

#[test]
fn scalar_is_declared_by_its_bits() {
    let writer = writer();
    let words = |kind, width| {
        let mut words = Vec::new();
        writer.write_scalar(7, kind, width).to_words(&mut words);
        words.remove(0);
        words
    };
    assert_eq!(words(ScalarKind::Sint, 4), vec![7, 32, 1]);
    assert_eq!(words(ScalarKind::Uint, 2), vec![7, 16, 0]);
    assert_eq!(words(ScalarKind::Float, 8), vec![7, 64]);
    assert_eq!(words(ScalarKind::Bool, 1), vec![7]);
}

#[test]
fn requirements_come_from_the_headers() {
    assert_eq!(
        spirv::MemoryModel::GLSL450.required_capabilities(),
        &[spirv::Capability::Shader]
    );
    assert!(spirv::AddressingModel::Logical
        .required_capabilities()
        .is_empty());
    assert!(spirv::StorageClass::Function
        .required_capabilities()
        .is_empty());
    assert_eq!(
        spirv::ExecutionModel::GLCompute.required_capabilities(),
        &[spirv::Capability::Shader]
    );
    assert!(spirv::ExecutionMode::LocalSize
        .required_capabilities()
        .is_empty());
    assert_eq!(
        spirv::ExecutionMode::OriginUpperLeft.required_capabilities(),
        &[spirv::Capability::Shader]
    );
}
